use vstd::prelude::*;

use std::sync::atomic::AtomicBool;
use std::sync::atomic::Ordering;
use std::sync::Arc;

verus! {

/// A cloneable capability to ask a worker loop to stop before its next step.
pub struct CancelHandle {
    keep_running: Arc<AtomicBool>,
}

impl CancelHandle {
    /// A handle on a fresh flag that says running.
    pub fn new() -> (r: CancelHandle) {
        CancelHandle { keep_running: Arc::new(AtomicBool::new(true)) }
    }

    /// Asks the loop to stop: clears the shared flag.
    pub fn cancel(&self) {
        self.keep_running.store(false, Ordering::Relaxed);
    }

    /// Reads the shared flag: `false` once some handle on it has cancelled.
    pub fn is_running(&self) -> (r: bool) {
        self.keep_running.load(Ordering::Relaxed)
    }
}

impl Clone for CancelHandle {
    fn clone(&self) -> (r: CancelHandle)
        ensures
            r == *self,
    {
        CancelHandle { keep_running: self.keep_running.clone() }
    }
}

} // verus!
