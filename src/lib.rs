//! Repeatable steps driven in a loop, with cooperative cancellation.

pub mod cancel;
pub mod echo;
pub mod laws;
pub mod step;

pub use cancel::CancelHandle;
pub use step::{Cancellable, Flow, LoopStep};
