use std::io;

use cancellable::echo::{respond, Reply};
use cancellable::step::after_step;
use cancellable::{CancelHandle, Cancellable, Flow, LoopStep};

#[derive(Debug, PartialEq)]
enum Fault {
    Broken(u32),
}

/// Returns `Next` until call `stop_at`, then `Break`, or the fault on
/// call `fail_at`.
struct Counter {
    calls: u32,
    stop_at: u32,
    fail_at: u32,
}

impl Cancellable for Counter {
    type Error = Fault;

    fn execute(&mut self) -> Result<LoopStep, Fault> {
        self.calls += 1;
        if self.calls == self.fail_at {
            Err(Fault::Broken(self.calls))
        } else if self.calls == self.stop_at {
            Ok(LoopStep::Break)
        } else {
            Ok(LoopStep::Next)
        }
    }
}

/// Fails with an I/O error on call `fail_at`.
struct Reader {
    calls: u32,
    fail_at: u32,
}

impl Cancellable for Reader {
    type Error = io::Error;

    fn execute(&mut self) -> Result<LoopStep, io::Error> {
        self.calls += 1;
        if self.calls == self.fail_at {
            Err(io::Error::new(io::ErrorKind::ConnectionReset, "peer went away"))
        } else {
            Ok(LoopStep::Next)
        }
    }
}

/// Always returns `Next`; cancels its own worker on call `cancel_at`.
struct Forever {
    calls: u32,
    cancel_at: u32,
    cancels: u32,
    handle: CancelHandle,
}

impl Cancellable for Forever {
    type Error = Fault;

    fn execute(&mut self) -> Result<LoopStep, Fault> {
        self.calls += 1;
        if self.calls == self.cancel_at {
            for _ in 0..self.cancels {
                self.handle.cancel();
            }
        }
        Ok(LoopStep::Next)
    }
}

fn run_blocking<T: Cancellable>(executor: &mut T) -> Result<(), T::Error> {
    loop {
        if let Flow::Finish(r) = executor.step() {
            return r;
        }
    }
}

fn run_worker<T: Cancellable>(executor: &mut T, cancel: &CancelHandle) -> Result<(), T::Error> {
    loop {
        if let Flow::Finish(r) = executor.step_unless_cancelled(cancel) {
            return r;
        }
    }
}

fn counter(stop_at: u32, fail_at: u32) -> Counter {
    Counter { calls: 0, stop_at, fail_at }
}

#[test]
fn run_breaks_on_fourth_call() {
    let mut c = counter(4, 0);
    assert_eq!(run_blocking(&mut c), Ok(()));
    assert_eq!(c.calls, 4);
}

#[test]
fn run_breaks_on_first_call() {
    let mut c = counter(1, 0);
    assert_eq!(run_blocking(&mut c), Ok(()));
    assert_eq!(c.calls, 1);
}

#[test]
fn run_breaks_after_many_calls() {
    let mut c = counter(1000, 0);
    assert_eq!(run_blocking(&mut c), Ok(()));
    assert_eq!(c.calls, 1000);
}

#[test]
fn run_returns_error_of_third_call() {
    let mut c = counter(0, 3);
    assert_eq!(run_blocking(&mut c), Err(Fault::Broken(3)));
    assert_eq!(c.calls, 3);
}

#[test]
fn run_error_before_break_wins() {
    let mut c = counter(5, 2);
    assert_eq!(run_blocking(&mut c), Err(Fault::Broken(2)));
    assert_eq!(c.calls, 2);
}

#[test]
fn run_returns_io_error_of_third_call() {
    let mut r = Reader { calls: 0, fail_at: 3 };
    let e = run_blocking(&mut r).unwrap_err();
    assert_eq!(e.kind(), io::ErrorKind::ConnectionReset);
    assert_eq!(e.to_string(), "peer went away");
    assert_eq!(r.calls, 3);
}

#[test]
fn step_reports_each_outcome() {
    let mut c = counter(2, 0);
    assert!(matches!(c.step(), Flow::Continue));
    assert!(matches!(c.step(), Flow::Finish(Ok(()))));
    assert_eq!(c.calls, 2);
}

#[test]
fn after_step_decides() {
    assert!(matches!(after_step::<Fault>(Ok(LoopStep::Next)), Flow::Continue));
    assert!(matches!(after_step::<Fault>(Ok(LoopStep::Break)), Flow::Finish(Ok(()))));
    assert!(matches!(after_step(Err(Fault::Broken(7))), Flow::Finish(Err(Fault::Broken(7)))));
}

#[test]
fn new_handle_is_running() {
    let h = CancelHandle::new();
    assert!(h.is_running());
}

#[test]
fn cancel_clears_the_flag() {
    let h = CancelHandle::new();
    h.cancel();
    assert!(!h.is_running());
}

#[test]
fn cancel_twice_is_cancel_once() {
    let once = CancelHandle::new();
    once.cancel();
    let twice = CancelHandle::new();
    twice.cancel();
    twice.cancel();
    assert_eq!(once.is_running(), twice.is_running());

    let mut a = Forever { calls: 0, cancel_at: 3, cancels: 1, handle: CancelHandle::new() };
    let ha = a.handle.clone();
    let mut b = Forever { calls: 0, cancel_at: 3, cancels: 5, handle: CancelHandle::new() };
    let hb = b.handle.clone();
    assert_eq!(run_worker(&mut a, &ha), run_worker(&mut b, &hb));
    assert_eq!(a.calls, b.calls);
}

#[test]
fn cancel_through_any_clone() {
    let original = CancelHandle::new();
    let clones: Vec<CancelHandle> = (0..8).map(|_| original.clone()).collect();
    let again = clones[3].clone();
    clones[5].cancel();
    assert!(!original.is_running());
    assert!(!again.is_running());
    assert!(clones.iter().all(|c| !c.is_running()));
}

#[test]
fn clones_of_other_handles_are_untouched() {
    let first = CancelHandle::new();
    let second = CancelHandle::new();
    first.clone().cancel();
    assert!(!first.is_running());
    assert!(second.is_running());
}

#[test]
fn worker_stops_after_cancel() {
    let handle = CancelHandle::new();
    let mut f = Forever { calls: 0, cancel_at: 3, cancels: 1, handle: handle.clone() };
    assert_eq!(run_worker(&mut f, &handle), Ok(()));
    // the step in flight completes, no further one starts
    assert_eq!(f.calls, 3);
}

#[test]
fn worker_cancelled_before_start_never_executes() {
    let handle = CancelHandle::new();
    handle.cancel();
    let mut c = counter(0, 1);
    assert_eq!(run_worker(&mut c, &handle), Ok(()));
    assert_eq!(c.calls, 0);
}

#[test]
fn worker_returns_error_of_third_call() {
    let handle = CancelHandle::new();
    let mut c = counter(0, 3);
    assert_eq!(run_worker(&mut c, &handle), Err(Fault::Broken(3)));
    assert_eq!(c.calls, 3);
    assert!(handle.is_running());
}

#[test]
fn worker_breaks_on_fourth_call() {
    let handle = CancelHandle::new();
    let mut c = counter(4, 0);
    assert_eq!(run_worker(&mut c, &handle), Ok(()));
    assert_eq!(c.calls, 4);
}

fn chars(s: &str) -> Vec<char> {
    s.chars().collect()
}

#[test]
fn stop_word_stops() {
    let r = respond(Some(chars("STOP")));
    assert!(matches!(r, Reply::Stop));
    assert_eq!(r.loop_step(), LoopStep::Break);
}

#[test]
fn other_text_is_reversed() {
    match respond(Some(chars("héllo"))) {
        Reply::Echo(v) => assert_eq!(v, chars("olléh")),
        _ => panic!("expected an echo"),
    }
    assert_eq!(respond(Some(chars("abc"))).loop_step(), LoopStep::Next);
}

#[test]
fn near_stop_words_are_echoed() {
    match respond(Some(chars("STOPS"))) {
        Reply::Echo(v) => assert_eq!(v, chars("SPOTS")),
        _ => panic!("expected an echo"),
    }
    match respond(Some(chars("stop"))) {
        Reply::Echo(v) => assert_eq!(v, chars("pots")),
        _ => panic!("expected an echo"),
    }
}

#[test]
fn empty_line_is_echoed_empty() {
    match respond(Some(Vec::new())) {
        Reply::Echo(v) => assert!(v.is_empty()),
        _ => panic!("expected an echo"),
    }
}

#[test]
fn undecodable_line_is_silent() {
    let r = respond(None);
    assert!(matches!(r, Reply::Silent));
    assert_eq!(r.loop_step(), LoopStep::Next);
}

#[test]
fn step_if_stopped_never_executes() {
    let mut c = counter(1, 0);
    assert!(matches!(c.step_if(false), Flow::Finish(Ok(()))));
    assert_eq!(c.calls, 0);
}

#[test]
fn step_if_running_executes_once() {
    let mut c = counter(2, 0);
    assert!(matches!(c.step_if(true), Flow::Continue));
    assert!(matches!(c.step_if(true), Flow::Finish(Ok(()))));
    assert_eq!(c.calls, 2);
    let mut f = counter(0, 1);
    assert!(matches!(f.step_if(true), Flow::Finish(Err(Fault::Broken(1)))));
}
