use navni::exec::{poll, Advance, Executor, FrameFuture, FrameTask, Step};

/// A task that yields a given number of times and counts how often it ran.
struct Countdown {
    left: u32,
    runs: u32,
}

impl FrameTask<Vec<u32>> for Countdown {
    fn resume(&mut self, ctx: &mut Vec<u32>) -> Step {
        self.runs += 1;
        ctx.push(self.left);
        if self.left == 0 {
            Step::Finished
        } else {
            self.left -= 1;
            Step::Yielded
        }
    }
}

#[test]
fn advance_yields_until_the_task_returns() {
    let mut log = Vec::new();
    let mut executor = Executor::new(Countdown { left: 3, runs: 0 });
    assert!(!executor.terminated());
    for _ in 0..3 {
        assert_eq!(executor.advance(&mut log), Advance::Yielded);
        assert!(!executor.terminated());
    }
    assert_eq!(executor.advance(&mut log), Advance::Terminated);
    assert!(executor.terminated());
    assert_eq!(log, vec![3, 2, 1, 0]);
}

#[test]
fn terminated_is_final() {
    let mut log = Vec::new();
    let mut executor = Executor::new(Countdown { left: 1, runs: 0 });
    assert_eq!(executor.advance(&mut log), Advance::Yielded);
    assert_eq!(executor.advance(&mut log), Advance::Terminated);
    let seen = log.clone();
    // The task is not run again.
    for _ in 0..5 {
        assert_eq!(executor.advance(&mut log), Advance::Terminated);
        assert!(executor.terminated());
    }
    assert_eq!(log, seen);
    assert_eq!(log, vec![1, 0]);
}

#[test]
fn task_that_returns_at_once() {
    let mut log = Vec::new();
    let mut executor = Executor::new(Countdown { left: 0, runs: 0 });
    assert_eq!(executor.advance(&mut log), Advance::Terminated);
    assert_eq!(executor.advance(&mut log), Advance::Terminated);
    assert_eq!(log, vec![0]);
}

#[test]
fn settle_records_the_step() {
    let mut executor = Executor::new(Countdown { left: 9, runs: 0 });
    assert_eq!(executor.settle(Step::Yielded), Advance::Yielded);
    assert!(!executor.terminated());
    assert_eq!(executor.settle(Step::Finished), Advance::Terminated);
    assert!(executor.terminated());
}

#[test]
fn frame_future_yields_once() {
    let mut ctx = ();
    let mut frame = FrameFuture::default();
    assert_eq!(frame.resume(&mut ctx), Step::Yielded);
    assert_eq!(frame.resume(&mut ctx), Step::Finished);
    assert_eq!(frame.resume(&mut ctx), Step::Finished);
    let mut executor = Executor::new(FrameFuture::new());
    assert_eq!(executor.advance(&mut ctx), Advance::Yielded);
    assert_eq!(executor.advance(&mut ctx), Advance::Terminated);
    assert_eq!(executor.advance(&mut ctx), Advance::Terminated);
}

#[test]
fn poll_tells_when_the_task_is_done() {
    let mut log = Vec::new();
    let mut task = Countdown { left: 2, runs: 0 };
    assert_eq!(poll(&mut task, &mut log), None);
    assert_eq!(poll(&mut task, &mut log), None);
    assert_eq!(poll(&mut task, &mut log), Some(()));
    assert_eq!(task.runs, 3);
    assert_eq!(log, vec![2, 1, 0]);
}
