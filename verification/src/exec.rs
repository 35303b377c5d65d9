//! Frame-synchronized cooperative execution.
//!
//! An application is a task that runs until the end of a frame, yields, and
//! is resumed by its host for the next frame. The executor resumes a task
//! exactly once per call and never touches a task that has finished.
use vstd::prelude::*;

verus! {

/// What a task reports when it hands control back.
#[derive(Copy, Clone, PartialEq, Eq, Structural, Hash, Debug)]
pub enum Step {
    /// The task reached the end of a frame and wants to be resumed.
    Yielded,
    /// The task returned; it must not be resumed again.
    Finished,
}

/// Result of advancing a task by one frame.
#[derive(Copy, Clone, PartialEq, Eq, Structural, Hash, Debug)]
pub enum Advance {
    Yielded,
    Terminated,
}

/// A task that runs one frame at a time in a context of type `C`, which
/// holds what the task draws on and reads input from.
pub trait FrameTask<C>: Sized {
    /// Whether one resumption can lead from the task `self` in context
    /// `ctx` to the task `task` in context `after`, reporting `step`.
    /// Unless a task says otherwise, anything can.
    open spec fn resumes_to(self, ctx: C, task: Self, after: C, step: Step) -> bool {
        true
    }

    /// Run the task up to the point where it yields or returns.
    fn resume(&mut self, ctx: &mut C) -> (step: Step)
        ensures
            old(self).resumes_to(*old(ctx), *final(self), *final(ctx), step),
    ;
}

/// Task that waits for the end of the current frame: it yields once, and
/// is finished when it is resumed after that.
#[derive(Debug)]
pub struct FrameFuture {
    done: bool,
}

impl Default for FrameFuture {
    fn default() -> (future: Self)
        ensures
            !future.waited(),
    {
        FrameFuture { done: false }
    }
}

impl FrameFuture {
    /// Whether the frame this future waits for has passed.
    pub closed spec fn waited(self) -> bool {
        self.done
    }

    /// A future that has not yielded yet.
    pub fn new() -> (future: Self)
        ensures
            !future.waited(),
    {
        FrameFuture { done: false }
    }
}

impl<C> FrameTask<C> for FrameFuture {
    open spec fn resumes_to(self, ctx: C, task: Self, after: C, step: Step) -> bool {
        &&& after == ctx
        &&& task.waited()
        &&& step == (if self.waited() {
            Step::Finished
        } else {
            Step::Yielded
        })
    }

    fn resume(&mut self, ctx: &mut C) -> (step: Step) {
        if self.done {
            Step::Finished
        } else {
            self.done = true;
            Step::Yielded
        }
    }
}

/// Resume a task once. The result is `None` while the task goes on and
/// `Some` when it has returned.
pub fn poll<C, T: FrameTask<C>>(task: &mut T, ctx: &mut C) -> (ready: Option<()>)
    ensures
        old(task).resumes_to(
            *old(ctx),
            *final(task),
            *final(ctx),
            if ready is Some {
                Step::Finished
            } else {
                Step::Yielded
            },
        ),
{
    match task.resume(ctx) {
        Step::Yielded => None,
        Step::Finished => Some(()),
    }
}

/// Drives one task, one frame per call.
pub struct Executor<T> {
    task: T,
    finished: bool,
}

impl<T> Executor<T> {
    /// The task in its current state.
    pub closed spec fn task(self) -> T {
        self.task
    }

    /// Whether the task has returned.
    pub closed spec fn is_terminated(self) -> bool {
        self.finished
    }

    /// An executor for a task that has not run yet.
    pub fn new(task: T) -> (executor: Self)
        ensures
            executor.task() == task,
            !executor.is_terminated(),
    {
        Executor { task, finished: false }
    }

    /// Whether the task has returned.
    pub fn terminated(&self) -> (finished: bool)
        ensures
            finished == self.is_terminated(),
    {
        self.finished
    }

    /// The executor once its task has reported `step`.
    pub fn settle(&mut self, step: Step) -> (result: Advance)
        requires
            !old(self).is_terminated(),
        ensures
            final(self).task() == old(self).task(),
            final(self).is_terminated() == (step == Step::Finished),
            result == (match step {
                Step::Yielded => Advance::Yielded,
                Step::Finished => Advance::Terminated,
            }),
    {
        match step {
            Step::Yielded => Advance::Yielded,
            Step::Finished => {
                self.finished = true;
                Advance::Terminated
            },
        }
    }
}

/// Whether one call of `advance` can lead from executor `before` in
/// context `ctx` to executor `after` in context `ctx_after` with `result`.
///
/// A terminated executor stays as it is, with its context, and reports
/// `Terminated`. Any other resumes its task once; it reports `Yielded` if
/// the task yielded, and is terminated if the task returned.
pub open spec fn advances_to<C, T: FrameTask<C>>(
    before: Executor<T>,
    ctx: C,
    after: Executor<T>,
    ctx_after: C,
    result: Advance,
) -> bool {
    if before.is_terminated() {
        &&& after == before
        &&& ctx_after == ctx
        &&& result == Advance::Terminated
    } else {
        &&& before.task().resumes_to(
            ctx,
            after.task(),
            ctx_after,
            if result == Advance::Yielded {
                Step::Yielded
            } else {
                Step::Finished
            },
        )
        &&& after.is_terminated() == (result == Advance::Terminated)
    }
}

impl<T> Executor<T> {
    /// Run the task until it yields or returns. Once the task has returned
    /// this does nothing and keeps reporting `Terminated`.
    pub fn advance<C>(&mut self, ctx: &mut C) -> (result: Advance) where T: FrameTask<C>
        ensures
            advances_to(*old(self), *old(ctx), *final(self), *final(ctx), result),
    {
        if self.finished {
            Advance::Terminated
        } else {
            let step = self.task.resume(ctx);
            self.settle(step)
        }
    }
}

/// One call in a run of an executor: where it started, where it ended and
/// what it reported.
pub struct Turn<C, T> {
    pub before: Executor<T>,
    pub ctx: C,
    pub after: Executor<T>,
    pub ctx_after: C,
    pub result: Advance,
}

/// Whether `turns` is a run: every turn is a call of `advance`, and each
/// starts with the executor that the turn before it left behind.
pub open spec fn is_run<C, T: FrameTask<C>>(turns: Seq<Turn<C, T>>) -> bool {
    &&& forall|i: int|
        0 <= i < turns.len() ==> advances_to(
            (#[trigger] turns[i]).before,
            turns[i].ctx,
            turns[i].after,
            turns[i].ctx_after,
            turns[i].result,
        )
    &&& forall|i: int|
        0 <= i < turns.len() - 1 ==> (#[trigger] turns[i + 1]).before == turns[i].after
}

/// A call on a terminated executor changes neither the executor nor its
/// task nor the context, and reports `Terminated`.
pub proof fn law_terminated_is_final<C, T: FrameTask<C>>(
    before: Executor<T>,
    ctx: C,
    after: Executor<T>,
    ctx_after: C,
    result: Advance,
)
    requires
        before.is_terminated(),
        advances_to(before, ctx, after, ctx_after, result),
    ensures
        result == Advance::Terminated,
        after == before,
        after.task() == before.task(),
        ctx_after == ctx,
{
}

/// In every run, a call that reports `Terminated` leaves an executor that
/// is terminated, and so does every call after it, with the task as the
/// first of them left it.
pub proof fn lemma_run_stays_terminated<C, T: FrameTask<C>>(
    turns: Seq<Turn<C, T>>,
    i: int,
    j: int,
)
    requires
        is_run(turns),
        0 <= i <= j < turns.len(),
        turns[i].result == Advance::Terminated,
    ensures
        turns[j].result == Advance::Terminated,
        turns[j].after == turns[i].after,
        turns[j].after.is_terminated(),
    decreases j - i,
{
    if i < j {
        lemma_run_stays_terminated(turns, i, j - 1);
        assert(turns[(j - 1) + 1].before == turns[j - 1].after);
    }
}

/// Every run of an executor reports `Yielded` on each call until the task
/// returns, and `Terminated` on the call where it returns and on every
/// call after that; the calls after that one resume nothing: they leave
/// the task and their context unchanged.
pub proof fn law_run_yields_until_terminated<C, T: FrameTask<C>>(turns: Seq<Turn<C, T>>)
    requires
        is_run(turns),
    ensures
        forall|i: int, j: int|
            0 <= i <= j < turns.len() && (#[trigger] turns[j]).result == Advance::Yielded ==> (
            #[trigger] turns[i]).result == Advance::Yielded,
        forall|i: int, j: int|
            0 <= i < j < turns.len() && (#[trigger] turns[i]).result == Advance::Terminated ==> {
                &&& (#[trigger] turns[j]).result == Advance::Terminated
                &&& turns[j].after.task() == turns[i].after.task()
                &&& turns[j].ctx_after == turns[j].ctx
            },
{
    assert forall|i: int, j: int|
        0 <= i <= j < turns.len() && (#[trigger] turns[j]).result == Advance::Yielded implies (
        #[trigger] turns[i]).result == Advance::Yielded by {
        if turns[i].result == Advance::Terminated {
            lemma_run_stays_terminated(turns, i, j);
        }
    }
    assert forall|i: int, j: int|
        0 <= i < j < turns.len() && (#[trigger] turns[i]).result == Advance::Terminated implies {
        &&& (#[trigger] turns[j]).result == Advance::Terminated
        &&& turns[j].after.task() == turns[i].after.task()
        &&& turns[j].ctx_after == turns[j].ctx
    } by {
        lemma_run_stays_terminated(turns, i, j);
        lemma_run_stays_terminated(turns, i, j - 1);
        assert(turns[(j - 1) + 1].before == turns[j - 1].after);
    }
}

} // verus!
