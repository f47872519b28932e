//! The state shared between a timer future and the thread that fires it:
//! the future is ready once the timer has fired, and a poll that finds it
//! not ready leaves a waker for the firing thread to call.
use vstd::prelude::*;

verus! {

/// The answer of a poll: the output, or not yet.
#[derive(Debug, PartialEq, Eq)]
pub enum TaskPoll<T> {
    /// The future completed with this output.
    Ready(T),
    /// The future is not done; it has arranged to be woken.
    Pending,
}

/// The output of a timer future.
pub const TIMER_OUTPUT: u64 = 1;

/// The mathematical state of a timer.
pub struct TimerView {
    /// Whether the timer has fired.
    pub complete: bool,
    /// Whether a poll has left a waker.
    pub waker_registered: bool,
}

impl TimerView {
    /// What a poll returns.
    pub open spec fn poll_result(self) -> TaskPoll<u64> {
        if self.complete {
            TaskPoll::Ready(TIMER_OUTPUT)
        } else {
            TaskPoll::Pending
        }
    }

    /// The state after a poll: a poll that is not ready leaves a waker.
    pub open spec fn after_poll(self) -> Self {
        if self.complete {
            self
        } else {
            TimerView { waker_registered: true, ..self }
        }
    }

    /// The state after the timer fired.
    pub open spec fn after_fire(self) -> Self {
        TimerView { complete: true, ..self }
    }
}

/// The state of a timer future, shared with its firing thread.
pub struct TimerState {
    complete: bool,
    waker_registered: bool,
}

impl View for TimerState {
    type V = TimerView;

    closed spec fn view(&self) -> TimerView {
        TimerView { complete: self.complete, waker_registered: self.waker_registered }
    }
}

impl TimerState {
    /// A timer that has not fired and has not been polled.
    pub fn new() -> (t: Self)
        ensures
            t@ == (TimerView { complete: false, waker_registered: false }),
    {
        TimerState { complete: false, waker_registered: false }
    }

    /// Whether the timer has fired.
    pub fn is_complete(&self) -> (b: bool)
        ensures
            b == self@.complete,
    {
        self.complete
    }

    /// Polls the timer future: ready with its output once the timer has
    /// fired; otherwise a waker is left and the poll is pending.
    pub fn poll(&mut self) -> (r: TaskPoll<u64>)
        ensures
            r == old(self)@.poll_result(),
            final(self)@ == old(self)@.after_poll(),
    {
        if self.complete {
            TaskPoll::Ready(TIMER_OUTPUT)
        } else {
            self.waker_registered = true;
            TaskPoll::Pending
        }
    }

    /// The timer fires. Returns whether a waker was left, that is, whether
    /// the firing thread must wake the task.
    pub fn fire(&mut self) -> (wake: bool)
        ensures
            wake == old(self)@.waker_registered,
            final(self)@ == old(self)@.after_fire(),
    {
        self.complete = true;
        self.waker_registered
    }
}

/// No wake-up is lost: a poll that is not ready leaves a waker, so the
/// firing that follows asks for a wake, and the poll after that is ready.
pub proof fn lemma_pending_then_fire_wakes(t: TimerView)
    requires
        !t.complete,
    ensures
        t.poll_result() == TaskPoll::<u64>::Pending,
        t.after_poll().waker_registered,
        t.after_poll().after_fire().poll_result() == TaskPoll::Ready(TIMER_OUTPUT),
{
}

/// Once fired, a timer stays ready: every later poll returns its output.
pub proof fn lemma_fired_stays_ready(t: TimerView)
    requires
        t.complete,
    ensures
        t.poll_result() == TaskPoll::Ready(TIMER_OUTPUT),
        t.after_poll() == t,
        t.after_fire() == t,
{
}

/// A poll never fires the timer: whether the timer has fired is the same
/// after a poll as before it, so an unfired timer answers pending to every
/// poll, however many, until it fires.
pub proof fn lemma_poll_does_not_fire(t: TimerView)
    ensures
        t.after_poll().complete == t.complete,
        !t.complete ==> t.poll_result() == TaskPoll::<u64>::Pending,
        !t.complete ==> t.after_poll().poll_result() == TaskPoll::<u64>::Pending,
        !t.complete ==> t.after_poll().after_poll().poll_result() == TaskPoll::<u64>::Pending,
        t.complete ==> t.poll_result() == TaskPoll::Ready(1u64),
{
}

/// The state after `n` polls in a row.
pub open spec fn polled(t: TimerView, n: nat) -> TimerView
    decreases n,
{
    if n == 0 {
        t
    } else {
        polled(t, (n - 1) as nat).after_poll()
    }
}

/// However many polls come first, an unfired timer stays pending until it
/// fires, and the poll after the firing is ready with 1.
pub proof fn lemma_pending_until_fired(t: TimerView, n: nat)
    requires
        !t.complete,
    ensures
        !polled(t, n).complete,
        polled(t, n).poll_result() == TaskPoll::<u64>::Pending,
        polled(t, n).after_fire().poll_result() == TaskPoll::Ready(1u64),
    decreases n,
{
    if n > 0 {
        lemma_pending_until_fired(t, (n - 1) as nat);
    }
}

/// Firing marks the timer fired and keeps the waker; it reports a waker
/// left by an earlier pending poll.
pub proof fn lemma_fire_rule(t: TimerView)
    ensures
        t.after_fire().complete,
        t.after_fire().waker_registered == t.waker_registered,
        !t.complete ==> t.after_poll().after_fire().waker_registered,
{
}

} // verus!
