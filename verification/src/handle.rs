//! The handle of a spawned task: the receiving end of the one-message queue
//! on which the task's output arrives.
use crate::channel::{Channel, ChannelView, TryRecvError, TrySendError, CHANNEL_CAPACITY};
use vstd::prelude::*;

verus! {

/// Well-formedness of a handle's result queue: it has the runtime's bound,
/// its only sender is the task, and while the task is alive nothing has been
/// sent on it yet.
pub open spec fn handle_wf<T>(c: ChannelView<T>) -> bool {
    &&& c.wf()
    &&& c.bound == Some(CHANNEL_CAPACITY as nat)
    &&& c.receiver_alive
    &&& c.senders <= 1
    &&& c.items.len() <= 1
    &&& c.senders == 1 ==> c.items.len() == 0
}

/// The state of a result queue after the task finished with `v`: `v` is
/// queued and the task's sending end is gone.
pub open spec fn after_complete<T>(c: ChannelView<T>, v: T) -> ChannelView<T> {
    ChannelView { items: c.items.push(v), senders: 0, ..c }
}

/// The state of a result queue after the task was dropped without output.
pub open spec fn after_abandon<T>(c: ChannelView<T>) -> ChannelView<T> {
    ChannelView { senders: 0, ..c }
}

/// Where the output of one spawned task is collected.
pub struct Handle<T> {
    rx: Channel<T>,
}

impl<T> View for Handle<T> {
    type V = ChannelView<T>;

    closed spec fn view(&self) -> ChannelView<T> {
        self.rx@
    }
}

impl<T> Handle<T> {
    /// The handle of a task that was just spawned: nothing has arrived and
    /// the task holds the one sending end.
    pub fn new() -> (h: Self)
        ensures
            h@ == ChannelView::<T>::fresh(Some(CHANNEL_CAPACITY as nat)),
            handle_wf(h@),
    {
        Handle { rx: Channel::bounded(CHANNEL_CAPACITY) }
    }

    /// Whether the task that feeds this handle is still alive.
    pub fn task_alive(&self) -> (b: bool)
        ensures
            b == (self@.senders == 1),
    {
        self.rx.sender_count() == 1
    }

    /// The task finished with output `v`: the output is queued for the
    /// handle and the task's sending end is dropped.
    pub fn complete(&mut self, v: T)
        requires
            handle_wf(old(self)@),
            old(self)@.senders == 1,
        ensures
            final(self)@ == after_complete(old(self)@, v),
            handle_wf(final(self)@),
    {
        let r = self.rx.try_send(v);
        proof {
            assert(r is Ok);
        }
        self.rx.drop_sender();
    }

    /// The task was dropped before it produced an output: its sending end is
    /// gone and nothing will arrive.
    pub fn abandon(&mut self)
        requires
            handle_wf(old(self)@),
            old(self)@.senders == 1,
        ensures
            final(self)@ == after_abandon(old(self)@),
            handle_wf(final(self)@),
    {
        self.rx.drop_sender();
    }

    /// Takes the task's output if it has arrived. `Err(Empty)` means the task
    /// is still running (a blocking caller waits and asks again);
    /// `Err(Disconnected)` means the task is gone and no output is queued.
    pub fn get_data(&mut self) -> (r: Result<T, TryRecvError>)
        requires
            handle_wf(old(self)@),
        ensures
            r == old(self)@.recv_result(),
            final(self)@ == old(self)@.after_recv(),
            handle_wf(final(self)@),
    {
        self.rx.try_recv()
    }
}

/// What a read gives back of the write: once the task has finished with `v`,
/// the next `get_data` returns `v`, and every one after that reports the
/// task gone.
pub proof fn lemma_output_read_once<T>(c: ChannelView<T>, v: T)
    requires
        handle_wf(c),
        c.senders == 1,
    ensures
        handle_wf(after_complete(c, v)),
        after_complete(c, v).recv_result() == Ok::<T, TryRecvError>(v),
        after_complete(c, v).after_recv().recv_result() == Err::<T, TryRecvError>(
            TryRecvError::Disconnected,
        ),
        after_complete(c, v).after_recv().after_recv() == after_complete(c, v).after_recv(),
{
    assert(after_complete(c, v).after_recv().items =~= Seq::<T>::empty());
}

/// A handle yields at most one value: from any valid handle, once
/// `get_data` has returned a value, the handle is left with nothing queued
/// and no task to send more, so every later `get_data` reports the task
/// gone, and neither `complete` nor `abandon` can apply to it any more.
pub proof fn lemma_at_most_one_value<T>(c: ChannelView<T>)
    requires
        handle_wf(c),
        c.recv_result() is Ok,
    ensures
        handle_wf(c.after_recv()),
        c.after_recv().items.len() == 0,
        c.after_recv().senders == 0,
        c.after_recv().recv_result() == Err::<T, TryRecvError>(TryRecvError::Disconnected),
        c.after_recv().after_recv() == c.after_recv(),
{
}

/// While the task is alive and has not finished, `get_data` reports that
/// nothing has arrived yet and leaves the handle unchanged.
pub proof fn lemma_pending_until_complete<T>(c: ChannelView<T>)
    requires
        handle_wf(c),
        c.senders == 1,
    ensures
        c.recv_result() == Err::<T, TryRecvError>(TryRecvError::Empty),
        c.after_recv() == c,
{
}

/// A task dropped without output makes `get_data` report it gone.
pub proof fn lemma_abandoned_is_disconnected<T>(c: ChannelView<T>)
    requires
        handle_wf(c),
        c.senders == 1,
    ensures
        after_abandon(c).recv_result() == Err::<T, TryRecvError>(TryRecvError::Disconnected),
{
}

} // verus!
