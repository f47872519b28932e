//! A single-consumer message queue with the semantics of `std::sync::mpsc`:
//! messages come out in the order they went in, a bounded queue refuses a
//! message while it is full, a send fails once the receiver is gone, and a
//! receive reports disconnection only after every sender is gone and every
//! queued message has been taken.
use std::collections::VecDeque;
use vstd::prelude::*;

verus! {

/// Number of messages a bounded runtime queue holds before a send has to wait.
pub const CHANNEL_CAPACITY: usize = 1024;

/// Why a send did not go through; the message is handed back.
#[derive(Debug, PartialEq, Eq)]
pub enum TrySendError<T> {
    /// The queue is bounded and holds as many messages as it may.
    Full(T),
    /// The receiving end is gone.
    Disconnected(T),
}

/// Why a receive did not return a message.
#[derive(Debug, Clone, Copy, PartialEq, Eq, Structural)]
pub enum TryRecvError {
    /// No message is queued, but a sender may still send one.
    Empty,
    /// No message is queued and no sender is left.
    Disconnected,
}

/// The mathematical state of a queue.
pub struct ChannelView<T> {
    /// The queued messages, oldest first.
    pub items: Seq<T>,
    /// The most messages the queue holds at once; `None` for an unbounded queue.
    pub bound: Option<nat>,
    /// How many sending ends are alive.
    pub senders: nat,
    /// Whether the receiving end is alive.
    pub receiver_alive: bool,
}

impl<T> ChannelView<T> {
    /// A freshly made queue: empty, one sender, receiver alive.
    pub open spec fn fresh(bound: Option<nat>) -> Self {
        ChannelView { items: Seq::empty(), bound, senders: 1, receiver_alive: true }
    }

    /// Well-formedness: a bound is positive and never exceeded.
    pub open spec fn wf(self) -> bool {
        match self.bound {
            Some(c) => 0 < c && self.items.len() <= c,
            None => true,
        }
    }

    /// Whether one more message fits.
    pub open spec fn has_room(self) -> bool {
        match self.bound {
            Some(c) => self.items.len() < c,
            None => true,
        }
    }

    /// What a send of `v` reports.
    pub open spec fn send_result(self, v: T) -> Result<(), TrySendError<T>> {
        if !self.receiver_alive {
            Err(TrySendError::Disconnected(v))
        } else if !self.has_room() {
            Err(TrySendError::Full(v))
        } else {
            Ok(())
        }
    }

    /// The state after a send of `v`.
    pub open spec fn after_send(self, v: T) -> Self {
        if self.send_result(v) is Ok {
            ChannelView { items: self.items.push(v), ..self }
        } else {
            self
        }
    }

    /// What a receive reports.
    pub open spec fn recv_result(self) -> Result<T, TryRecvError> {
        if self.items.len() > 0 {
            Ok(self.items[0])
        } else if self.senders == 0 {
            Err(TryRecvError::Disconnected)
        } else {
            Err(TryRecvError::Empty)
        }
    }

    /// The state after a receive.
    pub open spec fn after_recv(self) -> Self {
        if self.items.len() > 0 {
            ChannelView { items: self.items.drop_first(), ..self }
        } else {
            self
        }
    }
}

/// A message queue; its view is a `ChannelView`.
pub struct Channel<T> {
    buf: VecDeque<T>,
    bound: Option<usize>,
    senders: u64,
    receiver_alive: bool,
}

impl<T> View for Channel<T> {
    type V = ChannelView<T>;

    closed spec fn view(&self) -> ChannelView<T> {
        ChannelView {
            items: self.buf@,
            bound: match self.bound {
                Some(c) => Some(c as nat),
                None => None,
            },
            senders: self.senders as nat,
            receiver_alive: self.receiver_alive,
        }
    }
}

impl<T> Channel<T> {
    /// A queue that holds at most `capacity` messages (`std::sync::mpsc::sync_channel`).
    pub fn bounded(capacity: usize) -> (c: Self)
        requires
            capacity > 0,
        ensures
            c@ == ChannelView::<T>::fresh(Some(capacity as nat)),
            c@.wf(),
    {
        Channel { buf: VecDeque::new(), bound: Some(capacity), senders: 1, receiver_alive: true }
    }

    /// A queue without a bound (`std::sync::mpsc::channel`).
    pub fn unbounded() -> (c: Self)
        ensures
            c@ == ChannelView::<T>::fresh(None),
            c@.wf(),
    {
        Channel { buf: VecDeque::new(), bound: None, senders: 1, receiver_alive: true }
    }

    /// Number of queued messages.
    pub fn len(&self) -> (n: usize)
        ensures
            n == self@.items.len(),
    {
        self.buf.len()
    }

    /// The oldest queued message, left in place.
    pub fn peek(&self) -> (r: Option<&T>)
        ensures
            r == (if self@.items.len() > 0 {
                Some(&self@.items[0])
            } else {
                None
            }),
    {
        if self.buf.len() > 0 {
            Some(&self.buf[0])
        } else {
            None
        }
    }

    /// The `i`-th queued message, oldest first, left in place.
    pub fn get(&self, i: usize) -> (r: &T)
        requires
            i < self@.items.len(),
        ensures
            *r == self@.items[i as int],
    {
        &self.buf[i]
    }

    /// Whether the receiving end is alive.
    pub fn receiver_alive(&self) -> (b: bool)
        ensures
            b == self@.receiver_alive,
    {
        self.receiver_alive
    }

    /// Number of sending ends alive.
    pub fn sender_count(&self) -> (n: u64)
        ensures
            n == self@.senders,
    {
        self.senders
    }

    /// Sends `v` without waiting: appends it at the back when the receiver is
    /// alive and there is room, hands it back otherwise.
    pub fn try_send(&mut self, v: T) -> (r: Result<(), TrySendError<T>>)
        requires
            old(self)@.wf(),
        ensures
            r == old(self)@.send_result(v),
            final(self)@ == old(self)@.after_send(v),
            final(self)@.wf(),
    {
        if !self.receiver_alive {
            return Err(TrySendError::Disconnected(v));
        }
        let full = match self.bound {
            Some(c) => self.buf.len() >= c,
            None => false,
        };
        if full {
            return Err(TrySendError::Full(v));
        }
        self.buf.push_back(v);
        Ok(())
    }

    /// Receives without waiting: takes the oldest message if there is one.
    pub fn try_recv(&mut self) -> (r: Result<T, TryRecvError>)
        requires
            old(self)@.wf(),
        ensures
            r == old(self)@.recv_result(),
            final(self)@ == old(self)@.after_recv(),
            final(self)@.wf(),
    {
        match self.buf.pop_front() {
            Some(v) => Ok(v),
            None => {
                if self.senders == 0 {
                    Err(TryRecvError::Disconnected)
                } else {
                    Err(TryRecvError::Empty)
                }
            },
        }
    }

    /// A sending end is cloned.
    pub fn add_sender(&mut self)
        requires
            old(self)@.senders < u64::MAX,
        ensures
            final(self)@ == (ChannelView { senders: old(self)@.senders + 1, ..old(self)@ }),
    {
        self.senders = self.senders + 1;
    }

    /// A sending end is dropped.
    pub fn drop_sender(&mut self)
        requires
            old(self)@.senders > 0,
        ensures
            final(self)@ == (ChannelView { senders: (old(self)@.senders - 1) as nat, ..old(self)@ }),
    {
        self.senders = self.senders - 1;
    }

    /// The receiving end is dropped; the messages still queued are dropped with it.
    pub fn drop_receiver(&mut self)
        ensures
            final(self)@ == (ChannelView { items: Seq::<T>::empty(), receiver_alive: false, ..old(self)@ }),
    {
        self.buf.clear();
        self.receiver_alive = false;
    }
}

/// The state after sending each message of `vs`, in order.
pub open spec fn send_all<T>(c: ChannelView<T>, vs: Seq<T>) -> ChannelView<T>
    decreases vs.len(),
{
    if vs.len() == 0 {
        c
    } else {
        send_all(c, vs.drop_last()).after_send(vs.last())
    }
}

/// The messages that `n` successive receives return, stopping at the first
/// receive that returns none.
pub open spec fn recv_all<T>(c: ChannelView<T>, n: nat) -> Seq<T>
    decreases n,
{
    if n == 0 {
        Seq::empty()
    } else {
        match c.recv_result() {
            Ok(v) => seq![v] + recv_all(c.after_recv(), (n - 1) as nat),
            Err(_) => Seq::empty(),
        }
    }
}

/// Whether `extra` more messages fit next to those queued.
pub open spec fn fits<T>(c: ChannelView<T>, extra: nat) -> bool {
    match c.bound {
        Some(b) => c.items.len() + extra <= b,
        None => true,
    }
}

proof fn lemma_send_all_appends<T>(c: ChannelView<T>, vs: Seq<T>)
    requires
        c.receiver_alive,
        fits(c, vs.len()),
    ensures
        send_all(c, vs) == (ChannelView { items: c.items + vs, ..c }),
    decreases vs.len(),
{
    if vs.len() > 0 {
        lemma_send_all_appends(c, vs.drop_last());
        assert(c.items + vs.drop_last() + seq![vs.last()] =~= c.items + vs);
        assert((c.items + vs.drop_last()).push(vs.last()) =~= c.items + vs);
    } else {
        assert(c.items + vs =~= c.items);
    }
}

proof fn lemma_recv_all_queued<T>(c: ChannelView<T>)
    ensures
        recv_all(c, c.items.len()) == c.items,
    decreases c.items.len(),
{
    if c.items.len() > 0 {
        lemma_recv_all_queued(c.after_recv());
        assert(seq![c.items[0]] + c.items.drop_first() =~= c.items);
    } else {
        assert(c.items =~= Seq::<T>::empty());
    }
}

/// First in, first out, for any number of messages: sending the messages
/// `vs` to an open queue with room for them all, then receiving as many
/// times as there are messages, returns the messages that were queued
/// before followed by `vs`, in order.
pub proof fn lemma_fifo<T>(c: ChannelView<T>, vs: Seq<T>)
    requires
        c.receiver_alive,
        fits(c, vs.len()),
    ensures
        send_all(c, vs).items == c.items + vs,
        recv_all(send_all(c, vs), c.items.len() + vs.len()) == c.items + vs,
{
    lemma_send_all_appends(c, vs);
    lemma_recv_all_queued(send_all(c, vs));
}

/// A message sent to an empty queue that has room and a live receiver is
/// the next message received, and receiving it restores the queue.
pub proof fn lemma_round_trip<T>(c: ChannelView<T>, v: T)
    requires
        c.wf(),
        c.receiver_alive,
        c.has_room(),
        c.items.len() == 0,
    ensures
        c.send_result(v) is Ok,
        c.after_send(v).recv_result() == Ok::<T, TryRecvError>(v),
        c.after_send(v).after_recv() == c,
{
    assert(c.after_send(v).after_recv().items =~= c.items);
}

/// A message already queued is received before any message sent after it.
pub proof fn lemma_send_keeps_head<T>(c: ChannelView<T>, v: T)
    requires
        c.items.len() > 0,
    ensures
        c.after_send(v).recv_result() == c.recv_result(),
{
}

/// Disconnection is reported only when no sender is left and nothing is
/// queued; while messages are queued they are delivered, senders or not.
pub proof fn lemma_drain_before_disconnect<T>(c: ChannelView<T>)
    ensures
        (c.recv_result() == Err::<T, TryRecvError>(TryRecvError::Disconnected)) <==> (c.senders
            == 0 && c.items.len() == 0),
        c.items.len() > 0 ==> c.recv_result() == Ok::<T, TryRecvError>(c.items[0]),
{
}

/// A refused send hands back the very message it was given.
pub proof fn lemma_refused_send_returns_message<T>(c: ChannelView<T>, v: T)
    ensures
        c.send_result(v) matches Err(e) ==> match e {
            TrySendError::Full(w) => w == v && c.receiver_alive && c.after_send(v) == c,
            TrySendError::Disconnected(w) => w == v && !c.receiver_alive && c.after_send(v) == c,
        },
{
}

} // verus!
