//! The state of a socket future and the decisions of the thread that polls
//! the socket for events: when a connection attempt has succeeded, retries or
//! fails, which events carry data for this socket, and what a poll of the
//! socket future returns.
use crate::channel::{Channel, ChannelView, TryRecvError};
use vstd::prelude::*;

verus! {

/// Why asking a connecting stream for its peer address failed.
#[derive(Debug, Clone, Copy, PartialEq, Eq)]
pub struct PeerError {
    /// Whether the error kind is "not connected".
    pub not_connected: bool,
    /// The operating system's error code, if there is one.
    pub raw_os_error: Option<i32>,
}

/// An event seen while the connection is being set up.
#[derive(Debug, Clone, Copy, PartialEq, Eq)]
pub enum ConnectEvent {
    /// The event does not report the stream writable.
    NotWritable,
    /// The stream is writable and its peer address is known.
    WritableWithPeer,
    /// The stream is writable but asking for its peer address failed.
    WritableWithoutPeer(PeerError),
}

/// What the connecting thread does after an event.
#[derive(Debug, Clone, Copy, PartialEq, Eq, Structural)]
pub enum ConnectStep {
    /// Go on to the next event.
    Continue,
    /// The connection is set up.
    Connected,
    /// The connection failed; the thread gives up.
    Failed,
}

/// The operating system error code that the connecting thread treats as
/// "try again".
pub const RETRY_OS_ERROR: i32 = 127;

/// The decision taken on a connection event.
pub open spec fn connect_step_spec(e: ConnectEvent) -> ConnectStep {
    match e {
        ConnectEvent::NotWritable => ConnectStep::Continue,
        ConnectEvent::WritableWithPeer => ConnectStep::Connected,
        ConnectEvent::WritableWithoutPeer(pe) => if pe.not_connected || pe.raw_os_error == Some(
            RETRY_OS_ERROR,
        ) {
            ConnectStep::Continue
        } else {
            ConnectStep::Failed
        },
    }
}

/// Decides what an event means while the connection is being set up: a
/// writable stream whose peer address is known is connected; "not connected"
/// and the retry code mean wait for the next event; any other error fails.
pub fn connect_step(e: ConnectEvent) -> (s: ConnectStep)
    ensures
        s == connect_step_spec(e),
{
    match e {
        ConnectEvent::NotWritable => ConnectStep::Continue,
        ConnectEvent::WritableWithPeer => ConnectStep::Connected,
        ConnectEvent::WritableWithoutPeer(pe) => {
            if pe.not_connected {
                ConnectStep::Continue
            } else {
                match pe.raw_os_error {
                    Some(code) => {
                        if code == RETRY_OS_ERROR {
                            ConnectStep::Continue
                        } else {
                            ConnectStep::Failed
                        }
                    },
                    None => ConnectStep::Failed,
                }
            }
        },
    }
}

/// What a poll of the socket future returns.
#[derive(Debug, PartialEq, Eq)]
pub enum SocketPoll {
    /// The socket was readable and these bytes had arrived.
    Ready(Vec<u8>),
    /// The socket is not readable; a waker was left.
    Pending,
    /// The socket is marked readable but its bytes have not arrived yet: a
    /// blocking poll waits for them.
    Waiting,
    /// The socket is marked readable but the reading thread is gone and no
    /// bytes are left.
    Closed,
}

/// The mathematical state of a socket future.
pub struct SocketView {
    /// The event token of the socket.
    pub id: usize,
    /// Whether the reading thread has reported data.
    pub readable: bool,
    /// Whether a poll has left a waker.
    pub waker_registered: bool,
    /// The buffers read and not yet taken, with the reading thread as sender.
    pub data: ChannelView<Vec<u8>>,
}

impl SocketView {
    /// Well-formedness: the data queue is unbounded, the socket is its
    /// receiver and the reading thread its only sender.
    pub open spec fn wf(self) -> bool {
        &&& self.data.wf()
        &&& self.data.bound is None
        &&& self.data.receiver_alive
        &&& self.data.senders <= 1
    }

    /// What a poll returns.
    pub open spec fn poll_result(self) -> SocketPoll {
        if self.readable {
            match self.data.recv_result() {
                Ok(buf) => SocketPoll::Ready(buf),
                Err(TryRecvError::Empty) => SocketPoll::Waiting,
                Err(TryRecvError::Disconnected) => SocketPoll::Closed,
            }
        } else {
            SocketPoll::Pending
        }
    }

    /// The state after a poll.
    pub open spec fn after_poll(self) -> Self {
        if self.readable {
            SocketView { data: self.data.after_recv(), ..self }
        } else {
            SocketView { readable: false, waker_registered: true, ..self }
        }
    }

    /// The state after the reading thread delivered `buf`.
    pub open spec fn after_deliver(self, buf: Vec<u8>) -> Self {
        SocketView { readable: true, data: self.data.after_send(buf), ..self }
    }
}

/// A socket future: its readiness, its waker and the bytes read for it.
pub struct Socket {
    id: usize,
    readable: bool,
    waker_registered: bool,
    data: Channel<Vec<u8>>,
}

impl View for Socket {
    type V = SocketView;

    closed spec fn view(&self) -> SocketView {
        SocketView {
            id: self.id,
            readable: self.readable,
            waker_registered: self.waker_registered,
            data: self.data@,
        }
    }
}

impl Socket {
    /// A socket with event token `id`: not readable, no waker, nothing read,
    /// and a reading thread attached.
    pub fn new(id: usize) -> (s: Self)
        ensures
            s@ == (SocketView {
                id,
                readable: false,
                waker_registered: false,
                data: ChannelView::fresh(None),
            }),
            s@.wf(),
    {
        Socket { id, readable: false, waker_registered: false, data: Channel::unbounded() }
    }

    /// Whether the reading thread has reported data.
    pub fn is_readable(&self) -> (b: bool)
        ensures
            b == self@.readable,
    {
        self.readable
    }

    /// The event token of the socket.
    pub fn id(&self) -> (id: usize)
        ensures
            id == self@.id,
    {
        self.id
    }

    /// Whether an event is one the reading thread reads for: it reports the
    /// stream readable and carries this socket's token.
    pub fn accepts(&self, readable_event: bool, token: usize) -> (b: bool)
        ensures
            b == (readable_event && token == self@.id),
    {
        readable_event && token == self.id
    }

    /// The reading thread read `buf`: the socket becomes readable and the
    /// bytes are queued. Returns whether a waker was left, that is, whether
    /// the task must be woken.
    pub fn deliver(&mut self, buf: Vec<u8>) -> (wake: bool)
        requires
            old(self)@.wf(),
        ensures
            wake == old(self)@.waker_registered,
            final(self)@ == old(self)@.after_deliver(buf),
            final(self)@.wf(),
    {
        self.readable = true;
        let _ = self.data.try_send(buf);
        self.waker_registered
    }

    /// Whether the reading thread is still attached.
    pub fn reader_alive(&self) -> (b: bool)
        ensures
            b == (self@.data.senders == 1),
    {
        self.data.sender_count() == 1
    }

    /// The reading thread is gone.
    pub fn reader_gone(&mut self)
        requires
            old(self)@.wf(),
            old(self)@.data.senders == 1,
        ensures
            final(self)@ == (SocketView {
                data: ChannelView { senders: 0, ..old(self)@.data },
                ..old(self)@
            }),
            final(self)@.wf(),
    {
        self.data.drop_sender();
    }

    /// Polls the socket future: when readable, takes the oldest buffer read;
    /// otherwise marks it not readable and leaves a waker.
    pub fn poll(&mut self) -> (r: SocketPoll)
        requires
            old(self)@.wf(),
        ensures
            r == old(self)@.poll_result(),
            final(self)@ == old(self)@.after_poll(),
            final(self)@.wf(),
    {
        if self.readable {
            match self.data.try_recv() {
                Ok(buf) => SocketPoll::Ready(buf),
                Err(TryRecvError::Empty) => SocketPoll::Waiting,
                Err(TryRecvError::Disconnected) => SocketPoll::Closed,
            }
        } else {
            self.readable = false;
            self.waker_registered = true;
            SocketPoll::Pending
        }
    }
}

/// Data delivered to an idle socket is what the next poll returns, and the
/// delivery asks for a wake exactly when an earlier poll left a waker.
pub proof fn lemma_deliver_then_poll(s: SocketView, buf: Vec<u8>)
    requires
        s.wf(),
        s.data.items.len() == 0,
    ensures
        s.after_deliver(buf).poll_result() == SocketPoll::Ready(buf),
        s.after_deliver(buf).after_poll().data.items.len() == 0,
{
    assert(s.after_deliver(buf).data.items =~= seq![buf]);
}

/// No wake-up is lost: a poll that finds the socket not readable leaves a
/// waker, so the next delivery asks for a wake and the poll after it is
/// ready with the delivered bytes.
pub proof fn lemma_pending_then_deliver_wakes(s: SocketView, buf: Vec<u8>)
    requires
        s.wf(),
        !s.readable,
        s.data.items.len() == 0,
    ensures
        s.poll_result() == SocketPoll::Pending,
        s.after_poll().waker_registered,
        s.after_poll().after_deliver(buf).poll_result() == SocketPoll::Ready(buf),
{
    assert(s.after_poll().after_deliver(buf).data.items =~= seq![buf]);
}

/// Bytes come out in the order they were read: two deliveries to an idle
/// socket are returned by the next two polls in the same order.
pub proof fn lemma_deliveries_in_order(s: SocketView, a: Vec<u8>, b: Vec<u8>)
    requires
        s.wf(),
        s.data.items.len() == 0,
    ensures
        s.after_deliver(a).after_deliver(b).poll_result() == SocketPoll::Ready(a),
        s.after_deliver(a).after_deliver(b).after_poll().poll_result() == SocketPoll::Ready(b),
{
    let t = s.after_deliver(a).after_deliver(b);
    assert(t.data.items =~= seq![a, b]);
    assert(t.after_poll().data.items =~= seq![b]);
}

/// How a connection event is judged: an event that does not report the
/// stream writable never decides anything; a writable stream with a known
/// peer is connected; an error is waited out only when its kind is "not
/// connected" or its code is 127, and every other error (any other code, or
/// none) fails the connection.
pub proof fn lemma_connect_step_rule(e: ConnectEvent)
    ensures
        e == ConnectEvent::NotWritable ==> connect_step_spec(e) == ConnectStep::Continue,
        e == ConnectEvent::WritableWithPeer ==> connect_step_spec(e) == ConnectStep::Connected,
        forall|pe: PeerError|
            e == ConnectEvent::WritableWithoutPeer(pe) ==> {
                &&& pe.not_connected ==> connect_step_spec(e) == ConnectStep::Continue
                &&& pe.raw_os_error == Some(127i32) ==> connect_step_spec(e) == ConnectStep::Continue
                &&& (!pe.not_connected && pe.raw_os_error != Some(127i32)) ==> connect_step_spec(e)
                    == ConnectStep::Failed
            },
        connect_step_spec(e) == ConnectStep::Connected <==> e == ConnectEvent::WritableWithPeer,
{
}

/// Every buffer read is kept: a delivery appends the buffer behind those
/// already waiting, whatever their number, marks the socket readable, and
/// leaves the token and the waker as they were.
pub proof fn lemma_deliver_appends(s: SocketView, buf: Vec<u8>)
    requires
        s.wf(),
    ensures
        s.after_deliver(buf).data.items == s.data.items.push(buf),
        s.after_deliver(buf).data.items.len() == s.data.items.len() + 1,
        s.after_deliver(buf).data.items.last() == buf,
        forall|i: int| 0 <= i < s.data.items.len() ==> #[trigger] s.after_deliver(buf).data.items[i]
            == s.data.items[i],
        s.after_deliver(buf).readable,
        s.after_deliver(buf).id == s.id,
        s.after_deliver(buf).waker_registered == s.waker_registered,
        s.after_deliver(buf).wf(),
{
}

/// What a poll does: a socket not marked readable answers pending and
/// leaves a waker, taking nothing; a readable one with buffers waiting
/// returns the oldest and keeps the rest in order; a readable one with none
/// waits while the reader is attached and is closed once it is gone.
pub proof fn lemma_poll_rule(s: SocketView)
    requires
        s.wf(),
    ensures
        !s.readable ==> s.poll_result() == SocketPoll::Pending && s.after_poll().waker_registered
            && s.after_poll().data == s.data && !s.after_poll().readable,
        s.readable && s.data.items.len() > 0 ==> s.poll_result() == SocketPoll::Ready(
            s.data.items[0],
        ) && s.after_poll().data.items == s.data.items.drop_first() && s.after_poll().readable,
        s.readable && s.data.items.len() == 0 && s.data.senders > 0 ==> s.poll_result()
            == SocketPoll::Waiting && s.after_poll() == s,
        s.readable && s.data.items.len() == 0 && s.data.senders == 0 ==> s.poll_result()
            == SocketPoll::Closed,
        s.after_poll().id == s.id,
        s.after_poll().wf(),
{
}

} // verus!
