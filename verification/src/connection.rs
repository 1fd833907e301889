use crate::ctx::Ctx;
use crate::ctx::CtxView;
use crate::reporting::completes;
use crate::reporting::transition_allowed;
use crate::reporting::Reporter;
use crate::reporting::State;
use vstd::prelude::*;

verus! {

/// The room that the receive buffer offers when a drain begins.
pub const INITIAL_ROOM: usize = 4096;

/// The room by which the receive buffer grows once it is full.
pub const GROWTH: usize = 1024;

/// Where a pooled connection stands in its request/response cycle.
#[derive(Clone, Copy, Debug, PartialEq, Eq, Structural)]
pub enum ConnectionState {
    /// No socket is open for the slot.
    Unconnected,
    /// A socket was opened and has not yet become writable.
    Connecting,
    /// The socket is writable and no request is under way.
    Connected,
    /// The request was written and the response is being read.
    Reading,
}

/// What the I/O layer owes a connection before the next readiness event
/// can be taken.
#[derive(Clone, Copy, Debug, PartialEq, Eq, Structural)]
pub enum Phase {
    /// Nothing: the connection waits for readiness.
    Idle,
    /// The payload is being written; `readable` says whether the socket was
    /// reported readable as well.
    Writing { readable: bool },
    /// The socket is being drained.
    Draining,
    /// The socket is being replaced.
    Reconnecting,
}

/// How one non-blocking read on the socket ended.
#[derive(Clone, Copy, Debug)]
pub enum ReadOutcome<'a> {
    /// The read returned these bytes. None at all: the peer has closed.
    Bytes(&'a [u8]),
    /// Nothing to read for now.
    WouldBlock,
    /// The read was interrupted before it read anything.
    Interrupted,
    /// Any other error.
    Failed,
}

impl<'a> ReadOutcome<'a> {
    /// Whether the outcome ends the response: the peer closed, or the read
    /// failed for good.
    pub open spec fn ends_response(self) -> bool {
        match self {
            ReadOutcome::Bytes(chunk) => chunk@.len() == 0,
            ReadOutcome::Failed => true,
            _ => false,
        }
    }

    /// Whether the outcome ends the drain: it ends the response, or nothing
    /// is left to read for now.
    pub open spec fn ends_drain(self) -> bool {
        self.ends_response() || self is WouldBlock
    }

    /// The bytes that the read brought.
    pub open spec fn bytes(self) -> Seq<u8> {
        match self {
            ReadOutcome::Bytes(chunk) => chunk@,
            _ => Seq::empty(),
        }
    }
}

/// A connection as mathematics.
pub struct ConnectionView {
    pub token: usize,
    pub state: ConnectionState,
    pub bytes_sent: nat,
    pub bytes_received: nat,
    pub sent_requests: nat,
    /// Whether bytes of the response under way have been counted already.
    pub reading_response: bool,
    pub phase: Phase,
    /// What the drain under way has read so far.
    pub received: Seq<u8>,
    /// The room left in the receive buffer.
    pub spare: nat,
}

impl ConnectionView {
    /// The receive buffer always has room, so that a read that brings no
    /// byte can only mean that the peer has closed.
    pub open spec fn wf(self) -> bool {
        0 < self.spare <= INITIAL_ROOM
    }

    /// The view with an empty receive buffer of the initial room.
    pub open spec fn emptied(self) -> ConnectionView {
        ConnectionView { received: Seq::empty(), spare: INITIAL_ROOM as nat, ..self }
    }

    /// The view after one read ended in `outcome`: what it brought is
    /// appended, and a buffer that it filled grows by `GROWTH`.
    pub open spec fn drained(self, outcome: ReadOutcome) -> ConnectionView {
        let chunk = outcome.bytes();
        ConnectionView {
            received: self.received + chunk,
            spare: if chunk.len() >= self.spare {
                GROWTH as nat
            } else {
                (self.spare - chunk.len()) as nat
            },
            ..self
        }
    }

    /// What a drain reports once `outcome` ends it: whether the response is
    /// complete, and the number of bytes read.
    pub open spec fn drain_result(self, outcome: ReadOutcome) -> Option<(bool, usize)> {
        if outcome.ends_drain() {
            Some((outcome.ends_response(), self.received.len() as usize))
        } else {
            None
        }
    }
}

/// One slot of the connection pool: the lifecycle state of its socket, its
/// counters and its receive buffer. The socket itself is the I/O layer's.
pub struct Connection {
    pub token: usize,
    pub state: ConnectionState,
    bytes_sent: usize,
    pub bytes_received: usize,
    sent_requests: usize,
    reading_response: bool,
    phase: Phase,
    buf: Vec<u8>,
    spare: usize,
}

impl View for Connection {
    type V = ConnectionView;

    closed spec fn view(&self) -> ConnectionView {
        ConnectionView {
            token: self.token,
            state: self.state,
            bytes_sent: self.bytes_sent as nat,
            bytes_received: self.bytes_received as nat,
            sent_requests: self.sent_requests as nat,
            reading_response: self.reading_response,
            phase: self.phase,
            received: self.buf@,
            spare: self.spare as nat,
        }
    }
}

impl Connection {
    /// See [`ConnectionView::wf`].
    pub open spec fn wf(&self) -> bool {
        self@.wf()
    }

    /// A connection's counters fit in a machine word.
    pub proof fn lemma_counters_fit(&self)
        ensures
            self@.bytes_sent <= usize::MAX,
            self@.bytes_received <= usize::MAX,
            self@.sent_requests <= usize::MAX,
            self@.received.len() <= usize::MAX,
            self@.spare <= usize::MAX,
    {
        let _ = self.buf.len();
    }

    /// The identifier of the slot.
    pub fn token(&self) -> (token: usize)
        ensures
            token == self@.token,
    {
        self.token
    }

    /// The lifecycle state of the slot's socket.
    pub fn state(&self) -> (state: ConnectionState)
        ensures
            state == self@.state,
    {
        self.state
    }

    /// What the I/O layer owes the connection.
    pub fn phase(&self) -> (phase: Phase)
        ensures
            phase == self@.phase,
    {
        self.phase
    }

    /// The bytes written on the slot's sockets so far.
    pub fn bytes_sent(&self) -> (n: usize)
        ensures
            n == self@.bytes_sent,
    {
        self.bytes_sent
    }

    /// The bytes read off the slot's sockets so far.
    pub fn bytes_received(&self) -> (n: usize)
        ensures
            n == self@.bytes_received,
    {
        self.bytes_received
    }

    /// The requests written on the slot's sockets so far.
    pub fn sent_requests(&self) -> (n: usize)
        ensures
            n == self@.sent_requests,
    {
        self.sent_requests
    }

    /// What the drain under way has read so far.
    pub fn received(&self) -> (bytes: &[u8])
        ensures
            bytes@ == self@.received,
    {
        self.buf.as_slice()
    }

    /// The most bytes that the next read may bring.
    pub fn room(&self) -> (room: usize)
        ensures
            room == self@.spare,
    {
        self.spare
    }

    /// Enters `phase`.
    pub(crate) fn enter(&mut self, phase: Phase)
        ensures
            final(self)@ == (ConnectionView { phase, ..old(self)@ }),
    {
        self.phase = phase;
    }

    /// Begins a drain on an empty receive buffer of the initial room.
    pub(crate) fn begin_drain(&mut self)
        ensures
            final(self).wf(),
            final(self)@ == (ConnectionView { phase: Phase::Draining, ..old(self)@.emptied() }),
    {
        self.buf = Vec::new();
        self.spare = INITIAL_ROOM;
        self.phase = Phase::Draining;
    }

    /// Makes the slot for a socket that was just opened: takes the next
    /// identifier from `ctx` and reports the connection as connecting.
    pub fn new(ctx: &mut Ctx, reporter: &mut Reporter, now: u128) -> (connection: Connection)
        requires
            old(ctx)@.next_token < usize::MAX,
        ensures
            final(ctx).wf() == old(ctx).wf(),
            final(ctx)@ == (CtxView { next_token: old(ctx)@.next_token + 1, ..old(ctx)@ }),
            final(reporter)@ == old(reporter)@.changed(
                old(ctx)@.next_token as usize,
                ConnectionState::Connecting,
                now,
            ),
            connection.wf(),
            connection@ == (ConnectionView {
                token: old(ctx)@.next_token as usize,
                state: ConnectionState::Connecting,
                bytes_sent: 0,
                bytes_received: 0,
                sent_requests: 0,
                reading_response: false,
                phase: Phase::Idle,
                received: Seq::empty(),
                spare: INITIAL_ROOM as nat,
            }),
    {
        let token = ctx.next_token();
        let mut connection = Connection {
            state: ConnectionState::Unconnected,
            token,
            bytes_sent: 0,
            bytes_received: 0,
            sent_requests: 0,
            reading_response: false,
            phase: Phase::Idle,
            buf: Vec::new(),
            spare: INITIAL_ROOM,
        };
        let _ = connection.set_state(ConnectionState::Connecting, reporter, now);
        connection
    }

    /// Takes note that the socket was replaced: the response phase ends and
    /// the connect phase of the new socket begins at once. Returns the
    /// heartbeat that the completed response calls for.
    pub fn reset(&mut self, reporter: &mut Reporter, now: u128) -> (heartbeat: Option<usize>)
        requires
            old(reporter)@.shadow_of(old(self)@.token).state is Read,
            old(reporter)@.done < usize::MAX,
        ensures
            final(self)@ == (ConnectionView { state: ConnectionState::Connecting, ..old(self)@ }),
            final(reporter)@ == old(reporter)@.changed(
                old(self)@.token,
                ConnectionState::Unconnected,
                now,
            ).changed(old(self)@.token, ConnectionState::Connecting, now),
            heartbeat == old(reporter)@.heartbeat(old(self)@.token, ConnectionState::Unconnected),
    {
        let heartbeat = self.set_state(ConnectionState::Unconnected, reporter, now);
        let _ = self.set_state(ConnectionState::Connecting, reporter, now);
        heartbeat
    }

    /// Takes the outcome of one read of the drain under way. Returns `None`
    /// where the socket is to be read again, else whether the response is
    /// complete, and the number of bytes that the drain has read.
    pub fn read_all(&mut self, outcome: ReadOutcome<'_>) -> (finished: Option<(bool, usize)>)
        requires
            old(self).wf(),
        ensures
            final(self).wf(),
            final(self)@ == old(self)@.drained(outcome),
            finished == old(self)@.drain_result(outcome),
    {
        match outcome {
            ReadOutcome::Bytes(chunk) => {
                let n = chunk.len();
                if n == 0 {
                    assert(self@.received + chunk@ =~= self@.received);
                    return Some((true, self.buf.len()));
                }
                self.buf.extend_from_slice(chunk);
                assert(self.buf@ =~= old(self).buf@ + chunk@);
                if n >= self.spare {
                    self.spare = GROWTH;
                } else {
                    self.spare = self.spare - n;
                }
                None
            },
            ReadOutcome::WouldBlock => {
                assert(self@.received + outcome.bytes() =~= self@.received);
                Some((false, self.buf.len()))
            },
            ReadOutcome::Interrupted => {
                assert(self@.received + outcome.bytes() =~= self@.received);
                None
            },
            ReadOutcome::Failed => {
                assert(self@.received + outcome.bytes() =~= self@.received);
                Some((true, self.buf.len()))
            },
        }
    }

    /// Takes note that the response under way has ended.
    pub fn finish_request(&mut self)
        ensures
            final(self)@ == (ConnectionView { reading_response: false, ..old(self)@ }),
    {
        self.reading_response = false;
    }

    /// Counts `nbytes` bytes of a response, which is under way from now on.
    pub fn bytes_read(&mut self, nbytes: usize)
        requires
            old(self)@.bytes_received + nbytes <= usize::MAX,
        ensures
            final(self)@ == (ConnectionView {
                reading_response: true,
                bytes_received: old(self)@.bytes_received + nbytes as nat,
                ..old(self)@
            }),
    {
        self.reading_response = true;
        self.bytes_received += nbytes;
    }

    /// Whether bytes of the response under way have been counted already.
    pub fn is_reading_response(&self) -> (reading: bool)
        ensures
            reading == self@.reading_response,
    {
        self.reading_response
    }

    /// Enters `new_state` and reports it to the collector, which says
    /// whether a heartbeat is due.
    pub fn set_state(
        &mut self,
        new_state: ConnectionState,
        reporter: &mut Reporter,
        now: u128,
    ) -> (heartbeat: Option<usize>)
        requires
            transition_allowed(old(reporter)@.shadow_of(old(self)@.token).state, new_state),
            completes(old(reporter)@.shadow_of(old(self)@.token).state, new_state) ==> old(
                reporter,
            )@.done < usize::MAX,
        ensures
            final(self)@ == (ConnectionView { state: new_state, ..old(self)@ }),
            final(reporter)@ == old(reporter)@.changed(old(self)@.token, new_state, now),
            heartbeat == old(reporter)@.heartbeat(old(self)@.token, new_state),
    {
        self.state = new_state;
        reporter.connection_state_changed(self.token, self.state, now)
    }

    /// Takes note that the payload was written in full: counts the request
    /// and begins to read the response.
    pub fn send_request(&mut self, ctx: &mut Ctx, reporter: &mut Reporter, now: u128)
        requires
            old(ctx).wf(),
            old(ctx)@.sent < old(ctx)@.max_requests,
            old(self)@.sent_requests < usize::MAX,
            old(self)@.bytes_sent + old(ctx)@.payload.len() <= usize::MAX,
            old(reporter)@.shadow_of(old(self)@.token).state is Connected,
        ensures
            final(ctx).wf(),
            final(ctx)@ == (CtxView { sent: old(ctx)@.sent + 1, ..old(ctx)@ }),
            final(self)@ == (ConnectionView {
                state: ConnectionState::Reading,
                sent_requests: old(self)@.sent_requests + 1,
                bytes_sent: old(self)@.bytes_sent + old(ctx)@.payload.len(),
                ..old(self)@
            }),
            final(reporter)@ == old(reporter)@.changed(
                old(self)@.token,
                ConnectionState::Reading,
                now,
            ),
    {
        ctx.request_sent();
        self.sent_requests += 1;
        self.bytes_sent += ctx.payload().len();
        let _ = self.set_state(ConnectionState::Reading, reporter, now);
    }
}

} // verus!
