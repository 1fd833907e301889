use crate::connection::Connection;
use crate::connection::ConnectionState;
use crate::connection::ConnectionView;
use crate::connection::Phase;
use crate::connection::ReadOutcome;
use crate::connection::INITIAL_ROOM;
use crate::ctx::Ctx;
use crate::ctx::CtxView;
use crate::http::server_of;
use crate::http::status_of;
use crate::http::Response;
use crate::reporting::elapsed;
use crate::reporting::time_between;
use crate::reporting::Reporter;
use crate::reporting::ReporterView;
use crate::reporting::State;
use vstd::prelude::*;

verus! {

/// How a response was classified.
#[derive(Clone, Copy, Debug, PartialEq, Eq, Structural)]
pub enum Verdict {
    /// A status code from 200 to 299.
    Successful,
    /// Any other status code, which is kept for the log.
    Unsuccessful(u16),
    /// No status code could be read.
    Failed,
}

/// What the I/O layer tells a connection.
#[derive(Clone, Copy, Debug)]
pub enum Event<'a> {
    /// The multiplexer reported the socket ready.
    Ready { readable: bool, writable: bool },
    /// The payload was written in full.
    Written,
    /// One read on the socket ended.
    Read(ReadOutcome<'a>),
    /// The old socket was deregistered and dropped, and a new one opened.
    Reconnected,
}

/// What a connection asks of the I/O layer next.
#[derive(Clone, Copy, Debug, PartialEq, Eq, Structural)]
pub enum Action {
    /// Nothing until the multiplexer reports the socket ready again.
    Wait,
    /// Write the payload in full, then tell `Event::Written`.
    Write,
    /// Read once, at most `capacity` bytes, then tell `Event::Read`.
    Read { capacity: usize },
    /// Deregister the socket and open a new one, then tell
    /// `Event::Reconnected` and register the new socket.
    Reconnect,
}

/// What the handling of one event came to.
#[derive(Clone, Copy, Debug, PartialEq, Eq, Structural)]
pub struct Handled {
    pub action: Action,
    /// How the response was classified, where the event brought the first
    /// bytes of one.
    pub verdict: Option<Verdict>,
    /// The number of completed responses, where a progress line is due.
    pub heartbeat: Option<usize>,
}

/// What the driver of a run does next.
#[derive(Clone, Copy, Debug, PartialEq, Eq, Structural)]
pub enum Progress {
    /// Wait for readiness, no longer than `timeout`, and handle what is
    /// reported.
    Poll { timeout: u128 },
    /// Stop. `timed_out` says that the deadline has passed.
    Finished { timed_out: bool },
}

/// How the first bytes `data` of a response classify it: by the status code
/// they carry, as a failure where they carry none.
pub open spec fn verdict_of(data: Seq<u8>) -> Verdict {
    match status_of(data) {
        Some(status) => if 200 <= status < 300 {
            Verdict::Successful
        } else {
            Verdict::Unsuccessful(status)
        },
        None => Verdict::Failed,
    }
}

/// The run with one more response counted under `verdict`.
pub open spec fn counted(ctx: CtxView, verdict: Verdict) -> CtxView {
    match verdict {
        Verdict::Successful => CtxView { successful: ctx.successful + 1, ..ctx },
        Verdict::Unsuccessful(_) => CtxView { unsuccessful: ctx.unsuccessful + 1, ..ctx },
        Verdict::Failed => CtxView { failed: ctx.failed + 1, ..ctx },
    }
}

/// The run after the first bytes `data` of a response were read: the
/// response is counted by its status code, and the first such bytes that
/// carry a status code tell the server's name and the document's length.
pub open spec fn recorded(ctx: CtxView, data: Seq<u8>) -> CtxView {
    let told = if status_of(data) is Some {
        ctx.identified(server_of(data), data.len())
    } else {
        ctx
    };
    counted(told, verdict_of(data))
}

/// Classifies the response of which `received_data` was just read, unless
/// earlier bytes of it were read before.
pub fn record_response(received_data: &[u8], conn: &Connection, ctx: &mut Ctx) -> (verdict: Option<
    Verdict,
>)
    requires
        old(ctx).wf(),
        !conn@.reading_response ==> old(ctx)@.total() < old(ctx)@.max_requests,
    ensures
        final(ctx).wf(),
        final(ctx)@ == if conn@.reading_response {
            old(ctx)@
        } else {
            recorded(old(ctx)@, received_data@)
        },
        verdict == if conn@.reading_response {
            None
        } else {
            Some(verdict_of(received_data@))
        },
{
    if !conn.is_reading_response() {
        // first bytes, check http response code
        // first response from this server, store some things
        let first_response = ctx.first_response();

        match Response::parse(received_data, !first_response) {
            Ok(resp) => {
                ctx.identify_server(resp.server, received_data.len());
                if 200 <= resp.status && resp.status < 300 {
                    ctx.successful_response();
                    Some(Verdict::Successful)
                } else {
                    ctx.unsuccessful_response();
                    Some(Verdict::Unsuccessful(resp.status))
                }
            },
            Err(_) => {
                ctx.failed_response();
                Some(Verdict::Failed)
            },
        }
    } else {
        None
    }
}

/// Whether the collector's record of `conn` mirrors the state that the
/// connection is in.
pub open spec fn in_step(conn: ConnectionView, reporter: ReporterView) -> bool {
    reporter.shadow_of(conn.token).state.mirrored() == conn.state
}

/// Whether `event` is what the connection waits for: it answers the phase
/// that the connection is in.
pub open spec fn expected(event: Event, conn: ConnectionView) -> bool {
    match event {
        Event::Ready { .. } => conn.phase is Idle,
        Event::Written => conn.phase is Writing && conn.state == ConnectionState::Connected,
        Event::Read(_) => conn.phase is Draining && conn.state == ConnectionState::Reading,
        Event::Reconnected => conn.phase is Reconnecting && conn.state
            == ConnectionState::Reading,
    }
}

/// Whether what `event` is to count can be counted: no counter is at the
/// end of its range, a request that was written is within the number of
/// requests asked for, and so is a response of which the event brings the
/// first bytes to light.
pub open spec fn fits(
    event: Event,
    ctx: CtxView,
    conn: ConnectionView,
    reporter: ReporterView,
) -> bool {
    match event {
        Event::Ready { .. } => true,
        Event::Written => {
            &&& ctx.sent < ctx.max_requests
            &&& conn.sent_requests < usize::MAX
            &&& conn.bytes_sent + ctx.payload.len() <= usize::MAX
        },
        Event::Read(outcome) => outcome.ends_drain() && conn.received.len() > 0 ==> {
            &&& conn.bytes_received + conn.received.len() <= usize::MAX
            &&& !conn.reading_response ==> ctx.total() < ctx.max_requests
        },
        Event::Reconnected => reporter.done < usize::MAX,
    }
}

/// Whether `event` can be handled: the run and the connection are well
/// formed, the collector's record mirrors the connection, the connection
/// waits for the event, and what the event is to count can be counted.
pub open spec fn accepts(
    event: Event,
    ctx: CtxView,
    conn: ConnectionView,
    reporter: ReporterView,
) -> bool {
    &&& ctx.wf()
    &&& conn.wf()
    &&& in_step(conn, reporter)
    &&& expected(event, conn)
    &&& fits(event, ctx, conn, reporter)
}

/// Whether `event` tells that `action` was carried out.
pub open spec fn answers(event: Event, action: Action) -> bool {
    match action {
        Action::Wait => event is Ready,
        Action::Write => event is Written,
        Action::Read { .. } => event is Read,
        Action::Reconnect => event is Reconnected,
    }
}

/// Whether a readiness event makes the connection write its request: the
/// socket is writable, the connection is connected or was connecting until
/// now, and fewer requests were sent than were asked for.
pub open spec fn sends(writable: bool, ctx: CtxView, conn: ConnectionView) -> bool {
    &&& writable
    &&& ctx.sent < ctx.max_requests
    &&& conn.state == ConnectionState::Connected || conn.state == ConnectionState::Connecting
}

/// Whether a drain that `outcome` ends has read the first bytes of a
/// response.
pub open spec fn begins_response(conn: ConnectionView, outcome: ReadOutcome) -> bool {
    outcome.ends_drain() && conn.received.len() > 0 && !conn.reading_response
}

/// The run after `conn` handled `event`.
pub open spec fn next_ctx(event: Event, ctx: CtxView, conn: ConnectionView) -> CtxView {
    match event {
        Event::Written => CtxView { sent: ctx.sent + 1, ..ctx },
        Event::Read(outcome) => if begins_response(conn, outcome) {
            recorded(ctx, conn.received)
        } else {
            ctx
        },
        _ => ctx,
    }
}

/// The connection after it handled `event`.
pub open spec fn next_connection(
    event: Event,
    ctx: CtxView,
    conn: ConnectionView,
) -> ConnectionView {
    match event {
        Event::Ready { readable, writable } => {
            if sends(writable, ctx, conn) {
                ConnectionView {
                    state: ConnectionState::Connected,
                    phase: Phase::Writing { readable },
                    ..conn
                }
            } else if writable && conn.state == ConnectionState::Connecting {
                ConnectionView { state: ConnectionState::Connected, ..conn }
            } else if readable && conn.state == ConnectionState::Reading {
                ConnectionView { phase: Phase::Draining, ..conn.emptied() }
            } else {
                conn
            }
        },
        Event::Written => {
            let sent = ConnectionView {
                state: ConnectionState::Reading,
                sent_requests: conn.sent_requests + 1,
                bytes_sent: conn.bytes_sent + ctx.payload.len(),
                ..conn
            };
            if conn.phase == (Phase::Writing { readable: true }) {
                ConnectionView { phase: Phase::Draining, ..sent.emptied() }
            } else {
                ConnectionView { phase: Phase::Idle, ..sent }
            }
        },
        Event::Read(outcome) => {
            if !outcome.ends_drain() {
                conn.drained(outcome)
            } else {
                let counted = if conn.received.len() > 0 {
                    ConnectionView {
                        reading_response: true,
                        bytes_received: conn.bytes_received + conn.received.len(),
                        ..conn
                    }
                } else {
                    conn
                };
                if outcome.ends_response() {
                    ConnectionView {
                        reading_response: false,
                        phase: Phase::Reconnecting,
                        ..counted
                    }
                } else {
                    ConnectionView { phase: Phase::Idle, ..counted }
                }
            }
        },
        Event::Reconnected => ConnectionView {
            state: ConnectionState::Connecting,
            phase: Phase::Idle,
            ..conn
        },
    }
}

/// The collector after `conn` handled `event` at instant `now`.
pub open spec fn next_reporter(
    event: Event,
    conn: ConnectionView,
    reporter: ReporterView,
    now: u128,
) -> ReporterView {
    match event {
        Event::Ready { readable, writable } => if writable && conn.state
            == ConnectionState::Connecting {
            reporter.changed(conn.token, ConnectionState::Connected, now)
        } else {
            reporter
        },
        Event::Written => reporter.changed(conn.token, ConnectionState::Reading, now),
        Event::Read(_) => reporter,
        Event::Reconnected => reporter.changed(
            conn.token,
            ConnectionState::Unconnected,
            now,
        ).changed(conn.token, ConnectionState::Connecting, now),
    }
}

/// What `conn` asks for, and tells, on handling `event`.
pub open spec fn next_handled(
    event: Event,
    ctx: CtxView,
    conn: ConnectionView,
    reporter: ReporterView,
) -> Handled {
    let after = next_connection(event, ctx, conn);
    Handled {
        action: match after.phase {
            Phase::Idle => Action::Wait,
            Phase::Writing { .. } => Action::Write,
            Phase::Draining => Action::Read { capacity: after.spare as usize },
            Phase::Reconnecting => Action::Reconnect,
        },
        verdict: match event {
            Event::Read(outcome) => if begins_response(conn, outcome) {
                Some(verdict_of(conn.received))
            } else {
                None
            },
            _ => None,
        },
        heartbeat: match event {
            Event::Reconnected => reporter.heartbeat(conn.token, ConnectionState::Unconnected),
            _ => None,
        },
    }
}

/// Whether `event` can be handled: see [`accepts`].
pub fn can_handle(event: Event<'_>, ctx: &Ctx, conn: &Connection, reporter: &Reporter) -> (can:
    bool)
    ensures
        can == accepts(event, ctx@, conn@, reporter@),
{
    proof {
        conn.lemma_counters_fit();
        ctx.lemma_counters_fit();
        reporter.lemma_done_fits();
    }
    if !ctx.is_valid() || conn.room() == 0 || conn.room() > INITIAL_ROOM {
        return false;
    }
    let state = conn.state();
    let on_record = reporter.state_of(conn.token());
    let mirrored = match on_record {
        State::Unconnected => state == ConnectionState::Unconnected,
        State::Connecting(_) => state == ConnectionState::Connecting,
        State::Connected => state == ConnectionState::Connected,
        State::Read(_) => state == ConnectionState::Reading,
    };
    if !mirrored {
        return false;
    }
    let phase = conn.phase();
    match event {
        Event::Ready { .. } => phase == Phase::Idle,
        Event::Written => {
            (phase == Phase::Writing { readable: true } || phase == Phase::Writing {
                readable: false,
            }) && state == ConnectionState::Connected && ctx.send_more() && conn.sent_requests()
                < usize::MAX && conn.bytes_sent() <= usize::MAX - ctx.payload().len()
        },
        Event::Read(outcome) => {
            if phase != Phase::Draining || state != ConnectionState::Reading {
                return false;
            }
            let ends = match outcome {
                ReadOutcome::Bytes(chunk) => chunk.len() == 0,
                ReadOutcome::WouldBlock => true,
                ReadOutcome::Interrupted => false,
                ReadOutcome::Failed => true,
            };
            let n = conn.received().len();
            if ends && n > 0 {
                conn.bytes_received() <= usize::MAX - n && (conn.is_reading_response()
                    || ctx.expect_more_responses())
            } else {
                true
            }
        },
        Event::Reconnected => {
            phase == Phase::Reconnecting && state == ConnectionState::Reading && reporter.done()
                < usize::MAX
        },
    }
}

/// Handles what the I/O layer tells of one connection: moves the connection
/// through its lifecycle, counts what was sent and received, classifies a
/// response by its first bytes, keeps the collector informed, and says what
/// the I/O layer is to do next for this connection.
pub fn handle_connection_event(
    event: Event<'_>,
    ctx: &mut Ctx,
    conn: &mut Connection,
    reporter: &mut Reporter,
    now: u128,
) -> (handled: Handled)
    requires
        accepts(event, old(ctx)@, old(conn)@, old(reporter)@),
    ensures
        final(ctx).wf(),
        final(conn).wf(),
        final(ctx)@ == next_ctx(event, old(ctx)@, old(conn)@),
        final(conn)@ == next_connection(event, old(ctx)@, old(conn)@),
        final(reporter)@ == next_reporter(event, old(conn)@, old(reporter)@, now),
        handled == next_handled(event, old(ctx)@, old(conn)@, old(reporter)@),
        in_step(final(conn)@, final(reporter)@),
{
    let mut verdict: Option<Verdict> = None;
    let mut heartbeat: Option<usize> = None;
    match event {
        Event::Ready { readable, writable } => {
            if writable && conn.state() == ConnectionState::Connecting {
                let _ = conn.set_state(ConnectionState::Connected, reporter, now);
            }
            if writable && ctx.send_more() && conn.state() == ConnectionState::Connected {
                conn.enter(Phase::Writing { readable });
            } else if readable && conn.state() == ConnectionState::Reading {
                conn.begin_drain();
            }
        },
        Event::Written => {
            let readable = conn.phase() == Phase::Writing { readable: true };
            conn.send_request(ctx, reporter, now);
            if readable {
                conn.begin_drain();
            } else {
                conn.enter(Phase::Idle);
            }
        },
        Event::Read(outcome) => {
            if let Some((done, bytes_read)) = conn.read_all(outcome) {
                if bytes_read != 0 {
                    verdict = record_response(conn.received(), conn, ctx);
                    conn.bytes_read(bytes_read);
                }
                if done {
                    conn.finish_request();
                    conn.enter(Phase::Reconnecting);
                } else {
                    conn.enter(Phase::Idle);
                }
            }
        },
        Event::Reconnected => {
            heartbeat = conn.reset(reporter, now);
            conn.enter(Phase::Idle);
        },
    }
    let action = match conn.phase() {
        Phase::Idle => Action::Wait,
        Phase::Writing { .. } => Action::Write,
        Phase::Draining => Action::Read { capacity: conn.room() },
        Phase::Reconnecting => Action::Reconnect,
    };
    Handled { action, verdict, heartbeat }
}

/// What the driver does once `spent` of the `timelimit` is gone: it stops
/// where the deadline has passed, and else goes on exactly as long as fewer
/// responses were classified than requests were asked for.
pub open spec fn progress(timelimit: u128, spent: u128, ctx: CtxView) -> Progress {
    if spent > timelimit {
        Progress::Finished { timed_out: true }
    } else if ctx.total() < ctx.max_requests {
        Progress::Poll { timeout: (timelimit - spent) as u128 }
    } else {
        Progress::Finished { timed_out: false }
    }
}

/// The time that a run has taken at instant `now`: none where it begins
/// only now.
pub open spec fn time_spent(started: Option<u128>, now: u128) -> u128 {
    match started {
        Some(start) => elapsed(start, now),
        None => 0,
    }
}

/// Decides the next move of the driver at instant `now`. `started` is the
/// instant at which the run began, `None` on the first call, which marks
/// the begin of the run in the collector. The call that ends the run marks
/// its end there.
pub fn benchmark(
    timelimit: u128,
    started: Option<u128>,
    now: u128,
    ctx: &Ctx,
    reporter: &mut Reporter,
) -> (next: Progress)
    requires
        ctx.wf(),
    ensures
        next == progress(timelimit, time_spent(started, now), ctx@),
        final(reporter)@ == (ReporterView {
            started: if started is None {
                Some(now)
            } else {
                old(reporter)@.started
            },
            finished: if next is Finished {
                Some(now)
            } else {
                old(reporter)@.finished
            },
            ..old(reporter)@
        }),
{
    let spent: u128 = match started {
        Some(start) => time_between(start, now),
        None => {
            reporter.start(now);
            0
        },
    };
    if spent > timelimit {
        reporter.end(now);
        Progress::Finished { timed_out: true }
    } else if ctx.expect_more_responses() {
        Progress::Poll { timeout: timelimit - spent }
    } else {
        reporter.end(now);
        Progress::Finished { timed_out: false }
    }
}

/// Whether `conn` has written a request whose response has not shown its
/// first bytes yet.
pub open spec fn awaits_response(conn: ConnectionView) -> bool {
    conn.state == ConnectionState::Reading && !conn.reading_response && !(conn.phase
        is Reconnecting)
}

/// The number of connections of `pool` that await a response.
pub open spec fn awaited(pool: Seq<ConnectionView>) -> nat
    decreases pool.len(),
{
    if pool.len() == 0 {
        0
    } else {
        awaited(pool.drop_last()) + if awaits_response(pool.last()) {
            1nat
        } else {
            0nat
        }
    }
}

/// Whether the run is within its budget: the responses classified and the
/// responses awaited are together no more than the requests sent, which are
/// no more than the requests asked for.
pub open spec fn within_budget(ctx: CtxView, pool: Seq<ConnectionView>) -> bool {
    ctx.total() + awaited(pool) <= ctx.sent <= ctx.max_requests
}

/// Replacing one connection of a pool changes the number of awaited
/// responses by what that connection awaits.
pub proof fn lemma_awaited_update(pool: Seq<ConnectionView>, i: int, conn: ConnectionView)
    requires
        0 <= i < pool.len(),
    ensures
        awaited(pool.update(i, conn)) + (if awaits_response(pool[i]) {
            1nat
        } else {
            0nat
        }) == awaited(pool) + (if awaits_response(conn) {
            1nat
        } else {
            0nat
        }),
    decreases pool.len(),
{
    let updated = pool.update(i, conn);
    if i == pool.len() - 1 {
        assert(updated.drop_last() =~= pool.drop_last());
    } else {
        assert(updated.drop_last() =~= pool.drop_last().update(i, conn));
        lemma_awaited_update(pool.drop_last(), i, conn);
    }
}

/// A pool holds at least the awaited response of each of its connections.
pub proof fn lemma_awaited_counts(pool: Seq<ConnectionView>, i: int)
    requires
        0 <= i < pool.len(),
        awaits_response(pool[i]),
    ensures
        awaited(pool) >= 1,
    decreases pool.len(),
{
    if i < pool.len() - 1 {
        lemma_awaited_counts(pool.drop_last(), i);
    }
}

/// A run begins within its budget: nothing is sent or classified, and no
/// connection made by `Connection::new` awaits a response.
pub proof fn lemma_budget_at_the_start(
    payload: Seq<u8>,
    max_requests: nat,
    concurrency: nat,
    pool: Seq<ConnectionView>,
)
    requires
        forall|i: int| 0 <= i < pool.len() ==> (#[trigger] pool[i]).state
            == ConnectionState::Connecting,
    ensures
        within_budget(CtxView::initial(payload, max_requests, concurrency), pool),
    decreases pool.len(),
{
    if pool.len() > 0 {
        lemma_budget_at_the_start(payload, max_requests, concurrency, pool.drop_last());
    }
}

/// Within the budget, the first bytes of a response always find the run
/// short of the number of requests asked for: the demand that `accepts`
/// makes of a drain that ends is met for every connection of the pool.
pub proof fn lemma_budget_has_room(ctx: CtxView, pool: Seq<ConnectionView>, i: int)
    requires
        within_budget(ctx, pool),
        0 <= i < pool.len(),
        awaits_response(pool[i]),
    ensures
        ctx.total() < ctx.max_requests,
{
    lemma_awaited_counts(pool, i);
}

/// Whatever event a connection of the pool handles, the run stays within
/// its budget, so that the responses classified never exceed the requests
/// asked for.
pub proof fn lemma_budget_is_kept(
    event: Event,
    ctx: CtxView,
    pool: Seq<ConnectionView>,
    i: int,
    reporter: ReporterView,
)
    requires
        within_budget(ctx, pool),
        0 <= i < pool.len(),
        accepts(event, ctx, pool[i], reporter),
    ensures
        within_budget(
            next_ctx(event, ctx, pool[i]),
            pool.update(i, next_connection(event, ctx, pool[i])),
        ),
        next_ctx(event, ctx, pool[i]).total() <= ctx.max_requests,
        next_ctx(event, ctx, pool[i]).max_requests == ctx.max_requests,
{
    let conn = pool[i];
    lemma_awaited_update(pool, i, next_connection(event, ctx, conn));
    if awaits_response(conn) {
        lemma_awaited_counts(pool, i);
    }
}

/// The driver stops exactly when as many responses are classified as
/// requests were asked for, or the deadline has passed.
pub proof fn lemma_run_stops_at_the_count_or_the_deadline(
    timelimit: u128,
    spent: u128,
    ctx: CtxView,
)
    requires
        ctx.wf(),
    ensures
        progress(timelimit, spent, ctx) is Finished <==> ctx.total() == ctx.max_requests || spent
            > timelimit,
        progress(timelimit, spent, ctx) matches Progress::Finished { timed_out } ==> (timed_out
            <==> spent > timelimit),
        progress(timelimit, spent, ctx) matches Progress::Poll { timeout } ==> timeout
            == timelimit - spent,
{
}

/// The server's name and the document's length, once told, stay as they
/// are whatever event whichever connection handles.
pub proof fn lemma_server_is_told_once(event: Event, ctx: CtxView, conn: ConnectionView)
    requires
        ctx.server_name is Some,
    ensures
        next_ctx(event, ctx, conn).server_name == ctx.server_name,
        next_ctx(event, ctx, conn).doclen == ctx.doclen,
{
}

/// The first bytes that carry a status code tell the server's name and the
/// document's length; bytes that carry none tell nothing.
pub proof fn lemma_first_response_tells_the_server(ctx: CtxView, data: Seq<u8>)
    requires
        ctx.server_name is None,
    ensures
        status_of(data) is Some ==> recorded(ctx, data).server_name == Some(
            match server_of(data) {
                Some(name) => name,
                None => Seq::empty(),
            },
        ) && recorded(ctx, data).doclen == Some(data.len()),
        status_of(data) is None ==> recorded(ctx, data).server_name is None && recorded(
            ctx,
            data,
        ).doclen == ctx.doclen,
{
}

/// A drain finds the response complete exactly when the peer has closed or
/// the read failed for good, however the bytes came in; until a read ends
/// the drain, the socket is read again, into room that is never empty.
pub proof fn lemma_response_ends_with_the_stream(
    outcome: ReadOutcome,
    ctx: CtxView,
    conn: ConnectionView,
    reporter: ReporterView,
)
    requires
        accepts(Event::Read(outcome), ctx, conn, reporter),
    ensures
        next_handled(Event::Read(outcome), ctx, conn, reporter).action is Reconnect
            <==> outcome.ends_response(),
        next_handled(Event::Read(outcome), ctx, conn, reporter).action matches Action::Read {
            capacity,
        } ==> !outcome.ends_drain() && capacity > 0,
        next_handled(Event::Read(outcome), ctx, conn, reporter).action is Wait
            <==> outcome is WouldBlock,
        !outcome.ends_drain() ==> next_connection(Event::Read(outcome), ctx, conn).received
            == conn.received + outcome.bytes(),
        outcome.ends_drain() ==> next_connection(Event::Read(outcome), ctx, conn).bytes_received
            == conn.bytes_received + conn.received.len(),
{
}

/// A completed response makes its connection reconnect at once: the drain
/// that finds the response complete asks for a new socket whatever the run
/// and the other connections are at, and on the word that the socket was
/// replaced the same connection is connecting again.
pub proof fn lemma_completed_response_reconnects(
    outcome: ReadOutcome,
    ctx: CtxView,
    conn: ConnectionView,
    reporter: ReporterView,
    now: u128,
)
    requires
        accepts(Event::Read(outcome), ctx, conn, reporter),
        outcome.ends_response(),
        reporter.done < usize::MAX,
    ensures
        ({
            let closed = Event::Read(outcome);
            let ctx1 = next_ctx(closed, ctx, conn);
            let conn1 = next_connection(closed, ctx, conn);
            let reporter1 = next_reporter(closed, conn, reporter, now);
            let conn2 = next_connection(Event::Reconnected, ctx1, conn1);
            &&& next_handled(closed, ctx, conn, reporter).action == Action::Reconnect
            &&& accepts(Event::Reconnected, ctx1, conn1, reporter1)
            &&& conn2.token == conn.token
            &&& conn2.state == ConnectionState::Connecting
            &&& !conn2.reading_response
            &&& next_handled(Event::Reconnected, ctx1, conn1, reporter1).action == Action::Wait
        }),
{
    let closed = Event::Read(outcome);
    let ctx1 = next_ctx(closed, ctx, conn);
    if begins_response(conn, outcome) {
        assert(ctx1.wf());
    }
}

/// Handling an event leaves the collector's record of the connection in
/// step with the connection, and the records of all others as they were.
pub proof fn lemma_record_stays_in_step(
    event: Event,
    ctx: CtxView,
    conn: ConnectionView,
    reporter: ReporterView,
    now: u128,
    other: ConnectionView,
)
    requires
        accepts(event, ctx, conn, reporter),
        other.token != conn.token,
    ensures
        in_step(next_connection(event, ctx, conn), next_reporter(event, conn, reporter, now)),
        next_reporter(event, conn, reporter, now).shadow_of(other.token) == reporter.shadow_of(
            other.token,
        ),
{
}

/// The event that tells that the action asked for was carried out is the
/// event that the connection waits for then; a request is only asked to be
/// written while fewer were sent than were asked for. So an I/O layer that
/// does as it is asked is turned away by `accepts` only where a counter
/// would leave its range or the budget of the run.
pub proof fn lemma_the_answer_is_expected(
    event: Event,
    ctx: CtxView,
    conn: ConnectionView,
    reporter: ReporterView,
    now: u128,
    answer: Event,
)
    requires
        accepts(event, ctx, conn, reporter),
        answers(answer, next_handled(event, ctx, conn, reporter).action),
    ensures
        next_ctx(event, ctx, conn).wf(),
        next_connection(event, ctx, conn).wf(),
        in_step(next_connection(event, ctx, conn), next_reporter(event, conn, reporter, now)),
        expected(answer, next_connection(event, ctx, conn)),
        answer is Written ==> next_ctx(event, ctx, conn).sent < next_ctx(
            event,
            ctx,
            conn,
        ).max_requests,
{
}

} // verus!
