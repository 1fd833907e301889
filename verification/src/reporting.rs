use crate::connection::ConnectionState;
use crate::ctx::Ctx;
use std::collections::HashMap;
use vstd::multiset::Multiset;
use vstd::prelude::*;
use vstd::std_specs::hash::group_hash_axioms;

verus! {

broadcast use group_hash_axioms;

/// Nanoseconds in one millisecond. All instants and durations of this crate
/// are nanosecond counts; reports are in whole milliseconds.
pub const NANOS_PER_MILLI: u128 = 1_000_000;

/// The whole milliseconds in a duration of `nanos` nanoseconds.
pub open spec fn as_millis(nanos: u128) -> u128 {
    nanos / NANOS_PER_MILLI
}

/// The time from `earlier` to `later`, zero where the clock ran backwards.
pub open spec fn elapsed(earlier: u128, later: u128) -> u128 {
    if later >= earlier {
        (later - earlier) as u128
    } else {
        0
    }
}

/// The time from `earlier` to `later`, zero where the clock ran backwards.
pub fn time_between(earlier: u128, later: u128) -> (spent: u128)
    ensures
        spent == elapsed(earlier, later),
{
    if later >= earlier {
        later - earlier
    } else {
        0
    }
}

/// The collector's own record of a connection's state. The two timed phases
/// carry the instant at which they began.
#[derive(Clone, Copy, Debug, PartialEq, Eq, Structural)]
pub enum State {
    Unconnected,
    Connecting(u128),
    Connected,
    Read(u128),
}

impl State {
    /// The connection state that this record mirrors.
    pub open spec fn mirrored(self) -> ConnectionState {
        match self {
            State::Unconnected => ConnectionState::Unconnected,
            State::Connecting(_) => ConnectionState::Connecting,
            State::Connected => ConnectionState::Connected,
            State::Read(_) => ConnectionState::Reading,
        }
    }
}

/// Whether a connection recorded in state `from` may report `to` next. Every
/// other pair means that the connection and its record have come apart.
pub open spec fn transition_allowed(from: State, to: ConnectionState) -> bool {
    match (from, to) {
        (State::Connected, ConnectionState::Reading) => true,
        (State::Read(_), ConnectionState::Unconnected) => true,
        (State::Connecting(_), ConnectionState::Connected) => true,
        (_, ConnectionState::Connecting) => true,
        _ => false,
    }
}

/// What the collector holds of one connection, as mathematics.
pub struct Shadow {
    pub state: State,
    /// Durations of the completed response phases, oldest first.
    pub times: Seq<u128>,
    /// Durations of the completed connect phases, oldest first.
    pub ctimes: Seq<u128>,
}

impl Shadow {
    /// The record of a connection that has reported nothing yet.
    pub open spec fn fresh() -> Shadow {
        Shadow { state: State::Unconnected, times: Seq::empty(), ctimes: Seq::empty() }
    }

    /// The record after the connection reported `to` at instant `now`.
    pub open spec fn step(self, to: ConnectionState, now: u128) -> Shadow {
        match (self.state, to) {
            (State::Connected, ConnectionState::Reading) => Shadow {
                state: State::Read(now),
                ..self
            },
            (State::Read(started), ConnectionState::Unconnected) => Shadow {
                state: State::Unconnected,
                times: self.times.push(elapsed(started, now)),
                ..self
            },
            (State::Connecting(started), ConnectionState::Connected) => Shadow {
                state: State::Connected,
                ctimes: self.ctimes.push(elapsed(started, now)),
                ..self
            },
            (_, ConnectionState::Connecting) => Shadow { state: State::Connecting(now), ..self },
            _ => self,
        }
    }
}

/// Whether the report of `to` completes a response.
pub open spec fn completes(from: State, to: ConnectionState) -> bool {
    from is Read && to == ConnectionState::Unconnected
}

/// The collector as mathematics.
pub struct ReporterView {
    /// A heartbeat is due after every so many completed responses.
    pub heartbeatres: Option<usize>,
    /// Completed responses so far.
    pub done: nat,
    /// The connections known, in the order of their first report.
    pub order: Seq<usize>,
    /// The record of each known connection.
    pub shadows: Map<usize, Shadow>,
    pub started: Option<u128>,
    pub finished: Option<u128>,
}

impl ReporterView {
    /// The record of `conn`, fresh where the connection is not known yet.
    pub open spec fn shadow_of(self, conn: usize) -> Shadow {
        if self.shadows.contains_key(conn) {
            self.shadows[conn]
        } else {
            Shadow::fresh()
        }
    }

    /// Whether a heartbeat is due once `done` responses have completed.
    pub open spec fn heartbeat_due(self, done: nat) -> bool {
        self.heartbeatres matches Some(every) && every > 0 && done % (every as nat) == 0
    }

    /// The collector after `conn` reported `to` at instant `now`.
    pub open spec fn changed(self, conn: usize, to: ConnectionState, now: u128) -> ReporterView {
        ReporterView {
            done: if completes(self.shadow_of(conn).state, to) {
                self.done + 1
            } else {
                self.done
            },
            order: if self.shadows.contains_key(conn) {
                self.order
            } else {
                self.order.push(conn)
            },
            shadows: self.shadows.insert(conn, self.shadow_of(conn).step(to, now)),
            ..self
        }
    }

    /// The heartbeat that the report of `to` by `conn` calls for: the number
    /// of completed responses, where that report completes one and the count
    /// has reached a multiple of the heartbeat interval.
    pub open spec fn heartbeat(self, conn: usize, to: ConnectionState) -> Option<usize> {
        if completes(self.shadow_of(conn).state, to) && self.heartbeat_due(self.done + 1) {
            Some((self.done + 1) as usize)
        } else {
            None
        }
    }

    /// The response durations of the connections in `order`, one connection
    /// after the other.
    pub open spec fn times_of(self, order: Seq<usize>) -> Seq<u128>
        decreases order.len(),
    {
        if order.len() == 0 {
            Seq::empty()
        } else {
            self.times_of(order.drop_last()) + self.shadow_of(order.last()).times
        }
    }

    /// The connect durations of the connections in `order`, one connection
    /// after the other.
    pub open spec fn ctimes_of(self, order: Seq<usize>) -> Seq<u128>
        decreases order.len(),
    {
        if order.len() == 0 {
            Seq::empty()
        } else {
            self.ctimes_of(order.drop_last()) + self.shadow_of(order.last()).ctimes
        }
    }

    /// Every response duration recorded, in no particular order.
    pub open spec fn all_times(self) -> Multiset<u128> {
        self.times_of(self.order).to_multiset()
    }

    /// Every connect duration recorded, in no particular order.
    pub open spec fn all_ctimes(self) -> Multiset<u128> {
        self.ctimes_of(self.order).to_multiset()
    }
}

/// What is on record of one connection.
struct ConnectionStats {
    state: State,
    times: Vec<u128>,
    ctimes: Vec<u128>,  // connection times
}

impl ConnectionStats {
    /// The record as mathematics.
    spec fn shadow(self) -> Shadow {
        Shadow { state: self.state, times: self.times@, ctimes: self.ctimes@ }
    }
}

/// The statistics collector: a record per connection, fed by the stream of
/// state changes alone, and the wall-clock bounds of the run.
pub struct Reporter {
    heartbeatres: Option<usize>,
    done: usize,
    connections: HashMap<usize, ConnectionStats>,
    /// The keys of `connections` in the order of their first report, which
    /// is the order in which the samples are gathered.
    order: Vec<usize>,
    started: Option<u128>,
    finished: Option<u128>,
}

/// Whether `order` lists the keys of `records`, each once.
spec fn lists(order: Seq<usize>, records: Map<usize, ConnectionStats>) -> bool {
    &&& order.no_duplicates()
    &&& forall|t: usize| order.contains(t) <==> records.contains_key(t)
}

/// The records as mathematics.
spec fn shadows(records: Map<usize, ConnectionStats>) -> Map<usize, Shadow> {
    Map::new(|t: usize| records.contains_key(t), |t: usize| records[t].shadow())
}

/// Makes sure that `conn` has a record: a fresh one is made, and listed
/// last, where the connection is not known yet.
fn get_or_insert(
    connections: &mut HashMap<usize, ConnectionStats>,
    order: &mut Vec<usize>,
    conn: usize,
)
    requires
        lists(old(order)@, old(connections)@),
    ensures
        lists(final(order)@, final(connections)@),
        final(connections)@.contains_key(conn),
        final(connections)@[conn].shadow() == if old(connections)@.contains_key(conn) {
            old(connections)@[conn].shadow()
        } else {
            Shadow::fresh()
        },
        forall|t: usize| t != conn ==> (final(connections)@.contains_key(t) <==> old(
            connections,
        )@.contains_key(t)),
        forall|t: usize|
            t != conn && old(connections)@.contains_key(t) ==> final(connections)@[t] == old(
                connections,
            )@[t],
        final(order)@ == if old(connections)@.contains_key(conn) {
            old(order)@
        } else {
            old(order)@.push(conn)
        },
{
    if !connections.contains_key(&conn) {
        connections.insert(
            conn,
            ConnectionStats { state: State::Unconnected, times: vec![], ctimes: vec![] },
        );
        order.push(conn);
        proof {
            assert(connections@[conn].shadow().times =~= Shadow::fresh().times);
            assert(connections@[conn].shadow().ctimes =~= Shadow::fresh().ctimes);
            assert(!old(order)@.contains(conn));
            lemma_listed_one_more(old(order)@, conn);
            assert forall|t: usize| order@.contains(t) <==> connections@.contains_key(t) by {
                assert(old(order)@.contains(t) <==> old(connections)@.contains_key(t));
            }
        }
    }
}

/// A list without `t` that is given `t` at its end holds what it held and
/// `t`, and nothing twice where it held nothing twice.
proof fn lemma_listed_one_more(order: Seq<usize>, t: usize)
    requires
        order.no_duplicates(),
        !order.contains(t),
    ensures
        order.push(t).no_duplicates(),
        forall|u: usize| order.push(t).contains(u) <==> u == t || order.contains(u),
{
    let longer = order.push(t);
    assert forall|u: usize| longer.contains(u) <==> u == t || order.contains(u) by {
        if longer.contains(u) {
            let i = choose|i: int| 0 <= i < longer.len() && longer[i] == u;
            if i < order.len() {
                assert(order[i] == u);
            }
        }
        if order.contains(u) {
            let i = choose|i: int| 0 <= i < order.len() && order[i] == u;
            assert(longer[i] == u);
        }
        if u == t {
            assert(longer[order.len() as int] == t);
        }
    }
    assert forall|i: int, j: int|
        0 <= i < longer.len() && 0 <= j < longer.len() && i != j implies longer[i] != longer[j] by {
        if i == order.len() {
            assert(order[j] == longer[j]);
        } else if j == order.len() {
            assert(order[i] == longer[i]);
        } else {
            assert(order[i] == longer[i] && order[j] == longer[j]);
        }
    }
}

impl View for Reporter {
    type V = ReporterView;

    closed spec fn view(&self) -> ReporterView {
        ReporterView {
            heartbeatres: self.heartbeatres,
            done: self.done as nat,
            order: self.order@,
            shadows: shadows(self.connections@),
            started: self.started,
            finished: self.finished,
        }
    }
}

impl Reporter {
    /// The connections on record are listed, each once.
    #[verifier::type_invariant]
    spec fn wf(&self) -> bool {
        lists(self.order@, self.connections@)
    }

    /// The count of completed responses fits in a machine word.
    pub proof fn lemma_done_fits(&self)
        ensures
            self@.done <= usize::MAX,
    {
    }

    /// A collector that knows no connection yet. A heartbeat is due after
    /// every `heartbeatres` completed responses, never where that is none
    /// or zero.
    pub fn new(heartbeatres: Option<usize>) -> (r: Self)
        ensures
            r@ == (ReporterView {
                heartbeatres,
                done: 0,
                order: Seq::empty(),
                shadows: Map::empty(),
                started: None,
                finished: None,
            }),
    {
        let r = Reporter {
            heartbeatres,
            done: 0,
            connections: HashMap::new(),
            order: Vec::new(),
            started: None,
            finished: None,
        };
        assert(r@.shadows =~= Map::empty());
        r
    }

    /// The state on record for `conn`: unconnected where the connection
    /// has reported nothing yet.
    pub fn state_of(&self, conn: usize) -> (state: State)
        ensures
            state == self@.shadow_of(conn).state,
    {
        match self.connections.get(&conn) {
            Some(stats) => stats.state,
            None => State::Unconnected,
        }
    }

    /// The responses completed so far.
    pub fn done(&self) -> (done: usize)
        ensures
            done == self@.done,
    {
        self.done
    }

    /// Takes the report that connection `conn` entered `new_state` at instant
    /// `now`: brings the record of `conn` up to date, times the phase that
    /// ended, and says whether a progress heartbeat is due.
    pub fn connection_state_changed(
        &mut self,
        conn: usize,
        new_state: ConnectionState,
        now: u128,
    ) -> (heartbeat: Option<usize>)
        requires
            transition_allowed(old(self)@.shadow_of(conn).state, new_state),
            completes(old(self)@.shadow_of(conn).state, new_state) ==> old(self)@.done < usize::MAX,
        ensures
            final(self)@ == old(self)@.changed(conn, new_state, now),
            heartbeat == old(self)@.heartbeat(conn, new_state),
    {
        proof {
            use_type_invariant(&*self);
        }
        let mut taken = Reporter::new(None);
        std::mem::swap(self, &mut taken);
        let Reporter { heartbeatres, mut done, mut connections, mut order, started, finished } =
            taken;
        get_or_insert(&mut connections, &mut order, conn);
        let ghost listed = connections@;
        let mut completed = false;
        if let Some(mut stats) = connections.remove(&conn) {
            match (stats.state, new_state) {
                (State::Connected, ConnectionState::Reading) => {
                    stats.state = State::Read(now);
                },
                (State::Read(started), ConnectionState::Unconnected) => {
                    stats.times.push(time_between(started, now));
                    stats.state = State::Unconnected;
                    done += 1;
                    completed = true;
                },
                (State::Connecting(started), ConnectionState::Connected) => {
                    stats.ctimes.push(time_between(started, now));
                    stats.state = State::Connected;
                },
                (_, ConnectionState::Connecting) => {
                    stats.state = State::Connecting(now);
                },
                _ => {},
            }
            connections.insert(conn, stats);
        }
        proof {
            assert forall|t: usize| order@.contains(t) <==> connections@.contains_key(t) by {
                assert(connections@.contains_key(t) <==> listed.contains_key(t));
            }
        }
        *self = Reporter { heartbeatres, done, connections, order, started, finished };
        proof {
            let goal = old(self)@.changed(conn, new_state, now);
            assert(self@.shadows =~= goal.shadows);
        }
        if completed {
            self.print_heartbeat()
        } else {
            None
        }
    }

    /// The number of completed responses, where a heartbeat is due at it.
    fn print_heartbeat(&self) -> (heartbeat: Option<usize>)
        ensures
            heartbeat == if self@.heartbeat_due(self@.done) {
                Some(self.done)
            } else {
                None
            },
    {
        if let Some(heartbeatres) = self.heartbeatres {
            if heartbeatres > 0 && self.done % heartbeatres == 0 {
                return Some(self.done);
            }
        }
        None
    }

    /// Marks the wall-clock begin of the run.
    pub fn start(&mut self, now: u128)
        ensures
            final(self)@ == (ReporterView { started: Some(now), ..old(self)@ }),
    {
        proof {
            use_type_invariant(&*self);
        }
        self.started = Some(now);
    }

    /// Marks the wall-clock end of the run.
    pub fn end(&mut self, now: u128)
        ensures
            final(self)@ == (ReporterView { finished: Some(now), ..old(self)@ }),
    {
        proof {
            use_type_invariant(&*self);
        }
        self.finished = Some(now);
    }
}

/// Whether `s` ascends, equal neighbours allowed.
pub open spec fn is_sorted(s: Seq<u128>) -> bool {
    forall|i: int, j: int| 0 <= i <= j < s.len() ==> s[i] <= s[j]
}

/// `slice::sort_unstable` of std, on the elements of a vector: afterwards
/// the vector ascends and holds what it held before, each value as often
/// as before.
#[verifier::external_body]
fn sort_unstable(samples: &mut Vec<u128>)
    ensures
        is_sorted(final(samples)@),
        final(samples)@.to_multiset() == old(samples)@.to_multiset(),
{
    samples.sort_unstable();
}

/// The shortest of the ascending `times`, in whole milliseconds.
pub fn min(times: &[u128]) -> (millis: u128)
    requires
        times@.len() > 0,
    ensures
        millis == as_millis(times@.first()),
        is_sorted(times@) ==> forall|i: int|
            0 <= i < times@.len() ==> millis <= as_millis(times@[i]),
{
    times[0] / NANOS_PER_MILLI
}

/// The upper median of the ascending `times`, in whole milliseconds.
pub fn median(times: &[u128]) -> (millis: u128)
    requires
        times@.len() > 0,
    ensures
        millis == as_millis(times@[times@.len() as int / 2]),
{
    times[times.len() / 2] / NANOS_PER_MILLI
}

/// The longest of the ascending `times`, in whole milliseconds.
pub fn max(times: &[u128]) -> (millis: u128)
    requires
        times@.len() > 0,
    ensures
        millis == as_millis(times@.last()),
        is_sorted(times@) ==> forall|i: int|
            0 <= i < times@.len() ==> as_millis(times@[i]) <= millis,
{
    times[times.len() - 1] / NANOS_PER_MILLI
}

/// The sum of `times`.
pub open spec fn total(times: Seq<u128>) -> nat
    decreases times.len(),
{
    if times.len() == 0 {
        0
    } else {
        total(times.drop_last()) + times.last() as nat
    }
}

/// The sum of `times` in whole milliseconds, the numerator of their mean;
/// `None` where the sum of the nanosecond counts does not fit in 128 bits.
pub fn sum_millis(times: &[u128]) -> (millis: Option<u128>)
    ensures
        millis == if total(times@) <= u128::MAX {
            Some(as_millis(total(times@) as u128))
        } else {
            None
        },
{
    let mut sum: u128 = 0;
    let mut i: usize = 0;
    while i < times.len()
        invariant
            i <= times@.len(),
            sum == total(times@.take(i as int)),
        decreases times@.len() - i,
    {
        proof {
            assert(times@.take(i + 1).drop_last() =~= times@.take(i as int));
            lemma_total_grows(times@, i + 1);
        }
        match sum.checked_add(times[i]) {
            Some(next) => {
                sum = next;
            },
            None => {
                return None;
            },
        }
        i += 1;
    }
    proof {
        assert(times@.take(i as int) =~= times@);
    }
    Some(sum / NANOS_PER_MILLI)
}

/// The sum of a prefix is at most the sum of the whole.
proof fn lemma_total_grows(times: Seq<u128>, n: int)
    requires
        0 <= n <= times.len(),
    ensures
        total(times.take(n)) <= total(times),
    decreases times.len() - n,
{
    if n < times.len() {
        assert(times.take(n + 1).drop_last() =~= times.take(n));
        lemma_total_grows(times, n + 1);
    } else {
        assert(times.take(n) =~= times);
    }
}

/// The percentages at which the response times are sampled, but for the
/// longest request.
pub open spec fn cut_points() -> Seq<usize> {
    seq![50, 66, 75, 80, 90, 95, 98, 99]
}

/// The place, among `count` ascending samples, of the sample reported for
/// `percentage`: the whole part of `count / 100 * percentage`.
pub open spec fn percentile_index(count: nat, percentage: nat) -> nat {
    count * percentage / 100
}

/// One line of the percentile table.
#[derive(Clone, Copy, Debug, PartialEq, Eq, Structural)]
pub struct Percentile {
    pub percentage: usize,
    /// The time within which that share of the requests was served, in
    /// whole milliseconds.
    pub millis: u128,
}

/// Whether `table` is the percentile table of the ascending `times`: a line
/// for each cut point, then the longest request as the line for 100.
pub open spec fn is_percentile_table(table: Seq<Percentile>, times: Seq<u128>) -> bool {
    &&& table.len() == cut_points().len() + 1
    &&& forall|k: int|
        0 <= k < cut_points().len() ==> (#[trigger] table[k]).percentage == cut_points()[k]
            && table[k].millis == as_millis(
            times[percentile_index(times.len(), cut_points()[k] as nat) as int],
        )
    &&& table.last().percentage == 100
    &&& table.last().millis == as_millis(times.last())
}

/// The place of the sample reported for `percentage` among `count`
/// ascending samples.
pub fn percentile_at(count: usize, percentage: usize) -> (index: usize)
    requires
        percentage <= 100,
    ensures
        index == percentile_index(count as nat, percentage as nat),
        percentage < 100 && count > 0 ==> index < count,
        index <= count,
{
    assert(count * percentage <= 0xFFFF_FFFF_FFFF_FFFF * 100) by (nonlinear_arith)
        requires
            0 <= count <= 0xFFFF_FFFF_FFFF_FFFF,
            0 <= percentage <= 100,
    ;
    let wide: u128 = (count as u128) * (percentage as u128) / 100;
    assert(count * percentage / 100 <= count && (percentage < 100 && count > 0 ==> count
        * percentage / 100 < count)) by (nonlinear_arith)
        requires
            percentage <= 100,
            count >= 0,
    ;
    wide as usize
}

/// The percentile table of the ascending `times`; none is made of fewer
/// than two samples.
pub fn percentiles(times: &[u128]) -> (table: Option<Vec<Percentile>>)
    ensures
        times@.len() < 2 <==> table is None,
        table matches Some(lines) ==> is_percentile_table(lines@, times@),
{
    if times.len() < 2 {
        return None;
    }
    let cuts: [usize; 8] = [50, 66, 75, 80, 90, 95, 98, 99];
    assert(cuts@ =~= cut_points());
    let mut lines: Vec<Percentile> = Vec::new();
    let mut k: usize = 0;
    while k < 8
        invariant
            k <= 8,
            cuts@ == cut_points(),
            times@.len() >= 2,
            lines@.len() == k,
            forall|j: int|
                0 <= j < k ==> (#[trigger] lines@[j]).percentage == cut_points()[j]
                    && lines@[j].millis == as_millis(
                    times@[percentile_index(times@.len(), cut_points()[j] as nat) as int],
                ),
        decreases 8 - k,
    {
        let percentage = cuts[k];
        let idx = percentile_at(times.len(), percentage);
        lines.push(Percentile { percentage, millis: times[idx] / NANOS_PER_MILLI });
        k += 1;
    }
    lines.push(Percentile { percentage: 100, millis: times[times.len() - 1] / NANOS_PER_MILLI });
    Some(lines)
}

/// Nanoseconds in one second.
pub const NANOS_PER_SEC: u128 = 1_000_000_000;

/// The connect times of a run in whole milliseconds.
#[derive(Clone, Copy, Debug, PartialEq, Eq, Structural)]
pub struct ConnectTimes {
    pub min: u128,
    pub median: u128,
    pub max: u128,
    /// The sum of the samples, the numerator of their mean; `None` where
    /// the sum of the nanosecond counts does not fit in 128 bits.
    pub sum: Option<u128>,
    /// The number of samples.
    pub count: usize,
}

/// The connect times that the ascending `times` come to, none without a
/// sample.
pub open spec fn connect_times_of(times: Seq<u128>) -> Option<ConnectTimes> {
    if times.len() == 0 {
        None
    } else {
        Some(
            ConnectTimes {
                min: as_millis(times.first()),
                median: as_millis(times[times.len() as int / 2]),
                max: as_millis(times.last()),
                sum: if total(times) <= u128::MAX {
                    Some(as_millis(total(times) as u128))
                } else {
                    None
                },
                count: times.len() as usize,
            },
        )
    }
}

/// The numbers of the final report.
pub struct Summary {
    /// The server's name, empty where no response told it.
    pub server_software: String,
    pub document_length: Option<usize>,
    pub concurrency: usize,
    /// The whole seconds that the run took.
    pub seconds: u128,
    /// The milliseconds that the run took beyond its whole seconds.
    pub millis: u128,
    /// The responses that carried a status code.
    pub complete_requests: usize,
    /// The responses that carried none.
    pub failed_requests: usize,
    /// The responses with a status code outside of 200 to 299.
    pub non_2xx_responses: usize,
    /// Every connect duration recorded, ascending, in nanoseconds.
    pub connection_times: Vec<u128>,
    /// Their summary, none without a sample.
    pub connect: Option<ConnectTimes>,
    /// Every response duration recorded, ascending, in nanoseconds.
    pub response_times: Vec<u128>,
    /// Their percentile table, none of fewer than two samples.
    pub percentiles: Option<Vec<Percentile>>,
}

/// The connect times that the ascending `times` come to, none without a
/// sample.
pub fn summarize_connection_times(times: &[u128]) -> (summary: Option<ConnectTimes>)
    ensures
        summary == connect_times_of(times@),
{
    if times.len() == 0 {
        return None;
    }
    Some(
        ConnectTimes {
            min: min(times),
            median: median(times),
            max: max(times),
            sum: sum_millis(times),
            count: times.len(),
        },
    )
}

impl Reporter {
    /// Every connect duration recorded, ascending.
    pub fn connection_times(&self) -> (times: Vec<u128>)
        ensures
            is_sorted(times@),
            times@.to_multiset() == self@.all_ctimes(),
    {
        proof {
            use_type_invariant(&*self);
        }
        let mut times: Vec<u128> = Vec::new();
        let mut i: usize = 0;
        while i < self.order.len()
            invariant
                i <= self.order@.len(),
                self.wf(),
                times@ == self@.ctimes_of(self.order@.take(i as int)),
            decreases self.order@.len() - i,
        {
            proof {
                assert(self.order@.take(i + 1).drop_last() =~= self.order@.take(i as int));
                assert(self.order@.take(i + 1).last() == self.order@[i as int]);
                assert(self.order@.contains(self.order@[i as int]));
            }
            let ghost before = times@;
            if let Some(stats) = self.connections.get(&self.order[i]) {
                times.extend_from_slice(stats.ctimes.as_slice());
                assert(times@ =~= before + stats.ctimes@);
            }
            i += 1;
        }
        proof {
            assert(self.order@.take(i as int) =~= self.order@);
        }
        sort_unstable(&mut times);
        times
    }

    /// Every response duration recorded, ascending.
    pub fn response_times(&self) -> (times: Vec<u128>)
        ensures
            is_sorted(times@),
            times@.to_multiset() == self@.all_times(),
    {
        proof {
            use_type_invariant(&*self);
        }
        let mut times: Vec<u128> = Vec::new();
        let mut i: usize = 0;
        while i < self.order.len()
            invariant
                i <= self.order@.len(),
                self.wf(),
                times@ == self@.times_of(self.order@.take(i as int)),
            decreases self.order@.len() - i,
        {
            proof {
                assert(self.order@.take(i + 1).drop_last() =~= self.order@.take(i as int));
                assert(self.order@.take(i + 1).last() == self.order@[i as int]);
                assert(self.order@.contains(self.order@[i as int]));
            }
            let ghost before = times@;
            if let Some(stats) = self.connections.get(&self.order[i]) {
                times.extend_from_slice(stats.times.as_slice());
                assert(times@ =~= before + stats.times@);
            }
            i += 1;
        }
        proof {
            assert(self.order@.take(i as int) =~= self.order@);
        }
        sort_unstable(&mut times);
        times
    }

    /// Whether the begin and the end of the run were marked.
    pub fn has_run(&self) -> (run: bool)
        ensures
            run == (self@.started is Some && self@.finished is Some),
    {
        self.started.is_some() && self.finished.is_some()
    }

    /// The numbers of the final report on a run that has begun and ended:
    /// what the counters of `ctx` say, the time from the begin of the run
    /// to its end, and the connect and response times in ascending order
    /// with their summaries.
    pub fn summary(&self, ctx: &Ctx) -> (summary: Summary)
        requires
            ctx.wf(),
            self@.started is Some,
            self@.finished is Some,
        ensures
            summary.server_software@ == match ctx@.server_name {
                Some(name) => name,
                None => Seq::empty(),
            },
            match summary.document_length {
                Some(len) => ctx@.doclen == Some(len as nat),
                None => ctx@.doclen is None,
            },
            summary.concurrency == ctx@.concurrency,
            summary.seconds == elapsed(self@.started->0, self@.finished->0) / NANOS_PER_SEC,
            summary.millis == as_millis(elapsed(self@.started->0, self@.finished->0)) % 1000,
            summary.complete_requests == ctx@.unsuccessful + ctx@.successful,
            summary.failed_requests == ctx@.failed,
            summary.non_2xx_responses == ctx@.unsuccessful,
            is_sorted(summary.connection_times@),
            summary.connection_times@.to_multiset() == self@.all_ctimes(),
            summary.connect == connect_times_of(summary.connection_times@),
            is_sorted(summary.response_times@),
            summary.response_times@.to_multiset() == self@.all_times(),
            summary.response_times@.len() < 2 <==> summary.percentiles is None,
            summary.percentiles matches Some(lines) ==> is_percentile_table(
                lines@,
                summary.response_times@,
            ),
    {
        proof {
            ctx.lemma_counters_fit();
        }
        let server_software = match ctx.server_name() {
            Some(name) => name,
            None => String::new(),
        };
        let (started, finished) = match (self.started, self.finished) {
            (Some(started), Some(finished)) => (started, finished),
            _ => (0, 0),
        };
        let time_spent = time_between(started, finished);
        let connection_times = self.connection_times();
        let connect = summarize_connection_times(connection_times.as_slice());
        let response_times = self.response_times();
        let table = percentiles(response_times.as_slice());
        Summary {
            server_software,
            document_length: ctx.doclen(),
            concurrency: ctx.concurrency(),
            seconds: time_spent / NANOS_PER_SEC,
            millis: time_spent / NANOS_PER_MILLI % 1000,
            complete_requests: ctx.unsuccessful_responses() + ctx.successful_responses(),
            failed_requests: ctx.failed_responses(),
            non_2xx_responses: ctx.unsuccessful_responses(),
            connection_times,
            connect,
            response_times,
            percentiles: table,
        }
    }
}

} // verus!
