use crate::reporting::NANOS_PER_SEC;
use vstd::prelude::*;

verus! {

/// The number of requests that a run with a time limit asks for.
pub const TIMED_REQUESTS: usize = 50000;

/// Up to this many requests a run shows no progress.
pub const QUIET_UP_TO: usize = 150;

/// The least number of completed requests between two progress lines.
pub const LEAST_HEARTBEAT: usize = 100;

/// What a run is to do, as its inputs settle it.
#[derive(Clone, Copy, Debug, PartialEq, Eq, Structural)]
pub struct Plan {
    /// The number of requests to make.
    pub requests: usize,
    /// The time that the run may take, in nanoseconds.
    pub timelimit: u128,
    /// A progress line is due after every so many completed requests.
    pub heartbeatres: Option<usize>,
}

/// The number of requests to make: `TIMED_REQUESTS` under a time limit,
/// else the number given.
pub open spec fn requests_of(requests: usize, timelimit: Option<u64>) -> usize {
    if timelimit is Some {
        TIMED_REQUESTS
    } else {
        requests
    }
}

/// The time that the run may take, in nanoseconds: the seconds given, and
/// without a limit as many seconds as 64 bits count.
pub open spec fn timelimit_of(timelimit: Option<u64>) -> u128 {
    match timelimit {
        Some(secs) => (secs * NANOS_PER_SEC) as u128,
        None => (u64::MAX * NANOS_PER_SEC) as u128,
    }
}

/// The interval of the progress lines of a run of `requests` requests:
/// none for a quiet or a short run, else a tenth of the requests, and
/// `LEAST_HEARTBEAT` at the least.
pub open spec fn heartbeat_of(requests: usize, quiet: bool) -> Option<usize> {
    if quiet || requests <= QUIET_UP_TO {
        None
    } else if requests / 10 > LEAST_HEARTBEAT {
        Some((requests / 10) as usize)
    } else {
        Some(LEAST_HEARTBEAT)
    }
}

/// Settles what a run is to do. There is no plan for more connections at a
/// time than requests given.
pub fn plan(concurrency: usize, requests: usize, timelimit: Option<u64>, quiet: bool) -> (plan:
    Option<Plan>)
    ensures
        plan == if concurrency > requests {
            None
        } else {
            Some(
                Plan {
                    requests: requests_of(requests, timelimit),
                    timelimit: timelimit_of(timelimit),
                    heartbeatres: heartbeat_of(requests_of(requests, timelimit), quiet),
                },
            )
        },
{
    if concurrency > requests {
        return None;
    }
    let requests = if timelimit.is_some() {
        TIMED_REQUESTS
    } else {
        requests
    };
    let secs: u64 = match timelimit {
        Some(secs) => secs,
        None => u64::MAX,
    };
    assert(secs * NANOS_PER_SEC <= u128::MAX) by (nonlinear_arith)
        requires
            0 <= secs <= u64::MAX,
            NANOS_PER_SEC == 1_000_000_000,
    ;
    let heartbeatres = if quiet || requests <= QUIET_UP_TO {
        None
    } else if requests / 10 > LEAST_HEARTBEAT {
        Some(requests / 10)
    } else {
        Some(LEAST_HEARTBEAT)
    };
    Some(Plan { requests, timelimit: secs as u128 * NANOS_PER_SEC, heartbeatres })
}

} // verus!
