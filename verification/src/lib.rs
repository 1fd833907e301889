//! The core of an HTTP load generator: it drives a fixed pool of connections
//! through request after request against one target and derives latency
//! statistics from what it sees.
//!
//! Nothing in this library touches a socket or a clock. The I/O layer owns
//! the sockets and the readiness multiplexer, and tells the library what
//! happened and when; the library keeps the state and says what to do next:
//!
//! - [`ctx`] holds the counters of a run, its payload and its stopping
//!   threshold.
//! - [`connection`] holds the lifecycle of one pooled connection, its
//!   counters and its receive buffer.
//! - [`http`] reads the status code and the server's name off the head of a
//!   response, and spells the request.
//! - [`reporting`] collects the state changes of the connections, times the
//!   connect and response phases, and works out the numbers of the final
//!   report.
//! - [`benchmarking`] handles the events of a connection and decides when the
//!   run is over.
//! - [`target`] parses the target URL, and [`options`] settles what a run is
//!   to do.
//!
//! Instants and durations are nanosecond counts in `u128`. Instants are
//! counted from any fixed point that the I/O layer chooses.

pub mod benchmarking;
pub mod connection;
pub mod ctx;
pub mod http;
pub mod options;
pub mod reporting;
pub mod target;
