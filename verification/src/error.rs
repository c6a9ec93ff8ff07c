//! The failure kinds a speed test can surface to its caller.

use vstd::prelude::*;

verus! {

/// A typed failure of a speed test.
///
/// Transport-level failures and unsuccessful HTTP statuses are carried
/// as plain text so that contracts can speak of the whole value.
#[derive(Debug, PartialEq, Eq)]
pub enum SpeedTestError {
    /// A connection-level failure: refused connection, DNS failure,
    /// or a per-request timeout.
    NetworkError(String),
    /// A read error while streaming a response body.
    IoError(String),
    /// A test that could not be completed, such as an unsuccessful
    /// HTTP status or the exhaustion of every configured endpoint.
    TestFailed(String),
    /// A configuration that the engine rejects before any transfer.
    InvalidConfig(String),
    /// A timeout of the overall test.
    Timeout,
}

} // verus!
