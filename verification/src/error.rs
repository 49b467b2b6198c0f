//! What can go wrong where the server limits the rate of requests.

use vstd::prelude::*;

verus! {

/// The server refused a request because too many were made.
#[derive(Debug, PartialEq, Eq, Structural, Clone, Copy)]
pub enum RateLimitError {
    /// The quota is used up, and the server said when it is renewed: at
    /// `reset` seconds of the Unix epoch.
    Primary { reset: i64 },
    /// The quota is used up, and the server did not say when it is renewed.
    NoReset,
    /// The server kept asking to wait until no attempt was left.
    Secondary,
}

} // verus!
