//! The transfer capability that the pipeline drives, and its logging stand-in.
use vstd::prelude::*;

use crate::clock::fresh_id;
use crate::models::MintRequest;
use crate::text::{concat, uuid_string, uuid_text};

verus! {

/// Performs the actual value transfer for a request. Any error is final for that
/// attempt; the pipeline calls it at most once per attempt.
pub trait AptosClient {
    /// Whether this client never fails a transfer; an implementation that says so
    /// proves it. Unless it says so, nothing is claimed.
    open spec fn always_succeeds(&self) -> bool {
        false
    }

    /// The transfer reference on success, or the reason of the failure.
    fn submit_transfer(&self, request: &MintRequest) -> (r: Result<String, String>)
        ensures
            self.always_succeeds() ==> r is Ok,
    ;
}

/// A transfer client that moves nothing and always succeeds with a fresh reference.
pub struct LoggingAptosClient;

impl AptosClient for LoggingAptosClient {
    open spec fn always_succeeds(&self) -> bool {
        true
    }

    /// `mock-tx-` followed by the hyphenated form of a fresh identifier.
    fn submit_transfer(&self, request: &MintRequest) -> (r: Result<String, String>)
        ensures
            r matches Ok(h) && exists|id: u128| h@ == "mock-tx-"@ + uuid_text(id),
    {
        let id = fresh_id();
        let text = uuid_string(id);
        Ok(concat("mock-tx-", text.as_str()))
    }
}

} // verus!
