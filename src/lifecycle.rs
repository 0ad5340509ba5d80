//! The mint-request state machine: `Pending -> Processing -> {Completed, Failed}`.
use vstd::prelude::*;

use crate::models::{settled, Channel, MintOutcome, MintRequest, MintStatus};

verus! {

/// The request as first stored: Pending, whatever status it was handed with.
pub open spec fn as_pending(r: MintRequest) -> MintRequest {
    MintRequest { status: MintStatus::Pending, ..r }
}

/// A request that a worker may take at `now`: Pending, or Processing with a claim
/// older than `timeout`.
pub open spec fn claimable(r: MintRequest, now: u64, timeout: u64) -> bool {
    r.status == MintStatus::Pending || (r.status == MintStatus::Processing && (
    r.processed_at matches Some(p) && p + timeout < now))
}

/// The request once taken at `now`: Processing, stamped, one more attempt.
pub open spec fn claimed(r: MintRequest, now: u64) -> MintRequest {
    MintRequest {
        status: MintStatus::Processing,
        processed_at: Some(now),
        attempt: if r.attempt < u16::MAX { (r.attempt + 1) as u16 } else { u16::MAX },
        ..r
    }
}

/// The stored request after an outcome is written over it.
pub open spec fn with_outcome(stored: MintRequest, o: MintOutcome) -> MintRequest {
    MintRequest {
        status: o.request.status,
        tx_hash: o.tx_hash,
        error: o.request.error,
        processed_at: o.request.processed_at,
        attempt: o.request.attempt,
        ..stored
    }
}

/// An outcome is written only over a request that is not yet terminal, only when it
/// makes the request terminal and settled, and never lowers the attempt count.
pub open spec fn accepts_outcome(stored: MintRequest, o: MintOutcome) -> bool {
    &&& !stored.status.is_terminal()
    &&& o.request.status.is_terminal()
    &&& settled(with_outcome(stored, o))
    &&& stored.attempt <= o.request.attempt
}

/// The request completed at `now` with transfer reference `hash`.
pub open spec fn completed(r: MintRequest, hash: String, now: u64) -> MintRequest {
    MintRequest {
        status: MintStatus::Completed,
        tx_hash: Some(hash),
        error: None,
        processed_at: Some(now),
        ..r
    }
}

/// The request failed at `now` with `error`.
pub open spec fn failed(r: MintRequest, error: String, now: u64) -> MintRequest {
    MintRequest {
        status: MintStatus::Failed,
        tx_hash: None,
        error: Some(error),
        processed_at: Some(now),
        ..r
    }
}

/// A fresh Pending request with no attempt yet.
pub fn new_request(id: u128, user_id: u128, channel: Channel, amount: u64, now: u64) -> (r:
    MintRequest)
    ensures
        r == (MintRequest {
            id,
            user_id,
            channel,
            amount,
            status: MintStatus::Pending,
            tx_hash: None,
            error: None,
            requested_at: now,
            processed_at: None,
            attempt: 0,
        }),
{
    MintRequest {
        id,
        user_id,
        channel,
        amount,
        status: MintStatus::Pending,
        tx_hash: None,
        error: None,
        requested_at: now,
        processed_at: None,
        attempt: 0,
    }
}

/// The terminal outcome of one transfer attempt on `request`: Completed with the
/// reference, or Failed with the error.
pub fn settle(request: &MintRequest, result: Result<String, String>, now: u64) -> (o: MintOutcome)
    ensures
        result matches Ok(h) ==> o == (MintOutcome {
            request: completed(*request, h, now),
            tx_hash: Some(h),
        }),
        result matches Err(e) ==> o == (MintOutcome {
            request: failed(*request, e, now),
            tx_hash: None,
        }),
        settled(o.request),
        o.request.status.is_terminal(),
{
    let mut r = request.duplicate();
    match result {
        Ok(h) => {
            r.status = MintStatus::Completed;
            r.tx_hash = Some(h.clone());
            r.error = None;
            r.processed_at = Some(now);
            MintOutcome { request: r, tx_hash: Some(h) }
        },
        Err(e) => {
            r.status = MintStatus::Failed;
            r.tx_hash = None;
            r.error = Some(e);
            r.processed_at = Some(now);
            MintOutcome { request: r, tx_hash: None }
        },
    }
}

} // verus!
