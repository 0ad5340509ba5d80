//! Per-channel daily totals over the request ledger.
use vstd::prelude::*;

use crate::clock::{day_of, day_of_millis};
use crate::models::{channel_name, Channel, MintRequest, MintStatus};

verus! {

/// One channel's totals for one day.
#[derive(Debug, Clone, PartialEq, Eq)]
pub struct DailyReportRow {
    pub channel: String,
    pub total_amount: u64,
    pub success_count: u64,
    pub failure_count: u64,
}

/// Whether a request was made on `day` through `ch`.
pub open spec fn on_day(r: MintRequest, day: u64, ch: Channel) -> bool {
    day_of(r.requested_at) == day && r.channel == ch
}

/// How many requests of `l` were made on `day` through `ch`.
pub open spec fn count_on(l: Seq<MintRequest>, day: u64, ch: Channel) -> nat
    decreases l.len(),
{
    if l.len() == 0 {
        0
    } else {
        count_on(l.drop_last(), day, ch) + if on_day(l.last(), day, ch) { 1nat } else { 0nat }
    }
}

/// The sum of the amounts of those requests, whatever their status.
pub open spec fn amount_on(l: Seq<MintRequest>, day: u64, ch: Channel) -> nat
    decreases l.len(),
{
    if l.len() == 0 {
        0
    } else {
        amount_on(l.drop_last(), day, ch) + if on_day(l.last(), day, ch) {
            l.last().amount as nat
        } else {
            0nat
        }
    }
}

/// How many of those requests have status `st`.
pub open spec fn status_on(l: Seq<MintRequest>, day: u64, ch: Channel, st: MintStatus) -> nat
    decreases l.len(),
{
    if l.len() == 0 {
        0
    } else {
        status_on(l.drop_last(), day, ch, st) + if on_day(l.last(), day, ch) && l.last().status
            == st {
            1nat
        } else {
            0nat
        }
    }
}

/// A sum held in a `u64`: the true sum, or `u64::MAX` where it does not fit.
pub open spec fn capped(n: nat) -> u64 {
    if n <= u64::MAX {
        n as u64
    } else {
        u64::MAX
    }
}

/// The channels that had at least one request on `day`, in the order web, telegram, discord.
pub open spec fn reported_channels(l: Seq<MintRequest>, day: u64) -> Seq<Channel> {
    (if count_on(l, day, Channel::Web) > 0 { seq![Channel::Web] } else { Seq::empty() }) + (
    if count_on(l, day, Channel::Telegram) > 0 {
        seq![Channel::Telegram]
    } else {
        Seq::empty()
    }) + (if count_on(l, day, Channel::Discord) > 0 {
        seq![Channel::Discord]
    } else {
        Seq::empty()
    })
}

/// The row for `ch` on `day` states its totals over `l`.
pub open spec fn row_states(row: DailyReportRow, l: Seq<MintRequest>, day: u64, ch: Channel) -> bool {
    &&& row.channel@ == channel_name(ch)
    &&& row.total_amount == capped(amount_on(l, day, ch))
    &&& row.success_count == status_on(l, day, ch, MintStatus::Completed)
    &&& row.failure_count == status_on(l, day, ch, MintStatus::Failed)
}

/// The daily summary of `l`: one row per reported channel, in order.
pub open spec fn is_summary(rows: Seq<DailyReportRow>, l: Seq<MintRequest>, day: u64) -> bool {
    &&& rows.len() == reported_channels(l, day).len()
    &&& forall|j: int| 0 <= j < rows.len() ==> row_states(rows[j], l, day, reported_channels(l, day)[j])
}

/// Running totals for one channel.
pub(crate) struct Tally {
    pub(crate) count: u64,
    pub(crate) total: u64,
    pub(crate) success: u64,
    pub(crate) failure: u64,
}

pub(crate) open spec fn tally_states(t: Tally, l: Seq<MintRequest>, day: u64, ch: Channel) -> bool {
    &&& t.count == count_on(l, day, ch)
    &&& t.total == capped(amount_on(l, day, ch))
    &&& t.success == status_on(l, day, ch, MintStatus::Completed)
    &&& t.failure == status_on(l, day, ch, MintStatus::Failed)
}

proof fn lemma_counts_bounded(l: Seq<MintRequest>, day: u64, ch: Channel)
    ensures
        count_on(l, day, ch) <= l.len(),
        status_on(l, day, ch, MintStatus::Completed) <= l.len(),
        status_on(l, day, ch, MintStatus::Failed) <= l.len(),
    decreases l.len(),
{
    if l.len() > 0 {
        lemma_counts_bounded(l.drop_last(), day, ch);
    }
}

pub(crate) fn empty_tally() -> (t: Tally)
    ensures
        forall|day: u64, ch: Channel| tally_states(t, Seq::<MintRequest>::empty(), day, ch),
{
    Tally { count: 0, total: 0, success: 0, failure: 0 }
}

/// Folds one more request into the totals of `ch` on `day`.
pub(crate) fn tally_add(t: &mut Tally, l: Ghost<Seq<MintRequest>>, r: &MintRequest, day: u64, ch: Channel)
    requires
        tally_states(*old(t), l@, day, ch),
        l@.len() < u64::MAX,
    ensures
        tally_states(*final(t), l@.push(*r), day, ch),
{
    let ghost l2 = l@.push(*r);
    assert(l2.drop_last() =~= l@);
    proof {
        lemma_counts_bounded(l@, day, ch);
    }
    if day_of_millis(r.requested_at) == day && r.channel == ch {
        t.count = t.count + 1;
        t.total = t.total.saturating_add(r.amount);
        if r.status == MintStatus::Completed {
            t.success = t.success + 1;
        } else if r.status == MintStatus::Failed {
            t.failure = t.failure + 1;
        }
    }
}

/// The row for `ch` from its totals.
pub(crate) fn tally_row(t: &Tally, ch: Channel) -> (row: DailyReportRow)
    ensures
        row.channel@ == channel_name(ch),
        row.total_amount == t.total,
        row.success_count == t.success,
        row.failure_count == t.failure,
{
    DailyReportRow {
        channel: ch.as_str().to_owned(),
        total_amount: t.total,
        success_count: t.success,
        failure_count: t.failure,
    }
}

} // verus!
