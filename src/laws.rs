//! Properties that hold across calls, proved over the specifications of the
//! functions they speak of.
use vstd::prelude::*;

use crate::config::{ceiling, daily_cap, LimitConfig};
use crate::lifecycle::{as_pending, claimable, claimed};
use crate::memory::{is_pick, sat_add, ledger_after_enqueue, override_applied, override_value, MemoryStore};
use crate::models::{settled, MintOutcome, MintRequest, MintStatus, Role, SystemConfig, User};
use crate::clock::day_of;
use crate::text::{all_digits, decimal_text, digit_char, digits_value};
use vstd::arithmetic::div_mod::lemma_fundamental_div_mod;
use crate::queue::AptosClient;
use crate::rate_limit::{counted_after, verdict, RateLimitError};
use crate::service::{FaucetError, FaucetService};

verus! {

/// The sum of a sequence of amounts.
pub open spec fn sum_of(amounts: Seq<u64>) -> nat
    decreases amounts.len(),
{
    if amounts.len() == 0 {
        0
    } else {
        sum_of(amounts.drop_last()) + amounts.last() as nat
    }
}

/// Whether each amount in turn is admitted for `role`, starting from `used`.
pub open spec fn all_admitted(limits: LimitConfig, role: Role, used: nat, amounts: Seq<u64>) -> bool
    decreases amounts.len(),
{
    if amounts.len() == 0 {
        true
    } else {
        all_admitted(limits, role, used, amounts.drop_last()) && verdict(
            limits,
            role,
            counter_after_all(limits, role, used, amounts.drop_last()),
            amounts.last(),
        ) is Ok
    }
}

/// The in-process counter after each amount in turn is admitted.
pub open spec fn counter_after_all(limits: LimitConfig, role: Role, used: nat, amounts: Seq<u64>) -> nat
    decreases amounts.len(),
{
    if amounts.len() == 0 {
        used
    } else {
        counted_after(
            limits,
            role,
            counter_after_all(limits, role, used, amounts.drop_last()),
            amounts.last(),
        )
    }
}

/// An amount above the ceiling of the role is refused as such, whatever was minted
/// before; and a mint of it leaves the store and the rate limiter as they were.
pub proof fn lemma_over_ceiling_refused<C: AptosClient>(
    s: FaucetService<C>,
    next: FaucetService<C>,
    user: User,
    amount: u64,
    now: u64,
    id: u128,
    r: Result<MintOutcome, FaucetError>,
)
    requires
        s.wf(),
        amount > ceiling(s.limit_config(), user.role),
        s.mint_effect(&next, user, amount, now, id, r),
    ensures
        forall|used: nat| #[trigger]
            verdict(s.limit_config(), user.role, used, amount) == Err::<(), RateLimitError>(
                RateLimitError::AmountExceedsRoleLimit,
            ),
        r == Err::<MintOutcome, FaucetError>(
            FaucetError::RateLimited(RateLimitError::AmountExceedsRoleLimit),
        ),
        next.stored() == s.stored(),
        next.limiter() == s.limiter(),
{
}

/// On a capped role, amounts that are each within the ceiling and together within
/// the cap are all admitted from a fresh day, and the counter ends at their sum; the
/// next amount that would take the total above the cap is refused as DailyCapReached
/// (and a refused call changes no counter).
pub proof fn lemma_daily_cap_sequence(
    limits: LimitConfig,
    role: Role,
    cap: u64,
    amounts: Seq<u64>,
    next: u64,
)
    requires
        daily_cap(limits, role) == Some(cap),
        forall|i: int| 0 <= i < amounts.len() ==> #[trigger] amounts[i] <= ceiling(limits, role),
        sum_of(amounts) <= cap,
    ensures
        all_admitted(limits, role, 0, amounts),
        counter_after_all(limits, role, 0, amounts) == sum_of(amounts),
        next <= ceiling(limits, role) && sum_of(amounts) + next > cap ==> verdict(
            limits,
            role,
            counter_after_all(limits, role, 0, amounts),
            next,
        ) == Err::<(), RateLimitError>(RateLimitError::DailyCapReached),
    decreases amounts.len(),
{
    if amounts.len() > 0 {
        let front = amounts.drop_last();
        assert forall|i: int| 0 <= i < front.len() implies #[trigger] front[i] <= ceiling(
            limits,
            role,
        ) by {
            assert(front[i] == amounts[i]);
        }
        lemma_daily_cap_sequence(limits, role, cap, front, next);
    }
}

/// Every terminal request of a well-formed store carries what its status calls for:
/// it is Completed exactly when it has a transfer reference, Failed exactly when it
/// has an error, and either way it has a processing time.
pub proof fn lemma_terminal_settled(s: MemoryStore, i: int)
    requires
        s.wf(),
        0 <= i < s.ledger().len(),
        s.ledger()[i].status.is_terminal(),
    ensures
        s.ledger()[i].status == MintStatus::Completed <==> s.ledger()[i].tx_hash is Some,
        s.ledger()[i].status == MintStatus::Failed <==> s.ledger()[i].error is Some,
        s.ledger()[i].processed_at is Some,
{
    s.lemma_ids();
    assert(settled(s.mints()[s.order()[i]]));
}

/// Enqueuing a request twice leaves the ledger as enqueuing it once, with exactly one
/// entry of its id.
pub proof fn lemma_enqueue_idempotent(s: MemoryStore, r: MintRequest)
    requires
        s.wf(),
    ensures
        ledger_after_enqueue(ledger_after_enqueue(s.ledger(), r), r) == ledger_after_enqueue(
            s.ledger(),
            r,
        ),
        exists|i: int|
            0 <= i < ledger_after_enqueue(s.ledger(), r).len() && (#[trigger] ledger_after_enqueue(
                s.ledger(),
                r,
            )[i]).id == r.id && forall|j: int|
                0 <= j < ledger_after_enqueue(s.ledger(), r).len() && (#[trigger] ledger_after_enqueue(
                    s.ledger(),
                    r,
                )[j]).id == r.id ==> j == i,
{
    let l = s.ledger();
    let l1 = ledger_after_enqueue(l, r);
    s.lemma_ids();
    assert forall|a: int, b: int| 0 <= a < l.len() && 0 <= b < l.len() && l[a].id == l[b].id
        implies a == b by {
        assert(l[a].id == s.order()[a]);
        assert(l[b].id == s.order()[b]);
    }
    if exists|i: int| 0 <= i < l.len() && (#[trigger] l[i]).id == r.id {
        let i = choose|i: int| 0 <= i < l.len() && (#[trigger] l[i]).id == r.id;
        assert(l1 == l);
        assert(l1[i].id == r.id);
    } else {
        let n = l.len() as int;
        assert(l1 == l.push(as_pending(r)));
        assert(l1[n].id == r.id);
        assert(exists|i: int| 0 <= i < l1.len() && (#[trigger] l1[i]).id == r.id);
    }
}

/// A claim at `now` never hands out the same request twice at that instant: the
/// claimed request is no longer claimable, and no other entry of the ledger changes.
pub proof fn lemma_claimed_not_claimable(l: Seq<MintRequest>, now: u64, timeout: u64, i: int)
    requires
        is_pick(l, now, timeout, i),
    ensures
        !claimable(claimed(l[i], now), now, timeout),
        forall|j: int| 0 <= j < l.len() && j != i ==> #[trigger] l.update(i, claimed(l[i], now))[j]
            == l[j],
{
}

/// How many entries of `l` are claimable at `now`.
pub open spec fn claimable_count(l: Seq<MintRequest>, now: u64, timeout: u64) -> nat
    decreases l.len(),
{
    if l.len() == 0 {
        0
    } else {
        claimable_count(l.drop_last(), now, timeout) + if claimable(l.last(), now, timeout) {
            1nat
        } else {
            0nat
        }
    }
}

/// The entry a claim at `now` takes, if any.
pub open spec fn pick_of(l: Seq<MintRequest>, now: u64, timeout: u64) -> Option<int> {
    if exists|i: int| is_pick(l, now, timeout, i) {
        Some(choose|i: int| is_pick(l, now, timeout, i))
    } else {
        None
    }
}

/// The ledger after one claim at `now`.
pub open spec fn after_claim(l: Seq<MintRequest>, now: u64, timeout: u64) -> Seq<MintRequest> {
    match pick_of(l, now, timeout) {
        Some(i) => l.update(i, claimed(l[i], now)),
        None => l,
    }
}

/// The entries taken by `n` claims made one after another at `now`.
pub open spec fn claim_picks(l: Seq<MintRequest>, now: u64, timeout: u64, n: nat) -> Seq<
    Option<int>,
>
    decreases n,
{
    if n == 0 {
        Seq::empty()
    } else {
        seq![pick_of(l, now, timeout)] + claim_picks(
            after_claim(l, now, timeout),
            now,
            timeout,
            (n - 1) as nat,
        )
    }
}

/// At most one entry is the pick.
pub proof fn lemma_pick_unique(l: Seq<MintRequest>, now: u64, timeout: u64, i: int, j: int)
    requires
        is_pick(l, now, timeout, i),
        is_pick(l, now, timeout, j),
    ensures
        i == j,
{
    if i < j {
        assert(l[j].requested_at < l[i].requested_at);
    } else if j < i {
        assert(l[i].requested_at < l[j].requested_at);
    }
}

/// A ledger with a claimable entry has a pick.
pub proof fn lemma_pick_exists(l: Seq<MintRequest>, now: u64, timeout: u64, j: int)
    requires
        0 <= j < l.len(),
        claimable(l[j], now, timeout),
    ensures
        exists|i: int| is_pick(l, now, timeout, i),
    decreases l.len(),
{
    let n = l.len() - 1;
    let l0 = l.drop_last();
    if exists|k: int| 0 <= k < l0.len() && claimable(#[trigger] l0[k], now, timeout) {
        let k = choose|k: int| 0 <= k < l0.len() && claimable(#[trigger] l0[k], now, timeout);
        lemma_pick_exists(l0, now, timeout, k);
        let i0 = choose|i: int| is_pick(l0, now, timeout, i);
        assert forall|m: int| 0 <= m < l0.len() implies #[trigger] l0[m] == l[m] by {}
        if claimable(l[n], now, timeout) && l[n].requested_at < l[i0].requested_at {
            assert forall|m: int| #![trigger l[m]]
                0 <= m < l.len() && claimable(l[m], now, timeout) implies l[n].requested_at
                <= l[m].requested_at by {
                if m < n {
                    assert(l0[m] == l[m]);
                }
            }
            assert forall|m: int| #![trigger l[m]]
                0 <= m < n && claimable(l[m], now, timeout) implies l[n].requested_at
                < l[m].requested_at by {
                assert(l0[m] == l[m]);
            }
            assert(is_pick(l, now, timeout, n));
        } else {
            assert(l0[i0] == l[i0]);
            assert forall|m: int| #![trigger l[m]]
                0 <= m < l.len() && claimable(l[m], now, timeout) implies l[i0].requested_at
                <= l[m].requested_at by {
                if m < n {
                    assert(l0[m] == l[m]);
                }
            }
            assert forall|m: int| #![trigger l[m]]
                0 <= m < i0 && claimable(l[m], now, timeout) implies l[i0].requested_at
                < l[m].requested_at by {
                assert(l0[m] == l[m]);
            }
            assert(is_pick(l, now, timeout, i0));
        }
    } else {
        assert forall|m: int| 0 <= m < n implies !claimable(#[trigger] l[m], now, timeout) by {
            assert(l0[m] == l[m]);
        }
        assert(is_pick(l, now, timeout, n));
    }
}

proof fn lemma_count_zero(l: Seq<MintRequest>, now: u64, timeout: u64)
    requires
        forall|i: int| 0 <= i < l.len() ==> !claimable(#[trigger] l[i], now, timeout),
    ensures
        claimable_count(l, now, timeout) == 0,
    decreases l.len(),
{
    if l.len() > 0 {
        let l0 = l.drop_last();
        assert forall|i: int| 0 <= i < l0.len() implies !claimable(#[trigger] l0[i], now, timeout) by {
            assert(l0[i] == l[i]);
        }
        lemma_count_zero(l0, now, timeout);
    }
}

proof fn lemma_count_drop_one(l: Seq<MintRequest>, now: u64, timeout: u64, i: int, x: MintRequest)
    requires
        0 <= i < l.len(),
        claimable(l[i], now, timeout),
        !claimable(x, now, timeout),
    ensures
        claimable_count(l.update(i, x), now, timeout) + 1 == claimable_count(l, now, timeout),
    decreases l.len(),
{
    let t = l.update(i, x);
    if i == l.len() - 1 {
        assert(t.drop_last() =~= l.drop_last());
    } else {
        assert(t.drop_last() =~= l.drop_last().update(i, x));
        lemma_count_drop_one(l.drop_last(), now, timeout, i, x);
    }
}

/// Claims made one after another at the same instant, as many as or more than there
/// are claimable requests, hand out each claimable request exactly once and nothing
/// else.
pub proof fn lemma_claims_exactly_once(l: Seq<MintRequest>, now: u64, timeout: u64, n: nat)
    requires
        claimable_count(l, now, timeout) <= n,
    ensures
        claim_picks(l, now, timeout, n).len() == n,
        forall|k: int| #![trigger claim_picks(l, now, timeout, n)[k]]
            0 <= k < n && claim_picks(l, now, timeout, n)[k] is Some ==> {
                let i = claim_picks(l, now, timeout, n)[k]->Some_0;
                0 <= i < l.len() && claimable(l[i], now, timeout)
            },
        forall|i: int| #![trigger l[i]]
            0 <= i < l.len() && claimable(l[i], now, timeout) ==> exists|k: int|
                0 <= k < n && #[trigger] claim_picks(l, now, timeout, n)[k] == Some(i),
        forall|k1: int, k2: int|
            0 <= k1 < n && 0 <= k2 < n && (#[trigger] claim_picks(l, now, timeout, n)[k1]) is Some
                && claim_picks(l, now, timeout, n)[k1] == #[trigger] claim_picks(l, now, timeout, n)[k2]
                ==> k1 == k2,
    decreases n,
{
    let picks = claim_picks(l, now, timeout, n);
    if n == 0 {
        assert forall|i: int| #![trigger l[i]]
            0 <= i < l.len() && claimable(l[i], now, timeout) implies false by {
            lemma_count_drop_one(l, now, timeout, i, claimed(l[i], now));
        }
        return;
    }
    let m = (n - 1) as nat;
    let l1 = after_claim(l, now, timeout);
    let rest = claim_picks(l1, now, timeout, m);
    assert(picks =~= seq![pick_of(l, now, timeout)] + rest);
    match pick_of(l, now, timeout) {
        None => {
            assert forall|i: int| 0 <= i < l.len() implies !claimable(#[trigger] l[i], now, timeout) by {
                if claimable(l[i], now, timeout) {
                    lemma_pick_exists(l, now, timeout, i);
                }
            }
            assert(l1 == l);
            lemma_count_zero(l, now, timeout);
            lemma_claims_exactly_once(l1, now, timeout, m);
            assert forall|k: int| 0 <= k < m implies #[trigger] rest[k] is None by {
                if rest[k] is Some {
                    let i = rest[k]->Some_0;
                    assert(claimable(l1[i], now, timeout));
                }
            }
            assert forall|k: int| #![trigger picks[k]] 0 <= k < n implies picks[k] is None by {
                if k > 0 {
                    assert(picks[k] == rest[k - 1]);
                }
            }
        },
        Some(i0) => {
            assert(is_pick(l, now, timeout, i0));
            let c = claimed(l[i0], now);
            assert(!claimable(c, now, timeout));
            assert(l1 == l.update(i0, c));
            lemma_count_drop_one(l, now, timeout, i0, c);
            lemma_claims_exactly_once(l1, now, timeout, m);
            assert forall|k: int| #![trigger picks[k]]
                0 <= k < n && picks[k] is Some implies {
                let i = picks[k]->Some_0;
                0 <= i < l.len() && claimable(l[i], now, timeout)
            } by {
                if k > 0 {
                    assert(picks[k] == rest[k - 1]);
                    let i = rest[k - 1]->Some_0;
                    assert(claimable(l1[i], now, timeout));
                    assert(i != i0);
                    assert(l1[i] == l[i]);
                }
            }
            assert forall|i: int| #![trigger l[i]]
                0 <= i < l.len() && claimable(l[i], now, timeout) implies exists|k: int|
                0 <= k < n && #[trigger] picks[k] == Some(i) by {
                if i == i0 {
                    assert(picks[0] == Some(i0));
                } else {
                    assert(l1[i] == l[i]);
                    let k = choose|k: int| 0 <= k < m && #[trigger] rest[k] == Some(i);
                    assert(picks[k + 1] == Some(i));
                }
            }
            assert forall|k1: int, k2: int|
                0 <= k1 < n && 0 <= k2 < n && (#[trigger] picks[k1]) is Some && picks[k1]
                    == #[trigger] picks[k2] implies k1 == k2 by {
                let i = picks[k1]->Some_0;
                if k1 > 0 {
                    assert(picks[k1] == rest[k1 - 1]);
                    assert(claimable(l1[i], now, timeout));
                }
                if k2 > 0 {
                    assert(picks[k2] == rest[k2 - 1]);
                    assert(claimable(l1[i], now, timeout));
                }
                if k1 > 0 && k2 > 0 {
                    assert(rest[k1 - 1] == Some(i) && rest[k2 - 1] == Some(i));
                }
            }
        },
    }
}

/// A claim by `claim_next_pending` is one step of `claim_picks`: the entry it takes
/// is `pick_of` the ledger, and the ledger it leaves is `after_claim`; when it takes
/// nothing, `pick_of` is `None` and the ledger stays.
pub proof fn lemma_claim_is_step(l: Seq<MintRequest>, now: u64, timeout: u64, i: int)
    ensures
        is_pick(l, now, timeout, i) ==> pick_of(l, now, timeout) == Some(i) && after_claim(
            l,
            now,
            timeout,
        ) == l.update(i, claimed(l[i], now)),
        (forall|j: int| 0 <= j < l.len() ==> !claimable(#[trigger] l[j], now, timeout)) ==> pick_of(
            l,
            now,
            timeout,
        ) is None && after_claim(l, now, timeout) == l,
{
    if is_pick(l, now, timeout, i) {
        let c = choose|k: int| is_pick(l, now, timeout, k);
        lemma_pick_unique(l, now, timeout, i, c);
    }
}

/// The decimal form of a number is a non-empty run of digits whose value is the number.
pub proof fn lemma_decimal_text(n: nat)
    ensures
        decimal_text(n).len() > 0,
        all_digits(decimal_text(n)),
        digits_value(decimal_text(n)) == n,
    decreases n,
{
    if n < 10 {
        let t = decimal_text(n);
        assert(t.drop_last() =~= Seq::<char>::empty());
        assert((((n + 48) as u32) as char) as u32 == n + 48);
        assert(t.last() == digit_char(n));
        assert(digits_value(t) == digits_value(t.drop_last()) * 10 + ((t.last() as u32) - 48) as nat);
    } else {
        lemma_decimal_text(n / 10);
        let t = decimal_text(n);
        assert(t.drop_last() =~= decimal_text(n / 10));
        assert((((n % 10 + 48) as u32) as char) as u32 == n % 10 + 48);
        lemma_fundamental_div_mod(n as int, 10);
        assert(t.last() == digit_char(n % 10));
        assert(digits_value(t) == digits_value(t.drop_last()) * 10 + ((t.last() as u32) - 48) as nat);
        assert(digits_value(t) == (n / 10) * 10 + n % 10);
        assert forall|i: int| 0 <= i < t.len() implies '0' <= #[trigger] t[i] && t[i] <= '9' by {
            if i < t.len() - 1 {
                assert(t[i] == decimal_text(n / 10)[i]);
            }
        }
    }
}

/// A limit written by `update_limit_config` reads back as the same number through
/// `get_limit_config`.
pub proof fn lemma_override_read_back(
    before: Map<Seq<char>, SystemConfig>,
    after: Map<Seq<char>, SystemConfig>,
    k: Seq<char>,
    v: u64,
)
    requires
        override_applied(before, after, k, Some(v)),
    ensures
        override_value(after, k) == Some(v),
{
    lemma_decimal_text(v as nat);
    let t = decimal_text(v as nat);
    assert('0' <= t[0] && t[0] <= '9');
}

/// A mint that would take the user's total of the day above the cap of a capped role
/// is refused as DailyCapReached, whatever request id was drawn, and leaves the store
/// and the rate limiter as they were.
pub proof fn lemma_over_cap_refused<C: AptosClient>(
    s: FaucetService<C>,
    next: FaucetService<C>,
    user: User,
    amount: u64,
    now: u64,
    id: u128,
    r: Result<MintOutcome, FaucetError>,
    cap: u64,
)
    requires
        s.wf(),
        0 < amount <= ceiling(s.limit_config(), user.role),
        daily_cap(s.limit_config(), user.role) == Some(cap),
        s.limiter().counted(user.id, day_of(now)) + amount > cap,
        s.mint_effect(&next, user, amount, now, id, r),
    ensures
        r == Err::<MintOutcome, FaucetError>(FaucetError::RateLimited(RateLimitError::DailyCapReached)),
        next.stored() == s.stored(),
        next.limiter() == s.limiter(),
{
}

/// An admitted mint with a fresh request id through a client that never fails
/// succeeds, and its debit is recorded.
pub proof fn lemma_admitted_mint_succeeds<C: AptosClient>(
    s: FaucetService<C>,
    next: FaucetService<C>,
    user: User,
    amount: u64,
    now: u64,
    id: u128,
    r: Result<MintOutcome, FaucetError>,
)
    requires
        s.wf(),
        amount > 0,
        verdict(s.limit_config(), user.role, s.limiter().counted(user.id, day_of(now)), amount) is Ok,
        !s.stored().mints().contains_key(id),
        s.transfer_client().always_succeeds(),
        s.mint_effect(&next, user, amount, now, id, r),
    ensures
        r matches Ok(o) && o.request.id == id && o.request.user_id == user.id
            && o.request.amount == amount && o.request.status == MintStatus::Completed
            && o.tx_hash is Some,
        next.stored().minted_on(user.id, day_of(now)) == sat_add(
            s.stored().minted_on(user.id, day_of(now)),
            amount,
        ),
{
}

/// A mint that reaches the transfer ends with its request settled in the ledger:
/// Completed with the reference it returns, or Failed with the error it returns and
/// that error appended to the failure log.
pub proof fn lemma_mint_settles<C: AptosClient>(
    s: FaucetService<C>,
    next: FaucetService<C>,
    user: User,
    amount: u64,
    now: u64,
    id: u128,
    r: Result<MintOutcome, FaucetError>,
)
    requires
        s.wf(),
        amount > 0,
        verdict(s.limit_config(), user.role, s.limiter().counted(user.id, day_of(now)), amount) is Ok,
        !s.stored().mints().contains_key(id),
        s.mint_effect(&next, user, amount, now, id, r),
    ensures
        next.stored().mints().contains_key(id),
        settled(next.stored().mints()[id]),
        next.stored().mints()[id].status.is_terminal(),
        r matches Ok(o) ==> o.tx_hash == o.request.tx_hash && next.stored().mints()[id] == o.request
            && o.request.status == MintStatus::Completed,
        r matches Err(e) ==> (e matches FaucetError::TransferFailed(msg) && next.stored().mints()[id].status
            == MintStatus::Failed && next.stored().mints()[id].error == Some(msg)
            && next.stored().failures().len() == s.stored().failures().len() + 1
            && next.stored().failures().last().request_id == id),
{
}

/// One step of a sequence of mints within the cap: with a fresh request id and a
/// client that never fails, a mint that keeps the day's total within the cap of a
/// capped role succeeds, and the counter grows by exactly its amount.
pub proof fn lemma_mint_within_cap<C: AptosClient>(
    s: FaucetService<C>,
    next: FaucetService<C>,
    user: User,
    amount: u64,
    now: u64,
    id: u128,
    r: Result<MintOutcome, FaucetError>,
    cap: u64,
)
    requires
        s.wf(),
        0 < amount <= ceiling(s.limit_config(), user.role),
        daily_cap(s.limit_config(), user.role) == Some(cap),
        s.limiter().counted(user.id, day_of(now)) + amount <= cap,
        !s.stored().mints().contains_key(id),
        s.transfer_client().always_succeeds(),
        s.mint_effect(&next, user, amount, now, id, r),
    ensures
        r is Ok,
        next.limiter().counted(user.id, day_of(now)) == s.limiter().counted(user.id, day_of(now))
            + amount,
{
}

} // verus!
