//! The in-memory backend: users, the request ledger, quotas and the failure log.
use vstd::prelude::*;

use crate::clock::{day_of, day_of_millis, fresh_id};
use crate::report::{
    empty_tally, is_summary, reported_channels, row_states, tally_add, tally_row, tally_states,
    DailyReportRow,
};
use crate::lifecycle::{accepts_outcome, as_pending, claimable, claimed, with_outcome};
use crate::models::{
    Channel, channel_name, clone_text, settled, LimitConfigUpdate, MintFailure, MintOutcome, MintRequest,
    MintStatus, Quota, Role, SystemConfig, User,
};
use crate::table::{
    config_table_get, config_table_insert, config_table_values, configs_in, new_config_table,
    ConfigTable,
    mint_table_get, mint_table_insert, mints_in, new_mint_table, new_quota_table, new_user_table,
    quota_table_get, quota_table_insert, quotas_in, user_table_get, user_table_insert,
    user_table_values, users_in, MintTable, QuotaTable, UserTable,
};
use crate::text::{
    ascii_lower, decimal_text, parse_u64, str_of, text_of, to_ascii_lower, u64_read, u64_text,
};

verus! {

/// The key under which a user is stored: lower-cased channel name and handle.
pub open spec fn user_key(u: User) -> (Seq<char>, Seq<char>) {
    (ascii_lower(channel_name(u.channel)), ascii_lower(u.handle@))
}

/// The key looked up for a channel name and a handle as given.
pub open spec fn lookup_key(channel: Seq<char>, handle: Seq<char>) -> (Seq<char>, Seq<char>) {
    (ascii_lower(channel), ascii_lower(handle))
}

/// The ledger after `r` is enqueued: unchanged when its id is already there,
/// else with `r` appended as Pending.
pub open spec fn ledger_after_enqueue(l: Seq<MintRequest>, r: MintRequest) -> Seq<MintRequest> {
    if exists|i: int| 0 <= i < l.len() && (#[trigger] l[i]).id == r.id {
        l
    } else {
        l.push(as_pending(r))
    }
}

/// Entry `i` of `l` is the one a claim at `now` takes: claimable, with the earliest
/// `requested_at` among claimable entries, and the first such in ledger order.
pub open spec fn is_pick(l: Seq<MintRequest>, now: u64, timeout: u64, i: int) -> bool {
    &&& 0 <= i < l.len()
    &&& claimable(l[i], now, timeout)
    &&& forall|j: int| #![trigger l[j]]
        0 <= j < l.len() && claimable(l[j], now, timeout) ==> l[i].requested_at
            <= l[j].requested_at
    &&& forall|j: int| #![trigger l[j]]
        0 <= j < i && claimable(l[j], now, timeout) ==> l[i].requested_at < l[j].requested_at
}

/// A status change that `update_status` makes: between non-terminal states, and never
/// from Processing back to Pending.
pub open spec fn may_set_status(from: MintStatus, to: MintStatus) -> bool {
    &&& !from.is_terminal()
    &&& !to.is_terminal()
    &&& (from == MintStatus::Pending || to == MintStatus::Processing)
}

/// The request after its status is set to `st` at `now`; entering Processing stamps it.
pub open spec fn with_status(r: MintRequest, st: MintStatus, now: u64) -> MintRequest {
    if st == MintStatus::Processing {
        MintRequest { status: st, processed_at: Some(now), ..r }
    } else {
        MintRequest { status: st, ..r }
    }
}

/// `a + b`, held at `u64::MAX`.
pub open spec fn sat_add(a: u64, b: u64) -> u64 {
    if a + b <= u64::MAX {
        (a + b) as u64
    } else {
        u64::MAX
    }
}

/// Config keys of the four limit overrides.
pub open spec fn default_amount_key() -> Seq<char> {
    "limits.default_amount"@
}

pub open spec fn default_daily_cap_key() -> Seq<char> {
    "limits.default_daily_cap"@
}

pub open spec fn privileged_amount_key() -> Seq<char> {
    "limits.privileged_amount"@
}

pub open spec fn privileged_daily_cap_key() -> Seq<char> {
    "limits.privileged_daily_cap"@
}

/// The override under `k` after an update that sets it to `v` when `v` is `Some`.
pub open spec fn override_applied(
    before: Map<Seq<char>, SystemConfig>,
    after: Map<Seq<char>, SystemConfig>,
    k: Seq<char>,
    v: Option<u64>,
) -> bool {
    match v {
        Some(n) => after.contains_key(k) && after[k].key@ == k && after[k].value@ == decimal_text(
            n as nat,
        ),
        None => after.contains_key(k) == before.contains_key(k) && (before.contains_key(k)
            ==> after[k] == before[k]),
    }
}

/// The number an override under `k` holds, if it is there and reads as one.
pub open spec fn override_value(configs: Map<Seq<char>, SystemConfig>, k: Seq<char>) -> Option<u64> {
    if configs.contains_key(k) {
        u64_read(configs[k].value@)
    } else {
        None
    }
}

/// A store held in memory. Callers that share it across tasks put it behind a lock:
/// every operation here takes the store exclusively and runs to completion.
pub struct MemoryStore {
    users: UserTable,
    mints: MintTable,
    order: Vec<u128>,
    quotas: QuotaTable,
    failures: Vec<MintFailure>,
    configs: ConfigTable,
}

impl MemoryStore {
    /// Users by key.
    pub closed spec fn users(&self) -> Map<(Seq<char>, Seq<char>), User> {
        users_in(self.users)
    }

    /// Requests by id.
    pub closed spec fn mints(&self) -> Map<u128, MintRequest> {
        mints_in(self.mints)
    }

    /// Request ids in the order they were first enqueued.
    pub closed spec fn order(&self) -> Seq<u128> {
        self.order@
    }

    /// The request ledger, oldest entry first.
    pub open spec fn ledger(&self) -> Seq<MintRequest> {
        self.order().map_values(|id: u128| self.mints()[id])
    }

    /// Quotas by (user id, day).
    pub closed spec fn quotas(&self) -> Map<(u128, u64), Quota> {
        quotas_in(self.quotas)
    }

    /// The failure log, oldest entry first.
    pub closed spec fn failures(&self) -> Seq<MintFailure> {
        self.failures@
    }

    /// Configuration overrides by key.
    pub closed spec fn configs(&self) -> Map<Seq<char>, SystemConfig> {
        configs_in(self.configs)
    }

    /// The ledger's ids are unique and match the stored requests, every stored request
    /// is settled, and users and quotas sit under their own keys.
    pub open spec fn wf(&self) -> bool {
        &&& self.order().no_duplicates()
        &&& forall|id: u128| #[trigger]
            self.mints().contains_key(id) <==> self.order().contains(id)
        &&& forall|id: u128| #[trigger]
            self.mints().contains_key(id) ==> self.mints()[id].id == id
        &&& forall|id: u128| #[trigger]
            self.mints().contains_key(id) ==> settled(self.mints()[id])
        &&& self.users_keyed()
        &&& self.quotas_keyed()
    }

    /// Every user is stored under its own key.
    pub open spec fn users_keyed(&self) -> bool {
        forall|k: (Seq<char>, Seq<char>)| #[trigger]
            self.users().contains_key(k) ==> k == user_key(self.users()[k])
    }

    /// Every quota is stored under its own user id and day.
    pub open spec fn quotas_keyed(&self) -> bool {
        forall|k: (u128, u64)| #[trigger]
            self.quotas().contains_key(k) ==> self.quotas()[k].user_id == k.0
                && self.quotas()[k].day == k.1
    }

    /// What `user_id` minted on `day`, as recorded.
    pub open spec fn minted_on(&self, user_id: u128, day: u64) -> u64 {
        if self.quotas().contains_key((user_id, day)) {
            self.quotas()[(user_id, day)].minted_total
        } else {
            0
        }
    }

    /// How many of `user_id`'s requests of `day` completed, as recorded.
    pub open spec fn successes_on(&self, user_id: u128, day: u64) -> u64 {
        if self.quotas().contains_key((user_id, day)) {
            self.quotas()[(user_id, day)].success_count
        } else {
            0
        }
    }

    /// Only the quota of `(user_id, day)` changed, and it now exists.
    pub open spec fn quota_moved(&self, next: &MemoryStore, user_id: u128, day: u64) -> bool {
        &&& next.quotas().dom() == self.quotas().dom().insert((user_id, day))
        &&& forall|k: (u128, u64)| #[trigger]
            self.quotas().contains_key(k) && k != (user_id, day) ==> next.quotas()[k]
                == self.quotas()[k]
    }

    /// The ledger lists exactly the stored requests, each under its own id.
    pub proof fn lemma_ids(&self)
        requires
            self.wf(),
        ensures
            forall|id: u128| #[trigger]
                self.mints().contains_key(id) <==> exists|i: int|
                    0 <= i < self.ledger().len() && (#[trigger] self.ledger()[i]).id == id,
            forall|i: int| #![trigger self.ledger()[i]]
                0 <= i < self.ledger().len() ==> self.mints().contains_key(self.order()[i])
                    && self.ledger()[i] == self.mints()[self.order()[i]]
                    && self.ledger()[i].id == self.order()[i],
    {
        assert forall|id: u128| #[trigger]
            self.mints().contains_key(id) implies exists|i: int|
            0 <= i < self.ledger().len() && (#[trigger] self.ledger()[i]).id == id by {
            assert(self.order().contains(id));
            let i = choose|i: int| 0 <= i < self.order().len() && self.order()[i] == id;
            assert(self.ledger()[i].id == id);
        }
        assert forall|i: int| #![trigger self.ledger()[i]]
            0 <= i < self.ledger().len() implies self.mints().contains_key(self.order()[i])
            && self.ledger()[i] == self.mints()[self.order()[i]] && self.ledger()[i].id
            == self.order()[i] by {
            let id = self.order()[i];
            assert(self.order().contains(id));
            assert(self.mints().contains_key(id));
            assert(self.ledger()[i] == self.mints()[id]);
            assert(self.mints()[id].id == id);
        }
    }

    /// An empty store.
    pub fn new() -> (r: MemoryStore)
        ensures
            r.wf(),
            r.users().dom() == Set::<(Seq<char>, Seq<char>)>::empty(),
            r.mints().dom() == Set::<u128>::empty(),
            r.order() == Seq::<u128>::empty(),
            r.quotas().dom() == Set::<(u128, u64)>::empty(),
            r.failures() == Seq::<MintFailure>::empty(),
            r.configs().dom() == Set::<Seq<char>>::empty(),
    {
        MemoryStore {
            users: new_user_table(),
            mints: new_mint_table(),
            order: Vec::new(),
            quotas: new_quota_table(),
            failures: Vec::new(),
            configs: new_config_table(),
        }
    }

    /// Stores `user` under its key, replacing any earlier record there.
    pub fn upsert_user(&mut self, user: &User)
        requires
            old(self).wf(),
        ensures
            final(self).wf(),
            final(self).users() == old(self).users().insert(user_key(*user), *user),
            final(self).mints() == old(self).mints(),
            final(self).order() == old(self).order(),
            final(self).configs() == old(self).configs(),
            final(self).quotas() == old(self).quotas(),
            final(self).failures() == old(self).failures(),
    {
        let key = (to_ascii_lower(user.channel.as_str()), to_ascii_lower(user.handle.as_str()));
        user_table_insert(&mut self.users, key, user.duplicate());
        assert(self.quotas() == old(self).quotas());
        assert(self.quotas_keyed());
        assert forall|k: (Seq<char>, Seq<char>)| #[trigger]
            self.users().contains_key(k) implies k == user_key(self.users()[k]) by {
            if k != user_key(*user) {
                assert(old(self).users().contains_key(k));
            }
        }
    }

    /// The user stored under the lower-cased channel name and handle, if any.
    pub fn find_user(&self, channel: &str, handle: &str) -> (r: Option<User>)
        ensures
            r == (if self.users().contains_key(lookup_key(channel@, handle@)) {
                Some(self.users()[lookup_key(channel@, handle@)])
            } else {
                None
            }),
    {
        let key = (to_ascii_lower(channel), to_ascii_lower(handle));
        user_table_get(&self.users, &key)
    }

    /// Gives `role` to a user with id `user_id`, if one is stored.
    pub fn set_role(&mut self, user_id: u128, role: Role)
        requires
            old(self).wf(),
        ensures
            final(self).wf(),
            (forall|k| #[trigger] old(self).users().contains_key(k) ==> old(self).users()[k].id
                != user_id) ==> final(self).users() == old(self).users(),
            (exists|k| #[trigger] old(self).users().contains_key(k) && old(self).users()[k].id
                == user_id) ==> exists|k| #[trigger]
                old(self).users().contains_key(k) && old(self).users()[k].id == user_id
                    && final(self).users() == old(self).users().insert(
                    k,
                    User { role, ..old(self).users()[k] },
                ),
            final(self).mints() == old(self).mints(),
            final(self).order() == old(self).order(),
            final(self).configs() == old(self).configs(),
            final(self).quotas() == old(self).quotas(),
            final(self).failures() == old(self).failures(),
    {
        let all = user_table_values(&self.users);
        let mut i: usize = 0;
        while i < all.len()
            invariant
                self == old(self),
                self.wf(),
                i <= all@.len(),
                forall|j: int| 0 <= j < all@.len() ==> self.users().values().contains(
                    #[trigger] all@[j],
                ),
                forall|k| #[trigger] self.users().contains_key(k) ==> all@.contains(
                    self.users()[k],
                ),
                forall|j: int| 0 <= j < i ==> (#[trigger] all@[j]).id != user_id,
            decreases all@.len() - i,
        {
            if all[i].id == user_id {
                let mut u = all[i].duplicate();
                proof {
                    assert(self.users().values().contains(all@[i as int]));
                    assert(exists|k| #[trigger]
                        self.users().contains_key(k) && self.users()[k] == all@[i as int]);
                    let k = choose|k| #[trigger]
                        self.users().contains_key(k) && self.users()[k] == all@[i as int];
                    assert(self.users_keyed());
                    assert(k == user_key(all@[i as int]));
                }
                u.role = role;
                let ghost k0 = user_key(all@[i as int]);
                let key = (to_ascii_lower(u.channel.as_str()), to_ascii_lower(u.handle.as_str()));
                user_table_insert(&mut self.users, key, u);
                assert(self.quotas() == old(self).quotas());
                assert(self.quotas_keyed());
                assert forall|k: (Seq<char>, Seq<char>)| #[trigger]
                    self.users().contains_key(k) implies k == user_key(self.users()[k]) by {
                    if k != k0 {
                        assert(old(self).users().contains_key(k));
                    }
                }
                return;
            }
            i = i + 1;
        }
        proof {
            assert forall|k| #[trigger] old(self).users().contains_key(k) implies old(
                self,
            ).users()[k].id != user_id by {
                let j = choose|j: int| 0 <= j < all@.len() && all@[j] == old(self).users()[k];
            }
        }
    }

    /// Adds `request` to the ledger as Pending, unless a request with its id is already
    /// there; enqueuing twice is enqueuing once.
    pub fn enqueue(&mut self, request: &MintRequest)
        requires
            old(self).wf(),
        ensures
            final(self).wf(),
            final(self).ledger() == ledger_after_enqueue(old(self).ledger(), *request),
            old(self).mints().contains_key(request.id) ==> final(self).mints() == old(
                self,
            ).mints() && final(self).order() == old(self).order(),
            !old(self).mints().contains_key(request.id) ==> final(self).mints() == old(
                self,
            ).mints().insert(request.id, as_pending(*request)) && final(self).order() == old(
                self,
            ).order().push(request.id),
            final(self).users() == old(self).users(),
            final(self).quotas() == old(self).quotas(),
            final(self).failures() == old(self).failures(),
            final(self).configs() == old(self).configs(),
    {
        proof {
            self.lemma_ids();
        }
        let existing = mint_table_get(&self.mints, request.id);
        if existing.is_some() {
            return;
        }
        let mut r = request.duplicate();
        r.status = MintStatus::Pending;
        mint_table_insert(&mut self.mints, request.id, r);
        self.order.push(request.id);
        proof {
            let ghost l0 = old(self).ledger();
            assert(!(exists|i: int| 0 <= i < l0.len() && (#[trigger] l0[i]).id == request.id));
            assert(!old(self).order().contains(request.id));
            assert forall|id: u128| #[trigger]
                self.mints().contains_key(id) <==> self.order().contains(id) by {
                if id != request.id && self.mints().contains_key(id) {
                    assert(old(self).order().contains(id));
                    let i = choose|i: int| 0 <= i < old(self).order().len() && old(self).order()[i] == id;
                    assert(self.order()[i] == id);
                }
                if self.order().contains(id) && id != request.id {
                    let i = choose|i: int| 0 <= i < self.order().len() && self.order()[i] == id;
                    assert(old(self).order()[i] == id);
                    assert(old(self).order().contains(id));
                }
                if id == request.id {
                    assert(self.order()[self.order().len() - 1] == id);
                }
            }
            assert(self.ledger() =~= l0.push(as_pending(*request))) by {
                assert forall|i: int| 0 <= i < l0.len() implies self.order()[i] != request.id by {
                    assert(old(self).order().contains(old(self).order()[i]));
                }
            }
            assert(self.quotas() == old(self).quotas());
            assert(self.users() == old(self).users());
            assert(self.quotas_keyed());
            assert(self.users_keyed());
        }
    }

    /// The request stored under `id`, if any.
    pub fn find_request(&self, id: u128) -> (r: Option<MintRequest>)
        ensures
            r == (if self.mints().contains_key(id) {
                Some(self.mints()[id])
            } else {
                None
            }),
    {
        mint_table_get(&self.mints, id)
    }

    /// How many requests the ledger holds.
    pub fn request_count(&self) -> (r: usize)
        requires
            self.wf(),
        ensures
            r == self.ledger().len(),
    {
        self.order.len()
    }

    /// Overwrites the stored request `r.id` with `r`.
    fn put_request(&mut self, r: MintRequest)
        requires
            old(self).wf(),
            old(self).mints().contains_key(r.id),
            settled(r),
        ensures
            final(self).wf(),
            final(self).mints() == old(self).mints().insert(r.id, r),
            final(self).order() == old(self).order(),
            final(self).configs() == old(self).configs(),
            forall|i: int|
                0 <= i < old(self).ledger().len() && #[trigger] old(self).order()[i] == r.id
                    ==> final(self).ledger() == old(self).ledger().update(i, r),
            final(self).users() == old(self).users(),
            final(self).quotas() == old(self).quotas(),
            final(self).failures() == old(self).failures(),
    {
        let ghost id = r.id;
        mint_table_insert(&mut self.mints, r.id, r);
        proof {
            assert forall|i: int|
                0 <= i < old(self).ledger().len() && #[trigger] old(self).order()[i] == id
                    implies self.ledger() == old(self).ledger().update(i, r) by {
                assert forall|j: int| 0 <= j < old(self).order().len() && j != i implies
                    old(self).order()[j] != id by {
                }
                assert(self.ledger() =~= old(self).ledger().update(i, r));
            }
            assert(self.quotas() == old(self).quotas());
            assert(self.users() == old(self).users());
            assert(self.quotas_keyed());
            assert(self.users_keyed());
        }
    }

    /// Takes the claimable request with the earliest `requested_at` (the first such in
    /// ledger order): it becomes Processing, stamped with `now`, with one more attempt.
    /// A request is claimable when Pending, or when Processing and claimed more than
    /// `visibility_timeout` milliseconds before `now`.
    pub fn claim_next_pending(&mut self, now: u64, visibility_timeout: u64) -> (r: Option<
        MintRequest,
    >)
        requires
            old(self).wf(),
        ensures
            final(self).wf(),
            r is None <==> forall|i: int|
                0 <= i < old(self).ledger().len() ==> !claimable(
                    #[trigger] old(self).ledger()[i],
                    now,
                    visibility_timeout,
                ),
            r is None ==> final(self).mints() == old(self).mints(),
            r matches Some(c) ==> exists|i: int|
                is_pick(old(self).ledger(), now, visibility_timeout, i) && c == claimed(
                    #[trigger] old(self).ledger()[i],
                    now,
                ) && final(self).ledger() == old(self).ledger().update(i, c)
                    && final(self).mints() == old(self).mints().insert(c.id, c),
            final(self).order() == old(self).order(),
            final(self).configs() == old(self).configs(),
            final(self).users() == old(self).users(),
            final(self).quotas() == old(self).quotas(),
            final(self).failures() == old(self).failures(),
    {
        proof {
            self.lemma_ids();
        }
        let ghost l = self.ledger();
        let n = self.order.len();
        let mut best: Option<usize> = None;
        let mut best_at: u64 = 0;
        let mut i: usize = 0;
        while i < n
            invariant
                self == old(self),
                self.wf(),
                l == self.ledger(),
                n == l.len(),
                i <= n,
                forall|j: int| #![trigger l[j]]
                    0 <= j < l.len() ==> self.mints().contains_key(self.order()[j]) && l[j]
                        == self.mints()[self.order()[j]] && l[j].id == self.order()[j],
                best matches Some(b) ==> b < i && claimable(l[b as int], now, visibility_timeout)
                    && l[b as int].requested_at == best_at,
                best matches Some(b) ==> forall|j: int| #![trigger l[j]]
                    0 <= j < i && claimable(l[j], now, visibility_timeout) ==> best_at
                        <= l[j].requested_at,
                best matches Some(b) ==> forall|j: int| #![trigger l[j]]
                    0 <= j < b && claimable(l[j], now, visibility_timeout) ==> best_at
                        < l[j].requested_at,
                best is None ==> forall|j: int| #![trigger l[j]]
                    0 <= j < i ==> !claimable(l[j], now, visibility_timeout),
            decreases n - i,
        {
            let id = self.order[i];
            let got = mint_table_get(&self.mints, id);
            assert(l[i as int] == self.mints()[id]);
            if let Some(m) = got {
                let eligible = match m.status {
                    MintStatus::Pending => true,
                    MintStatus::Processing => match m.processed_at {
                        Some(p) => now > p && now - p > visibility_timeout,
                        None => false,
                    },
                    _ => false,
                };
                assert(eligible == claimable(l[i as int], now, visibility_timeout));
                if eligible {
                    match best {
                        Some(b) => {
                            if m.requested_at < best_at {
                                best = Some(i);
                                best_at = m.requested_at;
                            }
                        },
                        None => {
                            best = Some(i);
                            best_at = m.requested_at;
                        },
                    }
                }
            }
            i = i + 1;
        }
        match best {
            None => None,
            Some(b) => {
                let id = self.order[b];
                let got = mint_table_get(&self.mints, id);
                match got {
                    Some(m) => {
                        let mut c = m.duplicate();
                        c.status = MintStatus::Processing;
                        c.processed_at = Some(now);
                        c.attempt = m.attempt.saturating_add(1);
                        assert(c == claimed(l[b as int], now));
                        assert(is_pick(l, now, visibility_timeout, b as int));
                        let out = c.duplicate();
                        self.put_request(c);
                        Some(out)
                    },
                    None => None,
                }
            },
        }
    }

    /// Sets the status of request `id`, if it is stored and `may_set_status` allows the
    /// change; entering Processing stamps the request with `now`. Terminal states are
    /// reached through `record_outcome` alone. Returns whether the request changed.
    pub fn update_status(&mut self, id: u128, status: MintStatus, now: u64) -> (changed: bool)
        requires
            old(self).wf(),
        ensures
            final(self).wf(),
            changed == (old(self).mints().contains_key(id) && may_set_status(
                old(self).mints()[id].status,
                status,
            )),
            changed ==> final(self).mints() == old(self).mints().insert(
                id,
                with_status(old(self).mints()[id], status, now),
            ),
            !changed ==> final(self).mints() == old(self).mints(),
            final(self).order() == old(self).order(),
            final(self).configs() == old(self).configs(),
            final(self).users() == old(self).users(),
            final(self).quotas() == old(self).quotas(),
            final(self).failures() == old(self).failures(),
    {
        match mint_table_get(&self.mints, id) {
            None => false,
            Some(m) => {
                let allowed = match (m.status, status) {
                    (MintStatus::Completed, _) | (MintStatus::Failed, _) => false,
                    (_, MintStatus::Completed) | (_, MintStatus::Failed) => false,
                    (MintStatus::Pending, _) => true,
                    (_, MintStatus::Processing) => true,
                    _ => false,
                };
                if !allowed {
                    return false;
                }
                let mut r = m.duplicate();
                r.status = status;
                if status == MintStatus::Processing {
                    r.processed_at = Some(now);
                }
                self.put_request(r);
                true
            },
        }
    }

    /// Adds to the quota of `(user_id, day)`, creating it with a fresh id if absent.
    fn bump_quota(&mut self, user_id: u128, day: u64, minted: u64, successes: u64)
        requires
            old(self).wf(),
        ensures
            final(self).wf(),
            old(self).quota_moved(&*final(self), user_id, day),
            final(self).minted_on(user_id, day) == sat_add(old(self).minted_on(user_id, day), minted),
            final(self).successes_on(user_id, day) == sat_add(
                old(self).successes_on(user_id, day),
                successes,
            ),
            final(self).mints() == old(self).mints(),
            final(self).order() == old(self).order(),
            final(self).configs() == old(self).configs(),
            final(self).users() == old(self).users(),
            final(self).failures() == old(self).failures(),
    {
        let q = match quota_table_get(&self.quotas, (user_id, day)) {
            Some(q) => {
                let mut q = q.duplicate();
                q.minted_total = q.minted_total.saturating_add(minted);
                q.success_count = q.success_count.saturating_add(successes);
                q
            },
            None => Quota {
                id: fresh_id(),
                user_id,
                day,
                minted_total: minted,
                success_count: successes,
            },
        };
        quota_table_insert(&mut self.quotas, (user_id, day), q);
        proof {
            assert(self.mints() == old(self).mints());
            assert(self.users() == old(self).users());
            assert(self.users_keyed());
            assert(self.quotas().dom() =~= old(self).quotas().dom().insert((user_id, day)));
        }
    }

    /// Records that `user_id` minted `amount` on `day` (held at `u64::MAX`).
    pub fn record_mint(&mut self, user_id: u128, day: u64, amount: u64)
        requires
            old(self).wf(),
        ensures
            final(self).wf(),
            old(self).quota_moved(&*final(self), user_id, day),
            final(self).minted_on(user_id, day) == sat_add(old(self).minted_on(user_id, day), amount),
            final(self).successes_on(user_id, day) == old(self).successes_on(user_id, day),
            final(self).mints() == old(self).mints(),
            final(self).order() == old(self).order(),
            final(self).configs() == old(self).configs(),
            final(self).users() == old(self).users(),
            final(self).failures() == old(self).failures(),
    {
        self.bump_quota(user_id, day, amount, 0);
    }

    /// The quota of `(user_id, day)`, if one was created.
    pub fn fetch_quota(&self, user_id: u128, day: u64) -> (r: Option<Quota>)
        ensures
            r == (if self.quotas().contains_key((user_id, day)) {
                Some(self.quotas()[(user_id, day)])
            } else {
                None
            }),
    {
        quota_table_get(&self.quotas, (user_id, day))
    }

    /// Writes a terminal outcome over its stored request, when `accepts_outcome` allows;
    /// a Completed outcome also counts one success on the quota of the request's user and
    /// day. Writing the same outcome again changes nothing. Returns whether it was written.
    pub fn record_outcome(&mut self, outcome: &MintOutcome) -> (written: bool)
        requires
            old(self).wf(),
        ensures
            final(self).wf(),
            written == (old(self).mints().contains_key(outcome.request.id) && accepts_outcome(
                old(self).mints()[outcome.request.id],
                *outcome,
            )),
            written ==> final(self).mints() == old(self).mints().insert(
                outcome.request.id,
                with_outcome(old(self).mints()[outcome.request.id], *outcome),
            ),
            !written ==> final(self).mints() == old(self).mints() && final(self).quotas() == old(
                self,
            ).quotas(),
            written && outcome.request.status == MintStatus::Completed ==> {
                let m = old(self).mints()[outcome.request.id];
                &&& old(self).quota_moved(&*final(self), m.user_id, day_of(m.requested_at))
                &&& final(self).successes_on(m.user_id, day_of(m.requested_at)) == sat_add(
                    old(self).successes_on(m.user_id, day_of(m.requested_at)),
                    1,
                )
                &&& final(self).minted_on(m.user_id, day_of(m.requested_at)) == old(
                    self,
                ).minted_on(m.user_id, day_of(m.requested_at))
            },
            written && outcome.request.status != MintStatus::Completed ==> final(self).quotas()
                == old(self).quotas(),
            final(self).order() == old(self).order(),
            final(self).configs() == old(self).configs(),
            final(self).users() == old(self).users(),
            final(self).failures() == old(self).failures(),
    {
        let stored = match mint_table_get(&self.mints, outcome.request.id) {
            None => {
                return false;
            },
            Some(m) => m,
        };
        if stored.status == MintStatus::Completed || stored.status == MintStatus::Failed {
            return false;
        }
        let o = &outcome.request;
        if !(o.status == MintStatus::Completed || o.status == MintStatus::Failed) {
            return false;
        }
        let fits = match o.status {
            MintStatus::Completed => outcome.tx_hash.is_some() && o.error.is_none()
                && o.processed_at.is_some(),
            _ => outcome.tx_hash.is_none() && o.error.is_some() && o.processed_at.is_some(),
        };
        if !fits || o.attempt < stored.attempt {
            return false;
        }
        let mut r = stored.duplicate();
        r.status = o.status;
        r.tx_hash = clone_text(&outcome.tx_hash);
        r.error = clone_text(&o.error);
        r.processed_at = o.processed_at;
        r.attempt = o.attempt;
        assert(r == with_outcome(stored, *outcome));
        let user_id = r.user_id;
        let day = day_of_millis(r.requested_at);
        self.put_request(r);
        if o.status == MintStatus::Completed {
            self.bump_quota(user_id, day, 0, 1);
        }
        true
    }

    /// Appends an entry to the failure log.
    pub fn log_failure(&mut self, request_id: u128, when: u64, reason: &str)
        requires
            old(self).wf(),
        ensures
            final(self).wf(),
            final(self).failures() == old(self).failures().push(
                MintFailure { request_id, failed_at: when, reason: final(self).failures().last().reason },
            ),
            final(self).failures().last().reason@ == reason@,
            final(self).mints() == old(self).mints(),
            final(self).order() == old(self).order(),
            final(self).configs() == old(self).configs(),
            final(self).users() == old(self).users(),
            final(self).quotas() == old(self).quotas(),
    {
        self.failures.push(MintFailure { request_id, failed_at: when, reason: reason.to_owned() });
        proof {
            assert(self.mints() == old(self).mints());
            assert(self.users() == old(self).users());
            assert(self.quotas() == old(self).quotas());
            assert(self.users_keyed());
            assert(self.quotas_keyed());
        }
    }

    /// The failure log, oldest entry first.
    pub fn failure_log(&self) -> (r: &Vec<MintFailure>)
        ensures
            r@ == self.failures(),
    {
        &self.failures
    }

    /// Per-channel totals of the requests made on `day` (UTC): the sum of their
    /// amounts whatever their status, and how many completed and failed. One row per
    /// channel that had a request that day, in the order web, telegram, discord.
    pub fn daily_summary(&self, day: u64) -> (rows: Vec<DailyReportRow>)
        requires
            self.wf(),
        ensures
            is_summary(rows@, self.ledger(), day),
    {
        proof {
            self.lemma_ids();
        }
        let ghost l = self.ledger();
        let n = self.order.len();
        let mut web = empty_tally();
        let mut telegram = empty_tally();
        let mut discord = empty_tally();
        let mut i: usize = 0;
        assert(l.take(0) =~= Seq::<MintRequest>::empty());
        while i < n
            invariant
                self.wf(),
                l == self.ledger(),
                n == l.len(),
                i <= n,
                forall|j: int| #![trigger l[j]]
                    0 <= j < l.len() ==> self.mints().contains_key(self.order()[j]) && l[j]
                        == self.mints()[self.order()[j]],
                tally_states(web, l.take(i as int), day, Channel::Web),
                tally_states(telegram, l.take(i as int), day, Channel::Telegram),
                tally_states(discord, l.take(i as int), day, Channel::Discord),
            decreases n - i,
        {
            let id = self.order[i];
            let got = mint_table_get(&self.mints, id);
            assert(l[i as int] == self.mints()[id]);
            assert(l.take(i as int + 1) =~= l.take(i as int).push(l[i as int]));
            if let Some(m) = got {
                tally_add(&mut web, Ghost(l.take(i as int)), &m, day, Channel::Web);
                tally_add(&mut telegram, Ghost(l.take(i as int)), &m, day, Channel::Telegram);
                tally_add(&mut discord, Ghost(l.take(i as int)), &m, day, Channel::Discord);
            }
            i = i + 1;
        }
        assert(l.take(n as int) =~= l);
        let mut rows: Vec<DailyReportRow> = Vec::new();
        if web.count > 0 {
            rows.push(tally_row(&web, Channel::Web));
        }
        if telegram.count > 0 {
            rows.push(tally_row(&telegram, Channel::Telegram));
        }
        if discord.count > 0 {
            rows.push(tally_row(&discord, Channel::Discord));
        }
        proof {
            let rc = reported_channels(l, day);
            assert(rows@.len() == rc.len());
            assert forall|j: int| 0 <= j < rows@.len() implies row_states(rows@[j], l, day, rc[j]) by {
            }
        }
        rows
    }

    /// Stores the override `key = value`, replacing any earlier one (created and
    /// updated at `now`, with a fresh id).
    pub fn set_config(&mut self, key: &str, value: &str, description: Option<&str>, now: u64)
        requires
            old(self).wf(),
        ensures
            final(self).wf(),
            final(self).configs() == old(self).configs().insert(key@, final(self).configs()[key@]),
            final(self).configs()[key@].key@ == key@,
            final(self).configs()[key@].value@ == value@,
            text_of(final(self).configs()[key@].description) == str_of(description),
            final(self).configs()[key@].created_at == now,
            final(self).configs()[key@].updated_at == now,
            final(self).users() == old(self).users(),
            final(self).mints() == old(self).mints(),
            final(self).order() == old(self).order(),
            final(self).quotas() == old(self).quotas(),
            final(self).failures() == old(self).failures(),
    {
        let c = SystemConfig {
            id: fresh_id(),
            key: key.to_owned(),
            value: value.to_owned(),
            description: match description {
                Some(d) => Some(d.to_owned()),
                None => None,
            },
            created_at: now,
            updated_at: now,
        };
        config_table_insert(&mut self.configs, key.to_owned(), c);
        proof {
            assert(self.mints() == old(self).mints());
            assert(self.users() == old(self).users());
            assert(self.quotas() == old(self).quotas());
            assert(self.users_keyed());
            assert(self.quotas_keyed());
        }
    }

    /// The override stored under `key`, if any.
    pub fn get_config(&self, key: &str) -> (r: Option<SystemConfig>)
        ensures
            r == (if self.configs().contains_key(key@) {
                Some(self.configs()[key@])
            } else {
                None
            }),
    {
        config_table_get(&self.configs, key)
    }

    /// Every stored override once, in no particular order.
    pub fn get_all_configs(&self) -> (r: Vec<SystemConfig>)
        ensures
            forall|i: int| 0 <= i < r@.len() ==> self.configs().values().contains(#[trigger] r@[i]),
            forall|k| #[trigger] self.configs().contains_key(k) ==> r@.contains(self.configs()[k]),
    {
        config_table_values(&self.configs)
    }

    /// Stores each limit that `update` sets, in decimal, under its key.
    pub fn update_limit_config(&mut self, update: &LimitConfigUpdate, now: u64)
        requires
            old(self).wf(),
        ensures
            final(self).wf(),
            override_applied(old(self).configs(), final(self).configs(), default_amount_key(), update.default_amount),
            override_applied(old(self).configs(), final(self).configs(), default_daily_cap_key(), update.default_daily_cap),
            override_applied(old(self).configs(), final(self).configs(), privileged_amount_key(), update.privileged_amount),
            override_applied(old(self).configs(), final(self).configs(), privileged_daily_cap_key(), update.privileged_daily_cap),
            forall|k: Seq<char>| #![trigger final(self).configs().contains_key(k)]
                k != default_amount_key() && k != default_daily_cap_key()
                    && k != privileged_amount_key() && k != privileged_daily_cap_key()
                    ==> override_applied(old(self).configs(), final(self).configs(), k, None),
            final(self).users() == old(self).users(),
            final(self).mints() == old(self).mints(),
            final(self).order() == old(self).order(),
            final(self).quotas() == old(self).quotas(),
            final(self).failures() == old(self).failures(),
    {
        proof {
            reveal_strlit("limits.default_amount");
            reveal_strlit("limits.default_daily_cap");
            reveal_strlit("limits.privileged_amount");
            reveal_strlit("limits.privileged_daily_cap");
            assert(default_amount_key().len() != default_daily_cap_key().len());
            assert(default_amount_key().len() != privileged_amount_key().len());
            assert(default_amount_key().len() != privileged_daily_cap_key().len());
            assert(default_daily_cap_key().len() != privileged_daily_cap_key().len());
            assert(privileged_amount_key().len() != privileged_daily_cap_key().len());
            assert(default_daily_cap_key()[7] != privileged_amount_key()[7]);
            assert(default_daily_cap_key() != privileged_daily_cap_key());
            assert(privileged_amount_key() != privileged_daily_cap_key());
        }
        if let Some(amount) = update.default_amount {
            let text = u64_text(amount);
            self.set_config("limits.default_amount", text.as_str(), Some("Default user amount"), now);
        }
        if let Some(cap) = update.default_daily_cap {
            let text = u64_text(cap);
            self.set_config("limits.default_daily_cap", text.as_str(), Some("Default user daily cap"), now);
        }
        if let Some(amount) = update.privileged_amount {
            let text = u64_text(amount);
            self.set_config("limits.privileged_amount", text.as_str(), Some("Privileged user amount"), now);
        }
        if let Some(cap) = update.privileged_daily_cap {
            let text = u64_text(cap);
            self.set_config("limits.privileged_daily_cap", text.as_str(), Some("Privileged user daily cap"), now);
        }
    }

    /// The limit overrides that are stored and read as numbers; `None` when none does.
    pub fn get_limit_config(&self) -> (r: Option<LimitConfigUpdate>)
        ensures
            ({
                let u = LimitConfigUpdate {
                    default_amount: override_value(self.configs(), default_amount_key()),
                    default_daily_cap: override_value(self.configs(), default_daily_cap_key()),
                    privileged_amount: override_value(self.configs(), privileged_amount_key()),
                    privileged_daily_cap: override_value(self.configs(), privileged_daily_cap_key()),
                };
                r == if u.default_amount is None && u.default_daily_cap is None
                    && u.privileged_amount is None && u.privileged_daily_cap is None {
                    None
                } else {
                    Some(u)
                }
            }),
    {
        let default_amount = self.read_override("limits.default_amount");
        let default_daily_cap = self.read_override("limits.default_daily_cap");
        let privileged_amount = self.read_override("limits.privileged_amount");
        let privileged_daily_cap = self.read_override("limits.privileged_daily_cap");
        if default_amount.is_some() || default_daily_cap.is_some() || privileged_amount.is_some()
            || privileged_daily_cap.is_some() {
            Some(LimitConfigUpdate { default_amount, default_daily_cap, privileged_amount, privileged_daily_cap })
        } else {
            None
        }
    }

    fn read_override(&self, key: &str) -> (r: Option<u64>)
        ensures
            r == override_value(self.configs(), key@),
    {
        match self.get_config(key) {
            Some(c) => parse_u64(c.value.as_str()),
            None => None,
        }
    }
}

} // verus!
