//! The storage capabilities: users, the request ledger, quotas, and reporting.
//! A backend implements the ones it offers; each operation is atomic.
use vstd::prelude::*;

use crate::lifecycle::{accepts_outcome, claimable, claimed, with_outcome};
use crate::memory::{
    default_amount_key, default_daily_cap_key, is_pick, ledger_after_enqueue, lookup_key,
    may_set_status, override_applied, override_value, privileged_amount_key,
    privileged_daily_cap_key, sat_add, user_key, with_status, MemoryStore,
};
use crate::models::{
    LimitConfigUpdate, MintFailure, MintOutcome, MintRequest, MintStatus, Quota, Role, SystemConfig,
    User,
};
use crate::report::{is_summary, DailyReportRow};
use crate::store::DatabaseStore;
use crate::text::{str_of, text_of};

verus! {

/// What every backend keeps true between operations.
pub trait Storage {
    spec fn valid(&self) -> bool;
}

/// Users keyed by lower-cased channel and handle.
pub trait UserRepository: Storage {
    spec fn user_records(&self) -> Map<(Seq<char>, Seq<char>), User>;

    /// Stores `user` under its key, replacing any earlier record there.
    fn upsert_user(&mut self, user: &User)
        requires
            old(self).valid(),
        ensures
            final(self).valid(),
            final(self).user_records() == old(self).user_records().insert(user_key(*user), *user),
    ;

    /// The user stored under the lower-cased channel name and handle, if any.
    fn find_user(&self, channel: &str, handle: &str) -> (r: Option<User>)
        ensures
            r == (if self.user_records().contains_key(lookup_key(channel@, handle@)) {
                Some(self.user_records()[lookup_key(channel@, handle@)])
            } else {
                None
            }),
    ;

    /// Gives `role` to a user with id `user_id`, if one is stored.
    fn set_role(&mut self, user_id: u128, role: Role)
        requires
            old(self).valid(),
        ensures
            final(self).valid(),
            (forall|k| #[trigger] old(self).user_records().contains_key(k) ==> old(
                self,
            ).user_records()[k].id != user_id) ==> final(self).user_records() == old(
                self,
            ).user_records(),
            (exists|k| #[trigger] old(self).user_records().contains_key(k) && old(
                self,
            ).user_records()[k].id == user_id) ==> exists|k| #[trigger]
                old(self).user_records().contains_key(k) && old(self).user_records()[k].id
                    == user_id && final(self).user_records() == old(self).user_records().insert(
                    k,
                    User { role, ..old(self).user_records()[k] },
                ),
    ;
}

/// The request ledger and its state machine.
pub trait MintRepository: Storage {
    /// Requests by id.
    spec fn request_records(&self) -> Map<u128, MintRequest>;

    /// The ledger, oldest entry first.
    spec fn request_ledger(&self) -> Seq<MintRequest>;

    /// Adds `request` as Pending unless its id is already there.
    fn enqueue(&mut self, request: &MintRequest)
        requires
            old(self).valid(),
        ensures
            final(self).valid(),
            final(self).request_ledger() == ledger_after_enqueue(old(self).request_ledger(), *request),
    ;

    /// Takes the claimable request with the earliest `requested_at` (first in ledger
    /// order among equals), marking it Processing at `now` with one more attempt.
    fn next_pending(&mut self, now: u64, visibility_timeout: u64) -> (r: Option<MintRequest>)
        requires
            old(self).valid(),
        ensures
            final(self).valid(),
            r is None <==> forall|i: int|
                0 <= i < old(self).request_ledger().len() ==> !claimable(
                    #[trigger] old(self).request_ledger()[i],
                    now,
                    visibility_timeout,
                ),
            r is None ==> final(self).request_ledger() == old(self).request_ledger(),
            r matches Some(c) ==> exists|i: int|
                is_pick(old(self).request_ledger(), now, visibility_timeout, i) && c == claimed(
                    #[trigger] old(self).request_ledger()[i],
                    now,
                ) && final(self).request_ledger() == old(self).request_ledger().update(i, c),
    ;

    /// Sets a non-terminal status when `may_set_status` allows it.
    fn update_status(&mut self, id: u128, status: MintStatus, now: u64) -> (changed: bool)
        requires
            old(self).valid(),
        ensures
            final(self).valid(),
            changed == (old(self).request_records().contains_key(id) && may_set_status(
                old(self).request_records()[id].status,
                status,
            )),
            changed ==> final(self).request_records() == old(self).request_records().insert(
                id,
                with_status(old(self).request_records()[id], status, now),
            ),
            !changed ==> final(self).request_records() == old(self).request_records(),
    ;

    /// Writes a terminal outcome over its request when `accepts_outcome` allows it.
    fn record_outcome(&mut self, outcome: &MintOutcome) -> (written: bool)
        requires
            old(self).valid(),
        ensures
            final(self).valid(),
            written == (old(self).request_records().contains_key(outcome.request.id)
                && accepts_outcome(old(self).request_records()[outcome.request.id], *outcome)),
            written ==> final(self).request_records() == old(self).request_records().insert(
                outcome.request.id,
                with_outcome(old(self).request_records()[outcome.request.id], *outcome),
            ),
            !written ==> final(self).request_records() == old(self).request_records(),
    ;
}

/// Per-user, per-day quotas.
pub trait QuotaRepository: Storage {
    spec fn quota_records(&self) -> Map<(u128, u64), Quota>;

    /// Adds `amount` (held at `u64::MAX`) to the quota of `(user_id, day)`, creating it.
    fn record_mint(&mut self, user_id: u128, day: u64, amount: u64)
        requires
            old(self).valid(),
        ensures
            final(self).valid(),
            final(self).quota_records().contains_key((user_id, day)),
            final(self).quota_records()[(user_id, day)].minted_total == sat_add(
                if old(self).quota_records().contains_key((user_id, day)) {
                    old(self).quota_records()[(user_id, day)].minted_total
                } else {
                    0
                },
                amount,
            ),
            forall|k: (u128, u64)|
                k != (user_id, day) ==> (#[trigger] final(self).quota_records().contains_key(k)
                    == old(self).quota_records().contains_key(k) && (old(self).quota_records().contains_key(k)
                    ==> final(self).quota_records()[k] == old(self).quota_records()[k])),
    ;

    /// The quota of `(user_id, day)`, if one was created.
    fn fetch_quota(&self, user_id: u128, day: u64) -> (r: Option<Quota>)
        ensures
            r == (if self.quota_records().contains_key((user_id, day)) {
                Some(self.quota_records()[(user_id, day)])
            } else {
                None
            }),
    ;
}

/// Daily reports and the failure log.
pub trait ReportingRepository: MintRepository {
    spec fn failure_records(&self) -> Seq<MintFailure>;

    /// Per-channel totals of the requests made on `day`.
    fn daily_summary(&self, day: u64) -> (rows: Vec<DailyReportRow>)
        requires
            self.valid(),
        ensures
            is_summary(rows@, self.request_ledger(), day),
    ;

    /// Appends an entry to the failure log.
    fn log_failure(&mut self, request_id: u128, when: u64, reason: &str)
        requires
            old(self).valid(),
        ensures
            final(self).valid(),
            final(self).failure_records().len() == old(self).failure_records().len() + 1,
            final(self).failure_records().drop_last() == old(self).failure_records(),
            final(self).failure_records().last().request_id == request_id,
            final(self).failure_records().last().failed_at == when,
            final(self).failure_records().last().reason@ == reason@,
    ;
}

/// Runtime overrides of the configuration.
pub trait ConfigRepository: Storage {
    spec fn config_records(&self) -> Map<Seq<char>, SystemConfig>;

    /// Stores `key = value` at `now`, replacing any earlier override of `key`.
    fn set_config(&mut self, key: &str, value: &str, description: Option<&str>, now: u64)
        requires
            old(self).valid(),
        ensures
            final(self).valid(),
            final(self).config_records() == old(self).config_records().insert(key@, final(self).config_records()[key@]),
            final(self).config_records()[key@].key@ == key@,
            final(self).config_records()[key@].value@ == value@,
            text_of(final(self).config_records()[key@].description) == str_of(description),
            final(self).config_records()[key@].created_at == now,
            final(self).config_records()[key@].updated_at == now,
    ;

    /// The override of `key`, if any.
    fn get_config(&self, key: &str) -> (r: Option<SystemConfig>)
        ensures
            r == (if self.config_records().contains_key(key@) {
                Some(self.config_records()[key@])
            } else {
                None
            }),
    ;

    /// Every override once, in no particular order.
    fn get_all_configs(&self) -> (r: Vec<SystemConfig>)
        ensures
            forall|i: int| 0 <= i < r@.len() ==> self.config_records().values().contains(#[trigger] r@[i]),
            forall|k| #[trigger] self.config_records().contains_key(k) ==> r@.contains(self.config_records()[k]),
    ;

    /// Stores each limit that `update` sets, in decimal, under its key.
    fn update_limit_config(&mut self, update: &LimitConfigUpdate, now: u64)
        requires
            old(self).valid(),
        ensures
            final(self).valid(),
            override_applied(old(self).config_records(), final(self).config_records(), default_amount_key(), update.default_amount),
            override_applied(old(self).config_records(), final(self).config_records(), default_daily_cap_key(), update.default_daily_cap),
            override_applied(old(self).config_records(), final(self).config_records(), privileged_amount_key(), update.privileged_amount),
            override_applied(old(self).config_records(), final(self).config_records(), privileged_daily_cap_key(), update.privileged_daily_cap),
    ;

    /// The limit overrides that read as numbers; `None` when none does.
    fn get_limit_config(&self) -> (r: Option<LimitConfigUpdate>)
        ensures
            ({
                let u = LimitConfigUpdate {
                    default_amount: override_value(self.config_records(), default_amount_key()),
                    default_daily_cap: override_value(self.config_records(), default_daily_cap_key()),
                    privileged_amount: override_value(self.config_records(), privileged_amount_key()),
                    privileged_daily_cap: override_value(self.config_records(), privileged_daily_cap_key()),
                };
                r == if u.default_amount is None && u.default_daily_cap is None
                    && u.privileged_amount is None && u.privileged_daily_cap is None {
                    None
                } else {
                    Some(u)
                }
            }),
    ;
}

impl Storage for MemoryStore {
    open spec fn valid(&self) -> bool {
        self.wf()
    }
}

impl UserRepository for MemoryStore {
    open spec fn user_records(&self) -> Map<(Seq<char>, Seq<char>), User> {
        self.users()
    }

    fn upsert_user(&mut self, user: &User) {
        MemoryStore::upsert_user(self, user)
    }

    fn find_user(&self, channel: &str, handle: &str) -> (r: Option<User>) {
        MemoryStore::find_user(self, channel, handle)
    }

    fn set_role(&mut self, user_id: u128, role: Role) {
        MemoryStore::set_role(self, user_id, role)
    }
}

impl MintRepository for MemoryStore {
    open spec fn request_records(&self) -> Map<u128, MintRequest> {
        self.mints()
    }

    open spec fn request_ledger(&self) -> Seq<MintRequest> {
        self.ledger()
    }

    fn enqueue(&mut self, request: &MintRequest) {
        MemoryStore::enqueue(self, request)
    }

    fn next_pending(&mut self, now: u64, visibility_timeout: u64) -> (r: Option<MintRequest>) {
        assert(old(self).request_ledger() == old(self).ledger());
        let r = MemoryStore::claim_next_pending(self, now, visibility_timeout);
        assert(self.request_ledger() == self.ledger());
        proof {
            if r is None {
                assert(self.ledger() =~= old(self).ledger());
            }
        }
        r
    }

    fn update_status(&mut self, id: u128, status: MintStatus, now: u64) -> (changed: bool) {
        MemoryStore::update_status(self, id, status, now)
    }

    fn record_outcome(&mut self, outcome: &MintOutcome) -> (written: bool) {
        MemoryStore::record_outcome(self, outcome)
    }
}

impl QuotaRepository for MemoryStore {
    open spec fn quota_records(&self) -> Map<(u128, u64), Quota> {
        self.quotas()
    }

    fn record_mint(&mut self, user_id: u128, day: u64, amount: u64) {
        MemoryStore::record_mint(self, user_id, day, amount)
    }

    fn fetch_quota(&self, user_id: u128, day: u64) -> (r: Option<Quota>) {
        MemoryStore::fetch_quota(self, user_id, day)
    }
}

impl ReportingRepository for MemoryStore {
    open spec fn failure_records(&self) -> Seq<MintFailure> {
        self.failures()
    }

    fn daily_summary(&self, day: u64) -> (rows: Vec<DailyReportRow>) {
        MemoryStore::daily_summary(self, day)
    }

    fn log_failure(&mut self, request_id: u128, when: u64, reason: &str) {
        MemoryStore::log_failure(self, request_id, when, reason);
        assert(self.failures().drop_last() =~= old(self).failures());
    }
}

impl ConfigRepository for MemoryStore {
    open spec fn config_records(&self) -> Map<Seq<char>, SystemConfig> {
        self.configs()
    }

    fn set_config(&mut self, key: &str, value: &str, description: Option<&str>, now: u64) {
        MemoryStore::set_config(self, key, value, description, now)
    }

    fn get_config(&self, key: &str) -> (r: Option<SystemConfig>) {
        MemoryStore::get_config(self, key)
    }

    fn get_all_configs(&self) -> (r: Vec<SystemConfig>) {
        MemoryStore::get_all_configs(self)
    }

    fn update_limit_config(&mut self, update: &LimitConfigUpdate, now: u64) {
        MemoryStore::update_limit_config(self, update, now)
    }

    fn get_limit_config(&self) -> (r: Option<LimitConfigUpdate>) {
        MemoryStore::get_limit_config(self)
    }
}

impl Storage for DatabaseStore {
    open spec fn valid(&self) -> bool {
        match self {
            DatabaseStore::Memory(m) => m.wf(),
        }
    }
}

impl UserRepository for DatabaseStore {
    open spec fn user_records(&self) -> Map<(Seq<char>, Seq<char>), User> {
        match self {
            DatabaseStore::Memory(m) => m.users(),
        }
    }

    fn upsert_user(&mut self, user: &User) {
        match self {
            DatabaseStore::Memory(m) => MemoryStore::upsert_user(m, user),
        }
    }

    fn find_user(&self, channel: &str, handle: &str) -> (r: Option<User>) {
        match self {
            DatabaseStore::Memory(m) => MemoryStore::find_user(m, channel, handle),
        }
    }

    fn set_role(&mut self, user_id: u128, role: Role) {
        match self {
            DatabaseStore::Memory(m) => MemoryStore::set_role(m, user_id, role),
        }
    }
}

impl MintRepository for DatabaseStore {
    open spec fn request_records(&self) -> Map<u128, MintRequest> {
        match self {
            DatabaseStore::Memory(m) => m.mints(),
        }
    }

    open spec fn request_ledger(&self) -> Seq<MintRequest> {
        match self {
            DatabaseStore::Memory(m) => m.ledger(),
        }
    }

    fn enqueue(&mut self, request: &MintRequest) {
        match self {
            DatabaseStore::Memory(m) => MintRepository::enqueue(m, request),
        }
    }

    fn next_pending(&mut self, now: u64, visibility_timeout: u64) -> (r: Option<MintRequest>) {
        assert(old(self).request_ledger() == old(self)->Memory_0.request_ledger());
        let r = match self {
            DatabaseStore::Memory(m) => MintRepository::next_pending(m, now, visibility_timeout),
        };
        assert(self.request_ledger() == self->Memory_0.request_ledger());
        r
    }

    fn update_status(&mut self, id: u128, status: MintStatus, now: u64) -> (changed: bool) {
        match self {
            DatabaseStore::Memory(m) => MintRepository::update_status(m, id, status, now),
        }
    }

    fn record_outcome(&mut self, outcome: &MintOutcome) -> (written: bool) {
        match self {
            DatabaseStore::Memory(m) => MintRepository::record_outcome(m, outcome),
        }
    }
}

impl QuotaRepository for DatabaseStore {
    open spec fn quota_records(&self) -> Map<(u128, u64), Quota> {
        match self {
            DatabaseStore::Memory(m) => m.quotas(),
        }
    }

    fn record_mint(&mut self, user_id: u128, day: u64, amount: u64) {
        match self {
            DatabaseStore::Memory(m) => QuotaRepository::record_mint(m, user_id, day, amount),
        }
    }

    fn fetch_quota(&self, user_id: u128, day: u64) -> (r: Option<Quota>) {
        match self {
            DatabaseStore::Memory(m) => MemoryStore::fetch_quota(m, user_id, day),
        }
    }
}

impl ReportingRepository for DatabaseStore {
    open spec fn failure_records(&self) -> Seq<MintFailure> {
        match self {
            DatabaseStore::Memory(m) => m.failures(),
        }
    }

    fn daily_summary(&self, day: u64) -> (rows: Vec<DailyReportRow>) {
        match self {
            DatabaseStore::Memory(m) => MemoryStore::daily_summary(m, day),
        }
    }

    fn log_failure(&mut self, request_id: u128, when: u64, reason: &str) {
        match self {
            DatabaseStore::Memory(m) => ReportingRepository::log_failure(m, request_id, when, reason),
        }
    }
}

impl ConfigRepository for DatabaseStore {
    open spec fn config_records(&self) -> Map<Seq<char>, SystemConfig> {
        match self {
            DatabaseStore::Memory(m) => m.configs(),
        }
    }

    fn set_config(&mut self, key: &str, value: &str, description: Option<&str>, now: u64) {
        match self {
            DatabaseStore::Memory(m) => MemoryStore::set_config(m, key, value, description, now),
        }
    }

    fn get_config(&self, key: &str) -> (r: Option<SystemConfig>) {
        match self {
            DatabaseStore::Memory(m) => MemoryStore::get_config(m, key),
        }
    }

    fn get_all_configs(&self) -> (r: Vec<SystemConfig>) {
        match self {
            DatabaseStore::Memory(m) => MemoryStore::get_all_configs(m),
        }
    }

    fn update_limit_config(&mut self, update: &LimitConfigUpdate, now: u64) {
        match self {
            DatabaseStore::Memory(m) => MemoryStore::update_limit_config(m, update, now),
        }
    }

    fn get_limit_config(&self) -> (r: Option<LimitConfigUpdate>) {
        match self {
            DatabaseStore::Memory(m) => MemoryStore::get_limit_config(m),
        }
    }
}

} // verus!
