//! The operations offered to front ends: identities, roles, mints and quotas.
use vstd::prelude::*;

use crate::clock::{day_of, day_of_millis, fresh_id, now_millis};
use crate::config::{ceiling, daily_cap, AuthConfig, LimitConfig};
use crate::lifecycle::{claimable, claimed, completed, failed, new_request, settle};
use crate::memory::{is_pick, ledger_after_enqueue, lookup_key, sat_add, MemoryStore};
use crate::models::{channel_name, Channel, MintFailure, MintOutcome, MintRequest, MintStatus, Role, User};
use crate::queue::AptosClient;
use crate::rate_limit::{counted_after, verdict, RateLimitError, RateLimiter};
use crate::text::{ascii_lower, str_eq, str_of, text_of, to_ascii_lower};

verus! {

/// An identity asserted by a front end.
#[derive(Debug, Clone)]
pub struct Identity<'a> {
    pub channel: Channel,
    pub handle: &'a str,
    pub domain: Option<&'a str>,
}

/// Why an operation of the service failed.
#[derive(Debug, Clone, PartialEq, Eq)]
pub enum FaucetError {
    /// A mint of zero.
    InvalidAmount,
    /// Refused by the rate limits; nothing was recorded.
    RateLimited(RateLimitError),
    /// The actor may not change roles.
    Forbidden,
    /// The transfer failed; the request is recorded as Failed and logged.
    TransferFailed(String),
    /// The identifier drawn for a new request is already in the ledger; nothing was recorded.
    IdCollision,
}

/// What a user minted today against the cap of their role.
#[derive(Debug, Clone, Copy, PartialEq, Eq, Structural)]
pub struct QuotaSnapshot {
    pub minted: u64,
    pub cap: Option<u64>,
}

impl QuotaSnapshot {
    /// What is left under the cap (zero once it is reached); `None` when uncapped.
    pub fn remaining(&self) -> (r: Option<u64>)
        ensures
            r == (match self.cap {
                Some(cap) => Some(if self.minted <= cap { (cap - self.minted) as u64 } else { 0 }),
                None => None,
            }),
    {
        match self.cap {
            Some(cap) => Some(cap.saturating_sub(self.minted)),
            None => None,
        }
    }
}

/// The role of an identity: Admin stays Admin; a privileged domain makes the user
/// Privileged; otherwise the existing role is kept, or User for a new identity.
pub open spec fn derived_role(existing: Option<Role>, privileged: bool) -> Role {
    if existing == Some(Role::Admin) {
        Role::Admin
    } else if privileged {
        Role::Privileged
    } else {
        match existing {
            Some(r) => r,
            None => Role::User,
        }
    }
}

/// The request of a mint as it enters processing.
pub open spec fn started_request(id: u128, user: User, amount: u64, now: u64) -> MintRequest {
    claimed(
        MintRequest {
            id,
            user_id: user.id,
            channel: user.channel,
            amount,
            status: MintStatus::Pending,
            tx_hash: None,
            error: None,
            requested_at: now,
            processed_at: None,
            attempt: 0,
        },
        now,
    )
}

/// The faucet: a store, a transfer client, the limits and the privileged domains.
pub struct FaucetService<C: AptosClient> {
    store: MemoryStore,
    client: C,
    limits: LimitConfig,
    privileged_domains: Vec<String>,
    rate_limiter: RateLimiter,
}

impl<C: AptosClient> FaucetService<C> {
    pub closed spec fn stored(&self) -> MemoryStore {
        self.store
    }

    pub closed spec fn limiter(&self) -> RateLimiter {
        self.rate_limiter
    }

    pub closed spec fn limit_config(&self) -> LimitConfig {
        self.limits
    }

    /// The transfer client.
    pub closed spec fn transfer_client(&self) -> C {
        self.client
    }

    /// The privileged domains, lower-cased.
    pub closed spec fn domains(&self) -> Seq<Seq<char>> {
        self.privileged_domains@.map_values(|d: String| d@)
    }

    /// Whether `domain` (in any ASCII case) is privileged.
    pub open spec fn is_privileged(&self, domain: Option<Seq<char>>) -> bool {
        domain matches Some(d) && self.domains().contains(ascii_lower(d))
    }

    pub open spec fn wf(&self) -> bool {
        &&& self.stored().wf()
        &&& self.limiter().limit_config() == self.limit_config()
    }

    /// The service state after `identity` is touched at `now`; `new_id` is the id a
    /// new user gets.
    pub open spec fn touch_effect(&self, next: &Self, identity: Identity, now: u64, new_id: u128, u: User) -> bool {
        let key = lookup_key(channel_name(identity.channel), identity.handle@);
        let users = self.stored().users();
        let privileged = self.is_privileged(str_of(identity.domain));
        &&& next.wf()
        &&& if users.contains_key(key) {
            &&& u.id == users[key].id
            &&& u.channel == users[key].channel
            &&& u.handle == users[key].handle
            &&& u.role == derived_role(Some(users[key].role), privileged)
        } else {
            &&& u.id == new_id
            &&& u.channel == identity.channel
            &&& u.handle@ == identity.handle@
            &&& u.role == derived_role(None, privileged)
        }
        &&& text_of(u.domain) == str_of(identity.domain)
        &&& u.last_seen_at == now
        &&& next.stored().users() == users.insert(key, u)
        &&& next.stored().mints() == self.stored().mints()
        &&& next.stored().order() == self.stored().order()
        &&& next.stored().quotas() == self.stored().quotas()
        &&& next.stored().failures() == self.stored().failures()
        &&& next.stored().configs() == self.stored().configs()
        &&& next.limiter() == self.limiter()
        &&& next.limit_config() == self.limit_config()
        &&& next.domains() == self.domains()
    }

    /// The service state after `actor` gives `role` to the user of `target_channel`
    /// and `target_handle` at `now`; `new_id` is the id a new user gets.
    pub open spec fn set_role_effect(
        &self,
        next: &Self,
        actor: User,
        target_channel: Channel,
        target_handle: Seq<char>,
        role: Role,
        now: u64,
        new_id: u128,
        r: Result<User, FaucetError>,
    ) -> bool {
        let key = lookup_key(channel_name(target_channel), target_handle);
        let users = self.stored().users();
        &&& next.wf()
        &&& next.limiter() == self.limiter()
        &&& next.limit_config() == self.limit_config()
        &&& next.domains() == self.domains()
        &&& if actor.role != Role::Admin {
            r == Err::<User, FaucetError>(FaucetError::Forbidden) && next.stored() == self.stored()
        } else {
            &&& r is Ok
            &&& if users.contains_key(key) {
                r->Ok_0 == User { role, last_seen_at: now, ..users[key] }
            } else {
                let u = r->Ok_0;
                &&& u.id == new_id
                &&& u.channel == target_channel
                &&& u.handle@ == target_handle
                &&& u.role == role
                &&& u.domain is None
                &&& u.last_seen_at == now
            }
            &&& next.stored().users() == users.insert(key, r->Ok_0)
            &&& next.stored().mints() == self.stored().mints()
            &&& next.stored().order() == self.stored().order()
            &&& next.stored().quotas() == self.stored().quotas()
            &&& next.stored().failures() == self.stored().failures()
            &&& next.stored().configs() == self.stored().configs()
        }
    }

    /// The service state after one worker step at `now`: nothing when no request is
    /// claimable, else the pick is claimed, sent once, and recorded as settled.
    pub open spec fn process_effect(
        &self,
        next: &Self,
        now: u64,
        visibility_timeout: u64,
        r: Option<Result<MintOutcome, FaucetError>>,
    ) -> bool {
        let s0 = self.stored();
        let s1 = next.stored();
        &&& next.wf()
        &&& next.transfer_client() == self.transfer_client()
        &&& self.transfer_client().always_succeeds() ==> !(r matches Some(Err(_)))
        &&& (r is None <==> forall|i: int|
            0 <= i < s0.ledger().len() ==> !claimable(#[trigger] s0.ledger()[i], now, visibility_timeout))
        &&& (r is None ==> s1.mints() == s0.mints() && s1.quotas() == s0.quotas() && s1.failures()
            == s0.failures())
        &&& (r is Some ==> exists|i: int| #![trigger s0.ledger()[i]]
            is_pick(s0.ledger(), now, visibility_timeout, i) && ({
                let c = claimed(s0.ledger()[i], now);
                match r {
                    Some(Ok(o)) => o.tx_hash matches Some(h) && o.request == completed(c, h, now)
                        && s1.mints() == s0.mints().insert(c.id, o.request) && s1.failures()
                        == s0.failures(),
                    Some(Err(e)) => e matches FaucetError::TransferFailed(msg) && s1.mints()
                        == s0.mints().insert(c.id, failed(c, msg, now)) && s1.failures()
                        == s0.failures().push(
                        MintFailure { request_id: c.id, failed_at: now, reason: s1.failures().last().reason },
                    ) && s1.failures().last().reason@ == msg@,
                    None => false,
                }
            }))
        &&& s1.order() == s0.order()
        &&& s1.users() == s0.users()
        &&& s1.configs() == s0.configs()
        &&& next.limiter() == self.limiter()
        &&& next.limit_config() == self.limit_config()
        &&& next.domains() == self.domains()
    }

    /// The service state after a mint, for the request id and time given.
    pub open spec fn mint_effect(
        &self,
        next: &Self,
        user: User,
        amount: u64,
        now: u64,
        id: u128,
        r: Result<MintOutcome, FaucetError>,
    ) -> bool {
        let today = day_of(now);
        let used = self.limiter().counted(user.id, today);
        let started = started_request(id, user, amount, now);
        let s0 = self.stored();
        let s1 = next.stored();
        &&& next.wf()
        &&& next.limit_config() == self.limit_config()
        &&& next.domains() == self.domains()
        &&& next.transfer_client() == self.transfer_client()
        &&& if amount == 0 {
            r == Err::<MintOutcome, FaucetError>(FaucetError::InvalidAmount) && s1 == s0
                && next.limiter() == self.limiter()
        } else if verdict(self.limit_config(), user.role, used, amount) is Err {
            r == Err::<MintOutcome, FaucetError>(
                FaucetError::RateLimited(verdict(self.limit_config(), user.role, used, amount)->Err_0),
            ) && s1 == s0 && next.limiter() == self.limiter()
        } else if s0.mints().contains_key(id) {
            r == Err::<MintOutcome, FaucetError>(FaucetError::IdCollision) && s1 == s0
                && next.limiter() == self.limiter()
        } else {
            &&& self.transfer_client().always_succeeds() ==> r is Ok
            &&& next.limiter().counted(user.id, today) == counted_after(
                self.limit_config(),
                user.role,
                used,
                amount,
            )
            &&& forall|u: u128, d: u64|
                !(u == user.id && d == today) ==> #[trigger] next.limiter().counted(u, d)
                    == self.limiter().counted(u, d)
            &&& s1.order() == s0.order().push(id)
            &&& s1.users() == s0.users()
            &&& s1.configs() == s0.configs()
            &&& s0.quota_moved(&s1, user.id, today)
            &&& s1.minted_on(user.id, today) == sat_add(s0.minted_on(user.id, today), amount)
            &&& match r {
                Ok(o) => {
                    &&& o.tx_hash matches Some(h) && o.request == completed(started, h, now)
                    &&& s1.mints() == s0.mints().insert(id, o.request)
                    &&& s1.successes_on(user.id, today) == sat_add(
                        s0.successes_on(user.id, today),
                        1,
                    )
                    &&& s1.failures() == s0.failures()
                },
                Err(e) => {
                    &&& e matches FaucetError::TransferFailed(msg) && s1.mints() == s0.mints().insert(
                        id,
                        failed(started, msg, now),
                    ) && s1.failures() == s0.failures().push(
                        MintFailure { request_id: id, failed_at: now, reason: s1.failures().last().reason },
                    ) && s1.failures().last().reason@ == msg@
                    &&& s1.successes_on(user.id, today) == s0.successes_on(user.id, today)
                },
            }
        }
    }

    /// A service over `store`, with the privileged domains lower-cased.
    pub fn new(store: MemoryStore, client: C, limits: LimitConfig, auth: &AuthConfig) -> (r: Self)
        requires
            store.wf(),
        ensures
            r.wf(),
            r.stored() == store,
            r.limit_config() == limits,
            r.domains() == auth.privileged_domains@.map_values(|d: String| ascii_lower(d@)),
            forall|u: u128, d: u64| #[trigger] r.limiter().counted(u, d) == 0,
    {
        let mut domains: Vec<String> = Vec::new();
        let n = auth.privileged_domains.len();
        let mut i: usize = 0;
        while i < n
            invariant
                n == auth.privileged_domains@.len(),
                i <= n,
                domains@.len() == i,
                forall|j: int| 0 <= j < i ==> (#[trigger] domains@[j])@ == ascii_lower(
                    auth.privileged_domains@[j]@,
                ),
            decreases n - i,
        {
            domains.push(to_ascii_lower(auth.privileged_domains[i].as_str()));
            i = i + 1;
        }
        let r = FaucetService {
            store,
            client,
            limits,
            privileged_domains: domains,
            rate_limiter: RateLimiter::new(limits),
        };
        assert(r.domains() =~= auth.privileged_domains@.map_values(|d: String| ascii_lower(d@)));
        r
    }

    /// The store.
    pub fn store(&self) -> (r: &MemoryStore)
        ensures
            *r == self.stored(),
    {
        &self.store
    }

    /// The rate limiter.
    pub fn rate_limiter(&self) -> (r: &RateLimiter)
        ensures
            *r == self.limiter(),
    {
        &self.rate_limiter
    }

    /// The limits the service was made with.
    pub fn limits(&self) -> (r: &LimitConfig)
        ensures
            *r == self.limit_config(),
    {
        &self.limits
    }

    /// The per-request ceiling of `role`.
    pub fn max_amount_for_role(&self, role: Role) -> (r: u64)
        requires
            self.wf(),
        ensures
            r == ceiling(self.limit_config(), role),
    {
        self.rate_limiter.max_amount(role)
    }

    /// The amount a request of `role` asks for by default: its ceiling.
    pub fn default_amount(&self, role: Role) -> (r: u64)
        ensures
            r == ceiling(self.limit_config(), role),
    {
        self.limits.max_amount(role)
    }

    /// The daily cap of `role`; `None` when uncapped.
    pub fn max_daily_cap(&self, role: Role) -> (r: Option<u64>)
        ensures
            r == daily_cap(self.limit_config(), role),
    {
        self.limits.max_daily_cap(role)
    }

    /// Whether `domain` is one of the privileged domains, in any ASCII case.
    fn domain_is_privileged(&self, domain: Option<&str>) -> (r: bool)
        ensures
            r == self.is_privileged(str_of(domain)),
    {
        match domain {
            None => false,
            Some(d) => {
                let clean = to_ascii_lower(d);
                let n = self.privileged_domains.len();
                let mut i: usize = 0;
                assert(self.domains().len() == n);
                while i < n
                    invariant
                        n == self.privileged_domains@.len(),
                        self.domains().len() == n,
                        domain == Some(d),
                        i <= n,
                        clean@ == ascii_lower(d@),
                        forall|j: int| 0 <= j < i ==> self.domains()[j] != clean@,
                    decreases n - i,
                {
                    if str_eq(self.privileged_domains[i].as_str(), clean.as_str()) {
                        assert(self.domains()[i as int] == clean@);
                        assert(self.domains().contains(clean@));
                        assert(str_of(domain) == Some(d@));
                        assert(self.is_privileged(str_of(domain)));
                        return true;
                    }
                    i = i + 1;
                }
                false
            },
        }
    }

    /// The role of an identity with this existing role (if known) and domain.
    pub fn determine_role(&self, existing: Option<Role>, domain: Option<&str>) -> (r: Role)
        ensures
            r == derived_role(existing, self.is_privileged(str_of(domain))),
    {
        if existing == Some(Role::Admin) {
            return Role::Admin;
        }
        if self.domain_is_privileged(domain) {
            return Role::Privileged;
        }
        match existing {
            Some(r) => r,
            None => Role::User,
        }
    }

    /// Loads or creates the user of `identity`, re-derives its role, sets its domain,
    /// stamps it with `now` and stores it; `new_id` is the id a new user gets.
    pub fn touch_user_at(&mut self, identity: &Identity, now: u64, new_id: u128) -> (u: User)
        requires
            old(self).wf(),
        ensures
            old(self).touch_effect(&*final(self), *identity, now, new_id, u),
    {
        let domain: Option<String> = match identity.domain {
            Some(d) => Some(d.to_owned()),
            None => None,
        };
        let found = self.store.find_user(identity.channel.as_str(), identity.handle);
        let u = match found {
            Some(before) => {
                let role = self.determine_role(Some(before.role), identity.domain);
                let mut u = before.duplicate();
                u.role = role;
                u.domain = domain;
                u.last_seen_at = now;
                u
            },
            None => User {
                id: new_id,
                channel: identity.channel,
                handle: identity.handle.to_owned(),
                role: self.determine_role(None, identity.domain),
                domain,
                last_seen_at: now,
            },
        };
        self.store.upsert_user(&u);
        u
    }

    /// `touch_user_at` at the current time, with a fresh id for a new user.
    pub fn touch_user(&mut self, identity: &Identity) -> (u: User)
        requires
            old(self).wf(),
        ensures
            exists|now: u64, id: u128| old(self).touch_effect(&*final(self), *identity, now, id, u),
    {
        let now = now_millis();
        let id = fresh_id();
        self.touch_user_at(identity, now, id)
    }

    /// Gives `role` to the user of `(target_channel, target_handle)`, creating it if
    /// needed, when `actor` is an Admin; stamps it with `now`. `new_id` is the id a new
    /// user gets.
    pub fn set_role_at(
        &mut self,
        actor: &User,
        target_channel: Channel,
        target_handle: &str,
        role: Role,
        now: u64,
        new_id: u128,
    ) -> (r: Result<User, FaucetError>)
        requires
            old(self).wf(),
        ensures
            old(self).set_role_effect(&*final(self), *actor, target_channel, target_handle@, role, now, new_id, r),
    {
        if actor.role != Role::Admin {
            return Err(FaucetError::Forbidden);
        }
        let found = self.store.find_user(target_channel.as_str(), target_handle);
        let mut u = match found {
            Some(before) => before,
            None => User {
                id: new_id,
                channel: target_channel,
                handle: target_handle.to_owned(),
                role: Role::User,
                domain: None,
                last_seen_at: now,
            },
        };
        u.role = role;
        u.last_seen_at = now;
        self.store.upsert_user(&u);
        Ok(u)
    }

    /// `set_role_at` at the current time, with a fresh id for a new user.
    pub fn set_role(&mut self, actor: &User, target_channel: Channel, target_handle: &str, role: Role)
        -> (r: Result<User, FaucetError>)
        requires
            old(self).wf(),
        ensures
            exists|now: u64, id: u128|
                old(self).set_role_effect(&*final(self), *actor, target_channel, target_handle@, role, now, id, r),
    {
        let now = now_millis();
        let id = fresh_id();
        self.set_role_at(actor, target_channel, target_handle, role, now, id)
    }

    /// The user stored for `channel` and `handle` (in any ASCII case), if any.
    pub fn find_user(&self, channel: Channel, handle: &str) -> (r: Option<User>)
        ensures
            r == (if self.stored().users().contains_key(lookup_key(channel_name(channel), handle@)) {
                Some(self.stored().users()[lookup_key(channel_name(channel), handle@)])
            } else {
                None
            }),
    {
        self.store.find_user(channel.as_str(), handle)
    }

    /// What `user` minted on `day` against the cap of their role.
    pub fn quota_snapshot_on(&self, user: &User, day: u64) -> (q: QuotaSnapshot)
        ensures
            q.minted == self.stored().minted_on(user.id, day),
            q.cap == daily_cap(self.limit_config(), user.role),
    {
        let minted = match self.store.fetch_quota(user.id, day) {
            Some(q) => q.minted_total,
            None => 0,
        };
        QuotaSnapshot { minted, cap: self.max_daily_cap(user.role) }
    }

    /// `quota_snapshot_on` for the current day.
    pub fn quota_snapshot(&self, user: &User) -> (q: QuotaSnapshot)
        ensures
            exists|day: u64| q.minted == self.stored().minted_on(user.id, day),
            q.cap == daily_cap(self.limit_config(), user.role),
    {
        let today = day_of_millis(now_millis());
        self.quota_snapshot_on(user, today)
    }

    /// Mints `amount` for `user` at `now` as request `id`, inline: checks the amount
    /// and the rate limits, refuses an id already in the ledger, records the debit,
    /// stores the request, marks it
    /// Processing, calls the transfer client once, and records the terminal state
    /// before returning. A failed transfer is also logged and returned as an error.
    pub fn mint_at(&mut self, user: &User, amount: u64, now: u64, id: u128) -> (r: Result<
        MintOutcome,
        FaucetError,
    >)
        requires
            old(self).wf(),
        ensures
            old(self).mint_effect(&*final(self), *user, amount, now, id, r),
    {
        if amount == 0 {
            return Err(FaucetError::InvalidAmount);
        }
        let today = day_of_millis(now);
        match self.rate_limiter.check(user, amount, today) {
            Err(e) => {
                return Err(FaucetError::RateLimited(e));
            },
            Ok(()) => {},
        }
        if self.store.find_request(id).is_some() {
            return Err(FaucetError::IdCollision);
        }
        match self.rate_limiter.check_and_record(&mut self.store, user, amount, today) {
            Err(e) => {
                return Err(FaucetError::RateLimited(e));
            },
            Ok(()) => {},
        }
        let ghost s1 = self.store;
        let ghost key = (user.id, today);
        let request = new_request(id, user.id, user.channel, amount, now);
        self.store.enqueue(&request);
        let changed = self.store.update_status(id, MintStatus::Processing, now);
        let mut started = request;
        started.status = MintStatus::Processing;
        started.processed_at = Some(now);
        started.attempt = 1;
        assert(started == started_request(id, *user, amount, now));
        let result = self.client.submit_transfer(&started);
        let outcome = settle(&started, result, now);
        let ghost s2 = self.store;
        let written = self.store.record_outcome(&outcome);
        proof {
            let s0 = old(self).stored();
            assert(s2.quotas() == s1.quotas());
            assert(s2.mints()[id].user_id == user.id && s2.mints()[id].requested_at == now);
            assert(changed);
            assert(written);
            assert(self.store.mints() =~= s0.mints().insert(id, outcome.request));
            if outcome.request.status == MintStatus::Completed {
                assert(self.store.quotas().dom() =~= s0.quotas().dom().insert(key));
                assert forall|k: (u128, u64)| #[trigger]
                    s0.quotas().contains_key(k) && k != key implies self.store.quotas()[k]
                    == s0.quotas()[k] by {
                    assert(s1.quotas().contains_key(k));
                    assert(s2.quotas().contains_key(k));
                }
            } else {
                assert(self.store.quotas() == s1.quotas());
            }
        }
        match outcome.tx_hash {
            Some(_) => Ok(outcome),
            None => {
                let msg = match outcome.request.error {
                    Some(e) => e,
                    None => String::new(),
                };
                self.store.log_failure(id, now, msg.as_str());
                Err(FaucetError::TransferFailed(msg))
            },
        }
    }

    /// `mint_at` at the current time, as a request with a fresh id.
    pub fn mint(&mut self, user: &User, amount: u64) -> (r: Result<MintOutcome, FaucetError>)
        requires
            old(self).wf(),
        ensures
            exists|now: u64, id: u128| old(self).mint_effect(&*final(self), *user, amount, now, id, r),
    {
        let now = now_millis();
        let id = fresh_id();
        self.mint_at(user, amount, now, id)
    }

    /// Puts `request` on the ledger as Pending for a worker to take (decoupled mode);
    /// nothing changes if its id is already there.
    pub fn submit(&mut self, request: &MintRequest)
        requires
            old(self).wf(),
        ensures
            final(self).wf(),
            final(self).stored().ledger() == ledger_after_enqueue(old(self).stored().ledger(), *request),
            final(self).stored().users() == old(self).stored().users(),
            final(self).stored().quotas() == old(self).stored().quotas(),
            final(self).stored().failures() == old(self).stored().failures(),
            final(self).limiter() == old(self).limiter(),
            final(self).limit_config() == old(self).limit_config(),
            final(self).domains() == old(self).domains(),
    {
        self.store.enqueue(request);
    }

    /// One step of a worker (decoupled mode): claims the next request as
    /// `claim_next_pending` does, calls the transfer client once, and records the
    /// terminal state (a failure is also logged). `None` when nothing is claimable.
    pub fn process_next_at(&mut self, now: u64, visibility_timeout: u64) -> (r: Option<
        Result<MintOutcome, FaucetError>,
    >)
        requires
            old(self).wf(),
        ensures
            old(self).process_effect(&*final(self), now, visibility_timeout, r),
    {
        let c = match self.store.claim_next_pending(now, visibility_timeout) {
            None => {
                return None;
            },
            Some(c) => c,
        };
        let ghost s1 = self.store;
        let result = self.client.submit_transfer(&c);
        let outcome = settle(&c, result, now);
        let written = self.store.record_outcome(&outcome);
        proof {
            assert(s1.mints().contains_key(c.id) && s1.mints()[c.id] == c);
            assert(written);
            assert(self.store.mints() =~= old(self).stored().mints().insert(c.id, outcome.request));
        }
        match outcome.tx_hash {
            Some(_) => Some(Ok(outcome)),
            None => {
                let msg = match outcome.request.error {
                    Some(e) => e,
                    None => String::new(),
                };
                self.store.log_failure(c.id, now, msg.as_str());
                Some(Err(FaucetError::TransferFailed(msg)))
            },
        }
    }

    /// `process_next_at` at the current time.
    pub fn process_next(&mut self, visibility_timeout: u64) -> (r: Option<Result<MintOutcome, FaucetError>>)
        requires
            old(self).wf(),
        ensures
            exists|now: u64| old(self).process_effect(&*final(self), now, visibility_timeout, r),
    {
        let now = now_millis();
        self.process_next_at(now, visibility_timeout)
    }
}

} // verus!
