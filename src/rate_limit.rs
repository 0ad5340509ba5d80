//! Role ceilings and daily caps, with the in-process counter of what was minted.
use vstd::prelude::*;

use crate::config::{ceiling, daily_cap, LimitConfig};
use crate::memory::{sat_add, MemoryStore};
use crate::models::{Role, User};

use std::collections::HashMap;

verus! {

broadcast use vstd::std_specs::hash::group_hash_axioms;

/// Why a mint was refused before anything was recorded.
#[derive(Debug, Clone, Copy, PartialEq, Eq, Structural)]
pub enum RateLimitError {
    /// The amount is above the ceiling of the user's role.
    AmountExceedsRoleLimit,
    /// The amount would take the user's total of the day above the role's cap.
    DailyCapReached,
}

/// The decision on a request of `amount` by a user of `role` who minted `used` today.
pub open spec fn verdict(limits: LimitConfig, role: Role, used: nat, amount: u64) -> Result<
    (),
    RateLimitError,
> {
    if amount > ceiling(limits, role) {
        Err(RateLimitError::AmountExceedsRoleLimit)
    } else if daily_cap(limits, role) matches Some(cap) && used + amount > cap {
        Err(RateLimitError::DailyCapReached)
    } else {
        Ok(())
    }
}

/// What the in-process counter holds for a user after an admitted request.
pub open spec fn counted_after(limits: LimitConfig, role: Role, used: nat, amount: u64) -> nat {
    if daily_cap(limits, role) is Some {
        (used + amount) as nat
    } else {
        used
    }
}

/// Decides whether an amount is admissible for a user's role and records the debit.
/// The counter covers this process's lifetime only; the store's quotas are the
/// durable record.
pub struct RateLimiter {
    /// What each user minted on each day, by user id, then by day.
    memory: HashMap<u128, HashMap<u64, u64>>,
    limits: LimitConfig,
}

impl RateLimiter {
    /// What `user_id` minted on `day` in this process, as far as capped roles go.
    pub closed spec fn counted(&self, user_id: u128, day: u64) -> nat {
        if self.memory@.contains_key(user_id) && self.memory@[user_id]@.contains_key(day) {
            self.memory@[user_id]@[day] as nat
        } else {
            0
        }
    }

    pub closed spec fn limit_config(&self) -> LimitConfig {
        self.limits
    }

    /// A limiter with nothing counted yet.
    pub fn new(limits: LimitConfig) -> (r: RateLimiter)
        ensures
            r.limit_config() == limits,
            forall|u: u128, d: u64| #[trigger] r.counted(u, d) == 0,
    {
        RateLimiter { memory: HashMap::new(), limits }
    }

    /// The configuration the limiter was made with.
    pub fn limits(&self) -> (r: &LimitConfig)
        ensures
            *r == self.limit_config(),
    {
        &self.limits
    }

    /// The per-request ceiling of `role`.
    pub fn max_amount(&self, role: Role) -> (r: u64)
        ensures
            r == ceiling(self.limit_config(), role),
    {
        self.limits.max_amount(role)
    }

    /// The daily cap of `role`; `None` when uncapped.
    pub fn max_daily_cap(&self, role: Role) -> (r: Option<u64>)
        ensures
            r == daily_cap(self.limit_config(), role),
    {
        self.limits.max_daily_cap(role)
    }

    /// The counter of `(user_id, day)`.
    fn lookup(&self, user_id: u128, day: u64) -> (r: u64)
        ensures
            r == self.counted(user_id, day),
    {
        match self.memory.get(&user_id) {
            Some(days) => match days.get(&day) {
                Some(n) => *n,
                None => 0,
            },
            None => 0,
        }
    }

    /// The decision on `amount` for `user` on `today`, changing nothing.
    pub fn check(&self, user: &User, amount: u64, today: u64) -> (r: Result<(), RateLimitError>)
        ensures
            r == verdict(self.limit_config(), user.role, self.counted(user.id, today), amount),
    {
        if amount > self.limits.max_amount(user.role) {
            return Err(RateLimitError::AmountExceedsRoleLimit);
        }
        if let Some(cap) = self.limits.max_daily_cap(user.role) {
            let used = self.lookup(user.id, today);
            if amount > cap || used > cap - amount {
                return Err(RateLimitError::DailyCapReached);
            }
        }
        Ok(())
    }

    /// Admits `amount` for `user` on `today`, or refuses it. On refusal nothing changes,
    /// in the limiter or in the store. When admitted, a capped role's counter grows by
    /// `amount`, and the store records the debit on the quota of `(user.id, today)`.
    pub fn check_and_record(&mut self, store: &mut MemoryStore, user: &User, amount: u64, today: u64)
        -> (r: Result<(), RateLimitError>)
        requires
            old(store).wf(),
        ensures
            r == verdict(old(self).limit_config(), user.role, old(self).counted(user.id, today), amount),
            final(self).limit_config() == old(self).limit_config(),
            r is Err ==> *final(self) == *old(self) && *final(store) == *old(store),
            r is Ok ==> {
                &&& final(self).counted(user.id, today) == counted_after(
                    old(self).limit_config(),
                    user.role,
                    old(self).counted(user.id, today),
                    amount,
                )
                &&& forall|u: u128, d: u64|
                    !(u == user.id && d == today) ==> #[trigger] final(self).counted(u, d) == old(
                        self,
                    ).counted(u, d)
                &&& final(store).wf()
                &&& old(store).quota_moved(&*final(store), user.id, today)
                &&& final(store).minted_on(user.id, today) == sat_add(
                    old(store).minted_on(user.id, today),
                    amount,
                )
                &&& final(store).successes_on(user.id, today) == old(store).successes_on(
                    user.id,
                    today,
                )
                &&& final(store).mints() == old(store).mints()
                &&& final(store).order() == old(store).order()
                &&& final(store).users() == old(store).users()
                &&& final(store).failures() == old(store).failures()
                &&& final(store).configs() == old(store).configs()
            },
    {
        if amount > self.limits.max_amount(user.role) {
            return Err(RateLimitError::AmountExceedsRoleLimit);
        }
        if let Some(cap) = self.limits.max_daily_cap(user.role) {
            let used = self.lookup(user.id, today);
            if amount > cap || used > cap - amount {
                return Err(RateLimitError::DailyCapReached);
            }
            let mut days = match self.memory.remove(&user.id) {
                Some(days) => days,
                None => HashMap::new(),
            };
            days.insert(today, used + amount);
            self.memory.insert(user.id, days);
        }
        store.record_mint(user.id, today, amount);
        Ok(())
    }
}

} // verus!
