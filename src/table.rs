//! The concurrent maps of the in-memory backend, seen through their contents.
use vstd::prelude::*;

use dashmap::DashMap;

use crate::models::{MintRequest, Quota, SystemConfig, User};

verus! {

#[verifier::external_type_specification]
#[verifier::external_body]
#[verifier::reject_recursive_types(K)]
#[verifier::reject_recursive_types(V)]
#[verifier::reject_recursive_types(S)]
pub struct ExDashMap<K, V, S>(DashMap<K, V, S>);

/// Users by (lower-cased channel, lower-cased handle).
pub type UserTable = DashMap<(String, String), User>;

/// Requests by id.
pub type MintTable = DashMap<u128, MintRequest>;

/// Quotas by (user id, day).
pub type QuotaTable = DashMap<(u128, u64), Quota>;

/// What a user table holds, keyed by the views of the two key strings.
pub uninterp spec fn users_in(t: UserTable) -> Map<(Seq<char>, Seq<char>), User>;

/// What a request table holds, by request id.
pub uninterp spec fn mints_in(t: MintTable) -> Map<u128, MintRequest>;

/// What a quota table holds, by (user id, day).
pub uninterp spec fn quotas_in(t: QuotaTable) -> Map<(u128, u64), Quota>;

/// Relies on `DashMap::new`: the new map is empty.
#[verifier::external_body]
pub(crate) fn new_user_table() -> (r: UserTable)
    ensures
        users_in(r).dom() == Set::<(Seq<char>, Seq<char>)>::empty(),
{
    DashMap::new()
}

/// Relies on `DashMap::insert`: the key maps to the value afterwards, all other keys unchanged.
#[verifier::external_body]
pub(crate) fn user_table_insert(t: &mut UserTable, k: (String, String), v: User)
    ensures
        users_in(*final(t)) == users_in(*old(t)).insert((k.0@, k.1@), v),
{
    t.insert(k, v);
}

/// Relies on `DashMap::get`: the value stored under the key, if any (cloned).
#[verifier::external_body]
pub(crate) fn user_table_get(t: &UserTable, k: &(String, String)) -> (r: Option<User>)
    ensures
        r == (if users_in(*t).contains_key((k.0@, k.1@)) {
            Some(users_in(*t)[(k.0@, k.1@)])
        } else {
            None
        }),
{
    t.get(k).map(|e| e.value().clone())
}

/// Relies on `DashMap::iter`: every stored user once, in no particular order.
#[verifier::external_body]
pub(crate) fn user_table_values(t: &UserTable) -> (r: Vec<User>)
    ensures
        forall|i: int| 0 <= i < r@.len() ==> users_in(*t).values().contains(#[trigger] r@[i]),
        forall|k| #[trigger] users_in(*t).contains_key(k) ==> r@.contains(users_in(*t)[k]),
{
    t.iter().map(|e| e.value().clone()).collect()
}

/// Relies on `DashMap::new`: the new map is empty.
#[verifier::external_body]
pub(crate) fn new_mint_table() -> (r: MintTable)
    ensures
        mints_in(r).dom() == Set::<u128>::empty(),
{
    DashMap::new()
}

/// Relies on `DashMap::insert`: the key maps to the value afterwards, all other keys unchanged.
#[verifier::external_body]
pub(crate) fn mint_table_insert(t: &mut MintTable, k: u128, v: MintRequest)
    ensures
        mints_in(*final(t)) == mints_in(*old(t)).insert(k, v),
{
    t.insert(k, v);
}

/// Relies on `DashMap::get`: the value stored under the key, if any (cloned).
#[verifier::external_body]
pub(crate) fn mint_table_get(t: &MintTable, k: u128) -> (r: Option<MintRequest>)
    ensures
        r == (if mints_in(*t).contains_key(k) {
            Some(mints_in(*t)[k])
        } else {
            None
        }),
{
    t.get(&k).map(|e| e.value().clone())
}

/// Relies on `DashMap::new`: the new map is empty.
#[verifier::external_body]
pub(crate) fn new_quota_table() -> (r: QuotaTable)
    ensures
        quotas_in(r).dom() == Set::<(u128, u64)>::empty(),
{
    DashMap::new()
}

/// Relies on `DashMap::insert`: the key maps to the value afterwards, all other keys unchanged.
#[verifier::external_body]
pub(crate) fn quota_table_insert(t: &mut QuotaTable, k: (u128, u64), v: Quota)
    ensures
        quotas_in(*final(t)) == quotas_in(*old(t)).insert(k, v),
{
    t.insert(k, v);
}

/// Relies on `DashMap::get`: the value stored under the key, if any (cloned).
#[verifier::external_body]
pub(crate) fn quota_table_get(t: &QuotaTable, k: (u128, u64)) -> (r: Option<Quota>)
    ensures
        r == (if quotas_in(*t).contains_key(k) {
            Some(quotas_in(*t)[k])
        } else {
            None
        }),
{
    t.get(&k).map(|e| e.value().clone())
}

/// Configuration overrides by key.
pub type ConfigTable = DashMap<String, SystemConfig>;

/// What a configuration table holds, keyed by the view of the key.
pub uninterp spec fn configs_in(t: ConfigTable) -> Map<Seq<char>, SystemConfig>;

/// Relies on `DashMap::new`: the new map is empty.
#[verifier::external_body]
pub(crate) fn new_config_table() -> (r: ConfigTable)
    ensures
        configs_in(r).dom() == Set::<Seq<char>>::empty(),
{
    DashMap::new()
}

/// Relies on `DashMap::insert`: the key maps to the value afterwards, all other keys unchanged.
#[verifier::external_body]
pub(crate) fn config_table_insert(t: &mut ConfigTable, k: String, v: SystemConfig)
    ensures
        configs_in(*final(t)) == configs_in(*old(t)).insert(k@, v),
{
    t.insert(k, v);
}

/// Relies on `DashMap::get`: the value stored under the key, if any (cloned).
#[verifier::external_body]
pub(crate) fn config_table_get(t: &ConfigTable, k: &str) -> (r: Option<SystemConfig>)
    ensures
        r == (if configs_in(*t).contains_key(k@) {
            Some(configs_in(*t)[k@])
        } else {
            None
        }),
{
    t.get(k).map(|e| e.value().clone())
}

/// Relies on `DashMap::iter`: every stored override once, in no particular order.
#[verifier::external_body]
pub(crate) fn config_table_values(t: &ConfigTable) -> (r: Vec<SystemConfig>)
    ensures
        forall|i: int| 0 <= i < r@.len() ==> configs_in(*t).values().contains(#[trigger] r@[i]),
        forall|k| #[trigger] configs_in(*t).contains_key(k) ==> r@.contains(configs_in(*t)[k]),
{
    t.iter().map(|e| e.value().clone()).collect()
}

} // verus!
