use crate::handler::{ActionEntry, UserInfo};
use crate::types::{SubscriptionType, UserUpdates};
use dashmap::DashMap;
use vstd::prelude::*;

verus! {

#[verifier::external_type_specification]
#[verifier::external_body]
#[verifier::reject_recursive_types(K)]
#[verifier::reject_recursive_types(V)]
#[verifier::reject_recursive_types(S)]
pub struct ExDashMap<K, V, S>(DashMap<K, V, S>);

/// The registered users by user key that a map holds.
pub uninterp spec fn relayer_table(m: DashMap<String, UserInfo>) -> Map<Seq<char>, UserInfo>;

/// Relies on `DashMap::new`: an empty map.
#[verifier::external_body]
pub(crate) fn relayers_new() -> (r: DashMap<String, UserInfo>)
    ensures
        relayer_table(r).is_empty(),
{
    DashMap::new()
}

/// Relies on `DashMap::get`: a copy of the value stored under `k`, if any.
#[verifier::external_body]
pub(crate) fn relayers_get(m: &DashMap<String, UserInfo>, k: &str) -> (r: Option<UserInfo>)
    ensures
        match r {
            Some(v) => relayer_table(*m).contains_key(k@) && v == relayer_table(*m)[k@],
            None => !relayer_table(*m).contains_key(k@),
        },
{
    m.get(k).map(|e| e.value().clone())
}

/// Relies on `DashMap::contains_key`.
#[verifier::external_body]
pub(crate) fn relayers_contains(m: &DashMap<String, UserInfo>, k: &str) -> (r: bool)
    ensures
        r == relayer_table(*m).contains_key(k@),
{
    m.contains_key(k)
}

/// Relies on `DashMap::insert`: `v` is stored under `k`, replacing any
/// earlier value.
#[verifier::external_body]
pub(crate) fn relayers_insert(m: &mut DashMap<String, UserInfo>, k: String, v: UserInfo)
    ensures
        relayer_table(*final(m)) == relayer_table(*old(m)).insert(k@, v),
{
    m.insert(k, v);
}

/// The bound actions by subscription id that a map holds.
pub uninterp spec fn action_table(m: DashMap<String, ActionEntry>) -> Map<Seq<char>, ActionEntry>;

/// Relies on `DashMap::new`: an empty map.
#[verifier::external_body]
pub(crate) fn actions_new() -> (r: DashMap<String, ActionEntry>)
    ensures
        action_table(r).is_empty(),
{
    DashMap::new()
}

/// Relies on `DashMap::get`: a copy of the value stored under `k`, if any.
#[verifier::external_body]
pub(crate) fn actions_get(m: &DashMap<String, ActionEntry>, k: &str) -> (r: Option<ActionEntry>)
    ensures
        match r {
            Some(v) => action_table(*m).contains_key(k@) && v == action_table(*m)[k@],
            None => !action_table(*m).contains_key(k@),
        },
{
    m.get(k).map(|e| e.value().clone())
}

/// Relies on `DashMap::contains_key`.
#[verifier::external_body]
pub(crate) fn actions_contains(m: &DashMap<String, ActionEntry>, k: &str) -> (r: bool)
    ensures
        r == action_table(*m).contains_key(k@),
{
    m.contains_key(k)
}

/// Relies on `DashMap::insert`: `v` is stored under `k`, replacing any
/// earlier value.
#[verifier::external_body]
pub(crate) fn actions_insert(m: &mut DashMap<String, ActionEntry>, k: String, v: ActionEntry)
    ensures
        action_table(*final(m)) == action_table(*old(m)).insert(k@, v),
{
    m.insert(k, v);
}

/// Relies on `DashMap::remove`: nothing is stored under `k` afterwards.
#[verifier::external_body]
pub(crate) fn actions_remove(m: &mut DashMap<String, ActionEntry>, k: &str)
    ensures
        action_table(*final(m)) == action_table(*old(m)).remove(k@),
{
    m.remove(k);
}

/// The update logs by user key that a map holds.
pub uninterp spec fn update_table(m: DashMap<String, Vec<UserUpdates>>) -> Map<Seq<char>, Vec<UserUpdates>>;

/// Relies on `DashMap::new`: an empty map.
#[verifier::external_body]
pub(crate) fn logs_new() -> (r: DashMap<String, Vec<UserUpdates>>)
    ensures
        update_table(r).is_empty(),
{
    DashMap::new()
}

/// Relies on `DashMap::get`: a copy of the value stored under `k`, if any.
#[verifier::external_body]
pub(crate) fn logs_get(m: &DashMap<String, Vec<UserUpdates>>, k: &str) -> (r: Option<Vec<UserUpdates>>)
    ensures
        match r {
            Some(v) => update_table(*m).contains_key(k@) && v == update_table(*m)[k@],
            None => !update_table(*m).contains_key(k@),
        },
{
    m.get(k).map(|e| e.value().clone())
}

/// Relies on `DashMap::insert`: `v` is stored under `k`, replacing any
/// earlier value.
#[verifier::external_body]
pub(crate) fn logs_insert(m: &mut DashMap<String, Vec<UserUpdates>>, k: String, v: Vec<UserUpdates>)
    ensures
        update_table(*final(m)) == update_table(*old(m)).insert(k@, v),
{
    m.insert(k, v);
}

/// The live subscriptions by id that a map holds.
pub uninterp spec fn subscription_table(m: DashMap<String, SubscriptionType>) -> Map<Seq<char>, SubscriptionType>;

/// Relies on `DashMap::new`: an empty map.
#[verifier::external_body]
pub(crate) fn live_new() -> (r: DashMap<String, SubscriptionType>)
    ensures
        subscription_table(r).is_empty(),
{
    DashMap::new()
}

/// Relies on `DashMap::get`: a copy of the value stored under `k`, if any.
#[verifier::external_body]
pub(crate) fn live_get(m: &DashMap<String, SubscriptionType>, k: &str) -> (r: Option<SubscriptionType>)
    ensures
        match r {
            Some(v) => subscription_table(*m).contains_key(k@) && v == subscription_table(*m)[k@],
            None => !subscription_table(*m).contains_key(k@),
        },
{
    m.get(k).map(|e| e.value().clone())
}

/// Relies on `DashMap::contains_key`.
#[verifier::external_body]
pub(crate) fn live_contains(m: &DashMap<String, SubscriptionType>, k: &str) -> (r: bool)
    ensures
        r == subscription_table(*m).contains_key(k@),
{
    m.contains_key(k)
}

/// Relies on `DashMap::insert`: `v` is stored under `k`, replacing any
/// earlier value.
#[verifier::external_body]
pub(crate) fn live_insert(m: &mut DashMap<String, SubscriptionType>, k: String, v: SubscriptionType)
    ensures
        subscription_table(*final(m)) == subscription_table(*old(m)).insert(k@, v),
{
    m.insert(k, v);
}

/// Relies on `DashMap::remove`: nothing is stored under `k` afterwards.
#[verifier::external_body]
pub(crate) fn live_remove(m: &mut DashMap<String, SubscriptionType>, k: &str)
    ensures
        subscription_table(*final(m)) == subscription_table(*old(m)).remove(k@),
{
    m.remove(k);
}

/// The subscription ids by user key that a map holds.
pub uninterp spec fn id_table(m: DashMap<String, Vec<String>>) -> Map<Seq<char>, Vec<String>>;

/// Relies on `DashMap::new`: an empty map.
#[verifier::external_body]
pub(crate) fn ids_new() -> (r: DashMap<String, Vec<String>>)
    ensures
        id_table(r).is_empty(),
{
    DashMap::new()
}

/// Relies on `DashMap::get`: a copy of the value stored under `k`, if any.
#[verifier::external_body]
pub(crate) fn ids_get(m: &DashMap<String, Vec<String>>, k: &str) -> (r: Option<Vec<String>>)
    ensures
        match r {
            Some(v) => id_table(*m).contains_key(k@) && v == id_table(*m)[k@],
            None => !id_table(*m).contains_key(k@),
        },
{
    m.get(k).map(|e| e.value().clone())
}

/// Relies on `DashMap::insert`: `v` is stored under `k`, replacing any
/// earlier value.
#[verifier::external_body]
pub(crate) fn ids_insert(m: &mut DashMap<String, Vec<String>>, k: String, v: Vec<String>)
    ensures
        id_table(*final(m)) == id_table(*old(m)).insert(k@, v),
{
    m.insert(k, v);
}

} // verus!
