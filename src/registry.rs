//! The connection registry: a concurrent map from connection id to
//! connection record.
use crate::model::{Client, ClientView};
use dashmap::DashMap;
use vstd::prelude::*;

verus! {

#[verifier::external_type_specification]
#[verifier::external_body]
#[verifier::reject_recursive_types(K)]
#[verifier::reject_recursive_types(V)]
#[verifier::reject_recursive_types(S)]
pub struct ExDashMap<K, V, S>(DashMap<K, V, S>);

/// The connection registry.
pub type Clients = DashMap<u32, Client>;

/// The records that a connection registry holds, by connection id.
pub uninterp spec fn client_records(m: Clients) -> Map<u32, ClientView>;

/// Relies on `DashMap::new`: the map starts empty.
#[verifier::external_body]
pub(crate) fn registry_new() -> (r: Clients)
    ensures
        client_records(r).dom() == Set::<u32>::empty(),
{
    DashMap::new()
}

/// Relies on `DashMap::insert`: the key maps to the new value afterwards,
/// every other entry is kept.
#[verifier::external_body]
pub(crate) fn registry_insert(m: &mut Clients, k: u32, v: Client)
    ensures
        client_records(*final(m)) == client_records(*old(m)).insert(k, v@),
{
    m.insert(k, v);
}

/// Relies on `DashMap::remove`: the key is absent afterwards, every other
/// entry is kept.
#[verifier::external_body]
pub(crate) fn registry_remove(m: &mut Clients, k: u32)
    ensures
        client_records(*final(m)) == client_records(*old(m)).remove(k),
{
    m.remove(&k);
}

/// Relies on `DashMap::get`: a copy of the value stored under the key.
#[verifier::external_body]
pub(crate) fn registry_get(m: &Clients, k: u32) -> (r: Option<Client>)
    ensures
        match r {
            Some(c) => client_records(*m).contains_key(k) && c@ == client_records(*m)[k],
            None => !client_records(*m).contains_key(k),
        },
{
    m.get(&k).map(|c| c.value().clone())
}

/// Relies on `DashMap::iter`, which visits each entry once, in an order
/// that the map does not promise.
#[verifier::external_body]
pub(crate) fn registry_keys(m: &Clients) -> (r: Vec<u32>)
    ensures
        r@.no_duplicates(),
        r@.to_set() == client_records(*m).dom(),
{
    m.iter().map(|e| *e.key()).collect()
}

} // verus!
