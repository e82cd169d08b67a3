//! The socket registry: which delivery sink each connected node holds. The
//! table itself is a `dashmap::DashMap`; what is stated of it here is taken
//! on trust from that crate. Every writing operation takes the table by
//! exclusive reference, so that no reference into the table is alive during a
//! call and what the table holds changes only through these operations.

use crate::rotation::NodeKey;
use dashmap::DashMap;
use vstd::prelude::*;

verus! {

#[verifier::external_type_specification]
#[verifier::external_body]
#[verifier::reject_recursive_types(K)]
#[verifier::reject_recursive_types(V)]
#[verifier::reject_recursive_types(S)]
pub struct ExDashMap<K, V, S>(DashMap<K, V, S>);

/// The entries of a socket table: for each registered identity the handle of
/// its sink.
pub uninterp spec fn registered(table: DashMap<(u128, String), u64>) -> Map<NodeKey, u64>;

/// `DashMap::new`: a table without entries.
#[verifier::external_body]
pub(crate) fn table_new() -> (fresh: DashMap<(u128, String), u64>)
    ensures
        registered(fresh) == no_sockets(),
{
    DashMap::new()
}

/// `DashMap::insert`: the key is bound to the new value, every other entry is
/// kept, and the value that the key was bound to before is handed back.
#[verifier::external_body]
pub(crate) fn table_insert(
    table: &mut DashMap<(u128, String), u64>,
    user_id: u128,
    address: String,
    sink: u64,
) -> (previous: Option<u64>)
    ensures
        registered(*final(table)) == registered(*old(table)).insert((user_id, address@), sink),
        previous == lookup(registered(*old(table)), (user_id, address@)),
{
    table.insert((user_id, address), sink)
}

/// `DashMap::remove`: the entry of the key leaves the table, every other
/// entry is kept, and the value that left is handed back.
#[verifier::external_body]
pub(crate) fn table_remove(table: &mut DashMap<(u128, String), u64>, key: &(u128, String)) -> (gone:
    Option<u64>)
    ensures
        registered(*final(table)) == registered(*old(table)).remove((key.0, key.1@)),
        gone == lookup(registered(*old(table)), (key.0, key.1@)),
{
    table.remove(key).map(|entry| entry.1)
}

/// `DashMap::get`: the value that the key is bound to, if it is bound.
#[verifier::external_body]
pub(crate) fn table_get(table: &DashMap<(u128, String), u64>, key: &(u128, String)) -> (sink:
    Option<u64>)
    ensures
        sink == lookup(registered(*table), (key.0, key.1@)),
{
    table.get(key).map(|entry| *entry.value())
}

/// The registry in which nobody is registered.
pub open spec fn no_sockets() -> Map<NodeKey, u64> {
    Map::empty()
}

/// The sink that `sockets` holds for `key`, if any.
pub open spec fn lookup(sockets: Map<NodeKey, u64>, key: NodeKey) -> Option<u64> {
    if sockets.dom().contains(key) {
        Some(sockets[key])
    } else {
        None
    }
}

} // verus!
