//! The concurrent hash map of the `dashmap` crate, as Verus sees it.
use vstd::prelude::*;

verus! {

/// `dashmap::DashMap`, a sharded concurrent hash map; its contents are opaque
/// to Verus and are described by the names that the wrappers speak of.
#[verifier::external_type_specification]
#[verifier::external_body]
#[verifier::reject_recursive_types(K)]
#[verifier::reject_recursive_types(V)]
#[verifier::reject_recursive_types(S)]
pub struct ExDashMap<K, V, S>(dashmap::DashMap<K, V, S>);

} // verus!
