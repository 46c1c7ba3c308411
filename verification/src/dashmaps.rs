//! `dashmap::DashMap`, the concurrent map the game and the chat server keep
//! their shared state in, declared for use in contracts. What a map holds
//! is named where each kind of map is used.
use vstd::prelude::*;
use dashmap::DashMap;

verus! {

#[verifier::external_type_specification]
#[verifier::external_body]
#[verifier::reject_recursive_types(K)]
#[verifier::reject_recursive_types(V)]
#[verifier::reject_recursive_types(S)]
pub struct ExDashMap<K, V, S>(DashMap<K, V, S>);

} // verus!
