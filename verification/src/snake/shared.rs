//! The game's shared maps, held in `dashmap` maps: the snakes by the key of
//! their connection, the food items by their identifier. A walk over a map
//! lists what it holds only while no other thread changes it; the game
//! walks its maps while it has them to itself.
use vstd::prelude::*;
use dashmap::DashMap;
use super::collision::states;
use super::food::Food;
use super::snake::{Snake, SnakeState};

verus! {

/// What a map of snakes holds: each connection key's snake, by its state.
pub uninterp spec fn snake_entries(m: DashMap<u128, Snake>) -> Map<u128, SnakeState>;

/// What a map of food holds: each identifier's food item.
pub uninterp spec fn food_entries(m: DashMap<u32, Food>) -> Map<u32, Food>;

/// `keys` and `values` list a map's entries in some order: the keys are
/// distinct, each is paired with its value in the map, and every key of
/// the map is listed.
pub open spec fn listed<K, V>(keys: Seq<K>, values: Seq<V>, m: Map<K, V>) -> bool {
    &&& keys.len() == values.len()
    &&& forall|i: int, j: int| 0 <= i < j < keys.len() ==> keys[i] != keys[j]
    &&& forall|i: int| 0 <= i < keys.len() ==> m.contains_key(#[trigger] keys[i]) && m[keys[i]] == values[i]
    &&& forall|k: K| #[trigger] m.contains_key(k) ==> keys.contains(k)
}

/// `DashMap::iter` over the snakes, each entry's key and a clone of its
/// snake collected in the walk's order. Every entry comes once (the map
/// being left alone meanwhile); the order is the one the map's shards
/// give, which the contract leaves open.
#[verifier::external_body]
pub(crate) fn snake_listing(m: &DashMap<u128, Snake>) -> (r: (Vec<u128>, Vec<Snake>))
    ensures
        listed(r.0@, states(r.1@), snake_entries(*m)),
{
    m.iter().map(|e| (*e.key(), e.value().clone())).unzip()
}

/// `DashMap::iter` over the food items, each entry's key and item collected
/// in the walk's order. Every entry comes once (the map being left alone
/// meanwhile); the order is left open.
#[verifier::external_body]
pub(crate) fn food_listing(m: &DashMap<u32, Food>) -> (r: (Vec<u32>, Vec<Food>))
    ensures
        listed(r.0@, r.1@, food_entries(*m)),
{
    m.iter().map(|e| (*e.key(), *e.value())).unzip()
}

/// `DashMap::insert` of a snake: the key now holds it, whatever it held.
#[verifier::external_body]
pub(crate) fn put_snake(m: &mut DashMap<u128, Snake>, key: u128, snake: Snake)
    ensures
        snake_entries(*final(m)) == snake_entries(*old(m)).insert(key, snake@),
{
    m.insert(key, snake);
}

/// `DashMap::insert` of a food item: the key now holds it, whatever it held.
#[verifier::external_body]
pub(crate) fn put_food(m: &mut DashMap<u32, Food>, key: u32, food: Food)
    ensures
        food_entries(*final(m)) == food_entries(*old(m)).insert(key, food),
{
    m.insert(key, food);
}

} // verus!
