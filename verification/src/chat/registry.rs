//! The registry of a server's connections: each connection's number and
//! the name it goes by, held in a `dashmap` map. A read of the map gives
//! what it holds while no other thread changes it; the server keeps the
//! registry behind a lock.
use vstd::prelude::*;
use dashmap::DashMap;
use super::binary::{default_username, default_username_text};

verus! {

/// What a map of names holds: each connection number's name.
pub uninterp spec fn name_entries(m: DashMap<u64, String>) -> Map<u64, Seq<char>>;

/// `DashMap::with_capacity_and_shard_amount`, with room for 100,000
/// connections in 256 shards: a map that holds no names.
#[verifier::external_body]
fn no_names() -> (r: DashMap<u64, String>)
    ensures
        name_entries(r).dom() == Set::<u64>::empty(),
{
    DashMap::with_capacity_and_shard_amount(100_000, 256)
}

/// `DashMap::insert` of a name: the number now goes by it, and the name it
/// went by before comes back, where it had one.
#[verifier::external_body]
fn put_name(m: &mut DashMap<u64, String>, id: u64, name: String) -> (r: Option<String>)
    ensures
        name_entries(*final(m)) == name_entries(*old(m)).insert(id, name@),
        r is Some <==> name_entries(*old(m)).contains_key(id),
        r matches Some(n) ==> n@ == name_entries(*old(m))[id],
{
    m.insert(id, name)
}

/// `DashMap::remove` of a number: the name it went by, taken out of the
/// map, where it had one.
#[verifier::external_body]
fn take_name(m: &mut DashMap<u64, String>, id: u64) -> (r: Option<String>)
    ensures
        name_entries(*final(m)) == name_entries(*old(m)).remove(id),
        r is Some <==> name_entries(*old(m)).contains_key(id),
        r matches Some(n) ==> n@ == name_entries(*old(m))[id],
{
    m.remove(&id).map(|(_, n)| n)
}

/// `DashMap::get` of a number: a copy of the name it goes by, where it has
/// one.
#[verifier::external_body]
fn name_of(m: &DashMap<u64, String>, id: u64) -> (r: Option<String>)
    ensures
        r is Some <==> name_entries(*m).contains_key(id),
        r matches Some(n) ==> n@ == name_entries(*m)[id],
{
    m.get(&id).map(|n| n.value().clone())
}

/// `DashMap::len`: the number of names the map holds.
#[verifier::external_body]
fn name_count(m: &DashMap<u64, String>) -> (r: usize)
    ensures
        r == name_entries(*m).len(),
{
    m.len()
}

/// The open connections, by number, with their names; and the number the
/// next connection gets.
#[derive(Debug)]
pub struct ConnectionRegistry {
    pub names: DashMap<u64, String>,
    pub next_id: u64,
}

impl ConnectionRegistry {
    /// The names of the open connections, by number.
    pub open spec fn entries(&self) -> Map<u64, Seq<char>> {
        name_entries(self.names)
    }

    /// No connections; numbering starts at 1.
    pub fn new() -> (r: ConnectionRegistry)
        ensures
            r.entries() == Map::<u64, Seq<char>>::empty(),
            r.next_id == 1,
    {
        let r = ConnectionRegistry { names: no_names(), next_id: 1 };
        proof { assert(r.entries() =~= Map::<u64, Seq<char>>::empty()); }
        r
    }

    /// Registers a connection: it gets the next number (counting on with
    /// wrap-around) and the default name for that number.
    pub fn register(&mut self) -> (id: u64)
        ensures
            id == old(self).next_id,
            final(self).next_id == (if old(self).next_id == u64::MAX { 0 } else { old(self).next_id + 1 }),
            final(self).entries().dom() == old(self).entries().dom().insert(id),
            final(self).entries()[id] == default_username_text(id),
            forall|k: u64| k != id && #[trigger] old(self).entries().contains_key(k)
                ==> final(self).entries()[k] == old(self).entries()[k],
    {
        let id = self.next_id;
        self.next_id = self.next_id.wrapping_add(1);
        let _ = put_name(&mut self.names, id, default_username(id));
        proof {
            assert(self.entries().dom() =~= old(self).entries().dom().insert(id));
        }
        id
    }

    /// Unregisters a connection, giving back the name it went by; none for
    /// a number that is not registered.
    pub fn unregister(&mut self, id: u64) -> (r: Option<String>)
        ensures
            final(self).entries() == old(self).entries().remove(id),
            final(self).next_id == old(self).next_id,
            r is Some <==> old(self).entries().contains_key(id),
            r matches Some(n) ==> n@ == old(self).entries()[id],
    {
        take_name(&mut self.names, id)
    }

    /// The name a connection goes by.
    pub fn get_username(&self, id: u64) -> (r: Option<String>)
        ensures
            r is Some <==> self.entries().contains_key(id),
            r matches Some(n) ==> n@ == self.entries()[id],
    {
        name_of(&self.names, id)
    }

    /// Renames a registered connection, giving back its former name; an
    /// unknown number changes nothing.
    pub fn set_username(&mut self, id: u64, name: String) -> (r: Option<String>)
        ensures
            final(self).next_id == old(self).next_id,
            r is Some <==> old(self).entries().contains_key(id),
            r matches Some(n) ==> n@ == old(self).entries()[id]
                && final(self).entries() == old(self).entries().insert(id, name@),
            r is None ==> final(self).entries() == old(self).entries(),
    {
        if name_of(&self.names, id).is_some() {
            put_name(&mut self.names, id, name)
        } else {
            None
        }
    }

    /// The number of open connections.
    pub fn count(&self) -> (r: usize)
        ensures
            r == self.entries().len(),
    {
        name_count(&self.names)
    }
}

} // verus!
