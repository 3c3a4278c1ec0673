//! Hash maps and sets keyed by tuples of integers.
//!
//! The hashing is hashbrown's.  A [`KeyedMap`] keeps its values in a vector and asks hashbrown
//! only where in that vector a key's value stands.

use vstd::prelude::*;

verus! {

/// A key: up to six integers.
pub type Key = (u32, u32, u32, u32, u32, u32);

/// What a [`KeyIndex`] maps, and to what.
pub uninterp spec fn key_index_contents(index: KeyIndex) -> Map<(
    u32,
    u32,
    u32,
    u32,
    u32,
    u32,
), usize>;

/// A `hashbrown::HashMap` from keys to positions.
#[verifier::external_body]
#[derive(Debug)]
pub struct KeyIndex {
    map: hashbrown::HashMap<(u32, u32, u32, u32, u32, u32), usize>,
}

pub open spec fn no_keys() -> Map<Key, usize> {
    Map::empty()
}

impl KeyIndex {
    /// `hashbrown::HashMap::new`: the map is empty.
    #[verifier::external_body]
    fn new() -> (index: KeyIndex)
        ensures
            key_index_contents(index) == no_keys(),
    {
        KeyIndex { map: hashbrown::HashMap::new() }
    }

    /// `hashbrown::HashMap::get`: the position filed under `key`, or `None` where the map does
    /// not hold the key.
    #[verifier::external_body]
    fn get(&self, key: Key) -> (position: Option<usize>)
        ensures
            position == (if key_index_contents(*self).contains_key(key) {
                Some(key_index_contents(*self)[key])
            } else {
                None
            }),
    {
        self.map.get(&key).copied()
    }

    /// `hashbrown::HashMap::insert`: the map then holds `position` under `key`, and under every
    /// other key what it held before.
    #[verifier::external_body]
    fn insert(&mut self, key: Key, position: usize)
        ensures
            key_index_contents(*final(self)) == key_index_contents(*old(self)).insert(
                key,
                position,
            ),
    {
        self.map.insert(key, position);
    }
}

/// What a [`FlowIdSet`] holds.
pub uninterp spec fn flow_id_set_contents(set: FlowIdSet) -> Set<u32>;

/// A `hashbrown::HashSet` of flow node numbers.
#[verifier::external_body]
#[derive(Debug)]
pub struct FlowIdSet {
    set: hashbrown::HashSet<u32>,
}

impl FlowIdSet {
    /// `hashbrown::HashSet::new`: the set is empty.
    #[verifier::external_body]
    pub(crate) fn new() -> (set: FlowIdSet)
        ensures
            flow_id_set_contents(set) == Set::<u32>::empty(),
    {
        FlowIdSet { set: hashbrown::HashSet::new() }
    }

    /// `hashbrown::HashSet::insert`: the set then holds `id` too; whether it did not hold it
    /// before is returned.
    #[verifier::external_body]
    pub(crate) fn insert(&mut self, id: u32) -> (added: bool)
        ensures
            flow_id_set_contents(*final(self)) == flow_id_set_contents(*old(self)).insert(id),
            added == !flow_id_set_contents(*old(self)).contains(id),
    {
        self.set.insert(id)
    }
}

/// Writing to the slot of a key changes what the map holds under that key and nothing else.
proof fn lemma_write_to_slot<V>(before: KeyedMap<V>, after: KeyedMap<V>, key: Key, value: V)
    requires
        before.inv(),
        before.positions().contains_key(key),
        after.index == before.index,
        after.slots@ == before.slots@.update(before.positions()[key] as int, value),
    ensures
        after@ == before@.insert(key, value),
{
    assert forall|k: Key| after@.contains_key(k) implies after@[k] == before@.insert(
        key,
        value,
    )[k] by {
        assert(before.positions().contains_key(k));
    }
    assert(after@ =~= before@.insert(key, value));
}

/// A map from keys to values.
#[derive(Debug)]
pub struct KeyedMap<V> {
    index: KeyIndex,
    slots: Vec<V>,
}

impl<V> KeyedMap<V> {
    spec fn positions(self) -> Map<Key, usize> {
        key_index_contents(self.index)
    }

    /// Every key has a slot of its own.
    #[verifier::type_invariant]
    spec fn inv(self) -> bool {
        &&& self.positions().dom().finite()
        &&& self.positions().dom().len() == self.slots@.len()
        &&& forall|k: Key| #[trigger]
            self.positions().contains_key(k) ==> self.positions()[k] < self.slots@.len()
        &&& forall|k: Key, l: Key|
            #![trigger self.positions().contains_key(k), self.positions().contains_key(l)]
            self.positions().contains_key(k) && self.positions().contains_key(l) && k != l
                ==> self.positions()[k] != self.positions()[l]
    }

    /// The map as a mathematical one.
    pub closed spec fn view(self) -> Map<Key, V> {
        Map::new(
            |k: Key| self.positions().contains_key(k),
            |k: Key| self.slots@[self.positions()[k] as int],
        )
    }

    pub fn new() -> (map: KeyedMap<V>)
        ensures
            map@ == Map::<Key, V>::empty(),
    {
        let index = KeyIndex::new();
        assert(key_index_contents(index).dom() =~= Set::empty());
        let map = KeyedMap { index, slots: Vec::new() };
        assert(map@ =~= Map::<Key, V>::empty());
        map
    }

    /// How many keys the map holds.
    pub fn len(&self) -> (len: usize)
        ensures
            self@.dom().finite(),
            len == self@.dom().len(),
    {
        proof {
            use_type_invariant(self);
            assert(self@.dom() =~= self.positions().dom());
        }
        self.slots.len()
    }

    pub fn get(&self, key: Key) -> (value: Option<&V>)
        ensures
            match value {
                Some(v) => self@.contains_key(key) && *v == self@[key],
                None => !self@.contains_key(key),
            },
    {
        proof {
            use_type_invariant(self);
        }
        match self.index.get(key) {
            Some(position) => Some(&self.slots[position]),
            None => None,
        }
    }

    /// The slot of `key`, which gets `default` first where the map does not hold the key.
    pub fn slot(&mut self, key: Key, default: V) -> (slot: &mut V)
        ensures
            *slot == (if old(self)@.contains_key(key) {
                old(self)@[key]
            } else {
                default
            }),
            final(self)@ == old(self)@.insert(key, *final(slot)),
    {
        let position = self.position_of(key, default);
        proof {
            use_type_invariant(&*self);
        }
        let ghost held = *self;
        proof {
            assert(held@.contains_key(key));
            assert(held.slots@[position as int] == held@[key]);
            assert forall|m: KeyedMap<V>, v: V|
                #![trigger m@, old(self)@.insert(key, v)]
                m.index == held.index && m.slots@ == held.slots@.update(
                    position as int,
                    v,
                ) implies m@ == old(self)@.insert(key, v) by {
                lemma_write_to_slot(held, m, key, v);
                assert(held@.insert(key, v) =~= old(self)@.insert(key, v));
            }
        }
        &mut self.slots[position]
    }

    /// Makes sure that the map holds `key` and says where its value stands.
    fn position_of(&mut self, key: Key, default: V) -> (position: usize)
        ensures
            final(self)@ == (if old(self)@.contains_key(key) {
                old(self)@
            } else {
                old(self)@.insert(key, default)
            }),
            final(self).positions().contains_key(key),
            final(self).positions()[key] == position,
    {
        proof {
            use_type_invariant(&*self);
        }
        match self.index.get(key) {
            Some(position) => position,
            None => {
                let mut taken: KeyedMap<V> = KeyedMap::new();
                std::mem::swap(self, &mut taken);
                let KeyedMap { mut index, mut slots } = taken;
                let position: usize = slots.len();
                let ghost before = key_index_contents(index);
                slots.push(default);
                index.insert(key, position);
                assert(key_index_contents(index).dom() =~= before.dom().insert(key));
                *self = KeyedMap { index, slots };
                assert(self@ =~= old(self)@.insert(key, default));
                position
            },
        }
    }

    /// Files `value` under `key`, in place of what stood there.
    pub fn insert(&mut self, key: Key, value: V)
        ensures
            final(self)@ == old(self)@.insert(key, value),
    {
        proof {
            use_type_invariant(&*self);
        }
        let mut taken: KeyedMap<V> = KeyedMap::new();
        std::mem::swap(self, &mut taken);
        let KeyedMap { mut index, mut slots } = taken;
        let ghost before = key_index_contents(index);
        match index.get(key) {
            Some(position) => {
                slots[position] = value;
            },
            None => {
                let position: usize = slots.len();
                slots.push(value);
                index.insert(key, position);
                assert(key_index_contents(index).dom() =~= before.dom().insert(key));
            },
        }
        *self = KeyedMap { index, slots };
        assert(self@ =~= old(self)@.insert(key, value));
    }

    /// Empties the map.
    pub fn clear(&mut self)
        ensures
            final(self)@ == Map::<Key, V>::empty(),
    {
        *self = KeyedMap::new();
    }
}

} // verus!
