//! # Type map
//!
//! A map from types, identified by their `TypeId`, to values of one type.
use vstd::prelude::*;
use core::any::TypeId;

verus! {

#[verifier::external_type_specification]
#[verifier::external_body]
pub struct ExTypeId(core::any::TypeId);

/// `TypeId::of::<K>()`: the identifier of the type `K`. Nothing is stated of
/// which identifier it is.
#[verifier::external_body]
fn type_id_of<K: ?Sized + 'static>() -> TypeId {
    TypeId::of::<K>()
}

/// `==` on two `TypeId`s, which compares the identifiers themselves: it
/// holds exactly when they are the same value.
#[verifier::external_body]
fn same_type_id(a: &TypeId, b: &TypeId) -> (r: bool)
    ensures
        r == (*a == *b),
    no_unwind
{
    *a == *b
}

/// A map that can store homogenous values for any number of types.
///
/// The entries are kept in two vectors of the same length, keys and values
/// at the same positions: vstd's contracts for `HashMap` hold only for key
/// types whose hashing it models, and `TypeId` is not one of them, so a
/// `HashMap` keyed by `TypeId` would let nothing be proved of the map.
pub struct TypeMap<V> {
    keys: Vec<TypeId>,
    values: Vec<V>,
}

/// The keys of `entries` are distinct.
pub open spec fn keys_distinct<V>(entries: Seq<(TypeId, V)>) -> bool {
    forall|i: int, j: int|
        0 <= i < j < entries.len() ==> (#[trigger] entries[i]).0 != (#[trigger] entries[j]).0
}

/// The map that a list of entries with distinct keys stands for.
pub open spec fn entries_map<V>(entries: Seq<(TypeId, V)>) -> Map<TypeId, V>
    decreases entries.len(),
{
    if entries.len() == 0 {
        Map::empty()
    } else {
        entries_map(entries.drop_last()).insert(entries.last().0, entries.last().1)
    }
}

/// The entries formed by the keys and the values at the same positions.
pub open spec fn zip_entries<V>(keys: Seq<TypeId>, values: Seq<V>) -> Seq<(TypeId, V)> {
    Seq::new(keys.len(), |i: int| (keys[i], values[i]))
}

impl<V> View for TypeMap<V> {
    type V = Map<TypeId, V>;

    closed spec fn view(&self) -> Map<TypeId, V> {
        entries_map(zip_entries(self.keys@, self.values@))
    }
}

impl<V> TypeMap<V> {
    #[verifier::type_invariant]
    spec fn inv(self) -> bool {
        &&& self.keys@.len() == self.values@.len()
        &&& forall|i: int, j: int|
            0 <= i < j < self.keys@.len() ==> (#[trigger] self.keys@[i]) != (#[trigger] self.keys@[j])
    }

    /// The entries of the map, in the order they are kept.
    closed spec fn entries(self) -> Seq<(TypeId, V)> {
        zip_entries(self.keys@, self.values@)
    }

    /// The entries have distinct keys and hold the keys at the same
    /// positions.
    proof fn lemma_entries(self)
        requires
            self.inv(),
        ensures
            keys_distinct(self.entries()),
            self.entries().len() == self.keys@.len(),
            forall|i: int| 0 <= i < self.keys@.len() ==> #[trigger] self.entries()[i] == (self.keys@[i], self.values@[i]),
    {
        assert forall|i: int, j: int| 0 <= i < j < self.entries().len() implies (#[trigger] self.entries()[i]).0 != (
        #[trigger] self.entries()[j]).0 by {
            assert(self.keys@[i] != self.keys@[j]);
        }
    }

    /// Create an empty type map.
    pub fn new() -> (m: Self)
        ensures
            m@ == Map::<TypeId, V>::empty(),
    {
        let m = TypeMap { keys: Vec::new(), values: Vec::new() };
        assert(zip_entries(m.keys@, m.values@) =~= Seq::<(TypeId, V)>::empty());
        m
    }

    /// Clear all values from this map.
    pub fn clear(&mut self)
        ensures
            final(self)@ == Map::<TypeId, V>::empty(),
    {
        *self = TypeMap::new();
    }

    /// Clear the map, returning all identifier-value pairs.
    pub fn drain(&mut self) -> (pairs: Vec<(TypeId, V)>)
        ensures
            final(self)@ == Map::<TypeId, V>::empty(),
            keys_distinct(pairs@),
            entries_map(pairs@) == old(self)@,
            pairs@.len() == old(self)@.len(),
    {
        let mut taken: TypeMap<V> = TypeMap::new();
        core::mem::swap(self, &mut taken);
        proof {
            use_type_invariant(&taken);
            taken.lemma_entries();
            lemma_entries_map_len(taken.entries());
        }
        let ghost all = taken.entries();
        let TypeMap { mut keys, mut values } = taken;
        let mut pairs: Vec<(TypeId, V)> = Vec::new();
        while keys.len() > 0
            invariant
                keys@.len() == values@.len(),
                keys@.len() + pairs@.len() == all.len(),
                zip_entries(keys@, values@) == all.take(keys@.len() as int),
                pairs@ == all.skip(keys@.len() as int),
            decreases keys@.len(),
        {
            let ghost n = keys@.len();
            let ghost old_keys = keys@;
            let ghost old_values = values@;
            let k = keys.pop().unwrap();
            let v = values.pop().unwrap();
            let ghost before = pairs@;
            pairs.insert(0, (k, v));
            proof {
                assert(all.take(n as int)[n - 1] == zip_entries(old_keys, old_values)[n - 1]);
                assert(all[n - 1] == (k, v));
                assert(pairs@ =~= all.skip(n - 1));
                assert(zip_entries(keys@, values@) =~= all.take(n - 1));
            }
        }
        assert(pairs@ =~= all);
        pairs
    }

    /// The position of `id` among the keys.
    fn position(&self, id: &TypeId) -> (r: Option<usize>)
        ensures
            match r {
                Some(i) => i < self.keys@.len() && self.keys@[i as int] == *id,
                None => forall|i: int| 0 <= i < self.keys@.len() ==> self.keys@[i] != *id,
            },
        no_unwind
    {
        let n = self.keys.len();
        let mut i: usize = 0;
        while i < n
            invariant
                n == self.keys@.len(),
                i <= n,
                forall|k: int| 0 <= k < i ==> self.keys@[k] != *id,
            decreases n - i,
        {
            if same_type_id(&self.keys[i], id) {
                return Some(i);
            }
            i += 1;
        }
        None
    }

    /// Whether the type identified by `id` has a value stored in this map.
    pub fn has_id(&self, id: TypeId) -> (b: bool)
        ensures
            b == self@.contains_key(id),
    {
        proof {
            use_type_invariant(self);
            self.lemma_entries();
            lemma_entries_map_lookup(self.entries(), id);
        }
        let found = self.position(&id);
        if let Some(i) = found {
            assert(self.entries()[i as int].0 == id);
        }
        found.is_some()
    }

    /// Insert the value associated with the type identified by `id`,
    /// replacing the one it had.
    pub fn insert_for_id(&mut self, id: TypeId, value: V)
        ensures
            final(self)@ == old(self)@.insert(id, value),
    {
        proof {
            use_type_invariant(&*self);
            self.lemma_entries();
        }
        let found = self.position(&id);
        let ghost before = self.entries();
        let mut taken: TypeMap<V> = TypeMap::new();
        core::mem::swap(self, &mut taken);
        let TypeMap { mut keys, mut values } = taken;
        match found {
            Some(i) => {
                values.set(i, value);
                proof {
                    assert(zip_entries(keys@, values@) =~= before.update(i as int, (id, value)));
                    lemma_entries_map_update(before, i as int, id, value);
                }
            },
            None => {
                keys.push(id);
                values.push(value);
                proof {
                    let after = zip_entries(keys@, values@);
                    assert(after.drop_last() =~= before);
                    assert(after =~= before.push((id, value)));
                }
            },
        }
        *self = TypeMap { keys, values };
    }

    /// Get the value associated with the type identified by `id`, if any.
    pub fn get_for_id(&self, id: TypeId) -> (r: Option<&V>)
        ensures
            r is Some <==> self@.contains_key(id),
            r matches Some(v) ==> *v == self@[id],
    {
        proof {
            use_type_invariant(self);
            self.lemma_entries();
            lemma_entries_map_lookup(self.entries(), id);
        }
        match self.position(&id) {
            Some(i) => {
                assert(self.entries()[i as int].0 == id);
                assert(self@[id] == self.entries()[i as int].1);
                Some(&self.values[i])
            },
            None => None,
        }
    }

    /// Get a mutable reference to the value associated with the type
    /// identified by `id`, if any.
    pub fn get_mut_for_id(&mut self, id: TypeId) -> (r: Option<&mut V>)
        ensures
            r is Some <==> old(self)@.contains_key(id),
            r matches Some(v) ==> *v == old(self)@[id] && final(self)@ == old(self)@.insert(id, *final(v)),
            r is None ==> final(self)@ == old(self)@,
        no_unwind
    {
        proof {
            use_type_invariant(&*self);
            self.lemma_entries();
            lemma_entries_map_lookup(self.entries(), id);
        }
        match self.position(&id) {
            Some(i) => {
                let ghost before = self.entries();
                let ghost keys = self.keys@;
                let ghost values = self.values@;
                assert(before[i as int].0 == id);
                assert(self@[id] == before[i as int].1);
                assert forall|x: V| #[trigger] entries_map(zip_entries(keys, values.update(i as int, x)))
                    == entries_map(before).insert(id, x) by {
                    assert(zip_entries(keys, values.update(i as int, x)) =~= before.update(i as int, (id, x)));
                    lemma_entries_map_update(before, i as int, id, x);
                }
                Some(&mut self.values[i])
            },
            None => None,
        }
    }

    /// The entry of the type identified by `id`, for in-place manipulation.
    pub fn entry_for_id(&mut self, id: TypeId) -> (e: TypeMapEntry<'_, V>)
        ensures
            e.id == id,
            *e.map == *old(self),
            *final(self) == *final(e.map),
    {
        TypeMapEntry { map: self, id }
    }

    /// The entry of the type `K`, for in-place manipulation.
    pub fn entry<K: ?Sized + 'static>(&mut self) -> (e: TypeMapEntry<'_, V>)
        ensures
            *e.map == *old(self),
            *final(self) == *final(e.map),
    {
        let id = type_id_of::<K>();
        self.entry_for_id(id)
    }

    /// Whether the type `K` has a value stored in this map: whether the
    /// identifier `TypeId::of::<K>()` has one.
    pub fn has<K: ?Sized + 'static>(&self) -> (b: bool)
        ensures
            exists|id: TypeId| b == self@.contains_key(id),
    {
        let id = type_id_of::<K>();
        self.has_id(id)
    }

    /// Insert the value associated with the type `K`.
    pub fn insert<K: ?Sized + 'static>(&mut self, value: V)
        ensures
            exists|id: TypeId| final(self)@ == old(self)@.insert(id, value),
    {
        let id = type_id_of::<K>();
        self.insert_for_id(id, value)
    }

    /// Get the value associated with the type `K`, if any.
    pub fn get<K: ?Sized + 'static>(&self) -> (r: Option<&V>)
        ensures
            exists|id: TypeId|
                (r is Some <==> self@.contains_key(id)) && (r matches Some(v) ==> *v == self@[id]),
    {
        let id = type_id_of::<K>();
        self.get_for_id(id)
    }

    /// Get a mutable reference to the value associated with the type `K`,
    /// if any.
    pub fn get_mut<K: ?Sized + 'static>(&mut self) -> (r: Option<&mut V>)
        ensures
            exists|id: TypeId| {
                &&& (r is Some <==> old(self)@.contains_key(id))
                &&& (r matches Some(v) ==> *v == old(self)@[id] && final(self)@ == old(self)@.insert(id, *final(v)))
                &&& (r is None ==> final(self)@ == old(self)@)
            },
    {
        let id = type_id_of::<K>();
        self.get_mut_for_id(id)
    }
}

/// The place of one identifier in a [`TypeMap`], filled or not.
pub struct TypeMapEntry<'a, V> {
    pub map: &'a mut TypeMap<V>,
    pub id: TypeId,
}

impl<'a, V> TypeMapEntry<'a, V> {
    /// The identifier of this entry.
    pub fn key(&self) -> (k: &TypeId)
        ensures
            *k == self.id,
    {
        &self.id
    }

    /// The value of this entry, after storing `default` in it if it had
    /// none.
    pub fn or_insert(self, default: V) -> (r: &'a mut V)
        ensures
            *r == if (*old(self.map))@.contains_key(self.id) {
                (*old(self.map))@[self.id]
            } else {
                default
            },
            (*final(self.map))@ == (*old(self.map))@.insert(self.id, *final(r)),
    {
        let TypeMapEntry { map, id } = self;
        if !map.has_id(id) {
            map.insert_for_id(id, default);
        }
        map.get_mut_for_id(id).unwrap()
    }

    /// The value of this entry, after storing the value `f` gives in it if
    /// it had none (`f` is called only then).
    pub fn or_insert_with<F: FnOnce() -> V>(self, f: F) -> (r: &'a mut V)
        requires
            !(*old(self.map))@.contains_key(self.id) ==> f.requires(()),
        ensures
            (*old(self.map))@.contains_key(self.id) ==> *r == (*old(self.map))@[self.id],
            !(*old(self.map))@.contains_key(self.id) ==> f.ensures((), *r),
            (*final(self.map))@ == (*old(self.map))@.insert(self.id, *final(r)),
    {
        let TypeMapEntry { map, id } = self;
        if !map.has_id(id) {
            map.insert_for_id(id, f());
        }
        map.get_mut_for_id(id).unwrap()
    }

    /// The value of this entry, after storing the default value of `V` in
    /// it if it had none.
    pub fn or_default(self) -> (r: &'a mut V) where V: Default
        ensures
            (*old(self.map))@.contains_key(self.id) ==> *r == (*old(self.map))@[self.id],
            (*final(self.map))@ == (*old(self.map))@.insert(self.id, *final(r)),
    {
        let TypeMapEntry { map, id } = self;
        if !map.has_id(id) {
            map.insert_for_id(id, V::default());
        }
        map.get_mut_for_id(id).unwrap()
    }
}

/// The value a list of entries with distinct keys holds for `id` is the one
/// of the entry with that key.
proof fn lemma_entries_map_lookup<V>(entries: Seq<(TypeId, V)>, id: TypeId)
    requires
        keys_distinct(entries),
    ensures
        entries_map(entries).contains_key(id) <==> exists|i: int|
            0 <= i < entries.len() && entries[i].0 == id,
        forall|i: int|
            0 <= i < entries.len() && entries[i].0 == id ==> entries_map(entries)[id] == #[trigger] entries[i].1,
    decreases entries.len(),
{
    if entries.len() > 0 {
        let rest = entries.drop_last();
        lemma_entries_map_lookup(rest, id);
        assert forall|i: int| 0 <= i < rest.len() && rest[i].0 == id implies entries[i].0 == id by {}
        if exists|i: int| 0 <= i < entries.len() && entries[i].0 == id {
            let i = choose|i: int| 0 <= i < entries.len() && entries[i].0 == id;
            if i < rest.len() {
                assert(rest[i].0 == id);
            }
        }
    }
}

/// Replacing the value of the entry at `i` replaces the value of its key.
proof fn lemma_entries_map_update<V>(entries: Seq<(TypeId, V)>, i: int, id: TypeId, value: V)
    requires
        keys_distinct(entries),
        0 <= i < entries.len(),
        entries[i].0 == id,
    ensures
        keys_distinct(entries.update(i, (id, value))),
        entries_map(entries.update(i, (id, value))) == entries_map(entries).insert(id, value),
    decreases entries.len(),
{
    let after = entries.update(i, (id, value));
    if i == entries.len() - 1 {
        assert(after.drop_last() =~= entries.drop_last());
    } else {
        lemma_entries_map_update(entries.drop_last(), i, id, value);
        assert(after.drop_last() =~= entries.drop_last().update(i, (id, value)));
        assert(entries.last().0 != id);
        assert(entries_map(after) =~= entries_map(entries).insert(id, value));
    }
}

/// A list of entries with distinct keys stands for a map with as many keys.
proof fn lemma_entries_map_len<V>(entries: Seq<(TypeId, V)>)
    requires
        keys_distinct(entries),
    ensures
        entries_map(entries).dom().finite(),
        entries_map(entries).len() == entries.len(),
    decreases entries.len(),
{
    if entries.len() > 0 {
        let rest = entries.drop_last();
        lemma_entries_map_len(rest);
        lemma_entries_map_lookup(rest, entries.last().0);
        assert(!entries_map(rest).contains_key(entries.last().0));
    }
}

/// What a map gives back after an insert: the inserted value for its type,
/// and for every other type what it held before.
pub proof fn lemma_get_after_insert<V>(before: Map<TypeId, V>, after: Map<TypeId, V>, id: TypeId, value: V, other: TypeId)
    requires
        after == before.insert(id, value),
        other != id,
    ensures
        after.contains_key(id) && after[id] == value,
        after.contains_key(other) == before.contains_key(other),
        before.contains_key(other) ==> after[other] == before[other],
{
}

} // verus!
