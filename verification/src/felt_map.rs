//! Maps and sets keyed by field elements, kept as vectors in rising order of the keys.
use vstd::prelude::*;

use crate::felt::{lemma_felt_is_its_number, Felt};

verus! {

/// A map from field elements to values: the value at each place belongs to the key there.
#[derive(Debug, PartialEq, Eq)]
pub struct FeltMap<V> {
    keys: Vec<Felt>,
    values: Vec<V>,
}

/// The keys rise strictly, so none occurs twice.
spec fn rising(keys: Seq<Felt>) -> bool {
    forall|i: int, j: int| 0 <= i < j < keys.len() ==> (#[trigger] keys[i])@ < (#[trigger] keys[j])@
}

/// The key stands at `i`.
spec fn stands_at(keys: Seq<Felt>, key: Felt, i: int) -> bool {
    0 <= i < keys.len() && keys[i] == key
}

/// The keys below `key` come before `at`, the others from there on.
spec fn belongs_at(keys: Seq<Felt>, key: Felt, at: int) -> bool {
    &&& 0 <= at <= keys.len()
    &&& forall|i: int| 0 <= i < at ==> (#[trigger] keys[i])@ < key@
    &&& forall|i: int| at <= i < keys.len() ==> (#[trigger] keys[i])@ >= key@
}

/// The map that keys and their values stand for.
spec fn as_map<V>(keys: Seq<Felt>, values: Seq<V>) -> Map<Felt, V> {
    Map::new(
        |key: Felt| exists|i: int| stands_at(keys, key, i),
        |key: Felt| values[choose|i: int| stands_at(keys, key, i)],
    )
}

impl<V> View for FeltMap<V> {
    type V = Map<Felt, V>;

    closed spec fn view(&self) -> Map<Felt, V> {
        as_map(self.keys@, self.values@)
    }
}

impl<V> FeltMap<V> {
    #[verifier::type_invariant]
    spec fn in_order(self) -> bool {
        rising(self.keys@) && self.keys@.len() == self.values@.len()
    }

    /// The map without entries.
    pub fn new() -> (r: FeltMap<V>)
        ensures
            r@ == Map::<Felt, V>::empty(),
    {
        let r = FeltMap { keys: Vec::new(), values: Vec::new() };
        assert(r@ =~= Map::<Felt, V>::empty());
        r
    }

    /// The place where the key stands, or would stand, found by bisection.
    fn position(&self, key: &Felt) -> (r: usize)
        ensures
            belongs_at(self.keys@, *key, r as int),
    {
        proof {
            use_type_invariant(self);
        }
        let mut low: usize = 0;
        let mut high: usize = self.keys.len();
        while low < high
            invariant
                low <= high <= self.keys@.len(),
                rising(self.keys@),
                forall|i: int| 0 <= i < low ==> (#[trigger] self.keys@[i])@ < key@,
                forall|i: int| high <= i < self.keys@.len() ==> (#[trigger] self.keys@[i])@ >= key@,
            decreases high - low,
        {
            let middle: usize = low + (high - low) / 2;
            if self.keys[middle].is_below(key) {
                low = middle + 1;
            } else {
                high = middle;
            }
        }
        low
    }

    /// Whether the map has an entry under the key.
    pub fn contains_key(&self, key: &Felt) -> (r: bool)
        ensures
            r == self@.contains_key(*key),
    {
        self.get(key).is_some()
    }

    /// The value under the key, if there is one.
    pub fn get(&self, key: &Felt) -> (r: Option<&V>)
        ensures
            match r {
                Some(value) => self@.contains_key(*key) && self@[*key] == *value,
                None => !self@.contains_key(*key),
            },
    {
        proof {
            use_type_invariant(self);
        }
        let at: usize = self.position(key);
        if at < self.keys.len() && self.keys[at] == *key {
            proof {
                lemma_entry(self.keys@, self.values@, at as int);
            }
            Some(&self.values[at])
        } else {
            proof {
                lemma_absent(self.keys@, self.values@, *key, at as int);
            }
            None
        }
    }

    /// The value under the key, to be changed, if there is one.
    pub fn get_mut(&mut self, key: &Felt) -> (r: Option<&mut V>)
        ensures
            match r {
                Some(value) => old(self)@.contains_key(*key) && old(self)@[*key] == *value
                    && final(self)@ == old(self)@.insert(*key, *final(value)),
                None => !old(self)@.contains_key(*key) && final(self)@ == old(self)@,
            },
    {
        proof {
            use_type_invariant(&*self);
        }
        let at: usize = self.position(key);
        if at < self.keys.len() && self.keys[at] == *key {
            let ghost keys = self.keys@;
            let ghost values = self.values@;
            let value = &mut self.values[at];
            proof {
                lemma_entry(keys, values, at as int);
                lemma_replaced(keys, values, *final(value), at as int);
            }
            Some(value)
        } else {
            proof {
                lemma_absent(self.keys@, self.values@, *key, at as int);
            }
            None
        }
    }

    /// Puts the value under the key, in place of what was there.
    pub fn insert(&mut self, key: Felt, value: V)
        ensures
            final(self)@ == old(self)@.insert(key, value),
    {
        proof {
            use_type_invariant(&*self);
        }
        let ghost keys = self.keys@;
        let ghost values = self.values@;
        let at: usize = self.position(&key);
        if at < self.keys.len() && self.keys[at] == key {
            self.values[at] = value;
            proof {
                lemma_replaced(keys, values, value, at as int);
            }
        } else {
            let mut map: FeltMap<V> = FeltMap::new();
            std::mem::swap(&mut map, self);
            let FeltMap { keys: mut new_keys, values: mut new_values } = map;
            new_keys.insert(at, key);
            new_values.insert(at, value);
            proof {
                lemma_inserted(keys, values, key, value, at as int);
            }
            *self = FeltMap { keys: new_keys, values: new_values };
        }
    }

    /// Takes the value under the key out of the map, if there is one.
    pub fn remove(&mut self, key: &Felt) -> (r: Option<V>)
        ensures
            final(self)@ == old(self)@.remove(*key),
            match r {
                Some(value) => old(self)@.contains_key(*key) && old(self)@[*key] == value,
                None => !old(self)@.contains_key(*key),
            },
    {
        proof {
            use_type_invariant(&*self);
        }
        let ghost keys = self.keys@;
        let ghost values = self.values@;
        let at: usize = self.position(key);
        if at < self.keys.len() && self.keys[at] == *key {
            let mut map: FeltMap<V> = FeltMap::new();
            std::mem::swap(&mut map, self);
            let FeltMap { keys: mut new_keys, values: mut new_values } = map;
            new_keys.remove(at);
            let value: V = new_values.remove(at);
            proof {
                lemma_entry(keys, values, at as int);
                lemma_removed(keys, values, at as int);
            }
            *self = FeltMap { keys: new_keys, values: new_values };
            Some(value)
        } else {
            proof {
                lemma_absent(keys, values, *key, at as int);
                assert(as_map(keys, values) =~= as_map(keys, values).remove(*key));
            }
            None
        }
    }
}

/// A set of field elements.
#[derive(Debug, PartialEq, Eq)]
pub struct FeltSet {
    members: FeltMap<()>,
}

impl View for FeltSet {
    type V = Set<Felt>;

    closed spec fn view(&self) -> Set<Felt> {
        self.members@.dom()
    }
}

impl FeltSet {
    /// The set without members.
    pub fn new() -> (r: FeltSet)
        ensures
            r@ == Set::<Felt>::empty(),
    {
        let r = FeltSet { members: FeltMap::new() };
        assert(r@ =~= Set::<Felt>::empty());
        r
    }

    /// The set with one member.
    pub fn singleton(member: Felt) -> (r: FeltSet)
        ensures
            r@ == set![member],
    {
        let mut r = FeltSet::new();
        r.insert(member);
        r
    }

    /// Whether the element is a member.
    pub fn contains(&self, member: &Felt) -> (r: bool)
        ensures
            r == self@.contains(*member),
    {
        self.members.contains_key(member)
    }

    /// Makes the element a member.
    pub fn insert(&mut self, member: Felt)
        ensures
            final(self)@ == old(self)@.insert(member),
    {
        self.members.insert(member, ());
        assert(self@ =~= old(self)@.insert(member));
    }

    /// Makes the element a non-member.
    pub fn remove(&mut self, member: &Felt)
        ensures
            final(self)@ == old(self)@.remove(*member),
    {
        self.members.remove(member);
        assert(self@ =~= old(self)@.remove(*member));
    }
}

/// Where the keys rise, the map holds under each key the value at its place.
proof fn lemma_entry<V>(keys: Seq<Felt>, values: Seq<V>, i: int)
    requires
        rising(keys),
        0 <= i < keys.len(),
    ensures
        as_map(keys, values).contains_key(keys[i]),
        as_map(keys, values)[keys[i]] == values[i],
{
    assert(stands_at(keys, keys[i], i));
    let j = choose|j: int| stands_at(keys, keys[i], j);
    assert(j == i);
}

/// A key that does not stand where it belongs is not in the map.
proof fn lemma_absent<V>(keys: Seq<Felt>, values: Seq<V>, key: Felt, at: int)
    requires
        rising(keys),
        belongs_at(keys, key, at),
        at < keys.len() ==> keys[at] != key,
    ensures
        !as_map(keys, values).contains_key(key),
{
    if as_map(keys, values).contains_key(key) {
        let i = choose|i: int| stands_at(keys, key, i);
        assert(keys[i]@ == key@);
        lemma_felt_is_its_number(keys[at], key);
    }
}

/// Another value in one place is `Map::insert` under the key there.
proof fn lemma_replaced<V>(keys: Seq<Felt>, values: Seq<V>, value: V, at: int)
    requires
        rising(keys),
        keys.len() == values.len(),
        0 <= at < keys.len(),
    ensures
        as_map(keys, values.update(at, value)) == as_map(keys, values).insert(keys[at], value),
{
    let after = values.update(at, value);
    lemma_entry(keys, values, at);
    assert forall|k: Felt| as_map(keys, after).contains_key(k) implies #[trigger] as_map(
        keys,
        after,
    )[k] == as_map(keys, values).insert(keys[at], value)[k] by {
        let i = choose|i: int| stands_at(keys, k, i);
        lemma_entry(keys, values, i);
        lemma_entry(keys, after, i);
    }
    assert(as_map(keys, after) =~= as_map(keys, values).insert(keys[at], value));
}

/// A new key and its value, where the key belongs, are `Map::insert`.
proof fn lemma_inserted<V>(keys: Seq<Felt>, values: Seq<V>, key: Felt, value: V, at: int)
    requires
        rising(keys),
        keys.len() == values.len(),
        belongs_at(keys, key, at),
        at < keys.len() ==> keys[at] != key,
    ensures
        rising(keys.insert(at, key)),
        as_map(keys.insert(at, key), values.insert(at, value)) == as_map(keys, values).insert(
            key,
            value,
        ),
{
    let new_keys = keys.insert(at, key);
    let before = as_map(keys, values);
    let after = as_map(new_keys, values.insert(at, value));
    if at < keys.len() {
        lemma_felt_is_its_number(keys[at], key);
    }
    assert forall|k: Felt| #[trigger] after.contains_key(k) == before.insert(
        key,
        value,
    ).contains_key(k) by {
        if after.contains_key(k) && k != key {
            let i = choose|i: int| stands_at(new_keys, k, i);
            assert(stands_at(keys, k, if i < at { i } else { i - 1 }));
        }
        if before.contains_key(k) {
            let i = choose|i: int| stands_at(keys, k, i);
            assert(stands_at(new_keys, k, if i < at { i } else { i + 1 }));
        }
        assert(stands_at(new_keys, key, at));
    }
    assert forall|k: Felt| after.contains_key(k) implies #[trigger] after[k] == before.insert(
        key,
        value,
    )[k] by {
        let i = choose|i: int| stands_at(new_keys, k, i);
        lemma_entry(new_keys, values.insert(at, value), i);
        if k == key {
            lemma_entry(new_keys, values.insert(at, value), at);
        } else {
            lemma_entry(keys, values, if i < at { i } else { i - 1 });
        }
    }
    assert(after =~= before.insert(key, value));
}

/// Dropping one place is `Map::remove` of the key there.
proof fn lemma_removed<V>(keys: Seq<Felt>, values: Seq<V>, at: int)
    requires
        rising(keys),
        keys.len() == values.len(),
        0 <= at < keys.len(),
    ensures
        rising(keys.remove(at)),
        as_map(keys.remove(at), values.remove(at)) == as_map(keys, values).remove(keys[at]),
{
    let new_keys = keys.remove(at);
    let before = as_map(keys, values);
    let after = as_map(new_keys, values.remove(at));
    assert forall|k: Felt| #[trigger] after.contains_key(k) == before.remove(
        keys[at],
    ).contains_key(k) by {
        if after.contains_key(k) {
            let i = choose|i: int| stands_at(new_keys, k, i);
            let old_i = if i < at { i } else { i + 1 };
            assert(stands_at(keys, k, old_i));
            assert(keys[old_i]@ != keys[at]@);
        }
        if before.contains_key(k) && k != keys[at] {
            let i = choose|i: int| stands_at(keys, k, i);
            assert(stands_at(new_keys, k, if i < at { i } else { i - 1 }));
        }
    }
    assert forall|k: Felt| after.contains_key(k) implies #[trigger] after[k] == before.remove(
        keys[at],
    )[k] by {
        let i = choose|i: int| stands_at(new_keys, k, i);
        lemma_entry(new_keys, values.remove(at), i);
        lemma_entry(keys, values, if i < at { i } else { i + 1 });
    }
    assert(after =~= before.remove(keys[at]));
}

} // verus!
