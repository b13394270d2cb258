//! The storage-capability contract for components, and the default packed
//! storage that every eligible component type falls back to.
//!
//! A storage holds the instances of one component type, keyed by entity.
//! The contract below describes a storage purely as a map from entity to
//! component value; the engine layers above depend on nothing else.

use vstd::prelude::*;

verus! {

/// The map that a run of entries stands for: each entry binds its entity
/// to its component value, a later entry winning over an earlier one.
pub open spec fn map_of<T>(s: Seq<(u64, T)>) -> Map<u64, T>
    decreases s.len(),
{
    if s.len() == 0 {
        Map::empty()
    } else {
        map_of(s.drop_last()).insert(s.last().0, s.last().1)
    }
}

/// No two entries bind the same entity.
pub open spec fn distinct_keys<T>(s: Seq<(u64, T)>) -> bool {
    forall|i: int, j: int| 0 <= i < j < s.len() ==> (#[trigger] s[i]).0 != (#[trigger] s[j]).0
}

/// An entity has a binding in `map_of(s)` exactly when some entry carries
/// it.
proof fn lemma_map_of_contains<T>(s: Seq<(u64, T)>, k: u64)
    ensures
        map_of(s).contains_key(k) <==> exists|i: int| 0 <= i < s.len() && (#[trigger] s[i]).0 == k,
    decreases s.len(),
{
    if s.len() > 0 {
        lemma_map_of_contains(s.drop_last(), k);
        assert(forall|i: int| 0 <= i < s.len() - 1 ==> s.drop_last()[i] == s[i]);
        if s.last().0 == k {
            assert(s[s.len() - 1].0 == k);
        }
    }
}

/// With distinct keys, the entry that carries an entity decides its value
/// in `map_of(s)`.
proof fn lemma_map_of_value<T>(s: Seq<(u64, T)>, i: int)
    requires
        distinct_keys(s),
        0 <= i < s.len(),
    ensures
        map_of(s).contains_key(s[i].0),
        map_of(s)[s[i].0] == s[i].1,
    decreases s.len(),
{
    if i == s.len() - 1 {
        assert(s.last() == s[i]);
    } else {
        assert(forall|j: int| 0 <= j < s.len() - 1 ==> s.drop_last()[j] == s[j]);
        lemma_map_of_value(s.drop_last(), i);
        assert(s[i].0 != s.last().0);
    }
}

/// With distinct keys, dropping the entry at `i` drops exactly its
/// entity's binding.
proof fn lemma_map_of_remove<T>(s: Seq<(u64, T)>, i: int)
    requires
        distinct_keys(s),
        0 <= i < s.len(),
    ensures
        map_of(s.remove(i)) == map_of(s).remove(s[i].0),
    decreases s.len(),
{
    assert(forall|j: int| 0 <= j < s.len() - 1 ==> s.drop_last()[j] == s[j]);
    if i == s.len() - 1 {
        assert(s.remove(i) =~= s.drop_last());
        lemma_map_of_contains(s.drop_last(), s[i].0);
        assert(map_of(s.drop_last()).remove(s[i].0) =~= map_of(s.drop_last()));
        assert(map_of(s).remove(s[i].0) =~= map_of(s.drop_last()));
    } else {
        let d = s.drop_last();
        lemma_map_of_remove(d, i);
        assert(s.remove(i).drop_last() =~= d.remove(i));
        assert(s.remove(i).last() == s.last());
        assert(map_of(s.remove(i)) == map_of(d.remove(i)).insert(s.last().0, s.last().1));
        assert(s[i].0 != s.last().0);
        assert(map_of(d).remove(s[i].0).insert(s.last().0, s.last().1) =~= map_of(d).insert(
            s.last().0,
            s.last().1,
        ).remove(s[i].0));
    }
}

/// The storage-capability contract: a type that can hold, look up, insert
/// and remove instances of the component type `T`, keyed by entity. The
/// rest of the engine depends only on there being exactly one such type
/// per component type, never on its internals.
pub trait ComponentStorage<T>: Sized {
    /// What the storage holds: each entity's component, keyed by entity.
    spec fn contents(&self) -> Map<u64, T>;

    /// A storage holding no components.
    fn empty() -> (s: Self)
        ensures
            s.contents() == Map::<u64, T>::empty(),
    ;

    /// The component held for `entity`, if any.
    fn get(&self, entity: u64) -> (r: Option<&T>)
        ensures
            match r {
                Some(v) => self.contents().contains_key(entity) && *v == self.contents()[entity],
                None => !self.contents().contains_key(entity),
            },
    ;

    /// Binds `value` to `entity`, replacing whatever was bound before.
    fn insert(&mut self, entity: u64, value: T)
        ensures
            final(self).contents() == old(self).contents().insert(entity, value),
    ;

    /// Unbinds `entity`, handing back the component it held, if any.
    fn remove(&mut self, entity: u64) -> (r: Option<T>)
        ensures
            final(self).contents() == old(self).contents().remove(entity),
            match r {
                Some(v) => old(self).contents().contains_key(entity) && v == old(
                    self,
                ).contents()[entity],
                None => !old(self).contents().contains_key(entity),
            },
    ;
}

/// The default dense storage: every instance of the component packed into
/// one vector beside its entity, with each entity appearing at most once.
pub struct PackedStorage<T> {
    items: Vec<(u64, T)>,
}

impl<T> PackedStorage<T> {
    /// Each entity appears at most once among the packed entries.
    #[verifier::type_invariant]
    spec fn wf(self) -> bool {
        distinct_keys(self.items@)
    }
}

/// The index of the entry carrying `entity`, if one does.
fn position_of<T>(items: &Vec<(u64, T)>, entity: u64) -> (r: Option<usize>)
    ensures
        match r {
            Some(i) => i < items@.len() && items@[i as int].0 == entity,
            None => forall|i: int| 0 <= i < items@.len() ==> (#[trigger] items@[i]).0 != entity,
        },
{
    let mut i: usize = 0;
    while i < items.len()
        invariant
            i <= items@.len(),
            forall|j: int| 0 <= j < i ==> (#[trigger] items@[j]).0 != entity,
        decreases items@.len() - i,
    {
        if items[i].0 == entity {
            return Some(i);
        }
        i = i + 1;
    }
    None
}

impl<T> ComponentStorage<T> for PackedStorage<T> {
    closed spec fn contents(&self) -> Map<u64, T> {
        map_of(self.items@)
    }

    fn empty() -> (s: Self) {
        let s = PackedStorage { items: Vec::new() };
        proof {
            assert(s.contents() =~= Map::<u64, T>::empty());
        }
        s
    }

    fn get(&self, entity: u64) -> (r: Option<&T>) {
        proof {
            use_type_invariant(&*self);
        }
        match position_of(&self.items, entity) {
            Some(i) => {
                proof {
                    lemma_map_of_value(self.items@, i as int);
                }
                Some(&self.items[i].1)
            },
            None => {
                proof {
                    lemma_map_of_contains(self.items@, entity);
                }
                None
            },
        }
    }

    fn insert(&mut self, entity: u64, value: T) {
        let ghost before = self.contents();
        let _replaced = self.remove(entity);
        proof {
            use_type_invariant(&*self);
            lemma_map_of_contains(self.items@, entity);
        }
        let mut items: Vec<(u64, T)> = Vec::new();
        std::mem::swap(&mut items, &mut self.items);
        let ghost unpushed = items@;
        items.push((entity, value));
        proof {
            assert(items@.drop_last() =~= unpushed);
            assert(distinct_keys(items@));
            assert(map_of(items@) =~= before.insert(entity, value));
        }
        self.items = items;
    }

    fn remove(&mut self, entity: u64) -> (r: Option<T>) {
        proof {
            use_type_invariant(&*self);
        }
        match position_of(&self.items, entity) {
            Some(i) => {
                proof {
                    lemma_map_of_value(self.items@, i as int);
                    lemma_map_of_remove(self.items@, i as int);
                }
                let mut items: Vec<(u64, T)> = Vec::new();
                std::mem::swap(&mut items, &mut self.items);
                let ghost unremoved = items@;
                let pair = items.remove(i);
                proof {
                    assert(forall|a: int, b: int|
                        0 <= a < b < items@.len() ==> (#[trigger] items@[a]).0 != (
                        #[trigger] items@[b]).0) by {
                        assert(forall|a: int| 0 <= a < i ==> items@[a] == unremoved[a]);
                        assert(forall|a: int|
                            i <= a < items@.len() ==> items@[a] == unremoved[a + 1]);
                    }
                }
                self.items = items;
                Some(pair.1)
            },
            None => {
                proof {
                    lemma_map_of_contains(self.items@, entity);
                    assert(map_of(self.items@).remove(entity) =~= map_of(self.items@));
                }
                None
            },
        }
    }
}

} // verus!
