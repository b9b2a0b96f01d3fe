//! A keyed store: a mapping from a record's own key to the record.
//!
//! The store owns its records. Exclusive access for the operations that
//! change it is asked of the caller through `&mut self`, so every call is one
//! indivisible step on the mapping; nothing is promised about a sequence of
//! calls taken together beyond what each call states.

use std::collections::hash_map::Iter;
use std::collections::HashMap;
use std::hash::Hash;
use vstd::prelude::*;
use vstd::std_specs::hash::obeys_key_model;
use vstd::std_specs::iter::IteratorSpec;

verus! {

broadcast use vstd::std_specs::hash::group_hash_axioms;

/// A record that knows the key it is stored under.
pub trait StoreKey {
    type Key: Hash + Eq;

    /// The key of this record, as a mathematical value.
    spec fn spec_key(&self) -> Self::Key;

    /// The key of this record.
    fn key(&self) -> (k: Self::Key)
        ensures
            k == self.spec_key(),
    ;
}

/// A mapping from keys to records.
///
/// Its view is the mathematical map it holds. A record is filed under the key
/// it reports when it is inserted; `modify` hands out the record in place and
/// does not file it anew, so a caller that changes a record's key through
/// `modify` leaves it under the old one.
pub struct Storage<K, D> {
    data: HashMap<K, D>,
}

impl<K: Hash + Eq, D: StoreKey<Key = K>> Storage<K, D> {
    /// The map from keys to records that the store holds.
    pub closed spec fn view(&self) -> Map<K, D> {
        self.data@
    }

    /// An empty store.
    pub fn new() -> (s: Self)
        ensures
            s@ == Map::<K, D>::empty(),
    {
        Storage { data: HashMap::new() }
    }

    /// Hands `f` the record under `id`, or `None` where there is none, and
    /// returns what `f` returns. The store is not changed.
    pub fn read<F, R>(&self, id: K, f: F) -> (r: R) where F: FnOnce(Option<&D>) -> R
        requires
            obeys_key_model::<K>(),
            self@.contains_key(id) ==> f.requires((Some(&self@[id]),)),
            !self@.contains_key(id) ==> f.requires((None,)),
        ensures
            self@.contains_key(id) ==> f.ensures((Some(&self@[id]),), r),
            !self@.contains_key(id) ==> f.ensures((None,), r),
    {
        f(self.data.get(&id))
    }

    /// Hands `f` a walk over the whole store, and returns what `f` returns.
    /// The walk meets every pair of key and record exactly once, in an order
    /// that is not fixed.
    pub fn reads<F, R>(&self, f: F) -> (r: R) where F: FnOnce(Iter<K, D>) -> R
        requires
            obeys_key_model::<K>(),
            forall|it: Iter<K, D>|
                it.remaining().no_duplicates() && it.remaining().unref().to_set()
                    == self@.kv_pairs() && IteratorSpec::decrease(&it) is Some
                    && IteratorSpec::initial_value_relation(&it, &it) ==> f.requires((it,)),
        ensures
            exists|it: Iter<K, D>|
                it.remaining().no_duplicates() && it.remaining().unref().to_set()
                    == self@.kv_pairs() && #[trigger] f.ensures((it,), r),
    {
        let it = self.data.iter();
        f(it)
    }

    /// Files `item` under its own key, over any record that was there.
    /// Returns whether a record was there before.
    pub fn insert(&mut self, item: D) -> (existed: bool)
        requires
            obeys_key_model::<K>(),
        ensures
            final(self)@ == old(self)@.insert(item.spec_key(), item),
            existed == old(self)@.contains_key(item.spec_key()),
    {
        let k = item.key();
        let prior = self.data.insert(k, item);
        prior.is_some()
    }

    /// Hands `f` the record under `id` for change in place, or `None` where
    /// there is none, and returns what `f` returns. A missing key is an
    /// ordinary outcome: the store is then left as it was.
    pub fn modify<F, R>(&mut self, id: K, f: F) -> (r: R) where F: FnOnce(Option<&mut D>) -> R
        requires
            obeys_key_model::<K>(),
            !old(self)@.contains_key(id) ==> f.requires((None,)),
            forall|m: &mut D|
                old(self)@.contains_key(id) && *m == old(self)@[id] ==> f.requires((Some(m),)),
        ensures
            !old(self)@.contains_key(id) ==> final(self)@ == old(self)@ && f.ensures((None,), r),
            old(self)@.contains_key(id) ==> exists|m: &mut D|
                *m == old(self)@[id] && #[trigger] f.ensures((Some(m),), r) && final(self)@ == old(
                    self,
                )@.insert(id, *final(m)),
    {
        match self.data.remove(&id) {
            Some(mut d) => {
                let r = f(Some(&mut d));
                self.data.insert(id, d);
                r
            },
            None => f(None),
        }
    }

    /// Whether a record is filed under `id`.
    pub fn contains(&self, id: K) -> (found: bool)
        requires
            obeys_key_model::<K>(),
        ensures
            found == self@.contains_key(id),
    {
        self.data.contains_key(&id)
    }
}

} // verus!
