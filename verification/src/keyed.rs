//! Tables of records found by name key.
//!
//! A table keeps its records in the order in which they were inserted, and a
//! record is referred to from other records by its position in that order,
//! which never changes. No two records of one table have the same key.

use vstd::prelude::*;
use crate::namekey::{same_key, texts, NameKey};

verus! {

/// No two of the keys are the same key.
pub open spec fn distinct_keys(keys: Seq<Seq<char>>) -> bool {
    forall|i: int, j: int|
        0 <= i < j < keys.len() ==> !same_key(#[trigger] keys[i], #[trigger] keys[j])
}

/// Some key of the sequence is the same key as `q`.
pub open spec fn has_key(keys: Seq<Seq<char>>, q: Seq<char>) -> bool {
    exists|i: int| 0 <= i < keys.len() && same_key(#[trigger] keys[i], q)
}

/// A position at which `q` is found, where [`has_key`] holds. Among distinct
/// keys it is the only one.
pub open spec fn key_position(keys: Seq<Seq<char>>, q: Seq<char>) -> int {
    choose|i: int| 0 <= i < keys.len() && same_key(#[trigger] keys[i], q)
}

/// Among distinct keys a name is found at one position only.
pub proof fn lemma_position_unique(keys: Seq<Seq<char>>, q: Seq<char>, i: int)
    requires
        distinct_keys(keys),
        0 <= i < keys.len(),
        same_key(keys[i], q),
    ensures
        has_key(keys, q),
        key_position(keys, q) == i,
{
    let p = key_position(keys, q);
    if p < i {
        assert(!same_key(keys[p], keys[i]));
    } else if i < p {
        assert(!same_key(keys[i], keys[p]));
    }
}

/// A table that maps name keys to records.
#[derive(Debug)]
pub struct Keyed<T> {
    keys: Vec<NameKey>,
    values: Vec<T>,
}

impl<T> Keyed<T> {
    /// The texts of the keys, in insertion order.
    pub closed spec fn key_seq(&self) -> Seq<Seq<char>> {
        texts(self.keys@)
    }

    /// The records, in insertion order.
    pub closed spec fn value_seq(&self) -> Seq<T> {
        self.values@
    }

    /// The table is well formed: every record has its key, and the keys are
    /// distinct.
    pub open spec fn wf(&self) -> bool {
        &&& self.key_seq().len() == self.value_seq().len()
        &&& distinct_keys(self.key_seq())
    }

    /// The table holds a record under the name `q`.
    pub open spec fn has(&self, q: Seq<char>) -> bool {
        has_key(self.key_seq(), q)
    }

    /// The position of the record named `q`, where there is one.
    pub open spec fn position(&self, q: Seq<char>) -> int {
        key_position(self.key_seq(), q)
    }

    /// A table holds no more records than the machine can count.
    pub proof fn lemma_len_fits(&self)
        ensures
            self.key_seq().len() <= usize::MAX,
            self.value_seq().len() <= usize::MAX,
    {
        assert(self.keys@.len() == self.keys.len());
        assert(self.values@.len() == self.values.len());
    }

    /// A table without records.
    pub fn new() -> (t: Self)
        ensures
            t.wf(),
            t.key_seq().len() == 0,
            t.value_seq().len() == 0,
    {
        Keyed { keys: Vec::new(), values: Vec::new() }
    }

    /// The number of records.
    pub fn len(&self) -> (n: usize)
        ensures
            n == self.value_seq().len(),
    {
        self.values.len()
    }

    /// The position of the record named `key`, if the table has one.
    pub fn find(&self, key: &NameKey) -> (r: Option<usize>)
        requires
            self.wf(),
        ensures
            r is Some <==> self.has(key@),
            r is Some ==> r->0 == self.position(key@) && r->0 < self.value_seq().len(),
    {
        let mut i: usize = 0;
        while i < self.keys.len()
            invariant
                i <= self.keys.len(),
                self.wf(),
                forall|j: int| 0 <= j < i ==> !same_key(#[trigger] self.key_seq()[j], key@),
            decreases self.keys.len() - i,
        {
            if self.keys[i].eq_key(key) {
                proof {
                    assert(self.key_seq()[i as int] == self.keys@[i as int]@);
                    lemma_position_unique(self.key_seq(), key@, i as int);
                }
                return Some(i);
            }
            assert(self.key_seq()[i as int] == self.keys@[i as int]@);
            i += 1;
        }
        None
    }

    /// The record named `key`, if the table has one.
    pub fn get(&self, key: &NameKey) -> (r: Option<&T>)
        requires
            self.wf(),
        ensures
            r is Some <==> self.has(key@),
            r is Some ==> *r->0 == self.value_seq()[self.position(key@)],
    {
        match self.find(key) {
            Some(i) => Some(&self.values[i]),
            None => None,
        }
    }

    /// Puts a record under a key. A record that was there under the same key
    /// is replaced and keeps its position; a new key goes to the end.
    pub fn insert(&mut self, key: NameKey, value: T)
        requires
            old(self).wf(),
        ensures
            final(self).wf(),
            old(self).has(key@) ==> final(self).key_seq() == old(self).key_seq()
                && final(self).value_seq()
                    == old(self).value_seq().update(old(self).position(key@), value),
            !old(self).has(key@) ==> final(self).key_seq() == old(self).key_seq().push(key@)
                && final(self).value_seq() == old(self).value_seq().push(value),
    {
        match self.find(&key) {
            Some(i) => {
                self.values[i] = value;
            },
            None => {
                let ghost before = self.key_seq();
                self.keys.push(key);
                self.values.push(value);
                assert(self.key_seq() =~= before.push(key@));
            },
        }
    }

    /// The record at a position.
    pub fn value(&self, i: usize) -> (r: &T)
        requires
            i < self.value_seq().len(),
        ensures
            *r == self.value_seq()[i as int],
    {
        &self.values[i]
    }

    /// The record at a position, to be changed in place.
    pub fn value_mut(&mut self, i: usize) -> (r: &mut T)
        requires
            i < old(self).value_seq().len(),
        ensures
            *r == old(self).value_seq()[i as int],
            final(self).value_seq() == old(self).value_seq().update(i as int, *final(r)),
            final(self).key_seq() == old(self).key_seq(),
    {
        &mut self.values[i]
    }

    /// The key at a position.
    pub fn key(&self, i: usize) -> (r: &NameKey)
        requires
            i < self.key_seq().len(),
        ensures
            r@ == self.key_seq()[i as int],
    {
        &self.keys[i]
    }

    /// All records, in insertion order.
    pub fn values(&self) -> (r: &Vec<T>)
        ensures
            r@ == self.value_seq(),
    {
        &self.values
    }

    /// All records, in insertion order, to be changed in place.
    pub fn values_mut(&mut self) -> (r: &mut [T])
        ensures
            r@ == old(self).value_seq(),
            final(self).value_seq() == final(r)@,
            final(self).key_seq() == old(self).key_seq(),
    {
        self.values.as_mut_slice()
    }

    /// Takes the record at a position out of the table; the records behind
    /// it move up by one.
    pub fn remove_at(&mut self, i: usize) -> (r: T)
        requires
            old(self).wf(),
            i < old(self).value_seq().len(),
        ensures
            final(self).wf(),
            r == old(self).value_seq()[i as int],
            final(self).key_seq() == old(self).key_seq().remove(i as int),
            final(self).value_seq() == old(self).value_seq().remove(i as int),
    {
        let ghost before = self.key_seq();
        self.keys.remove(i);
        assert(self.key_seq() =~= before.remove(i as int));
        self.values.remove(i)
    }
}

} // verus!
