//! The key-value store that holds sensor values and session records.
use vstd::prelude::*;

verus! {

/// An error of the key-value store.
#[derive(Debug, Clone, Copy, PartialEq, Eq, Structural)]
pub enum DataStoreError {
    /// The key is absent (or has expired).
    NotFound,
    /// No connection to the store could be had in time.
    Unavailable,
    /// The store answered with a protocol-level failure.
    Backend,
}

/// A ``DataStore`` needs to implement ``store``, ``retrieve`` and ``delete``.
///
/// A store that `obeys_model` behaves as the map `model` says; of a store that
/// does not (one behind a network) nothing is known, and its callers state what
/// holds whatever it answers.
pub trait DataStore {
    spec fn obeys_model(&self) -> bool;

    spec fn model(&self) -> Map<Seq<char>, Seq<char>>;

    fn retrieve(&self, key: &str) -> (r: Result<String, DataStoreError>)
        ensures
            self.obeys_model() ==> match r {
                Ok(v) => self.model().contains_key(key@) && v@ == self.model()[key@],
                Err(e) => e == DataStoreError::NotFound && !self.model().contains_key(key@),
            },
    ;

    fn store(&mut self, key: &str, value: &str) -> (r: Result<(), DataStoreError>)
        ensures
            r matches Err(e) ==> e != DataStoreError::NotFound,
            final(self).obeys_model() == old(self).obeys_model(),
            old(self).obeys_model() ==> r is Ok && final(self).model() == old(self).model().insert(
                key@,
                value@,
            ),
    ;

    /// Store a value that the store forgets after `ttl_secs` seconds, where it
    /// keeps time at all.
    fn store_expiring(&mut self, key: &str, value: &str, ttl_secs: u64) -> (r: Result<
        (),
        DataStoreError,
    >)
        ensures
            r matches Err(e) ==> e != DataStoreError::NotFound,
            final(self).obeys_model() == old(self).obeys_model(),
            old(self).obeys_model() ==> r is Ok && final(self).model() == old(self).model().insert(
                key@,
                value@,
            ),
    ;

    fn delete(&mut self, key: &str) -> (r: Result<(), DataStoreError>)
        ensures
            r matches Err(e) ==> e != DataStoreError::NotFound,
            final(self).obeys_model() == old(self).obeys_model(),
            old(self).obeys_model() ==> r is Ok && final(self).model() == old(self).model().remove(
                key@,
            ),
    ;
}

/// Entries whose keys are pairwise distinct.
pub open spec fn keys_unique(e: Seq<(String, String)>) -> bool {
    forall|i: int, j: int|
        0 <= i < j < e.len() ==> #[trigger] e[i].0@ != #[trigger] e[j].0@
}

pub open spec fn has_key(e: Seq<(String, String)>, k: Seq<char>) -> bool {
    exists|i: int| 0 <= i < e.len() && #[trigger] e[i].0@ == k
}

/// The map that a list of entries stands for.
pub open spec fn entries_map(e: Seq<(String, String)>) -> Map<Seq<char>, Seq<char>> {
    Map::new(
        |k: Seq<char>| has_key(e, k),
        |k: Seq<char>| e[choose|i: int| 0 <= i < e.len() && #[trigger] e[i].0@ == k].1@,
    )
}

proof fn lemma_entry(e: Seq<(String, String)>, i: int)
    requires
        keys_unique(e),
        0 <= i < e.len(),
    ensures
        entries_map(e).contains_key(e[i].0@),
        entries_map(e)[e[i].0@] == e[i].1@,
{
    let k = e[i].0@;
    assert(has_key(e, k));
    let j = choose|j: int| 0 <= j < e.len() && #[trigger] e[j].0@ == k;
    if j < i {
        assert(e[j].0@ != e[i].0@);
    } else if i < j {
        assert(e[i].0@ != e[j].0@);
    }
}

/// The index of the entry under `key`, if there is one.
fn find_entry(entries: &Vec<(String, String)>, key: &str) -> (r: Option<usize>)
    ensures
        match r {
            Some(i) => i < entries@.len() && entries@[i as int].0@ == key@,
            None => !has_key(entries@, key@),
        },
{
    let k = String::from_str(key);
    let mut i: usize = 0;
    while i < entries.len()
        invariant
            i <= entries@.len(),
            k@ == key@,
            forall|j: int| 0 <= j < i ==> #[trigger] entries@[j].0@ != key@,
        decreases entries@.len() - i,
    {
        if entries[i].0 == k {
            return Some(i);
        }
        i = i + 1;
    }
    None
}

fn put_entry(entries: &mut Vec<(String, String)>, key: &str, value: &str)
    requires
        keys_unique(old(entries)@),
    ensures
        keys_unique(final(entries)@),
        entries_map(final(entries)@) == entries_map(old(entries)@).insert(key@, value@),
{
    let ghost e0 = entries@;
    match find_entry(entries, key) {
        Some(i) => {
            entries.set(i, (String::from_str(key), String::from_str(value)));
            let ghost e1 = entries@;
            assert(keys_unique(e1)) by {
                assert forall|a: int, b: int| 0 <= a < b < e1.len() implies #[trigger] e1[a].0@
                    != #[trigger] e1[b].0@ by {
                    assert(e1[a].0@ == e0[a].0@);
                    assert(e1[b].0@ == e0[b].0@);
                };
            };
            proof { lemma_entry(e1, i as int); }
            assert forall|q: Seq<char>| q != key@ implies (has_key(e1, q) == has_key(e0, q))
                && (has_key(e1, q) ==> entries_map(e1)[q] == entries_map(e0)[q]) by {
                if has_key(e1, q) {
                    let j = choose|j: int| 0 <= j < e1.len() && #[trigger] e1[j].0@ == q;
                    assert(e0[j].0@ == q);
                    lemma_entry(e1, j);
                    lemma_entry(e0, j);
                }
                if has_key(e0, q) {
                    let j = choose|j: int| 0 <= j < e0.len() && #[trigger] e0[j].0@ == q;
                    assert(e1[j].0@ == q);
                }
            };
            assert(entries_map(e1) =~= entries_map(e0).insert(key@, value@));
        },
        None => {
            entries.push((String::from_str(key), String::from_str(value)));
            let ghost e1 = entries@;
            assert(keys_unique(e1)) by {
                assert forall|a: int, b: int| 0 <= a < b < e1.len() implies #[trigger] e1[a].0@
                    != #[trigger] e1[b].0@ by {
                    if b == e0.len() {
                        assert(e1[a] == e0[a]);
                    }
                };
            };
            proof { lemma_entry(e1, e0.len() as int); }
            assert forall|q: Seq<char>| q != key@ implies (has_key(e1, q) == has_key(e0, q))
                && (has_key(e1, q) ==> entries_map(e1)[q] == entries_map(e0)[q]) by {
                if has_key(e1, q) {
                    let j = choose|j: int| 0 <= j < e1.len() && #[trigger] e1[j].0@ == q;
                    assert(j < e0.len());
                    assert(e0[j].0@ == q);
                    lemma_entry(e1, j);
                    lemma_entry(e0, j);
                }
                if has_key(e0, q) {
                    let j = choose|j: int| 0 <= j < e0.len() && #[trigger] e0[j].0@ == q;
                    assert(e1[j].0@ == q);
                }
            };
            assert(entries_map(e1) =~= entries_map(e0).insert(key@, value@));
        },
    }
}

fn delete_entry(entries: &mut Vec<(String, String)>, key: &str)
    requires
        keys_unique(old(entries)@),
    ensures
        keys_unique(final(entries)@),
        entries_map(final(entries)@) == entries_map(old(entries)@).remove(key@),
{
    let ghost e0 = entries@;
    match find_entry(entries, key) {
        Some(i) => {
            entries.remove(i);
            let ghost e1 = entries@;
            assert(keys_unique(e1)) by {
                assert forall|a: int, b: int| 0 <= a < b < e1.len() implies #[trigger] e1[a].0@
                    != #[trigger] e1[b].0@ by {
                    let a0 = if a < i { a } else { a + 1 };
                    let b0 = if b < i { b } else { b + 1 };
                    assert(e1[a] == e0[a0]);
                    assert(e1[b] == e0[b0]);
                };
            };
            assert forall|q: Seq<char>| q != key@ implies (has_key(e1, q) == has_key(e0, q))
                && (has_key(e1, q) ==> entries_map(e1)[q] == entries_map(e0)[q]) by {
                if has_key(e1, q) {
                    let j = choose|j: int| 0 <= j < e1.len() && #[trigger] e1[j].0@ == q;
                    let j0 = if j < i { j } else { j + 1 };
                    assert(e1[j] == e0[j0]);
                    lemma_entry(e1, j);
                    lemma_entry(e0, j0);
                }
                if has_key(e0, q) {
                    let j = choose|j: int| 0 <= j < e0.len() && #[trigger] e0[j].0@ == q;
                    assert(j != i);
                    let j1 = if j < i { j } else { j - 1 };
                    assert(e1[j1] == e0[j]);
                }
            };
            assert(!has_key(e1, key@)) by {
                if has_key(e1, key@) {
                    let j = choose|j: int| 0 <= j < e1.len() && #[trigger] e1[j].0@ == key@;
                    let j0 = if j < i { j } else { j + 1 };
                    assert(e1[j] == e0[j0]);
                    assert(e0[j0].0@ == e0[i as int].0@);
                }
            };
            assert(entries_map(e1) =~= entries_map(e0).remove(key@));
        },
        None => {
            assert(entries_map(e0) =~= entries_map(e0).remove(key@));
        },
    }
}

/// A store held in memory: it obeys its model.
pub struct MemoryStore {
    entries: Vec<(String, String)>,
}

impl MemoryStore {
    #[verifier::type_invariant]
    closed spec fn wf(&self) -> bool {
        keys_unique(self.entries@)
    }

    /// An empty store.
    pub fn new() -> (r: Self)
        ensures
            r.obeys_model(),
            r.model() == Map::<Seq<char>, Seq<char>>::empty(),
    {
        let r = MemoryStore { entries: Vec::new() };
        assert(entries_map(r.entries@) =~= Map::<Seq<char>, Seq<char>>::empty());
        r
    }

    fn take_entries(&mut self) -> (r: Vec<(String, String)>)
        ensures
            keys_unique(r@),
            r@ == old(self).entries@,
            final(self).entries@ == Seq::<(String, String)>::empty(),
    {
        proof { use_type_invariant(&*self); }
        let mut e: Vec<(String, String)> = Vec::new();
        std::mem::swap(&mut e, &mut self.entries);
        e
    }
}

impl DataStore for MemoryStore {
    open spec fn obeys_model(&self) -> bool {
        true
    }

    closed spec fn model(&self) -> Map<Seq<char>, Seq<char>> {
        entries_map(self.entries@)
    }

    fn retrieve(&self, key: &str) -> (r: Result<String, DataStoreError>) {
        proof { use_type_invariant(self); }
        match find_entry(&self.entries, key) {
            Some(i) => {
                proof { lemma_entry(self.entries@, i as int); }
                Ok(self.entries[i].1.clone())
            },
            None => Err(DataStoreError::NotFound),
        }
    }

    fn store(&mut self, key: &str, value: &str) -> (r: Result<(), DataStoreError>) {
        let mut e = self.take_entries();
        put_entry(&mut e, key, value);
        self.entries = e;
        Ok(())
    }

    fn store_expiring(&mut self, key: &str, value: &str, ttl_secs: u64) -> (r: Result<
        (),
        DataStoreError,
    >) {
        let mut e = self.take_entries();
        put_entry(&mut e, key, value);
        self.entries = e;
        Ok(())
    }

    fn delete(&mut self, key: &str) -> (r: Result<(), DataStoreError>) {
        let mut e = self.take_entries();
        delete_entry(&mut e, key);
        self.entries = e;
        Ok(())
    }
}

} // verus!
