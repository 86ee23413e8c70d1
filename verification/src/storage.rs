//! The state backend: an in-memory mapping from byte-sequence keys to
//! byte-sequence values, with an owned snapshot representation used for the
//! backup/restore that powers dry runs.
//!
//! The backend is a sequence of key/value entries with pairwise-distinct keys;
//! its mathematical view is the finite map those entries describe.
use crate::codec::{bytes_eq, copy_bytes};
use vstd::prelude::*;

verus! {

/// The mapping described by a sequence of key/value entries: later entries
/// win, though a well-formed backend never holds a key twice.
pub open spec fn map_of(s: Seq<(Vec<u8>, Vec<u8>)>) -> Map<Seq<u8>, Seq<u8>>
    decreases s.len(),
{
    if s.len() == 0 {
        Map::empty()
    } else {
        map_of(s.drop_last()).insert(s.last().0@, s.last().1@)
    }
}

/// A key is in the mapping exactly when some entry holds it.
pub proof fn lemma_map_of_contains(s: Seq<(Vec<u8>, Vec<u8>)>, k: Seq<u8>)
    ensures
        map_of(s).contains_key(k) <==> exists|i: int| 0 <= i < s.len() && s[i].0@ == k,
    decreases s.len(),
{
    if s.len() > 0 {
        lemma_map_of_contains(s.drop_last(), k);
        if map_of(s).contains_key(k) {
            if s.last().0@ == k {
                assert(s[s.len() - 1].0@ == k);
            } else {
                let i = choose|i: int| 0 <= i < s.len() - 1 && s.drop_last()[i].0@ == k;
                assert(s[i].0@ == k);
            }
        }
        if exists|i: int| 0 <= i < s.len() && s[i].0@ == k {
            let i = choose|i: int| 0 <= i < s.len() && s[i].0@ == k;
            if i < s.len() - 1 {
                assert(s.drop_last()[i].0@ == k);
            }
        }
    }
}

/// In a backend whose keys are pairwise distinct, the entry holding a key
/// gives the key's value in the mapping.
pub proof fn lemma_map_of_get(s: Seq<(Vec<u8>, Vec<u8>)>, i: int)
    requires
        forall|p: int, q: int| 0 <= p < q < s.len() ==> s[p].0@ != s[q].0@,
        0 <= i < s.len(),
    ensures
        map_of(s).contains_key(s[i].0@),
        map_of(s)[s[i].0@] == s[i].1@,
    decreases s.len(),
{
    if i == s.len() - 1 {
    } else {
        lemma_map_of_get(s.drop_last(), i);
        assert(s.drop_last()[i] == s[i]);
        assert(s.last().0@ != s[i].0@);
    }
}

/// Updating the entry that holds a key re-points that key in the mapping.
pub proof fn lemma_map_of_update(s: Seq<(Vec<u8>, Vec<u8>)>, i: int, e: (Vec<u8>, Vec<u8>))
    requires
        forall|p: int, q: int| 0 <= p < q < s.len() ==> s[p].0@ != s[q].0@,
        0 <= i < s.len(),
        e.0@ == s[i].0@,
    ensures
        map_of(s.update(i, e)) == map_of(s).insert(e.0@, e.1@),
    decreases s.len(),
{
    if i == s.len() - 1 {
        assert(s.update(i, e).drop_last() =~= s.drop_last());
        assert(s.update(i, e).last() == e);
        assert(map_of(s.update(i, e)) =~= map_of(s).insert(e.0@, e.1@));
    } else {
        lemma_map_of_update(s.drop_last(), i, e);
        assert(s.update(i, e).drop_last() =~= s.drop_last().update(i, e));
        assert(s.update(i, e).last() == s.last());
        assert(s.last().0@ != e.0@);
        assert(map_of(s.update(i, e)) =~= map_of(s).insert(e.0@, e.1@));
    }
}

/// Appending an entry with a fresh key extends the mapping.
pub proof fn lemma_map_of_push(s: Seq<(Vec<u8>, Vec<u8>)>, e: (Vec<u8>, Vec<u8>))
    ensures
        map_of(s.push(e)) == map_of(s).insert(e.0@, e.1@),
{
    assert(s.push(e).drop_last() =~= s);
    assert(s.push(e).last() == e);
}

/// An owned, independent copy of a backend taken at a point in time; changes
/// to the live backend after the snapshot never affect it, and vice versa.
pub type Snapshot = StorageBackend;

/// The error a commit can surface: an underlying consistency violation. The
/// backend here buffers nothing, so no commit ever produces it.
#[derive(Clone, Copy, PartialEq, Eq, Structural, Debug)]
pub enum CommitError {
    ConsistencyViolation,
}

/// The in-memory key/value store that holds all chain state.
pub struct StorageBackend {
    entries: Vec<(Vec<u8>, Vec<u8>)>,
}

impl View for StorageBackend {
    type V = Map<Seq<u8>, Seq<u8>>;

    closed spec fn view(&self) -> Map<Seq<u8>, Seq<u8>> {
        map_of(self.entries@)
    }
}

impl StorageBackend {
    /// Keys are pairwise distinct.
    pub closed spec fn wf(self) -> bool {
        forall|p: int, q: int|
            0 <= p < q < self.entries@.len() ==> self.entries@[p].0@ != self.entries@[q].0@
    }

    /// An empty backend.
    pub fn new() -> (r: StorageBackend)
        ensures
            r@ == Map::<Seq<u8>, Seq<u8>>::empty(),
            r.wf(),
    {
        StorageBackend { entries: Vec::new() }
    }

    /// The position of the entry holding `key`, if any.
    fn find(&self, key: &[u8]) -> (r: Option<usize>)
        ensures
            match r {
                Some(i) => i < self.entries@.len() && self.entries@[i as int].0@ == key@,
                None => forall|i: int| 0 <= i < self.entries@.len() ==> self.entries@[i].0@ != key@,
            },
    {
        let mut i: usize = 0;
        while i < self.entries.len()
            invariant
                i <= self.entries@.len(),
                forall|j: int| 0 <= j < i ==> self.entries@[j].0@ != key@,
            decreases self.entries@.len() - i,
        {
            if bytes_eq(self.entries[i].0.as_slice(), key) {
                return Some(i);
            }
            i += 1;
        }
        None
    }

    /// Whether the backend holds a value under `key`.
    pub fn contains(&self, key: &[u8]) -> (r: bool)
        ensures
            r == self@.contains_key(key@),
    {
        proof {
            lemma_map_of_contains(self.entries@, key@);
        }
        self.find(key).is_some()
    }

    /// The value stored under `key`, copied out, if any.
    pub fn get(&self, key: &[u8]) -> (r: Option<Vec<u8>>)
        requires
            self.wf(),
        ensures
            match r {
                Some(v) => self@.contains_key(key@) && v@ == self@[key@],
                None => !self@.contains_key(key@),
            },
    {
        proof {
            lemma_map_of_contains(self.entries@, key@);
        }
        match self.find(key) {
            Some(i) => {
                proof {
                    lemma_map_of_get(self.entries@, i as int);
                }
                Some(copy_bytes(self.entries[i].1.as_slice()))
            },
            None => None,
        }
    }

    /// Store `value` under `key`, replacing any earlier value.
    pub fn set(&mut self, key: Vec<u8>, value: Vec<u8>)
        requires
            old(self).wf(),
        ensures
            final(self).wf(),
            final(self)@ == old(self)@.insert(key@, value@),
    {
        let ghost pre = self.entries@;
        match self.find(key.as_slice()) {
            Some(i) => {
                proof {
                    lemma_map_of_update(pre, i as int, (key, value));
                }
                self.entries.set(i, (key, value));
            },
            None => {
                proof {
                    lemma_map_of_push(pre, (key, value));
                }
                self.entries.push((key, value));
            },
        }
    }

    /// An independent copy of the current contents; the live backend is not
    /// touched.
    pub fn as_backend(&self) -> (r: Snapshot)
        requires
            self.wf(),
        ensures
            r.wf(),
            r@ == self@,
    {
        let mut entries: Vec<(Vec<u8>, Vec<u8>)> = Vec::new();
        let mut i: usize = 0;
        while i < self.entries.len()
            invariant
                i <= self.entries@.len(),
                entries@.len() == i,
                forall|j: int|
                    0 <= j < i ==> entries@[j].0@ == self.entries@[j].0@ && entries@[j].1@
                        == self.entries@[j].1@,
            decreases self.entries@.len() - i,
        {
            let k = copy_bytes(self.entries[i].0.as_slice());
            let v = copy_bytes(self.entries[i].1.as_slice());
            entries.push((k, v));
            i += 1;
        }
        let r = StorageBackend { entries };
        proof {
            lemma_map_of_pointwise(r.entries@, self.entries@);
        }
        r
    }

    /// Flush pending buffered writes. This backend buffers nothing, so the
    /// contents never change and the consistency violation never occurs.
    pub fn commit_all(&mut self) -> (r: Result<(), CommitError>)
        ensures
            *final(self) == *old(self),
            r == Result::<(), CommitError>::Ok(()),
    {
        Ok(())
    }

    /// Atomically replace the live contents with the snapshot's: keys absent
    /// from the snapshot are removed.
    pub fn install(&mut self, snapshot: Snapshot)
        ensures
            final(self)@ == snapshot@,
            final(self).wf() == snapshot.wf(),
    {
        self.entries = snapshot.entries;
    }
}

/// Entrywise-equal backends describe the same mapping.
proof fn lemma_map_of_pointwise(a: Seq<(Vec<u8>, Vec<u8>)>, b: Seq<(Vec<u8>, Vec<u8>)>)
    requires
        a.len() == b.len(),
        forall|j: int| 0 <= j < a.len() ==> a[j].0@ == b[j].0@ && a[j].1@ == b[j].1@,
    ensures
        map_of(a) == map_of(b),
    decreases a.len(),
{
    if a.len() > 0 {
        lemma_map_of_pointwise(a.drop_last(), b.drop_last());
        assert(map_of(a) =~= map_of(b));
    }
}

} // verus!
