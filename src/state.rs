//! The key-value store of one shard: byte addresses to byte values.
use vstd::prelude::*;

verus! {

/// Whether two byte strings are equal.
pub fn bytes_eq(a: &[u8], b: &[u8]) -> (r: bool)
    ensures
        r == (a@ == b@),
{
    if a.len() != b.len() {
        return false;
    }
    let mut i: usize = 0;
    while i < a.len()
        invariant
            a@.len() == b@.len(),
            i <= a@.len(),
            forall|j: int| 0 <= j < i ==> a@[j] == b@[j],
        decreases a@.len() - i,
    {
        if a[i] != b[i] {
            return false;
        }
        i = i + 1;
    }
    assert(a@ =~= b@);
    true
}

/// No two entries have the same key.
pub open spec fn keys_unique(entries: Seq<(Vec<u8>, Vec<u8>)>) -> bool {
    forall|i: int, j: int|
        0 <= i < entries.len() && 0 <= j < entries.len() && entries[i].0@ == entries[j].0@
            ==> i == j
}

/// Whether some entry has the key `k`.
pub open spec fn has_key(entries: Seq<(Vec<u8>, Vec<u8>)>, k: Seq<u8>) -> bool {
    exists|i: int| 0 <= i < entries.len() && entries[i].0@ == k
}

/// The map that a list of entries with unique keys stands for.
pub open spec fn entries_map(entries: Seq<(Vec<u8>, Vec<u8>)>) -> Map<Seq<u8>, Seq<u8>> {
    Map::new(
        |k: Seq<u8>| has_key(entries, k),
        |k: Seq<u8>|
            entries[choose|i: int| 0 <= i < entries.len() && entries[i].0@ == k].1@,
    )
}

/// The state of one shard. Each address occurs at most once. The entries are kept in a
/// list rather than a std map keyed by byte strings, whose lookups vstd leaves unspecified.
pub struct State {
    entries: Vec<(Vec<u8>, Vec<u8>)>,
}

impl View for State {
    type V = Map<Seq<u8>, Seq<u8>>;

    closed spec fn view(&self) -> Map<Seq<u8>, Seq<u8>> {
        entries_map(self.entries@)
    }
}

proof fn lemma_entry_value(entries: Seq<(Vec<u8>, Vec<u8>)>, i: int)
    requires
        keys_unique(entries),
        0 <= i < entries.len(),
    ensures
        entries_map(entries).contains_key(entries[i].0@),
        entries_map(entries)[entries[i].0@] == entries[i].1@,
{
    let k = entries[i].0@;
    assert(has_key(entries, k));
    let j = choose|j: int| 0 <= j < entries.len() && entries[j].0@ == k;
    assert(j == i);
}

impl State {
    /// Each address occurs at most once.
    pub closed spec fn wf(&self) -> bool {
        keys_unique(self.entries@)
    }

    /// An empty state.
    pub fn new() -> (r: State)
        ensures
            r.wf(),
            r@ == Map::<Seq<u8>, Seq<u8>>::empty(),
    {
        let r = State { entries: Vec::new() };
        assert(r@ =~= Map::<Seq<u8>, Seq<u8>>::empty());
        r
    }

    /// The value stored at `key`, if any.
    pub fn get(&self, key: &[u8]) -> (r: Option<Vec<u8>>)
        requires
            self.wf(),
        ensures
            r matches Some(v) ==> self@.contains_key(key@) && self@[key@] == v@,
            r is None ==> !self@.contains_key(key@),
    {
        let mut i: usize = 0;
        while i < self.entries.len()
            invariant
                i <= self.entries@.len(),
                keys_unique(self.entries@),
                forall|j: int| 0 <= j < i ==> self.entries@[j].0@ != key@,
            decreases self.entries@.len() - i,
        {
            if bytes_eq(self.entries[i].0.as_slice(), key) {
                proof {
                    lemma_entry_value(self.entries@, i as int);
                }
                return Some(vstd::slice::slice_to_vec(self.entries[i].1.as_slice()));
            }
            i = i + 1;
        }
        None
    }

    /// Stores `value` at `key`, replacing what was there.
    pub fn set(&mut self, key: Vec<u8>, value: Vec<u8>)
        requires
            old(self).wf(),
        ensures
            final(self).wf(),
            final(self)@ == old(self)@.insert(key@, value@),
    {
        let ghost old_entries = self.entries@;
        let mut i: usize = 0;
        while i < self.entries.len()
            invariant
                i <= self.entries@.len(),
                self.entries@ == old_entries,
                old(self).entries@ == old_entries,
                keys_unique(old_entries),
                forall|j: int| 0 <= j < i ==> old_entries[j].0@ != key@,
            decreases self.entries@.len() - i,
        {
            if bytes_eq(self.entries[i].0.as_slice(), key.as_slice()) {
                let ghost kv = (key, value);
                self.entries.set(i, (key, value));
                proof {
                    let ne = self.entries@;
                    assert(ne == old_entries.update(i as int, kv));
                    assert forall|a: int, b: int|
                        0 <= a < ne.len() && 0 <= b < ne.len() && ne[a].0@ == ne[b].0@ implies a
                        == b by {
                        assert(ne[a].0@ == old_entries[a].0@);
                        assert(ne[b].0@ == old_entries[b].0@);
                    }
                    self.lemma_update_view(old_entries, i as int, kv.0@, kv.1@);
                }
                return;
            }
            i = i + 1;
        }
        let ghost kv = (key, value);
        self.entries.push((key, value));
        proof {
            let ne = self.entries@;
            assert(ne == old_entries.push(kv));
            assert(!has_key(old_entries, kv.0@));
            let m = old_entries.len() as int;
            assert forall|a: int, b: int|
                0 <= a < ne.len() && 0 <= b < ne.len() && ne[a].0@ == ne[b].0@ implies a == b by {
                if a < m && b < m {
                } else if a == m && b < m {
                    assert(old_entries[b].0@ == kv.0@);
                } else if b == m && a < m {
                    assert(old_entries[a].0@ == kv.0@);
                }
            }
            let om = entries_map(old_entries);
            let nm = entries_map(ne);
            assert forall|k: Seq<u8>| #[trigger] nm.contains_key(k) == om.insert(kv.0@, kv.1@).contains_key(k) by {
                if has_key(ne, k) {
                    let j = choose|j: int| 0 <= j < ne.len() && ne[j].0@ == k;
                    if j < m {
                        assert(has_key(old_entries, k));
                    }
                }
                if has_key(old_entries, k) {
                    let j = choose|j: int| 0 <= j < old_entries.len() && old_entries[j].0@ == k;
                    assert(ne[j] == old_entries[j]);
                }
                if k == kv.0@ {
                    assert(ne[m].0@ == k);
                }
            }
            assert forall|k: Seq<u8>| #[trigger] nm.contains_key(k) implies nm[k] == om.insert(kv.0@, kv.1@)[k] by {
                let j = choose|j: int| 0 <= j < ne.len() && ne[j].0@ == k;
                lemma_entry_value(ne, j);
                if j < m {
                    assert(ne[j] == old_entries[j]);
                    lemma_entry_value(old_entries, j);
                } else {
                    assert(ne[m] == kv);
                }
            }
            assert(nm =~= om.insert(kv.0@, kv.1@));
        }
    }

    proof fn lemma_update_view(
        &self,
        old_entries: Seq<(Vec<u8>, Vec<u8>)>,
        i: int,
        k0: Seq<u8>,
        v0: Seq<u8>,
    )
        requires
            keys_unique(old_entries),
            keys_unique(self.entries@),
            0 <= i < old_entries.len(),
            old_entries[i].0@ == k0,
            self.entries@.len() == old_entries.len(),
            self.entries@[i].0@ == k0,
            self.entries@[i].1@ == v0,
            forall|j: int| 0 <= j < old_entries.len() && j != i ==> self.entries@[j] == old_entries[j],
        ensures
            entries_map(self.entries@) == entries_map(old_entries).insert(k0, v0),
    {
        let ne = self.entries@;
        let om = entries_map(old_entries);
        let nm = entries_map(ne);
        assert forall|k: Seq<u8>| #[trigger] nm.contains_key(k) == om.insert(k0, v0).contains_key(k) by {
            if has_key(ne, k) {
                let j = choose|j: int| 0 <= j < ne.len() && ne[j].0@ == k;
                if j != i {
                    assert(old_entries[j].0@ == k);
                }
            }
            if has_key(old_entries, k) {
                let j = choose|j: int| 0 <= j < old_entries.len() && old_entries[j].0@ == k;
                if j != i {
                    assert(ne[j].0@ == k);
                } else {
                    assert(ne[i].0@ == k);
                }
            }
            if k == k0 {
                assert(ne[i].0@ == k);
            }
        }
        assert forall|k: Seq<u8>| #[trigger] nm.contains_key(k) implies nm[k] == om.insert(k0, v0)[k] by {
            let j = choose|j: int| 0 <= j < ne.len() && ne[j].0@ == k;
            lemma_entry_value(ne, j);
            if j != i {
                assert(ne[j] == old_entries[j]);
                lemma_entry_value(old_entries, j);
            }
        }
        assert(nm =~= om.insert(k0, v0));
    }
}

} // verus!
