//! The persistence backend: a mapping from bytes to bytes.
//!
//! An entry is created by the first write for a key and updated in place by
//! later writes. Nothing ever removes one.

use vstd::prelude::*;

verus! {

/// One encoded key with its encoded value.
#[derive(Clone, Debug, PartialEq, Eq)]
pub struct StoredEntry {
    pub key: Vec<u8>,
    pub value: Vec<u8>,
}

/// The mapping that a list of entries stands for: a later entry for a key
/// replaces an earlier one.
pub open spec fn entries_map(entries: Seq<StoredEntry>) -> Map<Seq<u8>, Seq<u8>>
    decreases entries.len(),
{
    if entries.len() == 0 {
        Map::empty()
    } else {
        entries_map(entries.drop_last()).insert(entries.last().key@, entries.last().value@)
    }
}

/// No two entries have the same key.
pub open spec fn keys_distinct(entries: Seq<StoredEntry>) -> bool {
    forall|i: int, j: int| 0 <= i < j < entries.len() ==> entries[i].key@ != entries[j].key@
}

/// A key is in the mapping exactly where some entry has it.
pub proof fn lemma_entries_map_domain(entries: Seq<StoredEntry>, key: Seq<u8>)
    ensures
        entries_map(entries).contains_key(key) <==> exists|i: int|
            0 <= i < entries.len() && entries[i].key@ == key,
    decreases entries.len(),
{
    if entries.len() > 0 {
        let front = entries.drop_last();
        lemma_entries_map_domain(front, key);
        if entries.last().key@ == key {
            assert(entries[entries.len() - 1].key@ == key);
        } else if entries_map(front).contains_key(key) {
            let i = choose|i: int| 0 <= i < front.len() && front[i].key@ == key;
            assert(entries[i].key@ == key);
        } else {
            assert forall|i: int| 0 <= i < entries.len() implies entries[i].key@ != key by {
                if i < front.len() {
                    assert(front[i].key@ != key);
                }
            }
        }
    }
}

/// Where no key occurs twice, the mapping holds each entry's own value.
pub proof fn lemma_entries_map_value(entries: Seq<StoredEntry>, i: int)
    requires
        keys_distinct(entries),
        0 <= i < entries.len(),
    ensures
        entries_map(entries).contains_key(entries[i].key@),
        entries_map(entries)[entries[i].key@] == entries[i].value@,
    decreases entries.len(),
{
    let front = entries.drop_last();
    if i < entries.len() - 1 {
        assert(keys_distinct(front)) by {
            assert forall|a: int, b: int| 0 <= a < b < front.len() implies front[a].key@
                != front[b].key@ by {
                assert(entries[a].key@ != entries[b].key@);
            }
        }
        lemma_entries_map_value(front, i);
        assert(entries[i].key@ != entries[entries.len() - 1].key@);
    }
}

/// Replacing the value of the entry at `i` is an insertion into the mapping.
pub proof fn lemma_entries_map_update(
    before: Seq<StoredEntry>,
    after: Seq<StoredEntry>,
    i: int,
)
    requires
        keys_distinct(before),
        0 <= i < before.len(),
        after.len() == before.len(),
        after[i].key@ == before[i].key@,
        forall|j: int| 0 <= j < before.len() && j != i ==> after[j] == before[j],
    ensures
        keys_distinct(after),
        entries_map(after) == entries_map(before).insert(before[i].key@, after[i].value@),
    decreases before.len(),
{
    assert(keys_distinct(after)) by {
        assert forall|a: int, b: int| 0 <= a < b < after.len() implies after[a].key@
            != after[b].key@ by {
            assert(before[a].key@ != before[b].key@);
        }
    }
    let last = before.len() - 1;
    let front_before = before.drop_last();
    let front_after = after.drop_last();
    if i == last {
        assert(front_after =~= front_before);
        assert(entries_map(after) =~= entries_map(before).insert(
            before[i].key@,
            after[i].value@,
        ));
    } else {
        assert(keys_distinct(front_before)) by {
            assert forall|a: int, b: int|
                0 <= a < b < front_before.len() implies front_before[a].key@
                != front_before[b].key@ by {
                assert(before[a].key@ != before[b].key@);
            }
        }
        lemma_entries_map_update(front_before, front_after, i);
        assert(before[i].key@ != before[last].key@);
        assert(after[last] == before[last]);
        assert(entries_map(after) =~= entries_map(before).insert(
            before[i].key@,
            after[i].value@,
        ));
    }
}

/// Whether two byte strings are the same.
pub fn same_bytes(a: &[u8], b: &[u8]) -> (r: bool)
    ensures
        r == (a@ == b@),
{
    if a.len() != b.len() {
        return false;
    }
    let mut i: usize = 0;
    while i < a.len()
        invariant
            i <= a.len(),
            a.len() == b.len(),
            forall|j: int| 0 <= j < i ==> a@[j] == b@[j],
        decreases a.len() - i,
    {
        if a[i] != b[i] {
            return false;
        }
        i = i + 1;
    }
    proof {
        assert(a@ =~= b@);
    }
    true
}

/// A copy of a byte string.
pub fn copy_bytes(bytes: &[u8]) -> (copy: Vec<u8>)
    ensures
        copy@ == bytes@,
{
    let mut copy: Vec<u8> = Vec::new();
    let mut i: usize = 0;
    while i < bytes.len()
        invariant
            i <= bytes.len(),
            copy@ == bytes@.take(i as int),
        decreases bytes.len() - i,
    {
        copy.push(bytes[i]);
        proof {
            assert(copy@ =~= bytes@.take(i + 1));
        }
        i = i + 1;
    }
    proof {
        assert(bytes@.take(i as int) =~= bytes@);
    }
    copy
}

/// An in-memory mapping from encoded keys to encoded values.
pub struct Backend {
    entries: Vec<StoredEntry>,
}

impl View for Backend {
    type V = Map<Seq<u8>, Seq<u8>>;

    closed spec fn view(&self) -> Map<Seq<u8>, Seq<u8>> {
        entries_map(self.entries@)
    }
}

impl Backend {
    /// No key is stored twice.
    pub closed spec fn wf(&self) -> bool {
        keys_distinct(self.entries@)
    }

    /// A backend with no entry.
    pub fn new() -> (backend: Backend)
        ensures
            backend.wf(),
            backend@ == Map::<Seq<u8>, Seq<u8>>::empty(),
    {
        Backend { entries: Vec::new() }
    }

    /// How many entries there are.
    pub fn len(&self) -> (n: usize)
        requires
            self.wf(),
        ensures
            n == self@.dom().len(),
            self@.dom().finite(),
    {
        proof {
            lemma_entries_map_len(self.entries@);
        }
        self.entries.len()
    }

    fn position(&self, key: &[u8]) -> (r: Option<usize>)
        ensures
            match r {
                Some(i) => i < self.entries@.len() && self.entries@[i as int].key@ == key@,
                None => forall|j: int|
                    0 <= j < self.entries@.len() ==> self.entries@[j].key@ != key@,
            },
    {
        let mut i: usize = 0;
        while i < self.entries.len()
            invariant
                i <= self.entries.len(),
                forall|j: int| 0 <= j < i ==> self.entries@[j].key@ != key@,
            decreases self.entries.len() - i,
        {
            if same_bytes(self.entries[i].key.as_slice(), key) {
                return Some(i);
            }
            i = i + 1;
        }
        None
    }

    /// The value stored under `key`, if any.
    pub fn get(&self, key: &[u8]) -> (r: Option<&Vec<u8>>)
        requires
            self.wf(),
        ensures
            match r {
                Some(value) => self@.contains_key(key@) && self@[key@] == value@,
                None => !self@.contains_key(key@),
            },
    {
        proof {
            lemma_entries_map_domain(self.entries@, key@);
        }
        match self.position(key) {
            Some(i) => {
                proof {
                    lemma_entries_map_value(self.entries@, i as int);
                }
                Some(&self.entries[i].value)
            },
            None => None,
        }
    }

    /// Stores `value` under `key`, in place of what was there.
    pub fn set(&mut self, key: Vec<u8>, value: Vec<u8>)
        requires
            old(self).wf(),
        ensures
            final(self).wf(),
            final(self)@ == old(self)@.insert(key@, value@),
    {
        match self.position(key.as_slice()) {
            Some(i) => {
                let ghost before = self.entries@;
                self.entries.set(i, StoredEntry { key, value });
                proof {
                    lemma_entries_map_update(before, self.entries@, i as int);
                }
            },
            None => {
                let ghost before = self.entries@;
                self.entries.push(StoredEntry { key, value });
                proof {
                    assert(self.entries@.drop_last() =~= before);
                }
            },
        }
    }

    /// The entries, one for each key that was written.
    pub fn entries(&self) -> (r: &Vec<StoredEntry>)
        ensures
            entries_map(r@) == self@,
            self.wf() ==> keys_distinct(r@),
    {
        &self.entries
    }
}

/// Where no key occurs twice, the mapping has as many keys as there are entries.
pub proof fn lemma_entries_map_len(entries: Seq<StoredEntry>)
    requires
        keys_distinct(entries),
    ensures
        entries_map(entries).dom().finite(),
        entries_map(entries).dom().len() == entries.len(),
    decreases entries.len(),
{
    if entries.len() > 0 {
        let front = entries.drop_last();
        assert(keys_distinct(front)) by {
            assert forall|a: int, b: int| 0 <= a < b < front.len() implies front[a].key@
                != front[b].key@ by {
                assert(entries[a].key@ != entries[b].key@);
            }
        }
        lemma_entries_map_len(front);
        lemma_entries_map_domain(front, entries.last().key@);
        if entries_map(front).contains_key(entries.last().key@) {
            let i = choose|i: int| 0 <= i < front.len() && front[i].key@ == entries.last().key@;
            assert(entries[i].key@ != entries[entries.len() - 1].key@);
        }
        assert(entries_map(entries).dom() =~= entries_map(front).dom().insert(
            entries.last().key@,
        ));
    }
}

} // verus!
