//! The store: typed reads and authorized writes over the byte backend.
//!
//! A read needs no authorization and gives the declared default where
//! nothing was written yet. A write asks the policy first; once approved it
//! reads the old value, persists the new one and notifies.

use vstd::prelude::*;
use vstd::pervasive::unreached;
use crate::aggregate::{
    key_bytes, law_key_bytes_injective, law_key_round_trip, law_value_round_trip, value_bytes,
    AggregatedKey, AggregatedValue, KeyModel, ValueModel,
};
use crate::backend::{copy_bytes, entries_map, keys_distinct, Backend, StoredEntry};
use crate::definition::DecodeError;
use crate::registry::Registry;
use crate::notifier::{ChangeNotifier, NoticeModel};
use crate::policy::{AuthorizationOutcome, AuthorizationPolicy, Origin};

verus! {

/// Why a write did not happen.
#[derive(Clone, Copy, Debug, PartialEq, Eq, Structural)]
pub enum SetError {
    /// The policy denied the write. Nothing was changed and nobody notified.
    Unauthorized,
}

/// Every entry is a key of the registry with a value that fits it.
pub open spec fn entries_fit(registry: Registry, entries: Map<Seq<u8>, Seq<u8>>) -> bool {
    forall|kb: Seq<u8>| #[trigger]
        entries.contains_key(kb) ==> {
            &&& registry.key_parse(kb) is Ok
            &&& registry.value_parse(entries[kb], registry.key_parse(kb)->Ok_0) is Ok
        }
}

/// What a read of `k` gives over `entries`: the stored value where there is
/// an entry, the declared default where there is none.
pub open spec fn value_in(
    registry: Registry,
    entries: Map<Seq<u8>, Seq<u8>>,
    k: KeyModel,
) -> ValueModel {
    if entries.contains_key(key_bytes(k)) {
        registry.value_parse(entries[key_bytes(k)], k)->Ok_0
    } else {
        registry.default_for(k)
    }
}

/// What keeps an entry from fitting the registry: the error of reading its
/// key, else the error of reading its value under that key, else nothing.
pub open spec fn entry_defect(registry: Registry, entry: StoredEntry) -> Option<DecodeError> {
    match registry.key_parse(entry.key@) {
        Err(e) => Some(e),
        Ok(k) => match registry.value_parse(entry.value@, k) {
            Err(e) => Some(e),
            Ok(_) => None,
        },
    }
}

/// A registry with the values written so far.
pub struct Store {
    registry: Registry,
    backend: Backend,
}

impl View for Store {
    type V = Map<Seq<u8>, Seq<u8>>;

    /// The stored entries: encoded key to encoded value.
    closed spec fn view(&self) -> Map<Seq<u8>, Seq<u8>> {
        self.backend@
    }
}

impl Store {
    /// The registry that this store belongs to.
    pub closed spec fn spec_registry(&self) -> Registry {
        self.registry
    }

    /// The backend holds no key twice.
    pub closed spec fn backend_wf(&self) -> bool {
        self.backend.wf()
    }

    /// The registry is well formed and every entry fits it.
    pub open spec fn wf(&self) -> bool {
        &&& self.spec_registry().wf()
        &&& self.backend_wf()
        &&& entries_fit(self.spec_registry(), self@)
    }

    /// What a read of `k` gives.
    pub open spec fn value_at(&self, k: KeyModel) -> ValueModel {
        value_in(self.spec_registry(), self@, k)
    }

    /// A store over `registry` in which nothing was written yet.
    pub fn new(registry: Registry) -> (store: Store)
        requires
            registry.wf(),
        ensures
            store.wf(),
            store.spec_registry() == registry,
            store@ == Map::<Seq<u8>, Seq<u8>>::empty(),
    {
        Store { registry, backend: Backend::new() }
    }

    /// A store over `registry` that holds `entries`, as read back from
    /// where they were persisted. Of two entries for one key the later
    /// counts.
    ///
    /// Fails where an entry is no key of the registry or its value does not
    /// fit the key, with the error of the first such entry.
    pub fn restore(registry: Registry, entries: &Vec<StoredEntry>) -> (r: Result<
        Store,
        DecodeError,
    >)
        requires
            registry.wf(),
        ensures
            match r {
                Ok(store) => {
                    &&& store.wf()
                    &&& store.spec_registry() == registry
                    &&& store@ == entries_map(entries@)
                    &&& forall|i: int|
                        0 <= i < entries@.len() ==> entry_defect(registry, #[trigger] entries@[i])
                            is None
                },
                Err(e) => exists|i: int|
                    {
                        &&& 0 <= i < entries@.len()
                        &&& entry_defect(registry, #[trigger] entries@[i]) == Some(e)
                        &&& forall|j: int|
                            0 <= j < i ==> entry_defect(registry, #[trigger] entries@[j]) is None
                    },
            },
    {
        let mut backend = Backend::new();
        let mut i: usize = 0;
        proof {
            assert(entries@.take(0) =~= Seq::<StoredEntry>::empty());
        }
        while i < entries.len()
            invariant
                i <= entries.len(),
                backend.wf(),
                backend@ == entries_map(entries@.take(i as int)),
                entries_fit(registry, backend@),
                forall|j: int|
                    0 <= j < i ==> entry_defect(registry, #[trigger] entries@[j]) is None,
            decreases entries.len() - i,
        {
            let entry = &entries[i];
            let key = match registry.decode_key(entry.key.as_slice()) {
                Err(e) => {
                    return Err(e);
                },
                Ok(key) => key,
            };
            match registry.decode_value(entry.value.as_slice(), &key) {
                Err(e) => {
                    return Err(e);
                },
                Ok(_) => {},
            }
            proof {
                let before = backend@;
                let after = before.insert(entry.key@, entry.value@);
                assert(entries@.take(i + 1).drop_last() =~= entries@.take(i as int));
                assert(entries@.take(i + 1).last() == entries@[i as int]);
                assert forall|kb: Seq<u8>| #[trigger] after.contains_key(kb) implies {
                    &&& registry.key_parse(kb) is Ok
                    &&& registry.value_parse(after[kb], registry.key_parse(kb)->Ok_0) is Ok
                } by {
                    if kb != entry.key@ {
                        assert(before.contains_key(kb));
                    }
                }
            }
            backend.set(copy_bytes(entry.key.as_slice()), copy_bytes(entry.value.as_slice()));
            i = i + 1;
        }
        proof {
            assert(entries@.take(i as int) =~= entries@);
        }
        Ok(Store { registry, backend })
    }

    /// The registry that this store belongs to.
    pub fn registry(&self) -> (r: &Registry)
        ensures
            *r == self.spec_registry(),
    {
        &self.registry
    }

    /// The stored entries, one for each key that was written.
    pub fn entries(&self) -> (r: &Vec<StoredEntry>)
        ensures
            entries_map(r@) == self@,
            self.wf() ==> keys_distinct(r@),
    {
        self.backend.entries()
    }

    /// Reads the value of `key`.
    ///
    /// `None` where `key` is no key of the registry. Otherwise the value
    /// last written for `key`, or the declared default where none was.
    pub fn get(&self, key: &AggregatedKey) -> (r: Option<AggregatedValue>)
        requires
            self.wf(),
        ensures
            match r {
                Some(value) => {
                    &&& self.spec_registry().is_key(key@)
                    &&& value@ == self.value_at(key@)
                    &&& self.spec_registry().is_value_for(key@, value@)
                },
                None => !self.spec_registry().is_key(key@),
            },
    {
        if !self.registry.contains_key(key) {
            return None;
        }
        let key_bytes = self.registry.encode_key(key);
        match self.backend.get(key_bytes.as_slice()) {
            None => self.registry.default_value(key),
            Some(stored) => {
                proof {
                    law_key_round_trip(self.registry, key@);
                    crate::aggregate::law_value_bytes_canonical(self.registry, stored@, key@);
                }
                match self.registry.decode_value(stored.as_slice(), key) {
                    Ok(value) => Some(value),
                    Err(_) => unreached(),
                }
            },
        }
    }

    /// Writes `value` under `key` on behalf of `caller`.
    ///
    /// The policy is asked first. Where it denies, the result is
    /// `Unauthorized`, the store is as before and nothing is notified. Where
    /// it approves, the entry for `key` is created or replaced, every other
    /// key reads as before, and the notifier receives the key, what a read
    /// gave before the write, and `value`.
    pub fn set<P: AuthorizationPolicy>(
        &mut self,
        policy: &P,
        notifier: &mut ChangeNotifier,
        caller: Origin,
        key: AggregatedKey,
        value: AggregatedValue,
    ) -> (r: Result<(), SetError>)
        requires
            old(self).wf(),
            old(self).spec_registry().is_value_for(key@, value@),
        ensures
            final(self).wf(),
            final(self).spec_registry() == old(self).spec_registry(),
            match policy.decision(caller, key@) {
                AuthorizationOutcome::Denied(_) => {
                    &&& r == Err::<(), SetError>(SetError::Unauthorized)
                    &&& final(self)@ == old(self)@
                    &&& forall|any: KeyModel|
                        final(self).value_at(any) == #[trigger] old(self).value_at(any)
                    &&& final(notifier)@ == old(notifier)@
                },
                AuthorizationOutcome::Approved => {
                    &&& r == Ok::<(), SetError>(())
                    &&& final(self)@ == old(self)@.insert(key_bytes(key@), value_bytes(value@))
                    &&& final(self).value_at(key@) == value@
                    &&& forall|other: KeyModel|
                        old(self).spec_registry().is_key(other) && other != key@
                            ==> final(self).value_at(other) == #[trigger] old(self).value_at(other)
                    &&& final(notifier)@ == old(notifier)@.push(
                        NoticeModel {
                            key: key@,
                            old_value: Some(old(self).value_at(key@)),
                            new_value: value@,
                        },
                    )
                },
            },
    {
        match policy.authorize(caller, &key) {
            AuthorizationOutcome::Denied(_) => {
                return Err(SetError::Unauthorized);
            },
            AuthorizationOutcome::Approved => {},
        }
        let old_value = self.get(&key);
        let encoded_key = self.registry.encode_key(&key);
        let encoded_value = self.registry.encode_value(&value);
        proof {
            law_write_keeps_fit(self.registry, self@, key@, value@);
            law_read_after_write(self.registry, self@, key@, value@);
            assert forall|other: KeyModel|
                self.registry.is_key(other) && other != key@ implies value_in(
                self.registry,
                self@.insert(key_bytes(key@), value_bytes(value@)),
                other,
            ) == #[trigger] value_in(self.registry, self@, other) by {
                law_write_leaves_others(self.registry, self@, key@, value@, other);
            }
        }
        self.backend.set(encoded_key, encoded_value);
        notifier.notify(key, old_value, value);
        Ok(())
    }
}

/// Before anything is written, every key reads as its declared default.
pub proof fn law_default_before_write(registry: Registry, k: KeyModel)
    requires
        registry.is_key(k),
    ensures
        value_in(registry, Map::empty(), k) == registry.default_for(k),
{
}

/// A key for which there is no entry reads as its declared default,
/// whatever was written for other keys.
pub proof fn law_default_without_entry(
    registry: Registry,
    entries: Map<Seq<u8>, Seq<u8>>,
    k: KeyModel,
)
    requires
        registry.is_key(k),
        !entries.contains_key(key_bytes(k)),
    ensures
        value_in(registry, entries, k) == registry.default_for(k),
{
}

/// After a write, the key reads as the value written.
pub proof fn law_read_after_write(
    registry: Registry,
    entries: Map<Seq<u8>, Seq<u8>>,
    k: KeyModel,
    v: ValueModel,
)
    requires
        registry.is_value_for(k, v),
    ensures
        value_in(registry, entries.insert(key_bytes(k), value_bytes(v)), k) == v,
{
    law_value_round_trip(registry, k, v);
}

/// A write to one key changes what no other key reads as.
pub proof fn law_write_leaves_others(
    registry: Registry,
    entries: Map<Seq<u8>, Seq<u8>>,
    k: KeyModel,
    v: ValueModel,
    other: KeyModel,
)
    requires
        registry.is_key(k),
        registry.is_key(other),
        other != k,
    ensures
        value_in(registry, entries.insert(key_bytes(k), value_bytes(v)), other) == value_in(
            registry,
            entries,
            other,
        ),
{
    if key_bytes(other) == key_bytes(k) {
        law_key_bytes_injective(registry, other, k);
    }
}

/// One approved write: the key and the value written.
pub struct Write {
    pub key: KeyModel,
    pub value: ValueModel,
}

/// The entries after the writes of `history`, in order, onto `entries`.
pub open spec fn after_writes(entries: Map<Seq<u8>, Seq<u8>>, history: Seq<Write>) -> Map<
    Seq<u8>,
    Seq<u8>,
>
    decreases history.len(),
{
    if history.len() == 0 {
        entries
    } else {
        after_writes(entries, history.drop_last()).insert(
            key_bytes(history.last().key),
            value_bytes(history.last().value),
        )
    }
}

/// The value of the last write to `k` in `history`, if there is one.
pub open spec fn last_written(history: Seq<Write>, k: KeyModel) -> Option<ValueModel>
    decreases history.len(),
{
    if history.len() == 0 {
        None
    } else if history.last().key == k {
        Some(history.last().value)
    } else {
        last_written(history.drop_last(), k)
    }
}

/// After any history of writes onto an empty store, a key reads as the
/// value last written to it, and as its declared default where the history
/// holds no write to it.
pub proof fn law_reads_follow_writes(registry: Registry, history: Seq<Write>, k: KeyModel)
    requires
        registry.is_key(k),
        forall|i: int|
            0 <= i < history.len() ==> registry.is_value_for(
                (#[trigger] history[i]).key,
                history[i].value,
            ),
    ensures
        value_in(registry, after_writes(Map::empty(), history), k) == (match last_written(
            history,
            k,
        ) {
            Some(v) => v,
            None => registry.default_for(k),
        }),
    decreases history.len(),
{
    if history.len() > 0 {
        let earlier = history.drop_last();
        let last = history.last();
        let before = after_writes(Map::empty(), earlier);
        assert(registry.is_value_for(history[history.len() - 1].key, last.value));
        assert forall|i: int| 0 <= i < earlier.len() implies registry.is_value_for(
            (#[trigger] earlier[i]).key,
            earlier[i].value,
        ) by {
            assert(earlier[i] == history[i]);
        }
        law_reads_follow_writes(registry, earlier, k);
        if last.key == k {
            law_read_after_write(registry, before, k, last.value);
        } else {
            law_write_leaves_others(registry, before, last.key, last.value, k);
        }
    }
}

/// A write of a value that fits its key keeps every entry fitting.
pub proof fn law_write_keeps_fit(
    registry: Registry,
    entries: Map<Seq<u8>, Seq<u8>>,
    k: KeyModel,
    v: ValueModel,
)
    requires
        entries_fit(registry, entries),
        registry.is_value_for(k, v),
    ensures
        entries_fit(registry, entries.insert(key_bytes(k), value_bytes(v))),
{
    law_key_round_trip(registry, k);
    law_value_round_trip(registry, k, v);
    let after = entries.insert(key_bytes(k), value_bytes(v));
    assert forall|kb: Seq<u8>| #[trigger] after.contains_key(kb) implies {
        &&& registry.key_parse(kb) is Ok
        &&& registry.value_parse(after[kb], registry.key_parse(kb)->Ok_0) is Ok
    } by {
        if kb != key_bytes(k) {
            assert(entries.contains_key(kb));
        }
    }
}

} // verus!
