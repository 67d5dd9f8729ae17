//! The resolver's memory of what the repository's metadata said, each entry
//! good for a fixed time after it was written.

use crate::maven::version::VersionKind;
use vstd::prelude::*;

verus! {

/// How long an entry is good for after it was written: 30 minutes, in
/// milliseconds.
pub const TTL_MILLIS: u64 = 1_800_000;

/// What an entry is filed under.
pub enum CacheKey {
    /// The newest version of one kind of an artifact.
    Version { group: String, name: String, kind: VersionKind },
    /// The file version of one snapshot version of an artifact.
    Snapshot { group: String, name: String, version: String },
}

pub ghost enum CacheKeyView {
    Version { group: Seq<char>, name: Seq<char>, kind: VersionKind },
    Snapshot { group: Seq<char>, name: Seq<char>, version: Seq<char> },
}

impl View for CacheKey {
    type V = CacheKeyView;

    open spec fn view(&self) -> CacheKeyView {
        match self {
            CacheKey::Version { group, name, kind } => CacheKeyView::Version {
                group: group@,
                name: name@,
                kind: *kind,
            },
            CacheKey::Snapshot { group, name, version } => CacheKeyView::Snapshot {
                group: group@,
                name: name@,
                version: version@,
            },
        }
    }
}

impl CacheKey {
    /// Whether two keys file under the same place.
    pub fn same(&self, other: &CacheKey) -> (r: bool)
        ensures
            r == (self@ == other@),
    {
        match self {
            CacheKey::Version { group, name, kind } => match other {
                CacheKey::Version { group: group2, name: name2, kind: kind2 } => {
                    *group == *group2 && *name == *name2 && *kind == *kind2
                },
                CacheKey::Snapshot { .. } => false,
            },
            CacheKey::Snapshot { group, name, version } => match other {
                CacheKey::Snapshot { group: group2, name: name2, version: version2 } => {
                    *group == *group2 && *name == *name2 && *version == *version2
                },
                CacheKey::Version { .. } => false,
            },
        }
    }
}

/// A remembered version and the time it was written at, in milliseconds.
pub struct CacheEntry {
    pub write_time: u64,
    pub version: String,
}

pub ghost struct CacheEntryView {
    pub write_time: u64,
    pub version: Seq<char>,
}

impl View for CacheEntry {
    type V = CacheEntryView;

    open spec fn view(&self) -> CacheEntryView {
        CacheEntryView { write_time: self.write_time, version: self.version@ }
    }
}

/// An entry may be handed out at `now` if less than the time to live has
/// passed since it was written.
pub open spec fn is_fresh(entry: CacheEntryView, now: u64) -> bool {
    now < entry.write_time || now - entry.write_time < TTL_MILLIS
}

/// What a cache holding `entries` hands out for `key` at `now`.
pub open spec fn lookup(
    entries: Map<CacheKeyView, CacheEntryView>,
    key: CacheKeyView,
    now: u64,
) -> Option<Seq<char>> {
    if entries.contains_key(key) && is_fresh(entries[key], now) {
        Some(entries[key].version)
    } else {
        None
    }
}

struct Slot {
    key: CacheKey,
    entry: CacheEntry,
}

/// A map from keys to entries that hands an entry out only while it is
/// fresh. Entries are overwritten, never removed.
pub struct TtlCache {
    slots: Vec<Slot>,
}

impl TtlCache {
    /// No key is filed twice.
    pub closed spec fn wf(self) -> bool {
        forall|i: int, j: int|
            0 <= i < j < self.slots@.len() ==> self.slots@[i].key@ != self.slots@[j].key@
    }

    spec fn holds(self, key: CacheKeyView, i: int) -> bool {
        0 <= i < self.slots@.len() && self.slots@[i].key@ == key
    }

    /// The entries, fresh or not.
    pub closed spec fn view(&self) -> Map<CacheKeyView, CacheEntryView> {
        Map::new(
            |key: CacheKeyView| exists|i: int| self.holds(key, i),
            |key: CacheKeyView| self.slots@[choose|i: int| self.holds(key, i)].entry@,
        )
    }

    pub fn new() -> (cache: TtlCache)
        ensures
            cache.wf(),
            cache@ == Map::<CacheKeyView, CacheEntryView>::empty(),
    {
        let cache = TtlCache { slots: Vec::new() };
        assert(cache@ =~= Map::<CacheKeyView, CacheEntryView>::empty());
        cache
    }

    /// The index of the slot that holds `key`.
    fn position(&self, key: &CacheKey) -> (found: Option<usize>)
        ensures
            found matches Some(i) ==> self.holds(key@, i as int),
            found is None ==> forall|i: int| !self.holds(key@, i),
    {
        let mut i: usize = 0;
        while i < self.slots.len()
            invariant
                i <= self.slots@.len(),
                forall|j: int| 0 <= j < i ==> self.slots@[j].key@ != key@,
            decreases self.slots@.len() - i,
        {
            if self.slots[i].key.same(key) {
                return Some(i);
            }
            i += 1;
        }
        None
    }

    /// The version remembered under `key`, if its entry is fresh at `now`.
    pub fn get(&self, key: &CacheKey, now: u64) -> (version: Option<String>)
        requires
            self.wf(),
        ensures
            version is Some == lookup(self@, key@, now) is Some,
            version matches Some(v) ==> lookup(self@, key@, now) == Some(v@),
    {
        match self.position(key) {
            Some(i) => {
                let entry = &self.slots[i].entry;
                assert(self@.contains_key(key@) && self@[key@] == entry@) by {
                    let j = choose|j: int| self.holds(key@, j);
                    assert(j == i);
                }
                if now < entry.write_time || now - entry.write_time < TTL_MILLIS {
                    Some(entry.version.clone())
                } else {
                    None
                }
            },
            None => None,
        }
    }

    /// Remembers `version` under `key` as written at `now`, in place of what
    /// was there.
    pub fn insert(&mut self, key: CacheKey, version: String, now: u64)
        requires
            old(self).wf(),
        ensures
            final(self).wf(),
            final(self)@ == old(self)@.insert(
                key@,
                CacheEntryView { write_time: now, version: version@ },
            ),
    {
        let ghost before = *self;
        let ghost key_view = key@;
        let ghost entry_view = CacheEntryView { write_time: now, version: version@ };
        let found = self.position(&key);
        let slot = Slot { key, entry: CacheEntry { write_time: now, version } };
        let ghost at: int;
        match found {
            Some(i) => {
                self.slots.set(i, slot);
                proof {
                    at = i as int;
                }
            },
            None => {
                self.slots.push(slot);
                proof {
                    at = self.slots@.len() - 1;
                }
            },
        }
        proof {
            let after = *self;
            assert(after.holds(key_view, at));
            assert forall|i: int, j: int|
                0 <= i < j < after.slots@.len() implies after.slots@[i].key@
                != after.slots@[j].key@ by {
                if found is None {
                    if j == at {
                        assert(!before.holds(key_view, i));
                    }
                } else {
                    assert(before.holds(key_view, at));
                    assert(after.slots@[i].key@ == before.slots@[i].key@);
                    assert(after.slots@[j].key@ == before.slots@[j].key@);
                }
            }
            assert(after.wf());
            assert forall|k: CacheKeyView| #[trigger]
                after@.contains_key(k) == before@.insert(key_view, entry_view).contains_key(
                    k,
                ) by {
                if k != key_view {
                    if before@.contains_key(k) {
                        let j = choose|j: int| before.holds(k, j);
                        assert(after.holds(k, j));
                    }
                    if after@.contains_key(k) {
                        let j = choose|j: int| after.holds(k, j);
                        assert(before.holds(k, j));
                    }
                }
            }
            assert forall|k: CacheKeyView| #[trigger] after@.contains_key(k) implies after@[k]
                == before@.insert(key_view, entry_view)[k] by {
                let j = choose|j: int| after.holds(k, j);
                if k == key_view {
                    assert(j == at);
                } else {
                    assert(before.holds(k, j));
                    let j0 = choose|j0: int| before.holds(k, j0);
                    assert(j0 == j);
                }
            }
            assert(after@ =~= before@.insert(key_view, entry_view));
        }
    }
}

} // verus!
