//! The in-memory cache of decompressed JARs, bounded by their total size.

use crate::jar_manager::rimfs::InMemoryFs;
use byte_unit::Byte;
use lru::LruCache;
use vstd::prelude::*;

verus! {

/// A value that knows how many bytes it takes at run time.
pub trait RuntimeSized {
    /// The size, as contracts speak of it.
    spec fn size_spec(&self) -> nat;

    fn size(&self) -> (n: usize)
        ensures
            n == self.size_spec(),
    ;
}

/// `byte_unit::Byte`, a number of bytes.
#[verifier::external_type_specification]
#[verifier::external_body]
pub struct ExByte(byte_unit::Byte);

/// `lru::LruCache`, a map that keeps its entries in order of last use.
#[verifier::external_type_specification]
#[verifier::external_body]
#[verifier::reject_recursive_types(K)]
#[verifier::reject_recursive_types(V)]
#[verifier::reject_recursive_types(S)]
pub struct ExLruCache<K, V, S>(lru::LruCache<K, V, S>);

/// `lru::DefaultHasher`, the hasher that `LruCache` uses by default.
#[verifier::external_type_specification]
#[verifier::external_body]
pub struct ExDefaultHasher(lru::DefaultHasher);

/// The number of bytes that a `Byte` stands for.
pub uninterp spec fn byte_count(bytes: Byte) -> u64;

/// The entries of the cache with their keys, the least recently used first.
/// An `LruCache` holds a key once.
pub uninterp spec fn lru_entries(cache: LruCache<String, InMemoryFs>) -> Seq<
    (Seq<char>, InMemoryFs),
>;

/// `Byte::as_u64`: the number of bytes.
pub assume_specification[ Byte::as_u64 ](bytes: Byte) -> (n: u64)
    ensures
        n == byte_count(bytes),
;

/// `LruCache::unbounded`: an empty cache that never evicts by itself.
#[verifier::external_body]
fn lru_unbounded() -> (cache: LruCache<String, InMemoryFs>)
    ensures
        lru_entries(cache) == Seq::<(Seq<char>, InMemoryFs)>::empty(),
{
    LruCache::unbounded()
}

/// `LruCache::len`: the number of entries.
#[verifier::external_body]
fn lru_len(cache: &LruCache<String, InMemoryFs>) -> (n: usize)
    ensures
        n == lru_entries(*cache).len(),
{
    cache.len()
}

/// `LruCache::get`: the value under the key, which becomes the most
/// recently used entry.
#[verifier::external_body]
fn lru_get<'a>(cache: &'a mut LruCache<String, InMemoryFs>, key: &String) -> (found: Option<
    &'a InMemoryFs,
>)
    ensures
        lru_entries(*final(cache)) == touched(lru_entries(*old(cache)), key@),
        match found {
            Some(value) => has_key(lru_entries(*old(cache)), key@) && *value == value_of(
                lru_entries(*old(cache)),
                key@,
            ),
            None => !has_key(lru_entries(*old(cache)), key@),
        },
{
    cache.get(key)
}

/// `LruCache::pop_lru`: takes the least recently used entry out.
#[verifier::external_body]
fn lru_pop_lru(cache: &mut LruCache<String, InMemoryFs>) -> (popped: Option<(String, InMemoryFs)>)
    ensures
        match popped {
            Some(entry) => {
                &&& lru_entries(*old(cache)).len() > 0
                &&& entry.0@ == lru_entries(*old(cache))[0].0
                &&& entry.1 == lru_entries(*old(cache))[0].1
                &&& lru_entries(*final(cache)) == lru_entries(*old(cache)).drop_first()
            },
            None => lru_entries(*old(cache)).len() == 0 && lru_entries(*final(cache))
                == lru_entries(*old(cache)),
        },
{
    cache.pop_lru()
}

/// `LruCache::put`: sets the value under the key, which becomes the most
/// recently used entry, and hands back the value that was there. An
/// unbounded cache evicts nothing for it while it holds fewer than
/// `usize::MAX` entries.
#[verifier::external_body]
fn lru_put(cache: &mut LruCache<String, InMemoryFs>, key: String, value: InMemoryFs) -> (replaced:
    Option<InMemoryFs>)
    requires
        lru_entries(*old(cache)).len() < usize::MAX,
    ensures
        lru_entries(*final(cache)) == without(lru_entries(*old(cache)), key@).push((key@, value)),
        match replaced {
            Some(before) => has_key(lru_entries(*old(cache)), key@) && before == value_of(
                lru_entries(*old(cache)),
                key@,
            ),
            None => !has_key(lru_entries(*old(cache)), key@),
        },
{
    cache.put(key, value)
}

/// Some entry has the key.
pub open spec fn has_key(entries: Seq<(Seq<char>, InMemoryFs)>, key: Seq<char>) -> bool {
    exists|i: int| 0 <= i < entries.len() && #[trigger] entries[i].0 == key
}

/// No two entries have the same key.
pub open spec fn keys_distinct(entries: Seq<(Seq<char>, InMemoryFs)>) -> bool {
    forall|i: int, j: int| 0 <= i < j < entries.len() ==> entries[i].0 != entries[j].0
}

/// The index of an entry with the key.
pub open spec fn index_of(entries: Seq<(Seq<char>, InMemoryFs)>, key: Seq<char>) -> int {
    choose|i: int| 0 <= i < entries.len() && #[trigger] entries[i].0 == key
}

/// The value under the key.
pub open spec fn value_of(entries: Seq<(Seq<char>, InMemoryFs)>, key: Seq<char>) -> InMemoryFs {
    entries[index_of(entries, key)].1
}

/// The entries but the one with the key.
pub open spec fn without(entries: Seq<(Seq<char>, InMemoryFs)>, key: Seq<char>) -> Seq<
    (Seq<char>, InMemoryFs),
> {
    if has_key(entries, key) {
        entries.remove(index_of(entries, key))
    } else {
        entries
    }
}

/// The entries after the one with the key was used: it has become the most
/// recently used.
pub open spec fn touched(entries: Seq<(Seq<char>, InMemoryFs)>, key: Seq<char>) -> Seq<
    (Seq<char>, InMemoryFs),
> {
    if has_key(entries, key) {
        without(entries, key).push(entries[index_of(entries, key)])
    } else {
        entries
    }
}

/// The sum of the sizes of the values.
pub open spec fn total_size(entries: Seq<(Seq<char>, InMemoryFs)>) -> nat
    decreases entries.len(),
{
    if entries.len() == 0 {
        0
    } else {
        total_size(entries.drop_last()) + entries.last().1.size_spec()
    }
}

/// The entries after the least recently used ones have left, one at a time,
/// until the rest takes no more than `room`.
pub open spec fn evicted(entries: Seq<(Seq<char>, InMemoryFs)>, room: int) -> Seq<
    (Seq<char>, InMemoryFs),
>
    decreases entries.len(),
{
    if entries.len() > 0 && total_size(entries) > room {
        evicted(entries.drop_first(), room)
    } else {
        entries
    }
}

/// The entries with room for one more: an `LruCache` holds fewer than
/// `usize::MAX` entries beside a new one, so at that number the least
/// recently used entry leaves.
pub open spec fn with_a_place(entries: Seq<(Seq<char>, InMemoryFs)>) -> Seq<
    (Seq<char>, InMemoryFs),
> {
    if entries.len() >= usize::MAX {
        entries.drop_first()
    } else {
        entries
    }
}

/// The entries after `value` was added under `key` to a cache of the given
/// capacity: room is made first, then the value becomes the most recently
/// used entry, in place of what its key held.
pub open spec fn added(
    entries: Seq<(Seq<char>, InMemoryFs)>,
    capacity: nat,
    key: Seq<char>,
    value: InMemoryFs,
) -> Seq<(Seq<char>, InMemoryFs)> {
    without(with_a_place(evicted(entries, capacity - value.size_spec())), key).push((key, value))
}

/// One use of a cache.
pub ghost enum Use {
    /// A value is added under a key.
    Add(Seq<char>, InMemoryFs),
    /// The value under a key is asked for.
    Get(Seq<char>),
}

/// The entries after the uses, one after the other.
pub open spec fn used(entries: Seq<(Seq<char>, InMemoryFs)>, capacity: nat, uses: Seq<Use>) -> Seq<
    (Seq<char>, InMemoryFs),
>
    decreases uses.len(),
{
    if uses.len() == 0 {
        entries
    } else {
        let before = used(entries, capacity, uses.drop_last());
        match uses.last() {
            Use::Add(key, value) => added(before, capacity, key, value),
            Use::Get(key) => touched(before, key),
        }
    }
}

/// The first entry counts into the sum like the last.
pub proof fn lemma_total_size_first(entries: Seq<(Seq<char>, InMemoryFs)>)
    requires
        entries.len() > 0,
    ensures
        total_size(entries) == entries[0].1.size_spec() + total_size(entries.drop_first()),
    decreases entries.len(),
{
    if entries.len() == 1 {
        assert(entries.drop_first() =~= entries.drop_last());
    } else {
        lemma_total_size_first(entries.drop_last());
        assert(entries.drop_last().drop_first() =~= entries.drop_first().drop_last());
    }
}

/// Taking an entry out takes its size off the sum.
pub proof fn lemma_total_size_remove(entries: Seq<(Seq<char>, InMemoryFs)>, i: int)
    requires
        0 <= i < entries.len(),
    ensures
        total_size(entries.remove(i)) + entries[i].1.size_spec() == total_size(entries),
    decreases entries.len(),
{
    if i == entries.len() - 1 {
        assert(entries.remove(i) =~= entries.drop_last());
    } else {
        lemma_total_size_remove(entries.drop_last(), i);
        assert(entries.remove(i).drop_last() =~= entries.drop_last().remove(i));
    }
}

/// Without a key, the other keys stay distinct, and the key is gone.
pub proof fn lemma_without(entries: Seq<(Seq<char>, InMemoryFs)>, key: Seq<char>)
    requires
        keys_distinct(entries),
    ensures
        keys_distinct(without(entries, key)),
        !has_key(without(entries, key), key),
        forall|other: Seq<char>|
            other != key ==> has_key(without(entries, key), other) == has_key(entries, other),
        total_size(without(entries, key)) + (if has_key(entries, key) {
            value_of(entries, key).size_spec()
        } else {
            0
        }) == total_size(entries),
{
    let rest = without(entries, key);
    if has_key(entries, key) {
        let at = index_of(entries, key);
        lemma_total_size_remove(entries, at);
        assert forall|i: int| 0 <= i < rest.len() implies #[trigger] rest[i] == entries[if i
            < at {
            i
        } else {
            i + 1
        }] by {}
        assert forall|other: Seq<char>| other != key implies has_key(rest, other) == has_key(
            entries,
            other,
        ) by {
            if has_key(entries, other) {
                let j = index_of(entries, other);
                let k = if j < at {
                    j
                } else {
                    j - 1
                };
                assert(rest[k].0 == other);
            }
            if has_key(rest, other) {
                let k = index_of(rest, other);
                assert(entries[if k < at {
                    k
                } else {
                    k + 1
                }].0 == other);
            }
        }
        if has_key(rest, key) {
            let k = index_of(rest, key);
            assert(entries[if k < at {
                k
            } else {
                k + 1
            }].0 == key);
        }
    }
}

/// Evicting leaves a part of the entries that takes no more than `room`.
pub proof fn lemma_evicted(entries: Seq<(Seq<char>, InMemoryFs)>, room: int)
    requires
        keys_distinct(entries),
        room >= 0,
    ensures
        keys_distinct(evicted(entries, room)),
        total_size(evicted(entries, room)) <= room,
        total_size(entries) <= room ==> evicted(entries, room) == entries,
        exists|n: int|
            0 <= n <= entries.len() && evicted(entries, room) == #[trigger] entries.skip(n),
    decreases entries.len(),
{
    if entries.len() > 0 && total_size(entries) > room {
        let rest = entries.drop_first();
        lemma_evicted(rest, room);
        let n = choose|n: int|
            0 <= n <= rest.len() && evicted(rest, room) == #[trigger] rest.skip(n);
        assert(rest.skip(n) =~= entries.skip(n + 1));
    } else {
        assert(entries.skip(0) =~= entries);
    }
}

/// Using an entry changes neither which keys there are nor what the values
/// take together.
pub proof fn lemma_touched(entries: Seq<(Seq<char>, InMemoryFs)>, key: Seq<char>)
    requires
        keys_distinct(entries),
    ensures
        keys_distinct(touched(entries, key)),
        total_size(touched(entries, key)) == total_size(entries),
        touched(entries, key).len() == entries.len(),
{
    lemma_without(entries, key);
    if has_key(entries, key) {
        let rest = without(entries, key);
        let after = touched(entries, key);
        assert(after.drop_last() =~= rest);
        assert forall|i: int, j: int| 0 <= i < j < after.len() implies after[i].0 != after[j].0 by {
            if j == rest.len() {
                assert(rest[i].0 != key);
            }
        }
    }
}

/// Whatever a cache holds, adding a value that is no larger than the
/// capacity leaves it within the capacity, with the value in it as the most
/// recently used entry.
pub proof fn law_added_stays_within_capacity(
    entries: Seq<(Seq<char>, InMemoryFs)>,
    capacity: nat,
    key: Seq<char>,
    value: InMemoryFs,
)
    requires
        keys_distinct(entries),
        value.size_spec() <= capacity,
    ensures
        keys_distinct(added(entries, capacity, key, value)),
        total_size(added(entries, capacity, key, value)) <= capacity,
        added(entries, capacity, key, value).last() == (key, value),
{
    let room = capacity - value.size_spec();
    lemma_evicted(entries, room);
    let kept = with_a_place(evicted(entries, room));
    if evicted(entries, room).len() > 0 {
        lemma_total_size_first(evicted(entries, room));
    }
    lemma_without(kept, key);
    let rest = without(kept, key);
    let after = rest.push((key, value));
    assert(after.drop_last() =~= rest);
    assert forall|i: int, j: int| 0 <= i < j < after.len() implies after[i].0 != after[j].0 by {
        if j == rest.len() {
            assert(rest[i].0 != key);
        }
    }
}

/// Whatever a cache within its capacity holds, and in particular where it
/// holds nothing, it is within its capacity after any number of uses in
/// which no value added is larger than the capacity.
pub proof fn law_every_use_stays_within_capacity(
    entries: Seq<(Seq<char>, InMemoryFs)>,
    capacity: nat,
    uses: Seq<Use>,
)
    requires
        keys_distinct(entries),
        total_size(entries) <= capacity,
        forall|i: int|
            0 <= i < uses.len() ==> (#[trigger] uses[i] matches Use::Add(_, value)
                ==> value.size_spec() <= capacity),
    ensures
        keys_distinct(used(entries, capacity, uses)),
        total_size(used(entries, capacity, uses)) <= capacity,
    decreases uses.len(),
{
    if uses.len() > 0 {
        let earlier = uses.drop_last();
        assert forall|i: int| 0 <= i < earlier.len() implies (
        #[trigger] earlier[i] matches Use::Add(_, value) ==> value.size_spec() <= capacity) by {
            assert(earlier[i] == uses[i]);
        }
        law_every_use_stays_within_capacity(entries, capacity, earlier);
        let before = used(entries, capacity, earlier);
        match uses.last() {
            Use::Add(key, value) => {
                assert(uses[uses.len() - 1] == uses.last());
                law_added_stays_within_capacity(before, capacity, key, value);
            },
            Use::Get(key) => {
                lemma_touched(before, key);
            },
        }
    }
}

/// What is used stays longer than what is not. Two values are added to an
/// empty cache, the first is used, and a third is added that does not fit
/// beside both but fits beside one: then the second leaves and the first
/// stays.
pub proof fn law_least_recently_used_leaves(
    capacity: nat,
    k1: Seq<char>,
    v1: InMemoryFs,
    k2: Seq<char>,
    v2: InMemoryFs,
    k3: Seq<char>,
    v3: InMemoryFs,
)
    requires
        k1 != k2,
        k1 != k3,
        k2 != k3,
        v1.size_spec() + v2.size_spec() <= capacity,
        v1.size_spec() + v2.size_spec() + v3.size_spec() > capacity,
        v1.size_spec() + v3.size_spec() <= capacity,
    ensures
        ({
            let two = added(added(Seq::empty(), capacity, k1, v1), capacity, k2, v2);
            let last = added(touched(two, k1), capacity, k3, v3);
            &&& last == seq![(k1, v1), (k3, v3)]
            &&& has_key(last, k1)
            &&& !has_key(last, k2)
        }),
{
    let none = Seq::<(Seq<char>, InMemoryFs)>::empty();
    assert(total_size(none) == 0);
    let one = added(none, capacity, k1, v1);
    assert(one =~= seq![(k1, v1)]) by {
        assert(!has_key(none, k1));
    }
    assert(total_size(one) == v1.size_spec()) by {
        assert(one.drop_last() =~= none);
    }
    let two = added(one, capacity, k2, v2);
    assert(two =~= seq![(k1, v1), (k2, v2)]) by {
        assert(evicted(one, capacity - v2.size_spec()) == one);
        assert(!has_key(one, k2));
    }
    let used = touched(two, k1);
    assert(used =~= seq![(k2, v2), (k1, v1)]) by {
        assert(two[0].0 == k1);
        assert(has_key(two, k1));
        assert(index_of(two, k1) == 0);
    }
    let room = capacity - v3.size_spec();
    let rest = used.drop_first();
    assert(rest =~= seq![(k1, v1)]);
    assert(total_size(rest) == v1.size_spec()) by {
        assert(rest.drop_last() =~= none);
    }
    assert(total_size(used) == v1.size_spec() + v2.size_spec()) by {
        lemma_total_size_first(used);
    }
    assert(evicted(used, room) == rest) by {
        assert(evicted(rest, room) == rest);
    }
    let last = added(used, capacity, k3, v3);
    assert(!has_key(rest, k3));
    assert(last =~= seq![(k1, v1), (k3, v3)]);
    assert(last[0].0 == k1);
}

/// A cache of decompressed JARs by their path, bounded by the total size of
/// what it holds. When a new value does not fit, the least recently used
/// entries leave until it does.
pub struct SpecialCache {
    capacity: Byte,
    size: u64,
    cache: LruCache<String, InMemoryFs>,
}

impl SpecialCache {
    /// The entries with their keys, the least recently used first.
    pub closed spec fn view(&self) -> Seq<(Seq<char>, InMemoryFs)> {
        lru_entries(self.cache)
    }

    /// The number of bytes that the values may take together.
    pub closed spec fn capacity(&self) -> nat {
        byte_count(self.capacity) as nat
    }

    /// The number of bytes that the values are counted as taking.
    pub closed spec fn spec_size(&self) -> nat {
        self.size as nat
    }

    /// The keys are distinct, the size is the sum of the values' sizes, and
    /// it is within the capacity.
    pub closed spec fn wf(&self) -> bool {
        &&& keys_distinct(self@)
        &&& self.spec_size() == total_size(self@)
        &&& self.spec_size() <= self.capacity()
    }

    /// What well-formedness says of the size.
    pub proof fn lemma_wf(&self)
        requires
            self.wf(),
        ensures
            keys_distinct(self@),
            self.spec_size() == total_size(self@),
            self.spec_size() <= self.capacity(),
    {
    }

    /// An empty cache of the given capacity.
    pub fn new(capacity: Byte) -> (cache: SpecialCache)
        ensures
            cache.wf(),
            cache@ == Seq::<(Seq<char>, InMemoryFs)>::empty(),
            cache.capacity() == byte_count(capacity),
            cache.spec_size() == 0,
    {
        SpecialCache { capacity, size: 0, cache: lru_unbounded() }
    }

    /// The value under `key`, which becomes the most recently used entry.
    pub fn get(&mut self, key: &String) -> (found: Option<&InMemoryFs>)
        requires
            old(self).wf(),
        ensures
            final(self).wf(),
            final(self).capacity() == old(self).capacity(),
            final(self).spec_size() == old(self).spec_size(),
            final(self).spec_size() <= final(self).capacity(),
            final(self)@ == touched(old(self)@, key@),
            match found {
                Some(value) => has_key(old(self)@, key@) && *value == value_of(old(self)@, key@),
                None => !has_key(old(self)@, key@),
            },
    {
        proof {
            lemma_touched(self@, key@);
        }
        lru_get(&mut self.cache, key)
    }

    /// The number of bytes that the values are counted as taking.
    pub fn size(&self) -> (n: u64)
        ensures
            n == self.spec_size(),
    {
        self.size
    }

    /// The number of entries.
    pub fn len(&self) -> (n: usize)
        ensures
            n == self@.len(),
    {
        lru_len(&self.cache)
    }

    /// Whether `value` can be added: it is no larger than the capacity.
    pub fn admits(&self, value: &InMemoryFs) -> (ok: bool)
        ensures
            ok == (value.size_spec() <= self.capacity()),
    {
        value.size() as u64 <= self.capacity.as_u64()
    }

    /// Add the given entry, evicting older entries if needed
    pub fn add(&mut self, key: String, value: InMemoryFs)
        requires
            old(self).wf(),
            value.size_spec() <= old(self).capacity(),
        ensures
            final(self).wf(),
            final(self).capacity() == old(self).capacity(),
            final(self)@ == added(old(self)@, old(self).capacity(), key@, value),
            final(self).spec_size() == total_size(final(self)@),
            final(self).spec_size() <= final(self).capacity(),
    {
        let size: u64 = value.size() as u64;
        let capacity: u64 = self.capacity.as_u64();
        let ghost room: int = capacity - size;
        let ghost start = self@;
        proof {
            lemma_evicted(start, room);
        }
        while self.size > capacity - size
            invariant
                size == value.size_spec() <= capacity == self.capacity(),
                self.capacity() == old(self).capacity(),
                room == capacity - size,
                keys_distinct(self@),
                self.spec_size() == total_size(self@),
                evicted(self@, room) == evicted(start, room),
            decreases self@.len(),
        {
            let ghost entries = self@;
            proof {
                lemma_total_size_first(entries);
            }
            let removed = lru_pop_lru(&mut self.cache);
            if let Some((_, removed_value)) = removed {
                self.size -= removed_value.size() as u64;
            }
        }
        proof {
            lemma_evicted(self@, room);
        }
        if lru_len(&self.cache) == usize::MAX {
            proof {
                lemma_total_size_first(self@);
            }
            let removed = lru_pop_lru(&mut self.cache);
            if let Some((_, removed_value)) = removed {
                self.size -= removed_value.size() as u64;
            }
        }
        let ghost kept = self@;
        proof {
            assert(kept == with_a_place(evicted(start, room)));
            lemma_without(kept, key@);
            assert(without(kept, key@).push((key@, value)).drop_last() =~= without(kept, key@));
            law_added_stays_within_capacity(start, capacity as nat, key@, value);
        }
        let replaced = lru_put(&mut self.cache, key, value);
        if let Some(before) = replaced {
            self.size -= before.size() as u64;
        }
        self.size += size;
    }

    /// Adds the entry where `admits` allows it, and hands the value back
    /// where it does not.
    pub fn try_add(&mut self, key: String, value: InMemoryFs) -> (refused: Option<InMemoryFs>)
        requires
            old(self).wf(),
        ensures
            final(self).wf(),
            final(self).capacity() == old(self).capacity(),
            final(self).spec_size() == total_size(final(self)@),
            final(self).spec_size() <= final(self).capacity(),
            value.size_spec() <= old(self).capacity() ==> refused is None && final(self)@ == added(
                old(self)@,
                old(self).capacity(),
                key@,
                value,
            ),
            value.size_spec() > old(self).capacity() ==> refused == Some(value) && final(self)@
                == old(self)@,
    {
        if self.admits(&value) {
            self.add(key, value);
            None
        } else {
            Some(value)
        }
    }
}

} // verus!
