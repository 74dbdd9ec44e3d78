//! The ACS string pool.
//!
//! Programmatically generated strings (e.g. those returned by `strparam`) are
//! stored here. Identical strings map to identical string identifiers.
//!
//! When the string table needs to grow to hold more strings, a garbage
//! collection is first attempted to see if more room can be made to store
//! strings without growing. A string is considered in use if it has been
//! marked since the last collection, or if its lock count is non-zero.
//! Locking and unlocking are cumulative operations, tracked per level.

use vstd::prelude::*;

use crate::hashing::{metro_hash64, metro_hash64_of};
use crate::support::{str_eq, vec_capacity};
use std::collections::HashMap;
use vstd::std_specs::hash::{builds_valid_hashers, obeys_key_model};

verus! {

/// The number of hash buckets of the pool.
pub const NUM_BUCKETS: usize = 251;
/// The `next` link of an entry that holds no string.
pub const FREE_ENTRY: usize = usize::MAX - 1;
/// The `next` link of the last entry of a bucket's chain.
pub const NO_ENTRY: usize = usize::MAX;
/// The pool grows by this many entries, and collects garbage only past this size.
pub const MIN_GC_SIZE: usize = 100;
/// The bits of a string identifier that hold the library ID.
pub const LIBID_MASK: usize = 0xFFF0_0000;
/// How far the library ID is shifted within a string identifier.
pub const LIBID_SHIFT: usize = 20;
/// The library ID of the pool: `i32::MAX >> LIBID_SHIFT`.
pub const LIBID: usize = 0x7FF;
/// The library ID shifted into place: `LIBID << LIBID_SHIFT`.
pub const LIBID_OR: usize = 0x7FF0_0000;

/// The hash a pool entry stores for its string: MetroHash of its UTF-8 bytes.
pub open spec fn pool_hash(s: Seq<char>) -> usize {
    metro_hash64_of(vstd::utf8::encode_utf8(s)) as usize
}

/// The identifier handed out for the entry at `index`.
pub open spec fn id_of(index: int) -> usize {
    (index as usize | LIBID_OR) as usize
}

/// Whether `id` carries the pool's library ID.
pub open spec fn has_libid(id: usize) -> bool {
    id & LIBID_MASK == LIBID_OR
}

/// The entry index that an identifier designates.
pub open spec fn index_of(id: usize) -> int {
    (id & !LIBID_MASK) as int
}

/// What a used pool slot holds.
pub struct Slot {
    pub string: Seq<char>,
    pub hash: usize,
    pub marked: bool,
    pub locks: Seq<u16>,
}

/// Whether `locks` holds `level`.
pub open spec fn holds_lock(locks: Seq<u16>, level: u16) -> bool {
    exists|k: int| 0 <= k < locks.len() && locks[k] == level
}

/// The first position of `level` in `locks`, if any.
pub open spec fn first_lock_pos(locks: Seq<u16>, level: u16) -> int {
    choose|k: int|
        0 <= k < locks.len() && locks[k] == level && forall|j: int| 0 <= j < k ==> locks[j] != level
}

/// `locks` after adding `level`, unless it is already held.
pub open spec fn locks_with(locks: Seq<u16>, level: u16) -> Seq<u16> {
    if holds_lock(locks, level) {
        locks
    } else {
        locks.push(level)
    }
}

/// `locks` after removing the first occurrence of `level` by moving the last
/// lock into its place.
pub open spec fn locks_without(locks: Seq<u16>, level: u16) -> Seq<u16> {
    if holds_lock(locks, level) {
        let p = first_lock_pos(locks, level);
        locks.update(p, locks.last()).drop_last()
    } else {
        locks
    }
}

/// A slot after a garbage collection: kept, with its mark cleared, when it is
/// locked or marked; otherwise freed.
pub open spec fn purged_slot(s: Option<Slot>) -> Option<Slot> {
    match s {
        Some(sl) => if sl.locks.len() > 0 || sl.marked {
            Some(Slot { marked: false, ..sl })
        } else {
            None
        },
        None => None,
    }
}

/// The pool after a garbage collection.
pub open spec fn purged(v: Seq<Option<Slot>>) -> Seq<Option<Slot>> {
    Seq::new(v.len(), |i: int| purged_slot(v[i]))
}

/// Whether a used slot of `v` holds `s`.
pub open spec fn holds_string(v: Seq<Option<Slot>>, s: Seq<char>) -> bool {
    exists|i: int| 0 <= i < v.len() && v[i] is Some && v[i]->0.string == s
}

/// Whether every slot of `v` is used.
pub open spec fn is_full(v: Seq<Option<Slot>>) -> bool {
    forall|i: int| 0 <= i < v.len() ==> v[i] is Some
}

/// Whether `idx` is the lowest free slot of `v`, or its length if none is free.
pub open spec fn lowest_free(v: Seq<Option<Slot>>, idx: int) -> bool {
    &&& 0 <= idx <= v.len()
    &&& forall|j: int| 0 <= j < idx ==> v[j] is Some
    &&& idx < v.len() ==> v[idx] is None
}

/// The slot a newly inserted string gets.
pub open spec fn new_slot(s: Seq<char>) -> Slot {
    Slot { string: s, hash: pool_hash(s), marked: false, locks: Seq::empty() }
}

/// `v` after `s` is stored at `idx`; a full pool first grows by `MIN_GC_SIZE` free slots.
pub open spec fn after_insert(v: Seq<Option<Slot>>, s: Seq<char>, idx: int) -> Seq<Option<Slot>> {
    let grown = if idx == v.len() {
        v + Seq::new(MIN_GC_SIZE as nat, |i: int| None::<Slot>)
    } else {
        v
    };
    grown.update(idx, Some(new_slot(s)))
}

/// Storing `s` into `base` at its lowest free slot, unless that slot's index
/// would collide with the library ID, in which case nothing is stored.
pub open spec fn stored_into(
    base: Seq<Option<Slot>>,
    s: Seq<char>,
    r: Option<usize>,
    new_v: Seq<Option<Slot>>,
) -> bool {
    exists|idx: int|
        lowest_free(base, idx) && if idx >= LIBID_OR {
            r is None && new_v == base
        } else {
            r == Some(id_of(idx)) && new_v == after_insert(base, s, idx)
        }
}

/// The outcome of inserting a new string into `old_v`: a pool that is full and
/// at least `MIN_GC_SIZE` long may be garbage-collected first.
pub open spec fn insert_outcome(
    old_v: Seq<Option<Slot>>,
    s: Seq<char>,
    r: Option<usize>,
    new_v: Seq<Option<Slot>>,
) -> bool {
    ||| stored_into(old_v, s, r, new_v)
    ||| is_full(old_v) && old_v.len() >= MIN_GC_SIZE && stored_into(purged(old_v), s, r, new_v)
}

/// A used slot with a lock for `level` added.
pub open spec fn locked_slot(s: Option<Slot>, level: u16) -> Option<Slot> {
    match s {
        Some(sl) => Some(Slot { locks: locks_with(sl.locks, level), ..sl }),
        None => None,
    }
}

/// A used slot with its first lock for `level` removed.
pub open spec fn unlocked_slot(s: Option<Slot>, level: u16) -> Option<Slot> {
    match s {
        Some(sl) => Some(Slot { locks: locks_without(sl.locks, level), ..sl }),
        None => None,
    }
}

/// A used slot, marked as in use.
pub open spec fn marked_slot(s: Option<Slot>) -> Option<Slot> {
    match s {
        Some(sl) => Some(Slot { marked: true, ..sl }),
        None => None,
    }
}

/// A used slot with no mark and no locks.
pub open spec fn released_slot(s: Option<Slot>) -> Option<Slot> {
    match s {
        Some(sl) => Some(Slot { marked: false, locks: Seq::empty(), ..sl }),
        None => None,
    }
}

/// Every used slot of `v` with no mark and no locks.
pub open spec fn released(v: Seq<Option<Slot>>) -> Seq<Option<Slot>> {
    Seq::new(v.len(), |i: int| released_slot(v[i]))
}

/// Whether one of `ids` is a well-formed identifier of slot `i` of a pool of `len` slots.
pub open spec fn targets(ids: Seq<usize>, len: int, i: int) -> bool {
    exists|k: int|
        0 <= k < ids.len() && has_libid(#[trigger] ids[k]) && index_of(ids[k]) == i && i < len
}

/// Locking a slot twice for one level is the same as locking it once.
proof fn lemma_locks_with_idempotent(v: Seq<Option<Slot>>, i: int, level: u16)
    requires
        0 <= i < v.len(),
    ensures
        locked_slot(locked_slot(v[i], level), level) == locked_slot(v[i], level),
{
    if let Some(sl) = v[i] {
        let l = sl.locks;
        if !holds_lock(l, level) {
            assert(l.push(level)[l.len() as int] == level);
            assert(holds_lock(l.push(level), level));
        }
    }
}

/// Whether one of `vals`, read as an identifier, designates slot `i` of a pool of `len` slots.
pub open spec fn targets_value(vals: Set<i32>, len: int, i: int) -> bool {
    exists|v: i32| vals.contains(v) && has_libid(v as usize) && index_of(v as usize) == i && i < len
}

/// Whether no two used slots of `v` hold the same string.
pub open spec fn unique_strings(v: Seq<Option<Slot>>) -> bool {
    forall|i: int, j: int|
        0 <= i < v.len() && 0 <= j < v.len() && i != j && v[i] is Some && v[j] is Some
            ==> #[trigger] v[i]->0.string != #[trigger] v[j]->0.string
}

/// The outcome of interning `s` into a pool whose slots were `old_v`: a string
/// already held keeps its identifier and leaves the pool unchanged; any other
/// string is inserted.
pub open spec fn add_outcome(
    old_v: Seq<Option<Slot>>,
    s: Seq<char>,
    r: Option<usize>,
    new_v: Seq<Option<Slot>>,
) -> bool {
    &&& holds_string(old_v, s) ==> exists|i: int|
        0 <= i < old_v.len() && old_v[i] is Some && old_v[i]->0.string == s && r == Some(id_of(i))
            && new_v == old_v
    &&& !holds_string(old_v, s) ==> insert_outcome(old_v, s, r, new_v)
}

#[derive(Debug)]
pub struct Entry {
    string: String,
    hash: usize,
    next: usize,
    marked: bool,
    locks: Vec<u16>,
}

impl Entry {
    pub closed spec fn is_free(&self) -> bool {
        self.next == FREE_ENTRY
    }

    pub closed spec fn slot(&self) -> Slot {
        Slot { string: self.string@, hash: self.hash, marked: self.marked, locks: self.locks@ }
    }

    /// A slot that holds no string.
    fn free() -> (r: Entry)
        ensures
            r.is_free(),
    {
        Entry { string: String::new(), hash: 0, next: FREE_ENTRY, marked: false, locks: Vec::new() }
    }

    /// Adds a lock for `level_num`, unless one is already held.
    fn lock(&mut self, level_num: u16)
        ensures
            final(self).locks@ == locks_with(old(self).locks@, level_num),
            final(self).string == old(self).string,
            final(self).hash == old(self).hash,
            final(self).next == old(self).next,
            final(self).marked == old(self).marked,
    {
        let mut k: usize = 0;
        while k < self.locks.len()
            invariant
                0 <= k <= self.locks@.len(),
                *self == *old(self),
                forall|j: int| 0 <= j < k ==> self.locks@[j] != level_num,
            decreases self.locks@.len() - k,
        {
            if self.locks[k] == level_num {
                assert(holds_lock(self.locks@, level_num));
                return;
            }
            k = k + 1;
        }
        assert(!holds_lock(self.locks@, level_num));
        self.locks.push(level_num);
    }

    /// Removes the first lock for `level_num`, if any, by moving the last lock
    /// into its place.
    fn unlock(&mut self, level_num: u16)
        ensures
            final(self).locks@ == locks_without(old(self).locks@, level_num),
            final(self).string == old(self).string,
            final(self).hash == old(self).hash,
            final(self).next == old(self).next,
            final(self).marked == old(self).marked,
    {
        let mut k: usize = 0;
        while k < self.locks.len()
            invariant
                0 <= k <= self.locks@.len(),
                *self == *old(self),
                forall|j: int| 0 <= j < k ==> self.locks@[j] != level_num,
            decreases self.locks@.len() - k,
        {
            if self.locks[k] == level_num {
                proof {
                    let ghost l = self.locks@;
                    assert(holds_lock(l, level_num));
                    let p = first_lock_pos(l, level_num);
                    if p < k {
                    } else if p > k {
                        assert(l[k as int] == level_num);
                    }
                    assert(p == k);
                }
                self.locks.swap_remove(k);
                return;
            }
            k = k + 1;
        }
        assert(!holds_lock(self.locks@, level_num));
    }
}

/// The string table: entries chained into hash buckets, reused once freed.
pub struct StringPool {
    pool: Vec<Entry>,
    buckets: Vec<usize>,
    first_free_entry: usize,
    /// For each bucket, its chain from the tail to the head.
    chains: Ghost<Seq<Seq<int>>>,
    /// For each used entry, its position in the chain of its bucket.
    pos: Ghost<Seq<int>>,
}

impl Default for StringPool {
    /// An empty pool.
    fn default() -> (r: Self)
        ensures
            r.wf(),
            r@ == Seq::<Option<Slot>>::empty(),
            r.first_free() == 0,
    {
        StringPool::new()
    }
}

impl View for StringPool {
    type V = Seq<Option<Slot>>;

    closed spec fn view(&self) -> Seq<Option<Slot>> {
        Seq::new(
            self.pool@.len(),
            |i: int|
                if self.pool@[i].is_free() {
                    None
                } else {
                    Some(self.pool@[i].slot())
                },
        )
    }
}

impl StringPool {
    spec fn live(&self, i: int) -> bool {
        0 <= i < self.pool@.len() && !self.pool@[i].is_free()
    }

    spec fn chain_wf(&self, b: int) -> bool {
        let c = self.chains@[b];
        &&& (c.len() == 0 ==> self.buckets@[b] == NO_ENTRY)
        &&& (c.len() > 0 ==> self.buckets@[b] == c.last())
        &&& forall|k: int|
            #![trigger c[k]]
            0 <= k < c.len() ==> {
                &&& self.live(c[k])
                &&& self.pool@[c[k]].hash % NUM_BUCKETS == b
                &&& self.pos@[c[k]] == k
                &&& self.pool@[c[k]].next == (if k == 0 {
                    NO_ENTRY
                } else {
                    c[k - 1] as usize
                })
            }
    }

    pub closed spec fn wf(&self) -> bool {
        &&& self.wf_core()
        &&& self.first_free_entry <= self.pool@.len()
        &&& forall|i: int| 0 <= i < self.first_free_entry ==> #[trigger] self.live(i)
        &&& self.first_free_entry < self.pool@.len() ==> !self.live(self.first_free_entry as int)
    }

    spec fn wf_core(&self) -> bool {
        &&& self.buckets@.len() == NUM_BUCKETS
        &&& self.chains@.len() == NUM_BUCKETS
        &&& self.pos@.len() == self.pool@.len()
        &&& self.pool@.len() < LIBID_OR + MIN_GC_SIZE
        &&& forall|b: int| 0 <= b < NUM_BUCKETS ==> #[trigger] self.chain_wf(b)
        &&& forall|i: int|
            #![trigger self.pool@[i]]
            self.live(i) ==> {
                let b = self.pool@[i].hash % NUM_BUCKETS;
                &&& 0 <= self.pos@[i] < self.chains@[b as int].len()
                &&& self.chains@[b as int][self.pos@[i]] == i
                &&& self.pool@[i].hash == pool_hash(self.pool@[i].string@)
            }
        &&& forall|i: int, j: int|
            #![trigger self.pool@[i], self.pool@[j]]
            self.live(i) && self.live(j) && i != j ==> self.pool@[i].string@
                != self.pool@[j].string@
    }

    /// The index of the lowest free entry, or the pool's length if none is free.
    pub closed spec fn first_free(&self) -> int {
        self.first_free_entry as int
    }

    /// An empty pool.
    fn new() -> (r: StringPool)
        ensures
            r.wf(),
            r@ == Seq::<Option<Slot>>::empty(),
            r.first_free() == 0,
    {
        let buckets = Self::empty_buckets();
        let r = StringPool {
            pool: Vec::new(),
            buckets,
            first_free_entry: 0,
            chains: Ghost(Seq::new(NUM_BUCKETS as nat, |i: int| Seq::<int>::empty())),
            pos: Ghost(Seq::empty()),
        };
        assert forall|b: int| 0 <= b < NUM_BUCKETS implies #[trigger] r.chain_wf(b) by {}
        assert(r@ =~= Seq::<Option<Slot>>::empty());
        r
    }

    /// The string behind an identifier, if the identifier designates a used entry.
    pub fn get(&self, id: usize) -> (r: Option<&str>)
        requires
            has_libid(id),
        ensures
            match r {
                Some(s) => 0 <= index_of(id) < self@.len() && self@[index_of(id)] is Some
                    && s@ == self@[index_of(id)]->0.string,
                None => !(0 <= index_of(id) < self@.len() && self@[index_of(id)] is Some),
            },
    {
        let index = id & !LIBID_MASK;
        if index >= self.pool.len() {
            return None;
        }
        if self.pool[index].next == FREE_ENTRY {
            return None;
        }
        Some(self.pool[index].string.as_str())
    }

    /// The entry index that a well-formed identifier designates.
    pub fn pool_index(&self, str_num: usize) -> (r: usize)
        requires
            has_libid(str_num),
            index_of(str_num) < self@.len(),
        ensures
            r == index_of(str_num),
    {
        str_num & !LIBID_MASK
    }

    /// The lowest index at or past `base` that is free or past the end of the pool.
    fn find_first_free_entry(&self, base: usize) -> (r: usize)
        ensures
            r >= base,
            forall|j: int| base <= j < r ==> #[trigger] self.live(j),
            r >= self.pool@.len() || !self.live(r as int),
            base <= self.pool@.len() ==> r <= self.pool@.len(),
    {
        let mut i = base;
        while i < self.pool.len() && self.pool[i].next != FREE_ENTRY
            invariant
                base <= i,
                base <= self.pool@.len() ==> i <= self.pool@.len(),
                forall|j: int| base <= j < i ==> #[trigger] self.live(j),
            decreases self.pool@.len() - i,
        {
            i = i + 1;
        }
        i
    }

    /// Looks for an entry holding `string` in the chain of `bucket`.
    fn find(&self, string: &str, hash: usize, bucket: usize) -> (r: Option<usize>)
        requires
            self.wf(),
            bucket == hash % NUM_BUCKETS,
        ensures
            match r {
                Some(i) => self.live(i as int) && self.pool@[i as int].string@ == string@
                    && self.pool@[i as int].hash == hash,
                None => forall|i: int|
                    #![trigger self.pool@[i]]
                    self.live(i) ==> !(self.pool@[i].string@ == string@ && self.pool@[i].hash
                        == hash),
            },
    {
        let ghost c = self.chains@[bucket as int];
        let mut i = self.buckets[bucket];
        let ghost mut k: int = c.len() - 1;
        assert(self.chain_wf(bucket as int));
        while i != NO_ENTRY
            invariant
                self.wf(),
                bucket < NUM_BUCKETS,
                c == self.chains@[bucket as int],
                self.chain_wf(bucket as int),
                -1 <= k < c.len(),
                k >= 0 ==> i == c[k],
                k == -1 ==> i == NO_ENTRY,
                forall|j: int|
                    k < j < c.len() ==> !(self.pool@[c[j]].string@ == string@ && self.pool@[c[j]].hash
                        == hash),
            decreases k + 1,
        {
            assert(0 <= k);
            let ghost ck = c[k];
            assert(self.live(ck));
            let entry = &self.pool[i];
            if entry.hash == hash && str_eq(entry.string.as_str(), string) {
                return Some(i);
            }
            i = entry.next;
            proof {
                k = k - 1;
            }
        }
        assert forall|i: int| #![trigger self.pool@[i]] self.live(i) implies !(self.pool@[i].string@
            == string@ && self.pool@[i].hash == hash) by {
            if self.pool@[i].hash == hash {
                let p = self.pos@[i];
                assert(c[p] == i);
            }
        }
        None
    }

    /// One chain head per bucket, every chain empty.
    fn empty_buckets() -> (r: Vec<usize>)
        ensures
            r@.len() == NUM_BUCKETS,
            forall|j: int| 0 <= j < NUM_BUCKETS ==> r@[j] == NO_ENTRY,
    {
        let mut buckets: Vec<usize> = Vec::new();
        let mut b: usize = 0;
        while b < NUM_BUCKETS
            invariant
                0 <= b <= NUM_BUCKETS,
                buckets@.len() == b,
                forall|j: int| 0 <= j < b ==> buckets@[j] == NO_ENTRY,
            decreases NUM_BUCKETS - b,
        {
            buckets.push(NO_ENTRY);
            b = b + 1;
        }
        buckets
    }

    /// What holds of the pool part-way through a purge: entries before `i` are
    /// processed, the others are as they were in `old_pool`.
    spec fn purge_inv(&self, i: int, old_pool: Seq<Entry>, old_ff: int) -> bool {
        let len = old_pool.len();
        &&& 0 <= i <= len
        &&& self.pool@.len() == len
        &&& len < LIBID_OR + MIN_GC_SIZE
        &&& 0 <= old_ff <= len
        &&& forall|j: int| 0 <= j < old_ff ==> !(#[trigger] old_pool[j]).is_free()
        &&& old_ff < len ==> old_pool[old_ff].is_free()
        &&& self.buckets@.len() == NUM_BUCKETS
        &&& self.chains@.len() == NUM_BUCKETS
        &&& self.pos@.len() == len
        &&& forall|j: int| i <= j < len ==> self.pool@[j] == #[trigger] old_pool[j]
        &&& forall|j: int|
            #![trigger self.pool@[j]]
            0 <= j < i ==> if old_pool[j].is_free() {
                self.pool@[j].is_free()
            } else if old_pool[j].locks@.len() > 0 || old_pool[j].marked {
                &&& !self.pool@[j].is_free()
                &&& self.pool@[j].slot() == Slot { marked: false, ..old_pool[j].slot() }
                &&& self.pool@[j].hash == old_pool[j].hash
                &&& self.pool@[j].string@ == old_pool[j].string@
            } else {
                self.pool@[j].is_free()
            }
        &&& forall|b: int| 0 <= b < NUM_BUCKETS ==> #[trigger] self.chain_wf(b)
        &&& forall|b: int, k: int|
            0 <= b < NUM_BUCKETS && 0 <= k < self.chains@[b].len() ==> #[trigger] self.chains@[b][k]
                < i
        &&& forall|j: int|
            #![trigger self.pool@[j]]
            0 <= j < i && self.live(j) ==> {
                let b = self.pool@[j].hash % NUM_BUCKETS;
                &&& 0 <= self.pos@[j] < self.chains@[b as int].len()
                &&& self.chains@[b as int][self.pos@[j]] == j
            }
        &&& self.first_free_entry <= old_ff
        &&& forall|j: int| 0 <= j < self.first_free_entry && j < i ==> #[trigger] self.live(j)
        &&& self.first_free_entry < len ==> if self.first_free_entry < i {
            !self.live(self.first_free_entry as int)
        } else {
            self.first_free_entry == old_ff
        }
    }

    proof fn lemma_purge_skip(&self, i: int, old_pool: Seq<Entry>, old_ff: int)
        requires
            self.purge_inv(i, old_pool, old_ff),
            i < old_pool.len(),
            old_pool[i].is_free(),
        ensures
            self.purge_inv(i + 1, old_pool, old_ff),
    {
        assert(self.pool@[i] == old_pool[i]);
        assert forall|b: int, k: int|
            0 <= b < NUM_BUCKETS && 0 <= k < self.chains@[b].len() implies #[trigger] self.chains@[b][k]
            < i + 1 by {}
    }

    /// Purge step for an entry that is freed.
    fn purge_free_step(&mut self, i: usize, Ghost(old_pool): Ghost<Seq<Entry>>, Ghost(old_ff): Ghost<int>)
        requires
            old(self).purge_inv(i as int, old_pool, old_ff),
            i < old_pool.len(),
            !old_pool[i as int].is_free(),
            old_pool[i as int].locks@.len() == 0,
            !old_pool[i as int].marked,
        ensures
            final(self).purge_inv(i + 1, old_pool, old_ff),
    {
        let ghost before = *self;
        assert(self.pool@[i as int] == old_pool[i as int]);
        self.pool[i].next = FREE_ENTRY;
        if i < self.first_free_entry {
            self.first_free_entry = i;
        }
        self.pool[i].string = String::new();
        proof {
            assert forall|b: int| 0 <= b < NUM_BUCKETS implies #[trigger] self.chain_wf(b) by {
                assert(before.chain_wf(b));
                let c2 = self.chains@[b];
                assert forall|k: int| #![trigger c2[k]] 0 <= k < c2.len() implies {
                    &&& self.live(c2[k])
                    &&& self.pool@[c2[k]].hash % NUM_BUCKETS == b
                    &&& self.pos@[c2[k]] == k
                    &&& self.pool@[c2[k]].next == (if k == 0 {
                        NO_ENTRY
                    } else {
                        c2[k - 1] as usize
                    })
                } by {
                    assert(c2[k] < i);
                }
            }
        }
    }

    /// Purge step for an entry that is kept: it joins the chain of its bucket.
    fn purge_keep_step(&mut self, i: usize, Ghost(old_pool): Ghost<Seq<Entry>>, Ghost(old_ff): Ghost<int>)
        requires
            old(self).purge_inv(i as int, old_pool, old_ff),
            i < old_pool.len(),
            !old_pool[i as int].is_free(),
            old_pool[i as int].locks@.len() > 0 || old_pool[i as int].marked,
        ensures
            final(self).purge_inv(i + 1, old_pool, old_ff),
    {
        let ghost before = *self;
        assert(self.pool@[i as int] == old_pool[i as int]);
        let h = self.pool[i].hash % NUM_BUCKETS;
        let ghost c = self.chains@[h as int];
        assert(self.chain_wf(h as int));
        let head = self.buckets[h];
        self.pool[i].next = head;
        self.buckets.set(h, i);
        self.pool[i].marked = false;
        proof {
            self.pos@ = self.pos@.update(i as int, c.len() as int);
            self.chains@ = self.chains@.update(h as int, c.push(i as int));
            assert forall|b: int| 0 <= b < NUM_BUCKETS implies #[trigger] self.chain_wf(b) by {
                assert(before.chain_wf(b));
                let c2 = self.chains@[b];
                assert forall|k: int| #![trigger c2[k]] 0 <= k < c2.len() implies {
                    &&& self.live(c2[k])
                    &&& self.pool@[c2[k]].hash % NUM_BUCKETS == b
                    &&& self.pos@[c2[k]] == k
                    &&& self.pool@[c2[k]].next == (if k == 0 {
                        NO_ENTRY
                    } else {
                        c2[k - 1] as usize
                    })
                } by {
                    if b == h && k == c.len() {
                    } else if b == h {
                        assert(c[k] < i);
                        assert(c2[k] == c[k]);
                    } else {
                        assert(c2[k] < i);
                    }
                }
            }
            assert forall|b: int, k: int|
                0 <= b < NUM_BUCKETS && 0 <= k < self.chains@[b].len() implies #[trigger] self.chains@[b][k]
                < i + 1 by {
                if b == h && k < c.len() {
                    assert(self.chains@[b][k] == c[k]);
                }
            }
        }
    }

    /// Frees every entry that is neither locked nor marked, clears the marks of
    /// the others, and rebuilds the hash chains from what is kept.
    pub fn purge(&mut self)
        requires
            old(self).wf(),
        ensures
            final(self).wf(),
            final(self)@ == purged(old(self)@),
            final(self).first_free() <= old(self).first_free(),
    {
        let ghost old_pool = self.pool@;
        let ghost old_ff = self.first_free_entry as int;
        let ghost old_view = self@;
        self.buckets = Self::empty_buckets();
        self.chains = Ghost(Seq::new(NUM_BUCKETS as nat, |i: int| Seq::<int>::empty()));
        assert forall|b: int| 0 <= b < NUM_BUCKETS implies #[trigger] self.chain_wf(b) by {}
        let len = self.pool.len();
        let mut i: usize = 0;
        while i < len
            invariant
                len == old_pool.len(),
                self.purge_inv(i as int, old_pool, old_ff),
            decreases len - i,
        {
            if self.pool[i].next == FREE_ENTRY {
                proof {
                    self.lemma_purge_skip(i as int, old_pool, old_ff);
                }
            } else if self.pool[i].locks.len() == 0 && !self.pool[i].marked {
                self.purge_free_step(i, Ghost(old_pool), Ghost(old_ff));
            } else {
                self.purge_keep_step(i, Ghost(old_pool), Ghost(old_ff));
            }
            i = i + 1;
        }
        proof {
            assert forall|j: int| 0 <= j < self.first_free_entry implies #[trigger] self.live(j) by {}
            assert forall|j: int, k: int|
                #![trigger self.pool@[j], self.pool@[k]]
                self.live(j) && self.live(k) && j != k implies self.pool@[j].string@
                != self.pool@[k].string@ by {
                assert(old_pool[j] == old_pool[j]);
                assert(old_pool[k] == old_pool[k]);
            }
            assert forall|j: int| #![trigger self.pool@[j]] self.live(j) implies self.pool@[j].hash
                == pool_hash(self.pool@[j].string@) by {
                assert(old_pool[j] == old_pool[j]);
            }
            assert(self@ =~= purged(old_view));
        }
    }

    proof fn lemma_core_same(a: &Self, b: &Self)
        requires
            a.wf_core(),
            a.pool == b.pool,
            a.buckets == b.buckets,
            a.chains == b.chains,
            a.pos == b.pos,
        ensures
            b.wf_core(),
    {
        assert forall|bk: int| 0 <= bk < NUM_BUCKETS implies #[trigger] b.chain_wf(bk) by {
            assert(a.chain_wf(bk));
            let c = b.chains@[bk];
            assert forall|k: int| #![trigger c[k]] 0 <= k < c.len() implies b.live(c[k]) by {
                assert(a.live(c[k]));
            }
        }
        assert forall|i: int| #![trigger b.pool@[i]] b.live(i) implies ({
            let bk = b.pool@[i].hash % NUM_BUCKETS;
            &&& 0 <= b.pos@[i] < b.chains@[bk as int].len()
            &&& b.chains@[bk as int][b.pos@[i]] == i
            &&& b.pool@[i].hash == pool_hash(b.pool@[i].string@)
        }) by {
            assert(a.live(i));
        }
        assert forall|i: int, j: int|
            #![trigger b.pool@[i], b.pool@[j]]
            b.live(i) && b.live(j) && i != j implies b.pool@[i].string@ != b.pool@[j].string@ by {
            assert(a.live(i));
            assert(a.live(j));
        }
    }

    proof fn lemma_lowest_free(&self)
        requires
            self.wf(),
        ensures
            lowest_free(self@, self.first_free_entry as int),
    {
    }

    /// Appends `MIN_GC_SIZE` free entries to a pool that has none free.
    fn grow(&mut self)
        requires
            old(self).wf(),
            old(self).first_free_entry == old(self).pool@.len(),
            old(self).pool@.len() < LIBID_OR,
        ensures
            final(self).wf(),
            final(self)@ == old(self)@ + Seq::new(MIN_GC_SIZE as nat, |i: int| None::<Slot>),
            final(self).first_free_entry == old(self).first_free_entry,
            final(self).pool@.len() == old(self).pool@.len() + MIN_GC_SIZE,
            final(self).buckets == old(self).buckets,
    {
        let ghost old_self = *self;
        let mut n: usize = 0;
        while n < MIN_GC_SIZE
            invariant
                0 <= n <= MIN_GC_SIZE,
                self.pool@.len() == old_self.pool@.len() + n,
                forall|j: int| 0 <= j < old_self.pool@.len() ==> self.pool@[j] == old_self.pool@[j],
                forall|j: int| old_self.pool@.len() <= j < self.pool@.len() ==> self.pool@[j].is_free(),
                self.buckets == old_self.buckets,
                self.chains == old_self.chains,
                self.pos == old_self.pos,
                self.first_free_entry == old_self.first_free_entry,
            decreases MIN_GC_SIZE - n,
        {
            self.pool.push(Entry::free());
            n = n + 1;
        }
        proof {
            self.pos@ = self.pos@ + Seq::new(MIN_GC_SIZE as nat, |i: int| 0int);
            assert forall|b: int| 0 <= b < NUM_BUCKETS implies #[trigger] self.chain_wf(b) by {
                assert(old_self.chain_wf(b));
                let c = self.chains@[b];
                assert forall|k: int| #![trigger c[k]] 0 <= k < c.len() implies self.pos@[c[k]] == k by {
                    assert(old_self.live(c[k]));
                }
            }
            assert forall|i: int| #![trigger self.pool@[i]] self.live(i) implies ({
                let b = self.pool@[i].hash % NUM_BUCKETS;
                &&& 0 <= self.pos@[i] < self.chains@[b as int].len()
                &&& self.chains@[b as int][self.pos@[i]] == i
                &&& self.pool@[i].hash == pool_hash(self.pool@[i].string@)
            }) by {
                assert(old_self.live(i));
                assert(old_self.pool@[i] == old_self.pool@[i]);
            }
            assert forall|i: int, j: int|
                #![trigger self.pool@[i], self.pool@[j]]
                self.live(i) && self.live(j) && i != j implies self.pool@[i].string@
                != self.pool@[j].string@ by {
                assert(old_self.live(i));
                assert(old_self.live(j));
                assert(old_self.pool@[i] == old_self.pool@[i]);
                assert(old_self.pool@[j] == old_self.pool@[j]);
            }
            assert(self@ =~= old_self@ + Seq::new(MIN_GC_SIZE as nat, |i: int| None::<Slot>));
            assert forall|i: int| 0 <= i < self.first_free_entry implies #[trigger] self.live(i) by {
                assert(old_self.live(i));
            }
        }
    }

    /// Stores `string` in the free entry `index`, heading the chain of `bucket`.
    fn occupy(&mut self, index: usize, string: &str, hash: usize, bucket: usize)
        requires
            old(self).wf_core(),
            index < old(self).pool@.len(),
            !old(self).live(index as int),
            bucket == hash % NUM_BUCKETS,
            hash == pool_hash(string@),
            !holds_string(old(self)@, string@),
        ensures
            final(self).wf_core(),
            final(self)@ == old(self)@.update(index as int, Some(new_slot(string@))),
            final(self).first_free_entry == old(self).first_free_entry,
            final(self).pool@.len() == old(self).pool@.len(),
    {
        let ghost before = *self;
        let ghost c = self.chains@[bucket as int];
        assert(self.chain_wf(bucket as int));
        let head = self.buckets[bucket];
        self.pool[index].string = string.to_owned();
        self.pool[index].hash = hash;
        self.pool[index].next = head;
        self.pool[index].marked = false;
        self.pool[index].locks.clear();
        self.buckets.set(bucket, index);
        proof {
            self.pos@ = self.pos@.update(index as int, c.len() as int);
            self.chains@ = self.chains@.update(bucket as int, c.push(index as int));
            assert forall|b: int| 0 <= b < NUM_BUCKETS implies #[trigger] self.chain_wf(b) by {
                assert(before.chain_wf(b));
                let c2 = self.chains@[b];
                assert forall|k: int| #![trigger c2[k]] 0 <= k < c2.len() implies {
                    &&& self.live(c2[k])
                    &&& self.pool@[c2[k]].hash % NUM_BUCKETS == b
                    &&& self.pos@[c2[k]] == k
                    &&& self.pool@[c2[k]].next == (if k == 0 {
                        NO_ENTRY
                    } else {
                        c2[k - 1] as usize
                    })
                } by {
                    if b == bucket && k == c.len() {
                    } else if b == bucket {
                        assert(c2[k] == c[k]);
                        assert(before.live(c[k]));
                    } else {
                        assert(before.live(c2[k]));
                    }
                }
            }
            assert forall|i: int| #![trigger self.pool@[i]] self.live(i) implies ({
                let b = self.pool@[i].hash % NUM_BUCKETS;
                &&& 0 <= self.pos@[i] < self.chains@[b as int].len()
                &&& self.chains@[b as int][self.pos@[i]] == i
                &&& self.pool@[i].hash == pool_hash(self.pool@[i].string@)
            }) by {
                if i != index {
                    assert(before.live(i));
                    assert(before.pool@[i] == before.pool@[i]);
                    let b = before.pool@[i].hash % NUM_BUCKETS;
                    if b == bucket {
                        assert(before.chain_wf(b as int));
                    }
                }
            }
            assert forall|i: int, j: int|
                #![trigger self.pool@[i], self.pool@[j]]
                self.live(i) && self.live(j) && i != j implies self.pool@[i].string@
                != self.pool@[j].string@ by {
                if i == index {
                    assert(before.live(j));
                    assert(before@[j] is Some && before@[j]->0.string == before.pool@[j].string@);
                } else if j == index {
                    assert(before.live(i));
                    assert(before@[i] is Some && before@[i]->0.string == before.pool@[i].string@);
                } else {
                    assert(before.live(i));
                    assert(before.live(j));
                    assert(before.pool@[i] == before.pool@[i]);
                    assert(before.pool@[j] == before.pool@[j]);
                }
            }
            assert(self@ =~= before@.update(index as int, Some(new_slot(string@))));
        }
    }

    /// Stores a string that the pool does not hold yet, collecting garbage first
    /// when a pool of at least `MIN_GC_SIZE` entries has run out of room.
    /// Returns `None` if the entry index would collide with the library ID.
    fn insert(&mut self, string: &str, hash: usize, bucket: usize) -> (r: Option<usize>)
        requires
            old(self).wf(),
            bucket == hash % NUM_BUCKETS,
            hash == pool_hash(string@),
            !holds_string(old(self)@, string@),
        ensures
            final(self).wf(),
            insert_outcome(old(self)@, string@, r, final(self)@),
    {
        let ghost old_view = self@;
        let mut index = self.first_free_entry;
        let cap = vec_capacity(&self.pool);
        proof {
            self.lemma_lowest_free();
        }
        if index >= MIN_GC_SIZE && index == cap {
            self.gc_all();
            index = self.first_free_entry;
            proof {
                self.lemma_lowest_free();
                assert(is_full(old_view));
                assert forall|i: int| 0 <= i < self@.len() && self@[i] is Some implies self@[i]->0.string
                    != string@ by {
                    assert(old_view[i] is Some);
                }
            }
        }
        let ghost base = self@;
        if self.first_free_entry >= LIBID_OR {
            assert(stored_into(base, string@, None, self@));
            return None;
        }
        let grown = index == self.pool.len();
        if grown {
            self.grow();
        }
        self.occupy(index, string, hash, bucket);
        let ghost mid = *self;
        if grown {
            self.first_free_entry = self.first_free_entry + 1;
        } else {
            self.first_free_entry = self.find_first_free_entry(self.first_free_entry + 1);
        }
        proof {
            Self::lemma_core_same(&mid, self);
            assert(self@ =~= after_insert(base, string@, index as int));
            assert forall|i: int| 0 <= i < self.first_free_entry implies #[trigger] self.live(i) by {
                if i < index {
                    assert(base[i] is Some);
                    assert(self@[i] is Some);
                } else if i == index {
                    assert(self@[i] is Some);
                } else {
                    assert(mid.live(i));
                }
            }
            if self.first_free_entry < self.pool@.len() {
                if grown {
                    assert(self@[index + 1] is None);
                } else {
                    assert(!mid.live(self.first_free_entry as int));
                }
            }
            assert(stored_into(base, string@, Some(index | LIBID_OR), self@));
        }
        Some(index | LIBID_OR)
    }

    /// Interns `string`: an identical string already in the pool keeps its
    /// identifier and the pool is unchanged; otherwise the string is inserted.
    /// Returns `None` only if the pool has run out of identifiers.
    pub fn add(&mut self, string: &str) -> (r: Option<usize>)
        requires
            old(self).wf(),
        ensures
            final(self).wf(),
            add_outcome(old(self)@, string@, r, final(self)@),
            unique_strings(final(self)@),
    {
        let h = metro_hash64(string.as_bytes());
        let hash = h as usize;
        let bucket = hash % NUM_BUCKETS;
        assert(hash == pool_hash(string@));
        match self.find(string, hash, bucket) {
            Some(i) => {
                assert(self@[i as int] is Some);
                assert(self@[i as int]->0.string == string@);
                assert(id_of(i as int) == i | LIBID_OR);
                proof {
                    self.lemma_unique();
                }
                Some(i | LIBID_OR)
            },
            None => {
                proof {
                    assert forall|i: int| 0 <= i < self@.len() && self@[i] is Some implies self@[i]->0.string
                        != string@ by {
                        assert(self.live(i));
                        assert(self.pool@[i] == self.pool@[i]);
                    }
                    assert(!holds_string(self@, string@));
                }
                let r = self.insert(string, hash, bucket);
                proof {
                    self.lemma_unique();
                }
                r
            },
        }
    }

    /// A well-formed pool holds no string twice.
    pub proof fn lemma_unique(&self)
        requires
            self.wf(),
        ensures
            unique_strings(self@),
    {
        assert forall|i: int, j: int|
            0 <= i < self@.len() && 0 <= j < self@.len() && i != j && self@[i] is Some && self@[j] is Some
            implies #[trigger] self@[i]->0.string != #[trigger] self@[j]->0.string by {
            assert(self.live(i));
            assert(self.live(j));
            assert(self.pool@[i] == self.pool@[i]);
            assert(self.pool@[j] == self.pool@[j]);
        }
    }

    /// Collects garbage. Nothing outside the pool can mark strings yet, so
    /// this keeps exactly the locked strings and those marked since the last
    /// collection.
    pub fn gc_all(&mut self)
        requires
            old(self).wf(),
        ensures
            final(self).wf(),
            final(self)@ == purged(old(self)@),
    {
        self.purge();
    }

    /// Keeps well-formedness across changes that touch only marks and locks.
    proof fn lemma_same_links(a: &Self, b: &Self)
        requires
            a.wf(),
            a.pool@.len() == b.pool@.len(),
            forall|i: int|
                #![trigger b.pool@[i]]
                0 <= i < a.pool@.len() ==> b.pool@[i].string == a.pool@[i].string && b.pool@[i].hash
                    == a.pool@[i].hash && b.pool@[i].next == a.pool@[i].next,
            a.buckets == b.buckets,
            a.chains == b.chains,
            a.pos == b.pos,
            a.first_free_entry == b.first_free_entry,
        ensures
            b.wf(),
    {
        assert forall|i: int| #![trigger a.pool@[i]] 0 <= i < a.pool@.len() implies (a.live(i) <==> b.live(i)) by {
            assert(b.pool@[i].next == a.pool@[i].next);
        }
        assert forall|bk: int| 0 <= bk < NUM_BUCKETS implies #[trigger] b.chain_wf(bk) by {
            assert(a.chain_wf(bk));
            let c = b.chains@[bk];
            assert forall|k: int| #![trigger c[k]] 0 <= k < c.len() implies b.live(c[k]) && b.pool@[c[k]].hash
                == a.pool@[c[k]].hash && b.pool@[c[k]].next == a.pool@[c[k]].next by {
                assert(a.live(c[k]));
                assert(a.pool@[c[k]] == a.pool@[c[k]]);
            }
        }
        assert forall|i: int| 0 <= i < b.first_free_entry implies #[trigger] b.live(i) by {
            assert(a.live(i));
            assert(a.pool@[i] == a.pool@[i]);
        }
        if b.first_free_entry < b.pool@.len() {
            assert(a.pool@[b.first_free_entry as int] == a.pool@[b.first_free_entry as int]);
        }
        assert forall|i: int| #![trigger b.pool@[i]] b.live(i) implies ({
            let bk = b.pool@[i].hash % NUM_BUCKETS;
            &&& 0 <= b.pos@[i] < b.chains@[bk as int].len()
            &&& b.chains@[bk as int][b.pos@[i]] == i
            &&& b.pool@[i].hash == pool_hash(b.pool@[i].string@)
        }) by {
            assert(a.pool@[i] == a.pool@[i]);
            assert(a.live(i));
        }
        assert forall|i: int, j: int|
            #![trigger b.pool@[i], b.pool@[j]]
            b.live(i) && b.live(j) && i != j implies b.pool@[i].string@ != b.pool@[j].string@ by {
            assert(a.pool@[i] == a.pool@[i]);
            assert(a.pool@[j] == a.pool@[j]);
            assert(a.live(i));
            assert(a.live(j));
        }
    }

    /// Adds a lock for `level_num` to the string `str_num`.
    pub fn lock(&mut self, str_num: usize, level_num: u16)
        requires
            old(self).wf(),
            has_libid(str_num),
            index_of(str_num) < old(self)@.len(),
        ensures
            final(self).wf(),
            final(self)@ == old(self)@.update(
                index_of(str_num),
                locked_slot(old(self)@[index_of(str_num)], level_num),
            ),
    {
        let ghost before = *self;
        let index = self.pool_index(str_num);
        self.pool[index].lock(level_num);
        proof {
            Self::lemma_same_links(&before, self);
            assert(self@ =~= before@.update(index as int, locked_slot(before@[index as int], level_num)));
        }
    }

    /// Adds a lock for `level_num` to every string that the well-formed
    /// identifiers among `str_nums` designate; other identifiers are skipped.
    pub fn lock_array(&mut self, level_num: u16, str_nums: Vec<usize>)
        requires
            old(self).wf(),
        ensures
            final(self).wf(),
            final(self)@ == Seq::new(
                old(self)@.len(),
                |i: int|
                    if targets(str_nums@, old(self)@.len() as int, i) {
                        locked_slot(old(self)@[i], level_num)
                    } else {
                        old(self)@[i]
                    },
            ),
    {
        let ghost old_view = self@;
        let mut k: usize = 0;
        while k < str_nums.len()
            invariant
                0 <= k <= str_nums@.len(),
                self.wf(),
                self@ == Seq::new(
                    old_view.len(),
                    |i: int|
                        if targets(str_nums@.take(k as int), old_view.len() as int, i) {
                            locked_slot(old_view[i], level_num)
                        } else {
                            old_view[i]
                        },
                ),
            decreases str_nums@.len() - k,
        {
            let str_num = str_nums[k];
            let ghost prev = self@;
            let ghost mut hit = false;
            assert(self@.len() == self.pool@.len());
            if (str_num & LIBID_MASK) == LIBID_OR {
                let index = str_num & !LIBID_MASK;
                if index < self.pool.len() {
                    self.pool_lock_at(index, level_num);
                    proof {
                        hit = true;
                    }
                }
            }
            proof {
                let ids = str_nums@.take(k + 1);
                let before_ids = str_nums@.take(k as int);
                let n = old_view.len() as int;
                assert(ids[k as int] == str_num);
                assert(hit == (has_libid(str_num) && index_of(str_num) < n));
                assert(hit ==> self@ == prev.update(index_of(str_num), locked_slot(prev[index_of(str_num)], level_num)));
                assert(!hit ==> self@ == prev);
                assert forall|i: int| 0 <= i < n implies #[trigger] self@[i] == (if targets(ids, n, i) {
                    locked_slot(old_view[i], level_num)
                } else {
                    old_view[i]
                }) by {
                    if targets(ids, n, i) {
                        let w = choose|w: int| 0 <= w < ids.len() && has_libid(#[trigger] ids[w]) && index_of(ids[w]) == i && i < n;
                        if w < k {
                            assert(before_ids[w] == ids[w]);
                            assert(targets(before_ids, n, i));
                        }
                    }
                    if targets(before_ids, n, i) {
                        let w = choose|w: int| 0 <= w < before_ids.len() && has_libid(#[trigger] before_ids[w]) && index_of(before_ids[w]) == i && i < n;
                        assert(ids[w] == before_ids[w]);
                        assert(targets(ids, n, i));
                        lemma_locks_with_idempotent(old_view, i, level_num);
                    }
                    if hit && index_of(str_num) == i {
                        assert(targets(ids, n, i));
                    }
                }
                assert(self@ =~= Seq::new(
                    old_view.len(),
                    |i: int|
                        if targets(ids, n, i) {
                            locked_slot(old_view[i], level_num)
                        } else {
                            old_view[i]
                        },
                ));
            }
            k = k + 1;
        }
        assert(str_nums@.take(str_nums@.len() as int) =~= str_nums@);
    }

    /// Marks as in use every string that the well-formed identifiers among
    /// `str_nums` designate; other identifiers are skipped.
    pub fn gc_mark_array(&mut self, str_nums: Vec<usize>)
        requires
            old(self).wf(),
        ensures
            final(self).wf(),
            final(self)@ == Seq::new(
                old(self)@.len(),
                |i: int|
                    if targets(str_nums@, old(self)@.len() as int, i) {
                        marked_slot(old(self)@[i])
                    } else {
                        old(self)@[i]
                    },
            ),
    {
        let ghost old_view = self@;
        let mut k: usize = 0;
        while k < str_nums.len()
            invariant
                0 <= k <= str_nums@.len(),
                self.wf(),
                self@ == Seq::new(
                    old_view.len(),
                    |i: int|
                        if targets(str_nums@.take(k as int), old_view.len() as int, i) {
                            marked_slot(old_view[i])
                        } else {
                            old_view[i]
                        },
                ),
            decreases str_nums@.len() - k,
        {
            let str_num = str_nums[k];
            let ghost prev = self@;
            let ghost mut hit = false;
            assert(self@.len() == self.pool@.len());
            if (str_num & LIBID_MASK) == LIBID_OR {
                let index = str_num & !LIBID_MASK;
                if index < self.pool.len() {
                    self.pool_mark_at(index);
                    proof {
                        hit = true;
                    }
                }
            }
            proof {
                let ids = str_nums@.take(k + 1);
                let before_ids = str_nums@.take(k as int);
                let n = old_view.len() as int;
                assert(ids[k as int] == str_num);
                assert(hit == (has_libid(str_num) && index_of(str_num) < n));
                assert(hit ==> self@ == prev.update(index_of(str_num), marked_slot(prev[index_of(str_num)])));
                assert(!hit ==> self@ == prev);
                assert forall|i: int| 0 <= i < n implies #[trigger] self@[i] == (if targets(ids, n, i) {
                    marked_slot(old_view[i])
                } else {
                    old_view[i]
                }) by {
                    if targets(ids, n, i) {
                        let w = choose|w: int| 0 <= w < ids.len() && has_libid(#[trigger] ids[w]) && index_of(ids[w]) == i && i < n;
                        if w < k {
                            assert(before_ids[w] == ids[w]);
                            assert(targets(before_ids, n, i));
                        }
                    }
                    if targets(before_ids, n, i) {
                        let w = choose|w: int| 0 <= w < before_ids.len() && has_libid(#[trigger] before_ids[w]) && index_of(before_ids[w]) == i && i < n;
                        assert(ids[w] == before_ids[w]);
                        assert(targets(ids, n, i));
                    }
                    if hit && index_of(str_num) == i {
                        assert(targets(ids, n, i));
                    }
                }
                assert(self@ =~= Seq::new(
                    old_view.len(),
                    |i: int|
                        if targets(ids, n, i) {
                            marked_slot(old_view[i])
                        } else {
                            old_view[i]
                        },
                ));
            }
            k = k + 1;
        }
        assert(str_nums@.take(str_nums@.len() as int) =~= str_nums@);
    }

    /// Marks the entry at `index` as in use.
    fn pool_mark_at(&mut self, index: usize)
        requires
            old(self).wf(),
            index < old(self)@.len(),
        ensures
            final(self).wf(),
            final(self)@ == old(self)@.update(index as int, marked_slot(old(self)@[index as int])),
    {
        let ghost before = *self;
        self.pool[index].marked = true;
        proof {
            Self::lemma_same_links(&before, self);
            assert(self@ =~= before@.update(index as int, marked_slot(before@[index as int])));
        }
    }

    /// Marks the string `str_num` as in use.
    pub fn gc_mark(&mut self, str_num: usize)
        requires
            old(self).wf(),
            has_libid(str_num),
            index_of(str_num) < old(self)@.len(),
        ensures
            final(self).wf(),
            final(self)@ == old(self)@.update(index_of(str_num), marked_slot(old(self)@[index_of(str_num)])),
    {
        let index = self.pool_index(str_num);
        self.pool_mark_at(index);
    }

    /// Clears every mark and every lock.
    pub fn unlock_all(&mut self)
        requires
            old(self).wf(),
        ensures
            final(self).wf(),
            final(self)@ == released(old(self)@),
    {
        let ghost old_self = *self;
        let len = self.pool.len();
        let mut i: usize = 0;
        while i < len
            invariant
                0 <= i <= len,
                len == self.pool@.len(),
                len == old_self.pool@.len(),
                self.buckets == old_self.buckets,
                self.chains == old_self.chains,
                self.pos == old_self.pos,
                self.first_free_entry == old_self.first_free_entry,
                forall|j: int|
                    #![trigger self.pool@[j]]
                    0 <= j < len ==> self.pool@[j].string == old_self.pool@[j].string
                        && self.pool@[j].hash == old_self.pool@[j].hash && self.pool@[j].next
                        == old_self.pool@[j].next,
                forall|j: int|
                    #![trigger self.pool@[j]]
                    0 <= j < i ==> !self.pool@[j].marked && self.pool@[j].locks@.len() == 0,
                forall|j: int| #![trigger self.pool@[j]] i <= j < len ==> self.pool@[j] == old_self.pool@[j],
            decreases len - i,
        {
            self.pool[i].marked = false;
            self.pool[i].locks.clear();
            i = i + 1;
        }
        proof {
            Self::lemma_same_links(&old_self, self);
            assert forall|j: int| 0 <= j < len implies #[trigger] self@[j] == released_slot(old_self@[j]) by {
                assert(self.pool@[j].locks@ =~= Seq::<u16>::empty());
            }
            assert(self@ =~= released(old_self@));
        }
    }

    /// Removes one lock for `level_num` from every used entry that holds one.
    pub fn unlock_for_level(&mut self, level_num: u16)
        requires
            old(self).wf(),
        ensures
            final(self).wf(),
            final(self)@ == Seq::new(old(self)@.len(), |i: int| unlocked_slot(old(self)@[i], level_num)),
    {
        let ghost old_self = *self;
        let len = self.pool.len();
        let mut i: usize = 0;
        while i < len
            invariant
                0 <= i <= len,
                len == self.pool@.len(),
                len == old_self.pool@.len(),
                self.buckets == old_self.buckets,
                self.chains == old_self.chains,
                self.pos == old_self.pos,
                self.first_free_entry == old_self.first_free_entry,
                forall|j: int|
                    #![trigger self.pool@[j]]
                    0 <= j < len ==> self.pool@[j].string == old_self.pool@[j].string
                        && self.pool@[j].hash == old_self.pool@[j].hash && self.pool@[j].next
                        == old_self.pool@[j].next && self.pool@[j].marked == old_self.pool@[j].marked,
                forall|j: int|
                    #![trigger self.pool@[j]]
                    0 <= j < i && !old_self.pool@[j].is_free() ==> self.pool@[j].locks@ == locks_without(
                        old_self.pool@[j].locks@,
                        level_num,
                    ),
                forall|j: int| #![trigger self.pool@[j]] i <= j < len ==> self.pool@[j] == old_self.pool@[j],
            decreases len - i,
        {
            if self.pool[i].next != FREE_ENTRY {
                self.pool[i].unlock(level_num);
            }
            i = i + 1;
        }
        proof {
            Self::lemma_same_links(&old_self, self);
            assert(self@ =~= Seq::new(old_self@.len(), |i: int| unlocked_slot(old_self@[i], level_num)));
        }
    }

    /// Marks as in use every string that a value of `world_globals`, read as an
    /// identifier, designates; values that are not well-formed identifiers are skipped.
    pub fn gc_mark_map(&mut self, world_globals: HashMap<i32, i32>)
        requires
            old(self).wf(),
        ensures
            final(self).wf(),
            final(self)@ == Seq::new(
                old(self)@.len(),
                |i: int|
                    if targets_value(world_globals@.values(), old(self)@.len() as int, i) {
                        marked_slot(old(self)@[i])
                    } else {
                        old(self)@[i]
                    },
            ),
    {
        broadcast use vstd::std_specs::hash::group_hash_axioms;
        let mut ids: Vec<usize> = Vec::new();
        let ghost mut seen: Seq<i32> = Seq::empty();
        proof {
            assert(obeys_key_model::<i32>());
            assert(builds_valid_hashers::<std::hash::RandomState>());
        }
        let ghost all = vstd::std_specs::iter::IteratorSpec::remaining(
            &vstd::std_specs::hash::spec_values_iter(&world_globals),
        );
        for val in it: world_globals.values()
            invariant
                it.seq() == all,
                seen.len() == it.index(),
                seen == all.take(it.index()).unref(),
                ids@.len() == seen.len(),
                forall|k: int| 0 <= k < seen.len() ==> #[trigger] ids@[k] == seen[k] as usize,
        {
            proof {
                seen = seen.push(*val);
                assert(seen =~= all.take(it.index() + 1).unref());
            }
            ids.push(*val as usize);
        }
        let ghost old_view = self@;
        let ghost n = old_view.len() as int;
        proof {
            let vals = world_globals@.values();
            assert(seen =~= all.unref());
            assert(seen.to_set() =~= vals);
            assert forall|i: int| #![trigger old_view[i]] 0 <= i < n implies (targets(ids@, n, i)
                <==> targets_value(vals, n, i)) by {
                if targets(ids@, n, i) {
                    let k = choose|k: int| 0 <= k < ids@.len() && has_libid(#[trigger] ids@[k]) && index_of(ids@[k]) == i && i < n;
                    assert(seen.to_set().contains(seen[k]));
                }
                if targets_value(vals, n, i) {
                    let v = choose|v: i32| vals.contains(v) && has_libid(v as usize) && index_of(v as usize) == i && i < n;
                    assert(seen.to_set().contains(v));
                    let k = choose|k: int| 0 <= k < seen.len() && seen[k] == v;
                    assert(ids@[k] == v as usize);
                }
            }
        }
        self.gc_mark_array(ids);
        proof {
            assert(self@ =~= Seq::new(
                old_view.len(),
                |i: int|
                    if targets_value(world_globals@.values(), n, i) {
                        marked_slot(old_view[i])
                    } else {
                        old_view[i]
                    },
            ));
        }
    }

    /// Adds a lock for `level_num` to the entry at `index`.
    fn pool_lock_at(&mut self, index: usize, level_num: u16)
        requires
            old(self).wf(),
            index < old(self)@.len(),
        ensures
            final(self).wf(),
            final(self)@ == old(self)@.update(index as int, locked_slot(old(self)@[index as int], level_num)),
    {
        let ghost before = *self;
        self.pool[index].lock(level_num);
        proof {
            Self::lemma_same_links(&before, self);
            assert(self@ =~= before@.update(index as int, locked_slot(before@[index as int], level_num)));
        }
    }

    /// Empties the pool.
    pub fn clear(&mut self)
        ensures
            final(self).wf(),
            final(self)@ == Seq::<Option<Slot>>::empty(),
            final(self).first_free() == 0,
    {
        *self = StringPool::new();
    }
}

} // verus!

verus! {

/// An entry index below 2^20 survives the round trip through its identifier.
pub proof fn lemma_id_roundtrip(idx: int)
    requires
        0 <= idx < 0x10_0000,
    ensures
        has_libid(id_of(idx)),
        index_of(id_of(idx)) == idx,
{
    let u = idx as usize;
    assert((u | 0x7FF0_0000usize) & 0xFFF0_0000usize == 0x7FF0_0000usize) by (bit_vector)
        requires
            u < 0x10_0000usize,
    ;
    assert((u | 0x7FF0_0000usize) & !0xFFF0_0000usize == u) by (bit_vector)
        requires
            u < 0x10_0000usize,
    ;
}

/// A string that has been interned reads back through the identifier it got,
/// as long as the pool held fewer than 2^20 entries.
pub proof fn law_interned_string_reads_back(
    old_v: Seq<Option<Slot>>,
    s: Seq<char>,
    id: usize,
    new_v: Seq<Option<Slot>>,
)
    requires
        add_outcome(old_v, s, Some(id), new_v),
        old_v.len() < 0x10_0000,
    ensures
        has_libid(id),
        0 <= index_of(id) < new_v.len(),
        new_v[index_of(id)] is Some,
        new_v[index_of(id)]->0.string == s,
{
    if holds_string(old_v, s) {
        let i = choose|i: int|
            0 <= i < old_v.len() && old_v[i] is Some && old_v[i]->0.string == s && Some(id) == Some(
                id_of(i),
            ) && new_v == old_v;
        lemma_id_roundtrip(i);
    } else {
        let base = if stored_into(old_v, s, Some(id), new_v) {
            old_v
        } else {
            purged(old_v)
        };
        assert(stored_into(base, s, Some(id), new_v));
        let idx = choose|idx: int|
            lowest_free(base, idx) && if idx >= LIBID_OR {
                Some(id) is None && new_v == base
            } else {
                Some(id) == Some(id_of(idx)) && new_v == after_insert(base, s, idx)
            };
        lemma_id_roundtrip(idx);
    }
}

/// Identical strings map to identical identifiers: interning a string again
/// returns the identifier it got the first time and leaves the pool unchanged.
pub proof fn law_identical_strings_share_an_id(
    v0: Seq<Option<Slot>>,
    s: Seq<char>,
    id: usize,
    v1: Seq<Option<Slot>>,
    r2: Option<usize>,
    v2: Seq<Option<Slot>>,
)
    requires
        add_outcome(v0, s, Some(id), v1),
        unique_strings(v1),
        add_outcome(v1, s, r2, v2),
    ensures
        r2 == Some(id),
        v2 == v1,
{
    // Where the first call left `s`, and the identifier it gave for it.
    let k: int = if holds_string(v0, s) {
        choose|j: int|
            0 <= j < v0.len() && v0[j] is Some && v0[j]->0.string == s && Some(id) == Some(id_of(j)) && v1 == v0
    } else {
        let base = if stored_into(v0, s, Some(id), v1) {
            v0
        } else {
            purged(v0)
        };
        assert(stored_into(base, s, Some(id), v1));
        let idx = choose|idx: int|
            lowest_free(base, idx) && if idx >= LIBID_OR {
                Some(id) is None && v1 == base
            } else {
                Some(id) == Some(id_of(idx)) && v1 == after_insert(base, s, idx)
            };
        assert(v1[idx] == Some(new_slot(s)));
        idx
    };
    assert(0 <= k < v1.len() && v1[k] is Some && v1[k]->0.string == s && id == id_of(k));
    assert(holds_string(v1, s));
    let i = choose|i: int|
        0 <= i < v1.len() && v1[i] is Some && v1[i]->0.string == s && r2 == Some(id_of(i)) && v2 == v1;
    assert(i == k);
}

/// Locking is cumulative per level: when no string holds a lock for `level`,
/// locking one string for it and then unlocking the level restores every slot.
pub proof fn law_lock_then_unlock_level_restores(v: Seq<Option<Slot>>, idx: int, level: u16)
    requires
        0 <= idx < v.len(),
        forall|i: int| 0 <= i < v.len() && v[i] is Some ==> !holds_lock(#[trigger] v[i]->0.locks, level),
    ensures
        Seq::new(v.len(), |i: int| unlocked_slot(v.update(idx, locked_slot(v[idx], level))[i], level))
            == v,
{
    let w = Seq::new(v.len(), |i: int| unlocked_slot(v.update(idx, locked_slot(v[idx], level))[i], level));
    assert forall|i: int| 0 <= i < v.len() implies #[trigger] w[i] == v[i] by {
        if let Some(sl) = v[i] {
            if i == idx {
                let l = sl.locks.push(level);
                assert(l[sl.locks.len() as int] == level);
                assert(holds_lock(l, level));
                let p = first_lock_pos(l, level);
                assert(p == sl.locks.len()) by {
                    if p < sl.locks.len() {
                        assert(l[p] == sl.locks[p]);
                    }
                }
                assert(l.update(p, l.last()).drop_last() =~= sl.locks);
            }
        }
    }
    assert(w =~= v);
}

proof fn lemma_unlock_after_lock(s: Option<Slot>, level: u16)
    ensures
        unlocked_slot(locked_slot(s, level), level) == unlocked_slot(s, level),
{
    if let Some(sl) = s {
        if !holds_lock(sl.locks, level) {
            let l = sl.locks.push(level);
            assert(l[sl.locks.len() as int] == level);
            assert(holds_lock(l, level));
            let p = first_lock_pos(l, level);
            assert(p == sl.locks.len()) by {
                if p < sl.locks.len() {
                    assert(l[p] == sl.locks[p]);
                }
            }
            assert(l.update(p, l.last()).drop_last() =~= sl.locks);
        }
    }
}

/// A lock is held at most once per level: locking a string twice for a level
/// and then unlocking that level leaves every slot as unlocking it alone
/// would; so where no string held a lock for the level, every slot is as it
/// was before the two locks.
pub proof fn law_double_lock_then_unlock_level(v: Seq<Option<Slot>>, idx: int, level: u16)
    requires
        0 <= idx < v.len(),
    ensures
        ({
            let once = v.update(idx, locked_slot(v[idx], level));
            let twice = once.update(idx, locked_slot(once[idx], level));
            &&& Seq::new(v.len(), |i: int| unlocked_slot(twice[i], level)) == Seq::new(
                v.len(),
                |i: int| unlocked_slot(v[i], level),
            )
            &&& (forall|i: int| 0 <= i < v.len() && v[i] is Some ==> !holds_lock(#[trigger] v[i]->0.locks, level))
                ==> Seq::new(v.len(), |i: int| unlocked_slot(twice[i], level)) == v
        }),
{
    let once = v.update(idx, locked_slot(v[idx], level));
    let twice = once.update(idx, locked_slot(once[idx], level));
    lemma_locks_with_idempotent(v, idx, level);
    assert(twice =~= once);
    lemma_unlock_after_lock(v[idx], level);
    let a = Seq::new(v.len(), |i: int| unlocked_slot(twice[i], level));
    let b = Seq::new(v.len(), |i: int| unlocked_slot(v[i], level));
    assert(a =~= b);
    if forall|i: int| 0 <= i < v.len() && v[i] is Some ==> !holds_lock(#[trigger] v[i]->0.locks, level) {
        law_lock_then_unlock_level_restores(v, idx, level);
        assert(a =~= Seq::new(v.len(), |i: int| unlocked_slot(once[i], level)));
    }
}

/// A garbage collection keeps every locked or marked string where it was, and
/// frees every other one.
pub proof fn law_collection_keeps_locked_and_marked(v: Seq<Option<Slot>>, i: int)
    requires
        0 <= i < v.len(),
        v[i] is Some,
    ensures
        (v[i]->0.locks.len() > 0 || v[i]->0.marked) ==> purged(v)[i] is Some && purged(v)[i]->0.string
            == v[i]->0.string && purged(v)[i]->0.locks == v[i]->0.locks,
        !(v[i]->0.locks.len() > 0 || v[i]->0.marked) ==> purged(v)[i] is None,
{
}

/// Once every mark and lock is cleared, a garbage collection frees every string.
pub proof fn law_released_pool_collects_to_empty(v: Seq<Option<Slot>>)
    ensures
        forall|i: int|
            0 <= i < v.len() ==> (#[trigger] purged(released(v))[i]) is None,
{
}

} // verus!
