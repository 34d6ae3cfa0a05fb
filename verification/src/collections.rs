//! A hash map keyed by byte strings: open addressing with linear probing,
//! tombstones for removed entries, a seeded rolling hash, and doubling when
//! seven tenths of the buckets are occupied.
//!
//! Two keys are the same key when their bytes are the same. The map never
//! draws its own seed: the caller supplies one with `new`, and one with
//! every `insert` for the table to adopt if that insertion doubles it.

use vstd::prelude::*;
use vstd::arithmetic::div_mod::{lemma_mod_self_0, lemma_small_mod};

verus! {

/// Number of buckets of a new map.
pub const INITIAL_CAPACITY: usize = 8;

/// A key that is hashed and compared by the bytes it stands for.
pub trait ByteKey: Sized {
    /// The bytes that the key stands for.
    spec fn key_bytes(&self) -> Seq<u8>;

    /// Returns the bytes that the key stands for.
    fn as_bytes(&self) -> (bytes: &[u8])
        ensures
            bytes@ == self.key_bytes(),
    ;
}

impl ByteKey for Vec<u8> {
    open spec fn key_bytes(&self) -> Seq<u8> {
        self@
    }

    fn as_bytes(&self) -> (bytes: &[u8]) {
        self.as_slice()
    }
}

impl ByteKey for String {
    open spec fn key_bytes(&self) -> Seq<u8> {
        vstd::utf8::encode_utf8(self@)
    }

    fn as_bytes(&self) -> (bytes: &[u8]) {
        self.as_str().as_bytes()
    }
}

/// Whether two byte strings are equal.
pub fn bytes_eq(a: &[u8], b: &[u8]) -> (r: bool)
    ensures
        r == (a@ == b@),
{
    if a.len() != b.len() {
        return false;
    }
    let mut i: usize = 0;
    while i < a.len()
        invariant
            a@.len() == b@.len(),
            i <= a@.len(),
            forall|j: int| 0 <= j < i ==> a@[j] == b@[j],
        decreases a@.len() - i,
    {
        if a[i] != b[i] {
            return false;
        }
        i = i + 1;
    }
    assert(a@ =~= b@);
    true
}

/// One step of the rolling hash: times 31, plus the byte, in the machine
/// word with wrap-around.
pub open spec fn hash_step(h: usize, byte: u8) -> usize {
    h.wrapping_mul(31).wrapping_add(byte as usize)
}

/// The rolling hash of `bytes`, begun at `start`.
pub open spec fn rolling_hash(start: usize, bytes: Seq<u8>) -> usize
    decreases bytes.len(),
{
    if bytes.len() == 0 {
        start
    } else {
        hash_step(rolling_hash(start, bytes.drop_last()), bytes.last())
    }
}

/// The bucket at which the search for a key with these bytes starts: the
/// rolling hash begun at the low bits of the seed, modulo the capacity.
pub open spec fn hash_spec(seed: u128, bytes: Seq<u8>, capacity: usize) -> int {
    (rolling_hash(seed as usize, bytes) % capacity) as int
}

/// Whether `len` entries fill seven tenths of `capacity` buckets.
pub open spec fn load_reached_spec(len: int, capacity: int) -> bool {
    len * 10 >= capacity * 7
}

enum Bucket<K, V> {
    Empty,
    Occupied(K, V),
    Tombstone,
}

impl<K: ByteKey, V> Bucket<K, V> {
    spec fn kb(self) -> Seq<u8> {
        self->Occupied_0.key_bytes()
    }

    spec fn value(self) -> V {
        self->Occupied_1
    }

    spec fn holds(self, kb: Seq<u8>) -> bool {
        self is Occupied && self.kb() == kb
    }
}

/// The `d`-th bucket on the probe path that starts at `start`.
spec fn path_index(start: int, d: int, cap: int) -> int {
    if start + d < cap {
        start + d
    } else {
        start + d - cap
    }
}

/// How far along the probe path from `start` the bucket `i` lies.
spec fn dist(start: int, i: int, cap: int) -> int {
    if i >= start {
        i - start
    } else {
        i + cap - start
    }
}

spec fn occupied_count<K, V>(s: Seq<Bucket<K, V>>) -> nat
    decreases s.len(),
{
    if s.len() == 0 {
        0
    } else {
        occupied_count(s.drop_last()) + if s.last() is Occupied {
            1nat
        } else {
            0nat
        }
    }
}

/// Every occupied bucket is the one that `slots` names for its key.
spec fn slots_cover<K: ByteKey, V>(s: Seq<Bucket<K, V>>, slots: Map<Seq<u8>, int>) -> bool {
    forall|i: int|
        0 <= i < s.len() && (#[trigger] s[i]) is Occupied ==> slots.contains_key(s[i].kb())
            && slots[s[i].kb()] == i
}

/// Every key of `slots` names an occupied bucket that holds it.
spec fn slots_point<K: ByteKey, V>(s: Seq<Bucket<K, V>>, slots: Map<Seq<u8>, int>) -> bool {
    forall|kb: Seq<u8>| #[trigger]
        slots.contains_key(kb) ==> 0 <= slots[kb] < s.len() && s[slots[kb]].holds(kb)
}

/// No bucket on the probe path before bucket `i`, from where the search for
/// its key starts, is empty.
spec fn reachable<K: ByteKey, V>(s: Seq<Bucket<K, V>>, seed: u128, i: int) -> bool {
    let h = hash_spec(seed, s[i].kb(), s.len() as usize);
    forall|d: int|
        0 <= d < dist(h, i, s.len() as int) ==> !(s[#[trigger] path_index(
            h,
            d,
            s.len() as int,
        )] is Empty)
}

spec fn all_reachable<K: ByteKey, V>(s: Seq<Bucket<K, V>>, seed: u128) -> bool {
    forall|i: int| 0 <= i < s.len() && (#[trigger] s[i]) is Occupied ==> reachable(s, seed, i)
}

/// The first `steps` buckets on the probe path from `start` are neither
/// empty nor hold the key `kb`.
spec fn probed<K: ByteKey, V>(s: Seq<Bucket<K, V>>, start: int, steps: int, kb: Seq<u8>) -> bool {
    forall|d: int|
        0 <= d < steps ==> !(s[#[trigger] path_index(start, d, s.len() as int)] is Empty)
            && !s[path_index(start, d, s.len() as int)].holds(kb)
}

spec fn table_ok<K: ByteKey, V>(
    s: Seq<Bucket<K, V>>,
    seed: u128,
    slots: Map<Seq<u8>, int>,
) -> bool {
    &&& 1 <= s.len() <= usize::MAX
    &&& slots_cover(s, slots)
    &&& slots_point(s, slots)
    &&& all_reachable(s, seed)
}

spec fn table_view<K: ByteKey, V>(s: Seq<Bucket<K, V>>, slots: Map<Seq<u8>, int>) -> Map<
    Seq<u8>,
    V,
> {
    Map::new(|kb: Seq<u8>| slots.contains_key(kb), |kb: Seq<u8>| s[slots[kb]].value())
}

proof fn lemma_count_bound<K, V>(s: Seq<Bucket<K, V>>)
    ensures
        occupied_count(s) <= s.len(),
    decreases s.len(),
{
    if s.len() > 0 {
        lemma_count_bound(s.drop_last());
    }
}

proof fn lemma_count_full<K, V>(s: Seq<Bucket<K, V>>)
    requires
        forall|i: int| 0 <= i < s.len() ==> (#[trigger] s[i]) is Occupied,
    ensures
        occupied_count(s) == s.len(),
    decreases s.len(),
{
    if s.len() > 0 {
        let t = s.drop_last();
        assert forall|i: int| 0 <= i < t.len() implies (#[trigger] t[i]) is Occupied by {
            assert(t[i] == s[i]);
        }
        lemma_count_full(t);
    }
}

proof fn lemma_count_push<K, V>(s: Seq<Bucket<K, V>>, b: Bucket<K, V>)
    ensures
        occupied_count(s.push(b)) == occupied_count(s) + if b is Occupied {
            1nat
        } else {
            0nat
        },
{
    assert(s.push(b).drop_last() =~= s);
}

proof fn lemma_count_update<K, V>(s: Seq<Bucket<K, V>>, i: int, b: Bucket<K, V>)
    requires
        0 <= i < s.len(),
    ensures
        occupied_count(s.update(i, b)) + (if s[i] is Occupied {
            1nat
        } else {
            0nat
        }) == occupied_count(s) + if b is Occupied {
            1nat
        } else {
            0nat
        },
    decreases s.len(),
{
    if i == s.len() - 1 {
        assert(s.update(i, b).drop_last() =~= s.drop_last());
    } else {
        assert(s.update(i, b).drop_last() =~= s.drop_last().update(i, b));
        lemma_count_update(s.drop_last(), i, b);
    }
}

proof fn lemma_path_dist(start: int, i: int, cap: int)
    requires
        0 <= start < cap,
        0 <= i < cap,
    ensures
        0 <= dist(start, i, cap) < cap,
        path_index(start, dist(start, i, cap), cap) == i,
{
}

proof fn lemma_dist_path(start: int, d: int, cap: int)
    requires
        0 <= start < cap,
        0 <= d < cap,
    ensures
        0 <= path_index(start, d, cap) < cap,
        dist(start, path_index(start, d, cap), cap) == d,
{
}

proof fn lemma_hash_in_range(seed: u128, bytes: Seq<u8>, capacity: usize)
    requires
        capacity >= 1,
    ensures
        0 <= hash_spec(seed, bytes, capacity) < capacity,
{
}

/// A search that has passed `steps` buckets without a match and then meets
/// an empty bucket, or has gone round the whole table, proves the key absent.
proof fn lemma_absent<K: ByteKey, V>(
    s: Seq<Bucket<K, V>>,
    seed: u128,
    slots: Map<Seq<u8>, int>,
    kb: Seq<u8>,
    steps: int,
)
    requires
        table_ok(s, seed, slots),
        0 <= steps <= s.len(),
        probed(s, hash_spec(seed, kb, s.len() as usize), steps, kb),
        steps == s.len() || s[path_index(
            hash_spec(seed, kb, s.len() as usize),
            steps,
            s.len() as int,
        )] is Empty,
    ensures
        !slots.contains_key(kb),
        forall|i: int| 0 <= i < s.len() ==> !(#[trigger] s[i]).holds(kb),
{
    let cap = s.len() as int;
    let start = hash_spec(seed, kb, s.len() as usize);
    assert forall|i: int| 0 <= i < s.len() implies !(#[trigger] s[i]).holds(kb) by {
        if s[i].holds(kb) {
            lemma_path_dist(start, i, cap);
            let di = dist(start, i, cap);
            assert(reachable(s, seed, i));
            if di < steps {
                assert(!s[path_index(start, di, cap)].holds(kb));
            } else if di == steps {
            } else {
                assert(!(s[path_index(start, steps, cap)] is Empty));
            }
        }
    }
    if slots.contains_key(kb) {
        assert(s[slots[kb]].holds(kb));
    }
}

/// Putting an absent key into a bucket that is not occupied, and that the
/// search reaches over buckets that are not empty, keeps the table in order.
proof fn lemma_place<K: ByteKey, V>(
    s: Seq<Bucket<K, V>>,
    seed: u128,
    slots: Map<Seq<u8>, int>,
    p: int,
    key: K,
    value: V,
)
    requires
        table_ok(s, seed, slots),
        0 <= p < s.len(),
        !(s[p] is Occupied),
        !slots.contains_key(key.key_bytes()),
        forall|i: int| 0 <= i < s.len() ==> !(#[trigger] s[i]).holds(key.key_bytes()),
        forall|d: int|
            0 <= d < dist(hash_spec(seed, key.key_bytes(), s.len() as usize), p, s.len() as int)
                ==> !(s[#[trigger] path_index(
                hash_spec(seed, key.key_bytes(), s.len() as usize),
                d,
                s.len() as int,
            )] is Empty),
    ensures
        table_ok(
            s.update(p, Bucket::Occupied(key, value)),
            seed,
            slots.insert(key.key_bytes(), p),
        ),
        table_view(s.update(p, Bucket::Occupied(key, value)), slots.insert(key.key_bytes(), p))
            == table_view(s, slots).insert(key.key_bytes(), value),
        occupied_count(s.update(p, Bucket::Occupied(key, value))) == occupied_count(s) + 1,
{
    let kb = key.key_bytes();
    let s2 = s.update(p, Bucket::Occupied(key, value));
    let slots2 = slots.insert(kb, p);
    let cap = s.len() as int;
    lemma_count_update(s, p, Bucket::Occupied(key, value));
    assert forall|i: int| 0 <= i < s2.len() && (#[trigger] s2[i]) is Occupied implies reachable(
        s2,
        seed,
        i,
    ) by {
        let h = hash_spec(seed, s2[i].kb(), s2.len() as usize);
        assert forall|d: int| 0 <= d < dist(h, i, cap) implies !(s2[#[trigger] path_index(
            h,
            d,
            cap,
        )] is Empty) by {
            lemma_hash_in_range(seed, s2[i].kb(), s2.len() as usize);
            let q = path_index(h, d, cap);
            if q != p {
                if i != p {
                    assert(s[i] is Occupied);
                    assert(reachable(s, seed, i));
                }
                assert(!(s[q] is Empty));
            }
        }
    }
    assert forall|i: int| 0 <= i < s2.len() && (#[trigger] s2[i]) is Occupied implies
        slots2.contains_key(s2[i].kb()) && slots2[s2[i].kb()] == i by {
        if i != p {
            assert(s[i] is Occupied);
            assert(!s[i].holds(kb));
        }
    }
    assert forall|k2: Seq<u8>| #[trigger] slots2.contains_key(k2) implies 0 <= slots2[k2]
        < s2.len() && s2[slots2[k2]].holds(k2) by {
        if k2 != kb {
            assert(slots.contains_key(k2));
            assert(s[slots[k2]].holds(k2));
        }
    }
    assert(table_view(s2, slots2) =~= table_view(s, slots).insert(kb, value)) by {
        assert forall|k2: Seq<u8>| #[trigger] slots2.contains_key(k2) && k2 != kb implies s2[slots2[k2]]
            == s[slots[k2]] by {
            assert(slots.contains_key(k2));
            assert(s[slots[k2]].holds(k2));
        }
    }
}

/// Giving the bucket that holds a key a new value for it keeps the table in
/// order.
proof fn lemma_replace<K: ByteKey, V>(
    s: Seq<Bucket<K, V>>,
    seed: u128,
    slots: Map<Seq<u8>, int>,
    p: int,
    key: K,
    value: V,
)
    requires
        table_ok(s, seed, slots),
        0 <= p < s.len(),
        s[p].holds(key.key_bytes()),
    ensures
        slots.contains_key(key.key_bytes()),
        slots[key.key_bytes()] == p,
        table_ok(s.update(p, Bucket::Occupied(key, value)), seed, slots),
        table_view(s.update(p, Bucket::Occupied(key, value)), slots) == table_view(
            s,
            slots,
        ).insert(key.key_bytes(), value),
        table_view(s, slots)[key.key_bytes()] == s[p].value(),
        occupied_count(s.update(p, Bucket::Occupied(key, value))) == occupied_count(s),
{
    let kb = key.key_bytes();
    let s2 = s.update(p, Bucket::Occupied(key, value));
    let cap = s.len() as int;
    lemma_count_update(s, p, Bucket::Occupied(key, value));
    assert(s[p] is Occupied);
    assert forall|i: int| 0 <= i < s2.len() && (#[trigger] s2[i]) is Occupied implies reachable(
        s2,
        seed,
        i,
    ) by {
        let h = hash_spec(seed, s2[i].kb(), s2.len() as usize);
        assert(s[i] is Occupied);
        assert(s[i].kb() == s2[i].kb());
        assert(reachable(s, seed, i));
        assert forall|d: int| 0 <= d < dist(h, i, cap) implies !(s2[#[trigger] path_index(
            h,
            d,
            cap,
        )] is Empty) by {
            let q = path_index(h, d, cap);
            if q != p {
                assert(!(s[q] is Empty));
            }
        }
    }
    assert forall|i: int| 0 <= i < s2.len() && (#[trigger] s2[i]) is Occupied implies
        slots.contains_key(s2[i].kb()) && slots[s2[i].kb()] == i by {
        assert(s[i] is Occupied);
        assert(s[i].kb() == s2[i].kb());
    }
    assert forall|k2: Seq<u8>| #[trigger] slots.contains_key(k2) implies 0 <= slots[k2] < s2.len()
        && s2[slots[k2]].holds(k2) by {
        assert(s[slots[k2]].holds(k2));
    }
    assert(table_view(s2, slots) =~= table_view(s, slots).insert(kb, value)) by {
        assert forall|k2: Seq<u8>| #[trigger] slots.contains_key(k2) && k2 != kb implies s2[slots[k2]]
            == s[slots[k2]] by {
            assert(s[slots[k2]].holds(k2));
        }
    }
}

/// Leaving a tombstone in the bucket that holds a key keeps the table in
/// order.
proof fn lemma_bury<K: ByteKey, V>(
    s: Seq<Bucket<K, V>>,
    seed: u128,
    slots: Map<Seq<u8>, int>,
    p: int,
    kb: Seq<u8>,
)
    requires
        table_ok(s, seed, slots),
        0 <= p < s.len(),
        s[p].holds(kb),
    ensures
        slots.contains_key(kb),
        slots[kb] == p,
        table_ok(s.update(p, Bucket::Tombstone), seed, slots.remove(kb)),
        table_view(s.update(p, Bucket::Tombstone), slots.remove(kb)) == table_view(
            s,
            slots,
        ).remove(kb),
        table_view(s, slots)[kb] == s[p].value(),
        occupied_count(s.update(p, Bucket::Tombstone)) + 1 == occupied_count(s),
{
    let s2 = s.update(p, Bucket::<K, V>::Tombstone);
    let slots2 = slots.remove(kb);
    let cap = s.len() as int;
    lemma_count_update(s, p, Bucket::<K, V>::Tombstone);
    assert(s[p] is Occupied);
    assert forall|i: int| 0 <= i < s2.len() && (#[trigger] s2[i]) is Occupied implies reachable(
        s2,
        seed,
        i,
    ) by {
        let h = hash_spec(seed, s2[i].kb(), s2.len() as usize);
        assert(s[i] is Occupied);
        assert(reachable(s, seed, i));
        assert forall|d: int| 0 <= d < dist(h, i, cap) implies !(s2[#[trigger] path_index(
            h,
            d,
            cap,
        )] is Empty) by {
            let q = path_index(h, d, cap);
            if q != p {
                assert(!(s[q] is Empty));
            }
        }
    }
    assert forall|i: int| 0 <= i < s2.len() && (#[trigger] s2[i]) is Occupied implies
        slots2.contains_key(s2[i].kb()) && slots2[s2[i].kb()] == i by {
        assert(s[i] is Occupied);
    }
    assert forall|k2: Seq<u8>| #[trigger] slots2.contains_key(k2) implies 0 <= slots2[k2]
        < s2.len() && s2[slots2[k2]].holds(k2) by {
        assert(slots.contains_key(k2));
        assert(s[slots[k2]].holds(k2));
    }
    assert(table_view(s2, slots2) =~= table_view(s, slots).remove(kb)) by {
        assert forall|k2: Seq<u8>| #[trigger] slots2.contains_key(k2) implies s2[slots2[k2]]
            == s[slots[k2]] by {
            assert(slots.contains_key(k2));
            assert(s[slots[k2]].holds(k2));
        }
    }
}

proof fn lemma_next_index(start: int, steps: int, index: int, cap: int)
    requires
        0 <= start < cap,
        0 <= steps < cap,
        index == path_index(start, steps, cap),
    ensures
        0 <= index < cap,
        0 <= (index + 1) % cap < cap,
        steps + 1 < cap ==> (index + 1) % cap == path_index(start, steps + 1, cap),
{
    if index + 1 < cap {
        lemma_small_mod((index + 1) as nat, cap as nat);
    } else {
        lemma_mod_self_0(cap);
    }
}

/// What the search finds in one bucket.
enum Probe {
    /// The bucket holds the key.
    Hit,
    /// The bucket is empty.
    Vacant,
    /// The bucket is a tombstone.
    Grave,
    /// The bucket holds another key.
    Miss,
}

/// A hash map from byte-string keys to values.
pub struct HashMap<K, V> {
    buckets: Vec<Bucket<K, V>>,
    len: usize,
    capacity: usize,
    seed: u128,
    slots: Ghost<Map<Seq<u8>, int>>,
}

impl<K: ByteKey, V> View for HashMap<K, V> {
    type V = Map<Seq<u8>, V>;

    closed spec fn view(&self) -> Map<Seq<u8>, V> {
        table_view(self.buckets@, self.slots@)
    }
}

impl<K: ByteKey, V> HashMap<K, V> {
    /// The table is in order: every entry sits where a search for its key
    /// finds it, no key occurs twice, and the entry count is right.
    pub closed spec fn wf(&self) -> bool {
        &&& self.buckets@.len() == self.capacity
        &&& self.len == occupied_count(self.buckets@)
        &&& table_ok(self.buckets@, self.seed, self.slots@)
    }

    /// Number of buckets.
    pub closed spec fn capacity_spec(&self) -> usize {
        self.capacity
    }

    /// Number of entries.
    pub closed spec fn len_spec(&self) -> usize {
        self.len
    }

    /// The seed of the hash.
    pub closed spec fn seed_spec(&self) -> u128 {
        self.seed
    }

    /// Whether the next insertion doubles the table first.
    pub open spec fn load_reached_spec(&self) -> bool {
        load_reached_spec(self.len_spec() as int, self.capacity_spec() as int)
    }

    fn empty_buckets(capacity: usize) -> (buckets: Vec<Bucket<K, V>>)
        ensures
            buckets@.len() == capacity,
            forall|i: int| 0 <= i < capacity ==> (#[trigger] buckets@[i]) is Empty,
            occupied_count(buckets@) == 0,
    {
        let mut buckets: Vec<Bucket<K, V>> = Vec::with_capacity(capacity);
        for n in 0..capacity
            invariant
                buckets@.len() == n,
                forall|i: int| 0 <= i < n ==> (#[trigger] buckets@[i]) is Empty,
                occupied_count(buckets@) == 0,
        {
            proof {
                lemma_count_push(buckets@, Bucket::Empty);
            }
            buckets.push(Bucket::Empty);
        }
        buckets
    }

    /// An empty map with eight buckets whose hash is seeded with `seed`.
    pub fn new(seed: u128) -> (r: Self)
        ensures
            r.wf(),
            r@ == Map::<Seq<u8>, V>::empty(),
            r.capacity_spec() == INITIAL_CAPACITY,
            r.len_spec() == 0,
            r.seed_spec() == seed,
    {
        let capacity = INITIAL_CAPACITY;
        let buckets = Self::empty_buckets(capacity);
        let r = Self { buckets, len: 0, capacity, seed, slots: Ghost(Map::empty()) };
        assert(r@ =~= Map::<Seq<u8>, V>::empty());
        r
    }

    /// Number of buckets.
    pub fn capacity(&self) -> (r: usize)
        ensures
            r == self.capacity_spec(),
    {
        self.capacity
    }

    /// Whether seven tenths of the buckets hold an entry, so that the next
    /// insertion doubles the table first.
    pub fn load_reached(&self) -> (r: bool)
        ensures
            r == self.load_reached_spec(),
    {
        (self.len as u128) * 10 >= (self.capacity as u128) * 7
    }

    /// The bucket at which the search for `key` starts.
    pub fn hash(&self, key: &K) -> (r: usize)
        requires
            self.wf(),
        ensures
            r == hash_spec(self.seed_spec(), key.key_bytes(), self.capacity_spec()),
            r < self.capacity_spec(),
    {
        let bytes = key.as_bytes();
        let mut hash: usize = #[verifier::truncate]
        (self.seed as usize);
        let mut i: usize = 0;
        while i < bytes.len()
            invariant
                i <= bytes@.len(),
                hash == rolling_hash(self.seed as usize, bytes@.take(i as int)),
            decreases bytes@.len() - i,
        {
            proof {
                assert(bytes@.take(i + 1).drop_last() =~= bytes@.take(i as int));
            }
            hash = hash.wrapping_mul(31).wrapping_add(bytes[i] as usize);
            i = i + 1;
        }
        proof {
            assert(bytes@.take(bytes@.len() as int) =~= bytes@);
        }
        hash % self.capacity
    }

    fn probe(&self, index: usize, key: &K) -> (r: Probe)
        requires
            index < self.buckets@.len(),
        ensures
            r is Hit <==> self.buckets@[index as int].holds(key.key_bytes()),
            r is Vacant <==> self.buckets@[index as int] is Empty,
            r is Grave <==> self.buckets@[index as int] is Tombstone,
    {
        match &self.buckets[index] {
            Bucket::Empty => Probe::Vacant,
            Bucket::Tombstone => Probe::Grave,
            Bucket::Occupied(k, _) => {
                if bytes_eq(k.as_bytes(), key.as_bytes()) {
                    Probe::Hit
                } else {
                    Probe::Miss
                }
            },
        }
    }

    /// Puts `key` with `value` into the bucket `index`, which is not occupied.
    fn place(&mut self, index: usize, key: K, value: V)
        requires
            old(self).wf(),
            index < old(self).capacity,
            !(old(self).buckets@[index as int] is Occupied),
            !old(self).slots@.contains_key(key.key_bytes()),
            forall|i: int|
                0 <= i < old(self).buckets@.len() ==> !(#[trigger] old(self).buckets@[i]).holds(
                    key.key_bytes(),
                ),
            forall|d: int|
                0 <= d < dist(
                    hash_spec(old(self).seed, key.key_bytes(), old(self).capacity),
                    index as int,
                    old(self).capacity as int,
                ) ==> !(old(self).buckets@[#[trigger] path_index(
                    hash_spec(old(self).seed, key.key_bytes(), old(self).capacity),
                    d,
                    old(self).capacity as int,
                )] is Empty),
        ensures
            final(self).wf(),
            final(self)@ == old(self)@.insert(key.key_bytes(), value),
            !old(self)@.contains_key(key.key_bytes()),
            final(self).capacity == old(self).capacity,
            final(self).seed == old(self).seed,
            final(self).len == old(self).len + 1,
    {
        proof {
            lemma_place(self.buckets@, self.seed, self.slots@, index as int, key, value);
            lemma_count_bound(self.buckets@.update(index as int, Bucket::Occupied(key, value)));
        }
        let ghost kb = key.key_bytes();
        self.buckets[index] = Bucket::Occupied(key, value);
        self.len = self.len + 1;
        self.slots = Ghost(self.slots@.insert(kb, index as int));
    }

    /// Inserts into a table that has a bucket to spare, without growing it.
    fn probe_insert(&mut self, key: K, value: V) -> (r: Option<V>)
        requires
            old(self).wf(),
            old(self).len < old(self).capacity,
        ensures
            final(self).wf(),
            final(self)@ == old(self)@.insert(key.key_bytes(), value),
            r == if old(self)@.contains_key(key.key_bytes()) {
                Some(old(self)@[key.key_bytes()])
            } else {
                None
            },
            final(self).capacity == old(self).capacity,
            final(self).seed == old(self).seed,
            final(self).len == old(self).len + if old(self)@.contains_key(key.key_bytes()) {
                0int
            } else {
                1int
            },
    {
        let start = self.hash(&key);
        let mut index = start;
        let mut steps: usize = 0;
        let mut first_tombstone: Option<usize> = None;
        let ghost kb = key.key_bytes();
        while steps < self.capacity
            invariant
                *self == *old(self),
                self.wf(),
                self.len < self.capacity,
                kb == key.key_bytes(),
                start == hash_spec(self.seed, kb, self.capacity),
                steps <= self.capacity,
                index < self.capacity,
                steps < self.capacity ==> index == path_index(
                    start as int,
                    steps as int,
                    self.capacity as int,
                ),
                probed(self.buckets@, start as int, steps as int, kb),
                first_tombstone matches Some(t) ==> t < self.capacity
                    && self.buckets@[t as int] is Tombstone && dist(
                    start as int,
                    t as int,
                    self.capacity as int,
                ) < steps,
                first_tombstone is None ==> forall|d: int|
                    0 <= d < steps ==> self.buckets@[#[trigger] path_index(
                        start as int,
                        d,
                        self.capacity as int,
                    )] is Occupied,
            decreases self.capacity - steps,
        {
            proof {
                lemma_next_index(start as int, steps as int, index as int, self.capacity as int);
                lemma_dist_path(start as int, steps as int, self.capacity as int);
            }
            match self.probe(index, &key) {
                Probe::Hit => {
                    proof {
                        lemma_replace(
                            self.buckets@,
                            self.seed,
                            self.slots@,
                            index as int,
                            key,
                            value,
                        );
                    }
                    let mut old = Bucket::Occupied(key, value);
                    core::mem::swap(&mut self.buckets[index], &mut old);
                    match old {
                        Bucket::Occupied(_, v) => {
                            return Some(v);
                        },
                        _ => {
                            return None;
                        },
                    }
                },
                Probe::Grave => {
                    if first_tombstone.is_none() {
                        first_tombstone = Some(index);
                    }
                },
                Probe::Vacant => {
                    proof {
                        lemma_absent(self.buckets@, self.seed, self.slots@, kb, steps as int);
                    }
                    let insert_pos = match first_tombstone {
                        Some(t) => t,
                        None => index,
                    };
                    self.place(insert_pos, key, value);
                    return None;
                },
                Probe::Miss => {},
            }
            index = (index + 1) % self.capacity;
            steps = steps + 1;
        }
        proof {
            lemma_absent(self.buckets@, self.seed, self.slots@, kb, steps as int);
        }
        match first_tombstone {
            Some(t) => {
                self.place(t, key, value);
                None
            },
            None => {
                proof {
                    let s = self.buckets@;
                    assert forall|i: int| 0 <= i < s.len() implies (#[trigger] s[i]) is Occupied by {
                        lemma_path_dist(start as int, i, self.capacity as int);
                        assert(s[path_index(
                            start as int,
                            dist(start as int, i, self.capacity as int),
                            self.capacity as int,
                        )] is Occupied);
                    }
                    lemma_count_full(s);
                    assert(false);
                }
                None
            },
        }
    }

    /// Doubles the table: every entry moves, in bucket order, to the place
    /// where the hash seeded with `reseed` puts it among twice the buckets.
    fn resize(&mut self, reseed: u128)
        requires
            old(self).wf(),
            old(self).capacity * 2 <= usize::MAX,
        ensures
            final(self).wf(),
            final(self)@ == old(self)@,
            final(self).capacity == old(self).capacity * 2,
            final(self).seed == reseed,
            final(self).len == old(self).len,
    {
        let new_capacity = self.capacity * 2;
        let mut new_map = HashMap {
            buckets: Self::empty_buckets(new_capacity),
            len: 0,
            capacity: new_capacity,
            seed: reseed,
            slots: Ghost(Map::empty()),
        };
        let ghost old_seq = self.buckets@;
        let ghost old_slots = self.slots@;
        proof {
            assert(new_map@ =~= Map::new(
                |kb: Seq<u8>| old_slots.contains_key(kb) && old_slots[kb] < 0,
                |kb: Seq<u8>| old_seq[old_slots[kb]].value(),
            ));
            assert(old_seq.take(0) =~= Seq::empty());
        }
        let mut i: usize = 0;
        while i < self.capacity
            invariant
                i <= self.capacity,
                self.capacity == old(self).capacity,
                self.len == old(self).len,
                self.capacity * 2 == new_capacity,
                old_seq == old(self).buckets@,
                old_slots == old(self).slots@,
                old(self).wf(),
                self.buckets@.len() == old_seq.len(),
                forall|j: int| i <= j < old_seq.len() ==> self.buckets@[j] == old_seq[j],
                new_map.wf(),
                new_map.capacity == new_capacity,
                new_map.seed == reseed,
                new_map.len == occupied_count(old_seq.take(i as int)),
                new_map@ == Map::new(
                    |kb: Seq<u8>| old_slots.contains_key(kb) && old_slots[kb] < i,
                    |kb: Seq<u8>| old_seq[old_slots[kb]].value(),
                ),
            decreases self.capacity - i,
        {
            proof {
                lemma_count_bound(old_seq.take(i as int));
                assert(old_seq.take(i + 1).drop_last() =~= old_seq.take(i as int));
            }
            let ghost before = new_map@;
            let mut bucket = Bucket::Empty;
            core::mem::swap(&mut self.buckets[i], &mut bucket);
            match bucket {
                Bucket::Occupied(k, v) => {
                    proof {
                        assert(old_seq[i as int] is Occupied);
                        assert(old_slots[k.key_bytes()] == i);
                    }
                    new_map.probe_insert(k, v);
                    proof {
                        let kb = k.key_bytes();
                        assert forall|k2: Seq<u8>|
                            old_slots.contains_key(k2) && old_slots[k2] == i implies k2
                            == kb by {
                            assert(old_seq[old_slots[k2]].holds(k2));
                        }
                        assert(new_map@ =~= Map::new(
                            |kb: Seq<u8>| old_slots.contains_key(kb) && old_slots[kb] < i + 1,
                            |kb: Seq<u8>| old_seq[old_slots[kb]].value(),
                        ));
                    }
                },
                _ => {
                    proof {
                        assert forall|k2: Seq<u8>| old_slots.contains_key(k2) implies old_slots[k2]
                            != i by {
                            assert(old_seq[old_slots[k2]].holds(k2));
                        }
                        assert(new_map@ =~= Map::new(
                            |kb: Seq<u8>| old_slots.contains_key(kb) && old_slots[kb] < i + 1,
                            |kb: Seq<u8>| old_seq[old_slots[kb]].value(),
                        ));
                    }
                },
            }
            i = i + 1;
        }
        proof {
            assert(old_seq.take(old_seq.len() as int) =~= old_seq);
            assert(new_map@ =~= old(self)@) by {
                assert forall|kb: Seq<u8>| old_slots.contains_key(kb) implies old_slots[kb]
                    < old_seq.len() by {
                    assert(old_seq[old_slots[kb]].holds(kb));
                }
            }
        }
        *self = new_map;
    }

    /// Inserts `value` under `key` and returns the value that the key had
    /// before, if it had one. If seven tenths of the buckets are occupied
    /// beforehand, the table first doubles and adopts `reseed` as its seed.
    pub fn insert(&mut self, key: K, value: V, reseed: u128) -> (r: Option<V>)
        requires
            old(self).wf(),
            old(self).load_reached_spec() ==> old(self).capacity_spec() * 2 <= usize::MAX,
        ensures
            final(self).wf(),
            final(self)@ == old(self)@.insert(key.key_bytes(), value),
            r == if old(self)@.contains_key(key.key_bytes()) {
                Some(old(self)@[key.key_bytes()])
            } else {
                None
            },
            final(self).len_spec() == old(self).len_spec() + if old(self)@.contains_key(
                key.key_bytes(),
            ) {
                0int
            } else {
                1int
            },
            old(self).load_reached_spec() ==> final(self).capacity_spec() == old(
                self,
            ).capacity_spec() * 2 && final(self).seed_spec() == reseed,
            !old(self).load_reached_spec() ==> final(self).capacity_spec() == old(
                self,
            ).capacity_spec() && final(self).seed_spec() == old(self).seed_spec(),
    {
        proof {
            lemma_count_bound(self.buckets@);
        }
        if self.load_reached() {
            self.resize(reseed);
        }
        self.probe_insert(key, value)
    }

    /// The value stored under `key`, if there is one.
    pub fn get(&self, key: &K) -> (r: Option<&V>)
        requires
            self.wf(),
        ensures
            r is Some <==> self@.contains_key(key.key_bytes()),
            r matches Some(v) ==> *v == self@[key.key_bytes()],
    {
        let start = self.hash(key);
        let mut index = start;
        let mut steps: usize = 0;
        let ghost kb = key.key_bytes();
        while steps < self.capacity
            invariant
                self.wf(),
                kb == key.key_bytes(),
                start == hash_spec(self.seed, kb, self.capacity),
                steps <= self.capacity,
                index < self.capacity,
                steps < self.capacity ==> index == path_index(
                    start as int,
                    steps as int,
                    self.capacity as int,
                ),
                probed(self.buckets@, start as int, steps as int, kb),
            decreases self.capacity - steps,
        {
            proof {
                lemma_next_index(start as int, steps as int, index as int, self.capacity as int);
            }
            match &self.buckets[index] {
                Bucket::Empty => {
                    proof {
                        lemma_absent(self.buckets@, self.seed, self.slots@, kb, steps as int);
                    }
                    return None;
                },
                Bucket::Occupied(k, v) => {
                    if bytes_eq(k.as_bytes(), key.as_bytes()) {
                        proof {
                            assert(self.buckets@[index as int].holds(kb));
                        }
                        return Some(v);
                    }
                },
                Bucket::Tombstone => {},
            }
            index = (index + 1) % self.capacity;
            steps = steps + 1;
        }
        proof {
            lemma_absent(self.buckets@, self.seed, self.slots@, kb, steps as int);
        }
        None
    }

    /// Removes the entry stored under `key` and returns its value, if there
    /// is one. The bucket is left as a tombstone.
    pub fn remove(&mut self, key: &K) -> (r: Option<V>)
        requires
            old(self).wf(),
        ensures
            final(self).wf(),
            final(self)@ == old(self)@.remove(key.key_bytes()),
            r == if old(self)@.contains_key(key.key_bytes()) {
                Some(old(self)@[key.key_bytes()])
            } else {
                None
            },
            final(self).len_spec() == old(self).len_spec() - if old(self)@.contains_key(
                key.key_bytes(),
            ) {
                1int
            } else {
                0int
            },
            final(self).capacity_spec() == old(self).capacity_spec(),
            final(self).seed_spec() == old(self).seed_spec(),
    {
        let start = self.hash(key);
        let mut index = start;
        let mut steps: usize = 0;
        let ghost kb = key.key_bytes();
        while steps < self.capacity
            invariant
                *self == *old(self),
                self.wf(),
                kb == key.key_bytes(),
                start == hash_spec(self.seed, kb, self.capacity),
                steps <= self.capacity,
                index < self.capacity,
                steps < self.capacity ==> index == path_index(
                    start as int,
                    steps as int,
                    self.capacity as int,
                ),
                probed(self.buckets@, start as int, steps as int, kb),
            decreases self.capacity - steps,
        {
            proof {
                lemma_next_index(start as int, steps as int, index as int, self.capacity as int);
            }
            match self.probe(index, key) {
                Probe::Hit => {
                    proof {
                        lemma_bury(self.buckets@, self.seed, self.slots@, index as int, kb);
                    }
                    let mut old = Bucket::Tombstone;
                    core::mem::swap(&mut self.buckets[index], &mut old);
                    self.len = self.len - 1;
                    self.slots = Ghost(self.slots@.remove(kb));
                    match old {
                        Bucket::Occupied(_, v) => {
                            return Some(v);
                        },
                        _ => {
                            return None;
                        },
                    }
                },
                Probe::Vacant => {
                    proof {
                        lemma_absent(self.buckets@, self.seed, self.slots@, kb, steps as int);
                        assert(self@.remove(kb) =~= self@);
                    }
                    return None;
                },
                _ => {},
            }
            index = (index + 1) % self.capacity;
            steps = steps + 1;
        }
        proof {
            lemma_absent(self.buckets@, self.seed, self.slots@, kb, steps as int);
            assert(self@.remove(kb) =~= self@);
        }
        None
    }
}

spec fn entry_of<K, V>(b: Bucket<K, V>) -> (K, V) {
    (b->Occupied_0, b->Occupied_1)
}

/// The entries of the occupied buckets, in bucket order.
spec fn entries_of<K, V>(s: Seq<Bucket<K, V>>) -> Seq<(K, V)>
    decreases s.len(),
{
    if s.len() == 0 {
        Seq::empty()
    } else if s.last() is Occupied {
        entries_of(s.drop_last()).push(entry_of(s.last()))
    } else {
        entries_of(s.drop_last())
    }
}

proof fn lemma_entries_len<K, V>(s: Seq<Bucket<K, V>>)
    ensures
        entries_of(s).len() == occupied_count(s),
    decreases s.len(),
{
    if s.len() > 0 {
        lemma_entries_len(s.drop_last());
    }
}

/// The entries of a sequence of buckets are its first bucket's, if it has
/// one, and then those of the rest.
proof fn lemma_entries_front<K, V>(s: Seq<Bucket<K, V>>)
    requires
        s.len() > 0,
    ensures
        entries_of(s) == if s[0] is Occupied {
            seq![entry_of(s[0])] + entries_of(s.drop_first())
        } else {
            entries_of(s.drop_first())
        },
    decreases s.len(),
{
    if s.len() == 1 {
        assert(s.drop_last() =~= Seq::empty());
        assert(s.drop_first() =~= Seq::empty());
        assert(entries_of(s.drop_last()) =~= Seq::empty());
        if s[0] is Occupied {
            assert(entries_of(s) =~= seq![entry_of(s[0])] + entries_of(s.drop_first()));
        }
    } else {
        let t = s.drop_last();
        lemma_entries_front(t);
        assert(t.drop_first() =~= s.drop_first().drop_last());
        assert(t[0] == s[0]);
        assert(s.drop_first().last() == s.last());
        let rest = entries_of(t.drop_first());
        if s.last() is Occupied {
            if s[0] is Occupied {
                assert((seq![entry_of(s[0])] + rest).push(entry_of(s.last())) =~= seq![
                    entry_of(s[0]),
                ] + rest.push(entry_of(s.last())));
            }
        }
    }
}

/// The bucket that the `j`-th entry comes from.
spec fn entry_slot<K, V>(s: Seq<Bucket<K, V>>, j: int) -> int
    decreases s.len(),
{
    if s.len() == 0 {
        0
    } else if s.last() is Occupied && j == entries_of(s.drop_last()).len() {
        s.len() - 1
    } else {
        entry_slot(s.drop_last(), j)
    }
}

/// Every entry comes from an occupied bucket, and later entries come from
/// later buckets.
proof fn lemma_entry_slot<K, V>(s: Seq<Bucket<K, V>>, j: int)
    requires
        0 <= j < entries_of(s).len(),
    ensures
        0 <= entry_slot(s, j) < s.len(),
        s[entry_slot(s, j)] is Occupied,
        entries_of(s)[j] == entry_of(s[entry_slot(s, j)]),
        forall|j2: int| j < j2 < entries_of(s).len() ==> entry_slot(s, j) < entry_slot(s, j2),
    decreases s.len(),
{
    let t = s.drop_last();
    if s.last() is Occupied && j == entries_of(t).len() {
    } else {
        lemma_entry_slot(t, j);
        assert(t[entry_slot(t, j)] == s[entry_slot(s, j)]);
        assert forall|j2: int| j < j2 < entries_of(s).len() implies entry_slot(s, j) < entry_slot(
            s,
            j2,
        ) by {
            if s.last() is Occupied && j2 == entries_of(t).len() {
            } else {
                lemma_entry_slot(t, j2);
            }
        }
    }
}

/// Every occupied bucket contributes an entry.
proof fn lemma_slot_entry<K, V>(s: Seq<Bucket<K, V>>, i: int) -> (j: int)
    requires
        0 <= i < s.len(),
        s[i] is Occupied,
    ensures
        0 <= j < entries_of(s).len(),
        entries_of(s)[j] == entry_of(s[i]),
    decreases s.len(),
{
    let t = s.drop_last();
    if i == s.len() - 1 {
        entries_of(t).len() as int
    } else {
        lemma_slot_entry(t, i)
    }
}

/// A pass over the entries of a map, in bucket order.
pub struct Iter<'a, K, V> {
    buckets: &'a Vec<Bucket<K, V>>,
    pos: usize,
}

impl<K: ByteKey, V> HashMap<K, V> {
    /// The entries of the map in the order in which `iter` yields them.
    pub closed spec fn entries(&self) -> Seq<(K, V)> {
        entries_of(self.buckets@)
    }

    /// A pass over all entries of the map.
    pub fn iter(&self) -> (it: Iter<'_, K, V>)
        ensures
            it.remaining() == self.entries(),
    {
        proof {
            assert(self.buckets@.skip(0) =~= self.buckets@);
        }
        Iter { buckets: &self.buckets, pos: 0 }
    }

    /// The entries that `iter` yields are exactly the entries of the map:
    /// each is in the map, each key of the map is yielded, none twice, and
    /// there are as many as the map counts.
    pub proof fn lemma_entries_are_the_map(&self)
        requires
            self.wf(),
        ensures
            self.entries().len() == self.len_spec(),
            forall|j: int|
                0 <= j < self.entries().len() ==> self@.contains_key(
                    (#[trigger] self.entries()[j]).0.key_bytes(),
                ) && self@[self.entries()[j].0.key_bytes()] == self.entries()[j].1,
            forall|kb: Seq<u8>| #[trigger]
                self@.contains_key(kb) ==> exists|j: int|
                    0 <= j < self.entries().len() && (#[trigger] self.entries()[j]).0.key_bytes()
                        == kb,
            forall|j1: int, j2: int|
                0 <= j1 < j2 < self.entries().len() ==> (#[trigger] self.entries()[j1]).0.key_bytes()
                    != (#[trigger] self.entries()[j2]).0.key_bytes(),
            self@.dom().finite(),
            self@.len() == self.len_spec(),
    {
        let s = self.buckets@;
        let e = self.entries();
        lemma_entries_len(s);
        self.lemma_entries_cover();
        let keys = e.map_values(|entry: (K, V)| entry.0.key_bytes());
        assert(keys.no_duplicates());
        assert(keys.to_set() =~= self@.dom()) by {
            assert forall|kb: Seq<u8>| self@.dom().contains(kb) implies keys.to_set().contains(
                kb,
            ) by {
                let j = choose|j: int| 0 <= j < e.len() && (#[trigger] e[j]).0.key_bytes() == kb;
                assert(keys[j] == kb);
            }
            assert forall|kb: Seq<u8>| keys.to_set().contains(kb) implies self@.dom().contains(
                kb,
            ) by {
                let j = choose|j: int| 0 <= j < keys.len() && keys[j] == kb;
                assert(self@.contains_key(e[j].0.key_bytes()));
            }
        }
        keys.unique_seq_to_set();
        vstd::seq_lib::seq_to_set_is_finite(keys);
    }

    proof fn lemma_entries_cover(&self)
        requires
            self.wf(),
        ensures
            forall|j: int|
                0 <= j < self.entries().len() ==> self@.contains_key(
                    (#[trigger] self.entries()[j]).0.key_bytes(),
                ) && self@[self.entries()[j].0.key_bytes()] == self.entries()[j].1,
            forall|kb: Seq<u8>| #[trigger]
                self@.contains_key(kb) ==> exists|j: int|
                    0 <= j < self.entries().len() && (#[trigger] self.entries()[j]).0.key_bytes()
                        == kb,
            forall|j1: int, j2: int|
                0 <= j1 < j2 < self.entries().len() ==> (#[trigger] self.entries()[j1]).0.key_bytes()
                    != (#[trigger] self.entries()[j2]).0.key_bytes(),
    {
        let s = self.buckets@;
        let e = self.entries();
        assert forall|j: int| 0 <= j < e.len() implies self@.contains_key(
            (#[trigger] e[j]).0.key_bytes(),
        ) && self@[e[j].0.key_bytes()] == e[j].1 by {
            lemma_entry_slot(s, j);
            assert(s[entry_slot(s, j)] is Occupied);
        }
        assert forall|kb: Seq<u8>| #[trigger] self@.contains_key(kb) implies exists|j: int|
            0 <= j < e.len() && (#[trigger] e[j]).0.key_bytes() == kb by {
            let i = self.slots@[kb];
            assert(s[i].holds(kb));
            let j = lemma_slot_entry(s, i);
            assert(e[j].0.key_bytes() == kb);
        }
        assert forall|j1: int, j2: int| 0 <= j1 < j2 < e.len() implies (#[trigger] e[j1]).0.key_bytes()
            != (#[trigger] e[j2]).0.key_bytes() by {
            lemma_entry_slot(s, j1);
            lemma_entry_slot(s, j2);
            let i1 = entry_slot(s, j1);
            let i2 = entry_slot(s, j2);
            assert(s[i1] is Occupied);
            assert(s[i2] is Occupied);
        }
    }
}

impl<'a, K, V> Iter<'a, K, V> {
    #[verifier::type_invariant]
    spec fn in_bounds(self) -> bool {
        self.pos <= self.buckets@.len()
    }
}

impl<'a, K: ByteKey, V> Iter<'a, K, V> {
    /// The entries that are still to come, in order.
    pub closed spec fn remaining(&self) -> Seq<(K, V)> {
        entries_of(self.buckets@.skip(self.pos as int))
    }

    /// Yields the next entry, or `None` when the pass is over.
    pub fn next(&mut self) -> (r: Option<(&'a K, &'a V)>)
        ensures
            old(self).remaining().len() == 0 ==> r is None && final(self).remaining().len() == 0,
            old(self).remaining().len() > 0 ==> r == Some(
                (&old(self).remaining()[0].0, &old(self).remaining()[0].1),
            ) && final(self).remaining() == old(self).remaining().drop_first(),
    {
        proof {
            use_type_invariant(&*self);
        }
        let buckets = self.buckets;
        let mut pos = self.pos;
        while pos < buckets.len()
            invariant
                pos <= buckets@.len(),
                buckets == old(self).buckets,
                entries_of(buckets@.skip(pos as int)) == old(self).remaining(),
            decreases buckets@.len() - pos,
        {
            proof {
                lemma_entries_front(buckets@.skip(pos as int));
                assert(buckets@.skip(pos as int).drop_first() =~= buckets@.skip(pos + 1));
            }
            match &buckets[pos] {
                Bucket::Occupied(k, v) => {
                    proof {
                        let rest = entries_of(buckets@.skip(pos + 1));
                        assert((seq![entry_of(buckets@[pos as int])] + rest).drop_first() =~= rest);
                    }
                    *self = Iter { buckets, pos: pos + 1 };
                    return Some((k, v));
                },
                _ => {},
            }
            pos = pos + 1;
        }
        proof {
            assert(buckets@.skip(pos as int) =~= Seq::empty());
        }
        *self = Iter { buckets, pos };
        None
    }
}

} // verus!
