//! The hash table of the build side: from the bytes of a key to the rows
//! that have the key, in the order in which they were added.

use crate::hash_join::keys::pow256;
use crate::hash_join::keys::HashMethodKind;
use core::hash::Hash;
use std::collections::HashMap;
use vstd::prelude::*;
use vstd::std_specs::hash::obeys_key_model;

verus! {

/// The place of a row of the build side: the chunk that holds it and its
/// position in the chunk.
#[derive(Clone, Copy, Debug, PartialEq, Eq, Structural)]
pub struct RowPtr {
    pub chunk_index: u32,
    pub row_index: u32,
}

/// A key and the rows that have it.
pub struct KeyEntry {
    key: Vec<u8>,
    rows: Vec<RowPtr>,
}

/// The hash of a key: a polynomial of its bytes, modulo `2^64`.
pub open spec fn hash_of(key: Seq<u8>) -> u64
    decreases key.len(),
{
    if key.len() == 0 {
        14695981039346656037u64
    } else {
        ((hash_of(key.drop_last()) as nat * 1099511628211 + key.last() as nat) % 0x1_0000_0000_0000_0000) as u64
    }
}

/// The position of the first entry of `bucket` with the key `key`, if there
/// is one.
pub closed spec fn find_key(bucket: Seq<KeyEntry>, key: Seq<u8>) -> Option<int>
    decreases bucket.len(),
{
    if bucket.len() == 0 {
        None
    } else {
        match find_key(bucket.drop_last(), key) {
            Some(i) => Some(i),
            None => if bucket.last().key@ == key {
                Some(bucket.len() - 1)
            } else {
                None
            },
        }
    }
}

proof fn lemma_find_key_range(bucket: Seq<KeyEntry>, key: Seq<u8>)
    ensures
        find_key(bucket, key) matches Some(i) ==> 0 <= i < bucket.len() && bucket[i].key@ == key,
    decreases bucket.len(),
{
    if bucket.len() > 0 {
        lemma_find_key_range(bucket.drop_last(), key);
    }
}

/// A key that is found among the first `n` entries is found at the same
/// place among all of them.
proof fn lemma_find_key_extends(bucket: Seq<KeyEntry>, n: int, key: Seq<u8>)
    requires
        0 <= n <= bucket.len(),
        find_key(bucket.take(n), key) is Some,
    ensures
        find_key(bucket, key) == find_key(bucket.take(n), key),
    decreases bucket.len() - n,
{
    if n < bucket.len() {
        assert(bucket.take(n + 1).drop_last() =~= bucket.take(n));
        lemma_find_key_extends(bucket, n + 1, key);
    } else {
        assert(bucket.take(n) =~= bucket);
    }
}

/// Buckets with the same keys at the same places find every key at the
/// same place.
proof fn lemma_find_key_same_keys(a: Seq<KeyEntry>, b: Seq<KeyEntry>, key: Seq<u8>)
    requires
        a.len() == b.len(),
        forall|j: int| 0 <= j < a.len() ==> a[j].key@ == b[j].key@,
    ensures
        find_key(a, key) == find_key(b, key),
    decreases a.len(),
{
    if a.len() > 0 {
        lemma_find_key_same_keys(a.drop_last(), b.drop_last(), key);
    }
}

/// A table from keys to rows. The keys are spread over buckets by their
/// hash.
pub struct KeyTable {
    buckets: HashMap<u64, Vec<KeyEntry>>,
}

impl KeyTable {
    /// The rows that were added under `key`, in the order in which they
    /// were added.
    pub closed spec fn rows_for(self, key: Seq<u8>) -> Seq<RowPtr> {
        let h = hash_of(key);
        if self.buckets@.contains_key(h) {
            match find_key(self.buckets@[h]@, key) {
                Some(i) => self.buckets@[h]@[i].rows@,
                None => Seq::empty(),
            }
        } else {
            Seq::empty()
        }
    }

    /// Whether no row was added under any key.
    pub open spec fn is_empty(self) -> bool {
        forall|key: Seq<u8>| #[trigger] self.rows_for(key) == Seq::<RowPtr>::empty()
    }

    /// A table without rows.
    pub fn create() -> (t: KeyTable)
        ensures
            t.is_empty(),
    {
        KeyTable { buckets: HashMap::new() }
    }

    fn hash_key(key: &Vec<u8>) -> (h: u64)
        ensures
            h == hash_of(key@),
    {
        let mut h: u64 = 14695981039346656037u64;
        let mut i: usize = 0;
        assert(key@.take(0) =~= Seq::<u8>::empty());
        while i < key.len()
            invariant
                i <= key.len(),
                h == hash_of(key@.take(i as int)),
            decreases key.len() - i,
        {
            proof {
                assert(key@.take(i + 1).drop_last() =~= key@.take(i as int));
                assert(key@.take(i + 1).last() == key@[i as int]);
            }
            h = ((h as u128 * 1099511628211u128 + key[i] as u128) % 0x1_0000_0000_0000_0000u128) as u64;
            i += 1;
        }
        assert(key@.take(i as int) =~= key@);
        h
    }

    fn find_entry(bucket: &Vec<KeyEntry>, key: &Vec<u8>) -> (r: Option<usize>)
        ensures
            match find_key(bucket@, key@) {
                Some(i) => r == Some(i as usize) && 0 <= i < bucket.len() && bucket[i].key@ == key@,
                None => r is None,
            },
    {
        let mut i: usize = 0;
        assert(bucket@.take(0) =~= Seq::<KeyEntry>::empty());
        while i < bucket.len()
            invariant
                i <= bucket.len(),
                find_key(bucket@.take(i as int), key@) is None,
            decreases bucket.len() - i,
        {
            proof {
                assert(bucket@.take(i + 1).drop_last() =~= bucket@.take(i as int));
                assert(bucket@.take(i + 1).last() == bucket@[i as int]);
            }
            if crate::datavalues::data_value::same_bytes(&bucket[i].key, key) {
                proof {
                    lemma_find_key_extends(bucket@, i + 1, key@);
                }
                return Some(i);
            }
            i += 1;
        }
        assert(bucket@.take(i as int) =~= bucket@);
        None
    }

    /// Adds the row `ptr` under `key`, after the rows that the key has.
    pub fn insert(&mut self, key: Vec<u8>, ptr: RowPtr)
        ensures
            forall|k: Seq<u8>|
                #[trigger] final(self).rows_for(k) == if k == key@ {
                    old(self).rows_for(k).push(ptr)
                } else {
                    old(self).rows_for(k)
                },
    {
        broadcast use vstd::std_specs::hash::group_hash_axioms;

        let h = KeyTable::hash_key(&key);
        let ghost old_map = self.buckets@;
        let ghost key_view = key@;
        let mut bucket: Vec<KeyEntry> = match self.buckets.remove(&h) {
            Some(b) => b,
            None => Vec::new(),
        };
        let ghost old_bucket = bucket@;
        assert(old_map.contains_key(h) ==> old_bucket == old_map[h]@);
        assert(!old_map.contains_key(h) ==> old_bucket.len() == 0);
        match KeyTable::find_entry(&bucket, &key) {
            Some(i) => {
                let mut entry = bucket.remove(i);
                let ghost old_rows = entry.rows@;
                entry.rows.push(ptr);
                bucket.insert(i, entry);
                proof {
                    assert(bucket@ =~= old_bucket.update(i as int, entry));
                    assert forall|k: Seq<u8>| find_key(bucket@, k) == find_key(old_bucket, k) by {
                        lemma_find_key_same_keys(bucket@, old_bucket, k);
                    }
                }
            },
            None => {
                let mut rows: Vec<RowPtr> = Vec::new();
                rows.push(ptr);
                assert(rows@ =~= Seq::<RowPtr>::empty().push(ptr));
                bucket.push(KeyEntry { key, rows });
                proof {
                    assert(bucket@.drop_last() =~= old_bucket);
                }
            },
        }
        let ghost new_bucket = bucket@;
        self.buckets.insert(h, bucket);
        proof {
            assert forall|k: Seq<u8>|
                #[trigger] self.rows_for(k) == if k == key_view {
                    old(self).rows_for(k).push(ptr)
                } else {
                    old(self).rows_for(k)
                } by {
                lemma_find_key_range(old_bucket, k);
                lemma_find_key_range(new_bucket, k);
                lemma_find_key_range(old_bucket, key_view);
                if hash_of(k) == h {
                    assert(self.buckets@[h]@ == new_bucket);
                } else {
                    assert(self.buckets@.contains_key(hash_of(k)) == old_map.contains_key(hash_of(k)));
                }
            }
        }
    }

    /// The rows that were added under `key`, `None` where there are none.
    pub fn find(&self, key: &Vec<u8>) -> (r: Option<&Vec<RowPtr>>)
        ensures
            match r {
                Some(rows) => rows@ == self.rows_for(key@),
                None => self.rows_for(key@) == Seq::<RowPtr>::empty(),
            },
    {
        broadcast use vstd::std_specs::hash::group_hash_axioms;

        let h = KeyTable::hash_key(key);
        match self.buckets.get(&h) {
            None => None,
            Some(bucket) => match KeyTable::find_entry(bucket, key) {
                Some(i) => Some(&bucket[i].rows),
                None => None,
            },
        }
    }
}

/// The number that the bytes of a key of fixed width stand for, the first
/// byte being the least significant.
pub open spec fn key_number(bytes: Seq<u8>) -> nat
    decreases bytes.len(),
{
    if bytes.len() == 0 {
        0
    } else {
        bytes[0] as nat + 256 * key_number(bytes.skip(1))
    }
}

/// The number of a key of `n` bytes is below `256^n`.
pub proof fn lemma_key_number_bound(bytes: Seq<u8>)
    ensures
        key_number(bytes) < pow256(bytes.len()),
    decreases bytes.len(),
{
    if bytes.len() > 0 {
        lemma_key_number_bound(bytes.skip(1));
    }
}

/// Two keys of one length with the same number are equal.
pub proof fn lemma_key_number_injective(a: Seq<u8>, b: Seq<u8>)
    requires
        a.len() == b.len(),
        key_number(a) == key_number(b),
    ensures
        a == b,
    decreases a.len(),
{
    if a.len() > 0 {
        let x = key_number(a.skip(1));
        let y = key_number(b.skip(1));
        assert(a[0] as nat + 256 * x == b[0] as nat + 256 * y);
        assert(a[0] == b[0] && x == y);
        lemma_key_number_injective(a.skip(1), b.skip(1));
        assert(a =~= seq![a[0]] + a.skip(1));
        assert(b =~= seq![b[0]] + b.skip(1));
    } else {
        assert(a =~= b);
    }
}

proof fn lemma_pow256_widths()
    ensures
        pow256(1) == 0x100,
        pow256(2) == 0x1_0000,
        pow256(4) == 0x1_0000_0000,
        pow256(8) == 0x1_0000_0000_0000_0000,
        pow256(16) == 0x1_0000_0000_0000_0000_0000_0000_0000_0000,
        forall|i: nat, j: nat| i <= j ==> pow256(i) <= pow256(j),
{
    reveal_with_fuel(pow256, 17);
    assert forall|i: nat, j: nat| i <= j implies pow256(i) <= pow256(j) by {
        lemma_pow256_monotonic(i, j);
    }
}

proof fn lemma_pow256_monotonic(i: nat, j: nat)
    requires
        i <= j,
    ensures
        pow256(i) <= pow256(j),
        pow256(i) >= 1,
    decreases j,
{
    if i < j {
        lemma_pow256_monotonic(i, (j - 1) as nat);
    } else if i > 0 {
        lemma_pow256_monotonic((i - 1) as nat, (i - 1) as nat);
    }
}

/// The number of a key of at most 16 bytes.
fn number_of(key: &Vec<u8>) -> (n: u128)
    requires
        key.len() <= 16,
    ensures
        n == key_number(key@),
{
    let mut n: u128 = 0;
    let mut i: usize = key.len();
    proof {
        assert(key@.skip(key.len() as int) =~= Seq::<u8>::empty());
        lemma_pow256_widths();
    }
    while i > 0
        invariant
            i <= key.len(),
            key.len() <= 16,
            n == key_number(key@.skip(i as int)),
        decreases i,
    {
        proof {
            lemma_key_number_bound(key@.skip(i as int));
            lemma_pow256_widths();
            lemma_pow256_monotonic((key.len() - i) as nat, 15);
            reveal_with_fuel(pow256, 17);
            assert(key@.skip(i - 1).skip(1) =~= key@.skip(i as int));
            assert(key@.skip(i - 1)[0] == key@[i - 1]);
        }
        i -= 1;
        n = n * 256 + key[i] as u128;
    }
    assert(key@.skip(0) =~= key@);
    n
}

/// A table from keys that are unsigned integers to rows.
pub struct NumberTable<K> {
    map: HashMap<K, Vec<RowPtr>>,
}

impl<K: Eq + Hash + Copy> NumberTable<K> {
    /// The rows that were added under the key `k`, in the order in which
    /// they were added.
    pub closed spec fn rows_of(self, k: K) -> Seq<RowPtr> {
        if self.map@.contains_key(k) {
            self.map@[k]@
        } else {
            Seq::empty()
        }
    }

    /// A table without rows.
    pub fn create() -> (t: NumberTable<K>)
        ensures
            forall|k: K| #[trigger] t.rows_of(k) == Seq::<RowPtr>::empty(),
    {
        NumberTable { map: HashMap::new() }
    }

    /// Adds the row `ptr` under the key `k`, after the rows that the key
    /// has.
    pub fn insert(&mut self, k: K, ptr: RowPtr)
        requires
            obeys_key_model::<K>(),
        ensures
            forall|j: K|
                #[trigger] final(self).rows_of(j) == if j == k {
                    old(self).rows_of(j).push(ptr)
                } else {
                    old(self).rows_of(j)
                },
    {
        broadcast use vstd::std_specs::hash::group_hash_axioms;

        let mut rows: Vec<RowPtr> = match self.map.remove(&k) {
            Some(rows) => rows,
            None => Vec::new(),
        };
        rows.push(ptr);
        self.map.insert(k, rows);
    }

    /// The rows that were added under the key `k`, `None` where there are
    /// none.
    pub fn find(&self, k: &K) -> (r: Option<&Vec<RowPtr>>)
        requires
            obeys_key_model::<K>(),
        ensures
            match r {
                Some(rows) => rows@ == self.rows_of(*k),
                None => self.rows_of(*k) == Seq::<RowPtr>::empty(),
            },
    {
        broadcast use vstd::std_specs::hash::group_hash_axioms;

        self.map.get(k)
    }
}

/// The table of a join with serialized keys.
pub struct SerializerHashTable {
    pub(crate) hash_table: KeyTable,
}

/// The table of a join whose keys are unsigned integers of 8 bits.
pub struct KeyU8HashTable {
    pub(crate) hash_table: NumberTable<u8>,
}

/// The table of a join whose keys are unsigned integers of 16 bits.
pub struct KeyU16HashTable {
    pub(crate) hash_table: NumberTable<u16>,
}

/// The table of a join whose keys are unsigned integers of 32 bits.
pub struct KeyU32HashTable {
    pub(crate) hash_table: NumberTable<u32>,
}

/// The table of a join whose keys are unsigned integers of 64 bits.
pub struct KeyU64HashTable {
    pub(crate) hash_table: NumberTable<u64>,
}

/// The table of a join whose keys are unsigned integers of 128 bits.
pub struct KeyU128HashTable {
    pub(crate) hash_table: NumberTable<u128>,
}

/// The table of a join whose keys are unsigned integers of 256 bits, kept
/// as their 32 bytes.
pub struct KeyU256HashTable {
    pub(crate) hash_table: KeyTable,
}

/// The table of a join whose keys are unsigned integers of 512 bits, kept
/// as their 64 bytes.
pub struct KeyU512HashTable {
    pub(crate) hash_table: KeyTable,
}

/// The table of a join, by the encoding of its keys. The encoding is chosen
/// when the table is made and stays.
pub enum HashTable {
    SerializerHashTable(SerializerHashTable),
    KeyU8HashTable(KeyU8HashTable),
    KeyU16HashTable(KeyU16HashTable),
    KeyU32HashTable(KeyU32HashTable),
    KeyU64HashTable(KeyU64HashTable),
    KeyU128HashTable(KeyU128HashTable),
    KeyU256HashTable(KeyU256HashTable),
    KeyU512HashTable(KeyU512HashTable),
}

impl HashTable {
    /// The encoding of the keys.
    pub open spec fn kind(self) -> HashMethodKind {
        match self {
            HashTable::SerializerHashTable(_) => HashMethodKind::Serializer,
            HashTable::KeyU8HashTable(_) => HashMethodKind::KeysU8,
            HashTable::KeyU16HashTable(_) => HashMethodKind::KeysU16,
            HashTable::KeyU32HashTable(_) => HashMethodKind::KeysU32,
            HashTable::KeyU64HashTable(_) => HashMethodKind::KeysU64,
            HashTable::KeyU128HashTable(_) => HashMethodKind::KeysU128,
            HashTable::KeyU256HashTable(_) => HashMethodKind::KeysU256,
            HashTable::KeyU512HashTable(_) => HashMethodKind::KeysU512,
        }
    }

    /// The rows that were added under the key with the bytes `key`, in the
    /// order in which they were added. A key of fixed width has as many
    /// bytes as its width; under bytes of any other number there are no
    /// rows.
    pub closed spec fn rows_for(self, key: Seq<u8>) -> Seq<RowPtr> {
        if self.kind() != HashMethodKind::Serializer && key.len() != self.kind().width() {
            Seq::empty()
        } else {
            match self {
                HashTable::SerializerHashTable(t) => t.hash_table.rows_for(key),
                HashTable::KeyU8HashTable(t) => t.hash_table.rows_of(key_number(key) as u8),
                HashTable::KeyU16HashTable(t) => t.hash_table.rows_of(key_number(key) as u16),
                HashTable::KeyU32HashTable(t) => t.hash_table.rows_of(key_number(key) as u32),
                HashTable::KeyU64HashTable(t) => t.hash_table.rows_of(key_number(key) as u64),
                HashTable::KeyU128HashTable(t) => t.hash_table.rows_of(key_number(key) as u128),
                HashTable::KeyU256HashTable(t) => t.hash_table.rows_for(key),
                HashTable::KeyU512HashTable(t) => t.hash_table.rows_for(key),
            }
        }
    }

    /// Whether no row was added under any key.
    pub open spec fn is_empty(self) -> bool {
        forall|key: Seq<u8>| #[trigger] self.rows_for(key) == Seq::<RowPtr>::empty()
    }

    /// Whether `key` has the number of bytes of the keys of the table.
    pub open spec fn takes(self, key: Seq<u8>) -> bool {
        self.kind() == HashMethodKind::Serializer || key.len() == self.kind().width()
    }

    /// A table without rows for keys of the encoding `kind`.
    pub fn create(kind: HashMethodKind) -> (t: HashTable)
        ensures
            t.kind() == kind,
            t.is_empty(),
    {
        let t = match kind {
            HashMethodKind::Serializer => HashTable::SerializerHashTable(
                SerializerHashTable { hash_table: KeyTable::create() },
            ),
            HashMethodKind::KeysU8 => HashTable::KeyU8HashTable(KeyU8HashTable { hash_table: NumberTable::create() }),
            HashMethodKind::KeysU16 => HashTable::KeyU16HashTable(
                KeyU16HashTable { hash_table: NumberTable::create() },
            ),
            HashMethodKind::KeysU32 => HashTable::KeyU32HashTable(
                KeyU32HashTable { hash_table: NumberTable::create() },
            ),
            HashMethodKind::KeysU64 => HashTable::KeyU64HashTable(
                KeyU64HashTable { hash_table: NumberTable::create() },
            ),
            HashMethodKind::KeysU128 => HashTable::KeyU128HashTable(
                KeyU128HashTable { hash_table: NumberTable::create() },
            ),
            HashMethodKind::KeysU256 => HashTable::KeyU256HashTable(
                KeyU256HashTable { hash_table: KeyTable::create() },
            ),
            HashMethodKind::KeysU512 => HashTable::KeyU512HashTable(
                KeyU512HashTable { hash_table: KeyTable::create() },
            ),
        };
        assert forall|key: Seq<u8>| #[trigger] t.rows_for(key) == Seq::<RowPtr>::empty() by {
            match t {
                HashTable::SerializerHashTable(x) => {
                    assert(x.hash_table.rows_for(key) == Seq::<RowPtr>::empty());
                },
                HashTable::KeyU256HashTable(x) => {
                    assert(x.hash_table.rows_for(key) == Seq::<RowPtr>::empty());
                },
                HashTable::KeyU512HashTable(x) => {
                    assert(x.hash_table.rows_for(key) == Seq::<RowPtr>::empty());
                },
                _ => {},
            }
        }
        t
    }

    /// The encoding of the keys.
    pub fn method(&self) -> (k: HashMethodKind)
        ensures
            k == self.kind(),
    {
        match self {
            HashTable::SerializerHashTable(_) => HashMethodKind::Serializer,
            HashTable::KeyU8HashTable(_) => HashMethodKind::KeysU8,
            HashTable::KeyU16HashTable(_) => HashMethodKind::KeysU16,
            HashTable::KeyU32HashTable(_) => HashMethodKind::KeysU32,
            HashTable::KeyU64HashTable(_) => HashMethodKind::KeysU64,
            HashTable::KeyU128HashTable(_) => HashMethodKind::KeysU128,
            HashTable::KeyU256HashTable(_) => HashMethodKind::KeysU256,
            HashTable::KeyU512HashTable(_) => HashMethodKind::KeysU512,
        }
    }

    /// Adds the row `ptr` under the key with the bytes `key`, after the
    /// rows that the key has. A key that has not the number of bytes of the
    /// keys of the table is not added.
    pub fn insert(&mut self, key: Vec<u8>, ptr: RowPtr)
        ensures
            final(self).kind() == old(self).kind(),
            forall|k: Seq<u8>|
                #[trigger] final(self).rows_for(k) == if k == key@ && old(self).takes(k) {
                    old(self).rows_for(k).push(ptr)
                } else {
                    old(self).rows_for(k)
                },
    {
        broadcast use vstd::std_specs::hash::group_hash_axioms;

        let kind = self.method();
        match kind {
            HashMethodKind::Serializer => {},
            _ => {
                if key.len() != kind.key_width() {
                    return ;
                }
            },
        }
        proof {
            lemma_key_number_bound(key@);
            lemma_pow256_widths();
            assert forall|k: Seq<u8>| k.len() == key.len() && key_number(k) == key_number(key@) implies k
                == key@ by {
                lemma_key_number_injective(k, key@);
            }
            assert forall|k: Seq<u8>| k.len() == key.len() implies key_number(k) < pow256(key.len() as nat) by {
                lemma_key_number_bound(k);
            }
        }
        match self {
            HashTable::SerializerHashTable(t) => t.hash_table.insert(key, ptr),
            HashTable::KeyU8HashTable(t) => t.hash_table.insert(number_of(&key) as u8, ptr),
            HashTable::KeyU16HashTable(t) => t.hash_table.insert(number_of(&key) as u16, ptr),
            HashTable::KeyU32HashTable(t) => t.hash_table.insert(number_of(&key) as u32, ptr),
            HashTable::KeyU64HashTable(t) => t.hash_table.insert(number_of(&key) as u64, ptr),
            HashTable::KeyU128HashTable(t) => t.hash_table.insert(number_of(&key), ptr),
            HashTable::KeyU256HashTable(t) => t.hash_table.insert(key, ptr),
            HashTable::KeyU512HashTable(t) => t.hash_table.insert(key, ptr),
        }
    }

    /// The rows that were added under the key with the bytes `key`, `None`
    /// where there are none.
    pub fn find(&self, key: &Vec<u8>) -> (r: Option<&Vec<RowPtr>>)
        ensures
            match r {
                Some(rows) => rows@ == self.rows_for(key@),
                None => self.rows_for(key@) == Seq::<RowPtr>::empty(),
            },
    {
        broadcast use vstd::std_specs::hash::group_hash_axioms;

        let kind = self.method();
        match kind {
            HashMethodKind::Serializer => {},
            _ => {
                if key.len() != kind.key_width() {
                    return None;
                }
            },
        }
        proof {
            lemma_key_number_bound(key@);
            lemma_pow256_widths();
        }
        match self {
            HashTable::SerializerHashTable(t) => t.hash_table.find(key),
            HashTable::KeyU8HashTable(t) => {
                let k = number_of(key) as u8;
                t.hash_table.find(&k)
            },
            HashTable::KeyU16HashTable(t) => {
                let k = number_of(key) as u16;
                t.hash_table.find(&k)
            },
            HashTable::KeyU32HashTable(t) => {
                let k = number_of(key) as u32;
                t.hash_table.find(&k)
            },
            HashTable::KeyU64HashTable(t) => {
                let k = number_of(key) as u64;
                t.hash_table.find(&k)
            },
            HashTable::KeyU128HashTable(t) => {
                let k = number_of(key);
                t.hash_table.find(&k)
            },
            HashTable::KeyU256HashTable(t) => t.hash_table.find(key),
            HashTable::KeyU512HashTable(t) => t.hash_table.find(key),
        }
    }
}

} // verus!
