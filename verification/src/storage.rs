//! Contract storage: a table of (key, value) words in which no key occurs
//! twice. It serves as the per-call cache in front of the chain's storage
//! and, loaded by the host, as the view of the chain's storage at the start of
//! a call.

use vstd::prelude::*;
use crate::word::{same_word, zero_word, Word};

verus! {

broadcast use vstd::array::group_array_axioms;

/// One stored word under its key.
#[derive(Clone, Copy, Debug)]
pub struct Entry {
    pub key: Word,
    pub value: Word,
}

/// The map that a table stands for: each key to the value of its entry.
pub open spec fn table_map(t: Seq<Entry>) -> Map<Seq<u8>, Seq<u8>>
    decreases t.len(),
{
    if t.len() == 0 {
        Map::empty()
    } else {
        table_map(t.drop_last()).insert(t.last().key@, t.last().value@)
    }
}

/// No key occurs twice in the table.
pub open spec fn keys_unique(t: Seq<Entry>) -> bool {
    forall|i: int, j: int| 0 <= i < j < t.len() ==> t[i].key@ != t[j].key@
}

/// The word under `k`, or the zero word where nothing is stored.
pub open spec fn word_at(m: Map<Seq<u8>, Seq<u8>>, k: Seq<u8>) -> Seq<u8> {
    if m.contains_key(k) {
        m[k]
    } else {
        zero_word()
    }
}

/// What a read of `k` through the cache `cache` in front of `chain` gives.
pub open spec fn cached_read(
    cache: Map<Seq<u8>, Seq<u8>>,
    chain: Map<Seq<u8>, Seq<u8>>,
    k: Seq<u8>,
) -> Seq<u8> {
    if cache.contains_key(k) {
        cache[k]
    } else {
        word_at(chain, k)
    }
}

pub proof fn lemma_table_map_domain(t: Seq<Entry>, k: Seq<u8>)
    ensures
        table_map(t).contains_key(k) <==> exists|i: int| 0 <= i < t.len() && t[i].key@ == k,
    decreases t.len(),
{
    if t.len() > 0 {
        let p = t.drop_last();
        lemma_table_map_domain(p, k);
        if table_map(t).contains_key(k) {
            if k != t.last().key@ {
                let i = choose|i: int| 0 <= i < p.len() && p[i].key@ == k;
                assert(t[i] == p[i]);
            } else {
                assert(t[t.len() - 1].key@ == k);
            }
        }
        if exists|i: int| 0 <= i < t.len() && t[i].key@ == k {
            let i = choose|i: int| 0 <= i < t.len() && t[i].key@ == k;
            if i < t.len() - 1 {
                assert(p[i] == t[i]);
            }
        }
    }
}

pub proof fn lemma_table_map_index(t: Seq<Entry>, i: int)
    requires
        keys_unique(t),
        0 <= i < t.len(),
    ensures
        table_map(t).contains_key(t[i].key@),
        table_map(t)[t[i].key@] == t[i].value@,
    decreases t.len(),
{
    let p = t.drop_last();
    if i < t.len() - 1 {
        assert(p[i] == t[i]);
        assert(keys_unique(p));
        lemma_table_map_index(p, i);
        assert(t[i].key@ != t[t.len() - 1].key@);
    }
}

pub proof fn lemma_table_map_update(t: Seq<Entry>, i: int, e: Entry)
    requires
        keys_unique(t),
        0 <= i < t.len(),
        e.key@ == t[i].key@,
    ensures
        keys_unique(t.update(i, e)),
        table_map(t.update(i, e)) == table_map(t).insert(e.key@, e.value@),
    decreases t.len(),
{
    let u = t.update(i, e);
    let p = t.drop_last();
    if i == t.len() - 1 {
        assert(u.drop_last() =~= p);
        // the last key does not occur before
        lemma_table_map_domain(p, e.key@);
        assert(table_map(t).insert(e.key@, e.value@) =~= table_map(p).insert(e.key@, e.value@));
    } else {
        assert(keys_unique(p));
        lemma_table_map_update(p, i, e);
        assert(u.drop_last() =~= p.update(i, e));
        assert(u.last() == t.last());
        assert(t.last().key@ != e.key@);
        assert(table_map(u) =~= table_map(t).insert(e.key@, e.value@));
    }
}

pub proof fn lemma_table_map_len(t: Seq<Entry>)
    requires
        keys_unique(t),
    ensures
        table_map(t).dom().finite(),
        table_map(t).dom().len() == t.len(),
    decreases t.len(),
{
    if t.len() > 0 {
        let p = t.drop_last();
        assert(keys_unique(p));
        lemma_table_map_len(p);
        lemma_table_map_domain(p, t.last().key@);
        if table_map(p).contains_key(t.last().key@) {
            let i = choose|i: int| 0 <= i < p.len() && p[i].key@ == t.last().key@;
            assert(t[i] == p[i]);
        }
    }
}

/// An operation on a cache in front of the chain: a read (which caches what
/// it read) or a write.
pub enum CacheOp {
    Read { key: Seq<u8> },
    Write { key: Seq<u8>, value: Seq<u8> },
}

/// The cache after a sequence of operations, as `Storage::read` and
/// `Storage::write` change it.
pub open spec fn apply_cache_ops(
    cache: Map<Seq<u8>, Seq<u8>>,
    chain: Map<Seq<u8>, Seq<u8>>,
    ops: Seq<CacheOp>,
) -> Map<Seq<u8>, Seq<u8>>
    decreases ops.len(),
{
    if ops.len() == 0 {
        cache
    } else {
        let c = apply_cache_ops(cache, chain, ops.drop_last());
        match ops.last() {
            CacheOp::Read { key } => c.insert(key, cached_read(c, chain, key)),
            CacheOp::Write { key, value } => c.insert(key, value),
        }
    }
}

/// Whether an operation writes `k`.
pub open spec fn writes_key(op: CacheOp, k: Seq<u8>) -> bool {
    match op {
        CacheOp::Read { .. } => false,
        CacheOp::Write { key, .. } => key == k,
    }
}

/// A table of storage words in which no key occurs twice.
pub struct Storage {
    table: Vec<Entry>,
}

impl View for Storage {
    type V = Map<Seq<u8>, Seq<u8>>;

    closed spec fn view(&self) -> Map<Seq<u8>, Seq<u8>> {
        table_map(self.table@)
    }
}

impl Storage {
    /// The number of entries in the table.
    pub closed spec fn size(&self) -> nat {
        self.table@.len()
    }

    /// The table holds one entry per key of its map: no key occurs twice.
    pub open spec fn one_entry_per_key(&self) -> bool {
        &&& self@.dom().finite()
        &&& self@.dom().len() == self.size()
    }

    #[verifier::type_invariant]
    closed spec fn inv(&self) -> bool {
        keys_unique(self.table@)
    }

    /// An empty table with room for `cap` entries.
    pub fn with_capacity(cap: usize) -> (r: Storage)
        ensures
            r@ == Map::<Seq<u8>, Seq<u8>>::empty(),
            r.size() == 0,
    {
        Storage { table: Vec::with_capacity(cap) }
    }

    /// The value stored under `key`, if any.
    pub fn lookup(&self, key: &Word) -> (r: Option<Word>)
        ensures
            match r {
                Some(v) => self@.contains_key(key@) && self@[key@] == v@,
                None => !self@.contains_key(key@),
            },
    {
        proof {
            use_type_invariant(self);
        }
        let n = self.table.len();
        let mut i: usize = 0;
        while i < n
            invariant
                n == self.table@.len(),
                keys_unique(self.table@),
                0 <= i <= n,
                forall|j: int| 0 <= j < i ==> self.table@[j].key@ != key@,
            decreases n - i,
        {
            if same_word(key, &self.table[i].key) {
                proof {
                    lemma_table_map_index(self.table@, i as int);
                }
                return Some(self.table[i].value);
            }
            i = i + 1;
        }
        proof {
            lemma_table_map_domain(self.table@, key@);
        }
        None
    }

    /// The word stored under `key`, or the zero word where none is: what the
    /// chain answers for a key that was never written.
    pub fn get(&self, key: &Word) -> (r: Word)
        ensures
            r@ == word_at(self@, key@),
    {
        match self.lookup(key) {
            Some(v) => v,
            None => {
                let z: Word = [0u8; 32];
                assert(z@ =~= zero_word());
                z
            },
        }
    }

    /// Reads `key` through this table as a cache in front of `chain`: the
    /// cached word where there is one, else the chain's, which is then
    /// cached.
    pub fn read(&mut self, chain: &Storage, key: &Word) -> (r: Word)
        ensures
            r@ == cached_read(old(self)@, chain@, key@),
            final(self)@ == old(self)@.insert(key@, r@),
            final(self).one_entry_per_key(),
            final(self).size() == old(self).size() + (if old(self)@.contains_key(key@) {
                0nat
            } else {
                1nat
            }),
    {
        proof {
            use_type_invariant(&*self);
            lemma_table_map_len(self.table@);
        }
        match self.lookup(key) {
            Some(v) => {
                assert(self@.insert(key@, v@) =~= self@);
                v
            },
            None => {
                let v = chain.get(key);
                self.remember(key, &v);
                v
            },
        }
    }

    /// Adds an entry for a key that has none.
    fn remember(&mut self, key: &Word, value: &Word)
        requires
            !old(self)@.contains_key(key@),
        ensures
            final(self)@ == old(self)@.insert(key@, value@),
            final(self).one_entry_per_key(),
            final(self).size() == old(self).size() + 1,
    {
        proof {
            use_type_invariant(&*self);
        }
        let mut t: Vec<Entry> = Vec::new();
        std::mem::swap(&mut t, &mut self.table);
        let ghost t0 = t@;
        proof {
            lemma_table_map_domain(t0, key@);
        }
        t.push(Entry { key: *key, value: *value });
        assert(t@.drop_last() =~= t0);
        self.table = t;
        proof {
            use_type_invariant(&*self);
            lemma_table_map_len(self.table@);
        }
    }

    /// Stores `value` under `key`, replacing what was there.
    pub fn write(&mut self, key: &Word, value: &Word)
        ensures
            final(self)@ == old(self)@.insert(key@, value@),
            final(self).one_entry_per_key(),
            final(self).size() == old(self).size() + (if old(self)@.contains_key(key@) {
                0nat
            } else {
                1nat
            }),
    {
        proof {
            use_type_invariant(&*self);
            lemma_table_map_len(self.table@);
        }
        let mut t: Vec<Entry> = Vec::new();
        std::mem::swap(&mut t, &mut self.table);
        let ghost t0 = t@;
        let n = t.len();
        let mut i: usize = 0;
        while i < n
            invariant
                n == t@.len(),
                t@ == t0,
                keys_unique(t0),
                old(self)@ == table_map(t0),
                old(self).size() == t0.len(),
                0 <= i <= n,
                forall|j: int| 0 <= j < i ==> t0[j].key@ != key@,
            decreases n - i,
        {
            if same_word(key, &t[i].key) {
                let e = Entry { key: t[i].key, value: *value };
                proof {
                    lemma_table_map_update(t0, i as int, e);
                }
                t.set(i, e);
                self.table = t;
                proof {
                    use_type_invariant(&*self);
                    lemma_table_map_len(self.table@);
                    lemma_table_map_index(t0, i as int);
                }
                return;
            }
            i = i + 1;
        }
        proof {
            lemma_table_map_domain(t0, key@);
        }
        t.push(Entry { key: *key, value: *value });
        assert(t@.drop_last() =~= t0);
        self.table = t;
        proof {
            use_type_invariant(&*self);
            lemma_table_map_len(self.table@);
        }
    }
}

} // verus!
