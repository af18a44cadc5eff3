//! 32-byte storage words, 20-byte addresses, and how the agreement encodes
//! its terms into words.

use vstd::prelude::*;
use crate::uint::{
    be_value, lemma_be_value_bound, lemma_pow256_32, pow256, u256_modulus,
    u256_from_word, u256_to_word, U256,
};

verus! {

broadcast use vstd::array::group_array_axioms;

/// A storage word (`H256`).
pub type Word = [u8; 32];

/// An account address (`H160`).
pub type Address = [u8; 20];

/// The word of 32 zero bytes: what storage holds where nothing was written.
pub open spec fn zero_word() -> Seq<u8> {
    Seq::new(32, |i: int| 0u8)
}

/// The `n` bytes of `v` modulo 256^n, most significant first.
pub open spec fn be_bytes(v: nat, n: nat) -> Seq<u8>
    decreases n,
{
    if n == 0 {
        Seq::empty()
    } else {
        be_bytes(v / 256, (n - 1) as nat).push((v % 256) as u8)
    }
}

/// The word that holds `v` (below 2^256) in big-endian order.
pub open spec fn value_word(v: nat) -> Seq<u8> {
    be_bytes(v, 32)
}

/// The word that holds an address: twelve zero bytes, then the address
/// (`From<H160> for H256`).
pub open spec fn address_word(a: Seq<u8>) -> Seq<u8> {
    Seq::new(12, |i: int| 0u8) + a
}

/// The address that a word holds: its last twenty bytes (`From<H256> for H160`).
pub open spec fn word_address(w: Seq<u8>) -> Seq<u8> {
    w.subrange(12, 32)
}

pub proof fn lemma_be_bytes_len(v: nat, n: nat)
    ensures
        be_bytes(v, n).len() == n,
    decreases n,
{
    if n > 0 {
        lemma_be_bytes_len(v / 256, (n - 1) as nat);
    }
}

/// Reading back the bytes of `v` gives `v` modulo 256^n.
pub proof fn lemma_be_bytes_value(v: nat, n: nat)
    ensures
        be_value(be_bytes(v, n)) == v % pow256(n),
    decreases n,
{
    if n == 0 {
        assert(v % 1 == 0) by (nonlinear_arith);
    } else {
        let m = (n - 1) as nat;
        lemma_be_bytes_value(v / 256, m);
        lemma_be_bytes_len(v / 256, m);
        let s = be_bytes(v, n);
        assert(s.drop_last() =~= be_bytes(v / 256, m));
        lemma_pow256_positive(m);
        let p = pow256(m);
        vstd::arithmetic::div_mod::lemma_mod_breakdown(v as int, 256, p as int);
    }
}

pub proof fn lemma_pow256_positive(n: nat)
    ensures
        pow256(n) > 0,
    decreases n,
{
    if n > 0 {
        lemma_pow256_positive((n - 1) as nat);
    }
}

/// Two byte sequences of one length with one big-endian value are equal.
pub proof fn lemma_be_value_injective(a: Seq<u8>, b: Seq<u8>)
    requires
        a.len() == b.len(),
        be_value(a) == be_value(b),
    ensures
        a == b,
    decreases a.len(),
{
    if a.len() > 0 {
        let x = a.last() as int;
        let y = b.last() as int;
        let va = be_value(a.drop_last()) as int;
        let vb = be_value(b.drop_last()) as int;
        assert(va * 256 + x == vb * 256 + y);
        assert(x == y && va == vb) by (nonlinear_arith)
            requires
                va * 256 + x == vb * 256 + y,
                0 <= x < 256,
                0 <= y < 256,
                va >= 0,
                vb >= 0,
        ;
        lemma_be_value_injective(a.drop_last(), b.drop_last());
        assert(a =~= a.drop_last().push(a.last()));
        assert(b =~= b.drop_last().push(b.last()));
    }
}

/// A word whose big-endian value is `v` is the word of `v`.
pub proof fn lemma_value_word_unique(w: Seq<u8>, v: nat)
    requires
        w.len() == 32,
        be_value(w) == v,
    ensures
        w == value_word(v),
{
    lemma_be_value_bound(w);
    lemma_pow256_32();
    lemma_be_bytes_value(v, 32);
    lemma_be_bytes_len(v, 32);
    assert(v % u256_modulus() == v) by (nonlinear_arith)
        requires
            v < u256_modulus(),
    ;
    lemma_be_value_injective(w, value_word(v));
}

/// The word value of the word of `v` is `v`, for every `v` below 2^256.
pub proof fn lemma_value_word_roundtrip(v: nat)
    requires
        v < u256_modulus(),
    ensures
        be_value(value_word(v)) == v,
        value_word(v).len() == 32,
{
    lemma_pow256_32();
    lemma_be_bytes_value(v, 32);
    lemma_be_bytes_len(v, 32);
    assert(v % u256_modulus() == v) by (nonlinear_arith)
        requires
            v < u256_modulus(),
    ;
}

/// The word that holds `a` (`H256::from(Address)`).
pub fn address_to_word(a: &Address) -> (r: Word)
    ensures
        r@ == address_word(a@),
{
    let mut w: Word = [0u8; 32];
    let mut i: usize = 0;
    while i < 20
        invariant
            0 <= i <= 20,
            forall|j: int| 0 <= j < 12 ==> w@[j] == 0u8,
            forall|j: int| 0 <= j < i ==> w@[12 + j] == a@[j],
        decreases 20 - i,
    {
        w[12 + i] = a[i];
        i = i + 1;
    }
    assert(w@ =~= address_word(a@));
    w
}

/// The address that `w` holds (`Address::from(H256)`).
pub fn word_to_address(w: &Word) -> (r: Address)
    ensures
        r@ == word_address(w@),
{
    let mut a: Address = [0u8; 20];
    let mut i: usize = 0;
    while i < 20
        invariant
            0 <= i <= 20,
            forall|j: int| 0 <= j < i ==> a@[j] == w@[12 + j],
        decreases 20 - i,
    {
        a[i] = w[12 + i];
        i = i + 1;
    }
    assert(a@ =~= word_address(w@));
    a
}

/// Address equality (`H160`'s `==`).
pub fn same_address(a: &Address, b: &Address) -> (r: bool)
    ensures
        r == (a@ == b@),
{
    let mut i: usize = 0;
    while i < 20
        invariant
            0 <= i <= 20,
            forall|j: int| 0 <= j < i ==> a@[j] == b@[j],
        decreases 20 - i,
    {
        if a[i] != b[i] {
            return false;
        }
        i = i + 1;
    }
    assert(a@ =~= b@);
    true
}

/// Word equality (`H256`'s `==`).
pub fn same_word(a: &Word, b: &Word) -> (r: bool)
    ensures
        r == (a@ == b@),
{
    let mut i: usize = 0;
    while i < 32
        invariant
            0 <= i <= 32,
            forall|j: int| 0 <= j < i ==> a@[j] == b@[j],
        decreases 32 - i,
    {
        if a[i] != b[i] {
            return false;
        }
        i = i + 1;
    }
    assert(a@ =~= b@);
    true
}

/// The word that holds `x` (`<[u8; 32]>::from(U256)`).
pub fn value_to_word(x: &U256) -> (r: Word)
    ensures
        r@ == value_word(x@),
{
    let w = u256_to_word(x);
    proof {
        lemma_value_word_unique(w@, x@);
    }
    w
}

/// The number that `w` holds (`U256::from(w)`).
pub fn word_to_value(w: &Word) -> (r: U256)
    ensures
        r@ == be_value(w@),
{
    u256_from_word(w)
}

/// The word that holds `v` (`U256::from(v).into()`).
pub fn u64_to_word(v: u64) -> (r: Word)
    ensures
        r@ == value_word(v as nat),
{
    value_to_word(&U256::from_u64(v))
}

} // verus!
