//! Unsigned 256-bit integers, as the agreement stores and transfers amounts.
//!
//! The arithmetic is that of the `bigint` crate; this module holds the
//! library's own value type and the trusted calls into `bigint`.

use vstd::prelude::*;

verus! {

/// 2^64, the base of one limb.
pub open spec fn limb_base() -> nat {
    0x1_0000_0000_0000_0000nat
}

/// 2^256, one more than the largest value of a [`U256`].
pub open spec fn u256_modulus() -> nat {
    0x1_0000_0000_0000_0000_0000_0000_0000_0000_0000_0000_0000_0000_0000_0000_0000_0000nat
}

/// The number that four little-endian 64-bit limbs stand for.
pub open spec fn limbs_value(l: [u64; 4]) -> nat {
    l[0] as nat
        + l[1] as nat * 0x1_0000_0000_0000_0000nat
        + l[2] as nat * 0x1_0000_0000_0000_0000_0000_0000_0000_0000nat
        + l[3] as nat * 0x1_0000_0000_0000_0000_0000_0000_0000_0000_0000_0000_0000_0000nat
}

/// The number that a sequence of bytes stands for, most significant byte first.
pub open spec fn be_value(s: Seq<u8>) -> nat
    decreases s.len(),
{
    if s.len() == 0 {
        0
    } else {
        be_value(s.drop_last()) * 256 + s.last() as nat
    }
}

/// An unsigned 256-bit integer: four 64-bit limbs, least significant first
/// (the layout of `bigint::U256`).
#[derive(Clone, Copy, Debug, PartialEq, Eq)]
pub struct U256 {
    pub limbs: [u64; 4],
}

impl View for U256 {
    type V = nat;

    open spec fn view(&self) -> nat {
        limbs_value(self.limbs)
    }
}

pub proof fn lemma_u256_bound(x: U256)
    ensures
        x@ < u256_modulus(),
{
}

/// 256^n.
pub open spec fn pow256(n: nat) -> nat
    decreases n,
{
    if n == 0 {
        1
    } else {
        256 * pow256((n - 1) as nat)
    }
}

pub proof fn lemma_pow256_32()
    ensures
        pow256(32) == u256_modulus(),
{
    assert(pow256(0) == 1nat);
    assert(pow256(1) == 256nat);
    assert(pow256(2) == 65536nat);
    assert(pow256(3) == 16777216nat);
    assert(pow256(4) == 4294967296nat);
    assert(pow256(5) == 1099511627776nat);
    assert(pow256(6) == 281474976710656nat);
    assert(pow256(7) == 72057594037927936nat);
    assert(pow256(8) == 18446744073709551616nat);
    assert(pow256(9) == 4722366482869645213696nat);
    assert(pow256(10) == 1208925819614629174706176nat);
    assert(pow256(11) == 309485009821345068724781056nat);
    assert(pow256(12) == 79228162514264337593543950336nat);
    assert(pow256(13) == 20282409603651670423947251286016nat);
    assert(pow256(14) == 5192296858534827628530496329220096nat);
    assert(pow256(15) == 1329227995784915872903807060280344576nat);
    assert(pow256(16) == 340282366920938463463374607431768211456nat);
    assert(pow256(17) == 87112285931760246646623899502532662132736nat);
    assert(pow256(18) == 22300745198530623141535718272648361505980416nat);
    assert(pow256(19) == 5708990770823839524233143877797980545530986496nat);
    assert(pow256(20) == 1461501637330902918203684832716283019655932542976nat);
    assert(pow256(21) == 374144419156711147060143317175368453031918731001856nat);
    assert(pow256(22) == 95780971304118053647396689196894323976171195136475136nat);
    assert(pow256(23) == 24519928653854221733733552434404946937899825954937634816nat);
    assert(pow256(24) == 6277101735386680763835789423207666416102355444464034512896nat);
    assert(pow256(25) == 1606938044258990275541962092341162602522202993782792835301376nat);
    assert(pow256(26) == 411376139330301510538742295639337626245683966408394965837152256nat);
    assert(pow256(27) == 105312291668557186697918027683670432318895095400549111254310977536nat);
    assert(pow256(28) == 26959946667150639794667015087019630673637144422540572481103610249216nat);
    assert(pow256(29) == 6901746346790563787434755862277025452451108972170386555162524223799296nat);
    assert(pow256(30) == 1766847064778384329583297500742918515827483896875618958121606201292619776nat);
    assert(pow256(31) == 452312848583266388373324160190187140051835877600158453279131187530910662656nat);
    assert(pow256(32) == 115792089237316195423570985008687907853269984665640564039457584007913129639936nat);
}

pub proof fn lemma_be_value_bound(s: Seq<u8>)
    ensures
        be_value(s) < pow256(s.len()),
    decreases s.len(),
{
    if s.len() > 0 {
        lemma_be_value_bound(s.drop_last());
        let p = pow256((s.len() - 1) as nat);
        let v = be_value(s.drop_last());
        assert(v * 256 + (s.last() as nat) < p * 256) by (nonlinear_arith)
            requires
                v < p,
                s.last() < 256,
        ;
    }
}

impl U256 {
    /// The value `v`, as `bigint`'s `From<u64>` builds it.
    pub fn from_u64(v: u64) -> (r: U256)
        ensures
            r@ == v as nat,
    {
        U256 { limbs: [v, 0, 0, 0] }
    }

    /// Zero test (`bigint`'s `is_zero`).
    pub fn is_zero(&self) -> (r: bool)
        ensures
            r == (self@ == 0),
    {
        self.limbs[0] == 0 && self.limbs[1] == 0 && self.limbs[2] == 0 && self.limbs[3] == 0
    }

    /// The value as a `u64`, or `None` where `bigint`'s `as_u64` panics
    /// ("Integer overflow when casting U256").
    pub fn to_u64(&self) -> (r: Option<u64>)
        ensures
            r == (if self@ < limb_base() {
                Some(self@ as u64)
            } else {
                None::<u64>
            }),
    {
        if self.limbs[1] == 0 && self.limbs[2] == 0 && self.limbs[3] == 0 {
            Some(self.limbs[0])
        } else {
            None
        }
    }
}

/// Calls `bigint::U256::from(&[u8; 32])` (`from_big_endian`): reads 32 bytes,
/// most significant first. Claimed: the result stands for the big-endian value
/// of the bytes. The crate writes the limbs through their in-memory bytes, so
/// this holds on little-endian targets, which the host (wasm) is.
#[verifier::external_body]
pub(crate) fn u256_from_word(word: &[u8; 32]) -> (r: U256)
    ensures
        r@ == be_value(word@),
{
    U256 { limbs: bigint::U256::from(word).0 }
}

/// Calls `From<bigint::U256> for [u8; 32]` (`to_big_endian`). Claimed: the
/// 32 bytes, most significant first, stand for the value.
#[verifier::external_body]
pub(crate) fn u256_to_word(x: &U256) -> (r: [u8; 32])
    ensures
        be_value(r@) == x@,
{
    let w: [u8; 32] = bigint::U256(x.limbs).into();
    w
}

/// Calls `bigint::U256`'s `Div`. Claimed: the quotient rounded down. The crate
/// panics on a zero divisor, which `requires` leaves out.
#[verifier::external_body]
pub(crate) fn u256_div(a: &U256, b: &U256) -> (r: U256)
    requires
        b@ != 0,
    ensures
        r@ == a@ / b@,
{
    U256 { limbs: (bigint::U256(a.limbs) / bigint::U256(b.limbs)).0 }
}

/// Calls `bigint::U256::overflowing_mul`. Claimed: the product modulo 2^256,
/// and whether the product reached 2^256.
#[verifier::external_body]
pub(crate) fn u256_overflowing_mul(a: &U256, b: &U256) -> (r: (U256, bool))
    ensures
        r.0@ == (a@ * b@) % u256_modulus(),
        r.1 == (a@ * b@ >= u256_modulus()),
{
    let (v, o) = bigint::U256(a.limbs).overflowing_mul(bigint::U256(b.limbs));
    (U256 { limbs: v.0 }, o)
}

/// Calls `bigint::U256::overflowing_add`. Claimed: the sum modulo 2^256, and
/// whether the sum reached 2^256.
#[verifier::external_body]
pub(crate) fn u256_overflowing_add(a: &U256, b: &U256) -> (r: (U256, bool))
    ensures
        r.0@ == (a@ + b@) % u256_modulus(),
        r.1 == (a@ + b@ >= u256_modulus()),
{
    let (v, o) = bigint::U256(a.limbs).overflowing_add(bigint::U256(b.limbs));
    (U256 { limbs: v.0 }, o)
}

} // verus!
