//! Fixed-width unsigned amounts of 256 and 512 bits.
//!
//! An amount is held as little-endian 64-bit words, the layout of
//! `casper_types::U256` and `casper_types::U512`, whose arithmetic it uses.

use crate::kvstore::Stored;
use vstd::prelude::*;

verus! {

/// An unsigned 256-bit amount: four 64-bit words, least significant first.
#[derive(Clone, Copy, Debug, PartialEq, Eq)]
pub struct U256 {
    pub words: [u64; 4],
}

/// An unsigned 512-bit amount: eight 64-bit words, least significant first.
#[derive(Clone, Copy, Debug, PartialEq, Eq)]
pub struct U512 {
    pub words: [u64; 8],
}

/// The largest value a [`U256`] holds, `2^256 - 1`.
pub open spec fn u256_max() -> nat {
    0xffff_ffff_ffff_ffff_ffff_ffff_ffff_ffff_ffff_ffff_ffff_ffff_ffff_ffff_ffff_ffffnat
}

/// The largest value a [`U512`] holds, `2^512 - 1`.
pub open spec fn u512_max() -> nat {
    0xffff_ffff_ffff_ffff_ffff_ffff_ffff_ffff_ffff_ffff_ffff_ffff_ffff_ffff_ffff_ffff_ffff_ffff_ffff_ffff_ffff_ffff_ffff_ffff_ffff_ffff_ffff_ffff_ffff_ffff_ffff_ffffnat
}

/// The number that four little-endian 64-bit words stand for.
pub open spec fn words4_value(w: Seq<u64>) -> nat {
    (w[0] + w[1] * 0x1_0000_0000_0000_0000int + w[2] * 0x1_0000_0000_0000_0000_0000_0000_0000_0000int
        + w[3] * 0x1_0000_0000_0000_0000_0000_0000_0000_0000_0000_0000_0000_0000int) as nat
}

/// The number that eight little-endian 64-bit words stand for.
pub open spec fn words8_value(w: Seq<u64>) -> nat {
    (words4_value(w.subrange(0, 4)) + words4_value(w.subrange(4, 8))
        * 0x1_0000_0000_0000_0000_0000_0000_0000_0000_0000_0000_0000_0000_0000_0000_0000_0000int) as nat
}

/// `casper_types::U256::checked_add`: the sum of the two amounts, or `None`
/// when the sum does not fit in 256 bits.
#[verifier::external_body]
pub(crate) fn u256_checked_add(a: U256, b: U256) -> (r: Option<U256>)
    ensures
        a.value() + b.value() <= u256_max() ==> r.is_some() && r.unwrap().value() == a.value()
            + b.value(),
        a.value() + b.value() > u256_max() ==> r.is_none(),
{
    match casper_types::U256(a.words).checked_add(casper_types::U256(b.words)) {
        Some(sum) => Some(U256 { words: sum.0 }),
        None => None,
    }
}

/// `casper_types::U256::checked_sub`: the difference of the two amounts, or
/// `None` when the second exceeds the first.
#[verifier::external_body]
pub(crate) fn u256_checked_sub(a: U256, b: U256) -> (r: Option<U256>)
    ensures
        b.value() <= a.value() ==> r.is_some() && r.unwrap().value() == a.value() - b.value(),
        b.value() > a.value() ==> r.is_none(),
{
    match casper_types::U256(a.words).checked_sub(casper_types::U256(b.words)) {
        Some(difference) => Some(U256 { words: difference.0 }),
        None => None,
    }
}

impl U256 {
    /// The number this amount stands for.
    pub open spec fn value(self) -> nat {
        words4_value(self.words@)
    }

    /// The amount zero.
    pub fn zero() -> (z: Self)
        ensures
            z.value() == 0,
            z == Self::spec_zero(),
    {
        U256 { words: [0, 0, 0, 0] }
    }

    /// The amount zero.
    pub open spec fn spec_zero() -> Self {
        U256 { words: [0, 0, 0, 0] }
    }

    /// The amount `x`.
    pub fn from_u64(x: u64) -> (r: Self)
        ensures
            r.value() == x,
    {
        U256 { words: [x, 0, 0, 0] }
    }

    /// Whether this amount is zero.
    pub fn is_zero(&self) -> (r: bool)
        ensures
            r == (self.value() == 0),
    {
        self.words[0] == 0 && self.words[1] == 0 && self.words[2] == 0 && self.words[3] == 0
    }
}

/// `casper_types::U512::checked_add`: the sum of the two amounts, or `None`
/// when the sum does not fit in 512 bits.
#[verifier::external_body]
pub(crate) fn u512_checked_add(a: U512, b: U512) -> (r: Option<U512>)
    ensures
        a.value() + b.value() <= u512_max() ==> r.is_some() && r.unwrap().value() == a.value()
            + b.value(),
        a.value() + b.value() > u512_max() ==> r.is_none(),
{
    match casper_types::U512(a.words).checked_add(casper_types::U512(b.words)) {
        Some(sum) => Some(U512 { words: sum.0 }),
        None => None,
    }
}

/// `casper_types::U512::checked_sub`: the difference of the two amounts, or
/// `None` when the second exceeds the first.
#[verifier::external_body]
pub(crate) fn u512_checked_sub(a: U512, b: U512) -> (r: Option<U512>)
    ensures
        b.value() <= a.value() ==> r.is_some() && r.unwrap().value() == a.value() - b.value(),
        b.value() > a.value() ==> r.is_none(),
{
    match casper_types::U512(a.words).checked_sub(casper_types::U512(b.words)) {
        Some(difference) => Some(U512 { words: difference.0 }),
        None => None,
    }
}

impl U512 {
    /// The number this amount stands for.
    pub open spec fn value(self) -> nat {
        words8_value(self.words@)
    }

    /// The amount zero.
    pub open spec fn spec_zero() -> Self {
        U512 { words: [0, 0, 0, 0, 0, 0, 0, 0] }
    }

    /// The amount zero.
    pub fn zero() -> (z: Self)
        ensures
            z.value() == 0,
            z == Self::spec_zero(),
    {
        U512 { words: [0, 0, 0, 0, 0, 0, 0, 0] }
    }

    /// The amount `x`.
    pub fn from_u64(x: u64) -> (r: Self)
        ensures
            r.value() == x,
    {
        U512 { words: [x, 0, 0, 0, 0, 0, 0, 0] }
    }

    /// Whether this amount is zero.
    pub fn is_zero(&self) -> (r: bool)
        ensures
            r == (self.value() == 0),
    {
        self.words[0] == 0 && self.words[1] == 0 && self.words[2] == 0 && self.words[3] == 0
            && self.words[4] == 0 && self.words[5] == 0 && self.words[6] == 0 && self.words[7]
            == 0
    }
}

/// Two 256-bit amounts that stand for the same number are the same amount.
#[verifier::rlimit(40)]
pub proof fn lemma_u256_value_injective(a: U256, b: U256)
    requires
        a.value() == b.value(),
    ensures
        a == b,
{
    let base = 0x1_0000_0000_0000_0000int;
    let d0 = a.words[0] - b.words[0];
    let d1 = a.words[1] - b.words[1];
    let d2 = a.words[2] - b.words[2];
    let d3 = a.words[3] - b.words[3];
    let k2 = d3;
    let k1 = d2 + base * k2;
    let k0 = d1 + base * k1;
    assert(d0 + base * k0 == 0);
    assert(k0 == 0);
    assert(k1 == 0);
    assert(k2 == 0);
    assert(a.words@ =~= b.words@);
    assert(a.words =~= b.words);
}

/// Two 512-bit amounts that stand for the same number are the same amount.
#[verifier::rlimit(40)]
pub proof fn lemma_u512_value_injective(a: U512, b: U512)
    requires
        a.value() == b.value(),
    ensures
        a == b,
{
    let base = 0x1_0000_0000_0000_0000int;
    let d0 = a.words[0] - b.words[0];
    let d1 = a.words[1] - b.words[1];
    let d2 = a.words[2] - b.words[2];
    let d3 = a.words[3] - b.words[3];
    let d4 = a.words[4] - b.words[4];
    let d5 = a.words[5] - b.words[5];
    let d6 = a.words[6] - b.words[6];
    let d7 = a.words[7] - b.words[7];
    let k6 = d7;
    let k5 = d6 + base * k6;
    let k4 = d5 + base * k5;
    let k3 = d4 + base * k4;
    let k2 = d3 + base * k3;
    let k1 = d2 + base * k2;
    let k0 = d1 + base * k1;
    assert(a.words@.subrange(0, 4)[0] == a.words[0] && a.words@.subrange(0, 4)[1] == a.words[1]
        && a.words@.subrange(0, 4)[2] == a.words[2] && a.words@.subrange(0, 4)[3] == a.words[3]);
    assert(a.words@.subrange(4, 8)[0] == a.words[4] && a.words@.subrange(4, 8)[1] == a.words[5]
        && a.words@.subrange(4, 8)[2] == a.words[6] && a.words@.subrange(4, 8)[3] == a.words[7]);
    assert(b.words@.subrange(0, 4)[0] == b.words[0] && b.words@.subrange(0, 4)[1] == b.words[1]
        && b.words@.subrange(0, 4)[2] == b.words[2] && b.words@.subrange(0, 4)[3] == b.words[3]);
    assert(b.words@.subrange(4, 8)[0] == b.words[4] && b.words@.subrange(4, 8)[1] == b.words[5]
        && b.words@.subrange(4, 8)[2] == b.words[6] && b.words@.subrange(4, 8)[3] == b.words[7]);
    assert(d0 + base * k0 == 0);
    assert(k0 == 0);
    assert(k1 == 0);
    assert(k2 == 0);
    assert(k3 == 0);
    assert(k4 == 0);
    assert(k5 == 0);
    assert(k6 == 0);
    assert(a.words@ =~= b.words@);
    assert(a.words =~= b.words);
}

impl Stored for U256 {
    open spec fn spec_default() -> Self {
        U256::spec_zero()
    }

    fn default_value() -> (value: Self) {
        U256::zero()
    }
}

impl Stored for U512 {
    open spec fn spec_default() -> Self {
        U512::spec_zero()
    }

    fn default_value() -> (value: Self) {
        U512::zero()
    }
}

} // verus!
