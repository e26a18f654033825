//! Conversions between unsigned integers and vectors of bits.
//!
//! `get_bits_be` lists the bits from the least significant one upwards,
//! `get_bits_le` lists them from the most significant one downwards, and
//! `from_bits` reads such a vector back, padding short inputs with leading
//! `false` entries.

use vstd::prelude::*;

verus! {

/// The vector that `from_bits` actually reads: `bits` padded in front with
/// `false` up to `width` entries, reversed when it lists the most significant
/// bit first.
pub open spec fn padded_bits(bits: Seq<bool>, width: nat, is_le: bool) -> Seq<bool> {
    let padded = if bits.len() < width {
        Seq::new((width - bits.len()) as nat, |_i: int| false) + bits
    } else {
        bits
    };
    if is_le {
        padded.reverse()
    } else {
        padded
    }
}

pub trait GetBits: Sized {
    /// Number of bits in the type.
    spec fn width() -> nat;

    /// Bit `i` of the value, counted from the least significant bit.
    spec fn bit(&self, i: int) -> bool;

    /// The bits from the least significant one upwards.
    fn get_bits_be(&self) -> (r: Vec<bool>)
        ensures
            r@.len() == Self::width(),
            forall|i: int| 0 <= i < Self::width() ==> r@[i] == self.bit(i),
    ;

    /// The value whose bit `i` is entry `i` of `padded_bits(bits, width, is_le)`.
    fn from_bits(bits: Vec<bool>, is_le: bool) -> (r: Self)
        requires
            bits@.len() <= Self::width(),
        ensures
            forall|i: int|
                0 <= i < Self::width() ==> r.bit(i) == padded_bits(bits@, Self::width(), is_le)[i],
    ;

    /// The bits from the most significant one downwards.
    fn get_bits_le(&self) -> (r: Vec<bool>)
        ensures
            r@.len() == Self::width(),
            forall|i: int| 0 <= i < Self::width() ==> r@[i] == self.bit(Self::width() - 1 - i),
    {
        let be_bits = self.get_bits_be();
        let mut bits: Vec<bool> = Vec::with_capacity(be_bits.len());
        let mut index: usize = be_bits.len();
        while index > 0
            invariant
                index <= be_bits@.len(),
                be_bits@.len() == Self::width(),
                bits@.len() == be_bits@.len() - index,
                forall|i: int| 0 <= i < Self::width() ==> be_bits@[i] == self.bit(i),
                forall|j: int|
                    0 <= j < bits@.len() ==> bits@[j] == self.bit(Self::width() - 1 - j),
            decreases index,
        {
            index = index - 1;
            bits.push(be_bits[index]);
        }
        bits
    }
}


/// Builds `padded_bits(bits, width, is_le)`.
fn pad_bits(bits: Vec<bool>, width: usize, is_le: bool) -> (r: Vec<bool>)
    requires
        bits@.len() <= width,
    ensures
        r@ == padded_bits(bits@, width as nat, is_le),
        r@.len() == width,
{
    let mut padded: Vec<bool> = Vec::with_capacity(width);
    let missing: usize = width - bits.len();
    while padded.len() < missing
        invariant
            padded@.len() <= missing,
            forall|j: int| 0 <= j < padded@.len() ==> padded@[j] == false,
        decreases missing - padded@.len(),
    {
        padded.push(false);
    }
    let mut index: usize = 0;
    while index < bits.len()
        invariant
            index <= bits@.len(),
            padded@ =~= Seq::new(missing as nat, |_i: int| false) + bits@.subrange(0, index as int),
        decreases bits@.len() - index,
    {
        padded.push(bits[index]);
        index = index + 1;
        assert(bits@.subrange(0, index as int) =~= bits@.subrange(0, index - 1).push(bits@[index - 1]));
    }
    assert(bits@.subrange(0, bits@.len() as int) =~= bits@);
    let ghost unreversed = padded@;
    assert(bits@.len() < width ==> unreversed =~= Seq::new((width - bits@.len()) as nat, |_i: int| false) + bits@);
    assert(bits@.len() == width ==> unreversed =~= bits@);
    if is_le {
        let mut reversed: Vec<bool> = Vec::with_capacity(width);
        let mut k: usize = padded.len();
        while k > 0
            invariant
                k <= unreversed.len(),
                padded@ == unreversed,
                reversed@.len() == unreversed.len() - k,
                forall|j: int| 0 <= j < reversed@.len() ==> reversed@[j] == unreversed[unreversed.len() - 1 - j],
            decreases k,
        {
            k = k - 1;
            reversed.push(padded[k]);
        }
        assert(reversed@ =~= unreversed.reverse());
        reversed
    } else {
        padded
    }
}

/// Setting bit `k` of `a` sets that bit and leaves the others.
proof fn lemma_set_bit_u8(a: u8, k: u8, i: u8)
    requires
        k < 8,
        i < 8,
    ensures
        ((a | (1u8 << k)) >> i) & 1 == 1 <==> (((a >> i) & 1 == 1) || i == k),
{
    assert(((a | (1u8 << k)) >> i) & 1 == 1 <==> (((a >> i) & 1 == 1) || i == k)) by (bit_vector)
        requires k < 8u8, i < 8u8;
}

proof fn lemma_set_bit_u16(a: u16, k: u16, i: u16)
    requires
        k < 16,
        i < 16,
    ensures
        ((a | (1u16 << k)) >> i) & 1 == 1 <==> (((a >> i) & 1 == 1) || i == k),
{
    assert(((a | (1u16 << k)) >> i) & 1 == 1 <==> (((a >> i) & 1 == 1) || i == k)) by (bit_vector)
        requires k < 16u16, i < 16u16;
}

proof fn lemma_set_bit_u64(a: u64, k: u64, i: u64)
    requires
        k < 64,
        i < 64,
    ensures
        ((a | (1u64 << k)) >> i) & 1 == 1 <==> (((a >> i) & 1 == 1) || i == k),
{
    assert(((a | (1u64 << k)) >> i) & 1 == 1 <==> (((a >> i) & 1 == 1) || i == k)) by (bit_vector)
        requires k < 64u64, i < 64u64;
}

impl GetBits for u8 {
    open spec fn width() -> nat {
        8
    }

    open spec fn bit(&self, i: int) -> bool {
        (*self >> (i as u8)) & 1 == 1
    }

    fn get_bits_be(&self) -> (r: Vec<bool>) {
        let mut bits: Vec<bool> = Vec::with_capacity(8);
        let mut index: u8 = 0;
        while index < 8
            invariant
                index <= 8,
                bits@.len() == index,
                forall|j: int| 0 <= j < index ==> bits@[j] == self.bit(j),
            decreases 8 - index,
        {
            bits.push((*self >> index) & 1 == 1);
            index = index + 1;
        }
        bits
    }

    fn from_bits(bits: Vec<bool>, is_le: bool) -> (r: Self) {
        let padded = pad_bits(bits, 8, is_le);
        let mut integer: u8 = 0;
        let mut index: u8 = 0;
        assert forall|j: int| 0 <= j < 8 implies !integer.bit(j) by {
            let s = j as u8;
            assert((0u8 >> s) & 1 == 0) by (bit_vector);
        }
        while index < 8
            invariant
                index <= 8,
                padded@.len() == 8,
                forall|j: int| 0 <= j < index ==> integer.bit(j) == padded@[j],
                forall|j: int| index <= j < 8 ==> !integer.bit(j),
            decreases 8 - index,
        {
            if padded[index as usize] {
                let ghost prev = integer;
                integer = integer | (1u8 << index);
                assert forall|j: int| 0 <= j < 8 implies integer.bit(j) == (prev.bit(j) || j == index) by {
                    lemma_set_bit_u8(prev, index, j as u8);
                }
            }
            index = index + 1;
        }
        integer
    }
}

impl GetBits for u16 {
    open spec fn width() -> nat {
        16
    }

    open spec fn bit(&self, i: int) -> bool {
        (*self >> (i as u16)) & 1 == 1
    }

    fn get_bits_be(&self) -> (r: Vec<bool>) {
        let mut bits: Vec<bool> = Vec::with_capacity(16);
        let mut index: u16 = 0;
        while index < 16
            invariant
                index <= 16,
                bits@.len() == index,
                forall|j: int| 0 <= j < index ==> bits@[j] == self.bit(j),
            decreases 16 - index,
        {
            bits.push((*self >> index) & 1 == 1);
            index = index + 1;
        }
        bits
    }

    fn from_bits(bits: Vec<bool>, is_le: bool) -> (r: Self) {
        let padded = pad_bits(bits, 16, is_le);
        let mut integer: u16 = 0;
        let mut index: u16 = 0;
        assert forall|j: int| 0 <= j < 16 implies !integer.bit(j) by {
            let s = j as u16;
            assert((0u16 >> s) & 1 == 0) by (bit_vector);
        }
        while index < 16
            invariant
                index <= 16,
                padded@.len() == 16,
                forall|j: int| 0 <= j < index ==> integer.bit(j) == padded@[j],
                forall|j: int| index <= j < 16 ==> !integer.bit(j),
            decreases 16 - index,
        {
            if padded[index as usize] {
                let ghost prev = integer;
                integer = integer | (1u16 << index);
                assert forall|j: int| 0 <= j < 16 implies integer.bit(j) == (prev.bit(j) || j == index) by {
                    lemma_set_bit_u16(prev, index, j as u16);
                }
            }
            index = index + 1;
        }
        integer
    }
}

impl GetBits for u64 {
    open spec fn width() -> nat {
        64
    }

    open spec fn bit(&self, i: int) -> bool {
        (*self >> (i as u64)) & 1 == 1
    }

    fn get_bits_be(&self) -> (r: Vec<bool>) {
        let mut bits: Vec<bool> = Vec::with_capacity(64);
        let mut index: u64 = 0;
        while index < 64
            invariant
                index <= 64,
                bits@.len() == index,
                forall|j: int| 0 <= j < index ==> bits@[j] == self.bit(j),
            decreases 64 - index,
        {
            bits.push((*self >> index) & 1 == 1);
            index = index + 1;
        }
        bits
    }

    fn from_bits(bits: Vec<bool>, is_le: bool) -> (r: Self) {
        let padded = pad_bits(bits, 64, is_le);
        let mut integer: u64 = 0;
        let mut index: u64 = 0;
        assert forall|j: int| 0 <= j < 64 implies !integer.bit(j) by {
            let s = j as u64;
            assert((0u64 >> s) & 1 == 0) by (bit_vector);
        }
        while index < 64
            invariant
                index <= 64,
                padded@.len() == 64,
                forall|j: int| 0 <= j < index ==> integer.bit(j) == padded@[j],
                forall|j: int| index <= j < 64 ==> !integer.bit(j),
            decreases 64 - index,
        {
            if padded[index as usize] {
                let ghost prev = integer;
                integer = integer | (1u64 << index);
                assert forall|j: int| 0 <= j < 64 implies integer.bit(j) == (prev.bit(j) || j == index) by {
                    lemma_set_bit_u64(prev, index, j as u64);
                }
            }
            index = index + 1;
        }
        integer
    }
}


/// If the bits of `d` from position `s` up are all clear, `d >> s` is zero.
proof fn lemma_high_bits_clear_u8(d: u8, s: u8)
    requires
        s < 8,
        forall|i: int| s <= i < 8 ==> !d.bit(i),
    ensures
        d >> s == 0,
    decreases 8 - s,
{
    assert(!d.bit(s as int));
    if s + 1 < 8 {
        lemma_high_bits_clear_u8(d, (s + 1) as u8);
        let t = (s + 1) as u8;
        assert(d >> s == 0) by (bit_vector)
            requires
                d >> t == 0,
                (d >> s) & 1 != 1,
                t == s + 1,
                s < 8u8;
    } else {
        assert(d >> s == 0) by (bit_vector)
            requires
                (d >> s) & 1 != 1,
                s == 7u8;
    }
}

/// Two values with the same bits are equal.
proof fn lemma_eq_from_bits_u8(a: u8, b: u8)
    requires
        forall|i: int| 0 <= i < 8 ==> a.bit(i) == b.bit(i),
    ensures
        a == b,
{
    let d = a ^ b;
    assert forall|i: int| 0 <= i < 8 implies !d.bit(i) by {
        let s = i as u8;
        assert(a.bit(i) == b.bit(i));
        assert((d >> s) & 1 != 1) by (bit_vector)
            requires
                ((a >> s) & 1 == 1) == ((b >> s) & 1 == 1),
                d == a ^ b;
    }
    lemma_high_bits_clear_u8(d, 0);
    assert(a == b) by (bit_vector)
        requires
            (a ^ b) >> 0u8 == 0;
}

/// Reading back the bits of `x`, in either order, gives `x`: `bits_le` is
/// what `get_bits_le` returns and `r_le` what `from_bits(bits_le, true)`
/// returns; `bits_be` and `r_be` likewise for `get_bits_be` and
/// `from_bits(bits_be, false)`.
pub proof fn lemma_bits_round_trip_u8(x: u8, bits_le: Seq<bool>, r_le: u8, bits_be: Seq<bool>, r_be: u8)
    requires
        bits_le.len() == 8,
        forall|i: int| 0 <= i < 8 ==> bits_le[i] == x.bit(8 - 1 - i),
        forall|i: int| 0 <= i < 8 ==> r_le.bit(i) == padded_bits(bits_le, 8, true)[i],
        bits_be.len() == 8,
        forall|i: int| 0 <= i < 8 ==> bits_be[i] == x.bit(i),
        forall|i: int| 0 <= i < 8 ==> r_be.bit(i) == padded_bits(bits_be, 8, false)[i],
    ensures
        r_le == x,
        r_be == x,
{
    assert forall|i: int| 0 <= i < 8 implies r_le.bit(i) == x.bit(i) by {
        assert(padded_bits(bits_le, 8, true) =~= bits_le.reverse());
    }
    lemma_eq_from_bits_u8(r_le, x);
    assert forall|i: int| 0 <= i < 8 implies r_be.bit(i) == x.bit(i) by {
        assert(padded_bits(bits_be, 8, false) =~= bits_be);
    }
    lemma_eq_from_bits_u8(r_be, x);
}

/// If the bits of `d` from position `s` up are all clear, `d >> s` is zero.
proof fn lemma_high_bits_clear_u16(d: u16, s: u16)
    requires
        s < 16,
        forall|i: int| s <= i < 16 ==> !d.bit(i),
    ensures
        d >> s == 0,
    decreases 16 - s,
{
    assert(!d.bit(s as int));
    if s + 1 < 16 {
        lemma_high_bits_clear_u16(d, (s + 1) as u16);
        let t = (s + 1) as u16;
        assert(d >> s == 0) by (bit_vector)
            requires
                d >> t == 0,
                (d >> s) & 1 != 1,
                t == s + 1,
                s < 16u16;
    } else {
        assert(d >> s == 0) by (bit_vector)
            requires
                (d >> s) & 1 != 1,
                s == 15u16;
    }
}

/// Two values with the same bits are equal.
proof fn lemma_eq_from_bits_u16(a: u16, b: u16)
    requires
        forall|i: int| 0 <= i < 16 ==> a.bit(i) == b.bit(i),
    ensures
        a == b,
{
    let d = a ^ b;
    assert forall|i: int| 0 <= i < 16 implies !d.bit(i) by {
        let s = i as u16;
        assert(a.bit(i) == b.bit(i));
        assert((d >> s) & 1 != 1) by (bit_vector)
            requires
                ((a >> s) & 1 == 1) == ((b >> s) & 1 == 1),
                d == a ^ b;
    }
    lemma_high_bits_clear_u16(d, 0);
    assert(a == b) by (bit_vector)
        requires
            (a ^ b) >> 0u16 == 0;
}

/// Reading back the bits of `x`, in either order, gives `x`: `bits_le` is
/// what `get_bits_le` returns and `r_le` what `from_bits(bits_le, true)`
/// returns; `bits_be` and `r_be` likewise for `get_bits_be` and
/// `from_bits(bits_be, false)`.
pub proof fn lemma_bits_round_trip_u16(x: u16, bits_le: Seq<bool>, r_le: u16, bits_be: Seq<bool>, r_be: u16)
    requires
        bits_le.len() == 16,
        forall|i: int| 0 <= i < 16 ==> bits_le[i] == x.bit(16 - 1 - i),
        forall|i: int| 0 <= i < 16 ==> r_le.bit(i) == padded_bits(bits_le, 16, true)[i],
        bits_be.len() == 16,
        forall|i: int| 0 <= i < 16 ==> bits_be[i] == x.bit(i),
        forall|i: int| 0 <= i < 16 ==> r_be.bit(i) == padded_bits(bits_be, 16, false)[i],
    ensures
        r_le == x,
        r_be == x,
{
    assert forall|i: int| 0 <= i < 16 implies r_le.bit(i) == x.bit(i) by {
        assert(padded_bits(bits_le, 16, true) =~= bits_le.reverse());
    }
    lemma_eq_from_bits_u16(r_le, x);
    assert forall|i: int| 0 <= i < 16 implies r_be.bit(i) == x.bit(i) by {
        assert(padded_bits(bits_be, 16, false) =~= bits_be);
    }
    lemma_eq_from_bits_u16(r_be, x);
}

/// If the bits of `d` from position `s` up are all clear, `d >> s` is zero.
proof fn lemma_high_bits_clear_u64(d: u64, s: u64)
    requires
        s < 64,
        forall|i: int| s <= i < 64 ==> !d.bit(i),
    ensures
        d >> s == 0,
    decreases 64 - s,
{
    assert(!d.bit(s as int));
    if s + 1 < 64 {
        lemma_high_bits_clear_u64(d, (s + 1) as u64);
        let t = (s + 1) as u64;
        assert(d >> s == 0) by (bit_vector)
            requires
                d >> t == 0,
                (d >> s) & 1 != 1,
                t == s + 1,
                s < 64u64;
    } else {
        assert(d >> s == 0) by (bit_vector)
            requires
                (d >> s) & 1 != 1,
                s == 63u64;
    }
}

/// Two values with the same bits are equal.
proof fn lemma_eq_from_bits_u64(a: u64, b: u64)
    requires
        forall|i: int| 0 <= i < 64 ==> a.bit(i) == b.bit(i),
    ensures
        a == b,
{
    let d = a ^ b;
    assert forall|i: int| 0 <= i < 64 implies !d.bit(i) by {
        let s = i as u64;
        assert(a.bit(i) == b.bit(i));
        assert((d >> s) & 1 != 1) by (bit_vector)
            requires
                ((a >> s) & 1 == 1) == ((b >> s) & 1 == 1),
                d == a ^ b;
    }
    lemma_high_bits_clear_u64(d, 0);
    assert(a == b) by (bit_vector)
        requires
            (a ^ b) >> 0u64 == 0;
}

/// Reading back the bits of `x`, in either order, gives `x`: `bits_le` is
/// what `get_bits_le` returns and `r_le` what `from_bits(bits_le, true)`
/// returns; `bits_be` and `r_be` likewise for `get_bits_be` and
/// `from_bits(bits_be, false)`.
pub proof fn lemma_bits_round_trip_u64(x: u64, bits_le: Seq<bool>, r_le: u64, bits_be: Seq<bool>, r_be: u64)
    requires
        bits_le.len() == 64,
        forall|i: int| 0 <= i < 64 ==> bits_le[i] == x.bit(64 - 1 - i),
        forall|i: int| 0 <= i < 64 ==> r_le.bit(i) == padded_bits(bits_le, 64, true)[i],
        bits_be.len() == 64,
        forall|i: int| 0 <= i < 64 ==> bits_be[i] == x.bit(i),
        forall|i: int| 0 <= i < 64 ==> r_be.bit(i) == padded_bits(bits_be, 64, false)[i],
    ensures
        r_le == x,
        r_be == x,
{
    assert forall|i: int| 0 <= i < 64 implies r_le.bit(i) == x.bit(i) by {
        assert(padded_bits(bits_le, 64, true) =~= bits_le.reverse());
    }
    lemma_eq_from_bits_u64(r_le, x);
    assert forall|i: int| 0 <= i < 64 implies r_be.bit(i) == x.bit(i) by {
        assert(padded_bits(bits_be, 64, false) =~= bits_be);
    }
    lemma_eq_from_bits_u64(r_be, x);
}

} // verus!
