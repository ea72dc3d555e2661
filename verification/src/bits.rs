//! A packed store of bits: the bits of a byte array, numbered from the least significant bit of
//! the first byte, and groups of up to 64 of them read and written as numbers.

use vstd::prelude::*;

verus! {

/// Bit `i` of the binary representation of `v`.
pub open spec fn nth_bit(v: nat, i: nat) -> bool {
    v / vstd::arithmetic::power2::pow2(i) % 2 == 1
}

/// The number whose bits are `bits`, least significant first.
pub open spec fn bits_value(bits: Seq<bool>) -> nat
    decreases bits.len(),
{
    if bits.len() == 0 {
        0
    } else if bits.last() {
        bits_value(bits.drop_last()) + vstd::arithmetic::power2::pow2((bits.len() - 1) as nat)
    } else {
        bits_value(bits.drop_last())
    }
}

/// The lowest `width` bits of `v`, least significant first.
pub open spec fn low_bits(v: nat, width: nat) -> Seq<bool> {
    Seq::new(width, |i: int| nth_bit(v, i as nat))
}

/// `bits` with the ones from `offset` on replaced by `new`.
pub open spec fn replaced(bits: Seq<bool>, offset: int, new: Seq<bool>) -> Seq<bool> {
    Seq::new(
        bits.len(),
        |i: int|
            if offset <= i < offset + new.len() {
                new[i - offset]
            } else {
                bits[i]
            },
    )
}

/// The greatest number of `width` bits.
pub open spec fn max_value(width: nat) -> nat {
    (vstd::arithmetic::power2::pow2(width) - 1) as nat
}

proof fn lemma_nth_bit_u8(b: u8, i: u8)
    requires
        i < 8,
    ensures
        nth_bit(b as nat, i as nat) == ((b >> i) & 1u8 == 1u8),
{
    vstd::bits::lemma_u8_shr_is_div(b, i);
    let shifted = b >> i;
    assert(shifted & 1u8 == shifted % 2u8) by (bit_vector);
}

proof fn lemma_nth_bit_u64(v: u64, i: u64)
    requires
        i < 64,
    ensures
        nth_bit(v as nat, i as nat) == (v & (1u64 << i) == 1u64 << i),
{
    vstd::bits::lemma_u64_shr_is_div(v, i);
    let shifted = v >> i;
    assert(shifted & 1u64 == shifted % 2u64) by (bit_vector);
    assert((v & (1u64 << i) == 1u64 << i) == ((v >> i) & 1u64 == 1u64)) by (bit_vector)
        requires
            i < 64,
    ;
}

proof fn lemma_value_bound(bits: Seq<bool>)
    ensures
        bits_value(bits) < vstd::arithmetic::power2::pow2(bits.len()),
    decreases bits.len(),
{
    vstd::arithmetic::power2::lemma_pow2_pos(bits.len());
    if bits.len() > 0 {
        lemma_value_bound(bits.drop_last());
        vstd::arithmetic::power2::lemma_pow2_unfold(bits.len());
    }
}

proof fn lemma_low_bits_value(v: nat, width: nat)
    ensures
        bits_value(low_bits(v, width)) == v % vstd::arithmetic::power2::pow2(width),
    decreases width,
{
    if width == 0 {
        vstd::arithmetic::power2::lemma2_to64();
    } else {
        let w = (width - 1) as nat;
        lemma_low_bits_value(v, w);
        assert(low_bits(v, width).drop_last() =~= low_bits(v, w));
        vstd::arithmetic::power2::lemma_pow2_pos(w);
        vstd::arithmetic::power2::lemma_pow2_unfold(width);
        let p = vstd::arithmetic::power2::pow2(w) as int;
        vstd::arithmetic::div_mod::lemma_mod_breakdown(v as int, p, 2);
        assert(p * 2 == 2 * p);
        if nth_bit(v, w) {
            assert(p * 1 == p) by (nonlinear_arith);
        } else {
            assert((v as int / p) % 2 == 0);
            assert(p * 0 == 0) by (nonlinear_arith);
        }
    }
}

proof fn lemma_value_injective(a: Seq<bool>, b: Seq<bool>)
    requires
        a.len() == b.len(),
        bits_value(a) == bits_value(b),
    ensures
        a == b,
    decreases a.len(),
{
    if a.len() > 0 {
        lemma_value_bound(a.drop_last());
        lemma_value_bound(b.drop_last());
        lemma_value_injective(a.drop_last(), b.drop_last());
        assert(a =~= a.drop_last().push(a.last()));
        assert(b =~= b.drop_last().push(b.last()));
    } else {
        assert(a =~= b);
    }
}

/// A byte array seen as bits.
pub struct BitStore {
    data: Vec<u8>,
}

impl View for BitStore {
    type V = Seq<bool>;

    closed spec fn view(&self) -> Seq<bool> {
        Seq::new(
            self.bytes().len() * 8,
            |i: int| nth_bit(self.bytes()[i / 8] as nat, (i % 8) as nat),
        )
    }
}

impl BitStore {
    /// The bytes that hold the bits.
    pub closed spec fn bytes(self) -> Seq<u8> {
        self.data@
    }

    /// Bit `i` of the store is bit `i % 8` of byte `i / 8`, counted from the least significant
    /// one, and every byte holds eight bits.
    pub proof fn lemma_layout(self)
        ensures
            self@.len() == self.bytes().len() * 8,
            forall|i: int|
                0 <= i < self@.len() ==> #[trigger] self@[i] == nth_bit(
                    self.bytes()[i / 8] as nat,
                    (i % 8) as nat,
                ),
    {
    }

    /// The bits can be numbered.
    pub closed spec fn wf(self) -> bool {
        self.data@.len() * 8 <= usize::MAX
    }

    /// The `width` bits from `offset` on can be read and written together.
    pub open spec fn accessible(self, offset: usize, width: u8) -> bool {
        &&& width <= 64
        &&& offset < self@.len()
        &&& offset + width <= self@.len()
    }

    /// A store of `size` bits, none of them set.
    pub fn new(size: usize) -> (r: BitStore)
        requires
            size % 8 == 0,
        ensures
            r.wf(),
            r@ == Seq::new(size as nat, |i: int| false),
            r.bytes().len() == size / 8,
            forall|i: int| 0 <= i < r.bytes().len() ==> #[trigger] r.bytes()[i] == 0,
    {
        let count: usize = size / 8;
        let mut data: Vec<u8> = Vec::with_capacity(count);
        while data.len() < count
            invariant
                data@.len() <= count,
                forall|i: int| 0 <= i < data@.len() ==> data@[i] == 0,
            decreases count - data@.len(),
        {
            data.push(0);
        }
        let r = BitStore { data };
        proof {
            assert forall|i: int| 0 <= i < r@.len() implies !r@[i] by {
                vstd::arithmetic::power2::lemma_pow2_pos((i % 8) as nat);
                vstd::arithmetic::div_mod::lemma_div_of0(
                    vstd::arithmetic::power2::pow2((i % 8) as nat) as int,
                );
            }
            assert(r@ =~= Seq::new(size as nat, |i: int| false));
        }
        r
    }

    /// Whether the `width` bits from `offset` on can be read and written together.
    pub fn check_access(&self, offset: usize, width: u8) -> (r: bool)
        requires
            self.wf(),
        ensures
            r == self.accessible(offset, width),
            r <==> width <= 64 && offset < self.bytes().len() * 8 && offset + width
                <= self.bytes().len() * 8,
    {
        width <= 64 && offset / 8 < self.data.len() && (width as usize) <= self.data.len() * 8
            - offset
    }

    /// The bit at `offset`.
    pub fn get_bit(&self, offset: usize) -> (r: bool)
        requires
            self.wf(),
            self.accessible(offset, 1),
        ensures
            r == self@[offset as int],
            r == ((self.bytes()[offset as int / 8] >> ((offset % 8) as u8)) & 1u8 == 1u8),
    {
        let byte_index: usize = offset / 8;
        let bit_offset: usize = offset % 8;
        let byte: u8 = self.data[byte_index];
        let mask: u8 = 1u8 << bit_offset;
        proof {
            let k = bit_offset as u8;
            lemma_nth_bit_u8(byte, k);
            assert(1u8 << bit_offset == 1u8 << k);
            assert((byte & (1u8 << k) == 1u8 << k) == ((byte >> k) & 1u8 == 1u8)) by (bit_vector)
                requires
                    k < 8,
            ;
        }
        byte & mask == mask
    }

    /// Sets or clears the bit at `offset`.
    pub fn set_bit(&mut self, offset: usize, val: bool)
        requires
            old(self).wf(),
            old(self).accessible(offset, 1),
        ensures
            final(self).wf(),
            final(self)@ == old(self)@.update(offset as int, val),
            final(self).bytes().len() == old(self).bytes().len(),
            final(self)@[offset as int] == val,
            forall|i: int|
                0 <= i < old(self)@.len() && i != offset ==> #[trigger] final(self)@[i]
                    == old(self)@[i],
    {
        let byte_index: usize = offset / 8;
        let bit_offset: usize = offset % 8;
        let byte: u8 = self.data[byte_index];
        let mask: u8 = 1u8 << bit_offset;
        let new: u8 = if val {
            byte | mask
        } else {
            byte & !mask
        };
        self.data.set(byte_index, new);
        proof {
            let k = bit_offset as u8;
            assert(mask == 1u8 << k);
            assert forall|i: int| 0 <= i < self@.len() implies self@[i] == old(self)@.update(
                offset as int,
                val,
            )[i] by {
                if i / 8 == byte_index {
                    let j = (i % 8) as u8;
                    lemma_nth_bit_u8(byte, j);
                    lemma_nth_bit_u8(new, j);
                    assert(((byte | mask) >> j) & 1u8 == if j == k {
                        1u8
                    } else {
                        (byte >> j) & 1u8
                    }) by (bit_vector)
                        requires
                            k < 8,
                            j < 8,
                            mask == 1u8 << k,
                    ;
                    assert(((byte & !mask) >> j) & 1u8 == if j == k {
                        0u8
                    } else {
                        (byte >> j) & 1u8
                    }) by (bit_vector)
                        requires
                            k < 8,
                            j < 8,
                            mask == 1u8 << k,
                    ;
                    assert(i == offset <==> j == k);
                }
            }
            assert(self@ =~= old(self)@.update(offset as int, val));
        }
    }

    /// The number that the `width` bits from `offset` on make up.
    pub fn get(&self, offset: usize, width: u8) -> (r: u64)
        requires
            self.wf(),
            self.accessible(offset, width),
        ensures
            r == bits_value(self@.subrange(offset as int, offset + width)),
            forall|k: int|
                0 <= k < width ==> #[trigger] nth_bit(r as nat, k as nat) == self@[offset + k],
            r < vstd::arithmetic::power2::pow2(width as nat),
    {
        let mut val: u64 = 0;
        let mut i: usize = 0;
        assert(self@.subrange(offset as int, offset as int) =~= Seq::<bool>::empty());
        while i < width as usize
            invariant
                self.wf(),
                self.accessible(offset, width),
                i <= width,
                val == bits_value(self@.subrange(offset as int, offset + i)),
            decreases width - i,
        {
            let ghost seen = self@.subrange(offset as int, offset + i);
            let ghost more = self@.subrange(offset as int, offset + i + 1);
            proof {
                lemma_value_bound(seen);
                assert(more.drop_last() =~= seen);
                vstd::bits::lemma_u64_pow2_no_overflow(i as nat);
                vstd::bits::lemma_u64_shl_is_mul(1u64, i as u64);
            }
            if self.get_bit(i + offset) {
                let mask: u64 = 1u64 << i;
                proof {
                    let k = i as u64;
                    assert(mask == 1u64 << k);
                    assert(val < mask ==> val | mask == val + mask) by (bit_vector)
                        requires
                            k < 64,
                            mask == 1u64 << k,
                    ;
                }
                val = val | mask;
            }
            i = i + 1;
        }
        proof {
            let group = self@.subrange(offset as int, offset + width);
            lemma_value_bound(group);
            assert forall|k: int| 0 <= k < width implies #[trigger] nth_bit(val as nat, k as nat)
                == self@[offset + k] by {
                law_bits_of_value(group, k as nat);
            }
        }
        val
    }

    /// Stores the lowest `width` bits of `val` in the bits from `offset` on.
    pub fn set(&mut self, offset: usize, width: u8, val: u64)
        requires
            old(self).wf(),
            old(self).accessible(offset, width),
        ensures
            final(self).wf(),
            final(self)@ == replaced(
                old(self)@,
                offset as int,
                low_bits(val as nat, width as nat),
            ),
            final(self).bytes().len() == old(self).bytes().len(),
            forall|i: int|
                0 <= i < old(self)@.len() ==> #[trigger] final(self)@[i] == if offset <= i < offset
                    + width {
                    nth_bit(val as nat, (i - offset) as nat)
                } else {
                    old(self)@[i]
                },
    {
        let mut i: usize = 0;
        assert(self@ =~= replaced(old(self)@, offset as int, low_bits(val as nat, 0)));
        while i < width as usize
            invariant
                self.wf(),
                old(self).wf(),
                old(self).accessible(offset, width),
                self@ == replaced(old(self)@, offset as int, low_bits(val as nat, i as nat)),
                self.bytes().len() == old(self).bytes().len(),
                i <= width,
            decreases width - i,
        {
            let ghost before = self@;
            let mask: u64 = 1u64 << i;
            let val_bit_is_set: bool = val & mask == mask;
            proof {
                let k = i as u64;
                assert(mask == 1u64 << k);
                lemma_nth_bit_u64(val, k);
            }
            self.set_bit(i + offset, val_bit_is_set);
            i = i + 1;
            assert(self@ =~= replaced(
                old(self)@,
                offset as int,
                low_bits(val as nat, i as nat),
            ));
        }
    }
}

/// Bit `i` of a byte, counted from the least significant one, is what is left of it when it is
/// shifted right by `i`.
pub proof fn law_bit_of_byte(b: u8, i: u8)
    requires
        i < 8,
    ensures
        nth_bit(b as nat, i as nat) == ((b >> i) & 1u8 == 1u8),
{
    lemma_nth_bit_u8(b, i);
}

/// Bit `i` of a number is that of its binary form: it is set just when the number holds two to the
/// power of `i`.
pub proof fn law_bit_of_number(v: u64, i: u64)
    requires
        i < 64,
    ensures
        nth_bit(v as nat, i as nat) == (v & (1u64 << i) == 1u64 << i),
{
    lemma_nth_bit_u64(v, i);
}

/// Each bit of the number that bits make up is the bit at the same place, the first one the least
/// significant.
pub proof fn law_bits_of_value(bits: Seq<bool>, i: nat)
    requires
        i < bits.len(),
    ensures
        nth_bit(bits_value(bits), i) == bits[i as int],
{
    let v = bits_value(bits);
    lemma_value_bound(bits);
    lemma_low_bits_value(v, bits.len());
    vstd::arithmetic::div_mod::lemma_small_mod(v, vstd::arithmetic::power2::pow2(bits.len()));
    lemma_value_injective(low_bits(v, bits.len()), bits);
    assert(low_bits(v, bits.len())[i as int] == nth_bit(v, i));
}

/// One more bit, at the top, adds two to the power of its place.
pub proof fn law_bit_weighs_its_place(bits: Seq<bool>, bit: bool)
    ensures
        bits_value(bits.push(bit)) == bits_value(bits) + if bit {
            vstd::arithmetic::power2::pow2(bits.len())
        } else {
            0
        },
        bits_value(Seq::empty()) == 0,
{
    assert(bits.push(bit).drop_last() =~= bits);
}

/// The lowest bits of a number are its bits at these places.
pub proof fn law_low_bits(v: nat, width: nat)
    ensures
        low_bits(v, width).len() == width,
        forall|i: int|
            0 <= i < width ==> #[trigger] low_bits(v, width)[i] == (v
                / vstd::arithmetic::power2::pow2(i as nat) % 2 == 1),
{
}

/// Bits that are written stand where they are written, and all others where they stood.
pub proof fn law_replaced(bits: Seq<bool>, offset: int, new: Seq<bool>)
    requires
        0 <= offset,
        offset + new.len() <= bits.len(),
    ensures
        replaced(bits, offset, new).len() == bits.len(),
        replaced(bits, offset, new) == bits.take(offset) + new + bits.skip(offset + new.len()),
{
    assert(replaced(bits, offset, new) =~= bits.take(offset) + new + bits.skip(
        offset + new.len(),
    ));
}

/// The greatest number of some width is one less than the next power of two.
pub proof fn law_max_value(width: nat)
    ensures
        max_value(width) + 1 == vstd::arithmetic::power2::pow2(width),
{
    vstd::arithmetic::power2::lemma_pow2_pos(width);
}

/// A group of bits reads back what was written to it, cut off to the width of the group.
pub proof fn law_get_after_set(bits: Seq<bool>, offset: int, width: nat, val: nat)
    requires
        0 <= offset,
        offset + width <= bits.len(),
    ensures
        bits_value(
            replaced(bits, offset, low_bits(val, width)).subrange(offset, offset + width),
        ) == val % vstd::arithmetic::power2::pow2(width),
        val <= max_value(width) ==> bits_value(
            replaced(bits, offset, low_bits(val, width)).subrange(offset, offset + width),
        ) == val,
{
    assert(replaced(bits, offset, low_bits(val, width)).subrange(offset, offset + width)
        =~= low_bits(val, width));
    lemma_low_bits_value(val, width);
    vstd::arithmetic::power2::lemma_pow2_pos(width);
    if val <= max_value(width) {
        vstd::arithmetic::div_mod::lemma_small_mod(
            val,
            vstd::arithmetic::power2::pow2(width),
        );
    }
}

/// Writing a group of bits leaves every group that shares no bit with it as it was.
pub proof fn law_set_leaves_others(
    bits: Seq<bool>,
    offset: int,
    width: nat,
    val: nat,
    other: int,
    other_width: nat,
)
    requires
        0 <= offset,
        offset + width <= bits.len(),
        0 <= other,
        other + other_width <= bits.len(),
        other + other_width <= offset || offset + width <= other,
    ensures
        bits_value(
            replaced(bits, offset, low_bits(val, width)).subrange(other, other + other_width),
        ) == bits_value(bits.subrange(other, other + other_width)),
{
    assert(replaced(bits, offset, low_bits(val, width)).subrange(other, other + other_width)
        =~= bits.subrange(other, other + other_width));
}

/// Writing back what was read changes nothing.
pub proof fn law_set_what_was_got(bits: Seq<bool>, offset: int, width: nat)
    requires
        0 <= offset,
        offset + width <= bits.len(),
    ensures
        replaced(
            bits,
            offset,
            low_bits(bits_value(bits.subrange(offset, offset + width)), width),
        ) == bits,
{
    let group = bits.subrange(offset, offset + width);
    let v = bits_value(group);
    lemma_value_bound(group);
    lemma_low_bits_value(v, width);
    vstd::arithmetic::div_mod::lemma_small_mod(v, vstd::arithmetic::power2::pow2(width));
    lemma_value_injective(low_bits(v, width), group);
    assert(replaced(bits, offset, low_bits(v, width)) =~= bits);
}

/// Of two numbers written to the same group, the second stays.
pub proof fn law_set_twice(bits: Seq<bool>, offset: int, width: nat, first: nat, second: nat)
    requires
        0 <= offset,
        offset + width <= bits.len(),
    ensures
        replaced(replaced(bits, offset, low_bits(first, width)), offset, low_bits(second, width))
            == replaced(bits, offset, low_bits(second, width)),
{
    assert(replaced(
        replaced(bits, offset, low_bits(first, width)),
        offset,
        low_bits(second, width),
    ) =~= replaced(bits, offset, low_bits(second, width)));
}

/// A number that was read from a group of bits is at most the greatest one of its width.
pub proof fn law_value_at_most_max(bits: Seq<bool>)
    ensures
        bits_value(bits) <= max_value(bits.len()),
{
    lemma_value_bound(bits);
}

/// Bits none of which is set make up zero.
pub proof fn law_clear_is_zero(bits: Seq<bool>)
    requires
        forall|i: int| 0 <= i < bits.len() ==> !bits[i],
    ensures
        bits_value(bits) == 0,
    decreases bits.len(),
{
    if bits.len() > 0 {
        law_clear_is_zero(bits.drop_last());
    }
}

} // verus!
