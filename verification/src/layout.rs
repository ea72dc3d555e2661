//! Bit fields: numbers of given widths, packed one after the other into a store of bits.

use crate::bits::BitStore;
use vstd::prelude::*;

verus! {

/// The smallest of the unsigned types that holds the values of a field.
#[derive(Clone, Copy, Debug, PartialEq, Eq, Structural)]
pub enum FieldType {
    U8,
    U16,
    U32,
    U64,
}

impl FieldType {
    /// How many bits a value of the type has.
    pub open spec fn bits(self) -> nat {
        match self {
            FieldType::U8 => 8,
            FieldType::U16 => 16,
            FieldType::U32 => 32,
            FieldType::U64 => 64,
        }
    }

    /// `val` converted to the type, and back.
    pub fn from_u64(self, val: u64) -> (r: u64)
        ensures
            r == val as nat % vstd::arithmetic::power2::pow2(self.bits()),
            match self {
                FieldType::U8 => r == val % 0x100,
                FieldType::U16 => r == val % 0x1_0000,
                FieldType::U32 => r == val % 0x1_0000_0000,
                FieldType::U64 => r == val,
            },
    {
        proof {
            vstd::arithmetic::power2::lemma2_to64();
            vstd::arithmetic::power2::lemma2_to64_rest();
            assert(val as u8 == val % 0x100) by (bit_vector);
            assert(val as u16 == val % 0x1_0000) by (bit_vector);
            assert(val as u32 == val % 0x1_0000_0000) by (bit_vector);
            match self {
                FieldType::U8 => assert(vstd::arithmetic::power2::pow2(self.bits()) == 0x100),
                FieldType::U16 => assert(vstd::arithmetic::power2::pow2(self.bits()) == 0x1_0000),
                FieldType::U32 => assert(vstd::arithmetic::power2::pow2(self.bits())
                    == 0x1_0000_0000),
                FieldType::U64 => vstd::arithmetic::div_mod::lemma_small_mod(
                    val as nat,
                    vstd::arithmetic::power2::pow2(64),
                ),
            }
        }
        match self {
            FieldType::U8 => (val as u8) as u64,
            FieldType::U16 => (val as u16) as u64,
            FieldType::U32 => (val as u32) as u64,
            FieldType::U64 => val,
        }
    }
}

/// The type in which the values of a field of `width` bits are handed over.
pub open spec fn field_type(width: u8) -> FieldType {
    if width <= 8 {
        FieldType::U8
    } else if width <= 16 {
        FieldType::U16
    } else if width <= 32 {
        FieldType::U32
    } else {
        FieldType::U64
    }
}

/// The type in which the values of a field of `width` bits are handed over.
pub fn default_field_type(width: u8) -> (r: FieldType)
    ensures
        r == field_type(width),
        r is U8 <==> width <= 8,
        r is U16 <==> 8 < width <= 16,
        r is U32 <==> 16 < width <= 32,
        r is U64 <==> 32 < width,
{
    if width <= 8 {
        FieldType::U8
    } else if width <= 16 {
        FieldType::U16
    } else if width <= 32 {
        FieldType::U32
    } else {
        FieldType::U64
    }
}

/// The greatest value of a field of `width` bits.
pub fn max(width: u8) -> (r: u64)
    requires
        width <= 64,
    ensures
        r == crate::bits::max_value(width as nat),
        r + 1 == vstd::arithmetic::power2::pow2(width as nat),
{
    proof {
        vstd::arithmetic::power2::lemma2_to64();
        vstd::arithmetic::power2::lemma2_to64_rest();
    }
    if width < 64 {
        proof {
            vstd::bits::lemma_u64_pow2_no_overflow(width as nat);
            vstd::bits::lemma_u64_shl_is_mul(1u64, width as u64);
            vstd::arithmetic::power2::lemma_pow2_pos(width as nat);
        }
        (1u64 << width) - 1
    } else {
        u64::MAX
    }
}

/// The sum of the widths.
pub open spec fn width_sum(widths: Seq<u8>) -> nat
    decreases widths.len(),
{
    if widths.len() == 0 {
        0
    } else {
        width_sum(widths.drop_last()) + widths.last() as nat
    }
}

/// The first bit of field `i`: the fields before it take up the ones before.
pub open spec fn field_offset(widths: Seq<u8>, i: int) -> nat {
    width_sum(widths.take(i))
}

/// All of the `width` bits from bit `start` on lie in the same 64-bit word.
#[verifier::opaque]
pub open spec fn within_word(start: nat, width: nat) -> bool {
    width > 0 ==> start / 64 == (start + width - 1) as nat / 64
}

/// No field is wider than a 64-bit word.
pub open spec fn widths_ok(widths: Seq<u8>) -> bool {
    forall|i: int| 0 <= i < widths.len() ==> #[trigger] widths[i] <= 64
}

proof fn lemma_offset_step(widths: Seq<u8>, i: int)
    requires
        0 <= i < widths.len(),
    ensures
        field_offset(widths, i + 1) == field_offset(widths, i) + widths[i],
        field_offset(widths, 0) == 0,
{
    assert(widths.take(i + 1).drop_last() =~= widths.take(i));
    assert(widths.take(i + 1).last() == widths[i]);
    assert(widths.take(0) =~= Seq::<u8>::empty());
}

proof fn lemma_offset_monotonic(widths: Seq<u8>, i: int, j: int)
    requires
        0 <= i <= j <= widths.len(),
    ensures
        field_offset(widths, i) <= field_offset(widths, j),
    decreases j - i,
{
    if i < j {
        lemma_offset_monotonic(widths, i, j - 1);
        lemma_offset_step(widths, j - 1);
    }
}

proof fn lemma_offset_end(widths: Seq<u8>)
    ensures
        field_offset(widths, widths.len() as int) == width_sum(widths),
{
    assert(widths.take(widths.len() as int) =~= widths);
}

/// The test on one field that it stays in one 64-bit word.
#[verifier::opaque]
spec fn boundary_kept(start: int, width: int) -> bool {
    if start % 64 == 0 {
        width <= 64
    } else {
        (start + width) % 64 != 0 ==> start / 64 == (start + width) / 64
    }
}

proof fn lemma_boundary(start: nat, width: nat)
    requires
        width <= 64,
    ensures
        within_word(start, width) == boundary_kept(start as int, width as int),
{
    reveal(within_word);
    reveal(boundary_kept);
    let q = start / 64;
    let r = start % 64;
    assert(start == 64 * q + r);
    if r + width < 64 {
        assert((start + width) / 64 == q);
    } else if r + width == 64 {
        assert((start + width) % 64 == 0);
    } else if r + width < 128 {
        assert((start + width) / 64 == q + 1);
        assert((start + width) % 64 != 0);
    }
}

/// How many bits fields of the given widths take up before field `count`.
pub fn offset_of(widths: &[u8], count: usize) -> (r: usize)
    requires
        count <= widths@.len(),
        width_sum(widths@) <= usize::MAX,
    ensures
        r == field_offset(widths@, count as int),
        r == widths@.take(count as int).fold_left(0int, |sum: int, width: u8| sum + width),
{
    proof {
        law_sum_of_widths(widths@.take(count as int));
    }
    let mut sum: usize = 0;
    let mut i: usize = 0;
    proof {
        assert(widths@.take(0) =~= Seq::<u8>::empty());
        lemma_offset_end(widths@);
    }
    while i < count
        invariant
            i <= count <= widths@.len(),
            field_offset(widths@, widths@.len() as int) <= usize::MAX,
            sum == field_offset(widths@, i as int),
        decreases count - i,
    {
        proof {
            lemma_offset_step(widths@, i as int);
            lemma_offset_monotonic(widths@, i + 1, widths@.len() as int);
        }
        sum = sum + widths[i] as usize;
        i = i + 1;
    }
    sum
}

/// How many bits fields of the given widths take up together.
pub fn total_size(widths: &[u8]) -> (r: usize)
    requires
        width_sum(widths@) <= usize::MAX,
    ensures
        r == width_sum(widths@),
        r == widths@.fold_left(0int, |sum: int, width: u8| sum + width),
{
    proof {
        lemma_offset_end(widths@);
        law_sum_of_widths(widths@);
    }
    offset_of(widths, widths.len())
}

/// Whether a field after `sum` bits stays in one 64-bit word.
fn keeps_boundary(sum: usize, s: usize) -> (r: bool)
    requires
        sum + s <= usize::MAX,
    ensures
        r == boundary_kept(sum as int, s as int),
{
    proof {
        reveal(boundary_kept);
    }
    if sum % 64 == 0 {
        s <= 64
    } else {
        (sum + s) % 64 == 0 || sum / 64 == (sum + s) / 64
    }
}

/// Whether each of the fields lies in one 64-bit word.
pub fn bits_boundary(widths: &[u8]) -> (r: bool)
    requires
        widths_ok(widths@),
        width_sum(widths@) <= usize::MAX,
    ensures
        r == (forall|i: int|
            0 <= i < widths@.len() ==> within_word(
                field_offset(widths@, i),
                #[trigger] widths@[i] as nat,
            )),
{
    let mut sum: usize = 0;
    let mut i: usize = 0;
    proof {
        assert(widths@.take(0) =~= Seq::<u8>::empty());
        lemma_offset_end(widths@);
    }
    while i < widths.len()
        invariant
            i <= widths@.len(),
            widths_ok(widths@),
            field_offset(widths@, widths@.len() as int) <= usize::MAX,
            sum == field_offset(widths@, i as int),
            forall|j: int|
                0 <= j < i ==> within_word(
                    field_offset(widths@, j),
                    #[trigger] widths@[j] as nat,
                ),
        decreases widths@.len() - i,
    {
        let s: usize = widths[i] as usize;
        proof {
            lemma_offset_step(widths@, i as int);
            lemma_offset_monotonic(widths@, i + 1, widths@.len() as int);
            lemma_boundary(sum as nat, s as nat);
            assert(s == widths@[i as int]);
        }
        if !keeps_boundary(sum, s) {
            assert(!within_word(field_offset(widths@, i as int), widths@[i as int] as nat));
            return false;
        }
        sum = sum + s;
        i = i + 1;
    }
    true
}

/// Numbers of given widths, packed one after the other.
pub struct BitField {
    widths: Vec<u8>,
    store: BitStore,
}

impl View for BitField {
    type V = Seq<nat>;

    /// The values of the fields.
    closed spec fn view(&self) -> Seq<nat> {
        Seq::new(self.widths@.len(), |i: int| self.field(i))
    }
}

impl BitField {
    spec fn field(self, i: int) -> nat {
        crate::bits::bits_value(
            self.store@.subrange(
                field_offset(self.widths@, i) as int,
                field_offset(self.widths@, i + 1) as int,
            ),
        )
    }

    /// There is just one bit for each bit of each field, and no field is wider than 64 bits.
    pub closed spec fn wf(self) -> bool {
        &&& widths_ok(self.widths@)
        &&& self.store.wf()
        &&& self.store@.len() == width_sum(self.widths@)
        &&& width_sum(self.widths@) <= usize::MAX
    }

    /// The widths of the fields.
    pub closed spec fn widths(self) -> Seq<u8> {
        self.widths@
    }

    /// The bits of the fields, one field after the other.
    pub closed spec fn bits(self) -> Seq<bool> {
        self.store@
    }

    /// The bytes that hold the bits.
    pub closed spec fn bytes(self) -> Seq<u8> {
        self.store.bytes()
    }

    /// What [`BitField::wf`] says of the fields, and where their bits stand in the bytes.
    pub proof fn lemma_wf(self)
        requires
            self.wf(),
        ensures
            self.bits().len() == self.bytes().len() * 8,
            forall|i: int|
                0 <= i < self.bits().len() ==> #[trigger] self.bits()[i] == crate::bits::nth_bit(
                    self.bytes()[i / 8] as nat,
                    (i % 8) as nat,
                ),
            widths_ok(self.widths()),
            self.bits().len() == width_sum(self.widths()),
            self@.len() == self.widths().len(),
            forall|i: int|
                0 <= i < self.widths().len() ==> #[trigger] self@[i] == crate::bits::bits_value(
                    self.bits().subrange(
                        field_offset(self.widths(), i) as int,
                        field_offset(self.widths(), i + 1) as int,
                    ),
                ),
    {
        self.store.lemma_layout();
    }

    /// Fields of the given widths, all of them zero. There are none for widths that do not make
    /// up whole bytes.
    pub fn new(widths: Vec<u8>) -> (r: Option<BitField>)
        requires
            widths_ok(widths@),
            width_sum(widths@) <= usize::MAX,
        ensures
            r is Some <==> width_sum(widths@) % 8 == 0,
            r matches Some(fields) ==> fields.wf() && fields.widths() == widths@ && fields@
                == Seq::new(widths@.len(), |i: int| 0nat) && fields.bits() == Seq::new(
                width_sum(widths@),
                |i: int| false,
            ),
    {
        let size: usize = total_size(widths.as_slice());
        if size % 8 != 0 {
            return None;
        }
        let r = BitField { widths, store: BitStore::new(size) };
        proof {
            assert forall|i: int| 0 <= i < r.widths@.len() implies #[trigger] r.field(i) == 0 by {
                lemma_offset_monotonic(r.widths@, i, i + 1);
                lemma_offset_monotonic(r.widths@, i + 1, r.widths@.len() as int);
                lemma_offset_end(r.widths@);
                crate::bits::law_clear_is_zero(
                    r.store@.subrange(
                        field_offset(r.widths@, i) as int,
                        field_offset(r.widths@, i + 1) as int,
                    ),
                );
            }
            assert(r@ =~= Seq::new(r.widths@.len(), |i: int| 0nat));
        }
        Some(r)
    }

    /// The value of field `i`.
    pub fn get_field(&self, i: usize) -> (r: u64)
        requires
            self.wf(),
            i < self.widths().len(),
            field_offset(self.widths(), i as int) < width_sum(self.widths()),
        ensures
            r == self@[i as int],
    {
        let width: u8 = self.widths[i];
        proof {
            lemma_offset_step(self.widths@, i as int);
            lemma_offset_monotonic(self.widths@, i + 1, self.widths@.len() as int);
            lemma_offset_end(self.widths@);
        }
        let offset: usize = offset_of(self.widths.as_slice(), i);
        let val: u64 = self.store.get(offset, width);
        proof {
            let group = self.store@.subrange(offset as int, offset + width);
            crate::bits::law_value_at_most_max(group);
            law_field_type_holds_values(width, val as nat);
        }
        default_field_type(width).from_u64(val)
    }

    /// Gives field `i` the value `val`.
    pub fn set_field(&mut self, i: usize, val: u64)
        requires
            old(self).wf(),
            i < old(self).widths().len(),
            field_offset(old(self).widths(), i as int) < width_sum(old(self).widths()),
            val <= crate::bits::max_value(old(self).widths()[i as int] as nat),
        ensures
            final(self).wf(),
            final(self).widths() == old(self).widths(),
            final(self)@ == old(self)@.update(i as int, val as nat),
            final(self).bits() == crate::bits::replaced(
                old(self).bits(),
                field_offset(old(self).widths(), i as int) as int,
                crate::bits::low_bits(val as nat, old(self).widths()[i as int] as nat),
            ),
    {
        let width: u8 = self.widths[i];
        proof {
            lemma_offset_step(self.widths@, i as int);
            lemma_offset_monotonic(self.widths@, i + 1, self.widths@.len() as int);
            lemma_offset_end(self.widths@);
        }
        let offset: usize = offset_of(self.widths.as_slice(), i);
        self.store.set(offset, width, val);
        proof {
            let before = old(self).store@;
            crate::bits::law_get_after_set(before, offset as int, width as nat, val as nat);
            assert forall|j: int| 0 <= j < self.widths@.len() implies self@[j] == old(self)@.update(
                i as int,
                val as nat,
            )[j] by {
                lemma_offset_step(self.widths@, j);
                lemma_offset_monotonic(self.widths@, j + 1, self.widths@.len() as int);
                if j < i {
                    lemma_offset_monotonic(self.widths@, j + 1, i as int);
                } else if j > i {
                    lemma_offset_monotonic(self.widths@, i + 1, j);
                }
                if j != i {
                    crate::bits::law_set_leaves_others(
                        before,
                        offset as int,
                        width as nat,
                        val as nat,
                        field_offset(self.widths@, j) as int,
                        self.widths@[j] as nat,
                    );
                }
            }
            assert(self@ =~= old(self)@.update(i as int, val as nat));
        }
    }
}

/// The sum of widths is what adding them up one after the other gives.
pub proof fn law_sum_of_widths(widths: Seq<u8>)
    ensures
        width_sum(widths) == widths.fold_left(0int, |sum: int, width: u8| sum + width),
    decreases widths.len(),
{
    if widths.len() > 0 {
        law_sum_of_widths(widths.drop_last());
    }
}

/// The first field starts at the first bit, and each of the others right behind the one before it.
pub proof fn law_fields_follow_one_another(widths: Seq<u8>, i: int)
    requires
        0 <= i < widths.len(),
    ensures
        field_offset(widths, 0) == 0,
        field_offset(widths, i + 1) == field_offset(widths, i) + widths[i],
        field_offset(widths, widths.len() as int) == width_sum(widths),
{
    lemma_offset_step(widths, i);
    lemma_offset_end(widths);
}

/// A field lies within a word just when each of its bits is in the word of the first one.
pub proof fn law_within_word(start: nat, width: nat)
    requires
        width <= 64,
    ensures
        within_word(start, width) <==> forall|bit: int|
            start <= bit < start + width ==> #[trigger] (bit / 64) == start as int / 64,
{
    reveal(within_word);
    if width > 0 {
        let last = start + width - 1;
        if within_word(start, width) {
            assert forall|bit: int| start <= bit < start + width implies #[trigger] (bit / 64)
                == start as int / 64 by {}
        } else {
            assert((last as int) / 64 != start as int / 64);
        }
    }
}

/// No field is wider than 64 bits, and one that is not can be put behind the others.
pub proof fn law_widths(widths: Seq<u8>, i: int)
    requires
        widths_ok(widths),
        0 <= i < widths.len(),
    ensures
        widths[i] <= 64,
        widths_ok(Seq::empty()),
        forall|width: u8| width <= 64 ==> widths_ok(#[trigger] widths.push(width)),
{
    assert forall|width: u8| width <= 64 implies widths_ok(#[trigger] widths.push(width)) by {
        let more = widths.push(width);
        assert forall|k: int| 0 <= k < more.len() implies #[trigger] more[k] <= 64 by {
            if k < widths.len() {
                assert(widths[k] <= 64);
            }
        }
    }
}

/// The types for values have as many bits as their names say.
pub proof fn law_bits_of_types()
    ensures
        FieldType::U8.bits() == 8,
        FieldType::U16.bits() == 16,
        FieldType::U32.bits() == 32,
        FieldType::U64.bits() == 64,
{
}

/// The type for a width holds every value of that width, and no smaller one would.
pub proof fn law_field_type_holds_values(width: u8, val: nat)
    requires
        width <= 64,
        val <= crate::bits::max_value(width as nat),
    ensures
        val % vstd::arithmetic::power2::pow2(field_type(width).bits()) == val,
        width <= field_type(width).bits(),
        field_type(width) != FieldType::U8 ==> field_type(width).bits() < 2 * width,
{
    let bits = field_type(width).bits();
    vstd::arithmetic::power2::lemma_pow2_pos(width as nat);
    if width < bits {
        vstd::arithmetic::power2::lemma_pow2_strictly_increases(width as nat, bits);
    }
    vstd::arithmetic::div_mod::lemma_small_mod(val, vstd::arithmetic::power2::pow2(bits));
}

/// Distinct fields share no bit.
pub proof fn law_fields_disjoint(widths: Seq<u8>, i: int, j: int)
    requires
        0 <= i < j < widths.len(),
    ensures
        field_offset(widths, i) + widths[i] <= field_offset(widths, j),
        field_offset(widths, j) + widths[j] <= width_sum(widths),
{
    lemma_offset_step(widths, i);
    lemma_offset_step(widths, j);
    lemma_offset_monotonic(widths, i + 1, j);
    lemma_offset_monotonic(widths, j + 1, widths.len() as int);
    lemma_offset_end(widths);
}

} // verus!
