//! What the code for a definition says: where the bits of each field are, and which field each of its
//! parts is about.

use crate::definition::{FieldView, InputDataView, MacroInputView};
use crate::tokens::{Delim, PieceView, Tok};
use vstd::prelude::*;

verus! {

/// What the pieces of a width come to, where `width_of` gives the width that a type names.
pub open spec fn width_value(code: Seq<PieceView>, width_of: spec_fn(Seq<Tok>) -> nat) -> Option<nat> {
    if code.len() == 3 && code[0] == PieceView::Text("<"@) && code[2] == PieceView::Text(
        "as :: bit_field :: BitFieldSpecifier > :: FIELD_WIDTH as usize"@,
    ) {
        match code[1] {
            PieceView::Tokens(ty) => Some(width_of(ty)),
            _ => None,
        }
    } else if code.len() == 1 && code[0] == PieceView::Text(
        "< :: bit_field :: BitField0 as :: bit_field :: BitFieldSpecifier > :: FIELD_WIDTH as usize"@,
    ) {
        Some(0)
    } else {
        None
    }
}

/// What the pieces of a sum of widths come to, where `width_of` gives the width that a type names.
pub open spec fn sum_value(code: Seq<PieceView>, width_of: spec_fn(Seq<Tok>) -> nat) -> Option<nat>
    decreases code.len(),
{
    let n = code.len() as int;
    if n > 4 && code[n - 4] == PieceView::Text("+"@) {
        match (sum_value(code.take(n - 4), width_of), width_value(code.skip(n - 3), width_of)) {
            (Some(sum), Some(width)) => Some(sum + width),
            _ => None,
        }
    } else {
        width_value(code, width_of)
    }
}

/// The widths of fields, added up one after the other.
pub open spec fn sum_of_widths(fields: Seq<FieldView>, width_of: spec_fn(Seq<Tok>) -> nat) -> nat {
    fields.fold_left(0nat, |sum: nat, field: FieldView| sum + width_of(field.ty))
}

proof fn lemma_sum_step(fields: Seq<FieldView>, i: int, width_of: spec_fn(Seq<Tok>) -> nat)
    requires
        0 <= i < fields.len(),
    ensures
        sum_of_widths(fields.take(i + 1), width_of) == sum_of_widths(fields.take(i), width_of)
            + width_of(fields[i].ty),
{
    assert(fields.take(i + 1).drop_last() =~= fields.take(i));
}

proof fn lemma_sums_grow(
    fields: Seq<FieldView>,
    i: int,
    j: int,
    width_of: spec_fn(Seq<Tok>) -> nat,
)
    requires
        0 <= i <= j <= fields.len(),
    ensures
        sum_of_widths(fields.take(i), width_of) <= sum_of_widths(fields.take(j), width_of),
    decreases j - i,
{
    if i < j {
        lemma_sums_grow(fields, i, j - 1, width_of);
        lemma_sum_step(fields, j - 1, width_of);
    }
}

proof fn lemma_sum_value_step(
    sum: Seq<PieceView>,
    field: FieldView,
    width_of: spec_fn(Seq<Tok>) -> nat,
)
    requires
        sum_value(sum, width_of) is Some,
    ensures
        sum_value(
            sum + seq![PieceView::Text("+"@)] + crate::expansion::width_code(field),
            width_of,
        ) == Some(sum_value(sum, width_of)->0 + width_of(field.ty)),
{
    let code = sum + seq![PieceView::Text("+"@)] + crate::expansion::width_code(field);
    let n = code.len() as int;
    assert(code.take(n - 4) =~= sum);
    assert(code.skip(n - 3) =~= crate::expansion::width_code(field));
}

/// The offset after some fields comes to the sum of the widths of all of them, whatever widths the
/// types name and however many fields there are.
pub proof fn law_offset_is_sum_of_widths(
    fields: Seq<FieldView>,
    width_of: spec_fn(Seq<Tok>) -> nat,
)
    ensures
        sum_value(crate::expansion::offset_code(fields), width_of) == Some(
            fields.fold_left(0nat, |sum: nat, field: FieldView| sum + width_of(field.ty)),
        ),
    decreases fields.len(),
{
    if fields.len() > 0 {
        law_offset_is_sum_of_widths(fields.drop_last(), width_of);
        lemma_sum_value_step(
            crate::expansion::offset_code(fields.drop_last()),
            fields.last(),
            width_of,
        );
    }
}

/// The number of all bits, as the struct and its tests write it, comes to the sum of the widths of
/// all fields.
pub proof fn law_size_is_sum_of_widths(fields: Seq<FieldView>, width_of: spec_fn(Seq<Tok>) -> nat)
    requires
        fields.len() > 0,
    ensures
        sum_value(crate::expansion::width_list(fields, "+"@), width_of) == Some(
            fields.fold_left(0nat, |sum: nat, field: FieldView| sum + width_of(field.ty)),
        ),
    decreases fields.len(),
{
    reveal_with_fuel(Seq::fold_left, 2);
    if fields.len() == 1 {
        assert(fields.drop_last() =~= Seq::<FieldView>::empty());
    } else {
        law_size_is_sum_of_widths(fields.drop_last(), width_of);
        lemma_sum_value_step(
            crate::expansion::width_list(fields.drop_last(), "+"@),
            fields.last(),
            width_of,
        );
    }
}

/// The offset after some fields names the type of each of them, in their order.
pub proof fn law_offset_names_each_type(fields: Seq<FieldView>, i: int)
    requires
        0 <= i < fields.len(),
    ensures
        ({
            let code = crate::expansion::offset_code(fields);
            &&& code.len() == 4 * fields.len() + 1
            &&& code[0] == PieceView::Text(
                "< :: bit_field :: BitField0 as :: bit_field :: BitFieldSpecifier > :: FIELD_WIDTH as usize"@,
            )
            &&& code[4 * i + 1] == PieceView::Text("+"@)
            &&& code[4 * i + 2] == PieceView::Text("<"@)
            &&& code[4 * i + 3] == PieceView::Tokens(fields[i].ty)
            &&& code[4 * i + 4] == PieceView::Text(
                "as :: bit_field :: BitFieldSpecifier > :: FIELD_WIDTH as usize"@,
            )
        }),
    decreases fields.len(),
{
    let before = fields.drop_last();
    if fields.len() == 1 {
        assert(crate::expansion::offset_code(before).len() == 1);
    } else if i < before.len() {
        law_offset_names_each_type(before, i);
    } else {
        law_offset_names_each_type(before, 0);
    }
}

/// A list of widths names the type of each field, in their order, with the separator between any
/// two.
pub proof fn law_width_list_names_each_type(fields: Seq<FieldView>, separator: Seq<char>, i: int)
    requires
        0 <= i < fields.len(),
    ensures
        ({
            let code = crate::expansion::width_list(fields, separator);
            &&& code.len() == 4 * fields.len() - 1
            &&& code[4 * i] == PieceView::Text("<"@)
            &&& code[4 * i + 1] == PieceView::Tokens(fields[i].ty)
            &&& code[4 * i + 2] == PieceView::Text(
                "as :: bit_field :: BitFieldSpecifier > :: FIELD_WIDTH as usize"@,
            )
            &&& i + 1 < fields.len() ==> code[4 * i + 3] == PieceView::Text(separator)
        }),
    decreases fields.len(),
{
    let before = fields.drop_last();
    if fields.len() > 1 {
        if i < before.len() {
            law_width_list_names_each_type(before, separator, i);
        } else {
            law_width_list_names_each_type(before, separator, 0);
        }
    }
}

/// The list of the widths of no fields is empty.
pub proof fn law_no_widths(separator: Seq<char>)
    ensures
        crate::expansion::width_list(Seq::empty(), separator).len() == 0,
        crate::expansion::offset_code(Seq::empty()) == seq![
            PieceView::Text(
                "< :: bit_field :: BitField0 as :: bit_field :: BitFieldSpecifier > :: FIELD_WIDTH as usize"@,
            ),
        ],
{
}

/// The pieces of a getter that give the offset: those between its head and the read of the bits.
pub open spec fn getter_offset(getter: Seq<PieceView>) -> Seq<PieceView> {
    getter.subrange(7, getter.len() - 11)
}

/// The pieces of a setter that give the offset: those between its check and the write of the bits.
pub open spec fn setter_offset(setter: Seq<PieceView>) -> Seq<PieceView> {
    setter.subrange(18, setter.len() - 8)
}

/// A getter has the name of its field, and gives back as many bits at its offset as its type is
/// wide, as a value of that type.
pub proof fn law_getter_reads_its_field(before: Seq<FieldView>, field: FieldView)
    ensures
        ({
            let code = crate::expansion::getter_code(before, field);
            let n = code.len() as int;
            &&& n >= 18
            &&& code.take(7) == seq![
                PieceView::Text("pub fn"@),
                PieceView::Ident("get_"@ + field.name),
                PieceView::Text("( & self ) -> <"@),
                PieceView::Tokens(field.ty),
                PieceView::Text("as :: bit_field :: BitFieldSpecifier > :: DefaultFieldType"@),
                PieceView::Open(Delim::Brace),
                PieceView::Text("let offset ="@),
            ]
            &&& code.skip(n - 11) == seq![
                PieceView::Text("; let val = self . get"@),
                PieceView::Open(Delim::Parenthesis),
                PieceView::Text("offset , <"@),
                PieceView::Tokens(field.ty),
                PieceView::Text("as :: bit_field :: BitFieldSpecifier > :: FIELD_WIDTH"@),
                PieceView::Close(Delim::Parenthesis),
                PieceView::Text("; <"@),
                PieceView::Tokens(field.ty),
                PieceView::Text("as :: bit_field :: BitFieldSpecifier > :: from_u64"@),
                PieceView::Text("( val )"@),
                PieceView::Close(Delim::Brace),
            ]
        }),
        forall|width_of: spec_fn(Seq<Tok>) -> nat| #[trigger]
            sum_value(
                getter_offset(crate::expansion::getter_code(before, field)),
                width_of,
            ) == Some(before.fold_left(0nat, |sum: nat, f: FieldView| sum + width_of(f.ty))),
{
    let code = crate::expansion::getter_code(before, field);
    let n = code.len() as int;
    assert(getter_offset(code) =~= crate::expansion::offset_code(before));
    assert forall|width_of: spec_fn(Seq<Tok>) -> nat| #[trigger]
        sum_value(getter_offset(code), width_of) == Some(
            before.fold_left(0nat, |sum: nat, f: FieldView| sum + width_of(f.ty)),
        ) by {
        law_offset_is_sum_of_widths(before, width_of);
    }
}

/// A setter has the name of its field, takes a value of its type that is not greater than the
/// greatest, and writes it to as many bits at its offset as its type is wide.
pub proof fn law_setter_writes_its_field(before: Seq<FieldView>, field: FieldView)
    ensures
        ({
            let code = crate::expansion::setter_code(before, field);
            let n = code.len() as int;
            &&& n >= 26
            &&& code.take(18) == seq![
                PieceView::Text("pub fn"@),
                PieceView::Ident("set_"@ + field.name),
                PieceView::Open(Delim::Parenthesis),
                PieceView::Text("& mut self , val : <"@),
                PieceView::Tokens(field.ty),
                PieceView::Text("as :: bit_field :: BitFieldSpecifier > :: DefaultFieldType"@),
                PieceView::Close(Delim::Parenthesis),
                PieceView::Open(Delim::Brace),
                PieceView::Text("let val = <"@),
                PieceView::Tokens(field.ty),
                PieceView::Text("as :: bit_field :: BitFieldSpecifier > :: into_u64"@),
                PieceView::Text("( val ) ; debug_assert !"@),
                PieceView::Open(Delim::Parenthesis),
                PieceView::Text("val <= :: bit_field :: max :: <"@),
                PieceView::Tokens(field.ty),
                PieceView::Text("> ( )"@),
                PieceView::Close(Delim::Parenthesis),
                PieceView::Text("; let offset ="@),
            ]
            &&& code.skip(n - 8) == seq![
                PieceView::Text("; self . set"@),
                PieceView::Open(Delim::Parenthesis),
                PieceView::Text("offset , <"@),
                PieceView::Tokens(field.ty),
                PieceView::Text("as :: bit_field :: BitFieldSpecifier > :: FIELD_WIDTH"@),
                PieceView::Text(", val"@),
                PieceView::Close(Delim::Parenthesis),
                PieceView::Close(Delim::Brace),
            ]
        }),
        forall|width_of: spec_fn(Seq<Tok>) -> nat| #[trigger]
            sum_value(
                setter_offset(crate::expansion::setter_code(before, field)),
                width_of,
            ) == Some(before.fold_left(0nat, |sum: nat, f: FieldView| sum + width_of(f.ty))),
{
    let code = crate::expansion::setter_code(before, field);
    let n = code.len() as int;
    assert(setter_offset(code) =~= crate::expansion::offset_code(before));
    assert forall|width_of: spec_fn(Seq<Tok>) -> nat| #[trigger]
        sum_value(setter_offset(code), width_of) == Some(
            before.fold_left(0nat, |sum: nat, f: FieldView| sum + width_of(f.ty)),
        ) by {
        law_offset_is_sum_of_widths(before, width_of);
    }
}

/// The accessors of two fields never share a bit: where the widths are those that `width_of` gives,
/// the bits of the former end before those of the latter begin, and those of the last end where the
/// struct does.
pub proof fn law_accessors_share_no_bit(
    fields: Seq<FieldView>,
    i: int,
    j: int,
    width_of: spec_fn(Seq<Tok>) -> nat,
)
    requires
        0 <= i < j < fields.len(),
    ensures
        ({
            let first = crate::expansion::getter_code(fields.take(i), fields[i]);
            let second = crate::expansion::getter_code(fields.take(j), fields[j]);
            &&& sum_value(getter_offset(first), width_of) matches Some(a)
            &&& sum_value(getter_offset(second), width_of) matches Some(b)
            &&& a + width_of(fields[i].ty) <= b
            &&& sum_value(crate::expansion::width_list(fields, "+"@), width_of) matches Some(size)
            &&& b + width_of(fields[j].ty) <= size
        }),
        ({
            let first = crate::expansion::setter_code(fields.take(i), fields[i]);
            let second = crate::expansion::setter_code(fields.take(j), fields[j]);
            &&& sum_value(setter_offset(first), width_of) matches Some(a)
            &&& sum_value(setter_offset(second), width_of) matches Some(b)
            &&& a + width_of(fields[i].ty) <= b
            &&& sum_value(crate::expansion::width_list(fields, "+"@), width_of) matches Some(size)
            &&& b + width_of(fields[j].ty) <= size
        }),
{
    law_getter_reads_its_field(fields.take(i), fields[i]);
    law_getter_reads_its_field(fields.take(j), fields[j]);
    law_setter_writes_its_field(fields.take(i), fields[i]);
    law_setter_writes_its_field(fields.take(j), fields[j]);
    law_size_is_sum_of_widths(fields, width_of);
    lemma_sum_step(fields, i, width_of);
    lemma_sum_step(fields, j, width_of);
    lemma_sums_grow(fields, i + 1, j, width_of);
    lemma_sums_grow(fields, j + 1, fields.len() as int, width_of);
    assert(fields.take(fields.len() as int) =~= fields);
}

/// Codes in a row are those of the first part, followed by those of the second, and a single one is
/// itself.
pub proof fn law_codes_in_a_row(a: Seq<Seq<PieceView>>, b: Seq<Seq<PieceView>>, c: Seq<PieceView>)
    ensures
        crate::expansion::concat_all(a + b) == crate::expansion::concat_all(a)
            + crate::expansion::concat_all(b),
        crate::expansion::concat_all(seq![c]) == c,
        crate::expansion::concat_all(Seq::empty()) == Seq::<PieceView>::empty(),
    decreases b.len(),
{
    reveal_with_fuel(crate::expansion::concat_all, 2);
    assert(seq![c].drop_last() =~= Seq::<Seq<PieceView>>::empty());
    assert(crate::expansion::concat_all(seq![c]) =~= c);
    if b.len() == 0 {
        assert(a + b =~= a);
        assert(crate::expansion::concat_all(a) + Seq::<PieceView>::empty()
            =~= crate::expansion::concat_all(a));
    } else {
        assert((a + b).drop_last() =~= a + b.drop_last());
        law_codes_in_a_row(a, b.drop_last(), c);
        assert((crate::expansion::concat_all(a) + crate::expansion::concat_all(b.drop_last()))
            + b.last() =~= crate::expansion::concat_all(a) + (crate::expansion::concat_all(
            b.drop_last(),
        ) + b.last()));
    }
}

/// A group is its pieces between the two delimiters of one kind.
pub proof fn law_groups(inner: Seq<PieceView>)
    ensures
        crate::expansion::parens(inner) == seq![PieceView::Open(Delim::Parenthesis)] + inner + seq![
            PieceView::Close(Delim::Parenthesis),
        ],
        crate::expansion::braces(inner) == seq![PieceView::Open(Delim::Brace)] + inner + seq![
            PieceView::Close(Delim::Brace),
        ],
        crate::expansion::brackets(inner) == seq![PieceView::Open(Delim::Bracket)] + inner + seq![
            PieceView::Close(Delim::Bracket),
        ],
{
}

/// The code that refuses a definition gives the whole reason, and nothing else.
pub proof fn law_refusal_gives_the_reason(reason: Seq<char>)
    ensures
        crate::expansion::refusal(reason) == seq![
            PieceView::Text("compile_error !"@),
            PieceView::Open(Delim::Parenthesis),
            PieceView::Str(reason),
            PieceView::Close(Delim::Parenthesis),
            PieceView::Text(";"@),
        ],
{
}

/// The struct has the visibility and the name that were given, holds an eighth as many bytes as
/// there are bits, and is made with as many zeros. What is left over of a byte is checked.
#[verifier::rlimit(40)]
pub proof fn law_struct_holds_all_bits(vis: Seq<Tok>, name: Seq<Tok>, fields: Seq<FieldView>)
    ensures
        ({
            let size = crate::expansion::width_list(fields, "+"@);
            crate::expansion::struct_code(vis, name, fields) == seq![
                PieceView::Text("# [ repr ( C ) ]"@),
                PieceView::Tokens(vis),
                PieceView::Text("struct"@),
                PieceView::Tokens(name),
                PieceView::Open(Delim::Brace),
                PieceView::Text("data :"@),
                PieceView::Open(Delim::Bracket),
                PieceView::Text("u8 ;"@),
                PieceView::Open(Delim::Parenthesis),
            ] + size + seq![
                PieceView::Close(Delim::Parenthesis),
                PieceView::Text("/ 8"@),
                PieceView::Close(Delim::Bracket),
                PieceView::Text(","@),
                PieceView::Close(Delim::Brace),
                PieceView::Text("impl"@),
                PieceView::Tokens(name),
                PieceView::Open(Delim::Brace),
                PieceView::Text("pub fn new ( ) ->"@),
                PieceView::Tokens(name),
                PieceView::Open(Delim::Brace),
                PieceView::Text("let _ : :: bit_field :: Check <"@),
                PieceView::Open(Delim::Bracket),
                PieceView::Text("u8 ;"@),
                PieceView::Open(Delim::Parenthesis),
            ] + size + seq![
                PieceView::Close(Delim::Parenthesis),
                PieceView::Text("% 8"@),
                PieceView::Close(Delim::Bracket),
                PieceView::Text("> ;"@),
                PieceView::Tokens(name),
                PieceView::Open(Delim::Brace),
                PieceView::Text("data :"@),
                PieceView::Open(Delim::Bracket),
                PieceView::Text("0 ;"@),
                PieceView::Open(Delim::Parenthesis),
            ] + size + seq![
                PieceView::Close(Delim::Parenthesis),
                PieceView::Text("/ 8"@),
                PieceView::Close(Delim::Bracket),
                PieceView::Text(","@),
                PieceView::Close(Delim::Brace),
                PieceView::Close(Delim::Brace),
                PieceView::Close(Delim::Brace),
            ]
        }),
{
}

/// The methods that read and write bits are the same for every struct: only the name that they are
/// for differs.
pub proof fn law_bits_differ_by_name(name: Seq<Tok>, other: Seq<Tok>)
    ensures
        crate::expansion::bits_code(name)[1] == PieceView::Tokens(name),
        crate::expansion::bits_code(name) == crate::expansion::bits_code(other).update(
            1,
            PieceView::Tokens(name),
        ),
{
}

/// The debugging output shows a field under its own name, with the value that its getter gives.
pub proof fn law_debug_shows_the_field(field: FieldView)
    ensures
        crate::expansion::debug_field(field) == seq![
            PieceView::Text(". field"@),
            PieceView::Open(Delim::Parenthesis),
            PieceView::Str(field.name),
            PieceView::Text(", & self ."@),
            PieceView::Ident("get_"@ + field.name),
            PieceView::Text("( )"@),
            PieceView::Close(Delim::Parenthesis),
        ],
{
}

/// The debugging output shows the name of the struct, and then what it shows of each field, in
/// their order.
pub proof fn law_debug_shows_all_fields(
    name: Seq<char>,
    name_tokens: Seq<Tok>,
    fields: Seq<FieldView>,
    shown: Seq<Seq<PieceView>>,
)
    requires
        shown.len() == fields.len(),
        forall|i: int|
            0 <= i < fields.len() ==> crate::expansion::debug_field(fields[i]) == #[trigger] shown[i],
    ensures
        crate::expansion::debug_code(name, name_tokens, fields) == seq![
            PieceView::Text("impl std :: fmt :: Debug for"@),
            PieceView::Tokens(name_tokens),
            PieceView::Open(Delim::Brace),
            PieceView::Text(
                "fn fmt ( & self , f : & mut std :: fmt :: Formatter ) -> std :: fmt :: Result"@,
            ),
            PieceView::Open(Delim::Brace),
            PieceView::Text("f . debug_struct"@),
            PieceView::Open(Delim::Parenthesis),
            PieceView::Str(name),
            PieceView::Close(Delim::Parenthesis),
        ] + crate::expansion::concat_all(shown) + seq![
            PieceView::Text(". finish ( )"@),
            PieceView::Close(Delim::Brace),
            PieceView::Close(Delim::Brace),
        ],
{
    let parts = fields.map_values(|field: FieldView| crate::expansion::debug_field(field));
    assert(parts =~= shown);
}

/// The test of the size adds up the widths of all fields.
pub proof fn law_size_is_tested(fields: Seq<FieldView>)
    ensures
        crate::expansion::total_size_test(fields) == seq![
            PieceView::Text("# [ test ] fn test_total_size ( )"@),
            PieceView::Open(Delim::Brace),
            PieceView::Text("let total_size ="@),
        ] + crate::expansion::width_list(fields, "+"@) + seq![
            PieceView::Text("; assert_eq ! ( total_size % 8 , 0 ) ;"@),
            PieceView::Close(Delim::Brace),
        ],
{
}

/// The test of the boundaries goes through the widths of all fields, and adds up those that it has
/// passed.
pub proof fn law_boundaries_are_tested(fields: Seq<FieldView>)
    ensures
        crate::expansion::boundary_test(fields) == seq![
            PieceView::Text("# [ test ] fn test_bits_boundary ( )"@),
            PieceView::Open(Delim::Brace),
            PieceView::Text("let fields_sizes = vec !"@),
            PieceView::Open(Delim::Bracket),
        ] + crate::expansion::width_list(fields, ","@) + seq![
            PieceView::Close(Delim::Bracket),
            PieceView::Text("; let mut sum ="@),
            PieceView::Size(0),
            PieceView::Text("; for s in fields_sizes"@),
            PieceView::Open(Delim::Brace),
            PieceView::Text("if sum % 64 == 0"@),
            PieceView::Open(Delim::Brace),
            PieceView::Text("assert ! ( s <= 64 ) ;"@),
            PieceView::Close(Delim::Brace),
            PieceView::Text("else"@),
            PieceView::Open(Delim::Brace),
            PieceView::Text("if ( sum + s ) % 64 != 0"@),
            PieceView::Open(Delim::Brace),
            PieceView::Text("assert_eq ! ( sum / 64 , ( sum + s ) / 64 ) ;"@),
            PieceView::Close(Delim::Brace),
            PieceView::Close(Delim::Brace),
            PieceView::Text("sum += s ;"@),
            PieceView::Close(Delim::Brace),
            PieceView::Close(Delim::Brace),
        ],
{
}

/// The test of a field makes a new struct, reads the field, which has to be zero, writes its
/// greatest value and reads the field again.
pub proof fn law_field_is_tested(name: Seq<Tok>, field: FieldView)
    ensures
        crate::expansion::field_test(name, field) == seq![
            PieceView::Text("# [ test ] fn"@),
            PieceView::Ident("test_"@ + field.name),
            PieceView::Text("( )"@),
            PieceView::Open(Delim::Brace),
            PieceView::Text("let mut a ="@),
            PieceView::Tokens(name),
            PieceView::Text(":: new ( ) ;"@),
            PieceView::Text("let val = <"@),
            PieceView::Tokens(field.ty),
            PieceView::Text("as :: bit_field :: BitFieldSpecifier > :: into_u64"@),
            PieceView::Open(Delim::Parenthesis),
            PieceView::Text("a ."@),
            PieceView::Ident("get_"@ + field.name),
            PieceView::Text("( )"@),
            PieceView::Close(Delim::Parenthesis),
            PieceView::Text("; assert_eq ! ( val , 0 ) ; let val = <"@),
            PieceView::Tokens(field.ty),
            PieceView::Text("as :: bit_field :: BitFieldSpecifier > :: from_u64"@),
            PieceView::Open(Delim::Parenthesis),
            PieceView::Text(":: bit_field :: max :: <"@),
            PieceView::Tokens(field.ty),
            PieceView::Text("> ( )"@),
            PieceView::Close(Delim::Parenthesis),
            PieceView::Text("; a ."@),
            PieceView::Ident("set_"@ + field.name),
            PieceView::Text("( val ) ;"@),
            PieceView::Text("let val = <"@),
            PieceView::Tokens(field.ty),
            PieceView::Text("as :: bit_field :: BitFieldSpecifier > :: into_u64"@),
            PieceView::Open(Delim::Parenthesis),
            PieceView::Text("a ."@),
            PieceView::Ident("get_"@ + field.name),
            PieceView::Text("( )"@),
            PieceView::Close(Delim::Parenthesis),
            PieceView::Text("; assert_eq !"@),
            PieceView::Open(Delim::Parenthesis),
            PieceView::Text("val , :: bit_field :: max :: <"@),
            PieceView::Tokens(field.ty),
            PieceView::Text("> ( )"@),
            PieceView::Close(Delim::Parenthesis),
            PieceView::Text(";"@),
            PieceView::Close(Delim::Brace),
        ],
{
}

/// The fields of a definition are those that it names, one for one and in their order. Where one
/// has no name, or there are none to name, the definition is refused.
pub proof fn law_fields_are_kept(data: InputDataView)
    ensures
        match data {
            InputDataView::NamedStruct(given) => {
                let found = crate::definition::struct_fields(data);
                &&& found is Ok <==> forall|i: int|
                    0 <= i < given.len() ==> (#[trigger] given[i]).name is Some
                &&& found matches Ok(fields) ==> fields.len() == given.len() && forall|i: int|
                    0 <= i < given.len() ==> (#[trigger] given[i]).name == Some(fields[i].name)
                        && given[i].ty == fields[i].ty
                &&& found matches Err(reason) ==> reason
                    == "Unknown Error. bit_field_derive library might have a bug."@
            },
            InputDataView::TupleStruct | InputDataView::UnitStruct
                => crate::definition::struct_fields(data) == Err::<Seq<FieldView>, Seq<char>>(
                "Schema must have named fields."@,
            ),
            InputDataView::Enumeration | InputDataView::UnionType
                => crate::definition::struct_fields(data) == Err::<Seq<FieldView>, Seq<char>>(
                "Schema must be a struct."@,
            ),
        },
{
}

proof fn lemma_arranged(
    attrs: Seq<PieceView>,
    holder: Seq<PieceView>,
    bits: Seq<PieceView>,
    name: PieceView,
    methods: Seq<PieceView>,
    output: Seq<PieceView>,
    module: PieceView,
    first: Seq<PieceView>,
    second: Seq<PieceView>,
    tests: Seq<PieceView>,
)
    ensures
        attrs + holder + bits + seq![crate::expansion::text("impl"@), name]
            + crate::expansion::braces(methods) + output + seq![
            crate::expansion::text("# [ cfg ( test ) ] mod"@),
            module,
        ] + crate::expansion::braces(
            seq![crate::expansion::text("use super :: * ;"@)] + (first + second + tests),
        ) == attrs + holder + bits + seq![
            PieceView::Text("impl"@),
            name,
            PieceView::Open(Delim::Brace),
        ] + methods + seq![PieceView::Close(Delim::Brace)] + output + seq![
            PieceView::Text("# [ cfg ( test ) ] mod"@),
            module,
            PieceView::Open(Delim::Brace),
            PieceView::Text("use super :: * ;"@),
        ] + first + second + tests + seq![PieceView::Close(Delim::Brace)],
{
    assert(seq![crate::expansion::text("impl"@), name] + crate::expansion::braces(methods) =~= seq![
        PieceView::Text("impl"@),
        name,
        PieceView::Open(Delim::Brace),
    ] + methods + seq![PieceView::Close(Delim::Brace)]);
}

/// The code for a definition: its attributes, the struct, the methods for bits, the accessors of
/// each field, the debugging output and the tests, the two on the layout first and then one for
/// each field.
pub proof fn law_parts_of_the_code(
    ast: MacroInputView,
    lowered: Seq<char>,
    fields: Seq<FieldView>,
    methods: Seq<Seq<PieceView>>,
    tests: Seq<Seq<PieceView>>,
)
    requires
        ast.generics == 0,
        ast.data matches InputDataView::NamedStruct(given) && given.len() == fields.len() && forall|
            i: int,
        |
            0 <= i < given.len() ==> (#[trigger] given[i]).name == Some(fields[i].name)
                && given[i].ty == fields[i].ty,
        methods.len() == fields.len(),
        forall|i: int|
            0 <= i < fields.len() ==> #[trigger] methods[i] == crate::expansion::getter_code(
                fields.take(i),
                fields[i],
            ) + crate::expansion::setter_code(fields.take(i), fields[i]),
        tests.len() == fields.len(),
        forall|i: int|
            0 <= i < fields.len() ==> #[trigger] tests[i] == crate::expansion::field_test(
                ast.ident,
                fields[i],
            ),
    ensures
        crate::expansion::expansion(ast, lowered) == seq![PieceView::Tokens(ast.attrs)]
            + crate::expansion::struct_code(ast.vis, ast.ident, fields)
            + crate::expansion::bits_code(ast.ident) + seq![
            PieceView::Text("impl"@),
            PieceView::Tokens(ast.ident),
            PieceView::Open(Delim::Brace),
        ] + crate::expansion::concat_all(methods) + seq![PieceView::Close(Delim::Brace)]
            + crate::expansion::debug_code(ast.name, ast.ident, fields) + seq![
            PieceView::Text("# [ cfg ( test ) ] mod"@),
            PieceView::Ident("test_"@ + lowered),
            PieceView::Open(Delim::Brace),
            PieceView::Text("use super :: * ;"@),
        ] + crate::expansion::total_size_test(fields) + crate::expansion::boundary_test(fields)
            + crate::expansion::concat_all(tests) + seq![PieceView::Close(Delim::Brace)],
{
    let given = ast.data->NamedStruct_0;
    let found = crate::definition::struct_fields(ast.data);
    law_fields_are_kept(ast.data);
    assert(found is Ok);
    assert forall|i: int| 0 <= i < fields.len() implies found->Ok_0[i] == fields[i] by {
        assert(given[i].name == Some(fields[i].name));
    }
    assert(found->Ok_0 =~= fields);
    assert(crate::expansion::accessors(fields) =~= methods);
    let first = crate::expansion::total_size_test(fields);
    let second = crate::expansion::boundary_test(fields);
    let all = crate::expansion::tests_code(ast.ident, fields);
    assert(all =~= (seq![first] + seq![second]) + tests);
    law_codes_in_a_row(seq![first] + seq![second], tests, first);
    law_codes_in_a_row(seq![first], seq![second], second);
    law_codes_in_a_row(seq![first], seq![second], first);
    lemma_arranged(
        seq![PieceView::Tokens(ast.attrs)],
        crate::expansion::struct_code(ast.vis, ast.ident, fields),
        crate::expansion::bits_code(ast.ident),
        PieceView::Tokens(ast.ident),
        crate::expansion::concat_all(methods),
        crate::expansion::debug_code(ast.name, ast.ident, fields),
        PieceView::Ident("test_"@ + lowered),
        first,
        second,
        crate::expansion::concat_all(tests),
    );
}

} // verus!
