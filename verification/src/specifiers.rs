//! The marker types that name the width of a field.

use crate::bitfield::one_text;
use crate::layout::{default_field_type, FieldType};
use crate::tokens::{owned, Code, Delim, ExpandError, PieceView};
use proc_macro2::TokenStream;
use vstd::prelude::*;

verus! {

/// The name of a type for values.
pub open spec fn value_type_name(ty: FieldType) -> Seq<char> {
    match ty {
        FieldType::U8 => "u8"@,
        FieldType::U16 => "u16"@,
        FieldType::U32 => "u32"@,
        FieldType::U64 => "u64"@,
    }
}

fn get_type_name(ty: FieldType) -> (r: &'static str)
    ensures
        r@ == value_type_name(ty),
{
    match ty {
        FieldType::U8 => "u8",
        FieldType::U16 => "u16",
        FieldType::U32 => "u32",
        FieldType::U64 => "u64",
    }
}

/// A prefix, followed by a width in decimal.
pub open spec fn numbered(prefix: Seq<char>, width: u8) -> PieceView {
    crate::expansion::ident(prefix, crate::tokens::decimal(width as nat))
}

/// The body of the implementation for the marker type of a width.
pub open spec fn specifier_body(width: u8) -> Seq<PieceView> {
    seq![
        crate::expansion::text("const FIELD_WIDTH : u8 ="@),
        PieceView::Byte(width),
        crate::expansion::text("; type DefaultFieldType ="@),
        crate::expansion::text(value_type_name(crate::layout::field_type(width))),
        crate::expansion::text(
            "; # [ inline ] fn from_u64 ( val : u64 ) -> Self :: DefaultFieldType"@,
        ),
    ] + crate::expansion::braces(
        seq![crate::expansion::text("val as Self :: DefaultFieldType"@)],
    ) + seq![
        crate::expansion::text(
            "# [ inline ] fn into_u64 ( val : Self :: DefaultFieldType ) -> u64"@,
        ),
    ] + crate::expansion::braces(seq![crate::expansion::text("val as u64"@)])
}

/// The marker type for a width, with a short name, and the type of the values of that width.
pub open spec fn specifier_code(width: u8) -> Seq<PieceView> {
    let long_name = numbered("BitField"@, width);
    seq![
        crate::expansion::text("pub struct"@),
        long_name,
        crate::expansion::text("; pub use self ::"@),
        long_name,
        crate::expansion::text("as"@),
        numbered("B"@, width),
        crate::expansion::text("; impl BitFieldSpecifier for"@),
        long_name,
    ] + crate::expansion::braces(specifier_body(width)) + seq![
        crate::expansion::text("impl private :: Sealed for"@),
        long_name,
        crate::expansion::text("{ }"@),
    ]
}

/// The marker types for all widths up to that of a 64-bit word.
pub open spec fn specifiers_code() -> Seq<PieceView> {
    crate::expansion::concat_all(Seq::new(65, |width: int| specifier_code(width as u8)))
}

proof fn lemma_decimal_ascii(n: nat)
    ensures
        crate::tokens::all_ascii(crate::tokens::decimal(n)),
        crate::tokens::may_end_ident(crate::tokens::decimal(n)),
    decreases n,
{
    if n >= 10 {
        lemma_decimal_ascii(n / 10);
    }
}

proof fn lemma_specifier(width: u8)
    ensures
        crate::tokens::is_code(specifier_code(width)),
        crate::tokens::all_certain(specifier_code(width)),
{
    broadcast use crate::tokens::group_code;

    crate::texts::lemma_texts_of_specifiers();
    assert(crate::tokens::is_code(specifier_body(width)));
    reveal_strlit("BitField");
    reveal_strlit("B");
    let number = crate::tokens::decimal(width as nat);
    lemma_decimal_ascii(width as nat);
    assert(crate::tokens::all_ascii("BitField"@ + number));
    assert(crate::tokens::all_ascii("B"@ + number));
    assert(crate::tokens::all_certain(specifier_body(width)));
}

/// The marker types are code, and nothing is left open of them.
pub proof fn law_specifiers_are_code()
    ensures
        crate::tokens::is_code(specifiers_code()),
        crate::tokens::all_certain(specifiers_code()),
{
    let codes = Seq::new(65, |width: int| specifier_code(width as u8));
    assert forall|i: int| 0 <= i < codes.len() implies crate::tokens::is_code(#[trigger] codes[i])
        && crate::tokens::all_certain(codes[i]) by {
        lemma_specifier(i as u8);
    }
    crate::expansion_laws::lemma_concat_is_code(codes);
    crate::expansion_laws::lemma_concat_certain(codes);
}

fn get_digit(d: u8) -> (r: &'static str)
    requires
        d < 10,
    ensures
        r@ == seq![crate::tokens::digit(d as nat)],
{
    proof {
        reveal_strlit("0");
        reveal_strlit("1");
        reveal_strlit("2");
        reveal_strlit("3");
        reveal_strlit("4");
        reveal_strlit("5");
        reveal_strlit("6");
        reveal_strlit("7");
        reveal_strlit("8");
        reveal_strlit("9");
    }
    match d {
        0 => "0",
        1 => "1",
        2 => "2",
        3 => "3",
        4 => "4",
        5 => "5",
        6 => "6",
        7 => "7",
        8 => "8",
        _ => "9",
    }
}

/// Adds a number in decimal to a text.
fn add_decimal(text: &mut String, n: u8)
    ensures
        final(text)@ == old(text)@ + crate::tokens::decimal(n as nat),
    decreases n,
{
    if n >= 10 {
        add_decimal(text, n / 10);
    }
    text.append(get_digit(n % 10));
    assert(text@ =~= old(text)@ + crate::tokens::decimal(n as nat));
}

/// Adds the identifier of a prefix and a width.
fn add_numbered(code: &mut Code, prefix: &str, width: u8)
    requires
        old(code).wf(),
        prefix@ == "BitField"@ || prefix@ == "B"@,
    ensures
        final(code).wf(),
        final(code)@ == old(code)@.push(numbered(prefix@, width)),
{
    let mut name = owned(prefix);
    add_decimal(&mut name, width);
    proof {
        reveal_strlit("BitField");
        reveal_strlit("B");
        lemma_decimal_ascii(width as nat);
        let number = crate::tokens::decimal(width as nat);
        assert forall|i: int| 0 <= i < name@.len() implies crate::tokens::is_word_char(
            #[trigger] name@[i],
        ) || !crate::tokens::is_ascii(name@[i]) by {
            if i >= prefix@.len() {
                assert(name@[i] == number[i - prefix@.len()]);
            }
        }
    }
    code.ident(name);
}

/// The marker type for a width, with a short name, and the type of the values of that width.
fn get_specifier(width: u8) -> (r: Code)
    ensures
        r.wf(),
        r@ == specifier_code(width),
{
    let mut body = Code::new();
    body.text("const FIELD_WIDTH : u8 =");
    body.byte(width);
    body.text("; type DefaultFieldType =");
    body.text(get_type_name(default_field_type(width)));
    body.text("; # [ inline ] fn from_u64 ( val : u64 ) -> Self :: DefaultFieldType");
    body.group(Delim::Brace, one_text("val as Self :: DefaultFieldType"));
    body.text("# [ inline ] fn into_u64 ( val : Self :: DefaultFieldType ) -> u64");
    body.group(Delim::Brace, one_text("val as u64"));
    assert(body@ =~= specifier_body(width));
    let mut code = Code::new();
    code.text("pub struct");
    add_numbered(&mut code, "BitField", width);
    code.text("; pub use self ::");
    add_numbered(&mut code, "BitField", width);
    code.text("as");
    add_numbered(&mut code, "B", width);
    code.text("; impl BitFieldSpecifier for");
    add_numbered(&mut code, "BitField", width);
    code.group(Delim::Brace, body);
    code.text("impl private :: Sealed for");
    add_numbered(&mut code, "BitField", width);
    code.text("{ }");
    assert(code@ =~= specifier_code(width));
    code
}

/// Emits the marker types `BitField0` through `BitField64`.
pub fn define_bit_field_specifiers(_input: TokenStream) -> (r: Result<TokenStream, ExpandError>)
    ensures
        r is Ok,
        crate::tokens::stream_tokens(r->Ok_0) == crate::tokens::exact_tokens(specifiers_code()),
{
    let ghost codes = Seq::new(65, |width: int| specifier_code(width as u8));
    let mut code = Code::new();
    let mut width: u8 = 0;
    assert(code@ =~= crate::expansion::concat_all(codes.take(0)));
    while width <= 64
        invariant
            width <= 65,
            codes == Seq::new(65, |width: int| specifier_code(width as u8)),
            code.wf(),
            code@ == crate::expansion::concat_all(codes.take(width as int)),
        decreases 65 - width,
    {
        proof {
            assert(codes.take(width + 1).drop_last() =~= codes.take(width as int));
            assert(codes.take(width + 1).last() == specifier_code(width));
        }
        code.append(get_specifier(width));
        width = width + 1;
    }
    assert(codes.take(65) =~= codes);
    proof {
        law_specifiers_are_code();
    }
    code.into_stream()
}

/// The marker type for a width: its long name and its short one end with the width, its width is
/// that number, and its values are of the smallest type that has as many bits.
pub proof fn law_specifier_names_its_width(width: u8)
    requires
        width <= 64,
    ensures
        ({
            let code = specifier_code(width);
            let number = crate::tokens::decimal(width as nat);
            &&& code[0] == PieceView::Text("pub struct"@)
            &&& code[1] == PieceView::Ident("BitField"@ + number)
            &&& code[2] == PieceView::Text("; pub use self ::"@)
            &&& code[3] == PieceView::Ident("BitField"@ + number)
            &&& code[4] == PieceView::Text("as"@)
            &&& code[5] == PieceView::Ident("B"@ + number)
            &&& code[6] == PieceView::Text("; impl BitFieldSpecifier for"@)
            &&& code[7] == PieceView::Ident("BitField"@ + number)
            &&& code[8] == PieceView::Open(Delim::Brace)
            &&& code[9] == PieceView::Text("const FIELD_WIDTH : u8 ="@)
            &&& code[10] == PieceView::Byte(width)
            &&& code[11] == PieceView::Text("; type DefaultFieldType ="@)
            &&& width <= 8 ==> code[12] == PieceView::Text("u8"@)
            &&& 8 < width <= 16 ==> code[12] == PieceView::Text("u16"@)
            &&& 16 < width <= 32 ==> code[12] == PieceView::Text("u32"@)
            &&& 32 < width ==> code[12] == PieceView::Text("u64"@)
        }),
{
}

/// The marker types of two widths differ in the width and in what is named after it alone.
pub proof fn law_specifiers_are_alike(width: u8, other: u8)
    requires
        width <= 64,
        other <= 64,
    ensures
        specifier_code(width).len() == specifier_code(other).len(),
        forall|i: int|
            0 <= i < specifier_code(width).len() && i != 1 && i != 3 && i != 5 && i != 7 && i != 10
                && i != 12 && i != specifier_code(width).len() - 2
                ==> #[trigger] specifier_code(width)[i] == specifier_code(other)[i],
        specifier_code(width)[specifier_code(width).len() - 2] == specifier_code(width)[1],
{
}

/// There is one marker type for each width up to that of a 64-bit word, in the order of the widths.
pub proof fn law_one_specifier_per_width(codes: Seq<Seq<PieceView>>)
    requires
        codes.len() == 65,
        forall|width: u8| width <= 64 ==> codes[width as int] == #[trigger] specifier_code(width),
    ensures
        specifiers_code() == crate::expansion::concat_all(codes),
{
    assert forall|i: int| 0 <= i < 65 implies #[trigger] codes[i] == specifier_code(i as u8) by {
        assert(codes[(i as u8) as int] == specifier_code(i as u8));
    }
    assert(Seq::new(65, |width: int| specifier_code(width as u8)) =~= codes);
}

} // verus!
