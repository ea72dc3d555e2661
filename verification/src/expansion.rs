//! The code that stands for the definition of a bit field: a struct that holds the bits of all
//! fields, with its constructor, its accessors, its debugging output and its tests.

use crate::definition::{FieldView, InputDataView, MacroInputView};
use crate::definition::{NAMELESS_FIELD, NEEDS_NAMED_FIELDS, NEEDS_STRUCT};
use crate::tokens::{Delim, PieceView, Tok};
use vstd::prelude::*;

verus! {

/// Why a type with generic parameters is refused.
pub const NO_GENERICS: &'static str = "#[bitfield] does not support generic parameters";

/// Follows the type of a field: its width.
pub const WIDTH: &'static str = "as :: bit_field :: BitFieldSpecifier > :: FIELD_WIDTH";

/// Follows the type of a field: its width as a size.
pub const WIDTH_AS_USIZE: &'static str =
    "as :: bit_field :: BitFieldSpecifier > :: FIELD_WIDTH as usize";

/// Follows the type of a field: the type of its values.
pub const VALUE_TYPE: &'static str = "as :: bit_field :: BitFieldSpecifier > :: DefaultFieldType";

/// Follows the type of a field: the conversion of a number to one of its values.
pub const FROM_U64: &'static str = "as :: bit_field :: BitFieldSpecifier > :: from_u64";

/// Follows the type of a field: the conversion of one of its values to a number.
pub const INTO_U64: &'static str = "as :: bit_field :: BitFieldSpecifier > :: into_u64";

/// The width of no field, with which every offset begins.
pub const NO_WIDTH: &'static str =
    "< :: bit_field :: BitField0 as :: bit_field :: BitFieldSpecifier > :: FIELD_WIDTH as usize";

/// A text that spells out a piece of code.
pub open spec fn text(s: Seq<char>) -> PieceView {
    PieceView::Text(s)
}

/// Tokens as a piece of code.
pub open spec fn toks(t: Seq<Tok>) -> PieceView {
    PieceView::Tokens(t)
}

/// The identifier that begins with a prefix and ends with a name.
pub open spec fn ident(prefix: Seq<char>, name: Seq<char>) -> PieceView {
    PieceView::Ident(prefix + name)
}

/// All pieces of all codes in a row.
pub open spec fn concat_all(codes: Seq<Seq<PieceView>>) -> Seq<PieceView>
    decreases codes.len(),
{
    if codes.len() == 0 {
        Seq::empty()
    } else {
        concat_all(codes.drop_last()) + codes.last()
    }
}

/// The pieces in parentheses.
pub open spec fn parens(inner: Seq<PieceView>) -> Seq<PieceView> {
    crate::tokens::grouped(Delim::Parenthesis, inner)
}

/// The pieces in braces.
pub open spec fn braces(inner: Seq<PieceView>) -> Seq<PieceView> {
    crate::tokens::grouped(Delim::Brace, inner)
}

/// The pieces in brackets.
pub open spec fn brackets(inner: Seq<PieceView>) -> Seq<PieceView> {
    crate::tokens::grouped(Delim::Bracket, inner)
}

/// The code that refuses a definition for the given reason.
pub open spec fn refusal(reason: Seq<char>) -> Seq<PieceView> {
    seq![text("compile_error !"@)] + parens(seq![PieceView::Str(reason)]) + seq![text(";"@)]
}

/// The width of a field, as a size.
pub open spec fn width_code(field: FieldView) -> Seq<PieceView> {
    seq![text("<"@), toks(field.ty), text(WIDTH_AS_USIZE@)]
}

/// The widths of fields, with a separator between any two.
pub open spec fn width_list(fields: Seq<FieldView>, separator: Seq<char>) -> Seq<PieceView>
    decreases fields.len(),
{
    if fields.len() == 0 {
        Seq::empty()
    } else if fields.len() == 1 {
        width_code(fields[0])
    } else {
        width_list(fields.drop_last(), separator) + seq![text(separator)] + width_code(
            fields.last(),
        )
    }
}

/// The offset that a field has after the given ones: the sum of their widths.
pub open spec fn offset_code(fields: Seq<FieldView>) -> Seq<PieceView>
    decreases fields.len(),
{
    if fields.len() == 0 {
        seq![text(NO_WIDTH@)]
    } else {
        offset_code(fields.drop_last()) + seq![text("+"@)] + width_code(fields.last())
    }
}

/// An array, of a length that follows from the number of all bits.
pub open spec fn sized(start: Seq<char>, fields: Seq<FieldView>, end: Seq<char>) -> Seq<PieceView> {
    brackets(seq![text(start)] + parens(width_list(fields, "+"@)) + seq![text(end)])
}

/// The field that holds the bytes, with what is given for it.
pub open spec fn data_code(start: Seq<char>, fields: Seq<FieldView>) -> Seq<PieceView> {
    seq![text("data :"@)] + sized(start, fields, "/ 8"@) + seq![text(","@)]
}

/// The constructor: only whole bytes pass its check, and all of them are zero.
pub open spec fn constructor_code(name: Seq<Tok>, fields: Seq<FieldView>) -> Seq<PieceView> {
    seq![text("pub fn new ( ) ->"@), toks(name)] + braces(
        seq![text("let _ : :: bit_field :: Check <"@)] + sized("u8 ;"@, fields, "% 8"@) + seq![
            text("> ;"@),
            toks(name),
        ] + braces(data_code("0 ;"@, fields)),
    )
}

/// The struct that holds the bits of all fields, and its constructor.
pub open spec fn struct_code(
    vis: Seq<Tok>,
    name: Seq<Tok>,
    fields: Seq<FieldView>,
) -> Seq<PieceView> {
    seq![text("# [ repr ( C ) ]"@), toks(vis), text("struct"@), toks(name)] + braces(
        data_code("u8 ;"@, fields),
    ) + seq![text("impl"@), toks(name)] + braces(constructor_code(name, fields))
}

/// A method with the given signature and body.
pub open spec fn method_code(signature: Seq<char>, body: Seq<PieceView>) -> Seq<PieceView> {
    seq![text("# [ inline ]"@), text(signature)] + braces(body)
}

/// The method that checks, while debugging, that bits can be read and written together.
pub open spec fn check_access_code() -> Seq<PieceView> {
    method_code(
        "fn check_access ( & self , offset : usize , width : u8 )"@,
        seq![
            text("debug_assert ! ( width <= 64 ) ;"@),
            text("debug_assert ! ( offset / 8 < self . data . len ( ) ) ;"@),
            text(
                "debug_assert ! ( ( offset + ( width as usize ) ) <= ( self . data . len ( ) * 8 ) ) ;"@,
            ),
        ],
    )
}

/// The method that reads a bit.
pub open spec fn get_bit_code() -> Seq<PieceView> {
    method_code(
        "pub fn get_bit ( & self , offset : usize ) -> bool"@,
        seq![
            text("self . check_access ( offset , 1 ) ;"@),
            text("let byte_index = offset / 8 ;"@),
            text("let bit_offset = offset % 8 ;"@),
            text("let byte = self . data [ byte_index ] ;"@),
            text("let mask = 1 << bit_offset ;"@),
            text("byte & mask == mask"@),
        ],
    )
}

/// The method that writes a bit.
pub open spec fn set_bit_code() -> Seq<PieceView> {
    method_code(
        "pub fn set_bit ( & mut self , offset : usize , val : bool )"@,
        seq![
            text("self . check_access ( offset , 1 ) ;"@),
            text("let byte_index = offset / 8 ;"@),
            text("let bit_offset = offset % 8 ;"@),
            text("let byte = & mut self . data [ byte_index ] ;"@),
            text("let mask = 1 << bit_offset ;"@),
            text("if val"@),
        ] + braces(seq![text("* byte |= mask ;"@)]) + seq![text("else"@)] + braces(
            seq![text("* byte &= ! mask ;"@)],
        ),
    )
}

/// The method that reads bits as a number.
pub open spec fn get_code() -> Seq<PieceView> {
    method_code(
        "pub fn get ( & self , offset : usize , width : u8 ) -> u64"@,
        seq![
            text("self . check_access ( offset , width ) ;"@),
            text("let mut val = 0 ;"@),
            text("for i in 0 .. ( width as usize )"@),
        ] + braces(
            seq![text("if self . get_bit ( i + offset )"@)] + braces(
                seq![text("val |= 1 << i ;"@)],
            ),
        ) + seq![text("val"@)],
    )
}

/// The method that writes a number as bits.
pub open spec fn set_code() -> Seq<PieceView> {
    method_code(
        "pub fn set ( & mut self , offset : usize , width : u8 , val : u64 )"@,
        seq![
            text("self . check_access ( offset , width ) ;"@),
            text("for i in 0 .. ( width as usize )"@),
        ] + braces(
            seq![
                text("let mask = 1 << i ;"@),
                text("let val_bit_is_set = val & mask == mask ;"@),
                text("self . set_bit ( i + offset , val_bit_is_set ) ;"@),
            ],
        ),
    )
}

/// The methods that read and write bits.
pub open spec fn bits_code(name: Seq<Tok>) -> Seq<PieceView> {
    seq![text("impl"@), toks(name)] + braces(
        check_access_code() + get_bit_code() + set_bit_code() + get_code() + set_code(),
    )
}

/// The method that reads a field after the given ones.
pub open spec fn getter_code(before: Seq<FieldView>, field: FieldView) -> Seq<PieceView> {
    let ty = toks(field.ty);
    seq![
        text("pub fn"@),
        ident("get_"@, field.name),
        text("( & self ) -> <"@),
        ty,
        text(VALUE_TYPE@),
    ] + braces(
        seq![text("let offset ="@)] + offset_code(before) + seq![text("; let val = self . get"@)]
            + parens(seq![text("offset , <"@), ty, text(WIDTH@)]) + seq![
            text("; <"@),
            ty,
            text(FROM_U64@),
            text("( val )"@),
        ],
    )
}

/// The greatest value of a field, in parentheses.
pub open spec fn max_code(start: Seq<char>, ty: PieceView) -> Seq<PieceView> {
    parens(seq![text(start), ty, text("> ( )"@)])
}

/// The method that writes a field after the given ones.
pub open spec fn setter_code(before: Seq<FieldView>, field: FieldView) -> Seq<PieceView> {
    let ty = toks(field.ty);
    seq![text("pub fn"@), ident("set_"@, field.name)] + parens(
        seq![text("& mut self , val : <"@), ty, text(VALUE_TYPE@)],
    ) + braces(
        seq![
            text("let val = <"@),
            ty,
            text(INTO_U64@),
            text("( val ) ; debug_assert !"@),
        ] + max_code("val <= :: bit_field :: max :: <"@, ty) + seq![text("; let offset ="@)]
            + offset_code(before) + seq![text("; self . set"@)] + parens(
            seq![text("offset , <"@), ty, text(WIDTH@), text(", val"@)],
        ),
    )
}

/// The methods that read and write field `i`.
pub open spec fn accessor_code(fields: Seq<FieldView>, i: int) -> Seq<PieceView> {
    getter_code(fields.take(i), fields[i]) + setter_code(fields.take(i), fields[i])
}

/// The methods that read and write the fields, field by field.
pub open spec fn accessors(fields: Seq<FieldView>) -> Seq<Seq<PieceView>> {
    Seq::new(fields.len(), |i: int| accessor_code(fields, i))
}

/// The part of the debugging output for a field.
pub open spec fn debug_field(field: FieldView) -> Seq<PieceView> {
    seq![text(". field"@)] + parens(
        seq![
            PieceView::Str(field.name),
            text(", & self ."@),
            ident("get_"@, field.name),
            text("( )"@),
        ],
    )
}

/// The debugging output: the name of the struct, and each field with its value.
pub open spec fn debug_code(
    name: Seq<char>,
    name_tokens: Seq<Tok>,
    fields: Seq<FieldView>,
) -> Seq<PieceView> {
    seq![text("impl std :: fmt :: Debug for"@), toks(name_tokens)] + braces(
        seq![
            text("fn fmt ( & self , f : & mut std :: fmt :: Formatter ) -> std :: fmt :: Result"@),
        ] + braces(
            seq![text("f . debug_struct"@)] + parens(seq![PieceView::Str(name)]) + concat_all(
                fields.map_values(|field: FieldView| debug_field(field)),
            ) + seq![text(". finish ( )"@)],
        ),
    )
}

/// The test that all bits together are whole bytes.
pub open spec fn total_size_test(fields: Seq<FieldView>) -> Seq<PieceView> {
    seq![text("# [ test ] fn test_total_size ( )"@)] + braces(
        seq![text("let total_size ="@)] + width_list(fields, "+"@) + seq![
            text("; assert_eq ! ( total_size % 8 , 0 ) ;"@),
        ],
    )
}

/// The check of one field in the test that none crosses a boundary between 64-bit words.
pub open spec fn boundary_check() -> Seq<PieceView> {
    seq![text("if sum % 64 == 0"@)] + braces(seq![text("assert ! ( s <= 64 ) ;"@)]) + seq![
        text("else"@),
    ] + braces(
        seq![text("if ( sum + s ) % 64 != 0"@)] + braces(
            seq![text("assert_eq ! ( sum / 64 , ( sum + s ) / 64 ) ;"@)],
        ),
    ) + seq![text("sum += s ;"@)]
}

/// The test that no field crosses a boundary between 64-bit words.
pub open spec fn boundary_test(fields: Seq<FieldView>) -> Seq<PieceView> {
    seq![text("# [ test ] fn test_bits_boundary ( )"@)] + braces(
        seq![text("let fields_sizes = vec !"@)] + brackets(width_list(fields, ","@)) + seq![
            text("; let mut sum ="@),
            PieceView::Size(0),
            text("; for s in fields_sizes"@),
        ] + braces(boundary_check()),
    )
}

/// Reads a field of `a`.
pub open spec fn read_code(field: FieldView) -> Seq<PieceView> {
    seq![text("let val = <"@), toks(field.ty), text(INTO_U64@)] + parens(
        seq![text("a ."@), ident("get_"@, field.name), text("( )"@)],
    )
}

/// The test that a field is zero at first, and then has the value that it is given.
pub open spec fn field_test(name: Seq<Tok>, field: FieldView) -> Seq<PieceView> {
    let ty = toks(field.ty);
    seq![text("# [ test ] fn"@), ident("test_"@, field.name), text("( )"@)] + braces(
        seq![text("let mut a ="@), toks(name), text(":: new ( ) ;"@)] + read_code(field) + seq![
            text("; assert_eq ! ( val , 0 ) ; let val = <"@),
            ty,
            text(FROM_U64@),
        ] + max_code(":: bit_field :: max :: <"@, ty) + seq![
            text("; a ."@),
            ident("set_"@, field.name),
            text("( val ) ;"@),
        ] + read_code(field) + seq![text("; assert_eq !"@)] + max_code(
            "val , :: bit_field :: max :: <"@,
            ty,
        ) + seq![text(";"@)],
    )
}

/// The tests: the two on the layout, and one for each field.
pub open spec fn tests_code(name: Seq<Tok>, fields: Seq<FieldView>) -> Seq<Seq<PieceView>> {
    seq![total_size_test(fields), boundary_test(fields)] + fields.map_values(
        |field: FieldView| field_test(name, field),
    )
}

/// The code for a struct with the given fields. `lowered` is its name in lower case.
pub open spec fn bit_field_code(
    ast: MacroInputView,
    lowered: Seq<char>,
    fields: Seq<FieldView>,
) -> Seq<PieceView> {
    seq![toks(ast.attrs)] + struct_code(ast.vis, ast.ident, fields) + bits_code(ast.ident) + seq![
        text("impl"@),
        toks(ast.ident),
    ] + braces(concat_all(accessors(fields))) + debug_code(ast.name, ast.ident, fields) + seq![
        text("# [ cfg ( test ) ] mod"@),
        ident("test_"@, lowered),
    ] + braces(seq![text("use super :: * ;"@)] + concat_all(tests_code(ast.ident, fields)))
}

/// The code for a definition. `lowered` is the name of the type in lower case.
pub open spec fn expansion(ast: MacroInputView, lowered: Seq<char>) -> Seq<PieceView> {
    if ast.generics > 0 {
        refusal(NO_GENERICS@)
    } else {
        match crate::definition::struct_fields(ast.data) {
            Ok(fields) => bit_field_code(ast, lowered, fields),
            Err(reason) => refusal(reason),
        }
    }
}

/// Every field has a name that can be put behind a prefix.
pub open spec fn names_extend(fields: Seq<FieldView>) -> bool {
    forall|i: int|
        0 <= i < fields.len() ==> crate::tokens::may_end_ident((#[trigger] fields[i]).name)
}

/// No character of ASCII keeps a name that the code for the definition needs from being an
/// identifier.
pub open spec fn expandable(ast: MacroInputView, lowered: Seq<char>) -> bool {
    ast.generics > 0 || (crate::tokens::may_end_ident(lowered) && (
    crate::definition::struct_fields(ast.data) matches Ok(fields) ==> names_extend(fields)))
}

/// Anything but a struct with named fields and without generic parameters is refused, each for
/// its own reason.
pub proof fn law_unexpected_is_refused(ast: MacroInputView, lowered: Seq<char>)
    ensures
        ast.generics > 0 ==> expansion(ast, lowered) == refusal(NO_GENERICS@),
        ast.generics == 0 && (ast.data is TupleStruct || ast.data is UnitStruct) ==> expansion(
            ast,
            lowered,
        ) == refusal(NEEDS_NAMED_FIELDS@),
        ast.generics == 0 && (ast.data is Enumeration || ast.data is UnionType) ==> expansion(
            ast,
            lowered,
        ) == refusal(NEEDS_STRUCT@),
        ast.generics == 0 ==> (ast.data matches InputDataView::NamedStruct(fields) ==> (exists|
            i: int,
        | 0 <= i < fields.len() && (#[trigger] fields[i]).name is None) ==> expansion(ast, lowered)
            == refusal(NAMELESS_FIELD@)),
{
}

/// Every field of a definition that is not refused has one pair of accessors and one test, in the
/// order of the fields and after the two tests on the layout.
pub proof fn law_one_accessor_pair_and_test_per_field(name: Seq<Tok>, fields: Seq<FieldView>)
    ensures
        accessors(fields).len() == fields.len(),
        tests_code(name, fields).len() == fields.len() + 2,
        forall|i: int|
            0 <= i < fields.len() ==> #[trigger] accessors(fields)[i] == getter_code(
                fields.take(i),
                fields[i],
            ) + setter_code(fields.take(i), fields[i]),
        forall|i: int|
            0 <= i < fields.len() ==> field_test(name, #[trigger] fields[i]) == tests_code(
                name,
                fields,
            )[i + 2],
{
}

} // verus!
