//! What holds of the code for every definition: it is code, and nothing is left open of it where the
//! names are of ASCII.

use crate::definition::{FieldView, MacroInputView};
use crate::definition::{NAMELESS_FIELD, NEEDS_NAMED_FIELDS, NEEDS_STRUCT};
use crate::expansion::NO_GENERICS;
use crate::tokens::{PieceView, Tok};
use vstd::prelude::*;

verus! {

/// Codes in a row are code.
pub proof fn lemma_concat_is_code(codes: Seq<Seq<PieceView>>)
    requires
        forall|i: int| 0 <= i < codes.len() ==> crate::tokens::is_code(#[trigger] codes[i]),
    ensures
        crate::tokens::is_code(crate::expansion::concat_all(codes)),
    decreases codes.len(),
{
    broadcast use crate::tokens::group_code;

    if codes.len() > 0 {
        let before = codes.drop_last();
        assert forall|i: int| 0 <= i < before.len() implies crate::tokens::is_code(
            #[trigger] before[i],
        ) by {
            assert(before[i] == codes[i]);
        }
        lemma_concat_is_code(before);
        assert(crate::tokens::is_code(codes[codes.len() - 1]));
    }
}

proof fn lemma_width_is_code(field: FieldView)
    ensures
        crate::tokens::is_code(crate::expansion::width_code(field)),
{
    broadcast use crate::tokens::group_code;

    crate::texts::lemma_texts_of_widths();
}

proof fn lemma_width_list_is_code(fields: Seq<FieldView>, separator: Seq<char>)
    requires
        separator == "+"@ || separator == ","@,
    ensures
        crate::tokens::is_code(crate::expansion::width_list(fields, separator)),
    decreases fields.len(),
{
    broadcast use crate::tokens::group_code;

    crate::texts::lemma_texts_of_widths();
    if fields.len() == 1 {
        lemma_width_is_code(fields[0]);
    } else if fields.len() > 1 {
        lemma_width_list_is_code(fields.drop_last(), separator);
        lemma_width_is_code(fields.last());
    }
}

proof fn lemma_offset_is_code(fields: Seq<FieldView>)
    ensures
        crate::tokens::is_code(crate::expansion::offset_code(fields)),
    decreases fields.len(),
{
    broadcast use crate::tokens::group_code;

    crate::texts::lemma_texts_of_widths();
    if fields.len() > 0 {
        lemma_offset_is_code(fields.drop_last());
        lemma_width_is_code(fields.last());
    }
}

proof fn lemma_struct_is_code(vis: Seq<Tok>, name: Seq<Tok>, fields: Seq<FieldView>)
    ensures
        crate::tokens::is_code(crate::expansion::struct_code(vis, name, fields)),
{
    broadcast use crate::tokens::group_code;

    crate::texts::lemma_texts_of_struct();
    lemma_width_list_is_code(fields, "+"@);
    assert(crate::tokens::is_code(crate::expansion::data_code("u8 ;"@, fields)));
    assert(crate::tokens::is_code(crate::expansion::data_code("0 ;"@, fields)));
    assert(crate::tokens::is_code(crate::expansion::sized("u8 ;"@, fields, "% 8"@)));
    assert(crate::tokens::is_code(crate::expansion::constructor_code(name, fields)));
}

proof fn lemma_checks_are_code()
    ensures
        crate::tokens::is_code(crate::expansion::check_access_code()),
{
    broadcast use crate::tokens::group_code;

    crate::texts::lemma_texts_of_checks();
}

proof fn lemma_bit_methods_are_code()
    ensures
        crate::tokens::is_code(crate::expansion::get_bit_code()),
        crate::tokens::is_code(crate::expansion::set_bit_code()),
{
    broadcast use crate::tokens::group_code;

    crate::texts::lemma_texts_of_bit_methods();
}

proof fn lemma_number_methods_are_code()
    ensures
        crate::tokens::is_code(crate::expansion::get_code()),
        crate::tokens::is_code(crate::expansion::set_code()),
{
    broadcast use crate::tokens::group_code;

    crate::texts::lemma_texts_of_number_methods();
}

proof fn lemma_bits_are_code(name: Seq<Tok>)
    ensures
        crate::tokens::is_code(crate::expansion::bits_code(name)),
{
    broadcast use crate::tokens::group_code;

    crate::texts::lemma_texts_of_frame();
    lemma_checks_are_code();
    lemma_bit_methods_are_code();
    lemma_number_methods_are_code();
}

proof fn lemma_accessor_is_code(fields: Seq<FieldView>, i: int)
    ensures
        crate::tokens::is_code(crate::expansion::accessor_code(fields, i)),
{
    broadcast use crate::tokens::group_code;

    crate::texts::lemma_texts_of_accessors();
    lemma_offset_is_code(fields.take(i));
    assert(crate::tokens::is_code(crate::expansion::getter_code(fields.take(i), fields[i])));
    assert(crate::tokens::is_code(crate::expansion::setter_code(fields.take(i), fields[i])));
}

proof fn lemma_debug_field_is_code(field: FieldView)
    ensures
        crate::tokens::is_code(crate::expansion::debug_field(field)),
{
    broadcast use crate::tokens::group_code;

    crate::texts::lemma_texts_of_debug();
}

proof fn lemma_debug_is_code(name: Seq<char>, name_tokens: Seq<Tok>, fields: Seq<FieldView>)
    ensures
        crate::tokens::is_code(crate::expansion::debug_code(name, name_tokens, fields)),
{
    broadcast use crate::tokens::group_code;

    crate::texts::lemma_texts_of_debug();
    let parts = fields.map_values(|field: FieldView| crate::expansion::debug_field(field));
    assert forall|i: int| 0 <= i < parts.len() implies crate::tokens::is_code(
        #[trigger] parts[i],
    ) by {
        lemma_debug_field_is_code(fields[i]);
    }
    lemma_concat_is_code(parts);
}

proof fn lemma_layout_tests_are_code(fields: Seq<FieldView>)
    ensures
        crate::tokens::is_code(crate::expansion::total_size_test(fields)),
        crate::tokens::is_code(crate::expansion::boundary_test(fields)),
{
    broadcast use crate::tokens::group_code;

    crate::texts::lemma_texts_of_layout_tests();
    lemma_width_list_is_code(fields, "+"@);
    lemma_width_list_is_code(fields, ","@);
    assert(crate::tokens::is_code(crate::expansion::boundary_check()));
}

proof fn lemma_field_test_is_code(name: Seq<Tok>, field: FieldView)
    ensures
        crate::tokens::is_code(crate::expansion::field_test(name, field)),
{
    broadcast use crate::tokens::group_code;

    crate::texts::lemma_texts_of_field_tests();
    assert(crate::tokens::is_code(crate::expansion::read_code(field)));
}

proof fn lemma_tests_are_code(name: Seq<Tok>, fields: Seq<FieldView>)
    ensures
        crate::tokens::is_code(
            crate::expansion::concat_all(crate::expansion::tests_code(name, fields)),
        ),
{
    let tests = crate::expansion::tests_code(name, fields);
    lemma_layout_tests_are_code(fields);
    assert forall|i: int| 0 <= i < tests.len() implies crate::tokens::is_code(
        #[trigger] tests[i],
    ) by {
        if i >= 2 {
            lemma_field_test_is_code(name, fields[i - 2]);
        }
    }
    lemma_concat_is_code(tests);
}

/// The code for a definition is code, whatever the definition: its texts spell out tokens, and
/// every delimiter that is opened is closed again.
pub proof fn law_expansion_is_code(ast: MacroInputView, lowered: Seq<char>)
    ensures
        crate::tokens::is_code(crate::expansion::expansion(ast, lowered)),
{
    broadcast use crate::tokens::group_code;

    crate::texts::lemma_texts_of_frame();
    if ast.generics == 0 {
        if let Ok(fields) = crate::definition::struct_fields(ast.data) {
            lemma_struct_is_code(ast.vis, ast.ident, fields);
            lemma_bits_are_code(ast.ident);
            let methods = crate::expansion::accessors(fields);
            assert forall|i: int| 0 <= i < methods.len() implies crate::tokens::is_code(
                #[trigger] methods[i],
            ) by {
                lemma_accessor_is_code(fields, i);
            }
            lemma_concat_is_code(methods);
            lemma_debug_is_code(ast.name, ast.ident, fields);
            lemma_tests_are_code(ast.ident, fields);
            assert(crate::tokens::is_code(
                crate::expansion::bit_field_code(ast, lowered, fields),
            ));
        }
    }
}

/// Every field has a name of ASCII.
pub open spec fn field_names_ascii(fields: Seq<FieldView>) -> bool {
    forall|i: int|
        0 <= i < fields.len() ==> crate::tokens::all_ascii((#[trigger] fields[i]).name)
}

/// Nothing is left open of codes in a row, where nothing is of any of them.
pub proof fn lemma_concat_certain(codes: Seq<Seq<PieceView>>)
    requires
        forall|i: int|
            0 <= i < codes.len() ==> crate::tokens::all_certain(#[trigger] codes[i]),
    ensures
        crate::tokens::all_certain(crate::expansion::concat_all(codes)),
    decreases codes.len(),
{
    if codes.len() > 0 {
        let before = codes.drop_last();
        assert forall|i: int| 0 <= i < before.len() implies crate::tokens::all_certain(
            #[trigger] before[i],
        ) by {
            assert(before[i] == codes[i]);
        }
        lemma_concat_certain(before);
        assert(crate::tokens::all_certain(codes[codes.len() - 1]));
    }
}

proof fn lemma_width_list_certain(fields: Seq<FieldView>, separator: Seq<char>)
    ensures
        crate::tokens::all_certain(crate::expansion::width_list(fields, separator)),
    decreases fields.len(),
{
    if fields.len() > 1 {
        lemma_width_list_certain(fields.drop_last(), separator);
    }
}

proof fn lemma_offset_certain(fields: Seq<FieldView>)
    ensures
        crate::tokens::all_certain(crate::expansion::offset_code(fields)),
    decreases fields.len(),
{
    if fields.len() > 0 {
        lemma_offset_certain(fields.drop_last());
    }
}

proof fn lemma_prefixed_ascii(name: Seq<char>)
    requires
        crate::tokens::all_ascii(name),
    ensures
        crate::tokens::all_ascii("get_"@ + name),
        crate::tokens::all_ascii("set_"@ + name),
        crate::tokens::all_ascii("test_"@ + name),
{
    reveal_strlit("get_");
    reveal_strlit("set_");
    reveal_strlit("test_");
}

proof fn lemma_struct_certain(vis: Seq<Tok>, name: Seq<Tok>, fields: Seq<FieldView>)
    ensures
        crate::tokens::all_certain(crate::expansion::struct_code(vis, name, fields)),
{
    lemma_width_list_certain(fields, "+"@);
    assert(crate::tokens::all_certain(crate::expansion::data_code("u8 ;"@, fields)));
    assert(crate::tokens::all_certain(crate::expansion::data_code("0 ;"@, fields)));
    assert(crate::tokens::all_certain(crate::expansion::sized("u8 ;"@, fields, "% 8"@)));
    assert(crate::tokens::all_certain(crate::expansion::constructor_code(name, fields)));
}

proof fn lemma_bits_certain(name: Seq<Tok>)
    ensures
        crate::tokens::all_certain(crate::expansion::bits_code(name)),
{
    assert(crate::tokens::all_certain(crate::expansion::check_access_code()));
    assert(crate::tokens::all_certain(crate::expansion::get_bit_code()));
    assert(crate::tokens::all_certain(crate::expansion::set_bit_code()));
    assert(crate::tokens::all_certain(crate::expansion::get_code()));
    assert(crate::tokens::all_certain(crate::expansion::set_code()));
}

proof fn lemma_accessor_certain(fields: Seq<FieldView>, i: int)
    requires
        0 <= i < fields.len(),
        crate::tokens::all_ascii(fields[i].name),
    ensures
        crate::tokens::all_certain(crate::expansion::accessor_code(fields, i)),
{
    lemma_prefixed_ascii(fields[i].name);
    lemma_offset_certain(fields.take(i));
    assert(crate::tokens::all_certain(crate::expansion::getter_code(fields.take(i), fields[i])));
    assert(crate::tokens::all_certain(crate::expansion::setter_code(fields.take(i), fields[i])));
}

proof fn lemma_field_test_certain(name: Seq<Tok>, field: FieldView)
    requires
        crate::tokens::all_ascii(field.name),
    ensures
        crate::tokens::all_certain(crate::expansion::field_test(name, field)),
{
    lemma_prefixed_ascii(field.name);
    assert(crate::tokens::all_certain(crate::expansion::read_code(field)));
}

proof fn lemma_debug_certain(name: Seq<char>, name_tokens: Seq<Tok>, fields: Seq<FieldView>)
    requires
        crate::tokens::is_plain(name),
        crate::expansion::names_extend(fields),
        field_names_ascii(fields),
    ensures
        crate::tokens::all_certain(crate::expansion::debug_code(name, name_tokens, fields)),
{
    let parts = fields.map_values(|field: FieldView| crate::expansion::debug_field(field));
    assert forall|i: int| 0 <= i < parts.len() implies crate::tokens::all_certain(
        #[trigger] parts[i],
    ) by {
        lemma_prefixed_ascii(fields[i].name);
        assert(crate::tokens::is_plain(fields[i].name)) by {
            let text = fields[i].name;
            assert forall|k: int| 0 <= k < text.len() implies ' ' <= #[trigger] text[k] <= '~'
                && text[k] != '"' && text[k] != '\\' by {
                assert(crate::tokens::is_ascii(text[k]));
                assert(crate::tokens::is_word_char(text[k]));
            }
        }
    }
    lemma_concat_certain(parts);
    let body = seq![crate::expansion::text("f . debug_struct"@)] + crate::expansion::parens(seq![PieceView::Str(name)]) + crate::expansion::concat_all(
        parts,
    ) + seq![crate::expansion::text(". finish ( )"@)];
    assert(crate::tokens::all_certain(body));
}

proof fn lemma_tests_certain(name: Seq<Tok>, fields: Seq<FieldView>)
    requires
        field_names_ascii(fields),
    ensures
        crate::tokens::all_certain(crate::expansion::concat_all(crate::expansion::tests_code(name, fields))),
{
    let tests = crate::expansion::tests_code(name, fields);
    lemma_width_list_certain(fields, "+"@);
    lemma_width_list_certain(fields, ","@);
    assert forall|i: int| 0 <= i < tests.len() implies crate::tokens::all_certain(
        #[trigger] tests[i],
    ) by {
        if i >= 2 {
            lemma_field_test_certain(name, fields[i - 2]);
        }
    }
    lemma_concat_certain(tests);
}

proof fn lemma_refusals_certain()
    ensures
        crate::tokens::all_certain(crate::expansion::refusal(NO_GENERICS@)),
        crate::tokens::all_certain(crate::expansion::refusal(NEEDS_NAMED_FIELDS@)),
        crate::tokens::all_certain(crate::expansion::refusal(NEEDS_STRUCT@)),
        crate::tokens::all_certain(crate::expansion::refusal(NAMELESS_FIELD@)),
{
    reveal_strlit("#[bitfield] does not support generic parameters");
    reveal_strlit("Schema must have named fields.");
    reveal_strlit("Schema must be a struct.");
    reveal_strlit("Unknown Error. bit_field_derive library might have a bug.");
}

/// Nothing is left open of the code for a definition whose names are of ASCII.
pub proof fn law_ascii_definition_is_certain(ast: MacroInputView, lowered: Seq<char>)
    requires
        crate::expansion::expandable(ast, lowered),
        crate::tokens::is_plain(ast.name),
        crate::tokens::all_ascii(lowered),
        crate::definition::struct_fields(ast.data) matches Ok(fields) ==> field_names_ascii(
            fields,
        ),
    ensures
        crate::tokens::all_certain(crate::expansion::expansion(ast, lowered)),
{
    lemma_refusals_certain();
    if ast.generics == 0 {
        if let Ok(fields) = crate::definition::struct_fields(ast.data) {
            lemma_struct_certain(ast.vis, ast.ident, fields);
            lemma_bits_certain(ast.ident);
            let methods = crate::expansion::accessors(fields);
            assert forall|i: int| 0 <= i < methods.len() implies crate::tokens::all_certain(
                #[trigger] methods[i],
            ) by {
                lemma_accessor_certain(fields, i);
            }
            lemma_concat_certain(methods);
            lemma_debug_certain(ast.name, ast.ident, fields);
            lemma_tests_certain(ast.ident, fields);
            lemma_prefixed_ascii(lowered);
            assert(crate::tokens::all_certain(crate::expansion::bit_field_code(ast, lowered, fields)));
        }
    }
}

} // verus!
