//! The code generator for bit fields: from a struct definition whose fields name their widths by
//! marker types, the packed struct with its accessors and tests.

use crate::definition::{get_struct_fields, parse_derive_input, Field, MacroInput};
use crate::expansion::{
    FROM_U64, INTO_U64, NO_GENERICS, NO_WIDTH, VALUE_TYPE, WIDTH, WIDTH_AS_USIZE,
};
use crate::tokens::{can_end_ident, owned, Code, Delim, ExpandError, PieceView};
use proc_macro2::TokenStream;
use vstd::prelude::*;

verus! {

/// The pieces of each code.
pub open spec fn code_models(codes: Seq<Code>) -> Seq<Seq<PieceView>> {
    codes.map_values(|code: Code| code@)
}

/// The lowercase equivalent of a character of ASCII.
pub open spec fn ascii_lowercase_char(c: char) -> char {
    if 'A' <= c <= 'Z' {
        (c as int + ('a' as int - 'A' as int)) as char
    } else {
        c
    }
}

/// The lowercase equivalent of a text of ASCII.
pub open spec fn ascii_lowercase(text: Seq<char>) -> Seq<char> {
    Seq::new(text.len(), |i: int| ascii_lowercase_char(text[i]))
}

/// The lowercase equivalent of a text.
pub uninterp spec fn lowercase(text: Seq<char>) -> Seq<char>;

/// `str::to_lowercase`: the lowercase equivalent of the text, as Unicode defines it. Of ASCII, it
/// changes the capital letters alone, each to its small one.
#[verifier::external_body]
fn to_lowercase(text: &str) -> (r: String)
    ensures
        r@ == lowercase(text@),
        crate::tokens::all_ascii(text@) ==> r@ == ascii_lowercase(text@),
{
    text.to_lowercase()
}

/// The name of a type in lower case.
pub open spec fn lowered(name: Seq<char>) -> Seq<char> {
    if crate::tokens::all_ascii(name) {
        ascii_lowercase(name)
    } else {
        lowercase(name)
    }
}

proof fn lemma_prefixed(prefix: Seq<char>, name: Seq<char>)
    requires
        prefix == "get_"@ || prefix == "set_"@ || prefix == "test_"@,
        crate::tokens::may_end_ident(name),
    ensures
        crate::tokens::may_be_ident(prefix + name),
{
    reveal_strlit("get_");
    reveal_strlit("set_");
    reveal_strlit("test_");
    let text = prefix + name;
    assert forall|i: int| 0 <= i < text.len() implies crate::tokens::is_word_char(
        #[trigger] text[i],
    ) || !crate::tokens::is_ascii(text[i]) by {
        if i < prefix.len() {
            assert(text[i] == prefix[i]);
        } else {
            assert(text[i] == name[i - prefix.len()]);
        }
    }
    assert(text[0] == prefix[0]);
}

/// Adds the identifier that begins with the prefix and ends with the name.
fn add_ident(code: &mut Code, prefix: &str, name: &str)
    requires
        old(code).wf(),
        prefix@ == "get_"@ || prefix@ == "set_"@ || prefix@ == "test_"@,
        crate::tokens::may_end_ident(name@),
    ensures
        final(code).wf(),
        final(code)@ == old(code)@.push(crate::expansion::ident(prefix@, name@)),
{
    let mut text = owned(prefix);
    text.append(name);
    proof {
        assert(text@ =~= prefix@ + name@);
        lemma_prefixed(prefix@, name@);
    }
    code.ident(text);
}

/// The code that refuses a definition for the given reason.
fn get_refusal(reason: &str) -> (r: Code)
    ensures
        r.wf(),
        r@ == crate::expansion::refusal(reason@),
{
    let mut message = Code::new();
    message.string(owned(reason));
    assert(message@ =~= seq![PieceView::Str(reason@)]);
    let mut code = Code::new();
    code.text("compile_error !");
    code.group(Delim::Parenthesis, message);
    code.text(";");
    assert(code@ =~= crate::expansion::refusal(reason@));
    code
}

fn add_width(code: &mut Code, field: &Field)
    requires
        old(code).wf(),
    ensures
        final(code).wf(),
        final(code)@ == old(code)@ + crate::expansion::width_code(field.model()),
{
    code.text("<");
    code.tokens(&field.ty);
    code.text(WIDTH_AS_USIZE);
    assert(code@ =~= old(code)@ + crate::expansion::width_code(field.model()));
}

/// The widths of the fields, with a separator between any two.
fn get_width_list(fields: &[Field], separator: &'static str) -> (r: Code)
    ensures
        r.wf(),
        r@ == crate::expansion::width_list(
            crate::definition::field_models(fields@),
            separator@,
        ),
{
    let ghost models = crate::definition::field_models(fields@);
    let mut code = Code::new();
    let mut i: usize = 0;
    assert(code@ =~= crate::expansion::width_list(models.take(0), separator@));
    while i < fields.len()
        invariant
            models == crate::definition::field_models(fields@),
            i <= fields@.len(),
            code.wf(),
            code@ == crate::expansion::width_list(models.take(i as int), separator@),
        decreases fields@.len() - i,
    {
        proof {
            assert(models.take(i + 1).drop_last() =~= models.take(i as int));
            assert(models.take(i + 1).last() == fields@[i as int].model());
        }
        if i > 0 {
            code.text(separator);
        }
        add_width(&mut code, &fields[i]);
        i = i + 1;
        assert(code@ =~= crate::expansion::width_list(models.take(i as int), separator@));
    }
    assert(models.take(i as int) =~= models);
    code
}

/// The offset of the field after the first `count` ones.
fn get_offset(fields: &[Field], count: usize) -> (r: Code)
    requires
        count <= fields@.len(),
    ensures
        r.wf(),
        r@ == crate::expansion::offset_code(
            crate::definition::field_models(fields@).take(count as int),
        ),
{
    let ghost models = crate::definition::field_models(fields@);
    let mut code = Code::new();
    code.text(NO_WIDTH);
    let mut i: usize = 0;
    assert(code@ =~= crate::expansion::offset_code(models.take(0)));
    while i < count
        invariant
            models == crate::definition::field_models(fields@),
            i <= count <= fields@.len(),
            code.wf(),
            code@ == crate::expansion::offset_code(models.take(i as int)),
        decreases count - i,
    {
        proof {
            assert(models.take(i + 1).drop_last() =~= models.take(i as int));
            assert(models.take(i + 1).last() == fields@[i as int].model());
        }
        code.text("+");
        add_width(&mut code, &fields[i]);
        i = i + 1;
        assert(code@ =~= crate::expansion::offset_code(models.take(i as int)));
    }
    code
}

fn add_sized(code: &mut Code, start: &'static str, fields: &[Field], end: &'static str)
    requires
        old(code).wf(),
    ensures
        final(code).wf(),
        final(code)@ == old(code)@ + crate::expansion::sized(
            start@,
            crate::definition::field_models(fields@),
            end@,
        ),
{
    let mut inner = Code::new();
    inner.text(start);
    inner.group(Delim::Parenthesis, get_width_list(fields, "+"));
    inner.text(end);
    assert(inner@ =~= seq![crate::expansion::text(start@)] + crate::expansion::parens(
        crate::expansion::width_list(crate::definition::field_models(fields@), "+"@),
    ) + seq![crate::expansion::text(end@)]);
    code.group(Delim::Bracket, inner);
}

fn get_data(start: &'static str, fields: &[Field]) -> (r: Code)
    ensures
        r.wf(),
        r@ == crate::expansion::data_code(start@, crate::definition::field_models(fields@)),
{
    let mut code = Code::new();
    code.text("data :");
    add_sized(&mut code, start, fields, "/ 8");
    code.text(",");
    assert(code@ =~= crate::expansion::data_code(
        start@,
        crate::definition::field_models(fields@),
    ));
    code
}

fn get_constructor(name: &TokenStream, fields: &[Field]) -> (r: Code)
    ensures
        r.wf(),
        r@ == crate::expansion::constructor_code(
            crate::tokens::stream_tokens(*name),
            crate::definition::field_models(fields@),
        ),
{
    let ghost models = crate::definition::field_models(fields@);
    let ghost name_code = crate::expansion::toks(crate::tokens::stream_tokens(*name));
    let mut body = Code::new();
    body.text("let _ : :: bit_field :: Check <");
    add_sized(&mut body, "u8 ;", fields, "% 8");
    body.text("> ;");
    body.tokens(name);
    body.group(Delim::Brace, get_data("0 ;", fields));
    assert(body@ =~= seq![crate::expansion::text("let _ : :: bit_field :: Check <"@)]
        + crate::expansion::sized("u8 ;"@, models, "% 8"@) + seq![
        crate::expansion::text("> ;"@),
        name_code,
    ] + crate::expansion::braces(crate::expansion::data_code("0 ;"@, models)));
    let mut code = Code::new();
    code.text("pub fn new ( ) ->");
    code.tokens(name);
    code.group(Delim::Brace, body);
    assert(code@ =~= crate::expansion::constructor_code(
        crate::tokens::stream_tokens(*name),
        models,
    ));
    code
}

/// The struct that holds the bits of all fields, and its constructor.
pub fn get_struct_def(vis: &TokenStream, name: &TokenStream, fields: &[Field]) -> (r: Code)
    ensures
        r.wf(),
        r@ == crate::expansion::struct_code(
            crate::tokens::stream_tokens(*vis),
            crate::tokens::stream_tokens(*name),
            crate::definition::field_models(fields@),
        ),
{
    let mut code = Code::new();
    code.text("# [ repr ( C ) ]");
    code.tokens(vis);
    code.text("struct");
    code.tokens(name);
    code.group(Delim::Brace, get_data("u8 ;", fields));
    code.text("impl");
    code.tokens(name);
    code.group(Delim::Brace, get_constructor(name, fields));
    assert(code@ =~= crate::expansion::struct_code(
        crate::tokens::stream_tokens(*vis),
        crate::tokens::stream_tokens(*name),
        crate::definition::field_models(fields@),
    ));
    code
}

/// A method with the given signature and body.
fn add_method(code: &mut Code, signature: &'static str, body: Code)
    requires
        old(code).wf(),
        body.wf(),
    ensures
        final(code).wf(),
        final(code)@ == old(code)@ + crate::expansion::method_code(signature@, body@),
{
    let ghost inner = body@;
    code.text("# [ inline ]");
    code.text(signature);
    code.group(Delim::Brace, body);
    assert(code@ =~= old(code)@ + crate::expansion::method_code(signature@, inner));
}

/// Code of one text.
pub(crate) fn one_text(text: &'static str) -> (r: Code)
    ensures
        r.wf(),
        r@ == seq![crate::expansion::text(text@)],
{
    let mut code = Code::new();
    code.text(text);
    assert(code@ =~= seq![crate::expansion::text(text@)]);
    code
}

fn add_check_access(code: &mut Code)
    requires
        old(code).wf(),
    ensures
        final(code).wf(),
        final(code)@ == old(code)@ + crate::expansion::check_access_code(),
{
    let mut body = Code::new();
    body.text("debug_assert ! ( width <= 64 ) ;");
    body.text("debug_assert ! ( offset / 8 < self . data . len ( ) ) ;");
    body.text("debug_assert ! ( ( offset + ( width as usize ) ) <= ( self . data . len ( ) * 8 ) ) ;");
    assert(body@ =~= seq![
        crate::expansion::text("debug_assert ! ( width <= 64 ) ;"@),
        crate::expansion::text("debug_assert ! ( offset / 8 < self . data . len ( ) ) ;"@),
        crate::expansion::text("debug_assert ! ( ( offset + ( width as usize ) ) <= ( self . data . len ( ) * 8 ) ) ;"@),
    ]);
    add_method(code, "fn check_access ( & self , offset : usize , width : u8 )", body);
}

fn add_get_bit(code: &mut Code)
    requires
        old(code).wf(),
    ensures
        final(code).wf(),
        final(code)@ == old(code)@ + crate::expansion::get_bit_code(),
{
    let mut body = Code::new();
    body.text("self . check_access ( offset , 1 ) ;");
    body.text("let byte_index = offset / 8 ;");
    body.text("let bit_offset = offset % 8 ;");
    body.text("let byte = self . data [ byte_index ] ;");
    body.text("let mask = 1 << bit_offset ;");
    body.text("byte & mask == mask");
    assert(body@ =~= seq![
        crate::expansion::text("self . check_access ( offset , 1 ) ;"@),
        crate::expansion::text("let byte_index = offset / 8 ;"@),
        crate::expansion::text("let bit_offset = offset % 8 ;"@),
        crate::expansion::text("let byte = self . data [ byte_index ] ;"@),
        crate::expansion::text("let mask = 1 << bit_offset ;"@),
        crate::expansion::text("byte & mask == mask"@),
    ]);
    add_method(code, "pub fn get_bit ( & self , offset : usize ) -> bool", body);
}

fn add_set_bit(code: &mut Code)
    requires
        old(code).wf(),
    ensures
        final(code).wf(),
        final(code)@ == old(code)@ + crate::expansion::set_bit_code(),
{
    let mut body = Code::new();
    body.text("self . check_access ( offset , 1 ) ;");
    body.text("let byte_index = offset / 8 ;");
    body.text("let bit_offset = offset % 8 ;");
    body.text("let byte = & mut self . data [ byte_index ] ;");
    body.text("let mask = 1 << bit_offset ;");
    body.text("if val");
    body.group(Delim::Brace, one_text("* byte |= mask ;"));
    body.text("else");
    body.group(Delim::Brace, one_text("* byte &= ! mask ;"));
    assert(body@ =~= seq![
        crate::expansion::text("self . check_access ( offset , 1 ) ;"@),
        crate::expansion::text("let byte_index = offset / 8 ;"@),
        crate::expansion::text("let bit_offset = offset % 8 ;"@),
        crate::expansion::text("let byte = & mut self . data [ byte_index ] ;"@),
        crate::expansion::text("let mask = 1 << bit_offset ;"@),
        crate::expansion::text("if val"@),
    ] + crate::expansion::braces(seq![crate::expansion::text("* byte |= mask ;"@)]) + seq![crate::expansion::text("else"@)]
        + crate::expansion::braces(seq![crate::expansion::text("* byte &= ! mask ;"@)]));
    add_method(code, "pub fn set_bit ( & mut self , offset : usize , val : bool )", body);
}

fn add_get(code: &mut Code)
    requires
        old(code).wf(),
    ensures
        final(code).wf(),
        final(code)@ == old(code)@ + crate::expansion::get_code(),
{
    let mut each = Code::new();
    each.text("if self . get_bit ( i + offset )");
    each.group(Delim::Brace, one_text("val |= 1 << i ;"));
    let ghost each_code = seq![crate::expansion::text("if self . get_bit ( i + offset )"@)] + crate::expansion::braces(
        seq![crate::expansion::text("val |= 1 << i ;"@)],
    );
    assert(each@ =~= each_code);
    let mut body = Code::new();
    body.text("self . check_access ( offset , width ) ;");
    body.text("let mut val = 0 ;");
    body.text("for i in 0 .. ( width as usize )");
    body.group(Delim::Brace, each);
    body.text("val");
    assert(body@ =~= seq![
        crate::expansion::text("self . check_access ( offset , width ) ;"@),
        crate::expansion::text("let mut val = 0 ;"@),
        crate::expansion::text("for i in 0 .. ( width as usize )"@),
    ] + crate::expansion::braces(each_code) + seq![crate::expansion::text("val"@)]);
    add_method(code, "pub fn get ( & self , offset : usize , width : u8 ) -> u64", body);
}

fn add_set(code: &mut Code)
    requires
        old(code).wf(),
    ensures
        final(code).wf(),
        final(code)@ == old(code)@ + crate::expansion::set_code(),
{
    let mut each = Code::new();
    each.text("let mask = 1 << i ;");
    each.text("let val_bit_is_set = val & mask == mask ;");
    each.text("self . set_bit ( i + offset , val_bit_is_set ) ;");
    let ghost each_code = seq![
        crate::expansion::text("let mask = 1 << i ;"@),
        crate::expansion::text("let val_bit_is_set = val & mask == mask ;"@),
        crate::expansion::text("self . set_bit ( i + offset , val_bit_is_set ) ;"@),
    ];
    assert(each@ =~= each_code);
    let mut body = Code::new();
    body.text("self . check_access ( offset , width ) ;");
    body.text("for i in 0 .. ( width as usize )");
    body.group(Delim::Brace, each);
    assert(body@ =~= seq![
        crate::expansion::text("self . check_access ( offset , width ) ;"@),
        crate::expansion::text("for i in 0 .. ( width as usize )"@),
    ] + crate::expansion::braces(each_code));
    add_method(
        code,
        "pub fn set ( & mut self , offset : usize , width : u8 , val : u64 )",
        body,
    );
}

/// The methods that read and write bits.
pub fn get_bits_impl(name: &TokenStream) -> (r: Code)
    ensures
        r.wf(),
        r@ == crate::expansion::bits_code(crate::tokens::stream_tokens(*name)),
{
    let mut methods = Code::new();
    add_check_access(&mut methods);
    add_get_bit(&mut methods);
    add_set_bit(&mut methods);
    add_get(&mut methods);
    add_set(&mut methods);
    assert(methods@ =~= crate::expansion::check_access_code() + crate::expansion::get_bit_code()
        + crate::expansion::set_bit_code() + crate::expansion::get_code()
        + crate::expansion::set_code());
    let mut code = Code::new();
    code.text("impl");
    code.tokens(name);
    code.group(Delim::Brace, methods);
    assert(code@ =~= crate::expansion::bits_code(crate::tokens::stream_tokens(*name)));
    code
}

fn add_max(code: &mut Code, start: &'static str, ty: &TokenStream)
    requires
        old(code).wf(),
    ensures
        final(code).wf(),
        final(code)@ == old(code)@ + crate::expansion::max_code(
            start@,
            crate::expansion::toks(crate::tokens::stream_tokens(*ty)),
        ),
{
    let mut inner = Code::new();
    inner.text(start);
    inner.tokens(ty);
    inner.text("> ( )");
    assert(inner@ =~= seq![
        crate::expansion::text(start@),
        crate::expansion::toks(crate::tokens::stream_tokens(*ty)),
        crate::expansion::text("> ( )"@),
    ]);
    code.group(Delim::Parenthesis, inner);
}

fn get_getter(fields: &[Field], i: usize) -> (r: Code)
    requires
        i < fields@.len(),
        crate::tokens::may_end_ident(fields@[i as int].name@),
    ensures
        r.wf(),
        r@ == crate::expansion::getter_code(
            crate::definition::field_models(fields@).take(i as int),
            fields@[i as int].model(),
        ),
{
    let field = &fields[i];
    let ghost before = crate::definition::field_models(fields@).take(i as int);
    let ghost ty = crate::expansion::toks(crate::tokens::stream_tokens(field.ty));
    let mut args = Code::new();
    args.text("offset , <");
    args.tokens(&field.ty);
    args.text(WIDTH);
    let ghost args_code = seq![
        crate::expansion::text("offset , <"@),
        ty,
        crate::expansion::text(WIDTH@),
    ];
    assert(args@ =~= args_code);
    let mut body = Code::new();
    body.text("let offset =");
    body.append(get_offset(fields, i));
    body.text("; let val = self . get");
    body.group(Delim::Parenthesis, args);
    body.text("; <");
    body.tokens(&field.ty);
    body.text(FROM_U64);
    body.text("( val )");
    assert(body@ =~= seq![crate::expansion::text("let offset ="@)] + crate::expansion::offset_code(
        before,
    ) + seq![crate::expansion::text("; let val = self . get"@)] + crate::expansion::parens(args_code)
        + seq![
        crate::expansion::text("; <"@),
        ty,
        crate::expansion::text(FROM_U64@),
        crate::expansion::text("( val )"@),
    ]);
    let mut code = Code::new();
    code.text("pub fn");
    add_ident(&mut code, "get_", field.name.as_str());
    code.text("( & self ) -> <");
    code.tokens(&field.ty);
    code.text(VALUE_TYPE);
    code.group(Delim::Brace, body);
    assert(code@ =~= crate::expansion::getter_code(before, field.model()));
    code
}

fn get_setter(fields: &[Field], i: usize) -> (r: Code)
    requires
        i < fields@.len(),
        crate::tokens::may_end_ident(fields@[i as int].name@),
    ensures
        r.wf(),
        r@ == crate::expansion::setter_code(
            crate::definition::field_models(fields@).take(i as int),
            fields@[i as int].model(),
        ),
{
    let field = &fields[i];
    let ghost before = crate::definition::field_models(fields@).take(i as int);
    let ghost ty = crate::expansion::toks(crate::tokens::stream_tokens(field.ty));
    let mut params = Code::new();
    params.text("& mut self , val : <");
    params.tokens(&field.ty);
    params.text(VALUE_TYPE);
    let ghost params_code = seq![
        crate::expansion::text("& mut self , val : <"@),
        ty,
        crate::expansion::text(VALUE_TYPE@),
    ];
    assert(params@ =~= params_code);
    let mut args = Code::new();
    args.text("offset , <");
    args.tokens(&field.ty);
    args.text(WIDTH);
    args.text(", val");
    let ghost args_code = seq![
        crate::expansion::text("offset , <"@),
        ty,
        crate::expansion::text(WIDTH@),
        crate::expansion::text(", val"@),
    ];
    assert(args@ =~= args_code);
    let mut body = Code::new();
    body.text("let val = <");
    body.tokens(&field.ty);
    body.text(INTO_U64);
    body.text("( val ) ; debug_assert !");
    add_max(&mut body, "val <= :: bit_field :: max :: <", &field.ty);
    body.text("; let offset =");
    body.append(get_offset(fields, i));
    body.text("; self . set");
    body.group(Delim::Parenthesis, args);
    assert(body@ =~= seq![
        crate::expansion::text("let val = <"@),
        ty,
        crate::expansion::text(INTO_U64@),
        crate::expansion::text("( val ) ; debug_assert !"@),
    ] + crate::expansion::max_code("val <= :: bit_field :: max :: <"@, ty) + seq![
        crate::expansion::text("; let offset ="@),
    ] + crate::expansion::offset_code(before) + seq![crate::expansion::text("; self . set"@)]
        + crate::expansion::parens(args_code));
    let mut code = Code::new();
    code.text("pub fn");
    add_ident(&mut code, "set_", field.name.as_str());
    code.group(Delim::Parenthesis, params);
    code.group(Delim::Brace, body);
    assert(code@ =~= crate::expansion::setter_code(before, field.model()));
    code
}

/// The methods that read and write the fields, field by field.
pub fn get_fields_impl(fields: &[Field]) -> (r: Vec<Code>)
    requires
        crate::expansion::names_extend(crate::definition::field_models(fields@)),
    ensures
        forall|i: int| 0 <= i < r@.len() ==> (#[trigger] r@[i]).wf(),
        code_models(r@) == crate::expansion::accessors(crate::definition::field_models(fields@)),
        r@.len() == fields@.len(),
        forall|i: int|
            0 <= i < r@.len() ==> (#[trigger] r@[i])@ == crate::expansion::accessors(
                crate::definition::field_models(fields@),
            )[i],
{
    let ghost models = crate::definition::field_models(fields@);
    let mut impls: Vec<Code> = Vec::new();
    while impls.len() < fields.len()
        invariant
            models == crate::definition::field_models(fields@),
            crate::expansion::names_extend(models),
            impls@.len() <= fields@.len(),
            forall|i: int| 0 <= i < impls@.len() ==> (#[trigger] impls@[i]).wf(),
            forall|i: int|
                0 <= i < impls@.len() ==> (#[trigger] impls@[i])@
                    == crate::expansion::accessor_code(models, i),
        decreases fields@.len() - impls@.len(),
    {
        let i: usize = impls.len();
        assert(models[i as int] == fields@[i as int].model());
        let mut code = get_getter(fields, i);
        code.append(get_setter(fields, i));
        impls.push(code);
    }
    assert(code_models(impls@) =~= crate::expansion::accessors(models));
    impls
}

fn get_debug_field(field: &Field) -> (r: Code)
    requires
        crate::tokens::may_end_ident(field.name@),
    ensures
        r.wf(),
        r@ == crate::expansion::debug_field(field.model()),
{
    let mut args = Code::new();
    args.string(owned(field.name.as_str()));
    args.text(", & self .");
    add_ident(&mut args, "get_", field.name.as_str());
    args.text("( )");
    assert(args@ =~= seq![
        PieceView::Str(field.name@),
        crate::expansion::text(", & self ."@),
        crate::expansion::ident("get_"@, field.name@),
        crate::expansion::text("( )"@),
    ]);
    let mut code = Code::new();
    code.text(". field");
    code.group(Delim::Parenthesis, args);
    assert(code@ =~= crate::expansion::debug_field(field.model()));
    code
}

fn get_debug_fields(fields: &[Field]) -> (r: Code)
    requires
        crate::expansion::names_extend(crate::definition::field_models(fields@)),
    ensures
        r.wf(),
        r@ == crate::expansion::concat_all(
            crate::definition::field_models(fields@).map_values(
                |field| crate::expansion::debug_field(field),
            ),
        ),
{
    let ghost models = crate::definition::field_models(fields@);
    let ghost parts = models.map_values(|field| crate::expansion::debug_field(field));
    let mut code = Code::new();
    let mut i: usize = 0;
    assert(code@ =~= crate::expansion::concat_all(parts.take(0)));
    while i < fields.len()
        invariant
            models == crate::definition::field_models(fields@),
            parts == models.map_values(|field| crate::expansion::debug_field(field)),
            crate::expansion::names_extend(models),
            i <= fields@.len(),
            code.wf(),
            code@ == crate::expansion::concat_all(parts.take(i as int)),
        decreases fields@.len() - i,
    {
        proof {
            assert(models[i as int] == fields@[i as int].model());
            assert(parts.take(i + 1).drop_last() =~= parts.take(i as int));
            assert(parts.take(i + 1).last() == crate::expansion::debug_field(models[i as int]));
        }
        code.append(get_debug_field(&fields[i]));
        i = i + 1;
    }
    assert(parts.take(i as int) =~= parts);
    code
}

/// The debugging output: the name of the struct, and each field with its value.
pub fn get_debug_fmt_impl(name: &str, name_tokens: &TokenStream, fields: &[Field]) -> (r: Code)
    requires
        crate::expansion::names_extend(crate::definition::field_models(fields@)),
    ensures
        r.wf(),
        r@ == crate::expansion::debug_code(
            name@,
            crate::tokens::stream_tokens(*name_tokens),
            crate::definition::field_models(fields@),
        ),
{
    let ghost models = crate::definition::field_models(fields@);
    let ghost parts = models.map_values(|field| crate::expansion::debug_field(field));
    let mut title = Code::new();
    title.string(owned(name));
    assert(title@ =~= seq![PieceView::Str(name@)]);
    let mut body = Code::new();
    body.text("f . debug_struct");
    body.group(Delim::Parenthesis, title);
    body.append(get_debug_fields(fields));
    body.text(". finish ( )");
    let ghost body_code = seq![crate::expansion::text("f . debug_struct"@)]
        + crate::expansion::parens(seq![PieceView::Str(name@)]) + crate::expansion::concat_all(
        parts,
    ) + seq![crate::expansion::text(". finish ( )"@)];
    assert(body@ =~= body_code);
    let mut method = Code::new();
    method.text("fn fmt ( & self , f : & mut std :: fmt :: Formatter ) -> std :: fmt :: Result");
    method.group(Delim::Brace, body);
    assert(method@ =~= seq![
        crate::expansion::text(
            "fn fmt ( & self , f : & mut std :: fmt :: Formatter ) -> std :: fmt :: Result"@,
        ),
    ] + crate::expansion::braces(body_code));
    let mut code = Code::new();
    code.text("impl std :: fmt :: Debug for");
    code.tokens(name_tokens);
    code.group(Delim::Brace, method);
    assert(code@ =~= crate::expansion::debug_code(
        name@,
        crate::tokens::stream_tokens(*name_tokens),
        models,
    ));
    code
}

fn get_total_size_test(fields: &[Field]) -> (r: Code)
    ensures
        r.wf(),
        r@ == crate::expansion::total_size_test(crate::definition::field_models(fields@)),
{
    let ghost models = crate::definition::field_models(fields@);
    let mut body = Code::new();
    body.text("let total_size =");
    body.append(get_width_list(fields, "+"));
    body.text("; assert_eq ! ( total_size % 8 , 0 ) ;");
    assert(body@ =~= seq![crate::expansion::text("let total_size ="@)]
        + crate::expansion::width_list(models, "+"@) + seq![
        crate::expansion::text("; assert_eq ! ( total_size % 8 , 0 ) ;"@),
    ]);
    let mut code = Code::new();
    code.text("# [ test ] fn test_total_size ( )");
    code.group(Delim::Brace, body);
    assert(code@ =~= crate::expansion::total_size_test(models));
    code
}

fn get_boundary_check() -> (r: Code)
    ensures
        r.wf(),
        r@ == crate::expansion::boundary_check(),
{
    let mut otherwise = Code::new();
    otherwise.text("if ( sum + s ) % 64 != 0");
    otherwise.group(Delim::Brace, one_text("assert_eq ! ( sum / 64 , ( sum + s ) / 64 ) ;"));
    assert(otherwise@ =~= seq![crate::expansion::text("if ( sum + s ) % 64 != 0"@)]
        + crate::expansion::braces(
        seq![crate::expansion::text("assert_eq ! ( sum / 64 , ( sum + s ) / 64 ) ;"@)],
    ));
    let mut code = Code::new();
    code.text("if sum % 64 == 0");
    code.group(Delim::Brace, one_text("assert ! ( s <= 64 ) ;"));
    code.text("else");
    code.group(Delim::Brace, otherwise);
    code.text("sum += s ;");
    assert(code@ =~= crate::expansion::boundary_check());
    code
}

fn get_boundary_test(fields: &[Field]) -> (r: Code)
    ensures
        r.wf(),
        r@ == crate::expansion::boundary_test(crate::definition::field_models(fields@)),
{
    let ghost models = crate::definition::field_models(fields@);
    let mut body = Code::new();
    body.text("let fields_sizes = vec !");
    body.group(Delim::Bracket, get_width_list(fields, ","));
    body.text("; let mut sum =");
    body.size(0);
    body.text("; for s in fields_sizes");
    body.group(Delim::Brace, get_boundary_check());
    assert(body@ =~= seq![crate::expansion::text("let fields_sizes = vec !"@)]
        + crate::expansion::brackets(crate::expansion::width_list(models, ","@)) + seq![
        crate::expansion::text("; let mut sum ="@),
        PieceView::Size(0),
        crate::expansion::text("; for s in fields_sizes"@),
    ] + crate::expansion::braces(crate::expansion::boundary_check()));
    let mut code = Code::new();
    code.text("# [ test ] fn test_bits_boundary ( )");
    code.group(Delim::Brace, body);
    assert(code@ =~= crate::expansion::boundary_test(models));
    code
}

fn add_read(code: &mut Code, field: &Field)
    requires
        old(code).wf(),
        crate::tokens::may_end_ident(field.name@),
    ensures
        final(code).wf(),
        final(code)@ == old(code)@ + crate::expansion::read_code(field.model()),
{
    let mut value = Code::new();
    value.text("a .");
    add_ident(&mut value, "get_", field.name.as_str());
    value.text("( )");
    assert(value@ =~= seq![
        crate::expansion::text("a ."@),
        crate::expansion::ident("get_"@, field.name@),
        crate::expansion::text("( )"@),
    ]);
    code.text("let val = <");
    code.tokens(&field.ty);
    code.text(INTO_U64);
    code.group(Delim::Parenthesis, value);
    assert(code@ =~= old(code)@ + crate::expansion::read_code(field.model()));
}

fn get_field_test(name: &TokenStream, field: &Field) -> (r: Code)
    requires
        crate::tokens::may_end_ident(field.name@),
    ensures
        r.wf(),
        r@ == crate::expansion::field_test(crate::tokens::stream_tokens(*name), field.model()),
{
    let ghost ty = crate::expansion::toks(crate::tokens::stream_tokens(field.ty));
    let mut body = Code::new();
    body.text("let mut a =");
    body.tokens(name);
    body.text(":: new ( ) ;");
    add_read(&mut body, field);
    body.text("; assert_eq ! ( val , 0 ) ; let val = <");
    body.tokens(&field.ty);
    body.text(FROM_U64);
    add_max(&mut body, ":: bit_field :: max :: <", &field.ty);
    body.text("; a .");
    add_ident(&mut body, "set_", field.name.as_str());
    body.text("( val ) ;");
    add_read(&mut body, field);
    body.text("; assert_eq !");
    add_max(&mut body, "val , :: bit_field :: max :: <", &field.ty);
    body.text(";");
    assert(body@ =~= seq![
        crate::expansion::text("let mut a ="@),
        crate::expansion::toks(crate::tokens::stream_tokens(*name)),
        crate::expansion::text(":: new ( ) ;"@),
    ] + crate::expansion::read_code(field.model()) + seq![
        crate::expansion::text("; assert_eq ! ( val , 0 ) ; let val = <"@),
        ty,
        crate::expansion::text(FROM_U64@),
    ] + crate::expansion::max_code(":: bit_field :: max :: <"@, ty) + seq![
        crate::expansion::text("; a ."@),
        crate::expansion::ident("set_"@, field.name@),
        crate::expansion::text("( val ) ;"@),
    ] + crate::expansion::read_code(field.model()) + seq![
        crate::expansion::text("; assert_eq !"@),
    ] + crate::expansion::max_code("val , :: bit_field :: max :: <"@, ty) + seq![
        crate::expansion::text(";"@),
    ]);
    let mut code = Code::new();
    code.text("# [ test ] fn");
    add_ident(&mut code, "test_", field.name.as_str());
    code.text("( )");
    code.group(Delim::Brace, body);
    assert(code@ =~= crate::expansion::field_test(
        crate::tokens::stream_tokens(*name),
        field.model(),
    ));
    code
}

/// The tests: the two on the layout, and one for each field.
pub fn get_tests_impl(name: &TokenStream, fields: &[Field]) -> (r: Vec<Code>)
    requires
        crate::expansion::names_extend(crate::definition::field_models(fields@)),
    ensures
        forall|i: int| 0 <= i < r@.len() ==> (#[trigger] r@[i]).wf(),
        code_models(r@) == crate::expansion::tests_code(
            crate::tokens::stream_tokens(*name),
            crate::definition::field_models(fields@),
        ),
        r@.len() == fields@.len() + 2,
        forall|i: int|
            0 <= i < r@.len() ==> (#[trigger] r@[i])@ == crate::expansion::tests_code(
                crate::tokens::stream_tokens(*name),
                crate::definition::field_models(fields@),
            )[i],
{
    let ghost models = crate::definition::field_models(fields@);
    let ghost expected = crate::expansion::tests_code(
        crate::tokens::stream_tokens(*name),
        models,
    );
    let mut impls: Vec<Code> = Vec::new();
    impls.push(get_total_size_test(fields));
    impls.push(get_boundary_test(fields));
    let mut i: usize = 0;
    while i < fields.len()
        invariant
            models == crate::definition::field_models(fields@),
            expected == crate::expansion::tests_code(
                crate::tokens::stream_tokens(*name),
                models,
            ),
            crate::expansion::names_extend(models),
            i <= fields@.len(),
            impls@.len() == i + 2,
            forall|j: int| 0 <= j < impls@.len() ==> (#[trigger] impls@[j]).wf(),
            forall|j: int| 0 <= j < impls@.len() ==> (#[trigger] impls@[j])@ == expected[j],
        decreases fields@.len() - i,
    {
        assert(models[i as int] == fields@[i as int].model());
        impls.push(get_field_test(name, &fields[i]));
        i = i + 1;
    }
    assert(code_models(impls@) =~= expected);
    impls
}

/// All of the code in a row.
fn concat_codes(codes: Vec<Code>) -> (r: Code)
    requires
        forall|i: int| 0 <= i < codes@.len() ==> (#[trigger] codes@[i]).wf(),
    ensures
        r.wf(),
        r@ == crate::expansion::concat_all(code_models(codes@)),
{
    let ghost models = code_models(codes@);
    let mut rest = codes;
    let mut r = Code::new();
    assert(models.skip(models.len() as int) =~= Seq::<Seq<PieceView>>::empty());
    assert(r@ =~= crate::expansion::concat_all(models.skip(models.len() as int)));
    loop
        invariant
            rest@.len() <= models.len(),
            code_models(rest@) == models.take(rest@.len() as int),
            forall|i: int| 0 <= i < rest@.len() ==> (#[trigger] rest@[i]).wf(),
            r.wf(),
            r@ == crate::expansion::concat_all(models.skip(rest@.len() as int)),
        ensures
            rest@.len() == 0,
        decreases rest@.len(),
    {
        let ghost before = rest@;
        match rest.pop() {
            None => break,
            Some(code) => {
                let mut code = code;
                proof {
                    let n = rest@.len() as int;
                    assert(code@ == models[n]) by {
                        assert(code_models(before)[n] == code@);
                    }
                    lemma_concat_front(models.skip(n));
                    assert(models.skip(n).drop_first() =~= models.skip(n + 1));
                    assert(code_models(rest@) =~= models.take(n));
                }
                code.append(r);
                r = code;
            },
        }
    }
    assert(models.skip(0) =~= models);
    r
}

proof fn lemma_concat_front(codes: Seq<Seq<PieceView>>)
    requires
        codes.len() > 0,
    ensures
        crate::expansion::concat_all(codes) == codes[0] + crate::expansion::concat_all(
            codes.drop_first(),
        ),
    decreases codes.len(),
{
    if codes.len() == 1 {
        assert(codes.drop_last() =~= Seq::<Seq<PieceView>>::empty());
        assert(codes.drop_first() =~= Seq::<Seq<PieceView>>::empty());
        assert(crate::expansion::concat_all(codes.drop_last()) + codes.last() =~= codes[0]
            + crate::expansion::concat_all(codes.drop_first()));
    } else {
        let middle = codes.drop_first().drop_last();
        lemma_concat_front(codes.drop_last());
        assert(codes.drop_last().drop_first() =~= middle);
        assert(codes.drop_first().last() == codes.last());
        assert((codes[0] + crate::expansion::concat_all(middle)) + codes.last() =~= codes[0] + (
        crate::expansion::concat_all(middle) + codes.last()));
    }
}

/// Whether no character of ASCII keeps a name that the code for the definition needs from being an
/// identifier. `lowered` is the name of the type in lower case.
pub fn is_expandable(ast: &MacroInput, lowered: &str) -> (r: bool)
    ensures
        r == crate::expansion::expandable(ast.model(), lowered@),
{
    if ast.generics > 0 {
        return true;
    }
    if !can_end_ident(lowered) {
        return false;
    }
    let fields = match get_struct_fields(ast) {
        Ok(fields) => fields,
        Err(_) => return true,
    };
    let ghost models = crate::definition::field_models(fields@);
    let ghost found = crate::definition::struct_fields(ast.model().data);
    let mut i: usize = 0;
    while i < fields.len()
        invariant
            models == crate::definition::field_models(fields@),
            found == crate::definition::struct_fields(ast.model().data),
            found is Ok && found->Ok_0 == models,
            ast.generics == 0,
            crate::tokens::may_end_ident(lowered@),
            i <= fields@.len(),
            forall|j: int|
                0 <= j < i ==> crate::tokens::may_end_ident((#[trigger] models[j]).name),
        decreases fields@.len() - i,
    {
        assert(models[i as int] == fields@[i as int].model());
        if !can_end_ident(fields[i].name.as_str()) {
            assert(!crate::expansion::names_extend(models));
            return false;
        }
        i = i + 1;
    }
    true
}

/// The code for a definition. `lowered` is the name of the type in lower case.
#[verifier::rlimit(40)]
pub fn expand(ast: &MacroInput, lowered: &str) -> (r: Code)
    requires
        crate::expansion::expandable(ast.model(), lowered@),
    ensures
        r.wf(),
        r@ == crate::expansion::expansion(ast.model(), lowered@),
{
    if ast.generics > 0 {
        return get_refusal(NO_GENERICS);
    }
    let fields = match get_struct_fields(ast) {
        Ok(fields) => fields,
        Err(reason) => return get_refusal(reason.as_str()),
    };
    let ghost models = crate::definition::field_models(fields@);
    let mut code = Code::new();
    code.tokens(&ast.attrs);
    code.append(get_struct_def(&ast.vis, &ast.ident, &fields));
    code.append(get_bits_impl(&ast.ident));
    code.text("impl");
    code.tokens(&ast.ident);
    code.group(Delim::Brace, concat_codes(get_fields_impl(&fields)));
    code.append(get_debug_fmt_impl(ast.name.as_str(), &ast.ident, &fields));
    code.text("# [ cfg ( test ) ] mod");
    add_ident(&mut code, "test_", lowered);
    let mut tests = Code::new();
    tests.text("use super :: * ;");
    tests.append(concat_codes(get_tests_impl(&ast.ident, &fields)));
    assert(tests@ =~= seq![crate::expansion::text("use super :: * ;"@)]
        + crate::expansion::concat_all(
        crate::expansion::tests_code(crate::tokens::stream_tokens(ast.ident), models),
    ));
    code.group(Delim::Brace, tests);
    assert(code@ =~= crate::expansion::bit_field_code(ast.model(), lowered@, models));
    code
}

/// `r` is the code for the definition, or the error where that needs a name that is none.
pub open spec fn is_code_for(
    ast: crate::definition::MacroInputView,
    r: Result<Code, ExpandError>,
) -> bool {
    if crate::expansion::expandable(ast, lowered(ast.name)) {
        &&& r is Ok
        &&& r->Ok_0.wf()
        &&& r->Ok_0@ == crate::expansion::expansion(ast, lowered(ast.name))
    } else {
        r is Err && r->Err_0 == ExpandError::NotIdentifier
    }
}

/// The code for a definition.
pub fn bitfield_impl(ast: &MacroInput) -> (r: Result<Code, ExpandError>)
    ensures
        is_code_for(ast.model(), r),
{
    let lowered = to_lowercase(ast.name.as_str());
    if is_expandable(ast, lowered.as_str()) {
        Ok(expand(ast, lowered.as_str()))
    } else {
        Err(ExpandError::NotIdentifier)
    }
}

/// `r` is what a definition, or the report that there is none, is replaced by.
pub open spec fn is_replacement(
    parsed: Result<crate::definition::MacroInputView, Seq<crate::tokens::Tok>>,
    r: Result<TokenStream, ExpandError>,
) -> bool {
    match parsed {
        Err(report) => r is Ok && crate::tokens::stream_tokens(r->Ok_0) == report,
        Ok(ast) => if crate::expansion::expandable(ast, lowered(ast.name)) {
            crate::tokens::is_rendered(crate::expansion::expansion(ast, lowered(ast.name)), r)
        } else {
            r is Err && r->Err_0 == ExpandError::NotIdentifier
        },
    }
}

/// What a definition, or the report that there is none, is replaced by.
pub fn replace(parsed: Result<MacroInput, TokenStream>) -> (r: Result<TokenStream, ExpandError>)
    ensures
        is_replacement(crate::definition::parsed_model(parsed), r),
{
    match parsed {
        Err(report) => Ok(report),
        Ok(ast) => match bitfield_impl(&ast) {
            Ok(code) => {
                proof {
                    crate::expansion_laws::law_expansion_is_code(
                        ast.model(),
                        lowered(ast.name@),
                    );
                }
                code.into_stream()
            },
            Err(error) => Err(error),
        },
    }
}

/// The function that derives the actual implementation: the code for the definition in `input`.
/// Where there is no definition, the code reports that.
pub fn bitfield(_args: TokenStream, input: TokenStream) -> (r: Result<TokenStream, ExpandError>)
    ensures
        is_replacement(
            crate::definition::derive_input(crate::tokens::stream_tokens(input)),
            r,
        ),
{
    replace(parse_derive_input(input))
}

/// A definition whose names are of ASCII, and hold nothing that an identifier cannot, is never
/// refused for a name, and nothing is left open of the code for it.
pub proof fn law_ascii_definition_expands(ast: crate::definition::MacroInputView)
    requires
        crate::tokens::all_ascii(ast.name),
        crate::tokens::may_end_ident(ast.name),
        crate::definition::struct_fields(ast.data) matches Ok(fields)
            ==> crate::expansion_laws::field_names_ascii(fields) && crate::expansion::names_extend(
            fields,
        ),
    ensures
        lowered(ast.name) == ascii_lowercase(ast.name),
        crate::expansion::expandable(ast, lowered(ast.name)),
        crate::tokens::all_certain(crate::expansion::expansion(ast, lowered(ast.name))),
{
    let name = ast.name;
    let small = ascii_lowercase(name);
    assert forall|i: int| 0 <= i < name.len() implies crate::tokens::is_word_char(
        #[trigger] name[i],
    ) by {
        assert(crate::tokens::is_ascii(name[i]));
    }
    assert forall|i: int| 0 <= i < small.len() implies crate::tokens::is_word_char(
        #[trigger] small[i],
    ) && crate::tokens::is_ascii(small[i]) by {
        assert(crate::tokens::is_word_char(name[i]));
    }
    assert(crate::tokens::is_plain(name));
    crate::expansion_laws::law_ascii_definition_is_certain(ast, small);
}

/// A text of ASCII in lower case has a small letter wherever it had a capital one, and is the same
/// everywhere else.
pub proof fn law_lower_case(text: Seq<char>)
    requires
        forall|i: int| 0 <= i < text.len() ==> (#[trigger] text[i] as int) < 128,
    ensures
        lowered(text).len() == text.len(),
        forall|i: int|
            0 <= i < text.len() ==> (#[trigger] lowered(text)[i]) as int == if 65 <= (
            text[i] as int) <= 90 {
                text[i] as int + 32
            } else {
                text[i] as int
            },
{
    assert forall|i: int| 0 <= i < text.len() implies crate::tokens::is_ascii(#[trigger] text[i]) by {
        assert((text[i] as int) < 128);
    }
    assert(crate::tokens::all_ascii(text));
}

/// Code is owed for every definition with generic parameters, and for every other one whose names,
/// that of the type in lower case and those of its fields, hold no character of ASCII but letters,
/// digits and underscores. For any other definition there is none.
pub proof fn law_when_code_is_owed(
    ast: crate::definition::MacroInputView,
    r: Result<Code, ExpandError>,
)
    requires
        is_code_for(ast, r),
    ensures
        r is Ok <==> (ast.generics > 0 || (crate::tokens::may_end_ident(lowered(ast.name)) && (
        crate::definition::struct_fields(ast.data) is Ok ==> forall|i: int|
            0 <= i < crate::definition::struct_fields(ast.data)->Ok_0.len()
                ==> crate::tokens::may_end_ident(
                (#[trigger] crate::definition::struct_fields(ast.data)->Ok_0[i]).name,
            )))),
        r is Ok ==> r->Ok_0@ == crate::expansion::expansion(ast, lowered(ast.name)),
        r matches Err(error) ==> error == ExpandError::NotIdentifier,
{
}

/// A report that there is no definition is handed back as it is.
pub proof fn law_report_is_handed_back(
    report: Seq<crate::tokens::Tok>,
    r: Result<TokenStream, ExpandError>,
)
    requires
        is_replacement(Err(report), r),
    ensures
        r is Ok,
        crate::tokens::stream_tokens(r->Ok_0) == report,
{
}

/// A definition is replaced by the tokens of the code for it: by just those, where its names are of
/// ASCII.
pub proof fn law_definition_is_replaced_by_its_code(
    ast: crate::definition::MacroInputView,
    r: Result<TokenStream, ExpandError>,
)
    requires
        is_replacement(Ok(ast), r),
    ensures
        r matches Ok(stream) ==> crate::tokens::is_rendering(
            crate::tokens::flat(crate::expansion::expansion(ast, lowered(ast.name)))->0,
            crate::tokens::stream_tokens(stream),
        ),
        r matches Err(error) ==> error == ExpandError::NotIdentifier,
        ({
            &&& crate::tokens::all_ascii(ast.name)
            &&& crate::tokens::may_end_ident(ast.name)
            &&& crate::definition::struct_fields(ast.data) matches Ok(fields)
                ==> crate::expansion_laws::field_names_ascii(fields)
                && crate::expansion::names_extend(fields)
        }) ==> r is Ok && crate::tokens::stream_tokens(r->Ok_0) == crate::tokens::exact_tokens(
            crate::expansion::expansion(ast, lowered(ast.name)),
        ),
        ast.generics == 0 && !crate::tokens::may_end_ident(lowered(ast.name)) ==> r is Err,
{
    let code = crate::expansion::expansion(ast, lowered(ast.name));
    crate::expansion_laws::law_expansion_is_code(ast, lowered(ast.name));
    reveal(crate::tokens::is_code);
    if r is Ok && crate::tokens::all_certain(code) {
        crate::tokens::law_certain_code_is_exact(code, crate::tokens::stream_tokens(r->Ok_0));
    }
    if crate::tokens::all_ascii(ast.name) && crate::tokens::may_end_ident(ast.name) && (
    crate::definition::struct_fields(ast.data) matches Ok(fields)
        ==> crate::expansion_laws::field_names_ascii(fields) && crate::expansion::names_extend(
        fields,
    )) {
        law_ascii_definition_expands(ast);
    }
}

} // verus!
