use crosvm::bitfield::{bitfield, bitfield_impl, expand, is_expandable, replace};
use crosvm::definition::{get_struct_fields, InputData, InputField, MacroInput};
use crosvm::specifiers::define_bit_field_specifiers;
use crosvm::tokens::{can_end_ident, Code, Delim, ExpandError};
use proc_macro2::TokenStream;

fn stream(text: &str) -> TokenStream {
    text.parse().unwrap()
}

fn expanded(text: &str) -> String {
    bitfield(TokenStream::new(), stream(text)).unwrap().to_string()
}

// Distinct punctuation marks stand apart here, as they do in quoted code.
const EXPECTED: &str = r#"
            #[derive(Clone)]
            #[repr(C)]
            struct MyBitField {
                data: [u8; (<BitField1 as ::bit_field::BitFieldSpecifier> ::FIELD_WIDTH as usize
                            + <BitField2 as ::bit_field::BitFieldSpecifier> ::FIELD_WIDTH as usize
                            + <BitField5 as ::bit_field::BitFieldSpecifier> ::FIELD_WIDTH as usize)
                    / 8],
            }
            impl MyBitField {
                pub fn new() -> MyBitField {
                    let _: ::bit_field::Check<[
                        u8;
                        (<BitField1 as ::bit_field::BitFieldSpecifier> ::FIELD_WIDTH as usize
                                + <BitField2 as ::bit_field::BitFieldSpecifier> ::FIELD_WIDTH as usize
                                + <BitField5 as ::bit_field::BitFieldSpecifier> ::FIELD_WIDTH as usize)
                            % 8
                    ]> ;

                    MyBitField {
                        data: [0; (<BitField1 as ::bit_field::BitFieldSpecifier> ::FIELD_WIDTH as usize
                                   + <BitField2 as ::bit_field::BitFieldSpecifier> ::FIELD_WIDTH as usize
                                   + <BitField5 as ::bit_field::BitFieldSpecifier> ::FIELD_WIDTH as usize)
                            / 8],
                    }
                }
            }
            impl MyBitField {
                #[inline]
                fn check_access(&self, offset: usize, width: u8) {
                    debug_assert!(width <= 64);
                    debug_assert!(offset / 8 < self.data.len());
                    debug_assert!((offset + (width as usize)) <= (self.data.len() * 8));
                }
                #[inline]
                pub fn get_bit(&self, offset: usize) -> bool {
                    self.check_access(offset, 1);
                    let byte_index = offset / 8;
                    let bit_offset = offset % 8;
                    let byte = self.data[byte_index];
                    let mask = 1 << bit_offset;
                    byte & mask == mask
                }
                #[inline]
                pub fn set_bit(&mut self, offset: usize, val: bool) {
                    self.check_access(offset, 1);
                    let byte_index = offset / 8;
                    let bit_offset = offset % 8;
                    let byte = &mut self.data[byte_index];
                    let mask = 1 << bit_offset;
                    if val {
                        *byte |= mask;
                    } else {
                        *byte &= !mask;
                    }
                }
                #[inline]
                pub fn get(&self, offset: usize, width: u8) -> u64 {
                    self.check_access(offset, width);
                    let mut val = 0;
                    for i in 0..(width as usize) {
                        if self.get_bit(i + offset) {
                            val |= 1 << i;
                        }
                    }
                    val
                }
                #[inline]
                pub fn set(&mut self, offset: usize, width: u8, val: u64) {
                    self.check_access(offset, width);
                    for i in 0..(width as usize) {
                        let mask = 1 << i;
                        let val_bit_is_set = val & mask == mask;
                        self.set_bit(i + offset, val_bit_is_set);
                    }
                }
            }
            impl MyBitField {
                pub fn get_a(&self) -> <BitField1 as ::bit_field::BitFieldSpecifier> ::DefaultFieldType {
                    let offset = < ::bit_field::BitField0 as ::bit_field::BitFieldSpecifier> ::FIELD_WIDTH as usize;
                    let val = self.get(offset, <BitField1 as ::bit_field::BitFieldSpecifier> ::FIELD_WIDTH);
                    <BitField1 as ::bit_field::BitFieldSpecifier> ::from_u64(val)
                }
                pub fn set_a(&mut self, val: <BitField1 as ::bit_field::BitFieldSpecifier> ::DefaultFieldType) {
                    let val = <BitField1 as ::bit_field::BitFieldSpecifier> ::into_u64(val);
                    debug_assert!(val <= ::bit_field::max:: <BitField1>());
                    let offset = < ::bit_field::BitField0 as ::bit_field::BitFieldSpecifier> ::FIELD_WIDTH as usize;
                    self.set(offset, <BitField1 as ::bit_field::BitFieldSpecifier> ::FIELD_WIDTH, val)
                }
                pub fn get_b(&self) -> <BitField2 as ::bit_field::BitFieldSpecifier> ::DefaultFieldType {
                    let offset = < ::bit_field::BitField0 as ::bit_field::BitFieldSpecifier> ::FIELD_WIDTH as usize
                        + <BitField1 as ::bit_field::BitFieldSpecifier> ::FIELD_WIDTH as usize;
                    let val = self.get(offset, <BitField2 as ::bit_field::BitFieldSpecifier> ::FIELD_WIDTH);
                    <BitField2 as ::bit_field::BitFieldSpecifier> ::from_u64(val)
                }
                pub fn set_b(&mut self, val: <BitField2 as ::bit_field::BitFieldSpecifier> ::DefaultFieldType) {
                    let val = <BitField2 as ::bit_field::BitFieldSpecifier> ::into_u64(val);
                    debug_assert!(val <= ::bit_field::max:: <BitField2>());
                    let offset = < ::bit_field::BitField0 as ::bit_field::BitFieldSpecifier> ::FIELD_WIDTH as usize
                        + <BitField1 as ::bit_field::BitFieldSpecifier> ::FIELD_WIDTH as usize;
                    self.set(offset, <BitField2 as ::bit_field::BitFieldSpecifier> ::FIELD_WIDTH, val)
                }
                pub fn get_c(&self) -> <BitField5 as ::bit_field::BitFieldSpecifier> ::DefaultFieldType {
                    let offset = < ::bit_field::BitField0 as ::bit_field::BitFieldSpecifier> ::FIELD_WIDTH as usize
                        + <BitField1 as ::bit_field::BitFieldSpecifier> ::FIELD_WIDTH as usize
                        + <BitField2 as ::bit_field::BitFieldSpecifier> ::FIELD_WIDTH as usize;
                    let val = self.get(offset, <BitField5 as ::bit_field::BitFieldSpecifier> ::FIELD_WIDTH);
                    <BitField5 as ::bit_field::BitFieldSpecifier> ::from_u64(val)
                }
                pub fn set_c(&mut self, val: <BitField5 as ::bit_field::BitFieldSpecifier> ::DefaultFieldType) {
                    let val = <BitField5 as ::bit_field::BitFieldSpecifier> ::into_u64(val);
                    debug_assert!(val <= ::bit_field::max:: <BitField5>());
                    let offset = < ::bit_field::BitField0 as ::bit_field::BitFieldSpecifier> ::FIELD_WIDTH as usize
                        + <BitField1 as ::bit_field::BitFieldSpecifier> ::FIELD_WIDTH as usize
                        + <BitField2 as ::bit_field::BitFieldSpecifier> ::FIELD_WIDTH as usize;
                    self.set(offset, <BitField5 as ::bit_field::BitFieldSpecifier> ::FIELD_WIDTH, val)
                }
            }
            impl std::fmt::Debug for MyBitField {
                fn fmt(&self, f: &mut std::fmt::Formatter) -> std::fmt::Result {
                    f.debug_struct("MyBitField")
                        .field("a", &self.get_a())
                        .field("b", &self.get_b())
                        .field("c", &self.get_c())
                        .finish()
                }
            }
            #[cfg(test)]
            mod test_mybitfield {
                use super:: * ;
                #[test]
                fn test_total_size() {
                    let total_size = <BitField1 as ::bit_field::BitFieldSpecifier> ::FIELD_WIDTH as usize
                        + <BitField2 as ::bit_field::BitFieldSpecifier> ::FIELD_WIDTH as usize
                        + <BitField5 as ::bit_field::BitFieldSpecifier> ::FIELD_WIDTH as usize;
                    assert_eq!(total_size % 8, 0);
                }
                #[test]
                fn test_bits_boundary() {
                    let fields_sizes = vec![
                        <BitField1 as ::bit_field::BitFieldSpecifier> ::FIELD_WIDTH as usize,
                        <BitField2 as ::bit_field::BitFieldSpecifier> ::FIELD_WIDTH as usize,
                        <BitField5 as ::bit_field::BitFieldSpecifier> ::FIELD_WIDTH as usize
                    ];
                    let mut sum = 0usize;
                    for s in fields_sizes {
                        if sum % 64 == 0 {
                            assert!(s <= 64);
                        } else {
                            if (sum + s) % 64 != 0 {
                                assert_eq!(sum / 64, (sum + s) / 64);
                            }
                        }
                        sum += s;
                    }
                }
                #[test]
                fn test_a() {
                    let mut a = MyBitField::new();
                    let val = <BitField1 as ::bit_field::BitFieldSpecifier> ::into_u64(a.get_a());
                    assert_eq!(val, 0);
                    let val = <BitField1 as ::bit_field::BitFieldSpecifier> ::from_u64(::bit_field::max:: <BitField1>());
                    a.set_a(val);
                    let val = <BitField1 as ::bit_field::BitFieldSpecifier> ::into_u64(a.get_a());
                    assert_eq!(val, ::bit_field::max:: <BitField1>());
                }
                #[test]
                fn test_b() {
                    let mut a = MyBitField::new();
                    let val = <BitField2 as ::bit_field::BitFieldSpecifier> ::into_u64(a.get_b());
                    assert_eq!(val, 0);
                    let val = <BitField2 as ::bit_field::BitFieldSpecifier> ::from_u64(::bit_field::max:: <BitField2>());
                    a.set_b(val);
                    let val = <BitField2 as ::bit_field::BitFieldSpecifier> ::into_u64(a.get_b());
                    assert_eq!(val, ::bit_field::max:: <BitField2>());
                }
                #[test]
                fn test_c() {
                    let mut a = MyBitField::new();
                    let val = <BitField5 as ::bit_field::BitFieldSpecifier> ::into_u64(a.get_c());
                    assert_eq!(val, 0);
                    let val = <BitField5 as ::bit_field::BitFieldSpecifier> ::from_u64(::bit_field::max:: <BitField5>());
                    a.set_c(val);
                    let val = <BitField5 as ::bit_field::BitFieldSpecifier> ::into_u64(a.get_c());
                    assert_eq!(val, ::bit_field::max:: <BitField5>());
                }
            }
"#;

#[test]
fn end_to_end() {
    let input = "
            #[derive(Clone)]
            struct MyBitField {
                a: BitField1,
                b: BitField2,
                c: BitField5,
            }
    ";
    assert_eq!(expanded(input), stream(EXPECTED).to_string());
}

fn refusal(message: &str) -> String {
    stream(&format!("compile_error!(\"{}\");", message)).to_string()
}

#[test]
fn definitions_that_are_refused() {
    let generics = "#[bitfield] does not support generic parameters";
    assert_eq!(expanded("struct A<T> { a: T }"), refusal(generics));
    assert_eq!(expanded("enum r#type<T> { A(T) }"), refusal(generics));
    let named = "Schema must have named fields.";
    assert_eq!(expanded("struct A(BitField8);"), refusal(named));
    assert_eq!(expanded("struct A;"), refusal(named));
    let kind = "Schema must be a struct.";
    assert_eq!(expanded("enum A { B }"), refusal(kind));
    assert_eq!(expanded("union A { b: u8 }"), refusal(kind));
}

fn definition(name: &str, fields: Vec<InputField>) -> MacroInput {
    MacroInput {
        attrs: TokenStream::new(),
        vis: TokenStream::new(),
        name: name.to_string(),
        ident: stream("A"),
        generics: 0,
        data: InputData::NamedStruct(fields),
    }
}

fn field(name: &str, ty: &str) -> InputField {
    InputField(Some(name.to_string()), stream(ty))
}

#[test]
fn nameless_field_is_refused() {
    let reason = "Unknown Error. bit_field_derive library might have a bug.";
    let ast = definition("A", vec![field("a", "B3"), InputField(None, stream("BitField8"))]);
    assert_eq!(get_struct_fields(&ast).err().unwrap(), reason);
    let code = bitfield_impl(&ast).unwrap().into_stream().unwrap();
    assert_eq!(code.to_string(), refusal(reason));
}

#[test]
fn fields_are_names_and_types() {
    let ast = definition("A", vec![field("a", "B3"), field("b", "::bit_field::B5")]);
    let fields = get_struct_fields(&ast).ok().unwrap();
    assert_eq!(fields.len(), 2);
    assert_eq!(fields[0].name, "a");
    assert_eq!(fields[0].ty.to_string(), stream("B3").to_string());
    assert_eq!(fields[1].name, "b");
    assert_eq!(fields[1].ty.to_string(), stream("::bit_field::B5").to_string());
}

#[test]
fn tokens_that_define_nothing_are_reported() {
    let report = expanded("fn f() {}");
    assert!(report.starts_with(":: core :: compile_error ! {"), "{}", report);
    let given = stream("compile_error!(\"no\");");
    let text = given.to_string();
    assert_eq!(replace(Err(given)).unwrap().to_string(), text);
}

#[test]
fn names_that_make_no_identifier() {
    let result = bitfield(TokenStream::new(), stream("struct A { r#type: BitField8 }"));
    assert_eq!(result.unwrap_err(), ExpandError::NotIdentifier);
    let result = bitfield(TokenStream::new(), stream("struct r#Type { a: BitField8 }"));
    assert_eq!(result.unwrap_err(), ExpandError::NotIdentifier);
    let result = bitfield(TokenStream::new(), stream("enum r#Type { A }"));
    assert_eq!(result.unwrap_err(), ExpandError::NotIdentifier);
    let spaced = definition("A", vec![field("a b", "B8")]);
    assert!(!is_expandable(&spaced, "a"));
    assert_eq!(bitfield_impl(&spaced).err(), Some(ExpandError::NotIdentifier));
    assert!(is_expandable(&definition("A", vec![field("_0aZ", "B8")]), "a"));
    assert!(!is_expandable(&definition("A", vec![field("a", "B8")]), "a-b"));
}

#[test]
fn names_of_ascii_are_kept_letter_for_letter() {
    let code = expanded("struct A_Z9 { _x: B3, Y0: B5 }");
    let expected = ["mod test_a_z9", "fn get__x", "fn set_Y0", "fn test_Y0"];
    for part in expected {
        assert!(code.contains(part), "{}", part);
    }
    let debug = stream("f.debug_struct(\"A_Z9\").field(\"_x\", &self.get__x())");
    assert!(code.contains(&debug.to_string()));
}

#[test]
fn names_outside_of_ascii() {
    let code = expanded("struct \u{c9}t\u{e9} { stra\u{df}e: B8 }");
    assert!(code.contains("mod test_\u{e9}t\u{e9}"), "{}", code);
    assert!(code.contains("fn get_stra\u{df}e"));
    assert!(code.contains("fn set_stra\u{df}e"));
    assert!(code.contains("fn test_stra\u{df}e"));
    let arrow = definition("A", vec![field("a\u{2192}b", "B8")]);
    let code = bitfield_impl(&arrow).ok().unwrap();
    assert_eq!(code.into_stream().err(), Some(ExpandError::NotIdentifier));
}

#[test]
fn test_module_has_the_given_name() {
    let ast = definition("A", vec![]);
    let code = expand(&ast, "other").into_stream().unwrap().to_string();
    assert!(code.contains("mod test_other"), "{}", code);
    let code = bitfield_impl(&definition("ABC", vec![])).unwrap().into_stream().unwrap();
    assert!(code.to_string().contains("mod test_abc"));
}

#[test]
fn visibility_and_paths_are_kept() {
    let code = expanded("pub(crate) struct Flags { low: bit_field::B3, high: ::bit_field::B5 }");
    let start = stream("#[repr(C)] pub(crate) struct Flags").to_string();
    assert!(code.starts_with(&start), "{}", code);
    assert!(code.contains("mod test_flags {"));
    assert!(code.contains("< bit_field :: B3 as :: bit_field :: BitFieldSpecifier > :: FIELD_WIDTH"));
    let getter = stream("pub fn get_high(&self) -> < ::bit_field::B5 as").to_string();
    assert!(code.contains(&getter));
}

#[test]
fn no_fields() {
    let code = expanded("struct Empty { }");
    assert!(code.contains(&stream("data: [u8; () / 8],").to_string()));
    assert!(code.contains(&stream("f.debug_struct(\"Empty\").finish()").to_string()));
}

#[test]
fn literals_of_any_kind_can_stand_in_a_type() {
    let text = "[u8; c\"x\"]";
    let input = format!("struct A {{ a: {} }}", text);
    let code = expanded(&input);
    assert!(code.contains(&format!("< {} as", stream(text))), "{}", code);
    assert_eq!(expanded("enum E { A = c\"x\" }"), refusal("Schema must be a struct."));
    let code = expanded("struct A { a: [u8; 1_0u64], b: [u8; b'x'], c: [u8; r#\"s\"#] }");
    assert!(code.contains("fn get_c"), "{}", code);
}

fn spelled(text: &'static str) -> Result<String, ExpandError> {
    let mut code = Code::new();
    code.text(text);
    code.into_stream().map(|stream| stream.to_string())
}

#[test]
fn texts_spell_out_tokens() {
    let expected = stream("fn f(&self, x: [u8; 64]) -> _ { x <<= 7 }").to_string();
    let text = "fn f ( & self , x : [ u8 ; 64 ] ) -> _ {\n    x <<= 7\n}";
    assert_eq!(spelled(text), Ok(expected));
    assert_eq!(spelled(""), Ok(String::new()));
    let words = ["a.b", "100", "07", "9x", "_a", "\u{e9}", "$", "'a", "\"a\""];
    for word in words {
        assert_eq!(spelled(word), Err(ExpandError::NotTokens), "{}", word);
    }
}

#[test]
fn delimiters_have_to_match() {
    assert_eq!(spelled("( [ ] )"), Ok(stream("([])").to_string()));
    for text in ["(", ")", "( ]", "( [ ) ]"] {
        assert_eq!(spelled(text), Err(ExpandError::NotTokens), "{}", text);
    }
    // A group can be opened by one text and closed by the next.
    let mut code = Code::new();
    code.text("a (");
    code.text(") b");
    assert_eq!(code.into_stream().unwrap().to_string(), stream("a() b").to_string());
}

#[test]
fn pieces_become_tokens() {
    let mut inner = Code::new();
    inner.string("a \"b\"".to_string());
    inner.text(",");
    inner.byte(200);
    inner.text(",");
    inner.size(12);
    let mut code = Code::new();
    code.ident("call".to_string());
    code.group(Delim::Parenthesis, inner);
    code.tokens(&stream("; x += 1"));
    let expected = stream("call(\"a \\\"b\\\"\", 200u8, 12usize); x += 1");
    assert_eq!(code.into_stream().unwrap().to_string(), expected.to_string());
}

#[test]
fn names_that_the_compiler_refuses() {
    let mut code = Code::new();
    code.ident("a\u{2192}b".to_string());
    assert_eq!(code.into_stream().err(), Some(ExpandError::NotIdentifier));
    assert!(can_end_ident("_0aZ"));
    assert!(can_end_ident("a\u{2192}b"));
    assert!(!can_end_ident("a#b"));
}

fn specifier(width: u8, ty: &str) -> String {
    format!(
        "pub struct BitField{w};
        pub use self::BitField{w} as B{w};

        impl BitFieldSpecifier for BitField{w} {{
            const FIELD_WIDTH: u8 = {w}u8;
            type DefaultFieldType = {ty};

            #[inline]
            fn from_u64(val: u64) -> Self::DefaultFieldType {{
                val as Self::DefaultFieldType
            }}

            #[inline]
            fn into_u64(val: Self::DefaultFieldType) -> u64 {{
                val as u64
            }}
        }}

        impl private::Sealed for BitField{w} {{}}",
        w = width,
        ty = ty
    )
}

#[test]
fn specifiers_for_all_widths() {
    let mut expected = String::new();
    for width in 0..=64 {
        let ty = match width {
            0..=8 => "u8",
            9..=16 => "u16",
            17..=32 => "u32",
            _ => "u64",
        };
        expected.push_str(&specifier(width, ty));
    }
    let code = define_bit_field_specifiers(TokenStream::new()).unwrap();
    assert_eq!(code.to_string(), stream(&expected).to_string());
}
