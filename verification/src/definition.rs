//! Definitions of types as a macro gets them, and the fields that they have.

use crate::tokens::{clone_stream, owned, Tok};
use proc_macro2::TokenStream;
use quote::{ToTokens, TokenStreamExt};
use syn::Data::{Enum, Struct, Union};
use syn::DeriveInput;
use syn::Fields::{Named, Unit, Unnamed};
use vstd::prelude::*;

verus! {

/// A field of the definition that was parsed: its name and its type. Fields of a struct with
/// named fields have a name.
pub struct InputField(pub Option<String>, pub TokenStream);

/// What kind of type is defined.
pub enum InputData {
    NamedStruct(Vec<InputField>),
    TupleStruct,
    UnitStruct,
    Enumeration,
    UnionType,
}

/// The definition of a type: what the generator needs of it.
pub struct MacroInput {
    pub attrs: TokenStream,
    pub vis: TokenStream,
    pub name: String,
    pub ident: TokenStream,
    pub generics: usize,
    pub data: InputData,
}

/// A field of a definition: its name, if it has one, and the tokens of its type.
pub struct InputFieldView {
    pub name: Option<Seq<char>>,
    pub ty: Seq<Tok>,
}

/// What kind of type is defined, with the fields of a struct with named ones.
pub enum InputDataView {
    NamedStruct(Seq<InputFieldView>),
    TupleStruct,
    UnitStruct,
    Enumeration,
    UnionType,
}

/// The definition of a type: the tokens of its attributes and of its visibility, its name as a
/// text and as a token, how many generic parameters it has, and what is defined.
pub struct MacroInputView {
    pub attrs: Seq<Tok>,
    pub vis: Seq<Tok>,
    pub name: Seq<char>,
    pub ident: Seq<Tok>,
    pub generics: nat,
    pub data: InputDataView,
}

impl InputField {
    pub open spec fn model(self) -> InputFieldView {
        InputFieldView {
            name: match self.0 {
                Some(name) => Some(name@),
                None => None,
            },
            ty: crate::tokens::stream_tokens(self.1),
        }
    }
}

impl InputData {
    pub open spec fn model(self) -> InputDataView {
        match self {
            InputData::NamedStruct(fields) => InputDataView::NamedStruct(
                fields@.map_values(|field: InputField| field.model()),
            ),
            InputData::TupleStruct => InputDataView::TupleStruct,
            InputData::UnitStruct => InputDataView::UnitStruct,
            InputData::Enumeration => InputDataView::Enumeration,
            InputData::UnionType => InputDataView::UnionType,
        }
    }
}

impl MacroInput {
    pub open spec fn model(self) -> MacroInputView {
        MacroInputView {
            attrs: crate::tokens::stream_tokens(self.attrs),
            vis: crate::tokens::stream_tokens(self.vis),
            name: self.name@,
            ident: crate::tokens::stream_tokens(self.ident),
            generics: self.generics as nat,
            data: self.data.model(),
        }
    }
}

/// A definition, or the tokens of the report that there is none.
pub open spec fn parsed_model(parsed: Result<MacroInput, TokenStream>) -> Result<
    MacroInputView,
    Seq<Tok>,
> {
    match parsed {
        Ok(ast) => Ok(ast.model()),
        Err(report) => Err(crate::tokens::stream_tokens(report)),
    }
}

/// What a stream of tokens defines, or the tokens that report why it defines no type.
pub uninterp spec fn derive_input(tokens: Seq<Tok>) -> Result<MacroInputView, Seq<Tok>>;

/// `syn::parse2::<DeriveInput>`, with `syn::Error::to_compile_error` for tokens that are no
/// definition and `ToTokens` for the parts of one: what the definition says depends on the tokens
/// alone, and so does the report. Literals of a kind that is not known are kept as they are.
#[verifier::external_body]
pub(crate) fn parse_derive_input(input: TokenStream) -> (r: Result<MacroInput, TokenStream>)
    ensures
        parsed_model(r) == derive_input(crate::tokens::stream_tokens(input)),
{
    let DeriveInput { attrs, vis, ident, generics, data } = syn::parse2(input).map_err(|e| e.to_compile_error())?;
    let mut attr_tokens = TokenStream::new();
    attr_tokens.append_all(attrs);
    Ok(MacroInput {
        attrs: attr_tokens, vis: vis.into_token_stream(), name: ident.to_string(), ident: ident.into_token_stream(), generics: generics.params.len(),
        data: match data {
            Struct(s) => match s.fields {
                Named(f) => InputData::NamedStruct(f.named.into_iter().map(|f| InputField(f.ident.map(|i| i.to_string()), f.ty.into_token_stream())).collect()),
                Unnamed(_) => InputData::TupleStruct,
                Unit => InputData::UnitStruct
            },
            Enum(_) => InputData::Enumeration,
            Union(_) => InputData::UnionType
        }
    })
}

/// A field of a struct with named fields.
pub struct Field {
    pub name: String,
    pub ty: TokenStream,
}

/// A field: its name, and the tokens of its type.
pub struct FieldView {
    pub name: Seq<char>,
    pub ty: Seq<Tok>,
}

impl Field {
    pub open spec fn model(self) -> FieldView {
        FieldView { name: self.name@, ty: crate::tokens::stream_tokens(self.ty) }
    }
}

/// The names and types of fields.
pub open spec fn field_models(fields: Seq<Field>) -> Seq<FieldView> {
    fields.map_values(|field: Field| field.model())
}

/// Why a struct without named fields is refused.
pub const NEEDS_NAMED_FIELDS: &'static str = "Schema must have named fields.";

/// Why a type that is no struct is refused.
pub const NEEDS_STRUCT: &'static str = "Schema must be a struct.";

/// Why a struct with a nameless field is refused.
pub const NAMELESS_FIELD: &'static str =
    "Unknown Error. bit_field_derive library might have a bug.";

/// The fields of a struct with named fields, or why a definition is refused.
pub open spec fn struct_fields(data: InputDataView) -> Result<Seq<FieldView>, Seq<char>> {
    match data {
        InputDataView::NamedStruct(fields) => if forall|i: int|
            0 <= i < fields.len() ==> (#[trigger] fields[i]).name is Some {
            Ok(
                fields.map_values(
                    |field: InputFieldView| FieldView { name: field.name->0, ty: field.ty },
                ),
            )
        } else {
            Err(NAMELESS_FIELD@)
        },
        InputDataView::TupleStruct => Err(NEEDS_NAMED_FIELDS@),
        InputDataView::UnitStruct => Err(NEEDS_NAMED_FIELDS@),
        InputDataView::Enumeration => Err(NEEDS_STRUCT@),
        InputDataView::UnionType => Err(NEEDS_STRUCT@),
    }
}

/// The names and types of fields, or why there are none.
pub open spec fn fields_model(fields: Result<Vec<Field>, String>) -> Result<
    Seq<FieldView>,
    Seq<char>,
> {
    match fields {
        Ok(fields) => Ok(field_models(fields@)),
        Err(reason) => Err(reason@),
    }
}

/// The named fields of a definition. Anything unexpected will be treated as an error. Only field
/// names and types count.
pub fn get_struct_fields(ast: &MacroInput) -> (r: Result<Vec<Field>, String>)
    ensures
        fields_model(r) == struct_fields(ast.model().data),
        r is Ok <==> (ast.data matches InputData::NamedStruct(given) && forall|i: int|
            0 <= i < given@.len() ==> (#[trigger] given@[i]).0 is Some),
        r matches Ok(fields) ==> (ast.data matches InputData::NamedStruct(given) ==> fields@.len()
            == given@.len() && forall|i: int|
            0 <= i < given@.len() ==> (#[trigger] given@[i]).0 is Some && fields@[i].name@
                == given@[i].0->0@ && crate::tokens::stream_tokens(fields@[i].ty)
                == crate::tokens::stream_tokens(given@[i].1)),
        r matches Err(reason) ==> match ast.data {
            InputData::NamedStruct(_) => reason@ == NAMELESS_FIELD@,
            InputData::TupleStruct | InputData::UnitStruct => reason@ == NEEDS_NAMED_FIELDS@,
            InputData::Enumeration | InputData::UnionType => reason@ == NEEDS_STRUCT@,
        },
{
    let fields = match &ast.data {
        InputData::NamedStruct(fields) => fields,
        InputData::TupleStruct => return Err(owned(NEEDS_NAMED_FIELDS)),
        InputData::UnitStruct => return Err(owned(NEEDS_NAMED_FIELDS)),
        InputData::Enumeration => return Err(owned(NEEDS_STRUCT)),
        InputData::UnionType => return Err(owned(NEEDS_STRUCT)),
    };
    let ghost models = fields@.map_values(|field: InputField| field.model());
    let mut vec: Vec<Field> = Vec::new();
    let mut i: usize = 0;
    while i < fields.len()
        invariant
            models == fields@.map_values(|field: InputField| field.model()),
            ast.model().data == InputDataView::NamedStruct(models),
            i <= fields@.len(),
            vec@.len() == i,
            forall|j: int|
                0 <= j < i ==> (#[trigger] models[j]).name is Some && vec@[j].model() == (FieldView {
                    name: models[j].name->0,
                    ty: models[j].ty,
                }),
            forall|j: int|
                0 <= j < i ==> (#[trigger] fields@[j]).0 is Some && vec@[j].name@
                    == fields@[j].0->0@ && crate::tokens::stream_tokens(vec@[j].ty)
                    == crate::tokens::stream_tokens(fields@[j].1),
        decreases fields@.len() - i,
    {
        let field = &fields[i];
        assert(models[i as int] == field.model());
        match &field.0 {
            Some(name) => {
                vec.push(Field { name: owned(name.as_str()), ty: clone_stream(&field.1) });
            },
            None => {
                assert(models[i as int].name is None);
                return Err(owned(NAMELESS_FIELD));
            },
        }
        i = i + 1;
    }
    assert(field_models(vec@) =~= models.map_values(
        |field: InputFieldView| FieldView { name: field.name->0, ty: field.ty },
    ));
    Ok(vec)
}

} // verus!
