//! Streams of Rust tokens, and code that is put together from text, streams and groups.

use crate::spelling::spell;
use proc_macro2::{Delimiter, Group, Ident, Literal, Punct, Spacing, Span, TokenStream, TokenTree};
use quote::ToTokens;
use vstd::prelude::*;

verus! {

/// A stream of tokens that the compiler hands to a procedural macro, or takes from it.
#[verifier::external_type_specification]
#[verifier::external_body]
pub struct ExTokenStream(proc_macro2::TokenStream);

/// The delimiters around a group of tokens.
#[derive(Clone, Copy, Debug, PartialEq, Eq, Structural)]
pub enum Delim {
    Parenthesis,
    Brace,
    Bracket,
    Invisible,
}

/// Whether a punctuation mark is the start of an operator of more than one, or ends it.
#[derive(Clone, Copy, Debug, PartialEq, Eq, Structural)]
pub enum Gap {
    Joint,
    Alone,
}

/// One token of a stream. Identifiers and literals count by their text. A group is its opening
/// delimiter, its tokens and its closing delimiter.
pub enum Tok {
    Open(Delim),
    Close(Delim),
    Ident(Seq<char>),
    Punct(char, Gap),
    Literal(Seq<char>),
}

/// The tokens of a stream, without the places that they come from.
pub uninterp spec fn stream_tokens(stream: TokenStream) -> Seq<Tok>;

/// `TokenStream::new`: the stream has no tokens.
#[verifier::external_body]
fn new_stream() -> (r: TokenStream)
    ensures
        stream_tokens(r) == Seq::<Tok>::empty(),
{
    TokenStream::new()
}

/// `TokenStream::clone`: the copy has the same tokens.
#[verifier::external_body]
pub(crate) fn clone_stream(stream: &TokenStream) -> (r: TokenStream)
    ensures
        stream_tokens(r) == stream_tokens(*stream),
{
    stream.clone()
}

/// `TokenStream::extend` with one stream: its tokens follow those that were there.
#[verifier::external_body]
fn append_stream(stream: &mut TokenStream, more: TokenStream)
    ensures
        stream_tokens(*final(stream)) == stream_tokens(*old(stream)) + stream_tokens(more),
{
    stream.extend(Some(more));
}

/// `Group::new`: the tokens of the stream between the two delimiters.
#[verifier::external_body]
fn group_stream(delim: Delim, inner: TokenStream) -> (r: TokenStream)
    ensures
        stream_tokens(r) == seq![Tok::Open(delim)] + stream_tokens(inner) + seq![Tok::Close(delim)],
{
    let delimiter = match delim {
        Delim::Parenthesis => Delimiter::Parenthesis,
        Delim::Brace => Delimiter::Brace,
        Delim::Bracket => Delimiter::Bracket,
        Delim::Invisible => Delimiter::None,
    };
    TokenTree::Group(Group::new(delimiter, inner)).into()
}

/// The character is of ASCII.
pub open spec fn is_ascii(c: char) -> bool {
    c <= '\u{7f}'
}

/// Every character of the text is of ASCII.
pub open spec fn all_ascii(text: Seq<char>) -> bool {
    forall|i: int| 0 <= i < text.len() ==> is_ascii(#[trigger] text[i])
}

/// The character is a letter of ASCII.
pub open spec fn is_letter(c: char) -> bool {
    'a' <= c <= 'z' || 'A' <= c <= 'Z'
}

/// The character is a digit.
pub open spec fn is_digit(c: char) -> bool {
    '0' <= c <= '9'
}

/// The character is one of ASCII that an identifier can hold.
pub open spec fn is_word_char(c: char) -> bool {
    is_letter(c) || is_digit(c) || c == '_'
}

/// No character of ASCII in the text keeps it from being the rest of an identifier. Which others
/// do is up to the compiler.
pub open spec fn may_end_ident(text: Seq<char>) -> bool {
    forall|i: int|
        0 <= i < text.len() ==> is_word_char(#[trigger] text[i]) || !is_ascii(text[i])
}

/// The text begins with a letter of ASCII, and no other character of ASCII keeps it from being an
/// identifier.
pub open spec fn may_be_ident(text: Seq<char>) -> bool {
    text.len() > 0 && is_letter(text[0]) && may_end_ident(text)
}

/// The text is an identifier or a keyword made of ASCII, and begins with a letter.
pub open spec fn is_word(text: Seq<char>) -> bool {
    text.len() > 0 && is_letter(text[0]) && forall|i: int|
        0 <= i < text.len() ==> is_word_char(#[trigger] text[i])
}

/// `Ident::new`: the identifier with the given name. It takes every identifier and keyword, and
/// keeps names of ASCII as they are.
#[verifier::external_body]
fn word_stream(text: &str) -> (r: TokenStream)
    requires
        is_word(text@),
    ensures
        stream_tokens(r) == seq![Tok::Ident(text@)],
{
    TokenTree::Ident(Ident::new(text, Span::call_site())).into()
}

/// The name of the identifier that a compiler takes a text for, if it takes it for one. Compilers
/// are numbered, in no order that means anything.
pub uninterp spec fn compiler_name(compiler: nat, text: Seq<char>) -> Option<Seq<char>>;

/// `syn::parse_str::<syn::Ident>`: an identifier, if the compiler at hand takes the text for one.
/// Which texts it takes goes by its version of Unicode, and the name may be another form of the
/// text that Unicode holds to be the same: which compiler it is, is left open. What the compiler's
/// lexer does not take comes back as an error, a panic of it too.
#[verifier::external_body]
fn parse_ident(text: &str) -> (r: Option<TokenStream>)
    requires
        may_be_ident(text@),
    ensures
        exists|compiler: nat|
            match #[trigger] compiler_name(compiler, text@) {
                Some(name) => r is Some && stream_tokens(r->0) == seq![Tok::Ident(name)],
                None => r is None,
            },
{
    syn::parse_str::<syn::Ident>(text).ok().map(ToTokens::into_token_stream)
}

/// `syn::token::Underscore`: the token `_`, which is an identifier in a stream.
#[verifier::external_body]
fn underscore_stream() -> (r: TokenStream)
    ensures
        stream_tokens(r) == seq![Tok::Ident(seq!['_'])],
{
    syn::token::Underscore::default().into_token_stream()
}

/// The character is a punctuation mark that operators are made of.
pub open spec fn is_mark(c: char) -> bool {
    c == '!' || c == '#' || c == '%' || c == '&' || c == '*' || c == '+' || c == ',' || c == '-' || c
        == '.' || c == '/' || c == ':' || c == ';' || c == '<' || c == '=' || c == '>' || c == '|'
}

/// `Punct::new`: one punctuation mark. It takes those that the language has.
#[verifier::external_body]
fn mark_stream(mark: char, gap: Gap) -> (r: TokenStream)
    requires
        is_mark(mark),
    ensures
        stream_tokens(r) == seq![Tok::Punct(mark, gap)],
{
    let spacing = match gap {
        Gap::Joint => Spacing::Joint,
        Gap::Alone => Spacing::Alone,
    };
    TokenTree::Punct(Punct::new(mark, spacing)).into()
}

/// Every character of the text is a visible one of ASCII or a space, and neither a quotation mark
/// nor a backslash.
pub open spec fn is_plain(text: Seq<char>) -> bool {
    forall|i: int|
        0 <= i < text.len() ==> ' ' <= #[trigger] text[i] <= '~' && text[i] != '"' && text[i]
            != '\\'
}

/// A text between quotation marks.
pub open spec fn quoted(text: Seq<char>) -> Seq<char> {
    seq!['"'] + text + seq!['"']
}

/// The literal by which a compiler writes a string.
pub uninterp spec fn compiler_literal(compiler: nat, value: Seq<char>) -> Seq<char>;

/// `Literal::string`: the literal whose value is the given string. Where nothing has to be
/// escaped, that is the string between quotation marks. How the compiler at hand escapes other
/// strings is left open.
#[verifier::external_body]
fn string_stream(value: &str) -> (r: TokenStream)
    ensures
        is_plain(value@) ==> stream_tokens(r) == seq![Tok::Literal(quoted(value@))],
        exists|compiler: nat|
            stream_tokens(r) == seq![Tok::Literal(#[trigger] compiler_literal(compiler, value@))],
{
    TokenTree::Literal(Literal::string(value)).into()
}

/// The digit for a number below ten.
pub open spec fn digit(d: nat) -> char {
    if d == 0 {
        '0'
    } else if d == 1 {
        '1'
    } else if d == 2 {
        '2'
    } else if d == 3 {
        '3'
    } else if d == 4 {
        '4'
    } else if d == 5 {
        '5'
    } else if d == 6 {
        '6'
    } else if d == 7 {
        '7'
    } else if d == 8 {
        '8'
    } else {
        '9'
    }
}

/// A number in decimal.
pub open spec fn decimal(n: nat) -> Seq<char>
    decreases n,
{
    if n < 10 {
        seq![digit(n)]
    } else {
        decimal(n / 10).push(digit(n % 10))
    }
}

/// `Literal::u8_unsuffixed`: the number in decimal.
#[verifier::external_body]
fn number_stream(n: u8) -> (r: TokenStream)
    ensures
        stream_tokens(r) == seq![Tok::Literal(decimal(n as nat))],
{
    TokenTree::Literal(Literal::u8_unsuffixed(n)).into()
}

/// `Literal::u8_suffixed`: the number in decimal, followed by the name of its type.
#[verifier::external_body]
fn byte_stream(n: u8) -> (r: TokenStream)
    ensures
        stream_tokens(r) == seq![Tok::Literal(decimal(n as nat) + "u8"@)],
{
    TokenTree::Literal(Literal::u8_suffixed(n)).into()
}

/// `Literal::usize_suffixed`: the number in decimal, followed by the name of its type.
#[verifier::external_body]
fn size_stream(n: usize) -> (r: TokenStream)
    ensures
        stream_tokens(r) == seq![Tok::Literal(decimal(n as nat) + "usize"@)],
{
    TokenTree::Literal(Literal::usize_suffixed(n)).into()
}

/// A copy of a text.
pub(crate) fn owned(s: &str) -> (r: String)
    ensures
        r@ == s@,
{
    let mut r = String::new();
    r.append(s);
    assert(r@ =~= s@);
    r
}

/// Whether no character of ASCII in the text keeps it from being the rest of an identifier.
pub fn can_end_ident(text: &str) -> (r: bool)
    ensures
        r == may_end_ident(text@),
{
    let len: usize = text.unicode_len();
    let mut i: usize = 0;
    while i < len
        invariant
            len == text@.len(),
            i <= len,
            forall|j: int|
                0 <= j < i ==> is_word_char(#[trigger] text@[j]) || !is_ascii(text@[j]),
        decreases len - i,
    {
        let c = text.get_char(i);
        if c <= '\u{7f}' && !word_char(c) {
            assert(!(is_word_char(text@[i as int]) || !is_ascii(text@[i as int])));
            return false;
        }
        i = i + 1;
    }
    true
}

pub(crate) fn word_char(c: char) -> (r: bool)
    ensures
        r == is_word_char(c),
{
    ('a' <= c && c <= 'z') || ('A' <= c && c <= 'Z') || ('0' <= c && c <= '9') || c == '_'
}

/// Whether every character of the text is of ASCII.
fn is_all_ascii(text: &str) -> (r: bool)
    ensures
        r == all_ascii(text@),
{
    let len: usize = text.unicode_len();
    let mut i: usize = 0;
    while i < len
        invariant
            len == text@.len(),
            i <= len,
            forall|j: int| 0 <= j < i ==> is_ascii(#[trigger] text@[j]),
        decreases len - i,
    {
        if text.get_char(i) > '\u{7f}' {
            assert(!is_ascii(text@[i as int]));
            return false;
        }
        i = i + 1;
    }
    true
}

/// The identifier with the given name, if the compiler takes it for one.
fn ident_stream(text: &str) -> (r: Option<TokenStream>)
    requires
        may_be_ident(text@),
    ensures
        r is None ==> may_be_refused(text@),
        r matches Some(stream) ==> fits(PieceView::Ident(text@), stream_tokens(stream)),
{
    if is_all_ascii(text) {
        assert(is_word(text@));
        Some(word_stream(text))
    } else {
        parse_ident(text)
    }
}

/// A piece of code.
pub(crate) enum Piece {
    Text(&'static str),
    Tokens(TokenStream),
    Ident(String),
    Underscore,
    Mark(char, Gap),
    Number(u8),
    Byte(u8),
    Size(usize),
    Str(String),
    Open(Delim),
    Close(Delim),
}

/// A piece of code: a text that spells out other pieces, the tokens of a stream, an identifier,
/// an underscore, a punctuation mark, a number without a type or with one, the literal for a
/// string, or a delimiter around the pieces that follow or precede.
pub enum PieceView {
    Text(Seq<char>),
    Tokens(Seq<Tok>),
    Ident(Seq<char>),
    Underscore,
    Mark(char, Gap),
    Number(u8),
    Byte(u8),
    Size(usize),
    Str(Seq<char>),
    Open(Delim),
    Close(Delim),
}

impl Piece {
    pub(crate) open spec fn model(self) -> PieceView {
        match self {
            Piece::Text(text) => PieceView::Text(text@),
            Piece::Tokens(stream) => PieceView::Tokens(stream_tokens(stream)),
            Piece::Ident(text) => PieceView::Ident(text@),
            Piece::Underscore => PieceView::Underscore,
            Piece::Mark(mark, gap) => PieceView::Mark(mark, gap),
            Piece::Number(n) => PieceView::Number(n),
            Piece::Byte(n) => PieceView::Byte(n),
            Piece::Size(n) => PieceView::Size(n),
            Piece::Str(value) => PieceView::Str(value@),
            Piece::Open(delim) => PieceView::Open(delim),
            Piece::Close(delim) => PieceView::Close(delim),
        }
    }

    fn copy(&self) -> (r: Piece)
        ensures
            r.model() == self.model(),
    {
        match self {
            Piece::Text(text) => Piece::Text(text),
            Piece::Tokens(stream) => Piece::Tokens(clone_stream(stream)),
            Piece::Ident(text) => Piece::Ident(owned(text.as_str())),
            Piece::Underscore => Piece::Underscore,
            Piece::Mark(mark, gap) => Piece::Mark(*mark, *gap),
            Piece::Number(n) => Piece::Number(*n),
            Piece::Byte(n) => Piece::Byte(*n),
            Piece::Size(n) => Piece::Size(*n),
            Piece::Str(value) => Piece::Str(owned(value.as_str())),
            Piece::Open(delim) => Piece::Open(*delim),
            Piece::Close(delim) => Piece::Close(*delim),
        }
    }
}

pub(crate) open spec fn piece_models(pieces: Seq<Piece>) -> Seq<PieceView> {
    pieces.map_values(|piece: Piece| piece.model())
}

/// The tokens of a piece that is no text, where they are certain: the names of identifiers
/// outside of ASCII and the literals of strings with something to escape are up to the compiler.
pub open spec fn certain_tokens(piece: PieceView) -> Option<Seq<Tok>> {
    match piece {
        PieceView::Text(_) => None,
        PieceView::Tokens(tokens) => Some(tokens),
        PieceView::Ident(text) => if all_ascii(text) {
            Some(seq![Tok::Ident(text)])
        } else {
            None
        },
        PieceView::Underscore => Some(seq![Tok::Ident(seq!['_'])]),
        PieceView::Mark(mark, gap) => Some(seq![Tok::Punct(mark, gap)]),
        PieceView::Number(n) => Some(seq![Tok::Literal(decimal(n as nat))]),
        PieceView::Byte(n) => Some(seq![Tok::Literal(decimal(n as nat) + "u8"@)]),
        PieceView::Size(n) => Some(seq![Tok::Literal(decimal(n as nat) + "usize"@)]),
        PieceView::Str(value) => if is_plain(value) {
            Some(seq![Tok::Literal(quoted(value))])
        } else {
            None
        },
        PieceView::Open(delim) => Some(seq![Tok::Open(delim)]),
        PieceView::Close(delim) => Some(seq![Tok::Close(delim)]),
    }
}

/// The tokens can be those of the piece, which is no text: for some compiler, where it is up to
/// the compiler.
pub open spec fn fits(piece: PieceView, tokens: Seq<Tok>) -> bool {
    match certain_tokens(piece) {
        Some(certain) => tokens == certain,
        None => match piece {
            PieceView::Ident(text) => exists|compiler: nat|
                ((#[trigger] compiler_name(compiler, text)) matches Some(name) && tokens
                    == seq![Tok::Ident(name)]),
            PieceView::Str(value) => exists|compiler: nat|
                tokens == seq![Tok::Literal(#[trigger] compiler_literal(compiler, value))],
            _ => false,
        },
    }
}

/// The text is not of ASCII, and some compiler does not take it for an identifier.
pub open spec fn may_be_refused(text: Seq<char>) -> bool {
    !all_ascii(text) && exists|compiler: nat| #[trigger] compiler_name(compiler, text) is None
}

/// All of the parts in a row.
pub open spec fn joined(parts: Seq<Seq<Tok>>) -> Seq<Tok>
    decreases parts.len(),
{
    if parts.len() == 0 {
        Seq::empty()
    } else {
        joined(parts.drop_last()) + parts.last()
    }
}

/// Each part can be the tokens of the piece at the same place.
pub open spec fn all_fit(pieces: Seq<PieceView>, parts: Seq<Seq<Tok>>) -> bool {
    parts.len() == pieces.len() && forall|i: int|
        0 <= i < pieces.len() ==> fits(pieces[i], #[trigger] parts[i])
}

/// The tokens can be those of all pieces, one after the other. No piece is a text.
pub open spec fn is_rendering(pieces: Seq<PieceView>, tokens: Seq<Tok>) -> bool {
    exists|parts: Seq<Seq<Tok>>| #[trigger] all_fit(pieces, parts) && tokens == joined(parts)
}

/// What a piece stands for: a text stands for the pieces that it spells out, if it does.
pub open spec fn leaves(piece: PieceView) -> Option<Seq<PieceView>> {
    match piece {
        PieceView::Text(text) => crate::spelling::spelled(text),
        _ => Some(seq![piece]),
    }
}

/// What all pieces stand for, one after the other.
pub open spec fn flat(pieces: Seq<PieceView>) -> Option<Seq<PieceView>>
    decreases pieces.len(),
{
    if pieces.len() == 0 {
        Some(Seq::empty())
    } else {
        match (flat(pieces.drop_last()), leaves(pieces.last())) {
            (Some(before), Some(last)) => Some(before + last),
            _ => None,
        }
    }
}

/// The pieces of a group.
pub open spec fn grouped(delim: Delim, inner: Seq<PieceView>) -> Seq<PieceView> {
    seq![PieceView::Open(delim)] + inner + seq![PieceView::Close(delim)]
}

/// The delimiters that are open after the pieces, where `open` are open before, unless one is
/// closed that is not the last open one.
pub open spec fn nesting(open: Seq<Delim>, pieces: Seq<PieceView>) -> Option<Seq<Delim>>
    decreases pieces.len(),
{
    if pieces.len() == 0 {
        Some(open)
    } else {
        match nesting(open, pieces.drop_last()) {
            None => None,
            Some(now) => match pieces.last() {
                PieceView::Open(delim) => Some(now.push(delim)),
                PieceView::Close(delim) => if now.len() > 0 && now.last() == delim {
                    Some(now.drop_last())
                } else {
                    None
                },
                _ => Some(now),
            },
        }
    }
}

/// Every delimiter that the pieces open they close again.
pub open spec fn balanced(pieces: Seq<PieceView>) -> bool {
    nesting(Seq::empty(), pieces) matches Some(open) && open.len() == 0
}

/// Every text spells out pieces, and every delimiter that is opened is closed again.
#[verifier::opaque]
pub open spec fn is_code(pieces: Seq<PieceView>) -> bool {
    flat(pieces) matches Some(leaves) && balanced(leaves)
}

/// What is to be an identifier may be one, and what is to be a punctuation mark is one.
pub open spec fn is_possible(piece: PieceView) -> bool {
    match piece {
        PieceView::Ident(text) => may_be_ident(text),
        PieceView::Mark(mark, _) => is_mark(mark),
        _ => true,
    }
}

/// Every piece is possible.
pub open spec fn all_possible(pieces: Seq<PieceView>) -> bool {
    forall|i: int| 0 <= i < pieces.len() ==> is_possible(#[trigger] pieces[i])
}

/// Some identifier may be refused.
pub open spec fn may_refuse_name(pieces: Seq<PieceView>) -> bool {
    exists|i: int|
        0 <= i < pieces.len() && ((#[trigger] pieces[i]) matches PieceView::Ident(text)
            && may_be_refused(text))
}

/// Why code has no tokens.
#[derive(Clone, Copy, Debug, PartialEq, Eq, Structural)]
pub enum ExpandError {
    /// A name is no identifier, such as `get_r#type`.
    NotIdentifier,
    /// A text spells out no tokens, or delimiters do not match.
    NotTokens,
}

/// No piece is a text.
pub open spec fn no_text(pieces: Seq<PieceView>) -> bool {
    forall|i: int| 0 <= i < pieces.len() ==> !((#[trigger] pieces[i]) is Text)
}

proof fn lemma_flat(pieces: Seq<PieceView>)
    requires
        all_possible(pieces),
        flat(pieces) is Some,
    ensures
        all_possible(flat(pieces)->0),
        no_text(flat(pieces)->0),
    decreases pieces.len(),
{
    if pieces.len() > 0 {
        lemma_flat(pieces.drop_last());
        match pieces.last() {
            PieceView::Text(text) => crate::spelling::lemma_spelled(text),
            _ => assert(pieces[pieces.len() - 1] == pieces.last()),
        }
        let before = flat(pieces.drop_last())->0;
        let last = leaves(pieces.last())->0;
        let all = before + last;
        assert forall|i: int| 0 <= i < all.len() implies !((#[trigger] all[i]) is Text)
            && is_possible(all[i]) by {
            if i < before.len() {
                assert(all[i] == before[i]);
            } else {
                assert(all[i] == last[i - before.len()]);
            }
        }
    }
}

proof fn lemma_flat_prefix(pieces: Seq<PieceView>, i: int)
    requires
        0 <= i <= pieces.len(),
        flat(pieces.take(i)) is None,
    ensures
        flat(pieces) is None,
    decreases pieces.len() - i,
{
    if i == pieces.len() {
        assert(pieces.take(i) =~= pieces);
    } else {
        assert(pieces.take(i + 1).drop_last() =~= pieces.take(i));
        lemma_flat_prefix(pieces, i + 1);
    }
}

proof fn lemma_nesting_prefix(pieces: Seq<PieceView>, i: int)
    requires
        0 <= i <= pieces.len(),
        nesting(Seq::empty(), pieces) is Some,
    ensures
        nesting(Seq::empty(), pieces.take(i)) is Some,
    decreases pieces.len() - i,
{
    if i == pieces.len() {
        assert(pieces.take(i) =~= pieces);
    } else {
        lemma_nesting_prefix(pieces, i + 1);
        assert(pieces.take(i + 1).drop_last() =~= pieces.take(i));
    }
}

/// The text spells out pieces, and closes every delimiter that it opens.
#[verifier::opaque]
pub open spec fn is_code_text(text: Seq<char>) -> bool {
    crate::spelling::spelled(text) matches Some(pieces) && balanced(pieces)
}

pub proof fn lemma_nesting_add(open: Seq<Delim>, a: Seq<PieceView>, b: Seq<PieceView>)
    ensures
        nesting(open, a + b) == match nesting(open, a) {
            Some(now) => nesting(now, b),
            None => None,
        },
    decreases b.len(),
{
    if b.len() == 0 {
        assert(a + b =~= a);
    } else {
        assert((a + b).drop_last() =~= a + b.drop_last());
        lemma_nesting_add(open, a, b.drop_last());
    }
}

proof fn lemma_nesting_under(base: Seq<Delim>, open: Seq<Delim>, pieces: Seq<PieceView>)
    requires
        nesting(open, pieces) is Some,
    ensures
        nesting(base + open, pieces) == Some(base + nesting(open, pieces)->0),
    decreases pieces.len(),
{
    if pieces.len() > 0 {
        lemma_nesting_under(base, open, pieces.drop_last());
        let now = nesting(open, pieces.drop_last())->0;
        match pieces.last() {
            PieceView::Open(delim) => {
                assert((base + now).push(delim) =~= base + now.push(delim));
            },
            PieceView::Close(_) => {
                assert((base + now).drop_last() =~= base + now.drop_last());
            },
            _ => {},
        }
    }
}

pub proof fn lemma_flat_add(a: Seq<PieceView>, b: Seq<PieceView>)
    ensures
        flat(a + b) == match (flat(a), flat(b)) {
            (Some(x), Some(y)) => Some(x + y),
            _ => None,
        },
    decreases b.len(),
{
    if b.len() == 0 {
        assert(a + b =~= a);
        if let Some(x) = flat(a) {
            assert(x + Seq::<PieceView>::empty() =~= x);
        }
    } else {
        assert((a + b).drop_last() =~= a + b.drop_last());
        lemma_flat_add(a, b.drop_last());
        if let (Some(x), Some(y), Some(z)) = (flat(a), flat(b.drop_last()), leaves(b.last())) {
            assert((x + y) + z =~= x + (y + z));
        }
    }
}

/// Code, followed by code, is code.
pub broadcast proof fn lemma_code_add(a: Seq<PieceView>, b: Seq<PieceView>)
    requires
        is_code(a),
        is_code(b),
    ensures
        #[trigger] is_code(a + b),
{
    reveal(is_code);
    lemma_flat_add(a, b);
    lemma_nesting_add(Seq::empty(), flat(a)->0, flat(b)->0);
    assert(nesting(Seq::empty(), flat(a)->0)->0 =~= Seq::<Delim>::empty());
}

pub proof fn lemma_flat_single(piece: PieceView)
    ensures
        flat(seq![piece]) == leaves(piece),
{
    reveal_with_fuel(flat, 2);
    assert(seq![piece].drop_last() =~= Seq::<PieceView>::empty());
    if let Some(last) = leaves(piece) {
        assert(Seq::<PieceView>::empty() + last =~= last);
    }
}

/// A text that spells out code is code, and so is a piece that is neither a text nor a delimiter.
pub open spec fn is_code_piece(piece: PieceView) -> bool {
    match piece {
        PieceView::Text(text) => is_code_text(text),
        PieceView::Open(_) => false,
        PieceView::Close(_) => false,
        _ => true,
    }
}

/// Every piece is code by itself.
pub open spec fn all_code_pieces(pieces: Seq<PieceView>) -> bool {
    forall|i: int| 0 <= i < pieces.len() ==> is_code_piece(#[trigger] pieces[i])
}

/// Pieces each of which is code by itself are code.
pub broadcast proof fn lemma_code_pieces(pieces: Seq<PieceView>)
    requires
        all_code_pieces(pieces),
    ensures
        #[trigger] is_code(pieces),
    decreases pieces.len(),
{
    reveal(is_code);
    reveal(is_code_text);
    if pieces.len() > 0 {
        let before = pieces.drop_last();
        let piece = pieces.last();
        assert(pieces[pieces.len() - 1] == piece);
        lemma_code_pieces(before);
        lemma_flat_single(piece);
        if !(piece is Text) {
            reveal_with_fuel(nesting, 2);
            assert(seq![piece].drop_last() =~= Seq::<PieceView>::empty());
        }
        lemma_code_add(before, seq![piece]);
        assert(pieces =~= before + seq![piece]);
    }
}

/// A group of code is code.
pub broadcast proof fn lemma_code_group(delim: Delim, inner: Seq<PieceView>)
    requires
        is_code(inner),
    ensures
        #[trigger] is_code(grouped(delim, inner)),
{
    reveal(is_code);
    let none = Seq::<Delim>::empty();
    let one = seq![delim];
    let start = seq![PieceView::Open(delim)];
    let end = seq![PieceView::Close(delim)];
    let middle = flat(inner)->0;
    lemma_flat_single(PieceView::Open(delim));
    lemma_flat_single(PieceView::Close(delim));
    lemma_flat_add(start, inner);
    lemma_flat_add(start + inner, end);
    reveal_with_fuel(nesting, 2);
    assert(start.drop_last() =~= Seq::<PieceView>::empty());
    assert(end.drop_last() =~= Seq::<PieceView>::empty());
    assert(none.push(delim) =~= one);
    assert(nesting(none, start) == Some(one));
    lemma_nesting_under(one, none, middle);
    assert(one + none =~= one);
    assert(nesting(none, middle)->0 =~= none);
    lemma_nesting_add(none, start, middle);
    assert(one.drop_last() =~= none);
    assert(nesting(one, end) == Some(none));
    lemma_nesting_add(none, start + middle, end);
}

/// How code is put together.
pub broadcast group group_code {
    lemma_code_pieces,
    lemma_code_add,
    lemma_code_group,
}

/// Nothing is left open of the piece.
pub open spec fn is_certain(piece: PieceView) -> bool {
    piece is Text || certain_tokens(piece) is Some
}

/// Nothing is left open of any piece: each identifier is of ASCII, and no string has anything to
/// escape.
pub open spec fn all_certain(pieces: Seq<PieceView>) -> bool {
    forall|i: int| 0 <= i < pieces.len() ==> is_certain(#[trigger] pieces[i])
}

/// The certain tokens of each piece.
pub open spec fn certain_parts(pieces: Seq<PieceView>) -> Seq<Seq<Tok>> {
    pieces.map_values(|piece: PieceView| certain_tokens(piece)->0)
}

/// The tokens of code of which nothing is left open.
pub open spec fn exact_tokens(code: Seq<PieceView>) -> Seq<Tok> {
    joined(certain_parts(flat(code)->0))
}

proof fn lemma_flat_certain(pieces: Seq<PieceView>)
    requires
        all_certain(pieces),
        flat(pieces) is Some,
    ensures
        all_certain(flat(pieces)->0),
        no_text(flat(pieces)->0),
    decreases pieces.len(),
{
    if pieces.len() > 0 {
        lemma_flat_certain(pieces.drop_last());
        let before = flat(pieces.drop_last())->0;
        let last = leaves(pieces.last())->0;
        let all = before + last;
        match pieces.last() {
            PieceView::Text(text) => crate::spelling::lemma_spelled(text),
            _ => assert(pieces[pieces.len() - 1] == pieces.last()),
        }
        assert forall|i: int| 0 <= i < all.len() implies !((#[trigger] all[i]) is Text)
            && is_certain(all[i]) by {
            if i < before.len() {
                assert(all[i] == before[i]);
            } else {
                assert(all[i] == last[i - before.len()]);
            }
        }
    }
}

/// `r` is a stream of the tokens of the code: the certain ones, where nothing is left open. A name
/// outside of ASCII that the compiler refuses is an error.
pub open spec fn is_rendered(code: Seq<PieceView>, r: Result<TokenStream, ExpandError>) -> bool {
    if all_certain(code) {
        r is Ok && stream_tokens(r->Ok_0) == exact_tokens(code)
    } else {
        match r {
            Ok(stream) => is_rendering(flat(code)->0, stream_tokens(stream)),
            Err(error) => error == ExpandError::NotIdentifier && may_refuse_name(flat(code)->0),
        }
    }
}

/// `r` is a stream of the tokens of the code, or the error where that is none.
pub open spec fn is_stream_of(code: Seq<PieceView>, r: Result<TokenStream, ExpandError>) -> bool {
    if is_code(code) {
        is_rendered(code, r)
    } else {
        r is Err && r->Err_0 == ExpandError::NotTokens
    }
}

proof fn lemma_certain_names(code: Seq<PieceView>)
    requires
        flat(code) is Some,
        all_certain(code),
    ensures
        !may_refuse_name(flat(code)->0),
{
    lemma_flat_certain(code);
    let pieces = flat(code)->0;
    assert forall|i: int| 0 <= i < pieces.len() implies ((#[trigger] pieces[i]) matches
        PieceView::Ident(text) ==> !may_be_refused(text)) by {
        assert(is_certain(pieces[i]));
    }
}

/// Code of which nothing is left open has just one rendering: the certain tokens of each piece,
/// one after the other.
pub proof fn law_certain_code_is_exact(code: Seq<PieceView>, tokens: Seq<Tok>)
    requires
        flat(code) is Some,
        all_certain(code),
    ensures
        is_rendering(flat(code)->0, tokens) <==> tokens == exact_tokens(code),
{
    lemma_flat_certain(code);
    let pieces = flat(code)->0;
    let parts = certain_parts(pieces);
    assert forall|i: int| 0 <= i < pieces.len() implies fits(pieces[i], #[trigger] parts[i]) by {
        assert(is_certain(pieces[i]));
    }
    assert(all_fit(pieces, parts));
    if is_rendering(pieces, tokens) {
        let found = choose|found: Seq<Seq<Tok>>| #[trigger]
            all_fit(pieces, found) && tokens == joined(found);
        assert forall|i: int| 0 <= i < parts.len() implies found[i] == parts[i] by {
            assert(fits(pieces[i], found[i]));
            assert(is_certain(pieces[i]));
        }
        assert(found =~= parts);
    }
}

/// Code that is being put together.
pub struct Code {
    pieces: Vec<Piece>,
}

impl View for Code {
    type V = Seq<PieceView>;

    closed spec fn view(&self) -> Seq<PieceView> {
        piece_models(self.pieces@)
    }
}

/// A group whose delimiter is open: what came before it, and the delimiter.
struct Level {
    before: TokenStream,
    delim: Delim,
}

impl Level {
    spec fn model(self) -> (Seq<Tok>, Delim) {
        (stream_tokens(self.before), self.delim)
    }
}

spec fn level_models(levels: Seq<Level>) -> Seq<(Seq<Tok>, Delim)> {
    levels.map_values(|level: Level| level.model())
}

spec fn open_delims(levels: Seq<(Seq<Tok>, Delim)>) -> Seq<Delim> {
    levels.map_values(|level: (Seq<Tok>, Delim)| level.1)
}

/// All tokens so far: those before and at each open delimiter, and those after the last one.
spec fn flattened(levels: Seq<(Seq<Tok>, Delim)>, current: Seq<Tok>) -> Seq<Tok>
    decreases levels.len(),
{
    if levels.len() == 0 {
        current
    } else {
        flattened(
            levels.drop_last(),
            levels.last().0 + seq![Tok::Open(levels.last().1)] + current,
        )
    }
}

proof fn lemma_flattened_add(levels: Seq<(Seq<Tok>, Delim)>, current: Seq<Tok>, more: Seq<Tok>)
    ensures
        flattened(levels, current + more) == flattened(levels, current) + more,
    decreases levels.len(),
{
    if levels.len() > 0 {
        let start = levels.last().0 + seq![Tok::Open(levels.last().1)];
        assert(start + (current + more) =~= (start + current) + more);
        lemma_flattened_add(levels.drop_last(), start + current, more);
    }
}

/// The stream of a piece that is neither a text nor a delimiter.
fn leaf_stream(piece: &Piece) -> (r: Option<TokenStream>)
    requires
        !(piece is Text),
        !(piece is Open),
        !(piece is Close),
        piece matches Piece::Ident(text) ==> may_be_ident(text@),
        piece matches Piece::Mark(mark, _) ==> is_mark(*mark),
    ensures
        r is None ==> (piece matches Piece::Ident(text) && may_be_refused(text@)),
        r matches Some(stream) ==> fits(piece.model(), stream_tokens(stream)),
{
    match piece {
        Piece::Tokens(stream) => Some(clone_stream(stream)),
        Piece::Ident(text) => ident_stream(text.as_str()),
        Piece::Underscore => Some(underscore_stream()),
        Piece::Mark(mark, gap) => Some(mark_stream(*mark, *gap)),
        Piece::Number(n) => Some(number_stream(*n)),
        Piece::Byte(n) => Some(byte_stream(*n)),
        Piece::Size(n) => Some(size_stream(*n)),
        Piece::Str(value) => Some(string_stream(value.as_str())),
        Piece::Text(_) | Piece::Open(_) | Piece::Close(_) => None,
    }
}

/// Whether every delimiter that the pieces open they close again.
fn is_balanced(pieces: &Vec<Piece>) -> (r: bool)
    ensures
        r == balanced(piece_models(pieces@)),
{
    let ghost models = piece_models(pieces@);
    let mut open: Vec<Delim> = Vec::new();
    let mut i: usize = 0;
    assert(models.take(0) =~= Seq::<PieceView>::empty());
    while i < pieces.len()
        invariant
            models == piece_models(pieces@),
            i <= pieces@.len(),
            nesting(Seq::empty(), models.take(i as int)) == Some(open@),
        decreases pieces@.len() - i,
    {
        proof {
            assert(models.take(i + 1).drop_last() =~= models.take(i as int));
            assert(models.take(i + 1).last() == pieces@[i as int].model());
        }
        match &pieces[i] {
            Piece::Open(delim) => open.push(*delim),
            Piece::Close(delim) => {
                let n: usize = open.len();
                if n == 0 || open[n - 1] != *delim {
                    proof {
                        if nesting(Seq::empty(), models) is Some {
                            lemma_nesting_prefix(models, i + 1);
                        }
                    }
                    return false;
                }
                let ghost before = open@;
                let _ = open.pop();
                assert(open@ =~= before.drop_last());
            },
            _ => {},
        }
        i = i + 1;
    }
    assert(models.take(i as int) =~= models);
    open.len() == 0
}

/// The stream of the tokens of all pieces, unless a name is no identifier.
fn render(pieces: &Vec<Piece>) -> (r: Result<TokenStream, ExpandError>)
    requires
        balanced(piece_models(pieces@)),
        all_possible(piece_models(pieces@)),
        no_text(piece_models(pieces@)),
    ensures
        r matches Ok(stream) ==> is_rendering(piece_models(pieces@), stream_tokens(stream)),
        r matches Err(error) ==> error == ExpandError::NotIdentifier && may_refuse_name(
            piece_models(pieces@),
        ),
{
    let ghost models = piece_models(pieces@);
    let ghost mut parts: Seq<Seq<Tok>> = Seq::empty();
    let mut levels: Vec<Level> = Vec::new();
    let mut current: TokenStream = new_stream();
    let mut i: usize = 0;
    proof {
        assert(models.take(0) =~= Seq::<PieceView>::empty());
        assert(level_models(levels@) =~= Seq::<(Seq<Tok>, Delim)>::empty());
        assert(open_delims(level_models(levels@)) =~= Seq::<Delim>::empty());
    }
    while i < pieces.len()
        invariant
            models == piece_models(pieces@),
            balanced(models),
            all_possible(models),
            no_text(models),
            i <= pieces@.len(),
            nesting(Seq::empty(), models.take(i as int)) == Some(
                open_delims(level_models(levels@)),
            ),
            all_fit(models.take(i as int), parts),
            joined(parts) == flattened(level_models(levels@), stream_tokens(current)),
        decreases pieces@.len() - i,
    {
        let ghost before_levels = level_models(levels@);
        let ghost tokens = stream_tokens(current);
        let ghost old_parts = parts;
        let ghost mut part: Seq<Tok> = Seq::empty();
        proof {
            assert(models[i as int] == pieces@[i as int].model());
            assert(models.take(i + 1).drop_last() =~= models.take(i as int));
            assert(models.take(i + 1).last() == models[i as int]);
            lemma_nesting_prefix(models, i + 1);
        }
        match &pieces[i] {
            Piece::Open(delim) => {
                levels.push(Level { before: current, delim: *delim });
                current = new_stream();
                proof {
                    part = seq![Tok::Open(*delim)];
                    let now = level_models(levels@);
                    assert(now =~= before_levels.push((tokens, *delim)));
                    assert(now.drop_last() =~= before_levels);
                    assert(open_delims(now) =~= open_delims(before_levels).push(*delim));
                    assert(tokens + part + stream_tokens(current) =~= tokens + part);
                    lemma_flattened_add(before_levels, tokens, part);
                }
            },
            Piece::Close(delim) => {
                assert(open_delims(before_levels).len() > 0);
                assert(open_delims(before_levels).last() == before_levels.last().1);
                match levels.pop() {
                    Some(level) => {
                        let mut before = level.before;
                        let ghost start = stream_tokens(before);
                        append_stream(&mut before, group_stream(*delim, current));
                        current = before;
                        proof {
                            part = seq![Tok::Close(*delim)];
                            let now = level_models(levels@);
                            assert(before_levels.last() == level.model());
                            assert(now =~= before_levels.drop_last());
                            assert(open_delims(now) =~= open_delims(before_levels).drop_last());
                            let open = seq![Tok::Open(*delim)];
                            assert(start + (open + tokens + part) =~= (start + open + tokens)
                                + part);
                            lemma_flattened_add(now, start + open + tokens, part);
                        }
                    },
                    None => {
                        assert(false);
                        return Err(ExpandError::NotIdentifier);
                    },
                }
            },
            leaf => match leaf_stream(leaf) {
                Some(stream) => {
                    proof {
                        part = stream_tokens(stream);
                        lemma_flattened_add(before_levels, tokens, part);
                    }
                    append_stream(&mut current, stream);
                },
                None => {
                    assert(models[i as int] is Ident);
                    return Err(ExpandError::NotIdentifier);
                },
            },
        }
        proof {
            parts = old_parts.push(part);
            assert(parts.drop_last() =~= old_parts);
            let done = models.take(i + 1);
            assert forall|j: int| 0 <= j < done.len() implies fits(
                done[j],
                #[trigger] parts[j],
            ) by {
                if j < i {
                    assert(done[j] == models.take(i as int)[j]);
                    assert(fits(models.take(i as int)[j], old_parts[j]));
                }
            }
        }
        i = i + 1;
    }
    proof {
        assert(models.take(i as int) =~= models);
        assert(open_delims(level_models(levels@)).len() == 0);
        assert(all_fit(models, parts));
    }
    Ok(current)
}

impl Code {
    /// What is to be an identifier may be one.
    pub closed spec fn wf(self) -> bool {
        all_possible(self@)
    }

    /// No code.
    pub fn new() -> (r: Code)
        ensures
            r.wf(),
            r@ == Seq::<PieceView>::empty(),
    {
        let r = Code { pieces: Vec::new() };
        assert(r@ =~= Seq::<PieceView>::empty());
        r
    }

    fn push(&mut self, piece: Piece)
        requires
            old(self).wf(),
            is_possible(piece.model()),
        ensures
            final(self).wf(),
            final(self)@ == old(self)@.push(piece.model()),
    {
        self.pieces.push(piece);
        assert(self@ =~= old(self)@.push(piece.model()));
    }

    /// Adds the pieces that a text spells out.
    pub fn text(&mut self, text: &'static str)
        requires
            old(self).wf(),
        ensures
            final(self).wf(),
            final(self)@ == old(self)@.push(PieceView::Text(text@)),
    {
        self.push(Piece::Text(text));
    }

    /// Adds the tokens of a stream.
    pub fn tokens(&mut self, stream: &TokenStream)
        requires
            old(self).wf(),
        ensures
            final(self).wf(),
            final(self)@ == old(self)@.push(PieceView::Tokens(stream_tokens(*stream))),
    {
        self.push(Piece::Tokens(clone_stream(stream)));
    }

    /// Adds an identifier.
    pub fn ident(&mut self, text: String)
        requires
            old(self).wf(),
            may_be_ident(text@),
        ensures
            final(self).wf(),
            final(self)@ == old(self)@.push(PieceView::Ident(text@)),
    {
        self.push(Piece::Ident(text));
    }

    /// Adds the literal for a string.
    pub fn string(&mut self, value: String)
        requires
            old(self).wf(),
        ensures
            final(self).wf(),
            final(self)@ == old(self)@.push(PieceView::Str(value@)),
    {
        self.push(Piece::Str(value));
    }

    /// Adds a number of the type `u8`.
    pub fn byte(&mut self, n: u8)
        requires
            old(self).wf(),
        ensures
            final(self).wf(),
            final(self)@ == old(self)@.push(PieceView::Byte(n)),
    {
        self.push(Piece::Byte(n));
    }

    /// Adds a number of the type `usize`.
    pub fn size(&mut self, n: usize)
        requires
            old(self).wf(),
        ensures
            final(self).wf(),
            final(self)@ == old(self)@.push(PieceView::Size(n)),
    {
        self.push(Piece::Size(n));
    }

    /// Adds other code.
    pub fn append(&mut self, code: Code)
        requires
            old(self).wf(),
            code.wf(),
        ensures
            final(self).wf(),
            final(self)@ == old(self)@ + code@,
    {
        let mut code = code;
        let ghost added = code@;
        self.pieces.append(&mut code.pieces);
        assert(self@ =~= old(self)@ + added);
    }

    /// Adds a group of other code.
    pub fn group(&mut self, delim: Delim, code: Code)
        requires
            old(self).wf(),
            code.wf(),
        ensures
            final(self).wf(),
            final(self)@ == old(self)@ + grouped(delim, code@),
    {
        let ghost inner = code@;
        self.push(Piece::Open(delim));
        self.append(code);
        self.push(Piece::Close(delim));
        assert(self@ =~= old(self)@ + grouped(delim, inner));
    }

    /// What all pieces stand for, one after the other.
    fn flatten(&self) -> (r: Option<Vec<Piece>>)
        ensures
            r matches Some(leaves) ==> flat(self@) == Some(piece_models(leaves@)),
            r is None ==> flat(self@) is None,
    {
        let ghost pieces = self@;
        let mut all: Vec<Piece> = Vec::new();
        let mut i: usize = 0;
        assert(pieces.take(0) =~= Seq::<PieceView>::empty());
        assert(piece_models(all@) =~= Seq::<PieceView>::empty());
        while i < self.pieces.len()
            invariant
                pieces == self@,
                i <= self.pieces@.len(),
                flat(pieces.take(i as int)) == Some(piece_models(all@)),
            decreases self.pieces@.len() - i,
        {
            let ghost before = piece_models(all@);
            proof {
                assert(pieces.take(i + 1).drop_last() =~= pieces.take(i as int));
                assert(pieces.take(i + 1).last() == self.pieces@[i as int].model());
            }
            match &self.pieces[i] {
                Piece::Text(text) => match spell(text) {
                    Some(spelled) => {
                        let mut spelled = spelled;
                        let ghost more = piece_models(spelled@);
                        all.append(&mut spelled);
                        assert(piece_models(all@) =~= before + more);
                    },
                    None => {
                        proof {
                            lemma_flat_prefix(pieces, i + 1);
                        }
                        return None;
                    },
                },
                leaf => {
                    all.push(leaf.copy());
                    assert(piece_models(all@) =~= before + seq![leaf.model()]);
                },
            }
            i = i + 1;
        }
        assert(pieces.take(i as int) =~= pieces);
        Some(all)
    }

    /// The stream of all tokens.
    pub fn into_stream(self) -> (r: Result<TokenStream, ExpandError>)
        requires
            self.wf(),
        ensures
            is_stream_of(self@, r),
            r is Ok && all_certain(self@) ==> stream_tokens(r->Ok_0) == exact_tokens(self@),
            r matches Ok(stream) ==> is_code(self@) && is_rendering(
                flat(self@)->0,
                stream_tokens(stream),
            ),
            is_code(self@) && all_certain(self@) ==> r is Ok,
    {
        proof {
            reveal(is_code);
        }
        match self.flatten() {
            None => Err(ExpandError::NotTokens),
            Some(pieces) => {
                proof {
                    lemma_flat(self@);
                }
                if is_balanced(&pieces) {
                    let r = render(&pieces);
                    proof {
                        if all_certain(self@) {
                            lemma_certain_names(self@);
                            law_certain_code_is_exact(self@, stream_tokens(r->Ok_0));
                        }
                    }
                    r
                } else {
                    Err(ExpandError::NotTokens)
                }
            },
        }
    }
}

} // verus!
