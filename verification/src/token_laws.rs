//! What holds of the tokens of code: where each of them comes from, and which code has none.

use crate::definition::{Field, InputData, MacroInput};
use crate::tokens::{Delim, ExpandError, Gap, PieceView, Tok};
use proc_macro2::TokenStream;
use vstd::prelude::*;

verus! {

/// Digits come to the number that they write in decimal.
pub open spec fn digits_value(digits: Seq<char>) -> int {
    digits.fold_left(0int, |value: int, c: char| 10 * value + (c as int - 48))
}

/// A number in decimal comes to that number, is made of digits alone, and begins with a zero only
/// where it is zero.
pub proof fn law_decimal_comes_to_the_number(n: nat)
    ensures
        digits_value(crate::tokens::decimal(n)) == n,
        crate::tokens::decimal(n).len() > 0,
        forall|i: int|
            0 <= i < crate::tokens::decimal(n).len() ==> 48 <= (
            #[trigger] crate::tokens::decimal(n)[i]) as int <= 57,
        n > 0 ==> crate::tokens::decimal(n)[0] as int > 48,
    decreases n,
{
    let digits = crate::tokens::decimal(n);
    assert(digits.last() as int == 48 + n % 10);
    if n < 10 {
        reveal_with_fuel(Seq::fold_left, 2);
        assert(digits.drop_last() =~= Seq::<char>::empty());
    } else {
        law_decimal_comes_to_the_number(n / 10);
        assert(digits.drop_last() =~= crate::tokens::decimal(n / 10));
        assert(n == 10 * (n / 10) + n % 10);
    }
}

/// The characters that can stand in a name, by their numbers: those of the digits, of the letters
/// and of the underscore. Those of ASCII are numbered below 128, and a text is plain where it holds
/// no control character, no quotation mark and no backslash.
pub proof fn law_kinds_of_characters(c: char)
    ensures
        crate::tokens::is_ascii(c) <==> (c as int) < 128,
        crate::tokens::is_digit(c) <==> 48 <= (c as int) <= 57,
        crate::tokens::is_letter(c) <==> 65 <= (c as int) <= 90 || 97 <= (c as int) <= 122,
        crate::tokens::is_word_char(c) <==> 48 <= (c as int) <= 57 || 65 <= (c as int) <= 90 || c
            as int == 95 || 97 <= (c as int) <= 122,
        crate::tokens::is_plain(seq![c]) <==> 32 <= (c as int) < 127 && c as int != 34 && c as int
            != 92,
        crate::tokens::is_mark(c) <==> (33 <= (c as int) <= 47 && c as int != 34 && c as int != 36
            && !(39 <= (c as int) <= 41)) || 58 <= (c as int) <= 62 || c as int == 124,
        crate::spelling::is_gap(c) <==> c as int == 32 || c as int == 10,
{
    assert(seq![c][0] == c);
}

/// What is said of the characters of a text is said of each of them.
pub proof fn law_kinds_of_texts(text: Seq<char>)
    ensures
        crate::tokens::all_ascii(text) <==> forall|i: int|
            0 <= i < text.len() ==> (#[trigger] text[i] as int) < 128,
        crate::tokens::may_end_ident(text) <==> forall|i: int|
            0 <= i < text.len() ==> (#[trigger] text[i]) as int >= 128 || 48 <= (text[i] as int)
                <= 57 || 65 <= (text[i] as int) <= 90 || text[i] as int == 95 || 97 <= (
            text[i] as int) <= 122,
        crate::tokens::is_plain(text) <==> forall|i: int|
            0 <= i < text.len() ==> 32 <= (#[trigger] text[i] as int) < 127 && text[i] as int != 34
                && text[i] as int != 92,
        crate::tokens::is_word(text) <==> crate::tokens::may_end_ident(text)
            && crate::tokens::all_ascii(text) && text.len() > 0 && (65 <= (text[0] as int) <= 90
            || 97 <= (text[0] as int) <= 122),
        crate::tokens::may_be_ident(text) <==> crate::tokens::may_end_ident(text) && text.len() > 0
            && (65 <= (text[0] as int) <= 90 || 97 <= (text[0] as int) <= 122),
{
    assert forall|i: int| 0 <= i < text.len() implies #[trigger] crate::tokens::is_word_char(
        text[i],
    ) == (48 <= (text[i] as int) <= 57 || 65 <= (text[i] as int) <= 90 || text[i] as int == 95
        || 97 <= (text[i] as int) <= 122) by {
        law_kinds_of_characters(text[i]);
    }
    if crate::tokens::all_ascii(text) {
        assert forall|i: int| 0 <= i < text.len() implies (#[trigger] text[i] as int) < 128 by {
            assert(crate::tokens::is_ascii(text[i]));
        }
    }
    if crate::tokens::is_word(text) {
        assert forall|i: int| 0 <= i < text.len() implies crate::tokens::is_ascii(
            #[trigger] text[i],
        ) by {
            assert(crate::tokens::is_word_char(text[i]));
        }
        assert(crate::tokens::is_letter(text[0]));
    }
}

/// The tokens of each piece that is no text: those of a stream as they are, and one token for any
/// other. Only a name outside of ASCII and a string with something to escape leave it open.
pub proof fn law_tokens_of_pieces(
    tokens: Seq<Tok>,
    name: Seq<char>,
    mark: char,
    gap: Gap,
    byte: u8,
    size: usize,
    delim: Delim,
)
    ensures
        crate::tokens::certain_tokens(PieceView::Tokens(tokens)) == Some(tokens),
        crate::tokens::all_ascii(name) ==> crate::tokens::certain_tokens(PieceView::Ident(name))
            == Some(seq![Tok::Ident(name)]),
        !crate::tokens::all_ascii(name) ==> crate::tokens::certain_tokens(
            PieceView::Ident(name),
        ) is None,
        crate::tokens::certain_tokens(PieceView::Underscore) == Some(seq![Tok::Ident(seq!['_'])]),
        crate::tokens::certain_tokens(PieceView::Mark(mark, gap)) == Some(
            seq![Tok::Punct(mark, gap)],
        ),
        crate::tokens::certain_tokens(PieceView::Number(byte)) == Some(
            seq![Tok::Literal(crate::tokens::decimal(byte as nat))],
        ),
        crate::tokens::certain_tokens(PieceView::Byte(byte)) == Some(
            seq![Tok::Literal(crate::tokens::decimal(byte as nat) + "u8"@)],
        ),
        crate::tokens::certain_tokens(PieceView::Size(size)) == Some(
            seq![Tok::Literal(crate::tokens::decimal(size as nat) + "usize"@)],
        ),
        crate::tokens::is_plain(name) ==> crate::tokens::certain_tokens(PieceView::Str(name))
            == Some(seq![Tok::Literal(seq!['"'] + name + seq!['"'])]),
        !crate::tokens::is_plain(name) ==> crate::tokens::certain_tokens(
            PieceView::Str(name),
        ) is None,
        crate::tokens::certain_tokens(PieceView::Open(delim)) == Some(seq![Tok::Open(delim)]),
        crate::tokens::certain_tokens(PieceView::Close(delim)) == Some(seq![Tok::Close(delim)]),
{
}

/// A piece of which nothing is left open has its certain tokens and no others. Any other piece that
/// has tokens has one: for a name, the identifier that a compiler takes it for, and for a string,
/// the literal by which a compiler writes it.
pub proof fn law_fitting_tokens(piece: PieceView, tokens: Seq<Tok>)
    requires
        crate::tokens::fits(piece, tokens),
    ensures
        !(piece is Text),
        crate::tokens::certain_tokens(piece) is Some ==> crate::tokens::certain_tokens(piece)
            == Some(tokens),
        crate::tokens::certain_tokens(piece) is None ==> tokens.len() == 1,
        crate::tokens::certain_tokens(piece) is None ==> (piece matches PieceView::Ident(name)
            ==> exists|compiler: nat|
            tokens[0] == Tok::Ident(
                (#[trigger] crate::tokens::compiler_name(compiler, name))->0,
            ) && crate::tokens::compiler_name(compiler, name) is Some),
        crate::tokens::certain_tokens(piece) is None ==> (piece matches PieceView::Str(value)
            ==> exists|compiler: nat|
            tokens[0] == Tok::Literal(#[trigger] crate::tokens::compiler_literal(compiler, value))),
{
}

/// What pieces stand for is what the first ones stand for, followed by what the others do.
pub proof fn law_what_pieces_stand_for(a: Seq<PieceView>, b: Seq<PieceView>)
    ensures
        crate::tokens::flat(Seq::empty()) == Some(Seq::<PieceView>::empty()),
        crate::tokens::flat(a) is Some && crate::tokens::flat(b) is Some ==> crate::tokens::flat(
            a + b,
        ) == Some(crate::tokens::flat(a)->0 + crate::tokens::flat(b)->0),
        crate::tokens::flat(a) is None || crate::tokens::flat(b) is None ==> crate::tokens::flat(
            a + b,
        ) is None,
{
    crate::tokens::lemma_flat_add(a, b);
}

/// A piece stands for itself, but for a text, which stands for what it spells out.
pub proof fn law_what_a_piece_stands_for(piece: PieceView)
    ensures
        !(piece is Text) ==> crate::tokens::flat(seq![piece]) == Some(seq![piece]),
        piece matches PieceView::Text(text) ==> crate::tokens::flat(seq![piece])
            == crate::spelling::spelled(text),
{
    crate::tokens::lemma_flat_single(piece);
}

/// Streams in a row are those of the first part, followed by those of the second, and a single one
/// is itself.
pub proof fn law_tokens_in_a_row(a: Seq<Seq<Tok>>, b: Seq<Seq<Tok>>, c: Seq<Tok>)
    ensures
        crate::tokens::joined(a + b) == crate::tokens::joined(a) + crate::tokens::joined(b),
        crate::tokens::joined(seq![c]) == c,
        crate::tokens::joined(Seq::empty()) == Seq::<Tok>::empty(),
    decreases b.len(),
{
    reveal_with_fuel(crate::tokens::joined, 2);
    assert(seq![c].drop_last() =~= Seq::<Seq<Tok>>::empty());
    assert(crate::tokens::joined(seq![c]) =~= c);
    if b.len() == 0 {
        assert(a + b =~= a);
        assert(crate::tokens::joined(a) + Seq::<Tok>::empty() =~= crate::tokens::joined(a));
    } else {
        assert((a + b).drop_last() =~= a + b.drop_last());
        law_tokens_in_a_row(a, b.drop_last(), c);
        assert((crate::tokens::joined(a) + crate::tokens::joined(b.drop_last())) + b.last()
            =~= crate::tokens::joined(a) + (crate::tokens::joined(b.drop_last()) + b.last()));
    }
}

/// The tokens of code are those of its first part, followed by those of the rest.
pub proof fn law_exact_tokens_in_a_row(a: Seq<PieceView>, b: Seq<PieceView>)
    requires
        crate::tokens::flat(a) is Some,
        crate::tokens::flat(b) is Some,
    ensures
        crate::tokens::exact_tokens(a + b) == crate::tokens::exact_tokens(a)
            + crate::tokens::exact_tokens(b),
{
    crate::tokens::lemma_flat_add(a, b);
    let x = crate::tokens::flat(a)->0;
    let y = crate::tokens::flat(b)->0;
    assert(crate::tokens::certain_parts(x + y) =~= crate::tokens::certain_parts(x)
        + crate::tokens::certain_parts(y));
    law_tokens_in_a_row(
        crate::tokens::certain_parts(x),
        crate::tokens::certain_parts(y),
        Seq::empty(),
    );
}

/// The tokens of a single piece that is no text are those of the piece.
pub proof fn law_exact_tokens_of_a_piece(piece: PieceView)
    requires
        crate::tokens::certain_tokens(piece) is Some,
    ensures
        Some(crate::tokens::exact_tokens(seq![piece])) == crate::tokens::certain_tokens(piece),
{
    crate::tokens::lemma_flat_single(piece);
    let tokens = crate::tokens::certain_tokens(piece)->0;
    assert(crate::tokens::certain_parts(seq![piece]) =~= seq![tokens]);
    law_tokens_in_a_row(Seq::empty(), Seq::empty(), tokens);
}

/// Renderings of two parts in a row are a rendering of the whole.
pub proof fn law_renderings_in_a_row(
    a: Seq<PieceView>,
    b: Seq<PieceView>,
    first: Seq<Tok>,
    second: Seq<Tok>,
)
    requires
        crate::tokens::is_rendering(a, first),
        crate::tokens::is_rendering(b, second),
    ensures
        crate::tokens::is_rendering(a + b, first + second),
{
    let x = choose|parts: Seq<Seq<Tok>>| #[trigger]
        crate::tokens::all_fit(a, parts) && first == crate::tokens::joined(parts);
    let y = choose|parts: Seq<Seq<Tok>>| #[trigger]
        crate::tokens::all_fit(b, parts) && second == crate::tokens::joined(parts);
    law_tokens_in_a_row(x, y, Seq::empty());
    let pieces = a + b;
    let parts = x + y;
    assert forall|i: int| 0 <= i < pieces.len() implies crate::tokens::fits(
        pieces[i],
        #[trigger] parts[i],
    ) by {
        if i < a.len() {
            assert(crate::tokens::fits(a[i], x[i]));
        } else {
            assert(crate::tokens::fits(b[i - a.len()], y[i - a.len()]));
        }
    }
    assert(crate::tokens::all_fit(pieces, parts));
}

/// A rendering of pieces holds tokens of each of them, one after the other: it is a rendering of
/// all but the last, followed by tokens that fit the last.
pub proof fn law_rendering_ends_with_the_last(pieces: Seq<PieceView>, tokens: Seq<Tok>)
    requires
        crate::tokens::is_rendering(pieces, tokens),
    ensures
        pieces.len() == 0 ==> tokens.len() == 0,
        pieces.len() > 0 ==> exists|k: int|
            0 <= k <= tokens.len() && crate::tokens::is_rendering(
                pieces.drop_last(),
                #[trigger] tokens.take(k),
            ) && crate::tokens::fits(pieces.last(), tokens.skip(k)),
{
    let parts = choose|parts: Seq<Seq<Tok>>| #[trigger]
        crate::tokens::all_fit(pieces, parts) && tokens == crate::tokens::joined(parts);
    if pieces.len() > 0 {
        let before = parts.drop_last();
        let start = crate::tokens::joined(before);
        assert forall|i: int| 0 <= i < before.len() implies crate::tokens::fits(
            pieces.drop_last()[i],
            #[trigger] before[i],
        ) by {
            assert(crate::tokens::fits(pieces[i], parts[i]));
        }
        assert(crate::tokens::all_fit(pieces.drop_last(), before));
        assert(crate::tokens::fits(pieces[pieces.len() - 1], parts[parts.len() - 1]));
        assert(tokens.take(start.len() as int) =~= start);
        assert(tokens.skip(start.len() as int) =~= parts.last());
    }
}

/// What is open after one more piece: a delimiter that is opened is open then, one that is closed
/// has to be the last that was opened, and other pieces change nothing.
pub proof fn law_nesting(open: Seq<Delim>, pieces: Seq<PieceView>, piece: PieceView)
    ensures
        crate::tokens::nesting(open, Seq::empty()) == Some(open),
        crate::tokens::nesting(open, pieces) is None ==> crate::tokens::nesting(
            open,
            pieces.push(piece),
        ) is None,
        crate::tokens::nesting(open, pieces) matches Some(now) ==> {
            &&& piece matches PieceView::Open(delim) ==> crate::tokens::nesting(
                open,
                pieces.push(piece),
            ) == Some(now.push(delim))
            &&& piece matches PieceView::Close(delim) ==> (now.len() > 0 && now.last() == delim
                ==> crate::tokens::nesting(open, pieces.push(piece)) == Some(now.drop_last()))
            &&& piece matches PieceView::Close(delim) ==> (now.len() == 0 || now.last() != delim
                ==> crate::tokens::nesting(open, pieces.push(piece)) is None)
            &&& !(piece is Open) && !(piece is Close) ==> crate::tokens::nesting(
                open,
                pieces.push(piece),
            ) == Some(now)
        },
{
    assert(pieces.push(piece).drop_last() =~= pieces);
}

/// Pieces are code just when every text spells out tokens and no delimiter is left open.
pub proof fn law_what_code_is(pieces: Seq<PieceView>)
    ensures
        crate::tokens::is_code(pieces) <==> crate::tokens::flat(pieces) is Some
            && crate::tokens::nesting(Seq::empty(), crate::tokens::flat(pieces)->0) == Some(
            Seq::<Delim>::empty(),
        ),
{
    reveal(crate::tokens::is_code);
    if crate::tokens::is_code(pieces) {
        let open = crate::tokens::nesting(Seq::empty(), crate::tokens::flat(pieces)->0)->0;
        assert(open =~= Seq::<Delim>::empty());
    }
}

/// What becomes of code: its tokens where nothing is left open, some rendering of it otherwise, and
/// an error where it is no code, or where a compiler may refuse a name in it.
pub proof fn law_stream_of_code(code: Seq<PieceView>, r: Result<TokenStream, ExpandError>)
    requires
        crate::tokens::is_stream_of(code, r),
    ensures
        r == Err::<TokenStream, ExpandError>(ExpandError::NotTokens) <==> !crate::tokens::is_code(
            code,
        ),
        crate::tokens::is_code(code) && crate::tokens::all_certain(code) ==> r is Ok
            && crate::tokens::stream_tokens(r->Ok_0) == crate::tokens::exact_tokens(code),
        r matches Ok(stream) ==> crate::tokens::is_rendering(
            crate::tokens::flat(code)->0,
            crate::tokens::stream_tokens(stream),
        ),
        r == Err::<TokenStream, ExpandError>(ExpandError::NotIdentifier) ==> exists|i: int|
            0 <= i < crate::tokens::flat(code)->0.len() && ((
            #[trigger] crate::tokens::flat(code)->0[i]) matches PieceView::Ident(name)
                && !crate::tokens::all_ascii(name) && exists|compiler: nat|
                #[trigger] crate::tokens::compiler_name(compiler, name) is None),
{
    reveal(crate::tokens::is_code);
    if crate::tokens::is_code(code) && crate::tokens::all_certain(code) {
        crate::tokens::law_certain_code_is_exact(code, crate::tokens::stream_tokens(r->Ok_0));
    }
}

/// Nothing is left open of pieces just when each name is of ASCII and each string is plain.
pub proof fn law_certain_pieces(pieces: Seq<PieceView>)
    ensures
        crate::tokens::all_certain(pieces) <==> forall|i: int|
            0 <= i < pieces.len() ==> match #[trigger] pieces[i] {
                PieceView::Ident(name) => crate::tokens::all_ascii(name),
                PieceView::Str(value) => crate::tokens::is_plain(value),
                _ => true,
            },
{
    if crate::tokens::all_certain(pieces) {
        assert forall|i: int| 0 <= i < pieces.len() implies match #[trigger] pieces[i] {
            PieceView::Ident(name) => crate::tokens::all_ascii(name),
            PieceView::Str(value) => crate::tokens::is_plain(value),
            _ => true,
        } by {
            assert(crate::tokens::is_certain(pieces[i]));
        }
    }
}

proof fn lemma_word_end(a: Seq<char>, gap: char, b: Seq<char>)
    requires
        crate::spelling::is_gap(gap),
    ensures
        crate::spelling::word_len(a + seq![gap] + b) == crate::spelling::word_len(a),
        crate::spelling::word_len(a) <= a.len(),
    decreases a.len(),
{
    let all = a + seq![gap] + b;
    if a.len() > 0 {
        assert(all[0] == a[0]);
        if !crate::spelling::is_gap(a[0]) {
            lemma_word_end(a.drop_first(), gap, b);
            assert(all.drop_first() =~= a.drop_first() + seq![gap] + b);
        }
    } else {
        assert(all[0] == gap);
    }
}

/// Two texts with space between them spell out what the first does, followed by what the second
/// does.
pub proof fn law_texts_with_space_between(a: Seq<char>, gap: char, b: Seq<char>)
    requires
        gap == ' ' || gap == '\n',
    ensures
        crate::spelling::spelled(a) is Some && crate::spelling::spelled(b) is Some
            ==> crate::spelling::spelled(a + seq![gap] + b) == Some(
            crate::spelling::spelled(a)->0 + crate::spelling::spelled(b)->0,
        ),
        crate::spelling::spelled(a) is None || crate::spelling::spelled(b) is None
            ==> crate::spelling::spelled(a + seq![gap] + b) is None,
        crate::spelling::spelled(Seq::empty()) == Some(Seq::<PieceView>::empty()),
    decreases a.len(),
{
    let all = a + seq![gap] + b;
    if a.len() == 0 {
        assert(all[0] == gap);
        assert(all.drop_first() =~= b);
        if let Some(pieces) = crate::spelling::spelled(b) {
            assert(Seq::<PieceView>::empty() + pieces =~= pieces);
        }
    } else if crate::spelling::is_gap(a[0]) {
        assert(all[0] == a[0]);
        assert(all.drop_first() =~= a.drop_first() + seq![gap] + b);
        law_texts_with_space_between(a.drop_first(), gap, b);
    } else {
        assert(all[0] == a[0]);
        lemma_word_end(a, gap, b);
        let n = crate::spelling::word_len(a) as int;
        assert(all.take(n) =~= a.take(n));
        assert(all.skip(n) =~= a.skip(n) + seq![gap] + b);
        law_texts_with_space_between(a.skip(n), gap, b);
        if let (Some(x), Some(y), Some(z)) = (
            crate::spelling::word_pieces(a.take(n)),
            crate::spelling::spelled(a.skip(n)),
            crate::spelling::spelled(b),
        ) {
            assert(x + (y + z) =~= (x + y) + z);
        }
    }
}

proof fn lemma_whole_word(word: Seq<char>)
    requires
        forall|i: int| 0 <= i < word.len() ==> !crate::spelling::is_gap(#[trigger] word[i]),
    ensures
        crate::spelling::word_len(word) == word.len(),
    decreases word.len(),
{
    if word.len() > 0 {
        assert(!crate::spelling::is_gap(word[0]));
        assert forall|i: int| 0 <= i < word.drop_first().len() implies !crate::spelling::is_gap(
            #[trigger] word.drop_first()[i],
        ) by {
            assert(word.drop_first()[i] == word[i + 1]);
        }
        lemma_whole_word(word.drop_first());
    }
}

/// A text without space is one word.
pub proof fn law_text_of_one_word(word: Seq<char>)
    requires
        word.len() > 0,
        forall|i: int| 0 <= i < word.len() ==> (#[trigger] word[i]) != ' ' && word[i] != '\n',
    ensures
        crate::spelling::spelled(word) == crate::spelling::word_pieces(word),
{
    reveal_with_fuel(crate::spelling::spelled, 2);
    lemma_whole_word(word);
    assert(!crate::spelling::is_gap(word[0]));
    let n = word.len() as int;
    assert(word.take(n) =~= word);
    assert(word.skip(n) =~= Seq::<char>::empty());
    if let Some(pieces) = crate::spelling::word_pieces(word) {
        assert(pieces + Seq::<PieceView>::empty() =~= pieces);
    }
}

/// What a word stands for: letters, digits and underscores that begin with a letter for that name,
/// one or two digits for the number that they write, a delimiter for itself, and punctuation marks
/// for an operator, all but the last joined to the next one.
pub proof fn law_what_words_stand_for(word: Seq<char>)
    ensures
        crate::tokens::is_word(word) ==> crate::spelling::word_pieces(word) == Some(
            seq![PieceView::Ident(word)],
        ),
        word == seq!['_'] ==> crate::spelling::word_pieces(word) == Some(
            seq![PieceView::Underscore],
        ),
        forall|n: u8|
            n < 100 && word == #[trigger] crate::tokens::decimal(n as nat)
                ==> crate::spelling::word_pieces(word) == Some(seq![PieceView::Number(n)]),
        word == seq!['('] ==> crate::spelling::word_pieces(word) == Some(
            seq![PieceView::Open(Delim::Parenthesis)],
        ),
        word == seq![')'] ==> crate::spelling::word_pieces(word) == Some(
            seq![PieceView::Close(Delim::Parenthesis)],
        ),
        word == seq!['{'] ==> crate::spelling::word_pieces(word) == Some(
            seq![PieceView::Open(Delim::Brace)],
        ),
        word == seq!['}'] ==> crate::spelling::word_pieces(word) == Some(
            seq![PieceView::Close(Delim::Brace)],
        ),
        word == seq!['['] ==> crate::spelling::word_pieces(word) == Some(
            seq![PieceView::Open(Delim::Bracket)],
        ),
        word == seq![']'] ==> crate::spelling::word_pieces(word) == Some(
            seq![PieceView::Close(Delim::Bracket)],
        ),
        word.len() > 0 && (forall|i: int|
            0 <= i < word.len() ==> crate::tokens::is_mark(#[trigger] word[i])) ==> {
            &&& crate::spelling::word_pieces(word) matches Some(pieces)
            &&& pieces.len() == word.len()
            &&& forall|i: int|
                0 <= i < word.len() - 1 ==> #[trigger] pieces[i] == PieceView::Mark(
                    word[i],
                    Gap::Joint,
                )
            &&& pieces.last() == PieceView::Mark(word.last(), Gap::Alone)
        },
{
    reveal_with_fuel(crate::tokens::decimal, 3);
    if word.len() > 0 {
        assert(crate::tokens::is_mark(word[0]) ==> !crate::tokens::is_letter(word[0]));
    }
}

/// A word that is no name, no number, no delimiter and no operator stands for nothing.
pub proof fn law_other_words_stand_for_nothing(word: Seq<char>)
    requires
        word.len() > 0,
        !crate::tokens::is_word(word),
        word != seq!['_'],
        word.len() == 1 ==> word[0] != '(' && word[0] != ')' && word[0] != '{' && word[0] != '}'
            && word[0] != '[' && word[0] != ']',
        exists|i: int| 0 <= i < word.len() && !crate::tokens::is_mark(#[trigger] word[i]),
        exists|i: int| 0 <= i < word.len() && !crate::tokens::is_digit(#[trigger] word[i]),
    ensures
        crate::spelling::word_pieces(word) is None,
{
    let k = choose|i: int| 0 <= i < word.len() && !crate::tokens::is_mark(#[trigger] word[i]);
    let d = choose|i: int| 0 <= i < word.len() && !crate::tokens::is_digit(#[trigger] word[i]);
    assert(!crate::tokens::is_mark(word[k]));
    assert(!crate::tokens::is_digit(word[d]));
    if word.len() == 1 {
        assert(word[0] == '_' ==> word =~= seq!['_']);
    }
}

/// A definition that was parsed keeps what each of its parts says.
pub proof fn law_definition_is_kept(ast: MacroInput)
    ensures
        ast.model().attrs == crate::tokens::stream_tokens(ast.attrs),
        ast.model().vis == crate::tokens::stream_tokens(ast.vis),
        ast.model().name == ast.name@,
        ast.model().ident == crate::tokens::stream_tokens(ast.ident),
        ast.model().generics == ast.generics,
        match ast.data {
            InputData::NamedStruct(fields) => {
                &&& ast.model().data is NamedStruct
                &&& ast.model().data->NamedStruct_0.len() == fields@.len()
                &&& forall|i: int|
                    0 <= i < fields@.len() ==> {
                        let kept = #[trigger] ast.model().data->NamedStruct_0[i];
                        &&& kept.ty == crate::tokens::stream_tokens(fields@[i].1)
                        &&& kept.name is Some <==> fields@[i].0 is Some
                        &&& kept.name matches Some(name) ==> name == fields@[i].0->0@
                    }
            },
            InputData::TupleStruct => ast.model().data is TupleStruct,
            InputData::UnitStruct => ast.model().data is UnitStruct,
            InputData::Enumeration => ast.model().data is Enumeration,
            InputData::UnionType => ast.model().data is UnionType,
        },
        crate::definition::parsed_model(Ok(ast)) == Ok::<_, Seq<Tok>>(ast.model()),
{
}

/// Fields keep their names and the tokens of their types, one for one and in their order.
pub proof fn law_field_models(fields: Seq<Field>, i: int)
    requires
        0 <= i < fields.len(),
    ensures
        crate::definition::field_models(fields).len() == fields.len(),
        crate::definition::field_models(fields)[i].name == fields[i].name@,
        crate::definition::field_models(fields)[i].ty == crate::tokens::stream_tokens(fields[i].ty),
        fields[i].model() == crate::definition::field_models(fields)[i],
{
}

} // verus!
