//! The notation in which the fixed parts of code are written: tokens, with space between any two.
//!
//! A word of letters, digits and underscores is an identifier or a keyword, a lone underscore
//! stands for itself, one or two digits are a number, a delimiter is a word of its own, and a word
//! of punctuation marks is one operator.

use crate::tokens::{owned, word_char, Delim, Gap, Piece, PieceView};
use vstd::prelude::*;

verus! {

/// The character stands between words.
pub open spec fn is_gap(c: char) -> bool {
    c == ' ' || c == '\n'
}

/// How many characters the word has that the text begins with.
pub open spec fn word_len(text: Seq<char>) -> nat
    decreases text.len(),
{
    if text.len() == 0 || is_gap(text[0]) {
        0
    } else {
        1 + word_len(text.drop_first())
    }
}

/// The delimiter that a character opens.
pub open spec fn opened(c: char) -> Option<Delim> {
    if c == '(' {
        Some(Delim::Parenthesis)
    } else if c == '{' {
        Some(Delim::Brace)
    } else if c == '[' {
        Some(Delim::Bracket)
    } else {
        None
    }
}

/// The delimiter that a character closes.
pub open spec fn closed(c: char) -> Option<Delim> {
    if c == ')' {
        Some(Delim::Parenthesis)
    } else if c == '}' {
        Some(Delim::Brace)
    } else if c == ']' {
        Some(Delim::Bracket)
    } else {
        None
    }
}

/// A delimiter.
pub open spec fn delimiter(c: char) -> Option<PieceView> {
    if let Some(delim) = opened(c) {
        Some(PieceView::Open(delim))
    } else if let Some(delim) = closed(c) {
        Some(PieceView::Close(delim))
    } else {
        None
    }
}

/// The value of a digit.
pub open spec fn digit_value(c: char) -> int {
    c as int - '0' as int
}

/// A number of one digit, or of two without a leading zero.
pub open spec fn number(word: Seq<char>) -> Option<PieceView> {
    if word.len() == 1 && crate::tokens::is_digit(word[0]) {
        Some(PieceView::Number(digit_value(word[0]) as u8))
    } else if word.len() == 2 && crate::tokens::is_digit(word[0]) && word[0] != '0'
        && crate::tokens::is_digit(word[1]) {
        Some(PieceView::Number((10 * digit_value(word[0]) + digit_value(word[1])) as u8))
    } else {
        None
    }
}

/// The word is an operator.
pub open spec fn is_operator(word: Seq<char>) -> bool {
    forall|i: int| 0 <= i < word.len() ==> crate::tokens::is_mark(#[trigger] word[i])
}

/// Mark `i` of an operator. It is joined to the next one, if there is one.
pub open spec fn operator_mark(word: Seq<char>, i: int) -> PieceView {
    PieceView::Mark(
        word[i],
        if i + 1 < word.len() {
            Gap::Joint
        } else {
            Gap::Alone
        },
    )
}

/// The marks of an operator.
pub open spec fn operator_marks(word: Seq<char>) -> Seq<PieceView> {
    Seq::new(word.len(), |i: int| operator_mark(word, i))
}

/// What a word stands for.
pub open spec fn word_pieces(word: Seq<char>) -> Option<Seq<PieceView>> {
    if crate::tokens::is_word(word) {
        Some(seq![PieceView::Ident(word)])
    } else if word.len() == 1 && word[0] == '_' {
        Some(seq![PieceView::Underscore])
    } else if number(word) is Some {
        Some(seq![number(word)->0])
    } else if word.len() == 1 && delimiter(word[0]) is Some {
        Some(seq![delimiter(word[0])->0])
    } else if is_operator(word) {
        Some(operator_marks(word))
    } else {
        None
    }
}

/// The pieces that a text spells out, word by word.
pub open spec fn spelled(text: Seq<char>) -> Option<Seq<PieceView>>
    decreases text.len(),
{
    if text.len() == 0 {
        Some(Seq::empty())
    } else if is_gap(text[0]) {
        spelled(text.drop_first())
    } else {
        let n = word_len(text) as int;
        if 0 < n <= text.len() {
            match (word_pieces(text.take(n)), spelled(text.skip(n))) {
                (Some(first), Some(rest)) => Some(first + rest),
                _ => None,
            }
        } else {
            None
        }
    }
}

proof fn lemma_word_pieces(word: Seq<char>)
    requires
        word_pieces(word) is Some,
    ensures
        crate::tokens::all_possible(word_pieces(word)->0),
        crate::tokens::no_text(word_pieces(word)->0),
        crate::tokens::all_certain(word_pieces(word)->0),
{
}

/// The pieces that a text spells out are possible, none of them is a text again, and nothing is
/// left open of them.
pub proof fn lemma_spelled(text: Seq<char>)
    requires
        spelled(text) is Some,
    ensures
        crate::tokens::all_possible(spelled(text)->0),
        crate::tokens::no_text(spelled(text)->0),
        crate::tokens::all_certain(spelled(text)->0),
    decreases text.len(),
{
    if text.len() == 0 {
    } else if is_gap(text[0]) {
        lemma_spelled(text.drop_first());
    } else {
        let n = word_len(text) as int;
        let first = word_pieces(text.take(n))->0;
        let rest = spelled(text.skip(n))->0;
        let all = first + rest;
        lemma_word_pieces(text.take(n));
        lemma_spelled(text.skip(n));
        assert forall|i: int| 0 <= i < all.len() implies crate::tokens::is_possible(
            #[trigger] all[i],
        ) && !(all[i] is Text) && crate::tokens::is_certain(all[i]) by {
            if i < first.len() {
                assert(all[i] == first[i]);
            } else {
                assert(all[i] == rest[i - first.len()]);
            }
        }
    }
}

/// Where a reader of a text is: between words, in a word of letters, in an operator, after the
/// first digit of a number that may have another, or where a word has to end.
pub enum Place {
    Between,
    Word,
    Operator,
    Digit,
    End,
    Lost,
}

/// The delimiters that are open.
pub enum Stack {
    Bottom,
    Over(Delim, Box<Stack>),
}

/// Where the reader is after the next character.
pub open spec fn next_place(place: Place, c: char) -> Place {
    if is_gap(c) {
        Place::Between
    } else {
        match place {
            Place::Between => if crate::tokens::is_letter(c) {
                Place::Word
            } else if crate::tokens::is_mark(c) {
                Place::Operator
            } else if c == '0' || c == '_' || opened(c) is Some || closed(c) is Some {
                Place::End
            } else if crate::tokens::is_digit(c) {
                Place::Digit
            } else {
                Place::Lost
            },
            Place::Word => if crate::tokens::is_word_char(c) {
                Place::Word
            } else {
                Place::Lost
            },
            Place::Operator => if crate::tokens::is_mark(c) {
                Place::Operator
            } else {
                Place::Lost
            },
            Place::Digit => if crate::tokens::is_digit(c) {
                Place::End
            } else {
                Place::Lost
            },
            _ => Place::Lost,
        }
    }
}

/// The delimiters that are open after the next character.
pub open spec fn next_stack(stack: Stack, c: char) -> Option<Stack> {
    if let Some(delim) = opened(c) {
        Some(Stack::Over(delim, Box::new(stack)))
    } else if let Some(delim) = closed(c) {
        match stack {
            Stack::Over(last, rest) => if last == delim {
                Some(*rest)
            } else {
                None
            },
            Stack::Bottom => None,
        }
    } else {
        Some(stack)
    }
}

/// Reading on from character `i`, every word stands for something, and every delimiter is closed
/// in the end.
pub open spec fn reads(text: Seq<char>, i: int, place: Place, stack: Stack) -> bool
    decreases text.len() - i,
{
    if i >= text.len() {
        stack is Bottom
    } else {
        let next = next_place(place, text[i]);
        !(next is Lost) && (next_stack(stack, text[i]) matches Some(rest) && reads(
            text,
            i + 1,
            next,
            rest,
        ))
    }
}

spec fn stack_delims(stack: Stack) -> Seq<Delim>
    decreases stack,
{
    match stack {
        Stack::Bottom => Seq::empty(),
        Stack::Over(delim, rest) => stack_delims(*rest).push(delim),
    }
}

/// The character can come next in the word.
spec fn goes_on(place: Place, c: char) -> bool {
    match place {
        Place::Word => crate::tokens::is_word_char(c),
        Place::Operator => crate::tokens::is_mark(c),
        Place::Digit => crate::tokens::is_digit(c),
        _ => false,
    }
}

proof fn lemma_word_goes_on(text: Seq<char>, i: int, place: Place, stack: Stack)
    requires
        0 <= i <= text.len(),
        !(place is Between),
        !(place is Lost),
        reads(text, i, place, stack),
    ensures
        i + word_len(text.skip(i)) <= text.len(),
        forall|k: int|
            i <= k < i + word_len(text.skip(i)) ==> goes_on(place, #[trigger] text[k]),
        place is Digit ==> word_len(text.skip(i)) <= 1,
        reads(text, i + word_len(text.skip(i)), Place::Between, stack),
    decreases text.len() - i,
{
    let rest = text.skip(i);
    if i < text.len() && !is_gap(text[i]) {
        assert(rest.drop_first() =~= text.skip(i + 1));
        let next = next_place(place, text[i]);
        lemma_word_goes_on(text, i + 1, next, stack);
        assert forall|k: int| i <= k < i + word_len(rest) implies goes_on(
            place,
            #[trigger] text[k],
        ) by {
            if k > i {
                assert(goes_on(next, text[k]));
            }
        }
    }
}

proof fn lemma_nesting_of_marks(open: Seq<Delim>, pieces: Seq<PieceView>)
    requires
        forall|i: int| 0 <= i < pieces.len() ==> (#[trigger] pieces[i]) is Mark,
    ensures
        crate::tokens::nesting(open, pieces) == Some(open),
    decreases pieces.len(),
{
    if pieces.len() > 0 {
        assert(pieces[pieces.len() - 1] is Mark);
        lemma_nesting_of_marks(open, pieces.drop_last());
    }
}

proof fn lemma_nesting_of_one(open: Seq<Delim>, piece: PieceView)
    ensures
        crate::tokens::nesting(open, seq![piece]) == match piece {
            PieceView::Open(delim) => Some(open.push(delim)),
            PieceView::Close(delim) => if open.len() > 0 && open.last() == delim {
                Some(open.drop_last())
            } else {
                None
            },
            _ => Some(open),
        },
{
    reveal_with_fuel(crate::tokens::nesting, 2);
    assert(seq![piece].drop_last() =~= Seq::<PieceView>::empty());
}

proof fn lemma_word_reads(text: Seq<char>, i: int, stack: Stack) -> (rest: Stack)
    requires
        0 <= i < text.len(),
        !is_gap(text[i]),
        reads(text, i, Place::Between, stack),
    ensures
        0 < word_len(text.skip(i)) <= text.len() - i,
        reads(text, i + word_len(text.skip(i)), Place::Between, rest),
        word_pieces(text.skip(i).take(word_len(text.skip(i)) as int)) matches Some(pieces)
            && crate::tokens::nesting(stack_delims(stack), pieces) == Some(stack_delims(rest)),
{
    let c = text[i];
    let next = next_place(Place::Between, c);
    let rest = next_stack(stack, c)->0;
    let n = word_len(text.skip(i)) as int;
    let word = text.skip(i).take(n);
    assert(text.skip(i).drop_first() =~= text.skip(i + 1));
    lemma_word_goes_on(text, i + 1, next, rest);
    assert forall|k: int| 1 <= k < word.len() implies goes_on(next, #[trigger] word[k]) by {
        assert(word[k] == text[i + k]);
    }
    assert(word[0] == c);
    let open = stack_delims(stack);
    match next {
        Place::Word => {
            assert(crate::tokens::is_word(word));
            lemma_nesting_of_one(open, PieceView::Ident(word));
        },
        Place::Operator => {
            assert(is_operator(word));
            lemma_nesting_of_marks(open, operator_marks(word));
        },
        Place::Digit => {
            lemma_nesting_of_one(open, number(word)->0);
        },
        _ => {
            assert(word.len() == 1);
            if c == '_' {
                lemma_nesting_of_one(open, PieceView::Underscore);
            } else if c == '0' {
                lemma_nesting_of_one(open, number(word)->0);
            } else {
                lemma_nesting_of_one(open, delimiter(c)->0);
                if let Stack::Over(last, below) = stack {
                    assert(open.drop_last() =~= stack_delims(*below));
                }
            }
        },
    }
    rest
}

proof fn lemma_reads_on(text: Seq<char>, i: int, stack: Stack)
    requires
        0 <= i <= text.len(),
        reads(text, i, Place::Between, stack),
    ensures
        spelled(text.skip(i)) matches Some(pieces) && crate::tokens::nesting(
            stack_delims(stack),
            pieces,
        ) == Some(Seq::<Delim>::empty()),
    decreases text.len() - i,
{
    let rest = text.skip(i);
    if i < text.len() {
        if is_gap(text[i]) {
            assert(rest.drop_first() =~= text.skip(i + 1));
            lemma_reads_on(text, i + 1, stack);
        } else {
            let n = word_len(rest) as int;
            let below = lemma_word_reads(text, i, stack);
            lemma_reads_on(text, i + n, below);
            assert(rest.skip(n) =~= text.skip(i + n));
            crate::tokens::lemma_nesting_add(
                stack_delims(stack),
                word_pieces(rest.take(n))->0,
                spelled(rest.skip(n))->0,
            );
        }
    }
}

/// A text that can be read to its end spells out pieces, and closes every delimiter that it
/// opens.
pub proof fn lemma_reads(text: Seq<char>)
    requires
        reads(text, 0, Place::Between, Stack::Bottom),
    ensures
        crate::tokens::is_code_text(text),
{
    reveal(crate::tokens::is_code_text);
    lemma_reads_on(text, 0, Stack::Bottom);
    assert(text.skip(0) =~= text);
}

fn gap(c: char) -> (r: bool)
    ensures
        r == is_gap(c),
{
    c == ' ' || c == '\n'
}

fn digit(c: char) -> (r: bool)
    ensures
        r == crate::tokens::is_digit(c),
{
    '0' <= c && c <= '9'
}

fn mark(c: char) -> (r: bool)
    ensures
        r == crate::tokens::is_mark(c),
{
    c == '!' || c == '#' || c == '%' || c == '&' || c == '*' || c == '+' || c == ',' || c == '-' || c
        == '.' || c == '/' || c == ':' || c == ';' || c == '<' || c == '=' || c == '>' || c == '|'
}

/// Where the word ends that begins at `start`.
fn word_end(text: &str, start: usize) -> (end: usize)
    requires
        start <= text@.len(),
    ensures
        start <= end <= text@.len(),
        end - start == word_len(text@.skip(start as int)),
{
    let len: usize = text.unicode_len();
    let mut end: usize = start;
    while end < len && !gap(text.get_char(end))
        invariant
            len == text@.len(),
            start <= end <= len,
            word_len(text@.skip(start as int)) == end - start + word_len(text@.skip(end as int)),
        decreases len - end,
    {
        assert(text@.skip(end as int).drop_first() =~= text@.skip(end + 1));
        end = end + 1;
    }
    end
}

fn is_word(word: &str) -> (r: bool)
    ensures
        r == crate::tokens::is_word(word@),
{
    let len: usize = word.unicode_len();
    if len == 0 {
        return false;
    }
    let first = word.get_char(0);
    if !(('a' <= first && first <= 'z') || ('A' <= first && first <= 'Z')) {
        return false;
    }
    let mut i: usize = 0;
    while i < len
        invariant
            len == word@.len(),
            i <= len,
            forall|j: int| 0 <= j < i ==> crate::tokens::is_word_char(#[trigger] word@[j]),
        decreases len - i,
    {
        if !word_char(word.get_char(i)) {
            assert(!crate::tokens::is_word_char(word@[i as int]));
            return false;
        }
        i = i + 1;
    }
    true
}

fn get_delimiter(c: char) -> (r: Option<Piece>)
    ensures
        r matches Some(piece) ==> delimiter(c) == Some(piece.model()),
        r is None ==> delimiter(c) is None,
{
    if c == '(' {
        Some(Piece::Open(Delim::Parenthesis))
    } else if c == ')' {
        Some(Piece::Close(Delim::Parenthesis))
    } else if c == '{' {
        Some(Piece::Open(Delim::Brace))
    } else if c == '}' {
        Some(Piece::Close(Delim::Brace))
    } else if c == '[' {
        Some(Piece::Open(Delim::Bracket))
    } else if c == ']' {
        Some(Piece::Close(Delim::Bracket))
    } else {
        None
    }
}

fn get_digit_value(c: char) -> (r: u8)
    requires
        crate::tokens::is_digit(c),
    ensures
        r == digit_value(c),
{
    (c as u32 - '0' as u32) as u8
}

fn get_number(word: &str) -> (r: Option<Piece>)
    ensures
        r matches Some(piece) ==> number(word@) == Some(piece.model()),
        r is None ==> number(word@) is None,
{
    let len: usize = word.unicode_len();
    if len == 1 && digit(word.get_char(0)) {
        Some(Piece::Number(get_digit_value(word.get_char(0))))
    } else if len == 2 && digit(word.get_char(0)) && word.get_char(0) != '0' && digit(
        word.get_char(1),
    ) {
        let tens: u8 = get_digit_value(word.get_char(0));
        Some(Piece::Number(10 * tens + get_digit_value(word.get_char(1))))
    } else {
        None
    }
}

/// Adds the marks of an operator, unless the word is none.
fn add_operator(pieces: &mut Vec<Piece>, word: &str) -> (r: bool)
    ensures
        r == is_operator(word@),
        r ==> crate::tokens::piece_models(final(pieces)@) == crate::tokens::piece_models(
            old(pieces)@,
        ) + operator_marks(word@),
{
    let len: usize = word.unicode_len();
    let ghost before = crate::tokens::piece_models(pieces@);
    let mut i: usize = 0;
    assert(before + operator_marks(word@).take(0) =~= before);
    while i < len
        invariant
            len == word@.len(),
            i <= len,
            forall|j: int| 0 <= j < i ==> crate::tokens::is_mark(#[trigger] word@[j]),
            crate::tokens::piece_models(pieces@) == before + operator_marks(word@).take(i as int),
        decreases len - i,
    {
        let c = word.get_char(i);
        if !mark(c) {
            assert(!crate::tokens::is_mark(word@[i as int]));
            return false;
        }
        let gap = if i + 1 < len {
            Gap::Joint
        } else {
            Gap::Alone
        };
        let ghost so_far = crate::tokens::piece_models(pieces@);
        let ghost next = operator_mark(word@, i as int);
        pieces.push(Piece::Mark(c, gap));
        proof {
            assert(crate::tokens::piece_models(pieces@) =~= so_far.push(next));
            let marks = operator_marks(word@);
            assert(marks.take(i + 1) =~= marks.take(i as int).push(next));
            assert(so_far.push(next) =~= before + marks.take(i + 1));
        }
        i = i + 1;
    }
    assert(operator_marks(word@).take(i as int) =~= operator_marks(word@));
    true
}

/// Adds what a word stands for, if it stands for anything.
fn add_word(pieces: &mut Vec<Piece>, word: &str) -> (r: bool)
    ensures
        r == (word_pieces(word@) is Some),
        r ==> crate::tokens::piece_models(final(pieces)@) == crate::tokens::piece_models(
            old(pieces)@,
        ) + word_pieces(word@)->0,
{
    let piece = if is_word(word) {
        Piece::Ident(owned(word))
    } else if word.unicode_len() == 1 && word.get_char(0) == '_' {
        Piece::Underscore
    } else if let Some(number) = get_number(word) {
        number
    } else {
        let found = if word.unicode_len() == 1 {
            get_delimiter(word.get_char(0))
        } else {
            None
        };
        match found {
            Some(delimiter) => delimiter,
            None => return add_operator(pieces, word),
        }
    };
    pieces.push(piece);
    assert(crate::tokens::piece_models(pieces@) =~= crate::tokens::piece_models(old(pieces)@)
        + seq![piece.model()]);
    true
}

/// The pieces that a text spells out.
pub(crate) fn spell(text: &str) -> (r: Option<Vec<Piece>>)
    ensures
        r matches Some(pieces) ==> spelled(text@) == Some(crate::tokens::piece_models(pieces@)),
        r is None ==> spelled(text@) is None,
{
    let len: usize = text.unicode_len();
    let mut pieces: Vec<Piece> = Vec::new();
    let mut i: usize = 0;
    proof {
        assert(text@.skip(0) =~= text@);
        assert(crate::tokens::piece_models(pieces@) =~= Seq::<PieceView>::empty());
        if let Some(all) = spelled(text@) {
            assert(Seq::<PieceView>::empty() + all =~= all);
        }
    }
    while i < len
        invariant
            len == text@.len(),
            i <= len,
            spelled(text@) == match spelled(text@.skip(i as int)) {
                Some(rest) => Some(crate::tokens::piece_models(pieces@) + rest),
                None => None,
            },
        decreases len - i,
    {
        let ghost rest = text@.skip(i as int);
        if gap(text.get_char(i)) {
            assert(rest.drop_first() =~= text@.skip(i + 1));
            i = i + 1;
        } else {
            let end: usize = word_end(text, i);
            let ghost before = crate::tokens::piece_models(pieces@);
            let word = text.substring_char(i, end);
            proof {
                assert(word@ =~= rest.take(end - i));
                assert(rest.skip(end - i) =~= text@.skip(end as int));
            }
            if !add_word(&mut pieces, word) {
                return None;
            }
            proof {
                let first = word_pieces(word@)->0;
                if let Some(last) = spelled(text@.skip(end as int)) {
                    assert(before + (first + last) =~= (before + first) + last);
                }
            }
            i = end;
        }
    }
    proof {
        assert(text@.skip(i as int) =~= Seq::<char>::empty());
        assert(crate::tokens::piece_models(pieces@) + Seq::<PieceView>::empty()
            =~= crate::tokens::piece_models(pieces@));
    }
    Some(pieces)
}

} // verus!
