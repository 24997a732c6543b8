//! The three kinds of failure a compilation can end in.
use crate::text::{byte_offset, char_width, chars_of, lemma_byte_offset_step, utf8_width};
use crate::tokens::{Token, TokenView};
use vstd::prelude::*;
use vstd::string::*;
use vstd::utf8::*;

verus! {

/// A fatal error of the compiler.
#[derive(Debug)]
pub enum Error {
    /// A violated expectation of the code generator; carries the message.
    InternalError(String),
    /// A character the lexer cannot accept: its byte offset, the source and the message.
    TokenizationError(usize, String, String),
    /// A token the parser did not expect: the token, the source and the message.
    ParseError(Token, String, String),
}

/// The mathematical content of an [`Error`].
pub enum ErrorView {
    Internal(Seq<char>),
    Tokenization(usize, Seq<char>, Seq<char>),
    Parse(TokenView, Seq<char>, Seq<char>),
}

impl View for Error {
    type V = ErrorView;

    open spec fn view(&self) -> ErrorView {
        match *self {
            Error::InternalError(message) => ErrorView::Internal(message@),
            Error::TokenizationError(at, source, message) => ErrorView::Tokenization(
                at,
                source@,
                message@,
            ),
            Error::ParseError(token, source, message) => ErrorView::Parse(
                token@,
                source@,
                message@,
            ),
        }
    }
}

/// The index of the first character, from index `from` on, that starts at
/// byte `offset` or after it, where the character at `from` starts at byte
/// `at`; the number of characters where there is none.
pub open spec fn char_at_offset(chars: Seq<char>, from: int, at: nat, offset: nat) -> int
    decreases chars.len() - from,
{
    if from < 0 || from >= chars.len() || at >= offset {
        from
    } else {
        char_at_offset(chars, from + 1, at + utf8_width(chars[from]), offset)
    }
}

/// The index at which the line of the character at index `k` starts: just
/// after the last newline before `k`.
pub open spec fn line_start(chars: Seq<char>, k: int) -> int
    decreases k,
{
    if k <= 0 {
        0
    } else if chars[k - 1] == '\n' {
        k
    } else {
        line_start(chars, k - 1)
    }
}

/// The index at which the line of the character at index `k` ends: the
/// first newline at `k` or after it, or the end of the text.
pub open spec fn line_end(chars: Seq<char>, k: int) -> int
    decreases chars.len() - k,
{
    if k < 0 || k >= chars.len() || chars[k] == '\n' {
        k
    } else {
        line_end(chars, k + 1)
    }
}

/// The number of columns that a text takes on a terminal: four for a tab,
/// one for any other character.
pub open spec fn columns(text: Seq<char>) -> nat
    decreases text.len(),
{
    if text.len() == 0 {
        0
    } else {
        columns(text.drop_last()) + if text.last() == '\t' {
            4nat
        } else {
            1nat
        }
    }
}

/// A caret under column `column`.
pub open spec fn caret_under(column: nat) -> Seq<char> {
    Seq::new(column, |i: int| ' ').push('^')
}

/// The line of the source that holds byte `offset`, and a caret that
/// stands under the character at that offset when both are printed one
/// above the other.
pub open spec fn excerpt_of(source: Seq<char>, offset: nat) -> (Seq<char>, Seq<char>) {
    let k = char_at_offset(source, 0, 0, offset);
    let start = line_start(source, k);
    (
        source.subrange(start, line_end(source, k)),
        caret_under(columns(source.subrange(start, k))),
    )
}

/// What `char_at_offset` finds, in terms of the encoding: walking from a
/// character and the byte at which it starts, it finds the first character
/// that starts at byte `offset` or after it.
pub proof fn lemma_char_at_offset(chars: Seq<char>, from: int, offset: nat)
    requires
        0 <= from <= chars.len(),
    ensures
        ({
            let k = char_at_offset(chars, from, byte_offset(chars, from), offset);
            &&& from <= k <= chars.len()
            &&& k < chars.len() ==> byte_offset(chars, k) >= offset
            &&& forall|j: int| from <= j < k ==> byte_offset(chars, j) < offset
        }),
    decreases chars.len() - from,
{
    if from < chars.len() && byte_offset(chars, from) < offset {
        lemma_byte_offset_step(chars, from);
        lemma_char_at_offset(chars, from + 1, offset);
    }
}

/// The line of the source that holds byte `offset`, and a caret that
/// stands under the character at that offset.
pub fn excerpt(source: &str, offset: usize) -> (r: (String, String))
    ensures
        r.0@ == excerpt_of(source@, offset as nat).0,
        r.1@ == excerpt_of(source@, offset as nat).1,
{
    let chars = chars_of(source);
    let n = chars.len();
    let mut k: usize = 0;
    let mut at: u128 = 0;
    while k < n && at < offset as u128
        invariant
            k <= n,
            n == chars.len(),
            chars@ == source@,
            at <= 4 * k,
            char_at_offset(chars@, 0, 0, offset as nat) == char_at_offset(
                chars@,
                k as int,
                at as nat,
                offset as nat,
            ),
        decreases n - k,
    {
        at = at + char_width(chars[k]) as u128;
        k += 1;
    }
    let mut start: usize = k;
    while start > 0 && chars[start - 1] != '\n'
        invariant
            start <= k <= n,
            n == chars.len(),
            line_start(chars@, k as int) == line_start(chars@, start as int),
        decreases start,
    {
        start -= 1;
    }
    let mut end: usize = k;
    while end < n && chars[end] != '\n'
        invariant
            k <= end <= n,
            n == chars.len(),
            line_end(chars@, k as int) == line_end(chars@, end as int),
        decreases n - end,
    {
        end += 1;
    }
    let mut line = String::new();
    let mut i: usize = start;
    assert(line@ =~= chars@.subrange(start as int, start as int));
    while i < end
        invariant
            start <= i <= end <= n,
            n == chars.len(),
            line@ == chars@.subrange(start as int, i as int),
        decreases end - i,
    {
        line.push(chars[i]);
        assert(line@ =~= chars@.subrange(start as int, i + 1));
        i += 1;
    }
    let mut underline = String::new();
    let mut j: usize = start;
    assert(chars@.subrange(start as int, start as int) =~= Seq::<char>::empty());
    assert(underline@ =~= Seq::new(0nat, |i: int| ' '));
    while j < k
        invariant
            start <= j <= k <= n,
            n == chars.len(),
            underline@ == Seq::new(columns(chars@.subrange(start as int, j as int)), |i: int| ' '),
        decreases k - j,
    {
        let ghost taken = chars@.subrange(start as int, j + 1);
        let ghost width = columns(chars@.subrange(start as int, j as int));
        assert(taken.drop_last() =~= chars@.subrange(start as int, j as int));
        assert(taken.last() == chars@[j as int]);
        if chars[j] == '\t' {
            underline.append("    ");
            proof {
                reveal_strlit("    ");
                assert(underline@ =~= Seq::new(width + 4, |i: int| ' '));
            }
        } else {
            underline.push(' ');
            assert(underline@ =~= Seq::new(width + 1, |i: int| ' '));
        }
        j += 1;
    }
    underline.push('^');
    (line, underline)
}

} // verus!
