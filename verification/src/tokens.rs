//! The lexer: source text to a sequence of tokens with byte offsets.
//!
//! The lexer walks the characters of the source. The lexeme of a token is
//! the text it has in the source; its offsets are those of its first and
//! last byte in the UTF-8 encoding of the source. What the lexer does is
//! fixed by the spec function [`lex_from`]; [`Tokenizer::tokenize`] computes
//! exactly that.
use crate::error::{Error, ErrorView};
use crate::text::{
    byte_offset, char_width, chars_of, is_alphanumeric_char, is_numeric_char,
    is_whitespace_char, lemma_byte_offset_monotone, lemma_byte_offset_step,
    lemma_encode_subrange, str_eq,
};
use vstd::prelude::*;
use vstd::string::*;
use vstd::utf8::*;

verus! {

/// The kind of a token.
#[derive(Debug, Clone, Copy, PartialEq, Eq, Structural, Hash)]
pub enum TokenType {
    Number,
    Identifier,
    Keyword,
    Builtin,
    String,
    Plus,
    Minus,
    Asterisk,
    Slash,
    LeftParen,
    RightParen,
    LeftBrace,
    RightBrace,
    Comma,
    Semicolon,
    Colon,
    Dot,
    Bang,
    LeftBracket,
    RightBracket,
    Equal,
    LessThan,
    GreaterThan,
    And,
    Or,
    EOF,
}

/// A token: its kind, its lexeme, and the offsets of its first and last byte
/// in the source.
#[derive(Debug)]
pub struct Token {
    pub typ: TokenType,
    pub content: String,
    pub start: usize,
    pub end: usize,
}

/// The mathematical content of a [`Token`].
pub struct TokenView {
    pub typ: TokenType,
    pub content: Seq<char>,
    pub start: usize,
    pub end: usize,
}

impl View for Token {
    type V = TokenView;

    open spec fn view(&self) -> TokenView {
        TokenView { typ: self.typ, content: self.content@, start: self.start, end: self.end }
    }
}

impl Clone for Token {
    fn clone(&self) -> (r: Self)
        ensures
            r == *self,
    {
        Token { typ: self.typ, content: self.content.clone(), start: self.start, end: self.end }
    }
}

/// The views of a list of tokens.
pub open spec fn token_views(tokens: Seq<Token>) -> Seq<TokenView> {
    tokens.map_values(|t: Token| t@)
}

/// `token_views` commutes with `push`.
pub proof fn lemma_token_views_push(tokens: Seq<Token>, t: Token)
    ensures
        token_views(tokens.push(t)) == token_views(tokens).push(t@),
{
    assert(token_views(tokens.push(t)) =~= token_views(tokens).push(t@));
}

/// The reserved words of the language.
pub open spec fn is_keyword_text(s: Seq<char>) -> bool {
    s == "if"@ || s == "else"@ || s == "while"@ || s == "for"@ || s == "return"@ || s == "func"@
        || s == "const"@ || s == "struct"@ || s == "use"@
}

/// Whether `s` is a reserved word.
pub fn is_keyword(s: &str) -> (r: bool)
    ensures
        r == is_keyword_text(s@),
{
    str_eq(s, "if") || str_eq(s, "else") || str_eq(s, "while") || str_eq(s, "for") || str_eq(
        s,
        "return",
    ) || str_eq(s, "func") || str_eq(s, "const") || str_eq(s, "struct") || str_eq(s, "use")
}

/// The two kinds of lexeme that are read as a run of characters.
#[derive(Clone, Copy)]
pub enum RunClass {
    /// Digits and dots.
    Number,
    /// Letters, digits and underscores.
    Word,
}

/// Whether the character `c` continues a run of the given class.
pub open spec fn in_run(class: RunClass, c: char) -> bool {
    match class {
        RunClass::Number => is_numeric_char(c) || c == '.',
        RunClass::Word => is_alphanumeric_char(c) || c == '_',
    }
}

/// The first position at or after `pos` whose character does not continue
/// the run, or the end of the input.
pub open spec fn run_end(chars: Seq<char>, pos: int, class: RunClass) -> int
    decreases chars.len() - pos,
{
    if 0 <= pos < chars.len() && in_run(class, chars[pos]) {
        run_end(chars, pos + 1, class)
    } else {
        pos
    }
}

/// The first position at or after `pos` that holds `target`, or the end of the input.
pub open spec fn find_char(chars: Seq<char>, pos: int, target: char) -> int
    decreases chars.len() - pos,
{
    if 0 <= pos < chars.len() && chars[pos] != target {
        find_char(chars, pos + 1, target)
    } else {
        pos
    }
}

/// The position after the character at `found`, if there is one.
pub open spec fn past(chars: Seq<char>, found: int) -> int {
    if found < chars.len() {
        found + 1
    } else {
        found
    }
}

/// Where a line comment ends whose text starts at `pos`: just after the next
/// newline, or at the end of the input.
pub open spec fn line_comment_end(chars: Seq<char>, pos: int) -> int {
    past(chars, find_char(chars, pos, '\n'))
}

/// Where a block comment ends whose text starts at `pos`: just after the next
/// `*/`, or at the end of the input. Block comments do not nest.
pub open spec fn block_comment_end(chars: Seq<char>, pos: int) -> int
    decreases chars.len() - pos,
{
    if pos < 0 || pos >= chars.len() {
        pos
    } else if chars[pos] == '*' && pos + 1 < chars.len() && chars[pos + 1] == '/' {
        pos + 2
    } else {
        block_comment_end(chars, pos + 1)
    }
}

/// The kind of the one-character token that `c` is, if it is one.
pub open spec fn punctuator_kind(c: char) -> Option<TokenType> {
    if c == '+' {
        Some(TokenType::Plus)
    } else if c == '-' {
        Some(TokenType::Minus)
    } else if c == '*' {
        Some(TokenType::Asterisk)
    } else if c == '/' {
        Some(TokenType::Slash)
    } else if c == '(' {
        Some(TokenType::LeftParen)
    } else if c == ')' {
        Some(TokenType::RightParen)
    } else if c == '{' {
        Some(TokenType::LeftBrace)
    } else if c == '}' {
        Some(TokenType::RightBrace)
    } else if c == ',' {
        Some(TokenType::Comma)
    } else if c == ';' {
        Some(TokenType::Semicolon)
    } else if c == '<' {
        Some(TokenType::LessThan)
    } else if c == '>' {
        Some(TokenType::GreaterThan)
    } else if c == '=' {
        Some(TokenType::Equal)
    } else if c == '!' {
        Some(TokenType::Bang)
    } else if c == ':' {
        Some(TokenType::Colon)
    } else if c == '.' {
        Some(TokenType::Dot)
    } else if c == '[' {
        Some(TokenType::LeftBracket)
    } else if c == ']' {
        Some(TokenType::RightBracket)
    } else {
        None
    }
}

/// What the lexer does at one position of the input.
pub enum Lexed {
    /// Whitespace or a comment: nothing is produced, lexing goes on at `next`.
    Skip { next: int },
    /// A token, and the position at which lexing goes on.
    Emit { token: TokenView, next: int },
    /// An unacceptable character at byte offset `at`.
    Fail { at: usize, message: Seq<char> },
}

/// The offset of the first byte of the character at index `k`.
pub open spec fn offset_at(chars: Seq<char>, k: int) -> usize {
    byte_offset(chars, k) as usize
}

/// The offset of the last byte of the character before index `k`.
pub open spec fn offset_before(chars: Seq<char>, k: int) -> usize {
    (byte_offset(chars, k) - 1) as usize
}

/// The token that spans the characters from `first` up to, not including,
/// `next`, with its lexeme starting at `from`.
pub open spec fn run_token(
    typ: TokenType,
    chars: Seq<char>,
    first: int,
    from: int,
    next: int,
) -> TokenView {
    TokenView {
        typ,
        content: chars.subrange(from, next),
        start: offset_at(chars, first),
        end: offset_before(chars, next),
    }
}

/// The classes of a character that the lexer goes by.
#[derive(Clone, Copy, Debug)]
pub struct CharClasses {
    pub whitespace: bool,
    pub numeric: bool,
    pub alphanumeric: bool,
}

/// The classes of `c`.
pub open spec fn classes_of(c: char) -> CharClasses {
    CharClasses {
        whitespace: is_whitespace_char(c),
        numeric: is_numeric_char(c),
        alphanumeric: is_alphanumeric_char(c),
    }
}

/// What the lexer finds at a position of the input.
#[derive(Clone, Copy, Debug, PartialEq, Eq, Structural)]
pub enum Finding {
    /// Whitespace.
    Blank,
    /// The `//` that opens a line comment.
    LineComment,
    /// The `/*` that opens a block comment.
    BlockComment,
    /// A token of one character, of the given kind.
    Punctuator(TokenType),
    /// The quote that opens a string literal.
    Quote,
    /// `&&` or `||`: a token of the given kind.
    Pair(TokenType),
    /// `&` or `|` followed by another character.
    Stray,
    /// The first character of a number.
    Number,
    /// The first character of an identifier or keyword.
    Word,
    /// The `@` that opens a builtin.
    Builtin,
    /// A character that nothing can start with.
    Unknown,
}

/// What the lexer finds at a position that holds the character `c`, with
/// `ahead` the character after it, if there is one, and `classes` the
/// classes of `c`. The rules apply in this order: whitespace; comments;
/// the tokens of one character; string literals; `&&` and `||`; numbers;
/// words; builtins.
pub open spec fn finding(c: char, ahead: Option<char>, classes: CharClasses) -> Finding {
    if classes.whitespace {
        Finding::Blank
    } else if c == '/' && ahead == Some('/') {
        Finding::LineComment
    } else if c == '/' && ahead == Some('*') {
        Finding::BlockComment
    } else if punctuator_kind(c) is Some {
        Finding::Punctuator(punctuator_kind(c)->0)
    } else if c == '"' {
        Finding::Quote
    } else if (c == '&' || c == '|') && ahead is Some {
        if ahead == Some(c) {
            Finding::Pair(
                if c == '&' {
                    TokenType::And
                } else {
                    TokenType::Or
                },
            )
        } else {
            Finding::Stray
        }
    } else if classes.numeric {
        Finding::Number
    } else if classes.alphanumeric || c == '_' {
        Finding::Word
    } else if c == '@' {
        Finding::Builtin
    } else {
        Finding::Unknown
    }
}

/// The character after position `pos`, if there is one.
pub open spec fn ahead_of(chars: Seq<char>, pos: int) -> Option<char> {
    if pos + 1 < chars.len() {
        Some(chars[pos + 1])
    } else {
        None
    }
}

/// The message that refuses a stray `&` or `|`.
pub open spec fn stray_message(c: char) -> Seq<char> {
    if c == '&' {
        "Unexpected character '&'"@
    } else {
        "Unexpected character '|'"@
    }
}

/// The kind of a word: a keyword, or else an identifier.
pub open spec fn word_kind(text: Seq<char>) -> TokenType {
    if is_keyword_text(text) {
        TokenType::Keyword
    } else {
        TokenType::Identifier
    }
}

/// Lexing of a string literal whose opening quote is at `pos`. The literal
/// runs to the next quote, or to the end of the input; nothing is escaped.
pub open spec fn lex_string_at(chars: Seq<char>, pos: int) -> Lexed {
    let quote = find_char(chars, pos + 1, '"');
    Lexed::Emit {
        token: TokenView {
            typ: TokenType::String,
            content: chars.subrange(pos + 1, quote),
            start: offset_at(chars, pos),
            end: offset_before(chars, past(chars, quote)),
        },
        next: past(chars, quote),
    }
}

/// What the lexer does at position `pos`, which holds a character: it goes
/// by what it finds there.
pub open spec fn lex_at(chars: Seq<char>, pos: int) -> Lexed {
    let c = chars[pos];
    match finding(c, ahead_of(chars, pos), classes_of(c)) {
        Finding::Blank => Lexed::Skip { next: pos + 1 },
        Finding::LineComment => Lexed::Skip { next: line_comment_end(chars, pos + 1) },
        Finding::BlockComment => Lexed::Skip { next: block_comment_end(chars, pos + 2) },
        Finding::Punctuator(typ) => Lexed::Emit {
            token: run_token(typ, chars, pos, pos, pos + 1),
            next: pos + 1,
        },
        Finding::Quote => lex_string_at(chars, pos),
        Finding::Pair(typ) => Lexed::Emit {
            token: run_token(typ, chars, pos, pos, pos + 2),
            next: pos + 2,
        },
        Finding::Stray => Lexed::Fail { at: offset_at(chars, pos), message: stray_message(c) },
        Finding::Number => {
            let next = run_end(chars, pos + 1, RunClass::Number);
            Lexed::Emit { token: run_token(TokenType::Number, chars, pos, pos, next), next }
        },
        Finding::Word => {
            let next = run_end(chars, pos + 1, RunClass::Word);
            Lexed::Emit {
                token: run_token(word_kind(chars.subrange(pos, next)), chars, pos, pos, next),
                next,
            }
        },
        Finding::Builtin => {
            let next = run_end(chars, pos + 1, RunClass::Word);
            Lexed::Emit { token: run_token(TokenType::Builtin, chars, pos, pos + 1, next), next }
        },
        Finding::Unknown => Lexed::Fail {
            at: offset_at(chars, pos),
            message: "Unexpected character"@,
        },
    }
}

/// The position at which lexing goes on after `step`, taken at `pos`.
pub open spec fn lexed_next(step: Lexed, pos: int) -> int {
    match step {
        Lexed::Skip { next } => next,
        Lexed::Emit { token, next } => next,
        Lexed::Fail { at, message } => pos + 1,
    }
}

/// A scan never goes backwards and never leaves the input.
pub proof fn lemma_run_end_bounds(chars: Seq<char>, pos: int, class: RunClass)
    requires
        0 <= pos <= chars.len(),
    ensures
        pos <= run_end(chars, pos, class) <= chars.len(),
        forall|k: int| pos <= k < run_end(chars, pos, class) ==> in_run(class, #[trigger] chars[k]),
        run_end(chars, pos, class) < chars.len() ==> !in_run(
            class,
            chars[run_end(chars, pos, class)],
        ),
    decreases chars.len() - pos,
{
    if pos < chars.len() && in_run(class, chars[pos]) {
        lemma_run_end_bounds(chars, pos + 1, class);
    }
}

/// A search never goes backwards and never leaves the input.
pub proof fn lemma_find_char_bounds(chars: Seq<char>, pos: int, target: char)
    requires
        0 <= pos <= chars.len(),
    ensures
        pos <= find_char(chars, pos, target) <= chars.len(),
        find_char(chars, pos, target) < chars.len() ==> chars[find_char(chars, pos, target)]
            == target,
        forall|k: int| pos <= k < find_char(chars, pos, target) ==> #[trigger] chars[k] != target,
    decreases chars.len() - pos,
{
    if pos < chars.len() && chars[pos] != target {
        lemma_find_char_bounds(chars, pos + 1, target);
    }
}

/// A block comment never ends before it starts and never leaves the input.
pub proof fn lemma_block_comment_bounds(chars: Seq<char>, pos: int)
    requires
        0 <= pos <= chars.len(),
    ensures
        pos <= block_comment_end(chars, pos) <= chars.len(),
    decreases chars.len() - pos,
{
    if pos < chars.len() && !(chars[pos] == '*' && pos + 1 < chars.len() && chars[pos + 1]
        == '/') {
        lemma_block_comment_bounds(chars, pos + 1);
    }
}

/// Every step of the lexer consumes at least one character and stays inside the input.
pub proof fn lemma_lex_at_advances(chars: Seq<char>, pos: int)
    requires
        0 <= pos < chars.len(),
    ensures
        pos < lexed_next(lex_at(chars, pos), pos) <= chars.len(),
{
    lemma_run_end_bounds(chars, pos + 1, RunClass::Number);
    lemma_run_end_bounds(chars, pos + 1, RunClass::Word);
    lemma_find_char_bounds(chars, pos + 1, '"');
    if pos + 1 < chars.len() {
        lemma_find_char_bounds(chars, pos + 1, '\n');
        lemma_block_comment_bounds(chars, pos + 2);
    }
}

/// The outcome of lexing: the tokens, or the offset and message of the first failure.
pub type LexOutcome = Result<Seq<TokenView>, (usize, Seq<char>)>;

/// `tokens` put in front of what `rest` holds; a failure stays a failure.
pub open spec fn prepend(tokens: Seq<TokenView>, rest: LexOutcome) -> LexOutcome {
    match rest {
        Ok(more) => Ok(tokens + more),
        Err(e) => Err(e),
    }
}

/// The tokens of the input from position `pos` on, or the first failure.
pub open spec fn lex_from(chars: Seq<char>, pos: int) -> LexOutcome
    decreases chars.len() - pos,
    via lex_from_decreases
{
    if pos < 0 || pos >= chars.len() {
        Ok(Seq::empty())
    } else {
        match lex_at(chars, pos) {
            Lexed::Skip { next } => lex_from(chars, next),
            Lexed::Emit { token, next } => prepend(seq![token], lex_from(chars, next)),
            Lexed::Fail { at, message } => Err((at, message)),
        }
    }
}

#[via_fn]
proof fn lex_from_decreases(chars: Seq<char>, pos: int) {
    if 0 <= pos < chars.len() {
        lemma_lex_at_advances(chars, pos);
    }
}

/// The tokens of a source text, or the first failure.
pub open spec fn lex(source: Seq<char>) -> LexOutcome {
    lex_from(source, 0)
}

/// Tokens put in front one by one, or all at once.
pub proof fn lemma_prepend_push(tokens: Seq<TokenView>, token: TokenView, rest: LexOutcome)
    ensures
        prepend(tokens, prepend(seq![token], rest)) == prepend(tokens.push(token), rest),
{
    if let Ok(more) = rest {
        assert(tokens + (seq![token] + more) =~= tokens.push(token) + more);
    }
}

/// Whether the character `c` continues a run of the given class.
fn char_in_run(class: RunClass, c: char) -> (r: bool)
    ensures
        r == in_run(class, c),
{
    match class {
        RunClass::Number => c.is_numeric() || c == '.',
        RunClass::Word => c.is_alphanumeric() || c == '_',
    }
}

/// The kind of the one-character token that `c` is, if it is one.
fn punctuator(c: char) -> (r: Option<TokenType>)
    ensures
        r == punctuator_kind(c),
{
    match c {
        '+' => Some(TokenType::Plus),
        '-' => Some(TokenType::Minus),
        '*' => Some(TokenType::Asterisk),
        '/' => Some(TokenType::Slash),
        '(' => Some(TokenType::LeftParen),
        ')' => Some(TokenType::RightParen),
        '{' => Some(TokenType::LeftBrace),
        '}' => Some(TokenType::RightBrace),
        ',' => Some(TokenType::Comma),
        ';' => Some(TokenType::Semicolon),
        '<' => Some(TokenType::LessThan),
        '>' => Some(TokenType::GreaterThan),
        '=' => Some(TokenType::Equal),
        '!' => Some(TokenType::Bang),
        ':' => Some(TokenType::Colon),
        '.' => Some(TokenType::Dot),
        '[' => Some(TokenType::LeftBracket),
        ']' => Some(TokenType::RightBracket),
        _ => None,
    }
}

/// The classes of `c`.
pub fn char_classes(c: char) -> (r: CharClasses)
    ensures
        r == classes_of(c),
{
    CharClasses {
        whitespace: c.is_whitespace(),
        numeric: c.is_numeric(),
        alphanumeric: c.is_alphanumeric(),
    }
}

/// What the lexer finds at a position that holds the character `c`, with
/// `ahead` the character after it, if there is one, and `classes` the
/// classes of `c`.
pub fn classify(c: char, ahead: Option<char>, classes: CharClasses) -> (r: Finding)
    ensures
        r == finding(c, ahead, classes),
{
    if classes.whitespace {
        return Finding::Blank;
    }
    if c == '/' {
        if let Some(second) = ahead {
            if second == '/' {
                return Finding::LineComment;
            } else if second == '*' {
                return Finding::BlockComment;
            }
        }
    }
    if let Some(typ) = punctuator(c) {
        return Finding::Punctuator(typ);
    }
    if c == '"' {
        return Finding::Quote;
    }
    if c == '&' || c == '|' {
        if let Some(second) = ahead {
            if second != c {
                return Finding::Stray;
            } else if c == '&' {
                return Finding::Pair(TokenType::And);
            } else {
                return Finding::Pair(TokenType::Or);
            }
        }
    }
    if classes.numeric {
        Finding::Number
    } else if classes.alphanumeric || c == '_' {
        Finding::Word
    } else if c == '@' {
        Finding::Builtin
    } else {
        Finding::Unknown
    }
}

/// The text that a token has in the source: its lexeme, with `@` in front
/// for a builtin, and between quotes for a string literal (the closing
/// quote is missing where the input ends inside the literal).
pub open spec fn source_text_of(t: TokenView, closed: bool) -> Seq<char> {
    match t.typ {
        TokenType::Builtin => seq!['@'] + t.content,
        TokenType::String => if closed {
            seq!['"'] + t.content + seq!['"']
        } else {
            seq!['"'] + t.content
        },
        _ => t.content,
    }
}

/// What the offsets of a token say of the source: the bytes from `start` to
/// `end`, both included, are the UTF-8 encoding of the text that the token
/// has in the source.
pub open spec fn spans_lexeme(chars: Seq<char>, t: TokenView) -> bool {
    &&& t.start <= t.end < encode_utf8(chars).len()
    &&& {
        let covered = encode_utf8(chars).subrange(t.start as int, t.end + 1);
        covered == encode_utf8(source_text_of(t, true)) || (t.typ == TokenType::String && covered
            == encode_utf8(source_text_of(t, false)))
    }
}

/// Every token spans its lexeme, none starts before the character at index
/// `from`, and the tokens follow each other in the source without overlap.
pub open spec fn well_placed(chars: Seq<char>, tokens: Seq<TokenView>, from: int) -> bool {
    &&& forall|i: int|
        0 <= i < tokens.len() ==> spans_lexeme(chars, #[trigger] tokens[i]) && byte_offset(
            chars,
            from,
        ) <= tokens[i].start
    &&& forall|i: int, j: int|
        0 <= i < j < tokens.len() ==> (#[trigger] tokens[i]).end < (#[trigger] tokens[j]).start
}

/// A token read at `pos` starts at the first byte of the character at
/// `pos`, ends just before the character at which lexing goes on, and spans
/// its lexeme.
pub proof fn lemma_lex_at_spans(chars: Seq<char>, pos: int)
    requires
        0 <= pos < chars.len(),
        encode_utf8(chars).len() <= usize::MAX,
    ensures
        lex_at(chars, pos) matches Lexed::Emit { token, next } ==> spans_lexeme(chars, token)
            && token.start == byte_offset(chars, pos) && token.end == byte_offset(chars, next)
            - 1,
{
    lemma_lex_at_advances(chars, pos);
    if let Lexed::Emit { token, next } = lex_at(chars, pos) {
        lemma_encode_subrange(chars, pos, next);
        lemma_byte_offset_monotone(chars, pos, next);
        let text = chars.subrange(pos, next);
        if token.typ == TokenType::String {
            let quote = find_char(chars, pos + 1, '"');
            lemma_find_char_bounds(chars, pos + 1, '"');
            if quote < chars.len() {
                assert(text =~= source_text_of(token, true));
            } else {
                assert(text =~= source_text_of(token, false));
            }
        } else if token.typ == TokenType::Builtin {
            assert(text =~= source_text_of(token, true));
        } else {
            assert(text =~= source_text_of(token, true));
        }
    }
}

/// The tokens that lexing from `pos` yields are well placed.
pub proof fn lemma_lex_well_placed(chars: Seq<char>, pos: int)
    requires
        0 <= pos,
        encode_utf8(chars).len() <= usize::MAX,
    ensures
        lex_from(chars, pos) matches Ok(tokens) ==> well_placed(chars, tokens, pos),
    decreases chars.len() - pos,
{
    if pos < chars.len() {
        lemma_lex_at_advances(chars, pos);
        lemma_lex_at_spans(chars, pos);
        let after = lexed_next(lex_at(chars, pos), pos);
        lemma_byte_offset_monotone(chars, pos, after);
        match lex_at(chars, pos) {
            Lexed::Skip { next } => {
                lemma_lex_well_placed(chars, next);
            },
            Lexed::Emit { token, next } => {
                lemma_lex_well_placed(chars, next);
                if let Ok(rest) = lex_from(chars, next) {
                    let tokens = seq![token] + rest;
                    assert forall|i: int| 0 <= i < tokens.len() implies spans_lexeme(
                        chars,
                        #[trigger] tokens[i],
                    ) && byte_offset(chars, pos) <= tokens[i].start by {
                        if i > 0 {
                            assert(tokens[i] == rest[i - 1]);
                        }
                    }
                    assert forall|i: int, j: int| 0 <= i < j < tokens.len() implies (
                    #[trigger] tokens[i]).end < (#[trigger] tokens[j]).start by {
                        assert(tokens[j] == rest[j - 1]);
                        if i > 0 {
                            assert(tokens[i] == rest[i - 1]);
                        }
                    }
                }
            },
            Lexed::Fail { at, message } => {},
        }
    }
}

/// Round trip of the lexer: for every token of every source, the bytes of
/// the source from `start` to `end`, both included, are the UTF-8 encoding
/// of the lexeme; for a builtin they lead with `@`, for a string literal
/// they hold the quotes as well.
pub proof fn law_lexeme_round_trip(source: Seq<char>, i: int)
    requires
        encode_utf8(source).len() <= usize::MAX,
        lex(source) is Ok,
        0 <= i < lex(source)->Ok_0.len(),
    ensures
        spans_lexeme(source, lex(source)->Ok_0[i]),
{
    lemma_lex_well_placed(source, 0);
}

/// A lexer over one source text, with a cursor into its characters.
pub struct Tokenizer {
    source: String,
    chars: Vec<char>,
    offsets: Vec<usize>,
    current: usize,
}

impl Tokenizer {
    #[verifier::type_invariant]
    spec fn consistent(&self) -> bool {
        &&& self.chars@ == self.source@
        &&& self.offsets.len() == self.chars.len() + 1
        &&& forall|k: int|
            0 <= k <= self.chars.len() ==> (#[trigger] self.offsets@[k]) == byte_offset(
                self.chars@,
                k,
            )
        &&& self.current <= self.chars.len()
    }

    /// The source text, which is also the characters that the lexer walks.
    pub closed spec fn source_text(&self) -> Seq<char> {
        self.source@
    }

    /// The index of the next character to read.
    pub closed spec fn position(&self) -> int {
        self.current as int
    }

    /// A lexer at the start of `source`.
    pub fn new(source: String) -> (t: Self)
        ensures
            t.source_text() == source@,
            t.position() == 0,
    {
        let chars = chars_of(source.as_str());
        let total = source.as_str().as_bytes().len();
        let mut offsets: Vec<usize> = Vec::new();
        let mut at: usize = 0;
        let mut k: usize = 0;
        proof {
            assert(chars@.subrange(0, 0) =~= Seq::<char>::empty());
            assert(chars@.subrange(0, chars@.len() as int) =~= chars@);
        }
        while k < chars.len()
            invariant
                k <= chars.len(),
                chars@ == source@,
                total == byte_offset(chars@, chars@.len() as int),
                at == byte_offset(chars@, k as int),
                offsets.len() == k,
                forall|j: int| 0 <= j < k ==> (#[trigger] offsets@[j]) == byte_offset(chars@, j),
            decreases chars.len() - k,
        {
            proof {
                lemma_byte_offset_step(chars@, k as int);
                lemma_byte_offset_monotone(chars@, k + 1, chars@.len() as int);
            }
            offsets.push(at);
            at = at + char_width(chars[k]);
            k += 1;
        }
        offsets.push(at);
        Self { source, chars, offsets, current: 0 }
    }

    /// Reads the character under the cursor and moves past it; `None` at
    /// the end of the input.
    pub fn advance(&mut self) -> (r: Option<char>)
        ensures
            final(self).source_text() == old(self).source_text(),
            0 <= final(self).position() <= final(self).source_text().len(),
            old(self).position() < old(self).source_text().len() ==> r == Some(
                old(self).source_text()[old(self).position()],
            ) && final(self).position() == old(self).position() + 1,
            old(self).position() >= old(self).source_text().len() ==> r is None
                && final(self).position() == old(self).position(),
    {
        proof {
            use_type_invariant(&*self);
        }
        if self.current < self.chars.len() {
            let ch = self.chars[self.current];
            self.current += 1;
            Some(ch)
        } else {
            None
        }
    }

    /// The character at index `at`, if there is one.
    fn peek_at(&self, at: usize) -> (r: Option<char>)
        ensures
            self.source_text().len() <= usize::MAX,
            at < self.source_text().len() ==> r == Some(self.source_text()[at as int]),
            at >= self.source_text().len() ==> r is None,
    {
        proof {
            use_type_invariant(self);
        }
        if at < self.chars.len() {
            Some(self.chars[at])
        } else {
            None
        }
    }

    /// The offset of the first byte of the character at index `at`.
    fn offset(&self, at: usize) -> (r: usize)
        requires
            at <= self.source_text().len(),
        ensures
            r == byte_offset(self.source_text(), at as int),
            r == offset_at(self.source_text(), at as int),
            byte_offset(self.source_text(), self.source_text().len() as int) <= usize::MAX,
            encode_utf8(self.source_text()).len() <= usize::MAX,
    {
        proof {
            use_type_invariant(self);
            let chars = self.chars@;
            assert(self.offsets@[chars.len() as int] == byte_offset(chars, chars.len() as int));
            assert(chars.subrange(0, chars.len() as int) =~= chars);
        }
        self.offsets[at]
    }

    /// Collects the characters up to the next `target` and moves past it;
    /// without a `target` ahead, collects up to the end of the input.
    pub fn advance_until(&mut self, target: char) -> (r: String)
        ensures
            final(self).source_text() == old(self).source_text(),
            0 <= old(self).position() <= old(self).source_text().len(),
            r@ == old(self).source_text().subrange(
                old(self).position(),
                find_char(old(self).source_text(), old(self).position(), target),
            ),
            final(self).position() == past(
                old(self).source_text(),
                find_char(old(self).source_text(), old(self).position(), target),
            ),
    {
        proof {
            use_type_invariant(&*self);
        }
        let ghost chars = self.source_text();
        let ghost start = self.position();
        let mut result = String::new();
        assert(result@ =~= chars.subrange(start, start));
        loop
            invariant_except_break
                find_char(chars, start, target) == find_char(chars, self.position(), target),
                result@ == chars.subrange(start, self.position()),
            invariant
                self.source_text() == old(self).source_text(),
                chars == self.source_text(),
                start == old(self).position(),
                0 <= start <= self.position() <= chars.len(),
            ensures
                self.source_text() == old(self).source_text(),
                result@ == chars.subrange(start, find_char(chars, start, target)),
                self.position() == past(chars, find_char(chars, start, target)),
            decreases chars.len() - self.position(),
        {
            let ghost at = self.position();
            match self.advance() {
                Some(ch) => {
                    if ch == target {
                        break ;
                    }
                    result.push(ch);
                    assert(result@ =~= chars.subrange(start, at + 1));
                },
                None => {
                    break ;
                },
            }
        }
        result
    }

    /// Moves the cursor past the run of the given class that starts under it,
    /// and appends the run to `content`.
    fn take_run(&mut self, class: RunClass, content: &mut String)
        ensures
            final(self).source_text() == old(self).source_text(),
            0 <= old(self).position() <= final(self).position() <= old(self).source_text().len(),
            final(self).position() == run_end(
                old(self).source_text(),
                old(self).position(),
                class,
            ),
            final(content)@ == old(content)@ + old(self).source_text().subrange(
                old(self).position(),
                final(self).position(),
            ),
    {
        proof {
            use_type_invariant(&*self);
        }
        let ghost chars = self.source_text();
        let ghost start = self.position();
        assert(content@ =~= old(content)@ + chars.subrange(start, start));
        loop
            invariant_except_break
                run_end(chars, start, class) == run_end(chars, self.position(), class),
            invariant
                self.source_text() == old(self).source_text(),
                chars == self.source_text(),
                start == old(self).position(),
                0 <= start <= self.position() <= chars.len(),
                content@ == old(content)@ + chars.subrange(start, self.position()),
            ensures
                self.position() == run_end(chars, start, class),
            decreases chars.len() - self.position(),
        {
            let ghost at = self.position();
            match self.peek_at(self.current) {
                Some(ch) => {
                    if !char_in_run(class, ch) {
                        break ;
                    }
                    content.push(ch);
                    proof {
                        use_type_invariant(&*self);
                    }
                    self.current += 1;
                    assert(content@ =~= old(content)@ + chars.subrange(start, at + 1));
                },
                None => {
                    break ;
                },
            }
        }
    }

    /// Moves the cursor to the end of the line comment whose text starts under it.
    fn skip_line_comment(&mut self)
        ensures
            final(self).source_text() == old(self).source_text(),
            final(self).position() == line_comment_end(
                old(self).source_text(),
                old(self).position(),
            ),
    {
        proof {
            use_type_invariant(&*self);
        }
        let ghost chars = self.source_text();
        let ghost start = self.position();
        loop
            invariant_except_break
                find_char(chars, start, '\n') == find_char(chars, self.position(), '\n'),
            invariant
                self.source_text() == old(self).source_text(),
                chars == self.source_text(),
                start == old(self).position(),
                0 <= start <= self.position() <= chars.len(),
            ensures
                self.position() == line_comment_end(chars, start),
            decreases chars.len() - self.position(),
        {
            match self.advance() {
                Some(ch) => {
                    if ch == '\n' {
                        break ;
                    }
                },
                None => {
                    break ;
                },
            }
        }
    }

    /// Moves the cursor to the end of the block comment whose text starts under it.
    fn skip_block_comment(&mut self)
        ensures
            final(self).source_text() == old(self).source_text(),
            final(self).position() == block_comment_end(
                old(self).source_text(),
                old(self).position(),
            ),
    {
        proof {
            use_type_invariant(&*self);
        }
        let ghost chars = self.source_text();
        let ghost start = self.position();
        loop
            invariant_except_break
                block_comment_end(chars, start) == block_comment_end(chars, self.position()),
            invariant
                self.source_text() == old(self).source_text(),
                chars == self.source_text(),
                start == old(self).position(),
                0 <= start <= self.position() <= chars.len(),
            ensures
                self.position() == block_comment_end(chars, start),
            decreases chars.len() - self.position(),
        {
            match self.advance() {
                Some(ch) => {
                    if ch == '*' {
                        if let Some(after) = self.peek_at(self.current) {
                            if after == '/' {
                                proof {
                                    use_type_invariant(&*self);
                                }
                                self.current += 1;
                                break ;
                            }
                        }
                    }
                },
                None => {
                    break ;
                },
            }
        }
    }

    /// The failure at byte offset `at` with the given message.
    fn failure(&self, at: usize, message: &str) -> (e: Error)
        ensures
            e@ == ErrorView::Tokenization(at, self.source_text(), message@),
    {
        Error::TokenizationError(at, self.source.clone(), String::from_str(message))
    }

    /// The token of kind `typ` with the lexeme `content` that spans the
    /// characters from index `first` up to the cursor.
    fn token_to_cursor(&self, typ: TokenType, content: String, first: usize) -> (t: Token)
        requires
            first < self.position() <= self.source_text().len(),
        ensures
            t@ == (TokenView {
                typ,
                content: content@,
                start: offset_at(self.source_text(), first as int),
                end: offset_before(self.source_text(), self.position()),
            }),
    {
        proof {
            lemma_byte_offset_monotone(self.source_text(), first as int, self.position());
        }
        let start = self.offset(first);
        let next = self.offset(self.current);
        Token { typ, content, start, end: next - 1 }
    }

    /// One step of the lexer at the cursor, which must be inside the input:
    /// whitespace or a comment is passed over, a token is read, or the
    /// character under the cursor is refused.
    fn lex_one(&mut self) -> (r: Result<Option<Token>, Error>)
        requires
            0 <= old(self).position() < old(self).source_text().len(),
        ensures
            final(self).source_text() == old(self).source_text(),
            match lex_at(old(self).source_text(), old(self).position()) {
                Lexed::Skip { next } => r matches Ok(None) && final(self).position() == next,
                Lexed::Emit { token, next } => r matches Ok(Some(t)) && t@ == token
                    && final(self).position() == next,
                Lexed::Fail { at, message } => r matches Err(e) && e@ == ErrorView::Tokenization(
                    at,
                    old(self).source_text(),
                    message,
                ) && final(self).position() == old(self).position() + 1,
            },
    {
        let ghost chars = self.source_text();
        let ghost pos = self.position();
        let at = self.current;
        let ch = match self.advance() {
            Some(ch) => ch,
            None => {
                return Ok(None);
            },
        };
        let ahead = self.peek_at(self.current);
        proof {
            lemma_run_end_bounds(chars, pos + 1, RunClass::Number);
            lemma_run_end_bounds(chars, pos + 1, RunClass::Word);
            lemma_find_char_bounds(chars, pos + 1, '"');
        }
        match classify(ch, ahead, char_classes(ch)) {
            Finding::Blank => Ok(None),
            Finding::LineComment => {
                self.skip_line_comment();
                Ok(None)
            },
            Finding::BlockComment => {
                proof {
                    use_type_invariant(&*self);
                }
                self.current += 1;
                self.skip_block_comment();
                Ok(None)
            },
            Finding::Punctuator(typ) => {
                let mut content = String::new();
                content.push(ch);
                assert(content@ =~= chars.subrange(pos, pos + 1));
                Ok(Some(self.token_to_cursor(typ, content, at)))
            },
            Finding::Quote => {
                let content = self.advance_until('"');
                Ok(Some(self.token_to_cursor(TokenType::String, content, at)))
            },
            Finding::Pair(typ) => {
                proof {
                    use_type_invariant(&*self);
                }
                self.current += 1;
                let mut content = String::new();
                content.push(ch);
                content.push(ch);
                assert(content@ =~= chars.subrange(pos, pos + 2));
                Ok(Some(self.token_to_cursor(typ, content, at)))
            },
            Finding::Stray => {
                let offset = self.offset(at);
                if ch == '&' {
                    Err(self.failure(offset, "Unexpected character '&'"))
                } else {
                    Err(self.failure(offset, "Unexpected character '|'"))
                }
            },
            Finding::Number => {
                let mut content = String::new();
                content.push(ch);
                self.take_run(RunClass::Number, &mut content);
                assert(content@ =~= chars.subrange(pos, self.position()));
                Ok(Some(self.token_to_cursor(TokenType::Number, content, at)))
            },
            Finding::Word => {
                let mut content = String::new();
                content.push(ch);
                self.take_run(RunClass::Word, &mut content);
                assert(content@ =~= chars.subrange(pos, self.position()));
                let typ = if is_keyword(content.as_str()) {
                    TokenType::Keyword
                } else {
                    TokenType::Identifier
                };
                Ok(Some(self.token_to_cursor(typ, content, at)))
            },
            Finding::Builtin => {
                let mut content = String::new();
                self.take_run(RunClass::Word, &mut content);
                assert(content@ =~= chars.subrange(pos + 1, self.position()));
                Ok(Some(self.token_to_cursor(TokenType::Builtin, content, at)))
            },
            Finding::Unknown => {
                let offset = self.offset(at);
                Err(self.failure(offset, "Unexpected character"))
            },
        }
    }

    /// Lexes the input from the cursor to its end. The result is the token
    /// sequence that [`lex_from`] defines, or the first failure it meets.
    pub fn tokenize(&mut self) -> (r: Result<Vec<Token>, Error>)
        ensures
            final(self).source_text() == old(self).source_text(),
            0 <= old(self).position() <= old(self).source_text().len(),
            match lex_from(old(self).source_text(), old(self).position()) {
                Ok(tokens) => r matches Ok(found) && token_views(found@) == tokens
                    && final(self).position() == old(self).source_text().len() && well_placed(
                    old(self).source_text(),
                    tokens,
                    old(self).position(),
                ),
                Err((at, message)) => r matches Err(e) && e@ == ErrorView::Tokenization(
                    at,
                    old(self).source_text(),
                    message,
                ),
            },
    {
        proof {
            use_type_invariant(&*self);
        }
        let ghost chars = self.source_text();
        let ghost start = self.position();
        let mut tokens: Vec<Token> = Vec::new();
        let len = self.chars.len();
        let _ = self.offset(len);
        assert(token_views(tokens@) =~= Seq::<TokenView>::empty());
        assert(prepend(token_views(tokens@), lex_from(chars, start)) == lex_from(chars, start)) by {
            if let Ok(more) = lex_from(chars, start) {
                assert(Seq::<TokenView>::empty() + more =~= more);
            }
        }
        while self.current < len
            invariant
                self.source_text() == old(self).source_text(),
                chars == self.source_text(),
                len == chars.len(),
                start == old(self).position(),
                0 <= start <= chars.len(),
                0 <= self.position() <= chars.len(),
                lex_from(chars, start) == prepend(
                    token_views(tokens@),
                    lex_from(chars, self.position()),
                ),
            decreases chars.len() - self.position(),
        {
            let ghost at = self.position();
            proof {
                lemma_lex_at_advances(chars, at);
            }
            match self.lex_one() {
                Ok(None) => {},
                Ok(Some(token)) => {
                    proof {
                        lemma_token_views_push(tokens@, token);
                        lemma_prepend_push(
                            token_views(tokens@),
                            token@,
                            lex_from(chars, self.position()),
                        );
                    }
                    tokens.push(token);
                },
                Err(e) => {
                    return Err(e);
                },
            }
        }
        assert(token_views(tokens@) + Seq::<TokenView>::empty() =~= token_views(tokens@));
        proof {
            lemma_lex_well_placed(chars, start);
        }
        Ok(tokens)
    }
}

} // verus!
