//! Text utilities shared by the lexer, the parser and the code generator.
//!
//! Strings are modelled by their view, a `Seq<char>`; lists of strings by
//! `Seq<Seq<char>>`.
use vstd::prelude::*;
use vstd::string::*;
use vstd::utf8::*;

verus! {

/// `String::push` appends the character `c` to the end of the string and
/// leaves the characters already there untouched.
pub assume_specification[ std::string::String::push ](s: &mut std::string::String, c: char)
    ensures
        final(s)@ == old(s)@.push(c),
;

/// Whether `c` is in one of the Unicode number categories (Nd, Nl, No),
/// for a character beyond ASCII, as `char::is_numeric` decides it.
pub uninterp spec fn unicode_numeric(c: char) -> bool;

/// Whether `c` has the Unicode property `Alphabetic`, for a character
/// beyond ASCII, as `char::is_alphabetic` decides it.
pub uninterp spec fn unicode_alphabetic(c: char) -> bool;

/// Whether `c` is an ASCII character.
pub open spec fn is_ascii_char(c: char) -> bool {
    c <= '\u{7f}'
}

/// Whether `c` has the Unicode property `White_Space`: the space, the
/// controls U+0009 to U+000D, and the spaces and separators beyond ASCII.
pub open spec fn is_whitespace_char(c: char) -> bool {
    c == ' ' || ('\u{9}' <= c && c <= '\u{d}') || c == '\u{85}' || c == '\u{a0}' || c == '\u{1680}'
        || ('\u{2000}' <= c && c <= '\u{200a}') || c == '\u{2028}' || c == '\u{2029}' || c
        == '\u{202f}' || c == '\u{205f}' || c == '\u{3000}'
}

/// Whether `c` is numeric: in ASCII the digits `0` to `9`, beyond ASCII
/// what Unicode counts as a number.
pub open spec fn is_numeric_char(c: char) -> bool {
    if is_ascii_char(c) {
        '0' <= c && c <= '9'
    } else {
        unicode_numeric(c)
    }
}

/// Whether `c` is alphabetic: in ASCII the letters `a` to `z` and `A` to
/// `Z`, beyond ASCII what Unicode counts as alphabetic.
pub open spec fn is_alphabetic_char(c: char) -> bool {
    if is_ascii_char(c) {
        ('a' <= c && c <= 'z') || ('A' <= c && c <= 'Z')
    } else {
        unicode_alphabetic(c)
    }
}

/// Whether `c` is alphabetic or numeric.
pub open spec fn is_alphanumeric_char(c: char) -> bool {
    is_alphabetic_char(c) || is_numeric_char(c)
}

/// `char::is_whitespace` says whether the character has the Unicode
/// property `White_Space`; the contract lists the characters that have it.
pub assume_specification[ char::is_whitespace ](c: char) -> (r: bool)
    ensures
        r == is_whitespace_char(c),
;

/// `char::is_numeric` says whether the character is in one of the Unicode
/// number categories. In ASCII these are the ten digits; beyond ASCII the
/// result is a function of the character alone, named `unicode_numeric`.
pub assume_specification[ char::is_numeric ](c: char) -> (r: bool)
    ensures
        is_ascii_char(c) ==> r == ('0' <= c && c <= '9'),
        !is_ascii_char(c) ==> r == unicode_numeric(c),
        r == is_numeric_char(c),
;

/// `char::is_alphabetic` says whether the character has the Unicode
/// property `Alphabetic`. In ASCII these are the letters; beyond ASCII the
/// result is a function of the character alone, named `unicode_alphabetic`.
pub assume_specification[ char::is_alphabetic ](c: char) -> (r: bool)
    ensures
        is_ascii_char(c) ==> r == (('a' <= c && c <= 'z') || ('A' <= c && c <= 'Z')),
        !is_ascii_char(c) ==> r == unicode_alphabetic(c),
        r == is_alphabetic_char(c),
;

/// `char::is_alphanumeric` says whether the character is alphabetic or
/// numeric, as `char::is_alphabetic` and `char::is_numeric` decide.
pub assume_specification[ char::is_alphanumeric ](c: char) -> (r: bool)
    ensures
        r == (is_alphabetic_char(c) || is_numeric_char(c)),
;

/// The views of a list of strings.
pub open spec fn texts(items: Seq<String>) -> Seq<Seq<char>> {
    items.map_values(|s: String| s@)
}

/// `texts` commutes with `push`.
pub proof fn lemma_texts_push(items: Seq<String>, s: String)
    ensures
        texts(items.push(s)) == texts(items).push(s@),
{
    assert(texts(items.push(s)) =~= texts(items).push(s@));
}

/// Equality of string slices, decided on their UTF-8 bytes.
pub fn str_eq(a: &str, b: &str) -> (r: bool)
    ensures
        r == (a@ == b@),
{
    let x = a.as_bytes();
    let y = b.as_bytes();
    proof {
        encode_utf8_decode_utf8(a@);
        encode_utf8_decode_utf8(b@);
    }
    if x.len() != y.len() {
        return false;
    }
    let mut i: usize = 0;
    while i < x.len()
        invariant
            i <= x.len(),
            x.len() == y.len(),
            x@ == encode_utf8(a@),
            y@ == encode_utf8(b@),
            forall|j: int| 0 <= j < i ==> x@[j] == y@[j],
        decreases x.len() - i,
    {
        if x[i] != y[i] {
            return false;
        }
        i += 1;
    }
    assert(x@ =~= y@);
    true
}

/// The characters of a string slice, in order.
pub fn chars_of(s: &str) -> (v: Vec<char>)
    ensures
        v@ == s@,
{
    broadcast use group_string_axioms;

    let mut v: Vec<char> = Vec::new();
    for c in it: s.chars()
        invariant
            it.seq() == s@,
            v@ == s@.subrange(0, it.index() as int),
    {
        v.push(c);
        assert(v@ =~= s@.subrange(0, it.index() + 1));
    }
    assert(v@ =~= s@);
    v
}

/// The parts put one after the other.
pub open spec fn concat(parts: Seq<Seq<char>>) -> Seq<char>
    decreases parts.len(),
{
    if parts.len() == 0 {
        Seq::empty()
    } else {
        concat(parts.drop_last()) + parts.last()
    }
}

/// `concat` of a list with one more part.
pub proof fn lemma_concat_push(parts: Seq<Seq<char>>, part: Seq<char>)
    ensures
        concat(parts.push(part)) == concat(parts) + part,
{
    assert(parts.push(part).drop_last() =~= parts);
}

/// The parts put one after the other, with `sep` between neighbours.
pub open spec fn join(parts: Seq<Seq<char>>, sep: Seq<char>) -> Seq<char>
    decreases parts.len(),
{
    if parts.len() == 0 {
        Seq::empty()
    } else if parts.len() == 1 {
        parts[0]
    } else {
        join(parts.drop_last(), sep) + sep + parts.last()
    }
}

/// A copy of a list of strings.
pub fn clone_strings(items: &Vec<String>) -> (r: Vec<String>)
    ensures
        r@ == items@,
{
    let mut r: Vec<String> = Vec::new();
    let mut i: usize = 0;
    while i < items.len()
        invariant
            i <= items.len(),
            r@ == items@.subrange(0, i as int),
        decreases items.len() - i,
    {
        r.push(items[i].clone());
        assert(r@ =~= items@.subrange(0, i + 1));
        i += 1;
    }
    assert(r@ =~= items@);
    r
}

/// The strings of `parts` put one after the other, with `sep` between neighbours.
pub fn join_strings(parts: &Vec<String>, sep: &str) -> (r: String)
    ensures
        r@ == join(texts(parts@), sep@),
{
    let mut r = String::new();
    let mut i: usize = 0;
    while i < parts.len()
        invariant
            i <= parts.len(),
            r@ == join(texts(parts@.subrange(0, i as int)), sep@),
        decreases parts.len() - i,
    {
        let ghost before = texts(parts@.subrange(0, i as int));
        let ghost after = texts(parts@.subrange(0, i + 1));
        assert(after.drop_last() =~= before);
        assert(after.last() == parts@[i as int]@);
        if i > 0 {
            r.append(sep);
        }
        r.append(parts[i].as_str());
        assert(r@ =~= join(after, sep@));
        i += 1;
    }
    assert(parts@.subrange(0, i as int) =~= parts@);
    r
}

/// The character of the decimal digit `d`.
pub open spec fn digit_char(d: nat) -> char {
    (48 + d) as char
}

/// The decimal numeral of `n`, without leading zeros.
pub open spec fn decimal(n: nat) -> Seq<char>
    decreases n,
{
    if n < 10 {
        seq![digit_char(n)]
    } else {
        decimal(n / 10).push(digit_char(n % 10))
    }
}

/// The decimal numeral of `n`.
pub fn decimal_string(n: u64) -> (r: String)
    ensures
        r@ == decimal(n as nat),
    decreases n,
{
    if n < 10 {
        let mut r = String::new();
        r.push((48u8 + n as u8) as char);
        r
    } else {
        let mut r = decimal_string(n / 10);
        r.push((48u8 + (n % 10) as u8) as char);
        r
    }
}

/// Whether `c` is one of the ten decimal digits.
pub open spec fn is_digit(c: char) -> bool {
    '0' <= c && c <= '9'
}

/// The value of the decimal digit `c`.
pub open spec fn digit_value(c: char) -> nat {
    (c as u32 - 48) as nat
}

/// The number that a sequence of decimal digits denotes.
pub open spec fn digits_value(s: Seq<char>) -> nat
    decreases s.len(),
{
    if s.len() == 0 {
        0
    } else {
        digits_value(s.drop_last()) * 10 + digit_value(s.last())
    }
}

/// Whether every character of `s` is a decimal digit.
pub open spec fn all_digits(s: Seq<char>) -> bool {
    forall|i: int| 0 <= i < s.len() ==> is_digit(#[trigger] s[i])
}

/// The text without the one `+` that may lead it.
pub open spec fn unsigned_digits(s: Seq<char>) -> Seq<char> {
    if s.len() > 0 && s[0] == '+' {
        s.drop_first()
    } else {
        s
    }
}

/// The number up to `max` that `s` denotes: `s` is one or more decimal
/// digits, which a single `+` may lead. Any other text denotes no number.
pub open spec fn parse_unsigned(s: Seq<char>, max: nat) -> Option<nat> {
    let digits = unsigned_digits(s);
    if digits.len() > 0 && all_digits(digits) && digits_value(digits) <= max {
        Some(digits_value(digits))
    } else {
        None
    }
}

/// A number is at least the number that any of its leading digits denote.
pub proof fn lemma_digits_value_monotone(s: Seq<char>, k: int)
    requires
        0 <= k <= s.len(),
    ensures
        digits_value(s.subrange(0, k)) <= digits_value(s),
    decreases s.len(),
{
    if k == s.len() {
        assert(s.subrange(0, k) =~= s);
    } else {
        lemma_digits_value_monotone(s.drop_last(), k);
        assert(s.drop_last().subrange(0, k) =~= s.subrange(0, k));
    }
}

/// Reads `s` as a number up to `max`.
pub fn parse_bounded(s: &str, max: u64) -> (r: Option<u64>)
    ensures
        r == match parse_unsigned(s@, max as nat) {
            Some(v) => Some(v as u64),
            None => None,
        },
{
    broadcast use is_ascii_spec_bytes;

    let ghost digits = unsigned_digits(s@);
    if !s.is_ascii() {
        proof {
            let k = choose|k: int| 0 <= k < s@.len() && !('\0' <= #[trigger] s@[k] <= '\u{7f}');
            if digits.len() == s@.len() {
                assert(!is_digit(digits[k]));
            } else {
                assert(k > 0);
                assert(digits[k - 1] == s@[k]);
                assert(!is_digit(digits[k - 1]));
            }
        }
        return None;
    }
    let bytes = s.as_bytes();
    let n = bytes.len();
    assert(forall|k: int| 0 <= k < n ==> bytes@[k] == #[trigger] s@[k] as u8);
    let skip: usize = if n > 0 && bytes[0] == 43u8 {
        1
    } else {
        0
    };
    assert(digits =~= s@.subrange(skip as int, n as int));
    if skip >= n {
        return None;
    }
    let mut i: usize = skip;
    let mut value: u64 = 0;
    assert(digits.subrange(0, 0) =~= Seq::<char>::empty());
    while i < n
        invariant
            skip <= i <= n,
            n == bytes@.len(),
            n == s@.len(),
            is_ascii_chars(s@),
            forall|k: int| 0 <= k < n ==> bytes@[k] == #[trigger] s@[k] as u8,
            digits == s@.subrange(skip as int, n as int),
            digits == unsigned_digits(s@),
            digits.len() > 0,
            all_digits(digits.subrange(0, i - skip)),
            value == digits_value(digits.subrange(0, i - skip)),
            value <= max,
        decreases n - i,
    {
        let b = bytes[i];
        let ghost c = digits[i - skip];
        assert(c == s@[i as int]);
        assert('\0' <= c <= '\u{7f}');
        if b < 48 || b > 57 {
            assert(!is_digit(c));
            return None;
        }
        let d = (b - 48) as u64;
        let ghost taken = digits.subrange(0, i - skip + 1);
        proof {
            assert(taken.drop_last() =~= digits.subrange(0, i - skip));
            assert(taken.last() == c);
            assert(digit_value(c) == d);
            assert(all_digits(taken));
            lemma_digits_value_monotone(digits, i - skip + 1);
        }
        if d > max || value > (max - d) / 10 {
            return None;
        }
        value = value * 10 + d;
        i += 1;
    }
    assert(digits.subrange(0, i - skip) =~= digits);
    Some(value)
}

/// The first character of `s`, if it has one.
pub fn first_char(s: &str) -> (r: Option<char>)
    ensures
        r == (if s@.len() > 0 {
            Some(s@[0])
        } else {
            None
        }),
{
    broadcast use group_string_axioms;

    let mut it = s.chars();
    it.next()
}

/// Appends the characters of `s` to `buf`.
pub fn push_chars(buf: &mut Vec<char>, s: &str)
    ensures
        final(buf)@ == old(buf)@ + s@,
{
    broadcast use group_string_axioms;

    assert(buf@ =~= old(buf)@ + s@.subrange(0, 0));
    for c in it: s.chars()
        invariant
            it.seq() == s@,
            buf@ == old(buf)@ + s@.subrange(0, it.index() as int),
    {
        buf.push(c);
        assert(buf@ =~= old(buf)@ + s@.subrange(0, it.index() + 1));
    }
    assert(s@.subrange(0, s@.len() as int) =~= s@);
}

/// The string made of the characters of `buf`.
pub fn string_from_chars(buf: &Vec<char>) -> (r: String)
    ensures
        r@ == buf@,
{
    let mut r = String::new();
    let mut i: usize = 0;
    while i < buf.len()
        invariant
            i <= buf.len(),
            r@ == buf@.subrange(0, i as int),
        decreases buf.len() - i,
    {
        r.push(buf[i]);
        assert(r@ =~= buf@.subrange(0, i + 1));
        i += 1;
    }
    assert(buf@.subrange(0, i as int) =~= buf@);
    r
}

/// Whether one of the strings is `s`.
pub fn contains_text(items: &Vec<String>, s: &str) -> (r: bool)
    ensures
        r == texts(items@).contains(s@),
{
    let mut i: usize = 0;
    while i < items.len()
        invariant
            i <= items.len(),
            forall|j: int| 0 <= j < i ==> texts(items@)[j] != s@,
        decreases items.len() - i,
    {
        if str_eq(items[i].as_str(), s) {
            assert(texts(items@)[i as int] == s@);
            return true;
        }
        i += 1;
    }
    false
}

/// The number of bytes that the UTF-8 encoding of `c` takes.
pub open spec fn utf8_width(c: char) -> nat {
    if (c as u32) < 0x80 {
        1
    } else if (c as u32) < 0x800 {
        2
    } else if (c as u32) < 0x10000 {
        3
    } else {
        4
    }
}

/// The byte at which the character at index `k` starts in the UTF-8
/// encoding of the text.
pub open spec fn byte_offset(chars: Seq<char>, k: int) -> nat {
    encode_utf8(chars.subrange(0, k)).len()
}

/// The encoding of a text with one more character is the encoding of the
/// text followed by the encoding of the character.
pub proof fn lemma_encode_push(chars: Seq<char>, c: char)
    ensures
        encode_utf8(chars.push(c)) == encode_utf8(chars) + encode_scalar(c as u32),
    decreases chars.len(),
{
    if chars.len() == 0 {
        let rest = chars.push(c).drop_first();
        assert(rest =~= Seq::<char>::empty());
        assert(encode_utf8(rest) =~= Seq::<u8>::empty());
        assert(encode_utf8(chars) =~= Seq::<u8>::empty());
        assert(chars.push(c)[0] == c);
        assert(encode_utf8(chars.push(c)) == encode_scalar(c as u32) + encode_utf8(rest));
        assert(encode_utf8(chars.push(c)) =~= encode_utf8(chars) + encode_scalar(c as u32));
    } else {
        lemma_encode_push(chars.drop_first(), c);
        assert(chars.push(c).drop_first() =~= chars.drop_first().push(c));
        assert(encode_utf8(chars.push(c)) =~= encode_utf8(chars) + encode_scalar(c as u32));
    }
}

/// Each character starts where the one before it ends.
pub proof fn lemma_byte_offset_step(chars: Seq<char>, k: int)
    requires
        0 <= k < chars.len(),
    ensures
        byte_offset(chars, k + 1) == byte_offset(chars, k) + utf8_width(chars[k]),
{
    assert(chars.subrange(0, k + 1) =~= chars.subrange(0, k).push(chars[k]));
    lemma_encode_push(chars.subrange(0, k), chars[k]);
    char_is_scalar(chars[k]);
}

/// A character starts no later than the characters after it, and earlier
/// than each of them.
pub proof fn lemma_byte_offset_monotone(chars: Seq<char>, i: int, j: int)
    requires
        0 <= i <= j <= chars.len(),
    ensures
        byte_offset(chars, i) <= byte_offset(chars, j),
        i < j ==> byte_offset(chars, i) < byte_offset(chars, j),
    decreases j - i,
{
    if i < j {
        lemma_byte_offset_monotone(chars, i, j - 1);
        lemma_byte_offset_step(chars, j - 1);
    }
}

/// The encoding of two texts put together is their encodings put together.
pub proof fn lemma_encode_concat(a: Seq<char>, b: Seq<char>)
    ensures
        encode_utf8(a + b) == encode_utf8(a) + encode_utf8(b),
    decreases b.len(),
{
    if b.len() == 0 {
        assert(a + b =~= a);
        assert(encode_utf8(b) =~= Seq::<u8>::empty());
        assert(encode_utf8(a) + encode_utf8(b) =~= encode_utf8(a));
    } else {
        let front = b.drop_last();
        lemma_encode_concat(a, front);
        assert(a + b =~= (a + front).push(b.last()));
        assert(b =~= front.push(b.last()));
        lemma_encode_push(a + front, b.last());
        lemma_encode_push(front, b.last());
        assert(encode_utf8(a + b) =~= encode_utf8(a) + encode_utf8(b));
    }
}

/// The encoding of a part of a text is the part of the encoding that runs
/// from the byte at which the first character of the part starts to the
/// byte at which the character after the part starts.
pub proof fn lemma_encode_subrange(chars: Seq<char>, i: int, j: int)
    requires
        0 <= i <= j <= chars.len(),
    ensures
        byte_offset(chars, i) <= byte_offset(chars, j) <= encode_utf8(chars).len(),
        encode_utf8(chars.subrange(i, j)) == encode_utf8(chars).subrange(
            byte_offset(chars, i) as int,
            byte_offset(chars, j) as int,
        ),
{
    let head = chars.subrange(0, i);
    let part = chars.subrange(i, j);
    let tail = chars.subrange(j, chars.len() as int);
    assert(chars.subrange(0, j) =~= head + part);
    assert(chars =~= chars.subrange(0, j) + tail);
    lemma_encode_concat(head, part);
    lemma_encode_concat(chars.subrange(0, j), tail);
    assert(encode_utf8(part) =~= encode_utf8(chars).subrange(
        byte_offset(chars, i) as int,
        byte_offset(chars, j) as int,
    ));
}

/// The number of bytes that the UTF-8 encoding of `c` takes.
pub fn char_width(c: char) -> (r: usize)
    ensures
        r == utf8_width(c),
        1 <= r <= 4,
{
    let code = c as u32;
    if code < 0x80 {
        1
    } else if code < 0x800 {
        2
    } else if code < 0x10000 {
        3
    } else {
        4
    }
}


} // verus!
