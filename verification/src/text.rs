//! Small text tools shared by the modules that build messages: digits,
//! whitespace trimming and comparisons.

use vstd::prelude::*;
use vstd::string::StringExecFns;
use vstd::string::StrSliceExecFns;

verus! {

/// The text of an optional string.
pub open spec fn opt_text(o: Option<String>) -> Option<Seq<char>> {
    match o {
        Some(s) => Some(s@),
        None => None,
    }
}

/// The character of a decimal digit.
pub open spec fn digit_char(d: nat) -> char {
    (48 + d) as char
}

/// Decimal notation of `n`, without leading zeros.
pub open spec fn decimal(n: nat) -> Seq<char>
    decreases n,
{
    if n < 10 {
        seq![digit_char(n)]
    } else {
        decimal(n / 10).push(digit_char(n % 10))
    }
}

/// Octal notation of `n`, without leading zeros.
pub open spec fn octal(n: nat) -> Seq<char>
    decreases n,
{
    if n < 8 {
        seq![digit_char(n)]
    } else {
        octal(n / 8).push(digit_char(n % 8))
    }
}

/// The one-character text of a digit.
fn digit_text(d: u64) -> (r: &'static str)
    requires
        d < 10,
    ensures
        r@ == seq![digit_char(d as nat)],
{
    proof {
        reveal_strlit("0");
        reveal_strlit("1");
        reveal_strlit("2");
        reveal_strlit("3");
        reveal_strlit("4");
        reveal_strlit("5");
        reveal_strlit("6");
        reveal_strlit("7");
        reveal_strlit("8");
        reveal_strlit("9");
    }
    if d == 0 {
        "0"
    } else if d == 1 {
        "1"
    } else if d == 2 {
        "2"
    } else if d == 3 {
        "3"
    } else if d == 4 {
        "4"
    } else if d == 5 {
        "5"
    } else if d == 6 {
        "6"
    } else if d == 7 {
        "7"
    } else if d == 8 {
        "8"
    } else {
        "9"
    }
}

/// Appends the decimal notation of `n`.
pub fn push_decimal(out: &mut String, n: u64)
    ensures
        final(out)@ == old(out)@ + decimal(n as nat),
    decreases n,
{
    if n >= 10 {
        push_decimal(out, n / 10);
    }
    out.append(digit_text(n % 10));
    assert(out@ =~= old(out)@ + decimal(n as nat));
}

/// Appends the octal notation of `n`.
pub fn push_octal(out: &mut String, n: u64)
    ensures
        final(out)@ == old(out)@ + octal(n as nat),
    decreases n,
{
    if n >= 8 {
        push_octal(out, n / 8);
    }
    out.append(digit_text(n % 8));
    assert(out@ =~= old(out)@ + octal(n as nat));
}

/// The characters of a text.
pub fn chars_of(text: &str) -> (r: Vec<char>)
    ensures
        r@ == text@,
{
    let mut out: Vec<char> = Vec::new();
    for c in it: text.chars()
        invariant
            out@ == it.seq().take(it.index()),
            it.seq() == text@,
    {
        out.push(c);
        assert(out@ =~= it.seq().take(it.index() + 1));
    }
    assert(text@.take(text@.len() as int) =~= text@);
    out
}

/// The characters with the Unicode property White_Space.
pub open spec fn is_whitespace(c: char) -> bool {
    let n = c as u32;
    ||| 0x09 <= n <= 0x0d
    ||| n == 0x20
    ||| n == 0x85
    ||| n == 0xa0
    ||| n == 0x1680
    ||| 0x2000 <= n <= 0x200a
    ||| n == 0x2028
    ||| n == 0x2029
    ||| n == 0x202f
    ||| n == 0x205f
    ||| n == 0x3000
}

/// `char::is_whitespace`: whether a character has the Unicode property White_Space.
#[verifier::external_body]
fn whitespace(c: char) -> (r: bool)
    ensures
        r == is_whitespace(c),
{
    c.is_whitespace()
}

/// A text without the white space at its start.
pub open spec fn trimmed_start(s: Seq<char>) -> Seq<char>
    decreases s.len(),
{
    if s.len() > 0 && is_whitespace(s[0]) {
        trimmed_start(s.skip(1))
    } else {
        s
    }
}

/// A text without the white space at its end.
pub open spec fn trimmed_end(s: Seq<char>) -> Seq<char>
    decreases s.len(),
{
    if s.len() > 0 && is_whitespace(s.last()) {
        trimmed_end(s.drop_last())
    } else {
        s
    }
}

/// A text without the white space around it.
pub open spec fn trimmed(s: Seq<char>) -> Seq<char> {
    trimmed_end(trimmed_start(s))
}

/// Removes the white space around a text.
pub fn trim(text: &str) -> (r: &str)
    ensures
        r@ == trimmed(text@),
{
    let chars = chars_of(text);
    let n: usize = chars.len();
    let mut from: usize = 0;
    assert(chars@.skip(0) =~= chars@);
    while from < n && whitespace(chars[from])
        invariant
            from <= n,
            n == chars@.len(),
            trimmed_start(chars@) == trimmed_start(chars@.skip(from as int)),
        decreases n - from,
    {
        assert(chars@.skip(from as int).skip(1) =~= chars@.skip(from + 1));
        from += 1;
    }
    let ghost body = chars@.skip(from as int);
    assert(trimmed_start(chars@) == body);
    let mut to: usize = n;
    assert(body.take(n - from) =~= body);
    while to > from && whitespace(chars[to - 1])
        invariant
            from <= to <= n,
            n == chars@.len(),
            body == chars@.skip(from as int),
            trimmed_end(body) == trimmed_end(body.take(to - from)),
        decreases to,
    {
        assert(body.take(to - from).drop_last() =~= body.take(to - from - 1));
        to -= 1;
    }
    assert(body.take(to - from) =~= text@.subrange(from as int, to as int));
    text.substring_char(from, to)
}

/// The character of a hexadecimal digit, in lower case.
pub open spec fn hex_char(d: nat) -> char {
    if d < 10 {
        (48 + d) as char
    } else {
        (87 + d) as char
    }
}

/// A byte as two hexadecimal digits.
pub open spec fn hex_byte(b: u8) -> Seq<char> {
    seq![hex_char((b / 16) as nat), hex_char((b % 16) as nat)]
}

/// The one-character text of a hexadecimal digit.
fn hex_digit_text(d: u8) -> (r: &'static str)
    requires
        d < 16,
    ensures
        r@ == seq![hex_char(d as nat)],
{
    if d < 10 {
        return digit_text(d as u64);
    }
    proof {
        reveal_strlit("a");
        reveal_strlit("b");
        reveal_strlit("c");
        reveal_strlit("d");
        reveal_strlit("e");
        reveal_strlit("f");
    }
    if d == 10 {
        "a"
    } else if d == 11 {
        "b"
    } else if d == 12 {
        "c"
    } else if d == 13 {
        "d"
    } else if d == 14 {
        "e"
    } else {
        "f"
    }
}

/// Appends a byte as two hexadecimal digits.
pub fn push_hex_byte(out: &mut String, b: u8)
    ensures
        final(out)@ == old(out)@ + hex_byte(b),
{
    let ghost before = out@;
    out.append(hex_digit_text(b / 16));
    out.append(hex_digit_text(b % 16));
    assert(out@ =~= before + hex_byte(b));
}

/// The position of the first occurrence of a character, or the length of the text if
/// it does not occur.
pub open spec fn first_pos(s: Seq<char>, c: char) -> int
    decreases s.len(),
{
    if s.len() == 0 || s[0] == c {
        0
    } else {
        1 + first_pos(s.skip(1), c)
    }
}

/// The position of a character is within the text, at an occurrence unless it is the
/// end.
pub(crate) proof fn lemma_first_pos(s: Seq<char>, c: char)
    ensures
        0 <= first_pos(s, c) <= s.len(),
        first_pos(s, c) < s.len() ==> s[first_pos(s, c)] == c,
        forall|i: int| 0 <= i < first_pos(s, c) ==> s[i] != c,
    decreases s.len(),
{
    if s.len() > 0 && s[0] != c {
        lemma_first_pos(s.skip(1), c);
        assert forall|i: int| 0 <= i < first_pos(s, c) implies s[i] != c by {
            if i > 0 {
                assert(s.skip(1)[i - 1] == s[i]);
            }
        }
    }
}

/// The position of the first occurrence of a character.
pub fn find_char(chars: &[char], c: char) -> (r: usize)
    ensures
        r == first_pos(chars@, c),
        r <= chars@.len(),
{
    let n: usize = chars.len();
    let mut i: usize = 0;
    assert(chars@.skip(0) =~= chars@);
    while i < n && chars[i] != c
        invariant
            i <= n,
            n == chars@.len(),
            first_pos(chars@, c) == i + first_pos(chars@.skip(i as int), c),
        decreases n - i,
    {
        assert(chars@.skip(i as int).skip(1) =~= chars@.skip(i + 1));
        i += 1;
    }
    i
}

/// A text cut at the first occurrence of a character, which is left out; `None` if it
/// does not occur.
pub open spec fn cut(s: Seq<char>, c: char) -> Option<(Seq<char>, Seq<char>)> {
    let i = first_pos(s, c);
    if i < s.len() {
        Some((s.take(i), s.skip(i + 1)))
    } else {
        None
    }
}

/// Cuts a text at the first occurrence of a character.
pub fn split_once(text: &str, c: char) -> (r: Option<(&str, &str)>)
    ensures
        cut(text@, c) == (match r {
            Some((a, b)) => Some((a@, b@)),
            None => None,
        }),
{
    let chars = chars_of(text);
    let n: usize = chars.len();
    let i: usize = find_char(chars.as_slice(), c);
    if i < n {
        let a = text.substring_char(0, i);
        let b = text.substring_char(i + 1, n);
        assert(a@ =~= text@.take(i as int));
        assert(b@ =~= text@.skip(i + 1));
        Some((a, b))
    } else {
        None
    }
}

/// Whether a text starts with another.
pub open spec fn starts_with(s: Seq<char>, prefix: Seq<char>) -> bool {
    prefix.len() <= s.len() && s.take(prefix.len() as int) == prefix
}

/// Removes the start of a text, if it is the given one.
pub fn strip_prefix<'a>(text: &'a str, prefix: &str) -> (r: Option<&'a str>)
    ensures
        r is Some <==> starts_with(text@, prefix@),
        r matches Some(rest) ==> rest@ == text@.skip(prefix@.len() as int),
{
    let chars = chars_of(text);
    let start = chars_of(prefix);
    if start.len() > chars.len() {
        return None;
    }
    let n: usize = start.len();
    let mut i: usize = 0;
    while i < n
        invariant
            i <= n,
            n == start@.len(),
            n <= chars@.len(),
            start@ == prefix@,
            chars@ == text@,
            forall|j: int| 0 <= j < i ==> chars@[j] == start@[j],
        decreases n - i,
    {
        if chars[i] != start[i] {
            assert(text@.take(n as int)[i as int] != prefix@[i as int]);
            return None;
        }
        i += 1;
    }
    assert(text@.take(n as int) =~= prefix@);
    let rest = text.substring_char(n, chars.len());
    assert(rest@ =~= text@.skip(n as int));
    Some(rest)
}

/// The digits of an unsigned integer, which a plus sign may precede.
pub open spec fn digits_of(text: Seq<char>) -> Seq<char> {
    if text.len() > 0 && text[0] == '+' {
        text.skip(1)
    } else {
        text
    }
}

/// Whether a text is an unsigned integer: at least one digit, and only digits, after an
/// optional plus sign.
pub open spec fn is_unsigned(text: Seq<char>) -> bool {
    let digits = digits_of(text);
    digits.len() > 0 && forall|i: int|
        0 <= i < digits.len() ==> '0' <= #[trigger] digits[i] && digits[i] <= '9'
}

/// The value of decimal digits.
pub open spec fn digits_value(digits: Seq<char>) -> nat
    decreases digits.len(),
{
    if digits.len() == 0 {
        0
    } else {
        10 * digits_value(digits.drop_last()) + (digits.last() as nat - 48) as nat
    }
}

/// Whether a text is an unsigned integer of at most `max`.
pub open spec fn is_unsigned_upto(text: Seq<char>, max: nat) -> bool {
    is_unsigned(text) && digits_value(digits_of(text)) <= max
}

/// The text of the error of `str::parse` into a `u16`.
pub uninterp spec fn u16_error(text: Seq<char>) -> Seq<char>;

/// The text of the error of `str::parse` into a `u32`.
pub uninterp spec fn u32_error(text: Seq<char>) -> Seq<char>;

/// `str::parse` into a `u16`: an optional plus sign followed by digits only, whose value
/// fits.
#[verifier::external_body]
pub(crate) fn parse_u16(text: &str) -> (r: core::result::Result<u16, String>)
    ensures
        r is Ok <==> is_unsigned_upto(text@, u16::MAX as nat),
        r matches Ok(n) ==> n == digits_value(digits_of(text@)),
        r matches Err(e) ==> e@ == u16_error(text@),
{
    text.parse::<u16>().map_err(|e| e.to_string())
}

/// `str::parse` into a `u32`: an optional plus sign followed by digits only, whose value
/// fits.
#[verifier::external_body]
pub(crate) fn parse_u32(text: &str) -> (r: core::result::Result<u32, String>)
    ensures
        r is Ok <==> is_unsigned_upto(text@, u32::MAX as nat),
        r matches Ok(n) ==> n == digits_value(digits_of(text@)),
        r matches Err(e) ==> e@ == u32_error(text@),
{
    text.parse::<u32>().map_err(|e| e.to_string())
}

/// The value of digits in a base.
pub open spec fn value_in_base(digits: Seq<char>, base: nat) -> nat
    decreases digits.len(),
{
    if digits.len() == 0 {
        0
    } else {
        base * value_in_base(digits.drop_last(), base) + (digits.last() as nat - 48) as nat
    }
}

/// A text that may be missing is that text, or is missing.
pub proof fn optional_text_is_that_text(o: Option<String>)
    ensures
        match o {
            Some(s) => opt_text(o) == Some(s@),
            None => opt_text(o) is None,
        },
{
}

/// The decimal notation of a number is made of decimal digits, does not start with a zero but
/// for zero itself, and has that number as its value: two numbers never share a notation.
pub proof fn decimal_is_the_number(n: nat)
    ensures
        decimal(n).len() > 0,
        forall|i: int| 0 <= i < decimal(n).len() ==> '0' <= #[trigger] decimal(n)[i] <= '9',
        value_in_base(decimal(n), 10) == n,
        digits_value(decimal(n)) == n,
        n > 0 ==> decimal(n)[0] != '0',
    decreases n,
{
    if n >= 10 {
        decimal_is_the_number(n / 10);
        let front = decimal(n / 10);
        assert(decimal(n).drop_last() =~= front);
        assert forall|i: int| 0 <= i < decimal(n).len() implies '0' <= #[trigger] decimal(n)[i]
            <= '9' by {
            if i < front.len() {
                assert(decimal(n)[i] == front[i]);
            }
        }
        assert(decimal(n)[0] == front[0]);
    } else {
        assert(decimal(n).drop_last() =~= Seq::empty());
        assert(value_in_base(Seq::empty(), 10) == 0);
        assert(digits_value(Seq::empty()) == 0);
    }
}

/// The octal notation of a number is made of octal digits, does not start with a zero but for
/// zero itself, and has that number as its value in base eight.
pub proof fn octal_is_the_number(n: nat)
    ensures
        octal(n).len() > 0,
        forall|i: int| 0 <= i < octal(n).len() ==> '0' <= #[trigger] octal(n)[i] <= '7',
        value_in_base(octal(n), 8) == n,
        n > 0 ==> octal(n)[0] != '0',
    decreases n,
{
    if n >= 8 {
        octal_is_the_number(n / 8);
        let front = octal(n / 8);
        assert(octal(n).drop_last() =~= front);
        assert forall|i: int| 0 <= i < octal(n).len() implies '0' <= #[trigger] octal(n)[i]
            <= '7' by {
            if i < front.len() {
                assert(octal(n)[i] == front[i]);
            }
        }
        assert(octal(n)[0] == front[0]);
    } else {
        assert(octal(n).drop_last() =~= Seq::empty());
        assert(value_in_base(Seq::empty(), 8) == 0);
    }
}

proof fn lemma_trimmed_start(blanks: Seq<char>, rest: Seq<char>)
    requires
        forall|i: int| 0 <= i < blanks.len() ==> is_whitespace(#[trigger] blanks[i]),
        rest.len() == 0 || !is_whitespace(rest[0]),
    ensures
        trimmed_start(blanks + rest) == rest,
    decreases blanks.len(),
{
    let s = blanks + rest;
    if blanks.len() > 0 {
        assert(is_whitespace(blanks[0]));
        assert(s[0] == blanks[0]);
        assert(s.skip(1) =~= blanks.skip(1) + rest);
        assert forall|i: int| 0 <= i < blanks.skip(1).len() implies is_whitespace(
            #[trigger] blanks.skip(1)[i],
        ) by {
            assert(blanks.skip(1)[i] == blanks[i + 1]);
        }
        lemma_trimmed_start(blanks.skip(1), rest);
    } else {
        assert(s =~= rest);
    }
}

proof fn lemma_trimmed_end(rest: Seq<char>, blanks: Seq<char>)
    requires
        forall|i: int| 0 <= i < blanks.len() ==> is_whitespace(#[trigger] blanks[i]),
        rest.len() == 0 || !is_whitespace(rest.last()),
    ensures
        trimmed_end(rest + blanks) == rest,
    decreases blanks.len(),
{
    let s = rest + blanks;
    if blanks.len() > 0 {
        assert(is_whitespace(blanks[blanks.len() - 1]));
        assert(s.last() == blanks.last());
        assert(s.drop_last() =~= rest + blanks.drop_last());
        assert forall|i: int| 0 <= i < blanks.drop_last().len() implies is_whitespace(
            #[trigger] blanks.drop_last()[i],
        ) by {
            assert(blanks.drop_last()[i] == blanks[i]);
        }
        lemma_trimmed_end(rest, blanks.drop_last());
    } else {
        assert(s =~= rest);
    }
}

/// Trimming removes all the white space around a text, and nothing else.
pub proof fn trimming_removes_the_blanks_around(
    before: Seq<char>,
    core: Seq<char>,
    after: Seq<char>,
)
    requires
        forall|i: int| 0 <= i < before.len() ==> is_whitespace(#[trigger] before[i]),
        forall|i: int| 0 <= i < after.len() ==> is_whitespace(#[trigger] after[i]),
        core.len() > 0 ==> !is_whitespace(core[0]) && !is_whitespace(core.last()),
    ensures
        trimmed(before + core + after) == core,
{
    if core.len() > 0 {
        assert(before + core + after =~= before + (core + after));
        lemma_trimmed_start(before, core + after);
        lemma_trimmed_end(core, after);
    } else {
        let blanks = before + after;
        assert(before + core + after =~= blanks + Seq::<char>::empty());
        assert forall|i: int| 0 <= i < blanks.len() implies is_whitespace(#[trigger] blanks[i]) by {
            if i < before.len() {
                assert(blanks[i] == before[i]);
            } else {
                assert(blanks[i] == after[i - before.len()]);
            }
        }
        lemma_trimmed_start(blanks, Seq::empty());
        assert(core =~= Seq::empty());
    }
}

/// A text is cut at the first occurrence of a character, which is left out of both parts; one
/// in which it does not occur is not cut.
pub proof fn text_is_cut_at_the_first_occurrence(a: Seq<char>, b: Seq<char>, c: char)
    requires
        !a.contains(c),
    ensures
        cut(a.push(c) + b, c) == Some((a, b)),
        cut(a, c) is None,
{
    let s = a.push(c) + b;
    lemma_first_pos(s, c);
    lemma_first_pos(a, c);
    let i = first_pos(s, c);
    if i < a.len() {
        assert(a[i] == c);
        assert(a.contains(c));
    }
    if i > a.len() {
        assert(s[a.len() as int] == c);
    }
    assert(s.take(i) =~= a);
    assert(s.skip(i + 1) =~= b);
    if first_pos(a, c) < a.len() {
        assert(a.contains(c));
    }
}

/// A text starts with a prefix if and only if it is that prefix followed by something.
pub proof fn text_starts_with_its_prefix(prefix: Seq<char>, rest: Seq<char>, s: Seq<char>)
    ensures
        starts_with(prefix + rest, prefix),
        starts_with(s, prefix) ==> s == prefix + s.skip(prefix.len() as int),
{
    assert((prefix + rest).take(prefix.len() as int) =~= prefix);
    if starts_with(s, prefix) {
        assert(s =~= s.take(prefix.len() as int) + s.skip(prefix.len() as int));
    }
}

/// A number that is written in decimal is read back, with a plus sign before it or without one,
/// if it is not above the limit; nothing without a digit, or with another character, is a
/// number.
pub proof fn decimal_is_read_back(n: nat, max: nat)
    ensures
        is_unsigned_upto(decimal(n), max) <==> n <= max,
        is_unsigned_upto(seq!['+'] + decimal(n), max) <==> n <= max,
        digits_value(digits_of(decimal(n))) == n,
        digits_value(digits_of(seq!['+'] + decimal(n))) == n,
{
    decimal_is_the_number(n);
    let d = decimal(n);
    assert('0' <= d[0] <= '9');
    assert(digits_of(d) == d);
    let p = seq!['+'] + d;
    assert(p.skip(1) =~= d);
}

/// A text with a character that is neither a digit nor a plus sign at its start is no number.
pub proof fn only_digits_make_a_number(text: Seq<char>, i: int, max: nat)
    requires
        0 <= i < text.len(),
        !('0' <= text[i] <= '9'),
        i > 0 || text[0] != '+',
    ensures
        !is_unsigned_upto(text, max),
        !is_unsigned_upto(Seq::empty(), max),
        !is_unsigned_upto(seq!['+'], max),
{
    let digits = digits_of(text);
    if text[0] == '+' {
        assert(digits[i - 1] == text[i]);
    } else {
        assert(digits[i] == text[i]);
    }
    assert(digits_of(seq!['+']) =~= Seq::empty());
}

} // verus!
