//! Text primitives shared by every module.

use vstd::prelude::*;
use vstd::utf8::{decode_utf8, valid_utf8};

verus! {

/// The Unicode `White_Space` property.
pub open spec fn is_white_space(c: char) -> bool {
    ||| '\u{9}' <= c <= '\u{d}'
    ||| c == ' '
    ||| c == '\u{85}'
    ||| c == '\u{a0}'
    ||| c == '\u{1680}'
    ||| '\u{2000}' <= c <= '\u{200a}'
    ||| c == '\u{2028}'
    ||| c == '\u{2029}'
    ||| c == '\u{202f}'
    ||| c == '\u{205f}'
    ||| c == '\u{3000}'
}

/// The character has the Unicode `White_Space` property.
pub(crate) fn white_space(c: char) -> (res: bool)
    ensures
        res == is_white_space(c),
{
    ('\u{9}' <= c && c <= '\u{d}') || c == ' ' || c == '\u{85}' || c == '\u{a0}' || c == '\u{1680}'
        || ('\u{2000}' <= c && c <= '\u{200a}') || c == '\u{2028}' || c == '\u{2029}' || c
        == '\u{202f}' || c == '\u{205f}' || c == '\u{3000}'
}

/// The text without its leading white space.
pub open spec fn trim_start(s: Seq<char>) -> Seq<char>
    decreases s.len(),
{
    if s.len() > 0 && is_white_space(s.first()) {
        trim_start(s.drop_first())
    } else {
        s
    }
}

/// The text without its trailing white space.
pub open spec fn trim_end(s: Seq<char>) -> Seq<char>
    decreases s.len(),
{
    if s.len() > 0 && is_white_space(s.last()) {
        trim_end(s.drop_last())
    } else {
        s
    }
}

/// The text without its leading and trailing white space.
pub open spec fn trimmed(s: Seq<char>) -> Seq<char> {
    trim_end(trim_start(s))
}

/// `part` occurs in `whole` as a run of consecutive characters.
pub open spec fn occurs_in(part: Seq<char>, whole: Seq<char>) -> bool {
    exists|at: int|
        0 <= at && at + part.len() <= whole.len() && #[trigger] whole.subrange(
            at,
            at + part.len(),
        ) == part
}

/// `str::trim` removes leading and trailing characters that have the Unicode
/// `White_Space` property, and nothing else.
pub assume_specification[ str::trim ](s: &str) -> (res: &str)
    ensures
        res@ == trimmed(s@),
;

/// `String::push` appends one character.
pub assume_specification[ String::push ](s: &mut String, c: char)
    ensures
        final(s)@ == old(s)@.push(c),
;

/// Both hold the same characters.
pub(crate) fn same_text(a: &str, b: &str) -> (res: bool)
    ensures
        res == (a@ == b@),
{
    let x: Vec<char> = char_vec(a);
    let y: Vec<char> = char_vec(b);
    if x.len() != y.len() {
        return false;
    }
    let mut i: usize = 0;
    while i < x.len()
        invariant
            i <= x@.len() == y@.len(),
            x@ == a@,
            y@ == b@,
            forall|k: int| 0 <= k < i ==> #[trigger] x@[k] == y@[k],
        decreases x@.len() - i,
    {
        if x[i] != y[i] {
            assert(a@[i as int] != b@[i as int]);
            return false;
        }
        i += 1;
    }
    assert(a@ =~= b@);
    true
}

/// Calls `String::from_utf8`, which succeeds exactly on well-formed UTF-8 and keeps the
/// bytes.
#[verifier::external_body]
pub(crate) fn text_from_utf8(bytes: Vec<u8>) -> (res: Option<String>)
    ensures
        match res {
            Some(text) => valid_utf8(bytes@) && text@ == decode_utf8(bytes@),
            None => !valid_utf8(bytes@),
        },
{
    String::from_utf8(bytes).ok()
}

/// The text in quotes and with escapes, as the `Debug` output of `str` writes it.
pub uninterp spec fn quoted_text(text: Seq<char>) -> Seq<char>;

/// Formats a `str` by its `Debug` implementation, whose output depends on the text alone.
#[verifier::external_body]
pub(crate) fn quote_text(text: &str) -> (res: String)
    ensures
        res@ == quoted_text(text@),
{
    format!("{text:?}")
}

/// The characters of a text, in order.
pub(crate) fn char_vec(s: &str) -> (res: Vec<char>)
    ensures
        res@ == s@,
{
    let mut out: Vec<char> = Vec::new();
    for c in it: s.chars()
        invariant
            out@ == it.seq().take(it.index() as int),
            it.seq() == s@,
    {
        out.push(c);
    }
    out
}

/// The text made of the characters `chars[from..to]`.
pub(crate) fn text_of(chars: &Vec<char>, from: usize, to: usize) -> (res: String)
    requires
        from <= to <= chars@.len(),
    ensures
        res@ == chars@.subrange(from as int, to as int),
{
    let mut out: String = String::new();
    let mut i: usize = from;
    while i < to
        invariant
            from <= i <= to <= chars@.len(),
            out@ == chars@.subrange(from as int, i as int),
        decreases to - i,
    {
        out.push(chars[i]);
        i += 1;
    }
    out
}

/// One text after the other.
pub(crate) fn concat_text(a: &str, b: &str) -> (res: String)
    ensures
        res@ == a@ + b@,
{
    let mut out: String = a.to_owned();
    out.append(b);
    out
}

/// The decimal digit that stands for `n % 10`.
pub open spec fn digit_char(n: nat) -> char {
    (('0' as u32) + (n % 10)) as char
}

/// The decimal notation of `n`, without leading zeros.
pub open spec fn decimal(n: nat) -> Seq<char>
    decreases n,
{
    if n < 10 {
        seq![digit_char(n)]
    } else {
        decimal(n / 10).push(digit_char(n))
    }
}

/// The decimal notation of `n`.
pub(crate) fn decimal_text(n: u64) -> (res: String)
    ensures
        res@ == decimal(n as nat),
    decreases n,
{
    let digit: char = (48u8 + (n % 10) as u8) as char;
    if n < 10 {
        let mut out: String = String::new();
        out.push(digit);
        out
    } else {
        let mut out: String = decimal_text(n / 10);
        out.push(digit);
        out
    }
}

/// The character is a decimal digit.
pub open spec fn is_digit(c: char) -> bool {
    '0' <= c <= '9'
}

/// The number that decimal digits write.
pub open spec fn digits_value(digits: Seq<char>) -> nat
    decreases digits.len(),
{
    if digits.len() == 0 {
        0
    } else {
        digits_value(digits.drop_last()) * 10 + (digits.last() as nat - '0' as nat) as nat
    }
}

/// The text is made of decimal digits, at least one.
pub open spec fn is_digits(text: Seq<char>) -> bool {
    text.len() > 0 && forall|i: int| 0 <= i < text.len() ==> is_digit(#[trigger] text[i])
}

/// The text without the plus sign that it may begin with.
pub open spec fn without_plus(text: Seq<char>) -> Seq<char> {
    if text.len() > 0 && text[0] == '+' {
        text.skip(1)
    } else {
        text
    }
}

/// The number that a text writes, if it is one that a machine integer can hold.
pub open spec fn decimal_number(text: Seq<char>) -> Option<nat> {
    if is_digits(without_plus(text)) && digits_value(without_plus(text)) <= usize::MAX {
        Some(digits_value(without_plus(text)))
    } else {
        None
    }
}

proof fn digits_value_grows(digits: Seq<char>, count: int)
    requires
        0 <= count <= digits.len(),
    ensures
        digits_value(digits.take(count)) <= digits_value(digits),
    decreases digits.len(),
{
    if count == digits.len() {
        assert(digits.take(count) =~= digits);
    } else {
        assert(digits.drop_last().take(count) =~= digits.take(count));
        digits_value_grows(digits.drop_last(), count);
    }
}

/// Reads a decimal number; `None` where there is none or it is too large.
pub fn parse_decimal(text: &str) -> (res: Option<usize>)
    ensures
        match res {
            Some(n) => decimal_number(text@) == Some(n as nat),
            None => decimal_number(text@) is None,
        },
{
    let chars: Vec<char> = char_vec(text);
    let start: usize = if chars.len() > 0 && chars[0] == '+' {
        1
    } else {
        0
    };
    let ghost digits: Seq<char> = without_plus(text@);
    assert(digits =~= chars@.skip(start as int));
    if chars.len() == start {
        return None;
    }
    let mut value: usize = 0;
    let mut i: usize = start;
    assert(digits.take(0) =~= Seq::empty());
    while i < chars.len()
        invariant
            start <= i <= chars@.len(),
            start < chars@.len(),
            chars@ == text@,
            digits == without_plus(text@),
            digits == chars@.skip(start as int),
            forall|k: int| 0 <= k < i - start ==> is_digit(#[trigger] digits[k]),
            value == digits_value(digits.take(i - start)),
        decreases chars@.len() - i,
    {
        let c: char = chars[i];
        proof {
            assert(digits[i - start] == c);
            assert(digits.take(i - start + 1).drop_last() =~= digits.take(i - start));
            digits_value_grows(digits, i - start + 1);
        }
        if c < '0' || c > '9' {
            return None;
        }
        let digit: usize = (c as u32 - 48) as usize;
        match value.checked_mul(10) {
            Some(shifted) => match shifted.checked_add(digit) {
                Some(next) => {
                    value = next;
                },
                None => {
                    return None;
                },
            },
            None => {
                return None;
            },
        }
        i += 1;
    }
    assert(digits.take(digits.len() as int) =~= digits);
    Some(value)
}

/// Reads decimal digits; `None` where there is none, or another character, or the number
/// takes more than 64 bits.
pub fn parse_digits(text: &str) -> (res: Option<u64>)
    ensures
        match res {
            Some(n) => is_digits(text@) && n == digits_value(text@),
            None => !is_digits(text@) || digits_value(text@) > u64::MAX,
        },
{
    let chars: Vec<char> = char_vec(text);
    if chars.len() == 0 {
        return None;
    }
    let mut value: u64 = 0;
    let mut i: usize = 0;
    assert(text@.take(0) =~= Seq::empty());
    while i < chars.len()
        invariant
            i <= chars@.len(),
            chars@ == text@,
            forall|k: int| 0 <= k < i ==> is_digit(#[trigger] text@[k]),
            value == digits_value(text@.take(i as int)),
        decreases chars@.len() - i,
    {
        let c: char = chars[i];
        proof {
            assert(text@[i as int] == c);
            assert(text@.take(i + 1).drop_last() =~= text@.take(i as int));
            digits_value_grows(text@, i + 1);
        }
        if c < '0' || c > '9' {
            return None;
        }
        let digit: u64 = (c as u32 - 48) as u64;
        match value.checked_mul(10) {
            Some(shifted) => match shifted.checked_add(digit) {
                Some(next) => {
                    value = next;
                },
                None => {
                    return None;
                },
            },
            None => {
                return None;
            },
        }
        i += 1;
    }
    assert(text@.take(text@.len() as int) =~= text@);
    Some(value)
}

/// The text is made of decimal digits.
pub fn only_digits(text: &str) -> (res: bool)
    ensures
        res == is_digits(text@),
{
    let chars: Vec<char> = char_vec(text);
    let mut i: usize = 0;
    while i < chars.len()
        invariant
            i <= chars@.len(),
            chars@ == text@,
            forall|k: int| 0 <= k < i ==> is_digit(#[trigger] text@[k]),
        decreases chars@.len() - i,
    {
        if chars[i] < '0' || chars[i] > '9' {
            assert(!is_digit(text@[i as int]));
            return false;
        }
        i += 1;
    }
    chars.len() > 0
}

proof fn trim_start_is_tail(s: Seq<char>) -> (from: int)
    ensures
        0 <= from <= s.len(),
        trim_start(s) == s.skip(from),
        forall|k: int| 0 <= k < from ==> is_white_space(#[trigger] s[k]),
        from < s.len() ==> !is_white_space(s[from]),
    decreases s.len(),
{
    if s.len() > 0 && is_white_space(s.first()) {
        let rest = s.drop_first();
        let from = trim_start_is_tail(rest);
        assert(rest.skip(from) =~= s.skip(from + 1));
        assert forall|k: int| 0 <= k < from + 1 implies is_white_space(#[trigger] s[k]) by {
            if k > 0 {
                assert(is_white_space(rest[k - 1]));
            }
        }
        assert(from < rest.len() ==> rest[from] == s[from + 1]);
        from + 1
    } else {
        assert(s.skip(0) =~= s);
        0
    }
}

proof fn trim_end_is_head(s: Seq<char>) -> (to: int)
    ensures
        0 <= to <= s.len(),
        trim_end(s) == s.take(to),
        forall|k: int| to <= k < s.len() ==> is_white_space(#[trigger] s[k]),
        0 < to ==> !is_white_space(s[to - 1]),
    decreases s.len(),
{
    if s.len() > 0 && is_white_space(s.last()) {
        let rest = s.drop_last();
        let to = trim_end_is_head(rest);
        assert(rest.take(to) =~= s.take(to));
        assert forall|k: int| to <= k < s.len() implies is_white_space(#[trigger] s[k]) by {
            if k < rest.len() {
                assert(is_white_space(rest[k]));
            }
        }
        assert(0 < to ==> rest[to - 1] == s[to - 1]);
        to
    } else {
        assert(s.take(s.len() as int) =~= s);
        s.len() as int
    }
}

/// From here to there stands all of the text but the white space around it.
pub open spec fn is_core(s: Seq<char>, from: int, to: int) -> bool {
    &&& 0 <= from <= to <= s.len()
    &&& forall|k: int| 0 <= k < s.len() && !(from <= k < to) ==> is_white_space(#[trigger] s[k])
    &&& from < to ==> !is_white_space(s[from]) && !is_white_space(s[to - 1])
}

/// Trimming cuts nothing but white space, and all of it at both ends: what is left is one
/// piece of the text, which neither begins nor ends with white space.
pub proof fn only_white_space_is_trimmed(s: Seq<char>) -> (res: (int, int))
    ensures
        is_core(s, res.0, res.1),
        trimmed(s) == s.subrange(res.0, res.1),
        trimmed(s).len() == 0 <==> (forall|k: int|
            0 <= k < s.len() ==> is_white_space(#[trigger] s[k])),
        trimmed(s).len() > 0 ==> !is_white_space(trimmed(s).first()) && !is_white_space(
            trimmed(s).last(),
        ),
{
    let from = trim_start_is_tail(s);
    let rest = s.skip(from);
    let to = trim_end_is_head(rest);
    assert(rest.take(to) =~= s.subrange(from, from + to));
    assert(to > 0 ==> rest[to - 1] == s[from + to - 1]);
    assert(from < s.len() ==> rest[0] == s[from]);
    assert forall|k: int| 0 <= k < s.len() && !(from <= k < from + to) implies is_white_space(
        #[trigger] s[k],
    ) by {
        if k >= from + to {
            assert(is_white_space(rest[k - from]));
        }
    }
    if to > 0 {
        assert(from < s.len());
        assert(!is_white_space(s[from]));
    }
    (from, from + to)
}

/// A text without white space at its ends is not trimmed any further.
pub proof fn plain_ends_stay(s: Seq<char>)
    requires
        s.len() > 0 ==> !is_white_space(s.first()) && !is_white_space(s.last()),
    ensures
        trimmed(s) == s,
{
}

/// Trimming twice is trimming once.
pub proof fn trimming_twice_is_once(s: Seq<char>)
    ensures
        trimmed(trimmed(s)) == trimmed(s),
{
    let (from, to) = only_white_space_is_trimmed(s);
    plain_ends_stay(trimmed(s));
}

/// A number that is written is read back: as digits, without leading zeros.
pub proof fn written_numbers_are_read_back(n: nat)
    ensures
        is_digits(decimal(n)),
        decimal(n).len() > 0,
        digits_value(decimal(n)) == n,
        n > 0 ==> decimal(n)[0] != '0',
        n == 0 ==> decimal(n) == seq!['0'],
        trimmed(decimal(n)) == decimal(n),
        decimal_number(decimal(n)) == (if n <= usize::MAX {
            Some(n)
        } else {
            None
        }),
    decreases n,
{
    if n >= 10 {
        written_numbers_are_read_back(n / 10);
        assert(decimal(n) =~= decimal(n / 10).push(digit_char(n)));
        assert(decimal(n).drop_last() =~= decimal(n / 10));
    } else {
        assert(decimal(n) =~= seq![digit_char(n)]);
        assert(decimal(n).drop_last() =~= Seq::empty());
    }
    reveal_with_fuel(digits_value, 2);
    assert(digit_char(n) as nat - '0' as nat == n % 10);
    assert(decimal(n).last() == digit_char(n));
    assert(decimal(n).first() != '+');
    plain_ends_stay(decimal(n));
}

/// A text that stands between two others occurs in the whole.
pub proof fn a_part_occurs(before: Seq<char>, part: Seq<char>, after: Seq<char>)
    ensures
        occurs_in(part, before + part + after),
{
    let whole = before + part + after;
    let at = before.len() as int;
    assert(whole.subrange(at, at + part.len()) =~= part);
}

/// What occurs in a part occurs in the whole.
pub proof fn parts_of_parts_occur(
    inner: Seq<char>,
    before: Seq<char>,
    part: Seq<char>,
    after: Seq<char>,
)
    requires
        occurs_in(inner, part),
    ensures
        occurs_in(inner, before + part + after),
{
    let whole = before + part + after;
    let at = choose|at: int|
        0 <= at && at + inner.len() <= part.len() && #[trigger] part.subrange(
            at,
            at + inner.len(),
        ) == inner;
    let place = before.len() + at;
    assert(whole.subrange(place, place + inner.len()) =~= part.subrange(at, at + inner.len()));
}

/// What occurs in a text occurs in the text with anything behind it.
pub proof fn longer_texts_hold_it_too(part: Seq<char>, whole: Seq<char>, tail: Seq<char>)
    requires
        occurs_in(part, whole),
    ensures
        occurs_in(part, whole + tail),
{
    parts_of_parts_occur(part, Seq::empty(), whole, tail);
    assert(Seq::<char>::empty() + whole + tail =~= whole + tail);
}

/// The end of a text occurs in it.
pub proof fn the_end_occurs(whole: Seq<char>, end: Seq<char>)
    ensures
        occurs_in(end, whole + end),
{
    a_part_occurs(whole, end, Seq::empty());
    assert(whole + end + Seq::<char>::empty() =~= whole + end);
}

} // verus!
