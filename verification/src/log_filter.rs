//! The filter for technical logging.

use tracing_subscriber::EnvFilter;
use vstd::prelude::*;
use vstd::utf8::{encode_utf8, is_char_boundary};

use crate::encoding::{encode_concat, encode_split};
use crate::strings::{char_vec, text_of, white_space};
use crate::strings::{is_white_space, trim_start};

verus! {

/// A part of a directive, as in `name[span{field}]=level`.
#[derive(Clone, Copy, Debug, PartialEq, Eq, Structural)]
pub enum Part {
    Start,
    Name,
    Span,
    Field,
    /// Behind the field.
    Fields,
    /// Behind the span.
    Target,
    Level,
    /// No directive goes on like this.
    Refused,
}

/// The part that a directive is in after one more character.
pub open spec fn next_part(part: Part, c: char) -> Part {
    match part {
        Part::Start => if c == '[' {
            Part::Span
        } else {
            Part::Name
        },
        Part::Name => if c == '=' {
            Part::Level
        } else if c == '[' {
            Part::Span
        } else {
            Part::Name
        },
        Part::Span => if c == ']' {
            Part::Target
        } else if c == '{' {
            Part::Field
        } else {
            Part::Span
        },
        Part::Field => if c == '}' {
            Part::Fields
        } else {
            Part::Field
        },
        Part::Fields => if c == ']' {
            Part::Target
        } else {
            Part::Refused
        },
        Part::Target => if c == '=' {
            Part::Level
        } else {
            Part::Refused
        },
        Part::Level => Part::Level,
        Part::Refused => Part::Refused,
    }
}

/// The part that a directive is in at its end.
pub open spec fn last_part(directive: Seq<char>) -> Part
    decreases directive.len(),
{
    if directive.len() == 0 {
        Part::Start
    } else {
        next_part(last_part(directive.drop_last()), directive.last())
    }
}

/// The character ends a part that is then taken out.
pub open spec fn ends_part(part: Part, c: char) -> bool {
    (part == Part::Name || part == Part::Span || part == Part::Field) && next_part(part, c) != part
}

/// Behind the character begins a part that is taken out at its end.
pub open spec fn begins_part(part: Part, c: char) -> bool {
    let next = next_part(part, c);
    (next == Part::Span || next == Part::Field || next == Part::Level) && next != part
}

/// Where the character at this place ends a part or begins one, `whole` has no character
/// across the bytes at which it does so. The bytes are counted in `directive`.
pub open spec fn cuts_well(whole: Seq<char>, directive: Seq<char>, place: int) -> bool {
    let part = last_part(directive.take(place));
    let at = encode_utf8(directive.take(place)).len() as int;
    &&& ends_part(part, directive[place]) ==> is_char_boundary(encode_utf8(whole), at)
    &&& begins_part(part, directive[place]) ==> is_char_boundary(encode_utf8(whole), at + 1)
}

/// The parts of a directive are between its characters. Where they are is counted without
/// the white space in front of the directive, and they are taken from it with that.
pub open spec fn comes_apart(whole: Seq<char>) -> bool {
    let directive = trim_start(whole);
    forall|place: int|
        0 <= place < directive.len() ==> #[trigger] cuts_well(whole, directive, place)
}

/// From here to there stands one directive, between commas or the ends of the text.
pub open spec fn is_directive(text: Seq<char>, from: int, to: int) -> bool {
    &&& 0 <= from <= to <= text.len()
    &&& from == 0 || text[from - 1] == ','
    &&& to == text.len() || text[to] == ','
    &&& forall|k: int| from <= k < to ==> #[trigger] text[k] != ','
}

/// Every directive of the text comes apart between characters.
pub open spec fn all_come_apart(text: Seq<char>) -> bool {
    forall|from: int, to: int| #[trigger]
        is_directive(text, from, to) ==> comes_apart(text.subrange(from, to))
}

/// The text is a filter for technical logging.
pub uninterp spec fn is_log_filter(text: Seq<char>) -> bool;

/// Calls `EnvFilter::try_new`, whose success depends on the text alone. It splits the
/// text at its commas, finds the parts of each directive in the directive without the
/// white space around it and takes them from the directive with that white space, so it
/// panics where a part would begin or end inside a character; directives that come apart
/// between characters have no such part. The pattern of a field is compiled in as much
/// memory as it takes.
#[verifier::external_body]
pub(crate) fn log_filter(text: &str) -> (res: bool)
    requires
        all_come_apart(text@),
    ensures
        res == is_log_filter(text@),
{
    EnvFilter::try_new(text).is_ok()
}

fn part_behind(part: Part, c: char) -> (res: Part)
    ensures
        res == next_part(part, c),
{
    match part {
        Part::Start => if c == '[' {
            Part::Span
        } else {
            Part::Name
        },
        Part::Name => if c == '=' {
            Part::Level
        } else if c == '[' {
            Part::Span
        } else {
            Part::Name
        },
        Part::Span => if c == ']' {
            Part::Target
        } else if c == '{' {
            Part::Field
        } else {
            Part::Span
        },
        Part::Field => if c == '}' {
            Part::Fields
        } else {
            Part::Field
        },
        Part::Fields => if c == ']' {
            Part::Target
        } else {
            Part::Refused
        },
        Part::Target => if c == '=' {
            Part::Level
        } else {
            Part::Refused
        },
        Part::Level => Part::Level,
        Part::Refused => Part::Refused,
    }
}

fn bytes_of(c: char) -> (res: usize)
    ensures
        res == encode_utf8(seq![c]).len(),
        1 <= res <= 4,
{
    proof {
        vstd::utf8::char_is_scalar(c);
        reveal_with_fuel(encode_utf8, 2);
        assert(encode_utf8(seq![c]) =~= vstd::utf8::encode_scalar(c as u32));
    }
    let code: u32 = c as u32;
    if code < 0x80 {
        1
    } else if code < 0x800 {
        2
    } else if code < 0x10000 {
        3
    } else {
        4
    }
}

/// The text without the white space in front of it is the rest of the text.
proof fn trimmed_front_is_tail(text: Seq<char>, count: int)
    requires
        0 <= count <= text.len(),
        forall|k: int| 0 <= k < count ==> is_white_space(#[trigger] text[k]),
        count < text.len() ==> !is_white_space(text[count]),
    ensures
        trim_start(text) == text.skip(count),
    decreases count,
{
    if count == 0 {
        assert(text.skip(0) =~= text);
    } else {
        assert(is_white_space(text[0]));
        let rest = text.drop_first();
        assert forall|k: int| 0 <= k < count - 1 implies is_white_space(#[trigger] rest[k]) by {
            assert(is_white_space(text[k + 1]));
        }
        trimmed_front_is_tail(rest, count - 1);
        assert(rest.skip(count - 1) =~= text.skip(count));
    }
}

fn directive_comes_apart(whole: &str) -> (res: bool)
    ensures
        res == comes_apart(whole@),
{
    let chars: Vec<char> = char_vec(whole);
    let size: usize = whole.as_bytes().len();
    let mut front: usize = 0;
    while front < chars.len() && white_space(chars[front])
        invariant
            front <= chars@.len(),
            chars@ == whole@,
            forall|k: int| 0 <= k < front ==> is_white_space(#[trigger] whole@[k]),
        decreases chars@.len() - front,
    {
        front += 1;
    }
    let ghost directive: Seq<char> = whole@.skip(front as int);
    proof {
        trimmed_front_is_tail(whole@, front as int);
        encode_split(whole@, front as int);
    }
    let mut part: Part = Part::Start;
    let mut at: usize = 0;
    let mut i: usize = front;
    assert(directive.take(0) =~= Seq::<char>::empty());
    while i < chars.len()
        invariant
            front <= i <= chars@.len(),
            chars@ == whole@,
            directive == whole@.skip(front as int),
            directive == trim_start(whole@),
            size == encode_utf8(whole@).len(),
            encode_utf8(directive).len() <= size,
            part == last_part(directive.take(i - front)),
            at == encode_utf8(directive.take(i - front)).len(),
            forall|place: int|
                0 <= place < i - front ==> #[trigger] cuts_well(whole@, directive, place),
        decreases chars@.len() - i,
    {
        let c: char = chars[i];
        let ghost place: int = i - front;
        proof {
            assert(directive[place] == c);
            let longer = directive.take(place + 1);
            assert(longer.drop_last() =~= directive.take(place));
            assert(longer =~= directive.take(place) + seq![c]);
            encode_concat(directive.take(place), seq![c]);
            encode_split(directive, place + 1);
        }
        let next: Part = part_behind(part, c);
        let width: usize = bytes_of(c);
        if (part == Part::Name || part == Part::Span || part == Part::Field) && next != part
            && !whole.is_char_boundary(at) {
            assert(!cuts_well(whole@, directive, place));
            return false;
        }
        if (next == Part::Span || next == Part::Field || next == Part::Level) && next != part
            && !whole.is_char_boundary(at + 1) {
            assert(!cuts_well(whole@, directive, place));
            return false;
        }
        assert(cuts_well(whole@, directive, place));
        part = next;
        at += width;
        i += 1;
    }
    true
}

/// Every directive of the text comes apart between characters.
pub fn directives_come_apart(text: &str) -> (res: bool)
    ensures
        res == all_come_apart(text@),
{
    let chars: Vec<char> = char_vec(text);
    let mut from: usize = 0;
    let mut i: usize = 0;
    loop
        invariant
            from <= i <= chars@.len(),
            chars@ == text@,
            from == 0 || text@[from - 1] == ',',
            forall|k: int| from <= k < i ==> #[trigger] text@[k] != ',',
            forall|a: int, b: int| #[trigger]
                is_directive(text@, a, b) && b < from ==> comes_apart(text@.subrange(a, b)),
        decreases chars@.len() - i,
    {
        if i == chars.len() || chars[i] == ',' {
            assert(is_directive(text@, from as int, i as int));
            if !directive_comes_apart(text_of(&chars, from, i).as_str()) {
                return false;
            }
            assert forall|a: int, b: int| #[trigger] is_directive(text@, a, b) && b <= i implies comes_apart(
                text@.subrange(a, b),
            ) by {
                if b >= from {
                    if b < i {
                        assert(text@[b] != ',');
                    }
                    if a < from {
                        assert(text@[from - 1] != ',');
                    }
                    if a > from {
                        assert(text@[a - 1] != ',');
                    }
                }
            }
            if i == chars.len() {
                return true;
            }
            from = i + 1;
        }
        i += 1;
    }
}

/// Directives that do not begin with white space always come apart.
pub proof fn unspaced_directives_come_apart(text: Seq<char>)
    requires
        forall|from: int, to: int| #[trigger]
            is_directive(text, from, to) && from < to ==> !is_white_space(text[from]),
    ensures
        all_come_apart(text),
{
    assert forall|from: int, to: int| #[trigger] is_directive(text, from, to) implies comes_apart(
        text.subrange(from, to),
    ) by {
        let directive = text.subrange(from, to);
        assert(trim_start(directive) == directive);
        assert forall|place: int| 0 <= place < directive.len() implies #[trigger] cuts_well(
            directive,
            directive,
            place,
        ) by {
            encode_split(directive, place);
            let c = directive[place];
            if begins_part(last_part(directive.take(place)), c) {
                assert(directive.take(place + 1) =~= directive.take(place) + seq![c]);
                encode_concat(directive.take(place), seq![c]);
                encode_split(directive, place + 1);
                assert(encode_utf8(seq![c]).len() == 1) by {
                    reveal_with_fuel(encode_utf8, 2);
                }
            }
        }
    }
}

proof fn names_go_on(name: Seq<char>)
    requires
        name.len() > 0,
        forall|k: int| 0 <= k < name.len() ==> #[trigger] name[k] != '=' && name[k] != '[',
    ensures
        last_part(name) == Part::Name,
    decreases name.len(),
{
    let c = name[name.len() - 1];
    assert(c != '=' && c != '[');
    let init = name.drop_last();
    if init.len() > 0 {
        assert forall|k: int| 0 <= k < init.len() implies #[trigger] init[k] != '=' && init[k]
            != '[' by {
            assert(name[k] != '=' && name[k] != '[');
        }
        names_go_on(init);
    } else {
        assert(last_part(init) == Part::Start);
    }
}

/// The name of a directive ends at its equals sign or at its bracket, and the level or the
/// span begins behind that. A directive comes apart only where all its bytes up to there,
/// counted without the white space in front of it, end between characters of the whole.
pub proof fn names_are_cut_between_characters(
    front: Seq<char>,
    name: Seq<char>,
    sign: char,
    rest: Seq<char>,
)
    requires
        forall|k: int| 0 <= k < front.len() ==> is_white_space(#[trigger] front[k]),
        name.len() > 0,
        !is_white_space(name[0]),
        forall|k: int| 0 <= k < name.len() ==> #[trigger] name[k] != '=' && name[k] != '[',
        sign == '=' || sign == '[',
        comes_apart(front + name + seq![sign] + rest),
    ensures
        ({
            let bytes = encode_utf8(front + name + seq![sign] + rest);
            let end = encode_utf8(name).len() as int;
            is_char_boundary(bytes, end) && is_char_boundary(bytes, end + 1)
        }),
{
    let whole = front + name + seq![sign] + rest;
    let n = front.len() as int;
    assert forall|k: int| 0 <= k < n implies is_white_space(#[trigger] whole[k]) by {
        assert(whole[k] == front[k]);
    }
    assert(whole[n] == name[0]);
    trimmed_front_is_tail(whole, n);
    let directive = trim_start(whole);
    assert(directive =~= name + seq![sign] + rest);
    let place = name.len() as int;
    assert(directive.take(place) =~= name);
    assert(directive[place] == sign);
    names_go_on(name);
    assert(cuts_well(whole, directive, place));
}

/// Texts of plain ASCII characters always come apart.
pub proof fn ascii_texts_come_apart(text: Seq<char>)
    requires
        forall|k: int| 0 <= k < text.len() ==> (#[trigger] text[k] as u32) < 128,
    ensures
        all_come_apart(text),
{
    assert forall|from: int, to: int| #[trigger] is_directive(text, from, to) implies comes_apart(
        text.subrange(from, to),
    ) by {
        let whole = text.subrange(from, to);
        assert forall|k: int| 0 <= k < whole.len() implies (#[trigger] whole[k] as u32) < 128 by {
            assert((text[from + k] as u32) < 128);
        }
        let directive = trim_start(whole);
        let front = front_of(whole);
        assert forall|place: int| 0 <= place < directive.len() implies #[trigger] cuts_well(
            whole,
            directive,
            place,
        ) by {
            assert(directive.take(place) =~= whole.subrange(front, front + place));
            ascii_bytes_are_characters(whole.subrange(front, front + place));
            ascii_bytes_are_characters(whole.take(place));
            ascii_bytes_are_characters(whole.take(place + 1));
            encode_split(whole, place);
            encode_split(whole, place + 1);
        }
    }
}

proof fn front_of(text: Seq<char>) -> (front: int)
    ensures
        0 <= front <= text.len(),
        trim_start(text) == text.skip(front),
    decreases text.len(),
{
    if text.len() > 0 && is_white_space(text[0]) {
        let front = front_of(text.drop_first());
        assert(text.drop_first().skip(front) =~= text.skip(front + 1));
        front + 1
    } else {
        assert(text.skip(0) =~= text);
        0
    }
}

proof fn ascii_bytes_are_characters(text: Seq<char>)
    requires
        forall|k: int| 0 <= k < text.len() ==> (#[trigger] text[k] as u32) < 128,
    ensures
        encode_utf8(text).len() == text.len(),
    decreases text.len(),
{
    if text.len() > 0 {
        let rest = text.drop_first();
        assert forall|k: int| 0 <= k < rest.len() implies (#[trigger] rest[k] as u32) < 128 by {
            assert((text[k + 1] as u32) < 128);
        }
        ascii_bytes_are_characters(rest);
        assert((text[0] as u32) < 128);
        vstd::utf8::char_is_scalar(text[0]);
        vstd::utf8::encode_utf8_first_scalar(text);
        reveal_with_fuel(encode_utf8, 2);
    }
}

/// A directive that begins with a span takes its first byte for the bracket: it comes apart
/// only where a character of the whole ends there.
pub proof fn leading_spans_are_cut_between_characters(front: Seq<char>, rest: Seq<char>)
    requires
        forall|k: int| 0 <= k < front.len() ==> is_white_space(#[trigger] front[k]),
        comes_apart(front + seq!['['] + rest),
    ensures
        is_char_boundary(encode_utf8(front + seq!['['] + rest), 1),
{
    let whole = front + seq!['['] + rest;
    let n = front.len() as int;
    assert forall|k: int| 0 <= k < n implies is_white_space(#[trigger] whole[k]) by {
        assert(whole[k] == front[k]);
    }
    assert(whole[n] == '[');
    trimmed_front_is_tail(whole, n);
    let directive = trim_start(whole);
    assert(directive =~= seq!['['] + rest);
    assert(directive.take(0) =~= Seq::<char>::empty());
    assert(directive[0] == '[');
    assert(encode_utf8(directive.take(0)).len() == 0);
    assert(cuts_well(whole, directive, 0));
}

/// The directives of a text stand between its commas, and each must come apart.
pub proof fn directives_stand_between_commas(earlier: Seq<char>, last: Seq<char>)
    requires
        forall|k: int| 0 <= k < last.len() ==> #[trigger] last[k] != ',',
    ensures
        all_come_apart(last) <==> comes_apart(last),
        all_come_apart(earlier + seq![','] + last) <==> all_come_apart(earlier) && comes_apart(last),
{
    let text = earlier + seq![','] + last;
    let n = earlier.len() as int;
    assert forall|k: int| n < k < text.len() implies #[trigger] text[k] != ',' by {
        assert(text[k] == last[k - n - 1]);
    }
    assert(text[n] == ',');
    assert(is_directive(last, 0, last.len() as int));
    assert(last.subrange(0, last.len() as int) =~= last);
    if comes_apart(last) {
        assert forall|from: int, to: int| #[trigger] is_directive(last, from, to) implies comes_apart(
            last.subrange(from, to),
        ) by {
            if from > 0 {
                assert(last[from - 1] != ',');
            }
            if to < last.len() {
                assert(last[to] != ',');
            }
        }
    }
    assert(is_directive(text, n + 1, text.len() as int));
    assert(text.subrange(n + 1, text.len() as int) =~= last);
    if all_come_apart(text) {
        assert forall|from: int, to: int| #[trigger] is_directive(
            earlier,
            from,
            to,
        ) implies comes_apart(earlier.subrange(from, to)) by {
            assert forall|k: int| from <= k < to implies #[trigger] text[k] != ',' by {
                assert(text[k] == earlier[k]);
            }
            if from > 0 {
                assert(text[from - 1] == earlier[from - 1]);
            }
            if to < n {
                assert(text[to] == earlier[to]);
            }
            assert(is_directive(text, from, to));
            assert(text.subrange(from, to) =~= earlier.subrange(from, to));
        }
    }
    if all_come_apart(earlier) && comes_apart(last) {
        assert forall|from: int, to: int| #[trigger] is_directive(text, from, to) implies comes_apart(
            text.subrange(from, to),
        ) by {
            if from <= n {
                if to > n {
                    assert(text[n] != ',');
                }
                assert forall|k: int| from <= k < to implies #[trigger] earlier[k] != ',' by {
                    assert(text[k] == earlier[k]);
                }
                if from > 0 {
                    assert(text[from - 1] == earlier[from - 1]);
                }
                if to < n {
                    assert(text[to] == earlier[to]);
                }
                assert(is_directive(earlier, from, to));
                assert(text.subrange(from, to) =~= earlier.subrange(from, to));
            } else {
                if from > n + 1 {
                    assert(text[from - 1] != ',');
                }
                if to < text.len() {
                    assert(text[to] != ',');
                }
            }
        }
    }
}

} // verus!
