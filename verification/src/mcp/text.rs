//! The text that a tool call answers with.

use icu_normalizer::ComposingNormalizerBorrowed;
use icu_properties::props::GeneralCategory;
use icu_properties::CodePointMapData;
use vstd::prelude::*;

use crate::json::{array_holds_items, array_view, float_is_zero, Fields, JsonView};
use crate::json::{Json, JsonNumber, JsonObject};
use crate::json_text::float_text;
use crate::json_text::write_float;
use crate::naparnik::response::RenderedToolResult;
use crate::naparnik::response::{rendered_views, text_views, RenderedView};
use crate::strings::{char_vec, decimal_text, same_text};
use crate::strings::{
    a_part_occurs,
    decimal,
    is_core,
    is_white_space,
    occurs_in,
    only_white_space_is_trimmed,
    parts_of_parts_occur,
    plain_ends_stay,
    trimmed,
};

verus! {

/// The normalization form NFKC of a text.
pub uninterp spec fn nfkc(text: Seq<char>) -> Seq<char>;

/// Calls `ComposingNormalizerBorrowed::normalize` for NFKC, whose result depends on the
/// text alone.
#[verifier::external_body]
fn normalize_nfkc(text: &str) -> (res: String)
    ensures
        res@ == nfkc(text@),
{
    ComposingNormalizerBorrowed::new_nfkc().normalize(text).into_owned()
}

/// The number of the general category `Control`.
pub const CONTROL_CATEGORY: u16 = 15;

/// The number of the general category `Format`.
pub const FORMAT_CATEGORY: u16 = 16;

/// The general category of a character, by the number that Unicode's reference library
/// gives it.
pub uninterp spec fn general_category(c: char) -> u16;

/// Calls `CodePointMapData::get` for the general category, which depends on the
/// character alone, and gives the number that `icu_properties` converts it to.
#[verifier::external_body]
fn category_of(c: char) -> (res: u16)
    ensures
        res == general_category(c),
{
    u16::from(CodePointMapData::<GeneralCategory>::new().get(c))
}

/// The character may stand in an answer: it is a line ending, a tabulator, or of another
/// category than control and format.
pub open spec fn is_shown(c: char) -> bool {
    c == '\n' || c == '\r' || c == '\t' || (general_category(c) != CONTROL_CATEGORY
        && general_category(c) != FORMAT_CATEGORY)
}

/// The characters of a text that may stand in an answer.
pub open spec fn shown_chars(text: Seq<char>) -> Seq<char> {
    text.filter(|c: char| is_shown(c))
}

/// A text as it may be answered.
pub open spec fn sanitized(text: Seq<char>) -> Seq<char> {
    if text.len() == 0 {
        text
    } else {
        shown_chars(nfkc(text))
    }
}

/// Leaves out the characters that may not stand in an answer.
pub fn keep_shown_chars(text: &str) -> (res: String)
    ensures
        res@ == shown_chars(text@),
{
    let chars: Vec<char> = char_vec(text);
    let mut out: String = String::new();
    let mut i: usize = 0;
    proof {
        reveal(Seq::filter);
        assert(text@.take(0) =~= Seq::empty());
    }
    while i < chars.len()
        invariant
            i <= chars@.len(),
            chars@ == text@,
            out@ == shown_chars(text@.take(i as int)),
        decreases chars@.len() - i,
    {
        let c: char = chars[i];
        proof {
            reveal(Seq::filter);
            assert(text@.take(i + 1).drop_last() =~= text@.take(i as int));
        }
        let category: u16 = category_of(c);
        if c == '\n' || c == '\r' || c == '\t' || (category != CONTROL_CATEGORY && category
            != FORMAT_CATEGORY) {
            out.push(c);
        }
        i += 1;
    }
    assert(text@.take(text@.len() as int) =~= text@);
    out
}

/// Prepares a text for the answer.
pub fn sanitize_text(input: &str) -> (res: String)
    ensures
        res@ == sanitized(input@),
{
    if input.is_empty() {
        return input.to_owned();
    }
    keep_shown_chars(normalize_nfkc(input).as_str())
}

/// Nothing stands in an answer that may not.
pub proof fn answers_hold_shown_chars_only(text: Seq<char>)
    ensures
        forall|i: int|
            0 <= i < sanitized(text).len() ==> is_shown(#[trigger] sanitized(text)[i]),
{
    let pred = |c: char| is_shown(c);
    if text.len() > 0 {
        assert forall|i: int| 0 <= i < sanitized(text).len() implies is_shown(
            #[trigger] sanitized(text)[i],
        ) by {
            nfkc(text).lemma_filter_pred(pred, i);
        }
    }
}

/// A value that counts as true in Python.
pub open spec fn is_truthy(value: JsonView) -> bool {
    match value {
        JsonView::Null => false,
        JsonView::Bool(flag) => flag,
        JsonView::Number(JsonNumber::Unsigned(n)) => n != 0,
        JsonView::Number(JsonNumber::Negative(n)) => n != 0,
        JsonView::Number(JsonNumber::Float(bits)) => !float_is_zero(bits),
        JsonView::Text(text) => text.len() > 0,
        JsonView::Array(items) => items.len() > 0,
        JsonView::Object(fields) => fields.len() > 0,
    }
}

/// A number as it is written.
pub open spec fn number_text(number: JsonNumber) -> Seq<char> {
    match number {
        JsonNumber::Unsigned(n) => decimal(n as nat),
        JsonNumber::Negative(n) => if n < 0 {
            "-"@ + decimal((-n) as nat)
        } else {
            decimal(n as nat)
        },
        JsonNumber::Float(bits) => float_text(bits),
    }
}

/// The quote that a string is put in: a single one, unless only double ones are free.
pub open spec fn chosen_quote(text: Seq<char>) -> char {
    if text.contains('\'') && !text.contains('"') {
        '"'
    } else {
        '\''
    }
}

/// A control character.
pub open spec fn is_control(c: char) -> bool {
    c < ' ' || '\u{7f}' <= c <= '\u{9f}'
}

/// A hexadecimal digit.
pub open spec fn hex_digit(n: nat) -> char {
    if n < 10 {
        (('0' as u32) + n) as char
    } else {
        (('a' as u32) + n - 10) as char
    }
}

/// A character as it stands in a quoted string.
pub open spec fn escaped(c: char, quote: char) -> Seq<char> {
    if c == '\\' {
        "\\\\"@
    } else if c == '\n' {
        "\\n"@
    } else if c == '\r' {
        "\\r"@
    } else if c == '\t' {
        "\\t"@
    } else if c == quote {
        seq!['\\', c]
    } else if is_control(c) {
        "\\x"@ + seq![hex_digit(c as nat / 16), hex_digit(c as nat % 16)]
    } else {
        seq![c]
    }
}

/// The characters of a quoted string.
pub open spec fn escaped_chars(text: Seq<char>, quote: char) -> Seq<char>
    decreases text.len(),
{
    if text.len() == 0 {
        Seq::empty()
    } else {
        escaped_chars(text.drop_last(), quote) + escaped(text.last(), quote)
    }
}

/// A string as Python writes it.
pub open spec fn quoted_string(text: Seq<char>) -> Seq<char> {
    let quote = chosen_quote(text);
    (seq![quote] + escaped_chars(text, quote)).push(quote)
}

proof fn escapes_differ(c: char, d: char, quote: char, a: Seq<char>, b: Seq<char>)
    requires
        quote == '\'' || quote == '"',
        escaped(c, quote) + a == escaped(d, quote) + b,
    ensures
        c == d,
        a == b,
{
    reveal_strlit("\\\\");
    reveal_strlit("\\n");
    reveal_strlit("\\r");
    reveal_strlit("\\t");
    reveal_strlit("\\x");
    let x = escaped(c, quote);
    let y = escaped(d, quote);
    let whole = x + a;
    assert(whole[0] == x[0] && whole[0] == y[0]);
    assert(x.len() > 1 ==> x[0] == '\\' && whole[1] == x[1]);
    assert(y.len() > 1 ==> y[0] == '\\' && whole[1] == y[1]);
    assert(x.len() == 4 ==> whole[2] == x[2] && whole[3] == x[3]);
    assert(y.len() == 4 ==> whole[2] == y[2] && whole[3] == y[3]);
    assert(c == d) by {
        if x.len() == 4 && y.len() == 4 {
            hex_digits_tell(c as nat / 16, d as nat / 16);
            hex_digits_tell(c as nat % 16, d as nat % 16);
        }
    }
    assert(whole.skip(x.len() as int) =~= a);
    assert((y + b).skip(y.len() as int) =~= b);
}

proof fn hex_digits_tell(m: nat, n: nat)
    requires
        m < 16,
        n < 16,
        hex_digit(m) == hex_digit(n),
    ensures
        m == n,
{
}

proof fn hex_digits_are_clean(n: nat)
    requires
        n < 16,
    ensures
        !is_control(hex_digit(n)),
{
}

proof fn escaped_from_the_front(text: Seq<char>, quote: char)
    requires
        text.len() > 0,
    ensures
        escaped_chars(text, quote) == escaped(text[0], quote) + escaped_chars(
            text.drop_first(),
            quote,
        ),
    decreases text.len(),
{
    let init = text.drop_last();
    if init.len() == 0 {
        assert(init =~= Seq::empty());
        assert(text.drop_first() =~= Seq::empty());
        assert(Seq::<char>::empty() + escaped(text[0], quote) =~= escaped(text[0], quote)
            + Seq::<char>::empty());
    } else {
        escaped_from_the_front(init, quote);
        assert(init.drop_first() =~= text.drop_first().drop_last());
        assert(escaped_chars(text, quote) =~= escaped(text[0], quote) + (escaped_chars(
            text.drop_first().drop_last(),
            quote,
        ) + escaped(text.last(), quote)));
    }
}

#[verifier::spinoff_prover]
proof fn escaped_chars_differ(a: Seq<char>, b: Seq<char>, quote: char)
    requires
        quote == '\'' || quote == '"',
        escaped_chars(a, quote) == escaped_chars(b, quote),
    ensures
        a == b,
    decreases a.len(),
{
    if a.len() > 0 {
        escaped_from_the_front(a, quote);
    }
    if b.len() > 0 {
        escaped_from_the_front(b, quote);
    }
    if a.len() == 0 || b.len() == 0 {
        reveal_strlit("\\\\");
        reveal_strlit("\\n");
        reveal_strlit("\\r");
        reveal_strlit("\\t");
        assert("\\\\"@.len() == 2 && "\\n"@.len() == 2 && "\\r"@.len() == 2 && "\\t"@.len() == 2);
        if a.len() > 0 {
            assert(escaped(a[0], quote).len() > 0);
            assert(escaped_chars(b, quote).len() == 0);
            assert(false);
        }
        if b.len() > 0 {
            assert(escaped(b[0], quote).len() > 0);
            assert(escaped_chars(a, quote).len() == 0);
            assert(false);
        }
        assert(a =~= b);
    } else {
        escapes_differ(
            a[0],
            b[0],
            quote,
            escaped_chars(a.drop_first(), quote),
            escaped_chars(b.drop_first(), quote),
        );
        escaped_chars_differ(a.drop_first(), b.drop_first(), quote);
        assert(a =~= seq![a[0]] + a.drop_first());
        assert(b =~= seq![b[0]] + b.drop_first());
    }
}

/// Different strings are written differently.
pub proof fn quoting_tells_strings_apart(a: Seq<char>, b: Seq<char>)
    ensures
        quoted_string(a) == quoted_string(b) ==> a == b,
{
    if quoted_string(a) == quoted_string(b) {
        let quote = chosen_quote(a);
        assert(quoted_string(a)[0] == quote && quoted_string(b)[0] == chosen_quote(b));
        let inner = escaped_chars(a, quote);
        let other = escaped_chars(b, quote);
        assert(quoted_string(a).subrange(1, quoted_string(a).len() - 1) =~= inner);
        assert(quoted_string(b).subrange(1, quoted_string(b).len() - 1) =~= other);
        escaped_chars_differ(a, b, quote);
    }
}

proof fn escapes_are_clean(c: char, quote: char)
    requires
        quote == '\'' || quote == '"',
    ensures
        forall|i: int|
            0 <= i < escaped(c, quote).len() ==> !is_control(#[trigger] escaped(c, quote)[i]),
{
    reveal_strlit("\\\\");
    reveal_strlit("\\n");
    reveal_strlit("\\r");
    reveal_strlit("\\t");
    reveal_strlit("\\x");
    let last = escaped(c, quote);
    assert(last.len() == 1 || last.len() == 2 || last.len() == 4);
    assert(!is_control(last[0]));
    assert(last.len() > 1 ==> !is_control(last[1]));
    if last.len() == 4 {
        assert(last[2] == hex_digit(c as nat / 16) && last[3] == hex_digit(c as nat % 16));
        hex_digits_are_clean(c as nat / 16);
        hex_digits_are_clean(c as nat % 16);
    }
    assert forall|i: int| 0 <= i < last.len() implies !is_control(#[trigger] last[i]) by {
        assert(i == 0 || i == 1 || i == 2 || i == 3);
    }
}

proof fn escaped_chars_are_clean(text: Seq<char>, quote: char)
    requires
        quote == '\'' || quote == '"',
    ensures
        forall|i: int|
            0 <= i < escaped_chars(text, quote).len() ==> !is_control(
                #[trigger] escaped_chars(text, quote)[i],
            ),
    decreases text.len(),
{
    if text.len() > 0 {
        escaped_chars_are_clean(text.drop_last(), quote);
        escapes_are_clean(text.last(), quote);
        let earlier = escaped_chars(text.drop_last(), quote);
        let last = escaped(text.last(), quote);
        assert forall|i: int| 0 <= i < (earlier + last).len() implies !is_control(
            #[trigger] (earlier + last)[i],
        ) by {
            if i < earlier.len() {
                assert((earlier + last)[i] == escaped_chars(text.drop_last(), quote)[i]);
            } else {
                assert((earlier + last)[i] == last[i - earlier.len()]);
            }
        }
    }
}

/// No control character stands in a string as it is written. Its outer quotes are double
/// exactly when it holds a single quote and no double one.
pub proof fn written_strings_are_clean(text: Seq<char>)
    ensures
        forall|i: int|
            0 <= i < quoted_string(text).len() ==> !is_control(#[trigger] quoted_string(text)[i]),
        quoted_string(text).len() >= 2,
        quoted_string(text).first() == quoted_string(text).last(),
        quoted_string(text).first() == (if text.contains('\'') && !text.contains('"') {
            '"'
        } else {
            '\''
        }),
{
    let quote = chosen_quote(text);
    escaped_chars_are_clean(text, quote);
    let written = quoted_string(text);
    assert forall|i: int| 0 <= i < written.len() implies !is_control(#[trigger] written[i]) by {
        if 0 < i < written.len() - 1 {
            assert(written[i] == escaped_chars(text, quote)[i - 1]);
        }
    }
}

/// A value as Python writes it.
pub open spec fn python_text(value: JsonView) -> Seq<char>
    decreases value,
{
    match value {
        JsonView::Null => "None"@,
        JsonView::Bool(flag) => if flag {
            "True"@
        } else {
            "False"@
        },
        JsonView::Number(number) => number_text(number),
        JsonView::Text(text) => quoted_string(text),
        JsonView::Array(items) => "["@ + python_items(items) + "]"@,
        JsonView::Object(fields) => "{"@ + python_fields(fields) + "}"@,
    }
}

/// Values as Python writes them in a list.
pub open spec fn python_items(items: Seq<JsonView>) -> Seq<char>
    decreases items,
{
    if items.len() == 0 {
        Seq::empty()
    } else if items.len() == 1 {
        python_text(items[0])
    } else {
        python_items(items.drop_last()) + ", "@ + python_text(items[items.len() - 1])
    }
}

/// Fields as Python writes them in a dictionary.
pub open spec fn python_fields(fields: Fields) -> Seq<char>
    decreases fields,
{
    if fields.len() == 0 {
        Seq::empty()
    } else {
        let last = fields[fields.len() - 1];
        let field = quoted_string(last.0) + ": "@ + python_text(last.1);
        if fields.len() == 1 {
            field
        } else {
            python_fields(fields.drop_last()) + ", "@ + field
        }
    }
}

/// A value as Python shows it: a string as it is, any other as it is written.
pub open spec fn shown_value(value: JsonView) -> Seq<char> {
    match value {
        JsonView::Text(text) => text,
        _ => python_text(value),
    }
}

fn truthy(value: &Json) -> (res: bool)
    ensures
        res == is_truthy(value@),
{
    match value {
        Json::Null => false,
        Json::Bool(flag) => *flag,
        Json::Number(JsonNumber::Unsigned(n)) => *n != 0,
        Json::Number(JsonNumber::Negative(n)) => *n != 0,
        Json::Number(JsonNumber::Float(bits)) => !(*bits == 0 || *bits == 0x8000_0000_0000_0000),
        Json::Text(text) => !text.as_str().is_empty(),
        Json::Array(items) => items.len() > 0,
        Json::Object(object) => object.len() > 0,
    }
}

fn write_number(number: JsonNumber) -> (res: String)
    ensures
        res@ == number_text(number),
{
    match number {
        JsonNumber::Unsigned(n) => decimal_text(n),
        JsonNumber::Negative(n) => if n < 0 {
            let mut text: String = "-".to_owned();
            let magnitude: u64 = (0i128 - n as i128) as u64;
            text.append(decimal_text(magnitude).as_str());
            text
        } else {
            decimal_text(n as u64)
        },
        JsonNumber::Float(bits) => write_float(bits),
    }
}

fn contains_char(chars: &Vec<char>, wanted: char) -> (res: bool)
    ensures
        res == chars@.contains(wanted),
{
    let mut i: usize = 0;
    while i < chars.len()
        invariant
            i <= chars@.len(),
            forall|k: int| 0 <= k < i ==> #[trigger] chars@[k] != wanted,
        decreases chars@.len() - i,
    {
        if chars[i] == wanted {
            return true;
        }
        i += 1;
    }
    false
}

fn hex_char(n: u8) -> (res: char)
    requires
        n < 16,
    ensures
        res == hex_digit(n as nat),
{
    if n < 10 {
        (48u8 + n) as char
    } else {
        (97u8 + (n - 10)) as char
    }
}

fn push_escaped(out: &mut String, c: char, quote: char)
    ensures
        final(out)@ == old(out)@ + escaped(c, quote),
{
    let ghost before: Seq<char> = out@;
    if c == '\\' {
        out.append("\\\\");
    } else if c == '\n' {
        out.append("\\n");
    } else if c == '\r' {
        out.append("\\r");
    } else if c == '\t' {
        out.append("\\t");
    } else if c == quote {
        out.push('\\');
        out.push(c);
        assert(out@ =~= before + seq!['\\', c]);
    } else if c < ' ' || ('\u{7f}' <= c && c <= '\u{9f}') {
        let code: u8 = c as u8;
        out.append("\\x");
        out.push(hex_char(code / 16));
        out.push(hex_char(code % 16));
        assert(out@ =~= before + escaped(c, quote));
    } else {
        out.push(c);
        assert(out@ =~= before + seq![c]);
    }
}

/// Writes a string as Python shows it.
pub fn python_repr_string(value: &str) -> (res: String)
    ensures
        res@ == quoted_string(value@),
{
    let chars: Vec<char> = char_vec(value);
    let quote: char = if contains_char(&chars, '\'') && !contains_char(&chars, '"') {
        '"'
    } else {
        '\''
    };
    let mut out: String = String::new();
    out.push(quote);
    let mut i: usize = 0;
    proof {
        assert(value@.take(0) =~= Seq::empty());
        assert(out@ =~= seq![quote] + escaped_chars(value@.take(0), quote));
    }
    while i < chars.len()
        invariant
            i <= chars@.len(),
            chars@ == value@,
            out@ == seq![quote] + escaped_chars(value@.take(i as int), quote),
        decreases chars@.len() - i,
    {
        let ghost before: Seq<char> = out@;
        push_escaped(&mut out, chars[i], quote);
        proof {
            let done = value@.take(i + 1);
            assert(done.drop_last() =~= value@.take(i as int));
            assert(out@ =~= seq![quote] + escaped_chars(done, quote));
        }
        i += 1;
    }
    assert(value@.take(value@.len() as int) =~= value@);
    out.push(quote);
    out
}

fn python_repr(value: &Json) -> (res: String)
    ensures
        res@ == python_text(value@),
    decreases value,
{
    match value {
        Json::Null => "None".to_owned(),
        Json::Bool(flag) => if *flag {
            "True".to_owned()
        } else {
            "False".to_owned()
        },
        Json::Number(number) => write_number(*number),
        Json::Text(text) => python_repr_string(text.as_str()),
        Json::Array(items) => {
            let ghost views: Seq<JsonView> = array_view(items@);
            proof {
                array_holds_items(*items);
            }
            let mut inner: String = String::new();
            let mut i: usize = 0;
            assert(views.take(0) =~= Seq::empty());
            while i < items.len()
                invariant
                    i <= items@.len(),
                    *value == Json::Array(*items),
                    views == array_view(items@),
                    inner@ == python_items(views.take(i as int)),
                decreases items@.len() - i,
            {
                assert(decreases_to!(value => value->Array_0));
                assert(decreases_to!(items => items@));
                assert(decreases_to!(items@ => items@[i as int]));
                assert(views.take(i + 1).drop_last() =~= views.take(i as int));
                if i > 0 {
                    inner.append(", ");
                }
                let item: String = python_repr(&items[i]);
                if i == 0 {
                    inner = item;
                } else {
                    inner.append(item.as_str());
                }
                i += 1;
            }
            assert(views.take(views.len() as int) =~= views);
            let mut out: String = "[".to_owned();
            out.append(inner.as_str());
            out.append("]");
            out
        },
        Json::Object(object) => {
            assert(decreases_to!(value => value->Object_0));
            let inner: String = python_repr_fields(object);
            let mut out: String = "{".to_owned();
            out.append(inner.as_str());
            out.append("}");
            out
        },
    }
}

fn python_repr_fields(object: &JsonObject) -> (res: String)
    ensures
        res@ == python_fields(object@),
    decreases object,
{
    let mut inner: String = String::new();
    let mut i: usize = 0;
    assert(object@.take(0) =~= Seq::empty());
    while i < object.entries.len()
        invariant
            i <= object.entries@.len() == object@.len(),
            inner@ == python_fields(object@.take(i as int)),
        decreases object.entries@.len() - i,
    {
        let pair: &(String, Json) = &object.entries[i];
        assert(decreases_to!(object => object.entries));
        assert(decreases_to!(object.entries => object.entries@));
        assert(decreases_to!(object.entries@ => object.entries@[i as int]));
        assert(decreases_to!(pair => pair.1));
        proof {
            assert(object@[i as int] == (pair.0@, pair.1@));
            assert(object@.take(i + 1).drop_last() =~= object@.take(i as int));
        }
        let mut field: String = python_repr_string(pair.0.as_str());
        field.append(": ");
        field.append(python_repr(&pair.1).as_str());
        if i == 0 {
            inner = field;
        } else {
            inner.append(", ");
            inner.append(field.as_str());
        }
        i += 1;
    }
    assert(object@.take(object@.len() as int) =~= object@);
    inner
}

fn python_str(value: &Json) -> (res: String)
    ensures
        res@ == shown_value(value@),
{
    match value {
        Json::Text(text) => text.clone(),
        _ => python_repr(value),
    }
}

/// The answer of an internal tool that was called exactly.
pub struct DirectToolText<'a> {
    pub tool_results: &'a Vec<RenderedToolResult>,
    pub full_text: &'a str,
    pub tool_followups: &'a Vec<String>,
    pub final_text: &'a str,
}

/// The blocks after another one, which counts where it is not empty.
pub open spec fn with_block(text: Seq<char>, block: Seq<char>) -> Seq<char> {
    if block.len() == 0 {
        text
    } else if text.len() == 0 {
        block
    } else {
        text + "\n"@ + block
    }
}

/// The details that count as true, shown line by line after what came before.
pub open spec fn with_details(text: Seq<char>, details: Seq<JsonView>) -> Seq<char>
    decreases details.len(),
{
    if details.len() == 0 {
        text
    } else {
        let earlier = with_details(text, details.drop_last());
        if is_truthy(details.last()) {
            with_block(earlier, shown_value(details.last()))
        } else {
            earlier
        }
    }
}

/// What a tool shows, unless it only says that it has run.
pub open spec fn telling_markdown(markdown: Seq<char>) -> Seq<char> {
    if trimmed(markdown) == "✓ Инструмент выполнен"@ {
        Seq::empty()
    } else {
        trimmed(markdown)
    }
}

/// What the tools show, line by line.
pub open spec fn results_text(results: Seq<RenderedView>) -> Seq<char>
    decreases results.len(),
{
    if results.len() == 0 {
        Seq::empty()
    } else {
        with_details(
            with_block(
                results_text(results.drop_last()),
                telling_markdown(results.last().markdown),
            ),
            results.last().details,
        )
    }
}

/// The last of the texts that is not blank, without the white space around it.
pub open spec fn last_telling(texts: Seq<Seq<char>>) -> Seq<char>
    decreases texts.len(),
{
    if texts.len() == 0 {
        Seq::empty()
    } else if trimmed(texts.last()).len() > 0 {
        trimmed(texts.last())
    } else {
        last_telling(texts.drop_last())
    }
}

/// The last of the texts that is not empty, without the white space around it.
pub open spec fn last_nonempty(texts: Seq<Seq<char>>) -> Seq<char>
    decreases texts.len(),
{
    if texts.len() == 0 {
        Seq::empty()
    } else if texts.last().len() > 0 {
        trimmed(texts.last())
    } else {
        last_nonempty(texts.drop_last())
    }
}

/// What the assistant says itself: its whole text, else its last follow-up, else its
/// final text.
pub open spec fn spoken_text(full: Seq<char>, followups: Seq<Seq<char>>, last: Seq<char>) -> Seq<char> {
    if trimmed(full).len() > 0 {
        trimmed(full)
    } else if last_telling(followups).len() > 0 {
        last_telling(followups)
    } else {
        trimmed(last)
    }
}

/// The answer of an exact call.
pub open spec fn direct_text(
    results: Seq<RenderedView>,
    full: Seq<char>,
    followups: Seq<Seq<char>>,
    last: Seq<char>,
) -> Seq<char> {
    trimmed(with_block(results_text(results), spoken_text(full, followups, last)))
}

/// The answer of a message.
pub open spec fn standard_text(full: Seq<char>, last: Seq<char>, followups: Seq<Seq<char>>) -> Seq<char> {
    if trimmed(full).len() > 0 {
        trimmed(full)
    } else if trimmed(last).len() > 0 {
        trimmed(last)
    } else {
        last_nonempty(followups)
    }
}

fn push_block(text: &mut String, block: &str)
    ensures
        final(text)@ == with_block(old(text)@, block@),
{
    if block.is_empty() {
        return;
    }
    if text.as_str().is_empty() {
        *text = block.to_owned();
    } else {
        text.append("\n");
        text.append(block);
    }
}

fn push_details(text: &mut String, details: &Vec<Json>)
    ensures
        final(text)@ == with_details(old(text)@, array_view(details@)),
{
    let ghost before: Seq<char> = text@;
    let ghost views: Seq<JsonView> = array_view(details@);
    let mut i: usize = 0;
    assert(views.take(0) =~= Seq::empty());
    while i < details.len()
        invariant
            i <= details@.len(),
            views == array_view(details@),
            text@ == with_details(before, views.take(i as int)),
        decreases details@.len() - i,
    {
        assert(views.take(i + 1).drop_last() =~= views.take(i as int));
        if truthy(&details[i]) {
            push_block(text, python_str(&details[i]).as_str());
        }
        i += 1;
    }
    assert(views.take(views.len() as int) =~= views);
}

/// Gathers the answer of an exact call.
pub fn extract_tool_text(input: &DirectToolText<'_>) -> (res: String)
    ensures
        res@ == direct_text(
            rendered_views(input.tool_results@),
            input.full_text@,
            text_views(input.tool_followups@),
            input.final_text@,
        ),
{
    let ghost results: Seq<RenderedView> = rendered_views(input.tool_results@);
    let mut text: String = String::new();
    let mut i: usize = 0;
    assert(results.take(0) =~= Seq::empty());
    while i < input.tool_results.len()
        invariant
            i <= input.tool_results@.len(),
            results == rendered_views(input.tool_results@),
            text@ == results_text(results.take(i as int)),
        decreases input.tool_results@.len() - i,
    {
        let result: &RenderedToolResult = &input.tool_results[i];
        assert(results.take(i + 1).drop_last() =~= results.take(i as int));
        let markdown: &str = result.response_markdown().trim();
        if !same_text(markdown, "✓ Инструмент выполнен") {
            push_block(&mut text, markdown);
        }
        push_details(&mut text, result.response_details());
        i += 1;
    }
    assert(results.take(results.len() as int) =~= results);
    let full_text: &str = input.full_text.trim();
    if !full_text.is_empty() {
        push_block(&mut text, full_text);
    } else {
        match last_telling_text(input.tool_followups) {
            Some(followup) => push_block(&mut text, followup),
            None => push_block(&mut text, input.final_text.trim()),
        }
    }
    text.as_str().trim().to_owned()
}

fn last_telling_text(texts: &Vec<String>) -> (res: Option<&str>)
    ensures
        match res {
            Some(text) => text@.len() > 0 && text@ == last_telling(text_views(texts@)),
            None => last_telling(text_views(texts@)).len() == 0,
        },
{
    let ghost views: Seq<Seq<char>> = text_views(texts@);
    let mut n: usize = texts.len();
    assert(views.take(n as int) =~= views);
    while n > 0
        invariant
            n <= texts@.len(),
            views == text_views(texts@),
            last_telling(views) == last_telling(views.take(n as int)),
        decreases n,
    {
        assert(views.take(n as int).drop_last() =~= views.take(n - 1));
        let text: &str = texts[n - 1].as_str().trim();
        if !text.is_empty() {
            return Some(text);
        }
        n -= 1;
    }
    None
}

/// Gathers the answer of a message.
pub fn extract_standard_text(full_text: &str, final_text: &str, tool_followups: &Vec<String>) -> (res:
    String)
    ensures
        res@ == standard_text(full_text@, final_text@, text_views(tool_followups@)),
{
    let whole: &str = full_text.trim();
    if !whole.is_empty() {
        return whole.to_owned();
    }
    let last: &str = final_text.trim();
    if !last.is_empty() {
        return last.to_owned();
    }
    let ghost views: Seq<Seq<char>> = text_views(tool_followups@);
    let mut n: usize = tool_followups.len();
    assert(views.take(n as int) =~= views);
    while n > 0
        invariant
            n <= tool_followups@.len(),
            trimmed(full_text@).len() == 0,
            trimmed(final_text@).len() == 0,
            views == text_views(tool_followups@),
            last_nonempty(views) == last_nonempty(views.take(n as int)),
        decreases n,
    {
        assert(views.take(n as int).drop_last() =~= views.take(n - 1));
        if !tool_followups[n - 1].as_str().is_empty() {
            return tool_followups[n - 1].as_str().trim().to_owned();
        }
        n -= 1;
    }
    String::new()
}

/// Two texts on lines of their own; an empty one takes no line.
pub open spec fn on_lines(a: Seq<char>, b: Seq<char>) -> Seq<char> {
    if a.len() == 0 {
        b
    } else if b.len() == 0 {
        a
    } else {
        a.push('\n') + b
    }
}

proof fn blocks_are_lines(a: Seq<char>, b: Seq<char>)
    ensures
        with_block(a, b) == on_lines(a, b),
{
    reveal_strlit("\n");
    if a.len() == 0 && b.len() == 0 {
        assert(a =~= b);
    }
    assert(a + "\n"@ + b =~= a.push('\n') + b);
}

proof fn lines_join(a: Seq<char>, b: Seq<char>, c: Seq<char>)
    ensures
        on_lines(on_lines(a, b), c) == on_lines(a, on_lines(b, c)),
{
    assert((a.push('\n') + b).push('\n') + c =~= a.push('\n') + (b.push('\n') + c));
}

proof fn details_follow(text: Seq<char>, details: Seq<JsonView>)
    ensures
        with_details(text, details) == on_lines(text, with_details(Seq::empty(), details)),
    decreases details.len(),
{
    let none = Seq::<char>::empty();
    if details.len() > 0 {
        let init = details.drop_last();
        details_follow(text, init);
        let shown = shown_value(details.last());
        blocks_are_lines(with_details(text, init), shown);
        blocks_are_lines(with_details(none, init), shown);
        lines_join(text, with_details(none, init), shown);
    } else {
        assert(on_lines(text, none) == text) by {
            if text.len() == 0 {
                assert(text =~= none);
            }
        }
    }
}

proof fn details_join(a: Seq<JsonView>, b: Seq<JsonView>)
    ensures
        with_details(Seq::empty(), a + b) == on_lines(
            with_details(Seq::empty(), a),
            with_details(Seq::empty(), b),
        ),
    decreases b.len(),
{
    let none = Seq::<char>::empty();
    if b.len() == 0 {
        assert(a + b =~= a);
        let text = with_details(none, a);
        assert(text.len() == 0 ==> text =~= none);
    } else {
        assert((a + b).drop_last() =~= a + b.drop_last());
        details_join(a, b.drop_last());
        let shown = shown_value(b.last());
        blocks_are_lines(with_details(none, a + b.drop_last()), shown);
        blocks_are_lines(with_details(none, b.drop_last()), shown);
        lines_join(with_details(none, a), with_details(none, b.drop_last()), shown);
    }
}

proof fn one_more_result(results: Seq<RenderedView>, more: RenderedView)
    ensures
        results_text(results.push(more)) == on_lines(
            results_text(results),
            on_lines(
                telling_markdown(more.markdown),
                with_details(Seq::empty(), more.details),
            ),
        ),
{
    let markdown = telling_markdown(more.markdown);
    assert(results.push(more).drop_last() =~= results);
    blocks_are_lines(results_text(results), markdown);
    details_follow(with_block(results_text(results), markdown), more.details);
    lines_join(results_text(results), markdown, with_details(Seq::empty(), more.details));
}

/// What several tools show is what each of them shows, on lines of their own and in order:
/// nothing that one shows is lost by what another does.
pub proof fn what_tools_show_adds_up(a: Seq<RenderedView>, b: Seq<RenderedView>)
    ensures
        results_text(a + b) == on_lines(results_text(a), results_text(b)),
    decreases b.len(),
{
    let none = Seq::<char>::empty();
    if b.len() == 0 {
        assert(a + b =~= a);
        assert(results_text(a).len() == 0 ==> results_text(a) =~= none);
    } else {
        let init = b.drop_last();
        let more = b.last();
        what_tools_show_adds_up(a, init);
        assert(a + b =~= (a + init).push(more));
        assert(b =~= init.push(more));
        one_more_result(a + init, more);
        one_more_result(init, more);
        lines_join(
            results_text(a),
            results_text(init),
            on_lines(telling_markdown(more.markdown), with_details(none, more.details)),
        );
    }
}

/// A tool shows its Markdown without the white space around it, unless that only says that
/// it has run, and then its details one after the other: each that counts as true, a text
/// as it is and any other value as Python writes it.
pub proof fn a_tool_shows_markdown_and_details(
    markdown: Seq<char>,
    details: Seq<JsonView>,
    more: Seq<JsonView>,
    detail: JsonView,
)
    ensures
        ({
            let none = Seq::<char>::empty();
            let shows = |markdown: Seq<char>, details: Seq<JsonView>|
                results_text(seq![RenderedView { markdown, details }]);
            &&& shows(markdown, Seq::empty()) == (if trimmed(markdown)
                == "✓ Инструмент выполнен"@ {
                none
            } else {
                trimmed(markdown)
            })
            &&& shows(markdown, details + more) == on_lines(
                shows(markdown, details),
                shows(none, more),
            )
            &&& shows(none, seq![detail]) == (if is_truthy(detail) {
                match detail {
                    JsonView::Text(text) => text,
                    _ => python_text(detail),
                }
            } else {
                none
            })
        }),
{
    let none = Seq::<char>::empty();
    let no_results = Seq::<RenderedView>::empty();
    reveal_strlit("✓ Инструмент выполнен");
    plain_ends_stay(none);
    one_result(markdown, Seq::empty());
    one_result(markdown, details);
    one_result(markdown, details + more);
    one_result(none, more);
    one_result(none, seq![detail]);
    details_join(details, more);
    lines_join(
        telling_markdown(markdown),
        with_details(none, details),
        with_details(none, more),
    );
    assert(seq![detail].drop_last() =~= Seq::empty());
    assert(with_details(none, Seq::empty()) == none);
    blocks_are_lines(none, shown_value(detail));
    assert(telling_markdown(none) =~= none);
    assert(on_lines(telling_markdown(markdown), none) =~= telling_markdown(markdown));
    assert(on_lines(none, with_details(none, more)) == with_details(none, more));
}

proof fn one_result(markdown: Seq<char>, details: Seq<JsonView>)
    ensures
        results_text(seq![RenderedView { markdown, details }]) == on_lines(
            telling_markdown(markdown),
            with_details(Seq::empty(), details),
        ),
{
    let none = Seq::<RenderedView>::empty();
    let result = RenderedView { markdown, details };
    one_more_result(none, result);
    assert(none.push(result) =~= seq![result]);
    assert(results_text(none).len() == 0);
}

proof fn lines_hold_both(a: Seq<char>, b: Seq<char>)
    ensures
        occurs_in(a, on_lines(a, b)),
        occurs_in(b, on_lines(a, b)),
{
    let none = Seq::<char>::empty();
    let whole = on_lines(a, b);
    a_part_occurs(none, a, none);
    a_part_occurs(none, b, none);
    assert(none + a + none =~= a);
    assert(none + b + none =~= b);
    if a.len() == 0 {
        assert(whole.subrange(0, 0int + a.len()) =~= a);
    } else if b.len() == 0 {
        assert(whole.subrange(0, 0int + b.len()) =~= b);
    } else {
        a_part_occurs(none, a, seq!['\n'] + b);
        assert(none + a + (seq!['\n'] + b) =~= whole);
        a_part_occurs(a.push('\n'), b, none);
        assert(a.push('\n') + b + none =~= whole);
    }
}

proof fn lines_hold_what_parts_hold(part: Seq<char>, a: Seq<char>, b: Seq<char>)
    requires
        occurs_in(part, a) || occurs_in(part, b),
    ensures
        occurs_in(part, on_lines(a, b)),
{
    let none = Seq::<char>::empty();
    let whole = on_lines(a, b);
    if part.len() == 0 {
        assert(whole.subrange(0, 0int + part.len()) =~= part);
    } else if occurs_in(part, a) {
        if a.len() == 0 {
            let at = choose|at: int|
                0 <= at && at + part.len() <= a.len() && #[trigger] a.subrange(at, at + part.len())
                    == part;
            assert(false);
        } else if b.len() > 0 {
            parts_of_parts_occur(part, none, a, seq!['\n'] + b);
            assert(none + a + (seq!['\n'] + b) =~= whole);
        }
    } else {
        if b.len() == 0 {
            let at = choose|at: int|
                0 <= at && at + part.len() <= b.len() && #[trigger] b.subrange(at, at + part.len())
                    == part;
            assert(false);
        } else if a.len() > 0 {
            parts_of_parts_occur(part, a.push('\n'), b, none);
            assert(a.push('\n') + b + none =~= whole);
        }
    }
}

/// What neither begins nor ends with white space is not touched by trimming around it.
proof fn trimming_keeps_solid_parts(part: Seq<char>, whole: Seq<char>)
    requires
        occurs_in(part, whole),
        part.len() > 0 ==> !is_white_space(part.first()) && !is_white_space(part.last()),
    ensures
        occurs_in(part, trimmed(whole)),
{
    let (from, to) = only_white_space_is_trimmed(whole);
    let core = whole.subrange(from, to);
    if part.len() == 0 {
        assert(core.subrange(0, 0int + part.len()) =~= part);
    } else {
        let at = choose|at: int|
            0 <= at && at + part.len() <= whole.len() && #[trigger] whole.subrange(
                at,
                at + part.len(),
            ) == part;
        let piece = whole.subrange(at, at + part.len());
        assert(piece[0] == whole[at]);
        assert(piece[part.len() - 1] == whole[at + part.len() - 1]);
        assert(from <= at && at + part.len() <= to);
        let place = at - from;
        assert(core.subrange(place, place + part.len()) =~= part);
    }
}

/// Every tool's work is in the answer of an exact call: its Markdown, unless that only says
/// that it has run, and the text of each detail that counts as true. What the assistant
/// says itself comes last.
pub proof fn answers_show_every_result(
    results: Seq<RenderedView>,
    full: Seq<char>,
    followups: Seq<Seq<char>>,
    last: Seq<char>,
    at: int,
    place: int,
)
    requires
        0 <= at < results.len(),
    ensures
        ({
            let answer = direct_text(results, full, followups, last);
            let markdown = trimmed(results[at].markdown);
            let details = results[at].details;
            &&& markdown != "✓ Инструмент выполнен"@ ==> occurs_in(markdown, answer)
            &&& 0 <= place < details.len() && is_truthy(details[place]) ==> occurs_in(
                trimmed(
                    match details[place] {
                        JsonView::Text(text) => text,
                        _ => python_text(details[place]),
                    },
                ),
                answer,
            )
            &&& trimmed(full).len() > 0 ==> answer.len() >= trimmed(full).len() && answer.skip(
                answer.len() - trimmed(full).len(),
            ) == trimmed(full)
        }),
{
    let shown = results_text(results);
    let spoken = spoken_text(full, followups, last);
    let markdown = trimmed(results[at].markdown);
    let details = results[at].details;
    let none = Seq::<char>::empty();
    blocks_are_lines(shown, spoken);
    one_result(results[at].markdown, details);
    let listed = with_details(none, details);
    assert(seq![results[at]] =~= seq![
        RenderedView { markdown: results[at].markdown, details },
    ]);
    if markdown != "✓ Инструмент выполнен"@ {
        let solid = only_white_space_is_trimmed(results[at].markdown);
        lines_hold_both(markdown, listed);
        results_hold_what_one_holds(results, at, markdown);
        lines_hold_what_parts_hold(markdown, shown, spoken);
        trimming_keeps_solid_parts(markdown, on_lines(shown, spoken));
    }
    if 0 <= place < details.len() && is_truthy(details[place]) {
        let value = trimmed(shown_value(details[place]));
        let solid = only_white_space_is_trimmed(shown_value(details[place]));
        details_hold_each_detail(details, place);
        lines_hold_what_parts_hold(value, telling_markdown(results[at].markdown), listed);
        results_hold_what_one_holds(results, at, value);
        lines_hold_what_parts_hold(value, shown, spoken);
        trimming_keeps_solid_parts(value, on_lines(shown, spoken));
    }
    if trimmed(full).len() > 0 {
        ends_are_kept(shown, trimmed(full), full);
    }
}

proof fn results_hold_what_one_holds(results: Seq<RenderedView>, at: int, part: Seq<char>)
    requires
        0 <= at < results.len(),
        occurs_in(part, results_text(seq![results[at]])),
    ensures
        occurs_in(part, results_text(results)),
{
    let before = results.take(at);
    let after = results.skip(at + 1);
    let one = seq![results[at]];
    assert(results =~= before + one + after);
    what_tools_show_adds_up(before, one);
    what_tools_show_adds_up(before + one, after);
    lines_hold_what_parts_hold(part, results_text(before), results_text(one));
    lines_hold_what_parts_hold(part, results_text(before + one), results_text(after));
}

#[verifier::spinoff_prover]
proof fn details_hold_each_detail(details: Seq<JsonView>, place: int)
    requires
        0 <= place < details.len(),
        is_truthy(details[place]),
    ensures
        occurs_in(
            trimmed(shown_value(details[place])),
            with_details(Seq::empty(), details),
        ),
{
    let none = Seq::<char>::empty();
    let value = shown_value(details[place]);
    let solid = trimmed(value);
    let bounds = only_white_space_is_trimmed(value);
    a_part_occurs(value.take(bounds.0), solid, value.skip(bounds.1));
    assert(value.take(bounds.0) + solid + value.skip(bounds.1) =~= value);
    let first = details.take(place);
    let rest = details.skip(place + 1);
    let single = seq![details[place]];
    assert(details =~= first + single + rest);
    details_join(first, single);
    details_join(first + single, rest);
    assert(single.drop_last() =~= Seq::empty());
    assert(with_details(none, Seq::empty()) == none);
    blocks_are_lines(none, value);
    assert(with_details(none, single) == value);
    lines_hold_what_parts_hold(solid, with_details(none, first), value);
    lines_hold_what_parts_hold(
        solid,
        with_details(none, first + single),
        with_details(none, rest),
    );
}

proof fn ends_are_kept(shown: Seq<char>, said: Seq<char>, full: Seq<char>)
    requires
        said == trimmed(full),
        said.len() > 0,
    ensures
        ({
            let answer = trimmed(on_lines(shown, said));
            answer.len() >= said.len() && answer.skip(answer.len() - said.len()) == said
        }),
{
    let whole = on_lines(shown, said);
    let ends = only_white_space_is_trimmed(full);
    let (from, to) = only_white_space_is_trimmed(whole);
    assert(whole.skip(whole.len() - said.len()) =~= said);
    let piece = whole.skip(whole.len() - said.len());
    assert(piece[0] == whole[whole.len() - said.len()]);
    assert(whole.last() == said.last());
    assert(to == whole.len());
    assert(from <= whole.len() - said.len());
    let answer = trimmed(whole);
    assert(answer.skip(answer.len() - said.len()) =~= said);
}

/// What the assistant says itself is its whole text; where that is blank, the last of its
/// follow-ups that is not; and where all are, its final text. It stands alone where the
/// tools show nothing.
pub proof fn the_assistant_speaks_last(
    results: Seq<RenderedView>,
    full: Seq<char>,
    followups: Seq<Seq<char>>,
    last: Seq<char>,
    at: int,
)
    ensures
        ({
            let answer = direct_text(results, full, followups, last);
            let shown = results_text(results);
            &&& trimmed(full).len() > 0 ==> answer == trimmed(on_lines(shown, trimmed(full)))
            &&& trimmed(full).len() == 0 && 0 <= at < followups.len() && trimmed(
                followups[at],
            ).len() > 0 && (forall|k: int|
                at < k < followups.len() ==> trimmed(#[trigger] followups[k]).len() == 0)
                ==> answer == trimmed(on_lines(shown, trimmed(followups[at])))
            &&& trimmed(full).len() == 0 && (forall|k: int|
                0 <= k < followups.len() ==> trimmed(#[trigger] followups[k]).len() == 0)
                ==> answer == trimmed(on_lines(shown, trimmed(last)))
        }),
{
    blocks_are_lines(results_text(results), spoken_text(full, followups, last));
    if 0 <= at < followups.len() && trimmed(followups[at]).len() > 0 && (forall|k: int|
        at < k < followups.len() ==> trimmed(#[trigger] followups[k]).len() == 0) {
        last_telling_is_found(followups, at);
    }
    if forall|k: int| 0 <= k < followups.len() ==> trimmed(#[trigger] followups[k]).len() == 0 {
        no_telling_text(followups);
    }
}

proof fn last_telling_is_found(texts: Seq<Seq<char>>, at: int)
    requires
        0 <= at < texts.len(),
        trimmed(texts[at]).len() > 0,
        forall|k: int| at < k < texts.len() ==> trimmed(#[trigger] texts[k]).len() == 0,
    ensures
        last_telling(texts) == trimmed(texts[at]),
    decreases texts.len(),
{
    if at < texts.len() - 1 {
        assert(trimmed(texts[texts.len() - 1]).len() == 0);
        last_telling_is_found(texts.drop_last(), at);
    }
}

proof fn no_telling_text(texts: Seq<Seq<char>>)
    requires
        forall|k: int| 0 <= k < texts.len() ==> trimmed(#[trigger] texts[k]).len() == 0,
    ensures
        last_telling(texts).len() == 0,
    decreases texts.len(),
{
    if texts.len() > 0 {
        assert(trimmed(texts[texts.len() - 1]).len() == 0);
        assert forall|k: int| 0 <= k < texts.drop_last().len() implies trimmed(
            #[trigger] texts.drop_last()[k],
        ).len() == 0 by {
            assert(trimmed(texts[k]).len() == 0);
        }
        no_telling_text(texts.drop_last());
    }
}

/// A message is answered by the whole text of the assistant; where that is blank, by its
/// final text; and where that is too, by the last of its follow-ups that is not empty.
pub proof fn messages_are_answered_by_what_was_said(
    full: Seq<char>,
    last: Seq<char>,
    followups: Seq<Seq<char>>,
    at: int,
)
    ensures
        ({
            let answer = standard_text(full, last, followups);
            let silent = trimmed(full).len() == 0 && trimmed(last).len() == 0;
            &&& trimmed(full).len() > 0 ==> answer == trimmed(full)
            &&& trimmed(full).len() == 0 && trimmed(last).len() > 0 ==> answer == trimmed(last)
            &&& silent && 0 <= at < followups.len() && followups[at].len() > 0 && (forall|k: int|
                at < k < followups.len() ==> (#[trigger] followups[k]).len() == 0) ==> answer
                == trimmed(followups[at])
            &&& silent && (forall|k: int|
                0 <= k < followups.len() ==> (#[trigger] followups[k]).len() == 0) ==> answer.len()
                == 0
        }),
{
    if 0 <= at < followups.len() && followups[at].len() > 0 && (forall|k: int|
        at < k < followups.len() ==> (#[trigger] followups[k]).len() == 0) {
        last_nonempty_is_found(followups, at);
    }
    if forall|k: int| 0 <= k < followups.len() ==> (#[trigger] followups[k]).len() == 0 {
        no_nonempty_text(followups);
    }
}

proof fn last_nonempty_is_found(texts: Seq<Seq<char>>, at: int)
    requires
        0 <= at < texts.len(),
        texts[at].len() > 0,
        forall|k: int| at < k < texts.len() ==> (#[trigger] texts[k]).len() == 0,
    ensures
        last_nonempty(texts) == trimmed(texts[at]),
    decreases texts.len(),
{
    if at < texts.len() - 1 {
        assert(texts[texts.len() - 1].len() == 0);
        last_nonempty_is_found(texts.drop_last(), at);
    }
}

proof fn no_nonempty_text(texts: Seq<Seq<char>>)
    requires
        forall|k: int| 0 <= k < texts.len() ==> (#[trigger] texts[k]).len() == 0,
    ensures
        last_nonempty(texts).len() == 0,
    decreases texts.len(),
{
    if texts.len() > 0 {
        assert(texts[texts.len() - 1].len() == 0);
        assert forall|k: int| 0 <= k < texts.drop_last().len() implies (
        #[trigger] texts.drop_last()[k]).len() == 0 by {
            assert(texts[k].len() == 0);
        }
        no_nonempty_text(texts.drop_last());
    }
}

/// Exactly what is empty, zero, false or nothing does not count as true.
pub proof fn only_nothing_is_not_true(value: JsonView)
    ensures
        !is_truthy(value) <==> (value == JsonView::Null || value == JsonView::Bool(false) || value
            == JsonView::Number(JsonNumber::Unsigned(0)) || value == JsonView::Number(
            JsonNumber::Negative(0),
        ) || value == JsonView::Number(JsonNumber::Float(0)) || value == JsonView::Number(
            JsonNumber::Float(0x8000_0000_0000_0000),
        ) || value == JsonView::Text(Seq::empty()) || value == JsonView::Array(Seq::empty())
            || value == JsonView::Object(Seq::empty())),
{
    match value {
        JsonView::Text(text) => {
            assert(text.len() == 0 ==> text =~= Seq::empty());
        },
        JsonView::Array(items) => {
            assert(items.len() == 0 ==> items =~= Seq::empty());
        },
        JsonView::Object(fields) => {
            assert(fields.len() == 0 ==> fields =~= Seq::empty());
        },
        _ => {},
    }
}

/// Lists are written item by item: the items of two lists follow each other, with a comma
/// between them, and so do the fields of dictionaries, each as its name, a colon and its
/// value.
pub proof fn lists_are_written_item_by_item(
    a: Seq<JsonView>,
    b: Seq<JsonView>,
    item: JsonView,
)
    ensures
        python_text(JsonView::Array(a)) == "["@ + python_items(a) + "]"@,
        python_items(seq![item]) == python_text(item),
        python_items(Seq::empty()).len() == 0,
        a.len() > 0 && b.len() > 0 ==> python_items(a + b) == python_items(a) + ", "@
            + python_items(b),
    decreases b.len(),
{
    if a.len() > 0 && b.len() > 0 {
        let init = b.drop_last();
        let whole = a + b;
        assert(whole.drop_last() =~= a + init);
        assert(whole[whole.len() - 1] == b[b.len() - 1]);
        if init.len() == 0 {
            assert(a + init =~= a);
        } else {
            lists_are_written_item_by_item(a, init, item);
            assert(python_items(a) + ", "@ + python_items(init) + ", "@ + python_text(
                b[b.len() - 1],
            ) =~= python_items(a) + ", "@ + (python_items(init) + ", "@ + python_text(
                b[b.len() - 1],
            )));
        }
    }
}

/// Dictionaries are written field by field.
pub proof fn dictionaries_are_written_field_by_field(a: Fields, b: Fields, name: Seq<char>, value: JsonView)
    ensures
        python_text(JsonView::Object(a)) == "{"@ + python_fields(a) + "}"@,
        python_fields(seq![(name, value)]) == quoted_string(name) + ": "@ + python_text(value),
        python_fields(Seq::empty()).len() == 0,
        a.len() > 0 && b.len() > 0 ==> python_fields(a + b) == python_fields(a) + ", "@
            + python_fields(b),
    decreases b.len(),
{
    if a.len() > 0 && b.len() > 0 {
        let init = b.drop_last();
        let whole = a + b;
        assert(whole.drop_last() =~= a + init);
        let last = whole[whole.len() - 1];
        assert(last == b[b.len() - 1]);
        let field = quoted_string(last.0) + ": "@ + python_text(last.1);
        if init.len() == 0 {
            assert(a + init =~= a);
        } else {
            dictionaries_are_written_field_by_field(a, init, name, value);
            assert(python_fields(a) + ", "@ + python_fields(init) + ", "@ + field
                =~= python_fields(a) + ", "@ + (python_fields(init) + ", "@ + field));
        }
    }
}

/// Flags, nothing and whole numbers are written as Python writes them; a number below zero
/// after a minus sign.
pub proof fn plain_values_are_written_as_in_python(flag: bool, n: u64, negative: i64)
    ensures
        python_text(JsonView::Null) == "None"@,
        python_text(JsonView::Bool(flag)) == (if flag {
            "True"@
        } else {
            "False"@
        }),
        python_text(JsonView::Number(JsonNumber::Unsigned(n))) == decimal(n as nat),
        negative < 0 ==> python_text(JsonView::Number(JsonNumber::Negative(negative))) == seq!['-']
            + decimal((-negative) as nat),
{
    reveal_strlit("-");
    assert("-"@ =~= seq!['-']);
}

/// Characters that need no escape are written as they are.
pub proof fn plain_characters_are_kept(text: Seq<char>)
    requires
        forall|i: int|
            0 <= i < text.len() ==> !is_control(#[trigger] text[i]) && text[i] != '\\' && text[i]
                != '\'' && text[i] != '"',
    ensures
        quoted_string(text) == seq!['\''] + text + seq!['\''],
    decreases text.len(),
{
    let quote = '\'';
    assert(!text.contains('\'')) by {
        if text.contains('\'') {
            let i = choose|i: int| 0 <= i < text.len() && text[i] == '\'';
            assert(text[i] != '\'');
        }
    }
    plain_characters_stay(text, quote);
    assert(quoted_string(text) =~= seq!['\''] + text + seq!['\'']);
}

proof fn plain_characters_stay(text: Seq<char>, quote: char)
    requires
        forall|i: int|
            0 <= i < text.len() ==> !is_control(#[trigger] text[i]) && text[i] != '\\' && text[i]
                != quote,
    ensures
        escaped_chars(text, quote) == text,
    decreases text.len(),
{
    if text.len() > 0 {
        let init = text.drop_last();
        assert forall|i: int| 0 <= i < init.len() implies !is_control(#[trigger] init[i]) && init[i]
            != '\\' && init[i] != quote by {
            assert(!is_control(text[i]));
        }
        plain_characters_stay(init, quote);
        assert(!is_control(text[text.len() - 1]));
        assert(escaped_chars(text, quote) =~= text);
    } else {
        assert(escaped_chars(text, quote) =~= text);
    }
}

/// Nothing that may be shown is lost: of the normalized text exactly the other characters
/// are left out.
pub proof fn all_that_may_be_shown_is_shown(text: Seq<char>, c: char)
    requires
        text.len() > 0,
    ensures
        is_shown(c) ==> sanitized(text).to_multiset().count(c) == nfkc(text).to_multiset().count(c),
        (forall|i: int| 0 <= i < nfkc(text).len() ==> is_shown(#[trigger] nfkc(text)[i]))
            ==> sanitized(text) == nfkc(text),
{
    filtering_counts(nfkc(text), c);
    if forall|i: int| 0 <= i < nfkc(text).len() ==> is_shown(#[trigger] nfkc(text)[i]) {
        shown_text_is_kept(nfkc(text));
    }
}

proof fn filtering_counts(text: Seq<char>, c: char)
    ensures
        is_shown(c) ==> shown_chars(text).to_multiset().count(c) == text.to_multiset().count(c),
    decreases text.len(),
{
    broadcast use vstd::seq_lib::group_to_multiset_ensures;

    reveal(Seq::filter);
    if text.len() > 0 {
        filtering_counts(text.drop_last(), c);
        assert(text =~= text.drop_last().push(text.last()));
        let kept = shown_chars(text.drop_last());
        if is_shown(text.last()) {
            assert(shown_chars(text) == kept.push(text.last()));
        } else {
            assert(shown_chars(text) == kept);
        }
    } else {
        assert(shown_chars(text) =~= text);
    }
}

proof fn shown_text_is_kept(text: Seq<char>)
    requires
        forall|i: int| 0 <= i < text.len() ==> is_shown(#[trigger] text[i]),
    ensures
        shown_chars(text) == text,
    decreases text.len(),
{
    reveal(Seq::filter);
    if text.len() > 0 {
        let init = text.drop_last();
        assert forall|i: int| 0 <= i < init.len() implies is_shown(#[trigger] init[i]) by {
            assert(is_shown(text[i]));
        }
        shown_text_is_kept(init);
        assert(is_shown(text[text.len() - 1]));
        assert(shown_chars(text) =~= text);
    } else {
        assert(shown_chars(text) =~= text);
    }
}

/// Line ends and tabulators are shown, and so is every character that is neither a control
/// nor a format character; no other is.
pub proof fn only_controls_are_hidden(c: char)
    ensures
        c == '\n' || c == '\r' || c == '\t' ==> is_shown(c),
        general_category(c) != CONTROL_CATEGORY && general_category(c) != FORMAT_CATEGORY
            ==> is_shown(c),
        (general_category(c) == CONTROL_CATEGORY || general_category(c) == FORMAT_CATEGORY) && c
            != '\n' && c != '\r' && c != '\t' ==> !is_shown(c),
        CONTROL_CATEGORY != FORMAT_CATEGORY,
{
}

/// A string is put in single quotes, unless it holds single ones and no double ones; then
/// it is put in double quotes.
pub proof fn quotes_are_chosen_by_what_they_hold(text: Seq<char>)
    ensures
        quoted_string(text).len() >= 2,
        quoted_string(text).first() == quoted_string(text).last(),
        quoted_string(text).first() == '"' <==> (exists|i: int|
            0 <= i < text.len() && #[trigger] text[i] == '\'') && (forall|i: int|
            0 <= i < text.len() ==> #[trigger] text[i] != '"'),
        quoted_string(text).first() == '"' || quoted_string(text).first() == '\'',
{
    if text.contains('\'') {
        let i = choose|i: int| 0 <= i < text.len() && text[i] == '\'';
        assert(text[i] == '\'');
    } else if exists|i: int| 0 <= i < text.len() && #[trigger] text[i] == '\'' {
        let i = choose|i: int| 0 <= i < text.len() && #[trigger] text[i] == '\'';
        assert(text.contains('\''));
    }
    if text.contains('"') {
        let i = choose|i: int| 0 <= i < text.len() && text[i] == '"';
        assert(text[i] == '"');
    } else if !(forall|i: int| 0 <= i < text.len() ==> #[trigger] text[i] != '"') {
        let i = choose|i: int| 0 <= i < text.len() && #[trigger] text[i] == '"';
        assert(text.contains('"'));
    }
}

/// The value of a hexadecimal digit.
pub open spec fn hex_value(c: char) -> nat {
    if '0' <= c <= '9' {
        (c as u32 - '0' as u32) as nat
    } else {
        (c as u32 - 'a' as u32 + 10) as nat
    }
}

/// A backslash stands before a backslash, the quote and the letter of a line end or a
/// tabulator; another control character is written by its number, in two digits; every
/// other character stands for itself.
pub proof fn escapes_say_their_character(c: char, quote: char)
    requires
        quote == '\'' || quote == '"',
    ensures
        escaped('\\', quote) == seq!['\\', '\\'],
        escaped('\n', quote) == seq!['\\', 'n'],
        escaped('\r', quote) == seq!['\\', 'r'],
        escaped('\t', quote) == seq!['\\', 't'],
        escaped(quote, quote) == seq!['\\', quote],
        c != '\\' && c != '\n' && c != '\r' && c != '\t' && c != quote ==> {
            let code = c as nat;
            if code < 32 || 127 <= code < 160 {
                let text = escaped(c, quote);
                &&& text.len() == 4 && text[0] == '\\' && text[1] == 'x'
                &&& hex_value(text[2]) * 16 + hex_value(text[3]) == code
                &&& '0' <= text[2] <= '9'
                &&& '0' <= text[3] <= '9' || 'a' <= text[3] <= 'f'
            } else {
                escaped(c, quote) == seq![c]
            }
        },
{
    reveal_strlit("\\\\");
    reveal_strlit("\\n");
    reveal_strlit("\\r");
    reveal_strlit("\\t");
    reveal_strlit("\\x");
    assert(escaped('\\', quote) =~= seq!['\\', '\\']);
    assert(escaped('\n', quote) =~= seq!['\\', 'n']);
    assert(escaped('\r', quote) =~= seq!['\\', 'r']);
    assert(escaped('\t', quote) =~= seq!['\\', 't']);
}

/// What is written in quotes is the text, character by character.
pub proof fn strings_are_written_character_by_character(a: Seq<char>, b: Seq<char>, quote: char)
    ensures
        escaped_chars(a + b, quote) == escaped_chars(a, quote) + escaped_chars(b, quote),
    decreases b.len(),
{
    if b.len() == 0 {
        assert(a + b =~= a);
        assert(escaped_chars(a, quote) + escaped_chars(b, quote) =~= escaped_chars(a, quote));
    } else {
        assert((a + b).drop_last() =~= a + b.drop_last());
        strings_are_written_character_by_character(a, b.drop_last(), quote);
        assert(escaped_chars(a + b, quote) =~= escaped_chars(a, quote) + escaped_chars(b, quote));
    }
}

} // verus!
