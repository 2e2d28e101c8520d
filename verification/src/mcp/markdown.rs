//! Code fences in Markdown.

use vstd::prelude::*;

use crate::strings::trimmed;
use crate::strings::{char_vec, same_text, text_of};

verus! {

/// The character ends a line.
pub open spec fn ends_line(c: char) -> bool {
    c == '\n' || c == '\r'
}

/// How many characters the first line has, without its ending.
pub open spec fn line_length(text: Seq<char>) -> nat
    decreases text.len(),
{
    if text.len() == 0 || ends_line(text[0]) {
        0
    } else {
        1 + line_length(text.drop_first())
    }
}

/// How many characters the line ending has that the text begins with.
pub open spec fn ending_length(text: Seq<char>) -> nat {
    if text.len() == 0 || !ends_line(text[0]) {
        0
    } else if text[0] == '\r' && text.len() > 1 && text[1] == '\n' {
        2
    } else {
        1
    }
}

/// How many spaces a line begins with.
pub open spec fn leading_spaces(line: Seq<char>) -> nat
    decreases line.len(),
{
    if line.len() == 0 || line[0] != ' ' {
        0
    } else {
        1 + leading_spaces(line.drop_first())
    }
}

/// How far a line is indented, four standing for four and more.
pub open spec fn indent_length(line: Seq<char>) -> nat {
    if leading_spaces(line) < 4 {
        leading_spaces(line)
    } else {
        4
    }
}

/// What a line says as Markdown; nothing where it is indented as code.
pub open spec fn markdown_of(line: Seq<char>) -> Seq<char> {
    if indent_length(line) <= 3 {
        line.skip(indent_length(line) as int)
    } else {
        Seq::empty()
    }
}

/// The text begins with a fence.
pub open spec fn is_fence(markdown: Seq<char>) -> bool {
    markdown.len() >= 3 && markdown.take(3) == "```"@
}

/// The text opens a fence with one of the designations of the 1C language.
pub open spec fn opens_1c_fence(markdown: Seq<char>) -> bool {
    markdown == "```1С"@ || markdown == "```1C"@ || markdown == "```1C (BSL)"@
}

/// A line outside or inside a fence with its designation renamed, and whether what
/// follows it is inside a fence.
pub open spec fn renamed_line(line: Seq<char>, inside: bool) -> (Seq<char>, bool) {
    let markdown = markdown_of(line);
    if !inside && opens_1c_fence(markdown) {
        (line.take(indent_length(line) as int) + "```bsl"@, true)
    } else if !is_fence(markdown) {
        (line, inside)
    } else if inside {
        (line, trimmed(markdown.skip(3)).len() > 0)
    } else {
        (line, true)
    }
}

/// A text with the designations of its fences renamed, line by line.
#[verifier::opaque]
pub open spec fn renamed_text(text: Seq<char>, inside: bool) -> Seq<char>
    decreases text.len(),
{
    if text.len() == 0 {
        Seq::empty()
    } else {
        let content = line_length(text) as int;
        let end = content + ending_length(text.skip(content));
        if 0 < end <= text.len() {
            let (line, then_inside) = renamed_line(text.take(content), inside);
            line + text.subrange(content, end) + renamed_text(text.skip(end), then_inside)
        } else {
            text
        }
    }
}

proof fn line_length_bound(text: Seq<char>)
    ensures
        line_length(text) <= text.len(),
        line_length(text) < text.len() ==> ends_line(text[line_length(text) as int]),
        forall|i: int| 0 <= i < line_length(text) ==> !ends_line(#[trigger] text[i]),
    decreases text.len(),
{
    if text.len() > 0 && !ends_line(text[0]) {
        line_length_bound(text.drop_first());
        assert forall|i: int| 0 <= i < line_length(text) implies !ends_line(#[trigger] text[i]) by {
            if i > 0 {
                assert(text[i] == text.drop_first()[i - 1]);
            }
        }
    }
}

/// The end of a line's content and the end of its ending.
fn next_line(chars: &Vec<char>, start: usize) -> (res: (usize, usize))
    requires
        start <= chars@.len(),
    ensures
        ({
            let text = chars@.skip(start as int);
            let content = line_length(text) as int;
            &&& res.0 == start + content
            &&& res.1 == start + content + ending_length(text.skip(content))
            &&& start <= res.0 <= res.1 <= chars@.len()
            &&& start < chars@.len() ==> start < res.1
        }),
{
    let ghost text: Seq<char> = chars@.skip(start as int);
    let mut index: usize = start;
    proof {
        line_length_bound(text);
    }
    while index < chars.len() && chars[index] != '\n' && chars[index] != '\r'
        invariant
            start <= index <= chars@.len(),
            text == chars@.skip(start as int),
            line_length(text) == (index - start) + line_length(chars@.skip(index as int)),
        decreases chars@.len() - index,
    {
        assert(chars@.skip(index as int).drop_first() =~= chars@.skip(index + 1));
        index += 1;
    }
    let ghost rest: Seq<char> = chars@.skip(index as int);
    assert(line_length(rest) == 0);
    assert(text.skip(line_length(text) as int) =~= rest);
    if index == chars.len() {
        return (index, index);
    }
    let mut end: usize = index + 1;
    if chars[index] == '\r' && index + 1 < chars.len() && chars[index + 1] == '\n' {
        end = index + 2;
    }
    (index, end)
}

fn count_indent(chars: &Vec<char>, from: usize, to: usize) -> (res: usize)
    requires
        from <= to <= chars@.len(),
    ensures
        res == indent_length(chars@.subrange(from as int, to as int)),
        from + res <= to,
{
    let ghost line: Seq<char> = chars@.subrange(from as int, to as int);
    assert(line.skip(0) =~= line);
    let mut n: usize = 0;
    while n < 4 && from + n < to && chars[from + n] == ' '
        invariant
            n <= 4,
            from + n <= to <= chars@.len(),
            line == chars@.subrange(from as int, to as int),
            leading_spaces(line) == n + leading_spaces(line.skip(n as int)),
        decreases 4 - n,
    {
        assert(line.skip(n as int).drop_first() =~= line.skip(n + 1));
        n += 1;
    }
    n
}

/// Renaming goes line by line.
proof fn first_line_is_renamed(
    text: Seq<char>,
    inside: bool,
    content: int,
    end: int,
    before: Seq<char>,
)
    requires
        0 < end <= text.len(),
        content == line_length(text),
        end == content + ending_length(text.skip(content)),
    ensures
        ({
            let (line, then_inside) = renamed_line(text.take(content), inside);
            before + renamed_text(text, inside) == before + line + text.subrange(content, end)
                + renamed_text(text.skip(end), then_inside)
        }),
{
    reveal(renamed_text);
    let (line, then_inside) = renamed_line(text.take(content), inside);
    let rest = renamed_text(text.skip(end), then_inside);
    let ending = text.subrange(content, end);
    assert(before + (line + ending + rest) =~= before + line + ending + rest);
}

/// Renames the designation in the line `chars[from..to]`; tells whether what follows is
/// inside a fence.
fn rename_line(chars: &Vec<char>, from: usize, to: usize, inside: bool) -> (res: (String, bool))
    requires
        from <= to <= chars@.len(),
    ensures
        (res.0@, res.1) == renamed_line(chars@.subrange(from as int, to as int), inside),
{
    let ghost line: Seq<char> = chars@.subrange(from as int, to as int);
    let indent: usize = count_indent(chars, from, to);
    if indent > 3 {
        assert(!is_fence(markdown_of(line)));
        assert(!opens_1c_fence(markdown_of(line))) by {
            reveal_strlit("```1С");
            reveal_strlit("```1C");
            reveal_strlit("```1C (BSL)");
        }
        return (text_of(chars, from, to), inside);
    }
    let markdown: String = text_of(chars, from + indent, to);
    assert(markdown@ =~= markdown_of(line));
    if !inside && (same_text(markdown.as_str(), "```1С") || same_text(markdown.as_str(), "```1C")
        || same_text(markdown.as_str(), "```1C (BSL)")) {
        let mut renamed: String = text_of(chars, from, from + indent);
        assert(renamed@ =~= line.take(indent as int));
        renamed.append("```bsl");
        return (renamed, true);
    }
    let whole: String = text_of(chars, from, to);
    if to - from < indent + 3 {
        return (whole, inside);
    }
    let opening: String = text_of(chars, from + indent, from + indent + 3);
    assert(opening@ =~= markdown@.take(3));
    if !same_text(opening.as_str(), "```") {
        return (whole, inside);
    }
    let after: String = text_of(chars, from + indent + 3, to);
    assert(after@ =~= markdown@.skip(3));
    (whole, !inside || !after.as_str().trim().is_empty())
}

/// Renames the designations of the 1C language in opening code fences.
pub fn rename_1c_markdown_fences(input: &str) -> (res: String)
    ensures
        res@ == renamed_text(input@, false),
{
    let chars: Vec<char> = char_vec(input);
    let mut output: String = String::new();
    let mut inside_fence: bool = false;
    let mut position: usize = 0;
    assert(chars@.skip(0) =~= chars@);
    assert(output@ + renamed_text(input@, false) =~= renamed_text(input@, false));
    while position < chars.len()
        invariant
            position <= chars@.len(),
            chars@ == input@,
            renamed_text(input@, false) == output@ + renamed_text(
                chars@.skip(position as int),
                inside_fence,
            ),
        decreases chars@.len() - position,
    {
        let ghost text: Seq<char> = chars@.skip(position as int);
        let ghost before: Seq<char> = output@;
        let ghost was_inside: bool = inside_fence;
        let (content_end, line_end) = next_line(&chars, position);
        let (renamed, then_inside) = rename_line(&chars, position, content_end, inside_fence);
        let ending: String = text_of(&chars, content_end, line_end);
        output.append(renamed.as_str());
        output.append(ending.as_str());
        inside_fence = then_inside;
        proof {
            let content = content_end - position;
            let end = line_end - position;
            assert(chars@.subrange(position as int, content_end as int) =~= text.take(content));
            assert(ending@ =~= text.subrange(content, end));
            assert(text.skip(end) =~= chars@.skip(line_end as int));
            first_line_is_renamed(text, was_inside, content, end, before);
        }
        position = line_end;
    }
    proof {
        reveal(renamed_text);
        assert(chars@.skip(position as int) =~= Seq::empty());
        assert(output@ + Seq::<char>::empty() =~= output@);
    }
    output
}

/// No character of the line ends it.
spec fn is_one_line(line: Seq<char>) -> bool {
    forall|i: int| 0 <= i < line.len() ==> !ends_line(#[trigger] line[i])
}

proof fn leading_spaces_bound(line: Seq<char>)
    ensures
        leading_spaces(line) <= line.len(),
        forall|i: int| 0 <= i < leading_spaces(line) ==> #[trigger] line[i] == ' ',
    decreases line.len(),
{
    if line.len() > 0 && line[0] == ' ' {
        leading_spaces_bound(line.drop_first());
        assert forall|i: int| 0 <= i < leading_spaces(line) implies #[trigger] line[i] == ' ' by {
            if i > 0 {
                assert(line[i] == line.drop_first()[i - 1]);
            }
        }
    }
}

proof fn leading_spaces_exact(line: Seq<char>, n: int)
    requires
        0 <= n < line.len(),
        forall|i: int| 0 <= i < n ==> #[trigger] line[i] == ' ',
        line[n] != ' ',
    ensures
        leading_spaces(line) == n,
    decreases line.len(),
{
    if n > 0 {
        assert(line[0] == ' ');
        assert forall|i: int| 0 <= i < n - 1 implies #[trigger] line.drop_first()[i] == ' ' by {
            assert(line[i + 1] == ' ');
        }
        leading_spaces_exact(line.drop_first(), n - 1);
    }
}

/// A renamed line is left as it is.
proof fn renamed_line_is_settled(line: Seq<char>, inside: bool)
    requires
        is_one_line(line),
    ensures
        ({
            let (renamed, then_inside) = renamed_line(line, inside);
            &&& renamed_line(renamed, inside) == (renamed, then_inside)
            &&& is_one_line(renamed)
            &&& line.len() > 0 ==> renamed.len() > 0 && renamed[0] == line[0]
            &&& line.len() == 0 ==> renamed == line
        }),
{
    let markdown = markdown_of(line);
    reveal_strlit("```1С");
    reveal_strlit("```1C");
    reveal_strlit("```1C (BSL)");
    reveal_strlit("```bsl");
    reveal_strlit("```");
    leading_spaces_bound(line);
    if !inside && opens_1c_fence(markdown) {
        let n = indent_length(line) as int;
        let renamed = line.take(n) + "```bsl"@;
        assert(markdown.len() >= 5 && markdown[0] == '`');
        assert(line[n] == markdown[0]);
        assert(renamed[n] == "```bsl"@[0]);
        assert forall|i: int| 0 <= i < n implies #[trigger] renamed[i] == ' ' by {
            assert(line[i] == ' ');
        }
        leading_spaces_exact(renamed, n);
        assert(markdown_of(renamed) =~= "```bsl"@);
        assert("```bsl"@[3] == 'b');
        assert("```1С"@[3] == '1');
        assert("```1C"@[3] == '1');
        assert("```1C (BSL)"@[3] == '1');
        assert("```bsl"@.take(3) =~= "```"@);
        assert forall|i: int| 0 <= i < renamed.len() implies !ends_line(#[trigger] renamed[i]) by {
            if i < n {
                assert(line[i] == ' ');
            } else {
                assert(renamed[i] == "```bsl"@[i - n]);
            }
        }
        assert(renamed[0] == line[0]);
    }
}

proof fn line_length_exact(line: Seq<char>, rest: Seq<char>)
    requires
        is_one_line(line),
        rest.len() == 0 || ends_line(rest[0]),
    ensures
        line_length(line + rest) == line.len(),
    decreases line.len(),
{
    if line.len() == 0 {
        assert(line + rest =~= rest);
    } else {
        assert((line + rest).drop_first() =~= line.drop_first() + rest);
        assert(!ends_line(line[0]));
        assert forall|i: int| 0 <= i < line.drop_first().len() implies !ends_line(
            #[trigger] line.drop_first()[i],
        ) by {
            assert(!ends_line(line[i + 1]));
        }
        line_length_exact(line.drop_first(), rest);
    }
}

proof fn renamed_text_begins_alike(text: Seq<char>, inside: bool)
    requires
        text.len() > 0,
    ensures
        renamed_text(text, inside).len() > 0,
        renamed_text(text, inside)[0] == text[0],
{
    reveal(renamed_text);
    line_length_bound(text);
    let content = line_length(text) as int;
    let line = text.take(content);
    assert forall|i: int| 0 <= i < line.len() implies !ends_line(#[trigger] line[i]) by {
        assert(!ends_line(text[i]));
    }
    renamed_line_is_settled(line, inside);
    if content > 0 {
        assert(line[0] == text[0]);
    } else {
        assert(text.skip(0) =~= text);
    }
}

proof fn renamed_text_goes_by_lines(text: Seq<char>, inside: bool)
    requires
        text.len() > 0,
    ensures
        ({
            let content = line_length(text) as int;
            let end = content + ending_length(text.skip(content));
            let (line, then_inside) = renamed_line(text.take(content), inside);
            &&& 0 < end <= text.len()
            &&& content <= end
            &&& renamed_text(text, inside) == line + text.subrange(content, end) + renamed_text(
                text.skip(end),
                then_inside,
            )
        }),
{
    reveal(renamed_text);
    line_length_bound(text);
    let content = line_length(text) as int;
    if content < text.len() {
        assert(text.skip(content)[0] == text[content]);
    }
}

/// Renaming twice is renaming once.
pub proof fn renaming_twice_is_once(text: Seq<char>, inside: bool)
    ensures
        renamed_text(renamed_text(text, inside), inside) == renamed_text(text, inside),
    decreases text.len(),
{
    if text.len() == 0 {
        reveal(renamed_text);
    } else {
        line_length_bound(text);
        renamed_text_goes_by_lines(text, inside);
        let content = line_length(text) as int;
        let end = content + ending_length(text.skip(content)) as int;
        let line = text.take(content);
        let ending = text.subrange(content, end);
        let rest = text.skip(end);
        let (renamed, then_inside) = renamed_line(line, inside);
        assert forall|i: int| 0 <= i < line.len() implies !ends_line(#[trigger] line[i]) by {
            assert(!ends_line(text[i]));
        }
        renamed_line_is_settled(line, inside);
        let tail = renamed_text(rest, then_inside);
        renaming_twice_is_once(rest, then_inside);
        let once = renamed_text(text, inside);
        assert(once == renamed + ending + tail);
        assert(once =~= renamed + (ending + tail));
        if rest.len() > 0 {
            renamed_text_begins_alike(rest, then_inside);
            assert(rest[0] == text[end]);
        } else {
            assert(tail.len() == 0) by {
                reveal(renamed_text);
            }
        }
        if content < text.len() {
            assert(text.skip(content)[0] == text[content]);
            assert(ending[0] == text[content]);
            assert((ending + tail)[0] == ending[0]);
        } else {
            assert(ending + tail =~= Seq::empty());
        }
        line_length_exact(renamed, ending + tail);
        let again = renamed.len() as int;
        assert(once.skip(again) =~= ending + tail);
        assert(ending_length(ending + tail) == ending.len()) by {
            if content < text.len() {
                if ending.len() == 2 {
                    assert(ending[1] == text[content + 1]);
                    assert((ending + tail)[1] == ending[1]);
                    assert(text.skip(content)[1] == text[content + 1]);
                } else if tail.len() > 0 {
                    assert((ending + tail)[1] == tail[0]);
                    assert(text.skip(content)[1] == text[content + 1]);
                }
            }
        }
        assert(once.take(again) =~= renamed);
        assert(once.subrange(again, again + ending.len()) =~= ending);
        assert(once.skip(again + ending.len()) =~= tail);
        if once.len() > 0 {
            renamed_text_goes_by_lines(once, inside);
        } else {
            reveal(renamed_text);
        }
    }
}

/// A line inside a fence is left as it is, whatever it says.
pub proof fn lines_inside_fences_stay(line: Seq<char>)
    ensures
        renamed_line(line, true).0 == line,
{
}

/// Outside a fence, an opening of a fence with a designation of the 1C language, indented
/// by up to three spaces, becomes one of `bsl` with the same indentation; what follows is
/// inside a fence.
pub proof fn designations_are_renamed(indent: Seq<char>, opening: Seq<char>)
    requires
        indent.len() <= 3,
        forall|i: int| 0 <= i < indent.len() ==> #[trigger] indent[i] == ' ',
        opening == "```1С"@ || opening == "```1C"@ || opening == "```1C (BSL)"@,
    ensures
        renamed_line(indent + opening, false) == (indent + "```bsl"@, true),
{
    reveal_strlit("```1С");
    reveal_strlit("```1C");
    reveal_strlit("```1C (BSL)");
    let line = indent + opening;
    let n = indent.len() as int;
    assert(line[n] == opening[0]);
    assert forall|i: int| 0 <= i < n implies #[trigger] line[i] == ' ' by {
        assert(indent[i] == ' ');
    }
    leading_spaces_exact(line, n);
    assert(markdown_of(line) =~= opening);
    assert(line.take(n) =~= indent);
}

/// Any other line is left as it is.
pub proof fn other_lines_stay(line: Seq<char>, indent: Seq<char>, rest: Seq<char>, inside: bool)
    requires
        line == indent + rest,
        forall|i: int| 0 <= i < indent.len() ==> #[trigger] indent[i] == ' ',
        rest.len() > 0,
        rest[0] != ' ',
        indent.len() > 3 || (rest != "```1С"@ && rest != "```1C"@ && rest != "```1C (BSL)"@),
    ensures
        renamed_line(line, inside).0 == line,
        indent.len() > 3 || rest.len() < 3 || rest.take(3) != "```"@ ==> renamed_line(
            line,
            inside,
        ).1 == inside,
{
    reveal_strlit("```1С");
    reveal_strlit("```1C");
    reveal_strlit("```1C (BSL)");
    let n = indent.len() as int;
    assert(line[n] == rest[0]);
    assert forall|i: int| 0 <= i < n implies #[trigger] line[i] == ' ' by {
        assert(indent[i] == ' ');
    }
    leading_spaces_exact(line, n);
    if n <= 3 {
        assert(markdown_of(line) =~= rest);
    }
}

/// A fence is opened by any line that begins with one, and closed by the first line after
/// it that is nothing but one.
pub proof fn fences_open_and_close(designation: Seq<char>)
    requires
        designation.len() > 0 ==> designation[0] != ' ',
    ensures
        renamed_line("```"@ + designation, false).1,
        trimmed(designation).len() == 0 ==> !renamed_line("```"@ + designation, true).1,
        trimmed(designation).len() > 0 ==> renamed_line("```"@ + designation, true).1,
{
    reveal_strlit("```");
    let line = "```"@ + designation;
    assert(line[0] == '`');
    leading_spaces_exact(line, 0);
    assert(markdown_of(line) =~= line);
    assert(line.take(3) =~= "```"@);
    assert(line.skip(3) =~= designation);
}

/// A text without backquotes is left as it is.
pub proof fn texts_without_fences_stay(text: Seq<char>, inside: bool)
    requires
        forall|i: int| 0 <= i < text.len() ==> #[trigger] text[i] != '`',
    ensures
        renamed_text(text, inside) == text,
    decreases text.len(),
{
    if text.len() == 0 {
        reveal(renamed_text);
        assert(text =~= Seq::empty());
    } else {
        line_length_bound(text);
        renamed_text_goes_by_lines(text, inside);
        let content = line_length(text) as int;
        let end = content + ending_length(text.skip(content)) as int;
        let line = text.take(content);
        assert forall|i: int| 0 <= i < line.len() implies #[trigger] line[i] != '`' by {
            assert(text[i] != '`');
        }
        plain_line_stays(line, inside);
        let rest = text.skip(end);
        assert forall|i: int| 0 <= i < rest.len() implies #[trigger] rest[i] != '`' by {
            assert(text[i + end] != '`');
        }
        texts_without_fences_stay(rest, inside);
        assert(line + text.subrange(content, end) + rest =~= text);
    }
}

proof fn plain_line_stays(line: Seq<char>, inside: bool)
    requires
        forall|i: int| 0 <= i < line.len() ==> #[trigger] line[i] != '`',
    ensures
        renamed_line(line, inside) == (line, inside),
{
    reveal_strlit("```1С");
    reveal_strlit("```1C");
    reveal_strlit("```1C (BSL)");
    reveal_strlit("```");
    leading_spaces_bound(line);
    let markdown = markdown_of(line);
    if markdown.len() > 0 {
        assert(markdown[0] == line[indent_length(line) as int]);
        assert(markdown[0] != '`');
        if markdown.len() >= 3 {
            assert(markdown.take(3)[0] == markdown[0]);
        }
    }
}

/// Renaming goes line by line: a line and its ending are renamed before the rest, which is
/// inside a fence or not by what that line says.
pub proof fn lines_are_renamed_one_by_one(
    line: Seq<char>,
    ending: Seq<char>,
    rest: Seq<char>,
    inside: bool,
)
    requires
        forall|i: int| 0 <= i < line.len() ==> #[trigger] line[i] != '\n' && line[i] != '\r',
        ending == seq!['\n'] || ending == seq!['\r', '\n'],
    ensures
        renamed_text(line + ending + rest, inside) == renamed_line(line, inside).0 + ending
            + renamed_text(rest, renamed_line(line, inside).1),
{
    let text = line + ending + rest;
    assert(text =~= line + (ending + rest));
    assert((ending + rest)[0] == ending[0]);
    line_length_exact(line, ending + rest);
    renamed_text_goes_by_lines(text, inside);
    let content = line.len() as int;
    assert(text.skip(content) =~= ending + rest);
    if ending.len() == 2 {
        assert((ending + rest)[1] == ending[1]);
    }
    assert(ending_length(text.skip(content)) == ending.len());
    let end = content + ending.len();
    assert(text.take(content) =~= line);
    assert(text.subrange(content, end) =~= ending);
    assert(text.skip(end) =~= rest);
}

} // verus!
