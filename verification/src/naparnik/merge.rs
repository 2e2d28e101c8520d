//! Joining the texts of successive rounds.

use vstd::prelude::*;
use vstd::utf8::{encode_utf8, is_char_boundary};

use crate::encoding::{
    boundary_at_seam,
    boundary_is_place,
    encode_concat,
    encode_injective,
    encode_not_shorter,
    encode_split,
    encode_take_monotonic,
};
use crate::strings::occurs_in;

verus! {

/// The last `k` bytes of `text` are the first `k` of `pattern`.
pub open spec fn tail_match(text: Seq<u8>, pattern: Seq<u8>, k: int) -> bool {
    &&& 0 <= k <= text.len()
    &&& k <= pattern.len()
    &&& forall|i: int| 0 <= i < k ==> text[text.len() - k + i] == #[trigger] pattern[i]
}

/// `k` is the longest match of the tail of `text`, among those of at most `bound` bytes.
pub open spec fn is_longest(text: Seq<u8>, pattern: Seq<u8>, bound: int, k: int) -> bool {
    &&& tail_match(text, pattern, k)
    &&& k <= bound
    &&& forall|m: int| #[trigger] tail_match(text, pattern, m) && m <= bound ==> m <= k
}

/// Some beginning of `pattern` repeats more than `limit` of its first bytes at its end.
pub open spec fn has_border_over(pattern: Seq<u8>, limit: int) -> bool {
    exists|end: int, k: int|
        0 < end <= pattern.len() && limit < k < end && #[trigger] tail_match(
            pattern.take(end),
            pattern,
            k,
        )
}

/// The greatest character boundary that is at most `at`.
pub open spec fn floor_boundary(bytes: Seq<u8>, at: int) -> int
    decreases at,
{
    if at <= 0 || is_char_boundary(bytes, at) {
        at
    } else {
        floor_boundary(bytes, at - 1)
    }
}

/// The beginning of `next` that can repeat an end of `accumulated`, as bytes.
pub open spec fn overlap_pattern(accumulated: Seq<char>, next: Seq<char>) -> Seq<u8> {
    let a = encode_utf8(accumulated).len() as int;
    let n = encode_utf8(next).len() as int;
    encode_utf8(next).take(
        floor_boundary(
            encode_utf8(next),
            if a < n {
                a
            } else {
                n
            },
        ),
    )
}

/// The last `count` characters of `a` are the first `count` of `b`.
pub open spec fn overlaps(a: Seq<char>, b: Seq<char>, count: int) -> bool {
    &&& 0 <= count <= a.len()
    &&& count <= b.len()
    &&& a.skip(a.len() - count) == b.take(count)
}

/// The greatest overlap of at most `bound` characters.
pub open spec fn overlap_within(a: Seq<char>, b: Seq<char>, bound: int) -> int
    decreases bound,
{
    if bound <= 0 {
        0
    } else if overlaps(a, b, bound) {
        bound
    } else {
        overlap_within(a, b, bound - 1)
    }
}

/// How many characters the end of `accumulated` and the beginning of `next` share. Where
/// a repetition inside `next` is too long to be counted in 32 bits, none are.
pub open spec fn overlap_length(accumulated: Seq<char>, next: Seq<char>) -> int {
    if has_border_over(overlap_pattern(accumulated, next), u32::MAX as int) {
        0
    } else {
        overlap_within(accumulated, next, next.len() as int)
    }
}

/// The text so far joined with the next one, without repeating what both hold.
pub open spec fn merged(accumulated: Seq<char>, next: Seq<char>) -> Seq<char> {
    if next.len() == 0 || occurs_in(next, accumulated) {
        accumulated
    } else if accumulated.len() == 0 || occurs_in(accumulated, next) {
        next
    } else if overlap_length(accumulated, next) == 0 {
        accumulated + "\n\n"@ + next
    } else {
        accumulated + next.skip(overlap_length(accumulated, next))
    }
}

/// The state after one more byte: the longest match that ends with it.
fn extend_match(
    pattern: &[u8],
    table: &Vec<usize>,
    matched: usize,
    byte: u8,
    Ghost(text): Ghost<Seq<u8>>,
    Ghost(bound): Ghost<int>,
) -> (res: usize)
    requires
        matched <= table@.len(),
        pattern@.len() > 0,
        bound <= pattern@.len(),
        forall|j: int|
            0 <= j < matched ==> is_longest(
                pattern@.take(j + 1),
                pattern@,
                j,
                #[trigger] table@[j] as int,
            ),
        is_longest(text, pattern@, bound, matched as int),
    ensures
        res <= matched + 1,
        is_longest(text.push(byte), pattern@, bound + 1, res as int),
{
    let ghost p: Seq<u8> = pattern@;
    let ghost grown: Seq<u8> = text.push(byte);
    let mut k: usize = matched;
    while k > 0 && (k == pattern.len() || pattern[k] != byte)
        invariant
            k <= matched <= table@.len(),
            p == pattern@,
            0 < p.len(),
            bound <= p.len(),
            k <= p.len(),
            k <= bound,
            tail_match(text, p, k as int),
            forall|m: int|
                #[trigger] tail_match(text, p, m) && k < m <= bound ==> m == p.len() || p[m]
                    != byte,
            forall|j: int|
                0 <= j < matched ==> is_longest(p.take(j + 1), p, j, #[trigger] table@[j] as int),
        decreases k,
    {
        let shorter: usize = table[k - 1];
        proof {
            assert(is_longest(p.take(k as int), p, k - 1, shorter as int));
            assert forall|m: int| #[trigger] tail_match(text, p, m) && shorter < m <= bound implies m
                == p.len() || p[m] != byte by {
                if m < k {
                    assert forall|i: int| 0 <= i < m implies p.take(k as int)[k - m + i]
                        == #[trigger] p[i] by {
                        assert(p[k - m + i] == text[text.len() - k + (k - m + i)]);
                    }
                    assert(tail_match(p.take(k as int), p, m));
                }
            }
            assert forall|i: int| 0 <= i < shorter implies text[text.len() - shorter + i]
                == #[trigger] p[i] by {
                assert(p[k - shorter + i] == text[text.len() - k + (k - shorter + i)]);
                assert(p.take(k as int)[k - shorter + i] == p[i]);
            }
        }
        k = shorter;
    }
    let res: usize = if pattern[k] == byte {
        k + 1
    } else {
        k
    };
    proof {
        assert forall|m: int| #[trigger] tail_match(grown, p, m) && m <= bound + 1 implies m
            <= res by {
            if m > 0 {
                assert(p[m - 1] == grown[grown.len() - m + (m - 1)]);
                assert forall|i: int| 0 <= i < m - 1 implies text[text.len() - (m - 1) + i]
                    == #[trigger] p[i] by {
                    assert(grown[grown.len() - m + i] == p[i]);
                }
                assert(tail_match(text, p, m - 1));
            }
        }
        assert forall|i: int| 0 <= i < res implies grown[grown.len() - res + i]
            == #[trigger] p[i] by {
            if pattern[k as int] == byte && i < k {
                assert(text[text.len() - k + i] == p[i]);
            }
        }
    }
    res
}

/// For each beginning of `pattern`, how much of it repeats at its end.
pub open spec fn is_border_table(table: Seq<usize>, pattern: Seq<u8>) -> bool {
    &&& table.len() == pattern.len()
    &&& forall|j: int|
        0 <= j < pattern.len() ==> is_longest(
            pattern.take(j + 1),
            pattern,
            j,
            #[trigger] table[j] as int,
        )
}

fn border_table(pattern: &[u8]) -> (res: Vec<usize>)
    requires
        pattern@.len() > 0,
    ensures
        is_border_table(res@, pattern@),
{
    let ghost p: Seq<u8> = pattern@;
    let mut table: Vec<usize> = Vec::new();
    table.push(0);
    let mut index: usize = 1;
    while index < pattern.len()
        invariant
            1 <= index <= p.len(),
            p == pattern@,
            table@.len() == index,
            forall|j: int|
                0 <= j < index ==> is_longest(p.take(j + 1), p, j, #[trigger] table@[j] as int),
        decreases p.len() - index,
    {
        let before: usize = table[index - 1];
        let matched: usize = extend_match(
            pattern,
            &table,
            before,
            pattern[index],
            Ghost(p.take(index as int)),
            Ghost(index - 1),
        );
        assert(p.take(index as int).push(p[index as int]) =~= p.take(index + 1));
        table.push(matched);
        index += 1;
    }
    table
}

/// Some entry is too large to be counted in 32 bits.
fn counts_over(table: &Vec<usize>, Ghost(pattern): Ghost<Seq<u8>>) -> (res: bool)
    requires
        is_border_table(table@, pattern),
    ensures
        res == has_border_over(pattern, u32::MAX as int),
{
    let mut i: usize = 0;
    while i < table.len()
        invariant
            i <= table@.len(),
            is_border_table(table@, pattern),
            forall|j: int| 0 <= j < i ==> #[trigger] table@[j] <= u32::MAX,
        decreases table@.len() - i,
    {
        if table[i] > u32::MAX as usize {
            assert(tail_match(pattern.take(i + 1), pattern, table@[i as int] as int));
            return true;
        }
        i += 1;
    }
    proof {
        assert forall|end: int, k: int|
            0 < end <= pattern.len() && u32::MAX < k < end implies !#[trigger] tail_match(
            pattern.take(end),
            pattern,
            k,
        ) by {
            let longest = table@[end - 1];
            assert(is_longest(pattern.take(end - 1 + 1), pattern, end - 1, longest as int));
        }
    }
    false
}

/// The longest end of `text` that `pattern` begins with; `None` where a repetition
/// inside the pattern cannot be counted in 32 bits.
fn longest_tail_match(pattern: &[u8], text: &[u8]) -> (res: Option<usize>)
    requires
        pattern@.len() > 0,
    ensures
        match res {
            Some(k) => !has_border_over(pattern@, u32::MAX as int) && is_longest(
                text@,
                pattern@,
                pattern@.len() as int,
                k as int,
            ),
            None => has_border_over(pattern@, u32::MAX as int),
        },
{
    let ghost p: Seq<u8> = pattern@;
    let table: Vec<usize> = border_table(pattern);
    if counts_over(&table, Ghost(p)) {
        return None;
    }
    let mut matched: usize = 0;
    let mut at: usize = 0;
    assert(text@.take(0).len() == 0);
    while at < text.len()
        invariant
            at <= text@.len(),
            p == pattern@,
            p.len() > 0,
            is_border_table(table@, p),
            is_longest(text@.take(at as int), p, p.len() as int, matched as int),
        decreases text@.len() - at,
    {
        matched =
        extend_match(
            pattern,
            &table,
            matched,
            text[at],
            Ghost(text@.take(at as int)),
            Ghost(p.len() as int),
        );
        assert(text@.take(at as int).push(text@[at as int]) =~= text@.take(at + 1));
        at += 1;
    }
    assert(text@.take(text@.len() as int) =~= text@);
    Some(matched)
}

/// An overlap of characters is one of bytes, between character boundaries.
proof fn overlap_in_bytes(a: Seq<char>, b: Seq<char>, count: int)
    requires
        overlaps(a, b, count),
    ensures
        ({
            let k = encode_utf8(b.take(count)).len() as int;
            &&& k <= encode_utf8(a).len()
            &&& k <= encode_utf8(b).len()
            &&& is_char_boundary(encode_utf8(b), k)
            &&& is_char_boundary(encode_utf8(a), encode_utf8(a).len() - k)
            &&& encode_utf8(a).skip(encode_utf8(a).len() - k) == encode_utf8(b).take(k)
        }),
{
    encode_split(b, count);
    encode_split(a, a.len() - count);
}

/// An overlap of bytes is one of characters.
proof fn overlap_in_chars(a: Seq<char>, b: Seq<char>, k: int) -> (count: int)
    requires
        0 < k <= encode_utf8(a).len(),
        k <= encode_utf8(b).len(),
        encode_utf8(a).skip(encode_utf8(a).len() - k) == encode_utf8(b).take(k),
    ensures
        0 < count,
        overlaps(a, b, count),
        encode_utf8(b.take(count)).len() == k,
{
    let x = encode_utf8(a);
    let y = encode_utf8(b);
    let from = x.len() - k;
    vstd::utf8::encode_utf8_valid_utf8(a);
    vstd::utf8::encode_utf8_valid_utf8(b);
    vstd::utf8::is_char_boundary_start_end_of_seq(y);
    vstd::utf8::is_char_boundary_iff_not_is_continuation_byte(y, 0);
    assert(x.skip(from)[0] == x[from]);
    assert(y.take(k)[0] == y[0]);
    vstd::utf8::is_char_boundary_iff_not_is_continuation_byte(x, from);
    vstd::utf8::valid_utf8_split(x, from);
    assert(x.subrange(from, x.len() as int) =~= y.take(k));
    assert(y.take(k) + y.skip(k) =~= y);
    boundary_at_seam(y.take(k), y.skip(k));
    let count = boundary_is_place(b, k);
    let rest = boundary_is_place(a, from);
    encode_split(b, count);
    encode_split(a, rest);
    encode_injective(a.skip(rest), b.take(count));
    assert(a.skip(rest).len() == count);
    assert(count > 0) by {
        if count == 0 {
            assert(b.take(0) =~= Seq::<char>::empty());
        }
    }
    count
}

/// The greatest overlap is found by its bounds.
proof fn overlap_within_is_greatest(a: Seq<char>, b: Seq<char>, bound: int, count: int)
    requires
        0 <= count <= bound,
        count > 0 ==> overlaps(a, b, count),
        forall|m: int| count < m <= bound ==> !#[trigger] overlaps(a, b, m),
    ensures
        overlap_within(a, b, bound) == count,
    decreases bound,
{
    if bound > 0 && count < bound {
        assert(!overlaps(a, b, bound));
        overlap_within_is_greatest(a, b, bound - 1, count);
    }
}

/// How many bytes at the beginning of `next` repeat the end of `accumulated`.
fn suffix_prefix_overlap(accumulated: &str, next: &str) -> (res: usize)
    ensures
        res == encode_utf8(next@.take(overlap_length(accumulated@, next@))).len(),
        0 <= overlap_length(accumulated@, next@) <= next@.len(),
{
    let a: &[u8] = accumulated.as_bytes();
    let n: &[u8] = next.as_bytes();
    let ghost x: Seq<u8> = a@;
    let ghost y: Seq<u8> = n@;
    proof {
        vstd::utf8::encode_utf8_valid_utf8(accumulated@);
        vstd::utf8::encode_utf8_valid_utf8(next@);
        vstd::utf8::is_char_boundary_start_end_of_seq(x);
        vstd::utf8::is_char_boundary_start_end_of_seq(y);
        assert(next@.take(0) =~= Seq::<char>::empty());
        assert(encode_utf8(next@.take(0)).len() == 0);
    }
    let least: usize = if a.len() < n.len() {
        a.len()
    } else {
        n.len()
    };
    let mut max_overlap: usize = least;
    while !next.is_char_boundary(max_overlap)
        invariant
            max_overlap <= least <= y.len(),
            y == encode_utf8(next@),
            is_char_boundary(y, 0),
            floor_boundary(y, least as int) == floor_boundary(y, max_overlap as int),
            forall|m: int| max_overlap < m <= least ==> !#[trigger] is_char_boundary(y, m),
        decreases max_overlap,
    {
        max_overlap -= 1;
    }
    let ghost p: Seq<u8> = y.take(max_overlap as int);
    assert(p == overlap_pattern(accumulated@, next@));
    let ghost greatest: int = overlap_length(accumulated@, next@);
    proof {
        assert forall|m: int| #[trigger] overlaps(accumulated@, next@, m) implies encode_utf8(
            next@.take(m),
        ).len() <= max_overlap by {
            overlap_in_bytes(accumulated@, next@, m);
        }
    }
    if max_overlap == 0 {
        proof {
            assert forall|m: int| 0 < m <= next@.len() implies !#[trigger] overlaps(
                accumulated@,
                next@,
                m,
            ) by {
                if overlaps(accumulated@, next@, m) {
                    encode_take_monotonic(next@, 0, m);
                }
            }
            overlap_within_is_greatest(accumulated@, next@, next@.len() as int, 0);
        }
        return 0;
    }
    let total: usize = a.len();
    let mut start: usize = total - max_overlap;
    while !accumulated.is_char_boundary(start)
        invariant
            x.len() - max_overlap <= start <= x.len(),
            x == encode_utf8(accumulated@),
            x.len() == total,
            is_char_boundary(x, x.len() as int),
            forall|m: int|
                x.len() - max_overlap <= m < start ==> !#[trigger] is_char_boundary(x, m),
        decreases x.len() - start,
    {
        start += 1;
    }
    let pattern: &[u8] = vstd::slice::slice_subrange(n, 0, max_overlap);
    let text: &[u8] = vstd::slice::slice_subrange(a, start, total);
    let ghost t: Seq<u8> = text@;
    assert(pattern@ =~= p);
    match longest_tail_match(pattern, text) {
        None => 0,
        Some(matched) => {
            proof {
                let count = if matched == 0 {
                    0
                } else {
                    assert(x.skip(x.len() - matched) =~= y.take(matched as int)) by {
                        assert forall|i: int| 0 <= i < matched implies x.skip(x.len() - matched)[i]
                            == y.take(matched as int)[i] by {
                            assert(t[t.len() - matched + i] == p[i]);
                        }
                    }
                    overlap_in_chars(accumulated@, next@, matched as int)
                };
                assert forall|m: int| count < m <= next@.len() implies !#[trigger] overlaps(
                    accumulated@,
                    next@,
                    m,
                ) by {
                    if overlaps(accumulated@, next@, m) {
                        encode_take_monotonic(next@, count, m);
                        overlap_in_bytes(accumulated@, next@, m);
                        let k = encode_utf8(next@.take(m)).len() as int;
                        assert(is_char_boundary(x, x.len() - k));
                        assert(k <= t.len());
                        assert forall|i: int| 0 <= i < k implies t[t.len() - k + i]
                            == #[trigger] p[i] by {
                            assert(x.skip(x.len() - k)[i] == y.take(k)[i]);
                        }
                        assert(tail_match(t, p, k));
                    }
                }
                overlap_within_is_greatest(accumulated@, next@, next@.len() as int, count);
            }
            matched
        },
    }
}

/// A text that occurs in another occurs in its encoding.
proof fn occurrence_in_bytes(part: Seq<char>, whole: Seq<char>, at: int) -> (end: int)
    requires
        0 <= at,
        at + part.len() <= whole.len(),
        whole.subrange(at, at + part.len()) == part,
    ensures
        0 <= end <= encode_utf8(whole).len(),
        tail_match(encode_utf8(whole).take(end), encode_utf8(part), encode_utf8(part).len() as int),
{
    let head = whole.take(at);
    let rest = whole.skip(at + part.len());
    assert(whole =~= head + (part + rest));
    encode_concat(head, part + rest);
    encode_concat(part, rest);
    let from = encode_utf8(head).len() as int;
    let n = encode_utf8(part).len() as int;
    let x = encode_utf8(whole);
    assert forall|i: int| 0 <= i < n implies x.take(from + n)[i + from] == #[trigger] encode_utf8(
        part,
    )[i] by {}
    from + n
}

/// A text whose encoding occurs in that of another occurs in it.
proof fn occurrence_in_chars(part: Seq<char>, whole: Seq<char>, end: int)
    requires
        part.len() > 0,
        0 <= end <= encode_utf8(whole).len(),
        tail_match(encode_utf8(whole).take(end), encode_utf8(part), encode_utf8(part).len() as int),
    ensures
        occurs_in(part, whole),
{
    let x = encode_utf8(whole);
    let y = encode_utf8(part);
    let n = y.len() as int;
    let from = end - n;
    encode_not_shorter(part);
    vstd::utf8::encode_utf8_valid_utf8(whole);
    vstd::utf8::encode_utf8_valid_utf8(part);
    vstd::utf8::is_char_boundary_start_end_of_seq(y);
    vstd::utf8::is_char_boundary_iff_not_is_continuation_byte(y, 0);
    assert(x.take(end)[from] == y[0]);
    vstd::utf8::is_char_boundary_iff_not_is_continuation_byte(x, from);
    let at = boundary_is_place(whole, from);
    encode_split(whole, at);
    let tail = whole.skip(at);
    let z = encode_utf8(tail);
    vstd::utf8::encode_utf8_valid_utf8(tail);
    assert(z =~= x.skip(from));
    assert(z.take(n) =~= y) by {
        assert forall|i: int| 0 <= i < n implies z.take(n)[i] == y[i] by {
            assert(x.take(end)[from + i] == y[i]);
        }
    }
    assert(y + z.skip(n) =~= z);
    boundary_at_seam(y, z.skip(n));
    let count = boundary_is_place(tail, n);
    encode_split(tail, count);
    encode_injective(tail.take(count), part);
    assert(whole.subrange(at, at + part.len()) =~= part);
}

/// The part occurs in the whole.
fn text_contains(whole: &str, part: &str) -> (res: bool)
    ensures
        res == occurs_in(part@, whole@),
{
    let pattern: &[u8] = part.as_bytes();
    let text: &[u8] = whole.as_bytes();
    let ghost p: Seq<u8> = pattern@;
    let ghost x: Seq<u8> = text@;
    if part.is_empty() {
        assert(whole@.subrange(0, 0 + part@.len() as int) =~= part@);
        return true;
    }
    proof {
        encode_not_shorter(part@);
    }
    let table: Vec<usize> = border_table(pattern);
    let mut matched: usize = 0;
    let mut at: usize = 0;
    assert(x.take(0).len() == 0);
    while at < text.len()
        invariant
            at <= x.len(),
            x == text@,
            p == pattern@,
            p == encode_utf8(part@),
            x == encode_utf8(whole@),
            part@.len() > 0,
            p.len() > 0,
            is_border_table(table@, p),
            is_longest(x.take(at as int), p, p.len() as int, matched as int),
            forall|end: int|
                0 <= end <= at ==> !tail_match(#[trigger] x.take(end), p, p.len() as int),
        decreases x.len() - at,
    {
        matched =
        extend_match(
            pattern,
            &table,
            matched,
            text[at],
            Ghost(x.take(at as int)),
            Ghost(p.len() as int),
        );
        assert(x.take(at as int).push(x[at as int]) =~= x.take(at + 1));
        if matched == pattern.len() {
            proof {
                occurrence_in_chars(part@, whole@, at + 1);
            }
            return true;
        }
        assert(!tail_match(x.take(at + 1), p, p.len() as int));
        at += 1;
    }
    proof {
        if occurs_in(part@, whole@) {
            let place = choose|place: int|
                0 <= place && place + part@.len() <= whole@.len() && #[trigger] whole@.subrange(
                    place,
                    place + part@.len(),
                ) == part@;
            let end = occurrence_in_bytes(part@, whole@, place);
            assert(tail_match(x.take(end), p, p.len() as int));
        }
    }
    false
}

/// Joins the next text to the text so far, without repeating what both hold.
pub fn merge_text(accumulated: &mut String, next: &str)
    ensures
        final(accumulated)@ == merged(old(accumulated)@, next@),
{
    let ghost so_far: Seq<char> = accumulated@;
    if next.is_empty() || text_contains(accumulated.as_str(), next) {
        return;
    }
    if accumulated.as_str().is_empty() || text_contains(next, accumulated.as_str()) {
        *accumulated = next.to_owned();
        return;
    }
    let overlap: usize = suffix_prefix_overlap(accumulated.as_str(), next);
    let ghost count: int = overlap_length(so_far, next@);
    proof {
        encode_split(next@, count);
        if count > 0 {
            encode_take_monotonic(next@, 0, count);
        } else {
            assert(next@.take(0) =~= Seq::<char>::empty());
            assert(next@.skip(0) =~= next@);
        }
    }
    if overlap == 0 {
        accumulated.append("\n\n");
    }
    let tail: &str = next.split_at(overlap).1;
    proof {
        assert(encode_utf8(next@).subrange(overlap as int, encode_utf8(next@).len() as int)
            =~= encode_utf8(next@).skip(overlap as int));
        encode_injective(tail@, next@.skip(count));
    }
    accumulated.append(tail);
}

/// Joining loses nothing: both texts stand in the result.
pub proof fn merge_keeps_both(accumulated: Seq<char>, next: Seq<char>)
    ensures
        occurs_in(accumulated, merged(accumulated, next)),
        occurs_in(next, merged(accumulated, next)),
{
    let joined = merged(accumulated, next);
    let a = accumulated.len() as int;
    let n = next.len() as int;
    if n == 0 || occurs_in(next, accumulated) {
        assert(accumulated.subrange(0, 0 + a) =~= accumulated);
        assert(joined.subrange(0, 0 + a) == accumulated);
        assert(n == 0 ==> joined.subrange(0, 0 + n) =~= next);
    } else if a == 0 || occurs_in(accumulated, next) {
        assert(next.subrange(0, 0 + n) =~= next);
        assert(joined.subrange(0, 0 + n) == next);
        assert(a == 0 ==> joined.subrange(0, 0 + a) =~= accumulated);
    } else if overlap_length(accumulated, next) == 0 {
        let gap = "\n\n"@;
        assert(joined.subrange(0, 0 + a) =~= accumulated);
        assert(joined.subrange(a + gap.len(), a + gap.len() + n) =~= next);
    } else {
        let count = overlap_within(accumulated, next, n);
        overlap_within_overlaps(accumulated, next, n);
        assert(joined.subrange(0, 0 + a) =~= accumulated);
        assert(joined.subrange(a - count, a - count + n) =~= next) by {
            assert forall|i: int| 0 <= i < n implies joined[a - count + i] == next[i] by {
                if i < count {
                    assert(accumulated.skip(a - count)[i] == next.take(count)[i]);
                }
            }
        }
    }
}

proof fn overlap_within_overlaps(a: Seq<char>, b: Seq<char>, bound: int)
    ensures
        overlap_within(a, b, bound) > 0 ==> overlaps(a, b, overlap_within(a, b, bound)),
        overlap_within(a, b, bound) >= 0,
    decreases bound,
{
    if bound > 0 && !overlaps(a, b, bound) {
        overlap_within_overlaps(a, b, bound - 1);
    }
}

/// Joining a text twice is joining it once.
pub proof fn merge_twice_is_once(accumulated: Seq<char>, next: Seq<char>)
    ensures
        merged(merged(accumulated, next), next) == merged(accumulated, next),
{
    merge_keeps_both(accumulated, next);
}

/// Texts of which neither holds the other are joined in their order: the result begins
/// with the first and ends with the second. What the end of the first shares with the
/// beginning of the second stands once, and where they share nothing an empty line parts
/// them.
pub proof fn merge_joins_in_order(accumulated: Seq<char>, next: Seq<char>, shared: int)
    requires
        !occurs_in(next, accumulated),
        !occurs_in(accumulated, next),
        encode_utf8(next).len() <= u32::MAX,
        0 <= shared <= accumulated.len(),
        shared <= next.len(),
        accumulated.skip(accumulated.len() - shared) == next.take(shared),
        forall|more: int|
            shared < more <= accumulated.len() && more <= next.len() ==> #[trigger] accumulated.skip(
                accumulated.len() - more,
            ) != next.take(more),
    ensures
        merged(accumulated, next).take(accumulated.len() as int) == accumulated,
        merged(accumulated, next).skip(merged(accumulated, next).len() - next.len()) == next,
        shared > 0 ==> merged(accumulated, next).len() == accumulated.len() + next.len() - shared,
        shared == 0 ==> merged(accumulated, next) == accumulated + "\n\n"@ + next,
{
    let a = accumulated.len() as int;
    let n = next.len() as int;
    assert(n > 0) by {
        if n == 0 {
            assert(accumulated.subrange(0, 0 + n) =~= next);
        }
    }
    assert(a > 0) by {
        if a == 0 {
            assert(next.subrange(0, 0 + a) =~= accumulated);
        }
    }
    let pattern = overlap_pattern(accumulated, next);
    assert(pattern.len() <= u32::MAX) by {
        let bytes = encode_utf8(next);
        let least = if encode_utf8(accumulated).len() < bytes.len() {
            encode_utf8(accumulated).len() as int
        } else {
            bytes.len() as int
        };
        floor_is_lower(bytes, least);
    }
    assert(!has_border_over(pattern, u32::MAX as int));
    assert(overlaps(accumulated, next, shared));
    overlap_within_overlaps(accumulated, next, n);
    assert(overlap_within(accumulated, next, n) == shared) by {
        overlap_within_reaches(accumulated, next, n, shared);
        let found = overlap_within(accumulated, next, n);
        if found > shared {
            assert(accumulated.skip(a - found) != next.take(found));
        }
    }
    let joined = merged(accumulated, next);
    if shared == 0 {
        assert(joined.take(a) =~= accumulated);
        assert(joined.skip(joined.len() - n) =~= next);
    } else {
        assert(joined == accumulated + next.skip(shared));
        assert(joined.take(a) =~= accumulated);
        assert(joined.skip(joined.len() - n) =~= next) by {
            assert forall|i: int| 0 <= i < n implies #[trigger] joined.skip(joined.len() - n)[i]
                == next[i] by {
                if i < shared {
                    assert(accumulated.skip(a - shared)[i] == next.take(shared)[i]);
                }
            }
        }
    }
}

proof fn floor_is_lower(bytes: Seq<u8>, at: int)
    requires
        0 <= at,
    ensures
        0 <= floor_boundary(bytes, at) <= at,
    decreases at,
{
    if !(at <= 0 || is_char_boundary(bytes, at)) {
        floor_is_lower(bytes, at - 1);
    }
}

proof fn overlap_within_reaches(a: Seq<char>, b: Seq<char>, bound: int, count: int)
    requires
        overlaps(a, b, count),
        count <= bound,
    ensures
        count <= overlap_within(a, b, bound) <= bound,
    decreases bound,
{
    if bound > 0 && !overlaps(a, b, bound) {
        overlap_within_reaches(a, b, bound - 1, count);
    }
}

proof fn an_occurrence_fits(part: Seq<char>, whole: Seq<char>)
    requires
        occurs_in(part, whole),
    ensures
        part.len() <= whole.len(),
        part.len() == whole.len() ==> part == whole,
{
    let at = choose|at: int|
        0 <= at && at + part.len() <= whole.len() && #[trigger] whole.subrange(
            at,
            at + part.len(),
        ) == part;
    if part.len() == whole.len() {
        assert(at == 0);
        assert(whole.subrange(0, whole.len() as int) =~= whole);
    }
}

/// A text that holds the other already is left as it is.
pub proof fn merge_keeps_the_fuller_text(accumulated: Seq<char>, next: Seq<char>)
    ensures
        occurs_in(next, accumulated) ==> merged(accumulated, next) == accumulated,
        occurs_in(accumulated, next) ==> merged(accumulated, next) == next,
{
    if occurs_in(accumulated, next) {
        if occurs_in(next, accumulated) {
            an_occurrence_fits(accumulated, next);
            an_occurrence_fits(next, accumulated);
        } else {
            assert(next.len() > 0) by {
                if next.len() == 0 {
                    assert(accumulated.subrange(0, 0int + next.len()) =~= next);
                }
            }
        }
    }
}

} // verus!
