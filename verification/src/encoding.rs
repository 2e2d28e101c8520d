//! How texts stand in their UTF-8 encoding.

use vstd::prelude::*;
use vstd::utf8::{
    decode_utf8,
    encode_utf8,
    is_char_boundary,
    length_of_first_scalar,
    pop_first_scalar,
    valid_first_scalar,
    valid_utf8,
};

verus! {

/// Encoding goes character by character.
pub proof fn encode_concat(a: Seq<char>, b: Seq<char>)
    ensures
        encode_utf8(a + b) == encode_utf8(a) + encode_utf8(b),
    decreases a.len(),
{
    if a.len() == 0 {
        assert(a + b =~= b);
        assert(encode_utf8(a) + encode_utf8(b) =~= encode_utf8(b));
    } else {
        assert((a + b).drop_first() =~= a.drop_first() + b);
        encode_concat(a.drop_first(), b);
        assert(encode_utf8(a + b) =~= encode_utf8(a) + encode_utf8(b));
    }
}

/// Two texts of one encoding are one text.
pub proof fn encode_injective(a: Seq<char>, b: Seq<char>)
    requires
        encode_utf8(a) == encode_utf8(b),
    ensures
        a == b,
{
    vstd::utf8::encode_utf8_decode_utf8(a);
    vstd::utf8::encode_utf8_decode_utf8(b);
}

/// A character takes at least one byte.
pub proof fn encode_not_shorter(a: Seq<char>)
    ensures
        encode_utf8(a).len() >= a.len(),
    decreases a.len(),
{
    if a.len() > 0 {
        encode_not_shorter(a.drop_first());
        vstd::utf8::encode_utf8_first_scalar(a);
    }
}

/// Where well-formed bytes go on well-formed, the seam is a character boundary.
pub proof fn boundary_at_seam(a: Seq<u8>, b: Seq<u8>)
    requires
        valid_utf8(a),
        valid_utf8(a + b),
    ensures
        is_char_boundary(a + b, a.len() as int),
    decreases a.len(),
{
    if a.len() == 0 {
        vstd::utf8::is_char_boundary_start_end_of_seq(a + b);
    } else {
        let rest = pop_first_scalar(a);
        assert(valid_first_scalar(a + b));
        assert(length_of_first_scalar(a + b) == length_of_first_scalar(a));
        assert(pop_first_scalar(a + b) =~= rest + b);
        boundary_at_seam(rest, b);
    }
}

/// The beginning of a text stands at the beginning of its encoding, and ends at a
/// character boundary.
pub proof fn encode_split(text: Seq<char>, count: int)
    requires
        0 <= count <= text.len(),
    ensures
        encode_utf8(text).len() == encode_utf8(text.take(count)).len() + encode_utf8(
            text.skip(count),
        ).len(),
        encode_utf8(text).take(encode_utf8(text.take(count)).len() as int) == encode_utf8(
            text.take(count),
        ),
        encode_utf8(text).skip(encode_utf8(text.take(count)).len() as int) == encode_utf8(
            text.skip(count),
        ),
        is_char_boundary(encode_utf8(text), encode_utf8(text.take(count)).len() as int),
{
    let head = encode_utf8(text.take(count));
    let tail = encode_utf8(text.skip(count));
    assert(text.take(count) + text.skip(count) =~= text);
    encode_concat(text.take(count), text.skip(count));
    vstd::utf8::encode_utf8_valid_utf8(text);
    vstd::utf8::encode_utf8_valid_utf8(text.take(count));
    boundary_at_seam(head, tail);
    assert((head + tail).take(head.len() as int) =~= head);
    assert((head + tail).skip(head.len() as int) =~= tail);
}

/// A character boundary in an encoding comes from a place in the text.
pub proof fn boundary_is_place(text: Seq<char>, at: int) -> (count: int)
    requires
        is_char_boundary(encode_utf8(text), at),
        0 <= at <= encode_utf8(text).len(),
    ensures
        0 <= count <= text.len(),
        encode_utf8(text.take(count)).len() == at,
{
    let bytes = encode_utf8(text);
    vstd::utf8::encode_utf8_valid_utf8(text);
    vstd::utf8::encode_utf8_decode_utf8(text);
    vstd::utf8::valid_utf8_split(bytes, at);
    vstd::utf8::decode_utf8_split(bytes, at);
    let head = decode_utf8(bytes.subrange(0, at));
    let tail = decode_utf8(bytes.subrange(at, bytes.len() as int));
    assert(text =~= head + tail);
    assert(text.take(head.len() as int) =~= head);
    vstd::utf8::decode_utf8_encode_utf8(bytes.subrange(0, at));
    head.len() as int
}

/// A longer beginning has a longer encoding.
pub proof fn encode_take_monotonic(text: Seq<char>, few: int, many: int)
    requires
        0 <= few < many <= text.len(),
    ensures
        encode_utf8(text.take(few)).len() < encode_utf8(text.take(many)).len(),
{
    let middle = text.subrange(few, many);
    assert(text.take(many) =~= text.take(few) + middle);
    encode_concat(text.take(few), middle);
    encode_not_shorter(middle);
}

} // verus!
