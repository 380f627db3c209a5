//! Facts about the UTF-8 encoding of a string that let byte-wise code speak
//! of characters: an ASCII byte of the encoding is always a whole character.

use vstd::prelude::*;
use vstd::utf8::*;

verus! {

/// The encoding of a concatenation is the concatenation of the encodings.
pub proof fn lemma_encode_concat(a: Seq<char>, b: Seq<char>)
    ensures
        encode_utf8(a + b) == encode_utf8(a) + encode_utf8(b),
    decreases a.len(),
{
    if a.len() == 0 {
        assert(a + b =~= b);
        assert(encode_utf8(a) + encode_utf8(b) =~= encode_utf8(b));
    } else {
        lemma_encode_concat(a.drop_first(), b);
        assert((a + b).drop_first() =~= a.drop_first() + b);
        assert(encode_utf8(a + b) =~= encode_utf8(a) + encode_utf8(b));
    }
}

/// Two strings with the same encoding are the same string.
pub proof fn lemma_encode_injective(a: Seq<char>, b: Seq<char>)
    requires
        encode_utf8(a) == encode_utf8(b),
    ensures
        a == b,
{
    encode_utf8_decode_utf8(a);
    encode_utf8_decode_utf8(b);
}

/// A character is ASCII exactly when its code is below 128, and its code is
/// then what it is as a byte.
pub proof fn lemma_ascii_code(c: char)
    ensures
        c <= '\u{7f}' <==> has_width_1_encoding(c as u32),
        c <= '\u{7f}' ==> (c as u32) as u8 == c as u8,
{
}

/// The encoding of a string that starts with an ASCII character starts with
/// that character's code, and every other encoding starts with a byte
/// outside the ASCII range.
pub proof fn lemma_first_byte(s: Seq<char>)
    requires
        s.len() > 0,
    ensures
        encode_utf8(s).len() > 0,
        s[0] <= '\u{7f}' <==> encode_utf8(s)[0] < 0x80,
        s[0] <= '\u{7f}' ==> encode_utf8(s)[0] == s[0] as u8 && encode_utf8(s).skip(1)
            == encode_utf8(s.drop_first()),
{
    let c = s[0] as u32;
    char_is_scalar(s[0]);
    lemma_ascii_code(s[0]);
    assert(has_width_1_encoding(c) ==> leading_byte_width_1(c) == c as u8 && leading_byte_width_1(
        c,
    ) < 0x80) by (bit_vector);
    assert(leading_byte_width_2(c) >= 0x80) by (bit_vector);
    assert(leading_byte_width_3(c) >= 0x80) by (bit_vector);
    assert(leading_byte_width_4(c) >= 0x80) by (bit_vector);
    let head = encode_scalar(c);
    let tail = encode_utf8(s.drop_first());
    assert(encode_utf8(s) == head + tail);
    assert(head.len() > 0);
    assert(encode_utf8(s)[0] == head[0]);
    if s[0] <= '\u{7f}' {
        assert(head.len() == 1);
        assert((head + tail).skip(1) =~= tail);
    }
}

/// An ASCII character of a string stands in the encoding as one byte, right
/// behind the encoding of what precedes it.
pub proof fn lemma_ascii_char_is_byte(s: Seq<char>, i: int)
    requires
        0 <= i < s.len(),
        s[i] <= '\u{7f}',
    ensures
        encode_utf8(s.take(i)).len() < encode_utf8(s).len(),
        encode_utf8(s)[encode_utf8(s.take(i)).len() as int] == s[i] as u8,
        encode_utf8(s).take(encode_utf8(s.take(i)).len() as int) == encode_utf8(s.take(i)),
        encode_utf8(s).skip(encode_utf8(s.take(i)).len() as int) == encode_utf8(s.skip(i)),
{
    let front = s.take(i);
    let back = s.skip(i);
    assert(s =~= front + back);
    lemma_encode_concat(front, back);
    lemma_first_byte(back);
    let k = encode_utf8(front).len() as int;
    assert(encode_utf8(s).take(k) =~= encode_utf8(front));
    assert(encode_utf8(s).skip(k) =~= encode_utf8(back));
}

/// An ASCII byte of an encoding is a whole character of the string: the
/// result is that character's index.
pub proof fn lemma_ascii_byte_is_char(s: Seq<char>, k: int) -> (i: int)
    requires
        0 <= k < encode_utf8(s).len(),
        encode_utf8(s)[k] < 0x80,
    ensures
        0 <= i < s.len(),
        s[i] <= '\u{7f}',
        s[i] as u8 == encode_utf8(s)[k],
        encode_utf8(s.take(i)) == encode_utf8(s).take(k),
        encode_utf8(s.skip(i)) == encode_utf8(s).skip(k),
{
    let bytes = encode_utf8(s);
    encode_utf8_valid_utf8(s);
    encode_utf8_decode_utf8(s);
    assert(!is_continuation_byte(bytes[k])) by {
        let b = bytes[k];
        assert(b < 0x80 ==> b & 0xC0 != 0x80) by (bit_vector);
    }
    is_char_boundary_iff_not_is_continuation_byte(bytes, k);
    valid_utf8_split(bytes, k);
    decode_utf8_split(bytes, k);
    let front = decode_utf8(bytes.take(k));
    let back = decode_utf8(bytes.skip(k));
    decode_utf8_encode_utf8(bytes.take(k));
    decode_utf8_encode_utf8(bytes.skip(k));
    assert(s =~= front + back);
    let i = front.len() as int;
    assert(s.take(i) =~= front);
    assert(s.skip(i) =~= back);
    assert(back.len() > 0) by {
        if back.len() == 0 {
            assert(encode_utf8(back).len() == 0);
        }
    }
    lemma_first_byte(back);
    i
}

} // verus!
