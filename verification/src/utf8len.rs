//! Lengths of texts in UTF-8 bytes.
use vstd::prelude::*;
use vstd::utf8::*;

verus! {

/// Number of bytes of the UTF-8 encoding of one character.
pub open spec fn char_len(c: char) -> int {
    let u = c as u32;
    if u < 0x80 {
        1
    } else if u < 0x800 {
        2
    } else if u < 0x10000 {
        3
    } else {
        4
    }
}

/// Number of bytes of the UTF-8 encoding of a text.
pub open spec fn utf8_len(s: Seq<char>) -> int {
    encode_utf8(s).len() as int
}

/// The encoding of a concatenation is the concatenation of the encodings.
pub proof fn lemma_encode_utf8_concat(a: Seq<char>, b: Seq<char>)
    ensures
        encode_utf8(a + b) == encode_utf8(a) + encode_utf8(b),
    decreases a.len(),
{
    if a.len() == 0 {
        assert(a + b =~= b);
        assert(encode_utf8(a) =~= Seq::<u8>::empty());
        assert(encode_utf8(a) + encode_utf8(b) =~= encode_utf8(b));
    } else {
        lemma_encode_utf8_concat(a.drop_first(), b);
        assert((a + b).drop_first() =~= a.drop_first() + b);
        assert((a + b)[0] == a[0]);
        assert(encode_utf8(a + b) =~= encode_scalar(a[0] as u32) + encode_utf8(a.drop_first() + b));
    }
}

/// The encoding of one character has `char_len` bytes.
pub proof fn lemma_encode_single(c: char)
    ensures
        utf8_len(seq![c]) == char_len(c),
        1 <= char_len(c) <= 4,
{
    char_is_scalar(c);
    let s = seq![c];
    assert(s.drop_first() =~= Seq::<char>::empty());
    assert(encode_utf8(s) =~= encode_scalar(c as u32) + encode_utf8(Seq::<char>::empty()));
    assert(encode_utf8(Seq::<char>::empty()) =~= Seq::<u8>::empty());
}

/// Extending a text by one character adds that character's byte length.
pub proof fn lemma_utf8_len_push(s: Seq<char>, c: char)
    ensures
        utf8_len(s.push(c)) == utf8_len(s) + char_len(c),
{
    lemma_encode_utf8_concat(s, seq![c]);
    assert(s + seq![c] =~= s.push(c));
    lemma_encode_single(c);
}

/// Byte length of a prefix extended by one character.
pub proof fn lemma_utf8_len_take_step(s: Seq<char>, k: int)
    requires
        0 <= k < s.len(),
    ensures
        utf8_len(s.take(k + 1)) == utf8_len(s.take(k)) + char_len(s[k]),
        char_len(s[k]) >= 1,
{
    assert(s.take(k + 1) =~= s.take(k).push(s[k]));
    lemma_utf8_len_push(s.take(k), s[k]);
    lemma_encode_single(s[k]);
}

/// Byte lengths of prefixes grow strictly with the number of characters.
pub proof fn lemma_utf8_len_take_mono(s: Seq<char>, j: int, k: int)
    requires
        0 <= j <= k <= s.len(),
    ensures
        utf8_len(s.take(j)) + (k - j) <= utf8_len(s.take(k)),
    decreases k - j,
{
    if j < k {
        lemma_utf8_len_take_mono(s, j, k - 1);
        lemma_utf8_len_take_step(s, k - 1);
    }
}

/// The empty text has no bytes.
pub proof fn lemma_utf8_len_empty(s: Seq<char>)
    ensures
        utf8_len(s.take(0)) == 0,
{
    assert(s.take(0) =~= Seq::<char>::empty());
    assert(encode_utf8(Seq::<char>::empty()) =~= Seq::<u8>::empty());
}

/// Byte length of a concatenation.
pub proof fn lemma_utf8_len_concat(a: Seq<char>, b: Seq<char>)
    ensures
        utf8_len(a + b) == utf8_len(a) + utf8_len(b),
{
    lemma_encode_utf8_concat(a, b);
}


/// Texts with the same encoding are equal.
pub proof fn lemma_encode_utf8_injective(a: Seq<char>, b: Seq<char>)
    requires
        encode_utf8(a) == encode_utf8(b),
    ensures
        a == b,
{
    encode_utf8_decode_utf8(a);
    encode_utf8_decode_utf8(b);
}

/// The byte offset after the first `k` characters is a character boundary of
/// the encoding.
pub proof fn lemma_take_is_char_boundary(s: Seq<char>, k: int)
    requires
        0 <= k <= s.len(),
    ensures
        is_char_boundary(encode_utf8(s), utf8_len(s.take(k))),
    decreases k,
{
    broadcast use encode_utf8_valid_utf8;

    let bytes = encode_utf8(s);
    if k == 0 {
        lemma_utf8_len_empty(s);
    } else {
        encode_utf8_first_scalar(s);
        assert(pop_first_scalar(bytes) =~= encode_utf8(s.drop_first()));
        lemma_take_is_char_boundary(s.drop_first(), k - 1);
        assert(s.take(k) =~= seq![s[0]] + s.drop_first().take(k - 1));
        lemma_utf8_len_concat(seq![s[0]], s.drop_first().take(k - 1));
        lemma_encode_single(s[0]);
        char_is_scalar(s[0]);
        lemma_utf8_len_take_mono(s, k, s.len() as int);
        assert(s.take(s.len() as int) =~= s);
    }
}

/// Splitting an encoding at the boundary after `k` characters splits the text there.
pub proof fn lemma_encode_split(s: Seq<char>, k: int)
    requires
        0 <= k <= s.len(),
    ensures
        encode_utf8(s).subrange(0, utf8_len(s.take(k))) == encode_utf8(s.take(k)),
        encode_utf8(s).subrange(utf8_len(s.take(k)), utf8_len(s)) == encode_utf8(s.skip(k)),
{
    assert(s =~= s.take(k) + s.skip(k));
    lemma_encode_utf8_concat(s.take(k), s.skip(k));
    assert(encode_utf8(s).subrange(0, utf8_len(s.take(k))) =~= encode_utf8(s.take(k)));
    assert(encode_utf8(s).subrange(utf8_len(s.take(k)), utf8_len(s)) =~= encode_utf8(s.skip(k)));
}


/// Byte length after inserting one character at position `k`.
pub proof fn lemma_utf8_len_insert(s: Seq<char>, k: int, c: char)
    requires
        0 <= k <= s.len(),
    ensures
        utf8_len(s.take(k).push(c) + s.skip(k)) == utf8_len(s) + char_len(c),
{
    lemma_utf8_len_concat(s.take(k).push(c), s.skip(k));
    lemma_utf8_len_push(s.take(k), c);
    lemma_utf8_len_concat(s.take(k), s.skip(k));
    assert(s.take(k) + s.skip(k) =~= s);
}

/// Byte length after removing the character at position `i`.
pub proof fn lemma_utf8_len_remove(s: Seq<char>, i: int)
    requires
        0 <= i < s.len(),
    ensures
        utf8_len(s.take(i) + s.skip(i + 1)) + char_len(s[i]) == utf8_len(s),
{
    lemma_utf8_len_concat(s.take(i), s.skip(i + 1));
    lemma_utf8_len_concat(s.take(i + 1), s.skip(i + 1));
    assert(s.take(i + 1) + s.skip(i + 1) =~= s);
    lemma_utf8_len_take_step(s, i);
}

/// The empty text has no bytes.
pub proof fn lemma_utf8_len_nil()
    ensures
        utf8_len(Seq::<char>::empty()) == 0,
{
    assert(encode_utf8(Seq::<char>::empty()) =~= Seq::<u8>::empty());
}


/// The text between two byte offsets of `s`.
pub open spec fn byte_text(s: Seq<char>, a: int, b: int) -> Seq<char> {
    decode_utf8(encode_utf8(s).subrange(a, b))
}

/// A character boundary of a valid encoding stays one, shifted, in the part
/// that starts at an earlier boundary.
pub proof fn lemma_boundary_in_suffix(bytes: Seq<u8>, a: int, b: int)
    requires
        valid_utf8(bytes),
        0 <= a <= b <= bytes.len(),
        is_char_boundary(bytes, a),
        is_char_boundary(bytes, b),
    ensures
        valid_utf8(bytes.subrange(a, bytes.len() as int)),
        is_char_boundary(bytes.subrange(a, bytes.len() as int), b - a),
{
    let rest = bytes.subrange(a, bytes.len() as int);
    valid_utf8_split(bytes, a);
    is_char_boundary_start_end_of_seq(rest);
    if b - a == 0 {
    } else if b == bytes.len() {
        assert(rest.len() == b - a);
    } else {
        is_char_boundary_iff_not_is_continuation_byte(bytes, b);
        is_char_boundary_iff_not_is_continuation_byte(rest, b - a);
        assert(rest[b - a] == bytes[b]);
    }
}

/// The part of `s` between two byte offsets that are character boundaries.
pub fn byte_slice(s: &str, a: usize, b: usize) -> (r: &str)
    requires
        a <= b <= utf8_len(s@),
        is_char_boundary(encode_utf8(s@), a as int),
        is_char_boundary(encode_utf8(s@), b as int),
    ensures
        r@ == byte_text(s@, a as int, b as int),
        encode_utf8(r@) == encode_utf8(s@).subrange(a as int, b as int),
{
    broadcast use encode_utf8_valid_utf8;

    let ghost bytes = encode_utf8(s@);
    proof {
        lemma_boundary_in_suffix(bytes, a as int, b as int);
    }
    let (_, rest) = s.split_at(a);
    assert(encode_utf8(rest@) == bytes.subrange(a as int, bytes.len() as int));
    let (mid, _) = rest.split_at(b - a);
    proof {
        let m = bytes.subrange(a as int, bytes.len() as int).subrange(0, b - a);
        assert(m =~= bytes.subrange(a as int, b as int));
        encode_utf8_decode_utf8(mid@);
    }
    mid
}

/// Byte length of one character, computed.
pub fn char_width(c: char) -> (w: usize)
    ensures
        w == char_len(c),
{
    let u = c as u32;
    if u < 0x80 {
        1
    } else if u < 0x800 {
        2
    } else if u < 0x10000 {
        3
    } else {
        4
    }
}


/// Byte length of a string slice (`str::len`); no slice is longer than
/// `isize::MAX` bytes.
#[verifier::external_body]
pub(crate) fn str_byte_len(s: &str) -> (n: usize)
    ensures
        n as int == utf8_len(s@),
        n <= isize::MAX,
{
    s.len()
}

} // verus!
