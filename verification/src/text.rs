//! Small text utilities: decimal notation, comparison of strings, and cutting
//! a part out of a text by the positions of its bytes.

use vstd::prelude::*;
use vstd::string::StringSliceAdditionalSpecFns;
use vstd::utf8::{decode_utf8, encode_utf8, is_char_boundary, valid_utf8};

verus! {

/// The character of a single decimal digit.
pub open spec fn digit_char(d: nat) -> char
    recommends
        d < 10,
{
    if d == 0 {
        '0'
    } else if d == 1 {
        '1'
    } else if d == 2 {
        '2'
    } else if d == 3 {
        '3'
    } else if d == 4 {
        '4'
    } else if d == 5 {
        '5'
    } else if d == 6 {
        '6'
    } else if d == 7 {
        '7'
    } else if d == 8 {
        '8'
    } else {
        '9'
    }
}

/// The decimal notation of `n`, without sign or leading zeros.
pub open spec fn decimal(n: nat) -> Seq<char>
    decreases n,
{
    if n < 10 {
        seq![digit_char(n)]
    } else {
        decimal(n / 10).push(digit_char(n % 10))
    }
}

/// The one-character string of a single decimal digit.
fn digit_str(d: u32) -> (s: &'static str)
    requires
        d < 10,
    ensures
        s@ == seq![digit_char(d as nat)],
{
    proof {
        reveal_strlit("0");
        reveal_strlit("1");
        reveal_strlit("2");
        reveal_strlit("3");
        reveal_strlit("4");
        reveal_strlit("5");
        reveal_strlit("6");
        reveal_strlit("7");
        reveal_strlit("8");
        reveal_strlit("9");
    }
    let s = if d == 0 {
        "0"
    } else if d == 1 {
        "1"
    } else if d == 2 {
        "2"
    } else if d == 3 {
        "3"
    } else if d == 4 {
        "4"
    } else if d == 5 {
        "5"
    } else if d == 6 {
        "6"
    } else if d == 7 {
        "7"
    } else if d == 8 {
        "8"
    } else {
        "9"
    };
    assert(s@ =~= seq![digit_char(d as nat)]);
    s
}

/// Appends the decimal notation of `n` to `out`.
pub fn push_decimal(out: &mut String, n: u32)
    ensures
        final(out)@ == old(out)@ + decimal(n as nat),
    decreases n,
{
    if n >= 10 {
        push_decimal(out, n / 10);
    }
    out.append(digit_str(n % 10));
    assert(out@ =~= old(out)@ + decimal(n as nat));
}

/// The decimal notation of `n` as a string.
pub fn decimal_string(n: u32) -> (s: String)
    ensures
        s@ == decimal(n as nat),
{
    let mut s = String::new();
    push_decimal(&mut s, n);
    assert(s@ =~= decimal(n as nat));
    s
}

/// Whether two strings hold the same text.
pub fn str_eq(a: &str, b: &str) -> (same: bool)
    ensures
        same == (a@ == b@),
{
    broadcast use vstd::utf8::encode_utf8_decode_utf8;

    let x = a.as_bytes();
    let y = b.as_bytes();
    if x.len() != y.len() {
        return false;
    }
    let mut i: usize = 0;
    while i < x.len()
        invariant
            i <= x.len(),
            x.len() == y.len(),
            x@ == encode_utf8(a@),
            y@ == encode_utf8(b@),
            forall|k: int| 0 <= k < i ==> x@[k] == y@[k],
        decreases x.len() - i,
    {
        if x[i] != y[i] {
            return false;
        }
        i += 1;
    }
    assert(x@ =~= y@);
    assert(decode_utf8(encode_utf8(a@)) == a@);
    assert(decode_utf8(encode_utf8(b@)) == b@);
    true
}

/// Whether `start..end` is a range of bytes of the UTF-8 encoding of `text`
/// that begins and ends between two characters.
pub open spec fn span_fits(text: Seq<char>, start: int, end: int) -> bool {
    let bytes = encode_utf8(text);
    &&& 0 <= start <= end <= bytes.len()
    &&& is_char_boundary(bytes, start)
    &&& is_char_boundary(bytes, end)
}

/// The characters that the bytes `start..end` of the UTF-8 encoding of `text`
/// encode.
pub open spec fn text_slice(text: Seq<char>, start: int, end: int) -> Seq<char>
    recommends
        span_fits(text, start, end),
{
    decode_utf8(encode_utf8(text).subrange(start, end))
}

/// A position between two characters of a text is also one in every prefix of
/// the text that ends between two characters and reaches the position.
proof fn lemma_boundary_in_prefix(bytes: Seq<u8>, start: int, end: int)
    requires
        valid_utf8(bytes),
        0 <= start <= end <= bytes.len(),
        is_char_boundary(bytes, start),
        is_char_boundary(bytes, end),
    ensures
        valid_utf8(bytes.subrange(0, end)),
        is_char_boundary(bytes.subrange(0, end), start),
{
    let prefix = bytes.subrange(0, end);
    vstd::utf8::valid_utf8_split(bytes, end);
    if start < end {
        vstd::utf8::is_char_boundary_iff_not_is_continuation_byte(bytes, start);
        vstd::utf8::is_char_boundary_iff_not_is_continuation_byte(prefix, start);
    } else {
        vstd::utf8::is_char_boundary_start_end_of_seq(prefix);
    }
}

/// The whole of a text is a slice of it.
pub proof fn lemma_slice_whole(text: Seq<char>)
    ensures
        span_fits(text, 0, encode_utf8(text).len() as int),
        text_slice(text, 0, encode_utf8(text).len() as int) == text,
{
    let bytes = encode_utf8(text);
    vstd::utf8::encode_utf8_valid_utf8(text);
    vstd::utf8::is_char_boundary_start_end_of_seq(bytes);
    vstd::utf8::encode_utf8_decode_utf8(text);
    assert(bytes.subrange(0, bytes.len() as int) =~= bytes);
}

/// Two slices of a text of which the second begins where the first ends make
/// up the slice from the beginning of the first to the end of the second.
pub proof fn lemma_slices_join(text: Seq<char>, start: int, mid: int, end: int)
    requires
        span_fits(text, start, mid),
        span_fits(text, mid, end),
    ensures
        span_fits(text, start, end),
        text_slice(text, start, mid) + text_slice(text, mid, end) == text_slice(text, start, end),
{
    let bytes = encode_utf8(text);
    vstd::utf8::encode_utf8_valid_utf8(text);
    let head = bytes.subrange(0, end);
    lemma_boundary_in_prefix(bytes, start, end);
    lemma_boundary_in_prefix(bytes, mid, end);
    vstd::utf8::valid_utf8_split(head, start);
    let part = head.subrange(start, end);
    assert(part =~= bytes.subrange(start, end));
    if mid == start {
        vstd::utf8::is_char_boundary_start_end_of_seq(part);
    } else if mid == end {
        vstd::utf8::is_char_boundary_start_end_of_seq(part);
    } else {
        vstd::utf8::is_char_boundary_iff_not_is_continuation_byte(bytes, mid);
        vstd::utf8::is_char_boundary_iff_not_is_continuation_byte(part, mid - start);
    }
    vstd::utf8::decode_utf8_split(part, mid - start);
    assert(part.subrange(0, mid - start) =~= bytes.subrange(start, mid));
    assert(part.subrange(mid - start, part.len() as int) =~= bytes.subrange(mid, end));
}

/// The part of `text` that the bytes `start..end` of its UTF-8 encoding hold,
/// where that range begins and ends between two characters.
pub fn slice(text: &str, start: usize, end: usize) -> (piece: Option<&str>)
    ensures
        piece is Some <==> span_fits(text@, start as int, end as int),
        piece matches Some(p) ==> p@ == text_slice(text@, start as int, end as int),
{
    if start > end || !text.is_char_boundary(start) || !text.is_char_boundary(end) {
        return None;
    }
    let ghost bytes = encode_utf8(text@);
    proof {
        vstd::utf8::encode_utf8_valid_utf8(text@);
        lemma_boundary_in_prefix(bytes, start as int, end as int);
    }
    let (head, _) = text.split_at(end);
    let (_, piece) = head.split_at(start);
    proof {
        vstd::utf8::encode_utf8_decode_utf8(piece@);
        assert(piece.spec_bytes() =~= bytes.subrange(start as int, end as int));
    }
    Some(piece)
}

} // verus!
