//! Concrete syntax trees as plain values, and the text that a node's byte
//! range covers in the source it was parsed from.
use vstd::prelude::*;
use vstd::string::*;
use vstd::utf8::*;

verus! {

broadcast use {encode_utf8_valid_utf8, encode_utf8_decode_utf8, is_char_boundary_start_end_of_seq};

/// A node of a concrete syntax tree: its kind, whether it is named, its byte
/// range and its (zero-based) row/column positions, and its children in order.
#[derive(Debug)]
pub struct SyntaxNode {
    pub kind: String,
    pub named: bool,
    pub start_byte: usize,
    pub end_byte: usize,
    pub start_row: usize,
    pub start_col: usize,
    pub end_row: usize,
    pub end_col: usize,
    pub children: Vec<SyntaxNode>,
}

/// The UTF-8 bytes of a text.
pub open spec fn bytes_of(s: Seq<char>) -> Seq<u8> {
    encode_utf8(s)
}

/// Whether `[start, end)` is a byte range of `s` that begins and ends on
/// character boundaries.
pub open spec fn byte_range_ok(s: Seq<char>, start: int, end: int) -> bool {
    &&& 0 <= start <= end <= bytes_of(s).len()
    &&& is_char_boundary(bytes_of(s), start)
    &&& is_char_boundary(bytes_of(s), end)
}

/// The characters whose encodings lie in the byte range `[start, end)` of `s`.
pub open spec fn byte_text(s: Seq<char>, start: int, end: int) -> Seq<char> {
    decode_utf8(bytes_of(s).subrange(start, end))
}

/// The text of a byte range, if the range is well placed in `s`.
pub open spec fn range_text(s: Seq<char>, start: int, end: int) -> Option<Seq<char>> {
    if byte_range_ok(s, start, end) {
        Some(byte_text(s, start, end))
    } else {
        None
    }
}

/// The source text a node covers.
pub open spec fn node_text(s: Seq<char>, n: SyntaxNode) -> Option<Seq<char>> {
    range_text(s, n.start_byte as int, n.end_byte as int)
}

proof fn lemma_boundary_in_suffix(bytes: Seq<u8>, a: int, b: int)
    requires
        valid_utf8(bytes),
        0 <= a <= b <= bytes.len(),
        is_char_boundary(bytes, a),
        is_char_boundary(bytes, b),
    ensures
        valid_utf8(bytes.subrange(a, bytes.len() as int)),
        is_char_boundary(bytes.subrange(a, bytes.len() as int), b - a),
{
    let rest = bytes.subrange(a, bytes.len() as int);
    valid_utf8_split(bytes, a);
    if b == a {
    } else if b == bytes.len() {
        is_char_boundary_start_end_of_seq(rest);
    } else {
        is_char_boundary_iff_not_is_continuation_byte(bytes, b);
        is_char_boundary_iff_not_is_continuation_byte(rest, b - a);
        assert(rest[b - a] == bytes[b]);
    }
}

/// The text of the byte range `[start, end)` of `source` (`&source[start..end]`),
/// or `None` where that slice would not be valid.
pub fn text_of(source: &str, start: usize, end: usize) -> (r: Option<String>)
    ensures
        match r {
            Some(t) => range_text(source@, start as int, end as int) == Some(t@),
            None => range_text(source@, start as int, end as int) is None,
        },
{
    let n = source.as_bytes().len();
    if start > end || end > n {
        return None;
    }
    if !source.is_char_boundary(start) || !source.is_char_boundary(end) {
        return None;
    }
    let ghost bytes = source.spec_bytes();
    proof {
        lemma_boundary_in_suffix(bytes, start as int, end as int);
    }
    let (_, rest) = source.split_at(start);
    let (mid, _) = rest.split_at(end - start);
    proof {
        assert(mid.spec_bytes() =~= bytes.subrange(start as int, end as int));
        assert(decode_utf8(mid.spec_bytes()) == mid@);
    }
    Some(mid.to_owned())
}

} // verus!
