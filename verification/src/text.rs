//! Text as the library reads it: byte lengths and byte slices of UTF-8
//! strings, and messages built from pieces of text.

use vstd::prelude::*;
use vstd::utf8::{decode_utf8, encode_utf8, is_char_boundary};
use vstd::string::StringSliceAdditionalSpecFns;

verus! {

broadcast use vstd::utf8::encode_utf8_decode_utf8;

/// The length in bytes of the UTF-8 encoding of `s` (what `str::len` gives).
pub open spec fn utf8_len(s: Seq<char>) -> int {
    encode_utf8(s).len() as int
}

/// Whether byte offset `i` of the encoding of `s` starts a character or
/// ends the text, so that the text may be cut there.
pub open spec fn splits_at(s: Seq<char>, i: int) -> bool {
    is_char_boundary(encode_utf8(s), i)
}

/// The characters of the bytes `from..to` of the encoding of `s`: what
/// `&s[from..to]` gives where both ends are character boundaries.
pub open spec fn byte_slice(s: Seq<char>, from: int, to: int) -> Seq<char> {
    decode_utf8(encode_utf8(s).subrange(from, to))
}

/// The view of a `str` is the decoding of its bytes.
pub proof fn lemma_view_from_bytes(s: &str)
    ensures
        s@ == decode_utf8(s.spec_bytes()),
{
}

/// Cuts `s` at byte `mid`, which must start a character or be the end.
pub fn split_text(s: &str, mid: usize) -> (res: (&str, &str))
    requires
        mid <= utf8_len(s@),
        splits_at(s@, mid as int),
    ensures
        res.0@ == byte_slice(s@, 0, mid as int),
        res.1@ == byte_slice(s@, mid as int, utf8_len(s@)),
{
    let res = s.split_at(mid);
    proof {
        lemma_view_from_bytes(res.0);
        lemma_view_from_bytes(res.1);
    }
    res
}

/// The length in bytes of `s`, as `str::len` gives it.
pub fn byte_len(s: &str) -> (n: usize)
    ensures
        n == utf8_len(s@),
{
    s.as_bytes().len()
}

/// `char::to_string`: the text of one character.
#[verifier::external_body]
pub(crate) fn char_text(c: char) -> (res: String)
    ensures
        res@ == seq![c],
{
    c.to_string()
}

/// The concatenation of two texts.
pub fn concat2(a: &str, b: &str) -> (res: String)
    ensures
        res@ == a@ + b@,
{
    let mut res = a.to_owned();
    res.append(b);
    res
}

/// The concatenation of four texts.
pub fn concat4(a: &str, b: &str, c: &str, d: &str) -> (res: String)
    ensures
        res@ == a@ + b@ + c@ + d@,
{
    let mut res = a.to_owned();
    res.append(b);
    res.append(c);
    res.append(d);
    res
}

} // verus!
