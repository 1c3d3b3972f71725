//! Conversion of wire bytes to text. Every string a decoder returns is the
//! lossy UTF-8 reading of a token cut out of the datagram; the token itself is
//! what the contracts reason about, and `lossy_of` names its textual form.

use vstd::prelude::*;

verus! {

/// The character sequence that lossy UTF-8 decoding yields for `s`. The
/// result is a function of the bytes alone: invalid sequences become
/// replacement characters, valid ones decode exactly.
pub uninterp spec fn lossy_of(s: Seq<u8>) -> Seq<char>;

/// The lossy readings of a list of byte tokens, in order.
pub open spec fn lossy_all(ts: Seq<Seq<u8>>) -> Seq<Seq<char>> {
    ts.map_values(|t: Seq<u8>| lossy_of(t))
}

/// Relies on String::from_utf8_lossy: the result depends on the bytes alone,
/// and bytes that are valid UTF-8 decode to exactly their UTF-8 reading.
#[verifier::external_body]
pub(crate) fn bytes_to_string(b: &[u8]) -> (r: String)
    ensures
        r@ == lossy_of(b@),
        vstd::utf8::valid_utf8(b@) ==> r@ == vstd::utf8::decode_utf8(b@),
{
    String::from_utf8_lossy(b).into_owned()
}

/// Converts each byte token to its lossy textual form, in order.
pub(crate) fn tokens_to_strings(tokens: &Vec<Vec<u8>>) -> (r: Vec<String>)
    ensures
        r@.len() == tokens@.len(),
        forall|i: int| 0 <= i < r@.len() ==> #[trigger] r@[i]@ == lossy_of(tokens@[i]@),
{
    let n = tokens.len();
    let mut r: Vec<String> = Vec::new();
    let mut i: usize = 0;
    while i < n
        invariant
            n == tokens@.len(),
            i <= n,
            r@.len() == i,
            forall|j: int| 0 <= j < i ==> #[trigger] r@[j]@ == lossy_of(tokens@[j]@),
        decreases n - i,
    {
        let s = bytes_to_string(tokens[i].as_slice());
        r.push(s);
        i += 1;
    }
    r
}

} // verus!
