//! Percent-encoding of path and URL segments, and the cache's additional
//! `%` to `+` rewrite.

use vstd::prelude::*;
use vstd::string::*;

verus! {

/// Characters that percent-encoding can produce: ASCII alphanumerics, the
/// four unreserved marks, and `%` itself (hex digits are alphanumerics).
pub open spec fn is_url_encoded_char(c: char) -> bool {
    ('0' <= c && c <= '9') || ('A' <= c && c <= 'Z') || ('a' <= c && c <= 'z') || c == '-' || c
        == '.' || c == '_' || c == '~' || c == '%'
}

/// What `urlencoding::encode` returns for a given string; the encoding is a
/// pure function of the characters alone.
pub uninterp spec fn percent_encoded(s: Seq<char>) -> Seq<char>;

/// Relies on `urlencoding::encode`: it percent-encodes every byte except
/// ASCII alphanumerics and `-`, `_`, `.`, `~`. Each input byte yields at
/// least one output character, and every output character is an unreserved
/// character, an alphanumeric or `%`.
#[verifier::external_body]
pub fn encode_str(s: &str) -> (r: String)
    ensures
        r@ == percent_encoded(s@),
        r@.len() >= s@.len(),
        forall|i: int| 0 <= i < r@.len() ==> is_url_encoded_char(#[trigger] r@[i]),
{
    urlencoding::encode(s).into_owned()
}

/// Every `%` replaced by `+`: the deliberate quirk the cache applies to
/// encoded segments, kept for compatibility with existing cache layouts.
pub open spec fn plus_rewrite(s: Seq<char>) -> Seq<char> {
    s.map(|_i: int, c: char| if c == '%' { '+' } else { c })
}

/// A character that an encoded-and-rewritten cache segment can contain:
/// never `%`, and in particular never a path separator.
pub open spec fn is_segment_char(c: char) -> bool {
    (is_url_encoded_char(c) && c != '%') || c == '+'
}

/// Percent-encodes one cache-key segment and applies the `%` to `+` rewrite.
pub fn encode_segment(s: &str) -> (r: String)
    ensures
        r@ == plus_rewrite(percent_encoded(s@)),
        r@.len() >= s@.len(),
        forall|i: int| 0 <= i < r@.len() ==> is_segment_char(#[trigger] r@[i]),
{
    let e = encode_str(s);
    let n = e.as_str().unicode_len();
    let mut out = String::new();
    let mut i: usize = 0;
    while i < n
        invariant
            0 <= i <= n,
            n == e@.len(),
            e@ == percent_encoded(s@),
            forall|k: int| 0 <= k < e@.len() ==> is_url_encoded_char(#[trigger] e@[k]),
            out@ =~= plus_rewrite(e@).subrange(0, i as int),
        decreases n - i,
    {
        let c = e.as_str().get_char(i);
        if c == '%' {
            out.push('+');
        } else {
            out.push(c);
        }
        assert(out@ =~= plus_rewrite(e@).subrange(0, i + 1));
        i += 1;
    }
    assert(out@ =~= plus_rewrite(e@));
    out
}

} // verus!
