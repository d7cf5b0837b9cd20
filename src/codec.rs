//! Image payloads: text in base64, optionally behind a data-URI scheme tag.

use vstd::prelude::*;
use crate::entry::StoreError;

verus! {

#[verifier::external_type_specification]
#[verifier::external_body]
pub struct ExDecodeError(base64::DecodeError);

/// The bytes that base64's standard engine (RFC 4648 alphabet, with padding)
/// decodes from a text, or `None` where it refuses the text.
pub uninterp spec fn base64_standard(s: Seq<char>) -> Option<Seq<u8>>;

/// Relies on `base64::Engine::decode` with `general_purpose::STANDARD`: a
/// function of the text alone, either the bytes or an error.
#[verifier::external_body]
fn decode_standard(s: &str) -> (r: Result<Vec<u8>, base64::DecodeError>)
    ensures
        match r {
            Ok(b) => base64_standard(s@) == Some(b@),
            Err(_) => base64_standard(s@) is None,
        },
{
    base64::Engine::decode(&base64::engine::general_purpose::STANDARD, s)
}

pub open spec fn starts_with(s: Seq<char>, p: Seq<char>) -> bool {
    p.len() <= s.len() && s.take(p.len() as int) == p
}

/// `s` with every leading repetition of `p` removed.
pub open spec fn trim_leading(s: Seq<char>, p: Seq<char>) -> Seq<char>
    decreases s.len(),
{
    if p.len() > 0 && starts_with(s, p) {
        trim_leading(s.skip(p.len() as int), p)
    } else {
        s
    }
}

/// The payload with the PNG, JPEG, GIF and WEBP scheme tags removed, in
/// that order.
pub open spec fn without_scheme(s: Seq<char>) -> Seq<char> {
    trim_leading(
        trim_leading(
            trim_leading(trim_leading(s, "data:image/png;base64,"@), "data:image/jpeg;base64,"@),
            "data:image/gif;base64,"@,
        ),
        "data:image/webp;base64,"@,
    )
}

fn has_prefix(s: &str, p: &str) -> (r: bool)
    ensures
        r == starts_with(s@, p@),
{
    let n = s.unicode_len();
    let k = p.unicode_len();
    if k > n {
        return false;
    }
    let mut i: usize = 0;
    while i < k
        invariant
            k == p@.len(),
            n == s@.len(),
            k <= n,
            i <= k,
            s@.take(i as int) == p@.take(i as int),
        decreases k - i,
    {
        if s.get_char(i) != p.get_char(i) {
            assert(s@.take(k as int)[i as int] != p@[i as int]);
            return false;
        }
        assert(s@.take(i + 1) =~= s@.take(i as int).push(s@[i as int]));
        assert(p@.take(i + 1) =~= p@.take(i as int).push(p@[i as int]));
        i = i + 1;
    }
    assert(p@.take(k as int) =~= p@);
    true
}

fn trim_all<'a>(s: &'a str, p: &str) -> (r: &'a str)
    ensures
        r@ == trim_leading(s@, p@),
{
    let k = p.unicode_len();
    if k == 0 {
        return s;
    }
    let mut cur: &'a str = s;
    while has_prefix(cur, p)
        invariant
            k == p@.len(),
            k > 0,
            trim_leading(cur@, p@) == trim_leading(s@, p@),
        decreases cur@.len(),
    {
        let n = cur.unicode_len();
        cur = cur.substring_char(k, n);
    }
    cur
}

/// Removes a leading data-URI scheme tag of a PNG, JPEG, GIF or WEBP image.
pub fn strip_image_scheme(s: &str) -> (r: &str)
    ensures
        r@ == without_scheme(s@),
{
    let a = trim_all(s, "data:image/png;base64,");
    let b = trim_all(a, "data:image/jpeg;base64,");
    let c = trim_all(b, "data:image/gif;base64,");
    trim_all(c, "data:image/webp;base64,")
}

/// Decodes an image payload into its bytes, after removing a scheme tag.
pub fn base64_decode(s: &str) -> (r: Result<Vec<u8>, StoreError>)
    ensures
        match base64_standard(without_scheme(s@)) {
            Some(b) => r is Ok && r->Ok_0@ == b,
            None => r == Err::<Vec<u8>, StoreError>(StoreError::Decoding),
        },
{
    let body = strip_image_scheme(s);
    match decode_standard(body) {
        Ok(b) => Ok(b),
        Err(_) => Err(StoreError::Decoding),
    }
}

} // verus!
