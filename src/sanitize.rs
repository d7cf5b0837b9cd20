//! Turning free text into a short, filesystem-safe file name fragment.

use vstd::prelude::*;

verus! {

/// Whether `char::is_alphanumeric` holds of a character: Unicode Alphabetic
/// or Numeric.
pub uninterp spec fn unicode_alnum(c: char) -> bool;

/// The ASCII letters and digits.
pub open spec fn ascii_alnum(c: char) -> bool {
    ('a' <= c && c <= 'z') || ('A' <= c && c <= 'Z') || ('0' <= c && c <= '9')
}

/// Whether a character is alphanumeric: on ASCII the letters and digits,
/// elsewhere as Unicode classifies it.
pub open spec fn alnum(c: char) -> bool {
    if (c as u32) < 128 {
        ascii_alnum(c)
    } else {
        unicode_alnum(c)
    }
}

/// Characters that may stand in a file name fragment unchanged.
pub open spec fn keeps(c: char) -> bool {
    alnum(c) || c == '-' || c == '_'
}

pub open spec fn safe_char(c: char) -> char {
    if keeps(c) {
        c
    } else {
        '_'
    }
}

/// The longest fragment taken from a title, counted in characters.
pub const MAX_FRAGMENT: usize = 30;

/// The first thirty characters of `s`, each unsafe one replaced by `_`.
pub open spec fn sanitized(s: Seq<char>) -> Seq<char> {
    let head = if s.len() <= MAX_FRAGMENT { s } else { s.take(MAX_FRAGMENT as int) };
    head.map_values(|c: char| safe_char(c))
}

/// Relies on `char::is_alphanumeric`: a fixed Unicode classification of the
/// character alone, which on ASCII holds of the letters and digits only.
#[verifier::external_body]
fn is_alphanumeric(c: char) -> (r: bool)
    ensures
        r == unicode_alnum(c),
        (c as u32) < 128 ==> r == ascii_alnum(c),
{
    c.is_alphanumeric()
}

/// Relies on `String::push`: the character is appended at the end.
#[verifier::external_body]
pub(crate) fn push_char(s: &mut String, c: char)
    ensures
        final(s)@ == old(s)@.push(c),
{
    s.push(c)
}

/// Maps a title to a file name fragment: at most thirty characters, each
/// alphanumeric, `-` or `_`.
pub fn sanitize_filename(title: &str) -> (r: String)
    ensures
        r@ == sanitized(title@),
{
    let n = title.unicode_len();
    let m: usize = if n <= MAX_FRAGMENT { n } else { MAX_FRAGMENT };
    let ghost head = if title@.len() <= MAX_FRAGMENT { title@ } else { title@.take(MAX_FRAGMENT as int) };
    let mut out = String::new();
    let mut i: usize = 0;
    while i < m
        invariant
            m == head.len(),
            m <= title@.len(),
            head == title@.take(m as int),
            i <= m,
            out@ == head.take(i as int).map_values(|c: char| safe_char(c)),
        decreases m - i,
    {
        let c = title.get_char(i);
        let kept = is_alphanumeric(c) || c == '-' || c == '_';
        let d = if kept { c } else { '_' };
        push_char(&mut out, d);
        i = i + 1;
        assert(head.take(i as int) =~= head.take(i - 1).push(c));
        assert(out@ =~= head.take(i as int).map_values(|c: char| safe_char(c)));
    }
    assert(head.take(m as int) =~= head);
    out
}

/// A sanitized title is at most thirty characters long and holds only
/// alphanumeric characters, `-` and `_`.
pub proof fn lemma_sanitized_is_safe(title: Seq<char>)
    ensures
        sanitized(title).len() <= MAX_FRAGMENT,
        forall|i: int| 0 <= i < sanitized(title).len() ==> keeps(#[trigger] sanitized(title)[i]),
{
}

/// Where no alphanumeric character outside ASCII stands among a title's
/// first thirty, its sanitized form holds only `A-Z`, `a-z`, `0-9`, `-` and
/// `_`.
pub proof fn lemma_sanitized_ascii(title: Seq<char>)
    requires
        forall|i: int|
            0 <= i < title.len() && i < MAX_FRAGMENT && (#[trigger] title[i] as u32) >= 128
                ==> !unicode_alnum(title[i]),
    ensures
        sanitized(title).len() <= MAX_FRAGMENT,
        forall|i: int|
            0 <= i < sanitized(title).len() ==> {
                let c = #[trigger] sanitized(title)[i];
                ascii_alnum(c) || c == '-' || c == '_'
            },
{
    assert forall|i: int| 0 <= i < sanitized(title).len() implies {
        let c = #[trigger] sanitized(title)[i];
        ascii_alnum(c) || c == '-' || c == '_'
    } by {
        assert(title[i] == if title.len() <= MAX_FRAGMENT { title } else { title.take(MAX_FRAGMENT as int) }[i]);
    }
}

} // verus!
