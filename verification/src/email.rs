use vstd::prelude::*;
use crate::digest::{sha256_digest, sha256_of};
use vstd::utf8::encode_utf8;

verus! {

/// What `str::trim` returns: the character sequence with leading and
/// trailing whitespace removed.
pub uninterp spec fn trimmed_of(s: Seq<char>) -> Seq<char>;

/// The Unicode `White_Space` property, which `char::is_whitespace` decides:
/// the twenty-five code points the Unicode character database lists.
pub open spec fn is_unicode_whitespace(c: char) -> bool {
    let u = c as u32;
    ||| (0x09 <= u && u <= 0x0D)
    ||| u == 0x20
    ||| u == 0x85
    ||| u == 0xA0
    ||| u == 0x1680
    ||| (0x2000 <= u && u <= 0x200A)
    ||| u == 0x2028
    ||| u == 0x2029
    ||| u == 0x202F
    ||| u == 0x205F
    ||| u == 0x3000
}

/// Relies on `str::trim`: strips leading and trailing Unicode whitespace, a
/// function of the characters alone; the result is never longer than the
/// input, and a string whose ends are not whitespace comes back unchanged.
#[verifier::external_body]
pub fn trim_str<'a>(s: &'a str) -> (r: &'a str)
    ensures
        r@ == trimmed_of(s@),
        r@.len() <= s@.len(),
        s@.len() == 0 ==> r@ == s@,
        s@.len() > 0 && !is_unicode_whitespace(s@[0]) && !is_unicode_whitespace(
            s@[s@.len() - 1],
        ) ==> r@ == s@,
{
    s.trim()
}

/// ASCII lowercase of one character: 'A' through 'Z' map to their lowercase
/// counterparts; every other character is unchanged.
pub open spec fn ascii_lower_char(c: char) -> char {
    if 65 <= c as u32 && c as u32 <= 90 {
        ((c as u8) + 32) as char
    } else {
        c
    }
}

/// ASCII lowercase of a character sequence, applied pointwise.
pub open spec fn lower_chars(s: Seq<char>) -> Seq<char> {
    s.map_values(|c: char| ascii_lower_char(c))
}

/// Relies on `str::to_ascii_lowercase`: maps 'A' through 'Z' to their
/// lowercase counterparts and leaves every other character unchanged.
#[verifier::external_body]
pub fn ascii_lowercase(s: &str) -> (r: String)
    ensures
        r@ == lower_chars(s@),
{
    s.to_ascii_lowercase()
}

/// The canonical form of a guardian email: whitespace-trimmed, then
/// ASCII-lowercased. Two emails identify the same guardian exactly when
/// their canonical forms are equal.
pub open spec fn canonical_email_spec(email: Seq<char>) -> Seq<char> {
    lower_chars(trimmed_of(email))
}

/// Canonicalizes an email address for uniqueness checks and hashing.
pub fn canonical_email(email: &str) -> (r: String)
    ensures
        r@ == canonical_email_spec(email@),
{
    let t = trim_str(email);
    ascii_lowercase(t)
}

/// The digest recorded for a guardian: SHA-256 over the UTF-8 bytes of the
/// canonical email.
pub open spec fn email_hash_spec(email: Seq<char>) -> Seq<u8> {
    sha256_of(encode_utf8(canonical_email_spec(email)))
}

/// Hashes an email address to its 32-byte guardian identifier.
pub fn hash_email(email: &str) -> (r: Vec<u8>)
    ensures
        r@ == email_hash_spec(email@),
        r@.len() == 32,
{
    let canonical = canonical_email(email);
    sha256_digest(canonical.as_str().as_bytes())
}

} // verus!
