//! Matching of ASCII tokens without regard to case.

use vstd::prelude::*;

verus! {

/// `c` with an ASCII capital turned into its small letter.
pub open spec fn ascii_lower(c: char) -> char {
    if 'A' <= c && c <= 'Z' {
        ((c as u8) + 32) as char
    } else {
        c
    }
}

pub fn to_ascii_lower(c: char) -> (r: char)
    ensures
        r == ascii_lower(c),
{
    if 'A' <= c && c <= 'Z' {
        let b: u8 = c as u8;
        (b + 32) as char
    } else {
        c
    }
}

/// Two texts that differ at most in the case of their ASCII letters.
pub open spec fn same_ignoring_case(a: Seq<char>, b: Seq<char>) -> bool {
    &&& a.len() == b.len()
    &&& forall|i: int| 0 <= i < a.len() ==> ascii_lower(#[trigger] a[i]) == ascii_lower(b[i])
}

pub fn eq_ignore_ascii_case(a: &str, b: &str) -> (r: bool)
    ensures
        r == same_ignoring_case(a@, b@),
{
    let n = a.unicode_len();
    if n != b.unicode_len() {
        return false;
    }
    let mut i: usize = 0;
    while i < n
        invariant
            i <= n,
            n == a@.len(),
            n == b@.len(),
            forall|j: int| 0 <= j < i ==> ascii_lower(#[trigger] a@[j]) == ascii_lower(b@[j]),
        decreases n - i,
    {
        if to_ascii_lower(a.get_char(i)) != to_ascii_lower(b.get_char(i)) {
            return false;
        }
        i += 1;
    }
    true
}

/// Bytes that spell `token`, one byte to the character, without regard to
/// the case of ASCII letters.
pub open spec fn bytes_spell(bytes: Seq<u8>, token: Seq<char>) -> bool {
    &&& bytes.len() == token.len()
    &&& forall|i: int|
        0 <= i < bytes.len() ==> ascii_lower((#[trigger] bytes[i]) as char) == ascii_lower(
            token[i],
        )
}

pub fn bytes_eq_ignore_ascii_case(bytes: &[u8], token: &str) -> (r: bool)
    ensures
        r == bytes_spell(bytes@, token@),
{
    let n = bytes.len();
    if n != token.unicode_len() {
        return false;
    }
    let mut i: usize = 0;
    while i < n
        invariant
            i <= n,
            n == bytes@.len(),
            n == token@.len(),
            forall|j: int|
                0 <= j < i ==> ascii_lower((#[trigger] bytes@[j]) as char) == ascii_lower(
                    token@[j],
                ),
        decreases n - i,
    {
        if to_ascii_lower(bytes[i] as char) != to_ascii_lower(token.get_char(i)) {
            return false;
        }
        i += 1;
    }
    true
}


/// The text that bytes stand for when they are read as UTF-8 and every
/// run that is no UTF-8 is replaced by U+FFFD.
pub uninterp spec fn utf8_lossy(bytes: Seq<u8>) -> Seq<char>;

/// `String::from_utf8_lossy` of std: the text of the bytes, with U+FFFD in
/// place of what is no UTF-8. The contract only names that text.
#[verifier::external_body]
pub(crate) fn string_from_utf8_lossy(bytes: &[u8]) -> (r: String)
    ensures
        r@ == utf8_lossy(bytes@),
{
    String::from_utf8_lossy(bytes).into_owned()
}

} // verus!
