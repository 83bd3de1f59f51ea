//! Character classes and small helpers on texts.

use vstd::prelude::*;

verus! {

/// An ASCII decimal digit.
pub open spec fn ascii_digit(c: char) -> bool {
    '0' <= c <= '9'
}

/// An ASCII lower-case letter.
pub open spec fn ascii_lowercase(c: char) -> bool {
    'a' <= c <= 'z'
}

/// An ASCII upper-case letter.
pub open spec fn ascii_uppercase(c: char) -> bool {
    'A' <= c <= 'Z'
}

/// An ASCII letter or digit.
pub open spec fn ascii_alphanumeric(c: char) -> bool {
    ascii_digit(c) || ascii_lowercase(c) || ascii_uppercase(c)
}

/// An ASCII punctuation character: one of
/// ``! " # $ % & ' ( ) * + , - . / : ; < = > ? @ [ \ ] ^ _ ` { | } ~``.
pub open spec fn ascii_punctuation(c: char) -> bool {
    '!' <= c <= '/' || ':' <= c <= '@' || '[' <= c <= '`' || '{' <= c <= '~'
}

pub fn is_ascii_digit(c: char) -> (b: bool)
    ensures
        b == ascii_digit(c),
{
    '0' <= c && c <= '9'
}

pub fn is_ascii_lowercase(c: char) -> (b: bool)
    ensures
        b == ascii_lowercase(c),
{
    'a' <= c && c <= 'z'
}

pub fn is_ascii_uppercase(c: char) -> (b: bool)
    ensures
        b == ascii_uppercase(c),
{
    'A' <= c && c <= 'Z'
}

pub fn is_ascii_alphanumeric(c: char) -> (b: bool)
    ensures
        b == ascii_alphanumeric(c),
{
    is_ascii_digit(c) || is_ascii_lowercase(c) || is_ascii_uppercase(c)
}

pub fn is_ascii_punctuation(c: char) -> (b: bool)
    ensures
        b == ascii_punctuation(c),
{
    ('!' <= c && c <= '/') || (':' <= c && c <= '@') || ('[' <= c && c <= '`') || ('{' <= c && c
        <= '~')
}

/// Every character of `s` is an ASCII letter or digit.
pub open spec fn all_ascii_alphanumeric(s: Seq<char>) -> bool {
    forall|i: int| 0 <= i < s.len() ==> ascii_alphanumeric(#[trigger] s[i])
}

pub fn is_all_ascii_alphanumeric(s: &str) -> (b: bool)
    ensures
        b == all_ascii_alphanumeric(s@),
{
    let mut ok = true;
    for c in it: s.chars()
        invariant
            it.seq() == s@,
            ok == all_ascii_alphanumeric(s@.take(it.index() as int)),
    {
        proof {
            let seen = s@.take(it.index() as int);
            let next = s@.take(it.index() + 1);
            assert(next.len() == seen.len() + 1);
            assert(next[seen.len() as int] == c);
            assert forall|i: int| 0 <= i < seen.len() implies seen[i] == next[i] by {}
            if all_ascii_alphanumeric(next) {
                assert forall|i: int| 0 <= i < seen.len() implies ascii_alphanumeric(
                    #[trigger] seen[i],
                ) by {
                    assert(ascii_alphanumeric(next[i]));
                }
            }
        }
        if !is_ascii_alphanumeric(c) {
            ok = false;
        }
    }
    assert(s@.take(s@.len() as int) =~= s@);
    ok
}

/// `String::push` of the standard library: appends one character.
#[verifier::external_body]
pub(crate) fn push_char(s: &mut String, c: char)
    ensures
        final(s)@ == old(s)@.push(c),
{
    s.push(c)
}

/// Whether the two texts are the same, character for character.
pub fn same_text(a: &str, b: &str) -> (same: bool)
    ensures
        same == (a@ == b@),
{
    a.to_owned() == b.to_owned()
}

} // verus!
