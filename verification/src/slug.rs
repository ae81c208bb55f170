use vstd::prelude::*;

use kourain_core::ToSlug;

use crate::text::{chars_between, chars_of, string_from_chars};

verus! {

/// What `ToSlug::to_slug` of `kourain_core` makes of the text `s`.
pub uninterp spec fn slug_of(s: Seq<char>) -> Seq<char>;

/// A character that a slug may hold: `a`-`z`, `0`-`9` or `-`.
pub open spec fn is_slug_char(c: char) -> bool {
    ('a' <= c && c <= 'z') || ('0' <= c && c <= '9') || c == '-'
}

/// The characters of `s` from index `start` on, at most `size` of them
/// (what `ToSlug::sub_string` gives).
pub open spec fn char_window(s: Seq<char>, start: int, size: int) -> Seq<char> {
    let lo = if start < s.len() { start } else { s.len() as int };
    let hi = if start + size < s.len() { start + size } else { s.len() as int };
    s.subrange(lo, hi)
}

/// The key under which a file's conversion is tracked: the slug of its
/// file stem, cut to its first 50 characters.
pub open spec fn progress_key_of(stem: Seq<char>) -> Seq<char> {
    char_window(slug_of(stem), 0, 50)
}

/// `ToSlug::to_slug` of `kourain_core` on a string slice.
/// Trusted: the result is `slug_of` the text, and every character of it is
/// `a`-`z`, `0`-`9` or `-` (the crate's source keeps no other character,
/// the separator being `-`).
#[verifier::external_body]
fn to_slug(s: &str) -> (r: String)
    ensures
        r@ == slug_of(s@),
        forall|i: int| 0 <= i < r@.len() ==> is_slug_char(#[trigger] r@[i]),
{
    s.to_slug()
}

/// The window of at most `size` characters of `s` from `start` on, as
/// `char_window` states (what `ToSlug::sub_string` of `kourain_core`
/// computes with `chars().skip(start).take(size)`).
fn sub_string(s: &str, start: usize, size: usize) -> (r: String)
    ensures
        r@ == char_window(s@, start as int, size as int),
{
    let cs = chars_of(s);
    let n = cs.len();
    let lo = if start < n { start } else { n };
    let hi = if start < n && size < n - start { start + size } else { n };
    let w = chars_between(cs.as_slice(), lo, hi);
    string_from_chars(w.as_slice())
}

/// The key under which the conversion of a file with stem `stem` is tracked.
pub fn progress_key(stem: &str) -> (k: String)
    ensures
        k@ == progress_key_of(stem@),
        k@.len() <= 50,
        forall|i: int| 0 <= i < k@.len() ==> is_slug_char(#[trigger] k@[i]),
{
    let slug = to_slug(stem);
    let k = sub_string(slug.as_str(), 0, 50);
    assert forall|i: int| 0 <= i < k@.len() implies is_slug_char(#[trigger] k@[i]) by {
        assert(k@[i] == slug@[i]);
    }
    k
}

/// The key cut to its first 50 characters, as the converting view does
/// again with a key it reads back.
pub fn key_prefix(key: &str) -> (k: String)
    ensures
        k@ == char_window(key@, 0, 50),
{
    sub_string(key, 0, 50)
}

} // verus!
