//! Comparisons of texts, stated over sequences of characters.

use vstd::prelude::*;
use vstd::string::StringExecFns;

verus! {

/// Whether `needle` occurs in `haystack` as a run of neighbouring
/// characters. The empty text occurs in every text.
pub open spec fn is_substring(haystack: Seq<char>, needle: Seq<char>) -> bool {
    exists|i: int|
        0 <= i && i + needle.len() <= haystack.len() && #[trigger] haystack.subrange(
            i,
            i + needle.len(),
        ) == needle
}

/// The texts of a sequence of strings, element by element.
pub open spec fn texts(strings: Seq<String>) -> Seq<Seq<char>> {
    strings.map_values(|s: String| s@)
}

/// The text behind an optional string slice.
pub open spec fn opt_text(value: Option<&str>) -> Option<Seq<char>> {
    match value {
        Some(s) => Some(s@),
        None => None,
    }
}

/// The text behind an optional string.
pub open spec fn opt_string_text(value: Option<String>) -> Option<Seq<char>> {
    match value {
        Some(s) => Some(s@),
        None => None,
    }
}

/// Trusted: `==` on two string slices holds exactly when they spell the same
/// characters.
#[verifier::external_body]
pub(crate) fn text_eq(a: &str, b: &str) -> (r: bool)
    ensures
        r == (a@ == b@),
{
    a == b
}

/// Trusted: `str::contains` with a string slice as its pattern tells whether
/// the pattern occurs somewhere in the text.
#[verifier::external_body]
pub(crate) fn text_contains(haystack: &str, needle: &str) -> (r: bool)
    ensures
        r == is_substring(haystack@, needle@),
{
    haystack.contains(needle)
}

/// Whether one of `candidates` spells the same characters as `wanted`.
pub fn texts_contain(candidates: &Vec<String>, wanted: &str) -> (r: bool)
    ensures
        r == texts(candidates@).contains(wanted@),
{
    let mut i: usize = 0;
    while i < candidates.len()
        invariant
            i <= candidates.len(),
            forall|j: int| 0 <= j < i ==> texts(candidates@)[j] != wanted@,
        decreases candidates.len() - i,
    {
        if text_eq(candidates[i].as_str(), wanted) {
            assert(texts(candidates@)[i as int] == wanted@);
            return true;
        }
        i += 1;
    }
    false
}

/// An owned copy of every string, in order.
pub fn copy_texts(source: &Vec<String>) -> (r: Vec<String>)
    ensures
        texts(r@) == texts(source@),
{
    let mut out: Vec<String> = Vec::new();
    let mut i: usize = 0;
    while i < source.len()
        invariant
            i <= source.len(),
            out.len() == i,
            forall|j: int| 0 <= j < i ==> out@[j]@ == source@[j]@,
        decreases source.len() - i,
    {
        out.push(source[i].clone());
        i += 1;
    }
    assert(texts(out@) =~= texts(source@));
    out
}

/// The three texts written one after the other.
pub fn join3(a: &str, b: &str, c: &str) -> (r: String)
    ensures
        r@ == a@ + b@ + c@,
{
    a.to_owned().concat(b).concat(c)
}

} // verus!
