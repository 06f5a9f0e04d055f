//! Text predicates the pollers rely on, and the standard-library calls that
//! decide them.

use vstd::prelude::*;

verus! {

/// Whether `needle` occurs in `haystack` as one contiguous stretch.
pub open spec fn occurs_in(needle: Seq<char>, haystack: Seq<char>) -> bool {
    exists|start: int|
        0 <= start && start + needle.len() <= haystack.len() && #[trigger] haystack.subrange(
            start,
            start + needle.len(),
        ) == needle
}

/// A character with the ASCII capitals `A` to `Z` mapped to `a` to `z`, as a
/// code point.
pub open spec fn ascii_fold(c: char) -> u32 {
    if 0x41 <= c as u32 && c as u32 <= 0x5a {
        (c as u32 + 0x20) as u32
    } else {
        c as u32
    }
}

/// Whether two texts are equal up to the case of their ASCII letters.
pub open spec fn same_ignoring_ascii_case(a: Seq<char>, b: Seq<char>) -> bool {
    &&& a.len() == b.len()
    &&& forall|i: int| 0 <= i < a.len() ==> ascii_fold(#[trigger] a[i]) == ascii_fold(b[i])
}

/// `str::contains` with a string pattern. The standard library documents it
/// as true exactly when the pattern matches a sub-slice of the text; the
/// contract says the same of the two texts' characters.
#[verifier::external_body]
pub(crate) fn contains(haystack: &str, needle: &str) -> (found: bool)
    ensures
        found == occurs_in(needle@, haystack@),
{
    haystack.contains(needle)
}

/// `str::eq_ignore_ascii_case`. The standard library documents it as the
/// comparison of the two texts after mapping `A` to `Z` to lower case, all
/// other characters left as they are; the contract says the same.
#[verifier::external_body]
pub(crate) fn eq_ignore_ascii_case(a: &str, b: &str) -> (same: bool)
    ensures
        same == same_ignoring_ascii_case(a@, b@),
{
    a.eq_ignore_ascii_case(b)
}

/// An optional list of texts as a view.
pub open spec fn view_texts(list: Option<Vec<String>>) -> Option<Seq<Seq<char>>> {
    match list {
        Some(list) => Some(list.deep_view()),
        None => None,
    }
}

/// The texts of `list`, copied.
pub fn copy_texts(list: &Vec<String>) -> (copy: Vec<String>)
    ensures
        copy.deep_view() == list.deep_view(),
{
    let mut copy: Vec<String> = Vec::new();
    let mut i: usize = 0;
    while i < list.len()
        invariant
            i <= list.len(),
            copy.len() == i,
            copy.deep_view() == list.deep_view().subrange(0, i as int),
        decreases list.len() - i,
    {
        copy.push(list[i].clone());
        i = i + 1;
        assert(copy.deep_view() =~= list.deep_view().subrange(0, i as int));
    }
    assert(list.deep_view().subrange(0, i as int) =~= list.deep_view());
    copy
}

/// The texts of an optional list, copied.
pub fn copy_optional_texts(list: &Option<Vec<String>>) -> (copy: Option<Vec<String>>)
    ensures
        view_texts(copy) == view_texts(*list),
{
    match list {
        Some(list) => Some(copy_texts(list)),
        None => None,
    }
}

} // verus!
