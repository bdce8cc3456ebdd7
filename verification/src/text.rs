//! Comparing pieces of text.
use vstd::prelude::*;

verus! {

/// Whether two pieces of text hold the same characters.
///
/// Stands for `==` on `str` of the standard library, which compares the two
/// strings' contents.
#[verifier::external_body]
pub(crate) fn same_text(a: &str, b: &str) -> (same: bool)
    ensures
        same == (a@ == b@),
{
    a == b
}

/// The model of an optional piece of text.
pub open spec fn opt_text(o: Option<String>) -> Option<Seq<char>> {
    match o {
        Some(s) => Some(s@),
        None => None,
    }
}

/// The models of a run of pieces of text.
pub open spec fn texts_of(items: Seq<String>) -> Seq<Seq<char>> {
    Seq::new(items.len(), |i: int| items[i]@)
}

/// A copy of an optional piece of text.
pub(crate) fn copy_opt_text(o: &Option<String>) -> (r: Option<String>)
    ensures
        opt_text(r) == opt_text(*o),
{
    match o {
        Some(s) => Some(s.clone()),
        None => None,
    }
}

/// A copy of a run of pieces of text.
pub(crate) fn copy_texts(xs: &Vec<String>) -> (out: Vec<String>)
    ensures
        texts_of(out@) == texts_of(xs@),
{
    let mut out: Vec<String> = Vec::new();
    let mut i: usize = 0;
    while i < xs.len()
        invariant
            i <= xs.len(),
            out@.len() == i,
            forall|j: int| 0 <= j < i ==> (#[trigger] out@[j])@ == xs@[j]@,
        decreases xs.len() - i,
    {
        out.push(xs[i].clone());
        i += 1;
    }
    proof {
        assert(texts_of(out@) =~= texts_of(xs@));
    }
    out
}

/// A copy of a run of plain values.
pub(crate) fn copy_plain<T: Copy>(xs: &Vec<T>) -> (out: Vec<T>)
    ensures
        out@ == xs@,
{
    let mut out: Vec<T> = Vec::new();
    let mut i: usize = 0;
    while i < xs.len()
        invariant
            i <= xs.len(),
            out@.len() == i,
            forall|j: int| 0 <= j < i ==> (#[trigger] out@[j]) == xs@[j],
        decreases xs.len() - i,
    {
        out.push(xs[i]);
        i += 1;
    }
    proof {
        assert(out@ =~= xs@);
    }
    out
}

} // verus!
