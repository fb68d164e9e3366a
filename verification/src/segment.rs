use vstd::prelude::*;

use unicode_segmentation::UnicodeSegmentation;

verus! {

/// The grapheme clusters of a string, in order: the result of segmenting the
/// characters into extended grapheme clusters. Only the trusted wrapper below
/// says anything about this name; the rest of the crate reasons from its
/// contract.
pub uninterp spec fn clusters_of(s: Seq<char>) -> Seq<Seq<char>>;

/// Relies on unicode_segmentation's `graphemes(true)`: it yields the extended
/// grapheme clusters of the string as consecutive non-empty subslices, in
/// order, covering the whole string.
#[verifier::external_body]
pub fn split_clusters(s: &str) -> (r: Vec<String>)
    ensures
        r.deep_view() == clusters_of(s@),
        r.deep_view().flatten() == s@,
        forall|i: int| 0 <= i < r@.len() ==> r@[i]@.len() > 0,
{
    s.graphemes(true).map(|g: &str| g.to_string()).collect()
}

} // verus!
