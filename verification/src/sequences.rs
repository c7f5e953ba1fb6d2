//! Facts about sequences that are filtered and mapped in one pass.

use vstd::prelude::*;

verus! {

/// An item that the function keeps finds its image in the result.
pub proof fn lemma_filter_map_includes<A, B>(s: Seq<A>, f: spec_fn(A) -> Option<B>, k: int)
    requires
        0 <= k < s.len(),
        f(s[k]) is Some,
    ensures
        s.filter_map(f).contains(f(s[k])->0),
    decreases s.len(),
{
    let rest = s.drop_last();
    let image = f(s[k])->0;
    if k == s.len() - 1 {
        let kept = rest.filter_map(f) + seq![image];
        assert(kept[kept.len() - 1] == image);
    } else {
        lemma_filter_map_includes(rest, f, k);
        let at = rest.filter_map(f).index_of(image);
        assert(s.filter_map(f)[at] == image);
    }
}

/// Whatever is in the result is the image of an item that the function keeps.
pub proof fn lemma_filter_map_stems<A, B>(s: Seq<A>, f: spec_fn(A) -> Option<B>, image: B)
    requires
        s.filter_map(f).contains(image),
    ensures
        exists|k: int| 0 <= k < s.len() && f(#[trigger] s[k]) == Some(image),
{
    s.lemma_filter_map_contains(f, image);
}

} // verus!
