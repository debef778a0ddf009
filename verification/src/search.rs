//! The first place in a sequence where something holds.

use vstd::prelude::*;

verus! {

/// The position of the first item of `s` of which `holds` is true, or
/// `s.len()` where there is none.
pub open spec fn first_where<A>(s: Seq<A>, holds: spec_fn(A) -> bool) -> int
    decreases s.len(),
{
    if s.len() == 0 || holds(s[0]) {
        0
    } else {
        1 + first_where(s.drop_first(), holds)
    }
}

/// `first_where` lies within `0..=s.len()`, `holds` is false of every item
/// before it, and where it lies inside `s` it points at an item of which
/// `holds` is true.
pub proof fn lemma_first_where<A>(s: Seq<A>, holds: spec_fn(A) -> bool)
    ensures
        0 <= first_where(s, holds) <= s.len(),
        forall|j: int| 0 <= j < first_where(s, holds) ==> !holds(#[trigger] s[j]),
        first_where(s, holds) < s.len() ==> holds(s[first_where(s, holds)]),
    decreases s.len(),
{
    if s.len() > 0 && !holds(s[0]) {
        let rest = s.drop_first();
        lemma_first_where(rest, holds);
        assert forall|j: int| 0 <= j < first_where(s, holds) implies !holds(#[trigger] s[j]) by {
            if j > 0 {
                assert(s[j] == rest[j - 1]);
            }
        }
    }
}

/// A position with no item before it of which `holds` is true, that is
/// either the end of `s` or such an item, is the one that `first_where`
/// names.
pub proof fn lemma_first_where_unique<A>(s: Seq<A>, holds: spec_fn(A) -> bool, at: int)
    requires
        0 <= at <= s.len(),
        forall|j: int| 0 <= j < at ==> !holds(#[trigger] s[j]),
        at < s.len() ==> holds(s[at]),
    ensures
        first_where(s, holds) == at,
{
    lemma_first_where(s, holds);
}

} // verus!
