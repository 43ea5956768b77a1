//! Small ambient facts about views.

use vstd::prelude::*;

verus! {

/// The deep view of a byte vector is its ordinary view.
pub broadcast proof fn lemma_bytes_deep_view(v: Vec<u8>)
    ensures
        #[trigger] v.deep_view() == v@,
{
    assert(v.deep_view() =~= v@);
}

} // verus!
