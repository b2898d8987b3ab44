//! Which of two lists of numbers is higher.

use crate::rank::is_higher;
use vstd::prelude::*;

verus! {

/// The first place at which two lists of one length differ decides, and there the greater number is
/// higher.
pub proof fn law_first_difference_decides(a: Seq<u64>, b: Seq<u64>, k: int)
    requires
        0 <= k < a.len(),
        k < b.len(),
        a.take(k) == b.take(k),
        a[k] != b[k],
    ensures
        is_higher(a, b) <==> a[k] > b[k],
        is_higher(b, a) <==> a[k] < b[k],
    decreases a.len(),
{
    if k > 0 {
        let x = a.drop_first();
        let y = b.drop_first();
        assert(a.take(k)[0] == a[0] && b.take(k)[0] == b[0]);
        assert forall|i: int| 0 <= i < k - 1 implies #[trigger] x[i] == y[i] by {
            assert(a.take(k)[i + 1] == a[i + 1] && b.take(k)[i + 1] == b[i + 1]);
        }
        assert(x.take(k - 1) =~= y.take(k - 1));
        law_first_difference_decides(x, y, k - 1);
        assert(x[k - 1] == a[k] && y[k - 1] == b[k]);
    }
}

/// No list is higher than itself; a list with more behind it is higher than it is without.
pub proof fn law_longer_is_higher(a: Seq<u64>, more: Seq<u64>)
    ensures
        !is_higher(a, a),
        !is_higher(a, a + more),
        more.len() > 0 ==> is_higher(a + more, a),
    decreases a.len(),
{
    if a.len() > 0 {
        law_longer_is_higher(a.drop_first(), more);
        assert((a + more).drop_first() =~= a.drop_first() + more);
    }
}

} // verus!
