//! Sorting SSA value ids.

use vstd::prelude::*;

verus! {

broadcast use vstd::seq_lib::group_seq_properties;

/// An SSA value id.
#[derive(Clone, Copy, Debug, PartialEq, Eq, PartialOrd, Ord, Hash, Structural)]
pub struct ValueId(pub u32);

/// Whether the ids are in ascending order.
pub open spec fn ids_sorted(s: Seq<ValueId>) -> bool {
    forall|i: int, j: int| 0 <= i <= j < s.len() ==> s[i].0 <= s[j].0
}

/// Sorts ids in ascending order.
pub fn sort_ssa_value_ids(ids: &mut [ValueId])
    ensures
        ids_sorted(final(ids)@),
        final(ids)@.to_multiset() == old(ids)@.to_multiset(),
{
    let n = ids.len();
    let mut i: usize = 1;
    if n == 0 {
        return;
    }
    while i < n
        invariant
            n == ids@.len(),
            1 <= i <= n,
            ids_sorted(ids@.take(i as int)),
            ids@.to_multiset() == old(ids)@.to_multiset(),
        decreases n - i,
    {
        let mut j: usize = i;
        assert forall|a: int, b: int| 0 <= a <= b <= i && a != j && b != j implies #[trigger] ids@[a].0
            <= #[trigger] ids@[b].0 by {
            assert(ids@.take(i as int)[a] == ids@[a]);
            assert(ids@.take(i as int)[b] == ids@[b]);
        }
        while j > 0 && ids[j - 1].0 > ids[j].0
            invariant
                n == ids@.len(),
                1 <= i < n,
                j <= i,
                ids@.to_multiset() == old(ids)@.to_multiset(),
                forall|a: int, b: int| 0 <= a <= b <= i && a != j && b != j ==> ids@[a].0 <= ids@[b].0,
                forall|a: int| j < a <= i ==> ids@[j as int].0 < ids@[a].0,
            decreases j,
        {
            let ghost before = ids@;
            let a = ids[j - 1];
            let b = ids[j];
            ids[j - 1] = b;
            ids[j] = a;
            proof {
                assert(ids@ == before.update(j - 1, b).update(j as int, a));
                assert(before.update(j - 1, b).to_multiset() == before.to_multiset().insert(b).remove(a));
                assert(before.update(j - 1, b).update(j as int, a).to_multiset()
                    == before.update(j - 1, b).to_multiset().insert(a).remove(b));
                assert(before.to_multiset().insert(b).remove(a).insert(a).remove(b) =~= before.to_multiset());
            }
            j = j - 1;
        }
        assert forall|a: int, b: int| 0 <= a <= b < i + 1 implies #[trigger] ids@[a].0 <= #[trigger] ids@[b].0 by {
            if a == j as int && b != j as int {
            } else if b == j as int && a != j as int {
                assert(ids@[a].0 <= ids@[j - 1].0);
            }
        }
        assert(ids_sorted(ids@.take(i + 1)));
        i = i + 1;
    }
    assert(ids@.take(n as int) =~= ids@);
}

} // verus!
