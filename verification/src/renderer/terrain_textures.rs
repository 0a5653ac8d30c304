use vstd::prelude::*;

verus! {

/// `s` is in ascending order.
pub open spec fn ascending(s: Seq<u32>) -> bool {
    forall|a: int, b: int| 0 <= a < b < s.len() ==> s[a] <= s[b]
}

/// The order in which the terrain textures are uploaded into the texture array: their
/// layer indices, ascending.
pub fn upload_order(indices: &Vec<u32>) -> (order: Vec<u32>)
    ensures
        ascending(order@),
        order@.to_multiset() == indices@.to_multiset(),
{
    broadcast use vstd::seq_lib::to_multiset_insert;

    let mut order: Vec<u32> = Vec::new();
    let mut i: usize = 0;
    assert(indices@.take(0) =~= order@);
    while i < indices.len()
        invariant
            i <= indices@.len(),
            ascending(order@),
            order@.to_multiset() == indices@.take(i as int).to_multiset(),
        decreases indices@.len() - i,
    {
        let x = indices[i];
        let mut j: usize = 0;
        while j < order.len() && order[j] <= x
            invariant
                j <= order@.len(),
                forall|k: int| 0 <= k < j ==> order@[k] <= x,
            decreases order@.len() - j,
        {
            j = j + 1;
        }
        let ghost old_order = order@;
        proof {
            assert forall|k: int| j <= k < old_order.len() implies x < old_order[k] by {
                if j < old_order.len() {
                    assert(x < old_order[j as int]);
                }
            }
        }
        order.insert(j, x);
        proof {
            assert(order@ == old_order.insert(j as int, x));
            assert forall|a: int, b: int| 0 <= a < b < order@.len() implies order@[a]
                <= order@[b] by {
                if b < j {
                    assert(order@[a] == old_order[a] && order@[b] == old_order[b]);
                } else if b == j {
                    assert(order@[a] == old_order[a]);
                } else if a == j {
                    assert(order@[b] == old_order[b - 1]);
                } else if a < j {
                    assert(order@[a] == old_order[a] && order@[b] == old_order[b - 1]);
                } else {
                    assert(order@[a] == old_order[a - 1] && order@[b] == old_order[b - 1]);
                }
            }
            assert(indices@.take(i + 1) =~= indices@.take(i as int).push(x));
            vstd::seq_lib::to_multiset_build(indices@.take(i as int), x);
            vstd::seq_lib::to_multiset_insert(old_order, j as int, x);
        }
        i = i + 1;
    }
    assert(indices@.take(i as int) =~= indices@);
    order
}

} // verus!
