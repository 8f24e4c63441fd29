//! Selections: the positions of a sequence at which something holds, in their order.

use vstd::prelude::*;

verus! {

/// `picked` holds, in ascending order, just the positions below `length` at which `counts` holds.
pub open spec fn picks(picked: Seq<int>, length: nat, counts: spec_fn(int) -> bool) -> bool {
    &&& forall|k: int| 0 <= k < picked.len() ==> 0 <= #[trigger] picked[k] < length
    &&& forall|k: int| 0 <= k < picked.len() ==> counts(#[trigger] picked[k])
    &&& forall|k: int, l: int| 0 <= k < l < picked.len() ==> #[trigger] picked[k] < #[trigger] picked[l]
    &&& forall|i: int| 0 <= i < length && #[trigger] counts(i) ==> picked.contains(i)
}

/// Two selections by the same condition are the same.
pub proof fn selections_are_unique(
    picked: Seq<int>,
    other: Seq<int>,
    length: nat,
    counts: spec_fn(int) -> bool,
)
    requires
        picks(picked, length, counts),
        picks(other, length, counts),
    ensures
        picked == other,
    decreases length,
{
    if length == 0 {
        if picked.len() > 0 {
            assert(picked[0] < 0);
        }
        if other.len() > 0 {
            assert(other[0] < 0);
        }
    } else {
        let shorter = lemma_without_last(picked, length, counts);
        let other_shorter = lemma_without_last(other, length, counts);
        selections_are_unique(shorter, other_shorter, (length - 1) as nat, counts);
    }
}

/// A selection without the last position that it may hold.
proof fn lemma_without_last(picked: Seq<int>, length: nat, counts: spec_fn(int) -> bool) -> (shorter:
    Seq<int>)
    requires
        length > 0,
        picks(picked, length, counts),
    ensures
        picks(shorter, (length - 1) as nat, counts),
        picked == if counts(length - 1) {
            shorter.push(length - 1)
        } else {
            shorter
        },
{
    let last = length - 1;
    if counts(last) {
        assert(picked.contains(last));
        let at = choose|k: int| 0 <= k < picked.len() && picked[k] == last;
        if at < picked.len() - 1 {
            assert(picked[at] < picked[picked.len() - 1]);
        }
        let shorter = picked.drop_last();
        assert(picked =~= shorter.push(last));
        assert forall|k: int| 0 <= k < shorter.len() implies 0 <= #[trigger] shorter[k] < last by {
            assert(picked[k] < picked[picked.len() - 1]);
        }
        assert forall|i: int| 0 <= i < last && #[trigger] counts(i) implies shorter.contains(i) by {
            assert(picked.contains(i));
            let k = choose|k: int| 0 <= k < picked.len() && picked[k] == i;
            assert(shorter[k] == i);
        }
        assert forall|k: int| 0 <= k < shorter.len() implies counts(#[trigger] shorter[k]) by {
            assert(counts(picked[k]));
        }
        shorter
    } else {
        assert forall|k: int| 0 <= k < picked.len() implies 0 <= #[trigger] picked[k] < last by {
            assert(counts(picked[k]));
        }
        picked
    }
}

/// A sequence that is filtered and mapped holds what its selected positions are mapped to.
pub proof fn lemma_filtered<A, B>(
    items: Seq<A>,
    keep: spec_fn(A) -> bool,
    make: spec_fn(A) -> B,
) -> (picked: Seq<int>)
    ensures
        picks(picked, items.len(), |i: int| keep(items[i])),
        items.filter(keep).map_values(make) == picked.map_values(|i: int| make(items[i])),
    decreases items.len(),
{
    reveal(Seq::filter);
    let counts = |i: int| keep(items[i]);
    if items.len() == 0 {
        let picked = Seq::<int>::empty();
        assert(items.filter(keep).map_values(make) =~= picked.map_values(|i: int| make(items[i])));
        picked
    } else {
        let front = items.drop_last();
        let last = items.len() - 1;
        let earlier = lemma_filtered(front, keep, make);
        let front_counts = |i: int| keep(front[i]);
        assert(picks(earlier, front.len(), front_counts));
        let picked = if keep(items.last()) {
            earlier.push(last)
        } else {
            earlier
        };
        assert forall|k: int| 0 <= k < picked.len() implies 0 <= #[trigger] picked[k]
            < items.len() by {
            if k < earlier.len() {
                assert(picked[k] == earlier[k]);
            }
        }
        assert forall|k: int| 0 <= k < picked.len() implies counts(#[trigger] picked[k]) by {
            if k < earlier.len() {
                assert(picked[k] == earlier[k]);
                assert(front_counts(earlier[k]));
                assert(front[earlier[k]] == items[earlier[k]]);
            }
        }
        assert forall|k: int, l: int| 0 <= k < l < picked.len() implies #[trigger] picked[k]
            < #[trigger] picked[l] by {
            assert(picked[k] == earlier[k]);
            if l < earlier.len() {
                assert(picked[l] == earlier[l]);
            }
        }
        assert forall|i: int| 0 <= i < items.len() && #[trigger] counts(i) implies picked.contains(
            i,
        ) by {
            if i < last {
                assert(front[i] == items[i]);
                assert(front_counts(i));
                assert(earlier.contains(i));
                let k = choose|k: int| 0 <= k < earlier.len() && earlier[k] == i;
                assert(picked[k] == i);
            } else {
                assert(picked[picked.len() - 1] == i);
            }
        }
        let made = picked.map_values(|i: int| make(items[i]));
        let made_front = earlier.map_values(|i: int| make(front[i]));
        assert forall|k: int| 0 <= k < earlier.len() implies made[k] == made_front[k] by {
            assert(0 <= earlier[k] < front.len());
            assert(front[earlier[k]] == items[earlier[k]]);
        }
        if keep(items.last()) {
            assert(items.filter(keep) == front.filter(keep).push(items.last()));
            assert(items.filter(keep).map_values(make) =~= front.filter(keep).map_values(make).push(
                make(items.last()),
            ));
        } else {
            assert(items.filter(keep) == front.filter(keep));
        }
        assert(items.filter(keep).map_values(make) =~= made);
        picked
    }
}

} // verus!
