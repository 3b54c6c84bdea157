//! Where steps through a listing lead, and what is worth decoding ahead of them.

use vstd::prelude::*;

use std::collections::HashMap;

verus! {

broadcast use vstd::std_specs::hash::group_hash_axioms;

#[derive(Clone, Copy, PartialEq, Eq, Structural, Debug)]
pub enum NavigationCommand {
    First,
    Previous,
    Next,
    Last,
}

/// Where a step counts from: the anchor's own index, the one it left, or neither.
#[derive(Clone, Copy, PartialEq, Eq, Structural, Debug)]
pub enum AnchorIndex {
    Listed(usize),
    /// The anchor is gone from the listing; it belonged just before this index.
    Missing(usize),
    /// Never listed at all (an anchor outside the listing); steps enter from the ends.
    Unlisted,
}

/// Preload mode: backward distance, forward distance, cache budget in bytes.
pub const PRELOAD_SPECIFICATIONS: [(usize, usize, u64); 3] = [
    (0, 0, 0),
    (1, 3, 1073741824),
    (2, 6, 2147483648),
];

/// Where a step or an offset counts from. A missing anchor sits between two entries, so both
/// directions land next to it.
pub open spec fn start_of(anchor: AnchorIndex, forward: bool) -> Option<int> {
    match anchor {
        AnchorIndex::Listed(index) => Some(index as int),
        AnchorIndex::Missing(index) => Some(
            if forward {
                index - 1
            } else {
                index as int
            },
        ),
        AnchorIndex::Unlisted => None,
    }
}

/// Where a step or an offset counts from; None for an anchor the listing never held.
pub fn anchor_start(anchor: AnchorIndex, forward: bool) -> (start: Option<i128>)
    ensures
        match start {
            Some(index) => start_of(anchor, forward) == Some(index as int) && -1 <= index
                <= usize::MAX,
            None => start_of(anchor, forward) is None,
        },
{
    match anchor {
        AnchorIndex::Listed(index) => Some(index as i128),
        AnchorIndex::Missing(index) => Some(
            if forward {
                index as i128 - 1
            } else {
                index as i128
            },
        ),
        AnchorIndex::Unlisted => None,
    }
}

/// The index on a ring of this length.
fn wrapped(index: i128, length: usize) -> (place: usize)
    requires
        length > 0,
        i128::MIN < index,
    ensures
        place == index as int % length as int,
        place < length,
{
    if index >= 0 {
        let place: u128 = index as u128 % length as u128;
        place as usize
    } else {
        let distance: u128 = (-index) as u128;
        let rest: u128 = distance % length as u128;
        proof {
            let n = length as int;
            let d = distance as int;
            vstd::arithmetic::div_mod::lemma_fundamental_div_mod(d, n);
            let q = d / n;
            let r = d % n;
            if r == 0 {
                assert(-d == (-q) * n + 0) by (nonlinear_arith)
                    requires
                        d == n * q + r,
                        r == 0,
                ;
                vstd::arithmetic::div_mod::lemma_fundamental_div_mod_converse(-d, n, -q, 0);
            } else {
                assert(-d == (-q - 1) * n + (n - r)) by (nonlinear_arith)
                    requires
                        d == n * q + r,
                ;
                vstd::arithmetic::div_mod::lemma_fundamental_div_mod_converse(
                    -d,
                    n,
                    -q - 1,
                    n - r,
                );
            }
        }
        if rest == 0 {
            0
        } else {
            length - rest as usize
        }
    }
}

/// The entry at an offset from the anchor: round the ring when looping, but never the anchor
/// itself; none past an end otherwise.
pub open spec fn offset_index(
    anchor: AnchorIndex,
    offset: int,
    length: int,
    looped: bool,
) -> Option<usize> {
    match start_of(anchor, offset > 0) {
        None => None,
        Some(start) => {
            let index = start + offset;
            if length <= 0 {
                None
            } else if looped {
                let place = (index % length) as usize;
                if anchor == AnchorIndex::Listed(place) {
                    None
                } else {
                    Some(place)
                }
            } else if 0 <= index < length {
                Some(index as usize)
            } else {
                None
            }
        },
    }
}

pub fn index_at_offset(
    anchor: AnchorIndex,
    offset: isize,
    length: usize,
    loop_enabled: bool,
) -> (index: Option<usize>)
    ensures
        index == offset_index(anchor, offset as int, length as int, loop_enabled),
        index matches Some(place) ==> place < length,
{
    if length == 0 {
        return None;
    }
    match anchor_start(anchor, offset > 0) {
        None => None,
        Some(start) => {
            let index: i128 = start + offset as i128;
            if loop_enabled {
                let place = wrapped(index, length);
                if anchor == AnchorIndex::Listed(place) {
                    None
                } else {
                    Some(place)
                }
            } else if 0 <= index && index < length as i128 {
                Some(index as usize)
            } else {
                None
            }
        },
    }
}

/// One step from the anchor. An anchor the listing never held enters from the end the step comes
/// from; past an end only a looping listing goes on.
pub open spec fn stepped(
    anchor: AnchorIndex,
    direction: int,
    length: int,
    looped: bool,
) -> Option<usize> {
    let start = match start_of(anchor, direction > 0) {
        Some(start) => start,
        None => if direction > 0 {
            -1
        } else {
            length
        },
    };
    let index = start + direction;
    if length <= 0 {
        None
    } else if looped {
        Some((index % length) as usize)
    } else if 0 <= index < length {
        Some(index as usize)
    } else {
        None
    }
}

/// One step from the anchor index; None past a non-looping end.
pub fn step_index(
    anchor: AnchorIndex,
    direction: isize,
    length: usize,
    looped: bool,
) -> (index: Option<usize>)
    ensures
        index == stepped(anchor, direction as int, length as int, looped),
        index matches Some(place) ==> place < length,
{
    if length == 0 {
        return None;
    }
    let start: i128 = match anchor_start(anchor, direction > 0) {
        Some(start) => start,
        None => if direction > 0 {
            -1
        } else {
            length as i128
        },
    };
    let index: i128 = start + direction as i128;
    if looped {
        Some(wrapped(index, length))
    } else if 0 <= index && index < length as i128 {
        Some(index as usize)
    } else {
        None
    }
}

/// A step is undone by the step back: it returns to the entry it left.
pub proof fn lemma_step_back_returns(index: usize, length: int, looped: bool, forward: bool)
    requires
        index < length <= usize::MAX,
    ensures
        ({
            let direction: int = if forward {
                1
            } else {
                -1
            };
            stepped(AnchorIndex::Listed(index), direction, length, looped) matches Some(next)
                ==> stepped(AnchorIndex::Listed(next), -direction, length, looped) == Some(index)
        }),
{
    let direction: int = if forward {
        1
    } else {
        -1
    };
    if looped {
        if 0 <= index + direction < length {
            vstd::arithmetic::div_mod::lemma_small_mod((index + direction) as nat, length as nat);
            vstd::arithmetic::div_mod::lemma_small_mod(index as nat, length as nat);
        } else if forward {
            assert(index + 1 == length);
            vstd::arithmetic::div_mod::lemma_mod_self_0(length);
            vstd::arithmetic::div_mod::lemma_fundamental_div_mod_converse(-1, length, -1, length - 1);
        } else {
            assert(index == 0);
            vstd::arithmetic::div_mod::lemma_fundamental_div_mod_converse(-1, length, -1, length - 1);
            vstd::arithmetic::div_mod::lemma_mod_self_0(length);
        }
    }
}

/// A place left behind between two entries is answered by exactly those two.
pub proof fn lemma_missing_anchor_has_both_neighbours(place: usize, length: int)
    requires
        place <= length <= usize::MAX,
    ensures
        stepped(AnchorIndex::Missing(place), 1, length, false) == (if place < length {
            Some(place)
        } else {
            None
        }),
        stepped(AnchorIndex::Missing(place), -1, length, false) == (if place > 0 {
            Some((place - 1) as usize)
        } else {
            None
        }),
{
}

/// Preload offsets in priority order: forward first, nearest first.
pub open spec fn offsets(backward: int, forward: int) -> Seq<int> {
    Seq::new(
        (forward + backward) as nat,
        |place: int|
            if place < forward {
                place + 1
            } else {
                forward - place - 1
            },
    )
}

pub fn preload_offsets(backward: usize, forward: usize) -> (found: Vec<isize>)
    requires
        backward + forward <= isize::MAX,
    ensures
        found@.map_values(|offset: isize| offset as int) == offsets(backward as int, forward as int),
        found@.len() == backward + forward,
{
    let mut found: Vec<isize> = Vec::new();
    let mut step: usize = 0;
    while step < forward
        invariant
            step <= forward,
            backward + forward <= isize::MAX,
            found@.len() == step,
            forall|place: int|
                0 <= place < step ==> found@[place] == offsets(
                    backward as int,
                    forward as int,
                )[place],
        decreases forward - step,
    {
        found.push(step as isize + 1);
        step += 1;
    }
    step = 0;
    while step < backward
        invariant
            step <= backward,
            backward + forward <= isize::MAX,
            found@.len() == forward + step,
            forall|place: int|
                0 <= place < forward + step ==> found@[place] == offsets(
                    backward as int,
                    forward as int,
                )[place],
        decreases backward - step,
    {
        found.push(-(step as isize) - 1);
        step += 1;
    }
    assert(found@.map_values(|offset: isize| offset as int) =~= offsets(
        backward as int,
        forward as int,
    ));
    found
}

/// The budget in use once every weight has been offered: each that still fits is taken.
pub open spec fn budget_used(occupied: int, budget: int, weights: Seq<u64>) -> int
    decreases weights.len(),
{
    if weights.len() == 0 {
        occupied
    } else {
        let used = budget_used(occupied, budget, weights.drop_last());
        if used + weights.last() <= budget {
            used + weights.last()
        } else {
            used
        }
    }
}

/// Which weights are taken, in order; a misfit is skipped, not a stop.
pub open spec fn fitting(occupied: int, budget: int, weights: Seq<u64>) -> Seq<bool> {
    Seq::new(
        weights.len(),
        |place: int| budget_used(occupied, budget, weights.take(place)) + weights[place] <= budget,
    )
}

/// Taking what fits never leaves the budget.
pub proof fn lemma_budget_is_kept(occupied: int, budget: int, weights: Seq<u64>)
    ensures
        occupied <= budget ==> budget_used(occupied, budget, weights) <= budget,
        occupied > budget ==> budget_used(occupied, budget, weights) == occupied,
        occupied <= budget_used(occupied, budget, weights),
    decreases weights.len(),
{
    if weights.len() > 0 {
        lemma_budget_is_kept(occupied, budget, weights.drop_last());
    }
}

/// The weights of the taken candidates.
pub open spec fn taken_weight(weights: Seq<u64>, taken: Seq<bool>) -> int
    decreases weights.len(),
{
    if weights.len() == 0 || taken.len() != weights.len() {
        0
    } else {
        taken_weight(weights.drop_last(), taken.drop_last()) + if taken.last() {
            weights.last() as int
        } else {
            0
        }
    }
}

/// What is taken together with what was occupied stays inside the budget.
pub proof fn lemma_taken_weights_fit(occupied: int, budget: int, weights: Seq<u64>)
    ensures
        budget_used(occupied, budget, weights) == occupied + taken_weight(
            weights,
            fitting(occupied, budget, weights),
        ),
        occupied <= budget ==> occupied + taken_weight(weights, fitting(occupied, budget, weights))
            <= budget,
    decreases weights.len(),
{
    lemma_budget_is_kept(occupied, budget, weights);
    if weights.len() > 0 {
        let rest = weights.drop_last();
        lemma_taken_weights_fit(occupied, budget, rest);
        let all = fitting(occupied, budget, weights);
        assert(weights.take(weights.len() - 1) =~= rest);
        assert forall|place: int| 0 <= place < rest.len() implies all.drop_last()[place]
            == fitting(occupied, budget, rest)[place] by {
            assert(weights.take(place) =~= rest.take(place));
        }
        assert(all.drop_last() =~= fitting(occupied, budget, rest));
    }
}

/// Marks candidate weights that fit, in order; a misfit is skipped, not a stop.
pub fn fits_in_budget(occupied: u64, budget: u64, weights: &[u64]) -> (selected: Vec<bool>)
    ensures
        selected@ == fitting(occupied as int, budget as int, weights@),
{
    let mut used: u64 = occupied;
    let mut selected: Vec<bool> = Vec::new();
    let mut index: usize = 0;
    while index < weights.len()
        invariant
            index <= weights.len(),
            used == budget_used(occupied as int, budget as int, weights@.take(index as int)),
            selected@ == fitting(occupied as int, budget as int, weights@).take(index as int),
        decreases weights.len() - index,
    {
        let fits: bool = used <= budget && weights[index] <= budget - used;
        if fits {
            used += weights[index];
        }
        selected.push(fits);
        index += 1;
        assert(weights@.take(index as int).drop_last() =~= weights@.take(index - 1));
        assert(selected@ =~= fitting(occupied as int, budget as int, weights@).take(
            index as int,
        ));
    }
    assert(fitting(occupied as int, budget as int, weights@).take(weights@.len() as int)
        =~= fitting(occupied as int, budget as int, weights@));
    selected
}

/// The priorities once the first `ranks` offsets have claimed their entries: the anchor holds 0,
/// and an entry keeps the first rank that reaches it.
pub open spec fn priorities_after(
    anchor: AnchorIndex,
    backward: int,
    forward: int,
    length: int,
    looped: bool,
    ranks: int,
) -> Map<usize, usize>
    decreases ranks,
{
    if ranks <= 0 {
        match anchor {
            AnchorIndex::Listed(index) => Map::empty().insert(index, 0usize),
            _ => Map::empty(),
        }
    } else {
        let earlier = priorities_after(anchor, backward, forward, length, looped, ranks - 1);
        match offset_index(anchor, offsets(backward, forward)[ranks - 1], length, looped) {
            Some(index) => if earlier.dom().contains(index) {
                earlier
            } else {
                earlier.insert(index, ranks as usize)
            },
            None => earlier,
        }
    }
}

/// Entry index to preload priority: the anchor 0, then submission order.
pub open spec fn priorities(
    anchor: AnchorIndex,
    backward: int,
    forward: int,
    length: int,
    looped: bool,
) -> Map<usize, usize> {
    priorities_after(anchor, backward, forward, length, looped, forward + backward)
}

/// Entry index to preload priority (anchor 0, then submission order); shared with eviction.
pub fn preload_priorities(
    anchor: AnchorIndex,
    backward: usize,
    forward: usize,
    length: usize,
    loop_enabled: bool,
) -> (found: HashMap<usize, usize>)
    requires
        backward + forward <= isize::MAX,
    ensures
        found@ == priorities(anchor, backward as int, forward as int, length as int, loop_enabled),
{
    let mut found: HashMap<usize, usize> = HashMap::new();
    if let AnchorIndex::Listed(index) = anchor {
        found.insert(index, 0);
    }
    let steps = preload_offsets(backward, forward);
    let mut rank: usize = 0;
    assert(found@ =~= priorities_after(
        anchor,
        backward as int,
        forward as int,
        length as int,
        loop_enabled,
        0,
    ));
    while rank < steps.len()
        invariant
            rank <= steps.len(),
            steps@.len() == backward + forward,
            backward + forward <= isize::MAX,
            steps@.map_values(|offset: isize| offset as int) == offsets(
                backward as int,
                forward as int,
            ),
            found@ == priorities_after(
                anchor,
                backward as int,
                forward as int,
                length as int,
                loop_enabled,
                rank as int,
            ),
        decreases steps.len() - rank,
    {
        assert(steps@.map_values(|offset: isize| offset as int)[rank as int]
            == steps@[rank as int]);
        if let Some(index) = index_at_offset(anchor, steps[rank], length, loop_enabled) {
            if !found.contains_key(&index) {
                found.insert(index, rank + 1);
            }
        }
        rank += 1;
    }
    found
}

/// Every entry a preload offset reaches has a priority, no later than the rank of that offset,
/// and nothing else has one but the anchor.
pub proof fn lemma_priorities_cover_the_targets(
    anchor: AnchorIndex,
    backward: int,
    forward: int,
    length: int,
    looped: bool,
    ranks: int,
)
    requires
        0 <= ranks <= forward + backward,
        forward + backward <= usize::MAX,
        0 <= forward,
        0 <= backward,
    ensures
        forall|rank: int|
            0 <= rank < ranks ==> (offset_index(
                anchor,
                #[trigger] offsets(backward, forward)[rank],
                length,
                looped,
            ) matches Some(index) ==> {
                let found = priorities_after(anchor, backward, forward, length, looped, ranks);
                found.dom().contains(index) && found[index] <= rank + 1
            }),
        forall|index: usize|
            #[trigger] priorities_after(
                anchor,
                backward,
                forward,
                length,
                looped,
                ranks,
            ).dom().contains(index) ==> anchor == AnchorIndex::Listed(index) || exists|rank: int|
                0 <= rank < ranks && offset_index(
                    anchor,
                    #[trigger] offsets(backward, forward)[rank],
                    length,
                    looped,
                ) == Some(index),
    decreases ranks,
{
    if ranks > 0 {
        lemma_priorities_cover_the_targets(anchor, backward, forward, length, looped, ranks - 1);
        let earlier = priorities_after(anchor, backward, forward, length, looped, ranks - 1);
        let found = priorities_after(anchor, backward, forward, length, looped, ranks);
        assert forall|rank: int|
            0 <= rank < ranks implies (offset_index(
            anchor,
            #[trigger] offsets(backward, forward)[rank],
            length,
            looped,
        ) matches Some(index) ==> found.dom().contains(index) && found[index] <= rank + 1) by {
            if rank < ranks - 1 {
                assert(offset_index(anchor, offsets(backward, forward)[rank], length, looped)
                    matches Some(index) ==> earlier.dom().contains(index) && earlier[index] <= rank
                    + 1);
            } else {
                match offset_index(anchor, offsets(backward, forward)[rank], length, looped) {
                    Some(index) => {
                        if earlier.dom().contains(index) {
                            lemma_priorities_stay_below(
                                anchor,
                                backward,
                                forward,
                                length,
                                looped,
                                ranks - 1,
                            );
                        }
                    },
                    None => {},
                }
            }
        }
        assert forall|index: usize| #[trigger] found.dom().contains(index) implies anchor
            == AnchorIndex::Listed(index) || exists|rank: int|
            0 <= rank < ranks && offset_index(
                anchor,
                #[trigger] offsets(backward, forward)[rank],
                length,
                looped,
            ) == Some(index) by {
            if !earlier.dom().contains(index) {
                assert(offset_index(anchor, offsets(backward, forward)[ranks - 1], length, looped)
                    == Some(index));
            }
        }
    }
}

proof fn lemma_priorities_stay_below(
    anchor: AnchorIndex,
    backward: int,
    forward: int,
    length: int,
    looped: bool,
    ranks: int,
)
    requires
        0 <= ranks <= usize::MAX,
    ensures
        forall|index: usize|
            #[trigger] priorities_after(
                anchor,
                backward,
                forward,
                length,
                looped,
                ranks,
            ).dom().contains(index) ==> priorities_after(
                anchor,
                backward,
                forward,
                length,
                looped,
                ranks,
            )[index] <= ranks,
    decreases ranks,
{
    if ranks > 0 {
        lemma_priorities_stay_below(anchor, backward, forward, length, looped, ranks - 1);
        let earlier = priorities_after(anchor, backward, forward, length, looped, ranks - 1);
        let found = priorities_after(anchor, backward, forward, length, looped, ranks);
        assert forall|index: usize| #[trigger] found.dom().contains(index) implies found[index]
            <= ranks by {
            if earlier.dom().contains(index) {
                assert(found[index] == earlier[index]);
            }
        }
    }
}

/// Only the anchor's own entry has the first rank.
pub proof fn lemma_only_the_anchor_ranks_first(
    anchor: AnchorIndex,
    backward: int,
    forward: int,
    length: int,
    looped: bool,
    ranks: int,
)
    requires
        0 <= ranks <= usize::MAX,
    ensures
        forall|index: usize| #[trigger]
            priorities_after(anchor, backward, forward, length, looped, ranks).dom().contains(index)
                && priorities_after(anchor, backward, forward, length, looped, ranks)[index] == 0
                ==> anchor == AnchorIndex::Listed(index),
    decreases ranks,
{
    if ranks > 0 {
        lemma_only_the_anchor_ranks_first(anchor, backward, forward, length, looped, ranks - 1);
        let earlier = priorities_after(anchor, backward, forward, length, looped, ranks - 1);
        let found = priorities_after(anchor, backward, forward, length, looped, ranks);
        assert forall|index: usize| #[trigger]
            found.dom().contains(index) && found[index] == 0 implies anchor
            == AnchorIndex::Listed(index) by {
            if earlier.dom().contains(index) {
                assert(found[index] == earlier[index]);
            }
        }
    }
}

/// The first index of a window of `capacity` entries around the anchor, clamped to the list.
pub open spec fn window_start(total: int, anchor: Option<usize>, capacity: int) -> int {
    let wished = match anchor {
        Some(index) => index - capacity / 2,
        None => -(capacity / 2),
    };
    if total <= capacity || wished < 0 {
        0
    } else if wished > total - capacity {
        total - capacity
    } else {
        wished
    }
}

/// First index of a `capacity` window centered on the anchor, clamped to the list.
pub fn playlist_window_start(
    total: usize,
    anchor: Option<usize>,
    capacity: usize,
) -> (start: usize)
    ensures
        start == window_start(total as int, anchor, capacity as int),
        start <= total,
{
    if total <= capacity {
        return 0;
    }
    let center: usize = match anchor {
        Some(index) => index,
        None => 0,
    };
    let half: usize = capacity / 2;
    let wished: usize = if center < half {
        0
    } else {
        center - half
    };
    if wished > total - capacity {
        total - capacity
    } else {
        wished
    }
}

/// The window is full whenever the list is long enough, lies inside the list, and shows the
/// anchor.
pub proof fn lemma_window_shows_the_anchor(total: int, anchor: usize, capacity: int)
    requires
        0 <= anchor < total,
        0 < capacity,
    ensures
        ({
            let start = window_start(total, Some(anchor), capacity);
            &&& 0 <= start <= anchor < start + capacity
            &&& total <= capacity ==> start == 0
            &&& total > capacity ==> start + capacity <= total
        }),
{
}

} // verus!
