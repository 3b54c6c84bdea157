use riv::navigation::{
    fits_in_budget, index_at_offset, playlist_window_start, preload_offsets, preload_priorities,
    step_index, AnchorIndex, PRELOAD_SPECIFICATIONS,
};

fn offsets(mode: usize) -> Vec<isize> {
    let (backward, forward, _) = PRELOAD_SPECIFICATIONS[mode];
    preload_offsets(backward, forward)
}

#[test]
fn an_unlisted_anchor_starts_at_the_matching_end() {
    assert_eq!(step_index(AnchorIndex::Unlisted, 1, 3, false), Some(0));
    assert_eq!(step_index(AnchorIndex::Unlisted, -1, 3, false), Some(2));
}

#[test]
fn steps_move_one_entry_and_ends_obey_the_loop_option() {
    assert_eq!(step_index(AnchorIndex::Listed(1), 1, 4, false), Some(2));
    assert_eq!(step_index(AnchorIndex::Listed(3), 1, 4, false), None);
    assert_eq!(step_index(AnchorIndex::Listed(3), 1, 4, true), Some(0));
    assert_eq!(step_index(AnchorIndex::Listed(0), -1, 4, false), None);
    assert_eq!(step_index(AnchorIndex::Listed(0), -1, 4, true), Some(3));
}

#[test]
fn a_missing_anchor_lands_on_both_adjacent_entries() {
    assert_eq!(step_index(AnchorIndex::Missing(2), 1, 4, false), Some(2));
    assert_eq!(step_index(AnchorIndex::Missing(2), -1, 4, false), Some(1));
    // The place after the last entry: forward runs out, backward keeps the last one.
    assert_eq!(step_index(AnchorIndex::Missing(4), 1, 4, false), None);
    assert_eq!(step_index(AnchorIndex::Missing(4), 1, 4, true), Some(0));
    assert_eq!(step_index(AnchorIndex::Missing(4), -1, 4, false), Some(3));
    // The place before the first entry mirrors it.
    assert_eq!(step_index(AnchorIndex::Missing(0), -1, 4, false), None);
    assert_eq!(step_index(AnchorIndex::Missing(0), -1, 4, true), Some(3));
    assert_eq!(step_index(AnchorIndex::Missing(0), 1, 4, false), Some(0));
}

#[test]
fn degenerate_lengths_stay_in_bounds() {
    assert_eq!(step_index(AnchorIndex::Unlisted, 1, 0, true), None);
    assert_eq!(step_index(AnchorIndex::Missing(0), 1, 0, true), None);
    assert_eq!(step_index(AnchorIndex::Unlisted, 1, 1, false), Some(0));
    assert_eq!(step_index(AnchorIndex::Listed(0), 1, 1, true), Some(0));
    assert_eq!(step_index(AnchorIndex::Listed(0), 1, 1, false), None);
}

#[test]
fn offsets_run_forward_before_backward() {
    assert!(offsets(0).is_empty());
    assert_eq!(offsets(1), [1, 2, 3, -1]);
    assert_eq!(offsets(2), [1, 2, 3, 4, 5, 6, -1, -2]);
}

#[test]
fn a_missing_anchor_preloads_the_entries_it_sat_between() {
    let (backward, forward, _) = PRELOAD_SPECIFICATIONS[1];
    let anchor = AnchorIndex::Missing(10);
    let targets: Vec<usize> = preload_offsets(backward, forward)
        .into_iter()
        .filter_map(|offset| index_at_offset(anchor, offset, 100, false))
        .collect();
    // Forward lands on the entry that took the place, backward on the one before it.
    assert_eq!(targets, [10, 11, 12, 9]);
}

#[test]
fn an_unlisted_anchor_preloads_nothing() {
    let (backward, forward, _) = PRELOAD_SPECIFICATIONS[1];
    assert_eq!(
        index_at_offset(AnchorIndex::Unlisted, 1, 100, false),
        None,
        "an anchor outside the listing has no adjacent entries to speculate on"
    );
    let priorities = preload_priorities(AnchorIndex::Unlisted, backward, forward, 100, false);
    assert!(priorities.is_empty());
}

#[test]
fn eviction_prefers_forward_over_backward_within_the_preload_targets() {
    let (backward, forward, _) = PRELOAD_SPECIFICATIONS[1];
    let priorities = preload_priorities(AnchorIndex::Listed(10), backward, forward, 100, false);
    // The anchor survives longest, then +1..+3, then -1.
    assert_eq!(priorities[&10], 0);
    assert_eq!(priorities[&11], 1);
    assert_eq!(priorities[&12], 2);
    assert_eq!(priorities[&13], 3);
    assert_eq!(priorities[&9], 4);
    assert_eq!(priorities.len(), 5);
}

#[test]
fn eviction_drops_outsiders_before_preload_targets() {
    let (backward, forward, _) = PRELOAD_SPECIFICATIONS[1];
    let priorities = preload_priorities(AnchorIndex::Listed(10), backward, forward, 100, false);
    // Outside the map, so the eviction key is usize::MAX: they go first.
    assert!(!priorities.contains_key(&8));
    assert!(!priorities.contains_key(&14));
}

#[test]
fn eviction_keeps_wrapped_preload_targets() {
    let (backward, forward, _) = PRELOAD_SPECIFICATIONS[1];
    // Five looping entries: +3 lands at ring offset -2 yet stays a target.
    let priorities = preload_priorities(AnchorIndex::Listed(0), backward, forward, 5, true);
    assert_eq!(priorities[&3], 3);
    assert_eq!(priorities[&4], 4);
    assert_eq!(priorities.len(), 5);
    // Three looping entries: +2 claims the slot before -1 revisits it.
    let priorities = preload_priorities(AnchorIndex::Listed(0), backward, forward, 3, true);
    assert_eq!(priorities[&2], 2);
    assert_eq!(priorities.len(), 3);
}

#[test]
fn candidates_land_in_priority_order_while_they_fit() {
    assert_eq!(
        fits_in_budget(0, 1000, &[400, 400, 400]),
        [true, true, false]
    );
}

#[test]
fn an_oversized_candidate_is_skipped_not_a_stopping_point() {
    // The big +1 stays out, the cheap items behind it still land.
    assert_eq!(
        fits_in_budget(0, 500, &[800, 200, 200, 200]),
        [false, true, true, false]
    );
}

#[test]
fn occupied_bytes_shrink_the_remaining_budget() {
    assert_eq!(fits_in_budget(722, 1024, &[173, 173]), [true, false]);
}

#[test]
fn a_full_budget_admits_nothing_but_zero_weights() {
    assert_eq!(fits_in_budget(1024, 1024, &[1, 0]), [false, true]);
}

#[test]
fn an_overdrawn_budget_admits_nothing() {
    assert_eq!(fits_in_budget(2048, 1024, &[1]), [false]);
    assert_eq!(fits_in_budget(0, u64::MAX, &[u64::MAX, 1]), [true, false]);
    assert!(fits_in_budget(0, 10, &[]).is_empty());
}

#[test]
fn a_huge_offset_stays_in_the_listing() {
    assert_eq!(
        index_at_offset(AnchorIndex::Listed(3), isize::MAX, 5, false),
        None
    );
    assert!(index_at_offset(AnchorIndex::Listed(3), isize::MIN, 5, true).unwrap() < 5);
    assert_eq!(index_at_offset(AnchorIndex::Listed(3), -4, 5, true), Some(4));
}

#[test]
fn only_the_anchor_has_the_first_rank() {
    let priorities = preload_priorities(AnchorIndex::Listed(2), 2, 6, 40, true);
    let first: Vec<usize> = priorities
        .iter()
        .filter(|(_, priority)| **priority == 0)
        .map(|(index, _)| *index)
        .collect();
    assert_eq!(first, [2]);
}

#[test]
fn a_window_start_keeps_the_window_full() {
    assert_eq!(playlist_window_start(100, Some(50), 25), 38);
    assert_eq!(playlist_window_start(100, Some(97), 25), 75);
    assert_eq!(playlist_window_start(5, Some(2), 25), 0);
    assert_eq!(playlist_window_start(100, None, 25), 0);
}
