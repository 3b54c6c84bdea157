//! What a listing looks like once it is arranged, and where a step in it leads.

use vstd::prelude::*;

use crate::listing;
use crate::listing::{CoreOptions, EntryModel, SortMode};
use crate::navigation;
use crate::navigation::AnchorIndex;
use crate::strings;

verus! {

/// One text reads before another: they are the same up to a place where the first ends and the
/// second goes on, or where the first has the lesser character.
pub open spec fn reads_before(first: Seq<char>, second: Seq<char>) -> bool {
    exists|place: int|
        {
            &&& 0 <= place <= first.len()
            &&& place < second.len()
            &&& #[trigger] first.take(place) == second.take(place)
            &&& place == first.len() || first[place] < second[place]
        }
}

proof fn lemma_order_reads_from(first: Seq<char>, second: Seq<char>, index: int)
    requires
        0 <= index <= first.len(),
        index <= second.len(),
        first.take(index) == second.take(index),
    ensures
        strings::text_before_from(first, second, index) ==> reads_before(first, second),
        !strings::text_before_from(first, second, index) ==> forall|place: int|
            index <= place <= first.len() && place < second.len() && #[trigger] first.take(place)
                == second.take(place) ==> place < first.len() && first[place] >= second[place],
    decreases second.len() - index,
{
    if index < second.len() {
        if index < first.len() && first[index] == second[index] {
            assert(first.take(index + 1) =~= first.take(index).push(first[index]));
            assert(second.take(index + 1) =~= second.take(index).push(second[index]));
            lemma_order_reads_from(first, second, index + 1);
        } else {
            assert forall|place: int|
                index < place <= first.len() && place < second.len() implies #[trigger] first.take(
                place,
            ) != second.take(place) by {
                assert(first.take(place)[index] == first[index]);
                assert(second.take(place)[index] == second[index]);
            }
        }
    }
}

/// Texts are in order the way a dictionary has them.
pub proof fn lemma_texts_read_in_order(first: Seq<char>, second: Seq<char>)
    ensures
        strings::text_before(first, second) <==> reads_before(first, second),
{
    assert(first.take(0) =~= second.take(0));
    lemma_order_reads_from(first, second, 0);
}

/// An arranged listing holds what it held before, and runs by the key that was asked for: names by
/// their rank, times from the latest, sizes from the largest, formats by their name. Where the key is
/// the same the names decide. Descending, it runs the same way read from its end.
pub proof fn lemma_listing_runs_by_its_key(
    entries: Seq<EntryModel>,
    options: CoreOptions,
    low: int,
    high: int,
)
    requires
        0 <= low < high < entries.len(),
    ensures
        listing::arranged(entries, options).to_multiset() == entries.to_multiset(),
        listing::arranged(entries, options).len() == entries.len(),
        ({
            let result = listing::arranged(entries, options);
            let (first, second) = if options.sort_descending {
                (result[high], result[low])
            } else {
                (result[low], result[high])
            };
            match options.sort_mode {
                SortMode::Name => first.name_rank <= second.name_rank,
                SortMode::Modified => first.modified >= second.modified && (first.modified
                    == second.modified ==> first.name_rank <= second.name_rank),
                SortMode::Created => first.created >= second.created && (first.created
                    == second.created ==> first.name_rank <= second.name_rank),
                SortMode::Size => first.file_size >= second.file_size && (first.file_size
                    == second.file_size ==> first.name_rank <= second.name_rank),
                SortMode::Type => !reads_before(second.format_name, first.format_name) && (
                first.format_name == second.format_name ==> first.name_rank <= second.name_rank),
            }
        }),
{
    let mode = options.sort_mode;
    let sorted = listing::sorted(entries, mode);
    listing::lemma_sorted_is_ordered(entries, mode);
    let count = entries.len();
    let (lower, higher) = if options.sort_descending {
        (count - 1 - high, count - 1 - low)
    } else {
        (low, high)
    };
    assert(!listing::sorts_before(sorted[higher], sorted[lower], mode));
    lemma_texts_read_in_order(sorted[higher].format_name, sorted[lower].format_name);
    lemma_texts_read_in_order(sorted[lower].format_name, sorted[higher].format_name);
    lemma_nothing_reads_before_itself(sorted[lower].format_name);
    lemma_reversed_holds_the_same(sorted);
}

proof fn lemma_nothing_reads_before_itself(text: Seq<char>)
    ensures
        !reads_before(text, text),
{
}

proof fn lemma_reversed_holds_the_same(entries: Seq<EntryModel>)
    ensures
        entries.reverse().to_multiset() == entries.to_multiset(),
    decreases entries.len(),
{
    broadcast use vstd::seq_lib::group_to_multiset_ensures;

    if entries.len() > 0 {
        let rest = entries.drop_last();
        lemma_reversed_holds_the_same(rest);
        assert(entries =~= rest.push(entries.last()));
        let front = seq![entries.last()];
        assert(entries.reverse() =~= front + rest.reverse());
        vstd::seq_lib::lemma_multiset_commutative(front, rest.reverse());
        assert(front =~= Seq::<EntryModel>::empty().push(entries.last()));
        vstd::seq_lib::lemma_multiset_commutative(rest, front);
        assert(entries =~= rest + front);
        assert((front + rest.reverse()).to_multiset() =~= (rest + front).to_multiset());
    } else {
        assert(entries.reverse() =~= entries);
    }
}

/// The entry at one place is not out of order with the entry at another: by its key, by its name
/// where the keys are the same.
pub open spec fn in_order(first: EntryModel, second: EntryModel, mode: SortMode) -> bool {
    match mode {
        SortMode::Name => first.name_rank <= second.name_rank,
        SortMode::Modified => first.modified > second.modified || (first.modified == second.modified
            && first.name_rank <= second.name_rank),
        SortMode::Created => first.created > second.created || (first.created == second.created
            && first.name_rank <= second.name_rank),
        SortMode::Size => first.file_size > second.file_size || (first.file_size
            == second.file_size && first.name_rank <= second.name_rank),
        SortMode::Type => reads_before(first.format_name, second.format_name) || (
        first.format_name == second.format_name && first.name_rank <= second.name_rank),
    }
}

/// A listing that is in order already stays as it is, and descending turns it round.
pub proof fn lemma_listing_in_order_stays(entries: Seq<EntryModel>, options: CoreOptions)
    requires
        forall|low: int, high: int|
            0 <= low < high < entries.len() ==> in_order(
                #[trigger] entries[low],
                #[trigger] entries[high],
                options.sort_mode,
            ),
    ensures
        !options.sort_descending ==> listing::arranged(entries, options) == entries,
        options.sort_descending ==> listing::arranged(entries, options).len() == entries.len()
            && forall|index: int|
            0 <= index < entries.len() ==> #[trigger] listing::arranged(entries, options)[index]
                == entries[entries.len() - 1 - index],
{
    lemma_sorted_stays(entries, options.sort_mode);
}

proof fn lemma_sorted_stays(entries: Seq<EntryModel>, mode: SortMode)
    requires
        forall|low: int, high: int|
            0 <= low < high < entries.len() ==> in_order(
                #[trigger] entries[low],
                #[trigger] entries[high],
                mode,
            ),
    ensures
        listing::sorted(entries, mode) == entries,
    decreases entries.len(),
{
    if entries.len() > 0 {
        let rest = entries.drop_last();
        assert forall|low: int, high: int| 0 <= low < high < rest.len() implies in_order(
            #[trigger] rest[low],
            #[trigger] rest[high],
            mode,
        ) by {
            assert(rest[low] == entries[low] && rest[high] == entries[high]);
        }
        lemma_sorted_stays(rest, mode);
        if rest.len() > 0 {
            let first = entries[rest.len() - 1];
            let second = entries[rest.len() as int];
            assert(in_order(first, second, mode));
            lemma_texts_read_in_order(first.format_name, second.format_name);
            lemma_texts_read_in_order(second.format_name, first.format_name);
            strings::lemma_text_order_chains_from(
                first.format_name,
                second.format_name,
                second.format_name,
                0,
            );
            assert(!listing::sorts_before(second, first, mode));
        }
        assert(entries =~= rest.push(entries.last()));
    }
}

/// One step leads to the neighbour on its side: from the last entry forward and from the first one
/// backward only a looping listing goes on, at its other end. An anchor that was never listed enters
/// at the end the step comes from; one that left the listing has a neighbour on either side of where
/// it was.
pub proof fn lemma_step_leads_to_the_neighbour(index: usize, length: int, looped: bool)
    requires
        0 < length <= usize::MAX,
    ensures
        index < length - 1 ==> navigation::stepped(AnchorIndex::Listed(index), 1, length, looped)
            == Some((index + 1) as usize),
        index == length - 1 && looped ==> navigation::stepped(
            AnchorIndex::Listed(index),
            1,
            length,
            looped,
        ) == Some(0usize),
        index == length - 1 && !looped ==> navigation::stepped(
            AnchorIndex::Listed(index),
            1,
            length,
            looped,
        ) is None,
        0 < index < length ==> navigation::stepped(AnchorIndex::Listed(index), -1, length, looped)
            == Some((index - 1) as usize),
        looped ==> navigation::stepped(AnchorIndex::Listed(0), -1, length, looped) == Some(
            (length - 1) as usize,
        ),
        !looped ==> navigation::stepped(AnchorIndex::Listed(0), -1, length, looped) is None,
        navigation::stepped(AnchorIndex::Unlisted, 1, length, looped) == Some(0usize),
        navigation::stepped(AnchorIndex::Unlisted, -1, length, looped) == Some(
            (length - 1) as usize,
        ),
        index < length ==> navigation::stepped(AnchorIndex::Missing(index), 1, length, looped)
            == Some(index),
        0 < index <= length ==> navigation::stepped(AnchorIndex::Missing(index), -1, length, looped)
            == Some((index - 1) as usize),
        index == length && looped ==> navigation::stepped(
            AnchorIndex::Missing(index),
            1,
            length,
            looped,
        ) == Some(0usize),
        index == length && !looped ==> navigation::stepped(
            AnchorIndex::Missing(index),
            1,
            length,
            looped,
        ) is None,
        looped ==> navigation::stepped(AnchorIndex::Missing(0), -1, length, looped) == Some(
            (length - 1) as usize,
        ),
        !looped ==> navigation::stepped(AnchorIndex::Missing(0), -1, length, looped) is None,
{
    if index < length {
        if index < length - 1 {
            vstd::arithmetic::div_mod::lemma_small_mod((index + 1) as nat, length as nat);
        }
        if index > 0 {
            vstd::arithmetic::div_mod::lemma_small_mod((index - 1) as nat, length as nat);
        }
        vstd::arithmetic::div_mod::lemma_small_mod(index as nat, length as nat);
    }
    if 0 < index <= length {
        vstd::arithmetic::div_mod::lemma_small_mod((index - 1) as nat, length as nat);
    }
    vstd::arithmetic::div_mod::lemma_small_mod(0, length as nat);
    vstd::arithmetic::div_mod::lemma_small_mod((length - 1) as nat, length as nat);
    vstd::arithmetic::div_mod::lemma_mod_self_0(length);
    vstd::arithmetic::div_mod::lemma_fundamental_div_mod_converse(-1, length, -1, length - 1);
}

/// An empty listing has no entry to step to.
pub proof fn lemma_empty_listing_leads_nowhere(anchor: AnchorIndex, direction: int, looped: bool)
    ensures
        navigation::stepped(anchor, direction, 0, looped) is None,
        navigation::offset_index(anchor, direction, 0, looped) is None,
{
}

/// Preloading reaches as many entries forward as it was told, nearest first, then as many backward,
/// nearest first; the anchor itself is never reached for.
pub proof fn lemma_offsets_run_outward(backward: int, forward: int)
    requires
        0 <= backward,
        0 <= forward,
    ensures
        navigation::offsets(backward, forward).len() == backward + forward,
        forall|distance: int|
            1 <= distance <= forward ==> #[trigger] navigation::offsets(backward, forward)[distance
                - 1] == distance,
        forall|distance: int|
            1 <= distance <= backward ==> #[trigger] navigation::offsets(backward, forward)[forward
                + distance - 1] == -distance,
        !navigation::offsets(backward, forward).contains(0),
{
}

/// Counting from a listed anchor leads that many entries on: within the listing, or round it where
/// it loops, but never back to the anchor.
pub proof fn lemma_offset_counts_entries(index: usize, offset: int, length: int, looped: bool)
    requires
        index < length <= usize::MAX,
    ensures
        !looped && 0 <= index + offset < length ==> navigation::offset_index(
            AnchorIndex::Listed(index),
            offset,
            length,
            looped,
        ) == Some((index + offset) as usize),
        !looped && !(0 <= index + offset < length) ==> navigation::offset_index(
            AnchorIndex::Listed(index),
            offset,
            length,
            looped,
        ) is None,
        looped ==> (navigation::offset_index(AnchorIndex::Listed(index), offset, length, looped) matches Some(
            place,
        ) ==> place < length && place != index && (place - index - offset) % length == 0),
        looped && navigation::offset_index(AnchorIndex::Listed(index), offset, length, looped) is None
            ==> offset % length == 0,
{
    if looped {
        let sum = index + offset;
        vstd::arithmetic::div_mod::lemma_fundamental_div_mod(sum, length);
        vstd::arithmetic::div_mod::lemma_mod_bound(sum, length);
        let place = sum % length;
        let turns = sum / length;
        assert(place - sum == (-turns) * length) by (nonlinear_arith)
            requires
                sum == length * turns + place,
        ;
        vstd::arithmetic::div_mod::lemma_mod_multiples_basic(-turns, length);
        if place == index {
            assert(offset == turns * length) by (nonlinear_arith)
                requires
                    sum == length * turns + place,
                    sum == index + offset,
                    place == index,
            ;
            vstd::arithmetic::div_mod::lemma_mod_multiples_basic(turns, length);
        }
    }
}

/// The menu's window has the anchor in its middle wherever there is room on both sides, and lies
/// against an end of the listing otherwise.
pub proof fn lemma_window_centers_the_anchor(total: int, anchor: usize, capacity: int)
    requires
        0 < capacity,
        anchor < total,
    ensures
        total > capacity && anchor >= capacity / 2 && anchor - capacity / 2 + capacity <= total
            ==> navigation::window_start(total, Some(anchor), capacity) == anchor - capacity / 2,
        total > capacity && anchor < capacity / 2 ==> navigation::window_start(
            total,
            Some(anchor),
            capacity,
        ) == 0,
        total > capacity && anchor - capacity / 2 + capacity > total ==> navigation::window_start(
            total,
            Some(anchor),
            capacity,
        ) == total - capacity,
        navigation::window_start(total, None, capacity) == 0,
{
}

/// A weight is taken exactly where it still fits with everything taken before it.
pub proof fn lemma_weight_is_taken_where_it_fits(
    occupied: int,
    budget: int,
    weights: Seq<u64>,
    place: int,
)
    requires
        0 <= place < weights.len(),
    ensures
        navigation::fitting(occupied, budget, weights).len() == weights.len(),
        navigation::fitting(occupied, budget, weights)[place] <==> occupied
            + navigation::taken_weight(
            weights.take(place),
            navigation::fitting(occupied, budget, weights).take(place),
        ) + weights[place] <= budget,
{
    let earlier = weights.take(place);
    navigation::lemma_taken_weights_fit(occupied, budget, earlier);
    let all = navigation::fitting(occupied, budget, weights);
    let before = navigation::fitting(occupied, budget, earlier);
    assert(all.take(place) =~= before) by {
        assert forall|index: int| 0 <= index < place implies #[trigger] all.take(place)[index]
            == before[index] by {
            assert(earlier.take(index) =~= weights.take(index));
        }
    }
}

} // verus!
