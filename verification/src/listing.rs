//! The items beside the one on screen: what a scan lists, and in what order.

use vstd::prelude::*;

use crate::location::{ItemLocation, Place};
use crate::strings;
use crate::strings::comes_before;

verus! {

#[derive(Clone, Copy, PartialEq, Eq, Structural, Debug)]
pub enum SortMode {
    Name,
    Modified,
    Created,
    Size,
    Type,
}

impl SortMode {
    /// Stored order: the settings value is a position here, and so is the combo row.
    pub const IN_SETTING_ORDER: [SortMode; 5] = [
        SortMode::Name,
        SortMode::Modified,
        SortMode::Created,
        SortMode::Size,
        SortMode::Type,
    ];

    pub fn from_setting(value: u32) -> (mode: SortMode)
        ensures
            mode == (if value < 5 {
                SortMode::IN_SETTING_ORDER@[value as int]
            } else {
                SortMode::Name
            }),
    {
        if (value as usize) < SortMode::IN_SETTING_ORDER.len() {
            SortMode::IN_SETTING_ORDER[value as usize]
        } else {
            SortMode::Name
        }
    }

    pub fn description(self) -> (text: &'static str)
        ensures
            text@ == match self {
                SortMode::Name => "Name"@,
                SortMode::Modified => "Date modified"@,
                SortMode::Created => "Date created"@,
                SortMode::Size => "Size"@,
                SortMode::Type => "Type"@,
            },
    {
        match self {
            SortMode::Name => "Name",
            SortMode::Modified => "Date modified",
            SortMode::Created => "Date created",
            SortMode::Size => "Size",
            SortMode::Type => "Type",
        }
    }
}

#[derive(Clone, Copy, PartialEq, Eq, Structural, Debug)]
pub struct CoreOptions {
    pub sort_mode: SortMode,
    pub sort_descending: bool,
    pub preloading_mode: usize,
    pub loop_within_folder: bool,
    pub skip_hidden: bool,
    pub detect_format_by_content: bool,
}

/// The file facts a load reads once and everything downstream reuses; URL items have no time.
/// Times count 100 ns intervals from 1601.
#[derive(Clone, Copy, PartialEq, Eq, Structural, Debug)]
pub struct ItemMetadata {
    pub file_size: u64,
    pub modified: Option<u64>,
}

impl Default for ItemMetadata {
    fn default() -> (metadata: Self)
        ensures
            metadata == (ItemMetadata { file_size: 0, modified: None }),
    {
        ItemMetadata { file_size: 0, modified: None }
    }
}

/// The weight outlives the cache entry: eviction drops pixels, not this knowledge.
#[derive(Clone, Copy, PartialEq, Eq, Structural, Debug)]
pub enum DecodedWeight {
    Unknown,
    Known(u64),
    /// The probe failed; the item is never speculated on.
    Unavailable,
}

pub struct ListingEntry {
    pub location: ItemLocation,
    /// The place of the name in the natural order of the names scanned with it.
    pub name_rank: u64,
    pub file_size: u64,
    pub modified: u64,
    pub created: u64,
    /// Format name for Type sorting; the scan already knows the extension.
    pub format_name: &'static str,
    /// Cache weight of the fully decoded item; a probe or an arrival records it.
    pub weight: DecodedWeight,
}

#[verifier::ext_equal]
pub struct EntryModel {
    pub location: Place,
    pub name_rank: u64,
    pub file_size: u64,
    pub modified: u64,
    pub created: u64,
    pub format_name: Seq<char>,
    pub weight: DecodedWeight,
}

impl View for ListingEntry {
    type V = EntryModel;

    open spec fn view(&self) -> EntryModel {
        EntryModel {
            location: self.location@,
            name_rank: self.name_rank,
            file_size: self.file_size,
            modified: self.modified,
            created: self.created,
            format_name: self.format_name@,
            weight: self.weight,
        }
    }
}

impl EntryModel {
    /// The listing's own record of the file, in the shape a load and the cache compare.
    pub open spec fn metadata(self) -> ItemMetadata {
        ItemMetadata { file_size: self.file_size, modified: Some(self.modified) }
    }
}

impl ListingEntry {
    /// The listing's own record of the file, in the shape a load and the cache compare.
    pub fn metadata(&self) -> (metadata: ItemMetadata)
        ensures
            metadata == self@.metadata(),
    {
        ItemMetadata { file_size: self.file_size, modified: Some(self.modified) }
    }
}

/// What a list of entries holds.
pub open spec fn entry_models(entries: Seq<ListingEntry>) -> Seq<EntryModel> {
    entries.map_values(|entry: ListingEntry| entry@)
}

/// The first entry from `from` on that names the item of this identity.
pub open spec fn entry_position_from(entries: Seq<EntryModel>, identity: Place, from: int) -> Option<
    usize,
>
    decreases entries.len() - from,
{
    if from < 0 || from >= entries.len() {
        None
    } else if entries[from].location.identity() == identity {
        Some(from as usize)
    } else {
        entry_position_from(entries, identity, from + 1)
    }
}

/// Where the listing holds an item.
pub open spec fn entry_position(entries: Seq<EntryModel>, item: Place) -> Option<usize> {
    entry_position_from(entries, item.identity(), 0)
}

/// A found position is the first entry that names the item; where none is found, none does.
pub proof fn lemma_entry_position(entries: Seq<EntryModel>, item: Place, from: int)
    requires
        0 <= from,
        entries.len() <= usize::MAX,
    ensures
        match entry_position_from(entries, item.identity(), from) {
            Some(index) => from <= index < entries.len() && entries[index as int].location.identity()
                == item.identity() && forall|earlier: int|
                from <= earlier < index ==> (#[trigger] entries[earlier]).location.identity()
                    != item.identity(),
            None => forall|index: int|
                from <= index < entries.len() ==> (#[trigger] entries[index]).location.identity()
                    != item.identity(),
        },
    decreases entries.len() - from,
{
    if from < entries.len() && entries[from].location.identity() != item.identity() {
        lemma_entry_position(entries, item, from + 1);
    }
}

/// Where the listing holds an item.
pub fn position_in(entries: &Vec<ListingEntry>, location: &ItemLocation) -> (position: Option<usize>)
    ensures
        position == entry_position(entry_models(entries@), location@),
        position matches Some(index) ==> index < entries@.len(),
{
    let ghost models = entry_models(entries@);
    let mut index: usize = 0;
    while index < entries.len()
        invariant
            models == entry_models(entries@),
            index <= entries.len(),
            entry_position(models, location@) == entry_position_from(
                models,
                location@.identity(),
                index as int,
            ),
        decreases entries.len() - index,
    {
        if entries[index].location.same_item(location) {
            return Some(index);
        }
        index += 1;
    }
    None
}

/// The primary key of a sort puts one entry before another. Times and sizes run from the newest
/// and the largest down.
pub open spec fn key_before(first: EntryModel, second: EntryModel, mode: SortMode) -> bool {
    match mode {
        SortMode::Name => false,
        SortMode::Modified => first.modified > second.modified,
        SortMode::Created => first.created > second.created,
        SortMode::Size => first.file_size > second.file_size,
        SortMode::Type => strings::text_before(first.format_name, second.format_name),
    }
}

/// One entry sorts before another: by the key, by the natural order of the names where the keys
/// are the same.
pub open spec fn sorts_before(first: EntryModel, second: EntryModel, mode: SortMode) -> bool {
    key_before(first, second, mode) || (!key_before(second, first, mode) && first.name_rank
        < second.name_rank)
}

/// An entry put in place: behind everything it does not sort before.
pub open spec fn inserted(sorted: Seq<EntryModel>, entry: EntryModel, mode: SortMode) -> Seq<
    EntryModel,
>
    decreases sorted.len(),
{
    if sorted.len() > 0 && sorts_before(entry, sorted.last(), mode) {
        inserted(sorted.drop_last(), entry, mode).push(sorted.last())
    } else {
        sorted.push(entry)
    }
}

/// The entries in sorted order; entries that neither sorts before the other keep their order.
pub open spec fn sorted(entries: Seq<EntryModel>, mode: SortMode) -> Seq<EntryModel>
    decreases entries.len(),
{
    if entries.len() == 0 {
        entries
    } else {
        inserted(sorted(entries.drop_last(), mode), entries.last(), mode)
    }
}

/// The entries the way the options ask for them.
pub open spec fn arranged(entries: Seq<EntryModel>, options: CoreOptions) -> Seq<EntryModel> {
    if options.sort_descending {
        sorted(entries, options.sort_mode).reverse()
    } else {
        sorted(entries, options.sort_mode)
    }
}

/// The sort order is consistent: it never puts two entries before each other, and both it and its
/// complement chain.
pub proof fn lemma_sort_order_chains(a: EntryModel, b: EntryModel, c: EntryModel, mode: SortMode)
    ensures
        sorts_before(a, b, mode) && sorts_before(b, c, mode) ==> sorts_before(a, c, mode),
        !sorts_before(a, b, mode) && !sorts_before(b, c, mode) ==> !sorts_before(a, c, mode),
        !(sorts_before(a, b, mode) && sorts_before(b, a, mode)),
{
    strings::lemma_text_order_chains_from(a.format_name, b.format_name, c.format_name, 0);
    strings::lemma_text_order_chains_from(b.format_name, c.format_name, a.format_name, 0);
    strings::lemma_text_order_chains_from(c.format_name, a.format_name, b.format_name, 0);
    strings::lemma_text_order_chains_from(a.format_name, c.format_name, b.format_name, 0);
    strings::lemma_text_order_chains_from(c.format_name, b.format_name, a.format_name, 0);
    strings::lemma_text_order_chains_from(b.format_name, a.format_name, c.format_name, 0);
}

/// Two sorted halves woven together; where neither entry sorts before the other, the left one goes
/// first.
pub open spec fn merged(left: Seq<EntryModel>, right: Seq<EntryModel>, mode: SortMode) -> Seq<
    EntryModel,
>
    decreases left.len() + right.len(),
{
    if left.len() == 0 {
        right
    } else if right.len() == 0 {
        left
    } else if sorts_before(right.last(), left.last(), mode) {
        merged(left.drop_last(), right, mode).push(left.last())
    } else {
        merged(left, right.drop_last(), mode).push(right.last())
    }
}

proof fn lemma_inserted_last(entries: Seq<EntryModel>, entry: EntryModel, mode: SortMode)
    ensures
        inserted(entries, entry, mode).len() == entries.len() + 1,
        entries.len() > 0 && sorts_before(entry, entries.last(), mode) ==> inserted(
            entries,
            entry,
            mode,
        ).last() == entries.last() && inserted(entries, entry, mode).drop_last() == inserted(
            entries.drop_last(),
            entry,
            mode,
        ),
        !(entries.len() > 0 && sorts_before(entry, entries.last(), mode)) ==> inserted(
            entries,
            entry,
            mode,
        ).last() == entry && inserted(entries, entry, mode).drop_last() == entries,
    decreases entries.len(),
{
    if entries.len() > 0 && sorts_before(entry, entries.last(), mode) {
        lemma_inserted_last(entries.drop_last(), entry, mode);
        let inner = inserted(entries.drop_last(), entry, mode);
        assert(inner.push(entries.last()).drop_last() =~= inner);
    } else {
        assert(entries.push(entry).drop_last() =~= entries);
    }
}

proof fn lemma_inserting_into_a_merge(
    left: Seq<EntryModel>,
    right: Seq<EntryModel>,
    entry: EntryModel,
    mode: SortMode,
)
    ensures
        inserted(merged(left, right, mode), entry, mode) == merged(
            left,
            inserted(right, entry, mode),
            mode,
        ),
    decreases left.len() + right.len(),
{
    lemma_inserted_last(right, entry, mode);
    let whole = merged(left, right, mode);
    lemma_inserted_last(whole, entry, mode);
    if left.len() == 0 {
    } else if right.len() == 0 {
        if sorts_before(entry, left.last(), mode) {
            lemma_inserting_into_a_merge(left.drop_last(), right, entry, mode);
        }
    } else {
        lemma_sort_order_chains(entry, right.last(), left.last(), mode);
        lemma_sort_order_chains(right.last(), left.last(), entry, mode);
        if sorts_before(right.last(), left.last(), mode) {
            let rest = merged(left.drop_last(), right, mode);
            assert(whole == rest.push(left.last()));
            assert(whole.last() == left.last());
            assert(whole.drop_last() =~= rest);
            if sorts_before(entry, left.last(), mode) {
                lemma_inserting_into_a_merge(left.drop_last(), right, entry, mode);
            }
        } else {
            let rest = merged(left, right.drop_last(), mode);
            assert(whole == rest.push(right.last()));
            assert(whole.last() == right.last());
            assert(whole.drop_last() =~= rest);
            if sorts_before(entry, right.last(), mode) {
                lemma_inserting_into_a_merge(left, right.drop_last(), entry, mode);
            }
        }
    }
}

proof fn lemma_sorted_halves_merge(left: Seq<EntryModel>, right: Seq<EntryModel>, mode: SortMode)
    ensures
        sorted(left + right, mode) == merged(sorted(left, mode), sorted(right, mode), mode),
    decreases right.len(),
{
    if right.len() == 0 {
        assert(left + right =~= left);
        assert(sorted(right, mode).len() == 0);
        if sorted(left, mode).len() == 0 {
            assert(sorted(left, mode) =~= sorted(right, mode));
        }
    } else {
        assert((left + right).drop_last() =~= left + right.drop_last());
        lemma_sorted_halves_merge(left, right.drop_last(), mode);
        lemma_inserting_into_a_merge(
            sorted(left, mode),
            sorted(right.drop_last(), mode),
            right.last(),
            mode,
        );
    }
}

proof fn lemma_inserted_keeps_order(entries: Seq<EntryModel>, entry: EntryModel, mode: SortMode)
    requires
        forall|i: int, j: int|
            0 <= i < j < entries.len() ==> !sorts_before(
                #[trigger] entries[j],
                #[trigger] entries[i],
                mode,
            ),
    ensures
        forall|i: int, j: int|
            0 <= i < j < inserted(entries, entry, mode).len() ==> !sorts_before(
                #[trigger] inserted(entries, entry, mode)[j],
                #[trigger] inserted(entries, entry, mode)[i],
                mode,
            ),
        inserted(entries, entry, mode).to_multiset() == entries.to_multiset().insert(entry),
        forall|i: int|
            0 <= i < inserted(entries, entry, mode).len() ==> #[trigger] inserted(
                entries,
                entry,
                mode,
            )[i] == entry || entries.contains(inserted(entries, entry, mode)[i]),
    decreases entries.len(),
{
    broadcast use vstd::seq_lib::group_to_multiset_ensures;

    let whole = inserted(entries, entry, mode);
    lemma_inserted_last(entries, entry, mode);
    if entries.len() > 0 && sorts_before(entry, entries.last(), mode) {
        let rest = entries.drop_last();
        lemma_inserted_keeps_order(rest, entry, mode);
        let inner = inserted(rest, entry, mode);
        assert(entries =~= rest.push(entries.last()));
        assert forall|i: int, j: int| 0 <= i < j < whole.len() implies !sorts_before(
            #[trigger] whole[j],
            #[trigger] whole[i],
            mode,
        ) by {
            if j < inner.len() {
                assert(whole[j] == inner[j] && whole[i] == inner[i]);
            } else {
                assert(whole[j] == entries.last() && whole[i] == inner[i]);
                if inner[i] == entry {
                    lemma_sort_order_chains(entry, entries.last(), entry, mode);
                } else {
                    let k = choose|k: int| 0 <= k < rest.len() && rest[k] == inner[i];
                    assert(entries[k] == rest[k]);
                    assert(!sorts_before(entries[entries.len() - 1], entries[k], mode));
                }
            }
        }
        assert forall|i: int| 0 <= i < whole.len() implies #[trigger] whole[i] == entry
            || entries.contains(whole[i]) by {
            if i < inner.len() {
                assert(whole[i] == inner[i]);
                if inner[i] != entry {
                    let k = choose|k: int| 0 <= k < rest.len() && rest[k] == inner[i];
                    assert(entries[k] == inner[i]);
                }
            } else {
                assert(whole[i] == entries[entries.len() - 1]);
            }
        }
        assert(whole.to_multiset() =~= entries.to_multiset().insert(entry));
    } else {
        assert(whole == entries.push(entry));
        assert forall|i: int, j: int| 0 <= i < j < whole.len() implies !sorts_before(
            #[trigger] whole[j],
            #[trigger] whole[i],
            mode,
        ) by {
            if j == entries.len() {
                assert(whole[i] == entries[i]);
                let last = entries.last();
                if i < entries.len() - 1 {
                    assert(!sorts_before(entries[entries.len() - 1], entries[i], mode));
                    lemma_sort_order_chains(entry, last, entries[i], mode);
                }
            } else {
                assert(whole[i] == entries[i] && whole[j] == entries[j]);
            }
        }
        assert forall|i: int| 0 <= i < whole.len() implies #[trigger] whole[i] == entry
            || entries.contains(whole[i]) by {
            if i < entries.len() {
                assert(whole[i] == entries[i]);
            }
        }
    }
}

/// Sorting loses and adds nothing, and leaves no entry behind one it sorts before.
pub proof fn lemma_sorted_is_ordered(entries: Seq<EntryModel>, mode: SortMode)
    ensures
        sorted(entries, mode).len() == entries.len(),
        sorted(entries, mode).to_multiset() == entries.to_multiset(),
        forall|i: int, j: int|
            0 <= i < j < entries.len() ==> !sorts_before(
                #[trigger] sorted(entries, mode)[j],
                #[trigger] sorted(entries, mode)[i],
                mode,
            ),
    decreases entries.len(),
{
    broadcast use vstd::seq_lib::group_to_multiset_ensures;

    if entries.len() > 0 {
        let rest = entries.drop_last();
        lemma_sorted_is_ordered(rest, mode);
        lemma_inserted_keeps_order(sorted(rest, mode), entries.last(), mode);
        lemma_inserted_last(sorted(rest, mode), entries.last(), mode);
        assert(entries =~= rest.push(entries.last()));
    }
}

fn entry_sorts_before(first: &ListingEntry, second: &ListingEntry, mode: SortMode) -> (before: bool)
    ensures
        before == sorts_before(first@, second@, mode),
{
    let (ahead, behind): (bool, bool) = match mode {
        SortMode::Name => (false, false),
        SortMode::Modified => (first.modified > second.modified, second.modified > first.modified),
        SortMode::Created => (first.created > second.created, second.created > first.created),
        SortMode::Size => (
            first.file_size > second.file_size,
            second.file_size > first.file_size,
        ),
        SortMode::Type => (
            comes_before(first.format_name, second.format_name),
            comes_before(second.format_name, first.format_name),
        ),
    };
    ahead || (!behind && first.name_rank < second.name_rank)
}

/// The entries in reverse, drained from one list into another.
fn reversed(entries: Vec<ListingEntry>) -> (turned: Vec<ListingEntry>)
    ensures
        entry_models(turned@) == entry_models(entries@).reverse(),
{
    let mut rest = entries;
    let mut turned: Vec<ListingEntry> = Vec::new();
    let ghost whole = entry_models(entries@);
    while rest.len() > 0
        invariant
            entry_models(turned@) + entry_models(rest@).reverse() == whole.reverse(),
        decreases rest.len(),
    {
        let ghost before = turned@;
        let ghost remaining = rest@;
        if let Some(entry) = rest.pop() {
            turned.push(entry);
            proof {
                assert(entry_models(turned@) =~= entry_models(before).push(entry@));
                assert(entry_models(remaining) =~= entry_models(rest@).push(entry@));
                assert(entry_models(remaining).reverse() =~= seq![entry@] + entry_models(
                    rest@,
                ).reverse());
                assert(entry_models(before) + (seq![entry@] + entry_models(rest@).reverse())
                    =~= entry_models(turned@) + entry_models(rest@).reverse());
            }
        }
    }
    assert(entry_models(turned@) + entry_models(rest@).reverse() =~= entry_models(turned@));
    turned
}

#[verifier::spinoff_prover]
#[verifier::rlimit(60)]
fn merge(left: Vec<ListingEntry>, right: Vec<ListingEntry>, mode: SortMode) -> (whole: Vec<
    ListingEntry,
>)
    ensures
        entry_models(whole@) == merged(entry_models(left@), entry_models(right@), mode),
{
    let ghost goal = merged(entry_models(left@), entry_models(right@), mode);
    let mut first = left;
    let mut second = right;
    let mut backward: Vec<ListingEntry> = Vec::new();
    assert(entry_models(backward@).reverse() =~= Seq::<EntryModel>::empty());
    assert(merged(entry_models(first@), entry_models(second@), mode) + Seq::<EntryModel>::empty()
        =~= goal);
    while first.len() > 0 || second.len() > 0
        invariant
            merged(entry_models(first@), entry_models(second@), mode) + entry_models(
                backward@,
            ).reverse() == goal,
        decreases first.len() + second.len(),
    {
        let from_left: bool = if first.len() == 0 {
            false
        } else if second.len() == 0 {
            true
        } else {
            entry_sorts_before(&second[second.len() - 1], &first[first.len() - 1], mode)
        };
        let ghost first_before = entry_models(first@);
        let ghost second_before = entry_models(second@);
        let ghost done = entry_models(backward@);
        let taken = if from_left {
            first.pop()
        } else {
            second.pop()
        };
        if let Some(entry) = taken {
            backward.push(entry);
            proof {
                assert(entry_models(backward@) =~= done.push(entry@));
                assert(entry_models(backward@).reverse() =~= seq![entry@] + done.reverse());
                let rest = merged(entry_models(first@), entry_models(second@), mode);
                if from_left {
                    assert(first_before =~= entry_models(first@).push(entry@));
                    assert(first_before.drop_last() =~= entry_models(first@));
                    assert(second_before =~= entry_models(second@));
                    if second_before.len() == 0 {
                        assert(merged(first_before, second_before, mode) =~= rest.push(entry@)) by {
                            if entry_models(first@).len() == 0 {
                                assert(rest =~= entry_models(first@));
                            }
                        }
                    }
                } else {
                    assert(second_before =~= entry_models(second@).push(entry@));
                    assert(second_before.drop_last() =~= entry_models(second@));
                    assert(first_before =~= entry_models(first@));
                }
                assert(merged(first_before, second_before, mode) =~= rest.push(entry@));
                assert(rest.push(entry@) + done.reverse() =~= rest + entry_models(
                    backward@,
                ).reverse());
            }
        }
    }
    assert(merged(entry_models(first@), entry_models(second@), mode).len() == 0);
    assert(merged(entry_models(first@), entry_models(second@), mode) + entry_models(
        backward@,
    ).reverse() =~= entry_models(backward@).reverse());
    reversed(backward)
}

fn sort(entries: Vec<ListingEntry>, mode: SortMode) -> (whole: Vec<ListingEntry>)
    ensures
        entry_models(whole@) == sorted(entry_models(entries@), mode),
    decreases entries.len(),
{
    if entries.len() <= 1 {
        proof {
            let models = entry_models(entries@);
            if models.len() == 1 {
                assert(sorted(models.drop_last(), mode) == models.drop_last());
                assert(models.drop_last().push(models.last()) =~= models);
            }
        }
        return entries;
    }
    let mut left = entries;
    let middle: usize = left.len() / 2;
    let right = left.split_off(middle);
    proof {
        assert(entry_models(left@) + entry_models(right@) =~= entry_models(entries@));
        lemma_sorted_halves_merge(entry_models(left@), entry_models(right@), mode);
    }
    let first = sort(left, mode);
    let second = sort(right, mode);
    merge(first, second, mode)
}

/// Puts the entries in the order the options ask for.
pub fn sort_entries(entries: Vec<ListingEntry>, options: &CoreOptions) -> (whole: Vec<ListingEntry>)
    ensures
        entry_models(whole@) == arranged(entry_models(entries@), *options),
        whole@.len() == entries@.len(),
{
    proof {
        lemma_sorted_is_ordered(entry_models(entries@), options.sort_mode);
    }
    let whole = sort(entries, options.sort_mode);
    assert(entry_models(whole@).len() == whole@.len());
    if options.sort_descending {
        let turned = reversed(whole);
        assert(entry_models(turned@).len() == turned@.len());
        turned
    } else {
        whole
    }
}

/// How many names stand before this place of an order, told apart from one another: a name `tied` with
/// the one before it counts as that one.
pub open spec fn told_apart(tied: Seq<bool>, place: int) -> int
    decreases place,
{
    if place <= 0 || place >= tied.len() {
        0
    } else if tied[place] {
        told_apart(tied, place - 1)
    } else {
        told_apart(tied, place - 1) + 1
    }
}

/// Every name stands at one place of the order.
pub open spec fn orders(order: Seq<usize>) -> bool {
    &&& forall|place: int| 0 <= place < order.len() ==> #[trigger] order[place] < order.len()
    &&& order.no_duplicates()
}

/// The ranks of names by the order they sort in: `order` lists the names' indices, and `tied` says
/// which of them the order does not tell from the one before. Tied names share a rank.
pub fn name_ranks(order: &Vec<usize>, tied: &Vec<bool>) -> (ranks: Vec<u64>)
    requires
        orders(order@),
        tied@.len() == order@.len(),
    ensures
        ranks@.len() == order@.len(),
        forall|place: int|
            0 <= place < order@.len() ==> #[trigger] ranks@[order@[place] as int] == told_apart(
                tied@,
                place,
            ),
{
    let mut ranks: Vec<u64> = Vec::new();
    ranks.resize(order.len(), 0);
    let mut rank: u64 = 0;
    let mut place: usize = 0;
    while place < order.len()
        invariant
            orders(order@),
            tied@.len() == order@.len(),
            ranks@.len() == order@.len(),
            place <= order@.len(),
            order@.len() <= usize::MAX,
            rank <= place,
            place > 0 ==> rank == told_apart(tied@, place - 1),
            place == 0 ==> rank == 0,
            forall|earlier: int|
                0 <= earlier < place ==> #[trigger] ranks@[order@[earlier] as int] == told_apart(
                    tied@,
                    earlier,
                ),
        decreases order@.len() - place,
    {
        if place > 0 && !tied[place] {
            rank += 1;
        }
        ranks.set(order[place], rank);
        place += 1;
    }
    ranks
}

/// A name that sorts before another has no higher rank, and the same one only where every name between
/// is tied with the one before it.
pub proof fn lemma_ranks_follow_the_order(tied: Seq<bool>, first: int, second: int)
    requires
        0 <= first <= second < tied.len(),
    ensures
        0 <= told_apart(tied, first) <= told_apart(tied, second),
        told_apart(tied, first) == told_apart(tied, second) <==> (forall|place: int|
            first < place <= second ==> tied[place]),
    decreases second,
{
    if first < second {
        lemma_ranks_follow_the_order(tied, first, second - 1);
        if told_apart(tied, first) == told_apart(tied, second) {
            assert(tied[second]);
        }
    } else if second > 0 {
        lemma_ranks_follow_the_order(tied, second - 1, second - 1);
    }
}

} // verus!
