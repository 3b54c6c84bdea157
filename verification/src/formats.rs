//! The format list the settings tree and the open dialog both read.

use vstd::prelude::*;

use crate::archive;
use crate::registry;
use crate::strings;
use crate::strings::comes_before;

verus! {

/// A format group: its name and its extensions.
pub open spec fn group_models(groups: Seq<(&'static str, Vec<&'static str>)>) -> Seq<
    (Seq<char>, Seq<Seq<char>>),
> {
    groups.map_values(|group: (&'static str, Vec<&'static str>)| (group.0@, strings::texts(group.1@)))
}

/// A group put in place: behind every group that its name does not come before.
pub open spec fn inserted(
    groups: Seq<(Seq<char>, Seq<Seq<char>>)>,
    group: (Seq<char>, Seq<Seq<char>>),
) -> Seq<(Seq<char>, Seq<Seq<char>>)>
    decreases groups.len(),
{
    if groups.len() > 0 && strings::text_before(group.0, groups.last().0) {
        inserted(groups.drop_last(), group).push(groups.last())
    } else {
        groups.push(group)
    }
}

/// The groups by name; groups of one name keep their order.
pub open spec fn by_name(groups: Seq<(Seq<char>, Seq<Seq<char>>)>) -> Seq<
    (Seq<char>, Seq<Seq<char>>),
>
    decreases groups.len(),
{
    if groups.len() == 0 {
        Seq::empty()
    } else {
        inserted(by_name(groups.drop_last()), groups.last())
    }
}

/// The image formats' groups, in registry order.
pub open spec fn image_groups() -> Seq<(Seq<char>, Seq<Seq<char>>)> {
    registry::FORMAT_ORDER@.map_values(
        |format: registry::ImageFormat| (format.title(), registry::listed_extensions(format)),
    )
}

/// The archives' groups.
pub open spec fn archive_groups() -> Seq<(Seq<char>, Seq<Seq<char>>)> {
    seq![
        ("Archive"@, seq!["zip"@, "7z"@, "rar"@, "tar"@]),
        ("Comic Book Archive"@, seq!["cbz"@, "cbr"@, "cb7"@, "cbt"@]),
    ]
}

fn insert_group(
    groups: &mut Vec<(&'static str, Vec<&'static str>)>,
    group: (&'static str, Vec<&'static str>),
)
    ensures
        group_models(final(groups)@) == inserted(
            group_models(old(groups)@),
            (group.0@, strings::texts(group.1@)),
        ),
{
    let ghost models = group_models(groups@);
    let ghost model = (group.0@, strings::texts(group.1@));
    let mut place: usize = groups.len();
    assert(models.take(place as int) =~= models);
    assert(inserted(models, model) + models.skip(place as int) =~= inserted(models, model));
    while place > 0 && comes_before(group.0, groups[place - 1].0)
        invariant
            models == group_models(groups@),
            model == (group.0@, strings::texts(group.1@)),
            place <= groups.len(),
            inserted(models, model) == inserted(models.take(place as int), model) + models.skip(
                place as int,
            ),
        decreases place,
    {
        let ghost shorter = models.take(place as int);
        assert(shorter.last() == models[place - 1]);
        assert(shorter.drop_last() =~= models.take(place - 1));
        assert(inserted(models.take(place - 1), model).push(models[place - 1]) + models.skip(
            place as int,
        ) =~= inserted(models.take(place - 1), model) + models.skip(place - 1));
        place -= 1;
    }
    proof {
        if place > 0 {
            assert(models.take(place as int).last() == models[place - 1]);
        }
    }
    groups.insert(place, group);
    assert(group_models(groups@) =~= models.take(place as int).push(model) + models.skip(
        place as int,
    ));
}

pub fn sorted_format_groups() -> (groups: Vec<(&'static str, Vec<&'static str>)>)
    ensures
        group_models(groups@) == by_name(image_groups() + archive_groups()),
{
    let mut unsorted = registry::format_groups();
    let ghost images = group_models(unsorted@);
    assert(images =~= image_groups());
    let mut archives = archive::format_groups();
    assert(group_models(archives@) =~= archive_groups());
    let ghost joined = group_models(archives@);
    unsorted.append(&mut archives);
    assert(group_models(unsorted@) =~= images + joined);
    let ghost models = group_models(unsorted@);
    let mut groups: Vec<(&'static str, Vec<&'static str>)> = Vec::new();
    assert(group_models(groups@) =~= Seq::empty());
    assert(models.take(0) =~= Seq::empty());
    let mut index: usize = 0;
    while index < unsorted.len()
        invariant
            models == group_models(unsorted@),
            index <= unsorted.len(),
            group_models(groups@) == by_name(models.take(index as int)),
        decreases unsorted.len() - index,
    {
        assert(models.take(index + 1).drop_last() =~= models.take(index as int));
        let extensions = unsorted[index].1.clone();
        assert(strings::texts(extensions@) =~= strings::texts(unsorted@[index as int].1@));
        insert_group(&mut groups, (unsorted[index].0, extensions));
        index += 1;
    }
    assert(models.take(index as int) =~= models);
    groups
}

proof fn lemma_inserted_keeps_order(
    groups: Seq<(Seq<char>, Seq<Seq<char>>)>,
    group: (Seq<char>, Seq<Seq<char>>),
)
    requires
        forall|low: int, high: int|
            0 <= low < high < groups.len() ==> !strings::text_before(
                (#[trigger] groups[high]).0,
                (#[trigger] groups[low]).0,
            ),
    ensures
        ({
            let whole = inserted(groups, group);
            &&& whole.len() == groups.len() + 1
            &&& forall|low: int, high: int|
                0 <= low < high < whole.len() ==> !strings::text_before(
                    (#[trigger] whole[high]).0,
                    (#[trigger] whole[low]).0,
                )
            &&& forall|index: int|
                0 <= index < whole.len() ==> #[trigger] whole[index] == group || groups.contains(
                    whole[index],
                )
        }),
    decreases groups.len(),
{
    let whole = inserted(groups, group);
    if groups.len() > 0 && strings::text_before(group.0, groups.last().0) {
        let shorter = groups.drop_last();
        lemma_inserted_keeps_order(shorter, group);
        let inner = inserted(shorter, group);
        assert forall|low: int, high: int|
            0 <= low < high < whole.len() implies !strings::text_before(
            (#[trigger] whole[high]).0,
            (#[trigger] whole[low]).0,
        ) by {
            if high < inner.len() {
                assert(whole[high] == inner[high] && whole[low] == inner[low]);
            } else {
                assert(whole[high] == groups.last());
                assert(whole[low] == inner[low]);
                if inner[low] == group {
                    strings::lemma_text_order_chains_from(group.0, groups.last().0, group.0, 0);
                } else {
                    assert(shorter.contains(inner[low]));
                    let place = choose|place: int|
                        0 <= place < shorter.len() && shorter[place] == inner[low];
                    assert(groups[place] == inner[low]);
                    assert(groups[groups.len() - 1] == groups.last());
                }
            }
        }
        assert forall|index: int| 0 <= index < whole.len() implies #[trigger] whole[index] == group
            || groups.contains(whole[index]) by {
            if index < inner.len() {
                assert(whole[index] == inner[index]);
                if inner[index] != group {
                    assert(shorter.contains(inner[index]));
                    let place = choose|place: int|
                        0 <= place < shorter.len() && shorter[place] == inner[index];
                    assert(groups[place] == inner[index]);
                }
            } else {
                assert(groups[groups.len() - 1] == whole[index]);
            }
        }
    } else {
        assert forall|low: int, high: int|
            0 <= low < high < whole.len() implies !strings::text_before(
            (#[trigger] whole[high]).0,
            (#[trigger] whole[low]).0,
        ) by {
            if high < groups.len() {
                assert(whole[high] == groups[high] && whole[low] == groups[low]);
            } else {
                assert(whole[high] == group && whole[low] == groups[low]);
                if low < groups.len() - 1 {
                    assert(!strings::text_before(groups[groups.len() - 1].0, groups[low].0));
                    strings::lemma_text_order_chains_from(
                        groups[low].0,
                        groups[groups.len() - 1].0,
                        group.0,
                        0,
                    );
                }
            }
        }
        assert forall|index: int| 0 <= index < whole.len() implies #[trigger] whole[index] == group
            || groups.contains(whole[index]) by {
            if index < groups.len() {
                assert(whole[index] == groups[index]);
            }
        }
    }
}

/// The groups stand by name: none comes before an earlier one.
pub proof fn lemma_groups_stand_by_name(groups: Seq<(Seq<char>, Seq<Seq<char>>)>)
    ensures
        by_name(groups).len() == groups.len(),
        forall|low: int, high: int|
            0 <= low < high < by_name(groups).len() ==> !strings::text_before(
                (#[trigger] by_name(groups)[high]).0,
                (#[trigger] by_name(groups)[low]).0,
            ),
    decreases groups.len(),
{
    if groups.len() > 0 {
        lemma_groups_stand_by_name(groups.drop_last());
        lemma_inserted_keeps_order(by_name(groups.drop_last()), groups.last());
    }
}

} // verus!
