//! The file association page: a tree of format groups with three-state check images.

use vstd::prelude::*;

use crate::options;
use crate::options::{AssociationExtension, OptionsModel, OptionsState};
use crate::strings;
use crate::strings::holds_text;

verus! {

/// A check image of the tree.
#[derive(Clone, Copy, PartialEq, Eq, Structural, Debug)]
pub enum CheckImage {
    Unchecked,
    Checked,
    Partial,
}

/// What a row of the tree stands for.
#[derive(Clone, Copy, PartialEq, Eq, Structural, Debug)]
pub enum AssociationItem {
    Extension(usize),
    Group(usize),
}

/// The bit that tells a group's item data from an extension's.
pub const GROUP_FLAG: u64 = 0x1000_0000;

/// An item as the number its row carries.
pub open spec fn item_number(item: AssociationItem) -> int {
    match item {
        AssociationItem::Extension(index) => index as int,
        AssociationItem::Group(index) => GROUP_FLAG + index,
    }
}

/// The item a row's number stands for.
pub open spec fn item_of(number: u64) -> AssociationItem {
    if number & GROUP_FLAG != 0 {
        AssociationItem::Group((number & !GROUP_FLAG) as usize)
    } else {
        AssociationItem::Extension(number as usize)
    }
}

pub fn pack_item(item: AssociationItem) -> (number: u64)
    requires
        match item {
            AssociationItem::Extension(index) => index < GROUP_FLAG,
            AssociationItem::Group(index) => index < GROUP_FLAG,
        },
    ensures
        number == item_number(item),
{
    match item {
        AssociationItem::Extension(index) => index as u64,
        AssociationItem::Group(index) => GROUP_FLAG + index as u64,
    }
}

pub fn unpack_item(number: u64) -> (item: AssociationItem)
    ensures
        item == item_of(number),
{
    if number & GROUP_FLAG != 0 {
        AssociationItem::Group((number & !GROUP_FLAG) as usize)
    } else {
        AssociationItem::Extension(number as usize)
    }
}

/// A row's number gives back what the row stands for.
pub proof fn lemma_item_round_trip(item: AssociationItem)
    requires
        match item {
            AssociationItem::Extension(index) => index < GROUP_FLAG,
            AssociationItem::Group(index) => index < GROUP_FLAG,
        },
    ensures
        item_of(item_number(item) as u64) == item,
{
    match item {
        AssociationItem::Extension(index) => {
            let number = index as u64;
            assert(number < 0x1000_0000 ==> number & 0x1000_0000 == 0) by (bit_vector);
        },
        AssociationItem::Group(index) => {
            let small = index as u64;
            let number = (GROUP_FLAG + index) as u64;
            assert(small < 0x1000_0000 && number == 0x1000_0000 + small ==> number & 0x1000_0000
                != 0 && number & !0x1000_0000u64 == small) by (bit_vector);
        },
    }
}

/// An extension as the system writes it.
pub open spec fn dotted(extension: Seq<char>) -> Seq<char> {
    seq!['.'] + extension
}

/// Every extension of the groups, in order.
pub open spec fn offered(groups: Seq<(Seq<char>, Seq<Seq<char>>)>) -> Seq<Seq<char>>
    decreases groups.len(),
{
    if groups.len() == 0 {
        Seq::empty()
    } else {
        offered(groups.drop_last()) + groups.last().1.map_values(
            |extension: Seq<char>| dotted(extension),
        )
    }
}

/// This many places from one on.
pub open spec fn run_of(start: nat, count: nat) -> Seq<usize> {
    Seq::new(count, |index: int| (start + index) as usize)
}

/// The members of each group that is shown as one: a group of a single extension is shown as the
/// extension itself.
pub open spec fn grouped(groups: Seq<(Seq<char>, Seq<Seq<char>>)>) -> Seq<Seq<usize>>
    decreases groups.len(),
{
    if groups.len() == 0 {
        Seq::empty()
    } else if groups.last().1.len() == 1 {
        grouped(groups.drop_last())
    } else {
        grouped(groups.drop_last()).push(
            run_of(offered(groups.drop_last()).len(), groups.last().1.len()),
        )
    }
}

/// A row of the tree: its label, what it stands for, and the group it is under.
pub struct AssociationRow {
    pub label: String,
    pub item: AssociationItem,
    pub parent: Option<usize>,
}

#[verifier::ext_equal]
pub struct AssociationRowModel {
    pub label: Seq<char>,
    pub item: AssociationItem,
    pub parent: Option<usize>,
}

impl View for AssociationRow {
    type V = AssociationRowModel;

    open spec fn view(&self) -> AssociationRowModel {
        AssociationRowModel { label: self.label@, item: self.item, parent: self.parent }
    }
}

pub open spec fn association_rows(rows: Seq<AssociationRow>) -> Seq<AssociationRowModel> {
    rows.map_values(|row: AssociationRow| row@)
}

/// The rows of one group, its extensions starting at this place, it being the group of this number.
pub open spec fn rows_of_group(
    name: Seq<char>,
    extensions: Seq<Seq<char>>,
    start: nat,
    group: nat,
) -> Seq<AssociationRowModel> {
    if extensions.len() == 1 {
        seq![
            AssociationRowModel {
                label: name + " ("@ + dotted(extensions[0]) + ")"@,
                item: AssociationItem::Extension(start as usize),
                parent: None,
            },
        ]
    } else {
        seq![
            AssociationRowModel {
                label: name,
                item: AssociationItem::Group(group as usize),
                parent: None,
            },
        ] + Seq::new(
            extensions.len(),
            |index: int|
                AssociationRowModel {
                    label: dotted(extensions[index]),
                    item: AssociationItem::Extension((start + index) as usize),
                    parent: Some(group as usize),
                },
        )
    }
}

/// The rows of the tree, group by group.
pub open spec fn tree_rows(groups: Seq<(Seq<char>, Seq<Seq<char>>)>) -> Seq<AssociationRowModel>
    decreases groups.len(),
{
    if groups.len() == 0 {
        Seq::empty()
    } else {
        tree_rows(groups.drop_last()) + rows_of_group(
            groups.last().0,
            groups.last().1,
            offered(groups.drop_last()).len(),
            grouped(groups.drop_last()).len(),
        )
    }
}

/// The extensions as the page first shows them: checked where they are associated.
pub open spec fn initial_checks(offered: Seq<Seq<char>>, saved: Seq<Seq<char>>) -> Seq<(Seq<char>, bool)> {
    offered.map_values(|extension: Seq<char>| (extension, saved.contains(extension)))
}

/// How many members of a group are checked, of the first of them.
pub open spec fn checked_count(
    extensions: Seq<(Seq<char>, bool)>,
    members: Seq<usize>,
) -> nat
    decreases members.len(),
{
    if members.len() == 0 {
        0
    } else {
        checked_count(extensions, members.drop_last()) + if extensions[members.last() as int].1 {
            1nat
        } else {
            0nat
        }
    }
}

/// The check image of a group.
pub open spec fn image_of(extensions: Seq<(Seq<char>, bool)>, members: Seq<usize>) -> CheckImage {
    if checked_count(extensions, members) == 0 {
        CheckImage::Unchecked
    } else if checked_count(extensions, members) == members.len() {
        CheckImage::Checked
    } else {
        CheckImage::Partial
    }
}

/// Whether every member of a group is checked.
pub open spec fn all_checked(extensions: Seq<(Seq<char>, bool)>, members: Seq<usize>) -> bool {
    forall|place: int|
        0 <= place < members.len() ==> extensions[(#[trigger] members[place]) as int].1
}

/// The extensions with the members of a group checked or not.
pub open spec fn members_set(
    extensions: Seq<(Seq<char>, bool)>,
    members: Seq<usize>,
    checked: bool,
) -> Seq<(Seq<char>, bool)> {
    Seq::new(
        extensions.len(),
        |index: int|
            if members.contains(index as usize) {
                (extensions[index].0, checked)
            } else {
                extensions[index]
            },
    )
}

/// The extensions after a row was toggled: an extension turns over, a group becomes checked as a whole
/// unless it was.
pub open spec fn toggled(model: OptionsModel, item: AssociationItem) -> Seq<(Seq<char>, bool)> {
    match item {
        AssociationItem::Extension(index) => model.extensions.update(
            index as int,
            (model.extensions[index as int].0, !model.extensions[index as int].1),
        ),
        AssociationItem::Group(group) => members_set(
            model.extensions,
            model.groups[group as int],
            !all_checked(model.extensions, model.groups[group as int]),
        ),
    }
}

/// The first group, from this one on, that an extension is in.
pub open spec fn group_from(groups: Seq<Seq<usize>>, extension: usize, group: int) -> Option<int>
    decreases groups.len() - group,
{
    if group < 0 || group >= groups.len() {
        None
    } else if groups[group].contains(extension) {
        Some(group)
    } else {
        group_from(groups, extension, group + 1)
    }
}

/// The image of a row that is checked or not; groups pick their own from the member count.
pub fn check_state(checked: bool) -> (image: CheckImage)
    ensures
        image == (if checked {
            CheckImage::Checked
        } else {
            CheckImage::Unchecked
        }),
{
    if checked {
        CheckImage::Checked
    } else {
        CheckImage::Unchecked
    }
}

fn dotted_text(extension: &str) -> (text: String)
    ensures
        text@ == dotted(extension@),
{
    let mut text = String::new();
    text.push('.');
    text.append(extension);
    assert(text@ =~= dotted(extension@));
    text
}

fn holds_place(members: &Vec<usize>, extension: usize) -> (held: bool)
    ensures
        held == members@.contains(extension),
{
    let mut place: usize = 0;
    while place < members.len()
        invariant
            place <= members.len(),
            forall|earlier: int| 0 <= earlier < place ==> members@[earlier] != extension,
        decreases members.len() - place,
    {
        if members[place] == extension {
            assert(members@[place as int] == extension);
            return true;
        }
        place += 1;
    }
    false
}

impl OptionsState {
    /// Puts the extensions of one group on the page; answers its rows.
    fn add_group(&mut self, name: &str, extensions: &Vec<&'static str>, rows: &mut Vec<AssociationRow>)
        requires
            old(self)@.sound(),
            old(self).extensions@.len() + extensions@.len() <= usize::MAX,
            old(self).groups@.len() < usize::MAX,
        ensures
            final(self)@ == (OptionsModel {
                extensions: old(self)@.extensions + initial_checks(
                    strings::texts(extensions@).map_values(
                        |extension: Seq<char>| dotted(extension),
                    ),
                    old(self)@.saved_associations,
                ),
                groups: if extensions@.len() == 1 {
                    old(self)@.groups
                } else {
                    old(self)@.groups.push(
                        run_of(old(self)@.extensions.len(), extensions@.len()),
                    )
                },
                ..old(self)@
            }),
            final(self)@.sound(),
            association_rows(final(rows)@) == association_rows(old(rows)@) + rows_of_group(
                name@,
                strings::texts(extensions@),
                old(self)@.extensions.len(),
                old(self)@.groups.len(),
            ),
    {
        let ghost before = self@;
        let ghost texts = strings::texts(extensions@);
        let ghost dots = texts.map_values(|extension: Seq<char>| dotted(extension));
        let ghost checks = initial_checks(dots, before.saved_associations);
        let ghost shown = association_rows(rows@);
        let start: usize = self.extensions.len();
        let group: usize = self.groups.len();
        assert(before.extensions.len() == start && before.groups.len() == group);
        let single: bool = extensions.len() == 1;
        let ghost all_rows = rows_of_group(name@, texts, start as nat, group as nat);
        if !single {
            let header = AssociationRow {
                label: name.to_owned(),
                item: AssociationItem::Group(group),
                parent: None,
            };
            assert(header@ =~= all_rows[0]);
            rows.push(header);
            assert(association_rows(rows@) =~= shown + all_rows.take(1));
        } else {
            assert(association_rows(rows@) =~= shown + all_rows.take(0));
        }
        let ghost lead: int = if single {
            0
        } else {
            1
        };
        let mut members: Vec<usize> = Vec::new();
        let mut index: usize = 0;
        assert(self@.extensions =~= before.extensions + checks.take(0));
        while index < extensions.len()
            invariant
                before == old(self)@,
                texts == strings::texts(extensions@),
                dots == texts.map_values(|extension: Seq<char>| dotted(extension)),
                checks == initial_checks(dots, before.saved_associations),
                all_rows == rows_of_group(name@, texts, start as nat, group as nat),
                single == (extensions@.len() == 1),
                lead == (if single {
                    0int
                } else {
                    1int
                }),
                index <= extensions@.len(),
                before.extensions.len() == start,
                start + extensions@.len() <= usize::MAX,
                self.extensions@.len() == start + index,
                self.saved_options == old(self).saved_options,
                self.transient_options == old(self).transient_options,
                self.saved_shortcuts == old(self).saved_shortcuts,
                self.transient_shortcuts == old(self).transient_shortcuts,
                self.saved_associations == old(self).saved_associations,
                self.start_menu_saved == old(self).start_menu_saved,
                self.start_menu_desired == old(self).start_menu_desired,
                self.groups == old(self).groups,
                self.syncing == old(self).syncing,
                self@.extensions == before.extensions + checks.take(index as int),
                members@ == run_of(start as nat, index as nat),
                association_rows(rows@) == shown + all_rows.take(lead + index),
            decreases extensions@.len() - index,
        {
            let ghost so_far = self@.extensions;
            let ghost rows_so_far = association_rows(rows@);
            let extension = dotted_text(extensions[index]);
            assert(texts[index as int] == extensions@[index as int]@);
            assert(dots[index as int] == extension@);
            let checked = holds_text(&self.saved_associations, extension.as_str());
            assert(checks[index as int] == (extension@, checked));
            let mut label = String::new();
            if single {
                label.append(name);
                label.append(" (");
                label.append(extension.as_str());
                label.append(")");
                assert(label@ =~= name@ + " ("@ + dotted(texts[0]) + ")"@);
            } else {
                label.append(extension.as_str());
                assert(label@ =~= extension@);
            }
            let row = AssociationRow {
                label,
                item: AssociationItem::Extension(start + index),
                parent: if single {
                    None
                } else {
                    Some(group)
                },
            };
            assert(row@ =~= all_rows[lead + index]);
            rows.push(row);
            assert(association_rows(rows@) =~= rows_so_far.push(all_rows[lead + index]));
            assert(all_rows.take(lead + index + 1) =~= all_rows.take(lead + index).push(
                all_rows[lead + index],
            ));
            assert(association_rows(rows@) =~= shown + all_rows.take(lead + index + 1));
            let entry = AssociationExtension { extension, checked };
            self.extensions.push(entry);
            assert(self@.extensions =~= so_far.push(checks[index as int]));
            assert(checks.take(index + 1) =~= checks.take(index as int).push(
                checks[index as int],
            ));
            assert(self@.extensions =~= before.extensions + checks.take(index + 1));
            members.push(start + index);
            assert(members@ =~= run_of(start as nat, (index + 1) as nat));
            index += 1;
        }
        assert(checks.take(index as int) =~= checks);
        assert(all_rows.len() == lead + index);
        assert(all_rows.take(lead + index) =~= all_rows);
        if !single {
            let ghost groups = self@.groups;
            self.groups.push(members);
            assert(self@.groups =~= groups.push(run_of(start as nat, index as nat)));
        }
        assert forall|which: int, place: int|
            0 <= which < self@.groups.len() && 0 <= place < self@.groups[which].len() implies (
        #[trigger] self@.groups[which][place]) < self@.extensions.len() by {
            if which < before.groups.len() {
                assert(before.groups[which][place] < before.extensions.len());
            }
        }
    }

    /// Builds the page from the format groups; answers the rows of its tree.
    pub fn build_associations(&mut self, groups: &Vec<(&'static str, Vec<&'static str>)>) -> (rows: Vec<
        AssociationRow,
    >)
        requires
            old(self)@.extensions.len() == 0,
            old(self)@.groups.len() == 0,
            offered(crate::formats::group_models(groups@)).len() <= usize::MAX,
            groups@.len() < usize::MAX,
        ensures
            final(self)@ == (OptionsModel {
                extensions: initial_checks(
                    offered(crate::formats::group_models(groups@)),
                    old(self)@.saved_associations,
                ),
                groups: grouped(crate::formats::group_models(groups@)),
                ..old(self)@
            }),
            final(self)@.sound(),
            association_rows(rows@) == tree_rows(crate::formats::group_models(groups@)),
    {
        let ghost before = self@;
        let ghost models = crate::formats::group_models(groups@);
        let ghost saved = before.saved_associations;
        let mut rows: Vec<AssociationRow> = Vec::new();
        let mut index: usize = 0;
        assert(models.take(0) =~= Seq::empty());
        assert(self@.extensions =~= initial_checks(offered(models.take(0)), saved));
        assert(self@.groups =~= grouped(models.take(0)));
        assert(association_rows(rows@) =~= Seq::empty());
        while index < groups.len()
            invariant
                before == old(self)@,
                saved == before.saved_associations,
                models == crate::formats::group_models(groups@),
                offered(models).len() <= usize::MAX,
                groups@.len() < usize::MAX,
                index <= groups@.len(),
                self@ == (OptionsModel {
                    extensions: initial_checks(offered(models.take(index as int)), saved),
                    groups: grouped(models.take(index as int)),
                    ..before
                }),
                self@.sound(),
                self@.groups.len() <= index,
                association_rows(rows@) == tree_rows(models.take(index as int)),
            decreases groups@.len() - index,
        {
            let ghost earlier = self@;
            assert(models.take(index + 1).drop_last() =~= models.take(index as int));
            assert(models[index as int] == (
                groups@[index as int].0@,
                strings::texts(groups@[index as int].1@),
            ));
            proof {
                lemma_offered_grows(models, index + 1);
                assert(offered(models.take(index + 1)).len() == offered(
                    models.take(index as int),
                ).len() + groups@[index as int].1@.len());
                assert(self@.extensions.len() == self.extensions@.len());
                assert(self@.groups.len() == self.groups@.len());
            }
            self.add_group(groups[index].0, &groups[index].1, &mut rows);
            assert(self@.extensions =~= initial_checks(offered(models.take(index + 1)), saved));
            assert(self@ =~= (OptionsModel {
                extensions: initial_checks(offered(models.take(index + 1)), saved),
                groups: grouped(models.take(index + 1)),
                ..before
            }));
            index += 1;
        }
        assert(models.take(index as int) =~= models);
        rows
    }

    /// The check image of a group.
    pub fn group_image(&self, group: usize) -> (image: CheckImage)
        requires
            self@.sound(),
            group < self@.groups.len(),
        ensures
            image == image_of(self@.extensions, self@.groups[group as int]),
    {
        let members = &self.groups[group];
        let ghost models = self@.extensions;
        assert(self@.groups[group as int] == members@);
        let mut count: usize = 0;
        let mut place: usize = 0;
        assert(members@.take(0) =~= Seq::empty());
        while place < members.len()
            invariant
                models == self@.extensions,
                self@.sound(),
                group < self@.groups.len(),
                self@.groups[group as int] == members@,
                place <= members@.len(),
                count <= place,
                count == checked_count(models, members@.take(place as int)),
            decreases members@.len() - place,
        {
            assert(self@.groups[group as int][place as int] < models.len());
            assert(members@.take(place + 1).drop_last() =~= members@.take(place as int));
            let extension: usize = members[place];
            assert(models[extension as int].1 == self.extensions@[extension as int].checked);
            if self.extensions[extension].checked {
                count += 1;
            }
            place += 1;
        }
        assert(members@.take(place as int) =~= members@);
        if count == 0 {
            CheckImage::Unchecked
        } else if count == members.len() {
            CheckImage::Checked
        } else {
            CheckImage::Partial
        }
    }

    /// The group an extension is in.
    pub fn group_of(&self, extension: usize) -> (group: Option<usize>)
        ensures
            match group {
                Some(index) => group_from(self@.groups, extension, 0) == Some(index as int),
                None => group_from(self@.groups, extension, 0) is None,
            },
    {
        let ghost models = self@.groups;
        assert(models.len() == self.groups@.len());
        let mut index: usize = 0;
        while index < self.groups.len()
            invariant
                models == self@.groups,
                models.len() == self.groups@.len(),
                index <= self.groups@.len(),
                group_from(models, extension, 0) == group_from(models, extension, index as int),
            decreases self.groups@.len() - index,
        {
            assert(models[index as int] == self.groups@[index as int]@);
            if holds_place(&self.groups[index], extension) {
                return Some(index);
            }
            index += 1;
        }
        None
    }

    fn group_is_checked(&self, group: usize) -> (checked: bool)
        requires
            self@.sound(),
            group < self@.groups.len(),
        ensures
            checked == all_checked(self@.extensions, self@.groups[group as int]),
    {
        let members = &self.groups[group];
        let ghost models = self@.extensions;
        assert(self@.groups[group as int] == members@);
        let mut place: usize = 0;
        while place < members.len()
            invariant
                models == self@.extensions,
                self@.sound(),
                group < self@.groups.len(),
                self@.groups[group as int] == members@,
                place <= members@.len(),
                forall|earlier: int|
                    0 <= earlier < place ==> models[(#[trigger] members@[earlier]) as int].1,
            decreases members@.len() - place,
        {
            assert(self@.groups[group as int][place as int] < models.len());
            let extension: usize = members[place];
            assert(models[extension as int].1 == self.extensions@[extension as int].checked);
            if !self.extensions[extension].checked {
                assert(!models[members@[place as int] as int].1);
                return false;
            }
            place += 1;
        }
        true
    }

    fn set_group(&mut self, group: usize, checked: bool)
        requires
            old(self)@.sound(),
            group < old(self)@.groups.len(),
        ensures
            final(self)@ == (OptionsModel {
                extensions: members_set(
                    old(self)@.extensions,
                    old(self)@.groups[group as int],
                    checked,
                ),
                ..old(self)@
            }),
    {
        let ghost before = self@;
        let ghost start = self.extensions@;
        let ghost members = self.groups@[group as int]@;
        assert(before.groups[group as int] == members);
        assert(self.extensions.len() <= usize::MAX);
        let mut place: usize = 0;
        while place < self.groups[group].len()
            invariant
                start.len() <= usize::MAX,
                before == old(self)@,
                before.sound(),
                start == old(self).extensions@,
                before.extensions.len() == start.len(),
                group < before.groups.len(),
                self.groups == old(self).groups,
                group < self.groups@.len(),
                members == self.groups@[group as int]@,
                before.groups[group as int] == members,
                self.extensions@.len() == start.len(),
                place <= members.len(),
                self.saved_options == old(self).saved_options,
                self.transient_options == old(self).transient_options,
                self.saved_shortcuts == old(self).saved_shortcuts,
                self.transient_shortcuts == old(self).transient_shortcuts,
                self.saved_associations == old(self).saved_associations,
                self.start_menu_saved == old(self).start_menu_saved,
                self.start_menu_desired == old(self).start_menu_desired,
                self.syncing == old(self).syncing,
                forall|index: int|
                    0 <= index < start.len() ==> (#[trigger] self.extensions@[index]).extension
                        == start[index].extension && self.extensions@[index].checked == (
                    if members.take(place as int).contains(index as usize) {
                        checked
                    } else {
                        start[index].checked
                    }),
            decreases members.len() - place,
        {
            let extension: usize = self.groups[group][place];
            assert(before.groups[group as int][place as int] < before.extensions.len());
            let ghost shorter = members.take(place as int);
            let ghost longer = members.take(place + 1);
            assert(longer =~= shorter.push(extension));
            assert forall|index: usize| #[trigger] longer.contains(index) == (shorter.contains(
                index,
            ) || index == extension) by {
                if shorter.contains(index) {
                    let at = choose|at: int| 0 <= at < shorter.len() && shorter[at] == index;
                    assert(longer[at] == index);
                }
                if index == extension {
                    assert(longer[place as int] == index);
                }
            }
            self.extensions[extension].checked = checked;
            place += 1;
        }
        assert(members.take(place as int) =~= members);
        assert(self@.extensions =~= members_set(before.extensions, members, checked));
        assert(self@ =~= (OptionsModel {
            extensions: members_set(before.extensions, members, checked),
            ..before
        }));
    }

    /// Toggles a row of the tree: a group is checked as a whole unless it was.
    pub fn toggle_association_item(&mut self, item: AssociationItem)
        requires
            old(self)@.sound(),
            match item {
                AssociationItem::Extension(index) => index < old(self)@.extensions.len(),
                AssociationItem::Group(group) => group < old(self)@.groups.len(),
            },
        ensures
            final(self)@ == (OptionsModel { extensions: toggled(old(self)@, item), ..old(self)@ }),
            final(self)@.sound(),
    {
        let ghost before = self@;
        match item {
            AssociationItem::Extension(index) => {
                assert(before.extensions.len() == self.extensions@.len());
                assert(before.extensions[index as int] == (
                    self.extensions@[index as int].extension@,
                    self.extensions@[index as int].checked,
                ));
                let checked: bool = !self.extensions[index].checked;
                self.extensions[index].checked = checked;
                assert(self@.extensions =~= toggled(before, item));
                assert(self@ =~= (OptionsModel { extensions: toggled(before, item), ..before }));
            },
            AssociationItem::Group(group) => {
                let checked: bool = !self.group_is_checked(group);
                self.set_group(group, checked);
            },
        }
    }
}

proof fn lemma_offered_grows(groups: Seq<(Seq<char>, Seq<Seq<char>>)>, count: int)
    requires
        0 <= count <= groups.len(),
    ensures
        offered(groups.take(count)).len() <= offered(groups).len(),
    decreases groups.len() - count,
{
    if count == groups.len() {
        assert(groups.take(count) =~= groups);
    } else {
        assert(groups.take(count + 1).drop_last() =~= groups.take(count));
        lemma_offered_grows(groups, count + 1);
    }
}

proof fn lemma_count_is_bounded(extensions: Seq<(Seq<char>, bool)>, members: Seq<usize>)
    ensures
        checked_count(extensions, members) <= members.len(),
        checked_count(extensions, members) == members.len() <==> all_checked(extensions, members),
    decreases members.len(),
{
    if members.len() > 0 {
        let shorter = members.drop_last();
        lemma_count_is_bounded(extensions, shorter);
        if all_checked(extensions, members) {
            assert forall|place: int| 0 <= place < shorter.len() implies extensions[(
            #[trigger] shorter[place]) as int].1 by {
                assert(extensions[members[place] as int].1);
            }
            assert(extensions[members[members.len() - 1] as int].1);
        } else if all_checked(extensions, shorter) && extensions[members.last() as int].1 {
            assert forall|place: int| 0 <= place < members.len() implies extensions[(
            #[trigger] members[place]) as int].1 by {
                if place < shorter.len() {
                    assert(extensions[shorter[place] as int].1);
                }
            }
        }
    }
}

/// Once a group that has members was toggled, all of them are checked or none is, and its image says
/// which.
pub proof fn lemma_toggled_group_is_uniform(model: OptionsModel, group: usize)
    requires
        model.sound(),
        group < model.groups.len(),
        model.groups[group as int].len() > 0,
    ensures
        ({
            let members = model.groups[group as int];
            let after = toggled(model, AssociationItem::Group(group));
            image_of(after, members) == (if all_checked(model.extensions, members) {
                CheckImage::Unchecked
            } else {
                CheckImage::Checked
            })
        }),
{
    let members = model.groups[group as int];
    let before = all_checked(model.extensions, members);
    let after = toggled(model, AssociationItem::Group(group));
    lemma_uniform_count(after, members, members, !before, model);
}

proof fn lemma_uniform_count(
    extensions: Seq<(Seq<char>, bool)>,
    members: Seq<usize>,
    all: Seq<usize>,
    checked: bool,
    model: OptionsModel,
)
    requires
        extensions == members_set(model.extensions, all, checked),
        forall|place: int|
            0 <= place < members.len() ==> all.contains(#[trigger] members[place])
                && members[place] < model.extensions.len(),
    ensures
        checked_count(extensions, members) == (if checked {
            members.len()
        } else {
            0
        }),
    decreases members.len(),
{
    if members.len() > 0 {
        assert(all.contains(members[members.len() - 1]));
        let shorter = members.drop_last();
        assert forall|place: int| 0 <= place < shorter.len() implies all.contains(
            #[trigger] shorter[place],
        ) && shorter[place] < model.extensions.len() by {
            assert(all.contains(members[place]));
        }
        lemma_uniform_count(extensions, shorter, all, checked, model);
    }
}

/// An extension that is toggled twice is as it was.
pub proof fn lemma_toggling_twice_restores(model: OptionsModel, index: usize)
    requires
        index < model.extensions.len(),
    ensures
        toggled(
            OptionsModel {
                extensions: toggled(model, AssociationItem::Extension(index)),
                ..model
            },
            AssociationItem::Extension(index),
        ) == model.extensions,
{
    let once = OptionsModel {
        extensions: toggled(model, AssociationItem::Extension(index)),
        ..model
    };
    assert(toggled(once, AssociationItem::Extension(index)) =~= model.extensions);
}

/// A group's image is full exactly where every member is checked, and it has any.
pub proof fn lemma_group_image_is_exact(extensions: Seq<(Seq<char>, bool)>, members: Seq<usize>)
    ensures
        image_of(extensions, members) == CheckImage::Checked <==> members.len() > 0 && all_checked(
            extensions,
            members,
        ),
{
    lemma_count_is_bounded(extensions, members);
}

} // verus!
