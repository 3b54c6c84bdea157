//! Settings dialog state: a transient copy of the settings, edited page by page and applied as a whole.

use serde_json::Value;

use vstd::prelude::*;

use crate::actions;
use crate::actions::Action;
use crate::bindings;
use crate::bindings::{
    default_keyboard_sequences, default_mouse_encodings, resolved_keyboard_sequences,
    resolved_mouse_encodings,
};
use crate::overrides;
use crate::resource::{PageCommand, BST_CHECKED};
use crate::strings;
use crate::strings::{copied_strings, same_strings, sorted_strings};

verus! {

/// A color by its channels.
#[derive(Clone, Copy, PartialEq, Eq, Structural, Debug)]
pub struct Color {
    pub red: u8,
    pub green: u8,
    pub blue: u8,
}

/// The settings the dialog edits; lists are stored as the entry that is chosen.
#[derive(Clone, Copy, PartialEq, Eq, Structural, Debug)]
pub struct Options {
    pub background_color_enabled: bool,
    pub background_color: Color,
    pub title_bar_text: u32,
    pub fit_mode: u32,
    pub remember_window_placement: bool,
    pub control_drag_window: bool,
    pub hide_cursor_fullscreen: bool,
    pub scaling_filter: u32,
    pub dither_mode: u32,
    pub zoom_step_percent: u32,
    pub cursor_zoom: bool,
    pub fractional_wheel_zoom: bool,
    pub sort_files_by: u32,
    pub sort_descending: bool,
    pub preloading: u32,
    pub loop_within_folder: bool,
    pub slideshow_direction: u32,
    pub slideshow_interval_seconds: u32,
    pub after_deletion: u32,
    pub ask_delete: bool,
    pub detect_format_by_content: bool,
    pub remember_recents: bool,
    pub skip_hidden: bool,
}

/// What the numbers among the settings are held between.
#[derive(Clone, Copy, PartialEq, Eq, Structural, Debug)]
pub struct OptionLimits {
    pub minimum_zoom_step_percent: u32,
    pub maximum_zoom_step_percent: u32,
    pub minimum_slideshow_interval_seconds: u32,
    pub maximum_slideshow_interval_seconds: u32,
}

impl OptionLimits {
    /// No minimum is above its maximum.
    pub open spec fn sound(self) -> bool {
        &&& self.minimum_zoom_step_percent <= self.maximum_zoom_step_percent
        &&& self.minimum_slideshow_interval_seconds <= self.maximum_slideshow_interval_seconds
    }
}

/// A number held between two others.
pub open spec fn clamped(value: u32, minimum: u32, maximum: u32) -> u32 {
    if value < minimum {
        minimum
    } else if value > maximum {
        maximum
    } else {
        value
    }
}

fn clamp(value: u32, minimum: u32, maximum: u32) -> (kept: u32)
    ensures
        kept == clamped(value, minimum, maximum),
{
    if value < minimum {
        minimum
    } else if value > maximum {
        maximum
    } else {
        value
    }
}

impl Options {
    /// The settings after a command; commands on other state leave them alone.
    pub open spec fn after(self, command: PageCommand, value: u32, limits: OptionLimits) -> Options {
        let checked = value == BST_CHECKED;
        match command {
            PageCommand::BackgroundColorEnabled => Options {
                background_color_enabled: checked,
                ..self
            },
            PageCommand::TitleBarText => Options { title_bar_text: value, ..self },
            PageCommand::FitMode => Options { fit_mode: value, ..self },
            PageCommand::RememberWindowPlacement => Options {
                remember_window_placement: checked,
                ..self
            },
            PageCommand::ControlDragWindow => Options { control_drag_window: checked, ..self },
            PageCommand::HideCursorFullscreen => Options {
                hide_cursor_fullscreen: checked,
                ..self
            },
            PageCommand::ScalingFilter => Options { scaling_filter: value, ..self },
            PageCommand::DitherMode => Options { dither_mode: value, ..self },
            PageCommand::ZoomStep => Options {
                zoom_step_percent: clamped(
                    value,
                    limits.minimum_zoom_step_percent,
                    limits.maximum_zoom_step_percent,
                ),
                ..self
            },
            PageCommand::CursorZoom => Options { cursor_zoom: checked, ..self },
            PageCommand::FractionalWheelZoom => Options {
                fractional_wheel_zoom: checked,
                ..self
            },
            PageCommand::SortFilesBy => Options { sort_files_by: value, ..self },
            PageCommand::SortAscending => Options { sort_descending: false, ..self },
            PageCommand::SortDescending => Options { sort_descending: true, ..self },
            PageCommand::Preloading => Options { preloading: value, ..self },
            PageCommand::LoopWithinFolder => Options { loop_within_folder: checked, ..self },
            PageCommand::SlideshowDirection => Options { slideshow_direction: value, ..self },
            PageCommand::SlideshowInterval => Options {
                slideshow_interval_seconds: clamped(
                    value,
                    limits.minimum_slideshow_interval_seconds,
                    limits.maximum_slideshow_interval_seconds,
                ),
                ..self
            },
            PageCommand::AfterDeletion => Options { after_deletion: value, ..self },
            PageCommand::AskDelete => Options { ask_delete: checked, ..self },
            PageCommand::DetectFormatByContent => Options {
                detect_format_by_content: checked,
                ..self
            },
            PageCommand::RememberRecents => Options { remember_recents: checked, ..self },
            PageCommand::SkipHidden => Options { skip_hidden: checked, ..self },
            PageCommand::ResetShortcuts
            | PageCommand::ClearShortcuts
            | PageCommand::SelectAllAssociations
            | PageCommand::SelectNoAssociations
            | PageCommand::StartMenuShortcut => self,
        }
    }

    fn applied(self, command: PageCommand, value: u32, limits: &OptionLimits) -> (options: Options)
        ensures
            options == self.after(command, value, *limits),
    {
        let checked: bool = value == BST_CHECKED;
        match command {
            PageCommand::BackgroundColorEnabled => Options {
                background_color_enabled: checked,
                ..self
            },
            PageCommand::TitleBarText => Options { title_bar_text: value, ..self },
            PageCommand::FitMode => Options { fit_mode: value, ..self },
            PageCommand::RememberWindowPlacement => Options {
                remember_window_placement: checked,
                ..self
            },
            PageCommand::ControlDragWindow => Options { control_drag_window: checked, ..self },
            PageCommand::HideCursorFullscreen => Options {
                hide_cursor_fullscreen: checked,
                ..self
            },
            PageCommand::ScalingFilter => Options { scaling_filter: value, ..self },
            PageCommand::DitherMode => Options { dither_mode: value, ..self },
            PageCommand::ZoomStep => Options {
                zoom_step_percent: clamp(
                    value,
                    limits.minimum_zoom_step_percent,
                    limits.maximum_zoom_step_percent,
                ),
                ..self
            },
            PageCommand::CursorZoom => Options { cursor_zoom: checked, ..self },
            PageCommand::FractionalWheelZoom => Options {
                fractional_wheel_zoom: checked,
                ..self
            },
            PageCommand::SortFilesBy => Options { sort_files_by: value, ..self },
            PageCommand::SortAscending => Options { sort_descending: false, ..self },
            PageCommand::SortDescending => Options { sort_descending: true, ..self },
            PageCommand::Preloading => Options { preloading: value, ..self },
            PageCommand::LoopWithinFolder => Options { loop_within_folder: checked, ..self },
            PageCommand::SlideshowDirection => Options { slideshow_direction: value, ..self },
            PageCommand::SlideshowInterval => Options {
                slideshow_interval_seconds: clamp(
                    value,
                    limits.minimum_slideshow_interval_seconds,
                    limits.maximum_slideshow_interval_seconds,
                ),
                ..self
            },
            PageCommand::AfterDeletion => Options { after_deletion: value, ..self },
            PageCommand::AskDelete => Options { ask_delete: checked, ..self },
            PageCommand::DetectFormatByContent => Options {
                detect_format_by_content: checked,
                ..self
            },
            PageCommand::RememberRecents => Options { remember_recents: checked, ..self },
            PageCommand::SkipHidden => Options { skip_hidden: checked, ..self },
            PageCommand::ResetShortcuts
            | PageCommand::ClearShortcuts
            | PageCommand::SelectAllAssociations
            | PageCommand::SelectNoAssociations
            | PageCommand::StartMenuShortcut => self,
        }
    }
}

/// The shortcuts of one action.
pub struct ShortcutRow {
    pub action: Action,
    pub keyboard: Vec<String>,
    pub mouse: Vec<String>,
}

#[verifier::ext_equal]
pub struct RowModel {
    pub action: Action,
    pub keyboard: Seq<Seq<char>>,
    pub mouse: Seq<Seq<char>>,
}

impl View for ShortcutRow {
    type V = RowModel;

    open spec fn view(&self) -> RowModel {
        RowModel {
            action: self.action,
            keyboard: strings::spellings(self.keyboard@),
            mouse: strings::spellings(self.mouse@),
        }
    }
}

pub open spec fn row_models(rows: Seq<ShortcutRow>) -> Seq<RowModel> {
    rows.map_values(|row: ShortcutRow| row@)
}

fn copied_row(row: &ShortcutRow) -> (copy: ShortcutRow)
    ensures
        copy@ == row@,
{
    ShortcutRow {
        action: row.action,
        keyboard: copied_strings(&row.keyboard),
        mouse: copied_strings(&row.mouse),
    }
}

pub fn copied_rows(rows: &Vec<ShortcutRow>) -> (copy: Vec<ShortcutRow>)
    ensures
        row_models(copy@) == row_models(rows@),
{
    let ghost models = row_models(rows@);
    let mut copy: Vec<ShortcutRow> = Vec::new();
    let mut index: usize = 0;
    while index < rows.len()
        invariant
            models == row_models(rows@),
            index <= rows.len(),
            row_models(copy@) == models.take(index as int),
        decreases rows.len() - index,
    {
        let ghost before = row_models(copy@);
        copy.push(copied_row(&rows[index]));
        assert(row_models(copy@) =~= before.push(models[index as int]));
        assert(models.take(index + 1) =~= models.take(index as int).push(models[index as int]));
        index += 1;
    }
    assert(models.take(index as int) =~= models);
    copy
}

fn same_rows(first: &Vec<ShortcutRow>, second: &Vec<ShortcutRow>) -> (same: bool)
    ensures
        same == (row_models(first@) == row_models(second@)),
{
    let ghost one = row_models(first@);
    let ghost two = row_models(second@);
    assert(one.len() == first@.len() && two.len() == second@.len());
    if first.len() != second.len() {
        return false;
    }
    let mut index: usize = 0;
    while index < first.len()
        invariant
            one == row_models(first@),
            two == row_models(second@),
            first.len() == second.len(),
            index <= first.len(),
            forall|earlier: int| 0 <= earlier < index ==> one[earlier] == two[earlier],
        decreases first.len() - index,
    {
        assert(one[index as int] == first@[index as int]@);
        assert(two[index as int] == second@[index as int]@);
        if first[index].action != second[index].action || !same_strings(
            &first[index].keyboard,
            &second[index].keyboard,
        ) || !same_strings(&first[index].mouse, &second[index].mouse) {
            return false;
        }
        assert(one[index as int] =~= two[index as int]);
        index += 1;
    }
    assert(one =~= two);
    true
}

/// The rows of the shortcut list: one per action that can be bound, in table order.
pub open spec fn default_rows() -> Seq<RowModel> {
    actions::ACTION_TABLE@.map_values(
        |row: (Action, &'static str, &'static str, actions::ActionRequirement)|
            RowModel {
                action: row.0,
                keyboard: bindings::default_for(
                    bindings::keyboard_defaults(),
                    actions::name_of(row.0),
                ),
                mouse: bindings::default_for(bindings::mouse_defaults(), actions::name_of(row.0)),
            },
    )
}

/// The rows these overrides leave in force.
pub open spec fn resolved_rows(
    keyboard: Option<Seq<(Seq<char>, Seq<Seq<char>>)>>,
    mouse: Option<Seq<(Seq<char>, Seq<Seq<char>>)>>,
) -> Seq<RowModel> {
    actions::ACTION_TABLE@.map_values(
        |row: (Action, &'static str, &'static str, actions::ActionRequirement)|
            RowModel {
                action: row.0,
                keyboard: bindings::keyboard_resolved(keyboard, actions::name_of(row.0)),
                mouse: bindings::mouse_resolved(mouse, actions::name_of(row.0)),
            },
    )
}

fn owned_texts(list: &Vec<&'static str>) -> (owned: Vec<String>)
    ensures
        strings::spellings(owned@) == strings::texts(list@),
{
    let ghost models = strings::texts(list@);
    let mut owned: Vec<String> = Vec::new();
    let mut index: usize = 0;
    while index < list.len()
        invariant
            models == strings::texts(list@),
            index <= list.len(),
            strings::spellings(owned@) == models.take(index as int),
        decreases list.len() - index,
    {
        let ghost before = strings::spellings(owned@);
        owned.push(list[index].to_owned());
        assert(strings::spellings(owned@) =~= before.push(models[index as int]));
        assert(models.take(index + 1) =~= models.take(index as int).push(models[index as int]));
        index += 1;
    }
    assert(models.take(index as int) =~= models);
    owned
}

pub fn default_shortcut_rows() -> (rows: Vec<ShortcutRow>)
    ensures
        row_models(rows@) == default_rows(),
{
    let bindable = Action::all_bindable();
    let ghost models = default_rows();
    let mut rows: Vec<ShortcutRow> = Vec::new();
    let mut index: usize = 0;
    assert(models.take(0) =~= Seq::empty());
    while index < bindable.len()
        invariant
            bindable@ == actions::ACTION_TABLE@.map_values(
                |row: (Action, &'static str, &'static str, actions::ActionRequirement)| row.0,
            ),
            models == default_rows(),
            index <= bindable.len(),
            row_models(rows@) == models.take(index as int),
        decreases bindable.len() - index,
    {
        let ghost before = row_models(rows@);
        let action = bindable[index];
        let name = action.name();
        let row = ShortcutRow {
            action,
            keyboard: owned_texts(&default_keyboard_sequences(name)),
            mouse: owned_texts(&default_mouse_encodings(name)),
        };
        assert(row@ =~= models[index as int]);
        rows.push(row);
        assert(row_models(rows@) =~= before.push(models[index as int]));
        assert(models.take(index + 1) =~= models.take(index as int).push(models[index as int]));
        index += 1;
    }
    assert(models.take(index as int) =~= models);
    rows
}

/// What the dialog reads from the settings, taken before the modal loop starts.
pub struct OptionsSnapshot {
    pub options: Options,
    pub shortcuts: Vec<ShortcutRow>,
}

impl OptionsSnapshot {
    pub fn capture(
        options: &Options,
        keyboard_bindings: Option<&serde_json::Map<String, Value>>,
        mouse_bindings: Option<&serde_json::Map<String, Value>>,
    ) -> (snapshot: Self)
        ensures
            snapshot.options == *options,
            row_models(snapshot.shortcuts@) == resolved_rows(
                overrides::optional_members(keyboard_bindings),
                overrides::optional_members(mouse_bindings),
            ),
    {
        let bindable = Action::all_bindable();
        let ghost models = resolved_rows(
            overrides::optional_members(keyboard_bindings),
            overrides::optional_members(mouse_bindings),
        );
        let mut rows: Vec<ShortcutRow> = Vec::new();
        let mut index: usize = 0;
        assert(models.take(0) =~= Seq::empty());
        while index < bindable.len()
            invariant
                bindable@ == actions::ACTION_TABLE@.map_values(
                    |row: (Action, &'static str, &'static str, actions::ActionRequirement)| row.0,
                ),
                models == resolved_rows(
                    overrides::optional_members(keyboard_bindings),
                    overrides::optional_members(mouse_bindings),
                ),
                index <= bindable.len(),
                row_models(rows@) == models.take(index as int),
            decreases bindable.len() - index,
        {
            let ghost before = row_models(rows@);
            let action = bindable[index];
            let name = action.name();
            let row = ShortcutRow {
                action,
                keyboard: resolved_keyboard_sequences(keyboard_bindings, name),
                mouse: resolved_mouse_encodings(mouse_bindings, name),
            };
            assert(row@ =~= models[index as int]);
            rows.push(row);
            assert(row_models(rows@) =~= before.push(models[index as int]));
            assert(models.take(index + 1) =~= models.take(index as int).push(
                models[index as int],
            ));
            index += 1;
        }
        assert(models.take(index as int) =~= models);
        OptionsSnapshot { options: *options, shortcuts: rows }
    }
}

/// An extension the association page offers.
pub struct AssociationExtension {
    pub extension: String,
    pub checked: bool,
}

pub open spec fn extension_models(extensions: Seq<AssociationExtension>) -> Seq<(Seq<char>, bool)> {
    extensions.map_values(|entry: AssociationExtension| (entry.extension@, entry.checked))
}

pub open spec fn member_models(groups: Seq<Vec<usize>>) -> Seq<Seq<usize>> {
    groups.map_values(|members: Vec<usize>| members@)
}

/// The dialog's state between its messages.
pub struct OptionsState {
    pub saved_options: Options,
    pub transient_options: Options,
    pub saved_shortcuts: Vec<ShortcutRow>,
    pub transient_shortcuts: Vec<ShortcutRow>,
    pub saved_associations: Vec<String>,
    /// Start Menu shortcut presence; no default concept, the on-disk state is the baseline.
    pub start_menu_saved: bool,
    pub start_menu_desired: bool,
    pub extensions: Vec<AssociationExtension>,
    /// The extensions of each group, by their place.
    pub groups: Vec<Vec<usize>>,
    /// Ignore control notifications during programmatic sync.
    pub syncing: bool,
}

#[verifier::ext_equal]
pub struct OptionsModel {
    pub saved_options: Options,
    pub transient_options: Options,
    pub saved_shortcuts: Seq<RowModel>,
    pub transient_shortcuts: Seq<RowModel>,
    pub saved_associations: Seq<Seq<char>>,
    pub start_menu_saved: bool,
    pub start_menu_desired: bool,
    pub extensions: Seq<(Seq<char>, bool)>,
    pub groups: Seq<Seq<usize>>,
    pub syncing: bool,
}

impl View for OptionsState {
    type V = OptionsModel;

    open spec fn view(&self) -> OptionsModel {
        OptionsModel {
            saved_options: self.saved_options,
            transient_options: self.transient_options,
            saved_shortcuts: row_models(self.saved_shortcuts@),
            transient_shortcuts: row_models(self.transient_shortcuts@),
            saved_associations: strings::spellings(self.saved_associations@),
            start_menu_saved: self.start_menu_saved,
            start_menu_desired: self.start_menu_desired,
            extensions: extension_models(self.extensions@),
            groups: member_models(self.groups@),
            syncing: self.syncing,
        }
    }
}

/// The extensions that are checked, in the order they stand in.
pub open spec fn checked_extensions(extensions: Seq<(Seq<char>, bool)>) -> Seq<Seq<char>>
    decreases extensions.len(),
{
    if extensions.len() == 0 {
        Seq::empty()
    } else {
        let before = checked_extensions(extensions.drop_last());
        if extensions.last().1 {
            before.push(extensions.last().0)
        } else {
            before
        }
    }
}

/// The extensions with every one of them checked or not.
pub open spec fn all_set(extensions: Seq<(Seq<char>, bool)>, checked: bool) -> Seq<(Seq<char>, bool)> {
    extensions.map_values(|entry: (Seq<char>, bool)| (entry.0, checked))
}

/// The dialog as it opens.
pub open spec fn opened(
    options: Options,
    shortcuts: Seq<RowModel>,
    associations: Seq<Seq<char>>,
    start_menu_present: bool,
) -> OptionsModel {
    OptionsModel {
        saved_options: options,
        transient_options: options,
        saved_shortcuts: shortcuts,
        transient_shortcuts: shortcuts,
        saved_associations: associations,
        start_menu_saved: start_menu_present,
        start_menu_desired: start_menu_present,
        extensions: Seq::empty(),
        groups: Seq::empty(),
        syncing: false,
    }
}

/// What a page has to show differently after a command.
#[derive(Clone, Copy, PartialEq, Eq, Structural, Debug)]
pub enum PageRefresh {
    Nothing,
    /// The color button follows whether the color is on.
    BackgroundColorButton,
    /// Every row of the shortcut list.
    ShortcutRows,
    /// Every check image of the tree.
    AssociationImages,
}

/// What a command makes its page show differently.
pub open spec fn refresh_of(command: PageCommand) -> PageRefresh {
    match command {
        PageCommand::BackgroundColorEnabled => PageRefresh::BackgroundColorButton,
        PageCommand::ResetShortcuts | PageCommand::ClearShortcuts => PageRefresh::ShortcutRows,
        PageCommand::SelectAllAssociations
        | PageCommand::SelectNoAssociations => PageRefresh::AssociationImages,
        _ => PageRefresh::Nothing,
    }
}

impl OptionsModel {
    /// Every group names extensions there are.
    pub open spec fn sound(self) -> bool {
        forall|group: int, place: int|
            0 <= group < self.groups.len() && 0 <= place < self.groups[group].len() ==> (
            #[trigger] self.groups[group][place]) < self.extensions.len()
    }

    /// The associations that are wanted, sorted so that comparisons ignore presentation order. An
    /// unbuilt page holds no extensions, which is not the same as none checked.
    pub open spec fn desired_associations(self) -> Seq<Seq<char>> {
        if self.extensions.len() == 0 {
            self.saved_associations
        } else {
            strings::texts_sorted(checked_extensions(self.extensions))
        }
    }

    /// Apply enables when the transient state differs from the saved state.
    pub open spec fn dirty(self) -> bool {
        ||| self.transient_options != self.saved_options
        ||| self.transient_shortcuts != self.saved_shortcuts
        ||| self.desired_associations() != self.saved_associations
        ||| self.start_menu_desired != self.start_menu_saved
    }

    pub open spec fn off_defaults(self, defaults: Options) -> bool {
        self.transient_options != defaults || self.transient_shortcuts != default_rows()
    }

    /// The defaults back in every page that has any.
    pub open spec fn restored(self, defaults: Options) -> OptionsModel {
        OptionsModel {
            transient_options: defaults,
            transient_shortcuts: default_rows(),
            ..self
        }
    }

    /// The state after a page's command.
    pub open spec fn after(self, command: PageCommand, value: u32, limits: OptionLimits) -> OptionsModel {
        match command {
            PageCommand::ResetShortcuts => OptionsModel {
                transient_shortcuts: default_rows(),
                ..self
            },
            PageCommand::ClearShortcuts => OptionsModel {
                transient_shortcuts: self.transient_shortcuts.map_values(
                    |row: RowModel|
                        RowModel {
                            action: row.action,
                            keyboard: Seq::empty(),
                            mouse: Seq::empty(),
                        },
                ),
                ..self
            },
            PageCommand::SelectAllAssociations => OptionsModel {
                extensions: all_set(self.extensions, true),
                ..self
            },
            PageCommand::SelectNoAssociations => OptionsModel {
                extensions: all_set(self.extensions, false),
                ..self
            },
            PageCommand::StartMenuShortcut => OptionsModel {
                start_menu_desired: value == BST_CHECKED,
                ..self
            },
            _ => OptionsModel {
                transient_options: self.transient_options.after(command, value, limits),
                ..self
            },
        }
    }

    /// The state once everything is written; what was probed again stands for what was written.
    pub open spec fn settled(
        self,
        associations: Option<Seq<Seq<char>>>,
        start_menu: Option<bool>,
    ) -> OptionsModel {
        OptionsModel {
            saved_options: self.transient_options,
            saved_shortcuts: self.transient_shortcuts,
            saved_associations: match associations {
                Some(found) => found,
                None => self.saved_associations,
            },
            start_menu_saved: match start_menu {
                Some(present) => present,
                None => self.start_menu_saved,
            },
            ..self
        }
    }
}

impl OptionsState {
    /// A dialog on this snapshot, these associations, sorted, and this start menu.
    pub fn new(
        snapshot: OptionsSnapshot,
        saved_associations: Vec<String>,
        start_menu_present: bool,
    ) -> (state: Self)
        ensures
            state@ == opened(
                snapshot.options,
                row_models(snapshot.shortcuts@),
                strings::spellings(saved_associations@),
                start_menu_present,
            ),
            state@.sound(),
    {
        let saved_shortcuts = copied_rows(&snapshot.shortcuts);
        let state = OptionsState {
            saved_options: snapshot.options,
            transient_options: snapshot.options,
            saved_shortcuts,
            transient_shortcuts: snapshot.shortcuts,
            saved_associations,
            start_menu_saved: start_menu_present,
            start_menu_desired: start_menu_present,
            extensions: Vec::new(),
            groups: Vec::new(),
            syncing: false,
        };
        assert(state@ =~= opened(
            snapshot.options,
            row_models(snapshot.shortcuts@),
            strings::spellings(saved_associations@),
            start_menu_present,
        ));
        state
    }

    pub fn desired_associations(&self) -> (desired: Vec<String>)
        ensures
            strings::spellings(desired@) == self@.desired_associations(),
    {
        let ghost models = self@.extensions;
        assert(models.len() == self.extensions@.len());
        if self.extensions.len() == 0 {
            return copied_strings(&self.saved_associations);
        }
        let mut checked: Vec<String> = Vec::new();
        let mut index: usize = 0;
        assert(models.take(0) =~= Seq::empty());
        assert(strings::spellings(checked@) =~= Seq::empty());
        while index < self.extensions.len()
            invariant
                models == self@.extensions,
                models.len() == self.extensions@.len(),
                index <= self.extensions@.len(),
                strings::spellings(checked@) == checked_extensions(models.take(index as int)),
            decreases self.extensions@.len() - index,
        {
            let ghost before = strings::spellings(checked@);
            assert(models.take(index + 1).drop_last() =~= models.take(index as int));
            assert(models[index as int] == (
                self.extensions@[index as int].extension@,
                self.extensions@[index as int].checked,
            ));
            if self.extensions[index].checked {
                checked.push(self.extensions[index].extension.clone());
                assert(strings::spellings(checked@) =~= before.push(models[index as int].0));
            }
            index += 1;
        }
        assert(models.take(index as int) =~= models);
        sorted_strings(&checked)
    }

    pub fn is_dirty(&self) -> (dirty: bool)
        ensures
            dirty == self@.dirty(),
    {
        self.transient_options != self.saved_options || !same_rows(
            &self.transient_shortcuts,
            &self.saved_shortcuts,
        ) || !same_strings(&self.desired_associations(), &self.saved_associations)
            || self.start_menu_desired != self.start_menu_saved
    }

    pub fn differs_from_defaults(&self, defaults: &Options) -> (differs: bool)
        ensures
            differs == self@.off_defaults(*defaults),
    {
        self.transient_options != *defaults || !same_rows(
            &self.transient_shortcuts,
            &default_shortcut_rows(),
        )
    }

    pub fn restore_defaults(&mut self, defaults: &Options)
        ensures
            final(self)@ == old(self)@.restored(*defaults),
    {
        self.transient_options = *defaults;
        self.transient_shortcuts = default_shortcut_rows();
        assert(self@ =~= old(self)@.restored(*defaults));
    }

    fn clear_shortcuts(&mut self)
        ensures
            final(self)@ == (OptionsModel {
                transient_shortcuts: old(self)@.transient_shortcuts.map_values(
                    |row: RowModel|
                        RowModel {
                            action: row.action,
                            keyboard: Seq::empty(),
                            mouse: Seq::empty(),
                        },
                ),
                ..old(self)@
            }),
    {
        let ghost before = self@;
        let mut cleared: Vec<ShortcutRow> = Vec::new();
        let mut index: usize = 0;
        while index < self.transient_shortcuts.len()
            invariant
                *self == *old(self),
                before == self@,
                index <= self.transient_shortcuts@.len(),
                cleared@.len() == index,
                forall|earlier: int|
                    0 <= earlier < index ==> (#[trigger] cleared@[earlier])@ == (RowModel {
                        action: before.transient_shortcuts[earlier].action,
                        keyboard: Seq::empty(),
                        mouse: Seq::empty(),
                    }),
            decreases self.transient_shortcuts@.len() - index,
        {
            let row = ShortcutRow {
                action: self.transient_shortcuts[index].action,
                keyboard: Vec::new(),
                mouse: Vec::new(),
            };
            assert(strings::spellings(row.keyboard@) =~= Seq::empty());
            assert(strings::spellings(row.mouse@) =~= Seq::empty());
            cleared.push(row);
            index += 1;
        }
        self.transient_shortcuts = cleared;
        assert(self@.transient_shortcuts =~= before.transient_shortcuts.map_values(
            |row: RowModel|
                RowModel { action: row.action, keyboard: Seq::empty(), mouse: Seq::empty() },
        ));
    }

    fn set_all_associations(&mut self, checked: bool)
        ensures
            final(self)@ == (OptionsModel {
                extensions: all_set(old(self)@.extensions, checked),
                ..old(self)@
            }),
    {
        let ghost before = self@;
        let ghost start = self.extensions@;
        let mut index: usize = 0;
        while index < self.extensions.len()
            invariant
                start == old(self).extensions@,
                before == old(self)@,
                self.extensions@.len() == start.len(),
                index <= start.len(),
                self.saved_options == old(self).saved_options,
                self.transient_options == old(self).transient_options,
                self.saved_shortcuts == old(self).saved_shortcuts,
                self.transient_shortcuts == old(self).transient_shortcuts,
                self.saved_associations == old(self).saved_associations,
                self.start_menu_saved == old(self).start_menu_saved,
                self.start_menu_desired == old(self).start_menu_desired,
                self.groups == old(self).groups,
                self.syncing == old(self).syncing,
                forall|place: int|
                    0 <= place < start.len() ==> (#[trigger] self.extensions@[place]).extension
                        == start[place].extension && self.extensions@[place].checked == (if place
                        < index {
                        checked
                    } else {
                        start[place].checked
                    }),
            decreases start.len() - index,
        {
            self.extensions[index].checked = checked;
            index += 1;
        }
        assert(self@.extensions =~= all_set(before.extensions, checked));
    }

    /// Applies a page's command; answers what the page has to show differently.
    pub fn apply_page_command(&mut self, command: PageCommand, value: u32, limits: &OptionLimits) -> (
        refresh: PageRefresh)
        ensures
            final(self)@ == old(self)@.after(command, value, *limits),
            refresh == refresh_of(command),
            old(self)@.sound() ==> final(self)@.sound(),
    {
        let ghost before = self@;
        match command {
            PageCommand::ResetShortcuts => {
                self.transient_shortcuts = default_shortcut_rows();
                assert(self@ =~= before.after(command, value, *limits));
                PageRefresh::ShortcutRows
            },
            PageCommand::ClearShortcuts => {
                self.clear_shortcuts();
                PageRefresh::ShortcutRows
            },
            PageCommand::SelectAllAssociations => {
                self.set_all_associations(true);
                PageRefresh::AssociationImages
            },
            PageCommand::SelectNoAssociations => {
                self.set_all_associations(false);
                PageRefresh::AssociationImages
            },
            PageCommand::StartMenuShortcut => {
                self.start_menu_desired = value == BST_CHECKED;
                assert(self@ =~= before.after(command, value, *limits));
                PageRefresh::Nothing
            },
            PageCommand::BackgroundColorEnabled => {
                self.transient_options = self.transient_options.applied(command, value, limits);
                assert(self@ =~= before.after(command, value, *limits));
                PageRefresh::BackgroundColorButton
            },
            _ => {
                self.transient_options = self.transient_options.applied(command, value, limits);
                assert(self@ =~= before.after(command, value, *limits));
                PageRefresh::Nothing
            },
        }
    }

    /// Takes over the color that was chosen.
    pub fn set_background_color(&mut self, color: Color)
        ensures
            final(self)@ == (OptionsModel {
                transient_options: Options {
                    background_color: color,
                    ..old(self)@.transient_options
                },
                ..old(self)@
            }),
    {
        self.transient_options.background_color = color;
        assert(self@ =~= (OptionsModel {
            transient_options: Options {
                background_color: color,
                ..old(self)@.transient_options
            },
            ..old(self)@
        }));
    }
}

} // verus!
