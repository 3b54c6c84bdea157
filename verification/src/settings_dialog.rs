//! The settings dialog at work: what its messages do, what Apply writes, and how a shortcut is edited.

use vstd::prelude::*;

use crate::actions;
use crate::options;
use crate::options::{copied_rows, Color, OptionLimits, Options, OptionsModel, OptionsState, RowModel};
use crate::overrides;
use crate::resource;
use crate::resource::{
    BN_CLICKED, EN_KILLFOCUS, IDCANCEL, IDC_ABOUT_LINK, IDC_APPLY, IDC_ASSOCIATION_TREE,
    IDC_IMAGE_ZOOM_STEP_EDIT, IDC_MISCELLANEOUS_SLIDESHOW_INTERVAL_EDIT, IDC_OPTIONS_TAB,
    IDC_RESTORE_DEFAULTS, IDC_SHORTCUTS_LIST, IDC_WINDOW_BACKGROUND_COLOR_BUTTON, IDOK, PAGES,
};
use crate::strings;
use crate::strings::{copied_strings, same_strings};

verus! {

/// Shortcut list columns; the header order, the hit test, and the refresh share them.
pub const ACTION_COLUMN: i32 = 0;

pub const KEYBOARD_COLUMN: i32 = 1;

pub const MOUSE_COLUMN: i32 = 2;

/// The code of the space bar, which toggles the selected row of the tree.
pub const SPACE_KEY: u16 = 32;

/// Why a control notifies its page.
#[derive(Clone, Copy, PartialEq, Eq, Structural, Debug)]
pub enum NotifyCode {
    Click,
    DoubleClick,
    Return,
    KeyDown,
    Other,
}

/// A message a settings page receives.
#[derive(Clone, Copy, PartialEq, Eq, Structural, Debug)]
pub enum PageEvent {
    Initialize,
    Command { control: i32, notification: u32 },
    /// The item and column are a list's, the key a tree's.
    Notify { control: i32, code: NotifyCode, item: i32, column: i32, key: u16 },
    Draw { control: i32 },
    Other,
}

/// What a page does about a message.
#[derive(Clone, Copy, PartialEq, Eq, Structural, Debug)]
pub enum PageAction {
    /// Not this page's to handle.
    Ignore,
    /// Handled, with nothing to do.
    Handled,
    /// Give the page the background of a tab.
    TexturePage,
    /// Let a color be chosen; runs a modal that re-enters the procedure.
    ChooseColor,
    /// Write the clamped number back into its field.
    ShowNumber { control: i32 },
    /// Apply the command of a control.
    ApplyCommand { control: i32, notification: u32 },
    /// Edit the shortcuts of a row.
    EditShortcut { row: usize, mouse: bool },
    /// Toggle the tree's row under the cursor.
    ToggleAtCursor,
    /// Toggle the tree's selected row.
    ToggleSelected,
    /// Open the link that was followed.
    OpenLink,
    /// Draw the color swatch.
    DrawSwatch,
}

/// What a page does about a message; `syncing` is None while the page has no state yet.
pub open spec fn page_response(event: PageEvent, syncing: Option<bool>) -> PageAction {
    match event {
        PageEvent::Initialize => PageAction::TexturePage,
        PageEvent::Command { control, notification } => if syncing != Some(false) {
            PageAction::Ignore
        } else if control == IDC_WINDOW_BACKGROUND_COLOR_BUTTON && notification == BN_CLICKED {
            PageAction::ChooseColor
        } else if notification == EN_KILLFOCUS {
            PageAction::ShowNumber { control }
        } else {
            PageAction::ApplyCommand { control, notification }
        },
        PageEvent::Notify { control, code, item, column, key } => if control == IDC_SHORTCUTS_LIST
            && code == NotifyCode::DoubleClick {
            if item >= 0 {
                PageAction::EditShortcut { row: item as usize, mouse: column == MOUSE_COLUMN }
            } else {
                PageAction::Handled
            }
        } else if control == IDC_ASSOCIATION_TREE && code == NotifyCode::Click {
            if syncing is None {
                PageAction::Ignore
            } else {
                PageAction::ToggleAtCursor
            }
        } else if control == IDC_ABOUT_LINK && (code == NotifyCode::Click || code
            == NotifyCode::Return) {
            PageAction::OpenLink
        } else if control == IDC_ASSOCIATION_TREE && code == NotifyCode::KeyDown {
            if key == SPACE_KEY && syncing is Some {
                PageAction::ToggleSelected
            } else {
                PageAction::Handled
            }
        } else {
            PageAction::Ignore
        },
        PageEvent::Draw { control } => if syncing is Some && control
            == IDC_WINDOW_BACKGROUND_COLOR_BUTTON {
            PageAction::DrawSwatch
        } else {
            PageAction::Ignore
        },
        PageEvent::Other => PageAction::Ignore,
    }
}

pub fn page_procedure(event: PageEvent, syncing: Option<bool>) -> (action: PageAction)
    ensures
        action == page_response(event, syncing),
{
    match event {
        PageEvent::Initialize => PageAction::TexturePage,
        PageEvent::Command { control, notification } => {
            let listening: bool = match syncing {
                Some(busy) => !busy,
                None => false,
            };
            if !listening {
                PageAction::Ignore
            } else if control == IDC_WINDOW_BACKGROUND_COLOR_BUTTON && notification == BN_CLICKED {
                PageAction::ChooseColor
            } else if notification == EN_KILLFOCUS {
                PageAction::ShowNumber { control }
            } else {
                PageAction::ApplyCommand { control, notification }
            }
        },
        PageEvent::Notify { control, code, item, column, key } => {
            if control == IDC_SHORTCUTS_LIST && code == NotifyCode::DoubleClick {
                if item >= 0 {
                    PageAction::EditShortcut { row: item as usize, mouse: column == MOUSE_COLUMN }
                } else {
                    PageAction::Handled
                }
            } else if control == IDC_ASSOCIATION_TREE && code == NotifyCode::Click {
                if syncing.is_none() {
                    PageAction::Ignore
                } else {
                    PageAction::ToggleAtCursor
                }
            } else if control == IDC_ABOUT_LINK && (code == NotifyCode::Click || code
                == NotifyCode::Return) {
                PageAction::OpenLink
            } else if control == IDC_ASSOCIATION_TREE && code == NotifyCode::KeyDown {
                if key == SPACE_KEY && syncing.is_some() {
                    PageAction::ToggleSelected
                } else {
                    PageAction::Handled
                }
            } else {
                PageAction::Ignore
            }
        },
        PageEvent::Draw { control } => {
            if syncing.is_some() && control == IDC_WINDOW_BACKGROUND_COLOR_BUTTON {
                PageAction::DrawSwatch
            } else {
                PageAction::Ignore
            }
        },
        PageEvent::Other => PageAction::Ignore,
    }
}

/// Nothing is applied while the controls are being synchronized.
pub proof fn lemma_syncing_page_applies_nothing(event: PageEvent)
    ensures
        !(page_response(event, Some(true)) is ApplyCommand),
        !(page_response(event, Some(true)) is ShowNumber),
        !(page_response(event, Some(true)) is ChooseColor),
        !(page_response(event, None) is ApplyCommand),
{
}

/// A message the frame around the pages receives.
#[derive(Clone, Copy, PartialEq, Eq, Structural, Debug)]
pub enum FrameEvent {
    Initialize,
    /// A control notifies; the selection is the tab's.
    Notify { control: i32, selection_changed: bool, selected: i64 },
    Command { control: i32 },
    Destroy,
    Other,
}

/// What the frame does about a message.
#[derive(Clone, Copy, PartialEq, Eq, Structural, Debug)]
pub enum FrameAction {
    Ignore,
    /// Set the frame up and open its first page.
    Open,
    /// Show a page and catch its number field up.
    SelectPage { selected: i64 },
    /// Apply, then close.
    ApplyAndClose,
    Apply,
    Close,
    RestoreDefaults,
    /// Free what the frame owns.
    Dispose,
}

pub open spec fn frame_response(event: FrameEvent) -> FrameAction {
    match event {
        FrameEvent::Initialize => FrameAction::Open,
        FrameEvent::Notify { control, selection_changed, selected } => if control
            == IDC_OPTIONS_TAB && selection_changed {
            FrameAction::SelectPage { selected }
        } else {
            FrameAction::Ignore
        },
        FrameEvent::Command { control } => if control == IDOK {
            FrameAction::ApplyAndClose
        } else if control == IDCANCEL {
            FrameAction::Close
        } else if control == IDC_APPLY {
            FrameAction::Apply
        } else if control == IDC_RESTORE_DEFAULTS {
            FrameAction::RestoreDefaults
        } else {
            FrameAction::Ignore
        },
        FrameEvent::Destroy => FrameAction::Dispose,
        FrameEvent::Other => FrameAction::Ignore,
    }
}

pub fn frame_procedure(event: FrameEvent) -> (action: FrameAction)
    ensures
        action == frame_response(event),
{
    match event {
        FrameEvent::Initialize => FrameAction::Open,
        FrameEvent::Notify { control, selection_changed, selected } => {
            if control == IDC_OPTIONS_TAB && selection_changed {
                FrameAction::SelectPage { selected }
            } else {
                FrameAction::Ignore
            }
        },
        FrameEvent::Command { control } => {
            if control == IDOK {
                FrameAction::ApplyAndClose
            } else if control == IDCANCEL {
                FrameAction::Close
            } else if control == IDC_APPLY {
                FrameAction::Apply
            } else if control == IDC_RESTORE_DEFAULTS {
                FrameAction::RestoreDefaults
            } else {
                FrameAction::Ignore
            }
        },
        FrameEvent::Destroy => FrameAction::Dispose,
        FrameEvent::Other => FrameAction::Ignore,
    }
}

/// The page a tab selection stands for, if there is one.
pub fn selected_page(selected: i64) -> (page: Option<usize>)
    ensures
        page == (if 0 <= selected < PAGES@.len() {
            Some(selected as usize)
        } else {
            None
        }),
{
    if 0 <= selected && selected < PAGES.len() as i64 {
        Some(selected as usize)
    } else {
        None
    }
}

/// The pages that go down once the selected one is up: all but that.
pub open spec fn hidden_upto(visible: Option<usize>, count: int) -> Seq<usize>
    decreases count,
{
    if count <= 0 {
        Seq::empty()
    } else {
        let before = hidden_upto(visible, count - 1);
        if visible == Some((count - 1) as usize) {
            before
        } else {
            before.push((count - 1) as usize)
        }
    }
}

pub fn hidden_pages(visible: Option<usize>) -> (hidden: Vec<usize>)
    ensures
        hidden@ == hidden_upto(visible, PAGES@.len() as int),
{
    let mut hidden: Vec<usize> = Vec::new();
    let mut index: usize = 0;
    while index < PAGES.len()
        invariant
            index <= PAGES@.len(),
            hidden@ == hidden_upto(visible, index as int),
        decreases PAGES@.len() - index,
    {
        let shown: bool = match visible {
            Some(page) => page == index,
            None => false,
        };
        if !shown {
            hidden.push(index);
        }
        index += 1;
    }
    hidden
}

/// A share of a width in hundredths, rounded toward zero.
pub open spec fn share(usable: int, hundredths: int) -> int {
    if usable >= 0 {
        usable * hundredths / 100
    } else {
        -((-usable) * hundredths / 100)
    }
}

/// The widths of the list's three columns: what is left over after the first two is the third's.
pub open spec fn column_widths(usable: int) -> (int, int, int) {
    let action = share(usable, 36);
    let keyboard = share(usable, 32);
    (action, keyboard, usable - action - keyboard)
}

pub fn shortcut_columns(usable: i32) -> (widths: (i32, i32, i32))
    requires
        -(i32::MAX / 36) <= usable <= i32::MAX / 36,
    ensures
        (widths.0 as int, widths.1 as int, widths.2 as int) == column_widths(usable as int),
{
    let width: u32 = if usable >= 0 {
        usable as u32
    } else {
        (-usable) as u32
    };
    let action: i32 = (width * 36 / 100) as i32;
    let keyboard: i32 = (width * 32 / 100) as i32;
    if usable >= 0 {
        (action, keyboard, usable - action - keyboard)
    } else {
        (-action, -keyboard, usable + action + keyboard)
    }
}

/// The three columns fill the list exactly.
pub proof fn lemma_columns_fill_the_list(usable: int)
    ensures
        column_widths(usable).0 + column_widths(usable).1 + column_widths(usable).2 == usable,
        0 <= usable ==> 0 <= column_widths(usable).0 && 0 <= column_widths(usable).1 && 0
            <= column_widths(usable).2,
{
}

/// Texts with a comma and a space between them.
pub open spec fn joined(texts: Seq<Seq<char>>) -> Seq<char>
    decreases texts.len(),
{
    if texts.len() == 0 {
        Seq::empty()
    } else if texts.len() == 1 {
        texts[0]
    } else {
        joined(texts.drop_last()) + ", "@ + texts.last()
    }
}

/// What a cell of the shortcut list shows.
pub fn join_texts(texts: &Vec<String>) -> (text: String)
    ensures
        text@ == joined(strings::spellings(texts@)),
{
    let ghost models = strings::spellings(texts@);
    let mut text = String::new();
    let mut index: usize = 0;
    assert(models.take(0) =~= Seq::empty());
    assert(text@ =~= Seq::empty());
    while index < texts.len()
        invariant
            models == strings::spellings(texts@),
            index <= texts.len(),
            text@ == joined(models.take(index as int)),
        decreases texts.len() - index,
    {
        assert(models.take(index + 1).drop_last() =~= models.take(index as int));
        assert(models.take(index + 1).last() == texts@[index as int]@);
        if index > 0 {
            text.append(", ");
        }
        text.append(texts[index].as_str());
        if index == 0 {
            assert(text@ =~= texts@[0]@);
        }
        index += 1;
    }
    assert(models.take(index as int) =~= models);
    text
}

/// A color in one number: red lowest, then green, then blue.
pub open spec fn color_number(color: Color) -> u32 {
    (color.red + color.green * 256 + color.blue * 65536) as u32
}

pub open spec fn color_of(number: u32) -> Color {
    Color {
        red: (number % 256) as u8,
        green: (number / 256 % 256) as u8,
        blue: (number / 65536 % 256) as u8,
    }
}

pub fn rgb_to_colorref(color: Color) -> (number: u32)
    ensures
        number == color_number(color),
{
    color.red as u32 + color.green as u32 * 256 + color.blue as u32 * 65536
}

pub fn colorref_to_rgb(number: u32) -> (color: Color)
    ensures
        color == color_of(number),
{
    Color {
        red: (number % 256) as u8,
        green: (number / 256 % 256) as u8,
        blue: (number / 65536 % 256) as u8,
    }
}

/// A color comes back from its number.
pub proof fn lemma_color_round_trip(color: Color)
    ensures
        color_of(color_number(color)) == color,
{
}

impl OptionsState {
    /// The number a field shows; None for a control that shows none.
    pub fn shown_number(&self, control: i32) -> (number: Option<u32>)
        ensures
            number == (if control == IDC_IMAGE_ZOOM_STEP_EDIT {
                Some(self@.transient_options.zoom_step_percent)
            } else if control == IDC_MISCELLANEOUS_SLIDESHOW_INTERVAL_EDIT {
                Some(self@.transient_options.slideshow_interval_seconds)
            } else {
                None
            }),
    {
        if control == IDC_IMAGE_ZOOM_STEP_EDIT {
            Some(self.transient_options.zoom_step_percent)
        } else if control == IDC_MISCELLANEOUS_SLIDESHOW_INTERVAL_EDIT {
            Some(self.transient_options.slideshow_interval_seconds)
        } else {
            None
        }
    }
}

/// The shortcuts of one column of a row.
pub open spec fn column_of(row: RowModel, mouse: bool) -> Seq<Seq<char>> {
    if mouse {
        row.mouse
    } else {
        row.keyboard
    }
}

/// The shortcuts that the first rows hold, all but one of them, each with its action's label.
pub open spec fn taken_upto(rows: Seq<RowModel>, except: int, mouse: bool, count: int) -> Seq<
    (Seq<char>, Seq<char>),
>
    decreases count,
{
    if count <= 0 {
        Seq::empty()
    } else {
        let before = taken_upto(rows, except, mouse, count - 1);
        if count - 1 == except {
            before
        } else {
            before + column_of(rows[count - 1], mouse).map_values(
                |text: Seq<char>| (text, actions::label_of(rows[count - 1].action)),
            )
        }
    }
}

/// Shortcuts with the label of the action that holds them.
pub open spec fn taken_models(taken: Seq<(String, &'static str)>) -> Seq<(Seq<char>, Seq<char>)> {
    taken.map_values(|entry: (String, &'static str)| (entry.0@, entry.1@))
}

/// What Apply hands to the main window: the settings, and each action's shortcuts under its name.
pub struct AppliedOptions {
    pub options: Options,
    pub keyboard: Vec<(String, Vec<String>)>,
    pub mouse: Vec<(String, Vec<String>)>,
}

/// One column of the rows, each under its action's name.
pub open spec fn named_column(rows: Seq<RowModel>, mouse: bool) -> Seq<(Seq<char>, Seq<Seq<char>>)> {
    rows.map_values(|row: RowModel| (actions::name_of(row.action), column_of(row, mouse)))
}

pub open spec fn optional_texts(list: Option<Vec<String>>) -> Option<Seq<Seq<char>>> {
    match list {
        Some(found) => Some(strings::spellings(found@)),
        None => None,
    }
}

/// What Apply has to write.
pub struct ApplyPlan {
    /// The associations to register, where they change.
    pub associations: Option<Vec<String>>,
    /// Whether the start menu entry is to be there, where that changes.
    pub start_menu: Option<bool>,
    pub payload: AppliedOptions,
}

impl OptionsState {
    /// The shortcuts of one column of a row.
    pub fn current_shortcuts(&self, row: usize, mouse: bool) -> (current: Vec<String>)
        requires
            row < self@.transient_shortcuts.len(),
        ensures
            strings::spellings(current@) == column_of(
                self@.transient_shortcuts[row as int],
                mouse,
            ),
    {
        if mouse {
            copied_strings(&self.transient_shortcuts[row].mouse)
        } else {
            copied_strings(&self.transient_shortcuts[row].keyboard)
        }
    }

    /// The shortcuts the other rows hold, each with its action's label.
    pub fn taken_shortcuts(&self, row: usize, mouse: bool) -> (taken: Vec<(String, &'static str)>)
        ensures
            taken_models(taken@) == taken_upto(
                self@.transient_shortcuts,
                row as int,
                mouse,
                self@.transient_shortcuts.len() as int,
            ),
    {
        let ghost rows = self@.transient_shortcuts;
        assert(rows.len() == self.transient_shortcuts@.len());
        let mut taken: Vec<(String, &'static str)> = Vec::new();
        let mut index: usize = 0;
        assert(taken_models(taken@) =~= Seq::empty());
        while index < self.transient_shortcuts.len()
            invariant
                rows == self@.transient_shortcuts,
                rows.len() == self.transient_shortcuts@.len(),
                index <= self.transient_shortcuts@.len(),
                taken_models(taken@) == taken_upto(rows, row as int, mouse, index as int),
            decreases self.transient_shortcuts@.len() - index,
        {
            if index != row {
                let ghost start = taken_models(taken@);
                let label = self.transient_shortcuts[index].action.label();
                let texts = if mouse {
                    &self.transient_shortcuts[index].mouse
                } else {
                    &self.transient_shortcuts[index].keyboard
                };
                assert(rows[index as int] == self.transient_shortcuts@[index as int]@);
                let ghost models = column_of(rows[index as int], mouse);
                assert(models == strings::spellings(texts@));
                let ghost pairs = models.map_values(
                    |text: Seq<char>| (text, actions::label_of(rows[index as int].action)),
                );
                let mut place: usize = 0;
                assert(start + pairs.take(0) =~= start);
                while place < texts.len()
                    invariant
                        models == strings::spellings(texts@),
                        label@ == actions::label_of(rows[index as int].action),
                        pairs == models.map_values(
                            |text: Seq<char>| (text, actions::label_of(rows[index as int].action)),
                        ),
                        place <= texts@.len(),
                        taken_models(taken@) == start + pairs.take(place as int),
                    decreases texts@.len() - place,
                {
                    let ghost before = taken_models(taken@);
                    assert(pairs[place as int] == (texts@[place as int]@, label@));
                    taken.push((texts[place].clone(), label));
                    assert(taken_models(taken@) =~= before.push(pairs[place as int]));
                    assert(start + pairs.take(place + 1) =~= (start + pairs.take(
                        place as int,
                    )).push(pairs[place as int]));
                    place += 1;
                }
                assert(pairs.take(place as int) =~= pairs);
            }
            index += 1;
        }
        taken
    }

    /// Takes over the shortcuts that were captured for one column of a row.
    pub fn set_shortcuts(&mut self, row: usize, mouse: bool, encodings: Vec<String>)
        requires
            row < old(self)@.transient_shortcuts.len(),
        ensures
            final(self)@ == (OptionsModel {
                transient_shortcuts: old(self)@.transient_shortcuts.update(
                    row as int,
                    if mouse {
                        RowModel {
                            mouse: strings::spellings(encodings@),
                            ..old(self)@.transient_shortcuts[row as int]
                        }
                    } else {
                        RowModel {
                            keyboard: strings::spellings(encodings@),
                            ..old(self)@.transient_shortcuts[row as int]
                        }
                    },
                ),
                ..old(self)@
            }),
    {
        let ghost before = self@;
        let ghost texts = strings::spellings(encodings@);
        if mouse {
            self.transient_shortcuts[row].mouse = encodings;
            assert(self@.transient_shortcuts =~= before.transient_shortcuts.update(
                row as int,
                RowModel { mouse: texts, ..before.transient_shortcuts[row as int] },
            ));
        } else {
            self.transient_shortcuts[row].keyboard = encodings;
            assert(self@.transient_shortcuts =~= before.transient_shortcuts.update(
                row as int,
                RowModel { keyboard: texts, ..before.transient_shortcuts[row as int] },
            ));
        }
    }

    fn column(&self, mouse: bool) -> (column: Vec<(String, Vec<String>)>)
        ensures
            overrides::list_models(column@) == named_column(self@.transient_shortcuts, mouse),
    {
        let ghost rows = self@.transient_shortcuts;
        let ghost models = named_column(rows, mouse);
        assert(rows.len() == self.transient_shortcuts@.len());
        let mut column: Vec<(String, Vec<String>)> = Vec::new();
        let mut index: usize = 0;
        while index < self.transient_shortcuts.len()
            invariant
                rows == self@.transient_shortcuts,
                models == named_column(rows, mouse),
                rows.len() == self.transient_shortcuts@.len(),
                index <= self.transient_shortcuts@.len(),
                overrides::list_models(column@) == models.take(index as int),
            decreases self.transient_shortcuts@.len() - index,
        {
            let ghost before = overrides::list_models(column@);
            assert(rows[index as int] == self.transient_shortcuts@[index as int]@);
            let name = self.transient_shortcuts[index].action.name().to_owned();
            let texts = if mouse {
                copied_strings(&self.transient_shortcuts[index].mouse)
            } else {
                copied_strings(&self.transient_shortcuts[index].keyboard)
            };
            assert(models[index as int] == (name@, strings::spellings(texts@)));
            column.push((name, texts));
            assert(overrides::list_models(column@) =~= before.push(models[index as int]));
            assert(models.take(index + 1) =~= models.take(index as int).push(
                models[index as int],
            ));
            index += 1;
        }
        assert(models.take(index as int) =~= models);
        column
    }

    /// What Apply has to write; None where nothing differs from what is saved.
    pub fn apply_plan(&self) -> (plan: Option<ApplyPlan>)
        ensures
            plan is Some <==> self@.dirty(),
            plan matches Some(found) ==> {
                &&& match found.associations {
                    Some(desired) => self@.desired_associations() != self@.saved_associations
                        && strings::spellings(desired@) == self@.desired_associations(),
                    None => self@.desired_associations() == self@.saved_associations,
                }
                &&& found.start_menu == (if self@.start_menu_desired != self@.start_menu_saved {
                    Some(self@.start_menu_desired)
                } else {
                    None
                })
                &&& found.payload.options == self@.transient_options
                &&& overrides::list_models(found.payload.keyboard@) == named_column(
                    self@.transient_shortcuts,
                    false,
                )
                &&& overrides::list_models(found.payload.mouse@) == named_column(
                    self@.transient_shortcuts,
                    true,
                )
            },
    {
        if !self.is_dirty() {
            return None;
        }
        let desired = self.desired_associations();
        let associations = if same_strings(&desired, &self.saved_associations) {
            None
        } else {
            Some(desired)
        };
        let start_menu = if self.start_menu_desired != self.start_menu_saved {
            Some(self.start_menu_desired)
        } else {
            None
        };
        let payload = AppliedOptions {
            options: self.transient_options,
            keyboard: self.column(false),
            mouse: self.column(true),
        };
        Some(ApplyPlan { associations, start_menu, payload })
    }

    /// Takes note that everything was written. The associations and the start menu are what was probed
    /// again, so a failed write keeps Apply enabled.
    pub fn finish_apply(&mut self, associations: Option<Vec<String>>, start_menu: Option<bool>)
        ensures
            final(self)@ == old(self)@.settled(optional_texts(associations), start_menu),
    {
        let ghost probed = optional_texts(associations);
        match associations {
            Some(found) => {
                self.saved_associations = found;
            },
            None => {},
        }
        match start_menu {
            Some(present) => {
                self.start_menu_saved = present;
            },
            None => {},
        }
        self.saved_options = self.transient_options;
        self.saved_shortcuts = copied_rows(&self.transient_shortcuts);
        assert(self@ =~= old(self)@.settled(probed, start_menu));
    }
}

/// Once everything that differs was written and found written, nothing differs.
pub proof fn lemma_apply_settles(model: OptionsModel)
    ensures
        !model.settled(
            Some(model.desired_associations()),
            Some(model.start_menu_desired),
        ).dirty(),
{
    let after = model.settled(Some(model.desired_associations()), Some(model.start_menu_desired));
    if model.extensions.len() == 0 {
        assert(after.desired_associations() == model.saved_associations);
    }
}

/// A write that did not take leaves the dialog as unsaved as it was in that respect.
pub proof fn lemma_failed_write_stays_unsaved(
    model: OptionsModel,
    associations: Seq<Seq<char>>,
    present: bool,
)
    ensures
        model.extensions.len() > 0 && associations != model.desired_associations()
            ==> model.settled(Some(associations), Some(present)).dirty(),
        present != model.start_menu_desired ==> model.settled(
            Some(associations),
            Some(present),
        ).dirty(),
{
}

/// The restored defaults are the defaults, whatever was edited before.
pub proof fn lemma_restoring_reaches_the_defaults(model: OptionsModel, defaults: Options)
    ensures
        !model.restored(defaults).off_defaults(defaults),
        model.restored(defaults).restored(defaults) == model.restored(defaults),
{
}

/// Numbers stay within their limits, whatever is typed.
pub proof fn lemma_numbers_stay_within_limits(
    options: Options,
    command: resource::PageCommand,
    value: u32,
    limits: OptionLimits,
)
    requires
        limits.sound(),
        limits.minimum_zoom_step_percent <= options.zoom_step_percent
            <= limits.maximum_zoom_step_percent,
        limits.minimum_slideshow_interval_seconds <= options.slideshow_interval_seconds
            <= limits.maximum_slideshow_interval_seconds,
    ensures
        ({
            let after = options.after(command, value, limits);
            &&& limits.minimum_zoom_step_percent <= after.zoom_step_percent
                <= limits.maximum_zoom_step_percent
            &&& limits.minimum_slideshow_interval_seconds <= after.slideshow_interval_seconds
                <= limits.maximum_slideshow_interval_seconds
        }),
{
}

/// A command changes what is edited, never what is saved.
pub proof fn lemma_commands_leave_what_is_saved(
    model: OptionsModel,
    command: resource::PageCommand,
    value: u32,
    limits: OptionLimits,
)
    ensures
        ({
            let after = model.after(command, value, limits);
            &&& after.saved_options == model.saved_options
            &&& after.saved_shortcuts == model.saved_shortcuts
            &&& after.saved_associations == model.saved_associations
            &&& after.start_menu_saved == model.start_menu_saved
            &&& after.groups == model.groups
            &&& after.extensions.len() == model.extensions.len()
        }),
{
}

/// What a control of a page shows.
#[derive(Clone, Copy, PartialEq, Eq, Structural, Debug)]
pub enum ControlState {
    /// A box is checked or not.
    Check { control: i32, checked: bool },
    /// A list shows this entry.
    Selection { control: i32, entry: u32 },
    /// Of two buttons, this one is chosen.
    Radio { first: i32, last: i32, chosen: i32 },
}

/// What the controls of the window page show.
pub open spec fn window_controls(options: Options) -> Seq<ControlState> {
    seq![
        ControlState::Check {
            control: resource::IDC_WINDOW_BACKGROUND_COLOR_ENABLED,
            checked: options.background_color_enabled,
        },
        ControlState::Selection {
            control: resource::IDC_WINDOW_TITLE_BAR_TEXT,
            entry: options.title_bar_text,
        },
        ControlState::Check {
            control: resource::IDC_WINDOW_REMEMBER_WINDOW_PLACEMENT,
            checked: options.remember_window_placement,
        },
        ControlState::Check {
            control: resource::IDC_WINDOW_CONTROL_DRAG,
            checked: options.control_drag_window,
        },
        ControlState::Check {
            control: resource::IDC_WINDOW_HIDE_CURSOR_FULLSCREEN,
            checked: options.hide_cursor_fullscreen,
        },
    ]
}

/// What the controls of the image page show.
pub open spec fn image_controls(options: Options) -> Seq<ControlState> {
    seq![
        ControlState::Selection {
            control: resource::IDC_IMAGE_SCALING,
            entry: options.scaling_filter,
        },
        ControlState::Selection {
            control: resource::IDC_IMAGE_DITHER,
            entry: options.dither_mode,
        },
        ControlState::Selection { control: resource::IDC_IMAGE_FIT_MODE, entry: options.fit_mode },
        ControlState::Selection {
            control: resource::IDC_IMAGE_PRELOADING,
            entry: options.preloading,
        },
        ControlState::Check {
            control: resource::IDC_IMAGE_CURSOR_ZOOM,
            checked: options.cursor_zoom,
        },
        ControlState::Check {
            control: resource::IDC_IMAGE_FRACTIONAL_WHEEL_ZOOM,
            checked: options.fractional_wheel_zoom,
        },
    ]
}

/// What the controls of the miscellaneous page show.
pub open spec fn miscellaneous_controls(options: Options) -> Seq<ControlState> {
    seq![
        ControlState::Selection {
            control: resource::IDC_MISCELLANEOUS_SORT,
            entry: options.sort_files_by,
        },
        ControlState::Radio {
            first: resource::IDC_MISCELLANEOUS_ASCENDING,
            last: resource::IDC_MISCELLANEOUS_DESCENDING,
            chosen: if options.sort_descending {
                resource::IDC_MISCELLANEOUS_DESCENDING
            } else {
                resource::IDC_MISCELLANEOUS_ASCENDING
            },
        },
        ControlState::Check {
            control: resource::IDC_MISCELLANEOUS_LOOP_WITHIN_FOLDER,
            checked: options.loop_within_folder,
        },
        ControlState::Selection {
            control: resource::IDC_MISCELLANEOUS_SLIDESHOW_DIRECTION,
            entry: options.slideshow_direction,
        },
        ControlState::Selection {
            control: resource::IDC_MISCELLANEOUS_AFTER_DELETION,
            entry: options.after_deletion,
        },
        ControlState::Check {
            control: resource::IDC_MISCELLANEOUS_ASK_DELETE,
            checked: options.ask_delete,
        },
        ControlState::Check {
            control: resource::IDC_MISCELLANEOUS_DETECT_FORMAT_BY_CONTENT,
            checked: options.detect_format_by_content,
        },
        ControlState::Check {
            control: resource::IDC_MISCELLANEOUS_REMEMBER_RECENTS,
            checked: options.remember_recents,
        },
        ControlState::Check {
            control: resource::IDC_MISCELLANEOUS_SKIP_HIDDEN,
            checked: options.skip_hidden,
        },
    ]
}

/// What the controls of the start menu page show.
pub open spec fn start_menu_controls(desired: bool) -> Seq<ControlState> {
    seq![ControlState::Check { control: resource::IDC_START_MENU_SHORTCUT, checked: desired }]
}

/// What the controls of a page show, by its template; the pages without settings show none.
pub open spec fn controls_of(template: u16, model: OptionsModel) -> Seq<ControlState> {
    if template == resource::IDD_PAGE_WINDOW {
        window_controls(model.transient_options)
    } else if template == resource::IDD_PAGE_IMAGE {
        image_controls(model.transient_options)
    } else if template == resource::IDD_PAGE_MISCELLANEOUS {
        miscellaneous_controls(model.transient_options)
    } else if template == resource::IDD_PAGE_START_MENU {
        start_menu_controls(model.start_menu_desired)
    } else {
        Seq::empty()
    }
}

impl OptionsState {
    fn sync_window_page(&self) -> (controls: Vec<ControlState>)
        ensures
            controls@ == window_controls(self@.transient_options),
    {
        let options = self.transient_options;
        let mut controls: Vec<ControlState> = Vec::new();
        controls.push(
            ControlState::Check {
                control: resource::IDC_WINDOW_BACKGROUND_COLOR_ENABLED,
                checked: options.background_color_enabled,
            },
        );
        controls.push(
            ControlState::Selection {
                control: resource::IDC_WINDOW_TITLE_BAR_TEXT,
                entry: options.title_bar_text,
            },
        );
        controls.push(
            ControlState::Check {
                control: resource::IDC_WINDOW_REMEMBER_WINDOW_PLACEMENT,
                checked: options.remember_window_placement,
            },
        );
        controls.push(
            ControlState::Check {
                control: resource::IDC_WINDOW_CONTROL_DRAG,
                checked: options.control_drag_window,
            },
        );
        controls.push(
            ControlState::Check {
                control: resource::IDC_WINDOW_HIDE_CURSOR_FULLSCREEN,
                checked: options.hide_cursor_fullscreen,
            },
        );
        assert(controls@ =~= window_controls(self@.transient_options));
        controls
    }

    fn sync_image_page(&self) -> (controls: Vec<ControlState>)
        ensures
            controls@ == image_controls(self@.transient_options),
    {
        let options = self.transient_options;
        let mut controls: Vec<ControlState> = Vec::new();
        controls.push(
            ControlState::Selection {
                control: resource::IDC_IMAGE_SCALING,
                entry: options.scaling_filter,
            },
        );
        controls.push(
            ControlState::Selection {
                control: resource::IDC_IMAGE_DITHER,
                entry: options.dither_mode,
            },
        );
        controls.push(
            ControlState::Selection {
                control: resource::IDC_IMAGE_FIT_MODE,
                entry: options.fit_mode,
            },
        );
        controls.push(
            ControlState::Selection {
                control: resource::IDC_IMAGE_PRELOADING,
                entry: options.preloading,
            },
        );
        controls.push(
            ControlState::Check {
                control: resource::IDC_IMAGE_CURSOR_ZOOM,
                checked: options.cursor_zoom,
            },
        );
        controls.push(
            ControlState::Check {
                control: resource::IDC_IMAGE_FRACTIONAL_WHEEL_ZOOM,
                checked: options.fractional_wheel_zoom,
            },
        );
        assert(controls@ =~= image_controls(self@.transient_options));
        controls
    }

    fn sync_miscellaneous_page(&self) -> (controls: Vec<ControlState>)
        ensures
            controls@ == miscellaneous_controls(self@.transient_options),
    {
        let options = self.transient_options;
        let mut controls: Vec<ControlState> = Vec::new();
        controls.push(
            ControlState::Selection {
                control: resource::IDC_MISCELLANEOUS_SORT,
                entry: options.sort_files_by,
            },
        );
        controls.push(
            ControlState::Radio {
                first: resource::IDC_MISCELLANEOUS_ASCENDING,
                last: resource::IDC_MISCELLANEOUS_DESCENDING,
                chosen: if options.sort_descending {
                    resource::IDC_MISCELLANEOUS_DESCENDING
                } else {
                    resource::IDC_MISCELLANEOUS_ASCENDING
                },
            },
        );
        controls.push(
            ControlState::Check {
                control: resource::IDC_MISCELLANEOUS_LOOP_WITHIN_FOLDER,
                checked: options.loop_within_folder,
            },
        );
        controls.push(
            ControlState::Selection {
                control: resource::IDC_MISCELLANEOUS_SLIDESHOW_DIRECTION,
                entry: options.slideshow_direction,
            },
        );
        controls.push(
            ControlState::Selection {
                control: resource::IDC_MISCELLANEOUS_AFTER_DELETION,
                entry: options.after_deletion,
            },
        );
        controls.push(
            ControlState::Check {
                control: resource::IDC_MISCELLANEOUS_ASK_DELETE,
                checked: options.ask_delete,
            },
        );
        controls.push(
            ControlState::Check {
                control: resource::IDC_MISCELLANEOUS_DETECT_FORMAT_BY_CONTENT,
                checked: options.detect_format_by_content,
            },
        );
        controls.push(
            ControlState::Check {
                control: resource::IDC_MISCELLANEOUS_REMEMBER_RECENTS,
                checked: options.remember_recents,
            },
        );
        controls.push(
            ControlState::Check {
                control: resource::IDC_MISCELLANEOUS_SKIP_HIDDEN,
                checked: options.skip_hidden,
            },
        );
        assert(controls@ =~= miscellaneous_controls(self@.transient_options));
        controls
    }

    /// What the controls of a page show, by its template.
    pub fn sync_page(&self, template: u16) -> (controls: Vec<ControlState>)
        ensures
            controls@ == controls_of(template, self@),
    {
        if template == resource::IDD_PAGE_WINDOW {
            self.sync_window_page()
        } else if template == resource::IDD_PAGE_IMAGE {
            self.sync_image_page()
        } else if template == resource::IDD_PAGE_MISCELLANEOUS {
            self.sync_miscellaneous_page()
        } else if template == resource::IDD_PAGE_START_MENU {
            let mut controls: Vec<ControlState> = Vec::new();
            controls.push(
                ControlState::Check {
                    control: resource::IDC_START_MENU_SHORTCUT,
                    checked: self.start_menu_desired,
                },
            );
            assert(controls@ =~= start_menu_controls(self@.start_menu_desired));
            controls
        } else {
            Vec::new()
        }
    }
}

/// The command that a control's own notification stands for, and the value it would be read as.
pub open spec fn own_command(state: ControlState) -> (Option<resource::PageCommand>, u32) {
    match state {
        ControlState::Check { control, checked } => (
            resource::command_from(control, BN_CLICKED, 0),
            if checked {
                1
            } else {
                0
            },
        ),
        ControlState::Selection { control, entry } => (
            resource::command_from(control, resource::CBN_SELCHANGE, 0),
            entry,
        ),
        ControlState::Radio { chosen, .. } => (resource::command_from(chosen, BN_CLICKED, 0), 0),
    }
}

/// Reading a control back changes nothing.
pub open spec fn reads_back(model: OptionsModel, state: ControlState, limits: OptionLimits) -> bool {
    match own_command(state) {
        (Some(command), value) => model.after(command, value, limits) == model,
        _ => false,
    }
}

proof fn lemma_option_unchanged(
    model: OptionsModel,
    command: resource::PageCommand,
    value: u32,
    limits: OptionLimits,
)
    requires
        model.transient_options.after(command, value, limits) == model.transient_options,
        !(command is ResetShortcuts),
        !(command is ClearShortcuts),
        !(command is SelectAllAssociations),
        !(command is SelectNoAssociations),
        !(command is StartMenuShortcut),
    ensures
        model.after(command, value, limits) == model,
{
    assert(model.after(command, value, limits) == (OptionsModel {
        transient_options: model.transient_options.after(command, value, limits),
        ..model
    }));
}

proof fn lemma_window_page_reads_back(model: OptionsModel, index: int, limits: OptionLimits)
    requires
        0 <= index < window_controls(model.transient_options).len(),
    ensures
        reads_back(model, window_controls(model.transient_options)[index], limits),
{
    let state = window_controls(model.transient_options)[index];
    if index == 0 {
        resource::lemma_every_command_is_found(0);
        lemma_option_unchanged(
            model,
            resource::PageCommand::BackgroundColorEnabled,
            own_command(state).1,
            limits,
        );
    } else if index == 1 {
        resource::lemma_every_command_is_found(1);
        lemma_option_unchanged(
            model,
            resource::PageCommand::TitleBarText,
            own_command(state).1,
            limits,
        );
    } else if index == 2 {
        resource::lemma_every_command_is_found(3);
        lemma_option_unchanged(
            model,
            resource::PageCommand::RememberWindowPlacement,
            own_command(state).1,
            limits,
        );
    } else if index == 3 {
        resource::lemma_every_command_is_found(4);
        lemma_option_unchanged(
            model,
            resource::PageCommand::ControlDragWindow,
            own_command(state).1,
            limits,
        );
    } else if index == 4 {
        resource::lemma_every_command_is_found(5);
        lemma_option_unchanged(
            model,
            resource::PageCommand::HideCursorFullscreen,
            own_command(state).1,
            limits,
        );
    }
}

proof fn lemma_image_page_reads_back(model: OptionsModel, index: int, limits: OptionLimits)
    requires
        0 <= index < image_controls(model.transient_options).len(),
    ensures
        reads_back(model, image_controls(model.transient_options)[index], limits),
{
    let state = image_controls(model.transient_options)[index];
    if index == 0 {
        resource::lemma_every_command_is_found(6);
        lemma_option_unchanged(
            model,
            resource::PageCommand::ScalingFilter,
            own_command(state).1,
            limits,
        );
    } else if index == 1 {
        resource::lemma_every_command_is_found(7);
        lemma_option_unchanged(
            model,
            resource::PageCommand::DitherMode,
            own_command(state).1,
            limits,
        );
    } else if index == 2 {
        resource::lemma_every_command_is_found(2);
        lemma_option_unchanged(
            model,
            resource::PageCommand::FitMode,
            own_command(state).1,
            limits,
        );
    } else if index == 3 {
        resource::lemma_every_command_is_found(14);
        lemma_option_unchanged(
            model,
            resource::PageCommand::Preloading,
            own_command(state).1,
            limits,
        );
    } else if index == 4 {
        resource::lemma_every_command_is_found(9);
        lemma_option_unchanged(
            model,
            resource::PageCommand::CursorZoom,
            own_command(state).1,
            limits,
        );
    } else if index == 5 {
        resource::lemma_every_command_is_found(10);
        lemma_option_unchanged(
            model,
            resource::PageCommand::FractionalWheelZoom,
            own_command(state).1,
            limits,
        );
    }
}

proof fn lemma_miscellaneous_page_reads_back(model: OptionsModel, index: int, limits: OptionLimits)
    requires
        0 <= index < miscellaneous_controls(model.transient_options).len(),
    ensures
        reads_back(model, miscellaneous_controls(model.transient_options)[index], limits),
{
    let state = miscellaneous_controls(model.transient_options)[index];
    if index == 0 {
        resource::lemma_every_command_is_found(11);
        lemma_option_unchanged(
            model,
            resource::PageCommand::SortFilesBy,
            own_command(state).1,
            limits,
        );
    } else if index == 1 {
        resource::lemma_every_command_is_found(12);
        resource::lemma_every_command_is_found(13);
        if model.transient_options.sort_descending {
            lemma_option_unchanged(model, resource::PageCommand::SortDescending, 0, limits);
        } else {
            lemma_option_unchanged(model, resource::PageCommand::SortAscending, 0, limits);
        }
    } else if index == 2 {
        resource::lemma_every_command_is_found(15);
        lemma_option_unchanged(
            model,
            resource::PageCommand::LoopWithinFolder,
            own_command(state).1,
            limits,
        );
    } else if index == 3 {
        resource::lemma_every_command_is_found(16);
        lemma_option_unchanged(
            model,
            resource::PageCommand::SlideshowDirection,
            own_command(state).1,
            limits,
        );
    } else if index == 4 {
        resource::lemma_every_command_is_found(18);
        lemma_option_unchanged(
            model,
            resource::PageCommand::AfterDeletion,
            own_command(state).1,
            limits,
        );
    } else if index == 5 {
        resource::lemma_every_command_is_found(19);
        lemma_option_unchanged(
            model,
            resource::PageCommand::AskDelete,
            own_command(state).1,
            limits,
        );
    } else if index == 6 {
        resource::lemma_every_command_is_found(20);
        lemma_option_unchanged(
            model,
            resource::PageCommand::DetectFormatByContent,
            own_command(state).1,
            limits,
        );
    } else if index == 7 {
        resource::lemma_every_command_is_found(21);
        lemma_option_unchanged(
            model,
            resource::PageCommand::RememberRecents,
            own_command(state).1,
            limits,
        );
    } else if index == 8 {
        resource::lemma_every_command_is_found(22);
        lemma_option_unchanged(
            model,
            resource::PageCommand::SkipHidden,
            own_command(state).1,
            limits,
        );
    }
}

proof fn lemma_start_menu_page_reads_back(model: OptionsModel, index: int, limits: OptionLimits)
    requires
        0 <= index < start_menu_controls(model.start_menu_desired).len(),
    ensures
        reads_back(model, start_menu_controls(model.start_menu_desired)[index], limits),
{
    let state = start_menu_controls(model.start_menu_desired)[index];
    if index == 0 {
        resource::lemma_every_command_is_found(27);
        assert(model.after(
            resource::PageCommand::StartMenuShortcut,
            own_command(state).1,
            limits,
        ) =~= model);
    }
}

/// What a page shows is what it edits: reading any of its controls back changes nothing.
pub proof fn lemma_shown_controls_read_back(
    template: u16,
    model: OptionsModel,
    index: int,
    limits: OptionLimits,
)
    requires
        0 <= index < controls_of(template, model).len(),
    ensures
        reads_back(model, controls_of(template, model)[index], limits),
{
    if template == resource::IDD_PAGE_WINDOW {
        lemma_window_page_reads_back(model, index, limits);
    } else if template == resource::IDD_PAGE_IMAGE {
        lemma_image_page_reads_back(model, index, limits);
    } else if template == resource::IDD_PAGE_MISCELLANEOUS {
        lemma_miscellaneous_page_reads_back(model, index, limits);
    } else {
        lemma_start_menu_page_reads_back(model, index, limits);
    }
}

} // verus!
