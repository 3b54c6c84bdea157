//! Dialog resources: the identifiers, the settings pages, and what each control of them does.

use vstd::prelude::*;

verus! {

/// The identifiers of the two closing buttons.
pub const IDOK: i32 = 1;

pub const IDCANCEL: i32 = 2;

/// A button was clicked.
pub const BN_CLICKED: u32 = 0;

/// The state of a checked button; an unchecked and an undecided one have others.
pub const BST_CHECKED: u32 = 1;

/// Another entry of a list was chosen.
pub const CBN_SELCHANGE: u32 = 1;

/// The text of a field changed.
pub const EN_CHANGE: u32 = 0x0300;

/// A field lost the focus.
pub const EN_KILLFOCUS: u32 = 0x0200;

pub const PAGE_TEMPLATE_WIDTH_DIALOG_UNITS: i32 = 292;

pub const PAGE_TEMPLATE_HEIGHT_DIALOG_UNITS: i32 = 194;

pub const IDD_OPTIONS: u16 = 100;

pub const IDD_PAGE_WINDOW: u16 = 110;

pub const IDD_PAGE_IMAGE: u16 = 120;

pub const IDD_PAGE_MISCELLANEOUS: u16 = 130;

pub const IDD_PAGE_SHORTCUTS: u16 = 140;

pub const IDD_PAGE_ASSOCIATION: u16 = 150;

pub const IDD_PAGE_START_MENU: u16 = 190;

pub const IDD_PAGE_ABOUT: u16 = 200;

pub const IDD_CAPTURE_KEYBOARD: u16 = 160;

pub const IDD_CAPTURE_MOUSE: u16 = 170;

pub const IDD_RENAME: u16 = 180;

pub const IDD_OPEN_URL: u16 = 185;

pub const IDC_TEXT_INPUT: i32 = 100;

pub const IDC_OPTIONS_TAB: i32 = 1001;

pub const IDC_APPLY: i32 = 1002;

pub const IDC_RESTORE_DEFAULTS: i32 = 1003;

pub const IDC_WINDOW_BACKGROUND_COLOR_ENABLED: i32 = 1101;

pub const IDC_WINDOW_BACKGROUND_COLOR_BUTTON: i32 = 1102;

pub const IDC_WINDOW_TITLE_BAR_TEXT: i32 = 1103;

pub const IDC_WINDOW_REMEMBER_WINDOW_PLACEMENT: i32 = 1107;

pub const IDC_WINDOW_CONTROL_DRAG: i32 = 1108;

pub const IDC_WINDOW_HIDE_CURSOR_FULLSCREEN: i32 = 1109;

pub const IDC_IMAGE_SCALING: i32 = 1201;

pub const IDC_IMAGE_ZOOM_STEP_EDIT: i32 = 1202;

pub const IDC_IMAGE_ZOOM_STEP_SPIN: i32 = 1203;

pub const IDC_IMAGE_CURSOR_ZOOM: i32 = 1204;

pub const IDC_IMAGE_FRACTIONAL_WHEEL_ZOOM: i32 = 1205;

pub const IDC_IMAGE_DITHER: i32 = 1206;

pub const IDC_IMAGE_FIT_MODE: i32 = 1207;

pub const IDC_IMAGE_PRELOADING: i32 = 1208;

pub const IDC_MISCELLANEOUS_SORT: i32 = 1301;

pub const IDC_MISCELLANEOUS_ASCENDING: i32 = 1302;

pub const IDC_MISCELLANEOUS_DESCENDING: i32 = 1303;

pub const IDC_MISCELLANEOUS_LOOP_WITHIN_FOLDER: i32 = 1305;

pub const IDC_MISCELLANEOUS_SLIDESHOW_DIRECTION: i32 = 1306;

pub const IDC_MISCELLANEOUS_SLIDESHOW_INTERVAL_EDIT: i32 = 1307;

pub const IDC_MISCELLANEOUS_AFTER_DELETION: i32 = 1308;

pub const IDC_MISCELLANEOUS_ASK_DELETE: i32 = 1309;

pub const IDC_MISCELLANEOUS_DETECT_FORMAT_BY_CONTENT: i32 = 1310;

pub const IDC_MISCELLANEOUS_REMEMBER_RECENTS: i32 = 1311;

pub const IDC_MISCELLANEOUS_SKIP_HIDDEN: i32 = 1312;

pub const IDC_MISCELLANEOUS_SLIDESHOW_INTERVAL_SPIN: i32 = 1313;

pub const IDC_SHORTCUTS_LIST: i32 = 1401;

pub const IDC_SHORTCUTS_RESET: i32 = 1402;

pub const IDC_SHORTCUTS_CLEAR_ALL: i32 = 1403;

pub const IDC_ASSOCIATION_TREE: i32 = 1501;

pub const IDC_ASSOCIATION_SELECT_ALL: i32 = 1502;

pub const IDC_ASSOCIATION_SELECT_NONE: i32 = 1503;

pub const IDC_START_MENU_SHORTCUT: i32 = 1901;

pub const IDC_CAPTURE_KEYBOARD_FIELD: i32 = 1601;

pub const IDC_CAPTURE_KEYBOARD_LIST: i32 = 1602;

pub const IDC_CAPTURE_KEYBOARD_CLEAR: i32 = 1604;

pub const IDC_CAPTURE_MOUSE_FIELD: i32 = 1701;

pub const IDC_CAPTURE_MOUSE_CLEAR: i32 = 1702;

pub const IDC_ABOUT_TITLE: i32 = 1801;

pub const IDC_ABOUT_VERSION: i32 = 1802;

pub const IDC_ABOUT_BUILD: i32 = 1803;

pub const IDC_ABOUT_LINK: i32 = 1804;

/// What a control of a settings page changes.
#[derive(Clone, Copy, PartialEq, Eq, Structural, Debug)]
pub enum PageCommand {
    BackgroundColorEnabled,
    TitleBarText,
    FitMode,
    RememberWindowPlacement,
    ControlDragWindow,
    HideCursorFullscreen,
    ScalingFilter,
    DitherMode,
    ZoomStep,
    CursorZoom,
    FractionalWheelZoom,
    SortFilesBy,
    SortAscending,
    SortDescending,
    Preloading,
    LoopWithinFolder,
    SlideshowDirection,
    SlideshowInterval,
    AfterDeletion,
    AskDelete,
    DetectFormatByContent,
    RememberRecents,
    SkipHidden,
    ResetShortcuts,
    ClearShortcuts,
    SelectAllAssociations,
    SelectNoAssociations,
    StartMenuShortcut,
}

/// (control, notification, command), every control a page listens to.
pub const COMMAND_TABLE: [(i32, u32, PageCommand); 28] = [
    (IDC_WINDOW_BACKGROUND_COLOR_ENABLED, BN_CLICKED, PageCommand::BackgroundColorEnabled),
    (IDC_WINDOW_TITLE_BAR_TEXT, CBN_SELCHANGE, PageCommand::TitleBarText),
    (IDC_IMAGE_FIT_MODE, CBN_SELCHANGE, PageCommand::FitMode),
    (IDC_WINDOW_REMEMBER_WINDOW_PLACEMENT, BN_CLICKED, PageCommand::RememberWindowPlacement),
    (IDC_WINDOW_CONTROL_DRAG, BN_CLICKED, PageCommand::ControlDragWindow),
    (IDC_WINDOW_HIDE_CURSOR_FULLSCREEN, BN_CLICKED, PageCommand::HideCursorFullscreen),
    (IDC_IMAGE_SCALING, CBN_SELCHANGE, PageCommand::ScalingFilter),
    (IDC_IMAGE_DITHER, CBN_SELCHANGE, PageCommand::DitherMode),
    (IDC_IMAGE_ZOOM_STEP_EDIT, EN_CHANGE, PageCommand::ZoomStep),
    (IDC_IMAGE_CURSOR_ZOOM, BN_CLICKED, PageCommand::CursorZoom),
    (IDC_IMAGE_FRACTIONAL_WHEEL_ZOOM, BN_CLICKED, PageCommand::FractionalWheelZoom),
    (IDC_MISCELLANEOUS_SORT, CBN_SELCHANGE, PageCommand::SortFilesBy),
    (IDC_MISCELLANEOUS_ASCENDING, BN_CLICKED, PageCommand::SortAscending),
    (IDC_MISCELLANEOUS_DESCENDING, BN_CLICKED, PageCommand::SortDescending),
    (IDC_IMAGE_PRELOADING, CBN_SELCHANGE, PageCommand::Preloading),
    (IDC_MISCELLANEOUS_LOOP_WITHIN_FOLDER, BN_CLICKED, PageCommand::LoopWithinFolder),
    (IDC_MISCELLANEOUS_SLIDESHOW_DIRECTION, CBN_SELCHANGE, PageCommand::SlideshowDirection),
    (IDC_MISCELLANEOUS_SLIDESHOW_INTERVAL_EDIT, EN_CHANGE, PageCommand::SlideshowInterval),
    (IDC_MISCELLANEOUS_AFTER_DELETION, CBN_SELCHANGE, PageCommand::AfterDeletion),
    (IDC_MISCELLANEOUS_ASK_DELETE, BN_CLICKED, PageCommand::AskDelete),
    (IDC_MISCELLANEOUS_DETECT_FORMAT_BY_CONTENT, BN_CLICKED, PageCommand::DetectFormatByContent),
    (IDC_MISCELLANEOUS_REMEMBER_RECENTS, BN_CLICKED, PageCommand::RememberRecents),
    (IDC_MISCELLANEOUS_SKIP_HIDDEN, BN_CLICKED, PageCommand::SkipHidden),
    (IDC_SHORTCUTS_RESET, BN_CLICKED, PageCommand::ResetShortcuts),
    (IDC_SHORTCUTS_CLEAR_ALL, BN_CLICKED, PageCommand::ClearShortcuts),
    (IDC_ASSOCIATION_SELECT_ALL, BN_CLICKED, PageCommand::SelectAllAssociations),
    (IDC_ASSOCIATION_SELECT_NONE, BN_CLICKED, PageCommand::SelectNoAssociations),
    (IDC_START_MENU_SHORTCUT, BN_CLICKED, PageCommand::StartMenuShortcut),
];

/// What a control must be read for before its command is applied.
#[derive(Clone, Copy, PartialEq, Eq, Structural, Debug)]
pub enum CommandInput {
    /// Whether it is checked.
    Check,
    /// Which entry is chosen.
    Selection,
    /// The number in it.
    Number,
    /// Nothing: the click says it all.
    Nothing,
}

/// The command of the first row, from this one on, with this control and notification.
pub open spec fn command_from(control: i32, notification: u32, row: int) -> Option<PageCommand>
    decreases COMMAND_TABLE@.len() - row,
{
    if row < 0 || row >= COMMAND_TABLE@.len() {
        None
    } else if COMMAND_TABLE@[row].0 == control && COMMAND_TABLE@[row].1 == notification {
        Some(COMMAND_TABLE@[row].2)
    } else {
        command_from(control, notification, row + 1)
    }
}

/// The command a control's notification stands for; None where no page listens to it.
pub fn page_command(control: i32, notification: u32) -> (command: Option<PageCommand>)
    ensures
        command == command_from(control, notification, 0),
{
    let mut row: usize = 0;
    while row < COMMAND_TABLE.len()
        invariant
            row <= COMMAND_TABLE@.len(),
            command_from(control, notification, 0) == command_from(
                control,
                notification,
                row as int,
            ),
        decreases COMMAND_TABLE@.len() - row,
    {
        if COMMAND_TABLE[row].0 == control && COMMAND_TABLE[row].1 == notification {
            return Some(COMMAND_TABLE[row].2);
        }
        row += 1;
    }
    None
}

/// The row of a control.
spec fn row_of_control(control: i32) -> int {
    if control == IDC_WINDOW_BACKGROUND_COLOR_ENABLED {
        0
    } else if control == IDC_WINDOW_TITLE_BAR_TEXT {
        1
    } else if control == IDC_IMAGE_FIT_MODE {
        2
    } else if control == IDC_WINDOW_REMEMBER_WINDOW_PLACEMENT {
        3
    } else if control == IDC_WINDOW_CONTROL_DRAG {
        4
    } else if control == IDC_WINDOW_HIDE_CURSOR_FULLSCREEN {
        5
    } else if control == IDC_IMAGE_SCALING {
        6
    } else if control == IDC_IMAGE_DITHER {
        7
    } else if control == IDC_IMAGE_ZOOM_STEP_EDIT {
        8
    } else if control == IDC_IMAGE_CURSOR_ZOOM {
        9
    } else if control == IDC_IMAGE_FRACTIONAL_WHEEL_ZOOM {
        10
    } else if control == IDC_MISCELLANEOUS_SORT {
        11
    } else if control == IDC_MISCELLANEOUS_ASCENDING {
        12
    } else if control == IDC_MISCELLANEOUS_DESCENDING {
        13
    } else if control == IDC_IMAGE_PRELOADING {
        14
    } else if control == IDC_MISCELLANEOUS_LOOP_WITHIN_FOLDER {
        15
    } else if control == IDC_MISCELLANEOUS_SLIDESHOW_DIRECTION {
        16
    } else if control == IDC_MISCELLANEOUS_SLIDESHOW_INTERVAL_EDIT {
        17
    } else if control == IDC_MISCELLANEOUS_AFTER_DELETION {
        18
    } else if control == IDC_MISCELLANEOUS_ASK_DELETE {
        19
    } else if control == IDC_MISCELLANEOUS_DETECT_FORMAT_BY_CONTENT {
        20
    } else if control == IDC_MISCELLANEOUS_REMEMBER_RECENTS {
        21
    } else if control == IDC_MISCELLANEOUS_SKIP_HIDDEN {
        22
    } else if control == IDC_SHORTCUTS_RESET {
        23
    } else if control == IDC_SHORTCUTS_CLEAR_ALL {
        24
    } else if control == IDC_ASSOCIATION_SELECT_ALL {
        25
    } else if control == IDC_ASSOCIATION_SELECT_NONE {
        26
    } else if control == IDC_START_MENU_SHORTCUT {
        27
    } else {
        -1
    }
}

proof fn lemma_command_found(row: int, from: int)
    requires
        0 <= from <= row < COMMAND_TABLE@.len(),
    ensures
        command_from(COMMAND_TABLE@[row].0, COMMAND_TABLE@[row].1, from) == Some(
            COMMAND_TABLE@[row].2,
        ),
    decreases row - from,
{
    if from < row {
        lemma_control_row(from);
        lemma_control_row(row);
        lemma_command_found(row, from + 1);
    }
}

proof fn lemma_control_row(row: int)
    requires
        0 <= row < COMMAND_TABLE@.len(),
    ensures
        row_of_control(COMMAND_TABLE@[row].0) == row,
{
    if row == 0 {
        assert(COMMAND_TABLE@[row].0 == IDC_WINDOW_BACKGROUND_COLOR_ENABLED);
    } else if row == 1 {
        assert(COMMAND_TABLE@[row].0 == IDC_WINDOW_TITLE_BAR_TEXT);
    } else if row == 2 {
        assert(COMMAND_TABLE@[row].0 == IDC_IMAGE_FIT_MODE);
    } else if row == 3 {
        assert(COMMAND_TABLE@[row].0 == IDC_WINDOW_REMEMBER_WINDOW_PLACEMENT);
    } else if row == 4 {
        assert(COMMAND_TABLE@[row].0 == IDC_WINDOW_CONTROL_DRAG);
    } else if row == 5 {
        assert(COMMAND_TABLE@[row].0 == IDC_WINDOW_HIDE_CURSOR_FULLSCREEN);
    } else if row == 6 {
        assert(COMMAND_TABLE@[row].0 == IDC_IMAGE_SCALING);
    } else if row == 7 {
        assert(COMMAND_TABLE@[row].0 == IDC_IMAGE_DITHER);
    } else if row == 8 {
        assert(COMMAND_TABLE@[row].0 == IDC_IMAGE_ZOOM_STEP_EDIT);
    } else if row == 9 {
        assert(COMMAND_TABLE@[row].0 == IDC_IMAGE_CURSOR_ZOOM);
    } else if row == 10 {
        assert(COMMAND_TABLE@[row].0 == IDC_IMAGE_FRACTIONAL_WHEEL_ZOOM);
    } else if row == 11 {
        assert(COMMAND_TABLE@[row].0 == IDC_MISCELLANEOUS_SORT);
    } else if row == 12 {
        assert(COMMAND_TABLE@[row].0 == IDC_MISCELLANEOUS_ASCENDING);
    } else if row == 13 {
        assert(COMMAND_TABLE@[row].0 == IDC_MISCELLANEOUS_DESCENDING);
    } else if row == 14 {
        assert(COMMAND_TABLE@[row].0 == IDC_IMAGE_PRELOADING);
    } else if row == 15 {
        assert(COMMAND_TABLE@[row].0 == IDC_MISCELLANEOUS_LOOP_WITHIN_FOLDER);
    } else if row == 16 {
        assert(COMMAND_TABLE@[row].0 == IDC_MISCELLANEOUS_SLIDESHOW_DIRECTION);
    } else if row == 17 {
        assert(COMMAND_TABLE@[row].0 == IDC_MISCELLANEOUS_SLIDESHOW_INTERVAL_EDIT);
    } else if row == 18 {
        assert(COMMAND_TABLE@[row].0 == IDC_MISCELLANEOUS_AFTER_DELETION);
    } else if row == 19 {
        assert(COMMAND_TABLE@[row].0 == IDC_MISCELLANEOUS_ASK_DELETE);
    } else if row == 20 {
        assert(COMMAND_TABLE@[row].0 == IDC_MISCELLANEOUS_DETECT_FORMAT_BY_CONTENT);
    } else if row == 21 {
        assert(COMMAND_TABLE@[row].0 == IDC_MISCELLANEOUS_REMEMBER_RECENTS);
    } else if row == 22 {
        assert(COMMAND_TABLE@[row].0 == IDC_MISCELLANEOUS_SKIP_HIDDEN);
    } else if row == 23 {
        assert(COMMAND_TABLE@[row].0 == IDC_SHORTCUTS_RESET);
    } else if row == 24 {
        assert(COMMAND_TABLE@[row].0 == IDC_SHORTCUTS_CLEAR_ALL);
    } else if row == 25 {
        assert(COMMAND_TABLE@[row].0 == IDC_ASSOCIATION_SELECT_ALL);
    } else if row == 26 {
        assert(COMMAND_TABLE@[row].0 == IDC_ASSOCIATION_SELECT_NONE);
    } else if row == 27 {
        assert(COMMAND_TABLE@[row].0 == IDC_START_MENU_SHORTCUT);
    }
}

/// No control is listed twice: every row is the one its control and notification find.
pub proof fn lemma_every_command_is_found(row: int)
    requires
        0 <= row < COMMAND_TABLE@.len(),
    ensures
        command_from(COMMAND_TABLE@[row].0, COMMAND_TABLE@[row].1, 0) == Some(
            COMMAND_TABLE@[row].2,
        ),
{
    lemma_command_found(row, 0);
}

/// What a command reads of its control: a field its number, a list its entry, a box its check; the
/// buttons and the two sort orders nothing.
pub open spec fn input_of(command: PageCommand) -> CommandInput {
    match command {
        PageCommand::ZoomStep | PageCommand::SlideshowInterval => CommandInput::Number,
        PageCommand::TitleBarText
        | PageCommand::FitMode
        | PageCommand::ScalingFilter
        | PageCommand::DitherMode
        | PageCommand::SortFilesBy
        | PageCommand::Preloading
        | PageCommand::SlideshowDirection
        | PageCommand::AfterDeletion => CommandInput::Selection,
        PageCommand::SortAscending
        | PageCommand::SortDescending
        | PageCommand::ResetShortcuts
        | PageCommand::ClearShortcuts
        | PageCommand::SelectAllAssociations
        | PageCommand::SelectNoAssociations => CommandInput::Nothing,
        _ => CommandInput::Check,
    }
}

pub fn command_input(command: PageCommand) -> (input: CommandInput)
    ensures
        input == input_of(command),
{
    match command {
        PageCommand::ZoomStep | PageCommand::SlideshowInterval => CommandInput::Number,
        PageCommand::TitleBarText
        | PageCommand::FitMode
        | PageCommand::ScalingFilter
        | PageCommand::DitherMode
        | PageCommand::SortFilesBy
        | PageCommand::Preloading
        | PageCommand::SlideshowDirection
        | PageCommand::AfterDeletion => CommandInput::Selection,
        PageCommand::SortAscending
        | PageCommand::SortDescending
        | PageCommand::ResetShortcuts
        | PageCommand::ClearShortcuts
        | PageCommand::SelectAllAssociations
        | PageCommand::SelectNoAssociations => CommandInput::Nothing,
        _ => CommandInput::Check,
    }
}

/// The settings pages in tab order: (template, title).
pub const PAGES: [(u16, &'static str); 7] = [
    (IDD_PAGE_WINDOW, "Window"),
    (IDD_PAGE_IMAGE, "Image"),
    (IDD_PAGE_MISCELLANEOUS, "Miscellaneous"),
    (IDD_PAGE_SHORTCUTS, "Shortcuts"),
    (IDD_PAGE_ASSOCIATION, "File association"),
    (IDD_PAGE_START_MENU, "Start menu"),
    (IDD_PAGE_ABOUT, "About"),
];

/// The place of the first page, from this one on, with this template.
pub open spec fn page_from(template: u16, index: int) -> Option<int>
    decreases PAGES@.len() - index,
{
    if index < 0 || index >= PAGES@.len() {
        None
    } else if PAGES@[index].0 == template {
        Some(index)
    } else {
        page_from(template, index + 1)
    }
}

/// A page's place among the tabs, derived from the table so a reorder moves every index with it.
pub fn page_position(template: u16) -> (position: Option<usize>)
    ensures
        match position {
            Some(index) => page_from(template, 0) == Some(index as int) && index < PAGES@.len(),
            None => page_from(template, 0) is None,
        },
{
    let mut index: usize = 0;
    while index < PAGES.len()
        invariant
            index <= PAGES@.len(),
            page_from(template, 0) == page_from(template, index as int),
        decreases PAGES@.len() - index,
    {
        if PAGES[index].0 == template {
            return Some(index);
        }
        index += 1;
    }
    None
}

/// The field that shows a number of a page, if the page has one.
pub fn number_field(index: usize) -> (control: Option<i32>)
    ensures
        control == (if page_from(IDD_PAGE_IMAGE, 0) == Some(index as int) {
            Some(IDC_IMAGE_ZOOM_STEP_EDIT)
        } else if page_from(IDD_PAGE_MISCELLANEOUS, 0) == Some(index as int) {
            Some(IDC_MISCELLANEOUS_SLIDESHOW_INTERVAL_EDIT)
        } else {
            None
        }),
{
    if page_position(IDD_PAGE_IMAGE) == Some(index) {
        Some(IDC_IMAGE_ZOOM_STEP_EDIT)
    } else if page_position(IDD_PAGE_MISCELLANEOUS) == Some(index) {
        Some(IDC_MISCELLANEOUS_SLIDESHOW_INTERVAL_EDIT)
    } else {
        None
    }
}

} // verus!
