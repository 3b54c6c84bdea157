//! What the settings, the shortcuts and the associations come to.

use vstd::prelude::*;

use crate::actions;
use crate::actions::{Action, ActionRequirement, ACTION_TABLE};
use crate::associations;
use crate::associations::{AssociationItem, CheckImage};
use crate::bindings;
use crate::bindings::{KeyBinding, MouseBinding};
use crate::capture;
use crate::capture::{
    KeyboardActionModel, KeyboardCaptureModel, KeyboardEvent, MouseActionModel, MouseCaptureModel,
    MouseEvent, MouseFieldEvent,
};
use crate::keys;
use crate::keys::MouseBase;
use crate::options;
use crate::options::{Color, OptionLimits, Options, OptionsModel, RowModel};
use crate::overrides;
use crate::placement;
use crate::placement::{Rect, RowBounds};
use crate::resource;
use crate::resource::{CommandInput, PageCommand};
use crate::settings_dialog;
use crate::settings_dialog::{FrameAction, FrameEvent, NotifyCode, PageAction, PageEvent};

verus! {

/// A setting takes what its own command says, and no other command touches it: a box whether it is
/// checked, a list its entry, a field its number within the limits, the two sort orders their direction.
pub proof fn lemma_each_setting_has_its_command(
    options: Options,
    command: PageCommand,
    value: u32,
    limits: OptionLimits,
)
    requires
        limits.sound(),
    ensures
        ({
            let after = options.after(command, value, limits);
            &&& after.background_color == options.background_color
            &&& command == PageCommand::BackgroundColorEnabled ==> after.background_color_enabled == (value == 1)
            &&& command != PageCommand::BackgroundColorEnabled ==> after.background_color_enabled == options.background_color_enabled
            &&& command == PageCommand::TitleBarText ==> after.title_bar_text == value
            &&& command != PageCommand::TitleBarText ==> after.title_bar_text == options.title_bar_text
            &&& command == PageCommand::FitMode ==> after.fit_mode == value
            &&& command != PageCommand::FitMode ==> after.fit_mode == options.fit_mode
            &&& command == PageCommand::RememberWindowPlacement ==> after.remember_window_placement == (value == 1)
            &&& command != PageCommand::RememberWindowPlacement ==> after.remember_window_placement == options.remember_window_placement
            &&& command == PageCommand::ControlDragWindow ==> after.control_drag_window == (value == 1)
            &&& command != PageCommand::ControlDragWindow ==> after.control_drag_window == options.control_drag_window
            &&& command == PageCommand::HideCursorFullscreen ==> after.hide_cursor_fullscreen == (value == 1)
            &&& command != PageCommand::HideCursorFullscreen ==> after.hide_cursor_fullscreen == options.hide_cursor_fullscreen
            &&& command == PageCommand::ScalingFilter ==> after.scaling_filter == value
            &&& command != PageCommand::ScalingFilter ==> after.scaling_filter == options.scaling_filter
            &&& command == PageCommand::DitherMode ==> after.dither_mode == value
            &&& command != PageCommand::DitherMode ==> after.dither_mode == options.dither_mode
            &&& command == PageCommand::CursorZoom ==> after.cursor_zoom == (value == 1)
            &&& command != PageCommand::CursorZoom ==> after.cursor_zoom == options.cursor_zoom
            &&& command == PageCommand::FractionalWheelZoom ==> after.fractional_wheel_zoom == (value == 1)
            &&& command != PageCommand::FractionalWheelZoom ==> after.fractional_wheel_zoom == options.fractional_wheel_zoom
            &&& command == PageCommand::SortFilesBy ==> after.sort_files_by == value
            &&& command != PageCommand::SortFilesBy ==> after.sort_files_by == options.sort_files_by
            &&& command == PageCommand::Preloading ==> after.preloading == value
            &&& command != PageCommand::Preloading ==> after.preloading == options.preloading
            &&& command == PageCommand::LoopWithinFolder ==> after.loop_within_folder == (value == 1)
            &&& command != PageCommand::LoopWithinFolder ==> after.loop_within_folder == options.loop_within_folder
            &&& command == PageCommand::SlideshowDirection ==> after.slideshow_direction == value
            &&& command != PageCommand::SlideshowDirection ==> after.slideshow_direction == options.slideshow_direction
            &&& command == PageCommand::AfterDeletion ==> after.after_deletion == value
            &&& command != PageCommand::AfterDeletion ==> after.after_deletion == options.after_deletion
            &&& command == PageCommand::AskDelete ==> after.ask_delete == (value == 1)
            &&& command != PageCommand::AskDelete ==> after.ask_delete == options.ask_delete
            &&& command == PageCommand::DetectFormatByContent ==> after.detect_format_by_content == (value == 1)
            &&& command != PageCommand::DetectFormatByContent ==> after.detect_format_by_content == options.detect_format_by_content
            &&& command == PageCommand::RememberRecents ==> after.remember_recents == (value == 1)
            &&& command != PageCommand::RememberRecents ==> after.remember_recents == options.remember_recents
            &&& command == PageCommand::SkipHidden ==> after.skip_hidden == (value == 1)
            &&& command != PageCommand::SkipHidden ==> after.skip_hidden == options.skip_hidden
            &&& command != PageCommand::ZoomStep ==> after.zoom_step_percent == options.zoom_step_percent
            &&& command == PageCommand::ZoomStep ==> {
                &&& limits.minimum_zoom_step_percent <= after.zoom_step_percent
                    <= limits.maximum_zoom_step_percent
                &&& limits.minimum_zoom_step_percent <= value <= limits.maximum_zoom_step_percent
                    ==> after.zoom_step_percent == value
                &&& value < limits.minimum_zoom_step_percent ==> after.zoom_step_percent
                    == limits.minimum_zoom_step_percent
                &&& value > limits.maximum_zoom_step_percent ==> after.zoom_step_percent
                    == limits.maximum_zoom_step_percent
            }
            &&& command != PageCommand::SlideshowInterval ==> after.slideshow_interval_seconds == options.slideshow_interval_seconds
            &&& command == PageCommand::SlideshowInterval ==> {
                &&& limits.minimum_slideshow_interval_seconds <= after.slideshow_interval_seconds
                    <= limits.maximum_slideshow_interval_seconds
                &&& limits.minimum_slideshow_interval_seconds <= value <= limits.maximum_slideshow_interval_seconds
                    ==> after.slideshow_interval_seconds == value
                &&& value < limits.minimum_slideshow_interval_seconds ==> after.slideshow_interval_seconds
                    == limits.minimum_slideshow_interval_seconds
                &&& value > limits.maximum_slideshow_interval_seconds ==> after.slideshow_interval_seconds
                    == limits.maximum_slideshow_interval_seconds
            }
            &&& command == PageCommand::SortAscending ==> !after.sort_descending
            &&& command == PageCommand::SortDescending ==> after.sort_descending
            &&& command != PageCommand::SortAscending && command != PageCommand::SortDescending
                ==> after.sort_descending == options.sort_descending
        }),
{
}

/// Each control gives the command of its own setting.
pub proof fn lemma_controls_give_their_commands()
    ensures
        resource::command_from(resource::IDC_WINDOW_BACKGROUND_COLOR_ENABLED, resource::BN_CLICKED, 0) == Some(
            PageCommand::BackgroundColorEnabled,
        ),
        resource::command_from(resource::IDC_WINDOW_TITLE_BAR_TEXT, resource::CBN_SELCHANGE, 0) == Some(
            PageCommand::TitleBarText,
        ),
        resource::command_from(resource::IDC_IMAGE_FIT_MODE, resource::CBN_SELCHANGE, 0) == Some(
            PageCommand::FitMode,
        ),
        resource::command_from(resource::IDC_WINDOW_REMEMBER_WINDOW_PLACEMENT, resource::BN_CLICKED, 0) == Some(
            PageCommand::RememberWindowPlacement,
        ),
        resource::command_from(resource::IDC_WINDOW_CONTROL_DRAG, resource::BN_CLICKED, 0) == Some(
            PageCommand::ControlDragWindow,
        ),
        resource::command_from(resource::IDC_WINDOW_HIDE_CURSOR_FULLSCREEN, resource::BN_CLICKED, 0) == Some(
            PageCommand::HideCursorFullscreen,
        ),
        resource::command_from(resource::IDC_IMAGE_SCALING, resource::CBN_SELCHANGE, 0) == Some(
            PageCommand::ScalingFilter,
        ),
        resource::command_from(resource::IDC_IMAGE_DITHER, resource::CBN_SELCHANGE, 0) == Some(
            PageCommand::DitherMode,
        ),
        resource::command_from(resource::IDC_IMAGE_ZOOM_STEP_EDIT, resource::EN_CHANGE, 0) == Some(
            PageCommand::ZoomStep,
        ),
        resource::command_from(resource::IDC_IMAGE_CURSOR_ZOOM, resource::BN_CLICKED, 0) == Some(
            PageCommand::CursorZoom,
        ),
        resource::command_from(resource::IDC_IMAGE_FRACTIONAL_WHEEL_ZOOM, resource::BN_CLICKED, 0) == Some(
            PageCommand::FractionalWheelZoom,
        ),
        resource::command_from(resource::IDC_MISCELLANEOUS_SORT, resource::CBN_SELCHANGE, 0) == Some(
            PageCommand::SortFilesBy,
        ),
        resource::command_from(resource::IDC_MISCELLANEOUS_ASCENDING, resource::BN_CLICKED, 0) == Some(
            PageCommand::SortAscending,
        ),
        resource::command_from(resource::IDC_MISCELLANEOUS_DESCENDING, resource::BN_CLICKED, 0) == Some(
            PageCommand::SortDescending,
        ),
        resource::command_from(resource::IDC_IMAGE_PRELOADING, resource::CBN_SELCHANGE, 0) == Some(
            PageCommand::Preloading,
        ),
        resource::command_from(resource::IDC_MISCELLANEOUS_LOOP_WITHIN_FOLDER, resource::BN_CLICKED, 0) == Some(
            PageCommand::LoopWithinFolder,
        ),
        resource::command_from(resource::IDC_MISCELLANEOUS_SLIDESHOW_DIRECTION, resource::CBN_SELCHANGE, 0) == Some(
            PageCommand::SlideshowDirection,
        ),
        resource::command_from(resource::IDC_MISCELLANEOUS_SLIDESHOW_INTERVAL_EDIT, resource::EN_CHANGE, 0) == Some(
            PageCommand::SlideshowInterval,
        ),
        resource::command_from(resource::IDC_MISCELLANEOUS_AFTER_DELETION, resource::CBN_SELCHANGE, 0) == Some(
            PageCommand::AfterDeletion,
        ),
        resource::command_from(resource::IDC_MISCELLANEOUS_ASK_DELETE, resource::BN_CLICKED, 0) == Some(
            PageCommand::AskDelete,
        ),
        resource::command_from(resource::IDC_MISCELLANEOUS_DETECT_FORMAT_BY_CONTENT, resource::BN_CLICKED, 0) == Some(
            PageCommand::DetectFormatByContent,
        ),
        resource::command_from(resource::IDC_MISCELLANEOUS_REMEMBER_RECENTS, resource::BN_CLICKED, 0) == Some(
            PageCommand::RememberRecents,
        ),
        resource::command_from(resource::IDC_MISCELLANEOUS_SKIP_HIDDEN, resource::BN_CLICKED, 0) == Some(
            PageCommand::SkipHidden,
        ),
        resource::command_from(resource::IDC_SHORTCUTS_RESET, resource::BN_CLICKED, 0) == Some(
            PageCommand::ResetShortcuts,
        ),
        resource::command_from(resource::IDC_SHORTCUTS_CLEAR_ALL, resource::BN_CLICKED, 0) == Some(
            PageCommand::ClearShortcuts,
        ),
        resource::command_from(resource::IDC_ASSOCIATION_SELECT_ALL, resource::BN_CLICKED, 0) == Some(
            PageCommand::SelectAllAssociations,
        ),
        resource::command_from(resource::IDC_ASSOCIATION_SELECT_NONE, resource::BN_CLICKED, 0) == Some(
            PageCommand::SelectNoAssociations,
        ),
        resource::command_from(resource::IDC_START_MENU_SHORTCUT, resource::BN_CLICKED, 0) == Some(
            PageCommand::StartMenuShortcut,
        ),
{
    resource::lemma_every_command_is_found(0);
    resource::lemma_every_command_is_found(1);
    resource::lemma_every_command_is_found(2);
    resource::lemma_every_command_is_found(3);
    resource::lemma_every_command_is_found(4);
    resource::lemma_every_command_is_found(5);
    resource::lemma_every_command_is_found(6);
    resource::lemma_every_command_is_found(7);
    resource::lemma_every_command_is_found(8);
    resource::lemma_every_command_is_found(9);
    resource::lemma_every_command_is_found(10);
    resource::lemma_every_command_is_found(11);
    resource::lemma_every_command_is_found(12);
    resource::lemma_every_command_is_found(13);
    resource::lemma_every_command_is_found(14);
    resource::lemma_every_command_is_found(15);
    resource::lemma_every_command_is_found(16);
    resource::lemma_every_command_is_found(17);
    resource::lemma_every_command_is_found(18);
    resource::lemma_every_command_is_found(19);
    resource::lemma_every_command_is_found(20);
    resource::lemma_every_command_is_found(21);
    resource::lemma_every_command_is_found(22);
    resource::lemma_every_command_is_found(23);
    resource::lemma_every_command_is_found(24);
    resource::lemma_every_command_is_found(25);
    resource::lemma_every_command_is_found(26);
    resource::lemma_every_command_is_found(27);
}

/// Every action goes by its name and needs what it works on: the files of a folder somewhere to go, the
/// frames an animation, the picture an image, and what changes a file that file.
pub proof fn lemma_actions_are_named_for_what_they_do(action: Action)
    ensures
        match action {
            Action::Open => actions::name_of(action) == "open"@ && actions::label_of(action)
                == "Open..."@ && ACTION_TABLE@[actions::row_of(action)].3 == ActionRequirement::Window,
            Action::OpenUrl => actions::name_of(action) == "openurl"@ && actions::label_of(action)
                == "Open URL..."@ && ACTION_TABLE@[actions::row_of(action)].3 == ActionRequirement::Window,
            Action::PasteUrl => actions::name_of(action) == "pasteurl"@ && actions::label_of(action)
                == "Paste URL"@ && ACTION_TABLE@[actions::row_of(action)].3 == ActionRequirement::Window,
            Action::ClearRecents => actions::name_of(action) == "clearrecents"@ && actions::label_of(action)
                == "Clear recents"@ && ACTION_TABLE@[actions::row_of(action)].3 == ActionRequirement::RecentFiles,
            Action::OtherApplication => actions::name_of(action) == "otherapplication"@ && actions::label_of(action)
                == "Other application..."@ && ACTION_TABLE@[actions::row_of(action)].3 == ActionRequirement::FileOnDisk,
            Action::Playlist => actions::name_of(action) == "playlist"@ && actions::label_of(action)
                == "Playlist"@ && ACTION_TABLE@[actions::row_of(action)].3 == ActionRequirement::NavigationTargets,
            Action::Loop => actions::name_of(action) == "loop"@ && actions::label_of(action)
                == "Loop"@ && ACTION_TABLE@[actions::row_of(action)].3 == ActionRequirement::NavigationTargets,
            Action::FirstFile => actions::name_of(action) == "firstfile"@ && actions::label_of(action)
                == "First file"@ && ACTION_TABLE@[actions::row_of(action)].3 == ActionRequirement::NavigationTargets,
            Action::PreviousFile => actions::name_of(action) == "previousfile"@ && actions::label_of(action)
                == "Previous"@ && ACTION_TABLE@[actions::row_of(action)].3 == ActionRequirement::NavigationTargets,
            Action::NextFile => actions::name_of(action) == "nextfile"@ && actions::label_of(action)
                == "Next"@ && ACTION_TABLE@[actions::row_of(action)].3 == ActionRequirement::NavigationTargets,
            Action::LastFile => actions::name_of(action) == "lastfile"@ && actions::label_of(action)
                == "Last file"@ && ACTION_TABLE@[actions::row_of(action)].3 == ActionRequirement::NavigationTargets,
            Action::Pause => actions::name_of(action) == "pause"@ && actions::label_of(action)
                == "Pause"@ && ACTION_TABLE@[actions::row_of(action)].3 == ActionRequirement::Animation,
            Action::PreviousFrame => actions::name_of(action) == "previousframe"@ && actions::label_of(action)
                == "Previous frame"@ && ACTION_TABLE@[actions::row_of(action)].3 == ActionRequirement::Animation,
            Action::NextFrame => actions::name_of(action) == "nextframe"@ && actions::label_of(action)
                == "Next frame"@ && ACTION_TABLE@[actions::row_of(action)].3 == ActionRequirement::Animation,
            Action::DecreaseSpeed => actions::name_of(action) == "decreasespeed"@ && actions::label_of(action)
                == "Decrease speed"@ && ACTION_TABLE@[actions::row_of(action)].3 == ActionRequirement::Animation,
            Action::IncreaseSpeed => actions::name_of(action) == "increasespeed"@ && actions::label_of(action)
                == "Increase speed"@ && ACTION_TABLE@[actions::row_of(action)].3 == ActionRequirement::Animation,
            Action::ResetSpeed => actions::name_of(action) == "resetspeed"@ && actions::label_of(action)
                == "Reset speed"@ && ACTION_TABLE@[actions::row_of(action)].3 == ActionRequirement::Animation,
            Action::ShowFileInfo => actions::name_of(action) == "showfileinfo"@ && actions::label_of(action)
                == "Show file info"@ && ACTION_TABLE@[actions::row_of(action)].3 == ActionRequirement::Image,
            Action::Reload => actions::name_of(action) == "reload"@ && actions::label_of(action)
                == "Reload"@ && ACTION_TABLE@[actions::row_of(action)].3 == ActionRequirement::Image,
            Action::ToggleFitMode => actions::name_of(action) == "togglefitmode"@ && actions::label_of(action)
                == "Toggle fit mode"@ && ACTION_TABLE@[actions::row_of(action)].3 == ActionRequirement::Image,
            Action::PreserveZoom => actions::name_of(action) == "preservezoom"@ && actions::label_of(action)
                == "Preserve zoom"@ && ACTION_TABLE@[actions::row_of(action)].3 == ActionRequirement::Image,
            Action::ZoomIn => actions::name_of(action) == "zoomin"@ && actions::label_of(action)
                == "Zoom in"@ && ACTION_TABLE@[actions::row_of(action)].3 == ActionRequirement::Image,
            Action::ZoomOut => actions::name_of(action) == "zoomout"@ && actions::label_of(action)
                == "Zoom out"@ && ACTION_TABLE@[actions::row_of(action)].3 == ActionRequirement::Image,
            Action::ToggleZoom => actions::name_of(action) == "togglezoom"@ && actions::label_of(action)
                == "Toggle zoom"@ && ACTION_TABLE@[actions::row_of(action)].3 == ActionRequirement::Image,
            Action::PanUp => actions::name_of(action) == "panup"@ && actions::label_of(action)
                == "Pan up"@ && ACTION_TABLE@[actions::row_of(action)].3 == ActionRequirement::Image,
            Action::PanDown => actions::name_of(action) == "pandown"@ && actions::label_of(action)
                == "Pan down"@ && ACTION_TABLE@[actions::row_of(action)].3 == ActionRequirement::Image,
            Action::PanLeft => actions::name_of(action) == "panleft"@ && actions::label_of(action)
                == "Pan left"@ && ACTION_TABLE@[actions::row_of(action)].3 == ActionRequirement::Image,
            Action::PanRight => actions::name_of(action) == "panright"@ && actions::label_of(action)
                == "Pan right"@ && ACTION_TABLE@[actions::row_of(action)].3 == ActionRequirement::Image,
            Action::RotateLeft => actions::name_of(action) == "rotateleft"@ && actions::label_of(action)
                == "Rotate left"@ && ACTION_TABLE@[actions::row_of(action)].3 == ActionRequirement::Image,
            Action::RotateRight => actions::name_of(action) == "rotateright"@ && actions::label_of(action)
                == "Rotate right"@ && ACTION_TABLE@[actions::row_of(action)].3 == ActionRequirement::Image,
            Action::Mirror => actions::name_of(action) == "mirror"@ && actions::label_of(action)
                == "Mirror"@ && ACTION_TABLE@[actions::row_of(action)].3 == ActionRequirement::Image,
            Action::Flip => actions::name_of(action) == "flip"@ && actions::label_of(action)
                == "Flip"@ && ACTION_TABLE@[actions::row_of(action)].3 == ActionRequirement::Image,
            Action::ShowInExplorer => actions::name_of(action) == "showinexplorer"@ && actions::label_of(action)
                == "Show in Explorer"@ && ACTION_TABLE@[actions::row_of(action)].3 == ActionRequirement::ContainingFile,
            Action::Rename => actions::name_of(action) == "rename"@ && actions::label_of(action)
                == "Rename..."@ && ACTION_TABLE@[actions::row_of(action)].3 == ActionRequirement::FileOnDisk,
            Action::Delete => actions::name_of(action) == "delete"@ && actions::label_of(action)
                == "Delete"@ && ACTION_TABLE@[actions::row_of(action)].3 == ActionRequirement::FileOnDisk,
            Action::DeletePermanently => actions::name_of(action) == "deletepermanently"@ && actions::label_of(action)
                == "Delete permanently"@ && ACTION_TABLE@[actions::row_of(action)].3 == ActionRequirement::FileOnDisk,
            Action::ToggleSlideshow => actions::name_of(action) == "toggleslideshow"@ && actions::label_of(action)
                == "Toggle slideshow"@ && ACTION_TABLE@[actions::row_of(action)].3 == ActionRequirement::NavigationTargets,
            Action::Settings => actions::name_of(action) == "settings"@ && actions::label_of(action)
                == "Settings"@ && ACTION_TABLE@[actions::row_of(action)].3 == ActionRequirement::Window,
            Action::AlwaysOnTop => actions::name_of(action) == "alwaysontop"@ && actions::label_of(action)
                == "Always on top"@ && ACTION_TABLE@[actions::row_of(action)].3 == ActionRequirement::Window,
            Action::Fullscreen => actions::name_of(action) == "fullscreen"@ && actions::label_of(action)
                == "Toggle fullscreen"@ && ACTION_TABLE@[actions::row_of(action)].3 == ActionRequirement::Window,
            Action::Exit => actions::name_of(action) == "exit"@ && actions::label_of(action)
                == "Exit"@ && ACTION_TABLE@[actions::row_of(action)].3 == ActionRequirement::Window,
            Action::Recent(_) => true,
        },
{
}

/// The named keys have the codes that the system gives them.
pub proof fn lemma_named_keys_have_their_codes()
    ensures
        keys::key_name(37) == Some("Left"@),
        keys::key_name(39) == Some("Right"@),
        keys::key_name(38) == Some("Up"@),
        keys::key_name(40) == Some("Down"@),
        keys::key_name(36) == Some("Home"@),
        keys::key_name(35) == Some("End"@),
        keys::key_name(33) == Some("Page Up"@),
        keys::key_name(34) == Some("Page Down"@),
        keys::key_name(32) == Some("spacebar"@),
        keys::key_name(8) == Some("Backspace"@),
        keys::key_name(46) == Some("Delete"@),
        keys::key_name(45) == Some("Insert"@),
        keys::key_name(27) == Some("Esc"@),
        keys::key_name(13) == Some("Enter"@),
        keys::key_name(9) == Some("Tab"@),
        keys::key_name(187) == Some("="@),
        keys::key_name(189) == Some("-"@),
        keys::key_name(188) == Some(","@),
        keys::key_name(190) == Some("."@),
        keys::key_name(186) == Some(";"@),
        keys::key_name(191) == Some("/"@),
        keys::key_name(192) == Some("`"@),
        keys::key_name(219) == Some("["@),
        keys::key_name(220) == Some("\\"@),
        keys::key_name(221) == Some("]"@),
        keys::key_name(222) == Some("'"@),
{
    keys::lemma_named_key_is_spelled(0);
    keys::lemma_named_key_is_spelled(1);
    keys::lemma_named_key_is_spelled(2);
    keys::lemma_named_key_is_spelled(3);
    keys::lemma_named_key_is_spelled(4);
    keys::lemma_named_key_is_spelled(5);
    keys::lemma_named_key_is_spelled(6);
    keys::lemma_named_key_is_spelled(7);
    keys::lemma_named_key_is_spelled(8);
    keys::lemma_named_key_is_spelled(9);
    keys::lemma_named_key_is_spelled(10);
    keys::lemma_named_key_is_spelled(11);
    keys::lemma_named_key_is_spelled(12);
    keys::lemma_named_key_is_spelled(13);
    keys::lemma_named_key_is_spelled(14);
    keys::lemma_named_key_is_spelled(15);
    keys::lemma_named_key_is_spelled(16);
    keys::lemma_named_key_is_spelled(17);
    keys::lemma_named_key_is_spelled(18);
    keys::lemma_named_key_is_spelled(19);
    keys::lemma_named_key_is_spelled(20);
    keys::lemma_named_key_is_spelled(21);
    keys::lemma_named_key_is_spelled(22);
    keys::lemma_named_key_is_spelled(23);
    keys::lemma_named_key_is_spelled(24);
    keys::lemma_named_key_is_spelled(25);
}

/// A page's command changes the page it stands on and nothing else: the shortcuts, the associations, the
/// start menu entry, or a setting.
pub proof fn lemma_commands_change_their_own_page(
    model: OptionsModel,
    command: PageCommand,
    value: u32,
    limits: OptionLimits,
)
    ensures
        ({
            let after = model.after(command, value, limits);
            &&& command == PageCommand::ResetShortcuts ==> after.transient_shortcuts
                == options::default_rows()
            &&& command == PageCommand::ClearShortcuts ==> after.transient_shortcuts.len()
                == model.transient_shortcuts.len() && forall|index: int|
                0 <= index < model.transient_shortcuts.len() ==> (
                #[trigger] after.transient_shortcuts[index]).action
                    == model.transient_shortcuts[index].action
                    && after.transient_shortcuts[index].keyboard.len() == 0
                    && after.transient_shortcuts[index].mouse.len() == 0
            &&& command != PageCommand::ResetShortcuts && command != PageCommand::ClearShortcuts
                ==> after.transient_shortcuts == model.transient_shortcuts
            &&& command == PageCommand::SelectAllAssociations ==> forall|index: int|
                0 <= index < model.extensions.len() ==> (#[trigger] after.extensions[index]).1
                    && after.extensions[index].0 == model.extensions[index].0
            &&& command == PageCommand::SelectNoAssociations ==> forall|index: int|
                0 <= index < model.extensions.len() ==> !(#[trigger] after.extensions[index]).1
                    && after.extensions[index].0 == model.extensions[index].0
            &&& command != PageCommand::SelectAllAssociations && command
                != PageCommand::SelectNoAssociations ==> after.extensions == model.extensions
            &&& command == PageCommand::StartMenuShortcut ==> after.start_menu_desired == (value
                == 1)
            &&& command != PageCommand::StartMenuShortcut ==> after.start_menu_desired
                == model.start_menu_desired
        }),
{
}

/// There is something to apply exactly where a setting, a shortcut, a wanted association or the start
/// menu entry differs from what is saved.
pub proof fn lemma_apply_is_offered_for_changes(model: OptionsModel)
    ensures
        model.dirty() <==> !(model.transient_options == model.saved_options
            && model.transient_shortcuts == model.saved_shortcuts && model.desired_associations()
            == model.saved_associations && model.start_menu_desired == model.start_menu_saved),
        model.extensions.len() == 0 ==> model.desired_associations() == model.saved_associations,
{
}

/// A dialog that just opened has nothing to apply and shows what is saved.
pub proof fn lemma_opened_dialog_shows_what_is_saved(
    saved: Options,
    shortcuts: Seq<RowModel>,
    associations: Seq<Seq<char>>,
    present: bool,
)
    ensures
        !options::opened(saved, shortcuts, associations, present).dirty(),
        options::opened(saved, shortcuts, associations, present).transient_options == saved,
        options::opened(saved, shortcuts, associations, present).transient_shortcuts == shortcuts,
        options::opened(saved, shortcuts, associations, present).start_menu_desired == present,
{
}

/// The extensions that are wanted are those that are checked.
pub proof fn lemma_checked_extensions_are_wanted(
    extensions: Seq<(Seq<char>, bool)>,
    extension: Seq<char>,
)
    ensures
        options::checked_extensions(extensions).contains(extension) <==> extensions.contains(
            (extension, true),
        ),
    decreases extensions.len(),
{
    if extensions.len() > 0 {
        let rest = extensions.drop_last();
        lemma_checked_extensions_are_wanted(rest, extension);
        let before = options::checked_extensions(rest);
        let after = options::checked_extensions(extensions);
        if extensions.last().1 {
            assert(after == before.push(extensions.last().0));
            assert(after[after.len() - 1] == extensions.last().0);
            if before.contains(extension) {
                let place = choose|place: int|
                    0 <= place < before.len() && before[place] == extension;
                assert(after[place] == extension);
            }
            if after.contains(extension) && extension != extensions.last().0 {
                let place = choose|place: int|
                    0 <= place < after.len() && after[place] == extension;
                assert(before[place] == extension);
            }
        }
        if rest.contains((extension, true)) {
            let place = choose|place: int|
                0 <= place < rest.len() && rest[place] == (extension, true);
            assert(extensions[place] == (extension, true));
        }
        if extensions.contains((extension, true)) && extensions.last() != (extension, true) {
            let place = choose|place: int|
                0 <= place < extensions.len() && extensions[place] == (extension, true);
            assert(rest[place] == (extension, true));
        }
        if extensions.last() == (extension, true) {
            assert(extensions[extensions.len() - 1] == (extension, true));
        }
    }
}

/// What a command reads is what its control holds: a field's number, a list's entry, a box's check, and
/// nothing of a button.
pub proof fn lemma_commands_read_their_controls(command: PageCommand)
    ensures
        resource::input_of(command) == CommandInput::Number <==> command == PageCommand::ZoomStep
            || command == PageCommand::SlideshowInterval,
        resource::input_of(command) == CommandInput::Selection <==> command
            == PageCommand::TitleBarText || command == PageCommand::FitMode || command
            == PageCommand::ScalingFilter || command == PageCommand::DitherMode || command
            == PageCommand::SortFilesBy || command == PageCommand::Preloading || command
            == PageCommand::SlideshowDirection || command == PageCommand::AfterDeletion,
        resource::input_of(command) == CommandInput::Nothing <==> command
            == PageCommand::SortAscending || command == PageCommand::SortDescending || command
            == PageCommand::ResetShortcuts || command == PageCommand::ClearShortcuts || command
            == PageCommand::SelectAllAssociations || command == PageCommand::SelectNoAssociations,
{
}

/// The frame's buttons do what they say: OK applies and closes, Cancel closes, Apply applies, Restore
/// restores, and a click on a tab shows its page.
pub proof fn lemma_frame_buttons_do_what_they_say(control: i32, selected: i64)
    ensures
        settings_dialog::frame_response(FrameEvent::Command { control: resource::IDOK })
            == FrameAction::ApplyAndClose,
        settings_dialog::frame_response(FrameEvent::Command { control: resource::IDCANCEL })
            == FrameAction::Close,
        settings_dialog::frame_response(FrameEvent::Command { control: resource::IDC_APPLY })
            == FrameAction::Apply,
        settings_dialog::frame_response(
            FrameEvent::Command { control: resource::IDC_RESTORE_DEFAULTS },
        ) == FrameAction::RestoreDefaults,
        control != resource::IDOK && control != resource::IDCANCEL && control
            != resource::IDC_APPLY && control != resource::IDC_RESTORE_DEFAULTS
            ==> settings_dialog::frame_response(FrameEvent::Command { control })
            == FrameAction::Ignore,
        settings_dialog::frame_response(
            FrameEvent::Notify {
                control: resource::IDC_OPTIONS_TAB,
                selection_changed: true,
                selected,
            },
        ) == (FrameAction::SelectPage { selected }),
        settings_dialog::frame_response(
            FrameEvent::Notify { control, selection_changed: false, selected },
        ) == FrameAction::Ignore,
{
}

/// A double click on a row of the shortcut list edits that row: its mouse shortcut in the mouse column,
/// its keys elsewhere. A click on a link follows it, one on the tree toggles, and so does the space bar.
pub proof fn lemma_page_clicks_do_what_they_say(item: i32, column: i32, key: u16, syncing: bool)
    ensures
        item >= 0 ==> settings_dialog::page_response(
            PageEvent::Notify {
                control: resource::IDC_SHORTCUTS_LIST,
                code: NotifyCode::DoubleClick,
                item,
                column,
                key,
            },
            Some(syncing),
        ) == (PageAction::EditShortcut { row: item as usize, mouse: column == 2 }),
        settings_dialog::page_response(
            PageEvent::Notify {
                control: resource::IDC_ASSOCIATION_TREE,
                code: NotifyCode::Click,
                item,
                column,
                key,
            },
            Some(syncing),
        ) == PageAction::ToggleAtCursor,
        settings_dialog::page_response(
            PageEvent::Notify {
                control: resource::IDC_ASSOCIATION_TREE,
                code: NotifyCode::KeyDown,
                item,
                column,
                key,
            },
            Some(syncing),
        ) == (if key == ' ' as u16 {
            PageAction::ToggleSelected
        } else {
            PageAction::Handled
        }),
        settings_dialog::page_response(
            PageEvent::Notify {
                control: resource::IDC_ABOUT_LINK,
                code: NotifyCode::Return,
                item,
                column,
                key,
            },
            Some(syncing),
        ) == PageAction::OpenLink,
{
}

/// A page that is not being filled applies what its controls notify: the color button lets a color be
/// chosen, a field that loses the focus shows its number, everything else is a command.
pub proof fn lemma_page_applies_its_commands(control: i32, notification: u32)
    ensures
        ({
            let action = settings_dialog::page_response(
                PageEvent::Command { control, notification },
                Some(false),
            );
            let color = control == resource::IDC_WINDOW_BACKGROUND_COLOR_BUTTON && notification
                == resource::BN_CLICKED;
            &&& color <==> action == PageAction::ChooseColor
            &&& !color && notification == resource::EN_KILLFOCUS ==> action
                == (PageAction::ShowNumber { control })
            &&& !color && notification != resource::EN_KILLFOCUS ==> action
                == (PageAction::ApplyCommand { control, notification })
        }),
{
}

/// The action column takes 36 hundredths of the list and the keyboard column 32, rounded down.
pub proof fn lemma_columns_take_their_shares(usable: int)
    requires
        0 <= usable,
    ensures
        ({
            let (action, keyboard, mouse) = settings_dialog::column_widths(usable);
            &&& action * 100 <= usable * 36 < (action + 1) * 100
            &&& keyboard * 100 <= usable * 32 < (keyboard + 1) * 100
            &&& mouse == usable - action - keyboard
        }),
{
}

/// A color's number has its red in the lowest byte, its green in the next and its blue in the third.
pub proof fn lemma_color_number_holds_its_channels(color: Color)
    ensures
        settings_dialog::color_number(color) % 256 == color.red,
        settings_dialog::color_number(color) / 256 % 256 == color.green,
        settings_dialog::color_number(color) / 65536 == color.blue,
        settings_dialog::color_of(settings_dialog::color_number(color)) == color,
{
    settings_dialog::lemma_color_round_trip(color);
}

/// Shortcuts are shown one behind the other, a comma and a space between two.
pub proof fn lemma_shortcuts_are_joined(texts: Seq<Seq<char>>, text: Seq<char>)
    ensures
        settings_dialog::joined(Seq::empty()).len() == 0,
        settings_dialog::joined(seq![text]) == text,
        texts.len() > 0 ==> settings_dialog::joined(texts.push(text)) == settings_dialog::joined(
            texts,
        ) + seq![',', ' '] + text,
{
    reveal_strlit(", ");
    assert(texts.push(text).drop_last() =~= texts);
    assert(", "@ =~= seq![',', ' ']);
}

/// The pages that go down are all but the one that is up.
pub proof fn lemma_all_other_pages_go_down(visible: Option<usize>, count: int, page: usize)
    requires
        0 <= count <= usize::MAX,
    ensures
        settings_dialog::hidden_upto(visible, count).contains(page) <==> page < count && visible
            != Some(page),
    decreases count,
{
    if count > 0 {
        lemma_all_other_pages_go_down(visible, count - 1, page);
        let before = settings_dialog::hidden_upto(visible, count - 1);
        let after = settings_dialog::hidden_upto(visible, count);
        if visible != Some((count - 1) as usize) {
            assert(after == before.push((count - 1) as usize));
            assert(after[after.len() - 1] == (count - 1) as usize);
            if before.contains(page) {
                let place = choose|place: int| 0 <= place < before.len() && before[place] == page;
                assert(after[place] == page);
            }
            if after.contains(page) && page != count - 1 {
                let place = choose|place: int| 0 <= place < after.len() && after[place] == page;
                assert(before[place] == page);
            }
        }
    }
}

/// A shortcut is taken where another row of the same column holds it.
pub proof fn lemma_shortcuts_of_other_rows_are_taken(
    rows: Seq<RowModel>,
    except: int,
    mouse: bool,
    count: int,
    row: int,
    place: int,
)
    requires
        0 <= row < count <= rows.len(),
        row != except,
        mouse ==> 0 <= place < rows[row].mouse.len(),
        !mouse ==> 0 <= place < rows[row].keyboard.len(),
    ensures
        ({
            let text = if mouse {
                rows[row].mouse[place]
            } else {
                rows[row].keyboard[place]
            };
            settings_dialog::taken_upto(rows, except, mouse, count).contains(
                (text, actions::label_of(rows[row].action)),
            )
        }),
    decreases count,
{
    let text = if mouse {
        rows[row].mouse[place]
    } else {
        rows[row].keyboard[place]
    };
    let owned = (text, actions::label_of(rows[row].action));
    let before = settings_dialog::taken_upto(rows, except, mouse, count - 1);
    let after = settings_dialog::taken_upto(rows, except, mouse, count);
    if row < count - 1 {
        lemma_shortcuts_of_other_rows_are_taken(rows, except, mouse, count - 1, row, place);
        let found = choose|found: int| 0 <= found < before.len() && before[found] == owned;
        assert(after[found] == owned);
    } else {
        assert(after[before.len() + place] == owned);
    }
}

/// The row that is being edited takes nothing from itself.
pub proof fn lemma_own_shortcuts_are_not_taken(
    rows: Seq<RowModel>,
    except: int,
    mouse: bool,
    count: int,
    text: Seq<char>,
    label: Seq<char>,
)
    requires
        0 <= count <= rows.len(),
        settings_dialog::taken_upto(rows, except, mouse, count).contains((text, label)),
    ensures
        exists|row: int|
            0 <= row < count && row != except && actions::label_of((#[trigger] rows[row]).action)
                == label && (if mouse {
                rows[row].mouse.contains(text)
            } else {
                rows[row].keyboard.contains(text)
            }),
    decreases count,
{
    if count > 0 {
        let before = settings_dialog::taken_upto(rows, except, mouse, count - 1);
        let after = settings_dialog::taken_upto(rows, except, mouse, count);
        let found = choose|found: int| 0 <= found < after.len() && after[found] == (text, label);
        if found < before.len() {
            assert(before[found] == (text, label));
            lemma_own_shortcuts_are_not_taken(rows, except, mouse, count - 1, text, label);
        } else {
            let column = settings_dialog::column_of(rows[count - 1], mouse);
            assert(column[found - before.len()] == text);
        }
    }
}

/// A new key goes behind the others; the oldest leaves where there were three, and none does where there
/// were fewer. A key that is there already changes nothing.
pub proof fn lemma_captured_key_goes_last(
    held: KeyboardCaptureModel,
    modifiers: u8,
    virtual_key: u16,
    text: Seq<char>,
)
    requires
        keys::key_text(modifiers, virtual_key) == Some(text),
    ensures
        ({
            let after = held.with_captured(modifiers, virtual_key);
            &&& held.sequences.contains(text) ==> after == held.sequences
            &&& !held.sequences.contains(text) && held.sequences.len() < 3 ==> after
                == held.sequences.push(text)
            &&& !held.sequences.contains(text) && held.sequences.len() == 3 ==> after == seq![
                held.sequences[1],
                held.sequences[2],
                text,
            ]
        }),
{
    if held.sequences.len() == 3 {
        assert(held.sequences.skip(1).push(text) =~= seq![
            held.sequences[1],
            held.sequences[2],
            text,
        ]);
    }
}

/// The keyboard dialog takes a row away, empties its list, closes without keeping it, or keeps it: where
/// no sequence belongs to another action.
pub proof fn lemma_keyboard_dialog_does_what_it_is_told(held: KeyboardCaptureModel, index: usize)
    ensures
        ({
            let (after, action) = held.response(KeyboardEvent::Remove { index });
            &&& index < held.sequences.len() ==> after.sequences == held.sequences.subrange(
                0,
                index as int,
            ) + held.sequences.subrange(index + 1, held.sequences.len() as int)
            &&& index >= held.sequences.len() ==> after == held
        }),
        held.response(
            KeyboardEvent::Command { control: resource::IDC_CAPTURE_KEYBOARD_CLEAR },
        ).0.sequences.len() == 0,
        held.response(KeyboardEvent::Command { control: resource::IDCANCEL }) == (
            held,
            KeyboardActionModel::Cancel,
        ),
        ({
            let (after, action) = held.response(KeyboardEvent::Command { control: resource::IDOK });
            &&& after.sequences == held.sequences
            &&& action is Accept ==> after.accepted
            &&& !(action is Accept) ==> after == held
        }),
{
    if index < held.sequences.len() {
        assert(held.sequences.remove(index as int) =~= held.sequences.subrange(0, index as int)
            + held.sequences.subrange(index + 1, held.sequences.len() as int));
    }
}

/// The mouse dialog shows what was captured last, empties, closes without keeping it, or keeps it where
/// it does not belong to another action.
pub proof fn lemma_mouse_dialog_does_what_it_is_told(
    held: MouseCaptureModel,
    modifiers: u8,
    base: MouseBase,
)
    ensures
        held.response(
            MouseEvent::Captured { number: capture::mouse_number(modifiers, base) as u64 },
        ).0.binding == Some(keys::mouse_text(modifiers, base)),
        held.response(
            MouseEvent::Command { control: resource::IDC_CAPTURE_MOUSE_CLEAR },
        ).0.binding is None,
        held.response(MouseEvent::Command { control: resource::IDCANCEL }) == (
            held,
            MouseActionModel::Cancel,
        ),
        ({
            let (after, action) = held.response(MouseEvent::Command { control: resource::IDOK });
            &&& action is Accept <==> (held.binding is None || capture::owner_from(
                held.taken,
                held.binding->0,
                0,
            ) is None)
            &&& action is Accept ==> after.accepted && after.binding == held.binding
            &&& !(action is Accept) ==> after == held
        }),
{
    capture::lemma_captures_travel_whole(modifiers, 0, base);
}

/// The owner of a shortcut is the first action that holds it, and there is none where no action does.
pub proof fn lemma_first_owner_is_named(
    taken: Seq<(Seq<char>, Seq<char>)>,
    text: Seq<char>,
    from: int,
    index: int,
)
    requires
        0 <= from <= index <= taken.len(),
        forall|earlier: int| from <= earlier < index ==> (#[trigger] taken[earlier]).0 != text,
        index < taken.len() ==> taken[index].0 == text,
    ensures
        index < taken.len() ==> capture::owner_from(taken, text, from) == Some(taken[index].1),
        index == taken.len() ==> capture::owner_from(taken, text, from) is None,
    decreases index - from,
{
    if from < index {
        assert(taken[from].0 != text);
        lemma_first_owner_is_named(taken, text, from + 1, index);
    }
}

/// A wheel turned away scrolls up and one turned back scrolls down; the second extra button leads
/// forward and the first one back.
pub proof fn lemma_mouse_inputs_are_told_apart(delta: i16)
    ensures
        delta > 0 ==> capture::captured_base(MouseFieldEvent::Wheel { delta }) == Some(
            MouseBase::WheelUp,
        ),
        delta < 0 ==> capture::captured_base(MouseFieldEvent::Wheel { delta }) == Some(
            MouseBase::WheelDown,
        ),
        capture::captured_base(MouseFieldEvent::XButton { flags: 2 }) == Some(MouseBase::Forward),
        capture::captured_base(MouseFieldEvent::XButton { flags: 1 }) == Some(MouseBase::Back),
        capture::captured_base(MouseFieldEvent::DoubleClick) == Some(MouseBase::DoubleClick),
        capture::captured_base(MouseFieldEvent::WheelButton) == Some(MouseBase::WheelButton),
        capture::captured_base(MouseFieldEvent::ButtonDown) is None,
{
    assert(2u16 & 2 != 0 && 1u16 & 2 == 0) by (bit_vector);
}

/// The square that removes a row is as wide as the row is high and stands at its right end.
pub proof fn lemma_remove_icon_is_a_square(item: Rect)
    requires
        item.measurable(),
        i32::MIN <= item.right - item.down() <= i32::MAX,
    ensures
        capture::icon_of(item).right == item.right,
        capture::icon_of(item).top == item.top,
        capture::icon_of(item).bottom == item.bottom,
        capture::icon_of(item).right - capture::icon_of(item).left == item.bottom - item.top,
{
}

/// A key does what the first binding of that key under those modifiers says, and nothing where there is
/// none.
pub proof fn lemma_first_key_binding_acts(
    list: Seq<KeyBinding>,
    modifiers: u8,
    virtual_key: u16,
    from: int,
    index: int,
)
    requires
        0 <= from <= index <= list.len(),
        forall|earlier: int|
            from <= earlier < index ==> !((#[trigger] list[earlier]).modifiers == modifiers
                && list[earlier].virtual_key == virtual_key),
        index < list.len() ==> list[index].modifiers == modifiers && list[index].virtual_key
            == virtual_key,
    ensures
        index < list.len() ==> bindings::key_action_from(list, modifiers, virtual_key, from)
            == Some(list[index].action),
        index == list.len() ==> bindings::key_action_from(list, modifiers, virtual_key, from)
            is None,
    decreases index - from,
{
    if from < index {
        assert(!(list[from].modifiers == modifiers && list[from].virtual_key == virtual_key));
        lemma_first_key_binding_acts(list, modifiers, virtual_key, from + 1, index);
    }
}

/// A mouse input does what the first binding of that input under those modifiers says, and nothing
/// where there is none.
pub proof fn lemma_first_mouse_binding_acts(
    list: Seq<MouseBinding>,
    modifiers: u8,
    base: MouseBase,
    from: int,
    index: int,
)
    requires
        0 <= from <= index <= list.len(),
        forall|earlier: int|
            from <= earlier < index ==> !((#[trigger] list[earlier]).modifiers == modifiers
                && list[earlier].base == base),
        index < list.len() ==> list[index].modifiers == modifiers && list[index].base == base,
    ensures
        index < list.len() ==> bindings::mouse_action_from(list, modifiers, base, from) == Some(
            list[index].action,
        ),
        index == list.len() ==> bindings::mouse_action_from(list, modifiers, base, from) is None,
    decreases index - from,
{
    if from < index {
        assert(!(list[from].modifiers == modifiers && list[from].base == base));
        lemma_first_mouse_binding_acts(list, modifiers, base, from + 1, index);
    }
}

/// An action is bound to what its override lists, the first of it where that is too much, and to its
/// defaults where nothing overrides it; an empty override binds it to nothing.
pub proof fn lemma_overrides_decide(
    lists: Seq<(Seq<char>, Seq<Seq<char>>)>,
    name: Seq<char>,
    defaults: Seq<Seq<char>>,
    maximum: int,
)
    requires
        0 <= maximum,
    ensures
        ({
            let chosen = bindings::resolved(Some(lists), name, defaults, maximum);
            let source = match bindings::listed(lists, name) {
                Some(texts) => texts,
                None => defaults,
            };
            &&& chosen.len() <= maximum && chosen.len() <= source.len()
            &&& chosen.len() == maximum || chosen.len() == source.len()
            &&& forall|index: int|
                0 <= index < chosen.len() ==> #[trigger] chosen[index] == source[index]
        }),
        bindings::listed(lists, name) == Some(Seq::<Seq<char>>::empty()) ==> bindings::resolved(
            Some(lists),
            name,
            defaults,
            maximum,
        ).len() == 0,
{
}

/// What a list holds under a name is what its first entry of that name holds.
pub proof fn lemma_first_entry_of_a_name_counts(
    lists: Seq<(Seq<char>, Seq<Seq<char>>)>,
    name: Seq<char>,
    from: int,
    index: int,
)
    requires
        0 <= from <= index <= lists.len(),
        forall|earlier: int| from <= earlier < index ==> (#[trigger] lists[earlier]).0 != name,
        index < lists.len() ==> lists[index].0 == name,
    ensures
        index < lists.len() ==> bindings::listed_from(lists, name, from) == Some(lists[index].1),
        index == lists.len() ==> bindings::listed_from(lists, name, from) is None,
    decreases index - from,
{
    if from < index {
        assert(lists[from].0 != name);
        lemma_first_entry_of_a_name_counts(lists, name, from + 1, index);
    }
}

/// The modifiers go by their names, each a bit of its own.
pub proof fn lemma_modifiers_go_by_their_names()
    ensures
        keys::modifier_named("Ctrl"@) == Some(1u8),
        keys::modifier_named("Shift"@) == Some(2u8),
        keys::modifier_named("Alt"@) == Some(4u8),
        keys::modifier_named("Meta"@) == Some(8u8),
{
    reveal_strlit("Ctrl");
    reveal_strlit("Shift");
    reveal_strlit("Alt");
    reveal_strlit("Meta");
    reveal_with_fuel(keys::modifier_named_from, 5);
    assert("Ctrl"@.len() == 4 && "Shift"@.len() == 5 && "Alt"@.len() == 3 && "Meta"@.len() == 4);
    assert("Ctrl"@[0] == 'C' && "Meta"@[0] == 'M');
}

/// A letter's key is the same in either case, and is the code of the capital; a digit's key is its own
/// code.
pub proof fn lemma_letters_and_digits_are_keys(place: int)
    ensures
        0 <= place < 26 ==> keys::character_key(('a' as int + place) as char) == 65 + place
            && keys::character_key(('A' as int + place) as char) == 65 + place,
        0 <= place < 10 ==> keys::character_key(('0' as int + place) as char) == 48 + place,
{
}

/// The function keys count up from the first: the key named F and a number has the code that lies so far
/// behind it, for every number up to 24.
pub proof fn lemma_function_keys_count_up(number: int)
    requires
        1 <= number <= 24,
    ensures
        ({
            let name = if number < 10 {
                seq!['F', ('0' as int + number) as char]
            } else {
                seq!['F', ('0' as int + number / 10) as char, ('0' as int + number % 10) as char]
            };
            &&& keys::virtual_key_named(name) == Some((111 + number) as u16)
            &&& keys::key_name((111 + number) as u16) == Some(name)
        }),
{
    let name = if number < 10 {
        seq!['F', ('0' as int + number) as char]
    } else {
        seq!['F', ('0' as int + number / 10) as char, ('0' as int + number % 10) as char]
    };
    reveal_with_fuel(keys::decimal_value, 3);
    let digits = name.skip(1);
    if number < 10 {
        assert(digits =~= seq![('0' as int + number) as char]);
        assert(digits.drop_last() =~= Seq::<char>::empty());
    } else {
        assert(digits =~= seq![
            ('0' as int + number / 10) as char,
            ('0' as int + number % 10) as char,
        ]);
        assert(digits.drop_last() =~= seq![('0' as int + number / 10) as char]);
        assert(digits.drop_last().drop_last() =~= Seq::<char>::empty());
    }
    assert(keys::decimal_value(digits) == number);
    assert(name =~= seq!['F'] + keys::short_decimal(number));
}

/// Toggling an extension turns it over and leaves every other one; toggling a group checks all of its
/// members unless all of them were, and leaves what is not in it.
pub proof fn lemma_toggling_touches_its_own(
    model: OptionsModel,
    item: AssociationItem,
    index: int,
)
    requires
        model.sound(),
        0 <= index < model.extensions.len() <= usize::MAX,
        match item {
            AssociationItem::Extension(place) => place < model.extensions.len(),
            AssociationItem::Group(group) => group < model.groups.len(),
        },
    ensures
        ({
            let after = associations::toggled(model, item);
            &&& after.len() == model.extensions.len()
            &&& after[index].0 == model.extensions[index].0
            &&& item == AssociationItem::Extension(index as usize) ==> after[index].1
                != model.extensions[index].1
            &&& item is Extension && item != AssociationItem::Extension(index as usize)
                ==> after[index] == model.extensions[index]
            &&& item matches AssociationItem::Group(group) ==> {
                let members = model.groups[group as int];
                &&& !members.contains(index as usize) ==> after[index] == model.extensions[index]
                &&& members.contains(index as usize) ==> after[index].1 == (exists|place: int|
                    0 <= place < members.len() && !model.extensions[(
                    #[trigger] members[place]) as int].1)
            }
        }),
{
}

/// A group shows a full check where all of its members are checked, none where none is, and a partial
/// one where some are.
pub proof fn lemma_group_check_shows_its_members(
    extensions: Seq<(Seq<char>, bool)>,
    members: Seq<usize>,
)
    requires
        members.len() > 0,
    ensures
        associations::image_of(extensions, members) == CheckImage::Checked <==> forall|place: int|
            0 <= place < members.len() ==> extensions[(#[trigger] members[place]) as int].1,
        associations::image_of(extensions, members) == CheckImage::Unchecked <==> forall|place: int|
            0 <= place < members.len() ==> !extensions[(#[trigger] members[place]) as int].1,
{
    associations::lemma_group_image_is_exact(extensions, members);
    lemma_none_checked(extensions, members);
}

proof fn lemma_none_checked(extensions: Seq<(Seq<char>, bool)>, members: Seq<usize>)
    ensures
        associations::checked_count(extensions, members) == 0 <==> forall|place: int|
            0 <= place < members.len() ==> !extensions[(#[trigger] members[place]) as int].1,
    decreases members.len(),
{
    if members.len() > 0 {
        let rest = members.drop_last();
        lemma_none_checked(extensions, rest);
        assert(forall|place: int|
            0 <= place < rest.len() ==> #[trigger] rest[place] == members[place]);
        if associations::checked_count(extensions, members) == 0 {
            assert forall|place: int| 0 <= place < members.len() implies !extensions[(
            #[trigger] members[place]) as int].1 by {
                if place < rest.len() {
                    assert(!extensions[rest[place] as int].1);
                }
            }
        } else if !extensions[members.last() as int].1 {
            let place = choose|place: int|
                0 <= place < rest.len() && extensions[(#[trigger] rest[place]) as int].1;
            assert(extensions[members[place] as int].1);
        } else {
            assert(extensions[members[members.len() - 1] as int].1);
        }
    }
}

/// The page first shows an extension checked where it is associated, and every extension as it is.
pub proof fn lemma_associated_extensions_are_checked(
    offered: Seq<Seq<char>>,
    saved: Seq<Seq<char>>,
    index: int,
)
    requires
        0 <= index < offered.len(),
    ensures
        associations::initial_checks(offered, saved).len() == offered.len(),
        associations::initial_checks(offered, saved)[index].0 == offered[index],
        associations::initial_checks(offered, saved)[index].1 <==> saved.contains(offered[index]),
{
}

/// An extension's group is the first that has it.
pub proof fn lemma_first_group_has_the_extension(
    groups: Seq<Seq<usize>>,
    extension: usize,
    from: int,
    index: int,
)
    requires
        0 <= from <= index <= groups.len(),
        forall|earlier: int|
            from <= earlier < index ==> !(#[trigger] groups[earlier]).contains(extension),
        index < groups.len() ==> groups[index].contains(extension),
    ensures
        index < groups.len() ==> associations::group_from(groups, extension, from) == Some(index),
        index == groups.len() ==> associations::group_from(groups, extension, from) is None,
    decreases index - from,
{
    if from < index {
        assert(!groups[from].contains(extension));
        lemma_first_group_has_the_extension(groups, extension, from + 1, index);
    }
}

/// A dialog that is no larger than its owner has as much of the owner on one side as on the other, across
/// and down, give or take a dot.
pub proof fn lemma_dialog_is_centered_both_ways(owner: Rect, dialog: Rect)
    requires
        dialog.across() <= owner.across(),
        dialog.down() <= owner.down(),
    ensures
        ({
            let (left, top) = placement::centered(owner, dialog);
            let before = left - owner.left;
            let behind = owner.right - (left + (dialog.right - dialog.left));
            let above = top - owner.top;
            let below = owner.bottom - (top + (dialog.bottom - dialog.top));
            &&& 0 <= before <= behind <= before + 1
            &&& 0 <= above <= below <= above + 1
        }),
{
}

/// A dialog that is larger than its owner stands out of it as much on one side as on the other, across and
/// down, give or take a dot.
pub proof fn lemma_larger_dialog_stands_out_evenly(owner: Rect, dialog: Rect)
    requires
        dialog.across() >= owner.across(),
        dialog.down() >= owner.down(),
    ensures
        ({
            let (left, top) = placement::centered(owner, dialog);
            let before = owner.left - left;
            let behind = (left + (dialog.right - dialog.left)) - owner.right;
            let above = owner.top - top;
            let below = (top + (dialog.bottom - dialog.top)) - owner.bottom;
            &&& 0 <= before <= behind <= before + 1
            &&& 0 <= above <= below <= above + 1
        }),
{
}

/// The rows move together: the first stands as far below the top of the page as the last stands above its
/// bottom.
pub proof fn lemma_rows_move_as_one_block(page_height: int, rows: Seq<RowBounds>)
    requires
        rows.len() > 0,
        0 <= rows.last().top + rows.last().height - rows[0].top <= page_height,
    ensures
        ({
            let offset = placement::block_offset(page_height, rows);
            let above = rows[0].top + offset;
            let below = page_height - (rows.last().top + rows.last().height + offset);
            0 <= above <= below <= above + 1
        }),
{
}

/// A link that can be measured is as wide as it has to be and in the middle of the page; one that cannot
/// has the whole row.
pub proof fn lemma_link_is_centered(
    page_width: int,
    ideal_width: int,
    ideal_height: int,
    measured_height: int,
    fallback_height: int,
)
    requires
        ideal_width <= page_width,
    ensures
        ({
            let (left, width, height) = placement::link_bounds(
                page_width,
                ideal_width,
                ideal_height,
                measured_height,
                fallback_height,
            );
            &&& ideal_width > 0 ==> {
                &&& width == ideal_width
                &&& left <= page_width - (left + width) <= left + 1
                &&& height >= ideal_height && height >= measured_height
                &&& height == ideal_height || height == measured_height
            }
            &&& ideal_width <= 0 ==> left == 0 && width == page_width && height == fallback_height
        }),
{
}

/// A font of some points is so many 72nds of the dots per inch high, of 96 at least.
pub proof fn lemma_font_height_follows_the_resolution(point_size: u32, dpi: u32)
    ensures
        ({
            let high = placement::dots_high(point_size, dpi);
            let dots = if dpi < 96 {
                96
            } else {
                dpi as int
            };
            high * 72 <= point_size * dots < (high + 1) * 72
        }),
{
}

/// A buffer's text ends at its first zero, or with the buffer.
pub proof fn lemma_text_ends_at_the_first_zero(units: Seq<u16>, from: int)
    requires
        0 <= from <= units.len(),
    ensures
        ({
            let end = placement::end_from(units, from);
            &&& from <= end <= units.len()
            &&& end < units.len() ==> units[end] == 0
            &&& forall|index: int| from <= index < end ==> #[trigger] units[index] != 0
        }),
    decreases units.len() - from,
{
    if from < units.len() && units[from] != 0 {
        lemma_text_ends_at_the_first_zero(units, from + 1);
    }
}

/// A text that spells a key under some modifiers binds it to its action.
pub proof fn lemma_spelled_keys_are_bound(
    pairs: Seq<(Seq<char>, Action)>,
    index: int,
    modifiers: u8,
    virtual_key: u16,
)
    requires
        0 <= index < pairs.len(),
        keys::parsed_key(pairs[index].0) == Some((modifiers, virtual_key)),
    ensures
        bindings::key_bindings(pairs).contains(
            KeyBinding { modifiers, virtual_key, action: pairs[index].1 },
        ),
    decreases pairs.len(),
{
    let rest = pairs.drop_last();
    let after = bindings::key_bindings(pairs);
    let own = KeyBinding { modifiers, virtual_key, action: pairs[index].1 };
    if index < rest.len() {
        lemma_spelled_keys_are_bound(rest, index, modifiers, virtual_key);
        let before = bindings::key_bindings(rest);
        let place = choose|place: int| 0 <= place < before.len() && before[place] == own;
        assert(after[place] == own);
    } else {
        assert(after[after.len() - 1] == own);
    }
}

/// Every key that is bound is spelled by a text, to the action of that text.
pub proof fn lemma_bound_keys_are_spelled(pairs: Seq<(Seq<char>, Action)>, place: int)
    requires
        0 <= place < bindings::key_bindings(pairs).len(),
    ensures
        exists|index: int|
            0 <= index < pairs.len() && keys::parsed_key((#[trigger] pairs[index]).0) == Some(
                (
                    bindings::key_bindings(pairs)[place].modifiers,
                    bindings::key_bindings(pairs)[place].virtual_key,
                ),
            ) && pairs[index].1 == bindings::key_bindings(pairs)[place].action,
    decreases pairs.len(),
{
    if pairs.len() > 0 {
        let rest = pairs.drop_last();
        let before = bindings::key_bindings(rest);
        let own = bindings::key_bindings(pairs)[place];
        if place < before.len() {
            lemma_bound_keys_are_spelled(rest, place);
            let index = choose|index: int|
                0 <= index < rest.len() && keys::parsed_key((#[trigger] rest[index]).0) == Some(
                    (own.modifiers, own.virtual_key),
                ) && rest[index].1 == own.action;
            assert(pairs[index] == rest[index]);
        } else {
            assert(pairs[pairs.len() - 1] == pairs.last());
        }
    }
}

/// A text that spells a mouse input under some modifiers binds it to its action.
pub proof fn lemma_spelled_mouse_inputs_are_bound(
    pairs: Seq<(Seq<char>, Action)>,
    index: int,
    modifiers: u8,
    base: MouseBase,
)
    requires
        0 <= index < pairs.len(),
        keys::parsed_mouse(pairs[index].0) == Some((modifiers, base)),
    ensures
        bindings::mouse_bindings(pairs).contains(
            MouseBinding { modifiers, base, action: pairs[index].1 },
        ),
    decreases pairs.len(),
{
    let rest = pairs.drop_last();
    let after = bindings::mouse_bindings(pairs);
    let own = MouseBinding { modifiers, base, action: pairs[index].1 };
    if index < rest.len() {
        lemma_spelled_mouse_inputs_are_bound(rest, index, modifiers, base);
        let before = bindings::mouse_bindings(rest);
        let place = choose|place: int| 0 <= place < before.len() && before[place] == own;
        assert(after[place] == own);
    } else {
        assert(after[after.len() - 1] == own);
    }
}

/// A default is bound to its action where nothing overrides it.
pub proof fn lemma_defaults_hold_where_nothing_overrides(
    defaults: Seq<(Seq<char>, Seq<Seq<char>>)>,
    overrides: Option<Seq<(Seq<char>, Seq<Seq<char>>)>>,
    maximum: int,
    row: int,
    place: int,
    action: Action,
)
    requires
        0 <= row < defaults.len(),
        0 <= place < maximum,
        place < defaults[row].1.len(),
        overrides matches Some(lists) ==> bindings::listed(lists, defaults[row].0) is None,
        actions::action_named(defaults[row].0) == Some(action),
    ensures
        bindings::bound_texts(defaults, overrides, maximum).contains(
            (defaults[row].1[place], action),
        ),
{
    let own = (defaults[row].1[place], action);
    lemma_default_is_bound(defaults, overrides, maximum, row, place, action, defaults[row].1);
    let first = bindings::bound_defaults(defaults, overrides, maximum);
    let found = choose|found: int| 0 <= found < first.len() && first[found] == own;
    assert(bindings::bound_texts(defaults, overrides, maximum)[found] == own);
}

/// An override is bound to its action in place of the defaults.
pub proof fn lemma_override_holds_in_place_of_the_defaults(
    defaults: Seq<(Seq<char>, Seq<Seq<char>>)>,
    lists: Seq<(Seq<char>, Seq<Seq<char>>)>,
    maximum: int,
    row: int,
    place: int,
    action: Action,
    texts: Seq<Seq<char>>,
)
    requires
        0 <= row < defaults.len(),
        bindings::listed(lists, defaults[row].0) == Some(texts),
        0 <= place < maximum,
        place < texts.len(),
        actions::action_named(defaults[row].0) == Some(action),
    ensures
        bindings::bound_texts(defaults, Some(lists), maximum).contains((texts[place], action)),
{
    let own = (texts[place], action);
    lemma_default_is_bound(defaults, Some(lists), maximum, row, place, action, texts);
    let first = bindings::bound_defaults(defaults, Some(lists), maximum);
    let found = choose|found: int| 0 <= found < first.len() && first[found] == own;
    assert(bindings::bound_texts(defaults, Some(lists), maximum)[found] == own);
}

proof fn lemma_default_is_bound(
    defaults: Seq<(Seq<char>, Seq<Seq<char>>)>,
    overrides: Option<Seq<(Seq<char>, Seq<Seq<char>>)>>,
    maximum: int,
    row: int,
    place: int,
    action: Action,
    texts: Seq<Seq<char>>,
)
    requires
        0 <= row < defaults.len(),
        0 <= place < maximum,
        place < texts.len(),
        texts == (match overrides {
            Some(lists) => match bindings::listed(lists, defaults[row].0) {
                Some(found) => found,
                None => defaults[row].1,
            },
            None => defaults[row].1,
        }),
        actions::action_named(defaults[row].0) == Some(action),
    ensures
        bindings::bound_defaults(defaults, overrides, maximum).contains((texts[place], action)),
    decreases defaults.len(),
{
    let own = (texts[place], action);
    let rest = defaults.drop_last();
    let before = bindings::bound_defaults(rest, overrides, maximum);
    let after = bindings::bound_defaults(defaults, overrides, maximum);
    if row < rest.len() {
        assert(rest[row] == defaults[row]);
        lemma_default_is_bound(rest, overrides, maximum, row, place, action, texts);
        let found = choose|found: int| 0 <= found < before.len() && before[found] == own;
        assert(after[found] == own);
    } else {
        assert(defaults.last() == defaults[row]);
        assert(after[before.len() + place] == own);
    }
}

/// The inputs of a mouse go by their names.
pub proof fn lemma_mouse_inputs_go_by_their_names(base: MouseBase)
    ensures
        base.token() == (match base {
            MouseBase::DoubleClick => "Double-click"@,
            MouseBase::WheelButton => "WheelButton"@,
            MouseBase::Back => "Back"@,
            MouseBase::Forward => "Forward"@,
            MouseBase::WheelUp => "WheelUp"@,
            MouseBase::WheelDown => "WheelDown"@,
        }),
        keys::parsed_mouse(base.token()) == Some((0u8, base)),
{
    keys::lemma_control_and_shift_prefixes();
    keys::lemma_mouse_round_trip(0, base);
    assert(keys::mouse_text(0, base) =~= base.token());
}

/// Every extension of a group is offered, with a dot before it.
pub proof fn lemma_extensions_are_offered(
    groups: Seq<(Seq<char>, Seq<Seq<char>>)>,
    group: int,
    index: int,
)
    requires
        0 <= group < groups.len(),
        0 <= index < groups[group].1.len(),
    ensures
        associations::offered(groups).contains(seq!['.'] + groups[group].1[index]),
    decreases groups.len(),
{
    let own = seq!['.'] + groups[group].1[index];
    let rest = groups.drop_last();
    let before = associations::offered(rest);
    let after = associations::offered(groups);
    if group < rest.len() {
        assert(rest[group] == groups[group]);
        lemma_extensions_are_offered(rest, group, index);
        let found = choose|found: int| 0 <= found < before.len() && before[found] == own;
        assert(after[found] == own);
    } else {
        assert(groups.last() == groups[group]);
        assert(after[before.len() + index] == own);
    }
}

/// A group of one extension is shown as that extension, with its name before it; a larger one as a row of its
/// own with its extensions below it, in order.
pub proof fn lemma_groups_are_shown_as_trees(
    name: Seq<char>,
    extensions: Seq<Seq<char>>,
    start: nat,
    group: nat,
    index: int,
)
    requires
        0 <= index < extensions.len(),
        start + extensions.len() <= usize::MAX,
        group <= usize::MAX,
    ensures
        ({
            let rows = associations::rows_of_group(name, extensions, start, group);
            &&& extensions.len() == 1 ==> rows.len() == 1 && rows[0].item
                == AssociationItem::Extension(start as usize) && rows[0].parent is None
            &&& extensions.len() > 1 ==> {
                &&& rows.len() == extensions.len() + 1
                &&& rows[0].label == name
                &&& rows[0].item == AssociationItem::Group(group as usize)
                &&& rows[0].parent is None
                &&& rows[index + 1].label == seq!['.'] + extensions[index]
                &&& rows[index + 1].item == AssociationItem::Extension((start + index) as usize)
                &&& rows[index + 1].parent == Some(group as usize)
            }
        }),
{
}

/// The first sequence that another action holds is the one that is warned of.
pub proof fn lemma_first_conflict_is_named(
    sequences: Seq<Seq<char>>,
    taken: Seq<(Seq<char>, Seq<char>)>,
    from: int,
    index: int,
)
    requires
        0 <= from <= index <= sequences.len(),
        forall|earlier: int|
            from <= earlier < index ==> capture::owner_from(
                taken,
                #[trigger] sequences[earlier],
                0,
            ) is None,
        index < sequences.len() ==> capture::owner_from(taken, sequences[index], 0) is Some,
    ensures
        index == sequences.len() ==> capture::conflict_from(sequences, taken, from) is None,
        index < sequences.len() ==> (capture::conflict_from(sequences, taken, from) matches Some(
            conflict,
        ) && conflict.0 == sequences[index] && Some(conflict.1) == capture::owner_from(
            taken,
            sequences[index],
            0,
        )),
    decreases index - from,
{
    if from < index {
        assert(capture::owner_from(taken, sequences[from], 0) is None);
        lemma_first_conflict_is_named(sequences, taken, from + 1, index);
    }
}

/// What is written of the shortcuts is each row's own column under its action's name, in order.
pub proof fn lemma_columns_are_written_by_name(rows: Seq<RowModel>, index: int)
    requires
        0 <= index < rows.len(),
    ensures
        settings_dialog::named_column(rows, false).len() == rows.len(),
        settings_dialog::named_column(rows, true).len() == rows.len(),
        settings_dialog::named_column(rows, false)[index] == (
            actions::name_of(rows[index].action),
            rows[index].keyboard,
        ),
        settings_dialog::named_column(rows, true)[index] == (
            actions::name_of(rows[index].action),
            rows[index].mouse,
        ),
{
}

/// What was written becomes what is saved; where the associations or the start menu entry were probed again,
/// what was found does.
pub proof fn lemma_written_state_is_saved(
    model: OptionsModel,
    associated: Option<Seq<Seq<char>>>,
    present: Option<bool>,
)
    ensures
        ({
            let after = model.settled(associated, present);
            &&& after.saved_options == model.transient_options
            &&& after.saved_shortcuts == model.transient_shortcuts
            &&& after.transient_options == model.transient_options
            &&& after.transient_shortcuts == model.transient_shortcuts
            &&& associated is None ==> after.saved_associations == model.saved_associations
            &&& associated is Some ==> Some(after.saved_associations) == associated
            &&& present is None ==> after.start_menu_saved == model.start_menu_saved
            &&& present is Some ==> Some(after.start_menu_saved) == present
            &&& after.extensions == model.extensions
            &&& after.start_menu_desired == model.start_menu_desired
        }),
{
}

/// The rows of the shortcut list follow the action table, each with what its action is bound to.
pub proof fn lemma_rows_follow_the_action_table(
    keyboard: Option<Seq<(Seq<char>, Seq<Seq<char>>)>>,
    mouse: Option<Seq<(Seq<char>, Seq<Seq<char>>)>>,
    row: int,
)
    requires
        0 <= row < ACTION_TABLE@.len(),
    ensures
        options::resolved_rows(keyboard, mouse).len() == ACTION_TABLE@.len(),
        options::resolved_rows(keyboard, mouse)[row].action == ACTION_TABLE@[row].0,
        options::resolved_rows(keyboard, mouse)[row].keyboard == bindings::keyboard_resolved(
            keyboard,
            actions::name_of(ACTION_TABLE@[row].0),
        ),
        options::resolved_rows(keyboard, mouse)[row].mouse == bindings::mouse_resolved(
            mouse,
            actions::name_of(ACTION_TABLE@[row].0),
        ),
        options::default_rows()[row].keyboard == bindings::default_for(
            bindings::keyboard_defaults(),
            actions::name_of(ACTION_TABLE@[row].0),
        ),
        options::default_rows()[row].mouse == bindings::default_for(
            bindings::mouse_defaults(),
            actions::name_of(ACTION_TABLE@[row].0),
        ),
{
}

/// A page has something to show differently where its command changes more than the control it came from.
pub proof fn lemma_pages_refresh_what_changed(command: PageCommand)
    ensures
        options::refresh_of(command) == options::PageRefresh::BackgroundColorButton <==> command
            == PageCommand::BackgroundColorEnabled,
        options::refresh_of(command) == options::PageRefresh::ShortcutRows <==> command
            == PageCommand::ResetShortcuts || command == PageCommand::ClearShortcuts,
        options::refresh_of(command) == options::PageRefresh::AssociationImages <==> command
            == PageCommand::SelectAllAssociations || command == PageCommand::SelectNoAssociations,
{
}

/// An entered number is taken as it is within its limits, and as the nearer limit outside them; it is the
/// command's own setting that it changes.
pub proof fn lemma_numbers_are_held_to_their_limits(before: Options, value: u32, limits: OptionLimits)
    requires
        limits.minimum_zoom_step_percent <= limits.maximum_zoom_step_percent,
        limits.minimum_slideshow_interval_seconds <= limits.maximum_slideshow_interval_seconds,
    ensures
        ({
            let low = limits.minimum_zoom_step_percent;
            let high = limits.maximum_zoom_step_percent;
            let zoom = before.after(PageCommand::ZoomStep, value, limits).zoom_step_percent;
            &&& low <= zoom <= high
            &&& low <= value <= high ==> zoom == value
            &&& value <= low ==> zoom == low
            &&& value >= high ==> zoom == high
        }),
        ({
            let low = limits.minimum_slideshow_interval_seconds;
            let high = limits.maximum_slideshow_interval_seconds;
            let interval = before.after(
                PageCommand::SlideshowInterval,
                value,
                limits,
            ).slideshow_interval_seconds;
            &&& low <= interval <= high
            &&& low <= value <= high ==> interval == value
            &&& value <= low ==> interval == low
            &&& value >= high ==> interval == high
        }),
{
}

/// What is said of a taken shortcut opens with the shortcut in quotes and closes with its owner in quotes.
pub proof fn lemma_conflict_names_shortcut_and_owner(shortcut: Seq<char>, owner: Seq<char>)
    ensures
        ({
            let said = capture::conflict_text(shortcut, owner);
            let middle = "\" is already bound to \""@;
            &&& said.len() == shortcut.len() + middle.len() + owner.len() + 2
            &&& said[0] == '"' && said[said.len() - 1] == '"'
            &&& said.subrange(1, 1int + shortcut.len()) == shortcut
            &&& said.subrange(1int + shortcut.len(), 1int + shortcut.len() + middle.len()) == middle
            &&& said.subrange(said.len() - 1 - owner.len(), said.len() - 1) == owner
        }),
{
    reveal_strlit("\"");
    let said = capture::conflict_text(shortcut, owner);
    let middle = "\" is already bound to \""@;
    assert(said.subrange(1, 1int + shortcut.len()) =~= shortcut);
    assert(said.subrange(1int + shortcut.len(), 1int + shortcut.len() + middle.len()) =~= middle);
    assert(said.subrange(said.len() - 1 - owner.len(), said.len() - 1) =~= owner);
}

/// The texts of two lists put together are those of the first and then those of the second: a list keeps
/// its order, and what is no text is left out.
pub proof fn lemma_texts_keep_their_order(
    first: Seq<serde_json::Value>,
    second: Seq<serde_json::Value>,
    single: serde_json::Value,
)
    ensures
        overrides::texts_among(first + second) == overrides::texts_among(first)
            + overrides::texts_among(second),
        overrides::texts_among(seq![single]) == (match overrides::json_text(single) {
            Some(text) => seq![text],
            None => Seq::empty(),
        }),
    decreases second.len(),
{
    assert(seq![single].drop_last() =~= Seq::empty());
    assert(overrides::texts_among(Seq::empty()) =~= Seq::empty());
    if second.len() == 0 {
        assert(first + second =~= first);
    } else {
        lemma_texts_keep_their_order(first, second.drop_last(), single);
        assert((first + second).drop_last() =~= first + second.drop_last());
        assert((first + second).last() == second.last());
    }
}

} // verus!
