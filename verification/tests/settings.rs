use riv::actions::Action;
use riv::associations::{
    check_state, pack_item, unpack_item, AssociationItem, CheckImage, GROUP_FLAG,
};
use riv::options::{
    default_shortcut_rows, Color, OptionLimits, Options, OptionsSnapshot, OptionsState, PageRefresh,
};
use riv::resource::{
    command_input, number_field, page_command, page_position, CommandInput, PageCommand, BN_CLICKED,
    COMMAND_TABLE, IDCANCEL, IDC_APPLY, IDC_IMAGE_CURSOR_ZOOM, IDC_IMAGE_ZOOM_STEP_EDIT,
    IDC_OPTIONS_TAB, IDC_RESTORE_DEFAULTS, IDC_SHORTCUTS_LIST, IDD_PAGE_ABOUT, IDD_PAGE_IMAGE,
    IDD_PAGE_WINDOW, IDOK, PAGES,
};
use riv::settings_dialog::{
    colorref_to_rgb, frame_procedure, hidden_pages, join_texts, page_procedure, rgb_to_colorref,
    selected_page, shortcut_columns, ControlState, FrameAction, FrameEvent, NotifyCode, PageAction,
    PageEvent,
};

fn plain_options() -> Options {
    Options {
        background_color_enabled: false,
        background_color: Color {
            red: 1,
            green: 2,
            blue: 3,
        },
        title_bar_text: 0,
        fit_mode: 0,
        remember_window_placement: true,
        control_drag_window: false,
        hide_cursor_fullscreen: true,
        scaling_filter: 1,
        dither_mode: 0,
        zoom_step_percent: 25,
        cursor_zoom: true,
        fractional_wheel_zoom: false,
        sort_files_by: 0,
        sort_descending: false,
        preloading: 1,
        loop_within_folder: true,
        slideshow_direction: 0,
        slideshow_interval_seconds: 5,
        after_deletion: 0,
        ask_delete: true,
        detect_format_by_content: false,
        remember_recents: true,
        skip_hidden: true,
    }
}

fn limits() -> OptionLimits {
    OptionLimits {
        minimum_zoom_step_percent: 1,
        maximum_zoom_step_percent: 100,
        minimum_slideshow_interval_seconds: 1,
        maximum_slideshow_interval_seconds: 3600,
    }
}

fn state() -> OptionsState {
    let snapshot = OptionsSnapshot::capture(&plain_options(), None, None);
    OptionsState::new(snapshot, vec![], false)
}

#[test]
fn an_untouched_dialog_is_not_dirty() {
    let state = state();
    assert!(!state.is_dirty());
    assert!(!state.differs_from_defaults(&plain_options()));
    assert!(state.apply_plan().is_none());
}

#[test]
fn a_command_changes_what_is_shown_and_not_what_is_saved() {
    let mut state = state();
    let refresh = state.apply_page_command(PageCommand::CursorZoom, 0, &limits());
    assert_eq!(refresh, PageRefresh::Nothing);
    assert!(!state.transient_options.cursor_zoom);
    assert!(state.saved_options.cursor_zoom);
    assert!(state.is_dirty());
    state.apply_page_command(PageCommand::ZoomStep, 500, &limits());
    assert_eq!(state.transient_options.zoom_step_percent, 100);
    state.apply_page_command(PageCommand::ZoomStep, 0, &limits());
    assert_eq!(state.transient_options.zoom_step_percent, 1);
    state.restore_defaults(&plain_options());
    assert!(!state.differs_from_defaults(&plain_options()));
}

#[test]
fn an_undecided_box_is_not_checked() {
    let mut state = state();
    state.apply_page_command(PageCommand::StartMenuShortcut, 1, &limits());
    assert!(state.start_menu_desired);
    state.apply_page_command(PageCommand::StartMenuShortcut, 2, &limits());
    assert!(!state.start_menu_desired);
    state.apply_page_command(PageCommand::SkipHidden, 2, &limits());
    assert!(!state.transient_options.skip_hidden);
}

#[test]
fn applying_settles_the_dialog() {
    let mut state = state();
    state.apply_page_command(PageCommand::StartMenuShortcut, 1, &limits());
    let plan = state.apply_plan().expect("dirty");
    assert_eq!(plan.start_menu, Some(true));
    state.finish_apply(plan.associations, plan.start_menu);
    assert!(!state.is_dirty());
    // A write that failed leaves the difference.
    let mut failed = self::state();
    failed.apply_page_command(PageCommand::StartMenuShortcut, 1, &limits());
    failed.finish_apply(None, None);
    assert!(failed.is_dirty());
}

#[test]
fn shortcuts_reset_and_clear() {
    let mut state = state();
    assert_eq!(
        state.apply_page_command(PageCommand::ClearShortcuts, 0, &limits()),
        PageRefresh::ShortcutRows
    );
    assert!(state.transient_shortcuts.iter().all(|row| row.keyboard.is_empty()));
    assert!(state.is_dirty());
    state.apply_page_command(PageCommand::ResetShortcuts, 0, &limits());
    assert!(!state.is_dirty());
    assert_eq!(default_shortcut_rows().len(), Action::all_bindable().len());
}

#[test]
fn an_edited_shortcut_is_the_row_s_own() {
    let mut state = state();
    let row = state
        .transient_shortcuts
        .iter()
        .position(|row| row.action == Action::NextFile)
        .expect("row");
    assert_eq!(state.current_shortcuts(row, false), ["Right"]);
    let taken = state.taken_shortcuts(row, false);
    assert!(taken.iter().any(|(sequence, _)| sequence == "Left"));
    assert!(!taken.iter().any(|(sequence, _)| sequence == "Right"));
    state.set_shortcuts(row, false, vec!["Ctrl+N".to_string()]);
    assert_eq!(state.current_shortcuts(row, false), ["Ctrl+N"]);
    assert_eq!(join_texts(&vec!["A".to_string(), "B".to_string()]), "A, B");
}

#[test]
fn associations_group_their_extensions() {
    let mut state = state();
    let rows = state.build_associations(&vec![("PNG", vec!["png"]), ("JPEG", vec!["jpe", "jpg"])]);
    let labels: Vec<&str> = rows.iter().map(|row| row.label.as_str()).collect();
    assert_eq!(labels, ["PNG (.png)", "JPEG", ".jpe", ".jpg"]);
    assert_eq!(state.group_image(0), CheckImage::Unchecked);
    assert_eq!(state.group_of(0), None);
    assert_eq!(state.group_of(2), Some(0));
    state.toggle_association_item(AssociationItem::Extension(1));
    assert_eq!(state.group_image(0), CheckImage::Partial);
    state.toggle_association_item(AssociationItem::Group(0));
    assert_eq!(state.group_image(0), CheckImage::Checked);
    assert_eq!(state.desired_associations(), [".jpe", ".jpg"]);
    assert!(state.is_dirty());
    state.toggle_association_item(AssociationItem::Group(0));
    assert_eq!(state.group_image(0), CheckImage::Unchecked);
    assert_eq!(
        state.apply_page_command(PageCommand::SelectAllAssociations, 0, &limits()),
        PageRefresh::AssociationImages
    );
    assert_eq!(state.desired_associations().len(), 3);
}

#[test]
fn association_items_travel_as_numbers() {
    for item in [AssociationItem::Extension(5), AssociationItem::Group(3)] {
        assert_eq!(unpack_item(pack_item(item)), item);
    }
    assert_eq!(pack_item(AssociationItem::Group(3)), GROUP_FLAG + 3);
    assert_eq!(check_state(true), CheckImage::Checked);
}

#[test]
fn a_syncing_page_applies_nothing() {
    let event = PageEvent::Command {
        control: IDC_IMAGE_CURSOR_ZOOM,
        notification: BN_CLICKED,
    };
    assert_eq!(
        page_procedure(event, Some(false)),
        PageAction::ApplyCommand {
            control: IDC_IMAGE_CURSOR_ZOOM,
            notification: BN_CLICKED
        }
    );
    assert_ne!(
        page_procedure(event, Some(true)),
        PageAction::ApplyCommand {
            control: IDC_IMAGE_CURSOR_ZOOM,
            notification: BN_CLICKED
        }
    );
}

#[test]
fn a_double_click_edits_the_column_it_hits() {
    let event = PageEvent::Notify {
        control: IDC_SHORTCUTS_LIST,
        code: NotifyCode::DoubleClick,
        item: 4,
        column: 2,
        key: 0,
    };
    assert_eq!(
        page_procedure(event, Some(false)),
        PageAction::EditShortcut { row: 4, mouse: true }
    );
}

#[test]
fn the_frame_s_buttons_do_what_they_say() {
    assert_eq!(
        frame_procedure(FrameEvent::Command { control: IDOK }),
        FrameAction::ApplyAndClose
    );
    assert_eq!(
        frame_procedure(FrameEvent::Command { control: IDCANCEL }),
        FrameAction::Close
    );
    assert_eq!(
        frame_procedure(FrameEvent::Command { control: IDC_APPLY }),
        FrameAction::Apply
    );
    assert_eq!(
        frame_procedure(FrameEvent::Command {
            control: IDC_RESTORE_DEFAULTS
        }),
        FrameAction::RestoreDefaults
    );
    assert_eq!(
        frame_procedure(FrameEvent::Notify {
            control: IDC_OPTIONS_TAB,
            selection_changed: true,
            selected: 2
        }),
        FrameAction::SelectPage { selected: 2 }
    );
    assert_eq!(frame_procedure(FrameEvent::Initialize), FrameAction::Open);
}

#[test]
fn pages_have_places() {
    assert_eq!(page_position(IDD_PAGE_WINDOW), Some(0));
    assert!(page_position(IDD_PAGE_ABOUT).is_some());
    assert_eq!(page_position(9999), None);
    assert_eq!(selected_page(0), Some(0));
    assert_eq!(selected_page(-1), None);
    assert_eq!(hidden_pages(Some(0)).len(), PAGES.len() - 1);
    assert_eq!(hidden_pages(None).len(), PAGES.len());
}

#[test]
fn every_command_of_the_table_is_found() {
    for (control, notification, command) in COMMAND_TABLE {
        assert_eq!(page_command(control, notification), Some(command));
    }
    assert_eq!(page_command(9999, BN_CLICKED), None);
    assert_eq!(command_input(PageCommand::ZoomStep), CommandInput::Number);
    assert_eq!(command_input(PageCommand::CursorZoom), CommandInput::Check);
    assert_eq!(command_input(PageCommand::SortFilesBy), CommandInput::Selection);
    assert_eq!(
        page_position(IDD_PAGE_IMAGE).and_then(number_field),
        Some(IDC_IMAGE_ZOOM_STEP_EDIT)
    );
    assert_eq!(number_field(0), None);
}

#[test]
fn the_columns_fill_the_list() {
    let (action, keyboard, mouse) = shortcut_columns(1000);
    assert_eq!((action, keyboard, mouse), (360, 320, 320));
    assert_eq!(shortcut_columns(-10), (-3, -3, -4));
}

#[test]
fn colors_travel_as_numbers() {
    let color = Color {
        red: 0x11,
        green: 0x22,
        blue: 0x33,
    };
    assert_eq!(rgb_to_colorref(color), 0x0033_2211);
    assert_eq!(colorref_to_rgb(0x0033_2211), color);
}

#[test]
fn a_synced_page_shows_the_options() {
    let state = state();
    let controls = state.sync_page(IDD_PAGE_IMAGE);
    assert!(controls.iter().any(|shown| matches!(
        shown,
        ControlState::Check { control, checked: true } if *control == IDC_IMAGE_CURSOR_ZOOM
    )));
    assert_eq!(state.shown_number(IDC_IMAGE_ZOOM_STEP_EDIT), Some(25));
    assert_eq!(state.shown_number(9999), None);
}

#[test]
fn a_chosen_color_is_kept_until_applied() {
    let mut state = state();
    state.set_background_color(Color {
        red: 9,
        green: 9,
        blue: 9,
    });
    assert_eq!(state.transient_options.background_color.red, 9);
    assert_eq!(state.saved_options.background_color.red, 1);
    assert!(state.is_dirty());
}
