use riv::archive::{
    enumerate, member_verdict, missing_member, take_block, ArchiveError, BlockStep, EntryHeader,
    MemberVerdict, FILETIME_UNIX_EPOCH, FILETYPE_REGULAR,
};
use riv::build_plan::{
    comma_separated, compile_all, compiler_include, four_part_version, is_compiled_shader,
    is_stale, library_root, link_argument, manifest_text, resource_script,
};
use riv::bundled::{
    begin_avif, begin_avif_on, begin_webp, begin_webp_on, check_sequence_image, cut_to_size, exr_buffer_bytes, exr_failure,
    heif_extent, heif_hdr_encoding, heif_pixel_target, heif_result, heif_rows, heif_rows_on_buffer,
    probed_heif, sequence_delay_milliseconds, sequence_status, HeifChroma, HeifPlane, WebPFrame,
    HEIF_END_OF_SEQUENCE,
};
use riv::capture::{
    below_last_item, conflict_message, hits_remove_icon, icon_strokes, is_modifier_key,
    keyboard_field_procedure, keyboard_field_text, keyboard_list_procedure, mouse_field_procedure,
    mouse_field_text, pack_key, pack_mouse, remove_icon_bounds, unpack_key, unpack_mouse,
    FieldAction, KeyFieldEvent, KeyboardAction, KeyboardCapture, KeyboardEvent, ListAction,
    ListEvent, MouseAction, MouseCapture, MouseEvent, MouseFieldEvent,
};
use riv::image::PixelStorage;
use riv::keys::{MouseBase, MODIFIER_CONTROL};
use riv::placement::{
    center_on_owner, clamp_to_work_area, font_height, layout_centered, page_stretch, place_link,
    text_end, Rect, RowBounds,
};
use riv::resource::{IDCANCEL, IDC_CAPTURE_KEYBOARD_CLEAR, IDC_CAPTURE_MOUSE_CLEAR, IDOK};

fn rect(left: i32, top: i32, right: i32, bottom: i32) -> Rect {
    Rect {
        left,
        top,
        right,
        bottom,
    }
}

#[test]
fn a_dialog_is_centered_and_kept_in_view() {
    assert_eq!(
        center_on_owner(&rect(0, 0, 1000, 800), &rect(0, 0, 200, 100)),
        (400, 350)
    );
    assert_eq!(
        clamp_to_work_area(900, -50, 200, 100, &rect(0, 0, 1000, 800)),
        (800, 0)
    );
    assert_eq!(
        clamp_to_work_area(100, 100, 200, 100, &rect(0, 0, 1000, 800)),
        (100, 100)
    );
}

#[test]
fn a_page_stretches_by_what_is_left() {
    assert_eq!(
        page_stretch(&rect(0, 0, 300, 200), &rect(0, 0, 340, 190)),
        (40, -10)
    );
    assert_eq!(text_end(&[0x61, 0x62, 0, 0x63]), 2);
    assert_eq!(text_end(&[0x61]), 1);
    assert_eq!(font_height(9, 96), -12);
}

#[test]
fn rows_keep_their_distances_around_the_center() {
    let tops = layout_centered(
        100,
        &vec![
            RowBounds { top: 0, height: 10 },
            RowBounds {
                top: 20,
                height: 10,
            },
        ],
    );
    assert_eq!(tops, [35, 55]);
    let (left, width, height) = place_link(200, 50, 20, 18, 12);
    assert_eq!((left, width, height), (75, 50, 20));
}

#[test]
fn a_captured_key_is_appended_once() {
    let mut capture = KeyboardCapture::new(vec![], vec![("Left".to_string(), "Previous file")]);
    let number = pack_key(MODIFIER_CONTROL, u16::from(b'N'));
    assert_eq!(unpack_key(number), (MODIFIER_CONTROL, u16::from(b'N')));
    assert!(matches!(
        capture.keyboard_procedure(KeyboardEvent::Captured { number }),
        KeyboardAction::Appended { dropped_first: false }
    ));
    capture.keyboard_procedure(KeyboardEvent::Captured { number });
    assert_eq!(capture.sequences, ["Ctrl+N"]);
    capture.keyboard_procedure(KeyboardEvent::Captured {
        number: pack_key(0, 0x25),
    });
    assert!(matches!(
        capture.keyboard_procedure(KeyboardEvent::Command { control: IDOK }),
        KeyboardAction::Conflict { encoding, owner: "Previous file" } if encoding == "Left"
    ));
    for key in [b'A', b'B', b'C'] {
        capture.keyboard_procedure(KeyboardEvent::Captured {
            number: pack_key(0, u16::from(key)),
        });
    }
    assert_eq!(capture.sequences, ["A", "B", "C"]);
    assert!(matches!(
        capture.keyboard_procedure(KeyboardEvent::Remove { index: 1 }),
        KeyboardAction::Removed { index: 1 }
    ));
    assert_eq!(capture.sequences, ["A", "C"]);
    capture.keyboard_procedure(KeyboardEvent::Command { control: IDOK });
    assert_eq!(capture.finish(), Some(vec!["A".to_string(), "C".to_string()]));
}

#[test]
fn a_cancelled_capture_gives_nothing() {
    let mut capture = KeyboardCapture::new(vec!["A".to_string()], vec![]);
    assert!(matches!(
        capture.keyboard_procedure(KeyboardEvent::Command {
            control: IDC_CAPTURE_KEYBOARD_CLEAR
        }),
        KeyboardAction::Cleared
    ));
    assert!(matches!(
        capture.keyboard_procedure(KeyboardEvent::Command { control: IDCANCEL }),
        KeyboardAction::Cancel
    ));
    assert_eq!(capture.finish(), None);
}

#[test]
fn a_captured_button_replaces_the_last() {
    let mut capture = MouseCapture::new(None, vec![]);
    let number = pack_mouse(MODIFIER_CONTROL, MouseBase::WheelUp);
    assert_eq!(
        unpack_mouse(number),
        Some((MODIFIER_CONTROL, MouseBase::WheelUp))
    );
    assert!(matches!(
        capture.mouse_procedure(MouseEvent::Captured { number }),
        MouseAction::ShowBinding
    ));
    assert_eq!(capture.field_text(), "Ctrl+WheelUp");
    capture.mouse_procedure(MouseEvent::Command { control: IDOK });
    assert_eq!(capture.finish(), Some(vec!["Ctrl+WheelUp".to_string()]));
    let mut cleared = MouseCapture::new(Some("WheelUp".to_string()), vec![]);
    cleared.mouse_procedure(MouseEvent::Command {
        control: IDC_CAPTURE_MOUSE_CLEAR,
    });
    assert_eq!(cleared.field_text(), "None");
    cleared.mouse_procedure(MouseEvent::Command { control: IDOK });
    assert_eq!(cleared.finish(), Some(vec![]));
}

#[test]
fn a_field_sends_what_it_captures() {
    assert!(is_modifier_key(0x11));
    assert!(!is_modifier_key(0x41));
    assert_eq!(
        keyboard_field_procedure(KeyFieldEvent::KeyDown { virtual_key: 0x41 }, MODIFIER_CONTROL),
        FieldAction::Send {
            number: pack_key(MODIFIER_CONTROL, 0x41)
        }
    );
    assert_eq!(
        keyboard_field_procedure(KeyFieldEvent::DialogCode, 0),
        FieldAction::WantAllKeys
    );
    assert_eq!(
        mouse_field_procedure(MouseFieldEvent::Wheel { delta: 120 }, 0),
        FieldAction::Send {
            number: pack_mouse(0, MouseBase::WheelUp)
        }
    );
    assert_eq!(mouse_field_text("WheelUp").0, "WheelUp");
    assert!(!keyboard_field_text(false, 0).0.is_empty());
    assert!(conflict_message("Ctrl+N", "Next file").contains("Ctrl+N"));
    assert!(conflict_message("Ctrl+N", "Next file").contains("Next file"));
}

#[test]
fn the_icon_of_the_selected_row_removes_it() {
    let row = rect(0, 10, 100, 30);
    assert_eq!(remove_icon_bounds(&row), rect(80, 10, 100, 30));
    assert!(hits_remove_icon(&row, 80, 10));
    assert!(!hits_remove_icon(&row, 79, 10));
    assert!(!hits_remove_icon(&row, 100, 10));
    assert_eq!(icon_strokes(20), (5, 2));
    assert_eq!(icon_strokes(4), (1, 1));
    assert_eq!(below_last_item(5, 2, 20), 60);
    assert_eq!(
        keyboard_list_procedure(ListEvent::Press {
            x: 90,
            y: 20,
            selected: Some(3),
            bounds: row
        }),
        ListAction::Remove(3)
    );
    assert_eq!(
        keyboard_list_procedure(ListEvent::Press {
            x: 90,
            y: 20,
            selected: None,
            bounds: row
        }),
        ListAction::Forward
    );
    assert_eq!(
        keyboard_list_procedure(ListEvent::Erase),
        ListAction::EraseBelowRows
    );
}

fn header(name: &str, size: Option<i64>) -> EntryHeader {
    EntryHeader {
        name: Some(name.to_string()),
        filetype: FILETYPE_REGULAR,
        metadata_encrypted: false,
        data_encrypted: false,
        size,
        modified_seconds: 0,
    }
}

#[test]
fn an_archive_lists_its_regular_members() {
    let mut folder = header("art", None);
    folder.filetype = 0o040000;
    let mut locked = header("secret.png", Some(3));
    locked.data_encrypted = true;
    let members = enumerate(&vec![header("a.png", Some(5)), folder, locked], None)
        .ok()
        .expect("members");
    assert_eq!(members.len(), 1);
    assert_eq!(members[0].name, "a.png");
    assert_eq!(members[0].size, 5);
    assert_eq!(members[0].modified, FILETIME_UNIX_EPOCH);
    assert!(enumerate(&vec![], Some(ArchiveError::new("damaged"))).is_err());
}

#[test]
fn a_member_is_read_by_its_name() {
    assert!(matches!(
        member_verdict(&header("a.png", Some(5)), "b.png"),
        MemberVerdict::Skip
    ));
    assert!(matches!(
        member_verdict(&header("a.png", Some(5)), "a.png"),
        MemberVerdict::Read(Some(5))
    ));
    assert!(matches!(
        member_verdict(&header("a.png", Some(1 << 31)), "a.png"),
        MemberVerdict::Refuse(_)
    ));
    assert!(!missing_member().cancelled);
}

#[test]
fn a_member_grows_block_by_block() {
    let mut data = vec![1u8];
    let failure = || ArchiveError::new("read failed");
    assert!(matches!(
        take_block(&mut data, false, 2, &[7, 8, 9], failure()),
        BlockStep::Continue
    ));
    assert_eq!(data, [1, 7, 8]);
    assert!(matches!(
        take_block(&mut data, false, 0, &[7, 8, 9], failure()),
        BlockStep::Complete
    ));
    assert!(matches!(
        take_block(&mut data, false, -1, &[7], failure()),
        BlockStep::Stop(error) if error.message == "read failed"
    ));
    assert!(matches!(
        take_block(&mut data, true, 1, &[7], failure()),
        BlockStep::Stop(error) if error.cancelled
    ));
    assert_eq!(
        ArchiveError::reported(None, 9, "fallback").message,
        "fallback"
    );
    assert_eq!(
        ArchiveError::reported(Some("told"), 9, "fallback").message,
        "told"
    );
}

#[test]
fn versions_have_four_parts() {
    assert_eq!(four_part_version("1.2.3"), "1.2.3.0");
    assert_eq!(comma_separated("1.2.3.0"), "1,2,3,0");
    let script = resource_script("riv.manifest", "1.2.3", "viewer");
    assert!(script.contains("riv.manifest"));
    assert!(manifest_text("version=\"@VERSION@\"", "1.2.3.0").contains("version"));
}

#[test]
fn shaders_are_compiled_where_they_are_stale() {
    assert!(is_stale(None, &vec![Some(1)]));
    assert!(is_stale(Some(5), &vec![Some(1), Some(6)]));
    assert!(!is_stale(Some(5), &vec![Some(1), Some(5)]));
    let jobs = compile_all();
    assert!(!jobs.is_empty());
    assert!(jobs[0].source().ends_with(".hlsl"));
    assert!(is_compiled_shader(b"DXBC...."));
    assert!(!is_compiled_shader(b"text"));
}

#[test]
fn libraries_are_linked_by_name() {
    assert_eq!(library_root(Some("D:\\libs"), "C:\\riv"), "D:\\libs");
    assert!(library_root(None, "C:\\riv").starts_with("C:\\riv"));
    assert!(link_argument("heif.lib").is_some());
    assert!(link_argument("readme.txt").is_none());
    assert!(compiler_include("C:\\riv", "inc").contains("inc"));
}

#[test]
fn a_webp_frame_waits_for_its_pixels() {
    let mut reading = begin_webp(2, 1, true, 10).ok().expect("canvas");
    let frame = WebPFrame {
        frame_count: 1,
        x_offset: 0,
        y_offset: 0,
        width: 2,
        height: 1,
        duration_milliseconds: 30,
        dispose_method: 0,
        blend_method: 1,
    };
    assert_eq!(reading.next_webp_frame(&frame), Some(8));
    let mut pixels = vec![200, 100, 50, 51, 1, 2, 3, 255];
    reading.add_webp_frame(&frame, &mut pixels);
    let image = reading.finish_webp("WebP");
    assert_eq!(image.frames[0].pixels, [40, 20, 10, 51, 1, 2, 3, 255]);
    assert_eq!(image.frames[0].delay_milliseconds, 30);
    assert!(begin_webp(2, 1, false, 10).is_err());
    assert!(begin_avif(65535, 65535, 10).is_err());
    assert!(matches!(
        begin_webp_on(2, 1, true, None, 10),
        Err(error) if error.message == "WebP canvas is too large to decode"
    ));
    assert!(matches!(
        begin_avif_on(2, 1, None, 10),
        Err(error) if error.message == "AVIF canvas is too large to decode"
    ));
}

#[test]
fn sequences_count_in_their_own_ticks() {
    assert_eq!(sequence_delay_milliseconds(1, 10), 100);
    assert_eq!(sequence_delay_milliseconds(1, 0), 100);
    assert!(sequence_status(HEIF_END_OF_SEQUENCE, None).is_none());
    assert!(matches!(sequence_status(0, None), Some(Ok(()))));
    assert!(matches!(sequence_status(1, Some("bad")), Some(Err(error)) if error.message.contains("bad")));
    assert!(heif_result(0, None).is_ok());
    assert!(heif_result(2, Some("no")).is_err());
    assert!(check_sequence_image(true, 4, 2, 16, 4, 2).is_ok());
    assert!(check_sequence_image(false, 4, 2, 16, 4, 2).is_err());
    assert!(check_sequence_image(true, 4, 2, 15, 4, 2).is_err());
}

#[test]
fn heif_planes_are_cut_to_rows() {
    let encoding = heif_hdr_encoding(9, 16);
    assert!(encoding.is_some());
    assert_eq!(
        heif_pixel_target(encoding),
        (HeifChroma::Rgba16, PixelStorage::RgbaHalf)
    );
    assert_eq!(
        heif_pixel_target(None),
        (HeifChroma::Rgba, PixelStorage::Bgra8)
    );
    assert_eq!(
        probed_heif(4, 2, None),
        Some((4, 2, PixelStorage::Bgra8))
    );
    assert_eq!(probed_heif(0, 2, None), None);
    let plane = HeifPlane {
        present: true,
        width: 1,
        height: 2,
        source_bits: 8,
        stride: 6,
    };
    assert_eq!(
        heif_extent(&plane, PixelStorage::Bgra8).ok().map(|(row, _)| row),
        Some(4)
    );
    let refused = heif_rows_on_buffer(None, &[1, 2, 3, 255], 4, 4, 1, false);
    assert_eq!(
        refused.err().map(|error| error.message),
        Some("HEIF is too large to fit in memory".to_string())
    );
    let rows = heif_rows(&[1, 2, 3, 255, 0, 0, 4, 5, 6, 255], 6, 4, 2, false)
        .ok()
        .expect("rows");
    assert_eq!(rows, [3, 2, 1, 255, 6, 5, 4, 255]);
}

#[test]
fn an_exr_buffer_holds_half_pixels() {
    assert_eq!(exr_buffer_bytes(Some((10, 10))).ok(), Some(800));
    assert!(exr_buffer_bytes(None).is_err());
    assert!(exr_buffer_bytes(Some((u32::MAX, u32::MAX))).is_err());
    assert!(exr_failure(b"broken part\0rest").message.contains("broken part"));
    let mut pixels = vec![0u8; 900];
    cut_to_size(&mut pixels, 10, 10);
    assert_eq!(pixels.len(), 800);
}

#[test]
fn a_sequence_shows_every_frame_whole() {
    let mut reading = begin_avif(1, 1, 2).ok().expect("canvas");
    assert!(reading.next_sequence_frame());
    assert!(reading.add_sequence_frame(&[1, 2, 3, 255], 3, 10));
    assert!(reading.next_sequence_frame());
    assert!(!reading.add_sequence_frame(&[0, 0, 0, 0], 1, 10));
    let image = reading.finish_sequence("AVIF").ok().expect("two frames");
    assert_eq!(image.frames.len(), 2);
    assert_eq!(image.frames[0].pixels, [1, 2, 3, 255]);
    assert_eq!(image.frames[0].delay_milliseconds, 300);
    // Nothing of the first frame shows through the second.
    assert_eq!(image.frames[1].pixels, [0, 0, 0, 0]);
    let empty = begin_avif(1, 1, 2).ok().expect("canvas");
    assert!(empty.finish_sequence("AVIF").is_err());
}
