use riv::text_input::{
    accepted_text, answered_yes, body_text, entered_name, entered_url, field_text, rename_request,
    stem_utf16_length, text_input_procedure, url_request, TextInputAction, TextInputEvent, IDNO,
    IDYES,
};

#[test]
fn the_stem_stops_before_the_last_dot_in_utf16_units() {
    assert_eq!(stem_utf16_length("photo.jpg"), 5);
    assert_eq!(stem_utf16_length("archive.tar.gz"), 11);
    assert_eq!(stem_utf16_length("한글 이미지.png"), 6);
    assert_eq!(stem_utf16_length("😀.png"), 2);
}

#[test]
fn a_dotfile_and_a_bare_name_select_everything() {
    assert_eq!(stem_utf16_length(".hidden"), 7);
    assert_eq!(stem_utf16_length("README"), 6);
}

#[test]
fn a_rename_begins_on_the_stem() {
    let request = rename_request("photo.jpg");
    assert_eq!(request.initial_text, "photo.jpg");
    assert_eq!(request.selection, Some((0, 5)));
    assert_eq!(url_request().initial_text, "");
}

#[test]
fn a_blank_text_is_no_answer() {
    assert_eq!(entered_name(Some(" a.png ".to_string())).as_deref(), Some(" a.png "));
    assert_eq!(entered_name(Some("   ".to_string())), None);
    assert_eq!(entered_name(None), None);
    assert_eq!(
        entered_url(Some(" https://a.com ".to_string())).as_deref(),
        Some("https://a.com")
    );
    assert_eq!(entered_url(None), None);
}

#[test]
fn the_buttons_end_the_dialog() {
    assert_eq!(
        text_input_procedure(TextInputEvent::Command { control: 1 }),
        TextInputAction::Accept
    );
    assert_eq!(
        text_input_procedure(TextInputEvent::Command { control: 2 }),
        TextInputAction::Cancel
    );
    assert_eq!(
        text_input_procedure(TextInputEvent::Command { control: 77 }),
        TextInputAction::Ignore
    );
    assert_eq!(
        text_input_procedure(TextInputEvent::Initialize),
        TextInputAction::Open
    );
}

#[test]
fn an_accepted_text_is_the_entered_one() {
    assert_eq!(
        accepted_text(1, Some("a".to_string())).as_deref(),
        Some("a")
    );
    assert_eq!(accepted_text(2, Some("a".to_string())), None);
    assert_eq!(field_text(&[0x61, 0x62]), "ab");
}

#[test]
fn a_question_is_answered_by_yes_alone() {
    assert!(answered_yes(true, IDYES));
    assert!(!answered_yes(true, IDNO));
    assert!(!answered_yes(false, IDYES));
    assert!(body_text("Lead", "Detail").starts_with("Lead"));
    assert!(body_text("Lead", "Detail").ends_with("Detail"));
}
