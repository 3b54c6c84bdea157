use riv::actions::Action;
use riv::bindings::{
    default_keyboard_sequences, default_mouse_encodings, menu_shortcut_text,
    resolved_keyboard_sequences, resolved_mouse_encodings, Bindings, DEFAULT_KEYBOARD,
    DEFAULT_MOUSE,
};
use riv::keys::{
    format_key_sequence, format_mouse_encoding, parse_key_sequence, parse_mouse_encoding,
    pressed_modifiers, MouseBase, MODIFIER_ALT, MODIFIER_CONTROL, MODIFIER_META,
    MODIFIER_SHIFT,
};
use serde_json::Value;

fn list(texts: &[&str]) -> Value {
    Value::Array(
        texts
            .iter()
            .map(|text| Value::String(text.to_string()))
            .collect(),
    )
}

fn overrides(rows: &[(&str, Value)]) -> serde_json::Map<String, Value> {
    let mut map = serde_json::Map::new();
    for (name, value) in rows {
        map.insert(name.to_string(), value.clone());
    }
    map
}

#[test]
fn resolved_bindings_round_trip_and_discard_junk() {
    let long = "A".repeat(300);
    let map = overrides(&[
        ("nextfile", list(&["Right", "Ctrl+Ctrl+X", &long])),
        ("fullscreen", list(&["WheelButton", "Nope"])),
    ]);
    assert_eq!(
        resolved_keyboard_sequences(Some(&map), "nextfile"),
        ["Right", "Ctrl+X"]
    );
    assert_eq!(
        resolved_mouse_encodings(Some(&map), "fullscreen"),
        ["WheelButton"]
    );
}

#[test]
fn default_tables_name_actions_in_the_table_order() {
    // collecting skips names from_name cannot resolve, so a typo here silently loses a default.
    let action_names: Vec<&str> = Action::all_bindable()
        .into_iter()
        .map(|action| action.name())
        .collect();
    let keyboard: Vec<&str> = DEFAULT_KEYBOARD.iter().map(|row| row.0).collect();
    let mouse: Vec<&str> = DEFAULT_MOUSE.iter().map(|row| row.0).collect();
    for defaults in [keyboard, mouse] {
        let mut unmatched = action_names.iter();
        for name in defaults {
            assert!(
                unmatched.any(|action_name| *action_name == name),
                "{name} is missing from the action table or out of its order"
            );
        }
    }
}

#[test]
fn default_tables_spell_the_parser_round_trip() {
    // An unparseable default drops silently; a non-canonical one becomes a stored override.
    for (name, _, _) in DEFAULT_KEYBOARD {
        for sequence in default_keyboard_sequences(name) {
            let (modifiers, virtual_key) =
                parse_key_sequence(sequence).unwrap_or_else(|| panic!("{name}: {sequence}"));
            assert_eq!(
                format_key_sequence(modifiers, virtual_key).as_deref(),
                Some(sequence),
                "{name}"
            );
        }
    }
    for (name, _) in DEFAULT_MOUSE {
        for encoding in default_mouse_encodings(name) {
            let (modifiers, base) =
                parse_mouse_encoding(encoding).unwrap_or_else(|| panic!("{name}: {encoding}"));
            assert_eq!(format_mouse_encoding(modifiers, base), encoding, "{name}");
        }
    }
}

#[test]
fn a_hand_written_list_stops_at_the_maximum() {
    let map = overrides(&[
        ("nextfile", list(&["Right", "Ctrl+A", "Ctrl+B", "Ctrl+C"])),
        ("fullscreen", list(&["WheelButton", "Ctrl+WheelUp"])),
    ]);
    assert_eq!(
        resolved_keyboard_sequences(Some(&map), "nextfile"),
        ["Right", "Ctrl+A", "Ctrl+B"]
    );
    assert_eq!(
        resolved_mouse_encodings(Some(&map), "fullscreen"),
        ["WheelButton"]
    );
    let bindings = Bindings::from_settings(Some(&map), Some(&map));
    assert!(bindings
        .lookup_key(MODIFIER_CONTROL, u16::from(b'B'))
        .is_some());
    assert!(bindings
        .lookup_key(MODIFIER_CONTROL, u16::from(b'C'))
        .is_none());
}

#[test]
fn an_override_replaces_the_defaults() {
    let map = overrides(&[("nextfile", list(&[])), ("open", Value::Bool(true))]);
    assert!(resolved_keyboard_sequences(Some(&map), "nextfile").is_empty());
    assert_eq!(resolved_keyboard_sequences(None, "nextfile"), ["Right"]);
    assert_eq!(resolved_keyboard_sequences(Some(&map), "playlist"), ["E"]);
    assert_eq!(menu_shortcut_text(None, "open").as_deref(), Some("Ctrl+O"));
    assert_eq!(menu_shortcut_text(Some(&map), "nextfile"), None);
}

#[test]
fn a_pressed_key_finds_its_action() {
    let bindings = Bindings::from_settings(None, None);
    assert_eq!(
        bindings
            .lookup_key(MODIFIER_CONTROL, u16::from(b'O'))
            .map(|action| action.name()),
        Some("open")
    );
    assert!(bindings.lookup_key(MODIFIER_ALT, 0xFE).is_none());
    assert!(bindings.escape_is_unbound() == bindings.lookup_key(0, 0x1B).is_none());
}

#[test]
fn keys_and_buttons_spell_and_parse() {
    assert_eq!(
        parse_key_sequence("Shift+Ctrl+Shift+F5"),
        parse_key_sequence("Ctrl+Shift+F5")
    );
    assert_eq!(
        parse_key_sequence("Ctrl+Shift+F5"),
        Some((MODIFIER_CONTROL | MODIFIER_SHIFT, 0x74))
    );
    assert_eq!(parse_key_sequence("Ctrl+"), None);
    assert_eq!(parse_mouse_encoding("Ctrl+Nope"), None);
    assert_eq!(
        parse_mouse_encoding("Ctrl+WheelUp").map(|(modifiers, _)| modifiers),
        Some(MODIFIER_CONTROL)
    );
    assert_eq!(
        pressed_modifiers(true, true, false, false, true),
        MODIFIER_CONTROL | MODIFIER_SHIFT | MODIFIER_META
    );
}

#[test]
fn mouse_parts_have_places() {
    let mut index = 0;
    while let Some(base) = MouseBase::from_index(index) {
        assert_eq!(base.index(), index);
        index += 1;
    }
    assert!(index > 0);
    assert_eq!(
        format_mouse_encoding(0, MouseBase::from_wheel_delta(120)),
        "WheelUp"
    );
    assert_eq!(
        format_mouse_encoding(0, MouseBase::from_wheel_delta(-120)),
        "WheelDown"
    );
}

#[test]
fn every_action_is_found_by_its_name() {
    for action in Action::all_bindable() {
        assert_eq!(Action::from_name(action.name()), Some(action));
        assert!(!action.label().is_empty());
    }
    assert_eq!(Action::from_name("nosuchaction"), None);
}

#[test]
fn a_pressed_button_finds_its_action() {
    let map = overrides(&[("nextfile", list(&["Ctrl+Shift+WheelUp"]))]);
    let bindings = Bindings::from_settings(None, Some(&map));
    let modifiers = MODIFIER_CONTROL | MODIFIER_SHIFT;
    assert_eq!(
        bindings
            .lookup_mouse(modifiers, MouseBase::WheelUp)
            .map(|action| action.name()),
        Some("nextfile")
    );
    assert!(bindings
        .lookup_mouse(MODIFIER_ALT | modifiers, MouseBase::WheelUp)
        .is_none());
}
