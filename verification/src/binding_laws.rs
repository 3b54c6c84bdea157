//! Laws of the default bindings: they follow the action table, and each is spelled as it is read.

use vstd::prelude::*;

use crate::actions;
use crate::actions::{Action, ActionRequirement, ACTION_TABLE};
use crate::bindings::{
    default_for, keyboard_defaults, listed_from, mouse_defaults, row_sequences, DEFAULT_KEYBOARD,
    DEFAULT_MOUSE, MAXIMUM_KEYBOARD_SEQUENCES, MAXIMUM_MOUSE_ENCODINGS,
};
use crate::keys;
use crate::keys::MouseBase;

verus! {

/// One list is another with some of it left out: each entry has its place there, in the same order.
pub open spec fn is_subsequence(part: Seq<Seq<char>>, whole: Seq<Seq<char>>) -> bool {
    exists|places: Seq<int>| #[trigger] holds_places(part, whole, places)
}

/// The places of one list's entries in another, in order.
pub open spec fn holds_places(
    part: Seq<Seq<char>>,
    whole: Seq<Seq<char>>,
    places: Seq<int>,
) -> bool {
    &&& places.len() == part.len()
    &&& forall|index: int|
        0 <= index < part.len() ==> 0 <= #[trigger] places[index] < whole.len()
            && whole[places[index]] == part[index]
    &&& forall|first: int, second: int|
        0 <= first < second < places.len() ==> #[trigger] places[first] < #[trigger] places[second]
}

/// The names of the actions a shortcut can be bound to, in table order.
pub open spec fn bindable_names() -> Seq<Seq<char>> {
    ACTION_TABLE@.map_values(
        |row: (Action, &'static str, &'static str, ActionRequirement)| actions::name_of(row.0),
    )
}

/// The names a table of defaults lists, in order.
pub open spec fn listed_names(defaults: Seq<(Seq<char>, Seq<Seq<char>>)>) -> Seq<Seq<char>> {
    defaults.map_values(|row: (Seq<char>, Seq<Seq<char>>)| row.0)
}

/// A key sequence is spelled as it is read.
pub open spec fn spells_itself(sequence: Seq<char>) -> bool {
    keys::parsed_key(sequence) matches Some((modifiers, key)) && keys::key_text(modifiers, key)
        == Some(sequence)
}

/// A mouse encoding is spelled as it is read.
pub open spec fn encodes_itself(encoding: Seq<char>) -> bool {
    keys::parsed_mouse(encoding) matches Some((modifiers, base)) && keys::mouse_text(modifiers, base)
        == encoding
}

/// The row of the action table that a row of the keyboard table belongs to.
spec fn keyboard_place(row: int) -> int {
    if row == 0 {
        0
    } else if row == 1 {
        2
    } else {
        row + 3
    }
}

proof fn lemma_keyboard_row_names_its_action(row: int)
    requires
        0 <= row < DEFAULT_KEYBOARD@.len(),
    ensures
        DEFAULT_KEYBOARD@[row].0@ == ACTION_TABLE@[keyboard_place(row)].1@,
{
    if row == 0 {
        assert(DEFAULT_KEYBOARD@[row].0@ == "open"@);
        assert(ACTION_TABLE@[0].1@ == "open"@);
    } else if row == 1 {
        assert(DEFAULT_KEYBOARD@[row].0@ == "pasteurl"@);
        assert(ACTION_TABLE@[2].1@ == "pasteurl"@);
    } else if row == 2 {
        assert(DEFAULT_KEYBOARD@[row].0@ == "playlist"@);
        assert(ACTION_TABLE@[5].1@ == "playlist"@);
    } else if row == 3 {
        assert(DEFAULT_KEYBOARD@[row].0@ == "loop"@);
        assert(ACTION_TABLE@[6].1@ == "loop"@);
    } else if row == 4 {
        assert(DEFAULT_KEYBOARD@[row].0@ == "firstfile"@);
        assert(ACTION_TABLE@[7].1@ == "firstfile"@);
    } else if row == 5 {
        assert(DEFAULT_KEYBOARD@[row].0@ == "previousfile"@);
        assert(ACTION_TABLE@[8].1@ == "previousfile"@);
    } else if row == 6 {
        assert(DEFAULT_KEYBOARD@[row].0@ == "nextfile"@);
        assert(ACTION_TABLE@[9].1@ == "nextfile"@);
    } else if row == 7 {
        assert(DEFAULT_KEYBOARD@[row].0@ == "lastfile"@);
        assert(ACTION_TABLE@[10].1@ == "lastfile"@);
    } else if row == 8 {
        assert(DEFAULT_KEYBOARD@[row].0@ == "pause"@);
        assert(ACTION_TABLE@[11].1@ == "pause"@);
    } else if row == 9 {
        assert(DEFAULT_KEYBOARD@[row].0@ == "previousframe"@);
        assert(ACTION_TABLE@[12].1@ == "previousframe"@);
    } else if row == 10 {
        assert(DEFAULT_KEYBOARD@[row].0@ == "nextframe"@);
        assert(ACTION_TABLE@[13].1@ == "nextframe"@);
    } else if row == 11 {
        assert(DEFAULT_KEYBOARD@[row].0@ == "decreasespeed"@);
        assert(ACTION_TABLE@[14].1@ == "decreasespeed"@);
    } else if row == 12 {
        assert(DEFAULT_KEYBOARD@[row].0@ == "increasespeed"@);
        assert(ACTION_TABLE@[15].1@ == "increasespeed"@);
    } else if row == 13 {
        assert(DEFAULT_KEYBOARD@[row].0@ == "resetspeed"@);
        assert(ACTION_TABLE@[16].1@ == "resetspeed"@);
    } else if row == 14 {
        assert(DEFAULT_KEYBOARD@[row].0@ == "showfileinfo"@);
        assert(ACTION_TABLE@[17].1@ == "showfileinfo"@);
    } else if row == 15 {
        assert(DEFAULT_KEYBOARD@[row].0@ == "reload"@);
        assert(ACTION_TABLE@[18].1@ == "reload"@);
    } else if row == 16 {
        assert(DEFAULT_KEYBOARD@[row].0@ == "togglefitmode"@);
        assert(ACTION_TABLE@[19].1@ == "togglefitmode"@);
    } else if row == 17 {
        assert(DEFAULT_KEYBOARD@[row].0@ == "preservezoom"@);
        assert(ACTION_TABLE@[20].1@ == "preservezoom"@);
    } else if row == 18 {
        assert(DEFAULT_KEYBOARD@[row].0@ == "zoomin"@);
        assert(ACTION_TABLE@[21].1@ == "zoomin"@);
    } else if row == 19 {
        assert(DEFAULT_KEYBOARD@[row].0@ == "zoomout"@);
        assert(ACTION_TABLE@[22].1@ == "zoomout"@);
    } else if row == 20 {
        assert(DEFAULT_KEYBOARD@[row].0@ == "togglezoom"@);
        assert(ACTION_TABLE@[23].1@ == "togglezoom"@);
    } else if row == 21 {
        assert(DEFAULT_KEYBOARD@[row].0@ == "panup"@);
        assert(ACTION_TABLE@[24].1@ == "panup"@);
    } else if row == 22 {
        assert(DEFAULT_KEYBOARD@[row].0@ == "pandown"@);
        assert(ACTION_TABLE@[25].1@ == "pandown"@);
    } else if row == 23 {
        assert(DEFAULT_KEYBOARD@[row].0@ == "panleft"@);
        assert(ACTION_TABLE@[26].1@ == "panleft"@);
    } else if row == 24 {
        assert(DEFAULT_KEYBOARD@[row].0@ == "panright"@);
        assert(ACTION_TABLE@[27].1@ == "panright"@);
    } else if row == 25 {
        assert(DEFAULT_KEYBOARD@[row].0@ == "rotateleft"@);
        assert(ACTION_TABLE@[28].1@ == "rotateleft"@);
    } else if row == 26 {
        assert(DEFAULT_KEYBOARD@[row].0@ == "rotateright"@);
        assert(ACTION_TABLE@[29].1@ == "rotateright"@);
    } else if row == 27 {
        assert(DEFAULT_KEYBOARD@[row].0@ == "mirror"@);
        assert(ACTION_TABLE@[30].1@ == "mirror"@);
    } else if row == 28 {
        assert(DEFAULT_KEYBOARD@[row].0@ == "flip"@);
        assert(ACTION_TABLE@[31].1@ == "flip"@);
    } else if row == 29 {
        assert(DEFAULT_KEYBOARD@[row].0@ == "showinexplorer"@);
        assert(ACTION_TABLE@[32].1@ == "showinexplorer"@);
    } else if row == 30 {
        assert(DEFAULT_KEYBOARD@[row].0@ == "rename"@);
        assert(ACTION_TABLE@[33].1@ == "rename"@);
    } else if row == 31 {
        assert(DEFAULT_KEYBOARD@[row].0@ == "delete"@);
        assert(ACTION_TABLE@[34].1@ == "delete"@);
    } else if row == 32 {
        assert(DEFAULT_KEYBOARD@[row].0@ == "deletepermanently"@);
        assert(ACTION_TABLE@[35].1@ == "deletepermanently"@);
    } else if row == 33 {
        assert(DEFAULT_KEYBOARD@[row].0@ == "toggleslideshow"@);
        assert(ACTION_TABLE@[36].1@ == "toggleslideshow"@);
    } else if row == 34 {
        assert(DEFAULT_KEYBOARD@[row].0@ == "settings"@);
        assert(ACTION_TABLE@[37].1@ == "settings"@);
    } else if row == 35 {
        assert(DEFAULT_KEYBOARD@[row].0@ == "alwaysontop"@);
        assert(ACTION_TABLE@[38].1@ == "alwaysontop"@);
    } else if row == 36 {
        assert(DEFAULT_KEYBOARD@[row].0@ == "fullscreen"@);
        assert(ACTION_TABLE@[39].1@ == "fullscreen"@);
    } else if row == 37 {
        assert(DEFAULT_KEYBOARD@[row].0@ == "exit"@);
        assert(ACTION_TABLE@[40].1@ == "exit"@);
    }
}

/// The row of the action table that a row of the mouse table belongs to.
spec fn mouse_place(row: int) -> int {
    if row == 0 {
        8
    } else if row == 1 {
        9
    } else if row == 2 {
        21
    } else if row == 3 {
        22
    } else if row == 4 {
        23
    } else {
        39
    }
}

proof fn lemma_mouse_row_names_its_action(row: int)
    requires
        0 <= row < DEFAULT_MOUSE@.len(),
    ensures
        DEFAULT_MOUSE@[row].0@ == ACTION_TABLE@[mouse_place(row)].1@,
{
    if row == 0 {
        assert(DEFAULT_MOUSE@[row].0@ == "previousfile"@);
        assert(ACTION_TABLE@[8].1@ == "previousfile"@);
    } else if row == 1 {
        assert(DEFAULT_MOUSE@[row].0@ == "nextfile"@);
        assert(ACTION_TABLE@[9].1@ == "nextfile"@);
    } else if row == 2 {
        assert(DEFAULT_MOUSE@[row].0@ == "zoomin"@);
        assert(ACTION_TABLE@[21].1@ == "zoomin"@);
    } else if row == 3 {
        assert(DEFAULT_MOUSE@[row].0@ == "zoomout"@);
        assert(ACTION_TABLE@[22].1@ == "zoomout"@);
    } else if row == 4 {
        assert(DEFAULT_MOUSE@[row].0@ == "togglezoom"@);
        assert(ACTION_TABLE@[23].1@ == "togglezoom"@);
    } else if row == 5 {
        assert(DEFAULT_MOUSE@[row].0@ == "fullscreen"@);
        assert(ACTION_TABLE@[39].1@ == "fullscreen"@);
    }
}

/// Both tables of defaults name their actions in the order of the action table.
pub proof fn lemma_defaults_follow_the_action_table()
    ensures
        is_subsequence(listed_names(keyboard_defaults()), bindable_names()),
        is_subsequence(listed_names(mouse_defaults()), bindable_names()),
{
    assert forall|row: int| 0 <= row < ACTION_TABLE@.len() implies #[trigger] bindable_names()[row]
        == ACTION_TABLE@[row].1@ by {
        actions::lemma_rows_and_actions_agree(ACTION_TABLE@[row].0, row);
    }
    let keyboard = Seq::new(DEFAULT_KEYBOARD@.len(), |row: int| keyboard_place(row));
    assert forall|row: int| 0 <= row < keyboard.len() implies 0 <= #[trigger] keyboard[row]
        < bindable_names().len() && bindable_names()[keyboard[row]] == listed_names(
        keyboard_defaults(),
    )[row] by {
        lemma_keyboard_row_names_its_action(row);
    }
    assert(holds_places(listed_names(keyboard_defaults()), bindable_names(), keyboard));
    let mouse = Seq::new(DEFAULT_MOUSE@.len(), |row: int| mouse_place(row));
    assert forall|row: int| 0 <= row < mouse.len() implies 0 <= #[trigger] mouse[row]
        < bindable_names().len() && bindable_names()[mouse[row]] == listed_names(
        mouse_defaults(),
    )[row] by {
        lemma_mouse_row_names_its_action(row);
    }
    assert(holds_places(listed_names(mouse_defaults()), bindable_names(), mouse));
}

proof fn lemma_spelled(text: Seq<char>, modifiers: u8, key: u16)
    requires
        modifiers < 16,
        keys::key_text(modifiers, key) == Some(text),
    ensures
        spells_itself(text),
{
    keys::lemma_key_round_trip(modifiers, key);
}

/// The sequences of the rows from 0 to 13.
proof fn lemma_file_rows_spell_themselves(row: int)
    requires
        0 <= row < 14,
    ensures
        spells_itself(DEFAULT_KEYBOARD@[row].1@),
        DEFAULT_KEYBOARD@[row].2@.len() == 0 || spells_itself(DEFAULT_KEYBOARD@[row].2@),
{
    keys::lemma_control_and_shift_prefixes();
    reveal_strlit("");
    if row == 0 {
        assert(DEFAULT_KEYBOARD@[row].1@ == "Ctrl+O"@);
        reveal_strlit("Ctrl+O");
        assert("Ctrl+O"@ =~= keys::prefix_of(1) + seq!['O']);
        lemma_spelled("Ctrl+O"@, 1, 79);
        assert(DEFAULT_KEYBOARD@[row].2@ == ""@);
    } else if row == 1 {
        assert(DEFAULT_KEYBOARD@[row].1@ == "Ctrl+V"@);
        reveal_strlit("Ctrl+V");
        assert("Ctrl+V"@ =~= keys::prefix_of(1) + seq!['V']);
        lemma_spelled("Ctrl+V"@, 1, 86);
        assert(DEFAULT_KEYBOARD@[row].2@ == ""@);
    } else if row == 2 {
        assert(DEFAULT_KEYBOARD@[row].1@ == "E"@);
        reveal_strlit("E");
        assert("E"@ =~= keys::prefix_of(0) + seq!['E']);
        lemma_spelled("E"@, 0, 69);
        assert(DEFAULT_KEYBOARD@[row].2@ == ""@);
    } else if row == 3 {
        assert(DEFAULT_KEYBOARD@[row].1@ == "L"@);
        reveal_strlit("L");
        assert("L"@ =~= keys::prefix_of(0) + seq!['L']);
        lemma_spelled("L"@, 0, 76);
        assert(DEFAULT_KEYBOARD@[row].2@ == ""@);
    } else if row == 4 {
        assert(DEFAULT_KEYBOARD@[row].1@ == "Home"@);
        keys::lemma_named_key_is_spelled(4);
        assert(keys::KEY_NAMES@[4].0@ == "Home"@);
        assert("Home"@ =~= keys::prefix_of(0) + "Home"@);
        lemma_spelled("Home"@, 0, 36);
        assert(DEFAULT_KEYBOARD@[row].2@ == ""@);
    } else if row == 5 {
        assert(DEFAULT_KEYBOARD@[row].1@ == "Left"@);
        keys::lemma_named_key_is_spelled(0);
        assert(keys::KEY_NAMES@[0].0@ == "Left"@);
        assert("Left"@ =~= keys::prefix_of(0) + "Left"@);
        lemma_spelled("Left"@, 0, 37);
        assert(DEFAULT_KEYBOARD@[row].2@ == ""@);
    } else if row == 6 {
        assert(DEFAULT_KEYBOARD@[row].1@ == "Right"@);
        keys::lemma_named_key_is_spelled(1);
        assert(keys::KEY_NAMES@[1].0@ == "Right"@);
        assert("Right"@ =~= keys::prefix_of(0) + "Right"@);
        lemma_spelled("Right"@, 0, 39);
        assert(DEFAULT_KEYBOARD@[row].2@ == ""@);
    } else if row == 7 {
        assert(DEFAULT_KEYBOARD@[row].1@ == "End"@);
        keys::lemma_named_key_is_spelled(5);
        assert(keys::KEY_NAMES@[5].0@ == "End"@);
        assert("End"@ =~= keys::prefix_of(0) + "End"@);
        lemma_spelled("End"@, 0, 35);
        assert(DEFAULT_KEYBOARD@[row].2@ == ""@);
    } else if row == 8 {
        assert(DEFAULT_KEYBOARD@[row].1@ == "spacebar"@);
        keys::lemma_named_key_is_spelled(8);
        assert(keys::KEY_NAMES@[8].0@ == "spacebar"@);
        assert("spacebar"@ =~= keys::prefix_of(0) + "spacebar"@);
        lemma_spelled("spacebar"@, 0, 32);
        assert(DEFAULT_KEYBOARD@[row].2@ == ""@);
    } else if row == 9 {
        assert(DEFAULT_KEYBOARD@[row].1@ == "B"@);
        reveal_strlit("B");
        assert("B"@ =~= keys::prefix_of(0) + seq!['B']);
        lemma_spelled("B"@, 0, 66);
        assert(DEFAULT_KEYBOARD@[row].2@ == ""@);
    } else if row == 10 {
        assert(DEFAULT_KEYBOARD@[row].1@ == "N"@);
        reveal_strlit("N");
        assert("N"@ =~= keys::prefix_of(0) + seq!['N']);
        lemma_spelled("N"@, 0, 78);
        assert(DEFAULT_KEYBOARD@[row].2@ == ""@);
    } else if row == 11 {
        assert(DEFAULT_KEYBOARD@[row].1@ == "["@);
        keys::lemma_named_key_is_spelled(22);
        assert(keys::KEY_NAMES@[22].0@ == "["@);
        assert("["@ =~= keys::prefix_of(0) + "["@);
        lemma_spelled("["@, 0, 219);
        assert(DEFAULT_KEYBOARD@[row].2@ == ""@);
    } else if row == 12 {
        assert(DEFAULT_KEYBOARD@[row].1@ == "]"@);
        keys::lemma_named_key_is_spelled(24);
        assert(keys::KEY_NAMES@[24].0@ == "]"@);
        assert("]"@ =~= keys::prefix_of(0) + "]"@);
        lemma_spelled("]"@, 0, 221);
        assert(DEFAULT_KEYBOARD@[row].2@ == ""@);
    } else if row == 13 {
        assert(DEFAULT_KEYBOARD@[row].1@ == "\\"@);
        keys::lemma_named_key_is_spelled(23);
        assert(keys::KEY_NAMES@[23].0@ == "\\"@);
        assert("\\"@ =~= keys::prefix_of(0) + "\\"@);
        lemma_spelled("\\"@, 0, 220);
        assert(DEFAULT_KEYBOARD@[row].2@ == ""@);
    }
}

/// The sequences of the rows from 14 to 24.
proof fn lemma_view_rows_spell_themselves(row: int)
    requires
        14 <= row < 25,
    ensures
        spells_itself(DEFAULT_KEYBOARD@[row].1@),
        DEFAULT_KEYBOARD@[row].2@.len() == 0 || spells_itself(DEFAULT_KEYBOARD@[row].2@),
{
    keys::lemma_control_and_shift_prefixes();
    reveal_strlit("");
    if row == 14 {
        assert(DEFAULT_KEYBOARD@[row].1@ == "I"@);
        reveal_strlit("I");
        assert("I"@ =~= keys::prefix_of(0) + seq!['I']);
        lemma_spelled("I"@, 0, 73);
        assert(DEFAULT_KEYBOARD@[row].2@ == "Tab"@);
        keys::lemma_named_key_is_spelled(14);
        assert(keys::KEY_NAMES@[14].0@ == "Tab"@);
        assert("Tab"@ =~= keys::prefix_of(0) + "Tab"@);
        lemma_spelled("Tab"@, 0, 9);
    } else if row == 15 {
        assert(DEFAULT_KEYBOARD@[row].1@ == "Ctrl+R"@);
        reveal_strlit("Ctrl+R");
        assert("Ctrl+R"@ =~= keys::prefix_of(1) + seq!['R']);
        lemma_spelled("Ctrl+R"@, 1, 82);
        assert(DEFAULT_KEYBOARD@[row].2@ == "F5"@);
        reveal_strlit("F5");
        assert("F5"@ =~= keys::prefix_of(0) + (seq!['F'] + keys::short_decimal(5)));
        lemma_spelled("F5"@, 0, 116);
    } else if row == 16 {
        assert(DEFAULT_KEYBOARD@[row].1@ == "V"@);
        reveal_strlit("V");
        assert("V"@ =~= keys::prefix_of(0) + seq!['V']);
        lemma_spelled("V"@, 0, 86);
        assert(DEFAULT_KEYBOARD@[row].2@ == ""@);
    } else if row == 17 {
        assert(DEFAULT_KEYBOARD@[row].1@ == "Z"@);
        reveal_strlit("Z");
        assert("Z"@ =~= keys::prefix_of(0) + seq!['Z']);
        lemma_spelled("Z"@, 0, 90);
        assert(DEFAULT_KEYBOARD@[row].2@ == ""@);
    } else if row == 18 {
        assert(DEFAULT_KEYBOARD@[row].1@ == "Up"@);
        keys::lemma_named_key_is_spelled(2);
        assert(keys::KEY_NAMES@[2].0@ == "Up"@);
        assert("Up"@ =~= keys::prefix_of(0) + "Up"@);
        lemma_spelled("Up"@, 0, 38);
        assert(DEFAULT_KEYBOARD@[row].2@ == ""@);
    } else if row == 19 {
        assert(DEFAULT_KEYBOARD@[row].1@ == "Down"@);
        keys::lemma_named_key_is_spelled(3);
        assert(keys::KEY_NAMES@[3].0@ == "Down"@);
        assert("Down"@ =~= keys::prefix_of(0) + "Down"@);
        lemma_spelled("Down"@, 0, 40);
        assert(DEFAULT_KEYBOARD@[row].2@ == ""@);
    } else if row == 20 {
        assert(DEFAULT_KEYBOARD@[row].1@ == "Enter"@);
        keys::lemma_named_key_is_spelled(13);
        assert(keys::KEY_NAMES@[13].0@ == "Enter"@);
        assert("Enter"@ =~= keys::prefix_of(0) + "Enter"@);
        lemma_spelled("Enter"@, 0, 13);
        assert(DEFAULT_KEYBOARD@[row].2@ == ""@);
    } else if row == 21 {
        assert(DEFAULT_KEYBOARD@[row].1@ == "Ctrl+Up"@);
        keys::lemma_named_key_is_spelled(2);
        assert(keys::KEY_NAMES@[2].0@ == "Up"@);
        reveal_strlit("Ctrl+Up");
        reveal_strlit("Up");
        assert("Ctrl+Up"@ =~= keys::prefix_of(1) + "Up"@);
        lemma_spelled("Ctrl+Up"@, 1, 38);
        assert(DEFAULT_KEYBOARD@[row].2@ == ""@);
    } else if row == 22 {
        assert(DEFAULT_KEYBOARD@[row].1@ == "Ctrl+Down"@);
        keys::lemma_named_key_is_spelled(3);
        assert(keys::KEY_NAMES@[3].0@ == "Down"@);
        reveal_strlit("Ctrl+Down");
        reveal_strlit("Down");
        assert("Ctrl+Down"@ =~= keys::prefix_of(1) + "Down"@);
        lemma_spelled("Ctrl+Down"@, 1, 40);
        assert(DEFAULT_KEYBOARD@[row].2@ == ""@);
    } else if row == 23 {
        assert(DEFAULT_KEYBOARD@[row].1@ == "Ctrl+Left"@);
        keys::lemma_named_key_is_spelled(0);
        assert(keys::KEY_NAMES@[0].0@ == "Left"@);
        reveal_strlit("Ctrl+Left");
        reveal_strlit("Left");
        assert("Ctrl+Left"@ =~= keys::prefix_of(1) + "Left"@);
        lemma_spelled("Ctrl+Left"@, 1, 37);
        assert(DEFAULT_KEYBOARD@[row].2@ == ""@);
    } else if row == 24 {
        assert(DEFAULT_KEYBOARD@[row].1@ == "Ctrl+Right"@);
        keys::lemma_named_key_is_spelled(1);
        assert(keys::KEY_NAMES@[1].0@ == "Right"@);
        reveal_strlit("Ctrl+Right");
        reveal_strlit("Right");
        assert("Ctrl+Right"@ =~= keys::prefix_of(1) + "Right"@);
        lemma_spelled("Ctrl+Right"@, 1, 39);
        assert(DEFAULT_KEYBOARD@[row].2@ == ""@);
    }
}

/// The sequences of the rows from 25 to 37.
proof fn lemma_turning_rows_spell_themselves(row: int)
    requires
        25 <= row < 38,
    ensures
        spells_itself(DEFAULT_KEYBOARD@[row].1@),
        DEFAULT_KEYBOARD@[row].2@.len() == 0 || spells_itself(DEFAULT_KEYBOARD@[row].2@),
{
    keys::lemma_control_and_shift_prefixes();
    reveal_strlit("");
    if row == 25 {
        assert(DEFAULT_KEYBOARD@[row].1@ == "Shift+Left"@);
        keys::lemma_named_key_is_spelled(0);
        assert(keys::KEY_NAMES@[0].0@ == "Left"@);
        reveal_strlit("Shift+Left");
        reveal_strlit("Left");
        assert("Shift+Left"@ =~= keys::prefix_of(2) + "Left"@);
        lemma_spelled("Shift+Left"@, 2, 37);
        assert(DEFAULT_KEYBOARD@[row].2@ == ""@);
    } else if row == 26 {
        assert(DEFAULT_KEYBOARD@[row].1@ == "Shift+Right"@);
        keys::lemma_named_key_is_spelled(1);
        assert(keys::KEY_NAMES@[1].0@ == "Right"@);
        reveal_strlit("Shift+Right");
        reveal_strlit("Right");
        assert("Shift+Right"@ =~= keys::prefix_of(2) + "Right"@);
        lemma_spelled("Shift+Right"@, 2, 39);
        assert(DEFAULT_KEYBOARD@[row].2@ == ""@);
    } else if row == 27 {
        assert(DEFAULT_KEYBOARD@[row].1@ == "Shift+M"@);
        reveal_strlit("Shift+M");
        assert("Shift+M"@ =~= keys::prefix_of(2) + seq!['M']);
        lemma_spelled("Shift+M"@, 2, 77);
        assert(DEFAULT_KEYBOARD@[row].2@ == ""@);
    } else if row == 28 {
        assert(DEFAULT_KEYBOARD@[row].1@ == "Shift+F"@);
        reveal_strlit("Shift+F");
        assert("Shift+F"@ =~= keys::prefix_of(2) + seq!['F']);
        lemma_spelled("Shift+F"@, 2, 70);
        assert(DEFAULT_KEYBOARD@[row].2@ == ""@);
    } else if row == 29 {
        assert(DEFAULT_KEYBOARD@[row].1@ == "Ctrl+E"@);
        reveal_strlit("Ctrl+E");
        assert("Ctrl+E"@ =~= keys::prefix_of(1) + seq!['E']);
        lemma_spelled("Ctrl+E"@, 1, 69);
        assert(DEFAULT_KEYBOARD@[row].2@ == ""@);
    } else if row == 30 {
        assert(DEFAULT_KEYBOARD@[row].1@ == "R"@);
        reveal_strlit("R");
        assert("R"@ =~= keys::prefix_of(0) + seq!['R']);
        lemma_spelled("R"@, 0, 82);
        assert(DEFAULT_KEYBOARD@[row].2@ == "F2"@);
        reveal_strlit("F2");
        assert("F2"@ =~= keys::prefix_of(0) + (seq!['F'] + keys::short_decimal(2)));
        lemma_spelled("F2"@, 0, 113);
    } else if row == 31 {
        assert(DEFAULT_KEYBOARD@[row].1@ == "Delete"@);
        keys::lemma_named_key_is_spelled(10);
        assert(keys::KEY_NAMES@[10].0@ == "Delete"@);
        assert("Delete"@ =~= keys::prefix_of(0) + "Delete"@);
        lemma_spelled("Delete"@, 0, 46);
        assert(DEFAULT_KEYBOARD@[row].2@ == "Ctrl+D"@);
        reveal_strlit("Ctrl+D");
        assert("Ctrl+D"@ =~= keys::prefix_of(1) + seq!['D']);
        lemma_spelled("Ctrl+D"@, 1, 68);
    } else if row == 32 {
        assert(DEFAULT_KEYBOARD@[row].1@ == "Shift+Delete"@);
        keys::lemma_named_key_is_spelled(10);
        assert(keys::KEY_NAMES@[10].0@ == "Delete"@);
        reveal_strlit("Shift+Delete");
        reveal_strlit("Delete");
        assert("Shift+Delete"@ =~= keys::prefix_of(2) + "Delete"@);
        lemma_spelled("Shift+Delete"@, 2, 46);
        assert(DEFAULT_KEYBOARD@[row].2@ == "Ctrl+Shift+D"@);
        reveal_strlit("Ctrl+Shift+D");
        assert("Ctrl+Shift+D"@ =~= keys::prefix_of(3) + seq!['D']);
        lemma_spelled("Ctrl+Shift+D"@, 3, 68);
    } else if row == 33 {
        assert(DEFAULT_KEYBOARD@[row].1@ == "S"@);
        reveal_strlit("S");
        assert("S"@ =~= keys::prefix_of(0) + seq!['S']);
        lemma_spelled("S"@, 0, 83);
        assert(DEFAULT_KEYBOARD@[row].2@ == ""@);
    } else if row == 34 {
        assert(DEFAULT_KEYBOARD@[row].1@ == "Ctrl+,"@);
        keys::lemma_named_key_is_spelled(17);
        assert(keys::KEY_NAMES@[17].0@ == ","@);
        reveal_strlit("Ctrl+,");
        reveal_strlit(",");
        assert("Ctrl+,"@ =~= keys::prefix_of(1) + ","@);
        lemma_spelled("Ctrl+,"@, 1, 188);
        assert(DEFAULT_KEYBOARD@[row].2@ == ""@);
    } else if row == 35 {
        assert(DEFAULT_KEYBOARD@[row].1@ == "T"@);
        reveal_strlit("T");
        assert("T"@ =~= keys::prefix_of(0) + seq!['T']);
        lemma_spelled("T"@, 0, 84);
        assert(DEFAULT_KEYBOARD@[row].2@ == ""@);
    } else if row == 36 {
        assert(DEFAULT_KEYBOARD@[row].1@ == "F"@);
        reveal_strlit("F");
        assert("F"@ =~= keys::prefix_of(0) + seq!['F']);
        lemma_spelled("F"@, 0, 70);
        assert(DEFAULT_KEYBOARD@[row].2@ == "F11"@);
        reveal_strlit("F11");
        assert("F11"@ =~= keys::prefix_of(0) + (seq!['F'] + keys::short_decimal(11)));
        lemma_spelled("F11"@, 0, 122);
    } else if row == 37 {
        assert(DEFAULT_KEYBOARD@[row].1@ == "Ctrl+W"@);
        reveal_strlit("Ctrl+W");
        assert("Ctrl+W"@ =~= keys::prefix_of(1) + seq!['W']);
        lemma_spelled("Ctrl+W"@, 1, 87);
        assert(DEFAULT_KEYBOARD@[row].2@ == ""@);
    }
}

proof fn lemma_mouse_rows_spell_themselves(row: int)
    requires
        0 <= row < DEFAULT_MOUSE@.len(),
    ensures
        encodes_itself(DEFAULT_MOUSE@[row].1@),
{
    keys::lemma_control_and_shift_prefixes();
    if row == 0 {
        assert(DEFAULT_MOUSE@[row].1@ == "WheelUp"@);
        assert("WheelUp"@ =~= keys::mouse_text(0, MouseBase::WheelUp));
        keys::lemma_mouse_round_trip(0, MouseBase::WheelUp);
    } else if row == 1 {
        assert(DEFAULT_MOUSE@[row].1@ == "WheelDown"@);
        assert("WheelDown"@ =~= keys::mouse_text(0, MouseBase::WheelDown));
        keys::lemma_mouse_round_trip(0, MouseBase::WheelDown);
    } else if row == 2 {
        assert(DEFAULT_MOUSE@[row].1@ == "Ctrl+WheelUp"@);
        reveal_strlit("Ctrl+WheelUp");
        reveal_strlit("WheelUp");
        assert("Ctrl+WheelUp"@ =~= keys::mouse_text(1, MouseBase::WheelUp));
        keys::lemma_mouse_round_trip(1, MouseBase::WheelUp);
    } else if row == 3 {
        assert(DEFAULT_MOUSE@[row].1@ == "Ctrl+WheelDown"@);
        reveal_strlit("Ctrl+WheelDown");
        reveal_strlit("WheelDown");
        assert("Ctrl+WheelDown"@ =~= keys::mouse_text(1, MouseBase::WheelDown));
        keys::lemma_mouse_round_trip(1, MouseBase::WheelDown);
    } else if row == 4 {
        assert(DEFAULT_MOUSE@[row].1@ == "Double-click"@);
        assert("Double-click"@ =~= keys::mouse_text(0, MouseBase::DoubleClick));
        keys::lemma_mouse_round_trip(0, MouseBase::DoubleClick);
    } else if row == 5 {
        assert(DEFAULT_MOUSE@[row].1@ == "WheelButton"@);
        assert("WheelButton"@ =~= keys::mouse_text(0, MouseBase::WheelButton));
        keys::lemma_mouse_round_trip(0, MouseBase::WheelButton);
    }
}

/// What is listed under a name is a row of that name, and what is not listed has none.
proof fn lemma_listed_row(defaults: Seq<(Seq<char>, Seq<Seq<char>>)>, name: Seq<char>, from: int)
    requires
        0 <= from <= defaults.len(),
    ensures
        match listed_from(defaults, name, from) {
            Some(texts) => exists|row: int|
                from <= row < defaults.len() && (#[trigger] defaults[row]).0 == name && defaults[row].1
                    == texts,
            None => forall|row: int|
                from <= row < defaults.len() ==> (#[trigger] defaults[row]).0 != name,
        },
    decreases defaults.len() - from,
{
    if from < defaults.len() && defaults[from].0 != name {
        lemma_listed_row(defaults, name, from + 1);
    }
}

/// Every default key sequence is read and spelled again as itself, an action keeps all of its defaults,
/// and a name that the table does not list has none.
pub proof fn lemma_default_sequences_spell_themselves(name: Seq<char>)
    ensures
        default_for(keyboard_defaults(), name).len() <= MAXIMUM_KEYBOARD_SEQUENCES,
        default_for(keyboard_defaults(), name).len() > 0 <==> listed_names(
            keyboard_defaults(),
        ).contains(name),
        forall|index: int|
            0 <= index < default_for(keyboard_defaults(), name).len() ==> spells_itself(
                #[trigger] default_for(keyboard_defaults(), name)[index],
            ),
{
    let defaults = keyboard_defaults();
    lemma_listed_row(defaults, name, 0);
    if listed_from(defaults, name, 0) is Some {
        let texts = default_for(defaults, name);
        let row = choose|row: int|
            0 <= row < defaults.len() && (#[trigger] defaults[row]).0 == name && defaults[row].1
                == texts;
        assert(texts == row_sequences(DEFAULT_KEYBOARD@[row]));
        assert(listed_names(defaults)[row] == name);
        if row < 14 {
            lemma_file_rows_spell_themselves(row);
        } else if row < 25 {
            lemma_view_rows_spell_themselves(row);
        } else {
            lemma_turning_rows_spell_themselves(row);
        }
    } else {
        assert(!listed_names(defaults).contains(name));
    }
}

/// Every default mouse encoding is read and spelled again as itself, an action keeps all of its defaults,
/// and a name that the table does not list has none.
pub proof fn lemma_default_encodings_spell_themselves(name: Seq<char>)
    ensures
        default_for(mouse_defaults(), name).len() <= MAXIMUM_MOUSE_ENCODINGS,
        default_for(mouse_defaults(), name).len() > 0 <==> listed_names(mouse_defaults()).contains(
            name,
        ),
        forall|index: int|
            0 <= index < default_for(mouse_defaults(), name).len() ==> encodes_itself(
                #[trigger] default_for(mouse_defaults(), name)[index],
            ),
{
    let defaults = mouse_defaults();
    lemma_listed_row(defaults, name, 0);
    if listed_from(defaults, name, 0) is Some {
        let texts = default_for(defaults, name);
        let row = choose|row: int|
            0 <= row < defaults.len() && (#[trigger] defaults[row]).0 == name && defaults[row].1
                == texts;
        assert(texts == seq![DEFAULT_MOUSE@[row].1@]);
        assert(listed_names(defaults)[row] == name);
        lemma_mouse_rows_spell_themselves(row);
    } else {
        assert(!listed_names(defaults).contains(name));
    }
}

} // verus!
