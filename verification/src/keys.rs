//! Keyboard and mouse shortcuts as text: one list of modifiers, named keys and mouse inputs, read in
//! both directions.

use vstd::prelude::*;

use crate::strings;
use crate::strings::{characters_of, same_text};

verus! {

pub const MODIFIER_CONTROL: u8 = 1;

pub const MODIFIER_SHIFT: u8 = 2;

pub const MODIFIER_ALT: u8 = 4;

pub const MODIFIER_META: u8 = 8;

/// Modifier tokens in prefix order; the parsers and the formatter read this one list.
pub const MODIFIER_NAMES: [(u8, &'static str); 4] = [
    (1, "Ctrl"),
    (2, "Shift"),
    (4, "Alt"),
    (8, "Meta"),
];

/// The escape key's code.
pub const ESCAPE_KEY: u16 = 27;

/// The code of the first function key; the others follow it.
pub const FIRST_FUNCTION_KEY: u16 = 112;

/// The code of the last function key.
pub const LAST_FUNCTION_KEY: u16 = 135;

/// Named keys, both directions; a one-sided edit would break the parser round trip.
pub const KEY_NAMES: [(&'static str, u16); 26] = [
    ("Left", 37),
    ("Right", 39),
    ("Up", 38),
    ("Down", 40),
    ("Home", 36),
    ("End", 35),
    ("Page Up", 33),
    ("Page Down", 34),
    ("spacebar", 32),
    ("Backspace", 8),
    ("Delete", 46),
    ("Insert", 45),
    ("Esc", 27),
    ("Enter", 13),
    ("Tab", 9),
    ("=", 187),
    ("-", 189),
    (",", 188),
    (".", 190),
    (";", 186),
    ("/", 191),
    ("`", 192),
    ("[", 219),
    ("\\", 220),
    ("]", 221),
    ("'", 222),
];

/// The modifier a token names, looked for from a row on.
pub open spec fn modifier_named_from(token: Seq<char>, row: int) -> Option<u8>
    decreases MODIFIER_NAMES@.len() - row,
{
    if row < 0 || row >= MODIFIER_NAMES@.len() {
        None
    } else if MODIFIER_NAMES@[row].1@ == token {
        Some(MODIFIER_NAMES@[row].0)
    } else {
        modifier_named_from(token, row + 1)
    }
}

/// The modifier a token names.
pub open spec fn modifier_named(token: Seq<char>) -> Option<u8> {
    modifier_named_from(token, 0)
}

fn modifier_from_token(token: &str) -> (modifier: Option<u8>)
    ensures
        modifier == modifier_named(token@),
{
    let mut row: usize = 0;
    while row < MODIFIER_NAMES.len()
        invariant
            row <= MODIFIER_NAMES@.len(),
            modifier_named(token@) == modifier_named_from(token@, row as int),
        decreases MODIFIER_NAMES@.len() - row,
    {
        if same_text(MODIFIER_NAMES[row].1, token) {
            return Some(MODIFIER_NAMES[row].0);
        }
        row += 1;
    }
    None
}

/// The modifiers held down; either Windows key is the meta key.
pub fn pressed_modifiers(
    control: bool,
    shift: bool,
    alt: bool,
    left_meta: bool,
    right_meta: bool,
) -> (modifiers: u8)
    ensures
        (modifiers & MODIFIER_CONTROL != 0) == control,
        (modifiers & MODIFIER_SHIFT != 0) == shift,
        (modifiers & MODIFIER_ALT != 0) == alt,
        (modifiers & MODIFIER_META != 0) == (left_meta || right_meta),
        modifiers < 16,
{
    let first: u8 = if control {
        1
    } else {
        0
    };
    let second: u8 = if shift {
        2
    } else {
        0
    };
    let third: u8 = if alt {
        4
    } else {
        0
    };
    let fourth: u8 = if left_meta || right_meta {
        8
    } else {
        0
    };
    let modifiers: u8 = first | second | third | fourth;
    assert((first == 0 || first == 1) && (second == 0 || second == 2) && (third == 0 || third == 4)
        && (fourth == 0 || fourth == 8) && modifiers == first | second | third | fourth ==> (
    modifiers & 1 == first && modifiers & 2 == second && modifiers & 4 == third && modifiers & 8
        == fourth && modifiers < 16)) by (bit_vector);
    modifiers
}

/// What a mouse shortcut starts from.
#[derive(Clone, Copy, PartialEq, Eq, Structural, Debug)]
pub enum MouseBase {
    DoubleClick,
    WheelButton,
    Back,
    Forward,
    WheelUp,
    WheelDown,
}

impl MouseBase {
    pub open spec fn at(index: int) -> Option<MouseBase> {
        if index == 0 {
            Some(MouseBase::DoubleClick)
        } else if index == 1 {
            Some(MouseBase::WheelButton)
        } else if index == 2 {
            Some(MouseBase::Back)
        } else if index == 3 {
            Some(MouseBase::Forward)
        } else if index == 4 {
            Some(MouseBase::WheelUp)
        } else if index == 5 {
            Some(MouseBase::WheelDown)
        } else {
            None
        }
    }

    pub open spec fn place(self) -> int {
        match self {
            MouseBase::DoubleClick => 0,
            MouseBase::WheelButton => 1,
            MouseBase::Back => 2,
            MouseBase::Forward => 3,
            MouseBase::WheelUp => 4,
            MouseBase::WheelDown => 5,
        }
    }

    /// The encoding token.
    pub open spec fn token(self) -> Seq<char> {
        match self {
            MouseBase::DoubleClick => "Double-click"@,
            MouseBase::WheelButton => "WheelButton"@,
            MouseBase::Back => "Back"@,
            MouseBase::Forward => "Forward"@,
            MouseBase::WheelUp => "WheelUp"@,
            MouseBase::WheelDown => "WheelDown"@,
        }
    }

    /// Recovers a base sent as its index; the capture dialog packs one into a message.
    pub fn from_index(index: u8) -> (base: Option<MouseBase>)
        ensures
            base == MouseBase::at(index as int),
    {
        match index {
            0 => Some(MouseBase::DoubleClick),
            1 => Some(MouseBase::WheelButton),
            2 => Some(MouseBase::Back),
            3 => Some(MouseBase::Forward),
            4 => Some(MouseBase::WheelUp),
            5 => Some(MouseBase::WheelDown),
            _ => None,
        }
    }

    pub fn index(self) -> (index: u8)
        ensures
            index == self.place(),
    {
        match self {
            MouseBase::DoubleClick => 0,
            MouseBase::WheelButton => 1,
            MouseBase::Back => 2,
            MouseBase::Forward => 3,
            MouseBase::WheelUp => 4,
            MouseBase::WheelDown => 5,
        }
    }

    fn name(self) -> (name: &'static str)
        ensures
            name@ == self.token(),
    {
        match self {
            MouseBase::DoubleClick => "Double-click",
            MouseBase::WheelButton => "WheelButton",
            MouseBase::Back => "Back",
            MouseBase::Forward => "Forward",
            MouseBase::WheelUp => "WheelUp",
            MouseBase::WheelDown => "WheelDown",
        }
    }

    fn from_name(name: &str) -> (base: Option<MouseBase>)
        ensures
            base == mouse_named(name@),
    {
        let mut index: u8 = 0;
        while index < 6
            invariant
                index <= 6,
                mouse_named(name@) == mouse_named_from(name@, index as int),
            decreases 6 - index,
        {
            match MouseBase::from_index(index) {
                Some(base) => {
                    if same_text(base.name(), name) {
                        return Some(base);
                    }
                },
                None => {},
            }
            index += 1;
        }
        None
    }

    /// Wheel messages carry the direction in the sign of their delta.
    pub fn from_wheel_delta(delta: i16) -> (base: MouseBase)
        ensures
            base == (if delta > 0 {
                MouseBase::WheelUp
            } else {
                MouseBase::WheelDown
            }),
    {
        if delta > 0 {
            MouseBase::WheelUp
        } else {
            MouseBase::WheelDown
        }
    }

    /// The high word of an X button message names which of the two was pressed: the second sets its
    /// second bit.
    pub fn from_xbutton_flags(flags: u16) -> (base: MouseBase)
        ensures
            base == (if flags & 2 != 0 {
                MouseBase::Forward
            } else {
                MouseBase::Back
            }),
    {
        if flags & 2 != 0 {
            MouseBase::Forward
        } else {
            MouseBase::Back
        }
    }
}

/// The mouse base a token names, looked for from an index on.
pub open spec fn mouse_named_from(token: Seq<char>, index: int) -> Option<MouseBase>
    decreases 6 - index,
{
    match MouseBase::at(index) {
        Some(base) => if base.token() == token {
            Some(base)
        } else {
            mouse_named_from(token, index + 1)
        },
        None => None,
    }
}

/// The mouse base a token names.
pub open spec fn mouse_named(token: Seq<char>) -> Option<MouseBase> {
    mouse_named_from(token, 0)
}

/// A base comes back from its index, and no index stands for another base.
pub proof fn lemma_mouse_index_round_trip(base: MouseBase, index: int)
    ensures
        MouseBase::at(base.place()) == Some(base),
        MouseBase::at(index) matches Some(found) ==> found.place() == index,
{
}

/// The parts of a text between plus signs; a text without one is one part.
pub open spec fn tokens(text: Seq<char>) -> Seq<Seq<char>>
    decreases text.len(),
{
    if text.len() == 0 {
        seq![Seq::<char>::empty()]
    } else {
        let before = tokens(text.drop_last());
        if text.last() == '+' {
            before.push(Seq::empty())
        } else {
            before.drop_last().push(before.last().push(text.last()))
        }
    }
}

fn split_tokens(text: &str) -> (parts: Vec<String>)
    ensures
        strings::spellings(parts@) == tokens(text@),
{
    let characters = characters_of(text);
    let mut parts: Vec<String> = Vec::new();
    let mut part = String::new();
    let mut index: usize = 0;
    assert(text@.take(0) =~= Seq::empty());
    assert(strings::spellings(parts@).push(part@) =~= seq![Seq::<char>::empty()]);
    while index < characters.len()
        invariant
            characters@ == text@,
            index <= characters.len(),
            tokens(text@.take(index as int)) == strings::spellings(parts@).push(part@),
        decreases characters.len() - index,
    {
        let character = characters[index];
        let ghost before = strings::spellings(parts@);
        let ghost current = part@;
        assert(text@.take(index + 1).drop_last() =~= text@.take(index as int));
        assert(before.push(current).drop_last() =~= before);
        if character == '+' {
            parts.push(part);
            part = String::new();
            assert(strings::spellings(parts@) =~= before.push(current));
        } else {
            part.push(character);
        }
        index += 1;
    }
    assert(text@.take(index as int) =~= text@);
    let ghost before = strings::spellings(parts@);
    let ghost current = part@;
    parts.push(part);
    assert(strings::spellings(parts@) =~= before.push(current));
    parts
}

pub open spec fn is_digit(character: char) -> bool {
    '0' <= character <= '9'
}

/// The value of a row of digits.
pub open spec fn decimal_value(digits: Seq<char>) -> int
    decreases digits.len(),
{
    if digits.len() == 0 {
        0
    } else {
        decimal_value(digits.drop_last()) * 10 + (digits.last() as int - '0' as int)
    }
}

/// The number of a function key's name, where it is one.
pub open spec fn function_number(name: Seq<char>) -> Option<int> {
    if name.len() >= 2 && name[0] == 'F' && (forall|index: int|
        1 <= index < name.len() ==> is_digit(#[trigger] name[index])) && 1 <= decimal_value(
        name.skip(1),
    ) <= 24 {
        Some(decimal_value(name.skip(1)))
    } else {
        None
    }
}

proof fn lemma_decimal_value_is_nonnegative(digits: Seq<char>)
    requires
        forall|index: int| 0 <= index < digits.len() ==> is_digit(#[trigger] digits[index]),
    ensures
        decimal_value(digits) >= 0,
    decreases digits.len(),
{
    if digits.len() > 0 {
        assert forall|index: int| 0 <= index < digits.drop_last().len() implies is_digit(
            #[trigger] digits.drop_last()[index],
        ) by {
            assert(is_digit(digits[index]));
        }
        lemma_decimal_value_is_nonnegative(digits.drop_last());
        assert(is_digit(digits[digits.len() - 1]));
    }
}

fn function_key_number(name: &Vec<char>) -> (number: Option<u16>)
    ensures
        match number {
            Some(found) => function_number(name@) == Some(found as int),
            None => function_number(name@) is None,
        },
{
    if name.len() < 2 || name[0] != 'F' {
        return None;
    }
    let ghost digits = name@.skip(1);
    let mut value: u16 = 0;
    let mut index: usize = 1;
    while index < name.len()
        invariant
            digits == name@.skip(1),
            1 <= index <= name.len(),
            forall|earlier: int| 1 <= earlier < index ==> is_digit(#[trigger] name@[earlier]),
            value <= 24 ==> decimal_value(digits.take(index - 1)) == value,
            value > 24 ==> decimal_value(digits.take(index - 1)) > 24,
            decimal_value(digits.take(index - 1)) >= 0,
        decreases name.len() - index,
    {
        let character = name[index];
        if !('0' <= character && character <= '9') {
            assert(!is_digit(name@[index as int]));
            return None;
        }
        assert(digits.take(index as int).drop_last() =~= digits.take(index - 1));
        assert(digits.take(index as int).last() == character);
        if value <= 24 {
            value = value * 10 + (character as u32 - 48) as u16;
        }
        index += 1;
    }
    assert(digits.take(index - 1) =~= digits);
    if 1 <= value && value <= 24 {
        Some(value)
    } else {
        None
    }
}

pub open spec fn is_alphanumeric(character: char) -> bool {
    is_digit(character) || 'A' <= character <= 'Z' || 'a' <= character <= 'z'
}

/// The code of a letter's or digit's key: the character in upper case.
pub open spec fn character_key(character: char) -> u16 {
    if 'a' <= character <= 'z' {
        (character as int - 32) as u16
    } else {
        character as u16
    }
}

/// The code of a named key, looked for from a row on.
pub open spec fn key_in_table_from(name: Seq<char>, row: int) -> Option<u16>
    decreases KEY_NAMES@.len() - row,
{
    if row < 0 || row >= KEY_NAMES@.len() {
        None
    } else if KEY_NAMES@[row].0@ == name {
        Some(KEY_NAMES@[row].1)
    } else {
        key_in_table_from(name, row + 1)
    }
}

/// The code of the key a token names: a letter or digit, a function key, or a named key.
pub open spec fn virtual_key_named(name: Seq<char>) -> Option<u16> {
    if name.len() == 1 && is_alphanumeric(name[0]) {
        Some(character_key(name[0]))
    } else {
        match function_number(name) {
            Some(number) => Some((FIRST_FUNCTION_KEY + number - 1) as u16),
            None => key_in_table_from(name, 0),
        }
    }
}

fn virtual_key_from_name(name: &str) -> (key: Option<u16>)
    ensures
        key == virtual_key_named(name@),
{
    let characters = characters_of(name);
    if characters.len() == 1 {
        let character = characters[0];
        if 'a' <= character && character <= 'z' {
            return Some((character as u32 - 32) as u16);
        }
        if '0' <= character && character <= '9' || 'A' <= character && character <= 'Z' {
            return Some((character as u32) as u16);
        }
    }
    match function_key_number(&characters) {
        Some(number) => {
            return Some(FIRST_FUNCTION_KEY + number - 1);
        },
        None => {},
    }
    let mut row: usize = 0;
    while row < KEY_NAMES.len()
        invariant
            row <= KEY_NAMES@.len(),
            virtual_key_named(name@) == key_in_table_from(name@, row as int),
        decreases KEY_NAMES@.len() - row,
    {
        if same_text(KEY_NAMES[row].0, name) {
            return Some(KEY_NAMES[row].1);
        }
        row += 1;
    }
    None
}

/// A number of one or two digits as text.
pub open spec fn short_decimal(number: int) -> Seq<char> {
    if number < 10 {
        seq![('0' as int + number) as char]
    } else {
        seq![('0' as int + number / 10) as char, ('0' as int + number % 10) as char]
    }
}

/// The name of the key with this code, looked for from a row on.
pub open spec fn name_in_table_from(key: u16, row: int) -> Option<Seq<char>>
    decreases KEY_NAMES@.len() - row,
{
    if row < 0 || row >= KEY_NAMES@.len() {
        None
    } else if KEY_NAMES@[row].1 == key {
        Some(KEY_NAMES@[row].0@)
    } else {
        name_in_table_from(key, row + 1)
    }
}

/// The name of a key; none for keys no token names.
pub open spec fn key_name(key: u16) -> Option<Seq<char>> {
    if '0' as u16 <= key <= '9' as u16 || 'A' as u16 <= key <= 'Z' as u16 {
        Some(seq![key as char])
    } else if FIRST_FUNCTION_KEY <= key <= LAST_FUNCTION_KEY {
        Some(seq!['F'] + short_decimal(key - FIRST_FUNCTION_KEY + 1))
    } else {
        name_in_table_from(key, 0)
    }
}

/// Appends the character with this value.
fn push_code(text: &mut String, code: u32)
    requires
        code < 0x80,
    ensures
        final(text)@ == old(text)@.push(code as char),
{
    match char::from_u32(code) {
        Some(character) => text.push(character),
        None => {},
    }
}

fn key_name_from_virtual_key(key: u16) -> (name: Option<String>)
    ensures
        match name {
            Some(found) => key_name(key) == Some(found@),
            None => key_name(key) is None,
        },
{
    if 48 <= key && key <= 57 || 65 <= key && key <= 90 {
        let mut name = String::new();
        push_code(&mut name, key as u32);
        assert(name@ =~= seq![key as char]);
        return Some(name);
    }
    if FIRST_FUNCTION_KEY <= key && key <= LAST_FUNCTION_KEY {
        let number: u16 = key - FIRST_FUNCTION_KEY + 1;
        let mut name = String::new();
        name.push('F');
        if number < 10 {
            push_code(&mut name, 48 + number as u32);
        } else {
            push_code(&mut name, 48 + (number / 10) as u32);
            push_code(&mut name, 48 + (number % 10) as u32);
        }
        assert(name@ =~= seq!['F'] + short_decimal(number as int));
        return Some(name);
    }
    let mut row: usize = 0;
    while row < KEY_NAMES.len()
        invariant
            row <= KEY_NAMES@.len(),
            name_in_table_from(key, 0) == name_in_table_from(key, row as int),
        decreases KEY_NAMES@.len() - row,
    {
        if KEY_NAMES[row].1 == key {
            return Some(KEY_NAMES[row].0.to_owned());
        }
        row += 1;
    }
    None
}

/// What the parts of a key sequence add up to: the modifiers, and the key of the last part that names
/// none.
pub open spec fn key_of_tokens(parts: Seq<Seq<char>>) -> (u8, Option<u16>)
    decreases parts.len(),
{
    if parts.len() == 0 {
        (0u8, None)
    } else {
        let (modifiers, key) = key_of_tokens(parts.drop_last());
        match modifier_named(parts.last()) {
            Some(modifier) => (modifiers | modifier, key),
            None => (modifiers, virtual_key_named(parts.last())),
        }
    }
}

/// The shortcut a key sequence spells.
pub open spec fn parsed_key(sequence: Seq<char>) -> Option<(u8, u16)> {
    match key_of_tokens(tokens(sequence)) {
        (modifiers, Some(key)) => Some((modifiers, key)),
        _ => None,
    }
}

pub fn parse_key_sequence(sequence: &str) -> (shortcut: Option<(u8, u16)>)
    ensures
        shortcut == parsed_key(sequence@),
{
    let parts = split_tokens(sequence);
    let ghost models = strings::spellings(parts@);
    let mut modifiers: u8 = 0;
    let mut key: Option<u16> = None;
    let mut index: usize = 0;
    assert(models.take(0) =~= Seq::empty());
    while index < parts.len()
        invariant
            models == strings::spellings(parts@),
            index <= parts.len(),
            key_of_tokens(models.take(index as int)) == (modifiers, key),
        decreases parts.len() - index,
    {
        assert(models.take(index + 1).drop_last() =~= models.take(index as int));
        assert(models[index as int] == parts@[index as int]@);
        match modifier_from_token(parts[index].as_str()) {
            Some(modifier) => {
                modifiers = modifiers | modifier;
            },
            None => {
                key = virtual_key_from_name(parts[index].as_str());
            },
        }
        index += 1;
    }
    assert(models.take(index as int) =~= models);
    match key {
        Some(found) => Some((modifiers, found)),
        None => None,
    }
}

/// What the parts of a mouse encoding add up to; nothing once a part names neither a modifier nor a
/// mouse base.
pub open spec fn mouse_of_tokens(parts: Seq<Seq<char>>) -> Option<(u8, Option<MouseBase>)>
    decreases parts.len(),
{
    if parts.len() == 0 {
        Some((0u8, None))
    } else {
        match mouse_of_tokens(parts.drop_last()) {
            Some((modifiers, base)) => match modifier_named(parts.last()) {
                Some(modifier) => Some((modifiers | modifier, base)),
                None => match mouse_named(parts.last()) {
                    Some(found) => Some((modifiers, Some(found))),
                    None => None,
                },
            },
            None => None,
        }
    }
}

/// The shortcut a mouse encoding spells.
pub open spec fn parsed_mouse(encoding: Seq<char>) -> Option<(u8, MouseBase)> {
    match mouse_of_tokens(tokens(encoding)) {
        Some((modifiers, Some(base))) => Some((modifiers, base)),
        _ => None,
    }
}

proof fn lemma_nameless_part_spoils_the_encoding(parts: Seq<Seq<char>>, count: int)
    requires
        0 <= count <= parts.len(),
        mouse_of_tokens(parts.take(count)) is None,
    ensures
        mouse_of_tokens(parts) is None,
    decreases parts.len() - count,
{
    if count == parts.len() {
        assert(parts.take(count) =~= parts);
    } else {
        assert(parts.take(count + 1).drop_last() =~= parts.take(count));
        lemma_nameless_part_spoils_the_encoding(parts, count + 1);
    }
}

pub fn parse_mouse_encoding(encoding: &str) -> (shortcut: Option<(u8, MouseBase)>)
    ensures
        shortcut == parsed_mouse(encoding@),
{
    let parts = split_tokens(encoding);
    let ghost models = strings::spellings(parts@);
    let mut modifiers: u8 = 0;
    let mut base: Option<MouseBase> = None;
    let mut index: usize = 0;
    assert(models.take(0) =~= Seq::empty());
    while index < parts.len()
        invariant
            models == strings::spellings(parts@),
            models == tokens(encoding@),
            index <= parts.len(),
            mouse_of_tokens(models.take(index as int)) == Some((modifiers, base)),
        decreases parts.len() - index,
    {
        assert(models.take(index + 1).drop_last() =~= models.take(index as int));
        assert(models[index as int] == parts@[index as int]@);
        match modifier_from_token(parts[index].as_str()) {
            Some(modifier) => {
                modifiers = modifiers | modifier;
            },
            None => {
                match MouseBase::from_name(parts[index].as_str()) {
                    Some(found) => {
                        base = Some(found);
                    },
                    None => {
                        proof {
                            lemma_nameless_part_spoils_the_encoding(models, index + 1);
                        }
                        return None;
                    },
                }
            },
        }
        index += 1;
    }
    assert(models.take(index as int) =~= models);
    match base {
        Some(found) => Some((modifiers, found)),
        None => None,
    }
}

/// The prefix that the first modifiers of the list make.
pub open spec fn prefix_upto(modifiers: u8, count: int) -> Seq<char>
    decreases count,
{
    if count <= 0 {
        Seq::empty()
    } else {
        let before = prefix_upto(modifiers, count - 1);
        if modifiers & MODIFIER_NAMES@[count - 1].0 != 0 {
            (before + MODIFIER_NAMES@[count - 1].1@).push('+')
        } else {
            before
        }
    }
}

/// The prefix of a shortcut: each of its modifiers with a plus sign, in the order of the list.
pub open spec fn prefix_of(modifiers: u8) -> Seq<char> {
    prefix_upto(modifiers, MODIFIER_NAMES@.len() as int)
}

pub fn modifier_prefix(modifiers: u8) -> (prefix: String)
    ensures
        prefix@ == prefix_of(modifiers),
{
    let mut prefix = String::new();
    let mut row: usize = 0;
    while row < MODIFIER_NAMES.len()
        invariant
            row <= MODIFIER_NAMES@.len(),
            prefix@ == prefix_upto(modifiers, row as int),
        decreases MODIFIER_NAMES@.len() - row,
    {
        if modifiers & MODIFIER_NAMES[row].0 != 0 {
            prefix.append(MODIFIER_NAMES[row].1);
            prefix.push('+');
        }
        row += 1;
    }
    prefix
}

/// The text of a key shortcut.
pub open spec fn key_text(modifiers: u8, key: u16) -> Option<Seq<char>> {
    match key_name(key) {
        Some(name) => Some(prefix_of(modifiers) + name),
        None => None,
    }
}

/// None for keys that cannot round-trip through the parser.
pub fn format_key_sequence(modifiers: u8, virtual_key: u16) -> (sequence: Option<String>)
    ensures
        match sequence {
            Some(found) => key_text(modifiers, virtual_key) == Some(found@),
            None => key_text(modifiers, virtual_key) is None,
        },
{
    match key_name_from_virtual_key(virtual_key) {
        Some(name) => {
            let mut sequence = modifier_prefix(modifiers);
            sequence.append(name.as_str());
            Some(sequence)
        },
        None => None,
    }
}

/// The text of a mouse shortcut.
pub open spec fn mouse_text(modifiers: u8, base: MouseBase) -> Seq<char> {
    prefix_of(modifiers) + base.token()
}

pub fn format_mouse_encoding(modifiers: u8, base: MouseBase) -> (encoding: String)
    ensures
        encoding@ == mouse_text(modifiers, base),
{
    let mut encoding = modifier_prefix(modifiers);
    encoding.append(base.name());
    encoding
}

proof fn lemma_some_token(text: Seq<char>)
    ensures
        tokens(text).len() > 0,
    decreases text.len(),
{
    if text.len() > 0 {
        lemma_some_token(text.drop_last());
    }
}

/// A text that holds no plus sign.
pub open spec fn plus_free(text: Seq<char>) -> bool {
    forall|index: int| 0 <= index < text.len() ==> #[trigger] text[index] != '+'
}

proof fn lemma_word_extends_the_last_token(text: Seq<char>, word: Seq<char>)
    requires
        plus_free(word),
    ensures
        tokens(text + word) == tokens(text).drop_last().push(tokens(text).last() + word),
    decreases word.len(),
{
    lemma_some_token(text);
    if word.len() == 0 {
        assert(text + word =~= text);
        assert(tokens(text).last() + word =~= tokens(text).last());
        assert(tokens(text) =~= tokens(text).drop_last().push(tokens(text).last()));
    } else {
        let shorter = word.drop_last();
        assert(plus_free(shorter)) by {
            assert forall|index: int| 0 <= index < shorter.len() implies #[trigger] shorter[index]
                != '+' by {
                assert(word[index] != '+');
            }
        }
        lemma_word_extends_the_last_token(text, shorter);
        assert((text + word).drop_last() =~= text + shorter);
        assert((text + word).last() == word.last());
        assert(word[word.len() - 1] != '+');
        let before = tokens(text + shorter);
        assert(before.drop_last() =~= tokens(text).drop_last());
        assert((tokens(text).last() + shorter).push(word.last()) =~= tokens(text).last() + word);
    }
}

proof fn lemma_modifier_names(row: int)
    requires
        0 <= row < MODIFIER_NAMES@.len(),
    ensures
        plus_free(MODIFIER_NAMES@[row].1@),
        modifier_named(MODIFIER_NAMES@[row].1@) == Some(MODIFIER_NAMES@[row].0),
{
    reveal_strlit("Ctrl");
    reveal_strlit("Shift");
    reveal_strlit("Alt");
    reveal_strlit("Meta");
    reveal_with_fuel(modifier_named_from, 5);
    assert("Ctrl"@.len() == 4 && "Shift"@.len() == 5 && "Alt"@.len() == 3);
    assert("Ctrl"@[0] == 'C' && "Meta"@[0] == 'M');
    if row == 0 {
        assert(MODIFIER_NAMES@[row].1@ == "Ctrl"@);
    } else if row == 1 {
        assert(MODIFIER_NAMES@[row].1@ == "Shift"@);
    } else if row == 2 {
        assert(MODIFIER_NAMES@[row].1@ == "Alt"@);
    } else {
        assert(MODIFIER_NAMES@[row].1@ == "Meta"@);
    }
}

/// A token that is no modifier's name by its length and first character.
proof fn lemma_no_modifier(token: Seq<char>)
    requires
        token.len() != 3 || token[0] != 'A',
        token.len() != 4 || token[0] != 'C' && token[0] != 'M',
        token.len() != 5 || token[0] != 'S',
    ensures
        modifier_named(token) is None,
{
    reveal_strlit("Ctrl");
    reveal_strlit("Shift");
    reveal_strlit("Alt");
    reveal_strlit("Meta");
    reveal_with_fuel(modifier_named_from, 5);
    assert("Ctrl"@.len() == 4 && "Shift"@.len() == 5 && "Alt"@.len() == 3 && "Meta"@.len() == 4);
    assert("Ctrl"@[0] == 'C' && "Meta"@[0] == 'M' && "Alt"@[0] == 'A' && "Shift"@[0] == 'S');
}

/// The bits the first modifiers of the list have.
spec fn bits_upto(modifiers: u8, count: int) -> u8
    decreases count,
{
    if count <= 0 {
        0
    } else {
        let before = bits_upto(modifiers, count - 1);
        if modifiers & MODIFIER_NAMES@[count - 1].0 != 0 {
            before | MODIFIER_NAMES@[count - 1].0
        } else {
            before
        }
    }
}

proof fn lemma_all_bits(modifiers: u8)
    requires
        modifiers < 16,
    ensures
        bits_upto(modifiers, 4) == modifiers,
{
    reveal_with_fuel(bits_upto, 5);
    let first: u8 = if modifiers & 1 != 0 {
        0u8 | 1u8
    } else {
        0
    };
    let second: u8 = if modifiers & 2 != 0 {
        first | 2u8
    } else {
        first
    };
    let third: u8 = if modifiers & 4 != 0 {
        second | 4u8
    } else {
        second
    };
    let fourth: u8 = if modifiers & 8 != 0 {
        third | 8u8
    } else {
        third
    };
    assert(MODIFIER_NAMES@[0].0 == 1 && MODIFIER_NAMES@[1].0 == 2 && MODIFIER_NAMES@[2].0 == 4
        && MODIFIER_NAMES@[3].0 == 8);
    assert(bits_upto(modifiers, 4) == fourth);
    assert(modifiers < 16 && first == (if modifiers & 1 != 0 {
        0u8 | 1u8
    } else {
        0u8
    }) && second == (if modifiers & 2 != 0 {
        first | 2u8
    } else {
        first
    }) && third == (if modifiers & 4 != 0 {
        second | 4u8
    } else {
        second
    }) && fourth == (if modifiers & 8 != 0 {
        third | 8u8
    } else {
        third
    }) ==> fourth == modifiers) by (bit_vector);
}

/// The parts before the last of a prefix are modifiers, and the last part is still empty.
proof fn lemma_prefix_parses(modifiers: u8, count: int)
    requires
        0 <= count <= MODIFIER_NAMES@.len(),
    ensures
        tokens(prefix_upto(modifiers, count)).len() > 0,
        tokens(prefix_upto(modifiers, count)).last() == Seq::<char>::empty(),
        key_of_tokens(tokens(prefix_upto(modifiers, count)).drop_last()) == (
            bits_upto(modifiers, count),
            None::<u16>,
        ),
        mouse_of_tokens(tokens(prefix_upto(modifiers, count)).drop_last()) == Some(
            (bits_upto(modifiers, count), None::<MouseBase>),
        ),
    decreases count,
{
    if count == 0 {
        assert(tokens(prefix_upto(modifiers, 0)) =~= seq![Seq::<char>::empty()]);
        assert(tokens(prefix_upto(modifiers, 0)).drop_last() =~= Seq::empty());
    } else {
        lemma_prefix_parses(modifiers, count - 1);
        let before = prefix_upto(modifiers, count - 1);
        let name = MODIFIER_NAMES@[count - 1].1@;
        if modifiers & MODIFIER_NAMES@[count - 1].0 != 0 {
            lemma_modifier_names(count - 1);
            lemma_word_extends_the_last_token(before, name);
            assert(Seq::<char>::empty() + name =~= name);
            let parts = tokens(before).drop_last().push(name);
            assert(tokens(before + name) =~= parts);
            let whole = (before + name).push('+');
            assert(whole.drop_last() =~= before + name);
            assert(tokens(whole) == parts.push(Seq::empty()));
            assert(tokens(whole).drop_last() =~= parts);
            assert(parts.drop_last() =~= tokens(before).drop_last());
        }
    }
}

/// A word behind a prefix is the last part of the shortcut.
proof fn lemma_word_behind_the_prefix(modifiers: u8, word: Seq<char>)
    requires
        modifiers < 16,
        plus_free(word),
        modifier_named(word) is None,
    ensures
        key_of_tokens(tokens(prefix_of(modifiers) + word)) == (modifiers, virtual_key_named(word)),
        mouse_of_tokens(tokens(prefix_of(modifiers) + word)) == (match mouse_named(word) {
            Some(base) => Some((modifiers, Some(base))),
            None => None,
        }),
{
    let prefix = prefix_of(modifiers);
    lemma_prefix_parses(modifiers, 4);
    lemma_all_bits(modifiers);
    lemma_word_extends_the_last_token(prefix, word);
    assert(Seq::<char>::empty() + word =~= word);
    let parts = tokens(prefix + word);
    assert(parts =~= tokens(prefix).drop_last().push(word));
    assert(parts.drop_last() =~= tokens(prefix).drop_last());
}

proof fn lemma_mouse_tokens(base: MouseBase)
    ensures
        plus_free(base.token()),
        modifier_named(base.token()) is None,
        mouse_named(base.token()) == Some(base),
{
    reveal_strlit("Double-click");
    reveal_strlit("WheelButton");
    reveal_strlit("Back");
    reveal_strlit("Forward");
    reveal_strlit("WheelUp");
    reveal_strlit("WheelDown");
    reveal_with_fuel(mouse_named_from, 7);
    assert("Double-click"@.len() == 12 && "WheelButton"@.len() == 11 && "Back"@.len() == 4);
    assert("Forward"@.len() == 7 && "WheelUp"@.len() == 7 && "WheelDown"@.len() == 9);
    assert("Forward"@[0] == 'F' && "WheelUp"@[0] == 'W' && "Back"@[0] == 'B');
    lemma_no_modifier(base.token());
}

/// A mouse shortcut comes back from its text.
pub proof fn lemma_mouse_round_trip(modifiers: u8, base: MouseBase)
    requires
        modifiers < 16,
    ensures
        parsed_mouse(mouse_text(modifiers, base)) == Some((modifiers, base)),
{
    lemma_mouse_tokens(base);
    lemma_word_behind_the_prefix(modifiers, base.token());
}

/// A name told apart by its length and its ends.
spec fn table_key(name: Seq<char>) -> int {
    name.len() * 1000 + name[0] as int + 2 * (name.last() as int)
}

/// The row whose name has this key.
spec fn row_of_table_key(key: int) -> int {
    if key == 4308 {
        0
    } else if key == 5314 {
        1
    } else if key == 2309 {
        2
    } else if key == 4288 {
        3
    } else if key == 4274 {
        4
    } else if key == 3269 {
        5
    } else if key == 7304 {
        6
    } else if key == 9300 {
        7
    } else if key == 8343 {
        8
    } else if key == 9268 {
        9
    } else if key == 6270 {
        10
    } else if key == 6305 {
        11
    } else if key == 3267 {
        12
    } else if key == 5297 {
        13
    } else if key == 3280 {
        14
    } else if key == 1183 {
        15
    } else if key == 1135 {
        16
    } else if key == 1132 {
        17
    } else if key == 1138 {
        18
    } else if key == 1177 {
        19
    } else if key == 1141 {
        20
    } else if key == 1288 {
        21
    } else if key == 1273 {
        22
    } else if key == 1276 {
        23
    } else if key == 1279 {
        24
    } else if key == 1117 {
        25
    } else {
        -1
    }
}

/// The row of a code.
spec fn row_of_code(code: u16) -> int {
    if code == 37 {
        0
    } else if code == 39 {
        1
    } else if code == 38 {
        2
    } else if code == 40 {
        3
    } else if code == 36 {
        4
    } else if code == 35 {
        5
    } else if code == 33 {
        6
    } else if code == 34 {
        7
    } else if code == 32 {
        8
    } else if code == 8 {
        9
    } else if code == 46 {
        10
    } else if code == 45 {
        11
    } else if code == 27 {
        12
    } else if code == 13 {
        13
    } else if code == 9 {
        14
    } else if code == 187 {
        15
    } else if code == 189 {
        16
    } else if code == 188 {
        17
    } else if code == 190 {
        18
    } else if code == 186 {
        19
    } else if code == 191 {
        20
    } else if code == 192 {
        21
    } else if code == 219 {
        22
    } else if code == 220 {
        23
    } else if code == 221 {
        24
    } else if code == 222 {
        25
    } else {
        -1
    }
}

/// The named keys, one by one: no name is a letter's, a digit's, a function key's or a modifier's.
proof fn lemma_named_key(row: int)
    requires
        0 <= row < KEY_NAMES@.len(),
    ensures
        plus_free(KEY_NAMES@[row].0@),
        modifier_named(KEY_NAMES@[row].0@) is None,
        !(KEY_NAMES@[row].0@.len() == 1 && is_alphanumeric(KEY_NAMES@[row].0@[0])),
        function_number(KEY_NAMES@[row].0@) is None,
        row_of_table_key(table_key(KEY_NAMES@[row].0@)) == row,
        row_of_code(KEY_NAMES@[row].1) == row,
        !(48 <= KEY_NAMES@[row].1 <= 57) && !(65 <= KEY_NAMES@[row].1 <= 90) && !(
        FIRST_FUNCTION_KEY <= KEY_NAMES@[row].1 <= LAST_FUNCTION_KEY),
{
    let name = KEY_NAMES@[row].0@;
    if row == 0 {
        reveal_strlit("Left");
        assert(name == "Left"@);
        assert(name.len() == 4 && name[0] == 'L' && name.last() == 't');
    } else if row == 1 {
        reveal_strlit("Right");
        assert(name == "Right"@);
        assert(name.len() == 5 && name[0] == 'R' && name.last() == 't');
    } else if row == 2 {
        reveal_strlit("Up");
        assert(name == "Up"@);
        assert(name.len() == 2 && name[0] == 'U' && name.last() == 'p');
    } else if row == 3 {
        reveal_strlit("Down");
        assert(name == "Down"@);
        assert(name.len() == 4 && name[0] == 'D' && name.last() == 'n');
    } else if row == 4 {
        reveal_strlit("Home");
        assert(name == "Home"@);
        assert(name.len() == 4 && name[0] == 'H' && name.last() == 'e');
    } else if row == 5 {
        reveal_strlit("End");
        assert(name == "End"@);
        assert(name.len() == 3 && name[0] == 'E' && name.last() == 'd');
    } else if row == 6 {
        reveal_strlit("Page Up");
        assert(name == "Page Up"@);
        assert(name.len() == 7 && name[0] == 'P' && name.last() == 'p');
    } else if row == 7 {
        reveal_strlit("Page Down");
        assert(name == "Page Down"@);
        assert(name.len() == 9 && name[0] == 'P' && name.last() == 'n');
    } else if row == 8 {
        reveal_strlit("spacebar");
        assert(name == "spacebar"@);
        assert(name.len() == 8 && name[0] == 's' && name.last() == 'r');
    } else if row == 9 {
        reveal_strlit("Backspace");
        assert(name == "Backspace"@);
        assert(name.len() == 9 && name[0] == 'B' && name.last() == 'e');
    } else if row == 10 {
        reveal_strlit("Delete");
        assert(name == "Delete"@);
        assert(name.len() == 6 && name[0] == 'D' && name.last() == 'e');
    } else if row == 11 {
        reveal_strlit("Insert");
        assert(name == "Insert"@);
        assert(name.len() == 6 && name[0] == 'I' && name.last() == 't');
    } else if row == 12 {
        reveal_strlit("Esc");
        assert(name == "Esc"@);
        assert(name.len() == 3 && name[0] == 'E' && name.last() == 'c');
    } else if row == 13 {
        reveal_strlit("Enter");
        assert(name == "Enter"@);
        assert(name.len() == 5 && name[0] == 'E' && name.last() == 'r');
    } else if row == 14 {
        reveal_strlit("Tab");
        assert(name == "Tab"@);
        assert(name.len() == 3 && name[0] == 'T' && name.last() == 'b');
    } else if row == 15 {
        reveal_strlit("=");
        assert(name == "="@);
        assert(name.len() == 1 && name[0] == '=' && name.last() == '=');
    } else if row == 16 {
        reveal_strlit("-");
        assert(name == "-"@);
        assert(name.len() == 1 && name[0] == '-' && name.last() == '-');
    } else if row == 17 {
        reveal_strlit(",");
        assert(name == ","@);
        assert(name.len() == 1 && name[0] == ',' && name.last() == ',');
    } else if row == 18 {
        reveal_strlit(".");
        assert(name == "."@);
        assert(name.len() == 1 && name[0] == '.' && name.last() == '.');
    } else if row == 19 {
        reveal_strlit(";");
        assert(name == ";"@);
        assert(name.len() == 1 && name[0] == ';' && name.last() == ';');
    } else if row == 20 {
        reveal_strlit("/");
        assert(name == "/"@);
        assert(name.len() == 1 && name[0] == '/' && name.last() == '/');
    } else if row == 21 {
        reveal_strlit("`");
        assert(name == "`"@);
        assert(name.len() == 1 && name[0] == '`' && name.last() == '`');
    } else if row == 22 {
        reveal_strlit("[");
        assert(name == "["@);
        assert(name.len() == 1 && name[0] == '[' && name.last() == '[');
    } else if row == 23 {
        reveal_strlit("\\");
        assert(name == "\\"@);
        assert(name.len() == 1 && name[0] == '\\' && name.last() == '\\');
    } else if row == 24 {
        reveal_strlit("]");
        assert(name == "]"@);
        assert(name.len() == 1 && name[0] == ']' && name.last() == ']');
    } else if row == 25 {
        reveal_strlit("'");
        assert(name == "'"@);
        assert(name.len() == 1 && name[0] == '\'' && name.last() == '\'');
    }
    lemma_no_modifier(name);
}

proof fn lemma_key_found(row: int, from: int)
    requires
        0 <= from <= row < KEY_NAMES@.len(),
    ensures
        key_in_table_from(KEY_NAMES@[row].0@, from) == Some(KEY_NAMES@[row].1),
        name_in_table_from(KEY_NAMES@[row].1, from) == Some(KEY_NAMES@[row].0@),
    decreases row - from,
{
    if from < row {
        lemma_named_key(from);
        lemma_named_key(row);
        lemma_key_found(row, from + 1);
    }
}

proof fn lemma_named_codes(key: u16, from: int)
    requires
        0 <= from <= KEY_NAMES@.len(),
    ensures
        name_in_table_from(key, from) matches Some(name) ==> exists|row: int|
            from <= row < KEY_NAMES@.len() && (#[trigger] KEY_NAMES@[row]).1 == key && KEY_NAMES@[row].0@
                == name,
    decreases KEY_NAMES@.len() - from,
{
    if from < KEY_NAMES@.len() && KEY_NAMES@[from].1 != key {
        lemma_named_codes(key, from + 1);
    }
}

proof fn lemma_named_tokens(name: Seq<char>, from: int)
    requires
        0 <= from <= KEY_NAMES@.len(),
    ensures
        key_in_table_from(name, from) matches Some(key) ==> exists|row: int|
            from <= row < KEY_NAMES@.len() && (#[trigger] KEY_NAMES@[row]).1 == key && KEY_NAMES@[row].0@
                == name,
    decreases KEY_NAMES@.len() - from,
{
    if from < KEY_NAMES@.len() && KEY_NAMES@[from].0@ != name {
        lemma_named_tokens(name, from + 1);
    }
}

proof fn lemma_short_decimal(number: int)
    requires
        1 <= number <= 24,
    ensures
        function_number(seq!['F'] + short_decimal(number)) == Some(number),
        (seq!['F'] + short_decimal(number)).len() >= 2,
        plus_free(seq!['F'] + short_decimal(number)),
        modifier_named(seq!['F'] + short_decimal(number)) is None,
{
    let digits = short_decimal(number);
    let name = seq!['F'] + digits;
    reveal_with_fuel(decimal_value, 3);
    assert(name.skip(1) =~= digits);
    assert(name[0] == 'F');
    if number < 10 {
        assert(digits.drop_last() =~= Seq::empty());
        assert(name[1] == digits[0]);
    } else {
        assert(digits.drop_last() =~= seq![('0' as int + number / 10) as char]);
        assert(digits.drop_last().drop_last() =~= Seq::empty());
        assert(name[1] == digits[0] && name[2] == digits[1]);
    }
    lemma_no_modifier(name);
}

/// A key's name stands for that key and for nothing else.
proof fn lemma_key_name_names_the_key(key: u16)
    ensures
        key_name(key) matches Some(name) ==> plus_free(name) && modifier_named(name) is None
            && virtual_key_named(name) == Some(key),
{
    if 48 <= key <= 57 || 65 <= key <= 90 {
        let name = seq![key as char];
        assert(name[0] == key as char);
        lemma_no_modifier(name);
    } else if FIRST_FUNCTION_KEY <= key <= LAST_FUNCTION_KEY {
        lemma_short_decimal(key - FIRST_FUNCTION_KEY + 1);
    } else {
        lemma_named_codes(key, 0);
        if name_in_table_from(key, 0) is Some {
            let name = name_in_table_from(key, 0)->Some_0;
            let row = choose|row: int|
                0 <= row < KEY_NAMES@.len() && (#[trigger] KEY_NAMES@[row]).1 == key
                    && KEY_NAMES@[row].0@ == name;
            lemma_named_key(row);
            lemma_key_found(row, 0);
        }
    }
}

/// The code of a named key has that name.
pub proof fn lemma_named_key_is_spelled(row: int)
    requires
        0 <= row < KEY_NAMES@.len(),
    ensures
        key_name(KEY_NAMES@[row].1) == Some(KEY_NAMES@[row].0@),
{
    lemma_named_key(row);
    lemma_key_found(row, 0);
}

/// The prefixes of no modifier, of control, of shift, and of both.
pub proof fn lemma_control_and_shift_prefixes()
    ensures
        prefix_of(0) == Seq::<char>::empty(),
        prefix_of(MODIFIER_CONTROL) == seq!['C', 't', 'r', 'l', '+'],
        prefix_of(MODIFIER_SHIFT) == seq!['S', 'h', 'i', 'f', 't', '+'],
        prefix_of((MODIFIER_CONTROL + MODIFIER_SHIFT) as u8) == seq![
            'C', 't', 'r', 'l', '+', 'S', 'h', 'i', 'f', 't', '+',
        ],
{
    reveal_strlit("Ctrl");
    reveal_strlit("Shift");
    reveal_with_fuel(prefix_upto, 5);
    assert(0u8 & 1 == 0 && 0u8 & 2 == 0 && 0u8 & 4 == 0 && 0u8 & 8 == 0) by (bit_vector);
    assert(1u8 & 1 != 0 && 1u8 & 2 == 0 && 1u8 & 4 == 0 && 1u8 & 8 == 0) by (bit_vector);
    assert(2u8 & 1 == 0 && 2u8 & 2 != 0 && 2u8 & 4 == 0 && 2u8 & 8 == 0) by (bit_vector);
    assert(3u8 & 1 != 0 && 3u8 & 2 != 0 && 3u8 & 4 == 0 && 3u8 & 8 == 0) by (bit_vector);
    assert(prefix_of(1) =~= seq!['C', 't', 'r', 'l', '+']);
    assert(prefix_of(2) =~= seq!['S', 'h', 'i', 'f', 't', '+']);
    assert(prefix_of(3) =~= seq!['C', 't', 'r', 'l', '+', 'S', 'h', 'i', 'f', 't', '+']);
}

/// A key shortcut comes back from its text, where it has one.
pub proof fn lemma_key_round_trip(modifiers: u8, key: u16)
    requires
        modifiers < 16,
    ensures
        key_text(modifiers, key) matches Some(text) ==> parsed_key(text) == Some((modifiers, key)),
{
    lemma_key_name_names_the_key(key);
    if key_name(key) is Some {
        lemma_word_behind_the_prefix(modifiers, key_name(key)->Some_0);
    }
}

proof fn lemma_modifier_is_a_bit(token: Seq<char>, from: int)
    requires
        0 <= from <= MODIFIER_NAMES@.len(),
    ensures
        modifier_named_from(token, from) matches Some(modifier) ==> modifier < 16,
    decreases MODIFIER_NAMES@.len() - from,
{
    if from < MODIFIER_NAMES@.len() && MODIFIER_NAMES@[from].1@ != token {
        lemma_modifier_is_a_bit(token, from + 1);
    }
}

/// What a token names, it can be called by.
proof fn lemma_named_key_has_a_name(token: Seq<char>)
    ensures
        virtual_key_named(token) matches Some(key) ==> key_name(key) is Some,
{
    if token.len() == 1 && is_alphanumeric(token[0]) {
    } else if function_number(token) is Some {
    } else {
        lemma_named_tokens(token, 0);
        if key_in_table_from(token, 0) is Some {
            let key = key_in_table_from(token, 0)->Some_0;
            let row = choose|row: int|
                0 <= row < KEY_NAMES@.len() && (#[trigger] KEY_NAMES@[row]).1 == key
                    && KEY_NAMES@[row].0@ == token;
            lemma_key_found(row, 0);
        }
    }
}

proof fn lemma_parsed_parts(parts: Seq<Seq<char>>)
    ensures
        key_of_tokens(parts).0 < 16,
        key_of_tokens(parts).1 matches Some(key) ==> key_name(key) is Some,
        mouse_of_tokens(parts) matches Some(shortcut) ==> shortcut.0 < 16,
    decreases parts.len(),
{
    if parts.len() > 0 {
        lemma_parsed_parts(parts.drop_last());
        lemma_modifier_is_a_bit(parts.last(), 0);
        lemma_named_key_has_a_name(parts.last());
        if modifier_named(parts.last()) is Some {
            let modifier = modifier_named(parts.last())->Some_0;
            let before = key_of_tokens(parts.drop_last()).0;
            assert(before < 16 && modifier < 16 ==> before | modifier < 16) by (bit_vector);
            if mouse_of_tokens(parts.drop_last()) is Some {
                let earlier = mouse_of_tokens(parts.drop_last())->Some_0.0;
                assert(earlier < 16 && modifier < 16 ==> earlier | modifier < 16) by (bit_vector);
            }
        }
    }
}

/// Every sequence the parser takes can be spelled again, and its canonical spelling means the same.
pub proof fn lemma_parsed_sequence_spells_again(sequence: Seq<char>)
    ensures
        parsed_key(sequence) matches Some((modifiers, key)) ==> (key_text(modifiers, key) matches Some(
            canonical,
        ) && parsed_key(canonical) == Some((modifiers, key))),
{
    lemma_parsed_parts(tokens(sequence));
    if parsed_key(sequence) is Some {
        let (modifiers, key) = parsed_key(sequence)->Some_0;
        lemma_key_round_trip(modifiers, key);
    }
}

/// The same of mouse encodings.
pub proof fn lemma_parsed_encoding_spells_again(encoding: Seq<char>)
    ensures
        parsed_mouse(encoding) matches Some((modifiers, base)) ==> parsed_mouse(
            mouse_text(modifiers, base),
        ) == Some((modifiers, base)),
{
    lemma_parsed_parts(tokens(encoding));
    if parsed_mouse(encoding) is Some {
        let (modifiers, base) = parsed_mouse(encoding)->Some_0;
        lemma_mouse_round_trip(modifiers, base);
    }
}

} // verus!
