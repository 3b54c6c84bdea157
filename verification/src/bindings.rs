//! Shortcut bindings: the defaults, what the settings override, and the lookups input handlers make.

use serde_json::Value;

use vstd::prelude::*;

use crate::actions;
use crate::actions::Action;
use crate::keys;
use crate::keys::{
    format_key_sequence, format_mouse_encoding, parse_key_sequence, parse_mouse_encoding, MouseBase,
    ESCAPE_KEY,
};
use crate::overrides;
use crate::overrides::Overrides;
use crate::strings;
use crate::strings::same_text;

verus! {

/// How many bindings one action keeps. Reading drops the rest; capturing drops the oldest.
pub const MAXIMUM_KEYBOARD_SEQUENCES: usize = 3;

pub const MAXIMUM_MOUSE_ENCODINGS: usize = 1;

/// The default key sequences of each action, in the order of the action table; the second is empty
/// where there is only one.
pub const DEFAULT_KEYBOARD: [(&'static str, &'static str, &'static str); 38] = [
    ("open", "Ctrl+O", ""),
    ("pasteurl", "Ctrl+V", ""),
    ("playlist", "E", ""),
    ("loop", "L", ""),
    ("firstfile", "Home", ""),
    ("previousfile", "Left", ""),
    ("nextfile", "Right", ""),
    ("lastfile", "End", ""),
    ("pause", "spacebar", ""),
    ("previousframe", "B", ""),
    ("nextframe", "N", ""),
    ("decreasespeed", "[", ""),
    ("increasespeed", "]", ""),
    ("resetspeed", "\\", ""),
    ("showfileinfo", "I", "Tab"),
    ("reload", "Ctrl+R", "F5"),
    ("togglefitmode", "V", ""),
    ("preservezoom", "Z", ""),
    ("zoomin", "Up", ""),
    ("zoomout", "Down", ""),
    ("togglezoom", "Enter", ""),
    ("panup", "Ctrl+Up", ""),
    ("pandown", "Ctrl+Down", ""),
    ("panleft", "Ctrl+Left", ""),
    ("panright", "Ctrl+Right", ""),
    ("rotateleft", "Shift+Left", ""),
    ("rotateright", "Shift+Right", ""),
    ("mirror", "Shift+M", ""),
    ("flip", "Shift+F", ""),
    ("showinexplorer", "Ctrl+E", ""),
    ("rename", "R", "F2"),
    ("delete", "Delete", "Ctrl+D"),
    ("deletepermanently", "Shift+Delete", "Ctrl+Shift+D"),
    ("toggleslideshow", "S", ""),
    ("settings", "Ctrl+,", ""),
    ("alwaysontop", "T", ""),
    ("fullscreen", "F", "F11"),
    ("exit", "Ctrl+W", ""),
];

/// The default mouse encoding of each action, in the order of the action table.
pub const DEFAULT_MOUSE: [(&'static str, &'static str); 6] = [
    ("previousfile", "WheelUp"),
    ("nextfile", "WheelDown"),
    ("zoomin", "Ctrl+WheelUp"),
    ("zoomout", "Ctrl+WheelDown"),
    ("togglezoom", "Double-click"),
    ("fullscreen", "WheelButton"),
];

/// The sequences of one row of the keyboard table.
pub open spec fn row_sequences(row: (&'static str, &'static str, &'static str)) -> Seq<Seq<char>> {
    if row.2@.len() == 0 {
        seq![row.1@]
    } else {
        seq![row.1@, row.2@]
    }
}

/// What each action is bound to where nothing overrides it.
pub open spec fn keyboard_defaults() -> Seq<(Seq<char>, Seq<Seq<char>>)> {
    DEFAULT_KEYBOARD@.map_values(
        |row: (&'static str, &'static str, &'static str)| (row.0@, row_sequences(row)),
    )
}

pub open spec fn mouse_defaults() -> Seq<(Seq<char>, Seq<Seq<char>>)> {
    DEFAULT_MOUSE@.map_values(|row: (&'static str, &'static str)| (row.0@, seq![row.1@]))
}

/// A table of defaults: under each name, the texts it lists.
pub open spec fn table_models(table: Seq<(&'static str, Vec<&'static str>)>) -> Seq<
    (Seq<char>, Seq<Seq<char>>),
> {
    table.map_values(|row: (&'static str, Vec<&'static str>)| (row.0@, strings::texts(row.1@)))
}

fn keyboard_table() -> (table: Vec<(&'static str, Vec<&'static str>)>)
    ensures
        table_models(table@) == keyboard_defaults(),
{
    let mut table: Vec<(&'static str, Vec<&'static str>)> = Vec::new();
    let mut row: usize = 0;
    while row < DEFAULT_KEYBOARD.len()
        invariant
            row <= DEFAULT_KEYBOARD@.len(),
            table_models(table@) == keyboard_defaults().take(row as int),
        decreases DEFAULT_KEYBOARD@.len() - row,
    {
        let ghost before = table_models(table@);
        let (name, first, second) = DEFAULT_KEYBOARD[row];
        let mut sequences: Vec<&'static str> = Vec::new();
        sequences.push(first);
        if second.unicode_len() > 0 {
            sequences.push(second);
        }
        assert(strings::texts(sequences@) =~= row_sequences(DEFAULT_KEYBOARD@[row as int]));
        let ghost entry = (name@, strings::texts(sequences@));
        table.push((name, sequences));
        assert(table_models(table@) =~= before.push(entry));
        assert(keyboard_defaults().take(row + 1) =~= keyboard_defaults().take(row as int).push(
            entry,
        ));
        row += 1;
    }
    assert(keyboard_defaults().take(row as int) =~= keyboard_defaults());
    table
}

fn mouse_table() -> (table: Vec<(&'static str, Vec<&'static str>)>)
    ensures
        table_models(table@) == mouse_defaults(),
{
    let mut table: Vec<(&'static str, Vec<&'static str>)> = Vec::new();
    let mut row: usize = 0;
    while row < DEFAULT_MOUSE.len()
        invariant
            row <= DEFAULT_MOUSE@.len(),
            table_models(table@) == mouse_defaults().take(row as int),
        decreases DEFAULT_MOUSE@.len() - row,
    {
        let ghost before = table_models(table@);
        let (name, encoding) = DEFAULT_MOUSE[row];
        let mut encodings: Vec<&'static str> = Vec::new();
        encodings.push(encoding);
        assert(strings::texts(encodings@) =~= seq![encoding@]);
        let ghost entry = (name@, strings::texts(encodings@));
        table.push((name, encodings));
        assert(table_models(table@) =~= before.push(entry));
        assert(mouse_defaults().take(row + 1) =~= mouse_defaults().take(row as int).push(entry));
        row += 1;
    }
    assert(mouse_defaults().take(row as int) =~= mouse_defaults());
    table
}

/// What a list of names holds under one of them, looked for from an index on.
pub open spec fn listed_from(
    lists: Seq<(Seq<char>, Seq<Seq<char>>)>,
    name: Seq<char>,
    index: int,
) -> Option<Seq<Seq<char>>>
    decreases lists.len() - index,
{
    if index < 0 || index >= lists.len() {
        None
    } else if lists[index].0 == name {
        Some(lists[index].1)
    } else {
        listed_from(lists, name, index + 1)
    }
}

/// What a list of names holds under one of them.
pub open spec fn listed(lists: Seq<(Seq<char>, Seq<Seq<char>>)>, name: Seq<char>) -> Option<
    Seq<Seq<char>>,
> {
    listed_from(lists, name, 0)
}

/// The defaults of an action; none for a name the table does not hold.
pub open spec fn default_for(defaults: Seq<(Seq<char>, Seq<Seq<char>>)>, name: Seq<char>) -> Seq<
    Seq<char>,
> {
    match listed(defaults, name) {
        Some(texts) => texts,
        None => Seq::empty(),
    }
}

/// The first of a list, this many at most.
pub open spec fn at_most<T>(list: Seq<T>, maximum: int) -> Seq<T> {
    if list.len() > maximum {
        list.take(maximum)
    } else {
        list
    }
}

/// What an action is bound to: what overrides it, its defaults where nothing does.
pub open spec fn resolved(
    overrides: Option<Seq<(Seq<char>, Seq<Seq<char>>)>>,
    name: Seq<char>,
    defaults: Seq<Seq<char>>,
    maximum: int,
) -> Seq<Seq<char>> {
    let chosen = match overrides {
        Some(lists) => match listed(lists, name) {
            Some(texts) => texts,
            None => defaults,
        },
        None => defaults,
    };
    at_most(chosen, maximum)
}

fn table_row(table: &Vec<(&'static str, Vec<&'static str>)>, name: &str) -> (row: Option<usize>)
    ensures
        match row {
            Some(index) => index < table@.len() && listed(table_models(table@), name@) == Some(
                strings::texts(table@[index as int].1@),
            ),
            None => listed(table_models(table@), name@) is None,
        },
{
    let ghost models = table_models(table@);
    let mut index: usize = 0;
    while index < table.len()
        invariant
            models == table_models(table@),
            index <= table.len(),
            listed(models, name@) == listed_from(models, name@, index as int),
        decreases table.len() - index,
    {
        assert(models[index as int] == (
            table@[index as int].0@,
            strings::texts(table@[index as int].1@),
        ));
        if same_text(table[index].0, name) {
            return Some(index);
        }
        index += 1;
    }
    None
}

fn override_row(overrides: &Overrides, name: &str) -> (row: Option<usize>)
    ensures
        match row {
            Some(index) => index < overrides.lists@.len() && listed(overrides@, name@) == Some(
                strings::spellings(overrides.lists@[index as int].1@),
            ),
            None => listed(overrides@, name@) is None,
        },
{
    let ghost models = overrides@;
    let mut index: usize = 0;
    while index < overrides.lists.len()
        invariant
            models == overrides@,
            index <= overrides.lists@.len(),
            listed(models, name@) == listed_from(models, name@, index as int),
        decreases overrides.lists@.len() - index,
    {
        assert(models[index as int] == (
            overrides.lists@[index as int].0@,
            strings::spellings(overrides.lists@[index as int].1@),
        ));
        if same_text(overrides.lists[index].0.as_str(), name) {
            return Some(index);
        }
        index += 1;
    }
    None
}

/// The strings of a list, this many at most.
fn first_strings(list: &Vec<String>, maximum: usize) -> (kept: Vec<String>)
    ensures
        strings::spellings(kept@) == at_most(strings::spellings(list@), maximum as int),
{
    let ghost models = strings::spellings(list@);
    let mut kept: Vec<String> = Vec::new();
    let mut index: usize = 0;
    while index < list.len() && index < maximum
        invariant
            models == strings::spellings(list@),
            index <= list.len(),
            index <= maximum,
            strings::spellings(kept@) == models.take(index as int),
        decreases list.len() - index,
    {
        let ghost before = strings::spellings(kept@);
        kept.push(list[index].clone());
        assert(strings::spellings(kept@) =~= before.push(models[index as int]));
        assert(models.take(index + 1) =~= models.take(index as int).push(models[index as int]));
        index += 1;
    }
    assert(models.take(models.len() as int) =~= models);
    kept
}

/// The texts of a list, this many at most, as strings of their own.
fn first_texts(list: &Vec<&'static str>, maximum: usize) -> (kept: Vec<String>)
    ensures
        strings::spellings(kept@) == at_most(strings::texts(list@), maximum as int),
{
    let ghost models = strings::texts(list@);
    let mut kept: Vec<String> = Vec::new();
    let mut index: usize = 0;
    while index < list.len() && index < maximum
        invariant
            models == strings::texts(list@),
            index <= list.len(),
            index <= maximum,
            strings::spellings(kept@) == models.take(index as int),
        decreases list.len() - index,
    {
        let ghost before = strings::spellings(kept@);
        kept.push(list[index].to_owned());
        assert(strings::spellings(kept@) =~= before.push(models[index as int]));
        assert(models.take(index + 1) =~= models.take(index as int).push(models[index as int]));
        index += 1;
    }
    assert(models.take(models.len() as int) =~= models);
    kept
}

fn override_or_default(
    overrides: &Option<Overrides>,
    name: &str,
    defaults: &Vec<&'static str>,
    maximum: usize,
) -> (texts: Vec<String>)
    ensures
        strings::spellings(texts@) == resolved(
            overrides::optional_lists(*overrides),
            name@,
            strings::texts(defaults@),
            maximum as int,
        ),
{
    match overrides {
        Some(lists) => match override_row(lists, name) {
            Some(row) => first_strings(&lists.lists[row].1, maximum),
            None => first_texts(defaults, maximum),
        },
        None => first_texts(defaults, maximum),
    }
}

pub fn default_keyboard_sequences(action_name: &str) -> (sequences: Vec<&'static str>)
    ensures
        strings::texts(sequences@) == default_for(keyboard_defaults(), action_name@),
{
    table_defaults(keyboard_table(), action_name)
}

pub fn default_mouse_encodings(action_name: &str) -> (encodings: Vec<&'static str>)
    ensures
        strings::texts(encodings@) == default_for(mouse_defaults(), action_name@),
{
    table_defaults(mouse_table(), action_name)
}

fn table_defaults(table: Vec<(&'static str, Vec<&'static str>)>, action_name: &str) -> (texts: Vec<
    &'static str,
>)
    ensures
        strings::texts(texts@) == default_for(table_models(table@), action_name@),
{
    match table_row(&table, action_name) {
        Some(row) => {
            let mut texts: Vec<&'static str> = Vec::new();
            let ghost models = strings::texts(table@[row as int].1@);
            let mut index: usize = 0;
            while index < table[row].1.len()
                invariant
                    row < table@.len(),
                    models == strings::texts(table@[row as int].1@),
                    index <= table@[row as int].1@.len(),
                    strings::texts(texts@) == models.take(index as int),
                decreases table@[row as int].1@.len() - index,
            {
                let ghost before = strings::texts(texts@);
                texts.push(table[row].1[index]);
                assert(strings::texts(texts@) =~= before.push(models[index as int]));
                assert(models.take(index + 1) =~= models.take(index as int).push(
                    models[index as int],
                ));
                index += 1;
            }
            assert(models.take(index as int) =~= models);
            texts
        },
        None => {
            let texts: Vec<&'static str> = Vec::new();
            assert(strings::texts(texts@) =~= Seq::empty());
            texts
        },
    }
}

/// The texts that parse, each in its canonical spelling.
pub open spec fn canonical_sequences(texts: Seq<Seq<char>>) -> Seq<Seq<char>>
    decreases texts.len(),
{
    if texts.len() == 0 {
        Seq::empty()
    } else {
        let before = canonical_sequences(texts.drop_last());
        match keys::parsed_key(texts.last()) {
            Some((modifiers, key)) => match keys::key_text(modifiers, key) {
                Some(canonical) => before.push(canonical),
                None => before,
            },
            None => before,
        }
    }
}

pub open spec fn canonical_encodings(texts: Seq<Seq<char>>) -> Seq<Seq<char>>
    decreases texts.len(),
{
    if texts.len() == 0 {
        Seq::empty()
    } else {
        let before = canonical_encodings(texts.drop_last());
        match keys::parsed_mouse(texts.last()) {
            Some((modifiers, base)) => before.push(keys::mouse_text(modifiers, base)),
            None => before,
        }
    }
}

/// The key sequences of an action, canonical, under these overrides.
pub open spec fn keyboard_resolved(
    overrides: Option<Seq<(Seq<char>, Seq<Seq<char>>)>>,
    name: Seq<char>,
) -> Seq<Seq<char>> {
    canonical_sequences(
        resolved(
            overrides,
            name,
            default_for(keyboard_defaults(), name),
            MAXIMUM_KEYBOARD_SEQUENCES as int,
        ),
    )
}

pub open spec fn mouse_resolved(
    overrides: Option<Seq<(Seq<char>, Seq<Seq<char>>)>>,
    name: Seq<char>,
) -> Seq<Seq<char>> {
    canonical_encodings(
        resolved(
            overrides,
            name,
            default_for(mouse_defaults(), name),
            MAXIMUM_MOUSE_ENCODINGS as int,
        ),
    )
}

/// The key sequences of an action under these overrides; the parser round trip discards what does not
/// parse.
pub fn keyboard_sequences(overrides: &Option<Overrides>, action_name: &str) -> (sequences: Vec<String>)
    ensures
        strings::spellings(sequences@) == keyboard_resolved(
            overrides::optional_lists(*overrides),
            action_name@,
        ),
{
    let defaults = default_keyboard_sequences(action_name);
    let texts = override_or_default(
        overrides,
        action_name,
        &defaults,
        MAXIMUM_KEYBOARD_SEQUENCES,
    );
    let ghost models = strings::spellings(texts@);
    let mut sequences: Vec<String> = Vec::new();
    let mut index: usize = 0;
    assert(models.take(0) =~= Seq::empty());
    assert(strings::spellings(sequences@) =~= Seq::empty());
    while index < texts.len()
        invariant
            models == strings::spellings(texts@),
            index <= texts.len(),
            strings::spellings(sequences@) == canonical_sequences(models.take(index as int)),
        decreases texts.len() - index,
    {
        let ghost before = strings::spellings(sequences@);
        assert(models.take(index + 1).drop_last() =~= models.take(index as int));
        assert(models[index as int] == texts@[index as int]@);
        match parse_key_sequence(texts[index].as_str()) {
            Some((modifiers, key)) => {
                match format_key_sequence(modifiers, key) {
                    Some(canonical) => {
                        let ghost text = canonical@;
                        sequences.push(canonical);
                        assert(strings::spellings(sequences@) =~= before.push(text));
                    },
                    None => {},
                }
            },
            None => {},
        }
        index += 1;
    }
    assert(models.take(index as int) =~= models);
    sequences
}

/// The mouse encodings of an action under these overrides; the parser round trip discards what does
/// not parse.
pub fn mouse_encodings(overrides: &Option<Overrides>, action_name: &str) -> (encodings: Vec<String>)
    ensures
        strings::spellings(encodings@) == mouse_resolved(
            overrides::optional_lists(*overrides),
            action_name@,
        ),
{
    let defaults = default_mouse_encodings(action_name);
    let texts = override_or_default(overrides, action_name, &defaults, MAXIMUM_MOUSE_ENCODINGS);
    let ghost models = strings::spellings(texts@);
    let mut encodings: Vec<String> = Vec::new();
    let mut index: usize = 0;
    assert(models.take(0) =~= Seq::empty());
    assert(strings::spellings(encodings@) =~= Seq::empty());
    while index < texts.len()
        invariant
            models == strings::spellings(texts@),
            index <= texts.len(),
            strings::spellings(encodings@) == canonical_encodings(models.take(index as int)),
        decreases texts.len() - index,
    {
        let ghost before = strings::spellings(encodings@);
        assert(models.take(index + 1).drop_last() =~= models.take(index as int));
        assert(models[index as int] == texts@[index as int]@);
        match parse_mouse_encoding(texts[index].as_str()) {
            Some((modifiers, base)) => {
                let canonical = format_mouse_encoding(modifiers, base);
                let ghost text = canonical@;
                encodings.push(canonical);
                assert(strings::spellings(encodings@) =~= before.push(text));
            },
            None => {},
        }
        index += 1;
    }
    assert(models.take(index as int) =~= models);
    encodings
}

pub fn resolved_keyboard_sequences(
    overrides: Option<&serde_json::Map<String, Value>>,
    action_name: &str,
) -> (sequences: Vec<String>)
    ensures
        strings::spellings(sequences@) == keyboard_resolved(
            overrides::optional_members(overrides),
            action_name@,
        ),
{
    keyboard_sequences(&Overrides::from_optional(overrides), action_name)
}

pub fn resolved_mouse_encodings(
    overrides: Option<&serde_json::Map<String, Value>>,
    action_name: &str,
) -> (encodings: Vec<String>)
    ensures
        strings::spellings(encodings@) == mouse_resolved(
            overrides::optional_members(overrides),
            action_name@,
        ),
{
    mouse_encodings(&Overrides::from_optional(overrides), action_name)
}

/// The shortcut a menu shows: the first of the action's key sequences.
pub fn menu_shortcut_text(
    keyboard_overrides: Option<&serde_json::Map<String, Value>>,
    action_name: &str,
) -> (text: Option<String>)
    ensures
        match text {
            Some(shown) => keyboard_resolved(
                overrides::optional_members(keyboard_overrides),
                action_name@,
            ).len() > 0 && shown@ == keyboard_resolved(
                overrides::optional_members(keyboard_overrides),
                action_name@,
            )[0],
            None => keyboard_resolved(
                overrides::optional_members(keyboard_overrides),
                action_name@,
            ).len() == 0,
        },
{
    let sequences = resolved_keyboard_sequences(keyboard_overrides, action_name);
    assert(strings::spellings(sequences@).len() == sequences@.len());
    if sequences.len() > 0 {
        assert(strings::spellings(sequences@)[0] == sequences@[0]@);
        Some(sequences[0].clone())
    } else {
        None
    }
}

/// Texts bound to one action; a name that stands for no action binds none.
pub open spec fn bound(texts: Seq<Seq<char>>, action: Option<Action>) -> Seq<(Seq<char>, Action)> {
    match action {
        Some(found) => texts.map_values(|text: Seq<char>| (text, found)),
        None => Seq::empty(),
    }
}

/// What the rows of a table of defaults bind, each as far as nothing overrides it.
pub open spec fn bound_defaults(
    defaults: Seq<(Seq<char>, Seq<Seq<char>>)>,
    overrides: Option<Seq<(Seq<char>, Seq<Seq<char>>)>>,
    maximum: int,
) -> Seq<(Seq<char>, Action)>
    decreases defaults.len(),
{
    if defaults.len() == 0 {
        Seq::empty()
    } else {
        bound_defaults(defaults.drop_last(), overrides, maximum) + bound(
            resolved(overrides, defaults.last().0, defaults.last().1, maximum),
            actions::action_named(defaults.last().0),
        )
    }
}

/// What the overrides of actions without defaults bind.
pub open spec fn bound_extras(
    lists: Seq<(Seq<char>, Seq<Seq<char>>)>,
    defaults: Seq<(Seq<char>, Seq<Seq<char>>)>,
    maximum: int,
) -> Seq<(Seq<char>, Action)>
    decreases lists.len(),
{
    if lists.len() == 0 {
        Seq::empty()
    } else {
        let before = bound_extras(lists.drop_last(), defaults, maximum);
        if listed(defaults, lists.last().0) is Some {
            before
        } else {
            before + bound(
                at_most(lists.last().1, maximum),
                actions::action_named(lists.last().0),
            )
        }
    }
}

/// Every text that is bound, with its action: defaults, overridden or not, then the actions only the
/// overrides name.
pub open spec fn bound_texts(
    defaults: Seq<(Seq<char>, Seq<Seq<char>>)>,
    overrides: Option<Seq<(Seq<char>, Seq<Seq<char>>)>>,
    maximum: int,
) -> Seq<(Seq<char>, Action)> {
    bound_defaults(defaults, overrides, maximum) + (match overrides {
        Some(lists) => bound_extras(lists, defaults, maximum),
        None => Seq::empty(),
    })
}

/// Texts with their actions.
pub open spec fn pair_models(pairs: Seq<(String, Action)>) -> Seq<(Seq<char>, Action)> {
    pairs.map_values(|pair: (String, Action)| (pair.0@, pair.1))
}

fn bind_texts(collected: &mut Vec<(String, Action)>, texts: &Vec<String>, action: Option<Action>)
    ensures
        pair_models(final(collected)@) == pair_models(old(collected)@) + bound(
            strings::spellings(texts@),
            action,
        ),
{
    let ghost start = pair_models(collected@);
    let ghost models = strings::spellings(texts@);
    match action {
        Some(found) => {
            let ghost pairs = bound(models, Some(found));
            let mut index: usize = 0;
            assert(start + pairs.take(0) =~= start);
            while index < texts.len()
                invariant
                    models == strings::spellings(texts@),
                    pairs == bound(models, Some(found)),
                    index <= texts.len(),
                    pair_models(collected@) == start + pairs.take(index as int),
                decreases texts.len() - index,
            {
                let ghost before = pair_models(collected@);
                collected.push((texts[index].clone(), found));
                assert(pairs[index as int] == (texts@[index as int]@, found));
                assert(pair_models(collected@) =~= before.push(pairs[index as int]));
                assert(start + pairs.take(index + 1) =~= (start + pairs.take(index as int)).push(
                    pairs[index as int],
                ));
                index += 1;
            }
            assert(pairs.take(index as int) =~= pairs);
        },
        None => {
            assert(start + bound(models, None) =~= start);
        },
    }
}

fn collect_bindings(
    defaults: &Vec<(&'static str, Vec<&'static str>)>,
    overrides: &Option<Overrides>,
    maximum: usize,
) -> (collected: Vec<(String, Action)>)
    ensures
        pair_models(collected@) == bound_texts(
            table_models(defaults@),
            overrides::optional_lists(*overrides),
            maximum as int,
        ),
{
    let ghost table = table_models(defaults@);
    let ghost lists = overrides::optional_lists(*overrides);
    let mut collected: Vec<(String, Action)> = Vec::new();
    let mut row: usize = 0;
    assert(pair_models(collected@) =~= Seq::empty());
    assert(table.take(0) =~= Seq::empty());
    while row < defaults.len()
        invariant
            table == table_models(defaults@),
            lists == overrides::optional_lists(*overrides),
            row <= defaults.len(),
            pair_models(collected@) == bound_defaults(table.take(row as int), lists, maximum as int),
        decreases defaults.len() - row,
    {
        assert(table.take(row + 1).drop_last() =~= table.take(row as int));
        assert(table.take(row + 1).last() == (
            defaults@[row as int].0@,
            strings::texts(defaults@[row as int].1@),
        ));
        let texts = override_or_default(overrides, defaults[row].0, &defaults[row].1, maximum);
        bind_texts(&mut collected, &texts, Action::from_name(defaults[row].0));
        row += 1;
    }
    assert(table.take(row as int) =~= table);
    match overrides {
        Some(found) => {
            let ghost start = pair_models(collected@);
            let ghost models = found@;
            let mut index: usize = 0;
            assert(models.take(0) =~= Seq::empty());
            assert(start + Seq::<(Seq<char>, Action)>::empty() =~= start);
            while index < found.lists.len()
                invariant
                    table == table_models(defaults@),
                    models == found@,
                    index <= found.lists@.len(),
                    pair_models(collected@) == start + bound_extras(
                        models.take(index as int),
                        table,
                        maximum as int,
                    ),
                decreases found.lists@.len() - index,
            {
                let ghost before = pair_models(collected@);
                assert(models.take(index + 1).drop_last() =~= models.take(index as int));
                assert(models.take(index + 1).last() == (
                    found.lists@[index as int].0@,
                    strings::spellings(found.lists@[index as int].1@),
                ));
                if table_row(defaults, found.lists[index].0.as_str()).is_none() {
                    let texts = first_strings(&found.lists[index].1, maximum);
                    let action = Action::from_name(found.lists[index].0.as_str());
                    bind_texts(&mut collected, &texts, action);
                    assert(pair_models(collected@) =~= start + bound_extras(
                        models.take(index + 1),
                        table,
                        maximum as int,
                    ));
                }
                index += 1;
            }
            assert(models.take(index as int) =~= models);
        },
        None => {
            assert(pair_models(collected@) =~= bound_texts(table, lists, maximum as int));
        },
    }
    collected
}

#[derive(Clone, Copy, PartialEq, Eq, Structural, Debug)]
pub struct KeyBinding {
    pub modifiers: u8,
    pub virtual_key: u16,
    pub action: Action,
}

#[derive(Clone, Copy, PartialEq, Eq, Structural, Debug)]
pub struct MouseBinding {
    pub modifiers: u8,
    pub base: MouseBase,
    pub action: Action,
}

/// The bindings whose texts parse, in order.
pub open spec fn key_bindings(pairs: Seq<(Seq<char>, Action)>) -> Seq<KeyBinding>
    decreases pairs.len(),
{
    if pairs.len() == 0 {
        Seq::empty()
    } else {
        let before = key_bindings(pairs.drop_last());
        match keys::parsed_key(pairs.last().0) {
            Some((modifiers, virtual_key)) => before.push(
                KeyBinding { modifiers, virtual_key, action: pairs.last().1 },
            ),
            None => before,
        }
    }
}

pub open spec fn mouse_bindings(pairs: Seq<(Seq<char>, Action)>) -> Seq<MouseBinding>
    decreases pairs.len(),
{
    if pairs.len() == 0 {
        Seq::empty()
    } else {
        let before = mouse_bindings(pairs.drop_last());
        match keys::parsed_mouse(pairs.last().0) {
            Some((modifiers, base)) => before.push(
                MouseBinding { modifiers, base, action: pairs.last().1 },
            ),
            None => before,
        }
    }
}

/// The shortcuts in force.
pub struct Bindings {
    pub keyboard: Vec<KeyBinding>,
    pub mouse: Vec<MouseBinding>,
}

/// The key bindings these overrides leave in force.
pub open spec fn keyboard_in_force(overrides: Option<Seq<(Seq<char>, Seq<Seq<char>>)>>) -> Seq<
    KeyBinding,
> {
    key_bindings(
        bound_texts(keyboard_defaults(), overrides, MAXIMUM_KEYBOARD_SEQUENCES as int),
    )
}

/// The mouse bindings these overrides leave in force.
pub open spec fn mouse_in_force(overrides: Option<Seq<(Seq<char>, Seq<Seq<char>>)>>) -> Seq<
    MouseBinding,
> {
    mouse_bindings(bound_texts(mouse_defaults(), overrides, MAXIMUM_MOUSE_ENCODINGS as int))
}

/// The action of the first binding, from an index on, of this key under these modifiers.
pub open spec fn key_action_from(
    bindings: Seq<KeyBinding>,
    modifiers: u8,
    virtual_key: u16,
    index: int,
) -> Option<Action>
    decreases bindings.len() - index,
{
    if index < 0 || index >= bindings.len() {
        None
    } else if bindings[index].modifiers == modifiers && bindings[index].virtual_key == virtual_key {
        Some(bindings[index].action)
    } else {
        key_action_from(bindings, modifiers, virtual_key, index + 1)
    }
}

/// The action of the first binding, from an index on, of this mouse base under these modifiers.
pub open spec fn mouse_action_from(
    bindings: Seq<MouseBinding>,
    modifiers: u8,
    base: MouseBase,
    index: int,
) -> Option<Action>
    decreases bindings.len() - index,
{
    if index < 0 || index >= bindings.len() {
        None
    } else if bindings[index].modifiers == modifiers && bindings[index].base == base {
        Some(bindings[index].action)
    } else {
        mouse_action_from(bindings, modifiers, base, index + 1)
    }
}

impl Bindings {
    /// The bindings these overrides leave in force.
    pub fn from_overrides(
        keyboard_overrides: &Option<Overrides>,
        mouse_overrides: &Option<Overrides>,
    ) -> (bindings: Self)
        ensures
            bindings.keyboard@ == keyboard_in_force(overrides::optional_lists(*keyboard_overrides)),
            bindings.mouse@ == mouse_in_force(overrides::optional_lists(*mouse_overrides)),
    {
        let keys_table = keyboard_table();
        let key_pairs = collect_bindings(
            &keys_table,
            keyboard_overrides,
            MAXIMUM_KEYBOARD_SEQUENCES,
        );
        let ghost key_models = pair_models(key_pairs@);
        let mut keyboard: Vec<KeyBinding> = Vec::new();
        let mut index: usize = 0;
        assert(key_models.take(0) =~= Seq::empty());
        while index < key_pairs.len()
            invariant
                key_models == pair_models(key_pairs@),
                index <= key_pairs.len(),
                keyboard@ == key_bindings(key_models.take(index as int)),
            decreases key_pairs.len() - index,
        {
            assert(key_models.take(index + 1).drop_last() =~= key_models.take(index as int));
            assert(key_models[index as int] == (
                key_pairs@[index as int].0@,
                key_pairs@[index as int].1,
            ));
            match parse_key_sequence(key_pairs[index].0.as_str()) {
                Some((modifiers, virtual_key)) => {
                    keyboard.push(
                        KeyBinding { modifiers, virtual_key, action: key_pairs[index].1 },
                    );
                },
                None => {},
            }
            index += 1;
        }
        assert(key_models.take(index as int) =~= key_models);
        let mouse_rows = mouse_table();
        let mouse_pairs = collect_bindings(&mouse_rows, mouse_overrides, MAXIMUM_MOUSE_ENCODINGS);
        let ghost mouse_models = pair_models(mouse_pairs@);
        let mut mouse: Vec<MouseBinding> = Vec::new();
        let mut place: usize = 0;
        assert(mouse_models.take(0) =~= Seq::empty());
        while place < mouse_pairs.len()
            invariant
                mouse_models == pair_models(mouse_pairs@),
                place <= mouse_pairs.len(),
                mouse@ == mouse_bindings(mouse_models.take(place as int)),
            decreases mouse_pairs.len() - place,
        {
            assert(mouse_models.take(place + 1).drop_last() =~= mouse_models.take(place as int));
            assert(mouse_models[place as int] == (
                mouse_pairs@[place as int].0@,
                mouse_pairs@[place as int].1,
            ));
            match parse_mouse_encoding(mouse_pairs[place].0.as_str()) {
                Some((modifiers, base)) => {
                    mouse.push(MouseBinding { modifiers, base, action: mouse_pairs[place].1 });
                },
                None => {},
            }
            place += 1;
        }
        assert(mouse_models.take(place as int) =~= mouse_models);
        Bindings { keyboard, mouse }
    }

    pub fn from_settings(
        keyboard_overrides: Option<&serde_json::Map<String, Value>>,
        mouse_overrides: Option<&serde_json::Map<String, Value>>,
    ) -> (bindings: Self)
        ensures
            bindings.keyboard@ == keyboard_in_force(
                overrides::optional_members(keyboard_overrides),
            ),
            bindings.mouse@ == mouse_in_force(overrides::optional_members(mouse_overrides)),
    {
        Bindings::from_overrides(
            &Overrides::from_optional(keyboard_overrides),
            &Overrides::from_optional(mouse_overrides),
        )
    }

    pub fn lookup_key(&self, modifiers: u8, virtual_key: u16) -> (action: Option<Action>)
        ensures
            action == key_action_from(self.keyboard@, modifiers, virtual_key, 0),
    {
        let mut index: usize = 0;
        while index < self.keyboard.len()
            invariant
                index <= self.keyboard@.len(),
                key_action_from(self.keyboard@, modifiers, virtual_key, 0) == key_action_from(
                    self.keyboard@,
                    modifiers,
                    virtual_key,
                    index as int,
                ),
            decreases self.keyboard@.len() - index,
        {
            let binding = self.keyboard[index];
            if binding.modifiers == modifiers && binding.virtual_key == virtual_key {
                return Some(binding.action);
            }
            index += 1;
        }
        None
    }

    pub fn lookup_mouse(&self, modifiers: u8, base: MouseBase) -> (action: Option<Action>)
        ensures
            action == mouse_action_from(self.mouse@, modifiers, base, 0),
    {
        let mut index: usize = 0;
        while index < self.mouse.len()
            invariant
                index <= self.mouse@.len(),
                mouse_action_from(self.mouse@, modifiers, base, 0) == mouse_action_from(
                    self.mouse@,
                    modifiers,
                    base,
                    index as int,
                ),
            decreases self.mouse@.len() - index,
        {
            let binding = self.mouse[index];
            if binding.modifiers == modifiers && binding.base == base {
                return Some(binding.action);
            }
            index += 1;
        }
        None
    }

    /// Escape acts as exit-fullscreen only while unbound.
    pub fn escape_is_unbound(&self) -> (unbound: bool)
        ensures
            unbound == (forall|index: int|
                0 <= index < self.keyboard@.len() ==> (
                #[trigger] self.keyboard@[index]).virtual_key != ESCAPE_KEY),
    {
        let mut index: usize = 0;
        while index < self.keyboard.len()
            invariant
                index <= self.keyboard@.len(),
                forall|earlier: int|
                    0 <= earlier < index ==> (#[trigger] self.keyboard@[earlier]).virtual_key
                        != ESCAPE_KEY,
            decreases self.keyboard@.len() - index,
        {
            if self.keyboard[index].virtual_key == ESCAPE_KEY {
                assert(self.keyboard@[index as int].virtual_key == ESCAPE_KEY);
                return false;
            }
            index += 1;
        }
        true
    }
}

proof fn lemma_canonical_lists_are_short(texts: Seq<Seq<char>>)
    ensures
        canonical_sequences(texts).len() <= texts.len(),
        canonical_encodings(texts).len() <= texts.len(),
    decreases texts.len(),
{
    if texts.len() > 0 {
        lemma_canonical_lists_are_short(texts.drop_last());
    }
}

/// No action keeps more bindings than the maximum, however many are listed for it.
pub proof fn lemma_lists_stop_at_the_maximum(
    overrides: Option<Seq<(Seq<char>, Seq<Seq<char>>)>>,
    name: Seq<char>,
)
    ensures
        keyboard_resolved(overrides, name).len() <= MAXIMUM_KEYBOARD_SEQUENCES,
        mouse_resolved(overrides, name).len() <= MAXIMUM_MOUSE_ENCODINGS,
{
    lemma_canonical_lists_are_short(
        resolved(
            overrides,
            name,
            default_for(keyboard_defaults(), name),
            MAXIMUM_KEYBOARD_SEQUENCES as int,
        ),
    );
    lemma_canonical_lists_are_short(
        resolved(
            overrides,
            name,
            default_for(mouse_defaults(), name),
            MAXIMUM_MOUSE_ENCODINGS as int,
        ),
    );
}

/// Resolved sequences are canonical: resolving them again changes nothing.
pub proof fn lemma_canonical_sequences_stay(texts: Seq<Seq<char>>)
    ensures
        canonical_sequences(canonical_sequences(texts)) == canonical_sequences(texts),
    decreases texts.len(),
{
    if texts.len() > 0 {
        let before = canonical_sequences(texts.drop_last());
        lemma_canonical_sequences_stay(texts.drop_last());
        keys::lemma_parsed_sequence_spells_again(texts.last());
        match keys::parsed_key(texts.last()) {
            Some((modifiers, key)) => {
                let canonical = keys::key_text(modifiers, key)->Some_0;
                assert(before.push(canonical).drop_last() =~= before);
            },
            None => {},
        }
    }
}

/// The same of mouse encodings.
pub proof fn lemma_canonical_encodings_stay(texts: Seq<Seq<char>>)
    ensures
        canonical_encodings(canonical_encodings(texts)) == canonical_encodings(texts),
    decreases texts.len(),
{
    if texts.len() > 0 {
        let before = canonical_encodings(texts.drop_last());
        lemma_canonical_encodings_stay(texts.drop_last());
        keys::lemma_parsed_encoding_spells_again(texts.last());
        match keys::parsed_mouse(texts.last()) {
            Some((modifiers, base)) => {
                let canonical = keys::mouse_text(modifiers, base);
                assert(before.push(canonical).drop_last() =~= before);
            },
            None => {},
        }
    }
}

/// A list that overrides an action stands in place of its defaults, whatever they are.
pub proof fn lemma_override_replaces_the_defaults(
    lists: Seq<(Seq<char>, Seq<Seq<char>>)>,
    name: Seq<char>,
    defaults: Seq<Seq<char>>,
    others: Seq<Seq<char>>,
    maximum: int,
)
    requires
        listed(lists, name) is Some,
    ensures
        resolved(Some(lists), name, defaults, maximum) == resolved(
            Some(lists),
            name,
            others,
            maximum,
        ),
        resolved(None, name, defaults, maximum) == at_most(defaults, maximum),
{
}

} // verus!
