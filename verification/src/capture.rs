//! Shortcut capture: recorded key sequences and click-to-record mouse bindings.

use vstd::prelude::*;

use crate::bindings::MAXIMUM_KEYBOARD_SEQUENCES;
use crate::keys;
use crate::keys::{format_key_sequence, format_mouse_encoding, modifier_prefix, MouseBase};
use crate::placement::Rect;
use crate::resource::{
    IDCANCEL, IDC_CAPTURE_KEYBOARD_CLEAR, IDC_CAPTURE_KEYBOARD_LIST, IDC_CAPTURE_MOUSE_CLEAR, IDOK,
};
use crate::settings_dialog;
use crate::strings;
use crate::strings::{holds_text, same_text};

verus! {

/// Unbound-field placeholder; the paint handler recovers it by string comparison.
pub const NO_BINDING_TEXT: &'static str = "None";

/// The keys that only modify others.
pub const MODIFIER_KEYS: [u16; 11] = [16, 17, 18, 91, 92, 160, 161, 162, 163, 164, 165];

pub fn is_modifier_key(virtual_key: u16) -> (modifier: bool)
    ensures
        modifier == MODIFIER_KEYS@.contains(virtual_key),
{
    let mut index: usize = 0;
    while index < MODIFIER_KEYS.len()
        invariant
            index <= MODIFIER_KEYS@.len(),
            forall|earlier: int| 0 <= earlier < index ==> MODIFIER_KEYS@[earlier] != virtual_key,
        decreases MODIFIER_KEYS@.len() - index,
    {
        if MODIFIER_KEYS[index] == virtual_key {
            assert(MODIFIER_KEYS@[index as int] == virtual_key);
            return true;
        }
        index += 1;
    }
    false
}

/// A captured key in one number: the modifiers in the high word, the key in the low one.
pub open spec fn key_number(modifiers: u8, virtual_key: u16) -> int {
    modifiers * 65536 + virtual_key
}

/// The captured key a number stands for.
pub open spec fn key_of_number(number: u64) -> (u8, u16) {
    ((number / 65536 % 65536 % 256) as u8, (number % 65536) as u16)
}

pub fn pack_key(modifiers: u8, virtual_key: u16) -> (number: u64)
    ensures
        number == key_number(modifiers, virtual_key),
{
    modifiers as u64 * 65536 + virtual_key as u64
}

pub fn unpack_key(number: u64) -> (shortcut: (u8, u16))
    ensures
        shortcut == key_of_number(number),
{
    ((number / 65536 % 65536 % 256) as u8, (number % 65536) as u16)
}

/// A captured mouse input in one number: the modifiers above the index of the base.
pub open spec fn mouse_number(modifiers: u8, base: MouseBase) -> int {
    modifiers * 256 + base.place()
}

/// The captured mouse input a number stands for; None where its base is none.
pub open spec fn mouse_of_number(number: u64) -> Option<(u8, MouseBase)> {
    match MouseBase::at((number % 256) as int) {
        Some(base) => Some(((number / 256 % 256) as u8, base)),
        None => None,
    }
}

pub fn pack_mouse(modifiers: u8, base: MouseBase) -> (number: u64)
    ensures
        number == mouse_number(modifiers, base),
{
    modifiers as u64 * 256 + base.index() as u64
}

pub fn unpack_mouse(number: u64) -> (shortcut: Option<(u8, MouseBase)>)
    ensures
        shortcut == mouse_of_number(number),
{
    match MouseBase::from_index((number % 256) as u8) {
        Some(base) => Some(((number / 256 % 256) as u8, base)),
        None => None,
    }
}

/// What is sent to the dialog is what was captured.
pub proof fn lemma_captures_travel_whole(modifiers: u8, virtual_key: u16, base: MouseBase)
    ensures
        key_of_number(key_number(modifiers, virtual_key) as u64) == (modifiers, virtual_key),
        mouse_of_number(mouse_number(modifiers, base) as u64) == Some((modifiers, base)),
{
}

/// A shortcut that another action holds, and that action's label.
pub open spec fn owner_from(
    taken: Seq<(Seq<char>, Seq<char>)>,
    text: Seq<char>,
    index: int,
) -> Option<Seq<char>>
    decreases taken.len() - index,
{
    if index < 0 || index >= taken.len() {
        None
    } else if taken[index].0 == text {
        Some(taken[index].1)
    } else {
        owner_from(taken, text, index + 1)
    }
}

/// The first of the sequences, from an index on, that another action holds, and that action's label.
pub open spec fn conflict_from(
    sequences: Seq<Seq<char>>,
    taken: Seq<(Seq<char>, Seq<char>)>,
    index: int,
) -> Option<(Seq<char>, Seq<char>)>
    decreases sequences.len() - index,
{
    if index < 0 || index >= sequences.len() {
        None
    } else {
        match owner_from(taken, sequences[index], 0) {
            Some(owner) => Some((sequences[index], owner)),
            None => conflict_from(sequences, taken, index + 1),
        }
    }
}

fn owner_of(taken: &Vec<(String, &'static str)>, text: &str) -> (owner: Option<&'static str>)
    ensures
        match owner {
            Some(label) => owner_from(settings_dialog::taken_models(taken@), text@, 0) == Some(
                label@,
            ),
            None => owner_from(settings_dialog::taken_models(taken@), text@, 0) is None,
        },
{
    let ghost models = settings_dialog::taken_models(taken@);
    let mut index: usize = 0;
    while index < taken.len()
        invariant
            models == settings_dialog::taken_models(taken@),
            index <= taken@.len(),
            owner_from(models, text@, 0) == owner_from(models, text@, index as int),
        decreases taken@.len() - index,
    {
        assert(models[index as int] == (taken@[index as int].0@, taken@[index as int].1@));
        if same_text(taken[index].0.as_str(), text) {
            return Some(taken[index].1);
        }
        index += 1;
    }
    None
}

/// What the warning of a conflict says.
pub open spec fn conflict_text(encoding: Seq<char>, owner: Seq<char>) -> Seq<char> {
    "\""@ + encoding + "\" is already bound to \""@ + owner + "\""@
}

pub fn conflict_message(encoding: &str, owner: &str) -> (message: String)
    ensures
        message@ == conflict_text(encoding@, owner@),
{
    let mut message = String::new();
    message.append("\"");
    message.append(encoding);
    message.append("\" is already bound to \"");
    message.append(owner);
    message.append("\"");
    assert(message@ =~= conflict_text(encoding@, owner@));
    message
}

/// A message the keyboard capture dialog receives.
#[derive(Clone, Copy, PartialEq, Eq, Structural, Debug)]
pub enum KeyboardEvent {
    Initialize,
    /// A key was captured.
    Captured { number: u64 },
    /// The icon beside a sequence was clicked.
    Remove { index: usize },
    Draw { control: i32 },
    Command { control: i32 },
    Other,
}

/// What the keyboard capture dialog does about a message.
pub enum KeyboardAction {
    Ignore,
    Handled,
    /// Fill the list and take the focus.
    Open,
    /// Add the newest sequence to the list, dropping the oldest first where it is full.
    Appended { dropped_first: bool },
    Removed { index: usize },
    Cleared,
    DrawItem,
    /// Warn that a sequence belongs to another action.
    Conflict { encoding: String, owner: &'static str },
    Accept,
    Cancel,
}

pub enum KeyboardActionModel {
    Ignore,
    Handled,
    Open,
    Appended { dropped_first: bool },
    Removed { index: usize },
    Cleared,
    DrawItem,
    Conflict { encoding: Seq<char>, owner: Seq<char> },
    Accept,
    Cancel,
}

impl View for KeyboardAction {
    type V = KeyboardActionModel;

    open spec fn view(&self) -> KeyboardActionModel {
        match self {
            KeyboardAction::Ignore => KeyboardActionModel::Ignore,
            KeyboardAction::Handled => KeyboardActionModel::Handled,
            KeyboardAction::Open => KeyboardActionModel::Open,
            KeyboardAction::Appended { dropped_first } => KeyboardActionModel::Appended {
                dropped_first: *dropped_first,
            },
            KeyboardAction::Removed { index } => KeyboardActionModel::Removed { index: *index },
            KeyboardAction::Cleared => KeyboardActionModel::Cleared,
            KeyboardAction::DrawItem => KeyboardActionModel::DrawItem,
            KeyboardAction::Conflict { encoding, owner } => KeyboardActionModel::Conflict {
                encoding: encoding@,
                owner: owner@,
            },
            KeyboardAction::Accept => KeyboardActionModel::Accept,
            KeyboardAction::Cancel => KeyboardActionModel::Cancel,
        }
    }
}

/// The keyboard capture dialog.
pub struct KeyboardCapture {
    pub sequences: Vec<String>,
    pub taken: Vec<(String, &'static str)>,
    pub accepted: bool,
}

#[verifier::ext_equal]
pub struct KeyboardCaptureModel {
    pub sequences: Seq<Seq<char>>,
    pub taken: Seq<(Seq<char>, Seq<char>)>,
    pub accepted: bool,
}

impl View for KeyboardCapture {
    type V = KeyboardCaptureModel;

    open spec fn view(&self) -> KeyboardCaptureModel {
        KeyboardCaptureModel {
            sequences: strings::spellings(self.sequences@),
            taken: settings_dialog::taken_models(self.taken@),
            accepted: self.accepted,
        }
    }
}

impl KeyboardCaptureModel {
    /// The sequences once a key was captured: a new one goes last, and the oldest leaves a full list.
    pub open spec fn with_captured(self, modifiers: u8, virtual_key: u16) -> Seq<Seq<char>> {
        match keys::key_text(modifiers, virtual_key) {
            Some(text) => if self.sequences.contains(text) {
                self.sequences
            } else if self.sequences.len() == MAXIMUM_KEYBOARD_SEQUENCES {
                self.sequences.skip(1).push(text)
            } else {
                self.sequences.push(text)
            },
            None => self.sequences,
        }
    }

    /// What the dialog does about a message, and what it is then.
    pub open spec fn response(self, event: KeyboardEvent) -> (
        KeyboardCaptureModel,
        KeyboardActionModel,
    ) {
        match event {
            KeyboardEvent::Initialize => (self, KeyboardActionModel::Open),
            KeyboardEvent::Captured { number } => {
                let (modifiers, virtual_key) = key_of_number(number);
                let after = self.with_captured(modifiers, virtual_key);
                (
                    KeyboardCaptureModel { sequences: after, ..self },
                    match keys::key_text(modifiers, virtual_key) {
                        Some(text) => if self.sequences.contains(text) {
                            KeyboardActionModel::Handled
                        } else {
                            KeyboardActionModel::Appended {
                                dropped_first: self.sequences.len() == MAXIMUM_KEYBOARD_SEQUENCES,
                            }
                        },
                        None => KeyboardActionModel::Handled,
                    },
                )
            },
            KeyboardEvent::Remove { index } => if index < self.sequences.len() {
                (
                    KeyboardCaptureModel { sequences: self.sequences.remove(index as int), ..self },
                    KeyboardActionModel::Removed { index },
                )
            } else {
                (self, KeyboardActionModel::Handled)
            },
            KeyboardEvent::Draw { control } => (
                self,
                if control == IDC_CAPTURE_KEYBOARD_LIST {
                    KeyboardActionModel::DrawItem
                } else {
                    KeyboardActionModel::Ignore
                },
            ),
            KeyboardEvent::Command { control } => if control == IDC_CAPTURE_KEYBOARD_CLEAR {
                (
                    KeyboardCaptureModel { sequences: Seq::empty(), ..self },
                    KeyboardActionModel::Cleared,
                )
            } else if control == IDOK {
                match conflict_from(self.sequences, self.taken, 0) {
                    Some((encoding, owner)) => (
                        self,
                        KeyboardActionModel::Conflict { encoding, owner },
                    ),
                    None => (
                        KeyboardCaptureModel { accepted: true, ..self },
                        KeyboardActionModel::Accept,
                    ),
                }
            } else if control == IDCANCEL {
                (self, KeyboardActionModel::Cancel)
            } else {
                (self, KeyboardActionModel::Ignore)
            },
            KeyboardEvent::Other => (self, KeyboardActionModel::Ignore),
        }
    }
}

impl KeyboardCapture {
    pub fn new(current: Vec<String>, taken: Vec<(String, &'static str)>) -> (capture: Self)
        ensures
            capture@ == (KeyboardCaptureModel {
                sequences: strings::spellings(current@),
                taken: settings_dialog::taken_models(taken@),
                accepted: false,
            }),
    {
        KeyboardCapture { sequences: current, taken, accepted: false }
    }

    fn capture(&mut self, modifiers: u8, virtual_key: u16) -> (action: KeyboardAction)
        ensures
            (final(self)@, action@) == old(self)@.response(
                KeyboardEvent::Captured { number: key_number(modifiers, virtual_key) as u64 },
            ),
    {
        let ghost before = self@;
        proof {
            lemma_captures_travel_whole(modifiers, virtual_key, MouseBase::Back);
        }
        assert(before.sequences.len() == self.sequences@.len());
        match format_key_sequence(modifiers, virtual_key) {
            Some(sequence) => {
                if holds_text(&self.sequences, sequence.as_str()) {
                    return KeyboardAction::Handled;
                }
                let dropped_first: bool = self.sequences.len() == MAXIMUM_KEYBOARD_SEQUENCES;
                if dropped_first {
                    self.sequences.remove(0);
                    assert(strings::spellings(self.sequences@) =~= before.sequences.skip(1));
                }
                let ghost kept = strings::spellings(self.sequences@);
                let ghost text = sequence@;
                self.sequences.push(sequence);
                assert(strings::spellings(self.sequences@) =~= kept.push(text));
                KeyboardAction::Appended { dropped_first }
            },
            None => KeyboardAction::Handled,
        }
    }

    fn conflict(&self) -> (found: Option<(String, &'static str)>)
        ensures
            match found {
                Some((encoding, owner)) => conflict_from(self@.sequences, self@.taken, 0) == Some(
                    (encoding@, owner@),
                ),
                None => conflict_from(self@.sequences, self@.taken, 0) is None,
            },
    {
        let ghost models = self@.sequences;
        let mut index: usize = 0;
        while index < self.sequences.len()
            invariant
                models == self@.sequences,
                models == strings::spellings(self.sequences@),
                index <= self.sequences@.len(),
                conflict_from(models, self@.taken, 0) == conflict_from(
                    models,
                    self@.taken,
                    index as int,
                ),
            decreases self.sequences@.len() - index,
        {
            assert(models[index as int] == self.sequences@[index as int]@);
            match owner_of(&self.taken, self.sequences[index].as_str()) {
                Some(owner) => {
                    return Some((self.sequences[index].clone(), owner));
                },
                None => {},
            }
            index += 1;
        }
        None
    }

    /// Takes in a message; answers what the dialog does about it.
    pub fn keyboard_procedure(&mut self, event: KeyboardEvent) -> (action: KeyboardAction)
        ensures
            (final(self)@, action@) == old(self)@.response(event),
    {
        let ghost before = self@;
        match event {
            KeyboardEvent::Initialize => KeyboardAction::Open,
            KeyboardEvent::Captured { number } => {
                let (modifiers, virtual_key) = unpack_key(number);
                proof {
                    lemma_captures_travel_whole(modifiers, virtual_key, MouseBase::Back);
                }
                self.capture(modifiers, virtual_key)
            },
            KeyboardEvent::Remove { index } => {
                assert(before.sequences.len() == self.sequences@.len());
                if index < self.sequences.len() {
                    self.sequences.remove(index);
                    assert(strings::spellings(self.sequences@) =~= before.sequences.remove(
                        index as int,
                    ));
                    KeyboardAction::Removed { index }
                } else {
                    KeyboardAction::Handled
                }
            },
            KeyboardEvent::Draw { control } => {
                if control == IDC_CAPTURE_KEYBOARD_LIST {
                    KeyboardAction::DrawItem
                } else {
                    KeyboardAction::Ignore
                }
            },
            KeyboardEvent::Command { control } => {
                if control == IDC_CAPTURE_KEYBOARD_CLEAR {
                    self.sequences.clear();
                    assert(strings::spellings(self.sequences@) =~= Seq::empty());
                    KeyboardAction::Cleared
                } else if control == IDOK {
                    match self.conflict() {
                        Some((encoding, owner)) => KeyboardAction::Conflict { encoding, owner },
                        None => {
                            self.accepted = true;
                            KeyboardAction::Accept
                        },
                    }
                } else if control == IDCANCEL {
                    KeyboardAction::Cancel
                } else {
                    KeyboardAction::Ignore
                }
            },
            KeyboardEvent::Other => KeyboardAction::Ignore,
        }
    }

    /// The sequences, where they were accepted.
    pub fn finish(self) -> (sequences: Option<Vec<String>>)
        ensures
            match sequences {
                Some(kept) => self@.accepted && strings::spellings(kept@) == self@.sequences,
                None => !self@.accepted,
            },
    {
        if self.accepted {
            Some(self.sequences)
        } else {
            None
        }
    }
}

/// A message the mouse capture dialog receives.
#[derive(Clone, Copy, PartialEq, Eq, Structural, Debug)]
pub enum MouseEvent {
    Initialize,
    /// A mouse input was captured.
    Captured { number: u64 },
    Command { control: i32 },
    Other,
}

/// What the mouse capture dialog does about a message.
pub enum MouseAction {
    Ignore,
    Handled,
    /// Show the binding in the field.
    ShowBinding,
    /// Warn that the binding belongs to another action.
    Conflict { encoding: String, owner: &'static str },
    Accept,
    Cancel,
}

pub enum MouseActionModel {
    Ignore,
    Handled,
    ShowBinding,
    Conflict { encoding: Seq<char>, owner: Seq<char> },
    Accept,
    Cancel,
}

impl View for MouseAction {
    type V = MouseActionModel;

    open spec fn view(&self) -> MouseActionModel {
        match self {
            MouseAction::Ignore => MouseActionModel::Ignore,
            MouseAction::Handled => MouseActionModel::Handled,
            MouseAction::ShowBinding => MouseActionModel::ShowBinding,
            MouseAction::Conflict { encoding, owner } => MouseActionModel::Conflict {
                encoding: encoding@,
                owner: owner@,
            },
            MouseAction::Accept => MouseActionModel::Accept,
            MouseAction::Cancel => MouseActionModel::Cancel,
        }
    }
}

/// The mouse capture dialog.
pub struct MouseCapture {
    pub binding: Option<String>,
    pub taken: Vec<(String, &'static str)>,
    pub accepted: bool,
}

#[verifier::ext_equal]
pub struct MouseCaptureModel {
    pub binding: Option<Seq<char>>,
    pub taken: Seq<(Seq<char>, Seq<char>)>,
    pub accepted: bool,
}

impl View for MouseCapture {
    type V = MouseCaptureModel;

    open spec fn view(&self) -> MouseCaptureModel {
        MouseCaptureModel {
            binding: crate::image::optional_text(self.binding),
            taken: settings_dialog::taken_models(self.taken@),
            accepted: self.accepted,
        }
    }
}

impl MouseCaptureModel {
    /// What the dialog does about a message, and what it is then.
    pub open spec fn response(self, event: MouseEvent) -> (MouseCaptureModel, MouseActionModel) {
        match event {
            MouseEvent::Initialize => (self, MouseActionModel::ShowBinding),
            MouseEvent::Captured { number } => match mouse_of_number(number) {
                Some((modifiers, base)) => (
                    MouseCaptureModel {
                        binding: Some(keys::mouse_text(modifiers, base)),
                        ..self
                    },
                    MouseActionModel::ShowBinding,
                ),
                None => (self, MouseActionModel::Handled),
            },
            MouseEvent::Command { control } => if control == IDC_CAPTURE_MOUSE_CLEAR {
                (MouseCaptureModel { binding: None, ..self }, MouseActionModel::ShowBinding)
            } else if control == IDOK {
                let conflict = match self.binding {
                    Some(binding) => owner_from(self.taken, binding, 0),
                    None => None,
                };
                match (self.binding, conflict) {
                    (Some(encoding), Some(owner)) => (
                        self,
                        MouseActionModel::Conflict { encoding, owner },
                    ),
                    _ => (
                        MouseCaptureModel { accepted: true, ..self },
                        MouseActionModel::Accept,
                    ),
                }
            } else if control == IDCANCEL {
                (self, MouseActionModel::Cancel)
            } else {
                (self, MouseActionModel::Ignore)
            },
            MouseEvent::Other => (self, MouseActionModel::Ignore),
        }
    }
}

impl MouseCapture {
    pub fn new(current: Option<String>, taken: Vec<(String, &'static str)>) -> (capture: Self)
        ensures
            capture@ == (MouseCaptureModel {
                binding: crate::image::optional_text(current),
                taken: settings_dialog::taken_models(taken@),
                accepted: false,
            }),
    {
        MouseCapture { binding: current, taken, accepted: false }
    }

    fn conflict(&self) -> (found: Option<(String, &'static str)>)
        ensures
            match found {
                Some((encoding, owner)) => self@.binding == Some(encoding@) && owner_from(
                    self@.taken,
                    encoding@,
                    0,
                ) == Some(owner@),
                None => self@.binding matches Some(binding) ==> owner_from(
                    self@.taken,
                    binding,
                    0,
                ) is None,
            },
    {
        match &self.binding {
            Some(binding) => match owner_of(&self.taken, binding.as_str()) {
                Some(owner) => Some((binding.clone(), owner)),
                None => None,
            },
            None => None,
        }
    }

    /// Takes in a message; answers what the dialog does about it.
    pub fn mouse_procedure(&mut self, event: MouseEvent) -> (action: MouseAction)
        ensures
            (final(self)@, action@) == old(self)@.response(event),
    {
        match event {
            MouseEvent::Initialize => MouseAction::ShowBinding,
            MouseEvent::Captured { number } => match unpack_mouse(number) {
                Some((modifiers, base)) => {
                    self.binding = Some(format_mouse_encoding(modifiers, base));
                    MouseAction::ShowBinding
                },
                None => MouseAction::Handled,
            },
            MouseEvent::Command { control } => {
                if control == IDC_CAPTURE_MOUSE_CLEAR {
                    self.binding = None;
                    MouseAction::ShowBinding
                } else if control == IDOK {
                    match self.conflict() {
                        Some((encoding, owner)) => MouseAction::Conflict { encoding, owner },
                        None => {
                            self.accepted = true;
                            MouseAction::Accept
                        },
                    }
                } else if control == IDCANCEL {
                    MouseAction::Cancel
                } else {
                    MouseAction::Ignore
                }
            },
            MouseEvent::Other => MouseAction::Ignore,
        }
    }

    /// What the field shows: the binding, or that there is none.
    pub fn field_text(&self) -> (text: String)
        ensures
            text@ == (match self@.binding {
                Some(binding) => binding,
                None => NO_BINDING_TEXT@,
            }),
    {
        match &self.binding {
            Some(binding) => binding.clone(),
            None => NO_BINDING_TEXT.to_owned(),
        }
    }

    /// The binding as a list, where it was accepted.
    pub fn finish(self) -> (encodings: Option<Vec<String>>)
        ensures
            match encodings {
                Some(kept) => self@.accepted && strings::spellings(kept@) == (match self@.binding {
                    Some(binding) => seq![binding],
                    None => Seq::empty(),
                }),
                None => !self@.accepted,
            },
    {
        if !self.accepted {
            return None;
        }
        let ghost binding = self@.binding;
        let mut kept: Vec<String> = Vec::new();
        match self.binding {
            Some(text) => {
                kept.push(text);
                assert(strings::spellings(kept@) =~= seq![text@]);
            },
            None => {
                assert(strings::spellings(kept@) =~= Seq::empty());
            },
        }
        Some(kept)
    }
}

proof fn lemma_no_conflict(
    sequences: Seq<Seq<char>>,
    taken: Seq<(Seq<char>, Seq<char>)>,
    from: int,
    index: int,
)
    requires
        0 <= from <= index < sequences.len(),
        conflict_from(sequences, taken, from) is None,
    ensures
        owner_from(taken, sequences[index], 0) is None,
    decreases index - from,
{
    if from < index {
        lemma_no_conflict(sequences, taken, from + 1, index);
    }
}

proof fn lemma_owned_text_is_taken(taken: Seq<(Seq<char>, Seq<char>)>, from: int, index: int)
    requires
        0 <= from <= index < taken.len(),
    ensures
        owner_from(taken, taken[index].0, from) is Some,
    decreases index - from,
{
    if from < index && taken[from].0 != taken[index].0 {
        lemma_owned_text_is_taken(taken, from + 1, index);
    }
}

/// Sequences are accepted only where none of them belongs to another action.
pub proof fn lemma_accepted_sequences_are_free(capture: KeyboardCaptureModel, index: int, other: int)
    requires
        0 <= index < capture.sequences.len(),
        0 <= other < capture.taken.len(),
        capture.response(KeyboardEvent::Command { control: IDOK }).1 is Accept,
    ensures
        capture.sequences[index] != capture.taken[other].0,
{
    lemma_no_conflict(capture.sequences, capture.taken, 0, index);
    if capture.sequences[index] == capture.taken[other].0 {
        lemma_owned_text_is_taken(capture.taken, 0, other);
    }
}

/// Capturing keeps the list within its limit and free of doubles; what was captured is in it
/// afterwards.
pub proof fn lemma_capturing_keeps_the_list(
    capture: KeyboardCaptureModel,
    modifiers: u8,
    virtual_key: u16,
)
    requires
        capture.sequences.len() <= MAXIMUM_KEYBOARD_SEQUENCES,
        capture.sequences.no_duplicates(),
    ensures
        ({
            let after = capture.with_captured(modifiers, virtual_key);
            &&& after.len() <= MAXIMUM_KEYBOARD_SEQUENCES
            &&& after.no_duplicates()
            &&& keys::key_text(modifiers, virtual_key) matches Some(text) ==> after.contains(text)
        }),
{
    let after = capture.with_captured(modifiers, virtual_key);
    match keys::key_text(modifiers, virtual_key) {
        Some(text) => {
            if !capture.sequences.contains(text) {
                assert(after.last() == text);
                assert(after[after.len() - 1] == text);
                let kept = after.drop_last();
                assert forall|low: int, high: int|
                    0 <= low < after.len() && 0 <= high < after.len() && low != high implies
                    after[low] != after[high] by {
                    let shift: int = if capture.sequences.len() == MAXIMUM_KEYBOARD_SEQUENCES {
                        1
                    } else {
                        0
                    };
                    if low < after.len() - 1 {
                        assert(after[low] == capture.sequences[low + shift]);
                    }
                    if high < after.len() - 1 {
                        assert(after[high] == capture.sequences[high + shift]);
                    }
                }
            }
        },
        None => {},
    }
}

/// A message the field that captures keys receives.
#[derive(Clone, Copy, PartialEq, Eq, Structural, Debug)]
pub enum KeyFieldEvent {
    /// Which keys does it want?
    DialogCode,
    SetFont,
    KeyDown { virtual_key: u16 },
    /// The character of an Alt combination, which arrives after its key was captured.
    SystemCharacter,
    KeyUp,
    FocusChanged,
    ButtonDown,
    Paint,
    Other,
}

/// What the field does about a message.
#[derive(Clone, Copy, PartialEq, Eq, Structural, Debug)]
pub enum FieldAction {
    WantAllKeys,
    KeepFont,
    Repaint,
    /// Send what was captured to the dialog.
    Send { number: u64 },
    Swallow,
    TakeFocus,
    Paint,
    /// Leave it to the system.
    PassOn,
}

/// What the key field does about a message while these modifiers are held.
pub fn keyboard_field_procedure(event: KeyFieldEvent, modifiers: u8) -> (action: FieldAction)
    ensures
        action == (match event {
            KeyFieldEvent::DialogCode => FieldAction::WantAllKeys,
            KeyFieldEvent::SetFont => FieldAction::KeepFont,
            KeyFieldEvent::KeyDown { virtual_key } => if MODIFIER_KEYS@.contains(virtual_key) {
                FieldAction::Repaint
            } else {
                FieldAction::Send { number: key_number(modifiers, virtual_key) as u64 }
            },
            KeyFieldEvent::SystemCharacter => FieldAction::Swallow,
            KeyFieldEvent::KeyUp => FieldAction::Repaint,
            KeyFieldEvent::FocusChanged => FieldAction::Repaint,
            KeyFieldEvent::ButtonDown => FieldAction::TakeFocus,
            KeyFieldEvent::Paint => FieldAction::Paint,
            KeyFieldEvent::Other => FieldAction::PassOn,
        }),
{
    match event {
        KeyFieldEvent::DialogCode => FieldAction::WantAllKeys,
        KeyFieldEvent::SetFont => FieldAction::KeepFont,
        KeyFieldEvent::KeyDown { virtual_key } => {
            if is_modifier_key(virtual_key) {
                FieldAction::Repaint
            } else {
                FieldAction::Send { number: pack_key(modifiers, virtual_key) }
            }
        },
        KeyFieldEvent::SystemCharacter => FieldAction::Swallow,
        KeyFieldEvent::KeyUp => FieldAction::Repaint,
        KeyFieldEvent::FocusChanged => FieldAction::Repaint,
        KeyFieldEvent::ButtonDown => FieldAction::TakeFocus,
        KeyFieldEvent::Paint => FieldAction::Paint,
        KeyFieldEvent::Other => FieldAction::PassOn,
    }
}

/// What the key field shows, and whether it is a hint: the modifiers held so far, where it has the
/// focus.
pub fn keyboard_field_text(focused: bool, modifiers: u8) -> (shown: (String, bool))
    ensures
        !focused ==> shown.0@ == "Click here to capture"@ && shown.1,
        focused && keys::prefix_of(modifiers).len() == 0 ==> shown.0@
            == "Press a key combination..."@ && shown.1,
        focused && keys::prefix_of(modifiers).len() > 0 ==> shown.0@ == keys::prefix_of(modifiers)
            + "..."@ && !shown.1,
{
    if !focused {
        return ("Click here to capture".to_owned(), true);
    }
    let mut text = modifier_prefix(modifiers);
    if text.as_str().unicode_len() == 0 {
        ("Press a key combination...".to_owned(), true)
    } else {
        text.append("...");
        (text, false)
    }
}

/// A message the field that captures mouse inputs receives.
#[derive(Clone, Copy, PartialEq, Eq, Structural, Debug)]
pub enum MouseFieldEvent {
    SetFont,
    ButtonDown,
    DoubleClick,
    WheelButton,
    XButton { flags: u16 },
    Wheel { delta: i16 },
    FocusChanged,
    Paint,
    Other,
}

/// The mouse input an event of the field is, if it is one to capture.
pub open spec fn captured_base(event: MouseFieldEvent) -> Option<MouseBase> {
    match event {
        MouseFieldEvent::DoubleClick => Some(MouseBase::DoubleClick),
        MouseFieldEvent::WheelButton => Some(MouseBase::WheelButton),
        MouseFieldEvent::XButton { flags } => Some(
            if flags & 2 != 0 {
                MouseBase::Forward
            } else {
                MouseBase::Back
            },
        ),
        MouseFieldEvent::Wheel { delta } => Some(
            if delta > 0 {
                MouseBase::WheelUp
            } else {
                MouseBase::WheelDown
            },
        ),
        _ => None,
    }
}

/// What the mouse field does about a message while these modifiers are held.
pub fn mouse_field_procedure(event: MouseFieldEvent, modifiers: u8) -> (action: FieldAction)
    ensures
        action == (match captured_base(event) {
            Some(base) => FieldAction::Send { number: mouse_number(modifiers, base) as u64 },
            None => match event {
                MouseFieldEvent::SetFont => FieldAction::KeepFont,
                MouseFieldEvent::ButtonDown => FieldAction::TakeFocus,
                MouseFieldEvent::FocusChanged => FieldAction::Repaint,
                MouseFieldEvent::Paint => FieldAction::Paint,
                _ => FieldAction::PassOn,
            },
        }),
{
    match event {
        MouseFieldEvent::SetFont => FieldAction::KeepFont,
        MouseFieldEvent::ButtonDown => FieldAction::TakeFocus,
        MouseFieldEvent::DoubleClick => FieldAction::Send {
            number: pack_mouse(modifiers, MouseBase::DoubleClick),
        },
        MouseFieldEvent::WheelButton => FieldAction::Send {
            number: pack_mouse(modifiers, MouseBase::WheelButton),
        },
        MouseFieldEvent::XButton { flags } => FieldAction::Send {
            number: pack_mouse(modifiers, MouseBase::from_xbutton_flags(flags)),
        },
        MouseFieldEvent::Wheel { delta } => FieldAction::Send {
            number: pack_mouse(modifiers, MouseBase::from_wheel_delta(delta)),
        },
        MouseFieldEvent::FocusChanged => FieldAction::Repaint,
        MouseFieldEvent::Paint => FieldAction::Paint,
        MouseFieldEvent::Other => FieldAction::PassOn,
    }
}

/// What the mouse field shows of its text, and whether it is a hint.
pub fn mouse_field_text(current: &str) -> (shown: (String, bool))
    ensures
        shown.0@ == (if current@.len() == 0 {
            NO_BINDING_TEXT@
        } else {
            current@
        }),
        shown.1 == (current@.len() == 0 || current@ == NO_BINDING_TEXT@),
{
    if current.unicode_len() == 0 {
        return (NO_BINDING_TEXT.to_owned(), true);
    }
    let hint: bool = same_text(current, NO_BINDING_TEXT);
    (current.to_owned(), hint)
}

/// The square at a row's right end that removes it.
pub open spec fn icon_of(item: Rect) -> Rect {
    Rect {
        left: (item.right - (item.bottom - item.top)) as i32,
        top: item.top,
        right: item.right,
        bottom: item.bottom,
    }
}

pub fn remove_icon_bounds(item: &Rect) -> (zone: Rect)
    requires
        i32::MIN <= item.bottom - item.top <= i32::MAX,
        i32::MIN <= item.right - (item.bottom - item.top) <= i32::MAX,
    ensures
        zone == icon_of(*item),
{
    let side: i32 = item.bottom - item.top;
    Rect { left: item.right - side, top: item.top, right: item.right, bottom: item.bottom }
}

/// Whether a click on a list lands on the icon of the row that is selected.
pub fn hits_remove_icon(item: &Rect, x: i32, y: i32) -> (hit: bool)
    requires
        i32::MIN <= item.bottom - item.top <= i32::MAX,
        i32::MIN <= item.right - (item.bottom - item.top) <= i32::MAX,
    ensures
        hit == (icon_of(*item).left <= x < icon_of(*item).right && icon_of(*item).top <= y
            < icon_of(*item).bottom),
{
    let zone = remove_icon_bounds(item);
    x >= zone.left && x < zone.right && y >= zone.top && y < zone.bottom
}

/// How far the icon's cross is inset and how wide its strokes are.
pub fn icon_strokes(side: u32) -> (strokes: (u32, u32))
    ensures
        strokes.0 == side / 4,
        strokes.1 == (if side / 10 > 1 {
            side / 10
        } else {
            1u32
        }),
{
    let stroke: u32 = side / 10;
    (
        side / 4,
        if stroke > 1 {
            stroke
        } else {
            1
        },
    )
}

/// Where the rows of a list end, from the count of its items, the first that shows, and their height.
pub fn below_last_item(count: i32, first_shown: i32, item_height: i32) -> (top: i32)
    requires
        i32::MIN <= count - first_shown <= i32::MAX,
        i32::MIN <= (count - first_shown) * item_height <= i32::MAX,
    ensures
        top == (count - first_shown) * item_height,
{
    (count - first_shown) * item_height
}

/// What happens to the list of sequences.
#[derive(Clone, Copy, PartialEq, Eq, Structural, Debug)]
pub enum ListEvent {
    /// The background is to be erased.
    Erase,
    /// The button goes down at a point; the selected row and its bounds, where one is.
    Press { x: i32, y: i32, selected: Option<usize>, bounds: Rect },
    Other,
}

#[derive(Clone, Copy, PartialEq, Eq, Structural, Debug)]
pub enum ListAction {
    /// Each row fills its own background, so only the space under the last one is left.
    EraseBelowRows,
    /// The row goes, and the selection does not move.
    Remove(usize),
    /// The list's own procedure goes on.
    Forward,
}

/// A press on the selected row's icon removes it; anything else is the list's own business.
pub fn keyboard_list_procedure(event: ListEvent) -> (action: ListAction)
    requires
        event matches ListEvent::Press { bounds, .. } ==> i32::MIN <= bounds.bottom - bounds.top
            <= i32::MAX && i32::MIN <= bounds.right - (bounds.bottom - bounds.top) <= i32::MAX,
    ensures
        action == (match event {
            ListEvent::Erase => ListAction::EraseBelowRows,
            ListEvent::Press { x, y, selected: Some(row), bounds } => if icon_of(bounds).left <= x
                && x < icon_of(bounds).right && icon_of(bounds).top <= y && y < icon_of(
                bounds,
            ).bottom {
                ListAction::Remove(row)
            } else {
                ListAction::Forward
            },
            _ => ListAction::Forward,
        }),
{
    match event {
        ListEvent::Erase => ListAction::EraseBelowRows,
        ListEvent::Press { x, y, selected: Some(row), bounds } => if hits_remove_icon(&bounds, x, y) {
            ListAction::Remove(row)
        } else {
            ListAction::Forward
        },
        _ => ListAction::Forward,
    }
}

} // verus!
