//! Dialogs of one text: what they start with, what they give back, and the messages they show.

use vstd::prelude::*;

use crate::path;
use crate::path::last_position_of;
use crate::resource::{IDCANCEL, IDD_OPEN_URL, IDD_RENAME, IDOK};
use crate::search;
use crate::search::trim;
use crate::strings;
use crate::strings::{characters_of, is_blank, text_of};
use crate::text;
use crate::text::{display_of, wide_of};

verus! {

/// One edit line with OK and Cancel; the template carries the title and the width.
pub struct TextInputRequest<'a> {
    pub template: u16,
    pub initial_text: &'a str,
    /// UTF-16 range to preselect; None leaves the caret at the start.
    pub selection: Option<(usize, usize)>,
}

/// The stem of a name: what comes before its last dot, all of it where that is nothing.
pub open spec fn stem(name: Seq<char>) -> Seq<char> {
    let dot = path::last_position(name, '.', name.len() as int);
    if dot > 0 {
        name.take(dot)
    } else {
        name
    }
}

/// UTF-16 units of the stem, the edit control's unit; a name that is only an extension is all stem.
pub fn stem_utf16_length(name: &str) -> (length: usize)
    ensures
        length == text::wide(stem(name@)).len(),
{
    let characters = characters_of(name);
    match last_position_of(characters.as_slice(), '.', characters.len()) {
        Some(dot) => {
            if dot > 0 {
                let kept = text_of(vstd::slice::slice_subrange(characters.as_slice(), 0, dot));
                assert(kept@ =~= name@.take(dot as int));
                return wide_of(kept.as_str()).len();
            }
        },
        None => {},
    }
    wide_of(name).len()
}

/// The rename dialog's request: the name with its stem preselected.
pub fn rename_request<'a>(current_name: &'a str) -> (request: TextInputRequest<'a>)
    ensures
        request.template == IDD_RENAME,
        request.initial_text@ == current_name@,
        request.selection == Some((0usize, text::wide(stem(current_name@)).len() as usize)),
{
    TextInputRequest {
        template: IDD_RENAME,
        initial_text: current_name,
        selection: Some((0, stem_utf16_length(current_name))),
    }
}

/// What a rename gives: the name as entered, unless it shows nothing.
pub fn entered_name(entered: Option<String>) -> (name: Option<String>)
    ensures
        match entered {
            Some(text) => if strings::blank(text@) {
                name is None
            } else {
                name matches Some(kept) && kept@ == text@
            },
            None => name is None,
        },
{
    match entered {
        Some(text) => {
            if is_blank(text.as_str()) {
                None
            } else {
                Some(text)
            }
        },
        None => None,
    }
}

/// The URL dialog's request: a field with nothing in it.
pub fn url_request() -> (request: TextInputRequest<'static>)
    ensures
        request.template == IDD_OPEN_URL,
        request.initial_text@ == ""@,
        request.selection is None,
{
    TextInputRequest { template: IDD_OPEN_URL, initial_text: "", selection: None }
}

/// What the URL dialog gives: the text without white space at its ends, unless nothing is left.
pub fn entered_url(entered: Option<String>) -> (url: Option<String>)
    ensures
        match entered {
            Some(text) => if search::trimmed(text@).len() == 0 {
                url is None
            } else {
                url matches Some(kept) && kept@ == search::trimmed(text@)
            },
            None => url is None,
        },
{
    match entered {
        Some(text) => {
            let characters = characters_of(text.as_str());
            let kept = trim(characters.as_slice());
            if kept.as_str().unicode_len() == 0 {
                None
            } else {
                Some(kept)
            }
        },
        None => None,
    }
}

/// A message the text dialog receives.
#[derive(Clone, Copy, PartialEq, Eq, Structural, Debug)]
pub enum TextInputEvent {
    Initialize,
    Command { control: i32 },
    Other,
}

/// What the text dialog does about a message.
#[derive(Clone, Copy, PartialEq, Eq, Structural, Debug)]
pub enum TextInputAction {
    Ignore,
    /// Fill the field, preselect, and take the focus.
    Open,
    /// Keep the text and close.
    Accept,
    Cancel,
}

pub fn text_input_procedure(event: TextInputEvent) -> (action: TextInputAction)
    ensures
        action == (match event {
            TextInputEvent::Initialize => TextInputAction::Open,
            TextInputEvent::Command { control } => if control == IDOK {
                TextInputAction::Accept
            } else if control == IDCANCEL {
                TextInputAction::Cancel
            } else {
                TextInputAction::Ignore
            },
            TextInputEvent::Other => TextInputAction::Ignore,
        }),
{
    match event {
        TextInputEvent::Initialize => TextInputAction::Open,
        TextInputEvent::Command { control } => {
            if control == IDOK {
                TextInputAction::Accept
            } else if control == IDCANCEL {
                TextInputAction::Cancel
            } else {
                TextInputAction::Ignore
            }
        },
        TextInputEvent::Other => TextInputAction::Ignore,
    }
}

/// The text of a field, from as many units as it holds.
pub fn field_text(units: &[u16]) -> (shown: String)
    ensures
        shown@ == text::displayed(units@),
{
    display_of(units)
}

/// What a dialog gives back: its text, where it was closed by OK.
pub fn accepted_text(dialog_result: i64, entered: Option<String>) -> (accepted: Option<String>)
    ensures
        match accepted {
            Some(found) => dialog_result == IDOK && (entered matches Some(given) && given@
                == found@),
            None => dialog_result != IDOK || entered is None,
        },
{
    if dialog_result == IDOK as i64 {
        entered
    } else {
        None
    }
}

/// The body every message dialog shows: the lead sentence, a blank line, the detail.
pub fn body_text(lead: &str, detail: &str) -> (body: String)
    ensures
        body@ == lead@ + "\n\n"@ + detail@,
{
    let mut body = String::new();
    body.append(lead);
    body.append("\n\n");
    body.append(detail);
    assert(body@ =~= lead@ + "\n\n"@ + detail@);
    body
}

/// The button that answers yes.
pub const IDYES: i32 = 6;

/// The button that answers no, which the dismissals answer with.
pub const IDNO: i32 = 7;

/// Whether a question was answered with yes: it was shown, and that button was pressed.
pub fn answered_yes(shown: bool, pressed: i32) -> (yes: bool)
    ensures
        yes == (shown && pressed == IDYES),
{
    shown && pressed == IDYES
}

proof fn lemma_last_position_lies_below(name: Seq<char>, character: char, end: int)
    requires
        0 <= end <= name.len(),
    ensures
        path::last_position(name, character, end) < end || end == 0,
        -1 <= path::last_position(name, character, end),
    decreases end,
{
    if end > 0 && name[end - 1] != character {
        lemma_last_position_lies_below(name, character, end - 1);
    }
}

/// A stem is where its name begins, and it holds no more than the name.
pub proof fn lemma_stem_begins_the_name(name: Seq<char>)
    ensures
        stem(name).len() <= name.len(),
        stem(name) == name.take(stem(name).len() as int),
        name.len() > 0 ==> stem(name).len() > 0,
{
    lemma_last_position_lies_below(name, '.', name.len() as int);
    assert(name.take(name.len() as int) =~= name);
}

} // verus!
