//! Action definitions; every input path converges on one dispatcher.

use vstd::prelude::*;

use crate::strings::same_text;

verus! {

/// What an action needs before it can act; the menu and the dispatcher share it.
#[derive(Clone, Copy, PartialEq, Eq, Structural, Debug)]
pub enum ActionRequirement {
    Window,
    Image,
    /// Image whose backing file can take file operations (not an archive member).
    FileOnDisk,
    /// Image carried by some file on disk (the archive for members, never a URL).
    ContainingFile,
    Animation,
    /// Somewhere to go besides the anchor itself (single-entry folders stay inert).
    NavigationTargets,
    /// At least one recent file, so there is something to clear.
    RecentFiles,
}

impl ActionRequirement {
    /// Every requirement, in declaration order.
    pub const ALL: [ActionRequirement; 7] = [
        ActionRequirement::Window,
        ActionRequirement::Image,
        ActionRequirement::FileOnDisk,
        ActionRequirement::ContainingFile,
        ActionRequirement::Animation,
        ActionRequirement::NavigationTargets,
        ActionRequirement::RecentFiles,
    ];

    /// Declaration order is the index a snapshot stores each answer at.
    pub open spec fn place(self) -> int {
        match self {
            ActionRequirement::Window => 0,
            ActionRequirement::Image => 1,
            ActionRequirement::FileOnDisk => 2,
            ActionRequirement::ContainingFile => 3,
            ActionRequirement::Animation => 4,
            ActionRequirement::NavigationTargets => 5,
            ActionRequirement::RecentFiles => 6,
        }
    }

    fn index(self) -> (index: usize)
        ensures
            index == self.place(),
    {
        match self {
            ActionRequirement::Window => 0,
            ActionRequirement::Image => 1,
            ActionRequirement::FileOnDisk => 2,
            ActionRequirement::ContainingFile => 3,
            ActionRequirement::Animation => 4,
            ActionRequirement::NavigationTargets => 5,
            ActionRequirement::RecentFiles => 6,
        }
    }
}

/// The requirements a menu found satisfied as it opened; the builder reads this, never live state.
#[derive(Clone, Copy)]
pub struct SatisfiedRequirements {
    pub answers: [bool; 7],
}

impl Default for SatisfiedRequirements {
    fn default() -> (snapshot: Self)
        ensures
            forall|requirement: ActionRequirement| !#[trigger] snapshot.answer(requirement),
    {
        SatisfiedRequirements { answers: [false; 7] }
    }
}

impl SatisfiedRequirements {
    /// The answer to one requirement.
    pub open spec fn answer(self, requirement: ActionRequirement) -> bool {
        self.answers@[requirement.place()]
    }

    /// Answers every requirement once, at the moment the snapshot is taken.
    pub fn evaluate(satisfied: impl Fn(ActionRequirement) -> bool) -> (snapshot: Self)
        requires
            forall|requirement: ActionRequirement|
                #[trigger] call_requires(satisfied, (requirement,)),
        ensures
            forall|requirement: ActionRequirement|
                #[trigger] call_ensures(
                    satisfied,
                    (requirement,),
                    snapshot.answer(requirement),
                ),
    {
        let window: bool = satisfied(ActionRequirement::Window);
        let image: bool = satisfied(ActionRequirement::Image);
        let file_on_disk: bool = satisfied(ActionRequirement::FileOnDisk);
        let containing_file: bool = satisfied(ActionRequirement::ContainingFile);
        let animation: bool = satisfied(ActionRequirement::Animation);
        let navigation_targets: bool = satisfied(ActionRequirement::NavigationTargets);
        let recent_files: bool = satisfied(ActionRequirement::RecentFiles);
        let snapshot = SatisfiedRequirements {
            answers: [
                window,
                image,
                file_on_disk,
                containing_file,
                animation,
                navigation_targets,
                recent_files,
            ],
        };
        assert forall|requirement: ActionRequirement|
            #[trigger] call_ensures(
                satisfied,
                (requirement,),
                snapshot.answer(requirement),
            ) by {
            match requirement {
                ActionRequirement::Window => {},
                ActionRequirement::Image => {},
                ActionRequirement::FileOnDisk => {},
                ActionRequirement::ContainingFile => {},
                ActionRequirement::Animation => {},
                ActionRequirement::NavigationTargets => {},
                ActionRequirement::RecentFiles => {},
            }
        }
        snapshot
    }

    pub fn satisfied(self, requirement: ActionRequirement) -> (met: bool)
        ensures
            met == self.answer(requirement),
    {
        self.answers[requirement.index()]
    }

    pub fn set(&mut self, requirement: ActionRequirement, satisfied: bool)
        ensures
            forall|other: ActionRequirement|
                #[trigger] final(self).answer(other) == (if other == requirement {
                    satisfied
                } else {
                    old(self).answer(other)
                }),
    {
        self.answers[requirement.index()] = satisfied;
    }
}

/// Variant and table order track the context menu, flattened.
#[derive(Clone, Copy, PartialEq, Eq, Structural, Debug)]
pub enum Action {
    Open,
    OpenUrl,
    PasteUrl,
    Recent(u8),
    ClearRecents,
    OtherApplication,
    Playlist,
    Loop,
    FirstFile,
    PreviousFile,
    NextFile,
    LastFile,
    Pause,
    PreviousFrame,
    NextFrame,
    DecreaseSpeed,
    IncreaseSpeed,
    ResetSpeed,
    ShowFileInfo,
    Reload,
    ToggleFitMode,
    PreserveZoom,
    ZoomIn,
    ZoomOut,
    ToggleZoom,
    PanUp,
    PanDown,
    PanLeft,
    PanRight,
    RotateLeft,
    RotateRight,
    Mirror,
    Flip,
    ShowInExplorer,
    Rename,
    Delete,
    DeletePermanently,
    ToggleSlideshow,
    Settings,
    AlwaysOnTop,
    Fullscreen,
    Exit,
}

/// (action, name, label, requirement); the name is the binding and dispatch key.
pub const ACTION_TABLE: [(Action, &'static str, &'static str, ActionRequirement); 41] = [
    (Action::Open, "open", "Open...", ActionRequirement::Window),
    (Action::OpenUrl, "openurl", "Open URL...", ActionRequirement::Window),
    (Action::PasteUrl, "pasteurl", "Paste URL", ActionRequirement::Window),
    (Action::ClearRecents, "clearrecents", "Clear recents", ActionRequirement::RecentFiles),
    (Action::OtherApplication, "otherapplication", "Other application...", ActionRequirement::FileOnDisk),
    (Action::Playlist, "playlist", "Playlist", ActionRequirement::NavigationTargets),
    (Action::Loop, "loop", "Loop", ActionRequirement::NavigationTargets),
    (Action::FirstFile, "firstfile", "First file", ActionRequirement::NavigationTargets),
    (Action::PreviousFile, "previousfile", "Previous", ActionRequirement::NavigationTargets),
    (Action::NextFile, "nextfile", "Next", ActionRequirement::NavigationTargets),
    (Action::LastFile, "lastfile", "Last file", ActionRequirement::NavigationTargets),
    (Action::Pause, "pause", "Pause", ActionRequirement::Animation),
    (Action::PreviousFrame, "previousframe", "Previous frame", ActionRequirement::Animation),
    (Action::NextFrame, "nextframe", "Next frame", ActionRequirement::Animation),
    (Action::DecreaseSpeed, "decreasespeed", "Decrease speed", ActionRequirement::Animation),
    (Action::IncreaseSpeed, "increasespeed", "Increase speed", ActionRequirement::Animation),
    (Action::ResetSpeed, "resetspeed", "Reset speed", ActionRequirement::Animation),
    (Action::ShowFileInfo, "showfileinfo", "Show file info", ActionRequirement::Image),
    (Action::Reload, "reload", "Reload", ActionRequirement::Image),
    (Action::ToggleFitMode, "togglefitmode", "Toggle fit mode", ActionRequirement::Image),
    (Action::PreserveZoom, "preservezoom", "Preserve zoom", ActionRequirement::Image),
    (Action::ZoomIn, "zoomin", "Zoom in", ActionRequirement::Image),
    (Action::ZoomOut, "zoomout", "Zoom out", ActionRequirement::Image),
    (Action::ToggleZoom, "togglezoom", "Toggle zoom", ActionRequirement::Image),
    (Action::PanUp, "panup", "Pan up", ActionRequirement::Image),
    (Action::PanDown, "pandown", "Pan down", ActionRequirement::Image),
    (Action::PanLeft, "panleft", "Pan left", ActionRequirement::Image),
    (Action::PanRight, "panright", "Pan right", ActionRequirement::Image),
    (Action::RotateLeft, "rotateleft", "Rotate left", ActionRequirement::Image),
    (Action::RotateRight, "rotateright", "Rotate right", ActionRequirement::Image),
    (Action::Mirror, "mirror", "Mirror", ActionRequirement::Image),
    (Action::Flip, "flip", "Flip", ActionRequirement::Image),
    (Action::ShowInExplorer, "showinexplorer", "Show in Explorer", ActionRequirement::ContainingFile),
    (Action::Rename, "rename", "Rename...", ActionRequirement::FileOnDisk),
    (Action::Delete, "delete", "Delete", ActionRequirement::FileOnDisk),
    (Action::DeletePermanently, "deletepermanently", "Delete permanently", ActionRequirement::FileOnDisk),
    (Action::ToggleSlideshow, "toggleslideshow", "Toggle slideshow", ActionRequirement::NavigationTargets),
    (Action::Settings, "settings", "Settings", ActionRequirement::Window),
    (Action::AlwaysOnTop, "alwaysontop", "Always on top", ActionRequirement::Window),
    (Action::Fullscreen, "fullscreen", "Toggle fullscreen", ActionRequirement::Window),
    (Action::Exit, "exit", "Exit", ActionRequirement::Window),
];

/// How many recent files there are to open again.
pub const RECENT_FILES_LIMIT: usize = 10;

pub const RECENT_NAMES: [&'static str; 10] = [
    "recent0",
    "recent1",
    "recent2",
    "recent3",
    "recent4",
    "recent5",
    "recent6",
    "recent7",
    "recent8",
    "recent9",
];

/// The row of an action; the recent files have none.
pub open spec fn row_of(action: Action) -> int {
    match action {
        Action::Open => 0,
        Action::OpenUrl => 1,
        Action::PasteUrl => 2,
        Action::ClearRecents => 3,
        Action::OtherApplication => 4,
        Action::Playlist => 5,
        Action::Loop => 6,
        Action::FirstFile => 7,
        Action::PreviousFile => 8,
        Action::NextFile => 9,
        Action::LastFile => 10,
        Action::Pause => 11,
        Action::PreviousFrame => 12,
        Action::NextFrame => 13,
        Action::DecreaseSpeed => 14,
        Action::IncreaseSpeed => 15,
        Action::ResetSpeed => 16,
        Action::ShowFileInfo => 17,
        Action::Reload => 18,
        Action::ToggleFitMode => 19,
        Action::PreserveZoom => 20,
        Action::ZoomIn => 21,
        Action::ZoomOut => 22,
        Action::ToggleZoom => 23,
        Action::PanUp => 24,
        Action::PanDown => 25,
        Action::PanLeft => 26,
        Action::PanRight => 27,
        Action::RotateLeft => 28,
        Action::RotateRight => 29,
        Action::Mirror => 30,
        Action::Flip => 31,
        Action::ShowInExplorer => 32,
        Action::Rename => 33,
        Action::Delete => 34,
        Action::DeletePermanently => 35,
        Action::ToggleSlideshow => 36,
        Action::Settings => 37,
        Action::AlwaysOnTop => 38,
        Action::Fullscreen => 39,
        Action::Exit => 40,
        Action::Recent(_) => 41,
    }
}

/// A name told apart by its length and three of its characters.
spec fn name_key(name: Seq<char>) -> int {
    name.len() * 1000000 + (name[0] as int) * 10000 + (name[(name.len() / 2) as int] as int) * 100
        + (name.last() as int)
}

/// The row whose name has this key, the recent names after the table.
spec fn row_of_key(key: int) -> int {
    if key == 5120210 {
        0
    } else if key == 8121108 {
        1
    } else if key == 9130208 {
        2
    } else if key == 13000215 {
        3
    } else if key == 17120910 {
        4
    } else if key == 9130916 {
        5
    } else if key == 5091212 {
        6
    } else if key == 10031701 {
        7
    } else if key == 13131801 {
        8
    } else if key == 9110301 {
        9
    } else if key == 9090301 {
        10
    } else if key == 6131801 {
        11
    } else if key == 14131801 {
        12
    } else if key == 10110301 {
        13
    } else if key == 14011600 {
        14
    } else if key == 14061600 {
        15
    } else if key == 11151600 {
        16
    } else if key == 13160911 {
        17
    } else if key == 7151200 {
        18
    } else if key == 14170301 {
        19
    } else if key == 13131909 {
        20
    } else if key == 7231010 {
        21
    } else if key == 8231016 {
        22
    } else if key == 11170209 {
        23
    } else if key == 6131112 {
        24
    } else if key == 8130110 {
        25
    } else if key == 8130916 {
        26
    } else if key == 9130616 {
        27
    } else if key == 11150216 {
        28
    } else if key == 12150216 {
        29
    } else if key == 7101514 {
        30
    } else if key == 5030612 {
        31
    } else if key == 15162114 {
        32
    } else if key == 7149801 {
        33
    } else if key == 7010201 {
        34
    } else if key == 18011521 {
        35
    } else if key == 16170919 {
        36
    } else if key == 9160615 {
        37
    } else if key == 11981612 {
        38
    } else if key == 11030010 {
        39
    } else if key == 5020616 {
        40
    } else if key == 8150148 {
        41
    } else if key == 8150149 {
        42
    } else if key == 8150150 {
        43
    } else if key == 8150151 {
        44
    } else if key == 8150152 {
        45
    } else if key == 8150153 {
        46
    } else if key == 8150154 {
        47
    } else if key == 8150155 {
        48
    } else if key == 8150156 {
        49
    } else if key == 8150157 {
        50
    } else {
        -1
    }
}

/// The names in the order they stand in: the table's rows, then the recent files.
spec fn table_name(row: int) -> Seq<char> {
    if row < 41 {
        ACTION_TABLE@[row].1@
    } else {
        RECENT_NAMES@[row - 41]@
    }
}

proof fn lemma_keys_of_the_opening_names()
    ensures
        forall|row: int|
            0 <= row < 9 ==> row_of_key(name_key(#[trigger] table_name(row))) == row,
{
    reveal_strlit("open");
    reveal_strlit("openurl");
    reveal_strlit("pasteurl");
    reveal_strlit("clearrecents");
    reveal_strlit("otherapplication");
    reveal_strlit("playlist");
    reveal_strlit("loop");
    reveal_strlit("firstfile");
    reveal_strlit("previousfile");
    assert(name_key("open"@) == 5120210);
    assert(name_key("openurl"@) == 8121108);
    assert(name_key("pasteurl"@) == 9130208);
    assert(name_key("clearrecents"@) == 13000215);
    assert(name_key("otherapplication"@) == 17120910);
    assert(name_key("playlist"@) == 9130916);
    assert(name_key("loop"@) == 5091212);
    assert(name_key("firstfile"@) == 10031701);
    assert(name_key("previousfile"@) == 13131801);
    assert forall|row: int| 0 <= row < 9 implies row_of_key(
        name_key(#[trigger] table_name(row)),
    ) == row by {
        if row == 0 {
            assert(table_name(row) == "open"@);
        } else if row == 1 {
            assert(table_name(row) == "openurl"@);
        } else if row == 2 {
            assert(table_name(row) == "pasteurl"@);
        } else if row == 3 {
            assert(table_name(row) == "clearrecents"@);
        } else if row == 4 {
            assert(table_name(row) == "otherapplication"@);
        } else if row == 5 {
            assert(table_name(row) == "playlist"@);
        } else if row == 6 {
            assert(table_name(row) == "loop"@);
        } else if row == 7 {
            assert(table_name(row) == "firstfile"@);
        } else if row == 8 {
            assert(table_name(row) == "previousfile"@);
        }
    }
}

proof fn lemma_keys_of_the_playback_names()
    ensures
        forall|row: int|
            9 <= row < 18 ==> row_of_key(name_key(#[trigger] table_name(row))) == row,
{
    reveal_strlit("nextfile");
    reveal_strlit("lastfile");
    reveal_strlit("pause");
    reveal_strlit("previousframe");
    reveal_strlit("nextframe");
    reveal_strlit("decreasespeed");
    reveal_strlit("increasespeed");
    reveal_strlit("resetspeed");
    reveal_strlit("showfileinfo");
    assert(name_key("nextfile"@) == 9110301);
    assert(name_key("lastfile"@) == 9090301);
    assert(name_key("pause"@) == 6131801);
    assert(name_key("previousframe"@) == 14131801);
    assert(name_key("nextframe"@) == 10110301);
    assert(name_key("decreasespeed"@) == 14011600);
    assert(name_key("increasespeed"@) == 14061600);
    assert(name_key("resetspeed"@) == 11151600);
    assert(name_key("showfileinfo"@) == 13160911);
    assert forall|row: int| 9 <= row < 18 implies row_of_key(
        name_key(#[trigger] table_name(row)),
    ) == row by {
        if row == 9 {
            assert(table_name(row) == "nextfile"@);
        } else if row == 10 {
            assert(table_name(row) == "lastfile"@);
        } else if row == 11 {
            assert(table_name(row) == "pause"@);
        } else if row == 12 {
            assert(table_name(row) == "previousframe"@);
        } else if row == 13 {
            assert(table_name(row) == "nextframe"@);
        } else if row == 14 {
            assert(table_name(row) == "decreasespeed"@);
        } else if row == 15 {
            assert(table_name(row) == "increasespeed"@);
        } else if row == 16 {
            assert(table_name(row) == "resetspeed"@);
        } else if row == 17 {
            assert(table_name(row) == "showfileinfo"@);
        }
    }
}

proof fn lemma_keys_of_the_view_names()
    ensures
        forall|row: int|
            18 <= row < 27 ==> row_of_key(name_key(#[trigger] table_name(row))) == row,
{
    reveal_strlit("reload");
    reveal_strlit("togglefitmode");
    reveal_strlit("preservezoom");
    reveal_strlit("zoomin");
    reveal_strlit("zoomout");
    reveal_strlit("togglezoom");
    reveal_strlit("panup");
    reveal_strlit("pandown");
    reveal_strlit("panleft");
    assert(name_key("reload"@) == 7151200);
    assert(name_key("togglefitmode"@) == 14170301);
    assert(name_key("preservezoom"@) == 13131909);
    assert(name_key("zoomin"@) == 7231010);
    assert(name_key("zoomout"@) == 8231016);
    assert(name_key("togglezoom"@) == 11170209);
    assert(name_key("panup"@) == 6131112);
    assert(name_key("pandown"@) == 8130110);
    assert(name_key("panleft"@) == 8130916);
    assert forall|row: int| 18 <= row < 27 implies row_of_key(
        name_key(#[trigger] table_name(row)),
    ) == row by {
        if row == 18 {
            assert(table_name(row) == "reload"@);
        } else if row == 19 {
            assert(table_name(row) == "togglefitmode"@);
        } else if row == 20 {
            assert(table_name(row) == "preservezoom"@);
        } else if row == 21 {
            assert(table_name(row) == "zoomin"@);
        } else if row == 22 {
            assert(table_name(row) == "zoomout"@);
        } else if row == 23 {
            assert(table_name(row) == "togglezoom"@);
        } else if row == 24 {
            assert(table_name(row) == "panup"@);
        } else if row == 25 {
            assert(table_name(row) == "pandown"@);
        } else if row == 26 {
            assert(table_name(row) == "panleft"@);
        }
    }
}

proof fn lemma_keys_of_the_file_names()
    ensures
        forall|row: int|
            27 <= row < 36 ==> row_of_key(name_key(#[trigger] table_name(row))) == row,
{
    reveal_strlit("panright");
    reveal_strlit("rotateleft");
    reveal_strlit("rotateright");
    reveal_strlit("mirror");
    reveal_strlit("flip");
    reveal_strlit("showinexplorer");
    reveal_strlit("rename");
    reveal_strlit("delete");
    reveal_strlit("deletepermanently");
    assert(name_key("panright"@) == 9130616);
    assert(name_key("rotateleft"@) == 11150216);
    assert(name_key("rotateright"@) == 12150216);
    assert(name_key("mirror"@) == 7101514);
    assert(name_key("flip"@) == 5030612);
    assert(name_key("showinexplorer"@) == 15162114);
    assert(name_key("rename"@) == 7149801);
    assert(name_key("delete"@) == 7010201);
    assert(name_key("deletepermanently"@) == 18011521);
    assert forall|row: int| 27 <= row < 36 implies row_of_key(
        name_key(#[trigger] table_name(row)),
    ) == row by {
        if row == 27 {
            assert(table_name(row) == "panright"@);
        } else if row == 28 {
            assert(table_name(row) == "rotateleft"@);
        } else if row == 29 {
            assert(table_name(row) == "rotateright"@);
        } else if row == 30 {
            assert(table_name(row) == "mirror"@);
        } else if row == 31 {
            assert(table_name(row) == "flip"@);
        } else if row == 32 {
            assert(table_name(row) == "showinexplorer"@);
        } else if row == 33 {
            assert(table_name(row) == "rename"@);
        } else if row == 34 {
            assert(table_name(row) == "delete"@);
        } else if row == 35 {
            assert(table_name(row) == "deletepermanently"@);
        }
    }
}

proof fn lemma_keys_of_the_window_names()
    ensures
        forall|row: int|
            36 <= row < 41 ==> row_of_key(name_key(#[trigger] table_name(row))) == row,
{
    reveal_strlit("toggleslideshow");
    reveal_strlit("settings");
    reveal_strlit("alwaysontop");
    reveal_strlit("fullscreen");
    reveal_strlit("exit");
    assert(name_key("toggleslideshow"@) == 16170919);
    assert(name_key("settings"@) == 9160615);
    assert(name_key("alwaysontop"@) == 11981612);
    assert(name_key("fullscreen"@) == 11030010);
    assert(name_key("exit"@) == 5020616);
    assert forall|row: int| 36 <= row < 41 implies row_of_key(
        name_key(#[trigger] table_name(row)),
    ) == row by {
        if row == 36 {
            assert(table_name(row) == "toggleslideshow"@);
        } else if row == 37 {
            assert(table_name(row) == "settings"@);
        } else if row == 38 {
            assert(table_name(row) == "alwaysontop"@);
        } else if row == 39 {
            assert(table_name(row) == "fullscreen"@);
        } else if row == 40 {
            assert(table_name(row) == "exit"@);
        }
    }
}

proof fn lemma_keys_of_the_recent_names()
    ensures
        forall|row: int|
            41 <= row < 51 ==> row_of_key(name_key(#[trigger] table_name(row))) == row,
{
    reveal_strlit("recent0");
    reveal_strlit("recent1");
    reveal_strlit("recent2");
    reveal_strlit("recent3");
    reveal_strlit("recent4");
    reveal_strlit("recent5");
    reveal_strlit("recent6");
    reveal_strlit("recent7");
    reveal_strlit("recent8");
    reveal_strlit("recent9");
    assert(name_key("recent0"@) == 8150148);
    assert(name_key("recent1"@) == 8150149);
    assert(name_key("recent2"@) == 8150150);
    assert(name_key("recent3"@) == 8150151);
    assert(name_key("recent4"@) == 8150152);
    assert(name_key("recent5"@) == 8150153);
    assert(name_key("recent6"@) == 8150154);
    assert(name_key("recent7"@) == 8150155);
    assert(name_key("recent8"@) == 8150156);
    assert(name_key("recent9"@) == 8150157);
    assert forall|row: int| 41 <= row < 51 implies row_of_key(
        name_key(#[trigger] table_name(row)),
    ) == row by {
        if row == 41 {
            assert(table_name(row) == "recent0"@);
        } else if row == 42 {
            assert(table_name(row) == "recent1"@);
        } else if row == 43 {
            assert(table_name(row) == "recent2"@);
        } else if row == 44 {
            assert(table_name(row) == "recent3"@);
        } else if row == 45 {
            assert(table_name(row) == "recent4"@);
        } else if row == 46 {
            assert(table_name(row) == "recent5"@);
        } else if row == 47 {
            assert(table_name(row) == "recent6"@);
        } else if row == 48 {
            assert(table_name(row) == "recent7"@);
        } else if row == 49 {
            assert(table_name(row) == "recent8"@);
        } else if row == 50 {
            assert(table_name(row) == "recent9"@);
        }
    }
}

/// No two actions share a name, and no action is named like a recent file.
pub proof fn lemma_names_are_distinct()
    ensures
        forall|first: int, second: int|
            0 <= first < second < ACTION_TABLE@.len() ==> (#[trigger] ACTION_TABLE@[first]).1@ != (
            #[trigger] ACTION_TABLE@[second]).1@,
        forall|first: int, second: int|
            0 <= first < second < RECENT_NAMES@.len() ==> (#[trigger] RECENT_NAMES@[first])@ != (
            #[trigger] RECENT_NAMES@[second])@,
        forall|row: int, recent: int|
            0 <= row < ACTION_TABLE@.len() && 0 <= recent < RECENT_NAMES@.len() ==> (
            #[trigger] ACTION_TABLE@[row]).1@ != (#[trigger] RECENT_NAMES@[recent])@,
{
    lemma_keys_of_the_opening_names();
    lemma_keys_of_the_playback_names();
    lemma_keys_of_the_view_names();
    lemma_keys_of_the_file_names();
    lemma_keys_of_the_window_names();
    lemma_keys_of_the_recent_names();
    assert forall|first: int, second: int|
        0 <= first < second < ACTION_TABLE@.len() implies (#[trigger] ACTION_TABLE@[first]).1@ != (
    #[trigger] ACTION_TABLE@[second]).1@ by {
        assert(table_name(first) == ACTION_TABLE@[first].1@);
        assert(table_name(second) == ACTION_TABLE@[second].1@);
    }
    assert forall|first: int, second: int|
        0 <= first < second < RECENT_NAMES@.len() implies (#[trigger] RECENT_NAMES@[first])@ != (
    #[trigger] RECENT_NAMES@[second])@ by {
        assert(table_name(first + 41) == RECENT_NAMES@[first]@);
        assert(table_name(second + 41) == RECENT_NAMES@[second]@);
    }
    assert forall|row: int, recent: int|
        0 <= row < ACTION_TABLE@.len() && 0 <= recent < RECENT_NAMES@.len() implies (
    #[trigger] ACTION_TABLE@[row]).1@ != (#[trigger] RECENT_NAMES@[recent])@ by {
        assert(table_name(row) == ACTION_TABLE@[row].1@);
        assert(table_name(recent + 41) == RECENT_NAMES@[recent]@);
    }
}

/// The recent file a name opens.
pub open spec fn recent_named_from(name: Seq<char>, index: int) -> Option<int>
    decreases RECENT_NAMES@.len() - index,
{
    if index < 0 || index >= RECENT_NAMES@.len() {
        None
    } else if RECENT_NAMES@[index]@ == name {
        Some(index)
    } else {
        recent_named_from(name, index + 1)
    }
}

/// The first action of the table, from a row on, with this name.
pub open spec fn action_named_from(name: Seq<char>, row: int) -> Option<Action>
    decreases ACTION_TABLE@.len() - row,
{
    if row < 0 || row >= ACTION_TABLE@.len() {
        None
    } else if ACTION_TABLE@[row].1@ == name {
        Some(ACTION_TABLE@[row].0)
    } else {
        action_named_from(name, row + 1)
    }
}

/// The action a name stands for.
pub open spec fn action_named(name: Seq<char>) -> Option<Action> {
    match recent_named_from(name, 0) {
        Some(index) => Some(Action::Recent(index as u8)),
        None => action_named_from(name, 0),
    }
}

/// The name of an action; a recent file past the last has the last one's.
pub open spec fn name_of(action: Action) -> Seq<char> {
    match action {
        Action::Recent(index) => RECENT_NAMES@[if index < RECENT_NAMES@.len() {
            index as int
        } else {
            RECENT_NAMES@.len() - 1
        }]@,
        _ => ACTION_TABLE@[row_of(action)].1@,
    }
}

/// What a menu shows for an action; a recent file's label is its own.
pub open spec fn label_of(action: Action) -> Seq<char> {
    if action is Recent {
        ""@
    } else {
        ACTION_TABLE@[row_of(action)].2@
    }
}

/// Every action but the recent files has its row, and every row its action.
pub proof fn lemma_rows_and_actions_agree(action: Action, row: int)
    ensures
        !(action is Recent) ==> 0 <= row_of(action) < ACTION_TABLE@.len() && ACTION_TABLE@[row_of(
            action,
        )].0 == action,
        0 <= row < ACTION_TABLE@.len() ==> row_of(ACTION_TABLE@[row].0) == row && !(
        ACTION_TABLE@[row].0 is Recent),
{
    if 0 <= row < 41 {
        if row == 0 {
            assert(ACTION_TABLE@[row].0 == Action::Open);
        } else if row == 1 {
            assert(ACTION_TABLE@[row].0 == Action::OpenUrl);
        } else if row == 2 {
            assert(ACTION_TABLE@[row].0 == Action::PasteUrl);
        } else if row == 3 {
            assert(ACTION_TABLE@[row].0 == Action::ClearRecents);
        } else if row == 4 {
            assert(ACTION_TABLE@[row].0 == Action::OtherApplication);
        } else if row == 5 {
            assert(ACTION_TABLE@[row].0 == Action::Playlist);
        } else if row == 6 {
            assert(ACTION_TABLE@[row].0 == Action::Loop);
        } else if row == 7 {
            assert(ACTION_TABLE@[row].0 == Action::FirstFile);
        } else if row == 8 {
            assert(ACTION_TABLE@[row].0 == Action::PreviousFile);
        } else if row == 9 {
            assert(ACTION_TABLE@[row].0 == Action::NextFile);
        } else if row == 10 {
            assert(ACTION_TABLE@[row].0 == Action::LastFile);
        } else if row == 11 {
            assert(ACTION_TABLE@[row].0 == Action::Pause);
        } else if row == 12 {
            assert(ACTION_TABLE@[row].0 == Action::PreviousFrame);
        } else if row == 13 {
            assert(ACTION_TABLE@[row].0 == Action::NextFrame);
        } else if row == 14 {
            assert(ACTION_TABLE@[row].0 == Action::DecreaseSpeed);
        } else if row == 15 {
            assert(ACTION_TABLE@[row].0 == Action::IncreaseSpeed);
        } else if row == 16 {
            assert(ACTION_TABLE@[row].0 == Action::ResetSpeed);
        } else if row == 17 {
            assert(ACTION_TABLE@[row].0 == Action::ShowFileInfo);
        } else if row == 18 {
            assert(ACTION_TABLE@[row].0 == Action::Reload);
        } else if row == 19 {
            assert(ACTION_TABLE@[row].0 == Action::ToggleFitMode);
        } else if row == 20 {
            assert(ACTION_TABLE@[row].0 == Action::PreserveZoom);
        } else if row == 21 {
            assert(ACTION_TABLE@[row].0 == Action::ZoomIn);
        } else if row == 22 {
            assert(ACTION_TABLE@[row].0 == Action::ZoomOut);
        } else if row == 23 {
            assert(ACTION_TABLE@[row].0 == Action::ToggleZoom);
        } else if row == 24 {
            assert(ACTION_TABLE@[row].0 == Action::PanUp);
        } else if row == 25 {
            assert(ACTION_TABLE@[row].0 == Action::PanDown);
        } else if row == 26 {
            assert(ACTION_TABLE@[row].0 == Action::PanLeft);
        } else if row == 27 {
            assert(ACTION_TABLE@[row].0 == Action::PanRight);
        } else if row == 28 {
            assert(ACTION_TABLE@[row].0 == Action::RotateLeft);
        } else if row == 29 {
            assert(ACTION_TABLE@[row].0 == Action::RotateRight);
        } else if row == 30 {
            assert(ACTION_TABLE@[row].0 == Action::Mirror);
        } else if row == 31 {
            assert(ACTION_TABLE@[row].0 == Action::Flip);
        } else if row == 32 {
            assert(ACTION_TABLE@[row].0 == Action::ShowInExplorer);
        } else if row == 33 {
            assert(ACTION_TABLE@[row].0 == Action::Rename);
        } else if row == 34 {
            assert(ACTION_TABLE@[row].0 == Action::Delete);
        } else if row == 35 {
            assert(ACTION_TABLE@[row].0 == Action::DeletePermanently);
        } else if row == 36 {
            assert(ACTION_TABLE@[row].0 == Action::ToggleSlideshow);
        } else if row == 37 {
            assert(ACTION_TABLE@[row].0 == Action::Settings);
        } else if row == 38 {
            assert(ACTION_TABLE@[row].0 == Action::AlwaysOnTop);
        } else if row == 39 {
            assert(ACTION_TABLE@[row].0 == Action::Fullscreen);
        } else if row == 40 {
            assert(ACTION_TABLE@[row].0 == Action::Exit);
        }
    }
}

proof fn lemma_recent_found(index: int, from: int)
    requires
        0 <= from <= index < RECENT_NAMES@.len(),
    ensures
        recent_named_from(RECENT_NAMES@[index]@, from) == Some(index),
    decreases index - from,
{
    if from < index {
        lemma_names_are_distinct();
        assert(RECENT_NAMES@[from]@ != RECENT_NAMES@[index]@);
        lemma_recent_found(index, from + 1);
    }
}

proof fn lemma_recent_missing(row: int, from: int)
    requires
        0 <= row < ACTION_TABLE@.len(),
        0 <= from <= RECENT_NAMES@.len(),
    ensures
        recent_named_from(ACTION_TABLE@[row].1@, from) is None,
    decreases RECENT_NAMES@.len() - from,
{
    if from < RECENT_NAMES@.len() {
        lemma_names_are_distinct();
        assert(ACTION_TABLE@[row].1@ != RECENT_NAMES@[from]@);
        lemma_recent_missing(row, from + 1);
    }
}

proof fn lemma_action_found(row: int, from: int)
    requires
        0 <= from <= row < ACTION_TABLE@.len(),
    ensures
        action_named_from(ACTION_TABLE@[row].1@, from) == Some(ACTION_TABLE@[row].0),
    decreases row - from,
{
    if from < row {
        lemma_names_are_distinct();
        assert(ACTION_TABLE@[from].1@ != ACTION_TABLE@[row].1@);
        lemma_action_found(row, from + 1);
    }
}

/// A name stands for the action that has it: every action comes back from its name, but for recent
/// files past the last.
pub proof fn lemma_name_round_trip(action: Action)
    requires
        action matches Action::Recent(index) ==> index < RECENT_FILES_LIMIT,
    ensures
        action_named(name_of(action)) == Some(action),
{
    match action {
        Action::Recent(index) => {
            lemma_recent_found(index as int, 0);
        },
        _ => {
            let row = row_of(action);
            lemma_rows_and_actions_agree(action, row);
            lemma_recent_missing(row, 0);
            lemma_action_found(row, 0);
        },
    }
}

proof fn lemma_found_recent_has_the_name(name: Seq<char>, from: int)
    requires
        0 <= from <= RECENT_NAMES@.len(),
    ensures
        recent_named_from(name, from) matches Some(index) ==> from <= index < RECENT_NAMES@.len()
            && RECENT_NAMES@[index]@ == name,
    decreases RECENT_NAMES@.len() - from,
{
    if from < RECENT_NAMES@.len() && RECENT_NAMES@[from]@ != name {
        lemma_found_recent_has_the_name(name, from + 1);
    }
}

proof fn lemma_found_action_has_the_name(name: Seq<char>, from: int)
    requires
        0 <= from <= ACTION_TABLE@.len(),
    ensures
        action_named_from(name, from) matches Some(action) ==> !(action is Recent) && name_of(action)
            == name,
    decreases ACTION_TABLE@.len() - from,
{
    if from < ACTION_TABLE@.len() {
        if ACTION_TABLE@[from].1@ == name {
            lemma_rows_and_actions_agree(ACTION_TABLE@[from].0, from);
        } else {
            lemma_found_action_has_the_name(name, from + 1);
        }
    }
}

/// A name never stands for an action of another name.
pub proof fn lemma_found_action_is_named_so(name: Seq<char>)
    ensures
        action_named(name) matches Some(action) ==> name_of(action) == name,
{
    lemma_found_recent_has_the_name(name, 0);
    lemma_found_action_has_the_name(name, 0);
}

impl Action {
    pub fn from_name(name: &str) -> (action: Option<Self>)
        ensures
            action == action_named(name@),
    {
        let mut index: usize = 0;
        while index < RECENT_NAMES.len()
            invariant
                index <= RECENT_NAMES@.len(),
                recent_named_from(name@, 0) == recent_named_from(name@, index as int),
            decreases RECENT_NAMES@.len() - index,
        {
            if same_text(RECENT_NAMES[index], name) {
                return Some(Action::Recent(index as u8));
            }
            index += 1;
        }
        let mut row: usize = 0;
        while row < ACTION_TABLE.len()
            invariant
                row <= ACTION_TABLE@.len(),
                recent_named_from(name@, 0) is None,
                action_named_from(name@, 0) == action_named_from(name@, row as int),
            decreases ACTION_TABLE@.len() - row,
        {
            if same_text(ACTION_TABLE[row].1, name) {
                return Some(ACTION_TABLE[row].0);
            }
            row += 1;
        }
        None
    }

    /// Every action a shortcut can be bound to, in table order.
    pub fn all_bindable() -> (actions: Vec<Action>)
        ensures
            actions@ == ACTION_TABLE@.map_values(
                |row: (Action, &'static str, &'static str, ActionRequirement)| row.0,
            ),
    {
        let mut actions: Vec<Action> = Vec::new();
        let mut row: usize = 0;
        while row < ACTION_TABLE.len()
            invariant
                row <= ACTION_TABLE@.len(),
                actions@.len() == row,
                forall|earlier: int|
                    0 <= earlier < row ==> actions@[earlier] == (#[trigger] ACTION_TABLE@[earlier]).0,
            decreases ACTION_TABLE@.len() - row,
        {
            actions.push(ACTION_TABLE[row].0);
            row += 1;
        }
        actions
    }

    /// The table row; the recent files have none and never ask.
    fn entry(self) -> (row: usize)
        requires
            !(self is Recent),
        ensures
            row == row_of(self),
            row < ACTION_TABLE@.len(),
    {
        proof {
            lemma_rows_and_actions_agree(self, row_of(self));
        }
        let mut row: usize = 0;
        while ACTION_TABLE[row].0 != self
            invariant
                row <= row_of(self),
                row_of(self) < ACTION_TABLE@.len(),
                ACTION_TABLE@[row_of(self)].0 == self,
            decreases row_of(self) - row,
        {
            row += 1;
        }
        proof {
            lemma_rows_and_actions_agree(self, row as int);
        }
        row
    }

    pub fn name(self) -> (name: &'static str)
        ensures
            name@ == name_of(self),
    {
        match self {
            Action::Recent(index) => {
                let place: usize = index as usize;
                if place < RECENT_NAMES.len() {
                    RECENT_NAMES[place]
                } else {
                    RECENT_NAMES[RECENT_NAMES.len() - 1]
                }
            },
            _ => ACTION_TABLE[self.entry()].1,
        }
    }

    /// What a menu shows; a recent file's label is its own.
    pub fn label(self) -> (label: &'static str)
        ensures
            label@ == label_of(self),
    {
        match self {
            Action::Recent(_) => "",
            _ => ACTION_TABLE[self.entry()].2,
        }
    }

    pub fn requirement(self) -> (requirement: ActionRequirement)
        ensures
            requirement == (if self is Recent {
                ActionRequirement::Window
            } else {
                ACTION_TABLE@[row_of(self)].3
            }),
    {
        match self {
            Action::Recent(_) => ActionRequirement::Window,
            _ => ACTION_TABLE[self.entry()].3,
        }
    }

    /// Which way the four pan actions move the image, across and down; the caller sets how far.
    pub fn pan_direction(self) -> (direction: Option<(i32, i32)>)
        ensures
            direction == (match self {
                Action::PanUp => Some((0i32, 1i32)),
                Action::PanDown => Some((0i32, -1i32)),
                Action::PanLeft => Some((1i32, 0i32)),
                Action::PanRight => Some((-1i32, 0i32)),
                _ => None,
            }),
    {
        match self {
            Action::PanUp => Some((0, 1)),
            Action::PanDown => Some((0, -1)),
            Action::PanLeft => Some((1, 0)),
            Action::PanRight => Some((-1, 0)),
            _ => None,
        }
    }
}

} // verus!
