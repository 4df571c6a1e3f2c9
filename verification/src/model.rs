//! The values the panel works on: input modes, directions, keys, actions,
//! colours, and the categories that group the bindings.

use vstd::prelude::*;

verus! {

/// An input mode of the host. The variants stand in the host's order, which
/// is the order in which the panel lists its sections.
#[derive(Clone, Copy, Debug, PartialEq, Eq, Structural)]
pub enum Mode {
    Normal,
    Locked,
    Resize,
    Pane,
    Tab,
    Scroll,
    EnterSearch,
    Search,
    RenameTab,
    RenamePane,
    Session,
    Move,
    Prompt,
    Tmux,
}

/// The number of input modes.
pub const MODE_COUNT: usize = 14;

/// The position of a mode in the host's order of modes.
pub open spec fn mode_rank(m: Mode) -> nat {
    match m {
        Mode::Normal => 0,
        Mode::Locked => 1,
        Mode::Resize => 2,
        Mode::Pane => 3,
        Mode::Tab => 4,
        Mode::Scroll => 5,
        Mode::EnterSearch => 6,
        Mode::Search => 7,
        Mode::RenameTab => 8,
        Mode::RenamePane => 9,
        Mode::Session => 10,
        Mode::Move => 11,
        Mode::Prompt => 12,
        Mode::Tmux => 13,
    }
}

/// The mode at position `r` of the host's order (`r < MODE_COUNT`).
pub open spec fn mode_at(r: nat) -> Mode {
    if r == 0 {
        Mode::Normal
    } else if r == 1 {
        Mode::Locked
    } else if r == 2 {
        Mode::Resize
    } else if r == 3 {
        Mode::Pane
    } else if r == 4 {
        Mode::Tab
    } else if r == 5 {
        Mode::Scroll
    } else if r == 6 {
        Mode::EnterSearch
    } else if r == 7 {
        Mode::Search
    } else if r == 8 {
        Mode::RenameTab
    } else if r == 9 {
        Mode::RenamePane
    } else if r == 10 {
        Mode::Session
    } else if r == 11 {
        Mode::Move
    } else if r == 12 {
        Mode::Prompt
    } else {
        Mode::Tmux
    }
}

/// Rank and position are inverse to each other.
pub proof fn lemma_mode_rank_at()
    ensures
        forall|m: Mode| #[trigger] mode_at(mode_rank(m)) == m && mode_rank(m) < MODE_COUNT,
        forall|r: nat| r < MODE_COUNT ==> #[trigger] mode_rank(mode_at(r)) == r,
{
}

impl Mode {
    /// The position of this mode in the host's order.
    pub fn rank(&self) -> (r: usize)
        ensures
            r == mode_rank(*self),
            r < MODE_COUNT,
    {
        match self {
            Mode::Normal => 0,
            Mode::Locked => 1,
            Mode::Resize => 2,
            Mode::Pane => 3,
            Mode::Tab => 4,
            Mode::Scroll => 5,
            Mode::EnterSearch => 6,
            Mode::Search => 7,
            Mode::RenameTab => 8,
            Mode::RenamePane => 9,
            Mode::Session => 10,
            Mode::Move => 11,
            Mode::Prompt => 12,
            Mode::Tmux => 13,
        }
    }

    /// The mode at position `r` of the host's order.
    pub fn from_rank(r: usize) -> (m: Mode)
        requires
            r < MODE_COUNT,
        ensures
            m == mode_at(r as nat),
            mode_rank(m) == r,
    {
        if r == 0 {
            Mode::Normal
        } else if r == 1 {
            Mode::Locked
        } else if r == 2 {
            Mode::Resize
        } else if r == 3 {
            Mode::Pane
        } else if r == 4 {
            Mode::Tab
        } else if r == 5 {
            Mode::Scroll
        } else if r == 6 {
            Mode::EnterSearch
        } else if r == 7 {
            Mode::Search
        } else if r == 8 {
            Mode::RenameTab
        } else if r == 9 {
            Mode::RenamePane
        } else if r == 10 {
            Mode::Session
        } else if r == 11 {
            Mode::Move
        } else if r == 12 {
            Mode::Prompt
        } else {
            Mode::Tmux
        }
    }
}

/// A direction on the screen.
#[derive(Clone, Copy, Debug, PartialEq, Eq, Structural)]
pub enum Direction {
    Left,
    Right,
    Up,
    Down,
}

/// Whether a resize grows or shrinks the pane.
#[derive(Clone, Copy, Debug, PartialEq, Eq, Structural)]
pub enum ResizeKind {
    Increase,
    Decrease,
}

/// The direction of a search in the scroll buffer.
#[derive(Clone, Copy, Debug, PartialEq, Eq, Structural)]
pub enum SearchDirection {
    Down,
    Up,
}

/// A search option that can be toggled.
#[derive(Clone, Copy, Debug, PartialEq, Eq, Structural)]
pub enum SearchOption {
    CaseSensitivity,
    WholeWord,
    Wrap,
}

/// A modifier key.
#[derive(Clone, Copy, Debug, PartialEq, Eq, Structural)]
pub enum Modifier {
    Ctrl,
    Alt,
    Shift,
    Super,
}

/// A key without its modifiers.
#[derive(Clone, Copy, Debug, PartialEq, Eq, Structural)]
pub enum BareKey {
    PageDown,
    PageUp,
    Left,
    Down,
    Up,
    Right,
    Home,
    End,
    Backspace,
    Delete,
    Insert,
    F(u8),
    Char(char),
    Tab,
    Esc,
    Enter,
    CapsLock,
    ScrollLock,
    NumLock,
    PrintScreen,
    Pause,
    Menu,
}

/// A key with the modifiers held with it, in the order Ctrl, Alt, Shift,
/// Super (each at most once).
#[derive(Clone, Debug)]
pub struct KeyCombo {
    pub bare: BareKey,
    pub modifiers: Vec<Modifier>,
}

/// The mouse events the panel tells apart.
#[derive(Clone, Copy, Debug, PartialEq, Eq, Structural)]
pub enum MouseEvent {
    ScrollUp,
    ScrollDown,
    Other,
}

/// An action that a key binding performs, with the parts of it that the
/// panel shows. Actions the panel has no label for are `Other`, with their
/// debug text.
#[derive(Clone, Debug)]
pub enum Action {
    Quit,
    Detach,
    Confirm,
    Deny,
    Copy,
    NoOp,
    SwitchToMode(Mode),
    SwitchModeForAllClients(Mode),
    FocusNextPane,
    FocusPreviousPane,
    SwitchFocus,
    MoveFocus(Direction),
    MoveFocusOrTab(Direction),
    MovePane(Option<Direction>),
    MovePaneBackwards,
    NewPane(Option<Direction>),
    NewFloatingPane,
    NewTiledPane,
    NewInPlacePane,
    CloseFocus,
    TogglePaneEmbedOrFloating,
    ToggleFloatingPanes,
    ToggleFocusFullscreen,
    TogglePaneFrames,
    ToggleActiveSyncTab,
    PaneNameInput,
    UndoRenamePane,
    BreakPane,
    BreakPaneRight,
    BreakPaneLeft,
    NewTab,
    GoToNextTab,
    GoToPreviousTab,
    CloseTab,
    GoToTab(u32),
    GoToTabName(String),
    ToggleTab,
    TabNameInput,
    UndoRenameTab,
    MoveTab(Direction),
    Resize(ResizeKind, Option<Direction>),
    ScrollUp,
    ScrollDown,
    ScrollToTop,
    ScrollToBottom,
    PageScrollUp,
    PageScrollDown,
    HalfPageScrollUp,
    HalfPageScrollDown,
    EditScrollback,
    ClearScreen,
    Search(SearchDirection),
    SearchInput,
    SearchToggleOption(SearchOption),
    Write,
    WriteChars(String),
    PreviousSwapLayout,
    NextSwapLayout,
    DumpLayout,
    DumpScreen,
    RenameSession,
    ToggleMouseMode,
    LaunchOrFocusPlugin,
    LaunchPlugin,
    StartOrReloadPlugin,
    Run,
    Other(String),
}

/// Whether an action is as the host gives it: an action without a label
/// carries its debug text, which is never empty.
pub open spec fn action_ok(a: Action) -> bool {
    a matches Action::Other(t) ==> t@.len() > 0
}

/// Whether every action of a key is as the host gives it.
pub open spec fn actions_ok(acts: Seq<Action>) -> bool {
    forall|i: int| 0 <= i < acts.len() ==> action_ok(#[trigger] acts[i])
}

/// Whether every action of every key is as the host gives it.
pub open spec fn binds_ok(binds: Seq<(KeyCombo, Vec<Action>)>) -> bool {
    forall|j: int| 0 <= j < binds.len() ==> actions_ok(#[trigger] binds[j].1@)
}

/// Whether every action of a keybinding table is as the host gives it.
pub open spec fn keymap_ok(table: Seq<(Mode, Vec<(KeyCombo, Vec<Action>)>)>) -> bool {
    forall|k: int| 0 <= k < table.len() ==> binds_ok(#[trigger] table[k].1@)
}

/// A colour of the host's palette.
#[derive(Clone, Copy, Debug, PartialEq, Eq, Structural)]
pub enum PaletteColor {
    Rgb(u8, u8, u8),
    EightBit(u8),
}

/// The host's palette.
#[derive(Clone, Copy, Debug, PartialEq, Eq, Structural)]
pub struct Palette {
    pub fg: PaletteColor,
    pub bg: PaletteColor,
    pub black: PaletteColor,
    pub red: PaletteColor,
    pub green: PaletteColor,
    pub yellow: PaletteColor,
    pub blue: PaletteColor,
    pub magenta: PaletteColor,
    pub cyan: PaletteColor,
    pub white: PaletteColor,
    pub orange: PaletteColor,
    pub gray: PaletteColor,
    pub purple: PaletteColor,
    pub gold: PaletteColor,
    pub silver: PaletteColor,
    pub pink: PaletteColor,
    pub brown: PaletteColor,
}

/// How modifier keys are written in key labels.
#[derive(Clone, Copy, Debug, PartialEq, Eq, Structural)]
pub enum ModifierStyle {
    /// `Ctrl`, `Alt`, `Shift`, `Super`.
    Text,
    /// The macOS symbols.
    MacOS,
    /// `C`, `A`, `S`, `Su`.
    Linux,
}

/// The group a binding is listed in; sections list their bindings by
/// category in this order.
#[derive(Clone, Copy, Debug, PartialEq, Eq, Structural)]
pub enum ActionCategory {
    FocusPane,
    FocusTab,
    MovePane,
    MoveTab,
    NewPane,
    ClosePane,
    NewTab,
    CloseTab,
    RenamePane,
    RenameTab,
    Toggle,
    ResizeGrow,
    ResizeShrink,
    ResizeOther,
    Layout,
    Scroll,
    Search,
    Copy,
    Session,
    Plugin,
    ModeSwitching,
    Other,
}

/// The number of categories.
pub const CATEGORY_COUNT: usize = 22;

/// The position of a category in the listing order.
pub open spec fn category_rank(c: ActionCategory) -> nat {
    match c {
        ActionCategory::FocusPane => 0,
        ActionCategory::FocusTab => 1,
        ActionCategory::MovePane => 2,
        ActionCategory::MoveTab => 3,
        ActionCategory::NewPane => 4,
        ActionCategory::ClosePane => 5,
        ActionCategory::NewTab => 6,
        ActionCategory::CloseTab => 7,
        ActionCategory::RenamePane => 8,
        ActionCategory::RenameTab => 9,
        ActionCategory::Toggle => 10,
        ActionCategory::ResizeGrow => 11,
        ActionCategory::ResizeShrink => 12,
        ActionCategory::ResizeOther => 13,
        ActionCategory::Layout => 14,
        ActionCategory::Scroll => 15,
        ActionCategory::Search => 16,
        ActionCategory::Copy => 17,
        ActionCategory::Session => 18,
        ActionCategory::Plugin => 19,
        ActionCategory::ModeSwitching => 20,
        ActionCategory::Other => 21,
    }
}

impl ActionCategory {
    /// The position of this category in the listing order.
    pub fn rank(&self) -> (r: usize)
        ensures
            r == category_rank(*self),
            r < CATEGORY_COUNT,
    {
        match self {
            ActionCategory::FocusPane => 0,
            ActionCategory::FocusTab => 1,
            ActionCategory::MovePane => 2,
            ActionCategory::MoveTab => 3,
            ActionCategory::NewPane => 4,
            ActionCategory::ClosePane => 5,
            ActionCategory::NewTab => 6,
            ActionCategory::CloseTab => 7,
            ActionCategory::RenamePane => 8,
            ActionCategory::RenameTab => 9,
            ActionCategory::Toggle => 10,
            ActionCategory::ResizeGrow => 11,
            ActionCategory::ResizeShrink => 12,
            ActionCategory::ResizeOther => 13,
            ActionCategory::Layout => 14,
            ActionCategory::Scroll => 15,
            ActionCategory::Search => 16,
            ActionCategory::Copy => 17,
            ActionCategory::Session => 18,
            ActionCategory::Plugin => 19,
            ActionCategory::ModeSwitching => 20,
            ActionCategory::Other => 21,
        }
    }
}

} // verus!
