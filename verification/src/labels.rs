//! The text the panel shows for modes, directions, actions, keys and
//! colours.

use vstd::prelude::*;
use vstd::string::*;
use crate::model::{
    action_ok, actions_ok, Action, BareKey, KeyCombo, Palette, Direction, Mode, Modifier, ModifierStyle, PaletteColor,
    ResizeKind, SearchDirection, SearchOption,
};
use crate::text::{
    decimal, join, join_strings, lemma_views_push, owned, push_char, push_decimal, split_char,
    split_on_char, split_on_str, split_str, truncate, truncated, views,
};

verus! {

/// Ends every colour or weight.
pub const RESET: &'static str = "\x1b[0m";

/// Starts bold text.
pub const BOLD: &'static str = "\x1b[1m";

/// Starts dim text.
pub const DIM: &'static str = "\x1b[2m";

/// The arrow for a direction.
pub open spec fn dir_text(d: Direction) -> Seq<char> {
    match d {
        Direction::Left => "←"@,
        Direction::Right => "→"@,
        Direction::Up => "↑"@,
        Direction::Down => "↓"@,
    }
}

/// The arrow for a direction.
pub fn format_dir(d: &Direction) -> (r: &'static str)
    ensures
        r@ == dir_text(*d),
{
    match d {
        Direction::Left => "←",
        Direction::Right => "→",
        Direction::Up => "↑",
        Direction::Down => "↓",
    }
}

/// Where a direction sorts among bindings of one category: left, down, up,
/// right.
pub open spec fn dir_rank(d: Direction) -> u8 {
    match d {
        Direction::Left => 0,
        Direction::Down => 1,
        Direction::Up => 2,
        Direction::Right => 3,
    }
}

/// Where a direction sorts among bindings of one category.
pub fn dir_order(d: &Direction) -> (r: u8)
    ensures
        r == dir_rank(*d),
{
    match d {
        Direction::Left => 0,
        Direction::Down => 1,
        Direction::Up => 2,
        Direction::Right => 3,
    }
}

/// The name of a mode.
pub open spec fn mode_name(m: Mode) -> Seq<char> {
    match m {
        Mode::Normal => "Normal"@,
        Mode::Locked => "Locked"@,
        Mode::Resize => "Resize"@,
        Mode::Pane => "Pane"@,
        Mode::Tab => "Tab"@,
        Mode::Scroll => "Scroll"@,
        Mode::EnterSearch => "Search"@,
        Mode::Search => "Search"@,
        Mode::RenameTab => "Rename Tab"@,
        Mode::RenamePane => "Rename Pane"@,
        Mode::Session => "Session"@,
        Mode::Move => "Move"@,
        Mode::Prompt => "Prompt"@,
        Mode::Tmux => "Tmux"@,
    }
}

fn mode_name_str(m: Mode) -> (r: &'static str)
    ensures
        r@ == mode_name(m),
{
    match m {
        Mode::Normal => "Normal",
        Mode::Locked => "Locked",
        Mode::Resize => "Resize",
        Mode::Pane => "Pane",
        Mode::Tab => "Tab",
        Mode::Scroll => "Scroll",
        Mode::EnterSearch => "Search",
        Mode::Search => "Search",
        Mode::RenameTab => "Rename Tab",
        Mode::RenamePane => "Rename Pane",
        Mode::Session => "Session",
        Mode::Move => "Move",
        Mode::Prompt => "Prompt",
        Mode::Tmux => "Tmux",
    }
}

/// The name of a mode.
pub fn format_mode(m: Mode) -> (r: String)
    ensures
        r@ == mode_name(m),
{
    owned(mode_name_str(m))
}

/// The icon of a mode.
pub open spec fn mode_icon_text(m: Mode) -> Seq<char> {
    match m {
        Mode::Normal => "○"@,
        Mode::Locked => "⊘"@,
        Mode::Pane => "□"@,
        Mode::Tab => "◫"@,
        Mode::Resize => "↔"@,
        Mode::Move => "✥"@,
        Mode::Scroll => "↕"@,
        Mode::EnterSearch => "⌕"@,
        Mode::Search => "⌕"@,
        Mode::RenameTab => "✎"@,
        Mode::RenamePane => "✎"@,
        Mode::Session => "◎"@,
        Mode::Prompt => "❯"@,
        Mode::Tmux => "⊞"@,
    }
}

/// The icon of a mode.
pub fn mode_icon(m: Mode) -> (r: &'static str)
    ensures
        r@ == mode_icon_text(m),
{
    match m {
        Mode::Normal => "○",
        Mode::Locked => "⊘",
        Mode::Pane => "□",
        Mode::Tab => "◫",
        Mode::Resize => "↔",
        Mode::Move => "✥",
        Mode::Scroll => "↕",
        Mode::EnterSearch | Mode::Search => "⌕",
        Mode::RenameTab | Mode::RenamePane => "✎",
        Mode::Session => "◎",
        Mode::Prompt => "❯",
        Mode::Tmux => "⊞",
    }
}

/// How a modifier is written in a style.
pub open spec fn modifier_text(style: ModifierStyle, m: Modifier) -> Seq<char> {
    match m {
        Modifier::Ctrl => match style {
            ModifierStyle::Text => "Ctrl"@,
            ModifierStyle::MacOS => "⌃"@,
            ModifierStyle::Linux => "C"@,
        },
        Modifier::Alt => match style {
            ModifierStyle::Text => "Alt"@,
            ModifierStyle::MacOS => "⌥"@,
            ModifierStyle::Linux => "A"@,
        },
        Modifier::Shift => match style {
            ModifierStyle::Text => "Shift"@,
            ModifierStyle::MacOS => "⇧"@,
            ModifierStyle::Linux => "S"@,
        },
        Modifier::Super => match style {
            ModifierStyle::Text => "Super"@,
            ModifierStyle::MacOS => "⌘"@,
            ModifierStyle::Linux => "Su"@,
        },
    }
}

impl ModifierStyle {
    /// How Ctrl is written in this style.
    pub fn ctrl(&self) -> (r: &'static str)
        ensures
            r@ == modifier_text(*self, Modifier::Ctrl),
    {
        match self {
            ModifierStyle::Text => "Ctrl",
            ModifierStyle::MacOS => "⌃",
            ModifierStyle::Linux => "C",
        }
    }

    /// How Alt is written in this style.
    pub fn alt(&self) -> (r: &'static str)
        ensures
            r@ == modifier_text(*self, Modifier::Alt),
    {
        match self {
            ModifierStyle::Text => "Alt",
            ModifierStyle::MacOS => "⌥",
            ModifierStyle::Linux => "A",
        }
    }

    /// How Shift is written in this style.
    pub fn shift(&self) -> (r: &'static str)
        ensures
            r@ == modifier_text(*self, Modifier::Shift),
    {
        match self {
            ModifierStyle::Text => "Shift",
            ModifierStyle::MacOS => "⇧",
            ModifierStyle::Linux => "S",
        }
    }

    /// How Super is written in this style.
    pub fn super_key(&self) -> (r: &'static str)
        ensures
            r@ == modifier_text(*self, Modifier::Super),
    {
        match self {
            ModifierStyle::Text => "Super",
            ModifierStyle::MacOS => "⌘",
            ModifierStyle::Linux => "Su",
        }
    }
}

/// The escape sequence that sets the foreground to a colour.
pub open spec fn color_code(c: PaletteColor) -> Seq<char> {
    match c {
        PaletteColor::Rgb(r, g, b) => "\x1b[38;2;"@ + decimal(r as nat) + ";"@ + decimal(g as nat)
            + ";"@ + decimal(b as nat) + "m"@,
        PaletteColor::EightBit(n) => "\x1b[38;5;"@ + decimal(n as nat) + "m"@,
    }
}

/// The escape sequence that sets the foreground to a colour.
pub fn fg_color(c: &PaletteColor) -> (r: String)
    ensures
        r@ == color_code(*c),
{
    let mut s = String::new();
    match c {
        PaletteColor::Rgb(r, g, b) => {
            s.append("\x1b[38;2;");
            push_decimal(&mut s, *r as u64);
            s.append(";");
            push_decimal(&mut s, *g as u64);
            s.append(";");
            push_decimal(&mut s, *b as u64);
            s.append("m");
        },
        PaletteColor::EightBit(n) => {
            s.append("\x1b[38;5;");
            push_decimal(&mut s, *n as u64);
            s.append("m");
        },
    }
    s
}

/// The label of an action; empty for an action that does nothing.
pub open spec fn action_text(a: Action) -> Seq<char> {
    match a {
        Action::Quit => "Quit"@,
        Action::Detach => "Detach"@,
        Action::Confirm => "Confirm"@,
        Action::Deny => "Deny"@,
        Action::Copy => "Copy"@,
        Action::NoOp => Seq::empty(),
        Action::SwitchToMode(m) => mode_name(m) + " mode"@,
        Action::SwitchModeForAllClients(m) => mode_name(m) + " mode (all)"@,
        Action::FocusNextPane => "Focus next"@,
        Action::FocusPreviousPane => "Focus prev"@,
        Action::SwitchFocus => "Switch focus"@,
        Action::MoveFocus(d) => "Focus "@ + dir_text(d),
        Action::MoveFocusOrTab(d) => "Focus/tab "@ + dir_text(d),
        Action::MovePane(Some(d)) => "Move pane "@ + dir_text(d),
        Action::MovePane(None) => "Move pane"@,
        Action::MovePaneBackwards => "Move pane back"@,
        Action::NewPane(Some(d)) => "New pane "@ + dir_text(d),
        Action::NewPane(None) => "New pane"@,
        Action::NewFloatingPane => "New float pane"@,
        Action::NewTiledPane => "New tiled pane"@,
        Action::NewInPlacePane => "New in-place pane"@,
        Action::CloseFocus => "Close pane"@,
        Action::TogglePaneEmbedOrFloating => "Toggle embed/float"@,
        Action::ToggleFloatingPanes => "Toggle float"@,
        Action::ToggleFocusFullscreen => "Fullscreen"@,
        Action::TogglePaneFrames => "Toggle frames"@,
        Action::ToggleActiveSyncTab => "Sync input"@,
        Action::PaneNameInput => "Rename pane"@,
        Action::UndoRenamePane => "Undo rename pane"@,
        Action::BreakPane => "Break pane"@,
        Action::BreakPaneRight => "Break pane →"@,
        Action::BreakPaneLeft => "Break pane ←"@,
        Action::NewTab => "New tab"@,
        Action::GoToNextTab => "Next tab"@,
        Action::GoToPreviousTab => "Prev tab"@,
        Action::CloseTab => "Close tab"@,
        Action::GoToTab(n) => "Tab "@ + decimal(n as nat),
        Action::GoToTabName(name) => "Tab '"@ + name@ + "'"@,
        Action::ToggleTab => "Toggle tab"@,
        Action::TabNameInput => "Rename tab"@,
        Action::UndoRenameTab => "Undo rename tab"@,
        Action::MoveTab(d) => "Move tab "@ + dir_text(d),
        Action::Resize(r, d) => {
            let word = match r {
                ResizeKind::Increase => "Grow"@,
                ResizeKind::Decrease => "Shrink"@,
            };
            match d {
                Some(d) => word + " "@ + dir_text(d),
                None => word,
            }
        },
        Action::ScrollUp => "Scroll ↑"@,
        Action::ScrollDown => "Scroll ↓"@,
        Action::ScrollToTop => "Scroll top"@,
        Action::ScrollToBottom => "Scroll bottom"@,
        Action::PageScrollUp => "Page ↑"@,
        Action::PageScrollDown => "Page ↓"@,
        Action::HalfPageScrollUp => "Half page ↑"@,
        Action::HalfPageScrollDown => "Half page ↓"@,
        Action::EditScrollback => "Edit scrollback"@,
        Action::ClearScreen => "Clear screen"@,
        Action::Search(SearchDirection::Down) => "Search next"@,
        Action::Search(SearchDirection::Up) => "Search prev"@,
        Action::SearchInput => "Search input"@,
        Action::SearchToggleOption(SearchOption::CaseSensitivity) => "Toggle case"@,
        Action::SearchToggleOption(SearchOption::WholeWord) => "Toggle word"@,
        Action::SearchToggleOption(SearchOption::Wrap) => "Toggle wrap"@,
        Action::Write => "Write"@,
        Action::WriteChars(chars) => "Write '"@ + truncated(chars@, 10) + "'"@,
        Action::PreviousSwapLayout => "Prev layout"@,
        Action::NextSwapLayout => "Next layout"@,
        Action::DumpLayout => "Dump layout"@,
        Action::DumpScreen => "Dump screen"@,
        Action::RenameSession => "Rename session"@,
        Action::ToggleMouseMode => "Toggle mouse"@,
        Action::LaunchOrFocusPlugin => "Plugin"@,
        Action::LaunchPlugin => "Plugin"@,
        Action::StartOrReloadPlugin => "Reload plugin"@,
        Action::Run => "Run command"@,
        Action::Other(debug) => truncated(debug@, 25),
    }
}

fn lit(s: &str) -> (r: String)
    ensures
        r@ == s@,
{
    owned(s)
}

fn lit_then(s: &str, tail: &str) -> (r: String)
    ensures
        r@ == s@ + tail@,
{
    let mut r = owned(s);
    r.append(tail);
    r
}

/// The label of an action; empty for an action that does nothing.
pub fn format_action(a: &Action) -> (r: String)
    requires
        action_ok(*a),
    ensures
        r@ == action_text(*a),
{
    match a {
        Action::Quit => lit("Quit"),
        Action::Detach => lit("Detach"),
        Action::Confirm => lit("Confirm"),
        Action::Deny => lit("Deny"),
        Action::Copy => lit("Copy"),
        Action::NoOp => String::new(),
        Action::SwitchToMode(m) => lit_then(mode_name_str(*m), " mode"),
        Action::SwitchModeForAllClients(m) => lit_then(mode_name_str(*m), " mode (all)"),
        Action::FocusNextPane => lit("Focus next"),
        Action::FocusPreviousPane => lit("Focus prev"),
        Action::SwitchFocus => lit("Switch focus"),
        Action::MoveFocus(d) => lit_then("Focus ", format_dir(d)),
        Action::MoveFocusOrTab(d) => lit_then("Focus/tab ", format_dir(d)),
        Action::MovePane(Some(d)) => lit_then("Move pane ", format_dir(d)),
        Action::MovePane(None) => lit("Move pane"),
        Action::MovePaneBackwards => lit("Move pane back"),
        Action::NewPane(dir) => match dir {
            Some(d) => lit_then("New pane ", format_dir(d)),
            None => lit("New pane"),
        },
        Action::NewFloatingPane => lit("New float pane"),
        Action::NewTiledPane => lit("New tiled pane"),
        Action::NewInPlacePane => lit("New in-place pane"),
        Action::CloseFocus => lit("Close pane"),
        Action::TogglePaneEmbedOrFloating => lit("Toggle embed/float"),
        Action::ToggleFloatingPanes => lit("Toggle float"),
        Action::ToggleFocusFullscreen => lit("Fullscreen"),
        Action::TogglePaneFrames => lit("Toggle frames"),
        Action::ToggleActiveSyncTab => lit("Sync input"),
        Action::PaneNameInput => lit("Rename pane"),
        Action::UndoRenamePane => lit("Undo rename pane"),
        Action::BreakPane => lit("Break pane"),
        Action::BreakPaneRight => lit("Break pane →"),
        Action::BreakPaneLeft => lit("Break pane ←"),
        Action::NewTab => lit("New tab"),
        Action::GoToNextTab => lit("Next tab"),
        Action::GoToPreviousTab => lit("Prev tab"),
        Action::CloseTab => lit("Close tab"),
        Action::GoToTab(n) => {
            let mut r = lit("Tab ");
            push_decimal(&mut r, *n as u64);
            r
        },
        Action::GoToTabName(name) => {
            let mut r = lit("Tab '");
            r.append(name.as_str());
            r.append("'");
            r
        },
        Action::ToggleTab => lit("Toggle tab"),
        Action::TabNameInput => lit("Rename tab"),
        Action::UndoRenameTab => lit("Undo rename tab"),
        Action::MoveTab(d) => lit_then("Move tab ", format_dir(d)),
        Action::Resize(resize, dir) => {
            let word = match resize {
                ResizeKind::Increase => "Grow",
                ResizeKind::Decrease => "Shrink",
            };
            match dir {
                Some(d) => {
                    let mut r = lit_then(word, " ");
                    r.append(format_dir(d));
                    r
                },
                None => lit(word),
            }
        },
        Action::ScrollUp => lit("Scroll ↑"),
        Action::ScrollDown => lit("Scroll ↓"),
        Action::ScrollToTop => lit("Scroll top"),
        Action::ScrollToBottom => lit("Scroll bottom"),
        Action::PageScrollUp => lit("Page ↑"),
        Action::PageScrollDown => lit("Page ↓"),
        Action::HalfPageScrollUp => lit("Half page ↑"),
        Action::HalfPageScrollDown => lit("Half page ↓"),
        Action::EditScrollback => lit("Edit scrollback"),
        Action::ClearScreen => lit("Clear screen"),
        Action::Search(SearchDirection::Down) => lit("Search next"),
        Action::Search(SearchDirection::Up) => lit("Search prev"),
        Action::SearchInput => lit("Search input"),
        Action::SearchToggleOption(opt) => match opt {
            SearchOption::CaseSensitivity => lit("Toggle case"),
            SearchOption::WholeWord => lit("Toggle word"),
            SearchOption::Wrap => lit("Toggle wrap"),
        },
        Action::Write => lit("Write"),
        Action::WriteChars(chars) => {
            let mut r = lit("Write '");
            let t = truncate(chars.as_str(), 10);
            r.append(t.as_str());
            r.append("'");
            r
        },
        Action::PreviousSwapLayout => lit("Prev layout"),
        Action::NextSwapLayout => lit("Next layout"),
        Action::DumpLayout => lit("Dump layout"),
        Action::DumpScreen => lit("Dump screen"),
        Action::RenameSession => lit("Rename session"),
        Action::ToggleMouseMode => lit("Toggle mouse"),
        Action::LaunchOrFocusPlugin => lit("Plugin"),
        Action::LaunchPlugin => lit("Plugin"),
        Action::StartOrReloadPlugin => lit("Reload plugin"),
        Action::Run => lit("Run command"),
        Action::Other(debug) => truncate(debug.as_str(), 25),
    }
}

/// The distinct non-empty labels of the actions, in the order in which
/// they first come.
pub open spec fn distinct_labels(acts: Seq<Action>) -> Seq<Seq<char>>
    decreases acts.len(),
{
    if acts.len() == 0 {
        Seq::empty()
    } else {
        let prev = distinct_labels(acts.drop_last());
        let s = action_text(acts.last());
        if s.len() > 0 && !prev.contains(s) {
            prev.push(s)
        } else {
            prev
        }
    }
}

/// The label of a key's list of actions: the distinct labels, joined by
/// commas.
pub open spec fn actions_text(acts: Seq<Action>) -> Seq<char> {
    join(distinct_labels(acts), ", "@)
}

fn contains_string(v: &Vec<String>, s: &String) -> (b: bool)
    ensures
        b == views(v@).contains(s@),
{
    let mut i: usize = 0;
    while i < v.len()
        invariant
            i <= v.len(),
            forall|j: int| 0 <= j < i ==> v@[j]@ != s@,
        decreases v.len() - i,
    {
        if v[i] == *s {
            assert(views(v@)[i as int] == s@);
            return true;
        }
        i = i + 1;
    }
    assert(!views(v@).contains(s@)) by {
        if views(v@).contains(s@) {
            let j = choose|j: int| 0 <= j < views(v@).len() && views(v@)[j] == s@;
            assert(v@[j]@ == s@);
        }
    }
    false
}

/// The label of a key's list of actions: the distinct labels, joined by
/// commas.
pub fn format_actions(actions: &Vec<Action>) -> (r: String)
    requires
        actions_ok(actions@),
    ensures
        r@ == actions_text(actions@),
{
    let mut seen: Vec<String> = Vec::new();
    let mut i: usize = 0;
    while i < actions.len()
        invariant
            i <= actions.len(),
            actions_ok(actions@),
            views(seen@) == distinct_labels(actions@.take(i as int)),
        decreases actions.len() - i,
    {
        let s = format_action(&actions[i]);
        proof {
            assert(actions@.take(i + 1).drop_last() =~= actions@.take(i as int));
        }
        if !s.as_str().is_empty() && !contains_string(&seen, &s) {
            seen.push(s);
            assert(views(seen@) =~= views(seen@).drop_last().push(views(seen@).last()));
        }
        i = i + 1;
    }
    assert(actions@.take(actions.len() as int) =~= actions@);
    join_strings(&seen, ", ")
}

/// Whether `c` is an ASCII lower-case letter.
pub open spec fn is_ascii_lower(c: char) -> bool {
    'a' <= c && c <= 'z'
}

/// The upper-case letter for an ASCII lower-case letter.
pub open spec fn ascii_upper(c: char) -> char {
    ((c as u32) - 32) as char
}

/// How a key without its modifiers is written; `shift` tells whether Shift
/// is held, which writes a lower-case letter in upper case.
pub open spec fn bare_text(b: BareKey, shift: bool) -> Seq<char> {
    match b {
        BareKey::Char(c) => if c == ' ' {
            "␣"@
        } else if shift && is_ascii_lower(c) {
            seq![ascii_upper(c)]
        } else {
            seq![c]
        },
        BareKey::F(n) => "F"@ + decimal(n as nat),
        BareKey::Enter => "↵"@,
        BareKey::Tab => "⇥"@,
        BareKey::Esc => "Esc"@,
        BareKey::Backspace => "⌫"@,
        BareKey::Delete => "Del"@,
        BareKey::Insert => "Ins"@,
        BareKey::Home => "Home"@,
        BareKey::End => "End"@,
        BareKey::PageUp => "PgUp"@,
        BareKey::PageDown => "PgDn"@,
        BareKey::Left => "←"@,
        BareKey::Right => "→"@,
        BareKey::Up => "↑"@,
        BareKey::Down => "↓"@,
        BareKey::CapsLock => "CapsLock"@,
        BareKey::ScrollLock => "ScrollLock"@,
        BareKey::NumLock => "NumLock"@,
        BareKey::PrintScreen => "PrintScreen"@,
        BareKey::Pause => "Pause"@,
        BareKey::Menu => "Menu"@,
    }
}

/// The label of a key: its modifiers in the given style, then the key
/// itself, joined by " + ".
pub open spec fn key_text(k: KeyCombo, style: ModifierStyle) -> Seq<char> {
    join(
        k.modifiers@.map_values(|m: Modifier| modifier_text(style, m)).push(
            bare_text(k.bare, k.modifiers@.contains(Modifier::Shift)),
        ),
        " + "@,
    )
}

/// Whether the modifiers hold `m`.
pub fn has_modifier(mods: &Vec<Modifier>, m: Modifier) -> (b: bool)
    ensures
        b == mods@.contains(m),
{
    let mut i: usize = 0;
    while i < mods.len()
        invariant
            i <= mods.len(),
            forall|j: int| 0 <= j < i ==> mods@[j] != m,
        decreases mods.len() - i,
    {
        if mods[i] == m {
            assert(mods@[i as int] == m);
            return true;
        }
        i = i + 1;
    }
    false
}

fn format_bare(b: &BareKey, shift: bool) -> (r: String)
    ensures
        r@ == bare_text(*b, shift),
{
    match b {
        BareKey::Char(c) => {
            if *c == ' ' {
                lit("␣")
            } else if shift && 'a' <= *c && *c <= 'z' {
                let mut r = String::new();
                let u: u8 = (*c as u8) - 32;
                assert(u as char == ascii_upper(*c));
                push_char(&mut r, u as char);
                r
            } else {
                let mut r = String::new();
                push_char(&mut r, *c);
                r
            }
        },
        BareKey::F(n) => {
            let mut r = lit("F");
            push_decimal(&mut r, *n as u64);
            r
        },
        BareKey::Enter => lit("↵"),
        BareKey::Tab => lit("⇥"),
        BareKey::Esc => lit("Esc"),
        BareKey::Backspace => lit("⌫"),
        BareKey::Delete => lit("Del"),
        BareKey::Insert => lit("Ins"),
        BareKey::Home => lit("Home"),
        BareKey::End => lit("End"),
        BareKey::PageUp => lit("PgUp"),
        BareKey::PageDown => lit("PgDn"),
        BareKey::Left => lit("←"),
        BareKey::Right => lit("→"),
        BareKey::Up => lit("↑"),
        BareKey::Down => lit("↓"),
        BareKey::CapsLock => lit("CapsLock"),
        BareKey::ScrollLock => lit("ScrollLock"),
        BareKey::NumLock => lit("NumLock"),
        BareKey::PrintScreen => lit("PrintScreen"),
        BareKey::Pause => lit("Pause"),
        BareKey::Menu => lit("Menu"),
    }
}

fn modifier_str(style: &ModifierStyle, m: &Modifier) -> (r: &'static str)
    ensures
        r@ == modifier_text(*style, *m),
{
    match m {
        Modifier::Ctrl => style.ctrl(),
        Modifier::Alt => style.alt(),
        Modifier::Shift => style.shift(),
        Modifier::Super => style.super_key(),
    }
}

/// The label of a key: its modifiers in the given style, then the key
/// itself, joined by " + ".
pub fn format_key(key: &KeyCombo, style: &ModifierStyle) -> (r: String)
    ensures
        r@ == key_text(*key, *style),
{
    let ghost texts = key.modifiers@.map_values(|m: Modifier| modifier_text(*style, m));
    let mut parts: Vec<String> = Vec::new();
    let mut i: usize = 0;
    while i < key.modifiers.len()
        invariant
            i <= key.modifiers@.len(),
            texts == key.modifiers@.map_values(|m: Modifier| modifier_text(*style, m)),
            views(parts@) == texts.take(i as int),
        decreases key.modifiers.len() - i,
    {
        let ghost old_parts = parts@;
        let t = owned(modifier_str(style, &key.modifiers[i]));
        proof {
            lemma_views_push(old_parts, t);
        }
        parts.push(t);
        assert(texts[i as int] == modifier_text(*style, key.modifiers@[i as int]));
        i = i + 1;
        assert(views(parts@) =~= texts.take(i as int));
    }
    let shift = has_modifier(&key.modifiers, Modifier::Shift);
    parts.push(format_bare(&key.bare, shift));
    assert(texts.take(key.modifiers@.len() as int) =~= texts);
    assert(views(parts@) =~= texts.push(bare_text(key.bare, shift)));
    join_strings(&parts, " + ")
}

/// The legend of the modifier symbols shown in the footer, and its width
/// on screen; the text style has none.
pub open spec fn legend(style: ModifierStyle, palette: Palette) -> (Seq<char>, nat) {
    let y = color_code(palette.yellow);
    match style {
        ModifierStyle::MacOS => (
            "  "@ + y + "⌃"@ + RESET@ + " Ctrl  "@ + y + "⌥"@ + RESET@ + " Alt  "@ + y + "⇧"@
                + RESET@ + " Shift  "@ + y + "⌘"@ + RESET@ + " Super"@,
            33,
        ),
        ModifierStyle::Linux => (
            "  "@ + y + "C"@ + RESET@ + "trl  "@ + y + "A"@ + RESET@ + "lt  "@ + y + "S"@ + RESET@
                + "hift  "@ + y + "Su"@ + RESET@ + "per"@,
            22,
        ),
        ModifierStyle::Text => (Seq::empty(), 0),
    }
}

/// The legend of the modifier symbols shown in the footer, and its width
/// on screen.
pub fn modifier_legend(style: &ModifierStyle, palette: &Palette) -> (r: (String, usize))
    ensures
        r.0@ == legend(*style, *palette).0,
        r.1 == legend(*style, *palette).1,
{
    let y = fg_color(&palette.yellow);
    match style {
        ModifierStyle::MacOS => {
            let mut s = lit("  ");
            s.append(y.as_str());
            s.append(style.ctrl());
            s.append(RESET);
            s.append(" Ctrl  ");
            s.append(y.as_str());
            s.append(style.alt());
            s.append(RESET);
            s.append(" Alt  ");
            s.append(y.as_str());
            s.append(style.shift());
            s.append(RESET);
            s.append(" Shift  ");
            s.append(y.as_str());
            s.append(style.super_key());
            s.append(RESET);
            s.append(" Super");
            (s, 33)
        },
        ModifierStyle::Linux => {
            let mut s = lit("  ");
            s.append(y.as_str());
            s.append("C");
            s.append(RESET);
            s.append("trl  ");
            s.append(y.as_str());
            s.append("A");
            s.append(RESET);
            s.append("lt  ");
            s.append(y.as_str());
            s.append("S");
            s.append(RESET);
            s.append("hift  ");
            s.append(y.as_str());
            s.append("Su");
            s.append(RESET);
            s.append("per");
            (s, 22)
        },
        ModifierStyle::Text => (String::new(), 0),
    }
}

/// What starts a bare key: bold when asked, then the blue of the palette.
pub open spec fn bare_open(palette: Palette, bold: bool) -> Seq<char> {
    (if bold {
        BOLD@
    } else {
        Seq::empty()
    }) + color_code(palette.blue)
}

/// The keys of a `/`-separated list, each in blue (and bold when asked),
/// with the separators in the foreground colour.
pub open spec fn colored_bare(s: Seq<char>, palette: Palette, bold: bool) -> Seq<char> {
    join(
        split_char(s, '/').map_values(|k: Seq<char>| bare_open(palette, bold) + k + RESET@),
        color_code(palette.fg) + "/"@ + RESET@,
    )
}

/// The keys of a `/`-separated list, each in blue (and bold when asked),
/// with the separators in the foreground colour.
pub fn color_bare_keys(bare: &str, palette: &Palette, bold: bool) -> (r: String)
    ensures
        r@ == colored_bare(bare@, *palette, bold),
{
    let mut open = if bold {
        lit(BOLD)
    } else {
        String::new()
    };
    let blue = fg_color(&palette.blue);
    open.append(blue.as_str());
    let pieces = split_on_char(bare, '/');
    let ghost want = split_char(bare@, '/').map_values(
        |k: Seq<char>| bare_open(*palette, bold) + k + RESET@,
    );
    let mut colored: Vec<String> = Vec::new();
    let mut i: usize = 0;
    while i < pieces.len()
        invariant
            i <= pieces.len(),
            views(pieces@) == split_char(bare@, '/'),
            open@ == bare_open(*palette, bold),
            want == split_char(bare@, '/').map_values(
                |k: Seq<char>| bare_open(*palette, bold) + k + RESET@,
            ),
            views(colored@) == want.take(i as int),
        decreases pieces.len() - i,
    {
        let mut c = open.clone();
        c.append(pieces[i].as_str());
        c.append(RESET);
        proof {
            lemma_views_push(colored@, c);
        }
        colored.push(c);
        assert(views(pieces@)[i as int] == pieces@[i as int]@);
        assert(want[i as int] == bare_open(*palette, bold) + pieces@[i as int]@ + RESET@);
        i = i + 1;
        assert(views(colored@) =~= want.take(i as int));
    }
    assert(want.take(pieces.len() as int) =~= want);
    let mut sep = fg_color(&palette.fg);
    sep.append("/");
    sep.append(RESET);
    join_strings(&colored, sep.as_str())
}

/// A key label in colour: modifiers in yellow, the keys in blue (see
/// `colored_bare`), the " + " between them plain.
pub open spec fn colored_key(key: Seq<char>, palette: Palette, bold: bool) -> Seq<char> {
    let parts = split_str(key, " + "@);
    if parts.len() <= 1 {
        colored_bare(key, palette, bold)
    } else {
        join(
            parts.drop_last().map_values(|m: Seq<char>| color_code(palette.yellow) + m + RESET@),
            RESET@ + " + "@,
        ) + " + "@ + colored_bare(parts.last(), palette, bold)
    }
}

/// A key label in colour: modifiers in yellow, the keys in blue, the " + "
/// between them plain.
pub fn color_key_label(key: &str, palette: &Palette, bold: bool) -> (r: String)
    ensures
        r@ == colored_key(key@, *palette, bold),
{
    let yellow = fg_color(&palette.yellow);
    proof {
        reveal_strlit(" + ");
    }
    let parts = split_on_str(key, " + ");
    if parts.len() <= 1 {
        return color_bare_keys(key, palette, bold);
    }
    let n = parts.len() - 1;
    let ghost mods = split_str(key@, " + "@).drop_last();
    let ghost want = mods.map_values(|m: Seq<char>| color_code(palette.yellow) + m + RESET@);
    let mut colored: Vec<String> = Vec::new();
    let mut i: usize = 0;
    while i < n
        invariant
            n == parts@.len() - 1,
            i <= n,
            views(parts@) == split_str(key@, " + "@),
            yellow@ == color_code(palette.yellow),
            mods == split_str(key@, " + "@).drop_last(),
            want == mods.map_values(|m: Seq<char>| color_code(palette.yellow) + m + RESET@),
            views(colored@) == want.take(i as int),
        decreases n - i,
    {
        let mut c = yellow.clone();
        c.append(parts[i].as_str());
        c.append(RESET);
        proof {
            lemma_views_push(colored@, c);
        }
        colored.push(c);
        assert(views(parts@)[i as int] == parts@[i as int]@);
        assert(want[i as int] == color_code(palette.yellow) + parts@[i as int]@ + RESET@);
        i = i + 1;
        assert(views(colored@) =~= want.take(i as int));
    }
    assert(want.take(n as int) =~= want);
    let mut sep = lit(RESET);
    sep.append(" + ");
    let mut r = join_strings(&colored, sep.as_str());
    r.append(" + ");
    assert(views(parts@)[n as int] == parts@[n as int]@);
    let last = color_bare_keys(parts[n].as_str(), palette, bold);
    r.append(last.as_str());
    r
}

} // verus!
