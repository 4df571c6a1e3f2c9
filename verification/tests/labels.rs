use zellij_keymap::labels::{
    color_bare_keys, color_key_label, fg_color, format_action, format_actions, format_dir,
    format_key, format_mode, mode_icon, modifier_legend, BOLD, RESET,
};
use zellij_keymap::model::{
    Action, BareKey, Direction, KeyCombo, Mode, Modifier, ModifierStyle, Palette, PaletteColor,
    ResizeKind, SearchDirection, SearchOption,
};

fn palette() -> Palette {
    Palette {
        fg: PaletteColor::EightBit(1),
        bg: PaletteColor::EightBit(2),
        black: PaletteColor::EightBit(3),
        red: PaletteColor::EightBit(4),
        green: PaletteColor::EightBit(5),
        yellow: PaletteColor::EightBit(6),
        blue: PaletteColor::Rgb(10, 20, 30),
        magenta: PaletteColor::EightBit(8),
        cyan: PaletteColor::EightBit(9),
        white: PaletteColor::EightBit(10),
        orange: PaletteColor::EightBit(11),
        gray: PaletteColor::EightBit(12),
        purple: PaletteColor::EightBit(13),
        gold: PaletteColor::EightBit(14),
        silver: PaletteColor::EightBit(15),
        pink: PaletteColor::EightBit(16),
        brown: PaletteColor::EightBit(17),
    }
}

fn key(bare: BareKey, modifiers: Vec<Modifier>) -> KeyCombo {
    KeyCombo { bare, modifiers }
}

#[test]
fn fg_color_writes_escape_sequences() {
    assert_eq!(fg_color(&PaletteColor::Rgb(1, 22, 255)), "\x1b[38;2;1;22;255m");
    assert_eq!(fg_color(&PaletteColor::EightBit(0)), "\x1b[38;5;0m");
    assert_eq!(fg_color(&PaletteColor::EightBit(200)), "\x1b[38;5;200m");
}

#[test]
fn mode_names_and_icons() {
    assert_eq!(format_mode(Mode::Normal), "Normal");
    assert_eq!(format_mode(Mode::EnterSearch), "Search");
    assert_eq!(format_mode(Mode::RenameTab), "Rename Tab");
    assert_eq!(mode_icon(Mode::Pane), "□");
    assert_eq!(mode_icon(Mode::RenamePane), "✎");
    assert_eq!(format_dir(&Direction::Left), "←");
    assert_eq!(format_dir(&Direction::Down), "↓");
}

#[test]
fn action_labels() {
    assert_eq!(format_action(&Action::Quit), "Quit");
    assert_eq!(format_action(&Action::NoOp), "");
    assert_eq!(format_action(&Action::SwitchToMode(Mode::Pane)), "Pane mode");
    assert_eq!(format_action(&Action::SwitchModeForAllClients(Mode::Locked)), "Locked mode (all)");
    assert_eq!(format_action(&Action::MoveFocus(Direction::Right)), "Focus →");
    assert_eq!(format_action(&Action::MovePane(None)), "Move pane");
    assert_eq!(format_action(&Action::NewPane(Some(Direction::Down))), "New pane ↓");
    assert_eq!(format_action(&Action::GoToTab(12)), "Tab 12");
    assert_eq!(format_action(&Action::GoToTabName("main".to_string())), "Tab 'main'");
    assert_eq!(format_action(&Action::Resize(ResizeKind::Decrease, Some(Direction::Up))), "Shrink ↑");
    assert_eq!(format_action(&Action::Resize(ResizeKind::Increase, None)), "Grow");
    assert_eq!(format_action(&Action::Search(SearchDirection::Up)), "Search prev");
    assert_eq!(format_action(&Action::SearchToggleOption(SearchOption::WholeWord)), "Toggle word");
    assert_eq!(format_action(&Action::WriteChars("abcdefghijkl".to_string())), "Write 'abcdefghi…'");
    assert_eq!(format_action(&Action::WriteChars("ls".to_string())), "Write 'ls'");
    assert_eq!(
        format_action(&Action::Other("ToggleTabSyncOrSomethingLonger".to_string())),
        "ToggleTabSyncOrSomething…"
    );
}

#[test]
fn action_list_labels_are_distinct() {
    let acts = vec![
        Action::MoveFocus(Direction::Left),
        Action::MoveFocus(Direction::Left),
        Action::NoOp,
        Action::SwitchToMode(Mode::Normal),
    ];
    assert_eq!(format_actions(&acts), "Focus ←, Normal mode");
    assert_eq!(format_actions(&vec![Action::NoOp]), "");
    assert_eq!(format_actions(&vec![]), "");
}

#[test]
fn key_labels() {
    let t = ModifierStyle::Text;
    assert_eq!(format_key(&key(BareKey::Char('a'), vec![Modifier::Ctrl]), &t), "Ctrl + a");
    assert_eq!(format_key(&key(BareKey::Char('a'), vec![Modifier::Shift]), &t), "Shift + A");
    assert_eq!(format_key(&key(BareKey::Char('1'), vec![Modifier::Shift]), &t), "Shift + 1");
    assert_eq!(format_key(&key(BareKey::Char(' '), vec![]), &t), "␣");
    assert_eq!(format_key(&key(BareKey::F(5), vec![]), &t), "F5");
    assert_eq!(format_key(&key(BareKey::CapsLock, vec![]), &t), "CapsLock");
    assert_eq!(
        format_key(&key(BareKey::Left, vec![Modifier::Ctrl, Modifier::Alt]), &t),
        "Ctrl + Alt + ←"
    );
    assert_eq!(format_key(&key(BareKey::Char('h'), vec![Modifier::Alt]), &ModifierStyle::MacOS), "⌥ + h");
    assert_eq!(format_key(&key(BareKey::Enter, vec![Modifier::Super]), &ModifierStyle::Linux), "Su + ↵");
}

#[test]
fn legend_per_style() {
    let p = palette();
    let (text, n) = modifier_legend(&ModifierStyle::Text, &p);
    assert_eq!(text, "");
    assert_eq!(n, 0);
    let y = "\x1b[38;5;6m";
    let (mac, n) = modifier_legend(&ModifierStyle::MacOS, &p);
    assert_eq!(
        mac,
        format!("  {y}⌃{RESET} Ctrl  {y}⌥{RESET} Alt  {y}⇧{RESET} Shift  {y}⌘{RESET} Super")
    );
    assert_eq!(n, 33);
    let (linux, n) = modifier_legend(&ModifierStyle::Linux, &p);
    assert_eq!(linux, format!("  {y}C{RESET}trl  {y}A{RESET}lt  {y}S{RESET}hift  {y}Su{RESET}per"));
    assert_eq!(n, 22);
}

#[test]
fn bare_keys_in_colour() {
    let p = palette();
    let blue = "\x1b[38;2;10;20;30m";
    let fg = "\x1b[38;5;1m";
    assert_eq!(color_bare_keys("h", &p, false), format!("{blue}h{RESET}"));
    assert_eq!(
        color_bare_keys("h/←", &p, true),
        format!("{BOLD}{blue}h{RESET}{fg}/{RESET}{BOLD}{blue}←{RESET}")
    );
}

#[test]
fn key_labels_in_colour() {
    let p = palette();
    let blue = "\x1b[38;2;10;20;30m";
    let y = "\x1b[38;5;6m";
    assert_eq!(color_key_label("q", &p, false), format!("{blue}q{RESET}"));
    assert_eq!(
        color_key_label("Ctrl + Alt + h", &p, false),
        format!("{y}Ctrl{RESET}{RESET} + {y}Alt{RESET} + {blue}h{RESET}")
    );
}
