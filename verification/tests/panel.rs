use zellij_keymap::keymap::Keybinds;
use zellij_keymap::labels::{BOLD, DIM, RESET};
use zellij_keymap::layout::LineType;
use zellij_keymap::model::{
    Action, BareKey, Direction, KeyCombo, Mode, Modifier, ModifierStyle, MouseEvent, Palette,
    PaletteColor,
};
use zellij_keymap::panel::{parse_modifier_style, Effect, Event, ModeUpdate, PluginMode, State};
use zellij_keymap::host::{PaneCoords, PaneSize};
use zellij_tile::prelude::FloatingPaneCoordinates;

fn palette() -> Palette {
    Palette {
        fg: PaletteColor::EightBit(1),
        bg: PaletteColor::EightBit(2),
        black: PaletteColor::EightBit(3),
        red: PaletteColor::EightBit(4),
        green: PaletteColor::EightBit(5),
        yellow: PaletteColor::EightBit(6),
        blue: PaletteColor::EightBit(7),
        magenta: PaletteColor::EightBit(8),
        cyan: PaletteColor::EightBit(9),
        white: PaletteColor::EightBit(10),
        orange: PaletteColor::EightBit(11),
        gray: PaletteColor::EightBit(12),
        purple: PaletteColor::EightBit(13),
        gold: PaletteColor::EightBit(14),
        silver: PaletteColor::EightBit(15),
        pink: PaletteColor::EightBit(16),
        brown: PaletteColor::EightBit(17),
    }
}

const FG: &str = "\x1b[38;5;1m";
const GREEN: &str = "\x1b[38;5;5m";
const BLUE: &str = "\x1b[38;5;7m";

fn key(bare: BareKey, modifiers: Vec<Modifier>) -> KeyCombo {
    KeyCombo { bare, modifiers }
}

fn press(s: &mut State, bare: BareKey, modifiers: Vec<Modifier>) -> (bool, Vec<Effect>) {
    let mut fx = Vec::new();
    let r = s.update(Event::Key(key(bare, modifiers)), &mut fx);
    (r, fx)
}

fn sample() -> Keybinds {
    vec![
        (
            Mode::Pane,
            vec![
                (key(BareKey::Char('n'), vec![]), vec![Action::NewPane(Some(Direction::Right))]),
                (key(BareKey::Char('x'), vec![]), vec![Action::CloseFocus]),
                (key(BareKey::Char('h'), vec![]), vec![Action::MoveFocus(Direction::Left)]),
                (key(BareKey::Left, vec![]), vec![Action::MoveFocus(Direction::Left)]),
            ],
        ),
        (Mode::Normal, vec![(key(BareKey::Char('p'), vec![Modifier::Ctrl]), vec![Action::SwitchToMode(Mode::Pane)])]),
        (Mode::RenamePane, vec![(key(BareKey::Esc, vec![]), vec![Action::UndoRenamePane])]),
    ]
}

fn loaded() -> State {
    let mut s = State::new();
    let mut fx = Vec::new();
    let r = s.update(
        Event::ModeUpdate(ModeUpdate { mode: Mode::Pane, palette: palette(), keybinds: sample(), plugin_id: Some(7) }),
        &mut fx,
    );
    assert!(r);
    s
}

#[test]
fn new_state_is_empty() {
    let s = State::new();
    assert_eq!(s.current_mode, Mode::Normal);
    assert!(s.sections.is_empty());
    assert!(s.palette.is_none());
    assert_eq!(s.collapsed, vec![false; 14]);
    assert_eq!(s.plugin_mode, PluginMode::Browse);
    let d = State::default();
    assert_eq!(d.modifier_style, ModifierStyle::Text);
}

#[test]
fn load_reads_modifier_style() {
    assert_eq!(parse_modifier_style(Some("macos")), ModifierStyle::MacOS);
    assert_eq!(parse_modifier_style(Some("linux")), ModifierStyle::Linux);
    assert_eq!(parse_modifier_style(Some("other")), ModifierStyle::Text);
    assert_eq!(parse_modifier_style(None), ModifierStyle::Text);
    let mut s = State::new();
    s.load(Some("linux"));
    assert_eq!(s.modifier_style, ModifierStyle::Linux);
}

#[test]
fn first_mode_update_loads_keymap() {
    let mut s = State::new();
    let mut fx = Vec::new();
    let r = s.update(
        Event::ModeUpdate(ModeUpdate { mode: Mode::Pane, palette: palette(), keybinds: sample(), plugin_id: Some(7) }),
        &mut fx,
    );
    assert!(r);
    assert_eq!(s.current_mode, Mode::Pane);
    assert_eq!(s.sections.len(), 2);
    assert_eq!(s.total_bindings, 5);
    assert_eq!(s.global_max_key, 10);
    assert_eq!(s.global_max_action, 16);
    assert_eq!(s.plugin_id, Some(7));
    // Every section but the current mode's is folded.
    assert!(s.collapsed[0]);
    assert!(!s.collapsed[3]);
    assert_eq!(fx.len(), 2);
    match &fx[0] {
        Effect::RenamePane { plugin_id, name } => {
            assert_eq!(*plugin_id, 7);
            assert_eq!(name, "⌨ Keymap");
        }
        _ => panic!("expected a rename"),
    }
    match &fx[1] {
        Effect::SetPaneCoords { plugin_id, coords, size } => {
            assert_eq!(*plugin_id, 7);
            let want = FloatingPaneCoordinates::new(
                None,
                Some("1".to_string()),
                None,
                Some("15".to_string()),
                None,
            );
            assert_eq!(Some(coords.clone()), want);
            // Normal folded: 2 rows; Pane: header, 4 bindings, 3 category gaps, blank: 9; plus 4.
            assert_eq!(
                *size,
                PaneCoords { y: Some(PaneSize::Fixed(1)), height: Some(PaneSize::Fixed(15)) }
            );
        }
        _ => panic!("expected a pane size"),
    }
}

#[test]
fn repeated_mode_update_does_nothing() {
    let mut s = loaded();
    let mut fx = Vec::new();
    let r = s.update(
        Event::ModeUpdate(ModeUpdate { mode: Mode::Pane, palette: palette(), keybinds: sample(), plugin_id: Some(7) }),
        &mut fx,
    );
    assert!(!r);
    assert!(fx.is_empty());
}

#[test]
fn mode_switch_refocuses_sections() {
    let mut s = loaded();
    let mut fx = Vec::new();
    s.update(Event::Key(key(BareKey::Char('?'), vec![])), &mut fx);
    s.update(Event::Key(key(BareKey::Char('x'), vec![])), &mut fx);
    assert_eq!(s.search_query, "x");
    let mut fx = Vec::new();
    let r = s.update(
        Event::ModeUpdate(ModeUpdate { mode: Mode::Normal, palette: palette(), keybinds: vec![], plugin_id: None }),
        &mut fx,
    );
    assert!(r);
    assert!(!s.collapsed[0]);
    assert!(s.collapsed[3]);
    assert_eq!(s.search_query, "");
    assert_eq!(s.plugin_mode, PluginMode::Browse);
    assert_eq!(s.sections.len(), 2);
    assert_eq!(fx.len(), 1);
    match &fx[0] {
        Effect::SetPaneCoords { plugin_id, coords, size } => {
            assert_eq!(*plugin_id, 7);
            let want = FloatingPaneCoordinates::new(
                None,
                Some("15%".to_string()),
                None,
                Some("70%".to_string()),
                None,
            );
            assert_eq!(Some(coords.clone()), want);
            assert_eq!(
                *size,
                PaneCoords { y: Some(PaneSize::Percent(15)), height: Some(PaneSize::Percent(70)) }
            );
        }
        _ => panic!("expected a pane size"),
    }
}

#[test]
fn render_lays_out_current_mode_first() {
    let mut s = loaded();
    let out = s.render(20, 60);
    assert_eq!(s.cols, 55);
    assert_eq!(s.lines.len(), 7);
    assert_eq!(s.section_header_indices, vec![0, 6]);
    assert_eq!(s.lines[0].line_type, LineType::SectionHeader(Mode::Pane));
    assert_eq!(s.lines[5].line_type, LineType::Empty);
    assert_eq!(s.lines[6].line_type, LineType::SectionHeader(Mode::Normal));
    assert!(s.initial_jump_done);
    assert_eq!(s.cursor, 0);
    let header = format!("{BOLD}{GREEN}▾ □ PANE {}{RESET}", "─".repeat(43));
    assert_eq!(s.lines[0].text, header);
    let focus = format!(
        "{BLUE}─{RESET} {FG}Focus ←{RESET}{}{BOLD}{BLUE}h  ←{RESET}",
        " ".repeat(19)
    );
    assert_eq!(s.lines[1].text, focus);
    let normal = format!("{FG}▸ ○ NORMAL {RESET}{DIM} (1) {}{RESET}", "─".repeat(37));
    assert_eq!(s.lines[6].text, normal);
    let cursor_line = format!("  {BOLD}{GREEN}❯{RESET} {header}\n");
    assert!(out.starts_with(&cursor_line));
    // 7 lines, 11 blank rows, the rule, the footer.
    assert_eq!(out.matches('\n').count(), 7 + 11 + 1);
    assert!(out.ends_with(&format!("  {BLUE}F1{RESET} help{}", " ".repeat(46))));
}

#[test]
fn render_needs_room() {
    let mut s = loaded();
    assert_eq!(s.render(5, 60), "");
    assert_eq!(s.render(20, 29), "");
    let mut fresh = State::new();
    assert_eq!(fresh.render(20, 60), "");
    assert_eq!(fresh.rows, 20);
}

#[test]
fn cursor_moves_over_selectable_lines() {
    let mut s = loaded();
    s.render(20, 60);
    let (r, fx) = press(&mut s, BareKey::Char('j'), vec![]);
    assert!(r);
    assert!(fx.is_empty());
    assert_eq!(s.cursor, 1);
    assert!(s.lines.is_empty());
    s.render(20, 60);
    // Down three more, over the blank line, onto the folded header.
    for _ in 0..4 {
        press(&mut s, BareKey::Down, vec![]);
        s.render(20, 60);
    }
    assert_eq!(s.cursor, 6);
    press(&mut s, BareKey::Char('k'), vec![]);
    assert_eq!(s.cursor, 4);
    s.render(20, 60);
    press(&mut s, BareKey::Char('g'), vec![]);
    assert_eq!(s.cursor, 0);
    s.render(20, 60);
    press(&mut s, BareKey::Char('G'), vec![]);
    assert_eq!(s.cursor, 6);
}

#[test]
fn tab_jumps_between_sections() {
    let mut s = loaded();
    s.render(20, 60);
    press(&mut s, BareKey::Tab, vec![]);
    assert_eq!(s.cursor, 6);
    s.render(20, 60);
    press(&mut s, BareKey::Tab, vec![]);
    assert_eq!(s.cursor, 0);
    s.render(20, 60);
    press(&mut s, BareKey::Tab, vec![Modifier::Shift]);
    assert_eq!(s.cursor, 6);
}

#[test]
fn folding_sections() {
    let mut s = loaded();
    s.render(20, 60);
    press(&mut s, BareKey::Enter, vec![]);
    assert!(s.collapsed[3]);
    s.render(20, 60);
    assert_eq!(s.lines.len(), 2);
    press(&mut s, BareKey::Char(' '), vec![]);
    assert!(!s.collapsed[3]);
    s.render(20, 60);
    press(&mut s, BareKey::Char('e'), vec![]);
    assert_eq!(s.collapsed, vec![false; 14]);
    s.render(20, 60);
    assert_eq!(s.lines.len(), 9);
    press(&mut s, BareKey::Char('c'), vec![]);
    assert!(s.collapsed[0]);
    assert!(!s.collapsed[3]);
    s.render(20, 60);
    assert_eq!(s.lines.len(), 7);
    // On a binding line, l and h do nothing to the folds.
    press(&mut s, BareKey::Char('j'), vec![]);
    s.render(20, 60);
    press(&mut s, BareKey::Char('h'), vec![]);
    assert!(!s.collapsed[3]);
}

#[test]
fn search_filters_bindings() {
    let mut s = loaded();
    s.render(20, 60);
    press(&mut s, BareKey::Char('?'), vec![]);
    assert_eq!(s.plugin_mode, PluginMode::Search);
    for c in ['C', 'L', 'O'] {
        press(&mut s, BareKey::Char(c), vec![]);
    }
    // The query and the labels are compared in lower case.
    assert_eq!(s.search_query, "CLO");
    let out = s.render(20, 60);
    assert_eq!(s.lines.len(), 3);
    assert_eq!(s.lines[0].line_type, LineType::SectionHeader(Mode::Pane));
    assert!(out.contains(" Search: "));
    assert!(out.contains("(1/5)"));
    press(&mut s, BareKey::Backspace, vec![]);
    assert_eq!(s.search_query, "CL");
    press(&mut s, BareKey::Enter, vec![]);
    assert_eq!(s.plugin_mode, PluginMode::Browse);
    assert_eq!(s.search_query, "CL");
    let (r, fx) = press(&mut s, BareKey::Esc, vec![]);
    assert!(r);
    assert!(fx.is_empty());
    assert_eq!(s.search_query, "");
    let (_, fx) = press(&mut s, BareKey::Esc, vec![]);
    assert_eq!(fx.len(), 1);
    assert!(matches!(fx[0], Effect::HideSelf));
}

#[test]
fn search_with_no_match_shows_nothing() {
    let mut s = loaded();
    press(&mut s, BareKey::Char('?'), vec![]);
    press(&mut s, BareKey::Char('#'), vec![]);
    s.render(20, 60);
    assert!(s.lines.is_empty());
    press(&mut s, BareKey::Esc, vec![]);
    assert_eq!(s.plugin_mode, PluginMode::Browse);
    assert_eq!(s.search_query, "");
}

#[test]
fn help_view_and_back() {
    let mut s = loaded();
    s.render(20, 60);
    press(&mut s, BareKey::F(1), vec![]);
    assert_eq!(s.plugin_mode, PluginMode::Help);
    let out = s.render(20, 60);
    assert!(out.starts_with(&format!("    {BOLD}Navigation{RESET}\n")));
    assert!(out.ends_with(&format!("    {DIM}Press any key to close{RESET}")));
    assert_eq!(out.matches('\n').count(), 19);
    let (r, _) = press(&mut s, BareKey::Char('z'), vec![]);
    assert!(r);
    assert_eq!(s.plugin_mode, PluginMode::Browse);
}

#[test]
fn quit_and_unknown_keys() {
    let mut s = loaded();
    let (r, fx) = press(&mut s, BareKey::Char('q'), vec![]);
    assert!(r);
    assert!(matches!(fx[0], Effect::HideSelf));
    let (r, fx) = press(&mut s, BareKey::Char('d'), vec![]);
    assert!(!r);
    assert!(fx.is_empty());
}

#[test]
fn mouse_scroll_moves_three_lines() {
    let mut s = loaded();
    s.update(Event::Key(key(BareKey::Char('e'), vec![])), &mut Vec::new());
    s.render(20, 60);
    let mut fx = Vec::new();
    assert!(s.update(Event::Mouse(MouseEvent::ScrollDown), &mut fx));
    assert_eq!(s.cursor, 3);
    s.render(20, 60);
    assert!(s.update(Event::Mouse(MouseEvent::ScrollUp), &mut fx));
    assert_eq!(s.cursor, 0);
    assert!(!s.update(Event::Mouse(MouseEvent::Other), &mut fx));
    assert!(!s.update(Event::Other, &mut fx));
    assert!(fx.is_empty());
}

#[test]
fn scroll_keeps_cursor_in_view() {
    let mut s = loaded();
    s.update(Event::Key(key(BareKey::Char('e'), vec![])), &mut Vec::new());
    s.render(8, 60);
    press(&mut s, BareKey::Char('G'), vec![]);
    s.render(8, 60);
    // 9 lines, 6 rows of content: the window ends at the last line.
    assert_eq!(s.scroll_offset, 3);
    press(&mut s, BareKey::Char('g'), vec![]);
    s.render(8, 60);
    assert_eq!(s.scroll_offset, 0);
}

#[test]
fn pane_coordinates_need_plugin_id_and_a_readable_size() {
    let mut s = State::new();
    let mut fx = Vec::new();
    s.set_pane_coords("1", "20", &mut fx);
    assert!(fx.is_empty());
    s.plugin_id = Some(3);
    s.set_pane_coords("abc", "xyz", &mut fx);
    assert!(fx.is_empty());
    s.set_pane_coords("+3", "0%", &mut fx);
    match &fx[0] {
        Effect::SetPaneCoords { size, .. } => {
            assert_eq!(*size, PaneCoords { y: Some(PaneSize::Fixed(3)), height: None });
        }
        _ => panic!("expected a pane size"),
    }
    fx.clear();
    s.set_pane_coords("2", "40%", &mut fx);
    assert_eq!(fx.len(), 1);
    match &fx[0] {
        Effect::SetPaneCoords { plugin_id, coords, size } => {
            assert_eq!(*plugin_id, 3);
            assert_eq!(
                *size,
                PaneCoords { y: Some(PaneSize::Fixed(2)), height: Some(PaneSize::Percent(40)) }
            );
            let want = FloatingPaneCoordinates::new(
                None,
                Some("2".to_string()),
                None,
                Some("40%".to_string()),
                None,
            );
            assert_eq!(Some(coords.clone()), want);
        }
        _ => panic!("expected a pane size"),
    }
}

#[test]
fn page_keys_move_half_a_page() {
    let mut s = loaded();
    s.render(6, 60);
    press(&mut s, BareKey::PageDown, vec![]);
    assert_eq!(s.cursor, 3);
    s.render(6, 60);
    press(&mut s, BareKey::PageUp, vec![]);
    assert_eq!(s.cursor, 0);
    s.render(6, 60);
    press(&mut s, BareKey::Char('d'), vec![Modifier::Ctrl]);
    assert_eq!(s.cursor, 3);
    s.render(6, 60);
    press(&mut s, BareKey::Char('u'), vec![Modifier::Ctrl]);
    assert_eq!(s.cursor, 0);
}

#[test]
fn slash_starts_search() {
    let mut s = loaded();
    s.render(20, 60);
    s.search_query = String::from("old");
    let (r, fx) = press(&mut s, BareKey::Char('/'), vec![]);
    assert!(r);
    assert!(fx.is_empty());
    assert_eq!(s.plugin_mode, PluginMode::Search);
    assert_eq!(s.search_query, "");
}

#[test]
fn header_positions_are_the_header_lines() {
    let mut s = loaded();
    press(&mut s, BareKey::Char('e'), vec![]);
    s.render(20, 60);
    let headers: Vec<usize> = (0..s.lines.len())
        .filter(|&i| matches!(s.lines[i].line_type, LineType::SectionHeader(_)))
        .collect();
    assert_eq!(s.section_header_indices, headers);
    assert!(matches!(s.lines[0].line_type, LineType::SectionHeader(_)));
    assert_ne!(s.lines.last().unwrap().line_type, LineType::Binding);
    for i in 1..s.lines.len() {
        if s.lines[i].line_type == LineType::Binding {
            assert_ne!(s.lines[i - 1].line_type, LineType::Empty);
        }
    }
}

#[test]
fn down_then_up_returns() {
    let mut s = loaded();
    s.render(20, 60);
    for start in [0usize, 2, 4] {
        s.cursor = start;
        press(&mut s, BareKey::Down, vec![]);
        s.render(20, 60);
        press(&mut s, BareKey::Up, vec![]);
        assert_eq!(s.cursor, start);
        s.render(20, 60);
    }
}

#[test]
fn next_then_prev_section_returns() {
    let mut s = loaded();
    s.render(20, 60);
    for start in [0usize, 6] {
        s.cursor = start;
        press(&mut s, BareKey::Tab, vec![]);
        s.render(20, 60);
        press(&mut s, BareKey::Tab, vec![Modifier::Shift]);
        assert_eq!(s.cursor, start);
        s.render(20, 60);
    }
}
