use zellij_keymap::keymap::{
    categorize_action, direction_sort_order, merge_key_labels, normalize_mode, parse_sections,
    primary_category, split_modifier_and_bare, Keybinds,
};
use zellij_keymap::labels::format_actions;
use zellij_keymap::model::{
    Action, ActionCategory, BareKey, Direction, KeyCombo, Mode, Modifier, ModifierStyle, ResizeKind,
};

fn key(bare: BareKey, modifiers: Vec<Modifier>) -> KeyCombo {
    KeyCombo { bare, modifiers }
}

#[test]
fn categories() {
    assert_eq!(categorize_action(&Action::MoveFocus(Direction::Up)), ActionCategory::FocusPane);
    assert_eq!(categorize_action(&Action::GoToTab(1)), ActionCategory::FocusTab);
    assert_eq!(categorize_action(&Action::Resize(ResizeKind::Increase, None)), ActionCategory::ResizeGrow);
    assert_eq!(categorize_action(&Action::Resize(ResizeKind::Decrease, None)), ActionCategory::ResizeShrink);
    assert_eq!(categorize_action(&Action::Quit), ActionCategory::Session);
    assert_eq!(categorize_action(&Action::ToggleMouseMode), ActionCategory::Toggle);
    assert_eq!(categorize_action(&Action::Write), ActionCategory::Other);
    assert_eq!(categorize_action(&Action::Other("X".to_string())), ActionCategory::Other);
}

#[test]
fn primary_category_is_first_in_order() {
    let acts = vec![Action::SwitchToMode(Mode::Normal), Action::MoveFocus(Direction::Left)];
    assert_eq!(primary_category(&acts), ActionCategory::FocusPane);
    assert_eq!(primary_category(&vec![]), ActionCategory::Other);
    assert_eq!(primary_category(&vec![Action::Write]), ActionCategory::Other);
}

#[test]
fn direction_order_of_first_directed_action() {
    assert_eq!(direction_sort_order(&vec![Action::ScrollDown]), 1);
    assert_eq!(direction_sort_order(&vec![Action::HalfPageScrollUp]), 2);
    assert_eq!(direction_sort_order(&vec![Action::Quit, Action::MoveFocus(Direction::Right)]), 3);
    assert_eq!(direction_sort_order(&vec![Action::MovePane(None), Action::NewPane(Some(Direction::Left))]), 0);
    assert_eq!(direction_sort_order(&vec![]), 4);
}

#[test]
fn merged_modes() {
    assert_eq!(normalize_mode(Mode::EnterSearch), Mode::Search);
    assert_eq!(normalize_mode(Mode::RenameTab), Mode::Tab);
    assert_eq!(normalize_mode(Mode::RenamePane), Mode::Pane);
    assert_eq!(normalize_mode(Mode::Locked), Mode::Locked);
}

#[test]
fn split_key_label_at_last_separator() {
    assert_eq!(split_modifier_and_bare("⌥ + h"), ("⌥ +".to_string(), "h".to_string()));
    assert_eq!(split_modifier_and_bare("Alt+←"), ("Alt+".to_string(), "←".to_string()));
    assert_eq!(split_modifier_and_bare("C-x"), ("C-".to_string(), "x".to_string()));
    assert_eq!(split_modifier_and_bare("Ctrl + Alt + h"), ("Ctrl + Alt +".to_string(), "h".to_string()));
    assert_eq!(split_modifier_and_bare("q"), (String::new(), "q".to_string()));
}

#[test]
fn split_macos_label_without_separator() {
    assert_eq!(split_modifier_and_bare("⌥h"), ("⌥".to_string(), "h".to_string()));
    assert_eq!(split_modifier_and_bare("⌃⇧x"), ("⌃⇧".to_string(), "x".to_string()));
    assert_eq!(split_modifier_and_bare("Esc"), (String::new(), "Esc".to_string()));
    assert_eq!(split_modifier_and_bare("⌥"), (String::new(), "⌥".to_string()));
    assert_eq!(merge_key_labels("⌥h", "⌥←"), "⌥h/←");
}

#[test]
fn merge_with_common_prefix() {
    assert_eq!(merge_key_labels("Alt+h", "Alt+←"), "Alt+h/←");
    assert_eq!(merge_key_labels("⌥ + h", "⌥ + ←"), "⌥ + h/←");
    assert_eq!(merge_key_labels("Ctrl + a/b", "Ctrl + c"), "Ctrl + a/b/c");
}

#[test]
fn merge_without_common_prefix() {
    assert_eq!(merge_key_labels("Ctrl+d", "Alt+d"), "Ctrl+d  Alt+d");
    assert_eq!(merge_key_labels("h", "←"), "h  ←");
}

#[test]
fn merge_skips_present_key() {
    assert_eq!(merge_key_labels("⌥ + h/←", "⌥ + ←"), "⌥ + h/←");
    assert_eq!(merge_key_labels("Ctrl + a", "Ctrl + a"), "Ctrl + a");
    assert_eq!(merge_key_labels("Alt + h", "Alt + h"), "Alt + h");
    assert_eq!(merge_key_labels("Ctrl + d  Alt + d", "Alt + d"), "Ctrl + d  Alt + d");
    assert_eq!(merge_key_labels("h  ←", "←"), "h  ←");
}

#[test]
fn merge_keeps_key_with_other_modifier() {
    assert_eq!(merge_key_labels("Alt + h/j", "Ctrl + j"), "Alt + h/j  Ctrl + j");
    assert_eq!(merge_key_labels("Ctrl + d  Alt + d", "Alt + e"), "Ctrl + d  Alt + d  Alt + e");
}

fn sample() -> Keybinds {
    vec![
        (
            Mode::Pane,
            vec![
                (key(BareKey::Char('n'), vec![]), vec![Action::NewPane(Some(Direction::Right))]),
                (key(BareKey::Char('x'), vec![]), vec![Action::CloseFocus]),
                (key(BareKey::Char('h'), vec![]), vec![Action::MoveFocus(Direction::Left)]),
                (key(BareKey::Left, vec![]), vec![Action::MoveFocus(Direction::Left)]),
                (key(BareKey::Char('z'), vec![]), vec![Action::NoOp]),
            ],
        ),
        (Mode::Normal, vec![(key(BareKey::Char('p'), vec![Modifier::Ctrl]), vec![Action::SwitchToMode(Mode::Pane)])]),
        (Mode::RenamePane, vec![(key(BareKey::Esc, vec![]), vec![Action::UndoRenamePane])]),
        (Mode::Locked, vec![]),
    ]
}

#[test]
fn sections_from_keymap() {
    let secs = parse_sections(&sample(), &ModifierStyle::Text);
    assert_eq!(secs.len(), 2);
    assert_eq!(secs[0].mode, Mode::Normal);
    assert_eq!(secs[0].bindings.len(), 1);
    assert_eq!(secs[0].bindings[0].action_label, "Pane mode");
    assert_eq!(secs[0].bindings[0].key_label, "Ctrl + p");
    assert_eq!(secs[0].bindings[0].category, ActionCategory::ModeSwitching);
    assert_eq!(secs[0].bindings[0].direction_order, 4);
    assert_eq!(secs[1].mode, Mode::Pane);
    let labels: Vec<&str> = secs[1].bindings.iter().map(|b| b.action_label.as_str()).collect();
    assert_eq!(labels, vec!["Focus ←", "New pane →", "Close pane", "Undo rename pane"]);
    assert_eq!(secs[1].bindings[0].key_label, "h  ←");
    assert_eq!(secs[1].bindings[1].direction_order, 3);
    assert_eq!(secs[1].bindings[3].key_label, "Esc");
}

#[test]
fn sections_sort_by_direction_within_category() {
    let kb: Keybinds = vec![(
        Mode::Move,
        vec![
            (key(BareKey::Char('l'), vec![]), vec![Action::MovePane(Some(Direction::Right))]),
            (key(BareKey::Char('k'), vec![]), vec![Action::MovePane(Some(Direction::Up))]),
            (key(BareKey::Char('n'), vec![]), vec![Action::MovePane(None)]),
            (key(BareKey::Char('h'), vec![]), vec![Action::MovePane(Some(Direction::Left))]),
            (key(BareKey::Char('j'), vec![]), vec![Action::MovePane(Some(Direction::Down))]),
        ],
    )];
    let secs = parse_sections(&kb, &ModifierStyle::Text);
    let keys: Vec<&str> = secs[0].bindings.iter().map(|b| b.key_label.as_str()).collect();
    assert_eq!(keys, vec!["h", "j", "k", "l", "n"]);
}

#[test]
fn every_labelled_key_is_listed() {
    let kb = sample();
    let secs = parse_sections(&kb, &ModifierStyle::Text);
    for (mode, binds) in &kb {
        for (_, acts) in binds {
            let label = format_actions(acts);
            if label.is_empty() || label == "NoOp" {
                continue;
            }
            let m = normalize_mode(*mode);
            assert!(secs
                .iter()
                .any(|s| s.mode == m && s.bindings.iter().any(|b| b.action_label == label)));
        }
    }
}
