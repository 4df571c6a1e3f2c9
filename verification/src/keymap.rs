//! From the host's keybinding table to the panel's sections: each mode's
//! bindings, labelled, merged by action, and ordered by category.

use vstd::prelude::*;
use vstd::string::*;
use crate::labels::{actions_text, dir_order, dir_rank, format_actions, format_key, key_text};
use crate::model::{
    actions_ok, binds_ok, category_rank, keymap_ok, mode_at, Action, ActionCategory, Direction, KeyCombo, Mode, ModifierStyle,
    ResizeKind, MODE_COUNT,
};
use crate::text::{
    chars_of, lemma_rfind_from, lemma_split_char_absent, lemma_split_char_nonempty, owned, rfind,
    rfind_in, same_text, split_char, split_on_char, split_on_str, split_str, string_of_range, trim_end, trim_end_string,
    trim_start, trim_start_string, trim_string, trimmed, views,
};

verus! {

/// The category an action is listed under.
pub open spec fn category_of(a: Action) -> ActionCategory {
    match a {
        Action::MoveFocus(_) | Action::FocusNextPane | Action::FocusPreviousPane
        | Action::SwitchFocus => ActionCategory::FocusPane,
        Action::MoveFocusOrTab(_) | Action::GoToTab(_) | Action::GoToTabName(_)
        | Action::GoToNextTab | Action::GoToPreviousTab | Action::ToggleTab => ActionCategory::FocusTab,
        Action::MovePane(_) | Action::MovePaneBackwards => ActionCategory::MovePane,
        Action::MoveTab(_) => ActionCategory::MoveTab,
        Action::NewPane(_) | Action::NewFloatingPane | Action::NewTiledPane
        | Action::NewInPlacePane => ActionCategory::NewPane,
        Action::CloseFocus => ActionCategory::ClosePane,
        Action::NewTab => ActionCategory::NewTab,
        Action::CloseTab => ActionCategory::CloseTab,
        Action::PaneNameInput | Action::UndoRenamePane => ActionCategory::RenamePane,
        Action::TabNameInput | Action::UndoRenameTab => ActionCategory::RenameTab,
        Action::TogglePaneEmbedOrFloating | Action::ToggleFloatingPanes
        | Action::ToggleFocusFullscreen | Action::TogglePaneFrames | Action::ToggleActiveSyncTab
        | Action::ToggleMouseMode => ActionCategory::Toggle,
        Action::Resize(ResizeKind::Increase, _) => ActionCategory::ResizeGrow,
        Action::Resize(ResizeKind::Decrease, _) => ActionCategory::ResizeShrink,
        Action::BreakPane | Action::BreakPaneRight | Action::BreakPaneLeft => ActionCategory::ResizeOther,
        Action::PreviousSwapLayout | Action::NextSwapLayout => ActionCategory::Layout,
        Action::ScrollUp | Action::ScrollDown | Action::ScrollToTop | Action::ScrollToBottom
        | Action::PageScrollUp | Action::PageScrollDown | Action::HalfPageScrollUp
        | Action::HalfPageScrollDown => ActionCategory::Scroll,
        Action::Search(_) | Action::SearchInput | Action::SearchToggleOption(_) => ActionCategory::Search,
        Action::Copy | Action::EditScrollback | Action::ClearScreen => ActionCategory::Copy,
        Action::Detach | Action::Quit | Action::RenameSession => ActionCategory::Session,
        Action::LaunchOrFocusPlugin | Action::LaunchPlugin
        | Action::StartOrReloadPlugin => ActionCategory::Plugin,
        Action::SwitchToMode(_) | Action::SwitchModeForAllClients(_) => ActionCategory::ModeSwitching,
        _ => ActionCategory::Other,
    }
}

/// The category an action is listed under.
pub fn categorize_action(a: &Action) -> (c: ActionCategory)
    ensures
        c == category_of(*a),
{
    match a {
        Action::MoveFocus(_) | Action::FocusNextPane | Action::FocusPreviousPane
        | Action::SwitchFocus => ActionCategory::FocusPane,
        Action::MoveFocusOrTab(_) | Action::GoToTab(_) | Action::GoToTabName(_)
        | Action::GoToNextTab | Action::GoToPreviousTab | Action::ToggleTab => ActionCategory::FocusTab,
        Action::MovePane(_) | Action::MovePaneBackwards => ActionCategory::MovePane,
        Action::MoveTab(_) => ActionCategory::MoveTab,
        Action::NewPane(_) | Action::NewFloatingPane | Action::NewTiledPane
        | Action::NewInPlacePane => ActionCategory::NewPane,
        Action::CloseFocus => ActionCategory::ClosePane,
        Action::NewTab => ActionCategory::NewTab,
        Action::CloseTab => ActionCategory::CloseTab,
        Action::PaneNameInput | Action::UndoRenamePane => ActionCategory::RenamePane,
        Action::TabNameInput | Action::UndoRenameTab => ActionCategory::RenameTab,
        Action::TogglePaneEmbedOrFloating | Action::ToggleFloatingPanes
        | Action::ToggleFocusFullscreen | Action::TogglePaneFrames | Action::ToggleActiveSyncTab
        | Action::ToggleMouseMode => ActionCategory::Toggle,
        Action::Resize(ResizeKind::Increase, _) => ActionCategory::ResizeGrow,
        Action::Resize(ResizeKind::Decrease, _) => ActionCategory::ResizeShrink,
        Action::BreakPane | Action::BreakPaneRight | Action::BreakPaneLeft => ActionCategory::ResizeOther,
        Action::PreviousSwapLayout | Action::NextSwapLayout => ActionCategory::Layout,
        Action::ScrollUp | Action::ScrollDown | Action::ScrollToTop | Action::ScrollToBottom
        | Action::PageScrollUp | Action::PageScrollDown | Action::HalfPageScrollUp
        | Action::HalfPageScrollDown => ActionCategory::Scroll,
        Action::Search(_) | Action::SearchInput | Action::SearchToggleOption(_) => ActionCategory::Search,
        Action::Copy | Action::EditScrollback | Action::ClearScreen => ActionCategory::Copy,
        Action::Detach | Action::Quit | Action::RenameSession => ActionCategory::Session,
        Action::LaunchOrFocusPlugin | Action::LaunchPlugin
        | Action::StartOrReloadPlugin => ActionCategory::Plugin,
        Action::SwitchToMode(_) | Action::SwitchModeForAllClients(_) => ActionCategory::ModeSwitching,
        _ => ActionCategory::Other,
    }
}

/// The first in listing order of two categories.
pub open spec fn min_category(a: ActionCategory, b: ActionCategory) -> ActionCategory {
    if category_rank(b) < category_rank(a) {
        b
    } else {
        a
    }
}

/// The first in listing order of the actions' categories; `Other` when
/// there are no actions.
pub open spec fn primary(acts: Seq<Action>) -> ActionCategory
    decreases acts.len(),
{
    if acts.len() == 0 {
        ActionCategory::Other
    } else {
        min_category(primary(acts.drop_last()), category_of(acts.last()))
    }
}

/// The first in listing order of the actions' categories; `Other` when
/// there are no actions.
pub fn primary_category(actions: &Vec<Action>) -> (c: ActionCategory)
    ensures
        c == primary(actions@),
{
    let mut best = ActionCategory::Other;
    let mut i: usize = 0;
    while i < actions.len()
        invariant
            i <= actions.len(),
            best == primary(actions@.take(i as int)),
        decreases actions.len() - i,
    {
        let c = categorize_action(&actions[i]);
        assert(actions@.take(i + 1).drop_last() =~= actions@.take(i as int));
        if c.rank() < best.rank() {
            best = c;
        }
        i = i + 1;
    }
    assert(actions@.take(actions.len() as int) =~= actions@);
    best
}

/// Where the direction an action names sorts, if it names one.
pub open spec fn action_dir(a: Action) -> Option<u8> {
    match a {
        Action::MoveFocus(d) => Some(dir_rank(d)),
        Action::MoveFocusOrTab(d) => Some(dir_rank(d)),
        Action::MoveTab(d) => Some(dir_rank(d)),
        Action::MovePane(Some(d)) => Some(dir_rank(d)),
        Action::Resize(_, Some(d)) => Some(dir_rank(d)),
        Action::NewPane(Some(d)) => Some(dir_rank(d)),
        Action::ScrollUp | Action::PageScrollUp | Action::HalfPageScrollUp => Some(2u8),
        Action::ScrollDown | Action::PageScrollDown | Action::HalfPageScrollDown => Some(1u8),
        _ => None,
    }
}

/// Where a list of actions sorts within its category: by the direction of
/// the first action that names one; 4 when none does.
pub open spec fn dir_sort(acts: Seq<Action>) -> u8
    decreases acts.len(),
{
    if acts.len() == 0 {
        4
    } else {
        match action_dir(acts[0]) {
            Some(d) => d,
            None => dir_sort(acts.drop_first()),
        }
    }
}

/// Every list of actions sorts at one of five places.
pub proof fn lemma_dir_sort_bound(acts: Seq<Action>)
    ensures
        dir_sort(acts) <= 4,
    decreases acts.len(),
{
    if acts.len() > 0 {
        lemma_dir_sort_bound(acts.drop_first());
    }
}

/// Where a list of actions sorts within its category.
pub fn direction_sort_order(actions: &Vec<Action>) -> (r: u8)
    ensures
        r == dir_sort(actions@),
        r <= 4,
{
    proof {
        lemma_dir_sort_bound(actions@);
    }
    let mut i: usize = 0;
    assert(actions@.skip(0) =~= actions@);
    while i < actions.len()
        invariant
            i <= actions.len(),
            dir_sort(actions@) == dir_sort(actions@.skip(i as int)),
        decreases actions.len() - i,
    {
        assert(actions@.skip(i as int)[0] == actions@[i as int]);
        assert(actions@.skip(i as int).drop_first() =~= actions@.skip(i + 1));
        match &actions[i] {
            Action::MoveFocus(d) | Action::MoveFocusOrTab(d) | Action::MoveTab(d) => {
                return dir_order(d);
            },
            Action::MovePane(Some(d)) | Action::Resize(_, Some(d)) => {
                return dir_order(d);
            },
            Action::NewPane(Some(d)) => {
                return dir_order(d);
            },
            Action::ScrollUp | Action::PageScrollUp | Action::HalfPageScrollUp => {
                return 2;
            },
            Action::ScrollDown | Action::PageScrollDown | Action::HalfPageScrollDown => {
                return 1;
            },
            _ => {},
        }
        i = i + 1;
    }
    4
}

/// The mode whose section lists a mode's bindings: entering a search
/// joins the search section, renaming a tab or pane joins the tab or pane
/// section.
pub open spec fn normalized(m: Mode) -> Mode {
    match m {
        Mode::EnterSearch => Mode::Search,
        Mode::RenameTab => Mode::Tab,
        Mode::RenamePane => Mode::Pane,
        other => other,
    }
}

/// The mode whose section lists a mode's bindings.
pub fn normalize_mode(m: Mode) -> (r: Mode)
    ensures
        r == normalized(m),
{
    match m {
        Mode::EnterSearch => Mode::Search,
        Mode::RenameTab => Mode::Tab,
        Mode::RenamePane => Mode::Pane,
        other => other,
    }
}

/// A key label cut after the occurrence of `sep` at `i`: what comes before
/// (with the separator, trailing space cut) and after it (leading space
/// cut).
pub open spec fn cut_at(s: Seq<char>, sep: Seq<char>, i: int) -> (Seq<char>, Seq<char>) {
    (trim_end(s.take(i + sep.len())), trim_start(s.skip(i + sep.len())))
}

/// Whether `c` is one of the modifier symbols of the macOS style.
pub open spec fn is_mac_modifier(c: char) -> bool {
    c == '⌃' || c == '⌥' || c == '⇧' || c == '⌘'
}

/// Whether `s` is macOS modifier symbols written without a separator
/// before a last character that is not one: `⌥h`, `⌃⇧x`.
pub open spec fn mac_prefixed(s: Seq<char>) -> bool {
    &&& s.len() >= 2
    &&& !is_mac_modifier(s.last())
    &&& forall|i: int| 0 <= i < s.len() - 1 ==> is_mac_modifier(#[trigger] s[i])
}

/// A key label cut into its modifier part and its key part, at the last
/// " + "; failing that at the last "+", then " - ", then "-"; failing those,
/// a label of macOS modifier symbols followed by one character is cut
/// before that character; any other label has no modifier part and is all
/// key part.
pub open spec fn split_key(s: Seq<char>) -> (Seq<char>, Seq<char>) {
    match rfind(s, " + "@) {
        Some(i) => cut_at(s, " + "@, i),
        None => match rfind(s, "+"@) {
            Some(i) => cut_at(s, "+"@, i),
            None => match rfind(s, " - "@) {
                Some(i) => cut_at(s, " - "@, i),
                None => match rfind(s, "-"@) {
                    Some(i) => cut_at(s, "-"@, i),
                    None => if mac_prefixed(s) {
                        (s.drop_last(), seq![s.last()])
                    } else {
                        (Seq::empty(), s)
                    },
                },
            },
        },
    }
}

fn cut_chars(v: &Vec<char>, sep: &str, i: usize) -> (r: (String, String))
    requires
        rfind(v@, sep@) == Some(i as int),
    ensures
        r.0@ == cut_at(v@, sep@, i as int).0,
        r.1@ == cut_at(v@, sep@, i as int).1,
{
    proof {
        lemma_rfind_from(v@, sep@, v@.len() - sep@.len());
    }
    let n = sep.unicode_len();
    assert(i + n <= v.len());
    let head = string_of_range(v, 0, i + n);
    let tail = string_of_range(v, i + n, v.len());
    assert(head@ =~= v@.take(i + sep@.len()));
    assert(tail@ =~= v@.skip(i + sep@.len()));
    (trim_end_string(head.as_str()), trim_start_string(tail.as_str()))
}

/// A key label cut into its modifier part and its key part.
pub fn split_modifier_and_bare(s: &str) -> (r: (String, String))
    ensures
        (r.0@, r.1@) == split_key(s@),
{
    let v = chars_of(s);
    match rfind_in(&v, " + ") {
        Some(i) => {
            return cut_chars(&v, " + ", i);
        },
        None => {},
    }
    match rfind_in(&v, "+") {
        Some(i) => {
            return cut_chars(&v, "+", i);
        },
        None => {},
    }
    match rfind_in(&v, " - ") {
        Some(i) => {
            return cut_chars(&v, " - ", i);
        },
        None => {},
    }
    match rfind_in(&v, "-") {
        Some(i) => {
            return cut_chars(&v, "-", i);
        },
        None => {},
    }
    let n = v.len();
    if n >= 2 && !mac_modifier(v[n - 1]) {
        let mut all = true;
        let mut i: usize = 0;
        while i < n - 1
            invariant
                n == v@.len(),
                n >= 2,
                i <= n - 1,
                all == forall|j: int| 0 <= j < i ==> is_mac_modifier(#[trigger] v@[j]),
            decreases n - 1 - i,
        {
            if !mac_modifier(v[i]) {
                all = false;
            }
            i = i + 1;
        }
        if !all {
            return (String::new(), owned(s));
        }
        let head = string_of_range(&v, 0, n - 1);
        let tail = string_of_range(&v, n - 1, n);
        assert(head@ =~= s@.drop_last());
        assert(tail@ =~= seq![s@.last()]);
        return (head, tail);
    }
    (String::new(), owned(s))
}

/// Whether `c` is one of the modifier symbols of the macOS style.
fn mac_modifier(c: char) -> (b: bool)
    ensures
        b == is_mac_modifier(c),
{
    c == '⌃' || c == '⌥' || c == '⇧' || c == '⌘'
}

/// The key part of the `k`-th `/`-separated piece of a group, trimmed: the
/// first piece's key part comes after its modifier part; each later piece
/// is a key part of its own.
pub open spec fn key_part(pieces: Seq<Seq<char>>, k: int, first_bare: Seq<char>) -> Seq<char> {
    if k == 0 {
        trimmed(first_bare)
    } else {
        trimmed(pieces[k])
    }
}

/// Whether a group of a key label lists the key `new`. A group is one key,
/// or one key followed by further key parts after `/`, each with the first
/// key's (non-empty) modifier part. It lists `new` when it is `new`, or
/// when it has `new`'s modifier part and one of its key parts is `new`'s.
pub open spec fn group_has_key(group: Seq<char>, new: Seq<char>) -> bool {
    let pieces = split_char(group, '/');
    let first = split_key(pieces[0]);
    let key = split_key(new);
    ||| group == new
    ||| first.0.len() > 0 && first.0 == key.0 && exists|k: int|
        0 <= k < pieces.len() && #[trigger] key_part(pieces, k, first.1) == trimmed(key.1)
}

/// Whether the key label `existing` already lists the key `new`: one of its
/// groups, which two spaces separate, does.
pub open spec fn lists_key(existing: Seq<char>, new: Seq<char>) -> bool {
    exists|g: int|
        0 <= g < split_str(existing, "  "@).len() && #[trigger] group_has_key(
            split_str(existing, "  "@)[g],
            new,
        )
}

/// The label for a binding reached by a second key. A label that already
/// lists the new key stays as it is. Else, when the new key has the same
/// (non-empty) modifier part as the label's first key, its key part joins
/// the label after a "/"; otherwise the whole new key joins after two
/// spaces.
#[verifier::opaque]
pub open spec fn merged(existing: Seq<char>, new: Seq<char>) -> Seq<char> {
    if existing == new || lists_key(existing, new) {
        existing
    } else {
        let (prefix_b, bare_b) = split_key(new);
        let effective_prefix = if existing.contains('/') {
            split_key(split_char(existing, '/')[0]).0
        } else {
            split_key(existing).0
        };
        if effective_prefix.len() > 0 && effective_prefix == prefix_b {
            existing + "/"@ + bare_b
        } else {
            existing + "  "@ + new
        }
    }
}

/// Whether a group of a key label lists the key whose modifier and key
/// parts are given.
fn group_lists_key(group: &str, new: &str, prefix_b: &String, bare_b: &String) -> (b: bool)
    requires
        (prefix_b@, bare_b@) == split_key(new@),
    ensures
        b == group_has_key(group@, new@),
{
    if same_text(group, new) {
        return true;
    }
    let pieces = split_on_char(group, '/');
    proof {
        lemma_split_char_nonempty(group@, '/');
    }
    assert(views(pieces@)[0] == pieces@[0]@);
    let (p, b0) = split_modifier_and_bare(pieces[0].as_str());
    if p.as_str().is_empty() || !same_text(p.as_str(), prefix_b.as_str()) {
        return false;
    }
    let want = trim_string(bare_b.as_str());
    let ghost ps = split_char(group@, '/');
    let mut k: usize = 0;
    while k < pieces.len()
        invariant
            k <= pieces.len(),
            views(pieces@) == ps,
            ps == split_char(group@, '/'),
            (p@, b0@) == split_key(ps[0]),
            (prefix_b@, bare_b@) == split_key(new@),
            p@ == prefix_b@,
            p@.len() > 0,
            want@ == trimmed(bare_b@),
            forall|j: int| 0 <= j < k ==> #[trigger] key_part(ps, j, b0@) != trimmed(bare_b@),
        decreases pieces.len() - k,
    {
        let t = if k == 0 {
            trim_string(b0.as_str())
        } else {
            assert(views(pieces@)[k as int] == pieces@[k as int]@);
            trim_string(pieces[k].as_str())
        };
        assert(t@ == key_part(ps, k as int, b0@));
        if same_text(t.as_str(), want.as_str()) {
            assert(key_part(ps, k as int, split_key(ps[0]).1) == trimmed(split_key(new@).1));
            assert(group_has_key(group@, new@));
            return true;
        }
        k = k + 1;
    }
    false
}

/// Whether the key label `existing` already lists the key whose modifier
/// and key parts are given.
fn label_lists_key(existing: &str, new: &str, prefix_b: &String, bare_b: &String) -> (b: bool)
    requires
        (prefix_b@, bare_b@) == split_key(new@),
    ensures
        b == lists_key(existing@, new@),
{
    proof {
        reveal_strlit("  ");
    }
    let groups = split_on_str(existing, "  ");
    let ghost gs = split_str(existing@, "  "@);
    let mut g: usize = 0;
    while g < groups.len()
        invariant
            g <= groups.len(),
            views(groups@) == gs,
            gs == split_str(existing@, "  "@),
            (prefix_b@, bare_b@) == split_key(new@),
            forall|j: int| 0 <= j < g ==> !#[trigger] group_has_key(gs[j], new@),
        decreases groups.len() - g,
    {
        assert(views(groups@)[g as int] == groups@[g as int]@);
        if group_lists_key(groups[g].as_str(), new, prefix_b, bare_b) {
            return true;
        }
        g = g + 1;
    }
    false
}

/// The label for a binding reached by a second key.
pub fn merge_key_labels(existing: &str, new: &str) -> (r: String)
    ensures
        r@ == merged(existing@, new@),
{
    reveal(merged);
    if same_text(existing, new) {
        return owned(existing);
    }
    let (prefix_b, bare_b) = split_modifier_and_bare(new);
    if label_lists_key(existing, new, &prefix_b, &bare_b) {
        return owned(existing);
    }
    let pieces = split_on_char(existing, '/');
    proof {
        lemma_split_char_nonempty(existing@, '/');
    }
    let first: &String = &pieces[0];
    assert(views(pieces@)[0] == pieces@[0]@);
    let (effective_prefix, _) = split_modifier_and_bare(first.as_str());
    proof {
        if !existing@.contains('/') {
            lemma_split_char_absent(existing@, '/');
        }
    }
    let mut r = owned(existing);
    if !effective_prefix.as_str().is_empty() && effective_prefix == prefix_b {
        r.append("/");
        r.append(bare_b.as_str());
    } else {
        r.append("  ");
        r.append(new);
    }
    r
}

/// One line of a section: what a key does, the keys that do it, and where
/// it sorts.
#[derive(Debug)]
pub struct Binding {
    pub action_label: String,
    pub key_label: String,
    pub category: ActionCategory,
    pub direction_order: u8,
}

/// A binding as plain values.
pub struct BindingView {
    pub action: Seq<char>,
    pub key: Seq<char>,
    pub category: ActionCategory,
    pub direction_order: u8,
}

impl View for Binding {
    type V = BindingView;

    open spec fn view(&self) -> BindingView {
        BindingView {
            action: self.action_label@,
            key: self.key_label@,
            category: self.category,
            direction_order: self.direction_order,
        }
    }
}

impl Binding {
    /// A copy of this binding.
    pub fn copy(&self) -> (r: Binding)
        ensures
            r@ == self@,
    {
        Binding {
            action_label: self.action_label.clone(),
            key_label: self.key_label.clone(),
            category: self.category,
            direction_order: self.direction_order,
        }
    }
}

/// The views of a sequence of bindings.
pub open spec fn binding_views(s: Seq<Binding>) -> Seq<BindingView> {
    s.map_values(|b: Binding| b@)
}

/// Pushing a binding pushes its view.
pub proof fn lemma_binding_views_push(s: Seq<Binding>, b: Binding)
    ensures
        binding_views(s.push(b)) == binding_views(s).push(b@),
{
    assert(binding_views(s.push(b)) =~= binding_views(s).push(b@));
}

/// The section of one mode: its bindings in listing order.
#[derive(Debug)]
pub struct Section {
    pub mode: Mode,
    pub bindings: Vec<Binding>,
}

/// A section as plain values.
pub struct SectionView {
    pub mode: Mode,
    pub bindings: Seq<BindingView>,
}

impl View for Section {
    type V = SectionView;

    open spec fn view(&self) -> SectionView {
        SectionView { mode: self.mode, bindings: binding_views(self.bindings@) }
    }
}

/// The views of a sequence of sections.
pub open spec fn section_views(s: Seq<Section>) -> Seq<SectionView> {
    s.map_values(|x: Section| x@)
}

/// The host's keybinding table: for each mode, its keys and what each key
/// does.
pub type Keybinds = Vec<(Mode, Vec<(KeyCombo, Vec<Action>)>)>;

/// The first binding at or after `i` with this action label.
pub open spec fn find_action(bs: Seq<BindingView>, a: Seq<char>, i: int) -> Option<int>
    decreases bs.len() - i,
{
    if i < 0 || i >= bs.len() {
        None
    } else if bs[i].action == a {
        Some(i)
    } else {
        find_action(bs, a, i + 1)
    }
}

/// What `find_action` returns has the label and is in range.
pub proof fn lemma_find_action(bs: Seq<BindingView>, a: Seq<char>, i: int)
    requires
        0 <= i,
    ensures
        match find_action(bs, a, i) {
            Some(k) => i <= k < bs.len() && bs[k].action == a,
            None => forall|j: int| i <= j < bs.len() ==> bs[j].action != a,
        },
    decreases bs.len() - i,
{
    if i < bs.len() && bs[i].action != a {
        lemma_find_action(bs, a, i + 1);
    }
}

/// The bindings after a key with this label and these actions is added:
/// the key joins the binding with the same action label, or a new binding
/// comes last.
pub open spec fn with_key(
    bs: Seq<BindingView>,
    action: Seq<char>,
    key: Seq<char>,
    category: ActionCategory,
    direction_order: u8,
) -> Seq<BindingView> {
    match find_action(bs, action, 0) {
        Some(i) => bs.update(
            i,
            BindingView {
                action: bs[i].action,
                key: merged(bs[i].key, key),
                category: bs[i].category,
                direction_order: bs[i].direction_order,
            },
        ),
        None => bs.push(BindingView { action, key, category, direction_order }),
    }
}

/// The bindings after one key of the table is added; a key whose actions
/// have no label, or the label "NoOp", adds nothing.
pub open spec fn add_key(
    bs: Seq<BindingView>,
    style: ModifierStyle,
    key: KeyCombo,
    acts: Seq<Action>,
) -> Seq<BindingView> {
    let a = actions_text(acts);
    if a.len() == 0 || a == "NoOp"@ {
        bs
    } else {
        with_key(bs, a, key_text(key, style), primary(acts), dir_sort(acts))
    }
}

/// The bindings after the keys of one entry of the table are added, in
/// order.
pub open spec fn add_keys(
    bs: Seq<BindingView>,
    style: ModifierStyle,
    binds: Seq<(KeyCombo, Vec<Action>)>,
) -> Seq<BindingView>
    decreases binds.len(),
{
    if binds.len() == 0 {
        bs
    } else {
        add_key(add_keys(bs, style, binds.drop_last()), style, binds.last().0, binds.last().1@)
    }
}

/// The bindings of the section of mode `m`, before sorting: the keys of
/// every entry of the table whose mode joins `m`'s section, in table order.
pub open spec fn mode_bindings(
    table: Seq<(Mode, Vec<(KeyCombo, Vec<Action>)>)>,
    style: ModifierStyle,
    m: Mode,
) -> Seq<BindingView>
    decreases table.len(),
{
    if table.len() == 0 {
        Seq::empty()
    } else {
        let prev = mode_bindings(table.drop_last(), style, m);
        if normalized(table.last().0) == m {
            add_keys(prev, style, table.last().1@)
        } else {
            prev
        }
    }
}

/// Where a binding sorts: by category, then by direction.
pub open spec fn sort_key(b: BindingView) -> int {
    category_rank(b.category) * 256 + b.direction_order
}

/// `x` inserted into `s` after every element that sorts at or before it.
pub open spec fn insert_sorted(s: Seq<BindingView>, x: BindingView) -> Seq<BindingView>
    decreases s.len(),
{
    if s.len() == 0 || sort_key(s.last()) <= sort_key(x) {
        s.push(x)
    } else {
        insert_sorted(s.drop_last(), x).push(s.last())
    }
}

/// The bindings in listing order, those that sort alike in the order they
/// came: a stable sort by `sort_key`.
pub open spec fn sorted_bindings(s: Seq<BindingView>) -> Seq<BindingView>
    decreases s.len(),
{
    if s.len() == 0 {
        s
    } else {
        insert_sorted(sorted_bindings(s.drop_last()), s.last())
    }
}

/// The sections of modes from position `r` on in the host's order: each
/// mode with at least one binding, its bindings sorted.
pub open spec fn sections_from(
    table: Seq<(Mode, Vec<(KeyCombo, Vec<Action>)>)>,
    style: ModifierStyle,
    r: nat,
) -> Seq<SectionView>
    decreases MODE_COUNT - r,
{
    if r >= MODE_COUNT {
        Seq::empty()
    } else {
        let bs = sorted_bindings(mode_bindings(table, style, mode_at(r)));
        let rest = sections_from(table, style, r + 1);
        if bs.len() > 0 {
            seq![SectionView { mode: mode_at(r), bindings: bs }] + rest
        } else {
            rest
        }
    }
}

/// The panel's sections for a keybinding table.
pub open spec fn sections_of(
    table: Seq<(Mode, Vec<(KeyCombo, Vec<Action>)>)>,
    style: ModifierStyle,
) -> Seq<SectionView> {
    sections_from(table, style, 0)
}

/// Adds one key of the table to the bindings of a section.
pub fn add_binding(bs: &mut Vec<Binding>, key: &KeyCombo, actions: &Vec<Action>, style: &ModifierStyle)
    requires
        actions_ok(actions@),
    ensures
        binding_views(final(bs)@) == add_key(binding_views(old(bs)@), *style, *key, actions@),
{
    let action_str = format_actions(actions);
    if action_str.as_str().is_empty() || same_text(action_str.as_str(), "NoOp") {
        return;
    }
    let key_str = format_key(key, style);
    let cat = primary_category(actions);
    let dir = direction_sort_order(actions);
    let ghost before = binding_views(bs@);
    proof {
        lemma_find_action(before, action_str@, 0);
    }
    let mut i: usize = 0;
    while i < bs.len()
        invariant
            i <= bs@.len(),
            before == binding_views(bs@),
            before == binding_views(old(bs)@),
            find_action(before, action_str@, 0) == find_action(before, action_str@, i as int),
            action_str@ == actions_text(actions@),
            !(action_str@.len() == 0 || action_str@ == "NoOp"@),
            key_str@ == key_text(*key, *style),
            cat == primary(actions@),
            dir == dir_sort(actions@),
        decreases bs.len() - i,
    {
        if bs[i].action_label == action_str {
            let merged_key = merge_key_labels(bs[i].key_label.as_str(), key_str.as_str());
            let nb = Binding {
                action_label: bs[i].action_label.clone(),
                key_label: merged_key,
                category: bs[i].category,
                direction_order: bs[i].direction_order,
            };
            bs[i] = nb;
            assert(binding_views(bs@) =~= with_key(before, action_str@, key_str@, cat, dir));
            return;
        }
        i = i + 1;
    }
    let nb = Binding { action_label: action_str, key_label: key_str, category: cat, direction_order: dir };
    proof {
        lemma_binding_views_push(bs@, nb);
    }
    bs.push(nb);
}

proof fn lemma_insert_position(s: Seq<BindingView>, x: BindingView, p: int)
    requires
        0 <= p <= s.len(),
        p == 0 || sort_key(s[p - 1]) <= sort_key(x),
        forall|j: int| p <= j < s.len() ==> sort_key(s[j]) > sort_key(x),
    ensures
        insert_sorted(s, x) == s.insert(p, x),
    decreases s.len(),
{
    if s.len() == p {
        assert(s.push(x) =~= s.insert(p, x));
    } else {
        assert(sort_key(s.last()) > sort_key(x));
        lemma_insert_position(s.drop_last(), x, p);
        assert(s.drop_last().insert(p, x).push(s.last()) =~= s.insert(p, x));
    }
}

/// The bindings in listing order, a stable sort by category and then
/// direction.
pub fn sort_bindings(v: &Vec<Binding>) -> (r: Vec<Binding>)
    ensures
        binding_views(r@) == sorted_bindings(binding_views(v@)),
{
    let mut out: Vec<Binding> = Vec::new();
    let mut i: usize = 0;
    while i < v.len()
        invariant
            i <= v@.len(),
            binding_views(out@) == sorted_bindings(binding_views(v@).take(i as int)),
        decreases v.len() - i,
    {
        let x = v[i].copy();
        let xk = x.category.rank() * 256 + x.direction_order as usize;
        let mut p = out.len();
        while p > 0 && out[p - 1].category.rank() * 256 + out[p - 1].direction_order as usize > xk
            invariant
                p <= out@.len(),
                xk == sort_key(x@),
                forall|j: int|
                    p <= j < out@.len() ==> sort_key(#[trigger] binding_views(out@)[j]) > sort_key(
                        x@,
                    ),
            decreases p,
        {
            p = p - 1;
        }
        proof {
            let s = binding_views(out@);
            lemma_insert_position(s, x@, p as int);
            assert(binding_views(v@).take(i + 1).drop_last() =~= binding_views(v@).take(i as int));
            assert(binding_views(out@.insert(p as int, x)) =~= s.insert(p as int, x@));
        }
        out.insert(p, x);
        i = i + 1;
    }
    assert(binding_views(v@).take(v@.len() as int) =~= binding_views(v@));
    out
}

/// The bindings of one mode's section, before sorting.
fn collect_mode(keybinds: &Keybinds, style: &ModifierStyle, m: Mode) -> (r: Vec<Binding>)
    requires
        keymap_ok(keybinds@),
    ensures
        binding_views(r@) == mode_bindings(keybinds@, *style, m),
{
    let mut bs: Vec<Binding> = Vec::new();
    let mut i: usize = 0;
    while i < keybinds.len()
        invariant
            i <= keybinds@.len(),
            keymap_ok(keybinds@),
            binding_views(bs@) == mode_bindings(keybinds@.take(i as int), *style, m),
        decreases keybinds.len() - i,
    {
        assert(keybinds@.take(i + 1).drop_last() =~= keybinds@.take(i as int));
        let entry = &keybinds[i];
        if normalize_mode(entry.0) == m {
            let binds = &entry.1;
            assert(binds_ok(keybinds@[i as int].1@));
            let ghost start = binding_views(bs@);
            let mut j: usize = 0;
            while j < binds.len()
                invariant
                    j <= binds@.len(),
                    binds_ok(binds@),
                    binding_views(bs@) == add_keys(start, *style, binds@.take(j as int)),
                decreases binds.len() - j,
            {
                assert(binds@.take(j + 1).drop_last() =~= binds@.take(j as int));
                add_binding(&mut bs, &binds[j].0, &binds[j].1, style);
                j = j + 1;
            }
            assert(binds@.take(binds@.len() as int) =~= binds@);
        }
        i = i + 1;
    }
    assert(keybinds@.take(keybinds@.len() as int) =~= keybinds@);
    bs
}

/// The panel's sections for a keybinding table: one per mode that has a
/// binding, in the host's order of modes, each with its bindings merged by
/// action label and sorted by category and direction.
pub fn parse_sections(keybinds: &Keybinds, style: &ModifierStyle) -> (r: Vec<Section>)
    requires
        keymap_ok(keybinds@),
    ensures
        section_views(r@) == sections_of(keybinds@, *style),
{
    let mut out: Vec<Section> = Vec::new();
    let mut r: usize = 0;
    while r < MODE_COUNT
        invariant
            r <= MODE_COUNT,
            keymap_ok(keybinds@),
            section_views(out@) + sections_from(keybinds@, *style, r as nat) == sections_of(
                keybinds@,
                *style,
            ),
        decreases MODE_COUNT - r,
    {
        let m = Mode::from_rank(r);
        let collected = collect_mode(keybinds, style, m);
        let sorted = sort_bindings(&collected);
        if sorted.len() > 0 {
            let sec = Section { mode: m, bindings: sorted };
            let ghost old_out = section_views(out@);
            out.push(sec);
            assert(section_views(out@) =~= old_out.push(sec@));
            assert(section_views(out@) + sections_from(keybinds@, *style, (r + 1) as nat) =~= old_out
                + sections_from(keybinds@, *style, r as nat));
        }
        r = r + 1;
    }
    assert(section_views(out@) =~= section_views(out@) + sections_from(keybinds@, *style, MODE_COUNT as nat));
    out
}

/// There is at most one section per mode.
pub proof fn lemma_sections_from_len(
    table: Seq<(Mode, Vec<(KeyCombo, Vec<Action>)>)>,
    style: ModifierStyle,
    r: nat,
)
    ensures
        sections_from(table, style, r).len() <= MODE_COUNT - r || (r >= MODE_COUNT
            && sections_from(table, style, r).len() == 0),
    decreases MODE_COUNT - r,
{
    if r < MODE_COUNT {
        lemma_sections_from_len(table, style, r + 1);
    }
}

} // verus!
