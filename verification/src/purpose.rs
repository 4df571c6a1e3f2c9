//! What the listing, the search, the keys, the sort and the labels are
//! for, stated over every input: the shared prefix of a group is shown as
//! spaces before the rest of each label, a search keeps every binding whose
//! action or key label holds the query, `l`/→ unfolds and `h`/← folds the
//! section at the cursor and `e` unfolds them all, directed bindings
//! sort left, down, up, right, and actions that do opposite things are
//! labelled apart.

use vstd::prelude::*;
use crate::host::lemma_decimal_digits;
use crate::keymap::{dir_sort, BindingView};
use crate::labels::{action_text, dir_text};
use crate::layout::{
    action_display, group_prefix, last_space, lcp_from, matching, prefix_len, run_end, run_start,
};
use crate::model::{
    mode_rank, Action, BareKey, Direction, ResizeKind, SearchDirection, MODE_COUNT,
};
use crate::panel::{key_done, EffectView, PluginMode, State};
use crate::text::{decimal, has_substring, lowercase, repeat};

verus! {

// ---------------------------------------------------------------------------
// The shared prefix of a group of bindings.

proof fn lemma_lcp(a: Seq<char>, b: Seq<char>, k: int)
    requires
        0 <= k <= a.len(),
        k <= b.len(),
    ensures
        k <= lcp_from(a, b, k) <= a.len(),
        lcp_from(a, b, k) <= b.len(),
        forall|t: int| k <= t < lcp_from(a, b, k) ==> a[t] == b[t],
    decreases a.len() - k,
{
    if k < a.len() && k < b.len() && a[k] == b[k] {
        lemma_lcp(a, b, k + 1);
    }
}

proof fn lemma_prefix_len(bs: Seq<BindingView>, s: int, j: int)
    requires
        0 <= s < j <= bs.len(),
    ensures
        0 <= prefix_len(bs, s, j) <= bs[s].action.len(),
        forall|k: int|
            s < k < j ==> prefix_len(bs, s, j) <= (#[trigger] bs[k]).action.len() && bs[k].action.take(
                prefix_len(bs, s, j),
            ) == bs[s].action.take(prefix_len(bs, s, j)),
    decreases j - s,
{
    if j > s + 1 {
        lemma_prefix_len(bs, s, j - 1);
        let a = bs[s].action;
        let b = bs[j - 1].action;
        lemma_lcp(a, b, 0);
        let l = prefix_len(bs, s, j);
        let m = lcp_from(a, b, 0);
        assert forall|k: int| s < k < j implies l <= (#[trigger] bs[k]).action.len()
            && bs[k].action.take(l) == bs[s].action.take(l) by {
            if k < j - 1 {
                let l0 = prefix_len(bs, s, j - 1);
                assert(bs[k].action.take(l0).take(l) =~= bs[k].action.take(l));
                assert(bs[s].action.take(l0).take(l) =~= bs[s].action.take(l));
            } else {
                assert(bs[k].action.take(l) =~= bs[s].action.take(l));
            }
        }
    }
}

proof fn lemma_last_space(p: Seq<char>, k: int)
    requires
        k < p.len(),
    ensures
        last_space(p, k) matches Some(i) ==> 0 <= i <= k,
    decreases k + 1,
{
    if k >= 0 && p[k] != ' ' {
        lemma_last_space(p, k - 1);
    }
}

proof fn lemma_run_bounds(bs: Seq<BindingView>, i: int)
    requires
        0 <= i < bs.len(),
    ensures
        0 <= run_start(bs, i) <= i < run_end(bs, i) <= bs.len(),
{
    lemma_run_start(bs, i);
    lemma_run_end(bs, i);
}

proof fn lemma_run_start(bs: Seq<BindingView>, i: int)
    requires
        0 <= i < bs.len(),
    ensures
        0 <= run_start(bs, i) <= i,
    decreases i,
{
    if i > 0 && bs[i - 1].category == bs[i].category {
        lemma_run_start(bs, i - 1);
    }
}

proof fn lemma_run_end(bs: Seq<BindingView>, i: int)
    requires
        0 <= i < bs.len(),
    ensures
        i < run_end(bs, i) <= bs.len(),
    decreases bs.len() - i,
{
    if i + 1 < bs.len() && bs[i + 1].category == bs[i].category {
        lemma_run_end(bs, i + 1);
    }
}

proof fn lemma_spaces(n: nat)
    ensures
        repeat(" "@, n).len() == n,
        forall|t: int| 0 <= t < n ==> #[trigger] repeat(" "@, n)[t] == ' ',
    decreases n,
{
    reveal_strlit(" ");
    if n > 0 {
        lemma_spaces((n - 1) as nat);
        let r = repeat(" "@, (n - 1) as nat);
        assert forall|t: int| 0 <= t < n implies #[trigger] repeat(" "@, n)[t] == ' ' by {
            if t < n - 1 {
                assert(repeat(" "@, n)[t] == r[t]);
            }
        }
    }
}

/// In a group of bindings of one category whose labels share a prefix
/// ending in a space, every binding after the first shows that prefix as
/// as many spaces, then exactly the rest of its own label: the prefix is
/// the start of its label, and what is shown is as long as the label and
/// ends as the label does.
pub proof fn law_shared_prefix_shown_as_spaces(bs: Seq<BindingView>, i: int, action_col: int)
    requires
        0 <= i < bs.len(),
        run_start(bs, i) < i,
        group_prefix(bs, run_start(bs, i), run_end(bs, i)).len() > 0,
    ensures
        ({
            let p = group_prefix(bs, run_start(bs, i), run_end(bs, i));
            let a = bs[i].action;
            let d = action_display(bs, i, action_col);
            &&& p.len() <= a.len()
            &&& a.take(p.len() as int) == p
            &&& d.len() == a.len()
            &&& forall|t: int| 0 <= t < p.len() ==> #[trigger] d[t] == ' '
            &&& d.skip(p.len() as int) == a.skip(p.len() as int)
        }),
{
    let s = run_start(bs, i);
    let e = run_end(bs, i);
    lemma_run_bounds(bs, i);
    lemma_prefix_len(bs, s, e);
    let l = prefix_len(bs, s, e);
    let p0 = bs[s].action.take(l);
    lemma_last_space(p0, p0.len() - 1);
    let k = last_space(p0, p0.len() - 1)->0;
    let p = group_prefix(bs, s, e);
    let a = bs[i].action;
    assert(p =~= p0.take(k + 1));
    assert(p =~= bs[s].action.take(k + 1));
    assert(a.take(l).take(k + 1) =~= a.take(k + 1));
    assert(bs[s].action.take(l).take(k + 1) =~= bs[s].action.take(k + 1));
    assert(a.take(p.len() as int) == p);
    lemma_spaces(p.len());
    let d = action_display(bs, i, action_col);
    assert(d == repeat(" "@, p.len()) + a.skip(p.len() as int));
    assert(d.skip(p.len() as int) =~= a.skip(p.len() as int));
    assert forall|t: int| 0 <= t < p.len() implies #[trigger] d[t] == ' ' by {
        assert(d[t] == repeat(" "@, p.len())[t]);
    }
}

// ---------------------------------------------------------------------------
// The search.

/// A search keeps exactly the bindings whose action label or key label,
/// lower-cased, holds the query: every such binding is kept, and every
/// binding kept is one of the bindings and is such a binding.
pub proof fn law_search_keeps_matches(bs: Seq<BindingView>, q: Seq<char>)
    ensures
        forall|i: int|
            0 <= i < bs.len() && (has_substring(lowercase((#[trigger] bs[i]).action), q)
                || has_substring(lowercase(bs[i].key), q)) ==> matching(bs, q).contains(bs[i]),
        forall|x: BindingView|
            #[trigger] matching(bs, q).contains(x) ==> bs.contains(x) && (has_substring(
                lowercase(x.action),
                q,
            ) || has_substring(lowercase(x.key), q)),
    decreases bs.len(),
{
    if bs.len() > 0 {
        let dl = bs.drop_last();
        law_search_keeps_matches(dl, q);
        let m = matching(bs, q);
        let m0 = matching(dl, q);
        assert forall|i: int|
            0 <= i < bs.len() && (has_substring(lowercase((#[trigger] bs[i]).action), q)
                || has_substring(lowercase(bs[i].key), q)) implies m.contains(bs[i]) by {
            if i < bs.len() - 1 {
                assert(dl[i] == bs[i]);
                assert(m0.contains(dl[i]));
                let j = choose|j: int| 0 <= j < m0.len() && m0[j] == dl[i];
                if m != m0 {
                    assert(m == m0.push(bs.last()));
                    assert(m[j] == m0[j]);
                }
            } else {
                assert(m == m0.push(bs.last()));
                assert(m[m0.len() as int] == bs.last());
            }
        }
        assert forall|x: BindingView| #[trigger] m.contains(x) implies bs.contains(x) && (
        has_substring(lowercase(x.action), q) || has_substring(lowercase(x.key), q)) by {
            let j = choose|j: int| 0 <= j < m.len() && m[j] == x;
            if j < m0.len() && (m == m0 || m == m0.push(bs.last())) {
                assert(m[j] == m0[j]);
                assert(m0.contains(x));
                let k = choose|k: int| 0 <= k < dl.len() && dl[k] == x;
                assert(bs[k] == x);
            } else {
                assert(x == bs.last());
                assert(bs[bs.len() - 1] == x);
            }
        }
    }
}

// ---------------------------------------------------------------------------
// Unfolding with `l` or →.

/// While browsing, `l` or → unfolds the section whose header the cursor is
/// on and folds nothing: afterwards that section's fold flag is clear, and
/// no fold flag is set that was not set before.
pub proof fn law_right_unfolds(
    key: crate::model::KeyCombo,
    a: &State,
    b: &State,
    ea: Seq<EffectView>,
    eb: Seq<EffectView>,
    handled: bool,
)
    requires
        a.wf(),
        a.plugin_mode == PluginMode::Browse,
        key.bare == BareKey::Char('l') || key.bare == BareKey::Right,
        key_done(key, a, b, ea, eb, handled),
    ensures
        handled,
        forall|r: int| 0 <= r < MODE_COUNT && #[trigger] b.collapsed@[r] ==> a.collapsed@[r],
        a.cursor < a.lines@.len() ==> match a.lines@[a.cursor as int].line_type {
            crate::layout::LineType::SectionHeader(m) => !b.collapsed@[mode_rank(m) as int],
            _ => b.collapsed@ == a.collapsed@,
        },
{
}

/// While browsing, `h` or ← folds the section whose header the cursor is
/// on and unfolds nothing: afterwards that section's fold flag is set, and
/// no fold flag is clear that was not clear before.
pub proof fn law_left_folds(
    key: crate::model::KeyCombo,
    a: &State,
    b: &State,
    ea: Seq<EffectView>,
    eb: Seq<EffectView>,
    handled: bool,
)
    requires
        a.wf(),
        a.plugin_mode == PluginMode::Browse,
        key.bare == BareKey::Char('h') || key.bare == BareKey::Left,
        key_done(key, a, b, ea, eb, handled),
    ensures
        handled,
        forall|r: int| 0 <= r < MODE_COUNT && #[trigger] a.collapsed@[r] ==> b.collapsed@[r],
        a.cursor < a.lines@.len() ==> match a.lines@[a.cursor as int].line_type {
            crate::layout::LineType::SectionHeader(m) => b.collapsed@[mode_rank(m) as int],
            _ => b.collapsed@ == a.collapsed@,
        },
{
}

/// While browsing, `e` unfolds every section.
pub proof fn law_e_unfolds_all(
    key: crate::model::KeyCombo,
    a: &State,
    b: &State,
    ea: Seq<EffectView>,
    eb: Seq<EffectView>,
    handled: bool,
)
    requires
        a.wf(),
        a.plugin_mode == PluginMode::Browse,
        key.bare == BareKey::Char('e'),
        key_done(key, a, b, ea, eb, handled),
    ensures
        handled,
        b.collapsed@.len() == MODE_COUNT,
        forall|r: int| 0 <= r < MODE_COUNT ==> !#[trigger] b.collapsed@[r],
{
}

// ---------------------------------------------------------------------------
// Where directed bindings sort.

/// Where a binding that moves in a direction is listed among the bindings
/// of its category: left first, then down, up and right.
pub open spec fn place_of(d: Direction) -> u8 {
    match d {
        Direction::Left => 0,
        Direction::Down => 1,
        Direction::Up => 2,
        Direction::Right => 3,
    }
}

/// A list of actions whose first action names a direction sorts by that
/// direction: left first, then down, up and right; scrolling up sorts as
/// up and scrolling down as down.
pub proof fn law_direction_order(acts: Seq<Action>)
    requires
        acts.len() > 0,
    ensures
        ({
            match acts[0] {
                Action::MoveFocus(d) => dir_sort(acts) == place_of(d),
                Action::MoveFocusOrTab(d) => dir_sort(acts) == place_of(d),
                Action::MoveTab(d) => dir_sort(acts) == place_of(d),
                Action::MovePane(Some(d)) => dir_sort(acts) == place_of(d),
                Action::NewPane(Some(d)) => dir_sort(acts) == place_of(d),
                Action::Resize(_, Some(d)) => dir_sort(acts) == place_of(d),
                Action::ScrollUp | Action::PageScrollUp | Action::HalfPageScrollUp => dir_sort(acts)
                    == 2,
                Action::ScrollDown | Action::PageScrollDown | Action::HalfPageScrollDown => dir_sort(
                    acts,
                ) == 1,
                _ => true,
            }
        }),
{
}

// ---------------------------------------------------------------------------
// Labels of actions that do opposite things.

/// Whether `b` does the opposite of `a`, or the same thing another way:
/// the next and the previous tab, pane, layout or search hit; scrolling up
/// and down; the top and the bottom; opening and closing a tab; quitting
/// and detaching; confirming and denying; breaking a pane to the left and
/// to the right; growing and shrinking; the same move in two directions;
/// going to two different tabs.
pub open spec fn opposite(a: Action, b: Action) -> bool {
    match (a, b) {
        (Action::GoToNextTab, Action::GoToPreviousTab) => true,
        (Action::FocusNextPane, Action::FocusPreviousPane) => true,
        (Action::NextSwapLayout, Action::PreviousSwapLayout) => true,
        (Action::Search(SearchDirection::Down), Action::Search(SearchDirection::Up)) => true,
        (Action::ScrollUp, Action::ScrollDown) => true,
        (Action::PageScrollUp, Action::PageScrollDown) => true,
        (Action::HalfPageScrollUp, Action::HalfPageScrollDown) => true,
        (Action::ScrollToTop, Action::ScrollToBottom) => true,
        (Action::NewTab, Action::CloseTab) => true,
        (Action::Quit, Action::Detach) => true,
        (Action::Confirm, Action::Deny) => true,
        (Action::BreakPaneLeft, Action::BreakPaneRight) => true,
        (Action::Resize(k1, d1), Action::Resize(k2, d2)) => d1 == d2 && k1 != k2,
        (Action::MoveFocus(d1), Action::MoveFocus(d2)) => d1 != d2,
        (Action::MoveFocusOrTab(d1), Action::MoveFocusOrTab(d2)) => d1 != d2,
        (Action::MoveTab(d1), Action::MoveTab(d2)) => d1 != d2,
        (Action::MovePane(Some(d1)), Action::MovePane(Some(d2))) => d1 != d2,
        (Action::NewPane(Some(d1)), Action::NewPane(Some(d2))) => d1 != d2,
        (Action::GoToTab(n1), Action::GoToTab(n2)) => n1 != n2,
        _ => false,
    }
}

proof fn lemma_differ_at(x: Seq<char>, y: Seq<char>, i: int)
    requires
        0 <= i < x.len(),
        i < y.len(),
        x[i] != y[i],
    ensures
        x != y,
{
}

proof fn lemma_prefix_cancel(p: Seq<char>, x: Seq<char>, y: Seq<char>)
    requires
        p + x == p + y,
    ensures
        x == y,
{
    assert((p + x).skip(p.len() as int) =~= x);
    assert((p + y).skip(p.len() as int) =~= y);
}

proof fn lemma_arrows_differ(d1: Direction, d2: Direction)
    requires
        d1 != d2,
    ensures
        dir_text(d1) != dir_text(d2),
{
    reveal_strlit("←");
    reveal_strlit("→");
    reveal_strlit("↑");
    reveal_strlit("↓");
    lemma_differ_at(dir_text(d1), dir_text(d2), 0);
}

proof fn lemma_moves_differ(p: Seq<char>, d1: Direction, d2: Direction)
    requires
        d1 != d2,
    ensures
        p + dir_text(d1) != p + dir_text(d2),
{
    lemma_arrows_differ(d1, d2);
    if p + dir_text(d1) == p + dir_text(d2) {
        lemma_prefix_cancel(p, dir_text(d1), dir_text(d2));
    }
}

/// Actions that do opposite things, or the same move in two directions,
/// or go to two different tabs, get different labels, so that their keys
/// are listed as different bindings.
pub proof fn law_opposite_actions_labelled_apart(a: Action, b: Action)
    requires
        opposite(a, b) || opposite(b, a),
    ensures
        action_text(a) != action_text(b),
{
    if opposite(b, a) && !opposite(a, b) {
        lemma_opposite_labels(b, a);
    } else {
        lemma_opposite_labels(a, b);
    }
}

proof fn lemma_opposite_labels(a: Action, b: Action)
    requires
        opposite(a, b),
    ensures
        action_text(a) != action_text(b),
{
    match (a, b) {
        (Action::GoToNextTab, Action::GoToPreviousTab) => {
            reveal_strlit("Next tab");
            reveal_strlit("Prev tab");
            lemma_differ_at("Next tab"@, "Prev tab"@, 0);
        },
        (Action::FocusNextPane, Action::FocusPreviousPane) => {
            reveal_strlit("Focus next");
            reveal_strlit("Focus prev");
            lemma_differ_at("Focus next"@, "Focus prev"@, 6);
        },
        (Action::NextSwapLayout, Action::PreviousSwapLayout) => {
            reveal_strlit("Next layout");
            reveal_strlit("Prev layout");
            lemma_differ_at("Next layout"@, "Prev layout"@, 0);
        },
        (Action::Search(SearchDirection::Down), Action::Search(SearchDirection::Up)) => {
            reveal_strlit("Search next");
            reveal_strlit("Search prev");
            lemma_differ_at("Search next"@, "Search prev"@, 7);
        },
        (Action::ScrollUp, Action::ScrollDown) => {
            reveal_strlit("Scroll ↑");
            reveal_strlit("Scroll ↓");
            lemma_differ_at("Scroll ↑"@, "Scroll ↓"@, 7);
        },
        (Action::PageScrollUp, Action::PageScrollDown) => {
            reveal_strlit("Page ↑");
            reveal_strlit("Page ↓");
            lemma_differ_at("Page ↑"@, "Page ↓"@, 5);
        },
        (Action::HalfPageScrollUp, Action::HalfPageScrollDown) => {
            reveal_strlit("Half page ↑");
            reveal_strlit("Half page ↓");
            lemma_differ_at("Half page ↑"@, "Half page ↓"@, 10);
        },
        (Action::ScrollToTop, Action::ScrollToBottom) => {
            reveal_strlit("Scroll top");
            reveal_strlit("Scroll bottom");
            lemma_differ_at("Scroll top"@, "Scroll bottom"@, 7);
        },
        (Action::NewTab, Action::CloseTab) => {
            reveal_strlit("New tab");
            reveal_strlit("Close tab");
            lemma_differ_at("New tab"@, "Close tab"@, 0);
        },
        (Action::Quit, Action::Detach) => {
            reveal_strlit("Quit");
            reveal_strlit("Detach");
            lemma_differ_at("Quit"@, "Detach"@, 0);
        },
        (Action::Confirm, Action::Deny) => {
            reveal_strlit("Confirm");
            reveal_strlit("Deny");
            lemma_differ_at("Confirm"@, "Deny"@, 0);
        },
        (Action::BreakPaneLeft, Action::BreakPaneRight) => {
            reveal_strlit("Break pane ←");
            reveal_strlit("Break pane →");
            lemma_differ_at("Break pane ←"@, "Break pane →"@, 11);
        },
        (Action::Resize(k1, d1), Action::Resize(k2, d2)) => {
            reveal_strlit("Grow");
            reveal_strlit("Shrink");
            let ta = action_text(a);
            let tb = action_text(b);
            let wa = if k1 == ResizeKind::Increase { "Grow"@ } else { "Shrink"@ };
            let wb = if k2 == ResizeKind::Increase { "Grow"@ } else { "Shrink"@ };
            assert(ta.len() >= wa.len() && ta[0] == wa[0]);
            assert(tb.len() >= wb.len() && tb[0] == wb[0]);
            lemma_differ_at(ta, tb, 0);
        },
        (Action::MoveFocus(d1), Action::MoveFocus(d2)) => {
            lemma_moves_differ("Focus "@, d1, d2);
        },
        (Action::MoveFocusOrTab(d1), Action::MoveFocusOrTab(d2)) => {
            lemma_moves_differ("Focus/tab "@, d1, d2);
        },
        (Action::MoveTab(d1), Action::MoveTab(d2)) => {
            lemma_moves_differ("Move tab "@, d1, d2);
        },
        (Action::MovePane(Some(d1)), Action::MovePane(Some(d2))) => {
            lemma_moves_differ("Move pane "@, d1, d2);
        },
        (Action::NewPane(Some(d1)), Action::NewPane(Some(d2))) => {
            lemma_moves_differ("New pane "@, d1, d2);
        },
        (Action::GoToTab(n1), Action::GoToTab(n2)) => {
            lemma_decimal_digits(n1 as nat);
            lemma_decimal_digits(n2 as nat);
            if action_text(a) == action_text(b) {
                lemma_prefix_cancel("Tab "@, decimal(n1 as nat), decimal(n2 as nat));
            }
        },
        _ => {},
    }
}

} // verus!
