//! Properties of the panel that hold for every input: of the sections read
//! from a keymap, of the laid-out lines, and of the cursor and window.

use vstd::prelude::*;
use crate::keymap::{
    find_action,
    lists_key, merged, add_keys, lemma_find_action, normalized, with_key, insert_sorted,
    mode_bindings, sections_from, sections_of, sort_key, sorted_bindings, BindingView, SectionView,
};
use crate::layout::{
    layout_headers, layout_lines, ordered, section_lines, sections_where, Layout, LineType,
};
use crate::model::{
    mode_at, mode_rank, lemma_mode_rank_at, Action, KeyCombo, Mode, ModifierStyle, MODE_COUNT,
};
use crate::panel::{
    command_done, event_done, next_header, next_jump, prev_header, prev_jump, step_down, step_up,
    Command, Event,
    fold_others, key_done, mode_update_done, scrolled, selectable_kind, snap_down, snap_up, toggled,
    EffectView, ModeUpdate, PluginMode, State,
};
use crate::text::truncated;
use crate::labels::distinct_labels;

verus! {

/// Folding a section twice leaves the fold flags as they were.
pub proof fn law_toggle_twice(flags: Seq<bool>, key: Option<Mode>)
    requires
        flags.len() == MODE_COUNT,
    ensures
        toggled(toggled(flags, key), key) == flags,
{
    lemma_mode_rank_at();
    match key {
        Some(m) => {
            assert(toggled(toggled(flags, key), key) =~= flags);
        },
        None => {},
    }
}

/// A label cut to at least one column fits in it.
pub proof fn law_truncated_fits(s: Seq<char>, max: nat)
    requires
        max >= 1,
    ensures
        truncated(s, max).len() <= max,
        s.len() <= max ==> truncated(s, max) == s,
{
}

/// The labels of a key's actions are listed once each, and none is empty.
pub proof fn law_action_labels_distinct(acts: Seq<Action>)
    ensures
        forall|i: int, j: int|
            0 <= i < j < distinct_labels(acts).len() ==> distinct_labels(acts)[i]
                != distinct_labels(acts)[j],
        forall|i: int| 0 <= i < distinct_labels(acts).len() ==> distinct_labels(acts)[i].len() > 0,
    decreases acts.len(),
{
    if acts.len() > 0 {
        law_action_labels_distinct(acts.drop_last());
        let prev = distinct_labels(acts.drop_last());
        let s = crate::labels::action_text(acts.last());
        if s.len() > 0 && !prev.contains(s) {
            assert forall|i: int| 0 <= i < prev.len() implies prev[i] != s by {
                if prev[i] == s {
                    assert(prev.contains(s));
                }
            }
        }
    }
}

/// The nearest selectable line at or above a line is selectable, or it is
/// the first line; it is never below.
pub proof fn law_snap_up(kinds: Seq<LineType>, c: int)
    requires
        0 <= c < kinds.len(),
    ensures
        0 <= snap_up(kinds, c) <= c,
        selectable_kind(kinds[snap_up(kinds, c)]) || snap_up(kinds, c) == 0,
    decreases c,
{
    if c > 0 && !selectable_kind(kinds[c]) {
        law_snap_up(kinds, c - 1);
    }
}

/// When some line is selectable, the cursor snapped down from any line
/// lands on a selectable line.
pub proof fn law_snap_down_selectable(kinds: Seq<LineType>, c: int)
    requires
        0 <= c,
        exists|i: int| 0 <= i < kinds.len() && selectable_kind(#[trigger] kinds[i]),
    ensures
        0 <= snap_down(kinds, c) < kinds.len(),
        selectable_kind(kinds[snap_down(kinds, c)]),
    decreases kinds.len() - c,
{
    if c >= kinds.len() {
        let i = choose|i: int| 0 <= i < kinds.len() && selectable_kind(#[trigger] kinds[i]);
        lemma_snap_up_finds(kinds, kinds.len() - 1, i);
    } else if !selectable_kind(kinds[c]) {
        law_snap_down_selectable(kinds, c + 1);
    }
}

/// Snapping up from `c` finds a selectable line when there is one at or
/// above `c`.
proof fn lemma_snap_up_finds(kinds: Seq<LineType>, c: int, i: int)
    requires
        0 <= i <= c < kinds.len(),
        selectable_kind(kinds[i]),
    ensures
        i <= snap_up(kinds, c) <= c,
        selectable_kind(kinds[snap_up(kinds, c)]),
    decreases c,
{
    if c > 0 && !selectable_kind(kinds[c]) {
        lemma_snap_up_finds(kinds, c - 1, i);
    }
}

/// Once the window is moved, the cursor is in view and the window lies
/// within the lines.
pub proof fn law_cursor_in_view(offset: int, cursor: int, total: int, viewport: int)
    requires
        0 <= offset,
        0 <= cursor < total,
        viewport > 0,
    ensures
        ({
            let o = scrolled(offset, cursor, total, viewport);
            &&& 0 <= o <= cursor < o + viewport
            &&& total > viewport ==> o + viewport <= total
        }),
{
}

/// Whether the bindings are in listing order.
pub open spec fn in_listing_order(s: Seq<BindingView>) -> bool {
    forall|i: int, j: int| 0 <= i < j < s.len() ==> sort_key(s[i]) <= sort_key(s[j])
}

/// Whether no two bindings share an action label.
pub open spec fn distinct_actions(s: Seq<BindingView>) -> bool {
    forall|i: int, j: int| 0 <= i < j < s.len() ==> s[i].action != s[j].action
}

proof fn lemma_insert_sorted(s: Seq<BindingView>, x: BindingView)
    ensures
        insert_sorted(s, x).to_multiset() == s.to_multiset().insert(x),
        insert_sorted(s, x).len() == s.len() + 1,
        in_listing_order(s) ==> in_listing_order(insert_sorted(s, x)),
        distinct_actions(s) && (forall|k: int| 0 <= k < s.len() ==> s[k].action != x.action)
            ==> distinct_actions(insert_sorted(s, x)),
    decreases s.len(),
{
    broadcast use vstd::seq_lib::group_to_multiset_ensures;

    if s.len() == 0 || sort_key(s.last()) <= sort_key(x) {
    } else {
        let dl = s.drop_last();
        let t = insert_sorted(dl, x);
        lemma_insert_sorted(dl, x);
        assert(dl.push(s.last()) =~= s);
        // Every element of `t` is `x` or an element of `dl`.
        assert forall|k: int| 0 <= k < t.len() implies t[k] == x || dl.contains(t[k]) by {
            assert(t.to_multiset().count(t[k]) > 0);
            if t[k] != x {
                assert(dl.to_multiset().count(t[k]) > 0);
            }
        }
        if in_listing_order(s) {
            assert forall|i: int, j: int| 0 <= i < j < t.push(s.last()).len() implies sort_key(
                t.push(s.last())[i],
            ) <= sort_key(t.push(s.last())[j]) by {
                if j == t.len() {
                    if t[i] != x {
                        let k = choose|k: int| 0 <= k < dl.len() && dl[k] == t[i];
                        assert(s[k] == dl[k]);
                    }
                }
            }
        }
        if distinct_actions(s) && (forall|k: int| 0 <= k < s.len() ==> s[k].action != x.action) {
            assert(forall|k: int| 0 <= k < dl.len() ==> dl[k] == s[k]);
            assert forall|i: int, j: int| 0 <= i < j < t.push(s.last()).len() implies t.push(
                s.last(),
            )[i].action != t.push(s.last())[j].action by {
                if j == t.len() {
                    if t[i] != x {
                        let k = choose|k: int| 0 <= k < dl.len() && dl[k] == t[i];
                        assert(s[k] == dl[k]);
                    } else {
                        assert(s[s.len() - 1] == s.last());
                    }
                }
            }
        }
    }
}

proof fn lemma_sorted_bindings(s: Seq<BindingView>)
    ensures
        sorted_bindings(s).to_multiset() == s.to_multiset(),
        sorted_bindings(s).len() == s.len(),
        in_listing_order(sorted_bindings(s)),
        distinct_actions(s) ==> distinct_actions(sorted_bindings(s)),
    decreases s.len(),
{
    broadcast use vstd::seq_lib::group_to_multiset_ensures;

    if s.len() > 0 {
        let dl = s.drop_last();
        lemma_sorted_bindings(dl);
        let t = sorted_bindings(dl);
        assert(dl.push(s.last()) =~= s);
        if distinct_actions(s) {
            assert(distinct_actions(dl));
            assert forall|k: int| 0 <= k < t.len() implies t[k].action != s.last().action by {
                assert(t.to_multiset().count(t[k]) > 0);
                assert(dl.to_multiset().count(t[k]) > 0);
                assert(dl.contains(t[k]));
                let m = choose|m: int| 0 <= m < dl.len() && dl[m] == t[k];
                assert(s[m] == dl[m]);
            }
        }
        lemma_insert_sorted(t, s.last());
    }
}

proof fn lemma_with_key_distinct(
    bs: Seq<BindingView>,
    action: Seq<char>,
    key: Seq<char>,
    category: crate::model::ActionCategory,
    dir: u8,
)
    requires
        distinct_actions(bs),
    ensures
        distinct_actions(with_key(bs, action, key, category, dir)),
{
    lemma_find_action(bs, action, 0);
}

proof fn lemma_add_keys_distinct(
    bs: Seq<BindingView>,
    style: ModifierStyle,
    binds: Seq<(KeyCombo, Vec<Action>)>,
)
    requires
        distinct_actions(bs),
    ensures
        distinct_actions(add_keys(bs, style, binds)),
    decreases binds.len(),
{
    if binds.len() > 0 {
        lemma_add_keys_distinct(bs, style, binds.drop_last());
        let prev = add_keys(bs, style, binds.drop_last());
        let acts = binds.last().1@;
        let a = crate::labels::actions_text(acts);
        if !(a.len() == 0 || a == "NoOp"@) {
            lemma_with_key_distinct(
                prev,
                a,
                crate::labels::key_text(binds.last().0, style),
                crate::keymap::primary(acts),
                crate::keymap::dir_sort(acts),
            );
        }
    }
}

proof fn lemma_mode_bindings_distinct(
    table: Seq<(Mode, Vec<(KeyCombo, Vec<Action>)>)>,
    style: ModifierStyle,
    m: Mode,
)
    ensures
        distinct_actions(mode_bindings(table, style, m)),
        (m == Mode::EnterSearch || m == Mode::RenameTab || m == Mode::RenamePane)
            ==> mode_bindings(table, style, m).len() == 0,
    decreases table.len(),
{
    if table.len() > 0 {
        lemma_mode_bindings_distinct(table.drop_last(), style, m);
        if normalized(table.last().0) == m {
            lemma_add_keys_distinct(mode_bindings(table.drop_last(), style, m), style, table.last().1@);
        }
    }
}

proof fn lemma_sections_from(
    table: Seq<(Mode, Vec<(KeyCombo, Vec<Action>)>)>,
    style: ModifierStyle,
    r: nat,
)
    ensures
        ({
            let secs = sections_from(table, style, r);
            &&& forall|i: int| 0 <= i < secs.len() ==> mode_rank(#[trigger] secs[i].mode) >= r
            &&& forall|i: int, j: int|
                0 <= i < j < secs.len() ==> mode_rank(secs[i].mode) < mode_rank(secs[j].mode)
            &&& forall|i: int|
                0 <= i < secs.len() ==> {
                    &&& (#[trigger] secs[i]).bindings.len() > 0
                    &&& in_listing_order(secs[i].bindings)
                    &&& distinct_actions(secs[i].bindings)
                    &&& normalized(secs[i].mode) == secs[i].mode
                }
        }),
    decreases MODE_COUNT - r,
{
    lemma_mode_rank_at();
    if r < MODE_COUNT {
        lemma_sections_from(table, style, r + 1);
        let raw = mode_bindings(table, style, mode_at(r));
        lemma_mode_bindings_distinct(table, style, mode_at(r));
        lemma_sorted_bindings(raw);
        let bs = sorted_bindings(raw);
        let rest = sections_from(table, style, r + 1);
        if bs.len() > 0 {
            let secs = seq![SectionView { mode: mode_at(r), bindings: bs }] + rest;
            assert(secs == sections_from(table, style, r));
            assert(forall|i: int| 0 < i < secs.len() ==> secs[i] == rest[i - 1]);
            assert(normalized(mode_at(r)) == mode_at(r));
        }
    }
}

/// The sections read from a keymap come in the host's order of modes, one
/// per mode at most; none is empty, none is for a mode that joins another
/// mode's section (entering a search, renaming a tab or pane); each lists
/// its bindings by category and then direction, and no action twice.
pub proof fn law_sections_well_formed(
    table: Seq<(Mode, Vec<(KeyCombo, Vec<Action>)>)>,
    style: ModifierStyle,
)
    ensures
        ({
            let secs = sections_of(table, style);
            &&& secs.len() <= MODE_COUNT
            &&& forall|i: int, j: int|
                0 <= i < j < secs.len() ==> mode_rank(secs[i].mode) < mode_rank(secs[j].mode)
            &&& forall|i: int|
                0 <= i < secs.len() ==> {
                    &&& (#[trigger] secs[i]).bindings.len() > 0
                    &&& in_listing_order(secs[i].bindings)
                    &&& distinct_actions(secs[i].bindings)
                    &&& normalized(secs[i].mode) == secs[i].mode
                }
        }),
{
    lemma_sections_from(table, style, 0);
    crate::keymap::lemma_sections_from_len(table, style, 0);
}

proof fn lemma_where_first(secs: Seq<SectionView>, m: Mode)
    ensures
        forall|i: int|
            0 <= i < sections_where(secs, m, true).len() ==> (#[trigger] sections_where(
                secs,
                m,
                true,
            )[i]).mode == m,
        (exists|i: int| 0 <= i < secs.len() && (#[trigger] secs[i]).mode == m) ==> sections_where(
            secs,
            m,
            true,
        ).len() > 0,
    decreases secs.len(),
{
    if secs.len() > 0 {
        lemma_where_first(secs.drop_last(), m);
        if exists|i: int| 0 <= i < secs.len() && (#[trigger] secs[i]).mode == m {
            let i = choose|i: int| 0 <= i < secs.len() && (#[trigger] secs[i]).mode == m;
            if i < secs.len() - 1 {
                assert(secs.drop_last()[i] == secs[i]);
            }
        }
    }
}

/// When the current mode has a section, it is listed first.
pub proof fn law_current_mode_first(secs: Seq<SectionView>, current: Mode)
    requires
        exists|i: int| 0 <= i < secs.len() && (#[trigger] secs[i]).mode == current,
    ensures
        ordered(secs, current).len() > 0,
        ordered(secs, current)[0].mode == current,
{
    lemma_where_first(secs, current);
}

/// Every header position points at the header line of a listed section,
/// and the header positions increase (for as many lines as memory can
/// index).
pub proof fn law_headers_point_at_headers(secs: Seq<SectionView>, l: Layout)
    requires
        layout_lines(secs, l).len() <= usize::MAX,
    ensures
        forall|k: int|
            0 <= k < layout_headers(secs, l).len() ==> {
                let h = #[trigger] layout_headers(secs, l)[k] as int;
                &&& h < layout_lines(secs, l).len()
                &&& layout_lines(secs, l)[h].1 is SectionHeader
            },
        forall|k: int, j: int|
            0 <= k < j < layout_headers(secs, l).len() ==> layout_headers(secs, l)[k]
                < layout_headers(secs, l)[j],
    decreases secs.len(),
{
    if secs.len() > 0 {
        let dl = secs.drop_last();
        let prev_lines = layout_lines(dl, l);
        let sl = section_lines(secs.last(), l);
        let lines = layout_lines(secs, l);
        assert(lines == prev_lines + sl);
        law_headers_point_at_headers(dl, l);
        let prev = layout_headers(dl, l);
        let hs = layout_headers(secs, l);
        assert(forall|i: int| 0 <= i < prev_lines.len() ==> lines[i] == prev_lines[i]);
        if sl.len() > 0 {
            assert(sl[0].1 is SectionHeader);
            assert(lines[prev_lines.len() as int] == sl[0]);
            assert(hs == prev.push(prev_lines.len() as usize));
            assert(hs[prev.len() as int] == prev_lines.len());
        } else {
            assert(hs == prev);
        }
    }
}

/// Whether laid-out lines have the shape of a listing: a header comes
/// first, every binding line follows a header or a binding line, and the
/// last line is not a binding.
pub open spec fn listing_shape(lines: Seq<(Seq<char>, LineType)>) -> bool {
    &&& lines.len() > 0 ==> lines[0].1 is SectionHeader
    &&& lines.len() > 0 ==> !(lines.last().1 is Binding)
    &&& forall|i: int, j: int|
        #![trigger lines[i], lines[j]]
        0 <= i && j == i + 1 && j < lines.len() && lines[j].1 is Binding ==> !(lines[i].1 is Empty)
}

proof fn lemma_section_shape(sec: SectionView, l: Layout)
    ensures
        ({
            let sl = section_lines(sec, l);
            &&& listing_shape(sl)
            &&& forall|i: int| 0 < i < sl.len() ==> !((#[trigger] sl[i]).1 is SectionHeader)
        }),
{
    let sl = section_lines(sec, l);
    if sl.len() > 0 {
        assert(sl[0].1 is SectionHeader);
        if sl.len() > 1 {
            assert(sl.last().1 is Empty);
            assert forall|i: int| 0 < i < sl.len() implies !((#[trigger] sl[i]).1 is SectionHeader)
                by {
                if i < sl.len() - 1 {
                    assert(sl[i].1 is Binding);
                }
            }
            assert forall|i: int, j: int|
                #![trigger sl[i], sl[j]]
                0 <= i && j == i + 1 && j < sl.len() && sl[j].1 is Binding implies !(
                sl[i].1 is Empty) by {
                if i > 0 {
                    assert(sl[i].1 is Binding);
                }
            }
        }
    }
}

/// Whether `hs` holds exactly the positions of the header lines.
pub open spec fn headers_exact(lines: Seq<(Seq<char>, LineType)>, hs: Seq<usize>) -> bool {
    &&& forall|i: int|
        0 <= i < lines.len() && (#[trigger] lines[i]).1 is SectionHeader ==> exists|k: int|
            0 <= k < hs.len() && hs[k] == i
    &&& forall|k: int| 0 <= k < hs.len() ==> #[trigger] hs[k] < lines.len()
}

proof fn lemma_append_section(
    lines: Seq<(Seq<char>, LineType)>,
    hs: Seq<usize>,
    sl: Seq<(Seq<char>, LineType)>,
)
    requires
        listing_shape(lines),
        headers_exact(lines, hs),
        listing_shape(sl),
        forall|i: int| 0 < i < sl.len() ==> !((#[trigger] sl[i]).1 is SectionHeader),
        lines.len() + sl.len() <= usize::MAX,
    ensures
        listing_shape(lines + sl),
        headers_exact(
            lines + sl,
            if sl.len() > 0 {
                hs.push(lines.len() as usize)
            } else {
                hs
            },
        ),
{
    let all = lines + sl;
    let n = lines.len() as int;
    let hs2 = if sl.len() > 0 {
        hs.push(lines.len() as usize)
    } else {
        hs
    };
    assert forall|i: int| 0 <= i < all.len() && (#[trigger] all[i]).1 is SectionHeader implies exists|k: int|
        0 <= k < hs2.len() && hs2[k] == i by {
        if i < n {
            assert(all[i] == lines[i]);
            let k = choose|k: int| 0 <= k < hs.len() && hs[k] == i;
            assert(hs2[k] == hs[k]);
        } else {
            assert(all[i] == sl[i - n]);
            assert(hs2[hs.len() as int] == n);
        }
    }
    assert forall|k: int| 0 <= k < hs2.len() implies #[trigger] hs2[k] < all.len() by {
        if k < hs.len() {
            assert(hs2[k] == hs[k]);
        }
    }
    assert forall|i: int, j: int|
        #![trigger all[i], all[j]]
        0 <= i && j == i + 1 && j < all.len() && all[j].1 is Binding implies !(
        all[i].1 is Empty) by {
        if j < n {
            assert(all[i] == lines[i]);
            assert(all[j] == lines[j]);
        } else if j == n {
            assert(all[j] == sl[0]);
        } else {
            assert(all[j] == sl[j - n]);
            assert(all[i] == sl[i - n]);
        }
    }
    if all.len() > 0 {
        if n > 0 {
            assert(all[0] == lines[0]);
        } else {
            assert(all[0] == sl[0]);
        }
        if sl.len() > 0 {
            assert(all.last() == sl.last());
        } else {
            assert(all.last() == lines.last());
        }
    }
}

/// The laid-out lines have the shape of a listing, and the header
/// positions are exactly the positions of the header lines, in increasing
/// order (for as many lines as memory can index).
pub proof fn law_layout_shape(secs: Seq<SectionView>, l: Layout)
    requires
        layout_lines(secs, l).len() <= usize::MAX,
    ensures
        listing_shape(layout_lines(secs, l)),
        headers_exact(layout_lines(secs, l), layout_headers(secs, l)),
        forall|k: int, j: int|
            0 <= k < j < layout_headers(secs, l).len() ==> layout_headers(secs, l)[k]
                < layout_headers(secs, l)[j],
    decreases secs.len(),
{
    law_headers_point_at_headers(secs, l);
    if secs.len() > 0 {
        let dl = secs.drop_last();
        assert(layout_lines(secs, l) == layout_lines(dl, l) + section_lines(secs.last(), l));
        law_layout_shape(dl, l);
        lemma_section_shape(secs.last(), l);
        lemma_append_section(layout_lines(dl, l), layout_headers(dl, l), section_lines(secs.last(), l));
    }
}

proof fn lemma_step_down_one(kinds: Seq<LineType>, pos: int, max: int)
    requires
        0 <= pos,
        max < kinds.len(),
        exists|i: int| pos < i <= max && selectable_kind(#[trigger] kinds[i]),
    ensures
        ({
            let p = step_down(kinds, pos, 1, max);
            &&& pos < p <= max
            &&& selectable_kind(kinds[p])
            &&& forall|q: int| pos < q < p ==> !selectable_kind(#[trigger] kinds[q])
        }),
    decreases max - pos,
{
    let p = pos + 1;
    let i = choose|i: int| pos < i <= max && selectable_kind(#[trigger] kinds[i]);
    assert(pos < max);
    if selectable_kind(kinds[p]) {
        assert(step_down(kinds, p, 0, max) == p);
        assert(step_down(kinds, pos, 1, max) == step_down(kinds, p, 0, max));
    } else {
        assert(p < i);
        assert(step_down(kinds, pos, 1, max) == step_down(kinds, p, 1, max));
        lemma_step_down_one(kinds, p, max);
    }
}

proof fn lemma_step_up_to(kinds: Seq<LineType>, p: int, c: int)
    requires
        0 <= c < p < kinds.len(),
        selectable_kind(kinds[c]),
        forall|q: int| c < q < p ==> !selectable_kind(#[trigger] kinds[q]),
    ensures
        step_up(kinds, p, 1) == c,
    decreases p - c,
{
    if p - 1 > c {
        assert(!selectable_kind(kinds[p - 1]));
        assert(step_up(kinds, p, 1) == step_up(kinds, p - 1, 1));
        lemma_step_up_to(kinds, p - 1, c);
    } else {
        assert(step_up(kinds, c, 0) == c);
        assert(step_up(kinds, p, 1) == step_up(kinds, c, 0));
    }
}

/// From a selectable line with a selectable line below it, one step down
/// and then one step up bring the cursor back: what `move_cursor_down(1)`
/// and then `move_cursor_up(1)` do to the cursor, over lines that do not
/// change between them.
pub proof fn law_down_then_up(kinds: Seq<LineType>, c: int)
    requires
        0 <= c < kinds.len(),
        selectable_kind(kinds[c]),
        exists|i: int| c < i < kinds.len() && selectable_kind(#[trigger] kinds[i]),
    ensures
        ({
            let d = snap_down(kinds, step_down(kinds, c, 1, kinds.len() - 1));
            snap_up(kinds, step_up(kinds, d, 1)) == c
        }),
{
    lemma_step_down_one(kinds, c, kinds.len() - 1);
    let p = step_down(kinds, c, 1, kinds.len() - 1);
    assert(snap_down(kinds, p) == p);
    lemma_step_up_to(kinds, p, c);
}

/// Whether the header positions increase.
pub open spec fn increasing(h: Seq<usize>) -> bool {
    forall|i: int, j: int| 0 <= i < j < h.len() ==> h[i] < h[j]
}

proof fn lemma_next_header_after(h: Seq<usize>, m: int, k: int)
    requires
        increasing(h),
        0 <= m < h.len(),
        0 <= k <= m + 1,
    ensures
        next_header(h, h[m] as int, k) == if m + 1 < h.len() {
            Some(h[m + 1])
        } else {
            None
        },
    decreases h.len() - k,
{
    if k < h.len() && h[k] <= h[m] {
        if k == m + 1 {
            assert(h[m] < h[k]);
        }
        lemma_next_header_after(h, m, k + 1);
    }
}

proof fn lemma_prev_header_before(h: Seq<usize>, m: int, k: int)
    requires
        increasing(h),
        0 <= m,
        m + 1 < h.len(),
        m <= k < h.len(),
    ensures
        prev_header(h, h[m + 1] as int, k) == Some(h[m]),
    decreases k,
{
    if k > m {
        if k > m + 1 {
            assert(h[m + 1] < h[k]);
        }
        lemma_prev_header_before(h, m, k - 1);
    }
}

proof fn lemma_prev_header_first(h: Seq<usize>, k: int)
    requires
        increasing(h),
        h.len() > 0,
        k < h.len(),
    ensures
        prev_header(h, h[0] as int, k) is None,
    decreases k + 1,
{
    if k >= 0 {
        if k > 0 {
            assert(h[0] < h[k]);
        }
        lemma_prev_header_first(h, k - 1);
    }
}

/// A jump to the previous section undoes a jump to the next section made
/// from a header line: what `jump_to_next_section` and then
/// `jump_to_prev_section` do to the cursor, over header positions that
/// increase (as laid-out headers do) and do not change between them.
pub proof fn law_next_then_prev_section(h: Seq<usize>, m: int)
    requires
        increasing(h),
        0 <= m < h.len(),
    ensures
        prev_jump(h, next_jump(h, h[m] as int)) == h[m],
{
    lemma_next_header_after(h, m, 0);
    if m + 1 < h.len() {
        lemma_prev_header_before(h, m, h.len() - 1);
    } else {
        lemma_prev_header_first(h, h.len() - 1);
    }
}

/// A key that the label already lists leaves the label as it is.
pub proof fn law_merge_skips_present_key(existing: Seq<char>, new: Seq<char>)
    requires
        lists_key(existing, new),
    ensures
        merged(existing, new) == existing,
{
    reveal(merged);
}

/// A mode update that changes neither the mode nor the palette once the
/// keymap is loaded changes nothing and asks for no redraw.
pub proof fn law_same_mode_update_is_noop(
    a: &State,
    b: &State,
    info: ModeUpdate,
    ea: Seq<EffectView>,
    eb: Seq<EffectView>,
    r: bool,
)
    requires
        mode_update_done(a, b, info, ea, eb, r),
        a.sections@.len() > 0,
        info.mode == a.current_mode,
        a.palette == Some(info.palette),
    ensures
        !r,
        *b == *a,
        eb == ea,
{
}

/// Switching to another mode once the keymap is loaded unfolds the new
/// mode's section, folds the old one's, and closes the search.
pub proof fn law_mode_switch_refocuses(
    a: &State,
    b: &State,
    info: ModeUpdate,
    ea: Seq<EffectView>,
    eb: Seq<EffectView>,
    r: bool,
)
    requires
        a.wf(),
        mode_update_done(a, b, info, ea, eb, r),
        a.sections@.len() > 0,
        info.mode != a.current_mode,
    ensures
        r,
        !b.is_collapsed(info.mode),
        b.is_collapsed(a.current_mode),
        b.search_query@.len() == 0,
        b.plugin_mode == PluginMode::Browse,
        b.lines@.len() == 0,
{
    lemma_mode_rank_at();
    assert(mode_rank(info.mode) != mode_rank(a.current_mode));
}

proof fn lemma_fold_others(flags: Seq<bool>, secs: Seq<SectionView>, current: Mode)
    requires
        flags.len() == MODE_COUNT,
    ensures
        fold_others(flags, secs, current).len() == MODE_COUNT,
        forall|i: int|
            0 <= i < secs.len() && (#[trigger] secs[i]).mode != current ==> fold_others(
                flags,
                secs,
                current,
            )[mode_rank(secs[i].mode) as int],
        fold_others(flags, secs, current)[mode_rank(current) as int] == flags[mode_rank(
            current,
        ) as int],
    decreases secs.len(),
{
    lemma_mode_rank_at();
    if secs.len() > 0 {
        lemma_fold_others(flags, secs.drop_last(), current);
        assert forall|i: int|
            0 <= i < secs.len() && (#[trigger] secs[i]).mode != current implies fold_others(
            flags,
            secs,
            current,
        )[mode_rank(secs[i].mode) as int] by {
            if i < secs.len() - 1 {
                assert(secs.drop_last()[i] == secs[i]);
            }
        }
        if secs.last().mode != current {
            assert(mode_rank(secs.last().mode) != mode_rank(current));
        }
    }
}

/// The first time the keymap is loaded, every section but the current
/// mode's is folded, and the current mode's fold flag is left as it was.
pub proof fn law_first_load_folds_others(
    a: &State,
    b: &State,
    info: ModeUpdate,
    ea: Seq<EffectView>,
    eb: Seq<EffectView>,
    r: bool,
)
    requires
        a.wf(),
        mode_update_done(a, b, info, ea, eb, r),
        a.sections@.len() == 0,
    ensures
        forall|i: int|
            0 <= i < b.sections@.len() && (#[trigger] b.sections@[i]).mode != info.mode
                ==> b.is_collapsed(b.sections@[i].mode),
        b.is_collapsed(info.mode) == a.is_collapsed(info.mode),
{
    let secs = crate::keymap::section_views(b.sections@);
    lemma_fold_others(a.collapsed@, secs, info.mode);
    assert forall|i: int|
        0 <= i < b.sections@.len() && (#[trigger] b.sections@[i]).mode != info.mode implies b.is_collapsed(
        b.sections@[i].mode,
    ) by {
        assert(secs[i].mode == b.sections@[i].mode);
    }
}

/// In the help view any key goes back to the list and does nothing else.
pub proof fn law_help_any_key_returns(
    key: KeyCombo,
    a: &State,
    b: &State,
    ea: Seq<EffectView>,
    eb: Seq<EffectView>,
    handled: bool,
)
    requires
        a.plugin_mode == PluginMode::Help,
        key_done(key, a, b, ea, eb, handled),
    ensures
        handled,
        b.plugin_mode == PluginMode::Browse,
        b.cursor == a.cursor,
        b.collapsed == a.collapsed,
        b.search_query == a.search_query,
        eb == ea,
{
}

/// Typing a character into the search and deleting it again gives back the
/// query there was.
pub proof fn law_type_then_backspace(
    c: char,
    a: &State,
    b: &State,
    d: &State,
    ea: Seq<EffectView>,
    eb: Seq<EffectView>,
    ed: Seq<EffectView>,
)
    requires
        command_done(Command::Type(c), a, b, ea, eb),
        command_done(Command::Backspace, b, d, eb, ed),
    ensures
        d.search_query@ == a.search_query@,
        d.cursor == 0,
        d.scroll_offset == 0,
        ed == ea,
{
    assert(a.search_query@.push(c).drop_last() =~= a.search_query@);
}

/// A key that does nothing in the current panel mode leaves the state as
/// it was, asks the host for nothing and asks for no redraw.
pub proof fn law_ignored_key_changes_nothing(
    key: KeyCombo,
    a: &State,
    b: &State,
    ea: Seq<EffectView>,
    eb: Seq<EffectView>,
    r: bool,
)
    requires
        event_done(Event::Key(key), a, b, ea, eb, r),
        !r,
    ensures
        *b == *a,
        eb == ea,
{
}

/// Whether some binding has this action label.
pub open spec fn lists_action(bs: Seq<BindingView>, a: Seq<char>) -> bool {
    exists|i: int| 0 <= i < bs.len() && (#[trigger] bs[i]).action == a
}

proof fn lemma_with_key_lists(
    bs: Seq<BindingView>,
    action: Seq<char>,
    key: Seq<char>,
    category: crate::model::ActionCategory,
    dir: u8,
    a: Seq<char>,
)
    ensures
        lists_action(bs, a) ==> lists_action(with_key(bs, action, key, category, dir), a),
        lists_action(with_key(bs, action, key, category, dir), action),
{
    lemma_find_action(bs, action, 0);
    let r = with_key(bs, action, key, category, dir);
    if lists_action(bs, a) {
        let i = choose|i: int| 0 <= i < bs.len() && (#[trigger] bs[i]).action == a;
        assert(r[i].action == a);
    }
    match find_action(bs, action, 0) {
        Some(k) => {
            assert(r[k].action == action);
        },
        None => {
            assert(r[bs.len() as int].action == action);
        },
    }
}

proof fn lemma_add_keys_lists(
    bs: Seq<BindingView>,
    style: ModifierStyle,
    binds: Seq<(KeyCombo, Vec<Action>)>,
    a: Seq<char>,
)
    ensures
        lists_action(bs, a) ==> lists_action(add_keys(bs, style, binds), a),
        forall|j: int|
            0 <= j < binds.len() && a == crate::labels::actions_text((#[trigger] binds[j]).1@)
                && a.len() > 0 && a != "NoOp"@ ==> lists_action(add_keys(bs, style, binds), a),
    decreases binds.len(),
{
    if binds.len() > 0 {
        let dl = binds.drop_last();
        lemma_add_keys_lists(bs, style, dl, a);
        let prev = add_keys(bs, style, dl);
        let acts = binds.last().1@;
        let t = crate::labels::actions_text(acts);
        if !(t.len() == 0 || t == "NoOp"@) {
            lemma_with_key_lists(
                prev,
                t,
                crate::labels::key_text(binds.last().0, style),
                crate::keymap::primary(acts),
                crate::keymap::dir_sort(acts),
                a,
            );
        }
        assert forall|j: int|
            0 <= j < binds.len() && a == crate::labels::actions_text((#[trigger] binds[j]).1@)
                && a.len() > 0 && a != "NoOp"@ implies lists_action(add_keys(bs, style, binds), a) by {
            if j < binds.len() - 1 {
                assert(dl[j] == binds[j]);
            }
        }
    }
}

proof fn lemma_mode_bindings_lists(
    table: Seq<(Mode, Vec<(KeyCombo, Vec<Action>)>)>,
    style: ModifierStyle,
    k: int,
    j: int,
)
    requires
        0 <= k < table.len(),
        0 <= j < table[k].1@.len(),
        crate::labels::actions_text(table[k].1@[j].1@).len() > 0,
        crate::labels::actions_text(table[k].1@[j].1@) != "NoOp"@,
    ensures
        lists_action(
            mode_bindings(table, style, normalized(table[k].0)),
            crate::labels::actions_text(table[k].1@[j].1@),
        ),
    decreases table.len(),
{
    let m = normalized(table[k].0);
    let a = crate::labels::actions_text(table[k].1@[j].1@);
    let dl = table.drop_last();
    let prev = mode_bindings(dl, style, m);
    if k < table.len() - 1 {
        assert(dl[k] == table[k]);
        lemma_mode_bindings_lists(dl, style, k, j);
        if normalized(table.last().0) == m {
            lemma_add_keys_lists(prev, style, table.last().1@, a);
        }
    } else {
        lemma_add_keys_lists(prev, style, table.last().1@, a);
    }
}

proof fn lemma_sections_from_has(
    table: Seq<(Mode, Vec<(KeyCombo, Vec<Action>)>)>,
    style: ModifierStyle,
    r: nat,
    m: Mode,
    a: Seq<char>,
)
    requires
        r <= mode_rank(m),
        lists_action(mode_bindings(table, style, m), a),
    ensures
        exists|i: int|
            0 <= i < sections_from(table, style, r).len() && (#[trigger] sections_from(
                table,
                style,
                r,
            )[i]).mode == m && lists_action(sections_from(table, style, r)[i].bindings, a),
    decreases MODE_COUNT - r,
{
    lemma_mode_rank_at();
    broadcast use vstd::seq_lib::group_to_multiset_ensures;

    let raw = mode_bindings(table, style, mode_at(r));
    let bs = sorted_bindings(raw);
    let rest = sections_from(table, style, r + 1);
    if r == mode_rank(m) {
        assert(mode_at(r) == m);
        lemma_sorted_bindings(raw);
        let i = choose|i: int| 0 <= i < raw.len() && (#[trigger] raw[i]).action == a;
        assert(raw.to_multiset().count(raw[i]) > 0);
        assert(bs.to_multiset().count(raw[i]) > 0);
        assert(bs.contains(raw[i]));
        let b = choose|b: int| 0 <= b < bs.len() && bs[b] == raw[i];
        assert(bs[b].action == a);
        let secs = seq![SectionView { mode: mode_at(r), bindings: bs }] + rest;
        assert(secs == sections_from(table, style, r));
        assert(secs[0].bindings[b].action == a);
        assert(sections_from(table, style, r)[0].mode == m);
        assert(lists_action(sections_from(table, style, r)[0].bindings, a));
    } else {
        lemma_sections_from_has(table, style, r + 1, m, a);
        let i = choose|i: int|
            0 <= i < rest.len() && (#[trigger] rest[i]).mode == m && lists_action(rest[i].bindings, a);
        if bs.len() > 0 {
            let secs = seq![SectionView { mode: mode_at(r), bindings: bs }] + rest;
            assert(secs == sections_from(table, style, r));
            assert(secs[i + 1] == rest[i]);
            assert(sections_from(table, style, r)[i + 1].mode == m);
            assert(lists_action(sections_from(table, style, r)[i + 1].bindings, a));
        } else {
            assert(sections_from(table, style, r) == rest);
            assert(sections_from(table, style, r)[i].mode == m);
            assert(lists_action(sections_from(table, style, r)[i].bindings, a));
        }
    }
}

/// Every key of the keymap whose actions have a label is listed: the
/// section of its mode (or of the mode its mode joins) has a binding with
/// that label.
pub proof fn law_every_labelled_key_listed(
    table: Seq<(Mode, Vec<(KeyCombo, Vec<Action>)>)>,
    style: ModifierStyle,
    k: int,
    j: int,
)
    requires
        0 <= k < table.len(),
        0 <= j < table[k].1@.len(),
        crate::labels::actions_text(table[k].1@[j].1@).len() > 0,
        crate::labels::actions_text(table[k].1@[j].1@) != "NoOp"@,
    ensures
        exists|i: int|
            0 <= i < sections_of(table, style).len() && (#[trigger] sections_of(table, style)[i]).mode
                == normalized(table[k].0) && lists_action(
                sections_of(table, style)[i].bindings,
                crate::labels::actions_text(table[k].1@[j].1@),
            ),
{
    lemma_mode_bindings_lists(table, style, k, j);
    let m = normalized(table[k].0);
    let a = crate::labels::actions_text(table[k].1@[j].1@);
    lemma_mode_rank_at();
    lemma_sections_from_has(table, style, 0, m, a);
    let secs = sections_from(table, style, 0);
    let i = choose|i: int|
        0 <= i < secs.len() && (#[trigger] secs[i]).mode == m && lists_action(secs[i].bindings, a);
    assert(sections_of(table, style) == secs);
    assert(sections_of(table, style)[i].mode == m);
    assert(lists_action(sections_of(table, style)[i].bindings, a));
}

} // verus!
