//! How the sections are laid out as lines: a header per section, then its
//! bindings grouped by category with brackets, key labels aligned, and a
//! blank line.

use vstd::prelude::*;
use vstd::string::*;
use crate::keymap::{
    binding_views, lemma_binding_views_push, Binding, BindingView, Section, SectionView,
};
use crate::labels::{
    color_code, colored_key, color_key_label, fg_color, format_mode, mode_icon, mode_icon_text,
    mode_name, is_ascii_lower, ascii_upper, BOLD, DIM, RESET,
};
use crate::model::{mode_rank, Mode, Palette, MODE_COUNT};
use crate::text::{
    chars_of, contains_text, decimal, has_substring, lowercase, owned, push_char, push_decimal,
    push_repeat, repeat, string_of_range, to_lowercase, truncate, truncated,
};

verus! {

/// What a rendered line is: the header of a mode's section, a binding, or
/// the blank line after a section.
#[derive(Clone, Copy, Debug, PartialEq, Eq, Structural)]
pub enum LineType {
    SectionHeader(Mode),
    Binding,
    Empty,
}

/// A rendered line of the list and what it is.
#[derive(Debug)]
pub struct RenderLine {
    pub text: String,
    pub line_type: LineType,
}

/// The views of rendered lines: text and kind.
pub open spec fn line_views(s: Seq<RenderLine>) -> Seq<(Seq<char>, LineType)> {
    s.map_values(|l: RenderLine| (l.text@, l.line_type))
}

/// Pushing a line pushes its view.
pub proof fn lemma_line_views_push(s: Seq<RenderLine>, l: RenderLine)
    ensures
        line_views(s.push(l)) == line_views(s).push((l.text@, l.line_type)),
{
    assert(line_views(s.push(l)) =~= line_views(s).push((l.text@, l.line_type)));
}

/// `a - b`, or 0 when `b` is larger.
pub open spec fn sat_sub(a: int, b: int) -> int {
    if a > b {
        a - b
    } else {
        0
    }
}

/// The smaller of two numbers.
pub open spec fn min_int(a: int, b: int) -> int {
    if a < b {
        a
    } else {
        b
    }
}

/// The characters of `s`, with ASCII lower-case letters in upper case.
pub open spec fn upper(s: Seq<char>) -> Seq<char> {
    s.map_values(|c: char| if is_ascii_lower(c) { ascii_upper(c) } else { c })
}

/// What the layout of the sections depends on besides the sections.
pub struct Layout {
    pub palette: Palette,
    pub current: Mode,
    pub collapsed: Seq<bool>,
    pub searching: bool,
    /// The search query, lower-cased.
    pub query: Seq<char>,
    pub cols: int,
    pub max_action: int,
    pub max_key: int,
}

/// Whether a binding's action or key label, lower-cased, holds the query.
pub open spec fn matches_query(b: BindingView, q: Seq<char>) -> bool {
    has_substring(lowercase(b.action), q) || has_substring(lowercase(b.key), q)
}

/// The bindings that match the query, in order.
pub open spec fn matching(bs: Seq<BindingView>, q: Seq<char>) -> Seq<BindingView>
    decreases bs.len(),
{
    if bs.len() == 0 {
        bs
    } else if matches_query(bs.last(), q) {
        matching(bs.drop_last(), q).push(bs.last())
    } else {
        matching(bs.drop_last(), q)
    }
}

/// The header line of a mode's section: an arrow that shows whether it is
/// folded, the mode's icon and name, the number of bindings when folded,
/// and a rule to the width `hw`.
pub open spec fn header_text(
    m: Mode,
    is_current: bool,
    is_collapsed: bool,
    count: nat,
    hw: int,
    palette: Palette,
) -> Seq<char> {
    let name = upper(mode_name(m));
    let hc = if is_current {
        color_code(palette.green)
    } else {
        color_code(palette.fg)
    };
    if is_collapsed {
        let cs = "("@ + decimal(count) + ")"@;
        let rule = sat_sub(hw, (name.len() + cs.len() + 7) as int);
        (if is_current {
            BOLD@
        } else {
            Seq::empty()
        }) + hc + "▸ "@ + mode_icon_text(m) + " "@ + name + " "@ + RESET@ + DIM@ + " "@ + cs + " "@
            + repeat("─"@, rule as nat) + RESET@
    } else {
        let rule = sat_sub(hw, (name.len() + 6) as int);
        BOLD@ + hc + "▾ "@ + mode_icon_text(m) + " "@ + name + " "@ + repeat("─"@, rule as nat)
            + RESET@
    }
}

/// The start of the run of bindings of one category that holds `i`.
pub open spec fn run_start(bs: Seq<BindingView>, i: int) -> int
    decreases i,
{
    if i <= 0 || bs[i - 1].category != bs[i].category {
        i
    } else {
        run_start(bs, i - 1)
    }
}

/// The end of the run of bindings of one category that holds `i`.
pub open spec fn run_end(bs: Seq<BindingView>, i: int) -> int
    decreases bs.len() - i,
{
    if i + 1 >= bs.len() || bs[i + 1].category != bs[i].category {
        i + 1
    } else {
        run_end(bs, i + 1)
    }
}

/// The length of the common prefix of `a` and `b`, counting from `k`.
pub open spec fn lcp_from(a: Seq<char>, b: Seq<char>, k: int) -> int
    decreases a.len() - k,
{
    if 0 <= k < a.len() && k < b.len() && a[k] == b[k] {
        lcp_from(a, b, k + 1)
    } else {
        k
    }
}

/// The length of the common prefix of the first action label of the run
/// `[s, j)` with every other label in it.
pub open spec fn prefix_len(bs: Seq<BindingView>, s: int, j: int) -> int
    decreases j - s,
{
    if j <= s + 1 {
        bs[s].action.len() as int
    } else {
        min_int(prefix_len(bs, s, j - 1), lcp_from(bs[s].action, bs[j - 1].action, 0))
    }
}

/// The last space in `p` at or before `k`.
pub open spec fn last_space(p: Seq<char>, k: int) -> Option<int>
    decreases k + 1,
{
    if k < 0 {
        None
    } else if p[k] == ' ' {
        Some(k)
    } else {
        last_space(p, k - 1)
    }
}

/// The prefix that the action labels of a run of several bindings share,
/// cut after its last space (no prefix when that space is the first
/// character).
pub open spec fn group_prefix(bs: Seq<BindingView>, s: int, e: int) -> Seq<char> {
    if e - s > 1 {
        let p = bs[s].action.take(prefix_len(bs, s, e));
        match last_space(p, p.len() - 1) {
            Some(i) => if i > 0 {
                p.take(i + 1)
            } else {
                Seq::empty()
            },
            None => Seq::empty(),
        }
    } else {
        Seq::empty()
    }
}

/// The bracket in front of a binding: a dash for a run of one, else a
/// corner at each end of the run and a bar between.
pub open spec fn bracket(bi: int, group_len: int) -> Seq<char> {
    if group_len == 1 {
        "─"@
    } else if bi == 0 {
        "╭"@
    } else if bi == group_len - 1 {
        "╰"@
    } else {
        "│"@
    }
}

/// The characters of `s` after the first `n`; none when it has fewer.
pub open spec fn skip_chars(s: Seq<char>, n: int) -> Seq<char> {
    if 0 <= n <= s.len() {
        s.skip(n)
    } else {
        Seq::empty()
    }
}

/// The action text of binding `i`: the first of a run, or any binding of a
/// run without a shared prefix, shows its label cut to `action_col`; the
/// others show the shared prefix as spaces, then the rest of their label.
pub open spec fn action_display(bs: Seq<BindingView>, i: int, action_col: int) -> Seq<char> {
    let s = run_start(bs, i);
    let e = run_end(bs, i);
    let prefix = group_prefix(bs, s, e);
    if i == s || prefix.len() == 0 {
        truncated(bs[i].action, action_col as nat)
    } else {
        repeat(" "@, prefix.len()) + skip_chars(bs[i].action, prefix.len() as int)
    }
}

/// The line of binding `i`: bracket, action, then the key label in colour,
/// padded so that the key labels end at `content_width`.
pub open spec fn binding_text(
    bs: Seq<BindingView>,
    i: int,
    palette: Palette,
    is_current: bool,
    content_width: int,
    action_col: int,
) -> Seq<char> {
    let s = run_start(bs, i);
    let e = run_end(bs, i);
    let ad = action_display(bs, i, action_col);
    let gap = sat_sub(content_width, (ad.len() + bs[i].key.len()) as int);
    color_code(palette.blue) + bracket(i - s, e - s) + RESET@ + " "@ + color_code(palette.fg) + ad
        + RESET@ + repeat(" "@, gap as nat) + colored_key(bs[i].key, palette, is_current)
}

/// The lines of one section: none while searching when no binding matches;
/// else the header, and unless the section is folded, its (matching)
/// bindings and a blank line.
pub open spec fn section_lines(sec: SectionView, l: Layout) -> Seq<(Seq<char>, LineType)> {
    let shown = if l.searching {
        matching(sec.bindings, l.query)
    } else {
        sec.bindings
    };
    if l.searching && shown.len() == 0 {
        Seq::empty()
    } else {
        let is_current = sec.mode == l.current;
        let is_collapsed = l.collapsed[mode_rank(sec.mode) as int] && !l.searching;
        let hw = sat_sub(l.cols, 2);
        let header = (
            header_text(sec.mode, is_current, is_collapsed, sec.bindings.len(), hw, l.palette),
            LineType::SectionHeader(sec.mode),
        );
        if is_collapsed {
            seq![header]
        } else {
            let available = sat_sub(l.cols, 5);
            let content_width = min_int(l.max_action + 4 + l.max_key, available);
            let action_col = min_int(l.max_action, sat_sub(available, l.max_key + 4));
            seq![header] + Seq::new(
                shown.len(),
                |i: int|
                    (
                        binding_text(shown, i, l.palette, is_current, content_width, action_col),
                        LineType::Binding,
                    ),
            ) + seq![(Seq::<char>::empty(), LineType::Empty)]
        }
    }
}

/// The sections whose mode is (when `keep`) or is not (when `!keep`) the
/// given mode, in order.
pub open spec fn sections_where(secs: Seq<SectionView>, m: Mode, keep: bool) -> Seq<SectionView>
    decreases secs.len(),
{
    if secs.len() == 0 {
        secs
    } else if (secs.last().mode == m) == keep {
        sections_where(secs.drop_last(), m, keep).push(secs.last())
    } else {
        sections_where(secs.drop_last(), m, keep)
    }
}

/// The sections in the order they are listed: the current mode's first.
pub open spec fn ordered(secs: Seq<SectionView>, current: Mode) -> Seq<SectionView> {
    sections_where(secs, current, true) + sections_where(secs, current, false)
}

/// The lines of the sections, one section after the other.
pub open spec fn layout_lines(secs: Seq<SectionView>, l: Layout) -> Seq<(Seq<char>, LineType)>
    decreases secs.len(),
{
    if secs.len() == 0 {
        Seq::empty()
    } else {
        layout_lines(secs.drop_last(), l) + section_lines(secs.last(), l)
    }
}

/// The positions of the section headers among the lines.
pub open spec fn layout_headers(secs: Seq<SectionView>, l: Layout) -> Seq<usize>
    decreases secs.len(),
{
    if secs.len() == 0 {
        Seq::empty()
    } else {
        let prev = layout_headers(secs.drop_last(), l);
        if section_lines(secs.last(), l).len() > 0 {
            prev.push(layout_lines(secs.drop_last(), l).len() as usize)
        } else {
            prev
        }
    }
}

/// The characters of `s`, with ASCII lower-case letters in upper case.
pub fn upper_ascii(s: &str) -> (r: String)
    ensures
        r@ == upper(s@),
{
    let v = chars_of(s);
    let mut r = String::new();
    let mut i: usize = 0;
    while i < v.len()
        invariant
            v@ == s@,
            i <= v.len(),
            r@ == upper(s@).take(i as int),
        decreases v.len() - i,
    {
        let c = v[i];
        if 'a' <= c && c <= 'z' {
            let u: u8 = (c as u8) - 32;
            assert(u as char == ascii_upper(c));
            push_char(&mut r, u as char);
        } else {
            push_char(&mut r, c);
        }
        i = i + 1;
        assert(r@ =~= upper(s@).take(i as int));
    }
    assert(upper(s@).take(v.len() as int) =~= upper(s@));
    r
}

/// `a - b`, or 0 when `b` is larger, for sums that may not fit a `usize`.
fn sat_sub_wide(a: usize, b: u128) -> (r: usize)
    ensures
        r == sat_sub(a as int, b as int),
{
    if (a as u128) > b {
        ((a as u128) - b) as usize
    } else {
        0
    }
}

/// The header line of a mode's section.
pub fn header_line(
    m: Mode,
    is_current: bool,
    is_collapsed: bool,
    count: usize,
    hw: usize,
    palette: &Palette,
) -> (r: String)
    ensures
        r@ == header_text(m, is_current, is_collapsed, count as nat, hw as int, *palette),
{
    let name = upper_ascii(format_mode(m).as_str());
    let name_len = name.as_str().unicode_len();
    let hc = if is_current {
        fg_color(&palette.green)
    } else {
        fg_color(&palette.fg)
    };
    if is_collapsed {
        let mut cs = owned("(");
        push_decimal(&mut cs, count as u64);
        cs.append(")");
        let cs_len = cs.as_str().unicode_len();
        let rule = sat_sub_wide(hw, name_len as u128 + cs_len as u128 + 7);
        let mut r = if is_current {
            owned(BOLD)
        } else {
            String::new()
        };
        r.append(hc.as_str());
        r.append("▸ ");
        r.append(mode_icon(m));
        r.append(" ");
        r.append(name.as_str());
        r.append(" ");
        r.append(RESET);
        r.append(DIM);
        r.append(" ");
        r.append(cs.as_str());
        r.append(" ");
        push_repeat(&mut r, "─", rule);
        r.append(RESET);
        r
    } else {
        let rule = sat_sub_wide(hw, name_len as u128 + 6);
        let mut r = owned(BOLD);
        r.append(hc.as_str());
        r.append("▾ ");
        r.append(mode_icon(m));
        r.append(" ");
        r.append(name.as_str());
        r.append(" ");
        push_repeat(&mut r, "─", rule);
        r.append(RESET);
        r
    }
}

/// The bindings whose action or key label, lower-cased, holds the query
/// (already lower-cased), in order.
pub fn matching_bindings(bs: &Vec<Binding>, query: &str) -> (r: Vec<Binding>)
    ensures
        binding_views(r@) == matching(binding_views(bs@), query@),
{
    let mut out: Vec<Binding> = Vec::new();
    let mut i: usize = 0;
    while i < bs.len()
        invariant
            i <= bs@.len(),
            binding_views(out@) == matching(binding_views(bs@).take(i as int), query@),
        decreases bs.len() - i,
    {
        let b = &bs[i];
        let la = to_lowercase(b.action_label.as_str());
        let lk = to_lowercase(b.key_label.as_str());
        let hit = contains_text(la.as_str(), query) || contains_text(lk.as_str(), query);
        proof {
            let t = binding_views(bs@).take(i + 1);
            assert(t.drop_last() =~= binding_views(bs@).take(i as int));
            assert(t.last() == b@);
        }
        if hit {
            let c = b.copy();
            let ghost old_out = out@;
            out.push(c);
            assert(binding_views(out@) =~= binding_views(old_out).push(c@));
        }
        i = i + 1;
    }
    assert(binding_views(bs@).take(bs@.len() as int) =~= binding_views(bs@));
    out
}

/// `lcp_from` counts no more than the first label's characters.
proof fn lemma_lcp_bound(a: Seq<char>, b: Seq<char>, k: int)
    requires
        0 <= k <= a.len(),
    ensures
        k <= lcp_from(a, b, k) <= a.len(),
    decreases a.len() - k,
{
    if k < a.len() && k < b.len() && a[k] == b[k] {
        lemma_lcp_bound(a, b, k + 1);
    }
}

/// `prefix_len` lies between 0 and the first label's length.
proof fn lemma_prefix_len_bound(bs: Seq<BindingView>, s: int, j: int)
    requires
        0 <= s < bs.len(),
    ensures
        0 <= prefix_len(bs, s, j) <= bs[s].action.len(),
    decreases j - s,
{
    if j > s + 1 {
        lemma_prefix_len_bound(bs, s, j - 1);
        lemma_lcp_bound(bs[s].action, bs[j - 1].action, 0);
    }
}

/// The length of the common prefix of two label character lists.
fn common_prefix_len(a: &Vec<char>, b: &Vec<char>) -> (r: usize)
    ensures
        r == lcp_from(a@, b@, 0),
{
    let mut k: usize = 0;
    while k < a.len() && k < b.len() && a[k] == b[k]
        invariant
            k <= a@.len(),
            lcp_from(a@, b@, 0) == lcp_from(a@, b@, k as int),
        decreases a.len() - k,
    {
        k = k + 1;
    }
    k
}

/// The prefix shared by the action labels of the run `[s, e)`.
pub fn group_prefix_of(bs: &Vec<Binding>, s: usize, e: usize) -> (r: String)
    requires
        s < e <= bs@.len(),
    ensures
        r@ == group_prefix(binding_views(bs@), s as int, e as int),
{
    let ghost v = binding_views(bs@);
    if e - s <= 1 {
        return String::new();
    }
    let first = chars_of(bs[s].action_label.as_str());
    assert(v[s as int].action == first@);
    let mut plen = first.len();
    let mut j = s + 1;
    while j < e
        invariant
            s < j <= e <= bs@.len(),
            v == binding_views(bs@),
            first@ == v[s as int].action,
            plen == prefix_len(v, s as int, j as int),
        decreases e - j,
    {
        let other = chars_of(bs[j].action_label.as_str());
        assert(v[j as int].action == other@);
        let m = common_prefix_len(&first, &other);
        if m < plen {
            plen = m;
        }
        j = j + 1;
    }
    proof {
        lemma_prefix_len_bound(v, s as int, e as int);
    }
    let ghost p = v[s as int].action.take(plen as int);
    let mut k: usize = plen;
    while k > 0 && first[k - 1] != ' '
        invariant
            k <= plen <= first@.len(),
            p == first@.take(plen as int),
            last_space(p, plen - 1) == last_space(p, k - 1),
        decreases k,
    {
        k = k - 1;
    }
    if k > 1 {
        let r = string_of_range(&first, 0, k);
        assert(r@ =~= p.take(k as int));
        r
    } else {
        String::new()
    }
}

proof fn lemma_run_start(bs: Seq<BindingView>, s: int, j: int)
    requires
        0 <= s <= j < bs.len(),
        s == 0 || bs[s - 1].category != bs[s].category,
        forall|t: int| s <= t <= j ==> #[trigger] bs[t].category == bs[s].category,
    ensures
        run_start(bs, j) == s,
    decreases j - s,
{
    if j > s {
        lemma_run_start(bs, s, j - 1);
    }
}

proof fn lemma_run_end(bs: Seq<BindingView>, s: int, e: int, j: int)
    requires
        0 <= s <= j < e <= bs.len(),
        e == bs.len() || bs[e].category != bs[s].category,
        forall|t: int| s <= t < e ==> #[trigger] bs[t].category == bs[s].category,
    ensures
        run_end(bs, j) == e,
    decreases e - j,
{
    if j + 1 < e {
        lemma_run_end(bs, s, e, j + 1);
    }
}

/// The line of binding `j` of the run `[s, e)`, whose shared prefix is
/// `prefix`.
fn binding_line(
    bs: &Vec<Binding>,
    j: usize,
    s: usize,
    e: usize,
    prefix_chars: usize,
    palette: &Palette,
    is_current: bool,
    content_width: usize,
    action_col: usize,
) -> (r: String)
    requires
        s <= j < e <= bs@.len(),
        run_start(binding_views(bs@), j as int) == s,
        run_end(binding_views(bs@), j as int) == e,
        prefix_chars == group_prefix(binding_views(bs@), s as int, e as int).len(),
    ensures
        r@ == binding_text(
            binding_views(bs@),
            j as int,
            *palette,
            is_current,
            content_width as int,
            action_col as int,
        ),
{
    let ghost v = binding_views(bs@);
    let b = &bs[j];
    assert(v[j as int] == b@);
    let bracket_str: &str = if e - s == 1 {
        "─"
    } else if j == s {
        "╭"
    } else if j - s == e - s - 1 {
        "╰"
    } else {
        "│"
    };
    let action = if j == s || prefix_chars == 0 {
        truncate(b.action_label.as_str(), action_col)
    } else {
        let mut a = String::new();
        push_repeat(&mut a, " ", prefix_chars);
        let chars = chars_of(b.action_label.as_str());
        if prefix_chars <= chars.len() {
            let rest = string_of_range(&chars, prefix_chars, chars.len());
            assert(rest@ =~= b.action_label@.skip(prefix_chars as int));
            a.append(rest.as_str());
        }
        a
    };
    assert(action@ == action_display(v, j as int, action_col as int));
    let action_len = action.as_str().unicode_len();
    let key_len = b.key_label.as_str().unicode_len();
    let gap = sat_sub_wide(content_width, action_len as u128 + key_len as u128);
    let colored = color_key_label(b.key_label.as_str(), palette, is_current);
    let mut r = fg_color(&palette.blue);
    r.append(bracket_str);
    r.append(RESET);
    r.append(" ");
    let fg = fg_color(&palette.fg);
    r.append(fg.as_str());
    r.append(action.as_str());
    r.append(RESET);
    push_repeat(&mut r, " ", gap);
    r.append(colored.as_str());
    r
}

/// Appends the lines of the bindings, grouped in runs of one category.
fn push_binding_lines(
    bs: &Vec<Binding>,
    palette: &Palette,
    is_current: bool,
    content_width: usize,
    action_col: usize,
    lines: &mut Vec<RenderLine>,
)
    ensures
        line_views(final(lines)@) == line_views(old(lines)@) + Seq::new(
            bs@.len(),
            |i: int|
                (
                    binding_text(
                        binding_views(bs@),
                        i,
                        *palette,
                        is_current,
                        content_width as int,
                        action_col as int,
                    ),
                    LineType::Binding,
                ),
        ),
{
    let ghost v = binding_views(bs@);
    let ghost want = Seq::new(
        bs@.len(),
        |i: int|
            (
                binding_text(v, i, *palette, is_current, content_width as int, action_col as int),
                LineType::Binding,
            ),
    );
    let n = bs.len();
    let mut i: usize = 0;
    while i < n
        invariant
            n == bs@.len(),
            v == binding_views(bs@),
            i <= n,
            i == 0 || v[i - 1].category != v[i as int].category || i == n,
            want == Seq::new(
                bs@.len(),
                |i: int|
                    (
                        binding_text(v, i, *palette, is_current, content_width as int, action_col as int),
                        LineType::Binding,
                    ),
            ),
            line_views(lines@) == line_views(old(lines)@) + want.take(i as int),
        decreases n - i,
    {
        let s = i;
        let cat = bs[s].category;
        assert(v[s as int].category == cat);
        let mut e = s + 1;
        while e < n && bs[e].category == cat
            invariant
                n == bs@.len(),
                v == binding_views(bs@),
                s < e <= n,
                v[s as int].category == cat,
                forall|t: int| s <= t < e ==> #[trigger] v[t].category == cat,
            decreases n - e,
        {
            assert(v[e as int].category == bs@[e as int].category);
            e = e + 1;
        }
        assert(e == n || v[e as int].category != cat) by {
            if e < n {
                assert(v[e as int].category == bs@[e as int].category);
            }
        }
        let prefix = group_prefix_of(bs, s, e);
        let prefix_chars = prefix.as_str().unicode_len();
        let mut j = s;
        while j < e
            invariant
                n == bs@.len(),
                v == binding_views(bs@),
                s <= j <= e <= n,
                s == 0 || v[s - 1].category != v[s as int].category,
                e == n || v[e as int].category != v[s as int].category,
                forall|t: int| s <= t < e ==> #[trigger] v[t].category == v[s as int].category,
                prefix_chars == group_prefix(v, s as int, e as int).len(),
                want == Seq::new(
                    bs@.len(),
                    |i: int|
                        (
                            binding_text(v, i, *palette, is_current, content_width as int, action_col as int),
                            LineType::Binding,
                        ),
                ),
                line_views(lines@) == line_views(old(lines)@) + want.take(j as int),
            decreases e - j,
        {
            proof {
                lemma_run_start(v, s as int, j as int);
                lemma_run_end(v, s as int, e as int, j as int);
            }
            let text = binding_line(
                bs,
                j,
                s,
                e,
                prefix_chars,
                palette,
                is_current,
                content_width,
                action_col,
            );
            let line = RenderLine { text, line_type: LineType::Binding };
            proof {
                lemma_line_views_push(lines@, line);
                assert(want.take(j + 1) =~= want.take(j as int).push(want[j as int]));
            }
            lines.push(line);
            j = j + 1;
        }
        i = e;
    }
    assert(want.take(n as int) =~= want);
}

/// The layout parameters as plain values.
pub open spec fn layout_of(
    palette: Palette,
    current: Mode,
    collapsed: Seq<bool>,
    searching: bool,
    query: Seq<char>,
    cols: usize,
    max_action: usize,
    max_key: usize,
) -> Layout {
    Layout {
        palette,
        current,
        collapsed,
        searching,
        query,
        cols: cols as int,
        max_action: max_action as int,
        max_key: max_key as int,
    }
}

/// Appends the lines of one section.
pub fn push_section_lines(
    sec: &Section,
    palette: &Palette,
    current: Mode,
    collapsed: &Vec<bool>,
    searching: bool,
    query: &str,
    cols: usize,
    max_action: usize,
    max_key: usize,
    lines: &mut Vec<RenderLine>,
)
    requires
        collapsed@.len() == MODE_COUNT,
    ensures
        line_views(final(lines)@) == line_views(old(lines)@) + section_lines(
            sec@,
            layout_of(
                *palette,
                current,
                collapsed@,
                searching,
                query@,
                cols,
                max_action,
                max_key,
            ),
        ),
{
    let ghost l = layout_of(*palette, current, collapsed@, searching, query@, cols, max_action, max_key);
    let shown = if searching {
        matching_bindings(&sec.bindings, query)
    } else {
        let mut all: Vec<Binding> = Vec::new();
        let mut i: usize = 0;
        while i < sec.bindings.len()
            invariant
                i <= sec.bindings@.len(),
                binding_views(all@) == binding_views(sec.bindings@).take(i as int),
            decreases sec.bindings.len() - i,
        {
            let c = sec.bindings[i].copy();
            proof {
                lemma_binding_views_push(all@, c);
                assert(binding_views(sec.bindings@).take(i + 1) =~= binding_views(sec.bindings@).take(
                    i as int,
                ).push(binding_views(sec.bindings@)[i as int]));
            }
            all.push(c);
            i = i + 1;
        }
        assert(binding_views(sec.bindings@).take(sec.bindings@.len() as int) =~= binding_views(
            sec.bindings@,
        ));
        all
    };
    assert(binding_views(shown@) == (if l.searching {
        matching(sec@.bindings, l.query)
    } else {
        sec@.bindings
    }));
    if searching && shown.len() == 0 {
        assert(line_views(lines@) =~= line_views(old(lines)@) + Seq::empty());
        return;
    }
    let is_current = sec.mode == current;
    let is_collapsed = collapsed[sec.mode.rank()] && !searching;
    let hw: usize = if cols > 2 { cols - 2 } else { 0 };
    let header = header_line(sec.mode, is_current, is_collapsed, sec.bindings.len(), hw, palette);
    let hl = RenderLine { text: header, line_type: LineType::SectionHeader(sec.mode) };
    proof {
        lemma_line_views_push(lines@, hl);
    }
    lines.push(hl);
    if is_collapsed {
        return;
    }
    let available: usize = if cols > 5 { cols - 5 } else { 0 };
    let wide = max_action as u128 + 4 + max_key as u128;
    let content_width: usize = if wide < available as u128 { wide as usize } else { available };
    let action_col_cap = sat_sub_wide(available, max_key as u128 + 4);
    let action_col: usize = if max_action < action_col_cap { max_action } else { action_col_cap };
    push_binding_lines(&shown, palette, is_current, content_width, action_col, lines);
    let blank = RenderLine { text: String::new(), line_type: LineType::Empty };
    proof {
        lemma_line_views_push(lines@, blank);
    }
    lines.push(blank);
}

} // verus!
