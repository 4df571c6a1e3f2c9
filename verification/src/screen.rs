//! What the panel prints: the help view, or the list with its search bar,
//! cursor and footer.

use vstd::prelude::*;
use vstd::string::*;
use crate::labels::{color_code, fg_color, legend, modifier_legend, BOLD, DIM, RESET};
use crate::layout::{line_views, sat_sub, LineType};
use crate::model::{ModifierStyle, Palette};
use crate::panel::{current_header, keeps_model, relaid, scrolled, snap_down, PluginMode, State};
use crate::text::{
    decimal, join, join_strings, lemma_views_push, owned, push_decimal, push_repeat, repeat,
    split_char, split_on_char, views,
};

verus! {

/// The widest the list is drawn.
pub const MAX_WIDTH: usize = 55;

/// Text in the palette's blue.
pub open spec fn in_blue(p: Palette, s: Seq<char>) -> Seq<char> {
    color_code(p.blue) + s + RESET@
}

/// Text dimmed.
pub open spec fn dimmed(s: Seq<char>) -> Seq<char> {
    DIM@ + s + RESET@
}

/// Keys separated by "/", each in blue.
pub open spec fn slash_keys(p: Palette, s: Seq<char>) -> Seq<char> {
    join(split_char(s, '/').map_values(|k: Seq<char>| in_blue(p, k)), "/"@)
}

/// A heading of the help view.
pub open spec fn help_heading(pad: Seq<char>, s: Seq<char>) -> Seq<char> {
    pad + "  "@ + BOLD@ + s + RESET@
}

/// A row of the help view: keys that take `vis` columns on screen, then
/// their description from column `col` (one space after them at least).
pub open spec fn help_row(pad: Seq<char>, colored: Seq<char>, vis: int, col: int, desc: Seq<char>) -> Seq<char> {
    pad + "    "@ + colored + repeat(" "@, (if vis < col { col - vis } else { 1 }) as nat) + desc
}

/// The lines of the help view.
pub open spec fn help_lines(p: Palette, style: ModifierStyle, pad: Seq<char>) -> Seq<Seq<char>> {
    let nav1 = slash_keys(p, "j/k"@) + " "@ + dimmed("or"@) + " "@ + slash_keys(p, "↑/↓"@);
    let nav2 = slash_keys(p, "Ctrl+d/u"@) + " "@ + dimmed("or"@) + " "@ + slash_keys(p, "PgDn/Up"@);
    let sec1 = in_blue(p, "Tab"@) + "/"@ + in_blue(p, "Shift+Tab"@);
    let sec2 = slash_keys(p, "l/h"@) + " "@ + dimmed("or"@) + " "@ + slash_keys(p, "→/←"@);
    let base = seq![
        help_heading(pad, "Navigation"@),
        help_row(pad, nav1, 10, 22, "scroll up/down"@),
        help_row(pad, nav2, 19, 22, "half page"@),
        help_row(pad, slash_keys(p, "g/G"@), 3, 22, "top/bottom"@),
        Seq::empty(),
        help_heading(pad, "Sections"@),
        help_row(pad, sec1, 13, 16, "next/prev"@),
        help_row(pad, sec2, 10, 16, "expand/collapse"@),
        help_row(pad, slash_keys(p, "e/c"@), 3, 16, "expand/collapse all"@),
        Seq::empty(),
        help_heading(pad, "Search & Exit"@),
        help_row(pad, in_blue(p, "?"@), 1, 5, "search"@),
        help_row(pad, in_blue(p, "Esc"@), 3, 5, "close / clear filter"@),
        help_row(pad, in_blue(p, "q"@), 1, 5, "quit"@),
    ];
    let lg = legend(style, p).0;
    if lg.len() > 0 {
        base + seq![Seq::empty(), help_heading(pad, "Modifier Symbols"@), pad + "  "@ + lg]
    } else {
        base
    }
}

/// Each line followed by a line break.
pub open spec fn as_lines(ls: Seq<Seq<char>>) -> Seq<char>
    decreases ls.len(),
{
    if ls.len() == 0 {
        Seq::empty()
    } else {
        as_lines(ls.drop_last()) + ls.last() + "\n"@
    }
}

/// The help view: its lines, blank lines down to the last row, and a hint
/// on the last row.
pub open spec fn help_text(p: Palette, style: ModifierStyle, pad: Seq<char>, rows: int) -> Seq<char> {
    let ls = help_lines(p, style, pad);
    as_lines(ls) + repeat("\n"@, (if rows - 1 > ls.len() { rows - 1 - ls.len() } else { 0 }) as nat)
        + pad + "  "@ + DIM@ + "Press any key to close"@ + RESET@
}

/// Keys separated by "/", each in blue.
fn blue_slash_keys(p: &Palette, s: &str) -> (r: String)
    ensures
        r@ == slash_keys(*p, s@),
{
    let pieces = split_on_char(s, '/');
    let ghost want = split_char(s@, '/').map_values(|k: Seq<char>| in_blue(*p, k));
    let blue = fg_color(&p.blue);
    let mut colored: Vec<String> = Vec::new();
    let mut i: usize = 0;
    while i < pieces.len()
        invariant
            i <= pieces.len(),
            views(pieces@) == split_char(s@, '/'),
            blue@ == color_code(p.blue),
            want == split_char(s@, '/').map_values(|k: Seq<char>| in_blue(*p, k)),
            views(colored@) == want.take(i as int),
        decreases pieces.len() - i,
    {
        let mut c = blue.clone();
        c.append(pieces[i].as_str());
        c.append(RESET);
        proof {
            lemma_views_push(colored@, c);
        }
        colored.push(c);
        assert(views(pieces@)[i as int] == pieces@[i as int]@);
        assert(want[i as int] == in_blue(*p, pieces@[i as int]@));
        i = i + 1;
        assert(views(colored@) =~= want.take(i as int));
    }
    assert(want.take(pieces.len() as int) =~= want);
    join_strings(&colored, "/")
}

fn rule_text(p: &Palette, pad: &str, effective: usize) -> (r: String)
    ensures
        r@ == rule_line(*p, pad@, effective as int),
{
    let mut r = owned(pad);
    r.append(fg_color(&p.gray).as_str());
    push_repeat(&mut r, "─", effective);
    r.append(RESET);
    r.append("\n");
    r
}

fn blue_text(p: &Palette, s: &str) -> (r: String)
    ensures
        r@ == in_blue(*p, s@),
{
    let mut r = fg_color(&p.blue);
    r.append(s);
    r.append(RESET);
    r
}

fn dim_text(s: &str) -> (r: String)
    ensures
        r@ == dimmed(s@),
{
    let mut r = owned(DIM);
    r.append(s);
    r.append(RESET);
    r
}

fn heading(pad: &str, s: &str) -> (r: String)
    ensures
        r@ == help_heading(pad@, s@),
{
    let mut r = owned(pad);
    r.append("  ");
    r.append(BOLD);
    r.append(s);
    r.append(RESET);
    r
}

fn row(pad: &str, colored: &String, vis: usize, col: usize, desc: &str) -> (r: String)
    ensures
        r@ == help_row(pad@, colored@, vis as int, col as int, desc@),
{
    let gap: usize = if vis < col { col - vis } else { 1 };
    let mut r = owned(pad);
    r.append("    ");
    r.append(colored.as_str());
    push_repeat(&mut r, " ", gap);
    r.append(desc);
    r
}

fn either_or(a: String, b: String) -> (r: String)
    ensures
        r@ == a@ + " "@ + dimmed("or"@) + " "@ + b@,
{
    let mut r = a;
    r.append(" ");
    let d = dim_text("or");
    r.append(d.as_str());
    r.append(" ");
    r.append(b.as_str());
    r
}

fn push_line(v: &mut Vec<String>, s: String)
    ensures
        views(final(v)@) == views(old(v)@).push(s@),
{
    proof {
        lemma_views_push(v@, s);
    }
    v.push(s);
}

/// The lines of the help view.
fn help_view_lines(p: &Palette, style: &ModifierStyle, pad: &str) -> (r: Vec<String>)
    ensures
        views(r@) == help_lines(*p, *style, pad@),
{
    let mut v: Vec<String> = Vec::new();
    let nav1 = either_or(blue_slash_keys(p, "j/k"), blue_slash_keys(p, "↑/↓"));
    let nav2 = either_or(blue_slash_keys(p, "Ctrl+d/u"), blue_slash_keys(p, "PgDn/Up"));
    push_line(&mut v, heading(pad, "Navigation"));
    push_line(&mut v, row(pad, &nav1, 10, 22, "scroll up/down"));
    push_line(&mut v, row(pad, &nav2, 19, 22, "half page"));
    push_line(&mut v, row(pad, &blue_slash_keys(p, "g/G"), 3, 22, "top/bottom"));
    push_line(&mut v, String::new());
    let mut sec1 = blue_text(p, "Tab");
    sec1.append("/");
    let st = blue_text(p, "Shift+Tab");
    sec1.append(st.as_str());
    let sec2 = either_or(blue_slash_keys(p, "l/h"), blue_slash_keys(p, "→/←"));
    push_line(&mut v, heading(pad, "Sections"));
    push_line(&mut v, row(pad, &sec1, 13, 16, "next/prev"));
    push_line(&mut v, row(pad, &sec2, 10, 16, "expand/collapse"));
    push_line(&mut v, row(pad, &blue_slash_keys(p, "e/c"), 3, 16, "expand/collapse all"));
    push_line(&mut v, String::new());
    push_line(&mut v, heading(pad, "Search & Exit"));
    push_line(&mut v, row(pad, &blue_text(p, "?"), 1, 5, "search"));
    push_line(&mut v, row(pad, &blue_text(p, "Esc"), 3, 5, "close / clear filter"));
    push_line(&mut v, row(pad, &blue_text(p, "q"), 1, 5, "quit"));
    let (lg, _) = modifier_legend(style, p);
    if !lg.as_str().is_empty() {
        push_line(&mut v, String::new());
        push_line(&mut v, heading(pad, "Modifier Symbols"));
        let mut l = owned(pad);
        l.append("  ");
        l.append(lg.as_str());
        push_line(&mut v, l);
    }
    assert(views(v@) =~= help_lines(*p, *style, pad@));
    v
}

/// Appends each line and a line break after it.
fn push_lines(out: &mut String, ls: &Vec<String>)
    ensures
        final(out)@ == old(out)@ + as_lines(views(ls@)),
{
    let mut i: usize = 0;
    while i < ls.len()
        invariant
            i <= ls.len(),
            out@ == old(out)@ + as_lines(views(ls@).take(i as int)),
        decreases ls.len() - i,
    {
        assert(views(ls@).take(i + 1).drop_last() =~= views(ls@).take(i as int));
        assert(views(ls@)[i as int] == ls@[i as int]@);
        out.append(ls[i].as_str());
        out.append("\n");
        i = i + 1;
    }
    assert(views(ls@).take(ls.len() as int) =~= views(ls@));
}

/// The help view.
pub fn help_view(p: &Palette, style: &ModifierStyle, pad: &str, rows: usize) -> (r: String)
    ensures
        r@ == help_text(*p, *style, pad@, rows as int),
{
    let ls = help_view_lines(p, style, pad);
    let mut out = String::new();
    push_lines(&mut out, &ls);
    let n = ls.len();
    let last_row: usize = if rows > 0 { rows - 1 } else { 0 };
    let fill: usize = if last_row > n { last_row - n } else { 0 };
    push_repeat(&mut out, "\n", fill);
    out.append(pad);
    out.append("  ");
    out.append(DIM);
    out.append("Press any key to close");
    out.append(RESET);
    assert(out@ =~= help_text(*p, *style, pad@, rows as int));
    out
}

/// The number of binding lines.
pub open spec fn binding_line_count(kinds: Seq<LineType>) -> nat
    decreases kinds.len(),
{
    if kinds.len() == 0 {
        0
    } else {
        binding_line_count(kinds.drop_last()) + if kinds.last() == LineType::Binding {
            1nat
        } else {
            0nat
        }
    }
}

/// What precedes line `i` on screen: the cursor mark when the cursor is on
/// that line, the line can hold it and the list is being browsed; else
/// blank space.
pub open spec fn gutter(s: &State, i: int, pad: Seq<char>) -> Seq<char> {
    if i == s.cursor && s.plugin_mode == PluginMode::Browse && s.selectable(i) {
        pad + BOLD@ + color_code(s.palette->0.green) + "❯"@ + RESET@ + " "@
    } else {
        pad + "  "@
    }
}

/// Lines `[from, to)` on screen, each after its gutter.
pub open spec fn body(s: &State, pad: Seq<char>, from: int, to: int) -> Seq<char>
    decreases to - from,
{
    if to <= from {
        Seq::empty()
    } else {
        body(s, pad, from, to - 1) + gutter(s, to - 1, pad) + s.lines@[to - 1].text@ + "\n"@
    }
}

/// A rule across the list.
pub open spec fn rule_line(p: Palette, pad: Seq<char>, effective: int) -> Seq<char> {
    pad + color_code(p.gray) + repeat("─"@, effective as nat) + RESET@ + "\n"@
}

/// The footer: the keys of the search bar while searching, else the help
/// key and the modifier legend at the right.
pub open spec fn footer(s: &State, pad: Seq<char>, effective: int) -> Seq<char> {
    let p = s.palette->0;
    if s.plugin_mode == PluginMode::Search {
        pad + " "@ + in_blue(p, "↑↓"@) + " navigate  "@ + in_blue(p, "↵"@) + " confirm  "@ + in_blue(
            p,
            "Esc"@,
        ) + " cancel"@
    } else {
        let lg = legend(s.modifier_style, p);
        pad + " "@ + in_blue(p, "F1"@) + " help"@ + repeat(
            " "@,
            sat_sub(effective, (7 + lg.1 + 2) as int) as nat,
        ) + lg.0
    }
}

/// The rows of list content that fit below the search bar, if shown, and
/// above the footer.
pub open spec fn content_rows(s: &State, rows: int) -> int {
    sat_sub(rows, if s.plugin_mode == PluginMode::Search { 4 } else { 2 })
}

/// The search bar: the query and the number of matching bindings, and a
/// rule under it.
pub open spec fn search_header(s: &State, pad: Seq<char>, effective: int) -> Seq<char> {
    let p = s.palette->0;
    pad + " "@ + color_code(p.yellow) + " Search: "@ + color_code(p.green) + s.search_query@ + RESET@
        + "  "@ + DIM@ + "("@ + decimal(binding_line_count(s.kinds())) + "/"@ + decimal(
        s.total_bindings as nat,
    ) + ")"@ + RESET@ + " "@ + "\n"@ + rule_line(p, pad, effective)
}

/// The list view: the search bar with the query and the number of
/// matching bindings while searching, the lines in the window with the
/// cursor mark, blank rows to the footer, a rule, and the footer.
pub open spec fn list_text(s: &State, pad: Seq<char>, effective: int, rows: int) -> Seq<char> {
    let p = s.palette->0;
    let header = if s.plugin_mode == PluginMode::Search {
        search_header(s, pad, effective)
    } else {
        Seq::empty()
    };
    let cr = content_rows(s, rows);
    let total = s.lines@.len() as int;
    let offset = s.scroll_offset as int;
    let end = if offset + cr < total { offset + cr } else { total };
    let shown = if sat_sub(total, offset) < cr { sat_sub(total, offset) } else { cr };
    header + body(s, pad, offset, end) + repeat("\n"@, (cr - shown) as nat) + rule_line(
        p,
        pad,
        effective,
    ) + footer(s, pad, effective)
}

/// Whether `b` is `a` with everything but its lines, header positions and
/// cursor kept.
pub open spec fn same_but_lines(a: &State, b: &State) -> bool {
    &&& keeps_model(a, b)
    &&& b.plugin_mode == a.plugin_mode
    &&& b.scroll_offset == a.scroll_offset
    &&& b.collapsed == a.collapsed
    &&& b.search_query == a.search_query
}

/// Whether `b` is `a` after the cursor and window jumped to the current
/// mode's header (see `jump_to_current_mode_section`) and the jump was
/// marked done.
pub open spec fn jumped(a: &State, b: &State) -> bool {
    &&& b.initial_jump_done
    &&& b.current_mode == a.current_mode
    &&& b.sections == a.sections
    &&& b.palette == a.palette
    &&& b.modifier_style == a.modifier_style
    &&& b.total_bindings == a.total_bindings
    &&& b.global_max_key == a.global_max_key
    &&& b.global_max_action == a.global_max_action
    &&& b.plugin_id == a.plugin_id
    &&& b.rows == a.rows
    &&& b.cols == a.cols
    &&& b.plugin_mode == a.plugin_mode
    &&& b.collapsed == a.collapsed
    &&& b.search_query == a.search_query
    &&& b.lines == a.lines
    &&& b.section_header_indices == a.section_header_indices
    &&& match current_header(a.section_header_indices@, a.kinds(), a.current_mode, 0) {
        Some(k) => b.cursor == a.section_header_indices@[k] && b.scroll_offset
            == a.section_header_indices@[k],
        None => b.cursor == snap_down(a.kinds(), 0) && b.scroll_offset == 0,
    }
}

/// Whether `b` is `a` with lines to show: kept when `a` has lines; else
/// laid out afresh, and the first time also jumped to the current mode.
pub open spec fn prepared(a: &State, b: &State) -> bool {
    if a.lines@.len() > 0 {
        *b == *a
    } else {
        exists|r: State|
            {
                &&& relaid(line_views(a.lines@), a.section_header_indices@, a.cursor, &r)
                &&& same_but_lines(a, &r)
                &&& if a.initial_jump_done {
                    *b == r
                } else {
                    jumped(&r, b)
                }
            }
    }
}

/// The width the list is drawn at in a pane `cols` wide.
pub open spec fn list_width(cols: usize) -> usize {
    if cols < MAX_WIDTH {
        cols
    } else {
        MAX_WIDTH
    }
}

/// The blank space that centres the list in a pane `cols` wide.
pub open spec fn left_pad(cols: usize) -> Seq<char> {
    repeat(" "@, ((cols - list_width(cols)) / 2) as nat)
}

/// `s` with the pane size taken.
pub open spec fn sized(s: State, rows: usize, cols: usize) -> State {
    State { rows: rows, cols: cols, ..s }
}

impl State {
    /// Lays out the lines when there are none, and the first time jumps to
    /// the current mode's section.
    pub fn prepare_lines(&mut self)
        requires
            old(self).wf(),
        ensures
            final(self).wf(),
            prepared(old(self), final(self)),
            final(self).palette == old(self).palette,
            final(self).modifier_style == old(self).modifier_style,
            final(self).plugin_mode == old(self).plugin_mode,
            final(self).sections == old(self).sections,
    {
        if self.lines.len() == 0 {
            self.rebuild_lines();
            let ghost r = *self;
            if !self.initial_jump_done {
                self.initial_jump_done = true;
                self.jump_to_current_mode_section();
                assert(jumped(&r, self));
            }
            assert(relaid(line_views(old(self).lines@), old(self).section_header_indices@, old(self).cursor, &r));
            assert(same_but_lines(old(self), &r));
        }
    }

    /// The number of binding lines.
    fn count_binding_lines(&self) -> (n: usize)
        ensures
            n == binding_line_count(self.kinds()),
    {
        let ghost k = self.kinds();
        let mut n: usize = 0;
        let mut i: usize = 0;
        while i < self.lines.len()
            invariant
                k == self.kinds(),
                i <= self.lines@.len(),
                n == binding_line_count(k.take(i as int)),
                n <= i,
            decreases self.lines.len() - i,
        {
            assert(k.take(i + 1).drop_last() =~= k.take(i as int));
            assert(k[i as int] == self.lines@[i as int].line_type);
            match self.lines[i].line_type {
                LineType::Binding => {
                    n = n + 1;
                },
                _ => {},
            }
            i = i + 1;
        }
        assert(k.take(k.len() as int) =~= k);
        n
    }

    /// The search bar: the query and the number of matching bindings, and
    /// a rule under it.
    fn search_bar(&self, pad: &str, effective: usize) -> (out: String)
        requires
            self.palette is Some,
        ensures
            out@ == search_header(self, pad@, effective as int),
    {
        let p = self.palette.unwrap();
        let matches = self.count_binding_lines();
        let mut out = owned(pad);
        out.append(" ");
        out.append(fg_color(&p.yellow).as_str());
        out.append(" Search: ");
        out.append(fg_color(&p.green).as_str());
        out.append(self.search_query.as_str());
        out.append(RESET);
        out.append("  ");
        out.append(DIM);
        out.append("(");
        push_decimal(&mut out, matches as u64);
        out.append("/");
        push_decimal(&mut out, self.total_bindings as u64);
        out.append(")");
        out.append(RESET);
        out.append(" ");
        out.append("\n");
        let rule = rule_text(&p, pad, effective);
        out.append(rule.as_str());
        out
    }

    /// Lines `[from, to)` on screen, each after its gutter.
    fn list_body(&self, pad: &str, from: usize, to: usize) -> (out: String)
        requires
            self.wf(),
            self.palette is Some,
            from <= to <= self.lines@.len(),
        ensures
            out@ == body(self, pad@, from as int, to as int),
    {
        let p = self.palette.unwrap();
        let mut out = String::new();
        let mut i = from;
        while i < to
            invariant
                from <= i <= to,
                to <= self.lines@.len(),
                self.palette == Some(p),
                out@ == body(self, pad@, from as int, i as int),
            decreases to - i,
        {
            let is_cursor = i == self.cursor && self.plugin_mode == PluginMode::Browse
                && self.is_selectable(i);
            if is_cursor {
                out.append(pad);
                out.append(BOLD);
                out.append(fg_color(&p.green).as_str());
                out.append("❯");
                out.append(RESET);
                out.append(" ");
            } else {
                out.append(pad);
                out.append("  ");
            }
            out.append(self.lines[i].text.as_str());
            out.append("\n");
            i = i + 1;
        }
        out
    }

    /// The footer.
    fn footer_text(&self, pad: &str, effective: usize) -> (out: String)
        requires
            self.palette is Some,
        ensures
            out@ == footer(self, pad@, effective as int),
    {
        let p = self.palette.unwrap();
        let mut out = owned(pad);
        out.append(" ");
        if self.plugin_mode == PluginMode::Search {
            out.append(blue_text(&p, "↑↓").as_str());
            out.append(" navigate  ");
            out.append(blue_text(&p, "↵").as_str());
            out.append(" confirm  ");
            out.append(blue_text(&p, "Esc").as_str());
            out.append(" cancel");
        } else {
            let (lg, lg_len) = modifier_legend(&self.modifier_style, &p);
            let gap: usize = if effective > 9 + lg_len { effective - (9 + lg_len) } else { 0 };
            out.append(blue_text(&p, "F1").as_str());
            out.append(" help");
            push_repeat(&mut out, " ", gap);
            out.append(lg.as_str());
        }
        out
    }

    /// Moves the window to keep the cursor in view and draws the list.
    pub fn list_view(&mut self, pad: &str, effective: usize, rows: usize) -> (out: String)
        requires
            old(self).wf(),
            old(self).palette is Some,
        ensures
            final(self).wf(),
            *final(self) == (State {
                scroll_offset: scrolled(
                    old(self).scroll_offset as int,
                    old(self).cursor as int,
                    old(self).lines@.len() as int,
                    content_rows(old(self), rows as int),
                ) as usize,
                ..*old(self)
            }),
            out@ == list_text(final(self), pad@, effective as int, rows as int),
    {
        let p = self.palette.unwrap();
        let search = self.plugin_mode == PluginMode::Search;
        let mut out = if search {
            self.search_bar(pad, effective)
        } else {
            String::new()
        };
        let header_rows: usize = if search { 2 } else { 0 };
        let cr: usize = if rows > header_rows + 2 { rows - (header_rows + 2) } else { 0 };
        let total = self.lines.len();
        self.adjust_scroll(cr);
        let offset = self.scroll_offset;
        let (end, rendered) = if offset >= total {
            (offset, 0)
        } else if cr < total - offset {
            (offset + cr, cr)
        } else {
            (total, total - offset)
        };
        let b = if offset >= total {
            String::new()
        } else {
            self.list_body(pad, offset, end)
        };
        out.append(b.as_str());
        push_repeat(&mut out, "\n", cr - rendered);
        let rule = rule_text(&p, pad, effective);
        out.append(rule.as_str());
        let f = self.footer_text(pad, effective);
        out.append(f.as_str());
        proof {
            if offset >= total {
                assert(body(self, pad@, offset as int, total as int) == Seq::<char>::empty());
            }
        }
        assert(out@ =~= list_text(self, pad@, effective as int, rows as int));
        out
    }

    /// Draws the panel for a pane of `rows` by `cols`: nothing before the
    /// keymap and palette are known or when the pane is too small (under 30
    /// columns of list, or 6 rows); else the help view or the list, centred
    /// in a list at most 55 columns wide.
    pub fn render(&mut self, rows: usize, cols: usize) -> (out: String)
        requires
            old(self).wf(),
        ensures
            final(self).wf(),
            if !(old(self).palette is Some && old(self).sections@.len() > 0) {
                out@.len() == 0 && *final(self) == sized(*old(self), rows, old(self).cols)
            } else if list_width(cols) < 30 || rows < 6 {
                out@.len() == 0 && *final(self) == sized(*old(self), rows, list_width(cols))
            } else {
                exists|mid: State|
                    #![trigger prepared(&sized(*old(self), rows, list_width(cols)), &mid)]
                    {
                            &&& prepared(&sized(*old(self), rows, list_width(cols)), &mid)
                            &&& if mid.plugin_mode == PluginMode::Help {
                                *final(self) == mid && out@ == help_text(
                                    mid.palette->0,
                                    mid.modifier_style,
                                    left_pad(cols),
                                    rows as int,
                                )
                            } else {
                                &&& *final(self) == (State {
                                    scroll_offset: scrolled(
                                        mid.scroll_offset as int,
                                        mid.cursor as int,
                                        mid.lines@.len() as int,
                                        content_rows(&mid, rows as int),
                                    ) as usize,
                                    ..mid
                                })
                                &&& out@ == list_text(
                                    final(self),
                                    left_pad(cols),
                                    list_width(cols) as int,
                                    rows as int,
                                )
                            }
                        }
            },
    {
        self.rows = rows;
        if self.palette.is_none() || self.sections.len() == 0 {
            return String::new();
        }
        let p = self.palette.unwrap();
        let effective: usize = if cols < MAX_WIDTH { cols } else { MAX_WIDTH };
        self.cols = effective;
        let lpad = (cols - effective) / 2;
        let mut pad = String::new();
        push_repeat(&mut pad, " ", lpad);
        if effective < 30 || rows < 6 {
            return String::new();
        }
        let ghost start = *self;
        assert(start == sized(*old(self), rows, effective));
        assert(pad@ =~= repeat(" "@, ((cols - effective) / 2) as nat));
        self.prepare_lines();
        let ghost mid = *self;
        assert(prepared(&sized(*old(self), rows, effective), &mid));
        if self.plugin_mode == PluginMode::Help {
            let out = help_view(&p, &self.modifier_style, pad.as_str(), rows);
            assert(mid.palette->0 == p);
            assert(out@ == help_text(mid.palette->0, mid.modifier_style, pad@, rows as int));
            return out;
        }
        let out = self.list_view(pad.as_str(), effective, rows);
        out
    }
}

} // verus!
