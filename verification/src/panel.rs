//! The panel's state, and what it does on each event: moving the cursor,
//! folding sections, searching, and laying out the lines to show.

use vstd::prelude::*;
use vstd::string::*;
use zellij_tile::prelude::FloatingPaneCoordinates;
use crate::keymap::{
    lemma_sections_from_len, parse_sections, section_views, sections_of, BindingView, Keybinds,
    Section, SectionView,
};
use crate::host::{
    lemma_decimal_size, lemma_fifteen_percent, lemma_one_row, lemma_seventy_percent,
    pane_coordinates, rows_size, size_readable, size_value, PaneCoords, PaneSize,
};
use crate::layout::{
    layout_headers, layout_lines, layout_of, line_views, ordered, push_section_lines,
    sections_where, Layout, LineType, RenderLine,
};
use crate::text::{
    lowercase, same_text, owned, pop_char, push_char, push_decimal_wide, to_lowercase,
};
use crate::model::{
    keymap_ok, mode_rank, BareKey, MouseEvent, KeyCombo, Modifier, ModifierStyle, Mode, Palette, MODE_COUNT,
};
use crate::labels::has_modifier;

verus! {

/// What the panel is showing: the list, the list with a search bar, or the
/// help text.
#[derive(Clone, Copy, Debug, PartialEq, Eq, Structural)]
pub enum PluginMode {
    Browse,
    Search,
    Help,
}

/// Whether the cursor may rest on a line: headers and bindings, not blank
/// lines.
pub open spec fn selectable_kind(t: LineType) -> bool {
    t != LineType::Empty
}

/// The panel's state.
pub struct State {
    pub current_mode: Mode,
    pub sections: Vec<Section>,
    pub palette: Option<Palette>,
    pub modifier_style: ModifierStyle,
    pub total_bindings: usize,
    pub global_max_key: usize,
    pub global_max_action: usize,
    pub plugin_id: Option<u32>,
    pub plugin_mode: PluginMode,
    pub cursor: usize,
    pub scroll_offset: usize,
    /// For each mode, by its position in the host's order, whether its
    /// section is folded.
    pub collapsed: Vec<bool>,
    pub search_query: String,
    pub rows: usize,
    pub cols: usize,
    pub lines: Vec<RenderLine>,
    pub section_header_indices: Vec<usize>,
    pub initial_jump_done: bool,
}

impl State {
    /// The state's invariant: one fold flag per mode, at most one section
    /// per mode, and while lines are laid out the cursor and the header
    /// positions point into them.
    pub open spec fn wf(&self) -> bool {
        &&& self.collapsed@.len() == MODE_COUNT
        &&& self.sections@.len() <= MODE_COUNT
        &&& self.lines@.len() > 0 ==> self.cursor < self.lines@.len()
        &&& self.lines@.len() > 0 ==> forall|k: int|
            0 <= k < self.section_header_indices@.len() ==> #[trigger] self.section_header_indices@[k]
                < self.lines@.len()
    }

    /// Whether a mode's section is folded.
    pub open spec fn is_collapsed(&self, m: Mode) -> bool {
        self.collapsed@[mode_rank(m) as int]
    }

    /// The kinds of the laid-out lines.
    pub open spec fn kinds(&self) -> Seq<LineType> {
        self.lines@.map_values(|l: RenderLine| l.line_type)
    }

    /// Whether line `i` exists and the cursor may rest on it.
    pub open spec fn selectable(&self, i: int) -> bool {
        0 <= i < self.lines@.len() && selectable_kind(self.lines@[i].line_type)
    }
}

/// `c`, or the last line when `c` is past the `n` lines (none when there
/// are no lines).
pub open spec fn clamp(c: usize, n: nat) -> usize {
    if n > 0 && c >= n {
        (n - 1) as usize
    } else {
        c
    }
}

/// Whether `s` holds the lines laid out afresh, the header positions, and
/// the cursor kept within the lines, when the palette is known; else the
/// lines, header positions and cursor it had before.
pub open spec fn relaid(
    old_lines: Seq<(Seq<char>, LineType)>,
    old_headers: Seq<usize>,
    old_cursor: usize,
    s: &State,
) -> bool {
    if s.palette is None {
        &&& line_views(s.lines@) == old_lines
        &&& s.section_header_indices@ == old_headers
        &&& s.cursor == old_cursor
    } else {
        &&& line_views(s.lines@) == s.laid_out()
        &&& s.section_header_indices@ == s.laid_out_headers()
        &&& s.cursor == clamp(old_cursor, s.lines@.len())
    }
}

/// Where the cursor ends after moving down over up to `remaining`
/// selectable lines from `pos`, never past `max`.
pub open spec fn step_down(kinds: Seq<LineType>, pos: int, remaining: nat, max: int) -> int
    decreases max - pos,
{
    if remaining == 0 || pos >= max {
        pos
    } else {
        let p = pos + 1;
        let sel = 0 <= p < kinds.len() && selectable_kind(kinds[p]);
        step_down(kinds, p, if sel { (remaining - 1) as nat } else { remaining }, max)
    }
}

/// Where the cursor ends after moving up over up to `remaining` selectable
/// lines from `pos`, never past the first line.
pub open spec fn step_up(kinds: Seq<LineType>, pos: int, remaining: nat) -> int
    decreases pos,
{
    if remaining == 0 || pos <= 0 {
        pos
    } else {
        let p = pos - 1;
        let sel = 0 <= p < kinds.len() && selectable_kind(kinds[p]);
        step_up(kinds, p, if sel { (remaining - 1) as nat } else { remaining })
    }
}

/// The nearest selectable line at or above `c`; the first line when there
/// is none.
pub open spec fn snap_up(kinds: Seq<LineType>, c: int) -> int
    decreases c,
{
    if c <= 0 {
        c
    } else if c < kinds.len() && selectable_kind(kinds[c]) {
        c
    } else {
        snap_up(kinds, c - 1)
    }
}

/// The nearest selectable line at or below `c`; when there is none, the
/// nearest at or above the last line.
pub open spec fn snap_down(kinds: Seq<LineType>, c: int) -> int
    decreases kinds.len() - c,
{
    if c >= kinds.len() {
        if kinds.len() > 0 {
            snap_up(kinds, kinds.len() - 1)
        } else {
            c
        }
    } else if selectable_kind(kinds[c]) {
        c
    } else {
        snap_down(kinds, c + 1)
    }
}

impl State {
    /// Whether line `idx` exists and the cursor may rest on it.
    pub fn is_selectable(&self, idx: usize) -> (b: bool)
        ensures
            b == self.selectable(idx as int),
    {
        if idx < self.lines.len() {
            match self.lines[idx].line_type {
                LineType::Empty => false,
                _ => true,
            }
        } else {
            false
        }
    }

    /// Moves the cursor up to the nearest selectable line at or above it.
    pub fn snap_cursor_to_selectable_up(&mut self)
        requires
            old(self).wf(),
        ensures
            final(self).wf(),
            keeps_model(old(self), final(self)),
            final(self).search_query == old(self).search_query,
            final(self).plugin_mode == old(self).plugin_mode,
            final(self).cursor == snap_up(old(self).kinds(), old(self).cursor as int),
            final(self).lines == old(self).lines,
            final(self).scroll_offset == old(self).scroll_offset,
            final(self).collapsed == old(self).collapsed,
            final(self).section_header_indices == old(self).section_header_indices,
    {
        let ghost k = self.kinds();
        while self.cursor > 0 && !self.is_selectable(self.cursor)
            invariant
                self.wf(),
                k == self.kinds(),
                self.lines == old(self).lines,
                self.scroll_offset == old(self).scroll_offset,
                self.collapsed == old(self).collapsed,
                self.section_header_indices == old(self).section_header_indices,
                keeps_model(old(self), self),
                self.search_query == old(self).search_query,
                self.plugin_mode == old(self).plugin_mode,
                snap_up(k, old(self).cursor as int) == snap_up(k, self.cursor as int),
                self.cursor <= old(self).cursor,
            decreases self.cursor,
        {
            self.cursor = self.cursor - 1;
        }
    }

    /// Moves the cursor down to the nearest selectable line at or below it,
    /// or, when there is none, up to the nearest one above the last line.
    pub fn snap_cursor_to_selectable_down(&mut self)
        requires
            old(self).wf(),
        ensures
            final(self).wf(),
            keeps_model(old(self), final(self)),
            final(self).search_query == old(self).search_query,
            final(self).plugin_mode == old(self).plugin_mode,
            final(self).cursor == snap_down(old(self).kinds(), old(self).cursor as int),
            final(self).lines == old(self).lines,
            final(self).scroll_offset == old(self).scroll_offset,
            final(self).collapsed == old(self).collapsed,
            final(self).section_header_indices == old(self).section_header_indices,
    {
        let ghost k = self.kinds();
        let max = self.lines.len();
        let mut c = self.cursor;
        while c < max && !self.is_selectable(c)
            invariant
                k == self.kinds(),
                max == k.len(),
                self == old(self),
                snap_down(k, old(self).cursor as int) == snap_down(k, c as int),
            decreases max - c,
        {
            c = c + 1;
        }
        if c >= max && max > 0 {
            self.cursor = max - 1;
            self.snap_cursor_to_selectable_up();
        } else {
            self.cursor = c;
        }
    }

    /// Moves the cursor down over `n` selectable lines, as far as the last
    /// line, then onto the nearest selectable line.
    pub fn move_cursor_down(&mut self, n: usize)
        requires
            old(self).wf(),
        ensures
            final(self).wf(),
            keeps_model(old(self), final(self)),
            final(self).search_query == old(self).search_query,
            final(self).plugin_mode == old(self).plugin_mode,
            final(self).cursor == snap_down(
                old(self).kinds(),
                step_down(
                    old(self).kinds(),
                    old(self).cursor as int,
                    n as nat,
                    old(self).lines@.len() - 1,
                ),
            ),
            final(self).lines == old(self).lines,
            final(self).scroll_offset == old(self).scroll_offset,
            final(self).collapsed == old(self).collapsed,
            final(self).section_header_indices == old(self).section_header_indices,
    {
        let ghost k = self.kinds();
        let max: usize = if self.lines.len() > 0 { self.lines.len() - 1 } else { 0 };
        let mut remaining = n;
        let mut pos = self.cursor;
        proof {
            if self.lines@.len() == 0 {
                assert(step_down(k, self.cursor as int, n as nat, -1) == self.cursor);
            }
        }
        while remaining > 0 && pos < max
            invariant
                k == self.kinds(),
                max as int == (if k.len() > 0 { k.len() - 1 } else { 0 }),
                step_down(k, old(self).cursor as int, n as nat, k.len() - 1) == (if k.len() > 0 {
                    step_down(k, pos as int, remaining as nat, k.len() - 1)
                } else {
                    old(self).cursor as int
                }),
                k.len() == 0 ==> pos == old(self).cursor,
                k.len() > 0 ==> pos <= max,
                self == old(self),
                old(self).wf(),
            decreases max - pos,
        {
            pos = pos + 1;
            if self.is_selectable(pos) {
                remaining = remaining - 1;
            }
        }
        proof {
            if k.len() > 0 && (remaining == 0 || pos >= max) {
                assert(step_down(k, pos as int, remaining as nat, k.len() - 1) == pos);
            }
        }
        self.cursor = pos;
        self.snap_cursor_to_selectable_down();
    }

    /// Moves the cursor up over `n` selectable lines, as far as the first
    /// line, then onto the nearest selectable line above.
    pub fn move_cursor_up(&mut self, n: usize)
        requires
            old(self).wf(),
        ensures
            final(self).wf(),
            keeps_model(old(self), final(self)),
            final(self).search_query == old(self).search_query,
            final(self).plugin_mode == old(self).plugin_mode,
            final(self).cursor == snap_up(
                old(self).kinds(),
                step_up(old(self).kinds(), old(self).cursor as int, n as nat),
            ),
            final(self).lines == old(self).lines,
            final(self).scroll_offset == old(self).scroll_offset,
            final(self).collapsed == old(self).collapsed,
            final(self).section_header_indices == old(self).section_header_indices,
    {
        let ghost k = self.kinds();
        let mut remaining = n;
        let mut pos = self.cursor;
        while remaining > 0 && pos > 0
            invariant
                k == self.kinds(),
                pos <= old(self).cursor,
                step_up(k, old(self).cursor as int, n as nat) == step_up(k, pos as int, remaining as nat),
                self == old(self),
            decreases pos,
        {
            pos = pos - 1;
            if self.is_selectable(pos) {
                remaining = remaining - 1;
            }
        }
        self.cursor = pos;
        self.snap_cursor_to_selectable_up();
    }
}

/// The lines of context kept above and below the cursor.
pub const SCROLLOFF: usize = 3;

/// The first line shown once the window of `viewport` lines is moved to
/// keep the cursor in view with a margin of up to `SCROLLOFF` lines (a
/// quarter of the window at most), and kept within the lines.
pub open spec fn scrolled(offset: int, cursor: int, total: int, viewport: int) -> int {
    if viewport == 0 {
        offset
    } else if total <= viewport {
        0
    } else {
        let max_offset = total - viewport;
        let margin = if SCROLLOFF < viewport / 4 { SCROLLOFF as int } else { viewport / 4 };
        let o = if cursor < offset + margin {
            if cursor - margin > 0 { cursor - margin } else { 0 }
        } else if cursor > offset + viewport - 1 - margin {
            cursor + margin + 1 - viewport
        } else {
            offset
        };
        if o < max_offset { o } else { max_offset }
    }
}

/// The header position the cursor jumps to for the current mode: the first
/// header position that points at the current mode's header.
pub open spec fn current_header(
    headers: Seq<usize>,
    kinds: Seq<LineType>,
    mode: Mode,
    k: int,
) -> Option<int>
    decreases headers.len() - k,
{
    if k < 0 || k >= headers.len() {
        None
    } else if headers[k] < kinds.len() && kinds[headers[k] as int] == LineType::SectionHeader(mode) {
        Some(k)
    } else {
        current_header(headers, kinds, mode, k + 1)
    }
}

/// The first header position after the cursor, from entry `k` on.
pub open spec fn next_header(headers: Seq<usize>, cursor: int, k: int) -> Option<usize>
    decreases headers.len() - k,
{
    if k < 0 || k >= headers.len() {
        None
    } else if headers[k] > cursor {
        Some(headers[k])
    } else {
        next_header(headers, cursor, k + 1)
    }
}

/// The last header position before the cursor, from entry `k` down.
pub open spec fn prev_header(headers: Seq<usize>, cursor: int, k: int) -> Option<usize>
    decreases k + 1,
{
    if k < 0 || k >= headers.len() {
        None
    } else if headers[k] < cursor {
        Some(headers[k])
    } else {
        prev_header(headers, cursor, k - 1)
    }
}

/// Where a jump to the next section puts a cursor at `c`: the first header
/// after it, or the first header when there is none after it; nowhere else
/// when there are no headers.
pub open spec fn next_jump(headers: Seq<usize>, c: int) -> int {
    if headers.len() == 0 {
        c
    } else {
        match next_header(headers, c, 0) {
            Some(h) => h as int,
            None => headers[0] as int,
        }
    }
}

/// Where a jump to the previous section puts a cursor at `c`: the last
/// header before it, or the last header when there is none before it;
/// nowhere else when there are no headers.
pub open spec fn prev_jump(headers: Seq<usize>, c: int) -> int {
    if headers.len() == 0 {
        c
    } else {
        match prev_header(headers, c, headers.len() - 1) {
            Some(h) => h as int,
            None => headers.last() as int,
        }
    }
}

/// What `next_header` returns is one of the header positions.
proof fn lemma_next_header_in(headers: Seq<usize>, cursor: int, k: int)
    ensures
        next_header(headers, cursor, k) matches Some(h) ==> exists|j: int|
            0 <= j < headers.len() && headers[j] == h,
    decreases headers.len() - k,
{
    if 0 <= k < headers.len() && headers[k] <= cursor {
        lemma_next_header_in(headers, cursor, k + 1);
    }
}

/// What `prev_header` returns is one of the header positions.
proof fn lemma_prev_header_in(headers: Seq<usize>, cursor: int, k: int)
    ensures
        prev_header(headers, cursor, k) matches Some(h) ==> exists|j: int|
            0 <= j < headers.len() && headers[j] == h,
    decreases k + 1,
{
    if 0 <= k < headers.len() && headers[k] >= cursor {
        lemma_prev_header_in(headers, cursor, k - 1);
    }
}

/// The mode whose header the cursor is on, if it is on one.
pub open spec fn header_at(kinds: Seq<LineType>, cursor: int) -> Option<Mode> {
    if 0 <= cursor < kinds.len() {
        match kinds[cursor] {
            LineType::SectionHeader(m) => Some(m),
            _ => None,
        }
    } else {
        None
    }
}

/// The fold flags after the section of `key`, if any, is toggled.
pub open spec fn toggled(flags: Seq<bool>, key: Option<Mode>) -> Seq<bool> {
    match key {
        Some(m) => flags.update(mode_rank(m) as int, !flags[mode_rank(m) as int]),
        None => flags,
    }
}

/// The fold flags after the section of `key`, if any, is set to `value`.
pub open spec fn set_fold(flags: Seq<bool>, key: Option<Mode>, value: bool) -> Seq<bool> {
    match key {
        Some(m) => flags.update(mode_rank(m) as int, value),
        None => flags,
    }
}

impl State {
    /// Moves the window of `viewport` lines so that the cursor stays in
    /// view, with a margin, and the window within the lines.
    pub fn adjust_scroll(&mut self, viewport: usize)
        requires
            old(self).wf(),
        ensures
            final(self).wf(),
            keeps_model(old(self), final(self)),
            final(self).search_query == old(self).search_query,
            final(self).plugin_mode == old(self).plugin_mode,
            final(self).scroll_offset == scrolled(
                old(self).scroll_offset as int,
                old(self).cursor as int,
                old(self).lines@.len() as int,
                viewport as int,
            ),
            final(self).cursor == old(self).cursor,
            final(self).lines == old(self).lines,
            final(self).collapsed == old(self).collapsed,
            final(self).section_header_indices == old(self).section_header_indices,
    {
        if viewport == 0 {
            return;
        }
        let total = self.lines.len();
        if total <= viewport {
            self.scroll_offset = 0;
            return;
        }
        let max_offset = total - viewport;
        let margin = if SCROLLOFF < viewport / 4 { SCROLLOFF } else { viewport / 4 };
        let bottom_rel = viewport - 1 - margin;
        let cursor = self.cursor;
        let mut offset = self.scroll_offset;
        if cursor < margin || cursor - margin < offset {
            offset = if cursor > margin { cursor - margin } else { 0 };
        } else if cursor > bottom_rel && cursor - bottom_rel > offset {
            offset = cursor - bottom_rel;
        }
        if offset > max_offset {
            offset = max_offset;
        }
        self.scroll_offset = offset;
    }

    /// Puts the cursor, and the top of the window, on the current mode's
    /// header; without one, at the first selectable line from the top.
    pub fn jump_to_current_mode_section(&mut self)
        requires
            old(self).wf(),
        ensures
            final(self).wf(),
            keeps_model(old(self), final(self)),
            final(self).search_query == old(self).search_query,
            final(self).plugin_mode == old(self).plugin_mode,
            match current_header(
                old(self).section_header_indices@,
                old(self).kinds(),
                old(self).current_mode,
                0,
            ) {
                Some(k) => final(self).cursor == old(self).section_header_indices@[k]
                    && final(self).scroll_offset == old(self).section_header_indices@[k],
                None => final(self).cursor == snap_down(old(self).kinds(), 0)
                    && final(self).scroll_offset == 0,
            },
            final(self).lines == old(self).lines,
            final(self).collapsed == old(self).collapsed,
            final(self).section_header_indices == old(self).section_header_indices,
    {
        let ghost k = self.kinds();
        let ghost h = self.section_header_indices@;
        let mut i: usize = 0;
        while i < self.section_header_indices.len()
            invariant
                self == old(self),
                old(self).wf(),
                k == self.kinds(),
                h == self.section_header_indices@,
                i <= h.len(),
                current_header(h, k, self.current_mode, 0) == current_header(
                    h,
                    k,
                    self.current_mode,
                    i as int,
                ),
            decreases h.len() - i,
        {
            let idx = self.section_header_indices[i];
            if idx < self.lines.len() {
                match self.lines[idx].line_type {
                    LineType::SectionHeader(mode) => {
                        if mode == self.current_mode {
                            self.cursor = idx;
                            self.scroll_offset = idx;
                            return;
                        }
                    },
                    _ => {},
                }
            }
            i = i + 1;
        }
        self.cursor = 0;
        self.scroll_offset = 0;
        self.snap_cursor_to_selectable_down();
    }

    /// Puts the cursor on the first header after it, or on the first header
    /// when there is none after it.
    pub fn jump_to_next_section(&mut self)
        requires
            old(self).wf(),
        ensures
            final(self).wf(),
            keeps_model(old(self), final(self)),
            final(self).search_query == old(self).search_query,
            final(self).plugin_mode == old(self).plugin_mode,
            final(self).cursor == next_jump(old(self).section_header_indices@, old(self).cursor as int),
            final(self).lines == old(self).lines,
            final(self).scroll_offset == old(self).scroll_offset,
            final(self).collapsed == old(self).collapsed,
            final(self).section_header_indices == old(self).section_header_indices,
    {
        if self.section_header_indices.len() == 0 {
            return;
        }
        let ghost h = self.section_header_indices@;
        proof {
            lemma_next_header_in(h, self.cursor as int, 0);
        }
        let mut i: usize = 0;
        while i < self.section_header_indices.len()
            invariant
                self == old(self),
                old(self).wf(),
                h == self.section_header_indices@,
                i <= h.len(),
                next_header(h, self.cursor as int, 0) == next_header(h, self.cursor as int, i as int),
            decreases h.len() - i,
        {
            let idx = self.section_header_indices[i];
            if idx > self.cursor {
                self.cursor = idx;
                return;
            }
            i = i + 1;
        }
        self.cursor = self.section_header_indices[0];
    }

    /// Puts the cursor on the last header before it, or on the last header
    /// when there is none before it.
    pub fn jump_to_prev_section(&mut self)
        requires
            old(self).wf(),
        ensures
            final(self).wf(),
            keeps_model(old(self), final(self)),
            final(self).search_query == old(self).search_query,
            final(self).plugin_mode == old(self).plugin_mode,
            final(self).cursor == prev_jump(old(self).section_header_indices@, old(self).cursor as int),
            final(self).lines == old(self).lines,
            final(self).scroll_offset == old(self).scroll_offset,
            final(self).collapsed == old(self).collapsed,
            final(self).section_header_indices == old(self).section_header_indices,
    {
        let n = self.section_header_indices.len();
        if n == 0 {
            return;
        }
        let ghost h = self.section_header_indices@;
        proof {
            lemma_prev_header_in(h, self.cursor as int, n - 1);
        }
        let mut i: usize = n;
        while i > 0
            invariant
                self == old(self),
                old(self).wf(),
                h == self.section_header_indices@,
                n == h.len(),
                i <= n,
                prev_header(h, self.cursor as int, n - 1) == prev_header(h, self.cursor as int, i - 1),
            decreases i,
        {
            let idx = self.section_header_indices[i - 1];
            if idx < self.cursor {
                self.cursor = idx;
                return;
            }
            i = i - 1;
        }
        self.cursor = self.section_header_indices[n - 1];
    }

    /// The mode whose header the cursor is on, if it is on one.
    pub fn collapse_key_at_cursor(&self) -> (r: Option<Mode>)
        ensures
            r == header_at(self.kinds(), self.cursor as int),
    {
        if self.cursor < self.lines.len() {
            match self.lines[self.cursor].line_type {
                LineType::SectionHeader(mode) => Some(mode),
                _ => None,
            }
        } else {
            None
        }
    }

    /// Folds or unfolds the section whose header the cursor is on.
    pub fn toggle_section_at_cursor(&mut self)
        requires
            old(self).wf(),
        ensures
            final(self).wf(),
            keeps_model(old(self), final(self)),
            final(self).search_query == old(self).search_query,
            final(self).plugin_mode == old(self).plugin_mode,
            final(self).collapsed@ == toggled(
                old(self).collapsed@,
                header_at(old(self).kinds(), old(self).cursor as int),
            ),
            final(self).cursor == old(self).cursor,
            final(self).lines == old(self).lines,
            final(self).scroll_offset == old(self).scroll_offset,
            final(self).section_header_indices == old(self).section_header_indices,
    {
        match self.collapse_key_at_cursor() {
            Some(key) => {
                let r = key.rank();
                let v = !self.collapsed[r];
                self.collapsed[r] = v;
            },
            None => {},
        }
    }

    /// Unfolds the section whose header the cursor is on.
    pub fn expand_section_at_cursor(&mut self)
        requires
            old(self).wf(),
        ensures
            final(self).wf(),
            keeps_model(old(self), final(self)),
            final(self).search_query == old(self).search_query,
            final(self).plugin_mode == old(self).plugin_mode,
            final(self).collapsed@ == set_fold(
                old(self).collapsed@,
                header_at(old(self).kinds(), old(self).cursor as int),
                false,
            ),
            final(self).cursor == old(self).cursor,
            final(self).lines == old(self).lines,
            final(self).scroll_offset == old(self).scroll_offset,
            final(self).section_header_indices == old(self).section_header_indices,
    {
        match self.collapse_key_at_cursor() {
            Some(key) => {
                let r = key.rank();
                self.collapsed[r] = false;
            },
            None => {},
        }
    }

    /// Folds the section whose header the cursor is on.
    pub fn collapse_section_at_cursor(&mut self)
        requires
            old(self).wf(),
        ensures
            final(self).wf(),
            keeps_model(old(self), final(self)),
            final(self).search_query == old(self).search_query,
            final(self).plugin_mode == old(self).plugin_mode,
            final(self).collapsed@ == set_fold(
                old(self).collapsed@,
                header_at(old(self).kinds(), old(self).cursor as int),
                true,
            ),
            final(self).cursor == old(self).cursor,
            final(self).lines == old(self).lines,
            final(self).scroll_offset == old(self).scroll_offset,
            final(self).section_header_indices == old(self).section_header_indices,
    {
        match self.collapse_key_at_cursor() {
            Some(key) => {
                let r = key.rank();
                self.collapsed[r] = true;
            },
            None => {},
        }
    }

    /// Puts the cursor and the window back at the top.
    pub fn reset_view(&mut self)
        requires
            old(self).wf(),
        ensures
            final(self).wf(),
            keeps_model(old(self), final(self)),
            final(self).search_query == old(self).search_query,
            final(self).plugin_mode == old(self).plugin_mode,
            final(self).cursor == 0,
            final(self).scroll_offset == 0,
            final(self).lines == old(self).lines,
            final(self).collapsed == old(self).collapsed,
            final(self).section_header_indices == old(self).section_header_indices,
    {
        self.cursor = 0;
        self.scroll_offset = 0;
    }

    /// Drops the laid-out lines, to be laid out again before the next
    /// render.
    pub fn invalidate_lines(&mut self)
        requires
            old(self).wf(),
        ensures
            final(self).wf(),
            keeps_model(old(self), final(self)),
            final(self).search_query == old(self).search_query,
            final(self).plugin_mode == old(self).plugin_mode,
            final(self).lines@.len() == 0,
            final(self).cursor == old(self).cursor,
            final(self).scroll_offset == old(self).scroll_offset,
            final(self).collapsed == old(self).collapsed,
            final(self).section_header_indices == old(self).section_header_indices,
    {
        self.lines.clear();
    }
}

impl State {
    /// The parameters the lines are laid out with: the palette, the current
    /// mode, the fold flags, the lower-cased query when one is typed, the
    /// width (80 until a render has set one) and the widest labels.
    pub open spec fn layout(&self) -> Layout {
        layout_of(
            self.palette->0,
            self.current_mode,
            self.collapsed@,
            self.search_query@.len() > 0,
            lowercase(self.search_query@),
            if self.cols > 0 {
                self.cols
            } else {
                80
            },
            self.global_max_action,
            self.global_max_key,
        )
    }

    /// The sections in listing order: the current mode's first.
    pub open spec fn listed(&self) -> Seq<SectionView> {
        ordered(section_views(self.sections@), self.current_mode)
    }

    /// The lines laid out for the state.
    pub open spec fn laid_out(&self) -> Seq<(Seq<char>, LineType)> {
        layout_lines(self.listed(), self.layout())
    }

    /// The positions of the section headers among the laid-out lines.
    pub open spec fn laid_out_headers(&self) -> Seq<usize> {
        layout_headers(self.listed(), self.layout())
    }

    /// Lays out the lines again (nothing happens before the palette is
    /// known), then keeps the cursor within them.
    pub fn rebuild_lines(&mut self)
        requires
            old(self).wf(),
        ensures
            final(self).wf(),
            old(self).palette is None ==> *final(self) == *old(self),
            old(self).palette is Some ==> {
                &&& line_views(final(self).lines@) == old(self).laid_out()
                &&& final(self).section_header_indices@ == old(self).laid_out_headers()
                &&& final(self).cursor == (if final(self).lines@.len() > 0 && old(self).cursor
                    >= final(self).lines@.len() {
                    (final(self).lines@.len() - 1) as usize
                } else {
                    old(self).cursor
                })
            },
            final(self).current_mode == old(self).current_mode,
            final(self).sections == old(self).sections,
            final(self).palette == old(self).palette,
            final(self).modifier_style == old(self).modifier_style,
            final(self).total_bindings == old(self).total_bindings,
            final(self).global_max_key == old(self).global_max_key,
            final(self).global_max_action == old(self).global_max_action,
            final(self).plugin_id == old(self).plugin_id,
            final(self).plugin_mode == old(self).plugin_mode,
            final(self).scroll_offset == old(self).scroll_offset,
            final(self).collapsed == old(self).collapsed,
            final(self).search_query == old(self).search_query,
            final(self).rows == old(self).rows,
            final(self).cols == old(self).cols,
            final(self).initial_jump_done == old(self).initial_jump_done,
            relaid(
                line_views(old(self).lines@),
                old(self).section_header_indices@,
                old(self).cursor,
                final(self),
            ),
    {
        let palette = match self.palette {
            Some(p) => p,
            None => {
                return;
            },
        };
        let cols: usize = if self.cols > 0 { self.cols } else { 80 };
        let searching = !self.search_query.as_str().is_empty();
        let query = to_lowercase(self.search_query.as_str());
        let ghost l = self.layout();
        let ghost secs = section_views(self.sections@);
        let current = self.current_mode;
        let mut lines: Vec<RenderLine> = Vec::new();
        let mut headers: Vec<usize> = Vec::new();
        let mut i: usize = 0;
        while i < self.sections.len()
            invariant
                self == old(self),
                old(self).wf(),
                l == self.layout(),
                secs == section_views(self.sections@),
                current == self.current_mode,
                palette == self.palette->0,
                cols as int == l.cols,
                searching == l.searching,
                query@ == l.query,
                i <= self.sections@.len(),
                line_views(lines@) == layout_lines(sections_where(secs.take(i as int), current, true), l),
                headers@ == layout_headers(sections_where(secs.take(i as int), current, true), l),
                forall|k: int| 0 <= k < headers@.len() ==> #[trigger] headers@[k] < lines@.len(),
            decreases self.sections.len() - i,
        {
            proof {
                assert(secs.take(i + 1).drop_last() =~= secs.take(i as int));
                assert(secs.take(i + 1).last() == self.sections@[i as int]@);
            }
            if self.sections[i].mode == current {
                let before = lines.len();
                let ghost w = sections_where(secs.take(i as int), current, true);
                let ghost old_lines = lines@;
                push_section_lines(
                    &self.sections[i],
                    &palette,
                    current,
                    &self.collapsed,
                    searching,
                    query.as_str(),
                    cols,
                    self.global_max_action,
                    self.global_max_key,
                    &mut lines,
                );
                proof {
                    assert(w.push(secs[i as int]).drop_last() =~= w);
                    assert(line_views(lines@).len() == lines@.len());
                    assert(line_views(old_lines).len() == old_lines.len());
                }
                if lines.len() > before {
                    headers.push(before);
                }
                proof {
                    assert(sections_where(secs.take(i + 1), current, true) == w.push(secs[i as int]));
                }
            }
            i = i + 1;
        }
        let ghost first = sections_where(secs, current, true);
        assert(secs.take(secs.len() as int) =~= secs);
        assert(first + secs.take(0) =~= first);
        let mut i: usize = 0;
        while i < self.sections.len()
            invariant
                self == old(self),
                old(self).wf(),
                l == self.layout(),
                secs == section_views(self.sections@),
                current == self.current_mode,
                first == sections_where(secs, current, true),
                palette == self.palette->0,
                cols as int == l.cols,
                searching == l.searching,
                query@ == l.query,
                i <= self.sections@.len(),
                line_views(lines@) == layout_lines(
                    first + sections_where(secs.take(i as int), current, false),
                    l,
                ),
                headers@ == layout_headers(
                    first + sections_where(secs.take(i as int), current, false),
                    l,
                ),
                forall|k: int| 0 <= k < headers@.len() ==> #[trigger] headers@[k] < lines@.len(),
            decreases self.sections.len() - i,
        {
            proof {
                assert(secs.take(i + 1).drop_last() =~= secs.take(i as int));
                assert(secs.take(i + 1).last() == self.sections@[i as int]@);
                let w = sections_where(secs.take(i as int), current, false);
                assert((first + w.push(secs[i as int])).drop_last() =~= first + w);
            }
            if self.sections[i].mode != current {
                let before = lines.len();
                let ghost w = first + sections_where(secs.take(i as int), current, false);
                let ghost old_lines = lines@;
                push_section_lines(
                    &self.sections[i],
                    &palette,
                    current,
                    &self.collapsed,
                    searching,
                    query.as_str(),
                    cols,
                    self.global_max_action,
                    self.global_max_key,
                    &mut lines,
                );
                proof {
                    assert(w.push(secs[i as int]).drop_last() =~= w);
                    assert(line_views(lines@).len() == lines@.len());
                    assert(line_views(old_lines).len() == old_lines.len());
                }
                if lines.len() > before {
                    headers.push(before);
                }
            }
            i = i + 1;
        }
        self.lines = lines;
        self.section_header_indices = headers;
        if self.lines.len() > 0 && self.cursor >= self.lines.len() {
            self.cursor = self.lines.len() - 1;
        }
    }
}

/// A request to the host.
#[derive(Debug)]
pub enum Effect {
    /// Give the plugin's pane this name.
    RenamePane { plugin_id: u32, name: String },
    /// Move the plugin's floating pane to the row and give it the height
    /// that `coords` holds, which `size` writes as plain values.
    SetPaneCoords { plugin_id: u32, coords: FloatingPaneCoordinates, size: PaneCoords },
    /// Hide the plugin's pane.
    HideSelf,
}

/// A request to the host, as plain values.
pub enum EffectView {
    RenamePane(u32, Seq<char>),
    SetPaneCoords(u32, PaneCoords),
    HideSelf,
}

/// A request as plain values.
pub open spec fn effect_view(e: Effect) -> EffectView {
    match e {
        Effect::RenamePane { plugin_id, name } => EffectView::RenamePane(plugin_id, name@),
        Effect::SetPaneCoords { plugin_id, size, .. } => EffectView::SetPaneCoords(
            plugin_id,
            size,
        ),
        Effect::HideSelf => EffectView::HideSelf,
    }
}

/// Requests as plain values.
pub open spec fn effect_views(s: Seq<Effect>) -> Seq<EffectView> {
    s.map_values(|e: Effect| effect_view(e))
}

/// Pushing a request pushes its view.
pub proof fn lemma_effect_views_push(s: Seq<Effect>, e: Effect)
    ensures
        effect_views(s.push(e)) == effect_views(s).push(effect_view(e)),
{
    assert(effect_views(s.push(e)) =~= effect_views(s).push(effect_view(e)));
}

/// What a key asks of the panel.
#[derive(Clone, Copy, Debug, PartialEq, Eq, Structural)]
pub enum Command {
    Down(usize),
    Up(usize),
    Top,
    Bottom,
    PrevSection,
    NextSection,
    Toggle,
    Expand,
    Collapse,
    ExpandAll,
    CollapseAll,
    ShowHelp,
    StartSearch,
    Escape,
    Hide,
    CancelSearch,
    ConfirmSearch,
    Backspace,
    Type(char),
    Ignore,
}

/// What a key asks while browsing the list: j/k and the arrows move by a
/// line, Ctrl-d/Ctrl-u and PgDn/PgUp by half the screen, g/G go to the
/// top/bottom, Tab/Shift-Tab to the next/previous section, space or Enter
/// folds, l/→ unfolds, h/← folds, e/c unfold/fold all, F1 shows the help,
/// / or ? starts a search, Esc clears the filter or hides, q hides.
pub open spec fn browse_command(key: KeyCombo, rows: usize) -> Command {
    let ctrl = key.modifiers@.contains(Modifier::Ctrl);
    let shift = key.modifiers@.contains(Modifier::Shift);
    match key.bare {
        BareKey::Char('j') | BareKey::Down => Command::Down(1),
        BareKey::Char('k') | BareKey::Up => Command::Up(1),
        BareKey::Char('d') if ctrl => Command::Down(rows / 2),
        BareKey::Char('u') if ctrl => Command::Up(rows / 2),
        BareKey::PageDown => Command::Down(rows / 2),
        BareKey::PageUp => Command::Up(rows / 2),
        BareKey::Char('g') => Command::Top,
        BareKey::Char('G') => Command::Bottom,
        BareKey::Tab if shift => Command::PrevSection,
        BareKey::Tab => Command::NextSection,
        BareKey::Char(' ') | BareKey::Enter => Command::Toggle,
        BareKey::Char('l') | BareKey::Right => Command::Expand,
        BareKey::Char('h') | BareKey::Left => Command::Collapse,
        BareKey::Char('e') => Command::ExpandAll,
        BareKey::Char('c') => Command::CollapseAll,
        BareKey::F(1) => Command::ShowHelp,
        BareKey::Char('?') | BareKey::Char('/') => Command::StartSearch,
        BareKey::Esc => Command::Escape,
        BareKey::Char('q') => Command::Hide,
        _ => Command::Ignore,
    }
}

/// `a - b`, or 0 when `b` is larger.
pub open spec fn sat_sub_usize(a: usize, b: usize) -> usize {
    if a > b {
        (a - b) as usize
    } else {
        0
    }
}

/// What a key asks while the search bar is open: Esc cancels the search,
/// Enter keeps the filter, Backspace deletes, ↓/↑ move, a character is
/// typed.
pub open spec fn search_command(key: KeyCombo) -> Command {
    match key.bare {
        BareKey::Esc => Command::CancelSearch,
        BareKey::Enter => Command::ConfirmSearch,
        BareKey::Backspace => Command::Backspace,
        BareKey::Down => Command::Down(1),
        BareKey::Up => Command::Up(1),
        BareKey::Char(c) => Command::Type(c),
        _ => Command::Ignore,
    }
}

/// What a key asks while browsing the list.
pub fn browse_key_command(key: &KeyCombo, rows: usize) -> (c: Command)
    ensures
        c == browse_command(*key, rows),
{
    let ctrl = has_modifier(&key.modifiers, Modifier::Ctrl);
    let shift = has_modifier(&key.modifiers, Modifier::Shift);
    match key.bare {
        BareKey::Char('j') | BareKey::Down => Command::Down(1),
        BareKey::Char('k') | BareKey::Up => Command::Up(1),
        BareKey::Char('d') if ctrl => Command::Down(rows / 2),
        BareKey::Char('u') if ctrl => Command::Up(rows / 2),
        BareKey::PageDown => Command::Down(rows / 2),
        BareKey::PageUp => Command::Up(rows / 2),
        BareKey::Char('g') => Command::Top,
        BareKey::Char('G') => Command::Bottom,
        BareKey::Tab if shift => Command::PrevSection,
        BareKey::Tab => Command::NextSection,
        BareKey::Char(' ') | BareKey::Enter => Command::Toggle,
        BareKey::Char('l') | BareKey::Right => Command::Expand,
        BareKey::Char('h') | BareKey::Left => Command::Collapse,
        BareKey::Char('e') => Command::ExpandAll,
        BareKey::Char('c') => Command::CollapseAll,
        BareKey::F(1) => Command::ShowHelp,
        BareKey::Char('?') | BareKey::Char('/') => Command::StartSearch,
        BareKey::Esc => Command::Escape,
        BareKey::Char('q') => Command::Hide,
        _ => Command::Ignore,
    }
}

/// What a key asks while the search bar is open.
pub fn search_key_command(key: &KeyCombo) -> (c: Command)
    ensures
        c == search_command(*key),
{
    match key.bare {
        BareKey::Esc => Command::CancelSearch,
        BareKey::Enter => Command::ConfirmSearch,
        BareKey::Backspace => Command::Backspace,
        BareKey::Down => Command::Down(1),
        BareKey::Up => Command::Up(1),
        BareKey::Char(c) => Command::Type(c),
        _ => Command::Ignore,
    }
}

/// The fold flags with every section but the current mode's folded.
pub open spec fn fold_others(flags: Seq<bool>, secs: Seq<SectionView>, current: Mode) -> Seq<bool>
    decreases secs.len(),
{
    if secs.len() == 0 {
        flags
    } else {
        let f = fold_others(flags, secs.drop_last(), current);
        if secs.last().mode != current {
            f.update(mode_rank(secs.last().mode) as int, true)
        } else {
            f
        }
    }
}

/// Whether `b` has the keymap, palette, style, sizes and plugin id of `a`.
pub open spec fn keeps_model(a: &State, b: &State) -> bool {
    &&& b.current_mode == a.current_mode
    &&& b.sections == a.sections
    &&& b.palette == a.palette
    &&& b.modifier_style == a.modifier_style
    &&& b.total_bindings == a.total_bindings
    &&& b.global_max_key == a.global_max_key
    &&& b.global_max_action == a.global_max_action
    &&& b.plugin_id == a.plugin_id
    &&& b.rows == a.rows
    &&& b.cols == a.cols
    &&& b.initial_jump_done == a.initial_jump_done
}

/// Whether `b` shows what `a` shows, save perhaps the cursor.
pub open spec fn keeps_view(a: &State, b: &State) -> bool {
    &&& b.lines == a.lines
    &&& b.section_header_indices == a.section_header_indices
    &&& b.scroll_offset == a.scroll_offset
    &&& b.collapsed == a.collapsed
    &&& b.search_query == a.search_query
    &&& b.plugin_mode == a.plugin_mode
}

/// What a command does to the state (from `a` to `b`) and to the list of
/// requests (from `ea` to `eb`).
pub open spec fn command_done(
    cmd: Command,
    a: &State,
    b: &State,
    ea: Seq<EffectView>,
    eb: Seq<EffectView>,
) -> bool {
    let k = a.kinds();
    let h = a.section_header_indices@;
    &&& keeps_model(a, b)
    &&& eb == (if cmd == Command::Hide || (cmd == Command::Escape && a.search_query@.len() == 0) {
        ea.push(EffectView::HideSelf)
    } else {
        ea
    })
    &&& match cmd {
        Command::Down(n) => keeps_view(a, b) && b.cursor == snap_down(
            k,
            step_down(k, a.cursor as int, n as nat, a.lines@.len() - 1),
        ),
        Command::Up(n) => keeps_view(a, b) && b.cursor == snap_up(
            k,
            step_up(k, a.cursor as int, n as nat),
        ),
        Command::Top => keeps_view(a, b) && b.cursor == 0,
        Command::Bottom => keeps_view(a, b) && b.cursor == sat_sub_usize(a.lines@.len() as usize, 1),
        Command::NextSection => keeps_view(a, b) && b.cursor == next_jump(h, a.cursor as int),
        Command::PrevSection => keeps_view(a, b) && b.cursor == prev_jump(h, a.cursor as int),
        Command::Toggle => b.collapsed@ == toggled(a.collapsed@, header_at(k, a.cursor as int))
            && b.lines == a.lines && b.section_header_indices == a.section_header_indices
            && b.scroll_offset == a.scroll_offset && b.search_query == a.search_query
            && b.plugin_mode == a.plugin_mode && b.cursor == a.cursor,
        Command::Expand => b.collapsed@ == set_fold(a.collapsed@, header_at(k, a.cursor as int), false)
            && b.lines == a.lines && b.section_header_indices == a.section_header_indices
            && b.scroll_offset == a.scroll_offset && b.search_query == a.search_query
            && b.plugin_mode == a.plugin_mode && b.cursor == a.cursor,
        Command::Collapse => b.collapsed@ == set_fold(a.collapsed@, header_at(k, a.cursor as int), true)
            && b.lines == a.lines && b.section_header_indices == a.section_header_indices
            && b.scroll_offset == a.scroll_offset && b.search_query == a.search_query
            && b.plugin_mode == a.plugin_mode && b.cursor == a.cursor,
        Command::ExpandAll => b.collapsed@ == Seq::new(MODE_COUNT as nat, |i: int| false)
            && relaid(line_views(a.lines@), h, a.cursor, b) && b.scroll_offset == a.scroll_offset
            && b.search_query == a.search_query && b.plugin_mode == a.plugin_mode,
        Command::CollapseAll => b.collapsed@ == fold_others(
            a.collapsed@,
            section_views(a.sections@),
            a.current_mode,
        ) && relaid(line_views(a.lines@), h, a.cursor, b) && b.scroll_offset == a.scroll_offset
            && b.search_query == a.search_query && b.plugin_mode == a.plugin_mode,
        Command::ShowHelp => b.plugin_mode == PluginMode::Help && b.lines == a.lines
            && b.section_header_indices == a.section_header_indices && b.scroll_offset
            == a.scroll_offset && b.collapsed == a.collapsed && b.search_query == a.search_query
            && b.cursor == a.cursor,
        Command::StartSearch => b.plugin_mode == PluginMode::Search && b.search_query@.len() == 0
            && b.lines == a.lines && b.section_header_indices == a.section_header_indices
            && b.scroll_offset == a.scroll_offset && b.collapsed == a.collapsed && b.cursor
            == a.cursor,
        Command::Escape => if a.search_query@.len() > 0 {
            b.search_query@.len() == 0 && b.cursor == 0 && b.scroll_offset == 0 && b.lines
                == a.lines && b.section_header_indices == a.section_header_indices && b.collapsed
                == a.collapsed && b.plugin_mode == a.plugin_mode
        } else {
            keeps_view(a, b) && b.cursor == a.cursor
        },
        Command::Hide => keeps_view(a, b) && b.cursor == a.cursor,
        Command::CancelSearch => b.plugin_mode == PluginMode::Browse && b.search_query@.len() == 0
            && b.cursor == 0 && b.scroll_offset == 0 && b.lines == a.lines
            && b.section_header_indices == a.section_header_indices && b.collapsed == a.collapsed,
        Command::ConfirmSearch => b.plugin_mode == PluginMode::Browse && b.lines == a.lines
            && b.section_header_indices == a.section_header_indices && b.scroll_offset
            == a.scroll_offset && b.collapsed == a.collapsed && b.search_query == a.search_query
            && b.cursor == a.cursor,
        Command::Backspace => b.search_query@ == (if a.search_query@.len() > 0 {
            a.search_query@.drop_last()
        } else {
            a.search_query@
        }) && b.cursor == 0 && b.scroll_offset == 0 && b.lines == a.lines
            && b.section_header_indices == a.section_header_indices && b.collapsed == a.collapsed
            && b.plugin_mode == a.plugin_mode,
        Command::Type(c) => b.search_query@ == a.search_query@.push(c) && b.cursor == 0
            && b.scroll_offset == 0 && b.lines == a.lines && b.section_header_indices
            == a.section_header_indices && b.collapsed == a.collapsed && b.plugin_mode
            == a.plugin_mode,
        Command::Ignore => keeps_view(a, b) && b.cursor == a.cursor,
    }
}

impl State {
    /// Carries out what a key asked; false when it asked nothing.
    pub fn apply_command(&mut self, cmd: Command, effects: &mut Vec<Effect>) -> (handled: bool)
        requires
            old(self).wf(),
        ensures
            final(self).wf(),
            handled == (cmd != Command::Ignore),
            command_done(
                cmd,
                old(self),
                final(self),
                effect_views(old(effects)@),
                effect_views(final(effects)@),
            ),
    {
        match cmd {
            Command::Down(n) => self.move_cursor_down(n),
            Command::Up(n) => self.move_cursor_up(n),
            Command::Top => {
                self.cursor = 0;
            },
            Command::Bottom => {
                self.cursor = if self.lines.len() > 0 { self.lines.len() - 1 } else { 0 };
            },
            Command::PrevSection => self.jump_to_prev_section(),
            Command::NextSection => self.jump_to_next_section(),
            Command::Toggle => self.toggle_section_at_cursor(),
            Command::Expand => self.expand_section_at_cursor(),
            Command::Collapse => self.collapse_section_at_cursor(),
            Command::ExpandAll => {
                let mut r: usize = 0;
                while r < MODE_COUNT
                    invariant
                        r <= MODE_COUNT,
                        self.collapsed@.len() == MODE_COUNT,
                        forall|j: int| 0 <= j < r ==> !#[trigger] self.collapsed@[j],
                        keeps_model(old(self), self),
                        self.lines == old(self).lines,
                        self.section_header_indices == old(self).section_header_indices,
                        self.cursor == old(self).cursor,
                        self.scroll_offset == old(self).scroll_offset,
                        self.search_query == old(self).search_query,
                        self.plugin_mode == old(self).plugin_mode,
                        old(self).wf(),
                    decreases MODE_COUNT - r,
                {
                    self.collapsed[r] = false;
                    r = r + 1;
                }
                assert(self.collapsed@ =~= Seq::new(MODE_COUNT as nat, |i: int| false));
                self.rebuild_lines();
            },
            Command::CollapseAll => {
                let ghost secs = section_views(self.sections@);
                let mut i: usize = 0;
                while i < self.sections.len()
                    invariant
                        i <= self.sections@.len(),
                        secs == section_views(self.sections@),
                        self.collapsed@.len() == MODE_COUNT,
                        self.collapsed@ == fold_others(
                            old(self).collapsed@,
                            secs.take(i as int),
                            self.current_mode,
                        ),
                        keeps_model(old(self), self),
                        self.lines == old(self).lines,
                        self.section_header_indices == old(self).section_header_indices,
                        self.cursor == old(self).cursor,
                        self.scroll_offset == old(self).scroll_offset,
                        self.search_query == old(self).search_query,
                        self.plugin_mode == old(self).plugin_mode,
                        old(self).wf(),
                    decreases self.sections.len() - i,
                {
                    assert(secs.take(i + 1).drop_last() =~= secs.take(i as int));
                    assert(secs.take(i + 1).last() == self.sections@[i as int]@);
                    let m = self.sections[i].mode;
                    if m != self.current_mode {
                        let r = m.rank();
                        self.collapsed[r] = true;
                    }
                    i = i + 1;
                }
                assert(secs.take(secs.len() as int) =~= secs);
                self.rebuild_lines();
            },
            Command::ShowHelp => {
                self.plugin_mode = PluginMode::Help;
            },
            Command::StartSearch => {
                self.plugin_mode = PluginMode::Search;
                self.search_query = String::new();
            },
            Command::Escape => {
                if !self.search_query.as_str().is_empty() {
                    self.search_query = String::new();
                    self.reset_view();
                } else {
                    proof {
                        lemma_effect_views_push(effects@, Effect::HideSelf);
                    }
                    effects.push(Effect::HideSelf);
                }
            },
            Command::Hide => {
                proof {
                    lemma_effect_views_push(effects@, Effect::HideSelf);
                }
                effects.push(Effect::HideSelf);
            },
            Command::CancelSearch => {
                self.plugin_mode = PluginMode::Browse;
                self.search_query = String::new();
                self.reset_view();
            },
            Command::ConfirmSearch => {
                self.plugin_mode = PluginMode::Browse;
            },
            Command::Backspace => {
                let _ = pop_char(&mut self.search_query);
                self.reset_view();
            },
            Command::Type(c) => {
                push_char(&mut self.search_query, c);
                self.reset_view();
            },
            Command::Ignore => {
                return false;
            },
        }
        true
    }
}

/// What a key does in a panel mode: in the help view any key goes back to
/// the list (`None`); else the command the key asks for.
pub open spec fn key_command(mode: PluginMode, key: KeyCombo, rows: usize) -> Option<Command> {
    match mode {
        PluginMode::Help => None,
        PluginMode::Search => Some(search_command(key)),
        PluginMode::Browse => Some(browse_command(key, rows)),
    }
}

/// Whether `b` is `a` with its lines dropped.
pub open spec fn invalidated(a: &State, b: &State) -> bool {
    &&& keeps_model(a, b)
    &&& b.lines@.len() == 0
    &&& b.section_header_indices == a.section_header_indices
    &&& b.scroll_offset == a.scroll_offset
    &&& b.collapsed == a.collapsed
    &&& b.search_query == a.search_query
    &&& b.plugin_mode == a.plugin_mode
    &&& b.cursor == a.cursor
}

/// Whether `b` is what a key makes of `a`, and `eb` the requests it adds
/// to `ea`; `handled` tells whether the key did anything.
pub open spec fn key_done(
    key: KeyCombo,
    a: &State,
    b: &State,
    ea: Seq<EffectView>,
    eb: Seq<EffectView>,
    handled: bool,
) -> bool {
    match key_command(a.plugin_mode, key, a.rows) {
        None => handled && keeps_model(a, b) && b.plugin_mode == PluginMode::Browse && b.lines
            == a.lines && b.section_header_indices == a.section_header_indices && b.scroll_offset
            == a.scroll_offset && b.collapsed == a.collapsed && b.search_query == a.search_query
            && b.cursor == a.cursor && eb == ea,
        Some(cmd) => handled == (cmd != Command::Ignore) && command_done(cmd, a, b, ea, eb),
    }
}

/// The number of places in `bs` where the category changes from one
/// binding to the next.
pub open spec fn category_changes(bs: Seq<BindingView>) -> nat
    decreases bs.len(),
{
    if bs.len() <= 1 {
        0
    } else {
        category_changes(bs.drop_last()) + if bs.last().category != bs[bs.len() - 2].category {
            1nat
        } else {
            0nat
        }
    }
}

/// The rows a section takes in the pane, with the blank line after it:
/// header, bindings and category gaps when it is unfolded or current, else
/// the header alone.
pub open spec fn section_height(sec: SectionView, current: Mode, collapsed: Seq<bool>) -> nat {
    if sec.mode == current || !collapsed[mode_rank(sec.mode) as int] {
        1 + sec.bindings.len() + category_changes(sec.bindings) + 1
    } else {
        2
    }
}

/// The rows the sections take.
pub open spec fn sections_height(secs: Seq<SectionView>, current: Mode, collapsed: Seq<bool>) -> nat
    decreases secs.len(),
{
    if secs.len() == 0 {
        0
    } else {
        sections_height(secs.drop_last(), current, collapsed) + section_height(
            secs.last(),
            current,
            collapsed,
        )
    }
}

/// The height asked for the pane: the sections' rows and four more, ten at
/// least.
pub open spec fn pane_height(secs: Seq<SectionView>, current: Mode, collapsed: Seq<bool>) -> nat {
    let h = sections_height(secs, current, collapsed) + 4;
    if h > 10 {
        h
    } else {
        10
    }
}

/// The request that fits the pane to the panel: none before the plugin id
/// is known or while there are no sections; in the normal mode a pane at
/// 15% from the top and 70% high; else a pane at the first row as high as
/// the sections need.
pub open spec fn fit_request(s: &State) -> Option<EffectView> {
    if s.plugin_id is None || s.sections@.len() == 0 {
        None
    } else if s.current_mode == Mode::Normal {
        Some(
            EffectView::SetPaneCoords(
                s.plugin_id->0,
                PaneCoords { y: Some(PaneSize::Percent(15)), height: Some(PaneSize::Percent(70)) },
            ),
        )
    } else {
        Some(
            EffectView::SetPaneCoords(
                s.plugin_id->0,
                PaneCoords {
                    y: Some(PaneSize::Fixed(1)),
                    height: rows_size(
                        pane_height(section_views(s.sections@), s.current_mode, s.collapsed@),
                    ),
                },
            ),
        )
    }
}

impl State {
    /// Carries out a key while browsing the list; false when the key does
    /// nothing there.
    pub fn handle_browse_key(&mut self, key: &KeyCombo, effects: &mut Vec<Effect>) -> (handled: bool)
        requires
            old(self).wf(),
        ensures
            final(self).wf(),
            handled == (browse_command(*key, old(self).rows) != Command::Ignore),
            command_done(
                browse_command(*key, old(self).rows),
                old(self),
                final(self),
                effect_views(old(effects)@),
                effect_views(final(effects)@),
            ),
    {
        let cmd = browse_key_command(key, self.rows);
        self.apply_command(cmd, effects)
    }

    /// Carries out a key while the search bar is open; false when the key
    /// does nothing there.
    pub fn handle_search_key(&mut self, key: &KeyCombo, effects: &mut Vec<Effect>) -> (handled: bool)
        requires
            old(self).wf(),
        ensures
            final(self).wf(),
            handled == (search_command(*key) != Command::Ignore),
            command_done(
                search_command(*key),
                old(self),
                final(self),
                effect_views(old(effects)@),
                effect_views(final(effects)@),
            ),
    {
        let cmd = search_key_command(key);
        self.apply_command(cmd, effects)
    }

    /// Carries out a key in the current panel mode.
    pub fn handle_key(&mut self, key: &KeyCombo, effects: &mut Vec<Effect>) -> (handled: bool)
        requires
            old(self).wf(),
        ensures
            final(self).wf(),
            key_done(
                *key,
                old(self),
                final(self),
                effect_views(old(effects)@),
                effect_views(final(effects)@),
                handled,
            ),
    {
        match self.plugin_mode {
            PluginMode::Help => {
                self.plugin_mode = PluginMode::Browse;
                true
            },
            PluginMode::Search => self.handle_search_key(key, effects),
            PluginMode::Browse => self.handle_browse_key(key, effects),
        }
    }

    /// Asks the host to fit the pane to the panel.
    pub fn resize_to_fit(&self, effects: &mut Vec<Effect>)
        requires
            self.wf(),
        ensures
            effect_views(final(effects)@) == match fit_request(self) {
                Some(e) => effect_views(old(effects)@).push(e),
                None => effect_views(old(effects)@),
            },
    {
        if self.plugin_id.is_none() || self.sections.len() == 0 {
            return;
        }
        if self.current_mode == Mode::Normal {
            proof {
                reveal_strlit("15%");
                reveal_strlit("70%");
                lemma_fifteen_percent();
                lemma_seventy_percent();
            }
            self.set_pane_coords("15%", "70%", effects);
            return;
        }
        let ghost secs = section_views(self.sections@);
        let mut height: u128 = 0;
        let mut i: usize = 0;
        while i < self.sections.len()
            invariant
                self.wf(),
                secs == section_views(self.sections@),
                i <= self.sections@.len(),
                height == sections_height(secs.take(i as int), self.current_mode, self.collapsed@),
                height <= i * 0x4_0000_0000_0000_0000u128,
            decreases self.sections.len() - i,
        {
            assert(secs.take(i + 1).drop_last() =~= secs.take(i as int));
            let s = &self.sections[i];
            assert(secs.take(i + 1).last() == s@);
            if s.mode == self.current_mode || !self.collapsed[s.mode.rank()] {
                let mut cats: u128 = 0;
                let mut j: usize = 0;
                let ghost bs = s@.bindings;
                while j < s.bindings.len()
                    invariant
                        bs == s@.bindings,
                        j <= s.bindings@.len(),
                        cats == category_changes(bs.take(j as int)),
                        cats <= j,
                    decreases s.bindings.len() - j,
                {
                    assert(bs.take(j + 1).drop_last() =~= bs.take(j as int));
                    assert(bs[j as int] == s.bindings@[j as int]@);
                    if j > 0 {
                        assert(bs[j - 1] == s.bindings@[j - 1]@);
                        if s.bindings[j - 1].category != s.bindings[j].category {
                            cats = cats + 1;
                        }
                    }
                    j = j + 1;
                }
                assert(bs.take(bs.len() as int) =~= bs);
                height = height + 1 + s.bindings.len() as u128 + cats + 1;
            } else {
                height = height + 2;
            }
            assert(i * 0x4_0000_0000_0000_0000u128 + 0x4_0000_0000_0000_0000u128 == (i + 1)
                * 0x4_0000_0000_0000_0000u128) by (nonlinear_arith);
            i = i + 1;
        }
        assert(secs.take(secs.len() as int) =~= secs);
        height = height + 4;
        if height < 10 {
            height = 10;
        }
        let mut h = String::new();
        push_decimal_wide(&mut h, height);
        proof {
            reveal_strlit("1");
            lemma_one_row();
            lemma_decimal_size(height as nat);
        }
        self.set_pane_coords("1", h.as_str(), effects);
    }

    /// Asks the host to move the plugin's pane to row `y` and give it
    /// `height`, each as the host reads it. Nothing is asked before the
    /// plugin id is known, nor when the host reads neither size.
    pub fn set_pane_coords(&self, y: &str, height: &str, effects: &mut Vec<Effect>)
        requires
            size_readable(y@),
            size_readable(height@),
        ensures
            self.plugin_id is None || (size_value(y@) is None && size_value(height@) is None)
                ==> final(effects)@ == old(effects)@,
            self.plugin_id is Some && (size_value(y@) is Some || size_value(height@) is Some)
                ==> effect_views(final(effects)@) == effect_views(old(effects)@).push(
                EffectView::SetPaneCoords(
                    self.plugin_id->0,
                    PaneCoords { y: size_value(y@), height: size_value(height@) },
                ),
            ),
    {
        if let Some(pid) = self.plugin_id {
            match pane_coordinates(y, height) {
                Some((coords, size)) => {
                    let e = Effect::SetPaneCoords { plugin_id: pid, coords, size };
                    proof {
                        lemma_effect_views_push(effects@, e);
                    }
                    effects.push(e);
                },
                None => {},
            }
        }
    }
}

/// What the host reports when its mode or its configuration changes.
#[derive(Debug)]
pub struct ModeUpdate {
    pub mode: Mode,
    pub palette: Palette,
    pub keybinds: Keybinds,
    /// The plugin's id, as the host reports it; read when the keymap is
    /// first loaded.
    pub plugin_id: Option<u32>,
}

/// An event from the host.
#[derive(Debug)]
pub enum Event {
    ModeUpdate(ModeUpdate),
    Key(KeyCombo),
    Mouse(MouseEvent),
    Other,
}

/// Whether an event is as the host gives it: the actions of a keymap it
/// reports are.
pub open spec fn event_ok(e: Event) -> bool {
    match e {
        Event::ModeUpdate(info) => keymap_ok(info.keybinds@),
        _ => true,
    }
}

/// The number of bindings in the sections.
pub open spec fn binding_count(secs: Seq<SectionView>) -> nat
    decreases secs.len(),
{
    if secs.len() == 0 {
        0
    } else {
        binding_count(secs.drop_last()) + secs.last().bindings.len()
    }
}

/// The larger of two numbers.
pub open spec fn max_nat(a: nat, b: nat) -> nat {
    if a > b {
        a
    } else {
        b
    }
}

/// The length of the longest key (when `keys`) or action label among the
/// bindings; 0 when there are none.
pub open spec fn widest_in(bs: Seq<BindingView>, keys: bool) -> nat
    decreases bs.len(),
{
    if bs.len() == 0 {
        0
    } else {
        max_nat(
            widest_in(bs.drop_last(), keys),
            if keys {
                bs.last().key.len()
            } else {
                bs.last().action.len()
            },
        )
    }
}

/// The length of the longest key (when `keys`) or action label in the
/// sections; 0 when there are none.
pub open spec fn widest(secs: Seq<SectionView>, keys: bool) -> nat
    decreases secs.len(),
{
    if secs.len() == 0 {
        0
    } else {
        max_nat(widest(secs.drop_last(), keys), widest_in(secs.last().bindings, keys))
    }
}

/// `n`, or the largest `usize` when `n` does not fit one.
pub open spec fn capped(n: nat) -> usize {
    if n <= usize::MAX {
        n as usize
    } else {
        usize::MAX
    }
}

/// The name the plugin's pane gets.
pub open spec fn pane_name() -> Seq<char> {
    "⌨ Keymap"@
}

/// Whether `b` and `eb` are what a mode update makes of `a` and `ea`, and
/// `r` whether the panel must be drawn again. Nothing happens when neither
/// the mode nor the palette changed and the keymap is loaded. Otherwise the
/// mode and palette are taken; the first time, the keymap is read from the
/// update, every section but the current mode's is folded, the counts and
/// widths are taken, the plugin id is kept and the pane renamed; later, a
/// change of mode folds the old mode's section, unfolds the new one's and
/// closes any search. Then the lines are dropped and the pane fitted.
pub open spec fn mode_update_done(
    a: &State,
    b: &State,
    info: ModeUpdate,
    ea: Seq<EffectView>,
    eb: Seq<EffectView>,
    r: bool,
) -> bool {
    if a.current_mode == info.mode && a.palette == Some(info.palette) && a.sections@.len() > 0 {
        !r && *b == *a && eb == ea
    } else {
        &&& r
        &&& b.current_mode == info.mode
        &&& b.palette == Some(info.palette)
        &&& b.lines@.len() == 0
        &&& b.modifier_style == a.modifier_style
        &&& b.rows == a.rows
        &&& b.cols == a.cols
        &&& b.initial_jump_done == a.initial_jump_done
        &&& b.cursor == a.cursor
        &&& b.scroll_offset == a.scroll_offset
        &&& b.section_header_indices == a.section_header_indices
        &&& if a.sections@.len() == 0 {
            let secs = section_views(b.sections@);
            &&& secs == sections_of(info.keybinds@, a.modifier_style)
            &&& b.collapsed@ == fold_others(a.collapsed@, secs, info.mode)
            &&& b.total_bindings == capped(binding_count(secs))
            &&& b.global_max_key == max_nat(widest(secs, true), 10)
            &&& b.global_max_action == max_nat(widest(secs, false), 10)
            &&& b.plugin_id == info.plugin_id
            &&& b.search_query == a.search_query
            &&& b.plugin_mode == a.plugin_mode
            &&& {
                let renamed = match info.plugin_id {
                    Some(pid) => ea.push(EffectView::RenamePane(pid, pane_name())),
                    None => ea,
                };
                eb == match fit_request(b) {
                    Some(e) => renamed.push(e),
                    None => renamed,
                }
            }
        } else {
            &&& b.sections == a.sections
            &&& b.total_bindings == a.total_bindings
            &&& b.global_max_key == a.global_max_key
            &&& b.global_max_action == a.global_max_action
            &&& b.plugin_id == a.plugin_id
            &&& if a.current_mode != info.mode {
                &&& b.collapsed@ == a.collapsed@.update(mode_rank(a.current_mode) as int, true).update(
                    mode_rank(info.mode) as int,
                    false,
                )
                &&& b.search_query@.len() == 0
                &&& b.plugin_mode == PluginMode::Browse
            } else {
                &&& b.collapsed == a.collapsed
                &&& b.search_query == a.search_query
                &&& b.plugin_mode == a.plugin_mode
            }
            &&& eb == match fit_request(b) {
                Some(e) => ea.push(e),
                None => ea,
            }
        }
    }
}

/// Whether `b` and `eb` are what an event makes of `a` and `ea`, and `r`
/// whether the panel must be drawn again: mode updates as
/// `mode_update_done` says; a key as `key_done` says, the lines dropped
/// when it did something; a mouse scroll moves the cursor by three
/// selectable lines and drops the lines; other events change nothing.
pub open spec fn event_done(
    event: Event,
    a: &State,
    b: &State,
    ea: Seq<EffectView>,
    eb: Seq<EffectView>,
    r: bool,
) -> bool {
    match event {
        Event::ModeUpdate(info) => mode_update_done(a, b, info, ea, eb, r),
        Event::Key(key) => exists|mid: State|
            key_done(key, a, &mid, ea, eb, r) && if r {
                invalidated(&mid, b)
            } else {
                *b == mid
            },
        Event::Mouse(MouseEvent::ScrollUp) => r && exists|mid: State|
            command_done(Command::Up(3), a, &mid, ea, eb) && invalidated(&mid, b),
        Event::Mouse(MouseEvent::ScrollDown) => r && exists|mid: State|
            command_done(Command::Down(3), a, &mid, ea, eb) && invalidated(&mid, b),
        _ => !r && *b == *a && eb == ea,
    }
}

impl State {
    /// Reads the keymap into sections the first time, and takes its counts
    /// and widths.
    fn load_keymap(&mut self, keybinds: &Keybinds)
        requires
            old(self).wf(),
            keymap_ok(keybinds@),
        ensures
            final(self).wf(),
            section_views(final(self).sections@) == sections_of(keybinds@, old(self).modifier_style),
            final(self).collapsed@ == fold_others(
                old(self).collapsed@,
                section_views(final(self).sections@),
                old(self).current_mode,
            ),
            final(self).total_bindings == capped(binding_count(section_views(final(self).sections@))),
            final(self).global_max_key == max_nat(widest(section_views(final(self).sections@), true), 10),
            final(self).global_max_action == max_nat(
                widest(section_views(final(self).sections@), false),
                10,
            ),
            final(self).current_mode == old(self).current_mode,
            final(self).palette == old(self).palette,
            final(self).modifier_style == old(self).modifier_style,
            final(self).plugin_id == old(self).plugin_id,
            final(self).plugin_mode == old(self).plugin_mode,
            final(self).cursor == old(self).cursor,
            final(self).scroll_offset == old(self).scroll_offset,
            final(self).search_query == old(self).search_query,
            final(self).rows == old(self).rows,
            final(self).cols == old(self).cols,
            final(self).lines == old(self).lines,
            final(self).section_header_indices == old(self).section_header_indices,
            final(self).initial_jump_done == old(self).initial_jump_done,
    {
        let sections = parse_sections(keybinds, &self.modifier_style);
        proof {
            lemma_sections_from_len(keybinds@, self.modifier_style, 0);
        }
        self.sections = sections;
        let ghost secs = section_views(self.sections@);
        let mut total: usize = 0;
        let mut max_k: usize = 0;
        let mut max_a: usize = 0;
        let mut i: usize = 0;
        while i < self.sections.len()
            invariant
                self.wf(),
                secs == section_views(self.sections@),
                secs == sections_of(keybinds@, old(self).modifier_style),
                i <= self.sections@.len(),
                self.collapsed@ == fold_others(old(self).collapsed@, secs.take(i as int), self.current_mode),
                total == capped(binding_count(secs.take(i as int))),
                max_k == widest(secs.take(i as int), true),
                max_a == widest(secs.take(i as int), false),
                self.current_mode == old(self).current_mode,
                self.palette == old(self).palette,
                self.modifier_style == old(self).modifier_style,
                self.plugin_id == old(self).plugin_id,
                self.plugin_mode == old(self).plugin_mode,
                self.cursor == old(self).cursor,
                self.scroll_offset == old(self).scroll_offset,
                self.search_query == old(self).search_query,
                self.rows == old(self).rows,
                self.cols == old(self).cols,
                self.lines == old(self).lines,
                self.section_header_indices == old(self).section_header_indices,
                self.initial_jump_done == old(self).initial_jump_done,
            decreases self.sections.len() - i,
        {
            assert(secs.take(i + 1).drop_last() =~= secs.take(i as int));
            assert(secs.take(i + 1).last() == self.sections@[i as int]@);
            let m = self.sections[i].mode;
            if m != self.current_mode {
                let r = m.rank();
                self.collapsed[r] = true;
            }
            let ghost bs = self.sections@[i as int]@.bindings;
            let ghost base = secs.take(i as int);
            let n = self.sections[i].bindings.len();
            let mut j: usize = 0;
            while j < n
                invariant
                    self.wf(),
                    secs == section_views(self.sections@),
                    i < self.sections@.len(),
                    bs == self.sections@[i as int]@.bindings,
                    n == bs.len(),
                    j <= n,
                    total == capped(binding_count(base) + j as nat),
                    max_k == max_nat(widest(base, true), widest_in(bs.take(j as int), true)),
                    max_a == max_nat(widest(base, false), widest_in(bs.take(j as int), false)),
                decreases n - j,
            {
                let b = &self.sections[i].bindings[j];
                assert(bs[j as int] == b@);
                assert(bs.take(j + 1).drop_last() =~= bs.take(j as int));
                total = if total < usize::MAX { total + 1 } else { total };
                let kl = b.key_label.as_str().unicode_len();
                let al = b.action_label.as_str().unicode_len();
                if kl > max_k {
                    max_k = kl;
                }
                if al > max_a {
                    max_a = al;
                }
                j = j + 1;
            }
            assert(bs.take(n as int) =~= bs);
            i = i + 1;
        }
        assert(secs.take(secs.len() as int) =~= secs);
        self.total_bindings = total;
        self.global_max_key = if max_k > 10 { max_k } else { 10 };
        self.global_max_action = if max_a > 10 { max_a } else { 10 };
    }

    /// Takes an event from the host, adds the requests it calls for, and
    /// tells whether the panel must be drawn again.
    pub fn update(&mut self, event: Event, effects: &mut Vec<Effect>) -> (r: bool)
        requires
            old(self).wf(),
            event_ok(event),
        ensures
            final(self).wf(),
            event_done(
                event,
                old(self),
                final(self),
                effect_views(old(effects)@),
                effect_views(final(effects)@),
                r,
            ),
    {
        match event {
            Event::ModeUpdate(info) => {
                let same_mode = self.current_mode == info.mode;
                let same_palette = match self.palette {
                    Some(p) => p == info.palette,
                    None => false,
                };
                if same_mode && same_palette && self.sections.len() > 0 {
                    return false;
                }
                let prev_mode = self.current_mode;
                self.current_mode = info.mode;
                self.palette = Some(info.palette);
                let first_load = self.sections.len() == 0;
                if first_load {
                    self.load_keymap(&info.keybinds);
                    self.plugin_id = info.plugin_id;
                    match info.plugin_id {
                        Some(pid) => {
                            let e = Effect::RenamePane { plugin_id: pid, name: owned("⌨ Keymap") };
                            proof {
                                lemma_effect_views_push(effects@, e);
                            }
                            effects.push(e);
                        },
                        None => {},
                    }
                }
                if !first_load && prev_mode != self.current_mode {
                    let pr = prev_mode.rank();
                    self.collapsed[pr] = true;
                    let cr = self.current_mode.rank();
                    self.collapsed[cr] = false;
                    self.search_query = String::new();
                    self.plugin_mode = PluginMode::Browse;
                }
                self.invalidate_lines();
                self.resize_to_fit(effects);
                true
            },
            Event::Key(key) => {
                let handled = self.handle_key(&key, effects);
                let ghost mid = *self;
                if handled {
                    self.invalidate_lines();
                    assert(invalidated(&mid, self));
                    true
                } else {
                    false
                }
            },
            Event::Mouse(mouse) => match mouse {
                MouseEvent::ScrollUp => {
                    self.move_cursor_up(3);
                    let ghost mid = *self;
                    assert(command_done(
                        Command::Up(3),
                        old(self),
                        &mid,
                        effect_views(old(effects)@),
                        effect_views(effects@),
                    ));
                    self.invalidate_lines();
                    assert(invalidated(&mid, self));
                    true
                },
                MouseEvent::ScrollDown => {
                    self.move_cursor_down(3);
                    let ghost mid = *self;
                    assert(command_done(
                        Command::Down(3),
                        old(self),
                        &mid,
                        effect_views(old(effects)@),
                        effect_views(effects@),
                    ));
                    self.invalidate_lines();
                    assert(invalidated(&mid, self));
                    true
                },
                MouseEvent::Other => false,
            },
            Event::Other => false,
        }
    }
}

/// The modifier style a configuration value asks for: "macos", "linux", or
/// the text style for anything else or nothing.
pub open spec fn style_for(setting: Option<Seq<char>>) -> ModifierStyle {
    match setting {
        Some(v) => if v == "macos"@ {
            ModifierStyle::MacOS
        } else if v == "linux"@ {
            ModifierStyle::Linux
        } else {
            ModifierStyle::Text
        },
        None => ModifierStyle::Text,
    }
}

/// The modifier style a configuration value asks for.
pub fn parse_modifier_style(setting: Option<&str>) -> (r: ModifierStyle)
    ensures
        r == style_for(match setting {
            Some(v) => Some(v@),
            None => None,
        }),
{
    match setting {
        Some(v) => {
            if same_text(v, "macos") {
                ModifierStyle::MacOS
            } else if same_text(v, "linux") {
                ModifierStyle::Linux
            } else {
                ModifierStyle::Text
            }
        },
        None => ModifierStyle::Text,
    }
}

impl State {
    /// The state before any event: normal mode, no keymap, no palette, the
    /// text style, nothing folded, nothing laid out.
    pub fn new() -> (s: State)
        ensures
            s.wf(),
            s.current_mode == Mode::Normal,
            s.sections@.len() == 0,
            s.palette is None,
            s.modifier_style == ModifierStyle::Text,
            s.total_bindings == 0,
            s.global_max_key == 0,
            s.global_max_action == 0,
            s.plugin_id is None,
            s.plugin_mode == PluginMode::Browse,
            s.cursor == 0,
            s.scroll_offset == 0,
            s.collapsed@ == Seq::new(MODE_COUNT as nat, |i: int| false),
            s.search_query@.len() == 0,
            s.rows == 0,
            s.cols == 0,
            s.lines@.len() == 0,
            s.section_header_indices@.len() == 0,
            !s.initial_jump_done,
    {
        let mut collapsed: Vec<bool> = Vec::new();
        let mut i: usize = 0;
        while i < MODE_COUNT
            invariant
                i <= MODE_COUNT,
                collapsed@ == Seq::new(i as nat, |j: int| false),
            decreases MODE_COUNT - i,
        {
            collapsed.push(false);
            i = i + 1;
            assert(collapsed@ =~= Seq::new(i as nat, |j: int| false));
        }
        State {
            current_mode: Mode::Normal,
            sections: Vec::new(),
            palette: None,
            modifier_style: ModifierStyle::Text,
            total_bindings: 0,
            global_max_key: 0,
            global_max_action: 0,
            plugin_id: None,
            plugin_mode: PluginMode::Browse,
            cursor: 0,
            scroll_offset: 0,
            collapsed,
            search_query: String::new(),
            rows: 0,
            cols: 0,
            lines: Vec::new(),
            section_header_indices: Vec::new(),
            initial_jump_done: false,
        }
    }

    /// Takes the modifier style from the configuration value.
    pub fn load(&mut self, modifier_style: Option<&str>)
        requires
            old(self).wf(),
        ensures
            final(self).wf(),
            *final(self) == (State {
                modifier_style: style_for(match modifier_style {
                    Some(v) => Some(v@),
                    None => None,
                }),
                ..*old(self)
            }),
    {
        self.modifier_style = parse_modifier_style(modifier_style);
    }
}

impl Default for State {
    /// The state before any event (see `State::new`).
    fn default() -> (s: State)
        ensures
            s.wf(),
            s.current_mode == Mode::Normal,
            s.sections@.len() == 0,
            s.palette is None,
            s.modifier_style == ModifierStyle::Text,
            s.total_bindings == 0,
            s.global_max_key == 0,
            s.global_max_action == 0,
            s.plugin_id is None,
            s.plugin_mode == PluginMode::Browse,
            s.cursor == 0,
            s.scroll_offset == 0,
            s.collapsed@ == Seq::new(MODE_COUNT as nat, |i: int| false),
            s.search_query@.len() == 0,
            s.rows == 0,
            s.cols == 0,
            s.lines@.len() == 0,
            s.section_header_indices@.len() == 0,
            !s.initial_jump_done,
    {
        State::new()
    }
}

} // verus!
