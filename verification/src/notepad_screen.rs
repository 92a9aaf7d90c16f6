use vstd::prelude::*;
use crate::app::Rgb;
use crate::compositor::{DrawCmd, GraphicalCompositor, apply_ops, cmds_fit, cmd_fits, sane_frame};
use crate::notepad::{NotepadApp, chars_fitting, lines_fitting, max_scroll_of, settle_scroll, wrap_state, lemma_wrap_state_bound};
use crate::text::chars_of;
use crate::textflow::{Area, Flow, flow_fits, row_shown, row_y, x_limit};

verus! {

/// The notepad's flow after one character: a newline ends the row; another
/// character moves to the next row when it would end past the right edge,
/// and is drawn when its row is shown. A character on a row below the
/// bottom is neither drawn nor moves the place of the next one.
pub open spec fn note_char(a: Area, f: Flow, c: char, color: Rgb) -> Flow {
    let nl = c == '\n';
    let wrap = !nl && f.x + 8 > a.right;
    let x = if wrap { a.left as int } else { f.x };
    let row = if wrap { f.row + 1 } else { f.row };
    let drawn = row >= a.start && row_y(a, row) + 12 <= a.bottom && !nl;
    let moved = if row >= a.start { drawn } else { !nl };
    let cmds = if drawn {
        f.cmds.push(DrawCmd::Glyph { x: x as usize, y: row_y(a, row) as usize, c, color })
    } else {
        f.cmds
    };
    if nl {
        Flow { x: a.left as int, row: row + 1, cmds }
    } else {
        Flow { x: if moved { x + 8 } else { x }, row, cmds }
    }
}

/// The notepad's flow after the characters of `s`.
pub open spec fn note_text(a: Area, f: Flow, s: Seq<char>, color: Rgb) -> Flow
    decreases s.len(),
{
    if s.len() == 0 { f } else { note_char(a, note_text(a, f, s.drop_last(), color), s.last(), color) }
}

/// The text area of the notepad in a window at `(x, y)`, `w` by `h`
/// pixels: 10 pixels of padding, and 10 more on the right for the scroll
/// bar.
pub open spec fn notepad_area(x: usize, y: usize, w: usize, h: usize, start: usize) -> Area {
    Area {
        left: (x + 10) as usize,
        right: (x + (if w >= 10 { w - 10 } else { 0 }) - 10) as usize,
        top: (y + 10) as usize,
        bottom: (y + h - 10) as usize,
        start,
    }
}

/// The background and text colors, dark or light.
pub open spec fn notepad_colors(dark: bool) -> (Rgb, Rgb) {
    if dark { ((30, 30, 35), (220, 220, 220)) } else { ((255, 255, 255), (0, 0, 0)) }
}

/// What the notepad draws in a window at `(x, y)`, `w` by `h` pixels: the
/// background, the text wrapped at the right edge from the scroll position
/// on, and the cursor block after the text when it is visible and its row is
/// shown.
pub open spec fn notepad_screen(n: NotepadApp, dark: bool, x: usize, y: usize, w: usize, h: usize) -> Seq<DrawCmd> {
    let (bg, fg) = notepad_colors(dark);
    let a = notepad_area(x, y, w, h, n.scroll() as usize);
    let start = Flow { x: a.left as int, row: 0, cmds: seq![DrawCmd::Rect { x, y, w, h, color: bg }] };
    let f = note_text(a, start, n.text_view(), fg);
    if n.cursor() && row_shown(a, f.row) {
        f.cmds.push(DrawCmd::Rect { x: f.x as usize, y: row_y(a, f.row) as usize, w: 8, h: 10, color: fg })
    } else {
        f.cmds
    }
}

/// The window's coordinates, and the rows the text can reach, stay within
/// `usize`.
pub open spec fn notepad_fits(n: NotepadApp, x: usize, y: usize, w: usize, h: usize) -> bool {
    &&& x + (if w >= 10 { w - 10 } else { 0 }) >= 10
    &&& y + h >= 10
    &&& x + w + 26 <= usize::MAX
    &&& x + 26 <= usize::MAX
    &&& y + h <= usize::MAX
    &&& y + 10 + 12 * (n.text_view().len() + 1) + 12 <= usize::MAX
}

proof fn lemma_note_char(a: Area, f: Flow, c: char, color: Rgb, n: int)
    requires
        n >= 1,
        flow_fits(a, f.x, f.row, n),
        cmds_fit(f.cmds),
        f.row >= 0,
    ensures
        ({
            let g = note_char(a, f, c, color);
            &&& flow_fits(a, g.x, g.row, n - 1)
            &&& cmds_fit(g.cmds)
            &&& f.row <= g.row <= f.row + 1
        }),
{
    let g = note_char(a, f, c, color);
    let nl = c == '\n';
    let wrap = !nl && f.x + 8 > a.right;
    let row = if wrap { f.row + 1 } else { f.row };
    if row >= a.start {
        assert(row_y(a, row) <= a.top + 12 * row) by (nonlinear_arith)
            requires row >= a.start, a.start >= 0, row_y(a, row) == a.top + (row - a.start) * 12;
    }
    assert forall|i: int| 0 <= i < g.cmds.len() implies cmd_fits(#[trigger] g.cmds[i]) by {
        if i < f.cmds.len() {
            assert(g.cmds[i] == f.cmds[i]);
        }
    }
}

/// The commands that draw the notepad (see `notepad_screen`).
pub fn notepad_layout(n: &NotepadApp, dark: bool, x: usize, y: usize, w: usize, h: usize) -> (cmds: Vec<DrawCmd>)
    requires
        notepad_fits(*n, x, y, w, h),
        n.scroll() >= 0,
    ensures
        cmds@ == notepad_screen(*n, dark, x, y, w, h),
        cmds_fit(cmds@),
{
    let (bg, fg): (Rgb, Rgb) = if dark { ((30, 30, 35), (220, 220, 220)) } else { ((255, 255, 255), (0, 0, 0)) };
    let content_width = w.saturating_sub(10);
    let a = Area { left: x + 10, right: x + content_width - 10, top: y + 10, bottom: y + h - 10, start: n.scroll_y() as usize };
    assert(a == notepad_area(x, y, w, h, n.scroll() as usize));
    let mut cmds: Vec<DrawCmd> = Vec::new();
    cmds.push(DrawCmd::Rect { x, y, w, h, color: bg });
    assert(cmds_fit(cmds@)) by {
        assert(cmd_fits(cmds@[0]));
    }
    let ghost f0 = Flow { x: a.left as int, row: 0, cmds: cmds@ };
    let s = chars_of(n.text().as_str());
    let mut cur_x: usize = a.left;
    let mut row: usize = 0;
    let mut i: usize = 0;
    while i < s.len()
        invariant
            i <= s@.len(),
            s@ == n.text_view(),
            a == notepad_area(x, y, w, h, n.scroll() as usize),
            notepad_fits(*n, x, y, w, h),
            note_text(a, f0, s@.take(i as int), fg) == (Flow { x: cur_x as int, row: row as int, cmds: cmds@ }),
            row <= i,
            a.left <= cur_x <= x_limit(a) + 8,
            cmds_fit(cmds@),
        decreases s.len() - i,
    {
        let ghost f = Flow { x: cur_x as int, row: row as int, cmds: cmds@ };
        proof {
            assert(s@.take(i + 1).drop_last() =~= s@.take(i as int));
            assert(s@.take(i + 1).last() == s@[i as int]);
            let m = row + s@.len() - i;
            assert(12 * m <= 12 * (s@.len() + 1)) by (nonlinear_arith)
                requires m <= s@.len() + 1;
            lemma_note_char(a, f, s@[i as int], fg, s@.len() - i);
        }
        let c = s[i];
        let is_newline = c == '\n';
        if !is_newline && cur_x + 8 > a.right {
            row = row + 1;
            cur_x = a.left;
        }
        if row >= a.start {
            let cur_y = a.top + (row - a.start) * 12;
            if cur_y + 12 <= a.bottom && !is_newline {
                cmds.push(DrawCmd::Glyph { x: cur_x, y: cur_y, c, color: fg });
                cur_x = cur_x + 8;
            }
        } else if !is_newline {
            cur_x = cur_x + 8;
        }
        if is_newline {
            row = row + 1;
            cur_x = a.left;
        }
        proof {
            assert(cmds@ =~= note_char(a, f, c, fg).cmds);
        }
        i = i + 1;
    }
    assert(s@.take(i as int) =~= s@);
    if n.cursor_visible() && row >= a.start {
        proof {
            let m = row;
            assert(12 * m <= 12 * (s@.len() + 1)) by (nonlinear_arith)
                requires m <= s@.len() + 1;
        }
        let cur_y = a.top + (row - a.start) * 12;
        if cur_y + 12 <= a.bottom {
            let ghost before = cmds@;
            cmds.push(DrawCmd::Rect { x: cur_x, y: cur_y, w: 8, h: 10, color: fg });
            assert forall|j: int| 0 <= j < cmds@.len() implies cmd_fits(#[trigger] cmds@[j]) by {
                if j < before.len() {
                    assert(cmds@[j] == before[j]);
                }
            }
        }
    }
    cmds
}

impl NotepadApp {
    /// Draws the notepad into a window at `(x, y)`, `width` by `height`
    /// pixels, in the dark or light theme, after fitting the scroll position
    /// to it (see `fit_scroll`).
    pub fn draw(&mut self, compositor: &mut GraphicalCompositor, dark: bool, x: usize, y: usize, width: usize, height: usize)
        requires
            sane_frame(old(compositor).frame()),
            notepad_fits(*old(self), x, y, width, height),
        ensures
            ({
                let cpl = chars_fitting((if width >= 10 { width - 10 } else { 0 }) as usize);
                let total = wrap_state(old(self).text_view(), cpl).0;
                final(self).scroll() == settle_scroll(old(self).scroll(), max_scroll_of(total, lines_fitting(height)))
            }),
            final(self).text_view() == old(self).text_view(),
            final(self).cursor() == old(self).cursor(),
            final(self).tick_count() == old(self).tick_count(),
            final(compositor).pixels() == apply_ops(old(compositor).pixels(), old(compositor).frame(),
                notepad_screen(*final(self), dark, x, y, width, height)),
            final(compositor).frame() == old(compositor).frame(),
            final(compositor).pointer() == old(compositor).pointer(),
            final(compositor).drag_state() == old(compositor).drag_state(),
    {
        proof {
            let cpl = chars_fitting((if width >= 10 { width - 10 } else { 0 }) as usize);
            lemma_wrap_state_bound(self.text_view(), cpl);
        }
        let _max_scroll = self.fit_scroll(width, height);
        let cmds = notepad_layout(self, dark, x, y, width, height);
        compositor.paint(&cmds);
    }
}

} // verus!
