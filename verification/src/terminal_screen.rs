use vstd::prelude::*;
use crate::app::Rgb;
use crate::compositor::{DrawCmd, GraphicalCompositor, apply_ops, cmds_fit, cmd_fits, sane_frame};
use crate::notepad::{chars_fitting, lines_fitting, max_scroll_of, settle_scroll};
use crate::terminal::{Line, TerminalApp, green, white, lines_of, output_rows, rows_of, screen_rows, same_state};
use crate::text::chars_of;
use crate::textflow::{Area, Flow, flow_text, flow_text_exec, flow_fits, next_spot, row_shown, row_y, x_limit};

verus! {

/// The text area of the terminal in a window at `(x, y)`, `w` by `h`
/// pixels, with 10 pixels of padding, scrolled down `start` rows.
pub open spec fn terminal_area(x: usize, y: usize, w: usize, h: usize, start: usize) -> Area {
    Area {
        left: (x + 10) as usize,
        right: (x + w - 10) as usize,
        top: (y + 10) as usize,
        bottom: (y + h - 10) as usize,
        start,
    }
}

/// The flow at the start of a new line of text.
pub open spec fn new_line(a: Area, f: Flow) -> Flow {
    Flow { x: a.left as int, row: f.row, cmds: f.cmds }
}

/// The flow after the output lines: each starts a row of its own.
pub open spec fn flow_lines(a: Area, f: Flow, ls: Seq<Line>) -> Flow
    decreases ls.len(),
{
    if ls.len() == 0 {
        f
    } else {
        let g = flow_text(a, new_line(a, flow_lines(a, f, ls.drop_last())), ls.last().0, ls.last().1);
        Flow { x: g.x, row: g.row + 1, cmds: g.cmds }
    }
}

/// The commands with the cursor block added at the next glyph's place.
pub open spec fn with_cursor(a: Area, f: Flow) -> Seq<DrawCmd> {
    let (x, row) = next_spot(a, f);
    if row_shown(a, row) {
        f.cmds.push(DrawCmd::Rect { x: x as usize, y: row_y(a, row) as usize, w: 8, h: 10, color: (0, 255, 0) })
    } else {
        f.cmds
    }
}

/// What the terminal draws in a window at `(x, y)`, `w` by `h` pixels: a
/// black background, the output lines in their colors wrapped at the right
/// edge, then the prompt "> " in green and the typed text in white, and the
/// green cursor block when it is visible; rows above the scroll position
/// and rows that do not fit are left out.
pub open spec fn terminal_screen(t: TerminalApp, x: usize, y: usize, w: usize, h: usize) -> Seq<DrawCmd> {
    let a = terminal_area(x, y, w, h, t.scroll() as usize);
    let start = Flow { x: a.left as int, row: 0, cmds: seq![DrawCmd::Rect { x, y, w, h, color: (0, 0, 0) }] };
    let out = flow_lines(a, start, t.lines());
    let prompt = flow_text(a, new_line(a, out), "> "@, green());
    let typed = flow_text(a, prompt, t.input(), white());
    if t.cursor() { with_cursor(a, typed) } else { typed.cmds }
}

/// Characters of the lines, each line counted one more.
pub open spec fn text_total(ls: Seq<Line>) -> nat
    decreases ls.len(),
{
    if ls.len() == 0 { 0 } else { text_total(ls.drop_last()) + ls.last().0.len() + 1 }
}

/// The window's coordinates, and the rows the text can reach, stay within
/// `usize`.
pub open spec fn terminal_fits(t: TerminalApp, x: usize, y: usize, w: usize, h: usize) -> bool {
    &&& x + w >= 10
    &&& y + h >= 10
    &&& x + w + 26 <= usize::MAX
    &&& x + 26 <= usize::MAX
    &&& y + h <= usize::MAX
    &&& y + 10 + 12 * (text_total(t.lines()) + t.input().len() + 3) + 12 <= usize::MAX
}

proof fn lemma_text_total_prefix(ls: Seq<Line>, k: int)
    requires
        0 <= k <= ls.len(),
    ensures
        text_total(ls.take(k)) <= text_total(ls),
    decreases ls.len() - k,
{
    if k < ls.len() {
        assert(ls.take(k + 1).drop_last() =~= ls.take(k));
        lemma_text_total_prefix(ls, k + 1);
    } else {
        assert(ls.take(k) =~= ls);
    }
}

proof fn lemma_rows_bound(ls: Seq<Line>, width: nat)
    requires
        width >= 1,
    ensures
        output_rows(ls, width) <= text_total(ls),
    decreases ls.len(),
{
    if ls.len() > 0 {
        lemma_rows_bound(ls.drop_last(), width);
        lemma_rows_of_bound(ls.last().0.len(), width);
    }
}

proof fn lemma_rows_of_bound(n: nat, width: nat)
    requires
        width >= 1,
    ensures
        rows_of(n, width) <= n + 1,
{
    if n > 0 {
        assert((n + width - 1) / (width as int) <= n) by (nonlinear_arith)
            requires n >= 1, width >= 1;
    }
}

/// The commands that draw the terminal (see `terminal_screen`).
pub fn terminal_layout(t: &TerminalApp, x: usize, y: usize, w: usize, h: usize) -> (cmds: Vec<DrawCmd>)
    requires
        terminal_fits(*t, x, y, w, h),
        t.scroll() >= 0,
    ensures
        cmds@ == terminal_screen(*t, x, y, w, h),
        cmds_fit(cmds@),
{
    let a = Area { left: x + 10, right: x + w - 10, top: y + 10, bottom: y + h - 10, start: t.scroll_y() as usize };
    assert(a == terminal_area(x, y, w, h, t.scroll() as usize));
    let mut cmds: Vec<DrawCmd> = Vec::new();
    cmds.push(DrawCmd::Rect { x, y, w, h, color: (0, 0, 0) });
    let ghost start = Flow { x: a.left as int, row: 0, cmds: cmds@ };
    assert(cmds_fit(cmds@)) by {
        assert(cmd_fits(cmds@[0]));
    }
    let lines = t.output();
    let ghost ls = t.lines();
    let mut cur_x: usize = a.left;
    let mut row: usize = 0;
    let mut k: usize = 0;
    proof { assert(ls.take(0) =~= Seq::<Line>::empty()); }
    while k < lines.len()
        invariant
            k <= lines@.len(),
            lines_of(lines@) == ls,
            ls == t.lines(),
            a == terminal_area(x, y, w, h, t.scroll() as usize),
            terminal_fits(*t, x, y, w, h),
            flow_lines(a, start, ls.take(k as int)) == (Flow { x: cur_x as int, row: row as int, cmds: cmds@ }),
            row <= text_total(ls.take(k as int)),
            a.left <= cur_x <= x_limit(a) + 8,
            cmds_fit(cmds@),
            t.scroll() >= 0,
        decreases lines.len() - k,
    {
        proof {
            lemma_text_total_prefix(ls, k + 1);
            assert(ls.take(k + 1).drop_last() =~= ls.take(k as int));
            assert(ls.take(k + 1).last() == ls[k as int]);
        }
        let text = chars_of(lines[k].0.as_str());
        let color = lines[k].1;
        assert(text@ == ls[k as int].0 && color == ls[k as int].1);
        proof {
            let n = row + text@.len();
            let total = text_total(ls) + t.input().len() + 3;
            assert(12 * n <= 12 * total) by (nonlinear_arith)
                requires n <= total;
        }
        cur_x = a.left;
        flow_text_exec(a, &mut cur_x, &mut row, &mut cmds, &text, color);
        row = row + 1;
        k = k + 1;
    }
    assert(ls.take(k as int) =~= ls);
    let prompt = chars_of("> ");
    proof {
        reveal_strlit("> ");
        let n = row + 2 + t.input().len();
        let total = text_total(ls) + t.input().len() + 3;
        assert(12 * n <= 12 * total) by (nonlinear_arith)
            requires n <= total;
    }
    cur_x = a.left;
    flow_text_exec(a, &mut cur_x, &mut row, &mut cmds, &prompt, (0, 255, 0));
    let typed = chars_of(t.input_buffer().as_str());
    flow_text_exec(a, &mut cur_x, &mut row, &mut cmds, &typed, (255, 255, 255));
    if t.cursor_visible() {
        let ghost f = Flow { x: cur_x as int, row: row as int, cmds: cmds@ };
        if cur_x + 8 > a.right {
            cur_x = a.left;
            row = row + 1;
        }
        if row >= a.start {
            let cy = a.top + (row - a.start) * 12;
            if cy + 12 <= a.bottom {
                let ghost before = cmds@;
                cmds.push(DrawCmd::Rect { x: cur_x, y: cy, w: 8, h: 10, color: (0, 255, 0) });
                assert forall|i: int| 0 <= i < cmds@.len() implies cmd_fits(#[trigger] cmds@[i]) by {
                    if i < before.len() {
                        assert(cmds@[i] == before[i]);
                    }
                }
            }
        }
        assert(cmds@ =~= with_cursor(a, f));
    }
    cmds
}

impl TerminalApp {
    /// Draws the terminal into a window at `(x, y)`, `width` by `height`
    /// pixels, after fitting the scroll position to it (see `fit_scroll`).
    pub fn draw(&mut self, compositor: &mut GraphicalCompositor, x: usize, y: usize, width: usize, height: usize)
        requires
            sane_frame(old(compositor).frame()),
            chars_fitting(width) > 0,
            terminal_fits(*old(self), x, y, width, height),
        ensures
            final(self).scroll() == settle_scroll(old(self).scroll(),
                max_scroll_of(screen_rows(*old(self), chars_fitting(width)), lines_fitting(height))),
            final(self).lines() == old(self).lines(),
            same_state(*old(self), *final(self)),
            final(compositor).pixels() == apply_ops(old(compositor).pixels(), old(compositor).frame(),
                terminal_screen(*final(self), x, y, width, height)),
            final(compositor).frame() == old(compositor).frame(),
            final(compositor).pointer() == old(compositor).pointer(),
            final(compositor).drag_state() == old(compositor).drag_state(),
    {
        proof {
            lemma_rows_bound(self.lines(), chars_fitting(width));
        }
        let _max_scroll = self.fit_scroll(width, height);
        let cmds = terminal_layout(self, x, y, width, height);
        compositor.paint(&cmds);
    }
}

} // verus!
