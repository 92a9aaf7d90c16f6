use vstd::prelude::*;
use crate::app::Rgb;
use crate::compositor::{DrawCmd, cmd_fits, cmds_fit};

verus! {

/// Where wrapped text goes: glyphs start at `left`, a glyph that would end
/// past `right` moves to the next row, rows are 12 pixels apart from `top`,
/// rows above `start` are scrolled away and a row is shown only when it
/// ends by `bottom`.
#[derive(Clone, Copy)]
pub struct Area {
    pub left: usize,
    pub right: usize,
    pub top: usize,
    pub bottom: usize,
    pub start: usize,
}

/// Text being laid out: the next glyph's x, its row, and the commands so far.
pub struct Flow {
    pub x: int,
    pub row: int,
    pub cmds: Seq<DrawCmd>,
}

/// The y of a row on the screen.
pub open spec fn row_y(a: Area, row: int) -> int {
    a.top + (row - a.start) * 12
}

/// Whether a row is on the screen.
pub open spec fn row_shown(a: Area, row: int) -> bool {
    row >= a.start && row_y(a, row) + 12 <= a.bottom
}

/// Where the next glyph goes: its x and row, wrapping when it would end past
/// the right edge.
pub open spec fn next_spot(a: Area, f: Flow) -> (int, int) {
    if f.x + 8 > a.right { (a.left as int, f.row + 1) } else { (f.x, f.row) }
}

/// The flow after one glyph.
pub open spec fn flow_char(a: Area, f: Flow, c: char, color: Rgb) -> Flow {
    let (x, row) = next_spot(a, f);
    Flow {
        x: x + 8,
        row,
        cmds: if row_shown(a, row) {
            f.cmds.push(DrawCmd::Glyph { x: x as usize, y: row_y(a, row) as usize, c, color })
        } else {
            f.cmds
        },
    }
}

/// The flow after the glyphs of `s`.
pub open spec fn flow_text(a: Area, f: Flow, s: Seq<char>, color: Rgb) -> Flow
    decreases s.len(),
{
    if s.len() == 0 {
        f
    } else {
        flow_char(a, flow_text(a, f, s.drop_last(), color), s.last(), color)
    }
}

/// The largest x a glyph can start at.
pub open spec fn x_limit(a: Area) -> int {
    if a.right > a.left { a.right as int } else { a.left as int }
}

/// The text fits the machine: x and the rows reached stay within `usize`.
pub open spec fn flow_fits(a: Area, x: int, row: int, n: int) -> bool {
    &&& a.left as int <= x <= x_limit(a) + 8
    &&& x_limit(a) + 16 <= usize::MAX
    &&& a.top + 12 * (row + n) + 12 <= usize::MAX
    &&& a.bottom <= usize::MAX
}

proof fn lemma_flow_char(a: Area, f: Flow, c: char, color: Rgb, n: int)
    requires
        n >= 1,
        flow_fits(a, f.x, f.row, n),
        cmds_fit(f.cmds),
        f.row >= 0,
    ensures
        ({
            let g = flow_char(a, f, c, color);
            &&& flow_fits(a, g.x, g.row, n - 1)
            &&& cmds_fit(g.cmds)
            &&& f.row <= g.row <= f.row + 1
        }),
{
    let g = flow_char(a, f, c, color);
    let (x, row) = next_spot(a, f);
    if row_shown(a, row) {
        assert(row_y(a, row) <= a.top + 12 * row) by (nonlinear_arith)
            requires row >= a.start, a.start >= 0, row_y(a, row) == a.top + (row - a.start) * 12;
        assert forall|i: int| 0 <= i < g.cmds.len() implies cmd_fits(#[trigger] g.cmds[i]) by {
            if i < f.cmds.len() {
                assert(g.cmds[i] == f.cmds[i]);
            }
        }
    }
}

/// Lays out the glyphs of `s` in the color `color`, from `*x` on row `*row`,
/// appending the commands for the glyphs that are shown.
pub fn flow_text_exec(a: Area, x: &mut usize, row: &mut usize, cmds: &mut Vec<DrawCmd>, s: &Vec<char>, color: Rgb)
    requires
        flow_fits(a, *old(x) as int, *old(row) as int, s@.len() as int),
        cmds_fit(old(cmds)@),
    ensures
        flow_text(a, Flow { x: *old(x) as int, row: *old(row) as int, cmds: old(cmds)@ }, s@, color)
            == (Flow { x: *final(x) as int, row: *final(row) as int, cmds: final(cmds)@ }),
        flow_fits(a, *final(x) as int, *final(row) as int, 0),
        *old(row) <= *final(row) <= *old(row) + s@.len(),
        cmds_fit(final(cmds)@),
{
    let ghost f0 = Flow { x: *x as int, row: *row as int, cmds: cmds@ };
    let mut i: usize = 0;
    while i < s.len()
        invariant
            i <= s@.len(),
            f0 == (Flow { x: *old(x) as int, row: *old(row) as int, cmds: old(cmds)@ }),
            flow_text(a, f0, s@.take(i as int), color) == (Flow { x: *x as int, row: *row as int, cmds: cmds@ }),
            flow_fits(a, *x as int, *row as int, s@.len() - i),
            *old(row) <= *row <= *old(row) + i,
            cmds_fit(cmds@),
        decreases s.len() - i,
    {
        let ghost f = Flow { x: *x as int, row: *row as int, cmds: cmds@ };
        proof {
            assert(s@.take(i + 1).drop_last() =~= s@.take(i as int));
            assert(s@.take(i + 1).last() == s@[i as int]);
            lemma_flow_char(a, f, s@[i as int], color, s@.len() - i);
        }
        let c = s[i];
        if *x + 8 > a.right {
            *x = a.left;
            *row = *row + 1;
        }
        if *row >= a.start {
            let y = a.top + (*row - a.start) * 12;
            if y + 12 <= a.bottom {
                cmds.push(DrawCmd::Glyph { x: *x, y, c, color });
            }
        }
        *x = *x + 8;
        proof {
            let g = flow_char(a, f, c, color);
            assert(g.cmds =~= cmds@);
        }
        i = i + 1;
    }
    assert(s@.take(i as int) =~= s@);
}

} // verus!
