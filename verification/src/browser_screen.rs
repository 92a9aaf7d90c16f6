use vstd::prelude::*;
use crate::app::Rgb;
use crate::browser::{BrowserApp, HtmlElement, TextStyle, element_view, elements_view};
use crate::compositor::{
    DrawCmd, GraphicalCompositor, apply_ops, cmds_fit, sane_frame, push_rect, push_text, rect_cmd, text_cmds,
};

verus! {

/// The page being laid out: where the next element goes and the commands
/// so far.
pub struct PageFlow {
    pub y: int,
    pub cmds: Seq<DrawCmd>,
}

/// The color of an element's text and the room it takes below.
pub open spec fn element_look(style: TextStyle) -> (Rgb, int) {
    match style {
        TextStyle::Heading => ((50, 50, 150), 30),
        TextStyle::Plain => ((0, 0, 0), 20),
        TextStyle::Link => ((0, 0, 255), 20),
    }
}

/// One element: drawn at the current height when that lies between `top`
/// and `bottom`; above `top` it is skipped without taking room, and below
/// `bottom` nothing more is drawn.
pub open spec fn page_step(p: PageFlow, e: (TextStyle, Seq<char>), x: usize, top: int, bottom: int) -> PageFlow {
    if p.y > bottom || p.y < top {
        p
    } else {
        let (color, room) = element_look(e.0);
        PageFlow { y: p.y + room, cmds: p.cmds + text_cmds((x + 20) as usize, p.y as usize, e.1, color) }
    }
}

/// The elements one after the other.
pub open spec fn page_flow(p: PageFlow, es: Seq<(TextStyle, Seq<char>)>, x: usize, top: int, bottom: int) -> PageFlow
    decreases es.len(),
{
    if es.len() == 0 {
        p
    } else {
        page_flow(page_step(p, es[0], x, top, bottom), es.drop_first(), x, top, bottom)
    }
}

/// What the browser draws in a window at `(x, y)`, `w` by `h` pixels: the
/// toolbar with the address, the white page, and the elements from 10
/// pixels below the page's top, moved up by the scroll position.
pub open spec fn browser_screen(b: BrowserApp, x: usize, y: usize, w: usize, h: usize) -> Seq<DrawCmd> {
    let top = y + 40;
    let ch = if h >= 40 { h - 40 } else { 0 };
    let c = Seq::<DrawCmd>::empty().push(rect_cmd(x, y, w, 40, (200, 200, 200)));
    let c = c.push(rect_cmd((x + 10) as usize, (y + 10) as usize, (w - 20) as usize, 20, (255, 255, 255)));
    let c = c + text_cmds((x + 15) as usize, (y + 16) as usize, b.url(), (0, 0, 0));
    let c = c.push(rect_cmd(x, top as usize, w, ch as usize, (255, 255, 255)));
    page_flow(PageFlow { y: top + 10 - b.scroll(), cmds: c }, b.elements(), x, top, top + ch).cmds
}

/// The window, the address and every element's text stay within the
/// machine's ranges, and the window is wide enough for the address bar.
pub open spec fn browser_fits(b: BrowserApp, x: usize, y: usize, w: usize, h: usize) -> bool {
    &&& w >= 20
    &&& x + w + 20 <= usize::MAX
    &&& y + h + 100 <= isize::MAX
    &&& y + 50 - b.scroll() <= isize::MAX
    &&& x + 15 + 8 * b.url().len() + 8 <= usize::MAX
    &&& forall|i: int| 0 <= i < b.elements().len() ==> x + 28 + 8 * (#[trigger] b.elements()[i]).1.len() <= usize::MAX
}

proof fn lemma_page_flow_step(p: PageFlow, es: Seq<(TextStyle, Seq<char>)>, i: int, x: usize, top: int, bottom: int)
    requires
        0 <= i < es.len(),
    ensures
        page_flow(p, es.skip(i), x, top, bottom)
            == page_flow(page_step(p, es[i], x, top, bottom), es.skip(i + 1), x, top, bottom),
{
    assert(es.skip(i).drop_first() =~= es.skip(i + 1));
    assert(es.skip(i)[0] == es[i]);
}

proof fn lemma_page_flow_below(p: PageFlow, es: Seq<(TextStyle, Seq<char>)>, x: usize, top: int, bottom: int)
    requires
        p.y > bottom,
    ensures
        page_flow(p, es, x, top, bottom) == p,
    decreases es.len(),
{
    if es.len() > 0 {
        lemma_page_flow_below(p, es.drop_first(), x, top, bottom);
    }
}

/// The commands that draw the browser (see `browser_screen`).
pub fn browser_layout(b: &BrowserApp, x: usize, y: usize, w: usize, h: usize) -> (cmds: Vec<DrawCmd>)
    requires
        browser_fits(*b, x, y, w, h),
    ensures
        cmds@ == browser_screen(*b, x, y, w, h),
        cmds_fit(cmds@),
{
    let mut cmds: Vec<DrawCmd> = Vec::new();
    assert(cmds_fit(cmds@));
    push_rect(&mut cmds, x, y, w, 40, (200, 200, 200));
    push_rect(&mut cmds, x + 10, y + 10, w - 20, 20, (255, 255, 255));
    push_text(&mut cmds, x + 15, y + 16, b.url_bar().as_str(), (0, 0, 0));
    let top = y + 40;
    let ch = height_below(h);
    push_rect(&mut cmds, x, top, w, ch, (255, 255, 255));
    let bottom: isize = top as isize + ch as isize;
    let els = b.html_elements();
    let ghost es = b.elements();
    let ghost init = PageFlow { y: top + 10 - b.scroll(), cmds: cmds@ };
    let mut draw_y: isize = top as isize + 10 - b.scroll_y();
    let mut i: usize = 0;
    assert(es.skip(0) =~= es);
    assert(es.skip(es.len() as int) =~= Seq::<(TextStyle, Seq<char>)>::empty());
    while i < els.len()
        invariant
            i <= els@.len(),
            elements_view(els@) == es,
            es == b.elements(),
            browser_fits(*b, x, y, w, h),
            top == y + 40,
            bottom == top + ch,
            ch <= h,
            draw_y <= init.y || draw_y <= bottom + 30,
            init.y == top + 10 - b.scroll(),
            page_flow(PageFlow { y: draw_y as int, cmds: cmds@ }, es.skip(i as int), x, top as int, bottom as int)
                == page_flow(init, es, x, top as int, bottom as int),
            cmds_fit(cmds@),
            es.skip(es.len() as int) == Seq::<(TextStyle, Seq<char>)>::empty(),
        ensures
            cmds@ == page_flow(init, es, x, top as int, bottom as int).cmds,
            cmds_fit(cmds@),
        decreases els.len() - i,
    {
        proof {
            lemma_page_flow_step(PageFlow { y: draw_y as int, cmds: cmds@ }, es, i as int, x, top as int, bottom as int);
        }
        if draw_y > bottom {
            proof {
                lemma_page_flow_below(PageFlow { y: draw_y as int, cmds: cmds@ }, es.skip(i as int), x, top as int, bottom as int);
            }
            break;
        }
        if draw_y >= top as isize {
            assert(x + 28 + 8 * es[i as int].1.len() <= usize::MAX);
            match &els[i] {
                HtmlElement::Heading(t) => {
                    push_text(&mut cmds, x + 20, draw_y as usize, t.as_str(), (50, 50, 150));
                    draw_y = draw_y + 30;
                },
                HtmlElement::Text(t) => {
                    push_text(&mut cmds, x + 20, draw_y as usize, t.as_str(), (0, 0, 0));
                    draw_y = draw_y + 20;
                },
                HtmlElement::Link(t) => {
                    push_text(&mut cmds, x + 20, draw_y as usize, t.as_str(), (0, 0, 255));
                    draw_y = draw_y + 20;
                },
            }
        }
        i = i + 1;
    }
    cmds
}

/// The page's height below the 40 pixel toolbar.
fn height_below(h: usize) -> (r: usize)
    ensures
        r == (if h >= 40 { h - 40 } else { 0 }),
{
    h.saturating_sub(40)
}

impl BrowserApp {
    /// Draws the browser into a window at `(x, y)`, `width` by `height`
    /// pixels.
    pub fn draw(&self, compositor: &mut GraphicalCompositor, x: usize, y: usize, width: usize, height: usize)
        requires
            sane_frame(old(compositor).frame()),
            browser_fits(*self, x, y, width, height),
        ensures
            final(compositor).pixels() == apply_ops(old(compositor).pixels(), old(compositor).frame(),
                browser_screen(*self, x, y, width, height)),
            final(compositor).frame() == old(compositor).frame(),
            final(compositor).pointer() == old(compositor).pointer(),
            final(compositor).drag_state() == old(compositor).drag_state(),
    {
        let cmds = browser_layout(self, x, y, width, height);
        compositor.paint(&cmds);
    }
}

} // verus!
