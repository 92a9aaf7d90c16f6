use vstd::prelude::*;
use crate::app::Rgb;
use crate::compositor::{
    DrawCmd, GraphicalCompositor, apply_ops, cmds_fit, sane_frame, push_rect, push_text, rect_cmd, text_cmds,
};
use crate::filemanager::{FileManagerApp, byte_len, ITEM_HEIGHT, TOOLBAR_HEIGHT};
use crate::text::{lit, push_str};
use vstd::utf8::{decode_utf8, decode_utf8_split, encode_utf8, encode_utf8_decode_utf8, encode_utf8_valid_utf8, is_char_boundary};

verus! {

/// The file manager's colors: background, sidebar, toolbar, text,
/// secondary text and lines.
pub open spec fn finder_palette(dark: bool) -> (Rgb, Rgb, Rgb, Rgb, Rgb, Rgb) {
    if dark {
        ((30, 30, 35), (40, 40, 45), (45, 45, 50), (220, 220, 220), (180, 180, 190), (60, 60, 65))
    } else {
        ((240, 240, 245), (220, 220, 230), (230, 230, 240), (50, 50, 60), (100, 100, 110), (200, 200, 200))
    }
}

/// A name longer than `max` characters, when there is room for more than
/// the dots, cut to its first `max - 3` bytes (UTF-8) and followed by
/// "..."; any other name as it is.
pub open spec fn display_name(name: Seq<char>, max: int) -> Seq<char> {
    if name.len() > max && max > 3 {
        decode_utf8(encode_utf8(name).subrange(0, max - 3)) + "..."@
    } else {
        name
    }
}

/// The icon of a list row at `(cx, cy)`: a white page with a gray border
/// for a file, a blue folder for a directory.
pub open spec fn icon_cmds(cx: usize, cy: usize, is_dir: bool) -> Seq<DrawCmd> {
    if is_dir {
        seq![
            rect_cmd(cx, (cy + 4) as usize, 20, 14, (100, 180, 255)),
            rect_cmd(cx, cy, 10, 4, (100, 180, 255)),
        ]
    } else {
        seq![
            rect_cmd(cx, cy, 16, 20, (255, 255, 255)),
            rect_cmd(cx, cy, 16, 1, (150, 150, 150)),
            rect_cmd(cx, cy, 1, 20, (150, 150, 150)),
            rect_cmd((cx + 15) as usize, cy, 1, 20, (150, 150, 150)),
            rect_cmd(cx, (cy + 19) as usize, 16, 1, (150, 150, 150)),
        ]
    }
}

/// The list being laid out: the next row's y and the commands so far.
pub struct ListFlow {
    pub y: int,
    pub cmds: Seq<DrawCmd>,
}

/// One row: below `bottom` nothing more is drawn; a row above `top` is
/// scrolled away but takes its room; otherwise its icon and name are drawn.
pub open spec fn list_step(p: ListFlow, item: (Seq<char>, bool), cx: usize, top: int, bottom: int, max: int,
    color: Rgb) -> ListFlow
{
    if p.y > bottom {
        p
    } else if p.y < top {
        ListFlow { y: p.y + 30, cmds: p.cmds }
    } else {
        let cy = p.y as usize;
        ListFlow {
            y: p.y + 30,
            cmds: p.cmds + icon_cmds(cx, cy, item.1) + text_cmds((cx + 30) as usize, (cy + 4) as usize,
                display_name(item.0, max), color),
        }
    }
}

/// The rows one after the other.
pub open spec fn list_flow(p: ListFlow, items: Seq<(Seq<char>, bool)>, cx: usize, top: int, bottom: int, max: int,
    color: Rgb) -> ListFlow
    decreases items.len(),
{
    if items.len() == 0 {
        p
    } else {
        list_flow(list_step(p, items[0], cx, top, bottom, max, color), items.drop_first(), cx, top, bottom, max, color)
    }
}

pub open spec fn item_views(items: Seq<(String, bool)>) -> Seq<(Seq<char>, bool)> {
    items.map_values(|it: (String, bool)| (it.0@, it.1))
}

/// The row of the file being named, with its name in blue and a "_" after
/// it, when one is being named and its row is on the screen.
pub open spec fn naming_cmds(f: FileManagerApp, cx: usize, cy: int, top: int, bottom: int) -> Seq<DrawCmd> {
    if (f.creating() || f.name().len() > 0) && cy <= bottom && cy >= top {
        seq![rect_cmd(cx, cy as usize, 16, 20, (255, 255, 255))]
            + text_cmds((cx + 30) as usize, (cy + 4) as usize, f.name(), (0, 120, 255))
            + text_cmds((cx + 30 + byte_len(f.name()) * 8) as usize, (cy + 4) as usize, "_"@, (0, 120, 255))
    } else {
        Seq::empty()
    }
}

/// The window's frame: background, sidebar with favorites, toolbar with
/// its hint, and the separators.
pub open spec fn finder_frame(dark: bool, x: usize, y: usize, w: usize, h: usize) -> Seq<DrawCmd> {
    let (bg, sb, tb, text, sub, line) = finder_palette(dark);
    let cw = (if w >= 120 { w - 120 } else { 0 }) as usize;
    let c = seq![rect_cmd(x, y, w, h, bg), rect_cmd(x, y, 120, h, sb)];
    let c = c + text_cmds((x + 10) as usize, (y + 10) as usize, "Favorites"@, sub);
    let c = c + text_cmds((x + 10) as usize, (y + 30) as usize, " Desktop"@, text);
    let c = c + text_cmds((x + 10) as usize, (y + 50) as usize, " Documents"@, text);
    let c = c.push(rect_cmd((x + 120) as usize, y, cw, 40, tb));
    let c = c + text_cmds((x + 130) as usize, (y + 15) as usize, "New File: Type name & press Enter"@, sub);
    let c = c.push(rect_cmd((x + 119) as usize, y, 1, h, line));
    let c = c.push(rect_cmd((x + 120) as usize, (y + 39) as usize, cw, 1, line));
    c
}

/// What the file manager draws in a window at `(x, y)`, `w` by `h`
/// pixels: the background, the sidebar with its favorites, the toolbar with
/// its hint, the separators, the rows of the listing from the scroll
/// position on, and the row of a file being named.
pub open spec fn finder_screen(f: FileManagerApp, dark: bool, x: usize, y: usize, w: usize, h: usize) -> Seq<DrawCmd> {
    let (bg, sb, tb, text, sub, line) = finder_palette(dark);
    let cw = (if w >= 120 { w - 120 } else { 0 }) as usize;
    let max = if cw > 40 { (cw - 40) / 8 } else { 0 };
    let c = finder_frame(dark, x, y, w, h);
    let cx = (x + 130) as usize;
    let l = list_flow(ListFlow { y: y + 50 - f.scroll(), cmds: c }, item_views(f.items_view()), cx, y + 40, y + h,
        max, text);
    l.cmds + naming_cmds(f, cx, l.y, y + 40, y + h)
}

/// The window and what is drawn in it stay within the machine's ranges,
/// and every name that is cut is ASCII (it is cut at a byte offset).
pub open spec fn finder_fits(f: FileManagerApp, x: usize, y: usize, w: usize, h: usize) -> bool {
    let cw = if w >= 120 { w - 120 } else { 0 };
    let max = if cw > 40 { (cw - 40) / 8 } else { 0 };
    &&& x + w + 1000 <= usize::MAX
    &&& y + h + 1000 <= isize::MAX
    &&& x + 300 + 8 * byte_len(f.name()) + 8 * f.name().len() <= usize::MAX
    &&& forall|i: int| 0 <= i < f.items_view().len() ==> {
        let n = (#[trigger] f.items_view()[i]).0@;
        &&& x + 300 + 8 * n.len() <= usize::MAX
        &&& (n.len() > max && max > 3 ==> is_char_boundary(encode_utf8(n), max - 3))
    }
}

proof fn lemma_list_flow_step(p: ListFlow, items: Seq<(Seq<char>, bool)>, i: int, cx: usize, top: int, bottom: int,
    max: int, color: Rgb)
    requires
        0 <= i < items.len(),
    ensures
        list_flow(p, items.skip(i), cx, top, bottom, max, color)
            == list_flow(list_step(p, items[i], cx, top, bottom, max, color), items.skip(i + 1), cx, top, bottom, max, color),
{
    assert(items.skip(i).drop_first() =~= items.skip(i + 1));
    assert(items.skip(i)[0] == items[i]);
}

proof fn lemma_list_flow_below(p: ListFlow, items: Seq<(Seq<char>, bool)>, cx: usize, top: int, bottom: int, max: int,
    color: Rgb)
    requires
        p.y > bottom,
    ensures
        list_flow(p, items, cx, top, bottom, max, color) == p,
    decreases items.len(),
{
    if items.len() > 0 {
        lemma_list_flow_below(p, items.drop_first(), cx, top, bottom, max, color);
    }
}

fn push_icon(cmds: &mut Vec<DrawCmd>, cx: usize, cy: usize, is_dir: bool)
    requires
        cmds_fit(old(cmds)@),
        cx + 100 <= usize::MAX,
        cy + 100 <= usize::MAX,
    ensures
        final(cmds)@ == old(cmds)@ + icon_cmds(cx, cy, is_dir),
        cmds_fit(final(cmds)@),
{
    if is_dir {
        push_rect(cmds, cx, cy + 4, 20, 14, (100, 180, 255));
        push_rect(cmds, cx, cy, 10, 4, (100, 180, 255));
    } else {
        push_rect(cmds, cx, cy, 16, 20, (255, 255, 255));
        push_rect(cmds, cx, cy, 16, 1, (150, 150, 150));
        push_rect(cmds, cx, cy, 1, 20, (150, 150, 150));
        push_rect(cmds, cx + 15, cy, 1, 20, (150, 150, 150));
        push_rect(cmds, cx, cy + 19, 16, 1, (150, 150, 150));
    }
    assert(cmds@ =~= old(cmds)@ + icon_cmds(cx, cy, is_dir));
}

/// The name as shown in a list `max` characters wide.
fn shown_name(name: &String, max: usize) -> (r: String)
    requires
        name@.len() > max && max > 3 ==> is_char_boundary(encode_utf8(name@), max - 3),
    ensures
        r@ == display_name(name@, max as int),
        r@.len() <= name@.len() + 3,
{
    if name.as_str().unicode_len() > max && max > 3 {
        let (head, _) = name.as_str().split_at(max - 3);
        proof {
            let bytes = encode_utf8(name@);
            encode_utf8_valid_utf8(name@);
            encode_utf8_decode_utf8(name@);
            encode_utf8_decode_utf8(head@);
            decode_utf8_split(bytes, max - 3);
            assert(head@ == decode_utf8(bytes.subrange(0, max - 3)));
            reveal_strlit("...");
        }
        let mut r = lit(head);
        push_str(&mut r, "...");
        r
    } else {
        lit(name.as_str())
    }
}

/// The commands that draw the file manager (see `finder_screen`).
pub fn finder_layout(f: &FileManagerApp, dark: bool, x: usize, y: usize, w: usize, h: usize) -> (cmds: Vec<DrawCmd>)
    requires
        finder_fits(*f, x, y, w, h),
        0 <= f.scroll() <= isize::MAX / 2,
    ensures
        cmds@ == finder_screen(*f, dark, x, y, w, h),
        cmds_fit(cmds@),
{
    let (bg, sb, tb, text, sub, line): (Rgb, Rgb, Rgb, Rgb, Rgb, Rgb) = if dark {
        ((30, 30, 35), (40, 40, 45), (45, 45, 50), (220, 220, 220), (180, 180, 190), (60, 60, 65))
    } else {
        ((240, 240, 245), (220, 220, 230), (230, 230, 240), (50, 50, 60), (100, 100, 110), (200, 200, 200))
    };
    proof {
        reveal_strlit("Favorites");
        reveal_strlit(" Desktop");
        reveal_strlit(" Documents");
        reveal_strlit("New File: Type name & press Enter");
        reveal_strlit("_");
        reveal_strlit("...");
    }
    let cw = w.saturating_sub(120);
    let max: usize = if cw > 40 { (cw - 40) / 8 } else { 0 };
    let mut cmds: Vec<DrawCmd> = Vec::new();
    assert(cmds_fit(cmds@));
    push_rect(&mut cmds, x, y, w, h, bg);
    push_rect(&mut cmds, x, y, 120, h, sb);
    push_text(&mut cmds, x + 10, y + 10, "Favorites", sub);
    push_text(&mut cmds, x + 10, y + 30, " Desktop", text);
    push_text(&mut cmds, x + 10, y + 50, " Documents", text);
    push_rect(&mut cmds, x + 120, y, cw, 40, tb);
    push_text(&mut cmds, x + 130, y + 15, "New File: Type name & press Enter", sub);
    push_rect(&mut cmds, x + 119, y, 1, h, line);
    push_rect(&mut cmds, x + 120, y + 39, cw, 1, line);
    proof {
        let (bg2, sb2, tb2, text2, sub2, line2) = finder_palette(dark);
        assert(bg == bg2 && sb == sb2 && tb == tb2 && text == text2 && sub == sub2 && line == line2);
    }
    assert(cmds@ =~= finder_frame(dark, x, y, w, h));
    let cx = x + 130;
    let top: isize = (y + 40) as isize;
    let bottom: isize = (y + h) as isize;
    let items = f.items();
    let ghost its = item_views(f.items_view());
    let ghost init = ListFlow { y: y + 50 - f.scroll(), cmds: cmds@ };
    let mut cy: isize = (y + 50) as isize - f.scroll_y();
    let mut i: usize = 0;
    assert(its.skip(0) =~= its);
    assert(its.skip(its.len() as int) =~= Seq::<(Seq<char>, bool)>::empty());
    while i < items.len()
        invariant
            i <= items@.len(),
            items@ == f.items_view(),
            its == item_views(f.items_view()),
            finder_fits(*f, x, y, w, h),
            0 <= f.scroll() <= isize::MAX / 2,
            cx == x + 130,
            top == y + 40,
            bottom == y + h,
            max == (if (if w >= 120 { w - 120 } else { 0int }) > 40 { ((if w >= 120 { w - 120 } else { 0int }) - 40) / 8 } else { 0 }),
            cy <= init.y || cy <= bottom + 30,
            init.y == y + 50 - f.scroll(),
            list_flow(ListFlow { y: cy as int, cmds: cmds@ }, its.skip(i as int), cx, top as int, bottom as int, max as int, text)
                == list_flow(init, its, cx, top as int, bottom as int, max as int, text),
            cmds_fit(cmds@),
            its.skip(its.len() as int) == Seq::<(Seq<char>, bool)>::empty(),
        ensures
            ({
                let l = list_flow(init, its, cx, top as int, bottom as int, max as int, text);
                cmds@ == l.cmds && cy as int == l.y
            }),
            cmds_fit(cmds@),
            cy <= init.y || cy <= bottom + 30,
        decreases items.len() - i,
    {
        proof {
            lemma_list_flow_step(ListFlow { y: cy as int, cmds: cmds@ }, its, i as int, cx, top as int, bottom as int, max as int, text);
        }
        if cy > bottom {
            proof {
                lemma_list_flow_below(ListFlow { y: cy as int, cmds: cmds@ }, its.skip(i as int), cx, top as int, bottom as int, max as int, text);
            }
            break;
        }
        if cy >= top {
            let name = &items[i].0;
            let is_dir = items[i].1;
            assert(its[i as int] == (name@, is_dir));
            assert(x + 300 + 8 * name@.len() <= usize::MAX);
            push_icon(&mut cmds, cx, cy as usize, is_dir);
            let shown = shown_name(name, max);
            push_text(&mut cmds, cx + 30, cy as usize + 4, shown.as_str(), text);
        }
        cy = cy + 30;
        i = i + 1;
    }
    assert(max as int == (if (if w >= 120 { w - 120 } else { 0int }) > 40 { ((if w >= 120 { w - 120 } else { 0int }) - 40) / 8 } else { 0 }));
    if (f.is_creating_file() || f.new_file_name().as_str().unicode_len() > 0) && cy <= bottom && cy >= top {
        let ghost before = cmds@;
        push_rect(&mut cmds, cx, cy as usize, 16, 20, (255, 255, 255));
        let name = f.new_file_name();
        push_text(&mut cmds, cx + 30, cy as usize + 4, name.as_str(), (0, 120, 255));
        push_text(&mut cmds, cx + 30 + name.as_str().len() * 8, cy as usize + 4, "_", (0, 120, 255));
        assert(cmds@ =~= before + naming_cmds(*f, cx, cy as int, top as int, bottom as int));
    } else {
        assert(cmds@ =~= cmds@ + naming_cmds(*f, cx, cy as int, top as int, bottom as int));
    }
    cmds
}

impl FileManagerApp {
    /// Draws the file manager into a window at `(x, y)`, `width` by
    /// `height` pixels, in the dark or light theme, after fitting the scroll
    /// position to it (see `fit_scroll`).
    pub fn draw(&mut self, compositor: &mut GraphicalCompositor, dark: bool, x: usize, y: usize, width: usize, height: usize)
        requires
            sane_frame(old(compositor).frame()),
            (old(self).items_view().len() + 1) * ITEM_HEIGHT + 10 <= isize::MAX / 2,
            height <= isize::MAX,
            finder_fits(*old(self), x, y, width, height),
        ensures
            ({
                let count = old(self).items_view().len() + (if old(self).creating() || old(self).name().len() > 0 { 1int } else { 0 });
                let avail = if height >= TOOLBAR_HEIGHT { height - TOOLBAR_HEIGHT } else { 0 };
                let m = count * ITEM_HEIGHT + 10 - avail;
                let max = if m > 0 { m } else { 0 };
                final(self).scroll() == (if old(self).scroll() < 0 { 0 } else if old(self).scroll() > max { max } else { old(self).scroll() as int })
            }),
            final(self).items_view() == old(self).items_view(),
            final(self).name() == old(self).name(),
            final(self).creating() == old(self).creating(),
            final(self).tick_count() == old(self).tick_count(),
            final(compositor).pixels() == apply_ops(old(compositor).pixels(), old(compositor).frame(),
                finder_screen(*final(self), dark, x, y, width, height)),
            final(compositor).frame() == old(compositor).frame(),
            final(compositor).pointer() == old(compositor).pointer(),
            final(compositor).drag_state() == old(compositor).drag_state(),
    {
        let _max_scroll = self.fit_scroll(height);
        let cmds = finder_layout(self, dark, x, y, width, height);
        compositor.paint(&cmds);
    }
}

} // verus!
