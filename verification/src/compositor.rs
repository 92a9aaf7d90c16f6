use vstd::prelude::*;
use crate::app::Rgb;
use font8x8::UnicodeFonts;
use crate::text::chars_of;

verus! {

/// How the bytes of a pixel are ordered.
#[derive(PartialEq, Eq, Structural, Clone, Copy, Debug)]
pub enum PixelFormat {
    Rgb,
    Bgr,
    U8,
    Unknown,
}

/// The shape of a linear frame buffer.
#[derive(PartialEq, Eq, Structural, Clone, Copy, Debug)]
pub struct FrameInfo {
    pub byte_len: usize,
    pub width: usize,
    pub height: usize,
    pub stride: usize,
    pub bytes_per_pixel: usize,
    pub pixel_format: PixelFormat,
}

/// A frame buffer whose pixel offsets stay within `usize`.
pub open spec fn sane_frame(info: FrameInfo) -> bool {
    &&& info.width <= info.stride
    &&& info.height * info.stride <= usize::MAX
    &&& info.height * info.stride * info.bytes_per_pixel <= usize::MAX
}

/// The buffer after the pixel `(x, y)` gets color `c`: nothing happens
/// outside the frame or when the pixel's bytes run past the buffer; a
/// one-byte format takes the blue value.
pub open spec fn put_pixel(buf: Seq<u8>, info: FrameInfo, x: int, y: int, c: Rgb) -> Seq<u8> {
    if 0 <= x < info.width && 0 <= y < info.height {
        let off = (y * info.stride + x) * info.bytes_per_pixel;
        if off + 2 < buf.len() {
            match info.pixel_format {
                PixelFormat::Rgb => buf.update(off, c.0).update(off + 1, c.1).update(off + 2, c.2),
                PixelFormat::Bgr => buf.update(off, c.2).update(off + 1, c.1).update(off + 2, c.0),
                _ => buf.update(off, c.2),
            }
        } else {
            buf
        }
    } else {
        buf
    }
}

/// The first `n` pixels of a row, left to right.
pub open spec fn paint_row(buf: Seq<u8>, info: FrameInfo, x0: int, y: int, n: nat, c: Rgb) -> Seq<u8>
    decreases n,
{
    if n == 0 {
        buf
    } else {
        put_pixel(paint_row(buf, info, x0, y, (n - 1) as nat, c), info, x0 + n - 1, y, c)
    }
}

/// A `w` by `h` rectangle, top row first.
pub open spec fn paint_rect(buf: Seq<u8>, info: FrameInfo, x0: int, y0: int, w: nat, h: nat, c: Rgb) -> Seq<u8>
    decreases h,
{
    if h == 0 {
        buf
    } else {
        paint_row(paint_rect(buf, info, x0, y0, w, (h - 1) as nat, c), info, x0, y0 + h - 1, w, c)
    }
}

/// Whether bit `col` of a glyph row is set.
pub open spec fn glyph_bit(byte: u8, col: u8) -> bool {
    byte & (1u8 << col) != 0u8
}

/// The first `n` pixels of a glyph row: set bits are painted.
pub open spec fn paint_glyph_row(buf: Seq<u8>, info: FrameInfo, x: int, y: int, byte: u8, n: nat, c: Rgb) -> Seq<u8>
    decreases n,
{
    if n == 0 {
        buf
    } else {
        let b = paint_glyph_row(buf, info, x, y, byte, (n - 1) as nat, c);
        if glyph_bit(byte, (n - 1) as u8) { put_pixel(b, info, x + n - 1, y, c) } else { b }
    }
}

/// The first `n` rows of a glyph.
pub open spec fn paint_glyph(buf: Seq<u8>, info: FrameInfo, x: int, y: int, glyph: Seq<u8>, n: nat, c: Rgb) -> Seq<u8>
    decreases n,
{
    if n == 0 {
        buf
    } else {
        paint_glyph_row(paint_glyph(buf, info, x, y, glyph, (n - 1) as nat, c), info, x, y + n - 1, glyph[n - 1], 8, c)
    }
}

/// The 8x8 bitmap that `font8x8::BASIC_FONTS` holds for `c`.
pub uninterp spec fn basic_font_glyph(c: char) -> Option<[u8; 8]>;

/// The 8x8 bitmap that `font8x8::LATIN_FONTS` holds for `c`.
pub uninterp spec fn latin_font_glyph(c: char) -> Option<[u8; 8]>;

/// `font8x8::BASIC_FONTS.get(c)`: the table holds one glyph for each of
/// U+0000 to U+007F, so there is a glyph exactly for those; the bitmap
/// itself is named, not stated.
#[verifier::external_body]
pub(crate) fn basic_glyph(c: char) -> (g: Option<[u8; 8]>)
    ensures
        g == basic_font_glyph(c),
        g is Some <==> (c as u32) < 0x80,
{
    font8x8::BASIC_FONTS.get(c)
}

/// `font8x8::LATIN_FONTS.get(c)`: a binary search in a sorted table of
/// the characters U+00A0 to U+00FF, where U+00B2 stands three times and
/// U+00B3 and U+00B4 are missing; so there is a glyph exactly for the
/// characters of that range other than those two. The bitmap itself is
/// named, not stated.
#[verifier::external_body]
fn latin_glyph(c: char) -> (g: Option<[u8; 8]>)
    ensures
        g == latin_font_glyph(c),
        g is Some <==> (0xA0 <= (c as u32) <= 0xFF && (c as u32) != 0xB3 && (c as u32) != 0xB4),
{
    font8x8::LATIN_FONTS.get(c)
}

/// The glyph drawn for `c`: the basic table's, else the Latin-1 table's.
pub open spec fn glyph_of(c: char) -> Option<[u8; 8]> {
    match basic_font_glyph(c) {
        Some(g) => Some(g),
        None => latin_font_glyph(c),
    }
}

/// The glyph drawn for `c`, if the fonts have one.
pub fn font_glyph(c: char) -> (g: Option<[u8; 8]>)
    ensures
        g == glyph_of(c),
        g is Some <==> (c as u32) < 0x80 || (0xA0 <= (c as u32) <= 0xFF && (c as u32) != 0xB3 && (c as u32) != 0xB4),
{
    match basic_glyph(c) {
        Some(g) => Some(g),
        None => latin_glyph(c),
    }
}

/// A drawing command: a filled rectangle, or the glyph of a character with
/// its top left corner at `(x, y)`.
#[derive(Clone, Copy, Debug)]
pub enum DrawCmd {
    Rect { x: usize, y: usize, w: usize, h: usize, color: Rgb },
    Glyph { x: usize, y: usize, c: char, color: Rgb },
}

/// The buffer after one command.
pub open spec fn apply_op(buf: Seq<u8>, info: FrameInfo, op: DrawCmd) -> Seq<u8> {
    match op {
        DrawCmd::Rect { x, y, w, h, color } => paint_rect(buf, info, x as int, y as int, w as nat, h as nat, color),
        DrawCmd::Glyph { x, y, c, color } => match glyph_of(c) {
            Some(g) => paint_glyph(buf, info, x as int, y as int, g@, 8, color),
            None => buf,
        },
    }
}

/// The buffer after the commands, first to last.
pub open spec fn apply_ops(buf: Seq<u8>, info: FrameInfo, ops: Seq<DrawCmd>) -> Seq<u8>
    decreases ops.len(),
{
    if ops.len() == 0 {
        buf
    } else {
        apply_op(apply_ops(buf, info, ops.drop_last()), info, ops.last())
    }
}

/// A command whose far corner stays within `usize`.
pub open spec fn cmd_fits(op: DrawCmd) -> bool {
    match op {
        DrawCmd::Rect { x, y, w, h, .. } => x + w <= usize::MAX && y + h <= usize::MAX,
        DrawCmd::Glyph { x, y, .. } => x + 8 <= usize::MAX && y + 8 <= usize::MAX,
    }
}

pub open spec fn cmds_fit(ops: Seq<DrawCmd>) -> bool {
    forall|i: int| 0 <= i < ops.len() ==> cmd_fits(#[trigger] ops[i])
}

proof fn lemma_row_outside(buf: Seq<u8>, info: FrameInfo, x0: int, y: int, n: nat, c: Rgb)
    requires
        x0 >= info.width || y < 0 || y >= info.height,
    ensures
        paint_row(buf, info, x0, y, n, c) == buf,
    decreases n,
{
    if n > 0 {
        lemma_row_outside(buf, info, x0, y, (n - 1) as nat, c);
    }
}

/// A rectangle that starts right of the frame or below it leaves the buffer
/// as it was.
pub proof fn lemma_rect_outside(buf: Seq<u8>, info: FrameInfo, x0: int, y0: int, w: nat, h: nat, c: Rgb)
    requires
        x0 >= info.width || y0 >= info.height,
    ensures
        paint_rect(buf, info, x0, y0, w, h, c) == buf,
    decreases h,
{
    if h > 0 {
        lemma_rect_outside(buf, info, x0, y0, w, (h - 1) as nat, c);
        lemma_row_outside(buf, info, x0, y0 + h - 1, w, c);
    }
}

/// Running commands one list after another is running the joined list.
pub proof fn lemma_apply_ops_concat(buf: Seq<u8>, info: FrameInfo, a: Seq<DrawCmd>, b: Seq<DrawCmd>)
    ensures
        apply_ops(buf, info, a + b) == apply_ops(apply_ops(buf, info, a), info, b),
    decreases b.len(),
{
    if b.len() == 0 {
        assert(a + b =~= a);
    } else {
        lemma_apply_ops_concat(buf, info, a, b.drop_last());
        assert((a + b).drop_last() =~= a + b.drop_last());
        assert((a + b).last() == b.last());
    }
}

/// Where the bytes of pixel `(x, y)` start in the buffer.
pub open spec fn pixel_offset(info: FrameInfo, x: int, y: int) -> int {
    (y * info.stride + x) * info.bytes_per_pixel
}

/// The three bytes starting at `off`.
pub open spec fn rgb_at(buf: Seq<u8>, off: int) -> Rgb {
    (buf[off], buf[off + 1], buf[off + 2])
}

/// An RGB frame whose pixels each have three bytes of their own.
pub open spec fn rgb_frame(info: FrameInfo) -> bool {
    &&& info.pixel_format == PixelFormat::Rgb
    &&& info.bytes_per_pixel >= 3
    &&& info.width <= info.stride
}

/// Two different pixels of the frame have bytes that do not overlap.
proof fn lemma_offsets_apart(info: FrameInfo, px: int, py: int, qx: int, qy: int)
    requires
        info.width <= info.stride,
        info.bytes_per_pixel >= 3,
        0 <= px < info.width,
        0 <= qx < info.width,
        0 <= py,
        0 <= qy,
        px != qx || py != qy,
    ensures
        pixel_offset(info, px, py) + 3 <= pixel_offset(info, qx, qy)
            || pixel_offset(info, qx, qy) + 3 <= pixel_offset(info, px, py),
{
    let st = info.stride as int;
    let bpp = info.bytes_per_pixel as int;
    let ip = py * st + px;
    let iq = qy * st + qx;
    if py < qy {
        assert(qy * st >= py * st + st) by (nonlinear_arith)
            requires py + 1 <= qy, st >= 0;
    } else if qy < py {
        assert(py * st >= qy * st + st) by (nonlinear_arith)
            requires qy + 1 <= py, st >= 0;
    }
    assert(ip != iq);
    assert(ip * bpp + 3 <= iq * bpp || iq * bpp + 3 <= ip * bpp) by (nonlinear_arith)
        requires ip != iq, bpp >= 3;
}

/// In an RGB frame, painting one pixel gives another pixel's bytes their
/// old values and that pixel's bytes the color.
proof fn lemma_put_pixel_rgb(buf: Seq<u8>, info: FrameInfo, px: int, py: int, c: Rgb, qx: int, qy: int)
    requires
        rgb_frame(info),
        0 <= qx < info.width,
        0 <= qy < info.height,
        pixel_offset(info, qx, qy) + 2 < buf.len(),
    ensures
        put_pixel(buf, info, px, py, c).len() == buf.len(),
        rgb_at(put_pixel(buf, info, px, py, c), pixel_offset(info, qx, qy))
            == (if px == qx && py == qy { c } else { rgb_at(buf, pixel_offset(info, qx, qy)) }),
{
    let out = put_pixel(buf, info, px, py, c);
    let oq = pixel_offset(info, qx, qy);
    if 0 <= px < info.width && 0 <= py < info.height && pixel_offset(info, px, py) + 2 < buf.len() {
        if px == qx && py == qy {
            assert(rgb_at(out, oq) == (c.0, c.1, c.2));
        } else {
            lemma_offsets_apart(info, px, py, qx, qy);
            assert(rgb_at(out, oq) == rgb_at(buf, oq));
        }
    }
}

/// In an RGB frame, a glyph row lights pixel `(x + col, y)` for each set
/// bit `col` among its first `n`, and leaves every other pixel as it was.
proof fn lemma_glyph_row_rgb(buf: Seq<u8>, info: FrameInfo, x: int, y: int, byte: u8, n: nat, c: Rgb, qx: int, qy: int)
    requires
        rgb_frame(info),
        n <= 8,
        0 <= qx < info.width,
        0 <= qy < info.height,
        pixel_offset(info, qx, qy) + 2 < buf.len(),
    ensures
        paint_glyph_row(buf, info, x, y, byte, n, c).len() == buf.len(),
        rgb_at(paint_glyph_row(buf, info, x, y, byte, n, c), pixel_offset(info, qx, qy))
            == (if qy == y && x <= qx < x + n && byte & (1u8 << ((qx - x) as u8)) != 0u8 { c } else {
                rgb_at(buf, pixel_offset(info, qx, qy))
            }),
    decreases n,
{
    if n > 0 {
        lemma_glyph_row_rgb(buf, info, x, y, byte, (n - 1) as nat, c, qx, qy);
        let b = paint_glyph_row(buf, info, x, y, byte, (n - 1) as nat, c);
        if glyph_bit(byte, (n - 1) as u8) {
            lemma_put_pixel_rgb(b, info, x + n - 1, y, c, qx, qy);
        }
    }
}

/// In an RGB frame, the first `n` rows of a glyph light pixel
/// `(x + col, y + row)` exactly when bit `col` of row `row` is set, and
/// leave every other pixel as it was.
proof fn lemma_glyph_rgb(buf: Seq<u8>, info: FrameInfo, x: int, y: int, glyph: Seq<u8>, n: nat, c: Rgb, qx: int, qy: int)
    requires
        rgb_frame(info),
        glyph.len() == 8,
        n <= 8,
        0 <= qx < info.width,
        0 <= qy < info.height,
        pixel_offset(info, qx, qy) + 2 < buf.len(),
    ensures
        paint_glyph(buf, info, x, y, glyph, n, c).len() == buf.len(),
        rgb_at(paint_glyph(buf, info, x, y, glyph, n, c), pixel_offset(info, qx, qy))
            == (if x <= qx < x + 8 && y <= qy < y + n && glyph[qy - y] & (1u8 << ((qx - x) as u8)) != 0u8 { c } else {
                rgb_at(buf, pixel_offset(info, qx, qy))
            }),
    decreases n,
{
    if n > 0 {
        lemma_glyph_rgb(buf, info, x, y, glyph, (n - 1) as nat, c, qx, qy);
        let b = paint_glyph(buf, info, x, y, glyph, (n - 1) as nat, c);
        lemma_glyph_row_rgb(b, info, x, y + n - 1, glyph[n - 1], 8, c, qx, qy);
    }
}

/// Drawing a character into an RGB frame gives pixel `(x + col, y + row)`
/// the color exactly when bit `col` (the bit `1 << col`, so the least
/// significant bit is the leftmost column) of row `row` of its glyph is
/// set; every other pixel keeps its bytes. A character the fonts lack draws
/// nothing.
pub proof fn law_glyph_lights_set_bits(buf: Seq<u8>, info: FrameInfo, x: usize, y: usize, ch: char, color: Rgb, qx: int, qy: int)
    requires
        rgb_frame(info),
        0 <= qx < info.width,
        0 <= qy < info.height,
        pixel_offset(info, qx, qy) + 2 < buf.len(),
    ensures
        ({
            let out = apply_op(buf, info, DrawCmd::Glyph { x, y, c: ch, color });
            &&& out.len() == buf.len()
            &&& glyph_of(ch) is None ==> out == buf
            &&& glyph_of(ch) matches Some(g) ==> rgb_at(out, pixel_offset(info, qx, qy)) == (if x <= qx < x + 8
                && y <= qy < y + 8 && g@[qy - y] & (1u8 << ((qx - x) as u8)) != 0u8 { color } else {
                rgb_at(buf, pixel_offset(info, qx, qy))
            })
        }),
{
    if let Some(g) = glyph_of(ch) {
        lemma_glyph_rgb(buf, info, x as int, y as int, g@, 8, color, qx, qy);
    }
}

/// The glyph of `c` at `(x, y)`.
pub open spec fn glyph_cmd(x: usize, y: usize, c: char, color: Rgb) -> DrawCmd {
    DrawCmd::Glyph { x, y, c, color }
}

/// The glyphs of `s`, one every 8 pixels to the right of `(x, y)`.
pub open spec fn text_cmds(x: usize, y: usize, s: Seq<char>, color: Rgb) -> Seq<DrawCmd>
    decreases s.len(),
{
    if s.len() == 0 {
        Seq::empty()
    } else {
        text_cmds(x, y, s.drop_last(), color).push(glyph_cmd((x + 8 * (s.len() - 1)) as usize, y, s.last(), color))
    }
}

/// A rectangle command.
pub open spec fn rect_cmd(x: usize, y: usize, w: usize, h: usize, color: Rgb) -> DrawCmd {
    DrawCmd::Rect { x, y, w, h, color }
}

/// The commands `f(0)`, ..., `f(n - 1)`.
pub open spec fn rows_cmds(n: nat, f: spec_fn(int) -> DrawCmd) -> Seq<DrawCmd>
    decreases n,
{
    if n == 0 { Seq::empty() } else { rows_cmds((n - 1) as nat, f).push(f(n - 1)) }
}

/// Appends a rectangle to a list of drawing commands.
pub fn push_rect(cmds: &mut Vec<DrawCmd>, x: usize, y: usize, w: usize, h: usize, color: Rgb)
    requires
        x + w <= usize::MAX,
        y + h <= usize::MAX,
        cmds_fit(old(cmds)@),
    ensures
        final(cmds)@ == old(cmds)@.push(DrawCmd::Rect { x, y, w, h, color }),
        cmds_fit(final(cmds)@),
{
    cmds.push(DrawCmd::Rect { x, y, w, h, color });
    assert forall|i: int| 0 <= i < cmds@.len() implies cmd_fits(#[trigger] cmds@[i]) by {
        if i < old(cmds)@.len() {
            assert(cmds@[i] == old(cmds)@[i]);
        }
    }
}

/// Appends the glyphs of `s`, one every 8 pixels to the right of `(x, y)`.
pub fn push_text(cmds: &mut Vec<DrawCmd>, x: usize, y: usize, s: &str, color: Rgb)
    requires
        x + 8 * s@.len() + 8 <= usize::MAX,
        y + 8 <= usize::MAX,
        cmds_fit(old(cmds)@),
    ensures
        final(cmds)@ == old(cmds)@ + text_cmds(x, y, s@, color),
        cmds_fit(final(cmds)@),
{
    let chars = chars_of(s);
    let mut cx: usize = x;
    let mut i: usize = 0;
    assert(old(cmds)@ + text_cmds(x, y, s@.take(0), color) =~= old(cmds)@);
    while i < chars.len()
        invariant
            i <= chars@.len(),
            chars@ == s@,
            x + 8 * s@.len() + 8 <= usize::MAX,
            y + 8 <= usize::MAX,
            cx == x + 8 * i,
            cmds@ == old(cmds)@ + text_cmds(x, y, s@.take(i as int), color),
            cmds_fit(cmds@),
        decreases chars.len() - i,
    {
        assert(8 * i + 8 <= 8 * s@.len()) by (nonlinear_arith)
            requires i < s@.len();
        let ghost before = cmds@;
        let e = DrawCmd::Glyph { x: cx, y, c: chars[i], color };
        cmds.push(e);
        assert(cmds@ == before.push(e));
        assert(s@.take(i + 1).drop_last() =~= s@.take(i as int));
        assert(s@.take(i + 1).last() == s@[i as int]);
        assert(chars@[i as int] == s@[i as int]);
        assert(text_cmds(x, y, s@.take(i + 1), color) == text_cmds(x, y, s@.take(i as int), color).push(e));
        assert(cmds@ =~= old(cmds)@ + text_cmds(x, y, s@.take(i + 1), color));
        assert forall|j: int| 0 <= j < cmds@.len() implies cmd_fits(#[trigger] cmds@[j]) by {
            if j < before.len() {
                assert(cmds@[j] == before[j]);
                assert(cmd_fits(before[j]));
            } else {
                assert(cmds@[j] == e);
            }
        }
        cx = cx + 8;
        i = i + 1;
    }
    assert(s@.take(i as int) =~= s@);
}

/// How many applications the dock offers.
pub const DOCK_APPS: usize = 5;

/// `a - b`, or 0 when `b` is larger.
pub open spec fn sat_sub(a: usize, b: int) -> usize {
    if a >= b { (a - b) as usize } else { 0 }
}

/// How many icons the dock shows on a screen `width` pixels wide: the
/// applications, as many as fit 85 pixels apart once 40 pixels are left
/// free.
pub open spec fn dock_count(width: usize) -> usize {
    let room = sat_sub(width, 40) / 85;
    if room < DOCK_APPS { room } else { DOCK_APPS }
}

/// The dock's width: 85 pixels an icon and 15 more.
pub open spec fn dock_width(width: usize) -> usize {
    (dock_count(width) * 85 + 15) as usize
}

/// The steps that draw the dock's `i`-th icon, the dock's top left corner
/// being `(dock_x, dock_y)`: a white page with three blue lines, a black
/// terminal with a green '>', or a plain colored square.
pub open spec fn icon_ops(i: int, dock_x: usize, dock_y: usize) -> Seq<DrawCmd> {
    let x = (dock_x + 25 + i * 85) as usize;
    let y = (dock_y + 10) as usize;
    if i == 0 {
        seq![
            rect_cmd(x, y, 40, 40, (255, 255, 255)),
            rect_cmd((x + 5) as usize, (y + 10) as usize, 30, 2, (100, 150, 255)),
            rect_cmd((x + 5) as usize, (y + 20) as usize, 30, 2, (100, 150, 255)),
            rect_cmd((x + 5) as usize, (y + 30) as usize, 30, 2, (100, 150, 255)),
        ]
    } else if i == 1 {
        seq![rect_cmd(x, y, 40, 40, (0, 0, 0)), glyph_cmd((x + 10) as usize, (y + 15) as usize, '>', (0, 255, 0))]
    } else {
        seq![rect_cmd(x, y, 40, 40, ((60 + i * 30) as u8, (110 + i * 20) as u8, 200))]
    }
}

/// The first `n` icons of the dock, left to right.
pub open spec fn dock_icons(dock_x: usize, dock_y: usize, n: nat) -> Seq<DrawCmd>
    decreases n,
{
    if n == 0 { Seq::empty() } else { dock_icons(dock_x, dock_y, (n - 1) as nat) + icon_ops(n - 1, dock_x, dock_y) }
}

/// The network indicator's text: "[INET]" while the network is up,
/// "[OFF]" otherwise.
pub open spec fn net_label(online: bool) -> Seq<char> {
    if online { "[INET]"@ } else { "[OFF]"@ }
}

/// The network indicator's color: green while the network is up, red
/// otherwise.
pub open spec fn net_color(online: bool) -> Rgb {
    if online { (0, 255, 0) } else { (255, 0, 0) }
}

/// The steps that draw the desktop on a screen `width` by `height` pixels:
/// background, menu bar and logo; the dock, centered 15 pixels above the
/// bottom (both held at 0 on a screen too small), with its icons; and the
/// network indicator at the right of the menu bar, 10 pixels from the edge.
pub open spec fn desktop_ops(width: usize, height: usize, online: bool) -> Seq<DrawCmd> {
    let dock_x = (sat_sub(width, dock_width(width) as int) / 2) as usize;
    let dock_y = sat_sub(height, 75);
    let label = net_label(online);
    seq![
        rect_cmd(0, 0, width, height, (43, 48, 59)),
        rect_cmd(0, 0, width, 28, (238, 238, 242)),
        rect_cmd(10, 6, 16, 16, (50, 120, 220)),
        rect_cmd(dock_x, dock_y, dock_width(width), 60, (255, 255, 255)),
    ] + dock_icons(dock_x, dock_y, dock_count(width) as nat)
        + text_cmds(sat_sub(width, 8 * label.len() as int + 10), 10, label, net_color(online))
}

/// The commands that draw the desktop (see `desktop_ops`).
pub fn desktop_layout(width: usize, height: usize, online: bool) -> (cmds: Vec<DrawCmd>)
    ensures
        cmds@ == desktop_ops(width, height, online),
        cmds_fit(cmds@),
{
    let mut cmds: Vec<DrawCmd> = Vec::new();
    assert(cmds_fit(cmds@));
    push_rect(&mut cmds, 0, 0, width, height, (43, 48, 59));
    push_rect(&mut cmds, 0, 0, width, 28, (238, 238, 242));
    push_rect(&mut cmds, 10, 6, 16, 16, (50, 120, 220));
    let room: usize = width.saturating_sub(40) / 85;
    let count: usize = if room < DOCK_APPS { room } else { DOCK_APPS };
    let dock_w: usize = count * 85 + 15;
    let dock_x: usize = width.saturating_sub(dock_w) / 2;
    let dock_y: usize = height.saturating_sub(75);
    push_rect(&mut cmds, dock_x, dock_y, dock_w, 60, (255, 255, 255));
    let ghost base = cmds@;
    assert(dock_icons(dock_x, dock_y, 0) =~= Seq::<DrawCmd>::empty());
    assert(cmds@ =~= base + dock_icons(dock_x, dock_y, 0));
    let icon_y: usize = dock_y + 10;
    let mut i: usize = 0;
    while i < count
        invariant
            i <= count <= DOCK_APPS,
            dock_x <= width / 2,
            dock_y <= height,
            dock_y + 75 <= usize::MAX,
            icon_y == dock_y + 10,
            cmds@ == base + dock_icons(dock_x, dock_y, i as nat),
            cmds_fit(cmds@),
        decreases count - i,
    {
        let ghost before = cmds@;
        let icon_x = dock_x + 25 + i * 85;
        if i == 0 {
            push_rect(&mut cmds, icon_x, icon_y, 40, 40, (255, 255, 255));
            push_rect(&mut cmds, icon_x + 5, icon_y + 10, 30, 2, (100, 150, 255));
            push_rect(&mut cmds, icon_x + 5, icon_y + 20, 30, 2, (100, 150, 255));
            push_rect(&mut cmds, icon_x + 5, icon_y + 30, 30, 2, (100, 150, 255));
        } else if i == 1 {
            push_rect(&mut cmds, icon_x, icon_y, 40, 40, (0, 0, 0));
            cmds.push(DrawCmd::Glyph { x: icon_x + 10, y: icon_y + 15, c: '>', color: (0, 255, 0) });
            assert forall|j: int| 0 <= j < cmds@.len() implies cmd_fits(#[trigger] cmds@[j]) by {
                if j < cmds@.len() - 1 {
                    assert(cmds@[j] == cmds@.drop_last()[j]);
                }
            }
        } else {
            push_rect(&mut cmds, icon_x, icon_y, 40, 40, (60 + (i as u8) * 30, 110 + (i as u8) * 20, 200));
        }
        assert(cmds@ =~= before + icon_ops(i as int, dock_x, dock_y));
        assert(dock_icons(dock_x, dock_y, (i + 1) as nat) == dock_icons(dock_x, dock_y, i as nat) + icon_ops(i as int, dock_x, dock_y));
        assert(cmds@ =~= base + dock_icons(dock_x, dock_y, (i + 1) as nat));
        i = i + 1;
    }
    let label: &str = if online { "[INET]" } else { "[OFF]" };
    let color: Rgb = if online { (0, 255, 0) } else { (255, 0, 0) };
    proof {
        reveal_strlit("[INET]");
        reveal_strlit("[OFF]");
    }
    let ghost before_label = cmds@;
    push_text(&mut cmds, width.saturating_sub(8 * label.unicode_len() + 10), 10, label, color);
    cmds
}

/// A coordinate moved to `v`, held within `0..limit` (0 when the limit is 0).
pub open spec fn clamp_axis(v: int, limit: usize) -> usize {
    if v < 0 || limit == 0 { 0 } else if v >= limit { (limit - 1) as usize } else { v as usize }
}

fn clamp_move(pos: usize, d: i32, limit: usize) -> (r: usize)
    ensures
        r == clamp_axis(pos as int + d, limit),
{
    if d < 0 {
        let back: usize = (-(d as i64)) as usize;
        if back > pos || limit == 0 {
            0
        } else if pos - back >= limit {
            limit - 1
        } else {
            pos - back
        }
    } else {
        let fwd = d as usize;
        if limit == 0 {
            0
        } else if pos >= limit || fwd >= limit - pos {
            limit - 1
        } else {
            pos + fwd
        }
    }
}

/// The drawing surface of the desktop: the frame's shape, a back buffer
/// that frames are drawn into before they are shown, and the mouse.
pub struct GraphicalCompositor {
    info: FrameInfo,
    backbuffer: Vec<u8>,
    pub mouse_x: usize,
    pub mouse_y: usize,
    pub mouse_left_down: bool,
    pub dragging_window: Option<usize>,
    pub drag_offset_x: isize,
    pub drag_offset_y: isize,
}

impl GraphicalCompositor {
    pub closed spec fn frame(&self) -> FrameInfo {
        self.info
    }

    pub closed spec fn pixels(&self) -> Seq<u8> {
        self.backbuffer@
    }

    /// Where the mouse is.
    pub closed spec fn pointer(&self) -> (usize, usize) {
        (self.mouse_x, self.mouse_y)
    }

    /// The button, the window being dragged and the grab offset.
    pub closed spec fn drag_state(&self) -> (bool, Option<usize>, isize, isize) {
        (self.mouse_left_down, self.dragging_window, self.drag_offset_x, self.drag_offset_y)
    }

    /// A black back buffer of `info.byte_len` bytes, with the mouse in the
    /// middle of the frame.
    pub fn new(info: FrameInfo) -> (c: Self)
        ensures
            c.frame() == info,
            c.pixels() == Seq::new(info.byte_len as nat, |i: int| 0u8),
            c.pointer() == (info.width / 2, info.height / 2),
            c.drag_state() == (false, Option::<usize>::None, 0isize, 0isize),
    {
        let backbuffer = vec![0u8; info.byte_len];
        let c = GraphicalCompositor {
            info,
            backbuffer,
            mouse_x: info.width / 2,
            mouse_y: info.height / 2,
            mouse_left_down: false,
            dragging_window: None,
            drag_offset_x: 0,
            drag_offset_y: 0,
        };
        assert(c.pixels() =~= Seq::new(info.byte_len as nat, |i: int| 0u8));
        c
    }

    pub fn info(&self) -> (r: &FrameInfo)
        ensures
            *r == self.frame(),
    {
        &self.info
    }

    /// Moves the mouse by `(dx, dy)`, held within the frame, and records
    /// the left button.
    pub fn move_mouse(&mut self, dx: i32, dy: i32, left: bool)
        ensures
            final(self).pointer() == (clamp_axis(old(self).pointer().0 as int + dx, old(self).frame().width),
                clamp_axis(old(self).pointer().1 as int + dy, old(self).frame().height)),
            final(self).drag_state().0 == left,
            final(self).drag_state().1 == old(self).drag_state().1,
            final(self).frame() == old(self).frame(),
            final(self).pixels() == old(self).pixels(),
    {
        self.mouse_x = clamp_move(self.mouse_x, dx, self.info.width);
        self.mouse_y = clamp_move(self.mouse_y, dy, self.info.height);
        self.mouse_left_down = left;
    }

    /// Where the mouse is.
    pub fn mouse_position(&self) -> (r: (usize, usize))
        ensures
            r == self.pointer(),
    {
        (self.mouse_x, self.mouse_y)
    }

    /// The back buffer, to be copied to the screen.
    pub fn backbuffer(&self) -> (r: &Vec<u8>)
        ensures
            r@ == self.pixels(),
    {
        &self.backbuffer
    }

    pub fn draw_pixel(&mut self, x: usize, y: usize, r: u8, g: u8, b: u8)
        requires
            sane_frame(old(self).frame()),
        ensures
            final(self).pixels() == put_pixel(old(self).pixels(), old(self).frame(), x as int, y as int, (r, g, b)),
            final(self).frame() == old(self).frame(),
            final(self).pointer() == old(self).pointer(),
            final(self).drag_state() == old(self).drag_state(),
    {
        if x >= self.info.width || y >= self.info.height {
            return;
        }
        assert(y * self.info.stride + x < self.info.height * self.info.stride) by (nonlinear_arith)
            requires y < self.info.height, x < self.info.width, self.info.width <= self.info.stride;
        assert((y * self.info.stride + x) * self.info.bytes_per_pixel <= self.info.height * self.info.stride
            * self.info.bytes_per_pixel) by (nonlinear_arith)
            requires y * self.info.stride + x < self.info.height * self.info.stride;
        assert(y * self.info.stride <= y * self.info.stride + x);
        let pixel_index = y * self.info.stride + x;
        let pixel_offset = pixel_index * self.info.bytes_per_pixel;
        if pixel_offset < self.backbuffer.len() && self.backbuffer.len() - pixel_offset > 2 {
            match self.info.pixel_format {
                PixelFormat::Rgb => {
                    self.backbuffer.set(pixel_offset, r);
                    self.backbuffer.set(pixel_offset + 1, g);
                    self.backbuffer.set(pixel_offset + 2, b);
                },
                PixelFormat::Bgr => {
                    self.backbuffer.set(pixel_offset, b);
                    self.backbuffer.set(pixel_offset + 1, g);
                    self.backbuffer.set(pixel_offset + 2, r);
                },
                _ => {
                    self.backbuffer.set(pixel_offset, b);
                },
            }
        }
    }

    pub fn draw_rect(&mut self, start_x: usize, start_y: usize, width: usize, height: usize, r: u8, g: u8, b: u8)
        requires
            sane_frame(old(self).frame()),
            start_x + width <= usize::MAX,
            start_y + height <= usize::MAX,
        ensures
            final(self).pixels() == paint_rect(old(self).pixels(), old(self).frame(), start_x as int, start_y as int,
                width as nat, height as nat, (r, g, b)),
            final(self).frame() == old(self).frame(),
            final(self).pointer() == old(self).pointer(),
            final(self).drag_state() == old(self).drag_state(),
    {
        let mut dy: usize = 0;
        while dy < height
            invariant
                dy <= height,
                start_x + width <= usize::MAX,
                start_y + height <= usize::MAX,
                sane_frame(self.frame()),
                self.frame() == old(self).frame(),
                self.pointer() == old(self).pointer(),
                self.drag_state() == old(self).drag_state(),
                self.pixels() == paint_rect(old(self).pixels(), old(self).frame(), start_x as int, start_y as int,
                    width as nat, dy as nat, (r, g, b)),
            decreases height - dy,
        {
            let ghost row_start = self.pixels();
            let mut dx: usize = 0;
            while dx < width
                invariant
                    dx <= width,
                    dy < height,
                    start_x + width <= usize::MAX,
                    start_y + height <= usize::MAX,
                    sane_frame(self.frame()),
                    self.frame() == old(self).frame(),
                    self.pointer() == old(self).pointer(),
                self.drag_state() == old(self).drag_state(),
                    self.pixels() == paint_row(row_start, old(self).frame(), start_x as int, start_y + dy, dx as nat, (r, g, b)),
                decreases width - dx,
            {
                self.draw_pixel(start_x + dx, start_y + dy, r, g, b);
                dx = dx + 1;
            }
            dy = dy + 1;
        }
    }

    /// Draws the glyph of `c` with its top left corner at `(x, y)`; nothing
    /// for a character the fonts lack.
    pub fn draw_char(&mut self, x: usize, y: usize, c: char, r: u8, g: u8, b: u8)
        requires
            sane_frame(old(self).frame()),
            x + 8 <= usize::MAX,
            y + 8 <= usize::MAX,
        ensures
            final(self).pixels() == apply_op(old(self).pixels(), old(self).frame(),
                DrawCmd::Glyph { x, y, c, color: (r, g, b) }),
            final(self).frame() == old(self).frame(),
            final(self).pointer() == old(self).pointer(),
            final(self).drag_state() == old(self).drag_state(),
    {
        if let Some(bitmap) = font_glyph(c) {
            let mut row: usize = 0;
            while row < 8
                invariant
                    row <= 8,
                    x + 8 <= usize::MAX,
                    y + 8 <= usize::MAX,
                    sane_frame(self.frame()),
                    self.frame() == old(self).frame(),
                    self.pointer() == old(self).pointer(),
                self.drag_state() == old(self).drag_state(),
                    self.pixels() == paint_glyph(old(self).pixels(), old(self).frame(), x as int, y as int, bitmap@, row as nat, (r, g, b)),
                decreases 8 - row,
            {
                let byte = bitmap[row];
                let ghost row_start = self.pixels();
                let mut col: u8 = 0;
                while col < 8
                    invariant
                        col <= 8,
                        row < 8,
                        x + 8 <= usize::MAX,
                        y + 8 <= usize::MAX,
                        sane_frame(self.frame()),
                        self.frame() == old(self).frame(),
                        self.pointer() == old(self).pointer(),
                self.drag_state() == old(self).drag_state(),
                        self.pixels() == paint_glyph_row(row_start, old(self).frame(), x as int, y + row, byte, col as nat, (r, g, b)),
                    decreases 8 - col,
                {
                    if (byte & (1u8 << col)) != 0 {
                        self.draw_pixel(x + col as usize, y + row, r, g, b);
                    }
                    col = col + 1;
                }
                row = row + 1;
            }
        }
    }

    /// Runs the drawing commands, first to last.
    pub fn paint(&mut self, cmds: &Vec<DrawCmd>)
        requires
            sane_frame(old(self).frame()),
            cmds_fit(cmds@),
        ensures
            final(self).pixels() == apply_ops(old(self).pixels(), old(self).frame(), cmds@),
            final(self).frame() == old(self).frame(),
            final(self).pointer() == old(self).pointer(),
            final(self).drag_state() == old(self).drag_state(),
    {
        let mut i: usize = 0;
        while i < cmds.len()
            invariant
                i <= cmds@.len(),
                cmds_fit(cmds@),
                sane_frame(self.frame()),
                self.frame() == old(self).frame(),
                self.pointer() == old(self).pointer(),
                self.drag_state() == old(self).drag_state(),
                self.pixels() == apply_ops(old(self).pixels(), old(self).frame(), cmds@.take(i as int)),
            decreases cmds.len() - i,
        {
            let cmd = cmds[i];
            assert(cmd_fits(cmds@[i as int]));
            match cmd {
                DrawCmd::Rect { x, y, w, h, color } => self.draw_rect(x, y, w, h, color.0, color.1, color.2),
                DrawCmd::Glyph { x, y, c, color } => self.draw_char(x, y, c, color.0, color.1, color.2),
            }
            proof {
                assert(cmds@.take(i + 1).drop_last() =~= cmds@.take(i as int));
                assert(cmds@.take(i + 1).last() == cmd);
            }
            i = i + 1;
        }
        assert(cmds@.take(i as int) =~= cmds@);
    }

    /// Draws the desktop (see `desktop_ops`), showing whether the network
    /// is up.
    pub fn render_desktop(&mut self, online: bool)
        requires
            sane_frame(old(self).frame()),
        ensures
            final(self).pixels() == apply_ops(old(self).pixels(), old(self).frame(),
                desktop_ops(old(self).frame().width, old(self).frame().height, online)),
            final(self).frame() == old(self).frame(),
            final(self).pointer() == old(self).pointer(),
            final(self).drag_state() == old(self).drag_state(),
    {
        let cmds = desktop_layout(self.info.width, self.info.height, online);
        self.paint(&cmds);
    }
}


} // verus!
