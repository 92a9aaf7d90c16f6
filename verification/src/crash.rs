use vstd::prelude::*;
use crate::compositor::{FrameInfo, PixelFormat, basic_font_glyph, basic_glyph, glyph_bit, paint_rect, paint_row, put_pixel, sane_frame};

verus! {

/// The crash screen's dark red, as the three bytes of a pixel in the
/// frame's order (blue first for BGR).
pub open spec fn crash_red(f: PixelFormat) -> (u8, u8, u8) {
    match f {
        PixelFormat::Bgr => (0, 0, 170),
        _ => (170, 0, 0),
    }
}

/// The crash screen's background from byte `i` on: every `bytes_per_pixel`
/// bytes, the three bytes there get the red when they fit in the buffer,
/// first to last.
pub open spec fn crash_fill_from(buf: Seq<u8>, info: FrameInfo, i: nat) -> Seq<u8>
    decreases buf.len() - i,
{
    if i >= buf.len() || info.bytes_per_pixel == 0 {
        buf
    } else {
        let (a, b, c) = crash_red(info.pixel_format);
        let next = if i + 2 < buf.len() { buf.update(i as int, a).update(i + 1 as int, b).update(i + 2 as int, c) } else { buf };
        let j = i + info.bytes_per_pixel;
        proof {
            assert(next.len() == buf.len());
        }
        crash_fill_from(next, info, if j > buf.len() { buf.len() } else { j as nat })
    }
}

/// Paints the crash screen's background over the whole buffer (see
/// `crash_fill_from`).
pub fn fill_crash_screen(info: &FrameInfo, buffer: &mut [u8])
    requires
        info.bytes_per_pixel > 0,
    ensures
        final(buffer)@ == crash_fill_from(old(buffer)@, *info, 0),
{
    let (a, b, c): (u8, u8, u8) = match info.pixel_format {
        PixelFormat::Bgr => (0, 0, 170),
        _ => (170, 0, 0),
    };
    let ghost target = crash_fill_from(old(buffer)@, *info, 0);
    let len = buffer.len();
    let mut i: usize = 0;
    while i < len
        invariant
            info.bytes_per_pixel > 0,
            len == buffer@.len(),
            (a, b, c) == crash_red(info.pixel_format),
            crash_fill_from(buffer@, *info, i as nat) == target,
        decreases len - i,
    {
        let ghost before = buffer@;
        if len - i > 2 {
            buffer[i] = a;
            buffer[i + 1] = b;
            buffer[i + 2] = c;
            assert(buffer@ =~= before.update(i as int, a).update(i + 1, b).update(i + 2, c));
        }
        if info.bytes_per_pixel >= len - i {
            i = len;
        } else {
            i = i + info.bytes_per_pixel;
        }
    }
}

/// White, the crash text's color.
pub open spec fn white() -> (u8, u8, u8) {
    (255, 255, 255)
}

/// The frame read in RGB order: the crash text writes its three bytes of
/// white whatever the pixel format.
pub open spec fn rgb_frame(info: FrameInfo) -> FrameInfo {
    FrameInfo { pixel_format: PixelFormat::Rgb, ..info }
}

/// The glyph the crash screen draws for `c`: the basic font's, else the
/// basic font's question mark.
pub open spec fn crash_glyph(c: char) -> Option<[u8; 8]> {
    match basic_font_glyph(c) {
        Some(g) => Some(g),
        None => basic_font_glyph('?'),
    }
}

/// The first `n` dots of a glyph row drawn `scale` times larger: each set
/// bit is a white square `scale` pixels wide, left to right.
pub open spec fn paint_big_row(buf: Seq<u8>, info: FrameInfo, x: int, y: int, byte: u8, scale: nat, n: nat) -> Seq<u8>
    decreases n,
{
    if n == 0 {
        buf
    } else {
        let b = paint_big_row(buf, info, x, y, byte, scale, (n - 1) as nat);
        if glyph_bit(byte, (n - 1) as u8) {
            paint_rect(b, rgb_frame(info), x + (n - 1) * scale, y, scale, scale, white())
        } else {
            b
        }
    }
}

/// The first `n` rows of a glyph drawn `scale` times larger, top first.
pub open spec fn paint_big_glyph(buf: Seq<u8>, info: FrameInfo, x: int, y: int, g: Seq<u8>, scale: nat, n: nat) -> Seq<u8>
    decreases n,
{
    if n == 0 {
        buf
    } else {
        paint_big_row(paint_big_glyph(buf, info, x, y, g, scale, (n - 1) as nat), info, x, y + (n - 1) * scale,
            g[n - 1], scale, 8)
    }
}

/// Paints one white dot of the crash text (see `rgb_frame`).
fn paint_dot(info: &FrameInfo, buffer: &mut [u8], px: usize, py: usize)
    requires
        sane_frame(*info),
    ensures
        final(buffer)@ == put_pixel(old(buffer)@, rgb_frame(*info), px as int, py as int, white()),
{
    if px >= info.width || py >= info.height {
        return;
    }
    assert(py * info.stride + px < info.height * info.stride) by (nonlinear_arith)
        requires py < info.height, px < info.width, info.width <= info.stride;
    assert((py * info.stride + px) * info.bytes_per_pixel <= info.height * info.stride * info.bytes_per_pixel)
        by (nonlinear_arith)
        requires py * info.stride + px < info.height * info.stride;
    assert(py * info.stride <= py * info.stride + px);
    let offset = (py * info.stride + px) * info.bytes_per_pixel;
    if offset < buffer.len() && buffer.len() - offset > 2 {
        buffer[offset] = 255;
        buffer[offset + 1] = 255;
        buffer[offset + 2] = 255;
    }
}

/// Paints a white square `scale` pixels wide at `(x, y)`, top row first.
fn paint_square(info: &FrameInfo, buffer: &mut [u8], x: usize, y: usize, scale: usize)
    requires
        sane_frame(*info),
        x + scale <= usize::MAX,
        y + scale <= usize::MAX,
    ensures
        final(buffer)@ == paint_rect(old(buffer)@, rgb_frame(*info), x as int, y as int, scale as nat, scale as nat,
            white()),
{
    let mut dy: usize = 0;
    while dy < scale
        invariant
            dy <= scale,
            sane_frame(*info),
            x + scale <= usize::MAX,
            y + scale <= usize::MAX,
            buffer@ == paint_rect(old(buffer)@, rgb_frame(*info), x as int, y as int, scale as nat, dy as nat, white()),
        decreases scale - dy,
    {
        let ghost row_start = buffer@;
        let mut dx: usize = 0;
        while dx < scale
            invariant
                dx <= scale,
                dy < scale,
                sane_frame(*info),
                x + scale <= usize::MAX,
                y + scale <= usize::MAX,
                buffer@ == paint_row(row_start, rgb_frame(*info), x as int, y + dy, dx as nat, white()),
            decreases scale - dx,
        {
            paint_dot(info, buffer, x + dx, y + dy);
            dx = dx + 1;
        }
        dy = dy + 1;
    }
}

/// Paints glyph `g` at `(x, y)`, `scale` times larger.
fn paint_big(info: &FrameInfo, buffer: &mut [u8], x: usize, y: usize, g: &[u8; 8], scale: usize)
    requires
        sane_frame(*info),
        x + 8 * scale <= usize::MAX,
        y + 8 * scale <= usize::MAX,
    ensures
        final(buffer)@ == paint_big_glyph(old(buffer)@, *info, x as int, y as int, g@, scale as nat, 8),
{
    let mut row: usize = 0;
    while row < 8
        invariant
            row <= 8,
            sane_frame(*info),
            x + 8 * scale <= usize::MAX,
            y + 8 * scale <= usize::MAX,
            buffer@ == paint_big_glyph(old(buffer)@, *info, x as int, y as int, g@, scale as nat, row as nat),
        decreases 8 - row,
    {
        let byte = g[row];
        let ghost row_start = buffer@;
        assert(row * scale + scale <= 8 * scale) by (nonlinear_arith)
            requires row < 8;
        let top = y + row * scale;
        let mut col: u8 = 0;
        while col < 8
            invariant
                col <= 8,
                row < 8,
                sane_frame(*info),
                x + 8 * scale <= usize::MAX,
                top + scale <= usize::MAX,
                top == y + row * scale,
                byte == g@[row as int],
                buffer@ == paint_big_row(row_start, *info, x as int, top as int, byte, scale as nat, col as nat),
            decreases 8 - col,
        {
            if (byte & (1u8 << col)) != 0 {
                assert(col * scale + scale <= 8 * scale) by (nonlinear_arith)
                    requires col < 8;
                paint_square(info, buffer, x + col as usize * scale, top, scale);
            }
            col = col + 1;
        }
        row = row + 1;
    }
}

/// Where the crash screen's text goes: the cursor `(x, y)`, how many pixels
/// wide a dot of the font is, and where lines start.
#[derive(Clone, Copy, Debug, PartialEq, Eq, Structural)]
pub struct CrashWriter {
    pub x: usize,
    pub y: usize,
    pub scale: usize,
    pub margin_x: usize,
}

/// The buffer and the writer after the character `c`: a newline moves to
/// the margin of the next line, `8 * scale + 10` pixels lower; any other
/// character is drawn (see `crash_glyph`), the cursor moves `8 * scale + 2`
/// to the right, and to the next line when another character would not fit
/// in the frame's width.
pub open spec fn crash_char(buf: Seq<u8>, info: FrameInfo, w: CrashWriter, c: char) -> (Seq<u8>, CrashWriter) {
    let next_line = CrashWriter { x: w.margin_x, y: (w.y + 8 * w.scale + 10) as usize, ..w };
    if c == '\n' {
        (buf, next_line)
    } else {
        let painted = match crash_glyph(c) {
            Some(g) => paint_big_glyph(buf, info, w.x as int, w.y as int, g@, w.scale as nat, 8),
            None => buf,
        };
        let nx = w.x + 8 * w.scale + 2;
        if nx + 8 * w.scale > info.width {
            (painted, next_line)
        } else {
            (painted, CrashWriter { x: nx as usize, ..w })
        }
    }
}

/// The buffer and the writer after the characters of `s`, first to last.
pub open spec fn crash_text(buf: Seq<u8>, info: FrameInfo, w: CrashWriter, s: Seq<char>) -> (Seq<u8>, CrashWriter)
    decreases s.len(),
{
    if s.len() == 0 {
        (buf, w)
    } else {
        let (b, w2) = crash_text(buf, info, w, s.drop_last());
        crash_char(b, info, w2, s.last())
    }
}

/// Whether `n` more characters can be written without a coordinate
/// leaving `usize`: the cursor, the margin and the frame's width leave room
/// for two characters, and `n` more lines leave room for one.
pub open spec fn crash_fits(w: CrashWriter, info: FrameInfo, n: nat) -> bool {
    &&& w.x + 16 * w.scale + 2 <= usize::MAX
    &&& w.margin_x + 16 * w.scale + 2 <= usize::MAX
    &&& info.width + 16 * w.scale + 2 <= usize::MAX
    &&& w.y + (n + 1) * (8 * w.scale + 10) <= usize::MAX
}

impl CrashWriter {
    /// Writes `s` onto the frame (see `crash_text`).
    pub fn write_str(&mut self, info: &FrameInfo, buffer: &mut [u8], s: &str)
        requires
            sane_frame(*info),
            crash_fits(*old(self), *info, s@.len()),
        ensures
            (final(buffer)@, *final(self)) == crash_text(old(buffer)@, *info, *old(self), s@),
    {
        broadcast use vstd::string::axiom_spec_iter;
        let ghost w0 = *self;
        let ghost b0 = buffer@;
        let ghost xb: int = if w0.x >= w0.margin_x && w0.x >= info.width { w0.x as int }
            else if w0.margin_x >= info.width { w0.margin_x as int } else { info.width as int };
        let ghost line: int = 8 * w0.scale + 10;
        for c in it: s.chars()
            invariant
                sane_frame(*info),
                it.seq() == s@,
                self.scale == w0.scale,
                self.margin_x == w0.margin_x,
                self.x <= xb,
                xb + 16 * w0.scale + 2 <= usize::MAX,
                w0.margin_x <= xb,
                info.width <= xb,
                line == 8 * w0.scale + 10,
                self.y + (s@.len() - it.index() + 1) * line <= usize::MAX,
                (buffer@, *self) == crash_text(b0, *info, w0, s@.take(it.index() as int)),
        {
            let ghost i = it.index();
            assert(s@.take(i + 1).drop_last() =~= s@.take(i as int));
            assert(s@.take(i + 1).last() == c);
            assert((s@.len() - i + 1) * line == (s@.len() - (i + 1) + 1) * line + line) by (nonlinear_arith);
            assert(8 * self.scale <= line);
            if c == '\n' {
                self.x = self.margin_x;
                self.y = self.y + 8 * self.scale + 10;
            } else {
                let g = match basic_glyph(c) {
                    Some(g) => Some(g),
                    None => basic_glyph('?'),
                };
                if let Some(bitmap) = g {
                    paint_big(info, buffer, self.x, self.y, &bitmap, self.scale);
                }
                self.x = self.x + 8 * self.scale + 2;
                if self.x + 8 * self.scale > info.width {
                    self.x = self.margin_x;
                    self.y = self.y + 8 * self.scale + 10;
                }
            }
        }
        assert(s@.take(s@.len() as int) =~= s@);
    }
}

} // verus!
