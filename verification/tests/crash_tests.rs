use font8x8::UnicodeFonts;
use rustos::compositor::{FrameInfo, PixelFormat};
use rustos::crash::{fill_crash_screen, CrashWriter};

fn frame(w: usize, h: usize, bpp: usize, format: PixelFormat) -> FrameInfo {
    FrameInfo { byte_len: w * h * bpp, width: w, height: h, stride: w, bytes_per_pixel: bpp, pixel_format: format }
}

#[test]
fn crash_fill_paints_each_pixel_red() {
    let mut rgb = [9u8; 7];
    fill_crash_screen(&frame(2, 1, 3, PixelFormat::Rgb), &mut rgb);
    assert_eq!(rgb, [170, 0, 0, 170, 0, 0, 9]);
    let mut bgr = [9u8; 8];
    fill_crash_screen(&frame(2, 1, 4, PixelFormat::Bgr), &mut bgr);
    assert_eq!(bgr, [0, 0, 170, 9, 0, 0, 170, 9]);
}

#[test]
fn crash_fill_with_one_byte_pixels_overlaps() {
    // every byte starts a pixel, and each pixel writes three bytes
    let mut buf = [9u8; 5];
    fill_crash_screen(&frame(5, 1, 1, PixelFormat::U8), &mut buf);
    assert_eq!(buf, [170, 170, 170, 0, 0]);
}

fn white(buf: &[u8], f: &FrameInfo, x: usize, y: usize) -> bool {
    let o = (y * f.stride + x) * f.bytes_per_pixel;
    buf[o..o + 3] == [255, 255, 255]
}

#[test]
fn crash_text_draws_scaled_glyphs() {
    let f = frame(60, 40, 3, PixelFormat::Bgr);
    let mut buf = vec![0u8; 60 * 40 * 3];
    let mut w = CrashWriter { x: 2, y: 2, scale: 2, margin_x: 2 };
    w.write_str(&f, &mut buf, "A");
    assert_eq!(w, CrashWriter { x: 20, y: 2, scale: 2, margin_x: 2 });
    let glyph = font8x8::BASIC_FONTS.get('A').unwrap();
    let mut set = 0;
    for (row, byte) in glyph.iter().enumerate() {
        for col in 0..8 {
            let on = byte & (1 << col) != 0;
            for d in 0..4 {
                assert_eq!(white(&buf, &f, 2 + col * 2 + d % 2, 2 + row * 2 + d / 2), on);
            }
            if on {
                set += 1;
            }
        }
    }
    assert_eq!(buf.iter().filter(|b| **b == 255).count(), set * 4 * 3);
}

#[test]
fn crash_text_moves_the_cursor() {
    let f = frame(30, 100, 3, PixelFormat::Rgb);
    let mut buf = vec![0u8; 30 * 100 * 3];
    let mut w = CrashWriter { x: 2, y: 2, scale: 2, margin_x: 2 };
    // 20 + 16 > 30: the next character would not fit, so the line wraps
    w.write_str(&f, &mut buf, "A");
    assert_eq!((w.x, w.y), (2, 28));
    w.write_str(&f, &mut buf, "\n");
    assert_eq!((w.x, w.y), (2, 54));
}

#[test]
fn crash_text_shows_a_question_mark_for_other_characters() {
    let f = frame(40, 40, 3, PixelFormat::Rgb);
    let mut a = vec![0u8; 40 * 40 * 3];
    let mut b = vec![0u8; 40 * 40 * 3];
    CrashWriter { x: 1, y: 1, scale: 1, margin_x: 1 }.write_str(&f, &mut a, "\u{e9}");
    CrashWriter { x: 1, y: 1, scale: 1, margin_x: 1 }.write_str(&f, &mut b, "?");
    assert_eq!(a, b);
    assert!(a.iter().any(|x| *x == 255));
}
