use rustos::compositor::{font_glyph, FrameInfo, GraphicalCompositor, PixelFormat};

fn frame(w: usize, h: usize, format: PixelFormat, bpp: usize) -> FrameInfo {
    FrameInfo { byte_len: w * h * bpp, width: w, height: h, stride: w, bytes_per_pixel: bpp, pixel_format: format }
}

#[test]
fn new_compositor_is_black_with_centered_mouse() {
    let c = GraphicalCompositor::new(frame(10, 6, PixelFormat::Rgb, 3));
    assert_eq!(c.backbuffer().len(), 180);
    assert!(c.backbuffer().iter().all(|b| *b == 0));
    assert_eq!((c.mouse_x, c.mouse_y), (5, 3));
    assert!(!c.mouse_left_down);
    assert_eq!(c.dragging_window, None);
}

#[test]
fn pixel_byte_order_follows_format() {
    let mut c = GraphicalCompositor::new(frame(4, 4, PixelFormat::Rgb, 4));
    c.draw_pixel(1, 2, 10, 20, 30);
    let off = (2 * 4 + 1) * 4;
    assert_eq!(&c.backbuffer()[off..off + 3], &[10, 20, 30]);

    let mut c = GraphicalCompositor::new(frame(4, 4, PixelFormat::Bgr, 4));
    c.draw_pixel(1, 2, 10, 20, 30);
    assert_eq!(&c.backbuffer()[off..off + 3], &[30, 20, 10]);

    let mut c = GraphicalCompositor::new(frame(4, 4, PixelFormat::U8, 1));
    c.draw_pixel(3, 3, 10, 20, 30);
    // a one-byte pixel at the very end has no room for three bytes
    assert!(c.backbuffer().iter().all(|b| *b == 0));
    c.draw_pixel(0, 0, 10, 20, 30);
    assert_eq!(c.backbuffer()[0], 30);
}

#[test]
fn pixels_outside_are_ignored() {
    let mut c = GraphicalCompositor::new(frame(4, 4, PixelFormat::Rgb, 3));
    c.draw_pixel(4, 0, 1, 1, 1);
    c.draw_pixel(0, 4, 1, 1, 1);
    assert!(c.backbuffer().iter().all(|b| *b == 0));
}

#[test]
fn rect_is_clipped() {
    let mut c = GraphicalCompositor::new(frame(4, 4, PixelFormat::Rgb, 3));
    c.draw_rect(2, 2, 5, 5, 9, 9, 9);
    let painted = c.backbuffer().chunks(3).filter(|p| p == &[9, 9, 9]).count();
    assert_eq!(painted, 4);
}

#[test]
fn glyphs_cover_ascii_and_latin1() {
    assert!(font_glyph('A').is_some());
    assert!(font_glyph('é').is_some());
    assert!(font_glyph('\u{0085}').is_none());
    assert!(font_glyph('€').is_none());
    assert_eq!(font_glyph(' '), Some([0u8; 8]));
}

#[test]
fn char_draws_its_bitmap() {
    let mut c = GraphicalCompositor::new(frame(8, 8, PixelFormat::Rgb, 3));
    c.draw_char(0, 0, '>', 0, 255, 0);
    let glyph = font_glyph('>').unwrap();
    let bits: u32 = glyph.iter().map(|b| b.count_ones()).sum();
    let painted = c.backbuffer().chunks(3).filter(|p| p == &[0, 255, 0]).count();
    assert_eq!(painted as u32, bits);
    assert!(bits > 0);
}

#[test]
fn desktop_fills_background() {
    let mut c = GraphicalCompositor::new(frame(500, 100, PixelFormat::Rgb, 3));
    c.render_desktop(false);
    let px = |x: usize, y: usize| {
        let o = (y * 500 + x) * 3;
        [c.backbuffer()[o], c.backbuffer()[o + 1], c.backbuffer()[o + 2]]
    };
    assert_eq!(px(0, 50), [43, 48, 59]);
    assert_eq!(px(100, 10), [238, 238, 242]);
    assert_eq!(px(12, 8), [50, 120, 220]);
    // the dock: x from 30, y from 25
    assert_eq!(px(31, 26), [255, 255, 255]);
}

fn pixel(c: &GraphicalCompositor, w: usize, x: usize, y: usize) -> [u8; 3] {
    let o = (y * w + x) * 3;
    [c.backbuffer()[o], c.backbuffer()[o + 1], c.backbuffer()[o + 2]]
}

#[test]
fn dock_narrows_on_small_screens() {
    // 450 pixels: (450 - 40) / 85 = 4 icons, a dock 4 * 85 + 15 = 355 wide at x 47
    let mut c = GraphicalCompositor::new(frame(450, 100, PixelFormat::Rgb, 3));
    c.render_desktop(false);
    assert_eq!(pixel(&c, 450, 46, 30), [43, 48, 59]);
    assert_eq!(pixel(&c, 450, 47, 30), [255, 255, 255]);
    assert_eq!(pixel(&c, 450, 401, 30), [255, 255, 255]);
    assert_eq!(pixel(&c, 450, 402, 30), [43, 48, 59]);
    // a screen too small for any icon still gets its desktop, without a panic
    let mut tiny = GraphicalCompositor::new(frame(30, 20, PixelFormat::Rgb, 3));
    tiny.render_desktop(true);
    assert_eq!(pixel(&tiny, 30, 0, 0), [238, 238, 242]);
}

#[test]
fn network_indicator_shows_the_state() {
    let count = |c: &GraphicalCompositor, color: [u8; 3]| {
        (0..28).flat_map(|y| (400..500).map(move |x| (x, y))).filter(|&(x, y)| pixel(c, 500, x, y) == color).count()
    };
    let mut on = GraphicalCompositor::new(frame(500, 100, PixelFormat::Rgb, 3));
    on.render_desktop(true);
    assert!(count(&on, [0, 255, 0]) > 0);
    assert_eq!(count(&on, [255, 0, 0]), 0);
    let mut off = GraphicalCompositor::new(frame(500, 100, PixelFormat::Rgb, 3));
    off.render_desktop(false);
    assert!(count(&off, [255, 0, 0]) > 0);
    assert_eq!(count(&off, [0, 255, 0]), 0);
}

#[test]
fn latin_table_lacks_two_characters() {
    assert!(font_glyph('\u{B3}').is_none());
    assert!(font_glyph('\u{B4}').is_none());
    assert!(font_glyph('\u{B2}').is_some());
    assert!(font_glyph('\u{B5}').is_some());
    assert!(font_glyph('\u{E9}').is_some());
    assert!(font_glyph('\u{100}').is_none());
}
