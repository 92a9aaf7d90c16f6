use rustos::app::Event;
use rustos::browser::BrowserApp;
use rustos::browser_screen::browser_layout;
use rustos::compositor::{DrawCmd, FrameInfo, GraphicalCompositor, PixelFormat};
use rustos::desktop::{add_window, boot_frame, dispatch_keyboard_event, dispatch_keycode_event, first_window, DesktopApp, DrawEnv};
use rustos::filemanager::FileManagerApp;
use rustos::filemanager_screen::finder_layout;
use rustos::fs::RamFs;
use rustos::notepad::NotepadApp;
use rustos::notepad_screen::notepad_layout;
use rustos::pci::PciScan;
use rustos::rtc::DateTime;
use rustos::settings::SettingsApp;
use rustos::settings_screen::settings_layout;
use rustos::taskmanager::TaskManagerApp;
use rustos::taskmanager_screen::taskmanager_layout;
use rustos::terminal::{TerminalAction, TerminalApp};
use rustos::terminal_screen::terminal_layout;
use rustos::window::Window;

fn glyphs(cmds: &[DrawCmd]) -> usize {
    cmds.iter().filter(|c| matches!(c, DrawCmd::Glyph { .. })).count()
}

fn clock() -> DateTime {
    DateTime { year: 2024, month: 1, day: 2, hour: 3, minute: 4, second: 5 }
}

#[test]
fn terminal_screen_wraps_and_scrolls() {
    let mut t = TerminalApp::new();
    // 10 characters a row, 6 rows: 7 rows of text scroll by one
    assert_eq!(t.fit_scroll(100, 100), 1);
    assert_eq!(t.scroll_y(), 1);
    let cmds = terminal_layout(&t, 0, 0, 100, 100);
    assert!(matches!(cmds[0], DrawCmd::Rect { x: 0, y: 0, w: 100, h: 100, color: (0, 0, 0) }));
    // the first row (10 characters) is scrolled away; the second starts with the space after "to"
    assert!(matches!(cmds[1], DrawCmd::Glyph { x: 10, y: 10, c: ' ', .. }));
    assert_eq!(cmds.len(), 1 + 17 + 25 + 2 + 1);
    assert!(matches!(cmds[cmds.len() - 1], DrawCmd::Rect { x: 26, y: 70, w: 8, h: 10, color: (0, 255, 0) }));
}

#[test]
fn notepad_screen_places_cursor_after_text() {
    let mut n = NotepadApp::new();
    assert_eq!(n.fit_scroll(400, 100), 0);
    let cmds = notepad_layout(&n, false, 0, 0, 400, 100);
    assert_eq!(glyphs(&cmds), 26 + 17);
    assert!(matches!(cmds[0], DrawCmd::Rect { color: (255, 255, 255), .. }));
    assert!(matches!(cmds[cmds.len() - 1], DrawCmd::Rect { x: 10, y: 46, w: 8, h: 10, color: (0, 0, 0) }));
    let dark = notepad_layout(&n, true, 0, 0, 400, 100);
    assert!(matches!(dark[0], DrawCmd::Rect { color: (30, 30, 35), .. }));
}

#[test]
fn browser_screen_lists_elements() {
    let mut b = BrowserApp::new();
    b.parse_dummy_html();
    let cmds = browser_layout(&b, 0, 0, 300, 200);
    assert_eq!(cmds.len(), 2 + 16 + 1 + 25 + 10);
    assert!(matches!(cmds[19], DrawCmd::Glyph { x: 20, y: 50, c: 'W', color: (50, 50, 150) }));
    assert!(matches!(cmds[44], DrawCmd::Glyph { x: 20, y: 80, c: 'L', color: (0, 0, 0) }));
}

#[test]
fn finder_screen_rows() {
    let mut fs = RamFs::new();
    let f = FileManagerApp::new(&fs);
    let frame = 2 + 9 + 8 + 10 + 1 + 33 + 2;
    assert_eq!(finder_layout(&f, false, 0, 0, 400, 300).len(), frame);
    fs.write_file("a.txt", b"");
    let f = FileManagerApp::new(&fs);
    let cmds = finder_layout(&f, false, 0, 0, 400, 300);
    assert_eq!(cmds.len(), frame + 5 + 5);
    assert!(matches!(cmds[frame], DrawCmd::Rect { x: 130, y: 50, w: 16, h: 20, .. }));
}

#[test]
fn finder_cuts_long_names() {
    let mut fs = RamFs::new();
    fs.write_file("abcdefghijklmnop", b"");
    let f = FileManagerApp::new(&fs);
    // 200 - 120 = 80 pixels of content: (80 - 40) / 8 = 5 characters
    let cmds = finder_layout(&f, false, 0, 0, 200, 300);
    let shown: String = cmds
        .iter()
        .filter_map(|c| match c {
            DrawCmd::Glyph { y: 54, c, .. } => Some(*c),
            _ => None,
        })
        .collect();
    assert_eq!(shown, "ab...");
}

#[test]
fn finder_cuts_non_ascii_names_by_bytes() {
    let mut fs = RamFs::new();
    fs.write_file("\u{e9}\u{e9}\u{e9}\u{e9}\u{e9}\u{e9}\u{e9}", b"");
    let f = FileManagerApp::new(&fs);
    // five characters of room: the first two bytes are kept, one character
    let cmds = finder_layout(&f, false, 0, 0, 200, 300);
    let shown: String = cmds
        .iter()
        .filter_map(|c| match c {
            DrawCmd::Glyph { y: 54, c, .. } => Some(*c),
            _ => None,
        })
        .collect();
    assert_eq!(shown, "\u{e9}...");
}

#[test]
fn render_checked_refuses_a_cut_inside_a_character() {
    let env = DrawEnv { dark: false, clock: clock(), used: 0, total: 0, online: false };
    let mut fs = RamFs::new();
    fs.write_file("\u{e9}\u{e9}\u{e9}\u{e9}\u{e9}\u{e9}\u{e9}", b"");
    let mut c = GraphicalCompositor::new(frame(600, 400));
    // 208 pixels wide: six characters of room, so the name is cut after three bytes
    let mut odd = vec![Some(Window::new(DesktopApp::FileManager(FileManagerApp::new(&fs)), 10, 10, 208, 200))];
    assert!(!c.render_checked(&mut odd, &env));
    // 200 pixels wide: five characters of room, a cut after two bytes
    let mut even = vec![Some(Window::new(DesktopApp::FileManager(FileManagerApp::new(&fs)), 10, 10, 200, 200))];
    assert!(c.render_checked(&mut even, &env));
}

#[test]
fn settings_screen_system_tab() {
    let s = SettingsApp::new();
    let cmds = settings_layout(&s, false, &clock(), 2 * 1024 * 1024, 16 * 1024 * 1024, 0, 0, 600, 400);
    let tabs = (26 + 1 + "System Info".len()) + "Date & Time".len() + "Appearance".len();
    let info = "System Information".len() + 1 + 60 + "RustOS".len() + "OS Name:      RustOS v0.2".len()
        + "Architecture: x86_64 Bare-Metal".len() + "Compiler:     Rust 1.96 Nightly".len()
        + "Memory Used:  2 MB / 16 MB".len() + 2;
    assert_eq!(cmds.len(), 1 + 400 + 1 + "Settings".len() + tabs + info);
    // the memory bar is filled to 2/16 of 300 pixels
    assert!(matches!(cmds[cmds.len() - 1], DrawCmd::Rect { x: 180, y: 180, w: 37, h: 10, color: (0, 200, 100) }));
}

#[test]
fn settings_screen_clock_tab() {
    let mut s = SettingsApp::new();
    s.handle_event(Event::MouseClick { x: 30, y: 95 });
    let cmds = settings_layout(&s, true, &clock(), 0, 0, 0, 0, 600, 400);
    let time: String = cmds
        .iter()
        .filter_map(|c| match c {
            DrawCmd::Glyph { y: 80, c, color: (0, 120, 255), .. } => Some(*c),
            _ => None,
        })
        .collect();
    // a new settings app starts in the Germany (+1) zone
    assert_eq!(time, "2024-01-02 04:04:05");
}

#[test]
fn settings_clock_follows_the_time_zone() {
    let shown = |s: &SettingsApp, clock: &DateTime| -> String {
        settings_layout(s, true, clock, 0, 0, 0, 0, 600, 400)
            .iter()
            .filter_map(|c| match c {
                DrawCmd::Glyph { y: 80, c, color: (0, 120, 255), .. } => Some(*c),
                _ => None,
            })
            .collect()
    };
    let mut s = SettingsApp::new();
    s.handle_event(Event::MouseClick { x: 30, y: 95 });
    // the time zone box: Germany (+1) at first, then Japan (+9), then UTC
    assert_eq!(s.timezone_offset(), 1);
    assert_eq!(shown(&s, &clock()), "2024-01-02 04:04:05");
    s.handle_event(Event::MouseClick { x: 300, y: 120 });
    assert_eq!(s.timezone_offset(), 9);
    let late = DateTime { year: 2024, month: 2, day: 28, hour: 20, minute: 0, second: 0 };
    assert_eq!(shown(&s, &late), "2024-02-29 05:00:00");
    let new_year = DateTime { year: 2023, month: 12, day: 31, hour: 23, minute: 59, second: 59 };
    assert_eq!(shown(&s, &new_year), "2024-01-01 08:59:59");
    s.handle_event(Event::MouseClick { x: 300, y: 120 });
    assert_eq!(s.timezone_offset(), 0);
    assert_eq!(shown(&s, &clock()), "2024-01-02 03:04:05");
}

#[test]
fn taskmanager_screen_sections() {
    let mut t = TaskManagerApp::new();
    assert_eq!(t.fit_scroll(600, 400), 0);
    let cmds = taskmanager_layout(&t, 0, 0, 600, 400);
    let perf = 1 + 1 + 50 + "CPU Usage: 0%".len() + 1 + 50 + "RAM Usage: 0MB / 128MB".len();
    assert_eq!(
        cmds.len(),
        1 + (1 + "[-] Performance Monitor".len()) + perf + (1 + "[+] OS Analysis".len())
            + (1 + "[+] Device Info".len()) + (1 + "[+] Support".len())
    );
}

fn frame(w: usize, h: usize) -> FrameInfo {
    FrameInfo { byte_len: w * h * 3, width: w, height: h, stride: w, bytes_per_pixel: 3, pixel_format: PixelFormat::Rgb }
}

#[test]
fn render_all_draws_windows_and_pointer() {
    let mut c = GraphicalCompositor::new(frame(600, 400));
    let mut windows = vec![Some(Window::new(DesktopApp::Notepad(NotepadApp::new()), 100, 50, 400, 300)), None];
    let env = DrawEnv { dark: false, clock: clock(), used: 0, total: 0, online: false };
    c.render_all(&mut windows, &env);
    assert_eq!(windows.len(), 2);
    let px = |c: &GraphicalCompositor, x: usize, y: usize| {
        let o = (y * 600 + x) * 3;
        [c.backbuffer()[o], c.backbuffer()[o + 1], c.backbuffer()[o + 2]]
    };
    assert_eq!(px(&c, 150, 55), [60, 60, 60]);
    assert_eq!(px(&c, 485, 55), [220, 50, 50]);
    assert_eq!(px(&c, 105, 75), [255, 255, 255]);
    assert_eq!(px(&c, 300, 200), [5, 5, 10]);
    assert_eq!(px(&c, 301, 200), [255, 255, 255]);
}

#[test]
fn keys_go_to_front_window() {
    let mut fs = RamFs::new();
    let mut windows = vec![
        Some(Window::new(DesktopApp::Notepad(NotepadApp::new()), 0, 0, 100, 100)),
        Some(Window::new(DesktopApp::Terminal(TerminalApp::new()), 0, 0, 100, 100)),
    ];
    for c in "ls".chars() {
        dispatch_keyboard_event(&mut windows, c, &mut fs);
    }
    assert_eq!(dispatch_keyboard_event(&mut windows, '\n', &mut fs), TerminalAction::Nothing);
    match &windows[1] {
        Some(w) => match &w.app {
            DesktopApp::Terminal(t) => assert_eq!(t.output().last().unwrap().0.as_str(), "(empty)"),
            _ => panic!("terminal expected"),
        },
        None => panic!("window expected"),
    }
    match &windows[0] {
        Some(w) => match &w.app {
            DesktopApp::Notepad(n) => assert!(n.text().ends_with("\n\n")),
            _ => panic!("notepad expected"),
        },
        None => panic!("window expected"),
    }
    let mut none: Vec<Option<Window<DesktopApp>>> = vec![None];
    assert_eq!(dispatch_keyboard_event(&mut none, 'x', &mut fs), TerminalAction::Nothing);
}

#[test]
fn added_window_goes_in_front() {
    let mut fs = RamFs::new();
    let mut windows: Vec<Option<Window<DesktopApp>>> = vec![None];
    add_window(&mut windows, Window::new(DesktopApp::Notepad(NotepadApp::new()), 1, 2, 300, 200));
    assert_eq!(windows.len(), 2);
    assert!(windows[0].is_none());
    dispatch_keyboard_event(&mut windows, 'q', &mut fs);
    match &windows[1] {
        Some(w) => match &w.app {
            DesktopApp::Notepad(n) => assert!(n.text().ends_with('q')),
            _ => panic!("not a notepad"),
        },
        None => panic!("no window"),
    }
}

#[test]
fn desktop_apps_tick() {
    let mut fs = RamFs::new();
    let mut term = DesktopApp::Terminal(TerminalApp::new());
    assert_eq!(term.title(), "Terminal");
    assert!(!term.is_pinging());
    for c in "ping 10.0.2.2\n".chars() {
        term.handle_key(Event::KeyPress(c), &mut fs);
    }
    assert!(term.is_pinging());
    assert_eq!(term.update(&fs, None), Some(([10, 0, 2, 2], 1)));
    assert_eq!(term.update(&fs, None), None);
    let mut settings = DesktopApp::Settings(SettingsApp::new());
    assert_eq!(settings.title(), "System Settings");
    assert_eq!(settings.update(&fs, Some(3)), None);
    assert!(!settings.is_pinging());
    let mut finder = DesktopApp::FileManager(FileManagerApp::new(&fs));
    assert_eq!(finder.title(), "Finder");
    fs.write_file("late.txt", b"");
    for _ in 0..60 {
        assert_eq!(finder.update(&fs, None), None);
    }
    match &finder {
        DesktopApp::FileManager(f) => assert_eq!(f.items().len(), 1),
        _ => panic!("not a file manager"),
    }
    assert_eq!(DesktopApp::Notepad(NotepadApp::new()).title(), "Notepad");
    assert_eq!(DesktopApp::TaskManager(TaskManagerApp::new()).title(), "Task Manager");
    assert_eq!(DesktopApp::Browser(BrowserApp::new()).title(), "Web Browser");
}

#[test]
fn key_codes_leave_the_applications_as_they_are() {
    let mut fs = RamFs::new();
    let mut windows: Vec<Option<Window<DesktopApp>>> = vec![];
    assert_eq!(dispatch_keycode_event(&mut windows, 0x48, &mut fs), TerminalAction::Nothing);
    add_window(&mut windows, Window::new(DesktopApp::Terminal(TerminalApp::new()), 0, 0, 300, 200));
    assert_eq!(dispatch_keycode_event(&mut windows, 0x48, &mut fs), TerminalAction::Nothing);
    match &windows[0] {
        Some(w) => match &w.app {
            DesktopApp::Terminal(t) => {
                assert!(t.input_buffer().is_empty());
                assert_eq!(t.output().len(), 2);
            }
            _ => panic!("not a terminal"),
        },
        None => panic!("no window"),
    }
}

#[test]
fn first_window_is_centered() {
    assert_eq!(first_window(1024, 768), (100, 55, 824, 618));
    assert_eq!(first_window(500, 300), (20, 20, 460, 220));
}

#[test]
fn boot_frame_text() {
    let cmds = boot_frame(800, 600, 100);
    assert_eq!(cmds.len(), 1 + 12);
    assert!(matches!(cmds[1], DrawCmd::Glyph { x: 352, y: 300, c: 'R', color: (100, 100, 100) }));
}

#[test]
fn pci_scan_records_answering_slots() {
    let mut scan = PciScan::new();
    let mut reads = 0;
    while let Some((bus, device, function)) = scan.next_slot() {
        reads += 1;
        let id = if bus == 0 && device == 3 && function == 0 { 0x100E_8086 } else { 0xFFFF_FFFF };
        if scan.on_id(id) {
            scan.on_details(0x0200_0000, [0xFEBC_0000, 0, 0, 0, 0, 0]);
        }
    }
    assert!(scan.is_done());
    assert_eq!(reads, 65536);
    let devices = scan.into_devices();
    assert_eq!(devices.len(), 1);
    assert_eq!((devices[0].bus, devices[0].device, devices[0].function), (0, 3, 0));
    assert_eq!(devices[0].device_id, 0x100E);
    assert_eq!(devices[0].class, 2);
}

#[test]
fn mouse_moves_within_screen() {
    let mut c = GraphicalCompositor::new(frame(600, 400));
    c.move_mouse(-1000, 50, true);
    assert_eq!((c.mouse_x, c.mouse_y), (0, 250));
    assert!(c.mouse_left_down);
    c.move_mouse(10_000, 10_000, false);
    assert_eq!((c.mouse_x, c.mouse_y), (599, 399));
    assert!(!c.mouse_left_down);
}

#[test]
fn cpu_banner_lists_flags() {
    assert_eq!(rustos::desktop::cpu_banner(true, false, true, false).as_str(), "CPU Features: [SSE4.2] [AVX] ");
    assert_eq!(rustos::desktop::cpu_banner(false, false, false, false).as_str(), "CPU Features: ");
}

#[test]
fn render_checked_refuses_what_does_not_fit() {
    let env = DrawEnv { dark: false, clock: clock(), used: 0, total: 0, online: false };
    // any screen size is drawn, a small one too
    let mut small = GraphicalCompositor::new(frame(30, 20));
    let mut windows: Vec<Option<Window<DesktopApp>>> = vec![];
    assert!(small.render_checked(&mut windows, &env));
    assert!(small.backbuffer().iter().any(|b| *b != 0));
    let mut c = GraphicalCompositor::new(frame(600, 400));
    // a terminal 25 pixels wide has no room for a single character
    let mut narrow = vec![Some(Window::new(DesktopApp::Terminal(TerminalApp::new()), 10, 10, 25, 100))];
    assert!(!c.render_checked(&mut narrow, &env));
    let mut fine = vec![Some(Window::new(DesktopApp::Terminal(TerminalApp::new()), 10, 10, 300, 200))];
    assert!(c.render_checked(&mut fine, &env));
}

#[test]
fn render_checked_refuses_an_overlong_input() {
    let env = DrawEnv { dark: false, clock: clock(), used: 0, total: 0, online: false };
    let mut fs = RamFs::new();
    let mut t = TerminalApp::new();
    for _ in 0..rustos::desktop::TEXT_LIMIT + 1 {
        t.handle_event(Event::KeyPress('x'), &mut fs);
    }
    let mut c = GraphicalCompositor::new(frame(600, 400));
    let mut long = vec![Some(Window::new(DesktopApp::Terminal(t), 10, 10, 300, 200))];
    assert!(!c.render_checked(&mut long, &env));
}

#[test]
fn renderer_copies_prefix() {
    let r = rustos::renderer::IntelligentRenderer::init();
    let src = [1u8, 2, 3, 4];
    let mut dst = [9u8; 6];
    r.draw_dirty_rect(&src, &mut dst, 3);
    assert_eq!(dst, [1, 2, 3, 9, 9, 9]);
}
