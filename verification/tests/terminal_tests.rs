use rustos::app::Event;
use rustos::fs::RamFs;
use rustos::rtc::DateTime;
use rustos::terminal::{CpuFeatures, TerminalAction, TerminalApp, MAX_LINES};

const GREEN: (u8, u8, u8) = (0, 255, 0);
const RED: (u8, u8, u8) = (255, 0, 0);
const WHITE: (u8, u8, u8) = (255, 255, 255);

fn run(t: &mut TerminalApp, fs: &mut RamFs, cmd: &str) -> TerminalAction {
    for c in cmd.chars() {
        assert_eq!(t.handle_event(Event::KeyPress(c), fs), TerminalAction::Nothing);
    }
    t.handle_event(Event::KeyPress('\n'), fs)
}

fn last_lines(t: &TerminalApp, n: usize) -> Vec<(String, (u8, u8, u8))> {
    let out = t.output();
    out[out.len() - n..].to_vec()
}

fn line(s: &str, c: (u8, u8, u8)) -> (String, (u8, u8, u8)) {
    (String::from(s), c)
}

#[test]
fn new_terminal_greets() {
    let t = TerminalApp::new();
    assert_eq!(
        t.output().clone(),
        vec![line("Welcome to RustOS Terminal!", GREEN), line("Type 'help' for commands.", GREEN)]
    );
    assert_eq!(t.title(), "Terminal");
    assert_eq!(t.scroll_y(), -1);
    assert!(t.input_buffer().is_empty());
}

#[test]
fn typing_and_backspace_edit_input() {
    let mut t = TerminalApp::new();
    let mut fs = RamFs::new();
    t.handle_event(Event::KeyPress('a'), &mut fs);
    t.handle_event(Event::KeyPress('b'), &mut fs);
    t.handle_event(Event::KeyPress('\x08'), &mut fs);
    assert_eq!(t.input_buffer().as_str(), "a");
    t.handle_event(Event::KeyPress('\x08'), &mut fs);
    t.handle_event(Event::KeyPress('\x08'), &mut fs);
    assert_eq!(t.input_buffer().as_str(), "");
}

#[test]
fn backspace_undoes_typing() {
    let mut t = TerminalApp::new();
    let mut fs = RamFs::new();
    t.handle_event(Event::KeyPress('l'), &mut fs);
    t.handle_event(Event::KeyPress('s'), &mut fs);
    let input = t.input_buffer().clone();
    let output = t.output().clone();
    assert_eq!(t.handle_event(Event::KeyPress('\u{e9}'), &mut fs), TerminalAction::Nothing);
    assert_eq!(t.handle_event(Event::KeyPress('\x08'), &mut fs), TerminalAction::Nothing);
    assert_eq!(t.input_buffer(), &input);
    assert_eq!(t.output(), &output);
    assert!(!t.is_pinging());
}

#[test]
fn echo_prints_words() {
    let mut t = TerminalApp::new();
    let mut fs = RamFs::new();
    run(&mut t, &mut fs, "  echo   hello    world ");
    assert_eq!(
        last_lines(&t, 2),
        vec![line("> echo   hello    world", WHITE), line("hello world", GREEN)]
    );
    assert!(t.input_buffer().is_empty());
}

#[test]
fn echo_redirect_then_cat() {
    let mut t = TerminalApp::new();
    let mut fs = RamFs::new();
    run(&mut t, &mut fs, "echo hi there > note.txt");
    assert_eq!(last_lines(&t, 1), vec![line("File written", GREEN)]);
    assert_eq!(fs.read_file("note.txt"), Some(b"hi there".to_vec()));
    // a redirect leaves the typed line in place
    assert_eq!(t.input_buffer().as_str(), "echo hi there > note.txt");
    for _ in 0.."echo hi there > note.txt".len() {
        t.handle_event(Event::KeyPress('\x08'), &mut fs);
    }
    run(&mut t, &mut fs, "cat note.txt");
    assert_eq!(last_lines(&t, 1), vec![line("hi there", GREEN)]);
}

#[test]
fn echo_redirect_without_target_prints() {
    let mut t = TerminalApp::new();
    let mut fs = RamFs::new();
    run(&mut t, &mut fs, "echo a >");
    assert_eq!(last_lines(&t, 1), vec![line("a >", GREEN)]);
    run(&mut t, &mut fs, "echo");
    assert_eq!(last_lines(&t, 1), vec![line("", GREEN)]);
}

#[test]
fn cat_missing_and_binary() {
    let mut t = TerminalApp::new();
    let mut fs = RamFs::new();
    run(&mut t, &mut fs, "cat nope");
    assert_eq!(last_lines(&t, 1), vec![line("File not found", RED)]);
    fs.write_file("bin", &[0xff, 0xfe]);
    run(&mut t, &mut fs, "cat bin");
    assert_eq!(last_lines(&t, 1), vec![line("(Binary data)", RED)]);
    run(&mut t, &mut fs, "cat");
    assert_eq!(last_lines(&t, 1), vec![line("Usage: cat <filename>", RED)]);
}

#[test]
fn mkdir_cd_pwd_ls() {
    let mut t = TerminalApp::new();
    let mut fs = RamFs::new();
    run(&mut t, &mut fs, "pwd");
    assert_eq!(last_lines(&t, 1), vec![line("/", GREEN)]);
    run(&mut t, &mut fs, "ls");
    assert_eq!(last_lines(&t, 1), vec![line("(empty)", GREEN)]);
    run(&mut t, &mut fs, "mkdir docs");
    assert_eq!(last_lines(&t, 1), vec![line("Created directory", GREEN)]);
    run(&mut t, &mut fs, "touch readme");
    assert_eq!(last_lines(&t, 1), vec![line("Created file", GREEN)]);
    run(&mut t, &mut fs, "ls");
    assert_eq!(last_lines(&t, 2), vec![line("[DIR] docs", GREEN), line("readme", GREEN)]);
    run(&mut t, &mut fs, "cd docs");
    run(&mut t, &mut fs, "pwd");
    assert_eq!(last_lines(&t, 1), vec![line("docs", GREEN)]);
    run(&mut t, &mut fs, "touch a.txt");
    assert_eq!(fs.read_file("docs/a.txt"), Some(vec![]));
    run(&mut t, &mut fs, "cd ..");
    run(&mut t, &mut fs, "pwd");
    assert_eq!(last_lines(&t, 1), vec![line("/", GREEN)]);
    run(&mut t, &mut fs, "cd nowhere");
    assert_eq!(last_lines(&t, 1), vec![line("Directory not found", RED)]);
    run(&mut t, &mut fs, "cd docs");
    run(&mut t, &mut fs, "cd /");
    run(&mut t, &mut fs, "pwd");
    assert_eq!(last_lines(&t, 1), vec![line("/", GREEN)]);
}

#[test]
fn rm_reports() {
    let mut t = TerminalApp::new();
    let mut fs = RamFs::new();
    fs.write_file("x", b"1");
    run(&mut t, &mut fs, "rm x");
    assert_eq!(last_lines(&t, 1), vec![line("Deleted file", GREEN)]);
    run(&mut t, &mut fs, "rm x");
    assert_eq!(last_lines(&t, 1), vec![line("File not found", RED)]);
    run(&mut t, &mut fs, "rm");
    assert_eq!(last_lines(&t, 1), vec![line("Usage: rm <filename>", RED)]);
}

#[test]
fn unknown_command_and_empty_line() {
    let mut t = TerminalApp::new();
    let mut fs = RamFs::new();
    run(&mut t, &mut fs, "frobnicate now");
    assert_eq!(last_lines(&t, 1), vec![line("Unknown command: frobnicate", RED)]);
    let before = t.output().len();
    run(&mut t, &mut fs, "   ");
    assert_eq!(t.output().len(), before + 1);
    assert_eq!(last_lines(&t, 1), vec![line("> ", WHITE)]);
}

#[test]
fn uname_and_mem() {
    let mut t = TerminalApp::new();
    let mut fs = RamFs::new();
    run(&mut t, &mut fs, "uname");
    assert_eq!(last_lines(&t, 1), vec![line("RustOS x86_64", GREEN)]);
    run(&mut t, &mut fs, "uname -a");
    assert_eq!(last_lines(&t, 1), vec![line("RustOS x86_64 1.0.0 Custom Kernel", GREEN)]);
    run(&mut t, &mut fs, "mem");
    assert_eq!(
        last_lines(&t, 2),
        vec![line("RAM: 23 MB / 128 MB", GREEN), line("[|||                 ]", GREEN)]
    );
}

#[test]
fn help_variants() {
    let mut t = TerminalApp::new();
    let mut fs = RamFs::new();
    run(&mut t, &mut fs, "help");
    assert_eq!(
        last_lines(&t, 6)[0],
        line("RustOS v0.2 - Available Commands", (0, 200, 255))
    );
    run(&mut t, &mut fs, "help sysfetch");
    assert_eq!(last_lines(&t, 2)[0], line("Command: sysfetch", (0, 200, 255)));
    run(&mut t, &mut fs, "help xyz");
    assert_eq!(last_lines(&t, 1), vec![line("No detailed help available for 'xyz'.", RED)]);
}

#[test]
fn sysfetch_shows_uptime() {
    let mut t = TerminalApp::new();
    let mut fs = RamFs::new();
    for _ in 0..7 {
        t.update(None);
    }
    run(&mut t, &mut fs, "sysfetch");
    assert_eq!(last_lines(&t, 3)[0], line("  Uptime: 7 ticks", GREEN));
}

#[test]
fn clear_empties_output() {
    let mut t = TerminalApp::new();
    let mut fs = RamFs::new();
    run(&mut t, &mut fs, "clear");
    assert!(t.output().is_empty());
}

#[test]
fn actions_for_machine_commands() {
    let mut t = TerminalApp::new();
    let mut fs = RamFs::new();
    assert_eq!(run(&mut t, &mut fs, "date"), TerminalAction::ShowDate);
    t.show_date(&DateTime { second: 5, minute: 4, hour: 3, day: 2, month: 1, year: 2024 });
    assert_eq!(last_lines(&t, 1), vec![line("2024-01-02 03:04:05 UTC", GREEN)]);
    assert_eq!(run(&mut t, &mut fs, "sysinfo"), TerminalAction::ShowCpuInfo);
    assert_eq!(run(&mut t, &mut fs, "reboot"), TerminalAction::Reboot);
    assert_eq!(last_lines(&t, 1), vec![line("Rebooting...", GREEN)]);
}

#[test]
fn cpu_info_lines() {
    let mut t = TerminalApp::new();
    let f = CpuFeatures {
        fpu: true, vme: false, de: false, pse: true, tsc: false, msr: false, pae: false, mce: false,
        apic: false, mtrr: false, pge: false, mca: false, cmov: false, pat: false, mmx: false,
        sse: false, sse2: true, htt: false,
    };
    t.show_cpu_info(Some(String::from("GenuineIntel")), Some(f));
    assert_eq!(
        last_lines(&t, 2),
        vec![line("CPU Vendor: GenuineIntel", GREEN), line("Features: FPU PSE SSE2", GREEN)]
    );
    t.show_cpu_info(None, None);
    assert_eq!(
        last_lines(&t, 2),
        vec![line("CPU Vendor: Unknown", RED), line("Features: Unknown", RED)]
    );
}

#[test]
fn ping_runs_five_rounds_then_stops() {
    let mut t = TerminalApp::new();
    let mut fs = RamFs::new();
    run(&mut t, &mut fs, "ping 10.0.2.2");
    assert_eq!(last_lines(&t, 1), vec![line("PING 10.0.2.2 (32 data bytes)", GREEN)]);
    assert!(t.is_pinging());
    assert_eq!(t.update(None), Some(([10, 0, 2, 2], 1)));
    assert_eq!(t.update(None), None);
    assert_eq!(t.update(Some(1)), None);
    assert_eq!(
        last_lines(&t, 1),
        vec![line("32 bytes from 10.0.2.2: icmp_seq=1 time=1ms", (200, 200, 200))]
    );
    for s in 2..5u16 {
        t.update(Some(s));
    }
    assert!(t.is_pinging());
    t.update(Some(5));
    assert!(!t.is_pinging());
    assert_eq!(
        last_lines(&t, 2),
        vec![
            line("--- ping statistics ---", GREEN),
            line("4 packets transmitted, 4 received, 0% packet loss", (0, 200, 255)),
        ]
    );
}

#[test]
fn ping_ignores_typing_and_ctrl_c_cancels() {
    let mut t = TerminalApp::new();
    let mut fs = RamFs::new();
    run(&mut t, &mut fs, "ping 1.2.3.4");
    t.handle_event(Event::KeyPress('x'), &mut fs);
    assert!(t.input_buffer().is_empty());
    t.handle_event(Event::KeyPress('\x03'), &mut fs);
    assert!(!t.is_pinging());
    assert_eq!(last_lines(&t, 1), vec![line("Ping canceled.", (255, 255, 0))]);
}

#[test]
fn ping_rejects_bad_addresses() {
    let mut t = TerminalApp::new();
    let mut fs = RamFs::new();
    run(&mut t, &mut fs, "ping 1.2.3");
    assert_eq!(last_lines(&t, 1), vec![line("Invalid IP format", RED)]);
    run(&mut t, &mut fs, "ping 1.2.3.256");
    assert_eq!(last_lines(&t, 1), vec![line("Invalid IP format", RED)]);
    run(&mut t, &mut fs, "ping");
    assert_eq!(last_lines(&t, 1), vec![line("Usage: ping <ip_address>", RED)]);
    assert!(!t.is_pinging());
}

#[test]
fn output_is_capped() {
    let mut t = TerminalApp::new();
    let mut fs = RamFs::new();
    for _ in 0..300 {
        run(&mut t, &mut fs, "echo x");
    }
    assert_eq!(t.output().len(), MAX_LINES);
    assert_eq!(t.line_count(), MAX_LINES);
}

#[test]
fn scroll_wheel_never_goes_above_top() {
    let mut t = TerminalApp::new();
    let mut fs = RamFs::new();
    t.handle_event(Event::MouseScroll { delta: -3 }, &mut fs);
    assert_eq!(t.scroll_y(), 0);
    t.handle_event(Event::MouseScroll { delta: 4 }, &mut fs);
    assert_eq!(t.scroll_y(), 4);
}

#[test]
fn cursor_blinks_every_thirty_ticks() {
    let mut t = TerminalApp::new();
    for _ in 0..29 {
        t.update(None);
    }
    assert!(t.cursor_visible());
    t.update(None);
    assert!(!t.cursor_visible());
}
