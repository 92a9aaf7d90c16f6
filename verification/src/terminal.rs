use vstd::prelude::*;
use crate::app::{Event, Rgb, saturating_add_isize};
use crate::fs::{RamFs, FsEntry, entry_in, components, written, made_dir, removed, is_listing};
use crate::rtc::DateTime;
use crate::notepad::{lines_fitting, chars_fitting, max_scroll_of, settle_scroll};
use crate::text::{
    chars_of, push_chars, push_str, push_char, lit, chars_eq, trimmed, trim, words, split_words, char_views,
    split_pieces, pieces, join_parts, join_with, parse_u8, parse_u8_spec, decimal, decimal_padded, push_decimal,
    push_decimal_padded, utf8_decode, lemma_pieces_then_name, lemma_join_pieces,
};

verus! {

/// One line of terminal output: its text and color.
pub type Line = (Seq<char>, Rgb);

/// The most lines the terminal keeps.
pub const MAX_LINES: usize = 500;

/// Appends a line, dropping the oldest one when more than `MAX_LINES` would
/// be kept.
pub open spec fn push_line(out: Seq<Line>, l: Line) -> Seq<Line> {
    let o = out.push(l);
    if o.len() > MAX_LINES { o.drop_first() } else { o }
}

/// Appends lines one after the other.
pub open spec fn push_lines(out: Seq<Line>, ls: Seq<Line>) -> Seq<Line>
    decreases ls.len(),
{
    if ls.len() == 0 {
        out
    } else {
        push_line(push_lines(out, ls.drop_last()), ls.last())
    }
}

pub open spec fn lines_of(v: Seq<(String, Rgb)>) -> Seq<Line> {
    v.map_values(|l: (String, Rgb)| (l.0@, l.1))
}

/// What a command asks of the machine once the terminal has answered it.
#[derive(PartialEq, Eq, Structural, Clone, Copy, Debug)]
pub enum TerminalAction {
    Nothing,
    /// Read the real-time clock and hand the time to `show_date`.
    ShowDate,
    /// Query the processor and hand the answers to `show_cpu_info`.
    ShowCpuInfo,
    /// Reset the machine.
    Reboot,
}

/// The processor feature flags that `sysinfo` reports, in report order.
#[derive(PartialEq, Eq, Structural, Clone, Copy, Debug)]
pub struct CpuFeatures {
    pub fpu: bool,
    pub vme: bool,
    pub de: bool,
    pub pse: bool,
    pub tsc: bool,
    pub msr: bool,
    pub pae: bool,
    pub mce: bool,
    pub apic: bool,
    pub mtrr: bool,
    pub pge: bool,
    pub mca: bool,
    pub cmov: bool,
    pub pat: bool,
    pub mmx: bool,
    pub sse: bool,
    pub sse2: bool,
    pub htt: bool,
}

/// The commands the terminal knows, by their first word.
#[derive(PartialEq, Eq, Structural, Clone, Copy, Debug)]
pub enum Command {
    Empty,
    Help,
    Sysfetch,
    Clear,
    Pwd,
    Ls,
    Mkdir,
    Cd,
    Touch,
    Rm,
    Cat,
    Echo,
    Date,
    Uname,
    Sysinfo,
    Mem,
    Reboot,
    Ping,
    Unknown,
}

pub open spec fn command_of(w: Seq<Seq<char>>) -> Command {
    if w.len() == 0 {
        Command::Empty
    } else if w[0] == "help"@ {
        Command::Help
    } else if w[0] == "sysfetch"@ {
        Command::Sysfetch
    } else if w[0] == "clear"@ {
        Command::Clear
    } else if w[0] == "pwd"@ {
        Command::Pwd
    } else if w[0] == "ls"@ {
        Command::Ls
    } else if w[0] == "mkdir"@ {
        Command::Mkdir
    } else if w[0] == "cd"@ {
        Command::Cd
    } else if w[0] == "touch"@ {
        Command::Touch
    } else if w[0] == "rm"@ {
        Command::Rm
    } else if w[0] == "cat"@ {
        Command::Cat
    } else if w[0] == "echo"@ {
        Command::Echo
    } else if w[0] == "date"@ {
        Command::Date
    } else if w[0] == "uname"@ {
        Command::Uname
    } else if w[0] == "sysinfo"@ {
        Command::Sysinfo
    } else if w[0] == "mem"@ {
        Command::Mem
    } else if w[0] == "reboot"@ {
        Command::Reboot
    } else if w[0] == "ping"@ {
        Command::Ping
    } else {
        Command::Unknown
    }
}

fn classify(w: &Vec<Vec<char>>) -> (c: Command)
    ensures
        c == command_of(char_views(w@)),
{
    if w.len() == 0 {
        return Command::Empty;
    }
    let first = &w[0];
    assert(char_views(w@)[0] == first@);
    if chars_eq(first, "help") {
        Command::Help
    } else if chars_eq(first, "sysfetch") {
        Command::Sysfetch
    } else if chars_eq(first, "clear") {
        Command::Clear
    } else if chars_eq(first, "pwd") {
        Command::Pwd
    } else if chars_eq(first, "ls") {
        Command::Ls
    } else if chars_eq(first, "mkdir") {
        Command::Mkdir
    } else if chars_eq(first, "cd") {
        Command::Cd
    } else if chars_eq(first, "touch") {
        Command::Touch
    } else if chars_eq(first, "rm") {
        Command::Rm
    } else if chars_eq(first, "cat") {
        Command::Cat
    } else if chars_eq(first, "echo") {
        Command::Echo
    } else if chars_eq(first, "date") {
        Command::Date
    } else if chars_eq(first, "uname") {
        Command::Uname
    } else if chars_eq(first, "sysinfo") {
        Command::Sysinfo
    } else if chars_eq(first, "mem") {
        Command::Mem
    } else if chars_eq(first, "reboot") {
        Command::Reboot
    } else if chars_eq(first, "ping") {
        Command::Ping
    } else {
        Command::Unknown
    }
}

/// A name taken relative to the current directory.
pub open spec fn path_for(cwd: Seq<char>, name: Seq<char>) -> Seq<char> {
    if cwd.len() == 0 {
        name
    } else {
        cwd + seq!['/'] + name
    }
}

/// The current directory after `cd ..`: everything before its last '/'.
pub open spec fn parent_path(cwd: Seq<char>) -> Seq<char> {
    join_with(pieces(cwd, '/').drop_last(), seq!['/'])
}

/// Where the first ">" stands among the words of an `echo`.
pub open spec fn redirect_pos(w: Seq<Seq<char>>) -> int {
    if exists|i: int| 0 <= i < w.len() && w[i] == ">"@ {
        choose|i: int| 0 <= i < w.len() && w[i] == ">"@ && forall|j: int| 0 <= j < i ==> w[j] != ">"@
    } else {
        -1
    }
}

/// `echo ... > file`: a ">" with a word after it.
pub open spec fn is_redirect(w: Seq<Seq<char>>) -> bool {
    0 <= redirect_pos(w) && redirect_pos(w) + 1 < w.len()
}

/// The four numbers of a dotted IPv4 address, when it is one.
pub open spec fn ip_parts(target: Seq<char>) -> Option<Seq<u8>> {
    let p = pieces(target, '.');
    if p.len() == 4 && parse_u8_spec(p[0]) is Some && parse_u8_spec(p[1]) is Some
        && parse_u8_spec(p[2]) is Some && parse_u8_spec(p[3]) is Some {
        Some(seq![
            parse_u8_spec(p[0])->0,
            parse_u8_spec(p[1])->0,
            parse_u8_spec(p[2])->0,
            parse_u8_spec(p[3])->0,
        ])
    } else {
        None
    }
}

/// The memory bar: `filled` bars then spaces, `width` in all, in brackets.
pub open spec fn bar_text(filled: nat, width: nat) -> Seq<char> {
    seq!['['] + Seq::new(width, |i: int| if i < filled { '|' } else { ' ' }) + seq![']']
}

pub open spec fn help_ping_lines() -> Seq<Line> {
    seq![
        ("Command: ping"@, (0, 200, 255)),
        ("Description: Sends ICMP ECHO_REQUEST packets to network hosts to check connectivity."@, (0, 255, 0)),
        ("Syntax: ping <ip_address>"@, (0, 255, 0)),
        ("Example: ping 8.8.8.8"@, (0, 255, 0)),
        ("Note: Press Ctrl+C to cancel an ongoing ping."@, (200, 200, 200))
    ]
}

pub open spec fn help_sysfetch_lines() -> Seq<Line> {
    seq![
        ("Command: sysfetch"@, (0, 200, 255)),
        ("Description: Displays a cool ASCII logo and system information."@, (0, 255, 0))
    ]
}

pub open spec fn help_overview_lines() -> Seq<Line> {
    seq![
        ("RustOS v0.2 - Available Commands"@, (0, 200, 255)),
        ("Type 'help <command>' for specific details."@, (200, 200, 200)),
        (""@, (0, 255, 0)),
        ("SYSTEM     sysinfo, uname, mem, sysfetch, date, reboot, clear"@, (0, 255, 0)),
        ("NETWORK    ping"@, (0, 255, 0)),
        ("FILE       ls, cd, pwd, cat, touch, mkdir, rm, echo"@, (0, 255, 0))
    ]
}

pub open spec fn sysfetch_logo_lines() -> Seq<Line> {
    seq![
        ("   ____           _    ___  ____  "@, (0, 200, 255)),
        ("  |  _ \\ _   _ __| |_ / _ \\/ ___| "@, (0, 200, 255)),
        ("  | |_) | | | / __| __| | | \\___ \\"@, (0, 200, 255)),
        ("  |  _ <| |_| \\__ \\ |_| |_| |___) |"@, (0, 200, 255)),
        ("  |_| \\_\\\\__,_|___/\\__|\\___/|____/ "@, (0, 200, 255)),
        (""@, (0, 255, 0)),
        ("  OS: RustOS v0.2 Bare-Metal"@, (0, 255, 0)),
        ("  Arch: x86_64"@, (0, 255, 0))
    ]
}

pub open spec fn sysfetch_tail_lines() -> Seq<Line> {
    seq![
        ("  RAM: 128 MB (Emulated)"@, (0, 255, 0)),
        ("  Shell: RustTerm 1.0"@, (0, 255, 0))
    ]
}

pub open spec fn ping_statistics_lines() -> Seq<Line> {
    seq![
        ("--- ping statistics ---"@, (0, 255, 0)),
        ("4 packets transmitted, 4 received, 0% packet loss"@, (0, 200, 255))
    ]
}

pub open spec fn green() -> Rgb { (0, 255, 0) }
pub open spec fn red() -> Rgb { (255, 0, 0) }
pub open spec fn white() -> Rgb { (255, 255, 255) }
pub open spec fn gray() -> Rgb { (200, 200, 200) }
pub open spec fn yellow() -> Rgb { (255, 255, 0) }

/// The lines `help` prints for its topic, if any.
pub open spec fn help_lines(w: Seq<Seq<char>>) -> Seq<Line> {
    if w.len() > 1 {
        if w[1] == "ping"@ {
            help_ping_lines()
        } else if w[1] == "sysfetch"@ {
            help_sysfetch_lines()
        } else {
            seq![("No detailed help available for '"@ + w[1] + "'."@, red())]
        }
    } else {
        help_overview_lines()
    }
}

pub open spec fn sysfetch_lines(ticks: nat) -> Seq<Line> {
    sysfetch_logo_lines() + seq![("  Uptime: "@ + decimal(ticks) + " ticks"@, green())] + sysfetch_tail_lines()
}

pub open spec fn mem_lines() -> Seq<Line> {
    seq![
        ("RAM: "@ + decimal(23) + " MB / "@ + decimal(128) + " MB"@, green()),
        (bar_text((23 * 20 / 128) as nat, 20), green()),
    ]
}

/// The lines `ls` prints for a listing.
pub open spec fn ls_lines(l: Seq<(String, bool)>) -> Seq<Line> {
    if l.len() == 0 {
        seq![("(empty)"@, green())]
    } else {
        l.map_values(|e: (String, bool)| (if e.1 { "[DIR] "@ + e.0@ } else { e.0@ }, green()))
    }
}

/// The directory `ls` lists: the current one, or the root.
pub open spec fn ls_target(cwd: Seq<char>) -> Seq<char> {
    if cwd.len() == 0 { "/"@ } else { cwd }
}

/// The lines a command prints after its echo, apart from `ls`, whose lines
/// depend on a listing (`ls_lines`). `date` and `sysinfo` print once the
/// machine has answered.
pub open spec fn reply_lines(w: Seq<Seq<char>>, cwd: Seq<char>, ticks: nat, m: Map<Seq<Seq<char>>, FsEntry>) -> Seq<Line> {
    match command_of(w) {
        Command::Help => help_lines(w),
        Command::Sysfetch => sysfetch_lines(ticks),
        Command::Pwd => seq![(if cwd.len() == 0 { "/"@ } else { cwd }, green())],
        Command::Mkdir => if w.len() > 1 {
            seq![("Created directory"@, green())]
        } else {
            seq![("Usage: mkdir <dirname>"@, red())]
        },
        Command::Cd => if w.len() > 1 {
            if w[1] == ".."@ || w[1] == "/"@
                || entry_in(m, components(path_for(cwd, w[1]))) == Some(FsEntry::Dir) {
                Seq::empty()
            } else {
                seq![("Directory not found"@, red())]
            }
        } else {
            seq![("Usage: cd <dirname>"@, red())]
        },
        Command::Touch => if w.len() > 1 {
            seq![("Created file"@, green())]
        } else {
            seq![("Usage: touch <filename>"@, red())]
        },
        Command::Rm => if w.len() > 1 {
            let c = components(path_for(cwd, w[1]));
            if c.len() > 0 && m.dom().contains(c) {
                seq![("Deleted file"@, green())]
            } else {
                seq![("File not found"@, red())]
            }
        } else {
            seq![("Usage: rm <filename>"@, red())]
        },
        Command::Cat => if w.len() > 1 {
            match entry_in(m, components(path_for(cwd, w[1]))) {
                Some(FsEntry::File(bytes)) => if vstd::utf8::valid_utf8(bytes) {
                    seq![(vstd::utf8::decode_utf8(bytes), green())]
                } else {
                    seq![("(Binary data)"@, red())]
                },
                _ => seq![("File not found"@, red())],
            }
        } else {
            seq![("Usage: cat <filename>"@, red())]
        },
        Command::Echo => if is_redirect(w) {
            seq![("File written"@, green())]
        } else if w.len() > 1 {
            seq![(join_with(w.subrange(1, w.len() as int), " "@), green())]
        } else {
            seq![(Seq::empty(), green())]
        },
        Command::Uname => seq![(
            "RustOS x86_64"@ + (if w.len() > 1 && w[1] == "-a"@ { " 1.0.0 Custom Kernel"@ } else { Seq::empty() }),
            green(),
        )],
        Command::Mem => mem_lines(),
        Command::Reboot => seq![("Rebooting..."@, green())],
        Command::Ping => if w.len() > 1 {
            if ip_parts(w[1]) is Some {
                seq![("PING "@ + w[1] + " (32 data bytes)"@, green())]
            } else {
                seq![("Invalid IP format"@, red())]
            }
        } else {
            seq![("Usage: ping <ip_address>"@, red())]
        },
        Command::Unknown => seq![("Unknown command: "@ + w[0], red())],
        _ => Seq::empty(),
    }
}

/// The file system after a command.
pub open spec fn fs_after(w: Seq<Seq<char>>, cwd: Seq<char>, m: Map<Seq<Seq<char>>, FsEntry>) -> Map<Seq<Seq<char>>, FsEntry> {
    match command_of(w) {
        Command::Mkdir => if w.len() > 1 { made_dir(m, components(path_for(cwd, w[1]))) } else { m },
        Command::Touch => if w.len() > 1 { written(m, components(path_for(cwd, w[1])), Seq::empty()) } else { m },
        Command::Rm => if w.len() > 1 {
            let c = components(path_for(cwd, w[1]));
            if c.len() > 0 && m.dom().contains(c) { removed(m, c) } else { m }
        } else {
            m
        },
        Command::Echo => if is_redirect(w) {
            let pos = redirect_pos(w);
            written(
                m,
                components(path_for(cwd, w[pos + 1])),
                vstd::utf8::encode_utf8(join_with(w.subrange(1, pos), " "@)),
            )
        } else {
            m
        },
        _ => m,
    }
}

/// The current directory after a command.
pub open spec fn cwd_after(w: Seq<Seq<char>>, cwd: Seq<char>, m: Map<Seq<Seq<char>>, FsEntry>) -> Seq<char> {
    if command_of(w) == Command::Cd && w.len() > 1 {
        if w[1] == ".."@ {
            if cwd.len() == 0 { cwd } else { parent_path(cwd) }
        } else if w[1] == "/"@ {
            Seq::empty()
        } else if entry_in(m, components(path_for(cwd, w[1]))) == Some(FsEntry::Dir) {
            path_for(cwd, w[1])
        } else {
            cwd
        }
    } else {
        cwd
    }
}

pub open spec fn action_of(c: Command) -> TerminalAction {
    match c {
        Command::Date => TerminalAction::ShowDate,
        Command::Sysinfo => TerminalAction::ShowCpuInfo,
        Command::Reboot => TerminalAction::Reboot,
        _ => TerminalAction::Nothing,
    }
}

/// The features line of `sysinfo`: the names of the flags that are set,
/// each followed by a space, with the last space trimmed.
pub open spec fn feature_names(f: CpuFeatures) -> Seq<char> {
    flag_text(f.fpu, "FPU "@)
        + flag_text(f.vme, "VME "@)
        + flag_text(f.de, "DE "@)
        + flag_text(f.pse, "PSE "@)
        + flag_text(f.tsc, "TSC "@)
        + flag_text(f.msr, "MSR "@)
        + flag_text(f.pae, "PAE "@)
        + flag_text(f.mce, "MCE "@)
        + flag_text(f.apic, "APIC "@)
        + flag_text(f.mtrr, "MTRR "@)
        + flag_text(f.pge, "PGE "@)
        + flag_text(f.mca, "MCA "@)
        + flag_text(f.cmov, "CMOV "@)
        + flag_text(f.pat, "PAT "@)
        + flag_text(f.mmx, "MMX "@)
        + flag_text(f.sse, "SSE "@)
        + flag_text(f.sse2, "SSE2 "@)
        + flag_text(f.htt, "HTT "@)
}

#[verifier::opaque]
pub open spec fn flag_text(set: bool, name: Seq<char>) -> Seq<char> {
    if set { name } else { Seq::empty() }
}

/// The line `date` prints: `YYYY-MM-DD hh:mm:ss UTC`.
pub open spec fn date_text(dt: DateTime) -> Seq<char> {
    decimal_padded(dt.year as nat, 4) + "-"@ + decimal_padded(dt.month as nat, 2) + "-"@
        + decimal_padded(dt.day as nat, 2) + " "@ + decimal_padded(dt.hour as nat, 2) + ":"@
        + decimal_padded(dt.minute as nat, 2) + ":"@ + decimal_padded(dt.second as nat, 2) + " UTC"@
}

/// The reply line of a ping.
pub open spec fn reply_text(ip: Seq<u8>, seq_no: u16) -> Seq<char> {
    "32 bytes from "@ + decimal(ip[0] as nat) + "."@ + decimal(ip[1] as nat) + "."@ + decimal(ip[2] as nat)
        + "."@ + decimal(ip[3] as nat) + ": icmp_seq="@ + decimal(seq_no as nat) + " time=1ms"@
}

/// The terminal printed a command's reply lines and nothing else changed.
pub open spec fn replied(old_t: TerminalApp, new_t: TerminalApp, w: Seq<Seq<char>>, m: Map<Seq<Seq<char>>, FsEntry>) -> bool {
    &&& new_t.lines() == push_lines(old_t.lines(), reply_lines(w, old_t.cwd(), old_t.tick_count() as nat, m))
    &&& new_t.scroll() == -1
    &&& same_state(old_t, new_t)
}

/// What running the typed command does: the command line is echoed in
/// white, then the command's reply follows; files, the current directory
/// and the ping change as the command says; the typed text is cleared
/// unless the command was `echo ... > file`.
pub open spec fn command_done(
    old_t: TerminalApp,
    new_t: TerminalApp,
    old_m: Map<Seq<Seq<char>>, FsEntry>,
    new_m: Map<Seq<Seq<char>>, FsEntry>,
    act: TerminalAction,
) -> bool {
    let w = words(old_t.input());
    let base = push_line(old_t.lines(), ("> "@ + trim(old_t.input()), white()));
    let c = command_of(w);
    &&& act == action_of(c)
    &&& new_t.scroll() == -1
    &&& new_t.tick_count() == old_t.tick_count()
    &&& new_t.cursor() == old_t.cursor()
    &&& new_t.input() == (if c == Command::Echo && is_redirect(w) { old_t.input() } else { Seq::empty() })
    &&& new_m == fs_after(w, old_t.cwd(), old_m)
    &&& new_t.cwd() == cwd_after(w, old_t.cwd(), old_m)
    &&& c != Command::Ping ==> new_t.ping() == old_t.ping() && new_t.delay() == old_t.delay()
    &&& c == Command::Ping ==> (if w.len() > 1 && ip_parts(w[1]) is Some {
        new_t.ping() == Some((ip_parts(w[1])->0, 1u16)) && new_t.delay() == 0
    } else {
        new_t.ping() == old_t.ping() && new_t.delay() == old_t.delay()
    })
    &&& c == Command::Clear ==> new_t.lines().len() == 0
    &&& c == Command::Ls ==> (match entry_in(old_m, components(ls_target(old_t.cwd()))) {
        Some(FsEntry::Dir) => exists|l: Seq<(String, bool)>|
            is_listing(old_m, components(ls_target(old_t.cwd())), l)
            && #[trigger] push_lines(base, ls_lines(l)) == new_t.lines(),
        _ => new_t.lines() == push_line(base, ("Directory not found"@, red())),
    })
    &&& c != Command::Clear && c != Command::Ls ==>
        new_t.lines() == push_lines(base, reply_lines(w, old_t.cwd(), old_t.tick_count() as nat, old_m))
}

/// Screen rows a text of `n` characters takes with `width` characters a row
/// (an empty text still takes one).
pub open spec fn rows_of(n: nat, width: nat) -> nat {
    if n == 0 { 1 } else { ((n + width - 1) / width as int) as nat }
}

/// Screen rows the output lines take.
pub open spec fn output_rows(ls: Seq<Line>, width: nat) -> nat
    decreases ls.len(),
{
    if ls.len() == 0 { 0 } else { output_rows(ls.drop_last(), width) + rows_of(ls.last().0.len(), width) }
}

/// Screen rows of the output and of the prompt line ("> " and the typed text).
pub open spec fn screen_rows(t: TerminalApp, width: nat) -> nat {
    output_rows(t.lines(), width) + rows_of(t.input().len() + 2, width)
}

/// The terminal window: its output lines, the command being typed, the
/// current directory and a running ping.
pub struct TerminalApp {
    output: Vec<(String, Rgb)>,
    input_buffer: String,
    cursor_visible: bool,
    ticks: usize,
    current_path: String,
    ping_state: Option<([u8; 4], u16)>,
    ping_delay: usize,
    scroll_y: isize,
}

/// Two terminals that agree on everything but their output and scrolling.
pub open spec fn same_state(a: TerminalApp, b: TerminalApp) -> bool {
    &&& a.input() == b.input()
    &&& a.cwd() == b.cwd()
    &&& a.tick_count() == b.tick_count()
    &&& a.ping() == b.ping()
    &&& a.delay() == b.delay()
    &&& a.cursor() == b.cursor()
}

/// Two terminals in the same directory, at the same tick, with the same
/// ping delay and cursor.
pub open spec fn session_kept(a: TerminalApp, b: TerminalApp) -> bool {
    &&& a.cwd() == b.cwd()
    &&& a.tick_count() == b.tick_count()
    &&& a.delay() == b.delay()
    &&& a.cursor() == b.cursor()
}

impl TerminalApp {
    #[verifier::type_invariant]
    spec fn inv(self) -> bool {
        &&& self.output@.len() <= MAX_LINES
        &&& self.ping_state matches Some((_, s)) ==> 1 <= s <= 5
    }

    pub closed spec fn lines(self) -> Seq<Line> {
        lines_of(self.output@)
    }

    pub closed spec fn input(self) -> Seq<char> {
        self.input_buffer@
    }

    pub closed spec fn cwd(self) -> Seq<char> {
        self.current_path@
    }

    pub closed spec fn tick_count(self) -> usize {
        self.ticks
    }

    /// The address being pinged and the sequence number of the next request.
    pub closed spec fn ping(self) -> Option<(Seq<u8>, u16)> {
        match self.ping_state {
            Some((ip, s)) => Some((ip@, s)),
            None => None,
        }
    }

    pub closed spec fn delay(self) -> usize {
        self.ping_delay
    }

    pub closed spec fn cursor(self) -> bool {
        self.cursor_visible
    }

    /// The first line shown, or -1 to follow the newest output.
    pub closed spec fn scroll(self) -> isize {
        self.scroll_y
    }

    /// The number of output lines kept, never more than `MAX_LINES`.
    pub fn line_count(&self) -> (n: usize)
        ensures
            n == self.lines().len(),
            n <= MAX_LINES,
    {
        proof { use_type_invariant(self); }
        self.output.len()
    }

    /// A terminal greeting the user, with no command typed.
    pub fn new() -> (t: Self)
        ensures
            t.lines() == seq![("Welcome to RustOS Terminal!"@, green()), ("Type 'help' for commands."@, green())],
            t.input().len() == 0,
            t.cwd().len() == 0,
            t.tick_count() == 0,
            t.ping() is None,
            t.delay() == 0,
            t.cursor(),
            t.scroll() == -1,
    {
        let mut output: Vec<(String, Rgb)> = Vec::new();
        output.push((lit("Welcome to RustOS Terminal!"), (0, 255, 0)));
        output.push((lit("Type 'help' for commands."), (0, 255, 0)));
        let t = TerminalApp {
            output,
            input_buffer: String::new(),
            cursor_visible: true,
            ticks: 0,
            current_path: String::new(),
            ping_state: None,
            ping_delay: 0,
            scroll_y: -1,
        };
        assert(t.lines() =~= seq![("Welcome to RustOS Terminal!"@, green()), ("Type 'help' for commands."@, green())]);
        t
    }

    pub fn title(&self) -> (r: &'static str)
        ensures
            r@ == "Terminal"@,
    {
        "Terminal"
    }

    /// Appends a line of output and follows the newest output.
    pub fn print(&mut self, text: String, color: Rgb)
        ensures
            final(self).lines() == push_line(old(self).lines(), (text@, color)),
            final(self).scroll() == -1,
            same_state(*old(self), *final(self)),
    {
        proof { use_type_invariant(&*self); }
        let ghost before = self.output@;
        let mut out: Vec<(String, Rgb)> = Vec::new();
        std::mem::swap(&mut out, &mut self.output);
        if out.len() >= MAX_LINES {
            let _dropped = out.remove(0);
            out.push((text, color));
            assert(lines_of(out@) =~= lines_of(before).push((text@, color)).drop_first());
        } else {
            out.push((text, color));
            assert(lines_of(out@) =~= lines_of(before).push((text@, color)));
        }
        self.output = out;
        self.scroll_y = -1;
    }

    fn print_help_ping(&mut self)
        ensures
            final(self).lines() == push_lines(old(self).lines(), help_ping_lines()),
            final(self).scroll() == -1,
            same_state(*old(self), *final(self)),
    {
        proof { assert(help_ping_lines().take(0) =~= Seq::<Line>::empty()); }
        let ghost start = self.lines();
        self.print(lit("Command: ping"), (0, 200, 255));
        proof { lemma_push_lines_step(start, help_ping_lines(), 0); }
        assert(self.lines() == push_lines(start, help_ping_lines().take(1)));
        self.print(lit("Description: Sends ICMP ECHO_REQUEST packets to network hosts to check connectivity."), (0, 255, 0));
        proof { lemma_push_lines_step(start, help_ping_lines(), 1); }
        assert(self.lines() == push_lines(start, help_ping_lines().take(2)));
        self.print(lit("Syntax: ping <ip_address>"), (0, 255, 0));
        proof { lemma_push_lines_step(start, help_ping_lines(), 2); }
        assert(self.lines() == push_lines(start, help_ping_lines().take(3)));
        self.print(lit("Example: ping 8.8.8.8"), (0, 255, 0));
        proof { lemma_push_lines_step(start, help_ping_lines(), 3); }
        assert(self.lines() == push_lines(start, help_ping_lines().take(4)));
        self.print(lit("Note: Press Ctrl+C to cancel an ongoing ping."), (200, 200, 200));
        proof { lemma_push_lines_step(start, help_ping_lines(), 4); }
        assert(self.lines() == push_lines(start, help_ping_lines().take(5)));
        assert(help_ping_lines().take(5) =~= help_ping_lines());
    }

    fn print_help_sysfetch(&mut self)
        ensures
            final(self).lines() == push_lines(old(self).lines(), help_sysfetch_lines()),
            final(self).scroll() == -1,
            same_state(*old(self), *final(self)),
    {
        proof { assert(help_sysfetch_lines().take(0) =~= Seq::<Line>::empty()); }
        let ghost start = self.lines();
        self.print(lit("Command: sysfetch"), (0, 200, 255));
        proof { lemma_push_lines_step(start, help_sysfetch_lines(), 0); }
        assert(self.lines() == push_lines(start, help_sysfetch_lines().take(1)));
        self.print(lit("Description: Displays a cool ASCII logo and system information."), (0, 255, 0));
        proof { lemma_push_lines_step(start, help_sysfetch_lines(), 1); }
        assert(self.lines() == push_lines(start, help_sysfetch_lines().take(2)));
        assert(help_sysfetch_lines().take(2) =~= help_sysfetch_lines());
    }

    fn print_help_overview(&mut self)
        ensures
            final(self).lines() == push_lines(old(self).lines(), help_overview_lines()),
            final(self).scroll() == -1,
            same_state(*old(self), *final(self)),
    {
        proof { assert(help_overview_lines().take(0) =~= Seq::<Line>::empty()); }
        let ghost start = self.lines();
        self.print(lit("RustOS v0.2 - Available Commands"), (0, 200, 255));
        proof { lemma_push_lines_step(start, help_overview_lines(), 0); }
        assert(self.lines() == push_lines(start, help_overview_lines().take(1)));
        self.print(lit("Type 'help <command>' for specific details."), (200, 200, 200));
        proof { lemma_push_lines_step(start, help_overview_lines(), 1); }
        assert(self.lines() == push_lines(start, help_overview_lines().take(2)));
        self.print(lit(""), (0, 255, 0));
        proof { lemma_push_lines_step(start, help_overview_lines(), 2); }
        assert(self.lines() == push_lines(start, help_overview_lines().take(3)));
        self.print(lit("SYSTEM     sysinfo, uname, mem, sysfetch, date, reboot, clear"), (0, 255, 0));
        proof { lemma_push_lines_step(start, help_overview_lines(), 3); }
        assert(self.lines() == push_lines(start, help_overview_lines().take(4)));
        self.print(lit("NETWORK    ping"), (0, 255, 0));
        proof { lemma_push_lines_step(start, help_overview_lines(), 4); }
        assert(self.lines() == push_lines(start, help_overview_lines().take(5)));
        self.print(lit("FILE       ls, cd, pwd, cat, touch, mkdir, rm, echo"), (0, 255, 0));
        proof { lemma_push_lines_step(start, help_overview_lines(), 5); }
        assert(self.lines() == push_lines(start, help_overview_lines().take(6)));
        assert(help_overview_lines().take(6) =~= help_overview_lines());
    }

    fn print_sysfetch_logo(&mut self)
        ensures
            final(self).lines() == push_lines(old(self).lines(), sysfetch_logo_lines()),
            final(self).scroll() == -1,
            same_state(*old(self), *final(self)),
    {
        proof { assert(sysfetch_logo_lines().take(0) =~= Seq::<Line>::empty()); }
        let ghost start = self.lines();
        self.print(lit("   ____           _    ___  ____  "), (0, 200, 255));
        proof { lemma_push_lines_step(start, sysfetch_logo_lines(), 0); }
        assert(self.lines() == push_lines(start, sysfetch_logo_lines().take(1)));
        self.print(lit("  |  _ \\ _   _ __| |_ / _ \\/ ___| "), (0, 200, 255));
        proof { lemma_push_lines_step(start, sysfetch_logo_lines(), 1); }
        assert(self.lines() == push_lines(start, sysfetch_logo_lines().take(2)));
        self.print(lit("  | |_) | | | / __| __| | | \\___ \\"), (0, 200, 255));
        proof { lemma_push_lines_step(start, sysfetch_logo_lines(), 2); }
        assert(self.lines() == push_lines(start, sysfetch_logo_lines().take(3)));
        self.print(lit("  |  _ <| |_| \\__ \\ |_| |_| |___) |"), (0, 200, 255));
        proof { lemma_push_lines_step(start, sysfetch_logo_lines(), 3); }
        assert(self.lines() == push_lines(start, sysfetch_logo_lines().take(4)));
        self.print(lit("  |_| \\_\\\\__,_|___/\\__|\\___/|____/ "), (0, 200, 255));
        proof { lemma_push_lines_step(start, sysfetch_logo_lines(), 4); }
        assert(self.lines() == push_lines(start, sysfetch_logo_lines().take(5)));
        self.print(lit(""), (0, 255, 0));
        proof { lemma_push_lines_step(start, sysfetch_logo_lines(), 5); }
        assert(self.lines() == push_lines(start, sysfetch_logo_lines().take(6)));
        self.print(lit("  OS: RustOS v0.2 Bare-Metal"), (0, 255, 0));
        proof { lemma_push_lines_step(start, sysfetch_logo_lines(), 6); }
        assert(self.lines() == push_lines(start, sysfetch_logo_lines().take(7)));
        self.print(lit("  Arch: x86_64"), (0, 255, 0));
        proof { lemma_push_lines_step(start, sysfetch_logo_lines(), 7); }
        assert(self.lines() == push_lines(start, sysfetch_logo_lines().take(8)));
        assert(sysfetch_logo_lines().take(8) =~= sysfetch_logo_lines());
    }

    fn print_sysfetch_tail(&mut self)
        ensures
            final(self).lines() == push_lines(old(self).lines(), sysfetch_tail_lines()),
            final(self).scroll() == -1,
            same_state(*old(self), *final(self)),
    {
        proof { assert(sysfetch_tail_lines().take(0) =~= Seq::<Line>::empty()); }
        let ghost start = self.lines();
        self.print(lit("  RAM: 128 MB (Emulated)"), (0, 255, 0));
        proof { lemma_push_lines_step(start, sysfetch_tail_lines(), 0); }
        assert(self.lines() == push_lines(start, sysfetch_tail_lines().take(1)));
        self.print(lit("  Shell: RustTerm 1.0"), (0, 255, 0));
        proof { lemma_push_lines_step(start, sysfetch_tail_lines(), 1); }
        assert(self.lines() == push_lines(start, sysfetch_tail_lines().take(2)));
        assert(sysfetch_tail_lines().take(2) =~= sysfetch_tail_lines());
    }

    fn print_ping_statistics(&mut self)
        ensures
            final(self).lines() == push_lines(old(self).lines(), ping_statistics_lines()),
            final(self).scroll() == -1,
            same_state(*old(self), *final(self)),
    {
        proof { assert(ping_statistics_lines().take(0) =~= Seq::<Line>::empty()); }
        let ghost start = self.lines();
        self.print(lit("--- ping statistics ---"), (0, 255, 0));
        proof { lemma_push_lines_step(start, ping_statistics_lines(), 0); }
        assert(self.lines() == push_lines(start, ping_statistics_lines().take(1)));
        self.print(lit("4 packets transmitted, 4 received, 0% packet loss"), (0, 200, 255));
        proof { lemma_push_lines_step(start, ping_statistics_lines(), 1); }
        assert(self.lines() == push_lines(start, ping_statistics_lines().take(2)));
        assert(ping_statistics_lines().take(2) =~= ping_statistics_lines());
    }

    /// `cwd/name`, or `name` at the root.
    fn path_for(&self, name: &Vec<char>) -> (r: String)
        ensures
            r@ == path_for(self.cwd(), name@),
    {
        let mut p = String::new();
        let cwd = chars_of(self.current_path.as_str());
        if cwd.len() > 0 {
            push_chars(&mut p, &cwd);
            push_char(&mut p, '/');
        }
        push_chars(&mut p, name);
        assert(p@ =~= path_for(self.cwd(), name@));
        p
    }

    /// Runs the typed command: the command line is echoed, its reply is
    /// printed, the file system and the current directory change as the
    /// command says, and the typed text is cleared, except after
    /// `echo ... > file`, which keeps it.
    pub fn execute_command(&mut self, fs: &mut RamFs) -> (act: TerminalAction)
        ensures
            command_done(*old(self), *final(self), old(fs)@, final(fs)@, act),
    {
        proof { use_type_invariant(&*self); }
        let input = chars_of(self.input_buffer.as_str());
        let cmd = trimmed(&input);
        let mut echo = lit("> ");
        push_chars(&mut echo, &cmd);
        self.print(echo, (255, 255, 255));
        let ghost echoed = *self;
        let parts = split_words(&input);
        let ghost w = char_views(parts@);
        let command = classify(&parts);
        let mut keep_input = false;
        match command {
            Command::Empty => {},
            Command::Help => {
                self.reply_help(&parts);
                assert(replied(echoed, *self, w, old(fs)@));
            },
            Command::Sysfetch => {
                self.reply_sysfetch(&parts);
                assert(replied(echoed, *self, w, old(fs)@));
            },
            Command::Clear => {
                let mut out: Vec<(String, Rgb)> = Vec::new();
                std::mem::swap(&mut out, &mut self.output);
                assert(self.lines() =~= Seq::<Line>::empty());
            },
            Command::Pwd => {
                self.reply_pwd(&parts);
                assert(replied(echoed, *self, w, old(fs)@));
            },
            Command::Ls => self.reply_ls(fs),
            Command::Mkdir => self.reply_mkdir(&parts, fs),
            Command::Cd => self.reply_cd(&parts, fs),
            Command::Touch => self.reply_touch(&parts, fs),
            Command::Rm => self.reply_rm(&parts, fs),
            Command::Cat => self.reply_cat(&parts, fs),
            Command::Echo => {
                keep_input = self.reply_echo(&parts, fs);
            },
            Command::Date => {},
            Command::Uname => {
                self.reply_uname(&parts);
                assert(replied(echoed, *self, w, old(fs)@));
            },
            Command::Sysinfo => {},
            Command::Mem => {
                self.reply_mem(&parts);
                assert(replied(echoed, *self, w, old(fs)@));
            },
            Command::Reboot => self.reply_fixed(&parts, lit("Rebooting..."), (0, 255, 0)),
            Command::Ping => self.reply_ping(&parts),
            Command::Unknown => {
                self.reply_unknown(&parts);
                assert(replied(echoed, *self, w, old(fs)@));
            },
        }
        proof {
            use_type_invariant(&*self);
            if reply_lines(w, old(self).cwd(), old(self).tick_count() as nat, old(fs)@) =~= Seq::<Line>::empty() {
                assert(push_lines(echoed.lines(), Seq::<Line>::empty()) == echoed.lines());
            }
        }
        if !keep_input {
            self.input_buffer = String::new();
        }
        action_for(command)
    }

    fn reply_fixed(&mut self, parts: &Vec<Vec<char>>, text: String, color: Rgb)
        requires
            reply_lines(char_views(parts@), old(self).cwd(), old(self).tick_count() as nat, Map::empty())
                == seq![(text@, color)],
            command_of(char_views(parts@)) == Command::Reboot,
        ensures
            replied(*old(self), *final(self), char_views(parts@), Map::empty()),
    {
        self.print_one(text, color);
    }

    fn reply_unknown(&mut self, parts: &Vec<Vec<char>>)
        requires
            command_of(char_views(parts@)) == Command::Unknown,
        ensures
            forall|m: Map<Seq<Seq<char>>, FsEntry>| #[trigger] replied(*old(self), *final(self), char_views(parts@), m),
    {
        assert(char_views(parts@)[0] == parts@[0]@);
        let mut msg = lit("Unknown command: ");
        push_chars(&mut msg, &parts[0]);
        self.print_one(msg, (255, 0, 0));
    }

    fn reply_help(&mut self, parts: &Vec<Vec<char>>)
        requires
            command_of(char_views(parts@)) == Command::Help,
        ensures
            forall|m: Map<Seq<Seq<char>>, FsEntry>| #[trigger] replied(*old(self), *final(self), char_views(parts@), m),
    {
        let ghost w = char_views(parts@);
        if parts.len() > 1 {
            assert(w[1] == parts@[1]@);
            if chars_eq(&parts[1], "ping") {
                self.print_help_ping();
            } else if chars_eq(&parts[1], "sysfetch") {
                self.print_help_sysfetch();
            } else {
                let mut msg = lit("No detailed help available for '");
                push_chars(&mut msg, &parts[1]);
                push_str(&mut msg, "'.");
                self.print_one(msg, (255, 0, 0));
            }
        } else {
            self.print_help_overview();
        }
    }

    fn reply_sysfetch(&mut self, parts: &Vec<Vec<char>>)
        requires
            command_of(char_views(parts@)) == Command::Sysfetch,
        ensures
            forall|m: Map<Seq<Seq<char>>, FsEntry>| #[trigger] replied(*old(self), *final(self), char_views(parts@), m),
    {
        let ghost base = self.lines();
        self.print_sysfetch_logo();
        let ghost mid = self.lines();
        let mut up = lit("  Uptime: ");
        push_decimal(&mut up, self.ticks as u64);
        push_str(&mut up, " ticks");
        let ghost l = (up@, green());
        self.print(up, (0, 255, 0));
        self.print_sysfetch_tail();
        proof {
            let l1 = sysfetch_logo_lines();
            let l2 = seq![l];
            lemma_push_lines_concat(base, l1, l2);
            lemma_push_lines_concat(base, l1 + l2, sysfetch_tail_lines());
            lemma_push_lines_one(mid, l);
        }
    }

    fn reply_pwd(&mut self, parts: &Vec<Vec<char>>)
        requires
            command_of(char_views(parts@)) == Command::Pwd,
        ensures
            forall|m: Map<Seq<Seq<char>>, FsEntry>| #[trigger] replied(*old(self), *final(self), char_views(parts@), m),
    {
        let p = if self.current_path.as_str().unicode_len() == 0 {
            lit("/")
        } else {
            self.current_path.clone()
        };
        self.print_one(p, (0, 255, 0));
    }

    fn reply_ls(&mut self, fs: &RamFs)
        ensures
            same_state(*old(self), *final(self)),
            final(self).scroll() == -1,
            match entry_in(fs@, components(ls_target(old(self).cwd()))) {
                Some(FsEntry::Dir) => exists|l: Seq<(String, bool)>|
                    is_listing(fs@, components(ls_target(old(self).cwd())), l)
                    && #[trigger] push_lines(old(self).lines(), ls_lines(l)) == final(self).lines(),
                _ => final(self).lines() == push_line(old(self).lines(), ("Directory not found"@, red())),
            },
    {
        let target = if self.current_path.as_str().unicode_len() == 0 {
            lit("/")
        } else {
            self.current_path.clone()
        };
        assert(target@ == ls_target(old(self).cwd()));
        match fs.list_dir(target.as_str()) {
            Some(files) => {
                self.print_listing(&files);
            },
            None => {
                self.print(lit("Directory not found"), (255, 0, 0));
            },
        }
    }

    fn reply_mkdir(&mut self, parts: &Vec<Vec<char>>, fs: &mut RamFs)
        requires
            command_of(char_views(parts@)) == Command::Mkdir,
        ensures
            replied(*old(self), *final(self), char_views(parts@), old(fs)@),
            final(fs)@ == fs_after(char_views(parts@), old(self).cwd(), old(fs)@),
    {
        if parts.len() > 1 {
            assert(char_views(parts@)[1] == parts@[1]@);
            let path = self.path_for(&parts[1]);
            fs.mkdir(path.as_str());
            self.print_one(lit("Created directory"), (0, 255, 0));
        } else {
            self.print_one(lit("Usage: mkdir <dirname>"), (255, 0, 0));
        }
    }

    fn reply_touch(&mut self, parts: &Vec<Vec<char>>, fs: &mut RamFs)
        requires
            command_of(char_views(parts@)) == Command::Touch,
        ensures
            replied(*old(self), *final(self), char_views(parts@), old(fs)@),
            final(fs)@ == fs_after(char_views(parts@), old(self).cwd(), old(fs)@),
    {
        if parts.len() > 1 {
            assert(char_views(parts@)[1] == parts@[1]@);
            let path = self.path_for(&parts[1]);
            let empty: Vec<u8> = Vec::new();
            fs.write_file(path.as_str(), empty.as_slice());
            self.print_one(lit("Created file"), (0, 255, 0));
        } else {
            self.print_one(lit("Usage: touch <filename>"), (255, 0, 0));
        }
    }

    fn reply_rm(&mut self, parts: &Vec<Vec<char>>, fs: &mut RamFs)
        requires
            command_of(char_views(parts@)) == Command::Rm,
        ensures
            replied(*old(self), *final(self), char_views(parts@), old(fs)@),
            final(fs)@ == fs_after(char_views(parts@), old(self).cwd(), old(fs)@),
    {
        if parts.len() > 1 {
            assert(char_views(parts@)[1] == parts@[1]@);
            let path = self.path_for(&parts[1]);
            if fs.delete_file(path.as_str()) {
                self.print_one(lit("Deleted file"), (0, 255, 0));
            } else {
                self.print_one(lit("File not found"), (255, 0, 0));
            }
        } else {
            self.print_one(lit("Usage: rm <filename>"), (255, 0, 0));
        }
    }

    fn reply_cat(&mut self, parts: &Vec<Vec<char>>, fs: &RamFs)
        requires
            command_of(char_views(parts@)) == Command::Cat,
        ensures
            replied(*old(self), *final(self), char_views(parts@), fs@),
    {
        if parts.len() > 1 {
            assert(char_views(parts@)[1] == parts@[1]@);
            let path = self.path_for(&parts[1]);
            match fs.read_file(path.as_str()) {
                Some(content) => {
                    match utf8_decode(content.as_slice()) {
                        Some(s) => self.print_one(s, (0, 255, 0)),
                        None => self.print_one(lit("(Binary data)"), (255, 0, 0)),
                    }
                },
                None => {
                    self.print_one(lit("File not found"), (255, 0, 0));
                },
            }
        } else {
            self.print_one(lit("Usage: cat <filename>"), (255, 0, 0));
        }
    }

    /// Tells whether the output went to a file.
    #[verifier::spinoff_prover]
    fn reply_echo(&mut self, parts: &Vec<Vec<char>>, fs: &mut RamFs) -> (redirected: bool)
        requires
            command_of(char_views(parts@)) == Command::Echo,
        ensures
            redirected == is_redirect(char_views(parts@)),
            replied(*old(self), *final(self), char_views(parts@), old(fs)@),
            final(fs)@ == fs_after(char_views(parts@), old(self).cwd(), old(fs)@),
    {
        let ghost w = char_views(parts@);
        if parts.len() > 1 {
            let pos = find_redirect(&parts);
            if pos < parts.len() && pos + 1 < parts.len() {
                proof {
                    lemma_echo_first_word(w);
                    assert(w[pos as int] == parts@[pos as int]@);
                    assert(pos >= 1);
                    assert(w[pos + 1] == parts@[pos + 1]@);
                }
                let path = self.path_for(&parts[pos + 1]);
                let content = join_parts(&parts, 1, pos, " ");
                fs.write_file(path.as_str(), content.as_str().as_bytes());
                self.print_one(lit("File written"), (0, 255, 0));
                return true;
            }
            let text = join_parts(&parts, 1, parts.len(), " ");
            self.print_one(text, (0, 255, 0));
        } else {
            self.print_one(String::new(), (0, 255, 0));
        }
        false
    }

    fn reply_uname(&mut self, parts: &Vec<Vec<char>>)
        requires
            command_of(char_views(parts@)) == Command::Uname,
        ensures
            forall|m: Map<Seq<Seq<char>>, FsEntry>| #[trigger] replied(*old(self), *final(self), char_views(parts@), m),
    {
        let mut name = lit("RustOS x86_64");
        if parts.len() > 1 && chars_eq(&parts[1], "-a") {
            assert(char_views(parts@)[1] == parts@[1]@);
            push_str(&mut name, " 1.0.0 Custom Kernel");
        } else {
            proof {
                if parts.len() > 1 {
                    assert(char_views(parts@)[1] == parts@[1]@);
                }
            }
            assert(name@ =~= "RustOS x86_64"@ + Seq::<char>::empty());
        }
        self.print_one(name, (0, 255, 0));
    }

    fn reply_mem(&mut self, parts: &Vec<Vec<char>>)
        requires
            command_of(char_views(parts@)) == Command::Mem,
        ensures
            forall|m: Map<Seq<Seq<char>>, FsEntry>| #[trigger] replied(*old(self), *final(self), char_views(parts@), m),
    {
        let ghost base = self.lines();
        let total_ram_mb: u64 = 128;
        let used_ram_mb: u64 = 23;
        let bar_length: u64 = 20;
        let filled_length: u64 = (used_ram_mb * bar_length) / total_ram_mb;
        let mut bar = lit("[");
        proof { reveal_strlit("["); }
        let ghost start = bar@;
        let mut i: u64 = 0;
        while i < bar_length
            invariant
                i <= bar_length,
                bar_length == 20,
                filled_length == 3,
                bar@ == start + Seq::new(i as nat, |k: int| if k < filled_length { '|' } else { ' ' }),
            decreases bar_length - i,
        {
            if i < filled_length {
                push_char(&mut bar, '|');
            } else {
                push_char(&mut bar, ' ');
            }
            i = i + 1;
            assert(bar@ =~= start + Seq::new(i as nat, |k: int| if k < filled_length { '|' } else { ' ' }));
        }
        push_char(&mut bar, ']');
        let mut ram = lit("RAM: ");
        push_decimal(&mut ram, used_ram_mb);
        push_str(&mut ram, " MB / ");
        push_decimal(&mut ram, total_ram_mb);
        push_str(&mut ram, " MB");
        let ghost l1 = (ram@, green());
        let ghost l2 = (bar@, green());
        self.print(ram, (0, 255, 0));
        self.print(bar, (0, 255, 0));
        proof {
            assert(bar@ =~= bar_text(3, 20));
            assert(mem_lines() =~= seq![l1, l2]);
            lemma_push_lines_two(base, l1, l2);
        }
    }

    fn reply_cd(&mut self, parts: &Vec<Vec<char>>, fs: &RamFs)
        requires
            command_of(char_views(parts@)) == Command::Cd,
        ensures
            final(self).lines() == push_lines(old(self).lines(), reply_lines(char_views(parts@), old(self).cwd(), old(self).tick_count() as nat, fs@)),
            final(self).cwd() == cwd_after(char_views(parts@), old(self).cwd(), fs@),
            final(self).scroll() == -1 || final(self).lines() == old(self).lines(),
            final(self).input() == old(self).input(),
            final(self).tick_count() == old(self).tick_count(),
            final(self).ping() == old(self).ping(),
            final(self).delay() == old(self).delay(),
            final(self).cursor() == old(self).cursor(),
            final(self).scroll() == old(self).scroll() || final(self).scroll() == -1,
    {
        proof { use_type_invariant(&*self); }
        let ghost w = char_views(parts@);
        if parts.len() > 1 {
            let target = &parts[1];
            assert(w[1] == target@);
            if chars_eq(target, "..") {
                let cwd = chars_of(self.current_path.as_str());
                if cwd.len() > 0 {
                    proof { reveal_strlit("/"); }
                    let p = split_pieces(&cwd, '/');
                    assert(char_views(p@).len() == p@.len());
                    assert(pieces(cwd@, '/').len() > 0);
                    let joined = join_parts(&p, 0, p.len() - 1, "/");
                    assert(char_views(p@).subrange(0, p@.len() - 1) =~= pieces(cwd@, '/').drop_last());
                    assert("/"@ =~= seq!['/']);
                    self.current_path = joined;
                }
                assert(push_lines(old(self).lines(), Seq::<Line>::empty()) == old(self).lines());
            } else if chars_eq(target, "/") {
                self.current_path = String::new();
                assert(push_lines(old(self).lines(), Seq::<Line>::empty()) == old(self).lines());
            } else {
                let path = self.path_for(target);
                let found = fs.list_dir(path.as_str());
                if found.is_some() {
                    self.current_path = path;
                    assert(push_lines(old(self).lines(), Seq::<Line>::empty()) == old(self).lines());
                } else {
                    self.print_one(lit("Directory not found"), (255, 0, 0));
                }
            }
        } else {
            self.print_one(lit("Usage: cd <dirname>"), (255, 0, 0));
        }
    }

    fn reply_ping(&mut self, parts: &Vec<Vec<char>>)
        requires
            command_of(char_views(parts@)) == Command::Ping,
        ensures
            final(self).lines() == push_lines(old(self).lines(), reply_lines(char_views(parts@), old(self).cwd(), old(self).tick_count() as nat, Map::empty())),
            final(self).scroll() == -1,
            final(self).input() == old(self).input(),
            final(self).cwd() == old(self).cwd(),
            final(self).tick_count() == old(self).tick_count(),
            final(self).cursor() == old(self).cursor(),
            ({
                let w = char_views(parts@);
                if w.len() > 1 && ip_parts(w[1]) is Some {
                    final(self).ping() == Some((ip_parts(w[1])->0, 1u16)) && final(self).delay() == 0
                } else {
                    final(self).ping() == old(self).ping() && final(self).delay() == old(self).delay()
                }
            }),
    {
        let ghost w = char_views(parts@);
        if parts.len() > 1 {
            let target = &parts[1];
            assert(w[1] == target@);
            let ip_pieces = split_pieces(target, '.');
            if ip_pieces.len() == 4 {
                proof {
                    assert(ip_pieces@[0]@ == pieces(target@, '.')[0]);
                    assert(ip_pieces@[1]@ == pieces(target@, '.')[1]);
                    assert(ip_pieces@[2]@ == pieces(target@, '.')[2]);
                    assert(ip_pieces@[3]@ == pieces(target@, '.')[3]);
                }
                let a = parse_u8(&ip_pieces[0]);
                let b = parse_u8(&ip_pieces[1]);
                let c = parse_u8(&ip_pieces[2]);
                let d = parse_u8(&ip_pieces[3]);
                if a.is_some() && b.is_some() && c.is_some() && d.is_some() {
                    let ip: [u8; 4] = [a.unwrap(), b.unwrap(), c.unwrap(), d.unwrap()];
                    let mut msg = lit("PING ");
                    push_chars(&mut msg, target);
                    push_str(&mut msg, " (32 data bytes)");
                    self.print_one(msg, (0, 255, 0));
                    proof { use_type_invariant(&*self); }
                    self.ping_state = Some((ip, 1));
                    self.ping_delay = 0;
                    assert(ip@ =~= ip_parts(w[1])->0);
                    return;
                }
            }
            self.print_one(lit("Invalid IP format"), (255, 0, 0));
        } else {
            self.print_one(lit("Usage: ping <ip_address>"), (255, 0, 0));
        }
    }


    /// Fits the scroll position to a view `width` by `height` pixels and
    /// gives how far the output can scroll.
    pub fn fit_scroll(&mut self, width: usize, height: usize) -> (max_scroll: usize)
        requires
            chars_fitting(width) > 0,
            old(self).input().len() + 2 <= usize::MAX,
            screen_rows(*old(self), chars_fitting(width)) <= usize::MAX,
        ensures
            max_scroll == max_scroll_of(screen_rows(*old(self), chars_fitting(width)), lines_fitting(height)),
            final(self).scroll() == settle_scroll(old(self).scroll(), max_scroll as nat),
            final(self).lines() == old(self).lines(),
            same_state(*old(self), *final(self)),
    {
        proof { use_type_invariant(&*self); }
        let max_lines: usize = if height > 20 { (height - 20) / 12 } else { 0 };
        let cpl: usize = if width > 20 { (width - 20) / 8 } else { 1 };
        assert(cpl == chars_fitting(width));
        let mut rows: usize = 0;
        let mut k: usize = 0;
        proof { assert(self.lines().take(0) =~= Seq::<Line>::empty()); }
        while k < self.output.len()
            invariant
                k <= self.output@.len(),
                cpl == chars_fitting(width),
                cpl >= 1,
                rows == output_rows(self.lines().take(k as int), cpl as nat),
                screen_rows(*self, cpl as nat) <= usize::MAX,
            decreases self.output@.len() - k,
        {
            proof {
                let t = self.lines().take(k + 1);
                assert(t.drop_last() =~= self.lines().take(k as int));
                lemma_output_rows_prefix(self.lines(), k + 1, cpl as nat);
            }
            let n = self.output[k].0.as_str().unicode_len();
            assert(n == self.lines()[k as int].0.len());
            proof { lemma_rows_of(n as nat, cpl as nat); }
            let r: usize = if n == 0 { 1 } else {
                let q = n / cpl;
                if n % cpl == 0 { q } else { q + 1 }
            };
            rows = rows + r;
            k = k + 1;
        }
        assert(self.lines().take(k as int) =~= self.lines());
        let n = self.input_buffer.as_str().unicode_len();
        proof { lemma_rows_of((n + 2) as nat, cpl as nat); }
        let input_len: usize = n + 2;
        let q = input_len / cpl;
        let r: usize = if input_len % cpl == 0 { q } else { q + 1 };
        let visual_lines = rows + r;
        let max_scroll: usize = if visual_lines > max_lines && max_lines > 0 { visual_lines - max_lines } else { 0 };
        if self.scroll_y == -1 {
            self.scroll_y = max_scroll as isize;
        } else if self.scroll_y < 0 {
            self.scroll_y = 0;
        } else if self.scroll_y > max_scroll as isize {
            self.scroll_y = max_scroll as isize;
        }
        max_scroll
    }

    /// The lines of output, oldest first.
    pub fn output(&self) -> (r: &Vec<(String, Rgb)>)
        ensures
            lines_of(r@) == self.lines(),
    {
        &self.output
    }

    /// The text being typed.
    pub fn input_buffer(&self) -> (r: &String)
        ensures
            r@ == self.input(),
    {
        &self.input_buffer
    }

    pub fn cursor_visible(&self) -> (r: bool)
        ensures
            r == self.cursor(),
    {
        self.cursor_visible
    }

    pub fn scroll_y(&self) -> (r: isize)
        ensures
            r == self.scroll(),
    {
        self.scroll_y
    }

    /// Prints one line.
    fn print_one(&mut self, text: String, color: Rgb)
        ensures
            final(self).lines() == push_lines(old(self).lines(), seq![(text@, color)]),
            final(self).scroll() == -1,
            same_state(*old(self), *final(self)),
    {
        let ghost l = (text@, color);
        self.print(text, color);
        proof { lemma_push_lines_one(old(self).lines(), l); }
    }

    /// Prints the lines of `ls` for a listing.
    fn print_listing(&mut self, files: &Vec<(String, bool)>)
        ensures
            final(self).lines() == push_lines(old(self).lines(), ls_lines(files@)),
            final(self).scroll() == -1,
            same_state(*old(self), *final(self)),
    {
        proof { use_type_invariant(&*self); }
        if files.len() == 0 {
            self.print_one(lit("(empty)"), (0, 255, 0));
            return;
        }
        let ghost start = self.lines();
        let ghost all = ls_lines(files@);
        let mut k: usize = 0;
        proof { assert(all.take(0) =~= Seq::<Line>::empty()); }
        self.scroll_y = -1;
        while k < files.len()
            invariant
                k <= files@.len(),
                files@.len() > 0,
                all == ls_lines(files@),
                self.lines() == push_lines(start, all.take(k as int)),
                self.scroll() == -1,
                same_state(*old(self), *self),
            decreases files.len() - k,
        {
            let name = files[k].0.clone();
            let label = if files[k].1 {
                let mut l = lit("[DIR] ");
                push_chars(&mut l, &chars_of(name.as_str()));
                l
            } else {
                name
            };
            let ghost line = (label@, green());
            assert(line == all[k as int]);
            self.print(label, (0, 255, 0));
            proof { lemma_push_lines_step(start, all, k as int); }
            k = k + 1;
        }
        assert(all.take(k as int) =~= all);
    }

    /// Prints the date line for the clock reading `dt`.
    pub fn show_date(&mut self, dt: &DateTime)
        ensures
            final(self).lines() == push_line(old(self).lines(), (date_text(*dt), green())),
            final(self).scroll() == -1,
            same_state(*old(self), *final(self)),
    {
        let mut s = String::new();
        push_decimal_padded(&mut s, dt.year as u64, 4);
        push_char(&mut s, '-');
        push_decimal_padded(&mut s, dt.month as u64, 2);
        push_char(&mut s, '-');
        push_decimal_padded(&mut s, dt.day as u64, 2);
        push_char(&mut s, ' ');
        push_decimal_padded(&mut s, dt.hour as u64, 2);
        push_char(&mut s, ':');
        push_decimal_padded(&mut s, dt.minute as u64, 2);
        push_char(&mut s, ':');
        push_decimal_padded(&mut s, dt.second as u64, 2);
        push_str(&mut s, " UTC");
        proof {
            reveal_strlit("-");
            reveal_strlit(" ");
            reveal_strlit(":");
            assert(s@ =~= date_text(*dt));
        }
        self.print(s, (0, 255, 0));
    }

    /// Prints what the processor told about itself: its vendor and its
    /// feature flags, or that they are unknown.
    pub fn show_cpu_info(&mut self, vendor: Option<String>, features: Option<CpuFeatures>)
        ensures
            final(self).lines() == push_line(
                push_line(old(self).lines(), match vendor {
                    Some(v) => ("CPU Vendor: "@ + v@, green()),
                    None => ("CPU Vendor: Unknown"@, red()),
                }),
                match features {
                    Some(f) => ("Features: "@ + trim(feature_names(f)), green()),
                    None => ("Features: Unknown"@, red()),
                },
            ),
            final(self).scroll() == -1,
            same_state(*old(self), *final(self)),
    {
        match vendor {
            Some(v) => {
                let mut s = lit("CPU Vendor: ");
                push_str(&mut s, v.as_str());
                self.print(s, (0, 255, 0));
            },
            None => self.print(lit("CPU Vendor: Unknown"), (255, 0, 0)),
        }
        match features {
            Some(f) => {
                let names = feature_list(&f);
                let t = trimmed(&chars_of(names.as_str()));
                let mut s = lit("Features: ");
                push_chars(&mut s, &t);
                self.print(s, (0, 255, 0));
            },
            None => self.print(lit("Features: Unknown"), (255, 0, 0)),
        }
    }

    /// Whether a ping is running.
    pub fn is_pinging(&self) -> (r: bool)
        ensures
            r == self.ping() is Some,
    {
        self.ping_state.is_some()
    }

    /// What `update` does, from `pre` to `post`.
    pub open spec fn tick_effect(pre: Self, post: Self, reply: Option<u16>, send: Option<([u8; 4], u16)>) -> bool {
        let t = if pre.tick_count() == usize::MAX { 0 } else { pre.tick_count() + 1 };
        &&& post.tick_count() == t
        &&& post.cursor() == (if t % 30 == 0 { !pre.cursor() } else { pre.cursor() })
        &&& post.input() == pre.input()
        &&& post.cwd() == pre.cwd()
        &&& match pre.ping() {
            None => {
                &&& send is None
                &&& post.lines() == pre.lines()
                &&& post.ping() is None
                &&& post.delay() == pre.delay()
                &&& post.scroll() == pre.scroll()
            },
            Some((ip, s)) => {
                let replied = match reply {
                    Some(r) => push_line(pre.lines(), (reply_text(ip, r), gray())),
                    None => pre.lines(),
                };
                &&& request_view(send) == (if pre.delay() == 0 { Some((ip, s)) } else { None::<(Seq<u8>, u16)> })
                &&& post.delay() == (if reply is Some || pre.delay() == 0 { 60 } else { pre.delay() - 1 })
                &&& post.lines() == (if s >= 5 { push_lines(replied, ping_statistics_lines()) } else { replied })
                &&& post.ping() == (if s >= 5 { None } else if reply is Some { Some((ip, (s + 1) as u16)) } else { Some((ip, s)) })
                &&& post.scroll() == (if reply is Some || s >= 5 { -1 } else { pre.scroll() as int })
            },
        }
    }

    /// One frame: the cursor blinks every 30 ticks, and a running ping
    /// counts down to its next request, reports `reply` (the sequence
    /// number of an echo reply that arrived, if any) and stops after its
    /// fifth round. Gives the request to send now, if one is due.
    pub fn update(&mut self, reply: Option<u16>) -> (send: Option<([u8; 4], u16)>)
        ensures
            Self::tick_effect(*old(self), *final(self), reply, send),
    {
        proof { use_type_invariant(&*self); }
        self.ticks = self.ticks.wrapping_add(1);
        if self.ticks % 30 == 0 {
            self.cursor_visible = !self.cursor_visible;
        }
        let mut send: Option<([u8; 4], u16)> = None;
        if let Some((ip, seq_no)) = self.ping_state {
            if self.ping_delay == 0 {
                send = Some((ip, seq_no));
                self.ping_delay = 60;
            } else {
                self.ping_delay = self.ping_delay - 1;
            }
            let mut next = Some((ip, seq_no));
            if let Some(reply_seq) = reply {
                let mut s = lit("32 bytes from ");
                push_decimal(&mut s, ip[0] as u64);
                push_char(&mut s, '.');
                push_decimal(&mut s, ip[1] as u64);
                push_char(&mut s, '.');
                push_decimal(&mut s, ip[2] as u64);
                push_char(&mut s, '.');
                push_decimal(&mut s, ip[3] as u64);
                push_str(&mut s, ": icmp_seq=");
                push_decimal(&mut s, reply_seq as u64);
                push_str(&mut s, " time=1ms");
                proof {
                    reveal_strlit(".");
                    assert(s@ =~= reply_text(ip@, reply_seq));
                }
                self.print(s, (200, 200, 200));
                proof { use_type_invariant(&*self); }
                if seq_no < 5 {
                    next = Some((ip, seq_no + 1));
                }
                self.ping_delay = 60;
            }
            if seq_no >= 5 {
                self.print_ping_statistics();
                next = None;
            }
            proof { use_type_invariant(&*self); }
            self.ping_state = next;
        }
        send
    }

    /// What `handle_event` does with `event`, from `pre` to `post`.
    pub open spec fn event_effect(pre: Self, post: Self, event: Event, fs_pre: Map<crate::fs::Path, crate::fs::FsEntry>, fs_post: Map<crate::fs::Path, crate::fs::FsEntry>, act: TerminalAction) -> bool {
        match event {
            Event::KeyPress(c) => {
                if c == '\x03' {
                    &&& act == TerminalAction::Nothing
                    &&& fs_post == fs_pre
                    &&& post.ping() is None
                    &&& post.lines() == (if pre.ping() is Some {
                        push_line(pre.lines(), ("Ping canceled."@, yellow()))
                    } else {
                        pre.lines()
                    })
                    &&& post.scroll() == (if pre.ping() is Some { -1 } else { pre.scroll() as int })
                    &&& post.input() == pre.input()
                    &&& session_kept(pre, post)
                } else if pre.ping() is Some {
                    &&& act == TerminalAction::Nothing
                    &&& fs_post == fs_pre
                    &&& post == pre
                } else if c == '\n' || c == '\r' {
                    command_done(pre, post, fs_pre, fs_post, act)
                } else {
                    &&& act == TerminalAction::Nothing
                    &&& fs_post == fs_pre
                    &&& post.lines() == pre.lines()
                    &&& post.scroll() == -1
                    &&& post.ping() == pre.ping()
                    &&& session_kept(pre, post)
                    &&& post.input() == (if c == '\x08' {
                        if pre.input().len() > 0 { pre.input().drop_last() } else { pre.input() }
                    } else {
                        pre.input().push(c)
                    })
                }
            },
            Event::MouseScroll { delta } => {
                let s = pre.scroll() as int + delta as int;
                &&& act == TerminalAction::Nothing
                &&& fs_post == fs_pre
                &&& post.lines() == pre.lines()
                &&& post.input() == pre.input()
                &&& post.ping() == pre.ping()
                &&& session_kept(pre, post)
                &&& post.scroll() == (if s < 0 { 0 } else if s > isize::MAX { isize::MAX as int } else { s })
            },
            _ => act == TerminalAction::Nothing && fs_post == fs_pre && post == pre,
        }
    }

    /// Reacts to a key or the mouse wheel. Ctrl+C stops a running ping; while
    /// a ping runs other keys are ignored; Enter (or carriage return) runs the
    /// command, backspace removes the last character, and any other key is
    /// typed. The wheel scrolls, never above the first line.
    pub fn handle_event(&mut self, event: Event, fs: &mut RamFs) -> (act: TerminalAction)
        ensures
            Self::event_effect(*old(self), *final(self), event, old(fs)@, final(fs)@, act),
    {
        proof { use_type_invariant(&*self); }
        match event {
            Event::KeyPress(c) => {
                if c == '\x03' {
                    if self.ping_state.is_some() {
                        self.print(lit("Ping canceled."), (255, 255, 0));
                        proof { use_type_invariant(&*self); }
                        self.ping_state = None;
                    }
                    return TerminalAction::Nothing;
                }
                if self.ping_state.is_some() {
                    return TerminalAction::Nothing;
                }
                let mut act = TerminalAction::Nothing;
                if c == '\n' || c == '\r' {
                    act = self.execute_command(fs);
                    proof { use_type_invariant(&*self); }
                } else if c == '\x08' {
                    let mut b = String::new();
                    std::mem::swap(&mut b, &mut self.input_buffer);
                    let _ = pop_char(&mut b);
                    self.input_buffer = b;
                } else {
                    let mut b = String::new();
                    std::mem::swap(&mut b, &mut self.input_buffer);
                    push_char(&mut b, c);
                    self.input_buffer = b;
                }
                self.scroll_y = -1;
                act
            },
            Event::MouseScroll { delta } => {
                proof { use_type_invariant(&*self); }
                self.scroll_y = saturating_add_isize(self.scroll_y, delta as isize);
                if self.scroll_y < 0 {
                    self.scroll_y = 0;
                }
                TerminalAction::Nothing
            },
            _ => TerminalAction::Nothing,
        }
    }
}

/// With no ping running, typing a character (not Enter, backspace or
/// Ctrl+C) and then backspace leaves the input, the output and the file
/// system as they were, and neither key asks for anything.
pub proof fn lemma_backspace_undoes_typing(
    a: TerminalApp,
    b: TerminalApp,
    d: TerminalApp,
    c: char,
    fs0: Map<crate::fs::Path, FsEntry>,
    fs1: Map<crate::fs::Path, FsEntry>,
    fs2: Map<crate::fs::Path, FsEntry>,
    act1: TerminalAction,
    act2: TerminalAction,
)
    requires
        a.ping() is None,
        c != '\x03' && c != '\n' && c != '\r' && c != '\x08',
        TerminalApp::event_effect(a, b, Event::KeyPress(c), fs0, fs1, act1),
        TerminalApp::event_effect(b, d, Event::KeyPress('\x08'), fs1, fs2, act2),
    ensures
        d.input() == a.input(),
        d.lines() == a.lines(),
        d.ping() == a.ping(),
        session_kept(a, d),
        fs2 == fs0,
        act1 == TerminalAction::Nothing && act2 == TerminalAction::Nothing,
{
    assert(b.input().drop_last() =~= a.input());
}

/// An echo request to send, with the address as a sequence.
pub open spec fn request_view(send: Option<([u8; 4], u16)>) -> Option<(Seq<u8>, u16)> {
    match send {
        Some((ip, s)) => Some((ip@, s)),
        None => None,
    }
}

fn action_for(c: Command) -> (a: TerminalAction)
    ensures
        a == action_of(c),
{
    match c {
        Command::Date => TerminalAction::ShowDate,
        Command::Sysinfo => TerminalAction::ShowCpuInfo,
        Command::Reboot => TerminalAction::Reboot,
        _ => TerminalAction::Nothing,
    }
}

/// The first word of an `echo` command is "echo", which is not ">".
/// `cd ..` takes off the last name of the current directory and nothing
/// more: from `parent/name` it goes to `parent`, from a directory of a
/// single name to the root, and at the root it stays there.
pub proof fn law_cd_up_drops_last_name(w: Seq<Seq<char>>, m: Map<Seq<Seq<char>>, FsEntry>, parent: Seq<char>, name: Seq<char>)
    requires
        command_of(w) == Command::Cd,
        w.len() > 1,
        w[1] == ".."@,
        forall|i: int| 0 <= i < name.len() ==> name[i] != '/',
    ensures
        cwd_after(w, parent + seq!['/'] + name, m) == parent,
        name.len() > 0 ==> cwd_after(w, name, m) == Seq::<char>::empty(),
        cwd_after(w, Seq::<char>::empty(), m) == Seq::<char>::empty(),
{
    lemma_pieces_then_name(parent, '/', name);
    lemma_join_pieces(parent, '/');
    let cwd = parent + seq!['/'] + name;
    assert(cwd.len() > 0);
    assert(pieces(cwd, '/').drop_last() =~= pieces(parent, '/'));
    assert(seq![name].drop_last() =~= Seq::<Seq<char>>::empty());
}

proof fn lemma_echo_first_word(w: Seq<Seq<char>>)
    requires
        command_of(w) == Command::Echo,
    ensures
        w.len() > 0,
        w[0] == "echo"@,
        w[0] != ">"@,
{
    reveal_strlit("echo");
    reveal_strlit(">");
    assert("echo"@.len() == 4);
    assert(">"@.len() == 1);
}

/// Where the first ">" stands, or the number of words when there is none.
fn find_redirect(parts: &Vec<Vec<char>>) -> (r: usize)
    ensures
        r <= parts@.len(),
        r < parts@.len() ==> r as int == redirect_pos(char_views(parts@)) && parts@[r as int]@ == ">"@,
        r == parts@.len() ==> redirect_pos(char_views(parts@)) == -1,
{
    let ghost w = char_views(parts@);
    let mut i: usize = 0;
    while i < parts.len()
        invariant
            i <= parts@.len(),
            w == char_views(parts@),
            forall|j: int| 0 <= j < i ==> w[j] != ">"@,
        decreases parts.len() - i,
    {
        if chars_eq(&parts[i], ">") {
            proof {
                assert(w[i as int] == ">"@);
                let p = redirect_pos(w);
                assert(0 <= p < w.len() && w[p] == ">"@ && forall|j: int| 0 <= j < p ==> w[j] != ">"@);
                if p < i {
                } else if p > i {
                    assert(w[i as int] != ">"@);
                }
            }
            return i;
        }
        i = i + 1;
    }
    i
}

/// The names of the set flags, each followed by a space.
fn feature_list(f: &CpuFeatures) -> (names: String)
    ensures
        names@ == feature_names(*f),
{
    let mut names = flag_string(f.fpu, "FPU ");
    push_flag(&mut names, f.vme, "VME ");
    push_flag(&mut names, f.de, "DE ");
    push_flag(&mut names, f.pse, "PSE ");
    push_flag(&mut names, f.tsc, "TSC ");
    push_flag(&mut names, f.msr, "MSR ");
    push_flag(&mut names, f.pae, "PAE ");
    push_flag(&mut names, f.mce, "MCE ");
    push_flag(&mut names, f.apic, "APIC ");
    push_flag(&mut names, f.mtrr, "MTRR ");
    push_flag(&mut names, f.pge, "PGE ");
    push_flag(&mut names, f.mca, "MCA ");
    push_flag(&mut names, f.cmov, "CMOV ");
    push_flag(&mut names, f.pat, "PAT ");
    push_flag(&mut names, f.mmx, "MMX ");
    push_flag(&mut names, f.sse, "SSE ");
    push_flag(&mut names, f.sse2, "SSE2 ");
    push_flag(&mut names, f.htt, "HTT ");
    names
}

fn flag_string(set: bool, name: &str) -> (s: String)
    ensures
        s@ == flag_text(set, name@),
{
    proof { reveal(flag_text); }
    if set { lit(name) } else { String::new() }
}

fn push_flag(s: &mut String, set: bool, name: &str)
    ensures
        final(s)@ == old(s)@ + flag_text(set, name@),
{
    proof { reveal(flag_text); }
    if set {
        push_str(s, name);
    } else {
        assert(old(s)@ + Seq::<char>::empty() =~= old(s)@);
    }
}

/// Removes the last character of a string (`String::pop`).
#[verifier::external_body]
pub(crate) fn pop_char(s: &mut String) -> (r: Option<char>)
    ensures
        old(s)@.len() > 0 ==> r == Some(old(s)@.last()) && final(s)@ == old(s)@.drop_last(),
        old(s)@.len() == 0 ==> r is None && final(s)@ == old(s)@,
{
    s.pop()
}

proof fn lemma_rows_of(n: nat, width: nat)
    requires
        width >= 1,
    ensures
        n > 0 ==> rows_of(n, width) == n / width + (if n % width == 0 { 0nat } else { 1nat }),
        rows_of(n, width) <= n + 1,
{
    if n > 0 {
        assert((n + width - 1) / (width as int) == n / width + (if n % width == 0 { 0int } else { 1int })) by (nonlinear_arith)
            requires width >= 1, n > 0;
        assert(n / width <= n) by (nonlinear_arith) requires width >= 1;
    }
}

proof fn lemma_output_rows_prefix(ls: Seq<Line>, k: int, width: nat)
    requires
        0 <= k <= ls.len(),
    ensures
        output_rows(ls.take(k), width) <= output_rows(ls, width),
    decreases ls.len() - k,
{
    if k < ls.len() {
        lemma_output_rows_prefix(ls, k + 1, width);
        assert(ls.take(k + 1).drop_last() =~= ls.take(k));
    } else {
        assert(ls.take(k) =~= ls);
    }
}

/// Printing a list of one line is printing that line.
pub proof fn lemma_push_lines_one(out: Seq<Line>, l: Line)
    ensures
        push_lines(out, seq![l]) == push_line(out, l),
{
    assert(seq![l].drop_last() =~= Seq::<Line>::empty());
    assert(push_lines(out, Seq::<Line>::empty()) == out);
}

/// Printing the first `k + 1` lines is printing the first `k`, then line `k`.
pub proof fn lemma_push_lines_step(out: Seq<Line>, ls: Seq<Line>, k: int)
    requires
        0 <= k < ls.len(),
    ensures
        push_lines(out, ls.take(k + 1)) == push_line(push_lines(out, ls.take(k)), ls[k]),
{
    assert(ls.take(k + 1).drop_last() =~= ls.take(k));
    assert(ls.take(k + 1).last() == ls[k]);
}

/// Printing a list of two lines is printing one, then the other.
pub proof fn lemma_push_lines_two(out: Seq<Line>, l1: Line, l2: Line)
    ensures
        push_lines(out, seq![l1, l2]) == push_line(push_line(out, l1), l2),
{
    assert(seq![l1, l2].drop_last() =~= seq![l1]);
    assert(seq![l1, l2].last() == l2);
    lemma_push_lines_one(out, l1);
}

/// Printing two lists one after the other is printing the joined list.
pub proof fn lemma_push_lines_concat(out: Seq<Line>, a: Seq<Line>, b: Seq<Line>)
    ensures
        push_lines(out, a + b) == push_lines(push_lines(out, a), b),
    decreases b.len(),
{
    if b.len() == 0 {
        assert(a + b =~= a);
    } else {
        lemma_push_lines_concat(out, a, b.drop_last());
        assert((a + b).drop_last() =~= a + b.drop_last());
        assert((a + b).last() == b.last());
    }
}

} // verus!
