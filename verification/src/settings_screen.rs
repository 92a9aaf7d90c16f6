use vstd::prelude::*;
use crate::app::Rgb;
use crate::compositor::{
    DrawCmd, GraphicalCompositor, apply_ops, cmds_fit, cmd_fits, sane_frame, push_rect, push_text, rect_cmd,
    rows_cmds, text_cmds,
};
use crate::rtc::{DateTime, in_timezone};
use crate::settings::{SettingsApp, timezone_name};
use crate::text::{
    decimal, decimal_padded, push_decimal, push_decimal_padded, push_char, push_str, lit, lemma_decimal_bound,
    lemma_decimal_len_pow, pow10,
};

verus! {

/// The settings colors: background, text, secondary text and lines.
pub open spec fn settings_palette(dark: bool) -> (Rgb, Rgb, Rgb, Rgb) {
    if dark {
        ((30, 30, 35), (220, 220, 220), (150, 150, 160), (50, 50, 60))
    } else {
        ((250, 250, 252), (40, 40, 50), (80, 80, 90), (220, 220, 230))
    }
}

/// The shade of row `i` of the sidebar, `h` rows high: darker downwards.
pub open spec fn sidebar_shade(dark: bool, i: int, h: int) -> Rgb {
    if dark {
        let v = 40 - i * 10 / h;
        (v as u8, v as u8, (v + 5) as u8)
    } else {
        ((235 - i * 15 / h) as u8, (235 - i * 10 / h) as u8, (245 - i * 10 / h) as u8)
    }
}

/// The sidebar: one shaded row per pixel of height.
pub open spec fn sidebar_cmds(dark: bool, x: usize, y: usize, h: usize) -> Seq<DrawCmd> {
    rows_cmds(h as nat, |i: int| rect_cmd(x, (y + i) as usize, 150, 1, sidebar_shade(dark, i, h as int)))
}

/// `acc` followed by a tab label at `top` below the window's top: the
/// selected tab has a shaded highlight with a blue bar and a blue label.
pub open spec fn tab_onto(acc: Seq<DrawCmd>, x: usize, y: usize, top: usize, label: Seq<char>, selected: bool,
    sub: Rgb) -> Seq<DrawCmd>
{
    if selected {
        let c = acc + rows_cmds(26, |i: int| rect_cmd((x + 10) as usize, (y + top + i) as usize, 130, 1,
            ((210 - i * 20 / 26) as u8, (230 - i * 10 / 26) as u8, 255u8)));
        let c = c.push(rect_cmd((x + 10) as usize, (y + top) as usize, 3, 26, (0, 120, 255)));
        c + text_cmds((x + 25) as usize, (y + top + 9) as usize, label, (0, 80, 200))
    } else {
        acc + text_cmds((x + 25) as usize, (y + top + 9) as usize, label, sub)
    }
}

/// The time as `YYYY-MM-DD hh:mm:ss`.
pub open spec fn clock_text(dt: DateTime) -> Seq<char> {
    decimal_padded(dt.year as nat, 4) + "-"@ + decimal_padded(dt.month as nat, 2) + "-"@
        + decimal_padded(dt.day as nat, 2) + " "@ + decimal_padded(dt.hour as nat, 2) + ":"@
        + decimal_padded(dt.minute as nat, 2) + ":"@ + decimal_padded(dt.second as nat, 2)
}

/// The memory line: used and total heap in whole MiB.
pub open spec fn memory_text(used: usize, total: usize) -> Seq<char> {
    "Memory Used:  "@ + decimal((used / 0x10_0000) as nat) + " MB / "@ + decimal((total / 0x10_0000) as nat) + " MB"@
}

/// The part of the 300 pixel memory bar that is filled.
pub open spec fn filled_width(used: usize, total: usize) -> usize {
    if total == 0 { 0 } else if (used as int) * 300 / (total as int) > 300 { 300 } else { ((used as int) * 300 / (total as int)) as usize }
}

/// The name shown for a time zone.
pub open spec fn timezone_label(offset: i8) -> Seq<char> {
    if offset == 0 {
        "UTC"@
    } else if offset == 1 {
        "Germany (+1)"@
    } else if offset == 9 {
        "Japan (+9)"@
    } else {
        "Custom"@
    }
}

/// The rule under a tab's heading.
pub open spec fn rule_cmd(dark: bool, cx: usize, y: usize, cw: usize) -> DrawCmd {
    rect_cmd((cx + 30) as usize, (y + 50) as usize, (if cw >= 60 { cw - 60 } else { 0 }) as usize, 1,
        settings_palette(dark).3)
}

/// `acc` followed by the system information tab: heading, rule, logo,
/// facts and the memory bar.
pub open spec fn info_onto(acc: Seq<DrawCmd>, dark: bool, used: usize, total: usize, cx: usize, y: usize,
    cw: usize) -> Seq<DrawCmd>
{
    let (bg, text, sub, line) = settings_palette(dark);
    let c = acc + text_cmds((cx + 30) as usize, (y + 30) as usize, "System Information"@, text);
    let c = c.push(rule_cmd(dark, cx, y, cw));
    let c = c + rows_cmds(60, |i: int| rect_cmd((cx + 30) as usize, (y + 70 + i) as usize, 60, 1,
        (50u8, (150 + i * 100 / 60) as u8, 255u8)));
    let c = c + text_cmds((cx + 38) as usize, (y + 95) as usize, "RustOS"@, (255, 255, 255));
    let c = c + text_cmds((cx + 110) as usize, (y + 75) as usize, "OS Name:      RustOS v0.2"@, sub);
    let c = c + text_cmds((cx + 110) as usize, (y + 95) as usize, "Architecture: x86_64 Bare-Metal"@, sub);
    let c = c + text_cmds((cx + 110) as usize, (y + 115) as usize, "Compiler:     Rust 1.96 Nightly"@, sub);
    let c = c + text_cmds((cx + 30) as usize, (y + 160) as usize, memory_text(used, total), sub);
    let c = c.push(rect_cmd((cx + 30) as usize, (y + 180) as usize, 300, 10, line));
    c.push(rect_cmd((cx + 30) as usize, (y + 180) as usize, filled_width(used, total), 10, (0, 200, 100)))
}

/// `acc` followed by the date and time tab: the clock, in the chosen time
/// zone, and the time zone box.
pub open spec fn clock_onto(acc: Seq<DrawCmd>, s: SettingsApp, dark: bool, clock: DateTime, cx: usize, y: usize,
    cw: usize) -> Seq<DrawCmd>
{
    let (bg, text, sub, line) = settings_palette(dark);
    let btn: Rgb = if dark { (40, 40, 45) } else { (245, 245, 250) };
    let c = acc + text_cmds((cx + 30) as usize, (y + 30) as usize, "Date & Time"@, text);
    let c = c.push(rule_cmd(dark, cx, y, cw));
    let c = c + text_cmds((cx + 30) as usize, (y + 80) as usize, "Current Time:"@, sub);
    let c = c + text_cmds((cx + 150) as usize, (y + 80) as usize, clock_text(in_timezone(clock, s.timezone())),
        (0, 120, 255));
    let c = c + text_cmds((cx + 30) as usize, (y + 120) as usize, "Timezone:"@, sub);
    let c = c.push(rect_cmd((cx + 150) as usize, (y + 110) as usize, 180, 30, btn));
    let c = c.push(rect_cmd((cx + 150) as usize, (y + 110) as usize, 180, 1, line));
    let c = c.push(rect_cmd((cx + 150) as usize, (y + 139) as usize, 180, 1, line));
    let c = c.push(rect_cmd((cx + 150) as usize, (y + 110) as usize, 1, 30, line));
    let c = c.push(rect_cmd((cx + 329) as usize, (y + 110) as usize, 1, 30, line));
    let c = c + text_cmds((cx + 160) as usize, (y + 120) as usize, timezone_label(s.timezone()), text);
    let c = c + text_cmds((cx + 310) as usize, (y + 120) as usize, "v"@, sub);
    c + text_cmds((cx + 150) as usize, (y + 150) as usize, "(Click timezone box to change)"@, sub)
}

/// `acc` followed by the appearance tab: the Light Mode and Dark Mode
/// buttons.
pub open spec fn theme_onto(acc: Seq<DrawCmd>, dark: bool, cx: usize, y: usize, cw: usize) -> Seq<DrawCmd> {
    let (bg, text, sub, line) = settings_palette(dark);
    let btn: Rgb = if dark { (60, 60, 65) } else { (220, 220, 225) };
    let c = acc + text_cmds((cx + 30) as usize, (y + 30) as usize, "Appearance"@, text);
    let c = c.push(rule_cmd(dark, cx, y, cw));
    let c = c.push(rect_cmd((cx + 30) as usize, (y + 80) as usize, 120, 30, btn));
    let c = c + text_cmds((cx + 45) as usize, (y + 90) as usize, "Light Mode"@, text);
    let c = c.push(rect_cmd((cx + 170) as usize, (y + 80) as usize, 120, 30, btn));
    c + text_cmds((cx + 185) as usize, (y + 90) as usize, "Dark Mode"@, text)
}

/// `acc` followed by the content of the selected tab, right of the sidebar
/// at `cx`, `cw` pixels wide.
pub open spec fn content_onto(acc: Seq<DrawCmd>, s: SettingsApp, dark: bool, clock: DateTime, used: usize,
    total: usize, cx: usize, y: usize, cw: usize) -> Seq<DrawCmd>
{
    if s.tab() == 0 {
        info_onto(acc, dark, used, total, cx, y, cw)
    } else if s.tab() == 1 {
        clock_onto(acc, s, dark, clock, cx, y, cw)
    } else if s.tab() == 2 {
        theme_onto(acc, dark, cx, y, cw)
    } else {
        acc
    }
}

/// `acc` followed by the theme prompt with its OK and Cancel buttons, at
/// `(x + 100, y + 100)`.
pub open spec fn prompt_onto(acc: Seq<DrawCmd>, dark: bool, x: usize, y: usize) -> Seq<DrawCmd> {
    let (bg, text, sub, line) = settings_palette(dark);
    let px = (x + 100) as usize;
    let py = (y + 100) as usize;
    let btn: Rgb = if dark { (60, 60, 65) } else { (220, 220, 225) };
    let c = acc.push(rect_cmd(px, py, 300, 120, bg));
    let c = c.push(rect_cmd(px, py, 300, 1, line));
    let c = c.push(rect_cmd(px, (py + 119) as usize, 300, 1, line));
    let c = c.push(rect_cmd(px, py, 1, 120, line));
    let c = c.push(rect_cmd((px + 299) as usize, py, 1, 120, line));
    let c = c + text_cmds((px + 20) as usize, (py + 20) as usize, "All open apps will be closed"@, text);
    let c = c + text_cmds((px + 20) as usize, (py + 40) as usize, "to apply the theme."@, text);
    let c = c.push(rect_cmd((px + 30) as usize, (py + 70) as usize, 100, 30, btn));
    let c = c + text_cmds((px + 65) as usize, (py + 80) as usize, "OK"@, text);
    let c = c.push(rect_cmd((px + 170) as usize, (py + 70) as usize, 100, 30, btn));
    c + text_cmds((px + 195) as usize, (py + 80) as usize, "Cancel"@, text)
}

/// What the settings window draws at `(x, y)`, `w` by `h` pixels, in the
/// dark or light theme, given the clock reading and the heap in use and in
/// all: the content background, the shaded sidebar with its border, title
/// and three tabs, the selected tab's content, and the theme prompt when it
/// is open.
pub open spec fn settings_screen(s: SettingsApp, dark: bool, clock: DateTime, used: usize, total: usize,
    x: usize, y: usize, w: usize, h: usize) -> Seq<DrawCmd>
{
    let (bg, text, sub, line) = settings_palette(dark);
    let cx = (x + 150) as usize;
    let cw = (if w >= 150 { w - 150 } else { 0 }) as usize;
    let c = Seq::<DrawCmd>::empty().push(rect_cmd(cx, y, cw, h, bg));
    let c = c + sidebar_cmds(dark, x, y, h);
    let c = c.push(rect_cmd((x + 149) as usize, y, 1, h, line));
    let c = c + text_cmds((x + 15) as usize, (y + 20) as usize, "Settings"@, text);
    let c = tab_onto(c, x, y, 50, "System Info"@, s.tab() == 0, sub);
    let c = tab_onto(c, x, y, 90, "Date & Time"@, s.tab() == 1, sub);
    let c = tab_onto(c, x, y, 130, "Appearance"@, s.tab() == 2, sub);
    let c = content_onto(c, s, dark, clock, used, total, cx, y, cw);
    if s.prompting() { prompt_onto(c, dark, x, y) } else { c }
}

/// The window's coordinates stay within `usize`, the sidebar shading
/// within `u32`, and the memory bar's product within `usize`.
pub open spec fn settings_fits(dark: bool, used: usize, x: usize, y: usize, w: usize, h: usize) -> bool {
    &&& x + w + 1000 <= usize::MAX
    &&& y + h + 300 <= usize::MAX
    &&& h == 0 || (h - 1) * (if dark { 10int } else { 15int }) <= u32::MAX
    &&& (used as int) * 300 <= usize::MAX
}

fn push_sidebar(cmds: &mut Vec<DrawCmd>, dark: bool, x: usize, y: usize, h: usize)
    requires
        cmds_fit(old(cmds)@),
        x + 150 <= usize::MAX,
        y + h <= usize::MAX,
        h == 0 || (h - 1) * (if dark { 10int } else { 15int }) <= u32::MAX,
    ensures
        final(cmds)@ == old(cmds)@ + sidebar_cmds(dark, x, y, h),
        cmds_fit(final(cmds)@),
{
    let ghost f = |i: int| rect_cmd(x, (y + i) as usize, 150, 1, sidebar_shade(dark, i, h as int));
    assert(old(cmds)@ + rows_cmds(0, f) =~= old(cmds)@);
    let mut i: usize = 0;
    while i < h
        invariant
            i <= h,
            y + h <= usize::MAX,
            x + 150 <= usize::MAX,
            h == 0 || (h - 1) * (if dark { 10int } else { 15int }) <= u32::MAX,
            f == (|i: int| rect_cmd(x, (y + i) as usize, 150, 1, sidebar_shade(dark, i, h as int))),
            cmds@ == old(cmds)@ + rows_cmds(i as nat, f),
            cmds_fit(cmds@),
        decreases h - i,
    {
        assert(h <= u32::MAX) by (nonlinear_arith)
            requires h > 0, (h - 1) * (if dark { 10int } else { 15int }) <= u32::MAX;
        let iu = i as u32;
        let hu = h as u32;
        let shade: Rgb = if dark {
            assert(i * 10 <= u32::MAX) by (nonlinear_arith) requires i < h, (h - 1) * 10 <= u32::MAX;
            assert(i * 10 / (h as int) < 10) by (nonlinear_arith) requires i < h;
            let v: u8 = 40 - ((iu * 10 / hu) as u8);
            (v, v, v + 5)
        } else {
            assert(i * 15 <= u32::MAX) by (nonlinear_arith) requires i < h, (h - 1) * 15 <= u32::MAX;
            assert(i * 15 / (h as int) < 15) by (nonlinear_arith) requires i < h;
            assert(i * 10 / (h as int) < 10) by (nonlinear_arith) requires i < h;
            (235 - ((iu * 15 / hu) as u8), 235 - ((iu * 10 / hu) as u8), 245 - ((iu * 10 / hu) as u8))
        };
        assert(shade == sidebar_shade(dark, i as int, h as int));
        push_rect(cmds, x, y + i, 150, 1, shade);
        assert(cmds@ =~= old(cmds)@ + rows_cmds((i + 1) as nat, f));
        i = i + 1;
    }
}

fn push_tab(cmds: &mut Vec<DrawCmd>, x: usize, y: usize, top: usize, label: &str, selected: bool, sub: Rgb)
    requires
        cmds_fit(old(cmds)@),
        x + 25 + 8 * label@.len() + 8 <= usize::MAX,
        x + 150 <= usize::MAX,
        y + top + 40 <= usize::MAX,
    ensures
        final(cmds)@ == tab_onto(old(cmds)@, x, y, top, label@, selected, sub),
        cmds_fit(final(cmds)@),
{
    if selected {
        let ghost f = |i: int| rect_cmd((x + 10) as usize, (y + top + i) as usize, 130, 1,
            ((210 - i * 20 / 26) as u8, (230 - i * 10 / 26) as u8, 255u8));
        let ghost start = cmds@;
        assert(start + rows_cmds(0, f) =~= start);
        let mut i: usize = 0;
        while i < 26
            invariant
                i <= 26,
                x + 25 + 8 * label@.len() + 8 <= usize::MAX,
                x + 150 <= usize::MAX,
                y + top + 40 <= usize::MAX,
                f == (|i: int| rect_cmd((x + 10) as usize, (y + top + i) as usize, 130, 1,
                    ((210 - i * 20 / 26) as u8, (230 - i * 10 / 26) as u8, 255u8))),
                cmds@ == start + rows_cmds(i as nat, f),
                cmds_fit(cmds@),
            decreases 26 - i,
        {
            let iu = i as u32;
            let r: u8 = 210 - ((iu * 20 / 26) as u8);
            let g: u8 = 230 - ((iu * 10 / 26) as u8);
            push_rect(cmds, x + 10, y + top + i, 130, 1, (r, g, 255));
            assert(cmds@ =~= start + rows_cmds((i + 1) as nat, f));
            i = i + 1;
        }
        push_rect(cmds, x + 10, y + top, 3, 26, (0, 120, 255));
        push_text(cmds, x + 25, y + top + 9, label, (0, 80, 200));
    } else {
        push_text(cmds, x + 25, y + top + 9, label, sub);
    }
}

/// The time as `YYYY-MM-DD hh:mm:ss`.
#[verifier::spinoff_prover]
#[verifier::rlimit(30)]
fn clock_string(clock: &DateTime) -> (time: String)
    ensures
        time@ == clock_text(*clock),
        time@.len() <= 25,
{
    let mut time = String::new();
    push_decimal_padded(&mut time, clock.year as u64, 4);
    push_char(&mut time, '-');
    push_decimal_padded(&mut time, clock.month as u64, 2);
    push_char(&mut time, '-');
    push_decimal_padded(&mut time, clock.day as u64, 2);
    push_char(&mut time, ' ');
    push_decimal_padded(&mut time, clock.hour as u64, 2);
    push_char(&mut time, ':');
    push_decimal_padded(&mut time, clock.minute as u64, 2);
    push_char(&mut time, ':');
    push_decimal_padded(&mut time, clock.second as u64, 2);
    proof {
        reveal_strlit("-");
        reveal_strlit(" ");
        reveal_strlit(":");
        assert(time@ =~= clock_text(*clock));
        reveal_with_fuel(pow10, 6);
        lemma_decimal_len_pow(clock.year as nat, 5);
        lemma_decimal_len_pow(clock.month as nat, 3);
        lemma_decimal_len_pow(clock.day as nat, 3);
        lemma_decimal_len_pow(clock.hour as nat, 3);
        lemma_decimal_len_pow(clock.minute as nat, 3);
        lemma_decimal_len_pow(clock.second as nat, 3);
    }
    time
}

/// The memory line for `used` of `total` heap bytes.
fn memory_string(used: usize, total: usize) -> (mem: String)
    ensures
        mem@ == memory_text(used, total),
        mem@.len() <= 63,
{
    let mut mem = lit("Memory Used:  ");
    push_decimal(&mut mem, (used / 0x10_0000) as u64);
    push_str(&mut mem, " MB / ");
    push_decimal(&mut mem, (total / 0x10_0000) as u64);
    push_str(&mut mem, " MB");
    proof {
        reveal_strlit("Memory Used:  ");
        reveal_strlit(" MB / ");
        reveal_strlit(" MB");
        lemma_decimal_bound((used / 0x10_0000) as nat);
        lemma_decimal_bound((total / 0x10_0000) as nat);
        assert(mem@ =~= memory_text(used, total));
    }
    mem
}

fn push_info(cmds: &mut Vec<DrawCmd>, dark: bool, used: usize, total: usize, cx: usize, y: usize, cw: usize)
    requires
        cmds_fit(old(cmds)@),
        cx + cw + 850 <= usize::MAX,
        y + 300 <= usize::MAX,
        (used as int) * 300 <= usize::MAX,
    ensures
        final(cmds)@ == info_onto(old(cmds)@, dark, used, total, cx, y, cw),
        cmds_fit(final(cmds)@),
{
    let (_bg, text, sub, line): (Rgb, Rgb, Rgb, Rgb) = if dark {
        ((30, 30, 35), (220, 220, 220), (150, 150, 160), (50, 50, 60))
    } else {
        ((250, 250, 252), (40, 40, 50), (80, 80, 90), (220, 220, 230))
    };
    let rule_w = cw.saturating_sub(60);
        proof {
            reveal_strlit("System Information");
            reveal_strlit("RustOS");
            reveal_strlit("OS Name:      RustOS v0.2");
            reveal_strlit("Architecture: x86_64 Bare-Metal");
            reveal_strlit("Compiler:     Rust 1.96 Nightly");
        }
        push_text(cmds, cx + 30, y + 30, "System Information", text);
        push_rect(cmds, cx + 30, y + 50, rule_w, 1, line);
        let ghost f = |i: int| rect_cmd((cx + 30) as usize, (y + 70 + i) as usize, 60, 1,
            (50u8, (150 + i * 100 / 60) as u8, 255u8));
        let ghost start = cmds@;
        assert(start + rows_cmds(0, f) =~= start);
        let mut i: usize = 0;
        while i < 60
            invariant
                i <= 60,
                cx + cw + 850 <= usize::MAX,
                y + 300 <= usize::MAX,
                f == (|i: int| rect_cmd((cx + 30) as usize, (y + 70 + i) as usize, 60, 1,
                    (50u8, (150 + i * 100 / 60) as u8, 255u8))),
                cmds@ == start + rows_cmds(i as nat, f),
                cmds_fit(cmds@),
            decreases 60 - i,
        {
            let v: u8 = 150 + ((i as u32 * 100 / 60) as u8);
            push_rect(cmds, cx + 30, y + 70 + i, 60, 1, (50, v, 255));
            assert(cmds@ =~= start + rows_cmds((i + 1) as nat, f));
            i = i + 1;
        }
        push_text(cmds, cx + 38, y + 95, "RustOS", (255, 255, 255));
        push_text(cmds, cx + 110, y + 75, "OS Name:      RustOS v0.2", sub);
        push_text(cmds, cx + 110, y + 95, "Architecture: x86_64 Bare-Metal", sub);
        push_text(cmds, cx + 110, y + 115, "Compiler:     Rust 1.96 Nightly", sub);
        let mem = memory_string(used, total);
        push_text(cmds, cx + 30, y + 160, mem.as_str(), sub);
        push_rect(cmds, cx + 30, y + 180, 300, 10, line);
        let mut filled: usize = if total == 0 { 0 } else { used * 300 / total };
        if filled > 300 {
            filled = 300;
        }
        push_rect(cmds, cx + 30, y + 180, filled, 10, (0, 200, 100));
}

fn push_clock(cmds: &mut Vec<DrawCmd>, st: &SettingsApp, dark: bool, clock: &DateTime, cx: usize, y: usize, cw: usize)
    requires
        cmds_fit(old(cmds)@),
        cx + cw + 850 <= usize::MAX,
        y + 300 <= usize::MAX,
    ensures
        final(cmds)@ == clock_onto(old(cmds)@, *st, dark, *clock, cx, y, cw),
        cmds_fit(final(cmds)@),
{
    let (_bg, text, sub, line): (Rgb, Rgb, Rgb, Rgb) = if dark {
        ((30, 30, 35), (220, 220, 220), (150, 150, 160), (50, 50, 60))
    } else {
        ((250, 250, 252), (40, 40, 50), (80, 80, 90), (220, 220, 230))
    };
    let rule_w = cw.saturating_sub(60);
        proof {
            reveal_strlit("Date & Time");
            reveal_strlit("Current Time:");
            reveal_strlit("Timezone:");
            reveal_strlit("UTC");
            reveal_strlit("Germany (+1)");
            reveal_strlit("Japan (+9)");
            reveal_strlit("Custom");
            reveal_strlit("v");
            reveal_strlit("(Click timezone box to change)");
        }
        let btn: Rgb = if dark { (40, 40, 45) } else { (245, 245, 250) };
        push_text(cmds, cx + 30, y + 30, "Date & Time", text);
        push_rect(cmds, cx + 30, y + 50, rule_w, 1, line);
        push_text(cmds, cx + 30, y + 80, "Current Time:", sub);
        let mut local = *clock;
        local.apply_timezone(st.timezone_offset());
        let time = clock_string(&local);
        push_text(cmds, cx + 150, y + 80, time.as_str(), (0, 120, 255));
        push_text(cmds, cx + 30, y + 120, "Timezone:", sub);
        push_rect(cmds, cx + 150, y + 110, 180, 30, btn);
        push_rect(cmds, cx + 150, y + 110, 180, 1, line);
        push_rect(cmds, cx + 150, y + 139, 180, 1, line);
        push_rect(cmds, cx + 150, y + 110, 1, 30, line);
        push_rect(cmds, cx + 329, y + 110, 1, 30, line);
        let tz = timezone_name(st.timezone_offset());
        push_text(cmds, cx + 160, y + 120, tz, text);
        push_text(cmds, cx + 310, y + 120, "v", sub);
        push_text(cmds, cx + 150, y + 150, "(Click timezone box to change)", sub);
}

fn push_theme(cmds: &mut Vec<DrawCmd>, dark: bool, cx: usize, y: usize, cw: usize)
    requires
        cmds_fit(old(cmds)@),
        cx + cw + 850 <= usize::MAX,
        y + 300 <= usize::MAX,
    ensures
        final(cmds)@ == theme_onto(old(cmds)@, dark, cx, y, cw),
        cmds_fit(final(cmds)@),
{
    let (_bg, text, sub, line): (Rgb, Rgb, Rgb, Rgb) = if dark {
        ((30, 30, 35), (220, 220, 220), (150, 150, 160), (50, 50, 60))
    } else {
        ((250, 250, 252), (40, 40, 50), (80, 80, 90), (220, 220, 230))
    };
    let rule_w = cw.saturating_sub(60);
        proof {
            reveal_strlit("Appearance");
            reveal_strlit("Light Mode");
            reveal_strlit("Dark Mode");
        }
        let btn: Rgb = if dark { (60, 60, 65) } else { (220, 220, 225) };
        push_text(cmds, cx + 30, y + 30, "Appearance", text);
        push_rect(cmds, cx + 30, y + 50, rule_w, 1, line);
        push_rect(cmds, cx + 30, y + 80, 120, 30, btn);
        push_text(cmds, cx + 45, y + 90, "Light Mode", text);
        push_rect(cmds, cx + 170, y + 80, 120, 30, btn);
        push_text(cmds, cx + 185, y + 90, "Dark Mode", text);
}

fn push_tab_content(cmds: &mut Vec<DrawCmd>, st: &SettingsApp, dark: bool, clock: &DateTime, used: usize,
    total: usize, cx: usize, y: usize, cw: usize)
    requires
        cmds_fit(old(cmds)@),
        cx + cw + 850 <= usize::MAX,
        y + 300 <= usize::MAX,
        (used as int) * 300 <= usize::MAX,
    ensures
        final(cmds)@ == content_onto(old(cmds)@, *st, dark, *clock, used, total, cx, y, cw),
        cmds_fit(final(cmds)@),
{
    let tab = st.active_tab();
    if tab == 0 {
        push_info(cmds, dark, used, total, cx, y, cw);
    } else if tab == 1 {
        push_clock(cmds, st, dark, clock, cx, y, cw);
    } else if tab == 2 {
        push_theme(cmds, dark, cx, y, cw);
    } else {
    }
}

fn push_prompt(cmds: &mut Vec<DrawCmd>, dark: bool, x: usize, y: usize)
    requires
        cmds_fit(old(cmds)@),
        x + 1000 <= usize::MAX,
        y + 300 <= usize::MAX,
    ensures
        final(cmds)@ == prompt_onto(old(cmds)@, dark, x, y),
        cmds_fit(final(cmds)@),
{
    let (bg, text, _sub, line): (Rgb, Rgb, Rgb, Rgb) = if dark {
        ((30, 30, 35), (220, 220, 220), (150, 150, 160), (50, 50, 60))
    } else {
        ((250, 250, 252), (40, 40, 50), (80, 80, 90), (220, 220, 230))
    };
    proof {
        reveal_strlit("All open apps will be closed");
        reveal_strlit("to apply the theme.");
        reveal_strlit("OK");
        reveal_strlit("Cancel");
    }
    let px = x + 100;
    let py = y + 100;
    let btn: Rgb = if dark { (60, 60, 65) } else { (220, 220, 225) };
    push_rect(cmds, px, py, 300, 120, bg);
    push_rect(cmds, px, py, 300, 1, line);
    push_rect(cmds, px, py + 119, 300, 1, line);
    push_rect(cmds, px, py, 1, 120, line);
    push_rect(cmds, px + 299, py, 1, 120, line);
    push_text(cmds, px + 20, py + 20, "All open apps will be closed", text);
    push_text(cmds, px + 20, py + 40, "to apply the theme.", text);
    push_rect(cmds, px + 30, py + 70, 100, 30, btn);
    push_text(cmds, px + 65, py + 80, "OK", text);
    push_rect(cmds, px + 170, py + 70, 100, 30, btn);
    push_text(cmds, px + 195, py + 80, "Cancel", text);
}

/// The commands that draw the settings window (see `settings_screen`).
pub fn settings_layout(st: &SettingsApp, dark: bool, clock: &DateTime, used: usize, total: usize,
    x: usize, y: usize, w: usize, h: usize) -> (cmds: Vec<DrawCmd>)
    requires
        settings_fits(dark, used, x, y, w, h),
    ensures
        cmds@ == settings_screen(*st, dark, *clock, used, total, x, y, w, h),
        cmds_fit(cmds@),
{
    let (bg, text, sub, line): (Rgb, Rgb, Rgb, Rgb) = if dark {
        ((30, 30, 35), (220, 220, 220), (150, 150, 160), (50, 50, 60))
    } else {
        ((250, 250, 252), (40, 40, 50), (80, 80, 90), (220, 220, 230))
    };
    proof {
        reveal_strlit("Settings");
        reveal_strlit("System Info");
        reveal_strlit("Date & Time");
        reveal_strlit("Appearance");
    }
    let cx = x + 150;
    let cw = w.saturating_sub(150);
    let mut cmds: Vec<DrawCmd> = Vec::new();
    assert(cmds_fit(cmds@));
    push_rect(&mut cmds, cx, y, cw, h, bg);
    push_sidebar(&mut cmds, dark, x, y, h);
    push_rect(&mut cmds, x + 149, y, 1, h, line);
    push_text(&mut cmds, x + 15, y + 20, "Settings", text);
    let tab = st.active_tab();
    push_tab(&mut cmds, x, y, 50, "System Info", tab == 0, sub);
    push_tab(&mut cmds, x, y, 90, "Date & Time", tab == 1, sub);
    push_tab(&mut cmds, x, y, 130, "Appearance", tab == 2, sub);
    push_tab_content(&mut cmds, st, dark, clock, used, total, cx, y, cw);
    let ghost framed = cmds@;
    if st.show_prompt() {
        push_prompt(&mut cmds, dark, x, y);
    }
    cmds
}

impl SettingsApp {
    /// Draws the settings window at `(x, y)`, `width` by `height` pixels,
    /// in the dark or light theme, showing the clock reading `clock` and
    /// `used` of `total` heap bytes.
    pub fn draw(&self, compositor: &mut GraphicalCompositor, dark: bool, clock: &DateTime, used: usize, total: usize,
        x: usize, y: usize, width: usize, height: usize)
        requires
            sane_frame(old(compositor).frame()),
            settings_fits(dark, used, x, y, width, height),
        ensures
            final(compositor).pixels() == apply_ops(old(compositor).pixels(), old(compositor).frame(),
                settings_screen(*self, dark, *clock, used, total, x, y, width, height)),
            final(compositor).frame() == old(compositor).frame(),
            final(compositor).pointer() == old(compositor).pointer(),
            final(compositor).drag_state() == old(compositor).drag_state(),
    {
        let cmds = settings_layout(self, dark, clock, used, total, x, y, width, height);
        compositor.paint(&cmds);
    }
}

} // verus!
