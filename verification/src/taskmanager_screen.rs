use vstd::prelude::*;
use crate::app::Rgb;
use crate::compositor::{
    DrawCmd, GraphicalCompositor, apply_ops, cmds_fit, cmd_fits, sane_frame, push_rect, push_text, rect_cmd,
    rows_cmds, text_cmds, glyph_cmd,
};
use crate::taskmanager::{
    AccordionSection, TaskManagerApp, HISTORY_LEN, content_height, header_top, section_at_index, section_index,
    get_content_height, total_height,
};
use crate::text::{chars_of, decimal, push_decimal, push_str, lit, lemma_decimal_bound};

verus! {

/// How many of `n` glyphs fit from `x0` before `limit`.
pub open spec fn fit_count(x0: int, limit: int, n: nat) -> nat {
    if limit < x0 + 8 {
        0
    } else if (limit - x0) / 8 < n {
        ((limit - x0) / 8) as nat
    } else {
        n
    }
}

/// The glyphs of `s` from `(x0, y)` that end by `limit`.
pub open spec fn clipped_text(x0: usize, y: usize, s: Seq<char>, limit: usize, color: Rgb) -> Seq<DrawCmd> {
    text_cmds(x0, y, s.take(fit_count(x0 as int, limit as int, s.len()) as int), color)
}

/// Appends the glyphs of `s` from `(x0, y)` that end by `limit`.
pub fn push_clipped(cmds: &mut Vec<DrawCmd>, x0: usize, y: usize, s: &str, limit: usize, color: Rgb)
    requires
        limit + 8 <= usize::MAX,
        x0 + 8 <= usize::MAX,
        y + 8 <= usize::MAX,
        cmds_fit(old(cmds)@),
    ensures
        final(cmds)@ == old(cmds)@ + clipped_text(x0, y, s@, limit, color),
        cmds_fit(final(cmds)@),
{
    let chars = chars_of(s);
    let mut cx: usize = x0;
    let mut i: usize = 0;
    let ghost k = fit_count(x0 as int, limit as int, s@.len());
    assert(old(cmds)@ + text_cmds(x0, y, s@.take(0), color) =~= old(cmds)@);
    while i < chars.len()
        invariant_except_break
            i <= k,
        invariant
            i <= chars@.len(),
            chars@ == s@,
            limit + 8 <= usize::MAX,
            x0 + 8 <= usize::MAX,
            i > 0 ==> cx <= limit,
            y + 8 <= usize::MAX,
            k == fit_count(x0 as int, limit as int, s@.len()),
            cx == x0 + 8 * i,
            cmds@ == old(cmds)@ + text_cmds(x0, y, s@.take(i as int), color),
            cmds_fit(cmds@),
        ensures
            i == k,
            cmds@ == old(cmds)@ + text_cmds(x0, y, s@.take(i as int), color),
            cmds_fit(cmds@),
        decreases chars.len() - i,
    {
        if cx + 8 > limit {
            assert(i == k) by (nonlinear_arith)
                requires
                    k == fit_count(x0 as int, limit as int, s@.len()),
                    x0 + 8 * i + 8 > limit,
                    i <= k,
                    i < s@.len();
            break;
        }
        assert(i < k) by (nonlinear_arith)
            requires
                k == fit_count(x0 as int, limit as int, s@.len()),
                x0 + 8 * i + 8 <= limit,
                i < s@.len();
        let ghost before = cmds@;
        let e = DrawCmd::Glyph { x: cx, y, c: chars[i], color };
        cmds.push(e);
        proof {
            assert(s@.take(i + 1).drop_last() =~= s@.take(i as int));
            assert(s@.take(i + 1).last() == s@[i as int]);
            assert(text_cmds(x0, y, s@.take(i + 1), color) == text_cmds(x0, y, s@.take(i as int), color).push(e));
            assert(cmds@ =~= old(cmds)@ + text_cmds(x0, y, s@.take(i + 1), color));
            assert forall|j: int| 0 <= j < cmds@.len() implies cmd_fits(#[trigger] cmds@[j]) by {
                if j < before.len() {
                    assert(cmds@[j] == before[j]);
                } else {
                    assert(cmds@[j] == e);
                }
            }
        }
        cx = cx + 8;
        i = i + 1;
    }
}

/// A section header at `(x, top)`, `w` wide: "[-] " before the title of an
/// unfolded section, "[+] " before a folded one's.
pub open spec fn header_onto(acc: Seq<DrawCmd>, x: usize, top: usize, w: usize, title: Seq<char>, open: bool) -> Seq<DrawCmd> {
    let c = acc.push(rect_cmd(x, top, w, 25, if open { (60u8, 60u8, 70u8) } else { (40u8, 40u8, 50u8) }));
    c + text_cmds((x + 10) as usize, (top + 8) as usize, (if open { "[-] "@ } else { "[+] "@ }) + title, (255, 255, 255))
}

/// How many bars of a chart `w` wide are drawn, of `n` samples.
pub open spec fn bar_count(w: usize, n: nat) -> nat {
    if w <= 18 { if n >= 1 { 1 } else { 0 } } else if ((w - 13) / 3) as nat <= n { ((w - 13) / 3) as nat } else { n }
}

/// The bar of a sample `v` (a percentage) standing on `base`.
pub open spec fn bar_cmd(x: int, base: int, v: u8, color: Rgb) -> DrawCmd {
    rect_cmd(x as usize, (base - v * 40 / 100) as usize, 2, (v * 40 / 100) as usize, color)
}

/// A chart of the samples `hist`: its background `off` pixels below `top`,
/// then one bar every 3 pixels as far as the width allows.
pub open spec fn chart_onto(acc: Seq<DrawCmd>, x: usize, top: usize, w: usize, off: usize, hist: Seq<u8>,
    color: Rgb) -> Seq<DrawCmd>
{
    let c = acc.push(rect_cmd((x + 5) as usize, (top + off) as usize, (w - 10) as usize, 40, (40, 40, 45)));
    c + rows_cmds(bar_count(w, hist.len()), |i: int| bar_cmd(x + 5 + 3 * i, top + off + 40, hist[i], color))
}

/// The performance section: the processor and memory charts with their
/// last samples.
pub open spec fn perf_onto(acc: Seq<DrawCmd>, t: TaskManagerApp, x: usize, top: usize, w: usize) -> Seq<DrawCmd> {
    let limit = (x + w) as usize;
    let c = acc.push(rect_cmd(x, top, w, 160, (35, 35, 40)));
    let c = chart_onto(c, x, top, w, 10, t.cpu(), (0, 200, 255));
    let c = c + clipped_text((x + 5) as usize, (top + 55) as usize,
        "CPU Usage: "@ + decimal(t.cpu().last() as nat) + "%"@, limit, (0, 200, 255));
    let c = chart_onto(c, x, top, w, 80, t.ram(), (255, 100, 0));
    c + clipped_text((x + 5) as usize, (top + 125) as usize,
        "RAM Usage: "@ + decimal(t.ram().last() as nat) + "MB / 128MB"@, limit, (255, 100, 0))
}

/// Lines of a text section, 15 pixels apart, each cut at the right edge.
pub open spec fn lines_onto(acc: Seq<DrawCmd>, x: usize, top: usize, w: usize, lines: Seq<Seq<char>>, color: Rgb) -> Seq<DrawCmd>
    decreases lines.len(),
{
    if lines.len() == 0 {
        acc
    } else {
        lines_onto(acc, x, top, w, lines.drop_last(), color)
            + clipped_text((x + 10) as usize, (top + 10 + 15 * (lines.len() - 1)) as usize, lines.last(),
                (x + w) as usize, color)
    }
}

/// The lines of the OS analysis section.
pub open spec fn os_lines(ticks: usize) -> Seq<Seq<char>> {
    seq!["Kernel: RustOS v0.2"@, "System Status: Nominal"@, "Uptime: "@ + decimal((ticks / 60) as nat) + "s"@,
        "Analysis: 0 errors found"@]
}

/// The lines of the device section.
pub open spec fn device_lines(ticks: usize) -> Seq<Seq<char>> {
    seq!["Architecture: x86_64"@, "CPU Ticks: "@ + decimal(ticks as nat),
        "Network: "@ + decimal((10 + ticks % 27) as nat) + " kbps"@, "RAM: 128 MB Installed"@]
}

/// The lines of the support section.
pub open spec fn support_lines() -> Seq<Seq<char>> {
    seq!["Need help with RustOS?"@, "Contact: support@rustos"@, "Docs: /docs/system.txt"@]
}

/// The content of the `k`-th section at `(x, top)`, `w` wide.
pub open spec fn body_onto(acc: Seq<DrawCmd>, t: TaskManagerApp, k: int, x: usize, top: usize, w: usize) -> Seq<DrawCmd> {
    if k == 0 {
        perf_onto(acc, t, x, top, w)
    } else if k == 1 {
        lines_onto(acc.push(rect_cmd(x, top, w, 70, (35, 35, 40))), x, top, w, os_lines(t.tick_count()), (100, 255, 100))
    } else if k == 2 {
        lines_onto(acc.push(rect_cmd(x, top, w, 70, (35, 35, 40))), x, top, w, device_lines(t.tick_count()), (200, 200, 200))
    } else {
        lines_onto(acc.push(rect_cmd(x, top, w, 60, (35, 35, 40))), x, top, w, support_lines(), (255, 200, 100))
    }
}

/// The title of the `k`-th section.
pub open spec fn section_title(k: int) -> Seq<char> {
    if k == 0 { "Performance Monitor"@ } else if k == 1 { "OS Analysis"@ } else if k == 2 { "Device Info"@ } else { "Support"@ }
}

/// Where the `k`-th header stands on the screen, scrolled by `scroll`.
pub open spec fn section_y(e: Option<AccordionSection>, scroll: int, y: usize, k: int) -> int {
    y - scroll + header_top(e, k)
}

/// Whether the `k`-th header is on the screen.
pub open spec fn header_shown(e: Option<AccordionSection>, scroll: int, y: usize, h: usize, k: int) -> bool {
    let top = section_y(e, scroll, y, k);
    y - 25 < top && top < y + h
}

/// Whether the `k`-th section is unfolded and its content on the screen.
pub open spec fn body_shown(e: Option<AccordionSection>, scroll: int, y: usize, h: usize, k: int) -> bool {
    let bt = section_y(e, scroll, y, k) + 25;
    &&& e == Some(section_at_index(k))
    &&& y - content_height(section_at_index(k)) < bt && bt < y + h
}

/// `acc` followed by the `k`-th section's header and content, where shown.
pub open spec fn section_onto(acc: Seq<DrawCmd>, t: TaskManagerApp, k: int, x: usize, y: usize, w: usize, h: usize) -> Seq<DrawCmd> {
    let top = section_y(t.expanded(), t.scroll() as int, y, k);
    let open = t.expanded() == Some(section_at_index(k));
    let c = if header_shown(t.expanded(), t.scroll() as int, y, h, k) {
        header_onto(acc, (x + 5) as usize, top as usize, (w - 10) as usize, section_title(k), open)
    } else {
        acc
    };
    if body_shown(t.expanded(), t.scroll() as int, y, h, k) {
        body_onto(c, t, k, (x + 5) as usize, (top + 25) as usize, (w - 10) as usize)
    } else {
        c
    }
}

/// What the task manager draws in a window at `(x, y)`, `w` by `h`
/// pixels: the background, then each section's header and, for the
/// unfolded one, its content, where they are on the screen.
pub open spec fn taskmanager_screen(t: TaskManagerApp, x: usize, y: usize, w: usize, h: usize) -> Seq<DrawCmd> {
    let c = Seq::<DrawCmd>::empty().push(rect_cmd(x, y, w, h, (30, 30, 35)));
    let c = section_onto(c, t, 0, x, y, w, h);
    let c = section_onto(c, t, 1, x, y, w, h);
    let c = section_onto(c, t, 2, x, y, w, h);
    section_onto(c, t, 3, x, y, w, h)
}

/// The `k`-th section is drawn below the top of the address space, and
/// wide enough for its charts.
pub open spec fn section_fits(e: Option<AccordionSection>, scroll: int, y: usize, w: usize, h: usize, k: int) -> bool {
    &&& header_shown(e, scroll, y, h, k) ==> section_y(e, scroll, y, k) >= 0 && w >= 10
    &&& body_shown(e, scroll, y, h, k) ==> section_y(e, scroll, y, k) + 25 >= 0 && w >= (if k == 0 { 20int } else { 10int })
}

/// The window and what is drawn in it stay within the machine's ranges.
pub open spec fn taskmanager_fits(e: Option<AccordionSection>, scroll: int, x: usize, y: usize, w: usize, h: usize) -> bool {
    &&& x + w + 300 <= usize::MAX
    &&& y + h + 600 <= isize::MAX
    &&& 0 <= scroll <= 300
    &&& section_fits(e, scroll, y, w, h, 0)
    &&& section_fits(e, scroll, y, w, h, 1)
    &&& section_fits(e, scroll, y, w, h, 2)
    &&& section_fits(e, scroll, y, w, h, 3)
}

fn push_header(cmds: &mut Vec<DrawCmd>, x: usize, top: usize, w: usize, title: &str, open: bool)
    requires
        cmds_fit(old(cmds)@),
        title@.len() <= 20,
        x + 300 <= usize::MAX,
        x + w <= usize::MAX,
        top + 40 <= usize::MAX,
    ensures
        final(cmds)@ == header_onto(old(cmds)@, x, top, w, title@, open),
        cmds_fit(final(cmds)@),
{
    let color: Rgb = if open { (60, 60, 70) } else { (40, 40, 50) };
    push_rect(cmds, x, top, w, 25, color);
    let mut full = if open { lit("[-] ") } else { lit("[+] ") };
    push_str(&mut full, title);
    proof {
        reveal_strlit("[-] ");
        reveal_strlit("[+] ");
    }
    push_text(cmds, x + 10, top + 8, full.as_str(), (255, 255, 255));
}

fn push_chart(cmds: &mut Vec<DrawCmd>, x: usize, top: usize, w: usize, off: usize, hist: &Vec<u8>, color: Rgb)
    requires
        cmds_fit(old(cmds)@),
        w >= 10,
        x + w + 10 <= usize::MAX,
        top + off + 40 <= usize::MAX,
        top + off >= 0,
        hist@.len() >= 1,
        crate::taskmanager::percentages(hist@),
    ensures
        final(cmds)@ == chart_onto(old(cmds)@, x, top, w, off, hist@, color),
        cmds_fit(final(cmds)@),
{
    push_rect(cmds, x + 5, top + off, w - 10, 40, (40, 40, 45));
    let ghost f = |i: int| bar_cmd(x + 5 + 3 * i, top + off + 40, hist@[i], color);
    let ghost start = cmds@;
    assert(start + rows_cmds(0, f) =~= start);
    let mut cur_x: usize = x + 5;
    let mut i: usize = 0;
    while i < hist.len()
        invariant_except_break
            i == 0 || 3 * i < w - 15,
        invariant
            i <= hist@.len(),
            w >= 10,
            x + w + 10 <= usize::MAX,
            top + off + 40 <= usize::MAX,
            hist@.len() >= 1,
            crate::taskmanager::percentages(hist@),
            f == (|i: int| bar_cmd(x + 5 + 3 * i, top + off + 40, hist@[i], color)),
            cur_x == x + 5 + 3 * i,
            cmds@ == start + rows_cmds(i as nat, f),
            cmds_fit(cmds@),
        ensures
            i == bar_count(w, hist@.len()),
            cmds@ == start + rows_cmds(i as nat, f),
            cmds_fit(cmds@),
        decreases hist.len() - i,
    {
        let v = hist[i];
        assert(v <= 100);
        let bh: usize = (v as usize * 40) / 100;
        push_rect(cmds, cur_x, top + off + 40 - bh, 2, bh, color);
        assert(cmds@ =~= start + rows_cmds((i + 1) as nat, f));
        cur_x = cur_x + 3;
        i = i + 1;
        if cur_x >= x + w - 10 {
            assert(i == bar_count(w, hist@.len()));
            break;
        }
    }
}

/// The line `CPU Usage: <last>%` or `RAM Usage: <last>MB / 128MB`.
fn usage_line(label: &str, v: u8, unit: &str) -> (s: String)
    ensures
        s@ == label@ + decimal(v as nat) + unit@,
{
    let mut s = lit(label);
    push_decimal(&mut s, v as u64);
    push_str(&mut s, unit);
    s
}

fn push_perf(cmds: &mut Vec<DrawCmd>, t: &TaskManagerApp, x: usize, top: usize, w: usize)
    requires
        cmds_fit(old(cmds)@),
        w >= 10,
        x + w + 10 <= usize::MAX,
        top + 200 <= usize::MAX,
    ensures
        final(cmds)@ == perf_onto(old(cmds)@, *t, x, top, w),
        cmds_fit(final(cmds)@),
{
    let cpu = t.cpu_history();
    let ram = t.ram_history();
    push_rect(cmds, x, top, w, 160, (35, 35, 40));
    push_chart(cmds, x, top, w, 10, cpu, (0, 200, 255));
    let cpu_line = usage_line("CPU Usage: ", cpu[cpu.len() - 1], "%");
    push_clipped(cmds, x + 5, top + 55, cpu_line.as_str(), x + w, (0, 200, 255));
    push_chart(cmds, x, top, w, 80, ram, (255, 100, 0));
    let ram_line = usage_line("RAM Usage: ", ram[ram.len() - 1], "MB / 128MB");
    push_clipped(cmds, x + 5, top + 125, ram_line.as_str(), x + w, (255, 100, 0));
}

fn push_line(cmds: &mut Vec<DrawCmd>, x: usize, top: usize, w: usize, k: usize, line: &str, color: Rgb)
    requires
        cmds_fit(old(cmds)@),
        k < 4,
        x + w + 20 <= usize::MAX,
        top + 200 <= usize::MAX,
    ensures
        final(cmds)@ == old(cmds)@ + clipped_text((x + 10) as usize, (top + 10 + 15 * k) as usize, line@,
            (x + w) as usize, color),
        cmds_fit(final(cmds)@),
{
    push_clipped(cmds, x + 10, top + 10 + 15 * k, line, x + w, color);
}

fn push_os(cmds: &mut Vec<DrawCmd>, t: &TaskManagerApp, x: usize, top: usize, w: usize)
    requires
        cmds_fit(old(cmds)@),
        x + w + 20 <= usize::MAX,
        top + 200 <= usize::MAX,
    ensures
        final(cmds)@ == body_onto(old(cmds)@, *t, 1, x, top, w),
        cmds_fit(final(cmds)@),
{
    let color: Rgb = (100, 255, 100);
    push_rect(cmds, x, top, w, 70, (35, 35, 40));
    let ghost start = cmds@;
    let mut uptime = lit("Uptime: ");
    push_decimal(&mut uptime, (t.ticks() / 60) as u64);
    push_str(&mut uptime, "s");
    push_line(cmds, x, top, w, 0, "Kernel: RustOS v0.2", color);
    push_line(cmds, x, top, w, 1, "System Status: Nominal", color);
    push_line(cmds, x, top, w, 2, uptime.as_str(), color);
    push_line(cmds, x, top, w, 3, "Analysis: 0 errors found", color);
    proof {
        let ls = os_lines(t.tick_count());
        assert(ls.drop_last().drop_last().drop_last().drop_last() =~= Seq::<Seq<char>>::empty());
        assert(ls.drop_last().drop_last().drop_last() =~= seq!["Kernel: RustOS v0.2"@]);
        assert(ls.drop_last().drop_last() =~= seq!["Kernel: RustOS v0.2"@, "System Status: Nominal"@]);
        assert(ls.drop_last() =~= seq!["Kernel: RustOS v0.2"@, "System Status: Nominal"@, uptime@]);
        reveal_with_fuel(lines_onto, 5);
    }
}

fn push_device(cmds: &mut Vec<DrawCmd>, t: &TaskManagerApp, x: usize, top: usize, w: usize)
    requires
        cmds_fit(old(cmds)@),
        x + w + 20 <= usize::MAX,
        top + 200 <= usize::MAX,
    ensures
        final(cmds)@ == body_onto(old(cmds)@, *t, 2, x, top, w),
        cmds_fit(final(cmds)@),
{
    let color: Rgb = (200, 200, 200);
    push_rect(cmds, x, top, w, 70, (35, 35, 40));
    let ticks = t.ticks();
    let mut tick_line = lit("CPU Ticks: ");
    push_decimal(&mut tick_line, ticks as u64);
    let mut net = lit("Network: ");
    push_decimal(&mut net, (10 + ticks % 27) as u64);
    push_str(&mut net, " kbps");
    push_line(cmds, x, top, w, 0, "Architecture: x86_64", color);
    push_line(cmds, x, top, w, 1, tick_line.as_str(), color);
    push_line(cmds, x, top, w, 2, net.as_str(), color);
    push_line(cmds, x, top, w, 3, "RAM: 128 MB Installed", color);
    proof {
        let ls = device_lines(t.tick_count());
        assert(ls.drop_last().drop_last().drop_last().drop_last() =~= Seq::<Seq<char>>::empty());
        assert(ls.drop_last().drop_last().drop_last() =~= seq!["Architecture: x86_64"@]);
        assert(ls.drop_last().drop_last() =~= seq!["Architecture: x86_64"@, tick_line@]);
        assert(ls.drop_last() =~= seq!["Architecture: x86_64"@, tick_line@, net@]);
        reveal_with_fuel(lines_onto, 5);
    }
}

fn push_support(cmds: &mut Vec<DrawCmd>, t: &TaskManagerApp, x: usize, top: usize, w: usize)
    requires
        cmds_fit(old(cmds)@),
        x + w + 20 <= usize::MAX,
        top + 200 <= usize::MAX,
    ensures
        final(cmds)@ == body_onto(old(cmds)@, *t, 3, x, top, w),
        cmds_fit(final(cmds)@),
{
    let color: Rgb = (255, 200, 100);
    push_rect(cmds, x, top, w, 60, (35, 35, 40));
    push_line(cmds, x, top, w, 0, "Need help with RustOS?", color);
    push_line(cmds, x, top, w, 1, "Contact: support@rustos", color);
    push_line(cmds, x, top, w, 2, "Docs: /docs/system.txt", color);
    proof {
        let ls = support_lines();
        assert(ls.drop_last().drop_last().drop_last() =~= Seq::<Seq<char>>::empty());
        assert(ls.drop_last().drop_last() =~= seq!["Need help with RustOS?"@]);
        assert(ls.drop_last() =~= seq!["Need help with RustOS?"@, "Contact: support@rustos"@]);
        reveal_with_fuel(lines_onto, 4);
    }
}

fn push_section(cmds: &mut Vec<DrawCmd>, t: &TaskManagerApp, k: usize, title: &str, x: usize, y: usize, w: usize,
    h: usize, top: isize)
    requires
        cmds_fit(old(cmds)@),
        k < 4,
        title@ == section_title(k as int),
        taskmanager_fits(t.expanded(), t.scroll() as int, x, y, w, h),
        top == section_y(t.expanded(), t.scroll() as int, y, k as int),
    ensures
        final(cmds)@ == section_onto(old(cmds)@, *t, k as int, x, y, w, h),
        cmds_fit(final(cmds)@),
{
    proof {
        reveal_strlit("Performance Monitor");
        reveal_strlit("OS Analysis");
        reveal_strlit("Device Info");
        reveal_strlit("Support");
    }
    let sec = if k == 0 {
        AccordionSection::Performance
    } else if k == 1 {
        AccordionSection::OsAnalysis
    } else if k == 2 {
        AccordionSection::DeviceInfo
    } else {
        AccordionSection::Support
    };
    assert(sec == section_at_index(k as int));
    let open = match t.expanded_section() {
        Some(s) => s == sec,
        None => false,
    };
    let shown = top > y as isize - 25 && top < (y + h) as isize;
    assert(shown == header_shown(t.expanded(), t.scroll() as int, y, h, k as int));
    if shown {
        push_header(cmds, x + 5, top as usize, w - 10, title, open);
    }
    if open {
        let ch = get_content_height(sec) as isize;
        let bt = top + 25;
        if bt > y as isize - ch && bt < (y + h) as isize {
            assert(body_shown(t.expanded(), t.scroll() as int, y, h, k as int));
            if k == 0 {
                push_perf(cmds, t, x + 5, bt as usize, w - 10);
            } else if k == 1 {
                push_os(cmds, t, x + 5, bt as usize, w - 10);
            } else if k == 2 {
                push_device(cmds, t, x + 5, bt as usize, w - 10);
            } else {
                push_support(cmds, t, x + 5, bt as usize, w - 10);
            }
        }
    }
}

/// The content height of the `k`-th section when it is the unfolded one.
fn content_below(e: Option<AccordionSection>, k: usize) -> (r: isize)
    ensures
        r == (match e {
            Some(s) => if section_index(s) == k as int { content_height(s) as int } else { 0 },
            None => 0,
        }),
{
    match e {
        Some(s) => {
            let i: usize = match s {
                AccordionSection::Performance => 0,
                AccordionSection::OsAnalysis => 1,
                AccordionSection::DeviceInfo => 2,
                AccordionSection::Support => 3,
            };
            if i == k { get_content_height(s) as isize } else { 0 }
        },
        None => 0,
    }
}

/// The commands that draw the task manager (see `taskmanager_screen`).
pub fn taskmanager_layout(t: &TaskManagerApp, x: usize, y: usize, w: usize, h: usize) -> (cmds: Vec<DrawCmd>)
    requires
        taskmanager_fits(t.expanded(), t.scroll() as int, x, y, w, h),
    ensures
        cmds@ == taskmanager_screen(*t, x, y, w, h),
        cmds_fit(cmds@),
{
    let mut cmds: Vec<DrawCmd> = Vec::new();
    assert(cmds_fit(cmds@));
    push_rect(&mut cmds, x, y, w, h, (30, 30, 35));
    let e = t.expanded_section();
    let mut top: isize = y as isize + 5 - t.scroll_y();
    push_section(&mut cmds, t, 0, "Performance Monitor", x, y, w, h, top);
    top = top + 30 + content_below(e, 0);
    push_section(&mut cmds, t, 1, "OS Analysis", x, y, w, h, top);
    top = top + 30 + content_below(e, 1);
    push_section(&mut cmds, t, 2, "Device Info", x, y, w, h, top);
    top = top + 30 + content_below(e, 2);
    push_section(&mut cmds, t, 3, "Support", x, y, w, h, top);
    cmds
}

/// The scroll position after fitting to a view `h` pixels high.
pub open spec fn fitted_scroll(e: Option<AccordionSection>, scroll: isize, h: usize) -> int {
    let m = total_height(e) - h;
    let max = if m > 0 { m } else { 0 };
    if scroll < 0 { 0 } else if scroll > max { max } else { scroll as int }
}

impl TaskManagerApp {
    /// Draws the task manager into a window at `(x, y)`, `width` by
    /// `height` pixels, after fitting the scroll position to it (see
    /// `fit_scroll`).
    pub fn draw(&mut self, compositor: &mut GraphicalCompositor, x: usize, y: usize, width: usize, height: usize)
        requires
            sane_frame(old(compositor).frame()),
            width <= isize::MAX,
            height <= isize::MAX,
            taskmanager_fits(old(self).expanded(), fitted_scroll(old(self).expanded(), old(self).scroll(), height),
                x, y, width, height),
        ensures
            final(self).last_w() == width && final(self).last_h() == height,
            final(self).scroll() == fitted_scroll(old(self).expanded(), old(self).scroll(), height),
            final(self).expanded() == old(self).expanded(),
            final(self).tick_count() == old(self).tick_count(),
            final(self).cpu() == old(self).cpu() && final(self).ram() == old(self).ram(),
            final(compositor).pixels() == apply_ops(old(compositor).pixels(), old(compositor).frame(),
                taskmanager_screen(*final(self), x, y, width, height)),
            final(compositor).frame() == old(compositor).frame(),
            final(compositor).pointer() == old(compositor).pointer(),
            final(compositor).drag_state() == old(compositor).drag_state(),
    {
        let _max_scroll = self.fit_scroll(width, height);
        let cmds = taskmanager_layout(self, x, y, width, height);
        compositor.paint(&cmds);
    }
}

} // verus!
