use vstd::prelude::*;
use crate::app::Event;

verus! {

/// The folding sections of the task manager, top to bottom.
#[derive(PartialEq, Eq, Structural, Clone, Copy, Debug)]
pub enum AccordionSection {
    Performance,
    OsAnalysis,
    DeviceInfo,
    Support,
}

/// How many samples each history chart keeps.
pub const HISTORY_LEN: usize = 50;
/// Height of a section header, of the gap after a section and of the margin
/// above the first one.
pub const HEADER_HEIGHT: usize = 25;
pub const SECTION_GAP: usize = 5;
pub const TOP_MARGIN: usize = 5;

pub open spec fn section_at_index(i: int) -> AccordionSection {
    if i == 0 {
        AccordionSection::Performance
    } else if i == 1 {
        AccordionSection::OsAnalysis
    } else if i == 2 {
        AccordionSection::DeviceInfo
    } else {
        AccordionSection::Support
    }
}

pub open spec fn section_index(s: AccordionSection) -> int {
    match s {
        AccordionSection::Performance => 0,
        AccordionSection::OsAnalysis => 1,
        AccordionSection::DeviceInfo => 2,
        AccordionSection::Support => 3,
    }
}

pub open spec fn content_height(s: AccordionSection) -> usize {
    match s {
        AccordionSection::Performance => 160,
        AccordionSection::OsAnalysis => 70,
        AccordionSection::DeviceInfo => 70,
        AccordionSection::Support => 60,
    }
}

/// The height of a section's content when it is unfolded.
pub fn get_content_height(section: AccordionSection) -> (r: usize)
    ensures
        r == content_height(section),
{
    match section {
        AccordionSection::Performance => 160,
        AccordionSection::OsAnalysis => 70,
        AccordionSection::DeviceInfo => 70,
        AccordionSection::Support => 60,
    }
}

/// The height of all sections, with the unfolded one's content.
pub open spec fn total_height(expanded: Option<AccordionSection>) -> int {
    TOP_MARGIN + 4 * (HEADER_HEIGHT + SECTION_GAP) + match expanded {
        Some(s) => content_height(s) as int,
        None => 0,
    }
}

/// Where the header of the `i`-th section starts.
pub open spec fn header_top(expanded: Option<AccordionSection>, i: int) -> int {
    TOP_MARGIN + i * (HEADER_HEIGHT + SECTION_GAP) + match expanded {
        Some(s) => if section_index(s) < i { content_height(s) as int } else { 0 },
        None => 0,
    }
}

/// The section whose header holds the height `y` of the content.
pub open spec fn header_hit(expanded: Option<AccordionSection>, y: int) -> Option<AccordionSection> {
    if header_top(expanded, 0) <= y < header_top(expanded, 0) + HEADER_HEIGHT {
        Some(section_at_index(0))
    } else if header_top(expanded, 1) <= y < header_top(expanded, 1) + HEADER_HEIGHT {
        Some(section_at_index(1))
    } else if header_top(expanded, 2) <= y < header_top(expanded, 2) + HEADER_HEIGHT {
        Some(section_at_index(2))
    } else if header_top(expanded, 3) <= y < header_top(expanded, 3) + HEADER_HEIGHT {
        Some(section_at_index(3))
    } else {
        None
    }
}

/// A clicked header folds its section when unfolded, and unfolds it (folding
/// any other) when folded.
pub open spec fn toggled(expanded: Option<AccordionSection>, s: AccordionSection) -> Option<AccordionSection> {
    if expanded == Some(s) { None } else { Some(s) }
}

/// The processor sample at tick `t`: a triangle wave between 15 and 65.
pub open spec fn cpu_sample(t: usize) -> u8 {
    let c = (t % 83) as int;
    let d = if c > 50 { 100 - c } else { c };
    (if d + 15 > 255 { 255 } else { d + 15 }) as u8
}

/// The memory sample at tick `t`, in MB: between 30 and 49.
pub open spec fn ram_sample(t: usize) -> u8 {
    (30 + (t / 2) % 20) as u8
}

/// Every sample is a percentage.
pub open spec fn percentages(s: Seq<u8>) -> bool {
    forall|i: int| 0 <= i < s.len() ==> #[trigger] s[i] <= 100
}

/// The task manager: processor and memory charts and folding sections.
pub struct TaskManagerApp {
    ticks: usize,
    cpu_history: Vec<u8>,
    ram_history: Vec<u8>,
    expanded_section: Option<AccordionSection>,
    scroll_y: isize,
    last_width: usize,
    last_height: usize,
}

impl TaskManagerApp {
    #[verifier::type_invariant]
    spec fn inv(self) -> bool {
        &&& self.cpu_history@.len() == HISTORY_LEN
        &&& self.ram_history@.len() == HISTORY_LEN
        &&& self.last_height <= isize::MAX
        &&& self.last_width <= isize::MAX
        &&& percentages(self.cpu_history@)
        &&& percentages(self.ram_history@)
    }

    pub closed spec fn tick_count(self) -> usize { self.ticks }
    pub closed spec fn cpu(self) -> Seq<u8> { self.cpu_history@ }
    pub closed spec fn ram(self) -> Seq<u8> { self.ram_history@ }
    pub closed spec fn expanded(self) -> Option<AccordionSection> { self.expanded_section }
    pub closed spec fn scroll(self) -> isize { self.scroll_y }
    pub closed spec fn last_w(self) -> usize { self.last_width }
    pub closed spec fn last_h(self) -> usize { self.last_height }

    /// How far the sections scroll in the last view.
    pub open spec fn max_scroll(self) -> int {
        let m = total_height(self.expanded()) - self.last_h();
        if m > 0 { m } else { 0 }
    }

    /// Whether a click at `x` lands on the scroll bar.
    pub open spec fn on_scrollbar(self, x: usize) -> bool {
        self.max_scroll() > 0 && x >= (if self.last_w() >= 10 { self.last_w() - 10 } else { 0 })
    }

    pub fn new() -> (t: Self)
        ensures
            t.tick_count() == 0,
            t.cpu() == Seq::new(HISTORY_LEN as nat, |i: int| 0u8),
            t.ram() == Seq::new(HISTORY_LEN as nat, |i: int| 0u8),
            t.expanded() == Some(AccordionSection::Performance),
            t.scroll() == 0,
            t.last_w() == 600,
            t.last_h() == 400,
    {
        let t = TaskManagerApp {
            ticks: 0,
            cpu_history: vec![0u8; HISTORY_LEN],
            ram_history: vec![0u8; HISTORY_LEN],
            expanded_section: Some(AccordionSection::Performance),
            scroll_y: 0,
            last_width: 600,
            last_height: 400,
        };
        assert(t.cpu() =~= Seq::new(HISTORY_LEN as nat, |i: int| 0u8));
        assert(t.ram() =~= Seq::new(HISTORY_LEN as nat, |i: int| 0u8));
        t
    }

    pub fn title(&self) -> (r: &'static str)
        ensures
            r@ == "Task Manager"@,
    {
        "Task Manager"
    }

    /// What `update` does, from `pre` to `post`.
    pub open spec fn tick_effect(pre: Self, post: Self) -> bool {
        let t = if pre.tick_count() == usize::MAX { 0 } else { (pre.tick_count() + 1) as usize };
        &&& post.tick_count() == t
        &&& post.cpu() == (if t % 20 == 0 { pre.cpu().drop_first().push(cpu_sample(t)) } else { pre.cpu() })
        &&& post.ram() == (if t % 20 == 0 { pre.ram().drop_first().push(ram_sample(t)) } else { pre.ram() })
        &&& post.expanded() == pre.expanded()
        &&& post.scroll() == pre.scroll()
        &&& post.last_w() == pre.last_w()
        &&& post.last_h() == pre.last_h()
    }

    /// One frame: every 20 ticks a new processor and memory sample replaces
    /// the oldest one.
    pub fn update(&mut self)
        ensures
            Self::tick_effect(*old(self), *final(self)),
    {
        proof { use_type_invariant(&*self); }
        self.ticks = self.ticks.wrapping_add(1);
        if self.ticks % 20 == 0 {
            let mut cpu_usage: u8 = (self.ticks % 83) as u8;
            if cpu_usage > 50 {
                cpu_usage = 100 - cpu_usage;
            }
            cpu_usage = cpu_usage.saturating_add(15);
            let ram_usage: u8 = 30 + ((self.ticks / 2) % 20) as u8;
            let mut cpu = self.cpu_history.clone();
            assert(cpu@ =~= old(self).cpu());
            cpu.remove(0);
            cpu.push(cpu_usage);
            let mut ram = self.ram_history.clone();
            assert(ram@ =~= old(self).ram());
            ram.remove(0);
            ram.push(ram_usage);
            assert(cpu@ =~= old(self).cpu().drop_first().push(cpu_sample(self.ticks)));
            assert(ram@ =~= old(self).ram().drop_first().push(ram_sample(self.ticks)));
            assert(percentages(cpu@)) by {
                assert forall|i: int| 0 <= i < cpu@.len() implies #[trigger] cpu@[i] <= 100 by {
                    if i + 1 < HISTORY_LEN {
                        assert(cpu@[i] == old(self).cpu()[i + 1]);
                    }
                }
            }
            assert(percentages(ram@)) by {
                assert forall|i: int| 0 <= i < ram@.len() implies #[trigger] ram@[i] <= 100 by {
                    if i + 1 < HISTORY_LEN {
                        assert(ram@[i] == old(self).ram()[i + 1]);
                    }
                }
            }
            self.cpu_history = cpu;
            self.ram_history = ram;
        }
    }

    /// What `handle_event` does with `event`, from `pre` to `post`.
    pub open spec fn event_effect(pre: Self, post: Self, event: Event) -> bool {
        match event {
            Event::MouseClick { x, y } => if pre.on_scrollbar(x) {
                &&& post.scroll() == (y as int * pre.max_scroll()) / (pre.last_h() as int)
                &&& post.expanded() == pre.expanded()
            } else {
                &&& post.scroll() == pre.scroll()
                &&& post.expanded() == match header_hit(pre.expanded(), (y as isize) as int + pre.scroll()) {
                    Some(s) => toggled(pre.expanded(), s),
                    None => pre.expanded(),
                }
            },
            Event::MouseScroll { delta } => {
                let s = pre.scroll() + delta * 20;
                &&& post.scroll() == (if s < 0 { 0 } else { s })
                &&& post.expanded() == pre.expanded()
            },
            _ => post == pre,
        }
    }

    /// A click on the scroll bar jumps to that height; a click on a header
    /// (its height read as a signed `isize`, wrapping) folds or unfolds its
    /// section. The wheel scrolls 20 pixels a notch,
    /// never above the top.
    pub fn handle_event(&mut self, event: Event)
        requires
            event matches Event::MouseClick { x, y } ==> (if old(self).on_scrollbar(x) {
                old(self).last_h() > 0 && y as int * old(self).max_scroll() <= isize::MAX
            } else {
                isize::MIN <= (y as isize) as int + old(self).scroll() <= isize::MAX
            }),
            event matches Event::MouseScroll { delta } ==> isize::MIN <= delta * 20 <= isize::MAX
                && isize::MIN <= old(self).scroll() + delta * 20 <= isize::MAX,
        ensures
            final(self).tick_count() == old(self).tick_count(),
            final(self).cpu() == old(self).cpu() && final(self).ram() == old(self).ram(),
            final(self).last_w() == old(self).last_w() && final(self).last_h() == old(self).last_h(),
            Self::event_effect(*old(self), *final(self), event),
    {
        proof { use_type_invariant(&*self); }
        match event {
            Event::MouseClick { x: rel_x, y: rel_y } => {
                let h: usize = match self.expanded_section {
                    Some(s) => get_content_height(s),
                    None => 0,
                };
                let total: isize = 125 + h as isize;
                let diff: isize = total - self.last_height as isize;
                let max_scroll: isize = if diff > 0 { diff } else { 0 };
                if max_scroll > 0 && rel_x >= self.last_width.saturating_sub(10) {
                    assert(rel_y as int <= isize::MAX) by (nonlinear_arith)
                        requires rel_y as int * max_scroll <= isize::MAX, max_scroll > 0;
                    self.scroll_y = (rel_y as isize * max_scroll) / self.last_height as isize;
                    return;
                }
                let adjusted_y: isize = rel_y as isize + self.scroll_y;
                let mut current_y: isize = 5;
                let mut i: usize = 0;
                while i < 4
                    invariant
                        i <= 4,
                        *self == *old(self),
                        !old(self).on_scrollbar(rel_x),
                        event == (Event::MouseClick { x: rel_x, y: rel_y }),
                        adjusted_y == (rel_y as isize) as int + old(self).scroll(),
                        current_y == header_top(old(self).expanded(), i as int),
                        forall|j: int| 0 <= j < i ==> !(#[trigger] header_top(old(self).expanded(), j) <= adjusted_y
                            < header_top(old(self).expanded(), j) + HEADER_HEIGHT),
                    decreases 4 - i,
                {
                    let section = if i == 0 {
                        AccordionSection::Performance
                    } else if i == 1 {
                        AccordionSection::OsAnalysis
                    } else if i == 2 {
                        AccordionSection::DeviceInfo
                    } else {
                        AccordionSection::Support
                    };
                    assert(section == section_at_index(i as int));
                    if adjusted_y >= current_y && adjusted_y < current_y + 25 {
                        proof {
                            use_type_invariant(&*self);
                            let e = old(self).expanded();
                            let a = adjusted_y as int;
                            if i > 0 { assert(!(header_top(e, 0) <= a < header_top(e, 0) + HEADER_HEIGHT)); }
                            if i > 1 { assert(!(header_top(e, 1) <= a < header_top(e, 1) + HEADER_HEIGHT)); }
                            if i > 2 { assert(!(header_top(e, 2) <= a < header_top(e, 2) + HEADER_HEIGHT)); }
                            assert(header_hit(e, a) == Some(section_at_index(i as int)));
                        }
                        if self.expanded_section == Some(section) {
                            self.expanded_section = None;
                        } else {
                            self.expanded_section = Some(section);
                        }
                        return;
                    }
                    current_y = current_y + 25;
                    if self.expanded_section == Some(section) {
                        current_y = current_y + get_content_height(section) as isize;
                    }
                    current_y = current_y + 5;
                    i = i + 1;
                }
            },
            Event::MouseScroll { delta } => {
                self.scroll_y = self.scroll_y + (delta as isize) * 20;
                if self.scroll_y < 0 {
                    self.scroll_y = 0;
                }
            },
            _ => {},
        }
    }

    /// Fits the scroll position to a view of `width` by `height` pixels,
    /// which becomes the last view, and gives how far the sections scroll.
    pub fn fit_scroll(&mut self, width: usize, height: usize) -> (max_scroll: isize)
        requires
            width <= isize::MAX,
            height <= isize::MAX,
        ensures
            final(self).last_w() == width && final(self).last_h() == height,
            max_scroll == final(self).max_scroll(),
            final(self).scroll() == (if old(self).scroll() < 0 { 0 } else if old(self).scroll() > max_scroll {
                max_scroll
            } else {
                old(self).scroll()
            }),
            final(self).expanded() == old(self).expanded(),
            final(self).tick_count() == old(self).tick_count(),
            final(self).cpu() == old(self).cpu() && final(self).ram() == old(self).ram(),
    {
        proof { use_type_invariant(&*self); }
        self.last_width = width;
        self.last_height = height;
        let h: usize = match self.expanded_section {
            Some(s) => get_content_height(s),
            None => 0,
        };
        let total: isize = 125 + h as isize;
        let diff: isize = total - height as isize;
        let max_scroll: isize = if diff > 0 { diff } else { 0 };
        if self.scroll_y < 0 {
            self.scroll_y = 0;
        } else if self.scroll_y > max_scroll {
            self.scroll_y = max_scroll;
        }
        max_scroll
    }

    pub fn cpu_history(&self) -> (r: &Vec<u8>)
        ensures
            r@ == self.cpu(),
            r@.len() == HISTORY_LEN,
            percentages(r@),
    {
        proof { use_type_invariant(self); }
        &self.cpu_history
    }

    pub fn ram_history(&self) -> (r: &Vec<u8>)
        ensures
            r@ == self.ram(),
            r@.len() == HISTORY_LEN,
            percentages(r@),
    {
        proof { use_type_invariant(self); }
        &self.ram_history
    }

    pub fn expanded_section(&self) -> (r: Option<AccordionSection>)
        ensures
            r == self.expanded(),
    {
        self.expanded_section
    }

    pub fn scroll_y(&self) -> (r: isize)
        ensures
            r == self.scroll(),
    {
        self.scroll_y
    }

    pub fn ticks(&self) -> (r: usize)
        ensures
            r == self.tick_count(),
    {
        self.ticks
    }
}

/// A click on the header of the unfolded section folds it, leaving no
/// section unfolded; a click on the header of a folded section unfolds
/// exactly that one (folding any other).
pub proof fn law_header_click_folds_or_unfolds(pre: TaskManagerApp, post: TaskManagerApp, x: usize, y: usize, s: AccordionSection)
    requires
        TaskManagerApp::event_effect(pre, post, Event::MouseClick { x, y }),
        !pre.on_scrollbar(x),
        header_hit(pre.expanded(), (y as isize) as int + pre.scroll()) == Some(s),
    ensures
        pre.expanded() == Some(s) ==> post.expanded() is None,
        pre.expanded() != Some(s) ==> post.expanded() == Some(s),
        post.scroll() == pre.scroll(),
{
}

} // verus!
