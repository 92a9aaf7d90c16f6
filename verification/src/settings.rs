use vstd::prelude::*;
use crate::app::Event;

verus! {

/// Width of the tab list on the left, in pixels.
pub const SIDEBAR_WIDTH: usize = 150;

/// The theme-change prompt: its left and top edge, width and height.
pub const PROMPT_X: usize = 100;
pub const PROMPT_Y: usize = 100;
pub const PROMPT_W: usize = 300;
pub const PROMPT_H: usize = 120;

pub open spec fn within(v: usize, lo: int, hi: int) -> bool {
    lo <= v <= hi
}

/// The next time zone offered: UTC, then Germany (+1), then Japan (+9).
pub open spec fn next_timezone(tz: i8) -> i8 {
    if tz == 0 { 1 } else if tz == 1 { 9 } else { 0 }
}

/// The system settings: the tab shown, the time zone, and a pending theme
/// change awaiting confirmation.
pub struct SettingsApp {
    active_tab: usize,
    timezone_offset: i8,
    show_prompt: bool,
    pending_theme: u8,
}

impl SettingsApp {
    pub closed spec fn tab(self) -> usize { self.active_tab }
    pub closed spec fn timezone(self) -> i8 { self.timezone_offset }
    pub closed spec fn prompting(self) -> bool { self.show_prompt }
    pub closed spec fn pending(self) -> u8 { self.pending_theme }

    /// Settings on the first tab, in Germany's time zone (UTC+1).
    pub fn new() -> (s: Self)
        ensures
            s.tab() == 0,
            s.timezone() == 1,
            !s.prompting(),
            s.pending() == 0,
    {
        SettingsApp { active_tab: 0, timezone_offset: 1, show_prompt: false, pending_theme: 0 }
    }

    pub fn title(&self) -> (r: &'static str)
        ensures
            r@ == "System Settings"@,
    {
        "System Settings"
    }

    /// What `handle_event` does with `event`, from `pre` to `post`.
    pub open spec fn event_effect(pre: Self, post: Self, event: Event, theme_request: Option<u8>) -> bool {
        match event {
            Event::MouseClick { x, y } => if pre.prompting() {
                let inside = within(x, 100, 400) && within(y, 100, 220);
                let ok = inside && within(x, 130, 230) && within(y, 170, 200);
                let cancel = inside && within(x, 270, 370) && within(y, 170, 200);
                &&& theme_request == (if ok { Some(pre.pending()) } else { None })
                &&& post.prompting() == !(ok || cancel)
                &&& post.tab() == pre.tab()
                &&& post.timezone() == pre.timezone()
                &&& post.pending() == pre.pending()
            } else if x < SIDEBAR_WIDTH {
                &&& theme_request is None
                &&& post.tab() == (if within(y, 130, 160) {
                    2
                } else if within(y, 90, 120) {
                    1
                } else if within(y, 50, 80) {
                    0
                } else {
                    pre.tab()
                })
                &&& post.timezone() == pre.timezone()
                &&& post.prompting() == pre.prompting()
                &&& post.pending() == pre.pending()
            } else {
                let tz_box = pre.tab() == 1 && within(x, 300, 480) && within(y, 110, 140);
                let light = pre.tab() == 2 && within(x, 180, 300) && within(y, 80, 110);
                let dark = pre.tab() == 2 && within(x, 320, 440) && within(y, 80, 110);
                &&& theme_request is None
                &&& post.tab() == pre.tab()
                &&& post.timezone() == (if tz_box { next_timezone(pre.timezone()) } else { pre.timezone() })
                &&& post.prompting() == (pre.prompting() || light || dark)
                &&& post.pending() == (if dark { 2 } else if light { 1 } else { pre.pending() })
            },
            _ => theme_request is None && post == pre,
        }
    }

    /// A click, at `(x, y)` within the window. While the theme prompt is
    /// shown only its buttons count: OK asks for the pending theme (given
    /// back) and Cancel closes it. Otherwise a click on the tab list picks a
    /// tab, on the time zone box (date & time tab) moves to the next zone,
    /// and on the Light or Dark button (appearance tab) opens the prompt for
    /// theme 1 or 2.
    pub fn handle_event(&mut self, event: Event) -> (theme_request: Option<u8>)
        ensures
            Self::event_effect(*old(self), *final(self), event, theme_request),
    {
        if let Event::MouseClick { x, y } = event {
            if self.show_prompt {
                let px = PROMPT_X;
                let py = PROMPT_Y;
                let pw = PROMPT_W;
                let ph = PROMPT_H;
                let mut request: Option<u8> = None;
                if x >= px && x <= px + pw && y >= py && y <= py + ph {
                    if x >= px + 30 && x <= px + 130 && y >= py + 70 && y <= py + 100 {
                        request = Some(self.pending_theme);
                        self.show_prompt = false;
                    }
                    if x >= px + 170 && x <= px + 270 && y >= py + 70 && y <= py + 100 {
                        self.show_prompt = false;
                    }
                }
                return request;
            }
            if x < SIDEBAR_WIDTH {
                if 50 <= y && y <= 80 {
                    self.active_tab = 0;
                }
                if 90 <= y && y <= 120 {
                    self.active_tab = 1;
                }
                if 130 <= y && y <= 160 {
                    self.active_tab = 2;
                }
            } else {
                let content_x = SIDEBAR_WIDTH;
                if self.active_tab == 1 {
                    if content_x + 150 <= x && x <= content_x + 330 && 110 <= y && y <= 140 {
                        self.timezone_offset = match self.timezone_offset {
                            0 => 1,
                            1 => 9,
                            _ => 0,
                        };
                    }
                } else if self.active_tab == 2 {
                    if x >= content_x + 30 && x <= content_x + 150 && 80 <= y && y <= 110 {
                        self.pending_theme = 1;
                        self.show_prompt = true;
                    }
                    if x >= content_x + 170 && x <= content_x + 290 && 80 <= y && y <= 110 {
                        self.pending_theme = 2;
                        self.show_prompt = true;
                    }
                }
            }
        }
        None
    }

    pub fn active_tab(&self) -> (r: usize)
        ensures
            r == self.tab(),
    {
        self.active_tab
    }

    pub fn timezone_offset(&self) -> (r: i8)
        ensures
            r == self.timezone(),
    {
        self.timezone_offset
    }

    pub fn show_prompt(&self) -> (r: bool)
        ensures
            r == self.prompting(),
    {
        self.show_prompt
    }
}

/// The name shown for a time zone offset.
pub fn timezone_name(offset: i8) -> (r: &'static str)
    ensures
        r@ == (if offset == 0 {
            "UTC"@
        } else if offset == 1 {
            "Germany (+1)"@
        } else if offset == 9 {
            "Japan (+9)"@
        } else {
            "Custom"@
        }),
{
    match offset {
        0 => "UTC",
        1 => "Germany (+1)",
        9 => "Japan (+9)",
        _ => "Custom",
    }
}

} // verus!
