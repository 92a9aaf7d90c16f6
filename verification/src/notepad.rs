use vstd::prelude::*;
use crate::app::{Event, saturating_add_isize, sat_isize};
use crate::text::{chars_of, lit, push_char};
use crate::terminal::pop_char;

verus! {

/// Margin around the text, in pixels.
pub const PADDING: usize = 10;
/// Height of a text line, in pixels.
pub const LINE_HEIGHT: usize = 12;
/// Width of a character, in pixels.
pub const CHAR_WIDTH: usize = 8;

/// How many text lines fit in `height` pixels.
pub open spec fn lines_fitting(height: usize) -> nat {
    if height > 2 * PADDING { ((height - 2 * PADDING) / LINE_HEIGHT as int) as nat } else { 0 }
}

/// How many characters fit on a line `width` pixels wide (at least one).
pub open spec fn chars_fitting(width: usize) -> nat {
    if width > 2 * PADDING { ((width - 2 * PADDING) / CHAR_WIDTH as int) as nat } else { 1 }
}

/// How far a text of `total` lines scrolls in a view of `visible` lines.
pub open spec fn max_scroll_of(total: nat, visible: nat) -> nat {
    if total > visible && visible > 0 { (total - visible) as nat } else { 0 }
}

/// The first line shown: -1 follows the end, anything else is held to the
/// scrollable range.
pub open spec fn settle_scroll(scroll: isize, max_scroll: nat) -> isize {
    if scroll == -1 {
        max_scroll as isize
    } else if scroll < 0 {
        0
    } else if scroll > max_scroll as isize {
        max_scroll as isize
    } else {
        scroll
    }
}

/// Lines and length of the last line after laying out `s` with lines of
/// `width` characters: a newline starts a line, and so does a character
/// that would not fit.
pub open spec fn wrap_state(s: Seq<char>, width: nat) -> (nat, nat)
    decreases s.len(),
{
    if s.len() == 0 {
        (1, 0)
    } else {
        let (lines, cur) = wrap_state(s.drop_last(), width);
        if s.last() == '\n' {
            (lines + 1, 0)
        } else if cur + 1 > width {
            (lines + 1, 1)
        } else {
            (lines, cur + 1)
        }
    }
}

/// Wrapping a text gives at most one line more than it has characters, and
/// a last line no longer than the text.
pub proof fn lemma_wrap_state_bound(s: Seq<char>, width: nat)
    ensures
        wrap_state(s, width).0 <= s.len() + 1,
        wrap_state(s, width).1 <= s.len(),
    decreases s.len(),
{
    if s.len() > 0 {
        lemma_wrap_state_bound(s.drop_last(), width);
    }
}

/// The text after a key: backspace removes the last character, Enter or
/// carriage return adds a newline, any other key adds itself.
pub open spec fn key_text(text: Seq<char>, c: char) -> Seq<char> {
    if c == '\x08' {
        if text.len() > 0 { text.drop_last() } else { text }
    } else if c == '\n' || c == '\r' {
        text.push('\n')
    } else {
        text.push(c)
    }
}

/// The text after the keys `keys` were typed, first to last.
pub open spec fn keys_text(text: Seq<char>, keys: Seq<char>) -> Seq<char>
    decreases keys.len(),
{
    if keys.len() == 0 {
        text
    } else {
        key_text(keys_text(text, keys.drop_last()), keys.last())
    }
}

/// Backspace takes back any other key.
pub proof fn lemma_backspace_undoes_key(text: Seq<char>, c: char)
    requires
        c != '\x08',
    ensures
        key_text(key_text(text, c), '\x08') == text,
{
    assert(key_text(text, c).drop_last() =~= text);
}

/// The notepad: the text being written and how it is shown.
pub struct NotepadApp {
    text: String,
    cursor_visible: bool,
    ticks: usize,
    scroll_y: isize,
}

impl NotepadApp {
    pub closed spec fn text_view(self) -> Seq<char> {
        self.text@
    }

    pub closed spec fn cursor(self) -> bool {
        self.cursor_visible
    }

    pub closed spec fn tick_count(self) -> usize {
        self.ticks
    }

    pub closed spec fn scroll(self) -> isize {
        self.scroll_y
    }

    /// A notepad holding a greeting, following the end of the text.
    pub fn new() -> (n: Self)
        ensures
            n.text_view() == "Welcome to RustOS Notepad!\nType something...\n\n"@,
            n.cursor(),
            n.tick_count() == 0,
            n.scroll() == -1,
    {
        NotepadApp {
            text: lit("Welcome to RustOS Notepad!\nType something...\n\n"),
            cursor_visible: true,
            ticks: 0,
            scroll_y: -1,
        }
    }

    pub fn title(&self) -> (r: &'static str)
        ensures
            r@ == "Notepad"@,
    {
        "Notepad"
    }

    /// The text being written.
    pub fn text(&self) -> (r: &String)
        ensures
            r@ == self.text_view(),
    {
        &self.text
    }

    pub fn cursor_visible(&self) -> (r: bool)
        ensures
            r == self.cursor(),
    {
        self.cursor_visible
    }

    /// What `update` does, from `pre` to `post`.
    pub open spec fn tick_effect(pre: Self, post: Self) -> bool {
        let t = if pre.tick_count() == usize::MAX { 0 } else { pre.tick_count() + 1 };
        &&& post.tick_count() == t
        &&& post.cursor() == (if t % 20 == 0 { !pre.cursor() } else { pre.cursor() })
        &&& post.text_view() == pre.text_view()
        &&& post.scroll() == pre.scroll()
    }

    /// One frame: the cursor blinks every 20 ticks.
    pub fn update(&mut self)
        ensures
            Self::tick_effect(*old(self), *final(self)),
    {
        self.ticks = self.ticks.wrapping_add(1);
        if self.ticks % 20 == 0 {
            self.cursor_visible = !self.cursor_visible;
        }
    }

    /// What `handle_event` does with `event`, from `pre` to `post`.
    pub open spec fn event_effect(pre: Self, post: Self, event: Event) -> bool {
        match event {
            Event::KeyPress(c) => {
                &&& post.scroll() == -1
                &&& post.text_view() == key_text(pre.text_view(), c)
            },
            Event::MouseScroll { delta } => {
                let s = sat_isize(pre.scroll() as int + delta as int);
                &&& post.text_view() == pre.text_view()
                &&& post.scroll() == (if s < 0 { 0 } else { s })
            },
            _ => post == pre,
        }
    }

    /// Typing: backspace removes the last character, Enter or carriage
    /// return adds a newline, any other key adds itself, and the view follows
    /// the end. The wheel scrolls, never above the first line.
    pub fn handle_event(&mut self, event: Event)
        ensures
            final(self).cursor() == old(self).cursor(),
            final(self).tick_count() == old(self).tick_count(),
            Self::event_effect(*old(self), *final(self), event),
    {
        match event {
            Event::KeyPress(c) => {
                if c == '\x08' {
                    let _ = pop_char(&mut self.text);
                } else if c == '\n' || c == '\r' {
                    push_char(&mut self.text, '\n');
                } else {
                    push_char(&mut self.text, c);
                }
                self.scroll_y = -1;
            },
            Event::MouseScroll { delta } => {
                self.scroll_y = saturating_add_isize(self.scroll_y, delta as isize);
                if self.scroll_y < 0 {
                    self.scroll_y = 0;
                }
            },
            _ => {},
        }
    }

    /// Types the characters of `keys` one after the other (see
    /// `handle_event`).
    pub fn type_keys(&mut self, keys: &str)
        ensures
            final(self).text_view() == keys_text(old(self).text_view(), keys@),
            final(self).cursor() == old(self).cursor(),
            final(self).tick_count() == old(self).tick_count(),
            keys@.len() > 0 ==> final(self).scroll() == -1,
            keys@.len() == 0 ==> *final(self) == *old(self),
    {
        let ghost start = *self;
        for c in it: keys.chars()
            invariant
                it.seq() == keys@,
                self.text_view() == keys_text(start.text_view(), keys@.take(it.index() as int)),
                self.cursor() == start.cursor(),
                self.tick_count() == start.tick_count(),
                it.index() > 0 ==> self.scroll() == -1,
                it.index() == 0 ==> *self == start,
        {
            let ghost i = it.index();
            assert(keys@.take(i + 1).drop_last() =~= keys@.take(i as int));
            assert(keys@.take(i + 1).last() == c);
            self.handle_event(Event::KeyPress(c));
        }
        assert(keys@.take(keys@.len() as int) =~= keys@);
    }

    /// Fits the scroll position to a view `width` by `height` pixels (the
    /// scroll bar takes 10 pixels of the width) and gives how far the text
    /// can scroll.
    pub fn fit_scroll(&mut self, width: usize, height: usize) -> (max_scroll: usize)
        requires
            old(self).text_view().len() < usize::MAX,
        ensures
            ({
                let cpl = chars_fitting((if width >= 10 { width - 10 } else { 0 }) as usize);
                let total = wrap_state(old(self).text_view(), cpl).0;
                &&& max_scroll == max_scroll_of(total, lines_fitting(height))
                &&& final(self).scroll() == settle_scroll(old(self).scroll(), max_scroll as nat)
                &&& final(self).text_view() == old(self).text_view()
                &&& final(self).cursor() == old(self).cursor()
                &&& final(self).tick_count() == old(self).tick_count()
            }),
    {
        let max_lines: usize = if height > 2 * PADDING { (height - 2 * PADDING) / LINE_HEIGHT } else { 0 };
        let content_width = width.saturating_sub(10);
        let chars_per_line: usize = if content_width > 2 * PADDING { (content_width - 2 * PADDING) / CHAR_WIDTH } else { 1 };
        let chars = chars_of(self.text.as_str());
        let ghost cpl = chars_fitting(content_width);
        assert(chars_per_line == cpl);
        let mut visual_lines: usize = 1;
        let mut current_line_len: usize = 0;
        let mut i: usize = 0;
        while i < chars.len()
            invariant
                i <= chars@.len(),
                chars@.len() < usize::MAX,
                chars_per_line == cpl,
                (visual_lines as nat, current_line_len as nat) == wrap_state(chars@.take(i as int), cpl),
            decreases chars.len() - i,
        {
            proof {
                assert(chars@.take(i + 1).drop_last() =~= chars@.take(i as int));
                lemma_wrap_state_bound(chars@.take(i as int), cpl);
            }
            let c = chars[i];
            if c == '\n' {
                visual_lines = visual_lines + 1;
                current_line_len = 0;
            } else {
                current_line_len = current_line_len + 1;
                if current_line_len > chars_per_line {
                    visual_lines = visual_lines + 1;
                    current_line_len = 1;
                }
            }
            i = i + 1;
        }
        assert(chars@.take(i as int) =~= chars@);
        let max_scroll: usize = if visual_lines > max_lines && max_lines > 0 { visual_lines - max_lines } else { 0 };
        if self.scroll_y == -1 {
            self.scroll_y = max_scroll as isize;
        } else if self.scroll_y < 0 {
            self.scroll_y = 0;
        } else if self.scroll_y > max_scroll as isize {
            self.scroll_y = max_scroll as isize;
        }
        max_scroll
    }

    pub fn scroll_y(&self) -> (r: isize)
        ensures
            r == self.scroll(),
    {
        self.scroll_y
    }
}

} // verus!
