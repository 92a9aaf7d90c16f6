use vstd::prelude::*;
use crate::app::Event;
use crate::fs::{RamFs, is_listing};
use crate::text::push_char;
use crate::terminal::pop_char;

verus! {

/// Width of the favorites bar, height of the toolbar and height of a row
/// of the file list, in pixels.
pub const SIDEBAR_WIDTH: usize = 120;
pub const TOOLBAR_HEIGHT: usize = 40;
pub const ITEM_HEIGHT: usize = 30;
/// The longest name, in bytes, that can be typed for a new file.
pub const MAX_NAME_BYTES: usize = 30;

/// The length in bytes of a text in UTF-8 (`str::len`).
pub open spec fn byte_len(s: Seq<char>) -> usize {
    vstd::utf8::encode_utf8(s).len() as usize
}

/// The file manager: the entries of the root directory, and the name of a
/// file being created.
pub struct FileManagerApp {
    items: Vec<(String, bool)>,
    new_file_name: String,
    is_creating_file: bool,
    ticks: usize,
    scroll_y: isize,
}

/// The root directory's listing (see `RamFs::list_dir`).
pub open spec fn lists_root(fs: RamFs, items: Seq<(String, bool)>) -> bool {
    is_listing(fs@, Seq::empty(), items)
}

fn root_listing(fs: &RamFs) -> (items: Vec<(String, bool)>)
    ensures
        lists_root(*fs, items@),
{
    proof {
        reveal_strlit("");
        assert(""@ =~= Seq::<char>::empty());
        assert(crate::fs::components(""@) =~= Seq::<Seq<char>>::empty());
    }
    match fs.list_dir("") {
        Some(l) => l,
        None => Vec::new(),
    }
}

/// After a refresh by `update` on the file system `fs`: one tick later,
/// the root listing is read again every 60 ticks, the scroll stays.
pub open spec fn refreshed(pre: FileManagerApp, post: FileManagerApp, fs: Map<crate::fs::Path, crate::fs::FsEntry>) -> bool {
    let t = if pre.tick_count() == usize::MAX { 0 } else { (pre.tick_count() + 1) as usize };
    &&& post.tick_count() == t
    &&& t % 60 == 0 ==> is_listing(fs, Seq::empty(), post.items_view())
    &&& t % 60 != 0 ==> post.items_view() == pre.items_view()
    &&& post.scroll() == pre.scroll()
}

/// A text takes at least one UTF-8 byte and at most four per character.
pub proof fn lemma_utf8_len_bounds(s: Seq<char>)
    ensures
        s.len() <= vstd::utf8::encode_utf8(s).len() <= 4 * s.len(),
    decreases s.len(),
{
    if s.len() > 0 {
        lemma_utf8_len_bounds(s.drop_first());
    }
}

/// The name being typed never holds more than `MAX_NAME_BYTES`
/// characters: a new file manager starts with none (see `new`), its frames
/// leave the name as it is (see `update`), and no event takes a name within
/// that bound beyond it.
pub proof fn lemma_name_stays_short(pre: FileManagerApp, post: FileManagerApp, event: Event,
    fs_pre: Map<crate::fs::Path, crate::fs::FsEntry>, fs_post: Map<crate::fs::Path, crate::fs::FsEntry>)
    requires
        pre.name().len() <= MAX_NAME_BYTES,
        FileManagerApp::event_effect(pre, post, event, fs_pre, fs_post),
    ensures
        post.name().len() <= MAX_NAME_BYTES,
{
    lemma_utf8_len_bounds(pre.name());
}

impl FileManagerApp {
    pub closed spec fn items_view(self) -> Seq<(String, bool)> { self.items@ }
    pub closed spec fn name(self) -> Seq<char> { self.new_file_name@ }
    pub closed spec fn creating(self) -> bool { self.is_creating_file }
    pub closed spec fn tick_count(self) -> usize { self.ticks }
    pub closed spec fn scroll(self) -> isize { self.scroll_y }

    /// A file manager showing the root directory of `fs`.
    pub fn new(fs: &RamFs) -> (f: Self)
        ensures
            lists_root(*fs, f.items_view()),
            f.name().len() == 0,
            !f.creating(),
            f.tick_count() == 0,
            f.scroll() == 0,
    {
        FileManagerApp {
            items: root_listing(fs),
            new_file_name: String::new(),
            is_creating_file: false,
            ticks: 0,
            scroll_y: 0,
        }
    }

    pub fn title(&self) -> (r: &'static str)
        ensures
            r@ == "Finder"@,
    {
        "Finder"
    }

    /// What `update` does, from `pre` to `post`.
    pub open spec fn tick_effect(pre: Self, post: Self, fs: RamFs) -> bool {
        let t = if pre.tick_count() == usize::MAX { 0 } else { (pre.tick_count() + 1) as usize };
        &&& post.tick_count() == t
        &&& t % 60 == 0 ==> lists_root(fs, post.items_view())
        &&& t % 60 != 0 ==> post.items_view() == pre.items_view()
        &&& post.name() == pre.name()
        &&& post.creating() == pre.creating()
        &&& post.scroll() == pre.scroll()
    }

    /// One frame: once a second (every 60 ticks) the listing is read again.
    pub fn update(&mut self, fs: &RamFs)
        ensures
            Self::tick_effect(*old(self), *final(self), *fs),
    {
        self.ticks = self.ticks.wrapping_add(1);
        if self.ticks % 60 == 0 {
            self.items = root_listing(fs);
        }
    }

    /// What `handle_event` does with `event`, from `pre` to `post`.
    pub open spec fn event_effect(pre: Self, post: Self, event: Event, fs_pre: Map<crate::fs::Path, crate::fs::FsEntry>, fs_post: Map<crate::fs::Path, crate::fs::FsEntry>) -> bool {
        match event {
            Event::KeyPress(c) => if c == '\n' {
                if pre.name().len() > 0 {
                    &&& fs_post == crate::fs::written(fs_pre, crate::fs::components(pre.name()), Seq::empty())
                    &&& post.name().len() == 0
                    &&& !post.creating()
                    &&& refreshed(pre, post, fs_post)
                } else {
                    fs_post == fs_pre && post == pre
                }
            } else {
                &&& fs_post == fs_pre
                &&& post.items_view() == pre.items_view()
                &&& post.scroll() == pre.scroll()
                &&& post.tick_count() == pre.tick_count()
                &&& if c == '\x08' {
                    &&& post.name() == (if pre.name().len() > 0 { pre.name().drop_last() } else { pre.name() })
                    &&& post.creating() == pre.creating()
                } else if byte_len(pre.name()) < MAX_NAME_BYTES {
                    post.name() == pre.name().push(c) && post.creating()
                } else {
                    post.name() == pre.name() && post.creating() == pre.creating()
                }
            },
            Event::MouseLongPress { x, y } => {
                let off = ((y - 50) as isize) as int + pre.scroll();
                let idx = off / ITEM_HEIGHT as int;
                if x > SIDEBAR_WIDTH && y > TOOLBAR_HEIGHT + 10 && off >= 0 && idx < pre.items_view().len()
                    && !pre.items_view()[idx].1 {
                    let c = crate::fs::components(pre.items_view()[idx].0@);
                    &&& fs_post == (if c.len() > 0 && fs_pre.dom().contains(c) {
                        crate::fs::removed(fs_pre, c)
                    } else {
                        fs_pre
                    })
                    &&& post.name() == pre.name()
                    &&& post.creating() == pre.creating()
                    &&& refreshed(pre, post, fs_post)
                } else {
                    fs_post == fs_pre && post == pre
                }
            },
            Event::MouseScroll { delta } => {
                let s = pre.scroll() + delta * 30;
                &&& fs_post == fs_pre
                &&& post.scroll() == (if s < 0 { 0 } else { s })
                &&& post.items_view() == pre.items_view()
                &&& post.name() == pre.name()
                &&& post.creating() == pre.creating()
                &&& post.tick_count() == pre.tick_count()
            },
            _ => fs_post == fs_pre && post == pre,
        }
    }

    /// Typing names a new file: Enter creates it (empty) when a name was
    /// typed and refreshes, backspace removes a character, any other key is
    /// added while the name is under 30 bytes. A long press on a file of the
    /// list deletes it and refreshes. The wheel scrolls a row a notch, never
    /// above the top.
    pub fn handle_event(&mut self, event: Event, fs: &mut RamFs)
        requires
            event matches Event::MouseLongPress { x, y } ==> x > SIDEBAR_WIDTH && y > TOOLBAR_HEIGHT + 10
                ==> isize::MIN <= ((y - 50) as isize) as int + old(self).scroll() <= isize::MAX,
            event matches Event::MouseScroll { delta } ==> isize::MIN <= delta * 30 <= isize::MAX
                && isize::MIN <= old(self).scroll() + delta * 30 <= isize::MAX,
        ensures
            Self::event_effect(*old(self), *final(self), event, old(fs)@, final(fs)@),
    {
        match event {
            Event::KeyPress(c) => {
                if c == '\n' {
                    if self.new_file_name.as_str().unicode_len() > 0 {
                        let empty: Vec<u8> = Vec::new();
                        fs.write_file(self.new_file_name.as_str(), empty.as_slice());
                        self.new_file_name = String::new();
                        self.is_creating_file = false;
                        self.update(fs);
                    }
                } else if c == '\x08' {
                    let _ = pop_char(&mut self.new_file_name);
                } else if self.new_file_name.as_str().len() < MAX_NAME_BYTES {
                    assert(byte_len(self.new_file_name@) < MAX_NAME_BYTES);
                    push_char(&mut self.new_file_name, c);
                    self.is_creating_file = true;
                }
            },
            Event::MouseLongPress { x, y } => {
                if x > SIDEBAR_WIDTH && y > TOOLBAR_HEIGHT + 10 {
                    let item_y_offset: isize = y.saturating_sub(TOOLBAR_HEIGHT + 10) as isize + self.scroll_y;
                    if item_y_offset >= 0 {
                        let idx: usize = (item_y_offset as usize) / ITEM_HEIGHT;
                        if idx < self.items.len() {
                            if !self.items[idx].1 {
                                let name = self.items[idx].0.clone();
                                let _ = fs.delete_file(name.as_str());
                                self.update(fs);
                            }
                        }
                    }
                }
            },
            Event::MouseScroll { delta } => {
                self.scroll_y = self.scroll_y + (delta as isize) * 30;
                if self.scroll_y < 0 {
                    self.scroll_y = 0;
                }
            },
            _ => {},
        }
    }

    /// Fits the scroll position to a list `height` pixels high (toolbar
    /// included) and gives how far the list scrolls.
    pub fn fit_scroll(&mut self, height: usize) -> (max_scroll: isize)
        requires
            (old(self).items_view().len() + 1) * ITEM_HEIGHT + 10 <= isize::MAX,
            height <= isize::MAX,
        ensures
            ({
                let count = old(self).items_view().len() + (if old(self).creating() || old(self).name().len() > 0 { 1int } else { 0 });
                let avail = if height >= TOOLBAR_HEIGHT { height - TOOLBAR_HEIGHT } else { 0 };
                let m = count * ITEM_HEIGHT + 10 - avail;
                &&& max_scroll == (if m > 0 { m } else { 0 })
                &&& final(self).scroll() == (if old(self).scroll() < 0 { 0 } else if old(self).scroll() > max_scroll {
                    max_scroll
                } else {
                    old(self).scroll()
                })
                &&& final(self).items_view() == old(self).items_view()
                &&& final(self).name() == old(self).name()
                &&& final(self).creating() == old(self).creating()
                &&& final(self).tick_count() == old(self).tick_count()
            }),
    {
        let mut item_count = self.items.len();
        if self.is_creating_file || self.new_file_name.as_str().unicode_len() > 0 {
            item_count = item_count + 1;
        }
        let total: usize = item_count * ITEM_HEIGHT + 10;
        let available = height.saturating_sub(TOOLBAR_HEIGHT);
        let diff: isize = total as isize - available as isize;
        let max_scroll: isize = if diff > 0 { diff } else { 0 };
        if self.scroll_y < 0 {
            self.scroll_y = 0;
        } else if self.scroll_y > max_scroll {
            self.scroll_y = max_scroll;
        }
        max_scroll
    }

    pub fn items(&self) -> (r: &Vec<(String, bool)>)
        ensures
            r@ == self.items_view(),
    {
        &self.items
    }

    pub fn new_file_name(&self) -> (r: &String)
        ensures
            r@ == self.name(),
    {
        &self.new_file_name
    }

    pub fn is_creating_file(&self) -> (r: bool)
        ensures
            r == self.creating(),
    {
        self.is_creating_file
    }

    pub fn scroll_y(&self) -> (r: isize)
        ensures
            r == self.scroll(),
    {
        self.scroll_y
    }
}

} // verus!
