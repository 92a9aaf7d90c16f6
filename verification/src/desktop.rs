use vstd::prelude::*;
use crate::app::{Event, Rgb};
use crate::browser::BrowserApp;
use crate::browser_screen::{browser_fits, browser_screen};
use crate::compositor::{
    DrawCmd, GraphicalCompositor, apply_ops, cmds_fit, sane_frame, push_rect, rect_cmd, glyph_cmd, desktop_ops,
    lemma_apply_ops_concat,
};
use crate::filemanager::{FileManagerApp, ITEM_HEIGHT, TOOLBAR_HEIGHT};
use crate::filemanager_screen::{finder_fits, finder_screen};
use crate::fs::RamFs;
use crate::notepad::{NotepadApp, chars_fitting, lines_fitting, max_scroll_of, settle_scroll, wrap_state};
use crate::notepad_screen::{notepad_fits, notepad_screen};
use crate::rtc::DateTime;
use crate::settings::SettingsApp;
use crate::settings_screen::{settings_fits, settings_screen};
use crate::taskmanager::{TaskManagerApp, total_height, AccordionSection, get_content_height};
use crate::taskmanager_screen::{fitted_scroll, taskmanager_fits, taskmanager_screen};
use crate::terminal::{TerminalApp, TerminalAction, screen_rows, same_state};
use crate::terminal_screen::{terminal_fits, terminal_screen};
use crate::window::Window;

verus! {

/// An application shown in a window.
pub enum DesktopApp {
    Notepad(NotepadApp),
    Terminal(TerminalApp),
    FileManager(FileManagerApp),
    TaskManager(TaskManagerApp),
    Settings(SettingsApp),
    Browser(BrowserApp),
}

/// What the screen is drawn with besides the applications' own state: the
/// theme, the clock reading, the heap in use and in all, and whether the
/// network is up.
#[derive(Clone, Copy)]
pub struct DrawEnv {
    pub dark: bool,
    pub clock: DateTime,
    pub used: usize,
    pub total: usize,
    pub online: bool,
}

/// The application can be drawn in a window at `(x, y)`, `w` by `h` pixels.
pub open spec fn app_fits(a: DesktopApp, env: DrawEnv, x: usize, y: usize, w: usize, h: usize) -> bool {
    match a {
        DesktopApp::Notepad(n) => notepad_fits(n, x, y, w, h),
        DesktopApp::Terminal(t) => chars_fitting(w) > 0 && terminal_fits(t, x, y, w, h),
        DesktopApp::FileManager(f) => (f.items_view().len() + 1) * ITEM_HEIGHT + 10 <= isize::MAX / 2
            && h <= isize::MAX && finder_fits(f, x, y, w, h),
        DesktopApp::TaskManager(m) => w <= isize::MAX && h <= isize::MAX
            && taskmanager_fits(m.expanded(), fitted_scroll(m.expanded(), m.scroll(), h), x, y, w, h),
        DesktopApp::Settings(s) => settings_fits(env.dark, env.used, x, y, w, h),
        DesktopApp::Browser(b) => browser_fits(b, x, y, w, h),
    }
}

/// What the application draws (see each application's screen).
pub open spec fn app_screen(a: DesktopApp, env: DrawEnv, x: usize, y: usize, w: usize, h: usize) -> Seq<DrawCmd> {
    match a {
        DesktopApp::Notepad(n) => notepad_screen(n, env.dark, x, y, w, h),
        DesktopApp::Terminal(t) => terminal_screen(t, x, y, w, h),
        DesktopApp::FileManager(f) => finder_screen(f, env.dark, x, y, w, h),
        DesktopApp::TaskManager(m) => taskmanager_screen(m, x, y, w, h),
        DesktopApp::Settings(s) => settings_screen(s, env.dark, env.clock, env.used, env.total, x, y, w, h),
        DesktopApp::Browser(b) => browser_screen(b, x, y, w, h),
    }
}

/// `b` is `a` after drawing in a view `w` by `h` pixels: the scroll
/// position fitted to the view and nothing else changed.
pub open spec fn redrawn(a: DesktopApp, b: DesktopApp, w: usize, h: usize) -> bool {
    match (a, b) {
        (DesktopApp::Notepad(n), DesktopApp::Notepad(m)) => {
            let cpl = chars_fitting((if w >= 10 { w - 10 } else { 0 }) as usize);
            &&& m.scroll() == settle_scroll(n.scroll(), max_scroll_of(wrap_state(n.text_view(), cpl).0, lines_fitting(h)))
            &&& m.text_view() == n.text_view()
            &&& m.cursor() == n.cursor()
            &&& m.tick_count() == n.tick_count()
        },
        (DesktopApp::Terminal(t), DesktopApp::Terminal(u)) => {
            &&& u.scroll() == settle_scroll(t.scroll(), max_scroll_of(screen_rows(t, chars_fitting(w)), lines_fitting(h)))
            &&& u.lines() == t.lines()
            &&& same_state(t, u)
        },
        (DesktopApp::FileManager(f), DesktopApp::FileManager(g)) => {
            let count = f.items_view().len() + (if f.creating() || f.name().len() > 0 { 1int } else { 0 });
            let avail = if h >= TOOLBAR_HEIGHT { h - TOOLBAR_HEIGHT } else { 0 };
            let d = count * ITEM_HEIGHT + 10 - avail;
            let max = if d > 0 { d } else { 0 };
            &&& g.scroll() == (if f.scroll() < 0 { 0 } else if f.scroll() > max { max } else { f.scroll() as int })
            &&& g.items_view() == f.items_view()
            &&& g.name() == f.name()
            &&& g.creating() == f.creating()
            &&& g.tick_count() == f.tick_count()
        },
        (DesktopApp::TaskManager(m), DesktopApp::TaskManager(n)) => {
            &&& n.last_w() == w && n.last_h() == h
            &&& n.scroll() == fitted_scroll(m.expanded(), m.scroll(), h)
            &&& n.expanded() == m.expanded()
            &&& n.tick_count() == m.tick_count()
            &&& n.cpu() == m.cpu() && n.ram() == m.ram()
        },
        (DesktopApp::Settings(s), DesktopApp::Settings(t)) => t == s,
        (DesktopApp::Browser(b), DesktopApp::Browser(c)) => c == b,
        _ => false,
    }
}

impl DesktopApp {
    /// Draws the application into a window at `(x, y)`, `width` by `height`
    /// pixels.
    pub fn draw(&mut self, compositor: &mut GraphicalCompositor, env: &DrawEnv, x: usize, y: usize, width: usize,
        height: usize)
        requires
            sane_frame(old(compositor).frame()),
            app_fits(*old(self), *env, x, y, width, height),
        ensures
            redrawn(*old(self), *final(self), width, height),
            final(compositor).pixels() == apply_ops(old(compositor).pixels(), old(compositor).frame(),
                app_screen(*final(self), *env, x, y, width, height)),
            final(compositor).frame() == old(compositor).frame(),
            final(compositor).pointer() == old(compositor).pointer(),
            final(compositor).drag_state() == old(compositor).drag_state(),
    {
        match self {
            DesktopApp::Notepad(n) => n.draw(compositor, env.dark, x, y, width, height),
            DesktopApp::Terminal(t) => t.draw(compositor, x, y, width, height),
            DesktopApp::FileManager(f) => f.draw(compositor, env.dark, x, y, width, height),
            DesktopApp::TaskManager(m) => m.draw(compositor, x, y, width, height),
            DesktopApp::Settings(s) => s.draw(compositor, env.dark, &env.clock, env.used, env.total, x, y, width, height),
            DesktopApp::Browser(b) => b.draw(compositor, x, y, width, height),
        }
    }
}

/// The title bar of a window, its red close button and the "X" on it.
pub open spec fn chrome_cmds(x: usize, y: usize, w: usize) -> Seq<DrawCmd> {
    seq![
        rect_cmd(x, y, w, 20, (60, 60, 60)),
        rect_cmd((x + w - 20) as usize, y, 20, 20, (220, 50, 50)),
        glyph_cmd((x + w - 14) as usize, (y + 6) as usize, 'X', (255, 255, 255)),
    ]
}

/// What a window draws: its title bar and, below it, its application.
pub open spec fn window_cmds(w: Window<DesktopApp>, env: DrawEnv) -> Seq<DrawCmd> {
    chrome_cmds(w.x, w.y, w.width) + app_screen(w.app, env, w.x, (w.y + 20) as usize, w.width, w.height)
}

/// What the windows draw, first to last; closed slots draw nothing.
pub open spec fn windows_cmds(ws: Seq<Option<Window<DesktopApp>>>, env: DrawEnv) -> Seq<DrawCmd>
    decreases ws.len(),
{
    if ws.len() == 0 {
        Seq::empty()
    } else {
        windows_cmds(ws.drop_last(), env) + match ws.last() {
            Some(w) => window_cmds(w, env),
            None => Seq::empty(),
        }
    }
}

/// The mouse pointer's first `n` rows: a white triangle with a dark edge.
pub open spec fn pointer_rows(mx: usize, my: usize, n: nat) -> Seq<DrawCmd>
    decreases n,
{
    if n == 0 {
        Seq::empty()
    } else {
        let i = n - 1;
        pointer_rows(mx, my, (n - 1) as nat)
            .push(rect_cmd((mx + i) as usize, (my + i) as usize, (16 - i) as usize, 1, (255, 255, 255)))
            .push(rect_cmd((mx + i) as usize, (my + i) as usize, 1, 1, (5, 5, 10)))
    }
}

/// A window whose title bar and application fit where it stands.
pub open spec fn window_fits(w: Window<DesktopApp>, env: DrawEnv) -> bool {
    &&& w.x + w.width >= 20
    &&& w.x + w.width + 20 <= usize::MAX
    &&& w.y + 20 + w.height <= usize::MAX
    &&& app_fits(w.app, env, w.x, (w.y + 20) as usize, w.width, w.height)
}

/// `b` is `a` after drawing: the same window with its application redrawn.
pub open spec fn window_redrawn(a: Option<Window<DesktopApp>>, b: Option<Window<DesktopApp>>) -> bool {
    match (a, b) {
        (Some(v), Some(w)) => {
            &&& w.x == v.x && w.y == v.y && w.width == v.width && w.height == v.height
            &&& w.is_maximized == v.is_maximized && w.anim_state == v.anim_state
            &&& w.orig_x == v.orig_x && w.orig_y == v.orig_y && w.orig_w == v.orig_w && w.orig_h == v.orig_h
            &&& redrawn(v.app, w.app, v.width, v.height)
        },
        (None, None) => true,
        _ => false,
    }
}

fn push_chrome(cmds: &mut Vec<DrawCmd>, x: usize, y: usize, w: usize)
    requires
        old(cmds)@.len() == 0,
        x + w >= 20,
        x + w + 20 <= usize::MAX,
        y + 20 <= usize::MAX,
    ensures
        final(cmds)@ == chrome_cmds(x, y, w),
        cmds_fit(final(cmds)@),
{
    assert(cmds_fit(cmds@));
    push_rect(cmds, x, y, w, 20, (60, 60, 60));
    push_rect(cmds, x + w - 20, y, 20, 20, (220, 50, 50));
    let ghost before = cmds@;
    cmds.push(DrawCmd::Glyph { x: x + w - 14, y: y + 6, c: 'X', color: (255, 255, 255) });
    assert forall|j: int| 0 <= j < cmds@.len() implies crate::compositor::cmd_fits(#[trigger] cmds@[j]) by {
        if j < before.len() {
            assert(cmds@[j] == before[j]);
        }
    }
    assert(cmds@ =~= chrome_cmds(x, y, w));
}

impl GraphicalCompositor {
    /// Draws everything: the desktop, then each open window's title bar and
    /// application, first to last, then the mouse pointer. Each application
    /// fits its scroll position to its window.
    pub fn render_all(&mut self, windows: &mut Vec<Option<Window<DesktopApp>>>, env: &DrawEnv)
        requires
            sane_frame(old(self).frame()),
            old(self).pointer().0 + 32 <= usize::MAX,
            old(self).pointer().1 + 32 <= usize::MAX,
            forall|i: int| 0 <= i < old(windows)@.len() ==> (#[trigger] old(windows)@[i] matches Some(w)
                ==> window_fits(w, *env)),
        ensures
            final(windows)@.len() == old(windows)@.len(),
            forall|i: int| 0 <= i < old(windows)@.len() ==> window_redrawn(#[trigger] old(windows)@[i], final(windows)@[i]),
            final(self).pixels() == apply_ops(old(self).pixels(), old(self).frame(),
                desktop_ops(old(self).frame().width, old(self).frame().height, env.online) + windows_cmds(final(windows)@, *env)
                    + pointer_rows(old(self).pointer().0, old(self).pointer().1, 16)),
            final(self).frame() == old(self).frame(),
            final(self).pointer() == old(self).pointer(),
            final(self).drag_state() == old(self).drag_state(),
    {
        let ghost start = self.pixels();
        let ghost frame = self.frame();
        let ghost d = desktop_ops(frame.width, frame.height, env.online);
        self.render_desktop(env.online);
        let mut pending: Vec<Option<Window<DesktopApp>>> = Vec::new();
        std::mem::swap(&mut pending, windows);
        let ghost all = pending@;
        let n = pending.len();
        let mut k: usize = 0;
        assert(windows@ =~= Seq::<Option<Window<DesktopApp>>>::empty());
        assert(d + windows_cmds(windows@, *env) =~= d);
        while pending.len() > 0
            invariant
                k + pending@.len() == all.len(),
                all.len() == n,
                pending@ == all.skip(k as int),
                windows@.len() == k,
                forall|i: int| 0 <= i < k ==> window_redrawn(#[trigger] all[i], windows@[i]),
                forall|i: int| 0 <= i < all.len() ==> (#[trigger] all[i] matches Some(w) ==> window_fits(w, *env)),
                all == old(windows)@,
                sane_frame(self.frame()),
                self.frame() == frame,
                self.pointer() == old(self).pointer(),
                self.drag_state() == old(self).drag_state(),
                d == desktop_ops(frame.width, frame.height, env.online),
                self.pixels() == apply_ops(start, frame, d + windows_cmds(windows@, *env)),
            decreases pending@.len(),
        {
            let slot = pending.remove(0);
            assert(slot == all[k as int]);
            assert(pending@ =~= all.skip(k + 1));
            let ghost before = windows@;
            let ghost mid = self.pixels();
            match slot {
                Some(mut w) => {
                    let mut chrome: Vec<DrawCmd> = Vec::new();
                    push_chrome(&mut chrome, w.x, w.y, w.width);
                    self.paint(&chrome);
                    let ghost after_chrome = self.pixels();
                    w.app.draw(self, env, w.x, w.y + 20, w.width, w.height);
                    proof {
                        lemma_apply_ops_concat(mid, frame, chrome@, app_screen(w.app, *env, w.x, (w.y + 20) as usize, w.width, w.height));
                        lemma_apply_ops_concat(start, frame, d + windows_cmds(before, *env), window_cmds(w, *env));
                    }
                    windows.push(Some(w));
                    proof {
                        assert(windows@.drop_last() =~= before);
                        assert(d + windows_cmds(windows@, *env) =~= d + windows_cmds(before, *env) + window_cmds(w, *env));
                    }
                },
                None => {
                    windows.push(None);
                    proof {
                        assert(windows@.drop_last() =~= before);
                        assert(d + windows_cmds(windows@, *env) =~= d + windows_cmds(before, *env));
                    }
                },
            }
            k = k + 1;
        }
        assert(all.skip(k as int).len() == 0);
        let (mx, my) = self.mouse_position();
        let mut cmds: Vec<DrawCmd> = Vec::new();
        assert(cmds_fit(cmds@));
        let mut i: usize = 0;
        while i < 16
            invariant
                i <= 16,
                mx == old(self).pointer().0,
                my == old(self).pointer().1,
                mx + 32 <= usize::MAX,
                my + 32 <= usize::MAX,
                cmds@ == pointer_rows(mx, my, i as nat),
                cmds_fit(cmds@),
            decreases 16 - i,
        {
            push_rect(&mut cmds, mx + i, my + i, 16 - i, 1, (255, 255, 255));
            push_rect(&mut cmds, mx + i, my + i, 1, 1, (5, 5, 10));
            i = i + 1;
        }
        let ghost before_pointer = self.pixels();
        self.paint(&cmds);
        proof {
            lemma_apply_ops_concat(start, frame, d + windows_cmds(windows@, *env), cmds@);
        }
    }
}

/// The application's kind.
pub open spec fn app_kind(a: DesktopApp) -> int {
    match a {
        DesktopApp::Notepad(_) => 0,
        DesktopApp::Terminal(_) => 1,
        DesktopApp::FileManager(_) => 2,
        DesktopApp::TaskManager(_) => 3,
        DesktopApp::Settings(_) => 4,
        DesktopApp::Browser(_) => 5,
    }
}

/// How the application `pre` becomes `post` on a key `event`, with the
/// file system going from `fs_pre` to `fs_post` and `act` given back: each
/// application does what its own `handle_event` says, the kind never
/// changes, and only the terminal answers with something else than
/// `Nothing` or, with the file manager, touches the file system.
pub open spec fn key_handled(
    pre: DesktopApp,
    post: DesktopApp,
    event: Event,
    fs_pre: Map<crate::fs::Path, crate::fs::FsEntry>,
    fs_post: Map<crate::fs::Path, crate::fs::FsEntry>,
    act: TerminalAction,
) -> bool {
    match (pre, post) {
        (DesktopApp::Notepad(a), DesktopApp::Notepad(b)) => {
            &&& NotepadApp::event_effect(a, b, event)
            &&& b.cursor() == a.cursor() && b.tick_count() == a.tick_count()
            &&& fs_post == fs_pre && act == TerminalAction::Nothing
        },
        (DesktopApp::Terminal(a), DesktopApp::Terminal(b)) => TerminalApp::event_effect(a, b, event, fs_pre, fs_post, act),
        (DesktopApp::FileManager(a), DesktopApp::FileManager(b)) => {
            FileManagerApp::event_effect(a, b, event, fs_pre, fs_post) && act == TerminalAction::Nothing
        },
        (DesktopApp::TaskManager(a), DesktopApp::TaskManager(b)) => {
            TaskManagerApp::event_effect(a, b, event) && fs_post == fs_pre && act == TerminalAction::Nothing
        },
        (DesktopApp::Settings(a), DesktopApp::Settings(b)) => {
            SettingsApp::event_effect(a, b, event, None) && fs_post == fs_pre && act == TerminalAction::Nothing
        },
        (DesktopApp::Browser(a), DesktopApp::Browser(b)) => {
            BrowserApp::event_effect(a, b, event) && fs_post == fs_pre && act == TerminalAction::Nothing
        },
        _ => false,
    }
}

impl DesktopApp {
    /// Hands a key to the application (see `key_handled`); the terminal's
    /// answer is given back.
    pub fn handle_key(&mut self, event: Event, fs: &mut RamFs) -> (act: TerminalAction)
        requires
            event is KeyPress || event is KeyCode,
        ensures
            key_handled(*old(self), *final(self), event, old(fs)@, final(fs)@, act),
            app_kind(*final(self)) == app_kind(*old(self)),
    {
        match self {
            DesktopApp::Notepad(n) => {
                n.handle_event(event);
                TerminalAction::Nothing
            },
            DesktopApp::Terminal(t) => t.handle_event(event, fs),
            DesktopApp::FileManager(f) => {
                f.handle_event(event, fs);
                TerminalAction::Nothing
            },
            DesktopApp::TaskManager(m) => {
                m.handle_event(event);
                TerminalAction::Nothing
            },
            DesktopApp::Settings(s) => {
                let _ = s.handle_event(event);
                TerminalAction::Nothing
            },
            DesktopApp::Browser(b) => {
                b.handle_event(event);
                TerminalAction::Nothing
            },
        }
    }
}

/// The title of the application's window.
pub open spec fn app_title(a: DesktopApp) -> Seq<char> {
    match a {
        DesktopApp::Notepad(_) => "Notepad"@,
        DesktopApp::Terminal(_) => "Terminal"@,
        DesktopApp::FileManager(_) => "Finder"@,
        DesktopApp::TaskManager(_) => "Task Manager"@,
        DesktopApp::Settings(_) => "System Settings"@,
        DesktopApp::Browser(_) => "Web Browser"@,
    }
}

/// How the application `pre` becomes `post` in one frame, the file system
/// being `fs`, the echo reply `reply` arriving and the request `send`
/// given back: each application does what its own `update` says (the
/// browser with no response), settings stays as it is, and only the
/// terminal asks for a request.
pub open spec fn ticked(pre: DesktopApp, post: DesktopApp, fs: RamFs, reply: Option<u16>,
    send: Option<([u8; 4], u16)>) -> bool
{
    match (pre, post) {
        (DesktopApp::Notepad(a), DesktopApp::Notepad(b)) => NotepadApp::tick_effect(a, b) && send is None,
        (DesktopApp::Terminal(a), DesktopApp::Terminal(b)) => TerminalApp::tick_effect(a, b, reply, send),
        (DesktopApp::FileManager(a), DesktopApp::FileManager(b)) => FileManagerApp::tick_effect(a, b, fs) && send is None,
        (DesktopApp::TaskManager(a), DesktopApp::TaskManager(b)) => TaskManagerApp::tick_effect(a, b) && send is None,
        (DesktopApp::Settings(a), DesktopApp::Settings(b)) => b == a && send is None,
        (DesktopApp::Browser(a), DesktopApp::Browser(b)) => {
            let first = a.elements().len() == 0 && a.page() == crate::browser::welcome_page();
            BrowserApp::tick_effect(a, b, None, first) && send is None
        },
        _ => false,
    }
}

impl DesktopApp {
    /// The title of the application's window.
    pub fn title(&self) -> (r: &'static str)
        ensures
            r@ == app_title(*self),
    {
        match self {
            DesktopApp::Notepad(n) => n.title(),
            DesktopApp::Terminal(t) => t.title(),
            DesktopApp::FileManager(f) => f.title(),
            DesktopApp::TaskManager(m) => m.title(),
            DesktopApp::Settings(s) => s.title(),
            DesktopApp::Browser(b) => b.title(),
        }
    }

    /// Whether this is a terminal with a ping running (it waits for echo
    /// replies).
    pub fn is_pinging(&self) -> (r: bool)
        ensures
            r == (*self matches DesktopApp::Terminal(t) && t.ping() is Some),
    {
        match self {
            DesktopApp::Terminal(t) => t.is_pinging(),
            _ => false,
        }
    }

    /// One frame for the application (see `ticked`): the terminal is handed
    /// the echo reply that arrived, if any, and gives back the echo request
    /// that is due; the file manager reads `fs`.
    pub fn update(&mut self, fs: &RamFs, reply: Option<u16>) -> (send: Option<([u8; 4], u16)>)
        ensures
            ticked(*old(self), *final(self), *fs, reply, send),
            app_kind(*final(self)) == app_kind(*old(self)),
    {
        match self {
            DesktopApp::Notepad(n) => {
                n.update();
                None
            },
            DesktopApp::Terminal(t) => t.update(reply),
            DesktopApp::FileManager(f) => {
                f.update(fs);
                None
            },
            DesktopApp::TaskManager(m) => {
                m.update();
                None
            },
            DesktopApp::Settings(_) => None,
            DesktopApp::Browser(b) => {
                let _ = b.update(None);
                None
            },
        }
    }
}

/// The windows after a key went to the last one: nothing changes but the
/// application of the last window, which handles the key.
pub open spec fn key_dispatched(
    pre: Seq<Option<Window<DesktopApp>>>,
    post: Seq<Option<Window<DesktopApp>>>,
    event: Event,
    fs_pre: Map<crate::fs::Path, crate::fs::FsEntry>,
    fs_post: Map<crate::fs::Path, crate::fs::FsEntry>,
    act: TerminalAction,
) -> bool {
    &&& post.len() == pre.len()
    &&& forall|i: int| 0 <= i < pre.len() - 1 ==> #[trigger] post[i] == pre[i]
    &&& if pre.len() > 0 && pre.last() is Some {
        let w = pre.last()->0;
        &&& post.last() is Some
        &&& post.last()->0 == Window { app: post.last()->0.app, ..w }
        &&& key_handled(w.app, post.last()->0.app, event, fs_pre, fs_post, act)
    } else {
        post == pre && fs_post == fs_pre && act == TerminalAction::Nothing
    }
}

/// Opens a window in front of the others.
pub fn add_window(windows: &mut Vec<Option<Window<DesktopApp>>>, window: Window<DesktopApp>)
    ensures
        final(windows)@ == old(windows)@.push(Some(window)),
{
    windows.push(Some(window));
}

/// Hands a typed character to the application of the last window, the
/// one in front; nothing happens when there is none or its slot is closed.
pub fn dispatch_keyboard_event(windows: &mut Vec<Option<Window<DesktopApp>>>, c: char, fs: &mut RamFs) -> (act: TerminalAction)
    ensures
        key_dispatched(old(windows)@, final(windows)@, Event::KeyPress(c), old(fs)@, final(fs)@, act),
{
    dispatch_event(windows, Event::KeyPress(c), fs)
}

/// Hands a key code to the application of the last window (see
/// `dispatch_keyboard_event`).
pub fn dispatch_keycode_event(windows: &mut Vec<Option<Window<DesktopApp>>>, code: u8, fs: &mut RamFs) -> (act: TerminalAction)
    ensures
        key_dispatched(old(windows)@, final(windows)@, Event::KeyCode(code), old(fs)@, final(fs)@, act),
{
    dispatch_event(windows, Event::KeyCode(code), fs)
}

fn dispatch_event(windows: &mut Vec<Option<Window<DesktopApp>>>, event: Event, fs: &mut RamFs) -> (act: TerminalAction)
    requires
        event is KeyPress || event is KeyCode,
    ensures
        key_dispatched(old(windows)@, final(windows)@, event, old(fs)@, final(fs)@, act),
{
    match windows.pop() {
        Some(Some(mut w)) => {
            let act = w.app.handle_key(event, fs);
            windows.push(Some(w));
            act
        },
        Some(None) => {
            windows.push(None);
            assert(windows@ =~= old(windows)@);
            TerminalAction::Nothing
        },
        None => TerminalAction::Nothing,
    }
}

/// Where the first window opens on a screen `width` by `height` pixels:
/// 200 by 150 pixels smaller than a large screen (40 by 80 on a small one),
/// centered, 20 pixels above the middle.
pub open spec fn first_window_rect(width: usize, height: usize) -> (usize, usize, usize, usize) {
    let w = if width > 600 { width - 200 } else { width - 40 };
    let h = if height > 400 { height - 150 } else { height - 80 };
    (((width - w) / 2) as usize, ((height - h) / 2 - 20) as usize, w as usize, h as usize)
}

/// The rectangle of the first window (see `first_window_rect`).
pub fn first_window(width: usize, height: usize) -> (r: (usize, usize, usize, usize))
    requires
        width >= 40,
        height >= 80,
    ensures
        r == first_window_rect(width, height),
{
    let win_width = if width > 600 { width - 200 } else { width - 40 };
    let win_height = if height > 400 { height - 150 } else { height - 80 };
    let win_x = (width - win_width) / 2;
    let win_y = (height - win_height) / 2 - 20;
    (win_x, win_y, win_width, win_height)
}

/// A frame of the boot animation: the desktop color and "RUST OS 2026" in
/// the middle, as bright as `alpha`.
pub open spec fn boot_frame_cmds(width: usize, height: usize, alpha: u8) -> Seq<DrawCmd> {
    seq![rect_cmd(0, 0, width, height, (43, 48, 59))]
        + crate::compositor::text_cmds((width / 2 - 48) as usize, (height / 2) as usize, "RUST OS 2026"@, (alpha, alpha, alpha))
}

/// The commands of a frame of the boot animation (see `boot_frame_cmds`).
pub fn boot_frame(width: usize, height: usize, alpha: u8) -> (cmds: Vec<DrawCmd>)
    requires
        width >= 96,
        height <= usize::MAX - 16,
    ensures
        cmds@ == boot_frame_cmds(width, height, alpha),
        cmds_fit(cmds@),
{
    proof { reveal_strlit("RUST OS 2026"); }
    let mut cmds: Vec<DrawCmd> = Vec::new();
    assert(cmds_fit(cmds@));
    push_rect(&mut cmds, 0, 0, width, height, (43, 48, 59));
    crate::compositor::push_text(&mut cmds, width / 2 - 48, height / 2, "RUST OS 2026", (alpha, alpha, alpha));
    assert(cmds@ =~= boot_frame_cmds(width, height, alpha));
    cmds
}

/// A flag's text when it is set, nothing otherwise.
pub open spec fn flag_part(set: bool, text: Seq<char>) -> Seq<char> {
    if set { text } else { Seq::empty() }
}

/// The line that reports the processor's vector features at boot.
pub open spec fn cpu_banner_text(sse42: bool, aesni: bool, avx: bool, avx2: bool) -> Seq<char> {
    "CPU Features: "@ + flag_part(sse42, "[SSE4.2] "@) + flag_part(aesni, "[AES-NI] "@) + flag_part(avx, "[AVX] "@)
        + flag_part(avx2, "[AVX2] "@)
}

/// The line that reports the processor's vector features at boot (see
/// `cpu_banner_text`).
pub fn cpu_banner(sse42: bool, aesni: bool, avx: bool, avx2: bool) -> (s: String)
    ensures
        s@ == cpu_banner_text(sse42, aesni, avx, avx2),
{
    let mut s = crate::text::lit("CPU Features: ");
    let ghost s0 = s@;
    if sse42 {
        crate::text::push_str(&mut s, "[SSE4.2] ");
    }
    let ghost s1 = s@;
    if aesni {
        crate::text::push_str(&mut s, "[AES-NI] ");
    }
    let ghost s2 = s@;
    if avx {
        crate::text::push_str(&mut s, "[AVX] ");
    }
    let ghost s3 = s@;
    if avx2 {
        crate::text::push_str(&mut s, "[AVX2] ");
    }
    proof {
        assert(s1 =~= s0 + flag_part(sse42, "[SSE4.2] "@));
        assert(s2 =~= s1 + flag_part(aesni, "[AES-NI] "@));
        assert(s3 =~= s2 + flag_part(avx, "[AVX] "@));
        assert(s@ =~= s3 + flag_part(avx2, "[AVX2] "@));
    }
    s
}

/// The largest coordinate or size that `app_can_draw` accepts.
pub const SCREEN_LIMIT: usize = 0xFFFF;
/// The most characters a text may hold for `app_can_draw` to accept it.
pub const TEXT_LIMIT: usize = 0x10_0000;

/// A prefix of the lines holds no more characters than all of them.
proof fn lemma_text_total_prefix(ls: Seq<crate::terminal::Line>, k: int)
    requires
        0 <= k <= ls.len(),
    ensures
        crate::terminal_screen::text_total(ls.take(k)) <= crate::terminal_screen::text_total(ls),
    decreases ls.len(),
{
    if k < ls.len() {
        assert(ls.drop_last().take(k) =~= ls.take(k));
        lemma_text_total_prefix(ls.drop_last(), k);
    } else {
        assert(ls.take(k) =~= ls);
    }
}

/// The characters of the terminal's lines, each line counted one more, when
/// that stays within `TEXT_LIMIT`; `None` when it does not.
fn terminal_total(t: &TerminalApp) -> (r: Option<usize>)
    ensures
        r == (if crate::terminal_screen::text_total(t.lines()) <= TEXT_LIMIT {
            Some(crate::terminal_screen::text_total(t.lines()) as usize)
        } else {
            None
        }),
{
    let lines = t.output();
    let ghost ls = t.lines();
    let mut total: usize = 0;
    let mut k: usize = 0;
    assert(ls.take(0) =~= Seq::<crate::terminal::Line>::empty());
    while k < lines.len()
        invariant
            k <= lines@.len(),
            crate::terminal::lines_of(lines@) == ls,
            ls == t.lines(),
            total == crate::terminal_screen::text_total(ls.take(k as int)),
            total <= TEXT_LIMIT,
        decreases lines.len() - k,
    {
        let n = lines[k].0.as_str().unicode_len();
        assert(n == ls[k as int].0.len());
        assert(ls.take(k + 1).drop_last() =~= ls.take(k as int));
        if n >= TEXT_LIMIT - total {
            proof {
                assert(ls.take(k + 1).last() == ls[k as int]);
                assert(crate::terminal_screen::text_total(ls.take(k + 1)) == total + n + 1);
                lemma_text_total_prefix(ls, k + 1);
            }
            return None;
        }
        total = total + n + 1;
        k = k + 1;
    }
    assert(ls.take(k as int) =~= ls);
    Some(total)
}

/// Where the `k`-th section's header stands below the top of the content.
fn header_top_exec(e: Option<crate::taskmanager::AccordionSection>, k: usize) -> (r: isize)
    requires
        k < 4,
    ensures
        r == crate::taskmanager::header_top(e, k as int),
{
    let extra: isize = match e {
        Some(s) => {
            let i: usize = match s {
                AccordionSection::Performance => 0,
                AccordionSection::OsAnalysis => 1,
                AccordionSection::DeviceInfo => 2,
                AccordionSection::Support => 3,
            };
            if i < k { get_content_height(s) as isize } else { 0 }
        },
        None => 0,
    };
    5 + (k as isize) * 30 + extra
}

/// Whether the `k`-th section fits (see `section_fits`).
fn section_ok(e: Option<crate::taskmanager::AccordionSection>, scroll: isize, y: usize, w: usize, h: usize, k: usize) -> (r: bool)
    requires
        k < 4,
        y <= SCREEN_LIMIT && w <= SCREEN_LIMIT && h <= SCREEN_LIMIT,
        0 <= scroll <= 1000,
    ensures
        r == crate::taskmanager_screen::section_fits(e, scroll as int, y, w, h, k as int),
{
    let top: isize = y as isize - scroll + header_top_exec(e, k);
    let yi = y as isize;
    let bottom = (y + h) as isize;
    let header = yi - 25 < top && top < bottom;
    let sec = if k == 0 {
        AccordionSection::Performance
    } else if k == 1 {
        AccordionSection::OsAnalysis
    } else if k == 2 {
        AccordionSection::DeviceInfo
    } else {
        AccordionSection::Support
    };
    assert(sec == crate::taskmanager::section_at_index(k as int));
    let open = match e {
        Some(s) => s == sec,
        None => false,
    };
    let ch = get_content_height(sec) as isize;
    let bt = top + 25;
    let body = open && yi - ch < bt && bt < bottom;
    let need: usize = if k == 0 { 20 } else { 10 };
    (!header || (top >= 0 && w >= 10)) && (!body || (bt >= 0 && w >= need))
}

/// The checks `app_can_draw` makes: the window within `SCREEN_LIMIT`, and
/// for each application the sizes and texts that its drawing needs, each
/// text within `TEXT_LIMIT`.
pub open spec fn can_draw(a: DesktopApp, env: DrawEnv, x: usize, y: usize, w: usize, h: usize) -> bool {
    &&& x <= SCREEN_LIMIT && y <= SCREEN_LIMIT && w <= SCREEN_LIMIT && h <= SCREEN_LIMIT
    &&& match a {
        DesktopApp::Notepad(n) => {
            &&& x + (if w >= 10 { w - 10 } else { 0 }) >= 10
            &&& y + h >= 10
            &&& n.text_view().len() <= TEXT_LIMIT
        },
        DesktopApp::Terminal(t) => {
            &&& !(20 < w < 28)
            &&& x + w >= 10
            &&& y + h >= 10
            &&& crate::terminal_screen::text_total(t.lines()) <= TEXT_LIMIT
            &&& t.input().len() <= TEXT_LIMIT
        },
        DesktopApp::FileManager(f) => {
            let cw = if w >= 120 { w - 120 } else { 0int };
            let max = if cw > 40 { (cw - 40) / 8 } else { 0 };
            &&& f.items_view().len() <= TEXT_LIMIT
            &&& crate::filemanager::byte_len(f.name()) <= 1000
            &&& f.name().len() <= 1000
            &&& forall|j: int| 0 <= j < f.items_view().len() ==> {
                let n = (#[trigger] f.items_view()[j]).0@;
                &&& n.len() <= TEXT_LIMIT
                &&& (n.len() > max && max > 3 ==> vstd::utf8::is_char_boundary(vstd::utf8::encode_utf8(n), max - 3))
            }
        },
        DesktopApp::TaskManager(m) => {
            let sc = fitted_scroll(m.expanded(), m.scroll(), h);
            &&& crate::taskmanager_screen::section_fits(m.expanded(), sc, y, w, h, 0)
            &&& crate::taskmanager_screen::section_fits(m.expanded(), sc, y, w, h, 1)
            &&& crate::taskmanager_screen::section_fits(m.expanded(), sc, y, w, h, 2)
            &&& crate::taskmanager_screen::section_fits(m.expanded(), sc, y, w, h, 3)
        },
        DesktopApp::Settings(_) => {
            let factor: int = if env.dark { 10 } else { 15 };
            &&& (h == 0 || (h - 1) * factor <= 0xFFFF_FFFF)
            &&& env.used <= usize::MAX / 300
        },
        DesktopApp::Browser(b) => {
            &&& w >= 20
            &&& b.scroll() >= -0x1000_0000
            &&& b.url().len() <= TEXT_LIMIT
            &&& forall|j: int| 0 <= j < b.elements().len() ==> (#[trigger] b.elements()[j]).1.len() <= TEXT_LIMIT
        },
    }
}

/// Whether the application can be drawn in a window at `(x, y)`, `w` by
/// `h` pixels: `true` only where it fits (see `app_fits`), and for any
/// window and texts within `SCREEN_LIMIT` and `TEXT_LIMIT` for which it
/// fits.
pub fn app_can_draw(app: &DesktopApp, env: &DrawEnv, x: usize, y: usize, w: usize, h: usize) -> (r: bool)
    ensures
        r == can_draw(*app, *env, x, y, w, h),
        r ==> app_fits(*app, *env, x, y, w, h),
{
    if x > SCREEN_LIMIT || y > SCREEN_LIMIT || w > SCREEN_LIMIT || h > SCREEN_LIMIT {
        return false;
    }
    match app {
        DesktopApp::Notepad(n) => {
            x + w.saturating_sub(10) >= 10 && y + h >= 10 && n.text().as_str().unicode_len() <= TEXT_LIMIT
        },
        DesktopApp::Terminal(t) => {
            if (w > 20 && w < 28) || x + w < 10 || y + h < 10 {
                return false;
            }
            match terminal_total(t) {
                Some(total) => t.input_buffer().as_str().unicode_len() <= TEXT_LIMIT,
                None => false,
            }
        },
        DesktopApp::FileManager(f) => {
            let items = f.items();
            if items.len() > TEXT_LIMIT || f.new_file_name().as_str().len() > 1000
                || f.new_file_name().as_str().unicode_len() > 1000 {
                return false;
            }
            let cw = w.saturating_sub(120);
            let max: usize = if cw > 40 { (cw - 40) / 8 } else { 0 };
            let mut i: usize = 0;
            while i < items.len()
                invariant
                    i <= items@.len(),
                    items@ == f.items_view(),
                    x <= SCREEN_LIMIT && y <= SCREEN_LIMIT && w <= SCREEN_LIMIT && h <= SCREEN_LIMIT,
                    *app == DesktopApp::FileManager(*f),
                    f.items_view().len() <= TEXT_LIMIT,
                    crate::filemanager::byte_len(f.name()) <= 1000,
                    f.name().len() <= 1000,
                    max == (if (if w >= 120 { w - 120 } else { 0int }) > 40 { ((if w >= 120 { w - 120 } else { 0int }) - 40) / 8 } else { 0 }),
                    forall|j: int| 0 <= j < i ==> {
                        let n = (#[trigger] f.items_view()[j]).0@;
                        &&& x + 300 + 8 * n.len() <= usize::MAX
                        &&& n.len() <= TEXT_LIMIT
                        &&& (n.len() > max && max > 3 ==> vstd::utf8::is_char_boundary(vstd::utf8::encode_utf8(n), max - 3))
                    },
                decreases items.len() - i,
            {
                let n = items[i].0.as_str().unicode_len();
                if n > TEXT_LIMIT || (n > max && max > 3 && !items[i].0.as_str().is_char_boundary(max - 3)) {
                    assert(f.items_view()[i as int].0@.len() == n);
                    return false;
                }
                i = i + 1;
            }
            true
        },
        DesktopApp::TaskManager(m) => {
            let e = m.expanded_section();
            let total: isize = header_top_exec(e, 3) + 30 + match e {
                Some(s) => if matches!(s, crate::taskmanager::AccordionSection::Support) {
                    crate::taskmanager::get_content_height(s) as isize
                } else {
                    0
                },
                None => 0,
            };
            assert(total == total_height(e));
            let d: isize = total - h as isize;
            let max: isize = if d > 0 { d } else { 0 };
            let sc = m.scroll_y();
            let fitted: isize = if sc < 0 { 0 } else if sc > max { max } else { sc };
            assert(fitted == fitted_scroll(e, sc, h));
            section_ok(e, fitted, y, w, h, 0) && section_ok(e, fitted, y, w, h, 1)
                && section_ok(e, fitted, y, w, h, 2) && section_ok(e, fitted, y, w, h, 3)
        },
        DesktopApp::Settings(_) => {
            let factor: usize = if env.dark { 10 } else { 15 };
            (h == 0 || (h - 1) * factor <= 0xFFFF_FFFF) && env.used <= usize::MAX / 300
        },
        DesktopApp::Browser(b) => {
            let sc = b.scroll_y();
            if w < 20 || sc < -0x1000_0000 || b.url_bar().as_str().unicode_len() > TEXT_LIMIT {
                return false;
            }
            let els = b.html_elements();
            let ghost es = b.elements();
            let mut i: usize = 0;
            while i < els.len()
                invariant
                    i <= els@.len(),
                    crate::browser::elements_view(els@) == es,
                    es == b.elements(),
                    x <= SCREEN_LIMIT && y <= SCREEN_LIMIT && w <= SCREEN_LIMIT && h <= SCREEN_LIMIT,
                    *app == DesktopApp::Browser(*b),
                    w >= 20 && b.scroll() >= -0x1000_0000 && b.url().len() <= TEXT_LIMIT,
                    forall|j: int| 0 <= j < i ==> x + 28 + 8 * (#[trigger] es[j]).1.len() <= usize::MAX
                        && es[j].1.len() <= TEXT_LIMIT,
                decreases els.len() - i,
            {
                let n = match &els[i] {
                    crate::browser::HtmlElement::Text(t) => t.as_str().unicode_len(),
                    crate::browser::HtmlElement::Heading(t) => t.as_str().unicode_len(),
                    crate::browser::HtmlElement::Link(t) => t.as_str().unicode_len(),
                };
                assert(n == es[i as int].1.len());
                if n > TEXT_LIMIT {
                    return false;
                }
                i = i + 1;
            }
            true
        },
    }
}

/// The checks `render_checked` makes of an open window: its place and size
/// within `SCREEN_LIMIT`, its right edge at least 20 pixels from the left of
/// the screen, and its application drawable below the 20-pixel title bar
/// (see `can_draw`).
pub open spec fn window_ok(w: Window<DesktopApp>, env: DrawEnv) -> bool {
    &&& w.x <= SCREEN_LIMIT && w.y <= SCREEN_LIMIT && w.width <= SCREEN_LIMIT && w.height <= SCREEN_LIMIT
    &&& w.x + w.width >= 20
    &&& can_draw(w.app, env, w.x, (w.y + 20) as usize, w.width, w.height)
}

/// The checks `render_checked` makes: the pointer within `SCREEN_LIMIT`,
/// and every open window passing `window_ok`.
pub open spec fn render_ok(pointer: (usize, usize), windows: Seq<Option<Window<DesktopApp>>>,
    env: DrawEnv) -> bool
{
    &&& pointer.0 <= SCREEN_LIMIT && pointer.1 <= SCREEN_LIMIT
    &&& forall|i: int| 0 <= i < windows.len() ==> (#[trigger] windows[i] matches Some(w) ==> window_ok(w, env))
}

impl GraphicalCompositor {
    /// Draws everything as `render_all` does when the mouse and every
    /// window pass the checks of `render_ok`; otherwise draws nothing and
    /// says so.
    pub fn render_checked(&mut self, windows: &mut Vec<Option<Window<DesktopApp>>>, env: &DrawEnv) -> (drawn: bool)
        requires
            sane_frame(old(self).frame()),
        ensures
            drawn == render_ok(old(self).pointer(), old(windows)@, *env),
            drawn ==> final(windows)@.len() == old(windows)@.len()
                && (forall|i: int| 0 <= i < old(windows)@.len() ==> window_redrawn(#[trigger] old(windows)@[i], final(windows)@[i]))
                && final(self).pixels() == apply_ops(old(self).pixels(), old(self).frame(),
                    desktop_ops(old(self).frame().width, old(self).frame().height, env.online) + windows_cmds(final(windows)@, *env)
                        + pointer_rows(old(self).pointer().0, old(self).pointer().1, 16)),
            !drawn ==> final(windows)@ == old(windows)@ && final(self).pixels() == old(self).pixels(),
            final(self).frame() == old(self).frame(),
            final(self).pointer() == old(self).pointer(),
            final(self).drag_state() == old(self).drag_state(),
    {
        let (mx, my) = self.mouse_position();
        if mx > SCREEN_LIMIT || my > SCREEN_LIMIT {
            return false;
        }
        let mut i: usize = 0;
        while i < windows.len()
            invariant
                i <= windows@.len(),
                forall|j: int| 0 <= j < i ==> (#[trigger] windows@[j] matches Some(w) ==> window_fits(w, *env)),
                forall|j: int| 0 <= j < i ==> (#[trigger] windows@[j] matches Some(w) ==> window_ok(w, *env)),
            decreases windows.len() - i,
        {
            match &windows[i] {
                Some(w) => {
                    if w.x > SCREEN_LIMIT || w.y > SCREEN_LIMIT || w.width > SCREEN_LIMIT || w.height > SCREEN_LIMIT
                        || w.x + w.width < 20 || !app_can_draw(&w.app, env, w.x, w.y + 20, w.width, w.height) {
                        return false;
                    }
                },
                None => {},
            }
            i = i + 1;
        }
        self.render_all(windows, env);
        true
    }
}

} // verus!
