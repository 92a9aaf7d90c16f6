use rustos::app::Event;
use rustos::browser::{BrowserApp, HtmlElement};
use rustos::filemanager::FileManagerApp;
use rustos::fs::RamFs;
use rustos::notepad::NotepadApp;
use rustos::settings::{timezone_name, SettingsApp};
use rustos::taskmanager::{get_content_height, AccordionSection, TaskManagerApp, HISTORY_LEN};

#[test]
fn notepad_typing() {
    let mut n = NotepadApp::new();
    assert_eq!(n.title(), "Notepad");
    assert_eq!(n.text().as_str(), "Welcome to RustOS Notepad!\nType something...\n\n");
    n.handle_event(Event::KeyPress('H'));
    n.handle_event(Event::KeyPress('i'));
    n.handle_event(Event::KeyPress('\r'));
    assert!(n.text().ends_with("Hi\n"));
    n.handle_event(Event::KeyPress('\x08'));
    n.handle_event(Event::KeyPress('\x08'));
    assert!(n.text().ends_with("\n\nH"));
    assert_eq!(n.scroll_y(), -1);
}

#[test]
fn notepad_types_a_string() {
    let mut n = NotepadApp::new();
    n.type_keys("\nab\x08c\r");
    assert_eq!(n.text().as_str(), "Welcome to RustOS Notepad!\nType something...\n\n\nac\n");
    assert_eq!(n.scroll_y(), -1);
    let mut m = NotepadApp::new();
    m.type_keys("");
    assert_eq!(m.text().as_str(), "Welcome to RustOS Notepad!\nType something...\n\n");
}

#[test]
fn notepad_scroll_and_fit() {
    let mut n = NotepadApp::new();
    n.handle_event(Event::MouseScroll { delta: -5 });
    assert_eq!(n.scroll_y(), 0);
    // 4 visual lines (3 newlines); a 40-pixel view holds 1 line of 12 pixels
    let max = n.fit_scroll(400, 40);
    assert_eq!(max, 3);
    assert_eq!(n.scroll_y(), 0);
    n.handle_event(Event::KeyPress('x'));
    let max = n.fit_scroll(400, 40);
    assert_eq!(max, 3);
    assert_eq!(n.scroll_y(), 3);
}

#[test]
fn notepad_cursor_blinks_every_twenty_ticks() {
    let mut n = NotepadApp::new();
    for _ in 0..19 {
        n.update();
    }
    assert!(n.cursor_visible());
    n.update();
    assert!(!n.cursor_visible());
}

#[test]
fn settings_tabs_and_timezone() {
    let mut s = SettingsApp::new();
    assert_eq!(s.title(), "System Settings");
    assert_eq!(s.active_tab(), 0);
    assert_eq!(s.timezone_offset(), 1);
    assert_eq!(s.handle_event(Event::MouseClick { x: 30, y: 95 }), None);
    assert_eq!(s.active_tab(), 1);
    s.handle_event(Event::MouseClick { x: 350, y: 120 });
    assert_eq!(s.timezone_offset(), 9);
    s.handle_event(Event::MouseClick { x: 350, y: 120 });
    assert_eq!(s.timezone_offset(), 0);
    s.handle_event(Event::MouseClick { x: 350, y: 120 });
    assert_eq!(s.timezone_offset(), 1);
    assert_eq!(timezone_name(0), "UTC");
    assert_eq!(timezone_name(1), "Germany (+1)");
    assert_eq!(timezone_name(9), "Japan (+9)");
    assert_eq!(timezone_name(5), "Custom");
}

#[test]
fn settings_theme_prompt() {
    let mut s = SettingsApp::new();
    s.handle_event(Event::MouseClick { x: 30, y: 140 });
    assert_eq!(s.active_tab(), 2);
    // dark mode button
    assert_eq!(s.handle_event(Event::MouseClick { x: 350, y: 90 }), None);
    assert!(s.show_prompt());
    // a click on a tab is ignored while the prompt is shown
    s.handle_event(Event::MouseClick { x: 30, y: 60 });
    assert_eq!(s.active_tab(), 2);
    // OK
    assert_eq!(s.handle_event(Event::MouseClick { x: 150, y: 185 }), Some(2));
    assert!(!s.show_prompt());
    // light mode, then cancel
    s.handle_event(Event::MouseClick { x: 200, y: 90 });
    assert!(s.show_prompt());
    assert_eq!(s.handle_event(Event::MouseClick { x: 300, y: 185 }), None);
    assert!(!s.show_prompt());
}

#[test]
fn file_manager_creates_and_deletes() {
    let mut fs = RamFs::new();
    fs.write_file("old.txt", b"x");
    let mut f = FileManagerApp::new(&fs);
    assert_eq!(f.title(), "Finder");
    assert_eq!(f.items().clone(), vec![(String::from("old.txt"), false)]);
    for c in "new.txt".chars() {
        f.handle_event(Event::KeyPress(c), &mut fs);
    }
    assert!(f.is_creating_file());
    assert_eq!(f.new_file_name().as_str(), "new.txt");
    f.handle_event(Event::KeyPress('\n'), &mut fs);
    assert_eq!(fs.read_file("new.txt"), Some(vec![]));
    assert!(!f.is_creating_file());
    assert!(f.new_file_name().is_empty());
    // the listing is read again once a second, not right after a change:
    // the first row (y from 50, 30 pixels each) is still old.txt
    assert_eq!(f.items().clone(), vec![(String::from("old.txt"), false)]);
    f.handle_event(Event::MouseLongPress { x: 200, y: 55 }, &mut fs);
    assert_eq!(fs.read_file("old.txt"), None);
    assert_eq!(fs.read_file("new.txt"), Some(vec![]));
    for _ in 0..60 {
        f.update(&fs);
    }
    assert_eq!(f.items().clone(), vec![(String::from("new.txt"), false)]);
}

#[test]
fn file_manager_name_is_capped() {
    let mut fs = RamFs::new();
    let mut f = FileManagerApp::new(&fs);
    for _ in 0..40 {
        f.handle_event(Event::KeyPress('a'), &mut fs);
    }
    assert_eq!(f.new_file_name().len(), 30);
    f.handle_event(Event::KeyPress('\x08'), &mut fs);
    assert_eq!(f.new_file_name().len(), 29);
    f.handle_event(Event::MouseScroll { delta: -2 }, &mut fs);
    assert_eq!(f.scroll_y(), 0);
    f.handle_event(Event::MouseScroll { delta: 2 }, &mut fs);
    assert_eq!(f.scroll_y(), 60);
}

fn element_texts(b: &BrowserApp) -> Vec<(u8, String)> {
    b.html_elements()
        .iter()
        .map(|e| match e {
            HtmlElement::Text(t) => (0, t.clone()),
            HtmlElement::Heading(t) => (1, t.clone()),
            HtmlElement::Link(t) => (2, t.clone()),
        })
        .collect()
}

#[test]
fn browser_elements_are_clean_and_stable() {
    let mut b = BrowserApp::new();
    b.update(Some(String::from("<p>  </p><a>link</a> \n <h1>Big</h1>tail")));
    let first = element_texts(&b);
    assert_eq!(first, vec![(2, String::from("link")), (1, String::from("Big")), (0, String::from("tail"))]);
    for (_, t) in &first {
        assert!(!t.trim().is_empty() && !t.contains('<') && !t.contains('>'));
    }
    b.parse_dummy_html();
    assert_eq!(element_texts(&b), first);
}

#[test]
fn file_manager_name_stays_within_thirty_characters() {
    let mut fs = RamFs::new();
    let mut f = FileManagerApp::new(&fs);
    for c in "\u{e9}\u{e9}\u{e9}\u{e9}\u{e9}\u{e9}\u{e9}\u{e9}\u{e9}\u{e9}\u{e9}\u{e9}\u{e9}\u{e9}\u{e9}\u{e9}".chars() {
        f.handle_event(Event::KeyPress(c), &mut fs);
        assert!(f.new_file_name().chars().count() <= 30);
    }
    // two bytes each: typing stops once 30 bytes are reached
    assert_eq!(f.new_file_name().chars().count(), 15);
    for _ in 0..40 {
        f.handle_event(Event::KeyPress('x'), &mut fs);
        f.update(&fs);
        assert!(f.new_file_name().chars().count() <= 30);
    }
}

#[test]
fn browser_parses_welcome_page() {
    let mut b = BrowserApp::new();
    assert_eq!(b.title(), "Web Browser");
    assert_eq!(b.url_bar().as_str(), "http://localhost");
    b.parse_dummy_html();
    assert_eq!(
        element_texts(&b),
        vec![(1, String::from("Welcome to RustOS Browser")), (0, String::from("Loading..."))]
    );
}

#[test]
fn browser_first_frame_requests_page() {
    let mut b = BrowserApp::new();
    assert!(b.update(None));
    assert_eq!(
        element_texts(&b),
        vec![(1, String::from("Loading...")), (0, String::from("Fetching example.com..."))]
    );
    assert!(!b.update(None));
    let response = String::from("HTTP/1.1 200 OK\r\nContent-Type: text/html\r\n\r\n<h1>Hi</h1><a>more</a> tail");
    assert!(!b.update(Some(response)));
    assert_eq!(
        element_texts(&b),
        vec![(1, String::from("Hi")), (2, String::from("more")), (0, String::from(" tail"))]
    );
}

#[test]
fn task_manager_sections() {
    assert_eq!(get_content_height(AccordionSection::Performance), 160);
    assert_eq!(get_content_height(AccordionSection::OsAnalysis), 70);
    assert_eq!(get_content_height(AccordionSection::DeviceInfo), 70);
    assert_eq!(get_content_height(AccordionSection::Support), 60);
    let t = TaskManagerApp::new();
    assert_eq!(t.title(), "Task Manager");
    assert_eq!(t.expanded_section(), Some(AccordionSection::Performance));
    assert_eq!(t.cpu_history().len(), HISTORY_LEN);
}

#[test]
fn task_manager_samples_every_twenty_ticks() {
    let mut t = TaskManagerApp::new();
    for _ in 0..20 {
        t.update();
    }
    assert_eq!(t.ticks(), 20);
    // 20 % 83 = 20, plus 15
    assert_eq!(t.cpu_history()[HISTORY_LEN - 1], 35);
    // 30 + (20 / 2) % 20
    assert_eq!(t.ram_history()[HISTORY_LEN - 1], 40);
    assert_eq!(t.cpu_history().len(), HISTORY_LEN);
}
