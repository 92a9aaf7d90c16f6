use vstd::prelude::*;
use crate::app::{Event, sat_isize};
use crate::text::{chars_of, lit, push_char, string_from_chars, trim, trimmed, chars_eq};
use crate::terminal::pop_char;

verus! {

/// A piece of a page: plain text, a heading or a link text.
pub enum HtmlElement {
    Text(String),
    Heading(String),
    Link(String),
}

/// The style in force for the text that follows a tag.
#[derive(PartialEq, Eq, Structural, Clone, Copy, Debug)]
pub enum TextStyle {
    Plain,
    Heading,
    Link,
}

/// An element as its style and text.
pub open spec fn element_view(e: HtmlElement) -> (TextStyle, Seq<char>) {
    match e {
        HtmlElement::Text(t) => (TextStyle::Plain, t@),
        HtmlElement::Heading(t) => (TextStyle::Heading, t@),
        HtmlElement::Link(t) => (TextStyle::Link, t@),
    }
}

pub open spec fn elements_view(v: Seq<HtmlElement>) -> Seq<(TextStyle, Seq<char>)> {
    v.map_values(|e: HtmlElement| element_view(e))
}

/// Whether a tag is `h1`, in any case.
pub open spec fn tag_is_h1(tag: Seq<char>) -> bool {
    tag == seq!['h', '1'] || tag == seq!['H', '1']
}

/// Whether a tag is `a`, in any case.
pub open spec fn tag_is_a(tag: Seq<char>) -> bool {
    tag == seq!['a'] || tag == seq!['A']
}

/// The tokenizer's state after reading a text: inside a tag or not, the
/// text and the tag read so far, the style in force, and the elements found.
pub struct HtmlState {
    pub in_tag: bool,
    pub text: Seq<char>,
    pub tag: Seq<char>,
    pub style: TextStyle,
    pub elements: Seq<(TextStyle, Seq<char>)>,
}

/// Reading a page: a '<' closes the text before it (kept when it is not
/// only whitespace, in the style in force) and opens a tag; a '>' closes
/// the tag, after which `h1` sets the heading style, `a` the link style and
/// a closing tag plain text; other characters go to the tag or the text.
pub open spec fn html_state(s: Seq<char>) -> HtmlState
    decreases s.len(),
{
    if s.len() == 0 {
        HtmlState { in_tag: false, text: Seq::empty(), tag: Seq::empty(), style: TextStyle::Plain, elements: Seq::empty() }
    } else {
        let st = html_state(s.drop_last());
        let c = s.last();
        if c == '<' {
            HtmlState {
                in_tag: true,
                text: Seq::empty(),
                elements: if trim(st.text).len() > 0 { st.elements.push((st.style, st.text)) } else { st.elements },
                ..st
            }
        } else if c == '>' {
            HtmlState {
                in_tag: false,
                tag: Seq::empty(),
                style: if tag_is_h1(st.tag) {
                    TextStyle::Heading
                } else if tag_is_a(st.tag) {
                    TextStyle::Link
                } else if st.tag.len() > 0 && st.tag[0] == '/' {
                    TextStyle::Plain
                } else {
                    st.style
                },
                ..st
            }
        } else if st.in_tag {
            HtmlState { tag: st.tag.push(c), ..st }
        } else {
            HtmlState { text: st.text.push(c), ..st }
        }
    }
}

/// The elements of a page: those found, and the text left at the end (as
/// plain text) when it is not only whitespace.
pub open spec fn page_elements(s: Seq<char>) -> Seq<(TextStyle, Seq<char>)> {
    let st = html_state(s);
    if trim(st.text).len() > 0 { st.elements.push((TextStyle::Plain, st.text)) } else { st.elements }
}

/// A text an element may hold: not blank, and free of '<' and '>'.
pub open spec fn clean_text(t: Seq<char>) -> bool {
    &&& trim(t).len() > 0
    &&& forall|k: int| 0 <= k < t.len() ==> #[trigger] t[k] != '<' && t[k] != '>'
}

proof fn lemma_html_state_clean(s: Seq<char>)
    ensures
        forall|i: int| 0 <= i < html_state(s).elements.len() ==> clean_text(#[trigger] html_state(s).elements[i].1),
        forall|k: int| 0 <= k < html_state(s).text.len() ==> #[trigger] html_state(s).text[k] != '<'
            && html_state(s).text[k] != '>',
    decreases s.len(),
{
    if s.len() > 0 {
        lemma_html_state_clean(s.drop_last());
    }
}

/// Every element of a page holds a clean text (see `clean_text`).
pub proof fn lemma_page_elements_clean(s: Seq<char>)
    ensures
        forall|i: int| 0 <= i < page_elements(s).len() ==> clean_text(#[trigger] page_elements(s)[i].1),
{
    lemma_html_state_clean(s);
}

/// Parsing a page a second time (see `parse_dummy_html`) gives the same
/// elements again: they depend on the page alone, and parsing leaves the
/// page, the address and the scroll position as they were.
pub proof fn lemma_parse_again(a: BrowserApp, b: BrowserApp, c: BrowserApp)
    requires
        b.elements() == page_elements(a.page()),
        b.url() == a.url() && b.page() == a.page() && b.scroll() == a.scroll(),
        c.elements() == page_elements(b.page()),
        c.url() == b.url() && c.page() == b.page() && c.scroll() == b.scroll(),
    ensures
        c.elements() == b.elements(),
        c.url() == a.url() && c.page() == a.page() && c.scroll() == a.scroll(),
{
}

/// The separator between the headers and the body of an HTTP response.
pub open spec fn crlf2() -> Seq<char> {
    seq!['\r', '\n', '\r', '\n']
}

/// A blank line starts at `i`.
pub open spec fn blank_at(s: Seq<char>, i: int) -> bool {
    0 <= i && i + 4 <= s.len() && s.subrange(i, i + 4) == crlf2()
}

/// Where the first blank line of a response starts, if it has one.
pub open spec fn blank_line_at(s: Seq<char>) -> int {
    if exists|i: int| #[trigger] blank_at(s, i) {
        choose|i: int| #[trigger] blank_at(s, i) && forall|j: int| 0 <= j < i ==> !blank_at(s, j)
    } else {
        -1
    }
}

/// The body of an HTTP response: what follows the first blank line, or the
/// whole response when there is none.
pub open spec fn response_body(s: Seq<char>) -> Seq<char> {
    if blank_line_at(s) >= 0 { s.skip(blank_line_at(s) + 4) } else { s }
}

pub open spec fn welcome_page() -> Seq<char> {
    "<h1>Welcome to RustOS Browser</h1><p>Loading...</p>"@
}

pub open spec fn loading_page() -> Seq<char> {
    "<h1>Loading...</h1><p>Fetching example.com...</p>"@
}

pub open spec fn navigating_page() -> Seq<char> {
    "<h1>Navigating...</h1><p>Wait</p>"@
}

/// The address the browser fetches its first page from (example.com).
pub fn http_target() -> (ip: [u8; 4])
    ensures
        ip@ == seq![93u8, 184u8, 216u8, 34u8],
{
    let ip: [u8; 4] = [93, 184, 216, 34];
    assert(ip@ =~= seq![93u8, 184u8, 216u8, 34u8]);
    ip
}

/// The web browser: the address bar, the page source and its elements.
pub struct BrowserApp {
    url_bar: String,
    content: String,
    scroll_y: isize,
    html_elements: Vec<HtmlElement>,
}

impl BrowserApp {
    pub closed spec fn url(self) -> Seq<char> { self.url_bar@ }
    pub closed spec fn page(self) -> Seq<char> { self.content@ }
    pub closed spec fn scroll(self) -> isize { self.scroll_y }
    pub closed spec fn elements(self) -> Seq<(TextStyle, Seq<char>)> { elements_view(self.html_elements@) }

    /// A browser at `http://localhost` holding the welcome page, not yet
    /// read into elements.
    pub fn new() -> (b: Self)
        ensures
            b.url() == "http://localhost"@,
            b.page() == welcome_page(),
            b.scroll() == 0,
            b.elements().len() == 0,
    {
        BrowserApp {
            url_bar: lit("http://localhost"),
            content: lit("<h1>Welcome to RustOS Browser</h1><p>Loading...</p>"),
            scroll_y: 0,
            html_elements: Vec::new(),
        }
    }

    pub fn title(&self) -> (r: &'static str)
        ensures
            r@ == "Web Browser"@,
    {
        "Web Browser"
    }

    /// Reads the page source into elements.
    pub fn parse_dummy_html(&mut self)
        ensures
            final(self).elements() == page_elements(old(self).page()),
            final(self).url() == old(self).url(),
            final(self).page() == old(self).page(),
            final(self).scroll() == old(self).scroll(),
    {
        let chars = chars_of(self.content.as_str());
        let mut elements: Vec<HtmlElement> = Vec::new();
        let mut in_tag = false;
        let mut current_text: Vec<char> = Vec::new();
        let mut current_tag: Vec<char> = Vec::new();
        let mut style = TextStyle::Plain;
        let mut i: usize = 0;
        while i < chars.len()
            invariant
                i <= chars@.len(),
                chars@ == old(self).page(),
                ({
                    let st = html_state(chars@.take(i as int));
                    &&& st.in_tag == in_tag
                    &&& st.text == current_text@
                    &&& st.tag == current_tag@
                    &&& st.style == style
                    &&& st.elements == elements_view(elements@)
                }),
            decreases chars.len() - i,
        {
            let c = chars[i];
            proof {
                assert(chars@.take(i + 1).drop_last() =~= chars@.take(i as int));
                assert(chars@.take(i + 1).last() == c);
            }
            if c == '<' {
                let t = trimmed(&current_text);
                if t.len() > 0 {
                    let text = string_from_chars(&current_text);
                    let e = match style {
                        TextStyle::Heading => HtmlElement::Heading(text),
                        TextStyle::Link => HtmlElement::Link(text),
                        TextStyle::Plain => HtmlElement::Text(text),
                    };
                    let ghost before = elements@;
                    elements.push(e);
                    assert(elements_view(elements@) =~= elements_view(before).push((style, current_text@)));
                }
                current_text = Vec::new();
                in_tag = true;
            } else if c == '>' {
                in_tag = false;
                if chars_eq(&current_tag, "h1") || chars_eq(&current_tag, "H1") {
                    style = TextStyle::Heading;
                } else if chars_eq(&current_tag, "a") || chars_eq(&current_tag, "A") {
                    style = TextStyle::Link;
                } else if current_tag.len() > 0 && current_tag[0] == '/' {
                    style = TextStyle::Plain;
                }
                current_tag = Vec::new();
            } else if in_tag {
                current_tag.push(c);
            } else {
                current_text.push(c);
            }
            proof {
                reveal_strlit("h1");
                reveal_strlit("H1");
                reveal_strlit("a");
                reveal_strlit("A");
                assert("h1"@ =~= seq!['h', '1']);
                assert("H1"@ =~= seq!['H', '1']);
                assert("a"@ =~= seq!['a']);
                assert("A"@ =~= seq!['A']);
                assert(current_text@ =~= html_state(chars@.take(i + 1)).text);
                assert(current_tag@ =~= html_state(chars@.take(i + 1)).tag);
            }
            i = i + 1;
        }
        assert(chars@.take(i as int) =~= chars@);
        let t = trimmed(&current_text);
        if t.len() > 0 {
            let text = string_from_chars(&current_text);
            let ghost before = elements@;
            elements.push(HtmlElement::Text(text));
            assert(elements_view(elements@) =~= elements_view(before).push((TextStyle::Plain, current_text@)));
        }
        self.html_elements = elements;
    }

    /// What `update` does, from `pre` to `post`.
    pub open spec fn tick_effect(pre: Self, post: Self, response: Option<String>, start_request: bool) -> bool {
        let first = pre.elements().len() == 0 && pre.page() == welcome_page();
        let mid_page = if first { loading_page() } else { pre.page() };
        &&& start_request == first
        &&& post.page() == match response {
            Some(r) => response_body(r@),
            None => mid_page,
        }
        &&& (first || response is Some) ==> post.elements() == page_elements(post.page())
        &&& !(first || response is Some) ==> post.elements() == pre.elements()
        &&& post.url() == pre.url()
        &&& post.scroll() == pre.scroll()
    }

    /// One frame. The first time, while the welcome page is shown, a page
    /// saying it is loading is shown and `true` asks for the page of
    /// `http_target`. A `response` that arrived replaces the page with its
    /// body.
    pub fn update(&mut self, response: Option<String>) -> (start_request: bool)
        ensures
            Self::tick_effect(*old(self), *final(self), response, start_request),
    {
        let mut first = false;
        if self.html_elements.len() == 0 && chars_eq(&chars_of(self.content.as_str()), "<h1>Welcome to RustOS Browser</h1><p>Loading...</p>") {
            first = true;
            self.content = lit("<h1>Loading...</h1><p>Fetching example.com...</p>");
            self.parse_dummy_html();
        }
        if let Some(res) = response {
            let chars = chars_of(res.as_str());
            let body = body_of(&chars);
            self.content = string_from_chars(&body);
            self.parse_dummy_html();
        }
        first
    }

    /// What `handle_event` does with `event`, from `pre` to `post`.
    pub open spec fn event_effect(pre: Self, post: Self, event: Event) -> bool {
        match event {
            Event::MouseScroll { delta } => {
                let s = pre.scroll() + delta * 20;
                &&& post.scroll() == (if s < 0 { 0 } else { s })
                &&& post.url() == pre.url()
                &&& post.page() == pre.page()
                &&& post.elements() == pre.elements()
            },
            Event::KeyPress(c) => {
                &&& post.scroll() == pre.scroll()
                &&& if c == '\x08' {
                    &&& post.url() == (if pre.url().len() > 0 { pre.url().drop_last() } else { pre.url() })
                    &&& post.page() == pre.page()
                    &&& post.elements() == pre.elements()
                } else if c != '\n' {
                    &&& post.url() == pre.url().push(c)
                    &&& post.page() == pre.page()
                    &&& post.elements() == pre.elements()
                } else {
                    &&& post.url() == pre.url()
                    &&& post.page() == navigating_page()
                    &&& post.elements().len() == 0
                }
            },
            _ => post == pre,
        }
    }

    /// Typing edits the address bar; Enter starts navigating (the page says
    /// so and its elements are dropped). The wheel scrolls 20 pixels a
    /// notch, never above the top.
    pub fn handle_event(&mut self, event: Event)
        requires
            event matches Event::MouseScroll { delta } ==> i32::MIN <= delta * 20 <= i32::MAX
                && isize::MIN <= old(self).scroll() + delta * 20 <= isize::MAX,
        ensures
            Self::event_effect(*old(self), *final(self), event),
    {
        match event {
            Event::MouseScroll { delta } => {
                self.scroll_y = self.scroll_y + (delta * 20) as isize;
                if self.scroll_y < 0 {
                    self.scroll_y = 0;
                }
            },
            Event::KeyPress(c) => {
                if c == '\x08' {
                    let _ = pop_char(&mut self.url_bar);
                } else if c != '\n' {
                    push_char(&mut self.url_bar, c);
                } else {
                    self.content = lit("<h1>Navigating...</h1><p>Wait</p>");
                    self.html_elements = Vec::new();
                }
            },
            _ => {},
        }
    }

    pub fn url_bar(&self) -> (r: &String)
        ensures
            r@ == self.url(),
    {
        &self.url_bar
    }

    pub fn html_elements(&self) -> (r: &Vec<HtmlElement>)
        ensures
            elements_view(r@) == self.elements(),
    {
        &self.html_elements
    }

    pub fn scroll_y(&self) -> (r: isize)
        ensures
            r == self.scroll(),
    {
        self.scroll_y
    }
}

/// What follows the first blank line, or everything.
fn body_of(s: &Vec<char>) -> (r: Vec<char>)
    ensures
        r@ == response_body(s@),
{
    let mut i: usize = 0;
    let mut found = false;
    while !found && i <= s.len() && s.len() - i >= 4
        invariant
            i <= s@.len(),
            found ==> blank_at(s@, i as int),
            forall|j: int| 0 <= j < i ==> !#[trigger] blank_at(s@, j),
        decreases s@.len() + 4 - i, if found { 0int } else { 1int },
    {
        if s[i] == '\r' && s[i + 1] == '\n' && s[i + 2] == '\r' && s[i + 3] == '\n' {
            assert(s@.subrange(i as int, i + 4) =~= crlf2());
            found = true;
        } else {
            assert(!blank_at(s@, i as int)) by {
                if s@.subrange(i as int, i + 4) == crlf2() {
                    assert(s@.subrange(i as int, i + 4)[0] == s@[i as int]);
                    assert(s@.subrange(i as int, i + 4)[1] == s@[i + 1]);
                    assert(s@.subrange(i as int, i + 4)[2] == s@[i + 2]);
                    assert(s@.subrange(i as int, i + 4)[3] == s@[i + 3]);
                }
            }
            i = i + 1;
        }
    }
    let mut r: Vec<char> = Vec::new();
    let n = s.len();
    assert(found ==> i + 4 <= n);
    let start: usize = if found { i + 4 } else { 0 };
    proof {
        if found {
            let p = blank_line_at(s@);
            assert(blank_at(s@, p) && forall|j: int| 0 <= j < p ==> !blank_at(s@, j));
            if p < i {
                assert(!blank_at(s@, p));
            } else if p > i {
                assert(!blank_at(s@, i as int));
            }
            assert(p == i);
        } else {
            assert forall|j: int| !#[trigger] blank_at(s@, j) by {
                if blank_at(s@, j) {
                    assert(j < i);
                }
            }
            assert(!(exists|j: int| #[trigger] blank_at(s@, j)));
        }
    }
    let mut k: usize = start;
    while k < s.len()
        invariant
            start <= k <= s@.len(),
            r@ == s@.subrange(start as int, k as int),
        decreases s.len() - k,
    {
        r.push(s[k]);
        k = k + 1;
        assert(r@ =~= s@.subrange(start as int, k as int));
    }
    assert(s@.subrange(start as int, s@.len() as int) =~= s@.skip(start as int));
    if !found {
        assert(s@.skip(0) =~= s@);
    }
    r
}

} // verus!
