use mkcontent::render::{
    math_class, name_len, plain_text, postprocess, read_events, render, render_html, Attribute,
    EventKind, HtmlEvent, RawEvent, RenderError, RenderState,
};

fn event(kind: EventKind, content: &str, name: &str) -> HtmlEvent {
    HtmlEvent {
        kind,
        content: content.as_bytes().to_vec(),
        name: name.as_bytes().to_vec(),
        attributes: Vec::new(),
    }
}

fn class(value: &str) -> Attribute {
    Attribute { key: b"class".to_vec(), value: value.as_bytes().to_vec() }
}

#[test]
fn minimum_article_renders_with_preview() {
    let (html, preview) = render("---\ntitle=\"Hello\"\n---\nHello world.").unwrap();
    assert_eq!(html, "<p>Hello world.</p>");
    assert_eq!(preview, Some(String::from("Hello world.")));
}

#[test]
fn frontmatter_is_left_out_of_the_page() {
    let (html, _) = render("---\ntitle=\"T\"\ntags=[\"a\"]\n---\n# Heading\n").unwrap();
    assert_eq!(html, "<h1>Heading</h1>\n");
}

#[test]
fn no_paragraph_means_no_preview() {
    let (html, preview) = render("# Only a heading\n").unwrap();
    assert_eq!(html, "<h1>Only a heading</h1>\n");
    assert_eq!(preview, None);
}

#[test]
fn only_the_first_paragraph_is_the_preview() {
    let (html, preview) = render("first\n\nsecond\n").unwrap();
    assert_eq!(html, "<p>first</p>\n<p>second</p>\n");
    assert_eq!(preview, Some(String::from("first")));
}

#[test]
fn preview_joins_the_text_inside_nested_tags() {
    let (_, preview) = render("some *emphasis* here\n").unwrap();
    assert_eq!(preview, Some(String::from("some emphasis here")));
}

#[test]
fn inline_math_is_typeset() {
    let (html, preview) = render("Euler: $e^{i\\pi}$ done\n").unwrap();
    assert!(html.starts_with("<p>Euler: <code class=\"language-math math-inline\">"));
    assert!(html.contains("class=\"katex\""));
    assert!(!html.contains("katex-display"));
    assert!(html.ends_with("</code> done</p>\n"));
    // The formula is not part of the preview.
    assert_eq!(preview, Some(String::from("Euler:  done")));
}

#[test]
fn block_math_is_typeset_in_display_mode() {
    let (html, _) = render("$$\nx^2\n$$\n").unwrap();
    assert!(html.starts_with("<pre><code class=\"language-math math-display\">"));
    assert!(html.contains("katex-display"));
    assert!(html.ends_with("</code></pre>\n"));
}

#[test]
fn math_that_cannot_be_typeset_is_kept() {
    let (html, _) = render_html("<code class=\"language-math\">\\frac{</code>").unwrap();
    assert_eq!(html, "<code class=\"language-math\">\\frac{</code>");
}

#[test]
fn ordinary_code_passes_through() {
    let (html, _) = render("`x < y`\n").unwrap();
    assert_eq!(html, "<p><code>x &lt; y</code></p>\n");
}

#[test]
fn raw_html_is_kept() {
    let (html, _) = render("<div class=\"note\">\n\nhi\n\n</div>\n").unwrap();
    assert_eq!(html, "<div class=\"note\">\n<p>hi</p>\n</div>\n");
}

#[test]
fn tags_that_do_not_match_are_let_through() {
    assert_eq!(render_html("<a></b>").unwrap().0, "<a></b>");
    assert_eq!(render_html("</b>").unwrap().0, "</b>");
    assert_eq!(render_html("<p>one<br>two</p>").unwrap().0, "<p>one<br>two</p>");
    let (html, preview) = render("<div>\n\nline<br>\nbreak\n\n</span>\n").unwrap();
    assert_eq!(html, "<div>\n<p>line<br>\nbreak</p>\n</span>\n");
    assert_eq!(preview, Some(String::from("line\nbreak")));
}

#[test]
fn a_tag_that_never_ends_is_an_error() {
    assert_eq!(render_html("<a"), Err(RenderError::Parse));
    assert_eq!(render_html("text <b class=\"x"), Err(RenderError::Parse));
}

#[test]
fn dangerous_links_are_kept() {
    let (html, _) = render("[x](javascript:alert(1))\n").unwrap();
    assert_eq!(html, "<p><a href=\"javascript:alert(1)\">x</a></p>\n");
}

#[test]
fn gfm_constructs_are_read() {
    let (html, _) = render("~~gone~~\n").unwrap();
    assert_eq!(html, "<p><del>gone</del></p>\n");
}

#[test]
fn events_of_a_small_document() {
    let events = read_events("<p class=\"x\">a&amp;b</p><br/><!--c-->").unwrap();
    assert_eq!(events.len(), 5);
    assert_eq!(events[0].kind, EventKind::Start);
    assert_eq!(events[0].name, b"p".to_vec());
    assert_eq!(events[0].content, b"p class=\"x\"".to_vec());
    assert_eq!(events[0].attributes, vec![class("x")]);
    assert_eq!(events[1], event(EventKind::Text, "a&amp;b", ""));
    assert_eq!(events[2], event(EventKind::End, "p", "p"));
    assert_eq!(events[3], event(EventKind::Empty, "br", "br"));
    assert_eq!(events[4], event(EventKind::Comment, "c", ""));
}

#[test]
fn events_are_written_back_between_their_delimiters() {
    let source = "<?xml version=\"1.0\"?><!DOCTYPE html><a x=\"1\">t<![CDATA[d]]><b/><!--c--><?pi x?></a>";
    let (html, preview) = render_html(source).unwrap();
    assert_eq!(html, source);
    assert_eq!(preview, None);
}

#[test]
fn math_class_looks_at_class_attributes_only() {
    assert_eq!(math_class(&vec![]), None);
    assert_eq!(math_class(&vec![class("language-rust")]), None);
    assert_eq!(math_class(&vec![class("language-math math-inline")]), Some(false));
    assert_eq!(math_class(&vec![class("language-math math-display")]), Some(true));
    assert_eq!(math_class(&vec![class("x language-math")]), Some(false));
    let id = Attribute { key: b"id".to_vec(), value: b"language-math".to_vec() };
    assert_eq!(math_class(&vec![id.clone()]), None);
    // A later class attribute decides where an earlier one does not.
    assert_eq!(
        math_class(&vec![id, class("plain"), class("language-math math-display")]),
        Some(true)
    );
    // A value that is not text does not count.
    let bad = Attribute { key: b"class".to_vec(), value: vec![0xff, b'l'] };
    assert_eq!(math_class(&vec![bad]), None);
}

#[test]
fn text_inside_math_is_unescaped_before_typesetting() {
    let events = vec![
        HtmlEvent {
            kind: EventKind::Start,
            content: b"code class=\"language-math\"".to_vec(),
            name: b"code".to_vec(),
            attributes: vec![class("language-math")],
        },
        event(EventKind::Text, "a &lt; b", ""),
        event(EventKind::End, "code", "code"),
    ];
    let mut state = RenderState::new();
    state.step(&events[0]);
    assert_eq!(state.math_display, Some(false));
    state.step(&events[1]);
    assert_eq!(state.math_content, "a < b");
    assert_eq!(state.output, b"<code class=\"language-math\">".to_vec());
    state.step(&events[2]);
    assert_eq!(state.math_display, None);
    assert_eq!(state.math_content, "");

    let (html, preview) = postprocess(&events).unwrap();
    assert!(html.starts_with("<code class=\"language-math\"><span class=\"katex\">"));
    assert!(html.ends_with("</code>"));
    assert_eq!(preview, None);
}

#[test]
fn preview_is_plain_text() {
    let (html, preview) = render("a & b").unwrap();
    assert_eq!(html, "<p>a &amp; b</p>");
    assert_eq!(preview, Some(String::from("a & b")));
    let (html, preview) = render("1 < 2 *and* \"q\" &#65;\n").unwrap();
    assert_eq!(html, "<p>1 &lt; 2 <em>and</em> &quot;q&quot; A</p>\n");
    assert_eq!(preview, Some(String::from("1 < 2 and \"q\" A")));
    // A reference that cannot be resolved is kept as written.
    let (_, preview) = render_html("<p>a &nbsp; b</p>").unwrap();
    assert_eq!(preview, Some(String::from("a &nbsp; b")));
    assert_eq!(plain_text(b"a &amp; b"), "a & b");
    assert_eq!(plain_text(b"no reference"), "no reference");
    assert_eq!(plain_text(b"&bogus;"), "&bogus;");
    assert_eq!(plain_text(&[b'a', 0xff]), "a\u{fffd}");
}

#[test]
fn preview_text_has_its_references_resolved() {
    let events = vec![
        event(EventKind::Start, "p", "p"),
        event(EventKind::Text, "a &amp; b", ""),
        event(EventKind::End, "p", "p"),
        event(EventKind::Start, "p", "p"),
        event(EventKind::Text, "later", ""),
        event(EventKind::End, "p", "p"),
    ];
    let (html, preview) = postprocess(&events).unwrap();
    assert_eq!(html, "<p>a &amp; b</p><p>later</p>");
    assert_eq!(preview, Some(String::from("a & b")));
}

#[test]
fn an_unclosed_paragraph_gives_no_preview() {
    let events = vec![event(EventKind::Start, "p", "p"), event(EventKind::Text, "open", "")];
    let (html, preview) = postprocess(&events).unwrap();
    assert_eq!(html, "<p>open");
    assert_eq!(preview, None);
}

#[test]
fn output_that_is_not_text_is_an_encoding_error() {
    let events = vec![HtmlEvent {
        kind: EventKind::Text,
        content: vec![0xff],
        name: Vec::new(),
        attributes: Vec::new(),
    }];
    assert_eq!(postprocess(&events), Err(RenderError::Encoding));
}

#[test]
fn name_of_a_tag_is_its_first_word() {
    assert_eq!(name_len(b""), 0);
    assert_eq!(name_len(b"code"), 4);
    assert_eq!(name_len(b"p class=\"x\""), 1);
    assert_eq!(name_len(b"a\thref"), 1);
    assert_eq!(name_len(b"img\nsrc"), 3);
    assert_eq!(name_len(b"br\r"), 2);
    assert_eq!(name_len(b" x"), 0);
    // Other white space does not end a name.
    assert_eq!(name_len(b"a\x0cb c"), 3);
}

#[test]
fn an_event_gets_its_name_and_attributes_from_its_content() {
    let raw = |kind: EventKind, content: &str| RawEvent { kind, content: content.as_bytes().to_vec() };
    let start = HtmlEvent::from_raw(raw(EventKind::Start, "code class=\"language-math\" id='f'"));
    assert_eq!(start.kind, EventKind::Start);
    assert_eq!(start.content, b"code class=\"language-math\" id='f'".to_vec());
    assert_eq!(start.name, b"code".to_vec());
    assert_eq!(
        start.attributes,
        vec![class("language-math"), Attribute { key: b"id".to_vec(), value: b"f".to_vec() }]
    );
    let empty = HtmlEvent::from_raw(raw(EventKind::Empty, "br "));
    assert_eq!(empty.name, b"br".to_vec());
    assert_eq!(empty.attributes, Vec::new());
    let end = HtmlEvent::from_raw(raw(EventKind::End, "code"));
    assert_eq!(end, event(EventKind::End, "code", "code"));
    assert_eq!(HtmlEvent::from_raw(raw(EventKind::Text, "a b")), event(EventKind::Text, "a b", ""));
    assert_eq!(
        HtmlEvent::from_raw(raw(EventKind::Comment, "p class=\"x\"")),
        event(EventKind::Comment, "p class=\"x\"", "")
    );
    // An attribute that is malformed, or that comes a second time, is passed over.
    let odd = HtmlEvent::from_raw(raw(EventKind::Start, "p a=\"1\" b=2 a=\"3\" c=\"4\""));
    assert_eq!(
        odd.attributes,
        vec![
            Attribute { key: b"a".to_vec(), value: b"1".to_vec() },
            Attribute { key: b"c".to_vec(), value: b"4".to_vec() },
        ]
    );
    // Content that is no text has no attributes to read.
    let bytes = HtmlEvent::from_raw(RawEvent {
        kind: EventKind::Start,
        content: vec![b'p', b' ', b'a', b'=', b'"', 0xff, b'"'],
    });
    assert_eq!(bytes.name, b"p".to_vec());
    assert_eq!(bytes.attributes, Vec::new());
}

#[test]
fn names_and_attributes_of_the_events_of_a_document() {
    let events =
        read_events("<pre><code class=\"language-math math-display\">x</code ></pre><hr />")
            .unwrap();
    let names: Vec<&[u8]> = events.iter().map(|e| e.name.as_slice()).collect();
    let kinds: Vec<EventKind> = events.iter().map(|e| e.kind).collect();
    assert_eq!(
        kinds,
        vec![
            EventKind::Start,
            EventKind::Start,
            EventKind::Text,
            EventKind::End,
            EventKind::End,
            EventKind::Empty,
        ]
    );
    assert_eq!(names, vec![&b"pre"[..], b"code", b"", b"code", b"pre", b"hr"]);
    assert_eq!(events[1].attributes, vec![class("language-math math-display")]);
    assert_eq!(events[5].content, b"hr ".to_vec());
    assert_eq!(read_events("").unwrap(), Vec::new());
    assert_eq!(read_events("<!-- never closed"), Err(RenderError::Parse));
}
