//! Turning an article's markdown into HTML: the markdown pass, then a pass
//! over the HTML as a stream of events that typesets math and picks the
//! preview.

use vstd::prelude::*;
use quick_xml::events::Event;
use vstd::string::{StringExecFns, StringSliceAdditionalSpecFns};
use vstd::utf8::{decode_utf8, encode_utf8, valid_utf8};
use crate::text::{bytes_eq, contains, option_text, spec_contains};

verus! {

/// Trusted: `quick_xml::reader::Reader`, the reader of the event stream.
/// What it holds are the events that it is yet to hand out.
#[verifier::external_type_specification]
#[verifier::external_body]
#[verifier::reject_recursive_types(R)]
pub struct ExReader<R>(quick_xml::reader::Reader<R>);

/// Trusted: `markdown::message::Message`, the error of the markdown pass,
/// carried through as an opaque value.
#[verifier::external_type_specification]
#[verifier::external_body]
pub struct ExMarkdownMessage(markdown::message::Message);

/// Why an article could not be rendered.
#[derive(Debug, Clone, Copy, PartialEq, Eq, Structural)]
pub enum RenderError {
    /// The markdown pass reported an error.
    Markdown,
    /// The HTML could not be read as a stream of events.
    Parse,
    /// The finished page is not valid UTF-8.
    Encoding,
}

/// The kinds of event that the HTML stream is made of.
#[derive(Debug, Clone, Copy, PartialEq, Eq, Structural)]
pub enum EventKind {
    Start,
    End,
    Empty,
    Text,
    CData,
    Comment,
    Decl,
    PI,
    DocType,
    Eof,
}

/// One attribute of a tag, as the bytes found in the document.
#[derive(Debug, Clone, PartialEq, Eq)]
pub struct Attribute {
    pub key: Vec<u8>,
    pub value: Vec<u8>,
}

/// One event of the HTML stream, as plain bytes.
///
/// `content` is what stands between the event's delimiters; `name` is the
/// tag's name for `Start`, `Empty` and `End` and empty otherwise;
/// `attributes` are the well-formed attributes of a `Start` or `Empty` tag,
/// in document order.
#[derive(Debug, Clone, PartialEq, Eq)]
pub struct HtmlEvent {
    pub kind: EventKind,
    pub content: Vec<u8>,
    pub name: Vec<u8>,
    pub attributes: Vec<Attribute>,
}

/// Which markdown constructs are read and how permissive the output is, on
/// top of GitHub-Flavored Markdown.
#[derive(Debug, Clone, Copy, PartialEq, Eq, Structural)]
pub struct MarkdownConfig {
    pub math_flow: bool,
    pub math_text: bool,
    pub html_flow: bool,
    pub html_text: bool,
    pub frontmatter: bool,
    pub allow_dangerous_html: bool,
    pub allow_dangerous_protocol: bool,
}

impl MarkdownConfig {
    /// The configuration of an article: math and raw HTML, both inline and as
    /// blocks, a frontmatter block, and no filtering of HTML or of URL
    /// schemes, since the authors are trusted.
    pub open spec fn spec_article() -> MarkdownConfig {
        MarkdownConfig {
            math_flow: true,
            math_text: true,
            html_flow: true,
            html_text: true,
            frontmatter: true,
            allow_dangerous_html: true,
            allow_dangerous_protocol: true,
        }
    }

    /// The configuration of an article.
    pub fn article() -> (config: MarkdownConfig)
        ensures
            config == Self::spec_article(),
    {
        MarkdownConfig {
            math_flow: true,
            math_text: true,
            html_flow: true,
            html_text: true,
            frontmatter: true,
            allow_dangerous_html: true,
            allow_dangerous_protocol: true,
        }
    }
}

/// The HTML that the markdown pass makes of `source` under `config`, or
/// `None` where it reports an error.
pub uninterp spec fn spec_markdown_html(source: Seq<char>, config: MarkdownConfig) -> Option<
    Seq<char>,
>;

/// The HTML that the math typesetter makes of `latex`, as a block
/// (`display`) or inline, or `None` where it reports an error.
pub uninterp spec fn spec_math_html(latex: Seq<char>, display: bool) -> Option<Seq<char>>;

/// `text` with its character and entity references resolved, or `None`
/// where one of them is malformed or unknown.
pub uninterp spec fn spec_unescape(text: Seq<char>) -> Option<Seq<char>>;

/// The text that `bytes` decode to when every invalid sequence is replaced
/// by the replacement character.
pub uninterp spec fn spec_lossy_text(bytes: Seq<u8>) -> Seq<char>;

/// Runs the markdown pass.
///
/// Trusted: calls `markdown::to_html_with_options` with the GFM options and
/// the switches of `config` on top. The result is a function of the source
/// and the options alone; that function is named, not described.
#[verifier::external_body]
fn markdown_to_html(source: &str, config: &MarkdownConfig) -> (html: Result<
    String,
    markdown::message::Message,
>)
    ensures
        html is Ok <==> spec_markdown_html(source@, *config) is Some,
        html matches Ok(text) ==> spec_markdown_html(source@, *config) == Some(text@),
{
    let mut options = markdown::Options::gfm();
    options.parse.constructs.math_flow = config.math_flow;
    options.parse.constructs.math_text = config.math_text;
    options.parse.constructs.html_flow = config.html_flow;
    options.parse.constructs.html_text = config.html_text;
    options.parse.constructs.frontmatter = config.frontmatter;
    options.compile.allow_dangerous_html = config.allow_dangerous_html;
    options.compile.allow_dangerous_protocol = config.allow_dangerous_protocol;
    markdown::to_html_with_options(source, &options)
}

/// Typesets one formula.
///
/// Trusted: calls `katex::render_with_opts` with the display mode set as
/// given and every other option at its default. The result is a function of
/// the formula and the mode alone; that function is named, not described.
#[verifier::external_body]
fn math_html(latex: &str, display: bool) -> (html: Option<String>)
    ensures
        html is Some <==> spec_math_html(latex@, display) is Some,
        html matches Some(text) ==> spec_math_html(latex@, display) == Some(text@),
{
    let opts = katex::Opts::builder().display_mode(display).build().ok()?;
    katex::render_with_opts(latex, opts).ok()
}

/// Resolves the references in a piece of text.
///
/// Trusted: calls `quick_xml::escape::unescape`, which replaces character
/// references and the predefined entities and fails on any other. The
/// result is a function of the text alone and is named. A reference starts
/// with an ampersand, so text without one comes back as it is.
#[verifier::external_body]
fn unescape(text: &str) -> (plain: Option<String>)
    ensures
        plain is Some <==> spec_unescape(text@) is Some,
        plain matches Some(resolved) ==> spec_unescape(text@) == Some(resolved@),
        !text@.contains('&') ==> option_text(plain) == Some(text@),
{
    quick_xml::escape::unescape(text).ok().map(|resolved| resolved.into_owned())
}

/// Reads bytes as UTF-8 text.
///
/// Trusted: calls `std::str::from_utf8`, which succeeds exactly on valid
/// UTF-8 and then hands back the same bytes as a string.
#[verifier::external_body]
fn utf8_text(bytes: &[u8]) -> (text: Option<&str>)
    ensures
        text is Some <==> valid_utf8(bytes@),
        text matches Some(s) ==> s.spec_bytes() == bytes@ && s@ == decode_utf8(bytes@),
{
    std::str::from_utf8(bytes).ok()
}

/// Decodes bytes as UTF-8 text, replacing what is not valid.
///
/// Trusted: calls `String::from_utf8_lossy`. The result is a function of
/// the bytes alone and is named.
#[verifier::external_body]
fn lossy_text(bytes: &[u8]) -> (text: String)
    ensures
        text@ == spec_lossy_text(bytes@),
{
    String::from_utf8_lossy(bytes).into_owned()
}

/// Turns bytes into a string.
///
/// Trusted: calls `String::from_utf8`, which succeeds exactly on valid UTF-8
/// and then owns the same bytes.
#[verifier::external_body]
fn string_from_utf8(bytes: Vec<u8>) -> (text: Option<String>)
    ensures
        text is Some <==> valid_utf8(bytes@),
        text matches Some(s) ==> s@ == decode_utf8(bytes@),
{
    String::from_utf8(bytes).ok()
}

/// An event as the reader hands it out: its kind and the bytes between its
/// delimiters.
#[derive(Debug, Clone, PartialEq, Eq)]
pub struct RawEvent {
    pub kind: EventKind,
    pub content: Vec<u8>,
}

/// What one reading gives: the kind and the content of an event, or `None`
/// where the reader gave up.
pub open spec fn raw_view(event: Option<RawEvent>) -> Option<(EventKind, Seq<u8>)> {
    match event {
        Some(raw) => Some((raw.kind, raw.content@)),
        None => None,
    }
}

/// The events that a reader is yet to hand out: what reading gives, call
/// after call, up to and including the end of the document or the failure
/// at which reading stops.
pub uninterp spec fn reader_pending(reader: quick_xml::reader::Reader<&[u8]>) -> Seq<
    Option<(EventKind, Seq<u8>)>,
>;

/// The events of a document: what a reader over it hands out, call after
/// call, up to and including the end of the document or the failure at
/// which reading stops. `check_end_names` says whether a closing tag has to
/// name the element that is open, `allow_unmatched_ends` whether a closing
/// tag may come with no element open.
pub uninterp spec fn spec_events(
    html: Seq<char>,
    check_end_names: bool,
    allow_unmatched_ends: bool,
) -> Seq<Option<(EventKind, Seq<u8>)>>;

/// The attributes that can be read in the content of a tag whose name ends
/// at `name_len`, each as its key and its raw value, in document order.
pub uninterp spec fn spec_tag_attributes(content: Seq<char>, name_len: nat) -> Seq<
    (Seq<u8>, Seq<u8>),
>;

/// Whether what a reading gave is an event of the document, and neither its
/// end nor a failure.
pub open spec fn spec_is_event(item: Option<(EventKind, Seq<u8>)>) -> bool {
    match item {
        Some(pair) => pair.0 != EventKind::Eof,
        None => false,
    }
}

/// Whether `item` is the first of the pending events.
pub open spec fn spec_is_next(
    pending: Seq<Option<(EventKind, Seq<u8>)>>,
    item: Option<(EventKind, Seq<u8>)>,
) -> bool {
    pending.len() > 0 && pending[0] == item
}

/// Starts reading `html` as a stream of events.
///
/// Trusted: calls `quick_xml::reader::Reader::from_str` and sets, in the
/// reader's configuration, whether a closing tag has to name the element
/// that is open and whether a closing tag may come with no element open.
/// What the reader will hand out is a function of the document and the two
/// switches alone; that function is named, not described.
#[verifier::external_body]
fn open_reader<'a>(
    html: &'a str,
    check_end_names: bool,
    allow_unmatched_ends: bool,
) -> (reader: quick_xml::reader::Reader<&'a [u8]>)
    ensures
        reader_pending(reader) == spec_events(html@, check_end_names, allow_unmatched_ends),
{
    let mut reader = quick_xml::reader::Reader::from_str(html);
    reader.config_mut().check_end_names = check_end_names;
    reader.config_mut().allow_unmatched_ends = allow_unmatched_ends;
    reader
}

/// Reads the next event: its kind and a copy of its content, or `None`
/// where the reader gives up.
///
/// Trusted: calls `Reader::read_event`, tells the variants of
/// `quick_xml::events::Event` apart and copies what the event dereferences
/// to. What comes back is the first of the pending events. After an event
/// of the document the rest is pending; the end of the document and a
/// failure are the last that was pending.
#[verifier::external_body]
fn next_event(reader: &mut quick_xml::reader::Reader<&[u8]>) -> (event: Option<RawEvent>)
    ensures
        spec_is_next(reader_pending(*old(reader)), raw_view(event)),
        spec_is_event(raw_view(event)) ==> reader_pending(*final(reader)) == reader_pending(
            *old(reader),
        ).drop_first(),
        !spec_is_event(raw_view(event)) ==> reader_pending(*old(reader)).len() == 1,
{
    let event = reader.read_event().ok()?;
    let kind = match event {
        Event::Start(_) => EventKind::Start,
        Event::End(_) => EventKind::End,
        Event::Empty(_) => EventKind::Empty,
        Event::Text(_) => EventKind::Text,
        Event::CData(_) => EventKind::CData,
        Event::Comment(_) => EventKind::Comment,
        Event::Decl(_) => EventKind::Decl,
        Event::PI(_) => EventKind::PI,
        Event::DocType(_) => EventKind::DocType,
        Event::Eof => EventKind::Eof,
    };
    Some(RawEvent { kind, content: event.to_vec() })
}

/// The attributes of a tag that can be read, in document order.
///
/// Trusted: makes a tag of the content with
/// `quick_xml::events::BytesStart::from_content`, walks its `attributes`,
/// passing over the malformed ones, and copies the key and the raw value
/// of each. They are a function of the content and of where the name ends
/// alone; that function is named, not described.
#[verifier::external_body]
fn tag_attributes(content: &str, name_len: usize) -> (attributes: Vec<Attribute>)
    requires
        name_len <= content.spec_bytes().len(),
    ensures
        attributes_view(attributes@) == spec_tag_attributes(content@, name_len as nat),
{
    quick_xml::events::BytesStart::from_content(content, name_len)
        .attributes()
        .flatten()
        .map(|a| Attribute { key: a.key.0.to_vec(), value: a.value.to_vec() })
        .collect()
}

/// The keys and the raw values of a list of attributes.
pub open spec fn attributes_view(attributes: Seq<Attribute>) -> Seq<(Seq<u8>, Seq<u8>)> {
    attributes.map_values(|attribute: Attribute| (attribute.key@, attribute.value@))
}

/// Whether a byte is white space in a tag: a blank, a tab, a line feed or a
/// carriage return.
pub open spec fn spec_is_tag_space(byte: u8) -> bool {
    byte == 0x20 || byte == 0x09 || byte == 0x0a || byte == 0x0d
}

/// Where the name of a tag ends in its content: at the first white space,
/// or at the end of the content where there is none.
pub open spec fn spec_name_len(content: Seq<u8>) -> nat
    decreases content.len(),
{
    if content.len() == 0 || spec_is_tag_space(content[0]) {
        0
    } else {
        1 + spec_name_len(content.drop_first())
    }
}

/// The name of an event: the first word of the content of an opening tag,
/// the content of a closing tag, and nothing for an event that is no tag.
pub open spec fn spec_event_name(kind: EventKind, content: Seq<u8>) -> Seq<u8> {
    match kind {
        EventKind::Start | EventKind::Empty => content.take(spec_name_len(content) as int),
        EventKind::End => content,
        _ => Seq::empty(),
    }
}

/// The attributes of an event: those that can be read in an opening tag
/// whose content is text, and none for any other event.
pub open spec fn spec_event_attributes(kind: EventKind, content: Seq<u8>) -> Seq<
    (Seq<u8>, Seq<u8>),
> {
    if (kind == EventKind::Start || kind == EventKind::Empty) && valid_utf8(content) {
        spec_tag_attributes(decode_utf8(content), spec_name_len(content))
    } else {
        Seq::empty()
    }
}

/// Whether an event is the one that the reader handed out with this kind
/// and this content: it has that kind and content, and the name and the
/// attributes that go with them.
pub open spec fn spec_describes(event: HtmlEvent, item: Option<(EventKind, Seq<u8>)>) -> bool {
    match item {
        Some(pair) => {
            &&& event.kind == pair.0
            &&& event.content@ == pair.1
            &&& event.name@ == spec_event_name(pair.0, pair.1)
            &&& attributes_view(event.attributes@) == spec_event_attributes(pair.0, pair.1)
        },
        None => false,
    }
}

/// Whether a list of events is what reading a document gave: the document
/// was read to its end, and the list holds its events, the end left out.
pub open spec fn spec_read(events: Seq<HtmlEvent>, items: Seq<Option<(EventKind, Seq<u8>)>>)
    -> bool {
    &&& items.len() == events.len() + 1
    &&& items.last() is Some
    &&& forall|i: int| 0 <= i < events.len() ==> spec_describes(#[trigger] events[i], items[i])
}

/// The name of a tag ends at `at` if no white space stands before `at` and
/// white space stands at `at` or the content ends there.
pub proof fn lemma_name_len_is(content: Seq<u8>, at: nat)
    requires
        at <= content.len(),
        forall|i: int| 0 <= i < at ==> !spec_is_tag_space(#[trigger] content[i]),
        at < content.len() ==> spec_is_tag_space(content[at as int]),
    ensures
        spec_name_len(content) == at,
    decreases content.len(),
{
    if at > 0 {
        let rest = content.drop_first();
        assert forall|i: int| 0 <= i < at - 1 implies !spec_is_tag_space(#[trigger] rest[i]) by {
            assert(rest[i] == content[i + 1]);
        }
        lemma_name_len_is(rest, (at - 1) as nat);
    }
}

/// Where the name of a tag ends in its content.
pub fn name_len(content: &[u8]) -> (at: usize)
    ensures
        at == spec_name_len(content@),
        at <= content@.len(),
{
    let mut at: usize = 0;
    while at < content.len() && !(content[at] == 0x20 || content[at] == 0x09 || content[at] == 0x0a
        || content[at] == 0x0d)
        invariant
            at <= content@.len(),
            forall|i: int| 0 <= i < at ==> !spec_is_tag_space(#[trigger] content@[i]),
        decreases content.len() - at,
    {
        at += 1;
    }
    proof {
        lemma_name_len_is(content@, at as nat);
    }
    at
}

impl HtmlEvent {
    /// The event that the reader handed out with this kind and content,
    /// with its name and its attributes.
    pub fn from_raw(raw: RawEvent) -> (event: HtmlEvent)
        ensures
            spec_describes(event, raw_view(Some(raw))),
    {
        let opening = raw.kind == EventKind::Start || raw.kind == EventKind::Empty;
        let name: Vec<u8> = if opening {
            let end = name_len(raw.content.as_slice());
            vstd::slice::slice_to_vec(vstd::slice::slice_subrange(raw.content.as_slice(), 0, end))
        } else if raw.kind == EventKind::End {
            vstd::slice::slice_to_vec(raw.content.as_slice())
        } else {
            Vec::new()
        };
        let attributes: Vec<Attribute> = if opening {
            match utf8_text(raw.content.as_slice()) {
                Some(text) => tag_attributes(text, name_len(raw.content.as_slice())),
                None => Vec::new(),
            }
        } else {
            Vec::new()
        };
        proof {
            assert(name@ =~= spec_event_name(raw.kind, raw.content@));
            assert(attributes_view(attributes@) =~= spec_event_attributes(raw.kind, raw.content@));
        }
        HtmlEvent { kind: raw.kind, content: raw.content, name, attributes }
    }
}

/// Reads `html` into its events, up to the end of the document. The final
/// end-of-document event is left out.
///
/// Tags that do not match are let through, as raw HTML in an article may
/// hold them. The result is the events of the document, each with its name
/// and its attributes, where the reader reaches the end of the document,
/// and an error where it gives up before.
pub fn read_events(html: &str) -> (events: Result<Vec<HtmlEvent>, RenderError>)
    ensures
        events is Ok <==> spec_events(html@, false, true).len() > 0 && spec_events(
            html@,
            false,
            true,
        ).last() is Some,
        events matches Ok(list) ==> spec_read(list@, spec_events(html@, false, true)),
        events matches Err(error) ==> error == RenderError::Parse,
        events matches Ok(list) ==> forall|i: int|
            0 <= i < list.len() ==> (#[trigger] list[i]).kind != EventKind::Eof,
{
    let mut reader = open_reader(html, false, true);
    let ghost items = spec_events(html@, false, true);
    let mut list: Vec<HtmlEvent> = Vec::new();
    assert(items.skip(0) =~= items);
    loop
        invariant
            items == spec_events(html@, false, true),
            list.len() <= items.len(),
            reader_pending(reader) == items.skip(list.len() as int),
            forall|i: int|
                0 <= i < list.len() ==> spec_is_event(#[trigger] items[i]) && spec_describes(
                    list[i],
                    items[i],
                ),
        decreases items.len() - list.len(),
    {
        let ghost pending = reader_pending(reader);
        let ghost at = list.len() as int;
        match next_event(&mut reader) {
            None => {
                assert(pending.len() == 1);
                assert(items.last() == pending[0]);
                return Err(RenderError::Parse);
            },
            Some(raw) => {
                assert(pending[0] == items[at]);
                if raw.kind == EventKind::Eof {
                    assert(pending.len() == 1);
                    assert(items.last() == items[at]);
                    assert forall|i: int| 0 <= i < list.len() implies (#[trigger] list[i]).kind
                        != EventKind::Eof by {
                        assert(spec_is_event(items[i]));
                    }
                    return Ok(list);
                }
                let event = HtmlEvent::from_raw(raw);
                list.push(event);
                assert(pending.drop_first() =~= items.skip(at + 1));
            },
        }
    }
}

/// What the pass over the events has gathered so far.
pub struct RenderState {
    /// Inside a math `<code>` element: whether it is a block.
    pub math_display: Option<bool>,
    /// The formula gathered inside the current math element.
    pub math_content: String,
    /// The text of the first paragraph, once it has been closed.
    pub preview: Option<String>,
    /// The text of the first paragraph while it is still open.
    pub preview_buffer: Option<String>,
    /// The page written so far.
    pub output: Vec<u8>,
}

/// The mathematical content of a [`RenderState`].
#[verifier::ext_equal]
pub struct RenderStateView {
    pub math_display: Option<bool>,
    pub math_content: Seq<char>,
    pub preview: Option<Seq<char>>,
    pub preview_buffer: Option<Seq<char>>,
    pub output: Seq<u8>,
}

impl View for RenderState {
    type V = RenderStateView;

    open spec fn view(&self) -> RenderStateView {
        RenderStateView {
            math_display: self.math_display,
            math_content: self.math_content@,
            preview: option_text(self.preview),
            preview_buffer: option_text(self.preview_buffer),
            output: self.output@,
        }
    }
}

/// The state before the first event.
pub open spec fn spec_initial() -> RenderStateView {
    RenderStateView {
        math_display: None,
        math_content: Seq::empty(),
        preview: None,
        preview_buffer: None,
        output: Seq::empty(),
    }
}

/// Whether an opening `<code>` tag with these attributes starts a formula,
/// and if so whether the formula is a block.
///
/// The first `class` attribute whose value is text that mentions
/// `language-math` decides; the formula is a block if that value also
/// mentions `math-display`.
pub open spec fn spec_math_class(attributes: Seq<(Seq<u8>, Seq<u8>)>) -> Option<bool>
    decreases attributes.len(),
{
    if attributes.len() == 0 {
        None
    } else {
        let (key, value) = attributes[0];
        if key == "class".spec_bytes() && valid_utf8(value) && spec_contains(
            value,
            "language-math".spec_bytes(),
        ) {
            Some(spec_contains(value, "math-display".spec_bytes()))
        } else {
            spec_math_class(attributes.drop_first())
        }
    }
}

/// The bytes that an event stands for in a document: its content between
/// the delimiters of its kind.
pub open spec fn spec_event_bytes(kind: EventKind, content: Seq<u8>) -> Seq<u8> {
    match kind {
        EventKind::Start => "<".spec_bytes() + content + ">".spec_bytes(),
        EventKind::End => "</".spec_bytes() + content + ">".spec_bytes(),
        EventKind::Empty => "<".spec_bytes() + content + "/>".spec_bytes(),
        EventKind::Text => content,
        EventKind::CData => "<![CDATA[".spec_bytes() + content + "]]>".spec_bytes(),
        EventKind::Comment => "<!--".spec_bytes() + content + "-->".spec_bytes(),
        EventKind::Decl => "<?".spec_bytes() + content + "?>".spec_bytes(),
        EventKind::PI => "<?".spec_bytes() + content + "?>".spec_bytes(),
        EventKind::DocType => "<!DOCTYPE ".spec_bytes() + content + ">".spec_bytes(),
        EventKind::Eof => Seq::empty(),
    }
}

/// The plain text of a text event: the text that its content encodes, with
/// the references resolved. Text without an ampersand holds no reference
/// and is plain as it is; text with a reference that cannot be resolved is
/// kept as written. Content that is not valid UTF-8 is decoded with
/// replacement.
pub open spec fn spec_plain_text(content: Seq<u8>) -> Seq<char> {
    if valid_utf8(content) {
        let text = decode_utf8(content);
        if text.contains('&') {
            match spec_unescape(text) {
                Some(plain) => plain,
                None => text,
            }
        } else {
            text
        }
    } else {
        spec_lossy_text(content)
    }
}

/// The plain text of content that encodes a text: the text itself where it
/// holds no ampersand, and else the text with its references resolved, or
/// as written where one of them cannot be resolved.
pub proof fn lemma_plain_text_of_text(text: Seq<char>)
    ensures
        spec_plain_text(encode_utf8(text)) == if text.contains('&') {
            match spec_unescape(text) {
                Some(plain) => plain,
                None => text,
            }
        } else {
            text
        },
{
    vstd::utf8::encode_utf8_valid_utf8(text);
    vstd::utf8::encode_utf8_decode_utf8(text);
}

/// What is written in place of a formula: the typeset HTML, or the formula
/// itself where the typesetter fails.
pub open spec fn spec_typeset(latex: Seq<char>, display: bool) -> Seq<char> {
    match spec_math_html(latex, display) {
        Some(html) => html,
        None => latex,
    }
}

/// The state after one more event.
pub open spec fn spec_step(state: RenderStateView, event: HtmlEvent) -> RenderStateView {
    spec_step_on(
        state,
        event.kind,
        event.content@,
        event.name@,
        attributes_view(event.attributes@),
    )
}

/// The state after one more event, given by its kind, its content, its
/// name and its attributes.
pub open spec fn spec_step_on(
    state: RenderStateView,
    kind: EventKind,
    content: Seq<u8>,
    name: Seq<u8>,
    attributes: Seq<(Seq<u8>, Seq<u8>)>,
) -> RenderStateView {
    let written = state.output + spec_event_bytes(kind, content);
    match kind {
        EventKind::Start => {
            if name == "code".spec_bytes() {
                match spec_math_class(attributes) {
                    Some(display) => RenderStateView {
                        math_display: Some(display),
                        math_content: Seq::empty(),
                        output: written,
                        ..state
                    },
                    None => RenderStateView { output: written, ..state },
                }
            } else if state.preview_buffer is None && state.preview is None && name
                == "p".spec_bytes() {
                RenderStateView { preview_buffer: Some(Seq::empty()), output: written, ..state }
            } else {
                RenderStateView { output: written, ..state }
            }
        },
        EventKind::End => {
            if name == "code".spec_bytes() {
                match state.math_display {
                    Some(display) => RenderStateView {
                        math_display: None,
                        math_content: Seq::empty(),
                        output: state.output + encode_utf8(
                            spec_typeset(state.math_content, display),
                        ) + spec_event_bytes(kind, content),
                        ..state
                    },
                    None => RenderStateView { output: written, ..state },
                }
            } else if name == "p".spec_bytes() && state.preview_buffer is Some {
                RenderStateView {
                    preview: state.preview_buffer,
                    preview_buffer: None,
                    output: written,
                    ..state
                }
            } else {
                RenderStateView { output: written, ..state }
            }
        },
        EventKind::Text => {
            if state.math_display is Some {
                RenderStateView {
                    math_content: state.math_content + spec_plain_text(content),
                    ..state
                }
            } else {
                match state.preview_buffer {
                    Some(buffer) => RenderStateView {
                        preview_buffer: Some(buffer + spec_plain_text(content)),
                        output: written,
                        ..state
                    },
                    None => RenderStateView { output: written, ..state },
                }
            }
        },
        _ => RenderStateView { output: written, ..state },
    }
}

/// The state after all of `events`, in order, starting from the initial
/// state.
pub open spec fn spec_run(events: Seq<HtmlEvent>) -> RenderStateView
    decreases events.len(),
{
    if events.len() == 0 {
        spec_initial()
    } else {
        spec_step(spec_run(events.drop_last()), events.last())
    }
}

/// The page and the preview that a final state stands for: the output read
/// as UTF-8 and the first paragraph that was closed. `None` where the
/// output is not valid UTF-8.
pub open spec fn spec_finish(state: RenderStateView) -> Option<(Seq<char>, Option<Seq<char>>)> {
    if valid_utf8(state.output) {
        Some((decode_utf8(state.output), state.preview))
    } else {
        None
    }
}

/// Whether a `<code>` tag with these attributes starts a formula, and if so
/// whether the formula is a block.
pub fn math_class(attributes: &Vec<Attribute>) -> (class: Option<bool>)
    ensures
        class == spec_math_class(attributes_view(attributes@)),
{
    let ghost pairs = attributes_view(attributes@);
    let mut i: usize = 0;
    assert(pairs.skip(0) =~= pairs);
    while i < attributes.len()
        invariant
            i <= attributes.len(),
            pairs == attributes_view(attributes@),
            spec_math_class(pairs) == spec_math_class(pairs.skip(i as int)),
        decreases attributes.len() - i,
    {
        let attribute = &attributes[i];
        proof {
            let rest = pairs.skip(i as int);
            assert(rest[0] == (attributes@[i as int].key@, attributes@[i as int].value@));
            assert(rest.drop_first() =~= pairs.skip(i + 1));
        }
        if bytes_eq(attribute.key.as_slice(), "class".as_bytes()) {
            if utf8_text(attribute.value.as_slice()).is_some() {
                if contains(attribute.value.as_slice(), "language-math".as_bytes()) {
                    return Some(contains(attribute.value.as_slice(), "math-display".as_bytes()));
                }
            }
        }
        i += 1;
    }
    assert(pairs.skip(i as int).len() == 0);
    None
}

/// Appends to `output` the bytes that an event stands for.
pub fn write_event(output: &mut Vec<u8>, kind: EventKind, content: &[u8])
    ensures
        final(output)@ == old(output)@ + spec_event_bytes(kind, content@),
{
    match kind {
        EventKind::Start => {
            output.extend_from_slice("<".as_bytes());
            output.extend_from_slice(content);
            output.extend_from_slice(">".as_bytes());
        },
        EventKind::End => {
            output.extend_from_slice("</".as_bytes());
            output.extend_from_slice(content);
            output.extend_from_slice(">".as_bytes());
        },
        EventKind::Empty => {
            output.extend_from_slice("<".as_bytes());
            output.extend_from_slice(content);
            output.extend_from_slice("/>".as_bytes());
        },
        EventKind::Text => {
            output.extend_from_slice(content);
        },
        EventKind::CData => {
            output.extend_from_slice("<![CDATA[".as_bytes());
            output.extend_from_slice(content);
            output.extend_from_slice("]]>".as_bytes());
        },
        EventKind::Comment => {
            output.extend_from_slice("<!--".as_bytes());
            output.extend_from_slice(content);
            output.extend_from_slice("-->".as_bytes());
        },
        EventKind::Decl => {
            output.extend_from_slice("<?".as_bytes());
            output.extend_from_slice(content);
            output.extend_from_slice("?>".as_bytes());
        },
        EventKind::PI => {
            output.extend_from_slice("<?".as_bytes());
            output.extend_from_slice(content);
            output.extend_from_slice("?>".as_bytes());
        },
        EventKind::DocType => {
            output.extend_from_slice("<!DOCTYPE ".as_bytes());
            output.extend_from_slice(content);
            output.extend_from_slice(">".as_bytes());
        },
        EventKind::Eof => {},
    }
    assert(final(output)@ =~= old(output)@ + spec_event_bytes(kind, content@));
}

/// The plain text of a text event.
pub fn plain_text(content: &[u8]) -> (text: String)
    ensures
        text@ == spec_plain_text(content@),
{
    match utf8_text(content) {
        Some(escaped) => match unescape(escaped) {
            Some(plain) => plain,
            None => String::from_str(escaped),
        },
        None => lossy_text(content),
    }
}

/// What is written in place of a formula.
fn typeset(latex: &str, display: bool) -> (html: String)
    ensures
        html@ == spec_typeset(latex@, display),
{
    match math_html(latex, display) {
        Some(html) => html,
        None => String::from_str(latex),
    }
}

impl RenderState {
    /// The state before the first event.
    pub fn new() -> (state: RenderState)
        ensures
            state@ == spec_initial(),
    {
        RenderState {
            math_display: None,
            math_content: String::new(),
            preview: None,
            preview_buffer: None,
            output: Vec::new(),
        }
    }

    /// Takes one event in.
    ///
    /// An opening math `<code>` starts a formula; text inside it is gathered
    /// and not written; the closing `</code>` writes the typeset formula in
    /// its place. The first `<p>` gathers its text as the preview. Everything
    /// else is written as it came.
    pub fn step(&mut self, event: &HtmlEvent)
        ensures
            final(self)@ == spec_step(old(self)@, *event),
    {
        match event.kind {
            EventKind::Start => {
                if bytes_eq(event.name.as_slice(), "code".as_bytes()) {
                    match math_class(&event.attributes) {
                        Some(display) => {
                            self.math_display = Some(display);
                            self.math_content = String::new();
                        },
                        None => {},
                    }
                } else if self.preview_buffer.is_none() && self.preview.is_none() && bytes_eq(
                    event.name.as_slice(),
                    "p".as_bytes(),
                ) {
                    self.preview_buffer = Some(String::new());
                }
                write_event(&mut self.output, event.kind, event.content.as_slice());
            },
            EventKind::End => {
                if bytes_eq(event.name.as_slice(), "code".as_bytes()) {
                    match self.math_display {
                        Some(display) => {
                            let html = typeset(self.math_content.as_str(), display);
                            self.output.extend_from_slice(html.as_str().as_bytes());
                            self.math_display = None;
                            self.math_content = String::new();
                        },
                        None => {},
                    }
                } else if bytes_eq(event.name.as_slice(), "p".as_bytes()) {
                    match self.preview_buffer.take() {
                        Some(buffer) => {
                            self.preview = Some(buffer);
                        },
                        None => {},
                    }
                }
                write_event(&mut self.output, event.kind, event.content.as_slice());
            },
            EventKind::Text => {
                if self.math_display.is_some() {
                    let text = plain_text(event.content.as_slice());
                    self.math_content.append(text.as_str());
                } else {
                    match self.preview_buffer.take() {
                        Some(buffer) => {
                            let text = plain_text(event.content.as_slice());
                            self.preview_buffer = Some(buffer.concat(text.as_str()));
                        },
                        None => {},
                    }
                    write_event(&mut self.output, event.kind, event.content.as_slice());
                }
            },
            _ => {
                write_event(&mut self.output, event.kind, event.content.as_slice());
            },
        }
        assert(self@ =~= spec_step(old(self)@, *event));
    }

    /// The page and the preview, once every event has been taken in.
    pub fn finish(self) -> (page: Result<(String, Option<String>), RenderError>)
        ensures
            page is Ok <==> spec_finish(self@) is Some,
            page matches Ok((html, preview)) ==> spec_finish(self@) == Some(
                (html@, option_text(preview)),
            ),
            page matches Err(error) ==> error == RenderError::Encoding,
    {
        match string_from_utf8(self.output) {
            Some(html) => Ok((html, self.preview)),
            None => Err(RenderError::Encoding),
        }
    }
}

/// Runs the pass over a list of events: typesets the formulas, picks the
/// preview and writes the page.
pub fn postprocess(events: &Vec<HtmlEvent>) -> (page: Result<
    (String, Option<String>),
    RenderError,
>)
    ensures
        page is Ok <==> spec_finish(spec_run(events@)) is Some,
        page matches Ok((html, preview)) ==> spec_finish(spec_run(events@)) == Some(
            (html@, option_text(preview)),
        ),
        page matches Err(error) ==> error == RenderError::Encoding,
{
    let mut state = RenderState::new();
    let mut i: usize = 0;
    assert(events@.take(0) =~= Seq::empty());
    while i < events.len()
        invariant
            i <= events.len(),
            state@ == spec_run(events@.take(i as int)),
        decreases events.len() - i,
    {
        proof {
            let prefix = events@.take(i + 1);
            assert(prefix.drop_last() =~= events@.take(i as int));
            assert(prefix.last() == events@[i as int]);
        }
        state.step(&events[i]);
        i += 1;
    }
    assert(events@.take(i as int) =~= events@);
    state.finish()
}

/// The state after what the reader handed out, in order, starting from the
/// initial state: each item is taken in as the event with its kind and
/// content and the name and attributes that go with them.
pub open spec fn spec_run_items(items: Seq<Option<(EventKind, Seq<u8>)>>) -> RenderStateView
    decreases items.len(),
{
    if items.len() == 0 {
        spec_initial()
    } else {
        let before = spec_run_items(items.drop_last());
        match items.last() {
            Some(pair) => spec_step_on(
                before,
                pair.0,
                pair.1,
                spec_event_name(pair.0, pair.1),
                spec_event_attributes(pair.0, pair.1),
            ),
            None => before,
        }
    }
}

/// The page and the preview of an HTML document: `Parse` where the reader
/// does not reach the end of the document; else what the pass over its
/// events, the end left out, writes and picks, or `Encoding` where what it
/// writes is not valid UTF-8.
pub open spec fn spec_page_of(html: Seq<char>) -> Result<
    (Seq<char>, Option<Seq<char>>),
    RenderError,
> {
    let items = spec_events(html, false, true);
    if items.len() > 0 && items.last() is Some {
        match spec_finish(spec_run_items(items.drop_last())) {
            Some(page) => Ok(page),
            None => Err(RenderError::Encoding),
        }
    } else {
        Err(RenderError::Parse)
    }
}

/// The page and the preview of an article: `Markdown` where the markdown
/// pass fails, else the page of the HTML that it makes.
pub open spec fn spec_render(md: Seq<char>) -> Result<(Seq<char>, Option<Seq<char>>), RenderError> {
    match spec_markdown_html(md, MarkdownConfig::spec_article()) {
        Some(html) => spec_page_of(html),
        None => Err(RenderError::Markdown),
    }
}

/// The mathematical content of the result of rendering.
pub open spec fn page_view(page: Result<(String, Option<String>), RenderError>) -> Result<
    (Seq<char>, Option<Seq<char>>),
    RenderError,
> {
    match page {
        Ok((text, preview)) => Ok((text@, option_text(preview))),
        Err(error) => Err(error),
    }
}

/// The pass over a list of events ends in the state that the items they
/// describe lead to: only the kind, the content, the name and the
/// attributes of an event count.
pub proof fn lemma_run_of_described(
    events: Seq<HtmlEvent>,
    items: Seq<Option<(EventKind, Seq<u8>)>>,
)
    requires
        items.len() == events.len(),
        forall|i: int| 0 <= i < events.len() ==> spec_describes(#[trigger] events[i], items[i]),
    ensures
        spec_run(events) == spec_run_items(items),
    decreases events.len(),
{
    if events.len() > 0 {
        let shorter = events.drop_last();
        let fewer = items.drop_last();
        assert forall|i: int| 0 <= i < shorter.len() implies spec_describes(
            #[trigger] shorter[i],
            fewer[i],
        ) by {
            assert(shorter[i] == events[i]);
            assert(spec_describes(events[i], items[i]));
        }
        lemma_run_of_described(shorter, fewer);
        assert(spec_describes(events[events.len() - 1], items[events.len() - 1]));
    }
}

/// Typesets the formulas of an HTML page and picks its preview.
pub fn render_html(html: &str) -> (page: Result<(String, Option<String>), RenderError>)
    ensures
        page_view(page) == spec_page_of(html@),
{
    match read_events(html) {
        Ok(events) => {
            proof {
                let items = spec_events(html@, false, true);
                assert(items.drop_last().len() == events@.len());
                assert forall|i: int| 0 <= i < events@.len() implies spec_describes(
                    #[trigger] events@[i],
                    items.drop_last()[i],
                ) by {
                    assert(spec_describes(events@[i], items[i]));
                }
                lemma_run_of_described(events@, items.drop_last());
            }
            postprocess(&events)
        },
        Err(error) => Err(error),
    }
}

/// Renders an article: the HTML of its body and, where it has a paragraph,
/// the text of the first one as a preview.
///
/// The frontmatter block at the head of the source is read and left out by
/// the markdown pass.
pub fn render(md: &str) -> (page: Result<(String, Option<String>), RenderError>)
    ensures
        page_view(page) == spec_render(md@),
{
    let config = MarkdownConfig::article();
    match markdown_to_html(md, &config) {
        Ok(html) => render_html(html.as_str()),
        Err(_) => Err(RenderError::Markdown),
    }
}

} // verus!
