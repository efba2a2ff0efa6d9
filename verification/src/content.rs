//! Page bodies: Markdown checked against the supported subset and rendered
//! to Confluence storage HTML by pulldown-cmark, or storage XML passed through.
use vstd::prelude::*;
use crate::error::{AppError, ErrorCode};
use crate::text::{
    ascii_lower, chars_of, has_prefix, is_whitespace, lemma_trim_idempotent, lemma_trim_shape,
    lower_chars, owned, push_str, starts_with, trim, trim_chars, trim_str,
};
use pulldown_cmark::{Event, Options, Parser, Tag, TagEnd};

verus! {

broadcast use vstd::string::group_string_axioms;

/// What the conversion reads from one pulldown-cmark event.
#[derive(Debug)]
pub enum MdEvent {
    /// The start of an image.
    StartImage,
    /// The start of a link, with its destination.
    StartLink(String),
    /// The start of a heading.
    StartHeading,
    /// The end of a heading.
    EndHeading,
    /// A text node.
    Text(String),
    /// An inline code node.
    Code(String),
    /// A block of raw HTML.
    Html,
    /// Inline raw HTML.
    InlineHtml,
    /// Any other event.
    Other,
}

/// The value of an [`MdEvent`].
pub enum MdEventView {
    StartImage,
    StartLink(Seq<char>),
    StartHeading,
    EndHeading,
    Text(Seq<char>),
    Code(Seq<char>),
    Html,
    InlineHtml,
    Other,
}

impl View for MdEvent {
    type V = MdEventView;

    open spec fn view(&self) -> MdEventView {
        match self {
            MdEvent::StartImage => MdEventView::StartImage,
            MdEvent::StartLink(d) => MdEventView::StartLink(d@),
            MdEvent::StartHeading => MdEventView::StartHeading,
            MdEvent::EndHeading => MdEventView::EndHeading,
            MdEvent::Text(t) => MdEventView::Text(t@),
            MdEvent::Code(t) => MdEventView::Code(t@),
            MdEvent::Html => MdEventView::Html,
            MdEvent::InlineHtml => MdEventView::InlineHtml,
            MdEvent::Other => MdEventView::Other,
        }
    }
}

/// The values of a list of events.
pub open spec fn events_view(events: Seq<MdEvent>) -> Seq<MdEventView> {
    events.map_values(|e: MdEvent| e@)
}

/// The Markdown extensions that the parser enables.
#[derive(Debug, Clone, Copy, PartialEq, Eq, Structural)]
pub struct ParserOptions {
    pub tables: bool,
    pub strikethrough: bool,
}

/// The event stream that pulldown-cmark produces for `markdown` with the
/// given extensions, as the conversion reads it.
pub uninterp spec fn cmark_events(markdown: Seq<char>, tables: bool, strikethrough: bool) -> Seq<
    MdEventView,
>;

/// The HTML that pulldown-cmark renders for `markdown` with the given extensions.
pub uninterp spec fn cmark_html(markdown: Seq<char>, tables: bool, strikethrough: bool) -> Seq<
    char,
>;

/// Parses `markdown` with `pulldown_cmark::Parser::new_ext` and reads each
/// event: images, links with their destination, heading starts and ends,
/// text, inline code and raw HTML; every other event becomes `Other`. The
/// contract states only that the result is the parser's event stream for
/// these arguments; the parser itself is not modelled.
#[verifier::external_body]
pub(crate) fn markdown_events(markdown: &str, options: &ParserOptions) -> (r: Vec<MdEvent>)
    ensures
        events_view(r@) == cmark_events(markdown@, options.tables, options.strikethrough),
{
    let mut o = Options::empty();
    o.set(Options::ENABLE_TABLES, options.tables);
    o.set(Options::ENABLE_STRIKETHROUGH, options.strikethrough);
    Parser::new_ext(markdown, o).map(|event| match event {
        Event::Start(Tag::Image { .. }) => MdEvent::StartImage,
        Event::Start(Tag::Link { dest_url, .. }) => MdEvent::StartLink(dest_url.to_string()),
        Event::Start(Tag::Heading { .. }) => MdEvent::StartHeading,
        Event::End(TagEnd::Heading(_)) => MdEvent::EndHeading,
        Event::Text(t) => MdEvent::Text(t.to_string()),
        Event::Code(t) => MdEvent::Code(t.to_string()),
        Event::Html(_) => MdEvent::Html,
        Event::InlineHtml(_) => MdEvent::InlineHtml,
        _ => MdEvent::Other,
    }).collect()
}

/// Renders `markdown` with `pulldown_cmark::html::push_html` over
/// `Parser::new_ext`. The contract states only that the result is the HTML
/// that pulldown-cmark renders for these arguments.
#[verifier::external_body]
pub(crate) fn markdown_html(markdown: &str, options: &ParserOptions) -> (r: String)
    ensures
        r@ == cmark_html(markdown@, options.tables, options.strikethrough),
{
    let mut o = Options::empty();
    o.set(Options::ENABLE_TABLES, options.tables);
    o.set(Options::ENABLE_STRIKETHROUGH, options.strikethrough);
    let mut html = String::new();
    pulldown_cmark::html::push_html(&mut html, Parser::new_ext(markdown, o));
    html
}

/// Tables and strikethrough are enabled; nothing else.
pub fn parser_options() -> (o: ParserOptions)
    ensures
        o.tables,
        o.strikethrough,
{
    ParserOptions { tables: true, strikethrough: true }
}

/// A page body ready to send: storage HTML plus the summary a dry run reports.
#[derive(Debug)]
pub struct ConvertedContent {
    pub storage_html: String,
    pub markdown_bytes: usize,
    pub source_bytes: usize,
    pub source_representation: &'static str,
    pub storage_html_bytes: usize,
    pub headings: Vec<String>,
}

/// The values of a list of strings.
pub open spec fn texts_view(v: Seq<String>) -> Seq<Seq<char>> {
    v.map_values(|s: String| s@)
}

/// The UTF-8 byte length of a text, as `str::len` reports it.
pub open spec fn byte_len(s: Seq<char>) -> usize {
    vstd::utf8::encode_utf8(s).len() as usize
}

// ---------------------------------------------------------------------------
// Link destinations
// ---------------------------------------------------------------------------

pub open spec fn is_ascii_alpha(c: char) -> bool {
    ('a' <= c && c <= 'z') || ('A' <= c && c <= 'Z')
}

pub open spec fn is_ascii_alnum(c: char) -> bool {
    is_ascii_alpha(c) || ('0' <= c && c <= '9')
}

/// A character allowed after the first one of a URI scheme.
pub open spec fn is_scheme_char(c: char) -> bool {
    is_ascii_alnum(c) || c == '+' || c == '-' || c == '.'
}

/// `d` starts with a URI scheme: an ASCII letter, then scheme characters up
/// to a `:`.
pub open spec fn has_scheme_spec(d: Seq<char>) -> bool {
    &&& d.len() > 0
    &&& is_ascii_alpha(d[0])
    &&& exists|k: int|
        1 <= k < d.len() && d[k] == ':' && forall|j: int| 1 <= j < k ==> is_scheme_char(
            #[trigger] d[j],
        )
}

/// A link destination the conversion accepts: after trimming it is non-empty
/// and is an `http`, `https` or `mailto` URL (any case), an absolute or
/// relative path, an anchor, or has no scheme at all.
pub open spec fn is_safe_link(destination: Seq<char>) -> bool {
    let t = trim(destination);
    let lower = ascii_lower(t);
    &&& t.len() > 0
    &&& {
        ||| has_prefix(lower, "http://"@)
        ||| has_prefix(lower, "https://"@)
        ||| has_prefix(lower, "mailto:"@)
        ||| has_prefix(t, "/"@)
        ||| has_prefix(t, "../"@)
        ||| has_prefix(t, "./"@)
        ||| has_prefix(t, "#"@)
        ||| !has_scheme_spec(t)
    }
}

fn ascii_alpha(c: char) -> (r: bool)
    ensures
        r == is_ascii_alpha(c),
{
    ('a' <= c && c <= 'z') || ('A' <= c && c <= 'Z')
}

fn scheme_char(c: char) -> (r: bool)
    ensures
        r == is_scheme_char(c),
{
    ascii_alpha(c) || ('0' <= c && c <= '9') || c == '+' || c == '-' || c == '.'
}

/// Whether `destination` starts with a URI scheme.
pub fn has_scheme(destination: &str) -> (r: bool)
    ensures
        r == has_scheme_spec(destination@),
{
    let cs = chars_of(destination);
    if cs.len() == 0 {
        return false;
    }
    if !ascii_alpha(cs[0]) {
        return false;
    }
    let mut i: usize = 1;
    while i < cs.len()
        invariant
            1 <= i <= cs@.len(),
            cs@ == destination@,
            is_ascii_alpha(cs@[0]),
            forall|j: int| 1 <= j < i ==> is_scheme_char(#[trigger] cs@[j]),
        decreases cs.len() - i,
    {
        let c = cs[i];
        if c == ':' {
            return true;
        }
        if !scheme_char(c) {
            assert forall|k: int|
                1 <= k < cs@.len() && cs@[k] == ':' implies !(forall|j: int|
                1 <= j < k ==> is_scheme_char(#[trigger] cs@[j])) by {
                if k <= i {
                    assert(cs@[k] == ':');
                    assert(!is_scheme_char(':'));
                    if k < i {
                    }
                } else {
                    assert(!is_scheme_char(cs@[i as int]));
                }
            }
            return false;
        }
        i = i + 1;
    }
    assert forall|k: int|
        1 <= k < cs@.len() && cs@[k] == ':' implies !(forall|j: int|
        1 <= j < k ==> is_scheme_char(#[trigger] cs@[j])) by {
        assert(is_scheme_char(cs@[k]));
    }
    false
}

/// Whether a link destination is accepted by the conversion.
pub fn is_safe_link_destination(destination: &str) -> (r: bool)
    ensures
        r == is_safe_link(destination@),
{
    let trimmed = trim_str(destination);
    let t = chars_of(trimmed.as_str());
    if t.len() == 0 {
        return false;
    }
    let lower = lower_chars(trimmed.as_str());
    starts_with(lower.as_slice(), "http://") || starts_with(lower.as_slice(), "https://")
        || starts_with(lower.as_slice(), "mailto:") || starts_with(t.as_slice(), "/")
        || starts_with(t.as_slice(), "../") || starts_with(t.as_slice(), "./") || starts_with(
        t.as_slice(),
        "#",
    ) || !has_scheme(trimmed.as_str())
}


// ---------------------------------------------------------------------------
// The supported Markdown subset
// ---------------------------------------------------------------------------

/// Why a Markdown document is refused.
#[derive(Debug, Clone, Copy, PartialEq, Eq, Structural)]
pub enum Unsupported {
    Image,
    UnsafeLink,
    RawHtml,
}

/// What, if anything, is refused about one event.
pub open spec fn event_problem(e: MdEventView) -> Option<Unsupported> {
    match e {
        MdEventView::StartImage => Some(Unsupported::Image),
        MdEventView::StartLink(d) => if is_safe_link(d) {
            None
        } else {
            Some(Unsupported::UnsafeLink)
        },
        MdEventView::Html => Some(Unsupported::RawHtml),
        MdEventView::InlineHtml => Some(Unsupported::RawHtml),
        _ => None,
    }
}

/// The problem of the first refused event, if any.
pub open spec fn first_problem(events: Seq<MdEventView>) -> Option<Unsupported>
    decreases events.len(),
{
    if events.len() == 0 {
        None
    } else if event_problem(events[0]) is Some {
        event_problem(events[0])
    } else {
        first_problem(events.drop_first())
    }
}

/// The message reported for a refused document.
pub open spec fn problem_message(p: Unsupported) -> Seq<char> {
    match p {
        Unsupported::Image => "Images and attachments are not supported by the first release."@,
        Unsupported::UnsafeLink => "Link destination scheme is not supported."@,
        Unsupported::RawHtml => "Raw HTML is not supported by the first release."@,
    }
}

/// `Ok` exactly when no event is refused; otherwise the
/// `unsupported_markdown` error for the first refused event.
pub open spec fn supported_result(events: Seq<MdEventView>, r: Result<(), AppError>) -> bool {
    match first_problem(events) {
        None => r is Ok,
        Some(p) => r matches Err(e) && e.code == ErrorCode::UnsupportedMarkdown && e.message@
            == problem_message(p) && !e.retryable && e.details@ == crate::error::empty_object(),
    }
}

fn problem_of(e: &MdEvent) -> (r: Option<Unsupported>)
    ensures
        r == event_problem(e@),
{
    match e {
        MdEvent::StartImage => Some(Unsupported::Image),
        MdEvent::StartLink(d) => if is_safe_link_destination(d.as_str()) {
            None
        } else {
            Some(Unsupported::UnsafeLink)
        },
        MdEvent::Html => Some(Unsupported::RawHtml),
        MdEvent::InlineHtml => Some(Unsupported::RawHtml),
        _ => None,
    }
}

/// Checks an event stream against the supported subset.
pub fn check_supported(events: &[MdEvent]) -> (r: Result<(), AppError>)
    ensures
        supported_result(events_view(events@), r),
{
    let ghost ev = events_view(events@);
    let mut i: usize = 0;
    assert(ev.skip(0) == ev);
    while i < events.len()
        invariant
            i <= events@.len(),
            ev == events_view(events@),
            first_problem(ev) == first_problem(ev.skip(i as int)),
        decreases events.len() - i,
    {
        assert(ev.skip(i as int)[0] == events@[i as int]@);
        assert(ev.skip(i as int).drop_first() == ev.skip(i + 1));
        match problem_of(&events[i]) {
            Some(p) => {
                let message = match p {
                    Unsupported::Image => owned(
                        "Images and attachments are not supported by the first release.",
                    ),
                    Unsupported::UnsafeLink => owned("Link destination scheme is not supported."),
                    Unsupported::RawHtml => owned(
                        "Raw HTML is not supported by the first release.",
                    ),
                };
                return Err(AppError::new(ErrorCode::UnsupportedMarkdown, message));
            },
            None => {},
        }
        i = i + 1;
    }
    Ok(())
}

fn reject_unsupported(markdown: &str) -> (r: Result<(), AppError>)
    ensures
        supported_result(cmark_events(markdown@, true, true), r),
{
    let events = markdown_events(markdown, &parser_options());
    check_supported(events.as_slice())
}

// ---------------------------------------------------------------------------
// Headings
// ---------------------------------------------------------------------------

/// The scan state: inside a heading, its text so far, the headings found.
pub type HeadingScan = (bool, Seq<char>, Seq<Seq<char>>);

/// At most this many headings are reported.
pub open spec fn max_headings() -> nat {
    5
}

pub open spec fn heading_step(s: HeadingScan, e: MdEventView) -> HeadingScan {
    match e {
        MdEventView::StartHeading => (true, Seq::empty(), s.2),
        MdEventView::Text(t) => if s.0 {
            (s.0, s.1 + t, s.2)
        } else {
            s
        },
        MdEventView::Code(t) => if s.0 {
            (s.0, s.1 + t, s.2)
        } else {
            s
        },
        MdEventView::EndHeading => {
            let h = trim(s.1);
            (false, s.1, if h.len() > 0 {
                s.2.push(h)
            } else {
                s.2
            })
        },
        _ => s,
    }
}

pub open spec fn heading_scan(events: Seq<MdEventView>, s: HeadingScan) -> HeadingScan
    decreases events.len(),
{
    if events.len() == 0 || s.2.len() >= max_headings() {
        s
    } else {
        heading_scan(events.drop_first(), heading_step(s, events[0]))
    }
}

/// The texts of the first five non-empty headings, each trimmed; a
/// heading's text joins its text and inline-code nodes.
pub open spec fn collected_headings(events: Seq<MdEventView>) -> Seq<Seq<char>> {
    heading_scan(events, (false, Seq::empty(), Seq::empty())).2
}

/// Every heading found so far is non-empty and trimmed, and there are at
/// most five.
pub open spec fn headings_well_formed(hs: Seq<Seq<char>>) -> bool {
    &&& hs.len() <= max_headings()
    &&& forall|i: int| 0 <= i < hs.len() ==> (#[trigger] hs[i]).len() > 0 && trim(hs[i]) == hs[i]
}

proof fn lemma_heading_scan_well_formed(events: Seq<MdEventView>, s: HeadingScan)
    requires
        headings_well_formed(s.2),
    ensures
        headings_well_formed(heading_scan(events, s).2),
    decreases events.len(),
{
    if events.len() == 0 || s.2.len() >= max_headings() {
    } else {
        let n = heading_step(s, events[0]);
        if let MdEventView::EndHeading = events[0] {
            lemma_trim_idempotent(s.1);
        }
        assert(headings_well_formed(n.2));
        lemma_heading_scan_well_formed(events.drop_first(), n);
    }
}

/// The headings a dry run reports: at most five, each non-empty and trimmed.
pub proof fn lemma_collected_headings_well_formed(events: Seq<MdEventView>)
    ensures
        headings_well_formed(collected_headings(events)),
{
    lemma_heading_scan_well_formed(events, (false, Seq::empty(), Seq::empty()));
}

/// The headings of an event stream.
pub fn headings_from_events(events: &[MdEvent]) -> (r: Vec<String>)
    ensures
        texts_view(r@) == collected_headings(events_view(events@)),
{
    let ghost ev = events_view(events@);
    let mut headings: Vec<String> = Vec::new();
    let mut current = String::new();
    let mut in_heading = false;
    let mut i: usize = 0;
    assert(ev.skip(0) == ev);
    assert(texts_view(headings@) =~= Seq::<Seq<char>>::empty());
    while i < events.len() && headings.len() < 5
        invariant
            i <= events@.len(),
            ev == events_view(events@),
            collected_headings(ev) == heading_scan(
                ev.skip(i as int),
                (in_heading, current@, texts_view(headings@)),
            ).2,
        decreases events.len() - i,
    {
        let ghost s: HeadingScan = (in_heading, current@, texts_view(headings@));
        assert(ev.skip(i as int)[0] == events@[i as int]@);
        assert(ev.skip(i as int).drop_first() == ev.skip(i + 1));
        match &events[i] {
            MdEvent::StartHeading => {
                in_heading = true;
                current = String::new();
            },
            MdEvent::Text(t) => {
                if in_heading {
                    push_str(&mut current, t.as_str());
                }
            },
            MdEvent::Code(t) => {
                if in_heading {
                    push_str(&mut current, t.as_str());
                }
            },
            MdEvent::EndHeading => {
                in_heading = false;
                let heading = trim_str(current.as_str());
                if !heading.as_str().is_empty() {
                    headings.push(heading);
                    assert(texts_view(headings@) =~= s.2.push(trim(s.1)));
                }
            },
            _ => {},
        }
        assert((in_heading, current@, texts_view(headings@)) == heading_step(s, ev.skip(i as int)[0]));
        i = i + 1;
    }
    assert(heading_scan(ev.skip(i as int), (in_heading, current@, texts_view(headings@))) == (
    in_heading, current@, texts_view(headings@)));
    headings
}

fn collect_headings(markdown: &str) -> (r: Vec<String>)
    ensures
        texts_view(r@) == collected_headings(cmark_events(markdown@, true, true)),
{
    let events = markdown_events(markdown, &parser_options());
    headings_from_events(events.as_slice())
}

// ---------------------------------------------------------------------------
// Conversion
// ---------------------------------------------------------------------------

/// `c` is the conversion of Markdown `markdown`.
pub open spec fn converted_markdown(markdown: Seq<char>, c: ConvertedContent) -> bool {
    &&& c.storage_html@ == cmark_html(markdown, true, true)
    &&& c.markdown_bytes == byte_len(markdown)
    &&& c.source_bytes == byte_len(markdown)
    &&& c.source_representation@ == "markdown"@
    &&& c.storage_html_bytes == byte_len(c.storage_html@)
    &&& texts_view(c.headings@) == collected_headings(cmark_events(markdown, true, true))
}

/// `c` carries storage XML `storage` unchanged.
pub open spec fn converted_storage(storage: Seq<char>, c: ConvertedContent) -> bool {
    &&& c.storage_html@ == storage
    &&& c.markdown_bytes == 0
    &&& c.source_bytes == byte_len(storage)
    &&& c.source_representation@ == "storage"@
    &&& c.storage_html_bytes == byte_len(storage)
    &&& c.headings@.len() == 0
}

/// Converts Markdown to Confluence storage HTML, refusing images, unsafe
/// link destinations and raw HTML.
pub fn markdown_to_storage(markdown: &str) -> (r: Result<ConvertedContent, AppError>)
    ensures
        first_problem(cmark_events(markdown@, true, true)) is None <==> r is Ok,
        r matches Ok(c) ==> converted_markdown(markdown@, c),
        r matches Err(e) ==> supported_result(cmark_events(markdown@, true, true), Err(e)),
{
    match reject_unsupported(markdown) {
        Err(e) => return Err(e),
        Ok(()) => {},
    }
    let html = markdown_html(markdown, &parser_options());
    let headings = collect_headings(markdown);
    let storage_html_bytes = html.as_str().len();
    Ok(
        ConvertedContent {
            markdown_bytes: markdown.len(),
            source_bytes: markdown.len(),
            source_representation: "markdown",
            storage_html_bytes,
            headings,
            storage_html: html,
        },
    )
}

/// Passes Confluence storage XML through unchanged.
pub fn storage_to_storage(storage: &str) -> (r: Result<ConvertedContent, AppError>)
    ensures
        r matches Ok(c) && converted_storage(storage@, c),
{
    Ok(
        ConvertedContent {
            storage_html: owned(storage),
            markdown_bytes: 0,
            source_bytes: storage.len(),
            source_representation: "storage",
            storage_html_bytes: storage.len(),
            headings: Vec::new(),
        },
    )
}


/// A web or mail destination: after trimming it starts, in any ASCII case,
/// with `http://`, `https://` or `mailto:`.
pub open spec fn is_web_link(destination: Seq<char>) -> bool {
    let lower = ascii_lower(trim(destination));
    has_prefix(lower, "http://"@) || has_prefix(lower, "https://"@) || has_prefix(lower, "mailto:"@)
}

/// Web and mail links are always accepted.
pub proof fn lemma_web_links_are_safe(destination: Seq<char>)
    requires
        is_web_link(destination),
    ensures
        is_safe_link(destination),
{
    reveal_strlit("http://");
    reveal_strlit("https://");
    reveal_strlit("mailto:");
    assert(ascii_lower(trim(destination)).len() == trim(destination).len());
}

/// A destination with any other scheme, such as `javascript:` or `data:`,
/// is refused.
pub proof fn lemma_other_schemes_are_refused(destination: Seq<char>)
    requires
        has_scheme_spec(trim(destination)),
        !is_web_link(destination),
    ensures
        !is_safe_link(destination),
{
    let t = trim(destination);
    reveal_strlit("/");
    reveal_strlit("../");
    reveal_strlit("./");
    reveal_strlit("#");
    assert(is_ascii_alpha(t[0]));
    assert(!has_prefix(t, "/"@)) by {
        if has_prefix(t, "/"@) {
            assert(t.take(1)[0] == t[0]);
        }
    }
    assert(!has_prefix(t, "../"@)) by {
        if has_prefix(t, "../"@) {
            assert(t.take(3)[0] == t[0]);
        }
    }
    assert(!has_prefix(t, "./"@)) by {
        if has_prefix(t, "./"@) {
            assert(t.take(2)[0] == t[0]);
        }
    }
    assert(!has_prefix(t, "#"@)) by {
        if has_prefix(t, "#"@) {
            assert(t.take(1)[0] == t[0]);
        }
    }
}

/// A Markdown document with no image and no raw HTML, whose every link goes
/// to a web or mail address, is accepted.
pub proof fn lemma_web_only_document_supported(events: Seq<MdEventView>)
    requires
        forall|i: int|
            0 <= i < events.len() ==> match #[trigger] events[i] {
                MdEventView::StartImage => false,
                MdEventView::Html => false,
                MdEventView::InlineHtml => false,
                MdEventView::StartLink(d) => is_web_link(d),
                _ => true,
            },
    ensures
        first_problem(events) is None,
    decreases events.len(),
{
    if events.len() > 0 {
        let e = events[0];
        if let MdEventView::StartLink(d) = e {
            lemma_web_links_are_safe(d);
        }
        let rest = events.drop_first();
        assert forall|i: int| 0 <= i < rest.len() implies match #[trigger] rest[i] {
            MdEventView::StartImage => false,
            MdEventView::Html => false,
            MdEventView::InlineHtml => false,
            MdEventView::StartLink(d) => is_web_link(d),
            _ => true,
        } by {
            assert(rest[i] == events[i + 1]);
        }
        lemma_web_only_document_supported(rest);
    }
}

/// A Markdown document with an image anywhere, or raw HTML anywhere, is
/// refused.
pub proof fn lemma_image_or_html_refused(events: Seq<MdEventView>, k: int)
    requires
        0 <= k < events.len(),
        events[k] is StartImage || events[k] is Html || events[k] is InlineHtml,
    ensures
        first_problem(events) is Some,
    decreases events.len(),
{
    if k > 0 && event_problem(events[0]) is None {
        assert(events.drop_first()[k - 1] == events[k]);
        lemma_image_or_html_refused(events.drop_first(), k - 1);
    }
}

} // verus!
