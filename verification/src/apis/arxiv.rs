//! arXiv: what is asked of it and how the feed it answers with reads as
//! records.

use vstd::prelude::*;
use vstd::string::StringExecFns;
use quick_xml::events::{BytesStart, Event};
use quick_xml::Reader;
use crate::apis::{opt_text, texts, PaperResult, PaperView, SourceError};
use crate::text::{
    after_last, concat_texts, contains, copy_text, copy_texts, decimal, last_piece, leading_bytes,
    leading_text, number_text, occurs_in, parse_u32, parsed_u32, push_char, remove_prefix,
    replace_char, same_text, trim, trimmed, with_char_replaced, without_prefix,
};

verus! {

/// Where the service answers.
pub const BASE_URL: &'static str = "https://export.arxiv.org/api/query";

/// The name of the provider.
pub const NAME: &'static str = "arxiv";

/// What begins the ids of this provider's records.
pub const ID_PREFIX: &'static str = "arxiv:";

/// How many seconds lie between two searches, as the service asks.
pub const SEARCH_PAUSE_SECONDS: u64 = 3;

/// How many bytes of a date spell its year.
pub const YEAR_LENGTH: usize = 4;

/// A tag with its attributes, each a name and a value.
#[derive(Debug, Clone)]
pub struct Element {
    pub name: String,
    pub attributes: Vec<(String, String)>,
}

/// One event of reading a feed from front to back.
#[derive(Debug, Clone)]
pub enum XmlEvent {
    /// An opening tag.
    Start(Element),
    /// A tag that opens and closes at once.
    Empty(Element),
    /// Text between tags, entities resolved; empty where they cannot be.
    Text(String),
    /// A closing tag, by name.
    End(String),
    /// Anything else: comments, declarations and the like.
    Other,
}

/// The content of an [`Element`].
pub struct ElementView {
    pub name: Seq<char>,
    pub attributes: Seq<(Seq<char>, Seq<char>)>,
}

/// The content of an [`XmlEvent`].
pub enum EventView {
    Start(ElementView),
    Empty(ElementView),
    Text(Seq<char>),
    End(Seq<char>),
    Other,
}

impl View for Element {
    type V = ElementView;

    open spec fn view(&self) -> ElementView {
        ElementView {
            name: self.name@,
            attributes: pairs(self.attributes@),
        }
    }
}

impl View for XmlEvent {
    type V = EventView;

    open spec fn view(&self) -> EventView {
        match self {
            XmlEvent::Start(e) => EventView::Start(e@),
            XmlEvent::Empty(e) => EventView::Empty(e@),
            XmlEvent::Text(t) => EventView::Text(t@),
            XmlEvent::End(n) => EventView::End(n@),
            XmlEvent::Other => EventView::Other,
        }
    }
}

/// The contents of events, in order.
pub open spec fn event_views(events: Seq<XmlEvent>) -> Seq<EventView> {
    Seq::new(events.len(), |i: int| events[i]@)
}

/// One event as the reader hands it out: a tag with its raw content and
/// the length of the name that the content begins with, a closing tag by
/// name, text with its entities resolved.
#[derive(Debug, Clone)]
pub enum RawEvent {
    Start(Vec<u8>, usize),
    Empty(Vec<u8>, usize),
    End(String),
    Text(String),
    Other,
}

/// The content of a [`RawEvent`].
pub enum RawView {
    Start(Seq<u8>, usize),
    Empty(Seq<u8>, usize),
    End(Seq<char>),
    Text(Seq<char>),
    Other,
}

impl View for RawEvent {
    type V = RawView;

    open spec fn view(&self) -> RawView {
        match self {
            RawEvent::Start(content, name_len) => RawView::Start(content@, *name_len),
            RawEvent::Empty(content, name_len) => RawView::Empty(content@, *name_len),
            RawEvent::End(name) => RawView::End(name@),
            RawEvent::Text(text) => RawView::Text(text@),
            RawEvent::Other => RawView::Other,
        }
    }
}

/// The contents of raw events, in order.
pub open spec fn raw_views(events: Seq<RawEvent>) -> Seq<RawView> {
    Seq::new(events.len(), |i: int| events[i]@)
}

/// The events that reading a text as XML gives, up to its end, or the
/// description of the error at which reading stops.
pub uninterp spec fn raw_events(xml: Seq<char>) -> Result<Seq<RawView>, Seq<char>>;

/// The name of the tag with this content, of which the name takes up the
/// first `name_len` bytes.
pub uninterp spec fn name_in(content: Seq<u8>, name_len: usize) -> Seq<char>;

/// The attributes of the tag with this content, names and values, as far
/// as they can be read.
pub uninterp spec fn attributes_in(content: Seq<u8>, name_len: usize) -> Seq<
    (Seq<char>, Seq<char>),
>;

/// `quick_xml::Reader::read_event`, called on a reader over the text
/// until it reports the end: the events in order, a closing tag by its
/// name as text, a text event with `BytesText::unescape` applied and empty
/// where that fails; or the reader's error as `to_string` writes it.
#[verifier::external_body]
fn read_raw_events(xml: &str) -> (events: Result<Vec<RawEvent>, String>)
    ensures
        match events {
            Ok(list) => raw_events(xml@) == Ok::<Seq<RawView>, Seq<char>>(raw_views(list@)),
            Err(error) => raw_events(xml@) == Err::<Seq<RawView>, Seq<char>>(error@),
        },
{
    let (mut reader, mut events) = (Reader::from_str(xml), Vec::new());
    loop {
        events.push(match reader.read_event().map_err(|e| e.to_string())? {
            Event::Eof => return Ok(events),
            Event::Start(e) => RawEvent::Start(e.to_vec(), e.name().as_ref().len()),
            Event::Empty(e) => RawEvent::Empty(e.to_vec(), e.name().as_ref().len()),
            Event::End(e) => RawEvent::End(String::from_utf8_lossy(e.name().as_ref()).into_owned()),
            Event::Text(e) => RawEvent::Text(e.unescape().unwrap_or_default().into_owned()),
            _ => RawEvent::Other,
        });
    }
}

/// `quick_xml::events::BytesStart::name` of the tag with this content: the
/// name as text.
#[verifier::external_body]
fn tag_name(content: &Vec<u8>, name_len: usize) -> (name: String)
    requires
        name_len <= content@.len(),
    ensures
        name@ == name_in(content@, name_len),
{
    let tag = BytesStart::from_content(String::from_utf8_lossy(content), name_len);
    String::from_utf8_lossy(tag.name().as_ref()).into_owned()
}

/// `quick_xml::events::BytesStart::attributes` of the tag with this
/// content: the attributes that can be read, names and values as text.
#[verifier::external_body]
fn tag_attributes(content: &Vec<u8>, name_len: usize) -> (attributes: Vec<(String, String)>)
    requires
        name_len <= content@.len(),
    ensures
        pairs(attributes@) == attributes_in(content@, name_len),
{
    let text = |b: &[u8]| String::from_utf8_lossy(b).into_owned();
    let tag = BytesStart::from_content(String::from_utf8_lossy(content), name_len);
    tag.attributes().flatten().map(|a| (text(a.key.as_ref()), text(&a.value))).collect()
}

/// The texts of pairs of texts.
pub open spec fn pairs(list: Seq<(String, String)>) -> Seq<(Seq<char>, Seq<char>)> {
    Seq::new(list.len(), |i: int| (list[i].0@, list[i].1@))
}

/// The tag with this content. A name cannot be longer than the content it
/// is part of; content that claims so reads as a tag without name.
pub open spec fn element_in(content: Seq<u8>, name_len: usize) -> ElementView {
    if name_len <= content.len() {
        ElementView {
            name: name_in(content, name_len),
            attributes: attributes_in(content, name_len),
        }
    } else {
        ElementView { name: Seq::empty(), attributes: Seq::empty() }
    }
}

/// The event that a raw event stands for.
pub open spec fn event_of(raw: RawView) -> EventView {
    match raw {
        RawView::Start(content, name_len) => EventView::Start(element_in(content, name_len)),
        RawView::Empty(content, name_len) => EventView::Empty(element_in(content, name_len)),
        RawView::End(name) => EventView::End(name),
        RawView::Text(text) => EventView::Text(text),
        RawView::Other => EventView::Other,
    }
}

/// The events that raw events stand for, in order.
pub open spec fn events_of(raw: Seq<RawView>) -> Seq<EventView> {
    Seq::new(raw.len(), |i: int| event_of(raw[i]))
}

/// Reads a tag out of its content.
fn read_element(content: &Vec<u8>, name_len: usize) -> (element: Element)
    ensures
        element@ == element_in(content@, name_len),
{
    if name_len <= content.len() {
        let element = Element {
            name: tag_name(content, name_len),
            attributes: tag_attributes(content, name_len),
        };
        proof {
            assert(element@.attributes =~= pairs(element.attributes@));
        }
        element
    } else {
        let element = Element { name: String::new(), attributes: Vec::new() };
        proof {
            assert(element@.attributes =~= Seq::<(Seq<char>, Seq<char>)>::empty());
        }
        element
    }
}

/// Reads raw events as events.
pub fn read_events(raw: Vec<RawEvent>) -> (events: Vec<XmlEvent>)
    ensures
        event_views(events@) == events_of(raw_views(raw@)),
{
    let ghost input = raw@;
    let mut events: Vec<XmlEvent> = Vec::new();
    for item in it: raw
        invariant
            it.seq() == input,
            events@.len() == it.index(),
            forall|i: int|
                0 <= i < events@.len() ==> (#[trigger] events@[i])@ == event_of(input[i]@),
    {
        let event = match item {
            RawEvent::Start(content, name_len) => XmlEvent::Start(
                read_element(&content, name_len),
            ),
            RawEvent::Empty(content, name_len) => XmlEvent::Empty(
                read_element(&content, name_len),
            ),
            RawEvent::End(name) => XmlEvent::End(name),
            RawEvent::Text(text) => XmlEvent::Text(text),
            RawEvent::Other => XmlEvent::Other,
        };
        events.push(event);
    }
    proof {
        assert(event_views(events@) =~= events_of(raw_views(input)));
    }
    events
}

/// What is known of a feed part way through it: the records read so far,
/// and what has been gathered of the entry that is being read.
pub struct FeedView {
    pub papers: Seq<PaperView>,
    pub in_entry: bool,
    pub current_tag: Seq<char>,
    pub title: Seq<char>,
    pub summary: Seq<char>,
    pub arxiv_id: Seq<char>,
    pub authors: Seq<Seq<char>>,
    pub published: Seq<char>,
    pub link_pdf: Seq<char>,
    pub link_abs: Seq<char>,
    pub author_name: Seq<char>,
    pub in_author: bool,
    pub doi: Option<Seq<char>>,
}

/// The state of reading a feed.
struct FeedState {
    papers: Vec<PaperResult>,
    in_entry: bool,
    current_tag: String,
    title: String,
    summary: String,
    arxiv_id: String,
    authors: Vec<String>,
    published: String,
    link_pdf: String,
    link_abs: String,
    author_name: String,
    in_author: bool,
    doi: Option<String>,
}

/// The contents of records, in order.
pub open spec fn paper_views(papers: Seq<PaperResult>) -> Seq<PaperView> {
    Seq::new(papers.len(), |i: int| papers[i]@)
}

impl View for FeedState {
    type V = FeedView;

    closed spec fn view(&self) -> FeedView {
        FeedView {
            papers: paper_views(self.papers@),
            in_entry: self.in_entry,
            current_tag: self.current_tag@,
            title: self.title@,
            summary: self.summary@,
            arxiv_id: self.arxiv_id@,
            authors: texts(self.authors@),
            published: self.published@,
            link_pdf: self.link_pdf@,
            link_abs: self.link_abs@,
            author_name: self.author_name@,
            in_author: self.in_author,
            doi: opt_text(self.doi),
        }
    }
}

/// The state before anything is read.
pub open spec fn initial() -> FeedView {
    FeedView {
        papers: Seq::empty(),
        in_entry: false,
        current_tag: Seq::empty(),
        title: Seq::empty(),
        summary: Seq::empty(),
        arxiv_id: Seq::empty(),
        authors: Seq::empty(),
        published: Seq::empty(),
        link_pdf: Seq::empty(),
        link_abs: Seq::empty(),
        author_name: Seq::empty(),
        in_author: false,
        doi: None,
    }
}

/// The value of the last attribute of the given name; the empty text
/// where there is none.
pub open spec fn attribute(attributes: Seq<(Seq<char>, Seq<char>)>, name: Seq<char>) -> Seq<char>
    decreases attributes.len(),
{
    if attributes.len() == 0 {
        Seq::empty()
    } else if attributes.last().0 == name {
        attributes.last().1
    } else {
        attribute(attributes.drop_last(), name)
    }
}

/// The state once a link of an entry is read: a link titled `pdf` is the
/// PDF, and the first other link whose address has `abs` in it is the
/// abstract page.
pub open spec fn with_link(state: FeedView, element: ElementView) -> FeedView {
    let href = attribute(element.attributes, "href"@);
    let title = attribute(element.attributes, "title"@);
    if title == "pdf"@ {
        FeedView { link_pdf: href, ..state }
    } else if state.link_abs.len() == 0 && occurs_in(href, "abs"@) {
        FeedView { link_abs: href, ..state }
    } else {
        state
    }
}

/// The state once an opening tag is read. An `entry` begins a new entry;
/// inside an entry every other tag becomes the current tag, an `author`
/// begins an author, and a `link` is read as a link.
pub open spec fn after_start(state: FeedView, element: ElementView) -> FeedView {
    if element.name == "entry"@ {
        FeedView {
            in_entry: true,
            title: Seq::empty(),
            summary: Seq::empty(),
            arxiv_id: Seq::empty(),
            authors: Seq::empty(),
            published: Seq::empty(),
            link_pdf: Seq::empty(),
            link_abs: Seq::empty(),
            doi: None,
            ..state
        }
    } else if state.in_entry {
        let tagged = FeedView { current_tag: element.name, ..state };
        let authored = if element.name == "author"@ {
            FeedView { in_author: true, author_name: Seq::empty(), ..tagged }
        } else {
            tagged
        };
        if element.name == "link"@ {
            with_link(authored, element)
        } else {
            authored
        }
    } else {
        state
    }
}

/// The state once a tag that opens and closes at once is read: inside an
/// entry a `link` is read as a link; nothing else counts.
pub open spec fn after_empty(state: FeedView, element: ElementView) -> FeedView {
    if state.in_entry && element.name == "link"@ {
        with_link(state, element)
    } else {
        state
    }
}

/// The state once text is read: inside an entry it goes to the field that
/// the current tag names.
pub open spec fn after_text(state: FeedView, text: Seq<char>) -> FeedView {
    if !state.in_entry {
        state
    } else if state.current_tag == "title"@ {
        FeedView { title: state.title + text, ..state }
    } else if state.current_tag == "summary"@ {
        FeedView { summary: state.summary + text, ..state }
    } else if state.current_tag == "id"@ && state.arxiv_id.len() == 0 {
        FeedView { arxiv_id: text, ..state }
    } else if state.current_tag == "published"@ {
        FeedView { published: state.published + text, ..state }
    } else if state.current_tag == "name"@ && state.in_author {
        FeedView { author_name: state.author_name + text, ..state }
    } else if occurs_in(state.current_tag, "doi"@) {
        FeedView { doi: Some(text), ..state }
    } else {
        state
    }
}

/// A text on one line and without whitespace at either end.
pub open spec fn one_line(text: Seq<char>) -> Seq<char> {
    with_char_replaced(trimmed(text), '\n', ' ')
}

/// The year that a date begins with, if its first four bytes spell one.
pub open spec fn year_in(date: Seq<char>) -> Option<u32> {
    match leading_text(date, YEAR_LENGTH as int) {
        Some(year) => parsed_u32(year),
        None => None,
    }
}

/// The number of an entry: what follows the last slash of its id.
pub open spec fn number_of(state: FeedView) -> Seq<char> {
    after_last(state.arxiv_id, '/')
}

/// Whether the entry that has been read makes a record: it has a number
/// and a title.
pub open spec fn is_complete(state: FeedView) -> bool {
    number_of(state).len() > 0 && trimmed(state.title).len() > 0
}

/// The record that the entry that has been read makes.
pub open spec fn entry_paper(state: FeedView) -> PaperView {
    PaperView {
        id: ID_PREFIX@ + number_of(state),
        title: one_line(state.title),
        authors: state.authors,
        abstract_text: if trimmed(state.summary).len() == 0 {
            None
        } else {
            Some(one_line(state.summary))
        },
        year: year_in(state.published),
        source: NAME@,
        doi: state.doi,
        arxiv_id: Some(number_of(state)),
        url: if state.link_abs.len() == 0 {
            state.arxiv_id
        } else {
            state.link_abs
        },
        pdf_url: if state.link_pdf.len() == 0 {
            None
        } else {
            Some(state.link_pdf)
        },
        citation_count: None,
    }
}

/// The state once a closing tag is read. The end of an entry makes a
/// record if the entry is complete; the end of an author adds the author
/// if the name is not blank; and the end of the current tag leaves no tag
/// current.
pub open spec fn after_end(state: FeedView, name: Seq<char>) -> FeedView {
    let closed = if name == "entry"@ && state.in_entry {
        FeedView {
            in_entry: false,
            papers: if is_complete(state) {
                state.papers.push(entry_paper(state))
            } else {
                state.papers
            },
            ..state
        }
    } else if name == "author"@ && state.in_author {
        FeedView {
            in_author: false,
            authors: if trimmed(state.author_name).len() > 0 {
                state.authors.push(trimmed(state.author_name))
            } else {
                state.authors
            },
            ..state
        }
    } else {
        state
    };
    if name == closed.current_tag {
        FeedView { current_tag: Seq::empty(), ..closed }
    } else {
        closed
    }
}

/// The state once an event is read.
pub open spec fn after_event(state: FeedView, event: EventView) -> FeedView {
    match event {
        EventView::Start(element) => after_start(state, element),
        EventView::Empty(element) => after_empty(state, element),
        EventView::Text(text) => after_text(state, text),
        EventView::End(name) => after_end(state, name),
        EventView::Other => state,
    }
}

/// The state once a run of events is read.
pub open spec fn after_events(state: FeedView, events: Seq<EventView>) -> FeedView
    decreases events.len(),
{
    if events.len() == 0 {
        state
    } else {
        after_event(after_events(state, events.drop_last()), events.last())
    }
}

/// The records of a feed, given the events of reading it.
pub open spec fn feed_papers(events: Seq<EventView>) -> Seq<PaperView> {
    after_events(initial(), events).papers
}

/// A copy of the value of the last attribute of the given name.
fn attribute_value(attributes: &Vec<(String, String)>, name: &str) -> (value: String)
    ensures
        value@ == attribute(pairs(attributes@), name@),
{
    let ghost all = pairs(attributes@);
    let mut value = String::new();
    let mut i: usize = 0;
    proof {
        assert(all.take(0) =~= Seq::<(Seq<char>, Seq<char>)>::empty());
    }
    while i < attributes.len()
        invariant
            0 <= i <= attributes@.len(),
            all == pairs(attributes@),
            value@ == attribute(all.take(i as int), name@),
        decreases attributes@.len() - i,
    {
        proof {
            assert(all.take(i + 1).drop_last() =~= all.take(i as int));
            assert(all.take(i + 1).last() == all[i as int]);
        }
        if same_text(attributes[i].0.as_str(), name) {
            value = attributes[i].1.clone();
        }
        i += 1;
    }
    proof {
        assert(all.take(all.len() as int) =~= all);
    }
    value
}

/// Reads a link of an entry.
fn read_link(state: FeedState, element: &Element) -> (next: FeedState)
    ensures
        next@ == with_link(state@, element@),
{
    let href = attribute_value(&element.attributes, "href");
    let title = attribute_value(&element.attributes, "title");
    let mut next = state;
    if same_text(title.as_str(), "pdf") {
        next.link_pdf = href;
    } else if next.link_abs.as_str().is_empty() && contains(href.as_str(), "abs") {
        next.link_abs = href;
    }
    next
}

/// Reads an opening tag.
fn read_start(state: FeedState, element: &Element) -> (next: FeedState)
    ensures
        next@ == after_start(state@, element@),
{
    let mut next = state;
    if same_text(element.name.as_str(), "entry") {
        next.in_entry = true;
        next.title = String::new();
        next.summary = String::new();
        next.arxiv_id = String::new();
        next.authors = Vec::new();
        next.published = String::new();
        next.link_pdf = String::new();
        next.link_abs = String::new();
        next.doi = None;
        proof {
            assert(texts(next.authors@) =~= Seq::<Seq<char>>::empty());
        }
        next
    } else if next.in_entry {
        next.current_tag = element.name.clone();
        if same_text(element.name.as_str(), "author") {
            next.in_author = true;
            next.author_name = String::new();
        }
        if same_text(element.name.as_str(), "link") {
            read_link(next, element)
        } else {
            next
        }
    } else {
        next
    }
}

/// Reads text.
fn read_text(state: FeedState, text: String) -> (next: FeedState)
    ensures
        next@ == after_text(state@, text@),
{
    let mut next = state;
    if !next.in_entry {
    } else if same_text(next.current_tag.as_str(), "title") {
        next.title.append(text.as_str());
    } else if same_text(next.current_tag.as_str(), "summary") {
        next.summary.append(text.as_str());
    } else if same_text(next.current_tag.as_str(), "id") && next.arxiv_id.as_str().is_empty() {
        next.arxiv_id = text;
    } else if same_text(next.current_tag.as_str(), "published") {
        next.published.append(text.as_str());
    } else if same_text(next.current_tag.as_str(), "name") && next.in_author {
        next.author_name.append(text.as_str());
    } else if contains(next.current_tag.as_str(), "doi") {
        next.doi = Some(text);
    }
    next
}

/// Puts a text on one line.
fn to_one_line(text: &str) -> (line: String)
    ensures
        line@ == one_line(text@),
{
    let trimmed = trim(text);
    replace_char(trimmed.as_str(), '\n', ' ')
}

/// Makes the record of the entry that has been read.
fn make_paper(state: &FeedState, number: String) -> (paper: PaperResult)
    requires
        number@ == number_of(state@),
    ensures
        paper@ == entry_paper(state@),
{
    let year = match leading_bytes(state.published.as_str(), YEAR_LENGTH) {
        Some(head) => parse_u32(head.as_str()),
        None => None,
    };
    let summary = trim(state.summary.as_str());
    PaperResult {
        id: concat_texts(ID_PREFIX, number.as_str()),
        title: to_one_line(state.title.as_str()),
        authors: copy_texts(&state.authors),
        abstract_text: if summary.as_str().is_empty() {
            None
        } else {
            Some(to_one_line(state.summary.as_str()))
        },
        year,
        source: String::from_str(NAME),
        doi: copy_text(&state.doi),
        arxiv_id: Some(number),
        url: if state.link_abs.as_str().is_empty() {
            state.arxiv_id.clone()
        } else {
            state.link_abs.clone()
        },
        pdf_url: if state.link_pdf.as_str().is_empty() {
            None
        } else {
            Some(state.link_pdf.clone())
        },
        citation_count: None,
    }
}

/// Reads a closing tag.
fn read_end(state: FeedState, name: &String) -> (next: FeedState)
    ensures
        next@ == after_end(state@, name@),
{
    let mut next = state;
    if same_text(name.as_str(), "entry") && next.in_entry {
        let number = last_piece(next.arxiv_id.as_str(), '/');
        let title = trim(next.title.as_str());
        if !number.as_str().is_empty() && !title.as_str().is_empty() {
            let paper = make_paper(&next, number);
            let ghost before = paper_views(next.papers@);
            next.papers.push(paper);
            proof {
                assert(paper_views(next.papers@) =~= before.push(paper@));
            }
        }
        next.in_entry = false;
    } else if same_text(name.as_str(), "author") && next.in_author {
        next.in_author = false;
        let author = trim(next.author_name.as_str());
        if !author.as_str().is_empty() {
            let ghost before = texts(next.authors@);
            next.authors.push(author);
            proof {
                assert(texts(next.authors@) =~= before.push(author@));
            }
        }
    }
    if *name == next.current_tag {
        next.current_tag = String::new();
    }
    next
}

/// Reads one event.
fn read_event(state: FeedState, event: XmlEvent) -> (next: FeedState)
    ensures
        next@ == after_event(state@, event@),
{
    match event {
        XmlEvent::Start(element) => read_start(state, &element),
        XmlEvent::Empty(element) => {
            if state.in_entry && same_text(element.name.as_str(), "link") {
                read_link(state, &element)
            } else {
                state
            }
        },
        XmlEvent::Text(text) => read_text(state, text),
        XmlEvent::End(name) => read_end(state, &name),
        XmlEvent::Other => state,
    }
}

/// Reads the records out of the events of a feed.
pub fn papers_from_events(events: Vec<XmlEvent>) -> (papers: Vec<PaperResult>)
    ensures
        paper_views(papers@) == feed_papers(event_views(events@)),
{
    let ghost input = event_views(events@);
    let mut state = FeedState {
        papers: Vec::new(),
        in_entry: false,
        current_tag: String::new(),
        title: String::new(),
        summary: String::new(),
        arxiv_id: String::new(),
        authors: Vec::new(),
        published: String::new(),
        link_pdf: String::new(),
        link_abs: String::new(),
        author_name: String::new(),
        in_author: false,
        doi: None,
    };
    proof {
        assert(paper_views(state.papers@) =~= Seq::<PaperView>::empty());
        assert(texts(state.authors@) =~= Seq::<Seq<char>>::empty());
        assert(input.take(0) =~= Seq::<EventView>::empty());
    }
    let ghost all = events@;
    for event in it: events
        invariant
            it.seq() == all,
            input == event_views(all),
            state@ == after_events(initial(), input.take(it.index() as int)),
    {
        proof {
            let i = it.index() as int;
            assert(input.take(i + 1).drop_last() =~= input.take(i));
            assert(input.take(i + 1).last() == event@);
        }
        state = read_event(state, event);
    }
    proof {
        assert(input.take(input.len() as int) =~= input);
    }
    state.papers
}

/// The records of a feed, or why the feed cannot be read.
pub open spec fn feed_result(xml: Seq<char>) -> Result<Seq<PaperView>, Seq<char>> {
    match raw_events(xml) {
        Ok(raw) => Ok(feed_papers(events_of(raw))),
        Err(error) => Err("XML parse error: "@ + error),
    }
}

/// Reads the records out of a feed.
pub fn parse_atom_feed(xml: &str) -> (papers: Result<Vec<PaperResult>, SourceError>)
    ensures
        match papers {
            Ok(list) => feed_result(xml@) == Ok::<Seq<PaperView>, Seq<char>>(paper_views(list@)),
            Err(error) => error matches SourceError::Parse(text) && feed_result(xml@) == Err::<
                Seq<PaperView>,
                Seq<char>,
            >(text@),
        },
{
    match read_raw_events(xml) {
        Ok(raw) => Ok(papers_from_events(read_events(raw))),
        Err(error) => Err(SourceError::Parse(concat_texts("XML parse error: ", error.as_str()))),
    }
}

/// `s` as part of an address: a space written as `+`, a colon as `%3A`,
/// a slash as `%2F`.
pub open spec fn query_encoded(s: Seq<char>) -> Seq<char>
    decreases s.len(),
{
    if s.len() == 0 {
        Seq::empty()
    } else if s.last() == ' ' {
        query_encoded(s.drop_last()).push('+')
    } else if s.last() == ':' {
        query_encoded(s.drop_last()) + "%3A"@
    } else if s.last() == '/' {
        query_encoded(s.drop_last()) + "%2F"@
    } else {
        query_encoded(s.drop_last()).push(s.last())
    }
}

/// Writes a query as part of an address.
pub fn urlencoded(s: &str) -> (encoded: String)
    ensures
        encoded@ == query_encoded(s@),
{
    let ghost text = s@;
    let mut encoded = String::new();
    proof {
        assert(text.take(0) =~= Seq::<char>::empty());
    }
    for c in it: s.chars()
        invariant
            it.seq() == text,
            encoded@ == query_encoded(text.take(it.index() as int)),
    {
        proof {
            let i = it.index() as int;
            assert(text.take(i + 1).drop_last() =~= text.take(i));
            assert(text.take(i + 1).last() == c);
        }
        if c == ' ' {
            push_char(&mut encoded, '+');
        } else if c == ':' {
            encoded.append("%3A");
        } else if c == '/' {
            encoded.append("%2F");
        } else {
            push_char(&mut encoded, c);
        }
    }
    proof {
        assert(text.take(text.len() as int) =~= text);
    }
    encoded
}

/// The address that searches everything for `query`, the most relevant
/// first.
pub fn search_url(query: &str, max_results: u32) -> (url: String)
    ensures
        url@ == BASE_URL@ + "?search_query=all:"@ + query_encoded(query@)
            + "&start=0&max_results="@ + decimal(max_results as nat)
            + "&sortBy=relevance&sortOrder=descending"@,
{
    let mut url = String::from_str(BASE_URL);
    url.append("?search_query=all:");
    url.append(urlencoded(query).as_str());
    url.append("&start=0&max_results=");
    url.append(number_text(max_results).as_str());
    url.append("&sortBy=relevance&sortOrder=descending");
    url
}

/// The address of one paper.
pub fn paper_url(id: &str) -> (url: String)
    ensures
        url@ == BASE_URL@ + "?id_list="@ + without_prefix(id@, ID_PREFIX@),
{
    let number = remove_prefix(id, ID_PREFIX);
    let base = concat_texts(BASE_URL, "?id_list=");
    concat_texts(base.as_str(), number.as_str())
}

} // verus!
