//! viXra: what is asked of it and how the pages it answers with read as
//! records.

use vstd::prelude::*;
use vstd::string::StringExecFns;
use scraper::{Html, Selector};
use crate::apis::{opt_text, text_or_empty, PaperResult, PaperView, SourceError};
use crate::text::{
    after_last_text, concat_texts, contains, last_part, occurs_in, remove_prefix, trim, trimmed,
    without_prefix,
};

verus! {

/// Where the service answers.
pub const BASE_URL: &'static str = "https://vixra.org";

/// The name of the provider.
pub const NAME: &'static str = "vixra";

/// What begins the ids of this provider's records.
pub const ID_PREFIX: &'static str = "vixra:";

/// What the address of an abstract page has in it, before the number.
pub const ABSTRACT_PATH: &'static str = "/abs/";

/// The links of a result page that lead to abstract pages.
pub const LINK_SELECTOR: &'static str = "a[href*='/abs/']";

/// The heading of an abstract page.
pub const TITLE_SELECTOR: &'static str = "h1";

/// An element of a page: the address it links to, if it has one, and the
/// text in it.
#[derive(Debug, Clone)]
pub struct Anchor {
    pub href: Option<String>,
    pub text: String,
}

/// The content of an [`Anchor`].
pub struct AnchorView {
    pub href: Option<Seq<char>>,
    pub text: Seq<char>,
}

impl View for Anchor {
    type V = AnchorView;

    open spec fn view(&self) -> AnchorView {
        AnchorView { href: opt_text(self.href), text: self.text@ }
    }
}

/// The contents of anchors, in order.
pub open spec fn anchor_views(anchors: Seq<Anchor>) -> Seq<AnchorView> {
    Seq::new(anchors.len(), |i: int| anchors[i]@)
}

/// The elements of a page that a selector picks, in the order of the
/// page, or the description of what is wrong with the selector.
pub uninterp spec fn selected(html: Seq<char>, selector: Seq<char>) -> Result<
    Seq<AnchorView>,
    Seq<char>,
>;

/// `scraper::Html::select` on the page parsed as a document, with the
/// selector that `scraper::Selector::parse` reads: of each element picked
/// its `href` attribute and the text in it; or the selector's error as
/// its debug form writes it.
#[verifier::external_body]
fn select(html: &str, selector: &str) -> (anchors: Result<Vec<Anchor>, String>)
    ensures
        match anchors {
            Ok(list) => selected(html@, selector@) == Ok::<Seq<AnchorView>, Seq<char>>(
                anchor_views(list@),
            ),
            Err(error) => selected(html@, selector@) == Err::<Seq<AnchorView>, Seq<char>>(error@),
        },
{
    let picked = Selector::parse(selector).map_err(|e| format!("{:?}", e))?;
    let href = |a: &str| a.to_string();
    Ok(Html::parse_document(html).select(&picked).map(|e| Anchor { href: e.value().attr("href").map(href), text: e.text().collect() }).collect())
}

/// The record with this number and title.
pub open spec fn paper_with(number: Seq<char>, title: Seq<char>) -> PaperView {
    PaperView {
        id: ID_PREFIX@ + number,
        title,
        authors: Seq::empty(),
        abstract_text: None,
        year: None,
        source: NAME@,
        doi: None,
        arxiv_id: None,
        url: BASE_URL@ + ABSTRACT_PATH@ + number,
        pdf_url: Some(BASE_URL@ + "/pdf/"@ + number + ".pdf"@),
        citation_count: None,
    }
}

/// Makes the record with this number and title.
fn make_paper(number: &str, title: String) -> (paper: PaperResult)
    ensures
        paper@ == paper_with(number@, title@),
{
    let base = concat_texts(BASE_URL, ABSTRACT_PATH);
    let pdf_base = concat_texts(BASE_URL, "/pdf/");
    let pdf = concat_texts(pdf_base.as_str(), number);
    let authors: Vec<String> = Vec::new();
    proof {
        assert(crate::apis::texts(authors@) =~= Seq::<Seq<char>>::empty());
    }
    PaperResult {
        id: concat_texts(ID_PREFIX, number),
        title,
        authors,
        abstract_text: None,
        year: None,
        source: String::from_str(NAME),
        doi: None,
        arxiv_id: None,
        url: concat_texts(base.as_str(), number),
        pdf_url: Some(concat_texts(pdf.as_str(), ".pdf")),
        citation_count: None,
    }
}

/// The number that a link leads to: what follows the last `/abs/` of its
/// address.
pub open spec fn number_in(link: AnchorView) -> Seq<char> {
    after_last_text(text_or_empty(link.href), ABSTRACT_PATH@)
}

/// Whether a link makes a record: it has a title, its address is that of
/// an abstract page, and a number follows.
pub open spec fn is_result(link: AnchorView) -> bool {
    &&& trimmed(link.text).len() > 0
    &&& occurs_in(text_or_empty(link.href), ABSTRACT_PATH@)
    &&& number_in(link).len() > 0
}

/// The records that links make, in order.
pub open spec fn link_papers(links: Seq<AnchorView>) -> Seq<PaperView>
    decreases links.len(),
{
    if links.len() == 0 {
        Seq::empty()
    } else if is_result(links.last()) {
        link_papers(links.drop_last()).push(
            paper_with(number_in(links.last()), trimmed(links.last().text)),
        )
    } else {
        link_papers(links.drop_last())
    }
}

/// The first `count` links, or all where there are fewer.
pub open spec fn first_links(links: Seq<AnchorView>, count: nat) -> Seq<AnchorView> {
    if count < links.len() {
        links.take(count as int)
    } else {
        links
    }
}

/// The contents of records, in order.
pub open spec fn paper_views(papers: Seq<PaperResult>) -> Seq<PaperView> {
    Seq::new(papers.len(), |i: int| papers[i]@)
}

/// Reads records out of the links of a result page. Only the first
/// `max_results` links are looked at.
pub fn papers_from_links(links: Vec<Anchor>, max_results: u32) -> (papers: Vec<PaperResult>)
    ensures
        paper_views(papers@) == link_papers(
            first_links(anchor_views(links@), max_results as nat),
        ),
{
    let ghost given = links@;
    let mut links = links;
    links.truncate(max_results as usize);
    let ghost input = anchor_views(links@);
    assert(input =~= first_links(anchor_views(given), max_results as nat)) by {
        assert(forall|i: int| 0 <= i < links@.len() ==> links@[i] == given[i]);
    }
    let mut papers: Vec<PaperResult> = Vec::new();
    let mut i: usize = 0;
    proof {
        assert(input.take(0) =~= Seq::<AnchorView>::empty());
        assert(paper_views(papers@) =~= Seq::<PaperView>::empty());
    }
    while i < links.len()
        invariant
            0 <= i <= links@.len(),
            input == anchor_views(links@),
            paper_views(papers@) == link_papers(input.take(i as int)),
        decreases links@.len() - i,
    {
        proof {
            assert(input.take(i + 1).drop_last() =~= input.take(i as int));
            assert(input.take(i + 1).last() == links@[i as int]@);
        }
        let link = &links[i];
        let href = crate::apis::or_empty(&link.href);
        let title = trim(link.text.as_str());
        if !title.as_str().is_empty() && contains(href.as_str(), ABSTRACT_PATH) {
            let number = last_part(href.as_str(), ABSTRACT_PATH);
            if !number.as_str().is_empty() {
                let ghost before = paper_views(papers@);
                let paper = make_paper(number.as_str(), title);
                papers.push(paper);
                proof {
                    assert(paper_views(papers@) =~= before.push(paper@));
                }
            }
        }
        i += 1;
    }
    proof {
        assert(input.take(input.len() as int) =~= input);
    }
    papers
}

/// The records of a result page, or why the page cannot be searched.
pub open spec fn page_result(html: Seq<char>, max_results: u32) -> Result<
    Seq<PaperView>,
    Seq<char>,
> {
    match selected(html, LINK_SELECTOR@) {
        Ok(links) => Ok(link_papers(first_links(links, max_results as nat))),
        Err(error) => Err(error),
    }
}

/// Reads the records out of a result page.
pub fn parse_vixra_html(html: &str, max_results: u32) -> (papers: Result<
    Vec<PaperResult>,
    SourceError,
>)
    ensures
        match papers {
            Ok(list) => page_result(html@, max_results) == Ok::<Seq<PaperView>, Seq<char>>(
                paper_views(list@),
            ),
            Err(error) => error matches SourceError::Parse(text) && page_result(html@, max_results)
                == Err::<Seq<PaperView>, Seq<char>>(text@),
        },
{
    match select(html, LINK_SELECTOR) {
        Ok(links) => Ok(papers_from_links(links, max_results)),
        Err(error) => Err(SourceError::Parse(error)),
    }
}

/// The text of the first heading, empty where there is none.
pub open spec fn heading(headings: Seq<AnchorView>) -> Seq<char> {
    if headings.len() > 0 {
        headings[0].text
    } else {
        Seq::empty()
    }
}

/// The record of an abstract page, given its headings: none where the
/// page has no heading with text in it.
pub open spec fn heading_paper(headings: Seq<AnchorView>, number: Seq<char>) -> Option<PaperView> {
    if heading(headings).len() == 0 {
        None
    } else {
        Some(paper_with(number, trimmed(heading(headings))))
    }
}

/// Reads the record of an abstract page out of its headings.
pub fn paper_from_headings(headings: Vec<Anchor>, number: &str) -> (paper: Option<PaperResult>)
    ensures
        match paper {
            Some(p) => heading_paper(anchor_views(headings@), number@) == Some(p@),
            None => heading_paper(anchor_views(headings@), number@) is None,
        },
{
    if headings.len() == 0 {
        None
    } else if headings[0].text.as_str().is_empty() {
        None
    } else {
        Some(make_paper(number, trim(headings[0].text.as_str())))
    }
}

/// The record of an abstract page, or why the page cannot be searched.
pub open spec fn abstract_result(html: Seq<char>, id: Seq<char>) -> Result<
    Option<PaperView>,
    Seq<char>,
> {
    match selected(html, TITLE_SELECTOR@) {
        Ok(headings) => Ok(heading_paper(headings, without_prefix(id, ID_PREFIX@))),
        Err(error) => Err(error),
    }
}

/// Reads the record with this id out of its abstract page.
pub fn parse_abstract_page(html: &str, id: &str) -> (paper: Result<Option<PaperResult>, SourceError>)
    ensures
        match paper {
            Ok(Some(p)) => abstract_result(html@, id@) == Ok::<Option<PaperView>, Seq<char>>(
                Some(p@),
            ),
            Ok(None) => abstract_result(html@, id@) == Ok::<Option<PaperView>, Seq<char>>(None),
            Err(error) => error matches SourceError::Parse(text) && abstract_result(html@, id@)
                == Err::<Option<PaperView>, Seq<char>>(text@),
        },
{
    let number = remove_prefix(id, ID_PREFIX);
    match select(html, TITLE_SELECTOR) {
        Ok(headings) => Ok(paper_from_headings(headings, number.as_str())),
        Err(error) => Err(SourceError::Parse(error)),
    }
}

/// `s` with each space written as `+`.
pub open spec fn spaces_as_plus(s: Seq<char>) -> Seq<char> {
    s.map_values(|c: char| if c == ' ' { '+' } else { c })
}

/// Writes a query as part of an address.
pub fn urlencoded(s: &str) -> (encoded: String)
    ensures
        encoded@ == spaces_as_plus(s@),
{
    let encoded = crate::text::replace_char(s, ' ', '+');
    proof {
        assert(encoded@ =~= spaces_as_plus(s@));
    }
    encoded
}

/// The address of the result page for `query`.
pub fn search_url(query: &str) -> (url: String)
    ensures
        url@ == BASE_URL@ + "/find?text="@ + spaces_as_plus(query@),
{
    let encoded = urlencoded(query);
    let base = concat_texts(BASE_URL, "/find?text=");
    concat_texts(base.as_str(), encoded.as_str())
}

/// The address of the abstract page of a record.
pub fn abstract_url(id: &str) -> (url: String)
    ensures
        url@ == BASE_URL@ + ABSTRACT_PATH@ + without_prefix(id@, ID_PREFIX@),
{
    let number = remove_prefix(id, ID_PREFIX);
    let base = concat_texts(BASE_URL, ABSTRACT_PATH);
    concat_texts(base.as_str(), number.as_str())
}

} // verus!
