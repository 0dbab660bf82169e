//! Crossref: what is asked of it and how its answers read as records.

use vstd::prelude::*;
use vstd::string::StringExecFns;
use crate::apis::{
    first_of, first_tagged_or_none, first_text, opt_text, or_empty, tagged_value, text_or_empty,
    texts, PaperResult, PaperView, Tagged,
};
use crate::text::{concat_texts, copy_text, remove_prefix, trim, trimmed, without_prefix};

verus! {

/// Where the service answers.
pub const BASE_URL: &'static str = "https://api.crossref.org/works";

/// The name of the provider.
pub const NAME: &'static str = "crossref";

/// What begins the ids of this provider's records.
pub const ID_PREFIX: &'static str = "doi:";

/// The fields asked for of every work.
pub const SELECT: &'static str = "DOI,title,author,published,is-referenced-by-count,link";

/// The most works that one search asks for.
pub const MAX_ROWS: u32 = 100;

/// The kind of link that leads to a work's PDF.
pub const PDF_TYPE: &'static str = "application/pdf";

/// Where a DOI resolves.
pub const DOI_RESOLVER: &'static str = "https://doi.org/";

/// An author as the service names one.
#[derive(Debug, Clone)]
pub struct CRAuthor {
    pub given: Option<String>,
    pub family: Option<String>,
}

/// A date as the service gives one: year, month, day, as far as known.
#[derive(Debug, Clone)]
pub struct CRDate {
    pub date_parts: Option<Vec<Vec<u32>>>,
}

/// One work of an answer. `link` holds the work's links, each with its
/// content type as kind and its address as value.
#[derive(Debug, Clone)]
pub struct CRItem {
    pub doi: Option<String>,
    pub title: Option<Vec<String>>,
    pub author: Option<Vec<CRAuthor>>,
    pub citation_count: Option<u32>,
    pub published: Option<CRDate>,
    pub link: Option<Vec<Tagged>>,
}

/// The answer to the request for one work.
#[derive(Debug, Clone)]
pub struct CRMessage {
    pub doi: Option<String>,
    pub title: Option<Vec<String>>,
    pub author: Option<Vec<CRAuthor>>,
    pub citation_count: Option<u32>,
    pub published: Option<CRDate>,
}

/// An author's name in one text: given name, a space, family name, and
/// no whitespace at either end.
pub open spec fn name_of(author: CRAuthor) -> Seq<char> {
    trimmed(
        text_or_empty(opt_text(author.given)) + " "@ + text_or_empty(opt_text(author.family)),
    )
}

/// The names of the authors, in order.
pub open spec fn names_of(authors: Option<Vec<CRAuthor>>) -> Seq<Seq<char>> {
    match authors {
        Some(list) => Seq::new(list@.len(), |i: int| name_of(list@[i])),
        None => Seq::empty(),
    }
}

/// The year of a date: the first part of its first entry.
pub open spec fn year_of(date: Option<CRDate>) -> Option<u32> {
    match date {
        Some(d) => match d.date_parts {
            Some(parts) => if parts@.len() > 0 && parts@[0]@.len() > 0 {
                Some(parts@[0]@[0])
            } else {
                None
            },
            None => None,
        },
        None => None,
    }
}

/// The record that a work reads as.
pub open spec fn paper_of(item: CRItem) -> PaperView {
    let doi = text_or_empty(opt_text(item.doi));
    PaperView {
        id: ID_PREFIX@ + doi,
        title: text_or_empty(first_text(item.title)),
        authors: names_of(item.author),
        abstract_text: None,
        year: year_of(item.published),
        source: NAME@,
        doi: opt_text(item.doi),
        arxiv_id: None,
        url: DOI_RESOLVER@ + doi,
        pdf_url: first_tagged_or_none(item.link, PDF_TYPE@),
        citation_count: item.citation_count,
    }
}

/// Writes an author's name in one text.
pub fn author_name(author: &CRAuthor) -> (name: String)
    ensures
        name@ == name_of(*author),
{
    let given = or_empty(&author.given);
    let family = or_empty(&author.family);
    let head = concat_texts(given.as_str(), " ");
    let full = concat_texts(head.as_str(), family.as_str());
    trim(full.as_str())
}

/// Writes the names of the authors.
fn author_names(authors: &Option<Vec<CRAuthor>>) -> (names: Vec<String>)
    ensures
        texts(names@) == names_of(*authors),
{
    let mut names: Vec<String> = Vec::new();
    match authors {
        Some(list) => {
            let mut i: usize = 0;
            while i < list.len()
                invariant
                    0 <= i <= list@.len(),
                    names@.len() == i,
                    forall|j: int| 0 <= j < i ==> (#[trigger] names@[j])@ == name_of(list@[j]),
                decreases list@.len() - i,
            {
                names.push(author_name(&list[i]));
                i += 1;
            }
            proof {
                assert(texts(names@) =~= names_of(*authors));
            }
        },
        None => {
            proof {
                assert(texts(names@) =~= names_of(*authors));
            }
        },
    }
    names
}

/// Reads the year of a date.
fn published_year(date: &Option<CRDate>) -> (year: Option<u32>)
    ensures
        year == year_of(*date),
{
    match date {
        Some(d) => match &d.date_parts {
            Some(parts) => if parts.len() > 0 && parts[0].len() > 0 {
                Some(parts[0][0])
            } else {
                None
            },
            None => None,
        },
        None => None,
    }
}

/// Reads a work as a record.
pub fn item_to_paper(item: &CRItem) -> (paper: PaperResult)
    ensures
        paper@ == paper_of(*item),
{
    let doi = or_empty(&item.doi);
    let title = first_of(&item.title);
    PaperResult {
        id: concat_texts(ID_PREFIX, doi.as_str()),
        title: or_empty(&title),
        authors: author_names(&item.author),
        abstract_text: None,
        year: published_year(&item.published),
        source: String::from_str(NAME),
        doi: copy_text(&item.doi),
        arxiv_id: None,
        url: concat_texts(DOI_RESOLVER, doi.as_str()),
        pdf_url: tagged_value(&item.link, PDF_TYPE),
        citation_count: item.citation_count,
    }
}

/// The work that the answer to the request for one work describes; such
/// an answer has no links.
pub fn message_item(message: CRMessage) -> (item: CRItem)
    ensures
        item.doi == message.doi,
        item.title == message.title,
        item.author == message.author,
        item.citation_count == message.citation_count,
        item.published == message.published,
        item.link is None,
{
    CRItem {
        doi: message.doi,
        title: message.title,
        author: message.author,
        citation_count: message.citation_count,
        published: message.published,
        link: None,
    }
}

/// How many works a search asks for: what is wanted, and never more than
/// [`MAX_ROWS`].
pub fn search_rows(max_results: u32) -> (rows: u32)
    ensures
        rows == if max_results < MAX_ROWS {
            max_results
        } else {
            MAX_ROWS
        },
{
    if max_results < MAX_ROWS {
        max_results
    } else {
        MAX_ROWS
    }
}

/// The address of one work.
pub fn work_url(id: &str) -> (url: String)
    ensures
        url@ == BASE_URL@ + "/"@ + without_prefix(id@, ID_PREFIX@),
{
    let doi = remove_prefix(id, ID_PREFIX);
    let base = concat_texts(BASE_URL, "/");
    concat_texts(base.as_str(), doi.as_str())
}

} // verus!
