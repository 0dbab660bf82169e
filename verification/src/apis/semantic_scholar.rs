//! Semantic Scholar: what is asked of it and how its answers read as
//! records.

use vstd::prelude::*;
use vstd::string::StringExecFns;
use crate::apis::{
    opt_text, or_empty, present_of, present_or_none, text_or_empty, PaperResult, PaperView,
};
use crate::text::{concat_texts, copy_text, remove_prefix, without_prefix};

verus! {

/// Where the service answers.
pub const BASE_URL: &'static str = "https://api.semanticscholar.org/graph/v1";

/// The name of the provider.
pub const NAME: &'static str = "semantic_scholar";

/// What begins the ids of this provider's records.
pub const ID_PREFIX: &'static str = "s2:";

/// The fields asked for of every paper.
pub const FIELDS: &'static str =
    "title,authors,abstract,year,externalIds,citationCount,url,openAccessPdf";

/// The most papers that one search asks for.
pub const MAX_LIMIT: u32 = 100;

/// The ids that a paper has elsewhere.
#[derive(Debug, Clone)]
pub struct S2ExternalIds {
    pub doi: Option<String>,
    pub arxiv: Option<String>,
}

/// One paper of an answer. `authors` holds the authors' names, absent
/// where an author has none; `open_access_pdf` holds the address of the
/// open copy.
#[derive(Debug, Clone)]
pub struct S2Paper {
    pub paper_id: Option<String>,
    pub title: Option<String>,
    pub authors: Option<Vec<Option<String>>>,
    pub abstract_text: Option<String>,
    pub year: Option<u32>,
    pub external_ids: Option<S2ExternalIds>,
    pub citation_count: Option<u32>,
    pub url: Option<String>,
    pub open_access_pdf: Option<String>,
}

/// The record that a paper reads as.
pub open spec fn paper_of(p: S2Paper) -> PaperView {
    PaperView {
        id: ID_PREFIX@ + text_or_empty(opt_text(p.paper_id)),
        title: text_or_empty(opt_text(p.title)),
        authors: present_or_none(p.authors),
        abstract_text: opt_text(p.abstract_text),
        year: p.year,
        source: NAME@,
        doi: match p.external_ids {
            Some(ids) => opt_text(ids.doi),
            None => None,
        },
        arxiv_id: match p.external_ids {
            Some(ids) => opt_text(ids.arxiv),
            None => None,
        },
        url: text_or_empty(opt_text(p.url)),
        pdf_url: opt_text(p.open_access_pdf),
        citation_count: p.citation_count,
    }
}

/// Reads a paper as a record.
pub fn s2_to_paper(p: &S2Paper) -> (paper: PaperResult)
    ensures
        paper@ == paper_of(*p),
{
    let paper_id = or_empty(&p.paper_id);
    PaperResult {
        id: concat_texts(ID_PREFIX, paper_id.as_str()),
        title: or_empty(&p.title),
        authors: present_of(&p.authors),
        abstract_text: copy_text(&p.abstract_text),
        year: p.year,
        source: String::from_str(NAME),
        doi: match &p.external_ids {
            Some(ids) => copy_text(&ids.doi),
            None => None,
        },
        arxiv_id: match &p.external_ids {
            Some(ids) => copy_text(&ids.arxiv),
            None => None,
        },
        url: or_empty(&p.url),
        pdf_url: copy_text(&p.open_access_pdf),
        citation_count: p.citation_count,
    }
}

/// How many papers a search asks for: what is wanted, and never more than
/// [`MAX_LIMIT`].
pub fn search_limit(max_results: u32) -> (limit: u32)
    ensures
        limit == if max_results < MAX_LIMIT {
            max_results
        } else {
            MAX_LIMIT
        },
{
    if max_results < MAX_LIMIT {
        max_results
    } else {
        MAX_LIMIT
    }
}

/// The address that searches are sent to.
pub fn search_url() -> (url: String)
    ensures
        url@ == BASE_URL@ + "/paper/search"@,
{
    concat_texts(BASE_URL, "/paper/search")
}

/// The address of one paper.
pub fn paper_url(id: &str) -> (url: String)
    ensures
        url@ == BASE_URL@ + "/paper/"@ + without_prefix(id@, ID_PREFIX@),
{
    let paper_id = remove_prefix(id, ID_PREFIX);
    let base = concat_texts(BASE_URL, "/paper/");
    concat_texts(base.as_str(), paper_id.as_str())
}

/// The address of the papers that cite a paper.
pub fn citations_url(id: &str) -> (url: String)
    ensures
        url@ == BASE_URL@ + "/paper/"@ + without_prefix(id@, ID_PREFIX@) + "/citations"@,
{
    let paper = paper_url(id);
    concat_texts(paper.as_str(), "/citations")
}

/// The address of the papers that a paper cites.
pub fn references_url(id: &str) -> (url: String)
    ensures
        url@ == BASE_URL@ + "/paper/"@ + without_prefix(id@, ID_PREFIX@) + "/references"@,
{
    let paper = paper_url(id);
    concat_texts(paper.as_str(), "/references")
}

/// The fields asked for of the papers at the far end of a citation: the
/// paper fields under the name of that end.
pub fn relation_fields(end: &str) -> (fields: String)
    ensures
        fields@ == end@ + "."@ + FIELDS@,
{
    let head = concat_texts(end, ".");
    concat_texts(head.as_str(), FIELDS)
}

} // verus!
