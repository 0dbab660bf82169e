//! OpenAlex: what is asked of it and how its answers read as records.

use vstd::prelude::*;
use vstd::string::StringExecFns;
use crate::apis::{
    opt_text, or_empty, present_of, present_or_none, text_or_empty, PaperResult, PaperView,
};
use crate::text::{concat_texts, copy_text, remove_prefix, replace, replaced, without_prefix};

verus! {

/// Where the service answers.
pub const BASE_URL: &'static str = "https://api.openalex.org";

/// The name of the provider.
pub const NAME: &'static str = "openalex";

/// What begins the ids of this provider's records.
pub const ID_PREFIX: &'static str = "openalex:";

/// The fields asked for of every work.
pub const SELECT: &'static str =
    "id,title,authorships,publication_year,doi,open_access,cited_by_count";

/// The most works that one search asks for.
pub const MAX_PER_PAGE: u32 = 200;

/// What a DOI begins with when it is given as an address.
pub const DOI_RESOLVER: &'static str = "https://doi.org/";

/// How the engine names itself to the service.
pub const AGENT: &'static str = "paper-search-mcp/0.1";

/// One work of an answer. `authorships` holds the authors' display names,
/// absent where an author has none; `oa_url` holds the address of the open
/// copy.
#[derive(Debug, Clone)]
pub struct OAWork {
    pub id: Option<String>,
    pub title: Option<String>,
    pub authorships: Option<Vec<Option<String>>>,
    pub publication_year: Option<u32>,
    pub doi: Option<String>,
    pub oa_url: Option<String>,
    pub cited_by_count: Option<u32>,
}

/// The record that a work reads as. The DOI is bare: the resolver's
/// address is taken out of it.
pub open spec fn paper_of(w: OAWork) -> PaperView {
    PaperView {
        id: ID_PREFIX@ + text_or_empty(opt_text(w.id)),
        title: text_or_empty(opt_text(w.title)),
        authors: present_or_none(w.authorships),
        abstract_text: None,
        year: w.publication_year,
        source: NAME@,
        doi: match w.doi {
            Some(d) => Some(replaced(d@, DOI_RESOLVER@, Seq::empty())),
            None => None,
        },
        arxiv_id: None,
        url: text_or_empty(opt_text(w.id)),
        pdf_url: opt_text(w.oa_url),
        citation_count: w.cited_by_count,
    }
}

/// Reads a work as a record.
pub fn oa_to_paper(w: &OAWork) -> (paper: PaperResult)
    ensures
        paper@ == paper_of(*w),
{
    let id = or_empty(&w.id);
    let empty = String::new();
    PaperResult {
        id: concat_texts(ID_PREFIX, id.as_str()),
        title: or_empty(&w.title),
        authors: present_of(&w.authorships),
        abstract_text: None,
        year: w.publication_year,
        source: String::from_str(NAME),
        doi: match &w.doi {
            Some(d) => Some(replace(d.as_str(), DOI_RESOLVER, empty.as_str())),
            None => None,
        },
        arxiv_id: None,
        url: id,
        pdf_url: copy_text(&w.oa_url),
        citation_count: w.cited_by_count,
    }
}

/// How the engine names itself: with an address to write to where one is
/// configured.
pub fn user_agent(email: Option<&str>) -> (agent: String)
    ensures
        agent@ == match email {
            Some(e) => AGENT@ + " (mailto:"@ + e@ + ")"@,
            None => AGENT@,
        },
{
    match email {
        Some(e) => {
            let head = concat_texts(AGENT, " (mailto:");
            let named = concat_texts(head.as_str(), e);
            concat_texts(named.as_str(), ")")
        },
        None => String::from_str(AGENT),
    }
}

/// How many works a search asks for: what is wanted, and never more than
/// [`MAX_PER_PAGE`].
pub fn per_page(max_results: u32) -> (count: u32)
    ensures
        count == if max_results < MAX_PER_PAGE {
            max_results
        } else {
            MAX_PER_PAGE
        },
{
    if max_results < MAX_PER_PAGE {
        max_results
    } else {
        MAX_PER_PAGE
    }
}

/// The address that searches are sent to.
pub fn works_url() -> (url: String)
    ensures
        url@ == BASE_URL@ + "/works"@,
{
    concat_texts(BASE_URL, "/works")
}

/// The address of one work.
pub fn work_url(id: &str) -> (url: String)
    ensures
        url@ == BASE_URL@ + "/works/"@ + without_prefix(id@, ID_PREFIX@),
{
    let work = remove_prefix(id, ID_PREFIX);
    let base = concat_texts(BASE_URL, "/works/");
    concat_texts(base.as_str(), work.as_str())
}

/// The filter for the works that cite a work.
pub fn citations_filter(id: &str) -> (filter: String)
    ensures
        filter@ == "cites:"@ + without_prefix(id@, ID_PREFIX@),
{
    let work = remove_prefix(id, ID_PREFIX);
    concat_texts("cites:", work.as_str())
}

/// The filter for the works that a work cites.
pub fn references_filter(id: &str) -> (filter: String)
    ensures
        filter@ == "cited_by:"@ + without_prefix(id@, ID_PREFIX@),
{
    let work = remove_prefix(id, ID_PREFIX);
    concat_texts("cited_by:", work.as_str())
}

} // verus!
