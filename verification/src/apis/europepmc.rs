//! Europe PMC: what is asked of it and how its answers read as records.

use vstd::prelude::*;
use vstd::string::StringExecFns;
use crate::apis::{number_in, number_of, opt_text, or_empty, text_or_empty, PaperResult, PaperView};
use crate::text::{concat_texts, copy_text, remove_prefix, split, split_by, without_prefix};

verus! {

/// Where the service answers.
pub const BASE_URL: &'static str = "https://www.ebi.ac.uk/europepmc/webservices/rest";

/// The name of the provider.
pub const NAME: &'static str = "europepmc";

/// What begins the ids of this provider's records.
pub const ID_PREFIX: &'static str = "pmid:";

/// What separates the authors in the text that lists them.
pub const AUTHOR_SEPARATOR: &'static str = ", ";

/// The most results that one search asks for.
pub const MAX_PAGE_SIZE: u32 = 100;

/// The number of results asked for in a list of citing papers.
pub const RELATION_SIZE: u32 = 25;

/// One result of an answer.
#[derive(Debug, Clone)]
pub struct EpmcResult {
    pub id: Option<String>,
    pub title: Option<String>,
    pub author_string: Option<String>,
    pub abstract_text: Option<String>,
    pub pub_year: Option<String>,
    pub doi: Option<String>,
    pub cited_by_count: Option<u32>,
    pub pmid: Option<String>,
}

/// The id of the record that a result reads as: by PubMed number if it
/// has one, else by DOI, else by the service's own id.
pub open spec fn id_of(r: EpmcResult) -> Seq<char> {
    match r.pmid {
        Some(p) => "pmid:"@ + p@,
        None => match r.doi {
            Some(d) => "doi:"@ + d@,
            None => "epmc:"@ + text_or_empty(opt_text(r.id)),
        },
    }
}

/// The record that a result reads as.
pub open spec fn paper_of(r: EpmcResult) -> PaperView {
    PaperView {
        id: id_of(r),
        title: text_or_empty(opt_text(r.title)),
        authors: match r.author_string {
            Some(a) => split_by(a@, AUTHOR_SEPARATOR@),
            None => Seq::empty(),
        },
        abstract_text: opt_text(r.abstract_text),
        year: number_in(r.pub_year),
        source: NAME@,
        doi: opt_text(r.doi),
        arxiv_id: None,
        url: match r.pmid {
            Some(p) => "https://europepmc.org/article/MED/"@ + p@,
            None => Seq::empty(),
        },
        pdf_url: None,
        citation_count: r.cited_by_count,
    }
}

/// Reads a result as a record.
pub fn epmc_to_paper(r: &EpmcResult) -> (paper: PaperResult)
    ensures
        paper@ == paper_of(*r),
{
    let authors: Vec<String> = match &r.author_string {
        Some(a) => split(a.as_str(), AUTHOR_SEPARATOR),
        None => Vec::new(),
    };
    proof {
        if r.author_string is None {
            assert(crate::apis::texts(authors@) =~= Seq::<Seq<char>>::empty());
        }
    }
    let id = match &r.pmid {
        Some(p) => concat_texts("pmid:", p.as_str()),
        None => match &r.doi {
            Some(d) => concat_texts("doi:", d.as_str()),
            None => {
                let own = or_empty(&r.id);
                concat_texts("epmc:", own.as_str())
            },
        },
    };
    PaperResult {
        id,
        title: or_empty(&r.title),
        authors,
        abstract_text: copy_text(&r.abstract_text),
        year: number_of(&r.pub_year),
        source: String::from_str(NAME),
        doi: copy_text(&r.doi),
        arxiv_id: None,
        url: match &r.pmid {
            Some(p) => concat_texts("https://europepmc.org/article/MED/", p.as_str()),
            None => String::new(),
        },
        pdf_url: None,
        citation_count: r.cited_by_count,
    }
}

/// How many results a search asks for: what is wanted, and never more
/// than [`MAX_PAGE_SIZE`].
pub fn page_size(max_results: u32) -> (size: u32)
    ensures
        size == if max_results < MAX_PAGE_SIZE {
            max_results
        } else {
            MAX_PAGE_SIZE
        },
{
    if max_results < MAX_PAGE_SIZE {
        max_results
    } else {
        MAX_PAGE_SIZE
    }
}

/// The address that searches are sent to.
pub fn search_url() -> (url: String)
    ensures
        url@ == BASE_URL@ + "/search"@,
{
    concat_texts(BASE_URL, "/search")
}

/// The query for the result of one record.
pub fn paper_query(id: &str) -> (query: String)
    ensures
        query@ == "EXT_ID:"@ + without_prefix(id@, ID_PREFIX@),
{
    let pmid = remove_prefix(id, ID_PREFIX);
    concat_texts("EXT_ID:", pmid.as_str())
}

/// The query for the results that cite a record.
pub fn citations_query(id: &str) -> (query: String)
    ensures
        query@ == "CITES:"@ + without_prefix(id@, ID_PREFIX@),
{
    let pmid = remove_prefix(id, ID_PREFIX);
    concat_texts("CITES:", pmid.as_str())
}

} // verus!
