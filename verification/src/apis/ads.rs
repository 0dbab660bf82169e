//! The astrophysics data system: what is asked of it and how its answers
//! read as records.

use vstd::prelude::*;
use vstd::string::StringExecFns;
use crate::apis::{
    first_of, first_text, number_in, number_of, opt_text, or_empty, text_or_empty, texts_of,
    texts_or_none, PaperResult, PaperView,
};
use crate::text::{concat_texts, copy_text, remove_prefix, without_prefix};

verus! {

/// Where the service answers.
pub const BASE_URL: &'static str = "https://api.adsabs.harvard.edu/v1";

/// The name of the provider.
pub const NAME: &'static str = "ads";

/// What begins the ids of this provider's records.
pub const ID_PREFIX: &'static str = "ads:";

/// The fields asked for of every document.
pub const FIELDS: &'static str = "bibcode,title,author,abstract,year,doi,citation_count";

/// The most documents that one search asks for.
pub const MAX_ROWS: u32 = 200;

/// The number of documents asked for in a list of citing or cited papers.
pub const RELATION_ROWS: &'static str = "25";

/// One document of an answer.
#[derive(Debug, Clone)]
pub struct AdsDoc {
    pub bibcode: Option<String>,
    pub title: Option<Vec<String>>,
    pub author: Option<Vec<String>>,
    pub abstract_text: Option<String>,
    pub year: Option<String>,
    pub doi: Option<Vec<String>>,
    pub citation_count: Option<u32>,
}

/// The record that a document reads as.
pub open spec fn paper_of(doc: AdsDoc) -> PaperView {
    let bibcode = text_or_empty(opt_text(doc.bibcode));
    PaperView {
        id: ID_PREFIX@ + bibcode,
        title: text_or_empty(first_text(doc.title)),
        authors: texts_or_none(doc.author),
        abstract_text: opt_text(doc.abstract_text),
        year: number_in(doc.year),
        source: NAME@,
        doi: first_text(doc.doi),
        arxiv_id: None,
        url: "https://ui.adsabs.harvard.edu/abs/"@ + bibcode,
        pdf_url: None,
        citation_count: doc.citation_count,
    }
}

/// Reads a document as a record.
pub fn doc_to_paper(doc: &AdsDoc) -> (paper: PaperResult)
    ensures
        paper@ == paper_of(*doc),
{
    let bibcode = or_empty(&doc.bibcode);
    let title = first_of(&doc.title);
    PaperResult {
        id: concat_texts(ID_PREFIX, bibcode.as_str()),
        title: or_empty(&title),
        authors: texts_of(&doc.author),
        abstract_text: copy_text(&doc.abstract_text),
        year: number_of(&doc.year),
        source: String::from_str(NAME),
        doi: first_of(&doc.doi),
        arxiv_id: None,
        url: concat_texts("https://ui.adsabs.harvard.edu/abs/", bibcode.as_str()),
        pdf_url: None,
        citation_count: doc.citation_count,
    }
}

/// How many documents a search asks for: what is wanted, and never more
/// than [`MAX_ROWS`].
pub fn search_rows(max_results: u32) -> (rows: u32)
    ensures
        rows == if max_results < MAX_ROWS {
            max_results
        } else {
            MAX_ROWS
        },
{
    if max_results < MAX_ROWS {
        max_results
    } else {
        MAX_ROWS
    }
}

/// The address that searches are sent to.
pub fn search_url() -> (url: String)
    ensures
        url@ == BASE_URL@ + "/search/query"@,
{
    concat_texts(BASE_URL, "/search/query")
}

/// The value of the header that authorizes a request.
pub fn bearer(api_key: &str) -> (value: String)
    ensures
        value@ == "Bearer "@ + api_key@,
{
    concat_texts("Bearer ", api_key)
}

/// The query for the document of one record.
pub fn paper_query(id: &str) -> (query: String)
    ensures
        query@ == "bibcode:"@ + without_prefix(id@, ID_PREFIX@),
{
    let bibcode = remove_prefix(id, ID_PREFIX);
    concat_texts("bibcode:", bibcode.as_str())
}

/// The query for the documents that cite a record.
pub fn citations_query(id: &str) -> (query: String)
    ensures
        query@ == "citations(bibcode:"@ + without_prefix(id@, ID_PREFIX@) + ")"@,
{
    let bibcode = remove_prefix(id, ID_PREFIX);
    let open = concat_texts("citations(bibcode:", bibcode.as_str());
    concat_texts(open.as_str(), ")")
}

/// The query for the documents that a record cites.
pub fn references_query(id: &str) -> (query: String)
    ensures
        query@ == "references(bibcode:"@ + without_prefix(id@, ID_PREFIX@) + ")"@,
{
    let bibcode = remove_prefix(id, ID_PREFIX);
    let open = concat_texts("references(bibcode:", bibcode.as_str());
    concat_texts(open.as_str(), ")")
}

} // verus!
