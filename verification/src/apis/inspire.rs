//! INSPIRE-HEP: what is asked of it and how its answers read as records.

use vstd::prelude::*;
use vstd::string::StringExecFns;
use crate::apis::{
    first_of, first_text, or_empty, text_or_empty, texts_of, texts_or_none, PaperResult,
    PaperView,
};
use crate::text::{
    concat_texts, leading_bytes, leading_text, parse_u32, parsed_u32, remove_prefix, without_prefix,
};

verus! {

/// Where the service answers.
pub const BASE_URL: &'static str = "https://inspirehep.net/api/literature";

/// The name of the provider.
pub const NAME: &'static str = "inspire";

/// What begins the ids of this provider's records.
pub const ID_PREFIX: &'static str = "inspire:";

/// The fields asked for of every record.
pub const FIELDS: &'static str =
    "titles,authors,abstracts,dois,arxiv_eprints,citation_count,urls,earliest_date";

/// The number of records asked for in a list of citing papers.
pub const RELATION_SIZE: &'static str = "25";

/// How many bytes of a date spell its year.
pub const YEAR_LENGTH: usize = 4;

/// What the service says of a record. Each list holds the texts of its
/// entries: titles, authors' full names, abstracts, DOIs, arXiv numbers.
#[derive(Debug, Clone)]
pub struct InspireMetadata {
    pub titles: Option<Vec<String>>,
    pub authors: Option<Vec<String>>,
    pub abstracts: Option<Vec<String>>,
    pub dois: Option<Vec<String>>,
    pub arxiv_eprints: Option<Vec<String>>,
    pub citation_count: Option<u32>,
    pub earliest_date: Option<String>,
}

/// One record of an answer.
#[derive(Debug, Clone)]
pub struct InspireHit {
    pub id: String,
    pub metadata: InspireMetadata,
}

/// The year that a date begins with, if its first four bytes spell one.
pub open spec fn year_in(date: Option<String>) -> Option<u32> {
    match date {
        Some(d) => match leading_text(d@, YEAR_LENGTH as int) {
            Some(year) => parsed_u32(year),
            None => None,
        },
        None => None,
    }
}

/// Reads the year that a date begins with.
pub fn year_of(date: &Option<String>) -> (year: Option<u32>)
    ensures
        year == year_in(*date),
{
    match date {
        Some(d) => match leading_bytes(d.as_str(), YEAR_LENGTH) {
            Some(head) => parse_u32(head.as_str()),
            None => None,
        },
        None => None,
    }
}

/// The record that a hit reads as.
pub open spec fn paper_of(hit: InspireHit) -> PaperView {
    PaperView {
        id: ID_PREFIX@ + hit.id@,
        title: text_or_empty(first_text(hit.metadata.titles)),
        authors: texts_or_none(hit.metadata.authors),
        abstract_text: first_text(hit.metadata.abstracts),
        year: year_in(hit.metadata.earliest_date),
        source: NAME@,
        doi: first_text(hit.metadata.dois),
        arxiv_id: first_text(hit.metadata.arxiv_eprints),
        url: "https://inspirehep.net/literature/"@ + hit.id@,
        pdf_url: None,
        citation_count: hit.metadata.citation_count,
    }
}

/// Reads a hit as a record.
pub fn hit_to_paper(hit: &InspireHit) -> (paper: PaperResult)
    ensures
        paper@ == paper_of(*hit),
{
    let m = &hit.metadata;
    let title = first_of(&m.titles);
    PaperResult {
        id: concat_texts(ID_PREFIX, hit.id.as_str()),
        title: or_empty(&title),
        authors: texts_of(&m.authors),
        abstract_text: first_of(&m.abstracts),
        year: year_of(&m.earliest_date),
        source: String::from_str(NAME),
        doi: first_of(&m.dois),
        arxiv_id: first_of(&m.arxiv_eprints),
        url: concat_texts("https://inspirehep.net/literature/", hit.id.as_str()),
        pdf_url: None,
        citation_count: m.citation_count,
    }
}

/// The address of one record.
pub fn record_url(id: &str) -> (url: String)
    ensures
        url@ == BASE_URL@ + "/"@ + without_prefix(id@, ID_PREFIX@),
{
    let record = remove_prefix(id, ID_PREFIX);
    let base = concat_texts(BASE_URL, "/");
    concat_texts(base.as_str(), record.as_str())
}

/// The address of the records that a record cites.
pub fn references_url(id: &str) -> (url: String)
    ensures
        url@ == BASE_URL@ + "/"@ + without_prefix(id@, ID_PREFIX@) + "/references"@,
{
    let record = record_url(id);
    concat_texts(record.as_str(), "/references")
}

/// The query for the records that cite a record.
pub fn citations_query(id: &str) -> (query: String)
    ensures
        query@ == "refersto:recid:"@ + without_prefix(id@, ID_PREFIX@),
{
    let record = remove_prefix(id, ID_PREFIX);
    concat_texts("refersto:recid:", record.as_str())
}

} // verus!
