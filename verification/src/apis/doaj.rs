//! The directory of open access journals: what is asked of it and how its
//! answers read as records.

use vstd::prelude::*;
use vstd::string::StringExecFns;
use crate::apis::{
    first_tagged_or_none, number_in, number_of, opt_text, or_empty, present_of, present_or_none,
    tagged_value, text_or_empty, PaperResult, PaperView, Tagged,
};
use crate::text::{concat_texts, copy_text, push_char, remove_prefix, without_prefix};

verus! {

/// Where the service answers.
pub const BASE_URL: &'static str = "https://doaj.org/api/search/articles";

/// The name of the provider.
pub const NAME: &'static str = "doaj";

/// What begins the ids of this provider's records.
pub const ID_PREFIX: &'static str = "doaj:";

/// The kind of identifier that is a DOI.
pub const DOI_KIND: &'static str = "doi";

/// The kind of link that leads to an article's full text.
pub const FULLTEXT_KIND: &'static str = "fulltext";

/// The most articles that one search asks for.
pub const MAX_PAGE_SIZE: u32 = 100;

/// What the service says of an article. `author` holds the authors' names,
/// absent where an author has none; `identifier` and `link` hold each entry
/// with its type as kind and its id or address as value.
#[derive(Debug, Clone)]
pub struct DoajBibJson {
    pub title: Option<String>,
    pub author: Option<Vec<Option<String>>>,
    pub abstract_text: Option<String>,
    pub year: Option<String>,
    pub identifier: Option<Vec<Tagged>>,
    pub link: Option<Vec<Tagged>>,
}

/// One article of an answer.
#[derive(Debug, Clone)]
pub struct DoajResult {
    pub bibjson: DoajBibJson,
    pub id: Option<String>,
}

/// The address of the first link, if there is a link and it has one.
pub open spec fn first_address(links: Option<Vec<Tagged>>) -> Option<Seq<char>> {
    match links {
        Some(l) => if l@.len() > 0 {
            opt_text(l@[0].value)
        } else {
            None
        },
        None => None,
    }
}

/// The record that an article reads as.
pub open spec fn paper_of(r: DoajResult) -> PaperView {
    PaperView {
        id: ID_PREFIX@ + text_or_empty(opt_text(r.id)),
        title: text_or_empty(opt_text(r.bibjson.title)),
        authors: present_or_none(r.bibjson.author),
        abstract_text: opt_text(r.bibjson.abstract_text),
        year: number_in(r.bibjson.year),
        source: NAME@,
        doi: first_tagged_or_none(r.bibjson.identifier, DOI_KIND@),
        arxiv_id: None,
        url: text_or_empty(first_address(r.bibjson.link)),
        pdf_url: first_tagged_or_none(r.bibjson.link, FULLTEXT_KIND@),
        citation_count: None,
    }
}

/// A copy of the address of the first link.
fn first_link(links: &Option<Vec<Tagged>>) -> (address: Option<String>)
    ensures
        opt_text(address) == first_address(*links),
{
    match links {
        Some(l) => if l.len() > 0 {
            copy_text(&l[0].value)
        } else {
            None
        },
        None => None,
    }
}

/// Reads an article as a record.
pub fn doaj_to_paper(r: &DoajResult) -> (paper: PaperResult)
    ensures
        paper@ == paper_of(*r),
{
    let bib = &r.bibjson;
    let own = or_empty(&r.id);
    let address = first_link(&bib.link);
    PaperResult {
        id: concat_texts(ID_PREFIX, own.as_str()),
        title: or_empty(&bib.title),
        authors: present_of(&bib.author),
        abstract_text: copy_text(&bib.abstract_text),
        year: number_of(&bib.year),
        source: String::from_str(NAME),
        doi: tagged_value(&bib.identifier, DOI_KIND),
        arxiv_id: None,
        url: or_empty(&address),
        pdf_url: tagged_value(&bib.link, FULLTEXT_KIND),
        citation_count: None,
    }
}

/// `s` with each space written as `%20`.
pub open spec fn spaces_encoded(s: Seq<char>) -> Seq<char>
    decreases s.len(),
{
    if s.len() == 0 {
        Seq::empty()
    } else if s.last() == ' ' {
        spaces_encoded(s.drop_last()) + "%20"@
    } else {
        spaces_encoded(s.drop_last()).push(s.last())
    }
}

/// Writes a query as part of an address.
pub fn urlencoded(s: &str) -> (encoded: String)
    ensures
        encoded@ == spaces_encoded(s@),
{
    let ghost text = s@;
    let mut encoded = String::new();
    proof {
        assert(text.take(0) =~= Seq::<char>::empty());
    }
    for c in it: s.chars()
        invariant
            it.seq() == text,
            encoded@ == spaces_encoded(text.take(it.index() as int)),
    {
        proof {
            let i = it.index() as int;
            assert(text.take(i + 1).drop_last() =~= text.take(i));
            assert(text.take(i + 1).last() == c);
        }
        if c == ' ' {
            encoded.append("%20");
        } else {
            push_char(&mut encoded, c);
        }
    }
    proof {
        assert(text.take(text.len() as int) =~= text);
    }
    encoded
}

/// The address that a search for `query` is sent to.
pub fn search_url(query: &str) -> (url: String)
    ensures
        url@ == BASE_URL@ + "/"@ + spaces_encoded(query@),
{
    let encoded = urlencoded(query);
    let base = concat_texts(BASE_URL, "/");
    concat_texts(base.as_str(), encoded.as_str())
}

/// How many articles a search asks for: what is wanted, and never more
/// than [`MAX_PAGE_SIZE`].
pub fn page_size(max_results: u32) -> (size: u32)
    ensures
        size == if max_results < MAX_PAGE_SIZE {
            max_results
        } else {
            MAX_PAGE_SIZE
        },
{
    if max_results < MAX_PAGE_SIZE {
        max_results
    } else {
        MAX_PAGE_SIZE
    }
}

/// What is searched for to find one article: its id without the prefix.
pub fn paper_query(id: &str) -> (query: String)
    ensures
        query@ == without_prefix(id@, ID_PREFIX@),
{
    remove_prefix(id, ID_PREFIX)
}

} // verus!
