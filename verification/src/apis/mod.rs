//! The record shape shared by every provider and by the local index.

pub mod ads;
pub mod arxiv;
pub mod crossref;
pub mod doaj;
pub mod europepmc;
pub mod inspire;
pub mod openalex;
pub mod semantic_scholar;
pub mod unpaywall;
pub mod vixra;

use vstd::prelude::*;
use vstd::string::StringExecFns;

verus! {

/// A bibliographic record as every part of the engine sees it.
///
/// `id` is the join key between the lexical index and the vector store. No
/// other field is guaranteed to be filled.
#[derive(Debug, Clone)]
pub struct PaperResult {
    pub id: String,
    pub title: String,
    pub authors: Vec<String>,
    pub abstract_text: Option<String>,
    pub year: Option<u32>,
    pub source: String,
    pub doi: Option<String>,
    pub arxiv_id: Option<String>,
    pub url: String,
    pub pdf_url: Option<String>,
    pub citation_count: Option<u32>,
}

/// The mathematical content of a [`PaperResult`]: text as sequences of
/// characters, absent fields as `None`.
pub struct PaperView {
    pub id: Seq<char>,
    pub title: Seq<char>,
    pub authors: Seq<Seq<char>>,
    pub abstract_text: Option<Seq<char>>,
    pub year: Option<u32>,
    pub source: Seq<char>,
    pub doi: Option<Seq<char>>,
    pub arxiv_id: Option<Seq<char>>,
    pub url: Seq<char>,
    pub pdf_url: Option<Seq<char>>,
    pub citation_count: Option<u32>,
}

/// The text of an optional string.
pub open spec fn opt_text(s: Option<String>) -> Option<Seq<char>> {
    match s {
        Some(t) => Some(t@),
        None => None,
    }
}

/// The texts of a list of strings, in order.
pub open spec fn texts(v: Seq<String>) -> Seq<Seq<char>> {
    Seq::new(v.len(), |i: int| v[i]@)
}

impl View for PaperResult {
    type V = PaperView;

    open spec fn view(&self) -> PaperView {
        PaperView {
            id: self.id@,
            title: self.title@,
            authors: texts(self.authors@),
            abstract_text: opt_text(self.abstract_text),
            year: self.year,
            source: self.source@,
            doi: opt_text(self.doi),
            arxiv_id: opt_text(self.arxiv_id),
            url: self.url@,
            pdf_url: opt_text(self.pdf_url),
            citation_count: self.citation_count,
        }
    }
}

/// A text, or the empty text where there is none.
pub open spec fn text_or_empty(text: Option<Seq<char>>) -> Seq<char> {
    match text {
        Some(t) => t,
        None => Seq::empty(),
    }
}

/// The first text of a list, if there is a list with a text in it.
pub open spec fn first_text(list: Option<Vec<String>>) -> Option<Seq<char>> {
    match list {
        Some(texts) => if texts@.len() > 0 {
            Some(texts@[0]@)
        } else {
            None
        },
        None => None,
    }
}

/// The texts of a list, none where there is no list.
pub open spec fn texts_or_none(list: Option<Vec<String>>) -> Seq<Seq<char>> {
    match list {
        Some(l) => texts(l@),
        None => Seq::empty(),
    }
}

/// A copy of a text that may be absent; the empty text where it is.
pub fn or_empty(text: &Option<String>) -> (present: String)
    ensures
        present@ == text_or_empty(opt_text(*text)),
{
    match text {
        Some(t) => t.clone(),
        None => String::new(),
    }
}

/// A copy of the first text of a list.
pub fn first_of(list: &Option<Vec<String>>) -> (first: Option<String>)
    ensures
        opt_text(first) == first_text(*list),
{
    match list {
        Some(texts) => if texts.len() > 0 {
            Some(texts[0].clone())
        } else {
            None
        },
        None => None,
    }
}

/// A copy of the texts of a list; none where there is no list.
pub fn texts_of(list: &Option<Vec<String>>) -> (copy: Vec<String>)
    ensures
        texts(copy@) == texts_or_none(*list),
{
    match list {
        Some(l) => crate::text::copy_texts(l),
        None => Vec::new(),
    }
}

/// The texts that are present in a list, in order.
pub open spec fn present(list: Seq<Option<String>>) -> Seq<Seq<char>>
    decreases list.len(),
{
    if list.len() == 0 {
        Seq::empty()
    } else {
        match list.last() {
            Some(text) => present(list.drop_last()).push(text@),
            None => present(list.drop_last()),
        }
    }
}

/// The texts that are present in a list, none where there is no list.
pub open spec fn present_or_none(list: Option<Vec<Option<String>>>) -> Seq<Seq<char>> {
    match list {
        Some(l) => present(l@),
        None => Seq::empty(),
    }
}

/// A copy of the texts that are present in a list.
pub fn present_of(list: &Option<Vec<Option<String>>>) -> (copy: Vec<String>)
    ensures
        texts(copy@) == present_or_none(*list),
{
    let mut copy: Vec<String> = Vec::new();
    match list {
        Some(l) => {
            let mut i: usize = 0;
            proof {
                assert(l@.take(0) =~= Seq::<Option<String>>::empty());
                assert(texts(copy@) =~= Seq::<Seq<char>>::empty());
            }
            while i < l.len()
                invariant
                    0 <= i <= l@.len(),
                    texts(copy@) == present(l@.take(i as int)),
                decreases l@.len() - i,
            {
                proof {
                    assert(l@.take(i + 1).drop_last() =~= l@.take(i as int));
                    assert(l@.take(i + 1).last() == l@[i as int]);
                }
                match &l[i] {
                    Some(text) => {
                        let ghost before = texts(copy@);
                        copy.push(text.clone());
                        proof {
                            assert(texts(copy@) =~= before.push(text@));
                        }
                    },
                    None => {},
                }
                i += 1;
            }
            proof {
                assert(l@.take(l@.len() as int) =~= l@);
            }
        },
        None => {
            proof {
                assert(texts(copy@) =~= Seq::<Seq<char>>::empty());
            }
        },
    }
    copy
}

/// A value with the kind it is of, as providers list links and
/// identifiers.
#[derive(Debug, Clone)]
pub struct Tagged {
    pub kind: Option<String>,
    pub value: Option<String>,
}

/// The value of the first entry of the given kind, if there is such an
/// entry and it has a value.
pub open spec fn first_tagged(list: Seq<Tagged>, kind: Seq<char>) -> Option<Seq<char>>
    decreases list.len(),
{
    if list.len() == 0 {
        None
    } else if opt_text(list.first().kind) == Some(kind) {
        opt_text(list.first().value)
    } else {
        first_tagged(list.drop_first(), kind)
    }
}

/// The value of the first entry of the given kind; none where there is no
/// list.
pub open spec fn first_tagged_or_none(list: Option<Vec<Tagged>>, kind: Seq<char>) -> Option<
    Seq<char>,
> {
    match list {
        Some(l) => first_tagged(l@, kind),
        None => None,
    }
}

/// A copy of the value of the first entry of the given kind.
pub fn tagged_value(list: &Option<Vec<Tagged>>, kind: &str) -> (value: Option<String>)
    ensures
        opt_text(value) == first_tagged_or_none(*list, kind@),
{
    match list {
        Some(l) => {
            let wanted = String::from_str(kind);
            let mut i: usize = 0;
            proof {
                assert(l@.skip(0) =~= l@);
            }
            while i < l.len()
                invariant
                    *list == Some(*l),
                    0 <= i <= l@.len(),
                    wanted@ == kind@,
                    first_tagged(l@, kind@) == first_tagged(l@.skip(i as int), kind@),
                decreases l@.len() - i,
            {
                proof {
                    assert(l@.skip(i as int).first() == l@[i as int]);
                    assert(l@.skip(i as int).drop_first() =~= l@.skip(i + 1));
                }
                let found = match &l[i].kind {
                    Some(k) => *k == wanted,
                    None => false,
                };
                if found {
                    return match &l[i].value {
                        Some(v) => Some(v.clone()),
                        None => None,
                    };
                }
                i += 1;
            }
            None
        },
        None => None,
    }
}

/// The number that a text spells out, if there is a text and it spells
/// out one.
pub open spec fn number_in(text: Option<String>) -> Option<u32> {
    match text {
        Some(t) => crate::text::parsed_u32(t@),
        None => None,
    }
}

/// Reads a number out of a text that may be absent.
pub fn number_of(text: &Option<String>) -> (number: Option<u32>)
    ensures
        number == number_in(*text),
{
    match text {
        Some(t) => crate::text::parse_u32(t.as_str()),
        None => None,
    }
}

/// Why a provider could not answer.
#[derive(Debug, Clone)]
pub enum SourceError {
    /// The request did not go through; the text says why.
    Http(String),
    /// The answer could not be read.
    Parse(String),
    /// The provider answered with an error.
    Api(String),
    /// The provider needs a key that is not configured.
    MissingKey(String),
}

/// The text that describes an error to a reader.
pub open spec fn error_text(e: SourceError) -> Seq<char> {
    match e {
        SourceError::Http(detail) => "HTTP request failed: "@ + detail@,
        SourceError::Parse(detail) => "Parse error: "@ + detail@,
        SourceError::Api(detail) => "API error: "@ + detail@,
        SourceError::MissingKey(detail) => "Missing API key: "@ + detail@,
    }
}

impl SourceError {
    /// Describes the error in one line.
    pub fn message(&self) -> (text: String)
        ensures
            text@ == error_text(*self),
    {
        match self {
            SourceError::Http(detail) => String::from_str("HTTP request failed: ").concat(
                detail.as_str(),
            ),
            SourceError::Parse(detail) => String::from_str("Parse error: ").concat(detail.as_str()),
            SourceError::Api(detail) => String::from_str("API error: ").concat(detail.as_str()),
            SourceError::MissingKey(detail) => String::from_str("Missing API key: ").concat(
                detail.as_str(),
            ),
        }
    }
}

} // verus!
