//! The rows of the vector store: how a record becomes a row and a row a
//! record again, and how rows are found by id.

use vstd::prelude::*;
use vstd::string::StringExecFns;
use crate::apis::{opt_text, text_or_empty, texts, PaperResult, PaperView};
use crate::embed::specter::EMBEDDING_DIMENSION;
use crate::index::hybrid::{Hit, RawScore};
use crate::text::{copy_text, push_char};

verus! {

/// The table that holds the rows.
pub const TABLE_NAME: &'static str = "papers";

/// What a column of the table holds.
#[derive(Debug, Clone, Copy, PartialEq, Eq, Structural)]
pub enum ColumnKind {
    /// A text.
    Text,
    /// A signed 32-bit number.
    Number,
    /// A list of single-precision numbers of the given length.
    Embedding(usize),
}

/// One column of the table.
#[derive(Debug, Clone, Copy)]
pub struct Column {
    pub name: &'static str,
    pub kind: ColumnKind,
    /// Whether a row may be without a value in the column.
    pub nullable: bool,
}

/// The columns of the table: the fields of a record, the authors as one
/// text, and the embedding.
pub open spec fn table_columns() -> Seq<Column> {
    seq![
        Column { name: "id", kind: ColumnKind::Text, nullable: false },
        Column { name: "title", kind: ColumnKind::Text, nullable: false },
        Column { name: "abstract_text", kind: ColumnKind::Text, nullable: true },
        Column { name: "authors_json", kind: ColumnKind::Text, nullable: true },
        Column { name: "year", kind: ColumnKind::Number, nullable: true },
        Column { name: "source", kind: ColumnKind::Text, nullable: true },
        Column { name: "doi", kind: ColumnKind::Text, nullable: true },
        Column { name: "arxiv_id", kind: ColumnKind::Text, nullable: true },
        Column { name: "url", kind: ColumnKind::Text, nullable: true },
        Column { name: "pdf_url", kind: ColumnKind::Text, nullable: true },
        Column { name: "citation_count", kind: ColumnKind::Number, nullable: true },
        Column {
            name: "embedding",
            kind: ColumnKind::Embedding(EMBEDDING_DIMENSION),
            nullable: true,
        },
    ]
}

/// The columns of the table, in order.
pub fn columns() -> (list: Vec<Column>)
    ensures
        list@ == table_columns(),
{
    let mut list: Vec<Column> = Vec::new();
    list.push(Column { name: "id", kind: ColumnKind::Text, nullable: false });
    list.push(Column { name: "title", kind: ColumnKind::Text, nullable: false });
    list.push(Column { name: "abstract_text", kind: ColumnKind::Text, nullable: true });
    list.push(Column { name: "authors_json", kind: ColumnKind::Text, nullable: true });
    list.push(Column { name: "year", kind: ColumnKind::Number, nullable: true });
    list.push(Column { name: "source", kind: ColumnKind::Text, nullable: true });
    list.push(Column { name: "doi", kind: ColumnKind::Text, nullable: true });
    list.push(Column { name: "arxiv_id", kind: ColumnKind::Text, nullable: true });
    list.push(Column { name: "url", kind: ColumnKind::Text, nullable: true });
    list.push(Column { name: "pdf_url", kind: ColumnKind::Text, nullable: true });
    list.push(Column { name: "citation_count", kind: ColumnKind::Number, nullable: true });
    list.push(
        Column { name: "embedding", kind: ColumnKind::Embedding(EMBEDDING_DIMENSION), nullable: true },
    );
    assert(list@ =~= table_columns());
    list
}

/// Why the vector store refuses a row.
#[derive(Debug, Clone, Copy, PartialEq, Eq, Structural)]
pub enum IndexError {
    /// The embedding does not have the store's dimension.
    DimensionMismatch { expected: usize, found: usize },
}

/// Accepts an embedding of the store's dimension and no other.
pub fn check_dimension(length: usize) -> (checked: Result<(), IndexError>)
    ensures
        length == EMBEDDING_DIMENSION ==> checked is Ok,
        length != EMBEDDING_DIMENSION ==> checked == Err::<(), IndexError>(
            IndexError::DimensionMismatch { expected: EMBEDDING_DIMENSION, found: length },
        ),
{
    if length == EMBEDDING_DIMENSION {
        Ok(())
    } else {
        Err(IndexError::DimensionMismatch { expected: EMBEDDING_DIMENSION, found: length })
    }
}

/// The JSON text of a list of strings, where the list can be written as
/// JSON.
pub uninterp spec fn json_text_of(strings: Seq<Seq<char>>) -> Option<Seq<char>>;

/// The list of strings that a JSON text holds, if it holds one.
pub uninterp spec fn strings_of_json(json: Seq<char>) -> Option<Seq<Seq<char>>>;

/// `serde_json::to_string` on a list of strings: the JSON form of the
/// list, and nothing where writing it fails.
#[verifier::external_body]
fn to_json(strings: &Vec<String>) -> (json: Option<String>)
    ensures
        opt_text(json) == json_text_of(texts(strings@)),
{
    serde_json::to_string(strings).ok()
}

/// `serde_json::from_str` for a list of strings: the list that the text
/// holds, and nothing where the text is no such list.
#[verifier::external_body]
fn from_json(json: &str) -> (strings: Option<Vec<String>>)
    ensures
        match strings {
            Some(list) => strings_of_json(json@) == Some(texts(list@)),
            None => strings_of_json(json@) is None,
        },
{
    serde_json::from_str::<Vec<String>>(json).ok()
}

/// A 32-bit number as the store holds it: the same bits read as signed.
pub open spec fn stored_number(n: u32) -> i32 {
    if n <= 0x7FFF_FFFF {
        n as i32
    } else {
        (n - 0x1_0000_0000) as i32
    }
}

/// A stored number as the record has it: the same bits read as unsigned.
pub open spec fn loaded_number(n: i32) -> u32 {
    if n >= 0 {
        n as u32
    } else {
        (n + 0x1_0000_0000) as u32
    }
}

/// Reads the bits of an unsigned number as signed.
pub fn to_stored(n: u32) -> (stored: i32)
    ensures
        stored == stored_number(n),
{
    if n <= 0x7FFF_FFFF {
        n as i32
    } else {
        (n as i64 - 0x1_0000_0000) as i32
    }
}

/// Reads the bits of a signed number as unsigned.
pub fn to_loaded(n: i32) -> (loaded: u32)
    ensures
        loaded == loaded_number(n),
{
    if n >= 0 {
        n as u32
    } else {
        (n as i64 + 0x1_0000_0000) as u32
    }
}

/// A number comes back from the store as it went in.
pub proof fn lemma_numbers_round_trip(n: u32)
    ensures
        loaded_number(stored_number(n)) == n,
{
}

/// One row of the store, without its embedding. A field is absent where
/// the store holds no value for it.
#[derive(Debug, Clone)]
pub struct StoredRow {
    pub id: Option<String>,
    pub title: Option<String>,
    pub abstract_text: Option<String>,
    pub authors_json: Option<String>,
    pub year: Option<i32>,
    pub source: Option<String>,
    pub doi: Option<String>,
    pub arxiv_id: Option<String>,
    pub url: Option<String>,
    pub pdf_url: Option<String>,
    pub citation_count: Option<i32>,
}

/// The content of a [`StoredRow`].
pub struct RowView {
    pub id: Option<Seq<char>>,
    pub title: Option<Seq<char>>,
    pub abstract_text: Option<Seq<char>>,
    pub authors_json: Option<Seq<char>>,
    pub year: Option<i32>,
    pub source: Option<Seq<char>>,
    pub doi: Option<Seq<char>>,
    pub arxiv_id: Option<Seq<char>>,
    pub url: Option<Seq<char>>,
    pub pdf_url: Option<Seq<char>>,
    pub citation_count: Option<i32>,
}

impl View for StoredRow {
    type V = RowView;

    open spec fn view(&self) -> RowView {
        RowView {
            id: opt_text(self.id),
            title: opt_text(self.title),
            abstract_text: opt_text(self.abstract_text),
            authors_json: opt_text(self.authors_json),
            year: self.year,
            source: opt_text(self.source),
            doi: opt_text(self.doi),
            arxiv_id: opt_text(self.arxiv_id),
            url: opt_text(self.url),
            pdf_url: opt_text(self.pdf_url),
            citation_count: self.citation_count,
        }
    }
}

/// An optional number as the store holds it.
pub open spec fn stored_opt(n: Option<u32>) -> Option<i32> {
    match n {
        Some(v) => Some(stored_number(v)),
        None => None,
    }
}

/// An optional stored number as the record has it.
pub open spec fn loaded_opt(n: Option<i32>) -> Option<u32> {
    match n {
        Some(v) => Some(loaded_number(v)),
        None => None,
    }
}

/// The row that holds a record, given the text that holds its authors.
pub open spec fn row_of(paper: PaperView, authors_json: Seq<char>) -> RowView {
    RowView {
        id: Some(paper.id),
        title: Some(paper.title),
        abstract_text: paper.abstract_text,
        authors_json: Some(authors_json),
        year: stored_opt(paper.year),
        source: Some(paper.source),
        doi: paper.doi,
        arxiv_id: paper.arxiv_id,
        url: Some(paper.url),
        pdf_url: paper.pdf_url,
        citation_count: stored_opt(paper.citation_count),
    }
}

/// The text that holds a list of authors in the store: the JSON form of
/// the list, and the empty text where the list cannot be written as JSON.
pub open spec fn authors_text(authors: Seq<Seq<char>>) -> Seq<char> {
    text_or_empty(json_text_of(authors))
}

/// The authors as one text for the store: the JSON form of the list, or
/// the empty text where the list cannot be written as JSON.
pub fn authors_json(authors: &Vec<String>) -> (json: String)
    ensures
        json@ == authors_text(texts(authors@)),
{
    or_empty(to_json(authors))
}

/// The row for a record, with the authors written as `authors_json`.
pub fn row_with_authors(paper: &PaperResult, authors_json: String) -> (row: StoredRow)
    ensures
        row@ == row_of(paper@, authors_json@),
{
    StoredRow {
        id: Some(paper.id.clone()),
        title: Some(paper.title.clone()),
        abstract_text: copy_text(&paper.abstract_text),
        authors_json: Some(authors_json),
        year: match paper.year {
            Some(y) => Some(to_stored(y)),
            None => None,
        },
        source: Some(paper.source.clone()),
        doi: copy_text(&paper.doi),
        arxiv_id: copy_text(&paper.arxiv_id),
        url: Some(paper.url.clone()),
        pdf_url: copy_text(&paper.pdf_url),
        citation_count: match paper.citation_count {
            Some(c) => Some(to_stored(c)),
            None => None,
        },
    }
}

/// The row that the store holds for a record.
pub fn stored_row(paper: &PaperResult) -> (row: StoredRow)
    ensures
        row@ == row_of(paper@, authors_text(paper@.authors)),
{
    let json = authors_json(&paper.authors);
    row_with_authors(paper, json)
}

/// The authors that a stored text holds: the list it spells out as JSON,
/// and none where there is no text or it is no such list.
pub open spec fn authors_in(json: Option<Seq<char>>) -> Seq<Seq<char>> {
    match json {
        Some(text) => match strings_of_json(text) {
            Some(list) => list,
            None => Seq::empty(),
        },
        None => Seq::empty(),
    }
}

/// The record that a row holds: an absent text that a record cannot be
/// without reads as empty.
pub open spec fn paper_of(row: RowView) -> PaperView {
    PaperView {
        id: text_or_empty(row.id),
        title: text_or_empty(row.title),
        authors: authors_in(row.authors_json),
        abstract_text: row.abstract_text,
        year: loaded_opt(row.year),
        source: text_or_empty(row.source),
        doi: row.doi,
        arxiv_id: row.arxiv_id,
        url: text_or_empty(row.url),
        pdf_url: row.pdf_url,
        citation_count: loaded_opt(row.citation_count),
    }
}

/// A text, or the empty text where there is none.
fn or_empty(text: Option<String>) -> (present: String)
    ensures
        present@ == text_or_empty(opt_text(text)),
{
    match text {
        Some(t) => t,
        None => String::new(),
    }
}

/// Reads a record out of a row.
pub fn row_to_paper(row: StoredRow) -> (paper: PaperResult)
    ensures
        paper@ == paper_of(row@),
{
    let authors: Vec<String> = match &row.authors_json {
        Some(json) => match from_json(json.as_str()) {
            Some(list) => list,
            None => Vec::new(),
        },
        None => Vec::new(),
    };
    proof {
        assert(texts(authors@) =~= authors_in(opt_text(row.authors_json)));
    }
    PaperResult {
        id: or_empty(row.id),
        title: or_empty(row.title),
        authors,
        abstract_text: row.abstract_text,
        year: match row.year {
            Some(y) => Some(to_loaded(y)),
            None => None,
        },
        source: or_empty(row.source),
        doi: row.doi,
        arxiv_id: row.arxiv_id,
        url: or_empty(row.url),
        pdf_url: row.pdf_url,
        citation_count: match row.citation_count {
            Some(c) => Some(to_loaded(c)),
            None => None,
        },
    }
}

/// What a record reads as once it has been through the store, given the
/// authors that its stored text yields: everything but the authors comes
/// back as it went in.
pub proof fn lemma_row_round_trip(paper: PaperView, json: Seq<char>)
    ensures
        paper_of(row_of(paper, json)) == (PaperView { authors: authors_in(Some(json)), ..paper }),
{
    match paper.year {
        Some(y) => lemma_numbers_round_trip(y),
        None => {},
    }
    match paper.citation_count {
        Some(c) => lemma_numbers_round_trip(c),
        None => {},
    }
}

/// The quote that encloses a text in a condition.
pub open spec fn quote() -> char {
    '\''
}

/// `s` with every quote doubled, as a quote inside a quoted text is
/// written.
pub open spec fn quotes_doubled(s: Seq<char>) -> Seq<char>
    decreases s.len(),
{
    if s.len() == 0 {
        Seq::empty()
    } else if s.last() == quote() {
        quotes_doubled(s.drop_last()).push(quote()).push(quote())
    } else {
        quotes_doubled(s.drop_last()).push(s.last())
    }
}

/// The condition that holds of the rows with this id and of no others.
pub open spec fn id_condition(id: Seq<char>) -> Seq<char> {
    "id = '"@ + quotes_doubled(id) + "'"@
}

/// The condition by which the rows of one id are found or deleted. A
/// quote in the id is doubled, so that no id can end the quoted text.
pub fn id_filter(id: &str) -> (filter: String)
    ensures
        filter@ == id_condition(id@),
{
    let mut filter = String::from_str("id = '");
    let ghost text = id@;
    let ghost start = filter@;
    proof {
        assert(text.take(0) =~= Seq::<char>::empty());
        assert(start + Seq::<char>::empty() =~= start);
    }
    for c in it: id.chars()
        invariant
            it.seq() == text,
            start == "id = '"@,
            filter@ == start + quotes_doubled(text.take(it.index() as int)),
    {
        proof {
            let i = it.index() as int;
            let done = quotes_doubled(text.take(i));
            assert(text.take(i + 1).drop_last() =~= text.take(i));
            assert(text.take(i + 1).last() == c);
            assert(start + done.push(c) =~= (start + done).push(c));
            assert(start + done.push(quote()).push(quote()) =~= (start + done).push(quote()).push(
                quote(),
            ));
        }
        if c == '\'' {
            push_char(&mut filter, '\'');
            push_char(&mut filter, '\'');
        } else {
            push_char(&mut filter, c);
        }
    }
    proof {
        assert(text.take(text.len() as int) =~= text);
    }
    filter.append("'");
    filter
}

/// A row that a similarity search found: its id, and its distance from
/// the query if the store reported one.
#[derive(Debug, Clone)]
pub struct FoundRow {
    pub id: String,
    pub distance: Option<RawScore>,
}

/// The hit that a found row stands for; a distance that was not reported
/// reads as zero.
pub open spec fn neighbor(row: FoundRow) -> Hit {
    Hit {
        id: row.id,
        score: match row.distance {
            Some(d) => d,
            None => RawScore { bits: 0 },
        },
    }
}

/// Turns the rows of a similarity search into hits, nearest first as the
/// store returned them.
pub fn collect_neighbors(rows: Vec<FoundRow>) -> (hits: Vec<Hit>)
    ensures
        hits@ == rows@.map_values(|row: FoundRow| neighbor(row)),
{
    let ghost input = rows@;
    let mut hits: Vec<Hit> = Vec::new();
    for row in it: rows
        invariant
            it.seq() == input,
            hits@ =~= input.take(it.index() as int).map_values(|row: FoundRow| neighbor(row)),
    {
        proof {
            let i = it.index() as int;
            assert(input.take(i + 1) =~= input.take(i).push(row));
        }
        let score = match row.distance {
            Some(d) => d,
            None => RawScore { bits: 0 },
        };
        hits.push(Hit { id: row.id, score });
    }
    proof {
        assert(input.take(input.len() as int) =~= input);
    }
    hits
}

} // verus!
