//! What goes into the lexical index and what comes out of it: the entry
//! that stands for a record, the writes that stage it, and the hits of a
//! search.

use vstd::prelude::*;
use vstd::string::StringExecFns;
use crate::index::hybrid::{Hit, RawScore};

verus! {

/// What separates the authors' names in an entry.
pub const AUTHOR_SEPARATOR: &'static str = ", ";

/// How many bytes the index writer may hold before it writes them out.
pub const WRITER_MEMORY: usize = 50_000_000;

/// How a field of the index is read.
#[derive(Debug, Clone, Copy, PartialEq, Eq, Structural)]
pub enum FieldKind {
    /// A text taken as one term, found only as a whole.
    Keyword,
    /// A text split into words, each of which is searched.
    Words,
    /// A signed number.
    Number,
}

/// One field of the index.
#[derive(Debug, Clone, Copy)]
pub struct FieldSpec {
    pub name: &'static str,
    pub kind: FieldKind,
    /// Whether a search hands the field's value back.
    pub stored: bool,
    /// Whether a query is matched against the field.
    pub searched: bool,
}

/// The fields of the index: the id by which entries are retracted, the
/// three texts that queries are matched against, and the year.
pub open spec fn fields() -> Seq<FieldSpec> {
    seq![
        FieldSpec { name: "id", kind: FieldKind::Keyword, stored: true, searched: false },
        FieldSpec { name: "title", kind: FieldKind::Words, stored: true, searched: true },
        FieldSpec { name: "abstract_text", kind: FieldKind::Words, stored: false, searched: true },
        FieldSpec { name: "authors", kind: FieldKind::Words, stored: false, searched: true },
        FieldSpec { name: "year", kind: FieldKind::Number, stored: true, searched: false },
    ]
}

/// The fields of the index, in the order of an entry's fields.
pub fn index_fields() -> (list: Vec<FieldSpec>)
    ensures
        list@ == fields(),
{
    let mut list: Vec<FieldSpec> = Vec::new();
    list.push(FieldSpec { name: "id", kind: FieldKind::Keyword, stored: true, searched: false });
    list.push(FieldSpec { name: "title", kind: FieldKind::Words, stored: true, searched: true });
    list.push(
        FieldSpec { name: "abstract_text", kind: FieldKind::Words, stored: false, searched: true },
    );
    list.push(FieldSpec { name: "authors", kind: FieldKind::Words, stored: false, searched: true });
    list.push(FieldSpec { name: "year", kind: FieldKind::Number, stored: true, searched: false });
    assert(list@ =~= fields());
    list
}

/// The projection of a record that the lexical index holds.
#[derive(Debug, Clone)]
pub struct IndexEntry {
    pub id: String,
    pub title: String,
    pub abstract_text: Option<String>,
    /// All authors in one text; absent when the record names none.
    pub authors: Option<String>,
    pub year: Option<i64>,
}

/// The content of an [`IndexEntry`].
pub struct EntryView {
    pub id: Seq<char>,
    pub title: Seq<char>,
    pub abstract_text: Option<Seq<char>>,
    pub authors: Option<Seq<char>>,
    pub year: Option<i64>,
}

impl View for IndexEntry {
    type V = EntryView;

    open spec fn view(&self) -> EntryView {
        EntryView {
            id: self.id@,
            title: self.title@,
            abstract_text: crate::apis::opt_text(self.abstract_text),
            authors: crate::apis::opt_text(self.authors),
            year: self.year,
        }
    }
}

/// A change staged on the lexical index; it shows once committed.
#[derive(Debug, Clone)]
pub enum IndexWrite {
    /// Take out every entry with this id.
    Retract { id: String },
    /// Put in this entry.
    Insert { entry: IndexEntry },
}

/// The content of an [`IndexWrite`].
pub enum WriteView {
    Retract { id: Seq<char> },
    Insert { entry: EntryView },
}

impl View for IndexWrite {
    type V = WriteView;

    open spec fn view(&self) -> WriteView {
        match self {
            IndexWrite::Retract { id } => WriteView::Retract { id: id@ },
            IndexWrite::Insert { entry } => WriteView::Insert { entry: entry@ },
        }
    }
}

/// The texts of `parts` with `separator` between each two.
pub open spec fn joined(parts: Seq<String>, separator: Seq<char>) -> Seq<char>
    decreases parts.len(),
{
    if parts.len() == 0 {
        Seq::empty()
    } else if parts.len() == 1 {
        parts[0]@
    } else {
        joined(parts.drop_last(), separator) + separator + parts.last()@
    }
}

/// Joins texts with a separator between each two.
pub fn join(parts: &Vec<String>, separator: &str) -> (text: String)
    ensures
        text@ == joined(parts@, separator@),
{
    let mut text = String::new();
    let mut i: usize = 0;
    proof {
        assert(parts@.take(0) =~= Seq::<String>::empty());
    }
    while i < parts.len()
        invariant
            0 <= i <= parts@.len(),
            text@ == joined(parts@.take(i as int), separator@),
        decreases parts@.len() - i,
    {
        proof {
            assert(parts@.take(i + 1).drop_last() =~= parts@.take(i as int));
            assert(parts@.take(i + 1).last() == parts@[i as int]);
            if i == 0 {
                assert(Seq::<char>::empty() + parts@[0]@ =~= parts@[0]@);
            }
        }
        if i > 0 {
            text.append(separator);
        }
        text.append(parts[i].as_str());
        i += 1;
    }
    proof {
        assert(parts@.take(parts@.len() as int) =~= parts@);
    }
    text
}

/// The entry that stands for a record with these fields.
pub open spec fn entry_of(
    id: Seq<char>,
    title: Seq<char>,
    abstract_text: Option<Seq<char>>,
    authors: Seq<String>,
    year: Option<u32>,
) -> EntryView {
    EntryView {
        id,
        title,
        abstract_text,
        authors: if authors.len() == 0 {
            None
        } else {
            Some(joined(authors, AUTHOR_SEPARATOR@))
        },
        year: match year {
            Some(y) => Some(y as i64),
            None => None,
        },
    }
}

/// The text of an optional borrowed text.
pub open spec fn opt_str(text: Option<&str>) -> Option<Seq<char>> {
    match text {
        Some(t) => Some(t@),
        None => None,
    }
}

/// Projects a record onto what the lexical index holds of it.
pub fn index_entry(
    id: &str,
    title: &str,
    abstract_text: Option<&str>,
    authors: &Vec<String>,
    year: Option<u32>,
) -> (entry: IndexEntry)
    ensures
        entry@ == entry_of(id@, title@, opt_str(abstract_text), authors@, year),
{
    IndexEntry {
        id: String::from_str(id),
        title: String::from_str(title),
        abstract_text: match abstract_text {
            Some(text) => Some(String::from_str(text)),
            None => None,
        },
        authors: if authors.is_empty() {
            None
        } else {
            Some(join(authors, AUTHOR_SEPARATOR))
        },
        year: match year {
            Some(y) => Some(y as i64),
            None => None,
        },
    }
}

/// The writes that put a record into the index: first every entry under
/// its id goes, then the new entry comes in, so that the id never has two.
pub fn add_paper(
    id: &str,
    title: &str,
    abstract_text: Option<&str>,
    authors: &Vec<String>,
    year: Option<u32>,
) -> (writes: Vec<IndexWrite>)
    ensures
        writes@.len() == 2,
        writes@[0]@ == (WriteView::Retract { id: id@ }),
        writes@[1]@ == (WriteView::Insert {
            entry: entry_of(id@, title@, opt_str(abstract_text), authors@, year),
        }),
{
    let mut writes: Vec<IndexWrite> = Vec::new();
    writes.push(IndexWrite::Retract { id: String::from_str(id) });
    writes.push(IndexWrite::Insert { entry: index_entry(id, title, abstract_text, authors, year) });
    writes
}

/// The writes that take a record out of the index.
pub fn delete(id: &str) -> (writes: Vec<IndexWrite>)
    ensures
        writes@.len() == 1,
        writes@[0]@ == (WriteView::Retract { id: id@ }),
{
    let mut writes: Vec<IndexWrite> = Vec::new();
    writes.push(IndexWrite::Retract { id: String::from_str(id) });
    writes
}

/// What an index holds once a write is committed.
pub open spec fn after_write(entries: Seq<EntryView>, write: WriteView) -> Seq<EntryView> {
    match write {
        WriteView::Retract { id } => entries.filter(|e: EntryView| e.id != id),
        WriteView::Insert { entry } => entries.push(entry),
    }
}

/// What an index holds once a run of writes is committed.
pub open spec fn after_writes(entries: Seq<EntryView>, writes: Seq<WriteView>) -> Seq<EntryView>
    decreases writes.len(),
{
    if writes.len() == 0 {
        entries
    } else {
        after_write(after_writes(entries, writes.drop_last()), writes.last())
    }
}

/// The entries under one id.
pub open spec fn entries_under(entries: Seq<EntryView>, id: Seq<char>) -> Seq<EntryView> {
    entries.filter(|e: EntryView| e.id == id)
}

/// What the writes of [`add_paper`] say.
pub open spec fn add_writes(entry: EntryView) -> Seq<WriteView> {
    seq![WriteView::Retract { id: entry.id }, WriteView::Insert { entry }]
}

/// What the writes of [`delete`] say.
pub open spec fn delete_writes(id: Seq<char>) -> Seq<WriteView> {
    seq![WriteView::Retract { id }]
}

/// Filtering twice with two conditions of which the first implies the
/// second leaves what the first alone leaves; with two that exclude each
/// other it leaves nothing.
proof fn lemma_filter_by_id(entries: Seq<EntryView>, gone: Seq<char>, id: Seq<char>)
    ensures
        gone == id ==> entries_under(entries.filter(|e: EntryView| e.id != gone), id).len() == 0,
        gone != id ==> entries_under(entries.filter(|e: EntryView| e.id != gone), id)
            == entries_under(entries, id),
        entries.filter(|e: EntryView| e.id != gone).len() + entries_under(entries, gone).len()
            == entries.len(),
    decreases entries.len(),
{
    let keep = |e: EntryView| e.id != gone;
    let under = |e: EntryView| e.id == id;
    let under_gone = |e: EntryView| e.id == gone;
    if entries.len() == 0 {
        assert(entries.filter(keep) =~= Seq::<EntryView>::empty());
        assert(entries.filter(under) =~= Seq::<EntryView>::empty());
        assert(entries.filter(under_gone) =~= Seq::<EntryView>::empty());
        assert(Seq::<EntryView>::empty().filter(under) =~= Seq::<EntryView>::empty());
    } else {
        let head = entries.drop_last();
        let last = entries.last();
        lemma_filter_by_id(head, gone, id);
        assert(entries =~= head.push(last));
        head.lemma_filter_push(last, keep);
        head.lemma_filter_push(last, under);
        head.lemma_filter_push(last, under_gone);
        head.filter(keep).lemma_filter_push(last, under);
    }
}

/// Indexing a record and committing leaves exactly one entry under its id,
/// whatever the index held before, and leaves every other id as it was.
pub proof fn lemma_add_leaves_one_entry(entries: Seq<EntryView>, entry: EntryView, other: Seq<char>)
    ensures
        entries_under(after_writes(entries, add_writes(entry)), entry.id) == seq![entry],
        other != entry.id ==> entries_under(after_writes(entries, add_writes(entry)), other)
            == entries_under(entries, other),
{
    let writes = add_writes(entry);
    let first = seq![WriteView::Retract { id: entry.id }];
    assert(writes.drop_last() =~= first);
    assert(first.drop_last() =~= Seq::<WriteView>::empty());
    assert(after_writes(entries, first.drop_last()) == entries);
    let cleared = entries.filter(|e: EntryView| e.id != entry.id);
    assert(after_writes(entries, first) == cleared);
    assert(after_writes(entries, writes) == cleared.push(entry));
    lemma_filter_by_id(entries, entry.id, entry.id);
    lemma_filter_by_id(entries, entry.id, other);
    cleared.lemma_filter_push(entry, |e: EntryView| e.id == entry.id);
    cleared.lemma_filter_push(entry, |e: EntryView| e.id == other);
    assert(entries_under(cleared, entry.id) =~= Seq::<EntryView>::empty());
    assert(entries_under(cleared, entry.id).push(entry) =~= seq![entry]);
}

/// Indexing a record whose id has one entry and committing leaves the
/// number of entries as it was.
pub proof fn lemma_reindex_keeps_count(entries: Seq<EntryView>, entry: EntryView)
    requires
        entries_under(entries, entry.id).len() == 1,
    ensures
        after_writes(entries, add_writes(entry)).len() == entries.len(),
{
    let writes = add_writes(entry);
    let first = seq![WriteView::Retract { id: entry.id }];
    assert(writes.drop_last() =~= first);
    assert(first.drop_last() =~= Seq::<WriteView>::empty());
    assert(after_writes(entries, first.drop_last()) == entries);
    let cleared = entries.filter(|e: EntryView| e.id != entry.id);
    assert(after_writes(entries, first) == cleared);
    assert(after_writes(entries, writes) == cleared.push(entry));
    lemma_filter_by_id(entries, entry.id, entry.id);
}

/// Deleting an id and committing leaves no entry under it, leaves every
/// other id as it was, and lowers the count by the entries the id had: by
/// exactly one where it had one.
pub proof fn lemma_delete_removes_entry(entries: Seq<EntryView>, id: Seq<char>, other: Seq<char>)
    ensures
        entries_under(after_writes(entries, delete_writes(id)), id).len() == 0,
        other != id ==> entries_under(after_writes(entries, delete_writes(id)), other)
            == entries_under(entries, other),
        after_writes(entries, delete_writes(id)).len() + entries_under(entries, id).len()
            == entries.len(),
{
    let writes = delete_writes(id);
    assert(writes.drop_last() =~= Seq::<WriteView>::empty());
    assert(after_writes(entries, writes.drop_last()) == entries);
    lemma_filter_by_id(entries, id, id);
    lemma_filter_by_id(entries, id, other);
}

/// A document that a search found: its score, and its id if it has one.
#[derive(Debug, Clone)]
pub struct FoundDocument {
    pub id: Option<String>,
    pub score: RawScore,
}

/// The hits among what a search found: the documents that carry an id, in
/// the order found.
pub open spec fn hits_among(found: Seq<FoundDocument>) -> Seq<Hit>
    decreases found.len(),
{
    if found.len() == 0 {
        Seq::empty()
    } else {
        let head = hits_among(found.drop_last());
        match found.last().id {
            Some(id) => head.push(Hit { id, score: found.last().score }),
            None => head,
        }
    }
}

/// Turns what a search found into hits; a document without an id is
/// passed over.
pub fn collect_hits(found: Vec<FoundDocument>) -> (hits: Vec<Hit>)
    ensures
        hits@ == hits_among(found@),
{
    let ghost input = found@;
    let mut hits: Vec<Hit> = Vec::new();
    proof {
        assert(input.take(0) =~= Seq::<FoundDocument>::empty());
    }
    for document in it: found
        invariant
            it.seq() == input,
            hits@ == hits_among(input.take(it.index() as int)),
    {
        proof {
            let i = it.index() as int;
            assert(input.take(i + 1).drop_last() =~= input.take(i));
            assert(input.take(i + 1).last() == document);
        }
        match document.id {
            Some(id) => {
                hits.push(Hit { id, score: document.score });
            },
            None => {},
        }
    }
    proof {
        assert(input.take(input.len() as int) =~= input);
    }
    hits
}

} // verus!
