use std::path::PathBuf;

use paper_search::apis::PaperResult;
use paper_search::embed::specter::{embedding_text, mock_states, next_state, EMBEDDING_DIMENSION};
use paper_search::index::fulltext::{
    add_paper, collect_hits, delete, index_entry, index_fields, join, FieldKind, FoundDocument,
    IndexWrite, WRITER_MEMORY,
};
use paper_search::index::hybrid::RawScore;
use paper_search::index::vectordb::{
    authors_json, check_dimension, collect_neighbors, columns, id_filter, row_to_paper,
    row_with_authors, stored_row, to_loaded, to_stored, ColumnKind, FoundRow, IndexError,
    StoredRow, TABLE_NAME,
};
use paper_search::index::{mock_text, LocalIndex, Operation, Progress, Step, FULLTEXT_DIR, VECTOR_DIR};

fn sample_paper(id: &str, title: &str) -> PaperResult {
    PaperResult {
        id: id.to_string(),
        title: title.to_string(),
        authors: vec!["Test Author".to_string()],
        abstract_text: Some("Test abstract".to_string()),
        year: Some(2024),
        source: "test".to_string(),
        doi: None,
        arxiv_id: None,
        url: "https://example.com".to_string(),
        pdf_url: None,
        citation_count: Some(10),
    }
}

#[test]
fn local_index_keeps_its_location() {
    let index = LocalIndex::new(PathBuf::from("/tmp/papers"));
    assert_eq!(index.data_dir(), &PathBuf::from("/tmp/papers"));
    assert_eq!(FULLTEXT_DIR, "tantivy");
    assert_eq!(VECTOR_DIR, "lance");
    assert_eq!(TABLE_NAME, "papers");
}

#[test]
fn mock_text_is_title_space_abstract() {
    let p = sample_paper("a", "A Title");
    assert_eq!(mock_text(&p), "A Title Test abstract");
    let mut q = sample_paper("b", "Only Title");
    q.abstract_text = None;
    assert_eq!(mock_text(&q), "Only Title ");
}

#[test]
fn indexing_stages_then_writes_then_commits() {
    let mut p = Progress::start(Operation::IndexPaper);
    assert_eq!(p.next(), Some(Step::StageLexical));
    assert!(!p.is_done());
    p.record(true);
    assert_eq!(p.next(), Some(Step::WriteVector));
    p.record(true);
    assert_eq!(p.next(), Some(Step::CommitLexical));
    assert!(!p.is_done());
    p.record(true);
    assert_eq!(p.next(), None);
    assert!(p.is_done());
    assert!(!p.has_failed());
    p.record(false);
    assert!(p.is_done());
    assert!(!p.has_failed());
}

#[test]
fn a_failed_vector_write_is_never_committed() {
    let mut p = Progress::start(Operation::IndexPaper);
    p.record(true);
    assert_eq!(p.next(), Some(Step::WriteVector));
    p.record(false);
    assert_eq!(p.next(), None);
    assert!(p.has_failed());
    assert!(!p.is_done());
    p.record(true);
    assert_eq!(p.next(), None);
    assert!(p.has_failed());
}

#[test]
fn a_failed_stage_ends_the_operation() {
    let mut p = Progress::start(Operation::IndexPaper);
    p.record(false);
    assert_eq!(p.next(), None);
    assert!(p.has_failed());
}

#[test]
fn deleting_retracts_commits_and_then_deletes_the_row() {
    let mut p = Progress::start(Operation::Delete);
    assert_eq!(p.next(), Some(Step::RetractLexical));
    p.record(true);
    assert_eq!(p.next(), Some(Step::CommitLexical));
    p.record(true);
    assert_eq!(p.next(), Some(Step::DeleteVector));
    p.record(true);
    assert_eq!(p.next(), None);
    assert!(p.is_done());
}

#[test]
fn a_failed_commit_keeps_the_row() {
    let mut p = Progress::start(Operation::Delete);
    p.record(true);
    p.record(false);
    assert_eq!(p.next(), None);
    assert!(p.has_failed());
}

#[test]
fn join_puts_the_separator_between_parts() {
    assert_eq!(join(&vec![], ", "), "");
    assert_eq!(join(&vec!["a".to_string()], ", "), "a");
    assert_eq!(join(&vec!["a".to_string(), "b".to_string()], ", "), "a, b");
    assert_eq!(join(&vec!["a".to_string(), String::new(), "c".to_string()], "-"), "a--c");
    assert_eq!(join(&vec![String::new(), String::new()], ", "), ", ");
}

#[test]
fn index_entry_projects_the_record() {
    let authors = vec!["Alice Physicist".to_string(), "Bob Theorist".to_string()];
    let e = index_entry("arxiv:2301.00001", "AdS/CFT", Some("We study."), &authors, Some(2023));
    assert_eq!(e.id, "arxiv:2301.00001");
    assert_eq!(e.title, "AdS/CFT");
    assert_eq!(e.abstract_text.as_deref(), Some("We study."));
    assert_eq!(e.authors.as_deref(), Some("Alice Physicist, Bob Theorist"));
    assert_eq!(e.year, Some(2023));
}

#[test]
fn index_entry_leaves_out_what_is_missing() {
    let e = index_entry("x", "", None, &vec![], None);
    assert_eq!(e.id, "x");
    assert_eq!(e.title, "");
    assert_eq!(e.abstract_text, None);
    assert_eq!(e.authors, None);
    assert_eq!(e.year, None);
    let e = index_entry("x", "t", None, &vec![], Some(u32::MAX));
    assert_eq!(e.year, Some(4294967295i64));
}

#[test]
fn add_paper_retracts_the_id_before_it_inserts() {
    let writes = add_paper("id:1", "Title", None, &vec!["A".to_string()], Some(1999));
    assert_eq!(writes.len(), 2);
    match &writes[0] {
        IndexWrite::Retract { id } => assert_eq!(id, "id:1"),
        IndexWrite::Insert { .. } => panic!("the first write must retract"),
    }
    match &writes[1] {
        IndexWrite::Insert { entry } => {
            assert_eq!(entry.id, "id:1");
            assert_eq!(entry.title, "Title");
            assert_eq!(entry.authors.as_deref(), Some("A"));
            assert_eq!(entry.year, Some(1999));
        }
        IndexWrite::Retract { .. } => panic!("the second write must insert"),
    }
}

#[test]
fn delete_stages_one_retraction() {
    let writes = delete("id:1");
    assert_eq!(writes.len(), 1);
    assert!(matches!(&writes[0], IndexWrite::Retract { id } if id == "id:1"));
}

fn apply(entries: &mut Vec<String>, writes: Vec<IndexWrite>) {
    for w in writes {
        match w {
            IndexWrite::Retract { id } => entries.retain(|e| *e != id),
            IndexWrite::Insert { entry } => entries.push(entry.id),
        }
    }
}

#[test]
fn reindexing_an_id_leaves_one_entry_and_deleting_leaves_none() {
    let mut entries: Vec<String> = Vec::new();
    apply(&mut entries, add_paper("a", "First", None, &vec![], None));
    apply(&mut entries, add_paper("b", "Second", None, &vec![], None));
    assert_eq!(entries.len(), 2);
    apply(&mut entries, add_paper("a", "First again", None, &vec![], None));
    assert_eq!(entries.len(), 2);
    assert_eq!(entries.iter().filter(|e| *e == "a").count(), 1);
    apply(&mut entries, delete("a"));
    assert_eq!(entries.len(), 1);
    assert_eq!(entries.iter().filter(|e| *e == "a").count(), 0);
    apply(&mut entries, delete("a"));
    assert_eq!(entries.len(), 1);
}

#[test]
fn collect_hits_passes_over_documents_without_id() {
    let found = vec![
        FoundDocument { id: Some("a".to_string()), score: RawScore { bits: 3.5f32.to_bits() } },
        FoundDocument { id: None, score: RawScore { bits: 3.0f32.to_bits() } },
        FoundDocument { id: Some("b".to_string()), score: RawScore { bits: 1.0f32.to_bits() } },
    ];
    let hits = collect_hits(found);
    assert_eq!(hits.len(), 2);
    assert_eq!(hits[0].id, "a");
    assert_eq!(f32::from_bits(hits[0].score.bits), 3.5);
    assert_eq!(hits[1].id, "b");
    assert_eq!(f32::from_bits(hits[1].score.bits), 1.0);
    assert!(collect_hits(vec![]).is_empty());
}

#[test]
fn check_dimension_accepts_only_the_store_dimension() {
    assert_eq!(EMBEDDING_DIMENSION, 768);
    assert_eq!(check_dimension(768), Ok(()));
    assert_eq!(
        check_dimension(767),
        Err(IndexError::DimensionMismatch { expected: 768, found: 767 })
    );
    assert_eq!(
        check_dimension(0),
        Err(IndexError::DimensionMismatch { expected: 768, found: 0 })
    );
    assert_eq!(
        check_dimension(769),
        Err(IndexError::DimensionMismatch { expected: 768, found: 769 })
    );
}

#[test]
fn stored_numbers_keep_their_bits() {
    assert_eq!(to_stored(0), 0);
    assert_eq!(to_stored(2024), 2024);
    assert_eq!(to_stored(0x7FFF_FFFF), i32::MAX);
    assert_eq!(to_stored(0x8000_0000), i32::MIN);
    assert_eq!(to_stored(u32::MAX), -1);
    assert_eq!(to_loaded(-1), u32::MAX);
    assert_eq!(to_loaded(i32::MIN), 0x8000_0000);
    assert_eq!(to_loaded(2024), 2024);
    for n in [0u32, 1, 2024, 0x7FFF_FFFF, 0x8000_0000, u32::MAX] {
        assert_eq!(to_loaded(to_stored(n)), n);
    }
}

#[test]
fn authors_are_stored_as_json() {
    assert_eq!(authors_json(&vec![]), "[]");
    assert_eq!(authors_json(&vec!["Test Author".to_string()]), "[\"Test Author\"]");
    assert_eq!(
        authors_json(&vec!["A \"B\" C".to_string(), "D".to_string()]),
        "[\"A \\\"B\\\" C\",\"D\"]"
    );
}

#[test]
fn stored_row_holds_the_record() {
    let p = sample_paper("test:001", "Holographic Entanglement in AdS/CFT");
    let row = stored_row(&p);
    assert_eq!(row.id.as_deref(), Some("test:001"));
    assert_eq!(row.title.as_deref(), Some("Holographic Entanglement in AdS/CFT"));
    assert_eq!(row.abstract_text.as_deref(), Some("Test abstract"));
    assert_eq!(row.authors_json.as_deref(), Some("[\"Test Author\"]"));
    assert_eq!(row.year, Some(2024));
    assert_eq!(row.source.as_deref(), Some("test"));
    assert_eq!(row.doi, None);
    assert_eq!(row.arxiv_id, None);
    assert_eq!(row.url.as_deref(), Some("https://example.com"));
    assert_eq!(row.pdf_url, None);
    assert_eq!(row.citation_count, Some(10));
    let other = row_with_authors(&p, "[]".to_string());
    assert_eq!(other.authors_json.as_deref(), Some("[]"));
    assert_eq!(other.id.as_deref(), Some("test:001"));
}

#[test]
fn a_record_comes_back_from_its_row() {
    let mut p = sample_paper("test:001", "Holographic Entanglement in AdS/CFT");
    p.authors = vec!["Ann O'Neil".to_string(), "José \"Pepe\" García".to_string()];
    p.doi = Some("10.1/x".to_string());
    p.year = Some(u32::MAX);
    let got = row_to_paper(stored_row(&p));
    assert_eq!(got.id, p.id);
    assert_eq!(got.title, "Holographic Entanglement in AdS/CFT");
    assert_eq!(got.authors, p.authors);
    assert_eq!(got.abstract_text, p.abstract_text);
    assert_eq!(got.year, Some(u32::MAX));
    assert_eq!(got.source, p.source);
    assert_eq!(got.doi, p.doi);
    assert_eq!(got.arxiv_id, None);
    assert_eq!(got.url, p.url);
    assert_eq!(got.pdf_url, None);
    assert_eq!(got.citation_count, Some(10));
}

fn empty_row() -> StoredRow {
    StoredRow {
        id: None,
        title: None,
        abstract_text: None,
        authors_json: None,
        year: None,
        source: None,
        doi: None,
        arxiv_id: None,
        url: None,
        pdf_url: None,
        citation_count: None,
    }
}

#[test]
fn a_row_without_values_reads_as_an_empty_record() {
    let p = row_to_paper(empty_row());
    assert_eq!(p.id, "");
    assert_eq!(p.title, "");
    assert!(p.authors.is_empty());
    assert_eq!(p.abstract_text, None);
    assert_eq!(p.year, None);
    assert_eq!(p.source, "");
    assert_eq!(p.url, "");
    assert_eq!(p.citation_count, None);
}

#[test]
fn authors_that_are_no_json_list_read_as_none() {
    let mut row = empty_row();
    row.authors_json = Some("not json".to_string());
    assert!(row_to_paper(row).authors.is_empty());
    let mut row = empty_row();
    row.authors_json = Some("{\"a\": 1}".to_string());
    assert!(row_to_paper(row).authors.is_empty());
    let mut row = empty_row();
    row.authors_json = Some("[\"a\", \"b\"]".to_string());
    row.year = Some(-1);
    let p = row_to_paper(row);
    assert_eq!(p.authors, vec!["a".to_string(), "b".to_string()]);
    assert_eq!(p.year, Some(u32::MAX));
}

#[test]
fn id_filter_quotes_the_id() {
    assert_eq!(id_filter("test:001"), "id = 'test:001'");
    assert_eq!(id_filter(""), "id = ''");
    assert_eq!(id_filter("o'neil"), "id = 'o''neil'");
    assert_eq!(id_filter("'; DROP TABLE papers; --"), "id = '''; DROP TABLE papers; --'");
    assert_eq!(id_filter("''"), "id = ''''''");
    assert_eq!(id_filter("é\"x"), "id = 'é\"x'");
}

#[test]
fn neighbors_without_distance_read_as_zero() {
    let rows = vec![
        FoundRow { id: "a".to_string(), distance: Some(RawScore { bits: 0.25f32.to_bits() }) },
        FoundRow { id: "b".to_string(), distance: None },
    ];
    let hits = collect_neighbors(rows);
    assert_eq!(hits.len(), 2);
    assert_eq!(hits[0].id, "a");
    assert_eq!(f32::from_bits(hits[0].score.bits), 0.25);
    assert_eq!(hits[1].id, "b");
    assert_eq!(f32::from_bits(hits[1].score.bits), 0.0);
}

#[test]
fn embedding_text_joins_title_and_abstract() {
    assert_eq!(embedding_text("Title", Some("Abstract")), "Title [SEP] Abstract");
    assert_eq!(embedding_text("Title", Some("")), "Title");
    assert_eq!(embedding_text("Title", None), "Title");
    assert_eq!(embedding_text("", Some("a")), " [SEP] a");
}

#[test]
fn xorshift_steps() {
    assert_eq!(next_state(0), 0);
    assert_eq!(next_state(1), 1082269761);
    assert_eq!(next_state(1082269761), 1152992998833853505);
    assert_eq!(next_state(0x9E3779B97F4A7C15), 15860402102123842989);
}

#[test]
fn mock_states_are_one_step_apart() {
    let states = mock_states(1);
    assert_eq!(states.len(), 768);
    assert_eq!(states[0], 1082269761);
    assert_eq!(states[1], 1152992998833853505);
    assert_eq!(states[2], 11177516664432764457);
    assert_eq!(states[767], 3219343391866154637);
    for i in 1..states.len() {
        assert_eq!(states[i], next_state(states[i - 1]));
    }
    assert_eq!(mock_states(1), mock_states(1));
}

#[test]
fn the_index_has_its_five_fields() {
    let fields = index_fields();
    let lines: Vec<(&str, FieldKind, bool, bool)> =
        fields.iter().map(|f| (f.name, f.kind, f.stored, f.searched)).collect();
    assert_eq!(
        lines,
        vec![
            ("id", FieldKind::Keyword, true, false),
            ("title", FieldKind::Words, true, true),
            ("abstract_text", FieldKind::Words, false, true),
            ("authors", FieldKind::Words, false, true),
            ("year", FieldKind::Number, true, false),
        ]
    );
    assert_eq!(WRITER_MEMORY, 50_000_000);
}

#[test]
fn the_table_has_its_twelve_columns() {
    let list = columns();
    let lines: Vec<(&str, ColumnKind, bool)> =
        list.iter().map(|c| (c.name, c.kind, c.nullable)).collect();
    assert_eq!(
        lines,
        vec![
            ("id", ColumnKind::Text, false),
            ("title", ColumnKind::Text, false),
            ("abstract_text", ColumnKind::Text, true),
            ("authors_json", ColumnKind::Text, true),
            ("year", ColumnKind::Number, true),
            ("source", ColumnKind::Text, true),
            ("doi", ColumnKind::Text, true),
            ("arxiv_id", ColumnKind::Text, true),
            ("url", ColumnKind::Text, true),
            ("pdf_url", ColumnKind::Text, true),
            ("citation_count", ColumnKind::Number, true),
            ("embedding", ColumnKind::Embedding(768), true),
        ]
    );
}
