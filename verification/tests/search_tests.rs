use paper_search::apis::PaperResult;
use paper_search::search::deduplicate_and_rank;

fn paper(id: &str, title: &str, doi: Option<&str>, citations: Option<u32>) -> PaperResult {
    PaperResult {
        id: id.to_string(),
        title: title.to_string(),
        authors: vec![],
        abstract_text: None,
        year: Some(2024),
        source: "test".to_string(),
        doi: doi.map(|s| s.to_string()),
        arxiv_id: None,
        url: "".to_string(),
        pdf_url: None,
        citation_count: citations,
    }
}

#[test]
fn test_dedup_by_doi() {
    let results = vec![
        paper("s2:1", "Paper A", Some("10.1234/a"), Some(10)),
        paper("arxiv:1", "Paper A (arxiv)", Some("10.1234/a"), None),
        paper("s2:2", "Paper B", Some("10.1234/b"), Some(5)),
    ];
    let deduped = deduplicate_and_rank(results, 10);
    assert_eq!(deduped.len(), 2);
}

#[test]
fn test_dedup_by_title() {
    let results = vec![
        paper("s2:1", "Quantum Error Correction Codes", None, Some(10)),
        paper("arxiv:1", "Quantum Error Correction codes", None, None),
    ];
    let deduped = deduplicate_and_rank(results, 10);
    assert_eq!(deduped.len(), 1);
}

#[test]
fn test_rank_by_citations() {
    let results = vec![
        paper("a", "Low Cited", None, Some(1)),
        paper("b", "High Cited Different Title", None, Some(100)),
        paper("c", "Medium Cited Unique Paper", None, Some(50)),
    ];
    let ranked = deduplicate_and_rank(results, 10);
    assert_eq!(ranked[0].id, "b");
    assert_eq!(ranked[1].id, "c");
    assert_eq!(ranked[2].id, "a");
}

use paper_search::apis::SourceError;
use paper_search::search::{
    gather_records, merge_outcomes, metadata_score, normalize_title, per_source_quota,
    select_sources, ProviderOutcome,
};

fn full_paper() -> PaperResult {
    PaperResult {
        id: "s2:9".to_string(),
        title: "A Title".to_string(),
        authors: vec!["A. Author".to_string()],
        abstract_text: Some("An abstract".to_string()),
        year: Some(2020),
        source: "test".to_string(),
        doi: Some("10.1/x".to_string()),
        arxiv_id: Some("2001.00001".to_string()),
        url: "https://example.com".to_string(),
        pdf_url: Some("https://example.com/x.pdf".to_string()),
        citation_count: Some(3),
    }
}

fn bare_paper() -> PaperResult {
    PaperResult {
        id: "x".to_string(),
        title: String::new(),
        authors: vec![],
        abstract_text: None,
        year: None,
        source: String::new(),
        doi: None,
        arxiv_id: None,
        url: String::new(),
        pdf_url: None,
        citation_count: None,
    }
}

#[test]
fn metadata_score_counts_each_field_with_its_weight() {
    assert_eq!(metadata_score(&bare_paper()), 0);
    assert_eq!(metadata_score(&full_paper()), 9);
    let mut p = bare_paper();
    p.title = "T".to_string();
    assert_eq!(metadata_score(&p), 1);
    p.authors = vec!["A".to_string()];
    assert_eq!(metadata_score(&p), 2);
    p.abstract_text = Some(String::new());
    assert_eq!(metadata_score(&p), 4);
    p.year = Some(1999);
    assert_eq!(metadata_score(&p), 5);
    p.doi = Some("10.1/y".to_string());
    assert_eq!(metadata_score(&p), 7);
    p.citation_count = Some(0);
    assert_eq!(metadata_score(&p), 8);
    p.pdf_url = Some("u".to_string());
    assert_eq!(metadata_score(&p), 9);
}

#[test]
fn metadata_score_ignores_identifier_fields() {
    let mut p = bare_paper();
    p.arxiv_id = Some("1".to_string());
    p.url = "u".to_string();
    p.source = "s".to_string();
    assert_eq!(metadata_score(&p), 0);
}

#[test]
fn normalize_title_lowercases_strips_and_collapses() {
    assert_eq!(normalize_title("Quantum Error Correction Codes"), "quantum error correction codes");
    assert_eq!(normalize_title("  Hello,   World!  "), "hello world");
    assert_eq!(normalize_title("AdS/CFT: a (short) review"), "adscft a short review");
    assert_eq!(normalize_title("tab\tand\nnewline"), "tab and newline");
    assert_eq!(normalize_title(""), "");
    assert_eq!(normalize_title("   "), "");
    assert_eq!(normalize_title("!!!"), "");
    assert_eq!(normalize_title("a - b"), "a b");
}

#[test]
fn normalize_title_keeps_unicode_letters_and_digits() {
    assert_eq!(normalize_title("Über Größe 42"), "über größe 42");
    assert_eq!(normalize_title("ÉTUDE\u{00A0}N°5"), "étude n5");
}

#[test]
fn dedup_by_doi_ignores_case_and_keeps_the_richer_record() {
    let results = vec![
        paper("arxiv:1", "Completely different words here", Some("10.1234/ABC"), None),
        paper("s2:1", "Some other title entirely", Some("10.1234/abc"), Some(10)),
    ];
    let deduped = deduplicate_and_rank(results, 10);
    assert_eq!(deduped.len(), 1);
    assert_eq!(deduped[0].id, "s2:1");
}

#[test]
fn dedup_by_doi_keeps_the_first_of_equally_rich_records() {
    let results = vec![
        paper("first", "Title one for this test", Some("10.1/z"), Some(1)),
        paper("second", "Another title for this test", Some("10.1/z"), Some(2)),
    ];
    let deduped = deduplicate_and_rank(results, 10);
    assert_eq!(deduped.len(), 1);
    assert_eq!(deduped[0].id, "first");
}

#[test]
fn records_with_a_doi_are_not_compared_by_title() {
    let results = vec![
        paper("a", "The very same title", Some("10.1/a"), Some(1)),
        paper("b", "The very same title", Some("10.1/b"), Some(2)),
    ];
    let deduped = deduplicate_and_rank(results, 10);
    assert_eq!(deduped.len(), 2);
    assert_eq!(deduped[0].id, "b");
    assert_eq!(deduped[1].id, "a");
}

#[test]
fn a_record_without_doi_is_compared_with_kept_records_that_have_one() {
    let results = vec![
        paper("a", "The very same title", Some("10.1/a"), Some(1)),
        paper("b", "The very same title", None, Some(2)),
    ];
    let deduped = deduplicate_and_rank(results, 10);
    assert_eq!(deduped.len(), 1);
    assert_eq!(deduped[0].id, "a");
}

#[test]
fn title_distance_four_collapses_and_five_does_not() {
    let near = vec![
        paper("a", "holographic entanglement entropy", None, Some(1)),
        paper("b", "holographic entanglement entrXXXX", None, Some(1)),
    ];
    assert_eq!(deduplicate_and_rank(near, 10).len(), 1);
    let far = vec![
        paper("a", "holographic entanglement entropy", None, Some(1)),
        paper("b", "holographic entanglement entXXXXX", None, Some(1)),
    ];
    assert_eq!(deduplicate_and_rank(far, 10).len(), 2);
}

#[test]
fn titles_that_differ_by_punctuation_collapse() {
    let results = vec![
        paper("a", "Black holes: information, and paradox!", None, Some(7)),
        paper("b", "black holes information and   paradox", None, Some(7)),
    ];
    let deduped = deduplicate_and_rank(results, 10);
    assert_eq!(deduped.len(), 1);
    assert_eq!(deduped[0].id, "a");
}

#[test]
fn ranking_breaks_citation_ties_by_year_and_then_keeps_order() {
    let mut a = paper("a", "Alpha particle scattering experiments", None, Some(5));
    a.year = Some(2001);
    let mut b = paper("b", "Beta decay of heavy nuclei observed", None, Some(5));
    b.year = Some(2010);
    let mut c = paper("c", "Gamma ray bursts from distant galaxies", None, None);
    c.year = None;
    let mut d = paper("d", "Delta functions in quantum field theory", None, Some(0));
    d.year = None;
    let ranked = deduplicate_and_rank(vec![a, c, b, d], 10);
    let ids: Vec<&str> = ranked.iter().map(|p| p.id.as_str()).collect();
    assert_eq!(ids, vec!["b", "a", "d", "c"]);
}

#[test]
fn ranking_is_cut_to_the_limit() {
    let results = vec![
        paper("a", "Low Cited", None, Some(1)),
        paper("b", "High Cited Different Title", None, Some(100)),
        paper("c", "Medium Cited Unique Paper", None, Some(50)),
    ];
    let ranked = deduplicate_and_rank(results, 2);
    assert_eq!(ranked.len(), 2);
    assert_eq!(ranked[0].id, "b");
    assert_eq!(ranked[1].id, "c");
}

#[test]
fn ranking_of_nothing_and_with_limit_zero_is_empty() {
    assert!(deduplicate_and_rank(vec![], 10).is_empty());
    let results = vec![paper("a", "Low Cited", None, Some(1))];
    assert!(deduplicate_and_rank(results, 0).is_empty());
}

#[test]
fn select_sources_without_filter_takes_all() {
    let names = vec!["arxiv".to_string(), "inspire".to_string(), "ads".to_string()];
    assert_eq!(select_sources(&names, None), vec![0, 1, 2]);
}

#[test]
fn select_sources_matches_names_whatever_their_case() {
    let names = vec!["arxiv".to_string(), "inspire".to_string(), "ads".to_string()];
    let filter = vec!["ADS".to_string(), "ArXiv".to_string()];
    assert_eq!(select_sources(&names, Some(&filter)), vec![0, 2]);
}

#[test]
fn select_sources_wants_the_whole_name() {
    let names = vec!["arxiv".to_string(), "inspire".to_string()];
    let filter = vec!["arx".to_string(), "inspire ".to_string(), "ınspire".to_string()];
    assert!(select_sources(&names, Some(&filter)).is_empty());
    let empty: Vec<String> = vec![];
    assert!(select_sources(&names, Some(&empty)).is_empty());
}

#[test]
fn per_source_quota_is_twice_the_cap_shared_out_but_at_least_five() {
    assert_eq!(per_source_quota(10, 1), 20);
    assert_eq!(per_source_quota(10, 3), 6);
    assert_eq!(per_source_quota(10, 4), 5);
    assert_eq!(per_source_quota(10, 9), 5);
    assert_eq!(per_source_quota(0, 1), 5);
    assert_eq!(per_source_quota(100, 9), 22);
    assert_eq!(per_source_quota(u32::MAX / 2, 1), u32::MAX - 1);
}

#[test]
fn gather_records_skips_failed_providers() {
    let outcomes = vec![
        ProviderOutcome::Records(vec![paper("a", "First", None, None)]),
        ProviderOutcome::Failed(SourceError::Api("down".to_string())),
        ProviderOutcome::Aborted,
        ProviderOutcome::Records(vec![]),
        ProviderOutcome::Records(vec![
            paper("b", "Second", None, None),
            paper("c", "Third", None, None),
        ]),
    ];
    let all = gather_records(outcomes);
    let ids: Vec<&str> = all.iter().map(|p| p.id.as_str()).collect();
    assert_eq!(ids, vec!["a", "b", "c"]);
}

#[test]
fn a_failing_provider_does_not_stop_the_search() {
    let outcomes = vec![
        ProviderOutcome::Failed(SourceError::Http("timeout".to_string())),
        ProviderOutcome::Records(vec![
            paper("a", "Low Cited", None, Some(1)),
            paper("b", "High Cited Different Title", None, Some(100)),
        ]),
        ProviderOutcome::Aborted,
    ];
    let ranked = merge_outcomes(outcomes, 10);
    assert_eq!(ranked.len(), 2);
    assert_eq!(ranked[0].id, "b");
    assert_eq!(ranked[1].id, "a");
}

#[test]
fn a_search_where_every_provider_failed_is_empty() {
    let outcomes = vec![
        ProviderOutcome::Failed(SourceError::Parse("bad".to_string())),
        ProviderOutcome::Aborted,
    ];
    assert!(merge_outcomes(outcomes, 10).is_empty());
    assert!(merge_outcomes(vec![], 10).is_empty());
}

#[test]
fn merge_collapses_duplicates_across_providers() {
    let outcomes = vec![
        ProviderOutcome::Records(vec![paper("arxiv:1", "Paper A (arxiv)", Some("10.1234/a"), None)]),
        ProviderOutcome::Records(vec![
            paper("s2:1", "Paper A", Some("10.1234/A"), Some(10)),
            paper("s2:2", "Paper B", Some("10.1234/b"), Some(50)),
        ]),
    ];
    let ranked = merge_outcomes(outcomes, 10);
    let ids: Vec<&str> = ranked.iter().map(|p| p.id.as_str()).collect();
    assert_eq!(ids, vec!["s2:2", "s2:1"]);
}

#[test]
fn source_error_messages() {
    assert_eq!(SourceError::Http("x".to_string()).message(), "HTTP request failed: x");
    assert_eq!(SourceError::Parse("y".to_string()).message(), "Parse error: y");
    assert_eq!(SourceError::Api("z".to_string()).message(), "API error: z");
    assert_eq!(SourceError::MissingKey("k".to_string()).message(), "Missing API key: k");
}
