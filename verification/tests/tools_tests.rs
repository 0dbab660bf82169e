use paper_search::config::{parse_source_names, SourceKind};
use paper_search::index::hybrid::SearchMode;
use paper_search::tools::{
    lookup_order, result_cap, search_mode, source_for_id, target_source, DEFAULT_RESULTS,
    MAX_BULK_INDEX, MAX_RESULTS,
};

#[test]
fn result_cap_defaults_to_ten_and_stops_at_the_ceiling() {
    assert_eq!(DEFAULT_RESULTS, 10);
    assert_eq!(MAX_RESULTS, 100);
    assert_eq!(MAX_BULK_INDEX, 50);
    assert_eq!(result_cap(None, MAX_RESULTS), 10);
    assert_eq!(result_cap(Some(0), MAX_RESULTS), 0);
    assert_eq!(result_cap(Some(42), MAX_RESULTS), 42);
    assert_eq!(result_cap(Some(100), MAX_RESULTS), 100);
    assert_eq!(result_cap(Some(101), MAX_RESULTS), 100);
    assert_eq!(result_cap(Some(u32::MAX), MAX_BULK_INDEX), 50);
    assert_eq!(result_cap(None, 5), 5);
}

#[test]
fn search_mode_by_name() {
    assert_eq!(search_mode(Some("keyword")), SearchMode::KeywordOnly);
    assert_eq!(search_mode(Some("vector")), SearchMode::VectorOnly);
    assert_eq!(search_mode(Some("hybrid")), SearchMode::Hybrid);
    assert_eq!(search_mode(Some("Keyword")), SearchMode::Hybrid);
    assert_eq!(search_mode(Some("")), SearchMode::Hybrid);
    assert_eq!(search_mode(None), SearchMode::Hybrid);
}

#[test]
fn source_for_id_reads_the_prefix() {
    assert_eq!(source_for_id("arxiv:2301.00001"), Some(SourceKind::Arxiv));
    assert_eq!(source_for_id("inspire:1"), Some(SourceKind::Inspire));
    assert_eq!(source_for_id("s2:abc"), Some(SourceKind::SemanticScholar));
    assert_eq!(source_for_id("ads:2020A"), Some(SourceKind::Ads));
    assert_eq!(source_for_id("doi:10.1/x"), Some(SourceKind::CrossRef));
    assert_eq!(source_for_id("pmid:1"), Some(SourceKind::EuropePmc));
    assert_eq!(source_for_id("doaj:1"), Some(SourceKind::Doaj));
    assert_eq!(source_for_id("vixra:1"), Some(SourceKind::Vixra));
    assert_eq!(source_for_id("openalex:W1"), Some(SourceKind::OpenAlex));
    assert_eq!(source_for_id("arxiv:"), Some(SourceKind::Arxiv));
    assert_eq!(source_for_id("ArXiv:1"), None);
    assert_eq!(source_for_id("arxiv"), None);
    assert_eq!(source_for_id(" arxiv:1"), None);
    assert_eq!(source_for_id(""), None);
    assert_eq!(source_for_id("epmc:1"), None);
}

#[test]
fn target_source_prefers_the_named_source() {
    assert_eq!(target_source(Some("crossref"), "arxiv:1").as_deref(), Some("crossref"));
    assert_eq!(target_source(None, "arxiv:1").as_deref(), Some("arxiv"));
    assert_eq!(target_source(None, "s2:1").as_deref(), Some("semantic_scholar"));
    assert_eq!(target_source(None, "10.1/x"), None);
    assert_eq!(target_source(Some(""), "10.1/x").as_deref(), Some(""));
}

#[test]
fn lookup_order_asks_the_target_or_everyone() {
    let names = vec!["arxiv".to_string(), "inspire".to_string(), "ARXIV".to_string()];
    assert_eq!(lookup_order(&names, None), vec![0, 1, 2]);
    assert_eq!(lookup_order(&names, Some("arXiv")), vec![0, 2]);
    assert_eq!(lookup_order(&names, Some("inspire")), vec![1]);
    assert!(lookup_order(&names, Some("ads")).is_empty());
    assert!(lookup_order(&vec![], None).is_empty());
}

#[test]
fn parse_source_names_splits_trims_and_lowercases() {
    assert_eq!(parse_source_names("arxiv,inspire"), vec!["arxiv", "inspire"]);
    assert_eq!(parse_source_names(" ArXiv , INSPIRE\t"), vec!["arxiv", "inspire"]);
    assert_eq!(parse_source_names("ads"), vec!["ads"]);
    assert_eq!(parse_source_names(""), vec![""]);
    assert_eq!(parse_source_names(","), vec!["", ""]);
    assert_eq!(parse_source_names("a,,b,"), vec!["a", "", "b", ""]);
    assert_eq!(parse_source_names("semantic scholar"), vec!["semantic scholar"]);
}
