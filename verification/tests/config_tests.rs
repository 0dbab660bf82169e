use std::path::PathBuf;

use paper_search::apis::unpaywall::UnpaywallClient;
use paper_search::config::{Config, SourceKind};

fn config() -> Config {
    Config {
        data_dir: PathBuf::from("/tmp/x"),
        semantic_scholar_api_key: None,
        ads_api_key: None,
        openalex_email: None,
        unpaywall_email: None,
        enabled_source_names: vec![],
    }
}

#[test]
fn status_without_keys() {
    let statuses = config().source_status();
    let lines: Vec<(&str, bool, &str)> =
        statuses.iter().map(|s| (s.name.as_str(), s.enabled, s.note.as_str())).collect();
    assert_eq!(
        lines,
        vec![
            ("arxiv", true, "No API key required"),
            ("inspire", true, "No API key required"),
            ("semantic_scholar", true, "No API key (rate limited)"),
            ("openalex", true, "No email (limited rate)"),
            ("crossref", true, "No API key required"),
            ("ads", false, "Disabled: ADS_API_KEY not set"),
            ("europepmc", true, "No API key required"),
            ("doaj", true, "No API key required"),
            ("vixra", true, "HTML scraping"),
        ]
    );
}

#[test]
fn status_with_keys() {
    let mut c = config();
    c.semantic_scholar_api_key = Some("k".to_string());
    c.ads_api_key = Some("a".to_string());
    c.openalex_email = Some("me@example.com".to_string());
    let statuses = c.source_status();
    assert_eq!(statuses[2].note, "API key set");
    assert!(statuses[2].enabled);
    assert_eq!(statuses[3].note, "Polite pool email set");
    assert_eq!(statuses[5].name, "ads");
    assert!(statuses[5].enabled);
    assert_eq!(statuses[5].note, "API key set");
}

#[test]
fn status_with_filter() {
    let mut c = config();
    c.ads_api_key = Some("a".to_string());
    c.enabled_source_names = vec!["arxiv".to_string(), "ads".to_string(), "Inspire".to_string()];
    let statuses = c.source_status();
    assert_eq!(statuses.len(), 9);
    for s in &statuses {
        if s.name == "arxiv" {
            assert!(s.enabled);
            assert_eq!(s.note, "No API key required");
        } else if s.name == "ads" {
            assert!(s.enabled);
            assert_eq!(s.note, "API key set");
        } else {
            assert!(!s.enabled);
            assert_eq!(s.note, "Disabled by PAPER_SEARCH_SOURCES filter");
        }
    }
}

#[test]
fn a_filtered_source_without_key_keeps_its_own_note() {
    let mut c = config();
    c.enabled_source_names = vec!["ads".to_string()];
    let statuses = c.source_status();
    assert!(!statuses[5].enabled);
    assert_eq!(statuses[5].note, "Disabled: ADS_API_KEY not set");
}

#[test]
fn build_sources_without_filter_builds_all_but_ads() {
    let sources = config().build_sources();
    let kinds: Vec<SourceKind> = sources.iter().map(|s| s.kind).collect();
    assert_eq!(
        kinds,
        vec![
            SourceKind::Arxiv,
            SourceKind::Inspire,
            SourceKind::CrossRef,
            SourceKind::Doaj,
            SourceKind::EuropePmc,
            SourceKind::Vixra,
            SourceKind::SemanticScholar,
            SourceKind::OpenAlex,
        ]
    );
    assert!(sources.iter().all(|s| s.credential.is_none()));
}

#[test]
fn build_sources_hands_each_source_its_credential() {
    let mut c = config();
    c.semantic_scholar_api_key = Some("s2".to_string());
    c.ads_api_key = Some("ads-key".to_string());
    c.openalex_email = Some("me@example.com".to_string());
    let sources = c.build_sources();
    assert_eq!(sources.len(), 9);
    assert_eq!(sources[6].kind, SourceKind::SemanticScholar);
    assert_eq!(sources[6].credential.as_deref(), Some("s2"));
    assert_eq!(sources[7].kind, SourceKind::OpenAlex);
    assert_eq!(sources[7].credential.as_deref(), Some("me@example.com"));
    assert_eq!(sources[8].kind, SourceKind::Ads);
    assert_eq!(sources[8].credential.as_deref(), Some("ads-key"));
    assert_eq!(sources[0].credential, None);
}

#[test]
fn build_sources_follows_the_filter() {
    let mut c = config();
    c.enabled_source_names = vec!["vixra".to_string(), "arxiv".to_string(), "ads".to_string()];
    let kinds: Vec<SourceKind> = c.build_sources().iter().map(|s| s.kind).collect();
    assert_eq!(kinds, vec![SourceKind::Arxiv, SourceKind::Vixra]);
    c.ads_api_key = Some("k".to_string());
    let kinds: Vec<SourceKind> = c.build_sources().iter().map(|s| s.kind).collect();
    assert_eq!(kinds, vec![SourceKind::Arxiv, SourceKind::Vixra, SourceKind::Ads]);
    c.enabled_source_names = vec!["ARXIV".to_string()];
    assert!(c.build_sources().is_empty());
}

#[test]
fn source_names() {
    assert_eq!(SourceKind::Arxiv.name(), "arxiv");
    assert_eq!(SourceKind::Inspire.name(), "inspire");
    assert_eq!(SourceKind::CrossRef.name(), "crossref");
    assert_eq!(SourceKind::Doaj.name(), "doaj");
    assert_eq!(SourceKind::EuropePmc.name(), "europepmc");
    assert_eq!(SourceKind::Vixra.name(), "vixra");
    assert_eq!(SourceKind::SemanticScholar.name(), "semantic_scholar");
    assert_eq!(SourceKind::OpenAlex.name(), "openalex");
    assert_eq!(SourceKind::Ads.name(), "ads");
}

#[test]
fn build_unpaywall_needs_an_address() {
    assert!(config().build_unpaywall().is_none());
    let mut c = config();
    c.unpaywall_email = Some("me@example.com".to_string());
    let client = c.build_unpaywall().unwrap();
    assert_eq!(client.email(), "me@example.com");
}

#[test]
fn unpaywall_request_url() {
    let client = UnpaywallClient::new("me@example.com".to_string());
    assert_eq!(
        client.request_url("10.1234/abc"),
        "https://api.unpaywall.org/v2/10.1234/abc?email=me@example.com"
    );
}

#[test]
fn a_copy_of_the_configuration_holds_the_same_values() {
    let mut c = config();
    c.ads_api_key = Some("k".to_string());
    c.enabled_source_names = vec!["arxiv".to_string()];
    let copy = c.clone();
    assert_eq!(copy.data_dir, PathBuf::from("/tmp/x"));
    assert_eq!(copy.ads_api_key.as_deref(), Some("k"));
    assert_eq!(copy.enabled_source_names, vec!["arxiv".to_string()]);
}
