use paper_search::apis::PaperResult;
use paper_search::index::hybrid::{
    collect_resolved, fetch_limit, fuse_rankings, rank_hits, rank_single, Hit, RawScore, RrfScore,
    SearchMode,
};
use paper_search::ranking::{drop_keys, rank_entries, RankKey};

fn hit(id: &str, score: f32) -> Hit {
    Hit { id: id.to_string(), score: RawScore { bits: score.to_bits() } }
}

fn score(lexical: Option<usize>, vector: Option<usize>) -> RrfScore {
    RrfScore { lexical_rank: lexical, vector_rank: vector }
}

fn as_float(s: &RrfScore) -> f64 {
    let (n, d) = s.fraction();
    n as f64 / d as f64
}

#[test]
fn score_of_one_list_is_one_over_k_plus_rank_plus_one() {
    assert_eq!(score(Some(0), None).fraction(), (1, 61));
    assert_eq!(score(None, Some(0)).fraction(), (1, 61));
    assert_eq!(score(Some(9), None).fraction(), (1, 70));
    assert_eq!(score(None, Some(299)).fraction(), (1, 360));
    assert_eq!(score(None, None).fraction(), (0, 1));
}

#[test]
fn score_of_both_lists_is_the_sum() {
    assert_eq!(score(Some(0), Some(0)).fraction(), (122, 3721));
    assert_eq!(score(Some(1), Some(4)).fraction(), (62 + 65, 62 * 65));
    let s = score(Some(2), Some(7));
    assert!((as_float(&s) - (1.0 / 63.0 + 1.0 / 68.0)).abs() < 1e-12);
}

#[test]
fn score_at_the_rank_limit_does_not_overflow() {
    let top = 0xFFFF_FFFEusize;
    let (n, d) = score(Some(top), Some(top)).fraction();
    let div = 60u128 + top as u128 + 1;
    assert_eq!(n, 2 * div);
    assert_eq!(d, div * div);
    assert!(score(Some(0), Some(0)).ranks_above(&score(Some(top), Some(top))));
    assert!(!score(Some(top), Some(top)).ranks_above(&score(Some(top), Some(top))));
}

#[test]
fn a_better_rank_never_scores_lower() {
    for other in [None, Some(0usize), Some(5), Some(1000)] {
        for r in 0..50usize {
            assert!(!score(Some(r + 1), other).ranks_above(&score(Some(r), other)));
            assert!(score(Some(r), other).ranks_above(&score(Some(r + 1), other)));
            assert!(!score(other, Some(r + 1)).ranks_above(&score(other, Some(r))));
        }
    }
}

#[test]
fn both_lists_score_higher_than_one() {
    for l in 0..20usize {
        for v in 0..20usize {
            assert!(score(Some(l), Some(v)).ranks_above(&score(Some(l), None)));
            assert!(score(Some(l), Some(v)).ranks_above(&score(None, Some(v))));
        }
    }
}

#[test]
fn equal_scores_do_not_outrank_each_other() {
    assert!(!score(Some(3), None).ranks_above(&score(None, Some(3))));
    assert!(!score(None, Some(3)).ranks_above(&score(Some(3), None)));
    assert!(!score(Some(1), Some(2)).ranks_above(&score(Some(2), Some(1))));
}

#[test]
fn fetch_limit_is_three_times_the_limit() {
    assert_eq!(fetch_limit(0), 0);
    assert_eq!(fetch_limit(10), 30);
    assert_eq!(fetch_limit(100), 300);
}

#[test]
fn search_modes_say_which_stores_they_read() {
    assert!(SearchMode::KeywordOnly.uses_lexical());
    assert!(!SearchMode::KeywordOnly.uses_vector());
    assert!(!SearchMode::VectorOnly.uses_lexical());
    assert!(SearchMode::VectorOnly.uses_vector());
    assert!(SearchMode::Hybrid.uses_lexical());
    assert!(SearchMode::Hybrid.uses_vector());
}

#[test]
fn keyword_only_keeps_the_order_and_the_raw_score() {
    let results = rank_single(vec![hit("p1", 7.5), hit("p3", 2.25), hit("p2", 0.5)], true, 2);
    assert_eq!(results.len(), 2);
    assert_eq!(results[0].id, "p1");
    assert_eq!(results[0].rrf_score, score(Some(0), None));
    assert_eq!(results[0].bm25_score.map(|s| f32::from_bits(s.bits)), Some(7.5));
    assert_eq!(results[0].vector_distance, None);
    assert_eq!(results[1].id, "p3");
    assert_eq!(results[1].rrf_score, score(Some(1), None));
    assert_eq!(results[1].bm25_score.map(|s| f32::from_bits(s.bits)), Some(2.25));
}

#[test]
fn vector_only_keeps_the_order_and_the_distance() {
    let results = rank_single(vec![hit("p2", 0.0), hit("p1", 1.5)], false, 10);
    assert_eq!(results.len(), 2);
    assert_eq!(results[0].id, "p2");
    assert_eq!(results[0].rrf_score, score(None, Some(0)));
    assert_eq!(results[0].bm25_score, None);
    assert_eq!(results[0].vector_distance.map(|s| f32::from_bits(s.bits)), Some(0.0));
    assert_eq!(results[1].id, "p1");
    assert_eq!(results[1].rrf_score, score(None, Some(1)));
    assert_eq!(results[1].vector_distance.map(|s| f32::from_bits(s.bits)), Some(1.5));
}

#[test]
fn single_ranking_does_not_merge_repeated_ids() {
    let results = rank_single(vec![hit("p1", 1.0), hit("p1", 0.5)], true, 10);
    assert_eq!(results.len(), 2);
    assert_eq!(results[1].rrf_score, score(Some(1), None));
}

#[test]
fn hybrid_sums_the_two_contributions() {
    let lexical = vec![hit("p1", 9.0), hit("p3", 4.0)];
    let vector = vec![hit("p2", 0.1), hit("p1", 0.2), hit("p3", 0.3)];
    let fused = fuse_rankings(lexical, vector, 10);
    let ids: Vec<&str> = fused.iter().map(|r| r.id.as_str()).collect();
    assert_eq!(ids, vec!["p1", "p3", "p2"]);
    assert_eq!(fused[0].rrf_score, score(Some(0), Some(1)));
    assert_eq!(fused[0].bm25_score.map(|s| f32::from_bits(s.bits)), Some(9.0));
    assert_eq!(fused[0].vector_distance.map(|s| f32::from_bits(s.bits)), Some(0.2));
    assert_eq!(fused[1].rrf_score, score(Some(1), Some(2)));
    assert_eq!(fused[2].rrf_score, score(None, Some(0)));
    assert_eq!(fused[2].bm25_score, None);
    assert_eq!(fused[2].vector_distance.map(|s| f32::from_bits(s.bits)), Some(0.1));
}

#[test]
fn hybrid_breaks_ties_by_first_appearance() {
    let fused = fuse_rankings(vec![hit("a", 1.0)], vec![hit("b", 0.5)], 10);
    let ids: Vec<&str> = fused.iter().map(|r| r.id.as_str()).collect();
    assert_eq!(ids, vec!["a", "b"]);
    let fused = fuse_rankings(
        vec![hit("a", 1.0), hit("b", 1.0)],
        vec![hit("b", 0.5), hit("a", 0.5)],
        10,
    );
    let ids: Vec<&str> = fused.iter().map(|r| r.id.as_str()).collect();
    assert_eq!(ids, vec!["a", "b"]);
}

#[test]
fn hybrid_is_cut_to_the_limit() {
    let lexical = vec![hit("p1", 9.0), hit("p3", 4.0)];
    let vector = vec![hit("p2", 0.1), hit("p1", 0.2), hit("p3", 0.3)];
    let fused = fuse_rankings(lexical, vector, 1);
    assert_eq!(fused.len(), 1);
    assert_eq!(fused[0].id, "p1");
    assert!(fuse_rankings(vec![hit("p1", 9.0)], vec![], 0).is_empty());
}

#[test]
fn hybrid_of_one_empty_list_is_the_other() {
    let fused = fuse_rankings(vec![], vec![hit("p2", 0.1), hit("p1", 0.2)], 10);
    let ids: Vec<&str> = fused.iter().map(|r| r.id.as_str()).collect();
    assert_eq!(ids, vec!["p2", "p1"]);
    let fused = fuse_rankings(vec![hit("p2", 0.1), hit("p1", 0.2)], vec![], 10);
    let ids: Vec<&str> = fused.iter().map(|r| r.id.as_str()).collect();
    assert_eq!(ids, vec!["p2", "p1"]);
    assert!(fuse_rankings(vec![], vec![], 10).is_empty());
}

#[test]
fn hybrid_counts_a_repeated_id_at_its_first_rank() {
    let lexical = vec![hit("p1", 9.0), hit("p1", 4.0), hit("p2", 1.0)];
    let vector = vec![hit("p2", 0.1), hit("p2", 0.2)];
    let fused = fuse_rankings(lexical, vector, 10);
    assert_eq!(fused.len(), 2);
    assert_eq!(fused[0].id, "p2");
    assert_eq!(fused[0].rrf_score, score(Some(2), Some(0)));
    assert_eq!(fused[0].vector_distance.map(|s| f32::from_bits(s.bits)), Some(0.1));
    assert_eq!(fused[1].id, "p1");
    assert_eq!(fused[1].rrf_score, score(Some(0), None));
    assert_eq!(fused[1].bm25_score.map(|s| f32::from_bits(s.bits)), Some(9.0));
}

#[test]
fn a_record_in_both_rankings_comes_first() {
    let lexical = vec![hit("p1", 3.1), hit("p3", 1.2)];
    let vector = vec![hit("p1", 0.0), hit("p3", 1.1), hit("p2", 1.3)];
    let keyword = rank_hits(SearchMode::KeywordOnly, lexical.clone(), vec![], 10);
    assert!(!keyword.is_empty());
    assert_eq!(keyword[0].id, "p1");
    assert!(keyword[0].bm25_score.is_some());
    let by_vector = rank_hits(SearchMode::VectorOnly, vec![], vector.clone(), 10);
    assert!(!by_vector.is_empty());
    assert_eq!(by_vector[0].id, "p1");
    let hybrid = rank_hits(SearchMode::Hybrid, lexical, vector, 10);
    assert!(!hybrid.is_empty());
    assert_eq!(hybrid[0].id, "p1");
    assert!(as_float(&hybrid[0].rrf_score) > 0.0);
    assert_eq!(hybrid.len(), 3);
}

#[test]
fn rank_hits_reads_only_the_lists_of_its_mode() {
    let lexical = vec![hit("l", 1.0)];
    let vector = vec![hit("v", 1.0)];
    let r = rank_hits(SearchMode::KeywordOnly, lexical.clone(), vector.clone(), 10);
    assert_eq!(r.len(), 1);
    assert_eq!(r[0].id, "l");
    let r = rank_hits(SearchMode::VectorOnly, lexical, vector, 10);
    assert_eq!(r.len(), 1);
    assert_eq!(r[0].id, "v");
}

fn record(id: &str) -> PaperResult {
    PaperResult {
        id: id.to_string(),
        title: "t".to_string(),
        authors: vec![],
        abstract_text: None,
        year: None,
        source: "test".to_string(),
        doi: None,
        arxiv_id: None,
        url: String::new(),
        pdf_url: None,
        citation_count: None,
    }
}

#[test]
fn ids_that_do_not_resolve_are_dropped() {
    let papers = collect_resolved(vec![Some(record("a")), None, Some(record("b")), None]);
    let ids: Vec<&str> = papers.iter().map(|p| p.id.as_str()).collect();
    assert_eq!(ids, vec!["a", "b"]);
    assert!(collect_resolved(vec![None, None]).is_empty());
    assert!(collect_resolved(vec![]).is_empty());
}

#[test]
fn rank_entries_is_a_stable_descending_sort() {
    let entries = vec![(3u32, "a"), (7, "b"), (3, "c"), (9, "d"), (7, "e"), (0, "f")];
    let ranked = drop_keys(rank_entries(entries));
    assert_eq!(ranked, vec!["d", "b", "e", "a", "c", "f"]);
    let none: Vec<(u32, &str)> = vec![];
    assert!(rank_entries(none).is_empty());
}

#[test]
fn pairs_are_ranked_by_first_then_second() {
    let entries = vec![((1u32, 9u32), "a"), ((2, 0), "b"), ((1, 10), "c"), ((2, 0), "d")];
    let ranked = drop_keys(rank_entries(entries));
    assert_eq!(ranked, vec!["b", "d", "c", "a"]);
    assert!((2u32, 0u32).ranks_above(&(1, 100)));
    assert!(!(1u32, 5u32).ranks_above(&(1, 5)));
    assert!(5u32.ranks_above(&4));
    assert!(!4u32.ranks_above(&4));
}
