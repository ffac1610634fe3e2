use design_patterns_agent::search::queries::invariant_queries;
use design_patterns_agent::search::regions::merge_regions;
use design_patterns_agent::search::results::parse_search_results;

/// The highest similarity among the hits `first..=last`.
fn max_similarity(sims: &[f64], first: usize, last: usize) -> f64 {
    sims[first..=last].iter().cloned().fold(f64::MIN, f64::max)
}

#[test]
fn test_merge_overlapping_regions() {
    let hits = vec![(10, 15), (12, 20), (50, 55)];
    let sims = [0.8, 0.7, 0.6];
    let regions = merge_regions(&hits, 5);
    assert_eq!(regions.len(), 2);
    assert_eq!(regions[0].line_start, 5);
    assert_eq!(regions[0].line_end, 25);
    assert!((max_similarity(&sims, regions[0].first, regions[0].last) - 0.8).abs() < 0.01);
    assert_eq!(regions[1].line_start, 45);
    assert_eq!(regions[1].line_end, 60);
}

#[test]
fn test_merge_adjacent_regions() {
    let hits = vec![(10, 15), (20, 25)];
    let regions = merge_regions(&hits, 5);
    assert_eq!(regions.len(), 1);
}

#[test]
fn test_empty_results() {
    let regions = merge_regions(&vec![], 5);
    assert!(regions.is_empty());
}

#[test]
fn regions_start_at_line_one() {
    let regions = merge_regions(&vec![(2, 3)], 5);
    assert_eq!(regions[0].line_start, 1);
    assert_eq!(regions[0].line_end, 8);
}

#[test]
fn queries_cover_code_and_docs() {
    let qs = invariant_queries();
    assert_eq!(qs.len(), 12);
    assert!(qs.iter().all(|q| q.mode == "code" || q.mode == "docs"));
    assert_eq!(qs[0].query, "must call before initialize first");
}

#[test]
fn regions_keep_apart_and_take_hits_in_order() {
    let hits = vec![(10, 12), (40, 41), (14, 16), (100, 101)];
    let regions = merge_regions(&hits, 2);
    for w in regions.windows(2) {
        assert!(w[0].line_end + 1 < w[1].line_start);
        assert_eq!(w[0].last + 1, w[1].first);
    }
    assert_eq!(regions[0].first, 0);
    assert_eq!(regions.last().unwrap().last, hits.len() - 1);
}

#[test]
fn test_parse_search_results() {
    let text = r#"1. src/connection.rs
   | Similarity 0.82
42: pub struct Connection {
43:     is_open: bool,
44:     fd: i32,
45: }

2. src/state.rs
   | Similarity 0.71
10: enum State {
11:     Open,
12:     Closed,
13: }"#;

    let results = parse_search_results(text);
    assert_eq!(results.len(), 2);

    assert_eq!(results[0].file_path, "src/connection.rs");
    let similarity: f32 = results[0].similarity.as_deref().and_then(|s| s.parse().ok()).unwrap_or(0.0);
    assert!((similarity - 0.82).abs() < 0.01);
    assert_eq!(results[0].line_start, 42);
    assert_eq!(results[0].line_end, 45);

    assert_eq!(results[1].file_path, "src/state.rs");
    assert_eq!(results[1].line_start, 10);
    assert_eq!(results[1].line_end, 13);
}

#[test]
fn test_parse_empty_results() {
    let results = parse_search_results("");
    assert!(results.is_empty());
}

#[test]
fn search_entries_without_lines_or_heading_are_skipped() {
    let text = "1. src/a.rs\n   | Similarity 0.5\n\nno heading here\n7: x\n\n3. src/b.rs\n9: y\n2: z";
    let results = parse_search_results(text);
    assert_eq!(results.len(), 1);
    assert_eq!(results[0].file_path, "src/b.rs");
    assert_eq!(results[0].similarity, None);
    assert_eq!((results[0].line_start, results[0].line_end), (2, 9));
}
