use provenance::database::Database;
use provenance::host::hash_content;
use provenance::linker::{infer_contribution_type, SourceLinker};
use provenance::relevance::relevance;
use provenance::text::generate_preview;
use provenance::tracker::{ActiveSourceTracker, MeanRelevance};
use provenance::types::{ContributionType, CreateSourceLinkInput, SourceType};

fn confidence(m: MeanRelevance) -> f64 {
    if m.count == 0 {
        0.0
    } else {
        m.total as f64 / 100.0 / m.count as f64
    }
}

#[test]
fn test_generate_preview() {
    let short = "Hello world";
    assert_eq!(generate_preview(short, 200), short);

    let long = "A".repeat(300);
    let preview = generate_preview(&long, 200);
    assert!(preview.ends_with("..."));
    assert!(preview.len() <= 203);
}

#[test]
fn test_hash_content() {
    let hash = hash_content("test content");
    assert_eq!(hash.len(), 64);
}

#[test]
fn test_activate_source() {
    let mut tracker = ActiveSourceTracker::new();

    tracker.activate_source(SourceType::Webpage, "page1".to_string(), Some("Page Title".to_string()));

    assert_eq!(tracker.count(), 1);

    let sources = tracker.get_active_sources(None);
    assert_eq!(sources.len(), 1);
    assert_eq!(sources[0].source_id, "page1");
    assert!(sources[0].relevance as f32 / 100.0 > 0.99);
}

#[test]
fn test_refresh_source() {
    let mut tracker = ActiveSourceTracker::new();

    tracker.activate_source(SourceType::Webpage, "page1".to_string(), Some("Page Title".to_string()));
    tracker.activate_source(SourceType::Webpage, "page1".to_string(), Some("Updated Title".to_string()));

    assert_eq!(tracker.count(), 1);

    let sources = tracker.get_active_sources(None);
    assert!(sources[0].relevance as f32 / 100.0 > 0.99);
    assert_eq!(sources[0].title.as_deref(), Some("Updated Title"));
}

#[test]
fn test_deactivate_source() {
    let mut tracker = ActiveSourceTracker::new();

    tracker.activate_source(SourceType::Webpage, "page1".to_string(), None);

    tracker.deactivate_source("page1");

    assert_eq!(tracker.count(), 0);
}

#[test]
fn test_infer_contribution_type() {
    assert!(matches!(infer_contribution_type(&SourceType::Clipboard, 90), ContributionType::DirectCopy));
    assert!(matches!(infer_contribution_type(&SourceType::AIExchange, 50), ContributionType::AIAssisted));
    assert!(matches!(infer_contribution_type(&SourceType::Webpage, 50), ContributionType::Inspired));
}

#[test]
fn contribution_table_at_its_thresholds() {
    assert_eq!(infer_contribution_type(&SourceType::Clipboard, 81), ContributionType::DirectCopy);
    assert_eq!(infer_contribution_type(&SourceType::Clipboard, 80), ContributionType::Referenced);
    assert_eq!(infer_contribution_type(&SourceType::AIExchange, 100), ContributionType::AIAssisted);
    assert_eq!(infer_contribution_type(&SourceType::AIExchange, 0), ContributionType::AIAssisted);
    for kind in [SourceType::Webpage, SourceType::Search, SourceType::Document] {
        assert_eq!(infer_contribution_type(&kind, 71), ContributionType::Referenced);
        assert_eq!(infer_contribution_type(&kind, 70), ContributionType::Inspired);
    }
}

#[test]
fn preview_counts_characters_not_bytes() {
    // five characters, fifteen bytes
    let text = "\u{4e16}\u{754c}\u{4e16}\u{754c}\u{4e16}";
    assert_eq!(generate_preview(text, 5), text);
    assert_eq!(generate_preview(text, 4), "\u{4e16}\u{754c}\u{4e16}\u{754c}...");
    assert_eq!(generate_preview("", 0), "");
    assert_eq!(generate_preview("ab", 0), "...");
    assert_eq!(generate_preview("abc", 3), "abc");
    assert_eq!(generate_preview("abcd", 3), "abc...");
}

#[test]
fn digest_is_sha256_in_lower_hex() {
    assert_eq!(hash_content("abc"), "ba7816bf8f01cfea414140de5dae2223b00361a396177a9cb410ff61f20015ad");
    assert_eq!(hash_content(""), "e3b0c44298fc1c149afbf4c8996fb92427ae41e4649b934ca495991b7852b855");
    assert_ne!(hash_content("abc"), "abc");
    assert_eq!(hash_content("x"), hash_content("x"));
}

#[test]
fn relevance_decays_by_a_hundredth_each_second() {
    assert_eq!(relevance(0, 0), 100);
    assert_eq!(relevance(0, 999), 100);
    assert_eq!(relevance(0, 1_000), 99);
    assert_eq!(relevance(0, 10_000), 90);
    assert_eq!(relevance(0, 25_000), 75);
    assert_eq!(relevance(0, 70_000), 30);
    assert_eq!(relevance(0, 99_999), 1);
    assert_eq!(relevance(0, 100_000), 0);
    assert_eq!(relevance(0, 1_000_000), 0);
    assert_eq!(relevance(5_000, 65_000), 40);
    assert_eq!(relevance(i64::MIN, i64::MAX), 0);
}

#[test]
fn relevance_never_grows_with_time() {
    let mut last = relevance(1_000, 1_000);
    let mut t = 1_000;
    while t < 120_000 {
        let r = relevance(1_000, t);
        assert!(r <= last);
        last = r;
        t += 250;
    }
    assert_eq!(last, 0);
}

#[test]
fn refresh_resets_relevance() {
    let mut tracker = ActiveSourceTracker::new();
    tracker.activate_source_at(SourceType::Webpage, "s".to_string(), None, 0);
    let before = tracker.get_active_sources_at(Some(0), 60_000);
    assert_eq!(before[0].relevance, 40);
    tracker.activate_source_at(SourceType::Webpage, "s".to_string(), Some("t".to_string()), 60_000);
    let after = tracker.get_active_sources_at(Some(0), 60_000);
    assert_eq!(after.len(), 1);
    assert_eq!(after[0].relevance, 100);
    assert_eq!(after[0].activated_at, 60_000);
    assert_eq!(after[0].title.as_deref(), Some("t"));
}

#[test]
fn decay_to_eviction() {
    let mut tracker = ActiveSourceTracker::new();
    for i in 0..30 {
        tracker.activate_source_at(SourceType::Webpage, format!("page{}", i), None, 0);
    }
    assert_eq!(tracker.count(), 30);
    tracker.activate_source_at(SourceType::Clipboard, "new".to_string(), None, 50_000);
    assert_eq!(tracker.count(), 30);

    let active = tracker.get_active_sources_at(None, 50_000);
    assert_eq!(active.len(), 30);
    assert_eq!(active.iter().filter(|e| e.source_id == "new").count(), 1);
    assert_eq!(active.iter().filter(|e| e.source_id.starts_with("page")).count(), 29);
    for e in &active {
        if e.source_id == "new" {
            assert_eq!(e.relevance, 100);
        } else {
            assert_eq!(e.relevance, 50);
        }
    }
    // all thirty were equally relevant and equally old: the first leaves
    assert!(active.iter().all(|e| e.source_id != "page0"));

    let mut linker = SourceLinker::new(tracker, Database::new());
    let input = CreateSourceLinkInput { doc_id: "d".to_string(), section_path: None, content: "x".to_string() };
    let names: Vec<String> = (0..30).map(|i| format!("c{}", i)).collect();
    let out = linker.create_source_link_at(&input, 50_000, "l".to_string(), names).unwrap();
    assert_eq!(out.link.confidence_score, MeanRelevance { total: 100 + 29 * 50, count: 30 });
    assert!((confidence(out.link.confidence_score) - 0.5167).abs() < 0.0001);
}

#[test]
fn eviction_takes_the_least_relevant_and_oldest() {
    let mut tracker = ActiveSourceTracker::new();
    for i in 0..30 {
        // page7 is the oldest by a whole second, page3 by less than a second
        let at = if i == 7 { 0 } else if i == 3 { 1_500 } else { 2_000 + i };
        tracker.activate_source_at(SourceType::Webpage, format!("page{}", i), None, at);
    }
    tracker.activate_source_at(SourceType::Webpage, "n1".to_string(), None, 10_000);
    let ids: Vec<String> = tracker.get_active_sources_at(Some(0), 10_000).into_iter().map(|e| e.source_id).collect();
    assert!(!ids.contains(&"page7".to_string()));
    assert!(ids.contains(&"page3".to_string()));
    // now page3 and the rest are equally relevant at 10 s; page3 is the oldest
    tracker.activate_source_at(SourceType::Webpage, "n2".to_string(), None, 10_000);
    let ids: Vec<String> = tracker.get_active_sources_at(Some(0), 10_000).into_iter().map(|e| e.source_id).collect();
    assert!(!ids.contains(&"page3".to_string()));
    assert_eq!(ids.len(), 30);
    assert_eq!(ids[29], "n2");
    assert_eq!(ids[28], "n1");
}

#[test]
fn apply_decay_drops_what_fell_below_threshold() {
    let mut tracker = ActiveSourceTracker::new();
    tracker.apply_decay_at(1_000);
    assert_eq!(tracker.count(), 0);
    tracker.apply_decay_at(1_000);
    assert_eq!(tracker.count(), 0);

    tracker.activate_source_at(SourceType::Webpage, "old".to_string(), None, 0);
    tracker.activate_source_at(SourceType::Webpage, "edge".to_string(), None, 1_000);
    tracker.activate_source_at(SourceType::Webpage, "new".to_string(), None, 60_000);
    tracker.apply_decay_at(71_000);
    let left = tracker.get_active_sources_at(Some(0), 71_000);
    assert_eq!(left.len(), 2);
    assert_eq!(left[0].source_id, "edge");
    assert_eq!(left[0].relevance, 30);
    assert_eq!(left[1].source_id, "new");
    assert_eq!(left[1].relevance, 89);
    assert_eq!(tracker.average_relevance(), MeanRelevance { total: 119, count: 2 });
    tracker.clear();
    assert_eq!(tracker.count(), 0);
    assert_eq!(tracker.average_relevance(), MeanRelevance { total: 0, count: 0 });
}

#[test]
fn get_active_filters_by_threshold() {
    let mut tracker = ActiveSourceTracker::new();
    tracker.activate_source_at(SourceType::Webpage, "a".to_string(), None, 0);
    tracker.activate_source_at(SourceType::Webpage, "b".to_string(), None, 40_000);
    assert_eq!(tracker.get_active_sources_at(None, 80_000).len(), 1);
    assert_eq!(tracker.get_active_sources_at(Some(20), 80_000).len(), 2);
    assert_eq!(tracker.get_active_sources_at(Some(61), 80_000).len(), 0);
    // reading does not drop anything
    assert_eq!(tracker.count(), 2);
    tracker.deactivate_source("missing");
    assert_eq!(tracker.count(), 2);
}

#[test]
fn contribution_typing() {
    let mut tracker = ActiveSourceTracker::new();
    tracker.activate_source_at(SourceType::Clipboard, "clip".to_string(), None, 0);
    let mut linker = SourceLinker::new(tracker, Database::new());
    let input =
        CreateSourceLinkInput { doc_id: "d1".to_string(), section_path: Some("intro".to_string()), content: "x".to_string() };

    let first = linker.create_source_link_at(&input, 10_000, "l1".to_string(), vec!["c1".to_string()]).unwrap();
    assert_eq!(first.sources.len(), 1);
    assert_eq!(first.sources[0].contribution_type, ContributionType::DirectCopy);
    assert_eq!(first.sources[0].link_id, "l1");
    assert_eq!(first.sources[0].id, "c1");
    assert_eq!(first.sources[0].source_id, "clip");
    assert_eq!(first.sources[0].source_type, SourceType::Clipboard);
    assert_eq!(first.sources[0].timestamp, 10_000);
    assert_eq!(first.link.confidence_score, MeanRelevance { total: 90, count: 1 });
    assert_eq!(first.link.section_path.as_deref(), Some("intro"));
    assert_eq!(first.link.content_hash, hash_content("x"));
    assert_eq!(first.link.content_preview.as_deref(), Some("x"));
    assert_eq!(first.link.created_at, 10_000);

    let second = linker.create_source_link_at(&input, 25_000, "l2".to_string(), vec!["c2".to_string()]).unwrap();
    assert_eq!(second.sources[0].contribution_type, ContributionType::Referenced);
    assert_eq!(second.link.confidence_score, MeanRelevance { total: 75, count: 1 });

    let all = linker.get_document_provenance("d1").unwrap();
    assert_eq!(all.len(), 2);
    assert_eq!(all[0].link.id, "l2");
    assert_eq!(all[1].link.id, "l1");
    assert_eq!(all[0].sources.len(), 1);
    assert_eq!(all[0].sources[0].id, "c2");
    assert_eq!(all[1].sources[0].id, "c1");
}

#[test]
fn orphan_link() {
    let mut linker = SourceLinker::new(ActiveSourceTracker::new(), Database::new());
    let input = CreateSourceLinkInput { doc_id: "d1".to_string(), section_path: None, content: "x".to_string() };
    let out = linker.create_source_link(&input).unwrap();
    assert_eq!(out.link.confidence_score, MeanRelevance { total: 0, count: 0 });
    assert_eq!(confidence(out.link.confidence_score), 0.0);
    assert!(out.sources.is_empty());
    assert_eq!(out.link.id.len(), 36);

    let found = linker.get_document_provenance("d1").unwrap();
    assert_eq!(found.len(), 1);
    assert_eq!(found[0].link.id, out.link.id);
    assert_eq!(found[0].link.doc_id, "d1");
    assert!(found[0].sources.is_empty());
    assert!(linker.get_document_provenance("d2").unwrap().is_empty());
}

#[test]
fn stale_sources_are_not_linked() {
    let mut tracker = ActiveSourceTracker::new();
    tracker.activate_source_at(SourceType::Search, "q".to_string(), None, 0);
    tracker.activate_source_at(SourceType::Document, "doc".to_string(), None, 50_000);
    let mut linker = SourceLinker::new(tracker, Database::new());
    let input = CreateSourceLinkInput { doc_id: "d".to_string(), section_path: None, content: "y".to_string() };
    let names = vec!["c1".to_string(), "c2".to_string()];
    let out = linker.create_source_link_at(&input, 75_000, "l".to_string(), names).unwrap();
    assert_eq!(out.sources.len(), 1);
    assert_eq!(out.sources[0].source_id, "doc");
    assert_eq!(out.sources[0].id, "c1");
    assert_eq!(out.sources[0].contribution_type, ContributionType::Referenced);
    assert_eq!(out.link.confidence_score, MeanRelevance { total: 75, count: 1 });
}

#[test]
fn live_links_get_fresh_distinct_names() {
    let mut tracker = ActiveSourceTracker::new();
    tracker.activate_source(SourceType::Webpage, "a".to_string(), None);
    tracker.activate_source(SourceType::Clipboard, "b".to_string(), None);
    let mut linker = SourceLinker::new(tracker, Database::new());
    let input = CreateSourceLinkInput { doc_id: "d".to_string(), section_path: None, content: "z".to_string() };
    let out = linker.create_source_link(&input).unwrap();
    assert_eq!(out.sources.len(), 2);
    assert_ne!(out.sources[0].id, out.sources[1].id);
    assert_ne!(out.sources[0].id, out.link.id);
    assert_eq!(out.sources[0].link_id, out.link.id);
    assert!(out.link.created_at > 1_600_000_000_000);
    assert_eq!(linker.db.source_links.len(), 1);
    assert_eq!(linker.db.linked_sources.len(), 2);
}

#[test]
fn confidence_lies_between_zero_and_one() {
    let mut tracker = ActiveSourceTracker::new();
    for (i, at) in [0, 10_000, 35_000, 69_000, 70_000, 71_000, 99_000].iter().enumerate() {
        tracker.activate_source_at(SourceType::Webpage, format!("page{}", i), None, *at);
    }
    let mut linker = SourceLinker::new(tracker, Database::new());
    let input = CreateSourceLinkInput { doc_id: "d".to_string(), section_path: None, content: "x".to_string() };
    let mut now = 99_000;
    let mut n = 0;
    while now < 210_000 {
        let names: Vec<String> = (0..7).map(|k| format!("c{}-{}", n, k)).collect();
        let out = linker.create_source_link_at(&input, now, format!("l{}", n), names).unwrap();
        let score = confidence(out.link.confidence_score);
        assert!((0.0..=1.0).contains(&score));
        assert_eq!(score == 0.0, out.sources.is_empty());
        assert_eq!(out.sources.len(), out.link.confidence_score.count);
        if !out.sources.is_empty() {
            assert!(score >= 0.3);
        }
        now += 7_000;
        n += 1;
    }
    // at the first link, the two oldest sources had already fallen below the threshold
    let all = linker.get_document_provenance("d").unwrap();
    assert_eq!(all.last().unwrap().sources.len(), 5);
    assert_eq!(all.last().unwrap().link.confidence_score, MeanRelevance { total: 36 + 70 + 71 + 72 + 100, count: 5 });
    assert!(all[0].sources.is_empty());
}
