use provenance::capture_buffer::CaptureBuffer;
use provenance::database::{Database, DbError};
use provenance::linker::{SourceLink, SourceLinkWithSources};
use provenance::tracker::MeanRelevance;
use provenance::types::{
    AIExchangeCapture, BrowseCapture, CaptureConfig, ClipboardCapture, ContributionType, DocEditCapture,
    LinkedSource, SearchCapture, SourceType,
};

const DAY_MS: i64 = 24 * 60 * 60 * 1000;

fn link(id: &str, doc: &str, at: i64) -> SourceLink {
    SourceLink {
        id: id.to_string(),
        doc_id: doc.to_string(),
        section_path: None,
        content_hash: "h".to_string(),
        content_preview: None,
        created_at: at,
        confidence_score: MeanRelevance { total: 0, count: 0 },
    }
}

fn child(id: &str, link_id: &str) -> LinkedSource {
    LinkedSource {
        id: id.to_string(),
        link_id: link_id.to_string(),
        source_type: SourceType::Webpage,
        source_id: "s".to_string(),
        contribution_type: ContributionType::Referenced,
        timestamp: 0,
    }
}

fn clip(id: &str, at: i64) -> ClipboardCapture {
    ClipboardCapture {
        id: id.to_string(),
        content_hash: format!("h-{}", id),
        content_preview: format!("p-{}", at),
        source_url: None,
        source_title: None,
        captured_at: at,
    }
}

fn visit(id: &str, at: i64, left_at: Option<i64>) -> BrowseCapture {
    BrowseCapture {
        id: id.to_string(),
        url: "u".to_string(),
        page_title: None,
        entered_at: at,
        left_at,
        scroll_depth_percent: None,
    }
}

#[test]
fn content_gc_policy() {
    let mut db = Database::new();
    db.store_content_at("h1", "body", "clipboard", 0).unwrap();
    let r = db.cleanup_capture_content_at(31 * DAY_MS).unwrap();
    assert_eq!(r.content_entries_deleted, 1);
    assert!(db.content_store.is_empty());
    assert_eq!(db.get_content_at("h1", 31 * DAY_MS).unwrap(), None);

    db.store_content_at("h1", "body", "clipboard", 0).unwrap();
    db.store_content_at("h1", "body", "clipboard", 0).unwrap();
    db.store_content_at("h1", "body", "clipboard", 0).unwrap();
    let r = db.cleanup_capture_content_at(31 * DAY_MS).unwrap();
    assert_eq!(r.content_entries_deleted, 0);
    assert_eq!(db.content_store.len(), 1);
    assert_eq!(db.content_store[0].access_count, 3);
    let r = db.cleanup_capture_content_at(3_000 * DAY_MS).unwrap();
    assert_eq!(r.content_entries_deleted, 0);
    assert_eq!(db.get_content_at("h1", 3_000 * DAY_MS).unwrap().as_deref(), Some("body"));
}

#[test]
fn content_gc_goes_by_age_and_use() {
    let mut db = Database::new();
    let now = 100 * DAY_MS;
    db.store_content_at("old-once", "a", "text", now - 30 * DAY_MS - 1).unwrap();
    db.store_content_at("edge-once", "b", "text", now - 30 * DAY_MS).unwrap();
    db.store_content_at("old-twice", "c", "text", 0).unwrap();
    db.store_content_at("old-twice", "c", "text", 5).unwrap();
    db.store_content_at("old-thrice", "d", "text", 0).unwrap();
    db.get_content_at("old-thrice", 1).unwrap();
    db.get_content_at("old-thrice", 2).unwrap();
    db.store_content_at("new-once", "e", "text", now).unwrap();
    let r = db.cleanup_capture_content_at(now).unwrap();
    assert_eq!(r.content_entries_deleted, 2);
    let left: Vec<&str> = db.content_store.iter().map(|e| e.hash.as_str()).collect();
    assert_eq!(left, vec!["edge-once", "old-thrice", "new-once"]);
    assert_eq!(db.cleanup_capture_content_at(now).unwrap().content_entries_deleted, 0);
}

#[test]
fn store_then_get_returns_the_body() {
    let mut db = Database::new();
    assert_eq!(db.get_content_at("h", 0).unwrap(), None);
    db.store_content_at("h", "caf\u{e9}", "clipboard", 10).unwrap();
    {
        let e = &db.content_store[0];
        assert_eq!(e.hash, "h");
        assert_eq!(e.content_type, "clipboard");
        assert_eq!(e.byte_size, 5);
        assert_eq!((e.created_at, e.last_accessed_at, e.access_count), (10, 10, 1));
    }
    assert_eq!(db.get_content_at("h", 20).unwrap().as_deref(), Some("caf\u{e9}"));
    {
        let e = &db.content_store[0];
        assert_eq!((e.created_at, e.last_accessed_at, e.access_count), (10, 20, 2));
    }
    // the first body stays
    db.store_content_at("h", "other", "text", 30).unwrap();
    assert_eq!(db.content_store.len(), 1);
    assert_eq!(db.content_store[0].content_type, "clipboard");
    assert_eq!(db.content_store[0].byte_size, 5);
    assert_eq!(db.get_content_at("h", 40).unwrap().as_deref(), Some("caf\u{e9}"));
    assert_eq!(db.content_store[0].access_count, 4);
    assert_eq!(db.content_store[0].last_accessed_at, 40);
    // a miss touches nothing
    assert_eq!(db.get_content_at("g", 50).unwrap(), None);
    assert_eq!(db.content_store[0].last_accessed_at, 40);

    db.store_content("live", "x", "text").unwrap();
    assert_eq!(db.get_content("live").unwrap().as_deref(), Some("x"));
    assert_eq!(db.content_store[1].access_count, 2);
    assert!(db.content_store[1].created_at > 1_600_000_000_000);
    // at the real time of day, what was last read in 1970 is old, but read often
    assert_eq!(db.cleanup_capture_content().unwrap().content_entries_deleted, 0);
    db.store_content_at("forgotten", "y", "text", 50).unwrap();
    assert_eq!(db.cleanup_capture_content().unwrap().content_entries_deleted, 1);
    let left: Vec<&str> = db.content_store.iter().map(|e| e.hash.as_str()).collect();
    assert_eq!(left, vec!["h", "live"]);
}

#[test]
fn access_count_stops_at_its_limit() {
    let mut db = Database::new();
    db.store_content_at("h", "b", "text", 0).unwrap();
    db.content_store[0].access_count = i32::MAX - 1;
    db.get_content_at("h", 1).unwrap();
    assert_eq!(db.content_store[0].access_count, i32::MAX);
    db.get_content_at("h", 2).unwrap();
    assert_eq!(db.content_store[0].access_count, i32::MAX);
    assert_eq!(db.content_store[0].last_accessed_at, 2);
}

#[test]
fn cascade_deletes_exactly_the_children() {
    let mut db = Database::new();
    db.create_source_link(&link("l1", "d", 1)).unwrap();
    db.create_source_link(&link("l2", "d", 2)).unwrap();
    db.add_linked_sources(&[child("c1", "l1"), child("c2", "l2"), child("c3", "l1")]).unwrap();
    assert!(db.delete_source_link("l1").unwrap());
    let links: Vec<&str> = db.source_links.iter().map(|l| l.id.as_str()).collect();
    let kids: Vec<&str> = db.linked_sources.iter().map(|c| c.id.as_str()).collect();
    assert_eq!(links, vec!["l2"]);
    assert_eq!(kids, vec!["c2"]);
    assert!(!db.delete_source_link("l1").unwrap());
    assert_eq!(db.source_links.len(), 1);
    assert_eq!(db.linked_sources.len(), 1);
}

#[test]
fn links_and_children_keep_their_keys() {
    let mut db = Database::new();
    db.create_source_link(&link("l1", "d", 1)).unwrap();
    assert_eq!(db.create_source_link(&link("l1", "e", 2)).unwrap_err(), DbError::Constraint);
    assert_eq!(db.source_links.len(), 1);
    assert_eq!(db.source_links[0].doc_id, "d");

    // a child of a link that is not there
    assert_eq!(db.add_linked_sources(&[child("c1", "l1"), child("c2", "lx")]).unwrap_err(), DbError::Constraint);
    assert!(db.linked_sources.is_empty());
    // two children of one name in one batch
    assert_eq!(db.add_linked_sources(&[child("c1", "l1"), child("c1", "l1")]).unwrap_err(), DbError::Constraint);
    assert!(db.linked_sources.is_empty());
    db.add_linked_sources(&[]).unwrap();
    db.add_linked_sources(&[child("c1", "l1")]).unwrap();
    // a child whose name is taken
    assert_eq!(db.add_linked_sources(&[child("c2", "l1"), child("c1", "l1")]).unwrap_err(), DbError::Constraint);
    assert_eq!(db.linked_sources.len(), 1);

    // a link and its children are written together or not at all
    let bad = SourceLinkWithSources { link: link("l2", "d", 3), sources: vec![child("c9", "l2"), child("c1", "l2")] };
    assert_eq!(db.store_link(&bad).unwrap_err(), DbError::Constraint);
    assert_eq!(db.source_links.len(), 1);
    assert_eq!(db.linked_sources.len(), 1);
    let taken = SourceLinkWithSources { link: link("l1", "d", 3), sources: vec![] };
    assert_eq!(db.store_link(&taken).unwrap_err(), DbError::Constraint);
    let good = SourceLinkWithSources { link: link("l2", "d", 3), sources: vec![child("c9", "l2"), child("c8", "l1")] };
    db.store_link(&good).unwrap();
    assert_eq!(db.source_links.len(), 2);
    assert_eq!(db.linked_sources.len(), 3);
}

#[test]
fn provenance_is_read_newest_first() {
    let mut db = Database::new();
    for (id, doc, at) in [("a", "d", 5), ("b", "other", 9), ("c", "d", 7), ("e", "d", 5), ("f", "d", 1)] {
        db.create_source_link(&link(id, doc, at)).unwrap();
    }
    db.add_linked_sources(&[child("c1", "a"), child("c2", "c"), child("c3", "a"), child("c4", "b")]).unwrap();
    let got = db.get_document_source_links("d").unwrap();
    let ids: Vec<&str> = got.iter().map(|l| l.link.id.as_str()).collect();
    assert_eq!(ids, vec!["c", "a", "e", "f"]);
    let kids: Vec<Vec<&str>> = got.iter().map(|l| l.sources.iter().map(|c| c.id.as_str()).collect()).collect();
    assert_eq!(kids, vec![vec!["c2"], vec!["c1", "c3"], vec![], vec![]]);
    assert!(db.get_document_source_links("nobody").unwrap().is_empty());
}

#[test]
fn captures_are_written_once_and_read_newest_first() {
    let mut db = Database::new();
    assert_eq!(db.insert_clipboard_captures(&[]).unwrap(), 0);
    assert_eq!(db.insert_clipboard_captures(&[clip("a", 10), clip("b", 30), clip("a", 99)]).unwrap(), 3);
    assert_eq!(db.clipboard_captures.len(), 2);
    // a replayed capture is ignored
    assert_eq!(db.insert_clipboard_captures(&[clip("b", 1), clip("c", 20)]).unwrap(), 2);
    let got = db.get_recent_clipboard(10).unwrap();
    let seen: Vec<(&str, i64)> = got.iter().map(|c| (c.id.as_str(), c.captured_at)).collect();
    assert_eq!(seen, vec![("b", 30), ("c", 20), ("a", 10)]);
    assert_eq!(db.get_recent_clipboard(2).unwrap().len(), 2);
    assert_eq!(db.get_recent_clipboard(2).unwrap()[1].id, "c");
    assert_eq!(db.get_recent_clipboard(0).unwrap().len(), 0);
    assert_eq!(db.get_recent_clipboard(-1).unwrap().len(), 3);
}

#[test]
fn visits_and_searches_are_replaced_by_id() {
    let mut db = Database::new();
    db.insert_browse_captures(&[visit("v1", 10, None), visit("v2", 20, None)]).unwrap();
    assert_eq!(db.insert_browse_captures(&[visit("v1", 10, Some(15))]).unwrap(), 1);
    assert_eq!(db.browse_captures.len(), 2);
    let got = db.get_recent_browse(5).unwrap();
    assert_eq!(got[0].id, "v2");
    assert_eq!(got[1].id, "v1");
    assert_eq!(got[1].left_at, Some(15));

    let search = |id: &str, at: i64, clicked: Option<&str>| SearchCapture {
        id: id.to_string(),
        query: "q".to_string(),
        search_engine: "e".to_string(),
        result_clicked: clicked.map(String::from),
        timestamp: at,
    };
    db.insert_search_captures(&[search("q1", 1, None), search("q2", 2, None), search("q1", 3, Some("r"))]).unwrap();
    let got = db.get_recent_search(-1).unwrap();
    assert_eq!(got.len(), 2);
    assert_eq!(got[0].id, "q1");
    assert_eq!(got[0].result_clicked.as_deref(), Some("r"));
    assert_eq!(got[1].id, "q2");
}

#[test]
fn other_families_and_the_wipe() {
    let mut db = Database::new();
    let ai = |id: &str, at: i64| AIExchangeCapture {
        id: id.to_string(),
        question_hash: "qh".to_string(),
        question_preview: "q".to_string(),
        answer_hash: "ah".to_string(),
        answer_preview: "a".to_string(),
        model: "m".to_string(),
        context_doc_id: None,
        timestamp: at,
    };
    let edit = |id: &str, at: i64| DocEditCapture {
        id: id.to_string(),
        doc_id: "d".to_string(),
        doc_title: "t".to_string(),
        edit_preview: "p".to_string(),
        char_delta: -3,
        started_at: 0,
        ended_at: at,
    };
    assert_eq!(db.insert_ai_exchange_captures(&[ai("x", 1), ai("y", 2), ai("x", 3)]).unwrap(), 3);
    assert_eq!(db.insert_doc_edit_captures(&[edit("e1", 5), edit("e2", 9), edit("e3", 7)]).unwrap(), 3);
    let got = db.get_recent_ai_exchange(5).unwrap();
    assert_eq!(got.iter().map(|c| c.timestamp).collect::<Vec<_>>(), vec![2, 1]);
    let got = db.get_recent_doc_edit(2).unwrap();
    assert_eq!(got.iter().map(|c| c.id.as_str()).collect::<Vec<_>>(), vec!["e2", "e3"]);
    assert_eq!(got[0].char_delta, -3);

    db.insert_clipboard_captures(&[clip("a", 10)]).unwrap();
    db.store_content_at("h", "b", "text", 0).unwrap();
    db.create_source_link(&link("l1", "d", 1)).unwrap();
    let r = db.clear_all_captures().unwrap();
    assert_eq!(r.content_entries_deleted, 6);
    assert!(db.clipboard_captures.is_empty());
    assert!(db.ai_exchange_captures.is_empty());
    assert!(db.doc_edit_captures.is_empty());
    assert!(db.content_store.is_empty());
    assert_eq!(db.source_links.len(), 1);
    assert_eq!(db.clear_all_captures().unwrap().content_entries_deleted, 0);
}

#[test]
fn a_drain_is_written_family_by_family() {
    let mut buffer = CaptureBuffer::new();
    buffer.push_clipboard(clip("a", 1));
    buffer.push_clipboard(clip("b", 2));
    buffer.push_browse(visit("v", 3, None));
    let drain = buffer.drain_all();
    assert_eq!(drain.total_count(), 3);
    assert!(!drain.is_empty());
    let mut db = Database::new();
    let r = db.insert_drain(&drain).unwrap();
    assert_eq!((r.clipboard_inserted, r.browse_inserted, r.search_inserted), (2, 1, 0));
    assert_eq!((r.ai_exchange_inserted, r.doc_edit_inserted), (0, 0));
    assert_eq!(db.clipboard_captures.len(), 2);
    assert_eq!(db.browse_captures.len(), 1);
    // a replay stores nothing twice
    db.insert_drain(&drain).unwrap();
    assert_eq!(db.clipboard_captures.len(), 2);
    assert_eq!(db.browse_captures.len(), 1);
    let second = buffer.drain_all();
    assert!(second.is_empty());
    assert_eq!(second.total_count(), 0);
}

#[test]
fn configuration_defaults_and_saving() {
    let mut db = Database::new();
    let c = db.get_capture_config().unwrap();
    assert!(c.clipboard_enabled && c.browse_enabled && c.search_enabled);
    assert!(c.ai_exchange_enabled && c.source_linking_enabled);
    assert_eq!(c.flush_interval_secs, 30);
    assert_eq!(c.clipboard_poll_ms, 500);
    let d = CaptureConfig::default();
    assert_eq!((d.flush_interval_secs, d.clipboard_poll_ms, d.clipboard_enabled), (30, 500, true));
    let mine = CaptureConfig { clipboard_enabled: false, clipboard_poll_ms: 250, ..d };
    db.save_capture_config(&mine).unwrap();
    let c = db.get_capture_config().unwrap();
    assert!(!c.clipboard_enabled);
    assert_eq!(c.clipboard_poll_ms, 250);
    assert_eq!(c.flush_interval_secs, 30);
}

#[test]
fn numbers_are_read_as_the_standard_library_reads_them() {
    let cases = [
        "0", "7", "007", "+5", "+", "", "-0", "-1", " 1", "1 ", "12a", "4294967295", "4294967296",
        "+4294967295", "99999999999999999999999", "++1", "1+", "\u{661}", "0x10", "1_000", "+0",
    ];
    for text in cases {
        assert_eq!(provenance::config::parse_u32(text), text.parse::<u32>().ok(), "{:?}", text);
    }
    assert_eq!(provenance::config::parse_u32("500"), Some(500));
}

#[test]
fn configuration_rows() {
    let row = |k: &str, v: &str| (k.to_string(), v.to_string());
    let c = provenance::config::config_from_rows(&[
        row("clipboard_enabled", "false"),
        row("browse_enabled", "TRUE"),
        row("search_enabled", "true"),
        row("flush_interval_secs", "90"),
        row("clipboard_poll_ms", "fast"),
        row("unknown", "x"),
    ]);
    assert!(!c.clipboard_enabled);
    assert!(!c.browse_enabled);
    assert!(c.search_enabled);
    assert!(c.ai_exchange_enabled);
    assert!(c.source_linking_enabled);
    assert_eq!(c.flush_interval_secs, 90);
    assert_eq!(c.clipboard_poll_ms, 500);
    // a later row wins
    let c = provenance::config::config_from_rows(&[row("flush_interval_secs", "5"), row("flush_interval_secs", "-")]);
    assert_eq!(c.flush_interval_secs, 30);

    let rows = provenance::config::config_to_rows(&CaptureConfig {
        clipboard_enabled: false,
        flush_interval_secs: 4_000_000_000,
        ..CaptureConfig::default()
    });
    assert_eq!(
        rows,
        vec![
            row("clipboard_enabled", "false"),
            row("browse_enabled", "true"),
            row("search_enabled", "true"),
            row("ai_exchange_enabled", "true"),
            row("source_linking_enabled", "true"),
            row("flush_interval_secs", "4000000000"),
            row("clipboard_poll_ms", "500"),
        ]
    );
}

#[test]
fn saved_configuration_replaces_row_by_row() {
    let mut db = Database::new();
    db.capture_config.push(("clipboard_poll_ms".to_string(), "1".to_string()));
    db.capture_config.push(("theme".to_string(), "dark".to_string()));
    assert_eq!(db.get_capture_config().unwrap().clipboard_poll_ms, 1);
    let mine = CaptureConfig { search_enabled: false, clipboard_poll_ms: 750, ..CaptureConfig::default() };
    db.save_capture_config(&mine).unwrap();
    assert_eq!(db.capture_config.len(), 8);
    assert_eq!(db.capture_config[0], ("theme".to_string(), "dark".to_string()));
    let c = db.get_capture_config().unwrap();
    assert_eq!(c.clipboard_poll_ms, 750);
    assert!(!c.search_enabled);
    assert!(c.clipboard_enabled);
    db.save_capture_config(&CaptureConfig::default()).unwrap();
    assert_eq!(db.capture_config.len(), 8);
    assert!(db.get_capture_config().unwrap().search_enabled);
}

#[test]
fn batches_that_hold_what_is_not_valid_are_refused() {
    let mut db = Database::new();
    db.insert_browse_captures(&[visit("v1", 10, None)]).unwrap();
    let mut too_deep = visit("v3", 10, Some(12));
    too_deep.scroll_depth_percent = Some(101);
    assert_eq!(db.insert_browse_captures(&[visit("v2", 10, Some(11)), too_deep]).unwrap_err(), DbError::Invalid);
    assert_eq!(db.insert_browse_captures(&[visit("v1", 10, Some(9))]).unwrap_err(), DbError::Invalid);
    assert_eq!(db.browse_captures.len(), 1);
    assert_eq!(db.browse_captures[0].left_at, None);

    let edit = |id: &str, started_at: i64, ended_at: i64| DocEditCapture {
        id: id.to_string(),
        doc_id: "d".to_string(),
        doc_title: "t".to_string(),
        edit_preview: "p".to_string(),
        char_delta: 0,
        started_at,
        ended_at,
    };
    assert_eq!(db.insert_doc_edit_captures(&[edit("e1", 1, 2), edit("e2", 2, 1)]).unwrap_err(), DbError::Invalid);
    assert!(db.doc_edit_captures.is_empty());
    assert_eq!(db.insert_doc_edit_captures(&[edit("e1", 1, 2), edit("e2", 2, 2)]).unwrap(), 2);

    let drain = provenance::capture_buffer::CaptureBufferDrain {
        clipboard: vec![clip("c", 1)],
        browse: vec![visit("v9", 5, Some(4))],
        search: vec![],
        ai_exchange: vec![],
        doc_edit: vec![],
    };
    assert_eq!(db.insert_drain(&drain).unwrap_err(), DbError::Invalid);
    assert!(db.clipboard_captures.is_empty());
    assert_eq!(db.browse_captures.len(), 1);
    let drain = provenance::capture_buffer::CaptureBufferDrain { doc_edit: vec![edit("e3", 9, 8)], browse: vec![], ..drain };
    assert_eq!(db.insert_drain(&drain).unwrap_err(), DbError::Invalid);
    assert!(db.clipboard_captures.is_empty());
    assert_eq!(db.doc_edit_captures.len(), 2);
}
