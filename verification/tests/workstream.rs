use provenance::database::{Database, DbError};
use provenance::events::{coalesce, EventBuffer};
use provenance::summary::generate_local_summary;
use provenance::text::decimal_string;
use provenance::workblock::{block_input_from_flush, duration_between};
use provenance::workstream::EventType::{Blur, Browse, Edit, Focus, Save, Search, Tool};
use provenance::workstream::{
    BufferedEvent, ContextType, CreateBlockInput, EventType, ManualBlockInput, MilestoneInput, Session,
    UpdateBlockInput, WorkBlockQuery,
};

const DAY_MS: i64 = 24 * 60 * 60 * 1000;

fn make_event(event_type: EventType, context_id: Option<&str>) -> BufferedEvent {
    BufferedEvent {
        id: "e".to_string(),
        timestamp: 1_000,
        event_type,
        context_type: ContextType::Document,
        context_id: context_id.map(String::from),
        context_title: Some("Test Doc".to_string()),
        url: None,
        delta: None,
    }
}

fn event_at(event_type: EventType, at: i64, url: Option<&str>) -> BufferedEvent {
    BufferedEvent {
        id: format!("e{}", at),
        timestamp: at,
        event_type,
        context_type: ContextType::Document,
        context_id: Some("doc1".to_string()),
        context_title: Some("Q3 Proposal".to_string()),
        url: url.map(String::from),
        delta: None,
    }
}

fn of_kinds(kinds: &[EventType]) -> Vec<BufferedEvent> {
    kinds.iter().map(|k| make_event(*k, Some("doc1"))).collect()
}

#[test]
fn test_buffer_push_and_status() {
    let mut buffer = EventBuffer::new();

    buffer.push(make_event(EventType::Edit, Some("doc1")));
    buffer.push(make_event(EventType::Edit, Some("doc1")));

    let status = buffer.status();
    assert_eq!(status.event_count, 2);
}

#[test]
fn test_context_switch_detection() {
    let mut buffer = EventBuffer::new();

    buffer.push(make_event(EventType::Edit, Some("doc1")));
    let result = buffer.push(make_event(EventType::Edit, Some("doc2")));

    assert!(result.context_switched);
}

#[test]
fn test_flush() {
    let mut buffer = EventBuffer::new();

    buffer.push(make_event(EventType::Edit, Some("doc1")));
    buffer.push(make_event(EventType::Edit, Some("doc1")));
    buffer.push(make_event(EventType::Browse, Some("doc1")));

    let result = buffer.flush();
    assert!(result.is_some());

    let flush = result.unwrap();
    assert_eq!(flush.edit_count, 2);
    assert_eq!(flush.browse_count, 1);
}

#[test]
fn test_local_summary_generation() {
    let events = vec![
        make_event(EventType::Edit, Some("doc1")),
        make_event(EventType::Edit, Some("doc1")),
        make_event(EventType::Save, Some("doc1")),
    ];

    let summary = generate_local_summary(&events, &Some("Q3 Proposal".to_string()));
    assert!(summary.contains("Edited and saved"));
    assert!(summary.contains("Q3 Proposal"));
}

#[test]
fn summary_sentences() {
    let title = Some("Notes".to_string());
    let say = |kinds: &[EventType]| generate_local_summary(&of_kinds(kinds), &title);
    assert_eq!(say(&[Edit]), "Edited Notes");
    assert_eq!(say(&[Edit, Save]), "Edited and saved Notes");
    assert_eq!(say(&[Save]), "Brief activity on Notes");
    assert_eq!(say(&[]), "Brief activity on Notes");
    assert_eq!(say(&[Focus, Blur]), "Brief activity on Notes");
    assert_eq!(say(&[Edit, Browse]), "Edited Notes with 1 site researched");
    assert_eq!(say(&[Edit, Browse, Browse, Save]), "Edited and saved Notes with 2 sites researched");
    assert_eq!(say(&[Browse]), "Browsed 1 site");
    assert_eq!(say(&[Browse, Browse, Browse]), "Browsed 3 sites");
    assert_eq!(say(&[Search]), "Searched 1 time");
    assert_eq!(say(&[Search, Search]), "Searched 2 times");
    assert_eq!(say(&[Search, Browse]), "Browsed 1 site");
    assert_eq!(say(&[Search, Edit]), "Edited Notes");
    assert_eq!(say(&[Tool]), "Used 1 tool");
    assert_eq!(say(&[Tool, Tool]), "Used 2 tools");
    assert_eq!(say(&[Edit, Tool]), "Edited Notes using 1 tool");
    assert_eq!(say(&[Search, Tool, Tool]), "Searched 1 time using 2 tools");
    assert_eq!(say(&[Edit, Browse, Tool, Save]), "Edited and saved Notes with 1 site researched using 1 tool");
    assert_eq!(generate_local_summary(&of_kinds(&[Edit]), &None), "Edited document");
    assert_eq!(generate_local_summary(&of_kinds(&[]), &None), "Brief activity on document");
    let many: Vec<EventType> = (0..12).map(|_| Browse).collect();
    assert_eq!(say(&many), "Browsed 12 sites");
}

#[test]
fn numbers_in_decimal() {
    assert_eq!(decimal_string(0), "0");
    assert_eq!(decimal_string(7), "7");
    assert_eq!(decimal_string(10), "10");
    assert_eq!(decimal_string(109), "109");
    assert_eq!(decimal_string(1234567890), "1234567890");
    assert_eq!(decimal_string(u64::MAX), u64::MAX.to_string());
}

#[test]
fn event_buffer_coalescing() {
    let mut buffer = EventBuffer::new();
    buffer.push(event_at(EventType::Edit, 1_000, None));
    buffer.push(event_at(EventType::Edit, 2_000, None));
    buffer.push(event_at(EventType::Browse, 3_000, Some("u1")));
    buffer.push(event_at(EventType::Browse, 4_000, Some("u2")));
    let last = buffer.push(event_at(EventType::Save, 9_500, None));
    assert_eq!(last.event_count, 5);
    assert!(!last.should_flush);
    assert!(!last.context_switched);
    assert!(buffer.can_create_block());

    let status = buffer.status();
    assert_eq!(status.oldest_event_at, Some(1_000));
    assert_eq!(status.newest_event_at, Some(9_500));
    assert_eq!(status.current_context.as_deref(), Some("doc1"));
    assert_eq!(buffer.time_since_last_event_at(10_000), Some(500));

    let flush = buffer.flush().unwrap();
    assert_eq!(flush.events.len(), 5);
    assert_eq!(flush.edit_count, 2);
    assert_eq!(flush.browse_count, 2);
    assert_eq!(flush.research_urls, vec!["u1".to_string(), "u2".to_string()]);
    assert_eq!(flush.context_type, ContextType::Document);
    assert_eq!(flush.context_id.as_deref(), Some("doc1"));
    assert_eq!(flush.context_title.as_deref(), Some("Q3 Proposal"));
    assert_eq!(flush.started_at, 1_000);
    assert_eq!(flush.ended_at, 9_500);
    assert_eq!(flush.auto_summary, "Edited and saved Q3 Proposal with 2 sites researched");

    // the buffer is empty and has forgotten its context
    let status = buffer.status();
    assert_eq!(status.event_count, 0);
    assert_eq!(status.oldest_event_at, None);
    assert_eq!(status.current_context, None);
    assert!(buffer.flush().is_none());
    assert_eq!(buffer.time_since_last_event_at(10_000), None);
    assert!(!buffer.push(make_event(EventType::Edit, Some("other"))).context_switched);
}

#[test]
fn flush_needs_two_events() {
    let mut buffer = EventBuffer::new();
    assert!(buffer.flush().is_none());
    assert!(!buffer.can_create_block());
    buffer.push(make_event(EventType::Edit, Some("doc1")));
    assert!(buffer.flush().is_none());
    // nothing was lost
    let status = buffer.status();
    assert_eq!(status.event_count, 1);
    assert_eq!(status.current_context.as_deref(), Some("doc1"));
    buffer.push(make_event(EventType::Edit, Some("doc1")));
    let flush = buffer.flush().unwrap();
    assert_eq!(flush.events.len(), 2);
    assert_eq!(buffer.status().event_count, 0);
    buffer.push(make_event(EventType::Edit, Some("doc1")));
    buffer.clear();
    assert_eq!(buffer.status().event_count, 0);
    assert_eq!(buffer.status().current_context, None);
}

#[test]
fn context_switch_triggers_flush_hint() {
    let mut buffer = EventBuffer::new();
    let first = buffer.push(make_event(EventType::Edit, Some("doc1")));
    assert!(!first.context_switched);
    assert!(!first.should_flush);
    let second = buffer.push(make_event(EventType::Edit, Some("doc2")));
    assert!(second.context_switched);
    assert!(second.should_flush);
    assert_eq!(second.event_count, 2);
    // the same id in another kind of context is a switch too
    let mut other = make_event(EventType::Edit, Some("doc2"));
    other.context_type = ContextType::Task;
    assert!(buffer.push(other).context_switched);
    // and so is losing the id
    let mut bare = make_event(EventType::Edit, None);
    bare.context_type = ContextType::Task;
    assert!(buffer.push(bare).context_switched);
}

#[test]
fn capacity_triggers_flush_hint() {
    let mut buffer = EventBuffer::new();
    for i in 1..=99 {
        let r = buffer.push(make_event(EventType::Edit, Some("doc1")));
        assert_eq!(r.event_count, i);
        assert!(!r.should_flush);
    }
    let r = buffer.push(make_event(EventType::Edit, Some("doc1")));
    assert_eq!(r.event_count, 100);
    assert!(r.should_flush);
    assert!(!r.context_switched);
    assert!(buffer.push(make_event(EventType::Edit, Some("doc1"))).should_flush);
}

#[test]
fn research_urls_are_distinct_ordered_and_capped() {
    let mut events = Vec::new();
    for (i, u) in ["a", "b", "a", "c", "d", "b", "e", "f", "g"].iter().enumerate() {
        events.push(event_at(EventType::Browse, i as i64, Some(u)));
    }
    events.push(event_at(EventType::Browse, 50, None));
    events.push(event_at(EventType::Edit, 60, Some("not-a-visit")));
    let f = coalesce(events);
    assert_eq!(f.research_urls, vec!["a", "b", "c", "d", "e"]);
    assert_eq!(f.browse_count, 10);
    assert_eq!(f.edit_count, 1);
}

#[test]
fn mixed_context_and_first_carriers() {
    let mut a = make_event(EventType::Edit, None);
    a.context_title = None;
    let mut b = make_event(EventType::Edit, Some("second"));
    b.context_title = None;
    b.context_type = ContextType::Task;
    let mut c = make_event(EventType::Edit, Some("third"));
    c.context_title = Some("Third".to_string());
    let f = coalesce(vec![a, b, c]);
    assert_eq!(f.context_type, ContextType::Mixed);
    assert_eq!(f.context_id.as_deref(), Some("second"));
    assert_eq!(f.context_title.as_deref(), Some("Third"));
    assert_eq!(f.auto_summary, "Edited Third");
}

#[test]
fn enum_codecs_round_trip() {
    for t in [ContextType::Document, ContextType::Task, ContextType::Browser, ContextType::Manual, ContextType::Mixed] {
        assert_eq!(ContextType::from_str(t.as_str()), t);
    }
    assert_eq!(ContextType::from_str("nonsense"), ContextType::Mixed);
    assert_eq!(ContextType::Browser.as_str(), "browser");
    for t in [
        EventType::Edit,
        EventType::Browse,
        EventType::Search,
        EventType::Tool,
        EventType::Focus,
        EventType::Blur,
        EventType::Save,
    ] {
        assert_eq!(EventType::from_str(t.as_str()), t);
    }
    assert_eq!(EventType::from_str(""), EventType::Edit);
    assert_eq!(EventType::Blur.as_str(), "blur");
}

#[test]
fn durations_are_whole_seconds() {
    assert_eq!(duration_between(0, 600_000), 600);
    assert_eq!(duration_between(1_000, 1_999), 0);
    assert_eq!(duration_between(1_000, 2_000), 1);
    assert_eq!(duration_between(5, 5), 0);
    assert_eq!(duration_between(2_000, 500), -1);
    assert_eq!(duration_between(i64::MIN, i64::MAX), 18_446_744_073_709_551);
}

fn block_input(started_at: i64, ended_at: i64) -> CreateBlockInput {
    CreateBlockInput {
        context_type: "document".to_string(),
        context_id: Some("doc1".to_string()),
        context_title: Some("Doc".to_string()),
        started_at,
        ended_at,
        auto_summary: Some("Edited Doc".to_string()),
        edit_count: 3,
        browse_count: 1,
        research_urls: vec!["u1".to_string()],
    }
}

#[test]
fn blocks_are_made_from_a_flush() {
    let mut buffer = EventBuffer::new();
    buffer.push(event_at(EventType::Edit, 10_000, None));
    buffer.push(event_at(EventType::Browse, 12_000, Some("u1")));
    buffer.push(event_at(EventType::Save, 75_400, None));
    let flush = buffer.flush().unwrap();
    let input = block_input_from_flush(&flush);
    assert_eq!(input.context_type, "document");
    assert_eq!(input.auto_summary.as_deref(), Some("Edited and saved Q3 Proposal with 1 site researched"));

    let mut db = Database::new();
    let block = db.create_ws_block_at(&input, "b1".to_string(), 80_000).unwrap();
    assert_eq!(block.id, "b1");
    assert_eq!(block.duration_secs, 65);
    assert!(block.ended_at >= block.started_at);
    assert_eq!(block.started_at, 10_000);
    assert_eq!(block.ended_at, 75_400);
    assert_eq!(block.context_type, ContextType::Document);
    assert_eq!(block.edit_count, 1);
    assert_eq!(block.browse_count, 1);
    assert_eq!(block.research_urls, vec!["u1"]);
    assert!(!block.is_manual);
    assert!(!block.is_pinned);
    assert_eq!(block.user_summary, None);
    assert!(block.tags.is_empty());
    assert_eq!(block.created_at, 80_000);
    assert_eq!(block.updated_at, 80_000);
    assert_eq!(block.display_summary(), Some("Edited and saved Q3 Proposal with 1 site researched"));

    let stored = db.get_work_block_by_id("b1").unwrap().unwrap();
    assert_eq!(stored.duration_secs, 65);
    assert_eq!(db.create_ws_block_at(&input, "b1".to_string(), 90_000).unwrap_err(), DbError::Constraint);
    assert_eq!(db.work_blocks.len(), 1);
    assert!(db.get_work_block_by_id("b2").unwrap().is_none());

    let live = db.create_ws_block(&input).unwrap();
    assert_eq!(live.id.len(), 36);
    assert_eq!(live.duration_secs, 65);
    assert_eq!(db.work_blocks.len(), 2);
}

#[test]
fn manual_blocks_and_edits() {
    let mut db = Database::new();
    let input = ManualBlockInput {
        context_type: None,
        context_id: None,
        context_title: Some("Call".to_string()),
        started_at: 0,
        ended_at: 1_800_000,
        user_summary: "Talked to the client".to_string(),
        notes: Some("n".to_string()),
        tags: Some(vec!["a".to_string(), "b".to_string()]),
    };
    let block = db.create_manual_block_at(&input, "m1".to_string(), 5).unwrap();
    assert!(block.is_manual);
    assert_eq!(block.context_type, ContextType::Manual);
    assert_eq!(block.duration_secs, 1_800);
    assert_eq!(block.auto_summary, None);
    assert_eq!(block.edit_count, 0);
    assert_eq!(block.browse_count, 0);
    assert!(block.research_urls.is_empty());
    assert_eq!(block.tags, vec!["a", "b"]);
    assert_eq!(block.display_summary(), Some("Talked to the client"));
    assert_eq!(db.create_manual_block_at(&input, "m1".to_string(), 6).unwrap_err(), DbError::Constraint);

    let typed = ManualBlockInput { context_type: Some("task".to_string()), tags: None, ..input.clone() };
    let other = db.create_manual_block_at(&typed, "m2".to_string(), 7).unwrap();
    assert_eq!(other.context_type, ContextType::Task);
    assert!(other.tags.is_empty());

    let edit = UpdateBlockInput { user_summary: None, notes: None, tags: None, is_pinned: Some(true) };
    let pinned = db.update_work_block_at("m1", &edit, 99).unwrap().unwrap();
    assert!(pinned.is_pinned);
    assert_eq!(pinned.updated_at, 99);
    assert_eq!(pinned.created_at, 5);
    assert_eq!(pinned.user_summary.as_deref(), Some("Talked to the client"));
    assert_eq!(pinned.tags, vec!["a", "b"]);
    assert_eq!(pinned.notes.as_deref(), Some("n"));

    let edit = UpdateBlockInput {
        user_summary: Some("Client call".to_string()),
        notes: Some("later".to_string()),
        tags: Some(vec![]),
        is_pinned: None,
    };
    let edited = db.update_work_block_at("m1", &edit, 120).unwrap().unwrap();
    assert!(edited.is_pinned);
    assert_eq!(edited.display_summary(), Some("Client call"));
    assert_eq!(edited.notes.as_deref(), Some("later"));
    assert!(edited.tags.is_empty());
    assert_eq!(edited.updated_at, 120);
    assert!(db.update_work_block_at("nope", &edit, 130).unwrap().is_none());
    // the other block was left alone
    assert_eq!(db.get_work_block_by_id("m2").unwrap().unwrap().updated_at, 7);
    assert!(db.update_work_block("m2", &edit).unwrap().unwrap().updated_at > 1_600_000_000_000);
}

#[test]
fn listing_blocks() {
    let mut db = Database::new();
    for (id, start) in [("a", 30), ("b", 10), ("c", 50), ("d", 30), ("e", 20)] {
        let mut input = block_input(start, start + 1_000);
        if id == "c" {
            input.context_type = "task".to_string();
            input.context_id = Some("t1".to_string());
        }
        if id == "e" {
            input.context_id = None;
        }
        db.create_ws_block_at(&input, id.to_string(), 0).unwrap();
    }
    let pin = UpdateBlockInput { user_summary: None, notes: None, tags: None, is_pinned: Some(true) };
    db.update_work_block_at("b", &pin, 1).unwrap();

    let ids = |db: &Database, q: &WorkBlockQuery| -> Vec<String> {
        db.list_work_blocks(q).unwrap().into_iter().map(|b| b.id).collect()
    };
    let all = WorkBlockQuery {
        context_type: None,
        context_id: None,
        from_timestamp: None,
        to_timestamp: None,
        include_pinned_only: false,
        limit: None,
    };
    assert_eq!(ids(&db, &all), vec!["c", "a", "d", "e", "b"]);
    assert_eq!(ids(&db, &WorkBlockQuery { limit: Some(2), ..all.clone() }), vec!["c", "a"]);
    assert_eq!(ids(&db, &WorkBlockQuery { limit: Some(0), ..all.clone() }), Vec::<String>::new());
    assert_eq!(ids(&db, &WorkBlockQuery { limit: Some(-1), ..all.clone() }).len(), 5);
    assert_eq!(ids(&db, &WorkBlockQuery { limit: Some(9), ..all.clone() }).len(), 5);
    assert_eq!(ids(&db, &WorkBlockQuery { context_type: Some("task".to_string()), ..all.clone() }), vec!["c"]);
    assert_eq!(
        ids(&db, &WorkBlockQuery { context_id: Some("doc1".to_string()), ..all.clone() }),
        vec!["a", "d", "b"]
    );
    assert_eq!(
        ids(&db, &WorkBlockQuery { from_timestamp: Some(20), to_timestamp: Some(30), ..all.clone() }),
        vec!["a", "d", "e"]
    );
    assert_eq!(ids(&db, &WorkBlockQuery { include_pinned_only: true, ..all.clone() }), vec!["b"]);

    let timeline = db.get_workstream_timeline(Some(3)).unwrap();
    assert_eq!(timeline.blocks.len(), 3);
    assert_eq!(timeline.total_duration_secs, 3);
    assert!(timeline.session.is_none());
    assert_eq!(db.get_workstream_timeline(None).unwrap().blocks.len(), 5);

    assert!(db.delete_work_block("a").unwrap());
    assert!(!db.delete_work_block("a").unwrap());
    assert_eq!(ids(&db, &all), vec!["c", "d", "e", "b"]);
}

#[test]
fn workstream_cleanup() {
    let mut db = Database::new();
    let now = 100 * DAY_MS;
    db.create_ws_block_at(&block_input(0, now - 8 * DAY_MS), "old".to_string(), 0).unwrap();
    db.create_ws_block_at(&block_input(0, now - 8 * DAY_MS), "old-pinned".to_string(), 0).unwrap();
    db.create_ws_block_at(&block_input(0, now - 7 * DAY_MS), "edge".to_string(), 0).unwrap();
    db.create_ws_block_at(&block_input(0, now - 7 * DAY_MS - 1), "just-over".to_string(), 0).unwrap();
    db.create_ws_block_at(&block_input(0, now - DAY_MS), "new".to_string(), 0).unwrap();
    let pin = UpdateBlockInput { user_summary: None, notes: None, tags: None, is_pinned: Some(true) };
    db.update_work_block_at("old-pinned", &pin, 1).unwrap();
    for (id, ended_at) in [("s-old", Some(now - 31 * DAY_MS)), ("s-new", Some(now - 29 * DAY_MS)), ("s-open", None)] {
        db.sessions.push(Session {
            id: id.to_string(),
            started_at: 0,
            ended_at,
            summary: None,
            block_count: 0,
            total_duration_secs: 0,
        });
    }
    let m = MilestoneInput {
        context_type: "document".to_string(),
        context_id: "doc1".to_string(),
        milestone_type: "created".to_string(),
        note: None,
    };
    db.create_milestone_at(&m, "ms".to_string(), 0).unwrap();

    let r = db.cleanup_workstream_at(now).unwrap();
    assert_eq!(r.blocks_deleted, 2);
    assert_eq!(r.sessions_deleted, 1);
    let left: Vec<&str> = db.work_blocks.iter().map(|b| b.id.as_str()).collect();
    assert_eq!(left, vec!["old-pinned", "edge", "new"]);
    let left: Vec<&str> = db.sessions.iter().map(|s| s.id.as_str()).collect();
    assert_eq!(left, vec!["s-new", "s-open"]);
    assert_eq!(db.milestones.len(), 1);
    let again = db.cleanup_workstream_at(now).unwrap();
    assert_eq!((again.blocks_deleted, again.sessions_deleted), (0, 0));
    let live = db.cleanup_workstream().unwrap();
    assert_eq!(live.blocks_deleted, 2);
    assert_eq!(db.work_blocks.len(), 1);
}

#[test]
fn milestones() {
    let mut db = Database::new();
    let make = |kind: &str, ctx: &str| MilestoneInput {
        context_type: kind.to_string(),
        context_id: ctx.to_string(),
        milestone_type: "exported".to_string(),
        note: Some("n".to_string()),
    };
    let m = db.create_milestone_at(&make("document", "d1"), "m1".to_string(), 10).unwrap();
    assert_eq!(m.context_type, ContextType::Document);
    assert_eq!(m.timestamp, 10);
    assert_eq!(m.note.as_deref(), Some("n"));
    db.create_milestone_at(&make("document", "d2"), "m2".to_string(), 30).unwrap();
    db.create_milestone_at(&make("task", "d1"), "m3".to_string(), 20).unwrap();
    assert_eq!(db.create_milestone_at(&make("task", "d1"), "m3".to_string(), 25).unwrap_err(), DbError::Constraint);
    let ids = |v: Vec<provenance::workstream::Milestone>| -> Vec<String> { v.into_iter().map(|m| m.id).collect() };
    assert_eq!(ids(db.list_milestones(None, None).unwrap()), vec!["m2", "m3", "m1"]);
    assert_eq!(ids(db.list_milestones(Some("document"), None).unwrap()), vec!["m2", "m1"]);
    assert_eq!(ids(db.list_milestones(None, Some("d1")).unwrap()), vec!["m3", "m1"]);
    assert_eq!(ids(db.list_milestones(Some("task"), Some("d1")).unwrap()), vec!["m3"]);
    assert!(db.list_milestones(Some("browser"), None).unwrap().is_empty());
    let live = db.create_milestone(&make("task", "d9")).unwrap();
    assert_eq!(live.id.len(), 36);
    assert_eq!(ids(db.list_milestones(None, None).unwrap())[0], live.id);
}

#[test]
fn blocks_that_end_before_they_start_are_refused() {
    let mut db = Database::new();
    assert_eq!(db.create_ws_block_at(&block_input(5_000, 1_000), "b".to_string(), 0).unwrap_err(), DbError::Invalid);
    assert!(db.work_blocks.is_empty());
    assert_eq!(db.create_ws_block(&block_input(5_000, 4_999)).unwrap_err(), DbError::Invalid);
    assert!(db.work_blocks.is_empty());

    let by_hand = ManualBlockInput {
        context_type: None,
        context_id: None,
        context_title: None,
        started_at: 2_000,
        ended_at: 500,
        user_summary: "s".to_string(),
        notes: None,
        tags: None,
    };
    assert_eq!(db.create_manual_block_at(&by_hand, "m".to_string(), 0).unwrap_err(), DbError::Invalid);
    assert_eq!(db.create_manual_block(&by_hand).unwrap_err(), DbError::Invalid);
    assert!(db.work_blocks.is_empty());

    // a block may end the instant it starts
    let block = db.create_ws_block_at(&block_input(5_000, 5_000), "b".to_string(), 0).unwrap();
    assert_eq!(block.duration_secs, 0);
    let same = ManualBlockInput { ended_at: 2_000, ..by_hand.clone() };
    assert_eq!(db.create_manual_block_at(&same, "m".to_string(), 0).unwrap().duration_secs, 0);
    // what is invalid is refused as invalid, whether or not its name is taken
    assert_eq!(db.create_ws_block_at(&block_input(5_000, 1_000), "b".to_string(), 0).unwrap_err(), DbError::Invalid);
    assert_eq!(db.create_ws_block_at(&block_input(1_000, 5_000), "b".to_string(), 0).unwrap_err(), DbError::Constraint);
    assert_eq!(db.create_manual_block_at(&by_hand, "m".to_string(), 0).unwrap_err(), DbError::Invalid);
    assert_eq!(db.create_manual_block_at(&same, "m".to_string(), 0).unwrap_err(), DbError::Constraint);
    assert_eq!(db.work_blocks.len(), 2);
    for b in &db.work_blocks {
        assert!(b.ended_at >= b.started_at);
        assert!(b.duration_secs >= 0);
        assert_eq!(b.duration_secs, (b.ended_at - b.started_at) / 1000);
    }
}

#[test]
fn a_flush_whose_clock_went_back_makes_no_block() {
    let mut buffer = EventBuffer::new();
    buffer.push(event_at(EventType::Edit, 9_000, None));
    buffer.push(event_at(EventType::Edit, 1_000, None));
    let flush = buffer.flush().unwrap();
    assert_eq!((flush.started_at, flush.ended_at), (9_000, 1_000));
    let mut db = Database::new();
    assert_eq!(
        db.create_ws_block_at(&block_input_from_flush(&flush), "b".to_string(), 0).unwrap_err(),
        DbError::Invalid
    );
    assert!(db.work_blocks.is_empty());
}

#[test]
fn a_block_keeps_five_research_urls() {
    let mut db = Database::new();
    let mut input = block_input(0, 1_000);
    input.research_urls = (0..7).map(|i| format!("u{}", i)).collect();
    let block = db.create_ws_block_at(&input, "b".to_string(), 0).unwrap();
    assert_eq!(block.research_urls, vec!["u0", "u1", "u2", "u3", "u4"]);
    assert_eq!(db.work_blocks[0].research_urls.len(), 5);
    input.research_urls.truncate(5);
    assert_eq!(db.create_ws_block_at(&input, "c".to_string(), 0).unwrap().research_urls.len(), 5);
    input.research_urls.truncate(2);
    assert_eq!(db.create_ws_block_at(&input, "d".to_string(), 0).unwrap().research_urls, vec!["u0", "u1"]);
}
