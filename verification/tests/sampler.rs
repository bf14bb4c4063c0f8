use provenance::capture_buffer::CaptureBuffer;
use provenance::host::hash_content;
use provenance::sampler::{is_blank_text, ClipboardMonitor, Sampled, SamplerStep};
use provenance::types::{CaptureConfig, SourceType, ContributionType};

#[test]
fn blank_texts() {
    assert!(is_blank_text(""));
    assert!(is_blank_text(" \t\r\n"));
    assert!(is_blank_text("\u{a0}\u{2003}\u{3000}"));
    assert!(!is_blank_text(" a "));
    assert!(!is_blank_text("\u{200b}"));
}

#[test]
fn steps_of_the_polling_loop() {
    let mut monitor = ClipboardMonitor::new();
    let on = CaptureConfig::default();
    let off = CaptureConfig { clipboard_enabled: false, ..on };
    assert!(!monitor.is_running());
    assert_eq!(monitor.next_step(&on), SamplerStep::Stop);
    assert!(monitor.start());
    assert!(!monitor.start());
    assert!(monitor.is_running());
    assert_eq!(monitor.next_step(&on), SamplerStep::Read { wait_ms: 500 });
    assert_eq!(monitor.next_step(&off), SamplerStep::Idle { wait_ms: 1000 });
    let fast = CaptureConfig { clipboard_poll_ms: 50, ..on };
    assert_eq!(monitor.next_step(&fast), SamplerStep::Read { wait_ms: 50 });
    monitor.stop();
    assert_eq!(monitor.next_step(&on), SamplerStep::Stop);
}

#[test]
fn what_becomes_of_a_reading() {
    let mut monitor = ClipboardMonitor::new();
    let mut buffer = CaptureBuffer::new();
    monitor.start();
    monitor.set_active_source(Some("https://a.example".to_string()), Some("A".to_string()));

    assert_eq!(monitor.observe_at(None, &mut buffer, "0".to_string(), 1), Sampled::Unavailable);
    assert_eq!(monitor.observe_at(Some(""), &mut buffer, "0".to_string(), 1), Sampled::Empty);
    assert_eq!(monitor.observe_at(Some(" \n\t "), &mut buffer, "0".to_string(), 1), Sampled::Empty);
    let big = "x".repeat(50 * 1024 + 1);
    assert_eq!(monitor.observe_at(Some(&big), &mut buffer, "0".to_string(), 1), Sampled::Oversize);
    // a huge blank text is oversize before it is blank
    let blank = " ".repeat(50 * 1024 + 1);
    assert_eq!(monitor.observe_at(Some(&blank), &mut buffer, "0".to_string(), 1), Sampled::Oversize);
    assert!(buffer.clipboard.is_empty());
    assert_eq!(monitor.last_content_hash, None);

    let fits = "y".repeat(50 * 1024);
    assert_eq!(monitor.observe_at(Some(&fits), &mut buffer, "1".to_string(), 2), Sampled::Captured { taken: true });
    let long = "z".repeat(250);
    assert_eq!(monitor.observe_at(Some(&long), &mut buffer, "2".to_string(), 3), Sampled::Captured { taken: true });
    assert_eq!(monitor.observe_at(Some(&long), &mut buffer, "3".to_string(), 4), Sampled::Duplicate);
    assert_eq!(buffer.clipboard.len(), 2);

    let capture = buffer.clipboard.last().unwrap();
    assert_eq!(capture.id, "2");
    assert_eq!(capture.content_hash, hash_content(&long));
    assert_eq!(capture.content_preview, format!("{}...", "z".repeat(200)));
    assert_eq!(capture.source_url.as_deref(), Some("https://a.example"));
    assert_eq!(capture.source_title.as_deref(), Some("A"));
    assert_eq!(capture.captured_at, 3);
    assert_eq!(monitor.last_content_hash, Some(hash_content(&long)));

    monitor.set_active_source(None, None);
    assert_eq!(monitor.observe(Some("short"), &mut buffer), Sampled::Captured { taken: true });
    let capture = buffer.clipboard.last().unwrap();
    assert_eq!(capture.content_preview, "short");
    assert_eq!(capture.source_url, None);
    assert_eq!(capture.id.len(), 36);
    assert!(capture.captured_at > 1_600_000_000_000);
}

#[test]
fn the_buffer_guard_stands_behind_the_sampler() {
    let mut buffer = CaptureBuffer::new();
    let mut first = ClipboardMonitor::new();
    let mut second = ClipboardMonitor::new();
    assert_eq!(first.observe_at(Some("same"), &mut buffer, "1".to_string(), 1), Sampled::Captured { taken: true });
    // another sampler run has not seen the text, the buffer has
    assert_eq!(second.observe_at(Some("same"), &mut buffer, "2".to_string(), 2), Sampled::Captured { taken: false });
    assert_eq!(buffer.clipboard.len(), 1);
    // restarting a sampler forgets what it sampled
    first.stop();
    assert!(first.start());
    assert_eq!(first.last_content_hash, None);
}

#[test]
fn source_codecs_round_trip() {
    for t in [
        SourceType::Webpage,
        SourceType::Clipboard,
        SourceType::AIExchange,
        SourceType::Search,
        SourceType::Document,
    ] {
        assert_eq!(SourceType::from_str(t.as_str()), t);
    }
    assert_eq!(SourceType::AIExchange.as_str(), "ai_exchange");
    assert_eq!(SourceType::from_str("pdf"), SourceType::Webpage);
    for t in [
        ContributionType::DirectCopy,
        ContributionType::Referenced,
        ContributionType::Inspired,
        ContributionType::AIAssisted,
    ] {
        assert_eq!(ContributionType::from_str(t.as_str()), t);
    }
    assert_eq!(ContributionType::DirectCopy.as_str(), "direct_copy");
    assert_eq!(ContributionType::from_str("copied"), ContributionType::Referenced);
}

#[test]
fn switched_off_families_take_nothing() {
    let on = CaptureConfig::default();
    let off = CaptureConfig {
        browse_enabled: false,
        search_enabled: false,
        ai_exchange_enabled: false,
        source_linking_enabled: false,
        ..on
    };
    let page = provenance::types::PageContextInput { url: "u".to_string(), title: Some("t".to_string()), entered_at: 7 };
    let mut buffer = CaptureBuffer::new();
    assert!(!buffer.accept_browse(&off, provenance::intake::browse_capture_from(&page, "v0".to_string())));
    assert!(buffer.accept_browse(&on, provenance::intake::browse_capture_from(&page, "v1".to_string())));
    assert_eq!(buffer.browse.len(), 1);
    let visit = buffer.browse.get(0);
    assert_eq!((visit.id.as_str(), visit.url.as_str(), visit.entered_at, visit.left_at), ("v1", "u", 7, None));
    assert_eq!(visit.page_title.as_deref(), Some("t"));
    let leave = provenance::types::PageContextUpdate { browse_id: "v1".to_string(), left_at: 9, scroll_depth_percent: Some(40) };
    assert!(!buffer.accept_browse_update(&off, &leave));
    assert_eq!(buffer.browse.get(0).left_at, None);
    assert!(buffer.accept_browse_update(&on, &leave));
    assert_eq!(buffer.browse.get(0).left_at, Some(9));
    assert_eq!(buffer.browse.get(0).scroll_depth_percent, Some(40));

    let search = provenance::types::SearchInput { query: "q".to_string(), search_engine: "e".to_string(), timestamp: 3 };
    assert!(!buffer.accept_search(&off, provenance::intake::search_capture_from(&search, "q0".to_string())));
    assert!(buffer.accept_search(&on, provenance::intake::search_capture_from(&search, "q1".to_string())));
    assert_eq!(buffer.search.len(), 1);
    assert_eq!(buffer.search.get(0).result_clicked, None);

    let exchange = provenance::types::AIExchangeInput {
        question: "q".repeat(201),
        answer: "a".repeat(301),
        model: "m".to_string(),
        context_doc_id: Some("d".to_string()),
    };
    let capture = provenance::intake::ai_exchange_capture_from(&exchange, "x".to_string(), 11);
    assert_eq!(capture.question_preview, format!("{}...", "q".repeat(200)));
    assert_eq!(capture.answer_preview, format!("{}...", "a".repeat(300)));
    assert_eq!(capture.question_hash, hash_content(&exchange.question));
    assert_eq!(capture.answer_hash, hash_content(&exchange.answer));
    assert_eq!(capture.timestamp, 11);
    assert!(!buffer.accept_ai_exchange(&off, capture.clone()));
    assert!(buffer.accept_ai_exchange(&on, capture));
    assert_eq!(buffer.ai_exchange.len(), 1);

    let mut linker = provenance::linker::SourceLinker::new(
        provenance::tracker::ActiveSourceTracker::new(),
        provenance::database::Database::new(),
    );
    let input = provenance::types::CreateSourceLinkInput { doc_id: "d".to_string(), section_path: None, content: "c".to_string() };
    assert!(linker.link_if_enabled(&off, &input).is_none());
    assert!(linker.db.source_links.is_empty());
    assert!(linker.link_if_enabled(&on, &input).unwrap().is_ok());
    assert_eq!(linker.db.source_links.len(), 1);

    let reported = provenance::workstream::EventInput {
        event_type: "save".to_string(),
        context_type: "task".to_string(),
        context_id: Some("t1".to_string()),
        context_title: None,
        url: None,
        delta: Some(-4),
    };
    let event = provenance::intake::buffered_event_from(&reported, "e".to_string(), 5);
    assert_eq!(event.event_type, provenance::workstream::EventType::Save);
    assert_eq!(event.context_type, provenance::workstream::ContextType::Task);
    assert_eq!((event.timestamp, event.delta), (5, Some(-4)));
}

#[test]
fn white_space_is_the_listed_code_points() {
    let listed = |c: char| {
        let n = c as u32;
        (0x0009..=0x000D).contains(&n)
            || n == 0x0020
            || n == 0x0085
            || n == 0x00A0
            || n == 0x1680
            || (0x2000..=0x200A).contains(&n)
            || n == 0x2028
            || n == 0x2029
            || n == 0x202F
            || n == 0x205F
            || n == 0x3000
    };
    let mut count = 0;
    for n in 0..=0x10FFFFu32 {
        if let Some(c) = char::from_u32(n) {
            assert_eq!(c.is_whitespace(), listed(c), "U+{:04X}", n);
            if listed(c) {
                count += 1;
                assert!(is_blank_text(&c.to_string()));
            }
        }
    }
    assert_eq!(count, 25);
    assert!(!is_blank_text("\u{180e}"));
    assert!(!is_blank_text("\u{feff}"));
}

#[test]
fn digests_have_sixty_four_hexadecimal_digits() {
    for text in ["", "a", "\u{1f980}", &"long ".repeat(1000)] {
        let digest = hash_content(text);
        assert_eq!(digest.len(), 64);
        assert_eq!(digest.len(), provenance::host::DIGEST_LENGTH);
        assert!(digest.chars().all(|c| c.is_ascii_digit() || ('a'..='f').contains(&c)));
    }
}
