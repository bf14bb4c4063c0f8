use provenance::summarizer::{build_enhance_prompt, extract_domain};
use provenance::text::{join_texts, signed_decimal_string};
use provenance::workstream::{ContextType, WorkBlock};

fn sample() -> WorkBlock {
    WorkBlock {
        id: "test".to_string(),
        session_id: None,
        context_type: ContextType::Document,
        context_id: Some("doc-1".to_string()),
        context_title: Some("Q3 Proposal".to_string()),
        started_at: 0,
        ended_at: 600000,
        duration_secs: 600,
        auto_summary: Some("Edited Q3 Proposal with 2 sites researched".to_string()),
        edit_count: 5,
        browse_count: 2,
        research_urls: vec!["https://stripe.com/pricing".to_string()],
        user_summary: None,
        notes: None,
        tags: vec![],
        is_pinned: false,
        is_manual: false,
        created_at: 0,
        updated_at: 0,
    }
}

#[test]
fn test_build_enhance_prompt() {
    let block = sample();

    let prompt = build_enhance_prompt(&block);

    assert!(prompt.contains("Q3 Proposal"));
    assert!(prompt.contains("5 edits"));
    assert!(prompt.contains("stripe.com"));
}

#[test]
fn prompt_line_by_line() {
    let mut block = sample();
    assert_eq!(
        build_enhance_prompt(&block),
        "Document/Task: Q3 Proposal\n\
         Activity: Edited Q3 Proposal with 2 sites researched\n\
         Metrics: 5 edits, 2 pages browsed, 10 minutes\n\
         Research: stripe.com\n\
         \nProvide a concise 1-sentence summary of what was accomplished."
    );
    block.research_urls.push("http://www.example.org/a/b".to_string());
    block.notes = Some("check the numbers".to_string());
    block.duration_secs = 119;
    assert_eq!(
        build_enhance_prompt(&block),
        "Document/Task: Q3 Proposal\n\
         Activity: Edited Q3 Proposal with 2 sites researched\n\
         Metrics: 5 edits, 2 pages browsed, 1 minutes\n\
         Research: stripe.com, example.org\n\
         User notes: check the numbers\n\
         \nProvide a concise 1-sentence summary of what was accomplished."
    );
    block.context_title = None;
    block.auto_summary = None;
    block.research_urls.clear();
    block.notes = None;
    block.edit_count = -1;
    block.duration_secs = -61;
    assert_eq!(
        build_enhance_prompt(&block),
        "Metrics: -1 edits, 2 pages browsed, -1 minutes\n\
         \nProvide a concise 1-sentence summary of what was accomplished."
    );
}

#[test]
fn domains() {
    assert_eq!(extract_domain("https://stripe.com/pricing"), "stripe.com");
    assert_eq!(extract_domain("http://www.example.org/a/b"), "example.org");
    assert_eq!(extract_domain("https://www.example.org"), "example.org");
    assert_eq!(extract_domain("example.org/path"), "example.org");
    assert_eq!(extract_domain("www.example.org"), "example.org");
    assert_eq!(extract_domain("ftp://files.example.org/x"), "ftp:");
    assert_eq!(extract_domain("https://"), "");
    assert_eq!(extract_domain("https:///x"), "");
    assert_eq!(extract_domain(""), "");
    assert_eq!(extract_domain("https://http://a/b"), "http:");
    assert_eq!(extract_domain("http://https://a/b"), "https:");
    assert_eq!(extract_domain("https://www.www.a.b/"), "www.a.b");
    assert_eq!(extract_domain("https://b\u{fc}cher.example/x"), "b\u{fc}cher.example");
    assert_eq!(extract_domain("HTTPS://Example.org/"), "HTTPS:");
}

#[test]
fn signed_numbers_and_joining() {
    assert_eq!(signed_decimal_string(0), "0");
    assert_eq!(signed_decimal_string(-7), "-7");
    assert_eq!(signed_decimal_string(42), "42");
    assert_eq!(signed_decimal_string(i64::MIN), i64::MIN.to_string());
    assert_eq!(signed_decimal_string(i64::MAX), i64::MAX.to_string());
    let parts = |v: &[&str]| -> Vec<String> { v.iter().map(|s| s.to_string()).collect() };
    assert_eq!(join_texts(&parts(&[]), ", "), "");
    assert_eq!(join_texts(&parts(&["a"]), ", "), "a");
    assert_eq!(join_texts(&parts(&["a", "", "c"]), ", "), "a, , c");
}
