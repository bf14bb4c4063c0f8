//! Capture records, the closed enumerations of the provenance layer and
//! their text codecs, and the capture configuration.

use vstd::prelude::*;
use crate::text::same_text;

verus! {

/// Default cap, in characters, of a capture's preview.
pub const PREVIEW_LENGTH: usize = 200;

/// Cap, in characters, of the preview of an answer.
pub const ANSWER_PREVIEW_LENGTH: usize = 300;

/// Largest clipboard text, in bytes, that is captured.
pub const MAX_CLIPBOARD_SIZE: usize = 51200;

/// What kind of thing a source is.
#[derive(Clone, Copy, Debug, PartialEq, Eq, Structural)]
pub enum SourceType {
    Webpage,
    Clipboard,
    AIExchange,
    Search,
    Document,
}

impl SourceType {
    /// The text under which the variant is persisted.
    pub open spec fn code(self) -> Seq<char> {
        match self {
            SourceType::Webpage => "webpage"@,
            SourceType::Clipboard => "clipboard"@,
            SourceType::AIExchange => "ai_exchange"@,
            SourceType::Search => "search"@,
            SourceType::Document => "document"@,
        }
    }

    /// The variant that a persisted text stands for; an unknown text stands
    /// for `Webpage`.
    pub open spec fn decode(s: Seq<char>) -> SourceType {
        if s == "clipboard"@ {
            SourceType::Clipboard
        } else if s == "ai_exchange"@ {
            SourceType::AIExchange
        } else if s == "search"@ {
            SourceType::Search
        } else if s == "document"@ {
            SourceType::Document
        } else {
            SourceType::Webpage
        }
    }

    pub fn as_str(&self) -> (r: &'static str)
        ensures
            r@ == self.code(),
    {
        match self {
            SourceType::Webpage => "webpage",
            SourceType::Clipboard => "clipboard",
            SourceType::AIExchange => "ai_exchange",
            SourceType::Search => "search",
            SourceType::Document => "document",
        }
    }

    pub fn from_str(s: &str) -> (r: Self)
        ensures
            r == Self::decode(s@),
    {
        if same_text(s, "clipboard") {
            SourceType::Clipboard
        } else if same_text(s, "ai_exchange") {
            SourceType::AIExchange
        } else if same_text(s, "search") {
            SourceType::Search
        } else if same_text(s, "document") {
            SourceType::Document
        } else {
            SourceType::Webpage
        }
    }

    /// Decoding the text of a variant gives the variant back.
    pub proof fn lemma_round_trip(self)
        ensures
            Self::decode(self.code()) == self,
    {
        reveal_strlit("webpage");
        reveal_strlit("clipboard");
        reveal_strlit("ai_exchange");
        reveal_strlit("search");
        reveal_strlit("document");
        assert("webpage"@.len() == 7);
        assert("clipboard"@.len() == 9);
        assert("ai_exchange"@.len() == 11);
        assert("search"@.len() == 6);
        assert("document"@.len() == 8);
        assert("document"@[0] == 'd');
        assert("ai_exchange"@[0] == 'a');
        assert("search"@[0] == 's');
        assert("clipboard"@[0] == 'c');
        assert("webpage"@[0] == 'w');
    }
}

/// How a source contributed to a committed fragment.
#[derive(Clone, Copy, Debug, PartialEq, Eq, Structural)]
pub enum ContributionType {
    DirectCopy,
    Referenced,
    Inspired,
    AIAssisted,
}

impl ContributionType {
    /// The text under which the variant is persisted.
    pub open spec fn code(self) -> Seq<char> {
        match self {
            ContributionType::DirectCopy => "direct_copy"@,
            ContributionType::Referenced => "referenced"@,
            ContributionType::Inspired => "inspired"@,
            ContributionType::AIAssisted => "ai_assisted"@,
        }
    }

    /// The variant that a persisted text stands for; an unknown text stands
    /// for `Referenced`.
    pub open spec fn decode(s: Seq<char>) -> ContributionType {
        if s == "direct_copy"@ {
            ContributionType::DirectCopy
        } else if s == "inspired"@ {
            ContributionType::Inspired
        } else if s == "ai_assisted"@ {
            ContributionType::AIAssisted
        } else {
            ContributionType::Referenced
        }
    }

    pub fn as_str(&self) -> (r: &'static str)
        ensures
            r@ == self.code(),
    {
        match self {
            ContributionType::DirectCopy => "direct_copy",
            ContributionType::Referenced => "referenced",
            ContributionType::Inspired => "inspired",
            ContributionType::AIAssisted => "ai_assisted",
        }
    }

    pub fn from_str(s: &str) -> (r: Self)
        ensures
            r == Self::decode(s@),
    {
        if same_text(s, "direct_copy") {
            ContributionType::DirectCopy
        } else if same_text(s, "inspired") {
            ContributionType::Inspired
        } else if same_text(s, "ai_assisted") {
            ContributionType::AIAssisted
        } else {
            ContributionType::Referenced
        }
    }

    /// Decoding the text of a variant gives the variant back.
    pub proof fn lemma_round_trip(self)
        ensures
            Self::decode(self.code()) == self,
    {
        reveal_strlit("direct_copy");
        reveal_strlit("referenced");
        reveal_strlit("inspired");
        reveal_strlit("ai_assisted");
        assert("direct_copy"@.len() == 11);
        assert("referenced"@.len() == 10);
        assert("inspired"@.len() == 8);
        assert("ai_assisted"@.len() == 11);
        assert("direct_copy"@[0] == 'd');
        assert("ai_assisted"@[0] == 'a');
    }
}

/// A clipboard copy. The record holds the digest of what was copied and a
/// preview of it, never the text itself.
#[derive(Clone, Debug)]
pub struct ClipboardCapture {
    pub id: String,
    pub content_hash: String,
    pub content_preview: String,
    pub source_url: Option<String>,
    pub source_title: Option<String>,
    pub captured_at: i64,
}

/// A page visit. `left_at` and `scroll_depth_percent` are filled in by a
/// later update.
#[derive(Clone, Debug)]
pub struct BrowseCapture {
    pub id: String,
    pub url: String,
    pub page_title: Option<String>,
    pub entered_at: i64,
    pub left_at: Option<i64>,
    pub scroll_depth_percent: Option<u8>,
}

/// The deepest a page can be scrolled, in percent.
pub const MAX_SCROLL_DEPTH: u8 = 100;

/// Whether a page left at `left_at` and scrolled to `scroll_depth` can
/// have been entered at `entered_at`: it was not left before it was
/// entered, nor scrolled beyond its end.
pub open spec fn leave_fits(entered_at: i64, left_at: Option<i64>, scroll_depth: Option<u8>) -> bool {
    &&& left_at is Some ==> entered_at <= left_at->0
    &&& scroll_depth is Some ==> scroll_depth->0 <= MAX_SCROLL_DEPTH
}

/// Decides `leave_fits`.
pub fn check_leave(entered_at: i64, left_at: Option<i64>, scroll_depth: Option<u8>) -> (r: bool)
    ensures
        r == leave_fits(entered_at, left_at, scroll_depth),
{
    let left_ok = match left_at {
        Some(t) => entered_at <= t,
        None => true,
    };
    let scroll_ok = match scroll_depth {
        Some(d) => d <= MAX_SCROLL_DEPTH,
        None => true,
    };
    left_ok && scroll_ok
}

impl BrowseCapture {
    /// The visit was not left before it was entered, nor scrolled beyond
    /// the end of the page.
    pub open spec fn is_valid(self) -> bool {
        leave_fits(self.entered_at, self.left_at, self.scroll_depth_percent)
    }
}

/// A search. `result_clicked` is filled in by a later update.
#[derive(Clone, Debug)]
pub struct SearchCapture {
    pub id: String,
    pub query: String,
    pub search_engine: String,
    pub result_clicked: Option<String>,
    pub timestamp: i64,
}

/// A question put to a model and its answer, both by digest and preview.
#[derive(Clone, Debug)]
pub struct AIExchangeCapture {
    pub id: String,
    pub question_hash: String,
    pub question_preview: String,
    pub answer_hash: String,
    pub answer_preview: String,
    pub model: String,
    pub context_doc_id: Option<String>,
    pub timestamp: i64,
}

/// A stretch of writing in a document.
#[derive(Clone, Debug)]
pub struct DocEditCapture {
    pub id: String,
    pub doc_id: String,
    pub doc_title: String,
    pub edit_preview: String,
    pub char_delta: i32,
    pub started_at: i64,
    pub ended_at: i64,
}

impl DocEditCapture {
    /// The edit did not end before it started.
    pub open spec fn is_valid(self) -> bool {
        self.started_at <= self.ended_at
    }
}

/// What is reported when a page is entered.
#[derive(Clone, Debug)]
pub struct PageContextInput {
    pub url: String,
    pub title: Option<String>,
    pub entered_at: i64,
}

/// What is reported when a page is left.
#[derive(Clone, Debug)]
pub struct PageContextUpdate {
    pub browse_id: String,
    pub left_at: i64,
    pub scroll_depth_percent: Option<u8>,
}

/// What is reported for a search.
#[derive(Clone, Debug)]
pub struct SearchInput {
    pub query: String,
    pub search_engine: String,
    pub timestamp: i64,
}

/// What is reported for an exchange with a model.
#[derive(Clone, Debug)]
pub struct AIExchangeInput {
    pub question: String,
    pub answer: String,
    pub model: String,
    pub context_doc_id: Option<String>,
}

/// One source link's child: a source that was active when the link was made.
#[derive(Clone, Debug)]
pub struct LinkedSource {
    pub id: String,
    pub link_id: String,
    pub source_type: SourceType,
    pub source_id: String,
    pub contribution_type: ContributionType,
    pub timestamp: i64,
}

/// What a caller hands over to have written content linked.
#[derive(Clone, Debug)]
pub struct CreateSourceLinkInput {
    pub doc_id: String,
    pub section_path: Option<String>,
    pub content: String,
}

/// Which captures are taken, and how often the pipeline runs.
#[derive(Clone, Copy, Debug)]
pub struct CaptureConfig {
    pub clipboard_enabled: bool,
    pub browse_enabled: bool,
    pub search_enabled: bool,
    pub ai_exchange_enabled: bool,
    pub source_linking_enabled: bool,
    pub flush_interval_secs: u32,
    pub clipboard_poll_ms: u32,
}

impl Default for CaptureConfig {
    fn default() -> (r: Self)
        ensures
            r.clipboard_enabled,
            r.browse_enabled,
            r.search_enabled,
            r.ai_exchange_enabled,
            r.source_linking_enabled,
            r.flush_interval_secs == 30,
            r.clipboard_poll_ms == 500,
    {
        CaptureConfig {
            clipboard_enabled: true,
            browse_enabled: true,
            search_enabled: true,
            ai_exchange_enabled: true,
            source_linking_enabled: true,
            flush_interval_secs: 30,
            clipboard_poll_ms: 500,
        }
    }
}

/// How many records of each family a batch write stored.
#[derive(Clone, Copy, Debug)]
pub struct BatchInsertResult {
    pub clipboard_inserted: usize,
    pub browse_inserted: usize,
    pub search_inserted: usize,
    pub ai_exchange_inserted: usize,
    pub doc_edit_inserted: usize,
}

/// One body in the content store, keyed by its digest.
#[derive(Clone, Debug)]
pub struct ContentEntry {
    pub hash: String,
    pub content: String,
    pub content_type: String,
    pub byte_size: i64,
    pub created_at: i64,
    pub last_accessed_at: i64,
    pub access_count: i32,
}

} // verus!
