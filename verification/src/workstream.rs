//! The records of the work stream: buffered events, work blocks, sessions
//! and milestones, with the text codecs of their enumerations.

use vstd::prelude::*;
use crate::text::same_text;

verus! {

/// Where a stretch of work took place.
#[derive(Clone, Copy, Debug, PartialEq, Eq, Structural)]
pub enum ContextType {
    Document,
    Task,
    Browser,
    Manual,
    Mixed,
}

impl ContextType {
    /// The text under which the variant is persisted.
    pub open spec fn code(self) -> Seq<char> {
        match self {
            ContextType::Document => "document"@,
            ContextType::Task => "task"@,
            ContextType::Browser => "browser"@,
            ContextType::Manual => "manual"@,
            ContextType::Mixed => "mixed"@,
        }
    }

    /// The variant that a persisted text stands for; an unknown text stands
    /// for `Mixed`.
    pub open spec fn decode(s: Seq<char>) -> ContextType {
        if s == "document"@ {
            ContextType::Document
        } else if s == "task"@ {
            ContextType::Task
        } else if s == "browser"@ {
            ContextType::Browser
        } else if s == "manual"@ {
            ContextType::Manual
        } else {
            ContextType::Mixed
        }
    }

    pub fn as_str(&self) -> (r: &'static str)
        ensures
            r@ == self.code(),
    {
        match self {
            ContextType::Document => "document",
            ContextType::Task => "task",
            ContextType::Browser => "browser",
            ContextType::Manual => "manual",
            ContextType::Mixed => "mixed",
        }
    }

    pub fn from_str(s: &str) -> (r: Self)
        ensures
            r == Self::decode(s@),
    {
        if same_text(s, "document") {
            ContextType::Document
        } else if same_text(s, "task") {
            ContextType::Task
        } else if same_text(s, "browser") {
            ContextType::Browser
        } else if same_text(s, "manual") {
            ContextType::Manual
        } else {
            ContextType::Mixed
        }
    }

    /// Decoding the text of a variant gives the variant back.
    pub proof fn lemma_round_trip(self)
        ensures
            Self::decode(self.code()) == self,
    {
        reveal_strlit("document");
        reveal_strlit("task");
        reveal_strlit("browser");
        reveal_strlit("manual");
        reveal_strlit("mixed");
        assert("document"@.len() == 8);
        assert("task"@.len() == 4);
        assert("browser"@.len() == 7);
        assert("manual"@.len() == 6);
        assert("mixed"@.len() == 5);
    }
}

/// What kind of thing happened.
#[derive(Clone, Copy, Debug, PartialEq, Eq, Structural)]
pub enum EventType {
    Edit,
    Browse,
    Search,
    Tool,
    Focus,
    Blur,
    Save,
}

impl EventType {
    /// The text under which the variant is persisted.
    pub open spec fn code(self) -> Seq<char> {
        match self {
            EventType::Edit => "edit"@,
            EventType::Browse => "browse"@,
            EventType::Search => "search"@,
            EventType::Tool => "tool"@,
            EventType::Focus => "focus"@,
            EventType::Blur => "blur"@,
            EventType::Save => "save"@,
        }
    }

    /// The variant that a persisted text stands for; an unknown text stands
    /// for `Edit`.
    pub open spec fn decode(s: Seq<char>) -> EventType {
        if s == "browse"@ {
            EventType::Browse
        } else if s == "search"@ {
            EventType::Search
        } else if s == "tool"@ {
            EventType::Tool
        } else if s == "focus"@ {
            EventType::Focus
        } else if s == "blur"@ {
            EventType::Blur
        } else if s == "save"@ {
            EventType::Save
        } else {
            EventType::Edit
        }
    }

    pub fn as_str(&self) -> (r: &'static str)
        ensures
            r@ == self.code(),
    {
        match self {
            EventType::Edit => "edit",
            EventType::Browse => "browse",
            EventType::Search => "search",
            EventType::Tool => "tool",
            EventType::Focus => "focus",
            EventType::Blur => "blur",
            EventType::Save => "save",
        }
    }

    pub fn from_str(s: &str) -> (r: Self)
        ensures
            r == Self::decode(s@),
    {
        if same_text(s, "browse") {
            EventType::Browse
        } else if same_text(s, "search") {
            EventType::Search
        } else if same_text(s, "tool") {
            EventType::Tool
        } else if same_text(s, "focus") {
            EventType::Focus
        } else if same_text(s, "blur") {
            EventType::Blur
        } else if same_text(s, "save") {
            EventType::Save
        } else {
            EventType::Edit
        }
    }

    /// Decoding the text of a variant gives the variant back.
    pub proof fn lemma_round_trip(self)
        ensures
            Self::decode(self.code()) == self,
    {
        reveal_strlit("edit");
        reveal_strlit("browse");
        reveal_strlit("search");
        reveal_strlit("tool");
        reveal_strlit("focus");
        reveal_strlit("blur");
        reveal_strlit("save");
        assert("edit"@.len() == 4);
        assert("browse"@.len() == 6);
        assert("search"@.len() == 6);
        assert("tool"@.len() == 4);
        assert("focus"@.len() == 5);
        assert("blur"@.len() == 4);
        assert("save"@.len() == 4);
        assert("edit"@[0] == 'e');
        assert("browse"@[0] == 'b');
        assert("search"@[0] == 's');
        assert("tool"@[0] == 't');
        assert("blur"@[0] == 'b');
        assert("blur"@[1] == 'l');
        assert("browse"@[1] == 'r');
        assert("save"@[0] == 's');
        assert("save"@[1] == 'a');
        assert("search"@[1] == 'e');
    }
}

/// One event of the scratch stream. It lives in memory only.
#[derive(Clone, Debug)]
pub struct BufferedEvent {
    pub id: String,
    pub timestamp: i64,
    pub event_type: EventType,
    pub context_type: ContextType,
    pub context_id: Option<String>,
    pub context_title: Option<String>,
    pub url: Option<String>,
    pub delta: Option<i32>,
}

/// An event as it is reported from outside, its kinds still as text.
#[derive(Clone, Debug)]
pub struct EventInput {
    pub event_type: String,
    pub context_type: String,
    pub context_id: Option<String>,
    pub context_title: Option<String>,
    pub url: Option<String>,
    pub delta: Option<i32>,
}

/// The persisted unit of coalesced activity.
#[derive(Clone, Debug)]
pub struct WorkBlock {
    pub id: String,
    pub session_id: Option<String>,
    pub context_type: ContextType,
    pub context_id: Option<String>,
    pub context_title: Option<String>,
    pub started_at: i64,
    pub ended_at: i64,
    pub duration_secs: i64,
    pub auto_summary: Option<String>,
    pub edit_count: i32,
    pub browse_count: i32,
    pub research_urls: Vec<String>,
    pub user_summary: Option<String>,
    pub notes: Option<String>,
    pub tags: Vec<String>,
    pub is_pinned: bool,
    pub is_manual: bool,
    pub created_at: i64,
    pub updated_at: i64,
}

impl WorkBlock {
    /// The summary to show: the user's, where there is one, else the
    /// generated one.
    pub open spec fn shown_summary(self) -> Option<Seq<char>> {
        match self.user_summary {
            Some(u) => Some(u@),
            None => match self.auto_summary {
                Some(a) => Some(a@),
                None => None,
            },
        }
    }

    pub fn display_summary(&self) -> (r: Option<&str>)
        ensures
            match self.shown_summary() {
                Some(t) => r is Some && r->0@ == t,
                None => r is None,
            },
    {
        match &self.user_summary {
            Some(u) => Some(u.as_str()),
            None => match &self.auto_summary {
                Some(a) => Some(a.as_str()),
                None => None,
            },
        }
    }
}

/// What a flush of the event buffer hands over to have a block made.
#[derive(Clone, Debug)]
pub struct CreateBlockInput {
    pub context_type: String,
    pub context_id: Option<String>,
    pub context_title: Option<String>,
    pub started_at: i64,
    pub ended_at: i64,
    pub auto_summary: Option<String>,
    pub edit_count: i32,
    pub browse_count: i32,
    pub research_urls: Vec<String>,
}

/// What a user hands over to have a block made by hand.
#[derive(Clone, Debug)]
pub struct ManualBlockInput {
    pub context_type: Option<String>,
    pub context_id: Option<String>,
    pub context_title: Option<String>,
    pub started_at: i64,
    pub ended_at: i64,
    pub user_summary: String,
    pub notes: Option<String>,
    pub tags: Option<Vec<String>>,
}

/// A user's edit of a block; a field that is `None` is left as it is.
#[derive(Clone, Debug)]
pub struct UpdateBlockInput {
    pub user_summary: Option<String>,
    pub notes: Option<String>,
    pub tags: Option<Vec<String>>,
    pub is_pinned: Option<bool>,
}

/// A container of work blocks.
#[derive(Clone, Debug)]
pub struct Session {
    pub id: String,
    pub started_at: i64,
    pub ended_at: Option<i64>,
    pub summary: Option<String>,
    pub block_count: i32,
    pub total_duration_secs: i64,
}

/// A permanent marker of a significant event.
#[derive(Clone, Debug)]
pub struct Milestone {
    pub id: String,
    pub context_type: ContextType,
    pub context_id: String,
    pub milestone_type: String,
    pub timestamp: i64,
    pub note: Option<String>,
}

/// What is handed over to have a milestone made.
#[derive(Clone, Debug)]
pub struct MilestoneInput {
    pub context_type: String,
    pub context_id: String,
    pub milestone_type: String,
    pub note: Option<String>,
}

/// Which work blocks a listing asks for.
#[derive(Clone, Debug)]
pub struct WorkBlockQuery {
    pub context_type: Option<String>,
    pub context_id: Option<String>,
    pub from_timestamp: Option<i64>,
    pub to_timestamp: Option<i64>,
    pub include_pinned_only: bool,
    pub limit: Option<i32>,
}

impl Default for WorkBlockQuery {
    /// The listing that asks for every block, without a limit.
    fn default() -> (q: Self)
        ensures
            q.context_type is None,
            q.context_id is None,
            q.from_timestamp is None,
            q.to_timestamp is None,
            !q.include_pinned_only,
            q.limit is None,
    {
        WorkBlockQuery {
            context_type: None,
            context_id: None,
            from_timestamp: None,
            to_timestamp: None,
            include_pinned_only: false,
            limit: None,
        }
    }
}

/// The blocks of a stretch of time, with their total duration.
#[derive(Clone, Debug)]
pub struct Timeline {
    pub session: Option<Session>,
    pub blocks: Vec<WorkBlock>,
    pub total_duration_secs: i64,
}

/// The state of the event buffer, for display.
#[derive(Clone, Debug)]
pub struct BufferStatus {
    pub event_count: usize,
    pub oldest_event_at: Option<i64>,
    pub newest_event_at: Option<i64>,
    pub current_context: Option<String>,
}

/// One day of work at a glance.
#[derive(Clone, Debug)]
pub struct DailySummary {
    pub date: String,
    pub block_count: i32,
    pub total_duration_secs: i64,
    pub top_contexts: Vec<String>,
}

} // verus!
