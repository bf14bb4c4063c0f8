//! The store behind the engine, as a set of tables held in memory. Each
//! table keeps its rows in the order in which they were written.

use vstd::prelude::*;
use crate::linker::SourceLink;
use crate::types::{
    AIExchangeCapture, BrowseCapture, ClipboardCapture, ContentEntry, DocEditCapture, LinkedSource,
    SearchCapture,
};
use crate::workstream::{Milestone, Session, WorkBlock};

verus! {

/// Why the store refused an operation.
#[derive(Clone, Copy, Debug, PartialEq, Eq, Structural)]
pub enum DbError {
    /// A row would have had the key of another row, or would have referred
    /// to a row that is not there.
    Constraint,
    /// A row does not hold what its table asks of every row.
    Invalid,
}

/// The tables of the store.
pub struct Database {
    pub content_store: Vec<ContentEntry>,
    pub clipboard_captures: Vec<ClipboardCapture>,
    pub browse_captures: Vec<BrowseCapture>,
    pub search_captures: Vec<SearchCapture>,
    pub ai_exchange_captures: Vec<AIExchangeCapture>,
    pub doc_edit_captures: Vec<DocEditCapture>,
    pub source_links: Vec<SourceLink>,
    pub linked_sources: Vec<LinkedSource>,
    pub capture_config: Vec<(String, String)>,
    pub work_blocks: Vec<WorkBlock>,
    pub sessions: Vec<Session>,
    pub milestones: Vec<Milestone>,
}

impl Database {
    /// Every table is empty.
    pub open spec fn is_blank(&self) -> bool {
        &&& self.content_store@.len() == 0
        &&& self.clipboard_captures@.len() == 0
        &&& self.browse_captures@.len() == 0
        &&& self.search_captures@.len() == 0
        &&& self.ai_exchange_captures@.len() == 0
        &&& self.doc_edit_captures@.len() == 0
        &&& self.source_links@.len() == 0
        &&& self.linked_sources@.len() == 0
        &&& self.capture_config@.len() == 0
        &&& self.work_blocks@.len() == 0
        &&& self.sessions@.len() == 0
        &&& self.milestones@.len() == 0
    }

    /// A store with nothing in it.
    pub fn new() -> (db: Self)
        ensures
            db.is_blank(),
    {
        Database {
            content_store: Vec::new(),
            clipboard_captures: Vec::new(),
            browse_captures: Vec::new(),
            search_captures: Vec::new(),
            ai_exchange_captures: Vec::new(),
            doc_edit_captures: Vec::new(),
            source_links: Vec::new(),
            linked_sources: Vec::new(),
            capture_config: Vec::new(),
            work_blocks: Vec::new(),
            sessions: Vec::new(),
            milestones: Vec::new(),
        }
    }
}

} // verus!
