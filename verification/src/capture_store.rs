//! The tables of captures: batches are written so that a capture's id
//! stays unique in its table, and each table is read newest first.

use vstd::prelude::*;
use crate::capture_buffer::{check_edits, check_visits, edits_valid, visits_valid, CaptureBufferDrain};
use crate::config::{
    config_from_rows, config_key, config_of, config_to_rows, is_rows_of, lemma_saved_config_reads_back,
};
use crate::content_store::{report_u32, reported_u32, CaptureCleanupResult};
use crate::database::{Database, DbError};
use crate::tables::{
    all_written_or_ignored, all_written_or_replaced, keys_distinct, lemma_all_written_keeps,
    lemma_all_written_keeps_distinct, read_recent, recent, write_or_ignore, write_or_replace,
};
use crate::text::{copy_opt, same_text};
use crate::types::{
    AIExchangeCapture, BatchInsertResult, BrowseCapture, CaptureConfig, ClipboardCapture, DocEditCapture,
    SearchCapture,
};

verus! {

/// The key of a row of the table of clipboard copies: its id.
pub open spec fn clipboard_key() -> spec_fn(ClipboardCapture) -> Seq<char> {
    |c: ClipboardCapture| c.id@
}

/// The instant by which the table of clipboard copies is read.
pub open spec fn clipboard_instant() -> spec_fn(ClipboardCapture) -> int {
    |c: ClipboardCapture| c.captured_at as int
}

/// A copy of `c`, equal to it.
pub fn copy_clipboard(c: &ClipboardCapture) -> (r: ClipboardCapture)
    ensures
        r == *c,
{
    ClipboardCapture {
        id: c.id.clone(),
        content_hash: c.content_hash.clone(),
        content_preview: c.content_preview.clone(),
        source_url: copy_opt(&c.source_url),
        source_title: copy_opt(&c.source_title),
        captured_at: c.captured_at,
    }
}

/// The key of a row of the table of page visits: its id.
pub open spec fn browse_key() -> spec_fn(BrowseCapture) -> Seq<char> {
    |c: BrowseCapture| c.id@
}

/// The instant by which the table of page visits is read.
pub open spec fn browse_instant() -> spec_fn(BrowseCapture) -> int {
    |c: BrowseCapture| c.entered_at as int
}

/// A copy of `c`, equal to it.
pub fn copy_browse(c: &BrowseCapture) -> (r: BrowseCapture)
    ensures
        r == *c,
{
    BrowseCapture {
        id: c.id.clone(),
        url: c.url.clone(),
        page_title: copy_opt(&c.page_title),
        entered_at: c.entered_at,
        left_at: c.left_at,
        scroll_depth_percent: c.scroll_depth_percent,
    }
}

/// The key of a row of the table of searches: its id.
pub open spec fn search_key() -> spec_fn(SearchCapture) -> Seq<char> {
    |c: SearchCapture| c.id@
}

/// The instant by which the table of searches is read.
pub open spec fn search_instant() -> spec_fn(SearchCapture) -> int {
    |c: SearchCapture| c.timestamp as int
}

/// A copy of `c`, equal to it.
pub fn copy_search(c: &SearchCapture) -> (r: SearchCapture)
    ensures
        r == *c,
{
    SearchCapture {
        id: c.id.clone(),
        query: c.query.clone(),
        search_engine: c.search_engine.clone(),
        result_clicked: copy_opt(&c.result_clicked),
        timestamp: c.timestamp,
    }
}

/// The key of a row of the table of exchanges with a model: its id.
pub open spec fn ai_exchange_key() -> spec_fn(AIExchangeCapture) -> Seq<char> {
    |c: AIExchangeCapture| c.id@
}

/// The instant by which the table of exchanges with a model is read.
pub open spec fn ai_exchange_instant() -> spec_fn(AIExchangeCapture) -> int {
    |c: AIExchangeCapture| c.timestamp as int
}

/// A copy of `c`, equal to it.
pub fn copy_ai_exchange(c: &AIExchangeCapture) -> (r: AIExchangeCapture)
    ensures
        r == *c,
{
    AIExchangeCapture {
        id: c.id.clone(),
        question_hash: c.question_hash.clone(),
        question_preview: c.question_preview.clone(),
        answer_hash: c.answer_hash.clone(),
        answer_preview: c.answer_preview.clone(),
        model: c.model.clone(),
        context_doc_id: copy_opt(&c.context_doc_id),
        timestamp: c.timestamp,
    }
}

/// The key of a row of the table of document edits: its id.
pub open spec fn doc_edit_key() -> spec_fn(DocEditCapture) -> Seq<char> {
    |c: DocEditCapture| c.id@
}

/// The instant by which the table of document edits is read.
pub open spec fn doc_edit_instant() -> spec_fn(DocEditCapture) -> int {
    |c: DocEditCapture| c.ended_at as int
}

/// A copy of `c`, equal to it.
pub fn copy_doc_edit(c: &DocEditCapture) -> (r: DocEditCapture)
    ensures
        r == *c,
{
    DocEditCapture {
        id: c.id.clone(),
        doc_id: c.doc_id.clone(),
        doc_title: c.doc_title.clone(),
        edit_preview: c.edit_preview.clone(),
        char_delta: c.char_delta,
        started_at: c.started_at,
        ended_at: c.ended_at,
    }
}

/// Whether `after` is `before` with what the drain `drain` handed out
/// written, family by family, and `n` the size of each batch; no other
/// table changes.
pub open spec fn is_drain_written(before: Database, drain: CaptureBufferDrain, after: Database, n: BatchInsertResult) -> bool {
    &&& n.clipboard_inserted == drain.clipboard@.len()
    &&& n.browse_inserted == drain.browse@.len()
    &&& n.search_inserted == drain.search@.len()
    &&& n.ai_exchange_inserted == drain.ai_exchange@.len()
    &&& n.doc_edit_inserted == drain.doc_edit@.len()
    &&& after.clipboard_captures@ == all_written_or_ignored(
        before.clipboard_captures@,
        drain.clipboard@,
        clipboard_key(),
    )
    &&& after.browse_captures@ == all_written_or_replaced(before.browse_captures@, drain.browse@, browse_key())
    &&& after.search_captures@ == all_written_or_replaced(before.search_captures@, drain.search@, search_key())
    &&& after.ai_exchange_captures@ == all_written_or_ignored(
        before.ai_exchange_captures@,
        drain.ai_exchange@,
        ai_exchange_key(),
    )
    &&& after.doc_edit_captures@ == all_written_or_ignored(
        before.doc_edit_captures@,
        drain.doc_edit@,
        doc_edit_key(),
    )
    &&& after == (Database {
        clipboard_captures: after.clipboard_captures,
        browse_captures: after.browse_captures,
        search_captures: after.search_captures,
        ai_exchange_captures: after.ai_exchange_captures,
        doc_edit_captures: after.doc_edit_captures,
        ..before
    })
}

impl Database {
    /// Writes a batch of clipboard copies, in order; a capture whose id is stored already is dropped.
    /// Returns the size of the batch.
    pub fn insert_clipboard_captures(&mut self, captures: &[ClipboardCapture]) -> (r: Result<usize, DbError>)
        ensures
            r == Ok::<usize, DbError>(captures@.len() as usize),
            final(self).clipboard_captures@ == all_written_or_ignored(old(self).clipboard_captures@, captures@, clipboard_key()),
            *final(self) == (Database { clipboard_captures: final(self).clipboard_captures, ..*old(self) }),
            keys_distinct(old(self).clipboard_captures@, clipboard_key()) ==> keys_distinct(
                final(self).clipboard_captures@,
                clipboard_key(),
            ),
    {
        proof {
            if keys_distinct(self.clipboard_captures@, clipboard_key()) {
                lemma_all_written_keeps_distinct(self.clipboard_captures@, captures@, clipboard_key());
            }
        }
        let same_id = |a: &ClipboardCapture, b: &ClipboardCapture| -> (r: bool)
            ensures
                r == (a.id@ == b.id@),
            { same_text(a.id.as_str(), b.id.as_str()) };
        let dup = |c: &ClipboardCapture| -> (r: ClipboardCapture)
            ensures
                r == *c,
            { copy_clipboard(c) };
        write_or_ignore(&mut self.clipboard_captures, captures, same_id, dup, Ghost(clipboard_key()));
        Ok(captures.len())
    }

    /// The newest `limit` clipboard copies, newest first; all of them if `limit` is
    /// negative.
    pub fn get_recent_clipboard(&self, limit: i32) -> (r: Result<Vec<ClipboardCapture>, DbError>)
        ensures
            r is Ok,
            r->Ok_0@ == recent(self.clipboard_captures@, limit, clipboard_instant()),
    {
        let when = |c: &ClipboardCapture| -> (t: i64)
            ensures
                t == c.captured_at,
            { c.captured_at };
        let dup = |c: &ClipboardCapture| -> (r: ClipboardCapture)
            ensures
                r == *c,
            { copy_clipboard(c) };
        Ok(read_recent(&self.clipboard_captures, limit, when, dup, Ghost(clipboard_instant())))
    }

    /// Writes a batch of page visits, in order; a capture takes the place
    /// of the stored one that has its id. Returns the size of the batch. A
    /// batch that holds a visit that is not valid is refused as a whole,
    /// and nothing changes.
    pub fn insert_browse_captures(&mut self, captures: &[BrowseCapture]) -> (r: Result<usize, DbError>)
        ensures
            r is Ok <==> visits_valid(captures@),
            match r {
                Ok(n) => n == captures@.len() && final(self).browse_captures@ == all_written_or_replaced(
                    old(self).browse_captures@,
                    captures@,
                    browse_key(),
                ),
                Err(e) => e == DbError::Invalid && final(self).browse_captures == old(self).browse_captures,
            },
            *final(self) == (Database { browse_captures: final(self).browse_captures, ..*old(self) }),
            keys_distinct(old(self).browse_captures@, browse_key()) ==> keys_distinct(
                final(self).browse_captures@,
                browse_key(),
            ),
            visits_valid(old(self).browse_captures@) ==> visits_valid(final(self).browse_captures@),
    {
        if !check_visits(captures) {
            return Err(DbError::Invalid);
        }
        proof {
            if keys_distinct(self.browse_captures@, browse_key()) {
                lemma_all_written_keeps_distinct(self.browse_captures@, captures@, browse_key());
            }
            if visits_valid(self.browse_captures@) {
                lemma_all_written_keeps(
                    self.browse_captures@,
                    captures@,
                    browse_key(),
                    |c: BrowseCapture| c.is_valid(),
                );
            }
        }
        let same_id = |a: &BrowseCapture, b: &BrowseCapture| -> (r: bool)
            ensures
                r == (a.id@ == b.id@),
            { same_text(a.id.as_str(), b.id.as_str()) };
        let dup = |c: &BrowseCapture| -> (r: BrowseCapture)
            ensures
                r == *c,
            { copy_browse(c) };
        write_or_replace(&mut self.browse_captures, captures, same_id, dup, Ghost(browse_key()));
        Ok(captures.len())
    }

    /// The newest `limit` page visits, newest first; all of them if `limit` is
    /// negative.
    pub fn get_recent_browse(&self, limit: i32) -> (r: Result<Vec<BrowseCapture>, DbError>)
        ensures
            r is Ok,
            r->Ok_0@ == recent(self.browse_captures@, limit, browse_instant()),
    {
        let when = |c: &BrowseCapture| -> (t: i64)
            ensures
                t == c.entered_at,
            { c.entered_at };
        let dup = |c: &BrowseCapture| -> (r: BrowseCapture)
            ensures
                r == *c,
            { copy_browse(c) };
        Ok(read_recent(&self.browse_captures, limit, when, dup, Ghost(browse_instant())))
    }

    /// Writes a batch of searches, in order; a capture takes the place of the stored one that has its id.
    /// Returns the size of the batch.
    pub fn insert_search_captures(&mut self, captures: &[SearchCapture]) -> (r: Result<usize, DbError>)
        ensures
            r == Ok::<usize, DbError>(captures@.len() as usize),
            final(self).search_captures@ == all_written_or_replaced(old(self).search_captures@, captures@, search_key()),
            *final(self) == (Database { search_captures: final(self).search_captures, ..*old(self) }),
            keys_distinct(old(self).search_captures@, search_key()) ==> keys_distinct(
                final(self).search_captures@,
                search_key(),
            ),
    {
        proof {
            if keys_distinct(self.search_captures@, search_key()) {
                lemma_all_written_keeps_distinct(self.search_captures@, captures@, search_key());
            }
        }
        let same_id = |a: &SearchCapture, b: &SearchCapture| -> (r: bool)
            ensures
                r == (a.id@ == b.id@),
            { same_text(a.id.as_str(), b.id.as_str()) };
        let dup = |c: &SearchCapture| -> (r: SearchCapture)
            ensures
                r == *c,
            { copy_search(c) };
        write_or_replace(&mut self.search_captures, captures, same_id, dup, Ghost(search_key()));
        Ok(captures.len())
    }

    /// The newest `limit` searches, newest first; all of them if `limit` is
    /// negative.
    pub fn get_recent_search(&self, limit: i32) -> (r: Result<Vec<SearchCapture>, DbError>)
        ensures
            r is Ok,
            r->Ok_0@ == recent(self.search_captures@, limit, search_instant()),
    {
        let when = |c: &SearchCapture| -> (t: i64)
            ensures
                t == c.timestamp,
            { c.timestamp };
        let dup = |c: &SearchCapture| -> (r: SearchCapture)
            ensures
                r == *c,
            { copy_search(c) };
        Ok(read_recent(&self.search_captures, limit, when, dup, Ghost(search_instant())))
    }

    /// Writes a batch of exchanges with a model, in order; a capture whose id is stored already is dropped.
    /// Returns the size of the batch.
    pub fn insert_ai_exchange_captures(&mut self, captures: &[AIExchangeCapture]) -> (r: Result<usize, DbError>)
        ensures
            r == Ok::<usize, DbError>(captures@.len() as usize),
            final(self).ai_exchange_captures@ == all_written_or_ignored(old(self).ai_exchange_captures@, captures@, ai_exchange_key()),
            *final(self) == (Database { ai_exchange_captures: final(self).ai_exchange_captures, ..*old(self) }),
            keys_distinct(old(self).ai_exchange_captures@, ai_exchange_key()) ==> keys_distinct(
                final(self).ai_exchange_captures@,
                ai_exchange_key(),
            ),
    {
        proof {
            if keys_distinct(self.ai_exchange_captures@, ai_exchange_key()) {
                lemma_all_written_keeps_distinct(self.ai_exchange_captures@, captures@, ai_exchange_key());
            }
        }
        let same_id = |a: &AIExchangeCapture, b: &AIExchangeCapture| -> (r: bool)
            ensures
                r == (a.id@ == b.id@),
            { same_text(a.id.as_str(), b.id.as_str()) };
        let dup = |c: &AIExchangeCapture| -> (r: AIExchangeCapture)
            ensures
                r == *c,
            { copy_ai_exchange(c) };
        write_or_ignore(&mut self.ai_exchange_captures, captures, same_id, dup, Ghost(ai_exchange_key()));
        Ok(captures.len())
    }

    /// The newest `limit` exchanges with a model, newest first; all of them if `limit` is
    /// negative.
    pub fn get_recent_ai_exchange(&self, limit: i32) -> (r: Result<Vec<AIExchangeCapture>, DbError>)
        ensures
            r is Ok,
            r->Ok_0@ == recent(self.ai_exchange_captures@, limit, ai_exchange_instant()),
    {
        let when = |c: &AIExchangeCapture| -> (t: i64)
            ensures
                t == c.timestamp,
            { c.timestamp };
        let dup = |c: &AIExchangeCapture| -> (r: AIExchangeCapture)
            ensures
                r == *c,
            { copy_ai_exchange(c) };
        Ok(read_recent(&self.ai_exchange_captures, limit, when, dup, Ghost(ai_exchange_instant())))
    }

    /// Writes a batch of document edits, in order; a capture whose id is
    /// stored already is dropped. Returns the size of the batch. A batch
    /// that holds an edit that ends before it starts is refused as a whole,
    /// and nothing changes.
    pub fn insert_doc_edit_captures(&mut self, captures: &[DocEditCapture]) -> (r: Result<usize, DbError>)
        ensures
            r is Ok <==> edits_valid(captures@),
            match r {
                Ok(n) => n == captures@.len() && final(self).doc_edit_captures@ == all_written_or_ignored(
                    old(self).doc_edit_captures@,
                    captures@,
                    doc_edit_key(),
                ),
                Err(e) => e == DbError::Invalid && final(self).doc_edit_captures == old(self).doc_edit_captures,
            },
            *final(self) == (Database { doc_edit_captures: final(self).doc_edit_captures, ..*old(self) }),
            keys_distinct(old(self).doc_edit_captures@, doc_edit_key()) ==> keys_distinct(
                final(self).doc_edit_captures@,
                doc_edit_key(),
            ),
            edits_valid(old(self).doc_edit_captures@) ==> edits_valid(final(self).doc_edit_captures@),
    {
        if !check_edits(captures) {
            return Err(DbError::Invalid);
        }
        proof {
            if keys_distinct(self.doc_edit_captures@, doc_edit_key()) {
                lemma_all_written_keeps_distinct(self.doc_edit_captures@, captures@, doc_edit_key());
            }
            if edits_valid(self.doc_edit_captures@) {
                lemma_all_written_keeps(
                    self.doc_edit_captures@,
                    captures@,
                    doc_edit_key(),
                    |c: DocEditCapture| c.is_valid(),
                );
            }
        }
        let same_id = |a: &DocEditCapture, b: &DocEditCapture| -> (r: bool)
            ensures
                r == (a.id@ == b.id@),
            { same_text(a.id.as_str(), b.id.as_str()) };
        let dup = |c: &DocEditCapture| -> (r: DocEditCapture)
            ensures
                r == *c,
            { copy_doc_edit(c) };
        write_or_ignore(&mut self.doc_edit_captures, captures, same_id, dup, Ghost(doc_edit_key()));
        Ok(captures.len())
    }

    /// The newest `limit` document edits, newest first; all of them if `limit` is
    /// negative.
    pub fn get_recent_doc_edit(&self, limit: i32) -> (r: Result<Vec<DocEditCapture>, DbError>)
        ensures
            r is Ok,
            r->Ok_0@ == recent(self.doc_edit_captures@, limit, doc_edit_instant()),
    {
        let when = |c: &DocEditCapture| -> (t: i64)
            ensures
                t == c.ended_at,
            { c.ended_at };
        let dup = |c: &DocEditCapture| -> (r: DocEditCapture)
            ensures
                r == *c,
            { copy_doc_edit(c) };
        Ok(read_recent(&self.doc_edit_captures, limit, when, dup, Ghost(doc_edit_instant())))
    }

    /// Writes everything a drain handed out, family by family, and reports
    /// the size of each batch. A drain that holds a visit or an edit that is
    /// not valid is refused as a whole, and nothing changes.
    pub fn insert_drain(&mut self, drain: &CaptureBufferDrain) -> (r: Result<BatchInsertResult, DbError>)
        ensures
            r is Ok <==> visits_valid(drain.browse@) && edits_valid(drain.doc_edit@),
            match r {
                Ok(n) => is_drain_written(*old(self), *drain, *final(self), n),
                Err(e) => e == DbError::Invalid && *final(self) == *old(self),
            },
            visits_valid(old(self).browse_captures@) ==> visits_valid(final(self).browse_captures@),
            edits_valid(old(self).doc_edit_captures@) ==> edits_valid(final(self).doc_edit_captures@),
    {
        if !check_visits(drain.browse.as_slice()) || !check_edits(drain.doc_edit.as_slice()) {
            return Err(DbError::Invalid);
        }
        let _ = self.insert_clipboard_captures(drain.clipboard.as_slice());
        let _ = self.insert_browse_captures(drain.browse.as_slice());
        let _ = self.insert_search_captures(drain.search.as_slice());
        let _ = self.insert_ai_exchange_captures(drain.ai_exchange.as_slice());
        let _ = self.insert_doc_edit_captures(drain.doc_edit.as_slice());
        Ok(
            BatchInsertResult {
                clipboard_inserted: drain.clipboard.len(),
                browse_inserted: drain.browse.len(),
                search_inserted: drain.search.len(),
                ai_exchange_inserted: drain.ai_exchange.len(),
                doc_edit_inserted: drain.doc_edit.len(),
            },
        )
    }

    /// The configuration that the rows of the store hold: the default one
    /// where nothing was saved.
    pub fn get_capture_config(&self) -> (r: Result<CaptureConfig, DbError>)
        ensures
            r is Ok,
            r->Ok_0 == config_of(self.capture_config@),
    {
        Ok(config_from_rows(self.capture_config.as_slice()))
    }

    /// Saves `config`: each of its rows takes the place of the row that has
    /// its key.
    pub fn save_capture_config(&mut self, config: &CaptureConfig) -> (r: Result<(), DbError>)
        ensures
            r is Ok,
            exists|rows: Seq<(String, String)>|
                #[trigger] is_rows_of(*config, rows) && final(self).capture_config@ == all_written_or_replaced(
                    old(self).capture_config@,
                    rows,
                    config_key(),
                ),
            config_of(final(self).capture_config@) == *config,
            *final(self) == (Database { capture_config: final(self).capture_config, ..*old(self) }),
    {
        let rows = config_to_rows(config);
        proof {
            lemma_saved_config_reads_back(self.capture_config@, *config, rows@);
        }
        let same_key = |a: &(String, String), b: &(String, String)| -> (r: bool)
            ensures
                r == (a.0@ == b.0@),
            { same_text(a.0.as_str(), b.0.as_str()) };
        let dup = |p: &(String, String)| -> (r: (String, String))
            ensures
                r == *p,
            { (p.0.clone(), p.1.clone()) };
        write_or_replace(&mut self.capture_config, rows.as_slice(), same_key, dup, Ghost(config_key()));
        Ok(())
    }

    /// Removes every capture of every family and every stored body.
    /// Reports how many captures went.
    pub fn clear_all_captures(&mut self) -> (r: Result<CaptureCleanupResult, DbError>)
        ensures
            r is Ok,
            r->Ok_0.content_entries_deleted == reported_u32(
                old(self).clipboard_captures@.len() + old(self).browse_captures@.len()
                    + old(self).search_captures@.len() + old(self).ai_exchange_captures@.len()
                    + old(self).doc_edit_captures@.len(),
            ),
            final(self).clipboard_captures@.len() == 0,
            final(self).browse_captures@.len() == 0,
            final(self).search_captures@.len() == 0,
            final(self).ai_exchange_captures@.len() == 0,
            final(self).doc_edit_captures@.len() == 0,
            final(self).content_store@.len() == 0,
            *final(self) == (Database {
                clipboard_captures: final(self).clipboard_captures,
                browse_captures: final(self).browse_captures,
                search_captures: final(self).search_captures,
                ai_exchange_captures: final(self).ai_exchange_captures,
                doc_edit_captures: final(self).doc_edit_captures,
                content_store: final(self).content_store,
                ..*old(self)
            }),
    {
        let a = report_u32(self.clipboard_captures.len());
        let b = report_u32(self.browse_captures.len());
        let c = report_u32(self.search_captures.len());
        let d = report_u32(self.ai_exchange_captures.len());
        let e = report_u32(self.doc_edit_captures.len());
        let total: u64 = a as u64 + b as u64 + c as u64 + d as u64 + e as u64;
        let gone: u32 = if total > 4294967295 {
            4294967295
        } else {
            total as u32
        };
        self.clipboard_captures.clear();
        self.browse_captures.clear();
        self.search_captures.clear();
        self.ai_exchange_captures.clear();
        self.doc_edit_captures.clear();
        self.content_store.clear();
        Ok(CaptureCleanupResult { content_entries_deleted: gone })
    }
}

} // verus!
