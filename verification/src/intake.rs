//! Taking in what is reported from outside: captures are made from their
//! inputs, and a family that is switched off takes nothing.

use vstd::prelude::*;
use crate::capture_buffer::{can_leave, is_with_leave, CaptureBuffer};
use crate::database::DbError;
use crate::host::{hash_content, sha256_hex};
use crate::linker::{is_linking, SourceLinker, SourceLinkWithSources};
use crate::ring::pushed;
use crate::text::{copy_opt, generate_preview, preview_of};
use crate::types::{
    AIExchangeCapture, AIExchangeInput, BrowseCapture, CaptureConfig, CreateSourceLinkInput, PageContextInput,
    PageContextUpdate, SearchCapture, SearchInput, ANSWER_PREVIEW_LENGTH, PREVIEW_LENGTH,
};
use crate::workstream::{BufferedEvent, ContextType, EventInput, EventType};

verus! {

/// The visit that begins when a page is entered: nothing is known yet of
/// its end.
pub fn browse_capture_from(input: &PageContextInput, id: String) -> (c: BrowseCapture)
    ensures
        c.id == id,
        c.url == input.url,
        c.page_title == input.title,
        c.entered_at == input.entered_at,
        c.left_at is None,
        c.scroll_depth_percent is None,
{
    BrowseCapture {
        id,
        url: input.url.clone(),
        page_title: copy_opt(&input.title),
        entered_at: input.entered_at,
        left_at: None,
        scroll_depth_percent: None,
    }
}

/// The capture of a search: no result is known yet to have been clicked.
pub fn search_capture_from(input: &SearchInput, id: String) -> (c: SearchCapture)
    ensures
        c.id == id,
        c.query == input.query,
        c.search_engine == input.search_engine,
        c.result_clicked is None,
        c.timestamp == input.timestamp,
{
    SearchCapture {
        id,
        query: input.query.clone(),
        search_engine: input.search_engine.clone(),
        result_clicked: None,
        timestamp: input.timestamp,
    }
}

/// The digest of a text.
pub open spec fn digest(text: Seq<char>) -> Seq<char> {
    sha256_hex(vstd::utf8::encode_utf8(text))
}

/// The capture of an exchange with a model at `now`: question and answer
/// by digest and preview, the preview of the answer being the longer one.
pub fn ai_exchange_capture_from(input: &AIExchangeInput, id: String, now: i64) -> (c: AIExchangeCapture)
    ensures
        c.id == id,
        c.question_hash@ == digest(input.question@),
        c.question_preview@ == preview_of(input.question@, PREVIEW_LENGTH as nat),
        c.answer_hash@ == digest(input.answer@),
        c.answer_preview@ == preview_of(input.answer@, ANSWER_PREVIEW_LENGTH as nat),
        c.model == input.model,
        c.context_doc_id == input.context_doc_id,
        c.timestamp == now,
{
    AIExchangeCapture {
        id,
        question_hash: hash_content(input.question.as_str()),
        question_preview: generate_preview(input.question.as_str(), PREVIEW_LENGTH),
        answer_hash: hash_content(input.answer.as_str()),
        answer_preview: generate_preview(input.answer.as_str(), ANSWER_PREVIEW_LENGTH),
        model: input.model.clone(),
        context_doc_id: copy_opt(&input.context_doc_id),
        timestamp: now,
    }
}

/// The event that `input` reports at `now`, its kinds read from their
/// texts.
pub fn buffered_event_from(input: &EventInput, id: String, now: i64) -> (e: BufferedEvent)
    ensures
        e.id == id,
        e.timestamp == now,
        e.event_type == EventType::decode(input.event_type@),
        e.context_type == ContextType::decode(input.context_type@),
        e.context_id == input.context_id,
        e.context_title == input.context_title,
        e.url == input.url,
        e.delta == input.delta,
{
    BufferedEvent {
        id,
        timestamp: now,
        event_type: EventType::from_str(input.event_type.as_str()),
        context_type: ContextType::from_str(input.context_type.as_str()),
        context_id: copy_opt(&input.context_id),
        context_title: copy_opt(&input.context_title),
        url: copy_opt(&input.url),
        delta: input.delta,
    }
}

impl CaptureBuffer {
    /// Pushes a page visit if browse capture is switched on and the visit
    /// is valid. Otherwise the visit is dropped and nothing changes.
    pub fn accept_browse(&mut self, config: &CaptureConfig, capture: BrowseCapture) -> (taken: bool)
        ensures
            taken == (config.browse_enabled && capture.is_valid()),
            taken ==> final(self).browse@ == pushed(old(self).browse@, old(self).browse.cap(), capture),
            !taken ==> final(self).browse == old(self).browse,
            final(self).browse.cap() == old(self).browse.cap(),
            final(self).clipboard == old(self).clipboard,
            final(self).search == old(self).search,
            final(self).ai_exchange == old(self).ai_exchange,
            final(self).doc_edit == old(self).doc_edit,
            final(self).last_digest() == old(self).last_digest(),
            old(self).wf() ==> final(self).wf(),
            old(self).captures_valid() ==> final(self).captures_valid(),
    {
        if config.browse_enabled {
            self.push_browse(capture)
        } else {
            false
        }
    }

    /// Fills in the end of a visit as `update` reports it, if browse
    /// capture is switched on. Returns whether that was done; if not,
    /// nothing changes.
    pub fn accept_browse_update(&mut self, config: &CaptureConfig, update: &PageContextUpdate) -> (applied: bool)
        ensures
            applied == (config.browse_enabled && can_leave(
                old(self).browse@,
                update.browse_id@,
                update.left_at,
                update.scroll_depth_percent,
            )),
            applied ==> is_with_leave(
                old(self).browse@,
                update.browse_id@,
                update.left_at,
                update.scroll_depth_percent,
                final(self).browse@,
            ),
            !applied ==> final(self).browse == old(self).browse,
            final(self).browse.cap() == old(self).browse.cap(),
            final(self).clipboard == old(self).clipboard,
            final(self).search == old(self).search,
            final(self).ai_exchange == old(self).ai_exchange,
            final(self).doc_edit == old(self).doc_edit,
            final(self).last_digest() == old(self).last_digest(),
            old(self).wf() ==> final(self).wf(),
            old(self).captures_valid() ==> final(self).captures_valid(),
    {
        if config.browse_enabled {
            self.update_browse(update.browse_id.as_str(), update.left_at, update.scroll_depth_percent)
        } else {
            false
        }
    }

    /// Pushes a search if search capture is switched on. Otherwise the
    /// search is dropped and nothing changes.
    pub fn accept_search(&mut self, config: &CaptureConfig, capture: SearchCapture) -> (taken: bool)
        ensures
            taken == config.search_enabled,
            taken ==> final(self).search@ == pushed(old(self).search@, old(self).search.cap(), capture),
            !taken ==> final(self).search == old(self).search,
            final(self).search.cap() == old(self).search.cap(),
            final(self).clipboard == old(self).clipboard,
            final(self).browse == old(self).browse,
            final(self).ai_exchange == old(self).ai_exchange,
            final(self).doc_edit == old(self).doc_edit,
            final(self).last_digest() == old(self).last_digest(),
            old(self).wf() ==> final(self).wf(),
    {
        if config.search_enabled {
            self.push_search(capture);
            true
        } else {
            false
        }
    }

    /// Pushes an exchange with a model if their capture is switched on.
    /// Otherwise the exchange is dropped and nothing changes.
    pub fn accept_ai_exchange(&mut self, config: &CaptureConfig, capture: AIExchangeCapture) -> (taken: bool)
        ensures
            taken == config.ai_exchange_enabled,
            taken ==> final(self).ai_exchange@ == pushed(
                old(self).ai_exchange@,
                old(self).ai_exchange.cap(),
                capture,
            ),
            !taken ==> final(self).ai_exchange == old(self).ai_exchange,
            final(self).ai_exchange.cap() == old(self).ai_exchange.cap(),
            final(self).clipboard == old(self).clipboard,
            final(self).browse == old(self).browse,
            final(self).search == old(self).search,
            final(self).doc_edit == old(self).doc_edit,
            final(self).last_digest() == old(self).last_digest(),
            old(self).wf() ==> final(self).wf(),
    {
        if config.ai_exchange_enabled {
            self.push_ai_exchange(capture);
            true
        } else {
            false
        }
    }
}

impl SourceLinker {
    /// Links `input` if source linking is switched on. Otherwise nothing is
    /// done and nothing changes.
    pub fn link_if_enabled(&mut self, config: &CaptureConfig, input: &CreateSourceLinkInput) -> (r: Option<
        Result<SourceLinkWithSources, DbError>,
    >)
        ensures
            r is Some <==> config.source_linking_enabled,
            match r {
                Some(done) => exists|now: i64, link_id: String, ids: Seq<String>|
                    is_linking(*old(self), *input, now, link_id, ids, *final(self), done),
                None => *final(self) == *old(self),
            },
    {
        if config.source_linking_enabled {
            Some(self.create_source_link(input))
        } else {
            None
        }
    }
}

} // verus!
