//! Making work blocks: from what a flush of the event buffer hands out, or
//! by hand; and the edits a user may make to one.

use vstd::prelude::*;
use crate::events::{FlushResult, MAX_RESEARCH_URLS};
use crate::text::copy_opt;
use crate::workstream::{ContextType, CreateBlockInput, ManualBlockInput, UpdateBlockInput, WorkBlock};

verus! {

/// The whole seconds from `started_at` to `ended_at`, both in milliseconds;
/// a fraction of a second is dropped, toward zero.
pub open spec fn duration_secs_of(started_at: i64, ended_at: i64) -> i64 {
    let ms = ended_at - started_at;
    if ms >= 0 {
        (ms / 1000) as i64
    } else {
        (-((-ms) / 1000)) as i64
    }
}

/// Computes `duration_secs_of`.
pub fn duration_between(started_at: i64, ended_at: i64) -> (r: i64)
    ensures
        r == duration_secs_of(started_at, ended_at),
{
    let ms: i128 = ended_at as i128 - started_at as i128;
    if ms >= 0 {
        (ms / 1000) as i64
    } else {
        (-((-ms) / 1000)) as i64
    }
}

/// `b` has what `a` has, field by field; lists are compared by what they
/// hold.
pub open spec fn same_block(a: WorkBlock, b: WorkBlock) -> bool {
    &&& a.id == b.id
    &&& a.session_id == b.session_id
    &&& a.context_type == b.context_type
    &&& a.context_id == b.context_id
    &&& a.context_title == b.context_title
    &&& a.started_at == b.started_at
    &&& a.ended_at == b.ended_at
    &&& a.duration_secs == b.duration_secs
    &&& a.auto_summary == b.auto_summary
    &&& a.edit_count == b.edit_count
    &&& a.browse_count == b.browse_count
    &&& a.research_urls@ == b.research_urls@
    &&& a.user_summary == b.user_summary
    &&& a.notes == b.notes
    &&& a.tags@ == b.tags@
    &&& a.is_pinned == b.is_pinned
    &&& a.is_manual == b.is_manual
    &&& a.created_at == b.created_at
    &&& a.updated_at == b.updated_at
}

/// A copy of a list of texts, holding the same texts.
pub fn copy_texts(v: &Vec<String>) -> (r: Vec<String>)
    ensures
        r@ == v@,
{
    let mut out: Vec<String> = Vec::new();
    let mut i: usize = 0;
    while i < v.len()
        invariant
            i <= v@.len(),
            out@ == v@.take(i as int),
        decreases v@.len() - i,
    {
        out.push(v[i].clone());
        proof {
            assert(out@ =~= v@.take(i + 1));
        }
        i += 1;
    }
    proof {
        assert(v@.take(v@.len() as int) =~= v@);
    }
    out
}

/// A copy of `b`, with what `b` has.
pub fn copy_block(b: &WorkBlock) -> (r: WorkBlock)
    ensures
        same_block(*b, r),
{
    WorkBlock {
        id: b.id.clone(),
        session_id: copy_opt(&b.session_id),
        context_type: b.context_type,
        context_id: copy_opt(&b.context_id),
        context_title: copy_opt(&b.context_title),
        started_at: b.started_at,
        ended_at: b.ended_at,
        duration_secs: b.duration_secs,
        auto_summary: copy_opt(&b.auto_summary),
        edit_count: b.edit_count,
        browse_count: b.browse_count,
        research_urls: copy_texts(&b.research_urls),
        user_summary: copy_opt(&b.user_summary),
        notes: copy_opt(&b.notes),
        tags: copy_texts(&b.tags),
        is_pinned: b.is_pinned,
        is_manual: b.is_manual,
        created_at: b.created_at,
        updated_at: b.updated_at,
    }
}

/// The research URLs that a block keeps of `urls`: the first
/// `MAX_RESEARCH_URLS` of them.
pub open spec fn first_urls(urls: Seq<String>) -> Seq<String> {
    if urls.len() <= MAX_RESEARCH_URLS {
        urls
    } else {
        urls.take(MAX_RESEARCH_URLS as int)
    }
}

/// A copy of the first `MAX_RESEARCH_URLS` of `urls`.
pub fn copy_first_urls(urls: &Vec<String>) -> (r: Vec<String>)
    ensures
        r@ == first_urls(urls@),
{
    let n = if urls.len() <= MAX_RESEARCH_URLS {
        urls.len()
    } else {
        MAX_RESEARCH_URLS
    };
    let mut out: Vec<String> = Vec::new();
    let mut i: usize = 0;
    while i < n
        invariant
            i <= n,
            n <= urls@.len(),
            out@ == urls@.take(i as int),
        decreases n - i,
    {
        out.push(urls[i].clone());
        proof {
            assert(out@ =~= urls@.take(i + 1));
        }
        i += 1;
    }
    proof {
        assert(urls@.take(urls@.len() as int) =~= urls@);
    }
    out
}

/// Whether `b` is the block made at `now`, under the name `id`, from what
/// a flush handed over: the figures of the flush, no more than
/// `MAX_RESEARCH_URLS` of its research URLs, the duration between its first
/// and last event, and nothing of the user's.
pub open spec fn is_auto_block(input: CreateBlockInput, id: String, now: i64, b: WorkBlock) -> bool {
    &&& b.id == id
    &&& b.session_id is None
    &&& b.context_type == ContextType::decode(input.context_type@)
    &&& b.context_id == input.context_id
    &&& b.context_title == input.context_title
    &&& b.started_at == input.started_at
    &&& b.ended_at == input.ended_at
    &&& b.duration_secs == duration_secs_of(input.started_at, input.ended_at)
    &&& b.auto_summary == input.auto_summary
    &&& b.edit_count == input.edit_count
    &&& b.browse_count == input.browse_count
    &&& b.research_urls@ == first_urls(input.research_urls@)
    &&& b.user_summary is None
    &&& b.notes is None
    &&& b.tags@.len() == 0
    &&& !b.is_pinned
    &&& !b.is_manual
    &&& b.created_at == now
    &&& b.updated_at == now
}

/// Makes the block for what a flush handed over.
pub fn block_from_input(input: &CreateBlockInput, id: String, now: i64) -> (b: WorkBlock)
    ensures
        is_auto_block(*input, id, now, b),
{
    WorkBlock {
        id,
        session_id: None,
        context_type: ContextType::from_str(input.context_type.as_str()),
        context_id: copy_opt(&input.context_id),
        context_title: copy_opt(&input.context_title),
        started_at: input.started_at,
        ended_at: input.ended_at,
        duration_secs: duration_between(input.started_at, input.ended_at),
        auto_summary: copy_opt(&input.auto_summary),
        edit_count: input.edit_count,
        browse_count: input.browse_count,
        research_urls: copy_first_urls(&input.research_urls),
        user_summary: None,
        notes: None,
        tags: Vec::new(),
        is_pinned: false,
        is_manual: false,
        created_at: now,
        updated_at: now,
    }
}

/// The context of a block made by hand for which none is given.
pub open spec fn manual_context(context_type: Option<String>) -> ContextType {
    match context_type {
        Some(t) => ContextType::decode(t@),
        None => ContextType::Manual,
    }
}

/// Whether `b` is the block made by hand at `now`, under the name `id`,
/// from `input`: the user's summary, notes and tags, and no generated
/// figure.
pub open spec fn is_manual_block(input: ManualBlockInput, id: String, now: i64, b: WorkBlock) -> bool {
    &&& b.id == id
    &&& b.session_id is None
    &&& b.context_type == manual_context(input.context_type)
    &&& b.context_id == input.context_id
    &&& b.context_title == input.context_title
    &&& b.started_at == input.started_at
    &&& b.ended_at == input.ended_at
    &&& b.duration_secs == duration_secs_of(input.started_at, input.ended_at)
    &&& b.auto_summary is None
    &&& b.edit_count == 0
    &&& b.browse_count == 0
    &&& b.research_urls@.len() == 0
    &&& b.user_summary == Some(input.user_summary)
    &&& b.notes == input.notes
    &&& match input.tags {
        Some(t) => b.tags@ == t@,
        None => b.tags@.len() == 0,
    }
    &&& !b.is_pinned
    &&& b.is_manual
    &&& b.created_at == now
    &&& b.updated_at == now
}

/// Makes a block by hand.
pub fn manual_block_from_input(input: &ManualBlockInput, id: String, now: i64) -> (b: WorkBlock)
    ensures
        is_manual_block(*input, id, now, b),
{
    let context_type = match &input.context_type {
        Some(t) => ContextType::from_str(t.as_str()),
        None => {
            proof {
                ContextType::Manual.lemma_round_trip();
            }
            ContextType::from_str("manual")
        },
    };
    let tags = match &input.tags {
        Some(t) => copy_texts(t),
        None => Vec::new(),
    };
    WorkBlock {
        id,
        session_id: None,
        context_type,
        context_id: copy_opt(&input.context_id),
        context_title: copy_opt(&input.context_title),
        started_at: input.started_at,
        ended_at: input.ended_at,
        duration_secs: duration_between(input.started_at, input.ended_at),
        auto_summary: None,
        edit_count: 0,
        browse_count: 0,
        research_urls: Vec::new(),
        user_summary: Some(input.user_summary.clone()),
        notes: copy_opt(&input.notes),
        tags,
        is_pinned: false,
        is_manual: true,
        created_at: now,
        updated_at: now,
    }
}

/// What a flush hands over to have its block made.
pub fn block_input_from_flush(f: &FlushResult) -> (input: CreateBlockInput)
    ensures
        input.context_type@ == f.context_type.code(),
        input.context_id == f.context_id,
        input.context_title == f.context_title,
        input.started_at == f.started_at,
        input.ended_at == f.ended_at,
        input.auto_summary == Some(f.auto_summary),
        input.edit_count == f.edit_count,
        input.browse_count == f.browse_count,
        input.research_urls@ == f.research_urls@,
{
    CreateBlockInput {
        context_type: String::from_str(f.context_type.as_str()),
        context_id: copy_opt(&f.context_id),
        context_title: copy_opt(&f.context_title),
        started_at: f.started_at,
        ended_at: f.ended_at,
        auto_summary: Some(f.auto_summary.clone()),
        edit_count: f.edit_count,
        browse_count: f.browse_count,
        research_urls: copy_texts(&f.research_urls),
    }
}

/// Whether `after` is `before` as the user's edit `input` at `now` leaves
/// it: each field that the edit gives is replaced, the time of the update
/// is `now`, and nothing else changes.
pub open spec fn is_updated(before: WorkBlock, input: UpdateBlockInput, now: i64, after: WorkBlock) -> bool {
    &&& same_block(
        WorkBlock {
            user_summary: after.user_summary,
            notes: after.notes,
            tags: after.tags,
            is_pinned: after.is_pinned,
            updated_at: after.updated_at,
            ..before
        },
        after,
    )
    &&& after.updated_at == now
    &&& after.user_summary == (match input.user_summary {
        Some(s) => Some(s),
        None => before.user_summary,
    })
    &&& after.notes == (match input.notes {
        Some(s) => Some(s),
        None => before.notes,
    })
    &&& after.tags@ == (match input.tags {
        Some(t) => t@,
        None => before.tags@,
    })
    &&& after.is_pinned == (match input.is_pinned {
        Some(p) => p,
        None => before.is_pinned,
    })
}

/// Applies a user's edit to a block.
pub fn apply_block_update(block: &mut WorkBlock, input: &UpdateBlockInput, now: i64)
    ensures
        is_updated(*old(block), *input, now, *final(block)),
{
    block.updated_at = now;
    match &input.user_summary {
        Some(s) => {
            block.user_summary = Some(s.clone());
        },
        None => {},
    }
    match &input.notes {
        Some(s) => {
            block.notes = Some(s.clone());
        },
        None => {},
    }
    match &input.tags {
        Some(t) => {
            block.tags = copy_texts(t);
        },
        None => {},
    }
    match input.is_pinned {
        Some(p) => {
            block.is_pinned = p;
        },
        None => {},
    }
}

/// The duration of a block that does not end before it starts is the
/// number of whole seconds between its start and its end: it is not
/// negative, and the block is less than one second longer.
pub proof fn lemma_duration_of_chronological(started_at: i64, ended_at: i64)
    requires
        started_at <= ended_at,
    ensures
        duration_secs_of(started_at, ended_at) == (ended_at - started_at) / 1000,
        duration_secs_of(started_at, ended_at) >= 0,
        duration_secs_of(started_at, ended_at) * 1000 <= ended_at - started_at < duration_secs_of(
            started_at,
            ended_at,
        ) * 1000 + 1000,
{
}

} // verus!
