//! The tables of work blocks, sessions and milestones: making, editing,
//! listing and deleting blocks, and the cleanup of what is old.

use vstd::prelude::*;
use crate::content_store::{report_u32, reported_u32};
use crate::database::{Database, DbError};
use crate::events::MAX_RESEARCH_URLS;
use crate::host::{fresh_id, now_millis};
use crate::tables::{pointwise, recent, select_recent};
use crate::text::{copy_opt, opt_str, opt_text, same_text};
use crate::vecs::{copy_where, lemma_filter_keeps_pairwise, newest_first, retain_by, sort_newest_first};
use crate::workblock::{
    apply_block_update, block_from_input, copy_block, duration_secs_of, is_auto_block, is_manual_block,
    is_updated, manual_block_from_input, same_block,
};
use crate::workstream::{
    ContextType, CreateBlockInput, ManualBlockInput, Milestone, MilestoneInput, Session, Timeline,
    UpdateBlockInput, WorkBlock, WorkBlockQuery,
};

verus! {

/// How long, in milliseconds, a block that is not pinned is kept after it
/// ended: seven days.
pub const WORK_BLOCK_TTL_MS: i64 = 604800000;

/// How long, in milliseconds, a session is kept after it ended: thirty
/// days.
pub const SESSION_TTL_MS: i64 = 2592000000;

/// How many blocks a timeline holds where no limit is given.
pub const DEFAULT_TIMELINE_LIMIT: i32 = 50;

/// What a cleanup of the work stream removed.
#[derive(Clone, Copy, Debug)]
pub struct CleanupResult {
    pub blocks_deleted: u32,
    pub sessions_deleted: u32,
}

/// Whether a block named `id` is among `blocks`.
pub open spec fn names_block(blocks: Seq<WorkBlock>, id: Seq<char>) -> bool {
    exists|i: int| 0 <= i < blocks.len() && (#[trigger] blocks[i]).id@ == id
}

/// The duration of `b` is the number of whole seconds from its start to
/// its end.
pub open spec fn duration_holds(b: WorkBlock) -> bool {
    b.duration_secs == duration_secs_of(b.started_at, b.ended_at)
}

/// A block is sound if it does not end before it starts, its duration is
/// the number of whole seconds from its start to its end, and it has no
/// more than `MAX_RESEARCH_URLS` research URLs.
pub open spec fn is_sound_block(b: WorkBlock) -> bool {
    &&& b.started_at <= b.ended_at
    &&& duration_holds(b)
    &&& b.research_urls@.len() <= MAX_RESEARCH_URLS
}

/// No two blocks have one name, and every block is sound.
pub open spec fn blocks_consistent(blocks: Seq<WorkBlock>) -> bool {
    &&& forall|i: int, j: int|
        0 <= i < j < blocks.len() ==> (#[trigger] blocks[i]).id@ != (#[trigger] blocks[j]).id@
    &&& forall|i: int| 0 <= i < blocks.len() ==> is_sound_block(#[trigger] blocks[i])
}

/// Every block of consistent blocks ends no earlier than it starts, and
/// its duration is the number of whole seconds in between, which is not
/// negative.
pub proof fn lemma_stored_durations(blocks: Seq<WorkBlock>, i: int)
    requires
        blocks_consistent(blocks),
        0 <= i < blocks.len(),
    ensures
        blocks[i].started_at <= blocks[i].ended_at,
        blocks[i].duration_secs == (blocks[i].ended_at - blocks[i].started_at) / 1000,
        blocks[i].duration_secs >= 0,
{
    assert(is_sound_block(blocks[i]));
    crate::workblock::lemma_duration_of_chronological(blocks[i].started_at, blocks[i].ended_at);
}

/// What a filter leaves of consistent blocks is consistent.
pub proof fn lemma_filter_keeps_blocks_consistent(blocks: Seq<WorkBlock>, p: spec_fn(WorkBlock) -> bool)
    requires
        blocks_consistent(blocks),
    ensures
        blocks_consistent(blocks.filter(p)),
{
    let apart = |a: WorkBlock, b: WorkBlock| a.id@ != b.id@;
    let kept = blocks.filter(p);
    assert forall|i: int, j: int| 0 <= i < j < blocks.len() implies #[trigger] apart(blocks[i], blocks[j]) by {}
    lemma_filter_keeps_pairwise(blocks, p, apart);
    assert forall|i: int, j: int| 0 <= i < j < kept.len() implies (#[trigger] kept[i]).id@ != (#[trigger] kept[j]).id@ by {
        assert(apart(kept[i], kept[j]));
    }
    assert forall|i: int| 0 <= i < kept.len() implies is_sound_block(#[trigger] kept[i]) by {
        assert(kept.contains(kept[i]));
        assert(blocks.contains(kept[i]));
        let q = choose|q: int| 0 <= q < blocks.len() && blocks[q] == kept[i];
        assert(is_sound_block(blocks[q]));
    }
}

/// Whether `i` is the first place in `blocks` that holds a block named `id`.
pub open spec fn first_block_at(blocks: Seq<WorkBlock>, id: Seq<char>, i: int) -> bool {
    &&& 0 <= i < blocks.len()
    &&& blocks[i].id@ == id
    &&& forall|j: int| 0 <= j < i ==> (#[trigger] blocks[j]).id@ != id
}

/// Whether `after` is `before` with the user's edit `input` at `now`
/// applied to what is named `id`, and every other block as it was.
pub open spec fn is_edit_of(
    before: Seq<WorkBlock>,
    id: Seq<char>,
    input: UpdateBlockInput,
    now: i64,
    after: Seq<WorkBlock>,
) -> bool {
    &&& after.len() == before.len()
    &&& forall|i: int|
        0 <= i < before.len() ==> if (#[trigger] before[i]).id@ == id {
            is_updated(before[i], input, now, after[i])
        } else {
            after[i] == before[i]
        }
}

/// A user's edit leaves consistent blocks consistent: it changes neither
/// a name nor a start, an end, a duration or a research URL.
pub proof fn lemma_edit_keeps_consistent(
    before: Seq<WorkBlock>,
    id: Seq<char>,
    input: UpdateBlockInput,
    now: i64,
    after: Seq<WorkBlock>,
)
    requires
        blocks_consistent(before),
        is_edit_of(before, id, input, now, after),
    ensures
        blocks_consistent(after),
{
    assert forall|i: int| 0 <= i < after.len() implies (#[trigger] after[i]).id == before[i].id && is_sound_block(
        after[i],
    ) by {
        assert(is_sound_block(before[i]));
        if before[i].id@ == id {
            assert(is_updated(before[i], input, now, after[i]));
        }
    }
    assert forall|i: int, j: int| 0 <= i < j < after.len() implies (#[trigger] after[i]).id@ != (#[trigger] after[j]).id@ by {
        assert(before[i].id@ != before[j].id@);
    }
}

/// Whether `after` and `r` are what offering a block under the name `id`
/// makes of `before`, where `chronological` says whether the block ends no
/// earlier than it starts. A block that ends before it starts is refused
/// as invalid; one whose name is taken is refused for its key; either way
/// nothing changes. Otherwise the block is added at the end, `r` holds a
/// likeness of it, and no other table changes.
pub open spec fn is_block_stored(
    before: Database,
    id: Seq<char>,
    chronological: bool,
    after: Database,
    r: Result<WorkBlock, DbError>,
) -> bool {
    &&& r is Ok <==> chronological && !names_block(before.work_blocks@, id)
    &&& match r {
        Ok(b) => {
            &&& after.work_blocks@.len() == before.work_blocks@.len() + 1
            &&& after.work_blocks@.drop_last() == before.work_blocks@
            &&& same_block(after.work_blocks@.last(), b)
            &&& after == (Database { work_blocks: after.work_blocks, ..before })
        },
        Err(e) => {
            &&& after == before
            &&& e == (if chronological {
                DbError::Constraint
            } else {
                DbError::Invalid
            })
        },
    }
}

/// Whether `after` and `r` are what making, at `now` and under the name
/// `id`, the block for what a flush handed over makes of `before`.
pub open spec fn is_auto_creation(
    before: Database,
    input: CreateBlockInput,
    id: String,
    now: i64,
    after: Database,
    r: Result<WorkBlock, DbError>,
) -> bool {
    &&& is_block_stored(before, id@, input.started_at <= input.ended_at, after, r)
    &&& r is Ok ==> is_auto_block(input, id, now, r->Ok_0)
}

/// Whether `after` and `r` are what making a block by hand, at `now` and
/// under the name `id`, makes of `before`.
pub open spec fn is_manual_creation(
    before: Database,
    input: ManualBlockInput,
    id: String,
    now: i64,
    after: Database,
    r: Result<WorkBlock, DbError>,
) -> bool {
    &&& is_block_stored(before, id@, input.started_at <= input.ended_at, after, r)
    &&& r is Ok ==> is_manual_block(input, id, now, r->Ok_0)
}

/// Whether `m` is the milestone made from `input` at `now` under the name
/// `id`.
pub open spec fn is_milestone_of(input: MilestoneInput, id: String, now: i64, m: Milestone) -> bool {
    &&& m.id == id
    &&& m.context_type == ContextType::decode(input.context_type@)
    &&& m.context_id == input.context_id
    &&& m.milestone_type == input.milestone_type
    &&& m.timestamp == now
    &&& m.note == input.note
}

/// Whether `after` and `r` are what storing, at `now` and under the name
/// `id`, a milestone made from `input` makes of `before`: it is refused,
/// and nothing changes, exactly if a milestone of that name is stored;
/// otherwise it is added at the end and no other table changes.
pub open spec fn is_milestone_creation(
    before: Database,
    input: MilestoneInput,
    id: String,
    now: i64,
    after: Database,
    r: Result<Milestone, DbError>,
) -> bool {
    &&& r is Ok <==> !names_milestone(before.milestones@, id@)
    &&& match r {
        Ok(m) => {
            &&& is_milestone_of(input, id, now, m)
            &&& after.milestones@ == before.milestones@.push(m)
            &&& after == (Database { milestones: after.milestones, ..before })
        },
        Err(e) => e == DbError::Constraint && after == before,
    }
}

/// Whether a milestone named `id` is among `milestones`.
pub open spec fn names_milestone(milestones: Seq<Milestone>, id: Seq<char>) -> bool {
    exists|i: int| 0 <= i < milestones.len() && (#[trigger] milestones[i]).id@ == id
}

/// The test "is what the listing `q` asks for".
pub open spec fn asked_by(q: WorkBlockQuery) -> spec_fn(WorkBlock) -> bool {
    |b: WorkBlock|
        {
            &&& q.context_type is Some ==> b.context_type.code() == q.context_type->0@
            &&& q.context_id is Some ==> opt_text(b.context_id) == Some(q.context_id->0@)
            &&& q.from_timestamp is Some ==> b.started_at >= q.from_timestamp->0
            &&& q.to_timestamp is Some ==> b.started_at <= q.to_timestamp->0
            &&& q.include_pinned_only ==> b.is_pinned
        }
}

/// The instant by which blocks are listed: their start.
pub open spec fn block_instant() -> spec_fn(WorkBlock) -> int {
    |b: WorkBlock| b.started_at as int
}

/// `same_block` as a relation.
pub open spec fn block_like() -> spec_fn(WorkBlock, WorkBlock) -> bool {
    |a: WorkBlock, b: WorkBlock| same_block(a, b)
}

/// The test "named otherwise than `id`".
pub open spec fn block_other_than(id: Seq<char>) -> spec_fn(WorkBlock) -> bool {
    |b: WorkBlock| b.id@ != id
}

/// The test "survives a cleanup at `now`": pinned, or ended within the last
/// seven days.
pub open spec fn block_survives(now: i64) -> spec_fn(WorkBlock) -> bool {
    |b: WorkBlock| !(b.ended_at < now - WORK_BLOCK_TTL_MS && !b.is_pinned)
}

/// The test "survives a cleanup at `now`": not ended, or ended within the
/// last thirty days.
pub open spec fn session_survives(now: i64) -> spec_fn(Session) -> bool {
    |s: Session| !(s.ended_at is Some && s.ended_at->0 < now - SESSION_TTL_MS)
}

/// Whether `after` is `before` with what does not survive a cleanup at
/// `now` removed from the blocks and the sessions, and nothing else
/// changed.
pub open spec fn is_sweep(before: Database, now: i64, after: Database) -> bool {
    &&& after.work_blocks@ == before.work_blocks@.filter(block_survives(now))
    &&& after.sessions@ == before.sessions@.filter(session_survives(now))
    &&& after == (Database { work_blocks: after.work_blocks, sessions: after.sessions, ..before })
}

/// The limit a listing goes by: the one it gives, or none.
pub open spec fn limit_of(q: WorkBlockQuery) -> i32 {
    match q.limit {
        Some(l) => l,
        None => -1i32,
    }
}

/// The sum of the durations of `blocks`.
pub open spec fn total_duration(blocks: Seq<WorkBlock>) -> int
    decreases blocks.len(),
{
    if blocks.len() == 0 {
        0
    } else {
        total_duration(blocks.drop_last()) + blocks.last().duration_secs
    }
}

/// A sum of durations as a timeline holds it: itself, or the nearest `i64`.
pub open spec fn held(total: int) -> i64 {
    if total > i64::MAX {
        i64::MAX
    } else if total < i64::MIN {
        i64::MIN
    } else {
        total as i64
    }
}

/// The test "is in the context that is asked for".
pub open spec fn milestone_asked(context_type: Option<Seq<char>>, context_id: Option<Seq<char>>) -> spec_fn(
    Milestone,
) -> bool {
    |m: Milestone|
        {
            &&& context_type is Some ==> m.context_type.code() == context_type->0
            &&& context_id is Some ==> m.context_id@ == context_id->0
        }
}

/// When a milestone was reached.
pub open spec fn milestone_instant() -> spec_fn(Milestone) -> int {
    |m: Milestone| m.timestamp as int
}

/// A copy of `m`, equal to it.
pub fn copy_milestone(m: &Milestone) -> (r: Milestone)
    ensures
        r == *m,
{
    Milestone {
        id: m.id.clone(),
        context_type: m.context_type,
        context_id: m.context_id.clone(),
        milestone_type: m.milestone_type.clone(),
        timestamp: m.timestamp,
        note: copy_opt(&m.note),
    }
}

/// Whether a block named `id` is among `blocks`.
fn has_block(blocks: &Vec<WorkBlock>, id: &str) -> (r: bool)
    ensures
        r == names_block(blocks@, id@),
{
    let mut i: usize = 0;
    while i < blocks.len()
        invariant
            i <= blocks@.len(),
            forall|j: int| 0 <= j < i ==> (#[trigger] blocks@[j]).id@ != id@,
        decreases blocks@.len() - i,
    {
        if same_text(blocks[i].id.as_str(), id) {
            return true;
        }
        i += 1;
    }
    false
}

/// Whether `b` is what the listing `q` asks for.
fn is_asked(b: &WorkBlock, q: &WorkBlockQuery) -> (r: bool)
    ensures
        r == asked_by(*q)(*b),
{
    let type_ok = match &q.context_type {
        Some(t) => same_text(b.context_type.as_str(), t.as_str()),
        None => true,
    };
    let id_ok = match &q.context_id {
        Some(want) => match &b.context_id {
            Some(have) => same_text(have.as_str(), want.as_str()),
            None => false,
        },
        None => true,
    };
    let from_ok = match q.from_timestamp {
        Some(t) => b.started_at >= t,
        None => true,
    };
    let to_ok = match q.to_timestamp {
        Some(t) => b.started_at <= t,
        None => true,
    };
    let pin_ok = !q.include_pinned_only || b.is_pinned;
    type_ok && id_ok && from_ok && to_ok && pin_ok
}

impl Database {
    /// Every stored block has a name of its own and the duration that its
    /// start and end give.
    pub open spec fn work_wf(&self) -> bool {
        blocks_consistent(self.work_blocks@)
    }

    /// Stores `block` unless a block of its name is stored.
    fn add_block(&mut self, block: WorkBlock) -> (r: Result<WorkBlock, DbError>)
        ensures
            old(self).work_wf() && is_sound_block(block) ==> final(self).work_wf(),
            r is Ok <==> !names_block(old(self).work_blocks@, block.id@),
            match r {
                Ok(b) => {
                    &&& same_block(block, b)
                    &&& final(self).work_blocks@ == old(self).work_blocks@.push(block)
                    &&& *final(self) == (Database { work_blocks: final(self).work_blocks, ..*old(self) })
                },
                Err(e) => e == DbError::Constraint && *final(self) == *old(self),
            },
    {
        if has_block(&self.work_blocks, block.id.as_str()) {
            return Err(DbError::Constraint);
        }
        let out = copy_block(&block);
        self.work_blocks.push(block);
        Ok(out)
    }

    /// Makes, at `now` and under the name `id`, the block for what a flush
    /// handed over, and stores it. What ends before it starts is refused as
    /// invalid, and what would take the name of a stored block is refused
    /// for its key; nothing changes then.
    pub fn create_ws_block_at(&mut self, input: &CreateBlockInput, id: String, now: i64) -> (r: Result<
        WorkBlock,
        DbError,
    >)
        ensures
            is_auto_creation(*old(self), *input, id, now, *final(self), r),
            old(self).work_wf() ==> final(self).work_wf(),
    {
        if input.started_at > input.ended_at {
            return Err(DbError::Invalid);
        }
        let block = block_from_input(input, id, now);
        let r = self.add_block(block);
        proof {
            if r is Ok {
                assert(self.work_blocks@.drop_last() =~= old(self).work_blocks@);
            }
        }
        r
    }

    /// `create_ws_block_at` at the instant the clock gives, under a fresh
    /// name. What ends before it starts is refused; on a store with no
    /// blocks, anything else is stored.
    pub fn create_ws_block(&mut self, input: &CreateBlockInput) -> (r: Result<WorkBlock, DbError>)
        ensures
            exists|id: String, now: i64| is_auto_creation(*old(self), *input, id, now, *final(self), r),
            input.started_at > input.ended_at ==> r is Err && r->Err_0 == DbError::Invalid,
            old(self).work_blocks@.len() == 0 && input.started_at <= input.ended_at ==> r is Ok,
            old(self).work_wf() ==> final(self).work_wf(),
    {
        let id = fresh_id();
        let now = now_millis();
        let r = self.create_ws_block_at(input, id, now);
        proof {
            assert(is_auto_creation(*old(self), *input, id, now, *self, r));
        }
        r
    }

    /// Makes, at `now` and under the name `id`, a block by hand, and stores
    /// it. What ends before it starts is refused as invalid, and what would
    /// take the name of a stored block is refused for its key; nothing
    /// changes then.
    pub fn create_manual_block_at(&mut self, input: &ManualBlockInput, id: String, now: i64) -> (r: Result<
        WorkBlock,
        DbError,
    >)
        ensures
            is_manual_creation(*old(self), *input, id, now, *final(self), r),
            old(self).work_wf() ==> final(self).work_wf(),
    {
        if input.started_at > input.ended_at {
            return Err(DbError::Invalid);
        }
        let block = manual_block_from_input(input, id, now);
        let r = self.add_block(block);
        proof {
            if r is Ok {
                assert(self.work_blocks@.drop_last() =~= old(self).work_blocks@);
            }
        }
        r
    }

    /// `create_manual_block_at` at the instant the clock gives, under a
    /// fresh name. What ends before it starts is refused; on a store with no
    /// blocks, anything else is stored.
    pub fn create_manual_block(&mut self, input: &ManualBlockInput) -> (r: Result<WorkBlock, DbError>)
        ensures
            exists|id: String, now: i64| is_manual_creation(*old(self), *input, id, now, *final(self), r),
            input.started_at > input.ended_at ==> r is Err && r->Err_0 == DbError::Invalid,
            old(self).work_blocks@.len() == 0 && input.started_at <= input.ended_at ==> r is Ok,
            old(self).work_wf() ==> final(self).work_wf(),
    {
        let id = fresh_id();
        let now = now_millis();
        let r = self.create_manual_block_at(input, id, now);
        proof {
            assert(is_manual_creation(*old(self), *input, id, now, *self, r));
        }
        r
    }

    /// The block named `id`, if there is one.
    pub fn get_work_block_by_id(&self, id: &str) -> (r: Result<Option<WorkBlock>, DbError>)
        ensures
            r is Ok,
            match r->Ok_0 {
                Some(b) => exists|i: int| #[trigger]
                    first_block_at(self.work_blocks@, id@, i) && same_block(self.work_blocks@[i], b),
                None => !names_block(self.work_blocks@, id@),
            },
    {
        let mut i: usize = 0;
        while i < self.work_blocks.len()
            invariant
                i <= self.work_blocks@.len(),
                forall|j: int| 0 <= j < i ==> (#[trigger] self.work_blocks@[j]).id@ != id@,
            decreases self.work_blocks@.len() - i,
        {
            if same_text(self.work_blocks[i].id.as_str(), id) {
                let b = copy_block(&self.work_blocks[i]);
                assert(first_block_at(self.work_blocks@, id@, i as int));
                return Ok(Some(b));
            }
            i += 1;
        }
        Ok(None)
    }

    /// Applies the user's edit `input` at `now` to the block named `id` and
    /// returns the block as it then is, or `None`, with nothing changed, if
    /// there is no such block.
    pub fn update_work_block_at(&mut self, id: &str, input: &UpdateBlockInput, now: i64) -> (r: Result<
        Option<WorkBlock>,
        DbError,
    >)
        ensures
            r is Ok,
            is_edit_of(old(self).work_blocks@, id@, *input, now, final(self).work_blocks@),
            match r->Ok_0 {
                Some(b) => exists|i: int| #[trigger]
                    first_block_at(old(self).work_blocks@, id@, i) && same_block(final(self).work_blocks@[i], b),
                None => !names_block(old(self).work_blocks@, id@),
            },
            *final(self) == (Database { work_blocks: final(self).work_blocks, ..*old(self) }),
            old(self).work_wf() ==> final(self).work_wf(),
    {
        let n = self.work_blocks.len();
        let mut i: usize = 0;
        while i < n
            invariant
                i <= n,
                n == old(self).work_blocks@.len(),
                self.work_blocks@.len() == n,
                forall|j: int|
                    0 <= j < i ==> if (#[trigger] old(self).work_blocks@[j]).id@ == id@ {
                        is_updated(old(self).work_blocks@[j], *input, now, self.work_blocks@[j])
                    } else {
                        self.work_blocks@[j] == old(self).work_blocks@[j]
                    },
                forall|j: int| i <= j < n ==> self.work_blocks@[j] == old(self).work_blocks@[j],
                *self == (Database { work_blocks: self.work_blocks, ..*old(self) }),
            decreases n - i,
        {
            if same_text(self.work_blocks[i].id.as_str(), id) {
                apply_block_update(&mut self.work_blocks[i], input, now);
            }
            i += 1;
        }
        let mut k: usize = 0;
        while k < n
            invariant
                k <= n,
                n == old(self).work_blocks@.len(),
                self.work_blocks@.len() == n,
                is_edit_of(old(self).work_blocks@, id@, *input, now, self.work_blocks@),
                *self == (Database { work_blocks: self.work_blocks, ..*old(self) }),
                forall|j: int| 0 <= j < k ==> (#[trigger] old(self).work_blocks@[j]).id@ != id@,
            decreases n - k,
        {
            proof {
                // an edit leaves the name of a block as it is
                let before = old(self).work_blocks@[k as int];
                assert(self.work_blocks@[k as int].id == before.id);
            }
            if same_text(self.work_blocks[k].id.as_str(), id) {
                let b = copy_block(&self.work_blocks[k]);
                assert(first_block_at(old(self).work_blocks@, id@, k as int));
                proof {
                    if old(self).work_wf() {
                        lemma_edit_keeps_consistent(old(self).work_blocks@, id@, *input, now, self.work_blocks@);
                    }
                }
                return Ok(Some(b));
            }
            k += 1;
        }
        proof {
            if old(self).work_wf() {
                lemma_edit_keeps_consistent(old(self).work_blocks@, id@, *input, now, self.work_blocks@);
            }
        }
        Ok(None)
    }

    /// `update_work_block_at` at the instant the clock gives.
    pub fn update_work_block(&mut self, id: &str, input: &UpdateBlockInput) -> (r: Result<Option<WorkBlock>, DbError>)
        ensures
            r is Ok,
            exists|now: i64| is_edit_of(old(self).work_blocks@, id@, *input, now, final(self).work_blocks@),
            match r->Ok_0 {
                Some(b) => exists|i: int| #[trigger]
                    first_block_at(old(self).work_blocks@, id@, i) && same_block(final(self).work_blocks@[i], b),
                None => !names_block(old(self).work_blocks@, id@),
            },
            *final(self) == (Database { work_blocks: final(self).work_blocks, ..*old(self) }),
            old(self).work_wf() ==> final(self).work_wf(),
    {
        let now = now_millis();
        self.update_work_block_at(id, input, now)
    }

    /// The blocks that `query` asks for, latest start first, no more than
    /// its limit where it gives one that is not negative.
    pub fn list_work_blocks(&self, query: &WorkBlockQuery) -> (r: Result<Vec<WorkBlock>, DbError>)
        ensures
            r is Ok,
            pointwise(
                recent(self.work_blocks@.filter(asked_by(*query)), limit_of(*query), block_instant()),
                r->Ok_0@,
                block_like(),
            ),
    {
        let keep = |b: &WorkBlock| -> (r: bool)
            ensures
                r == asked_by(*query)(*b),
            { is_asked(b, query) };
        let start = |b: &WorkBlock| -> (t: i64)
            ensures
                t == b.started_at,
            { b.started_at };
        let dup = |b: &WorkBlock| -> (r: WorkBlock)
            ensures
                same_block(*b, r),
            { copy_block(b) };
        let limit = match query.limit {
            Some(l) => l,
            None => -1,
        };
        Ok(
            select_recent(
                &self.work_blocks,
                keep,
                start,
                dup,
                limit,
                Ghost(asked_by(*query)),
                Ghost(block_instant()),
                Ghost(block_like()),
            ),
        )
    }

    /// Deletes the block named `id`. Returns whether there was one.
    pub fn delete_work_block(&mut self, id: &str) -> (r: Result<bool, DbError>)
        ensures
            r == Ok::<bool, DbError>(names_block(old(self).work_blocks@, id@)),
            final(self).work_blocks@ == old(self).work_blocks@.filter(block_other_than(id@)),
            *final(self) == (Database { work_blocks: final(self).work_blocks, ..*old(self) }),
            old(self).work_wf() ==> final(self).work_wf(),
    {
        let found = has_block(&self.work_blocks, id);
        let other = |b: &WorkBlock| -> (r: bool)
            ensures
                r == (b.id@ != id@),
            { !same_text(b.id.as_str(), id) };
        retain_by(&mut self.work_blocks, other, Ghost(block_other_than(id@)));
        proof {
            if old(self).work_wf() {
                lemma_filter_keeps_blocks_consistent(old(self).work_blocks@, block_other_than(id@));
            }
        }
        Ok(found)
    }

    /// The latest blocks, `limit` of them or `DEFAULT_TIMELINE_LIMIT` where
    /// none is given, with the sum of their durations.
    pub fn get_workstream_timeline(&self, limit: Option<i32>) -> (r: Result<Timeline, DbError>)
        ensures
            r is Ok,
            r->Ok_0.session is None,
            pointwise(
                recent(
                    self.work_blocks@,
                    match limit {
                        Some(l) => l,
                        None => DEFAULT_TIMELINE_LIMIT,
                    },
                    block_instant(),
                ),
                r->Ok_0.blocks@,
                block_like(),
            ),
            r->Ok_0.total_duration_secs == held(total_duration(r->Ok_0.blocks@)),
    {
        let query = WorkBlockQuery {
            context_type: None,
            context_id: None,
            from_timestamp: None,
            to_timestamp: None,
            include_pinned_only: false,
            limit: Some(
                match limit {
                    Some(l) => l,
                    None => DEFAULT_TIMELINE_LIMIT,
                },
            ),
        };
        let blocks = match self.list_work_blocks(&query) {
            Ok(b) => b,
            Err(e) => {
                return Err(e);
            },
        };
        proof {
            let all = |b: WorkBlock| true;
            assert(asked_by(query) =~= all) by {
                assert forall|b: WorkBlock| #[trigger] asked_by(query)(b) == all(b) by {}
            }
            crate::vecs::lemma_filter_all(self.work_blocks@, asked_by(query));
        }
        let n = blocks.len();
        let mut total: i128 = 0;
        let mut i: usize = 0;
        proof {
            assert(blocks@.take(0) =~= Seq::<WorkBlock>::empty());
        }
        while i < n
            invariant
                i <= n,
                n == blocks@.len(),
                total == total_duration(blocks@.take(i as int)),
                -(i * 0x8000_0000_0000_0000) <= total <= i * 0x8000_0000_0000_0000,
            decreases n - i,
        {
            proof {
                assert(blocks@.take(i + 1).drop_last() =~= blocks@.take(i as int));
                assert(i * 0x8000_0000_0000_0000 + 0x8000_0000_0000_0000 <= 0xffff_ffff_ffff_ffff
                    * 0x8000_0000_0000_0000 + 0x8000_0000_0000_0000) by (nonlinear_arith)
                    requires
                        i <= 0xffff_ffff_ffff_ffff,
                ;
            }
            total = total + blocks[i].duration_secs as i128;
            i += 1;
            proof {
                assert((i - 1) * 0x8000_0000_0000_0000 + 0x8000_0000_0000_0000 == i * 0x8000_0000_0000_0000)
                    by (nonlinear_arith);
            }
        }
        proof {
            assert(blocks@.take(n as int) =~= blocks@);
        }
        let total_duration_secs: i64 = if total > 9223372036854775807 {
            9223372036854775807
        } else if total < -9223372036854775808 {
            -9223372036854775808
        } else {
            total as i64
        };
        Ok(Timeline { session: None, blocks, total_duration_secs })
    }

    /// Removes, at the instant `now`, every block that ended more than
    /// `WORK_BLOCK_TTL_MS` ago and is not pinned, and every session that
    /// ended more than `SESSION_TTL_MS` ago. Milestones stay.
    pub fn cleanup_workstream_at(&mut self, now: i64) -> (r: Result<CleanupResult, DbError>)
        ensures
            r is Ok,
            is_sweep(*old(self), now, *final(self)),
            r->Ok_0.blocks_deleted == reported_u32(
                (old(self).work_blocks@.len() - final(self).work_blocks@.len()) as nat,
            ),
            r->Ok_0.sessions_deleted == reported_u32(
                (old(self).sessions@.len() - final(self).sessions@.len()) as nat,
            ),
            old(self).work_wf() ==> final(self).work_wf(),
    {
        let blocks_before = self.work_blocks.len();
        let sessions_before = self.sessions.len();
        let keep_block = |b: &WorkBlock| -> (r: bool)
            ensures
                r == !(b.ended_at < now - WORK_BLOCK_TTL_MS && !b.is_pinned),
            {
                let old_enough = (b.ended_at as i128) < (now as i128) - (WORK_BLOCK_TTL_MS as i128);
                !(old_enough && !b.is_pinned)
            };
        retain_by(&mut self.work_blocks, keep_block, Ghost(block_survives(now)));
        let keep_session = |s: &Session| -> (r: bool)
            ensures
                r == !(s.ended_at is Some && s.ended_at->0 < now - SESSION_TTL_MS),
            {
                match s.ended_at {
                    Some(t) => !((t as i128) < (now as i128) - (SESSION_TTL_MS as i128)),
                    None => true,
                }
            };
        retain_by(&mut self.sessions, keep_session, Ghost(session_survives(now)));
        proof {
            old(self).work_blocks@.lemma_filter_len(block_survives(now));
            old(self).sessions@.lemma_filter_len(session_survives(now));
            if old(self).work_wf() {
                lemma_filter_keeps_blocks_consistent(old(self).work_blocks@, block_survives(now));
            }
        }
        Ok(
            CleanupResult {
                blocks_deleted: report_u32(blocks_before - self.work_blocks.len()),
                sessions_deleted: report_u32(sessions_before - self.sessions.len()),
            },
        )
    }

    /// `cleanup_workstream_at` at the instant the clock gives.
    pub fn cleanup_workstream(&mut self) -> (r: Result<CleanupResult, DbError>)
        ensures
            r is Ok,
            exists|now: i64| is_sweep(*old(self), now, *final(self)),
            r->Ok_0.blocks_deleted == reported_u32(
                (old(self).work_blocks@.len() - final(self).work_blocks@.len()) as nat,
            ),
            r->Ok_0.sessions_deleted == reported_u32(
                (old(self).sessions@.len() - final(self).sessions@.len()) as nat,
            ),
            old(self).work_wf() ==> final(self).work_wf(),
    {
        let now = now_millis();
        self.cleanup_workstream_at(now)
    }

    /// Stores, at `now` and under the name `id`, a milestone made from
    /// `input`. It is refused, and nothing changes, if a milestone named
    /// `id` is stored.
    pub fn create_milestone_at(&mut self, input: &MilestoneInput, id: String, now: i64) -> (r: Result<
        Milestone,
        DbError,
    >)
        ensures
            r is Ok <==> !names_milestone(old(self).milestones@, id@),
            match r {
                Ok(m) => {
                    &&& m.id == id
                    &&& m.context_type == ContextType::decode(input.context_type@)
                    &&& m.context_id == input.context_id
                    &&& m.milestone_type == input.milestone_type
                    &&& m.timestamp == now
                    &&& m.note == input.note
                    &&& final(self).milestones@ == old(self).milestones@.push(m)
                    &&& *final(self) == (Database { milestones: final(self).milestones, ..*old(self) })
                },
                Err(e) => e == DbError::Constraint && *final(self) == *old(self),
            },
    {
        let mut i: usize = 0;
        while i < self.milestones.len()
            invariant
                i <= self.milestones@.len(),
                *self == *old(self),
                forall|j: int| 0 <= j < i ==> (#[trigger] self.milestones@[j]).id@ != id@,
            decreases self.milestones@.len() - i,
        {
            if same_text(self.milestones[i].id.as_str(), id.as_str()) {
                return Err(DbError::Constraint);
            }
            i += 1;
        }
        let m = Milestone {
            id,
            context_type: ContextType::from_str(input.context_type.as_str()),
            context_id: input.context_id.clone(),
            milestone_type: input.milestone_type.clone(),
            timestamp: now,
            note: copy_opt(&input.note),
        };
        self.milestones.push(copy_milestone(&m));
        Ok(m)
    }

    /// `create_milestone_at` at the instant the clock gives, under a fresh
    /// name.
    pub fn create_milestone(&mut self, input: &MilestoneInput) -> (r: Result<Milestone, DbError>)
        ensures
            exists|id: String, now: i64| is_milestone_creation(*old(self), *input, id, now, *final(self), r),
            old(self).milestones@.len() == 0 ==> r is Ok,
    {
        let id = fresh_id();
        let now = now_millis();
        let r = self.create_milestone_at(input, id, now);
        proof {
            assert(is_milestone_creation(*old(self), *input, id, now, *self, r));
        }
        r
    }

    /// The milestones of the context that is asked for, the latest first;
    /// what is not given is not asked for.
    pub fn list_milestones(&self, context_type: Option<&str>, context_id: Option<&str>) -> (r: Result<
        Vec<Milestone>,
        DbError,
    >)
        ensures
            r is Ok,
            r->Ok_0@ == newest_first(
                self.milestones@.filter(milestone_asked(opt_str(context_type), opt_str(context_id))),
                milestone_instant(),
            ),
    {
        let keep = |m: &Milestone| -> (r: bool)
            ensures
                r == milestone_asked(opt_str(context_type), opt_str(context_id))(*m),
            {
                let type_ok = match context_type {
                    Some(t) => same_text(m.context_type.as_str(), t),
                    None => true,
                };
                let id_ok = match context_id {
                    Some(t) => same_text(m.context_id.as_str(), t),
                    None => true,
                };
                type_ok && id_ok
            };
        let dup = |m: &Milestone| -> (r: Milestone)
            ensures
                r == *m,
            { copy_milestone(m) };
        let mut out = copy_where(
            &self.milestones,
            keep,
            dup,
            Ghost(milestone_asked(opt_str(context_type), opt_str(context_id))),
        );
        let when = |m: &Milestone| -> (t: i64)
            ensures
                t == m.timestamp,
            { m.timestamp };
        sort_newest_first(&mut out, when, Ghost(milestone_instant()));
        Ok(out)
    }
}

} // verus!
