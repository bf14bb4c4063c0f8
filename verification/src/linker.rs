//! Linking committed content to the sources that were active when it was
//! written: the link record, its confidence, and how each source is taken
//! to have contributed.

use vstd::prelude::*;
use crate::database::{Database, DbError};
use crate::host::{fresh_id, hash_content, now_millis, sha256_hex};
use crate::link_store::{admissible, names_child, names_link};
use crate::relevance::{FULL_RELEVANCE, MIN_RELEVANCE_THRESHOLD};
use crate::text::{generate_preview, preview_of};
use crate::tracker::{
    at_least, decayed, mean_of, total_relevance, ActiveSourceEntry, ActiveSourceTracker, MeanRelevance,
    MAX_ACTIVE_SOURCES,
};
use crate::types::{ContributionType, CreateSourceLinkInput, LinkedSource, SourceType, PREVIEW_LENGTH};

verus! {

/// Relevance, in hundredths, above which a clipboard source counts as
/// copied from directly: `0.8`.
pub const DIRECT_COPY_ABOVE: u64 = 80;

/// Relevance, in hundredths, above which a page, search or document counts
/// as referenced rather than as an inspiration: `0.7`.
pub const REFERENCED_ABOVE: u64 = 70;

/// A record that a fragment of a document was written while certain sources
/// were active. `confidence_score` is the mean relevance of those sources.
#[derive(Clone, Debug)]
pub struct SourceLink {
    pub id: String,
    pub doc_id: String,
    pub section_path: Option<String>,
    pub content_hash: String,
    pub content_preview: Option<String>,
    pub created_at: i64,
    pub confidence_score: MeanRelevance,
}

/// A link together with its children.
#[derive(Clone, Debug)]
pub struct SourceLinkWithSources {
    pub link: SourceLink,
    pub sources: Vec<LinkedSource>,
}

/// How a source of kind `source_type` that is `relevance` hundredths
/// relevant is taken to have contributed.
pub open spec fn contribution_of(source_type: SourceType, relevance: u64) -> ContributionType {
    match source_type {
        SourceType::Clipboard => if relevance > DIRECT_COPY_ABOVE {
            ContributionType::DirectCopy
        } else {
            ContributionType::Referenced
        },
        SourceType::AIExchange => ContributionType::AIAssisted,
        _ => if relevance > REFERENCED_ABOVE {
            ContributionType::Referenced
        } else {
            ContributionType::Inspired
        },
    }
}

/// Classifies the contribution of one source from its kind and relevance.
pub fn infer_contribution_type(source_type: &SourceType, relevance: u64) -> (r: ContributionType)
    ensures
        r == contribution_of(*source_type, relevance),
{
    match source_type {
        SourceType::Clipboard => {
            if relevance > DIRECT_COPY_ABOVE {
                ContributionType::DirectCopy
            } else {
                ContributionType::Referenced
            }
        },
        SourceType::AIExchange => ContributionType::AIAssisted,
        SourceType::Webpage | SourceType::Search | SourceType::Document => {
            if relevance > REFERENCED_ABOVE {
                ContributionType::Referenced
            } else {
                ContributionType::Inspired
            }
        },
    }
}

/// Whether `child` is the record of `source` under the link named
/// `link_id`, made at `now` and itself named `id`.
pub open spec fn is_child_of(
    child: LinkedSource,
    source: ActiveSourceEntry,
    link_id: Seq<char>,
    id: String,
    now: i64,
) -> bool {
    &&& child.id == id
    &&& child.link_id@ == link_id
    &&& child.source_type == source.source_type
    &&& child.source_id == source.source_id
    &&& child.contribution_type == contribution_of(source.source_type, source.relevance)
    &&& child.timestamp == now
}

/// Whether `out` is the link for `input` over the snapshot `active`, made at
/// `now`, named `link_id`, its children named by `ids` in snapshot order.
/// With nothing active the link is an orphan: no children, confidence zero.
pub open spec fn is_link_for(
    input: CreateSourceLinkInput,
    active: Seq<ActiveSourceEntry>,
    now: i64,
    link_id: String,
    ids: Seq<String>,
    out: SourceLinkWithSources,
) -> bool {
    &&& out.link.id == link_id
    &&& out.link.doc_id == input.doc_id
    &&& out.link.section_path == input.section_path
    &&& out.link.content_hash@ == sha256_hex(vstd::utf8::encode_utf8(input.content@))
    &&& out.link.content_preview is Some
    &&& out.link.content_preview->0@ == preview_of(input.content@, PREVIEW_LENGTH as nat)
    &&& out.link.created_at == now
    &&& out.link.confidence_score == confidence_of(active)
    &&& out.sources@.len() == active.len()
    &&& forall|i: int|
        0 <= i < active.len() ==> is_child_of(#[trigger] out.sources@[i], active[i], link_id@, ids[i], now)
}

/// Builds the link for `input` over the snapshot `active`: the digest and
/// preview of the content, the mean relevance of the snapshot as confidence,
/// and one child per active source, classified by `infer_contribution_type`.
pub fn build_source_link(
    input: &CreateSourceLinkInput,
    active: &Vec<ActiveSourceEntry>,
    now: i64,
    link_id: String,
    ids: Vec<String>,
) -> (out: SourceLinkWithSources)
    requires
        ids@.len() == active@.len(),
    ensures
        is_link_for(*input, active@, now, link_id, ids@, out),
{
    let section_path = match &input.section_path {
        Some(p) => Some(p.clone()),
        None => None,
    };
    let link = SourceLink {
        id: link_id,
        doc_id: input.doc_id.clone(),
        section_path,
        content_hash: hash_content(input.content.as_str()),
        content_preview: Some(generate_preview(input.content.as_str(), PREVIEW_LENGTH)),
        created_at: now,
        confidence_score: mean_of(active),
    };
    let mut ids = ids;
    let ghost all_ids = ids@;
    let n = active.len();
    let mut sources: Vec<LinkedSource> = Vec::new();
    let mut i: usize = n;
    // Children are made last to first, so that each takes its name off the
    // end of `ids`; they are put in order below.
    let mut rev: Vec<LinkedSource> = Vec::new();
    while i > 0
        invariant
            i <= n,
            n == active@.len(),
            all_ids.len() == n,
            ids@ == all_ids.take(i as int),
            rev@.len() == n - i,
            forall|j: int|
                0 <= j < n - i ==> is_child_of(
                    #[trigger] rev@[j],
                    active@[n - 1 - j],
                    link.id@,
                    all_ids[n - 1 - j],
                    now,
                ),
        decreases i,
    {
        i -= 1;
        let id = ids.pop().unwrap();
        let a = &active[i];
        let child = LinkedSource {
            id,
            link_id: link.id.clone(),
            source_type: a.source_type,
            source_id: a.source_id.clone(),
            contribution_type: infer_contribution_type(&a.source_type, a.relevance),
            timestamp: now,
        };
        rev.push(child);
        proof {
            assert(ids@ =~= all_ids.take(i as int));
        }
    }
    let mut k: usize = n;
    while k > 0
        invariant
            k <= n,
            n == active@.len(),
            rev@.len() == k,
            sources@.len() == n - k,
            forall|j: int|
                0 <= j < k ==> is_child_of(
                    #[trigger] rev@[j],
                    active@[n - 1 - j],
                    link.id@,
                    all_ids[n - 1 - j],
                    now,
                ),
            forall|j: int|
                0 <= j < n - k ==> is_child_of(#[trigger] sources@[j], active@[j], link.id@, all_ids[j], now),
        decreases k,
    {
        let child = rev.pop().unwrap();
        k -= 1;
        sources.push(child);
    }
    SourceLinkWithSources { link, sources }
}

/// The mean relevance of `active`, as a link records it.
pub open spec fn confidence_of(active: Seq<ActiveSourceEntry>) -> MeanRelevance {
    MeanRelevance { total: total_relevance(active) as u128, count: active.len() as usize }
}

/// The confidence of a link lies between `0.0` and `1.0`, and it is zero
/// exactly when no source was linked, provided that every source of the
/// snapshot is at least as relevant as linking asks and no more than fully
/// relevant, and that there are no more of them than the registry tracks.
pub proof fn lemma_confidence_bounds(active: Seq<ActiveSourceEntry>)
    requires
        active.len() <= MAX_ACTIVE_SOURCES,
        forall|i: int|
            0 <= i < active.len() ==> MIN_RELEVANCE_THRESHOLD <= (#[trigger] active[i]).relevance
                <= FULL_RELEVANCE,
    ensures
        MIN_RELEVANCE_THRESHOLD * active.len() <= total_relevance(active) <= FULL_RELEVANCE * active.len(),
        confidence_of(active).in_unit_range(),
        confidence_of(active).is_zero() <==> active.len() == 0,
    decreases active.len(),
{
    if active.len() > 0 {
        let front = active.drop_last();
        assert forall|i: int| 0 <= i < front.len() implies MIN_RELEVANCE_THRESHOLD <= (#[trigger] front[i]).relevance
            <= FULL_RELEVANCE by {
            assert(front[i] == active[i]);
        }
        lemma_confidence_bounds(front);
    }
}

/// The confidence of the link made at `now` over a registry lies between
/// `0.0` and `1.0`, and it is zero exactly when no source is linked,
/// provided that the registry is within its bounds and that no source of it
/// was activated after `now`.
pub proof fn lemma_snapshot_confidence(registry: Seq<ActiveSourceEntry>, now: i64)
    requires
        registry.len() <= MAX_ACTIVE_SOURCES,
        forall|i: int| 0 <= i < registry.len() ==> (#[trigger] registry[i]).activated_at <= now,
    ensures
        ({
            let active = decayed(registry, now as int).filter(at_least(MIN_RELEVANCE_THRESHOLD));
            &&& confidence_of(active).in_unit_range()
            &&& confidence_of(active).is_zero() <==> active.len() == 0
        }),
{
    let d = decayed(registry, now as int);
    let active = d.filter(at_least(MIN_RELEVANCE_THRESHOLD));
    let any = |a: ActiveSourceEntry, b: ActiveSourceEntry| true;
    assert forall|i: int, j: int| 0 <= i < j < d.len() implies #[trigger] any(d[i], d[j]) by {}
    crate::vecs::lemma_filter_keeps_pairwise(d, at_least(MIN_RELEVANCE_THRESHOLD), any);
    d.lemma_filter_len(at_least(MIN_RELEVANCE_THRESHOLD));
    assert forall|i: int| 0 <= i < active.len() implies MIN_RELEVANCE_THRESHOLD <= (#[trigger] active[i]).relevance
        <= FULL_RELEVANCE by {
        assert(active.contains(active[i]));
        assert(d.contains(active[i]) && at_least(MIN_RELEVANCE_THRESHOLD)(active[i]));
        let q = choose|q: int| 0 <= q < d.len() && d[q] == active[i];
        crate::relevance::lemma_decay_bounded(registry[q].activated_at as int, now as int);
    }
    lemma_confidence_bounds(active);
}

/// Whether the names `ids` are free for new children beside `children`:
/// none is the name of one of `children`, nor of a name before it.
pub open spec fn fresh_names(children: Seq<LinkedSource>, ids: Seq<String>) -> bool {
    forall|i: int|
        0 <= i < ids.len() ==> {
            &&& !names_child(children, (#[trigger] ids[i])@)
            &&& forall|j: int| 0 <= j < i ==> (#[trigger] ids[j])@ != ids[i]@
        }
}

/// Whether `after` is `before` with the link `out` and its children
/// written, and nothing else changed.
pub open spec fn links_stored(before: Database, after: Database, out: SourceLinkWithSources) -> bool {
    &&& after.source_links@ == before.source_links@.push(out.link)
    &&& after.linked_sources@ == before.linked_sources@ + out.sources@
    &&& after == (Database { source_links: after.source_links, linked_sources: after.linked_sources, ..before })
}

/// A link built for a snapshot can join the tables exactly when its name is
/// not taken and the names of its children are free.
pub proof fn lemma_built_link_admissible(
    db: Database,
    input: CreateSourceLinkInput,
    active: Seq<ActiveSourceEntry>,
    now: i64,
    link_id: String,
    ids: Seq<String>,
    out: SourceLinkWithSources,
)
    requires
        ids.len() == active.len(),
        is_link_for(input, active, now, link_id, ids, out),
    ensures
        admissible(db.source_links@.push(out.link), db.linked_sources@, out.sources@) <==> fresh_names(
            db.linked_sources@,
            ids,
        ),
{
    let links = db.source_links@.push(out.link);
    let children = db.linked_sources@;
    let batch = out.sources@;
    assert forall|i: int| 0 <= i < batch.len() implies names_link(links, (#[trigger] batch[i]).link_id@) by {
        assert(links[links.len() - 1].id@ == batch[i].link_id@);
    }
    assert forall|i: int| 0 <= i < batch.len() implies (names_child(children + batch.take(i), batch[i].id@) <==> (
    names_child(children, ids[i]@) || exists|j: int| 0 <= j < i && (#[trigger] ids[j])@ == ids[i]@)) by {
        let all = children + batch.take(i);
        assert(batch[i].id == ids[i]);
        if names_child(all, batch[i].id@) {
            let w = choose|w: int| 0 <= w < all.len() && (#[trigger] all[w]).id@ == batch[i].id@;
            if w < children.len() {
                assert(children[w].id@ == ids[i]@);
            } else {
                let j = w - children.len();
                assert(batch[j].id == ids[j]);
                assert(ids[j]@ == ids[i]@);
            }
        }
        if names_child(children, ids[i]@) {
            let w = choose|w: int| 0 <= w < children.len() && (#[trigger] children[w]).id@ == ids[i]@;
            assert(all[w].id@ == batch[i].id@);
        }
        if exists|j: int| 0 <= j < i && (#[trigger] ids[j])@ == ids[i]@ {
            let j = choose|j: int| 0 <= j < i && (#[trigger] ids[j])@ == ids[i]@;
            assert(batch[j].id == ids[j]);
            assert(all[children.len() + j].id@ == batch[i].id@);
        }
    }
    if fresh_names(children, ids) {
        assert forall|i: int| 0 <= i < batch.len() implies !names_child(
            children + batch.take(i),
            (#[trigger] batch[i]).id@,
        ) by {
            assert(!names_child(children, ids[i]@));
        }
    }
    if admissible(links, children, batch) {
        assert forall|i: int| 0 <= i < ids.len() implies {
            &&& !names_child(children, (#[trigger] ids[i])@)
            &&& forall|j: int| 0 <= j < i ==> (#[trigger] ids[j])@ != ids[i]@
        } by {
            assert(!names_child(children + batch.take(i), batch[i].id@));
        }
    }
}

/// Builds the link for `input` over the snapshot `active` and writes it,
/// with its children, to `db`, all or nothing. It is refused, and `db` left
/// as it was, exactly when the link's name is taken or a child's name is
/// not free.
pub fn commit_link(
    db: &mut Database,
    input: &CreateSourceLinkInput,
    active: &Vec<ActiveSourceEntry>,
    now: i64,
    link_id: String,
    ids: Vec<String>,
) -> (r: Result<SourceLinkWithSources, DbError>)
    requires
        ids@.len() == active@.len(),
    ensures
        r is Ok <==> !names_link(old(db).source_links@, link_id@) && fresh_names(old(db).linked_sources@, ids@),
        match r {
            Ok(out) => is_link_for(*input, active@, now, link_id, ids@, out) && links_stored(
                *old(db),
                *final(db),
                out,
            ),
            Err(e) => e == DbError::Constraint && *final(db) == *old(db),
        },
        old(db).links_wf() ==> final(db).links_wf(),
{
    let out = build_source_link(input, active, now, link_id, ids);
    proof {
        lemma_built_link_admissible(*db, *input, active@, now, link_id, ids@, out);
    }
    match db.store_link(&out) {
        Ok(_) => Ok(out),
        Err(e) => Err(e),
    }
}

/// As many fresh names as asked for.
fn fresh_ids(n: usize) -> (ids: Vec<String>)
    ensures
        ids@.len() == n,
{
    let mut ids: Vec<String> = Vec::new();
    let mut i: usize = 0;
    while i < n
        invariant
            i <= n,
            ids@.len() == i,
        decreases n - i,
    {
        ids.push(fresh_id());
        i += 1;
    }
    ids
}

/// Connects written content to the sources that are active when it is
/// committed.
pub struct SourceLinker {
    pub tracker: ActiveSourceTracker,
    pub db: Database,
}

/// Whether `after` and `r` are what linking `input` at `now` makes of
/// `before`, the link named `link_id` and its children by `ids`: the
/// registry is recomputed for `now`; the snapshot is what of it is at least
/// `MIN_RELEVANCE_THRESHOLD` relevant; the link over it is written unless a
/// name is taken, in which case the store is as it was.
pub open spec fn is_linking(
    before: SourceLinker,
    input: CreateSourceLinkInput,
    now: i64,
    link_id: String,
    ids: Seq<String>,
    after: SourceLinker,
    r: Result<SourceLinkWithSources, DbError>,
) -> bool {
    let active = decayed(before.tracker@, now as int).filter(at_least(MIN_RELEVANCE_THRESHOLD));
    &&& after.tracker@ == decayed(before.tracker@, now as int)
    &&& ids.len() == active.len()
    &&& r is Ok <==> !names_link(before.db.source_links@, link_id@) && fresh_names(
        before.db.linked_sources@,
        ids,
    )
    &&& match r {
        Ok(out) => is_link_for(input, active, now, link_id, ids, out) && links_stored(before.db, after.db, out),
        Err(e) => e == DbError::Constraint && after.db == before.db,
    }
}

impl SourceLinker {
    pub fn new(tracker: ActiveSourceTracker, db: Database) -> (r: Self)
        ensures
            r.tracker == tracker,
            r.db == db,
    {
        SourceLinker { tracker, db }
    }

    /// Links `input` at the instant `now`: recomputes the registry for
    /// `now`, takes as snapshot the sources that are at least
    /// `MIN_RELEVANCE_THRESHOLD` relevant, and commits the link built over
    /// it, named `link_id`; `names` gives the names of the children, as many
    /// as the registry tracks at most being enough.
    pub fn create_source_link_at(
        &mut self,
        input: &CreateSourceLinkInput,
        now: i64,
        link_id: String,
        names: Vec<String>,
    ) -> (r: Result<SourceLinkWithSources, DbError>)
        requires
            names@.len() >= old(self).tracker@.len(),
        ensures
            is_linking(
                *old(self),
                *input,
                now,
                link_id,
                names@.take(
                    decayed(old(self).tracker@, now as int).filter(at_least(MIN_RELEVANCE_THRESHOLD)).len() as int,
                ),
                *final(self),
                r,
            ),
    {
        let active = self.tracker.get_active_sources_at(Some(MIN_RELEVANCE_THRESHOLD), now);
        proof {
            self.tracker@.lemma_filter_len(at_least(MIN_RELEVANCE_THRESHOLD));
        }
        let mut ids = names;
        ids.truncate(active.len());
        proof {
            assert(ids@ =~= names@.take(active@.len() as int));
        }
        commit_link(&mut self.db, input, &active, now, link_id, ids)
    }

    /// Links `input` at the instant the clock gives, under fresh names.
    pub fn create_source_link(&mut self, input: &CreateSourceLinkInput) -> (r: Result<SourceLinkWithSources, DbError>)
        ensures
            exists|now: i64, link_id: String, ids: Seq<String>|
                is_linking(*old(self), *input, now, link_id, ids, *final(self), r),
    {
        let now = now_millis();
        let link_id = fresh_id();
        let names = fresh_ids(self.tracker.count());
        let ghost n = self.tracker@.len();
        let ghost before = self.tracker@;
        let r = self.create_source_link_at(input, now, link_id, names);
        proof {
            let active = decayed(before, now as int).filter(at_least(MIN_RELEVANCE_THRESHOLD));
            let ids = names@.take(active.len() as int);
            decayed(before, now as int).lemma_filter_len(at_least(MIN_RELEVANCE_THRESHOLD));
            assert(ids.len() == active.len());
            assert(is_linking(*old(self), *input, now, link_id, ids, *self, r));
        }
        r
    }

    /// Every link written for the document `doc_id`, newest first, each
    /// with its children.
    pub fn get_document_provenance(&self, doc_id: &str) -> (r: Result<Vec<SourceLinkWithSources>, DbError>)
        ensures
            r is Ok,
            ({
                let sel = crate::vecs::newest_first(
                    self.db.source_links@.filter(crate::link_store::of_doc(doc_id@)),
                    crate::link_store::link_instant(),
                );
                let out = r->Ok_0@;
                &&& out.len() == sel.len()
                &&& forall|i: int|
                    0 <= i < out.len() ==> (#[trigger] out[i]).link == sel[i] && out[i].sources@
                        == self.db.linked_sources@.filter(crate::link_store::under(sel[i].id@))
            }),
    {
        self.db.get_document_source_links(doc_id)
    }
}

} // verus!
