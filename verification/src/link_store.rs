//! The tables of source links and of their children: a child always belongs
//! to a stored link, and leaves with it.

use vstd::prelude::*;
use crate::database::{Database, DbError};
use crate::linker::{SourceLink, SourceLinkWithSources};
use crate::text::{copy_opt, same_text};
use crate::types::LinkedSource;
use crate::vecs::{copy_where, lemma_filter_keeps_pairwise, newest_first, retain_by, sort_newest_first};

verus! {

/// Whether a link named `id` is among `links`.
pub open spec fn names_link(links: Seq<SourceLink>, id: Seq<char>) -> bool {
    exists|i: int| 0 <= i < links.len() && (#[trigger] links[i]).id@ == id
}

/// Whether a child named `id` is among `children`.
pub open spec fn names_child(children: Seq<LinkedSource>, id: Seq<char>) -> bool {
    exists|i: int| 0 <= i < children.len() && (#[trigger] children[i]).id@ == id
}

/// Whether the children `batch` can join `children` under `links`: each
/// belongs to a link that is there, and none has the name of a child that
/// is there or that precedes it in the batch.
pub open spec fn admissible(links: Seq<SourceLink>, children: Seq<LinkedSource>, batch: Seq<LinkedSource>) -> bool {
    forall|i: int|
        0 <= i < batch.len() ==> {
            &&& names_link(links, (#[trigger] batch[i]).link_id@)
            &&& !names_child(children + batch.take(i), batch[i].id@)
        }
}

/// No two links have one name, no two children have one name, and every
/// child belongs to a link that is there.
pub open spec fn links_consistent(links: Seq<SourceLink>, children: Seq<LinkedSource>) -> bool {
    &&& forall|i: int, j: int| 0 <= i < j < links.len() ==> (#[trigger] links[i]).id@ != (#[trigger] links[j]).id@
    &&& forall|i: int, j: int|
        0 <= i < j < children.len() ==> (#[trigger] children[i]).id@ != (#[trigger] children[j]).id@
    &&& forall|i: int| 0 <= i < children.len() ==> names_link(links, (#[trigger] children[i]).link_id@)
}

/// The test "written for the document `doc_id`".
pub open spec fn of_doc(doc_id: Seq<char>) -> spec_fn(SourceLink) -> bool {
    |l: SourceLink| l.doc_id@ == doc_id
}

/// The test "named otherwise than `id`".
pub open spec fn link_other_than(id: Seq<char>) -> spec_fn(SourceLink) -> bool {
    |l: SourceLink| l.id@ != id
}

/// The test "belongs to the link `link_id`".
pub open spec fn under(link_id: Seq<char>) -> spec_fn(LinkedSource) -> bool {
    |c: LinkedSource| c.link_id@ == link_id
}

/// The test "belongs to another link than `link_id`".
pub open spec fn not_under(link_id: Seq<char>) -> spec_fn(LinkedSource) -> bool {
    |c: LinkedSource| c.link_id@ != link_id
}

/// When a link was made.
pub open spec fn link_instant() -> spec_fn(SourceLink) -> int {
    |l: SourceLink| l.created_at as int
}

/// A copy of `l`, equal to it.
pub fn copy_link(l: &SourceLink) -> (r: SourceLink)
    ensures
        r == *l,
{
    SourceLink {
        id: l.id.clone(),
        doc_id: l.doc_id.clone(),
        section_path: copy_opt(&l.section_path),
        content_hash: l.content_hash.clone(),
        content_preview: copy_opt(&l.content_preview),
        created_at: l.created_at,
        confidence_score: l.confidence_score,
    }
}

/// A copy of `c`, equal to it.
pub fn copy_child(c: &LinkedSource) -> (r: LinkedSource)
    ensures
        r == *c,
{
    LinkedSource {
        id: c.id.clone(),
        link_id: c.link_id.clone(),
        source_type: c.source_type,
        source_id: c.source_id.clone(),
        contribution_type: c.contribution_type,
        timestamp: c.timestamp,
    }
}

/// Whether a link named `id` is among `links`.
fn has_link(links: &Vec<SourceLink>, id: &str) -> (r: bool)
    ensures
        r == names_link(links@, id@),
{
    let mut i: usize = 0;
    while i < links.len()
        invariant
            i <= links@.len(),
            forall|j: int| 0 <= j < i ==> (#[trigger] links@[j]).id@ != id@,
        decreases links@.len() - i,
    {
        if same_text(links[i].id.as_str(), id) {
            return true;
        }
        i += 1;
    }
    false
}

/// Whether a child named `id` is among `children`.
fn has_child(children: &Vec<LinkedSource>, id: &str) -> (r: bool)
    ensures
        r == names_child(children@, id@),
{
    let mut i: usize = 0;
    while i < children.len()
        invariant
            i <= children@.len(),
            forall|j: int| 0 <= j < i ==> (#[trigger] children@[j]).id@ != id@,
        decreases children@.len() - i,
    {
        if same_text(children[i].id.as_str(), id) {
            return true;
        }
        i += 1;
    }
    false
}

/// Children that are admissible join consistent tables without making
/// them inconsistent.
pub proof fn lemma_admissible_keeps_consistent(
    links: Seq<SourceLink>,
    children: Seq<LinkedSource>,
    batch: Seq<LinkedSource>,
)
    requires
        links_consistent(links, children),
        admissible(links, children, batch),
    ensures
        links_consistent(links, children + batch),
{
    let all = children + batch;
    assert forall|i: int, j: int| 0 <= i < j < all.len() implies (#[trigger] all[i]).id@ != (#[trigger] all[j]).id@ by {
        if j >= children.len() {
            let k = j - children.len();
            assert(!names_child(children + batch.take(k), batch[k].id@));
            assert((children + batch.take(k))[i] == all[i]);
        }
    }
    assert forall|i: int| 0 <= i < all.len() implies names_link(links, (#[trigger] all[i]).link_id@) by {
        if i >= children.len() {
            assert(names_link(links, batch[i - children.len()].link_id@));
        }
    }
}

/// The cascade: when the link named `id` is deleted from consistent
/// tables, the children that go are exactly the children of that link, the
/// links that go are exactly those of that name, and what stays is
/// consistent.
pub proof fn lemma_cascade(links: Seq<SourceLink>, children: Seq<LinkedSource>, id: Seq<char>)
    requires
        links_consistent(links, children),
    ensures
        forall|c: LinkedSource|
            children.filter(not_under(id)).contains(c) <==> children.contains(c) && c.link_id@ != id,
        forall|l: SourceLink| links.filter(link_other_than(id)).contains(l) <==> links.contains(l) && l.id@ != id,
        links_consistent(links.filter(link_other_than(id)), children.filter(not_under(id))),
{
    let kept_links = links.filter(link_other_than(id));
    let kept = children.filter(not_under(id));
    let apart = |a: SourceLink, b: SourceLink| a.id@ != b.id@;
    let distinct = |a: LinkedSource, b: LinkedSource| a.id@ != b.id@;
    assert forall|i: int, j: int| 0 <= i < j < links.len() implies #[trigger] apart(links[i], links[j]) by {}
    assert forall|i: int, j: int| 0 <= i < j < children.len() implies #[trigger] distinct(
        children[i],
        children[j],
    ) by {}
    lemma_filter_keeps_pairwise(links, link_other_than(id), apart);
    lemma_filter_keeps_pairwise(children, not_under(id), distinct);
    assert forall|i: int, j: int| 0 <= i < j < kept_links.len() implies (#[trigger] kept_links[i]).id@ != (
    #[trigger] kept_links[j]).id@ by {
        assert(apart(kept_links[i], kept_links[j]));
    }
    assert forall|i: int, j: int| 0 <= i < j < kept.len() implies (#[trigger] kept[i]).id@ != (#[trigger] kept[j]).id@ by {
        assert(distinct(kept[i], kept[j]));
    }
    assert forall|i: int| 0 <= i < kept.len() implies names_link(kept_links, (#[trigger] kept[i]).link_id@) by {
        let c = kept[i];
        assert(kept.contains(c));
        assert(children.contains(c) && c.link_id@ != id);
        let q = choose|q: int| 0 <= q < children.len() && children[q] == c;
        assert(names_link(links, children[q].link_id@));
        let w = choose|w: int| 0 <= w < links.len() && (#[trigger] links[w]).id@ == c.link_id@;
        assert(links.contains(links[w]));
        assert(kept_links.contains(links[w]));
        let m = choose|m: int| 0 <= m < kept_links.len() && kept_links[m] == links[w];
        assert(kept_links[m].id@ == c.link_id@);
    }
}

impl Database {
    /// The links and their children are consistent with each other.
    pub open spec fn links_wf(&self) -> bool {
        links_consistent(self.source_links@, self.linked_sources@)
    }

    /// Stores a link. A link with the name of a stored link is refused, and
    /// nothing changes.
    pub fn create_source_link(&mut self, link: &SourceLink) -> (r: Result<(), DbError>)
        ensures
            match r {
                Ok(_) => {
                    &&& !names_link(old(self).source_links@, link.id@)
                    &&& final(self).source_links@ == old(self).source_links@.push(*link)
                    &&& *final(self) == (Database { source_links: final(self).source_links, ..*old(self) })
                },
                Err(e) => {
                    &&& e == DbError::Constraint
                    &&& names_link(old(self).source_links@, link.id@)
                    &&& *final(self) == *old(self)
                },
            },
            old(self).links_wf() ==> final(self).links_wf(),
    {
        if has_link(&self.source_links, link.id.as_str()) {
            return Err(DbError::Constraint);
        }
        self.source_links.push(copy_link(link));
        proof {
            if old(self).links_wf() {
                let links = old(self).source_links@;
                let fin = self.source_links@;
                assert forall|i: int| 0 <= i < self.linked_sources@.len() implies names_link(
                    fin,
                    (#[trigger] self.linked_sources@[i]).link_id@,
                ) by {
                    let id = self.linked_sources@[i].link_id@;
                    let w = choose|w: int| 0 <= w < links.len() && (#[trigger] links[w]).id@ == id;
                    assert(fin[w].id@ == id);
                }
            }
        }
        Ok(())
    }

    /// Whether the children `batch` can join the stored ones, under the
    /// stored links and the one named `extra`, if there is one.
    fn admits(&self, extra: Option<&str>, batch: &[LinkedSource]) -> (r: bool)
        ensures
            match extra {
                None => r == admissible(self.source_links@, self.linked_sources@, batch@),
                Some(id) => forall|l: SourceLink|
                    l.id@ == id@ ==> r == admissible(
                        self.source_links@.push(l),
                        self.linked_sources@,
                        batch@,
                    ),
            },
    {
        let n = batch.len();
        let mut i: usize = 0;
        while i < n
            invariant
                i <= n,
                n == batch@.len(),
                match extra {
                    None => admissible(self.source_links@, self.linked_sources@, batch@.take(i as int)),
                    Some(id) => forall|l: SourceLink|
                        l.id@ == id@ ==> admissible(
                            self.source_links@.push(l),
                            self.linked_sources@,
                            batch@.take(i as int),
                        ),
                },
            decreases n - i,
        {
            let c = &batch[i];
            let linked = has_link(&self.source_links, c.link_id.as_str()) || match extra {
                Some(id) => same_text(c.link_id.as_str(), id),
                None => false,
            };
            let mut fresh = !has_child(&self.linked_sources, c.id.as_str());
            let mut j: usize = 0;
            while j < i
                invariant
                    j <= i,
                    i < n,
                    n == batch@.len(),
                    *c == batch@[i as int],
                    fresh == (!names_child(self.linked_sources@, batch@[i as int].id@) && forall|k: int|
                        0 <= k < j ==> (#[trigger] batch@[k]).id@ != batch@[i as int].id@),
                decreases i - j,
            {
                if same_text(batch[j].id.as_str(), c.id.as_str()) {
                    assert(batch@[j as int].id@ == batch@[i as int].id@);
                    fresh = false;
                }
                j += 1;
            }
            proof {
                let t = batch@.take(i as int);
                let all = self.linked_sources@ + t;
                if fresh {
                    assert(!names_child(all, c.id@)) by {
                        if names_child(all, c.id@) {
                            let w = choose|w: int| 0 <= w < all.len() && (#[trigger] all[w]).id@ == c.id@;
                            if w < self.linked_sources@.len() {
                                assert(self.linked_sources@[w].id@ == c.id@);
                            } else {
                                assert(batch@[w - self.linked_sources@.len()].id@ == c.id@);
                            }
                        }
                    }
                } else {
                    if !names_child(self.linked_sources@, c.id@) {
                        let k = choose|k: int| 0 <= k < i && (#[trigger] batch@[k]).id@ == c.id@;
                        assert(all[self.linked_sources@.len() + k].id@ == c.id@);
                    } else {
                        let w = choose|w: int|
                            0 <= w < self.linked_sources@.len() && (#[trigger] self.linked_sources@[w]).id@
                                == c.id@;
                        assert(all[w].id@ == c.id@);
                    }
                    assert(names_child(all, c.id@));
                }
                match extra {
                    None => {},
                    Some(id) => {
                        assert forall|l: SourceLink| l.id@ == id@ implies linked == names_link(
                            self.source_links@.push(l),
                            c.link_id@,
                        ) by {
                            let ls = self.source_links@.push(l);
                            if names_link(self.source_links@, c.link_id@) {
                                let w = choose|w: int|
                                    0 <= w < self.source_links@.len() && (#[trigger] self.source_links@[w]).id@
                                        == c.link_id@;
                                assert(ls[w].id@ == c.link_id@);
                            } else if c.link_id@ == id@ {
                                assert(ls[ls.len() - 1].id@ == c.link_id@);
                            } else {
                                if names_link(ls, c.link_id@) {
                                    let w = choose|w: int| 0 <= w < ls.len() && (#[trigger] ls[w]).id@ == c.link_id@;
                                    if w < self.source_links@.len() {
                                        assert(self.source_links@[w].id@ == c.link_id@);
                                    }
                                }
                            }
                        }
                    },
                }
            }
            if !(linked && fresh) {
                proof {
                    match extra {
                        None => {
                            if admissible(self.source_links@, self.linked_sources@, batch@) {
                                assert(names_link(self.source_links@, batch@[i as int].link_id@));
                                assert(!names_child(
                                    self.linked_sources@ + batch@.take(i as int),
                                    batch@[i as int].id@,
                                ));
                            }
                        },
                        Some(id) => {
                            assert forall|l: SourceLink| l.id@ == id@ implies !admissible(
                                self.source_links@.push(l),
                                self.linked_sources@,
                                batch@,
                            ) by {
                                if admissible(self.source_links@.push(l), self.linked_sources@, batch@) {
                                    assert(names_link(self.source_links@.push(l), batch@[i as int].link_id@));
                                    assert(!names_child(
                                        self.linked_sources@ + batch@.take(i as int),
                                        batch@[i as int].id@,
                                    ));
                                }
                            }
                        },
                    }
                }
                return false;
            }
            proof {
                let t = batch@.take(i + 1);
                assert forall|k: int| 0 <= k < t.len() implies t.take(k) == batch@.take(i as int).take(k) || k
                    == i by {
                    if k < i {
                        assert(t.take(k) =~= batch@.take(i as int).take(k));
                    }
                }
                assert(t.take(i as int) =~= batch@.take(i as int));
                match extra {
                    None => {
                        assert forall|k: int| 0 <= k < t.len() implies {
                            &&& names_link(self.source_links@, (#[trigger] t[k]).link_id@)
                            &&& !names_child(self.linked_sources@ + t.take(k), t[k].id@)
                        } by {
                            if k < i {
                                assert(t[k] == batch@.take(i as int)[k]);
                                assert(t.take(k) =~= batch@.take(i as int).take(k));
                            }
                        }
                    },
                    Some(id) => {
                        assert forall|l: SourceLink| l.id@ == id@ implies admissible(
                            self.source_links@.push(l),
                            self.linked_sources@,
                            t,
                        ) by {
                            assert(admissible(
                                self.source_links@.push(l),
                                self.linked_sources@,
                                batch@.take(i as int),
                            ));
                            assert forall|k: int| 0 <= k < t.len() implies {
                                &&& names_link(self.source_links@.push(l), (#[trigger] t[k]).link_id@)
                                &&& !names_child(self.linked_sources@ + t.take(k), t[k].id@)
                            } by {
                                if k < i {
                                    assert(t[k] == batch@.take(i as int)[k]);
                                    assert(t.take(k) =~= batch@.take(i as int).take(k));
                                }
                            }
                        }
                    },
                }
            }
            i += 1;
        }
        proof {
            assert(batch@.take(n as int) =~= batch@);
        }
        true
    }

    /// Appends a copy of each child of `batch`.
    fn append_children(&mut self, batch: &[LinkedSource])
        ensures
            final(self).linked_sources@ == old(self).linked_sources@ + batch@,
            *final(self) == (Database { linked_sources: final(self).linked_sources, ..*old(self) }),
    {
        let n = batch.len();
        let mut i: usize = 0;
        proof {
            assert(self.linked_sources@ =~= old(self).linked_sources@ + batch@.take(0));
        }
        while i < n
            invariant
                i <= n,
                n == batch@.len(),
                self.linked_sources@ == old(self).linked_sources@ + batch@.take(i as int),
                *self == (Database { linked_sources: self.linked_sources, ..*old(self) }),
            decreases n - i,
        {
            self.linked_sources.push(copy_child(&batch[i]));
            proof {
                assert(old(self).linked_sources@ + batch@.take(i + 1) =~= (old(self).linked_sources@
                    + batch@.take(i as int)).push(batch@[i as int]));
            }
            i += 1;
        }
        proof {
            assert(batch@.take(n as int) =~= batch@);
        }
    }

    /// Stores a batch of children, all of them or none. The batch is refused
    /// unless it is `admissible`.
    pub fn add_linked_sources(&mut self, sources: &[LinkedSource]) -> (r: Result<(), DbError>)
        ensures
            match r {
                Ok(_) => {
                    &&& admissible(old(self).source_links@, old(self).linked_sources@, sources@)
                    &&& final(self).linked_sources@ == old(self).linked_sources@ + sources@
                    &&& *final(self) == (Database { linked_sources: final(self).linked_sources, ..*old(self) })
                },
                Err(e) => {
                    &&& e == DbError::Constraint
                    &&& !admissible(old(self).source_links@, old(self).linked_sources@, sources@)
                    &&& *final(self) == *old(self)
                },
            },
            old(self).links_wf() ==> final(self).links_wf(),
    {
        if !self.admits(None, sources) {
            return Err(DbError::Constraint);
        }
        self.append_children(sources);
        proof {
            if old(self).links_wf() {
                lemma_admissible_keeps_consistent(old(self).source_links@, old(self).linked_sources@, sources@);
            }
        }
        Ok(())
    }

    /// Stores a link together with its children, all or nothing: if the
    /// link or any child is refused, the store is as it was.
    pub fn store_link(&mut self, bundle: &SourceLinkWithSources) -> (r: Result<(), DbError>)
        ensures
            match r {
                Ok(_) => {
                    &&& !names_link(old(self).source_links@, bundle.link.id@)
                    &&& admissible(
                        old(self).source_links@.push(bundle.link),
                        old(self).linked_sources@,
                        bundle.sources@,
                    )
                    &&& final(self).source_links@ == old(self).source_links@.push(bundle.link)
                    &&& final(self).linked_sources@ == old(self).linked_sources@ + bundle.sources@
                    &&& *final(self) == (Database {
                        source_links: final(self).source_links,
                        linked_sources: final(self).linked_sources,
                        ..*old(self)
                    })
                },
                Err(e) => {
                    &&& e == DbError::Constraint
                    &&& names_link(old(self).source_links@, bundle.link.id@) || !admissible(
                        old(self).source_links@.push(bundle.link),
                        old(self).linked_sources@,
                        bundle.sources@,
                    )
                    &&& *final(self) == *old(self)
                },
            },
            old(self).links_wf() ==> final(self).links_wf(),
    {
        if has_link(&self.source_links, bundle.link.id.as_str()) {
            return Err(DbError::Constraint);
        }
        if !self.admits(Some(bundle.link.id.as_str()), bundle.sources.as_slice()) {
            return Err(DbError::Constraint);
        }
        match self.create_source_link(&bundle.link) {
            Ok(_) => {},
            Err(e) => {
                return Err(e);
            },
        }
        self.append_children(bundle.sources.as_slice());
        proof {
            if old(self).links_wf() {
                lemma_admissible_keeps_consistent(
                    old(self).source_links@.push(bundle.link),
                    old(self).linked_sources@,
                    bundle.sources@,
                );
            }
        }
        Ok(())
    }

    /// The links written for the document `doc_id`, newest first, each with
    /// its children in the order in which they were stored.
    pub fn get_document_source_links(&self, doc_id: &str) -> (r: Result<Vec<SourceLinkWithSources>, DbError>)
        ensures
            r is Ok,
            ({
                let sel = newest_first(self.source_links@.filter(of_doc(doc_id@)), link_instant());
                let out = r->Ok_0@;
                &&& out.len() == sel.len()
                &&& forall|i: int|
                    0 <= i < out.len() ==> (#[trigger] out[i]).link == sel[i] && out[i].sources@
                        == self.linked_sources@.filter(under(sel[i].id@))
            }),
    {
        let wanted = |l: &SourceLink| -> (b: bool)
            ensures
                b == (l.doc_id@ == doc_id@),
            { same_text(l.doc_id.as_str(), doc_id) };
        let dup = |l: &SourceLink| -> (c: SourceLink)
            ensures
                c == *l,
            { copy_link(l) };
        let mut links = copy_where(&self.source_links, wanted, dup, Ghost(of_doc(doc_id@)));
        let instant = |l: &SourceLink| -> (t: i64)
            ensures
                t == l.created_at,
            { l.created_at };
        sort_newest_first(&mut links, instant, Ghost(link_instant()));
        let ghost sel = links@;
        let mut out: Vec<SourceLinkWithSources> = Vec::new();
        let n = links.len();
        let mut i: usize = 0;
        while i < n
            invariant
                i <= n,
                n == links@.len(),
                links@ == sel,
                out@.len() == i,
                forall|j: int|
                    0 <= j < i ==> (#[trigger] out@[j]).link == sel[j] && out@[j].sources@
                        == self.linked_sources@.filter(under(sel[j].id@)),
            decreases n - i,
        {
            let link = copy_link(&links[i]);
            let belongs = |c: &LinkedSource| -> (b: bool)
                ensures
                    b == (c.link_id@ == link.id@),
                { same_text(c.link_id.as_str(), link.id.as_str()) };
            let dup_child = |c: &LinkedSource| -> (d: LinkedSource)
                ensures
                    d == *c,
                { copy_child(c) };
            let sources = copy_where(&self.linked_sources, belongs, dup_child, Ghost(under(link.id@)));
            out.push(SourceLinkWithSources { link, sources });
            i += 1;
        }
        Ok(out)
    }

    /// Deletes the link named `id` and, with it, its children and nothing
    /// else. Returns whether there was such a link.
    pub fn delete_source_link(&mut self, id: &str) -> (r: Result<bool, DbError>)
        ensures
            r == Ok::<bool, DbError>(names_link(old(self).source_links@, id@)),
            final(self).source_links@ == old(self).source_links@.filter(link_other_than(id@)),
            final(self).linked_sources@ == old(self).linked_sources@.filter(not_under(id@)),
            *final(self) == (Database {
                source_links: final(self).source_links,
                linked_sources: final(self).linked_sources,
                ..*old(self)
            }),
            old(self).links_wf() ==> final(self).links_wf(),
    {
        let found = has_link(&self.source_links, id);
        let other = |l: &SourceLink| -> (b: bool)
            ensures
                b == (l.id@ != id@),
            { !same_text(l.id.as_str(), id) };
        retain_by(&mut self.source_links, other, Ghost(link_other_than(id@)));
        let elsewhere = |c: &LinkedSource| -> (b: bool)
            ensures
                b == (c.link_id@ != id@),
            { !same_text(c.link_id.as_str(), id) };
        retain_by(&mut self.linked_sources, elsewhere, Ghost(not_under(id@)));
        proof {
            if old(self).links_wf() {
                lemma_cascade(old(self).source_links@, old(self).linked_sources@, id@);
            }
        }
        Ok(found)
    }
}

} // verus!
