//! The capture buffer: one ring buffer for each family of captures, and the
//! guard that keeps the same clipboard content from being captured twice in
//! a row.

use vstd::prelude::*;
use crate::ring::{lemma_pushed_all_members, pushed, restored, RingBuffer};
use crate::text::same_text;
use crate::types::{
    check_leave, leave_fits, AIExchangeCapture, BrowseCapture, ClipboardCapture, DocEditCapture, SearchCapture,
};

verus! {

pub const CLIPBOARD_CAPACITY: usize = 50;

pub const BROWSE_CAPACITY: usize = 100;

pub const SEARCH_CAPACITY: usize = 50;

pub const AI_EXCHANGE_CAPACITY: usize = 20;

pub const DOC_EDIT_CAPACITY: usize = 50;

/// What the rings hold, family by family, oldest first.
pub struct Contents {
    pub clipboard: Seq<ClipboardCapture>,
    pub browse: Seq<BrowseCapture>,
    pub search: Seq<SearchCapture>,
    pub ai_exchange: Seq<AIExchangeCapture>,
    pub doc_edit: Seq<DocEditCapture>,
}

impl Contents {
    /// No family holds anything.
    pub open spec fn is_empty(self) -> bool {
        &&& self.clipboard.len() == 0
        &&& self.browse.len() == 0
        &&& self.search.len() == 0
        &&& self.ai_exchange.len() == 0
        &&& self.doc_edit.len() == 0
    }

    /// How many captures the families hold together.
    pub open spec fn total(self) -> nat {
        self.clipboard.len() + self.browse.len() + self.search.len() + self.ai_exchange.len()
            + self.doc_edit.len()
    }
}

/// Contents with nothing in any family.
pub open spec fn nothing() -> Contents {
    Contents {
        clipboard: Seq::empty(),
        browse: Seq::empty(),
        search: Seq::empty(),
        ai_exchange: Seq::empty(),
        doc_edit: Seq::empty(),
    }
}

/// What a drain leaves in rings that hold `c`, and what it hands out.
pub open spec fn drained(c: Contents) -> (Contents, Contents) {
    (nothing(), c)
}

/// What one drain hands out.
#[derive(Debug)]
pub struct CaptureBufferDrain {
    pub clipboard: Vec<ClipboardCapture>,
    pub browse: Vec<BrowseCapture>,
    pub search: Vec<SearchCapture>,
    pub ai_exchange: Vec<AIExchangeCapture>,
    pub doc_edit: Vec<DocEditCapture>,
}

impl CaptureBufferDrain {
    /// What was drained, family by family.
    pub open spec fn contents(&self) -> Contents {
        Contents {
            clipboard: self.clipboard@,
            browse: self.browse@,
            search: self.search@,
            ai_exchange: self.ai_exchange@,
            doc_edit: self.doc_edit@,
        }
    }

    pub fn is_empty(&self) -> (b: bool)
        ensures
            b == self.contents().is_empty(),
    {
        self.clipboard.len() == 0 && self.browse.len() == 0 && self.search.len() == 0
            && self.ai_exchange.len() == 0 && self.doc_edit.len() == 0
    }

    /// The number of captures drained, over all families.
    pub fn total_count(&self) -> (n: usize)
        requires
            self.contents().total() <= usize::MAX,
        ensures
            n == self.contents().total(),
    {
        self.clipboard.len() + self.browse.len() + self.search.len() + self.ai_exchange.len()
            + self.doc_edit.len()
    }
}

/// How many captures each family holds.
#[derive(Clone, Copy, Debug)]
pub struct CaptureBufferStatus {
    pub clipboard_count: usize,
    pub browse_count: usize,
    pub search_count: usize,
    pub ai_exchange_count: usize,
    pub doc_edit_count: usize,
}

/// The clipboard ring and the guard's slot after `capture` is offered to
/// them, and whether it was taken: it is refused, and nothing changes, if
/// its digest is the one in the slot.
pub open spec fn offered(
    ring: Seq<ClipboardCapture>,
    slot: Option<Seq<char>>,
    cap: nat,
    capture: ClipboardCapture,
) -> (Seq<ClipboardCapture>, Option<Seq<char>>, bool) {
    if slot == Some(capture.content_hash@) {
        (ring, slot, false)
    } else {
        (pushed(ring, cap, capture), Some(capture.content_hash@), true)
    }
}

/// Whether a capture named `id` is among `s`.
pub open spec fn names_search(s: Seq<SearchCapture>, id: Seq<char>) -> bool {
    exists|i: int| 0 <= i < s.len() && (#[trigger] s[i]).id@ == id
}

/// Whether `fin` is `s` with the clicked result filled in on the first
/// search named `id`.
pub open spec fn is_with_click(s: Seq<SearchCapture>, id: Seq<char>, clicked: Seq<char>, fin: Seq<SearchCapture>) -> bool {
    exists|i: int|
        {
            &&& 0 <= i < s.len()
            &&& (#[trigger] s[i]).id@ == id
            &&& forall|j: int| 0 <= j < i ==> (#[trigger] s[j]).id@ != id
            &&& fin.len() == s.len()
            &&& forall|j: int| 0 <= j < s.len() && j != i ==> #[trigger] fin[j] == s[j]
            &&& fin[i].id == s[i].id
            &&& fin[i].query == s[i].query
            &&& fin[i].search_engine == s[i].search_engine
            &&& fin[i].timestamp == s[i].timestamp
            &&& fin[i].result_clicked is Some
            &&& fin[i].result_clicked->0@ == clicked
        }
}

/// Whether leaving can be filled in on a visit named `id` among `s`: there
/// is such a visit, and the first of them was not entered after `left_at`,
/// nor is `scroll_depth` beyond the end of the page.
pub open spec fn can_leave(s: Seq<BrowseCapture>, id: Seq<char>, left_at: i64, scroll_depth: Option<u8>) -> bool {
    exists|i: int|
        {
            &&& 0 <= i < s.len()
            &&& (#[trigger] s[i]).id@ == id
            &&& forall|j: int| 0 <= j < i ==> (#[trigger] s[j]).id@ != id
            &&& leave_fits(s[i].entered_at, Some(left_at), scroll_depth)
        }
}

/// Every visit of `s` is valid.
pub open spec fn visits_valid(s: Seq<BrowseCapture>) -> bool {
    forall|i: int| 0 <= i < s.len() ==> (#[trigger] s[i]).is_valid()
}

/// Every edit of `s` is valid.
pub open spec fn edits_valid(s: Seq<DocEditCapture>) -> bool {
    forall|i: int| 0 <= i < s.len() ==> (#[trigger] s[i]).is_valid()
}

/// Decides whether every visit of a batch is valid.
pub fn check_visits(batch: &[BrowseCapture]) -> (r: bool)
    ensures
        r == visits_valid(batch@),
{
    let n = batch.len();
    let mut i: usize = 0;
    while i < n
        invariant
            i <= n,
            n == batch@.len(),
            forall|j: int| 0 <= j < i ==> (#[trigger] batch@[j]).is_valid(),
        decreases n - i,
    {
        if !check_leave(batch[i].entered_at, batch[i].left_at, batch[i].scroll_depth_percent) {
            assert(!batch@[i as int].is_valid());
            return false;
        }
        i += 1;
    }
    true
}

/// Decides whether every edit of a batch is valid.
pub fn check_edits(batch: &[DocEditCapture]) -> (r: bool)
    ensures
        r == edits_valid(batch@),
{
    let n = batch.len();
    let mut i: usize = 0;
    while i < n
        invariant
            i <= n,
            n == batch@.len(),
            forall|j: int| 0 <= j < i ==> (#[trigger] batch@[j]).is_valid(),
        decreases n - i,
    {
        if batch[i].started_at > batch[i].ended_at {
            assert(!batch@[i as int].is_valid());
            return false;
        }
        i += 1;
    }
    true
}

/// Whether `fin` is `s` with leaving filled in on the first visit named
/// `id`.
pub open spec fn is_with_leave(
    s: Seq<BrowseCapture>,
    id: Seq<char>,
    left_at: i64,
    scroll_depth: Option<u8>,
    fin: Seq<BrowseCapture>,
) -> bool {
    exists|i: int|
        {
            &&& 0 <= i < s.len()
            &&& (#[trigger] s[i]).id@ == id
            &&& forall|j: int| 0 <= j < i ==> (#[trigger] s[j]).id@ != id
            &&& fin == s.update(
                i,
                BrowseCapture { left_at: Some(left_at), scroll_depth_percent: scroll_depth, ..s[i] },
            )
        }
}

/// The bounded buffers of the capture pipeline.
pub struct CaptureBuffer {
    pub clipboard: RingBuffer<ClipboardCapture>,
    pub browse: RingBuffer<BrowseCapture>,
    pub search: RingBuffer<SearchCapture>,
    pub ai_exchange: RingBuffer<AIExchangeCapture>,
    pub doc_edit: RingBuffer<DocEditCapture>,
    /// The digest of the clipboard capture taken last.
    pub last_clipboard_hash: Option<String>,
}

impl CaptureBuffer {
    /// The digest of the clipboard capture taken last, if any was taken
    /// since the buffer was made or cleared.
    pub open spec fn last_digest(&self) -> Option<Seq<char>> {
        match self.last_clipboard_hash {
            Some(h) => Some(h@),
            None => None,
        }
    }

    /// What the rings hold.
    pub open spec fn contents(&self) -> Contents {
        Contents {
            clipboard: self.clipboard@,
            browse: self.browse@,
            search: self.search@,
            ai_exchange: self.ai_exchange@,
            doc_edit: self.doc_edit@,
        }
    }

    /// Every ring has the capacity of its family and holds no more.
    pub open spec fn wf(&self) -> bool {
        &&& self.clipboard.cap() == CLIPBOARD_CAPACITY && self.clipboard@.len() <= CLIPBOARD_CAPACITY
        &&& self.browse.cap() == BROWSE_CAPACITY && self.browse@.len() <= BROWSE_CAPACITY
        &&& self.search.cap() == SEARCH_CAPACITY && self.search@.len() <= SEARCH_CAPACITY
        &&& self.ai_exchange.cap() == AI_EXCHANGE_CAPACITY && self.ai_exchange@.len()
            <= AI_EXCHANGE_CAPACITY
        &&& self.doc_edit.cap() == DOC_EDIT_CAPACITY && self.doc_edit@.len() <= DOC_EDIT_CAPACITY
    }

    /// Every buffered visit and every buffered edit is valid.
    pub open spec fn captures_valid(&self) -> bool {
        visits_valid(self.browse@) && edits_valid(self.doc_edit@)
    }

    pub fn new() -> (r: Self)
        ensures
            r.contents().is_empty(),
            r.last_digest() is None,
            r.wf(),
            r.captures_valid(),
    {
        CaptureBuffer {
            clipboard: RingBuffer::new(CLIPBOARD_CAPACITY),
            browse: RingBuffer::new(BROWSE_CAPACITY),
            search: RingBuffer::new(SEARCH_CAPACITY),
            ai_exchange: RingBuffer::new(AI_EXCHANGE_CAPACITY),
            doc_edit: RingBuffer::new(DOC_EDIT_CAPACITY),
            last_clipboard_hash: None,
        }
    }

    /// Offers a clipboard capture. It is refused, with `false` and nothing
    /// changed, if its digest is that of the capture taken last; otherwise it
    /// is pushed and its digest remembered.
    pub fn push_clipboard(&mut self, capture: ClipboardCapture) -> (taken: bool)
        ensures
            (final(self).clipboard@, final(self).last_digest(), taken) == offered(
                old(self).clipboard@,
                old(self).last_digest(),
                old(self).clipboard.cap(),
                capture,
            ),
            final(self).clipboard.cap() == old(self).clipboard.cap(),
            final(self).browse == old(self).browse,
            final(self).search == old(self).search,
            final(self).ai_exchange == old(self).ai_exchange,
            final(self).doc_edit == old(self).doc_edit,
            old(self).wf() ==> final(self).wf(),
    {
        let duplicate = match &self.last_clipboard_hash {
            Some(h) => same_text(h.as_str(), capture.content_hash.as_str()),
            None => false,
        };
        if duplicate {
            return false;
        }
        self.last_clipboard_hash = Some(capture.content_hash.clone());
        self.clipboard.push(capture);
        true
    }

    /// Pushes a page visit, unless it is not valid: then it is refused and
    /// nothing changes.
    pub fn push_browse(&mut self, capture: BrowseCapture) -> (taken: bool)
        ensures
            taken == capture.is_valid(),
            taken ==> final(self).browse@ == pushed(old(self).browse@, old(self).browse.cap(), capture),
            !taken ==> final(self).browse == old(self).browse,
            final(self).browse.cap() == old(self).browse.cap(),
            final(self).clipboard == old(self).clipboard,
            final(self).search == old(self).search,
            final(self).ai_exchange == old(self).ai_exchange,
            final(self).doc_edit == old(self).doc_edit,
            final(self).last_digest() == old(self).last_digest(),
            old(self).wf() ==> final(self).wf(),
            old(self).captures_valid() ==> final(self).captures_valid(),
    {
        if !check_leave(capture.entered_at, capture.left_at, capture.scroll_depth_percent) {
            return false;
        }
        self.browse.push(capture);
        proof {
            if old(self).captures_valid() {
                let before = old(self).browse@;
                assert forall|i: int| 0 <= i < self.browse@.len() implies (#[trigger] self.browse@[i]).is_valid() by {
                    if i < self.browse@.len() - 1 {
                        if before.len() >= old(self).browse.cap() && before.len() > 0 {
                            assert(self.browse@[i] == before[i + 1]);
                        } else {
                            assert(self.browse@[i] == before[i]);
                        }
                    }
                }
            }
        }
        true
    }

    /// Fills in, on the first buffered visit named `browse_id`, when the
    /// page was left and how far it was scrolled. Returns whether that was
    /// done. It is not done, and nothing changes, if there is no such visit,
    /// if the visit was entered after `left_at`, or if `scroll_depth` is
    /// more than `MAX_SCROLL_DEPTH`.
    pub fn update_browse(&mut self, browse_id: &str, left_at: i64, scroll_depth: Option<u8>) -> (applied: bool)
        ensures
            applied == can_leave(old(self).browse@, browse_id@, left_at, scroll_depth),
            applied ==> is_with_leave(old(self).browse@, browse_id@, left_at, scroll_depth, final(self).browse@),
            !applied ==> final(self).browse == old(self).browse,
            final(self).browse.cap() == old(self).browse.cap(),
            final(self).clipboard == old(self).clipboard,
            final(self).search == old(self).search,
            final(self).ai_exchange == old(self).ai_exchange,
            final(self).doc_edit == old(self).doc_edit,
            final(self).last_digest() == old(self).last_digest(),
            old(self).wf() ==> final(self).wf(),
            old(self).captures_valid() ==> final(self).captures_valid(),
    {
        let n = self.browse.len();
        let mut i: usize = 0;
        while i < n
            invariant
                i <= n,
                n == self.browse@.len(),
                *self == *old(self),
                forall|j: int| 0 <= j < i ==> (#[trigger] self.browse@[j]).id@ != browse_id@,
            decreases n - i,
        {
            if same_text(self.browse.get(i).id.as_str(), browse_id) {
                if !check_leave(self.browse.get(i).entered_at, Some(left_at), scroll_depth) {
                    return false;
                }
                let fill = |c: BrowseCapture| -> (r: BrowseCapture)
                    ensures
                        r == (BrowseCapture { left_at: Some(left_at), scroll_depth_percent: scroll_depth, ..c }),
                    {
                        let mut c = c;
                        c.left_at = Some(left_at);
                        c.scroll_depth_percent = scroll_depth;
                        c
                    };
                self.browse.update_at(i, fill);
                proof {
                    if old(self).captures_valid() {
                        let before = old(self).browse@;
                        assert forall|k: int| 0 <= k < self.browse@.len() implies (#[trigger] self.browse@[k]).is_valid() by {
                            if k != i {
                                assert(self.browse@[k] == before[k]);
                            }
                        }
                    }
                }
                return true;
            }
            i += 1;
        }
        false
    }

    pub fn push_search(&mut self, capture: SearchCapture)
        ensures
            final(self).search@ == pushed(old(self).search@, old(self).search.cap(), capture),
            final(self).search.cap() == old(self).search.cap(),
            final(self).clipboard == old(self).clipboard,
            final(self).browse == old(self).browse,
            final(self).ai_exchange == old(self).ai_exchange,
            final(self).doc_edit == old(self).doc_edit,
            final(self).last_digest() == old(self).last_digest(),
            old(self).wf() ==> final(self).wf(),
    {
        self.search.push(capture);
    }

    /// Fills in, on the first buffered search named `search_id`, the result
    /// that was clicked. Returns whether there was such a search; if not,
    /// nothing changes.
    pub fn update_search_click(&mut self, search_id: &str, clicked_url: &str) -> (found: bool)
        ensures
            found == names_search(old(self).search@, search_id@),
            found ==> is_with_click(old(self).search@, search_id@, clicked_url@, final(self).search@),
            !found ==> final(self).search@ == old(self).search@,
            final(self).search.cap() == old(self).search.cap(),
            final(self).clipboard == old(self).clipboard,
            final(self).browse == old(self).browse,
            final(self).ai_exchange == old(self).ai_exchange,
            final(self).doc_edit == old(self).doc_edit,
            final(self).last_digest() == old(self).last_digest(),
            old(self).wf() ==> final(self).wf(),
    {
        let n = self.search.len();
        let mut i: usize = 0;
        while i < n
            invariant
                i <= n,
                n == self.search@.len(),
                *self == *old(self),
                forall|j: int| 0 <= j < i ==> (#[trigger] self.search@[j]).id@ != search_id@,
            decreases n - i,
        {
            if same_text(self.search.get(i).id.as_str(), search_id) {
                let fill = |c: SearchCapture| -> (r: SearchCapture)
                    ensures
                        r.id == c.id,
                        r.query == c.query,
                        r.search_engine == c.search_engine,
                        r.timestamp == c.timestamp,
                        r.result_clicked is Some,
                        r.result_clicked->0@ == clicked_url@,
                    {
                        let mut c = c;
                        c.result_clicked = Some(String::from_str(clicked_url));
                        c
                    };
                self.search.update_at(i, fill);
                return true;
            }
            i += 1;
        }
        false
    }

    pub fn push_ai_exchange(&mut self, capture: AIExchangeCapture)
        ensures
            final(self).ai_exchange@ == pushed(old(self).ai_exchange@, old(self).ai_exchange.cap(), capture),
            final(self).ai_exchange.cap() == old(self).ai_exchange.cap(),
            final(self).clipboard == old(self).clipboard,
            final(self).browse == old(self).browse,
            final(self).search == old(self).search,
            final(self).doc_edit == old(self).doc_edit,
            final(self).last_digest() == old(self).last_digest(),
            old(self).wf() ==> final(self).wf(),
    {
        self.ai_exchange.push(capture);
    }

    /// Pushes a document edit, unless it ends before it starts: then it is
    /// refused and nothing changes.
    pub fn push_doc_edit(&mut self, capture: DocEditCapture) -> (taken: bool)
        ensures
            taken == capture.is_valid(),
            taken ==> final(self).doc_edit@ == pushed(old(self).doc_edit@, old(self).doc_edit.cap(), capture),
            !taken ==> final(self).doc_edit == old(self).doc_edit,
            final(self).doc_edit.cap() == old(self).doc_edit.cap(),
            final(self).clipboard == old(self).clipboard,
            final(self).browse == old(self).browse,
            final(self).search == old(self).search,
            final(self).ai_exchange == old(self).ai_exchange,
            final(self).last_digest() == old(self).last_digest(),
            old(self).wf() ==> final(self).wf(),
            old(self).captures_valid() ==> final(self).captures_valid(),
    {
        if capture.started_at > capture.ended_at {
            return false;
        }
        self.doc_edit.push(capture);
        proof {
            if old(self).captures_valid() {
                let before = old(self).doc_edit@;
                assert forall|i: int| 0 <= i < self.doc_edit@.len() implies (#[trigger] self.doc_edit@[i]).is_valid() by {
                    if i < self.doc_edit@.len() - 1 {
                        if before.len() >= old(self).doc_edit.cap() && before.len() > 0 {
                            assert(self.doc_edit@[i] == before[i + 1]);
                        } else {
                            assert(self.doc_edit@[i] == before[i]);
                        }
                    }
                }
            }
        }
        true
    }

    /// Hands out what every family holds, each in insertion order, and
    /// leaves every family empty. The guard's slot is left as it is.
    pub fn drain_all(&mut self) -> (out: CaptureBufferDrain)
        ensures
            (final(self).contents(), out.contents()) == drained(old(self).contents()),
            final(self).last_digest() == old(self).last_digest(),
            final(self).clipboard.cap() == old(self).clipboard.cap(),
            final(self).browse.cap() == old(self).browse.cap(),
            final(self).search.cap() == old(self).search.cap(),
            final(self).ai_exchange.cap() == old(self).ai_exchange.cap(),
            final(self).doc_edit.cap() == old(self).doc_edit.cap(),
            old(self).wf() ==> final(self).wf(),
            final(self).captures_valid(),
    {
        let clipboard = self.clipboard.drain_all();
        let browse = self.browse.drain_all();
        let search = self.search.drain_all();
        let ai_exchange = self.ai_exchange.drain_all();
        let doc_edit = self.doc_edit.drain_all();
        assert(self.contents() == nothing());
        CaptureBufferDrain { clipboard, browse, search, ai_exchange, doc_edit }
    }

    /// Takes back what a drain handed out, as when it could not be
    /// written: in every family, what was drained stands again in front of
    /// what has been pushed since, as far as the capacity allows. The
    /// guard's slot is left as it is.
    pub fn restore(&mut self, drain: CaptureBufferDrain)
        ensures
            final(self).clipboard@ == restored(old(self).clipboard@, drain.clipboard@, old(self).clipboard.cap()),
            final(self).browse@ == restored(old(self).browse@, drain.browse@, old(self).browse.cap()),
            final(self).search@ == restored(old(self).search@, drain.search@, old(self).search.cap()),
            final(self).ai_exchange@ == restored(
                old(self).ai_exchange@,
                drain.ai_exchange@,
                old(self).ai_exchange.cap(),
            ),
            final(self).doc_edit@ == restored(old(self).doc_edit@, drain.doc_edit@, old(self).doc_edit.cap()),
            final(self).clipboard.cap() == old(self).clipboard.cap(),
            final(self).browse.cap() == old(self).browse.cap(),
            final(self).search.cap() == old(self).search.cap(),
            final(self).ai_exchange.cap() == old(self).ai_exchange.cap(),
            final(self).doc_edit.cap() == old(self).doc_edit.cap(),
            final(self).last_digest() == old(self).last_digest(),
            old(self).wf() ==> final(self).wf(),
            old(self).captures_valid() && visits_valid(drain.browse@) && edits_valid(drain.doc_edit@)
                ==> final(self).captures_valid(),
    {
        let ghost visits = drain.browse@;
        let ghost edits = drain.doc_edit@;
        self.clipboard.put_back(drain.clipboard);
        self.browse.put_back(drain.browse);
        self.search.put_back(drain.search);
        self.ai_exchange.put_back(drain.ai_exchange);
        self.doc_edit.put_back(drain.doc_edit);
        proof {
            if old(self).wf() {
                crate::ring::lemma_pushes_keep_newest(old(self).clipboard.cap(), drain.clipboard@ + old(self).clipboard@);
                crate::ring::lemma_pushes_keep_newest(old(self).browse.cap(), visits + old(self).browse@);
                crate::ring::lemma_pushes_keep_newest(old(self).search.cap(), drain.search@ + old(self).search@);
                crate::ring::lemma_pushes_keep_newest(
                    old(self).ai_exchange.cap(),
                    drain.ai_exchange@ + old(self).ai_exchange@,
                );
                crate::ring::lemma_pushes_keep_newest(old(self).doc_edit.cap(), edits + old(self).doc_edit@);
            }
            if old(self).captures_valid() && visits_valid(visits) && edits_valid(edits) {
                let all_visits = visits + old(self).browse@;
                lemma_pushed_all_members(Seq::<BrowseCapture>::empty(), old(self).browse.cap(), all_visits);
                assert forall|i: int| 0 <= i < self.browse@.len() implies (#[trigger] self.browse@[i]).is_valid() by {
                    let x = self.browse@[i];
                    assert(all_visits.contains(x));
                    let q = choose|q: int| 0 <= q < all_visits.len() && all_visits[q] == x;
                    if q < visits.len() {
                        assert(visits[q].is_valid());
                    } else {
                        assert(old(self).browse@[q - visits.len()].is_valid());
                    }
                }
                let all_edits = edits + old(self).doc_edit@;
                lemma_pushed_all_members(Seq::<DocEditCapture>::empty(), old(self).doc_edit.cap(), all_edits);
                assert forall|i: int| 0 <= i < self.doc_edit@.len() implies (#[trigger] self.doc_edit@[i]).is_valid() by {
                    let x = self.doc_edit@[i];
                    assert(all_edits.contains(x));
                    let q = choose|q: int| 0 <= q < all_edits.len() && all_edits[q] == x;
                    if q < edits.len() {
                        assert(edits[q].is_valid());
                    } else {
                        assert(old(self).doc_edit@[q - edits.len()].is_valid());
                    }
                }
            }
        }
    }

    pub fn status(&self) -> (r: CaptureBufferStatus)
        ensures
            r.clipboard_count == self.clipboard@.len(),
            r.browse_count == self.browse@.len(),
            r.search_count == self.search@.len(),
            r.ai_exchange_count == self.ai_exchange@.len(),
            r.doc_edit_count == self.doc_edit@.len(),
    {
        CaptureBufferStatus {
            clipboard_count: self.clipboard.len(),
            browse_count: self.browse.len(),
            search_count: self.search.len(),
            ai_exchange_count: self.ai_exchange.len(),
            doc_edit_count: self.doc_edit.len(),
        }
    }

    /// Whether any family holds a capture.
    pub fn has_data(&self) -> (b: bool)
        ensures
            b == !self.contents().is_empty(),
    {
        !self.clipboard.is_empty() || !self.browse.is_empty() || !self.search.is_empty()
            || !self.ai_exchange.is_empty() || !self.doc_edit.is_empty()
    }

    /// Empties every family and the guard's slot.
    pub fn clear(&mut self)
        ensures
            final(self).contents().is_empty(),
            final(self).last_digest() is None,
            final(self).clipboard.cap() == old(self).clipboard.cap(),
            final(self).browse.cap() == old(self).browse.cap(),
            final(self).search.cap() == old(self).search.cap(),
            final(self).ai_exchange.cap() == old(self).ai_exchange.cap(),
            final(self).doc_edit.cap() == old(self).doc_edit.cap(),
            old(self).wf() ==> final(self).wf(),
            final(self).captures_valid(),
    {
        self.clipboard.clear();
        self.browse.clear();
        self.search.clear();
        self.ai_exchange.clear();
        self.doc_edit.clear();
        self.last_clipboard_hash = None;
    }
}

impl Default for CaptureBuffer {
    fn default() -> (r: Self)
        ensures
            r.contents().is_empty(),
            r.last_digest() is None,
            r.wf(),
            r.captures_valid(),
    {
        CaptureBuffer::new()
    }
}

/// Of two clipboard captures with the same digest offered one after the
/// other, the second is refused and changes nothing: whatever the first did,
/// the pair adds at most one entry.
pub proof fn lemma_consecutive_duplicate_refused(
    ring: Seq<ClipboardCapture>,
    slot: Option<Seq<char>>,
    cap: nat,
    first: ClipboardCapture,
    second: ClipboardCapture,
)
    requires
        first.content_hash@ == second.content_hash@,
    ensures
        ({
            let after_first = offered(ring, slot, cap, first);
            offered(after_first.0, after_first.1, cap, second) == (after_first.0, after_first.1, false)
        }),
{
}

/// A drain that follows a drain, with nothing pushed in between, hands out
/// nothing in any family.
pub proof fn lemma_second_drain_empty(c: Contents)
    ensures
        drained(drained(c).0).1.is_empty(),
        drained(drained(c).0).1.total() == 0,
{
}

} // verus!
