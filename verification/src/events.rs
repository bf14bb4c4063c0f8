//! The scratch stream of events, held in memory only, and its flush into
//! the figures from which a work block is made.

use vstd::prelude::*;
use crate::host::now_millis;
use crate::summary::{count_events, count_of, generate_local_summary, summary_of, title_or_default};
use crate::text::{copy_opt, opt_text, same_opt_text, same_text};
use crate::workstream::{BufferStatus, BufferedEvent, ContextType, EventType};

verus! {

/// From this many buffered events on, a push asks for a flush.
pub const MAX_BUFFER_SIZE: usize = 100;

/// The fewest events that make a work block.
pub const MIN_EVENTS_FOR_BLOCK: usize = 2;

/// The most research URLs that a flush reports.
pub const MAX_RESEARCH_URLS: usize = 5;

/// What a push reports back.
#[derive(Clone, Copy, Debug)]
pub struct BufferPushResult {
    pub should_flush: bool,
    pub context_switched: bool,
    pub event_count: usize,
}

/// What a flush hands out: the events themselves and the figures drawn
/// from them.
#[derive(Clone, Debug)]
pub struct FlushResult {
    pub events: Vec<BufferedEvent>,
    pub started_at: i64,
    pub ended_at: i64,
    pub context_type: ContextType,
    pub context_id: Option<String>,
    pub context_title: Option<String>,
    pub edit_count: i32,
    pub browse_count: i32,
    pub research_urls: Vec<String>,
    pub auto_summary: String,
}

/// A count as it is reported: itself, or the largest `i32` if it is larger.
pub open spec fn reported(n: nat) -> i32 {
    if n > i32::MAX {
        i32::MAX
    } else {
        n as i32
    }
}

/// `urls` with `u` added at the end, unless it is there already or `urls`
/// is full.
pub open spec fn with_url(urls: Seq<Seq<char>>, u: Seq<char>) -> Seq<Seq<char>> {
    if urls.contains(u) || urls.len() >= MAX_RESEARCH_URLS {
        urls
    } else {
        urls.push(u)
    }
}

/// The first `MAX_RESEARCH_URLS` distinct URLs of the page visits among
/// `events`, in the order in which they first occur.
pub open spec fn research_urls_of(events: Seq<BufferedEvent>) -> Seq<Seq<char>>
    decreases events.len(),
{
    if events.len() == 0 {
        Seq::<Seq<char>>::empty()
    } else {
        let before = research_urls_of(events.drop_last());
        let e = events.last();
        if e.event_type == EventType::Browse && e.url is Some {
            with_url(before, e.url->0@)
        } else {
            before
        }
    }
}

/// A flush reports no more than `MAX_RESEARCH_URLS` research URLs, and
/// none of them twice.
pub proof fn lemma_research_urls_capped(events: Seq<BufferedEvent>)
    ensures
        research_urls_of(events).len() <= MAX_RESEARCH_URLS,
        research_urls_of(events).no_duplicates(),
    decreases events.len(),
{
    if events.len() > 0 {
        lemma_research_urls_capped(events.drop_last());
        let before = research_urls_of(events.drop_last());
        let e = events.last();
        if e.event_type == EventType::Browse && e.url is Some {
            let u = e.url->0@;
            if !(before.contains(u) || before.len() >= MAX_RESEARCH_URLS) {
                let r = before.push(u);
                assert forall|i: int, j: int| 0 <= i < r.len() && 0 <= j < r.len() && i != j implies r[i] != r[j] by {
                    if i < before.len() && j < before.len() {
                        assert(before[i] != before[j]);
                    } else if i < before.len() {
                        assert(before.contains(before[i]));
                    } else {
                        assert(before.contains(before[j]));
                    }
                }
            }
        }
    }
}

/// The context all `events` share, or `Mixed` if they do not share one.
pub open spec fn context_type_of(events: Seq<BufferedEvent>) -> ContextType {
    if events.len() > 0 && (forall|i: int|
        0 <= i < events.len() ==> (#[trigger] events[i]).context_type == events[0].context_type) {
        events[0].context_type
    } else {
        ContextType::Mixed
    }
}

/// The context id of the first of `events` that carries one.
pub open spec fn first_context_id(events: Seq<BufferedEvent>) -> Option<String>
    decreases events.len(),
{
    if events.len() == 0 {
        None
    } else {
        match first_context_id(events.drop_last()) {
            Some(id) => Some(id),
            None => events.last().context_id,
        }
    }
}

/// The context title of the first of `events` that carries one.
pub open spec fn first_context_title(events: Seq<BufferedEvent>) -> Option<String>
    decreases events.len(),
{
    if events.len() == 0 {
        None
    } else {
        match first_context_title(events.drop_last()) {
            Some(t) => Some(t),
            None => events.last().context_title,
        }
    }
}

/// Whether `f` is what a flush of `events` hands out.
pub open spec fn is_flush_of(events: Seq<BufferedEvent>, f: FlushResult) -> bool {
    &&& f.events@ == events
    &&& f.started_at == events.first().timestamp
    &&& f.ended_at == events.last().timestamp
    &&& f.context_type == context_type_of(events)
    &&& f.context_id == first_context_id(events)
    &&& f.context_title == first_context_title(events)
    &&& f.edit_count == reported(count_of(events, EventType::Edit))
    &&& f.browse_count == reported(count_of(events, EventType::Browse))
    &&& f.research_urls@.len() == research_urls_of(events).len()
    &&& forall|i: int|
        0 <= i < f.research_urls@.len() ==> (#[trigger] f.research_urls@[i])@ == research_urls_of(events)[i]
    &&& f.auto_summary@ == summary_of(
        count_of(events, EventType::Edit),
        count_of(events, EventType::Browse),
        count_of(events, EventType::Search),
        count_of(events, EventType::Tool),
        count_of(events, EventType::Save),
        title_or_default(first_context_title(events)),
    )
}

/// Reports a count, capped at the largest `i32`.
fn report(n: usize) -> (r: i32)
    ensures
        r == reported(n as nat),
{
    if n > 2147483647 {
        2147483647
    } else {
        n as i32
    }
}

/// Whether `urls` holds a text that reads as `u`.
fn holds_url(urls: &Vec<String>, u: &str) -> (r: bool)
    ensures
        r == exists|i: int| 0 <= i < urls@.len() && (#[trigger] urls@[i])@ == u@,
{
    let mut i: usize = 0;
    while i < urls.len()
        invariant
            i <= urls@.len(),
            forall|j: int| 0 <= j < i ==> (#[trigger] urls@[j])@ != u@,
        decreases urls@.len() - i,
    {
        if same_text(urls[i].as_str(), u) {
            return true;
        }
        i += 1;
    }
    false
}

/// Collects the research URLs of `events`.
pub fn collect_research_urls(events: &[BufferedEvent]) -> (urls: Vec<String>)
    ensures
        urls@.len() <= MAX_RESEARCH_URLS,
        urls@.len() == research_urls_of(events@).len(),
        forall|i: int| 0 <= i < urls@.len() ==> (#[trigger] urls@[i])@ == research_urls_of(events@)[i],
{
    let mut urls: Vec<String> = Vec::new();
    let n = events.len();
    let mut i: usize = 0;
    proof {
        assert(events@.take(0) =~= Seq::<BufferedEvent>::empty());
    }
    while i < n
        invariant
            i <= n,
            n == events@.len(),
            urls@.len() == research_urls_of(events@.take(i as int)).len(),
            forall|j: int|
                0 <= j < urls@.len() ==> (#[trigger] urls@[j])@ == research_urls_of(events@.take(i as int))[j],
        decreases n - i,
    {
        let ghost before = research_urls_of(events@.take(i as int));
        proof {
            assert(events@.take(i + 1).drop_last() =~= events@.take(i as int));
        }
        let e = &events[i];
        if e.event_type == EventType::Browse {
            match &e.url {
                Some(u) => {
                    let seen = holds_url(&urls, u.as_str());
                    proof {
                        if seen {
                            let w = choose|w: int| 0 <= w < urls@.len() && (#[trigger] urls@[w])@ == u@;
                            assert(before[w] == u@);
                        } else {
                            if before.contains(u@) {
                                let w = choose|w: int| 0 <= w < before.len() && before[w] == u@;
                                assert(urls@[w]@ == u@);
                            }
                        }
                    }
                    if !seen && urls.len() < MAX_RESEARCH_URLS {
                        urls.push(u.clone());
                    }
                },
                None => {},
            }
        }
        i += 1;
    }
    proof {
        assert(events@.take(n as int) =~= events@);
        lemma_research_urls_capped(events@);
    }
    urls
}

/// The context that all `events` share, or `Mixed`.
pub fn shared_context_type(events: &[BufferedEvent]) -> (r: ContextType)
    ensures
        r == context_type_of(events@),
{
    let n = events.len();
    if n == 0 {
        return ContextType::Mixed;
    }
    let first = events[0].context_type;
    let mut i: usize = 1;
    while i < n
        invariant
            1 <= i <= n,
            n == events@.len(),
            first == events@[0].context_type,
            forall|j: int| 0 <= j < i ==> (#[trigger] events@[j]).context_type == first,
        decreases n - i,
    {
        if events[i].context_type != first {
            return ContextType::Mixed;
        }
        i += 1;
    }
    first
}

/// The context id and the context title of the first events that carry
/// them.
pub fn first_context(events: &[BufferedEvent]) -> (r: (Option<String>, Option<String>))
    ensures
        r.0 == first_context_id(events@),
        r.1 == first_context_title(events@),
{
    let mut id: Option<String> = None;
    let mut title: Option<String> = None;
    let n = events.len();
    let mut i: usize = 0;
    proof {
        assert(events@.take(0) =~= Seq::<BufferedEvent>::empty());
    }
    while i < n
        invariant
            i <= n,
            n == events@.len(),
            id == first_context_id(events@.take(i as int)),
            title == first_context_title(events@.take(i as int)),
        decreases n - i,
    {
        proof {
            assert(events@.take(i + 1).drop_last() =~= events@.take(i as int));
        }
        if id.is_none() {
            id = copy_opt(&events[i].context_id);
        }
        if title.is_none() {
            title = copy_opt(&events[i].context_title);
        }
        i += 1;
    }
    proof {
        assert(events@.take(n as int) =~= events@);
    }
    (id, title)
}

/// Draws from `events`, of which there is at least one, what a flush hands
/// out.
pub fn coalesce(events: Vec<BufferedEvent>) -> (f: FlushResult)
    requires
        events@.len() > 0,
    ensures
        is_flush_of(events@, f),
{
    let n = events.len();
    let started_at = events[0].timestamp;
    let ended_at = events[n - 1].timestamp;
    let edit_count = report(count_events(events.as_slice(), EventType::Edit));
    let browse_count = report(count_events(events.as_slice(), EventType::Browse));
    let research_urls = collect_research_urls(events.as_slice());
    let context_type = shared_context_type(events.as_slice());
    let (context_id, context_title) = first_context(events.as_slice());
    let auto_summary = generate_local_summary(events.as_slice(), &context_title);
    FlushResult {
        events,
        started_at,
        ended_at,
        context_type,
        context_id,
        context_title,
        edit_count,
        browse_count,
        research_urls,
        auto_summary,
    }
}

/// The scratch stream: the events since the last flush, oldest first, and
/// the context of the event pushed last.
pub struct EventBuffer {
    events: Vec<BufferedEvent>,
    current_context: Option<(ContextType, Option<String>)>,
}

impl EventBuffer {
    /// The buffered events, oldest first.
    pub closed spec fn events(&self) -> Seq<BufferedEvent> {
        self.events@
    }

    /// The context of the event pushed last: its kind and the text of its
    /// id, if it has one.
    pub closed spec fn context(&self) -> Option<(ContextType, Option<Seq<char>>)> {
        match self.current_context {
            Some((t, id)) => Some((t, opt_text(id))),
            None => None,
        }
    }

    /// Whether `event` leaves the context `context`.
    pub open spec fn switches(context: Option<(ContextType, Option<Seq<char>>)>, event: BufferedEvent) -> bool {
        match context {
            Some((t, id)) => event.context_type != t || opt_text(event.context_id) != id,
            None => false,
        }
    }

    /// The milliseconds from the newest of `events` to `now`, if there is
    /// an event and the difference can be held.
    pub open spec fn time_since(events: Seq<BufferedEvent>, now: i64) -> Option<i64> {
        if events.len() > 0 && i64::MIN <= now - events.last().timestamp <= i64::MAX {
            Some((now - events.last().timestamp) as i64)
        } else {
            None
        }
    }

    pub fn new() -> (r: Self)
        ensures
            r.events() == Seq::<BufferedEvent>::empty(),
            r.context() is None,
    {
        EventBuffer { events: Vec::new(), current_context: None }
    }

    /// Appends `event` and makes its context the current one. The result
    /// says whether the event left the context that was current, how many
    /// events are buffered now, and whether to flush: on a change of
    /// context, or once `MAX_BUFFER_SIZE` events are buffered.
    pub fn push(&mut self, event: BufferedEvent) -> (r: BufferPushResult)
        ensures
            final(self).events() == old(self).events().push(event),
            final(self).context() == Some((event.context_type, opt_text(event.context_id))),
            r.context_switched == Self::switches(old(self).context(), event),
            r.event_count == final(self).events().len(),
            r.should_flush == (r.event_count >= MAX_BUFFER_SIZE || r.context_switched),
    {
        let context_switched = match &self.current_context {
            Some((t, id)) => event.context_type != *t || !same_opt_text(&event.context_id, id),
            None => false,
        };
        self.current_context = Some((event.context_type, copy_opt(&event.context_id)));
        self.events.push(event);
        let event_count = self.events.len();
        BufferPushResult {
            should_flush: event_count >= MAX_BUFFER_SIZE || context_switched,
            context_switched,
            event_count,
        }
    }

    /// How many events are buffered, when the oldest and the newest of them
    /// happened, and the id of the current context.
    pub fn status(&self) -> (r: BufferStatus)
        ensures
            r.event_count == self.events().len(),
            self.events().len() == 0 ==> r.oldest_event_at is None && r.newest_event_at is None,
            self.events().len() > 0 ==> r.oldest_event_at == Some(self.events().first().timestamp)
                && r.newest_event_at == Some(self.events().last().timestamp),
            match self.context() {
                Some((_, id)) => opt_text(r.current_context) == id,
                None => r.current_context is None,
            },
    {
        let n = self.events.len();
        let oldest_event_at = if n > 0 {
            Some(self.events[0].timestamp)
        } else {
            None
        };
        let newest_event_at = if n > 0 {
            Some(self.events[n - 1].timestamp)
        } else {
            None
        };
        let current_context = match &self.current_context {
            Some((_, id)) => copy_opt(id),
            None => None,
        };
        BufferStatus { event_count: n, oldest_event_at, newest_event_at, current_context }
    }

    /// Whether enough events are buffered to make a block.
    pub fn can_create_block(&self) -> (b: bool)
        ensures
            b == (self.events().len() >= MIN_EVENTS_FOR_BLOCK),
    {
        self.events.len() >= MIN_EVENTS_FOR_BLOCK
    }

    /// With fewer than `MIN_EVENTS_FOR_BLOCK` events buffered, does nothing
    /// and returns `None`. Otherwise empties the buffer, forgets the current
    /// context, and returns the events with the figures drawn from them.
    pub fn flush(&mut self) -> (r: Option<FlushResult>)
        ensures
            match r {
                None => {
                    &&& old(self).events().len() < MIN_EVENTS_FOR_BLOCK
                    &&& final(self).events() == old(self).events()
                    &&& final(self).context() == old(self).context()
                },
                Some(f) => {
                    &&& old(self).events().len() >= MIN_EVENTS_FOR_BLOCK
                    &&& final(self).events() == Seq::<BufferedEvent>::empty()
                    &&& final(self).context() is None
                    &&& is_flush_of(old(self).events(), f)
                },
            },
    {
        if self.events.len() < MIN_EVENTS_FOR_BLOCK {
            return None;
        }
        let mut flushed: Vec<BufferedEvent> = Vec::new();
        std::mem::swap(&mut self.events, &mut flushed);
        self.current_context = None;
        Some(coalesce(flushed))
    }

    /// Empties the buffer and forgets the current context.
    pub fn clear(&mut self)
        ensures
            final(self).events() == Seq::<BufferedEvent>::empty(),
            final(self).context() is None,
    {
        self.events.clear();
        self.current_context = None;
    }

    /// The milliseconds from the newest event to `now`, if an event is
    /// buffered and the difference can be held.
    pub fn time_since_last_event_at(&self, now: i64) -> (r: Option<i64>)
        ensures
            r == Self::time_since(self.events(), now),
    {
        let n = self.events.len();
        if n == 0 {
            None
        } else {
            now.checked_sub(self.events[n - 1].timestamp)
        }
    }

    /// The milliseconds from the newest event to the instant the clock
    /// gives, if an event is buffered.
    pub fn time_since_last_event(&self) -> (r: Option<i64>)
        ensures
            exists|now: i64| r == #[trigger] Self::time_since(self.events(), now),
    {
        let now = now_millis();
        self.time_since_last_event_at(now)
    }
}

impl Default for EventBuffer {
    fn default() -> (r: Self)
        ensures
            r.events() == Seq::<BufferedEvent>::empty(),
            r.context() is None,
    {
        EventBuffer::new()
    }
}

} // verus!
