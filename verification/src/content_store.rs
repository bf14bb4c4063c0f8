//! The content store: bodies kept once under their digest, counted each
//! time they are stored or read, and collected when they are both old and
//! little used.

use vstd::prelude::*;
use crate::database::{Database, DbError};
use crate::host::now_millis;
use crate::text::same_text;
use crate::types::ContentEntry;
use crate::vecs::{lemma_filter_keeps_pairwise, retain_by};

verus! {

/// How long, in milliseconds, a body is kept after its last access,
/// however little it is used: thirty days.
pub const CONTENT_TTL_MS: i64 = 2592000000;

/// From this many accesses on a body is kept however old it is.
pub const MIN_ACCESS_COUNT_TO_KEEP: i32 = 3;

/// What a cleanup removed.
#[derive(Clone, Copy, Debug)]
pub struct CaptureCleanupResult {
    pub content_entries_deleted: u32,
}

/// A count as a cleanup reports it: itself, or the largest `u32` if it is
/// larger.
pub open spec fn reported_u32(n: nat) -> u32 {
    if n > u32::MAX {
        u32::MAX
    } else {
        n as u32
    }
}

/// Whether a body is stored under the digest `hash`.
pub open spec fn holds(entries: Seq<ContentEntry>, hash: Seq<char>) -> bool {
    exists|i: int| 0 <= i < entries.len() && (#[trigger] entries[i]).hash@ == hash
}

/// No two entries have one digest.
pub open spec fn distinct_hashes(entries: Seq<ContentEntry>) -> bool {
    forall|i: int, j: int|
        0 <= i < j < entries.len() ==> (#[trigger] entries[i]).hash@ != (#[trigger] entries[j]).hash@
}

/// An entry is sound if it has been accessed at least once and records
/// the size of its body.
pub open spec fn is_sound(e: ContentEntry) -> bool {
    e.access_count >= 1 && e.byte_size == byte_size_of(e.content@)
}

/// Every entry is sound.
pub open spec fn all_sound(entries: Seq<ContentEntry>) -> bool {
    forall|i: int| 0 <= i < entries.len() ==> is_sound(#[trigger] entries[i])
}

/// No entry was accessed last before it was made.
pub open spec fn all_chronological(entries: Seq<ContentEntry>) -> bool {
    forall|i: int| 0 <= i < entries.len() ==> (#[trigger] entries[i]).created_at <= entries[i].last_accessed_at
}

/// No entry was made after `now`.
pub open spec fn none_made_after(entries: Seq<ContentEntry>, now: i64) -> bool {
    forall|i: int| 0 <= i < entries.len() ==> (#[trigger] entries[i]).created_at <= now
}

/// `e` after one more access at `now`. The count stops at the largest
/// `i32`.
pub open spec fn bumped(e: ContentEntry, now: i64) -> ContentEntry {
    ContentEntry {
        last_accessed_at: now,
        access_count: if e.access_count < i32::MAX {
            (e.access_count + 1) as i32
        } else {
            e.access_count
        },
        ..e
    }
}

/// `entries` after an access at `now` to what is stored under `hash`.
pub open spec fn touched(entries: Seq<ContentEntry>, hash: Seq<char>, now: i64) -> Seq<ContentEntry> {
    Seq::new(
        entries.len(),
        |i: int|
            if entries[i].hash@ == hash {
                bumped(entries[i], now)
            } else {
                entries[i]
            },
    )
}

/// The body stored under `hash`, if there is one.
pub open spec fn content_of(entries: Seq<ContentEntry>, hash: Seq<char>) -> Option<Seq<char>>
    decreases entries.len(),
{
    if entries.len() == 0 {
        None
    } else {
        match content_of(entries.drop_last(), hash) {
            Some(c) => Some(c),
            None => if entries.last().hash@ == hash {
                Some(entries.last().content@)
            } else {
                None
            },
        }
    }
}

/// The size of a body in bytes, as an entry records it: the length of its
/// UTF-8 form as the machine counts it (or the largest `i64`, should the
/// length exceed it).
pub open spec fn byte_size_of(content: Seq<char>) -> i64 {
    let n = vstd::utf8::encode_utf8(content).len() as usize;
    if n > i64::MAX {
        i64::MAX
    } else {
        n as i64
    }
}

/// Whether `e` is the entry made when `content` of kind `content_type` is
/// first stored under `hash` at `now`.
pub open spec fn is_first_entry(
    e: ContentEntry,
    hash: Seq<char>,
    content: Seq<char>,
    content_type: Seq<char>,
    now: i64,
) -> bool {
    &&& e.hash@ == hash
    &&& e.content@ == content
    &&& e.content_type@ == content_type
    &&& e.byte_size == byte_size_of(content)
    &&& e.created_at == now
    &&& e.last_accessed_at == now
    &&& e.access_count == 1
}

/// Whether `fin` is `entries` after `content` has been stored under `hash`
/// at `now`: what is there under that digest is accessed once more and
/// keeps its body; otherwise a first entry is added at the end.
pub open spec fn is_stored(
    entries: Seq<ContentEntry>,
    hash: Seq<char>,
    content: Seq<char>,
    content_type: Seq<char>,
    now: i64,
    fin: Seq<ContentEntry>,
) -> bool {
    if holds(entries, hash) {
        fin == touched(entries, hash, now)
    } else {
        &&& fin.len() == entries.len() + 1
        &&& fin.drop_last() == entries
        &&& is_first_entry(fin.last(), hash, content, content_type, now)
    }
}

/// Whether an entry is too old at `now` to be kept for its age alone.
pub open spec fn is_stale(e: ContentEntry, now: i64) -> bool {
    e.last_accessed_at < now - CONTENT_TTL_MS
}

/// The test "survives a cleanup at `now`": accessed within the last thirty
/// days, or accessed `MIN_ACCESS_COUNT_TO_KEEP` times or more.
pub open spec fn survives(now: i64) -> spec_fn(ContentEntry) -> bool {
    |e: ContentEntry| !(is_stale(e, now) && e.access_count < MIN_ACCESS_COUNT_TO_KEEP)
}

/// Reports a count, capped at the largest `u32`.
pub fn report_u32(n: usize) -> (r: u32)
    ensures
        r == reported_u32(n as nat),
{
    if n > 4294967295 {
        4294967295
    } else {
        n as u32
    }
}

impl Database {
    /// No two bodies are stored under one digest, and every entry is
    /// sound.
    pub open spec fn content_wf(&self) -> bool {
        distinct_hashes(self.content_store@) && all_sound(self.content_store@)
    }

    /// Counts one more access at `now` on what is stored under `hash`, and
    /// hands out a copy of the body, if there is one.
    fn touch(&mut self, hash: &str, now: i64) -> (r: Option<String>)
        ensures
            final(self).content_store@ == touched(old(self).content_store@, hash@, now),
            *final(self) == (Database { content_store: final(self).content_store, ..*old(self) }),
            r is Some <==> holds(old(self).content_store@, hash@),
            match r {
                Some(c) => Some(c@) == content_of(old(self).content_store@, hash@),
                None => content_of(old(self).content_store@, hash@) is None,
            },
    {
        let ghost s = old(self).content_store@;
        let mut found: Option<String> = None;
        let n = self.content_store.len();
        let mut i: usize = 0;
        proof {
            assert(s.take(0) =~= Seq::<ContentEntry>::empty());
        }
        while i < n
            invariant
                i <= n,
                n == s.len(),
                s == old(self).content_store@,
                self.content_store@.len() == n,
                forall|j: int| 0 <= j < i ==> self.content_store@[j] == touched(s, hash@, now)[j],
                forall|j: int| i <= j < n ==> self.content_store@[j] == s[j],
                *self == (Database { content_store: self.content_store, ..*old(self) }),
                found is Some <==> holds(s.take(i as int), hash@),
                match found {
                    Some(c) => Some(c@) == content_of(s.take(i as int), hash@),
                    None => content_of(s.take(i as int), hash@) is None,
                },
            decreases n - i,
        {
            proof {
                assert(s.take(i + 1).drop_last() =~= s.take(i as int));
                assert(s.take(i + 1).last() == s[i as int]);
                if holds(s.take(i as int), hash@) {
                    let w = choose|w: int| 0 <= w < i && (#[trigger] s.take(i as int)[w]).hash@ == hash@;
                    assert(s.take(i + 1)[w].hash@ == hash@);
                }
                if holds(s.take(i + 1), hash@) && !holds(s.take(i as int), hash@) {
                    let w = choose|w: int| 0 <= w < i + 1 && (#[trigger] s.take(i + 1)[w]).hash@ == hash@;
                    if w < i {
                        assert(s.take(i as int)[w].hash@ == hash@);
                    }
                }
            }
            if same_text(self.content_store[i].hash.as_str(), hash) {
                proof {
                    assert(s.take(i + 1)[i as int].hash@ == hash@);
                }
                if found.is_none() {
                    found = Some(self.content_store[i].content.clone());
                }
                self.content_store[i].last_accessed_at = now;
                if self.content_store[i].access_count < i32::MAX {
                    self.content_store[i].access_count = self.content_store[i].access_count + 1;
                }
            }
            i += 1;
        }
        proof {
            assert(s.take(n as int) =~= s);
            assert(self.content_store@ =~= touched(s, hash@, now));
        }
        found
    }

    /// Stores `content` under the digest `hash` at the instant `now`. If a
    /// body is stored under that digest already, it is kept and counted as
    /// accessed once more; otherwise `content` is stored with one access.
    pub fn store_content_at(&mut self, hash: &str, content: &str, content_type: &str, now: i64) -> (r: Result<
        (),
        DbError,
    >)
        ensures
            r is Ok,
            is_stored(old(self).content_store@, hash@, content@, content_type@, now, final(self).content_store@),
            *final(self) == (Database { content_store: final(self).content_store, ..*old(self) }),
            all_chronological(old(self).content_store@) && none_made_after(old(self).content_store@, now)
                ==> all_chronological(final(self).content_store@),
            old(self).content_wf() ==> final(self).content_wf(),
    {
        let hit = self.touch(hash, now);
        if hit.is_none() {
            proof {
                assert(self.content_store@ =~= old(self).content_store@);
            }
            let size = content.len() as u64;
            let byte_size: i64 = if size > 9223372036854775807 {
                9223372036854775807
            } else {
                size as i64
            };
            self.content_store.push(
                ContentEntry {
                    hash: String::from_str(hash),
                    content: String::from_str(content),
                    content_type: String::from_str(content_type),
                    byte_size,
                    created_at: now,
                    last_accessed_at: now,
                    access_count: 1,
                },
            );
            proof {
                assert(self.content_store@.drop_last() =~= old(self).content_store@);
            }
        }
        Ok(())
    }

    /// `store_content_at` for the instant the clock gives.
    pub fn store_content(&mut self, hash: &str, content: &str, content_type: &str) -> (r: Result<(), DbError>)
        ensures
            r is Ok,
            exists|now: i64|
                is_stored(old(self).content_store@, hash@, content@, content_type@, now, final(self).content_store@),
            *final(self) == (Database { content_store: final(self).content_store, ..*old(self) }),
            old(self).content_wf() ==> final(self).content_wf(),
    {
        let now = now_millis();
        self.store_content_at(hash, content, content_type, now)
    }

    /// Reads the body stored under `hash` at the instant `now`, counting
    /// the access. There is none if nothing was stored under that digest or
    /// if it has been collected.
    pub fn get_content_at(&mut self, hash: &str, now: i64) -> (r: Result<Option<String>, DbError>)
        ensures
            r is Ok,
            final(self).content_store@ == touched(old(self).content_store@, hash@, now),
            *final(self) == (Database { content_store: final(self).content_store, ..*old(self) }),
            match r->Ok_0 {
                Some(c) => Some(c@) == content_of(old(self).content_store@, hash@),
                None => content_of(old(self).content_store@, hash@) is None,
            },
            r->Ok_0 is Some <==> holds(old(self).content_store@, hash@),
            all_chronological(old(self).content_store@) && none_made_after(old(self).content_store@, now)
                ==> all_chronological(final(self).content_store@),
            old(self).content_wf() ==> final(self).content_wf(),
    {
        Ok(self.touch(hash, now))
    }

    /// `get_content_at` for the instant the clock gives.
    pub fn get_content(&mut self, hash: &str) -> (r: Result<Option<String>, DbError>)
        ensures
            r is Ok,
            exists|now: i64| final(self).content_store@ == touched(old(self).content_store@, hash@, now),
            *final(self) == (Database { content_store: final(self).content_store, ..*old(self) }),
            match r->Ok_0 {
                Some(c) => Some(c@) == content_of(old(self).content_store@, hash@),
                None => content_of(old(self).content_store@, hash@) is None,
            },
            r->Ok_0 is Some <==> holds(old(self).content_store@, hash@),
            old(self).content_wf() ==> final(self).content_wf(),
    {
        let now = now_millis();
        self.get_content_at(hash, now)
    }

    /// Collects, at the instant `now`, every body that was last accessed
    /// more than `CONTENT_TTL_MS` ago and fewer than
    /// `MIN_ACCESS_COUNT_TO_KEEP` times in all. Reports how many went.
    pub fn cleanup_capture_content_at(&mut self, now: i64) -> (r: Result<CaptureCleanupResult, DbError>)
        ensures
            r is Ok,
            final(self).content_store@ == old(self).content_store@.filter(survives(now)),
            r->Ok_0.content_entries_deleted == reported_u32(
                (old(self).content_store@.len() - final(self).content_store@.len()) as nat,
            ),
            *final(self) == (Database { content_store: final(self).content_store, ..*old(self) }),
            all_chronological(old(self).content_store@) ==> all_chronological(final(self).content_store@),
            old(self).content_wf() ==> final(self).content_wf(),
    {
        let before = self.content_store.len();
        let keep = |e: &ContentEntry| -> (b: bool)
            ensures
                b == !(is_stale(*e, now) && e.access_count < MIN_ACCESS_COUNT_TO_KEEP),
            {
                let stale = (e.last_accessed_at as i128) < (now as i128) - (CONTENT_TTL_MS as i128);
                !(stale && e.access_count < MIN_ACCESS_COUNT_TO_KEEP)
            };
        retain_by(&mut self.content_store, keep, Ghost(survives(now)));
        proof {
            old(self).content_store@.lemma_filter_len(survives(now));
            lemma_cleanup_keeps_sound(old(self).content_store@, now);
            if old(self).content_wf() {
                lemma_cleanup_keeps_distinct(old(self).content_store@, now);
            }
        }
        let gone = before - self.content_store.len();
        Ok(CaptureCleanupResult { content_entries_deleted: report_u32(gone) })
    }

    /// `cleanup_capture_content_at` for the instant the clock gives.
    pub fn cleanup_capture_content(&mut self) -> (r: Result<CaptureCleanupResult, DbError>)
        ensures
            r is Ok,
            exists|now: i64| final(self).content_store@ == old(self).content_store@.filter(survives(now)),
            r->Ok_0.content_entries_deleted == reported_u32(
                (old(self).content_store@.len() - final(self).content_store@.len()) as nat,
            ),
            *final(self) == (Database { content_store: final(self).content_store, ..*old(self) }),
            old(self).content_wf() ==> final(self).content_wf(),
    {
        let now = now_millis();
        self.cleanup_capture_content_at(now)
    }
}

/// A cleanup leaves no two bodies under one digest where there were none.
pub proof fn lemma_cleanup_keeps_distinct(entries: Seq<ContentEntry>, now: i64)
    requires
        distinct_hashes(entries),
    ensures
        distinct_hashes(entries.filter(survives(now))),
{
    let apart = |a: ContentEntry, b: ContentEntry| a.hash@ != b.hash@;
    let kept = entries.filter(survives(now));
    assert forall|i: int, j: int| 0 <= i < j < entries.len() implies #[trigger] apart(entries[i], entries[j]) by {}
    lemma_filter_keeps_pairwise(entries, survives(now), apart);
    assert forall|i: int, j: int| 0 <= i < j < kept.len() implies (#[trigger] kept[i]).hash@ != (#[trigger] kept[j]).hash@ by {
        assert(apart(kept[i], kept[j]));
    }
}

/// What a cleanup leaves of sound entries is sound, and of entries in the
/// order of time, in the order of time.
pub proof fn lemma_cleanup_keeps_sound(entries: Seq<ContentEntry>, now: i64)
    ensures
        all_sound(entries) ==> all_sound(entries.filter(survives(now))),
        all_chronological(entries) ==> all_chronological(entries.filter(survives(now))),
{
    let any = |a: ContentEntry, b: ContentEntry| true;
    let kept = entries.filter(survives(now));
    assert forall|i: int, j: int| 0 <= i < j < entries.len() implies #[trigger] any(entries[i], entries[j]) by {}
    lemma_filter_keeps_pairwise(entries, survives(now), any);
    assert forall|i: int| 0 <= i < kept.len() implies entries.contains(#[trigger] kept[i]) by {
        assert(kept.contains(kept[i]));
    }
    if all_sound(entries) {
        assert forall|i: int| 0 <= i < kept.len() implies is_sound(#[trigger] kept[i]) by {
            let q = choose|q: int| 0 <= q < entries.len() && entries[q] == kept[i];
            assert(is_sound(entries[q]));
        }
    }
    if all_chronological(entries) {
        assert forall|i: int| 0 <= i < kept.len() implies (#[trigger] kept[i]).created_at
            <= kept[i].last_accessed_at by {
            let q = choose|q: int| 0 <= q < entries.len() && entries[q] == kept[i];
            assert(entries[q].created_at <= entries[q].last_accessed_at);
        }
    }
}

/// A body that has been accessed `MIN_ACCESS_COUNT_TO_KEEP` times or more is
/// never collected, however old it is: it is among what a cleanup at any
/// instant leaves.
pub proof fn lemma_popular_content_survives(entries: Seq<ContentEntry>, e: ContentEntry, now: i64)
    requires
        entries.contains(e),
        e.access_count >= MIN_ACCESS_COUNT_TO_KEEP,
    ensures
        entries.filter(survives(now)).contains(e),
{
    let any = |a: ContentEntry, b: ContentEntry| true;
    assert forall|i: int, j: int| 0 <= i < j < entries.len() implies #[trigger] any(entries[i], entries[j]) by {}
    lemma_filter_keeps_pairwise(entries, survives(now), any);
    assert(survives(now)(e));
}

/// A body that was accessed within the last `CONTENT_TTL_MS` is not
/// collected either.
pub proof fn lemma_recent_content_survives(entries: Seq<ContentEntry>, e: ContentEntry, now: i64)
    requires
        entries.contains(e),
        e.last_accessed_at >= now - CONTENT_TTL_MS,
    ensures
        entries.filter(survives(now)).contains(e),
{
    let any = |a: ContentEntry, b: ContentEntry| true;
    assert forall|i: int, j: int| 0 <= i < j < entries.len() implies #[trigger] any(entries[i], entries[j]) by {}
    lemma_filter_keeps_pairwise(entries, survives(now), any);
    assert(survives(now)(e));
}

/// There is a body to read under a digest exactly when an entry is stored
/// under it.
pub proof fn lemma_content_iff_held(entries: Seq<ContentEntry>, hash: Seq<char>)
    ensures
        content_of(entries, hash) is Some <==> holds(entries, hash),
    decreases entries.len(),
{
    if entries.len() > 0 {
        let front = entries.drop_last();
        lemma_content_iff_held(front, hash);
        if holds(front, hash) {
            let w = choose|w: int| 0 <= w < front.len() && (#[trigger] front[w]).hash@ == hash;
            assert(entries[w].hash@ == hash);
        }
        if holds(entries, hash) && !holds(front, hash) {
            let w = choose|w: int| 0 <= w < entries.len() && (#[trigger] entries[w]).hash@ == hash;
            if w < front.len() {
                assert(front[w].hash@ == hash);
            }
        }
        if entries.last().hash@ == hash {
            assert(entries[entries.len() - 1].hash@ == hash);
        }
    }
}

/// An access changes no body: what can be read under any digest is what
/// could be read before.
pub proof fn lemma_access_keeps_content(entries: Seq<ContentEntry>, hash: Seq<char>, now: i64, other: Seq<char>)
    ensures
        content_of(touched(entries, hash, now), other) == content_of(entries, other),
    decreases entries.len(),
{
    if entries.len() > 0 {
        lemma_access_keeps_content(entries.drop_last(), hash, now, other);
        assert(touched(entries, hash, now).drop_last() =~= touched(entries.drop_last(), hash, now));
    }
}

/// What was stored can be read back: after `content` is stored under a
/// digest, the body read under that digest is `content`, or, if a body was
/// stored under the digest before, that body.
pub proof fn lemma_store_then_get(
    entries: Seq<ContentEntry>,
    hash: Seq<char>,
    content: Seq<char>,
    content_type: Seq<char>,
    now: i64,
    fin: Seq<ContentEntry>,
)
    requires
        is_stored(entries, hash, content, content_type, now, fin),
    ensures
        content_of(fin, hash) == Some(
            match content_of(entries, hash) {
                Some(c) => c,
                None => content,
            },
        ),
{
    lemma_content_iff_held(entries, hash);
    if holds(entries, hash) {
        lemma_access_keeps_content(entries, hash, now, hash);
    }
}

/// What survives a cleanup reads as before: under the digest of an entry
/// that a cleanup leaves, the body is the one that was there, provided that
/// no two entries had one digest.
pub proof fn lemma_cleanup_keeps_content(entries: Seq<ContentEntry>, now: i64, hash: Seq<char>)
    requires
        distinct_hashes(entries),
        holds(entries.filter(survives(now)), hash),
    ensures
        content_of(entries.filter(survives(now)), hash) == content_of(entries, hash),
    decreases entries.len(),
{
    reveal(Seq::filter);
    let kept = entries.filter(survives(now));
    if entries.len() > 0 {
        let front = entries.drop_last();
        let last = entries.last();
        let kept_front = front.filter(survives(now));
        lemma_content_iff_held(front, hash);
        lemma_content_iff_held(kept_front, hash);
        let any = |a: ContentEntry, b: ContentEntry| true;
        assert forall|i: int, j: int| 0 <= i < j < front.len() implies #[trigger] any(front[i], front[j]) by {}
        lemma_filter_keeps_pairwise(front, survives(now), any);
        if holds(kept_front, hash) {
            assert forall|i: int, j: int| 0 <= i < j < front.len() implies (#[trigger] front[i]).hash@ != (
            #[trigger] front[j]).hash@ by {
                assert(front[i] == entries[i] && front[j] == entries[j]);
            }
            lemma_cleanup_keeps_content(front, now, hash);
            if survives(now)(last) {
                assert(kept.drop_last() =~= kept_front);
            }
        } else {
            // the entry under `hash` is the last one, and it was kept
            let w = choose|w: int| 0 <= w < kept.len() && (#[trigger] kept[w]).hash@ == hash;
            if survives(now)(last) {
                assert(kept.drop_last() =~= kept_front);
                if w < kept_front.len() {
                    assert(kept_front[w].hash@ == hash);
                }
                assert(last.hash@ == hash);
                if holds(front, hash) {
                    let q = choose|q: int| 0 <= q < front.len() && (#[trigger] front[q]).hash@ == hash;
                    assert(entries[q].hash@ == entries[entries.len() - 1].hash@);
                }
            } else {
                assert(kept_front[w].hash@ == hash);
            }
        }
    }
}

} // verus!
