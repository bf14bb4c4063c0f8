//! The clipboard sampler: what one tick of the polling loop decides. The
//! loop itself, its waiting and the reading of the clipboard are the
//! caller's; the sampler says what to do next and what becomes of a text
//! that was read.

use vstd::prelude::*;
use vstd::std_specs::iter::IteratorSpec;
use crate::capture_buffer::{offered, CaptureBuffer};
use crate::host::{fresh_id, is_white_space, hash_content, now_millis, sha256_hex};
use crate::text::{copy_opt, generate_preview, opt_str, preview_of, same_text};
use crate::types::{CaptureConfig, ClipboardCapture, MAX_CLIPBOARD_SIZE, PREVIEW_LENGTH};

verus! {

/// How long, in milliseconds, the sampler waits before it looks again while
/// clipboard capture is switched off.
pub const DISABLED_BACKOFF_MS: u64 = 1000;

/// Whether nothing is left of `text` once white space is trimmed off both
/// ends: every character of it is white space.
pub open spec fn is_blank(text: Seq<char>) -> bool {
    forall|i: int| 0 <= i < text.len() ==> is_white_space(#[trigger] text[i])
}

/// What the polling loop is to do next.
#[derive(Clone, Copy, Debug, PartialEq, Eq, Structural)]
pub enum SamplerStep {
    /// The sampler was stopped: leave the loop.
    Stop,
    /// Clipboard capture is switched off: wait this long and ask again,
    /// without reading the clipboard.
    Idle { wait_ms: u64 },
    /// Read the clipboard, hand what was read to the sampler, then wait
    /// this long.
    Read { wait_ms: u64 },
}

/// What became of a reading of the clipboard.
#[derive(Clone, Copy, Debug, PartialEq, Eq, Structural)]
pub enum Sampled {
    /// No text could be read.
    Unavailable,
    /// The text is longer than `MAX_CLIPBOARD_SIZE` bytes.
    Oversize,
    /// The text is empty or all white space.
    Empty,
    /// The text has the digest of the text sampled last.
    Duplicate,
    /// A capture was made and offered to the buffer, which took it or
    /// refused it.
    Captured { taken: bool },
}

/// The length of a text in bytes, as the machine counts it.
pub open spec fn byte_len(text: Seq<char>) -> usize {
    vstd::utf8::encode_utf8(text).len() as usize
}

/// The digest of a text.
pub open spec fn digest_of(text: Seq<char>) -> Seq<char> {
    sha256_hex(vstd::utf8::encode_utf8(text))
}

/// What is decided about a text that was read, given the digest sampled
/// last; `None` where a capture is to be made.
pub open spec fn rejection(content: Option<Seq<char>>, last: Option<Seq<char>>) -> Option<Sampled> {
    match content {
        None => Some(Sampled::Unavailable),
        Some(text) => if byte_len(text) > MAX_CLIPBOARD_SIZE {
            Some(Sampled::Oversize)
        } else if is_blank(text) {
            Some(Sampled::Empty)
        } else if last == Some(digest_of(text)) {
            Some(Sampled::Duplicate)
        } else {
            None
        },
    }
}

/// A text that is read again right after it was sampled is passed over: of
/// two readings of one text in a row, at most the first makes a capture.
pub proof fn lemma_repeat_is_passed_over(text: Seq<char>)
    ensures
        rejection(Some(text), Some(digest_of(text))) is Some,
{
}

/// Whether `capture` is the capture of `text` made at `now` under the name
/// `id`, while the source `(url, title)` was active.
pub open spec fn is_capture_of(
    capture: ClipboardCapture,
    text: Seq<char>,
    url: Option<String>,
    title: Option<String>,
    id: String,
    now: i64,
) -> bool {
    &&& capture.id == id
    &&& capture.content_hash@ == digest_of(text)
    &&& capture.content_preview@ == preview_of(text, PREVIEW_LENGTH as nat)
    &&& capture.source_url == url
    &&& capture.source_title == title
    &&& capture.captured_at == now
}

/// Whether `after`, `buffer_after` and `r` are what the sampler `before`
/// and the buffer `buffer_before` come to when `content` is read at `now`
/// and a capture, if one is made, is named `id`. A reading that is
/// rejected changes nothing. Otherwise the digest of the text is
/// remembered and its capture is offered to the buffer.
pub open spec fn is_observation(
    before: ClipboardMonitor,
    buffer_before: CaptureBuffer,
    content: Option<Seq<char>>,
    id: String,
    now: i64,
    after: ClipboardMonitor,
    buffer_after: CaptureBuffer,
    r: Sampled,
) -> bool {
    &&& after.running == before.running
    &&& after.active_source_url == before.active_source_url
    &&& after.active_source_title == before.active_source_title
    &&& match rejection(content, before.last_digest()) {
        Some(why) => {
            &&& r == why
            &&& after.last_content_hash == before.last_content_hash
            &&& buffer_after == buffer_before
        },
        None => exists|capture: ClipboardCapture|
            {
                &&& #[trigger] is_capture_of(
                    capture,
                    content->0,
                    before.active_source_url,
                    before.active_source_title,
                    id,
                    now,
                )
                &&& after.last_digest() == Some(digest_of(content->0))
                &&& r is Captured
                &&& (buffer_after.clipboard@, buffer_after.last_digest(), r->taken) == offered(
                    buffer_before.clipboard@,
                    buffer_before.last_digest(),
                    buffer_before.clipboard.cap(),
                    capture,
                )
                &&& buffer_after.clipboard.cap() == buffer_before.clipboard.cap()
                &&& buffer_after.browse == buffer_before.browse
                &&& buffer_after.search == buffer_before.search
                &&& buffer_after.ai_exchange == buffer_before.ai_exchange
                &&& buffer_after.doc_edit == buffer_before.doc_edit
            },
    }
}

/// Whether every character of `content` is white space.
pub fn is_blank_text(content: &str) -> (r: bool)
    ensures
        r == is_blank(content@),
{
    broadcast use vstd::string::group_string_axioms;

    let mut it = content.chars();
    let ghost mut k: int = 0;
    assert(it.remaining() =~= content@.skip(0));
    loop
        invariant
            0 <= k <= content@.len(),
            it.remaining() == content@.skip(k),
            it.obeys_prophetic_iter_laws(),
            it.decrease() is Some,
            forall|j: int| 0 <= j < k ==> is_white_space(#[trigger] content@[j]),
        decreases content@.len() - k,
    {
        let ghost before = it;
        match it.next() {
            Some(c) => {
                proof {
                    assert(c == content@.skip(k)[0]);
                    assert(it.remaining() =~= content@.skip(k + 1));
                }
                if !c.is_whitespace() {
                    assert(!is_white_space(content@[k]));
                    return false;
                }
                proof {
                    k = k + 1;
                }
            },
            None => {
                proof {
                    assert(content@.skip(k).len() == 0);
                }
                return true;
            },
        }
    }
}

/// The sampler: whether it runs, the digest it sampled last, and the source
/// that is active, to which a capture is attributed.
pub struct ClipboardMonitor {
    pub running: bool,
    pub last_content_hash: Option<String>,
    pub active_source_url: Option<String>,
    pub active_source_title: Option<String>,
}

impl ClipboardMonitor {
    /// The digest sampled last, if any.
    pub open spec fn last_digest(&self) -> Option<Seq<char>> {
        match self.last_content_hash {
            Some(h) => Some(h@),
            None => None,
        }
    }

    /// A sampler that does not run, has sampled nothing and knows no active
    /// source.
    pub fn new() -> (r: Self)
        ensures
            !r.running,
            r.last_content_hash is None,
            r.active_source_url is None,
            r.active_source_title is None,
    {
        ClipboardMonitor {
            running: false,
            last_content_hash: None,
            active_source_url: None,
            active_source_title: None,
        }
    }

    /// Sets the source to which captures are attributed from now on.
    pub fn set_active_source(&mut self, url: Option<String>, title: Option<String>)
        ensures
            final(self).active_source_url == url,
            final(self).active_source_title == title,
            final(self).running == old(self).running,
            final(self).last_content_hash == old(self).last_content_hash,
    {
        self.active_source_url = url;
        self.active_source_title = title;
    }

    /// Starts the sampler. Returns whether a polling loop is to be started:
    /// not if the sampler runs already. A started sampler has sampled
    /// nothing yet.
    pub fn start(&mut self) -> (begin: bool)
        ensures
            begin == !old(self).running,
            final(self).running,
            final(self).last_content_hash == (if begin {
                None
            } else {
                old(self).last_content_hash
            }),
            final(self).active_source_url == old(self).active_source_url,
            final(self).active_source_title == old(self).active_source_title,
    {
        if self.running {
            return false;
        }
        self.running = true;
        self.last_content_hash = None;
        true
    }

    /// Stops the sampler: the polling loop leaves at its next tick.
    pub fn stop(&mut self)
        ensures
            !final(self).running,
            final(self).last_content_hash == old(self).last_content_hash,
            final(self).active_source_url == old(self).active_source_url,
            final(self).active_source_title == old(self).active_source_title,
    {
        self.running = false;
    }

    pub fn is_running(&self) -> (r: bool)
        ensures
            r == self.running,
    {
        self.running
    }

    /// What the polling loop is to do at the start of a tick.
    pub fn next_step(&self, config: &CaptureConfig) -> (step: SamplerStep)
        ensures
            step == (if !self.running {
                SamplerStep::Stop
            } else if !config.clipboard_enabled {
                SamplerStep::Idle { wait_ms: DISABLED_BACKOFF_MS }
            } else {
                SamplerStep::Read { wait_ms: config.clipboard_poll_ms as u64 }
            }),
    {
        if !self.running {
            SamplerStep::Stop
        } else if !config.clipboard_enabled {
            SamplerStep::Idle { wait_ms: DISABLED_BACKOFF_MS }
        } else {
            SamplerStep::Read { wait_ms: config.clipboard_poll_ms as u64 }
        }
    }

    /// Takes what was read from the clipboard at `now`. A text that is too
    /// large, blank, or of the digest sampled last is passed over and
    /// changes nothing. Otherwise its digest is remembered, and a capture
    /// named `id`, attributed to the active source, is offered to `buffer`.
    pub fn observe_at(&mut self, content: Option<&str>, buffer: &mut CaptureBuffer, id: String, now: i64) -> (r:
        Sampled)
        ensures
            is_observation(*old(self), *old(buffer), opt_str(content), id, now, *final(self), *final(buffer), r),
            old(buffer).wf() ==> final(buffer).wf(),
    {
        let text = match content {
            Some(t) => t,
            None => {
                return Sampled::Unavailable;
            },
        };
        if text.len() > MAX_CLIPBOARD_SIZE {
            return Sampled::Oversize;
        }
        if is_blank_text(text) {
            return Sampled::Empty;
        }
        let content_hash = hash_content(text);
        let seen = match &self.last_content_hash {
            Some(h) => same_text(h.as_str(), content_hash.as_str()),
            None => false,
        };
        if seen {
            return Sampled::Duplicate;
        }
        self.last_content_hash = Some(content_hash.clone());
        let capture = ClipboardCapture {
            id,
            content_hash,
            content_preview: generate_preview(text, PREVIEW_LENGTH),
            source_url: copy_opt(&self.active_source_url),
            source_title: copy_opt(&self.active_source_title),
            captured_at: now,
        };
        let taken = buffer.push_clipboard(capture);
        proof {
            assert(is_capture_of(
                capture,
                text@,
                old(self).active_source_url,
                old(self).active_source_title,
                id,
                now,
            ));
        }
        Sampled::Captured { taken }
    }

    /// `observe_at` at the instant the clock gives, under a fresh name.
    pub fn observe(&mut self, content: Option<&str>, buffer: &mut CaptureBuffer) -> (r: Sampled)
        ensures
            exists|id: String, now: i64|
                is_observation(*old(self), *old(buffer), opt_str(content), id, now, *final(self), *final(buffer), r),
            old(buffer).wf() ==> final(buffer).wf(),
    {
        let id = fresh_id();
        let now = now_millis();
        self.observe_at(content, buffer, id, now)
    }
}

} // verus!
