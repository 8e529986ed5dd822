//! The decisions of a streaming download over an ordered list of mirrors:
//! which mirror to try next, when to report progress, when a body is complete,
//! and what happens to the partial file on cancellation or failure.
//!
//! The caller performs the transfers and file operations; each method returns
//! what to do and records in the session the state of the partial (`.part`)
//! file and whether it was committed to the destination.

use vstd::prelude::*;
use crate::mirror::strs_view;
use crate::text::{chars_of, decimal, owned, push_decimal, push_str, string_of};

verus! {

/// A progress event of a download or an extraction.
pub struct DownloadProgress {
    pub written: u64,
    pub total: Option<u64>,
    pub label: String,
    pub speed: Option<u64>,
}

/// What to do before the next attempt.
pub enum MirrorStep {
    /// Download from this URL.
    Try(String),
    /// The user cancelled: the partial file has to go, and the call reports cancellation.
    Cancelled,
    /// Every mirror failed: the partial file has to go, and the call fails with this message.
    Exhausted(String),
}

/// What to do after a chunk arrived.
pub enum ChunkStep {
    /// The user cancelled: the partial file has to go, and the call reports cancellation.
    Cancelled,
    /// Write the chunk, and report progress when one is given.
    Continue(Option<DownloadProgress>),
}

/// What to do at the end of a body; both carry the final progress event.
pub enum BodyEnd {
    /// The size matches (or was not announced): move the partial file over the destination.
    Complete(DownloadProgress),
    /// Fewer or more bytes than announced: the partial file has to go; try the next mirror.
    Incomplete(DownloadProgress),
}

/// Milliseconds between two progress events.
pub const EMIT_INTERVAL_MS: u64 = 200;

/// Milliseconds over which a speed is sampled.
pub const SPEED_WINDOW_MS: u64 = 1000;

/// The state of one download over its mirrors.
pub struct DownloadSession {
    pub urls: Vec<String>,
    pub next: usize,
    pub errors: Vec<String>,
    pub label: String,
    pub written: u64,
    pub expected: Option<u64>,
    pub last_emit_ms: u64,
    pub last_speed_written: u64,
    pub last_speed_ms: u64,
    pub speed: Option<u64>,
    /// A partial file of this download may be on disk.
    pub part_on_disk: bool,
    /// The partial file was moved over the destination.
    pub committed: bool,
    /// The download is over: committed, cancelled or failed for good.
    pub finished: bool,
}

/// The strings of `s` with `sep` between each two.
pub open spec fn join(s: Seq<Seq<char>>, sep: Seq<char>) -> Seq<char>
    decreases s.len(),
{
    if s.len() == 0 {
        seq![]
    } else if s.len() == 1 {
        s[0]
    } else {
        join(s.drop_last(), sep) + sep + s.last()
    }
}

/// The message when every mirror failed: each mirror's reason, joined by `; `.
pub open spec fn failure_message(errors: Seq<Seq<char>>) -> Seq<char> {
    if errors.len() == 0 {
        "download failed"@
    } else {
        "download failed: "@ + join(errors, "; "@)
    }
}

/// The reason recorded for a mirror.
pub open spec fn mirror_error(url: Seq<char>, reason: Seq<char>) -> Seq<char> {
    url + " -> "@ + reason
}

/// The reason recorded for a body of the wrong size.
pub open spec fn incomplete_reason(written: u64, len: u64) -> Seq<char> {
    "incomplete download ("@ + decimal(written as nat) + "/"@ + decimal(len as nat) + ")"@
}

/// `a - b`, or 0 when `b` exceeds `a`.
pub open spec fn sat_sub(a: u64, b: u64) -> int {
    if a >= b {
        a - b
    } else {
        0
    }
}

/// `a + b`, or the largest `u64` when that overflows.
pub open spec fn sat_add(a: u64, b: u64) -> int {
    if a + b <= u64::MAX {
        a + b
    } else {
        u64::MAX as int
    }
}

/// A progress event over the session's current counters.
pub open spec fn progress_of(s: &DownloadSession, p: &DownloadProgress) -> bool {
    &&& p.written == s.written
    &&& p.total == s.expected
    &&& p.label@ == s.label@
    &&& p.speed == s.speed
}

impl DownloadSession {
    /// The session's bookkeeping agrees with itself: a committed download is over.
    pub open spec fn wf(&self) -> bool {
        &&& self.next <= self.urls@.len()
        &&& self.committed ==> self.finished && !self.part_on_disk
    }

    /// The mirrors and the label stay as they were given.
    pub open spec fn same_plan(&self, other: &DownloadSession) -> bool {
        &&& self.urls@ == other.urls@
        &&& self.label@ == other.label@
    }

    /// A session over mirrors in the order to try them.
    pub fn new(urls: Vec<String>, label: &str) -> (r: DownloadSession)
        ensures
            r.wf(),
            r.urls@ == urls@,
            r.label@ == label@,
            r.next == 0,
            r.errors@.len() == 0,
            !r.part_on_disk && !r.committed && !r.finished,
    {
        DownloadSession {
            urls,
            next: 0,
            errors: Vec::new(),
            label: owned(label),
            written: 0,
            expected: None,
            last_emit_ms: 0,
            last_speed_written: 0,
            last_speed_ms: 0,
            speed: None,
            part_on_disk: false,
            committed: false,
            finished: false,
        }
    }

    fn progress(&self) -> (r: DownloadProgress)
        ensures
            progress_of(self, &r),
    {
        DownloadProgress {
            written: self.written,
            total: self.expected,
            label: self.label.clone(),
            speed: self.speed,
        }
    }

    /// The step before each attempt, with the cancellation flag as it stands.
    pub fn next_mirror(&mut self, cancelled: bool) -> (r: MirrorStep)
        requires
            old(self).wf(),
            !old(self).finished,
        ensures
            final(self).wf(),
            final(self).same_plan(old(self)),
            final(self).committed == old(self).committed,
            cancelled ==> r is Cancelled && final(self).finished && !final(self).part_on_disk,
            !cancelled && old(self).next < old(self).urls@.len() ==> r is Try && r->Try_0@
                == old(self).urls@[old(self).next as int]@ && final(self).next == old(self).next + 1
                && !final(self).finished && final(self).part_on_disk == old(self).part_on_disk
                && final(self).errors@ == old(self).errors@,
            !cancelled && old(self).next >= old(self).urls@.len() ==> r is Exhausted
                && r->Exhausted_0@ == failure_message(strs_view(old(self).errors@))
                && final(self).finished && !final(self).part_on_disk,
    {
        if cancelled {
            self.part_on_disk = false;
            self.finished = true;
            return MirrorStep::Cancelled;
        }
        if self.next < self.urls.len() {
            let url = self.urls[self.next].clone();
            self.next = self.next + 1;
            return MirrorStep::Try(url);
        }
        let msg = self.failure();
        self.part_on_disk = false;
        self.finished = true;
        MirrorStep::Exhausted(msg)
    }

    fn failure(&self) -> (r: String)
        ensures
            r@ == failure_message(strs_view(self.errors@)),
    {
        let ghost e = strs_view(self.errors@);
        if self.errors.len() == 0 {
            return owned("download failed");
        }
        let mut v: Vec<char> = Vec::new();
        push_str(&mut v, "download failed: ");
        let ghost head = v@;
        push_str(&mut v, self.errors[0].as_str());
        let mut k: usize = 1;
        assert(e.subrange(0, 1) =~= seq![e[0]]);
        while k < self.errors.len()
            invariant
                e == strs_view(self.errors@),
                1 <= k <= e.len(),
                v@ == head + join(e.subrange(0, k as int), "; "@),
            decreases e.len() - k,
        {
            push_str(&mut v, "; ");
            push_str(&mut v, self.errors[k].as_str());
            assert(e.subrange(0, k + 1).drop_last() =~= e.subrange(0, k as int));
            assert(v@ =~= head + join(e.subrange(0, k + 1), "; "@));
            k = k + 1;
        }
        assert(e.subrange(0, e.len() as int) =~= e);
        string_of(v.as_slice())
    }

    /// Records why a mirror failed (a transport error, a failing HTTP status).
    pub fn record_failure(&mut self, url: &str, reason: &str)
        requires
            old(self).wf(),
        ensures
            final(self).wf(),
            final(self).same_plan(old(self)),
            strs_view(final(self).errors@) == strs_view(old(self).errors@).push(mirror_error(url@, reason@)),
            final(self).next == old(self).next,
            final(self).part_on_disk == old(self).part_on_disk,
            final(self).committed == old(self).committed,
            final(self).finished == old(self).finished,
    {
        let mut v = chars_of(url);
        push_str(&mut v, " -> ");
        push_str(&mut v, reason);
        self.errors.push(string_of(v.as_slice()));
        assert(strs_view(self.errors@) =~= strs_view(old(self).errors@).push(mirror_error(url@, reason@)));
    }

    /// A body starts: the partial file is created, the counters reset, and the
    /// returned event announces the size when it is known.
    pub fn start_body(&mut self, expected: Option<u64>, now_ms: u64) -> (r: DownloadProgress)
        requires
            old(self).wf(),
            !old(self).finished,
        ensures
            final(self).wf(),
            final(self).same_plan(old(self)),
            final(self).next == old(self).next,
            final(self).errors@ == old(self).errors@,
            final(self).written == 0,
            final(self).expected == expected,
            final(self).speed is None,
            final(self).last_emit_ms == now_ms,
            final(self).last_speed_ms == now_ms,
            final(self).last_speed_written == 0,
            final(self).part_on_disk,
            !final(self).committed && !final(self).finished,
            progress_of(final(self), &r),
    {
        self.written = 0;
        self.expected = expected;
        self.last_emit_ms = now_ms;
        self.last_speed_written = 0;
        self.last_speed_ms = now_ms;
        self.speed = None;
        self.part_on_disk = true;
        self.progress()
    }

    /// A chunk of `len` bytes arrived at `now_ms`. A cancellation stops the
    /// download and leaves neither a partial file nor a destination behind.
    /// Otherwise the bytes are counted (saturating), and a progress event is
    /// due when 200 ms passed since the last; the speed is resampled then
    /// when a second passed since the last sample.
    pub fn on_chunk(&mut self, len: u64, now_ms: u64, cancelled: bool) -> (r: ChunkStep)
        requires
            old(self).wf(),
            !old(self).finished,
        ensures
            final(self).wf(),
            final(self).same_plan(old(self)),
            final(self).next == old(self).next,
            final(self).errors@ == old(self).errors@,
            cancelled ==> r is Cancelled && final(self).finished && !final(self).part_on_disk
                && !final(self).committed,
            !cancelled ==> r is Continue && !final(self).finished && final(self).part_on_disk
                == old(self).part_on_disk && final(self).written == sat_add(old(self).written, len)
                && final(self).expected == old(self).expected,
            !cancelled && sat_sub(now_ms, old(self).last_emit_ms) < EMIT_INTERVAL_MS ==> r
                == ChunkStep::Continue(None) && final(self).speed == old(self).speed
                && final(self).last_emit_ms == old(self).last_emit_ms && final(self).last_speed_written
                == old(self).last_speed_written && final(self).last_speed_ms == old(self).last_speed_ms,
            !cancelled && sat_sub(now_ms, old(self).last_emit_ms) >= EMIT_INTERVAL_MS ==> r
                is Continue && r->Continue_0 is Some && progress_of(final(self), &r->Continue_0->0)
                && final(self).last_emit_ms == now_ms,
            !cancelled && sat_sub(now_ms, old(self).last_emit_ms) >= EMIT_INTERVAL_MS && sat_sub(
                now_ms,
                old(self).last_speed_ms,
            ) >= SPEED_WINDOW_MS ==> final(self).speed == Some(
                (sat_sub(final(self).written, old(self).last_speed_written) * 1000 / sat_sub(
                    now_ms,
                    old(self).last_speed_ms,
                )) as u64,
            ) && final(self).last_speed_written == final(self).written && final(self).last_speed_ms
                == now_ms,
            !cancelled && sat_sub(now_ms, old(self).last_emit_ms) >= EMIT_INTERVAL_MS && sat_sub(
                now_ms,
                old(self).last_speed_ms,
            ) < SPEED_WINDOW_MS ==> final(self).speed == old(self).speed && final(self).last_speed_written
                == old(self).last_speed_written && final(self).last_speed_ms == old(self).last_speed_ms,
    {
        if cancelled {
            self.part_on_disk = false;
            self.finished = true;
            return ChunkStep::Cancelled;
        }
        self.written = self.written.saturating_add(len);
        let since_emit = now_ms.saturating_sub(self.last_emit_ms);
        if since_emit < EMIT_INTERVAL_MS {
            return ChunkStep::Continue(None);
        }
        let since_speed = now_ms.saturating_sub(self.last_speed_ms);
        if since_speed >= SPEED_WINDOW_MS {
            let delta = self.written.saturating_sub(self.last_speed_written);
            let prod: u128 = (delta as u128) * 1000;
            let rate: u128 = prod / (since_speed as u128);
            assert(rate as int <= delta as int) by (nonlinear_arith)
                requires
                    prod as int == (delta as int) * 1000,
                    rate as int == (prod as int) / (since_speed as int),
                    since_speed as int >= 1000,
            ;
            self.speed = Some(rate as u64);
            self.last_speed_written = self.written;
            self.last_speed_ms = now_ms;
        }
        self.last_emit_ms = now_ms;
        ChunkStep::Continue(Some(self.progress()))
    }

    /// The stream broke: the partial file has to go, the reason is recorded,
    /// and the next mirror is tried.
    pub fn on_stream_error(&mut self, url: &str, reason: &str)
        requires
            old(self).wf(),
            !old(self).finished,
        ensures
            final(self).wf(),
            final(self).same_plan(old(self)),
            final(self).next == old(self).next,
            strs_view(final(self).errors@) == strs_view(old(self).errors@).push(mirror_error(url@, reason@)),
            !final(self).part_on_disk && !final(self).committed && !final(self).finished,
    {
        self.record_failure(url, reason);
        self.part_on_disk = false;
    }

    /// The body ended. A body whose size differs from the announced one is
    /// discarded and recorded; any other is committed to the destination.
    pub fn finish_body(&mut self, url: &str) -> (r: BodyEnd)
        requires
            old(self).wf(),
            !old(self).finished,
        ensures
            final(self).wf(),
            final(self).same_plan(old(self)),
            final(self).next == old(self).next,
            match old(self).expected {
                Some(l) if old(self).written != l => r is Incomplete && progress_of(old(self), &r->Incomplete_0)
                    && strs_view(final(self).errors@) == strs_view(old(self).errors@).push(
                    mirror_error(url@, incomplete_reason(old(self).written, l)),
                ) && !final(self).part_on_disk && !final(self).committed && !final(self).finished,
                _ => r is Complete && progress_of(old(self), &r->Complete_0) && final(self).committed
                    && final(self).finished && !final(self).part_on_disk,
            },
    {
        let p = self.progress();
        if let Some(l) = self.expected {
            if self.written != l {
                let mut v: Vec<char> = Vec::new();
                push_str(&mut v, "incomplete download (");
                push_decimal(&mut v, self.written);
                push_str(&mut v, "/");
                push_decimal(&mut v, l);
                push_str(&mut v, ")");
                assert(v@ =~= incomplete_reason(self.written, l));
                let reason = string_of(v.as_slice());
                self.record_failure(url, reason.as_str());
                self.part_on_disk = false;
                return BodyEnd::Incomplete(p);
            }
        }
        self.part_on_disk = false;
        self.committed = true;
        self.finished = true;
        BodyEnd::Complete(p)
    }
}

} // verus!
