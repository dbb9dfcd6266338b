//! The download queue and the decisions of one download: which request to send,
//! what an answer means, when to retry and when to give up, and whether a file
//! matches the digest that its address names.
use vstd::prelude::*;
use vstd::string::*;
use vstd::utf8::encode_utf8;
use crate::api::{
    cookie_headers, header_views, lemma_split_last_len, new_header, push_cookie_header, split_chars,
    RequestHeader,
};
use crate::hashing::{sha256_of, ContentDigest};
use crate::settings::{
    DownloadState, DownloadStateView, Settings, SettingsChange, SettingsView, STATUS_COMPLETED,
    STATUS_DOWNLOADING, STATUS_FAILED, STATUS_PENDING,
};
use crate::text::{chars_of, decimal, digit_char, hex_of, hex_string, push_decimal};

verus! {

/// Consecutive failures without progress after which a download is given up.
pub const MAX_STALE_RETRIES: u32 = 25;

/// The retry limit that the first, `pending`, event of a download announces.
pub const PENDING_MAX_RETRIES: u32 = 10;

/// Seconds to wait before retrying after a failure that made progress.
pub const RETRY_AFTER_PROGRESS_SECS: u32 = 5;

/// Seconds to wait before retrying after a failure that made none.
pub const RETRY_AFTER_STALL_SECS: u32 = 60;

/// Seconds between two saves of a download's progress.
pub const PROGRESS_SAVE_INTERVAL_SECS: u64 = 5;

pub const STATUS_RETRYING: &'static str = "retrying";

pub const DEFAULT_FILE_SERVER: &'static str = "https://kemono.cr";

// ---------------------------------------------------------------- tasks and events

/// One file to download.
#[derive(Debug, Clone, PartialEq, Eq)]
pub struct DownloadTask {
    pub id: String,
    pub url: String,
    pub dest_path: String,
    pub file_name: String,
    pub post_id: String,
    pub session: String,
}

/// What the user interface is told of a download.
#[derive(Debug, Clone, PartialEq, Eq)]
pub struct DownloadProgress {
    pub id: String,
    pub downloaded: u64,
    pub total: u64,
    pub status: String,
    pub file_name: String,
    pub attempt: u32,
    pub max_retries: u32,
    pub retry_secs: u32,
    pub error: Option<String>,
}

/// An event with the given fields.
pub open spec fn is_event(
    e: DownloadProgress,
    task: DownloadTask,
    downloaded: u64,
    total: u64,
    status: Seq<char>,
    attempt: u32,
    max_retries: u32,
    retry_secs: u32,
    error: Option<Seq<char>>,
) -> bool {
    &&& e.id@ == task.id@
    &&& e.file_name@ == task.file_name@
    &&& e.downloaded == downloaded
    &&& e.total == total
    &&& e.status@ == status
    &&& e.attempt == attempt
    &&& e.max_retries == max_retries
    &&& e.retry_secs == retry_secs
    &&& crate::settings::opt_view(e.error) == error
}

fn event(
    task: &DownloadTask,
    downloaded: u64,
    total: u64,
    status: &str,
    attempt: u32,
    max_retries: u32,
    retry_secs: u32,
    error: Option<String>,
) -> (e: DownloadProgress)
    ensures
        is_event(
            e,
            *task,
            downloaded,
            total,
            status@,
            attempt,
            max_retries,
            retry_secs,
            crate::settings::opt_view(error),
        ),
{
    DownloadProgress {
        id: task.id.clone(),
        downloaded,
        total,
        status: String::from_str(status),
        file_name: task.file_name.clone(),
        attempt,
        max_retries,
        retry_secs,
        error,
    }
}

/// The record of a task that has just been queued: nothing downloaded yet, size
/// unknown, status `pending`, no entity tag.
pub open spec fn pending_view(t: DownloadTask) -> DownloadStateView {
    DownloadStateView {
        url: t.url@,
        path: t.dest_path@,
        downloaded: 0,
        total: 0,
        status: STATUS_PENDING@,
        post_id: t.post_id@,
        file_name: t.file_name@,
        etag: None,
    }
}

/// The settings once a task is queued: its pending record is stored under its
/// identifier, in place of any earlier one; nothing else changes.
pub open spec fn with_pending(s: SettingsView, t: DownloadTask) -> SettingsView {
    SettingsView { downloads: s.downloads.insert(t.id@, pending_view(t)), ..s }
}

/// The event that shows a queued download at once.
pub open spec fn is_pending_event(e: DownloadProgress, t: DownloadTask) -> bool {
    is_event(e, t, 0, 0, STATUS_PENDING@, 0, PENDING_MAX_RETRIES, 0, None)
}

impl DownloadTask {
    /// The record of a download that has just been queued.
    pub fn pending_record(&self) -> (r: DownloadState)
        ensures
            r@ == pending_view(*self),
    {
        DownloadState {
            url: self.url.clone(),
            path: self.dest_path.clone(),
            downloaded: 0,
            total: 0,
            status: String::from_str(STATUS_PENDING),
            post_id: self.post_id.clone(),
            file_name: self.file_name.clone(),
            etag: None,
        }
    }

    /// The event that shows a queued download at once.
    pub fn pending_event(&self) -> (e: DownloadProgress)
        ensures
            is_event(e, *self, 0, 0, STATUS_PENDING@, 0, PENDING_MAX_RETRIES, 0, None),
    {
        event(self, 0, 0, STATUS_PENDING, 0, PENDING_MAX_RETRIES, 0, None)
    }

    /// The event of a download that is given up.
    pub fn failed_event(&self, downloaded: u64, attempt: u32, error: String) -> (e:
        DownloadProgress)
        ensures
            is_event(
                e,
                *self,
                downloaded,
                0,
                STATUS_FAILED@,
                attempt,
                MAX_STALE_RETRIES,
                0,
                Some(error@),
            ),
    {
        event(self, downloaded, 0, STATUS_FAILED, attempt, MAX_STALE_RETRIES, 0, Some(error))
    }

    /// The event of a download waiting `secs` more seconds before its next attempt.
    pub fn retrying_event(&self, downloaded: u64, attempt: u32, secs: u32, error: String) -> (e:
        DownloadProgress)
        ensures
            is_event(
                e,
                *self,
                downloaded,
                0,
                STATUS_RETRYING@,
                attempt,
                MAX_STALE_RETRIES,
                secs,
                Some(error@),
            ),
    {
        event(self, downloaded, 0, STATUS_RETRYING, attempt, MAX_STALE_RETRIES, secs, Some(error))
    }

    /// The event of a download receiving data.
    pub fn downloading_event(&self, downloaded: u64, total: u64, attempt: u32) -> (e:
        DownloadProgress)
        ensures
            is_event(
                e,
                *self,
                downloaded,
                total,
                STATUS_DOWNLOADING@,
                attempt,
                MAX_STALE_RETRIES,
                0,
                None,
            ),
    {
        event(self, downloaded, total, STATUS_DOWNLOADING, attempt, MAX_STALE_RETRIES, 0, None)
    }

    /// The event of a finished download.
    pub fn completed_event(&self, downloaded: u64, total: u64, attempt: u32) -> (e:
        DownloadProgress)
        ensures
            is_event(
                e,
                *self,
                downloaded,
                total,
                STATUS_COMPLETED@,
                attempt,
                MAX_STALE_RETRIES,
                0,
                None,
            ),
    {
        event(self, downloaded, total, STATUS_COMPLETED, attempt, MAX_STALE_RETRIES, 0, None)
    }
}

// ---------------------------------------------------------------- the queue

/// The state of the queue: the waiting tasks, the next one first, and whether a
/// worker is running.
pub struct QueueModel {
    pub waiting: Seq<DownloadTask>,
    pub running: bool,
}

/// No task waits while no worker runs.
pub open spec fn queue_ok(m: QueueModel) -> bool {
    !m.running ==> m.waiting.len() == 0
}

/// Enqueuing: the task goes last, a worker runs afterwards, and one must be
/// started exactly when none was running.
pub open spec fn queue_enqueue(m: QueueModel, t: DownloadTask) -> (QueueModel, bool) {
    (QueueModel { waiting: m.waiting.push(t), running: true }, !m.running)
}

/// The worker's next step: it takes the first waiting task, or stops when none
/// waits.
pub open spec fn queue_next(m: QueueModel) -> (QueueModel, Option<DownloadTask>) {
    if m.waiting.len() == 0 {
        (QueueModel { waiting: m.waiting, running: false }, None)
    } else {
        (QueueModel { waiting: m.waiting.drop_first(), running: m.running }, Some(m.waiting[0]))
    }
}

/// A download whose `pending` record is in the settings in memory, not yet
/// written out. It is queued in three steps, in the order that keeps the record,
/// the event and the queue consistent: `record` stores the record; `saved` takes
/// the outcome of writing the settings and, only where that succeeded, hands out
/// the `pending` event together with the download ready to queue; and
/// `DownloadQueue::enqueue` queues it. A download whose settings could not be
/// written is never queued and never announced.
pub struct PendingDownload {
    task: DownloadTask,
}

/// A download whose record is saved and whose `pending` event has been handed out;
/// only `PendingDownload::saved` makes one.
pub struct AnnouncedDownload {
    task: DownloadTask,
}

impl AnnouncedDownload {
    pub closed spec fn task(&self) -> DownloadTask {
        self.task
    }
}

impl PendingDownload {
    pub closed spec fn task(&self) -> DownloadTask {
        self.task
    }

    /// Stores the `pending` record of `task` in `settings`, in place of any
    /// earlier record under its identifier; nothing else changes.
    pub fn record(task: DownloadTask, settings: &mut Settings) -> (r: Self)
        ensures
            final(settings)@ == with_pending(old(settings)@, task),
            r.task() == task,
    {
        let state = task.pending_record();
        settings.apply(SettingsChange::DownloadQueued { id: task.id.clone(), state });
        PendingDownload { task }
    }

    /// Takes the outcome of writing the settings. Where it failed, its error comes
    /// back and the download is dropped: no event, nothing to queue. Where it
    /// succeeded, the `pending` event to show comes back, before the download can
    /// be queued, with the download ready for `DownloadQueue::enqueue`.
    pub fn saved(self, outcome: Result<(), String>) -> (r: Result<
        (DownloadProgress, AnnouncedDownload),
        String,
    >)
        ensures
            match outcome {
                Err(e) => r matches Err(f) && f == e,
                Ok(_) => r matches Ok((ev, a)) && is_pending_event(ev, self.task()) && a.task()
                    == self.task(),
            },
    {
        match outcome {
            Err(e) => Err(e),
            Ok(()) => {
                let event = self.task.pending_event();
                Ok((event, AnnouncedDownload { task: self.task }))
            },
        }
    }
}

/// The tasks waiting for the worker, first come first served, and whether a
/// worker is running.
pub struct DownloadQueue {
    queue: Vec<DownloadTask>,
    is_running: bool,
}

impl DownloadQueue {
    pub closed spec fn view(&self) -> QueueModel {
        QueueModel { waiting: self.queue@, running: self.is_running }
    }

    #[verifier::type_invariant]
    spec fn inv(&self) -> bool {
        queue_ok(self.view())
    }

    /// An empty queue with no worker.
    pub fn new() -> (r: Self)
        ensures
            r.view() == (QueueModel { waiting: Seq::empty(), running: false }),
    {
        let r = DownloadQueue { queue: Vec::new(), is_running: false };
        assert(r.view().waiting =~= Seq::<DownloadTask>::empty());
        r
    }

    /// Queues a download whose pending record was saved and whose pending event
    /// was handed out (see `PendingDownload`): the task goes to the end of the
    /// queue, and the result says whether the caller must start a worker, which is
    /// exactly when none was running.
    pub fn enqueue(&mut self, download: AnnouncedDownload) -> (should_start: bool)
        ensures
            (final(self).view(), should_start) == queue_enqueue(old(self).view(), download.task()),
            queue_ok(final(self).view()),
    {
        self.push(download.task)
    }

    /// Puts a task at the end of the queue and says whether a worker must be
    /// started.
    fn push(&mut self, task: DownloadTask) -> (should_start: bool)
        ensures
            (final(self).view(), should_start) == queue_enqueue(old(self).view(), task),
            queue_ok(final(self).view()),
    {
        let should_start = !self.is_running;
        let mut waiting: Vec<DownloadTask> = Vec::new();
        std::mem::swap(&mut waiting, &mut self.queue);
        waiting.push(task);
        self.is_running = true;
        std::mem::swap(&mut waiting, &mut self.queue);
        should_start
    }

    /// The worker takes the next task; when there is none, the worker stops.
    pub fn next_task(&mut self) -> (r: Option<DownloadTask>)
        ensures
            (final(self).view(), r) == queue_next(old(self).view()),
            queue_ok(old(self).view()),
            queue_ok(final(self).view()),
    {
        proof {
            use_type_invariant(&*self);
        }
        if self.queue.len() == 0 {
            self.is_running = false;
            None
        } else {
            let mut waiting: Vec<DownloadTask> = Vec::new();
            std::mem::swap(&mut waiting, &mut self.queue);
            let first = waiting.remove(0);
            std::mem::swap(&mut waiting, &mut self.queue);
            Some(first)
        }
    }

    /// Number of waiting tasks; none waits while no worker runs.
    pub fn len(&self) -> (n: usize)
        ensures
            n == self.view().waiting.len(),
            queue_ok(self.view()),
    {
        proof {
            use_type_invariant(self);
        }
        self.queue.len()
    }

    /// Whether a worker is running.
    pub fn is_running(&self) -> (r: bool)
        ensures
            r == self.view().running,
    {
        self.is_running
    }
}

/// The queue after enqueuing `ts` in order.
pub open spec fn enqueue_all(m: QueueModel, ts: Seq<DownloadTask>) -> QueueModel
    decreases ts.len(),
{
    if ts.len() == 0 {
        m
    } else {
        queue_enqueue(enqueue_all(m, ts.drop_last()), ts.last()).0
    }
}

/// The tasks that the worker hands out in `n` steps.
pub open spec fn handed_out(m: QueueModel, n: nat) -> Seq<DownloadTask>
    decreases n,
{
    if n == 0 {
        Seq::empty()
    } else {
        let (m2, t) = queue_next(m);
        match t {
            Some(task) => seq![task] + handed_out(m2, (n - 1) as nat),
            None => Seq::empty(),
        }
    }
}

proof fn lemma_handed_out_is_prefix(m: QueueModel, n: nat)
    ensures
        n <= m.waiting.len() ==> handed_out(m, n) == m.waiting.take(n as int),
    decreases n,
{
    if n > 0 && n <= m.waiting.len() {
        let (m2, t) = queue_next(m);
        lemma_handed_out_is_prefix(m2, (n - 1) as nat);
        assert(seq![m.waiting[0]] + m.waiting.drop_first().take(n - 1) =~= m.waiting.take(
            n as int,
        ));
    }
    if n == 0 {
        assert(m.waiting.take(0) =~= Seq::<DownloadTask>::empty());
    }
}

/// First come, first served: tasks enqueued one after another are handed out by
/// the worker after those already waiting, in the order in which they came.
pub proof fn lemma_queue_is_fifo(m: QueueModel, ts: Seq<DownloadTask>)
    ensures
        enqueue_all(m, ts).waiting == m.waiting + ts,
        handed_out(enqueue_all(m, ts), (m.waiting.len() + ts.len()) as nat) == m.waiting + ts,
    decreases ts.len(),
{
    if ts.len() > 0 {
        lemma_queue_is_fifo(m, ts.drop_last());
        assert(m.waiting + ts.drop_last() + seq![ts.last()] =~= m.waiting + ts);
        assert((m.waiting + ts.drop_last()).push(ts.last()) =~= m.waiting + ts);
    } else {
        assert(m.waiting + ts =~= m.waiting);
    }
    let q = enqueue_all(m, ts);
    lemma_handed_out_is_prefix(q, (m.waiting.len() + ts.len()) as nat);
    assert(q.waiting.take(q.waiting.len() as int) =~= q.waiting);
}

/// One worker at a time: after an enqueue a worker runs, so a second enqueue
/// never asks for another; no task waits while no worker runs; and the worker
/// stops only once the queue is empty.
pub proof fn lemma_single_worker(m: QueueModel, a: DownloadTask, b: DownloadTask)
    requires
        queue_ok(m),
    ensures
        queue_ok(queue_enqueue(m, a).0),
        !queue_enqueue(queue_enqueue(m, a).0, b).1,
        queue_ok(queue_next(m).0),
        !queue_next(m).0.running ==> m.waiting.len() == 0 && queue_next(m).1 is None,
{
}

// ---------------------------------------------------------------- retrying

/// The attempts of one download so far, and the failures in a row that made no
/// progress.
#[derive(Debug, Clone, Copy, PartialEq, Eq)]
pub struct RetryState {
    pub attempt: u32,
    pub stale_failures: u32,
}

/// What to do after a failed attempt.
#[derive(Debug, Clone, PartialEq, Eq)]
pub enum RetryDecision {
    /// Give the download up.
    GiveUp,
    /// Count down this many seconds, then try again.
    RetryAfter { wait_secs: u32 },
}

/// The retry state after a failed attempt, and the decision.
pub open spec fn after_failure(stale: u32, made_progress: bool) -> (u32, RetryDecision) {
    if made_progress {
        (0, RetryDecision::RetryAfter { wait_secs: RETRY_AFTER_PROGRESS_SECS })
    } else if stale + 1 >= MAX_STALE_RETRIES {
        ((stale + 1) as u32, RetryDecision::GiveUp)
    } else {
        ((stale + 1) as u32, RetryDecision::RetryAfter { wait_secs: RETRY_AFTER_STALL_SECS })
    }
}

impl RetryState {
    /// A download before its first attempt.
    pub fn new() -> (r: Self)
        ensures
            r.attempt == 0,
            r.stale_failures == 0,
    {
        RetryState { attempt: 0, stale_failures: 0 }
    }

    /// Starts an attempt and returns its number, counting from 1.
    pub fn begin_attempt(&mut self) -> (n: u32)
        requires
            old(self).attempt < u32::MAX,
        ensures
            n == old(self).attempt + 1,
            final(self).attempt == n,
            final(self).stale_failures == old(self).stale_failures,
    {
        self.attempt = self.attempt + 1;
        self.attempt
    }

    /// Records a failed attempt: it made progress when the file on disk grew during
    /// it. Progress clears the count of stale failures and the next attempt comes
    /// after a short wait; a stale failure adds one, and the download is given up
    /// once the count reaches `MAX_STALE_RETRIES`, else retried after a long wait.
    pub fn record_failure(&mut self, bytes_before: u64, bytes_after: u64) -> (d: RetryDecision)
        requires
            old(self).stale_failures < u32::MAX,
        ensures
            (final(self).stale_failures, d) == after_failure(
                old(self).stale_failures,
                bytes_after > bytes_before,
            ),
            final(self).attempt == old(self).attempt,
    {
        if bytes_after > bytes_before {
            self.stale_failures = 0;
            RetryDecision::RetryAfter { wait_secs: RETRY_AFTER_PROGRESS_SECS }
        } else {
            self.stale_failures = self.stale_failures + 1;
            if self.stale_failures >= MAX_STALE_RETRIES {
                RetryDecision::GiveUp
            } else {
                RetryDecision::RetryAfter { wait_secs: RETRY_AFTER_STALL_SECS }
            }
        }
    }
}

/// The seconds shown while waiting `wait` seconds: `wait`, then one less each
/// second, down to 1.
pub fn retry_countdown(wait: u32) -> (r: Vec<u32>)
    ensures
        r@.len() == wait,
        forall|i: int| 0 <= i < wait ==> #[trigger] r@[i] == wait - i,
{
    let mut r: Vec<u32> = Vec::new();
    let mut remaining: u32 = wait;
    while remaining > 0
        invariant
            remaining <= wait,
            r@.len() == wait - remaining,
            forall|i: int| 0 <= i < r@.len() ==> #[trigger] r@[i] == wait - i,
        decreases remaining,
    {
        r.push(remaining);
        remaining = remaining - 1;
    }
    r
}


// ---------------------------------------------------------------- the request

/// The range that asks for a file from byte `offset` on: `bytes=<offset>-`.
pub open spec fn range_from(offset: u64) -> Seq<char> {
    "bytes="@ + decimal(offset as nat) + "-"@
}

/// The headers of a download request: `accept: */*`, the session cookie, and to
/// resume a partial file, a range from its size on, with the stored entity tag as
/// `if-range` (each header where its value is a valid header value).
pub open spec fn download_headers(
    session: Seq<char>,
    bytes_on_disk: u64,
    stored_etag: Option<Seq<char>>,
) -> Seq<(Seq<char>, Seq<char>)> {
    let base = seq![("accept"@, "*/*"@)] + cookie_headers(session);
    if bytes_on_disk > 0 {
        let range = range_from(bytes_on_disk);
        let with_range = if crate::api::is_header_value(range) {
            base.push(("range"@, range))
        } else {
            base
        };
        match stored_etag {
            Some(t) => if crate::api::is_header_value(t) {
                with_range.push(("if-range"@, t))
            } else {
                with_range
            },
            None => with_range,
        }
    } else {
        base
    }
}

/// The headers of a download request.
pub fn build_download_headers(session: &str, bytes_on_disk: u64, stored_etag: &Option<String>) -> (r:
    Vec<RequestHeader>)
    ensures
        header_views(r@) == download_headers(
            session@,
            bytes_on_disk,
            crate::settings::opt_view(*stored_etag),
        ),
{
    let mut hs: Vec<RequestHeader> = Vec::new();
    hs.push(new_header("accept", String::from_str("*/*")));
    assert(header_views(hs@) =~= seq![("accept"@, "*/*"@)]);
    push_cookie_header(&mut hs, session);
    if bytes_on_disk > 0 {
        let ghost base = header_views(hs@);
        let mut range = String::from_str("bytes=");
        push_decimal(&mut range, bytes_on_disk);
        range.append("-");
        if crate::api::header_value_ok(range.as_str()) {
            hs.push(new_header("range", range));
            assert(header_views(hs@) =~= base.push(("range"@, range_from(bytes_on_disk))));
        }
        let ghost with_range = header_views(hs@);
        match stored_etag {
            Some(t) => {
                if crate::api::header_value_ok(t.as_str()) {
                    hs.push(new_header("if-range", t.clone()));
                    assert(header_views(hs@) =~= with_range.push(("if-range"@, t@)));
                }
            },
            None => {},
        }
    }
    hs
}

// ---------------------------------------------------------------- numbers in text

pub open spec fn is_digit(c: char) -> bool {
    '0' <= c <= '9'
}

/// The value of a string of decimal digits.
pub open spec fn digits_value(s: Seq<char>) -> nat
    decreases s.len(),
{
    if s.len() == 0 {
        0
    } else {
        digits_value(s.drop_last()) * 10 + ((s.last() as nat) - 48) as nat
    }
}

/// The digits of a number: what follows an optional `+`.
pub open spec fn unsigned_digits(s: Seq<char>) -> Seq<char> {
    if s.len() > 0 && s[0] == '+' {
        s.skip(1)
    } else {
        s
    }
}

/// The number that `s` writes (`str::parse::<u64>`): an optional `+` and one
/// or more decimal digits, of a value that fits.
pub open spec fn parsed_u64(s: Seq<char>) -> Option<u64> {
    let d = unsigned_digits(s);
    if d.len() > 0 && (forall|i: int| 0 <= i < d.len() ==> is_digit(#[trigger] d[i]))
        && digits_value(d) <= u64::MAX {
        Some(digits_value(d) as u64)
    } else {
        None
    }
}

proof fn lemma_digits_value_grows(s: Seq<char>, k: int)
    requires
        0 <= k <= s.len(),
        forall|i: int| 0 <= i < s.len() ==> is_digit(#[trigger] s[i]),
    ensures
        digits_value(s.take(k)) <= digits_value(s),
    decreases s.len(),
{
    if k < s.len() {
        assert(s.drop_last().take(k) =~= s.take(k));
        lemma_digits_value_grows(s.drop_last(), k);
    } else {
        assert(s.take(k) =~= s);
    }
}

/// Reads a number as `str::parse::<u64>` does.
pub fn parse_u64(cs: &Vec<char>) -> (r: Option<u64>)
    ensures
        r == parsed_u64(cs@),
{
    let start: usize = if cs.len() > 0 && cs[0] == '+' {
        1
    } else {
        0
    };
    let ghost d = unsigned_digits(cs@);
    assert(d =~= cs@.skip(start as int));
    if start >= cs.len() {
        return None;
    }
    let mut value: u64 = 0;
    let mut i: usize = start;
    while i < cs.len()
        invariant
            start <= i <= cs.len(),
            d == cs@.skip(start as int),
            d == unsigned_digits(cs@),
            forall|j: int| 0 <= j < i - start ==> is_digit(#[trigger] d[j]),
            value == digits_value(d.take(i - start)),
        decreases cs.len() - i,
    {
        let c = cs[i];
        if !('0' <= c && c <= '9') {
            assert(d[i - start] == c);
            assert(!is_digit(d[i - start]));
            return None;
        }
        assert(d.take(i + 1 - start).drop_last() =~= d.take(i - start));
        let digit: u64 = (c as u32 - 48) as u64;
        match value.checked_mul(10) {
            Some(v10) => match v10.checked_add(digit) {
                Some(v) => {
                    value = v;
                },
                None => {
                    proof {
                        self::lemma_rest_digits(d, i + 1 - start);
                    }
                    return None;
                },
            },
            None => {
                proof {
                    self::lemma_rest_digits(d, i + 1 - start);
                }
                return None;
            },
        }
        i = i + 1;
    }
    assert(d.take(cs.len() - start) =~= d);
    Some(value)
}

proof fn lemma_rest_digits(d: Seq<char>, k: int)
    requires
        0 < k <= d.len(),
        forall|j: int| 0 <= j < k - 1 ==> is_digit(#[trigger] d[j]),
        is_digit(d[k - 1]),
        digits_value(d.take(k)) > u64::MAX,
    ensures
        parsed_u64_digits_overflow(d),
{
    if forall|j: int| 0 <= j < d.len() ==> is_digit(#[trigger] d[j]) {
        lemma_digits_value_grows(d, k);
    }
}

/// `d` is not a string of digits whose value fits.
pub open spec fn parsed_u64_digits_overflow(d: Seq<char>) -> bool {
    !((forall|i: int| 0 <= i < d.len() ==> is_digit(#[trigger] d[i])) && digits_value(d)
        <= u64::MAX)
}

// ---------------------------------------------------------------- the answer

pub const RANGE_UNSATISFIED_PREFIX: &'static str = "bytes */";

/// The size of the whole file that a `416` answer states in its
/// `content-range: bytes */SIZE` header.
pub open spec fn unsatisfied_range_total(content_range: Option<Seq<char>>) -> Option<u64> {
    match content_range {
        Some(v) => if crate::text::has_prefix(v, RANGE_UNSATISFIED_PREFIX@) {
            parsed_u64(v.skip(RANGE_UNSATISFIED_PREFIX@.len() as int))
        } else {
            None
        },
        None => None,
    }
}

/// Reads the total size out of a `content-range` header of a `416` answer.
pub fn total_from_content_range(content_range: &Option<String>) -> (r: Option<u64>)
    ensures
        r == unsatisfied_range_total(crate::settings::opt_view(*content_range)),
{
    match content_range {
        None => None,
        Some(v) => {
            let cs = chars_of(v.as_str());
            if !crate::text::starts_with(&cs, RANGE_UNSATISFIED_PREFIX) {
                return None;
            }
            let n = RANGE_UNSATISFIED_PREFIX.unicode_len();
            let mut rest: Vec<char> = Vec::new();
            let mut k: usize = n;
            while k < cs.len()
                invariant
                    n <= k <= cs.len(),
                    rest@ =~= cs@.subrange(n as int, k as int),
                decreases cs.len() - k,
            {
                rest.push(cs[k]);
                k = k + 1;
            }
            assert(rest@ =~= cs@.skip(n as int));
            parse_u64(&rest)
        },
    }
}

/// What a download does with the server's answer.
#[derive(Debug, Clone, PartialEq, Eq)]
pub enum ResponsePlan {
    /// `416` while the file on disk is at least as large as the whole file: it is
    /// complete already.
    AlreadyComplete { total: u64 },
    /// `416` otherwise: the partial file is deleted and the next attempt starts
    /// afresh.
    DiscardPartial,
    /// Any other status outside 200..=299.
    Rejected,
    /// The body is the file, from `offset` on: resuming when the server answered
    /// `206` to a request for the rest of a partial file; `total` is the whole size
    /// (0 where the length is unknown).
    Receive { resuming: bool, offset: u64, total: u64 },
}

pub open spec fn response_plan(
    status: u16,
    content_range: Option<Seq<char>>,
    bytes_on_disk: u64,
    content_length: Option<u64>,
) -> ResponsePlan {
    if status == 416 {
        match unsatisfied_range_total(content_range) {
            Some(t) => if bytes_on_disk >= t {
                ResponsePlan::AlreadyComplete { total: t }
            } else {
                ResponsePlan::DiscardPartial
            },
            None => ResponsePlan::DiscardPartial,
        }
    } else if !(200 <= status <= 299) {
        ResponsePlan::Rejected
    } else {
        let length = match content_length {
            Some(n) => n,
            None => 0,
        };
        if status == 206 && bytes_on_disk > 0 {
            ResponsePlan::Receive {
                resuming: true,
                offset: bytes_on_disk,
                total: (bytes_on_disk + length) as u64,
            }
        } else {
            ResponsePlan::Receive { resuming: false, offset: 0, total: length }
        }
    }
}

/// Decides what to do with an answer of `status`, given the size of the file on
/// disk, the answer's `content-range` header (where it is text) and its body
/// length (where known).
pub fn plan_response(
    status: u16,
    content_range: &Option<String>,
    bytes_on_disk: u64,
    content_length: Option<u64>,
) -> (r: ResponsePlan)
    requires
        status == 206 && bytes_on_disk > 0 ==> bytes_on_disk + match content_length {
            Some(n) => n,
            None => 0,
        } <= u64::MAX,
    ensures
        r == response_plan(
            status,
            crate::settings::opt_view(*content_range),
            bytes_on_disk,
            content_length,
        ),
{
    if status == 416 {
        match total_from_content_range(content_range) {
            Some(t) => {
                if bytes_on_disk >= t {
                    ResponsePlan::AlreadyComplete { total: t }
                } else {
                    ResponsePlan::DiscardPartial
                }
            },
            None => ResponsePlan::DiscardPartial,
        }
    } else if !(200 <= status && status <= 299) {
        ResponsePlan::Rejected
    } else {
        let length = match content_length {
            Some(n) => n,
            None => 0,
        };
        if status == 206 && bytes_on_disk > 0 {
            ResponsePlan::Receive {
                resuming: true,
                offset: bytes_on_disk,
                total: bytes_on_disk + length,
            }
        } else {
            ResponsePlan::Receive { resuming: false, offset: 0, total: length }
        }
    }
}

pub const DISCARDED_PARTIAL_MESSAGE: &'static str =
    "HTTP 416, deleted partial file and will retry from scratch";

/// The error of a rejected answer: `HTTP <status> from <final address>`.
pub fn rejected_message(status: &str, final_url: &str) -> (r: String)
    ensures
        r@ == "HTTP "@ + status@ + " from "@ + final_url@,
{
    let mut r = String::from_str("HTTP ");
    r.append(status);
    r.append(" from ");
    r.append(final_url);
    r
}

/// The size after a chunk of `len` bytes has arrived.
pub fn add_chunk(downloaded: u64, len: usize) -> (r: u64)
    requires
        downloaded + len <= u64::MAX,
    ensures
        r == downloaded + len,
{
    downloaded + len as u64
}

/// Progress is saved when at least `PROGRESS_SAVE_INTERVAL_SECS` have passed
/// since the last save.
pub fn should_save_progress(elapsed_secs: u64) -> (r: bool)
    ensures
        r == (elapsed_secs >= PROGRESS_SAVE_INTERVAL_SECS),
{
    elapsed_secs >= PROGRESS_SAVE_INTERVAL_SECS
}

pub open spec fn empty_file_error(total: u64) -> Seq<char> {
    "File saved but is 0 bytes (expected "@ + decimal(total as nat) + ")"@
}

/// Checks the file after the transfer: an empty file where the server announced
/// content is an error.
pub fn check_saved_file(size_on_disk: u64, total: u64) -> (r: Result<(), String>)
    ensures
        size_on_disk == 0 && total > 0 ==> (r matches Err(e) && e@ == empty_file_error(total)),
        !(size_on_disk == 0 && total > 0) ==> r is Ok,
{
    if size_on_disk == 0 && total > 0 {
        let mut e = String::from_str("File saved but is 0 bytes (expected ");
        push_decimal(&mut e, total);
        e.append(")");
        Err(e)
    } else {
        Ok(())
    }
}

// ---------------------------------------------------------------- the steps of an attempt

/// What an attempt does with the server's answer, in this order.
#[derive(Debug, Clone, PartialEq, Eq)]
pub enum AnswerStep {
    /// The file on disk is whole: check its digest, record `change`, show `event`,
    /// and end the attempt successfully.
    Complete { change: SettingsChange, event: DownloadProgress },
    /// Delete the partial file and end the attempt with `error`.
    Discard { error: String },
    /// End the attempt with `error`.
    Fail { error: String },
    /// Record `change`, show `event`, then receive the body: from byte `offset`
    /// on, into the file as it is where `resuming`, else into an emptied file;
    /// `total` is the size of the whole file (0 where unknown).
    Receive {
        change: SettingsChange,
        event: DownloadProgress,
        resuming: bool,
        offset: u64,
        total: u64,
    },
}

/// The step that follows an answer planned as `plan`, to an attempt that found
/// `bytes_on_disk` bytes on disk, where the answer has status `status` (as text),
/// comes from `final_url` and carries the entity tag `etag`.
pub open spec fn answer_step_of(
    r: AnswerStep,
    task: DownloadTask,
    attempt: u32,
    plan: ResponsePlan,
    bytes_on_disk: u64,
    etag: Option<Seq<char>>,
    status: Seq<char>,
    final_url: Seq<char>,
) -> bool {
    match plan {
        ResponsePlan::AlreadyComplete { total } => match r {
            AnswerStep::Complete { change, event } => {
                &&& change matches SettingsChange::DownloadAlreadyComplete { id, size, total: t }
                    && id@ == task.id@ && size == bytes_on_disk && t == total
                &&& is_event(
                    event,
                    task,
                    bytes_on_disk,
                    total,
                    STATUS_COMPLETED@,
                    attempt,
                    MAX_STALE_RETRIES,
                    0,
                    None,
                )
            },
            _ => false,
        },
        ResponsePlan::DiscardPartial => r matches AnswerStep::Discard { error }
            && error@ == DISCARDED_PARTIAL_MESSAGE@,
        ResponsePlan::Rejected => r matches AnswerStep::Fail { error } && error@ == "HTTP "@
            + status + " from "@ + final_url,
        ResponsePlan::Receive { resuming, offset, total } => match r {
            AnswerStep::Receive { change, event, resuming: rs, offset: o, total: t } => {
                &&& rs == resuming && o == offset && t == total
                &&& change matches SettingsChange::DownloadStarted {
                    id,
                    total: ct,
                    offset: co,
                    etag: ce,
                } && id@ == task.id@ && ct == total && co == offset
                    && crate::settings::opt_view(ce) == etag
                &&& is_event(
                    event,
                    task,
                    offset,
                    total,
                    STATUS_DOWNLOADING@,
                    attempt,
                    MAX_STALE_RETRIES,
                    0,
                    None,
                )
            },
            _ => false,
        },
    }
}

/// Decides the step after the server's answer.
pub fn answer_step(
    task: &DownloadTask,
    attempt: u32,
    plan: ResponsePlan,
    bytes_on_disk: u64,
    etag: Option<String>,
    status: &str,
    final_url: &str,
) -> (r: AnswerStep)
    ensures
        answer_step_of(
            r,
            *task,
            attempt,
            plan,
            bytes_on_disk,
            crate::settings::opt_view(etag),
            status@,
            final_url@,
        ),
{
    match plan {
        ResponsePlan::AlreadyComplete { total } => AnswerStep::Complete {
            change: SettingsChange::DownloadAlreadyComplete {
                id: task.id.clone(),
                size: bytes_on_disk,
                total,
            },
            event: task.completed_event(bytes_on_disk, total, attempt),
        },
        ResponsePlan::DiscardPartial => AnswerStep::Discard {
            error: String::from_str(DISCARDED_PARTIAL_MESSAGE),
        },
        ResponsePlan::Rejected => AnswerStep::Fail { error: rejected_message(status, final_url) },
        ResponsePlan::Receive { resuming, offset, total } => AnswerStep::Receive {
            change: SettingsChange::DownloadStarted { id: task.id.clone(), total, offset, etag },
            event: task.downloading_event(offset, total, attempt),
            resuming,
            offset,
            total,
        },
    }
}

/// What follows a chunk of the body: the size received so far, the event to
/// show, and the change to record where progress is due to be saved.
pub fn chunk_step(
    task: &DownloadTask,
    attempt: u32,
    downloaded: u64,
    len: usize,
    total: u64,
    secs_since_save: u64,
) -> (r: (u64, DownloadProgress, Option<SettingsChange>))
    requires
        downloaded + len <= u64::MAX,
    ensures
        r.0 == downloaded + len,
        is_event(r.1, *task, r.0, total, STATUS_DOWNLOADING@, attempt, MAX_STALE_RETRIES, 0, None),
        secs_since_save >= PROGRESS_SAVE_INTERVAL_SECS ==> (r.2 matches Some(
            SettingsChange::DownloadProgressed { id, downloaded: d },
        ) && id@ == task.id@ && d == r.0),
        secs_since_save < PROGRESS_SAVE_INTERVAL_SECS ==> r.2 is None,
{
    let now = add_chunk(downloaded, len);
    let event = task.downloading_event(now, total, attempt);
    let change = if should_save_progress(secs_since_save) {
        Some(SettingsChange::DownloadProgressed { id: task.id.clone(), downloaded: now })
    } else {
        None
    };
    (now, event, change)
}

/// What ends a transfer once the body is written: an empty file where content
/// was announced is an error; otherwise, after the digest check, the change that
/// records the download as completed and the event that shows it.
pub fn finish_step(
    task: &DownloadTask,
    attempt: u32,
    size_on_disk: u64,
    downloaded: u64,
    total: u64,
) -> (r: Result<(SettingsChange, DownloadProgress), String>)
    ensures
        size_on_disk == 0 && total > 0 ==> (r matches Err(e) && e@ == empty_file_error(total)),
        !(size_on_disk == 0 && total > 0) ==> (r matches Ok((change, event)) && (change matches SettingsChange::DownloadCompleted {
            id,
            downloaded: d,
        } && id@ == task.id@ && d == downloaded) && is_event(
            event,
            *task,
            downloaded,
            total,
            STATUS_COMPLETED@,
            attempt,
            MAX_STALE_RETRIES,
            0,
            None,
        )),
{
    match check_saved_file(size_on_disk, total) {
        Err(e) => Err(e),
        Ok(()) => Ok((
            SettingsChange::DownloadCompleted { id: task.id.clone(), downloaded },
            task.completed_event(downloaded, total, attempt),
        )),
    }
}

/// What follows a failed attempt, after the download is recorded as failed.
#[derive(Debug, Clone, PartialEq, Eq)]
pub enum FailureStep {
    /// Show `event` and give the download up.
    GiveUp { event: DownloadProgress },
    /// Show each event, one second apart, then try again.
    Retry { events: Vec<DownloadProgress> },
}

/// Decides what follows a failed attempt that had `bytes_before` bytes on disk at
/// its start and `bytes_after` at its end: the download is recorded as failed
/// (`change`); then it is given up with a `failed` event, or retried after a
/// countdown of `retrying` events, as `RetryState::record_failure` decides.
pub fn failure_step(
    retry: &mut RetryState,
    task: &DownloadTask,
    attempt: u32,
    bytes_before: u64,
    bytes_after: u64,
    error: String,
) -> (r: (SettingsChange, FailureStep))
    requires
        old(retry).stale_failures < u32::MAX,
    ensures
        ({
            let (stale, decision) = after_failure(
                old(retry).stale_failures,
                bytes_after > bytes_before,
            );
            &&& final(retry).stale_failures == stale
            &&& final(retry).attempt == old(retry).attempt
            &&& r.0 matches SettingsChange::DownloadFailed { id } && id@ == task.id@
            &&& match decision {
                RetryDecision::GiveUp => r.1 matches FailureStep::GiveUp { event } && is_event(
                    event,
                    *task,
                    bytes_after,
                    0,
                    STATUS_FAILED@,
                    attempt,
                    MAX_STALE_RETRIES,
                    0,
                    Some(error@),
                ),
                RetryDecision::RetryAfter { wait_secs } => r.1 matches FailureStep::Retry { events }
                    && events@.len() == wait_secs && forall|i: int|
                    0 <= i < wait_secs ==> is_event(
                        #[trigger] events@[i],
                        *task,
                        bytes_after,
                        0,
                        STATUS_RETRYING@,
                        attempt,
                        MAX_STALE_RETRIES,
                        (wait_secs - i) as u32,
                        Some(error@),
                    ),
            }
        }),
{
    let decision = retry.record_failure(bytes_before, bytes_after);
    let change = SettingsChange::DownloadFailed { id: task.id.clone() };
    match decision {
        RetryDecision::GiveUp => (change, FailureStep::GiveUp {
            event: task.failed_event(bytes_after, attempt, error),
        }),
        RetryDecision::RetryAfter { wait_secs } => {
            let secs = retry_countdown(wait_secs);
            let mut events: Vec<DownloadProgress> = Vec::new();
            let mut i: usize = 0;
            while i < secs.len()
                invariant
                    i <= secs@.len(),
                    secs@.len() == wait_secs,
                    forall|k: int| 0 <= k < wait_secs ==> #[trigger] secs@[k] == wait_secs - k,
                    events@.len() == i,
                    forall|k: int|
                        0 <= k < i ==> is_event(
                            #[trigger] events@[k],
                            *task,
                            bytes_after,
                            0,
                            STATUS_RETRYING@,
                            attempt,
                            MAX_STALE_RETRIES,
                            (wait_secs - k) as u32,
                            Some(error@),
                        ),
                decreases secs.len() - i,
            {
                events.push(task.retrying_event(bytes_after, attempt, secs[i], error.clone()));
                i = i + 1;
            }
            (change, FailureStep::Retry { events })
        },
    }
}

// ---------------------------------------------------------------- digests

pub open spec fn is_hex_digit(c: char) -> bool {
    ('0' <= c <= '9') || ('a' <= c <= 'f') || ('A' <= c <= 'F')
}

/// The last segment of an address: what follows its last `/`.
pub open spec fn last_segment(url: Seq<char>) -> Seq<char> {
    crate::api::split_on(url, '/').last()
}

/// What precedes the first `?`.
pub open spec fn before_query(s: Seq<char>) -> Seq<char> {
    crate::api::split_on(s, '?')[0]
}

/// What precedes the last `.`, or all of `s` where there is none.
pub open spec fn stem(s: Seq<char>) -> Seq<char> {
    let parts = crate::api::split_on(s, '.');
    if parts.len() > 1 {
        s.take(s.len() - parts.last().len() - 1)
    } else {
        s
    }
}

/// The SHA-256 digest that a file address names: the stem of its file name,
/// where that is 64 hexadecimal digits.
pub open spec fn expected_digest(url: Seq<char>) -> Option<Seq<char>> {
    let h = stem(before_query(last_segment(url)));
    if h.len() == 64 && (forall|i: int| 0 <= i < h.len() ==> is_hex_digit(#[trigger] h[i])) {
        Some(h)
    } else {
        None
    }
}


/// The SHA-256 digest named by a file address (see `expected_digest`).
pub fn expected_sha256_from_url(url: &str) -> (r: Option<String>)
    ensures
        match r {
            Some(h) => expected_digest(url@) == Some(h@),
            None => expected_digest(url@) is None,
        },
{
    let cs = chars_of(url);
    let segments = split_chars(&cs, '/');
    proof {
        lemma_split_last_len(cs@, '/');
    }
    let seg = &segments[segments.len() - 1];
    let queries = split_chars(seg, '?');
    proof {
        lemma_split_last_len(seg@, '?');
    }
    let q = &queries[0];
    let dots = split_chars(q, '.');
    proof {
        lemma_split_last_len(q@, '.');
    }
    let mut h: Vec<char> = Vec::new();
    let end: usize = if dots.len() > 1 {
        q.len() - dots[dots.len() - 1].len() - 1
    } else {
        q.len()
    };
    let mut k: usize = 0;
    while k < end
        invariant
            k <= end <= q@.len(),
            h@ =~= q@.take(k as int),
        decreases end - k,
    {
        h.push(q[k]);
        k = k + 1;
    }
    assert(h@ == stem(before_query(last_segment(url@))));
    if h.len() != 64 {
        return None;
    }
    let mut i: usize = 0;
    while i < h.len()
        invariant
            i <= h@.len(),
            h@.len() == 64,
            h@ == stem(before_query(last_segment(url@))),
            forall|j: int| 0 <= j < i ==> is_hex_digit(#[trigger] h@[j]),
        decreases h.len() - i,
    {
        let c = h[i];
        if !(('0' <= c && c <= '9') || ('a' <= c && c <= 'f') || ('A' <= c && c <= 'F')) {
            assert(!is_hex_digit(h@[i as int]));
            return None;
        }
        i = i + 1;
    }
    Some(crate::text::string_of(&h))
}

/// Whether a digest, written in lowercase hexadecimal, reads `expected`.
pub fn digest_matches(expected: &str, digest: &Vec<u8>) -> (r: bool)
    ensures
        r == (hex_of(digest@) == expected@),
{
    let actual = hex_string(digest);
    crate::html_generator::str_eq(actual.as_str(), expected)
}

/// What the digest check found.
#[derive(Debug, Clone, PartialEq, Eq)]
pub enum DigestCheck {
    /// The address names no digest; nothing was checked.
    Skipped,
    /// The file's digest is the one the address names.
    Verified,
    /// It is not.
    Mismatch,
}

pub open spec fn digest_check(url: Seq<char>, content: Seq<u8>) -> DigestCheck {
    match expected_digest(url) {
        None => DigestCheck::Skipped,
        Some(h) => if hex_of(sha256_of(content)) == h {
            DigestCheck::Verified
        } else {
            DigestCheck::Mismatch
        },
    }
}

/// Compares the digest that an address names with the digest of the content
/// that `hasher` has taken in. The check only informs: a mismatch fails nothing.
pub fn check_file_digest(url: &str, hasher: ContentDigest) -> (r: DigestCheck)
    ensures
        r == digest_check(url@, hasher.input()),
{
    match expected_sha256_from_url(url) {
        None => DigestCheck::Skipped,
        Some(h) => {
            let digest = hasher.finish();
            if digest_matches(h.as_str(), &digest) {
                DigestCheck::Verified
            } else {
                DigestCheck::Mismatch
            }
        },
    }
}


// ---------------------------------------------------------------- laws

/// The failures in a row, at the end of `o`, that made no progress (`o[i]` says
/// whether failure `i` made progress).
pub open spec fn trailing_stalls(o: Seq<bool>) -> nat
    decreases o.len(),
{
    if o.len() == 0 {
        0
    } else if o.last() {
        0
    } else {
        trailing_stalls(o.drop_last()) + 1
    }
}

/// The stale count after the failures `o` of a download, from a fresh start.
pub open spec fn stale_after(o: Seq<bool>) -> u32
    decreases o.len(),
{
    if o.len() == 0 {
        0
    } else {
        after_failure(stale_after(o.drop_last()), o.last()).0
    }
}

/// The decision after the last of the failures `o`.
pub open spec fn decision_after(o: Seq<bool>) -> RetryDecision
    recommends
        o.len() > 0,
{
    after_failure(stale_after(o.drop_last()), o.last()).1
}

/// Giving up counts stalls only: while a download goes on, its stale count is the
/// number of failures in a row without progress, and it is given up exactly at
/// the failure that makes that run reach `MAX_STALE_RETRIES`; a failure that made
/// progress never gives it up.
pub proof fn lemma_retry_counts_stalls(o: Seq<bool>)
    requires
        forall|k: int| 0 <= k < o.len() ==> trailing_stalls(#[trigger] o.take(k)) < MAX_STALE_RETRIES,
    ensures
        stale_after(o) == trailing_stalls(o),
        o.len() > 0 ==> (decision_after(o) is GiveUp <==> trailing_stalls(o) == MAX_STALE_RETRIES),
        o.len() > 0 && o.last() ==> decision_after(o) == (RetryDecision::RetryAfter {
            wait_secs: RETRY_AFTER_PROGRESS_SECS,
        }),
    decreases o.len(),
{
    if o.len() > 0 {
        let p = o.drop_last();
        assert forall|k: int| 0 <= k < p.len() implies trailing_stalls(#[trigger] p.take(k))
            < MAX_STALE_RETRIES by {
            assert(p.take(k) =~= o.take(k));
        }
        lemma_retry_counts_stalls(p);
        assert(o.take(p.len() as int) =~= p);
    }
}

/// What the answer plan promises: a resumed transfer only on `206` with a partial
/// file on disk, and from its end; a fresh one from byte 0 with the announced
/// length as total; `complete` only on `416` with the file on disk at least as
/// large as the stated total.
pub proof fn lemma_response_plan(
    status: u16,
    content_range: Option<Seq<char>>,
    bytes_on_disk: u64,
    content_length: Option<u64>,
)
    ensures
        match response_plan(status, content_range, bytes_on_disk, content_length) {
            ResponsePlan::Receive { resuming, offset, total } => {
                &&& 200 <= status <= 299
                &&& resuming <==> (status == 206 && bytes_on_disk > 0)
                &&& resuming ==> offset == bytes_on_disk
                &&& !resuming ==> offset == 0 && total == match content_length {
                    Some(n) => n,
                    None => 0u64,
                }
            },
            ResponsePlan::AlreadyComplete { total } => status == 416 && bytes_on_disk >= total,
            ResponsePlan::DiscardPartial => status == 416,
            ResponsePlan::Rejected => status != 416 && !(200 <= status <= 299),
        },
{
}

proof fn lemma_decimal_digits(n: nat)
    ensures
        decimal(n).len() > 0,
        forall|i: int| 0 <= i < decimal(n).len() ==> is_digit(#[trigger] decimal(n)[i]),
        digits_value(decimal(n)) == n,
    decreases n,
{
    assert((digit_char(n % 10) as nat) == 48 + n % 10);
    if n < 10 {
        assert(decimal(n).drop_last() =~= Seq::<char>::empty());
        assert(decimal(n).last() == digit_char(n));
        assert(digits_value(Seq::<char>::empty()) == 0);
        assert(digits_value(decimal(n)) == digits_value(Seq::<char>::empty()) * 10 + n);
    }
    if n >= 10 {
        lemma_decimal_digits(n / 10);
        vstd::arithmetic::div_mod::lemma_fundamental_div_mod(n as int, 10);
        let d = decimal(n);
        assert(d.drop_last() =~= decimal(n / 10));
        assert(d.last() == digit_char(n % 10));
        assert(digits_value(d) == digits_value(decimal(n / 10)) * 10 + n % 10);
        assert((n / 10) * 10 == 10 * (n / 10)) by (nonlinear_arith);
        assert forall|i: int| 0 <= i < d.len() implies is_digit(#[trigger] d[i]) by {
            if i < d.len() - 1 {
                assert(d[i] == decimal(n / 10)[i]);
            }
        }
    }
}

/// The size that a range header writes in decimal is read back as the same
/// number.
pub proof fn lemma_decimal_parses_back(n: u64)
    ensures
        parsed_u64(decimal(n as nat)) == Some(n),
{
    lemma_decimal_digits(n as nat);
    let d = decimal(n as nat);
    assert(is_digit(d[0]));
    assert(unsigned_digits(d) == d);
}

/// A digest named by an address is 64 hexadecimal digits.
pub proof fn lemma_expected_digest_is_hex(url: Seq<char>)
    ensures
        expected_digest(url) matches Some(h) ==> h.len() == 64 && forall|i: int|
            0 <= i < h.len() ==> is_hex_digit(#[trigger] h[i]),
{
}


/// A range value is always a valid header value: it is printable ASCII.
proof fn lemma_range_is_header_value(offset: u64)
    ensures
        crate::api::is_header_value(range_from(offset)),
{
    reveal_strlit("bytes=");
    reveal_strlit("-");
    lemma_decimal_digits(offset as nat);
    let r = range_from(offset);
    let d = decimal(offset as nat);
    assert forall|i: int| 0 <= i < r.len() implies 32 <= (#[trigger] r[i]) as u32 <= 126 by {
        if i < 6 {
            assert(r[i] == "bytes="@[i]);
        } else if i < 6 + d.len() {
            assert(r[i] == d[i - 6]);
            assert(is_digit(d[i - 6]));
        } else {
            assert(r[i] == '-');
        }
    }
    assert(vstd::utf8::is_ascii_chars(r));
    vstd::utf8::is_ascii_chars_encode_utf8(r);
    assert forall|i: int| 0 <= i < encode_utf8(r).len() implies crate::api::is_header_byte(
        #[trigger] encode_utf8(r)[i],
    ) by {
        assert(r[i] as u8 == encode_utf8(r)[i]);
    }
}

/// Resuming continues where the request asked: for a partial file of `n` bytes
/// the request carries the range `bytes=<n>-`, whose number reads back as `n`, and
/// a `206` answer to it is received from byte `n` on, appended to the file.
pub proof fn lemma_resume_starts_at_range(
    session: Seq<char>,
    n: u64,
    stored_etag: Option<Seq<char>>,
    content_range: Option<Seq<char>>,
    content_length: Option<u64>,
)
    requires
        n > 0,
    ensures
        download_headers(session, n, stored_etag).contains(("range"@, range_from(n))),
        parsed_u64(decimal(n as nat)) == Some(n),
        response_plan(206, content_range, n, content_length) matches ResponsePlan::Receive {
            resuming,
            offset,
            ..
        } && resuming && offset == n,
{
    lemma_range_is_header_value(n);
    lemma_decimal_parses_back(n);
    let base = seq![("accept"@, "*/*"@)] + cookie_headers(session);
    let with_range = base.push(("range"@, range_from(n)));
    assert(with_range[base.len() as int] == ("range"@, range_from(n)));
    match stored_etag {
        Some(t) => {
            if crate::api::is_header_value(t) {
                assert(with_range.push(("if-range"@, t))[base.len() as int] == ("range"@, range_from(n)));
            }
        },
        None => {},
    }
}


/// A resumed transfer counts the whole file: on a `206` answer for the rest of a
/// partial file of `bytes_on_disk` bytes, the transfer resumes at that size and
/// its total is that size plus the answer's length (0 where unknown), the length
/// of a `206` body being what remains.
pub proof fn lemma_resumed_total(
    content_range: Option<Seq<char>>,
    bytes_on_disk: u64,
    content_length: Option<u64>,
)
    requires
        bytes_on_disk > 0,
        bytes_on_disk + match content_length {
            Some(n) => n,
            None => 0,
        } <= u64::MAX,
    ensures
        response_plan(206, content_range, bytes_on_disk, content_length) matches ResponsePlan::Receive {
            resuming,
            offset,
            total,
        } && resuming && offset == bytes_on_disk && total == bytes_on_disk + match content_length {
            Some(n) => n,
            None => 0,
        },
{
}

} // verus!
