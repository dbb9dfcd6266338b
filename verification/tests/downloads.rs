use kemono_tools::downloader::{
    answer_step, chunk_step, failure_step, finish_step, AnswerStep, FailureStep, PendingDownload,
    add_chunk, build_download_headers, check_file_digest, check_saved_file, digest_matches,
    expected_sha256_from_url, parse_u64, plan_response, rejected_message, retry_countdown,
    should_save_progress, total_from_content_range, DigestCheck, DownloadQueue, DownloadTask,
    ResponsePlan, RetryDecision, RetryState,
};
use kemono_tools::hashing::ContentDigest;
use kemono_tools::settings::{DownloadTable, Settings, SettingsChange};

fn blank_settings() -> Settings {
    Settings {
        server: "https://s/api".to_string(),
        service: "fantia".to_string(),
        session: "s".to_string(),
        download_path: "dl".to_string(),
        username: "u".to_string(),
        password: "p".to_string(),
        downloads: DownloadTable::new(),
    }
}

fn task(id: &str) -> DownloadTask {
    DownloadTask {
        id: id.to_string(),
        url: format!("https://n/data/{}", id),
        dest_path: format!("/d/{}", id),
        file_name: id.to_string(),
        post_id: "9".to_string(),
        session: "s".to_string(),
    }
}

/// Queues `t` through the three steps, with a successful save.
fn queue_task(q: &mut DownloadQueue, s: &mut Settings, t: DownloadTask) -> bool {
    let pending = PendingDownload::record(t, s);
    let (_event, announced) = pending.saved(Ok(())).unwrap();
    q.enqueue(announced)
}

#[test]
fn queue_hands_out_in_order_and_starts_one_worker() {
    let mut q = DownloadQueue::new();
    let mut s = blank_settings();
    assert!(!q.is_running());
    assert!(queue_task(&mut q, &mut s, task("a")));
    assert!(!queue_task(&mut q, &mut s, task("b")));
    assert!(!queue_task(&mut q, &mut s, task("c")));
    assert_eq!(q.len(), 3);
    assert_eq!(q.next_task().unwrap().id, "a");
    assert!(!queue_task(&mut q, &mut s, task("d")));
    assert_eq!(q.next_task().unwrap().id, "b");
    assert_eq!(q.next_task().unwrap().id, "c");
    assert_eq!(q.next_task().unwrap().id, "d");
    assert!(q.is_running());
    assert!(q.next_task().is_none());
    assert!(!q.is_running());
    assert!(queue_task(&mut q, &mut s, task("e")));
    assert_eq!(s.downloads.len(), 5);
}

#[test]
fn enqueue_records_the_download_and_announces_it() {
    let mut q = DownloadQueue::new();
    let mut s = blank_settings();
    let mut old = task("x").pending_record();
    old.status = "completed".to_string();
    old.downloaded = 77;
    s.downloads.insert("x".to_string(), old);
    s.downloads.insert("other".to_string(), task("other").pending_record());
    let pending = PendingDownload::record(task("x"), &mut s);
    let rec = s.downloads.get("x").unwrap();
    assert_eq!((rec.status.as_str(), rec.downloaded, rec.total), ("pending", 0, 0));
    assert_eq!((rec.url.as_str(), rec.path.as_str(), rec.post_id.as_str()), ("https://n/data/x", "/d/x", "9"));
    assert_eq!(rec.etag, None);
    assert_eq!(s.downloads.len(), 2);
    assert_eq!(s.downloads.get("other").unwrap().url, "https://n/data/other");
    assert_eq!((s.server.as_str(), s.session.as_str(), s.download_path.as_str()), ("https://s/api", "s", "dl"));
    let (e, announced) = pending.saved(Ok(())).unwrap();
    assert_eq!(e.id, "x");
    assert_eq!(e.file_name, "x");
    assert_eq!((e.downloaded, e.total, e.status.as_str()), (0, 0, "pending"));
    assert_eq!((e.attempt, e.max_retries, e.retry_secs, e.error), (0, 10, 0, None));
    assert_eq!(q.len(), 0);
    assert!(q.enqueue(announced));
    assert_eq!(q.len(), 1);
}

#[test]
fn failed_save_queues_nothing() {
    let q = DownloadQueue::new();
    let mut s = blank_settings();
    let pending = PendingDownload::record(task("y"), &mut s);
    match pending.saved(Err("disk full".to_string())) {
        Err(e) => assert_eq!(e, "disk full"),
        Ok(_) => panic!("a failed save must not be announced"),
    }
    assert_eq!(q.len(), 0);
    assert!(!q.is_running());
}

#[test]
fn steps_after_an_answer() {
    let t = task("z");
    match answer_step(&t, 2, ResponsePlan::AlreadyComplete { total: 9 }, 12, None, "416", "u") {
        AnswerStep::Complete { change, event } => {
            assert_eq!(change, SettingsChange::DownloadAlreadyComplete { id: "z".into(), size: 12, total: 9 });
            assert_eq!((event.status.as_str(), event.downloaded, event.total, event.attempt), ("completed", 12, 9, 2));
        }
        other => panic!("{:?}", other),
    }
    assert_eq!(
        answer_step(&t, 1, ResponsePlan::DiscardPartial, 5, None, "416", "u"),
        AnswerStep::Discard { error: "HTTP 416, deleted partial file and will retry from scratch".into() }
    );
    assert_eq!(
        answer_step(&t, 1, ResponsePlan::Rejected, 0, None, "404 Not Found", "https://f/x"),
        AnswerStep::Fail { error: "HTTP 404 Not Found from https://f/x".into() }
    );
    match answer_step(&t, 3, ResponsePlan::Receive { resuming: true, offset: 10, total: 100 }, 10, Some("\"e\"".into()), "206", "u") {
        AnswerStep::Receive { change, event, resuming, offset, total } => {
            assert!(resuming && offset == 10 && total == 100);
            assert_eq!(change, SettingsChange::DownloadStarted { id: "z".into(), total: 100, offset: 10, etag: Some("\"e\"".into()) });
            assert_eq!((event.status.as_str(), event.downloaded, event.total, event.max_retries), ("downloading", 10, 100, 25));
        }
        other => panic!("{:?}", other),
    }
}

#[test]
fn steps_while_and_after_receiving() {
    let t = task("z");
    let (n, e, c) = chunk_step(&t, 1, 10, 5, 100, 2);
    assert_eq!((n, e.downloaded, e.total, e.status.as_str()), (15, 15, 100, "downloading"));
    assert_eq!(c, None);
    let (_, _, c) = chunk_step(&t, 1, 10, 5, 100, 5);
    assert_eq!(c, Some(SettingsChange::DownloadProgressed { id: "z".into(), downloaded: 15 }));
    assert_eq!(finish_step(&t, 1, 0, 0, 10), Err("File saved but is 0 bytes (expected 10)".to_string()));
    let (c, e) = finish_step(&t, 4, 100, 100, 100).unwrap();
    assert_eq!(c, SettingsChange::DownloadCompleted { id: "z".into(), downloaded: 100 });
    assert_eq!((e.status.as_str(), e.downloaded, e.attempt), ("completed", 100, 4));
    assert!(finish_step(&t, 1, 0, 0, 0).is_ok());
}

#[test]
fn steps_after_a_failure() {
    let t = task("z");
    let mut r = RetryState { attempt: 3, stale_failures: 0 };
    let (c, step) = failure_step(&mut r, &t, 3, 10, 20, "cut".into());
    assert_eq!(c, SettingsChange::DownloadFailed { id: "z".into() });
    match step {
        FailureStep::Retry { events } => {
            let secs: Vec<u32> = events.iter().map(|e| e.retry_secs).collect();
            assert_eq!(secs, vec![5, 4, 3, 2, 1]);
            assert!(events.iter().all(|e| e.status == "retrying" && e.downloaded == 20 && e.error.as_deref() == Some("cut")));
        }
        other => panic!("{:?}", other),
    }
    let mut r = RetryState { attempt: 30, stale_failures: 24 };
    match failure_step(&mut r, &t, 30, 20, 20, "stuck".into()).1 {
        FailureStep::GiveUp { event } => {
            assert_eq!((event.status.as_str(), event.downloaded, event.total, event.attempt), ("failed", 20, 0, 30));
            assert_eq!(event.error.as_deref(), Some("stuck"));
        }
        other => panic!("{:?}", other),
    }
    assert_eq!(r.stale_failures, 25);
}

#[test]
fn stale_failures_give_up_after_twenty_five() {
    let mut r = RetryState::new();
    for i in 1..25u32 {
        assert_eq!(r.begin_attempt(), i);
        assert_eq!(r.record_failure(100, 100), RetryDecision::RetryAfter { wait_secs: 60 });
        assert_eq!(r.stale_failures, i);
    }
    assert_eq!(r.begin_attempt(), 25);
    assert_eq!(r.record_failure(100, 90), RetryDecision::GiveUp);
    assert_eq!(r.stale_failures, 25);
}

#[test]
fn progress_resets_the_stale_count() {
    let mut r = RetryState::new();
    for _ in 0..24 {
        r.begin_attempt();
        r.record_failure(0, 0);
    }
    assert_eq!(r.stale_failures, 24);
    assert_eq!(r.record_failure(10, 11), RetryDecision::RetryAfter { wait_secs: 5 });
    assert_eq!(r.stale_failures, 0);
    assert_eq!(r.record_failure(11, 11), RetryDecision::RetryAfter { wait_secs: 60 });
    assert_eq!(r.stale_failures, 1);
}

#[test]
fn countdown_runs_down_to_one() {
    assert_eq!(retry_countdown(5), vec![5, 4, 3, 2, 1]);
    assert_eq!(retry_countdown(0), Vec::<u32>::new());
    assert_eq!(retry_countdown(60).len(), 60);
}

fn pairs(hs: &[kemono_tools::api::RequestHeader]) -> Vec<(String, String)> {
    hs.iter().map(|h| (h.name.clone(), h.value.clone())).collect()
}

fn p(a: &str, b: &str) -> (String, String) {
    (a.to_string(), b.to_string())
}

#[test]
fn download_request_headers() {
    assert_eq!(pairs(&build_download_headers("", 0, &Some("e".into()))), vec![p("accept", "*/*")]);
    assert_eq!(
        pairs(&build_download_headers("s", 0, &None)),
        vec![p("accept", "*/*"), p("cookie", "session=s")]
    );
    assert_eq!(
        pairs(&build_download_headers("s", 1234, &Some("\"tag\"".into()))),
        vec![p("accept", "*/*"), p("cookie", "session=s"), p("range", "bytes=1234-"), p("if-range", "\"tag\"")]
    );
    assert_eq!(
        pairs(&build_download_headers("", 7, &None)),
        vec![p("accept", "*/*"), p("range", "bytes=7-")]
    );
    assert_eq!(
        pairs(&build_download_headers("", 7, &Some("bad\r\n".into()))),
        vec![p("accept", "*/*"), p("range", "bytes=7-")]
    );
}

#[test]
fn numbers_parse_as_std_does() {
    let cases = [
        "0", "42", "+42", "-1", "", "+", "12a", " 1", "18446744073709551615",
        "18446744073709551616", "99999999999999999999999", "007", "+0", "1_000", "٣",
    ];
    for c in cases {
        let cs: Vec<char> = c.chars().collect();
        assert_eq!(parse_u64(&cs), c.parse::<u64>().ok(), "case {:?}", c);
    }
}

#[test]
fn content_range_total() {
    assert_eq!(total_from_content_range(&Some("bytes */1000".into())), Some(1000));
    assert_eq!(total_from_content_range(&Some("bytes 0-1/1000".into())), None);
    assert_eq!(total_from_content_range(&Some("bytes */".into())), None);
    assert_eq!(total_from_content_range(&None), None);
}

#[test]
fn answers_are_planned() {
    let none: Option<String> = None;
    assert_eq!(plan_response(416, &Some("bytes */100".into()), 100, None), ResponsePlan::AlreadyComplete { total: 100 });
    assert_eq!(plan_response(416, &Some("bytes */100".into()), 150, None), ResponsePlan::AlreadyComplete { total: 100 });
    assert_eq!(plan_response(416, &Some("bytes */100".into()), 99, None), ResponsePlan::DiscardPartial);
    assert_eq!(plan_response(416, &none, 99, None), ResponsePlan::DiscardPartial);
    assert_eq!(plan_response(404, &none, 0, Some(5)), ResponsePlan::Rejected);
    assert_eq!(plan_response(302, &none, 0, Some(5)), ResponsePlan::Rejected);
    assert_eq!(plan_response(206, &none, 10, Some(90)), ResponsePlan::Receive { resuming: true, offset: 10, total: 100 });
    assert_eq!(plan_response(206, &none, 0, Some(90)), ResponsePlan::Receive { resuming: false, offset: 0, total: 90 });
    assert_eq!(plan_response(200, &none, 10, Some(90)), ResponsePlan::Receive { resuming: false, offset: 0, total: 90 });
    assert_eq!(plan_response(200, &none, 0, None), ResponsePlan::Receive { resuming: false, offset: 0, total: 0 });
    assert_eq!(rejected_message("404 Not Found", "https://x/y"), "HTTP 404 Not Found from https://x/y");
}

#[test]
fn transfer_bookkeeping() {
    assert_eq!(add_chunk(10, 5), 15);
    assert!(!should_save_progress(4));
    assert!(should_save_progress(5));
    assert_eq!(check_saved_file(0, 10), Err("File saved but is 0 bytes (expected 10)".to_string()));
    assert_eq!(check_saved_file(0, 0), Ok(()));
    assert_eq!(check_saved_file(3, 10), Ok(()));
}

const ABC_SHA256: &str = "ba7816bf8f01cfea414140de5dae2223b00361a396177a9cb410ff61f20015ad";

#[test]
fn digest_named_by_the_address() {
    let url = format!("https://n1.kemono.cr/data/ab/cd/{}.png?f=a.png", ABC_SHA256);
    assert_eq!(expected_sha256_from_url(&url).as_deref(), Some(ABC_SHA256));
    assert_eq!(expected_sha256_from_url(&format!("https://x/{}", ABC_SHA256)).as_deref(), Some(ABC_SHA256));
    assert_eq!(expected_sha256_from_url(&format!("https://x/{}.tar.gz", ABC_SHA256)), None);
    assert_eq!(expected_sha256_from_url("https://x/data/short.png"), None);
    assert_eq!(expected_sha256_from_url(&format!("https://x/{}g.png", &ABC_SHA256[..63])), None);
    assert_eq!(expected_sha256_from_url(""), None);
}

#[test]
fn digest_of_content() {
    let mut h = ContentDigest::new();
    h.update(b"a");
    h.update(b"bc");
    let url = format!("https://n/data/{}.bin?f=x", ABC_SHA256);
    assert_eq!(check_file_digest(&url, h), DigestCheck::Verified);
    let mut h = ContentDigest::new();
    h.update(b"abd");
    assert_eq!(check_file_digest(&url, h), DigestCheck::Mismatch);
    let h = ContentDigest::new();
    assert_eq!(check_file_digest("https://n/plain.bin", h), DigestCheck::Skipped);
    let mut h = ContentDigest::new();
    h.update(b"abc");
    let d = h.finish();
    assert!(digest_matches(ABC_SHA256, &d));
    assert!(!digest_matches(&ABC_SHA256.to_uppercase(), &d));
}

#[test]
fn task_records_and_events() {
    let t = task("f1");
    let rec = t.pending_record();
    assert_eq!(rec.status, "pending");
    assert_eq!(rec.path, "/d/f1");
    assert_eq!(rec.url, "https://n/data/f1");
    assert_eq!((rec.downloaded, rec.total), (0, 0));
    let e = t.pending_event();
    assert_eq!((e.status.as_str(), e.max_retries, e.attempt), ("pending", 10, 0));
    let e = t.retrying_event(5, 2, 60, "boom".into());
    assert_eq!((e.status.as_str(), e.max_retries, e.retry_secs, e.downloaded), ("retrying", 25, 60, 5));
    assert_eq!(e.error.as_deref(), Some("boom"));
    let e = t.failed_event(5, 25, "x".into());
    assert_eq!((e.status.as_str(), e.total, e.attempt), ("failed", 0, 25));
    let e = t.downloading_event(1, 2, 3);
    assert_eq!((e.status.as_str(), e.downloaded, e.total, e.attempt, e.error), ("downloading", 1, 2, 3, None));
    let e = t.completed_event(2, 2, 1);
    assert_eq!((e.status.as_str(), e.id.as_str(), e.file_name.as_str()), ("completed", "f1", "f1"));
}

#[test]
fn written_sizes_read_back() {
    for n in [0u64, 9, 10, 1234, u64::MAX / 3, u64::MAX] {
        let text: Vec<char> = kemono_tools::text::decimal_string(n).chars().collect();
        assert_eq!(parse_u64(&text), Some(n));
    }
}

#[test]
fn resume_starts_where_the_range_asks() {
    for n in [1u64, 9, 10, 4096, u64::MAX / 2] {
        let hs = pairs(&build_download_headers("s", n, &None));
        let range = format!("bytes={}-", n);
        assert!(hs.contains(&p("range", &range)));
        let digits: Vec<char> = range["bytes=".len()..range.len() - 1].chars().collect();
        assert_eq!(parse_u64(&digits), Some(n));
        match plan_response(206, &None, n, Some(5)) {
            ResponsePlan::Receive { resuming, offset, .. } => assert!(resuming && offset == n),
            other => panic!("{:?}", other),
        }
    }
}
