use fetcher::downloader::DownloaderBuilder;
use fetcher::fetch::{first_error, BarEnd, Ending, Fetch, FetchAction, FetchEvent};
use fetcher::probe::{probe, Probe, Reply};
use fetcher::range_task::{range_is_named, RangeAction, RangeEvent, RangeTask};
use fetcher::resource::{Resource, Status};
use fetcher::style::{ProgressBarOpts, StyleOptions};
use reqwest::header::{HeaderMap, HeaderName, HeaderValue};
use reqwest::{StatusCode, Url};
use std::path::PathBuf;

fn new_fetch(chunk: u64, permits: usize) -> Fetch {
    let url = Url::parse("https://example.com/x").unwrap();
    let downloader = DownloaderBuilder::new(PathBuf::from("/tmp"))
        .chunk_size(chunk)
        .concurrent_chunks(permits)
        .build();
    let (fetch, action) = downloader.fetch(&Resource::new(&url, "x.zip"));
    assert!(matches!(action, FetchAction::CreateDirectory));
    fetch
}

fn probe_of(total: &'static str, ranged: bool) -> Probe {
    let mut head = HeaderMap::new();
    if ranged {
        head.insert("accept-ranges", HeaderValue::from_static("bytes"));
    }
    head.insert("etag", HeaderValue::from_static("\"tag\""));
    let mut get = HeaderMap::new();
    get.insert("content-range", HeaderValue::from_static(total));
    probe(
        Some(Reply { status: StatusCode::OK, headers: &head }),
        Some(Reply { status: StatusCode::PARTIAL_CONTENT, headers: &get }),
    )
    .unwrap()
}

fn send(fetch: &mut Fetch, event: FetchEvent) -> FetchAction {
    assert!(fetch.awaits(&event));
    fetch.step(event)
}

fn tell(task: &mut RangeTask, event: RangeEvent) -> RangeAction {
    assert!(task.awaits(&event));
    task.step(event)
}

fn ending(action: FetchAction) -> Ending {
    match action {
        FetchAction::Finish(ending) => ending,
        _ => panic!("not finished"),
    }
}

fn failure(action: FetchAction) -> (String, BarEnd, bool) {
    let end = ending(action);
    assert_eq!(end.summary.status_code(), StatusCode::BAD_REQUEST);
    assert_eq!(end.summary.size(), 0);
    match end.summary.status() {
        Status::Fail(message) => (message.clone(), end.bar, end.counted),
        _ => panic!("not failed"),
    }
}

fn range_failure(action: RangeAction) -> String {
    match action {
        RangeAction::Finish(Err(message)) => message,
        _ => panic!("not failed"),
    }
}

fn streaming() -> Fetch {
    let mut fetch = new_fetch(4, 8);
    send(&mut fetch, FetchEvent::Done);
    send(&mut fetch, FetchEvent::Probed(probe_of("bytes 0-0/10", false)));
    send(&mut fetch, FetchEvent::Found(None));
    send(&mut fetch, FetchEvent::Done);
    send(&mut fetch, FetchEvent::Replied(StatusCode::OK));
    fetch
}

fn gathering(permits: usize) -> (Fetch, Vec<RangeTask>, usize) {
    let mut fetch = new_fetch(4, permits);
    send(&mut fetch, FetchEvent::Done);
    send(&mut fetch, FetchEvent::Probed(probe_of("bytes 0-0/10", true)));
    send(&mut fetch, FetchEvent::Found(Some(9)));
    let action = send(&mut fetch, FetchEvent::Done);
    assert!(matches!(action, FetchAction::SetLength(10)));
    match send(&mut fetch, FetchEvent::Done) {
        FetchAction::Gather { tasks, permits } => (fetch, tasks, permits),
        _ => panic!("nothing to gather"),
    }
}

fn first_task() -> RangeTask {
    gathering(8).1.remove(0)
}

fn streaming_task() -> RangeTask {
    let mut task = first_task();
    tell(&mut task, RangeEvent::Done);
    tell(&mut task, RangeEvent::Replied { status: StatusCode::PARTIAL_CONTENT, content_range: None });
    tell(&mut task, RangeEvent::Done);
    tell(&mut task, RangeEvent::Done);
    task
}

#[test]
fn whole_download_succeeds() {
    let mut fetch = new_fetch(4, 8);
    assert!(matches!(send(&mut fetch, FetchEvent::Done), FetchAction::Probe));
    let action = send(&mut fetch, FetchEvent::Probed(probe_of("bytes 0-0/10", false)));
    assert!(matches!(action, FetchAction::Inspect(10)));
    assert!(matches!(send(&mut fetch, FetchEvent::Found(None)), FetchAction::Open));
    match send(&mut fetch, FetchEvent::Done) {
        FetchAction::Request(headers) => {
            assert_eq!(headers.len(), 1);
            assert_eq!(headers["accept-encoding"], "identity");
        }
        _ => panic!("no request"),
    }
    let action = send(&mut fetch, FetchEvent::Replied(StatusCode::OK));
    assert!(matches!(action, FetchAction::Read));
    assert!(matches!(send(&mut fetch, FetchEvent::Wrote(3)), FetchAction::Read));
    assert!(matches!(send(&mut fetch, FetchEvent::Wrote(4)), FetchAction::Read));
    assert!(matches!(send(&mut fetch, FetchEvent::Ended), FetchAction::Flush));
    assert!(matches!(send(&mut fetch, FetchEvent::Done), FetchAction::Rename));
    let end = ending(send(&mut fetch, FetchEvent::Done));
    assert_eq!(end.summary.status(), &Status::Success);
    assert_eq!(end.summary.status_code(), StatusCode::OK);
    assert_eq!(end.summary.size(), 7);
    assert_eq!(end.summary.download().filename, "x.zip");
    assert_eq!(end.bar, BarEnd::Cleared);
    assert!(end.counted);
    assert!(!fetch.awaits(&FetchEvent::Done));
    assert!(!fetch.awaits(&FetchEvent::Failed("late".to_string())));
}

#[test]
fn ranged_download_succeeds() {
    let (mut fetch, tasks, permits) = gathering(2);
    assert_eq!(permits, 2);
    let ranges: Vec<(u64, u64)> = tasks.iter().map(|t| (t.start(), t.end())).collect();
    assert_eq!(ranges, vec![(0, 3), (4, 7), (8, 9)]);
    let results = vec![Ok(()), Ok(()), Ok(())];
    assert!(matches!(send(&mut fetch, FetchEvent::Gathered(results)), FetchAction::Rename));
    let end = ending(send(&mut fetch, FetchEvent::Done));
    assert_eq!(end.summary.status(), &Status::Success);
    assert_eq!(end.summary.size(), 10);
    assert!(end.counted);
}

#[test]
fn complete_file_is_skipped() {
    let mut fetch = new_fetch(4, 8);
    send(&mut fetch, FetchEvent::Done);
    send(&mut fetch, FetchEvent::Probed(probe_of("bytes 0-0/10", true)));
    let end = ending(send(&mut fetch, FetchEvent::Found(Some(10))));
    let message = "the file was already fully downloaded".to_string();
    assert_eq!(end.summary.status(), &Status::Skipped(message));
    assert_eq!(end.summary.status_code(), StatusCode::BAD_REQUEST);
    assert_eq!(end.summary.size(), 0);
    assert_eq!(end.bar, BarEnd::Cleared);
    assert!(end.counted);
}

#[test]
fn empty_file_is_not_skipped() {
    let mut fetch = new_fetch(4, 8);
    send(&mut fetch, FetchEvent::Done);
    send(&mut fetch, FetchEvent::Probed(probe_of("bytes 0-0/0", true)));
    assert!(matches!(send(&mut fetch, FetchEvent::Found(Some(0))), FetchAction::Open));
    assert!(matches!(send(&mut fetch, FetchEvent::Done), FetchAction::Request(_)));
}

#[test]
fn failures_end_a_fetch() {
    let text = || "disk full".to_string();
    let plain = (text(), BarEnd::Left, false);
    let mut fetch = new_fetch(4, 8);
    assert_eq!(failure(send(&mut fetch, FetchEvent::Failed(text()))), plain);
    let mut fetch = new_fetch(4, 8);
    send(&mut fetch, FetchEvent::Done);
    assert_eq!(failure(send(&mut fetch, FetchEvent::Failed(text()))), plain);
    let mut fetch = streaming();
    assert_eq!(failure(send(&mut fetch, FetchEvent::Failed(text()))), plain);
    let mut fetch = streaming();
    let timeout = ("timeout while streaming body".to_string(), BarEnd::Left, false);
    assert_eq!(failure(send(&mut fetch, FetchEvent::TimedOut)), timeout);
    let mut fetch = streaming();
    send(&mut fetch, FetchEvent::Ended);
    send(&mut fetch, FetchEvent::Done);
    assert_eq!(failure(send(&mut fetch, FetchEvent::Failed(text()))), plain);
}

#[test]
fn refused_request_fails() {
    let mut fetch = new_fetch(4, 8);
    send(&mut fetch, FetchEvent::Done);
    send(&mut fetch, FetchEvent::Probed(probe_of("bytes 0-0/10", false)));
    send(&mut fetch, FetchEvent::Found(Some(3)));
    send(&mut fetch, FetchEvent::Done);
    let action = send(&mut fetch, FetchEvent::Replied(StatusCode::NOT_FOUND));
    assert_eq!(failure(action), ("HTTP 404 Not Found".to_string(), BarEnd::Left, false));
}

#[test]
fn first_failed_range_fails_the_fetch() {
    let (mut fetch, _, _) = gathering(8);
    let results = vec![Ok(()), Err("one".to_string()), Err("two".to_string())];
    assert_eq!(first_error(&results), Some("one".to_string()));
    let action = send(&mut fetch, FetchEvent::Gathered(results));
    assert_eq!(failure(action), ("one".to_string(), BarEnd::Cleared, false));
    let (mut fetch, _, _) = gathering(8);
    let action = send(&mut fetch, FetchEvent::Failed("panicked".to_string()));
    assert_eq!(failure(action), ("join error: panicked".to_string(), BarEnd::Cleared, false));
    assert_eq!(first_error(&vec![]), None);
}

#[test]
fn nothing_is_split_into_nothing() {
    let mut fetch = new_fetch(0, 8);
    send(&mut fetch, FetchEvent::Done);
    send(&mut fetch, FetchEvent::Probed(probe_of("bytes 0-0/10", true)));
    send(&mut fetch, FetchEvent::Found(None));
    send(&mut fetch, FetchEvent::Done);
    assert!(!fetch.awaits(&FetchEvent::Done));
    assert!(fetch.awaits(&FetchEvent::Failed("x".to_string())));
    assert!(!fetch.awaits(&FetchEvent::Wrote(1)));
}

#[test]
fn writing_cannot_overflow() {
    let mut fetch = streaming();
    send(&mut fetch, FetchEvent::Wrote(u64::MAX));
    assert!(!fetch.awaits(&FetchEvent::Wrote(1)));
    assert!(fetch.awaits(&FetchEvent::Wrote(0)));
    let mut task = streaming_task();
    tell(&mut task, RangeEvent::Wrote(u64::MAX - 1));
    assert!(!task.awaits(&RangeEvent::Wrote(2)));
}

#[test]
fn range_is_fetched() {
    let mut task = gathering(8).1.remove(1);
    assert!(matches!(task.first_action(), RangeAction::Acquire));
    match tell(&mut task, RangeEvent::Done) {
        RangeAction::Request(headers) => {
            assert_eq!(headers["range"], "bytes=4-7");
            assert_eq!(headers["if-range"], "\"tag\"");
            assert_eq!(headers["accept-encoding"], "identity");
            assert_eq!(headers.len(), 3);
        }
        _ => panic!("no request"),
    }
    let content_range = Some(HeaderValue::from_static("bytes 4-7/10"));
    let event = RangeEvent::Replied { status: StatusCode::PARTIAL_CONTENT, content_range };
    assert!(matches!(tell(&mut task, event), RangeAction::Open));
    assert!(matches!(tell(&mut task, RangeEvent::Done), RangeAction::Seek(4)));
    assert!(matches!(tell(&mut task, RangeEvent::Done), RangeAction::Read));
    assert!(matches!(tell(&mut task, RangeEvent::Wrote(1)), RangeAction::Read));
    assert!(matches!(tell(&mut task, RangeEvent::Wrote(3)), RangeAction::Read));
    assert!(matches!(tell(&mut task, RangeEvent::Ended), RangeAction::Flush));
    assert!(matches!(tell(&mut task, RangeEvent::Done), RangeAction::Finish(Ok(()))));
    assert!(!task.awaits(&RangeEvent::Done));
}

#[test]
fn wrong_replies_fail_a_range() {
    let mut task = first_task();
    tell(&mut task, RangeEvent::Done);
    let event = RangeEvent::Replied { status: StatusCode::OK, content_range: None };
    let message = "server did not return 206 for range 0-3 (got 200 OK)";
    assert_eq!(range_failure(tell(&mut task, event)), message);
    for (text, shown) in [
        (&b"bytes 4-7/10"[..], "unexpected Content-Range: bytes 4-7/10"),
        (&b"0-3/10"[..], "unexpected Content-Range: 0-3/10"),
        (&b"bytes 0-3/\xff"[..], "unexpected Content-Range: "),
    ] {
        let mut task = first_task();
        tell(&mut task, RangeEvent::Done);
        let content_range = Some(HeaderValue::from_bytes(text).unwrap());
        let event = RangeEvent::Replied { status: StatusCode::PARTIAL_CONTENT, content_range };
        assert_eq!(range_failure(tell(&mut task, event)), shown);
    }
}

#[test]
fn short_body_fails_a_range() {
    let mut task = streaming_task();
    tell(&mut task, RangeEvent::Wrote(3));
    let message = "short write for range 0-3: wrote 3, expected 4";
    assert_eq!(range_failure(tell(&mut task, RangeEvent::Ended)), message);
    let mut task = streaming_task();
    tell(&mut task, RangeEvent::Wrote(5));
    let message = "short write for range 0-3: wrote 5, expected 4";
    assert_eq!(range_failure(tell(&mut task, RangeEvent::Ended)), message);
}

#[test]
fn failures_end_a_range() {
    let failed = || RangeEvent::Failed("broken".to_string());
    let mut task = first_task();
    assert_eq!(range_failure(tell(&mut task, failed())), "semaphore closed");
    let mut task = first_task();
    tell(&mut task, RangeEvent::Done);
    assert_eq!(range_failure(tell(&mut task, failed())), "range request failed");
    let mut task = first_task();
    tell(&mut task, RangeEvent::Done);
    let ok = RangeEvent::Replied { status: StatusCode::PARTIAL_CONTENT, content_range: None };
    tell(&mut task, ok);
    assert_eq!(range_failure(tell(&mut task, failed())), "open tmp for ranged write failed");
    let mut task = first_task();
    tell(&mut task, RangeEvent::Done);
    let ok = RangeEvent::Replied { status: StatusCode::PARTIAL_CONTENT, content_range: None };
    tell(&mut task, ok);
    tell(&mut task, RangeEvent::Done);
    assert_eq!(range_failure(tell(&mut task, failed())), "seek failed");
    let mut task = streaming_task();
    assert_eq!(range_failure(tell(&mut task, RangeEvent::WriteFailed)), "write_all failed");
    let mut task = streaming_task();
    assert_eq!(range_failure(tell(&mut task, failed())), "broken");
    let mut task = streaming_task();
    let message = "timeout while reading range 0-3";
    assert_eq!(range_failure(tell(&mut task, RangeEvent::TimedOut)), message);
    let mut task = streaming_task();
    tell(&mut task, RangeEvent::Wrote(4));
    tell(&mut task, RangeEvent::Ended);
    assert_eq!(range_failure(tell(&mut task, failed())), "flush failed");
}

#[test]
fn content_range_names_the_range() {
    assert!(range_is_named("bytes 4-7/10", 4, 7));
    assert!(range_is_named("bytes 4-7/*", 4, 7));
    assert!(!range_is_named("bytes 4-7/10", 5, 7));
    assert!(!range_is_named("bytes 4-7/10", 4, 8));
    assert!(!range_is_named("items 4-7/10", 4, 7));
    assert!(range_is_named("bytes 14-7/10", 4, 7));
}

#[test]
fn complete_tasks_fill_the_file() {
    let (_, tasks, _) = gathering(8);
    let mut file = vec![0u8; 10];
    for mut task in tasks {
        let length = task.end() - task.start() + 1;
        tell(&mut task, RangeEvent::Done);
        let status = StatusCode::PARTIAL_CONTENT;
        tell(&mut task, RangeEvent::Replied { status, content_range: None });
        let position = match tell(&mut task, RangeEvent::Done) {
            RangeAction::Seek(position) => position,
            _ => panic!("no position"),
        };
        tell(&mut task, RangeEvent::Done);
        for i in 0..length {
            file[(position + i) as usize] += 1;
            tell(&mut task, RangeEvent::Wrote(1));
        }
        tell(&mut task, RangeEvent::Ended);
        assert!(matches!(tell(&mut task, RangeEvent::Done), RangeAction::Finish(Ok(()))));
    }
    assert_eq!(file, vec![1u8; 10]);
}

#[test]
fn condition_is_put_behind_that_of_the_caller() {
    let url = Url::parse("https://example.com/x").unwrap();
    let downloader = DownloaderBuilder::new(PathBuf::from("/tmp"))
        .header(HeaderName::from_static("if-range"), HeaderValue::from_static("mine"))
        .header(HeaderName::from_static("x-key"), HeaderValue::from_static("k"))
        .build();
    let (mut fetch, _) = downloader.fetch(&Resource::new(&url, "x.zip"));
    send(&mut fetch, FetchEvent::Done);
    send(&mut fetch, FetchEvent::Probed(probe_of("bytes 0-0/10", true)));
    send(&mut fetch, FetchEvent::Found(None));
    send(&mut fetch, FetchEvent::Done);
    let mut tasks = match send(&mut fetch, FetchEvent::Done) {
        FetchAction::Gather { tasks, permits } => {
            assert_eq!(permits, 1);
            tasks
        }
        _ => panic!("nothing to gather"),
    };
    assert_eq!(tasks.len(), 1);
    match tell(&mut tasks[0], RangeEvent::Done) {
        RangeAction::Request(headers) => {
            let conditions: Vec<&HeaderValue> = headers.get_all("if-range").iter().collect();
            assert_eq!(conditions, vec!["mine", "\"tag\""]);
            assert_eq!(headers["x-key"], "k");
            assert_eq!(headers["range"], "bytes=0-9");
        }
        _ => panic!("no request"),
    }
}

#[test]
fn failed_rename_is_a_failure() {
    let (mut fetch, _, _) = gathering(8);
    let results = vec![Ok(()), Ok(()), Ok(())];
    assert!(matches!(send(&mut fetch, FetchEvent::Gathered(results)), FetchAction::Rename));
    let action = send(&mut fetch, FetchEvent::Failed("denied".to_string()));
    assert_eq!(failure(action), ("denied".to_string(), BarEnd::Left, false));
    assert!(!fetch.awaits(&FetchEvent::Done));
}

#[test]
fn bars_stay_if_they_are_to() {
    let url = Url::parse("https://example.com/x").unwrap();
    let child = ProgressBarOpts::new(None, None, true, false);
    let style = StyleOptions::new(ProgressBarOpts::hidden(), child);
    let downloader = DownloaderBuilder::new(PathBuf::from("/tmp")).style_options(style).build();
    let (mut fetch, _) = downloader.fetch(&Resource::new(&url, "x.zip"));
    send(&mut fetch, FetchEvent::Done);
    send(&mut fetch, FetchEvent::Probed(probe_of("bytes 0-0/10", true)));
    let end = ending(send(&mut fetch, FetchEvent::Found(Some(10))));
    assert_eq!(end.bar, BarEnd::Finished);
}

#[test]
fn each_range_has_one_result() {
    let (fetch, tasks, _) = gathering(8);
    assert_eq!(tasks.len(), 3);
    assert!(!fetch.awaits(&FetchEvent::Gathered(Vec::new())));
    assert!(!fetch.awaits(&FetchEvent::Gathered(vec![Ok(()), Ok(())])));
    assert!(fetch.awaits(&FetchEvent::Gathered(vec![Ok(()), Err("x".to_string()), Ok(())])));
}
