use fetcher::downloader::{client_failures, user_agent, Downloader, DownloaderBuilder, Options};
use fetcher::resource::{Resource, Status, Summary};
use reqwest::header::{HeaderMap, HeaderName, HeaderValue};
use reqwest::{StatusCode, Url};
use std::path::PathBuf;

fn builder_in(directory: &str) -> DownloaderBuilder {
    DownloaderBuilder::new(PathBuf::from(directory))
}

fn resource_named(name: &str) -> Resource {
    Resource::new(&Url::parse("https://example.com/x").unwrap(), name)
}

fn values_of(map: &HeaderMap, name: &str) -> Vec<String> {
    map.get_all(name).iter().map(|v| v.to_str().unwrap().to_string()).collect()
}

#[test]
fn defaults_are_set() {
    let downloader = builder_in("/tmp/d").build();
    assert_eq!(downloader.concurrent_downloads(), 32);
    assert_eq!(downloader.client_plan(None).retries, 3);
    assert!(downloader.style_options().is_enabled());
    assert_eq!(Downloader::DEFAULT_CHUNK_SIZE, 10485760);
    assert_eq!(Downloader::CHUNK_TIMEOUT_SECS, 30);
    let hidden = DownloaderBuilder::hidden(PathBuf::from("/tmp/d")).build();
    assert!(!hidden.style_options().is_enabled());
}

#[test]
fn paths_are_in_the_directory() {
    let downloader = builder_in("/tmp/d").build();
    let resource = resource_named("a.tar.gz");
    assert_eq!(downloader.output_path(&resource), PathBuf::from("/tmp/d/a.tar.gz"));
    assert_eq!(downloader.part_path(&resource), PathBuf::from("/tmp/d/a.tar.part"));
    let moved = builder_in("/tmp/d").directory(PathBuf::from("/e")).build().clone();
    assert_eq!(moved.output_path(&resource_named("b")), PathBuf::from("/e/b"));
    assert_eq!(moved.part_path(&resource_named("b")), PathBuf::from("/e/b.part"));
}

#[test]
fn options_are_taken_over() {
    let options = Options {
        retries: Some(9),
        concurrent_downloads: None,
        concurrent_chunk: None,
        chunk_size: Some(5),
        directory: Some(PathBuf::from("/f")),
    };
    let downloader = builder_in("/tmp/d").concurrent_downloads(2).configure(options).build();
    assert_eq!(downloader.client_plan(None).retries, 9);
    assert_eq!(downloader.concurrent_downloads(), 2);
    assert_eq!(downloader.output_path(&resource_named("b")), PathBuf::from("/f/b"));
    assert_eq!(builder_in("/").retries(1).build().client_plan(None).retries, 1);
}

#[test]
fn custom_headers_are_sent() {
    let mut more = HeaderMap::new();
    more.append("x-a", HeaderValue::from_static("1"));
    more.append("x-a", HeaderValue::from_static("2"));
    more.append("accept-encoding", HeaderValue::from_static("gzip"));
    let builder = builder_in("/")
        .header(HeaderName::from_static("x-a"), HeaderValue::from_static("0"))
        .header(HeaderName::from_static("x-b"), HeaderValue::from_static("3"));
    assert_eq!(builder.header_count(), 2);
    let builder = builder.headers(more);
    assert_eq!(builder.header_count(), 3);
    let downloader = builder.build();
    let head = downloader.head_headers();
    assert_eq!(values_of(&head, "x-a"), vec!["1", "2"]);
    assert_eq!(values_of(&head, "x-b"), vec!["3"]);
    assert_eq!(values_of(&head, "accept-encoding"), vec!["identity"]);
    assert_eq!(head.len(), 4);
    let plan = downloader.client_plan(Some(true));
    assert_eq!(values_of(&plan.default_headers, "accept-encoding"), vec!["identity"]);
    assert_eq!(values_of(&plan.default_headers, "x-a"), vec!["1", "2"]);
    assert_eq!(plan.insecure, Some(true));
    let copy = downloader.clone();
    assert_eq!(copy.head_headers(), head);
}

#[test]
fn own_headers_of_requests_win() {
    let mut more = HeaderMap::new();
    more.append("accept-encoding", HeaderValue::from_static("gzip"));
    more.append("accept-encoding", HeaderValue::from_static("br"));
    more.append("range", HeaderValue::from_static("bytes=5-9"));
    more.append("if-range", HeaderValue::from_static("mine"));
    let downloader = builder_in("/").headers(more).build();
    let head = downloader.head_headers();
    assert_eq!(values_of(&head, "accept-encoding"), vec!["identity"]);
    assert_eq!(values_of(&head, "range"), vec!["bytes=5-9"]);
    let get = downloader.probe_headers();
    assert_eq!(values_of(&get, "accept-encoding"), vec!["identity"]);
    assert_eq!(values_of(&get, "range"), vec!["bytes=0-0"]);
    assert_eq!(values_of(&get, "if-range"), vec!["mine"]);
    assert_eq!(get.len(), 3);
}

#[test]
fn headers_are_set_by_name() {
    let a = HeaderName::from_static("x-a");
    let b = HeaderName::from_static("x-b");
    let one = HeaderValue::from_static("1");
    let two = HeaderValue::from_static("2");
    let sent = |builder: DownloaderBuilder| builder.build().head_headers();
    let ab = builder_in("/").header(a.clone(), one.clone()).header(b.clone(), two.clone());
    let ba = builder_in("/").header(b, two.clone()).header(a.clone(), one.clone());
    assert_eq!(sent(ab), sent(ba));
    let twice = builder_in("/").header(a.clone(), one).header(a.clone(), two.clone());
    assert_eq!(sent(twice), sent(builder_in("/").header(a, two)));
}

#[test]
fn plain_requests_ask_for_identity() {
    let downloader = builder_in("/").build();
    let head = downloader.head_headers();
    assert_eq!(values_of(&head, "accept-encoding"), vec!["identity"]);
    assert_eq!(head.len(), 1);
    let get = downloader.probe_headers();
    assert_eq!(values_of(&get, "accept-encoding"), vec!["identity"]);
    assert_eq!(values_of(&get, "range"), vec!["bytes=0-0"]);
    assert_eq!(get.len(), 2);
    let plan = downloader.client_plan(None);
    assert_eq!(values_of(&plan.default_headers, "accept-encoding"), vec!["identity"]);
    assert_eq!(plan.default_headers.len(), 1);
}

#[test]
fn too_many_headers_are_refused() {
    let mut many = HeaderMap::new();
    for i in 0..6550 {
        let name = HeaderName::from_bytes(format!("x-{}", i).as_bytes()).unwrap();
        many.insert(name, HeaderValue::from_static("v"));
    }
    let builder = builder_in("/").try_headers(many.clone()).ok().unwrap();
    assert_eq!(builder.header_count(), 6550);
    let name = HeaderName::from_static("y");
    let value = HeaderValue::from_static("w");
    let builder = builder.try_header(name.clone(), value.clone()).err().unwrap();
    assert_eq!(builder.header_count(), 6550);
    assert_eq!(builder.build().probe_headers().keys_len(), 6552);
    let builder = builder_in("/").try_header(name, value).ok().unwrap();
    assert_eq!(builder.header_count(), 1);
    let builder = builder.try_headers(many).err().unwrap();
    assert_eq!(builder.header_count(), 1);
}

#[test]
fn user_agents_are_random() {
    assert_eq!(user_agent("x"), "cargo-fetcher/x");
    let downloader = builder_in("/").build();
    let one = downloader.client_plan(None).user_agent;
    let two = downloader.client_plan(None).user_agent;
    assert!(one.starts_with("cargo-fetcher/"));
    assert_eq!(one.len(), 14 + 36);
    assert_eq!(one.as_bytes()[14 + 14], b'4');
    assert!(one != two);
}

#[test]
fn failed_client_fails_each_download() {
    let downloads = [resource_named("a"), resource_named("b")];
    let summaries = client_failures(&downloads, "no TLS");
    assert_eq!(summaries.len(), 2);
    assert_eq!(summaries[1].download().filename, "b");
    assert_eq!(summaries[1].status_code(), StatusCode::BAD_REQUEST);
    assert_eq!(summaries[0].size(), 0);
    let message = "failed to build reqwest client: no TLS".to_string();
    assert_eq!(summaries[0].status(), &Status::Fail(message));
    assert!(client_failures(&[], "x").is_empty());
}

#[test]
fn summaries_keep_what_they_are_given() {
    let summary = Summary::new(resource_named("a"), StatusCode::OK, 12);
    assert_eq!(summary.status(), &Status::NotStarted);
    let summary = summary.with_status(Status::Success);
    assert_eq!(summary.status(), &Status::Success);
    assert_eq!(summary.size(), 12);
    assert_eq!(summary.status_code(), StatusCode::OK);
    assert_eq!(summary.download().url.as_str(), "https://example.com/x");
    let summary = summary.clone().fail("gone");
    assert_eq!(summary.status(), &Status::Fail("gone".to_string()));
    assert_eq!(summary.size(), 12);
    let skipped = summary.with_status(Status::Skipped("s".to_string()));
    assert_eq!(skipped.status().clone(), Status::Skipped("s".to_string()));
}

#[test]
fn content_length_is_read() {
    let resource = resource_named("a");
    let mut map = HeaderMap::new();
    assert_eq!(resource.content_length(&map), None);
    map.insert("content-length", HeaderValue::from_static("321"));
    assert_eq!(resource.content_length(&map), Some(321));
    map.insert("content-length", HeaderValue::from_static("many"));
    assert_eq!(resource.content_length(&map), None);
    map.insert("content-length", HeaderValue::from_bytes(b"1\xff").unwrap());
    assert_eq!(resource.clone().content_length(&map), None);
}
