use fetcher::probe::{parse_total_from_content_range, probe, IfRange, Probe, Reply};
use reqwest::header::{HeaderMap, HeaderName, HeaderValue};
use reqwest::StatusCode;

fn headers_of(pairs: &[(&'static str, &str)]) -> HeaderMap {
    let mut map = HeaderMap::new();
    for (name, value) in pairs {
        map.append(HeaderName::from_static(name), HeaderValue::from_str(value).unwrap());
    }
    map
}

fn probe_with(head: &[(&'static str, &str)], get: &[(&'static str, &str)]) -> Result<Probe, String> {
    let head = headers_of(head);
    let get = headers_of(get);
    probe(
        Some(Reply { status: StatusCode::OK, headers: &head }),
        Some(Reply { status: StatusCode::PARTIAL_CONTENT, headers: &get }),
    )
}

#[test]
fn total_comes_from_content_range() {
    let value = HeaderValue::from_static("bytes 0-0/1234");
    assert_eq!(parse_total_from_content_range(Some(&value)), Some(1234));
    let value = HeaderValue::from_static("bytes 0-0/*");
    assert_eq!(parse_total_from_content_range(Some(&value)), None);
    let value = HeaderValue::from_static("1234");
    assert_eq!(parse_total_from_content_range(Some(&value)), Some(1234));
    let value = HeaderValue::from_bytes(b"bytes 0-0/12\xff").unwrap();
    assert_eq!(parse_total_from_content_range(Some(&value)), None);
    assert_eq!(parse_total_from_content_range(None), None);
}

#[test]
fn ranges_need_both_signs() {
    let p = probe_with(&[("accept-ranges", "Bytes")], &[("content-range", "bytes 0-0/77")]);
    let p = p.unwrap();
    assert_eq!(p.total_size(), 77);
    assert!(p.supports_ranges());
    let p = probe_with(&[("accept-ranges", "none")], &[("content-range", "bytes 0-0/77")]).unwrap();
    assert!(!p.supports_ranges());
    let p = probe_with(&[], &[("content-range", "bytes 0-0/77")]).unwrap();
    assert!(!p.supports_ranges());
    assert_eq!(p.total_size(), 77);
}

#[test]
fn whole_reply_takes_length_from_head() {
    let head = headers_of(&[("content-length", "500"), ("accept-ranges", "bytes")]);
    let none = HeaderMap::new();
    let p = probe(
        Some(Reply { status: StatusCode::OK, headers: &head }),
        Some(Reply { status: StatusCode::OK, headers: &none }),
    )
    .unwrap();
    assert_eq!(p.total_size(), 500);
    assert!(!p.supports_ranges());
    let p = probe(
        Some(Reply { status: StatusCode::NOT_FOUND, headers: &head }),
        Some(Reply { status: StatusCode::OK, headers: &none }),
    )
    .unwrap();
    assert_eq!(p.total_size(), 0);
    let p = probe(None, Some(Reply { status: StatusCode::OK, headers: &none })).unwrap();
    assert_eq!(p.total_size(), 0);
    assert!(p.if_range().is_none());
}

#[test]
fn probe_failures_have_messages() {
    let none = HeaderMap::new();
    assert_eq!(probe(None, None).unwrap_err(), "probe GET failed");
    let r = probe(None, Some(Reply { status: StatusCode::PARTIAL_CONTENT, headers: &none }));
    assert_eq!(r.unwrap_err(), "missing/invalid Content-Range on probe");
    let r = probe(None, Some(Reply { status: StatusCode::NOT_FOUND, headers: &none }));
    assert_eq!(r.unwrap_err(), "probe unexpected HTTP 404 Not Found");
    let odd = StatusCode::from_u16(799).unwrap();
    let r = probe(None, Some(Reply { status: odd, headers: &none }));
    assert_eq!(r.unwrap_err(), "probe unexpected HTTP 799 <unknown status code>");
}

#[test]
fn strong_tag_comes_before_date() {
    let get = [("content-range", "bytes 0-0/9")];
    let date = "Wed, 21 Oct 2015 07:28:00 GMT";
    let p = probe_with(&[("etag", "\"abc\""), ("last-modified", date)], &get).unwrap();
    match p.if_range() {
        Some(IfRange::ETag(tag)) => assert_eq!(tag, "\"abc\""),
        _ => panic!("not the tag"),
    }
    let p = probe_with(&[("etag", "W/\"abc\""), ("last-modified", date)], &get).unwrap();
    match p.if_range() {
        Some(IfRange::LastModified(text)) => assert_eq!(text, date),
        _ => panic!("not the date"),
    }
    let p = probe_with(&[("etag", "W/\"abc\"")], &get).unwrap();
    assert!(p.if_range().is_none());
    let p = probe_with(&[("last-modified", date)], &get).unwrap();
    assert_eq!(p.clone().if_range().unwrap().value(), date);
}
