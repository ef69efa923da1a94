use fetcher::address::get_filename_from_url;
use fetcher::links::{
    direct_download, get_downloadable_urls, link_for, resources_named, shows_page, wants_reference,
    wants_target,
};
use reqwest::header::{HeaderMap, HeaderName, HeaderValue};
use reqwest::Url;

#[test]
fn file_name_is_the_last_part() {
    let name = |url: &str| get_filename_from_url(url);
    assert_eq!(name("https://example.com/a/b.zip?x=1#y"), Some("b.zip".to_string()));
    assert_eq!(name("https://example.com/a/b/"), Some("b".to_string()));
    assert_eq!(name("https://example.com/a:b"), Some("a:b".to_string()));
    assert_eq!(name("https://example.com/a%20b"), Some("a%20b".to_string()));
    assert_eq!(name("https://example.com/"), None);
    assert_eq!(name("https://example.com"), None);
    assert_eq!(name("no url"), None);
    assert_eq!(name("https://example.com/:b"), Some(":b".to_string()));
    assert_eq!(name("mailto:."), None);
    assert_eq!(name("mailto:.."), None);
    assert_eq!(name("mailto:x/."), Some("x".to_string()));
}

#[test]
fn references_are_sorted_out() {
    assert!(!wants_reference("#top"));
    assert!(!wants_reference("../up"));
    assert!(!wants_reference("javascript:void(0)"));
    assert!(wants_reference("file.zip"));
    assert!(wants_reference("./file.zip"));
    assert!(!wants_target("dir/", "/dir/", "https://example.com/dir/"));
    assert!(!wants_target("p.html", "/p.html", "https://example.com/p.html"));
    assert!(!wants_target("?C=N;O=D", "/x", "https://example.com/x?C=N;O=D"));
    assert!(wants_target("p.html?q", "/p.html", "https://example.com/p.html?q"));
    assert!(wants_target("a.zip", "/a.zip", "https://example.com/a.zip"));
}

#[test]
fn links_are_joined_to_the_base() {
    let base = Url::parse("https://example.com/pub/index").unwrap();
    assert_eq!(link_for(&base, "a.zip"), Some("https://example.com/pub/a.zip".to_string()));
    assert_eq!(link_for(&base, "/b.zip"), Some("https://example.com/b.zip".to_string()));
    assert_eq!(link_for(&base, "http://["), None);
    assert_eq!(link_for(&base, "dir/"), None);
    assert_eq!(link_for(&base, "#a"), None);
}

#[test]
fn links_of_a_page_are_collected() {
    let page = "<html><body><a href='a.zip'>a</a><a>none</a><a href='dir/'>d</a>\
                <p><a href='#top'>t</a><a href='../up'>u</a><a href='x.html'>x</a></p>\
                <a href='/b.tar.gz'>b</a><a href='?C=N'>s</a><link href='no.css'></body></html>";
    let links = get_downloadable_urls("https://example.com/pub/", page).unwrap();
    assert_eq!(links, vec!["https://example.com/pub/a.zip", "https://example.com/b.tar.gz"]);
    assert!(links.iter().all(|l| !l.ends_with(".html")));
    let error = get_downloadable_urls("pub", page).unwrap_err();
    assert_eq!(error, "relative URL without a base");
    assert!(get_downloadable_urls("https://example.com/", "").unwrap().is_empty());
}

#[test]
fn pages_are_told_by_their_type() {
    let name = HeaderName::from_static("content-type");
    let mut map = HeaderMap::new();
    assert!(!shows_page(&map));
    assert_eq!(direct_download("u", &map), Some(vec!["u".to_string()]));
    map.insert(name.clone(), HeaderValue::from_static("application/zip"));
    assert_eq!(direct_download("u", &map), Some(vec!["u".to_string()]));
    map.insert(name.clone(), HeaderValue::from_static("text/html; charset=utf-8"));
    assert_eq!(direct_download("u", &map), None);
    map.insert(name, HeaderValue::from_bytes(b"text/html\xff").unwrap());
    assert!(!shows_page(&map));
}

#[test]
fn each_link_gives_a_resource() {
    let links = vec!["https://example.com/a.zip".to_string(), "https://example.com/d/b".to_string()];
    let resources = resources_named("https://example.com", &links, None).unwrap();
    assert_eq!(resources.len(), 2);
    assert_eq!(resources[0].url.as_str(), "https://example.com/");
    assert_eq!(resources[0].filename, "a.zip");
    assert_eq!(resources[1].url.as_str(), "https://example.com/");
    assert_eq!(resources[1].filename, "b");
    assert!(resources_named("none", &links, None).is_none());
    let nameless = vec!["https://example.com/".to_string()];
    assert!(resources_named("https://example.com", &nameless, None).is_none());
    assert!(resources_named("none", &vec![], None).unwrap().is_empty());
}

#[test]
fn given_name_is_taken() {
    let links = vec!["https://example.com/a.zip".to_string(), "https://example.com/".to_string()];
    let resources = resources_named("https://example.com/p", &links, Some("out.bin")).unwrap();
    assert_eq!(resources.len(), 2);
    assert_eq!(resources[0].url.as_str(), "https://example.com/p");
    assert_eq!(resources[0].filename, "out.bin");
    assert_eq!(resources[1].filename, "out.bin");
    assert!(resources_named("none", &links, Some("out.bin")).is_none());
}

#[test]
fn zero_byte_is_replaced() {
    let links = get_downloadable_urls("https://example.com/", "<a href=\"x\0y\">").unwrap();
    assert_eq!(links, vec!["https://example.com/x%EF%BF%BDy"]);
}
