//! Endpoint navigation: `cd` semantics, provider selection and path
//! joining.

use parquet_viewer::ViewerError;
use parquet_viewer::browser::FileBrowser;
use parquet_viewer::browser::ListKind;
use parquet_viewer::browser::ProviderKind;
use parquet_viewer::browser::is_http_url;
use parquet_viewer::browser::is_parquet_name;
use parquet_viewer::browser::ends_with_zip;
use parquet_viewer::fs::LocalFs;
use parquet_viewer::http::PublicHttpEndpoint;

fn browser_at(endpoint: &str) -> FileBrowser {
    FileBrowser::new(endpoint.to_string()).unwrap()
}

#[test]
fn cd_semantics_walkthrough() {
    let mut b = browser_at("/a/b/c/");
    b.change_dir("..").unwrap();
    assert_eq!(b.get_current_dir(), "/a/b");
    b.change_dir("d").unwrap();
    assert_eq!(b.get_current_dir(), "/a/b/d");
    b.change_dir("http://h/x").unwrap();
    assert_eq!(b.get_current_dir(), "http://h/x");
    b.change_dir("/z").unwrap();
    assert_eq!(b.get_current_dir(), "/z");
}

#[test]
fn stay_put_forms_keep_the_endpoint() {
    let mut b = browser_at("/data");
    b.change_dir("").unwrap();
    assert_eq!(b.get_current_dir(), "/data");
    b.change_dir(".").unwrap();
    assert_eq!(b.get_current_dir(), "/data");
    b.change_dir("./").unwrap();
    assert_eq!(b.get_current_dir(), "/data");
}

#[test]
fn parent_of_endpoint_without_separator_is_itself() {
    let mut b = browser_at("plain");
    b.change_dir("..").unwrap();
    assert_eq!(b.get_current_dir(), "plain");
}

#[test]
fn parent_then_child_returns() {
    let mut b = browser_at("/store/archive");
    b.change_dir("..").unwrap();
    assert_eq!(b.get_current_dir(), "/store");
    b.change_dir("archive").unwrap();
    assert_eq!(b.get_current_dir(), "/store/archive");
}

#[test]
fn zip_endpoint_refuses_descent() {
    let mut b = browser_at("/data/bundle.zip");
    let err = b.change_dir("inner").unwrap_err();
    assert!(matches!(err, ViewerError::CannotDescendIntoArchive));
    assert_eq!(b.get_current_dir(), "/data/bundle.zip");
    // Navigation forms still work from an archive.
    b.change_dir("..").unwrap();
    assert_eq!(b.get_current_dir(), "/data");
}

#[test]
fn absolute_paths_replace_even_archives() {
    let mut b = browser_at("/data/bundle.zip");
    b.change_dir("/other").unwrap();
    assert_eq!(b.get_current_dir(), "/other");
    let mut b2 = browser_at("/data/bundle.zip");
    b2.change_dir("https://host/dir").unwrap();
    assert_eq!(b2.get_current_dir(), "https://host/dir");
}

#[test]
fn join_inserts_separator_only_when_needed() {
    let b = browser_at("/a/b");
    assert_eq!(b.get_full_path("c"), "/a/b/c");
    let b2 = browser_at("/a/b/");
    assert_eq!(b2.get_full_path("c"), "/a/b/c");
    assert_eq!(b2.get_full_path(""), "/a/b/");
}

#[test]
fn provider_follows_scheme() {
    assert_eq!(browser_at("http://host/x").get_provider(), ProviderKind::Http);
    assert_eq!(browser_at("https://host/x").get_provider(), ProviderKind::Http);
    assert_eq!(browser_at("/local/x").get_provider(), ProviderKind::LocalFs);
    // `http` alone is not a scheme.
    assert_eq!(browser_at("httpdocs/x").get_provider(), ProviderKind::LocalFs);
}

#[test]
fn listing_kind_follows_zip_suffix() {
    assert_eq!(browser_at("/d/a.zip").list_kind(), ListKind::Zip);
    assert_eq!(browser_at("/d/a").list_kind(), ListKind::Dir);
    // The suffix match is case-sensitive.
    assert_eq!(browser_at("/d/a.ZIP").list_kind(), ListKind::Dir);
}

#[test]
fn suffix_predicates() {
    assert!(ends_with_zip("x.zip"));
    assert!(ends_with_zip("xzip"));
    assert!(!ends_with_zip("x.zip/"));
    assert!(is_parquet_name("part-0.parquet"));
    assert!(!is_parquet_name("part-0.parquet.bak"));
    assert!(!is_parquet_name("parquet"));
    assert!(is_http_url("http://h"));
    assert!(is_http_url("https://h"));
    assert!(!is_http_url("httpx://h"));
}

#[test]
fn localfs_client_navigates_like_the_browser() {
    let mut fs = LocalFs::new("/a/b/c/".to_string());
    assert_eq!(fs.get_current_dir(), "/a/b/c/");
    fs.change_dir("..").unwrap();
    assert_eq!(fs.get_current_dir(), "/a/b");
    fs.change_dir("d").unwrap();
    assert_eq!(fs.get_current_dir(), "/a/b/d");
    fs.set_endpoint("/fresh".to_string());
    assert_eq!(fs.get_current_dir(), "/fresh");
    assert_eq!(fs.get_full_path("kid"), "/fresh/kid");

    let mut zipped = LocalFs::new("/x/y.zip".to_string());
    let err = zipped.change_dir("deeper").unwrap_err();
    assert!(matches!(err, ViewerError::CannotDescendIntoArchive));
    assert_eq!(zipped.get_current_dir(), "/x/y.zip");
}

#[test]
fn http_client_cd_always_joins() {
    let mut http = PublicHttpEndpoint::new("http://host/root".to_string()).unwrap();
    assert_eq!(http.get_current_dir(), "http://host/root");
    http.change_dir("sub").unwrap();
    assert_eq!(http.get_current_dir(), "http://host/root/sub");
    http.set_endpoint("http://other/".to_string());
    assert_eq!(http.get_full_path("a"), "http://other/a");
}
