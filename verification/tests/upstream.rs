//! Upstream URLs.

use headroom_proxy::upstream::{
    build_upstream_url, combine_paths, is_web_url, join_fits, join_upstream_path,
    upstream_base_fits,
};
use http::Uri;

#[test]
fn url_build_basic() {
    let base: url::Url = "http://up:8080".parse().unwrap();
    let uri: Uri = "/v1/messages?stream=true".parse().unwrap();
    let out = build_upstream_url(&base, &uri).unwrap();
    assert_eq!(out.as_str(), "http://up:8080/v1/messages?stream=true");
}

#[test]
fn url_build_with_base_path() {
    let base: url::Url = "http://up:8080/api".parse().unwrap();
    let uri: Uri = "/v1/messages".parse().unwrap();
    let out = build_upstream_url(&base, &uri).unwrap();
    assert_eq!(out.as_str(), "http://up:8080/api/v1/messages");
}

#[test]
fn url_build_root() {
    let base: url::Url = "http://up:8080/".parse().unwrap();
    let uri: Uri = "/".parse().unwrap();
    let out = build_upstream_url(&base, &uri).unwrap();
    assert_eq!(out.as_str(), "http://up:8080/");
}

#[test]
fn paths_are_combined_below_the_base() {
    assert_eq!(combine_paths("/", "/v1/foo"), "/v1/foo");
    assert_eq!(combine_paths("/api", "/v1/foo"), "/api/v1/foo");
    assert_eq!(combine_paths("/api/", "/v1/foo"), "/api/v1/foo");
    assert_eq!(combine_paths("/api///", "/v1/foo"), "/api/v1/foo");
    assert_eq!(combine_paths("/api", "/"), "/api");
    assert_eq!(combine_paths("/api/", ""), "/api");
    assert_eq!(combine_paths("", ""), "/");
    assert_eq!(combine_paths("///", "/"), "/");
    assert_eq!(combine_paths("/a/b", "//c/"), "/a/b//c/");
}

#[test]
fn the_query_is_kept_verbatim() {
    let base: url::Url = "https://up/api/".parse().unwrap();
    let out = join_upstream_path(&base, "/v1/x", Some("a=1&b=%20c&&d"));
    assert_eq!(out.as_str(), "https://up/api/v1/x?a=1&b=%20c&&d");
    let out = join_upstream_path(&base, "/v1/x", Some(""));
    assert_eq!(out.as_str(), "https://up/api/v1/x?");
    let out = join_upstream_path(&base, "/v1/x", None);
    assert_eq!(out.as_str(), "https://up/api/v1/x");
}

#[test]
fn a_query_of_the_base_is_replaced() {
    let base: url::Url = "http://up/?old=1".parse().unwrap();
    assert_eq!(
        join_upstream_path(&base, "/p", None).as_str(),
        "http://up/p"
    );
    assert_eq!(
        join_upstream_path(&base, "/p", Some("new")).as_str(),
        "http://up/p?new"
    );
}

#[test]
fn paths_that_are_not_plain_are_encoded() {
    let base: url::Url = "http://up".parse().unwrap();
    assert_eq!(
        join_upstream_path(&base, "/a b", Some("it's")).as_str(),
        "http://up/a%20b?it%27s"
    );
    assert_eq!(
        join_upstream_path(&base, "/a/../b", None).as_str(),
        "http://up/b"
    );
}

#[test]
fn ordinary_urls_fit() {
    let base: url::Url = "http://up:8080/api".parse().unwrap();
    assert!(upstream_base_fits(&base));
    assert!(join_fits(&base, "/v1/messages", Some("stream=true")));
    assert!(join_fits(&base, "", None));
}

fn url(text: &str) -> url::Url {
    text.parse().unwrap()
}

#[test]
fn the_base_path_is_never_left() {
    for (path, expected) in [
        ("/../admin", "/api/admin"),
        ("/a/../../../b", "/api/b"),
        ("/%2e%2E/x", "/api/x"),
        ("/.%2e/x", "/api/x"),
        ("/..", "/api/"),
        ("/.", "/api/"),
        ("/\\..\\x", "/api/x"),
        ("/a/./b/../c", "/api/a/c"),
        ("/a b/..", "/api/"),
        ("//x", "/api//x"),
        ("/..a/b..", "/api/..a/b.."),
    ] {
        let out = join_upstream_path(&url("http://up:8080/api/"), path, None);
        assert_eq!(out.path(), expected, "{path}");
    }
}

#[test]
fn paths_under_the_root_are_resolved_as_url_does() {
    let segments = ["a", "", "..", ".", "%2e", ".%2E", "C:", "b c", "..."];
    let root = url("https://up");
    for a in segments {
        for b in segments {
            for c in segments {
                for path in [
                    format!("/{a}"),
                    format!("/{a}/{b}"),
                    format!("/{a}/{b}/{c}"),
                    format!("/{a}\\{b}/{c}/"),
                ] {
                    let mut expected = root.clone();
                    expected.set_path(&path);
                    assert_eq!(join_upstream_path(&root, &path, None), expected, "{path}");
                }
            }
        }
    }
}

#[test]
fn paths_that_stay_below_the_base_are_joined_as_url_does() {
    for path in ["/a", "/a/", "/a/../b", "/a/b/./c/", "/C:/..", "/x y/%41", "/*", "/a//..//b"] {
        let base = url("ws://up/api");
        let mut expected = base.clone();
        expected.set_path(&format!("/api{path}"));
        assert_eq!(join_upstream_path(&base, path, None), expected, "{path}");
    }
}

#[test]
fn everything_else_of_the_base_is_kept() {
    for scheme in ["http", "https", "ws", "wss"] {
        let base = url(&format!("{scheme}://u:p@up:81/api/?old=1#frag"));
        assert!(is_web_url(&base));
        let out = join_upstream_path(&base, "/v1", Some("q=1"));
        assert_eq!(out.as_str(), format!("{scheme}://u:p@up:81/api/v1?q=1#frag"));
        assert_eq!(
            (out.scheme(), out.username(), out.password(), out.port()),
            (scheme, "u", Some("p"), Some(81))
        );
        assert_eq!((out.host_str(), out.fragment()), (Some("up"), Some("frag")));
        let out = join_upstream_path(&base, "", None);
        assert_eq!(out.as_str(), format!("{scheme}://u:p@up:81/api#frag"));
    }
}

#[test]
fn queries_are_encoded_where_a_url_cannot_hold_them() {
    let base = url("http://up:8080");
    let uri: Uri = "/v1/x?q='a'".parse().unwrap();
    let out = build_upstream_url(&base, &uri).unwrap();
    assert_eq!(out.as_str(), "http://up:8080/v1/x?q=%27a%27");
    let out = join_upstream_path(&base, "/", Some("a\t\"<é>#\n b\u{7f}{}|`\\^[]%"));
    assert_eq!(
        out.query(),
        Some("a%22%3C%C3%A9%3E%23%20b%7F{}|`\\^[]%")
    );
}

#[test]
fn joins_can_be_chained() {
    for base in ["http://up", "https://up/api/", "wss://up/a/b?x#f"] {
        let base = url(base);
        let m = join_upstream_path(&base, "/p/q", None);
        assert_eq!(
            join_upstream_path(&m, "/r/", Some("it's")),
            join_upstream_path(&base, "/p/q/r/", Some("it's"))
        );
    }
}

#[test]
fn other_urls_are_joined_by_url_alone() {
    let base = url("data:x");
    assert!(!is_web_url(&base));
    assert_eq!(join_upstream_path(&base, "?y", None).as_str(), "data:x?y");
    let base = url("foo:/");
    assert_eq!(join_upstream_path(&base, "//bar", None).path(), "//bar");
    assert!(!is_web_url(&url("httpx://up")));
    let base = url("http://up/api");
    assert_eq!(join_upstream_path(&base, "*", None).as_str(), "http://up/api*");
}

#[test]
fn bases_with_dot_segments_of_their_own_are_resolved() {
    // A file URL keeps the dots of its path, also once it is made a web URL.
    for (file, path, expected) in [
        ("/a/../b", "/x", "/b/x"),
        ("/a/../b", "/../x", "/b/x"),
        ("/a/../b", "/", "/b"),
        ("/a/../b", "", "/b"),
        ("/a/..", "/x", "/x"),
        ("/a/..", "/", "/"),
        ("/a/b/..", "/x", "/a/x"),
        ("/a/b/..", "/", "/a/"),
    ] {
        let mut base = url::Url::from_file_path(file).unwrap();
        base.set_host(Some("h")).unwrap();
        base.set_scheme("http").unwrap();
        assert_eq!(base.path(), file);
        let out = join_upstream_path(&base, path, None);
        assert_eq!(out.path(), expected, "{file} {path}");
        assert_eq!(out.as_str(), format!("http://h{expected}"));
    }
}
