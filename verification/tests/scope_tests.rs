use web_crawler::scope::{count_segments, depth_control, depth_matches, hosts_match, is_same_domain};
use web_crawler::weburl::UrlParts;

fn parts(host: Option<&str>, segments: Option<&[&str]>) -> Option<UrlParts> {
    Some(UrlParts {
        host: host.map(|h| h.to_string()),
        segments: segments.map(|s| s.iter().map(|x| x.to_string()).collect()),
    })
}

#[test]
fn same_host_is_same_domain() {
    assert!(is_same_domain("https://example.com/", "https://example.com/a/b"));
    assert!(is_same_domain("https://example.com/", "http://example.com:8080/x?y"));
    assert!(is_same_domain("https://example.com/", "https://EXAMPLE.com/"));
}

#[test]
fn other_host_is_other_domain() {
    assert!(!is_same_domain("https://example.com/", "https://example2.com/"));
    assert!(!is_same_domain("https://example.com/", "https://www.example.com/"));
    assert!(!is_same_domain("https://example.com/", "https://other.com/x"));
}

#[test]
fn unparseable_url_is_on_no_domain() {
    assert!(!is_same_domain("https://example.com/", "not a url"));
    assert!(!is_same_domain("not a url", "https://example.com/"));
    assert!(!is_same_domain("not a url", "not a url"));
    assert!(!is_same_domain("", ""));
    assert!(!is_same_domain("/a", "/a"));
}

#[test]
fn root_is_on_its_own_domain() {
    for root in [
        "https://example.com/",
        "http://example.com",
        "https://sub.example.org:444/a/b?c#d",
        "http://127.0.0.1/",
        "mailto:me@example.com",
        "data:text/plain,hello",
    ] {
        assert!(is_same_domain(root, root), "on {:?}", root);
    }
}

#[test]
fn urls_without_host_are_on_one_domain() {
    assert!(is_same_domain("mailto:a@example.com", "data:text/plain,x"));
    assert!(!is_same_domain("mailto:a@example.com", "https://example.com/"));
}

#[test]
fn hosts_are_compared_as_written() {
    assert!(hosts_match(&parts(Some("a.com"), None), &parts(Some("a.com"), Some(&["x"]))));
    assert!(!hosts_match(&parts(Some("a.com"), None), &parts(Some("A.com"), None)));
    assert!(!hosts_match(&parts(Some("a.com"), None), &parts(None, None)));
    assert!(!hosts_match(&parts(None, None), &parts(Some("a.com"), None)));
    assert!(hosts_match(&parts(None, None), &parts(None, None)));
    assert!(!hosts_match(&None, &parts(Some("a.com"), None)));
    assert!(!hosts_match(&parts(Some("a.com"), None), &None));
    assert!(!hosts_match(&None, &None));
}

#[test]
fn empty_segments_are_not_counted() {
    let list = |s: &[&str]| -> Vec<String> { s.iter().map(|x| x.to_string()).collect() };
    assert_eq!(count_segments(&list(&[])), 0);
    assert_eq!(count_segments(&list(&[""])), 0);
    assert_eq!(count_segments(&list(&["a"])), 1);
    assert_eq!(count_segments(&list(&["a", "", "b", ""])), 2);
    assert_eq!(count_segments(&list(&["", "", ""])), 0);
    assert_eq!(count_segments(&list(&["a", "b", "c"])), 3);
}

#[test]
fn no_limit_cuts_nothing_off() {
    for url in ["https://example.com/", "https://example.com/a/b/c", "not a url", "", "mailto:x@y"] {
        assert!(!depth_control(url, 0), "on {:?}", url);
    }
    assert!(!depth_matches(&parts(None, Some(&[])), 0));
    assert!(!depth_matches(&None, 0));
}

#[test]
fn cutoff_is_at_exactly_the_limit() {
    assert!(depth_control("https://example.com/1/2", 2));
    assert!(depth_control("https://example.com/1/2/", 2));
    assert!(!depth_control("https://example.com/1", 2));
    assert!(!depth_control("https://example.com/1/2/3", 2));
    assert!(!depth_control("https://example.com/", 2));
    assert!(depth_control("https://example.com/a/b/c", 3));
    assert!(!depth_control("https://example.com/a/b/c", 2));
    assert!(!depth_control("https://example.com/a/b/c", 4));
    assert!(depth_control("https://example.com/a", 1));
    assert!(!depth_control("https://example.com", 1));
}

#[test]
fn query_and_fragment_add_no_depth() {
    assert!(depth_control("https://example.com/a/b?x=/c/d#/e", 2));
    assert!(depth_control("https://example.com//a//b//", 2));
}

#[test]
fn unparseable_url_is_never_cut_off() {
    assert!(!depth_control("not a url", 1));
    assert!(!depth_control("/a/b", 2));
    assert!(!depth_control("", -1));
    assert!(!depth_matches(&None, 1));
    assert!(!depth_matches(&None, -1));
}

#[test]
fn url_without_segments_is_never_cut_off() {
    for limit in [-2, -1, 1, 2, i32::MAX, i32::MIN] {
        assert!(!depth_control("mailto:me@example.com", limit), "limit {}", limit);
        assert!(!depth_control("data:text/plain,hello", limit), "limit {}", limit);
        assert!(!depth_matches(&parts(None, None), limit), "limit {}", limit);
        assert!(!depth_matches(&parts(Some("h"), None), limit), "limit {}", limit);
    }
}

#[test]
fn negative_limit_cuts_nothing_off() {
    for limit in [-1, -2, -3, i32::MIN] {
        for url in [
            "https://example.com/",
            "https://example.com/a",
            "https://example.com/a/b",
            "mailto:a@b.c",
            "not a url",
            "",
        ] {
            assert!(!depth_control(url, limit), "limit {} on {:?}", limit, url);
        }
        assert!(!depth_matches(&parts(None, Some(&[])), limit));
        assert!(!depth_matches(&parts(None, Some(&["a"])), limit));
        assert!(!depth_matches(&None, limit));
    }
}

#[test]
fn depth_is_compared_with_the_count() {
    assert!(depth_matches(&parts(Some("h"), Some(&["a", "", "b"])), 2));
    assert!(!depth_matches(&parts(Some("h"), Some(&["a", "", "b"])), 3));
    assert!(!depth_matches(&parts(Some("h"), Some(&["a", "", "b"])), 1));
    assert!(!depth_matches(&parts(Some("h"), Some(&[""])), i32::MAX));
    assert!(!depth_matches(&parts(Some("h"), Some(&[""])), i32::MIN));
}
