use web_crawler::fetch::{format_reqwest_error, FetchError, FetchErrorKind};

fn some(s: &str) -> Option<String> {
    Some(s.to_string())
}

#[test]
fn a_status_counts_first() {
    let e = FetchError::classify(some("404 Not Found"), true, true, true, None, None);
    assert_eq!(e.kind, FetchErrorKind::HttpStatus("404 Not Found".to_string()));
}

#[test]
fn the_flags_count_in_order() {
    assert_eq!(
        FetchError::classify(None, true, true, true, None, None).kind,
        FetchErrorKind::Timeout
    );
    assert_eq!(
        FetchError::classify(None, false, true, true, None, None).kind,
        FetchErrorKind::Connect
    );
    assert_eq!(
        FetchError::classify(None, false, false, true, None, None).kind,
        FetchErrorKind::Request
    );
    assert_eq!(
        FetchError::classify(None, false, false, false, None, None).kind,
        FetchErrorKind::Unknown
    );
}

#[test]
fn classify_keeps_url_and_cause() {
    let e = FetchError::classify(None, true, false, false, some("https://a/"), some("slow"));
    assert_eq!(e.url, some("https://a/"));
    assert_eq!(e.cause, some("slow"));
}

#[test]
fn status_error_reads_with_its_url() {
    let e = FetchError::classify(
        some("404 Not Found"),
        false,
        false,
        false,
        some("https://example.com/"),
        None,
    );
    assert_eq!(format_reqwest_error(&e), "HTTP error: 404 Not Found | URL: https://example.com/");
}

#[test]
fn each_kind_has_its_text() {
    let plain = |kind: FetchErrorKind| FetchError { kind, url: None, cause: None };
    assert_eq!(format_reqwest_error(&plain(FetchErrorKind::Timeout)), "Timeout error");
    assert_eq!(format_reqwest_error(&plain(FetchErrorKind::Connect)), "Connection error");
    assert_eq!(format_reqwest_error(&plain(FetchErrorKind::Request)), "Request error");
    assert_eq!(format_reqwest_error(&plain(FetchErrorKind::Unknown)), "Unknown error");
    assert_eq!(
        format_reqwest_error(&plain(FetchErrorKind::HttpStatus("500".to_string()))),
        "HTTP error: 500"
    );
}

#[test]
fn url_comes_before_cause() {
    let e = FetchError {
        kind: FetchErrorKind::Connect,
        url: some("https://example.com/a"),
        cause: some("connection refused"),
    };
    assert_eq!(
        format_reqwest_error(&e),
        "Connection error | URL: https://example.com/a | Caused by: connection refused"
    );
}

#[test]
fn cause_alone_is_shown() {
    let e = FetchError { kind: FetchErrorKind::Unknown, url: None, cause: some("boom") };
    assert_eq!(format_reqwest_error(&e), "Unknown error | Caused by: boom");
}
