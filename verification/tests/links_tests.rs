use web_crawler::links::{collect_links, get_links, holds, push_new, MAX_PAGE_CHARS};

fn links(html: &str, base: &str) -> Vec<String> {
    let mut results = Vec::new();
    get_links(html, base, &mut results);
    results
}

fn list(items: &[&str]) -> Vec<String> {
    items.iter().map(|s| s.to_string()).collect()
}

#[test]
fn anchor_is_resolved_against_the_page() {
    assert_eq!(
        links("<a href=\"/index.html\">Home</a>", "https://example.com"),
        list(&["https://example.com/index.html"])
    );
}

#[test]
fn links_come_in_the_order_found() {
    let html = "<p><a href=\"b\">1</a></p><div><a href=\"/a\">2</a><a href=\"https://x.org/\">3</a></div>";
    assert_eq!(
        links(html, "https://example.com/dir/"),
        list(&["https://example.com/dir/b", "https://example.com/a", "https://x.org/"])
    );
}

#[test]
fn anchor_without_href_is_skipped() {
    let html = "<a name=\"top\">x</a><a href=\"/a\">a</a><a>y</a><a id=\"z\" class=\"c\">z</a>";
    assert_eq!(links(html, "https://example.com/"), list(&["https://example.com/a"]));
    assert_eq!(links("<a>only</a><a name=\"n\"></a>", "https://example.com/"), list(&[]));
}

#[test]
fn other_elements_are_no_links() {
    let html = "<link href=\"/style.css\"><img src=\"/i.png\"><area href=\"/area\"><p href=\"/p\">p</p>";
    assert_eq!(links(html, "https://example.com/"), list(&[]));
}

#[test]
fn repeated_link_is_kept_once() {
    let html = "<a href=\"/a\">1</a><a href=\"/b\">2</a><a href=\"/a\">3</a><a href=\"a\">4</a>";
    assert_eq!(
        links(html, "https://example.com/"),
        list(&["https://example.com/a", "https://example.com/b"])
    );
}

#[test]
fn empty_and_broken_markup_yield_what_they_can() {
    assert_eq!(links("", "https://example.com/"), list(&[]));
    assert_eq!(links("just text", "https://example.com/"), list(&[]));
    assert_eq!(links("<<<>>><a", "https://example.com/"), list(&[]));
    assert_eq!(
        links("<div><a href=\"/open\">never closed<p><b>", "https://example.com/"),
        list(&["https://example.com/open"])
    );
    assert_eq!(
        links("</a></div><a href='/q'>x", "https://example.com/"),
        list(&["https://example.com/q"])
    );
}

#[test]
fn empty_href_is_the_page_itself() {
    assert_eq!(links("<a href=\"\">self</a>", "https://example.com/p"), list(&["https://example.com/p"]));
}

#[test]
fn results_are_appended_to() {
    let mut results = list(&["https://example.com/b", "kept as it is"]);
    get_links(
        "<a href=\"/a\">a</a><a href=\"/b\">b</a><a href=\"/c\">c</a>",
        "https://example.com/",
        &mut results,
    );
    assert_eq!(
        results,
        list(&["https://example.com/b", "kept as it is", "https://example.com/a", "https://example.com/c"])
    );
}

#[test]
fn extraction_is_repeatable() {
    let html = "<a href=\"/a\">a</a><a>x</a><a href=\"b/c\">b</a><a href=\"/a\">a</a>";
    let first = links(html, "https://example.com/d/");
    let second = links(html, "https://example.com/d/");
    assert_eq!(first, second);
    assert_eq!(first, list(&["https://example.com/a", "https://example.com/d/b/c"]));
}

#[test]
fn second_extraction_adds_nothing() {
    let html = "<a href=\"/a\">a</a><a href=\"b\">b</a>";
    let mut results = Vec::new();
    get_links(html, "https://example.com/", &mut results);
    let once = results.clone();
    get_links(html, "https://example.com/", &mut results);
    assert_eq!(results, once);
}

#[test]
fn unusable_base_still_yields_links() {
    assert_eq!(links("<a href=\"/x\">x</a>", "nowhere"), list(&["nowhere/x"]));
}

#[test]
fn targets_are_collected_in_order() {
    let targets = vec![Some("/a".to_string()), None, Some("https://o.org/".to_string()), Some("/a".to_string())];
    let mut results = list(&["https://o.org/"]);
    collect_links(&targets, "https://example.com/", &mut results);
    assert_eq!(results, list(&["https://o.org/", "https://example.com/a"]));
}

#[test]
fn missing_targets_leave_no_trace() {
    let with_gaps = vec![None, Some("/a".to_string()), None, None, Some("/b".to_string()), None];
    let without_gaps = vec![Some("/a".to_string()), Some("/b".to_string())];
    let mut left = Vec::new();
    let mut right = Vec::new();
    collect_links(&with_gaps, "https://example.com/", &mut left);
    collect_links(&without_gaps, "https://example.com/", &mut right);
    assert_eq!(left, right);
    let mut none = list(&["x"]);
    collect_links(&vec![None, None], "https://example.com/", &mut none);
    assert_eq!(none, list(&["x"]));
}

#[test]
fn list_membership() {
    let l = list(&["a", "b"]);
    assert!(holds(&l, &"a".to_string()));
    assert!(holds(&l, &"b".to_string()));
    assert!(!holds(&l, &"c".to_string()));
    assert!(!holds(&Vec::new(), &"a".to_string()));
}

#[test]
fn push_new_adds_only_what_is_new() {
    let mut l = list(&["a"]);
    push_new(&mut l, "b".to_string());
    push_new(&mut l, "a".to_string());
    push_new(&mut l, "b".to_string());
    assert_eq!(l, list(&["a", "b"]));
}

#[test]
fn over_long_page_yields_no_links() {
    let anchor = "<a href=\"/a\">a</a>";
    let mut page = String::with_capacity(MAX_PAGE_CHARS + 1);
    page.push_str(anchor);
    page.push_str(&" ".repeat(MAX_PAGE_CHARS + 1 - anchor.len()));
    assert_eq!(page.chars().count(), MAX_PAGE_CHARS + 1);
    assert_eq!(links(&page, "https://example.com/"), list(&[]));
    let mut results = list(&["kept"]);
    get_links(&page, "https://example.com/", &mut results);
    assert_eq!(results, list(&["kept"]));
}

#[test]
fn page_length_is_counted_in_characters() {
    assert_eq!(MAX_PAGE_CHARS, 268_435_456);
    let page = format!("<a href=\"/{}\">x</a>", "\u{10348}".repeat(1000));
    assert_eq!(links(&page, "https://example.com/").len(), 1);
}
