//! Tests of the header projection.
use mensa::headers::Headers;

fn pairs(raw: &[(&str, &str)]) -> Vec<(String, String)> {
    raw.iter().map(|(k, v)| (k.to_string(), v.to_string())).collect()
}

#[test]
fn projects_all_fields() {
    let h = Headers::project(&pairs(&[
        ("ETag", "W/\"abc\""),
        ("x-current-page", "2"),
        ("Link", "<https://api.local/items?page=3>; rel=\"next\""),
        ("x-total-pages", "7"),
    ]));
    assert_eq!(
        h,
        Headers {
            etag: Some("W/\"abc\"".into()),
            this_page: Some(2),
            next_page: Some("https://api.local/items?page=3".into()),
            last_page: Some(7),
        }
    );
}

#[test]
fn missing_headers_degrade_to_absent() {
    let h = Headers::project(&pairs(&[("content-type", "application/json")]));
    assert_eq!(h, Headers { etag: None, this_page: None, next_page: None, last_page: None });
}

#[test]
fn non_numeric_pages_degrade_to_absent() {
    let h = Headers::project(&pairs(&[
        ("x-current-page", "two"),
        ("x-total-pages", "7seven"),
    ]));
    assert_eq!(h.this_page, None);
    assert_eq!(h.last_page, None);
}

#[test]
fn header_names_match_case_insensitively() {
    let h = Headers::project(&pairs(&[("ETAG", "v"), ("X-Total-Pages", "3")]));
    assert_eq!(h.etag, Some("v".into()));
    assert_eq!(h.last_page, Some(3));
}

#[test]
fn first_header_wins() {
    let h = Headers::project(&pairs(&[("etag", "first"), ("etag", "second")]));
    assert_eq!(h.etag, Some("first".into()));
}

#[test]
fn link_without_next_relation_is_absent() {
    let h = Headers::project(&pairs(&[(
        "link",
        "<https://api.local/items?page=1>; rel=\"first\"",
    )]));
    assert_eq!(h.next_page, None);
}

#[test]
fn link_picks_the_next_relation() {
    let h = Headers::project(&pairs(&[(
        "link",
        "<https://a/first>; rel=\"first\", <https://a/second>; rel=\"next\"",
    )]));
    assert_eq!(h.next_page, Some("https://a/second".into()));
}

#[test]
fn huge_page_number_degrades_to_absent() {
    let h = Headers::project(&pairs(&[(
        "x-total-pages",
        "99999999999999999999999999999999",
    )]));
    assert_eq!(h.last_page, None);
}

#[test]
fn page_number_parses_exactly() {
    let h = Headers::project(&pairs(&[("x-current-page", "0"), ("x-total-pages", "10")]));
    assert_eq!(h.this_page, Some(0));
    assert_eq!(h.last_page, Some(10));
}
