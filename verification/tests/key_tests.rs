//! Tests of url normalization into cache keys.
use mensa::error::Error;
use mensa::key::cache_key;

#[test]
fn query_parameters_are_sorted() {
    let a = cache_key("http://api.local/items?b=2&a=1").unwrap();
    let b = cache_key("http://api.local/items?a=1&b=2").unwrap();
    assert_eq!(a, "http://api.local/items?a=1&b=2");
    assert_eq!(a, b);
}

#[test]
fn scheme_and_host_are_lowered() {
    let k = cache_key("HTTP://OpenMensa.ORG/api/v2/Canteens").unwrap();
    assert_eq!(k, "http://openmensa.org/api/v2/Canteens");
}

#[test]
fn path_case_is_kept() {
    let k = cache_key("https://h.local/Path/With/Case").unwrap();
    assert_eq!(k, "https://h.local/Path/With/Case");
}

#[test]
fn url_without_scheme_is_rejected() {
    assert_eq!(cache_key("not a url"), Err(Error::InternalUrl));
    assert_eq!(cache_key("://missing.scheme/"), Err(Error::InternalUrl));
}

#[test]
fn url_without_path_is_kept() {
    let k = cache_key("http://host.local").unwrap();
    assert_eq!(k, "http://host.local");
}

#[test]
fn nested_query_values_sort_as_text() {
    let k = cache_key(
        "https://openmensa.org/api/v2/canteens?near[lng]=11.6&near[lat]=52.1&near[dist]=10",
    )
    .unwrap();
    assert_eq!(
        k,
        "https://openmensa.org/api/v2/canteens?near[dist]=10&near[lat]=52.1&near[lng]=11.6"
    );
}
