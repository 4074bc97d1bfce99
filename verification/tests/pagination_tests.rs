//! Tests of multi-page retrieval through the cache.
use mensa::error::Error;
use mensa::headers::Headers;
use mensa::pagination::PaginatedList;
use mensa::request::DummyApi;
use mensa::store::MemCache;

/// Parse a JSON array of objects into `(id, name, city, address)` rows.
fn parse_rows(text: String, _headers: Headers) -> Result<Vec<(u64, String, String, String)>, Error> {
    let value: serde_json::Value = serde_json::from_str(&text)
        .map_err(|why| Error::Deserializing(why.to_string(), "fetching json in pagination"))?;
    let items = value
        .as_array()
        .ok_or(Error::Deserializing("not an array".to_owned(), "fetching json in pagination"))?;
    let mut rows = Vec::new();
    for item in items {
        let id = item.get("id").and_then(|v| v.as_u64()).unwrap_or(0);
        let field = |name: &str| {
            item.get(name).and_then(|v| v.as_str()).unwrap_or("").to_owned()
        };
        rows.push((id, field("name"), field("city"), field("address")));
    }
    Ok(rows)
}

#[test]
fn it_parses_multipage_canteen_lists() {
    let first_url = "http://invalid.local/canteen/multipage";
    let map = &[
        (
            first_url,
            r#"
            [
                {
                    "id": 0,
                    "name": "First",
                    "city": "Leipzig",
                    "address": "",
                    "coordinates": null
                }
            ]
        "#,
            None,
        ),
        (
            "http://invalid.local/canteen/multipage/2",
            r#"
            [
                {
                    "id": 1,
                    "name": "Second",
                    "city": "Hannover",
                    "address": "address",
                    "coordinates": [
                        1.1, 2.2
                    ]
                }
            ]
        "#,
            None,
        ),
        (
            "http://invalid.local/canteen/multipage/3",
            r#"
            [
                {
                    "id": 2,
                    "name": "Third",
                    "city": "London",
                    "address": "Some place cool",
                    "coordinates": null
                }
            ]
        "#,
            None,
        ),
    ];
    let mut cache = MemCache::new();
    let mut api = DummyApi::new();
    api.register_pages(map);
    let canteens = PaginatedList::new(first_url, 0)
        .consume(&mut cache, &api, 0, &parse_rows, 100)
        .unwrap();
    assert_eq!(
        canteens,
        vec![
            (0, "First".to_owned(), "Leipzig".to_owned(), "".to_owned()),
            (1, "Second".to_owned(), "Hannover".to_owned(), "address".to_owned()),
            (2, "Third".to_owned(), "London".to_owned(), "Some place cool".to_owned()),
        ]
    );
}

#[test]
fn it_parses_empty_lists() {
    let url = "http://invalid.local/canteen/empty";
    let mut cache = MemCache::new();
    let mut api = DummyApi::new();
    api.register_single(url, "[]", None);
    let canteens = PaginatedList::new(url, 0)
        .consume(&mut cache, &api, 0, &parse_rows, 100)
        .unwrap();
    assert_eq!(canteens, vec![]);
}

#[test]
fn it_errors_on_empty_body() {
    let url = "http://invalid.local/canteen/null";
    let mut cache = MemCache::new();
    let mut api = DummyApi::new();
    api.register_single(url, "", None);
    let res = PaginatedList::new(url, 0).consume(&mut cache, &api, 0, &parse_rows, 100);
    assert!(res.is_err());
}

#[test]
fn three_pages_yield_three_batches_then_stop() {
    let mut cache = MemCache::new();
    let mut api = DummyApi::new();
    let map = &[
        ("http://invalid.local/list", r#"[{"id": 1}]"#, None),
        ("http://invalid.local/list/2", r#"[{"id": 2}]"#, None),
        ("http://invalid.local/list/3", r#"[{"id": 3}]"#, None),
    ];
    api.register_pages(map);
    let mut walk = PaginatedList::new("http://invalid.local/list", 0);
    let mut batches = Vec::new();
    loop {
        match walk.next(&mut cache, &api, 0, &parse_rows) {
            Some(Ok(batch)) => batches.push(batch),
            Some(Err(why)) => panic!("unexpected error: {:?}", why),
            None => break,
        }
    }
    assert_eq!(batches.len(), 3);
    assert!(walk.is_done());
}

#[test]
fn empty_batch_stops_despite_page_counters() {
    let mut cache = MemCache::new();
    let mut api = DummyApi::new();
    // The page claims to be the first of two, with a next-page link, but its
    // batch is empty: the walk must stop.
    api.register(
        "http://invalid.local/overrun",
        "[]",
        None,
        Some(1),
        Some("http://invalid.local/overrun/2"),
        Some(2),
    );
    let mut walk = PaginatedList::new("http://invalid.local/overrun", 0);
    let first = walk.next(&mut cache, &api, 0, &parse_rows);
    match first {
        Some(Ok(batch)) => assert_eq!(batch.len(), 0),
        other => panic!("expected an empty batch, got {:?}", other),
    }
    assert!(walk.is_done());
    assert!(walk.next(&mut cache, &api, 0, &parse_rows).is_none());
}

#[test]
fn pages_come_from_cache_when_fresh() {
    let mut cache = MemCache::new();
    let mut api = DummyApi::new();
    api.register_single("http://invalid.local/cached-page", r#"[{"id": 9}]"#, None);
    // First walk at time 0 populates the cache; second at time 1 with a long
    // ttl is served from it.
    let rows = PaginatedList::new("http://invalid.local/cached-page", 60_000)
        .consume(&mut cache, &api, 0, &parse_rows, 10)
        .unwrap();
    assert_eq!(rows.len(), 1);
    let rows = PaginatedList::new("http://invalid.local/cached-page", 60_000)
        .consume(&mut cache, &api, 1, &parse_rows, 10)
        .unwrap();
    assert_eq!(rows[0].0, 9);
}
