//! Tests of the fetch-through cache against the in-memory store and the
//! deterministic dummy endpoint.
use mensa::cache::{clear_cache, fetch, is_fresh, list_cache, read_cache, read_cache_meta,
    try_load_cache, CacheResult};
use mensa::error::Error;
use mensa::headers::Headers;
use mensa::request::{Api, DummyApi, Response};
use mensa::store::{Cache, MemCache};

fn no_headers() -> Headers {
    Headers { etag: None, this_page: None, next_page: None, last_page: None }
}

#[test]
fn test_cache_is_empty() {
    let cache = MemCache::new();
    let read = try_load_cache(&cache, "test cache entry", u64::MAX, 0).unwrap();
    assert_eq!(read, CacheResult::Miss);
}

#[test]
fn basic_caching() {
    let mut cache = MemCache::new();
    let mut api = DummyApi::new();
    let url = "http://invalid.local/test";
    api.register_single(url, "It works", Some("static"));
    // Cache is empty
    let val = try_load_cache(&cache, url, u64::MAX, 1_000).unwrap();
    assert_eq!(val, CacheResult::Miss);
    // Populate the cache with the first request
    let (val, _) = fetch(&mut cache, &api, url, 60_000, 1_000).unwrap();
    assert_eq!(val, "It works");
    // The cache should now be hit
    let val = try_load_cache(&cache, url, u64::MAX, 1_000).unwrap();
    assert_eq!(
        val,
        CacheResult::Hit((
            "It works".into(),
            Headers {
                etag: Some("static".into()),
                this_page: Some(1),
                next_page: None,
                last_page: Some(1),
            }
        ))
    );
    // A zero time-to-live means the entry is always stale
    let val = try_load_cache(&cache, url, 0, 2_000).unwrap();
    assert!(matches!(val, CacheResult::Stale(_, _)));
}

#[test]
fn write_then_read_round_trip() {
    let mut cache = MemCache::new();
    let headers = Headers {
        etag: Some("v1".into()),
        this_page: Some(2),
        next_page: Some("http://x.local/p3".into()),
        last_page: Some(7),
    };
    cache.write(&headers, "http://x.local/p2", "the text", 5_000).unwrap();
    let meta = read_cache_meta(&cache, "http://x.local/p2").unwrap().unwrap();
    assert_eq!(meta.key, "http://x.local/p2");
    assert_eq!(meta.time, 5_000);
    assert_eq!(meta.size, 8);
    assert_eq!(meta.headers, headers);
    let text = read_cache(&cache, &meta).unwrap();
    assert_eq!(text, "the text");
}

#[test]
fn freshness_boundary() {
    let mut cache = MemCache::new();
    cache.write(&no_headers(), "http://x.local/", "x", 1_000).unwrap();
    let meta = read_cache_meta(&cache, "http://x.local/").unwrap().unwrap();
    // now - written = 500: fresh for every ttl above 500, stale at or below
    assert!(is_fresh(&meta, 501, 1_500));
    assert!(!is_fresh(&meta, 500, 1_500));
    assert!(!is_fresh(&meta, 0, 1_500));
    // an entry stamped in the future counts as fresh
    assert!(is_fresh(&meta, 0, 999));
}

#[test]
fn miss_then_hit() {
    let mut cache = MemCache::new();
    let mut api = DummyApi::new();
    let url = "http://invalid.local/miss-then-hit";
    api.register_single(url, "payload", None);
    assert_eq!(
        try_load_cache(&cache, url, u64::MAX, 50).unwrap(),
        CacheResult::<(String, Headers)>::Miss
    );
    let (text, _) = fetch(&mut cache, &api, url, 1_000, 50).unwrap();
    assert_eq!(text, "payload");
    match try_load_cache(&cache, url, u64::MAX, 60).unwrap() {
        CacheResult::Hit((cached, _)) => assert_eq!(cached, "payload"),
        other => panic!("expected a hit, got {:?}", other),
    }
}

#[test]
fn stale_revalidation_304() {
    let mut cache = MemCache::new();
    let mut api = DummyApi::new();
    let url = "http://invalid.local/revalidate";
    api.register_single(url, "cached body", Some("static"));
    // Populate at time 0
    let (text, _) = fetch(&mut cache, &api, url, 1_000, 0).unwrap();
    assert_eq!(text, "cached body");
    // At time 5000 with ttl 1000 the entry is stale
    assert!(matches!(
        try_load_cache(&cache, url, 1_000, 5_000).unwrap(),
        CacheResult::Stale(_, _)
    ));
    // Revalidation answers 304: the original payload comes back unchanged
    let (text, headers) = fetch(&mut cache, &api, url, 1_000, 5_000).unwrap();
    assert_eq!(text, "cached body");
    assert_eq!(headers.etag, Some("static".into()));
    // and the freshness window is reset: an immediate probe at the original
    // ttl is a hit, not stale
    match try_load_cache(&cache, url, 1_000, 5_000).unwrap() {
        CacheResult::Hit((cached, h)) => {
            assert_eq!(cached, "cached body");
            assert_eq!(h.etag, Some("static".into()));
        }
        other => panic!("expected a hit after revalidation, got {:?}", other),
    }
}

#[test]
fn scenario_fetch_twice_then_stale() {
    let mut cache = MemCache::new();
    let mut api = DummyApi::new();
    let url = "http://invalid.local/test";
    api.register_single(url, "This page works!", Some("static"));
    // First fetch with infinite ttl populates the cache
    let (first, _) = fetch(&mut cache, &api, url, u64::MAX, 100).unwrap();
    assert_eq!(first, "This page works!");
    let meta = read_cache_meta(&cache, url).unwrap().unwrap();
    assert_eq!(meta.time, 100);
    // A second fetch with infinite ttl is served from the cache: the content
    // is byte-identical and the entry's timestamp unchanged (no network call
    // rewrote it)
    let (second, _) = fetch(&mut cache, &api, url, u64::MAX, 200).unwrap();
    assert_eq!(second, "This page works!");
    let meta = read_cache_meta(&cache, url).unwrap().unwrap();
    assert_eq!(meta.time, 100);
    // Forcing the ttl to zero classifies the entry as stale
    assert!(matches!(
        try_load_cache(&cache, url, 0, 200).unwrap(),
        CacheResult::Stale(_, _)
    ));
}

#[test]
fn clear_then_list() {
    let mut cache = MemCache::new();
    cache.write(&no_headers(), "http://a.local/", "a", 1).unwrap();
    cache.write(&no_headers(), "http://b.local/", "b", 2).unwrap();
    let listed = list_cache(&cache).unwrap();
    assert_eq!(listed.len(), 2);
    clear_cache(&mut cache).unwrap();
    assert_eq!(list_cache(&cache).unwrap().len(), 0);
    assert_eq!(
        try_load_cache(&cache, "http://a.local/", u64::MAX, 3).unwrap(),
        CacheResult::<(String, Headers)>::Miss
    );
}

#[test]
fn overwrite_updates_entry() {
    let mut cache = MemCache::new();
    cache.write(&no_headers(), "http://a.local/", "old", 1).unwrap();
    cache.write(&no_headers(), "http://a.local/", "new", 2).unwrap();
    let meta = read_cache_meta(&cache, "http://a.local/").unwrap().unwrap();
    assert_eq!(meta.time, 2);
    assert_eq!(read_cache(&cache, &meta).unwrap(), "new");
    assert_eq!(list_cache(&cache).unwrap().len(), 1);
}

/// An endpoint that always answers with one fixed status and an empty body.
struct FixedStatusApi {
    status: u16,
}

impl Api for FixedStatusApi {
    fn create() -> Result<Self, Error> {
        Ok(FixedStatusApi { status: 500 })
    }

    fn get(&self, url: &str, _etag: Option<&str>) -> Result<Response, Error> {
        Ok(Response {
            url: url.to_owned(),
            status: self.status,
            headers: Headers { etag: None, this_page: None, next_page: None, last_page: None },
            body: String::new(),
        })
    }
}

#[test]
fn upstream_error_is_fatal() {
    let mut cache = MemCache::new();
    let api = FixedStatusApi { status: 503 };
    let res = fetch(&mut cache, &api, "http://down.local/x", 1_000, 0);
    match res {
        Err(Error::NonSuccessStatusCode(url, status)) => {
            assert_eq!(url, "http://down.local/x");
            assert_eq!(status, 503);
        }
        other => panic!("expected an upstream status error, got {:?}", other),
    }
}

#[test]
fn unknown_url_is_transport_error() {
    let mut cache = MemCache::new();
    let api = DummyApi::new();
    let res = fetch(&mut cache, &api, "http://nowhere.local/", 1_000, 0);
    assert!(matches!(res, Err(Error::Transport(_))));
}

#[test]
fn unparseable_url_is_rejected() {
    let mut cache = MemCache::new();
    let api = DummyApi::new();
    let res = fetch(&mut cache, &api, "no scheme at all", 1_000, 0);
    assert_eq!(res, Err(Error::InternalUrl));
}

/// An endpoint whose conditional requests fail at the transport level, while
/// unconditional ones serve fresh content.
struct ConditionalFailsApi;

impl Api for ConditionalFailsApi {
    fn create() -> Result<Self, Error> {
        Ok(ConditionalFailsApi)
    }

    fn get(&self, url: &str, etag: Option<&str>) -> Result<Response, Error> {
        if etag.is_some() {
            return Err(Error::Transport("connection reset".to_owned()));
        }
        Ok(Response {
            url: url.to_owned(),
            status: 200,
            headers: Headers {
                etag: Some("v2".into()),
                this_page: None,
                next_page: None,
                last_page: None,
            },
            body: "fresh content".to_owned(),
        })
    }
}

#[test]
fn transport_failure_falls_back_to_unconditional_get() {
    let mut cache = MemCache::new();
    let url = "http://flaky.local/item";
    let stored = Headers {
        etag: Some("v1".into()),
        this_page: None,
        next_page: None,
        last_page: None,
    };
    cache.write(&stored, url, "old content", 0).unwrap();
    let api = ConditionalFailsApi;
    // Stale entry: the conditional GET fails at the transport level, so one
    // unconditional GET is attempted and its content stored
    let (text, headers) = fetch(&mut cache, &api, url, 1_000, 10_000).unwrap();
    assert_eq!(text, "fresh content");
    assert_eq!(headers.etag, Some("v2".into()));
    let meta = read_cache_meta(&cache, url).unwrap().unwrap();
    assert_eq!(meta.time, 10_000);
}

#[test]
fn stale_with_changed_validator_refetches() {
    let mut cache = MemCache::new();
    let mut api = DummyApi::new();
    let url = "http://invalid.local/changed";
    api.register_single(url, "new content", Some("v2"));
    // The cache holds an older version with an outdated validator
    let outdated = Headers {
        etag: Some("v1".into()),
        this_page: None,
        next_page: None,
        last_page: None,
    };
    cache.write(&outdated, url, "old content", 0).unwrap();
    // Stale at 10000 with ttl 1000: revalidation misses (v1 != v2), so the
    // new content is fetched and stored
    let (text, headers) = fetch(&mut cache, &api, url, 1_000, 10_000).unwrap();
    assert_eq!(text, "new content");
    assert_eq!(headers.etag, Some("v2".into()));
    let meta = read_cache_meta(&cache, url).unwrap().unwrap();
    assert_eq!(meta.time, 10_000);
    assert_eq!(read_cache(&cache, &meta).unwrap(), "new content");
}
