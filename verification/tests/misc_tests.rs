//! Tests of the lazily fetched value, the result helpers, and the persistent
//! store.
use mensa::cache::fetch;
use mensa::cacache_store::Cacache;
use mensa::error::{pass_info, Error, ResultExt};
use mensa::fetchable::Fetchable;
use mensa::headers::Headers;
use mensa::request::DummyApi;
use mensa::store::{Cache, EntryMeta, MemCache};

#[test]
fn fetchable_fetches_once() {
    let mut value: Fetchable<u32> = Fetchable::Unfetched;
    assert!(!value.is_fetched());
    let fetched = value.fetch(|| Ok(42)).unwrap();
    assert_eq!(*fetched, 42);
    assert!(value.is_fetched());
    // A second fetch hands out the stored value without running the closure
    let fetched = value.fetch(|| Err(Error::NotFetched)).unwrap();
    assert_eq!(*fetched, 42);
    assert_eq!(*value.assume_fetched(), 42);
}

#[test]
fn fetchable_failure_stays_unfetched() {
    let mut value: Fetchable<u32> = Fetchable::Unfetched;
    let res = value.fetch(|| Err(Error::NotFetched));
    assert_eq!(res, Err(Error::NotFetched));
    assert!(!value.is_fetched());
}

#[test]
fn fetchable_fetch_mut_allows_updates() {
    let mut value: Fetchable<Vec<u32>> = Fetchable::Unfetched;
    value.fetch_mut(|| Ok(vec![1])).unwrap();
    value.assume_fetched_mut().push(2);
    assert_eq!(*value.assume_fetched(), vec![1, 2]);
}

#[test]
fn result_helpers_degrade_errors() {
    let ok: Result<u32, Error> = Ok(5);
    let err: Result<u32, Error> = Err(Error::NotFetched);
    assert_eq!(ok.clone().log_warn(), Some(5));
    assert_eq!(err.clone().log_warn(), None);
    assert_eq!(ok.clone().log_err(), Some(5));
    assert_eq!(err.log_err(), None);
    assert_eq!(ok.log_panic(), 5);
    assert_eq!(pass_info(7), 7);
}

#[test]
fn error_messages_describe_the_failure() {
    let why = Error::NonSuccessStatusCode("http://x.local/".to_owned(), 503);
    assert!(why.message().contains("http://x.local/"));
    let why = Error::Transport("connection reset".to_owned());
    assert!(why.message().contains("connection reset"));
    assert_eq!(Error::DecodingUtf8.message(), "read invalid utf8 bytes");
}

#[test]
fn disk_store_round_trip() {
    let dir = temp_dir::TempDir::new().unwrap();
    let mut store = Cacache::at_dir(dir.path().to_path_buf());
    let headers = Headers {
        etag: Some("v1".into()),
        this_page: Some(1),
        next_page: None,
        last_page: Some(1),
    };
    store.write(&headers, "http://disk.local/x", "persisted", 0).unwrap();
    let meta = store.meta("http://disk.local/x").unwrap().unwrap();
    assert_eq!(meta.key, "http://disk.local/x");
    assert_eq!(meta.headers, headers);
    assert_eq!(store.read(&meta).unwrap(), "persisted");
    let listed = store.list().unwrap();
    assert_eq!(listed.len(), 1);
    store.clear().unwrap();
    assert_eq!(store.meta("http://disk.local/x").unwrap(), None);
}

#[test]
fn disk_store_serves_fetches(){
    let dir = temp_dir::TempDir::new().unwrap();
    let mut store = Cacache::at_dir(dir.path().to_path_buf());
    let mut api = DummyApi::new();
    let url = "http://invalid.local/disk";
    api.register_single(url, "from the disk cache", Some("static"));
    let (text, headers) = fetch(&mut store, &api, url, 60_000, 0).unwrap();
    assert_eq!(text, "from the disk cache");
    assert_eq!(headers.etag, Some("static".into()));
    // Served again from disk: the dummy endpoint would answer 304 on a
    // conditional request, a hit asks it nothing.
    let (text, _) = fetch(&mut store, &api, url, u64::MAX, 0).unwrap();
    assert_eq!(text, "from the disk cache");
}

#[test]
fn reading_a_vanished_entry_is_a_cache_error() {
    let cache = MemCache::new();
    let meta = EntryMeta {
        key: "http://gone.local/".to_owned(),
        time: 0,
        size: 0,
        headers: Headers { etag: None, this_page: None, next_page: None, last_page: None },
    };
    assert!(matches!(mensa::cache::read_cache(&cache, &meta), Err(Error::Cache(_, _))));
}

#[test]
fn corrupted_payload_bytes_fail_utf8_decoding() {
    let dir = temp_dir::TempDir::new().unwrap();
    let store = Cacache::at_dir(dir.path().to_path_buf());
    // Plant raw non-UTF-8 bytes under a key, beside the store's own entries.
    cacache::write_sync(dir.path(), "http://broken.local/", vec![0xff, 0xfe, 0x00]).unwrap();
    let meta = store.meta("http://broken.local/").unwrap().unwrap();
    assert_eq!(store.read(&meta), Err(Error::DecodingUtf8));
}
