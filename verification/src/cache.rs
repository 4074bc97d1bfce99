//! The fetch orchestrator.
//!
//! ```text
//!            No
//!   Cached? -----------------------------------+
//!    |                                         |
//!    | Yes                                     |
//!    v          No                 No          v       FAIL
//!   TTL valid? -----> ETAG valid? ----------> Get it! --------------+
//!    |                 |               ^       |                    |
//!    | Yes             | Yes           |       |                    |
//!    v                 v               |       v                    |
//!   Load cached! <--- Update cache     |      Update cache!*        |
//!    |    |           metadata!*       |       |                    |
//!    |    |FAIL                        |       |                    |
//!    |    |                            |       |                    |
//!    |    +----------------------------+       |                    |
//!    |                                         |                    |
//!    |<----------------------------------------+                    |
//!    |                                                              |
//!    v                                                              v
//!    OK                                                           FAIL
//!
//! * Ignores all errors
//! ```
use vstd::prelude::*;

use crate::error::{Error, ResultExt};
use crate::headers::{Headers, HeadersView};
use crate::key::{cache_key, spec_cache_key, url_parseable};
use crate::request::{
    is_success, known_headers, opt_str_view, spec_is_success, spec_status_from_etags, Api,
    KnownModel, Response, STATUS_NOT_MODIFIED,
};
use crate::store::{
    meta_matches, unchanged_except, write_model, Cache, EntryMeta, EntryModel, StoreModel,
};

verus! {

/// Possible results of a cache probe.
#[derive(Debug, PartialEq)]
pub enum CacheResult<T> {
    /// Missed, no entry exists.
    Miss,
    /// An entry exists, but it exceeded its local time-to-live.
    Stale(Headers, EntryMeta),
    /// An entry exists and is fresh.
    Hit(T),
}

/// Is an entry written at `time_ms` still fresh at `now_ms` under `ttl_ms`?
///
/// Freshness means the entry's age stays strictly below the time-to-live, so a
/// zero time-to-live is always stale; an entry stamped in the future counts as
/// fresh.
pub open spec fn fresh_at(time_ms: u64, ttl_ms: u64, now_ms: u64) -> bool {
    now_ms < time_ms || now_ms - time_ms < ttl_ms
}

/// What a probe of the store finds for a key.
pub enum ProbeOutcome {
    /// No entry exists.
    Miss,
    /// The entry exists but is stale.
    Stale(EntryModel),
    /// The entry exists and is fresh.
    Hit(EntryModel),
}

/// What probing `m` under `key` at `now_ms` with `ttl_ms` finds.
pub open spec fn classify(m: StoreModel, key: Seq<char>, ttl_ms: u64, now_ms: u64) -> ProbeOutcome {
    if !m.contains_key(key) {
        ProbeOutcome::Miss
    } else if fresh_at(m[key].time, ttl_ms, now_ms) {
        ProbeOutcome::Hit(m[key])
    } else {
        ProbeOutcome::Stale(m[key])
    }
}

/// Compares the entry's age against the local time-to-live.
pub fn is_fresh(meta: &EntryMeta, ttl_ms: u64, now_ms: u64) -> (r: bool)
    ensures
        r == fresh_at(meta.time, ttl_ms, now_ms),
{
    if now_ms < meta.time {
        true
    } else {
        now_ms - meta.time < ttl_ms
    }
}

/// Try loading the content stored under `key`.
///
/// Classifies the entry as a miss, a hit (returning payload and headers), or
/// stale (returning the stored headers and the entry reference). Store errors
/// are passed on for the caller to downgrade.
pub fn try_load_cache<C: Cache>(cache: &C, key: &str, ttl_ms: u64, now_ms: u64) -> (r: Result<
    CacheResult<(String, Headers)>,
    Error,
>)
    ensures
        C::obeys_model() ==> match r {
            Ok(CacheResult::Miss) => classify(cache.view(), key@, ttl_ms, now_ms) is Miss,
            Ok(CacheResult::Hit(th)) => classify(cache.view(), key@, ttl_ms, now_ms) matches
                ProbeOutcome::Hit(e) && th.0@ == e.text && th.1@ == e.headers,
            Ok(CacheResult::Stale(h, meta)) => classify(cache.view(), key@, ttl_ms, now_ms) matches
                ProbeOutcome::Stale(e) && h@ == e.headers && meta_matches(meta, key@, e),
            Err(_) => true,
        },
        C::obeys_model() ==> r is Ok,
{
    match cache.meta(key)? {
        Some(meta) => {
            if is_fresh(&meta, ttl_ms, now_ms) {
                let text = cache.read(&meta)?;
                let headers = meta.headers.clone();
                Ok(CacheResult::Hit((text, headers)))
            } else {
                let headers = meta.headers.clone();
                Ok(CacheResult::Stale(headers, meta))
            }
        },
        None => Ok(CacheResult::Miss),
    }
}

/// Extract body and headers from the response and write them back to the
/// cache. A write failure here is propagated: losing freshly fetched content
/// silently would hide data the caller asked to persist.
fn update_cache_from_response<C: Cache>(cache: &mut C, resp: Response, now_ms: u64) -> (r: Result<
    (String, Headers),
    Error,
>)
    ensures
        C::obeys_model() ==> unchanged_except(old(cache).view(), final(cache).view(), resp.url@),
        C::obeys_model() ==> (r matches Ok(th) ==> th.0@ == resp.body@ && th.1 == resp.headers
            && final(cache).view() == write_model(
            old(cache).view(),
            resp.url@,
            resp.body@,
            resp.headers@,
            now_ms,
        )),
        C::obeys_model() && r is Err ==> final(cache).view() == old(cache).view(),
        C::obeys_model() ==> r is Ok,
{
    let url = resp.url;
    let body = resp.body;
    let headers = resp.headers;
    cache.write(&headers, url.as_str(), body.as_str(), now_ms)?;
    Ok((body, headers))
}

/// Reset the entry's freshness clock, load its payload, and return it with the
/// fresh `headers`. A failure of the refreshing write is swallowed:
/// staleness-refresh is best effort and must never block returning valid
/// cached content. (A store that obeys the model never fails that write, so
/// there the clock reset is certain.)
fn touch_and_load_cache<C: Cache>(
    cache: &mut C,
    url: &str,
    meta: &EntryMeta,
    headers: Headers,
    now_ms: u64,
) -> (r: Result<(String, Headers), Error>)
    requires
        C::obeys_model() ==> meta.key@ == url@,
    ensures
        C::obeys_model() ==> unchanged_except(old(cache).view(), final(cache).view(), url@),
        C::obeys_model() ==> (r matches Ok(th) ==> old(cache).view().contains_key(url@) && th.0@
            == old(cache).view()[url@].text && th.1 == headers && final(cache).view()
            == write_model(old(cache).view(), url@, th.0@, headers@, now_ms)),
        C::obeys_model() && r is Err ==> final(cache).view() == old(cache).view(),
        C::obeys_model() && old(cache).view().contains_key(url@) ==> r is Ok,
{
    let raw = match cache.read(meta) {
        Ok(text) => text,
        Err(why) => {
            return Err(why);
        },
    };
    let _ = cache.write(&headers, url, raw.as_str(), now_ms).log_warn();
    Ok((raw, headers))
}

/// Does this response confirm the referenced cached entry as still valid?
pub open spec fn confirms_entry(status: u16, meta: Option<EntryMeta>) -> bool {
    status == STATUS_NOT_MODIFIED && meta is Some
}

/// Apply a response to the cache: the decision rule of the orchestrator's
/// network paths, on the response as a plain value.
///
/// A 304 answer while revalidating the entry `meta` confirms the cached
/// payload as authoritative: it is re-read, its freshness clock reset, and it
/// is returned with the response's headers. Any 2xx answer stores and returns
/// the response's body and headers. Any other status fails with
/// [`Error::NonSuccessStatusCode`] carrying the requested url and the status,
/// the store untouched.
pub fn apply_response<C: Cache>(
    cache: &mut C,
    resp: Response,
    meta: Option<EntryMeta>,
    now_ms: u64,
) -> (r: Result<(String, Headers), Error>)
    requires
        C::obeys_model() ==> match meta {
            Some(m) => m.key@ == resp.url@,
            None => true,
        },
    ensures
        C::obeys_model() ==> unchanged_except(old(cache).view(), final(cache).view(), resp.url@),
        C::obeys_model() ==> (r matches Ok(th) ==> final(cache).view() == write_model(
            old(cache).view(),
            resp.url@,
            th.0@,
            th.1@,
            now_ms,
        )),
        C::obeys_model() && r is Err ==> final(cache).view() == old(cache).view(),
        C::obeys_model() && confirms_entry(resp.status, meta) && old(cache).view().contains_key(
            resp.url@,
        ) ==> (r matches Ok(th) && th.0@ == old(cache).view()[resp.url@].text && th.1
            == resp.headers),
        C::obeys_model() && !confirms_entry(resp.status, meta) && spec_is_success(resp.status)
            ==> (r matches Ok(th) && th.0@ == resp.body@ && th.1 == resp.headers),
        !confirms_entry(resp.status, meta) && !spec_is_success(resp.status) ==> (r matches Err(e)
            && e == Error::NonSuccessStatusCode(resp.url, resp.status)) && *final(cache) == *old(
            cache,
        ),
{
    match meta {
        Some(m) => {
            if resp.status == STATUS_NOT_MODIFIED {
                let url = resp.url;
                return touch_and_load_cache(cache, url.as_str(), &m, resp.headers, now_ms);
            }
            if is_success(resp.status) {
                return update_cache_from_response(cache, resp, now_ms);
            }
            Err(Error::NonSuccessStatusCode(resp.url, resp.status))
        },
        None => {
            if is_success(resp.status) {
                return update_cache_from_response(cache, resp, now_ms);
            }
            Err(Error::NonSuccessStatusCode(resp.url, resp.status))
        },
    }
}

/// Request the resource and update the cache.
///
/// If an `etag` is given, the request is conditional: a 304 answer confirms
/// the cached entry that `meta` references, which is then re-read and its
/// freshness clock reset. A 2xx answer stores the new content. Anything else
/// fails with [`Error::NonSuccessStatusCode`] carrying the url and the status.
/// What is decided for each response value stands in [`apply_response`]'s
/// contract; here the response is whatever the endpoint returned.
fn get_and_update_cache<C: Cache, A: Api>(
    cache: &mut C,
    api: &A,
    url: &str,
    etag: Option<String>,
    meta: Option<EntryMeta>,
    now_ms: u64,
) -> (r: Result<(String, Headers), Error>)
    requires
        C::obeys_model() ==> match meta {
            Some(m) => m.key@ == url@,
            None => true,
        },
    ensures
        C::obeys_model() ==> unchanged_except(old(cache).view(), final(cache).view(), url@),
        C::obeys_model() ==> (r matches Ok(th) ==> final(cache).view() == write_model(
            old(cache).view(),
            url@,
            th.0@,
            th.1@,
            now_ms,
        )),
        C::obeys_model() && r is Err ==> final(cache).view() == old(cache).view(),
        A::obeys_model() && !api.view().contains_key(url@) ==> r is Err,
        A::obeys_model() && api.view().contains_key(url@) ==> ({
            let served = api.view()[url@];
            let status = spec_status_from_etags(served.etag, opt_str_view(etag));
            &&& (C::obeys_model() && confirms_entry(status, meta) && old(
                cache,
            ).view().contains_key(url@) ==> (r matches Ok(th) && th.0@ == old(
                cache,
            ).view()[url@].text && th.1@ == known_headers(served)))
            &&& (C::obeys_model() && !confirms_entry(status, meta) && spec_is_success(status) ==> (
            r matches Ok(th) && th.0@ == served.value && th.1@ == known_headers(served)))
            &&& (!confirms_entry(status, meta) && !spec_is_success(status) ==> r is Err)
        }),
{
    let etag_ref: Option<&str> = match &etag {
        Some(e) => Some(e.as_str()),
        None => None,
    };
    let resp = match api.get(url, etag_ref) {
        Ok(resp) => resp,
        Err(why) => {
            return Err(why);
        },
    };
    apply_response(cache, resp, meta, now_ms)
}

/// What a successful fetch leaves behind, for a store that obeys the model:
/// either the entry was fresh and served as is, or the returned content now
/// stands in the store under the key, stamped now (a confirmed revalidation
/// re-stores the old payload under the new headers).
pub open spec fn fetch_ok_post(
    m0: StoreModel,
    m1: StoreModel,
    key: Seq<char>,
    ttl_ms: u64,
    now_ms: u64,
    text: Seq<char>,
    h: HeadersView,
) -> bool {
    ||| (classify(m0, key, ttl_ms, now_ms) matches ProbeOutcome::Hit(e) && m1 == m0 && text
        == e.text && h == e.headers)
    ||| m1 == write_model(m0, key, text, h, now_ms)
}

/// What a successful fetch of `url` returns and stores, for a store and an
/// endpoint that obey their models: per probe outcome of the key, the returned
/// text and headers and the store transition.
///
/// A fresh entry is served as is; a miss of a url the endpoint serves stores
/// and returns the served resource; a stale entry whose stored validator
/// matches the served one keeps its payload under the endpoint's fresh
/// headers, while a changed or absent validator brings the served resource.
pub open spec fn fetch_model_post(
    m0: StoreModel,
    m1: StoreModel,
    api_m: Map<Seq<char>, KnownModel>,
    url: Seq<char>,
    ttl_ms: u64,
    now_ms: u64,
    text: Seq<char>,
    h: HeadersView,
) -> bool {
    let key = spec_cache_key(url);
    &&& (classify(m0, key, ttl_ms, now_ms) matches ProbeOutcome::Hit(e) ==> text == e.text && h
        == e.headers && m1 == m0)
    &&& (classify(m0, key, ttl_ms, now_ms) is Miss && api_m.contains_key(key) ==> text
        == api_m[key].value && h == known_headers(api_m[key]) && m1 == write_model(
        m0,
        key,
        text,
        h,
        now_ms,
    ))
    &&& (classify(m0, key, ttl_ms, now_ms) matches ProbeOutcome::Stale(e) ==> (api_m.contains_key(
        key,
    ) ==> (if e.headers.etag is Some && api_m[key].etag == e.headers.etag {
        text == e.text
    } else {
        text == api_m[key].value
    }) && h == known_headers(api_m[key]) && m1 == write_model(m0, key, text, h, now_ms)))
}

/// Fetch `url` through the cache.
///
/// The url is normalized into a cache key. A fresh entry is served without a
/// network call; a stale entry is revalidated with a conditional GET (and on
/// any failure of that, one unconditional GET is attempted); a missing entry
/// is fetched and written back. Store errors during probing only forfeit the
/// cache's benefit, never the fetch.
pub fn fetch<C: Cache, A: Api>(
    cache: &mut C,
    api: &A,
    url: &str,
    ttl_ms: u64,
    now_ms: u64,
) -> (r: Result<(String, Headers), Error>)
    ensures
        !url_parseable(url@) ==> r == Err::<(String, Headers), Error>(Error::InternalUrl)
            && *final(cache) == *old(cache),
        C::obeys_model() ==> unchanged_except(
            old(cache).view(),
            final(cache).view(),
            spec_cache_key(url@),
        ),
        C::obeys_model() ==> (r matches Ok(th) ==> fetch_ok_post(
            old(cache).view(),
            final(cache).view(),
            spec_cache_key(url@),
            ttl_ms,
            now_ms,
            th.0@,
            th.1@,
        )),
        C::obeys_model() && url_parseable(url@) ==> (classify(
            old(cache).view(),
            spec_cache_key(url@),
            ttl_ms,
            now_ms,
        ) matches ProbeOutcome::Hit(e) ==> (r matches Ok(th) && th.0@ == e.text && th.1@
            == e.headers && final(cache).view() == old(cache).view())),
        C::obeys_model() && A::obeys_model() && url_parseable(url@) ==> (r matches Ok(th)
            ==> fetch_model_post(
            old(cache).view(),
            final(cache).view(),
            api.view(),
            url@,
            ttl_ms,
            now_ms,
            th.0@,
            th.1@,
        )),
        C::obeys_model() && A::obeys_model() && url_parseable(url@) && api.view().contains_key(
            spec_cache_key(url@),
        ) ==> r is Ok,
{
    let key = match cache_key(url) {
        Ok(k) => k,
        Err(why) => {
            return Err(why);
        },
    };
    let probed = try_load_cache(cache, key.as_str(), ttl_ms, now_ms);
    match probed {
        Ok(CacheResult::Hit(th)) => Ok(th),
        Ok(CacheResult::Miss) => get_and_update_cache(cache, api, key.as_str(), None, None, now_ms),
        Ok(CacheResult::Stale(old_headers, meta)) => {
            // The entry may still be valid: revalidate it with the stored
            // validator, and on any failure retry once unconditionally.
            let etag = old_headers.etag;
            match get_and_update_cache(cache, api, key.as_str(), etag, Some(meta), now_ms) {
                Ok(th) => Ok(th),
                Err(_why) => get_and_update_cache(cache, api, key.as_str(), None, None, now_ms),
            }
        },
        Err(_why) => {
            // A corrupted or unreadable cache must never prevent forward
            // progress, only forfeit its benefit: treat it as a miss.
            get_and_update_cache(cache, api, key.as_str(), None, None, now_ms)
        },
    }
}

/// Remove all entries from the cache.
pub fn clear_cache<C: Cache>(cache: &mut C) -> (r: Result<(), Error>)
    ensures
        C::obeys_model() && r is Ok ==> final(cache).view() == Map::<
            Seq<char>,
            EntryModel,
        >::empty(),
        C::obeys_model() ==> r is Ok,
{
    cache.clear()
}

/// Read the payload that `meta` references.
pub fn read_cache<C: Cache>(cache: &C, meta: &EntryMeta) -> (r: Result<String, Error>)
    ensures
        C::obeys_model() ==> (r matches Ok(text) ==> cache.view().contains_key(meta.key@)
            && cache.view()[meta.key@].text == text@),
        C::obeys_model() && cache.view().contains_key(meta.key@) ==> r is Ok,
{
    cache.read(meta)
}

/// Look up the entry metadata stored under `url`.
pub fn read_cache_meta<C: Cache>(cache: &C, url: &str) -> (r: Result<Option<EntryMeta>, Error>)
    ensures
        C::obeys_model() ==> match r {
            Ok(Some(meta)) => cache.view().contains_key(url@) && meta_matches(
                meta,
                url@,
                cache.view()[url@],
            ),
            Ok(None) => !cache.view().contains_key(url@),
            Err(_) => true,
        },
        r matches Ok(Some(meta)) ==> meta.key@ == url@,
        C::obeys_model() ==> r is Ok,
{
    cache.meta(url)
}

/// List the metadata of every cache entry.
pub fn list_cache<C: Cache>(cache: &C) -> (r: Result<Vec<EntryMeta>, Error>)
    ensures
        C::obeys_model() ==> (r matches Ok(metas) ==> crate::store::list_matches(
            cache.view(),
            metas@,
        )),
        C::obeys_model() ==> r is Ok,
{
    cache.list()
}

} // verus!
