//! Laws of the cache.
//!
//! The proof functions state each law over the store model and the probe
//! classification that the orchestrator's contracts are phrased in, so they
//! apply to every store that obeys the model. The two executable laws at the
//! end state the multi-call forms over [`crate::cache::fetch`] itself, proved
//! purely from its contract, for any store and endpoint that obey their
//! models.
use vstd::prelude::*;

use crate::cache::{classify, fetch, fetch_model_post, fetch_ok_post, fresh_at, ProbeOutcome};
use crate::error::Error;
use crate::headers::{Headers, HeadersView};
use crate::key::{spec_cache_key, url_parseable};
use crate::pagination::{
    batch_views, flatten_batches, pending_after, step_cont, walk_trace, walk_trace_model,
    PaginatedList, WalkStep,
};
use crate::request::{known_headers, Api, KnownModel};
use crate::store::{write_model, Cache, StoreModel};

verus! {

/// **Round trip.** After writing `text` under `key` with `headers`, the store
/// holds under that key exactly this text and an equivalent headers value.
pub proof fn lemma_write_read_round_trip(
    m: StoreModel,
    key: Seq<char>,
    text: Seq<char>,
    headers: HeadersView,
    now_ms: u64,
)
    ensures
        write_model(m, key, text, headers, now_ms).contains_key(key),
        write_model(m, key, text, headers, now_ms)[key].text == text,
        write_model(m, key, text, headers, now_ms)[key].headers == headers,
{
}

/// **Freshness boundary.** An entry written at `time_ms` is fresh at a later
/// `now_ms` exactly for the time-to-live values above its age `now_ms -
/// time_ms`.
pub proof fn lemma_freshness_boundary(time_ms: u64, ttl_ms: u64, now_ms: u64)
    requires
        time_ms <= now_ms,
    ensures
        fresh_at(time_ms, ttl_ms, now_ms) <==> ttl_ms > now_ms - time_ms,
{
}

/// **Miss then hit.** A key without an entry probes as a miss, whatever the
/// time-to-live; after one successful write-back of fetched content, probing
/// the same key with an unbounded time-to-live is a hit with that content.
pub proof fn lemma_miss_then_hit(
    m: StoreModel,
    key: Seq<char>,
    text: Seq<char>,
    headers: HeadersView,
    ttl_ms: u64,
    now_ms: u64,
    later_ms: u64,
)
    requires
        !m.contains_key(key),
        now_ms <= later_ms,
        later_ms - now_ms < u64::MAX,
    ensures
        classify(m, key, ttl_ms, now_ms) is Miss,
        classify(write_model(m, key, text, headers, now_ms), key, u64::MAX, later_ms) matches
            ProbeOutcome::Hit(e) && e.text == text && e.headers == headers,
{
}

/// **Stale revalidation.** A stale entry probes as stale; after a revalidation
/// that confirmed it — the payload kept, the headers replaced, the write
/// timestamp reset to now — an immediate probe at the original, positive
/// time-to-live is a hit with the original payload and the new headers.
pub proof fn lemma_stale_revalidation(
    m: StoreModel,
    key: Seq<char>,
    ttl_ms: u64,
    now_ms: u64,
    new_headers: HeadersView,
)
    requires
        m.contains_key(key),
        !fresh_at(m[key].time, ttl_ms, now_ms),
        ttl_ms > 0,
    ensures
        classify(m, key, ttl_ms, now_ms) matches ProbeOutcome::Stale(e) && e.text == m[key].text,
        classify(
            write_model(m, key, m[key].text, new_headers, now_ms),
            key,
            ttl_ms,
            now_ms,
        ) matches ProbeOutcome::Hit(e) && e.text == m[key].text && e.headers == new_headers,
{
}

/// A successful fetch never loses the fetched content: whatever path the
/// orchestrator took, the returned text is the one now stored under the key,
/// unless the store was left unchanged because the entry was already valid.
pub proof fn lemma_fetch_keeps_content(
    m0: StoreModel,
    m1: StoreModel,
    key: Seq<char>,
    ttl_ms: u64,
    now_ms: u64,
    text: Seq<char>,
    headers: HeadersView,
)
    requires
        fetch_ok_post(m0, m1, key, ttl_ms, now_ms, text, headers),
    ensures
        m1.contains_key(key),
        m1[key].text == text,
{
}

/// **Miss then hit, through the orchestrator.** Fetching a url that the cache
/// does not hold but the endpoint serves returns the served body and stores
/// it; an immediate second fetch with an unbounded time-to-live returns the
/// same body again, from the cache alone.
pub fn law_fetch_miss_then_hit<C: Cache, A: Api>(
    cache: &mut C,
    api: &A,
    url: &str,
    ttl_ms: u64,
    now_ms: u64,
) -> (r: (Result<(String, Headers), Error>, Result<(String, Headers), Error>))
    requires
        C::obeys_model(),
        A::obeys_model(),
        url_parseable(url@),
        !old(cache).view().contains_key(spec_cache_key(url@)),
        api.view().contains_key(spec_cache_key(url@)),
    ensures
        r.0 matches Ok(th) && th.0@ == api.view()[spec_cache_key(url@)].value,
        r.1 matches Ok(th) && th.0@ == api.view()[spec_cache_key(url@)].value,
{
    let first = fetch(cache, api, url, ttl_ms, now_ms);
    let second = fetch(cache, api, url, u64::MAX, now_ms);
    (first, second)
}

/// **Stale revalidation, through the orchestrator.** Fetching a stale entry
/// whose stored validator matches the endpoint's returns the cached payload
/// unchanged, under the endpoint's fresh headers, and resets the freshness
/// clock: an immediate second fetch at the original time-to-live is served
/// from the cache with the same payload.
pub fn law_fetch_stale_revalidation<C: Cache, A: Api>(
    cache: &mut C,
    api: &A,
    url: &str,
    ttl_ms: u64,
    now_ms: u64,
) -> (r: (Result<(String, Headers), Error>, Result<(String, Headers), Error>))
    requires
        C::obeys_model(),
        A::obeys_model(),
        url_parseable(url@),
        ttl_ms > 0,
        old(cache).view().contains_key(spec_cache_key(url@)),
        !fresh_at(old(cache).view()[spec_cache_key(url@)].time, ttl_ms, now_ms),
        api.view().contains_key(spec_cache_key(url@)),
        old(cache).view()[spec_cache_key(url@)].headers.etag is Some,
        api.view()[spec_cache_key(url@)].etag == old(
            cache,
        ).view()[spec_cache_key(url@)].headers.etag,
    ensures
        r.0 matches Ok(th) && th.0@ == old(cache).view()[spec_cache_key(url@)].text && th.1@
            == known_headers(api.view()[spec_cache_key(url@)]),
        r.1 matches Ok(th) && th.0@ == old(cache).view()[spec_cache_key(url@)].text,
        final(cache).view()[spec_cache_key(url@)].text == old(
            cache,
        ).view()[spec_cache_key(url@)].text,
{
    let ghost key = spec_cache_key(url@);
    let ghost stored = old(cache).view()[key];
    let first = fetch(cache, api, url, ttl_ms, now_ms);
    proof {
        assert(cache.view()[key].text == stored.text);
        assert(cache.view()[key].time == now_ms);
        assert(classify(cache.view(), key, ttl_ms, now_ms) is Hit);
    }
    let second = fetch(cache, api, url, ttl_ms, now_ms);
    (first, second)
}

/// Does the endpoint serve a chain of three pages from `u1` — counters 1, 2
/// and 3 of 3, each page linking the next — none of which the store `m0`
/// already holds?
pub open spec fn three_page_chain(
    api_m: Map<Seq<char>, KnownModel>,
    u1: Seq<char>,
    m0: StoreModel,
) -> bool {
    let k1 = spec_cache_key(u1);
    &&& url_parseable(u1)
    &&& api_m.contains_key(k1)
    &&& api_m[k1].this_page == Some(1usize)
    &&& api_m[k1].last_page == Some(3usize)
    &&& api_m[k1].next_page is Some
    &&& {
        let u2 = api_m[k1].next_page.unwrap();
        let k2 = spec_cache_key(u2);
        &&& url_parseable(u2)
        &&& api_m.contains_key(k2)
        &&& api_m[k2].this_page == Some(2usize)
        &&& api_m[k2].last_page == Some(3usize)
        &&& api_m[k2].next_page is Some
        &&& {
            let u3 = api_m[k2].next_page.unwrap();
            let k3 = spec_cache_key(u3);
            &&& url_parseable(u3)
            &&& api_m.contains_key(k3)
            &&& api_m[k3].this_page == Some(3usize)
            &&& api_m[k3].last_page == Some(3usize)
            &&& k1 != k2
            &&& k2 != k3
            &&& k1 != k3
            &&& !m0.contains_key(k1)
            &&& !m0.contains_key(k2)
            &&& !m0.contains_key(k3)
        }
    }
}

/// Did this walk step fetch page `u` of the endpoint: its text the served
/// value, its headers the served ones?
pub open spec fn three_page_step<V>(
    api_m: Map<Seq<char>, KnownModel>,
    u: Seq<char>,
    s: WalkStep<V>,
) -> bool {
    &&& s.url == u
    &&& s.text@ == api_m[spec_cache_key(u)].value
    &&& s.headers@ == known_headers(api_m[spec_cache_key(u)])
}

/// A walk over a three-page chain, with non-empty batches, runs page by page:
/// after `i` steps page `i + 1` is pending, and after the third step the walk
/// is done.
proof fn lemma_three_page_walk<V>(
    steps: Seq<WalkStep<V>>,
    api_m: Map<Seq<char>, KnownModel>,
    u1: Seq<char>,
    m0: StoreModel,
    m_final: StoreModel,
    ttl_ms: u64,
    now_ms: u64,
)
    requires
        three_page_chain(api_m, u1, m0),
        forall|i: int|
            0 <= i < steps.len() ==> Some(#[trigger] steps[i].url) == pending_after(
                steps.take(i),
                Some(u1),
            ),
        forall|i: int| 0 <= i < steps.len() ==> #[trigger] steps[i].batch@.len() > 0,
        walk_trace_model(steps, m0, m_final, api_m, ttl_ms, now_ms),
        steps.len() <= 4,
    ensures
        steps.len() <= 3,
        steps.len() == 0 ==> pending_after(steps, Some(u1)) == Some(u1),
        steps.len() >= 1 ==> three_page_step(api_m, u1, steps[0]),
        steps.len() == 1 ==> pending_after(steps, Some(u1)) == Some(
            api_m[spec_cache_key(u1)].next_page.unwrap(),
        ),
        steps.len() >= 2 ==> three_page_step(
            api_m,
            api_m[spec_cache_key(u1)].next_page.unwrap(),
            steps[1],
        ),
        steps.len() == 2 ==> pending_after(steps, Some(u1)) == Some(
            api_m[spec_cache_key(api_m[spec_cache_key(u1)].next_page.unwrap())].next_page.unwrap(),
        ),
        steps.len() >= 3 ==> three_page_step(
            api_m,
            api_m[spec_cache_key(api_m[spec_cache_key(u1)].next_page.unwrap())].next_page.unwrap(),
            steps[2],
        ),
        steps.len() == 3 ==> pending_after(steps, Some(u1)) is None,
{
    let k1 = spec_cache_key(u1);
    let u2 = api_m[k1].next_page.unwrap();
    let k2 = spec_cache_key(u2);
    let u3 = api_m[k2].next_page.unwrap();
    let k3 = spec_cache_key(u3);
    if steps.len() >= 1 {
        assert(steps.take(0) =~= Seq::<WalkStep<V>>::empty());
        assert(Some(steps[0].url) == pending_after(steps.take(0), Some(u1)));
        assert(steps[0].url == u1);
        assert(steps[0].store0 == m0);
        let m1 = crate::pagination::store_after(steps, 0, m_final);
        assert(fetch_model_post(m0, m1, api_m, u1, ttl_ms, now_ms, steps[0].text@, steps[0].headers@));
        assert(classify(m0, k1, ttl_ms, now_ms) is Miss);
        assert(steps[0].text@ == api_m[k1].value);
        assert(steps[0].headers@ == known_headers(api_m[k1]));
        assert(m1 == write_model(m0, k1, steps[0].text@, steps[0].headers@, now_ms));
        assert(step_cont(steps[0]) == Some(u2)) by {
            assert(steps[0].headers@.this_page == Some(1usize));
            assert(steps[0].headers@.last_page == Some(3usize));
            assert(steps[0].batch@.len() > 0);
        }
    }
    if steps.len() >= 2 {
        assert(steps.take(1) =~= seq![steps[0]]);
        assert(steps.take(1).last() == steps[0]);
        assert(Some(steps[1].url) == pending_after(steps.take(1), Some(u1)));
        assert(steps[1].url == u2);
        let m1 = crate::pagination::store_after(steps, 0, m_final);
        assert(steps[1].store0 == m1);
        let m2 = crate::pagination::store_after(steps, 1, m_final);
        assert(fetch_model_post(m1, m2, api_m, u2, ttl_ms, now_ms, steps[1].text@, steps[1].headers@));
        assert(!m1.contains_key(k2));
        assert(classify(m1, k2, ttl_ms, now_ms) is Miss);
        assert(steps[1].text@ == api_m[k2].value);
        assert(steps[1].headers@ == known_headers(api_m[k2]));
        assert(m2 == write_model(m1, k2, steps[1].text@, steps[1].headers@, now_ms));
        assert(step_cont(steps[1]) == Some(u3)) by {
            assert(steps[1].headers@.this_page == Some(2usize));
            assert(steps[1].headers@.last_page == Some(3usize));
            assert(steps[1].batch@.len() > 0);
        }
    }
    if steps.len() >= 3 {
        assert(steps.take(2).last() == steps[1]);
        assert(steps.take(2).len() == 2);
        assert(Some(steps[2].url) == pending_after(steps.take(2), Some(u1)));
        assert(steps[2].url == u3);
        let m1 = crate::pagination::store_after(steps, 0, m_final);
        let m2 = crate::pagination::store_after(steps, 1, m_final);
        assert(steps[2].store0 == m2);
        let m3 = crate::pagination::store_after(steps, 2, m_final);
        assert(fetch_model_post(m2, m3, api_m, u3, ttl_ms, now_ms, steps[2].text@, steps[2].headers@));
        assert(!m2.contains_key(k3));
        assert(classify(m2, k3, ttl_ms, now_ms) is Miss);
        assert(steps[2].text@ == api_m[k3].value);
        assert(steps[2].headers@ == known_headers(api_m[k3]));
        assert(step_cont(steps[2]) is None) by {
            assert(steps[2].headers@.this_page == Some(3usize));
            assert(steps[2].headers@.last_page == Some(3usize));
        }
    }
    if steps.len() == 4 {
        assert(steps.take(3).last() == steps[2]);
        assert(steps.take(3).len() == 3);
        assert(Some(steps[3].url) == pending_after(steps.take(3), Some(u1)));
        assert(false);
    }
}

/// Could `parse` have produced the batch `b` from page `key` of the endpoint?
pub open spec fn page_batch<V, F: Fn(String, Headers) -> Result<Vec<V>, Error>>(
    api_m: Map<Seq<char>, KnownModel>,
    key: Seq<char>,
    b: Vec<V>,
    parse: F,
) -> bool {
    exists|t: String, h: Headers|
        t@ == api_m[key].value && h@ == known_headers(api_m[key]) && #[trigger] call_ensures(
            parse,
            (t, h),
            Ok(b),
        )
}

/// **Pagination, three pages through the orchestrator.** Walking a chain of
/// three pages (the third marked the last of three), none cached beforehand,
/// with a parse closure that never fails and answers every page with a
/// non-empty batch, succeeds and yields exactly the three pages' batches, in
/// page order, and then stops.
#[verifier::rlimit(60)]
pub fn law_walk_three_pages<C: Cache, A: Api, V, F: Fn(String, Headers) -> Result<Vec<V>, Error>>(
    cache: &mut C,
    api: &A,
    url: &str,
    ttl_ms: u64,
    now_ms: u64,
    parse: &F,
) -> (r: Result<Vec<V>, Error>)
    requires
        C::obeys_model(),
        A::obeys_model(),
        forall|text: String, h: Headers| #[trigger] call_requires(*parse, (text, h)),
        forall|text: String, h: Headers, e: Error|
            !(#[trigger] call_ensures(*parse, (text, h), Err::<Vec<V>, Error>(e))),
        forall|text: String, h: Headers, b: Vec<V>|
            #[trigger] call_ensures(*parse, (text, h), Ok(b)) ==> b@.len() > 0,
        three_page_chain(api.view(), url@, old(cache).view()),
    ensures
        r matches Ok(out) ==> exists|b1: Vec<V>, b2: Vec<V>, b3: Vec<V>|
            #![trigger page_batch(api.view(), spec_cache_key(url@), b1, *parse), page_batch(
                api.view(),
                spec_cache_key(api.view()[spec_cache_key(url@)].next_page.unwrap()),
                b2,
                *parse,
            ), page_batch(
                api.view(),
                spec_cache_key(
                    api.view()[spec_cache_key(
                        api.view()[spec_cache_key(url@)].next_page.unwrap(),
                    )].next_page.unwrap(),
                ),
                b3,
                *parse,
            )]
            {
                let api_m = api.view();
                let k1 = spec_cache_key(url@);
                let k2 = spec_cache_key(api_m[k1].next_page.unwrap());
                let k3 = spec_cache_key(api_m[k2].next_page.unwrap());
                &&& out@ == b1@ + b2@ + b3@
                &&& page_batch(api_m, k1, b1, *parse)
                &&& page_batch(api_m, k2, b2, *parse)
                &&& page_batch(api_m, k3, b3, *parse)
            },
        r is Ok,
{
    let ghost api_m = api.view();
    let ghost k1 = spec_cache_key(url@);
    let ghost u2 = api_m[k1].next_page.unwrap();
    let ghost k2 = spec_cache_key(u2);
    let ghost u3 = api_m[k2].next_page.unwrap();
    let ghost k3 = spec_cache_key(u3);
    let walk = PaginatedList::new(url, ttl_ms);
    let r = walk.consume(cache, api, now_ms, parse, 4);
    proof {
        let gr = r;
        match gr {
            Ok(out) => {
                let steps = choose|steps: Seq<WalkStep<V>>|
                    {
                        &&& walk_trace(steps, Some(url@), *parse)
                        &&& out@ == flatten_batches(batch_views(steps))
                        &&& steps.len() <= 4
                        &&& (steps.len() == 4 || pending_after(steps, Some(url@)) is None)
                        &&& (C::obeys_model() && A::obeys_model() ==> walk_trace_model(
                            steps,
                            old(cache).view(),
                            cache.view(),
                            api.view(),
                            ttl_ms,
                            now_ms,
                        ))
                    };
                assert forall|i: int| 0 <= i < steps.len() implies #[trigger] steps[i].batch@.len()
                    > 0 by {
                    assert(call_ensures(*parse, (steps[i].text, steps[i].headers), Ok(steps[i].batch)));
                }
                lemma_three_page_walk(
                    steps,
                    api_m,
                    url@,
                    old(cache).view(),
                    cache.view(),
                    ttl_ms,
                    now_ms,
                );
                assert(steps.len() == 3) by {
                    if steps.len() < 3 {
                        assert(pending_after(steps, Some(url@)) is Some);
                    }
                }
                let bv = batch_views(steps);
                let bv2 = bv.drop_last();
                let bv1 = bv2.drop_last();
                assert(bv.len() == 3);
                assert(bv.last() == steps[2].batch@);
                assert(bv2.last() == steps[1].batch@);
                assert(bv1.last() == steps[0].batch@);
                assert(bv1.drop_last() =~= Seq::<Seq<V>>::empty());
                assert(flatten_batches(Seq::<Seq<V>>::empty()) == Seq::<V>::empty());
                assert(flatten_batches(bv1) == Seq::<V>::empty() + steps[0].batch@);
                assert(flatten_batches(bv2) == flatten_batches(bv1) + steps[1].batch@);
                assert(flatten_batches(bv) == flatten_batches(bv2) + steps[2].batch@);
                assert(out@ =~= steps[0].batch@ + steps[1].batch@ + steps[2].batch@);
                assert(page_batch(api_m, k1, steps[0].batch, *parse)) by {
                    assert(call_ensures(*parse, (steps[0].text, steps[0].headers), Ok(steps[0].batch)));
                }
                assert(page_batch(api_m, k2, steps[1].batch, *parse)) by {
                    assert(call_ensures(*parse, (steps[1].text, steps[1].headers), Ok(steps[1].batch)));
                }
                assert(page_batch(api_m, k3, steps[2].batch, *parse)) by {
                    assert(call_ensures(*parse, (steps[2].text, steps[2].headers), Ok(steps[2].batch)));
                }
                assert(out@ == steps[0].batch@ + steps[1].batch@ + steps[2].batch@);
            },
            Err(e) => {
                let steps = choose|steps: Seq<WalkStep<V>>|
                    {
                        &&& walk_trace(steps, Some(url@), *parse)
                        &&& steps.len() < 4
                        &&& pending_after(steps, Some(url@)) is Some
                        &&& ((exists|text: String, h: Headers|
                            #[trigger] call_ensures(*parse, (text, h), Err::<Vec<V>, Error>(e)))
                            || !(C::obeys_model() && A::obeys_model() && url_parseable(
                            pending_after(steps, Some(url@)).unwrap(),
                        ) && api.view().contains_key(
                            spec_cache_key(pending_after(steps, Some(url@)).unwrap()),
                        )))
                        &&& (C::obeys_model() && A::obeys_model() ==> exists|m_mid: StoreModel|
                            #[trigger] walk_trace_model(
                                steps,
                                old(cache).view(),
                                m_mid,
                                api.view(),
                                ttl_ms,
                                now_ms,
                            ))
                    };
                assert forall|i: int| 0 <= i < steps.len() implies #[trigger] steps[i].batch@.len()
                    > 0 by {
                    assert(call_ensures(*parse, (steps[i].text, steps[i].headers), Ok(steps[i].batch)));
                }
                let m_mid = choose|m_mid: StoreModel|
                    #[trigger] walk_trace_model(
                        steps,
                        old(cache).view(),
                        m_mid,
                        api.view(),
                        ttl_ms,
                        now_ms,
                    );
                lemma_three_page_walk(
                    steps,
                    api_m,
                    url@,
                    old(cache).view(),
                    m_mid,
                    ttl_ms,
                    now_ms,
                );
                let pending = pending_after(steps, Some(url@)).unwrap();
                assert(pending == url@ || pending == u2 || pending == u3);
                assert(url_parseable(pending) && api.view().contains_key(spec_cache_key(pending)));
                assert(false);
            },
        }
    }
    r
}

} // verus!
