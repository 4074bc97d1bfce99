//! Multi-page retrieval through the cache.
//!
//! A paginated list walks the pages of an API response, feeding every page
//! through the fetch orchestrator and following the next-page link from the
//! projected headers until the page counters or an empty batch end the walk.
use vstd::prelude::*;

use crate::cache::{fetch, fetch_model_post, fetch_ok_post};
use crate::error::Error;
use crate::headers::{Headers, HeadersView};
use crate::key::{spec_cache_key, url_parseable};
use crate::request::{Api, KnownModel};
use crate::store::{unchanged_except, Cache, StoreModel};

verus! {

/// An absent page counter counts as zero.
pub open spec fn opt_or_zero(o: Option<usize>) -> usize {
    match o {
        Some(v) => v,
        None => 0,
    }
}

/// Do these page headers, with a batch of `batch_len` items, ask for another
/// page? Only when the current page lies before the last one and the batch is
/// not empty: an empty batch always ends the walk, whatever the counters say.
pub open spec fn page_continues(h: HeadersView, batch_len: nat) -> bool {
    batch_len > 0 && opt_or_zero(h.this_page) < opt_or_zero(h.last_page)
}

/// Is the counter `a`, taken as zero when absent, below `b`?
fn opt_lt(a: &Option<usize>, b: &Option<usize>) -> (r: bool)
    ensures
        r == (opt_or_zero(*a) < opt_or_zero(*b)),
{
    let x: usize = match a {
        Some(v) => *v,
        None => 0,
    };
    let y: usize = match b {
        Some(v) => *v,
        None => 0,
    };
    x < y
}

/// An iterator over pages containing lists of items.
pub struct PaginatedList {
    next_page: Option<String>,
    ttl_ms: u64,
}

impl PaginatedList {
    /// The url of the pending page, if the walk is not done.
    pub closed spec fn spec_next_page(&self) -> Option<Seq<char>> {
        match self.next_page {
            Some(ref url) => Some(url@),
            None => None,
        }
    }

    /// The time-to-live the walk probes the cache with.
    pub closed spec fn spec_ttl(&self) -> u64 {
        self.ttl_ms
    }

    /// A new page walk, starting at `url`, caching with `ttl_ms`.
    pub fn new(url: &str, ttl_ms: u64) -> (r: PaginatedList)
        ensures
            r.spec_next_page() == Some(url@),
            r.spec_ttl() == ttl_ms,
    {
        PaginatedList { next_page: Some(url.to_owned()), ttl_ms: ttl_ms }
    }

    /// Is the walk over?
    pub fn is_done(&self) -> (r: bool)
        ensures
            r == (self.spec_next_page() is None),
    {
        match &self.next_page {
            Some(_) => false,
            None => true,
        }
    }

    /// Fetch the pending page, parse its body into a batch of items, and
    /// decide from the projected headers whether another page follows.
    ///
    /// Yields `None` once no page is pending. A parse or fetch error is
    /// yielded as the final element: the walk is done afterwards. An empty
    /// batch ends the walk even when the page counters promise more.
    pub fn next<C: Cache, A: Api, V, F: Fn(String, Headers) -> Result<Vec<V>, Error>>(
        &mut self,
        cache: &mut C,
        api: &A,
        now_ms: u64,
        parse: &F,
    ) -> (r: Option<Result<Vec<V>, Error>>)
        requires
            forall|text: String, h: Headers| #[trigger] call_requires(*parse, (text, h)),
        ensures
            (old(self).spec_next_page() is None) <==> (r is None),
            r is None ==> *final(self) == *old(self) && *final(cache) == *old(cache),
            final(self).spec_ttl() == old(self).spec_ttl(),
            C::obeys_model() ==> (old(self).spec_next_page() matches Some(u) ==> unchanged_except(
                old(cache).view(),
                final(cache).view(),
                spec_cache_key(u),
            )),
            r matches Some(Ok(batch)) ==> (batch@.len() == 0 ==> final(self).spec_next_page()
                is None),
            r matches Some(Err(e)) ==> final(self).spec_next_page() is None,
            r matches Some(Ok(batch)) ==> exists|text: String, h: Headers|
                {
                    &&& #[trigger] call_ensures(*parse, (text, h), Ok(batch))
                    &&& final(self).spec_next_page() == (if page_continues(h@, batch@.len()) {
                        h@.next_page
                    } else {
                        None::<Seq<char>>
                    })
                    &&& (C::obeys_model() ==> fetch_ok_post(
                        old(cache).view(),
                        final(cache).view(),
                        spec_cache_key(old(self).spec_next_page().unwrap()),
                        old(self).spec_ttl(),
                        now_ms,
                        text@,
                        h@,
                    ))
                    &&& (C::obeys_model() && A::obeys_model() && url_parseable(
                        old(self).spec_next_page().unwrap(),
                    ) ==> fetch_model_post(
                        old(cache).view(),
                        final(cache).view(),
                        api.view(),
                        old(self).spec_next_page().unwrap(),
                        old(self).spec_ttl(),
                        now_ms,
                        text@,
                        h@,
                    ))
                },
            old(self).spec_next_page() matches Some(u) ==> (!url_parseable(u) ==> r == Some(
                Err::<Vec<V>, Error>(Error::InternalUrl),
            )),
            C::obeys_model() && A::obeys_model() ==> (old(self).spec_next_page() matches Some(u)
                ==> ((url_parseable(u) && api.view().contains_key(spec_cache_key(u))) ==> (
            r matches Some(Err(e)) ==> exists|text: String, h: Headers|
                #[trigger] call_ensures(*parse, (text, h), Err::<Vec<V>, Error>(e))))),
            C::obeys_model() && A::obeys_model() && (forall|text: String, h: Headers, e: Error|
                !(#[trigger] call_ensures(*parse, (text, h), Err::<Vec<V>, Error>(e)))) ==> (old(
                self,
            ).spec_next_page() matches Some(u) ==> ((url_parseable(u)
                && api.view().contains_key(spec_cache_key(u))) ==> r matches Some(Ok(_)))),
    {
        let mut pending: Option<String> = None;
        core::mem::swap(&mut self.next_page, &mut pending);
        let url = match pending {
            Some(url) => url,
            None => {
                proof {
                    assert(*self == *old(self));
                }
                return None;
            },
        };
        let res = fetch(cache, api, url.as_str(), self.ttl_ms, now_ms);
        match res {
            Ok((text, headers)) => {
                let kept = headers.clone();
                let ghost gtext = text;
                let ghost gheaders = headers;
                match parse(text, headers) {
                    Ok(batch) => {
                        // Only follow the next-page link when the counters say
                        // more pages remain and this page was not empty.
                        if opt_lt(&kept.this_page, &kept.last_page) && batch.len() > 0 {
                            self.next_page = kept.next_page;
                        }
                        Some(Ok(batch))
                    },
                    Err(why) => Some(Err(why)),
                }
            },
            Err(why) => Some(Err(why)),
        }
    }

    /// Consume this walk, flattening the collected pages and propagating the
    /// first error.
    ///
    /// On success, the output is exactly the concatenation, in order, of the
    /// batches the walk yielded: a chain of steps from the starting url, each
    /// following the previous step's continuation, each batch produced by the
    /// parse closure from that step's page, ending where the walk was done (or
    /// cut off at `max_pages`, the bound a walk needs in case its upstream
    /// never signals completion). On failure, the error is the first failure
    /// after such a chain of successful steps, and it is the parse closure's
    /// own unless the fetch of the pending page could fail.
    #[verifier::rlimit(60)]
    pub fn consume<C: Cache, A: Api, V, F: Fn(String, Headers) -> Result<Vec<V>, Error>>(
        self,
        cache: &mut C,
        api: &A,
        now_ms: u64,
        parse: &F,
        max_pages: usize,
    ) -> (r: Result<Vec<V>, Error>)
        requires
            forall|text: String, h: Headers| #[trigger] call_requires(*parse, (text, h)),
        ensures
            r matches Ok(out) ==> exists|steps: Seq<WalkStep<V>>|
                {
                    &&& walk_trace(steps, self.spec_next_page(), *parse)
                    &&& out@ == flatten_batches(batch_views(steps))
                    &&& steps.len() <= max_pages
                    &&& (steps.len() == max_pages || pending_after(steps, self.spec_next_page())
                        is None)
                    &&& (C::obeys_model() && A::obeys_model() ==> walk_trace_model(
                        steps,
                        old(cache).view(),
                        final(cache).view(),
                        api.view(),
                        self.spec_ttl(),
                        now_ms,
                    ))
                },
            r matches Err(e) ==> exists|steps: Seq<WalkStep<V>>|
                {
                    &&& walk_trace(steps, self.spec_next_page(), *parse)
                    &&& steps.len() < max_pages
                    &&& pending_after(steps, self.spec_next_page()) is Some
                    &&& ((exists|text: String, h: Headers|
                        #[trigger] call_ensures(*parse, (text, h), Err::<Vec<V>, Error>(e))) || !(
                    C::obeys_model() && A::obeys_model() && url_parseable(
                        pending_after(steps, self.spec_next_page()).unwrap(),
                    ) && api.view().contains_key(
                        spec_cache_key(pending_after(steps, self.spec_next_page()).unwrap()),
                    )))
                    &&& (C::obeys_model() && A::obeys_model() ==> exists|m_mid: StoreModel|
                        #[trigger] walk_trace_model(
                            steps,
                            old(cache).view(),
                            m_mid,
                            api.view(),
                            self.spec_ttl(),
                            now_ms,
                        ))
                },
            self.spec_next_page() is None ==> (r matches Ok(out) && out@.len() == 0),
    {
        let mut walk = self;
        let mut out: Vec<V> = Vec::new();
        let ghost mut steps: Seq<WalkStep<V>> = Seq::empty();
        let mut pages: usize = 0;
        while pages < max_pages
            invariant
                forall|text: String, h: Headers| #[trigger] call_requires(*parse, (text, h)),
                walk.spec_ttl() == self.spec_ttl(),
                pages as int == steps.len(),
                pages <= max_pages,
                walk_trace(steps, self.spec_next_page(), *parse),
                walk.spec_next_page() == pending_after(steps, self.spec_next_page()),
                out@ == flatten_batches(batch_views(steps)),
                C::obeys_model() && A::obeys_model() ==> walk_trace_model(
                    steps,
                    old(cache).view(),
                    cache.view(),
                    api.view(),
                    self.spec_ttl(),
                    now_ms,
                ),
                self.spec_next_page() is None ==> walk.spec_next_page() is None && out@.len() == 0,
            decreases max_pages - pages,
        {
            let ghost pending0 = walk.spec_next_page();
            let ghost view0 = cache.view();
            proof {
                if C::obeys_model() && A::obeys_model() {
                    assert(walk_trace_model(
                        steps,
                        old(cache).view(),
                        view0,
                        api.view(),
                        self.spec_ttl(),
                        now_ms,
                    ));
                }
            }
            match walk.next(cache, api, now_ms, parse) {
                Some(Ok(mut batch)) => {
                    let ghost gbatch = batch;
                    proof {
                        let (gt, gh) = choose|t: String, h: Headers|
                            {
                                &&& #[trigger] call_ensures(*parse, (t, h), Ok(gbatch))
                                &&& walk.spec_next_page() == (if page_continues(
                                    h@,
                                    gbatch@.len(),
                                ) {
                                    h@.next_page
                                } else {
                                    None::<Seq<char>>
                                })
                                &&& (C::obeys_model() ==> fetch_ok_post(
                                    view0,
                                    cache.view(),
                                    spec_cache_key(pending0.unwrap()),
                                    self.spec_ttl(),
                                    now_ms,
                                    t@,
                                    h@,
                                ))
                                &&& (C::obeys_model() && A::obeys_model() && url_parseable(
                                    pending0.unwrap(),
                                ) ==> fetch_model_post(
                                    view0,
                                    cache.view(),
                                    api.view(),
                                    pending0.unwrap(),
                                    self.spec_ttl(),
                                    now_ms,
                                    t@,
                                    h@,
                                ))
                            };
                        let step = WalkStep::<V> {
                            url: pending0.unwrap(),
                            store0: view0,
                            text: gt,
                            headers: gh,
                            batch: gbatch,
                        };
                        let steps0 = steps;
                        steps = steps.push(step);
                        assert(steps.take(steps0.len() as int) =~= steps0);
                        assert(steps.last() == step);
                        assert forall|i: int| 0 <= i < steps.len() implies Some(
                            #[trigger] steps[i].url,
                        ) == pending_after(steps.take(i), self.spec_next_page()) by {
                            if i < steps0.len() {
                                assert(steps.take(i) =~= steps0.take(i));
                                assert(steps[i] == steps0[i]);
                            } else {
                                assert(steps.take(i) =~= steps0);
                            }
                        }
                        assert forall|i: int| 0 <= i < steps.len() implies #[trigger] call_ensures(
                            *parse,
                            (steps[i].text, steps[i].headers),
                            Ok(steps[i].batch),
                        ) by {
                            if i < steps0.len() {
                                assert(steps[i] == steps0[i]);
                            }
                        }
                        assert(batch_views(steps).drop_last() =~= batch_views(steps0));
                        assert(batch_views(steps).last() == gbatch@);
                        if C::obeys_model() && A::obeys_model() {
                            assert forall|i: int| 0 <= i < steps.len() implies (url_parseable(
                                #[trigger] steps[i].url,
                            ) ==> fetch_model_post(
                                steps[i].store0,
                                store_after(steps, i, cache.view()),
                                api.view(),
                                steps[i].url,
                                self.spec_ttl(),
                                now_ms,
                                steps[i].text@,
                                steps[i].headers@,
                            )) by {
                                if i < steps0.len() - 1 {
                                    assert(steps[i] == steps0[i]);
                                    assert(store_after(steps, i, cache.view()) == store_after(
                                        steps0,
                                        i,
                                        view0,
                                    ));
                                } else if i == steps0.len() - 1 {
                                    assert(steps[i] == steps0[i]);
                                    assert(store_after(steps, i, cache.view()) == view0);
                                    assert(store_after(steps0, i, view0) == view0);
                                } else {
                                    assert(steps[i] == step);
                                    assert(store_after(steps, i, cache.view()) == cache.view());
                                }
                            }
                        }
                    }
                    out.append(&mut batch);
                    proof {
                        assert(out@ == flatten_batches(batch_views(steps)));
                    }
                },
                Some(Err(why)) => {
                    proof {
                        assert(walk_trace(steps, self.spec_next_page(), *parse));
                        assert(pending_after(steps, self.spec_next_page()) is Some);
                        assert((exists|text: String, h: Headers|
                            #[trigger] call_ensures(*parse, (text, h), Err::<Vec<V>, Error>(why)))
                            || !(C::obeys_model() && A::obeys_model() && url_parseable(
                            pending_after(steps, self.spec_next_page()).unwrap(),
                        ) && api.view().contains_key(
                            spec_cache_key(
                                pending_after(steps, self.spec_next_page()).unwrap(),
                            ),
                        )));
                    }
                    return Err(why);
                },
                None => {
                    return Ok(out);
                },
            }
            pages = pages + 1;
        }
        Ok(out)
    }
}

/// One step of a pagination walk: the page fetched, what its fetch handed to
/// the parse closure, and the batch the closure produced.
pub struct WalkStep<V> {
    /// The pending url this step fetched.
    pub url: Seq<char>,
    /// The store's contents when the step began.
    pub store0: StoreModel,
    /// The page text handed to the parse closure.
    pub text: String,
    /// The projected headers handed to the parse closure.
    pub headers: Headers,
    /// The batch the parse closure produced.
    pub batch: Vec<V>,
}

/// The url pending after a step: the headers' next-page link where the
/// counters ask for more and the batch was not empty.
pub open spec fn step_cont<V>(s: WalkStep<V>) -> Option<Seq<char>> {
    if page_continues(s.headers@, s.batch@.len()) {
        s.headers@.next_page
    } else {
        None
    }
}

/// The url pending after a prefix of steps, starting from `start`.
pub open spec fn pending_after<V>(steps: Seq<WalkStep<V>>, start: Option<Seq<char>>) -> Option<
    Seq<char>,
> {
    if steps.len() == 0 {
        start
    } else {
        step_cont(steps.last())
    }
}

/// Is `steps` the chain of a walk from `start`: each step fetched the url
/// pending after the steps before it, and each batch is what the parse closure
/// produced from that step's page?
pub open spec fn walk_trace<V, F: Fn(String, Headers) -> Result<Vec<V>, Error>>(
    steps: Seq<WalkStep<V>>,
    start: Option<Seq<char>>,
    parse: F,
) -> bool {
    &&& forall|i: int|
        0 <= i < steps.len() ==> Some(#[trigger] steps[i].url) == pending_after(
            steps.take(i),
            start,
        )
    &&& forall|i: int|
        0 <= i < steps.len() ==> #[trigger] call_ensures(
            parse,
            (steps[i].text, steps[i].headers),
            Ok(steps[i].batch),
        )
}

/// The batches of the steps, in order.
pub open spec fn batch_views<V>(steps: Seq<WalkStep<V>>) -> Seq<Seq<V>> {
    steps.map_values(|s: WalkStep<V>| s.batch@)
}

/// The store's contents after step `i`: the next step's starting contents, or
/// the walk's final contents for the last step.
pub open spec fn store_after<V>(
    steps: Seq<WalkStep<V>>,
    i: int,
    m_final: StoreModel,
) -> StoreModel {
    if i + 1 < steps.len() {
        steps[i + 1].store0
    } else {
        m_final
    }
}

/// Does each step's content and store transition follow the store and endpoint
/// models? The first step starts at `m0`, each next one where the previous
/// ended, and the last ends at `m_final`; every step with a parseable url
/// behaves as [`fetch_model_post`] says.
pub open spec fn walk_trace_model<V>(
    steps: Seq<WalkStep<V>>,
    m0: StoreModel,
    m_final: StoreModel,
    api_m: Map<Seq<char>, KnownModel>,
    ttl_ms: u64,
    now_ms: u64,
) -> bool {
    &&& (steps.len() == 0 ==> m_final == m0)
    &&& (steps.len() > 0 ==> steps[0].store0 == m0)
    &&& forall|i: int|
        0 <= i < steps.len() ==> (url_parseable(#[trigger] steps[i].url) ==> fetch_model_post(
            steps[i].store0,
            store_after(steps, i, m_final),
            api_m,
            steps[i].url,
            ttl_ms,
            now_ms,
            steps[i].text@,
            steps[i].headers@,
        ))
}

/// The batches of a walk, flattened in order.
pub open spec fn flatten_batches<V>(batches: Seq<Seq<V>>) -> Seq<V>
    decreases batches.len(),
{
    if batches.len() == 0 {
        Seq::empty()
    } else {
        flatten_batches(batches.drop_last()) + batches.last()
    }
}

/// Could `parse` have produced the batch `b`?
pub open spec fn is_parse_result<V, F: Fn(String, Headers) -> Result<Vec<V>, Error>>(
    b: Seq<V>,
    parse: F,
) -> bool {
    exists|text: String, h: Headers, batch: Vec<V>|
        #[trigger] call_ensures(parse, (text, h), Ok(batch)) && batch@ == b
}

/// Could `parse` have produced every one of `batches`?
pub open spec fn all_parse_results<V, F: Fn(String, Headers) -> Result<Vec<V>, Error>>(
    batches: Seq<Seq<V>>,
    parse: F,
) -> bool {
    forall|i: int| 0 <= i < batches.len() ==> is_parse_result(#[trigger] batches[i], parse)
}

} // verus!
