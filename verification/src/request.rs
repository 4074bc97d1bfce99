//! The transport abstraction: a generalized API endpoint and a deterministic
//! in-memory implementation for tests.
use vstd::prelude::*;

use crate::error::Error;
use crate::headers::{Headers, HeadersView};

verus! {

/// The status code that signals a valid cached entry on a conditional GET.
pub const STATUS_NOT_MODIFIED: u16 = 304;

/// Is `status` a success (2xx) code?
pub open spec fn spec_is_success(status: u16) -> bool {
    200 <= status < 300
}

/// Executable [`spec_is_success`].
pub fn is_success(status: u16) -> (r: bool)
    ensures
        r == spec_is_success(status),
{
    200 <= status && status < 300
}

/// The view of an optional string.
pub open spec fn opt_str_view(o: Option<String>) -> Option<Seq<char>> {
    match o {
        Some(s) => Some(s@),
        None => None,
    }
}

/// A subset of an HTTP response: the requested url, the status code, the
/// projected headers, and the body.
#[derive(Debug)]
pub struct Response {
    /// The url the request was made for.
    pub url: String,
    /// The response status code.
    pub status: u16,
    /// The projected response headers.
    pub headers: Headers,
    /// The response body.
    pub body: String,
}

/// The model of one resource that a modeled endpoint serves.
pub struct KnownModel {
    /// The validator token the resource carries.
    pub etag: Option<Seq<char>>,
    /// The body served.
    pub value: Seq<char>,
    /// The page counter served.
    pub this_page: Option<usize>,
    /// The next-page url served.
    pub next_page: Option<Seq<char>>,
    /// The last-page counter served.
    pub last_page: Option<usize>,
}

/// The headers a modeled resource is served with.
pub open spec fn known_headers(k: KnownModel) -> HeadersView {
    HeadersView {
        etag: k.etag,
        this_page: k.this_page,
        next_page: k.next_page,
        last_page: k.last_page,
    }
}

/// The status that a server answers with, given the etag it serves and the
/// `If-None-Match` validator of the request: 304 exactly when both exist and
/// agree, 200 otherwise.
pub open spec fn spec_status_from_etags(served: Option<Seq<char>>, sent: Option<Seq<char>>) -> u16 {
    match (served, sent) {
        (Some(a), Some(b)) => if a == b {
            304
        } else {
            200
        },
        _ => 200,
    }
}

/// What a GET against a modeled endpoint returns: for a known url, a response
/// for that url whose status follows the etag comparison and whose body and
/// headers are the registered ones; for an unknown url, an error.
pub open spec fn api_get_post(
    m: Map<Seq<char>, KnownModel>,
    url: Seq<char>,
    sent: Option<Seq<char>>,
    r: Result<Response, Error>,
) -> bool {
    if m.contains_key(url) {
        r matches Ok(resp) && resp.url@ == url && resp.status == spec_status_from_etags(
            m[url].etag,
            sent,
        ) && resp.headers@ == known_headers(m[url]) && resp.body@ == m[url].value
    } else {
        r is Err
    }
}

/// Generalized API endpoint.
///
/// This abstracts away from the real transport to allow for deterministic
/// local tests with a [`DummyApi`]; the real implementation performs HTTP
/// requests. An implementation with a response model (a map from urls to the
/// resources it serves) proves [`api_get_post`] of every GET; the real
/// transport has no model and proves only that the response is for the
/// requested url.
pub trait Api: Sized {
    /// The endpoint's known resources, where it has a model.
    open spec fn view(&self) -> Map<Seq<char>, KnownModel> {
        Map::empty()
    }

    /// Whether this implementation proves the model clause of `get`.
    open spec fn obeys_model() -> bool {
        false
    }

    /// Create the endpoint.
    fn create() -> (r: Result<Self, Error>);

    /// Send a GET request for `url`.
    ///
    /// If `etag` is given, the request carries it as an `If-None-Match`
    /// header, so that an unchanged resource answers with status 304.
    fn get(&self, url: &str, etag: Option<&str>) -> (r: Result<Response, Error>)
        ensures
            r matches Ok(resp) ==> resp.url@ == url@,
            Self::obeys_model() ==> api_get_post(
                self.view(),
                url@,
                match etag {
                    Some(e) => Some(e@),
                    None => None,
                },
                r,
            ),
    ;
}

/// Executable [`spec_status_from_etags`].
pub fn status_from_etags(served: &Option<String>, sent: &Option<String>) -> (r: u16)
    ensures
        r == spec_status_from_etags(opt_str_view(*served), opt_str_view(*sent)),
{
    match (served, sent) {
        (Some(a), Some(b)) => if *a == *b {
            304
        } else {
            200
        },
        _ => 200,
    }
}

/// One registered response of the dummy endpoint.
struct KnownResp {
    etag: Option<String>,
    value: String,
    this_page: Option<usize>,
    next_page: Option<String>,
    last_page: Option<usize>,
}

/// The model of one registered response.
spec fn resp_model(k: KnownResp) -> KnownModel {
    KnownModel {
        etag: opt_str_view(k.etag),
        value: k.value@,
        this_page: k.this_page,
        next_page: opt_str_view(k.next_page),
        last_page: k.last_page,
    }
}

/// The map that a registration list denotes: the first registration of a url
/// wins.
spec fn known_map(s: Seq<(String, KnownResp)>) -> Map<Seq<char>, KnownModel>
    decreases s.len(),
{
    if s.len() == 0 {
        Map::empty()
    } else {
        known_map(s.drop_first()).insert(s[0].0@, resp_model(s[0].1))
    }
}

/// The index of the first registration of `key`, if any.
spec fn first_index(s: Seq<(String, KnownResp)>, key: Seq<char>) -> Option<int>
    decreases s.len(),
{
    if s.len() == 0 {
        None
    } else if s[0].0@ == key {
        Some(0)
    } else {
        match first_index(s.drop_first(), key) {
            Some(i) => Some(i + 1),
            None => None,
        }
    }
}

/// The map binds `key` to the first registration of it, and to nothing where
/// none exists.
proof fn lemma_known_map_lookup(s: Seq<(String, KnownResp)>, key: Seq<char>)
    ensures
        match first_index(s, key) {
            Some(i) => 0 <= i < s.len() && s[i].0@ == key && known_map(s).contains_key(key)
                && known_map(s)[key] == resp_model(s[i].1),
            None => !known_map(s).contains_key(key),
        },
    decreases s.len(),
{
    if s.len() > 0 && s[0].0@ != key {
        lemma_known_map_lookup(s.drop_first(), key);
    }
}

/// Registering at the end adds the resource only where the url was unknown.
proof fn lemma_known_map_push(s: Seq<(String, KnownResp)>, e: (String, KnownResp))
    ensures
        known_map(s).contains_key(e.0@) ==> known_map(s.push(e)) == known_map(s),
        !known_map(s).contains_key(e.0@) ==> known_map(s.push(e)) == known_map(s).insert(
            e.0@,
            resp_model(e.1),
        ),
    decreases s.len(),
{
    if s.len() == 0 {
        assert(s.push(e).drop_first() =~= Seq::<(String, KnownResp)>::empty());
        assert(s.push(e)[0] == e);
        assert(!known_map(s).contains_key(e.0@));
        assert(s.push(e).len() == 1);
        assert(known_map(s.push(e)) == known_map(s.push(e).drop_first()).insert(
            s.push(e)[0].0@,
            resp_model(s.push(e)[0].1),
        ));
        assert(known_map(s.push(e).drop_first()) =~= Map::<Seq<char>, KnownModel>::empty());
        assert(known_map(s.push(e)) =~= known_map(s).insert(e.0@, resp_model(e.1)));
    } else {
        assert(s.push(e).drop_first() =~= s.drop_first().push(e));
        assert(s.push(e)[0] == s[0]);
        lemma_known_map_push(s.drop_first(), e);
        let kd = known_map(s.drop_first());
        if kd.contains_key(e.0@) {
            assert(known_map(s.push(e)) =~= kd.insert(s[0].0@, resp_model(s[0].1)));
            assert(known_map(s).contains_key(e.0@));
        } else if s[0].0@ == e.0@ {
            assert(known_map(s.push(e)) =~= kd.insert(e.0@, resp_model(e.1)).insert(
                s[0].0@,
                resp_model(s[0].1),
            ));
            assert(known_map(s.push(e)) =~= known_map(s));
            assert(known_map(s).contains_key(e.0@));
        } else {
            assert(known_map(s.push(e)) =~= known_map(s).insert(e.0@, resp_model(e.1)));
            assert(!known_map(s).contains_key(e.0@));
        }
    }
}

/// Where `key` differs from every entry before `i` and `i` is its entry (or
/// the end), the first registration stands exactly there.
proof fn lemma_first_index_at(s: Seq<(String, KnownResp)>, key: Seq<char>, i: int)
    requires
        0 <= i <= s.len(),
        forall|j: int| 0 <= j < i ==> #[trigger] s[j].0@ != key,
        i < s.len() ==> s[i].0@ == key,
    ensures
        first_index(s, key) == if i < s.len() {
            Some(i)
        } else {
            None::<int>
        },
    decreases i,
{
    if i > 0 {
        lemma_first_index_at(s.drop_first(), key, i - 1);
    }
}

/// A dummy API, serving local, deterministic responses.
///
/// Responses are registered up front; a GET for an unknown url fails like a
/// connection failure would. The endpoint obeys the model: every GET is
/// pinned by [`api_get_post`] over the registered resources.
pub struct DummyApi {
    known: Vec<(String, KnownResp)>,
}

impl DummyApi {
    /// An endpoint that knows no urls yet.
    pub fn new() -> (r: DummyApi)
        ensures
            r.view() == Map::<Seq<char>, KnownModel>::empty(),
    {
        DummyApi { known: Vec::new() }
    }

    /// The first registration of `url`, if any.
    fn find(&self, url: &str) -> (r: Option<usize>)
        ensures
            match r {
                Some(i) => i < self.known@.len() && first_index(self.known@, url@) == Some(
                    i as int,
                ),
                None => first_index(self.known@, url@) is None,
            },
    {
        let target = url.to_owned();
        let n = self.known.len();
        let mut i: usize = 0;
        while i < n
            invariant
                target@ == url@,
                n == self.known@.len(),
                i <= n,
                forall|j: int| 0 <= j < i ==> #[trigger] self.known@[j].0@ != url@,
            decreases n - i,
        {
            if self.known[i].0 == target {
                proof {
                    lemma_first_index_at(self.known@, url@, i as int);
                }
                return Some(i);
            }
            i = i + 1;
        }
        proof {
            lemma_first_index_at(self.known@, url@, n as int);
        }
        None
    }

    /// Register a response for `url`; a later registration for the same url is
    /// never consulted.
    pub fn register(
        &mut self,
        url: &str,
        value: &str,
        etag: Option<&str>,
        this_page: Option<usize>,
        next_page: Option<&str>,
        last_page: Option<usize>,
    )
        ensures
            final(self).view() == (if old(self).view().contains_key(url@) {
                old(self).view()
            } else {
                old(self).view().insert(
                    url@,
                    KnownModel {
                        etag: match etag {
                            Some(e) => Some(e@),
                            None => None,
                        },
                        value: value@,
                        this_page: this_page,
                        next_page: match next_page {
                            Some(n) => Some(n@),
                            None => None,
                        },
                        last_page: last_page,
                    },
                )
            }),
    {
        let resp = KnownResp {
            etag: match etag {
                Some(e) => Some(e.to_owned()),
                None => None,
            },
            value: value.to_owned(),
            this_page: this_page,
            next_page: match next_page {
                Some(n) => Some(n.to_owned()),
                None => None,
            },
            last_page: last_page,
        };
        let entry = (url.to_owned(), resp);
        let ghost s0 = self.known@;
        let ghost ge = entry;
        self.known.push(entry);
        proof {
            assert(self.known@ =~= s0.push(ge));
            lemma_known_map_push(s0, ge);
        }
    }

    /// Register a single page: page one of one.
    pub fn register_single(&mut self, url: &str, value: &str, etag: Option<&str>)
        ensures
            final(self).view() == (if old(self).view().contains_key(url@) {
                old(self).view()
            } else {
                old(self).view().insert(
                    url@,
                    KnownModel {
                        etag: match etag {
                            Some(e) => Some(e@),
                            None => None,
                        },
                        value: value@,
                        this_page: Some(1usize),
                        next_page: None,
                        last_page: Some(1usize),
                    },
                )
            }),
    {
        self.register(url, value, etag, Some(1), None, Some(1));
    }

    /// Register multiple subsequent pages.
    ///
    /// `pages` maps urls to pairs of values and optional etags; each page
    /// names the next one as its follower, and all name the last page. The
    /// urls must be fresh and pairwise distinct.
    #[verifier::rlimit(60)]
    pub fn register_pages(&mut self, pages: &[(&str, &str, Option<&str>)])
        requires
            forall|i: int, j: int|
                0 <= i < j < pages@.len() ==> #[trigger] pages@[i].0@ != #[trigger] pages@[j].0@,
            forall|i: int|
                0 <= i < pages@.len() ==> !old(self).view().contains_key(#[trigger] pages@[i].0@),
        ensures
            forall|i: int|
                0 <= i < pages@.len() ==> final(self).view().contains_key(#[trigger] pages@[i].0@)
                    && final(self).view()[pages@[i].0@] == page_model(pages@, i),
            forall|k: Seq<char>|
                !(#[trigger] among_pages(pages@, k)) ==> ((final(self).view().contains_key(k)
                    <==> old(self).view().contains_key(k)) && (old(self).view().contains_key(k)
                    ==> final(self).view()[k] == old(self).view()[k])),
    {
        let total = pages.len();
        let mut i: usize = 0;
        while i < total
            invariant
                total == pages@.len(),
                i <= total,
                forall|a: int, b: int|
                    0 <= a < b < pages@.len() ==> #[trigger] pages@[a].0@ != #[trigger] pages@[b].0@,
                forall|j: int|
                    0 <= j < i ==> self.view().contains_key(#[trigger] pages@[j].0@)
                        && self.view()[pages@[j].0@] == page_model(pages@, j),
                forall|j: int|
                    i <= j < total ==> !self.view().contains_key(#[trigger] pages@[j].0@),
                forall|k: Seq<char>|
                    !(#[trigger] among_pages(pages@, k)) ==> ((self.view().contains_key(k)
                        <==> old(self).view().contains_key(k)) && (old(self).view().contains_key(k)
                        ==> self.view()[k] == old(self).view()[k])),
            decreases total - i,
        {
            let ghost gi = i as int;
            let ghost view0 = self.view();
            let (url, value, etag) = pages[i];
            let next: Option<&str> = if i + 1 < total {
                Some(pages[i + 1].0)
            } else {
                None
            };
            self.register(url, value, etag, Some(i + 1), next, Some(total));
            proof {
                assert(!view0.contains_key(pages@[gi].0@));
                assert(self.view() == view0.insert(pages@[gi].0@, page_model(pages@, gi)));
                assert forall|j: int|
                    0 <= j < gi + 1 implies self.view().contains_key(#[trigger] pages@[j].0@)
                    && self.view()[pages@[j].0@] == page_model(pages@, j) by {
                    if j < gi {
                        assert(pages@[j].0@ != pages@[gi].0@);
                    }
                }
                assert forall|j: int| gi + 1 <= j < total implies !self.view().contains_key(
                    #[trigger] pages@[j].0@,
                ) by {
                    assert(pages@[gi].0@ != pages@[j].0@);
                }
                assert forall|k: Seq<char>|
                    !(#[trigger] among_pages(pages@, k)) implies ((self.view().contains_key(k)
                        <==> old(self).view().contains_key(k)) && (old(self).view().contains_key(k)
                        ==> self.view()[k] == old(self).view()[k])) by {
                    assert(pages@[gi].0@ != k) by {
                        if pages@[gi].0@ == k {
                            assert(among_pages(pages@, k));
                        }
                    }
                }
            }
            i = i + 1;
        }
    }
}

/// Is `k` the url of one of the pages?
pub open spec fn among_pages(pages: Seq<(&str, &str, Option<&str>)>, k: Seq<char>) -> bool {
    exists|j: int| 0 <= j < pages.len() && #[trigger] pages[j].0@ == k
}

/// The resource that page `i` of a page list serves.
pub open spec fn page_model(pages: Seq<(&str, &str, Option<&str>)>, i: int) -> KnownModel {
    KnownModel {
        etag: match pages[i].2 {
            Some(e) => Some(e@),
            None => None,
        },
        value: pages[i].1@,
        this_page: Some((i + 1) as usize),
        next_page: if i + 1 < pages.len() {
            Some(pages[i + 1].0@)
        } else {
            None
        },
        last_page: Some(pages.len() as usize),
    }
}

impl Api for DummyApi {
    closed spec fn view(&self) -> Map<Seq<char>, KnownModel> {
        known_map(self.known@)
    }

    open spec fn obeys_model() -> bool {
        true
    }

    fn create() -> (r: Result<Self, Error>) {
        Ok(DummyApi::new())
    }

    fn get(&self, url: &str, etag: Option<&str>) -> (r: Result<Response, Error>) {
        proof {
            lemma_known_map_lookup(self.known@, url@);
        }
        match self.find(url) {
            Some(i) => {
                let resp = &self.known[i].1;
                let sent: Option<String> = match etag {
                    Some(e) => Some(e.to_owned()),
                    None => None,
                };
                let status = status_from_etags(&resp.etag, &sent);
                let headers = Headers {
                    etag: match &resp.etag {
                        Some(e) => Some(e.clone()),
                        None => None,
                    },
                    this_page: resp.this_page,
                    next_page: match &resp.next_page {
                        Some(n) => Some(n.clone()),
                        None => None,
                    },
                    last_page: resp.last_page,
                };
                Ok(
                    Response {
                        url: url.to_owned(),
                        status: status,
                        headers: headers,
                        body: resp.value.clone(),
                    },
                )
            },
            None => Err(
                Error::Transport(
                    String::from_str("the dummy endpoint knows no such url"),
                ),
            ),
        }
    }
}

} // verus!
