//! The typed subset of transport response metadata that the cache keeps.
use vstd::prelude::*;

use crate::key::{find_char_from, find_char_from_x, sub_vec};
use crate::textops::{
    chars_of, is_match_at, lower_chars, lower_seq, match_at, parse_usize, parse_usize_spec,
    string_from_chars,
};

verus! {

/// The mathematical value of a [`Headers`]: every text field as a sequence of
/// characters.
pub struct HeadersView {
    pub etag: Option<Seq<char>>,
    pub this_page: Option<usize>,
    pub next_page: Option<Seq<char>>,
    pub last_page: Option<usize>,
}

/// Assortment of response headers relevant to the cache and to pagination.
///
/// All fields are independently optional; absence means "unknown".
#[derive(Debug, PartialEq)]
pub struct Headers {
    /// The validator token of the resource, from `ETag`.
    pub etag: Option<String>,
    /// The page this response belongs to, from `x-current-page`.
    pub this_page: Option<usize>,
    /// The url of the next page, from the `Link` header.
    pub next_page: Option<String>,
    /// The number of the last page, from `x-total-pages`.
    pub last_page: Option<usize>,
}

impl View for Headers {
    type V = HeadersView;

    open spec fn view(&self) -> HeadersView {
        HeadersView {
            etag: match self.etag {
                Some(ref e) => Some(e@),
                None => None,
            },
            this_page: self.this_page,
            next_page: match self.next_page {
                Some(ref n) => Some(n@),
                None => None,
            },
            last_page: self.last_page,
        }
    }
}

impl Clone for Headers {
    fn clone(&self) -> (r: Self)
        ensures
            r == *self,
    {
        Headers {
            etag: match &self.etag {
                Some(e) => Some(e.clone()),
                None => None,
            },
            this_page: self.this_page,
            next_page: match &self.next_page {
                Some(n) => Some(n.clone()),
                None => None,
            },
            last_page: self.last_page,
        }
    }
}

impl Headers {
    /// Headers with every field unknown.
    pub fn unknown() -> (h: Headers)
        ensures
            h@ == (HeadersView { etag: None, this_page: None, next_page: None, last_page: None }),
    {
        Headers { etag: None, this_page: None, next_page: None, last_page: None }
    }
}

/// The first header value whose name, lowered to lower case, equals `name`.
pub open spec fn lookup_header(pairs: Seq<(Seq<char>, Seq<char>)>, name: Seq<char>) -> Option<
    Seq<char>,
>
    decreases pairs.len(),
{
    if pairs.len() == 0 {
        None
    } else if lower_seq(pairs[0].0) == name {
        Some(pairs[0].1)
    } else {
        lookup_header(pairs.drop_first(), name)
    }
}

/// The views of a sequence of header pairs.
pub open spec fn pairs_view(s: Seq<(String, String)>) -> Seq<(Seq<char>, Seq<char>)> {
    s.map_values(|p: (String, String)| (p.0@, p.1@))
}

/// What follows the url in a next-page link: `>; rel="next"`.
pub open spec fn link_marker() -> Seq<char> {
    seq!['>', ';', ' ', 'r', 'e', 'l', '=', '"', 'n', 'e', 'x', 't', '"']
}

/// The url of the first next-page link at or after `i`: the text between a
/// `<` and the first `>` after it, provided that `>` opens the marker
/// `>; rel="next"`. Scanning goes on behind a `<` whose `>` does not; it ends
/// where no `>` remains.
pub open spec fn link_next_from(s: Seq<char>, i: int) -> Option<Seq<char>>
    recommends
        0 <= i,
    decreases s.len() - i,
{
    if i < 0 || i >= s.len() {
        None
    } else if s[i] == '<' {
        match find_char_from(s, i + 1, '>') {
            Some(j) => {
                if i < j && is_match_at(s, link_marker(), j) {
                    Some(s.subrange(i + 1, j))
                } else {
                    link_next_from(s, i + 1)
                }
            },
            None => None,
        }
    } else {
        link_next_from(s, i + 1)
    }
}

/// The url of the first next-page link in `s`, if any.
pub open spec fn link_next_spec(s: Seq<char>) -> Option<Seq<char>> {
    link_next_from(s, 0)
}

/// Executable [`link_next_spec`].
fn link_next(v: &Vec<char>) -> (r: Option<String>)
    ensures
        match r {
            Some(t) => link_next_spec(v@) == Some(t@),
            None => link_next_spec(v@) is None,
        },
{
    let marker: Vec<char> = vec!['>', ';', ' ', 'r', 'e', 'l', '=', '"', 'n', 'e', 'x', 't', '"'];
    proof {
        assert(marker@ =~= link_marker());
    }
    let n = v.len();
    let mut i: usize = 0;
    while i < n
        invariant
            n == v@.len(),
            i <= n,
            marker@ == link_marker(),
            link_next_from(v@, 0) == link_next_from(v@, i as int),
        decreases n - i,
    {
        if v[i] == '<' {
            match find_char_from_x(v, i + 1, '>') {
                Some(j) => {
                    let fits = n - j >= marker.len();
                    if fits && match_at(v, &marker, j) {
                        let cap = sub_vec(v, i + 1, j);
                        return Some(string_from_chars(&cap));
                    }
                },
                None => {
                    return None;
                },
            }
        }
        i = i + 1;
    }
    None
}

/// A found value parsed as a page number; absent stays absent.
pub open spec fn opt_page(o: Option<Seq<char>>) -> Option<usize> {
    match o {
        Some(v) => parse_usize_spec(v),
        None => None,
    }
}

/// A found link header reduced to its next-page url; absent stays absent.
pub open spec fn opt_link(o: Option<Seq<char>>) -> Option<Seq<char>> {
    match o {
        Some(v) => link_next_spec(v),
        None => None,
    }
}

/// What projecting raw header pairs yields: the `etag` value as given, the two
/// page counters integer-parsed, and the next-page url extracted from the
/// `link` header; every field absent when its header is missing or
/// unparseable. Header names match regardless of ASCII case.
pub open spec fn project_spec(pairs: Seq<(Seq<char>, Seq<char>)>) -> HeadersView {
    HeadersView {
        etag: lookup_header(pairs, "etag"@),
        this_page: opt_page(lookup_header(pairs, "x-current-page"@)),
        next_page: opt_link(lookup_header(pairs, "link"@)),
        last_page: opt_page(lookup_header(pairs, "x-total-pages"@)),
    }
}

/// Are these character vectors equal?
fn eq_chars(a: &Vec<char>, b: &Vec<char>) -> (r: bool)
    ensures
        r == (a@ == b@),
{
    let n = a.len();
    if n != b.len() {
        return false;
    }
    let mut i: usize = 0;
    while i < n
        invariant
            n == a@.len(),
            n == b@.len(),
            i <= n,
            forall|j: int| 0 <= j < i ==> a@[j] == b@[j],
        decreases n - i,
    {
        if a[i] != b[i] {
            return false;
        }
        i = i + 1;
    }
    proof {
        assert(a@ =~= b@);
    }
    true
}

/// Does `name`, lowered to lower case, equal the (lower-case) `target`?
fn eq_lower(name: &String, target: &str) -> (r: bool)
    ensures
        r == (lower_seq(name@) == target@),
{
    let nc = chars_of(name.as_str());
    let lowered = lower_chars(&nc);
    let tc = chars_of(target);
    eq_chars(&lowered, &tc)
}

/// The first header value under `name`, matching names case-insensitively.
fn lookup_x(pairs: &Vec<(String, String)>, name: &str) -> (r: Option<String>)
    ensures
        match r {
            Some(v) => lookup_header(pairs_view(pairs@), name@) == Some(v@),
            None => lookup_header(pairs_view(pairs@), name@) is None,
        },
{
    let n = pairs.len();
    let mut i: usize = 0;
    proof {
        assert(pairs_view(pairs@).skip(0) =~= pairs_view(pairs@));
    }
    while i < n
        invariant
            n == pairs@.len(),
            i <= n,
            lookup_header(pairs_view(pairs@), name@) == lookup_header(
                pairs_view(pairs@).skip(i as int),
                name@,
            ),
        decreases n - i,
    {
        proof {
            assert(pairs_view(pairs@).skip(i as int)[0] == pairs_view(pairs@)[i as int]);
            assert(pairs_view(pairs@).skip(i as int).drop_first() =~= pairs_view(pairs@).skip(
                i as int + 1,
            ));
        }
        if eq_lower(&pairs[i].0, name) {
            return Some(pairs[i].1.clone());
        }
        i = i + 1;
    }
    None
}

impl Headers {
    /// Project raw response header pairs into the typed subset the cache
    /// keeps. Purely best-effort: an unparseable or missing field degrades to
    /// absent, never to an error.
    pub fn project(pairs: &Vec<(String, String)>) -> (h: Headers)
        ensures
            h@ == project_spec(pairs_view(pairs@)),
    {
        let etag = lookup_x(pairs, "etag");
        let this_page = match lookup_x(pairs, "x-current-page") {
            Some(v) => parse_usize(&chars_of(v.as_str())),
            None => None,
        };
        let next_page = match lookup_x(pairs, "link") {
            Some(v) => link_next(&chars_of(v.as_str())),
            None => None,
        };
        let last_page = match lookup_x(pairs, "x-total-pages") {
            Some(v) => parse_usize(&chars_of(v.as_str())),
            None => None,
        };
        Headers { etag, this_page, next_page, last_page }
    }
}

} // verus!
