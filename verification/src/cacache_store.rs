//! The persistent, disk-backed cache store.
//!
//! The store keeps each entry's payload as raw UTF-8 bytes and the projected
//! headers as a JSON metadata blob, keyed by the normalized url, in a local
//! content-addressable store. What is on disk cannot be reasoned about, so
//! this implementation declares [`crate::store::Cache::obeys_model`] false and
//! the model clauses of the trait say nothing of it; the verified logic around
//! it holds for whatever its calls return.
use vstd::prelude::*;

use crate::error::Error;
use crate::headers::{Headers, HeadersView};
use crate::request::opt_str_view;
use crate::store::{Cache, EntryMeta, EntryModel, StoreModel};

verus! {

#[verifier::external_type_specification]
#[verifier::external_body]
pub struct ExPathBuf(std::path::PathBuf);

#[verifier::external_type_specification]
#[verifier::external_body]
pub struct ExValue(serde_json::Value);

/// Relies on `directories_next::ProjectDirs::from`: the platform's cache
/// directory for this application, where a home directory exists. The result
/// depends on the environment, so nothing is stated of it.
#[verifier::external_body]
fn default_cache_dir() -> (r: Option<std::path::PathBuf>) {
    directories_next::ProjectDirs::from("rocks", "tammena", "mensa")
        .map(|dirs| dirs.cache_dir().to_path_buf())
}

/// The JSON metadata blob kept beside a stored entry: a function of the four
/// header fields alone.
pub uninterp spec fn headers_json(
    etag: Option<Seq<char>>,
    this_page: Option<usize>,
    next_page: Option<Seq<char>>,
    last_page: Option<usize>,
) -> serde_json::Value;

/// Relies on serde_json's `Value` constructors: builds the JSON object
/// holding the four header fields, each absent one as `null`.
#[verifier::external_body]
fn headers_to_value(
    etag: &Option<String>,
    this_page: &Option<usize>,
    next_page: &Option<String>,
    last_page: &Option<usize>,
) -> (r: serde_json::Value)
    ensures
        r == headers_json(
            opt_str_view(*etag),
            *this_page,
            opt_str_view(*next_page),
            *last_page,
        ),
{
    let mut m = serde_json::Map::new();
    let s = |o: &Option<String>| o.clone().map(serde_json::Value::String).unwrap_or(serde_json::Value::Null);
    let n = |o: &Option<usize>| o.map(|v| serde_json::Value::from(v as u64)).unwrap_or(serde_json::Value::Null);
    m.insert("etag".to_owned(), s(etag));
    m.insert("this_page".to_owned(), n(this_page));
    m.insert("next_page".to_owned(), s(next_page));
    m.insert("last_page".to_owned(), n(last_page));
    serde_json::Value::Object(m)
}

/// Relies on serde_json's `Value::get` and `Value::as_str`: the named field of
/// a JSON object, where it holds text. On a metadata blob this store built,
/// the text fields come back as they were stored.
#[verifier::external_body]
fn value_field_str(v: &serde_json::Value, name: &str) -> (r: Option<String>)
    ensures
        forall|e: Option<Seq<char>>, t: Option<usize>, np: Option<Seq<char>>, l: Option<usize>|
            #[trigger] headers_json(e, t, np, l) == *v ==> (name@ == "etag"@ ==> opt_str_view(r)
                == e) && (name@ == "next_page"@ ==> opt_str_view(r) == np),
{
    v.get(name).and_then(|f| f.as_str()).map(|s| s.to_owned())
}

/// Relies on serde_json's `Value::get` and `Value::as_u64`: the named field of
/// a JSON object, where it holds an unsigned number. On a metadata blob this
/// store built, the page counters come back as they were stored.
#[verifier::external_body]
fn value_field_u64(v: &serde_json::Value, name: &str) -> (r: Option<u64>)
    ensures
        forall|e: Option<Seq<char>>, t: Option<usize>, np: Option<Seq<char>>, l: Option<usize>|
            #[trigger] headers_json(e, t, np, l) == *v ==> (name@ == "this_page"@ ==> r == match t {
                Some(x) => Some(x as u64),
                None => None,
            }) && (name@ == "last_page"@ ==> r == match l {
                Some(x) => Some(x as u64),
                None => None,
            }),
{
    v.get(name).and_then(|f| f.as_u64())
}

/// Relies on `cacache::WriteOpts::open_sync`, `write_all` and `commit`:
/// persists `text` under `url` in the store at `dir`, with `meta` attached as
/// the entry's metadata and the entry's timestamp taken from the system clock.
#[verifier::external_body]
fn cacache_write(
    dir: &std::path::PathBuf,
    url: &str,
    text: &str,
    meta: serde_json::Value,
) -> (r: Result<(), Error>) {
    let mut writer = cacache::WriteOpts::new()
        .metadata(meta)
        .open_sync(dir, url)
        .map_err(|why| Error::Cache(why.to_string(), "opening for write"))?;
    std::io::Write::write_all(&mut writer, text.as_bytes())
        .map_err(|why| Error::Io(why.to_string(), "writing value"))?;
    writer.commit().map_err(|why| Error::Cache(why.to_string(), "committing write"))?;
    Ok(())
}

/// Relies on `cacache::read_sync`: the bytes stored under the key at `dir`.
/// Every failure is a store failure, reported as a cache error.
#[verifier::external_body]
fn cacache_read(dir: &std::path::PathBuf, key: &str) -> (r: Result<Vec<u8>, Error>)
    ensures
        r matches Err(e) ==> e matches Error::Cache(_, _),
{
    cacache::read_sync(dir, key).map_err(|why| Error::Cache(why.to_string(), "reading value"))
}

/// Relies on `String::from_utf8`: the bytes decoded as UTF-8 text, or the
/// distinct decoding error, never anything else.
#[verifier::external_body]
fn utf8_decode(bytes: Vec<u8>) -> (r: Result<String, Error>)
    ensures
        r matches Err(e) ==> e == Error::DecodingUtf8,
{
    String::from_utf8(bytes).map_err(|_| Error::DecodingUtf8)
}

/// Relies on `cacache::metadata_sync`: the index entry stored under the key,
/// reduced to its key, timestamp in milliseconds, size, and metadata value.
/// The returned entry's key is the requested one: the index lookup filters on
/// key equality.
#[verifier::external_body]
fn cacache_meta(dir: &std::path::PathBuf, url: &str) -> (r: Result<
    Option<(String, u64, usize, serde_json::Value)>,
    Error,
>)
    ensures
        r matches Ok(Some(m)) ==> m.0@ == url@,
{
    match cacache::metadata_sync(dir, url) {
        Ok(Some(m)) => Ok(Some((m.key, m.time as u64, m.size, m.metadata))),
        Ok(None) => Ok(None),
        Err(why) => Err(Error::Cache(why.to_string(), "reading metadata")),
    }
}

/// Relies on `cacache::clear_sync`: removes every entry of the store at `dir`.
#[verifier::external_body]
fn cacache_clear(dir: &std::path::PathBuf) -> (r: Result<(), Error>) {
    cacache::clear_sync(dir).map_err(|why| Error::Cache(why.to_string(), "clearing"))
}

/// Relies on `cacache::list_sync`: every index entry of the store at `dir`,
/// each reduced to its key, timestamp in milliseconds, size, and metadata
/// value. Exposure: cacache's listing unwraps each index line's integrity
/// field after checking the line's own hash, so an index file edited by hand
/// into a hash-consistent line with an unparseable integrity field makes this
/// call abort; the per-key lookups tolerate such a line. Listing is a
/// diagnostic; the store offers no other way to enumerate keys.
#[verifier::external_body]
fn cacache_list(dir: &std::path::PathBuf) -> (r: Result<
    Vec<(String, u64, usize, serde_json::Value)>,
    Error,
>) {
    let mut out = Vec::new();
    for item in cacache::list_sync(dir) {
        let m = item.map_err(|why| Error::Cache(why.to_string(), "listing"))?;
        out.push((m.key, m.time as u64, m.size, m.metadata));
    }
    Ok(out)
}

/// Clamp a stored counter into a `usize`, absent when it does not fit.
fn u64_field_to_usize(o: Option<u64>) -> (r: Option<usize>)
    ensures
        match o {
            Some(v) => r == (if v <= usize::MAX {
                Some(v as usize)
            } else {
                None::<usize>
            }),
            None => r is None,
        },
{
    match o {
        Some(v) => {
            if v <= usize::MAX as u64 {
                Some(v as usize)
            } else {
                None
            }
        },
        None => None,
    }
}

/// The typed headers stored in an entry's JSON metadata blob. A blob this
/// store built decodes to the headers it was built from.
fn headers_from_value(v: &serde_json::Value) -> (h: Headers)
    ensures
        forall|e: Option<Seq<char>>, t: Option<usize>, np: Option<Seq<char>>, l: Option<usize>|
            #[trigger] headers_json(e, t, np, l) == *v ==> h@ == (HeadersView {
                etag: e,
                this_page: t,
                next_page: np,
                last_page: l,
            }),
{
    let h = Headers {
        etag: value_field_str(v, "etag"),
        this_page: u64_field_to_usize(value_field_u64(v, "this_page")),
        next_page: value_field_str(v, "next_page"),
        last_page: u64_field_to_usize(value_field_u64(v, "last_page")),
    };
    proof {
        assert forall|e: Option<Seq<char>>, t: Option<usize>, np: Option<Seq<char>>, l: Option<
            usize,
        >| #[trigger] headers_json(e, t, np, l) == *v implies h@ == (HeadersView {
            etag: e,
            this_page: t,
            next_page: np,
            last_page: l,
        }) by {
            match t {
                Some(x) => {
                    assert(x as u64 <= usize::MAX as u64);
                },
                None => {},
            }
            match l {
                Some(x) => {
                    assert(x as u64 <= usize::MAX as u64);
                },
                None => {},
            }
        }
    }
    h
}

/// The round trip of the persisted metadata format: the JSON blob built from
/// headers decodes back to an equivalent headers value.
pub fn metadata_round_trip(h: &Headers) -> (r: Headers)
    ensures
        r@ == h@,
{
    let value = headers_to_value(&h.etag, &h.this_page, &h.next_page, &h.last_page);
    headers_from_value(&value)
}

/// The persistent cache store, rooted at a directory on local disk.
pub struct Cacache {
    dir: std::path::PathBuf,
}

impl Cacache {
    /// A store rooted at `dir`.
    pub fn at_dir(dir: std::path::PathBuf) -> (r: Cacache) {
        Cacache { dir }
    }
}

impl Cache for Cacache {
    closed spec fn view(&self) -> StoreModel {
        Map::empty()
    }

    closed spec fn obeys_model() -> bool {
        false
    }

    fn init() -> (r: Result<Self, Error>) {
        match default_cache_dir() {
            Some(dir) => Ok(Cacache::at_dir(dir)),
            None => Err(
                Error::Cache(
                    String::from_str("no home directory was found"),
                    "locating the cache directory",
                ),
            ),
        }
    }

    fn write(&mut self, headers: &Headers, url: &str, text: &str, now_ms: u64) -> (r: Result<
        (),
        Error,
    >) {
        // The disk store stamps entries with the system clock itself.
        let meta = headers_to_value(
            &headers.etag,
            &headers.this_page,
            &headers.next_page,
            &headers.last_page,
        );
        cacache_write(&self.dir, url, text, meta)
    }

    fn read(&self, meta: &EntryMeta) -> (r: Result<String, Error>) {
        let bytes = cacache_read(&self.dir, meta.key.as_str())?;
        utf8_decode(bytes)
    }

    fn meta(&self, url: &str) -> (r: Result<Option<EntryMeta>, Error>) {
        match cacache_meta(&self.dir, url)? {
            Some((key, time, size, value)) => {
                let headers = headers_from_value(&value);
                Ok(Some(EntryMeta { key, time, size, headers }))
            },
            None => Ok(None),
        }
    }

    fn clear(&mut self) -> (r: Result<(), Error>) {
        cacache_clear(&self.dir)
    }

    fn list(&self) -> (r: Result<Vec<EntryMeta>, Error>) {
        let raw = cacache_list(&self.dir)?;
        let mut metas: Vec<EntryMeta> = Vec::new();
        let mut i: usize = 0;
        let n = raw.len();
        while i < n
            invariant
                n == raw@.len(),
                i <= n,
            decreases n - i,
        {
            let (key, time, size, value) = &raw[i];
            let headers = headers_from_value(value);
            metas.push(EntryMeta { key: key.clone(), time: *time, size: *size, headers });
            i = i + 1;
        }
        Ok(metas)
    }
}

} // verus!
