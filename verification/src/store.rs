//! The cache store: its mathematical model, the capability trait, and a
//! verified in-memory implementation.
use vstd::prelude::*;

use crate::error::Error;
use crate::headers::{Headers, HeadersView};

verus! {

/// The model of one stored cache entry.
pub struct EntryModel {
    /// The textual payload.
    pub text: Seq<char>,
    /// The response headers stored beside the payload.
    pub headers: HeadersView,
    /// When the entry was written, in milliseconds since the epoch.
    pub time: u64,
    /// The length of the payload.
    pub size: nat,
}

/// A reference to a cache entry: everything about it except the payload.
#[derive(Debug, PartialEq)]
pub struct EntryMeta {
    /// The key the entry is stored under.
    pub key: String,
    /// When the entry was written, in milliseconds since the epoch.
    pub time: u64,
    /// The length of the payload.
    pub size: usize,
    /// The response headers stored beside the payload.
    pub headers: Headers,
}

impl Clone for EntryMeta {
    fn clone(&self) -> (r: Self)
        ensures
            r == *self,
    {
        EntryMeta {
            key: self.key.clone(),
            time: self.time,
            size: self.size,
            headers: self.headers.clone(),
        }
    }
}

/// Whether `meta` describes the entry `e` stored under `key`.
pub open spec fn meta_matches(meta: EntryMeta, key: Seq<char>, e: EntryModel) -> bool {
    &&& meta.key@ == key
    &&& meta.time == e.time
    &&& meta.size as nat == e.size
    &&& meta.headers@ == e.headers
}

/// The model of a whole store: a map from keys to entries.
pub type StoreModel = Map<Seq<char>, EntryModel>;

/// The entry that a write of `text` under `key` with `headers` at `now_ms`
/// leaves in the store.
pub open spec fn written_entry(text: Seq<char>, headers: HeadersView, now_ms: u64) -> EntryModel {
    EntryModel { text: text, headers: headers, time: now_ms, size: text.len() }
}

/// The store after a write: the entry under `key` is replaced, all others stay.
pub open spec fn write_model(
    m: StoreModel,
    key: Seq<char>,
    text: Seq<char>,
    headers: HeadersView,
    now_ms: u64,
) -> StoreModel {
    m.insert(key, written_entry(text, headers, now_ms))
}

/// All keys but `key` are bound in `m1` exactly as in `m0`.
pub open spec fn unchanged_except(m0: StoreModel, m1: StoreModel, key: Seq<char>) -> bool {
    forall|k: Seq<char>|
        k != key ==> (m0.contains_key(k) <==> m1.contains_key(k)) && (m0.contains_key(k)
            ==> m1[k] == m0[k])
}

/// The capability interface of a cache store.
///
/// The orchestrator is generic over this trait; a verified in-memory store and
/// a persistent, disk-backed store implement it. Every behavioral clause is
/// conditioned on [`Cache::obeys_model`]: the in-memory store proves them,
/// while the disk-backed store (whose behavior depends on what is on disk and
/// is outside what can be verified) sets the flag to false and promises
/// nothing.
pub trait Cache: Sized {
    /// The store's current contents, as a map from keys to entries.
    spec fn view(&self) -> StoreModel;

    /// Whether this implementation proves the model clauses below.
    spec fn obeys_model() -> bool;

    /// Create the store.
    fn init() -> (r: Result<Self, Error>);

    /// Persist `text` under `url` with the attached `headers`; a store that
    /// obeys the model stamps the entry `now_ms`, the disk-backed store uses
    /// its own clock. Overwrites any prior entry under the same key.
    fn write(&mut self, headers: &Headers, url: &str, text: &str, now_ms: u64) -> (r: Result<
        (),
        Error,
    >)
        ensures
            Self::obeys_model() ==> unchanged_except(old(self).view(), final(self).view(), url@),
            Self::obeys_model() && r is Ok ==> final(self).view() == write_model(
                old(self).view(),
                url@,
                text@,
                headers@,
                now_ms,
            ),
            Self::obeys_model() ==> r is Ok,
    ;

    /// Read the payload that `meta` points to.
    fn read(&self, meta: &EntryMeta) -> (r: Result<String, Error>)
        ensures
            Self::obeys_model() ==> (r matches Ok(text) ==> self.view().contains_key(meta.key@)
                && self.view()[meta.key@].text == text@),
            Self::obeys_model() && self.view().contains_key(meta.key@) ==> r is Ok,
    ;

    /// Look up the entry metadata stored under `url`, without reading the
    /// payload.
    fn meta(&self, url: &str) -> (r: Result<Option<EntryMeta>, Error>)
        ensures
            Self::obeys_model() ==> match r {
                Ok(Some(meta)) => self.view().contains_key(url@) && meta_matches(
                    meta,
                    url@,
                    self.view()[url@],
                ),
                Ok(None) => !self.view().contains_key(url@),
                Err(_) => true,
            },
            r matches Ok(Some(meta)) ==> meta.key@ == url@,
            Self::obeys_model() ==> r is Ok,
    ;

    /// Remove all entries.
    fn clear(&mut self) -> (r: Result<(), Error>)
        ensures
            Self::obeys_model() && r is Ok ==> final(self).view() == Map::<
                Seq<char>,
                EntryModel,
            >::empty(),
            Self::obeys_model() ==> r is Ok,
    ;

    /// List the metadata of every entry.
    fn list(&self) -> (r: Result<Vec<EntryMeta>, Error>)
        ensures
            Self::obeys_model() ==> (r matches Ok(metas) ==> list_matches(self.view(), metas@)),
            Self::obeys_model() ==> r is Ok,
    ;
}

/// `metas` lists exactly the entries of `m`, one per key.
pub open spec fn list_matches(m: StoreModel, metas: Seq<EntryMeta>) -> bool {
    &&& forall|i: int|
        0 <= i < metas.len() ==> m.contains_key(#[trigger] metas[i].key@) && meta_matches(
            metas[i],
            metas[i].key@,
            m[metas[i].key@],
        )
    &&& forall|k: Seq<char>|
        m.contains_key(k) ==> exists|i: int| 0 <= i < metas.len() && #[trigger] metas[i].key@ == k
    &&& forall|i: int, j: int|
        0 <= i < j < metas.len() ==> #[trigger] metas[i].key@ != #[trigger] metas[j].key@
}

/// One entry of the in-memory store.
struct MemEntry {
    key: String,
    text: String,
    headers: Headers,
    time: u64,
}

/// The model of one in-memory entry.
spec fn entry_model(e: MemEntry) -> EntryModel {
    EntryModel { text: e.text@, headers: e.headers@, time: e.time, size: e.text@.len() }
}

/// The map that a sequence of in-memory entries denotes; later entries win.
spec fn entries_map(s: Seq<MemEntry>) -> StoreModel
    decreases s.len(),
{
    if s.len() == 0 {
        Map::empty()
    } else {
        entries_map(s.drop_last()).insert(s.last().key@, entry_model(s.last()))
    }
}

/// No two entries share a key.
spec fn unique_keys(s: Seq<MemEntry>) -> bool {
    forall|i: int, j: int| 0 <= i < j < s.len() ==> #[trigger] s[i].key@ != #[trigger] s[j].key@
}

/// With unique keys, each entry is bound in the map, and every key of the map
/// comes from some entry.
proof fn lemma_entries_map(s: Seq<MemEntry>)
    requires
        unique_keys(s),
    ensures
        forall|i: int|
            0 <= i < s.len() ==> entries_map(s).contains_key(#[trigger] s[i].key@) && entries_map(
                s,
            )[s[i].key@] == entry_model(s[i]),
        forall|k: Seq<char>|
            entries_map(s).contains_key(k) ==> exists|i: int|
                0 <= i < s.len() && #[trigger] s[i].key@ == k,
    decreases s.len(),
{
    if s.len() > 0 {
        let d = s.drop_last();
        assert(unique_keys(d));
        lemma_entries_map(d);
        assert forall|i: int| 0 <= i < s.len() implies entries_map(s).contains_key(
            #[trigger] s[i].key@,
        ) && entries_map(s)[s[i].key@] == entry_model(s[i]) by {
            if i < s.len() - 1 {
                assert(d[i] == s[i]);
                assert(s[i].key@ != s.last().key@);
            }
        }
        assert forall|k: Seq<char>| entries_map(s).contains_key(k) implies exists|i: int|
            0 <= i < s.len() && #[trigger] s[i].key@ == k by {
            if k == s.last().key@ {
                assert(s[s.len() - 1].key@ == k);
            } else {
                let i = choose|i: int| 0 <= i < d.len() && #[trigger] d[i].key@ == k;
                assert(s[i].key@ == k);
            }
        }
    }
}

/// Updating the entry at `i` with one of the same key updates the map at that
/// key alone.
proof fn lemma_entries_map_update(s: Seq<MemEntry>, i: int, e: MemEntry)
    requires
        unique_keys(s),
        0 <= i < s.len(),
        e.key@ == s[i].key@,
    ensures
        entries_map(s.update(i, e)) =~= entries_map(s).insert(e.key@, entry_model(e)),
    decreases s.len(),
{
    let t = s.update(i, e);
    if i == s.len() - 1 {
        assert(t.drop_last() =~= s.drop_last());
        assert(t.last() == e);
        assert(entries_map(s).insert(e.key@, entry_model(e)) =~= entries_map(
            s.drop_last(),
        ).insert(s.last().key@, entry_model(s.last())).insert(e.key@, entry_model(e)));
    } else {
        assert(t.drop_last() =~= s.drop_last().update(i, e));
        assert(t.last() == s.last());
        assert(unique_keys(s.drop_last()));
        assert(s.drop_last()[i] == s[i]);
        lemma_entries_map_update(s.drop_last(), i, e);
        // the two inserts commute because the keys differ
        assert(s[i].key@ != s.last().key@);
    }
}

/// The verified in-memory cache store, used for deterministic tests and as the
/// reference implementation of [`Cache`].
pub struct MemCache {
    entries: Vec<MemEntry>,
}

impl MemCache {
    /// Do the entries of this store have pairwise distinct keys?
    #[verifier::type_invariant]
    spec fn wf(&self) -> bool {
        unique_keys(self.entries@)
    }

    /// An empty store.
    pub fn new() -> (r: MemCache)
        ensures
            r.view() == Map::<Seq<char>, EntryModel>::empty(),
    {
        MemCache { entries: Vec::new() }
    }

    /// The index of the entry stored under `url`, if any.
    fn find(&self, url: &str) -> (r: Option<usize>)
        ensures
            match r {
                Some(i) => i < self.entries@.len() && self.entries@[i as int].key@ == url@,
                None => forall|i: int|
                    0 <= i < self.entries@.len() ==> self.entries@[i].key@ != url@,
            },
    {
        let target = url.to_owned();
        let n = self.entries.len();
        let mut i: usize = 0;
        while i < n
            invariant
                target@ == url@,
                n == self.entries@.len(),
                i <= n,
                forall|j: int| 0 <= j < i ==> self.entries@[j].key@ != url@,
            decreases n - i,
        {
            if self.entries[i].key == target {
                return Some(i);
            }
            i = i + 1;
        }
        None
    }
}

impl Cache for MemCache {
    closed spec fn view(&self) -> StoreModel {
        entries_map(self.entries@)
    }

    open spec fn obeys_model() -> bool {
        true
    }

    fn init() -> (r: Result<Self, Error>) {
        Ok(MemCache::new())
    }

    fn write(&mut self, headers: &Headers, url: &str, text: &str, now_ms: u64) -> (r: Result<
        (),
        Error,
    >) {
        proof {
            use_type_invariant(&*self);
        }
        let entry = MemEntry {
            key: url.to_owned(),
            text: text.to_owned(),
            headers: headers.clone(),
            time: now_ms,
        };
        let idx = self.find(url);
        let mut v: Vec<MemEntry> = Vec::new();
        core::mem::swap(&mut self.entries, &mut v);
        let ghost s0 = v@;
        match idx {
            Some(i) => {
                proof {
                    lemma_entries_map_update(s0, i as int, entry);
                    assert forall|a: int, b: int|
                        0 <= a < b < s0.update(i as int, entry).len() implies #[trigger] s0.update(
                        i as int,
                        entry,
                    )[a].key@ != #[trigger] s0.update(i as int, entry)[b].key@ by {
                        assert(s0[a].key@ != s0[b].key@);
                    }
                }
                v.set(i, entry);
            },
            None => {
                v.push(entry);
                proof {
                    assert(v@.drop_last() =~= s0);
                }
            },
        }
        core::mem::swap(&mut self.entries, &mut v);
        Ok(())
    }

    fn read(&self, meta: &EntryMeta) -> (r: Result<String, Error>) {
        proof {
            use_type_invariant(&*self);
            lemma_entries_map(self.entries@);
        }
        match self.find(meta.key.as_str()) {
            Some(i) => Ok(self.entries[i].text.clone()),
            None => Err(
                Error::Cache(String::from_str("entry is gone"), "reading the in-memory store"),
            ),
        }
    }

    fn meta(&self, url: &str) -> (r: Result<Option<EntryMeta>, Error>) {
        proof {
            use_type_invariant(&*self);
            lemma_entries_map(self.entries@);
        }
        match self.find(url) {
            Some(i) => {
                let e = &self.entries[i];
                Ok(
                    Some(
                        EntryMeta {
                            key: e.key.clone(),
                            time: e.time,
                            size: e.text.unicode_len(),
                            headers: e.headers.clone(),
                        },
                    ),
                )
            },
            None => Ok(None),
        }
    }

    fn clear(&mut self) -> (r: Result<(), Error>) {
        let mut v: Vec<MemEntry> = Vec::new();
        core::mem::swap(&mut self.entries, &mut v);
        Ok(())
    }

    fn list(&self) -> (r: Result<Vec<EntryMeta>, Error>) {
        proof {
            use_type_invariant(&*self);
            lemma_entries_map(self.entries@);
        }
        let n = self.entries.len();
        let mut metas: Vec<EntryMeta> = Vec::new();
        let mut i: usize = 0;
        while i < n
            invariant
                n == self.entries@.len(),
                i <= n,
                unique_keys(self.entries@),
                metas@.len() == i,
                forall|j: int|
                    0 <= j < i ==> #[trigger] metas@[j].key@ == self.entries@[j].key@
                        && meta_matches(
                        metas@[j],
                        self.entries@[j].key@,
                        entries_map(self.entries@)[self.entries@[j].key@],
                    ),
            decreases n - i,
        {
            proof {
                lemma_entries_map(self.entries@);
            }
            let e = &self.entries[i];
            metas.push(
                EntryMeta {
                    key: e.key.clone(),
                    time: e.time,
                    size: e.text.unicode_len(),
                    headers: e.headers.clone(),
                },
            );
            i = i + 1;
        }
        proof {
            assert forall|k: Seq<char>| entries_map(self.entries@).contains_key(k) implies exists|
                j: int,
            | 0 <= j < metas@.len() && #[trigger] metas@[j].key@ == k by {
                let j = choose|j: int|
                    0 <= j < self.entries@.len() && #[trigger] self.entries@[j].key@ == k;
                assert(metas@[j].key@ == k);
            }
        }
        Ok(metas)
    }
}

} // verus!
