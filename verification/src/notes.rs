//! Free-text notes of a meal, split into recognized tags and descriptions.
use vstd::prelude::*;

use crate::tag::{folded, tag_id, tag_matches, Tag};

verus! {

/// One note: either a recognized tag, or a free-text description.
#[derive(Debug, PartialEq)]
pub enum Note {
    /// The note carries a recognized tag.
    Tag(Tag),
    /// The note is a plain description.
    Desc(String),
}

/// Does any tag match the case-folded note `f`?
pub open spec fn any_tag_matches(f: Seq<char>) -> bool {
    exists|t: Tag| tag_matches(t, f)
}

impl Note {
    /// Parse a note: the tags it carries, in the enum's order, or the note
    /// itself as a description when it carries none.
    pub fn parse_str(raw: &str) -> (r: Vec<Note>)
        ensures
            forall|t: Tag| r@.contains(Note::Tag(t)) <==> tag_matches(t, folded(raw@)),
            any_tag_matches(folded(raw@)) ==> forall|i: int| 0 <= i < r@.len() ==> r@[i] is Tag,
            !any_tag_matches(folded(raw@)) ==> r@.len() == 1 && (r@[0] matches Note::Desc(d) && d@
                == raw@),
    {
        let tags = Tag::parse_str(raw);
        if tags.len() == 0 {
            let mut r: Vec<Note> = Vec::new();
            r.push(Note::Desc(raw.to_owned()));
            proof {
                assert forall|t: Tag| !r@.contains(Note::Tag(t)) by {
                    if r@.contains(Note::Tag(t)) {
                        let k = choose|k: int| 0 <= k < r@.len() && r@[k] == Note::Tag(t);
                        assert(r@[0] is Desc);
                    }
                }
                assert forall|t: Tag| !tag_matches(t, folded(raw@)) by {
                    if tag_matches(t, folded(raw@)) {
                        assert(tags@.contains(t));
                    }
                }
            }
            r
        } else {
            let n = tags.len();
            let mut r: Vec<Note> = Vec::new();
            let mut i: usize = 0;
            while i < n
                invariant
                    n == tags@.len(),
                    i <= n,
                    r@.len() == i,
                    forall|j: int| 0 <= j < i ==> r@[j] == Note::Tag(tags@[j]),
                decreases n - i,
            {
                r.push(Note::Tag(tags[i]));
                i = i + 1;
            }
            proof {
                assert forall|t: Tag| r@.contains(Note::Tag(t)) <==> tag_matches(
                    t,
                    folded(raw@),
                ) by {
                    if r@.contains(Note::Tag(t)) {
                        let k = choose|k: int| 0 <= k < r@.len() && r@[k] == Note::Tag(t);
                        assert(tags@[k] == t);
                        assert(tags@.contains(t));
                    }
                    if tag_matches(t, folded(raw@)) {
                        assert(tags@.contains(t));
                        let k = choose|k: int| 0 <= k < tags@.len() && tags@[k] == t;
                        assert(r@[k] == Note::Tag(t));
                        assert(r@.contains(Note::Tag(t)));
                    }
                }
                assert(tags@.contains(tags@[0]));
                assert(any_tag_matches(folded(raw@)));
            }
            r
        }
    }
}

/// Is the tag `t` an element of `v`?
pub fn contains_tag(v: &Vec<Tag>, t: Tag) -> (r: bool)
    ensures
        r == v@.contains(t),
{
    let n = v.len();
    let mut i: usize = 0;
    while i < n
        invariant
            n == v@.len(),
            i <= n,
            forall|j: int| 0 <= j < i ==> v@[j] != t,
        decreases n - i,
    {
        if v[i] == t {
            proof {
                assert(v@.contains(t)) by {
                    assert(v@[i as int] == t);
                }
            }
            return true;
        }
        i = i + 1;
    }
    proof {
        if v@.contains(t) {
            let k = choose|k: int| 0 <= k < v@.len() && v@[k] == t;
        }
    }
    false
}

/// Does `v` hold a string whose characters equal `s`?
fn contains_string(v: &Vec<String>, s: &String) -> (r: bool)
    ensures
        r == (exists|j: int| 0 <= j < v@.len() && #[trigger] v@[j]@ == s@),
{
    let n = v.len();
    let mut i: usize = 0;
    while i < n
        invariant
            n == v@.len(),
            i <= n,
            forall|j: int| 0 <= j < i ==> #[trigger] v@[j]@ != s@,
        decreases n - i,
    {
        if v[i] == *s {
            return true;
        }
        i = i + 1;
    }
    false
}

/// Does some of the first `upto` notes, case folded, carry the tag `t`?
pub open spec fn note_matching(notes: Seq<String>, upto: int, t: Tag) -> bool {
    exists|k: int| 0 <= k < upto && tag_matches(t, folded(#[trigger] notes[k]@))
}

/// Does `ds` hold a string whose characters equal `d`?
pub open spec fn descs_contain(ds: Seq<String>, d: Seq<char>) -> bool {
    exists|j: int| 0 <= j < ds.len() && #[trigger] ds[j]@ == d
}

/// Is `d` one of the first `upto` notes, and one that carries no tag?
pub open spec fn is_desc_of(d: Seq<char>, notes: Seq<String>, upto: int) -> bool {
    exists|k: int|
        0 <= k < upto && #[trigger] notes[k]@ == d && !any_tag_matches(folded(notes[k]@))
}

/// The tags that any of the notes carries, in the enum's order.
fn collect_tags(notes: &Vec<String>) -> (r: Vec<Tag>)
    ensures
        forall|t: Tag| r@.contains(t) <==> note_matching(notes@, notes@.len() as int, t),
        forall|a: int, b: int| 0 <= a < b < r@.len() ==> tag_id(r@[a]) < tag_id(r@[b]),
{
    let mut r: Vec<Tag> = Vec::new();
    let mut i: u8 = 0;
    while i < 28
        invariant
            i <= 28,
            forall|t: Tag|
                r@.contains(t) <==> (tag_id(t) < i as int && note_matching(
                    notes@,
                    notes@.len() as int,
                    t,
                )),
            forall|a: int, b: int| 0 <= a < b < r@.len() ==> tag_id(r@[a]) < tag_id(r@[b]),
        decreases 28 - i,
    {
        let t = crate::tag::tag_of_id(i);
        let ghost r0 = r@;
        let matched = any_note_matches(notes, t);
        if matched {
            r.push(t);
            proof {
                assert(r@.contains(t)) by {
                    assert(r@[r@.len() - 1] == t);
                }
                assert forall|a: int, b: int| 0 <= a < b < r@.len() implies tag_id(r@[a]) < tag_id(
                    r@[b],
                ) by {
                    if b == r@.len() - 1 {
                        assert(r0.contains(r0[a]));
                        assert(r@[a] == r0[a]);
                        assert(r@[b] == t);
                    } else {
                        assert(r@[a] == r0[a] && r@[b] == r0[b]);
                    }
                }
            }
        }
        proof {
            assert forall|x: Tag|
                r@.contains(x) <==> (tag_id(x) < i as int + 1 && note_matching(
                    notes@,
                    notes@.len() as int,
                    x,
                )) by {
                if matched {
                    if r@.contains(x) && x != t {
                        let q = choose|q: int| 0 <= q < r@.len() && r@[q] == x;
                        assert(q < r0.len());
                        assert(r0[q] == x);
                        assert(r0.contains(x));
                    }
                    if x != t && r0.contains(x) {
                        let q = choose|q: int| 0 <= q < r0.len() && r0[q] == x;
                        assert(r@[q] == x);
                        assert(r@.contains(x));
                    }
                    if tag_id(x) < i as int + 1 && note_matching(notes@, notes@.len() as int, x) {
                        if x != t {
                            assert(r0.contains(x));
                        }
                    }
                } else {
                    if r@.contains(x) {
                        assert(tag_id(x) < i as int);
                    }
                }
            }
        }
        i = i + 1;
    }
    proof {
        assert forall|t: Tag| note_matching(notes@, notes@.len() as int, t) implies r@.contains(
            t,
        ) by {
            crate::tag::lemma_tag_id_range(t);
        }
    }
    r
}

/// Does any of the notes, case folded, carry the tag `t`?
fn any_note_matches(notes: &Vec<String>, t: Tag) -> (r: bool)
    ensures
        r == note_matching(notes@, notes@.len() as int, t),
{
    let n = notes.len();
    let mut i: usize = 0;
    while i < n
        invariant
            n == notes@.len(),
            i <= n,
            !note_matching(notes@, i as int, t),
        decreases n - i,
    {
        let note_tags = Tag::parse_str(notes[i].as_str());
        if contains_tag(&note_tags, t) {
            proof {
                assert(tag_matches(t, folded(notes@[i as int]@)));
                assert(note_matching(notes@, n as int, t));
            }
            return true;
        }
        proof {
            assert forall|k: int| 0 <= k < i as int + 1 implies !tag_matches(
                t,
                folded(#[trigger] notes@[k]@),
            ) by {
                if k == i as int {
                    assert(!note_tags@.contains(t));
                }
            }
        }
        i = i + 1;
    }
    false
}

/// The notes that carry no tag, kept once each as descriptions.
fn collect_descs(notes: &Vec<String>) -> (r: Vec<String>)
    ensures
        forall|i: int|
            0 <= i < notes@.len() && !any_tag_matches(folded(#[trigger] notes@[i]@))
                ==> descs_contain(r@, notes@[i]@),
        forall|j: int| 0 <= j < r@.len() ==> is_desc_of(#[trigger] r@[j]@, notes@, notes@.len() as int),
        forall|j: int, k: int| 0 <= j < k < r@.len() ==> #[trigger] r@[j]@ != #[trigger] r@[k]@,
{
    let n = notes.len();
    let mut descs: Vec<String> = Vec::new();
    let mut i: usize = 0;
    while i < n
        invariant
            n == notes@.len(),
            i <= n,
            forall|k: int|
                0 <= k < i && !any_tag_matches(folded(#[trigger] notes@[k]@)) ==> descs_contain(
                    descs@,
                    notes@[k]@,
                ),
            forall|j: int| 0 <= j < descs@.len() ==> is_desc_of(#[trigger] descs@[j]@, notes@, i as int),
            forall|j: int, k: int|
                0 <= j < k < descs@.len() ==> #[trigger] descs@[j]@ != #[trigger] descs@[k]@,
        decreases n - i,
    {
        let ghost gi = i as int;
        let note_tags = Tag::parse_str(notes[i].as_str());
        if note_tags.len() == 0 {
            proof {
                assert forall|t: Tag| !tag_matches(t, folded(notes@[gi]@)) by {
                    if tag_matches(t, folded(notes@[gi]@)) {
                        assert(note_tags@.contains(t));
                    }
                }
                assert(!any_tag_matches(folded(notes@[gi]@)));
            }
            if !contains_string(&descs, &notes[i]) {
                let ghost descs0 = descs@;
                descs.push(notes[i].clone());
                proof {
                    assert(descs@[descs0.len() as int]@ == notes@[gi]@);
                    assert forall|k: int|
                        0 <= k < gi + 1 && !any_tag_matches(folded(#[trigger] notes@[k]@))
                            implies descs_contain(descs@, notes@[k]@) by {
                        if k < gi {
                            let j = choose|j: int|
                                0 <= j < descs0.len() && #[trigger] descs0[j]@ == notes@[k]@;
                            assert(descs@[j]@ == notes@[k]@);
                        }
                    }
                    assert forall|j: int| 0 <= j < descs@.len() implies is_desc_of(
                        #[trigger] descs@[j]@,
                        notes@,
                        gi + 1,
                    ) by {
                        if j < descs0.len() {
                            assert(descs@[j] == descs0[j]);
                            let k = choose|k: int|
                                0 <= k < gi && #[trigger] notes@[k]@ == descs0[j]@
                                    && !any_tag_matches(folded(notes@[k]@));
                            assert(notes@[k]@ == descs@[j]@);
                        } else {
                            assert(notes@[gi]@ == descs@[j]@);
                        }
                    }
                    assert forall|j: int, k: int| 0 <= j < k < descs@.len() implies #[trigger] descs@[j]@
                        != #[trigger] descs@[k]@ by {
                        if k < descs0.len() {
                            assert(descs@[j] == descs0[j] && descs@[k] == descs0[k]);
                        } else {
                            assert(descs@[j] == descs0[j]);
                            assert(!descs_contain(descs0, notes@[gi]@));
                            assert(descs@[k]@ == notes@[gi]@);
                        }
                    }
                }
            } else {
                proof {
                    assert forall|j: int| 0 <= j < descs@.len() implies is_desc_of(
                        #[trigger] descs@[j]@,
                        notes@,
                        gi + 1,
                    ) by {
                        let k = choose|k: int|
                            0 <= k < gi && #[trigger] notes@[k]@ == descs@[j]@ && !any_tag_matches(
                                folded(notes@[k]@),
                            );
                    }
                }
            }
        } else {
            proof {
                assert(note_tags@.contains(note_tags@[0]));
                assert(any_tag_matches(folded(notes@[gi]@)));
                assert forall|j: int| 0 <= j < descs@.len() implies is_desc_of(
                    #[trigger] descs@[j]@,
                    notes@,
                    gi + 1,
                ) by {
                    let k = choose|k: int|
                        0 <= k < gi && #[trigger] notes@[k]@ == descs@[j]@ && !any_tag_matches(
                            folded(notes@[k]@),
                        );
                }
            }
        }
        i = i + 1;
    }
    descs
}

/// Split raw notes into the set of tags they carry and the set of notes that
/// carry none, kept as descriptions. Each tag and each description appears
/// once, whatever the notes repeat; the tags come in the enum's order.
pub fn parse_and_split_notes(notes: &Vec<String>) -> (r: (Vec<Tag>, Vec<String>))
    ensures
        forall|t: Tag| r.0@.contains(t) <==> note_matching(notes@, notes@.len() as int, t),
        forall|a: int, b: int| 0 <= a < b < r.0@.len() ==> tag_id(r.0@[a]) < tag_id(r.0@[b]),
        forall|i: int|
            0 <= i < notes@.len() && !any_tag_matches(folded(#[trigger] notes@[i]@))
                ==> descs_contain(r.1@, notes@[i]@),
        forall|j: int|
            0 <= j < r.1@.len() ==> is_desc_of(#[trigger] r.1@[j]@, notes@, notes@.len() as int),
        forall|j: int, k: int|
            0 <= j < k < r.1@.len() ==> #[trigger] r.1@[j]@ != #[trigger] r.1@[k]@,
{
    (collect_tags(notes), collect_descs(notes))
}

} // verus!
