//! Tag-based filter rules for meals.
//!
//! A rule's `add` side selects meals, its `sub` side rejects them. The
//! regex-based name and category sides of a full rule belong to the renderer;
//! the tag sides are the library's own.
use vstd::prelude::*;

use crate::notes::contains_tag;
use crate::tag::Tag;

verus! {

/// Do `a` and `b` share an element?
pub open spec fn spec_any_common(a: Seq<Tag>, b: Seq<Tag>) -> bool {
    exists|t: Tag| a.contains(t) && b.contains(t)
}

/// Executable [`spec_any_common`].
pub fn any_common(a: &Vec<Tag>, b: &Vec<Tag>) -> (r: bool)
    ensures
        r == spec_any_common(a@, b@),
{
    let n = a.len();
    let mut i: usize = 0;
    while i < n
        invariant
            n == a@.len(),
            i <= n,
            forall|j: int| 0 <= j < i ==> !b@.contains(#[trigger] a@[j]),
        decreases n - i,
    {
        if contains_tag(b, a[i]) {
            proof {
                assert(a@.contains(a@[i as int]));
            }
            return true;
        }
        i = i + 1;
    }
    proof {
        if spec_any_common(a@, b@) {
            let t = choose|t: Tag| a@.contains(t) && b@.contains(t);
            let j = choose|j: int| 0 <= j < a@.len() && a@[j] == t;
        }
    }
    false
}

/// A rule over tags: meals carrying an `add` tag are selected, meals carrying
/// a `sub` tag are rejected.
#[derive(Debug, PartialEq)]
pub struct TagRule {
    /// Tags that select a meal.
    pub add: Vec<Tag>,
    /// Tags that reject a meal.
    pub sub: Vec<Tag>,
}

impl TagRule {
    /// A rule that selects and rejects nothing.
    pub fn empty() -> (r: TagRule)
        ensures
            r.add@ == Seq::<Tag>::empty(),
            r.sub@ == Seq::<Tag>::empty(),
    {
        TagRule { add: Vec::new(), sub: Vec::new() }
    }

    /// Does a meal with `tags` carry one of the selecting tags?
    pub fn is_match_add(&self, tags: &Vec<Tag>) -> (r: bool)
        ensures
            r == spec_any_common(self.add@, tags@),
    {
        any_common(&self.add, tags)
    }

    /// Does a meal with `tags` carry one of the rejecting tags?
    pub fn is_match_sub(&self, tags: &Vec<Tag>) -> (r: bool)
        ensures
            r == spec_any_common(self.sub@, tags@),
    {
        any_common(&self.sub, tags)
    }

    /// Does this rule select nothing?
    pub fn is_empty_add(&self) -> (r: bool)
        ensures
            r == (self.add@.len() == 0),
    {
        self.add.len() == 0
    }

    /// Both rules in one: selected or rejected by either.
    pub fn joined(self, other: Self) -> (r: Self)
        ensures
            r.add@ == self.add@ + other.add@,
            r.sub@ == self.sub@ + other.sub@,
    {
        let mut add = self.add;
        let mut other_add = other.add;
        add.append(&mut other_add);
        let mut sub = self.sub;
        let mut other_sub = other.sub;
        sub.append(&mut other_sub);
        TagRule { add, sub }
    }
}

/// A filter over tags: meals carrying an `allow` tag pass (an empty allow list
/// passes everything), meals carrying a `deny` tag are dropped.
#[derive(Debug, PartialEq)]
pub struct TagFilter {
    /// Tags that let a meal pass; empty lets everything pass.
    pub allow: Vec<Tag>,
    /// Tags that drop a meal.
    pub deny: Vec<Tag>,
}

impl TagFilter {
    /// A filter that passes everything and drops nothing.
    pub fn empty() -> (r: TagFilter)
        ensures
            r.allow@ == Seq::<Tag>::empty(),
            r.deny@ == Seq::<Tag>::empty(),
    {
        TagFilter { allow: Vec::new(), deny: Vec::new() }
    }

    /// Does a meal with `tags` pass the allow side?
    pub fn allows(&self, tags: &Vec<Tag>) -> (r: bool)
        ensures
            r == (self.allow@.len() == 0 || spec_any_common(self.allow@, tags@)),
    {
        self.allow.len() == 0 || any_common(&self.allow, tags)
    }

    /// Is a meal with `tags` dropped by the deny side?
    pub fn denies(&self, tags: &Vec<Tag>) -> (r: bool)
        ensures
            r == spec_any_common(self.deny@, tags@),
    {
        any_common(&self.deny, tags)
    }

    /// Both filters in one: allowed or denied by either.
    pub fn joined(self, other: Self) -> (r: Self)
        ensures
            r.allow@ == self.allow@ + other.allow@,
            r.deny@ == self.deny@ + other.deny@,
    {
        let mut allow = self.allow;
        let mut other_allow = other.allow;
        allow.append(&mut other_allow);
        let mut deny = self.deny;
        let mut other_deny = other.deny;
        deny.append(&mut other_deny);
        TagFilter { allow, deny }
    }
}

/// Which price groups to show for a meal.
#[derive(Debug, Clone, Copy, Hash, PartialEq, Eq, Structural)]
pub enum PriceTags {
    Student,
    Employee,
    Other,
}

} // verus!
