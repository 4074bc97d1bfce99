//! A lazily fetched value as a proper sum type.
use vstd::prelude::*;

use crate::error::Error;

verus! {

/// A value that does not exist yet, or has been fetched.
///
/// The accessors that the fetched state owes are guarded by preconditions, so
/// no panic path exists.
#[derive(Debug, PartialEq)]
pub enum Fetchable<T> {
    /// The value does not exist, but can be fetched.
    Unfetched,
    /// The value has been fetched.
    Fetched(T),
}

impl<T> Fetchable<T> {
    /// Has the value been fetched?
    pub fn is_fetched(&self) -> (r: bool)
        ensures
            r == (self is Fetched),
    {
        match self {
            Fetchable::Fetched(_) => true,
            Fetchable::Unfetched => false,
        }
    }

    /// The fetched value; the caller must know it exists.
    pub fn assume_fetched(&self) -> (r: &T)
        requires
            self is Fetched,
        ensures
            *self == Fetchable::Fetched(*r),
    {
        match self {
            Fetchable::Fetched(value) => value,
            Fetchable::Unfetched => unreached(),
        }
    }

    /// The fetched value, mutably; the caller must know it exists.
    pub fn assume_fetched_mut(&mut self) -> (r: &mut T)
        requires
            (*old(self)) is Fetched,
        ensures
            *old(self) == Fetchable::Fetched(*r),
            *final(self) == Fetchable::Fetched(*final(r)),
    {
        match self {
            Fetchable::Fetched(value) => value,
            Fetchable::Unfetched => unreached(),
        }
    }

    /// The value, fetching it through `f` first if it does not exist yet.
    ///
    /// A value that exists is handed out without calling `f`; otherwise `f`'s
    /// success is stored and handed out, and its failure is passed on with the
    /// state left unfetched.
    pub fn fetch<F: FnOnce() -> Result<T, Error>>(&mut self, f: F) -> (r: Result<&T, Error>)
        requires
            call_requires(f, ()),
        ensures
            (*old(self)) matches Fetchable::Fetched(v) ==> *final(self) == *old(self) && (r matches Ok(
                rv,
            ) && rv == v),
            (*old(self)) is Unfetched ==> match r {
                Ok(rv) => call_ensures(f, (), Ok(*rv)) && *final(self) == Fetchable::Fetched(*rv),
                Err(e) => call_ensures(f, (), Err(e)) && *final(self) == *old(self),
            },
            r is Ok ==> (*final(self)) is Fetched,
    {
        match self {
            Fetchable::Fetched(value) => Ok(value),
            Fetchable::Unfetched => {
                match f() {
                    Ok(value) => {
                        *self = Fetchable::Fetched(value);
                        Ok(self.assume_fetched())
                    },
                    Err(why) => Err(why),
                }
            },
        }
    }

    /// Make sure the value exists, fetching it through `f` if it does not
    /// yet; it can then be borrowed mutably through
    /// [`Fetchable::assume_fetched_mut`].
    pub fn fetch_mut<F: FnOnce() -> Result<T, Error>>(&mut self, f: F) -> (r: Result<(), Error>)
        requires
            call_requires(f, ()),
        ensures
            (*old(self)) is Fetched ==> r is Ok && *final(self) == *old(self),
            (*old(self)) is Unfetched ==> match r {
                Ok(u) => exists|val: T|
                    #[trigger] call_ensures(f, (), Ok(val)) && *final(self) == Fetchable::Fetched(
                        val,
                    ),
                Err(e) => call_ensures(f, (), Err(e)) && *final(self) == *old(self),
            },
            r is Ok ==> (*final(self)) is Fetched,
    {
        match self {
            Fetchable::Fetched(_) => Ok(()),
            Fetchable::Unfetched => {
                match f() {
                    Ok(value) => {
                        *self = Fetchable::Fetched(value);
                        Ok(())
                    },
                    Err(why) => Err(why),
                }
            },
        }
    }
}

} // verus!
