//! The error taxonomy of the library.
use vstd::prelude::*;

verus! {

/// Everything that can go wrong while fetching, caching or decoding.
///
/// Errors raised by outside code (the transport, the persistent store) carry
/// the foreign error's rendering as a plain string, together with a short
/// static description of what was attempted.
#[derive(Debug, Clone, PartialEq)]
pub enum Error {
    /// A connection-level transport failure (not an HTTP status).
    Transport(String),
    /// Deserialization failed while doing the described step.
    Deserializing(String, &'static str),
    /// The persistent cache store failed while doing the described step.
    Cache(String, &'static str),
    /// An I/O failure while doing the described step.
    Io(String, &'static str),
    /// No canteen id was given and none is configured.
    CanteenIdMissing,
    /// The given url returned the given non-success status code.
    NonSuccessStatusCode(String, u16),
    /// Bytes read back from the cache were not valid UTF-8.
    DecodingUtf8,
    /// A date string did not follow the expected format.
    InvalidDate,
    /// A url could not be normalized into a cache key.
    InternalUrl,
    /// A value that should have been fetched first was not.
    NotFetched,
}

impl Error {
    /// A short human-readable description, standing in for `Display`.
    pub fn message(&self) -> String {
        match self {
            Error::Transport(why) => String::from_str("transport error: ").concat(why.as_str()),
            Error::Deserializing(why, what) => String::from_str("deserialization failed while ")
                .concat(what)
                .concat(": ")
                .concat(why.as_str()),
            Error::Cache(why, what) => String::from_str("cache error while ")
                .concat(what)
                .concat(": ")
                .concat(why.as_str()),
            Error::Io(why, what) => String::from_str("io error while ")
                .concat(what)
                .concat(": ")
                .concat(why.as_str()),
            Error::CanteenIdMissing => String::from_str(
                "no default canteen id is defined and `--id` was not given",
            ),
            Error::NonSuccessStatusCode(url, _status) => String::from_str("url ")
                .concat(url.as_str())
                .concat(" returned a non-success status"),
            Error::DecodingUtf8 => String::from_str("read invalid utf8 bytes"),
            Error::InvalidDate => String::from_str("invalid date encountered"),
            Error::InternalUrl => String::from_str("could not normalize the url"),
            Error::NotFetched => String::from_str("the value has not been fetched yet"),
        }
    }
}

/// Helpers on results that degrade errors into `None` instead of propagating.
///
/// Logging the dropped error is the caller's business; only the value flow is
/// handled here.
pub trait ResultExt<T>: Sized {
    /// The `Ok` value, if this is a success.
    spec fn ok_value(self) -> Option<T>;

    /// Degrade an error to `None`.
    fn log_err(self) -> (r: Option<T>)
        ensures
            r == self.ok_value(),
    ;

    /// Degrade an error to `None`.
    fn log_warn(self) -> (r: Option<T>)
        ensures
            r == self.ok_value(),
    ;

    /// Unwrap a result that the caller knows to be a success.
    fn log_panic(self) -> (r: T)
        requires
            self.ok_value() is Some,
        ensures
            Some(r) == self.ok_value(),
    ;
}

impl<T> ResultExt<T> for Result<T, Error> {
    open spec fn ok_value(self) -> Option<T> {
        match self {
            Ok(value) => Some(value),
            Err(_) => None,
        }
    }

    fn log_err(self) -> (r: Option<T>) {
        match self {
            Ok(value) => Some(value),
            Err(_) => None,
        }
    }

    fn log_warn(self) -> (r: Option<T>) {
        match self {
            Ok(value) => Some(value),
            Err(_) => None,
        }
    }

    fn log_panic(self) -> (r: T) {
        match self {
            Ok(value) => value,
            Err(_) => unreached(),
        }
    }
}

/// Hand a value through unchanged: a seam where a caller may log it.
pub fn pass_info<T>(t: T) -> (r: T)
    ensures
        r == t,
{
    t
}

} // verus!
