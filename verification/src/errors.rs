use vstd::prelude::*;

verus! {

/// Everything the gateway can refuse a request for.
///
/// None of these is fatal to the process; each is surfaced to the caller as a
/// descriptive message (see [`GuardError::message`]).
#[derive(Debug, Clone)]
pub enum GuardError {
    /// Too many calls to one operation name within the sliding window.
    RateLimitExceeded,
    /// The content to write, or the file on disk, exceeds the size ceiling.
    PayloadTooLarge,
    /// The path has no file extension at all.
    MissingExtension,
    /// The path has an extension outside the operation's allowed set.
    DisallowedExtension,
    /// The canonicalized path falls outside every allowed root directory.
    PathNotAllowed,
    /// The underlying filesystem call failed; carries its diagnostic.
    IoFailure(String),
    /// Exclusive access to the rate limiter could not be obtained; an internal
    /// error, reported distinctly from a rate-limit rejection.
    LimiterUnavailable,
}

impl GuardError {
    /// A user-facing description of the failure: a fixed text per variant,
    /// except that an I/O failure reports its underlying diagnostic verbatim.
    pub fn message(&self) -> (r: String)
        ensures
            match *self {
                GuardError::IoFailure(diag) => r@ == diag@,
                _ => true,
            },
    {
        match self {
            GuardError::RateLimitExceeded => "request limit exceeded, try again later".to_owned(),
            GuardError::PayloadTooLarge => "file size exceeds the 10 MiB maximum".to_owned(),
            GuardError::MissingExtension => "the file must have an extension".to_owned(),
            GuardError::DisallowedExtension => {
                "this operation does not allow that file extension".to_owned()
            },
            GuardError::PathNotAllowed => {
                "only the downloads, documents and desktop folders are allowed".to_owned()
            },
            GuardError::IoFailure(diag) => diag.clone(),
            GuardError::LimiterUnavailable => "internal error: rate limiter unavailable".to_owned(),
        }
    }
}

} // verus!
