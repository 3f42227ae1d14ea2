use crate::errors::GuardError;
use crate::paths::{check_extension, ext_allowed, ext_of, ExtensionRule};
use crate::rate::{admits, step, RateLimiter};
use crate::roots::is_path_allowed;
use vstd::prelude::*;
use vstd::utf8::encode_utf8;

verus! {

/// Largest payload the gateway accepts, in bytes: content above this is never
/// written, and a file above this is never read.
pub const MAX_FILE_SIZE: usize = 10 * 1024 * 1024;

/// The size of text content: its UTF-8 byte length, as `str::len` reports it.
pub open spec fn text_size(s: Seq<char>) -> usize {
    encode_utf8(s).len() as usize
}

/// Relies on std::path::Path::metadata (reading Metadata::len from its
/// result): the size in bytes of the file at `path`, or the diagnostic of the
/// failed lookup. The result reflects the filesystem at the moment of the
/// call, so nothing is promised of it.
#[verifier::external_body]
fn file_size(path: &str) -> (r: Result<u64, String>) {
    match std::path::Path::new(path).metadata() {
        Ok(m) => Ok(m.len()),
        Err(e) => Err(format!("{}", e)),
    }
}

/// The on-disk size stage of the read, decided on the outside result: a
/// failed metadata lookup becomes an I/O error carrying the diagnostic
/// verbatim, a size is admitted iff it does not exceed [`MAX_FILE_SIZE`]
/// (strictly: a file of exactly the ceiling may be read).
pub fn size_stage(measured: Result<u64, String>) -> (r: Result<(), GuardError>)
    ensures
        match measured {
            Result::Err(diag) => r == Err::<(), GuardError>(GuardError::IoFailure(diag)),
            Result::Ok(size) => if size <= MAX_FILE_SIZE as u64 {
                r == Ok::<(), GuardError>(())
            } else {
                r == Err::<(), GuardError>(GuardError::PayloadTooLarge)
            },
        },
{
    match measured {
        Err(diag) => Err(GuardError::IoFailure(diag)),
        Ok(size) => {
            if size > MAX_FILE_SIZE as u64 {
                Err(GuardError::PayloadTooLarge)
            } else {
                Ok(())
            }
        },
    }
}

/// The containment verdict mapped onto a write's result: permission to use
/// `path`, handed back verbatim, when the guard allowed it; the directory
/// error when it did not.
pub fn containment_stage(allowed: bool, path: &String) -> (r: Result<String, GuardError>)
    ensures
        allowed ==> r == Ok::<String, GuardError>(*path),
        !allowed ==> r == Err::<String, GuardError>(GuardError::PathNotAllowed),
{
    if allowed {
        Ok(path.clone())
    } else {
        Err(GuardError::PathNotAllowed)
    }
}

/// The guard chain of the text write: rate limit, payload size in bytes of
/// UTF-8, extension (`json` or `xml`, case-insensitive), containment under an
/// allowed root — in that order, the first failure aborting the call. `Ok`
/// carries the path back as permission to write; the write itself, and the
/// wrapping of its failure into [`GuardError::IoFailure`], are the caller's.
///
/// Whether the containment stage passes depends on the filesystem, so its two
/// outcomes stay undetermined here; every earlier stage is pinned exactly.
pub fn save_file_secure(
    limiter: &mut RateLimiter,
    now_ms: u64,
    path: &String,
    content: &String,
) -> (r: Result<String, GuardError>)
    ensures
        final(limiter).log_of("save_file_secure"@) == step(
            old(limiter).log_of("save_file_secure"@),
            now_ms,
        ),
        forall|name: Seq<char>|
            name != "save_file_secure"@ ==> final(limiter).log_of(name) == old(limiter).log_of(
                name,
            ),
        ({
            let admitted = admits(old(limiter).log_of("save_file_secure"@), now_ms);
            let size_ok = text_size(content@) <= MAX_FILE_SIZE;
            &&& (!admitted ==> r == Err::<String, GuardError>(GuardError::RateLimitExceeded))
            &&& (admitted && !size_ok ==> r == Err::<String, GuardError>(
                GuardError::PayloadTooLarge,
            ))
            &&& (admitted && size_ok ==> match ext_of(path@) {
                Option::None => r == Err::<String, GuardError>(GuardError::MissingExtension),
                Option::Some(e) => if !ext_allowed(ExtensionRule::Text, e) {
                    r == Err::<String, GuardError>(GuardError::DisallowedExtension)
                } else {
                    r == Ok::<String, GuardError>(*path) || r == Err::<String, GuardError>(
                        GuardError::PathNotAllowed,
                    )
                },
            })
        }),
{
    match limiter.check_rate_limit("save_file_secure", now_ms) {
        Err(e) => {
            return Err(e);
        },
        Ok(()) => {},
    }
    if content.as_str().len() > MAX_FILE_SIZE {
        return Err(GuardError::PayloadTooLarge);
    }
    match check_extension(path.as_str(), ExtensionRule::Text) {
        Err(e) => {
            return Err(e);
        },
        Ok(()) => {},
    }
    containment_stage(is_path_allowed(path.as_str()), path)
}

/// The guard chain of the binary write (for spreadsheet files): rate limit,
/// payload size, extension (`xlsx`, case-insensitive), containment — in that
/// order, the first failure aborting the call. `Ok` carries the path back as
/// permission to write; the write itself is the caller's.
pub fn save_file_binary(
    limiter: &mut RateLimiter,
    now_ms: u64,
    path: &String,
    content: &Vec<u8>,
) -> (r: Result<String, GuardError>)
    ensures
        final(limiter).log_of("save_file_binary"@) == step(
            old(limiter).log_of("save_file_binary"@),
            now_ms,
        ),
        forall|name: Seq<char>|
            name != "save_file_binary"@ ==> final(limiter).log_of(name) == old(limiter).log_of(
                name,
            ),
        ({
            let admitted = admits(old(limiter).log_of("save_file_binary"@), now_ms);
            let size_ok = content@.len() <= MAX_FILE_SIZE;
            &&& (!admitted ==> r == Err::<String, GuardError>(GuardError::RateLimitExceeded))
            &&& (admitted && !size_ok ==> r == Err::<String, GuardError>(
                GuardError::PayloadTooLarge,
            ))
            &&& (admitted && size_ok ==> match ext_of(path@) {
                Option::None => r == Err::<String, GuardError>(GuardError::MissingExtension),
                Option::Some(e) => if !ext_allowed(ExtensionRule::Binary, e) {
                    r == Err::<String, GuardError>(GuardError::DisallowedExtension)
                } else {
                    r == Ok::<String, GuardError>(*path) || r == Err::<String, GuardError>(
                        GuardError::PathNotAllowed,
                    )
                },
            })
        }),
{
    match limiter.check_rate_limit("save_file_binary", now_ms) {
        Err(e) => {
            return Err(e);
        },
        Ok(()) => {},
    }
    if content.len() > MAX_FILE_SIZE {
        return Err(GuardError::PayloadTooLarge);
    }
    match check_extension(path.as_str(), ExtensionRule::Binary) {
        Err(e) => {
            return Err(e);
        },
        Ok(()) => {},
    }
    containment_stage(is_path_allowed(path.as_str()), path)
}

/// The guard chain of the text read: rate limit, extension (`json` or `xml`),
/// containment, then the on-disk size — read through metadata before any
/// content is touched — must not exceed [`MAX_FILE_SIZE`]. `Ok` means the
/// read may proceed; the read itself is the caller's.
///
/// The containment and metadata stages depend on the filesystem, so once the
/// pure stages pass, only the set of their possible outcomes is stated.
pub fn read_file_secure(limiter: &mut RateLimiter, now_ms: u64, path: &String) -> (r: Result<
    (),
    GuardError,
>)
    ensures
        final(limiter).log_of("read_file_secure"@) == step(
            old(limiter).log_of("read_file_secure"@),
            now_ms,
        ),
        forall|name: Seq<char>|
            name != "read_file_secure"@ ==> final(limiter).log_of(name) == old(limiter).log_of(
                name,
            ),
        ({
            let admitted = admits(old(limiter).log_of("read_file_secure"@), now_ms);
            &&& (!admitted ==> r == Err::<(), GuardError>(GuardError::RateLimitExceeded))
            &&& (admitted ==> match ext_of(path@) {
                Option::None => r == Err::<(), GuardError>(GuardError::MissingExtension),
                Option::Some(e) => if !ext_allowed(ExtensionRule::Text, e) {
                    r == Err::<(), GuardError>(GuardError::DisallowedExtension)
                } else {
                    r is Ok || r == Err::<(), GuardError>(GuardError::PathNotAllowed) || r == Err::<
                        (),
                        GuardError,
                    >(GuardError::PayloadTooLarge) || (r matches Err(GuardError::IoFailure(_)))
                },
            })
        }),
{
    match limiter.check_rate_limit("read_file_secure", now_ms) {
        Err(e) => {
            return Err(e);
        },
        Ok(()) => {},
    }
    match check_extension(path.as_str(), ExtensionRule::Text) {
        Err(e) => {
            return Err(e);
        },
        Ok(()) => {},
    }
    if !is_path_allowed(path.as_str()) {
        return Err(GuardError::PathNotAllowed);
    }
    size_stage(file_size(path.as_str()))
}

} // verus!
