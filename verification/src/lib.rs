//! A guarded file-access gateway: decides whether read/write requests from an
//! untrusted front end may touch the local filesystem.
//!
//! The guard is made of two leaf components and a policy layer that composes
//! them around each exposed operation:
//! - a sliding-window rate limiter, one budget per operation name;
//! - a path guard that canonicalizes a candidate path and requires it to lie
//!   under one of the host's well-known directories;
//! - per-operation guard chains that also bound the payload size and restrict
//!   file extensions.
//!
//! The guard only decides whether an operation may proceed; the surrounding
//! application performs the actual reads and writes.

pub mod errors;
pub mod guard;
pub mod paths;
pub mod rate;
pub mod roots;
