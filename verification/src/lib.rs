//! Client-side core of a Docker/OCI registry: content digests, blob
//! transfer decisions with resumable caching, layered image rendering
//! with whiteout handling, and tag-list pagination.
//!
//! The HTTP transport and the filesystem sit outside this crate; the
//! functions here compute every decision those edges need, over plain
//! values, with verified contracts.

use vstd::prelude::*;

pub mod blobs;
pub mod creds;
pub mod digest;
pub mod render;
pub mod strutil;
pub mod tags;
pub mod v2;

verus! {

/// The user agent string the transport should send with every request.
pub const USER_AGENT: &'static str = "acheta-ghregistry/0.0";

/// Everything that can go wrong while talking to a registry.
#[derive(Debug, PartialEq, Eq)]
pub enum Error {
    /// A digest string was rejected, or a verification failed.
    Digest(crate::digest::ContentDigestError),
    /// A blob fetch saw a status that is neither success nor a client
    /// error.
    UnexpectedHttpStatus(u16),
    /// A blob fetch got a 4xx answer; the body is kept so the caller
    /// can render the registry's error document.
    Client { status: u16, len: usize, body: Vec<u8> },
    /// The transport failed before any response arrived.
    DownloadFailed,
    /// The registry does not speak the v2 protocol.
    V2NotSupported,
    /// No credentials were stored for this index.
    AuthInfoMissing(String),
    /// A stored credential entry was not base64 of valid UTF-8.
    BadAuthData,
}

} // verus!
