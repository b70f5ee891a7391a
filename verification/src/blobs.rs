//! The blob transfer engine's decisions: URL building, status
//! classification, the three-state cache protocol for resumable
//! downloads, and the hashing state machines the transport drives.
//!
//! The transport itself (HTTP, channels, files) lives outside the
//! crate; it reads these decisions and performs them.

use vstd::prelude::*;
use vstd::string::StringExecFns;

use crate::Error;
use crate::digest::{ContentDigest, ContentDigestError, Hasher, spec_digest_hex};
use crate::strutil::{str_eq, u64_to_dec, dec_rep};

verus! {

/// Is this a 2xx status?
pub open spec fn spec_is_success(status: u16) -> bool {
    200 <= status < 300
}

/// Is this a 4xx status?
pub open spec fn spec_is_client_error(status: u16) -> bool {
    400 <= status < 500
}

/// Is this a 2xx status?
pub fn status_is_success(status: u16) -> (r: bool)
    ensures
        r == spec_is_success(status),
{
    200 <= status && status < 300
}

/// Is this a 4xx status?
pub fn status_is_client_error(status: u16) -> (r: bool)
    ensures
        r == spec_is_client_error(status),
{
    400 <= status && status < 500
}

/// A HEAD probe reports the blob present exactly on 200 OK.
pub fn head_status_means_present(status: u16) -> (r: bool)
    ensures
        r == (status == 200),
{
    status == 200
}

/// Whether the body of a blob response is worth reading: only success
/// and client-error statuses are; anything else is surfaced at once.
pub fn pre_body_check(status: u16) -> (r: Result<(), Error>)
    ensures
        r is Ok <==> spec_is_success(status) || spec_is_client_error(status),
        r is Err ==> r->Err_0 == Error::UnexpectedHttpStatus(status),
{
    if status_is_success(status) || status_is_client_error(status) {
        Ok(())
    } else {
        Err(Error::UnexpectedHttpStatus(status))
    }
}

/// The blob endpoint `{base}/v2/{name}/blobs/{digest}`.
pub fn blob_url(base_url: &str, name: &str, digest: &ContentDigest) -> (r: String)
    ensures
        r@ == base_url@ + "/v2/"@ + name@ + "/blobs/"@ + digest.spec_canonical(),
{
    let mut out = base_url.to_owned();
    out.append("/v2/");
    out.append(name);
    out.append("/blobs/");
    let canon = digest.canonical();
    out.append(canon.as_str());
    out
}

/// The blob endpoint for a digest string taken as given, without
/// parsing it: the existence probe uses the caller's string verbatim.
pub fn blob_url_raw(base_url: &str, name: &str, digest: &str) -> (r: String)
    ensures
        r@ == base_url@ + "/v2/"@ + name@ + "/blobs/"@ + digest@,
{
    let mut out = base_url.to_owned();
    out.append("/v2/");
    out.append(name);
    out.append("/blobs/");
    out.append(digest);
    out
}

/// What the pre-transfer cache inspection decides.
#[derive(Clone, Copy, PartialEq, Eq, Structural, Debug)]
pub enum FetchPlan {
    /// The cached file is complete and verifies: no request at all;
    /// one progress event of the expected size; return the path.
    CacheHit,
    /// A partial file exists: fetch with `Range: bytes={offset}-{limit}`
    /// (both bounds inclusive, so `limit` is the expected size less
    /// one) and a hasher seeded with the cached bytes.
    Resume { offset: u64, limit: u64 },
    /// Fetch the whole blob with a fresh hasher; delete the cached
    /// file first when it turned out corrupt.
    Fresh { delete_first: bool },
}

/// The view of an optional cached file's bytes.
pub open spec fn cache_view(cache: Option<&Vec<u8>>) -> Option<Seq<u8>> {
    match cache {
        Some(c) => Some(c@),
        None => None,
    }
}

/// The cache protocol: complete-and-verifying means a cache hit,
/// complete-but-corrupt means delete and refetch, any other size with
/// a declared expectation means resume (the inclusive range upper
/// bound is the last byte still missing, the expected size less one),
/// everything else means a plain full fetch. The caller-declared
/// expected size is authoritative.
pub open spec fn spec_plan(d: ContentDigest, expected_size: Option<u64>, cache: Option<Seq<u8>>) -> FetchPlan {
    match (cache, expected_size) {
        (Some(c), Some(n)) => if c.len() == n {
            if d.spec_matches(c) {
                FetchPlan::CacheHit
            } else {
                FetchPlan::Fresh { delete_first: true }
            }
        } else {
            FetchPlan::Resume {
                offset: c.len() as u64,
                limit: if n == 0 {
                    0u64
                } else {
                    (n - 1) as u64
                },
            }
        },
        _ => FetchPlan::Fresh { delete_first: false },
    }
}

/// Decide how to transfer a blob, given the digest, the expected size
/// the caller declared, and the bytes of the cached file if one exists.
pub fn plan_blob_fetch(digest: &ContentDigest, expected_size: Option<u64>, cache: Option<&Vec<u8>>) -> (p:
    FetchPlan)
    ensures
        p == spec_plan(*digest, expected_size, cache_view(cache)),
{
    match (cache, expected_size) {
        (Some(c), Some(n)) => {
            if c.len() as u64 == n {
                if digest.verify_bytes(c.as_slice()) {
                    FetchPlan::CacheHit
                } else {
                    FetchPlan::Fresh { delete_first: true }
                }
            } else {
                FetchPlan::Resume {
                    offset: c.len() as u64,
                    limit: if n == 0 {
                        0
                    } else {
                        n - 1
                    },
                }
            }
        },
        (Some(_), None) => FetchPlan::Fresh { delete_first: false },
        (None, _) => FetchPlan::Fresh { delete_first: false },
    }
}

/// The `Range` header value `bytes={offset}-{limit}` for a resumed
/// fetch.
pub fn range_header_value(offset: u64, limit: u64) -> (r: String)
    ensures
        r@ == "bytes="@ + dec_rep(offset as nat) + "-"@ + dec_rep(limit as nat),
{
    let mut out = "bytes=".to_owned();
    let ofs = u64_to_dec(offset);
    out.append(ofs.as_str());
    out.append("-");
    let lim = u64_to_dec(limit);
    out.append(lim.as_str());
    out
}

/// Does the response allow ranged writes? Only when `Accept-Ranges`
/// is present and not `none`; otherwise the transfer downgrades to a
/// truncating write with a fresh hasher.
pub fn ranges_supported(accept_ranges: Option<&String>) -> (r: bool)
    ensures
        r == (accept_ranges is Some && accept_ranges->0@ != "none"@),
{
    match accept_ranges {
        None => false,
        Some(v) => !str_eq(v.as_str(), "none"),
    }
}

/// Judge a fully buffered blob response: on success the body must
/// verify against the digest; a 4xx is preserved with its body; any
/// other status is unexpected.
pub fn evaluate_blob_response(digest: &ContentDigest, status: u16, body: Vec<u8>) -> (r: Result<
    Vec<u8>,
    Error,
>)
    ensures
        r is Ok <==> spec_is_success(status) && digest.spec_matches(body@),
        r is Ok ==> r->Ok_0 == body,
        spec_is_success(status) && !digest.spec_matches(body@) ==> r is Err && exists|a: String|
            a@ == spec_digest_hex(digest.algo, body@) && r->Err_0 == Error::Digest(
                ContentDigestError::DigestMismatch { expected: digest.hex, actual: a },
            ),
        !spec_is_success(status) && spec_is_client_error(status) ==> r is Err && r->Err_0 == (Error::Client {
            status,
            len: body@.len() as usize,
            body,
        }),
        !spec_is_success(status) && !spec_is_client_error(status) ==> r is Err && r->Err_0
            == Error::UnexpectedHttpStatus(status),
{
    if status_is_success(status) {
        match digest.try_verify(body.as_slice()) {
            Ok(()) => Ok(body),
            Err(e) => {
                proof {
                    let a = choose|a: String|
                        a@ == spec_digest_hex(digest.algo, body@) && e == (
                        ContentDigestError::DigestMismatch { expected: digest.hex, actual: a });
                    assert(Error::Digest(e) == Error::Digest(
                        ContentDigestError::DigestMismatch { expected: digest.hex, actual: a },
                    ));
                }
                Err(Error::Digest(e))
            },
        }
    } else if status_is_client_error(status) {
        let len = body.len();
        Err(Error::Client { status, len, body })
    } else {
        Err(Error::UnexpectedHttpStatus(status))
    }
}

/// The in-memory streaming fetch: chunks are hashed and accumulated
/// in arrival order; each chunk's byte count is the progress event the
/// caller forwards before feeding the chunk in.
pub struct BlobStream {
    pub digest: ContentDigest,
    pub hasher: Hasher,
    pub body: Vec<u8>,
}

impl BlobStream {
    /// The hasher runs the digest's algorithm over exactly the
    /// accumulated body.
    pub open spec fn wf(&self) -> bool {
        &&& self.hasher.algo() == self.digest.algo
        &&& self.hasher.fed() == self.body@
    }

    /// Start a stream for `digest` with nothing received yet.
    pub fn begin(digest: ContentDigest) -> (s: Self)
        ensures
            s.wf(),
            s.digest == digest,
            s.body@ == Seq::<u8>::empty(),
    {
        let hasher = digest.start_hash();
        BlobStream { digest, hasher, body: Vec::new() }
    }

    /// Take one chunk: hash it, append it, and report its size as the
    /// progress event to send.
    pub fn push_chunk(&mut self, chunk: &[u8]) -> (ev: u64)
        requires
            old(self).wf(),
        ensures
            final(self).wf(),
            final(self).digest == old(self).digest,
            final(self).body@ == old(self).body@ + chunk@,
            ev == chunk@.len(),
    {
        self.hasher.update(chunk);
        let mut i: usize = 0;
        while i < chunk.len()
            invariant
                i <= chunk@.len(),
                self.body@ == old(self).body@ + chunk@.take(i as int),
                self.digest == old(self).digest,
                self.hasher.algo() == old(self).digest.algo,
                self.hasher.fed() == old(self).body@ + chunk@,
            decreases chunk@.len() - i,
        {
            self.body.push(chunk[i]);
            proof {
                assert(chunk@.take(i + 1) =~= chunk@.take(i as int).push(chunk@[i as int]));
            }
            i = i + 1;
        }
        proof {
            assert(chunk@.take(chunk@.len() as int) =~= chunk@);
        }
        chunk.len() as u64
    }

    /// Judge the finished stream exactly as a buffered response is
    /// judged, with the hash taken from the incremental hasher.
    pub fn finish(self, status: u16) -> (r: Result<Vec<u8>, Error>)
        requires
            self.wf(),
        ensures
            r is Ok <==> spec_is_success(status) && self.digest.spec_matches(self.body@),
            r is Ok ==> r->Ok_0 == self.body,
            spec_is_success(status) && !self.digest.spec_matches(self.body@) ==> r is Err
                && exists|a: String|
                a@ == spec_digest_hex(self.digest.algo, self.body@) && r->Err_0 == Error::Digest(
                    ContentDigestError::DigestMismatch { expected: self.digest.hex, actual: a },
                ),
            !spec_is_success(status) && spec_is_client_error(status) ==> r is Err && r->Err_0 == (
            Error::Client { status, len: self.body@.len() as usize, body: self.body }),
            !spec_is_success(status) && !spec_is_client_error(status) ==> r is Err && r->Err_0
                == Error::UnexpectedHttpStatus(status),
    {
        let BlobStream { digest, hasher, body } = self;
        if status_is_success(status) {
            match digest.try_verify_hash(hasher) {
                Ok(()) => Ok(body),
                Err(e) => {
                    proof {
                        let a = choose|a: String|
                            a@ == spec_digest_hex(digest.algo, body@) && e == (
                            ContentDigestError::DigestMismatch { expected: digest.hex, actual: a });
                        assert(Error::Digest(e) == Error::Digest(
                            ContentDigestError::DigestMismatch { expected: digest.hex, actual: a },
                        ));
                    }
                    Err(Error::Digest(e))
                },
            }
        } else if status_is_client_error(status) {
            let len = body.len();
            Err(Error::Client { status, len, body })
        } else {
            Err(Error::UnexpectedHttpStatus(status))
        }
    }
}

/// The on-disk streaming fetch: the hasher may be seeded with the
/// cached prefix, then hashes streamed chunks in order. The caller
/// appends each chunk to the file after feeding it here, so the file
/// always holds exactly `content()`.
pub struct FileTransfer {
    pub digest: ContentDigest,
    pub hasher: Hasher,
    pub seed_len: usize,
    pub streamed_len: usize,
    pub seed: Ghost<Seq<u8>>,
    pub streamed: Ghost<Seq<u8>>,
}

impl FileTransfer {
    /// All the bytes hashed so far: the cached prefix, then the
    /// streamed chunks.
    pub open spec fn content(&self) -> Seq<u8> {
        self.seed@ + self.streamed@
    }

    /// The hasher runs the digest's algorithm over exactly the seed
    /// followed by the streamed bytes, and the counters match.
    pub open spec fn wf(&self) -> bool {
        &&& self.hasher.algo() == self.digest.algo
        &&& self.hasher.fed() == self.seed@ + self.streamed@
        &&& self.seed_len == self.seed@.len()
        &&& self.streamed_len == self.streamed@.len()
    }

    /// Start a transfer, seeding the hasher with the cached file's
    /// bytes when resuming.
    pub fn begin(digest: ContentDigest, cache: Option<&Vec<u8>>) -> (t: Self)
        ensures
            t.wf(),
            t.digest == digest,
            t.seed@ == (match cache {
                Some(c) => c@,
                None => Seq::<u8>::empty(),
            }),
            t.streamed@ == Seq::<u8>::empty(),
    {
        let mut hasher = digest.start_hash();
        match cache {
            Some(c) => {
                hasher.update(c.as_slice());
                proof {
                    assert(Seq::<u8>::empty() + c@ =~= c@);
                    assert(c@ + Seq::<u8>::empty() =~= c@);
                }
                FileTransfer {
                    digest,
                    hasher,
                    seed_len: c.len(),
                    streamed_len: 0,
                    seed: Ghost(c@),
                    streamed: Ghost(Seq::empty()),
                }
            },
            None => {
                proof {
                    assert(Seq::<u8>::empty() + Seq::<u8>::empty() =~= Seq::<u8>::empty());
                }
                FileTransfer {
                    digest,
                    hasher,
                    seed_len: 0,
                    streamed_len: 0,
                    seed: Ghost(Seq::empty()),
                    streamed: Ghost(Seq::empty()),
                }
            },
        }
    }

    /// The server refused ranged writes: drop the seed and start the
    /// hash over; the caller truncates the file to match.
    pub fn restart(&mut self)
        ensures
            final(self).wf(),
            final(self).digest == old(self).digest,
            final(self).seed@ == Seq::<u8>::empty(),
            final(self).streamed@ == Seq::<u8>::empty(),
    {
        let hasher = self.digest.start_hash();
        self.hasher = hasher;
        self.seed_len = 0;
        self.streamed_len = 0;
        self.seed = Ghost(Seq::empty());
        self.streamed = Ghost(Seq::empty());
        proof {
            assert(Seq::<u8>::empty() + Seq::<u8>::empty() =~= Seq::<u8>::empty());
        }
    }

    /// The synthetic progress event for an append-mode resume: the
    /// size of the file the caller already has.
    pub fn resume_event(&self) -> (r: u64)
        requires
            self.wf(),
        ensures
            r == self.seed@.len(),
    {
        self.seed_len as u64
    }

    /// Take one chunk: hash it, count it, and report its size as the
    /// progress event to send; the caller then appends it to the file.
    pub fn push_chunk(&mut self, chunk: &[u8]) -> (ev: u64)
        requires
            old(self).wf(),
            old(self).streamed@.len() + chunk@.len() <= usize::MAX,
        ensures
            final(self).wf(),
            final(self).digest == old(self).digest,
            final(self).seed@ == old(self).seed@,
            final(self).streamed@ == old(self).streamed@ + chunk@,
            ev == chunk@.len(),
    {
        self.hasher.update(chunk);
        self.streamed_len = self.streamed_len + chunk.len();
        self.streamed = Ghost(self.streamed@ + chunk@);
        proof {
            assert(self.seed@ + (old(self).streamed@ + chunk@) =~= (self.seed@ + old(
                self,
            ).streamed@) + chunk@);
        }
        chunk.len() as u64
    }

    /// Judge the finished transfer: on success the whole content must
    /// verify; a 4xx is preserved with an empty body (whatever arrived
    /// went to the file); any other status is unexpected.
    pub fn finish(self, status: u16) -> (r: Result<(), Error>)
        requires
            self.wf(),
        ensures
            r is Ok <==> spec_is_success(status) && self.digest.spec_matches(self.content()),
            spec_is_success(status) && !self.digest.spec_matches(self.content()) ==> r is Err
                && exists|a: String|
                a@ == spec_digest_hex(self.digest.algo, self.content()) && r->Err_0
                    == Error::Digest(
                    ContentDigestError::DigestMismatch { expected: self.digest.hex, actual: a },
                ),
            !spec_is_success(status) && spec_is_client_error(status) ==> r is Err && (r->Err_0
                matches Error::Client { status: s, len, body } && s == status && len
                == self.streamed@.len() && body@ == Seq::<u8>::empty()),
            !spec_is_success(status) && !spec_is_client_error(status) ==> r is Err && r->Err_0
                == Error::UnexpectedHttpStatus(status),
    {
        let FileTransfer { digest, hasher, seed_len: _, streamed_len, seed: _, streamed: _ } = self;
        if status_is_success(status) {
            match digest.try_verify_hash(hasher) {
                Ok(()) => Ok(()),
                Err(e) => {
                    proof {
                        let a = choose|a: String|
                            a@ == spec_digest_hex(digest.algo, self.content()) && e == (
                            ContentDigestError::DigestMismatch { expected: digest.hex, actual: a });
                        assert(Error::Digest(e) == Error::Digest(
                            ContentDigestError::DigestMismatch { expected: digest.hex, actual: a },
                        ));
                    }
                    Err(Error::Digest(e))
                },
            }
        } else if status_is_client_error(status) {
            Err(Error::Client { status, len: streamed_len, body: Vec::new() })
        } else {
            Err(Error::UnexpectedHttpStatus(status))
        }
    }
}

/// Cache idempotence: a cached file of exactly the declared size whose
/// bytes verify is always a cache hit, so a repeated transfer of an
/// already verified blob issues no request at all.
pub proof fn lemma_cache_idempotent(d: ContentDigest, n: u64, c: Seq<u8>)
    requires
        c.len() == n,
        d.spec_matches(c),
    ensures
        spec_plan(d, Some(n), Some(c)) == FetchPlan::CacheHit,
{
}

/// Corruption recovery: a cached file of the declared size that does
/// not verify is deleted and refetched from scratch.
pub proof fn lemma_corrupt_cache_refetched(d: ContentDigest, n: u64, c: Seq<u8>)
    requires
        c.len() == n,
        !d.spec_matches(c),
    ensures
        spec_plan(d, Some(n), Some(c)) == (FetchPlan::Fresh { delete_first: true }),
{
}

/// Range downgrade: once a transfer restarts (because the response
/// allowed no ranged writes), the hashed content is the streamed body
/// alone, whatever file was cached before — so the on-disk output the
/// caller writes equals the full response body.
pub proof fn lemma_range_downgrade(t: FileTransfer)
    requires
        t.wf(),
        t.seed@ == Seq::<u8>::empty(),
    ensures
        t.content() == t.streamed@,
{
    assert(Seq::<u8>::empty() + t.streamed@ =~= t.streamed@);
}

/// Resumption: a cached file shorter than the declared size leads to a
/// ranged fetch from exactly the cached length, and a transfer seeded
/// with the cached bytes hashes the cached prefix followed by whatever
/// is streamed afterwards.
pub proof fn lemma_resumption(d: ContentDigest, n: u64, c: Seq<u8>, t: FileTransfer)
    requires
        c.len() < n,
        t.wf(),
        t.seed@ == c,
    ensures
        spec_plan(d, Some(n), Some(c)) == (FetchPlan::Resume {
            offset: c.len() as u64,
            limit: (n - 1) as u64,
        }),
        t.content() == c + t.streamed@,
{
}

} // verus!
