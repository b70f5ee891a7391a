//! Content digests: `algorithm:hex` parsing, incremental hashing, and
//! verification of buffers and finished hashes against a digest.

use vstd::prelude::*;
use vstd::string::StrSliceExecFns;
use vstd::string::StringExecFns;
use sha2::Digest;
use crate::strutil::{str_eq, bytes_to_hex, hex_rep};

verus! {

/// What a finished SHA-256 run over the given bytes yields. The value
/// is fixed by the input bytes alone; the sha2 crate computes it.
pub uninterp spec fn sha256_of(data: Seq<u8>) -> Seq<u8>;

/// What a finished SHA-512 run over the given bytes yields. The value
/// is fixed by the input bytes alone; the sha2 crate computes it.
pub uninterp spec fn sha512_of(data: Seq<u8>) -> Seq<u8>;

/// The raw sha2 SHA-256 state. Opaque here: `sha2::Sha256` is an alias
/// for a generic wrapper that cannot be declared directly.
#[verifier::external_body]
struct Sha256Inner {
    inner: sha2::Sha256,
}

/// The raw sha2 SHA-512 state. Opaque here, as `Sha256Inner` is.
#[verifier::external_body]
struct Sha512Inner {
    inner: sha2::Sha512,
}

/// An in-progress SHA-256 computation, together with the bytes fed to
/// it so far.
pub struct HashState256 {
    inner: Sha256Inner,
    fed: Ghost<Seq<u8>>,
}

impl HashState256 {
    /// The bytes fed to this hasher so far.
    pub closed spec fn bytes(&self) -> Seq<u8> {
        self.fed@
    }

    /// Relies on sha2's `Sha256::new`: a fresh hasher over no bytes.
    #[verifier::external_body]
    fn new() -> (h: Self)
        ensures
            h.bytes() == Seq::<u8>::empty(),
    {
        HashState256 {
            inner: Sha256Inner { inner: sha2::Sha256::new() },
            fed: Ghost(Seq::empty()),
        }
    }

    /// Relies on sha2's `Digest::update`: feeding more bytes extends
    /// the hashed input.
    #[verifier::external_body]
    fn update(&mut self, data: &[u8])
        ensures
            final(self).bytes() == old(self).bytes() + data@,
    {
        Digest::update(&mut self.inner.inner, data);
    }

    /// Relies on sha2's `Digest::finalize`: a 32-byte output fixed by
    /// the bytes fed in.
    #[verifier::external_body]
    fn finalize(self) -> (r: Vec<u8>)
        ensures
            r@ == sha256_of(self.bytes()),
            r@.len() == 32,
    {
        self.inner.inner.finalize().to_vec()
    }
}

/// An in-progress SHA-512 computation, together with the bytes fed to
/// it so far.
pub struct HashState512 {
    inner: Sha512Inner,
    fed: Ghost<Seq<u8>>,
}

impl HashState512 {
    /// The bytes fed to this hasher so far.
    pub closed spec fn bytes(&self) -> Seq<u8> {
        self.fed@
    }

    /// Relies on sha2's `Sha512::new`: a fresh hasher over no bytes.
    #[verifier::external_body]
    fn new() -> (h: Self)
        ensures
            h.bytes() == Seq::<u8>::empty(),
    {
        HashState512 {
            inner: Sha512Inner { inner: sha2::Sha512::new() },
            fed: Ghost(Seq::empty()),
        }
    }

    /// Relies on sha2's `Digest::update`: feeding more bytes extends
    /// the hashed input.
    #[verifier::external_body]
    fn update(&mut self, data: &[u8])
        ensures
            final(self).bytes() == old(self).bytes() + data@,
    {
        Digest::update(&mut self.inner.inner, data);
    }

    /// Relies on sha2's `Digest::finalize`: a 64-byte output fixed by
    /// the bytes fed in.
    #[verifier::external_body]
    fn finalize(self) -> (r: Vec<u8>)
        ensures
            r@ == sha512_of(self.bytes()),
            r@.len() == 64,
    {
        self.inner.inner.finalize().to_vec()
    }
}

/// The digest algorithms a registry digest string may name.
#[derive(Clone, Copy, PartialEq, Eq, Structural, Debug)]
pub enum Algorithm {
    Sha256,
    Sha512,
}

/// The hash of `data` under `algo`, as raw bytes.
pub open spec fn spec_algo_hash(algo: Algorithm, data: Seq<u8>) -> Seq<u8> {
    match algo {
        Algorithm::Sha256 => sha256_of(data),
        Algorithm::Sha512 => sha512_of(data),
    }
}

/// The hash of `data` under `algo`, as lowercase hexadecimal.
pub open spec fn spec_digest_hex(algo: Algorithm, data: Seq<u8>) -> Seq<char> {
    hex_rep(spec_algo_hash(algo, data))
}

/// The name under which `algo` appears in a digest string.
pub open spec fn spec_algo_name(algo: Algorithm) -> Seq<char> {
    match algo {
        Algorithm::Sha256 => "sha256"@,
        Algorithm::Sha512 => "sha512"@,
    }
}

/// How many hexadecimal digits a finished hash under `algo` has.
pub open spec fn spec_hex_width(algo: Algorithm) -> nat {
    match algo {
        Algorithm::Sha256 => 64,
        Algorithm::Sha512 => 128,
    }
}

/// An incremental hasher bound to one algorithm, remembering (in
/// ghost state) the bytes fed to it.
pub enum Hasher {
    Sha256(HashState256),
    Sha512(HashState512),
}

impl Hasher {
    /// The algorithm this hasher runs.
    pub open spec fn algo(&self) -> Algorithm {
        match self {
            Hasher::Sha256(_) => Algorithm::Sha256,
            Hasher::Sha512(_) => Algorithm::Sha512,
        }
    }

    /// The bytes fed to this hasher so far.
    pub open spec fn fed(&self) -> Seq<u8> {
        match self {
            Hasher::Sha256(st) => st.bytes(),
            Hasher::Sha512(st) => st.bytes(),
        }
    }

    /// A fresh hasher for `algo` over no bytes.
    pub fn start(algo: Algorithm) -> (h: Hasher)
        ensures
            h.algo() == algo,
            h.fed() == Seq::<u8>::empty(),
    {
        match algo {
            Algorithm::Sha256 => Hasher::Sha256(HashState256::new()),
            Algorithm::Sha512 => Hasher::Sha512(HashState512::new()),
        }
    }

    /// Feed more bytes.
    pub fn update(&mut self, data: &[u8])
        ensures
            final(self).algo() == old(self).algo(),
            final(self).fed() == old(self).fed() + data@,
    {
        match self {
            Hasher::Sha256(st) => st.update(data),
            Hasher::Sha512(st) => st.update(data),
        }
    }

    /// Finish the hash and render it in lowercase hexadecimal.
    pub fn finalize_hex(self) -> (r: String)
        ensures
            r@ == spec_digest_hex(self.algo(), self.fed()),
    {
        match self {
            Hasher::Sha256(st) => {
                let out = st.finalize();
                bytes_to_hex(&out)
            },
            Hasher::Sha512(st) => {
                let out = st.finalize();
                bytes_to_hex(&out)
            },
        }
    }
}

/// Why a digest string was rejected, or why a verification failed.
#[derive(Debug, PartialEq, Eq)]
pub enum ContentDigestError {
    /// The string holds no `:` separating algorithm and hex.
    MalformedForm,
    /// The algorithm prefix is not a supported algorithm.
    UnknownAlgorithm,
    /// The hex part does not have the algorithm's output width.
    BadLength,
    /// A verification failed: the expected and the computed hex.
    DigestMismatch { expected: String, actual: String },
}

/// A parsed content digest: an algorithm and the expected lowercase
/// hexadecimal of its output.
#[derive(Debug)]
pub struct ContentDigest {
    pub algo: Algorithm,
    pub hex: String,
}

/// The index of the first occurrence of `c` in `s`, if any.
pub open spec fn find_idx(s: Seq<char>, c: char) -> Option<int>
    decreases s.len(),
{
    if s.len() == 0 {
        None
    } else if s[0] == c {
        Some(0int)
    } else {
        match find_idx(s.drop_first(), c) {
            Some(i) => Some(i + 1),
            None => None,
        }
    }
}

/// `find_idx` finds exactly the first occurrence.
pub proof fn lemma_find_idx(s: Seq<char>, c: char)
    ensures
        match find_idx(s, c) {
            Some(i) => 0 <= i < s.len() && s[i] == c && forall|j: int| 0 <= j < i ==> s[j] != c,
            None => forall|j: int| 0 <= j < s.len() ==> s[j] != c,
        },
    decreases s.len(),
{
    if s.len() > 0 && s[0] != c {
        lemma_find_idx(s.drop_first(), c);
        assert forall|j: int| 0 <= j < s.len() && (match find_idx(s.drop_first(), c) {
            Some(i) => j < i + 1,
            None => true,
        }) implies s[j] != c by {
            if j > 0 {
                assert(s[j] == s.drop_first()[j - 1]);
            }
        }
    }
}

/// Find the first occurrence of `c` in `s`.
pub fn find_char(s: &str, c: char) -> (r: Option<usize>)
    ensures
        match r {
            Some(i) => find_idx(s@, c) == Some(i as int),
            None => find_idx(s@, c) is None,
        },
{
    proof {
        lemma_find_idx(s@, c);
    }
    let len = s.unicode_len();
    let mut i: usize = 0;
    while i < len
        invariant
            len == s@.len(),
            i <= len,
            forall|j: int| 0 <= j < i ==> s@[j] != c,
        decreases len - i,
    {
        if s.get_char(i) == c {
            proof {
                lemma_find_idx(s@, c);
                match find_idx(s@, c) {
                    Some(k) => {
                        if k > i as int {
                            assert(s@[i as int] != c);
                        }
                        assert(k == i as int);
                    },
                    None => {
                        assert(s@[i as int] != c);
                    },
                }
            }
            return Some(i);
        }
        i = i + 1;
    }
    None
}

/// What parsing a digest string yields: the algorithm and the hex
/// characters, or the reason for rejection.
pub open spec fn spec_parse(s: Seq<char>) -> Result<(Algorithm, Seq<char>), ContentDigestError> {
    match find_idx(s, ':') {
        None => Err(ContentDigestError::MalformedForm),
        Some(i) => {
            let name = s.subrange(0, i);
            let hex = s.subrange(i + 1, s.len() as int);
            if name == spec_algo_name(Algorithm::Sha256) {
                if hex.len() == spec_hex_width(Algorithm::Sha256) {
                    Ok((Algorithm::Sha256, hex))
                } else {
                    Err(ContentDigestError::BadLength)
                }
            } else if name == spec_algo_name(Algorithm::Sha512) {
                if hex.len() == spec_hex_width(Algorithm::Sha512) {
                    Ok((Algorithm::Sha512, hex))
                } else {
                    Err(ContentDigestError::BadLength)
                }
            } else {
                Err(ContentDigestError::UnknownAlgorithm)
            }
        },
    }
}

impl ContentDigest {
    /// Hex width matches the algorithm's output width.
    pub open spec fn well_formed(&self) -> bool {
        self.hex@.len() == spec_hex_width(self.algo)
    }

    /// The canonical string form `algorithm:hex`.
    pub open spec fn spec_canonical(&self) -> Seq<char> {
        spec_algo_name(self.algo) + seq![':'] + self.hex@
    }

    /// Does `data` hash under this digest's algorithm to exactly this
    /// digest's hex?
    pub open spec fn spec_matches(&self, data: Seq<u8>) -> bool {
        spec_digest_hex(self.algo, data) == self.hex@
    }

    /// Parse `algorithm:hex`.
    pub fn try_new(s: &str) -> (r: Result<ContentDigest, ContentDigestError>)
        ensures
            match spec_parse(s@) {
                Ok((algo, hex)) => r is Ok && r->Ok_0.algo == algo && r->Ok_0.hex@ == hex,
                Err(e) => r is Err && r->Err_0 == e,
            },
            r is Ok ==> r->Ok_0.well_formed() && r->Ok_0.spec_canonical() == s@,
    {
        let len = s.unicode_len();
        let colon = match find_char(s, ':') {
            Some(i) => i,
            None => {
                return Err(ContentDigestError::MalformedForm);
            },
        };
        proof {
            lemma_find_idx(s@, ':');
        }
        let name = s.substring_char(0, colon);
        let hex = s.substring_char(colon + 1, len);
        let algo = if str_eq(name, "sha256") {
            Algorithm::Sha256
        } else if str_eq(name, "sha512") {
            Algorithm::Sha512
        } else {
            return Err(ContentDigestError::UnknownAlgorithm);
        };
        let width = match algo {
            Algorithm::Sha256 => 64,
            Algorithm::Sha512 => 128,
        };
        if hex.unicode_len() != width {
            return Err(ContentDigestError::BadLength);
        }
        let d = ContentDigest { algo, hex: hex.to_owned() };
        proof {
            assert(d.spec_canonical() =~= s@);
        }
        Ok(d)
    }

    /// Render the canonical `algorithm:hex` form.
    pub fn canonical(&self) -> (r: String)
        ensures
            r@ == self.spec_canonical(),
    {
        let mut out = match self.algo {
            Algorithm::Sha256 => "sha256".to_owned(),
            Algorithm::Sha512 => "sha512".to_owned(),
        };
        out.append(":");
        out.append(self.hex.as_str());
        proof {
            reveal_strlit(":");
            assert(":"@ =~= seq![':']);
        }
        out
    }

    /// An exact copy.
    pub fn duplicate(&self) -> (r: ContentDigest)
        ensures
            r == *self,
    {
        ContentDigest { algo: self.algo, hex: self.hex.clone() }
    }

    /// A fresh incremental hasher bound to this digest's algorithm.
    pub fn start_hash(&self) -> (h: Hasher)
        ensures
            h.algo() == self.algo,
            h.fed() == Seq::<u8>::empty(),
    {
        Hasher::start(self.algo)
    }

    /// Does `data` hash to this digest?
    pub fn verify_bytes(&self, data: &[u8]) -> (r: bool)
        ensures
            r == self.spec_matches(data@),
    {
        let mut h = self.start_hash();
        h.update(data);
        proof {
            assert(Seq::<u8>::empty() + data@ =~= data@);
        }
        let actual = h.finalize_hex();
        str_eq(actual.as_str(), self.hex.as_str())
    }

    /// Check `data` against this digest; on mismatch report the
    /// expected and the computed hex.
    pub fn try_verify(&self, data: &[u8]) -> (r: Result<(), ContentDigestError>)
        ensures
            r is Ok <==> self.spec_matches(data@),
            r is Err ==> exists|a: String|
                a@ == spec_digest_hex(self.algo, data@) && r->Err_0
                    == (ContentDigestError::DigestMismatch { expected: self.hex, actual: a }),
    {
        let mut h = self.start_hash();
        h.update(data);
        proof {
            assert(Seq::<u8>::empty() + data@ =~= data@);
        }
        self.try_verify_hash(h)
    }

    /// Check a finished hasher against this digest; on mismatch report
    /// the expected and the computed hex.
    pub fn try_verify_hash(&self, h: Hasher) -> (r: Result<(), ContentDigestError>)
        ensures
            r is Ok <==> spec_digest_hex(h.algo(), h.fed()) == self.hex@,
            r is Err ==> exists|a: String|
                a@ == spec_digest_hex(h.algo(), h.fed()) && r->Err_0
                    == (ContentDigestError::DigestMismatch { expected: self.hex, actual: a }),
    {
        let actual = h.finalize_hex();
        if str_eq(actual.as_str(), self.hex.as_str()) {
            Ok(())
        } else {
            Err(
                ContentDigestError::DigestMismatch {
                    expected: self.hex.clone(),
                    actual,
                },
            )
        }
    }
}

/// Digest round trip: a buffer always verifies against the digest made
/// of its own hash, under every supported algorithm.
pub proof fn lemma_digest_round_trip(d: ContentDigest, data: Seq<u8>)
    requires
        d.hex@ == spec_digest_hex(d.algo, data),
    ensures
        d.spec_matches(data),
{
}

/// Canonical round trip: parsing the canonical form of a well-formed
/// digest yields the same algorithm and hex back.
pub proof fn lemma_parse_canonical(d: ContentDigest)
    requires
        d.well_formed(),
    ensures
        spec_parse(d.spec_canonical()) == Ok::<_, ContentDigestError>((d.algo, d.hex@)),
{
    reveal_strlit("sha256");
    reveal_strlit("sha512");
    let s = d.spec_canonical();
    let n = spec_algo_name(d.algo).len() as int;
    assert(s[n] == ':');
    assert(forall|j: int| 0 <= j < n ==> s[j] != ':');
    lemma_find_idx(s, ':');
    match find_idx(s, ':') {
        Some(i) => {
            assert(i == n);
            assert(s.subrange(0, n) =~= spec_algo_name(d.algo));
            assert(s.subrange(n + 1, s.len() as int) =~= d.hex@);
            assert(spec_algo_name(Algorithm::Sha256)[3] != spec_algo_name(Algorithm::Sha512)[3]);
        },
        None => {
            assert(false);
        },
    }
}

} // verus!
