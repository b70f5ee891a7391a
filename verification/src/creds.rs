//! Decoding stored registry credentials: index canonicalization, the
//! lookup in a parsed credential table, and the base64 `user:pass`
//! decoding. Reading and JSON-parsing the credential file happens
//! outside the crate, which hands the entries here as plain pairs.

use vstd::prelude::*;
use vstd::string::StrSliceExecFns;

use crate::Error;
use crate::digest::{find_idx, find_char, lemma_find_idx};
use crate::strutil::str_eq;

verus! {

/// The index under which credentials are looked up: the Docker Hub
/// short names are rewritten to the legacy index URL, anything else is
/// taken as given.
pub open spec fn spec_canonical_index(index: Seq<char>) -> Seq<char> {
    if index == "docker.io"@ || index == "registry-1.docker.io"@ {
        "https://index.docker.io/v1/"@
    } else {
        index
    }
}

/// Rewrite the Docker Hub short names to the legacy index URL.
pub fn canonical_index(index: &str) -> (r: String)
    ensures
        r@ == spec_canonical_index(index@),
{
    if str_eq(index, "docker.io") || str_eq(index, "registry-1.docker.io") {
        "https://index.docker.io/v1/".to_owned()
    } else {
        index.to_owned()
    }
}

/// The stored auth entry for `key`: the first pair with that index.
pub open spec fn spec_lookup(auths: Seq<(String, String)>, key: Seq<char>) -> Option<Seq<char>>
    decreases auths.len(),
{
    if auths.len() == 0 {
        None
    } else if auths.first().0@ == key {
        Some(auths.first().1@)
    } else {
        spec_lookup(auths.drop_first(), key)
    }
}

/// Find the stored auth entry for `key`.
pub fn lookup_auth<'a>(auths: &'a Vec<(String, String)>, key: &str) -> (r: Option<&'a String>)
    ensures
        match r {
            Some(a) => spec_lookup(auths@, key@) == Some(a@),
            None => spec_lookup(auths@, key@) is None,
        },
{
    proof {
        assert(auths@.skip(0) =~= auths@);
    }
    let mut i: usize = 0;
    while i < auths.len()
        invariant
            i <= auths@.len(),
            spec_lookup(auths@, key@) == spec_lookup(auths@.skip(i as int), key@),
        decreases auths@.len() - i,
    {
        proof {
            assert(auths@.skip(i as int).first() == auths@[i as int]);
            assert(auths@.skip(i as int).drop_first() =~= auths@.skip(i + 1));
        }
        if str_eq(auths[i].0.as_str(), key) {
            return Some(&auths[i].1);
        }
        i = i + 1;
    }
    proof {
        assert(auths@.skip(auths@.len() as int) =~= Seq::<(String, String)>::empty());
    }
    None
}

/// What the standard base64 alphabet decodes the characters to, or
/// nothing when they are not valid base64. The value is fixed by the
/// characters alone; the base64 crate computes it.
pub uninterp spec fn base64_decode_of(s: Seq<char>) -> Option<Seq<u8>>;

/// Relies on base64's `decode`: standard-alphabet decoding of the
/// given characters; invalid input is rejected.
#[verifier::external_body]
fn base64_decode(s: &str) -> (r: Result<Vec<u8>, Error>)
    ensures
        r is Ok <==> base64_decode_of(s@) is Some,
        r is Ok ==> r->Ok_0@ == base64_decode_of(s@)->0,
        r is Err ==> r->Err_0 == Error::BadAuthData,
{
    base64::decode(s).map_err(|_| Error::BadAuthData)
}

/// What valid UTF-8 bytes decode to, or nothing when they are not
/// valid UTF-8. The value is fixed by the bytes alone; std computes
/// it.
pub uninterp spec fn utf8_chars_of(b: Seq<u8>) -> Option<Seq<char>>;

/// Relies on std's `String::from_utf8`: valid UTF-8 decodes to the
/// characters the bytes encode; invalid bytes are rejected.
#[verifier::external_body]
fn utf8_to_string(b: Vec<u8>) -> (r: Result<String, Error>)
    ensures
        r is Ok <==> utf8_chars_of(b@) is Some,
        r is Ok ==> r->Ok_0@ == utf8_chars_of(b@)->0,
        r is Err ==> r->Err_0 == Error::BadAuthData,
{
    String::from_utf8(b).map_err(|_| Error::BadAuthData)
}

/// How a decoded `user:pass` entry splits: at the first `:`; an empty
/// side becomes absence; without a `:` there is neither user nor
/// password.
pub open spec fn spec_split_credentials(s: Seq<char>) -> (Option<Seq<char>>, Option<Seq<char>>) {
    match find_idx(s, ':') {
        None => (None, None),
        Some(i) => {
            let u = s.subrange(0, i);
            let p = s.subrange(i + 1, s.len() as int);
            if u.len() == 0 {
                (None, Some(p))
            } else if p.len() == 0 {
                (Some(u), None)
            } else {
                (Some(u), Some(p))
            }
        },
    }
}

/// Split a decoded `user:pass` entry.
pub fn split_credentials(s: &str) -> (r: (Option<String>, Option<String>))
    ensures
        ({
            let (su, sp) = spec_split_credentials(s@);
            &&& (r.0 is Some <==> su is Some)
            &&& (r.1 is Some <==> sp is Some)
            &&& (r.0 is Some ==> r.0->0@ == su->0)
            &&& (r.1 is Some ==> r.1->0@ == sp->0)
        }),
{
    let len = s.unicode_len();
    match find_char(s, ':') {
        None => (None, None),
        Some(i) => {
            proof {
                lemma_find_idx(s@, ':');
            }
            let u = s.substring_char(0, i);
            let p = s.substring_char(i + 1, len);
            if u.unicode_len() == 0 {
                (None, Some(p.to_owned()))
            } else if p.unicode_len() == 0 {
                (Some(u.to_owned()), None)
            } else {
                (Some(u.to_owned()), Some(p.to_owned()))
            }
        },
    }
}

/// Decode one stored auth entry: base64, then UTF-8, then the
/// `user:pass` split.
pub fn decode_credentials(auth: &str) -> (r: Result<(Option<String>, Option<String>), Error>)
    ensures
        r is Ok <==> base64_decode_of(auth@) is Some && utf8_chars_of(base64_decode_of(auth@)->0)
            is Some,
        r is Err ==> r->Err_0 == Error::BadAuthData,
        r is Ok ==> ({
            let (su, sp) = spec_split_credentials(utf8_chars_of(base64_decode_of(auth@)->0)->0);
            &&& (r->Ok_0.0 is Some <==> su is Some)
            &&& (r->Ok_0.1 is Some <==> sp is Some)
            &&& (r->Ok_0.0 is Some ==> r->Ok_0.0->0@ == su->0)
            &&& (r->Ok_0.1 is Some ==> r->Ok_0.1->0@ == sp->0)
        }),
{
    let raw = match base64_decode(auth) {
        Ok(b) => b,
        Err(e) => {
            return Err(e);
        },
    };
    let text = match utf8_to_string(raw) {
        Ok(t) => t,
        Err(e) => {
            return Err(e);
        },
    };
    Ok(split_credentials(text.as_str()))
}

/// Look up and decode the credentials for `index` in a parsed
/// credential table: the index is canonicalized, a missing entry is
/// reported with the canonical index, and a present entry is decoded
/// as base64 of `user:pass`.
pub fn credentials_for_index(auths: &Vec<(String, String)>, index: &str) -> (r: Result<
    (Option<String>, Option<String>),
    Error,
>)
    ensures
        spec_lookup(auths@, spec_canonical_index(index@)) is None ==> (r is Err && (r->Err_0
            matches Error::AuthInfoMissing(m) && m@ == spec_canonical_index(index@))),
        spec_lookup(auths@, spec_canonical_index(index@)) matches Some(a) ==> {
            &&& (r is Ok <==> base64_decode_of(a) is Some && utf8_chars_of(
                base64_decode_of(a)->0,
            ) is Some)
            &&& (r is Err ==> r->Err_0 == Error::BadAuthData)
            &&& (r is Ok ==> ({
                let (su, sp) = spec_split_credentials(utf8_chars_of(base64_decode_of(a)->0)->0);
                &&& (r->Ok_0.0 is Some <==> su is Some)
                &&& (r->Ok_0.1 is Some <==> sp is Some)
                &&& (r->Ok_0.0 is Some ==> r->Ok_0.0->0@ == su->0)
                &&& (r->Ok_0.1 is Some ==> r->Ok_0.1->0@ == sp->0)
            }))
        },
{
    let real_index = canonical_index(index);
    match lookup_auth(auths, real_index.as_str()) {
        None => Err(Error::AuthInfoMissing(real_index)),
        Some(a) => {
            let auth = a.clone();
            decode_credentials(auth.as_str())
        },
    }
}

} // verus!
