//! Tag listing: the paginated URL, the `Link` header parser that
//! yields the next-page token, and the loop decision that drives the
//! pagination. The HTTP requests themselves happen outside the crate.

use vstd::prelude::*;
use vstd::string::StrSliceExecFns;
use vstd::string::StringExecFns;

use crate::digest::{find_idx, find_char, lemma_find_idx};
use crate::strutil::{str_eq, u64_to_dec, dec_rep};

verus! {

/// The index of the first occurrence of `pat` as a substring of `s`,
/// if any.
pub open spec fn find_sub(s: Seq<char>, pat: Seq<char>) -> Option<int>
    decreases s.len(),
{
    if pat.len() == 0 {
        Some(0int)
    } else if s.len() < pat.len() {
        None
    } else if s.subrange(0, pat.len() as int) == pat {
        Some(0int)
    } else {
        match find_sub(s.drop_first(), pat) {
            Some(i) => Some(i + 1),
            None => None,
        }
    }
}

/// `find_sub` finds exactly the first occurrence.
pub proof fn lemma_find_sub(s: Seq<char>, pat: Seq<char>)
    ensures
        match find_sub(s, pat) {
            Some(i) => 0 <= i && i + pat.len() <= s.len() && s.subrange(i, i + pat.len() as int)
                == pat && forall|k: int|
                0 <= k < i ==> #[trigger] s.subrange(k, k + pat.len() as int) != pat,
            None => forall|k: int|
                0 <= k && k + pat.len() <= s.len() ==> #[trigger] s.subrange(k, k + pat.len() as int)
                    != pat,
        },
    decreases s.len(),
{
    if pat.len() == 0 {
        assert(s.subrange(0, 0) =~= pat);
    } else if s.len() >= pat.len() && s.subrange(0, pat.len() as int) != pat {
        lemma_find_sub(s.drop_first(), pat);
        assert forall|k: int| 1 <= k && k + pat.len() <= s.len() implies #[trigger] s.subrange(
            k,
            k + pat.len() as int,
        ) == s.drop_first().subrange(k - 1, k - 1 + pat.len() as int) by {
            assert(s.subrange(k, k + pat.len() as int) =~= s.drop_first().subrange(
                k - 1,
                k - 1 + pat.len() as int,
            ));
        }
    }
}

/// Find the first occurrence of `pat` as a substring of `s`.
pub fn find_substr(s: &str, pat: &str) -> (r: Option<usize>)
    ensures
        match r {
            Some(i) => find_sub(s@, pat@) == Some(i as int),
            None => find_sub(s@, pat@) is None,
        },
{
    proof {
        lemma_find_sub(s@, pat@);
    }
    let slen = s.unicode_len();
    let plen = pat.unicode_len();
    if plen == 0 {
        proof {
            assert(s@.subrange(0, 0) =~= pat@);
        }
        return Some(0);
    }
    if plen > slen {
        return None;
    }
    let mut i: usize = 0;
    while i <= slen - plen
        invariant
            slen == s@.len(),
            plen == pat@.len(),
            1 <= plen <= slen,
            i <= slen - plen + 1,
            forall|k: int| 0 <= k < i ==> #[trigger] s@.subrange(k, k + plen as int) != pat@,
        decreases slen - plen - i + 1,
    {
        let cand = s.substring_char(i, i + plen);
        if str_eq(cand, pat) {
            proof {
                lemma_find_sub(s@, pat@);
                assert(s@.subrange(i as int, i as int + plen as int) == pat@);
                match find_sub(s@, pat@) {
                    Some(k) => {
                        if k < i as int {
                            assert(s@.subrange(k, k + plen as int) != pat@);
                        }
                        if k > i as int {
                            assert(s@.subrange(i as int, i as int + plen as int) != pat@);
                        }
                        assert(k == i as int);
                    },
                    None => {
                        assert(s@.subrange(i as int, i as int + plen as int) != pat@);
                    },
                }
            }
            return Some(i);
        }
        i = i + 1;
    }
    None
}

/// The string with every copy of `suffix` trimmed off its end.
pub open spec fn trim_end(s: Seq<char>, suffix: Seq<char>) -> Seq<char>
    decreases s.len(),
{
    if suffix.len() > 0 && s.len() >= suffix.len() && s.subrange(
        s.len() - suffix.len(),
        s.len() as int,
    ) == suffix {
        trim_end(s.subrange(0, s.len() - suffix.len()), suffix)
    } else {
        s
    }
}

/// Trim every copy of `suffix` off the end of `s`.
pub fn trim_end_matches_str(s: &str, suffix: &str) -> (r: String)
    ensures
        r@ == trim_end(s@, suffix@),
    decreases s@.len(),
{
    let slen = s.unicode_len();
    let plen = suffix.unicode_len();
    if plen == 0 || slen < plen {
        return s.to_owned();
    }
    let tail = s.substring_char(slen - plen, slen);
    if str_eq(tail, suffix) {
        let head = s.substring_char(0, slen - plen);
        trim_end_matches_str(head, suffix)
    } else {
        s.to_owned()
    }
}

/// What the `Link` header value yields as the next-page token: trim
/// the `rel="next"` suffix, take what follows the first `next_page=`
/// up to the next `&`, and require it nonempty.
pub open spec fn spec_parse_link(s: Seq<char>) -> Option<Seq<char>> {
    let uri = trim_end(s, ">; rel=\"next\""@);
    match find_sub(uri, "next_page="@) {
        None => None,
        Some(i) => {
            let params = uri.subrange(i + "next_page="@.len(), uri.len() as int);
            let tok = match find_idx(params, '&') {
                Some(j) => params.subrange(0, j),
                None => params,
            };
            if tok.len() > 0 {
                Some(tok)
            } else {
                None
            }
        },
    }
}

/// Parse a `Link` header value into the next-page token, if one is
/// named.
pub fn parse_link(hdr: Option<&str>) -> (r: Option<String>)
    ensures
        match hdr {
            Some(h) => (match spec_parse_link(h@) {
                Some(t) => r is Some && r->0@ == t,
                None => r is None,
            }),
            None => r is None,
        },
{
    let h = match hdr {
        Some(h) => h,
        None => {
            return None;
        },
    };
    let uri = trim_end_matches_str(h, ">; rel=\"next\"");
    let ulen = uri.as_str().unicode_len();
    let i = match find_substr(uri.as_str(), "next_page=") {
        Some(i) => i,
        None => {
            return None;
        },
    };
    proof {
        lemma_find_sub(uri@, "next_page="@);
    }
    let plen = "next_page=".unicode_len();
    let params = uri.as_str().substring_char(i + plen, ulen);
    let tok = match find_char(params, '&') {
        Some(j) => {
            proof {
                lemma_find_idx(params@, '&');
            }
            params.substring_char(0, j)
        },
        None => params,
    };
    if tok.unicode_len() > 0 {
        Some(tok.to_owned())
    } else {
        None
    }
}

/// The tag-listing URL with its pagination query: `?n=` when a page
/// size is set, `?next_page=` when a token is in hand, both when both
/// are.
pub fn paginated_url(base_url: &str, paginate: Option<u32>, link: &Option<String>) -> (r: String)
    ensures
        r@ == (match (paginate, link) {
            (Some(p), None) => base_url@ + "?n="@ + dec_rep(p as nat),
            (None, Some(l)) => base_url@ + "?next_page="@ + l@,
            (Some(p), Some(l)) => base_url@ + "?n="@ + dec_rep(p as nat) + "&next_page="@ + l@,
            (None, None) => base_url@,
        }),
{
    match (paginate, link) {
        (Some(p), None) => {
            let mut out = base_url.to_owned();
            out.append("?n=");
            let n = u64_to_dec(p as u64);
            out.append(n.as_str());
            out
        },
        (None, Some(l)) => {
            let mut out = base_url.to_owned();
            out.append("?next_page=");
            out.append(l.as_str());
            out
        },
        (Some(p), Some(l)) => {
            let mut out = base_url.to_owned();
            out.append("?n=");
            let n = u64_to_dec(p as u64);
            out.append(n.as_str());
            out.append("&next_page=");
            out.append(l.as_str());
            out
        },
        (None, None) => base_url.to_owned(),
    }
}

/// The tag-listing endpoint `{base}/v2/{name}/tags/list`.
pub fn tags_url(base_url: &str, name: &str) -> (r: String)
    ensures
        r@ == base_url@ + "/v2/"@ + name@ + "/tags/list"@,
{
    let mut out = base_url.to_owned();
    out.append("/v2/");
    out.append(name);
    out.append("/tags/list");
    out
}

/// One pagination step: no token ends the loop; an empty token means
/// one more round without a `next_page` parameter; a nonempty token is
/// carried into the next request.
pub fn pagination_step(last: Option<String>) -> (r: (bool, Option<String>))
    ensures
        r.0 == (last is Some),
        r.1 == (match last {
            None => None::<String>,
            Some(s) => if s@.len() == 0 {
                None::<String>
            } else {
                Some(s)
            },
        }),
{
    match last {
        None => (false, None),
        Some(s) => {
            if s.as_str().unicode_len() == 0 {
                (true, None)
            } else {
                (true, Some(s))
            }
        },
    }
}

} // verus!
