//! The v2 protocol probe: what the `GET /v2/` response says about
//! support and authorization. The request itself happens outside the
//! crate, which hands the status and the version header here.

use vstd::prelude::*;

use crate::Error;
use crate::strutil::str_eq;

verus! {

/// The value the version header must carry.
pub open spec fn spec_api_version() -> Seq<char> {
    "registry/2.0"@
}

/// Judge the `GET /v2/` response: 200 with the version header means
/// supported and authorized, 401 with the header means supported but
/// unauthorized (the registry answered as a v2 registry even while
/// refusing entry), anything else is unexpected.
pub fn v2_support_from_response(status: u16, api_header: Option<&String>) -> (r: Result<
    (bool, bool),
    Error,
>)
    ensures
        status == 200 && api_header is Some ==> r is Ok && r->Ok_0.0 == (api_header->0@
            == spec_api_version()) && r->Ok_0.1 == true,
        status == 401 && api_header is Some ==> r is Ok && r->Ok_0.0 == (api_header->0@
            == spec_api_version()) && r->Ok_0.1 == false,
        !((status == 200 || status == 401) && api_header is Some) ==> r is Err && r->Err_0
            == Error::UnexpectedHttpStatus(status),
{
    match api_header {
        Some(h) => {
            if status == 200 {
                Ok((str_eq(h.as_str(), "registry/2.0"), true))
            } else if status == 401 {
                Ok((str_eq(h.as_str(), "registry/2.0"), false))
            } else {
                Err(Error::UnexpectedHttpStatus(status))
            }
        },
        None => Err(Error::UnexpectedHttpStatus(status)),
    }
}

/// Reduce the probe's outcome to bare support: an unexpected status
/// counts as no support; any other failure is passed through.
pub fn v2_supported_of(outcome: Result<(bool, bool), Error>) -> (r: Result<bool, Error>)
    ensures
        outcome matches Ok(pair) ==> r is Ok && r->Ok_0 == pair.0,
        (outcome matches Err(e) && e matches Error::UnexpectedHttpStatus(_)) ==> r is Ok
            && r->Ok_0 == false,
        (outcome matches Err(e) && !(e matches Error::UnexpectedHttpStatus(_))) ==> r is Err
            && r->Err_0 == outcome->Err_0,
{
    match outcome {
        Ok((v2_supported, _)) => Ok(v2_supported),
        Err(Error::UnexpectedHttpStatus(_)) => Ok(false),
        Err(e) => Err(e),
    }
}

/// The registry must support v2; otherwise refuse it.
pub fn ensure_v2(supported: bool) -> (r: Result<(), Error>)
    ensures
        r is Ok <==> supported,
        r is Err ==> r->Err_0 == Error::V2NotSupported,
{
    if supported {
        Ok(())
    } else {
        Err(Error::V2NotSupported)
    }
}

} // verus!
