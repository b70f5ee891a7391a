use ghregistry::Error;
use ghregistry::creds::{
    canonical_index, credentials_for_index, decode_credentials, lookup_auth, split_credentials,
};
use ghregistry::tags::{paginated_url, pagination_step, parse_link, tags_url, find_substr, trim_end_matches_str};
use ghregistry::v2::{ensure_v2, v2_support_from_response, v2_supported_of};

#[test]
fn substring_search_finds_the_first_occurrence() {
    assert_eq!(find_substr("a=1&next_page=tok&n=3", "next_page="), Some(4));
    assert_eq!(find_substr("nothing here", "next_page="), None);
    assert_eq!(find_substr("abcabc", "abc"), Some(0));
}

#[test]
fn suffix_trim_is_repeated() {
    assert_eq!(trim_end_matches_str("abxyxy", "xy"), "ab");
    assert_eq!(trim_end_matches_str("abxy", "zz"), "abxy");
    assert_eq!(trim_end_matches_str("ab", ""), "ab");
}

#[test]
fn link_header_yields_the_token() {
    let hdr = "<https://reg/v2/img/tags/list?n=3&next_page=TOKEN>; rel=\"next\"".to_string();
    assert_eq!(parse_link(Some(&hdr)), Some("TOKEN".to_string()));
    let hdr = "<https://reg/v2/img/tags/list?next_page=TOK&n=3>; rel=\"next\"".to_string();
    assert_eq!(parse_link(Some(&hdr)), Some("TOK".to_string()));
}

#[test]
fn link_header_without_token_yields_nothing() {
    assert_eq!(parse_link(None), None);
    let hdr = "<https://reg/v2/img/tags/list?n=3>; rel=\"next\"".to_string();
    assert_eq!(parse_link(Some(&hdr)), None);
    let hdr = "<https://reg/v2/img/tags/list?next_page=&n=3>; rel=\"next\"".to_string();
    assert_eq!(parse_link(Some(&hdr)), None);
}

#[test]
fn pagination_url_carries_the_parameters() {
    assert_eq!(paginated_url("B", Some(3), &None), "B?n=3");
    assert_eq!(paginated_url("B", None, &Some("T".to_string())), "B?next_page=T");
    assert_eq!(paginated_url("B", Some(3), &Some("T".to_string())), "B?n=3&next_page=T");
    assert_eq!(paginated_url("B", None, &None), "B");
}

#[test]
fn tags_endpoint_is_under_v2() {
    assert_eq!(tags_url("https://reg", "library/busybox"), "https://reg/v2/library/busybox/tags/list");
}

#[test]
fn pagination_stops_without_a_link() {
    assert_eq!(pagination_step(None), (false, None));
    assert_eq!(pagination_step(Some("".to_string())), (true, None));
    assert_eq!(pagination_step(Some("T".to_string())), (true, Some("T".to_string())));
}

#[test]
fn v2_probe_reads_status_and_header() {
    let v = "registry/2.0".to_string();
    assert_eq!(v2_support_from_response(200, Some(&v)).unwrap(), (true, true));
    assert_eq!(v2_support_from_response(401, Some(&v)).unwrap(), (true, false));
    let other = "registry/1.0".to_string();
    assert_eq!(v2_support_from_response(200, Some(&other)).unwrap(), (false, true));
    assert_eq!(
        v2_support_from_response(200, None).unwrap_err(),
        Error::UnexpectedHttpStatus(200)
    );
    assert_eq!(
        v2_support_from_response(500, Some(&v)).unwrap_err(),
        Error::UnexpectedHttpStatus(500)
    );
}

#[test]
fn v2_support_swallows_unexpected_statuses() {
    assert_eq!(v2_supported_of(Ok((true, false))).unwrap(), true);
    assert_eq!(v2_supported_of(Err(Error::UnexpectedHttpStatus(500))).unwrap(), false);
    assert_eq!(
        v2_supported_of(Err(Error::DownloadFailed)).unwrap_err(),
        Error::DownloadFailed
    );
}

#[test]
fn v2_is_required() {
    assert!(ensure_v2(true).is_ok());
    assert_eq!(ensure_v2(false).unwrap_err(), Error::V2NotSupported);
}

#[test]
fn docker_io_is_rewritten() {
    assert_eq!(canonical_index("docker.io"), "https://index.docker.io/v1/");
    assert_eq!(canonical_index("registry-1.docker.io"), "https://index.docker.io/v1/");
    assert_eq!(canonical_index("quay.io"), "quay.io");
}

#[test]
fn lookup_returns_the_first_match() {
    let auths = vec![
        ("a".to_string(), "one".to_string()),
        ("b".to_string(), "two".to_string()),
        ("a".to_string(), "three".to_string()),
    ];
    assert_eq!(lookup_auth(&auths, "a"), Some(&"one".to_string()));
    assert_eq!(lookup_auth(&auths, "b"), Some(&"two".to_string()));
    assert_eq!(lookup_auth(&auths, "c"), None);
}

#[test]
fn credentials_split_at_the_first_colon() {
    assert_eq!(
        split_credentials("user:pass"),
        (Some("user".to_string()), Some("pass".to_string()))
    );
    assert_eq!(split_credentials(":pass"), (None, Some("pass".to_string())));
    assert_eq!(split_credentials("user:"), (Some("user".to_string()), None));
    assert_eq!(split_credentials("nocolon"), (None, None));
    assert_eq!(
        split_credentials("u:p:q"),
        (Some("u".to_string()), Some("p:q".to_string()))
    );
}

#[test]
fn stored_auth_decodes_to_user_and_password() {
    let auth = base64::encode("user:pass");
    assert_eq!(
        decode_credentials(&auth).unwrap(),
        (Some("user".to_string()), Some("pass".to_string()))
    );
    let auth = base64::encode(":pass");
    assert_eq!(decode_credentials(&auth).unwrap(), (None, Some("pass".to_string())));
}

#[test]
fn bad_base64_is_refused() {
    assert_eq!(decode_credentials("!!!not base64!!!").unwrap_err(), Error::BadAuthData);
}

#[test]
fn invalid_utf8_is_refused() {
    let auth = base64::encode([0xffu8, 0xfe, 0xfd]);
    assert_eq!(decode_credentials(&auth).unwrap_err(), Error::BadAuthData);
}

#[test]
fn missing_index_reports_the_canonical_name() {
    let auths = vec![("https://other".to_string(), base64::encode("u:p"))];
    match credentials_for_index(&auths, "docker.io") {
        Err(Error::AuthInfoMissing(m)) => assert_eq!(m, "https://index.docker.io/v1/"),
        other => panic!("expected a missing-auth error, got {:?}", other),
    }
}

#[test]
fn present_index_is_decoded() {
    let auths = vec![(
        "https://index.docker.io/v1/".to_string(),
        base64::encode("user:pass"),
    )];
    assert_eq!(
        credentials_for_index(&auths, "docker.io").unwrap(),
        (Some("user".to_string()), Some("pass".to_string()))
    );
}
