use ghregistry::Error;
use ghregistry::blobs::{
    BlobStream, FetchPlan, FileTransfer, blob_url, evaluate_blob_response, head_status_means_present,
    plan_blob_fetch, pre_body_check, range_header_value, ranges_supported,
};
use ghregistry::digest::{Algorithm, ContentDigest, ContentDigestError, Hasher};

fn digest_of(data: &[u8]) -> ContentDigest {
    let mut h = Hasher::start(Algorithm::Sha256);
    h.update(data);
    ContentDigest::try_new(&format!("sha256:{}", h.finalize_hex())).unwrap()
}

#[test]
fn head_probe_only_trusts_200() {
    assert!(head_status_means_present(200));
    assert!(!head_status_means_present(204));
    assert!(!head_status_means_present(404));
    assert!(!head_status_means_present(401));
}

#[test]
fn pre_body_check_filters_statuses() {
    assert!(pre_body_check(200).is_ok());
    assert!(pre_body_check(404).is_ok());
    assert_eq!(pre_body_check(500).unwrap_err(), Error::UnexpectedHttpStatus(500));
    assert_eq!(pre_body_check(302).unwrap_err(), Error::UnexpectedHttpStatus(302));
}

#[test]
fn blob_url_is_the_v2_endpoint() {
    let d = ContentDigest::try_new(
        "sha256:e3b0c44298fc1c149afbf4c8996fb92427ae41e4649b934ca495991b7852b855",
    )
    .unwrap();
    assert_eq!(
        blob_url("https://reg.example.com", "library/busybox", &d),
        "https://reg.example.com/v2/library/busybox/blobs/sha256:e3b0c44298fc1c149afbf4c8996fb92427ae41e4649b934ca495991b7852b855"
    );
}

#[test]
fn buffered_fetch_verifies_body() {
    let body = b"payload".to_vec();
    let d = digest_of(&body);
    let r = evaluate_blob_response(&d, 200, body.clone()).unwrap();
    assert_eq!(r, body);
}

#[test]
fn mismatched_body_is_a_digest_error() {
    let d = digest_of(b"world");
    match evaluate_blob_response(&d, 200, b"hello".to_vec()) {
        Err(Error::Digest(ContentDigestError::DigestMismatch { expected, actual })) => {
            let mut h = Hasher::start(Algorithm::Sha256);
            h.update(b"hello");
            assert_eq!(actual, h.finalize_hex());
            assert_ne!(expected, actual);
        }
        other => panic!("expected a digest mismatch, got {:?}", other),
    }
}

#[test]
fn client_error_preserves_the_body() {
    let d = digest_of(b"irrelevant");
    let json = br#"{"errors":[{"code":"UNAUTHORIZED"}]}"#.to_vec();
    match evaluate_blob_response(&d, 401, json.clone()) {
        Err(Error::Client { status, len, body }) => {
            assert_eq!(status, 401);
            assert_eq!(len, json.len());
            assert_eq!(body, json);
        }
        other => panic!("expected a client error, got {:?}", other),
    }
}

#[test]
fn server_error_is_unexpected() {
    let d = digest_of(b"x");
    assert_eq!(
        evaluate_blob_response(&d, 503, Vec::new()).unwrap_err(),
        Error::UnexpectedHttpStatus(503)
    );
}

#[test]
fn streamed_fetch_matches_buffered_fetch() {
    let d = digest_of(b"chunked content arrives in pieces");
    let mut s = BlobStream::begin(d);
    let mut events = Vec::new();
    events.push(s.push_chunk(b"chunked content "));
    events.push(s.push_chunk(b"arrives "));
    events.push(s.push_chunk(b"in pieces"));
    assert_eq!(events, vec![16, 8, 9]);
    let body = s.finish(200).unwrap();
    assert_eq!(body, b"chunked content arrives in pieces".to_vec());
}

#[test]
fn streamed_fetch_reports_truncation_as_mismatch() {
    let d = digest_of(b"the whole body");
    let mut s = BlobStream::begin(d);
    s.push_chunk(b"the whole");
    match s.finish(200) {
        Err(Error::Digest(ContentDigestError::DigestMismatch { .. })) => {}
        other => panic!("expected a digest mismatch, got {:?}", other),
    }
}

#[test]
fn complete_verifying_cache_is_a_hit() {
    let blob = b"cached blob".to_vec();
    let d = digest_of(&blob);
    let p = plan_blob_fetch(&d, Some(blob.len() as u64), Some(&blob));
    assert_eq!(p, FetchPlan::CacheHit);
}

#[test]
fn corrupt_cache_is_deleted_and_refetched() {
    let blob = b"cached blob".to_vec();
    let d = digest_of(b"something else entirely");
    let p = plan_blob_fetch(&d, Some(blob.len() as u64), Some(&blob));
    assert_eq!(p, FetchPlan::Fresh { delete_first: true });
}

#[test]
fn short_cache_resumes_from_its_length() {
    let blob = b"full".to_vec();
    let d = digest_of(&blob);
    let partial = b"fu".to_vec();
    let p = plan_blob_fetch(&d, Some(4), Some(&partial));
    assert_eq!(p, FetchPlan::Resume { offset: 2, limit: 3 });
}

#[test]
fn absent_cache_or_size_means_fresh_fetch() {
    let d = digest_of(b"x");
    assert_eq!(plan_blob_fetch(&d, Some(9), None), FetchPlan::Fresh { delete_first: false });
    let cached = b"abc".to_vec();
    assert_eq!(plan_blob_fetch(&d, None, Some(&cached)), FetchPlan::Fresh { delete_first: false });
    assert_eq!(plan_blob_fetch(&d, None, None), FetchPlan::Fresh { delete_first: false });
}

#[test]
fn range_header_names_both_bounds() {
    assert_eq!(range_header_value(4, 10), "bytes=4-10");
    assert_eq!(range_header_value(0, 0), "bytes=0-0");
    assert_eq!(range_header_value(1234567890, 9876543210), "bytes=1234567890-9876543210");
}

#[test]
fn accept_ranges_gates_appending() {
    assert!(!ranges_supported(None));
    assert!(!ranges_supported(Some(&"none".to_string())));
    assert!(ranges_supported(Some(&"bytes".to_string())));
}

#[test]
fn fresh_file_transfer_of_empty_blob() {
    let d = ContentDigest::try_new(
        "sha256:e3b0c44298fc1c149afbf4c8996fb92427ae41e4649b934ca495991b7852b855",
    )
    .unwrap();
    let t = FileTransfer::begin(d, None);
    assert!(t.finish(200).is_ok());
}

#[test]
fn resumed_file_transfer_completes_and_verifies() {
    let blob = b"0123456789".to_vec();
    let d = digest_of(&blob);
    let partial = blob[..4].to_vec();
    let p = plan_blob_fetch(&d, Some(10), Some(&partial));
    assert_eq!(p, FetchPlan::Resume { offset: 4, limit: 9 });
    assert_eq!(range_header_value(4, 9), "bytes=4-9");

    let mut t = FileTransfer::begin(d, Some(&partial));
    let mut total: u64 = t.resume_event();
    total += t.push_chunk(&blob[4..]);
    assert!(total >= 10);
    assert!(t.finish(206).is_ok());
}

#[test]
fn resumption_across_two_calls_totals_the_blob() {
    let blob = b"ten bytes!".to_vec();
    let d = digest_of(&blob);
    let mut total: u64 = 0;

    // First call: fresh fetch, interrupted after four bytes. The file
    // keeps what arrived; the digest check reports the truncation.
    let mut t = FileTransfer::begin(d, None);
    total += t.push_chunk(&blob[..4]);
    assert!(matches!(t.finish(200), Err(Error::Digest(_))));
    let on_disk = blob[..4].to_vec();

    // Second call: the four cached bytes resume the transfer.
    let d = digest_of(&blob);
    let p = plan_blob_fetch(&d, Some(blob.len() as u64), Some(&on_disk));
    assert_eq!(p, FetchPlan::Resume { offset: 4, limit: 9 });
    let mut t = FileTransfer::begin(d, Some(&on_disk));
    total += t.resume_event();
    total += t.push_chunk(&blob[4..]);
    assert!(t.finish(206).is_ok());
    assert!(total >= blob.len() as u64);
}

#[test]
fn downgraded_transfer_hashes_only_the_fresh_body() {
    let blob = b"whole body sent again".to_vec();
    let d = digest_of(&blob);
    let stale = b"stale partial".to_vec();
    let mut t = FileTransfer::begin(d, Some(&stale));
    // The response carried no Accept-Ranges: truncate and start over.
    assert!(!ranges_supported(None));
    t.restart();
    t.push_chunk(&blob);
    assert!(t.finish(200).is_ok());
}

#[test]
fn file_transfer_client_error_has_empty_body() {
    let d = digest_of(b"y");
    let mut t = FileTransfer::begin(d, None);
    t.push_chunk(b"partial error page");
    match t.finish(404) {
        Err(Error::Client { status, len, body }) => {
            assert_eq!(status, 404);
            assert_eq!(len, 18);
            assert!(body.is_empty());
        }
        other => panic!("expected a client error, got {:?}", other),
    }
}

#[test]
fn file_transfer_mismatch_is_reported() {
    let d = digest_of(b"expected content");
    let mut t = FileTransfer::begin(d, None);
    t.push_chunk(b"other content");
    match t.finish(200) {
        Err(Error::Digest(ContentDigestError::DigestMismatch { .. })) => {}
        other => panic!("expected a digest mismatch, got {:?}", other),
    }
}
