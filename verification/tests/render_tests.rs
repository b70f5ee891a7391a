use ghregistry::render::{
    RenderError, check_target, entry_removals, entry_under_prefix, layer_entry_names,
    layer_whiteout_removals, layer_introduces, opaque_dirs, opaque_removals, path_is_absolute,
    strip_whiteout_prefix, whiteout_removals,
};

fn gz_tar(entries: &[(&str, &[u8])]) -> Vec<u8> {
    let mut builder = tar::Builder::new(Vec::new());
    for (path, data) in entries {
        let mut header = tar::Header::new_gnu();
        header.set_size(data.len() as u64);
        header.set_mode(0o644);
        header.set_cksum();
        builder.append_data(&mut header, path, *data).unwrap();
    }
    let tar_bytes = builder.into_inner().unwrap();
    let mut enc = libflate::gzip::Encoder::new(Vec::new()).unwrap();
    std::io::Write::write_all(&mut enc, &tar_bytes).unwrap();
    enc.finish().into_result().unwrap()
}

#[test]
fn absolute_paths_start_with_a_slash() {
    assert!(path_is_absolute("/var/lib"));
    assert!(!path_is_absolute("var/lib"));
    assert!(!path_is_absolute(""));
}

#[test]
fn relative_target_is_refused() {
    match check_target("relative/dir", true, true) {
        Err(RenderError::WrongTargetPath(p)) => assert_eq!(p, "relative/dir"),
        other => panic!("expected a wrong-target error, got {:?}", other),
    }
}

#[test]
fn missing_target_is_refused() {
    assert!(matches!(
        check_target("/no/such/dir", false, false),
        Err(RenderError::WrongTargetPath(_))
    ));
    assert!(matches!(
        check_target("/a/file/not/a/dir", true, false),
        Err(RenderError::WrongTargetPath(_))
    ));
    assert!(check_target("/tmp", true, true).is_ok());
}

#[test]
fn whiteout_prefix_strips_repeatedly() {
    assert_eq!(strip_whiteout_prefix(".wh.a"), "a");
    assert_eq!(strip_whiteout_prefix(".wh..wh.a"), "a");
    assert_eq!(strip_whiteout_prefix("plain"), "plain");
}

#[test]
fn root_whiteout_removes_sibling_and_placeholder() {
    let paths = entry_removals("/t", ".wh.a");
    assert_eq!(paths, vec!["/t/./a".to_string(), "/t/./.wh.a".to_string()]);
}

#[test]
fn nested_whiteout_keeps_its_parent() {
    let paths = entry_removals("/t", "etc/.wh.shadow");
    assert_eq!(
        paths,
        vec!["/t/./etc/shadow".to_string(), "/t/./etc/.wh.shadow".to_string()]
    );
}

#[test]
fn opaque_marker_removes_only_its_placeholder() {
    assert_eq!(
        entry_removals("/t", "etc/.wh..wh..opq"),
        vec!["/t/./etc/.wh..wh..opq".to_string()]
    );
    assert_eq!(entry_removals("/t", ".wh..wh..opq"), vec!["/t/./.wh..wh..opq".to_string()]);
    assert!(entry_removals("/t", "etc/hosts").is_empty());
}

#[test]
fn prefix_test_respects_path_components() {
    assert!(entry_under_prefix("etc", "etc"));
    assert!(entry_under_prefix("etc/hosts", "etc"));
    assert!(entry_under_prefix("etc/ssl/certs", "etc"));
    assert!(!entry_under_prefix("etcetera", "etc"));
    assert!(!entry_under_prefix("et", "etc"));
}

#[test]
fn opaque_dirs_are_the_markers_parents() {
    let names = vec![
        "etc/hosts".to_string(),
        "var/cache/.wh..wh..opq".to_string(),
        ".wh..wh..opq".to_string(),
    ];
    assert_eq!(opaque_dirs(&names), vec!["var/cache".to_string(), "".to_string()]);
}

#[test]
fn layer_introduction_checks_dir_children() {
    let names = vec!["var/cache/keep".to_string(), "var/cache/sub/file".to_string()];
    assert!(layer_introduces(&names, "var/cache", "keep"));
    assert!(layer_introduces(&names, "var/cache", "sub"));
    assert!(!layer_introduces(&names, "var/cache", "gone"));
}

#[test]
fn opaque_removal_spares_reintroduced_children() {
    let names = vec![
        "var/cache/.wh..wh..opq".to_string(),
        "var/cache/keep".to_string(),
    ];
    let snapshot = vec!["keep".to_string(), "old1".to_string(), "old2".to_string()];
    assert_eq!(
        opaque_removals("/t", "var/cache", &snapshot, &names),
        vec!["/t/./var/cache/old1".to_string(), "/t/./var/cache/old2".to_string()]
    );
}

#[test]
fn removal_list_keeps_entry_order() {
    let names = vec![
        "etc/hosts".to_string(),
        "etc/.wh.shadow".to_string(),
        ".wh.a".to_string(),
    ];
    let rs = whiteout_removals("/t", &names);
    assert_eq!(
        rs,
        vec![
            "/t/./etc/shadow".to_string(),
            "/t/./etc/.wh.shadow".to_string(),
            "/t/./a".to_string(),
            "/t/./.wh.a".to_string(),
        ]
    );
}

#[test]
fn layer_names_come_back_in_archive_order() {
    let layer = gz_tar(&[("etc/hosts", b"A"), ("etc/.wh.shadow", b"")]);
    let names = layer_entry_names(&layer).unwrap();
    assert_eq!(names, vec!["etc/hosts".to_string(), "etc/.wh.shadow".to_string()]);
}

#[test]
fn layer_scan_finds_whiteouts_in_a_real_archive() {
    let layer = gz_tar(&[
        ("etc/hosts", b"content B"),
        ("etc/.wh.shadow", b""),
    ]);
    let rs = layer_whiteout_removals(&layer, "/t").unwrap();
    assert_eq!(
        rs,
        vec!["/t/./etc/shadow".to_string(), "/t/./etc/.wh.shadow".to_string()]
    );
}

#[test]
fn layer_without_whiteouts_removes_nothing() {
    let layer = gz_tar(&[("etc/hosts", b"content A"), ("etc/shadow", b"secret")]);
    let rs = layer_whiteout_removals(&layer, "/t").unwrap();
    assert!(rs.is_empty());
}

#[test]
fn opaque_scan_of_a_real_archive_names_inherited_children() {
    let layer = gz_tar(&[
        ("var/cache/.wh..wh..opq", b""),
        ("var/cache/keep", b"fresh"),
    ]);
    let names = layer_entry_names(&layer).unwrap();
    assert_eq!(opaque_dirs(&names), vec!["var/cache".to_string()]);
    let snapshot = vec!["keep".to_string(), "stale".to_string()];
    assert_eq!(
        opaque_removals("/t", "var/cache", &snapshot, &names),
        vec!["/t/./var/cache/stale".to_string()]
    );
    // The marker placeholder itself goes with the whiteout pass.
    assert_eq!(
        whiteout_removals("/t", &names),
        vec!["/t/./var/cache/.wh..wh..opq".to_string()]
    );
}

#[test]
fn garbage_layer_is_an_io_error() {
    let r = layer_whiteout_removals(b"not gzip at all", "/t");
    assert_eq!(r.unwrap_err(), RenderError::Io);
}
