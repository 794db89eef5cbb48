use gcsdrop::config::from_vars;

#[test]
fn bucket_is_required() {
    let err = from_vars(None, None).unwrap_err();
    let msg = err.to_string();
    assert!(msg.contains("GCSDROP_BUCKET"), "got: {msg}");
}

#[test]
fn prefix_defaults_to_gcsdrop() {
    let c = from_vars(Some("my-bucket".into()), None).unwrap();
    assert_eq!(c.bucket, "my-bucket");
    assert_eq!(c.prefix, "gcsdrop");
}

#[test]
fn prefix_can_be_overridden() {
    let c = from_vars(Some("b".into()), Some("reports".into())).unwrap();
    assert_eq!(c.prefix, "reports");
}

#[test]
fn prefix_slashes_are_trimmed() {
    let c = from_vars(Some("b".into()), Some("/reports/".into())).unwrap();
    assert_eq!(c.prefix, "reports");
}

#[test]
fn empty_prefix_is_allowed() {
    let c = from_vars(Some("b".into()), Some("".into())).unwrap();
    assert_eq!(c.prefix, "");
}

#[test]
fn gs_scheme_is_stripped_from_bucket() {
    let c = from_vars(Some("gs://my-bucket".into()), None).unwrap();
    assert_eq!(c.bucket, "my-bucket");
}

#[test]
fn bucket_that_normalizes_to_empty_is_rejected() {
    let err = from_vars(Some("gs://".into()), None)
        .unwrap_err()
        .to_string();
    assert!(err.contains("GCSDROP_BUCKET"), "got: {err}");
}

#[test]
fn bucket_of_only_slashes_is_rejected() {
    let err = from_vars(Some("/".into()), None).unwrap_err().to_string();
    assert!(err.contains("GCSDROP_BUCKET"), "got: {err}");
}

#[test]
fn bucket_whitespace_and_repeated_schemes_are_removed() {
    let c = from_vars(Some("  gs://gs://my-bucket/ \n".into()), Some(" /a/b/ ".into())).unwrap();
    assert_eq!(c.bucket, "my-bucket");
    assert_eq!(c.prefix, "a/b");
}

#[test]
fn unicode_whitespace_is_trimmed_like_str_trim() {
    let c = from_vars(Some("\u{3000}b\u{a0}".into()), None).unwrap();
    assert_eq!(c.bucket, "b");
}

#[test]
fn scheme_prefix_is_optional() {
    for b in ["my-bucket", "my-bucket/", "gs://x", "   ", "", "a b"] {
        assert_eq!(
            from_vars(Some(format!("gs://{b}")), None),
            from_vars(Some(b.to_string()), None),
            "bucket setting {b:?}"
        );
    }
    // A leading space is kept after the scheme, so the two differ there.
    assert_ne!(
        from_vars(Some("gs:// x".into()), None),
        from_vars(Some(" x".into()), None)
    );
}
