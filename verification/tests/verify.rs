use gcsdrop::verify::{explain_failure, Probe};

#[test]
fn two_hundred_is_ok() {
    assert!(Probe {
        status: 200,
        body: None
    }
    .is_ok());
}

#[test]
fn partial_content_from_the_ranged_get_is_ok() {
    // The probe sends Range: bytes=0-0, so a healthy signed URL answers
    // 206, not 200 — that must still count as success.
    assert!(Probe {
        status: 206,
        body: None
    }
    .is_ok());
}

#[test]
fn four_oh_three_is_not_ok() {
    assert!(!Probe {
        status: 403,
        body: None
    }
    .is_ok());
}

#[test]
fn explain_403_names_object_viewer_and_the_bucket() {
    let msg = explain_failure(403, None, "my-bucket");
    assert!(msg.contains("roles/storage.objectViewer"), "{msg}");
    assert!(msg.contains("gs://my-bucket"), "{msg}");
    assert!(msg.contains("storage.objects.get"), "{msg}");
}

#[test]
fn explain_403_warns_about_list_exposure() {
    let msg = explain_failure(403, None, "my-bucket");
    assert!(msg.contains("storage.objects.list"), "{msg}");
    assert!(msg.contains("enumerate"), "{msg}");
}

#[test]
fn explain_403_says_create_works_but_read_does_not() {
    let msg = explain_failure(403, None, "my-bucket");
    assert!(msg.contains("can create objects"), "{msg}");
    assert!(msg.contains("cannot read them back"), "{msg}");
}

#[test]
fn explain_403_includes_the_real_gcs_body_when_present() {
    let body = "<Error><Code>AccessDenied</Code>\
                 <Message>Access denied.</Message>\
                 <Details>does not have storage.objects.get access</Details></Error>";
    let msg = explain_failure(403, Some(body), "my-bucket");
    assert!(msg.contains("storage.objects.get access"), "{msg}");
}

#[test]
fn explain_403_tolerates_missing_body() {
    let msg = explain_failure(403, None, "my-bucket");
    assert!(!msg.contains("GCS said"), "{msg}");
}

#[test]
fn explain_403_tolerates_empty_body() {
    let msg = explain_failure(403, Some("   "), "my-bucket");
    assert!(!msg.contains("GCS said"), "{msg}");
}

#[test]
fn explain_non_403_names_the_status_code() {
    let msg = explain_failure(404, None, "my-bucket");
    assert!(msg.contains("404"), "{msg}");
    assert!(!msg.contains("objectViewer"), "{msg}");
}

#[test]
fn explain_never_pretends_the_link_works() {
    for status in [401, 403, 404, 500, 503] {
        let msg = explain_failure(status, None, "my-bucket");
        assert!(msg.contains("worse than no link"), "status {status}: {msg}");
    }
}

#[test]
fn body_is_trimmed_and_indented_line_by_line() {
    let msg = explain_failure(500, Some("  first\r\nsecond\n\n"), "b");
    assert!(
        msg.ends_with("worse than no link.\n\nGCS said:\n\n    first\n    second"),
        "{msg}"
    );
}

#[test]
fn explain_exact_text_for_other_statuses() {
    assert_eq!(
        explain_failure(0, None, "b"),
        "The upload succeeded and a signed URL was produced, but fetching that URL with no \
         credentials returned HTTP 0 instead of success — that is exactly what whoever you \
         send this link to would see. Nothing was printed, because a link that does not work \
         is worse than no link."
    );
}

#[test]
fn probe_keeps_only_failure_bodies_and_caps_them() {
    let ok = Probe::from_response(206, Some("x".into()));
    assert_eq!(ok.body, None);
    let long = "é".repeat(2500);
    let p = Probe::from_response(403, Some(long));
    assert_eq!(p.body.as_deref().map(|b| b.chars().count()), Some(2000));
    let p = Probe::from_response(500, None);
    assert_eq!(p.body, None);
    let p = Probe::from_response(404, Some("gone".into()));
    assert_eq!(p.body.as_deref(), Some("gone"));
}
