use gcsdrop::adc::{AdcKind, AdcSource};
use gcsdrop::errors::{cannot_sign, explain, render, ErrorChain};

/// The layers of an error's context chain, outermost first.
fn chain(err: &anyhow::Error) -> ErrorChain {
    ErrorChain::new(err.chain().map(|c| c.to_string()).collect())
}

#[test]
fn authorized_user_advice_names_the_gcloud_fix() {
    let msg = cannot_sign(&AdcKind::AuthorizedUser);
    assert!(msg.contains("--impersonate-service-account"), "{msg}");
    assert!(msg.contains("serviceAccountTokenCreator"), "{msg}");
}

#[test]
fn authorized_user_advice_warns_before_overwriting_adc() {
    // That login is machine-wide: it replaces this machine's ADC for
    // every tool that reads them, not just gcsdrop. Silently sending
    // someone into it with no backup step is how they lose their own
    // working credentials.
    let msg = cannot_sign(&AdcKind::AuthorizedUser);
    assert!(msg.contains("overwrites"), "{msg}");
    assert!(
        msg.contains("cp ~/.config/gcloud/application_default_credentials.json"),
        "{msg}"
    );
}

#[test]
fn external_account_advice_differs_from_authorized_user() {
    let a = cannot_sign(&AdcKind::AuthorizedUser);
    let b = cannot_sign(&AdcKind::ExternalAccount);
    assert_ne!(a, b);
    assert!(b.contains("Workload Identity Federation"), "{b}");
}

#[test]
fn external_account_advice_does_not_suggest_a_bare_login() {
    // The auth library's build_signer() rejects `external_account`
    // outright, regardless of what fields are set inside that credential —
    // so a plain re-login can never fix this, and the advice must not
    // imply otherwise.
    let msg = cannot_sign(&AdcKind::ExternalAccount);
    assert!(
        !msg.contains("gcloud auth application-default login \\"),
        "must not suggest re-running the interactive login: {msg}"
    );
    assert!(msg.contains("impersonated_service_account"), "{msg}");
    assert!(msg.contains("source_credentials"), "{msg}");
}

#[test]
fn sign_blob_403_gets_the_self_grant_recipe() {
    let err = anyhow::Error::msg("iamcredentials signBlob returned 403 PERMISSION_DENIED");
    let msg = explain(&chain(&err), "my-bucket", None).expect("should be recognised");
    assert!(msg.contains("serviceAccountTokenCreator"), "{msg}");
    assert!(msg.contains("on itself"), "{msg}");
}

#[test]
fn upload_403_gets_the_bucket_binding_recipe() {
    let err = anyhow::Error::msg("failed to upload index.html: 403 storage.objects.create denied");
    let msg = explain(&chain(&err), "my-bucket", None).expect("should be recognised");
    assert!(msg.contains("storage.objectCreator"), "{msg}");
    assert!(msg.contains("buckets add-iam-policy-binding"), "{msg}");
    assert!(
        msg.contains("gs://my-bucket"),
        "must name the real bucket: {msg}"
    );
}

#[test]
fn upload_403_advice_also_names_object_viewer() {
    // objectCreator fixes THIS failure (can't write), but a signer with
    // only objectCreator will go on to produce signed URLs that 403 for
    // everyone they're shared with. Telling the reader about
    // objectViewer here, while they're already granting bucket IAM,
    // saves them a second round trip through this same troubleshooting
    // flow.
    let err = anyhow::Error::msg("failed to upload index.html: 403 storage.objects.create denied");
    let msg = explain(&chain(&err), "my-bucket", None).expect("should be recognised");
    assert!(msg.contains("storage.objectViewer"), "{msg}");
}

#[test]
fn unrecognised_errors_get_no_advice() {
    let err = anyhow::Error::msg("connection reset by peer");
    assert_eq!(explain(&chain(&err), "my-bucket", None), None);
}

#[test]
fn verify_failure_text_does_not_trigger_the_upload_403_advice() {
    // explain_failure()'s 403 message says "the upload succeeded ...
    // returned 403 Forbidden". A looser `contains("upload") &&
    // contains("403")` match would append the unrelated "grant
    // objectCreator" advice under it, contradicting the diagnosis (the
    // upload HAD succeeded). Feed the real generated text through, so
    // wording changes to either function re-run this check.
    let verify_msg = gcsdrop::verify::explain_failure(403, None, "my-bucket");
    let err = anyhow::Error::msg(verify_msg);
    assert_eq!(
        explain(&chain(&err), "my-bucket", None),
        None,
        "verify's own 403 message must not also get the upload-403 advice appended"
    );
}

#[test]
fn missing_credentials_advice_never_tells_you_to_repoint_the_variable() {
    let msg = cannot_sign(&AdcKind::MissingCredentialsFile("/nope/x.json".into()));
    // Advice to run
    //   export GOOGLE_APPLICATION_CREDENTIALS=/path/to/credentials.json
    // followed by `gcloud auth application-default login` would leave the
    // reader stuck: that login writes to the well-known path, never to the
    // variable's path.
    assert!(
        !msg.contains("export GOOGLE_APPLICATION_CREDENTIALS="),
        "must not tell the reader to repoint the variable: {msg}"
    );
    assert!(
        msg.contains("/nope/x.json"),
        "must name the offending path: {msg}"
    );
}

// A real `invalid_rapt` failure, captured verbatim from a user's
// terminal (impersonated_service_account ADC whose source_credentials
// had aged out). Deliberately NOT shortened: the six-times-wrapped
// repetition is exactly what the `contains("invalid_rapt")` /
// `contains("invalid_grant")` matching below has to survive, and what
// `render()`'s dedup (tested further down) has to collapse.
const REAL_INVALID_RAPT_ERROR: &str = "failed to sign a URL for gcsdrop/20260907-022446-u86t51co/20260906_issue-471_API金鑰代管驗收.html: signing failed: failed to generate signature via IAM API: cannot create the authentication headers Request to fetch the token failed. Subsequent calls with this credential will also fail. and future attempts will not succeed: failed to generate signature via IAM API: cannot create the authentication headers Request to fetch the token failed. Subsequent calls with this credential will also fail. and future attempts will not succeed: cannot create the authentication headers Request to fetch the token failed. Subsequent calls with this credential will also fail. and future attempts will not succeed: Request to fetch the token failed. Subsequent calls with this credential will also fail. and future attempts will not succeed: cannot create the authentication headers Request to fetch the token failed. Subsequent calls with this credential will also fail. and future attempts will not succeed: Request to fetch the token failed. Subsequent calls with this credential will also fail. and future attempts will not succeed: cannot create the authentication headers failed to refresh user access token, body=<{
  \"error\": \"invalid_grant\",
  \"error_description\": \"reauth related error (invalid_rapt)\",
  \"error_uri\": \"https://support.google.com/a/answer/9368756\",
  \"error_subtype\": \"invalid_rapt\"
}> and future attempts will not succeed: failed to refresh user access token, body=<{
  \"error\": \"invalid_grant\",
  \"error_description\": \"reauth related error (invalid_rapt)\",
  \"error_uri\": \"https://support.google.com/a/answer/9368756\",
  \"error_subtype\": \"invalid_rapt\"
}> and future attempts will not succeed: HTTP status client error (400 Bad Request) for url (https://oauth2.googleapis.com/token)";

#[test]
fn credential_expiry_with_plain_user_creds_says_just_log_in_again() {
    let err = anyhow::Error::msg(REAL_INVALID_RAPT_ERROR);
    let well_known = AdcSource::WellKnown(
        "/home/u/.config/gcloud/application_default_credentials.json".into(),
    );
    let msg = explain(&chain(&err), "my-bucket", Some(&well_known)).expect("should be recognised");
    assert!(
        msg.contains("gcloud auth application-default login"),
        "{msg}"
    );
    // Nothing else to regenerate for plain user creds — must not send
    // the reader chasing a file that doesn't need rebuilding.
    assert!(!msg.contains("Regenerate"), "{msg}");
}

#[test]
fn credential_expiry_with_no_adc_source_falls_back_to_plain_login_advice() {
    // No classified source (the metadata-server case) shouldn't happen
    // for this error in practice, but must still produce something
    // sane rather than panicking or guessing at a file to rebuild.
    let err = anyhow::Error::msg(REAL_INVALID_RAPT_ERROR);
    let msg = explain(&chain(&err), "my-bucket", None).expect("should be recognised");
    assert!(
        msg.contains("gcloud auth application-default login"),
        "{msg}"
    );
}

#[test]
fn credential_expiry_with_impersonation_file_names_the_path_and_readme() {
    let err = anyhow::Error::msg(REAL_INVALID_RAPT_ERROR);
    let from_env = AdcSource::FromEnv("/home/u/.config/gcsdrop/adc.json".into());
    let msg = explain(&chain(&err), "my-bucket", Some(&from_env)).expect("should be recognised");
    assert!(
        msg.contains("/home/u/.config/gcsdrop/adc.json"),
        "must name the actual file, not a generic placeholder: {msg}"
    );
    assert!(
        msg.contains("NOT enough"),
        "must say logging in again is not sufficient: {msg}"
    );
    assert!(msg.contains("source_credentials"), "{msg}");
    assert!(
        msg.contains("gcloud auth application-default login"),
        "logging in again is still step 1, just not the whole fix: {msg}"
    );
    assert!(
        msg.to_lowercase().contains("scoped credentials file"),
        "must point at the README section that has the real rebuild command: {msg}"
    );
    // This project forbids service account key files; the advice must
    // say plainly that the impersonation file is not one.
    assert!(
        msg.contains("That file is not a service account key"),
        "{msg}"
    );
}

#[test]
fn credential_expiry_advice_names_it_as_a_reauth_policy_not_a_bug() {
    // A user who thinks the tool is broken debugs the wrong thing.
    // invalid_rapt specifically means the org requires periodic
    // re-authentication — that has to be said plainly.
    let err = anyhow::Error::msg(REAL_INVALID_RAPT_ERROR);
    let msg = explain(&chain(&err), "my-bucket", None).expect("should be recognised");
    assert!(msg.to_lowercase().contains("re-authentication"), "{msg}");
    assert!(!msg.to_lowercase().contains("bug"), "{msg}");
}

#[test]
fn credential_expiry_also_matches_bare_invalid_grant() {
    // invalid_grant is the broader OAuth "this refresh token no longer
    // works" error; invalid_rapt is one specific cause of it. Both must
    // land on this same advice, not just the reauth-specific one.
    let err = anyhow::Error::msg(
        "failed to refresh user access token, body=<{\"error\": \"invalid_grant\", \"error_description\": \"Token has been expired or revoked.\"}>"
    );
    let msg = explain(&chain(&err), "my-bucket", None).expect("should be recognised");
    assert!(
        msg.contains("gcloud auth application-default login"),
        "{msg}"
    );
}

#[test]
fn render_reproduces_the_real_message_from_a_plain_context_chain() {
    // Sanity check on the fixture used below: if this assertion fails,
    // build_real_chain_error() no longer matches the real bug report
    // and the render() tests are no longer testing the real thing.
    let err = build_real_chain_error();
    assert_eq!(format!("{err:#}"), REAL_INVALID_RAPT_ERROR);
}

#[test]
fn render_collapses_the_repeated_auth_failure_sentence() {
    let err = build_real_chain_error();
    let rendered = render(&chain(&err));
    let sentence = "Request to fetch the token failed. Subsequent calls with this credential will also fail.";
    let occurrences = rendered.matches(sentence).count();
    assert_eq!(
        occurrences, 1,
        "sentence must appear once, not repeated 4x: {rendered}"
    );
}

#[test]
fn render_keeps_the_top_context_and_the_real_root_cause() {
    let err = build_real_chain_error();
    let rendered = render(&chain(&err));
    assert!(rendered.contains("failed to sign a URL for gcsdrop/20260907-022446-u86t51co"));
    assert!(rendered.contains("invalid_rapt"));
    assert!(rendered.contains("HTTP status client error (400 Bad Request)"));
}

#[test]
fn render_is_shorter_than_the_naive_alternate_format() {
    let err = build_real_chain_error();
    assert!(render(&chain(&err)).len() < format!("{err:#}").len());
}

#[test]
fn render_matches_plain_alternate_format_when_nothing_repeats() {
    // Most error paths in this codebase are plain anyhow .context()
    // chains with no overlap between layers — render() must not touch
    // those at all.
    let err = anyhow::Error::msg("root cause")
        .context("middle")
        .context("top");
    assert_eq!(render(&chain(&err)), format!("{err:#}"));
}

/// Reconstructs the exact chain of error layers behind
/// `REAL_INVALID_RAPT_ERROR`, using plain `anyhow` `.context()` calls.
///
/// google-cloud-auth's real error types (`CredentialsError`,
/// `google_cloud_gax::error::Error`) aren't reachable from here to
/// build a live one, so this reproduces their OBSERVED behavior
/// instead: an auth-header wrapper whose `Display` bakes in its
/// source's full text (`"cannot create the authentication headers
/// {source}"`), stacked several levels deep because signing a URL
/// needs a token, which itself needs a token from source_credentials,
/// which itself needs an HTTP call that can fail. Layer order and text
/// were extracted directly from `REAL_INVALID_RAPT_ERROR` (see
/// `render_reproduces_the_real_message_from_a_plain_context_chain`
/// above, which checks this reconstruction is faithful).
fn build_real_chain_error() -> anyhow::Error {
    const D: &str = "Request to fetch the token failed. Subsequent calls with this credential will also fail. and future attempts will not succeed";
    let json_body = "{\n  \"error\": \"invalid_grant\",\n  \"error_description\": \"reauth related error (invalid_rapt)\",\n  \"error_uri\": \"https://support.google.com/a/answer/9368756\",\n  \"error_subtype\": \"invalid_rapt\"\n}";
    let f = format!(
        "failed to refresh user access token, body=<{json_body}> and future attempts will not succeed"
    );
    let auth_wrap_d = format!("cannot create the authentication headers {D}");
    let auth_wrap_f = format!("cannot create the authentication headers {f}");
    const C: &str = "failed to generate signature via IAM API";

    let e = anyhow::Error::msg(
        "HTTP status client error (400 Bad Request) for url (https://oauth2.googleapis.com/token)"
    );
    let e = e.context(f);
    let e = e.context(auth_wrap_f);
    let e = e.context(D.to_string());
    let e = e.context(auth_wrap_d.clone());
    let e = e.context(D.to_string());
    let e = e.context(auth_wrap_d.clone());
    let e = e.context(auth_wrap_d.clone());
    let e = e.context(C.to_string());
    let e = e.context(auth_wrap_d);
    let e = e.context(C.to_string());
    let e = e.context("signing failed".to_string());
    e.context(
        "failed to sign a URL for gcsdrop/20260907-022446-u86t51co/20260906_issue-471_API金鑰代管驗收.html".to_string(),
    )
}

#[test]
fn alternate_matches_anyhow_alternate_format() {
    let err = build_real_chain_error();
    assert_eq!(chain(&err).alternate(), format!("{err:#}"));
}

#[test]
fn render_keeps_empty_layers_and_skips_the_separator_at_the_start() {
    let c = ErrorChain::new(vec!["".to_string(), "b".to_string(), "".to_string()]);
    assert_eq!(render(&c), "b: ");
    let c = ErrorChain::new(vec!["a x".to_string(), "x".to_string(), "y".to_string()]);
    assert_eq!(render(&c), "a x: y");
}

#[test]
fn other_kinds_name_themselves_in_debug_form() {
    let msg = cannot_sign(&AdcKind::Unknown("martian\"account".into()));
    assert!(msg.starts_with("Your Application Default Credentials (Unknown(\"martian\\\"account\")) cannot sign URLs."), "{msg}");
    let msg = cannot_sign(&AdcKind::MetadataServer);
    assert!(msg.contains("(MetadataServer)"), "{msg}");
}

#[test]
fn expiry_advice_wins_over_permission_advice() {
    let err = anyhow::Error::msg("failed to upload x: 403 INVALID_GRANT");
    let msg = explain(&chain(&err), "b", None).expect("should be recognised");
    assert!(msg.contains("log in again"), "{msg}");
}

#[test]
fn rendering_starts_with_the_top_layer_and_keeps_every_layer() {
    let err = build_real_chain_error();
    let c = chain(&err);
    let rendered = render(&c);
    for layer in &c.layers {
        assert!(rendered.contains(layer.as_str()), "{layer}");
    }
    assert!(rendered.starts_with(&c.layers[0]));
}
