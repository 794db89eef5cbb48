use gcsdrop::adc::{
    adc_kind_from_source, adc_source, detect_adc_kind, kind_for_type_field, kind_from_json,
    well_known_adc_path, AdcKind, AdcSource,
};

#[test]
fn kind_from_json_reads_the_type_field() {
    let cases = [
        (r#"{"type":"authorized_user"}"#, AdcKind::AuthorizedUser),
        (r#"{"type":"service_account"}"#, AdcKind::ServiceAccountKey),
        (
            r#"{"type":"impersonated_service_account"}"#,
            AdcKind::Impersonated,
        ),
        (r#"{"type":"external_account"}"#, AdcKind::ExternalAccount),
    ];
    for (json, expected) in cases {
        assert_eq!(kind_from_json(json), expected, "json: {json}");
    }
}

#[test]
fn unknown_type_is_reported_verbatim() {
    assert_eq!(
        kind_from_json(r#"{"type":"martian_account"}"#),
        AdcKind::Unknown("martian_account".into())
    );
}

#[test]
fn malformed_json_is_unknown() {
    assert!(matches!(kind_from_json("not json"), AdcKind::Unknown(_)));
}

#[test]
fn signing_kinds_are_classified_correctly() {
    assert!(AdcKind::MetadataServer.can_sign());
    assert!(AdcKind::Impersonated.can_sign());
    assert!(AdcKind::ServiceAccountKey.can_sign());
    assert!(!AdcKind::AuthorizedUser.can_sign());
    assert!(!AdcKind::ExternalAccount.can_sign());
}

#[test]
fn missing_credentials_file_cannot_sign() {
    assert!(!AdcKind::MissingCredentialsFile("/nope/missing.json".into()).can_sign());
}

#[test]
fn env_pointing_at_a_missing_file_is_reported_not_silently_ignored() {
    // The named file cannot be read, so there are no contents.
    let source = Some(AdcSource::FromEnv("/nope/does-not-exist.json".into()));
    assert!(matches!(
        adc_kind_from_source(source, None),
        AdcKind::MissingCredentialsFile(_)
    ));
}

#[test]
fn well_known_file_missing_falls_back_to_metadata_server() {
    let source = Some(AdcSource::WellKnown("/nope/does-not-exist.json".into()));
    assert_eq!(adc_kind_from_source(source, None), AdcKind::MetadataServer);
}

#[test]
fn unreadable_env_file_keeps_its_path() {
    let source = Some(AdcSource::FromEnv("/nope/x.json".into()));
    assert_eq!(
        adc_kind_from_source(source, None),
        AdcKind::MissingCredentialsFile("/nope/x.json".into())
    );
}

#[test]
fn readable_file_is_classified_by_its_type() {
    let source = Some(AdcSource::WellKnown("/home/u/adc.json".into()));
    assert_eq!(
        adc_kind_from_source(source, Some(r#"{"type":"authorized_user"}"#.into())),
        AdcKind::AuthorizedUser
    );
    assert_eq!(adc_kind_from_source(None, None), AdcKind::MetadataServer);
}

#[test]
fn json_without_a_type_string_is_unknown() {
    assert_eq!(
        kind_from_json(r#"{"kind":"authorized_user"}"#),
        AdcKind::Unknown("missing type field".into())
    );
    assert_eq!(
        kind_from_json(r#"{"type":7}"#),
        AdcKind::Unknown("missing type field".into())
    );
    assert_eq!(kind_from_json("[1,2]"), AdcKind::Unknown("missing type field".into()));
    assert_eq!(kind_from_json("{"), AdcKind::Unknown("unparseable".into()));
}

#[test]
fn type_field_classification_without_parsing() {
    assert_eq!(kind_for_type_field(None), AdcKind::Unknown("unparseable".into()));
    assert_eq!(
        kind_for_type_field(Some(Some("external_account".into()))),
        AdcKind::ExternalAccount
    );
}

#[test]
fn well_known_path_joins_below_home() {
    assert_eq!(
        well_known_adc_path("/home/u"),
        "/home/u/.config/gcloud/application_default_credentials.json"
    );
    assert_eq!(
        well_known_adc_path("/home/u/"),
        "/home/u/.config/gcloud/application_default_credentials.json"
    );
    assert_eq!(
        well_known_adc_path(""),
        ".config/gcloud/application_default_credentials.json"
    );
}

#[test]
fn env_variable_wins_over_the_well_known_file() {
    assert_eq!(
        adc_source(Some("/x.json".into()), Some("/home/u".into()), true),
        Some(AdcSource::FromEnv("/x.json".into()))
    );
    assert_eq!(
        adc_source(None, Some("/home/u".into()), true),
        Some(AdcSource::WellKnown(
            "/home/u/.config/gcloud/application_default_credentials.json".into()
        ))
    );
    assert_eq!(adc_source(None, Some("/home/u".into()), false), None);
    assert_eq!(adc_source(None, None, true), None);
}

#[test]
fn detection_combines_source_and_contents() {
    assert_eq!(detect_adc_kind(None, None, false, None), AdcKind::MetadataServer);
    assert_eq!(
        detect_adc_kind(Some("/gone.json".into()), None, false, None),
        AdcKind::MissingCredentialsFile("/gone.json".into())
    );
    assert_eq!(
        detect_adc_kind(
            None,
            Some("/home/u".into()),
            true,
            Some(r#"{"type":"impersonated_service_account"}"#.into())
        ),
        AdcKind::Impersonated
    );
}
