//! Which kind of Application Default Credentials is in play, where they come
//! from, and whether they can sign a URL.

use vstd::prelude::*;
use crate::text::{join_path, opt_chars, path_join, str_eq};

verus! {

/// Which flavour of Application Default Credentials is in play.
#[derive(Debug, Clone, PartialEq, Eq)]
pub enum AdcKind {
    /// No credentials file; falls back to the GCE/GKE metadata server.
    MetadataServer,
    ServiceAccountKey,
    Impersonated,
    AuthorizedUser,
    ExternalAccount,
    /// GOOGLE_APPLICATION_CREDENTIALS is set but names a file that cannot be
    /// read. Distinct from the well-known file being absent, which means
    /// "fall back to the metadata server".
    MissingCredentialsFile(String),
    Unknown(String),
}

/// The mathematical value of an [`AdcKind`]: its text payloads as character sequences.
pub enum AdcKindView {
    MetadataServer,
    ServiceAccountKey,
    Impersonated,
    AuthorizedUser,
    ExternalAccount,
    MissingCredentialsFile(Seq<char>),
    Unknown(Seq<char>),
}

impl View for AdcKind {
    type V = AdcKindView;

    open spec fn view(&self) -> AdcKindView {
        match self {
            AdcKind::MetadataServer => AdcKindView::MetadataServer,
            AdcKind::ServiceAccountKey => AdcKindView::ServiceAccountKey,
            AdcKind::Impersonated => AdcKindView::Impersonated,
            AdcKind::AuthorizedUser => AdcKindView::AuthorizedUser,
            AdcKind::ExternalAccount => AdcKindView::ExternalAccount,
            AdcKind::MissingCredentialsFile(p) => AdcKindView::MissingCredentialsFile(p@),
            AdcKind::Unknown(s) => AdcKindView::Unknown(s@),
        }
    }
}

/// Whether credentials of this kind can produce a V4 signed URL.
pub open spec fn kind_can_sign(k: AdcKindView) -> bool {
    ||| k is MetadataServer
    ||| k is ServiceAccountKey
    ||| k is Impersonated
}

impl AdcKind {
    /// Whether a V4 signed URL can be produced with these credentials.
    pub fn can_sign(&self) -> (b: bool)
        ensures
            b == kind_can_sign(self@),
    {
        match self {
            AdcKind::MetadataServer | AdcKind::ServiceAccountKey | AdcKind::Impersonated => true,
            _ => false,
        }
    }
}

/// Exactly three kinds of credentials can sign: the metadata server, a
/// service account key and an impersonated service account. Every other
/// kind cannot, whatever an unknown or missing kind carries.
pub proof fn lemma_signing_kinds(k: AdcKindView)
    ensures
        kind_can_sign(k) <==> (k is MetadataServer || k is ServiceAccountKey || k is Impersonated),
        k is Unknown ==> !kind_can_sign(k),
        k is MissingCredentialsFile ==> !kind_can_sign(k),
        k is AuthorizedUser ==> !kind_can_sign(k),
        k is ExternalAccount ==> !kind_can_sign(k),
{
}

/// Where the credentials file came from. A GOOGLE_APPLICATION_CREDENTIALS
/// that names a missing file is a configuration error, while the well-known
/// gcloud file being absent means "use the metadata server".
#[derive(Debug, Clone, PartialEq, Eq)]
pub enum AdcSource {
    FromEnv(String),
    WellKnown(String),
}

/// The mathematical value of an [`AdcSource`].
pub enum AdcSourceView {
    FromEnv(Seq<char>),
    WellKnown(Seq<char>),
}

impl View for AdcSource {
    type V = AdcSourceView;

    open spec fn view(&self) -> AdcSourceView {
        match self {
            AdcSource::FromEnv(p) => AdcSourceView::FromEnv(p@),
            AdcSource::WellKnown(p) => AdcSourceView::WellKnown(p@),
        }
    }
}

/// The view of an optional source.
pub open spec fn source_view(s: Option<AdcSource>) -> Option<AdcSourceView> {
    match s {
        Some(x) => Some(x@),
        None => None,
    }
}

/// The gcloud credentials file below a home directory, relative part.
pub open spec fn well_known_suffix() -> Seq<char> {
    ".config/gcloud/application_default_credentials.json"@
}

/// The gcloud credentials file below the home directory `home`.
pub open spec fn well_known_path(home: Seq<char>) -> Seq<char> {
    path_join(home, well_known_suffix())
}

/// Path of the gcloud credentials file below the home directory `home`.
pub fn well_known_adc_path(home: &str) -> (p: String)
    ensures
        p@ == well_known_path(home@),
{
    join_path(home, ".config/gcloud/application_default_credentials.json")
}

/// Where to look for a credentials file: the file GOOGLE_APPLICATION_CREDENTIALS
/// names when it is set; otherwise the well-known gcloud file below the home
/// directory, when there is a home directory and that file exists; otherwise
/// nowhere, which means the metadata server.
pub open spec fn spec_adc_source(
    gac: Option<Seq<char>>,
    home: Option<Seq<char>>,
    well_known_exists: bool,
) -> Option<AdcSourceView> {
    match gac {
        Some(p) => Some(AdcSourceView::FromEnv(p)),
        None => match home {
            Some(h) => if well_known_exists {
                Some(AdcSourceView::WellKnown(well_known_path(h)))
            } else {
                None
            },
            None => None,
        },
    }
}

/// Where to look for a credentials file, given the value of
/// GOOGLE_APPLICATION_CREDENTIALS, the home directory, and whether the
/// well-known file below that home directory exists. `None` means "fall back
/// to the GCE/GKE metadata server", a valid configuration, not an error.
pub fn adc_source(gac: Option<String>, home: Option<String>, well_known_exists: bool) -> (r: Option<
    AdcSource,
>)
    ensures
        source_view(r) == spec_adc_source(opt_chars(gac), opt_chars(home), well_known_exists),
{
    match gac {
        Some(p) => Some(AdcSource::FromEnv(p)),
        None => match home {
            Some(h) => if well_known_exists {
                Some(AdcSource::WellKnown(well_known_adc_path(h.as_str())))
            } else {
                None
            },
            None => None,
        },
    }
}

/// What parsing `text` as JSON yields for its field `key`: `None` when the
/// text is not JSON; `Some(None)` when it is, but is not an object with a
/// string-valued field `key`; `Some(Some(t))` when that field holds the
/// string `t`.
pub uninterp spec fn json_string_field(text: Seq<char>, key: Seq<char>) -> Option<Option<Seq<char>>>;

/// What parsing `text` as JSON yields for its `"type"` field.
pub open spec fn json_type_field(text: Seq<char>) -> Option<Option<Seq<char>>> {
    json_string_field(text, "type"@)
}

/// Parses `text` with `serde_json::from_str` into a `serde_json::Value` and
/// reads its field `key` with `Value::get`, keeping it when it is a JSON
/// string. The contract claims only that the result is a function of the
/// text and the key, named [`json_string_field`].
#[verifier::external_body]
fn parse_string_field(text: &str, key: &str) -> (r: Option<Option<String>>)
    ensures
        r.deep_view() == json_string_field(text@, key@),
{
    match serde_json::from_str::<serde_json::Value>(text) {
        Ok(v) => match v.get(key) {
            Some(serde_json::Value::String(t)) => Some(Some(t.clone())),
            _ => Some(None),
        },
        Err(_) => None,
    }
}

/// The kind named by the `"type"` field of a credentials file, given what
/// parsing that file found (see [`json_type_field`]).
pub open spec fn kind_of_type_field(field: Option<Option<Seq<char>>>) -> AdcKindView {
    match field {
        None => AdcKindView::Unknown("unparseable"@),
        Some(None) => AdcKindView::Unknown("missing type field"@),
        Some(Some(t)) => if t == "authorized_user"@ {
            AdcKindView::AuthorizedUser
        } else if t == "service_account"@ {
            AdcKindView::ServiceAccountKey
        } else if t == "impersonated_service_account"@ {
            AdcKindView::Impersonated
        } else if t == "external_account"@ {
            AdcKindView::ExternalAccount
        } else {
            AdcKindView::Unknown(t)
        },
    }
}

/// Classifies a credentials file by what parsing it found: `None` for text
/// that is not JSON, `Some(None)` for JSON without a string `"type"` field,
/// `Some(Some(t))` for a `"type"` of `t`. An unrecognised type is reported
/// verbatim.
pub fn kind_for_type_field(field: Option<Option<String>>) -> (k: AdcKind)
    ensures
        k@ == kind_of_type_field(field.deep_view()),
{
    match field {
        None => AdcKind::Unknown("unparseable".to_owned()),
        Some(None) => AdcKind::Unknown("missing type field".to_owned()),
        Some(Some(t)) => {
            if str_eq(t.as_str(), "authorized_user") {
                AdcKind::AuthorizedUser
            } else if str_eq(t.as_str(), "service_account") {
                AdcKind::ServiceAccountKey
            } else if str_eq(t.as_str(), "impersonated_service_account") {
                AdcKind::Impersonated
            } else if str_eq(t.as_str(), "external_account") {
                AdcKind::ExternalAccount
            } else {
                AdcKind::Unknown(t)
            }
        },
    }
}

/// The kind of credentials a credentials file holds, read from its `"type"`
/// field.
pub fn kind_from_json(s: &str) -> (k: AdcKind)
    ensures
        k@ == kind_of_type_field(json_type_field(s@)),
{
    let field = parse_string_field(s, "type");
    kind_for_type_field(field)
}

/// What kind a credentials source resolves to, given the text read from its
/// file (`None` when it could not be read): no source means the metadata
/// server; an unreadable file named by GOOGLE_APPLICATION_CREDENTIALS is
/// reported as missing; an unreadable well-known file means the metadata
/// server.
pub open spec fn kind_of_source(source: Option<AdcSourceView>, contents: Option<Seq<char>>) -> AdcKindView {
    match source {
        None => AdcKindView::MetadataServer,
        Some(AdcSourceView::FromEnv(p)) => match contents {
            Some(s) => kind_of_type_field(json_type_field(s)),
            None => AdcKindView::MissingCredentialsFile(p),
        },
        Some(AdcSourceView::WellKnown(_)) => match contents {
            Some(s) => kind_of_type_field(json_type_field(s)),
            None => AdcKindView::MetadataServer,
        },
    }
}

/// What ADC kind a source resolves to, given the contents of the file it
/// names (`None` when that file could not be read).
pub fn adc_kind_from_source(source: Option<AdcSource>, contents: Option<String>) -> (k: AdcKind)
    ensures
        k@ == kind_of_source(source_view(source), opt_chars(contents)),
{
    match source {
        None => AdcKind::MetadataServer,
        Some(AdcSource::FromEnv(p)) => match contents {
            Some(s) => kind_from_json(s.as_str()),
            None => AdcKind::MissingCredentialsFile(p),
        },
        Some(AdcSource::WellKnown(_)) => match contents {
            Some(s) => kind_from_json(s.as_str()),
            None => AdcKind::MetadataServer,
        },
    }
}

/// The credentials kind in play, given the value of
/// GOOGLE_APPLICATION_CREDENTIALS, the home directory, whether the well-known
/// file below it exists, and the contents of the file the source names
/// (`None` when unreadable).
pub fn detect_adc_kind(
    gac: Option<String>,
    home: Option<String>,
    well_known_exists: bool,
    contents: Option<String>,
) -> (k: AdcKind)
    ensures
        k@ == kind_of_source(
            spec_adc_source(opt_chars(gac), opt_chars(home), well_known_exists),
            opt_chars(contents),
        ),
{
    adc_kind_from_source(adc_source(gac, home, well_known_exists), contents)
}

/// Which credentials can sign: with no credentials file (or an unreadable
/// well-known one) the metadata server signs, as does an
/// `impersonated_service_account` file; an `authorized_user` or
/// `external_account` file cannot sign, and neither can an unreadable file
/// named by GOOGLE_APPLICATION_CREDENTIALS.
pub proof fn lemma_which_credentials_sign(source: Option<AdcSourceView>, contents: Option<Seq<char>>)
    ensures
        source is None ==> kind_can_sign(kind_of_source(source, contents)),
        (source matches Some(AdcSourceView::WellKnown(_)) && contents is None) ==> kind_can_sign(
            kind_of_source(source, contents),
        ),
        (source matches Some(AdcSourceView::FromEnv(_)) && contents is None) ==> !kind_can_sign(
            kind_of_source(source, contents),
        ),
        (source is Some && contents is Some && json_type_field(contents->0) == Some(
            Some("impersonated_service_account"@),
        )) ==> kind_can_sign(kind_of_source(source, contents)),
        (source is Some && contents is Some && (json_type_field(contents->0) == Some(
            Some("authorized_user"@),
        ) || json_type_field(contents->0) == Some(Some("external_account"@)))) ==> !kind_can_sign(
            kind_of_source(source, contents),
        ),
{
    reveal_strlit("authorized_user");
    reveal_strlit("service_account");
    reveal_strlit("impersonated_service_account");
    reveal_strlit("external_account");
    assert("authorized_user"@.len() == 15);
    assert("service_account"@.len() == 15);
    assert("impersonated_service_account"@.len() == 28);
    assert("external_account"@.len() == 16);
    if source is Some && contents is Some {
        let k = kind_of_type_field(json_type_field(contents->0));
        assert(kind_of_source(source, contents) == k);
    }
}

} // verus!
