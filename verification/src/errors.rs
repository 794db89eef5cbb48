//! Error chains, their rendering, and the advice printed for failures the
//! tool recognises.

use vstd::prelude::*;
use crate::adc::{AdcKind, AdcKindView, AdcSource, AdcSourceView};
use crate::text::{
    chars_of, ends_with_chars, join_strings, opt_chars, join_with, occurs_at, seq_contains, seq_ends_with, seq_starts_with, str_contains,
};

verus! {

/// An error as a chain of layers, outermost first: the text of each layer's
/// own message, as an error-context chain yields them.
pub struct ErrorChain {
    pub layers: Vec<String>,
}

impl View for ErrorChain {
    type V = Seq<Seq<char>>;

    open spec fn view(&self) -> Seq<Seq<char>> {
        self.layers@.map_values(|s: String| s@)
    }
}

/// The layer separator of the alternate (`{:#}`) rendering.
pub open spec fn colon_sep() -> Seq<char> {
    seq![':', ' ']
}

/// Every layer, outermost first, separated by `": "`: the alternate
/// rendering of an error chain.
pub open spec fn alternate_text(layers: Seq<Seq<char>>) -> Seq<char> {
    join_with(layers, colon_sep())
}

/// Whether `t` is non-empty and already ends one of the `kept` texts.
pub open spec fn repeats_kept(kept: Seq<Seq<char>>, t: Seq<char>) -> bool {
    t.len() > 0 && exists|j: int| 0 <= j < kept.len() && seq_ends_with(#[trigger] kept[j], t)
}

/// The layers kept so far and the text rendered so far, after reading
/// `layers` in order: a layer that ends a kept one is skipped; any other is
/// kept and appended, after `": "` unless nothing has been written yet.
pub open spec fn render_state(layers: Seq<Seq<char>>) -> (Seq<Seq<char>>, Seq<char>)
    decreases layers.len(),
{
    if layers.len() == 0 {
        (Seq::empty(), Seq::empty())
    } else {
        let (kept, out) = render_state(layers.drop_last());
        let t = layers.last();
        if repeats_kept(kept, t) {
            (kept, out)
        } else if out.len() > 0 {
            (kept.push(t), out + colon_sep() + t)
        } else {
            (kept.push(t), out + t)
        }
    }
}

/// The rendering of an error chain with repeated layers collapsed.
pub open spec fn rendered(layers: Seq<Seq<char>>) -> Seq<char> {
    render_state(layers).1
}

impl ErrorChain {
    /// A chain of the given layers, outermost first.
    pub fn new(layers: Vec<String>) -> (e: ErrorChain)
        ensures
            e.layers@ == layers@,
    {
        ErrorChain { layers }
    }

    /// The alternate rendering: every layer, separated by `": "`.
    pub fn alternate(&self) -> (s: String)
        ensures
            s@ == alternate_text(self@),
    {
        let s = join_strings(&self.layers, ": ");
        proof {
            reveal_strlit(": ");
            assert(": "@ =~= colon_sep());
        }
        s
    }
}

/// Whether some kept text ends with `t`.
fn ends_some(kept: &Vec<Vec<char>>, t: &Vec<char>) -> (b: bool)
    ensures
        b == exists|j: int| 0 <= j < kept@.len() && seq_ends_with(#[trigger] kept@[j]@, t@),
{
    let mut j: usize = 0;
    while j < kept.len()
        invariant
            j <= kept.len(),
            forall|k: int| 0 <= k < j ==> !seq_ends_with(#[trigger] kept@[k]@, t@),
        decreases kept.len() - j,
    {
        if ends_with_chars(&kept[j], t) {
            return true;
        }
        j = j + 1;
    }
    false
}

/// Renders an error chain for display, dropping each layer whose whole
/// (non-empty) text already ends a layer kept before it, so text that an
/// outer layer repeats inline is shown once.
pub fn render(err: &ErrorChain) -> (s: String)
    ensures
        s@ == rendered(err@),
{
    let mut out = String::new();
    let mut kept: Vec<Vec<char>> = Vec::new();
    let n = err.layers.len();
    let mut i: usize = 0;
    while i < n
        invariant
            n == err.layers.len(),
            i <= n,
            kept@.map_values(|v: Vec<char>| v@) == render_state(err@.take(i as int)).0,
            out@ == render_state(err@.take(i as int)).1,
        decreases n - i,
    {
        let ghost pre = err@.take(i as int);
        proof {
            assert(err@.take(i + 1).drop_last() =~= pre);
        }
        let text = chars_of(err.layers[i].as_str());
        let ghost kv = kept@.map_values(|v: Vec<char>| v@);
        let repeated = text.len() > 0 && ends_some(&kept, &text);
        proof {
            if text.len() > 0 {
                if repeated {
                    let j = choose|j: int| 0 <= j < kept@.len() && seq_ends_with(#[trigger] kept@[j]@, text@);
                    assert(seq_ends_with(kv[j], text@));
                } else {
                    assert forall|j: int| 0 <= j < kv.len() implies !seq_ends_with(#[trigger] kv[j], text@) by {
                        assert(kv[j] == kept@[j]@);
                    }
                }
            }
        }
        if !repeated {
            if !out.as_str().is_empty() {
                out.append(": ");
                proof {
                    reveal_strlit(": ");
                    assert(": "@ =~= colon_sep());
                }
            }
            out.append(err.layers[i].as_str());
            kept.push(text);
            proof {
                assert(kept@.map_values(|v: Vec<char>| v@) =~= kv.push(text@));
            }
        }
        i = i + 1;
    }
    assert(err@.take(n as int) =~= err@);
    out
}

proof fn lemma_join_starts_with_first(parts: Seq<Seq<char>>, sep: Seq<char>)
    requires
        parts.len() > 0,
    ensures
        seq_starts_with(join_with(parts, sep), parts[0]),
    decreases parts.len(),
{
    if parts.len() > 1 {
        lemma_join_starts_with_first(parts.drop_last(), sep);
        let j = join_with(parts.drop_last(), sep);
        assert((j + sep + parts.last()).subrange(0, parts[0].len() as int) =~= j.subrange(
            0,
            parts[0].len() as int,
        ));
    } else {
        assert(parts[0].subrange(0, parts[0].len() as int) =~= parts[0]);
    }
}

proof fn lemma_no_repeats_state(layers: Seq<Seq<char>>)
    requires
        layers.len() <= 1 || layers[0].len() > 0,
        forall|i: int, j: int|
            0 <= j < i < layers.len() && (#[trigger] layers[i]).len() > 0 ==> !seq_ends_with(
                #[trigger] layers[j],
                layers[i],
            ),
    ensures
        render_state(layers).0 == layers,
        render_state(layers).1 == alternate_text(layers),
    decreases layers.len(),
{
    if layers.len() > 0 {
        let pre = layers.drop_last();
        assert forall|i: int, j: int|
            0 <= j < i < pre.len() && (#[trigger] pre[i]).len() > 0 implies !seq_ends_with(
            #[trigger] pre[j],
            pre[i],
        ) by {
            assert(pre[i] == layers[i] && pre[j] == layers[j]);
        }
        lemma_no_repeats_state(pre);
        let t = layers.last();
        if t.len() > 0 {
            assert forall|j: int| 0 <= j < pre.len() implies !seq_ends_with(#[trigger] pre[j], t) by {
                assert(pre[j] == layers[j]);
            }
        }
        assert(!repeats_kept(pre, t));
        if pre.len() > 0 {
            lemma_join_starts_with_first(pre, colon_sep());
            assert(pre[0] == layers[0]);
        }
        assert(pre.push(t) =~= layers);
        if pre.len() == 0 {
            assert(Seq::<char>::empty() + t =~= t);
        }
    }
}

/// When no non-empty layer already ends an earlier one, and the outermost
/// layer is non-empty (or alone), rendering changes nothing: the result is
/// the plain alternate rendering, every layer separated by `": "`.
pub proof fn lemma_render_without_repeats(layers: Seq<Seq<char>>)
    requires
        layers.len() <= 1 || layers[0].len() > 0,
        forall|i: int, j: int|
            0 <= j < i < layers.len() && (#[trigger] layers[i]).len() > 0 ==> !seq_ends_with(
                #[trigger] layers[j],
                layers[i],
            ),
    ensures
        rendered(layers) == alternate_text(layers),
{
    lemma_no_repeats_state(layers);
}

proof fn lemma_occurs_extend(out: Seq<char>, x: Seq<char>, w: Seq<char>, p: int)
    requires
        occurs_at(out, w, p),
    ensures
        occurs_at(out + x, w, p),
{
    assert((out + x).subrange(p, p + w.len()) =~= out.subrange(p, p + w.len()));
}

proof fn lemma_lossless_state(layers: Seq<Seq<char>>)
    ensures
        forall|k: int|
            0 <= k < render_state(layers).0.len() ==> seq_contains(
                render_state(layers).1,
                #[trigger] render_state(layers).0[k],
            ),
        forall|i: int|
            0 <= i < layers.len() ==> exists|k: int|
                0 <= k < render_state(layers).0.len() && seq_ends_with(
                    #[trigger] render_state(layers).0[k],
                    #[trigger] layers[i],
                ),
    decreases layers.len(),
{
    if layers.len() > 0 {
        let pre = layers.drop_last();
        lemma_lossless_state(pre);
        let (kept, out) = render_state(pre);
        let t = layers.last();
        let (kept2, out2) = render_state(layers);
        if repeats_kept(kept, t) {
            assert forall|i: int| 0 <= i < layers.len() implies exists|k: int|
                0 <= k < kept2.len() && seq_ends_with(#[trigger] kept2[k], #[trigger] layers[i]) by {
                if i < pre.len() {
                    assert(layers[i] == pre[i]);
                }
            }
        } else {
            let x = if out.len() > 0 { colon_sep() + t } else { t };
            assert(out2 =~= out + x);
            assert forall|k: int| 0 <= k < kept2.len() implies seq_contains(out2, #[trigger] kept2[k]) by {
                if k < kept.len() {
                    assert(kept2[k] == kept[k]);
                    let p = choose|p: int| occurs_at(out, kept[k], p);
                    lemma_occurs_extend(out, x, kept[k], p);
                } else {
                    assert(kept2[k] == t);
                    let p = out2.len() - t.len();
                    assert(out2.subrange(p, p + t.len()) =~= t);
                    assert(occurs_at(out2, t, p));
                }
            }
            assert forall|i: int| 0 <= i < layers.len() implies exists|k: int|
                0 <= k < kept2.len() && seq_ends_with(#[trigger] kept2[k], #[trigger] layers[i]) by {
                if i < pre.len() {
                    assert(layers[i] == pre[i]);
                    let k = choose|k: int|
                        0 <= k < kept.len() && seq_ends_with(#[trigger] kept[k], pre[i]);
                    assert(kept2[k] == kept[k]);
                } else {
                    let k = kept.len() as int;
                    assert(kept2[k] == t);
                    assert(t.subrange(0, t.len() as int) =~= t);
                    assert(seq_ends_with(kept2[k], layers[i]));
                }
            }
        }
    }
}

proof fn lemma_suffix_contained(out: Seq<char>, k: Seq<char>, t: Seq<char>)
    requires
        seq_contains(out, k),
        seq_ends_with(k, t),
    ensures
        seq_contains(out, t),
{
    let p = choose|p: int| occurs_at(out, k, p);
    let q = p + k.len() - t.len();
    assert(out.subrange(q, q + t.len()) =~= k.subrange(k.len() - t.len(), k.len() as int));
    assert(occurs_at(out, t, q));
}

/// Rendering loses no text: the text of every layer of the chain still
/// appears in the rendered message.
pub proof fn lemma_render_keeps_every_layer(layers: Seq<Seq<char>>, i: int)
    requires
        0 <= i < layers.len(),
    ensures
        seq_contains(rendered(layers), layers[i]),
{
    lemma_lossless_state(layers);
    let (kept, out) = render_state(layers);
    let k = choose|k: int| 0 <= k < kept.len() && seq_ends_with(#[trigger] kept[k], layers[i]);
    lemma_suffix_contained(out, kept[k], layers[i]);
}

/// The rendered message is never longer than the alternate rendering.
pub proof fn lemma_render_no_longer(layers: Seq<Seq<char>>)
    ensures
        rendered(layers).len() <= alternate_text(layers).len(),
    decreases layers.len(),
{
    if layers.len() > 0 {
        let pre = layers.drop_last();
        lemma_render_no_longer(pre);
        if pre.len() == 0 {
            assert(render_state(pre).1.len() == 0);
        }
    }
}

/// The rendered message begins with the outermost layer, so the top-level
/// context is always shown first.
pub proof fn lemma_render_starts_with_top(layers: Seq<Seq<char>>)
    requires
        layers.len() > 0,
    ensures
        seq_starts_with(rendered(layers), layers[0]),
    decreases layers.len(),
{
    let pre = layers.drop_last();
    if pre.len() == 0 {
        assert(render_state(pre).0.len() == 0);
        assert(!repeats_kept(render_state(pre).0, layers.last()));
        assert(Seq::<char>::empty() + layers[0] =~= layers[0]);
        assert(layers[0].subrange(0, layers[0].len() as int) =~= layers[0]);
    } else {
        lemma_render_starts_with_top(pre);
        assert(pre[0] == layers[0]);
        let (kept, out) = render_state(pre);
        let out2 = render_state(layers).1;
        let n = layers[0].len() as int;
        let t = layers.last();
        if !repeats_kept(kept, t) {
            let x = if out.len() > 0 { colon_sep() + t } else { t };
            assert(out2 =~= out + x);
            assert((out + x).subrange(0, n) =~= out.subrange(0, n));
        }
    }
}

/// Advice for user-account credentials, which cannot sign.
pub const AUTHORIZED_USER_ADVICE: &'static str = "\
Your Application Default Credentials are a user account, which cannot sign URLs.

This is a Google limitation, not a gcsdrop one. gcloud refuses the same way:

    ERROR: (gcloud.storage.sign-url) This command requires a service account
    to sign a URL. Please authenticate with a service account, or provide the
    global '--impersonate-service-account' flag.

Fix it by impersonating a service account:

    gcloud auth application-default login \\
      --impersonate-service-account=SA@PROJECT.iam.gserviceaccount.com

⚠️ That login overwrites this machine's Application Default Credentials for
every tool that reads them, not just gcsdrop. Back up your current ones
first:

    cp ~/.config/gcloud/application_default_credentials.json ~/adc-backup.json 2>/dev/null \\
      || echo \"no existing ADC to back up — nothing to lose\"

You need roles/iam.serviceAccountTokenCreator on that service account, and
the service account needs it on itself.";

/// Advice for Workload Identity Federation credentials, which cannot sign.
pub const EXTERNAL_ACCOUNT_ADVICE: &'static str = "\
Your Application Default Credentials come from Workload Identity Federation
(an `external_account` credential), which cannot sign URLs — the auth
library rejects that credential type for signing outright, even when the
credential's own `service_account_impersonation_url` is set. There is
usually no browser in a Workload Identity Federation environment either, so
an interactive `gcloud auth application-default login` is not a fix here.

What does work with this crate: wrap your external_account credential as
the `source_credentials` of an `impersonated_service_account` ADC config,
with `service_account_impersonation_url` set on the OUTER object (not
inside the external_account block) to target the service account you want
to sign as. How to obtain the external_account block itself depends on your
platform (GKE Workload Identity, AWS, Azure, ...) — see Google's Workload
Identity Federation docs:

    https://cloud.google.com/iam/docs/workload-identity-federation

You need roles/iam.serviceAccountTokenCreator on that service account, and
the service account needs it on itself.";

/// Advice for an unreadable GOOGLE_APPLICATION_CREDENTIALS file, before its path.
pub const MISSING_FILE_ADVICE_HEAD: &'static str = "GOOGLE_APPLICATION_CREDENTIALS points at ";

/// Advice for an unreadable GOOGLE_APPLICATION_CREDENTIALS file, after its path.
pub const MISSING_FILE_ADVICE_TAIL: &'static str = ", which cannot be read.\n\
             \n\
             Fix it by either correcting the path or unsetting the variable:\n\
             \n\
             \x20   unset GOOGLE_APPLICATION_CREDENTIALS\n\
             \n\
             Then gcsdrop will fall back to the normal Application Default Credentials discovery.\n\
             \n\
             Or point it at a credentials file that does exist. `gcloud auth\n\
             application-default login` writes to:\n\
             \n\
             \x20   ~/.config/gcloud/application_default_credentials.json\n\
             \n\
             so that is the path to point at — or just unset the variable and let\n\
             gcsdrop find it there on its own.";

/// Advice for any other kind of credentials, before the kind.
pub const OTHER_KIND_ADVICE_HEAD: &'static str = "Your Application Default Credentials (";

/// Advice for any other kind of credentials, after the kind.
pub const OTHER_KIND_ADVICE_TAIL: &'static str = ") cannot sign URLs.\n\
             \n\
             Switch to credentials that can sign:\n\
             \n\
             \x20   gcloud auth application-default login \\\n\
             \x20     --impersonate-service-account=SA@PROJECT.iam.gserviceaccount.com";

/// Expired credentials wrapped in an impersonation file: text before the first naming of the file.
pub const EXPIRY_FILE_ADVICE_HEAD: &'static str = "\
Your credentials have expired, and Google is asking you to log in again.

This is Google's periodic re-authentication ('reauth') policy — the error above
shows \"invalid_rapt\" and/or \"invalid_grant\", which mean your organization
requires it, not that gcsdrop or your setup is broken.

Logging in again is NOT enough by itself here: GOOGLE_APPLICATION_CREDENTIALS
is set to

    ";

/// Expired credentials wrapped in an impersonation file: text between the two namings of the file.
pub const EXPIRY_FILE_ADVICE_MID: &'static str = "

which is an impersonation file — it embeds a COPY of your user credentials as
`source_credentials`, taken when you built it. Logging in again refreshes the
credentials gcloud manages for you; it does not touch that copy, which stays
stale, so gcsdrop will keep failing the same way even after you log in.

Fix it in two steps:

1. Log in again:

       gcloud auth application-default login

2. Regenerate ";

/// Expired credentials wrapped in an impersonation file: text after the second naming of the file.
pub const EXPIRY_FILE_ADVICE_TAIL: &'static str = " from those fresh credentials.

That file is not a service account key — it holds no private key, only a
refresh token and the service account to impersonate. This project's own
README has the exact command that rebuilds it: see \"Local development\" >
\"Recommended: a scoped credentials file\".";

/// Expired plain user credentials: logging in again is the whole fix.
pub const EXPIRY_LOGIN_ADVICE: &'static str = "\
Your Application Default Credentials have expired, and Google is asking you to
log in again.

This is Google's periodic re-authentication ('reauth') policy — the error above
shows \"invalid_rapt\" and/or \"invalid_grant\", which mean your organization
requires it, not that gcsdrop or your setup is broken.

Fix it:

    gcloud auth application-default login

That's it. Plain user credentials don't wrap a separate copy of anything, so
logging in again is the whole fix.";

/// A signBlob permission failure: the service account must be allowed to sign as itself.
pub const SIGN_BLOB_ADVICE: &'static str = "\
The service account is not allowed to sign on its own behalf.

Grant it roles/iam.serviceAccountTokenCreator on itself:

    gcloud iam service-accounts add-iam-policy-binding SA@PROJECT.iam.gserviceaccount.com \\
      --member='serviceAccount:SA@PROJECT.iam.gserviceaccount.com' \\
      --role='roles/iam.serviceAccountTokenCreator'

Yes, on itself. Signing goes through the IAM signBlob API, where the caller
and the target are the same identity.";

/// An upload permission failure, before the bucket name.
pub const UPLOAD_ADVICE_HEAD: &'static str = "\
This identity cannot write to the bucket.

Grant it roles/storage.objectCreator ON THE BUCKET, not on the project:

    gcloud storage buckets add-iam-policy-binding gs://";

/// An upload permission failure, after the bucket name.
pub const UPLOAD_ADVICE_TAIL: &'static str = " \\
      --member='serviceAccount:SA@PROJECT.iam.gserviceaccount.com' \\
      --role='roles/storage.objectCreator'

Binding at the project level would grant write access to every bucket in it.

While you're granting bucket IAM: objectCreator alone lets this identity upload but not read,
so it will produce signed URLs that upload fine and then 403 for everyone you share them with.
Grant roles/storage.objectViewer on the same bucket too — gcsdrop checks for this and will tell
you plainly if it's still missing once the upload succeeds.";

/// What the `Debug` rendering of a string is: the string quoted and escaped.
pub uninterp spec fn debug_quoted(s: Seq<char>) -> Seq<char>;

/// `format!("{:?}", s)` for a string slice: its `Debug` rendering. The
/// contract claims only that the result is a function of the text, named
/// [`debug_quoted`].
#[verifier::external_body]
fn debug_string(s: &str) -> (r: String)
    ensures
        r@ == debug_quoted(s@),
{
    format!("{:?}", s)
}

/// What `str::to_lowercase` returns: the Unicode lowercase mapping of the text.
pub uninterp spec fn lowercase(s: Seq<char>) -> Seq<char>;

/// `str::to_lowercase`. The contract claims only that the result is a
/// function of the text, named [`lowercase`].
#[verifier::external_body]
fn to_lowercase(s: &str) -> (r: String)
    ensures
        r@ == lowercase(s@),
{
    s.to_lowercase()
}

/// The `Debug` rendering of a credentials kind: the variant's name, with its
/// text quoted in brackets where it carries one.
pub open spec fn kind_debug(k: AdcKindView) -> Seq<char> {
    match k {
        AdcKindView::MetadataServer => "MetadataServer"@,
        AdcKindView::ServiceAccountKey => "ServiceAccountKey"@,
        AdcKindView::Impersonated => "Impersonated"@,
        AdcKindView::AuthorizedUser => "AuthorizedUser"@,
        AdcKindView::ExternalAccount => "ExternalAccount"@,
        AdcKindView::MissingCredentialsFile(p) => "MissingCredentialsFile("@ + debug_quoted(p) + ")"@,
        AdcKindView::Unknown(t) => "Unknown("@ + debug_quoted(t) + ")"@,
    }
}

/// The `Debug` rendering of a credentials kind.
pub fn debug_kind(k: &AdcKind) -> (s: String)
    ensures
        s@ == kind_debug(k@),
{
    match k {
        AdcKind::MetadataServer => "MetadataServer".to_owned(),
        AdcKind::ServiceAccountKey => "ServiceAccountKey".to_owned(),
        AdcKind::Impersonated => "Impersonated".to_owned(),
        AdcKind::AuthorizedUser => "AuthorizedUser".to_owned(),
        AdcKind::ExternalAccount => "ExternalAccount".to_owned(),
        AdcKind::MissingCredentialsFile(p) => {
            let mut s = "MissingCredentialsFile(".to_owned();
            s.append(debug_string(p.as_str()).as_str());
            s.append(")");
            s
        },
        AdcKind::Unknown(t) => {
            let mut s = "Unknown(".to_owned();
            s.append(debug_string(t.as_str()).as_str());
            s.append(")");
            s
        },
    }
}

/// The advice printed for credentials that cannot produce a signed URL.
pub open spec fn cannot_sign_text(k: AdcKindView) -> Seq<char> {
    match k {
        AdcKindView::AuthorizedUser => AUTHORIZED_USER_ADVICE@,
        AdcKindView::ExternalAccount => EXTERNAL_ACCOUNT_ADVICE@,
        AdcKindView::MissingCredentialsFile(p) => MISSING_FILE_ADVICE_HEAD@ + p
            + MISSING_FILE_ADVICE_TAIL@,
        _ => OTHER_KIND_ADVICE_HEAD@ + kind_debug(k) + OTHER_KIND_ADVICE_TAIL@,
    }
}

/// Advice for credentials that cannot produce a signed URL.
pub fn cannot_sign(kind: &AdcKind) -> (s: String)
    ensures
        s@ == cannot_sign_text(kind@),
{
    match kind {
        AdcKind::AuthorizedUser => AUTHORIZED_USER_ADVICE.to_owned(),
        AdcKind::ExternalAccount => EXTERNAL_ACCOUNT_ADVICE.to_owned(),
        AdcKind::MissingCredentialsFile(path) => {
            let mut s = MISSING_FILE_ADVICE_HEAD.to_owned();
            s.append(path.as_str());
            s.append(MISSING_FILE_ADVICE_TAIL);
            s
        },
        _ => {
            let mut s = OTHER_KIND_ADVICE_HEAD.to_owned();
            s.append(debug_kind(kind).as_str());
            s.append(OTHER_KIND_ADVICE_TAIL);
            s
        },
    }
}

/// The view of an optional borrowed source.
pub open spec fn source_ref_view(s: Option<&AdcSource>) -> Option<AdcSourceView> {
    match s {
        Some(x) => Some(x@),
        None => None,
    }
}

/// The advice for an error whose lowercased full text is `lower`: expired
/// credentials (`invalid_rapt` or `invalid_grant`) come first, with advice
/// that depends on where the credentials file came from; then a signBlob 403;
/// then an upload 403, naming the bucket; anything else gets no advice.
pub open spec fn advice_text(lower: Seq<char>, bucket: Seq<char>, source: Option<AdcSourceView>) -> Option<
    Seq<char>,
> {
    if seq_contains(lower, "invalid_rapt"@) || seq_contains(lower, "invalid_grant"@) {
        Some(
            match source {
                Some(AdcSourceView::FromEnv(p)) => EXPIRY_FILE_ADVICE_HEAD@ + p
                    + EXPIRY_FILE_ADVICE_MID@ + p + EXPIRY_FILE_ADVICE_TAIL@,
                _ => EXPIRY_LOGIN_ADVICE@,
            },
        )
    } else if seq_contains(lower, "signblob"@) && seq_contains(lower, "403"@) {
        Some(SIGN_BLOB_ADVICE@)
    } else if seq_contains(lower, "failed to upload"@) && seq_contains(lower, "403"@) {
        Some(UPLOAD_ADVICE_HEAD@ + bucket + UPLOAD_ADVICE_TAIL@)
    } else {
        None
    }
}

/// Recognises common permission and credential failures in the lowercased
/// text of an error and returns a fix; `None` when there is nothing useful to
/// add. `bucket` is named in the upload advice; `adc_source` decides the
/// credential-expiry advice.
pub fn advice_for(lower: &str, bucket: &str, adc_source: Option<&AdcSource>) -> (r: Option<String>)
    ensures
        opt_chars(r) == advice_text(lower@, bucket@, source_ref_view(adc_source)),
{
    if str_contains(lower, "invalid_rapt") || str_contains(lower, "invalid_grant") {
        let s = match adc_source {
            Some(AdcSource::FromEnv(path)) => {
                let mut s = EXPIRY_FILE_ADVICE_HEAD.to_owned();
                s.append(path.as_str());
                s.append(EXPIRY_FILE_ADVICE_MID);
                s.append(path.as_str());
                s.append(EXPIRY_FILE_ADVICE_TAIL);
                s
            },
            _ => EXPIRY_LOGIN_ADVICE.to_owned(),
        };
        return Some(s);
    }
    if str_contains(lower, "signblob") && str_contains(lower, "403") {
        return Some(SIGN_BLOB_ADVICE.to_owned());
    }
    if str_contains(lower, "failed to upload") && str_contains(lower, "403") {
        let mut s = UPLOAD_ADVICE_HEAD.to_owned();
        s.append(bucket);
        s.append(UPLOAD_ADVICE_TAIL);
        return Some(s);
    }
    None
}

/// Recognises common permission and credential failures in an error and
/// returns a fix, matching on the lowercased alternate rendering of the
/// whole chain. `None` when there is nothing useful to add.
pub fn explain(err: &ErrorChain, bucket: &str, adc_source: Option<&AdcSource>) -> (r: Option<String>)
    ensures
        opt_chars(r) == advice_text(lowercase(alternate_text(err@)), bucket@, source_ref_view(adc_source)),
{
    let full = err.alternate();
    let lower = to_lowercase(full.as_str());
    advice_for(lower.as_str(), bucket, adc_source)
}

proof fn lemma_contains_segment(a: Seq<char>, w: Seq<char>, c: Seq<char>)
    ensures
        seq_contains(a + w + c, w),
{
    let t = a + w + c;
    assert(t.subrange(a.len() as int, (a.len() + w.len()) as int) =~= w);
    assert(occurs_at(t, w, a.len() as int));
}

/// The advice for an unreadable GOOGLE_APPLICATION_CREDENTIALS file names
/// that file.
pub proof fn lemma_missing_file_advice_names_the_file(path: Seq<char>)
    ensures
        seq_contains(cannot_sign_text(AdcKindView::MissingCredentialsFile(path)), path),
{
    lemma_contains_segment(MISSING_FILE_ADVICE_HEAD@, path, MISSING_FILE_ADVICE_TAIL@);
}

/// Whenever an error reports expired credentials (`invalid_rapt` or
/// `invalid_grant`), there is advice; when the credentials file came from
/// GOOGLE_APPLICATION_CREDENTIALS, that advice names the file.
pub proof fn lemma_expiry_advice_names_the_file(lower: Seq<char>, bucket: Seq<char>, path: Seq<char>)
    requires
        seq_contains(lower, "invalid_rapt"@) || seq_contains(lower, "invalid_grant"@),
    ensures
        advice_text(lower, bucket, Some(AdcSourceView::FromEnv(path))) is Some,
        seq_contains(advice_text(lower, bucket, Some(AdcSourceView::FromEnv(path)))->0, path),
{
    let tail = EXPIRY_FILE_ADVICE_MID@ + path + EXPIRY_FILE_ADVICE_TAIL@;
    lemma_contains_segment(EXPIRY_FILE_ADVICE_HEAD@, path, tail);
    assert(EXPIRY_FILE_ADVICE_HEAD@ + path + EXPIRY_FILE_ADVICE_MID@ + path
        + EXPIRY_FILE_ADVICE_TAIL@ =~= EXPIRY_FILE_ADVICE_HEAD@ + path + tail);
}

/// The upload-permission advice names the bucket it is about.
pub proof fn lemma_upload_advice_names_the_bucket(lower: Seq<char>, bucket: Seq<char>, source: Option<AdcSourceView>)
    requires
        advice_text(lower, bucket, source) == Some(UPLOAD_ADVICE_HEAD@ + bucket + UPLOAD_ADVICE_TAIL@),
    ensures
        seq_contains(advice_text(lower, bucket, source)->0, bucket),
{
    lemma_contains_segment(UPLOAD_ADVICE_HEAD@, bucket, UPLOAD_ADVICE_TAIL@);
}

/// An error that reports no expired credentials and no 403 anywhere gets
/// no advice: every piece of advice answers one of those failures.
pub proof fn lemma_no_advice_without_a_known_failure(
    lower: Seq<char>,
    bucket: Seq<char>,
    source: Option<AdcSourceView>,
)
    requires
        !seq_contains(lower, "invalid_rapt"@),
        !seq_contains(lower, "invalid_grant"@),
        !seq_contains(lower, "403"@),
    ensures
        advice_text(lower, bucket, source) is None,
{
}

/// Past the credential-expiry and signBlob cases, advice is given exactly
/// when the error is a failed upload with a 403, and it is then the
/// upload-permission advice naming the bucket.
pub proof fn lemma_upload_advice_needs_an_upload_403(
    lower: Seq<char>,
    bucket: Seq<char>,
    source: Option<AdcSourceView>,
)
    requires
        !seq_contains(lower, "invalid_rapt"@),
        !seq_contains(lower, "invalid_grant"@),
        !(seq_contains(lower, "signblob"@) && seq_contains(lower, "403"@)),
    ensures
        advice_text(lower, bucket, source) is Some <==> (seq_contains(lower, "failed to upload"@)
            && seq_contains(lower, "403"@)),
        advice_text(lower, bucket, source) is Some ==> advice_text(lower, bucket, source)->0
            == UPLOAD_ADVICE_HEAD@ + bucket + UPLOAD_ADVICE_TAIL@,
{
}

} // verus!
