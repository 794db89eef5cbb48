//! Checking a signed URL the way its recipient would, and explaining a
//! failed check.

use vstd::prelude::*;
use crate::text::{
    chars_of, decimal, decimal_string, indent, indented, occurs_at, opt_chars, seq_contains, string_from_range,
    trim, trim_ws,
};

verus! {

/// The outcome of fetching a signed URL with no credentials, exactly as
/// whoever receives the link would.
pub struct Probe {
    pub status: u16,
    /// Only populated on failure: the start of the response body, which for
    /// a 403 names the exact missing permission.
    pub body: Option<String>,
}

/// Whether an HTTP status is a success (2xx).
pub open spec fn status_ok(status: u16) -> bool {
    200 <= status < 300
}

/// The most characters of a failure body that are kept.
pub const MAX_BODY_CHARS: usize = 2000;

/// The body a probe keeps: nothing on success, and on failure the first
/// [`MAX_BODY_CHARS`] characters of what was read, if anything was.
pub open spec fn kept_body(status: u16, text: Option<Seq<char>>) -> Option<Seq<char>> {
    if status_ok(status) {
        None
    } else {
        match text {
            Some(t) => Some(
                if t.len() <= MAX_BODY_CHARS {
                    t
                } else {
                    t.take(MAX_BODY_CHARS as int)
                },
            ),
            None => None,
        }
    }
}

impl Probe {
    /// Whether the link works: the fetch returned a 2xx status. A ranged
    /// fetch answers 206, which counts.
    pub fn is_ok(&self) -> (b: bool)
        ensures
            b == status_ok(self.status),
    {
        200 <= self.status && self.status < 300
    }

    /// The outcome of a fetch that returned `status`, with `text` the
    /// response body when it was read (`None` when it was not, or could not
    /// be).
    pub fn from_response(status: u16, text: Option<String>) -> (p: Probe)
        ensures
            p.status == status,
            opt_chars(p.body) == kept_body(status, opt_chars(text)),
    {
        if 200 <= status && status < 300 {
            return Probe { status, body: None };
        }
        let body = match text {
            Some(t) => {
                let v = chars_of(t.as_str());
                let end = if v.len() <= MAX_BODY_CHARS {
                    v.len()
                } else {
                    MAX_BODY_CHARS
                };
                let kept = string_from_range(&v, 0, end);
                proof {
                    if v.len() <= MAX_BODY_CHARS {
                        assert(v@.subrange(0, end as int) =~= v@);
                    }
                }
                Some(kept)
            },
            None => None,
        };
        Probe { status, body }
    }
}

/// The phrase every failed-link explanation carries.
pub const WORSE_THAN_NO_LINK: &'static str = "worse than no link";

/// The explanation of a 403 from the link check, up to its key phrase.
pub const FORBIDDEN_OPENING: &'static str = "The upload succeeded and a signed URL was produced, but fetching that URL with no credentials returned 403 Forbidden — that is exactly what whoever you send this link to would see. Nothing was printed, because a link that does not work is ";

/// The explanation of a 403, from its key phrase to the first bucket name.
pub const FORBIDDEN_BEFORE_BUCKET: &'static str = ".\n\nA V4 signed URL is authorized as the identity that signed it, not just by having a valid signature. This signer can create objects in gs://";

/// The explanation of a 403, between the two bucket names.
pub const FORBIDDEN_BETWEEN_BUCKETS: &'static str = " but cannot read them back: a GET link needs storage.objects.get, which roles/storage.objectCreator does not grant.\n\nGrant roles/storage.objectViewer on the bucket, IN ADDITION to objectCreator:\n\n    gcloud storage buckets add-iam-policy-binding gs://";

/// The explanation of a 403, after the second bucket name.
pub const FORBIDDEN_CLOSING: &'static str = " \\\n      --member='serviceAccount:SA@PROJECT.iam.gserviceaccount.com' \\\n      --role='roles/storage.objectViewer'\n\n⚠️ objectViewer also grants storage.objects.list, so any identity holding it can enumerate and read every object in the bucket, not just this run's upload. If this service account is shared by other agents or people, give gcsdrop its own bucket rather than sharing one with unrelated content.";

/// The explanation of any other failing status, before the status code.
pub const STATUS_OPENING: &'static str = "The upload succeeded and a signed URL was produced, but fetching that URL with no credentials returned HTTP ";

/// The explanation of any other failing status, from the status code to its key phrase.
pub const STATUS_BEFORE_PHRASE: &'static str = " instead of success — that is exactly what whoever you send this link to would see. Nothing was printed, because a link that does not work is ";

/// The explanation of any other failing status, after its key phrase.
pub const STATUS_CLOSING: &'static str = ".";

/// The heading put before a failure body.
pub const BODY_HEADING: &'static str = "\n\nGCS said:\n\n";

/// What a failure body adds to the explanation: nothing when there is none
/// or it is blank, else a heading and the trimmed body, indented.
pub open spec fn body_block(body: Option<Seq<char>>) -> Seq<char> {
    match body {
        Some(b) => if trim_ws(b).len() > 0 {
            BODY_HEADING@ + indented(trim_ws(b))
        } else {
            Seq::empty()
        },
        None => Seq::empty(),
    }
}

/// The explanation of a failed link check: for a 403, that the signer can
/// create objects in the bucket but not read them back, and the fix; for any
/// other status, that status. Either way, that the link is not printed
/// because a link that does not work is worse than no link; then the body.
pub open spec fn failure_text(status: u16, body: Option<Seq<char>>, bucket: Seq<char>) -> Seq<char> {
    if status == 403 {
        FORBIDDEN_OPENING@ + WORSE_THAN_NO_LINK@ + FORBIDDEN_BEFORE_BUCKET@ + bucket
            + FORBIDDEN_BETWEEN_BUCKETS@ + bucket + FORBIDDEN_CLOSING@ + body_block(body)
    } else {
        STATUS_OPENING@ + decimal(status as nat) + STATUS_BEFORE_PHRASE@ + WORSE_THAN_NO_LINK@
            + STATUS_CLOSING@ + body_block(body)
    }
}

/// The view of an optional string slice.
pub open spec fn opt_str(s: Option<&str>) -> Option<Seq<char>> {
    match s {
        Some(x) => Some(x@),
        None => None,
    }
}

/// Turns a failed link check into actionable advice.
pub fn explain_failure(status: u16, body: Option<&str>, bucket: &str) -> (s: String)
    ensures
        s@ == failure_text(status, opt_str(body), bucket@),
{
    let mut block = String::new();
    match body {
        Some(b) => {
            let t = trim(b);
            if !t.as_str().is_empty() {
                block.append(BODY_HEADING);
                block.append(indent(t.as_str()).as_str());
            }
        },
        None => {},
    }
    let mut s;
    if status == 403 {
        s = FORBIDDEN_OPENING.to_owned();
        s.append(WORSE_THAN_NO_LINK);
        s.append(FORBIDDEN_BEFORE_BUCKET);
        s.append(bucket);
        s.append(FORBIDDEN_BETWEEN_BUCKETS);
        s.append(bucket);
        s.append(FORBIDDEN_CLOSING);
    } else {
        s = STATUS_OPENING.to_owned();
        s.append(decimal_string(status as u64).as_str());
        s.append(STATUS_BEFORE_PHRASE);
        s.append(WORSE_THAN_NO_LINK);
        s.append(STATUS_CLOSING);
    }
    s.append(block.as_str());
    s
}

/// Whatever the status, body and bucket, the explanation of a failed link
/// check says that a link that does not work is worse than no link: the
/// tool never presents a failing link as usable.
pub proof fn lemma_failure_never_presents_the_link(status: u16, body: Option<Seq<char>>, bucket: Seq<char>)
    ensures
        seq_contains(failure_text(status, body, bucket), WORSE_THAN_NO_LINK@),
{
    let w = WORSE_THAN_NO_LINK@;
    let t = failure_text(status, body, bucket);
    let p = if status == 403 {
        FORBIDDEN_OPENING@.len() as int
    } else {
        (STATUS_OPENING@ + decimal(status as nat) + STATUS_BEFORE_PHRASE@).len() as int
    };
    assert(t.subrange(p, p + w.len()) =~= w);
    assert(occurs_at(t, w, p));
}

} // verus!
