//! Runtime configuration: the bucket and the object-name prefix.

use vstd::prelude::*;
use crate::text::{
    all_trimmed, chars_of, lemma_trim_end_concat, lemma_trim_end_empty, lemma_trim_start_empty,
    lemma_trim_start_head,
    opt_chars, strip_prefixes, strip_prefixes_chars, string_from_chars, trim_chars, trim_end_by,
    trim_slashes, trim_start_by, trim_ws, trimmed_char,
};

verus! {

/// Runtime configuration. No GCP project is needed: bucket names are
/// globally unique and the upload API does not take a project.
#[derive(Debug, Clone, PartialEq, Eq)]
pub struct Config {
    pub bucket: String,
    pub prefix: String,
}

/// The error returned when no usable bucket is configured.
pub const BUCKET_NOT_SET: &'static str = "GCSDROP_BUCKET is not set.\n\
             \n\
             Point it at a bucket you own:\n\
             \n\
             \x20   export GCSDROP_BUCKET=my-bucket\n\
             \n\
             gcsdrop never creates buckets. Create one first:\n\
             \n\
             \x20   gcloud storage buckets create gs://my-bucket \\\n\
             \x20     --project=PROJECT --location=LOCATION \\\n\
             \x20     --uniform-bucket-level-access";

/// The prefix used when none is configured.
pub const DEFAULT_PREFIX: &'static str = "gcsdrop";

/// A configured bucket as the tool uses it: surrounding whitespace removed,
/// then every leading `gs://`, then surrounding slashes.
pub open spec fn normalized_bucket(raw: Seq<char>) -> Seq<char> {
    trim_slashes(strip_prefixes(trim_ws(raw), "gs://"@))
}

/// A configured prefix as the tool uses it: surrounding whitespace, then
/// surrounding slashes, removed.
pub open spec fn normalized_prefix(raw: Seq<char>) -> Seq<char> {
    trim_slashes(trim_ws(raw))
}

/// The configuration read from the bucket and prefix settings (`None` when
/// unset): an error when the bucket is unset or normalizes to nothing;
/// otherwise the normalized bucket and the normalized prefix, `gcsdrop`
/// when unset.
pub open spec fn spec_from_vars(bucket: Option<Seq<char>>, prefix: Option<Seq<char>>) -> Result<
    (Seq<char>, Seq<char>),
    Seq<char>,
> {
    let b = normalized_bucket(
        match bucket {
            Some(b) => b,
            None => Seq::empty(),
        },
    );
    if b.len() == 0 {
        Err(BUCKET_NOT_SET@)
    } else {
        Ok(
            (
                b,
                normalized_prefix(
                    match prefix {
                        Some(p) => p,
                        None => DEFAULT_PREFIX@,
                    },
                ),
            ),
        )
    }
}

/// The view of a configuration result.
pub open spec fn config_result_view(r: Result<Config, String>) -> Result<
    (Seq<char>, Seq<char>),
    Seq<char>,
> {
    match r {
        Ok(c) => Ok((c.bucket@, c.prefix@)),
        Err(e) => Err(e@),
    }
}

/// Builds the configuration from the values of GCSDROP_BUCKET and
/// GCSDROP_PREFIX (`None` when unset).
pub fn from_vars(bucket: Option<String>, prefix: Option<String>) -> (r: Result<Config, String>)
    ensures
        config_result_view(r) == spec_from_vars(opt_chars(bucket), opt_chars(prefix)),
{
    let raw = match bucket {
        Some(b) => b,
        None => String::new(),
    };
    let chars = chars_of(raw.as_str());
    let trimmed = trim_chars(&chars, false);
    let scheme = chars_of("gs://");
    let unschemed = strip_prefixes_chars(&trimmed, &scheme);
    let b = trim_chars(&unschemed, true);
    if b.len() == 0 {
        return Err(BUCKET_NOT_SET.to_owned());
    }
    let raw_prefix = match prefix {
        Some(p) => p,
        None => DEFAULT_PREFIX.to_owned(),
    };
    let pchars = chars_of(raw_prefix.as_str());
    let ptrim = trim_chars(&pchars, false);
    let p = trim_chars(&ptrim, true);
    Ok(Config { bucket: string_from_chars(&b), prefix: string_from_chars(&p) })
}

/// A bucket may be given as `my-bucket` or `gs://my-bucket`: putting `gs://`
/// in front of a bucket setting changes nothing, whenever that setting does
/// not begin with whitespace (or is blank).
pub proof fn lemma_scheme_is_optional(b: Seq<char>)
    requires
        trim_start_by(b, false) == b || trim_ws(b).len() == 0,
    ensures
        normalized_bucket("gs://"@ + b) == normalized_bucket(b),
{
    reveal_strlit("gs://");
    let g = "gs://"@;
    let s = g + b;
    assert(g.len() == 5 && g[0] == 'g' && g[4] == '/');
    assert(s[0] == 'g');
    assert(trim_start_by(s, false) == s);
    lemma_trim_end_concat(g, b, false);
    lemma_trim_end_empty(b, false);
    lemma_trim_start_empty(b, false);
    if all_trimmed(b, false) {
        // Blank: both sides normalize to nothing.
        assert(trim_ws(s) == g);
        assert(g.subrange(0, 5) =~= g);
        assert(g.subrange(5, 5) =~= Seq::<char>::empty());
        assert(strip_prefixes(g, g) == strip_prefixes(Seq::<char>::empty(), g));
        assert(trim_start_by(b, false).len() == 0);
        lemma_trim_end_empty(trim_start_by(b, false), false);
        assert(trim_ws(b) == trim_end_by(trim_start_by(b, false), false));
        assert(trim_ws(b).len() == 0);
        assert(trim_ws(b) =~= Seq::<char>::empty());
    } else {
        assert(trim_start_by(b, false) == b) by {
            if trim_start_by(b, false) != b {
                let t = trim_start_by(b, false);
                assert(trim_ws(b).len() == 0);
                lemma_trim_end_empty(t, false);
                lemma_trim_start_head(b, false);
                if t.len() > 0 {
                    assert(!trimmed_char(t[0], false));
                    assert(!all_trimmed(t, false));
                }
                lemma_trim_start_empty(b, false);
            }
        }
        let t = trim_end_by(b, false);
        assert(trim_ws(s) == g + t);
        assert(trim_ws(b) == t);
        assert((g + t).subrange(0, 5) =~= g);
        assert((g + t).subrange(5, (g + t).len() as int) =~= t);
    }
}

} // verus!
