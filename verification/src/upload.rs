//! Where each file goes inside the bucket, and which object the link names.

use vstd::prelude::*;
use crate::manifest::{manifest_wf, EntryView, Manifest, ManifestView};
use crate::text::push_char;

verus! {

/// The object name of a file inside the bucket: the prefix (left out when
/// empty), the run's name and the file's path inside the upload, joined by
/// `/`.
pub open spec fn spec_object_path(prefix: Seq<char>, run_id: Seq<char>, relative: Seq<char>) -> Seq<
    char,
> {
    if prefix.len() > 0 {
        prefix + seq!['/'] + run_id + seq!['/'] + relative
    } else {
        run_id + seq!['/'] + relative
    }
}

/// Builds the object name inside the bucket.
pub fn object_path(prefix: &str, run_id: &str, relative: &str) -> (s: String)
    ensures
        s@ == spec_object_path(prefix@, run_id@, relative@),
{
    let mut s = String::new();
    if !prefix.is_empty() {
        s.append(prefix);
        push_char(&mut s, '/');
    }
    s.append(run_id);
    push_char(&mut s, '/');
    s.append(relative);
    proof {
        if prefix@.len() > 0 {
            assert(s@ =~= spec_object_path(prefix@, run_id@, relative@));
        } else {
            assert(s@ =~= spec_object_path(prefix@, run_id@, relative@));
        }
    }
    s
}

/// The object names of every entry of a manifest, in order.
pub open spec fn spec_object_names(prefix: Seq<char>, run_id: Seq<char>, entries: Seq<EntryView>) -> Seq<
    Seq<char>,
> {
    entries.map_values(|e: EntryView| spec_object_path(prefix, run_id, e.relative))
}

/// The object names the entries of `m` are uploaded as, in the same order.
pub fn object_names(prefix: &str, run_id: &str, m: &Manifest) -> (names: Vec<String>)
    ensures
        names@.map_values(|s: String| s@) == spec_object_names(prefix@, run_id@, m@.entries),
{
    let ghost ev = m@.entries;
    let mut names: Vec<String> = Vec::new();
    let mut i: usize = 0;
    while i < m.entries.len()
        invariant
            i <= m.entries.len(),
            ev == m.entries@.map_values(|e: crate::manifest::Entry| e@),
            names@.map_values(|s: String| s@) == spec_object_names(prefix@, run_id@, ev.take(i as int)),
        decreases m.entries.len() - i,
    {
        let ghost prev = names@.map_values(|s: String| s@);
        names.push(object_path(prefix, run_id, m.entries[i].relative.as_str()));
        proof {
            assert(names@.map_values(|s: String| s@) =~= prev.push(
                spec_object_path(prefix@, run_id@, ev[i as int].relative),
            ));
            assert(ev.take(i + 1) =~= ev.take(i as int).push(ev[i as int]));
            assert(spec_object_names(prefix@, run_id@, ev.take(i + 1)) =~= spec_object_names(
                prefix@,
                run_id@,
                ev.take(i as int),
            ).push(spec_object_path(prefix@, run_id@, ev[i as int].relative)));
        }
        i = i + 1;
    }
    assert(ev.take(m.entries.len() as int) =~= ev);
    names
}

/// The path inside the upload of the page the link lands on: the landing
/// entry when there is one, else the first entry.
pub open spec fn landing_relative(m: ManifestView) -> Seq<char> {
    match m.index {
        Some(i) => i,
        None => m.entries[0].relative,
    }
}

/// The object the signed link names.
pub fn landing_path(prefix: &str, run_id: &str, m: &Manifest) -> (s: String)
    requires
        manifest_wf(m@),
    ensures
        s@ == spec_object_path(prefix@, run_id@, landing_relative(m@)),
        exists|i: int|
            0 <= i < m@.entries.len() && s@ == #[trigger] spec_object_names(
                prefix@,
                run_id@,
                m@.entries,
            )[i],
{
    let s = match &m.index {
        Some(i) => object_path(prefix, run_id, i.as_str()),
        None => object_path(prefix, run_id, m.entries[0].relative.as_str()),
    };
    proof {
        let ev = m@.entries;
        let w = if m@.index is Some {
            choose|w: int| 0 <= w < ev.len() && (#[trigger] ev[w]).relative == m@.index->0
        } else {
            0
        };
        assert(spec_object_names(prefix@, run_id@, ev)[w] == s@);
    }
    s
}

} // verus!
