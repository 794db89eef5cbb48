//! What gets uploaded: the files found, their names inside the upload and
//! their content types; and the run's unique name.

use rand::RngExt;
use vstd::prelude::*;
use crate::text::{
    chars_of, decimal, decimal_string, join_strings, join_with, opt_chars, push_char, str_eq,
};

verus! {

/// The most files one run uploads. Well below any Cloud Storage limit; it
/// exists to catch mistakes like pointing the tool at a home directory.
pub const MAX_FILES: usize = 2000;

/// The most bytes one run uploads (512 MiB).
pub const MAX_TOTAL_BYTES: u64 = 536870912;

/// The content type used when the extension says nothing.
pub const OCTET_STREAM: &'static str = "application/octet-stream";

/// One file to upload.
#[derive(Debug, Clone)]
pub struct Entry {
    /// Path on the local filesystem.
    pub local: String,
    /// Path inside the upload, with forward slashes. Never starts with '/'.
    pub relative: String,
    pub content_type: String,
    pub size: u64,
}

/// The mathematical value of an [`Entry`].
pub struct EntryView {
    pub local: Seq<char>,
    pub relative: Seq<char>,
    pub content_type: Seq<char>,
    pub size: u64,
}

impl View for Entry {
    type V = EntryView;

    open spec fn view(&self) -> EntryView {
        EntryView {
            local: self.local@,
            relative: self.relative@,
            content_type: self.content_type@,
            size: self.size,
        }
    }
}

/// What `mime_guess` guesses first for a path, by its extension.
pub uninterp spec fn mime_guess_first(path: Seq<char>) -> Option<Seq<char>>;

/// `mime_guess::from_path(path).first_raw()`: the first MIME type known for
/// the path's extension, if any. No disk access is performed. The contract
/// claims only that the result is a function of the path, named
/// [`mime_guess_first`].
#[verifier::external_body]
fn guess_mime(path: &str) -> (r: Option<String>)
    ensures
        match r {
            Some(t) => mime_guess_first(path@) == Some(t@),
            None => mime_guess_first(path@) is None,
        },
{
    match mime_guess::from_path(std::path::Path::new(path)).first_raw() {
        Some(t) => Some(t.to_string()),
        None => None,
    }
}

/// The content type uploaded with a file: the first MIME type guessed from
/// its extension, or `application/octet-stream`.
pub open spec fn content_type_of(path: Seq<char>) -> Seq<char> {
    match mime_guess_first(path) {
        Some(t) => t,
        None => OCTET_STREAM@,
    }
}

/// The content type to upload a file with, guessed from its extension.
pub fn content_type_for(path: &str) -> (t: String)
    ensures
        t@ == content_type_of(path@),
{
    match guess_mime(path) {
        Some(t) => t,
        None => OCTET_STREAM.to_owned(),
    }
}

/// The entry for a local file of `size` bytes, uploaded as `relative`.
pub open spec fn spec_entry(local: Seq<char>, relative: Seq<char>, size: u64) -> EntryView {
    EntryView { local, relative, content_type: content_type_of(local), size }
}

/// The entry for the local file `local`, uploaded as `relative`; `size` is
/// its length in bytes.
pub fn entry_for(local: String, relative: String, size: u64) -> (e: Entry)
    ensures
        e@ == spec_entry(local@, relative@, size),
{
    let content_type = content_type_for(local.as_str());
    Entry { local, relative, content_type, size }
}

/// Whether a walked entry is skipped: anything whose name starts with `.`,
/// except the root of the walk (depth 0), which may legitimately be a
/// dotted path the user typed.
pub open spec fn spec_is_hidden(depth: usize, name: Seq<char>) -> bool {
    depth != 0 && name.len() > 0 && name[0] == '.'
}

/// Whether a walked entry at `depth` below the root, named `name`, is
/// skipped, together with everything below it.
pub fn is_hidden(depth: usize, name: &str) -> (b: bool)
    ensures
        b == spec_is_hidden(depth, name@),
{
    if depth == 0 {
        return false;
    }
    let v = chars_of(name);
    v.len() > 0 && v[0] == '.'
}

/// A uniformly random index below `n` (`rand::rng().random_range(0..n)`).
/// The contract claims only that it is below `n`.
#[verifier::external_body]
fn random_below(n: usize) -> (r: usize)
    requires
        n > 0,
    ensures
        r < n,
{
    rand::rng().random_range(0..n)
}

/// A lowercase ASCII letter or an ASCII digit.
pub open spec fn is_lower_alnum(c: char) -> bool {
    ('a' <= c && c <= 'z') || ('0' <= c && c <= '9')
}

/// The characters a run's random suffix is drawn from: the 26 lowercase
/// ASCII letters, then the 10 digits.
pub open spec fn suffix_alphabet() -> Seq<char> {
    "abcdefghijklmnopqrstuvwxyz0123456789"@
}

/// The suffix spelled by the drawn indices into [`suffix_alphabet`].
pub open spec fn spec_suffix(draws: Seq<usize>) -> Seq<char> {
    draws.map_values(|d: usize| suffix_alphabet()[d as int])
}

/// Every character of the alphabet is a lowercase letter or a digit, and
/// there are 36 of them.
proof fn lemma_suffix_alphabet()
    ensures
        suffix_alphabet().len() == 36,
        forall|i: int| 0 <= i < 36 ==> is_lower_alnum(#[trigger] suffix_alphabet()[i]),
{
    reveal_strlit("abcdefghijklmnopqrstuvwxyz0123456789");
}

/// The suffix spelled by `draws`, each an index into [`suffix_alphabet`].
pub fn suffix_from_draws(draws: &Vec<usize>) -> (s: String)
    requires
        forall|i: int| 0 <= i < draws@.len() ==> #[trigger] draws@[i] < 36,
    ensures
        s@ == spec_suffix(draws@),
{
    let alphabet = chars_of("abcdefghijklmnopqrstuvwxyz0123456789");
    proof {
        lemma_suffix_alphabet();
    }
    let mut s = String::new();
    let mut k: usize = 0;
    while k < draws.len()
        invariant
            k <= draws.len(),
            alphabet@ == suffix_alphabet(),
            alphabet@.len() == 36,
            forall|i: int| 0 <= i < draws@.len() ==> #[trigger] draws@[i] < 36,
            s@ == spec_suffix(draws@.take(k as int)),
        decreases draws.len() - k,
    {
        let c = alphabet[draws[k]];
        push_char(&mut s, c);
        proof {
            assert(spec_suffix(draws@.take(k + 1)) =~= spec_suffix(draws@.take(k as int)).push(c));
        }
        k = k + 1;
    }
    assert(draws@.take(draws.len() as int) =~= draws@);
    s
}

/// Eight random lowercase letters and digits: the part of a run's name that
/// makes it unguessable. Each character is drawn independently and
/// uniformly from [`suffix_alphabet`]; whatever is drawn, the result is the
/// suffix those eight draws spell.
pub fn random_suffix() -> (s: String)
    ensures
        exists|draws: Seq<usize>|
            draws.len() == 8 && (forall|i: int| 0 <= i < 8 ==> #[trigger] draws[i] < 36) && s@
                == spec_suffix(draws),
        s@.len() == 8,
        forall|i: int| 0 <= i < 8 ==> is_lower_alnum(#[trigger] s@[i]),
{
    let mut draws: Vec<usize> = Vec::new();
    while draws.len() < 8
        invariant
            draws.len() <= 8,
            forall|i: int| 0 <= i < draws@.len() ==> #[trigger] draws@[i] < 36,
        decreases 8 - draws.len(),
    {
        draws.push(random_below(36));
    }
    let s = suffix_from_draws(&draws);
    proof {
        lemma_suffix_alphabet();
        assert forall|i: int| 0 <= i < 8 implies is_lower_alnum(#[trigger] s@[i]) by {
            assert(s@[i] == suffix_alphabet()[draws@[i] as int]);
        }
    }
    s
}

/// The earliest second `chrono` can represent (the start of year -262143).
pub const MIN_UTC_SECS: i64 = -8334601228800;

/// The latest second `chrono` can represent (the end of year 262142).
pub const MAX_UTC_SECS: i64 = 8210266876799;

/// What `chrono` writes for the UTC time `secs` seconds after the Unix epoch
/// in the format `%Y%m%d-%H%M%S`.
pub uninterp spec fn utc_compact(secs: i64) -> Seq<char>;

/// The UTC time `secs` seconds after the Unix epoch, formatted by `chrono`
/// (`DateTime::from_timestamp(secs, 0)`, then `format("%Y%m%d-%H%M%S")`).
/// Every second in `MIN_UTC_SECS..=MAX_UTC_SECS` is representable. The
/// contract claims only that the result is a function of `secs`, named
/// [`utc_compact`].
#[verifier::external_body]
fn utc_compact_stamp(secs: i64) -> (s: String)
    requires
        MIN_UTC_SECS <= secs <= MAX_UTC_SECS,
    ensures
        s@ == utc_compact(secs),
{
    match chrono::DateTime::from_timestamp(secs, 0) {
        Some(t) => t.format("%Y%m%d-%H%M%S").to_string(),
        None => String::new(),
    }
}

/// The name of one run: its UTC start time, `-`, and the random suffix.
pub open spec fn spec_run_id(now_secs: i64, rand8: Seq<char>) -> Seq<char> {
    utc_compact(now_secs) + seq!['-'] + rand8
}

/// The name of one run, started `now_secs` seconds after the Unix epoch,
/// with the random suffix `rand8`.
pub fn run_id(now_secs: i64, rand8: &str) -> (s: String)
    requires
        MIN_UTC_SECS <= now_secs <= MAX_UTC_SECS,
    ensures
        s@ == spec_run_id(now_secs, rand8@),
{
    let mut s = utc_compact_stamp(now_secs);
    push_char(&mut s, '-');
    s.append(rand8);
    s
}

/// A regular file found while walking a directory: where it is, the names
/// of the path components below the walked root, and its size in bytes.
pub struct Found {
    pub local: String,
    pub components: Vec<String>,
    pub size: u64,
}

/// What the filesystem holds at the path to publish.
pub enum Listing {
    /// Nothing exists there.
    Missing,
    /// A single file: its file name (`None` when the path has none) and size.
    File { name: Option<String>, size: u64 },
    /// A directory: every regular file of it that is not hidden, in walk order.
    Directory(Vec<Found>),
}

/// The mathematical value of a [`Found`].
pub struct FoundView {
    pub local: Seq<char>,
    pub components: Seq<Seq<char>>,
    pub size: u64,
}

impl View for Found {
    type V = FoundView;

    open spec fn view(&self) -> FoundView {
        FoundView {
            local: self.local@,
            components: self.components@.map_values(|c: String| c@),
            size: self.size,
        }
    }
}

/// The mathematical value of a [`Listing`].
pub enum ListingView {
    Missing,
    File { name: Option<Seq<char>>, size: u64 },
    Directory(Seq<FoundView>),
}

impl View for Listing {
    type V = ListingView;

    open spec fn view(&self) -> ListingView {
        match self {
            Listing::Missing => ListingView::Missing,
            Listing::File { name, size } => ListingView::File {
                name: match name {
                    Some(n) => Some(n@),
                    None => None,
                },
                size: *size,
            },
            Listing::Directory(found) => ListingView::Directory(
                found@.map_values(|f: Found| f@),
            ),
        }
    }
}

/// The files to upload and where they go.
#[derive(Debug, Clone)]
pub struct Manifest {
    pub entries: Vec<Entry>,
    pub total_bytes: u64,
    /// The entry a viewer should land on: `index.html` if present, or the
    /// single file when there is one. `None` leaves the choice to the caller.
    pub index: Option<String>,
}

/// The mathematical value of a [`Manifest`].
pub struct ManifestView {
    pub entries: Seq<EntryView>,
    pub total_bytes: u64,
    pub index: Option<Seq<char>>,
}

impl View for Manifest {
    type V = ManifestView;

    open spec fn view(&self) -> ManifestView {
        ManifestView {
            entries: self.entries@.map_values(|e: Entry| e@),
            total_bytes: self.total_bytes,
            index: match self.index {
                Some(i) => Some(i@),
                None => None,
            },
        }
    }
}

/// The total size of the entries.
pub open spec fn sizes_sum(entries: Seq<EntryView>) -> nat
    decreases entries.len(),
{
    if entries.len() == 0 {
        0
    } else {
        sizes_sum(entries.drop_last()) + entries.last().size as nat
    }
}

/// The total size of the found files.
pub open spec fn found_sum(found: Seq<FoundView>) -> nat
    decreases found.len(),
{
    if found.len() == 0 {
        0
    } else {
        found_sum(found.drop_last()) + found.last().size as nat
    }
}

/// The first entry uploaded as `index.html`, if any.
pub open spec fn first_index_html(entries: Seq<EntryView>) -> Option<Seq<char>>
    decreases entries.len(),
{
    if entries.len() == 0 {
        None
    } else if entries[0].relative == "index.html"@ {
        Some(entries[0].relative)
    } else {
        first_index_html(entries.drop_first())
    }
}

/// The landing entry: the only entry when there is one, else the first
/// `index.html`.
pub open spec fn spec_index(entries: Seq<EntryView>) -> Option<Seq<char>> {
    if entries.len() == 1 {
        Some(entries[0].relative)
    } else {
        first_index_html(entries)
    }
}

/// The upload name of a found file: its components joined by `/`.
pub open spec fn found_relative(f: FoundView) -> Seq<char> {
    join_with(f.components, seq!['/'])
}

/// The entries a listing yields for the path `path`: the file itself, named
/// by its file name (`index.html` when it has none), or every found file,
/// named by its path below the root.
pub open spec fn listed_entries(path: Seq<char>, listing: ListingView) -> Seq<EntryView> {
    match listing {
        ListingView::Missing => Seq::empty(),
        ListingView::File { name, size } => seq![
            spec_entry(
                path,
                match name {
                    Some(n) => n,
                    None => "index.html"@,
                },
                size,
            ),
        ],
        ListingView::Directory(found) => found.map_values(
            |f: FoundView| spec_entry(f.local, found_relative(f), f.size),
        ),
    }
}

/// The error for a path that does not exist.
pub open spec fn missing_error(path: Seq<char>) -> Seq<char> {
    path + " does not exist"@
}

/// The error for a directory without files to upload.
pub open spec fn empty_error(path: Seq<char>) -> Seq<char> {
    path + " contains no files to upload"@
}

/// The error for a directory with more than [`MAX_FILES`] files.
pub open spec fn too_many_error(path: Seq<char>, n: nat) -> Seq<char> {
    path + " contains "@ + decimal(n) + " files, more than the "@ + decimal(MAX_FILES as nat)
        + " gcsdrop uploads at once"@
}

/// The error for an upload of more than [`MAX_TOTAL_BYTES`] bytes.
pub open spec fn too_big_error(path: Seq<char>, total: nat) -> Seq<char> {
    path + " is "@ + decimal(total) + " bytes, more than the "@ + decimal(MAX_TOTAL_BYTES as nat)
        + " byte limit"@
}

/// The manifest for the path `path` given what is there: an error when it
/// does not exist, holds no files, more than [`MAX_FILES`] files or more
/// than [`MAX_TOTAL_BYTES`] bytes; otherwise its entries, their total size
/// and the landing entry.
pub open spec fn spec_scan(path: Seq<char>, listing: ListingView) -> Result<ManifestView, Seq<char>> {
    let entries = listed_entries(path, listing);
    if listing is Missing {
        Err(missing_error(path))
    } else if entries.len() == 0 {
        Err(empty_error(path))
    } else if entries.len() > MAX_FILES {
        Err(too_many_error(path, entries.len()))
    } else if sizes_sum(entries) > MAX_TOTAL_BYTES {
        Err(too_big_error(path, sizes_sum(entries)))
    } else {
        Ok(
            ManifestView {
                entries,
                total_bytes: sizes_sum(entries) as u64,
                index: spec_index(entries),
            },
        )
    }
}

/// The sizes of what a listing holds fit a `u64` when added up, whenever
/// there are few enough of them to be added up at all.
pub open spec fn listing_sum_fits(listing: ListingView) -> bool {
    match listing {
        ListingView::Directory(found) => found.len() <= MAX_FILES ==> found_sum(found)
            <= u64::MAX,
        _ => true,
    }
}

/// A manifest as uploads need it: between 1 and [`MAX_FILES`] entries,
/// their sizes adding up to `total_bytes`, at most [`MAX_TOTAL_BYTES`], and a
/// landing entry, when there is one, that is one of the entries.
pub open spec fn manifest_wf(m: ManifestView) -> bool {
    &&& 1 <= m.entries.len() <= MAX_FILES
    &&& m.total_bytes == sizes_sum(m.entries)
    &&& m.total_bytes <= MAX_TOTAL_BYTES
    &&& m.index matches Some(r) ==> exists|i: int|
        0 <= i < m.entries.len() && (#[trigger] m.entries[i]).relative == r
}

/// A path component as the filesystem names it: not empty, and without `/`.
pub open spec fn valid_component(n: Seq<char>) -> bool {
    &&& n.len() > 0
    &&& forall|i: int| 0 <= i < n.len() ==> #[trigger] n[i] != '/'
}

/// The names in a listing are path components as the filesystem gives
/// them: a single file's name is one component, and every found file lies
/// at least one component below the walked root.
pub open spec fn listing_names_ok(listing: ListingView) -> bool {
    match listing {
        ListingView::File { name, .. } => name matches Some(n) ==> valid_component(n),
        ListingView::Directory(found) => forall|k: int|
            0 <= k < found.len() ==> {
                &&& (#[trigger] found[k]).components.len() > 0
                &&& forall|j: int|
                    0 <= j < found[k].components.len() ==> valid_component(
                        #[trigger] found[k].components[j],
                    )
            },
        ListingView::Missing => true,
    }
}

/// A path inside the upload: one or more components, each non-empty and
/// without `/`, joined by `/`.
pub open spec fn relative_ok(r: Seq<char>) -> bool {
    exists|parts: Seq<Seq<char>>|
        {
            &&& parts.len() > 0
            &&& forall|j: int| 0 <= j < parts.len() ==> valid_component(#[trigger] parts[j])
            &&& r == join_with(parts, seq!['/'])
        }
}

proof fn lemma_join_ends(parts: Seq<Seq<char>>, sep: Seq<char>)
    requires
        parts.len() > 0,
        parts[0].len() > 0,
        parts.last().len() > 0,
    ensures
        join_with(parts, sep).len() > 0,
        join_with(parts, sep)[0] == parts[0][0],
        join_with(parts, sep).last() == parts.last().last(),
    decreases parts.len(),
{
    if parts.len() > 1 {
        let pre = parts.drop_last();
        if pre.len() > 1 {
            assert(pre.last() == parts[parts.len() - 2]);
        }
        assert(pre[0] == parts[0]);
        if pre.last().len() > 0 {
            lemma_join_ends(pre, sep);
        } else {
            lemma_join_first(pre, sep);
        }
    }
}

proof fn lemma_join_first(parts: Seq<Seq<char>>, sep: Seq<char>)
    requires
        parts.len() > 0,
        parts[0].len() > 0,
    ensures
        join_with(parts, sep).len() > 0,
        join_with(parts, sep)[0] == parts[0][0],
    decreases parts.len(),
{
    if parts.len() > 1 {
        assert(parts.drop_last()[0] == parts[0]);
        lemma_join_first(parts.drop_last(), sep);
    }
}

/// A path inside the upload is never empty and neither starts nor ends with
/// `/`.
pub proof fn lemma_relative_path_shape(r: Seq<char>)
    requires
        relative_ok(r),
    ensures
        r.len() > 0,
        r[0] != '/',
        r.last() != '/',
{
    let parts = choose|parts: Seq<Seq<char>>|
        {
            &&& parts.len() > 0
            &&& forall|j: int| 0 <= j < parts.len() ==> valid_component(#[trigger] parts[j])
            &&& r == join_with(parts, seq!['/'])
        };
    assert(valid_component(parts[0]));
    assert(valid_component(parts[parts.len() - 1]));
    lemma_join_ends(parts, seq!['/']);
}

/// Every path inside the upload that a listing with well-formed names
/// yields is a `/`-separated path of well-formed components.
proof fn lemma_listed_relatives_ok(path: Seq<char>, listing: ListingView)
    requires
        listing_names_ok(listing),
    ensures
        forall|k: int|
            0 <= k < listed_entries(path, listing).len() ==> relative_ok(
                #[trigger] listed_entries(path, listing)[k].relative,
            ),
{
    let e = listed_entries(path, listing);
    match listing {
        ListingView::Missing => {},
        ListingView::File { name, size } => {
            let n = match name {
                Some(n) => n,
                None => "index.html"@,
            };
            reveal_strlit("index.html");
            assert(valid_component(n));
            let parts = seq![n];
            assert(join_with(parts, seq!['/']) == n);
            assert(e[0].relative == n);
            assert(valid_component(parts[0]));
        },
        ListingView::Directory(found) => {
            assert forall|k: int| 0 <= k < e.len() implies relative_ok(#[trigger] e[k].relative) by {
                let parts = found[k].components;
                assert(e[k].relative == join_with(parts, seq!['/']));
                assert(forall|j: int| 0 <= j < parts.len() ==> valid_component(#[trigger] parts[j]));
            }
        },
    }
}

/// A directory at depth 0 is never skipped; below it, a name is skipped
/// exactly when it starts with `.`, at every depth.
pub proof fn lemma_hidden_names(depth: usize, name: Seq<char>)
    ensures
        depth == 0 ==> !spec_is_hidden(depth, name),
        depth > 0 && name.len() > 0 && name[0] == '.' ==> spec_is_hidden(depth, name),
        (name.len() == 0 || name[0] != '.') ==> !spec_is_hidden(depth, name),
{
}

/// The content type each scanned entry carries is the one guessed from that
/// entry's own local path (`application/octet-stream` when nothing is
/// guessed); a single file's entry is the path itself, and a directory's
/// entries are its found files, in order, each with its own path and size.
pub proof fn lemma_scan_entries_follow_the_listing(path: Seq<char>, listing: ListingView)
    ensures
        spec_scan(path, listing) matches Ok(m) ==> forall|k: int|
            0 <= k < m.entries.len() ==> {
                let e = #[trigger] m.entries[k];
                &&& mime_guess_first(e.local) matches Some(t) ==> e.content_type == t
                &&& mime_guess_first(e.local) is None ==> e.content_type == OCTET_STREAM@
            },
        spec_scan(path, listing) is Ok && listing is File ==> {
            let m = spec_scan(path, listing)->Ok_0;
            &&& m.entries.len() == 1
            &&& m.entries[0].local == path
            &&& m.entries[0].size == listing->File_size
        },
        spec_scan(path, listing) is Ok && listing is Directory ==> {
            let m = spec_scan(path, listing)->Ok_0;
            let found = listing->Directory_0;
            &&& m.entries.len() == found.len()
            &&& forall|k: int|
                0 <= k < found.len() ==> (#[trigger] m.entries[k]).local == found[k].local
                    && m.entries[k].size == found[k].size
        },
{
}

/// The view of a scan result.
pub open spec fn scan_result_view(r: Result<Manifest, String>) -> Result<ManifestView, Seq<char>> {
    match r {
        Ok(m) => Ok(m@),
        Err(e) => Err(e@),
    }
}

proof fn lemma_sum_of_found(found: Seq<FoundView>)
    ensures
        sizes_sum(found.map_values(|f: FoundView| spec_entry(f.local, found_relative(f), f.size)))
            == found_sum(found),
    decreases found.len(),
{
    if found.len() > 0 {
        lemma_sum_of_found(found.drop_last());
        let m = found.map_values(|f: FoundView| spec_entry(f.local, found_relative(f), f.size));
        assert(m.drop_last() =~= found.drop_last().map_values(
            |f: FoundView| spec_entry(f.local, found_relative(f), f.size),
        ));
    }
}

proof fn lemma_prefix_sum_grows(e: Seq<EntryView>, i: int)
    requires
        0 <= i <= e.len(),
    ensures
        sizes_sum(e.take(i)) <= sizes_sum(e),
    decreases e.len() - i,
{
    if i < e.len() {
        lemma_prefix_sum_grows(e, i + 1);
        assert(e.take(i + 1).drop_last() =~= e.take(i));
    } else {
        assert(e.take(i) =~= e);
    }
}

proof fn lemma_first_index_at(e: Seq<EntryView>, i: int)
    requires
        0 <= i <= e.len(),
        forall|k: int| 0 <= k < i ==> (#[trigger] e[k]).relative != "index.html"@,
        i == e.len() || e[i].relative == "index.html"@,
    ensures
        first_index_html(e) == (if i < e.len() {
            Some(e[i].relative)
        } else {
            None
        }),
    decreases i,
{
    if i > 0 {
        let t = e.drop_first();
        assert forall|k: int| 0 <= k < i - 1 implies (#[trigger] t[k]).relative
            != "index.html"@ by {
            assert(t[k] == e[k + 1]);
        }
        lemma_first_index_at(t, i - 1);
        assert(e[0].relative != "index.html"@);
        if i < e.len() {
            assert(t[i - 1] == e[i]);
        }
    }
}

/// Builds the manifest for the path `path`, given what the filesystem holds
/// there.
pub fn scan(path: &str, listing: Listing) -> (r: Result<Manifest, String>)
    requires
        listing_sum_fits(listing@),
        listing_names_ok(listing@),
    ensures
        scan_result_view(r) == spec_scan(path@, listing@),
        r matches Ok(m) ==> manifest_wf(m@),
        r matches Ok(m) ==> forall|k: int|
            0 <= k < m@.entries.len() ==> relative_ok(#[trigger] m@.entries[k].relative),
        r matches Ok(m) ==> forall|k: int|
            0 <= k < m@.entries.len() ==> (#[trigger] m@.entries[k]).content_type
                == content_type_of(m@.entries[k].local),
{
    let ghost lv = listing@;
    let ghost expected = listed_entries(path@, lv);
    proof {
        lemma_listed_relatives_ok(path@, lv);
    }
    let mut entries: Vec<Entry> = Vec::new();
    match listing {
        Listing::Missing => {
            let mut e = path.to_owned();
            e.append(" does not exist");
            return Err(e);
        },
        Listing::File { name, size } => {
            let rel = match name {
                Some(n) => n,
                None => "index.html".to_owned(),
            };
            entries.push(entry_for(path.to_owned(), rel, size));
            assert(entries@.map_values(|e: Entry| e@) =~= expected);
            assert(expected.drop_last() =~= Seq::<EntryView>::empty());
            assert(sizes_sum(Seq::<EntryView>::empty()) == 0);
            assert(sizes_sum(expected) == expected.last().size);
        },
        Listing::Directory(found) => {
            let ghost fv = found@.map_values(|f: Found| f@);
            let mut i: usize = 0;
            while i < found.len()
                invariant
                    i <= found.len(),
                    fv == found@.map_values(|f: Found| f@),
                    expected == fv.map_values(
                        |f: FoundView| spec_entry(f.local, found_relative(f), f.size),
                    ),
                    entries@.map_values(|e: Entry| e@) == expected.take(i as int),
                decreases found.len() - i,
            {
                let f = &found[i];
                let rel = join_strings(&f.components, "/");
                proof {
                    reveal_strlit("/");
                    assert("/"@ =~= seq!['/']);
                    assert(fv[i as int] == f@);
                }
                let ghost prev = entries@.map_values(|e: Entry| e@);
                entries.push(entry_for(f.local.clone(), rel, f.size));
                assert(entries@.map_values(|e: Entry| e@) =~= prev.push(expected[i as int]));
                assert(expected.take(i + 1) =~= expected.take(i as int).push(expected[i as int]));
                i = i + 1;
            }
            assert(expected.take(found.len() as int) =~= expected);
            proof {
                lemma_sum_of_found(fv);
                assert(lv == ListingView::Directory(fv));
                assert(expected.len() <= MAX_FILES ==> sizes_sum(expected) <= u64::MAX);
            }
        },
    }
    let ghost ev = entries@.map_values(|e: Entry| e@);
    assert(ev == expected);
    if entries.len() == 0 {
        let mut e = path.to_owned();
        e.append(" contains no files to upload");
        return Err(e);
    }
    if entries.len() > MAX_FILES {
        let mut e = path.to_owned();
        e.append(" contains ");
        e.append(decimal_string(entries.len() as u64).as_str());
        e.append(" files, more than the ");
        e.append(decimal_string(MAX_FILES as u64).as_str());
        e.append(" gcsdrop uploads at once");
        return Err(e);
    }
    assert(sizes_sum(ev) <= u64::MAX);
    let mut total: u64 = 0;
    let mut i: usize = 0;
    while i < entries.len()
        invariant
            i <= entries.len(),
            ev == entries@.map_values(|e: Entry| e@),
            sizes_sum(ev) <= u64::MAX,
            total == sizes_sum(ev.take(i as int)),
        decreases entries.len() - i,
    {
        proof {
            assert(ev.take(i + 1).drop_last() =~= ev.take(i as int));
            lemma_prefix_sum_grows(ev, i + 1);
        }
        total = total + entries[i].size;
        i = i + 1;
    }
    assert(ev.take(entries.len() as int) =~= ev);
    if total > MAX_TOTAL_BYTES {
        let mut e = path.to_owned();
        e.append(" is ");
        e.append(decimal_string(total).as_str());
        e.append(" bytes, more than the ");
        e.append(decimal_string(MAX_TOTAL_BYTES).as_str());
        e.append(" byte limit");
        return Err(e);
    }
    let index = landing_of(&entries);
    let m = Manifest { entries, total_bytes: total, index };
    proof {
        if m@.index is Some {
            let w = choose|w: int|
                0 <= w < m.entries@.len() && (#[trigger] m.entries@[w])@.relative == m@.index->0;
            assert(m@.entries[w] == m.entries@[w]@);
        }
    }
    Ok(m)
}

/// The landing entry of a list of entries, as [`spec_index`] says, which is
/// always one of the entries.
fn landing_of(entries: &Vec<Entry>) -> (r: Option<String>)
    ensures
        opt_chars(r) == spec_index(entries@.map_values(|e: Entry| e@)),
        r matches Some(x) ==> exists|i: int|
            0 <= i < entries@.len() && (#[trigger] entries@[i])@.relative == x@,
{
    let ghost ev = entries@.map_values(|e: Entry| e@);
    if entries.len() == 1 {
        let r = entries[0].relative.clone();
        assert(entries@[0]@.relative == r@);
        Some(r)
    } else {
        let mut j: usize = 0;
        while j < entries.len() && !str_eq(entries[j].relative.as_str(), "index.html")
            invariant
                j <= entries.len(),
                ev == entries@.map_values(|e: Entry| e@),
                forall|k: int| 0 <= k < j ==> (#[trigger] ev[k]).relative != "index.html"@,
            decreases entries.len() - j,
        {
            j = j + 1;
        }
        proof {
            lemma_first_index_at(ev, j as int);
        }
        if j < entries.len() {
            let r = entries[j].relative.clone();
            assert(entries@[j as int]@.relative == r@);
            Some(r)
        } else {
            None
        }
    }
}

} // verus!
