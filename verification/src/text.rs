//! Character-level string utilities, each proved against a spec over `Seq<char>`.

use vstd::prelude::*;

verus! {

/// The characters of an optional string.
pub open spec fn opt_chars(s: Option<String>) -> Option<Seq<char>> {
    match s {
        Some(x) => Some(x@),
        None => None,
    }
}

/// `needle` occurs in `hay` at position `i`.
pub open spec fn occurs_at(hay: Seq<char>, needle: Seq<char>, i: int) -> bool {
    &&& 0 <= i
    &&& i + needle.len() <= hay.len()
    &&& hay.subrange(i, i + needle.len()) == needle
}

/// `needle` occurs somewhere in `hay` (the empty needle occurs everywhere).
pub open spec fn seq_contains(hay: Seq<char>, needle: Seq<char>) -> bool {
    exists|i: int| occurs_at(hay, needle, i)
}

/// `hay` ends with `suffix`.
pub open spec fn seq_ends_with(hay: Seq<char>, suffix: Seq<char>) -> bool {
    &&& suffix.len() <= hay.len()
    &&& hay.subrange(hay.len() - suffix.len(), hay.len() as int) == suffix
}

/// `hay` starts with `prefix`.
pub open spec fn seq_starts_with(hay: Seq<char>, prefix: Seq<char>) -> bool {
    &&& prefix.len() <= hay.len()
    &&& hay.subrange(0, prefix.len() as int) == prefix
}

/// The characters of `s`, in order.
pub fn chars_of(s: &str) -> (v: Vec<char>)
    ensures
        v@ == s@,
{
    let mut v: Vec<char> = Vec::new();
    for c in it: s.chars()
        invariant
            v@ == it.seq().take(it.index() as int),
    {
        v.push(c);
    }
    v
}

/// Appends one character (`String::push`).
#[verifier::external_body]
pub(crate) fn push_char(s: &mut String, c: char)
    ensures
        final(s)@ == old(s)@.push(c),
{
    s.push(c);
}

/// A `String` holding exactly the characters `v[from..to]`.
pub fn string_from_range(v: &Vec<char>, from: usize, to: usize) -> (s: String)
    requires
        from <= to <= v.len(),
    ensures
        s@ == v@.subrange(from as int, to as int),
{
    let mut s = String::new();
    let mut i = from;
    while i < to
        invariant
            from <= i <= to <= v.len(),
            s@ == v@.subrange(from as int, i as int),
        decreases to - i,
    {
        push_char(&mut s, v[i]);
        i = i + 1;
        assert(s@ =~= v@.subrange(from as int, i as int));
    }
    s
}

/// A `String` holding exactly the characters of `v`.
pub fn string_from_chars(v: &Vec<char>) -> (s: String)
    ensures
        s@ == v@,
{
    let s = string_from_range(v, 0, v.len());
    assert(v@.subrange(0, v@.len() as int) =~= v@);
    s
}

/// Whether `needle` occurs in `hay` at position `i`.
pub fn occurs_at_exec(hay: &Vec<char>, needle: &Vec<char>, i: usize) -> (b: bool)
    ensures
        b == occurs_at(hay@, needle@, i as int),
{
    if needle.len() > hay.len() || i > hay.len() - needle.len() {
        return false;
    }
    let mut j: usize = 0;
    while j < needle.len()
        invariant
            i + needle.len() <= hay.len(),
            j <= needle.len(),
            forall|k: int| 0 <= k < j ==> hay@[i + k] == needle@[k],
        decreases needle.len() - j,
    {
        if hay[i + j] != needle[j] {
            assert(hay@.subrange(i as int, i + needle.len())[j as int] != needle@[j as int]);
            return false;
        }
        j = j + 1;
    }
    assert(hay@.subrange(i as int, i + needle.len()) =~= needle@);
    true
}

/// Whether `needle` occurs anywhere in `hay`.
pub fn contains_chars(hay: &Vec<char>, needle: &Vec<char>) -> (b: bool)
    ensures
        b == seq_contains(hay@, needle@),
{
    if needle.len() > hay.len() {
        return false;
    }
    let last = hay.len() - needle.len();
    let mut i: usize = 0;
    loop
        invariant
            last + needle.len() == hay.len(),
            i <= last,
            forall|k: int| 0 <= k < i ==> !occurs_at(hay@, needle@, k),
        decreases last - i,
    {
        if occurs_at_exec(hay, needle, i) {
            return true;
        }
        if i == last {
            return false;
        }
        i = i + 1;
    }
}

/// `str::contains` with a string pattern.
pub fn str_contains(hay: &str, needle: &str) -> (b: bool)
    ensures
        b == seq_contains(hay@, needle@),
{
    let h = chars_of(hay);
    let n = chars_of(needle);
    contains_chars(&h, &n)
}

/// Whether `hay` ends with `suffix`.
pub fn ends_with_chars(hay: &Vec<char>, suffix: &Vec<char>) -> (b: bool)
    ensures
        b == seq_ends_with(hay@, suffix@),
{
    if suffix.len() > hay.len() {
        return false;
    }
    let start = hay.len() - suffix.len();
    let r = occurs_at_exec(hay, suffix, start);
    r
}

/// Unicode `White_Space`, the property `char::is_whitespace` tests.
pub open spec fn is_ws(c: char) -> bool {
    ||| ('\u{9}' <= c && c <= '\u{d}')
    ||| c == ' '
    ||| c == '\u{85}'
    ||| c == '\u{a0}'
    ||| c == '\u{1680}'
    ||| ('\u{2000}' <= c && c <= '\u{200a}')
    ||| c == '\u{2028}'
    ||| c == '\u{2029}'
    ||| c == '\u{202f}'
    ||| c == '\u{205f}'
    ||| c == '\u{3000}'
}

/// `char::is_whitespace`.
pub fn is_whitespace(c: char) -> (b: bool)
    ensures
        b == is_ws(c),
{
    ('\u{9}' <= c && c <= '\u{d}') || c == ' ' || c == '\u{85}' || c == '\u{a0}' || c
        == '\u{1680}' || ('\u{2000}' <= c && c <= '\u{200a}') || c == '\u{2028}' || c
        == '\u{2029}' || c == '\u{202f}' || c == '\u{205f}' || c == '\u{3000}'
}

/// The characters a trim removes: whitespace, or `'/'` when `slash` is set.
pub open spec fn trimmed_char(c: char, slash: bool) -> bool {
    if slash {
        c == '/'
    } else {
        is_ws(c)
    }
}

/// `s` without its leading run of trimmed characters.
pub open spec fn trim_start_by(s: Seq<char>, slash: bool) -> Seq<char>
    decreases s.len(),
{
    if s.len() > 0 && trimmed_char(s[0], slash) {
        trim_start_by(s.drop_first(), slash)
    } else {
        s
    }
}

/// `s` without its trailing run of trimmed characters.
pub open spec fn trim_end_by(s: Seq<char>, slash: bool) -> Seq<char>
    decreases s.len(),
{
    if s.len() > 0 && trimmed_char(s.last(), slash) {
        trim_end_by(s.drop_last(), slash)
    } else {
        s
    }
}

/// `s` without leading and trailing trimmed characters.
pub open spec fn trim_by(s: Seq<char>, slash: bool) -> Seq<char> {
    trim_end_by(trim_start_by(s, slash), slash)
}

/// `str::trim`: `s` without leading and trailing whitespace.
pub open spec fn trim_ws(s: Seq<char>) -> Seq<char> {
    trim_by(s, false)
}

/// `str::trim_matches('/')`.
pub open spec fn trim_slashes(s: Seq<char>) -> Seq<char> {
    trim_by(s, true)
}

proof fn lemma_trim_start_at(s: Seq<char>, slash: bool, a: int)
    requires
        0 <= a <= s.len(),
        forall|k: int| 0 <= k < a ==> trimmed_char(#[trigger] s[k], slash),
        a == s.len() || !trimmed_char(s[a], slash),
    ensures
        trim_start_by(s, slash) == s.subrange(a, s.len() as int),
    decreases a,
{
    if a == 0 {
        assert(s.subrange(0, s.len() as int) =~= s);
    } else {
        let t = s.drop_first();
        assert forall|k: int| 0 <= k < a - 1 implies trimmed_char(#[trigger] t[k], slash) by {
            assert(t[k] == s[k + 1]);
        }
        lemma_trim_start_at(t, slash, a - 1);
        assert(t.subrange(a - 1, t.len() as int) =~= s.subrange(a, s.len() as int));
    }
}

proof fn lemma_trim_end_at(s: Seq<char>, slash: bool, b: int)
    requires
        0 <= b <= s.len(),
        forall|k: int| b <= k < s.len() ==> trimmed_char(#[trigger] s[k], slash),
        b == 0 || !trimmed_char(s[b - 1], slash),
    ensures
        trim_end_by(s, slash) == s.subrange(0, b),
    decreases s.len() - b,
{
    if b == s.len() {
        assert(s.subrange(0, s.len() as int) =~= s);
    } else {
        let t = s.drop_last();
        assert forall|k: int| b <= k < t.len() implies trimmed_char(#[trigger] t[k], slash) by {
            assert(t[k] == s[k]);
        }
        lemma_trim_end_at(t, slash, b);
        assert(t.subrange(0, b) =~= s.subrange(0, b));
    }
}

fn is_trimmed(c: char, slash: bool) -> (b: bool)
    ensures
        b == trimmed_char(c, slash),
{
    if slash {
        c == '/'
    } else {
        is_whitespace(c)
    }
}

/// The characters of `v` with leading and trailing trimmed characters removed.
pub fn trim_chars(v: &Vec<char>, slash: bool) -> (r: Vec<char>)
    ensures
        r@ == trim_by(v@, slash),
{
    let mut a: usize = 0;
    while a < v.len() && is_trimmed(v[a], slash)
        invariant
            a <= v.len(),
            forall|k: int| 0 <= k < a ==> trimmed_char(#[trigger] v@[k], slash),
        decreases v.len() - a,
    {
        a = a + 1;
    }
    proof {
        lemma_trim_start_at(v@, slash, a as int);
    }
    let ghost mid = v@.subrange(a as int, v@.len() as int);
    let mut b: usize = v.len();
    while b > a && is_trimmed(v[b - 1], slash)
        invariant
            a <= b <= v.len(),
            mid == v@.subrange(a as int, v@.len() as int),
            forall|k: int| b <= k < v.len() ==> trimmed_char(#[trigger] v@[k], slash),
        decreases b,
    {
        b = b - 1;
    }
    proof {
        assert forall|k: int| b - a <= k < mid.len() implies trimmed_char(#[trigger] mid[k], slash) by {
            assert(mid[k] == v@[k + a]);
        }
        if b > a {
            assert(mid[b - a - 1] == v@[b - 1]);
        }
        lemma_trim_end_at(mid, slash, b - a);
        assert(mid.subrange(0, b - a) =~= v@.subrange(a as int, b as int));
    }
    let mut r: Vec<char> = Vec::new();
    let mut i = a;
    while i < b
        invariant
            a <= i <= b <= v.len(),
            r@ == v@.subrange(a as int, i as int),
        decreases b - i,
    {
        r.push(v[i]);
        i = i + 1;
        assert(r@ =~= v@.subrange(a as int, i as int));
    }
    r
}

/// Every character of `s` is one a trim removes.
pub open spec fn all_trimmed(s: Seq<char>, slash: bool) -> bool {
    forall|i: int| 0 <= i < s.len() ==> trimmed_char(#[trigger] s[i], slash)
}

/// Trimming the end leaves nothing exactly when every character is trimmed.
pub proof fn lemma_trim_end_empty(s: Seq<char>, slash: bool)
    ensures
        (trim_end_by(s, slash).len() == 0) == all_trimmed(s, slash),
    decreases s.len(),
{
    if s.len() > 0 {
        lemma_trim_end_empty(s.drop_last(), slash);
        if all_trimmed(s, slash) {
            assert(all_trimmed(s.drop_last(), slash)) by {
                assert forall|i: int| 0 <= i < s.len() - 1 implies trimmed_char(
                    #[trigger] s.drop_last()[i],
                    slash,
                ) by {
                    assert(s.drop_last()[i] == s[i]);
                }
            }
        }
        if trimmed_char(s.last(), slash) && all_trimmed(s.drop_last(), slash) {
            assert forall|i: int| 0 <= i < s.len() implies trimmed_char(#[trigger] s[i], slash) by {
                if i < s.len() - 1 {
                    assert(s.drop_last()[i] == s[i]);
                }
            }
        }
    }
}

/// Trimming the start leaves nothing exactly when every character is trimmed.
pub proof fn lemma_trim_start_empty(s: Seq<char>, slash: bool)
    ensures
        (trim_start_by(s, slash).len() == 0) == all_trimmed(s, slash),
    decreases s.len(),
{
    if s.len() > 0 {
        lemma_trim_start_empty(s.drop_first(), slash);
        if all_trimmed(s, slash) {
            assert(all_trimmed(s.drop_first(), slash)) by {
                assert forall|i: int| 0 <= i < s.len() - 1 implies trimmed_char(
                    #[trigger] s.drop_first()[i],
                    slash,
                ) by {
                    assert(s.drop_first()[i] == s[i + 1]);
                }
            }
        }
        if trimmed_char(s[0], slash) && all_trimmed(s.drop_first(), slash) {
            assert forall|i: int| 0 <= i < s.len() implies trimmed_char(#[trigger] s[i], slash) by {
                if i > 0 {
                    assert(s.drop_first()[i - 1] == s[i]);
                }
            }
        }
    }
}

/// What trimming the start leaves does not begin with a trimmed character.
pub proof fn lemma_trim_start_head(s: Seq<char>, slash: bool)
    ensures
        trim_start_by(s, slash).len() > 0 ==> !trimmed_char(trim_start_by(s, slash)[0], slash),
    decreases s.len(),
{
    if s.len() > 0 && trimmed_char(s[0], slash) {
        lemma_trim_start_head(s.drop_first(), slash);
    }
}

/// Trimming the end of `p + b`, where `p` does not end in a trimmed
/// character: the trailing run lies within `b`, unless all of `b` is trimmed.
pub proof fn lemma_trim_end_concat(p: Seq<char>, b: Seq<char>, slash: bool)
    requires
        p.len() > 0,
        !trimmed_char(p.last(), slash),
    ensures
        trim_end_by(p + b, slash) == if all_trimmed(b, slash) {
            p
        } else {
            p + trim_end_by(b, slash)
        },
    decreases b.len(),
{
    if b.len() == 0 {
        assert(p + b =~= p);
        assert(trim_end_by(p, slash) == p);
    } else {
        let s = p + b;
        assert(s.last() == b.last());
        assert(s.drop_last() =~= p + b.drop_last());
        lemma_trim_end_concat(p, b.drop_last(), slash);
        if trimmed_char(b.last(), slash) {
            if all_trimmed(b.drop_last(), slash) {
                assert forall|i: int| 0 <= i < b.len() implies trimmed_char(#[trigger] b[i], slash) by {
                    if i < b.len() - 1 {
                        assert(b.drop_last()[i] == b[i]);
                    }
                }
            } else {
                assert(!all_trimmed(b, slash)) by {
                    let i = choose|i: int|
                        0 <= i < b.len() - 1 && !trimmed_char(#[trigger] b.drop_last()[i], slash);
                    assert(b[i] == b.drop_last()[i]);
                }
            }
        } else {
            assert(!trimmed_char(b[b.len() - 1], slash));
        }
    }
}

/// `str::trim`, returned as an owned string.
pub fn trim(s: &str) -> (r: String)
    ensures
        r@ == trim_ws(s@),
{
    let v = chars_of(s);
    let t = trim_chars(&v, false);
    string_from_chars(&t)
}

/// Whether two strings hold the same characters.
pub fn str_eq(a: &str, b: &str) -> (r: bool)
    ensures
        r == (a@ == b@),
{
    a.to_owned() == b.to_owned()
}

/// `base` joined with the relative path `rel`, as `PathBuf::join` does:
/// a `'/'` goes between them unless `base` is empty or already ends in one.
pub open spec fn path_join(base: Seq<char>, rel: Seq<char>) -> Seq<char> {
    if base.len() > 0 && base.last() != '/' {
        base + seq!['/'] + rel
    } else {
        base + rel
    }
}

/// `PathBuf::from(base).join(rel)` for a relative `rel`, as a string.
pub fn join_path(base: &str, rel: &str) -> (r: String)
    ensures
        r@ == path_join(base@, rel@),
{
    let b = chars_of(base);
    let mut r = string_from_chars(&b);
    if b.len() > 0 && b[b.len() - 1] != '/' {
        push_char(&mut r, '/');
    }
    r.append(rel);
    r
}

/// `s` with every leading copy of `p` removed (`str::trim_start_matches`
/// with a string pattern; an empty pattern removes nothing).
pub open spec fn strip_prefixes(s: Seq<char>, p: Seq<char>) -> Seq<char>
    decreases s.len(),
{
    if p.len() > 0 && seq_starts_with(s, p) {
        strip_prefixes(s.subrange(p.len() as int, s.len() as int), p)
    } else {
        s
    }
}

/// Removes every leading copy of `p` from `v`.
pub fn strip_prefixes_chars(v: &Vec<char>, p: &Vec<char>) -> (r: Vec<char>)
    ensures
        r@ == strip_prefixes(v@, p@),
{
    let mut a: usize = 0;
    assert(v@.subrange(0, v@.len() as int) =~= v@);
    while p.len() > 0 && occurs_at_exec(v, p, a)
        invariant
            a <= v.len(),
            strip_prefixes(v@, p@) == strip_prefixes(v@.subrange(a as int, v@.len() as int), p@),
        decreases v.len() - a,
    {
        let ghost rest = v@.subrange(a as int, v@.len() as int);
        proof {
            assert(rest.subrange(0, p@.len() as int) =~= v@.subrange(a as int, a + p@.len()));
            assert(rest.subrange(p@.len() as int, rest.len() as int) =~= v@.subrange(
                a + p@.len(),
                v@.len() as int,
            ));
        }
        a = a + p.len();
    }
    proof {
        let rest = v@.subrange(a as int, v@.len() as int);
        if p@.len() > 0 && seq_starts_with(rest, p@) {
            assert(rest.subrange(0, p@.len() as int) =~= v@.subrange(a as int, a + p@.len()));
        }
    }
    let mut r: Vec<char> = Vec::new();
    let mut i = a;
    while i < v.len()
        invariant
            a <= i <= v.len(),
            r@ == v@.subrange(a as int, i as int),
        decreases v.len() - i,
    {
        r.push(v[i]);
        i = i + 1;
        assert(r@ =~= v@.subrange(a as int, i as int));
    }
    r
}

/// The parts joined by `sep`.
pub open spec fn join_with(parts: Seq<Seq<char>>, sep: Seq<char>) -> Seq<char>
    decreases parts.len(),
{
    if parts.len() == 0 {
        Seq::empty()
    } else if parts.len() == 1 {
        parts[0]
    } else {
        join_with(parts.drop_last(), sep) + sep + parts.last()
    }
}

/// The decimal digit for `d`, which is below 10.
pub open spec fn digit_char(d: nat) -> char {
    ((d + '0' as nat) as u32) as char
}

/// The decimal representation of `n`, without leading zeros.
pub open spec fn decimal(n: nat) -> Seq<char>
    decreases n,
{
    if n < 10 {
        seq![digit_char(n)]
    } else {
        decimal(n / 10).push(digit_char(n % 10))
    }
}

/// `n` in decimal, as its `Display` writes it.
pub fn decimal_string(n: u64) -> (s: String)
    ensures
        s@ == decimal(n as nat),
    decreases n,
{
    if n < 10 {
        let mut s = String::new();
        push_char(&mut s, ((n as u8) + 48u8) as char);
        proof {
            assert(s@ =~= seq![digit_char(n as nat)]);
        }
        s
    } else {
        let mut s = decimal_string(n / 10);
        let d = (n % 10) as u8;
        push_char(&mut s, (d + 48u8) as char);
        s
    }
}

/// Number of characters before the first newline of `s` (all of `s` when it
/// has none).
pub open spec fn line_end(s: Seq<char>) -> nat
    decreases s.len(),
{
    if s.len() == 0 || s[0] == '\n' {
        0
    } else {
        1 + line_end(s.drop_first())
    }
}

/// A line ended by a newline, without the carriage return before it.
pub open spec fn strip_cr(line: Seq<char>) -> Seq<char> {
    if line.len() > 0 && line.last() == '\r' {
        line.drop_last()
    } else {
        line
    }
}

/// The lines of `s`, as `str::lines` yields them: split at each `\n`, a
/// `\r` just before it dropped, and no empty line after a final newline.
pub open spec fn text_lines(s: Seq<char>) -> Seq<Seq<char>>
    decreases s.len(),
{
    if s.len() == 0 {
        Seq::empty()
    } else {
        let k = line_end(s);
        if k < s.len() {
            seq![strip_cr(s.take(k as int))] + text_lines(s.skip(k + 1 as int))
        } else {
            seq![s]
        }
    }
}

proof fn lemma_line_end(s: Seq<char>, k: int)
    requires
        0 <= k <= s.len(),
        forall|i: int| 0 <= i < k ==> s[i] != '\n',
        k == s.len() || s[k] == '\n',
    ensures
        line_end(s) == k,
    decreases k,
{
    if k > 0 {
        let t = s.drop_first();
        assert forall|i: int| 0 <= i < k - 1 implies t[i] != '\n' by {
            assert(t[i] == s[i + 1]);
        }
        lemma_line_end(t, k - 1);
    }
}

/// Each line of `s` with four spaces in front, joined by newlines.
pub open spec fn indented(s: Seq<char>) -> Seq<char> {
    join_with(text_lines(s).map_values(|l: Seq<char>| "    "@ + l), seq!['\n'])
}

/// Indents every line of `s` by four spaces.
pub fn indent(s: &str) -> (r: String)
    ensures
        r@ == indented(s@),
{
    let v = chars_of(s);
    let ghost sv = v@;
    let mut out = String::new();
    let ghost mut done: Seq<Seq<char>> = Seq::empty();
    let mut p: usize = 0;
    proof {
        assert(sv.skip(0) =~= sv);
    }
    while p < v.len()
        invariant
            v@ == sv,
            p <= sv.len(),
            (p == 0) == (done.len() == 0),
            text_lines(sv) == done + text_lines(sv.skip(p as int)),
            out@ == join_with(done.map_values(|l: Seq<char>| "    "@ + l), seq!['\n']),
        decreases sv.len() - p,
    {
        let ghost rest = sv.skip(p as int);
        let mut q = p;
        while q < v.len() && v[q] != '\n'
            invariant
                v@ == sv,
                p <= q <= sv.len(),
                forall|i: int| p <= i < q ==> sv[i] != '\n',
            decreases sv.len() - q,
        {
            q = q + 1;
        }
        proof {
            assert forall|i: int| 0 <= i < q - p implies rest[i] != '\n' by {
                assert(rest[i] == sv[i + p]);
            }
            if q < sv.len() {
                assert(rest[q - p] == sv[q as int]);
            }
            lemma_line_end(rest, q - p);
        }
        let mut end = q;
        if q < v.len() && q > p && v[q - 1] == '\r' {
            end = q - 1;
        }
        let ghost line = if q < sv.len() {
            strip_cr(rest.take(q - p))
        } else {
            rest
        };
        proof {
            if q < sv.len() {
                assert(rest.take(q - p) =~= sv.subrange(p as int, q as int));
                if q > p && sv[q - 1] == '\r' {
                    assert(line =~= sv.subrange(p as int, end as int));
                } else {
                    assert(line =~= sv.subrange(p as int, end as int));
                }
                assert(rest.skip(q - p + 1) =~= sv.skip(q + 1));
            } else {
                assert(line =~= sv.subrange(p as int, end as int));
            }
            assert(text_lines(rest) == seq![line] + text_lines(
                if q < sv.len() { sv.skip(q + 1) } else { Seq::<char>::empty() },
            )) by {
                if q >= sv.len() {
                    assert(sv.skip(sv.len() as int) =~= Seq::<char>::empty());
                    assert(text_lines(Seq::<char>::empty()) =~= Seq::<Seq<char>>::empty());
                    assert(seq![line] + Seq::<Seq<char>>::empty() =~= seq![line]);
                }
            }
        }
        let ghost prev = done.map_values(|l: Seq<char>| "    "@ + l);
        if p > 0 {
            push_char(&mut out, '\n');
        }
        out.append("    ");
        let piece = string_from_range(&v, p, end);
        out.append(piece.as_str());
        proof {
            let d2 = done.push(line);
            let m2 = d2.map_values(|l: Seq<char>| "    "@ + l);
            assert(m2.drop_last() =~= prev);
            assert(m2.last() == "    "@ + line);
            if done.len() == 0 {
                assert(p == 0);
                assert(out@ =~= m2[0]);
            } else {
                assert(p > 0);
            }
            assert(done + text_lines(rest) =~= d2 + text_lines(
                if q < sv.len() { sv.skip(q + 1) } else { Seq::<char>::empty() },
            ));
            done = d2;
        }
        if q < v.len() {
            p = q + 1;
        } else {
            p = q;
            proof {
                assert(sv.skip(p as int) =~= Seq::<char>::empty());
            }
        }
    }
    proof {
        assert(sv.skip(p as int) =~= Seq::<char>::empty());
        assert(text_lines(Seq::<char>::empty()) =~= Seq::<Seq<char>>::empty());
        assert(done + Seq::<Seq<char>>::empty() =~= done);
    }
    out
}

/// The strings `parts` joined by `sep`.
pub fn join_strings(parts: &Vec<String>, sep: &str) -> (s: String)
    ensures
        s@ == join_with(parts@.map_values(|p: String| p@), sep@),
{
    let ghost pv = parts@.map_values(|p: String| p@);
    let mut s = String::new();
    let n = parts.len();
    let mut i: usize = 0;
    while i < n
        invariant
            n == parts.len(),
            i <= n,
            pv == parts@.map_values(|p: String| p@),
            s@ == join_with(pv.take(i as int), sep@),
        decreases n - i,
    {
        proof {
            assert(pv.take(i + 1).drop_last() =~= pv.take(i as int));
        }
        if i > 0 {
            s.append(sep);
        }
        s.append(parts[i].as_str());
        proof {
            if i == 0 {
                assert(s@ =~= pv.take(1)[0]);
            }
        }
        i = i + 1;
    }
    assert(pv.take(n as int) =~= pv);
    s
}

} // verus!
