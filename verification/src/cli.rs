//! The command line: what to publish, and for how long its link lasts.

use vstd::prelude::*;
use crate::text::{chars_of, string_from_chars, trim_chars, trim_ws};
use std::time::Duration;

verus! {

/// The command line: the file or directory to publish and the requested
/// lifetime of the signed URL (such as `30m`, `1h`, `7d`; at most 7 days,
/// 1 hour when absent).
#[derive(Debug, Clone, PartialEq, Eq)]
pub struct Cli {
    pub path: String,
    pub expires: Option<String>,
}

/// The longest lifetime a V4 signed URL may have, in seconds: 7 days.
pub const MAX_EXPIRES_SECS: u64 = 604800;

/// The lifetime used when none is requested, in seconds: 1 hour.
pub const DEFAULT_EXPIRES_SECS: u64 = 3600;

/// What `Duration::from_secs(secs)` returns.
pub uninterp spec fn secs_duration(secs: u64) -> Duration;

/// `Duration::from_secs`. The contract claims only that the result is a
/// function of the number of seconds, named [`secs_duration`].
#[verifier::external_body]
fn duration_from_secs(secs: u64) -> (d: Duration)
    ensures
        d == secs_duration(secs),
{
    Duration::from_secs(secs)
}

/// Whether every character of `d` is an ASCII digit.
pub open spec fn all_digits(d: Seq<char>) -> bool {
    forall|i: int| 0 <= i < d.len() ==> '0' <= #[trigger] d[i] <= '9'
}

/// The number the decimal digits `d` spell.
pub open spec fn digits_value(d: Seq<char>) -> nat
    decreases d.len(),
{
    if d.len() == 0 {
        0
    } else {
        digits_value(d.drop_last()) * 10 + (d.last() as nat - '0' as nat) as nat
    }
}

/// What `str::parse::<u64>` accepts: an optional leading `+`, then at least
/// one ASCII digit and nothing else, spelling a number that fits in a `u64`.
pub open spec fn parse_u64(s: Seq<char>) -> Option<u64> {
    let d = if s.len() > 0 && s[0] == '+' {
        s.drop_first()
    } else {
        s
    };
    if d.len() == 0 || !all_digits(d) || digits_value(d) > u64::MAX {
        None
    } else {
        Some(digits_value(d) as u64)
    }
}

/// `str::parse::<u64>` on the characters `s`.
pub fn parse_u64_chars(s: &Vec<char>) -> (r: Option<u64>)
    ensures
        r == parse_u64(s@),
{
    let start: usize = if s.len() > 0 && s[0] == '+' {
        1
    } else {
        0
    };
    let ghost d = s@.subrange(start as int, s@.len() as int);
    proof {
        if start == 1 {
            assert(d =~= s@.drop_first());
        } else {
            assert(d =~= s@);
        }
    }
    if start == s.len() {
        return None;
    }
    let mut value: u64 = 0;
    let mut i = start;
    while i < s.len()
        invariant
            start <= i <= s.len(),
            d == s@.subrange(start as int, s@.len() as int),
            d == (if s@.len() > 0 && s@[0] == '+' { s@.drop_first() } else { s@ }),
            d.len() > 0,
            all_digits(d.take(i - start)),
            value as nat == digits_value(d.take(i - start)),
        decreases s.len() - i,
    {
        let c = s[i];
        let ghost pre = d.take(i - start);
        let ghost next = d.take(i - start + 1);
        proof {
            assert(next.drop_last() =~= pre);
            assert(next.last() == c);
        }
        if c < '0' || c > '9' {
            proof {
                assert(d[i - start] == c);
                assert(!('0' <= d[i - start] <= '9'));
                assert(!all_digits(d));
            }
            return None;
        }
        let digit: u64 = (c as u32 - '0' as u32) as u64;
        match value.checked_mul(10) {
            Some(m) => match m.checked_add(digit) {
                Some(v) => {
                    value = v;
                },
                None => {
                    proof {
                        if all_digits(d) {
                            lemma_digits_value_grows(d, i - start + 1);
                        }
                    }
                    return None;
                },
            },
            None => {
                proof {
                    if all_digits(d) {
                        lemma_digits_value_grows(d, i - start + 1);
                    }
                }
                return None;
            },
        }
        i = i + 1;
        proof {
            assert(all_digits(next));
        }
    }
    proof {
        assert(d.take(s@.len() - start) =~= d);
    }
    Some(value)
}

/// A longer digit string spells at least as much as its prefix.
proof fn lemma_digits_value_grows(d: Seq<char>, k: int)
    requires
        0 <= k <= d.len(),
        all_digits(d),
    ensures
        digits_value(d.take(k)) <= digits_value(d),
    decreases d.len() - k,
{
    if k < d.len() {
        lemma_digits_value_grows(d, k + 1);
        assert(d.take(k + 1).drop_last() =~= d.take(k));
    } else {
        assert(d.take(k) =~= d);
    }
}

/// The seconds one unit of a duration suffix stands for.
pub open spec fn unit_secs(c: char) -> Option<u64> {
    if c == 's' {
        Some(1)
    } else if c == 'm' {
        Some(60)
    } else if c == 'h' {
        Some(3600)
    } else if c == 'd' {
        Some(86400)
    } else {
        None
    }
}

/// The error for text that is not a duration.
pub open spec fn unreadable_duration(t: Seq<char>) -> Seq<char> {
    "cannot read '"@ + t + "' as a duration; try 30m, 1h or 7d"@
}

/// The error for a duration of zero.
pub const ZERO_DURATION: &'static str = "a signed URL must last longer than zero seconds";

/// The error for a duration over 7 days.
pub open spec fn too_long_duration(t: Seq<char>) -> Seq<char> {
    "'"@ + t + "' is longer than 7 days. Google caps V4 signed URLs at 604800 seconds."@
}

/// A signed URL lifetime read from text: surrounding whitespace removed, the
/// last character is the unit (`s`, `m`, `h` or `d`) and the rest a number
/// of those units. The result is the number of seconds, between 1 and 7
/// days, or the error message.
pub open spec fn spec_parse_duration(s: Seq<char>) -> Result<u64, Seq<char>> {
    let t = trim_ws(s);
    let unit = if t.len() > 0 {
        t.last()
    } else {
        ' '
    };
    let num = if t.len() > 0 {
        t.drop_last()
    } else {
        t
    };
    match parse_u64(num) {
        None => Err(unreadable_duration(t)),
        Some(n) => match unit_secs(unit) {
            None => Err(unreadable_duration(t)),
            Some(m) => if n * m == 0 {
                Err(ZERO_DURATION@)
            } else if n * m > MAX_EXPIRES_SECS {
                Err(too_long_duration(t))
            } else {
                Ok((n * m) as u64)
            },
        },
    }
}

/// Whether a duration result agrees with a result in seconds.
pub open spec fn duration_result_is(r: Result<Duration, String>, spec: Result<u64, Seq<char>>) -> bool {
    match (r, spec) {
        (Ok(d), Ok(n)) => d == secs_duration(n),
        (Err(e), Err(m)) => e@ == m,
        _ => false,
    }
}

fn unit_multiplier(c: char) -> (r: Option<u64>)
    ensures
        r == unit_secs(c),
{
    if c == 's' {
        Some(1)
    } else if c == 'm' {
        Some(60)
    } else if c == 'h' {
        Some(3600)
    } else if c == 'd' {
        Some(86400)
    } else {
        None
    }
}

/// Reads a signed URL lifetime such as `30m`, `1h` or `7d`.
pub fn parse_duration(s: &str) -> (r: Result<Duration, String>)
    ensures
        duration_result_is(r, spec_parse_duration(s@)),
        r is Ok ==> (spec_parse_duration(s@) is Ok && 1 <= spec_parse_duration(s@)->Ok_0
            <= MAX_EXPIRES_SECS),
{
    let all = chars_of(s);
    let t = trim_chars(&all, false);
    let shown = string_from_chars(&t);
    let ghost tv = t@;
    let mut unit: char = ' ';
    let mut num: Vec<char> = Vec::new();
    if t.len() > 0 {
        unit = t[t.len() - 1];
        let mut i: usize = 0;
        while i < t.len() - 1
            invariant
                t@ == tv,
                tv.len() > 0,
                i <= tv.len() - 1,
                num@ == tv.take(i as int),
            decreases t.len() - 1 - i,
        {
            num.push(t[i]);
            i = i + 1;
            assert(num@ =~= tv.take(i as int));
        }
        assert(num@ =~= tv.drop_last());
    }
    let mut bad = "cannot read '".to_owned();
    bad.append(shown.as_str());
    bad.append("' as a duration; try 30m, 1h or 7d");
    let n = match parse_u64_chars(&num) {
        Some(n) => n,
        None => return Err(bad),
    };
    let m = match unit_multiplier(unit) {
        Some(m) => m,
        None => return Err(bad),
    };
    let secs = match n.checked_mul(m) {
        Some(v) => v,
        None => {
            let mut long = "'".to_owned();
            long.append(shown.as_str());
            long.append("' is longer than 7 days. Google caps V4 signed URLs at 604800 seconds.");
            return Err(long);
        },
    };
    if secs == 0 {
        return Err(ZERO_DURATION.to_owned());
    }
    if secs > MAX_EXPIRES_SECS {
        let mut long = "'".to_owned();
        long.append(shown.as_str());
        long.append("' is longer than 7 days. Google caps V4 signed URLs at 604800 seconds.");
        return Err(long);
    }
    Ok(duration_from_secs(secs))
}

/// The signed URL lifetime the command line asks for, 1 hour when it asks
/// for none.
pub open spec fn spec_expiry(expires: Option<Seq<char>>) -> Result<u64, Seq<char>> {
    match expires {
        Some(s) => spec_parse_duration(s),
        None => Ok(DEFAULT_EXPIRES_SECS),
    }
}

/// The signed URL lifetime the command line asks for.
pub fn expiry_from(cli: &Cli) -> (r: Result<Duration, String>)
    ensures
        duration_result_is(
            r,
            spec_expiry(
                match cli.expires {
                    Some(s) => Some(s@),
                    None => None,
                },
            ),
        ),
{
    match &cli.expires {
        Some(s) => parse_duration(s.as_str()),
        None => Ok(duration_from_secs(DEFAULT_EXPIRES_SECS)),
    }
}

} // verus!
