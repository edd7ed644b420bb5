//! Where things are on disk: the directory of a recording, which is named
//! after the time, and the configuration file.

use vstd::prelude::*;
use vstd::string::StringExecFns;
use crate::error::ConfigError;
use crate::text::{decimal, push_decimal};

verus! {

/// A moment in time, as the calendar and the clock write it.
#[derive(Debug, Clone, Copy, PartialEq, Eq, Structural)]
pub struct Timestamp {
    pub year: u32,
    pub month: u32,
    pub day: u32,
    pub hour: u32,
    pub minute: u32,
    pub second: u32,
}

/// `n` in decimal digits, with zeros before them where they are fewer than
/// `width`.
pub open spec fn padded(n: nat, width: nat) -> Seq<char> {
    if decimal(n).len() < width {
        Seq::new((width - decimal(n).len()) as nat, |i: int| '0') + decimal(n)
    } else {
        decimal(n)
    }
}

/// The name of the directory that takes the recording begun at `t`:
/// `rec_YYYYMMDD_HHMMSS`.
pub open spec fn directory_name(t: Timestamp) -> Seq<char> {
    seq!['r', 'e', 'c', '_'] + padded(t.year as nat, 4) + padded(t.month as nat, 2) + padded(
        t.day as nat,
        2,
    ) + seq!['_'] + padded(t.hour as nat, 2) + padded(t.minute as nat, 2) + padded(
        t.second as nat,
        2,
    )
}

/// How many digits write `n`.
fn decimal_len(n: u64) -> (r: usize)
    ensures
        r == decimal(n as nat).len(),
        1 <= r <= 20,
    decreases n,
{
    if n < 10 {
        1
    } else {
        let r = decimal_len(n / 10);
        proof {
            lemma_decimal_len((n / 10) as nat);
        }
        r + 1
    }
}

/// A number below ten to the `k` is written with `k` digits at most.
proof fn lemma_decimal_len(n: nat)
    ensures
        n < 10 ==> decimal(n).len() == 1,
        n < 100 ==> decimal(n).len() <= 2,
        n < 10_000_000_000_000_000_000 ==> decimal(n).len() <= 19,
        n <= u64::MAX ==> decimal(n).len() <= 20,
{
    lemma_decimal_bound(n, 1);
    lemma_decimal_bound(n, 2);
    lemma_decimal_bound(n, 19);
    lemma_decimal_bound(n, 20);
    assert(pow10(1) == 10 && pow10(2) == 100) by {
        reveal_with_fuel(pow10, 3);
    }
    assert(pow10(19) == 10_000_000_000_000_000_000 && pow10(20) > u64::MAX) by {
        reveal_with_fuel(pow10, 21);
    }
}

/// Ten to the `k`.
pub open spec fn pow10(k: nat) -> nat
    decreases k,
{
    if k == 0 {
        1
    } else {
        10 * pow10((k - 1) as nat)
    }
}

/// A number below ten to the `k` is written with `k` digits at most.
proof fn lemma_decimal_bound(n: nat, k: nat)
    requires
        k >= 1,
    ensures
        n < pow10(k) ==> decimal(n).len() <= k,
    decreases k,
{
    if n >= 10 && k > 1 {
        lemma_decimal_bound(n / 10, (k - 1) as nat);
    }
    if n >= 10 && k == 1 {
        assert(pow10(1) == 10) by {
            reveal_with_fuel(pow10, 2);
        }
    }
}

/// Writes `n` behind `out`, in `width` digits or more.
fn push_padded(out: &mut String, n: u32, width: usize)
    ensures
        final(out)@ == old(out)@ + padded(n as nat, width as nat),
{
    let len = decimal_len(n as u64);
    let mut written: usize = len;
    let ghost zeros: Seq<char> = Seq::empty();
    while written < width
        invariant
            len <= written,
            written <= width || written == len,
            zeros.len() == written - len,
            zeros == Seq::new(zeros.len(), |i: int| '0'),
            out@ == old(out)@ + zeros,
        decreases width - written,
    {
        proof {
            reveal_strlit("0");
            zeros = zeros + "0"@;
        }
        out.append("0");
        written += 1;
    }
    push_decimal(out, n as u64);
}

/// The name of the directory that takes the recording begun at `now`.
pub fn recording_directory(now: &Timestamp) -> (r: String)
    ensures
        r@ == directory_name(*now),
{
    proof {
        reveal_strlit("rec_");
        reveal_strlit("_");
    }
    let mut out = String::new();
    out.append("rec_");
    push_padded(&mut out, now.year, 4);
    push_padded(&mut out, now.month, 2);
    push_padded(&mut out, now.day, 2);
    out.append("_");
    push_padded(&mut out, now.hour, 2);
    push_padded(&mut out, now.minute, 2);
    push_padded(&mut out, now.second, 2);
    out
}

/// The path that `camino` gives for `part` adjoined to `base`, by the rules
/// of the target that the library is built for: `part` behind `base` and a
/// separator, or `part` alone where it is absolute.
pub uninterp spec fn joined_path(base: Seq<char>, part: Seq<char>) -> Seq<char>;

/// `camino::Utf8Path::join`: the path `part` adjoined to the path `base`.
/// The result depends on the two paths alone.
#[verifier::external_body]
pub(crate) fn join_path(base: &str, part: &str) -> (r: String)
    ensures
        r@ == joined_path(base@, part@),
{
    camino::Utf8Path::new(base).join(part).into_string()
}

/// The configuration file in the working directory.
pub const LOCAL_CONFIG: &'static str = "./.smrec/config.toml";

/// Where the configuration file is looked for: at the path that the user
/// gave; else in `.smrec` under the working directory, where that file
/// exists (`local_exists`); else in `.smrec` under the user's `home`
/// directory. Without any of the three there is no place to look at.
pub fn config_file_path(config_path: Option<String>, local_exists: bool, home: Option<String>) -> (r:
    Result<String, ConfigError>)
    ensures
        match config_path {
            Some(path) => r matches Ok(found) && found@ == path@,
            None => if local_exists {
                r matches Ok(found) && found@ == LOCAL_CONFIG@
            } else {
                match home {
                    Some(dir) => r matches Ok(found) && found@ == joined_path(
                        joined_path(dir@, ".smrec"@),
                        "config.toml"@,
                    ),
                    None => r matches Err(ConfigError::NoHomeDirectory),
                }
            },
        },
{
    match config_path {
        Some(path) => Ok(path),
        None => {
            if local_exists {
                Ok(LOCAL_CONFIG.to_owned())
            } else {
                match home {
                    Some(dir) => {
                        let under = join_path(dir.as_str(), ".smrec");
                        Ok(join_path(under.as_str(), "config.toml"))
                    },
                    None => Err(ConfigError::NoHomeDirectory),
                }
            }
        },
    }
}

} // verus!
