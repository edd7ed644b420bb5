//! The names of the files: the keys of the user's table of channel names,
//! and the names of the channels that the table leaves out.

use vstd::prelude::*;
use vstd::string::StringExecFns;
use crate::error::ConfigError;
use crate::text::{chars_of, decimal, decimal_value, digit, is_digit, push_decimal};

verus! {

/// Whether every character of `s` is a decimal digit.
pub open spec fn all_digits(s: Seq<char>) -> bool {
    forall|i: int| 0 <= i < s.len() ==> is_digit(#[trigger] s[i])
}

/// A key without the `+` that may stand before its digits.
pub open spec fn unsigned(key: Seq<char>) -> Seq<char> {
    if key.len() > 0 && key[0] == '+' {
        key.skip(1)
    } else {
        key
    }
}

/// The number that a key of the table of channel names writes: digits, with
/// or without a `+` before them, that write a number within `usize`.
pub open spec fn key_number(key: Seq<char>) -> Option<nat> {
    let digits = unsigned(key);
    if digits.len() > 0 && all_digits(digits) && decimal_value(digits) <= usize::MAX {
        Some(decimal_value(digits))
    } else {
        None
    }
}

/// Reads a key of the table of channel names: the number of a channel,
/// counted from one.
pub fn parse_channel_key(key: &str) -> (r: Result<usize, ConfigError>)
    ensures
        match key_number(key@) {
            None => r matches Err(ConfigError::InvalidChannelKey(text)) && text@ == key@,
            Some(n) => if n == 0 {
                r matches Err(ConfigError::ZeroChannelKey)
            } else {
                r == Ok::<usize, ConfigError>(n as usize)
            },
        },
{
    let text = chars_of(key);
    let from: usize = if text.len() > 0 && text[0] == '+' {
        1
    } else {
        0
    };
    let ghost digits = text@.skip(from as int);
    if from == text.len() {
        return Err(ConfigError::InvalidChannelKey(key.to_owned()));
    }
    let mut value: usize = 0;
    let mut i: usize = from;
    while i < text.len()
        invariant
            from <= i <= text.len(),
            from < text.len(),
            text@ == key@,
            digits == text@.skip(from as int),
            digits == unsigned(key@),
            forall|k: int| 0 <= k < i - from ==> is_digit(#[trigger] digits[k]),
            value == decimal_value(digits.take(i - from)),
        decreases text.len() - i,
    {
        assert(digits[i - from] == text@[i as int]);
        if !digit(text[i]) {
            return Err(ConfigError::InvalidChannelKey(key.to_owned()));
        }
        let d: usize = (text[i] as u32 - '0' as u32) as usize;
        proof {
            let upto = digits.take(i - from + 1);
            assert(upto.drop_last() =~= digits.take(i - from));
            crate::text::lemma_decimal_value_prefix(digits, i - from + 1);
        }
        if value > (usize::MAX - d) / 10 {
            return Err(ConfigError::InvalidChannelKey(key.to_owned()));
        }
        value = value * 10 + d;
        i += 1;
    }
    assert(digits.take(digits.len() as int) =~= digits);
    if value == 0 {
        Err(ConfigError::ZeroChannelKey)
    } else {
        Ok(value)
    }
}

/// The name of the file of the channel `number`, counted from one, that the
/// user gave no name: `chn_<number>.wav`.
pub open spec fn default_name(number: nat) -> Seq<char> {
    seq!['c', 'h', 'n', '_'] + decimal(number) + seq!['.', 'w', 'a', 'v']
}

/// The name of the file of the channel `number`, counted from one, where the
/// user gave it no name.
pub fn default_channel_name(number: usize) -> (r: String)
    ensures
        r@ == default_name(number as nat),
{
    proof {
        reveal_strlit("chn_");
        reveal_strlit(".wav");
    }
    let mut out = String::new();
    out.append("chn_");
    push_decimal(&mut out, number as u64);
    out.append(".wav");
    out
}

} // verus!
