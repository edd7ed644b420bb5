//! Parsing of MIDI mapping strings such as `[my port[(1,2,3), (*,16,17)]]`.

use vstd::prelude::*;
use vstd::string::StrSliceExecFns;
use crate::error::{ConfigError, ParseError};
use crate::midi::grammar::{
    blank_run, bracketed_triples, config, number, number_or_star, port, port_list, port_name,
    symbol, triple,
};
use crate::midi::scan::{
    scan_blanks, scan_bracketed_triples, scan_config, scan_number, scan_number_or_star, scan_port,
    scan_port_list, scan_port_name, scan_symbol, scan_triple, scanned, ScannedPort,
};
use crate::midi::{collect, MidiConfig};
use crate::text::chars_of;

verus! {

/// The ports that a list of names with their triples stands for.
pub open spec fn named(ports: Seq<(&str, Vec<(u8, u8, u8)>)>) -> Seq<
    (Seq<char>, Seq<(u8, u8, u8)>),
> {
    Seq::new(ports.len(), |i: int| (ports[i].0@, ports[i].1@))
}

/// Parses `*` or a number up to 255; `*` gives 255.
pub fn parse_u8_or_star(input: &str) -> (r: Result<(&str, u8), ParseError>)
    ensures
        match number_or_star(input@) {
            Some((v, n)) => r matches Ok((rest, found)) && found == v && rest@ == input@.skip(
                n as int,
            ),
            None => r is Err,
        },
{
    let text = chars_of(input);
    assert(text@.skip(0) =~= text@);
    match scan_number_or_star(&text, 0) {
        Some((v, end)) => Ok((input.substring_char(end, text.len()), v)),
        None => Err(ParseError),
    }
}

/// Parses a number up to 255.
pub fn parse_u8(input: &str) -> (r: Result<(&str, u8), ParseError>)
    ensures
        match number(input@) {
            Some((v, n)) => r matches Ok((rest, found)) && found == v && rest@ == input@.skip(
                n as int,
            ),
            None => r is Err,
        },
{
    let text = chars_of(input);
    assert(text@.skip(0) =~= text@);
    match scan_number(&text, 0) {
        Some((v, end)) => Ok((input.substring_char(end, text.len()), v)),
        None => Err(ParseError),
    }
}

/// Parses the port name that stands before the first `[`.
pub fn parse_port_name(input: &str) -> (r: Result<(&str, &str), ParseError>)
    ensures
        match port_name(input@) {
            Some((name, n)) => r matches Ok((rest, found)) && found@ == name && rest@
                == input@.skip(n as int),
            None => r is Err,
        },
{
    let text = chars_of(input);
    assert(text@.skip(0) =~= text@);
    match scan_port_name(&text, 0) {
        Some((from, to, end)) => Ok(
            (input.substring_char(end, text.len()), input.substring_char(from, to)),
        ),
        None => Err(ParseError),
    }
}

/// Parses a channel and its two controller numbers: `(chan, start_cc, stop_cc)`.
pub fn parse_channel_and_ccs(input: &str) -> (r: Result<(&str, (u8, u8, u8)), ParseError>)
    ensures
        match triple(input@) {
            Some((t, n)) => r matches Ok((rest, found)) && found == t && rest@ == input@.skip(
                n as int,
            ),
            None => r is Err,
        },
{
    let text = chars_of(input);
    assert(text@.skip(0) =~= text@);
    match scan_triple(&text, 0) {
        Some((t, end)) => Ok((input.substring_char(end, text.len()), t)),
        None => Err(ParseError),
    }
}

/// Parses a bracketed list of one triple or more: `[(..), (..), (..)]`.
pub fn parse_list(input: &str) -> (r: Result<(&str, Vec<(u8, u8, u8)>), ParseError>)
    ensures
        match bracketed_triples(input@) {
            Some((items, n)) => r matches Ok((rest, found)) && found@ == items && rest@
                == input@.skip(n as int),
            None => r is Err,
        },
{
    let text = chars_of(input);
    assert(text@.skip(0) =~= text@);
    match scan_bracketed_triples(&text, 0) {
        Some((items, end)) => Ok((input.substring_char(end, text.len()), items)),
        None => Err(ParseError),
    }
}

/// Parses one port: its name and its list of triples.
pub fn parse_port(input: &str) -> (r: Result<(&str, (&str, Vec<(u8, u8, u8)>)), ParseError>)
    ensures
        match port(input@) {
            Some((p, n)) => r matches Ok((rest, found)) && found.0@ == p.0 && found.1@ == p.1
                && rest@ == input@.skip(n as int),
            None => r is Err,
        },
{
    let text = chars_of(input);
    assert(text@.skip(0) =~= text@);
    match scan_port(&text, 0) {
        Some((found, end)) => {
            let name = input.substring_char(found.name_from, found.name_to);
            Ok((input.substring_char(end, text.len()), (name, found.triples)))
        },
        None => Err(ParseError),
    }
}

/// The items of `items` from the last to the first.
fn reversed<T>(items: Vec<T>) -> (r: Vec<T>)
    ensures
        r@ == items@.reverse(),
{
    let ghost all = items@;
    let mut items = items;
    let mut out: Vec<T> = Vec::new();
    while items.len() > 0
        invariant
            items@ == all.take(items.len() as int),
            out.len() + items.len() == all.len(),
            forall|k: int| 0 <= k < out.len() ==> out[k] == all[all.len() - 1 - k],
        decreases items.len(),
    {
        let item = items.pop().unwrap();
        out.push(item);
    }
    out
}

/// Gives each scanned port its name out of `input`.
fn name_ports<'a>(input: &'a str, ports: Vec<ScannedPort>) -> (r: Vec<(&'a str, Vec<(u8, u8, u8)>)>)
    requires
        forall|i: int| 0 <= i < ports.len() ==> (#[trigger] ports[i]).within(input@),
    ensures
        named(r@) == scanned(ports@, input@),
{
    let ghost all = ports@;
    let mut left = reversed(ports);
    let mut out: Vec<(&'a str, Vec<(u8, u8, u8)>)> = Vec::new();
    while left.len() > 0
        invariant
            out.len() + left.len() == all.len(),
            left@ == all.reverse().take(left.len() as int),
            forall|k: int| 0 <= k < all.len() ==> (#[trigger] all[k]).within(input@),
            named(out@) == scanned(all.take(out.len() as int), input@),
        decreases left.len(),
    {
        let port = left.pop().unwrap();
        let name = input.substring_char(port.name_from, port.name_to);
        let ghost before = out@;
        out.push((name, port.triples));
        proof {
            assert(named(out@) =~= named(before).push(port.of(input@)));
        }
    }
    out
}

/// Parses the mapping at the front of the input into its ports, in the order
/// in which they are written, and hands back what follows it.
pub fn parse_midi_config_raw(input: &str) -> (r: Result<
    (&str, Vec<(&str, Vec<(u8, u8, u8)>)>),
    ParseError,
>)
    ensures
        match config(input@) {
            Some((ports, n)) => r matches Ok((rest, found)) && named(found@) == ports && rest@
                == input@.skip(n as int),
            None => r is Err,
        },
{
    let text = chars_of(input);
    match scan_config(&text) {
        Some((found, end)) => Ok((input.substring_char(end, text.len()), name_ports(input, found))),
        None => Err(ParseError),
    }
}

/// What a mapping string means: the mapping that holds its ports, each name
/// with the triples that were written for it last. The string is the mapping
/// and nothing else: only blanks may follow the closing bracket. `None`
/// where the string is malformed.
pub open spec fn parsed(s: Seq<char>) -> Option<Seq<(Seq<char>, Seq<(u8, u8, u8)>)>> {
    match config(s) {
        Some((ports, n)) => if n + blank_run(s.skip(n as int)) == s.len() {
            Some(collect(ports))
        } else {
            None
        },
        None => None,
    }
}

/// Where a malformed mapping string stops making sense:
/// - at its first character that is no blank, where that is not `[`;
/// - else where the next port should begin or the `]` that closes the list
///   of ports should stand, where there is something else;
/// - else at the first character behind the closing bracket that is no blank.
pub open spec fn stuck_at(s: Seq<char>) -> nat {
    match symbol(s, '[') {
        None => blank_run(s),
        Some(n) => {
            let a = n + port_list(s.skip(n as int)).1;
            match config(s) {
                Some((_, end)) => end + blank_run(s.skip(end as int)),
                None => a + blank_run(s.skip(a as int)),
            }
        },
    }
}

/// The fragment at which a malformed mapping string stops making sense.
fn offending_fragment(input: &str, text: &Vec<char>) -> (r: String)
    requires
        text@ == input@,
        parsed(input@) is None,
    ensures
        stuck_at(input@) <= input@.len(),
        r@ == input@.skip(stuck_at(input@) as int),
{
    assert(text@.skip(0) =~= text@);
    let at = match scan_symbol(text, 0, '[') {
        None => scan_blanks(text, 0),
        Some(opened) => {
            match scan_config(text) {
                Some((_, end)) => scan_blanks(text, end),
                None => {
                    let (_, a) = scan_port_list(text, opened);
                    scan_blanks(text, a)
                },
            }
        },
    };
    input.substring_char(at, text.len()).to_owned()
}

/// Parses the [`MidiConfig`] from the provided configuration string, which
/// must hold the mapping and nothing behind it but blanks. Where a port name
/// is written more than once, its last list of triples counts.
pub fn parse_midi_config(input: &str) -> (r: Result<MidiConfig, ConfigError>)
    ensures
        match parsed(input@) {
            Some(mapping) => r matches Ok(found) && found.wf() && found@ == mapping,
            None => r matches Err(ConfigError::Syntax(fragment)) && fragment@ == input@.skip(
                stuck_at(input@) as int,
            ),
        },
{
    let text = chars_of(input);
    let found = match scan_config(&text) {
        Some((found, end)) => {
            if scan_blanks(&text, end) == text.len() {
                Some(found)
            } else {
                None
            }
        },
        None => None,
    };
    match found {
        Some(found) => {
            let ghost all = scanned(found@, input@);
            let mut left = reversed(name_ports(input, found));
            let mut map = MidiConfig::new();
            let ghost mut done: int = 0;
            while left.len() > 0
                invariant
                    done + left.len() == all.len(),
                    0 <= done,
                    named(left@) == all.reverse().take(left.len() as int),
                    map.wf(),
                    map@ == collect(all.take(done)),
                decreases left.len(),
            {
                let ghost before = left@;
                let (name, triples) = left.pop().unwrap();
                proof {
                    assert(named(before)[before.len() - 1] == all[done]);
                    assert(named(left@) =~= all.reverse().take(left.len() as int)) by {
                        assert forall|k: int| 0 <= k < left.len() implies #[trigger] named(left@)[k]
                            == all.reverse()[k] by {
                            assert(named(before)[k] == all.reverse()[k]);
                        }
                    }
                    assert(all.take(done + 1).drop_last() =~= all.take(done));
                    done = done + 1;
                }
                map.insert(name.to_owned(), triples);
            }
            assert(all.take(all.len() as int) =~= all);
            Ok(map)
        },
        None => Err(ConfigError::Syntax(offending_fragment(input, &text))),
    }
}

} // verus!
