//! The mapping grammar held against the same grammar written with parser
//! combinators.

use nom::branch::alt;
use nom::bytes::complete::take_until;
use nom::character::complete::{char, digit1, multispace0};
use nom::combinator::map_res;
use nom::multi::separated_list1;
use nom::sequence::{delimited, preceded, tuple};
use nom::IResult;
use smrec::midi::parse::{
    parse_channel_and_ccs, parse_list, parse_midi_config_raw, parse_port, parse_port_name,
    parse_u8, parse_u8_or_star,
};

fn reference_u8_or_star(input: &str) -> IResult<&str, u8> {
    let star = nom::combinator::map(char('*'), |_| 255_u8);
    let number = map_res(preceded(multispace0, digit1), str::parse::<u8>);
    alt((number, star))(input)
}

fn reference_u8(input: &str) -> IResult<&str, u8> {
    map_res(preceded(multispace0, digit1), str::parse::<u8>)(input)
}

fn reference_port_name(input: &str) -> IResult<&str, &str> {
    let (input, _) = multispace0(input)?;
    let (input, name) = take_until("[")(input)?;
    Ok((input, name.trim_end()))
}

fn reference_channel_and_ccs(input: &str) -> IResult<&str, (u8, u8, u8)> {
    delimited(
        preceded(multispace0, char('(')),
        tuple((
            preceded(multispace0, reference_u8_or_star),
            preceded(
                multispace0,
                delimited(
                    preceded(multispace0, char(',')),
                    reference_u8,
                    preceded(multispace0, char(',')),
                ),
            ),
            preceded(multispace0, reference_u8),
        )),
        preceded(multispace0, char(')')),
    )(input)
}

fn reference_list(input: &str) -> IResult<&str, Vec<(u8, u8, u8)>> {
    delimited(
        preceded(multispace0, char('[')),
        separated_list1(preceded(multispace0, char(',')), reference_channel_and_ccs),
        preceded(multispace0, char(']')),
    )(input)
}

fn reference_port(input: &str) -> IResult<&str, (&str, Vec<(u8, u8, u8)>)> {
    let (input, _) = multispace0(input)?;
    let (input, name) = reference_port_name(input)?;
    let (input, _) = take_until("[")(input)?;
    let (input, triples) = reference_list(input)?;
    Ok((input, (name, triples)))
}

fn reference_config(input: &str) -> IResult<&str, Vec<(&str, Vec<(u8, u8, u8)>)>> {
    delimited(
        preceded(multispace0, char('[')),
        separated_list1(preceded(multispace0, char(',')), reference_port),
        preceded(multispace0, char(']')),
    )(input)
}

/// A stream of numbers that is the same on every run.
fn next(state: &mut u64) -> u64 {
    *state = state.wrapping_mul(6364136223846793005).wrapping_add(1442695040888963407);
    *state >> 33
}

const PIECES: [&str; 30] = [
    "[", "]", "(", ")", ",", "*", " ", "\t", "\n", "\r", "0", "1", "9", "12", "255", "256", "007",
    "a", "port", "x y", "\u{a0}", "\u{b}", "\u{e9}", "[]", "(1,2,3)", "(*,16,17)", "[(1,2,3)]",
    "a[(1,2,3)]", ", ", "999",
];

fn sample(state: &mut u64) -> String {
    let count = next(state) % 12;
    let mut text = String::new();
    for _ in 0..count {
        text.push_str(PIECES[(next(state) % PIECES.len() as u64) as usize]);
    }
    text
}

/// A configuration that is mostly well formed, with blanks thrown in.
fn likely(state: &mut u64) -> String {
    let blanks = ["", "", " ", "  ", "\t", "\n"];
    let mut pad = |state: &mut u64| blanks[(next(state) % blanks.len() as u64) as usize];
    let mut text = String::new();
    text.push_str(pad(state));
    text.push('[');
    for p in 0..next(state) % 4 {
        if p > 0 {
            text.push_str(pad(state));
            text.push(',');
        }
        text.push_str(pad(state));
        text.push_str(PIECES[(17 + next(state) % 6) as usize]);
        text.push_str(pad(state));
        text.push('[');
        for t in 0..next(state) % 4 {
            if t > 0 {
                text.push_str(pad(state));
                text.push(',');
            }
            text.push_str(pad(state));
            text.push('(');
            for n in 0..3 {
                if n > 0 {
                    text.push_str(pad(state));
                    text.push(',');
                }
                text.push_str(pad(state));
                if n == 0 && next(state) % 4 == 0 {
                    text.push('*');
                } else {
                    text.push_str(&(next(state) % 300).to_string());
                }
            }
            text.push_str(pad(state));
            text.push(')');
        }
        text.push_str(pad(state));
        text.push(']');
    }
    text.push_str(pad(state));
    if next(state) % 8 != 0 {
        text.push(']');
    }
    text.push_str(PIECES[(next(state) % PIECES.len() as u64) as usize]);
    text
}

fn agree(input: &str) {
    assert_eq!(parse_u8(input).ok(), reference_u8(input).ok(), "{:?}", input);
    assert_eq!(parse_u8_or_star(input).ok(), reference_u8_or_star(input).ok(), "{:?}", input);
    assert_eq!(parse_port_name(input).ok(), reference_port_name(input).ok(), "{:?}", input);
    assert_eq!(
        parse_channel_and_ccs(input).ok(),
        reference_channel_and_ccs(input).ok(),
        "{:?}",
        input
    );
    assert_eq!(parse_list(input).ok(), reference_list(input).ok(), "{:?}", input);
    assert_eq!(parse_port(input).ok(), reference_port(input).ok(), "{:?}", input);
    assert_eq!(parse_midi_config_raw(input).ok(), reference_config(input).ok(), "{:?}", input);
}

#[test]
fn the_rules_agree_on_strings_of_pieces() {
    let mut state = 1u64;
    for _ in 0..20000 {
        agree(&sample(&mut state));
    }
}

#[test]
fn the_rules_agree_on_likely_configurations() {
    let mut state = 7u64;
    let mut well_formed = 0;
    for _ in 0..20000 {
        let text = likely(&mut state);
        agree(&text);
        if reference_config(&text).is_ok() {
            well_formed += 1;
        }
    }
    assert!(well_formed > 1000);
}

#[test]
fn the_rules_agree_on_chosen_strings() {
    for input in [
        "",
        "[",
        "]",
        "[]",
        "[]]",
        "[ ]",
        "[[]]",
        "[[[]]]",
        "[a[]]",
        "[a[],]",
        "[a[] , b[]]",
        "[], x[(1,2,3)]]",
        "[*[(*,16,17)]]",
        "  [ a  [ ( 1 , 2 , 3 ) ] ]  ",
        "[a[(1,2,3)(4,5,6)]]",
        "[a[(1,2,3),]]",
        "[a[(1,2,256)]]",
        "[a[(*,*,3)]]",
        "[a[( *,2,3)]]",
        "[a[(\u{a0}1,2,3)]]",
        "[\u{a0} a \u{a0}\u{2003} [(1,2,3)]]",
        "[a\n[(1\n,\n2\n,\n3\n)\n]\n]",
        "(1,2,3)",
        "(0000000000000000000000001,2,3)rest",
        "*",
        "**",
        " *",
        "+1",
        "-1",
        "1e3",
        "name[",
        "   [",
        "\u{b}name\u{b}[",
    ] {
        agree(input);
    }
}
