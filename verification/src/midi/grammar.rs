//! The grammar of a MIDI mapping string.
//!
//! ```text
//! config := '[' port (',' port)* ']'
//! port   := name '[' triple (',' triple)* ']'
//! triple := '(' chan ',' start_cc ',' stop_cc ')'
//! chan   := digits | '*'
//! ```
//!
//! Each rule is a function from the text that is left to what the rule
//! yields and the number of characters it consumes, or to `None` where the
//! text does not begin with the rule. Blanks may stand before every token.
//! A list holds one item or more.

use vstd::prelude::*;
use crate::text::{decimal_value, is_blank, is_digit, is_whitespace, leading, lemma_leading_facts};

verus! {

/// The channel value that `*` stands for: any channel.
pub const ANY_CHANNEL: u8 = 0xFF;

/// The number of blanks at the front of `s`.
pub open spec fn blank_run(s: Seq<char>) -> nat {
    leading(s, |c: char| is_blank(c))
}

/// The number of decimal digits at the front of `s`.
pub open spec fn digit_run(s: Seq<char>) -> nat {
    leading(s, |c: char| is_digit(c))
}

/// The number of characters at the front of `s` before its first `[`.
pub open spec fn name_run(s: Seq<char>) -> nat {
    leading(s, |c: char| c != '[')
}

/// `s` without the white space at its end.
pub open spec fn trim_end(s: Seq<char>) -> Seq<char>
    decreases s.len(),
{
    if s.len() > 0 && is_whitespace(s.last()) {
        trim_end(s.drop_last())
    } else {
        s
    }
}

/// Blanks, then the character `c`.
#[verifier::opaque]
pub open spec fn symbol(s: Seq<char>, c: char) -> Option<nat> {
    let b = blank_run(s);
    if b < s.len() && s[b as int] == c {
        Some(b + 1)
    } else {
        None
    }
}

/// Blanks, then one or more decimal digits that write a number up to 255.
#[verifier::opaque]
pub open spec fn number(s: Seq<char>) -> Option<(u8, nat)> {
    let b = blank_run(s);
    let d = digit_run(s.skip(b as int));
    let value = decimal_value(s.subrange(b as int, (b + d) as int));
    if d > 0 && value <= 255 {
        Some((value as u8, b + d))
    } else {
        None
    }
}

/// A number, or else `*` as the very first character, which stands for
/// [`ANY_CHANNEL`].
#[verifier::opaque]
pub open spec fn number_or_star(s: Seq<char>) -> Option<(u8, nat)> {
    if number(s) is Some {
        number(s)
    } else if s.len() > 0 && s[0] == '*' {
        Some((ANY_CHANNEL, 1))
    } else {
        None
    }
}

/// `( chan , start_cc , stop_cc )`
pub open spec fn triple(s: Seq<char>) -> Option<((u8, u8, u8), nat)> {
    let open = symbol(s, '(');
    let a = open.unwrap() + blank_run(s.skip(open.unwrap() as int));
    let chan = number_or_star(s.skip(a as int));
    let b = a + chan.unwrap().1;
    let comma1 = symbol(s.skip(b as int), ',');
    let c = b + comma1.unwrap();
    let start = number(s.skip(c as int));
    let d = c + start.unwrap().1;
    let comma2 = symbol(s.skip(d as int), ',');
    let e = d + comma2.unwrap();
    let stop = number(s.skip(e as int));
    let f = e + stop.unwrap().1;
    let close = symbol(s.skip(f as int), ')');
    if open is Some && chan is Some && comma1 is Some && start is Some && comma2 is Some
        && stop is Some && close is Some {
        Some(((chan.unwrap().0, start.unwrap().0, stop.unwrap().0), f + close.unwrap()))
    } else {
        None
    }
}

/// A rule that matched has consumed at least one character, and no more than
/// there are.
pub proof fn lemma_symbol_bounds(s: Seq<char>, c: char)
    ensures
        symbol(s, c) matches Some(n) ==> 1 <= n <= s.len(),
{
    reveal(symbol);
}

/// See [`lemma_symbol_bounds`].
pub proof fn lemma_number_bounds(s: Seq<char>)
    ensures
        number(s) matches Some((_, n)) ==> 1 <= n <= s.len(),
        number_or_star(s) matches Some((_, n)) ==> 1 <= n <= s.len(),
{
    reveal(number);
    reveal(number_or_star);
    lemma_leading_facts(s, |c: char| is_blank(c));
    lemma_leading_facts(s.skip(blank_run(s) as int), |c: char| is_digit(c));
}

/// See [`lemma_symbol_bounds`].
pub proof fn lemma_triple_bounds(s: Seq<char>)
    ensures
        triple(s) matches Some((_, n)) ==> 7 <= n <= s.len(),
{
    if triple(s) is Some {
        let open = symbol(s, '(');
        lemma_symbol_bounds(s, '(');
        lemma_leading_facts(s.skip(open.unwrap() as int), |c: char| is_blank(c));
        let a = open.unwrap() + blank_run(s.skip(open.unwrap() as int));
        lemma_number_bounds(s.skip(a as int));
        let b = a + number_or_star(s.skip(a as int)).unwrap().1;
        lemma_symbol_bounds(s.skip(b as int), ',');
        let c = b + symbol(s.skip(b as int), ',').unwrap();
        lemma_number_bounds(s.skip(c as int));
        let d = c + number(s.skip(c as int)).unwrap().1;
        lemma_symbol_bounds(s.skip(d as int), ',');
        let e = d + symbol(s.skip(d as int), ',').unwrap();
        lemma_number_bounds(s.skip(e as int));
        let f = e + number(s.skip(e as int)).unwrap().1;
        lemma_symbol_bounds(s.skip(f as int), ')');
    }
}

/// Zero or more times: `,` and a triple. A comma that no triple follows is
/// not consumed.
pub open spec fn more_triples(s: Seq<char>) -> (Seq<(u8, u8, u8)>, nat)
    decreases s.len(),
{
    let comma = symbol(s, ',');
    let item = triple(s.skip(comma.unwrap() as int));
    if comma is Some && item is Some {
        let used = comma.unwrap() + item.unwrap().1;
        proof {
            lemma_symbol_bounds(s, ',');
            lemma_triple_bounds(s.skip(comma.unwrap() as int));
        }
        let rest = more_triples(s.skip(used as int));
        (seq![item.unwrap().0] + rest.0, used + rest.1)
    } else {
        (Seq::empty(), 0)
    }
}

/// As many triples as there are, with commas between them; none at all
/// where `s` does not begin with a triple.
pub open spec fn triple_list(s: Seq<char>) -> (Seq<(u8, u8, u8)>, nat) {
    match triple(s) {
        Some((first, n)) => {
            let rest = more_triples(s.skip(n as int));
            (seq![first] + rest.0, n + rest.1)
        },
        None => (Seq::empty(), 0),
    }
}

/// `[ triple , triple , .. ]`, with one triple or more.
pub open spec fn bracketed_triples(s: Seq<char>) -> Option<(Seq<(u8, u8, u8)>, nat)> {
    let open = symbol(s, '[');
    let items = triple_list(s.skip(open.unwrap() as int));
    let a = open.unwrap() + items.1;
    let close = symbol(s.skip(a as int), ']');
    if open is Some && items.0.len() > 0 && close is Some {
        Some((items.0, a + close.unwrap()))
    } else {
        None
    }
}

/// Blanks, then the text before the next `[`, without the white space at its
/// end. The `[` itself is not consumed; text that holds none has no name.
#[verifier::opaque]
pub open spec fn port_name(s: Seq<char>) -> Option<(Seq<char>, nat)> {
    let b = blank_run(s);
    let n = name_run(s.skip(b as int));
    if b + n < s.len() {
        Some((trim_end(s.subrange(b as int, (b + n) as int)), b + n))
    } else {
        None
    }
}

/// `name [ triple , triple , .. ]`
pub open spec fn port(s: Seq<char>) -> Option<((Seq<char>, Seq<(u8, u8, u8)>), nat)> {
    let name = port_name(s);
    let list = bracketed_triples(s.skip(name.unwrap().1 as int));
    if name is Some && list is Some {
        Some(((name.unwrap().0, list.unwrap().0), name.unwrap().1 + list.unwrap().1))
    } else {
        None
    }
}

/// See [`lemma_symbol_bounds`].
pub proof fn lemma_more_triples_bounds(s: Seq<char>)
    ensures
        more_triples(s).1 <= s.len(),
    decreases s.len(),
{
    lemma_symbol_bounds(s, ',');
    if let Some(n) = symbol(s, ',') {
        let t = s.skip(n as int);
        lemma_triple_bounds(t);
        if let Some((_, m)) = triple(t) {
            lemma_more_triples_bounds(s.skip((n + m) as int));
        }
    }
}

/// See [`lemma_symbol_bounds`].
pub proof fn lemma_triple_list_bounds(s: Seq<char>)
    ensures
        triple_list(s).1 <= s.len(),
{
    lemma_triple_bounds(s);
    if let Some((_, n)) = triple(s) {
        lemma_more_triples_bounds(s.skip(n as int));
    }
}

/// See [`lemma_symbol_bounds`].
pub proof fn lemma_bracketed_triples_bounds(s: Seq<char>)
    ensures
        bracketed_triples(s) matches Some((_, n)) ==> 2 <= n <= s.len(),
{
    lemma_symbol_bounds(s, '[');
    if let Some(n) = symbol(s, '[') {
        let t = s.skip(n as int);
        lemma_triple_list_bounds(t);
        lemma_symbol_bounds(t.skip(triple_list(t).1 as int), ']');
        assert(t.skip(triple_list(t).1 as int) =~= s.skip((n + triple_list(t).1) as int));
    }
}

/// See [`lemma_symbol_bounds`].
pub proof fn lemma_port_bounds(s: Seq<char>)
    ensures
        port_name(s) matches Some((_, n)) ==> n < s.len(),
        port(s) matches Some((_, n)) ==> 2 <= n <= s.len(),
{
    reveal(port_name);
    if let Some((_, n)) = port_name(s) {
        lemma_bracketed_triples_bounds(s.skip(n as int));
    }
}

/// Zero or more times: `,` and a port. A comma that no port follows is not
/// consumed.
pub open spec fn more_ports(s: Seq<char>) -> (Seq<(Seq<char>, Seq<(u8, u8, u8)>)>, nat)
    decreases s.len(),
{
    let comma = symbol(s, ',');
    let item = port(s.skip(comma.unwrap() as int));
    if comma is Some && item is Some {
        let used = comma.unwrap() + item.unwrap().1;
        proof {
            lemma_symbol_bounds(s, ',');
            lemma_port_bounds(s.skip(comma.unwrap() as int));
        }
        let rest = more_ports(s.skip(used as int));
        (seq![item.unwrap().0] + rest.0, used + rest.1)
    } else {
        (Seq::empty(), 0)
    }
}

/// As many ports as there are, with commas between them; none at all where
/// `s` does not begin with a port.
pub open spec fn port_list(s: Seq<char>) -> (Seq<(Seq<char>, Seq<(u8, u8, u8)>)>, nat) {
    match port(s) {
        Some((first, n)) => {
            let rest = more_ports(s.skip(n as int));
            (seq![first] + rest.0, n + rest.1)
        },
        None => (Seq::empty(), 0),
    }
}

/// A mapping at the front of `s`: `[ port , port , .. ]`, with one port or
/// more. What follows the closing bracket is left.
pub open spec fn config(s: Seq<char>) -> Option<(Seq<(Seq<char>, Seq<(u8, u8, u8)>)>, nat)> {
    let open = symbol(s, '[');
    let items = port_list(s.skip(open.unwrap() as int));
    let a = open.unwrap() + items.1;
    let close = symbol(s.skip(a as int), ']');
    if open is Some && items.0.len() > 0 && close is Some {
        Some((items.0, a + close.unwrap()))
    } else {
        None
    }
}

} // verus!
