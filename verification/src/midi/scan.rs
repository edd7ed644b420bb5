//! Scanners for the rules of the mapping grammar: each reads a rule at a
//! position of a character buffer and gives what it found and where it
//! stopped.

use vstd::prelude::*;
use crate::midi::grammar::{
    blank_run, bracketed_triples, config, more_ports, more_triples, number, number_or_star, port,
    port_list, port_name, symbol, trim_end, triple, triple_list, ANY_CHANNEL,
};
use crate::text::{
    blank, decimal_value, digit, is_blank, is_digit, lemma_decimal_value_prefix,
    lemma_leading, whitespace,
};

verus! {

/// Skipping `a` characters and then `b` more is skipping `a + b`.
pub proof fn lemma_skip_skip(s: Seq<char>, a: int, b: int)
    requires
        0 <= a,
        0 <= b,
        a + b <= s.len(),
    ensures
        s.skip(a).skip(b) == s.skip(a + b),
{
    assert(s.skip(a).skip(b) =~= s.skip(a + b));
}

/// A port as a scanner finds it: where its name begins and ends in the
/// buffer, and its triples.
pub struct ScannedPort {
    pub name_from: usize,
    pub name_to: usize,
    pub triples: Vec<(u8, u8, u8)>,
}

impl ScannedPort {
    /// The port that the scan stands for, its name read from `text`.
    pub open spec fn of(self, text: Seq<char>) -> (Seq<char>, Seq<(u8, u8, u8)>) {
        (text.subrange(self.name_from as int, self.name_to as int), self.triples@)
    }

    /// The name lies within `text`.
    pub open spec fn within(self, text: Seq<char>) -> bool {
        self.name_from <= self.name_to <= text.len()
    }
}

/// The ports that a list of scans stands for.
pub open spec fn scanned(ports: Seq<ScannedPort>, text: Seq<char>) -> Seq<
    (Seq<char>, Seq<(u8, u8, u8)>),
> {
    Seq::new(ports.len(), |i: int| ports[i].of(text))
}

/// The position behind the blanks that begin at `at`.
pub fn scan_blanks(text: &Vec<char>, at: usize) -> (r: usize)
    requires
        at <= text.len(),
    ensures
        r == at + blank_run(text@.skip(at as int)),
        r <= text.len(),
{
    let mut i: usize = at;
    while i < text.len() && blank(text[i])
        invariant
            at <= i <= text.len(),
            forall|k: int| at <= k < i ==> is_blank(#[trigger] text@[k]),
        decreases text.len() - i,
    {
        i += 1;
    }
    proof {
        lemma_leading(text@.skip(at as int), |c: char| is_blank(c), (i - at) as nat);
    }
    i
}

/// Reads blanks and the character `c`.
pub fn scan_symbol(text: &Vec<char>, at: usize, c: char) -> (r: Option<usize>)
    requires
        at <= text.len(),
    ensures
        match symbol(text@.skip(at as int), c) {
            Some(n) => r == Some((at + n) as usize) && at + n <= text.len(),
            None => r is None,
        },
{
    proof {
        reveal(symbol);
    }
    let i = scan_blanks(text, at);
    if i < text.len() && text[i] == c {
        Some(i + 1)
    } else {
        None
    }
}

/// Reads blanks and a number up to 255.
pub fn scan_number(text: &Vec<char>, at: usize) -> (r: Option<(u8, usize)>)
    requires
        at <= text.len(),
    ensures
        match number(text@.skip(at as int)) {
            Some((v, n)) => r == Some((v, (at + n) as usize)) && at + n <= text.len(),
            None => r is None,
        },
{
    let from = scan_blanks(text, at);
    let mut to: usize = from;
    while to < text.len() && digit(text[to])
        invariant
            from <= to <= text.len(),
            forall|k: int| from <= k < to ==> is_digit(#[trigger] text@[k]),
        decreases text.len() - to,
    {
        to += 1;
    }
    let ghost s = text@.skip(at as int);
    let ghost digits = text@.subrange(from as int, to as int);
    proof {
        reveal(number);
        lemma_skip_skip(text@, at as int, from - at);
        lemma_leading(text@.skip(from as int), |c: char| is_digit(c), (to - from) as nat);
        assert(s.subrange(from - at, to - at) =~= digits);
    }
    if to == from {
        return None;
    }
    let mut value: u32 = 0;
    let mut i: usize = from;
    while i < to
        invariant
            from <= i <= to <= text.len(),
            digits == text@.subrange(from as int, to as int),
            forall|k: int| from <= k < to ==> is_digit(#[trigger] text@[k]),
            value == decimal_value(digits.take(i - from)),
            value <= 255,
            number(text@.skip(at as int)) is Some <==> decimal_value(digits) <= 255,
            number(text@.skip(at as int)) is Some ==> number(text@.skip(at as int)).unwrap() == (
                decimal_value(digits) as u8,
                (to - at) as nat,
            ),
        decreases to - i,
    {
        let d: u32 = text[i] as u32 - '0' as u32;
        proof {
            let upto = digits.take(i - from + 1);
            assert(upto.drop_last() =~= digits.take(i - from));
            lemma_decimal_value_prefix(digits, i - from + 1);
        }
        value = value * 10 + d;
        if value > 255 {
            return None;
        }
        i += 1;
    }
    proof {
        assert(digits.take(to - from) =~= digits);
    }
    Some((value as u8, to))
}

/// Reads a number, or else `*` at `at` itself.
pub fn scan_number_or_star(text: &Vec<char>, at: usize) -> (r: Option<(u8, usize)>)
    requires
        at <= text.len(),
    ensures
        match number_or_star(text@.skip(at as int)) {
            Some((v, n)) => r == Some((v, (at + n) as usize)) && at + n <= text.len(),
            None => r is None,
        },
{
    proof {
        reveal(number_or_star);
    }
    match scan_number(text, at) {
        Some(found) => Some(found),
        None => {
            if at < text.len() && text[at] == '*' {
                Some((ANY_CHANNEL, at + 1))
            } else {
                None
            }
        },
    }
}

/// Reads `( chan , start_cc , stop_cc )`.
pub fn scan_triple(text: &Vec<char>, at: usize) -> (r: Option<((u8, u8, u8), usize)>)
    requires
        at <= text.len(),
    ensures
        match triple(text@.skip(at as int)) {
            Some((t, n)) => r == Some((t, (at + n) as usize)) && at + n <= text.len(),
            None => r is None,
        },
{
    let Some(opened) = scan_symbol(text, at, '(') else {
        return None;
    };
    proof {
        lemma_skip_skip(text@, at as int, opened - at);
    }
    let a = scan_blanks(text, opened);
    proof {
        lemma_skip_skip(text@, at as int, a - at);
    }
    let Some((chan, b)) = scan_number_or_star(text, a) else {
        return None;
    };
    proof {
        lemma_skip_skip(text@, at as int, b - at);
    }
    let Some(c) = scan_symbol(text, b, ',') else {
        return None;
    };
    proof {
        lemma_skip_skip(text@, at as int, c - at);
    }
    let Some((start, d)) = scan_number(text, c) else {
        return None;
    };
    proof {
        lemma_skip_skip(text@, at as int, d - at);
    }
    let Some(e) = scan_symbol(text, d, ',') else {
        return None;
    };
    proof {
        lemma_skip_skip(text@, at as int, e - at);
    }
    let Some((stop, f)) = scan_number(text, e) else {
        return None;
    };
    proof {
        lemma_skip_skip(text@, at as int, f - at);
    }
    let Some(end) = scan_symbol(text, f, ')') else {
        return None;
    };
    Some(((chan, start, stop), end))
}

/// Reads triples with commas between them, as many as there are.
pub fn scan_triple_list(text: &Vec<char>, at: usize) -> (r: (Vec<(u8, u8, u8)>, usize))
    requires
        at <= text.len(),
    ensures
        r.0@ == triple_list(text@.skip(at as int)).0,
        r.1 == at + triple_list(text@.skip(at as int)).1,
        r.1 <= text.len(),
{
    let mut items: Vec<(u8, u8, u8)> = Vec::new();
    let Some((first, after)) = scan_triple(text, at) else {
        return (items, at);
    };
    items.push(first);
    let mut pos: usize = after;
    proof {
        lemma_skip_skip(text@, at as int, pos - at);
    }
    loop
        invariant
            at <= pos <= text.len(),
            triple_list(text@.skip(at as int)).0 == items@ + more_triples(
                text@.skip(pos as int),
            ).0,
            triple_list(text@.skip(at as int)).1 == (pos - at) + more_triples(
                text@.skip(pos as int),
            ).1,
        ensures
            at <= pos <= text.len(),
            triple_list(text@.skip(at as int)).0 == items@,
            triple_list(text@.skip(at as int)).1 == pos - at,
        decreases text.len() - pos,
    {
        let Some(comma) = scan_symbol(text, pos, ',') else {
            break ;
        };
        proof {
            lemma_skip_skip(text@, pos as int, comma - pos);
        }
        let Some((item, next)) = scan_triple(text, comma) else {
            break ;
        };
        proof {
            lemma_skip_skip(text@, pos as int, next - pos);
        }
        items.push(item);
        pos = next;
    }
    (items, pos)
}

/// Reads `[ triple , triple , .. ]`, with one triple or more.
pub fn scan_bracketed_triples(text: &Vec<char>, at: usize) -> (r: Option<
    (Vec<(u8, u8, u8)>, usize),
>)
    requires
        at <= text.len(),
    ensures
        match bracketed_triples(text@.skip(at as int)) {
            Some((items, n)) => r matches Some((found, end)) && found@ == items && end == at + n
                && end <= text.len(),
            None => r is None,
        },
{
    let Some(opened) = scan_symbol(text, at, '[') else {
        return None;
    };
    proof {
        lemma_skip_skip(text@, at as int, opened - at);
    }
    let (items, a) = scan_triple_list(text, opened);
    proof {
        lemma_skip_skip(text@, at as int, a - at);
    }
    if items.len() == 0 {
        return None;
    }
    let Some(end) = scan_symbol(text, a, ']') else {
        return None;
    };
    Some((items, end))
}

/// The end of `text[from..to]` once the white space at its end is left off.
pub fn scan_trim_end(text: &Vec<char>, from: usize, to: usize) -> (r: usize)
    requires
        from <= to <= text.len(),
    ensures
        from <= r <= to,
        text@.subrange(from as int, r as int) == trim_end(text@.subrange(from as int, to as int)),
{
    let mut end: usize = to;
    while end > from && whitespace(text[end - 1])
        invariant
            from <= end <= to <= text.len(),
            trim_end(text@.subrange(from as int, end as int)) == trim_end(
                text@.subrange(from as int, to as int),
            ),
        decreases end,
    {
        proof {
            let whole = text@.subrange(from as int, end as int);
            assert(whole.drop_last() =~= text@.subrange(from as int, end - 1));
        }
        end -= 1;
    }
    proof {
        let whole = text@.subrange(from as int, end as int);
        if end > from {
            assert(whole.last() == text@[end - 1]);
        }
    }
    end
}

/// Reads blanks and a port name: gives where the name begins, where it ends
/// without the white space behind it, and the position of the `[` that
/// follows it.
pub fn scan_port_name(text: &Vec<char>, at: usize) -> (r: Option<(usize, usize, usize)>)
    requires
        at <= text.len(),
    ensures
        match port_name(text@.skip(at as int)) {
            Some((name, n)) => r matches Some((from, to, end)) && from <= to <= end && end == at
                + n && end < text.len() && text@.subrange(from as int, to as int) == name,
            None => r is None,
        },
{
    proof {
        reveal(port_name);
    }
    let from = scan_blanks(text, at);
    let mut end: usize = from;
    while end < text.len() && text[end] != '['
        invariant
            from <= end <= text.len(),
            forall|k: int| from <= k < end ==> #[trigger] text@[k] != '[',
        decreases text.len() - end,
    {
        end += 1;
    }
    proof {
        lemma_skip_skip(text@, at as int, from - at);
        lemma_leading(text@.skip(from as int), |c: char| c != '[', (end - from) as nat);
        assert(text@.skip(at as int).subrange(from - at, end - at) =~= text@.subrange(
            from as int,
            end as int,
        ));
    }
    if end == text.len() {
        return None;
    }
    let to = scan_trim_end(text, from, end);
    Some((from, to, end))
}

/// Reads `name [ triple , triple , .. ]`.
pub fn scan_port(text: &Vec<char>, at: usize) -> (r: Option<(ScannedPort, usize)>)
    requires
        at <= text.len(),
    ensures
        match port(text@.skip(at as int)) {
            Some((p, n)) => r matches Some((found, end)) && found.within(text@) && found.of(text@)
                == p && end == at + n && end <= text.len(),
            None => r is None,
        },
{
    let Some((name_from, name_to, a)) = scan_port_name(text, at) else {
        return None;
    };
    proof {
        lemma_skip_skip(text@, at as int, a - at);
    }
    let Some((triples, end)) = scan_bracketed_triples(text, a) else {
        return None;
    };
    Some((ScannedPort { name_from, name_to, triples }, end))
}

/// Reads ports with commas between them, as many as there are.
pub fn scan_port_list(text: &Vec<char>, at: usize) -> (r: (Vec<ScannedPort>, usize))
    requires
        at <= text.len(),
    ensures
        scanned(r.0@, text@) == port_list(text@.skip(at as int)).0,
        forall|i: int| 0 <= i < r.0.len() ==> (#[trigger] r.0[i]).within(text@),
        r.1 == at + port_list(text@.skip(at as int)).1,
        r.1 <= text.len(),
{
    let mut items: Vec<ScannedPort> = Vec::new();
    let Some((first, after)) = scan_port(text, at) else {
        return (items, at);
    };
    items.push(first);
    let mut pos: usize = after;
    proof {
        lemma_skip_skip(text@, at as int, pos - at);
    }
    loop
        invariant
            at <= pos <= text.len(),
            forall|i: int| 0 <= i < items.len() ==> (#[trigger] items[i]).within(text@),
            port_list(text@.skip(at as int)).0 == scanned(items@, text@) + more_ports(
                text@.skip(pos as int),
            ).0,
            port_list(text@.skip(at as int)).1 == (pos - at) + more_ports(
                text@.skip(pos as int),
            ).1,
        ensures
            at <= pos <= text.len(),
            forall|i: int| 0 <= i < items.len() ==> (#[trigger] items[i]).within(text@),
            port_list(text@.skip(at as int)).0 == scanned(items@, text@),
            port_list(text@.skip(at as int)).1 == pos - at,
        decreases text.len() - pos,
    {
        let ghost before = scanned(items@, text@);
        let Some(comma) = scan_symbol(text, pos, ',') else {
            break ;
        };
        proof {
            lemma_skip_skip(text@, pos as int, comma - pos);
        }
        let Some((item, next)) = scan_port(text, comma) else {
            break ;
        };
        proof {
            lemma_skip_skip(text@, pos as int, next - pos);
            let rest = more_ports(text@.skip(next as int)).0;
            assert(before + (seq![item.of(text@)] + rest) =~= before.push(item.of(text@)) + rest);
        }
        items.push(item);
        pos = next;
    }
    (items, pos)
}

/// Reads a mapping at the front of the buffer: `[ port , port , .. ]`, with
/// one port or more.
pub fn scan_config(text: &Vec<char>) -> (r: Option<(Vec<ScannedPort>, usize)>)
    ensures
        match config(text@) {
            Some((ports, n)) => r matches Some((found, end)) && scanned(found@, text@) == ports
                && end == n && end <= text.len() && forall|i: int|
                0 <= i < found.len() ==> (#[trigger] found[i]).within(text@),
            None => r is None,
        },
{
    assert(text@.skip(0) =~= text@);
    let Some(opened) = scan_symbol(text, 0, '[') else {
        return None;
    };
    let (items, a) = scan_port_list(text, opened);
    if items.len() == 0 {
        return None;
    }
    let Some(end) = scan_symbol(text, a, ']') else {
        return None;
    };
    Some((items, end))
}

} // verus!
