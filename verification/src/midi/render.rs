//! Writing a mapping back as a mapping string, and the proof that parsing
//! what was written gives the mapping again.

use vstd::prelude::*;
use vstd::string::StringExecFns;
use crate::midi::grammar::{
    blank_run, bracketed_triples, config, lemma_port_bounds, lemma_symbol_bounds, more_ports,
    more_triples, name_run, number, number_or_star, port, port_list, port_name, symbol,
    trim_end, triple, ANY_CHANNEL,
};
use crate::midi::control::{misplaced, misplaced_in};
use crate::midi::parse::parsed;
use crate::midi::{
    collect, distinct_names, has_name, lemma_with_port_distinct, readable, MidiConfig,
    DEFAULT_MAPPING,
};
use crate::text::{
    decimal, is_blank, is_digit, is_whitespace, lemma_decimal, lemma_leading, lemma_leading_facts,
    push_decimal,
};

verus! {

/// How a channel is written: `*` for any channel, else its number.
pub open spec fn rendered_channel(channel: u8) -> Seq<char> {
    if channel == ANY_CHANNEL {
        seq!['*']
    } else {
        decimal(channel as nat)
    }
}

/// `(chan,start_cc,stop_cc)`
pub open spec fn rendered_triple(t: (u8, u8, u8)) -> Seq<char> {
    seq!['('] + rendered_channel(t.0) + seq![','] + decimal(t.1 as nat) + seq![','] + decimal(
        t.2 as nat,
    ) + seq![')']
}

/// Each triple with a comma before it.
pub open spec fn rendered_more_triples(triples: Seq<(u8, u8, u8)>) -> Seq<char>
    decreases triples.len(),
{
    if triples.len() == 0 {
        Seq::empty()
    } else {
        seq![','] + rendered_triple(triples[0]) + rendered_more_triples(triples.skip(1))
    }
}

/// The triples with commas between them.
pub open spec fn rendered_triples(triples: Seq<(u8, u8, u8)>) -> Seq<char> {
    if triples.len() == 0 {
        Seq::empty()
    } else {
        rendered_triple(triples[0]) + rendered_more_triples(triples.skip(1))
    }
}

/// `name[triple,triple,..]`
pub open spec fn rendered_port(p: (Seq<char>, Seq<(u8, u8, u8)>)) -> Seq<char> {
    p.0 + seq!['['] + rendered_triples(p.1) + seq![']']
}

/// Each port with a comma before it.
pub open spec fn rendered_more_ports(ports: Seq<(Seq<char>, Seq<(u8, u8, u8)>)>) -> Seq<char>
    decreases ports.len(),
{
    if ports.len() == 0 {
        Seq::empty()
    } else {
        seq![','] + rendered_port(ports[0]) + rendered_more_ports(ports.skip(1))
    }
}

/// The ports with commas between them.
pub open spec fn rendered_ports(ports: Seq<(Seq<char>, Seq<(u8, u8, u8)>)>) -> Seq<char> {
    if ports.len() == 0 {
        Seq::empty()
    } else {
        rendered_port(ports[0]) + rendered_more_ports(ports.skip(1))
    }
}

/// The mapping string that writes `ports`: `[port,port,..]`, without blanks.
pub open spec fn rendered_config(ports: Seq<(Seq<char>, Seq<(u8, u8, u8)>)>) -> Seq<char> {
    seq!['['] + rendered_ports(ports) + seq![']']
}

/// A name that a mapping string can give to a port: it holds no `[`, begins
/// with no blank and ends with no white space.
pub open spec fn writable_name(name: Seq<char>) -> bool {
    &&& forall|i: int| 0 <= i < name.len() ==> #[trigger] name[i] != '['
    &&& name.len() > 0 ==> !is_blank(name[0]) && !is_whitespace(name.last())
}

/// A port that a mapping string can hold: it has a writable name and one
/// triple or more.
pub open spec fn writable_port(p: (Seq<char>, Seq<(u8, u8, u8)>)) -> bool {
    writable_name(p.0) && p.1.len() > 0
}

/// Every port is a writable port.
pub open spec fn writable_ports(ports: Seq<(Seq<char>, Seq<(u8, u8, u8)>)>) -> bool {
    forall|i: int| 0 <= i < ports.len() ==> writable_port(#[trigger] ports[i])
}

/// A mapping that a mapping string can hold: one port or more, each of them
/// writable.
pub open spec fn writable_mapping(ports: Seq<(Seq<char>, Seq<(u8, u8, u8)>)>) -> bool {
    ports.len() > 0 && writable_ports(ports)
}

proof fn lemma_symbol_at_front(s: Seq<char>, c: char)
    requires
        s.len() > 0,
        s[0] == c,
        !is_blank(c),
    ensures
        symbol(s, c) == Some(1nat),
{
    reveal(symbol);
    lemma_leading(s, |c: char| is_blank(c), 0);
}

proof fn lemma_symbol_absent(s: Seq<char>, c: char)
    requires
        s.len() > 0,
        s[0] != c,
        !is_blank(s[0]),
    ensures
        symbol(s, c) is None,
{
    reveal(symbol);
    lemma_leading(s, |c: char| is_blank(c), 0);
}

proof fn lemma_number_written(s: Seq<char>, v: u8, tail: Seq<char>)
    requires
        s == decimal(v as nat) + tail,
        tail.len() == 0 || !is_digit(tail[0]),
    ensures
        number(s) == Some((v, decimal(v as nat).len())),
{
    reveal(number);
    let d = decimal(v as nat);
    lemma_decimal(v as nat);
    assert(s[0] == d[0]);
    lemma_leading(s, |c: char| is_blank(c), 0);
    assert(s.skip(0) =~= s);
    assert forall|i: int| 0 <= i < d.len() implies is_digit(#[trigger] s[i]) by {
        assert(s[i] == d[i]);
    }
    if d.len() < s.len() {
        assert(s[d.len() as int] == tail[0]);
    }
    lemma_leading(s, |c: char| is_digit(c), d.len());
    assert(s.subrange(0, d.len() as int) =~= d);
}

proof fn lemma_channel_written(s: Seq<char>, v: u8, tail: Seq<char>)
    requires
        s == rendered_channel(v) + tail,
        tail.len() == 0 || !is_digit(tail[0]),
    ensures
        number_or_star(s) == Some((v, rendered_channel(v).len())),
        !is_blank(s[0]),
{
    reveal(number_or_star);
    if v == ANY_CHANNEL {
        reveal(number);
        lemma_leading(s, |c: char| is_blank(c), 0);
        assert(s.skip(0) =~= s);
        lemma_leading(s, |c: char| is_digit(c), 0);
    } else {
        lemma_number_written(s, v, tail);
        lemma_decimal(v as nat);
    }
}

/// Parsing a written triple gives the triple, whatever follows it.
pub proof fn lemma_triple_written(s: Seq<char>, t: (u8, u8, u8), tail: Seq<char>)
    requires
        s == rendered_triple(t) + tail,
    ensures
        triple(s) == Some((t, rendered_triple(t).len())),
{
    let chan = rendered_channel(t.0);
    let start = decimal(t.1 as nat);
    let stop = decimal(t.2 as nat);
    let t6 = seq![')'] + tail;
    let t5 = stop + t6;
    let t4 = seq![','] + t5;
    let t3 = start + t4;
    let t2 = seq![','] + t3;
    let t1 = chan + t2;
    assert(s =~= seq!['('] + t1);
    lemma_symbol_at_front(s, '(');
    assert(s.skip(1) =~= t1);
    lemma_channel_written(t1, t.0, t2);
    lemma_leading(t1, |c: char| is_blank(c), 0);
    let b = 1 + chan.len();
    assert(s.skip(b as int) =~= t2);
    lemma_symbol_at_front(t2, ',');
    let c = b + 1;
    assert(s.skip(c as int) =~= t3);
    lemma_number_written(t3, t.1, t4);
    let d = c + start.len();
    assert(s.skip(d as int) =~= t4);
    lemma_symbol_at_front(t4, ',');
    let e = d + 1;
    assert(s.skip(e as int) =~= t5);
    lemma_number_written(t5, t.2, t6);
    let f = e + stop.len();
    assert(s.skip(f as int) =~= t6);
    lemma_symbol_at_front(t6, ')');
    assert(rendered_triple(t).len() == f + 1);
}

proof fn lemma_more_triples_written(s: Seq<char>, triples: Seq<(u8, u8, u8)>, tail: Seq<char>)
    requires
        s == rendered_more_triples(triples) + tail,
        tail.len() > 0,
        tail[0] == ']',
    ensures
        more_triples(s) == (triples, rendered_more_triples(triples).len()),
    decreases triples.len(),
{
    if triples.len() == 0 {
        lemma_symbol_absent(s, ',');
        assert(triples =~= Seq::empty());
    } else {
        let first = rendered_triple(triples[0]);
        let rest = rendered_more_triples(triples.skip(1));
        assert(s =~= seq![','] + (first + (rest + tail)));
        lemma_symbol_at_front(s, ',');
        assert(s.skip(1) =~= first + (rest + tail));
        lemma_triple_written(s.skip(1), triples[0], rest + tail);
        let used = 1 + first.len();
        assert(s.skip(used as int) =~= rest + tail);
        lemma_more_triples_written(s.skip(used as int), triples.skip(1), tail);
    }
}

proof fn lemma_bracketed_triples_written(
    s: Seq<char>,
    triples: Seq<(u8, u8, u8)>,
    tail: Seq<char>,
)
    requires
        s == seq!['['] + rendered_triples(triples) + seq![']'] + tail,
        triples.len() > 0,
    ensures
        bracketed_triples(s) == Some((triples, rendered_triples(triples).len() + 2)),
{
    let inner = rendered_triples(triples);
    let closing = seq![']'] + tail;
    lemma_symbol_at_front(s, '[');
    let t = s.skip(1);
    let first = rendered_triple(triples[0]);
    let rest = rendered_more_triples(triples.skip(1));
    assert(t =~= first + (rest + closing));
    lemma_triple_written(t, triples[0], rest + closing);
    assert(t.skip(first.len() as int) =~= rest + closing);
    lemma_more_triples_written(t.skip(first.len() as int), triples.skip(1), closing);
    assert(seq![triples[0]] + triples.skip(1) =~= triples);
    assert(t.skip(inner.len() as int) =~= closing);
    assert(s.skip((1 + inner.len()) as int) =~= closing);
    lemma_symbol_at_front(closing, ']');
}

proof fn lemma_trim_end_keeps(name: Seq<char>)
    requires
        name.len() > 0 ==> !is_whitespace(name.last()),
    ensures
        trim_end(name) == name,
{
}

proof fn lemma_port_name_written(s: Seq<char>, name: Seq<char>, tail: Seq<char>)
    requires
        s == name + seq!['['] + tail,
        writable_name(name),
    ensures
        port_name(s) == Some((name, name.len())),
{
    reveal(port_name);
    if name.len() > 0 {
        assert(s[0] == name[0]);
    } else {
        assert(s[0] == '[');
    }
    lemma_leading(s, |c: char| is_blank(c), 0);
    assert(s.skip(0) =~= s);
    assert forall|i: int| 0 <= i < name.len() implies #[trigger] s[i] != '[' by {
        assert(s[i] == name[i]);
    }
    lemma_leading(s, |c: char| c != '[', name.len());
    assert(s.subrange(0, name.len() as int) =~= name);
    lemma_trim_end_keeps(name);
}

/// Parsing a written port gives the port, whatever follows it.
pub proof fn lemma_port_written(
    s: Seq<char>,
    p: (Seq<char>, Seq<(u8, u8, u8)>),
    tail: Seq<char>,
)
    requires
        s == rendered_port(p) + tail,
        writable_port(p),
    ensures
        port(s) == Some((p, rendered_port(p).len())),
{
    let list = seq!['['] + rendered_triples(p.1) + seq![']'] + tail;
    assert(s =~= p.0 + seq!['['] + (rendered_triples(p.1) + seq![']'] + tail));
    lemma_port_name_written(s, p.0, rendered_triples(p.1) + seq![']'] + tail);
    assert(s.skip(p.0.len() as int) =~= list);
    lemma_bracketed_triples_written(list, p.1, tail);
}

proof fn lemma_more_ports_written(
    s: Seq<char>,
    ports: Seq<(Seq<char>, Seq<(u8, u8, u8)>)>,
    tail: Seq<char>,
)
    requires
        s == rendered_more_ports(ports) + tail,
        writable_ports(ports),
        tail.len() > 0,
        tail[0] == ']',
    ensures
        more_ports(s) == (ports, rendered_more_ports(ports).len()),
    decreases ports.len(),
{
    if ports.len() == 0 {
        lemma_symbol_absent(s, ',');
    } else {
        let first = rendered_port(ports[0]);
        let rest = rendered_more_ports(ports.skip(1));
        lemma_symbol_at_front(s, ',');
        assert(s.skip(1) =~= first + (rest + tail));
        lemma_port_written(s.skip(1), ports[0], rest + tail);
        let used = 1 + first.len();
        assert(s.skip(used as int) =~= rest + tail);
        assert forall|i: int| 0 <= i < ports.skip(1).len() implies writable_port(
            #[trigger] ports.skip(1)[i],
        ) by {
            assert(ports.skip(1)[i] == ports[i + 1]);
        }
        lemma_more_ports_written(s.skip(used as int), ports.skip(1), tail);
        assert(seq![ports[0]] + ports.skip(1) =~= ports);
    }
}

/// Parsing a written mapping gives its ports.
pub proof fn lemma_config_written(ports: Seq<(Seq<char>, Seq<(u8, u8, u8)>)>)
    requires
        writable_mapping(ports),
    ensures
        config(rendered_config(ports)) == Some((ports, rendered_config(ports).len())),
{
    let s = rendered_config(ports);
    let inner = rendered_ports(ports);
    let closing = seq![']'];
    lemma_symbol_at_front(s, '[');
    let t = s.skip(1);
    let first = rendered_port(ports[0]);
    let rest = rendered_more_ports(ports.skip(1));
    assert(t =~= first + (rest + closing));
    lemma_port_written(t, ports[0], rest + closing);
    assert(t.skip(first.len() as int) =~= rest + closing);
    assert forall|i: int| 0 <= i < ports.skip(1).len() implies writable_port(
        #[trigger] ports.skip(1)[i],
    ) by {
        assert(ports.skip(1)[i] == ports[i + 1]);
    }
    lemma_more_ports_written(t.skip(first.len() as int), ports.skip(1), closing);
    assert(seq![ports[0]] + ports.skip(1) =~= ports);
    assert(s.skip((1 + inner.len()) as int) =~= closing);
    lemma_symbol_at_front(closing, ']');
}

/// Ports with distinct names, put in one after the other, are the mapping.
pub proof fn lemma_collect_distinct(ports: Seq<(Seq<char>, Seq<(u8, u8, u8)>)>)
    requires
        distinct_names(ports),
    ensures
        collect(ports) == ports,
    decreases ports.len(),
{
    if ports.len() > 0 {
        let front = ports.drop_last();
        assert forall|i: int, j: int|
            0 <= i < front.len() && 0 <= j < front.len() && i != j implies (#[trigger] front[i]).0
            != (#[trigger] front[j]).0 by {
            assert(front[i] == ports[i] && front[j] == ports[j]);
        }
        lemma_collect_distinct(front);
        assert(!has_name(front, ports.last().0)) by {
            if has_name(front, ports.last().0) {
                let i = choose|i: int| 0 <= i < front.len() && (#[trigger] front[i]).0
                    == ports.last().0;
            }
        }
    }
}

/// Parsing what a mapping is written as gives the mapping.
pub proof fn lemma_written_mapping_parses(ports: Seq<(Seq<char>, Seq<(u8, u8, u8)>)>)
    requires
        distinct_names(ports),
        writable_mapping(ports),
    ensures
        parsed(rendered_config(ports)) == Some(ports),
{
    let s = rendered_config(ports);
    lemma_config_written(ports);
    lemma_collect_distinct(ports);
    lemma_leading(s.skip(s.len() as int), |c: char| is_blank(c), 0);
}

proof fn lemma_trim_end(s: Seq<char>)
    ensures
        trim_end(s).len() <= s.len(),
        trim_end(s) == s.take(trim_end(s).len() as int),
        trim_end(s).len() > 0 ==> !is_whitespace(trim_end(s).last()),
    decreases s.len(),
{
    if s.len() > 0 && is_whitespace(s.last()) {
        lemma_trim_end(s.drop_last());
    } else {
        assert(s.take(s.len() as int) =~= s);
    }
}

/// The name that the grammar reads for a port is a writable name.
pub proof fn lemma_port_name_writable(s: Seq<char>)
    ensures
        port_name(s) matches Some((name, _)) ==> writable_name(name),
{
    reveal(port_name);
    if let Some((name, _)) = port_name(s) {
        let b = blank_run(s);
        let t = s.skip(b as int);
        let n = name_run(t);
        let raw = s.subrange(b as int, (b + n) as int);
        lemma_leading_facts(s, |c: char| is_blank(c));
        lemma_leading_facts(t, |c: char| c != '[');
        lemma_trim_end(raw);
        assert forall|i: int| 0 <= i < name.len() implies #[trigger] name[i] != '[' by {
            assert(name[i] == raw[i]);
            assert(raw[i] == t[i]);
        }
        if name.len() > 0 {
            assert(name[0] == raw[0]);
            assert(raw[0] == s[b as int]);
        }
    }
}

proof fn lemma_more_ports_writable(s: Seq<char>)
    ensures
        writable_ports(more_ports(s).0),
    decreases s.len(),
{
    lemma_symbol_bounds(s, ',');
    if let Some(n) = symbol(s, ',') {
        let t = s.skip(n as int);
        lemma_port_bounds(t);
        lemma_port_name_writable(t);
        if let Some((p, m)) = port(t) {
            let rest = more_ports(s.skip((n + m) as int)).0;
            lemma_more_ports_writable(s.skip((n + m) as int));
            assert forall|i: int| 0 <= i < more_ports(s).0.len() implies writable_port(
                #[trigger] more_ports(s).0[i],
            ) by {
                if i > 0 {
                    assert(more_ports(s).0[i] == rest[i - 1]);
                }
            }
        }
    }
}

/// What the grammar reads from a mapping string is a writable mapping.
pub proof fn lemma_config_writable(s: Seq<char>)
    ensures
        config(s) matches Some((ports, _)) ==> writable_mapping(ports),
{
    if let Some(n) = symbol(s, '[') {
        let t = s.skip(n as int);
        lemma_port_name_writable(t);
        if let Some((p, m)) = port(t) {
            let rest = more_ports(t.skip(m as int)).0;
            lemma_more_ports_writable(t.skip(m as int));
            assert forall|i: int| 0 <= i < port_list(t).0.len() implies writable_port(
                #[trigger] port_list(t).0[i],
            ) by {
                if i > 0 {
                    assert(port_list(t).0[i] == rest[i - 1]);
                }
            }
        }
    }
}

/// Putting ports into a mapping gives a mapping with distinct names, and a
/// writable mapping where the ports were one.
pub proof fn lemma_collect(ports: Seq<(Seq<char>, Seq<(u8, u8, u8)>)>)
    ensures
        distinct_names(collect(ports)),
        writable_ports(ports) ==> writable_ports(collect(ports)),
        ports.len() > 0 ==> collect(ports).len() > 0,
    decreases ports.len(),
{
    if ports.len() > 0 {
        let front = ports.drop_last();
        let last = ports.last();
        lemma_collect(front);
        lemma_with_port_distinct(collect(front), last.0, last.1);
        if writable_ports(ports) {
            assert forall|i: int| 0 <= i < front.len() implies writable_port(
                #[trigger] front[i],
            ) by {
                assert(front[i] == ports[i]);
            }
            let before = collect(front);
            let after = collect(ports);
            assert forall|i: int| 0 <= i < after.len() implies writable_port(
                #[trigger] after[i],
            ) by {
                if has_name(before, last.0) {
                    assert(after[i] == before[i] || after[i] == last);
                } else if i < before.len() {
                    assert(after[i] == before[i]);
                }
            }
        }
    }
}

/// Parsing a mapping string, writing the mapping and parsing it again gives
/// the mapping that the first parse gave.
pub proof fn lemma_parse_render_parse(s: Seq<char>)
    requires
        parsed(s) is Some,
    ensures
        parsed(rendered_config(parsed(s).unwrap())) == parsed(s),
{
    lemma_config_writable(s);
    lemma_collect(config(s).unwrap().0);
    lemma_written_mapping_parses(parsed(s).unwrap());
}

/// The mapping that is used where the user gives none: every port, any
/// channel, start on controller 16 and stop on controller 17.
pub open spec fn default_mapping() -> Seq<(Seq<char>, Seq<(u8, u8, u8)>)> {
    seq![(seq!['*'], seq![(ANY_CHANNEL, 16u8, 17u8)])]
}

/// The default mapping string means the default mapping, and the recorder
/// reads it.
pub proof fn lemma_default_mapping()
    ensures
        parsed(DEFAULT_MAPPING@) == Some(default_mapping()),
        readable(DEFAULT_MAPPING@),
{
    reveal_strlit("[*[(*,16,17)]]");
    let ports = default_mapping();
    let triples = ports[0].1;
    assert(decimal(16) =~= seq!['1', '6']) by {
        assert(decimal(1) =~= seq!['1']);
    }
    assert(decimal(17) =~= seq!['1', '7']) by {
        assert(decimal(1) =~= seq!['1']);
    }
    assert(rendered_triple(triples[0]) =~= seq!['(', '*', ',', '1', '6', ',', '1', '7', ')']);
    assert(triples.skip(1) =~= Seq::empty());
    assert(rendered_more_triples(triples.skip(1)) =~= Seq::empty());
    assert(rendered_triples(triples) =~= rendered_triple(triples[0]));
    assert(rendered_config(ports) =~= DEFAULT_MAPPING@);
    lemma_written_mapping_parses(ports);
    assert(ports.skip(1) =~= Seq::empty());
    assert(misplaced_in(triples.skip(1)) is None);
    assert(misplaced(ports.skip(1)) is None);
}

fn push_channel(out: &mut String, channel: u8)
    ensures
        final(out)@ == old(out)@ + rendered_channel(channel),
{
    if channel == ANY_CHANNEL {
        proof {
            reveal_strlit("*");
        }
        out.append("*");
    } else {
        push_decimal(out, channel as u64);
    }
}

fn push_triple(out: &mut String, t: (u8, u8, u8))
    ensures
        final(out)@ == old(out)@ + rendered_triple(t),
{
    proof {
        reveal_strlit("(");
        reveal_strlit(",");
        reveal_strlit(")");
    }
    out.append("(");
    push_channel(out, t.0);
    out.append(",");
    push_decimal(out, t.1 as u64);
    out.append(",");
    push_decimal(out, t.2 as u64);
    out.append(")");
}

fn push_triples(out: &mut String, triples: &Vec<(u8, u8, u8)>)
    ensures
        final(out)@ == old(out)@ + rendered_triples(triples@),
{
    if triples.len() == 0 {
        return ;
    }
    push_triple(out, triples[0]);
    let mut i: usize = 1;
    while i < triples.len()
        invariant
            1 <= i <= triples.len(),
            out@ + rendered_more_triples(triples@.skip(i as int)) == old(out)@ + rendered_triples(
                triples@,
            ),
        decreases triples.len() - i,
    {
        proof {
            reveal_strlit(",");
        }
        let ghost here = triples@.skip(i as int);
        out.append(",");
        push_triple(out, triples[i]);
        proof {
            assert(here.skip(1) =~= triples@.skip(i + 1));
        }
        i += 1;
    }
}

fn push_port(out: &mut String, name: &str, triples: &Vec<(u8, u8, u8)>)
    ensures
        final(out)@ == old(out)@ + rendered_port((name@, triples@)),
{
    proof {
        reveal_strlit("[");
        reveal_strlit("]");
    }
    out.append(name);
    out.append("[");
    push_triples(out, triples);
    out.append("]");
}

impl MidiConfig {
    /// The mapping string that writes this mapping.
    pub fn render(&self) -> (r: String)
        ensures
            r@ == rendered_config(self@),
    {
        proof {
            reveal_strlit("[");
            reveal_strlit("]");
            reveal_strlit(",");
        }
        let mut out = String::new();
        out.append("[");
        if self.len() > 0 {
            push_port(&mut out, self.name(0), self.triples(0));
            let mut i: usize = 1;
            while i < self.len()
                invariant
                    1 <= i <= self@.len(),
                    out@ + rendered_more_ports(self@.skip(i as int)) == seq!['['] + rendered_ports(
                        self@,
                    ),
                decreases self@.len() - i,
            {
                proof {
                    reveal_strlit(",");
                }
                let ghost here = self@.skip(i as int);
                out.append(",");
                push_port(&mut out, self.name(i), self.triples(i));
                proof {
                    assert(here.skip(1) =~= self@.skip(i + 1));
                }
                i += 1;
            }
        } else {
            assert(out@ =~= seq!['['] + rendered_ports(self@));
        }
        out.append("]");
        out
    }
}

} // verus!
