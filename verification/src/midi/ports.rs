//! Binding a mapping to the ports that the system has.

use vstd::prelude::*;
use crate::error::ConfigError;
use crate::midi::control::{addressable, lemma_none_misplaced, lemma_none_misplaced_in, misplaced};
use crate::midi::MidiConfig;
use crate::text::same_text;

verus! {

/// Whether the glob `pattern` matches `name`, as the crate `glob_match`
/// decides it: `*` stands for any run of characters that holds no path
/// separator, and `?`, `**`, `[..]`, `{..}`, `!` and `\` have the meaning
/// that the crate gives them. Which characters separate paths is a matter of
/// the target that the library is built for.
pub uninterp spec fn glob_matches(pattern: Seq<char>, name: Seq<char>) -> bool;

/// `glob_match::glob_match`: whether the glob `pattern` matches `name`. The
/// result depends on the two strings alone.
#[verifier::external_body]
fn glob_match(pattern: &str, name: &str) -> (r: bool)
    ensures
        r == glob_matches(pattern@, name@),
{
    glob_match::glob_match(pattern, name)
}

/// Whether `pattern` matches the port called `name`. The pattern `*` matches
/// every port, whatever its name holds; every other pattern matches as the
/// crate `glob_match` decides, where a `*` within a pattern does not reach
/// across a path separator.
pub open spec fn port_matches(pattern: Seq<char>, name: Seq<char>) -> bool {
    pattern == seq!['*'] || glob_matches(pattern, name)
}

/// The positions, in rising order, of the names that `pattern` matches.
pub open spec fn matching(pattern: Seq<char>, names: Seq<Seq<char>>) -> Seq<usize>
    decreases names.len(),
{
    if names.len() == 0 {
        Seq::empty()
    } else if port_matches(pattern, names.last()) {
        matching(pattern, names.drop_last()).push((names.len() - 1) as usize)
    } else {
        matching(pattern, names.drop_last())
    }
}

/// The positions among the port `names` of the ports that `pattern` matches,
/// in rising order. A pattern that matches no port is an error.
pub fn find_ports(pattern: &str, names: &Vec<String>) -> (r: Result<Vec<usize>, ConfigError>)
    ensures
        match r {
            Ok(found) => found@ == matching(pattern@, names.deep_view()) && found.len() > 0,
            Err(ConfigError::NoMatchingPort(p)) => p@ == pattern@ && matching(
                pattern@,
                names.deep_view(),
            ).len() == 0,
            Err(_) => false,
        },
{
    proof {
        reveal_strlit("*");
    }
    let every = same_text(pattern, "*");
    assert(every == (pattern@ == seq!['*'])) by {
        assert("*"@ =~= seq!['*']);
    }
    let mut found: Vec<usize> = Vec::new();
    let mut i: usize = 0;
    let ghost all = names.deep_view();
    while i < names.len()
        invariant
            i <= names.len(),
            all == names.deep_view(),
            every == (pattern@ == seq!['*']),
            found@ == matching(pattern@, all.take(i as int)),
        decreases names.len() - i,
    {
        let ghost upto = all.take(i + 1);
        assert(upto.drop_last() =~= all.take(i as int));
        if every || glob_match(pattern, names[i].as_str()) {
            found.push(i);
        }
        i += 1;
    }
    assert(all.take(names.len() as int) =~= all);
    if found.len() == 0 {
        Err(ConfigError::NoMatchingPort(pattern.to_owned()))
    } else {
        Ok(found)
    }
}

/// A port that a mapping was bound to: its position among the ports that
/// were found, and the triples that hold for it.
#[derive(Debug, Clone, PartialEq, Eq)]
pub struct Binding {
    pub port: usize,
    pub triples: Vec<(u8, u8, u8)>,
}

impl DeepView for Binding {
    type V = (usize, Seq<(u8, u8, u8)>);

    open spec fn deep_view(&self) -> (usize, Seq<(u8, u8, u8)>) {
        (self.port, self.triples@)
    }
}

/// Each of the ports at `positions`, bound with `triples`.
pub open spec fn bound(positions: Seq<usize>, triples: Seq<(u8, u8, u8)>) -> Seq<
    (usize, Seq<(u8, u8, u8)>),
> {
    Seq::new(positions.len(), |i: int| (positions[i], triples))
}

/// The bindings of a mapping to the ports called `names`: for each pattern in
/// turn, each port that it matches, in rising order, with the pattern's
/// triples.
pub open spec fn bindings(
    ports: Seq<(Seq<char>, Seq<(u8, u8, u8)>)>,
    names: Seq<Seq<char>>,
) -> Seq<(usize, Seq<(u8, u8, u8)>)>
    decreases ports.len(),
{
    if ports.len() == 0 {
        Seq::empty()
    } else {
        bindings(ports.drop_last(), names) + bound(
            matching(ports.last().0, names),
            ports.last().1,
        )
    }
}

/// Whether every pattern of the mapping matches one or more of the ports
/// called `names`.
pub open spec fn all_matched(
    ports: Seq<(Seq<char>, Seq<(u8, u8, u8)>)>,
    names: Seq<Seq<char>>,
) -> bool {
    forall|i: int| 0 <= i < ports.len() ==> matching((#[trigger] ports[i]).0, names).len() > 0
}

/// Whether `pattern` is the first pattern of the mapping that matches none of
/// the ports called `names`.
pub open spec fn unmatched(
    ports: Seq<(Seq<char>, Seq<(u8, u8, u8)>)>,
    names: Seq<Seq<char>>,
    pattern: Seq<char>,
) -> bool {
    exists|i: int|
        0 <= i < ports.len() && (#[trigger] ports[i]).0 == pattern && matching(
            pattern,
            names,
        ).len() == 0 && forall|j: int|
            0 <= j < i ==> matching((#[trigger] ports[j]).0, names).len() > 0
}

/// Whether every triple of every binding is addressable.
pub open spec fn all_addressable_in(bound: Seq<(usize, Seq<(u8, u8, u8)>)>) -> bool {
    forall|i: int, k: int|
        0 <= i < bound.len() && 0 <= k < bound[i].1.len() ==> addressable(
            #[trigger] bound[i].1[k],
        )
}

/// The bindings of a mapping without a misplaced channel hold addressable
/// triples only.
pub proof fn lemma_bindings_addressable(
    ports: Seq<(Seq<char>, Seq<(u8, u8, u8)>)>,
    names: Seq<Seq<char>>,
)
    requires
        misplaced(ports) is None,
    ensures
        all_addressable_in(bindings(ports, names)),
    decreases ports.len(),
{
    lemma_none_misplaced(ports);
    if ports.len() > 0 {
        let front = ports.drop_last();
        assert(misplaced(front) is None) by {
            lemma_misplaced_front(ports);
        }
        lemma_bindings_addressable(front, names);
        lemma_none_misplaced_in(ports.last().1);
        let before = bindings(front, names);
        let added = bound(matching(ports.last().0, names), ports.last().1);
        let all = bindings(ports, names);
        assert forall|i: int, k: int|
            0 <= i < all.len() && 0 <= k < all[i].1.len() implies addressable(
            #[trigger] all[i].1[k],
        ) by {
            if i < before.len() {
                assert(all[i] == before[i]);
            } else {
                assert(all[i] == added[i - before.len()]);
            }
        }
    }
}

/// A mapping without a misplaced channel has none in its front either.
proof fn lemma_misplaced_front(ports: Seq<(Seq<char>, Seq<(u8, u8, u8)>)>)
    requires
        ports.len() > 0,
        misplaced(ports) is None,
    ensures
        misplaced(ports.drop_last()) is None,
    decreases ports.len(),
{
    if ports.len() > 1 {
        assert(ports.drop_last().skip(1) =~= ports.skip(1).drop_last());
        lemma_misplaced_front(ports.skip(1));
    }
}

/// A copy of `triples`.
fn copy_triples(triples: &Vec<(u8, u8, u8)>) -> (r: Vec<(u8, u8, u8)>)
    ensures
        r@ == triples@,
{
    let mut out: Vec<(u8, u8, u8)> = Vec::new();
    let mut i: usize = 0;
    while i < triples.len()
        invariant
            i <= triples.len(),
            out@ == triples@.take(i as int),
        decreases triples.len() - i,
    {
        out.push(triples[i]);
        i += 1;
    }
    out
}

/// Binds `config` to the ports called `names`. Each pattern is bound to every
/// port that it matches; the first pattern that matches none is an error.
pub fn bind_ports(config: &MidiConfig, names: &Vec<String>) -> (r: Result<
    Vec<Binding>,
    ConfigError,
>)
    ensures
        match r {
            Ok(found) => found.deep_view() == bindings(config@, names.deep_view()) && all_matched(
                config@,
                names.deep_view(),
            ),
            Err(ConfigError::NoMatchingPort(p)) => unmatched(config@, names.deep_view(), p@),
            Err(_) => false,
        },
{
    let mut out: Vec<Binding> = Vec::new();
    let ghost all = names.deep_view();
    let mut i: usize = 0;
    while i < config.len()
        invariant
            i <= config@.len(),
            all == names.deep_view(),
            out.deep_view() == bindings(config@.take(i as int), all),
            forall|j: int| 0 <= j < i ==> matching((#[trigger] config@[j]).0, all).len() > 0,
        decreases config@.len() - i,
    {
        let positions = match find_ports(config.name(i), names) {
            Ok(positions) => positions,
            Err(e) => {
                return Err(e);
            },
        };
        let ghost upto = config@.take(i + 1);
        let ghost before = out.deep_view();
        assert(upto.drop_last() =~= config@.take(i as int));
        let mut k: usize = 0;
        while k < positions.len()
            invariant
                k <= positions.len(),
                i < config@.len(),
                out.deep_view() == before + bound(positions@.take(k as int), config@[i as int].1),
            decreases positions.len() - k,
        {
            let ghost so_far = out.deep_view();
            let binding = Binding { port: positions[k], triples: copy_triples(config.triples(i)) };
            out.push(binding);
            assert(out.deep_view() =~= so_far.push((positions[k as int], config@[i as int].1)));
            k += 1;
        }
        i += 1;
    }
    assert(config@.take(config@.len() as int) =~= config@);
    Ok(out)
}

} // verus!
