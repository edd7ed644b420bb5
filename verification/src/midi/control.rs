//! What control changes do: the actions that an incoming message triggers,
//! and the messages that acknowledge a transition.

use vstd::prelude::*;
use crate::action::Action;
use crate::midi::grammar::ANY_CHANNEL;
use crate::midi::{
    cc_message, get_channel, get_message_type, make_cc_message, message_channel, message_type,
    MessageType, CHANNELS, TRIGGER_VALUE,
};

verus! {

/// What a triple fires on a control change `cc` that reached it: `Start`
/// where `cc` is its start controller, `Stop` where it is its stop
/// controller, both where it is both.
pub open spec fn fired(triple: (u8, u8, u8), cc: u8) -> Seq<Action> {
    let start = if cc == triple.1 {
        seq![Action::Start]
    } else {
        Seq::<Action>::empty()
    };
    let stop = if cc == triple.2 {
        seq![Action::Stop]
    } else {
        Seq::<Action>::empty()
    };
    start + stop
}

/// What the triples written for `channel` fire on the control change `cc`, in
/// the order of the triples.
pub open spec fn fired_on(triples: Seq<(u8, u8, u8)>, channel: u8, cc: u8) -> Seq<Action>
    decreases triples.len(),
{
    if triples.len() == 0 {
        Seq::empty()
    } else if triples.last().0 == channel {
        fired_on(triples.drop_last(), channel, cc) + fired(triples.last(), cc)
    } else {
        fired_on(triples.drop_last(), channel, cc)
    }
}

/// The actions that `message` triggers under `triples`. Only a control change
/// with the value 127 triggers any: first what the triples of its own
/// channel fire, then what the triples of any channel fire.
pub open spec fn triggered(message: Seq<u8>, triples: Seq<(u8, u8, u8)>) -> Seq<Action> {
    if message.len() >= 3 && message_type(message[0]) == MessageType::ControlChange && message[2]
        == TRIGGER_VALUE {
        fired_on(triples, message_channel(message[0]), message[1]) + fired_on(
            triples,
            ANY_CHANNEL,
            message[1],
        )
    } else {
        Seq::empty()
    }
}

/// Puts what `triple` fires on `cc` behind `out`.
fn push_fired(out: &mut Vec<Action>, triple: (u8, u8, u8), cc: u8)
    ensures
        final(out)@ == old(out)@ + fired(triple, cc),
{
    if cc == triple.1 {
        out.push(Action::Start);
    }
    if cc == triple.2 {
        out.push(Action::Stop);
    }
}

/// Puts what the triples of `channel` fire on `cc` behind `out`.
fn push_fired_on(out: &mut Vec<Action>, triples: &Vec<(u8, u8, u8)>, channel: u8, cc: u8)
    ensures
        final(out)@ == old(out)@ + fired_on(triples@, channel, cc),
{
    let mut i: usize = 0;
    while i < triples.len()
        invariant
            i <= triples.len(),
            out@ == old(out)@ + fired_on(triples@.take(i as int), channel, cc),
        decreases triples.len() - i,
    {
        let ghost upto = triples@.take(i + 1);
        assert(upto.drop_last() =~= triples@.take(i as int));
        if triples[i].0 == channel {
            push_fired(out, triples[i], cc);
        }
        i += 1;
    }
    assert(triples@.take(triples.len() as int) =~= triples@);
}

/// The actions that the incoming `message` triggers on a port bound with
/// `triples`, in the order in which they are to be sent on.
pub fn triggered_actions(message: &[u8], triples: &Vec<(u8, u8, u8)>) -> (r: Vec<Action>)
    ensures
        r@ == triggered(message@, triples@),
{
    let mut out: Vec<Action> = Vec::new();
    if message.len() < 3 {
        return out;
    }
    if get_message_type(message) != MessageType::ControlChange || message[2] != TRIGGER_VALUE {
        return out;
    }
    let channel = get_channel(message);
    let cc = message[1];
    push_fired_on(&mut out, triples, channel, cc);
    push_fired_on(&mut out, triples, ANY_CHANNEL, cc);
    out
}

/// What the triples of a channel fire holds what each of them fires.
proof fn lemma_fired_on_holds(
    triples: Seq<(u8, u8, u8)>,
    i: int,
    channel: u8,
    cc: u8,
    action: Action,
)
    requires
        0 <= i < triples.len(),
        triples[i].0 == channel,
        fired(triples[i], cc).contains(action),
    ensures
        fired_on(triples, channel, cc).contains(action),
    decreases triples.len(),
{
    let front = fired_on(triples.drop_last(), channel, cc);
    if i == triples.len() - 1 {
        let k = choose|k: int| 0 <= k < fired(triples[i], cc).len() && fired(triples[i], cc)[k]
            == action;
        assert((front + fired(triples[i], cc))[front.len() + k] == action);
    } else {
        lemma_fired_on_holds(triples.drop_last(), i, channel, cc, action);
        let k = choose|k: int| 0 <= k < front.len() && front[k] == action;
        if triples.last().0 == channel {
            assert((front + fired(triples.last(), cc))[k] == action);
        }
    }
}

/// What the triples of a channel fire does not depend on a triple of another
/// channel.
proof fn lemma_fired_on_without(triples: Seq<(u8, u8, u8)>, i: int, channel: u8, cc: u8)
    requires
        0 <= i < triples.len(),
        triples[i].0 != channel,
    ensures
        fired_on(triples, channel, cc) == fired_on(triples.remove(i), channel, cc),
    decreases triples.len(),
{
    if i == triples.len() - 1 {
        assert(triples.remove(i) =~= triples.drop_last());
    } else {
        lemma_fired_on_without(triples.drop_last(), i, channel, cc);
        assert(triples.remove(i).drop_last() =~= triples.drop_last().remove(i));
    }
}

/// A triple fires on every control change with the value 127 that reaches
/// it: `Start` on its start controller and `Stop` on its stop controller. A
/// triple written for any channel is reached on each channel from 0 to 15, a
/// triple written for one channel on that channel.
pub proof fn lemma_triple_fires(triples: Seq<(u8, u8, u8)>, i: int, channel: u8)
    requires
        0 <= i < triples.len(),
        channel < 16,
        triples[i].0 == ANY_CHANNEL || triples[i].0 == channel,
    ensures
        triggered(cc_message(channel, triples[i].1, TRIGGER_VALUE), triples).contains(
            Action::Start,
        ),
        triggered(cc_message(channel, triples[i].2, TRIGGER_VALUE), triples).contains(
            Action::Stop,
        ),
{
    let t = triples[i];
    let status = (0xB0 + channel) as u8;
    assert(message_type(status) == MessageType::ControlChange);
    assert(message_channel(status) == channel);
    assert(fired(t, t.1)[0] == Action::Start);
    assert(fired(t, t.2).last() == Action::Stop);
    let own_start = fired_on(triples, channel, t.1);
    let any_start = fired_on(triples, ANY_CHANNEL, t.1);
    let own_stop = fired_on(triples, channel, t.2);
    let any_stop = fired_on(triples, ANY_CHANNEL, t.2);
    if t.0 == ANY_CHANNEL {
        lemma_fired_on_holds(triples, i, ANY_CHANNEL, t.1, Action::Start);
        lemma_fired_on_holds(triples, i, ANY_CHANNEL, t.2, Action::Stop);
        let k = choose|k: int| 0 <= k < any_start.len() && any_start[k] == Action::Start;
        assert((own_start + any_start)[own_start.len() + k] == Action::Start);
        let m = choose|m: int| 0 <= m < any_stop.len() && any_stop[m] == Action::Stop;
        assert((own_stop + any_stop)[own_stop.len() + m] == Action::Stop);
    } else {
        lemma_fired_on_holds(triples, i, channel, t.1, Action::Start);
        lemma_fired_on_holds(triples, i, channel, t.2, Action::Stop);
        let k = choose|k: int| 0 <= k < own_start.len() && own_start[k] == Action::Start;
        assert((own_start + any_start)[k] == Action::Start);
        let m = choose|m: int| 0 <= m < own_stop.len() && own_stop[m] == Action::Stop;
        assert((own_stop + any_stop)[m] == Action::Stop);
    }
}

/// A triple written for one channel fires on that channel only: on a message
/// of another channel the triggered actions are those of the mapping without
/// the triple.
pub proof fn lemma_exact_triple_fires_only_on_its_channel(
    triples: Seq<(u8, u8, u8)>,
    i: int,
    message: Seq<u8>,
)
    requires
        0 <= i < triples.len(),
        triples[i].0 != ANY_CHANNEL,
        message.len() > 0 ==> message_channel(message[0]) != triples[i].0,
    ensures
        triggered(message, triples) == triggered(message, triples.remove(i)),
{
    if message.len() >= 3 {
        lemma_fired_on_without(triples, i, message_channel(message[0]), message[1]);
        lemma_fired_on_without(triples, i, ANY_CHANNEL, message[1]);
    }
}

/// Only a control change with the value 127 triggers anything.
pub proof fn lemma_only_full_control_changes_trigger(
    message: Seq<u8>,
    triples: Seq<(u8, u8, u8)>,
)
    requires
        message.len() < 3 || message_type(message[0]) != MessageType::ControlChange || message[2]
            != TRIGGER_VALUE,
    ensures
        triggered(message, triples) == Seq::<Action>::empty(),
{
}

/// A triple whose channel an acknowledgement can be sent on: any channel,
/// or one of the sixteen that there are.
pub open spec fn addressable(triple: (u8, u8, u8)) -> bool {
    triple.0 == ANY_CHANNEL || triple.0 < CHANNELS
}

/// The channel of the first of the triples that is not addressable; `None`
/// where every triple is.
pub open spec fn misplaced_in(triples: Seq<(u8, u8, u8)>) -> Option<u8>
    decreases triples.len(),
{
    if triples.len() == 0 {
        None
    } else if !addressable(triples[0]) {
        Some(triples[0].0)
    } else {
        misplaced_in(triples.skip(1))
    }
}

/// The channel of the first triple of a mapping that is not addressable, in
/// the order of the ports and of their triples; `None` where every triple
/// is addressable.
pub open spec fn misplaced(ports: Seq<(Seq<char>, Seq<(u8, u8, u8)>)>) -> Option<u8>
    decreases ports.len(),
{
    if ports.len() == 0 {
        None
    } else if misplaced_in(ports[0].1) is Some {
        misplaced_in(ports[0].1)
    } else {
        misplaced(ports.skip(1))
    }
}

/// Where no channel is misplaced, every triple is addressable.
pub proof fn lemma_none_misplaced_in(triples: Seq<(u8, u8, u8)>)
    requires
        misplaced_in(triples) is None,
    ensures
        forall|k: int| 0 <= k < triples.len() ==> addressable(#[trigger] triples[k]),
    decreases triples.len(),
{
    if triples.len() > 0 {
        lemma_none_misplaced_in(triples.skip(1));
        assert forall|k: int| 0 <= k < triples.len() implies addressable(
            #[trigger] triples[k],
        ) by {
            if k > 0 {
                assert(triples[k] == triples.skip(1)[k - 1]);
            }
        }
    }
}

/// Where no channel of a mapping is misplaced, every triple of every port is
/// addressable.
pub proof fn lemma_none_misplaced(ports: Seq<(Seq<char>, Seq<(u8, u8, u8)>)>)
    requires
        misplaced(ports) is None,
    ensures
        forall|i: int| 0 <= i < ports.len() ==> misplaced_in((#[trigger] ports[i]).1) is None,
    decreases ports.len(),
{
    if ports.len() > 0 {
        lemma_none_misplaced(ports.skip(1));
        assert forall|i: int| 0 <= i < ports.len() implies misplaced_in(
            (#[trigger] ports[i]).1,
        ) is None by {
            if i > 0 {
                assert(ports[i] == ports.skip(1)[i - 1]);
            }
        }
    }
}

/// The channel of the first of the triples that is not addressable.
pub fn find_misplaced(triples: &Vec<(u8, u8, u8)>) -> (r: Option<u8>)
    ensures
        r == misplaced_in(triples@),
{
    let mut i: usize = 0;
    assert(triples@.skip(0) =~= triples@);
    while i < triples.len()
        invariant
            i <= triples.len(),
            misplaced_in(triples@) == misplaced_in(triples@.skip(i as int)),
        decreases triples.len() - i,
    {
        let channel = triples[i].0;
        if channel != ANY_CHANNEL && channel >= CHANNELS {
            return Some(channel);
        }
        assert(triples@.skip(i as int).skip(1) =~= triples@.skip(i + 1));
        i += 1;
    }
    None
}

/// The control change `cc` with the value 127 on each of the first `count`
/// channels.
pub open spec fn on_channels(count: nat, cc: u8) -> Seq<Seq<u8>>
    decreases count,
{
    if count == 0 {
        Seq::empty()
    } else {
        on_channels((count - 1) as nat, cc).push(cc_message((count - 1) as u8, cc, TRIGGER_VALUE))
    }
}

/// The messages that acknowledge a transition on the channel of `triple`,
/// with the controller `cc`: one on its channel, or one on each of the
/// sixteen channels, from 0 to 15, where it is written for any channel.
pub open spec fn acknowledged_on(triple: (u8, u8, u8), cc: u8) -> Seq<Seq<u8>> {
    if triple.0 == ANY_CHANNEL {
        on_channels(CHANNELS as nat, cc)
    } else {
        seq![cc_message(triple.0, cc, TRIGGER_VALUE)]
    }
}

/// The messages that acknowledge a start (`started`) or a stop on every
/// triple, in the order of the triples: each with the triple's start or stop
/// controller.
pub open spec fn acknowledged(triples: Seq<(u8, u8, u8)>, started: bool) -> Seq<Seq<u8>>
    decreases triples.len(),
{
    if triples.len() == 0 {
        Seq::empty()
    } else {
        let last = triples.last();
        acknowledged(triples.drop_last(), started) + acknowledged_on(
            last,
            if started {
                last.1
            } else {
                last.2
            },
        )
    }
}

/// The messages to send out on a port bound with `triples` when `action` has
/// happened. A failure is not acknowledged over MIDI.
pub open spec fn acknowledgement(action: Action, triples: Seq<(u8, u8, u8)>) -> Seq<Seq<u8>> {
    match action {
        Action::Start => acknowledged(triples, true),
        Action::Stop => acknowledged(triples, false),
        Action::Error(_) => Seq::empty(),
    }
}

/// Whether an acknowledgement can be sent on the channel of every triple.
pub fn all_addressable(triples: &Vec<(u8, u8, u8)>) -> (r: bool)
    ensures
        r == forall|i: int| 0 <= i < triples.len() ==> addressable(#[trigger] triples[i]),
{
    let mut i: usize = 0;
    while i < triples.len()
        invariant
            i <= triples.len(),
            forall|k: int| 0 <= k < i ==> addressable(#[trigger] triples[k]),
        decreases triples.len() - i,
    {
        if triples[i].0 != ANY_CHANNEL && triples[i].0 >= 16 {
            return false;
        }
        i += 1;
    }
    true
}

/// Puts the messages that acknowledge on `triple` with `cc` behind `out`.
fn push_acknowledged_on(out: &mut Vec<[u8; 3]>, triple: (u8, u8, u8), cc: u8)
    requires
        addressable(triple),
    ensures
        final(out).deep_view() == old(out).deep_view() + acknowledged_on(triple, cc),
{
    if triple.0 == ANY_CHANNEL {
        let mut channel: u8 = 0;
        while channel < CHANNELS
            invariant
                channel <= CHANNELS,
                out.deep_view() == old(out).deep_view() + on_channels(channel as nat, cc),
            decreases CHANNELS - channel,
        {
            let ghost before = out.deep_view();
            let message = make_cc_message(channel, cc, TRIGGER_VALUE);
            out.push(message);
            assert(message.deep_view() =~= message@);
            assert(out.deep_view() =~= before.push(cc_message(channel, cc, TRIGGER_VALUE)));
            channel += 1;
        }
    } else {
        let ghost before = out.deep_view();
        let message = make_cc_message(triple.0, cc, TRIGGER_VALUE);
        out.push(message);
        assert(message.deep_view() =~= message@);
        assert(out.deep_view() =~= before.push(cc_message(triple.0, cc, TRIGGER_VALUE)));
    }
}

/// The messages to send out on a port bound with `triples` after `action`,
/// in the order in which they are to be sent.
pub fn acknowledgements(action: &Action, triples: &Vec<(u8, u8, u8)>) -> (r: Vec<[u8; 3]>)
    requires
        forall|i: int| 0 <= i < triples.len() ==> addressable(#[trigger] triples[i]),
    ensures
        r.deep_view() == acknowledgement(*action, triples@),
{
    let mut out: Vec<[u8; 3]> = Vec::new();
    let started = match action {
        Action::Start => true,
        Action::Stop => false,
        Action::Error(_) => {
            return out;
        },
    };
    let mut i: usize = 0;
    while i < triples.len()
        invariant
            i <= triples.len(),
            forall|k: int| 0 <= k < triples.len() ==> addressable(#[trigger] triples[k]),
            out.deep_view() == acknowledged(triples@.take(i as int), started),
        decreases triples.len() - i,
    {
        let ghost upto = triples@.take(i + 1);
        assert(upto.drop_last() =~= triples@.take(i as int));
        let cc = if started {
            triples[i].1
        } else {
            triples[i].2
        };
        push_acknowledged_on(&mut out, triples[i], cc);
        i += 1;
    }
    assert(triples@.take(triples.len() as int) =~= triples@);
    out
}

} // verus!
