//! MIDI control: the mapping from ports and control changes to actions.

pub mod control;
pub mod grammar;
pub mod parse;
pub mod ports;
pub mod render;
pub mod scan;

pub use crate::midi::control::{acknowledgements, all_addressable, triggered_actions};
pub use crate::midi::ports::{bind_ports, find_ports, Binding};

use vstd::prelude::*;
use crate::error::ConfigError;
use crate::midi::control::{find_misplaced, misplaced};
use crate::midi::parse::{parse_midi_config, parsed, stuck_at};
use crate::midi::ports::{
    all_addressable_in, all_matched, bindings, lemma_bindings_addressable, unmatched,
};
use crate::text::same_text;

verus! {

/// The mapping string that is used where the user gives none.
pub const DEFAULT_MAPPING: &'static str = "[*[(*,16,17)]]";

/// The value of a control change that triggers an action: fully engaged.
pub const TRIGGER_VALUE: u8 = 127;

/// The number of MIDI channels, which are counted from 0. A wildcard stands
/// for every one of them.
pub const CHANNELS: u8 = 16;

/// The kind of a MIDI channel message, which the high half of its status
/// byte holds.
#[derive(Debug, Clone, Copy, PartialEq, Eq, Structural)]
pub enum MessageType {
    NoteOff,
    NoteOn,
    PolyphonicAfterTouch,
    ControlChange,
    ProgramChange,
    AfterTouch,
    PitchBendChange,
    Ignored,
}

/// The kind of the message whose status byte is `status`.
pub open spec fn message_type(status: u8) -> MessageType {
    let kind = status / 16;
    if kind == 0x8 {
        MessageType::NoteOff
    } else if kind == 0x9 {
        MessageType::NoteOn
    } else if kind == 0xA {
        MessageType::PolyphonicAfterTouch
    } else if kind == 0xB {
        MessageType::ControlChange
    } else if kind == 0xC {
        MessageType::ProgramChange
    } else if kind == 0xD {
        MessageType::AfterTouch
    } else if kind == 0xE {
        MessageType::PitchBendChange
    } else {
        MessageType::Ignored
    }
}

/// The channel, 0 to 15, of the message whose status byte is `status`: the low
/// half of the byte.
pub open spec fn message_channel(status: u8) -> u8 {
    status % 16
}

/// The three bytes of a control change on `channel`.
pub open spec fn cc_message(channel: u8, cc_num: u8, value: u8) -> Seq<u8> {
    seq![(0xB0 + channel) as u8, cc_num, value]
}

/// The kind of `message`, read from its first byte.
pub fn get_message_type(message: &[u8]) -> (r: MessageType)
    requires
        message@.len() > 0,
    ensures
        r == message_type(message@[0]),
{
    let status: u8 = message[0];
    let kind: u8 = status >> 4;
    assert(kind == status / 16) by (bit_vector)
        requires
            kind == status >> 4,
    ;
    if kind == 0x8 {
        MessageType::NoteOff
    } else if kind == 0x9 {
        MessageType::NoteOn
    } else if kind == 0xA {
        MessageType::PolyphonicAfterTouch
    } else if kind == 0xB {
        MessageType::ControlChange
    } else if kind == 0xC {
        MessageType::ProgramChange
    } else if kind == 0xD {
        MessageType::AfterTouch
    } else if kind == 0xE {
        MessageType::PitchBendChange
    } else {
        MessageType::Ignored
    }
}

/// The channel of `message`, read from its first byte.
pub fn get_channel(message: &[u8]) -> (r: u8)
    requires
        message@.len() > 0,
    ensures
        r == message_channel(message@[0]),
        r < 16,
{
    let status: u8 = message[0];
    let channel: u8 = status & 0x0F;
    assert(channel == status % 16) by (bit_vector)
        requires
            channel == status & 0x0F,
    ;
    channel
}

/// The control change `cc_num` with `value` on `channel`.
pub fn make_cc_message(channel: u8, cc_num: u8, value: u8) -> (r: [u8; 3])
    requires
        channel < 16,
    ensures
        r@ == cc_message(channel, cc_num, value),
{
    let r: [u8; 3] = [0xB0 + channel, cc_num, value];
    r
}

/// The mapping of one side of the MIDI control surface: for each port-name
/// pattern, the triples `(channel, start_cc, stop_cc)` that belong to it.
/// A pattern occurs once; the patterns keep the order in which they came.
#[derive(Debug, Clone, PartialEq, Eq)]
pub struct MidiConfig {
    ports: Vec<(String, Vec<(u8, u8, u8)>)>,
}

/// No name is the name of two ports.
pub open spec fn distinct_names(ports: Seq<(Seq<char>, Seq<(u8, u8, u8)>)>) -> bool {
    forall|i: int, j: int|
        0 <= i < ports.len() && 0 <= j < ports.len() && i != j ==> (#[trigger] ports[i]).0
            != (#[trigger] ports[j]).0
}

/// Whether some port is called `name`.
pub open spec fn has_name(ports: Seq<(Seq<char>, Seq<(u8, u8, u8)>)>, name: Seq<char>) -> bool {
    exists|i: int| 0 <= i < ports.len() && (#[trigger] ports[i]).0 == name
}

/// `ports` with `triples` for the port called `name`: in place of what that
/// port had before, or as a new port at the end.
pub open spec fn with_port(
    ports: Seq<(Seq<char>, Seq<(u8, u8, u8)>)>,
    name: Seq<char>,
    triples: Seq<(u8, u8, u8)>,
) -> Seq<(Seq<char>, Seq<(u8, u8, u8)>)> {
    if has_name(ports, name) {
        Seq::new(
            ports.len(),
            |i: int|
                if ports[i].0 == name {
                    (name, triples)
                } else {
                    ports[i]
                },
        )
    } else {
        ports.push((name, triples))
    }
}

/// The mapping that holds the given ports, put in one after the other.
pub open spec fn collect(ports: Seq<(Seq<char>, Seq<(u8, u8, u8)>)>) -> Seq<
    (Seq<char>, Seq<(u8, u8, u8)>),
>
    decreases ports.len(),
{
    if ports.len() == 0 {
        Seq::empty()
    } else {
        with_port(collect(ports.drop_last()), ports.last().0, ports.last().1)
    }
}

/// Putting a port in keeps the names distinct.
pub proof fn lemma_with_port_distinct(
    ports: Seq<(Seq<char>, Seq<(u8, u8, u8)>)>,
    name: Seq<char>,
    triples: Seq<(u8, u8, u8)>,
)
    requires
        distinct_names(ports),
    ensures
        distinct_names(with_port(ports, name, triples)),
{
    let after = with_port(ports, name, triples);
    assert forall|i: int, j: int|
        0 <= i < after.len() && 0 <= j < after.len() && i != j implies (#[trigger] after[i]).0
        != (#[trigger] after[j]).0 by {
        if has_name(ports, name) {
            assert(after[i].0 == ports[i].0);
            assert(after[j].0 == ports[j].0);
        } else {
            if i < ports.len() && j < ports.len() {
                assert(after[i] == ports[i] && after[j] == ports[j]);
            } else if i < ports.len() {
                assert(after[i] == ports[i]);
            } else {
                assert(after[j] == ports[j]);
            }
        }
    }
}

impl View for MidiConfig {
    type V = Seq<(Seq<char>, Seq<(u8, u8, u8)>)>;

    /// The ports in their order, each with its name and its triples.
    closed spec fn view(&self) -> Seq<(Seq<char>, Seq<(u8, u8, u8)>)> {
        Seq::new(self.ports@.len(), |i: int| (self.ports@[i].0@, self.ports@[i].1@))
    }
}

impl MidiConfig {
    /// What holds of every mapping: no pattern occurs twice.
    pub open spec fn wf(&self) -> bool {
        distinct_names(self@)
    }

    /// The mapping without any port.
    pub fn new() -> (r: Self)
        ensures
            r.wf(),
            r@ == Seq::<(Seq<char>, Seq<(u8, u8, u8)>)>::empty(),
    {
        let r = MidiConfig { ports: Vec::new() };
        r
    }

    /// The number of ports.
    pub fn len(&self) -> (r: usize)
        ensures
            r == self@.len(),
    {
        self.ports.len()
    }

    /// The name of the port at `index`.
    pub fn name(&self, index: usize) -> (r: &str)
        requires
            index < self@.len(),
        ensures
            r@ == self@[index as int].0,
    {
        self.ports[index].0.as_str()
    }

    /// The triples of the port at `index`.
    pub fn triples(&self, index: usize) -> (r: &Vec<(u8, u8, u8)>)
        requires
            index < self@.len(),
        ensures
            r@ == self@[index as int].1,
    {
        &self.ports[index].1
    }

    /// The position of the port called `name`, if there is one.
    pub fn position(&self, name: &str) -> (r: Option<usize>)
        ensures
            match r {
                Some(i) => i < self@.len() && self@[i as int].0 == name@,
                None => !has_name(self@, name@),
            },
    {
        let mut i: usize = 0;
        while i < self.ports.len()
            invariant
                i <= self.ports.len(),
                forall|k: int| 0 <= k < i ==> (#[trigger] self@[k]).0 != name@,
            decreases self.ports.len() - i,
        {
            if same_text(self.ports[i].0.as_str(), name) {
                return Some(i);
            }
            i += 1;
        }
        None
    }

    /// The triples of the port called `name`, if there is one.
    pub fn get(&self, name: &str) -> (r: Option<&Vec<(u8, u8, u8)>>)
        ensures
            match r {
                Some(triples) => exists|i: int|
                    0 <= i < self@.len() && (#[trigger] self@[i]) == (name@, triples@),
                None => !has_name(self@, name@),
            },
    {
        match self.position(name) {
            Some(i) => Some(&self.ports[i].1),
            None => None,
        }
    }

    /// Gives the port called `name` the triples `triples`: in place of those
    /// it had, or as a new port behind the others.
    pub fn insert(&mut self, name: String, triples: Vec<(u8, u8, u8)>)
        requires
            old(self).wf(),
        ensures
            final(self).wf(),
            final(self)@ == with_port(old(self)@, name@, triples@),
    {
        proof {
            lemma_with_port_distinct(self@, name@, triples@);
        }
        let ghost before = self@;
        let ghost wanted = with_port(before, name@, triples@);
        match self.position(name.as_str()) {
            Some(i) => {
                self.ports.set(i, (name, triples));
                assert(self@ =~= wanted) by {
                    assert forall|k: int| 0 <= k < before.len() implies #[trigger] self@[k]
                        == wanted[k] by {
                        if k != i {
                            assert(before[k].0 != before[i as int].0);
                        }
                    }
                }
            },
            None => {
                self.ports.push((name, triples));
                assert(self@ =~= wanted);
            },
        }
    }
}

impl std::str::FromStr for MidiConfig {
    type Err = ConfigError;

    /// Parses a mapping string: the mapping that it means, or the fragment at
    /// which it stops making sense.
    fn from_str(s: &str) -> (r: Result<Self, ConfigError>)
        ensures
            match parsed(s@) {
                Some(mapping) => r matches Ok(found) && found.wf() && found@ == mapping,
                None => r matches Err(ConfigError::Syntax(fragment)) && fragment@ == s@.skip(
                    stuck_at(s@) as int,
                ),
            },
    {
        parse_midi_config(s)
    }
}

/// Whether a mapping string is one that the recorder reads: it means a
/// mapping, and every channel of that mapping is one of the sixteen or any
/// channel.
pub open spec fn readable(s: Seq<char>) -> bool {
    parsed(s) is Some && misplaced(parsed(s).unwrap()) is None
}

/// Whether `error` is what the mapping string `s` is refused with: the
/// fragment at which it stops making sense, or else the first channel that
/// it misplaces.
pub open spec fn refuses(error: ConfigError, s: Seq<char>) -> bool {
    match parsed(s) {
        None => error matches ConfigError::Syntax(fragment) && fragment@ == s.skip(
            stuck_at(s) as int,
        ),
        Some(mapping) => match misplaced(mapping) {
            Some(channel) => error matches ConfigError::NoSuchMidiChannel(found) && found
                == channel,
            None => false,
        },
    }
}

/// Reads a mapping string that the user gave. A channel may be written as
/// one of the sixteen channels, 0 to 15, as `*` for any channel, or as 255,
/// which says the same as `*`; another channel is refused.
pub fn read_mapping(s: &str) -> (r: Result<MidiConfig, ConfigError>)
    ensures
        match r {
            Ok(found) => readable(s@) && found@ == parsed(s@).unwrap() && found.wf(),
            Err(error) => refuses(error, s@),
        },
{
    let config = parse_midi_config(s)?;
    let mut i: usize = 0;
    assert(config@.skip(0) =~= config@);
    while i < config.len()
        invariant
            i <= config@.len(),
            config.wf(),
            parsed(s@) == Some(config@),
            misplaced(config@) == misplaced(config@.skip(i as int)),
        decreases config@.len() - i,
    {
        assert(config@.skip(i as int)[0] == config@[i as int]);
        match find_misplaced(config.triples(i)) {
            Some(channel) => {
                return Err(ConfigError::NoSuchMidiChannel(channel));
            },
            None => {},
        }
        assert(config@.skip(i as int).skip(1) =~= config@.skip(i + 1));
        i += 1;
    }
    Ok(config)
}

/// The MIDI side of the recorder: the mapping that incoming control changes
/// are read with, and the mapping that transitions are acknowledged with,
/// where one is wanted. No channel of either is misplaced.
#[derive(Debug, PartialEq, Eq)]
pub struct Midi {
    input_config: MidiConfig,
    output_config: Option<MidiConfig>,
}

/// The ports that the two mappings of a [`Midi`] were bound to.
#[derive(Debug, Clone, PartialEq, Eq)]
pub struct Listening {
    /// The input ports to listen on, each with its triples.
    pub inputs: Vec<Binding>,
    /// The output ports to acknowledge on, each with its triples; `None`
    /// where nothing is to be acknowledged.
    pub outputs: Option<Vec<Binding>>,
}

impl Midi {
    /// The mapping for incoming control changes.
    pub closed spec fn input(&self) -> Seq<(Seq<char>, Seq<(u8, u8, u8)>)> {
        self.input_config@
    }

    /// The mapping for acknowledgements, if there is one.
    pub closed spec fn output(&self) -> Option<Seq<(Seq<char>, Seq<(u8, u8, u8)>)>> {
        match self.output_config {
            Some(config) => Some(config@),
            None => None,
        }
    }

    /// What holds of every `Midi`: neither mapping misplaces a channel.
    #[verifier::type_invariant]
    closed spec fn in_order(&self) -> bool {
        &&& misplaced(self.input_config@) is None
        &&& self.output_config matches Some(config) ==> misplaced(config@) is None
    }

    /// Reads the mappings from the user's arguments: the first is the mapping
    /// string for input, the second the one for output. Without a first the
    /// default mapping is used for input; without a second nothing is
    /// acknowledged. The first string that is not readable is an error.
    pub fn new(cli_config: &[String]) -> (r: Result<Self, ConfigError>)
        ensures
            ({
                let first = if cli_config@.len() > 0 {
                    cli_config@[0]@
                } else {
                    DEFAULT_MAPPING@
                };
                if !readable(first) {
                    r matches Err(error) && refuses(error, first)
                } else if cli_config@.len() > 1 && !readable(cli_config@[1]@) {
                    r matches Err(error) && refuses(error, cli_config@[1]@)
                } else {
                    r matches Ok(midi) && Some(midi.input()) == parsed(first) && midi.output()
                        == if cli_config@.len() > 1 {
                        parsed(cli_config@[1]@)
                    } else {
                        None
                    }
                }
            }),
    {
        let input_config = if cli_config.len() > 0 {
            read_mapping(cli_config[0].as_str())?
        } else {
            read_mapping(DEFAULT_MAPPING)?
        };
        let output_config = if cli_config.len() > 1 {
            Some(read_mapping(cli_config[1].as_str())?)
        } else {
            None
        };
        Ok(Midi { input_config, output_config })
    }

    /// The mapping for incoming control changes.
    pub fn input_config(&self) -> (r: &MidiConfig)
        ensures
            r@ == self.input(),
            misplaced(r@) is None,
    {
        proof {
            use_type_invariant(self);
        }
        &self.input_config
    }

    /// The mapping for acknowledgements, if there is one.
    pub fn output_config(&self) -> (r: Option<&MidiConfig>)
        ensures
            match r {
                Some(config) => self.output() == Some(config@) && misplaced(config@) is None,
                None => self.output() is None,
            },
    {
        proof {
            use_type_invariant(self);
        }
        self.output_config.as_ref()
    }

    /// Binds the mappings to the ports that were found: `inputs` and
    /// `outputs` are the names of the input and of the output ports. A
    /// pattern that matches no port is an error, one of the input mapping
    /// before one of the output mapping. Every triple of every binding is
    /// addressable.
    pub fn listen(&self, inputs: &Vec<String>, outputs: &Vec<String>) -> (r: Result<
        Listening,
        ConfigError,
    >)
        ensures
            match r {
                Ok(found) => found.inputs.deep_view() == bindings(
                    self.input(),
                    inputs.deep_view(),
                ) && all_matched(self.input(), inputs.deep_view()) && all_addressable_in(
                    found.inputs.deep_view(),
                ) && match found.outputs {
                    Some(bound) => self.output() is Some && bound.deep_view() == bindings(
                        self.output().unwrap(),
                        outputs.deep_view(),
                    ) && all_matched(self.output().unwrap(), outputs.deep_view())
                        && all_addressable_in(bound.deep_view()),
                    None => self.output() is None,
                },
                Err(ConfigError::NoMatchingPort(p)) => unmatched(
                    self.input(),
                    inputs.deep_view(),
                    p@,
                ) || (all_matched(self.input(), inputs.deep_view()) && self.output() is Some
                    && unmatched(self.output().unwrap(), outputs.deep_view(), p@)),
                Err(_) => false,
            },
    {
        proof {
            use_type_invariant(self);
            lemma_bindings_addressable(self.input(), inputs.deep_view());
            if self.output() is Some {
                lemma_bindings_addressable(self.output().unwrap(), outputs.deep_view());
            }
        }
        let found_inputs = bind_ports(&self.input_config, inputs)?;
        let found_outputs = match &self.output_config {
            Some(config) => Some(bind_ports(config, outputs)?),
            None => None,
        };
        Ok(Listening { inputs: found_inputs, outputs: found_outputs })
    }
}

} // verus!
