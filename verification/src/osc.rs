//! OSC control: the packets that start and stop the recorder, and the
//! packets that acknowledge what it did.

use vstd::prelude::*;
use vstd::utf8::encode_utf8;
use crate::action::Action;
use crate::text::same_text;

verus! {

/// The address that starts a recording, and that acknowledges a start.
pub const START_ADDRESS: &'static str = "/smrec/start";

/// The address that stops the recording, and that acknowledges a stop.
pub const STOP_ADDRESS: &'static str = "/smrec/stop";

/// The address under which a failure is reported.
pub const ERROR_ADDRESS: &'static str = "/smrec/error";

/// The longest datagram that is read.
pub const MTU: usize = 1536;

/// What the recorder reads of an OSC packet: the address of a message, or
/// the packets of a bundle in their order.
#[derive(Debug)]
pub enum Packet {
    Message(String),
    Bundle(Vec<Packet>),
}

/// A [`Packet`] with its addresses as characters.
pub enum PacketView {
    Message(Seq<char>),
    Bundle(Seq<PacketView>),
}

impl View for Packet {
    type V = PacketView;

    open spec fn view(&self) -> PacketView
        decreases self,
    {
        match self {
            Packet::Message(address) => PacketView::Message(address@),
            Packet::Bundle(packets) => PacketView::Bundle(
                Seq::new(
                    packets.len() as nat,
                    |i: int|
                        if 0 <= i < packets.len() {
                            packets[i].view()
                        } else {
                            PacketView::Message(Seq::empty())
                        },
                ),
            ),
        }
    }
}

/// The address that is listened on where the user gives none: every
/// interface, a port that the system picks.
pub const DEFAULT_RECEIVE_ADDRESS: &'static str = "0.0.0.0:0";

/// The address that is sent to where the user gives none.
pub const DEFAULT_SEND_ADDRESS: &'static str = "127.0.0.1:0";

/// The OSC side of the recorder: the address on which requests are received
/// and the address to which acknowledgements are sent.
#[derive(Debug, Clone, PartialEq, Eq)]
pub struct Osc {
    pub receive_address: String,
    pub send_address: String,
}

impl Osc {
    /// Reads the two addresses from the user's arguments: the first is the
    /// address to listen on, the second the address to send to. Each has its
    /// default where it is not given.
    pub fn new(osc_config: &[String]) -> (r: Self)
        ensures
            r.receive_address@ == if osc_config@.len() > 0 {
                osc_config@[0]@
            } else {
                DEFAULT_RECEIVE_ADDRESS@
            },
            r.send_address@ == if osc_config@.len() > 1 {
                osc_config@[1]@
            } else {
                DEFAULT_SEND_ADDRESS@
            },
    {
        let receive_address = if osc_config.len() > 0 {
            osc_config[0].clone()
        } else {
            DEFAULT_RECEIVE_ADDRESS.to_owned()
        };
        let send_address = if osc_config.len() > 1 {
            osc_config[1].clone()
        } else {
            DEFAULT_SEND_ADDRESS.to_owned()
        };
        Osc { receive_address, send_address }
    }
}

/// Why a datagram gave no packet.
#[derive(Debug, Clone, PartialEq, Eq)]
pub enum DecodeError {
    /// The datagram is longer than [`MTU`] bytes; the field holds its length.
    TooLong(usize),
    /// The datagram is no OSC packet; the field holds the decoder's words.
    Malformed(String),
}

/// The action that a message to `address` asks for: a start, a stop, or
/// nothing where the address is another.
pub open spec fn requested(address: Seq<char>) -> Option<Action> {
    if address == START_ADDRESS@ {
        Some(Action::Start)
    } else if address == STOP_ADDRESS@ {
        Some(Action::Stop)
    } else {
        None
    }
}

/// The actions that a packet asks for, in their order: that of a message, or
/// those of all the packets of a bundle, bundles within bundles unpacked.
pub open spec fn handled(packet: PacketView) -> Seq<Action>
    decreases packet, 0nat,
{
    match packet {
        PacketView::Message(address) => match requested(address) {
            Some(action) => seq![action],
            None => Seq::empty(),
        },
        PacketView::Bundle(packets) => handled_first(packets, packets.len()),
    }
}

/// The actions that the first `count` of `packets` ask for.
pub open spec fn handled_first(packets: Seq<PacketView>, count: nat) -> Seq<Action>
    decreases packets, count,
{
    if count == 0 || count > packets.len() {
        Seq::empty()
    } else {
        handled_first(packets, (count - 1) as nat) + handled(packets[count - 1])
    }
}

/// The action that a message to `address` asks for.
pub fn handle_message(address: &str) -> (r: Option<Action>)
    ensures
        r == requested(address@),
{
    if same_text(address, START_ADDRESS) {
        Some(Action::Start)
    } else if same_text(address, STOP_ADDRESS) {
        Some(Action::Stop)
    } else {
        None
    }
}

/// Puts the actions that `packet` asks for behind `out`.
fn collect_actions(packet: &Packet, out: &mut Vec<Action>)
    ensures
        final(out)@ == old(out)@ + handled(packet@),
    decreases packet,
{
    match packet {
        Packet::Message(address) => {
            match handle_message(address.as_str()) {
                Some(action) => {
                    out.push(action);
                },
                None => {
                    assert(out@ =~= old(out)@ + handled(packet@));
                },
            }
        },
        Packet::Bundle(packets) => {
            let ghost views = packet@->Bundle_0;
            let mut i: usize = 0;
            while i < packets.len()
                invariant
                    i <= packets.len(),
                    packet == Packet::Bundle(*packets),
                    views == packet@->Bundle_0,
                    views.len() == packets.len(),
                    out@ == old(out)@ + handled_first(views, i as nat),
                decreases packets.len() - i,
            {
                collect_actions(&packets[i], out);
                i += 1;
            }
        },
    }
}

/// The actions that `packet` asks for, in the order in which they are to be
/// sent on.
pub fn handle_packet(packet: &Packet) -> (r: Vec<Action>)
    ensures
        r@ == handled(packet@),
{
    let mut out: Vec<Action> = Vec::new();
    collect_actions(packet, &mut out);
    out
}

/// `rosc::OscPacket`: a packet as the decoder gives it. Nothing is known of
/// it but what [`packet_content`] names.
#[verifier::external_type_specification]
#[verifier::external_body]
pub struct ExRoscPacket(rosc::OscPacket);

/// What `rosc` reads the datagram `bytes` as, with the message addresses and
/// the nesting of bundles kept and all else left out; or, where `rosc` takes
/// it for no OSC packet, the words in which it says why.
pub uninterp spec fn osc_decoded(bytes: Seq<u8>) -> Result<PacketView, Seq<char>>;

/// What a packet of `rosc` holds: the address of a message, or the packets of
/// a bundle in their order.
pub uninterp spec fn packet_content(packet: rosc::OscPacket) -> PacketView;

/// `rosc::decoder::decode_udp`: reads a datagram as an OSC packet, or says in
/// words why it is none. What comes out depends on the bytes alone. The
/// decoder calls itself for each bundle within a bundle, which a datagram of
/// [`MTU`] bytes keeps shallow.
#[verifier::external_body]
fn decode_udp(bytes: &[u8]) -> (r: Result<rosc::OscPacket, String>)
    requires
        bytes@.len() <= MTU,
    ensures
        match r {
            Ok(packet) => osc_decoded(bytes@) == Ok::<PacketView, Seq<char>>(
                packet_content(packet),
            ),
            Err(words) => osc_decoded(bytes@) == Err::<PacketView, Seq<char>>(words@),
        },
{
    match rosc::decoder::decode_udp(bytes) {
        Ok((_, packet)) => Ok(packet),
        Err(e) => Err(format!("{}", e)),
    }
}

/// Takes the message addresses and the nesting of bundles out of a packet of
/// `rosc`, which has them in its public fields `addr` and `content`.
#[verifier::external_body]
fn from_rosc(packet: rosc::OscPacket) -> (r: Packet)
    ensures
        r@ == packet_content(packet),
{
    match packet {
        rosc::OscPacket::Message(message) => Packet::Message(message.addr),
        rosc::OscPacket::Bundle(bundle) => Packet::Bundle(
            bundle.content.into_iter().map(from_rosc).collect(),
        ),
    }
}

/// Reads a datagram as an OSC packet.
pub fn decode(bytes: &[u8]) -> (r: Result<Packet, DecodeError>)
    ensures
        match r {
            Ok(packet) => bytes@.len() <= MTU && osc_decoded(bytes@) == Ok::<
                PacketView,
                Seq<char>,
            >(packet@),
            Err(DecodeError::TooLong(n)) => n == bytes@.len() && n > MTU,
            Err(DecodeError::Malformed(words)) => bytes@.len() <= MTU && osc_decoded(bytes@)
                == Err::<PacketView, Seq<char>>(words@),
        },
{
    if bytes.len() > MTU {
        return Err(DecodeError::TooLong(bytes.len()));
    }
    match decode_udp(bytes) {
        Ok(packet) => Ok(from_rosc(packet)),
        Err(words) => Err(DecodeError::Malformed(words)),
    }
}

/// The actions that a datagram asks for.
pub fn actions_in_datagram(bytes: &[u8]) -> (r: Result<Vec<Action>, DecodeError>)
    ensures
        match r {
            Ok(actions) => bytes@.len() <= MTU && osc_decoded(bytes@) is Ok && actions@
                == handled(osc_decoded(bytes@)->Ok_0),
            Err(DecodeError::TooLong(n)) => n == bytes@.len() && n > MTU,
            Err(DecodeError::Malformed(words)) => bytes@.len() <= MTU && osc_decoded(bytes@)
                == Err::<PacketView, Seq<char>>(words@),
        },
{
    match decode(bytes) {
        Ok(packet) => Ok(handle_packet(&packet)),
        Err(e) => Err(e),
    }
}

/// An OSC string: the text in UTF-8, then one to four zero bytes, so many
/// that the length is a multiple of four.
pub open spec fn osc_string(text: Seq<char>) -> Seq<u8> {
    let bytes = encode_utf8(text);
    bytes + Seq::new((4 - bytes.len() % 4) as nat, |i: int| 0u8)
}

/// The type tags of a message with `count` string arguments: a comma and an
/// `s` for each argument.
pub open spec fn type_tags(count: nat) -> Seq<char> {
    seq![','] + Seq::new(count, |i: int| 's')
}

/// The texts as OSC strings, one after the other.
pub open spec fn osc_strings(texts: Seq<Seq<char>>) -> Seq<u8>
    decreases texts.len(),
{
    if texts.len() == 0 {
        Seq::empty()
    } else {
        osc_strings(texts.drop_last()) + osc_string(texts.last())
    }
}

/// The bytes of an OSC message to `address` whose arguments are the strings
/// `arguments`: the address, the type tags and the arguments, each as an OSC
/// string.
pub open spec fn osc_message(address: Seq<char>, arguments: Seq<Seq<char>>) -> Seq<u8> {
    osc_string(address) + osc_string(type_tags(arguments.len())) + osc_strings(arguments)
}

/// `rosc::encoder::encode`, for a message to `address` with the string
/// arguments `arguments`: the bytes of the message. Encoding into a byte
/// vector cannot fail.
#[verifier::external_body]
fn encode_message(address: &str, arguments: &Vec<String>) -> (r: Vec<u8>)
    ensures
        r@ == osc_message(address@, arguments.deep_view()),
{
    let args = arguments.iter().map(|text| rosc::OscType::String(text.clone())).collect();
    let message = rosc::OscMessage { addr: address.to_string(), args };
    rosc::encoder::encode(&rosc::OscPacket::Message(message)).unwrap_or_default()
}

/// The address and the arguments of the message that tells of `action`: a
/// start and a stop are acknowledged under their own address without
/// arguments, a failure is reported with its text as the one argument.
pub open spec fn notice(action: Action) -> (Seq<char>, Seq<Seq<char>>) {
    match action {
        Action::Start => (START_ADDRESS@, Seq::empty()),
        Action::Stop => (STOP_ADDRESS@, Seq::empty()),
        Action::Error(text) => (ERROR_ADDRESS@, seq![text@]),
    }
}

/// The datagram that tells of `action`.
pub fn notification(action: &Action) -> (r: Vec<u8>)
    ensures
        r@ == osc_message(notice(*action).0, notice(*action).1),
{
    let mut arguments: Vec<String> = Vec::new();
    let address = match action {
        Action::Start => START_ADDRESS,
        Action::Stop => STOP_ADDRESS,
        Action::Error(text) => {
            arguments.push(text.clone());
            ERROR_ADDRESS
        },
    };
    assert(arguments.deep_view() =~= notice(*action).1);
    encode_message(address, &arguments)
}

} // verus!
