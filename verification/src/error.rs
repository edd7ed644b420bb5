//! What can go wrong while the recorder is set up.

use vstd::prelude::*;

verus! {

/// A rule of the mapping grammar did not match the text it was given.
#[derive(Debug, Clone, Copy, PartialEq, Eq)]
pub struct ParseError;

/// A mistake in what the user configured. Fatal at startup.
#[derive(Debug, Clone, PartialEq, Eq)]
pub enum ConfigError {
    /// A MIDI mapping string is malformed; the field holds the text at which
    /// the parser could not go on.
    Syntax(String),
    /// A MIDI mapping names the channel held in the field, which is neither
    /// one of the sixteen channels, 0 to 15, nor any channel.
    NoSuchMidiChannel(u8),
    /// No port matches the pattern held in the field.
    NoMatchingPort(String),
    /// A list of included and a list of excluded channels were both given.
    IncludeAndExclude,
    /// The channel to exclude, counted from one, does not exist.
    NoSuchChannel(usize),
    /// No audio host has the name held in the field.
    UnknownHost(String),
    /// No audio device has the name held in the field.
    UnknownDevice(String),
    /// The base directory for recordings, held in the field, does not exist.
    MissingOutputPath(String),
    /// The user's home directory could not be determined.
    NoHomeDirectory,
    /// A key of the table of channel names, held in the field, is not a
    /// whole number.
    InvalidChannelKey(String),
    /// A key of the table of channel names is zero; channels count from one.
    ZeroChannelKey,
}

} // verus!
