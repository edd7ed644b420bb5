//! The parameters of the files that are written: one mono WAV file for each
//! recorded channel, with the sample rate and the sample representation of
//! the hardware.

use vstd::prelude::*;

verus! {

/// The representation of one sample as the hardware delivers it.
#[derive(Debug, Clone, Copy, PartialEq, Eq, Structural)]
pub enum SampleFormat {
    I8,
    I16,
    I32,
    I64,
    U8,
    U16,
    U32,
    U64,
    F32,
    F64,
}

/// Whether the samples of a file are integers or floats.
#[derive(Debug, Clone, Copy, PartialEq, Eq, Structural)]
pub enum WavSampleFormat {
    Float,
    Int,
}

/// The input format that was negotiated with the device.
#[derive(Debug, Clone, Copy, PartialEq, Eq, Structural)]
pub struct StreamConfig {
    /// The number of channels of the device: the length of a frame.
    pub channels: u16,
    /// Frames per second.
    pub sample_rate: u32,
    pub sample_format: SampleFormat,
}

/// The header of a WAV file.
#[derive(Debug, Clone, Copy, PartialEq, Eq, Structural)]
pub struct WavSpec {
    pub channels: u16,
    pub sample_rate: u32,
    pub bits_per_sample: u16,
    pub sample_format: WavSampleFormat,
}

impl SampleFormat {
    /// The size of one sample in bytes.
    pub open spec fn size(self) -> nat {
        match self {
            SampleFormat::I8 | SampleFormat::U8 => 1,
            SampleFormat::I16 | SampleFormat::U16 => 2,
            SampleFormat::I32 | SampleFormat::U32 | SampleFormat::F32 => 4,
            SampleFormat::I64 | SampleFormat::U64 | SampleFormat::F64 => 8,
        }
    }

    /// Whether the samples are floating-point numbers.
    pub open spec fn float(self) -> bool {
        self == SampleFormat::F32 || self == SampleFormat::F64
    }

    /// The size of one sample in bytes.
    pub fn sample_size(&self) -> (r: usize)
        ensures
            r == self.size(),
    {
        match self {
            SampleFormat::I8 | SampleFormat::U8 => 1,
            SampleFormat::I16 | SampleFormat::U16 => 2,
            SampleFormat::I32 | SampleFormat::U32 | SampleFormat::F32 => 4,
            SampleFormat::I64 | SampleFormat::U64 | SampleFormat::F64 => 8,
        }
    }

    /// Whether the samples are floating-point numbers.
    pub fn is_float(&self) -> (r: bool)
        ensures
            r == self.float(),
    {
        match self {
            SampleFormat::F32 | SampleFormat::F64 => true,
            _ => false,
        }
    }
}

/// The header of the file that takes one channel of a stream of the format
/// `config`: one channel, the stream's sample rate, as many bits to a sample
/// as the hardware's samples have, floats where the hardware delivers
/// floats and integers where it does not.
pub open spec fn wav_spec(config: StreamConfig) -> WavSpec {
    WavSpec {
        channels: 1,
        sample_rate: config.sample_rate,
        bits_per_sample: (config.sample_format.size() * 8) as u16,
        sample_format: if config.sample_format.float() {
            WavSampleFormat::Float
        } else {
            WavSampleFormat::Int
        },
    }
}

/// Whether a file for samples of the hardware format `format` holds floats or
/// integers.
pub fn sample_format(format: SampleFormat) -> (r: WavSampleFormat)
    ensures
        r == if format.float() {
            WavSampleFormat::Float
        } else {
            WavSampleFormat::Int
        },
{
    if format.is_float() {
        WavSampleFormat::Float
    } else {
        WavSampleFormat::Int
    }
}

/// The header of the file that takes one channel of a stream of the format
/// `config`.
pub fn spec_from_config(config: &StreamConfig) -> (r: WavSpec)
    ensures
        r == wav_spec(*config),
{
    let bits: usize = config.sample_format.sample_size() * 8;
    WavSpec {
        channels: 1,
        sample_rate: config.sample_rate,
        bits_per_sample: bits as u16,
        sample_format: sample_format(config.sample_format),
    }
}

} // verus!
