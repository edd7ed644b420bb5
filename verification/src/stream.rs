//! The capture path: taking the recorded channels out of the interleaved
//! buffers that the audio engine hands over.

use vstd::prelude::*;
use crate::wav::SampleFormat;

verus! {

/// The samples of one channel in an interleaved buffer whose frames are
/// `stride` samples long: the sample at `channel` in the first frame, then
/// those of the frames behind it. A last frame that is cut short gives its
/// sample where it reaches the channel.
pub open spec fn column<T>(data: Seq<T>, stride: nat, channel: nat) -> Seq<T>
    decreases data.len(),
{
    if stride == 0 || channel >= data.len() {
        Seq::empty()
    } else if data.len() <= stride {
        seq![data[channel as int]]
    } else {
        seq![data[channel as int]] + column(data.skip(stride as int), stride, channel)
    }
}

/// One buffer for each recorded channel, in the order of `channels`, with
/// the samples of that channel.
pub open spec fn deinterleaved<T>(data: Seq<T>, stride: nat, channels: Seq<usize>) -> Seq<Seq<T>> {
    Seq::new(channels.len(), |k: int| column(data, stride, channels[k] as nat))
}

/// The buffers of `frames` samples each, put together frame by frame: the
/// first sample of every buffer, then the second of every buffer, and so on.
pub open spec fn interleaved<T>(buffers: Seq<Seq<T>>, frames: nat) -> Seq<T> {
    Seq::new(
        frames * buffers.len(),
        |i: int| buffers[i % (buffers.len() as int)][i / (buffers.len() as int)],
    )
}

/// The columns `channels` of a buffer of `frames` whole frames, frame by
/// frame and in the order of `channels`.
pub open spec fn selected<T>(data: Seq<T>, stride: nat, channels: Seq<usize>, frames: nat) -> Seq<
    T,
> {
    Seq::new(
        frames * channels.len(),
        |i: int|
            data[(i / (channels.len() as int)) * stride + channels[i % (channels.len() as int)]],
    )
}

/// In a buffer of whole frames a channel has one sample for each frame: that
/// of its place in the frame.
pub proof fn lemma_column_of_whole_frames<T>(data: Seq<T>, stride: nat, channel: nat, frames: nat)
    requires
        channel < stride,
        data.len() == stride * frames,
    ensures
        column(data, stride, channel).len() == frames,
        forall|f: int|
            0 <= f < frames ==> #[trigger] column(data, stride, channel)[f] == data[f * stride
                + channel],
    decreases frames,
{
    if frames == 0 {
        assert(stride * frames == 0) by (nonlinear_arith)
            requires
                frames == 0,
        ;
    } else {
        assert(stride * frames == stride * (frames - 1) + stride) by (nonlinear_arith);
        assert(stride * (frames - 1) >= 0) by (nonlinear_arith)
            requires
                frames >= 1,
        ;
        if frames == 1 {
            assert(stride * frames == stride) by (nonlinear_arith)
                requires
                    frames == 1,
            ;
            assert(0 * stride + channel == channel) by (nonlinear_arith);
        } else {
            assert(stride * (frames - 1) >= stride) by (nonlinear_arith)
                requires
                    frames >= 2,
            ;
            let rest = data.skip(stride as int);
            lemma_column_of_whole_frames(rest, stride, channel, (frames - 1) as nat);
            let whole = column(data, stride, channel);
            let tail = column(rest, stride, channel);
            assert(whole =~= seq![data[channel as int]] + tail);
            assert forall|f: int| 0 <= f < frames implies #[trigger] whole[f] == data[f * stride
                + channel] by {
                if f == 0 {
                    assert(0 * stride + channel == channel) by (nonlinear_arith);
                } else {
                    assert((f - 1) * stride + channel + stride == f * stride + channel)
                        by (nonlinear_arith);
                    assert((f - 1) * stride + channel < stride * (frames - 1))
                        by (nonlinear_arith)
                        requires
                            0 <= f - 1 < frames - 1,
                            channel < stride,
                    ;
                }
            }
        }
    }
}

/// Taking the recorded channels out of a buffer of whole frames and putting
/// them together again frame by frame gives the recorded columns of the
/// buffer, in the order of `channels`, for every frame.
pub proof fn lemma_deinterleave_interleave<T>(
    data: Seq<T>,
    stride: nat,
    channels: Seq<usize>,
    frames: nat,
)
    requires
        data.len() == stride * frames,
        forall|k: int| 0 <= k < channels.len() ==> #[trigger] channels[k] < stride,
    ensures
        interleaved(deinterleaved(data, stride, channels), frames) == selected(
            data,
            stride,
            channels,
            frames,
        ),
        forall|k: int|
            0 <= k < channels.len() ==> (#[trigger] deinterleaved(data, stride, channels)[k]).len()
                == frames,
{
    let buffers = deinterleaved(data, stride, channels);
    let count = channels.len() as int;
    assert forall|k: int| 0 <= k < channels.len() implies (#[trigger] buffers[k]).len()
        == frames by {
        lemma_column_of_whole_frames(data, stride, channels[k] as nat, frames);
    }
    let left = interleaved(buffers, frames);
    let right = selected(data, stride, channels, frames);
    assert forall|i: int| 0 <= i < left.len() implies left[i] == right[i] by {
        let k = i % count;
        let f = i / count;
        assert(0 <= k < count && 0 <= f < frames) by (nonlinear_arith)
            requires
                0 <= i < frames * count,
                k == i % count,
                f == i / count,
                count > 0,
        ;
        lemma_column_of_whole_frames(data, stride, channels[k] as nat, frames);
    }
}

/// The samples of `channel` in `data`, whose frames are `stride` samples
/// long.
fn take_column<T: Copy>(data: &[T], stride: usize, channel: usize) -> (r: Vec<T>)
    requires
        channel < stride,
    ensures
        r@ == column(data@, stride as nat, channel as nat),
{
    let mut out: Vec<T> = Vec::new();
    let mut base: usize = 0;
    assert(data@.skip(0) =~= data@);
    loop
        invariant_except_break
            out@ + column(data@.skip(base as int), stride as nat, channel as nat) == column(
                data@,
                stride as nat,
                channel as nat,
            ),
        invariant
            channel < stride,
            base <= data@.len(),
        ensures
            out@ == column(data@, stride as nat, channel as nat),
        decreases data@.len() - base,
    {
        let left = data.len() - base;
        let ghost rest = data@.skip(base as int);
        if channel >= left {
            break ;
        }
        let ghost before = out@;
        out.push(data[base + channel]);
        if left <= stride {
            break ;
        }
        assert(rest.skip(stride as int) =~= data@.skip(base + stride));
        assert(before + (seq![rest[channel as int]] + column(
            rest.skip(stride as int),
            stride as nat,
            channel as nat,
        )) =~= out@ + column(data@.skip(base + stride), stride as nat, channel as nat));
        base += stride;
    }
    out
}

/// Takes the recorded channels out of an interleaved buffer: one buffer for
/// each channel of `channels`, in their order, holding that channel's
/// samples frame by frame. `channel_count` is the number of channels of the
/// device, which is the length of a frame. The samples themselves are left
/// as they are.
pub fn deinterleave<T: Copy>(data: &[T], channel_count: usize, channels: &Vec<usize>) -> (r: Vec<
    Vec<T>,
>)
    requires
        forall|k: int| 0 <= k < channels.len() ==> #[trigger] channels[k] < channel_count,
    ensures
        r.len() == channels.len(),
        forall|k: int|
            0 <= k < channels.len() ==> (#[trigger] r[k])@ == deinterleaved(
                data@,
                channel_count as nat,
                channels@,
            )[k],
{
    let mut out: Vec<Vec<T>> = Vec::new();
    let mut k: usize = 0;
    while k < channels.len()
        invariant
            k <= channels.len(),
            out.len() == k,
            forall|j: int| 0 <= j < channels.len() ==> #[trigger] channels[j] < channel_count,
            forall|j: int|
                0 <= j < k ==> (#[trigger] out[j])@ == column(
                    data@,
                    channel_count as nat,
                    channels[j] as nat,
                ),
        decreases channels.len() - k,
    {
        out.push(take_column(data, channel_count, channels[k]));
        k += 1;
    }
    out
}

/// The sample representations that the recorder can capture.
#[derive(Debug, Clone, Copy, PartialEq, Eq, Structural)]
pub enum Capture {
    I8,
    I16,
    I32,
    F32,
}

/// The hardware delivers samples in a format that the recorder cannot
/// capture; the field holds the format.
#[derive(Debug, Clone, Copy, PartialEq, Eq, Structural)]
pub struct UnsupportedFormat(pub SampleFormat);

/// Which capture to build for a stream of the given sample format: signed
/// integers of 8, 16 and 32 bits and floats of 32 bits are captured as they
/// are; no other format is supported.
pub open spec fn capture_for(format: SampleFormat) -> Option<Capture> {
    match format {
        SampleFormat::I8 => Some(Capture::I8),
        SampleFormat::I16 => Some(Capture::I16),
        SampleFormat::I32 => Some(Capture::I32),
        SampleFormat::F32 => Some(Capture::F32),
        _ => None,
    }
}

/// Chooses the capture for a stream of the given sample format.
pub fn build(format: SampleFormat) -> (r: Result<Capture, UnsupportedFormat>)
    ensures
        match capture_for(format) {
            Some(capture) => r == Ok::<Capture, UnsupportedFormat>(capture),
            None => r == Err::<Capture, UnsupportedFormat>(UnsupportedFormat(format)),
        },
{
    match format {
        SampleFormat::I8 => Ok(Capture::I8),
        SampleFormat::I16 => Ok(Capture::I16),
        SampleFormat::I32 => Ok(Capture::I32),
        SampleFormat::F32 => Ok(Capture::F32),
        other => Err(UnsupportedFormat(other)),
    }
}

} // verus!
