use smrec::stream::{build, deinterleave, Capture, UnsupportedFormat};
use smrec::wav::SampleFormat;

fn interleave<T: Copy>(buffers: &[Vec<T>], frames: usize) -> Vec<T> {
    let mut out = Vec::new();
    for frame in 0..frames {
        for buffer in buffers {
            out.push(buffer[frame]);
        }
    }
    out
}

#[test]
fn two_of_four_channels_of_one_frame() {
    let frame = ['a', 'b', 'c', 'd'];
    assert_eq!(deinterleave(&frame, 4, &vec![1, 3]), vec![vec!['b'], vec!['d']]);
}

#[test]
fn every_frame_gives_each_recorded_channel_a_sample() {
    let data: Vec<i16> = (0..12).collect();
    assert_eq!(
        deinterleave(&data, 4, &vec![1, 3]),
        vec![vec![1, 5, 9], vec![3, 7, 11]]
    );
    assert_eq!(
        deinterleave(&data, 3, &vec![0, 1, 2]),
        vec![vec![0, 3, 6, 9], vec![1, 4, 7, 10], vec![2, 5, 8, 11]]
    );
    assert_eq!(deinterleave(&data, 12, &vec![11]), vec![vec![11]]);
    assert_eq!(deinterleave(&data, 1, &vec![0]), vec![data.clone()]);
    assert_eq!(deinterleave(&data, 4, &vec![]), Vec::<Vec<i16>>::new());
}

#[test]
fn taking_apart_and_putting_together_gives_the_recorded_columns() {
    for channel_count in 1..6usize {
        for frames in 0..5usize {
            let data: Vec<u32> = (0..(channel_count * frames) as u32).collect();
            for mask in 0..(1u32 << channel_count) {
                let channels: Vec<usize> =
                    (0..channel_count).filter(|c| mask & (1 << c) != 0).collect();
                let buffers = deinterleave(&data, channel_count, &channels);
                assert_eq!(buffers.len(), channels.len());
                for buffer in &buffers {
                    assert_eq!(buffer.len(), frames);
                }
                let mut expected = Vec::new();
                for frame in 0..frames {
                    for &channel in &channels {
                        expected.push(data[frame * channel_count + channel]);
                    }
                }
                assert_eq!(interleave(&buffers, frames), expected);
            }
        }
    }
}

#[test]
fn a_frame_that_is_cut_short_gives_what_it_has() {
    let data = [10, 11, 12, 13, 20, 21];
    assert_eq!(
        deinterleave(&data, 4, &vec![0, 1, 2, 3]),
        vec![vec![10, 20], vec![11, 21], vec![12], vec![13]]
    );
    assert_eq!(
        deinterleave(&data[..0], 4, &vec![0, 3]),
        vec![Vec::<i32>::new(), Vec::new()]
    );
    assert_eq!(deinterleave(&data[..2], 4, &vec![1, 2]), vec![vec![11], vec![]]);
}

#[test]
fn samples_are_left_as_they_are() {
    let data: [f32; 4] = [0.5, -1.0, 0.25, 1.0];
    assert_eq!(deinterleave(&data, 2, &vec![1]), vec![vec![-1.0f32, 1.0]]);
    let data: [i8; 4] = [-128, 127, 0, -1];
    assert_eq!(deinterleave(&data, 2, &vec![0, 1]), vec![vec![-128i8, 0], vec![127, -1]]);
}

#[test]
fn four_formats_are_captured() {
    assert_eq!(build(SampleFormat::I8), Ok(Capture::I8));
    assert_eq!(build(SampleFormat::I16), Ok(Capture::I16));
    assert_eq!(build(SampleFormat::I32), Ok(Capture::I32));
    assert_eq!(build(SampleFormat::F32), Ok(Capture::F32));
    for format in [
        SampleFormat::I64,
        SampleFormat::U8,
        SampleFormat::U16,
        SampleFormat::U32,
        SampleFormat::U64,
        SampleFormat::F64,
    ] {
        assert_eq!(build(format), Err(UnsupportedFormat(format)));
    }
}
