use smrec::wav::{
    sample_format, spec_from_config, SampleFormat, StreamConfig, WavSampleFormat, WavSpec,
};

#[test]
fn floats_stay_floats_and_integers_stay_integers() {
    assert_eq!(sample_format(SampleFormat::F32), WavSampleFormat::Float);
    assert_eq!(sample_format(SampleFormat::F64), WavSampleFormat::Float);
    for format in [
        SampleFormat::I8,
        SampleFormat::I16,
        SampleFormat::I32,
        SampleFormat::I64,
        SampleFormat::U8,
        SampleFormat::U16,
        SampleFormat::U32,
        SampleFormat::U64,
    ] {
        assert_eq!(sample_format(format), WavSampleFormat::Int);
        assert!(!format.is_float());
    }
}

#[test]
fn sample_sizes() {
    assert_eq!(SampleFormat::I8.sample_size(), 1);
    assert_eq!(SampleFormat::U8.sample_size(), 1);
    assert_eq!(SampleFormat::I16.sample_size(), 2);
    assert_eq!(SampleFormat::U16.sample_size(), 2);
    assert_eq!(SampleFormat::I32.sample_size(), 4);
    assert_eq!(SampleFormat::U32.sample_size(), 4);
    assert_eq!(SampleFormat::F32.sample_size(), 4);
    assert_eq!(SampleFormat::I64.sample_size(), 8);
    assert_eq!(SampleFormat::U64.sample_size(), 8);
    assert_eq!(SampleFormat::F64.sample_size(), 8);
}

#[test]
fn every_file_is_mono_and_mirrors_the_hardware() {
    let config = StreamConfig { channels: 18, sample_rate: 48000, sample_format: SampleFormat::F32 };
    assert_eq!(
        spec_from_config(&config),
        WavSpec {
            channels: 1,
            sample_rate: 48000,
            bits_per_sample: 32,
            sample_format: WavSampleFormat::Float,
        }
    );
    let config = StreamConfig { channels: 2, sample_rate: 44100, sample_format: SampleFormat::I16 };
    assert_eq!(
        spec_from_config(&config),
        WavSpec {
            channels: 1,
            sample_rate: 44100,
            bits_per_sample: 16,
            sample_format: WavSampleFormat::Int,
        }
    );
    let config = StreamConfig { channels: 1, sample_rate: 8000, sample_format: SampleFormat::I8 };
    assert_eq!(spec_from_config(&config).bits_per_sample, 8);
    let config = StreamConfig { channels: 1, sample_rate: 8000, sample_format: SampleFormat::F64 };
    assert_eq!(spec_from_config(&config).bits_per_sample, 64);
}
