use smrec::config::{
    choose_channels_to_record, choose_device, choose_host, config_file_path,
    default_channel_name, parse_channel_key, recording_directory, Choice, RecordingPlan,
    SmrecConfig, Timestamp,
};
use smrec::error::ConfigError;
use smrec::wav::{SampleFormat, StreamConfig, WavSampleFormat, WavSpec};
use std::collections::HashMap;

fn names(list: &[&str]) -> Vec<String> {
    list.iter().map(|s| s.to_string()).collect()
}

fn stream(channels: u16) -> StreamConfig {
    StreamConfig { channels, sample_rate: 48000, sample_format: SampleFormat::I16 }
}

#[test]
fn all_channels_are_recorded_by_default() {
    assert_eq!(choose_channels_to_record(None, None, 4), Ok(vec![0, 1, 2, 3]));
    assert_eq!(choose_channels_to_record(None, None, 1), Ok(vec![0]));
    assert_eq!(choose_channels_to_record(None, None, 0), Ok(vec![]));
}

#[test]
fn included_channels_count_from_one() {
    assert_eq!(choose_channels_to_record(Some(vec![1, 2]), None, 4), Ok(vec![0, 1]));
    assert_eq!(choose_channels_to_record(Some(vec![2, 4]), None, 4), Ok(vec![1, 3]));
    assert_eq!(choose_channels_to_record(Some(vec![4, 2, 4]), None, 4), Ok(vec![1, 3]));
    assert_eq!(choose_channels_to_record(Some(vec![]), None, 4), Ok(vec![]));
}

#[test]
fn excluded_channels_are_left_out() {
    assert_eq!(choose_channels_to_record(None, Some(vec![1]), 4), Ok(vec![1, 2, 3]));
    assert_eq!(choose_channels_to_record(None, Some(vec![4, 2]), 4), Ok(vec![0, 2]));
    assert_eq!(choose_channels_to_record(None, Some(vec![]), 2), Ok(vec![0, 1]));
    assert_eq!(choose_channels_to_record(None, Some(vec![2, 1]), 2), Ok(vec![]));
}

#[test]
fn both_lists_together_are_refused() {
    assert_eq!(
        choose_channels_to_record(Some(vec![1]), Some(vec![2]), 4),
        Err(ConfigError::IncludeAndExclude)
    );
    assert_eq!(
        choose_channels_to_record(Some(vec![]), Some(vec![]), 0),
        Err(ConfigError::IncludeAndExclude)
    );
}

#[test]
fn a_channel_that_does_not_exist_is_refused() {
    assert_eq!(
        choose_channels_to_record(None, Some(vec![1, 5, 9]), 4),
        Err(ConfigError::NoSuchChannel(5))
    );
    assert_eq!(
        choose_channels_to_record(None, Some(vec![0]), 4),
        Err(ConfigError::NoSuchChannel(0))
    );
    assert_eq!(
        choose_channels_to_record(None, Some(vec![2, 3, 2]), 4),
        Err(ConfigError::NoSuchChannel(2))
    );
    assert_eq!(
        choose_channels_to_record(Some(vec![1, 5]), None, 4),
        Err(ConfigError::NoSuchChannel(5))
    );
    assert_eq!(
        choose_channels_to_record(Some(vec![0, 9]), None, 4),
        Err(ConfigError::NoSuchChannel(0))
    );
    assert_eq!(
        choose_channels_to_record(Some(vec![usize::MAX]), None, u16::MAX),
        Err(ConfigError::NoSuchChannel(usize::MAX))
    );
}

#[test]
fn the_host_is_chosen_by_name() {
    let hosts = names(&["Alsa", "Jack", "Alsa"]);
    assert_eq!(choose_host(None, &hosts), Ok(Choice::Default));
    assert_eq!(choose_host(None, &vec![]), Ok(Choice::Default));
    assert_eq!(choose_host(Some("Jack".to_string()), &hosts), Ok(Choice::Listed(1)));
    assert_eq!(choose_host(Some("Alsa".to_string()), &hosts), Ok(Choice::Listed(0)));
    assert_eq!(
        choose_host(Some("Asio".to_string()), &hosts),
        Err(ConfigError::UnknownHost("Asio".to_string()))
    );
    assert_eq!(
        choose_host(Some("jack".to_string()), &hosts),
        Err(ConfigError::UnknownHost("jack".to_string()))
    );
}

#[test]
fn the_device_is_chosen_by_name() {
    let devices = names(&["MacBook Pro Microphone", "UMC1820", ""]);
    assert_eq!(choose_device(None, &devices), Ok(Choice::Default));
    assert_eq!(choose_device(Some("UMC1820".to_string()), &devices), Ok(Choice::Listed(1)));
    assert_eq!(choose_device(Some("".to_string()), &devices), Ok(Choice::Listed(2)));
    assert_eq!(
        choose_device(Some("UMC".to_string()), &devices),
        Err(ConfigError::UnknownDevice("UMC".to_string()))
    );
}

#[test]
fn channel_keys_are_numbers_from_one() {
    assert_eq!(parse_channel_key("1"), Ok(1));
    assert_eq!(parse_channel_key("8"), Ok(8));
    assert_eq!(parse_channel_key("+12"), Ok(12));
    assert_eq!(parse_channel_key("007"), Ok(7));
    assert_eq!(parse_channel_key("0"), Err(ConfigError::ZeroChannelKey));
    assert_eq!(parse_channel_key("+000"), Err(ConfigError::ZeroChannelKey));
    for bad in ["", "+", "-1", "1 ", " 1", "1_0", "one", "1.0", "++1", "1+", "\u{661}"] {
        assert_eq!(
            parse_channel_key(bad),
            Err(ConfigError::InvalidChannelKey(bad.to_string()))
        );
    }
    assert_eq!(parse_channel_key(&usize::MAX.to_string()), Ok(usize::MAX));
    let beyond = format!("{}0", usize::MAX);
    assert_eq!(
        parse_channel_key(&beyond),
        Err(ConfigError::InvalidChannelKey(beyond.clone()))
    );
    let above = format!("{}", usize::MAX as u128 + 1);
    assert_eq!(parse_channel_key(&above), Err(ConfigError::InvalidChannelKey(above.clone())));
}

#[test]
fn channel_keys_are_read_as_the_standard_library_reads_them() {
    let pieces = ["", "+", "-", "0", "1", "9", "10", "00", " ", "a", "18446744073709551615", "18446744073709551616"];
    for a in pieces {
        for b in pieces {
            let key = format!("{}{}", a, b);
            let expected = key.parse::<usize>().ok();
            match parse_channel_key(&key) {
                Ok(n) => assert_eq!(expected, Some(n)),
                Err(ConfigError::ZeroChannelKey) => assert_eq!(expected, Some(0)),
                Err(ConfigError::InvalidChannelKey(text)) => {
                    assert_eq!(expected, None);
                    assert_eq!(text, key);
                }
                Err(other) => panic!("unexpected: {:?}", other),
            }
        }
    }
}

#[test]
fn the_directory_is_named_after_the_time() {
    let now = Timestamp { year: 2024, month: 3, day: 9, hour: 7, minute: 5, second: 0 };
    assert_eq!(recording_directory(&now), "rec_20240309_070500");
    let now = Timestamp { year: 1999, month: 12, day: 31, hour: 23, minute: 59, second: 59 };
    assert_eq!(recording_directory(&now), "rec_19991231_235959");
    let now = Timestamp { year: 7, month: 1, day: 1, hour: 0, minute: 0, second: 0 };
    assert_eq!(recording_directory(&now), "rec_00070101_000000");
    let now = Timestamp { year: 12345, month: 100, day: 0, hour: 1, minute: 2, second: 3 };
    assert_eq!(recording_directory(&now), "rec_1234510000_010203");
    let now = Timestamp {
        year: u32::MAX,
        month: u32::MAX,
        day: 10,
        hour: 9,
        minute: 99,
        second: 100,
    };
    assert_eq!(recording_directory(&now), "rec_4294967295429496729510_0999100");
    let now = Timestamp { year: 2024, month: 3, day: 9, hour: 7, minute: 5, second: 0 };
    assert_eq!(
        recording_directory(&now),
        format!(
            "rec_{:04}{:02}{:02}_{:02}{:02}{:02}",
            now.year, now.month, now.day, now.hour, now.minute, now.second
        )
    );
}

#[test]
fn channels_without_a_name_get_their_number() {
    assert_eq!(default_channel_name(1), "chn_1.wav");
    assert_eq!(default_channel_name(18), "chn_18.wav");
    assert_eq!(default_channel_name(0), "chn_0.wav");
    assert_eq!(default_channel_name(usize::MAX), format!("chn_{}.wav", usize::MAX));
}

#[test]
fn the_configuration_file_is_looked_for_in_three_places() {
    assert_eq!(
        config_file_path(Some("./my.toml".to_string()), true, Some("/home/me".to_string())),
        Ok("./my.toml".to_string())
    );
    assert_eq!(
        config_file_path(None, true, Some("/home/me".to_string())),
        Ok("./.smrec/config.toml".to_string())
    );
    assert_eq!(config_file_path(None, true, None), Ok("./.smrec/config.toml".to_string()));
    let expected = camino::Utf8Path::new("/home/me").join(".smrec").join("config.toml");
    assert_eq!(
        config_file_path(None, false, Some("/home/me".to_string())),
        Ok(expected.into_string())
    );
    assert_eq!(config_file_path(None, false, None), Err(ConfigError::NoHomeDirectory));
}

#[test]
fn recorded_channels_are_named() {
    let config = SmrecConfig::new(None, None, vec![0, 2, 3], stream(4));
    assert_eq!(config.channels_to_record(), &vec![0, 2, 3]);
    assert_eq!(config.channel_count(), 3);
    assert_eq!(config.supported_cpal_stream_config(), stream(4));
    assert_eq!(
        config.get_channel_name_from_0_indexed_channel_num(0),
        Ok("chn_1.wav".to_string())
    );
    assert_eq!(
        config.get_channel_name_from_0_indexed_channel_num(3),
        Ok("chn_4.wav".to_string())
    );
    assert_eq!(
        config.get_channel_name_from_0_indexed_channel_num(1),
        Err(ConfigError::NoSuchChannel(2))
    );
    assert_eq!(
        config.get_channel_name_from_0_indexed_channel_num(9),
        Err(ConfigError::NoSuchChannel(10))
    );
}

#[test]
fn the_names_of_the_user_come_first() {
    let mut table = HashMap::new();
    table.insert(1, "kick.wav".to_string());
    table.insert(2, "snare.wav".to_string());
    table.insert(9, "unused.wav".to_string());
    let config = SmrecConfig::new(Some(table), Some("/tmp".to_string()), vec![0, 2], stream(4));
    assert_eq!(
        config.get_channel_name_from_0_indexed_channel_num(0),
        Ok("kick.wav".to_string())
    );
    assert_eq!(
        config.get_channel_name_from_0_indexed_channel_num(1),
        Ok("snare.wav".to_string())
    );
    assert_eq!(
        config.get_channel_name_from_0_indexed_channel_num(2),
        Ok("chn_3.wav".to_string())
    );
    assert_eq!(
        config.get_channel_name_from_0_indexed_channel_num(8),
        Ok("unused.wav".to_string())
    );
    assert_eq!(
        config.get_channel_name_from_0_indexed_channel_num(3),
        Err(ConfigError::NoSuchChannel(4))
    );
    assert_eq!(config.base_path(), "/tmp");
}

#[test]
fn a_recording_is_planned_under_the_base_directory() {
    let mut table = HashMap::new();
    table.insert(2, "snare.wav".to_string());
    let config = SmrecConfig::new(Some(table), Some("/music".to_string()), vec![0, 1], stream(2));
    let now = Timestamp { year: 2024, month: 3, day: 9, hour: 7, minute: 5, second: 0 };
    let directory = camino::Utf8Path::new("/music").join("rec_20240309_070500");
    assert_eq!(
        config.writers(true, &now),
        Ok(RecordingPlan {
            directory: directory.clone().into_string(),
            files: vec![
                directory.join("chn_1.wav").into_string(),
                directory.join("snare.wav").into_string(),
            ],
            spec: WavSpec {
                channels: 1,
                sample_rate: 48000,
                bits_per_sample: 16,
                sample_format: WavSampleFormat::Int,
            },
        })
    );
    assert_eq!(
        config.writers(false, &now),
        Err(ConfigError::MissingOutputPath("/music".to_string()))
    );
}

#[test]
fn without_an_output_path_the_working_directory_is_used() {
    let config = SmrecConfig::new(None, None, vec![1], stream(2));
    assert_eq!(config.base_path(), ".");
    let now = Timestamp { year: 2000, month: 1, day: 2, hour: 3, minute: 4, second: 5 };
    let plan = config.writers(true, &now).unwrap();
    let directory = camino::Utf8Path::new(".").join("rec_20000102_030405");
    assert_eq!(plan.directory, directory.as_str());
    assert_eq!(plan.files, vec![directory.join("chn_2.wav").into_string()]);
    assert_eq!(
        config.writers(false, &now),
        Err(ConfigError::MissingOutputPath(".".to_string()))
    );
    let nothing = SmrecConfig::new(None, None, vec![], stream(2));
    assert_eq!(nothing.writers(true, &now).unwrap().files, Vec::<String>::new());
}

#[test]
fn deserialize_external_config() {
    let config: &str = r#"
        [channel_names]
        1 = "channel_1.wav"
        2 = "channel_2.wav"
        3 = "channel_3.wav"
        4 = "channel_4.wav"
        5 = "channel_5.wav"
        6 = "channel_6.wav"
        7 = "channel_7.wav"
        8 = "channel_8.wav"
        "#;

    let file: toml::Table = toml::from_str(config).unwrap();
    let mut table = HashMap::new();
    for (key, value) in file["channel_names"].as_table().unwrap() {
        table.insert(
            parse_channel_key(key).unwrap(),
            value.as_str().unwrap().to_string(),
        );
    }
    let config = SmrecConfig::new(Some(table), None, vec![0, 3, 7], stream(8));
    for channel in 0..8 {
        assert_eq!(
            config.get_channel_name_from_0_indexed_channel_num(channel),
            Ok(format!("channel_{}.wav", channel + 1))
        );
    }
    assert_eq!(
        config.get_channel_name_from_0_indexed_channel_num(8),
        Err(ConfigError::NoSuchChannel(9))
    );
}
