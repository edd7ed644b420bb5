//! What the user configures: which channels are recorded, under which names
//! and where.

pub mod names;
pub mod paths;

pub use crate::config::names::{default_channel_name, parse_channel_key};
pub use crate::config::paths::{config_file_path, recording_directory, Timestamp, LOCAL_CONFIG};

use std::collections::HashMap;
use vstd::prelude::*;
use crate::config::names::default_name;
use crate::config::paths::{directory_name, join_path, joined_path};
use crate::error::ConfigError;
use crate::text::same_text;
use crate::wav::{spec_from_config, wav_spec, StreamConfig, WavSpec};

verus! {

broadcast use vstd::std_specs::hash::group_hash_axioms;

/// The channels that are recorded, counted from zero: in rising order, none
/// twice, each a channel of a device with `count` channels.
pub open spec fn is_channel_set(channels: Seq<usize>, count: nat) -> bool {
    &&& forall|i: int| 0 <= i < channels.len() ==> #[trigger] channels[i] < count
    &&& forall|i: int, j: int| 0 <= i < j < channels.len() ==> channels[i] < channels[j]
}

/// Whether `list`, which counts channels from one, names the channel that is
/// `channel` when counted from zero.
pub open spec fn lists(list: Seq<usize>, channel: int) -> bool {
    exists|i: int| 0 <= i < list.len() && #[trigger] list[i] == channel + 1
}

/// Of the first `count` channels those that `list` names (`keep`) or those
/// that it does not name.
pub open spec fn chosen(list: Seq<usize>, keep: bool, count: nat) -> Seq<usize>
    decreases count,
{
    if count == 0 {
        Seq::empty()
    } else if lists(list, count - 1) == keep {
        chosen(list, keep, (count - 1) as nat).push((count - 1) as usize)
    } else {
        chosen(list, keep, (count - 1) as nat)
    }
}

/// Whether the entry at `at` names no channel of a device with `count`
/// channels, or, where entries must be `unique`, repeats an earlier entry.
pub open spec fn misnamed(list: Seq<usize>, count: nat, unique: bool, at: int) -> bool {
    ||| list[at] == 0
    ||| list[at] > count
    ||| unique && exists|j: int| 0 <= j < at && #[trigger] list[j] == list[at]
}

/// The first entry of `list` that is misnamed, if any is.
pub open spec fn first_misnamed(list: Seq<usize>, count: nat, unique: bool) -> Option<int>
    decreases list.len(),
{
    if list.len() == 0 {
        None
    } else if first_misnamed(list.drop_last(), count, unique) is Some {
        first_misnamed(list.drop_last(), count, unique)
    } else if misnamed(list, count, unique, list.len() - 1) {
        Some(list.len() - 1)
    } else {
        None
    }
}

/// What is chosen is a set of channels.
pub proof fn lemma_chosen_is_channel_set(list: Seq<usize>, keep: bool, count: nat)
    requires
        count <= usize::MAX,
    ensures
        is_channel_set(chosen(list, keep, count), count),
    decreases count,
{
    if count > 0 {
        lemma_chosen_is_channel_set(list, keep, (count - 1) as nat);
    }
}

/// Whether `channels` are a set of channels of a device with `count`
/// channels.
pub fn is_recorded_channel_set(channels: &Vec<usize>, count: u16) -> (r: bool)
    ensures
        r == is_channel_set(channels@, count as nat),
{
    let mut i: usize = 0;
    while i < channels.len()
        invariant
            i <= channels.len(),
            forall|k: int| 0 <= k < i ==> #[trigger] channels[k] < count,
            forall|k: int| 0 < k < i ==> channels[k - 1] < #[trigger] channels[k],
        decreases channels.len() - i,
    {
        if channels[i] >= count as usize || (i > 0 && channels[i - 1] >= channels[i]) {
            assert(!is_channel_set(channels@, count as nat)) by {
                if channels[i as int] < count {
                    assert(!(channels[i - 1] < channels[i as int]));
                }
            }
            return false;
        }
        i += 1;
    }
    assert(is_channel_set(channels@, count as nat)) by {
        assert forall|a: int, b: int| 0 <= a < b < channels.len() implies channels[a]
            < channels[b] by {
            lemma_rising(channels@, a, b);
        }
    }
    true
}

/// Where each entry is above the one before it, each is above all before it.
proof fn lemma_rising(channels: Seq<usize>, a: int, b: int)
    requires
        0 <= a < b < channels.len(),
        forall|k: int| 0 < k < channels.len() ==> channels[k - 1] < #[trigger] channels[k],
    ensures
        channels[a] < channels[b],
    decreases b - a,
{
    if a + 1 < b {
        lemma_rising(channels, a, b - 1);
    }
}

/// Whether `list` names the channel `channel`.
fn names_channel(list: &Vec<usize>, channel: usize) -> (r: bool)
    requires
        channel < usize::MAX,
    ensures
        r == lists(list@, channel as int),
{
    let mut i: usize = 0;
    while i < list.len()
        invariant
            i <= list.len(),
            channel < usize::MAX,
            forall|k: int| 0 <= k < i ==> #[trigger] list[k] != channel + 1,
        decreases list.len() - i,
    {
        if list[i] == channel + 1 {
            return true;
        }
        i += 1;
    }
    false
}

/// Whether the entry at `at` stands in `list` before `at` too.
fn repeats(list: &Vec<usize>, at: usize) -> (r: bool)
    requires
        at < list.len(),
    ensures
        r == exists|j: int| 0 <= j < at && #[trigger] list[j] == list[at as int],
{
    let mut j: usize = 0;
    while j < at
        invariant
            j <= at < list.len(),
            forall|k: int| 0 <= k < j ==> #[trigger] list[k] != list[at as int],
        decreases at - j,
    {
        if list[j] == list[at] {
            return true;
        }
        j += 1;
    }
    false
}

/// The position of the first misnamed entry of `list`.
fn find_misnamed(list: &Vec<usize>, count: usize, unique: bool) -> (r: Option<usize>)
    ensures
        match first_misnamed(list@, count as nat, unique) {
            Some(at) => r == Some(at as usize) && 0 <= at < list.len(),
            None => r is None,
        },
{
    let mut i: usize = 0;
    while i < list.len()
        invariant
            i <= list.len(),
            first_misnamed(list@.take(i as int), count as nat, unique) is None,
        decreases list.len() - i,
    {
        let entry = list[i];
        let bad = entry == 0 || entry > count || (unique && repeats(list, i));
        let ghost upto = list@.take(i + 1);
        proof {
            assert(upto.drop_last() =~= list@.take(i as int));
            assert(misnamed(upto, count as nat, unique, i as int) == bad) by {
                if exists|j: int| 0 <= j < i && #[trigger] list[j] == list[i as int] {
                    let j = choose|j: int| 0 <= j < i && #[trigger] list[j] == list[i as int];
                    assert(upto[j] == upto[i as int]);
                }
                if exists|j: int| 0 <= j < i && #[trigger] upto[j] == upto[i as int] {
                    let j = choose|j: int| 0 <= j < i && #[trigger] upto[j] == upto[i as int];
                }
            }
        }
        if bad {
            proof {
                lemma_first_misnamed_stays(list@, count as nat, unique, i + 1);
            }
            return Some(i);
        }
        i += 1;
    }
    assert(list@.take(list.len() as int) =~= list@);
    None
}

/// The first misnamed entry of the front of a list is that of the list.
proof fn lemma_first_misnamed_stays(list: Seq<usize>, count: nat, unique: bool, n: int)
    requires
        0 <= n <= list.len(),
        first_misnamed(list.take(n), count, unique) is Some,
    ensures
        first_misnamed(list, count, unique) == first_misnamed(list.take(n), count, unique),
    decreases list.len() - n,
{
    if n == list.len() {
        assert(list.take(n) =~= list);
    } else {
        assert(list.drop_last().take(n) =~= list.take(n));
        lemma_first_misnamed_stays(list.drop_last(), count, unique, n);
    }
}

/// Of the `count` channels those that `list` names, or those that it does not
/// name.
fn choose_listed(list: &Vec<usize>, keep: bool, count: usize) -> (r: Vec<usize>)
    ensures
        r@ == chosen(list@, keep, count as nat),
{
    let mut out: Vec<usize> = Vec::new();
    let mut channel: usize = 0;
    while channel < count
        invariant
            channel <= count,
            out@ == chosen(list@, keep, channel as nat),
        decreases count - channel,
    {
        if names_channel(list, channel) == keep {
            out.push(channel);
        }
        channel += 1;
    }
    out
}

/// Chooses which of the `channels` channels of the device are recorded. The
/// two lists count channels from one; the result counts them from zero.
///
/// With a list of included channels, the channels that it names are recorded;
/// with a list of excluded channels, all but those that it names; without a
/// list, all. Both
/// lists at once are an error, and so is an entry that names no channel of
/// the device, or an excluded channel that was excluded before.
pub fn choose_channels_to_record(
    included: Option<Vec<usize>>,
    excluded: Option<Vec<usize>>,
    channels: u16,
) -> (r: Result<Vec<usize>, ConfigError>)
    ensures
        match (included, excluded) {
            (Some(_), Some(_)) => r matches Err(ConfigError::IncludeAndExclude),
            (Some(list), None) => match first_misnamed(list@, channels as nat, false) {
                Some(at) => r matches Err(ConfigError::NoSuchChannel(n)) && n == list@[at],
                None => r matches Ok(found) && found@ == chosen(list@, true, channels as nat),
            },
            (None, Some(list)) => match first_misnamed(list@, channels as nat, true) {
                Some(at) => r matches Err(ConfigError::NoSuchChannel(n)) && n == list@[at],
                None => r matches Ok(found) && found@ == chosen(list@, false, channels as nat),
            },
            (None, None) => r matches Ok(found) && found@ == chosen(
                Seq::empty(),
                false,
                channels as nat,
            ),
        },
        r matches Ok(found) ==> is_channel_set(found@, channels as nat),
{
    let count = channels as usize;
    let (list, keep) = match (included, excluded) {
        (Some(_), Some(_)) => {
            return Err(ConfigError::IncludeAndExclude);
        },
        (Some(list), None) => (list, true),
        (None, Some(list)) => (list, false),
        (None, None) => (Vec::new(), false),
    };
    proof {
        lemma_chosen_is_channel_set(list@, keep, count as nat);
    }
    match find_misnamed(&list, count, !keep) {
        Some(at) => Err(ConfigError::NoSuchChannel(list[at])),
        None => Ok(choose_listed(&list, keep, count)),
    }
}

/// What is used of what the system offers.
#[derive(Debug, Clone, Copy, PartialEq, Eq, Structural)]
pub enum Choice {
    /// The system's default.
    Default,
    /// The one at this position of the list that the system offers.
    Listed(usize),
}

/// The position of the first of `names` that is `wanted`.
pub open spec fn first_named(names: Seq<Seq<char>>, wanted: Seq<char>) -> Option<int>
    decreases names.len(),
{
    if names.len() == 0 {
        None
    } else if first_named(names.drop_last(), wanted) is Some {
        first_named(names.drop_last(), wanted)
    } else if names.last() == wanted {
        Some(names.len() - 1)
    } else {
        None
    }
}

/// The position of the first of `names` that is `wanted`.
fn find_named(names: &Vec<String>, wanted: &str) -> (r: Option<usize>)
    ensures
        match first_named(names.deep_view(), wanted@) {
            Some(at) => r == Some(at as usize) && 0 <= at < names.len(),
            None => r is None,
        },
{
    let ghost all = names.deep_view();
    let mut i: usize = 0;
    while i < names.len()
        invariant
            i <= names.len(),
            all == names.deep_view(),
            first_named(all.take(i as int), wanted@) is None,
        decreases names.len() - i,
    {
        let ghost upto = all.take(i + 1);
        proof {
            assert(upto.drop_last() =~= all.take(i as int));
        }
        if same_text(names[i].as_str(), wanted) {
            proof {
                lemma_first_named_stays(all, wanted@, i + 1);
            }
            return Some(i);
        }
        i += 1;
    }
    assert(all.take(names.len() as int) =~= all);
    None
}

/// The first of the front of a list that has the name is the first of the
/// list that has it.
proof fn lemma_first_named_stays(names: Seq<Seq<char>>, wanted: Seq<char>, n: int)
    requires
        0 <= n <= names.len(),
        first_named(names.take(n), wanted) is Some,
    ensures
        first_named(names, wanted) == first_named(names.take(n), wanted),
    decreases names.len() - n,
{
    if n == names.len() {
        assert(names.take(n) =~= names);
    } else {
        assert(names.drop_last().take(n) =~= names.take(n));
        lemma_first_named_stays(names.drop_last(), wanted, n);
    }
}

/// Chooses the audio host: the first of the `available` hosts that is called
/// `host`, or the default host where no name is given. A name that no host
/// has is an error.
pub fn choose_host(host: Option<String>, available: &Vec<String>) -> (r: Result<
    Choice,
    ConfigError,
>)
    ensures
        match host {
            None => r matches Ok(Choice::Default),
            Some(name) => match first_named(available.deep_view(), name@) {
                Some(at) => r matches Ok(Choice::Listed(found)) && found == at,
                None => r matches Err(ConfigError::UnknownHost(unknown)) && unknown@ == name@,
            },
        },
{
    match host {
        None => Ok(Choice::Default),
        Some(name) => match find_named(available, name.as_str()) {
            Some(at) => Ok(Choice::Listed(at)),
            None => Err(ConfigError::UnknownHost(name)),
        },
    }
}

/// Chooses the audio device: the first of the host's `devices` that is
/// called `device`, or the default input device where no name is given. A
/// name that no device has is an error.
pub fn choose_device(device: Option<String>, devices: &Vec<String>) -> (r: Result<
    Choice,
    ConfigError,
>)
    ensures
        match device {
            None => r matches Ok(Choice::Default),
            Some(name) => match first_named(devices.deep_view(), name@) {
                Some(at) => r matches Ok(Choice::Listed(found)) && found == at,
                None => r matches Err(ConfigError::UnknownDevice(unknown)) && unknown@ == name@,
            },
        },
{
    match device {
        None => Ok(Choice::Default),
        Some(name) => match find_named(devices, name.as_str()) {
            Some(at) => Ok(Choice::Listed(at)),
            None => Err(ConfigError::UnknownDevice(name)),
        },
    }
}

/// The names of a table of channel names, as texts.
pub open spec fn texts(names: Map<usize, String>) -> Map<usize, Seq<char>> {
    names.map_values(|name: String| name@)
}

/// Whether the channel `number`, counted from one, is among the recorded
/// `channels`, which are counted from zero.
pub open spec fn records(channels: Seq<usize>, number: usize) -> bool {
    exists|i: int| 0 <= i < channels.len() && #[trigger] channels[i] + 1 == number
}

/// The table of channel names that is used: what the user's table holds, and
/// for each recorded channel that it leaves out the default name. The keys
/// count channels from one.
pub open spec fn named(loaded: Map<usize, Seq<char>>, channels: Seq<usize>) -> Map<
    usize,
    Seq<char>,
> {
    Map::new(
        |number: usize| loaded.contains_key(number) || records(channels, number),
        |number: usize|
            if loaded.contains_key(number) {
                loaded[number]
            } else {
                default_name(number as nat)
            },
    )
}

/// What is to be created for a recording: a directory, and in it one file
/// for each recorded channel.
#[derive(Debug, Clone, PartialEq, Eq)]
pub struct RecordingPlan {
    /// The path of the directory.
    pub directory: String,
    /// The paths of the files, in the order of the recorded channels.
    pub files: Vec<String>,
    /// The header that every file gets.
    pub spec: WavSpec,
}

/// The recorder's configuration: the recorded channels, their file names,
/// the directory under which recordings are put, and the input format.
#[derive(Debug, Clone)]
pub struct SmrecConfig {
    channel_names: HashMap<usize, String>,
    channels_to_record: Vec<usize>,
    out_path: Option<String>,
    stream_config: StreamConfig,
}

impl SmrecConfig {
    /// The file names by channel, counted from one.
    pub closed spec fn names(&self) -> Map<usize, Seq<char>> {
        texts(self.channel_names@)
    }

    /// The recorded channels, counted from zero.
    pub closed spec fn channels(&self) -> Seq<usize> {
        self.channels_to_record@
    }

    /// The directory under which recordings are put, where the user gave one.
    pub closed spec fn out(&self) -> Option<Seq<char>> {
        match self.out_path {
            Some(path) => Some(path@),
            None => None,
        }
    }

    /// The input format.
    pub closed spec fn stream(&self) -> StreamConfig {
        self.stream_config
    }

    /// What holds of every configuration: the recorded channels are a set of
    /// channels of the device, and each of them has a file name.
    pub open spec fn wf(&self) -> bool {
        &&& is_channel_set(self.channels(), self.stream().channels as nat)
        &&& forall|i: int|
            0 <= i < self.channels().len() ==> self.names().contains_key(
                (#[trigger] self.channels()[i] + 1) as usize,
            )
    }

    /// The directory under which recordings are put: the one that the user
    /// gave, or else the working directory.
    pub open spec fn base(&self) -> Seq<char> {
        match self.out() {
            Some(path) => path,
            None => seq!['.'],
        }
    }

    /// Makes the configuration. `channel_names` is the table of names from the
    /// user's configuration file, where there is one; each recorded channel
    /// that it does not name gets its default name.
    pub fn new(
        channel_names: Option<HashMap<usize, String>>,
        out_path: Option<String>,
        channels_to_record: Vec<usize>,
        stream_config: StreamConfig,
    ) -> (r: Self)
        requires
            is_channel_set(channels_to_record@, stream_config.channels as nat),
        ensures
            r.wf(),
            r.channels() == channels_to_record@,
            r.stream() == stream_config,
            r.out() == match out_path {
                Some(path) => Some(path@),
                None => None,
            },
            r.names() == named(
                match channel_names {
                    Some(table) => texts(table@),
                    None => Map::empty(),
                },
                channels_to_record@,
            ),
    {
        let mut names = match channel_names {
            Some(table) => table,
            None => HashMap::new(),
        };
        let ghost loaded = texts(names@);
        let ghost all = channels_to_record@;
        let mut i: usize = 0;
        while i < channels_to_record.len()
            invariant
                i <= channels_to_record.len(),
                all == channels_to_record@,
                is_channel_set(all, stream_config.channels as nat),
                forall|number: usize|
                    texts(names@).contains_key(number) <==> loaded.contains_key(number) || records(
                        all.take(i as int),
                        number,
                    ),
                forall|number: usize|
                    texts(names@).contains_key(number) ==> #[trigger] texts(names@)[number]
                        == if loaded.contains_key(number) {
                        loaded[number]
                    } else {
                        default_name(number as nat)
                    },
            decreases channels_to_record.len() - i,
        {
            let number = channels_to_record[i] + 1;
            let ghost before = texts(names@);
            let ghost upto = all.take(i + 1);
            if !names.contains_key(&number) {
                names.insert(number, default_channel_name(number));
            }
            proof {
                let after = texts(names@);
                assert(upto[i as int] + 1 == number);
                assert forall|n: usize| after.contains_key(n) <==> loaded.contains_key(n)
                    || records(upto, n) by {
                    assert(before.contains_key(n) <==> loaded.contains_key(n) || records(
                        all.take(i as int),
                        n,
                    ));
                    if n == number {
                        assert(records(upto, n));
                    }
                    if records(upto, n) {
                        let k = choose|k: int| 0 <= k < upto.len() && #[trigger] upto[k] + 1 == n;
                        if k < i {
                            assert(all.take(i as int)[k] + 1 == n);
                        }
                    }
                    if records(all.take(i as int), n) {
                        let k = choose|k: int|
                            0 <= k < i && #[trigger] all.take(i as int)[k] + 1 == n;
                    }
                }
                assert forall|n: usize| after.contains_key(n) implies #[trigger] after[n]
                    == if loaded.contains_key(n) {
                    loaded[n]
                } else {
                    default_name(n as nat)
                } by {
                    if n != number || before.contains_key(number) {
                        assert(after[n] == before[n]);
                    }
                }
            }
            i += 1;
        }
        let r = SmrecConfig { channel_names: names, channels_to_record, out_path, stream_config };
        proof {
            assert(all.take(all.len() as int) =~= all);
            let wanted = named(loaded, all);
            assert(r.names() =~= wanted);
            assert forall|k: int| 0 <= k < r.channels().len() implies r.names().contains_key(
                (#[trigger] r.channels()[k] + 1) as usize,
            ) by {
                assert(records(all, (all[k] + 1) as usize));
            }
        }
        r
    }

    /// The input format that was negotiated with the device.
    pub fn supported_cpal_stream_config(&self) -> (r: StreamConfig)
        ensures
            r == self.stream(),
    {
        self.stream_config
    }

    /// The recorded channels, counted from zero.
    pub fn channels_to_record(&self) -> (r: &Vec<usize>)
        ensures
            r@ == self.channels(),
    {
        &self.channels_to_record
    }

    /// The number of recorded channels.
    pub fn channel_count(&self) -> (r: usize)
        ensures
            r == self.channels().len(),
    {
        self.channels_to_record.len()
    }

    /// The file name of the channel `index`, counted from zero. A channel
    /// without a name is an error that holds its number, counted from one.
    pub fn get_channel_name_from_0_indexed_channel_num(&self, index: usize) -> (r: Result<
        String,
        ConfigError,
    >)
        requires
            index < usize::MAX,
        ensures
            match r {
                Ok(name) => self.names().contains_key((index + 1) as usize) && name@
                    == self.names()[(index + 1) as usize],
                Err(ConfigError::NoSuchChannel(n)) => n == index + 1 && !self.names().contains_key(
                    (index + 1) as usize,
                ),
                Err(_) => false,
            },
    {
        let number = index + 1;
        match self.channel_names.get(&number) {
            Some(name) => Ok(name.clone()),
            None => Err(ConfigError::NoSuchChannel(number)),
        }
    }

    /// The directory under which recordings are put.
    pub fn base_path(&self) -> (r: String)
        ensures
            r@ == self.base(),
    {
        proof {
            reveal_strlit(".");
        }
        let r = match &self.out_path {
            Some(path) => path.clone(),
            None => ".".to_owned(),
        };
        r
    }

    /// Plans the files of the recording that begins at `now`: a directory
    /// named after `now` under the base directory, and in it a file for each
    /// recorded channel, under the channel's name. `base_exists` says whether
    /// the base directory exists; without it nothing is recorded.
    pub fn writers(&self, base_exists: bool, now: &Timestamp) -> (r: Result<
        RecordingPlan,
        ConfigError,
    >)
        requires
            self.wf(),
        ensures
            match r {
                Ok(plan) => {
                    &&& base_exists
                    &&& plan.directory@ == joined_path(self.base(), directory_name(*now))
                    &&& plan.spec == wav_spec(self.stream())
                    &&& plan.files.len() == self.channels().len()
                    &&& forall|i: int|
                        0 <= i < plan.files.len() ==> (#[trigger] plan.files[i])@ == joined_path(
                            plan.directory@,
                            self.names()[(self.channels()[i] + 1) as usize],
                        )
                },
                Err(ConfigError::MissingOutputPath(path)) => !base_exists && path@ == self.base(),
                Err(_) => false,
            },
    {
        let base = self.base_path();
        if !base_exists {
            return Err(ConfigError::MissingOutputPath(base));
        }
        let directory = join_path(base.as_str(), recording_directory(now).as_str());
        let mut files: Vec<String> = Vec::new();
        let mut i: usize = 0;
        while i < self.channels_to_record.len()
            invariant
                i <= self.channels().len(),
                self.wf(),
                files.len() == i,
                forall|k: int|
                    0 <= k < i ==> (#[trigger] files[k])@ == joined_path(
                        directory@,
                        self.names()[(self.channels()[k] + 1) as usize],
                    ),
            decreases self.channels().len() - i,
        {
            let number = self.channels_to_record[i] + 1;
            match self.channel_names.get(&number) {
                Some(name) => {
                    files.push(join_path(directory.as_str(), name.as_str()));
                },
                None => {
                    assert(false);
                },
            }
            i += 1;
        }
        Ok(RecordingPlan { directory, files, spec: spec_from_config(&self.stream_config) })
    }
}

} // verus!
