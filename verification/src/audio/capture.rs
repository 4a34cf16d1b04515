//! Capture settings, and the choice of a device and a stream format.

use vstd::prelude::*;

use crate::audio::names;
use crate::audio::names::tidy_names;
use crate::text;
use crate::text::{contains_text, same_text, to_lower, trim_text};

verus! {

/// The frame size of a new capture.
pub const DEFAULT_ANALYSIS_FRAME_SIZE: usize = 1_024;

/// The frame sizes that can be analysed.
pub open spec fn is_analysis_frame_size(size: usize) -> bool {
    size == 256 || size == 512 || size == 1_024 || size == 2_048
}

/// A frame size that can be analysed: the given one if it can, else the usual one.
pub open spec fn tidy_frame_size(size: usize) -> usize {
    if is_analysis_frame_size(size) {
        size
    } else {
        DEFAULT_ANALYSIS_FRAME_SIZE
    }
}

/// Keeps a frame size that can be analysed and replaces any other.
pub fn normalize_analysis_frame_size(size: usize) -> (r: usize)
    ensures
        r == tidy_frame_size(size),
        is_analysis_frame_size(r),
{
    if size == 256 || size == 512 || size == 1_024 || size == 2_048 {
        size
    } else {
        DEFAULT_ANALYSIS_FRAME_SIZE
    }
}

#[derive(Debug)]
pub struct LoopbackCaptureConfig {
    pub sample_rate: u32,
    pub channels: u16,
    pub frame_size: usize,
    pub preferred_output_device_name: Option<String>,
}

impl LoopbackCaptureConfig {
    /// The usual stream with the given frame size and speaker.
    pub open spec fn is_usual(self, frame_size: usize, speaker: Option<Seq<char>>) -> bool {
        &&& self.sample_rate == 48_000
        &&& self.channels == 2
        &&& self.frame_size == frame_size
        &&& text::optional_text(self.preferred_output_device_name) == speaker
    }

    /// The usual stream with the given frame size and speaker.
    pub fn with(frame_size: usize, speaker: Option<String>) -> (r: LoopbackCaptureConfig)
        ensures
            r.is_usual(frame_size, text::optional_text(speaker)),
    {
        LoopbackCaptureConfig {
            sample_rate: 48_000,
            channels: 2,
            frame_size,
            preferred_output_device_name: speaker,
        }
    }
}

impl Default for LoopbackCaptureConfig {
    fn default() -> (r: LoopbackCaptureConfig)
        ensures
            r.is_usual(DEFAULT_ANALYSIS_FRAME_SIZE, None),
    {
        LoopbackCaptureConfig::with(DEFAULT_ANALYSIS_FRAME_SIZE, None)
    }
}

/// How samples are held in a stream.
#[derive(Debug, Clone, Copy, PartialEq, Eq, Structural)]
pub enum StreamSampleFormat {
    Float32,
    Signed16,
    Unsigned16,
    Other,
}

/// A family of streams that a device offers.
#[derive(Debug, Clone, Copy, PartialEq, Eq, Structural)]
pub struct StreamRange {
    pub channels: u16,
    pub min_sample_rate: u32,
    pub max_sample_rate: u32,
    pub format: StreamSampleFormat,
}

pub open spec fn magnitude(n: int) -> int {
    if n < 0 {
        -n
    } else {
        n
    }
}

pub open spec fn least(a: int, b: int) -> int {
    if a <= b {
        a
    } else {
        b
    }
}

/// How far two rates are apart, counted in 32 bits: a difference beyond them
/// wraps around.
pub open spec fn rates_apart(a: u32, b: u32) -> int {
    let apart = a - b;
    if apart >= 0x8000_0000 {
        magnitude(apart - 0x1_0000_0000)
    } else if apart < -0x8000_0000 {
        magnitude(apart + 0x1_0000_0000)
    } else {
        magnitude(apart)
    }
}

impl StreamRange {
    /// The rate of the family that is nearest to the desired one.
    pub open spec fn nearest_rate(self, desired: u32) -> u32 {
        if desired < self.min_sample_rate {
            self.min_sample_rate
        } else if desired > self.max_sample_rate {
            self.max_sample_rate
        } else {
            desired
        }
    }

    /// How well the family fits: by channels, by rate and by format.
    pub open spec fn score(self, sample_rate: u32, channels: u16) -> int {
        let by_channels = if self.channels == channels {
            50
        } else {
            20 - least(magnitude(self.channels - channels), 20)
        };
        let by_rate = 30 - least(
            rates_apart(self.nearest_rate(sample_rate), sample_rate) / 1000,
            30,
        );
        let by_format: int = match self.format {
            StreamSampleFormat::Float32 => 10,
            StreamSampleFormat::Signed16 | StreamSampleFormat::Unsigned16 => 5,
            StreamSampleFormat::Other => 0,
        };
        by_channels + by_rate + by_format
    }

    fn rate_for(self, desired: u32) -> (r: u32)
        ensures
            r == self.nearest_rate(desired),
    {
        if desired < self.min_sample_rate {
            self.min_sample_rate
        } else if desired > self.max_sample_rate {
            self.max_sample_rate
        } else {
            desired
        }
    }

    fn rate_score(self, sample_rate: u32, channels: u16) -> (r: i64)
        ensures
            r == self.score(sample_rate, channels),
    {
        let by_channels: i64 = if self.channels == channels {
            50
        } else {
            let apart: i64 = if self.channels > channels {
                (self.channels - channels) as i64
            } else {
                (channels - self.channels) as i64
            };
            if apart <= 20 {
                20 - apart
            } else {
                0
            }
        };
        let rate: u32 = self.rate_for(sample_rate);
        let apart: u32 = if rate > sample_rate {
            rate - sample_rate
        } else {
            sample_rate - rate
        };
        let apart: u32 = if apart > 0x8000_0000 {
            (0xffff_ffff - apart) + 1
        } else {
            apart
        };
        let thousands: i64 = (apart / 1000) as i64;
        let by_rate: i64 = if thousands <= 30 {
            30 - thousands
        } else {
            0
        };
        let by_format: i64 = match self.format {
            StreamSampleFormat::Float32 => 10,
            StreamSampleFormat::Signed16 | StreamSampleFormat::Unsigned16 => 5,
            StreamSampleFormat::Other => 0,
        };
        by_channels + by_rate + by_format
    }
}

/// `at` is the first of the places with the greatest score.
pub open spec fn is_first_best(scores: Seq<int>, at: int) -> bool {
    &&& 0 <= at < scores.len()
    &&& forall|j: int| 0 <= j < scores.len() ==> #[trigger] scores[j] <= scores[at]
    &&& forall|j: int| 0 <= j < at ==> #[trigger] scores[j] < scores[at]
}

/// Which stream to open.
#[derive(Debug, Clone, Copy, PartialEq, Eq, Structural)]
pub enum StreamChoice {
    /// The family at `index`, at `sample_rate`.
    Offered { index: usize, sample_rate: u32 },
    DefaultOutput,
    DefaultInput,
}

/// The scores of the families.
pub open spec fn range_scores(ranges: Seq<StreamRange>, sample_rate: u32, channels: u16) -> Seq<int> {
    Seq::new(ranges.len(), |i: int| ranges[i].score(sample_rate, channels))
}

/// Chooses the stream to open: the first of the best families that the device
/// offers, or else its default output or input stream.
pub fn choose_supported_config(
    ranges: &Vec<StreamRange>,
    desired: &LoopbackCaptureConfig,
    has_default_output: bool,
    has_default_input: bool,
) -> (r: Result<StreamChoice, String>)
    requires
        forall|i: int|
            0 <= i < ranges@.len() ==> (#[trigger] ranges@[i]).min_sample_rate
                <= ranges@[i].max_sample_rate,
    ensures
        match r {
            Ok(StreamChoice::Offered { index, sample_rate }) => {
                &&& is_first_best(
                    range_scores(ranges@, desired.sample_rate, desired.channels),
                    index as int,
                )
                &&& sample_rate == ranges@[index as int].nearest_rate(desired.sample_rate)
            },
            Ok(StreamChoice::DefaultOutput) => ranges@.len() == 0 && has_default_output,
            Ok(StreamChoice::DefaultInput) => ranges@.len() == 0 && !has_default_output
                && has_default_input,
            Err(text) => {
                &&& ranges@.len() == 0 && !has_default_output && !has_default_input
                &&& text@
                    == "no supported stream config available for selected capture endpoint"@
            },
        },
{
    let ghost scores = range_scores(ranges@, desired.sample_rate, desired.channels);
    if ranges.len() > 0 {
        let mut best: usize = 0;
        let mut best_score: i64 = ranges[0].rate_score(desired.sample_rate, desired.channels);
        let mut i: usize = 1;
        while i < ranges.len()
            invariant
                scores == range_scores(ranges@, desired.sample_rate, desired.channels),
                1 <= i <= ranges@.len(),
                best < i,
                best_score == scores[best as int],
                forall|j: int| 0 <= j < i ==> #[trigger] scores[j] <= scores[best as int],
                forall|j: int| 0 <= j < best ==> #[trigger] scores[j] < scores[best as int],
            decreases ranges@.len() - i,
        {
            let score: i64 = ranges[i].rate_score(desired.sample_rate, desired.channels);
            assert(score == scores[i as int]);
            if score > best_score {
                best = i;
                best_score = score;
            }
            i += 1;
        }
        return Ok(
            StreamChoice::Offered {
                index: best,
                sample_rate: ranges[best].rate_for(desired.sample_rate),
            },
        );
    }
    if has_default_output {
        return Ok(StreamChoice::DefaultOutput);
    }
    if has_default_input {
        return Ok(StreamChoice::DefaultInput);
    }
    Err("no supported stream config available for selected capture endpoint".to_owned())
}

/// What is known of a device.
#[derive(Debug)]
pub struct DeviceInfo {
    pub name: String,
    /// The device calls itself virtual.
    pub virtual_device: bool,
    /// The device's interface is virtual.
    pub virtual_interface: bool,
}

/// A wished-for name in the form in which names are compared: trimmed, in lower
/// case, and none if blank.
pub open spec fn wish(preferred: Option<Seq<char>>) -> Option<Seq<char>> {
    match preferred {
        Some(name) => if text::trimmed(name).len() > 0 {
            Some(text::lower(text::trimmed(name)))
        } else {
            None
        },
        None => None,
    }
}

/// The wished-for name in the form in which names are compared.
pub fn normalized_wish(preferred: Option<&str>) -> (r: Option<String>)
    ensures
        text::optional_text(r) == wish(text::some_text(preferred)),
{
    match preferred {
        Some(name) => {
            let t = trim_text(name);
            if t.unicode_len() > 0 {
                Some(to_lower(t))
            } else {
                None
            }
        },
        None => None,
    }
}

/// The speaker in use, in lower case; empty if there is none.
pub open spec fn default_name(default_output: Option<Seq<char>>) -> Seq<char> {
    match default_output {
        Some(name) => text::lower(name),
        None => seq![],
    }
}

pub open spec fn worth(holds: bool, points: int) -> int {
    if holds {
        points
    } else {
        0
    }
}

impl DeviceInfo {
    pub open spec fn low_name(self) -> Seq<char> {
        text::lower(self.name@)
    }

    /// The name of the device holds the wished-for name.
    pub open spec fn meets(self, wished: Option<Seq<char>>) -> bool {
        wished matches Some(name) && text::occurs(self.low_name(), name)
    }

    /// How well a speaker fits.
    pub open spec fn output_score(self, wished: Option<Seq<char>>, default: Seq<char>) -> int {
        let by_wish = if wished == Some(self.low_name()) {
            1_000
        } else {
            worth(self.meets(wished), 800)
        };
        let by_default = if default.len() == 0 {
            0
        } else if self.low_name() == default {
            500
        } else {
            worth(text::occurs(self.low_name(), default), 220)
        };
        10 + by_wish + by_default + worth(self.virtual_device, 50) + worth(
            self.virtual_interface,
            40,
        )
    }

    /// How well an input fits; 0 if nothing suggests that it carries what the
    /// speaker plays.
    pub open spec fn input_score(self, wished: Option<Seq<char>>, default: Seq<char>) -> int {
        let name = self.low_name();
        worth(text::occurs(name, "loopback"@), 180) + worth(text::occurs(name, "stereo mix"@), 150)
            + worth(text::occurs(name, "what u hear"@), 150) + worth(
            text::occurs(name, "wave out mix"@),
            150,
        ) + worth(self.meets(wished), 300) + worth(
            default.len() > 0 && text::occurs(name, default),
            140,
        ) + worth(self.virtual_device, 90) + worth(self.virtual_interface, 60)
    }
}

proof fn lemma_text_occurs_in_itself(s: Seq<char>)
    ensures
        text::occurs(s, s),
{
    assert(s.subrange(0, s.len() as int) =~= s);
    assert(text::stands_at(s, s, 0));
}

impl DeviceInfo {
    fn rate_output(&self, wished: &Option<String>, default: &str) -> (r: (i64, bool))
        ensures
            r.0 == self.output_score(text::optional_text(*wished), default@),
            r.1 == self.meets(text::optional_text(*wished)),
    {
        let name = to_lower(self.name.as_str());
        let mut score: i64 = 10;
        let mut meets = false;
        match wished {
            Some(w) => {
                if same_text(name.as_str(), w.as_str()) {
                    score += 1_000;
                    meets = true;
                    proof {
                        lemma_text_occurs_in_itself(name@);
                    }
                } else if contains_text(name.as_str(), w.as_str()) {
                    score += 800;
                    meets = true;
                }
            },
            None => {},
        }
        if default.unicode_len() > 0 {
            if same_text(name.as_str(), default) {
                score += 500;
            } else if contains_text(name.as_str(), default) {
                score += 220;
            }
        }
        if self.virtual_device {
            score += 50;
        }
        if self.virtual_interface {
            score += 40;
        }
        (score, meets)
    }

    fn rate_input(&self, wished: &Option<String>, default: &str) -> (r: (i64, bool))
        ensures
            r.0 == self.input_score(text::optional_text(*wished), default@),
            r.1 == self.meets(text::optional_text(*wished)),
    {
        let name = to_lower(self.name.as_str());
        let mut score: i64 = 0;
        if contains_text(name.as_str(), "loopback") {
            score += 180;
        }
        if contains_text(name.as_str(), "stereo mix") {
            score += 150;
        }
        if contains_text(name.as_str(), "what u hear") {
            score += 150;
        }
        if contains_text(name.as_str(), "wave out mix") {
            score += 150;
        }
        let meets = match wished {
            Some(w) => contains_text(name.as_str(), w.as_str()),
            None => false,
        };
        if meets {
            score += 300;
        }
        if default.unicode_len() > 0 && contains_text(name.as_str(), default) {
            score += 140;
        }
        if self.virtual_device {
            score += 90;
        }
        if self.virtual_interface {
            score += 60;
        }
        (score, meets)
    }
}

/// `at` is the first of the places with the greatest score, which is above
/// zero.
pub open spec fn is_first_best_scored(scores: Seq<int>, at: int) -> bool {
    is_first_best(scores, at) && scores[at] > 0
}

/// No place has a score.
pub open spec fn none_scored(scores: Seq<int>) -> bool {
    forall|i: int| 0 <= i < scores.len() ==> #[trigger] scores[i] <= 0
}

/// Finds the first of the places with the greatest score above zero.
pub fn best_scored(scores: &Vec<i64>) -> (r: Option<usize>)
    ensures
        match r {
            Some(at) => is_first_best_scored(wide(scores@), at as int),
            None => none_scored(wide(scores@)),
        },
{
    let ghost given = wide(scores@);
    let mut best: Option<usize> = None;
    let mut best_score: i64 = 0;
    let mut i: usize = 0;
    while i < scores.len()
        invariant
            given == wide(scores@),
            i <= scores@.len(),
            match best {
                Some(b) => {
                    &&& b < i
                    &&& best_score == given[b as int]
                    &&& best_score > 0
                    &&& forall|j: int| 0 <= j < i ==> #[trigger] given[j] <= best_score
                    &&& forall|j: int| 0 <= j < b ==> #[trigger] given[j] < best_score
                },
                None => best_score == 0 && forall|j: int| 0 <= j < i ==> #[trigger] given[j] <= 0,
            },
        decreases scores@.len() - i,
    {
        assert(given[i as int] == scores@[i as int]);
        if scores[i] > best_score {
            best = Some(i);
            best_score = scores[i];
        }
        i += 1;
    }
    best
}

/// The scores as mathematical integers.
pub open spec fn wide(scores: Seq<i64>) -> Seq<int> {
    Seq::new(scores.len(), |i: int| scores[i] as int)
}

/// The device to capture from.
#[derive(Debug, Clone, Copy, PartialEq, Eq, Structural)]
pub struct DeviceChoice {
    /// Whether the device is one of the speakers.
    pub from_outputs: bool,
    pub index: usize,
    /// Whether the device goes by the wished-for name.
    pub matched: bool,
}

pub open spec fn output_scores(
    devices: Seq<DeviceInfo>,
    wished: Option<Seq<char>>,
    default: Seq<char>,
) -> Seq<int> {
    Seq::new(devices.len(), |i: int| devices[i].output_score(wished, default))
}

pub open spec fn input_scores(
    devices: Seq<DeviceInfo>,
    wished: Option<Seq<char>>,
    default: Seq<char>,
) -> Seq<int> {
    Seq::new(devices.len(), |i: int| devices[i].input_score(wished, default))
}

/// The scores of the devices that meet the wish, 0 for the others.
pub open spec fn meeting_scores(
    devices: Seq<DeviceInfo>,
    scores: Seq<int>,
    wished: Option<Seq<char>>,
) -> Seq<int> {
    Seq::new(
        devices.len(),
        |i: int| worth(devices[i].meets(wished), scores[i]),
    )
}

/// The choice among devices: the best of those that meet the wish, else the
/// best of those with any score.
pub open spec fn is_choice(
    devices: Seq<DeviceInfo>,
    scores: Seq<int>,
    wished: Option<Seq<char>>,
    choice: Option<(usize, bool)>,
) -> bool {
    let meeting = meeting_scores(devices, scores, wished);
    match choice {
        Some((index, true)) => is_first_best_scored(meeting, index as int),
        Some((index, false)) => none_scored(meeting) && is_first_best_scored(scores, index as int),
        None => none_scored(scores),
    }
}

fn pick(scores: &Vec<i64>, meeting: &Vec<i64>) -> (r: Option<(usize, bool)>)
    ensures
        match r {
            Some((index, true)) => is_first_best_scored(wide(meeting@), index as int),
            Some((index, false)) => none_scored(wide(meeting@)) && is_first_best_scored(
                wide(scores@),
                index as int,
            ),
            None => none_scored(wide(scores@)) && none_scored(wide(meeting@)),
        },
{
    match best_scored(meeting) {
        Some(index) => Some((index, true)),
        None => match best_scored(scores) {
            Some(index) => Some((index, false)),
            None => None,
        },
    }
}

fn choose_output(outputs: &Vec<DeviceInfo>, wished: &Option<String>, default: &str) -> (r: Option<
    (usize, bool),
>)
    ensures
        is_choice(
            outputs@,
            output_scores(outputs@, text::optional_text(*wished), default@),
            text::optional_text(*wished),
            r,
        ),
{
    let ghost w = text::optional_text(*wished);
    let ghost expected = output_scores(outputs@, w, default@);
    let mut scores: Vec<i64> = Vec::new();
    let mut meeting: Vec<i64> = Vec::new();
    let mut i: usize = 0;
    while i < outputs.len()
        invariant
            i <= outputs@.len(),
            scores@.len() == i,
            meeting@.len() == i,
            w == text::optional_text(*wished),
            expected == output_scores(outputs@, w, default@),
            forall|j: int| 0 <= j < i ==> #[trigger] scores@[j] == expected[j],
            forall|j: int|
                0 <= j < i ==> #[trigger] meeting@[j] == worth(outputs@[j].meets(w), expected[j]),
        decreases outputs@.len() - i,
    {
        let (score, meets) = outputs[i].rate_output(wished, default);
        scores.push(score);
        meeting.push(
            if meets {
                score
            } else {
                0
            },
        );
        i += 1;
    }
    assert(wide(scores@) =~= expected);
    assert(wide(meeting@) =~= meeting_scores(outputs@, expected, w));
    pick(&scores, &meeting)
}

fn choose_input(inputs: &Vec<DeviceInfo>, wished: &Option<String>, default: &str) -> (r: Option<
    (usize, bool),
>)
    ensures
        is_choice(
            inputs@,
            input_scores(inputs@, text::optional_text(*wished), default@),
            text::optional_text(*wished),
            r,
        ),
{
    let ghost w = text::optional_text(*wished);
    let ghost expected = input_scores(inputs@, w, default@);
    let mut scores: Vec<i64> = Vec::new();
    let mut meeting: Vec<i64> = Vec::new();
    let mut i: usize = 0;
    while i < inputs.len()
        invariant
            i <= inputs@.len(),
            scores@.len() == i,
            meeting@.len() == i,
            w == text::optional_text(*wished),
            expected == input_scores(inputs@, w, default@),
            forall|j: int| 0 <= j < i ==> #[trigger] scores@[j] == expected[j],
            forall|j: int|
                0 <= j < i ==> #[trigger] meeting@[j] == worth(inputs@[j].meets(w), expected[j]),
        decreases inputs@.len() - i,
    {
        let (score, meets) = inputs[i].rate_input(wished, default);
        scores.push(score);
        meeting.push(
            if meets {
                score
            } else {
                0
            },
        );
        i += 1;
    }
    assert(wide(scores@) =~= expected);
    assert(wide(meeting@) =~= meeting_scores(inputs@, expected, w));
    pick(&scores, &meeting)
}

/// Why no device was found.
pub open spec fn no_device_text(preferred: Option<Seq<char>>) -> Seq<char> {
    match preferred {
        Some(name) => "no loopback input device found for speaker `"@ + name
            + "`. this app captures speaker playback (loopback), not microphone input"@,
        None => "no loopback input device found. this app captures speaker playback (loopback), not microphone input"@,
    }
}

/// Chooses the device to capture from: the best speaker, whose playback is then
/// looped back, or, where there is no speaker, the input that most likely
/// carries it.
pub fn select_input_device(
    outputs: &Vec<DeviceInfo>,
    inputs: &Vec<DeviceInfo>,
    preferred_output_device_name: Option<&str>,
    default_output_name: Option<&str>,
) -> (r: Result<DeviceChoice, String>)
    ensures
        ({
            let preferred = text::some_text(preferred_output_device_name);
            let wished = wish(preferred);
            let default = default_name(text::some_text(default_output_name));
            match r {
                Ok(choice) => if outputs@.len() > 0 {
                    &&& choice.from_outputs
                    &&& is_choice(
                        outputs@,
                        output_scores(outputs@, wished, default),
                        wished,
                        Some((choice.index, choice.matched)),
                    )
                } else {
                    &&& !choice.from_outputs
                    &&& is_choice(
                        inputs@,
                        input_scores(inputs@, wished, default),
                        wished,
                        Some((choice.index, choice.matched)),
                    )
                },
                Err(message) => {
                    &&& outputs@.len() == 0
                    &&& is_choice(inputs@, input_scores(inputs@, wished, default), wished, None)
                    &&& message@ == no_device_text(preferred)
                },
            }
        }),
{
    let wished = normalized_wish(preferred_output_device_name);
    let default = match default_output_name {
        Some(name) => to_lower(name),
        None => String::new(),
    };
    let ghost low_default = default_name(text::some_text(default_output_name));
    assert(default@ =~= low_default);
    match choose_output(outputs, &wished, default.as_str()) {
        Some((index, matched)) => {
            return Ok(DeviceChoice { from_outputs: true, index, matched });
        },
        None => {},
    }
    proof {
        let scores = output_scores(outputs@, text::optional_text(wished), low_default);
        assert(outputs@.len() > 0 ==> scores[0] > 0);
    }
    match choose_input(inputs, &wished, default.as_str()) {
        Some((index, matched)) => Ok(DeviceChoice { from_outputs: false, index, matched }),
        None => {
            match preferred_output_device_name {
                Some(name) => {
                    let mut message = "no loopback input device found for speaker `".to_owned();
                    message.append(name);
                    message.append(
                        "`. this app captures speaker playback (loopback), not microphone input",
                    );
                    Err(message)
                },
                None => Err(
                    "no loopback input device found. this app captures speaker playback (loopback), not microphone input".to_owned(),
                ),
            }
        },
    }
}

/// The speakers to offer.
pub fn list_output_device_names(names: &Vec<String>) -> (r: Vec<String>)
    ensures
        names::tidied(text::views(names@), text::views(r@)),
{
    tidy_names(names)
}

/// A capture: its settings, and the device that it runs on.
#[derive(Debug)]
pub struct LoopbackCapture {
    pub config: LoopbackCaptureConfig,
    pub selected_device_name: Option<String>,
    pub started: bool,
}

impl LoopbackCapture {
    pub fn new(config: LoopbackCaptureConfig) -> (r: LoopbackCapture)
        ensures
            r.config == config,
            r.selected_device_name is None,
            !r.started,
    {
        LoopbackCapture { config, selected_device_name: None, started: false }
    }

    pub fn is_started(&self) -> (r: bool)
        ensures
            r == self.started,
    {
        self.started
    }

    pub fn selected_device_name(&self) -> (r: Option<&str>)
        ensures
            text::some_text(r) == text::optional_text(self.selected_device_name),
    {
        match &self.selected_device_name {
            Some(name) => Some(name.as_str()),
            None => None,
        }
    }

    /// Notes that the stream of a device runs; a capture that has been started
    /// stays as it is.
    pub fn start(&mut self, device_name: &str)
        ensures
            final(self).config == old(self).config,
            final(self).started,
            old(self).started ==> final(self).selected_device_name == old(
                self,
            ).selected_device_name,
            !old(self).started ==> text::optional_text(final(self).selected_device_name) == Some(
                device_name@,
            ),
    {
        if self.started {
            return;
        }
        self.selected_device_name = Some(device_name.to_owned());
        self.started = true;
    }

    /// Notes that no stream runs any more.
    pub fn stop(&mut self)
        ensures
            final(self).config == old(self).config,
            final(self).selected_device_name is None,
            !final(self).started,
    {
        self.selected_device_name = None;
        self.started = false;
    }
}

impl Default for LoopbackCapture {
    fn default() -> (r: LoopbackCapture)
        ensures
            r.config.is_usual(DEFAULT_ANALYSIS_FRAME_SIZE, None),
            r.selected_device_name is None,
            !r.started,
    {
        LoopbackCapture::new(LoopbackCaptureConfig::default())
    }
}

/// Where a device meets the wish, one that meets it is chosen.
pub proof fn law_a_wish_is_met_where_it_can_be(
    devices: Seq<DeviceInfo>,
    scores: Seq<int>,
    wished: Option<Seq<char>>,
    choice: Option<(usize, bool)>,
    i: int,
)
    requires
        is_choice(devices, scores, wished, choice),
        0 <= i < devices.len() == scores.len(),
        devices[i].meets(wished),
        scores[i] > 0,
    ensures
        choice matches Some((index, matched)) && matched && devices[index as int].meets(wished)
            && scores[i] <= scores[index as int],
{
    let meeting = meeting_scores(devices, scores, wished);
    assert(meeting[i] == scores[i]);
}

/// Without a wish, the speaker in use is chosen where it is listed.
pub proof fn law_the_speaker_in_use_is_chosen(
    devices: Seq<DeviceInfo>,
    default: Seq<char>,
    choice: Option<(usize, bool)>,
    i: int,
)
    requires
        is_choice(devices, output_scores(devices, None, default), None, choice),
        0 <= i < devices.len(),
        default.len() > 0,
        devices[i].low_name() == default,
    ensures
        choice matches Some((index, _)) && devices[index as int].low_name() == default,
{
    let scores = output_scores(devices, None, default);
    assert(scores[i] > 0);
    let (at, _) = choice->0;
    let index = at as int;
    assert(scores[i] <= scores[index]);
    if devices[index].low_name() != default {
        assert(scores[index] <= 320);
    }
}

/// A frame size of 256, 512, 1024 or 2048 is kept; any other becomes 1024.
pub proof fn law_frame_sizes(size: usize)
    ensures
        size == 256 || size == 512 || size == 1024 || size == 2048 ==> tidy_frame_size(size) == size,
        size != 256 && size != 512 && size != 1024 && size != 2048 ==> tidy_frame_size(size)
            == 1024,
{
}

/// The rate of a family is the one that is asked for where the family has it, and
/// the nearer end of the family where not.
pub proof fn law_nearest_rate_is_in_the_family(range: StreamRange, desired: u32)
    requires
        range.min_sample_rate <= range.max_sample_rate,
    ensures
        range.min_sample_rate <= desired <= range.max_sample_rate ==> range.nearest_rate(desired)
            == desired,
        desired < range.min_sample_rate ==> range.nearest_rate(desired) == range.min_sample_rate,
        desired > range.max_sample_rate ==> range.nearest_rate(desired) == range.max_sample_rate,
{
}

/// A family scores 50 for the channels that are asked for, else 20 less one for
/// every channel that it is off, up to 20; 30 for the rate less one for every
/// thousand that it is off, up to 30; and 10 or 5 by its format.
pub proof fn law_families_score_by_channels_rate_and_format(
    range: StreamRange,
    sample_rate: u32,
    channels: u16,
)
    requires
        range.min_sample_rate <= sample_rate <= range.max_sample_rate,
    ensures
        ({
            let off = range.channels - channels;
            let by_format: int = match range.format {
                StreamSampleFormat::Float32 => 10,
                StreamSampleFormat::Signed16 => 5,
                StreamSampleFormat::Unsigned16 => 5,
                StreamSampleFormat::Other => 0,
            };
            let score = range.score(sample_rate, channels);
            &&& off == 0 ==> score == 80 + by_format
            &&& 0 < off <= 20 ==> score == 50 - off + by_format
            &&& -20 <= off < 0 ==> score == 50 + off + by_format
            &&& off > 20 || off < -20 ==> score == 30 + by_format
        }),
{
}

/// A rate that is off costs one for every whole thousand, up to 30, and nothing
/// else.
pub proof fn law_rates_cost_by_the_thousand(range: StreamRange, sample_rate: u32, channels: u16)
    requires
        range.min_sample_rate <= range.max_sample_rate,
        sample_rate < 0x8000_0000,
        range.max_sample_rate < 0x8000_0000,
    ensures
        ({
            let rate = range.nearest_rate(sample_rate);
            let off = if rate > sample_rate {
                (rate - sample_rate) / 1000
            } else {
                (sample_rate - rate) / 1000
            };
            let fitting = StreamRange {
                min_sample_rate: sample_rate,
                max_sample_rate: sample_rate,
                ..range
            };
            range.score(sample_rate, channels) == fitting.score(sample_rate, channels) - if off
                > 30 {
                30
            } else {
                off
            }
        }),
{
}

/// A wish is compared trimmed and in lower case, and a blank one is none; the
/// speaker in use is compared in lower case.
pub proof fn law_names_are_compared_without_case(name: Seq<char>)
    ensures
        text::trimmed(name).len() > 0 ==> wish(Some(name)) == Some(text::lower(text::trimmed(name))),
        text::trimmed(name).len() == 0 ==> wish(Some(name)) is None,
        wish(None) is None,
        default_name(Some(name)) == text::lower(name),
        default_name(None).len() == 0,
{
}

/// A speaker scores 10, and 1000 for the wished-for name or 800 for a name that
/// holds it, 500 for the name of the speaker in use or 220 for one that holds it,
/// and 50 and 40 for being virtual.
pub proof fn law_speakers_score_by_name(
    device: DeviceInfo,
    wished: Option<Seq<char>>,
    default: Seq<char>,
)
    ensures
        ({
            let name = text::lower(device.name@);
            let base: int = 10 + if device.virtual_device {
                50int
            } else {
                0
            } + if device.virtual_interface {
                40int
            } else {
                0
            };
            let used: int = if default.len() > 0 && name == default {
                500
            } else if default.len() > 0 && text::occurs(name, default) {
                220
            } else {
                0
            };
            let score = device.output_score(wished, default);
            &&& wished == Some(name) ==> score == base + used + 1000
            &&& wished is Some && wished != Some(name) && text::occurs(name, wished->0) ==> score
                == base + used + 800
            &&& wished is None || !text::occurs(name, wished->0) ==> score == base + used
            &&& device.meets(wished) <==> wished is Some && text::occurs(name, wished->0)
        }),
{
    lemma_text_occurs_in_itself(text::lower(device.name@));
}

/// An input scores by what suggests that it carries the playback: its name, the
/// wish, the speaker in use and being virtual. Without any of it, it scores
/// nothing.
pub proof fn law_inputs_score_by_what_they_suggest(
    device: DeviceInfo,
    wished: Option<Seq<char>>,
    default: Seq<char>,
)
    ensures
        ({
            let name = text::lower(device.name@);
            let score = device.input_score(wished, default);
            let points = |holds: bool, n: int|
                if holds {
                    n
                } else {
                    0
                };
            score == points(text::occurs(name, "loopback"@), 180) + points(
                text::occurs(name, "stereo mix"@),
                150,
            ) + points(text::occurs(name, "what u hear"@), 150) + points(
                text::occurs(name, "wave out mix"@),
                150,
            ) + points(wished is Some && text::occurs(name, wished->0), 300) + points(
                default.len() > 0 && text::occurs(name, default),
                140,
            ) + points(device.virtual_device, 90) + points(device.virtual_interface, 60)
        }),
{
}

/// A device that is chosen is one of those that are there, none of them scores
/// more among those that count, none before it as much, and it counts as the one
/// wished for exactly where it goes by the wish.
pub proof fn law_the_best_device_is_chosen(
    devices: Seq<DeviceInfo>,
    scores: Seq<int>,
    wished: Option<Seq<char>>,
    index: usize,
    matched: bool,
    i: int,
)
    requires
        devices.len() == scores.len(),
        is_choice(devices, scores, wished, Some((index, matched))),
        0 <= i < devices.len(),
    ensures
        index < devices.len(),
        scores[index as int] > 0,
        matched ==> devices[index as int].meets(wished),
        matched && devices[i].meets(wished) ==> scores[i] <= scores[index as int],
        matched && devices[i].meets(wished) && i < index ==> scores[i] < scores[index as int],
        !matched ==> !devices[i].meets(wished) || scores[i] <= 0,
        !matched ==> scores[i] <= scores[index as int],
        !matched && i < index ==> scores[i] < scores[index as int],
{
    let meeting = meeting_scores(devices, scores, wished);
    assert(meeting[i] == worth(devices[i].meets(wished), scores[i]));
    if matched {
        assert(meeting[index as int] == worth(
            devices[index as int].meets(wished),
            scores[index as int],
        ));
    }
}

/// No device is chosen only where none scores at all.
pub proof fn law_a_device_is_chosen_where_one_scores(
    devices: Seq<DeviceInfo>,
    scores: Seq<int>,
    wished: Option<Seq<char>>,
    i: int,
)
    requires
        devices.len() == scores.len(),
        is_choice(devices, scores, wished, None),
        0 <= i < devices.len(),
    ensures
        scores[i] <= 0,
{
}

/// The scores stand in the order of the devices.
pub proof fn law_scores_are_in_the_order_of_the_devices(
    devices: Seq<DeviceInfo>,
    ranges: Seq<StreamRange>,
    wished: Option<Seq<char>>,
    default: Seq<char>,
    rate: u32,
    channels: u16,
    i: int,
)
    ensures
        output_scores(devices, wished, default).len() == devices.len(),
        input_scores(devices, wished, default).len() == devices.len(),
        range_scores(ranges, rate, channels).len() == ranges.len(),
        0 <= i < devices.len() ==> output_scores(devices, wished, default)[i]
            == devices[i].output_score(wished, default) && input_scores(devices, wished, default)[i]
            == devices[i].input_score(wished, default),
        0 <= i < ranges.len() ==> range_scores(ranges, rate, channels)[i] == ranges[i].score(
            rate,
            channels,
        ),
{
}

} // verus!
