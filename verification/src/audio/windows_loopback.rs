//! The mix format of an endpoint, the samples in its buffers and the steps of
//! the capture loop.

use vstd::prelude::*;

use crate::text;
use crate::text::push_decimal;

verus! {

/// Format tags of a wave format.
pub const TAG_PCM: u32 = 1;

pub const TAG_IEEE_FLOAT: u32 = 3;

pub const TAG_EXTENSIBLE: u32 = 0xfffe;

/// The stream that a capture runs on.
#[derive(Debug, Clone, Copy, PartialEq, Eq, Structural)]
pub struct WindowsLoopbackReadyInfo {
    pub sample_rate: u32,
    pub channels: u16,
}

/// How a sample is held.
#[derive(Debug, Clone, Copy, PartialEq, Eq, Structural)]
pub enum SampleFormatKind {
    Float32,
    Pcm16,
    Pcm24,
    Pcm32,
}

#[derive(Debug, Clone, Copy, PartialEq, Eq, Structural)]
pub struct FormatInfo {
    pub sample_rate: u32,
    pub channels: u16,
    pub bits_per_sample: u16,
    pub valid_bits_per_sample: u16,
    pub block_align: u16,
    pub sample_format: SampleFormatKind,
}

/// The subformat of an extensible format.
#[derive(Debug, Clone, Copy, PartialEq, Eq, Structural)]
pub enum SubFormat {
    IeeeFloat,
    Pcm,
    Other,
}

/// What an extensible format adds.
#[derive(Debug)]
pub struct FormatExtension {
    pub valid_bits_per_sample: u16,
    pub sub_format: SubFormat,
    /// The subformat's identifier, to be shown.
    pub sub_format_name: String,
}

/// A mix format as the endpoint gives it.
#[derive(Debug)]
pub struct MixFormat {
    pub format_tag: u32,
    pub sample_rate: u32,
    pub channels: u16,
    pub bits_per_sample: u16,
    pub block_align: u16,
    /// There for an extensible format.
    pub extension: Option<FormatExtension>,
}

pub open spec fn at_least_one(n: u16) -> u16 {
    if n == 0 {
        1
    } else {
        n
    }
}

pub open spec fn max_u16(a: u16, b: u16) -> u16 {
    if a >= b {
        a
    } else {
        b
    }
}

/// The kind of an integer sample of the given size.
pub open spec fn pcm_kind(bits: u16) -> Option<SampleFormatKind> {
    if bits == 16 {
        Some(SampleFormatKind::Pcm16)
    } else if bits == 24 {
        Some(SampleFormatKind::Pcm24)
    } else if bits == 32 {
        Some(SampleFormatKind::Pcm32)
    } else {
        None
    }
}

/// The kind of sample that a plain format names.
pub open spec fn direct_kind(tag: u32, bits: u16) -> Option<SampleFormatKind> {
    if tag == TAG_IEEE_FLOAT && bits == 32 {
        Some(SampleFormatKind::Float32)
    } else if tag == TAG_PCM {
        pcm_kind(bits)
    } else {
        None
    }
}

/// The kind of sample that an extensible format names.
pub open spec fn extended_kind(ext: FormatExtension, bits: u16) -> Result<
    SampleFormatKind,
    Seq<char>,
> {
    match ext.sub_format {
        SubFormat::IeeeFloat => if bits == 32 {
            Ok(SampleFormatKind::Float32)
        } else {
            Err(unsupported_sub_format(ext.sub_format_name@, bits))
        },
        SubFormat::Pcm => match pcm_kind(bits) {
            Some(kind) => Ok(kind),
            None => Err(
                "unsupported extensible PCM bits_per_sample: "@ + text::decimal(bits as nat),
            ),
        },
        SubFormat::Other => Err(unsupported_sub_format(ext.sub_format_name@, bits)),
    }
}

pub open spec fn unsupported_sub_format(name: Seq<char>, bits: u16) -> Seq<char> {
    "unsupported extensible subformat: "@ + name + " (bits_per_sample="@ + text::decimal(
        bits as nat,
    ) + ")"@
}

impl MixFormat {
    pub open spec fn info(self, valid_bits: u16, kind: SampleFormatKind) -> FormatInfo {
        FormatInfo {
            sample_rate: self.sample_rate,
            channels: at_least_one(self.channels),
            bits_per_sample: self.bits_per_sample,
            valid_bits_per_sample: valid_bits,
            block_align: at_least_one(self.block_align),
            sample_format: kind,
        }
    }

    pub open spec fn unsupported(self) -> Seq<char> {
        "unsupported loopback mix format: tag="@ + text::decimal(self.format_tag as nat)
            + ", bits_per_sample="@ + text::decimal(self.bits_per_sample as nat) + ", channels="@
            + text::decimal(at_least_one(self.channels) as nat) + ", sample_rate="@
            + text::decimal(self.sample_rate as nat)
    }

    /// The format, or why it cannot be captured.
    pub open spec fn reading(self) -> Result<FormatInfo, Seq<char>> {
        match direct_kind(self.format_tag, self.bits_per_sample) {
            Some(kind) => Ok(self.info(self.bits_per_sample, kind)),
            None => match self.extension {
                Some(ext) => if self.format_tag == TAG_EXTENSIBLE {
                    match extended_kind(ext, self.bits_per_sample) {
                        Ok(kind) => Ok(
                            self.info(
                                max_u16(ext.valid_bits_per_sample, self.bits_per_sample),
                                kind,
                            ),
                        ),
                        Err(message) => Err(message),
                    }
                } else {
                    Err(self.unsupported())
                },
                None => Err(self.unsupported()),
            },
        }
    }
}

fn one_or_more(n: u16) -> (r: u16)
    ensures
        r == at_least_one(n),
        r > 0,
{
    if n == 0 {
        1
    } else {
        n
    }
}

fn pcm_kind_of(bits: u16) -> (r: Option<SampleFormatKind>)
    ensures
        r == pcm_kind(bits),
{
    if bits == 16 {
        Some(SampleFormatKind::Pcm16)
    } else if bits == 24 {
        Some(SampleFormatKind::Pcm24)
    } else if bits == 32 {
        Some(SampleFormatKind::Pcm32)
    } else {
        None
    }
}

fn sub_format_error(name: &str, bits: u16) -> (r: String)
    ensures
        r@ == unsupported_sub_format(name@, bits),
{
    let mut message = "unsupported extensible subformat: ".to_owned();
    message.append(name);
    message.append(" (bits_per_sample=");
    push_decimal(&mut message, bits as u64);
    message.append(")");
    message
}

fn extended_kind_of(ext: &FormatExtension, bits: u16) -> (r: Result<SampleFormatKind, String>)
    ensures
        match r {
            Ok(kind) => extended_kind(*ext, bits) == Ok::<SampleFormatKind, Seq<char>>(kind),
            Err(message) => extended_kind(*ext, bits) == Err::<SampleFormatKind, Seq<char>>(
                message@,
            ),
        },
{
    match ext.sub_format {
        SubFormat::IeeeFloat => if bits == 32 {
            Ok(SampleFormatKind::Float32)
        } else {
            Err(sub_format_error(ext.sub_format_name.as_str(), bits))
        },
        SubFormat::Pcm => match pcm_kind_of(bits) {
            Some(kind) => Ok(kind),
            None => {
                let mut message = "unsupported extensible PCM bits_per_sample: ".to_owned();
                push_decimal(&mut message, bits as u64);
                Err(message)
            },
        },
        SubFormat::Other => Err(sub_format_error(ext.sub_format_name.as_str(), bits)),
    }
}

/// Reads the mix format of an endpoint, if it gave one.
pub fn parse_mix_format(format: Option<&MixFormat>) -> (r: Result<FormatInfo, String>)
    ensures
        match format {
            Some(given) => match r {
                Ok(info) => given.reading() == Ok::<FormatInfo, Seq<char>>(info),
                Err(message) => given.reading() == Err::<FormatInfo, Seq<char>>(message@),
            },
            None => r is Err && r->Err_0@ == "IAudioClient::GetMixFormat returned null"@,
        },
        r matches Ok(info) ==> info.channels > 0 && info.block_align > 0,
{
    let given = match format {
        Some(given) => given,
        None => return Err("IAudioClient::GetMixFormat returned null".to_owned()),
    };
    let bits: u16 = given.bits_per_sample;
    let channels: u16 = one_or_more(given.channels);
    let block_align: u16 = one_or_more(given.block_align);
    let direct = if given.format_tag == TAG_IEEE_FLOAT && bits == 32 {
        Some(SampleFormatKind::Float32)
    } else if given.format_tag == TAG_PCM {
        pcm_kind_of(bits)
    } else {
        None
    };
    match direct {
        Some(kind) => {
            return Ok(
                FormatInfo {
                    sample_rate: given.sample_rate,
                    channels,
                    bits_per_sample: bits,
                    valid_bits_per_sample: bits,
                    block_align,
                    sample_format: kind,
                },
            );
        },
        None => {},
    }
    if given.format_tag == TAG_EXTENSIBLE {
        match &given.extension {
            Some(ext) => {
                return match extended_kind_of(ext, bits) {
                    Ok(kind) => Ok(
                        FormatInfo {
                            sample_rate: given.sample_rate,
                            channels,
                            bits_per_sample: bits,
                            valid_bits_per_sample: if ext.valid_bits_per_sample >= bits {
                                ext.valid_bits_per_sample
                            } else {
                                bits
                            },
                            block_align,
                            sample_format: kind,
                        },
                    ),
                    Err(message) => Err(message),
                };
            },
            None => {},
        }
    }
    let mut message = "unsupported loopback mix format: tag=".to_owned();
    push_decimal(&mut message, given.format_tag as u64);
    message.append(", bits_per_sample=");
    push_decimal(&mut message, bits as u64);
    message.append(", channels=");
    push_decimal(&mut message, channels as u64);
    message.append(", sample_rate=");
    push_decimal(&mut message, given.sample_rate as u64);
    Err(message)
}

impl FormatInfo {
    /// The bytes of a sample.
    pub open spec fn sample_bytes(self) -> int {
        match self.sample_format {
            SampleFormatKind::Float32 => 4,
            SampleFormatKind::Pcm16 => 2,
            SampleFormatKind::Pcm24 => 3,
            SampleFormatKind::Pcm32 => 4,
        }
    }

    /// The samples of a frame fit into its block.
    pub open spec fn fits(self) -> bool {
        self.channels * self.sample_bytes() <= self.block_align
    }

    /// Where a sample begins. Samples of three bytes keep to the blocks of the
    /// frames; the others follow each other without a gap.
    pub open spec fn sample_offset(self, frame: int, channel: int) -> int {
        match self.sample_format {
            SampleFormatKind::Pcm24 => frame * self.block_align + channel * 3,
            _ => (frame * self.channels + channel) * self.sample_bytes(),
        }
    }

    /// The sample that begins at `at`: the bit pattern of a floating-point
    /// sample, the value of any other.
    pub open spec fn sample_at(self, data: Seq<u8>, at: int) -> int {
        match self.sample_format {
            SampleFormatKind::Float32 => unsigned(data, at, 4),
            SampleFormatKind::Pcm16 => signed(data, at, 2),
            SampleFormatKind::Pcm24 => signed(data, at, 3),
            SampleFormatKind::Pcm32 => signed(data, at, 4),
        }
    }

    fn bytes_of_sample(self) -> (r: usize)
        ensures
            r == self.sample_bytes(),
    {
        match self.sample_format {
            SampleFormatKind::Float32 => 4,
            SampleFormatKind::Pcm16 => 2,
            SampleFormatKind::Pcm24 => 3,
            SampleFormatKind::Pcm32 => 4,
        }
    }

    /// Whether the samples of a frame fit into its block.
    pub fn frame_fits(self) -> (r: bool)
        ensures
            r == self.fits(),
    {
        let size: u64 = self.bytes_of_sample() as u64;
        assert(self.channels * size <= 65535 * 4) by (nonlinear_arith)
            requires
                self.channels <= 65535,
                size <= 4,
        ;
        self.channels as u64 * size <= self.block_align as u64
    }

    /// What a whole-number sample is divided by to give its level; none for a
    /// floating-point sample.
    pub fn full_scale(self) -> (r: Option<u32>)
        ensures
            r == match self.sample_format {
                SampleFormatKind::Float32 => None::<u32>,
                SampleFormatKind::Pcm16 => Some(32_767u32),
                SampleFormatKind::Pcm24 => Some(8_388_608u32),
                SampleFormatKind::Pcm32 => if self.valid_bits_per_sample == 24 {
                    Some(8_388_608u32)
                } else {
                    Some(2_147_483_647u32)
                },
            },
    {
        match self.sample_format {
            SampleFormatKind::Float32 => None,
            SampleFormatKind::Pcm16 => Some(32_767),
            SampleFormatKind::Pcm24 => Some(8_388_608),
            SampleFormatKind::Pcm32 => if self.valid_bits_per_sample == 24 {
                Some(8_388_608)
            } else {
                Some(2_147_483_647)
            },
        }
    }
}

/// The number that `n` bytes from `at` spell, the lowest byte first.
pub open spec fn unsigned(data: Seq<u8>, at: int, n: nat) -> int
    decreases n,
{
    if n == 0 {
        0
    } else {
        data[at] + 256 * unsigned(data, at + 1, (n - 1) as nat)
    }
}

/// The same in two's complement.
pub open spec fn signed(data: Seq<u8>, at: int, n: nat) -> int {
    let u = unsigned(data, at, n);
    if n > 0 && data[at + n - 1] >= 128 {
        u - power_of_256(n)
    } else {
        u
    }
}

pub open spec fn power_of_256(n: nat) -> int
    decreases n,
{
    if n == 0 {
        1
    } else {
        256 * power_of_256((n - 1) as nat)
    }
}

/// The size of a buffer in bytes.
pub fn buffer_bytes(frames: usize, format: FormatInfo) -> (r: Result<usize, String>)
    ensures
        match r {
            Ok(n) => n == frames * format.block_align,
            Err(message) => {
                &&& frames * format.block_align > usize::MAX
                &&& message@ == "audio capture buffer size overflow"@
            },
        },
{
    match frames.checked_mul(format.block_align as usize) {
        Some(n) => Ok(n),
        None => Err("audio capture buffer size overflow".to_owned()),
    }
}

/// The three-byte sample at the start of `bytes`, the lowest byte first.
pub fn decode_pcm24(bytes: &Vec<u8>, at: usize) -> (r: i64)
    requires
        at + 3 <= bytes@.len(),
    ensures
        r == signed(bytes@, at as int, 3),
        -8_388_608 <= r <= 8_388_607,
{
    let n: usize = bytes.len();
    assert(at + 3 <= n);
    reveal_with_fuel(unsigned, 4);
    reveal_with_fuel(power_of_256, 4);
    let raw: i64 = bytes[at] as i64 + 256 * (bytes[at + 1] as i64) + 65_536 * (bytes[at + 2] as i64);
    if bytes[at + 2] >= 128 {
        raw - 16_777_216
    } else {
        raw
    }
}

fn decode_sample(data: &Vec<u8>, at: usize, format: FormatInfo) -> (r: i64)
    requires
        at + format.sample_bytes() <= data@.len(),
    ensures
        r == format.sample_at(data@, at as int),
{
    let n: usize = data.len();
    assert(at + format.sample_bytes() <= n);
    reveal_with_fuel(unsigned, 5);
    reveal_with_fuel(power_of_256, 5);
    match format.sample_format {
        SampleFormatKind::Pcm24 => decode_pcm24(data, at),
        SampleFormatKind::Pcm16 => {
            let raw: i64 = data[at] as i64 + 256 * (data[at + 1] as i64);
            if data[at + 1] >= 128 {
                raw - 65_536
            } else {
                raw
            }
        },
        SampleFormatKind::Float32 => data[at] as i64 + 256 * (data[at + 1] as i64) + 65_536 * (data[at
            + 2] as i64) + 16_777_216 * (data[at + 3] as i64),
        SampleFormatKind::Pcm32 => {
            let raw: i64 = data[at] as i64 + 256 * (data[at + 1] as i64) + 65_536 * (data[at
                + 2] as i64) + 16_777_216 * (data[at + 3] as i64);
            if data[at + 3] >= 128 {
                raw - 4_294_967_296
            } else {
                raw
            }
        },
    }
}

proof fn lemma_sample_in_buffer(format: FormatInfo, frames: int, frame: int, channel: int)
    requires
        format.fits(),
        0 <= frame < frames,
        0 <= channel < format.channels,
    ensures
        0 <= format.sample_offset(frame, channel),
        format.sample_offset(frame, channel) + format.sample_bytes() <= frames * format.block_align,
{
    let size = format.sample_bytes();
    let block = format.block_align as int;
    let channels = format.channels as int;
    assert(channel * size + size <= channels * size) by (nonlinear_arith)
        requires
            channel + 1 <= channels,
            size > 0,
    ;
    assert(frame * block + block <= frames * block) by (nonlinear_arith)
        requires
            frame + 1 <= frames,
            block >= 0,
    ;
    assert(frame * block >= 0 && channel * size >= 0) by (nonlinear_arith)
        requires
            frame >= 0,
            block >= 0,
            channel >= 0,
            size > 0,
    ;
    assert((frame * channels + channel) * size == frame * (channels * size) + channel * size)
        by (nonlinear_arith);
    assert(frame * (channels * size) <= frame * block) by (nonlinear_arith)
        requires
            channels * size <= block,
            frame >= 0,
    ;
    assert(frame * (channels * size) >= 0) by (nonlinear_arith)
        requires
            frame >= 0,
            channels >= 0,
            size > 0,
    ;
}

/// Takes a buffer apart: the samples of every frame, channel by channel.
pub fn decode_capture_buffer(data: &Vec<u8>, frames: usize, format: FormatInfo) -> (r: Vec<
    Vec<i64>,
>)
    requires
        format.fits(),
        data@.len() == frames * format.block_align,
    ensures
        r@.len() == frames,
        forall|i: int| 0 <= i < frames ==> (#[trigger] r@[i])@.len() == format.channels,
        forall|i: int, c: int|
            0 <= i < frames && 0 <= c < format.channels ==> #[trigger] r@[i]@[c]
                == format.sample_at(data@, format.sample_offset(i, c)),
{
    let size: usize = format.bytes_of_sample();
    let channels: usize = format.channels as usize;
    let block: usize = format.block_align as usize;
    let total: usize = data.len();
    let mut r: Vec<Vec<i64>> = Vec::new();
    let mut frame: usize = 0;
    while frame < frames
        invariant
            format.fits(),
            size == format.sample_bytes(),
            channels == format.channels,
            block == format.block_align,
            data@.len() == total == frames * format.block_align,
            frame <= frames,
            r@.len() == frame,
            forall|i: int| 0 <= i < frame ==> (#[trigger] r@[i])@.len() == format.channels,
            forall|i: int, c: int|
                0 <= i < frame && 0 <= c < format.channels ==> #[trigger] r@[i]@[c]
                    == format.sample_at(data@, format.sample_offset(i, c)),
        decreases frames - frame,
    {
        let mut row: Vec<i64> = Vec::new();
        let mut channel: usize = 0;
        while channel < channels
            invariant
                format.fits(),
                size == format.sample_bytes(),
                channels == format.channels,
                block == format.block_align,
                data@.len() == total == frames * format.block_align,
                frame < frames,
                channel <= channels,
                row@.len() == channel,
                forall|c: int|
                    0 <= c < channel ==> #[trigger] row@[c] == format.sample_at(
                        data@,
                        format.sample_offset(frame as int, c),
                    ),
            decreases channels - channel,
        {
            proof {
                lemma_sample_in_buffer(format, frames as int, frame as int, channel as int);
                assert(frame * block <= frames * block) by (nonlinear_arith)
                    requires
                        frame <= frames,
                        block >= 0,
                ;
                assert(frame * channels + channel >= 0 && frame * channels + channel <= (frame
                    * channels + channel) * size) by (nonlinear_arith)
                    requires
                        frame >= 0,
                        channels >= 0,
                        channel >= 0,
                        size >= 1,
                ;
                assert(frame * channels >= 0) by (nonlinear_arith)
                    requires
                        frame >= 0,
                        channels >= 0,
                ;
                assert(channels * size >= channels) by (nonlinear_arith)
                    requires
                        channels >= 0,
                        size >= 1,
                ;
                assert(frame * channels <= frame * block) by (nonlinear_arith)
                    requires
                        frame >= 0,
                        channels <= block,
                ;
                assert((frame * channels + channel) * size == frame * (channels * size) + channel
                    * size) by (nonlinear_arith);
                assert(frame * (channels * size) + channel * size <= frames * block)
                    by (nonlinear_arith)
                    requires
                        frame + 1 <= frames,
                        channels * size <= block,
                        channel <= channels,
                        frame >= 0,
                        size >= 0,
                        block >= 0,
                ;
            }
            let at: usize = match format.sample_format {
                SampleFormatKind::Pcm24 => frame * block + channel * 3,
                _ => (frame * channels + channel) * size,
            };
            assert(at == format.sample_offset(frame as int, channel as int));
            row.push(decode_sample(data, at, format));
            channel += 1;
        }
        let ghost before = r@;
        r.push(row);
        assert forall|i: int, c: int|
            0 <= i < frame + 1 && 0 <= c < format.channels implies #[trigger] r@[i]@[c]
            == format.sample_at(data@, format.sample_offset(i, c)) by {
            if i < frame {
                assert(r@[i] == before[i]);
            }
        }
        frame += 1;
    }
    r
}

/// How the wait for the next buffer ended.
#[derive(Debug, Clone, Copy, PartialEq, Eq, Structural)]
pub enum WaitOutcome {
    Signalled,
    TimedOut,
    Failed,
}

/// What the capture loop does next.
#[derive(Debug, Clone, Copy, PartialEq, Eq, Structural)]
pub enum LoopbackStep {
    /// Stop the stream and end.
    Stop,
    /// Wait for the next buffer.
    Wait,
    /// Take the packets that are there.
    Drain,
    /// End with the error of the wait.
    Fail,
}

/// The step before a wait: a requested stop ends the loop.
pub fn before_wait(stop_requested: bool) -> (r: LoopbackStep)
    ensures
        r == if stop_requested {
            LoopbackStep::Stop
        } else {
            LoopbackStep::Wait
        },
{
    if stop_requested {
        LoopbackStep::Stop
    } else {
        LoopbackStep::Wait
    }
}

/// The step after a wait.
pub fn after_wait(outcome: WaitOutcome) -> (r: LoopbackStep)
    ensures
        r == match outcome {
            WaitOutcome::Signalled => LoopbackStep::Drain,
            WaitOutcome::TimedOut => LoopbackStep::Wait,
            WaitOutcome::Failed => LoopbackStep::Fail,
        },
{
    match outcome {
        WaitOutcome::Signalled => LoopbackStep::Drain,
        WaitOutcome::TimedOut => LoopbackStep::Wait,
        WaitOutcome::Failed => LoopbackStep::Fail,
    }
}

/// What a packet holds.
#[derive(Debug, Clone, Copy, PartialEq, Eq, Structural)]
pub enum PacketContent {
    Nothing,
    /// So many silent frames.
    Silence(u32),
    /// So many frames of samples.
    Samples(u32),
}

/// What to make of a packet: one without frames is passed over, one that is
/// marked silent or has no data counts as silence.
pub fn packet_content(frames: u32, marked_silent: bool, has_data: bool) -> (r: PacketContent)
    ensures
        r == if frames == 0 {
            PacketContent::Nothing
        } else if marked_silent || !has_data {
            PacketContent::Silence(frames)
        } else {
            PacketContent::Samples(frames)
        },
{
    if frames == 0 {
        PacketContent::Nothing
    } else if marked_silent || !has_data {
        PacketContent::Silence(frames)
    } else {
        PacketContent::Samples(frames)
    }
}

/// The period to ask for: none below zero.
pub fn stream_period(default_period: i64) -> (r: i64)
    ensures
        r == if default_period < 0 {
            0
        } else {
            default_period
        },
{
    if default_period < 0 {
        0
    } else {
        default_period
    }
}

/// Bytes spell a number with the lowest byte first; signed ones are negative from
/// the top bit of the highest byte on.
pub proof fn law_samples_are_spelled_by_their_bytes(data: Seq<u8>, at: int)
    ensures
        ({
            let two = data[at] + 256 * data[at + 1];
            let three = two + 65536 * data[at + 2];
            let four = three + 16777216 * data[at + 3];
            &&& unsigned(data, at, 4) == four
            &&& signed(data, at, 2) == if data[at + 1] < 128 {
                two
            } else {
                two - 65536
            }
            &&& signed(data, at, 3) == if data[at + 2] < 128 {
                three
            } else {
                three - 16777216
            }
            &&& signed(data, at, 4) == if data[at + 3] < 128 {
                four
            } else {
                four - 4294967296
            }
        }),
{
    reveal_with_fuel(unsigned, 5);
    reveal_with_fuel(power_of_256, 5);
}

/// A sample is read by its kind.
pub proof fn law_samples_are_read_by_their_kind(format: FormatInfo, data: Seq<u8>, at: int)
    ensures
        format.sample_format == SampleFormatKind::Float32 ==> format.sample_at(data, at)
            == unsigned(data, at, 4),
        format.sample_format == SampleFormatKind::Pcm16 ==> format.sample_at(data, at) == signed(
            data,
            at,
            2,
        ),
        format.sample_format == SampleFormatKind::Pcm24 ==> format.sample_at(data, at) == signed(
            data,
            at,
            3,
        ),
        format.sample_format == SampleFormatKind::Pcm32 ==> format.sample_at(data, at) == signed(
            data,
            at,
            4,
        ),
{
}

/// Samples follow each other: the next channel begins where the sample ends, the
/// next frame where the last channel ends, or with the next block for samples of
/// three bytes.
pub proof fn law_samples_follow_each_other(format: FormatInfo, frame: int, channel: int)
    ensures
        ({
            let size: int = match format.sample_format {
                SampleFormatKind::Float32 => 4,
                SampleFormatKind::Pcm16 => 2,
                SampleFormatKind::Pcm24 => 3,
                SampleFormatKind::Pcm32 => 4,
            };
            &&& format.sample_bytes() == size
            &&& format.fits() <==> format.channels * size <= format.block_align
            &&& format.sample_offset(0, 0) == 0
            &&& format.sample_offset(frame, channel + 1) == format.sample_offset(frame, channel)
                + size
            &&& format.sample_format == SampleFormatKind::Pcm24 ==> format.sample_offset(
                frame + 1,
                channel,
            ) == format.sample_offset(frame, channel) + format.block_align
            &&& format.sample_format != SampleFormatKind::Pcm24 ==> format.sample_offset(
                frame + 1,
                channel,
            ) == format.sample_offset(frame, channel) + format.channels * size
        }),
{
    let size = format.sample_bytes();
    let n = format.channels as int;
    let block = format.block_align as int;
    assert((frame * n + channel + 1) * size == (frame * n + channel) * size + size)
        by (nonlinear_arith);
    assert(((frame + 1) * n + channel) * size == (frame * n + channel) * size + n * size)
        by (nonlinear_arith);
    assert((frame + 1) * block == frame * block + block) by (nonlinear_arith);
    assert(0 * n == 0 && 0 * block == 0) by (nonlinear_arith);
    assert((0 * n + 0) * size == 0) by (nonlinear_arith);
}

/// A plain format is read where it is floating point of 32 bits or integer of 16,
/// 24 or 32; an extensible one by its subformat in the same way. Everything that
/// the format says of the stream is kept.
pub proof fn law_formats_are_read(format: MixFormat)
    ensures
        ({
            let bits = format.bits_per_sample;
            let plain = format.format_tag == 1 || format.format_tag == 3;
            let extended = format.format_tag == 0xfffe && format.extension is Some;
            let float = format.format_tag == 3 || (extended && format.extension->0.sub_format
                == SubFormat::IeeeFloat);
            let pcm = format.format_tag == 1 || (extended && format.extension->0.sub_format
                == SubFormat::Pcm);
            &&& format.reading() is Ok <==> (float && bits == 32) || (pcm && (bits == 16 || bits
                == 24 || bits == 32))
            &&& format.reading() matches Ok(info) ==> {
                &&& info.sample_rate == format.sample_rate
                &&& info.bits_per_sample == bits
                &&& info.channels == if format.channels == 0 {
                    1
                } else {
                    format.channels
                }
                &&& info.block_align == if format.block_align == 0 {
                    1
                } else {
                    format.block_align
                }
                &&& float ==> info.sample_format == SampleFormatKind::Float32
                &&& pcm && bits == 16 ==> info.sample_format == SampleFormatKind::Pcm16
                &&& pcm && bits == 24 ==> info.sample_format == SampleFormatKind::Pcm24
                &&& pcm && bits == 32 ==> info.sample_format == SampleFormatKind::Pcm32
                &&& plain ==> info.valid_bits_per_sample == bits
                &&& !plain ==> info.valid_bits_per_sample
                    == if format.extension->0.valid_bits_per_sample > bits {
                    format.extension->0.valid_bits_per_sample
                } else {
                    bits
                }
            }
        }),
{
}

/// A format that cannot be read is named in the error.
pub proof fn law_unread_formats_are_named(format: MixFormat)
    ensures
        ({
            let bits = text::decimal(format.bits_per_sample as nat);
            let channels = text::decimal(
                if format.channels == 0 {
                    1
                } else {
                    format.channels as nat
                },
            );
            let extended = format.format_tag == 0xfffe && format.extension is Some;
            format.reading() matches Err(message) ==> {
                &&& !extended ==> message == "unsupported loopback mix format: tag="@
                    + text::decimal(format.format_tag as nat) + ", bits_per_sample="@ + bits
                    + ", channels="@ + channels + ", sample_rate="@ + text::decimal(
                    format.sample_rate as nat,
                )
                &&& extended && format.extension->0.sub_format == SubFormat::Pcm ==> message
                    == "unsupported extensible PCM bits_per_sample: "@ + bits
                &&& extended && format.extension->0.sub_format != SubFormat::Pcm ==> message
                    == "unsupported extensible subformat: "@ + format.extension->0.sub_format_name@
                    + " (bits_per_sample="@ + bits + ")"@
            }
        }),
{
}

} // verus!
