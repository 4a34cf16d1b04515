use dglab_audio_link::audio::capture::{
    best_scored, choose_supported_config, list_output_device_names, normalize_analysis_frame_size,
    normalized_wish, select_input_device, DeviceChoice, DeviceInfo, LoopbackCapture,
    LoopbackCaptureConfig, StreamChoice, StreamRange, StreamSampleFormat,
};
use dglab_audio_link::audio::frames::FrameBuffer;
use dglab_audio_link::audio::names::order_names;
use dglab_audio_link::audio::windows_endpoints::{
    default_render_endpoint_name, describe_endpoint, list_render_endpoint_names,
    list_render_endpoints, resolve_render_endpoint, WindowsRenderEndpoint,
};
use dglab_audio_link::audio::windows_loopback::{
    after_wait, before_wait, buffer_bytes, decode_capture_buffer, decode_pcm24, packet_content,
    parse_mix_format, stream_period, FormatExtension, FormatInfo, LoopbackStep, MixFormat,
    PacketContent, SampleFormatKind, SubFormat, WaitOutcome, TAG_EXTENSIBLE, TAG_IEEE_FLOAT,
    TAG_PCM,
};
use dglab_audio_link::level::Level;

fn strings(names: &[&str]) -> Vec<String> {
    names.iter().map(|name| (*name).to_owned()).collect()
}

fn device(name: &str) -> DeviceInfo {
    DeviceInfo { name: name.to_owned(), virtual_device: false, virtual_interface: false }
}

fn choice(from_outputs: bool, index: usize, matched: bool) -> Result<DeviceChoice, String> {
    Ok(DeviceChoice { from_outputs, index, matched })
}

#[test]
fn frame_sizes_are_normalised() {
    for size in [256, 512, 1024, 2048] {
        assert_eq!(normalize_analysis_frame_size(size), size);
    }
    assert_eq!(normalize_analysis_frame_size(0), 1024);
    assert_eq!(normalize_analysis_frame_size(4096), 1024);
}

#[test]
fn names_are_tidied() {
    assert_eq!(
        list_output_device_names(&strings(&["b", "  ", "a", "b", "B", ""])),
        ["B", "a", "b"]
    );
    assert_eq!(order_names(&strings(&["b", " ", "a", "b"])), [" ", "a", "b"]);
}

#[test]
fn the_best_stream_is_chosen() {
    let wanted = LoopbackCaptureConfig::default();
    let range = |channels, min, max, format| StreamRange {
        channels,
        min_sample_rate: min,
        max_sample_rate: max,
        format,
    };
    let ranges = vec![
        range(1, 8000, 48000, StreamSampleFormat::Float32),
        range(2, 8000, 44100, StreamSampleFormat::Signed16),
        range(2, 8000, 96000, StreamSampleFormat::Signed16),
        range(2, 8000, 96000, StreamSampleFormat::Unsigned16),
    ];
    assert_eq!(
        choose_supported_config(&ranges, &wanted, true, true),
        Ok(StreamChoice::Offered { index: 2, sample_rate: 48000 })
    );
    assert_eq!(
        choose_supported_config(&ranges[1..2].to_vec(), &wanted, true, true),
        Ok(StreamChoice::Offered { index: 0, sample_rate: 44100 })
    );
    assert_eq!(
        choose_supported_config(&vec![], &wanted, true, true),
        Ok(StreamChoice::DefaultOutput)
    );
    assert_eq!(
        choose_supported_config(&vec![], &wanted, false, true),
        Ok(StreamChoice::DefaultInput)
    );
    assert_eq!(
        choose_supported_config(&vec![], &wanted, false, false),
        Err("no supported stream config available for selected capture endpoint".to_owned())
    );
}

#[test]
fn rates_are_compared_in_thirty_two_bits() {
    let mut wanted = LoopbackCaptureConfig::default();
    wanted.sample_rate = 1;
    let range = |rate| StreamRange {
        channels: 2,
        min_sample_rate: rate,
        max_sample_rate: rate,
        format: StreamSampleFormat::Float32,
    };
    assert_eq!(
        choose_supported_config(&vec![range(20_001), range(u32::MAX)], &wanted, true, true),
        Ok(StreamChoice::Offered { index: 1, sample_rate: u32::MAX })
    );
}

#[test]
fn the_wished_for_speaker_is_chosen() {
    let outputs = vec![device("Headset"), device("Speakers (USB)"), device("speakers")];
    let none = vec![];
    assert_eq!(select_input_device(&outputs, &none, Some(" SPEAKERS "), None), choice(true, 2, true));
    assert_eq!(select_input_device(&outputs, &none, Some("usb"), None), choice(true, 1, true));
    assert_eq!(
        select_input_device(&outputs, &none, Some("gone"), Some("Headset")),
        choice(true, 0, false)
    );
    assert_eq!(
        select_input_device(&outputs, &none, None, Some("Speakers (USB)")),
        choice(true, 1, false)
    );
    assert_eq!(normalized_wish(Some("  ")), None);
    assert_eq!(normalized_wish(Some(" A ")).as_deref(), Some("a"));
    assert_eq!(best_scored(&vec![0, 3, 5, 5]), Some(2));
    assert_eq!(best_scored(&vec![0, -1]), None);
}

#[test]
fn an_input_serves_where_there_is_no_speaker() {
    let none = vec![];
    let inputs = vec![device("Microphone"), device("Stereo Mix"), device("Loopback")];
    assert_eq!(select_input_device(&none, &inputs, None, None), choice(false, 2, false));
    assert_eq!(
        select_input_device(&none, &inputs, Some("micro"), None),
        choice(false, 0, true)
    );
    let mics = vec![device("Microphone")];
    assert_eq!(
        select_input_device(&none, &mics, None, None),
        Err("no loopback input device found. this app captures speaker playback (loopback), not \
             microphone input"
            .to_owned())
    );
    assert_eq!(
        select_input_device(&none, &mics, Some("X"), None),
        Err("no loopback input device found for speaker `X`. this app captures speaker playback \
             (loopback), not microphone input"
            .to_owned())
    );
}

#[test]
fn a_capture_starts_once() {
    let mut capture = LoopbackCapture::default();
    assert!(!capture.is_started());
    capture.start("one");
    capture.start("two");
    assert!(capture.is_started());
    assert_eq!(capture.selected_device_name(), Some("one"));
    capture.stop();
    assert_eq!(capture.selected_device_name(), None);
    assert!(!capture.is_started());
}

#[test]
fn samples_are_cut_into_frames() {
    let level = |x: u32| Level::from_bits(x);
    let mut buffer = FrameBuffer::new(3);
    assert!(buffer.push_mono_sample(level(1)).is_none());
    let frames = buffer.push_all(&(2..9).map(level).collect());
    let bits: Vec<Vec<u32>> =
        frames.iter().map(|frame| frame.iter().map(|l| l.bits).collect()).collect();
    assert_eq!(bits, [[1, 2, 3], [4, 5, 6]]);
    let frames = buffer.push_silent_frames(2);
    assert_eq!(frames[0].iter().map(|l| l.bits).collect::<Vec<_>>(), [7, 8, 0]);
    assert_eq!(buffer.samples.len(), 1);
}

fn endpoint(id: &str, name: &str, is_default: bool) -> WindowsRenderEndpoint {
    WindowsRenderEndpoint { id: id.to_owned(), name: name.to_owned(), is_default }
}

#[test]
fn endpoints_are_described_and_listed() {
    let one = describe_endpoint("1".to_owned(), "Speaker".to_owned(), Some("1")).expect("must do");
    assert!(one.is_default);
    let two = describe_endpoint("2".to_owned(), "Headset".to_owned(), None).expect("must do");
    assert!(!two.is_default);
    assert_eq!(
        describe_endpoint("3".to_owned(), " ".to_owned(), None).err().as_deref(),
        Some("Windows render endpoint friendly name is empty")
    );
    let list = list_render_endpoints(&vec![one.clone(), two, endpoint("4", "Speaker", false), one]);
    assert_eq!(
        list.iter().map(|e| (e.id.as_str(), e.name.as_str())).collect::<Vec<_>>(),
        [("2", "Headset"), ("1", "Speaker")]
    );
    assert_eq!(list_render_endpoint_names(&list), ["Headset", "Speaker"]);
    assert_eq!(default_render_endpoint_name(&list).as_deref(), Some("Speaker"));
    assert_eq!(default_render_endpoint_name(&vec![]), None);
}

#[test]
fn endpoints_are_resolved() {
    let list = vec![
        endpoint("1", "Headset", false),
        endpoint("2", "Speaker", true),
        endpoint("3", "Speaker Two", false),
    ];
    let resolve = |name: Option<&str>| {
        let found = resolve_render_endpoint(name, &list).expect("must resolve");
        (found.endpoint.id, found.preferred_matched)
    };
    assert_eq!(resolve(None), ("2".to_owned(), true));
    assert_eq!(resolve(Some("headset")), ("1".to_owned(), true));
    assert_eq!(resolve(Some("two")), ("3".to_owned(), true));
    assert_eq!(resolve(Some("gone")), ("2".to_owned(), true));
    let plain = vec![endpoint("1", "Headset", false)];
    let found = resolve_render_endpoint(Some("gone"), &plain).expect("must resolve");
    assert_eq!((found.endpoint.id.as_str(), found.preferred_matched), ("1", false));
    assert_eq!(
        resolve_render_endpoint(None, &vec![]).err().as_deref(),
        Some("Windows reported no active render endpoints")
    );
}

fn plain(format_tag: u32, bits_per_sample: u16, block_align: u16) -> MixFormat {
    MixFormat {
        format_tag,
        sample_rate: 48000,
        channels: 2,
        bits_per_sample,
        block_align,
        extension: None,
    }
}

fn extended(bits: u16, valid: u16, sub_format: SubFormat) -> MixFormat {
    MixFormat {
        extension: Some(FormatExtension {
            valid_bits_per_sample: valid,
            sub_format,
            sub_format_name: "GUID".to_owned(),
        }),
        ..plain(TAG_EXTENSIBLE, bits, 8)
    }
}

#[test]
fn mix_formats_are_read() {
    let kind = |format: MixFormat| parse_mix_format(Some(&format)).map(|info| info.sample_format);
    assert_eq!(kind(plain(TAG_IEEE_FLOAT, 32, 8)), Ok(SampleFormatKind::Float32));
    assert_eq!(kind(plain(TAG_PCM, 16, 4)), Ok(SampleFormatKind::Pcm16));
    assert_eq!(kind(plain(TAG_PCM, 24, 6)), Ok(SampleFormatKind::Pcm24));
    assert_eq!(kind(plain(TAG_PCM, 32, 8)), Ok(SampleFormatKind::Pcm32));
    assert_eq!(kind(extended(32, 32, SubFormat::IeeeFloat)), Ok(SampleFormatKind::Float32));
    assert_eq!(kind(extended(32, 24, SubFormat::Pcm)), Ok(SampleFormatKind::Pcm32));
    let info = parse_mix_format(Some(&extended(24, 32, SubFormat::Pcm))).expect("must read");
    assert_eq!(info.valid_bits_per_sample, 32);
    assert_eq!(
        kind(plain(TAG_PCM, 8, 2)),
        Err("unsupported loopback mix format: tag=1, bits_per_sample=8, channels=2, \
             sample_rate=48000"
            .to_owned())
    );
    assert_eq!(
        kind(extended(8, 8, SubFormat::Pcm)),
        Err("unsupported extensible PCM bits_per_sample: 8".to_owned())
    );
    assert_eq!(
        kind(extended(64, 64, SubFormat::IeeeFloat)),
        Err("unsupported extensible subformat: GUID (bits_per_sample=64)".to_owned())
    );
    assert!(kind(extended(32, 32, SubFormat::Other)).is_err());
    assert_eq!(
        parse_mix_format(None),
        Err("IAudioClient::GetMixFormat returned null".to_owned())
    );
}

fn info(sample_format: SampleFormatKind, channels: u16, block_align: u16) -> FormatInfo {
    FormatInfo {
        sample_rate: 48000,
        channels,
        bits_per_sample: 32,
        valid_bits_per_sample: 32,
        block_align,
        sample_format,
    }
}

#[test]
fn buffers_are_taken_apart() {
    let floats: Vec<u8> =
        [0.5f32, -1.0, 0.25, 0.0].iter().flat_map(|x| x.to_le_bytes()).collect();
    let frames = decode_capture_buffer(&floats, 2, info(SampleFormatKind::Float32, 2, 8));
    assert_eq!(frames[0][1] as u32, (-1.0f32).to_bits());
    assert_eq!(frames[1][0] as u32, 0.25f32.to_bits());
    let words: Vec<u8> = [-2i16, 300].iter().flat_map(|x| x.to_le_bytes()).collect();
    assert_eq!(
        decode_capture_buffer(&words, 2, info(SampleFormatKind::Pcm16, 1, 2)),
        [[-2], [300]]
    );
    let longs: Vec<u8> = [i32::MIN, 7].iter().flat_map(|x| x.to_le_bytes()).collect();
    assert_eq!(
        decode_capture_buffer(&longs, 1, info(SampleFormatKind::Pcm32, 2, 8)),
        [[i64::from(i32::MIN), 7]]
    );
    let padded = vec![1, 0, 0, 255, 255, 255, 9, 9, 2, 0, 0, 0, 0, 128, 9, 9];
    assert_eq!(
        decode_capture_buffer(&padded, 2, info(SampleFormatKind::Pcm24, 2, 8)),
        [[1, -1], [2, -8_388_608]]
    );
    assert_eq!(decode_pcm24(&vec![0xff, 0xff, 0x7f], 0), 8_388_607);
    assert!(info(SampleFormatKind::Pcm24, 2, 6).frame_fits());
    assert!(!info(SampleFormatKind::Float32, 2, 6).frame_fits());
    assert_eq!(info(SampleFormatKind::Pcm16, 1, 2).full_scale(), Some(32767));
    assert_eq!(info(SampleFormatKind::Float32, 1, 4).full_scale(), None);
    assert_eq!(buffer_bytes(10, info(SampleFormatKind::Pcm16, 1, 2)), Ok(20));
    assert_eq!(
        buffer_bytes(usize::MAX, info(SampleFormatKind::Pcm16, 1, 2)),
        Err("audio capture buffer size overflow".to_owned())
    );
}

#[test]
fn the_capture_loop_steps() {
    assert_eq!(before_wait(true), LoopbackStep::Stop);
    assert_eq!(before_wait(false), LoopbackStep::Wait);
    assert_eq!(after_wait(WaitOutcome::Signalled), LoopbackStep::Drain);
    assert_eq!(after_wait(WaitOutcome::TimedOut), LoopbackStep::Wait);
    assert_eq!(after_wait(WaitOutcome::Failed), LoopbackStep::Fail);
    assert_eq!(packet_content(0, true, true), PacketContent::Nothing);
    assert_eq!(packet_content(5, true, true), PacketContent::Silence(5));
    assert_eq!(packet_content(5, false, false), PacketContent::Silence(5));
    assert_eq!(packet_content(5, false, true), PacketContent::Samples(5));
    assert_eq!(stream_period(-3), 0);
    assert_eq!(stream_period(100_000), 100_000);
}
