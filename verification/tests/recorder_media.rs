use shikit::i18n::Language;
use shikit::recorder::audio::{
    input_format, pcm24_value, AudioFormatError, MicrophoneQueue, SampleFormat, SubFormat,
    WAVE_FORMAT_EXTENSIBLE, WAVE_FORMAT_IEEE_FLOAT, WAVE_FORMAT_PCM,
};
use shikit::recorder::config::OutputFormat;
use shikit::recorder::encode::{
    ffmpeg_arguments, pcm_bytes, sidecar_path, AudioWrite, GifError, GifTimeline, RawTimeline,
    RawWriteError,
};
use shikit::recorder::encode::{audio_sample_span, frame_duration, video_bitrate, video_sample_time};
use shikit::recorder::output::prepare_paths;
use shikit::recorder::session::{
    AudioStatus, Command, Reaction, RecordingSession, TickPlan, AUDIO_CHUNK_FRAMES,
};

const MS: u64 = 1_000_000;

#[test]
fn sidecar_paths_stay_next_to_partial_output() {
    assert_eq!(
        sidecar_path("/tmp/recording.mp4.partial", "video.bgra"),
        "/tmp/recording.mp4.partial.video.bgra"
    );
}

#[test]
fn ffmpeg_arguments_describe_bgra_and_optional_pcm_inputs() {
    let values = ffmpeg_arguments("video.raw", Some("audio.raw"), "out.mp4", 1920, 1080, 30);
    assert!(values
        .windows(2)
        .any(|pair| pair[0] == "-pixel_format" && pair[1] == "bgra"));
    assert!(values.windows(2).any(|pair| pair[0] == "-f" && pair[1] == "s16le"));
    assert!(values
        .windows(2)
        .any(|pair| pair[0] == "-c:v" && pair[1] == "libx264"));
    assert_eq!(values.last().map(|s| s.as_str()), Some("out.mp4"));
}

#[test]
fn ffmpeg_arguments_without_audio_have_no_pcm_input() {
    let values = ffmpeg_arguments("video.raw", None, "out.mp4", 640, 480, 10);
    assert!(!values.iter().any(|v| v == "s16le"));
    assert!(values.windows(2).any(|pair| pair[0] == "-video_size" && pair[1] == "640x480"));
    assert_eq!(values.last().map(|s| s.as_str()), Some("out.mp4"));
}

#[test]
fn gif_frames_get_delays_from_their_index_gaps() {
    let mut timeline = GifTimeline::create(1, 1, 10).unwrap();
    let pixel = [1u8, 2, 3, 255];
    assert!(timeline.push_frame(0, &pixel).unwrap().is_none());
    let first = timeline.push_frame(1, &pixel).unwrap().unwrap();
    assert_eq!(first.delay, 10);
    assert_eq!(first.rgba, vec![3, 2, 1, 255]);
    let second = timeline.push_frame(4, &pixel).unwrap().unwrap();
    assert_eq!(second.delay, 30);
    let last = timeline.finish().unwrap();
    assert_eq!(last.delay, 10);
}

#[test]
fn gif_accepts_only_ten_or_twenty_frames_per_second() {
    assert!(GifTimeline::create(10, 10, 30).is_err());
    assert!(GifTimeline::create(10, 10, 20).is_ok());
    assert!(GifTimeline::create(70_000, 10, 10).is_err());
}

#[test]
fn raw_timeline_rejects_gaps_and_wrong_sizes() {
    let mut timeline = RawTimeline::new(2, 2, true);
    assert_eq!(timeline.accept_video(0, 16), Ok(()));
    assert_eq!(
        timeline.accept_video(2, 16),
        Err(RawWriteError::VideoGap {
            expected: 1,
            actual: 2
        })
    );
    assert_eq!(
        timeline.accept_video(1, 15),
        Err(RawWriteError::FrameSize {
            expected: 16,
            actual: 15
        })
    );
    assert_eq!(timeline.accept_audio(0, 4), Ok(AudioWrite::Append));
    assert_eq!(
        timeline.accept_audio(0, 4),
        Err(RawWriteError::AudioGap {
            expected: 2,
            actual: 0
        })
    );
    assert_eq!(timeline.accept_audio(2, 3), Err(RawWriteError::PartialStereoFrame));
    let mut silent = RawTimeline::new(2, 2, false);
    assert_eq!(silent.accept_audio(7, 3), Ok(AudioWrite::Skip));
}

#[test]
fn pcm_samples_are_written_little_endian() {
    assert_eq!(pcm_bytes(&[1, -2, 0x1234]), vec![1, 0, 0xfe, 0xff, 0x34, 0x12]);
}

fn audio_ready() -> AudioStatus {
    AudioStatus {
        system_available: true,
        microphone_available: true,
        has_any_source: true,
        system_error: None,
        microphone_error: None,
    }
}

#[test]
fn session_timeline_skips_paused_time() {
    let start = RecordingSession::begin(
        Language::English,
        Some(audio_ready()),
        true,
        true,
        false,
        false,
        10,
        48_000,
        0,
    )
    .unwrap();
    let mut session = start.session;
    assert!(start.include_audio);
    let mut video = Vec::new();
    let mut audio_frames = 0u64;
    let mut record = |plan: TickPlan, video: &mut Vec<u64>, audio_frames: &mut u64| {
        if let TickPlan::Active {
            video_frame,
            audio_start,
            audio_chunks,
            ..
        } = plan
        {
            if let Some(index) = video_frame {
                video.push(index);
            }
            assert_eq!(audio_start, *audio_frames);
            *audio_frames += audio_chunks * AUDIO_CHUNK_FRAMES;
        }
    };
    record(session.plan_tick(0), &mut video, &mut audio_frames);
    session.apply(Language::English, Command::SystemAudio(false), 50 * MS);
    assert!(!session.system_audio());
    record(session.plan_tick(60 * MS), &mut video, &mut audio_frames);
    assert!(matches!(
        session.apply(Language::English, Command::TogglePause, 120 * MS),
        Reaction::PauseChanged(true)
    ));
    assert_eq!(session.plan_tick(200 * MS), TickPlan::Paused);
    assert!(matches!(
        session.apply(Language::English, Command::TogglePause, 320 * MS),
        Reaction::PauseChanged(false)
    ));
    record(session.plan_tick(350 * MS), &mut video, &mut audio_frames);
    record(session.plan_tick(450 * MS), &mut video, &mut audio_frames);
    assert!(matches!(
        session.apply(Language::English, Command::Stop, 500 * MS),
        Reaction::Stop
    ));
    let plan = session.finish(500 * MS);
    assert_eq!(plan.duration, 300 * MS);
    assert_eq!(video, vec![0, 1, 2]);
    let tail = plan.audio_tail.map(|span| {
        assert_eq!(span.start, audio_frames);
        span.frames
    });
    assert_eq!(audio_frames + tail.unwrap_or(0), 14_400);
}

#[test]
fn unavailable_enabled_source_stops_the_start() {
    let mut audio = audio_ready();
    audio.microphone_available = false;
    audio.microphone_error = Some("no device".to_owned());
    let result = RecordingSession::begin(Language::English, Some(audio), false, true, false, false, 10, 48_000, 0);
    assert!(result.is_err());
}

#[test]
fn microphone_queue_hands_out_samples_in_arrival_order() {
    let mut queue = MicrophoneQueue::new();
    queue.push_bytes(&[1, 0, 2, 0, 3, 0]);
    queue.push_bytes(&[4, 0, 0xff, 0xff, 9]);
    assert_eq!(queue.mix(2, true), vec![1, 2, 3, 4]);
    assert_eq!(queue.mix(2, true), vec![-1, 0, 0, 0]);
    queue.push_bytes(&[5, 0, 6, 0]);
    assert_eq!(queue.mix(1, false), vec![0, 0]);
    assert_eq!(queue.mix(1, true), vec![0, 0]);
    queue.push_bytes(&[7, 0]);
    queue.discard();
    assert_eq!(queue.mix(1, true), vec![0, 0]);
}

#[test]
fn capture_formats_are_classified() {
    let float = input_format(WAVE_FORMAT_IEEE_FLOAT, 2, 48_000, 8, 32, None).unwrap();
    assert_eq!(float.sample_format, SampleFormat::Float32);
    assert_eq!(float.bytes_per_sample, 4);
    let pcm24 = input_format(WAVE_FORMAT_EXTENSIBLE, 2, 44_100, 6, 24, Some(SubFormat::Pcm)).unwrap();
    assert_eq!(pcm24.sample_format, SampleFormat::Pcm24);
    assert_eq!(pcm24.bytes_per_sample, 3);
    assert_eq!(
        input_format(WAVE_FORMAT_PCM, 0, 48_000, 4, 16, None),
        Err(AudioFormatError::Invalid)
    );
    let refused = input_format(WAVE_FORMAT_PCM, 2, 48_000, 2, 8, None).unwrap_err();
    assert_eq!(refused.message(), "不支持的音频设备格式：tag=1, bits=8");
}

#[test]
fn pcm24_samples_are_sign_extended() {
    assert_eq!(pcm24_value(0xff, 0xff, 0x7f), 0x7f_ffff);
    assert_eq!(pcm24_value(0x00, 0x00, 0x80), -0x80_0000);
    assert_eq!(pcm24_value(0xff, 0xff, 0xff), -1);
}

#[test]
fn gif_format_has_no_audio_track_in_sessions() {
    let start = RecordingSession::begin(Language::English, None, true, true, false, false, 10, 48_000, 0).unwrap();
    assert!(!start.include_audio);
    let _ = OutputFormat::Gif;
}

#[test]
fn gif_errors_name_the_limit_that_was_hit() {
    assert_eq!(
        GifError::UnsupportedFrameRate.message(Language::English),
        "The GIF frame rate must be 10 or 20 FPS"
    );
    assert_eq!(
        GifError::InvalidFrameLength { actual: 12, expected: 16 }.message(Language::English),
        "The GIF input frame has an invalid pixel length: 12 != 16"
    );
    assert_eq!(GifError::WidthTooLarge.message(Language::Chinese), "GIF 宽度超过格式限制");
    let error = GifTimeline::create(70_000, 10, 10).err().unwrap();
    assert_eq!(error.message(Language::English), "The GIF width exceeds the format limit");
}

#[test]
fn raw_write_errors_report_expected_and_actual_values() {
    assert_eq!(
        RawWriteError::VideoGap { expected: 3, actual: 5 }.message(Language::English),
        "The video frame timeline is not contiguous: expected 3, got 5"
    );
    assert_eq!(
        RawWriteError::FrameSize { expected: 64, actual: 60 }.message(Language::Chinese),
        "视频帧字节数不正确: expected 64, got 60"
    );
    assert_eq!(
        RawWriteError::PartialStereoFrame.message(Language::English),
        "The audio samples do not contain complete stereo frames"
    );
}

#[test]
fn output_uses_selected_extension_and_hidden_partial_file() {
    let directory = "shiping-output-test-directory-that-does-not-exist";
    let paths = prepare_paths(directory, "1700000000", OutputFormat::Mp4).unwrap();
    assert!(paths.final_path.ends_with("Recording_1700000000.mp4"));
    assert!(paths.final_path.starts_with(directory));
    let partial_name = paths.partial.rsplit(['/', '\\']).next().unwrap();
    assert!(partial_name.starts_with('.') && partial_name.ends_with(".partial.mp4"));
    let gif_paths = prepare_paths(directory, "1700000000", OutputFormat::Gif).unwrap();
    assert!(gif_paths.final_path.ends_with(".gif"));
    let gif_partial = gif_paths.partial.rsplit(['/', '\\']).next().unwrap();
    assert!(gif_partial.starts_with('.') && gif_partial.ends_with(".partial.gif"));
}

#[test]
fn media_foundation_timing_and_bitrate() {
    assert_eq!(video_bitrate(1920, 1080, 30), 7_776_000);
    assert_eq!(video_bitrate(16, 16, 30), 2_000_000);
    assert_eq!(video_bitrate(7680, 4320, 60), 25_000_000);
    assert_eq!(frame_duration(30), 333_333);
    assert_eq!(video_sample_time(3, frame_duration(30)), 999_999);
    assert_eq!(audio_sample_span(48_000, 2048), Some((10_000_000, 213_333)));
    assert_eq!(audio_sample_span(0, 1), None);
}

use shikit::recorder::encode::{gif_frame_data, GifFrame};

#[test]
fn supported_gif_sizes_and_rates_start_a_timeline() {
    assert!(GifTimeline::create(2, 2, 10).is_ok());
    assert!(GifTimeline::create(65_535, 1, 20).is_ok());
}

#[test]
fn quantized_gif_frames_keep_one_index_per_pixel_and_their_delay() {
    let frame = GifFrame { rgba: vec![255, 0, 0, 255, 0, 255, 0, 255, 0, 0, 255, 255, 0, 0, 0, 0], delay: 30 };
    let data = gif_frame_data(2, 2, &frame);
    assert_eq!(data.indices.len(), 4);
    assert_eq!(data.delay, 30);
    assert_eq!((data.width, data.height), (2, 2));
    assert_eq!(data.palette.len() % 3, 0);
    assert!(data.palette.len() <= 768);
    assert!(data.transparent.is_some());
}

#[test]
fn clock_range_checks_accept_ordinary_readings() {
    let start = RecordingSession::begin(Language::English, None, true, true, false, false, 10, 48_000, 0).unwrap();
    assert!(start.session.can_apply_at(1_000_000_000));
    assert!(start.session.can_plan_tick_at(1_000_000_000));
    assert!(start.session.can_finish_at(1_000_000_000));
    assert!(start.session.can_apply_at(u64::MAX));
}

#[test]
fn quantizing_a_frame_twice_gives_the_same_frame() {
    let frame = GifFrame { rgba: vec![1, 2, 3, 255, 4, 5, 6, 255, 1, 2, 3, 255, 7, 8, 9, 0], delay: 10 };
    let a = gif_frame_data(2, 2, &frame);
    let b = gif_frame_data(2, 2, &frame);
    assert_eq!((a.palette, a.indices, a.transparent), (b.palette, b.indices, b.transparent));
}
