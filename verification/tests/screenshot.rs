use shikit::bitmap::{bitmap_info, decode_dib, encode_dib, DibError};
use shikit::i18n::{Language, LanguageMode};
use shikit::paths::default_picture_directory;
use shikit::screenshot::config::{
    Config, ConfigError, ImageFormat, OcrEngineKind,
};
use shikit::screenshot::geometry::{
    check_capture_region, clipped_bounds, fit_to_work_area, fitted_size, position_below,
    CaptureError, DesktopBounds, ScreenRect, WindowTargets,
};
use shikit::screenshot::hotkey::{
    classify_registration_error, parse_binding, parse_hotkey, validate_binding, Chord,
    HotkeyFailure, KeyCode,
};
use shikit::screenshot::ocr::{
    classify_error, format_worker_failure, join_words, parse_u8, rgba_to_bgra, worker_command,
    AiOcrState, OcrFailure, WorkerCommand,
};
use shikit::screenshot::output::{
    jpeg_quality, temporary_path,
    flatten_alpha, format_from_extension, format_from_path,
    render_filename, render_filename_at, temporary_file_name, time_from_unix_seconds,
    timestamp_text, LocalTime,
};
use shikit::screenshot::startup::{start_minimized_requested, startup_command, wide};

fn home_pictures() -> String {
    default_picture_directory("/home/user")
}

#[test]
fn defaults_match_product_specification() {
    let config = Config::default_in(home_pictures());
    assert_eq!(config.hotkey.as_deref(), Some("Ctrl+Alt+C"));
    assert_eq!(config.capture.jpeg_quality, 90);
    assert_eq!(config.capture.save_directory, home_pictures());
    assert_eq!(config.ocr.engine, OcrEngineKind::System);
    assert_eq!(config.ocr.minimum_confidence, 60);
    assert_eq!(config.pin.default_opacity, 100);
    assert_eq!(config.pin.zoom_step, 15);
}

#[test]
fn validation_normalizes_ranges_and_rejects_invalid_names() {
    let mut config = Config::default_in(home_pictures());
    config.capture.jpeg_quality = 0;
    config.ocr.minimum_confidence = 255;
    config.pin.default_opacity = 1;
    config.pin.zoom_step = 255;
    config.validate(home_pictures()).unwrap();
    assert_eq!(config.capture.jpeg_quality, 1);
    assert_eq!(config.ocr.minimum_confidence, 100);
    assert_eq!(config.pin.default_opacity, 25);
    assert_eq!(config.pin.zoom_step, 100);

    config.capture.filename_template = "bad/name".to_owned();
    assert!(config.validate(home_pictures()).is_err());
}

#[test]
fn validation_trims_shortcut_and_template_and_fills_the_folder() {
    let mut config = Config::default_in(String::new());
    config.hotkey = Some("  ".to_owned());
    config.capture.filename_template = "  shot  ".to_owned();
    assert_eq!(config.validate("/pictures".to_owned()), Ok(()));
    assert_eq!(config.hotkey, None);
    assert_eq!(config.capture.filename_template, "shot");
    assert_eq!(config.capture.save_directory, "/pictures");
    config.capture.filename_template = "   ".to_owned();
    assert_eq!(config.validate("/pictures".to_owned()), Err(ConfigError::EmptyTemplate));
    assert_eq!(
        ConfigError::ForbiddenCharacter.message(Language::English),
        "Filename template contains characters that Windows does not allow"
    );
    assert_eq!(config.language, LanguageMode::System);
}

#[test]
fn filename_template_replaces_all_supported_tokens() {
    let name = render_filename("shot_{yyyy}-{MM}-{dd}_{HH}-{mm}-{ss}");
    assert!(!name.contains('{'));
    assert!(name.starts_with("shot_"));
}

#[test]
fn filename_tokens_are_zero_padded() {
    let time = LocalTime {
        year: 2024,
        month: 3,
        day: 7,
        hour: 9,
        minute: 5,
        second: 1,
    };
    assert_eq!(
        render_filename_at(" Screenshot_{yyyy}-{MM}-{dd}_{HH}-{mm}-{ss} ", &time),
        "Screenshot_2024-03-07_09-05-01"
    );
    assert_eq!(timestamp_text(&time), "20240307_090501");
}

#[test]
fn unix_seconds_become_calendar_time() {
    assert_eq!(
        time_from_unix_seconds(0),
        LocalTime { year: 1970, month: 1, day: 1, hour: 0, minute: 0, second: 0 }
    );
    assert_eq!(
        time_from_unix_seconds(951_782_400),
        LocalTime { year: 2000, month: 2, day: 29, hour: 0, minute: 0, second: 0 }
    );
    assert_eq!(
        time_from_unix_seconds(1_700_000_000),
        LocalTime { year: 2023, month: 11, day: 14, hour: 22, minute: 13, second: 20 }
    );
}

#[test]
fn image_formats_follow_the_extension() {
    assert_eq!(format_from_extension(Some("PNG")), Some(ImageFormat::Png));
    assert_eq!(format_from_extension(Some("jpeg")), Some(ImageFormat::Jpeg));
    assert_eq!(format_from_extension(Some("Jpg")), Some(ImageFormat::Jpeg));
    assert_eq!(format_from_extension(Some("gif")), None);
    assert_eq!(format_from_extension(None), None);
    assert_eq!(format_from_path("/tmp/a.JPG"), Some(ImageFormat::Jpeg));
    assert_eq!(format_from_path("/tmp/.png"), None);
}

#[test]
fn temporary_names_hide_next_to_the_target() {
    assert_eq!(temporary_file_name(Some("shot.png"), 42, 7), ".shot.png.42.7.tmp");
    assert_eq!(temporary_file_name(None, 1, 2), ".image.1.2.tmp");
}

#[test]
fn jpeg_pixels_are_drawn_over_white() {
    assert_eq!(flatten_alpha(&[255, 0, 0, 255, 0, 0, 0, 0, 9]), vec![255, 0, 0, 255, 255, 255]);
    assert_eq!(flatten_alpha(&[100, 50, 0, 128]), vec![177, 152, 127]);
}

#[test]
fn startup_command_only_adds_minimized_argument_when_enabled() {
    let executable = r"C:\Program Files\ShiTu\ShiTu.exe";
    assert_eq!(
        startup_command(executable, false),
        r#""C:\Program Files\ShiTu\ShiTu.exe""#
    );
    assert_eq!(
        startup_command(executable, true),
        r#""C:\Program Files\ShiTu\ShiTu.exe" --minimized"#
    );
}

#[test]
fn minimized_start_is_read_from_the_arguments() {
    assert!(start_minimized_requested(&vec!["--minimized".to_owned()]));
    assert!(!start_minimized_requested(&vec!["--other".to_owned()]));
}

#[test]
fn wide_text_ends_in_zero_and_uses_surrogates() {
    assert_eq!(wide("A"), vec![0x41, 0]);
    assert_eq!(wide("😀"), vec![0xD83D, 0xDE00, 0]);
}

#[test]
fn fit_to_work_area_preserves_extreme_aspect_ratios() {
    assert_eq!(fitted_size(10_000, 100, 1_900, 1_000), (1_900, 19));
    assert_eq!(fitted_size(100, 10_000, 1_000, 1_900), (19, 1_900));
    assert_eq!(fitted_size(800, 600, 1_900, 1_000), (800, 600));
}

#[test]
fn pinned_images_are_centred_in_the_work_area() {
    let work = ScreenRect { left: 0, top: 0, right: 1924, bottom: 1024 };
    let placement = fit_to_work_area(work, 800, 600);
    assert_eq!((placement.width, placement.height), (800, 600));
    assert_eq!((placement.x, placement.y), (562, 212));
}

#[test]
fn floating_window_goes_above_when_no_room_below() {
    let work = ScreenRect { left: 0, top: 0, right: 1000, bottom: 800 };
    assert_eq!(position_below(100, 100, 200, 100, 100, 50, 8, Some(work)), (150, 208));
    assert_eq!(position_below(900, 700, 200, 80, 300, 50, 8, Some(work)), (700, 642));
    assert_eq!(position_below(100, 100, 200, 100, 100, 50, 8, None), (150, 208));
}

#[test]
fn targets_use_z_order_and_clip_to_desktop() {
    let front = DesktopBounds { left: 100, top: 100, width: 200, height: 200 };
    let back = DesktopBounds { left: 0, top: 0, width: 500, height: 500 };
    let targets = WindowTargets::new(vec![front, back]);
    assert_eq!(targets.target_at(150, 150), Some(front));

    assert_eq!(
        clipped_bounds(
            ScreenRect { left: -50, top: -20, right: 120, bottom: 80 },
            DesktopBounds { left: 0, top: 0, width: 100, height: 100 },
        ),
        Some(DesktopBounds { left: 0, top: 0, width: 100, height: 80 })
    );
}

#[test]
fn capture_regions_must_lie_on_the_desktop() {
    let desktop = DesktopBounds { left: -100, top: 0, width: 300, height: 200 };
    assert_eq!(check_capture_region(DesktopBounds { left: -100, top: 0, width: 300, height: 200 }, desktop), Ok(()));
    assert_eq!(check_capture_region(DesktopBounds { left: 0, top: 0, width: 0, height: 5 }, desktop), Err(CaptureError::EmptyRegion));
    assert_eq!(check_capture_region(DesktopBounds { left: i32::MAX, top: 0, width: 5, height: 5 }, desktop), Err(CaptureError::CoordinateOverflow));
    assert_eq!(check_capture_region(DesktopBounds { left: 150, top: 0, width: 100, height: 5 }, desktop), Err(CaptureError::OutsideDesktop));
}

#[test]
fn word_joining_preserves_cjk_and_spaces_latin_words() {
    assert_eq!(join_words(&["截图".into(), "工具".into()]), "截图工具");
    assert_eq!(join_words(&["hello".into(), "world".into()]), "hello world");
}

#[test]
fn recognizer_pixels_swap_red_and_blue() {
    assert_eq!(rgba_to_bgra(vec![1, 2, 3, 4, 5, 6]), vec![3, 2, 1, 255, 5, 6]);
}

#[test]
fn ocr_failures_explain_themselves() {
    assert_eq!(OcrFailure::Failed("  ".to_owned()).message(Language::English), "OCR failed");
    assert_eq!(OcrFailure::Failed("boom".to_owned()).message(Language::English), "boom");
    assert_eq!(
        AiOcrState::Failed("x".to_owned()).message(Language::English),
        "Windows AI OCR check failed: x"
    );
    assert_eq!(
        classify_error(0, "Class not registered".to_owned()),
        OcrFailure::AiUnavailable(AiOcrState::ComponentMissing)
    );
    assert_eq!(classify_error(0, "other".to_owned()), OcrFailure::Failed("other".to_owned()));
    assert_eq!(format_worker_failure(Some(-1)), "Windows OCR 子进程异常退出（0xFFFFFFFF）");
    assert_eq!(format_worker_failure(None), "Windows OCR 子进程异常退出");
}

#[test]
fn worker_arguments_are_read() {
    let args: Vec<String> = ["--gridstart-system-ocr-worker", "system", "in.png", "out.json", "300"]
        .iter()
        .map(|s| s.to_string())
        .collect();
    assert_eq!(
        worker_command(&args),
        Some(WorkerCommand::Recognize {
            engine: "system".to_owned(),
            input: "in.png".to_owned(),
            output: "out.json".to_owned(),
            minimum_confidence: 0,
        })
    );
    let probe: Vec<String> = vec!["--gridstart-ai-ocr-prepare".to_owned(), "o.json".to_owned()];
    assert_eq!(
        worker_command(&probe),
        Some(WorkerCommand::AiState { output: "o.json".to_owned(), prepare: true })
    );
    assert_eq!(worker_command(&vec!["--gridstart-ai-ocr-probe".to_owned()]), Some(WorkerCommand::Malformed));
    assert_eq!(worker_command(&vec!["--other".to_owned()]), None);
    assert_eq!(parse_u8("+42"), Some(42));
    assert_eq!(parse_u8("256"), None);
    assert_eq!(parse_u8(""), None);
}

#[test]
fn parses_modifier_key_binding() {
    assert!(parse_hotkey("Ctrl+Alt+C").is_some());
    assert!(parse_hotkey("Ctrl+Alt+Space").is_some());
    assert!(parse_hotkey("Win+Shift+K").is_some());
    assert!(parse_hotkey("Ctrl+F3").is_some());
}

#[test]
fn rejects_unknown_or_unmodified_key_binding() {
    assert!(parse_hotkey("Ctrl+Alt+Unknown").is_none());
    assert!(parse_hotkey("Ctrl++").is_none());
    assert!(parse_hotkey("A").is_none());
}

#[test]
fn bindings_parse_into_chords() {
    assert_eq!(
        parse_binding(" ctrl + ALT + c "),
        Some(Chord { control: true, alt: true, shift: false, super_key: false, code: KeyCode::Letter('c') })
    );
    assert_eq!(
        parse_binding("Meta+F12"),
        Some(Chord { control: false, alt: false, shift: false, super_key: true, code: KeyCode::Function(12) })
    );
    assert_eq!(parse_binding("Ctrl+F13"), None);
    assert_eq!(validate_binding("   "), Ok(()));
    assert_eq!(validate_binding("Ctrl+?"), Err(HotkeyFailure::Invalid));
    assert_eq!(classify_registration_error("HotKey already registered"), HotkeyFailure::Occupied);
    assert_eq!(classify_registration_error("denied"), HotkeyFailure::SystemRejected);
}

#[test]
fn capture_bitmap_is_top_down_like_media_foundation_input() {
    let info = bitmap_info(1920, 1080);
    assert_eq!(info.bmi_header.bi_width, 1920);
    assert_eq!(info.bmi_header.bi_height, -1080);
}

#[test]
fn clipboard_images_round_trip_through_dib_bytes() {
    let rgba = vec![1, 2, 3, 255, 4, 5, 6, 128];
    let bytes = encode_dib(2, 1, &rgba);
    assert_eq!(bytes.len(), 48);
    let image = decode_dib(&bytes).unwrap();
    assert_eq!((image.width, image.height), (2, 1));
    assert_eq!(image.rgba, rgba);
    assert_eq!(decode_dib(&bytes[..20]).unwrap_err(), DibError::Invalid);
    assert_eq!(decode_dib(&bytes[..44]).unwrap_err(), DibError::Incomplete);
}

#[test]
fn bottom_up_dibs_are_flipped() {
    let mut bytes = encode_dib(1, 2, &[10, 20, 30, 0, 40, 50, 60, 7]);
    bytes[8..12].copy_from_slice(&2i32.to_le_bytes());
    let image = decode_dib(&bytes).unwrap();
    assert_eq!(image.rgba, vec![40, 50, 60, 7, 10, 20, 30, 255]);
}

#[test]
fn temporary_files_stay_next_to_their_target() {
    assert_eq!(temporary_path("/pictures/shot.png", 42, 7), "/pictures/.shot.png.42.7.tmp");
    assert_eq!(temporary_path("shot.jpg", 1, 2), ".shot.jpg.1.2.tmp");
}

#[test]
fn jpeg_quality_is_kept_between_one_and_one_hundred() {
    assert_eq!(jpeg_quality(0), 1);
    assert_eq!(jpeg_quality(55), 55);
    assert_eq!(jpeg_quality(200), 100);
}

#[test]
fn image_format_follows_the_last_extension_of_the_file_name() {
    assert_eq!(format_from_path("/a/b/shot.PNG"), Some(ImageFormat::Png));
    assert_eq!(format_from_path("shot.tar.jpeg"), Some(ImageFormat::Jpeg));
    assert_eq!(format_from_path("/a/.png"), None);
    assert_eq!(format_from_path("/a.png/shot"), None);
}

#[test]
fn validating_screenshot_settings_twice_changes_nothing_more() {
    let mut config = Config::default_in(String::new());
    config.hotkey = Some("  Ctrl+Alt+C ".to_owned());
    config.capture.filename_template = "  shot_{HH} ".to_owned();
    config.pin.zoom_step = 200;
    let first = config.validate("/pictures".to_owned());
    let once = config.clone();
    let second = config.validate("/pictures".to_owned());
    assert_eq!(first, second);
    assert_eq!(config, once);
    let mut bad = Config::default_in("/pictures".to_owned());
    bad.capture.filename_template = " a|b ".to_owned();
    let first = bad.validate("/pictures".to_owned());
    let once = bad.clone();
    assert_eq!(bad.validate("/pictures".to_owned()), first);
    assert_eq!(bad, once);
}

use shikit::paths::first_free;
use shikit::screenshot::encoding::encode_image;
use shikit::screenshot::hotkey::HotkeyChord;

#[test]
fn bindings_become_plain_hot_keys() {
    assert_eq!(
        parse_hotkey("Ctrl+Alt+C"),
        Some(HotkeyChord { modifiers: 0x08 | 0x01, code: "KeyC".to_owned() })
    );
    assert_eq!(
        parse_hotkey("Win+Shift+K"),
        Some(HotkeyChord { modifiers: 0x2000 | 0x200, code: "KeyK".to_owned() })
    );
    assert_eq!(parse_hotkey("Ctrl+F3"), Some(HotkeyChord { modifiers: 0x08, code: "F3".to_owned() }));
}

#[test]
fn the_first_free_candidate_is_chosen() {
    assert_eq!(first_free(&[true, true, false, false]), Some(2));
    assert_eq!(first_free(&[false]), Some(0));
    assert_eq!(first_free(&[true, true]), None);
    assert_eq!(first_free(&[]), None);
}

#[test]
fn encoded_images_start_with_their_format_signature() {
    let rgba = vec![255, 0, 0, 255, 0, 0, 255, 128, 0, 255, 0, 0, 10, 20, 30, 255];
    let png = encode_image(ImageFormat::Png, &rgba, 2, 2, 90).unwrap();
    assert_eq!(&png[..8], &[137, 80, 78, 71, 13, 10, 26, 10]);
    let jpeg = encode_image(ImageFormat::Jpeg, &rgba, 2, 2, 90).unwrap();
    assert_eq!(&jpeg[..2], &[0xFF, 0xD8]);
    assert!(encode_image(ImageFormat::Png, &[], 0, 0, 90).is_err());
    assert!(encode_image(ImageFormat::Jpeg, &[], 0, 3, 90).is_err());
}

#[test]
fn encoding_depends_on_the_pixels_size_and_clamped_quality_alone() {
    let rgba = vec![255, 0, 0, 255, 0, 0, 255, 128, 0, 255, 0, 0, 10, 20, 30, 255];
    assert_eq!(
        encode_image(ImageFormat::Png, &rgba, 2, 2, 0).unwrap(),
        encode_image(ImageFormat::Png, &rgba, 2, 2, 100).unwrap()
    );
    assert_eq!(
        encode_image(ImageFormat::Jpeg, &rgba, 2, 2, 0).unwrap(),
        encode_image(ImageFormat::Jpeg, &rgba, 2, 2, 1).unwrap()
    );
    assert!(encode_image(ImageFormat::Jpeg, &vec![0; 65_536 * 4], 65_536, 1, 50).is_err());
    assert!(encode_image(ImageFormat::Png, &vec![0; 65_536 * 4], 65_536, 1, 50).is_ok());
}
