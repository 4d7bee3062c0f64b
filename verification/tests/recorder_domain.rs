use shikit::i18n::{Language, LanguageMode};
use shikit::recorder::config::{Config, OutputFormat};
use shikit::recorder::controls::{
    language_from_index, language_index, normalize_recording_capabilities,
    target_indicator_geometry, RecordingCapabilities, TARGET_INDICATOR_BORDER_PIXELS,
    TARGET_INDICATOR_LABEL_GAP_PIXELS, TARGET_INDICATOR_LABEL_HEIGHT_PIXELS,
};
use shikit::recorder::domain::{
    output_size, Bounds, MonitorCandidate, MonitorCandidates, WindowCandidate, WindowCandidates,
    WindowId,
};
use shikit::recorder::frames::{
    convert_and_scale, portal_crop, union_bounds, Crop, PixelFormat, RawFrame,
};
use shikit::recorder::domain::RecordingTarget;

#[test]
fn bounds_validate_and_contain_points() {
    let bounds = Bounds {
        left: -20,
        top: 10,
        width: 100,
        height: 60,
    };
    assert!(bounds.validate().is_ok());
    assert!(bounds.contains(-20, 10));
    assert!(bounds.contains(79, 69));
    assert!(!bounds.contains(80, 70));
}

#[test]
fn monitor_candidates_identify_primary_and_format_labels() {
    let primary = Bounds {
        left: 0,
        top: 0,
        width: 1920,
        height: 1080,
    };
    let secondary = Bounds {
        left: -2560,
        top: 0,
        width: 2560,
        height: 1440,
    };
    let monitors = MonitorCandidates::new(vec![
        MonitorCandidate {
            bounds: primary,
            primary: true,
        },
        MonitorCandidate {
            bounds: secondary,
            primary: false,
        },
    ]);

    assert_eq!(monitors.primary_index(), 0);
    assert_eq!(monitors.index_of(secondary), Some(1));
    assert_eq!(
        monitors.labels(Language::Chinese),
        vec![
            "显示器 1 · 1920 × 1080（主显示器）",
            "显示器 2 · 2560 × 1440",
        ]
    );
}

#[test]
fn window_candidates_keep_platform_ids_opaque() {
    let front = WindowCandidate {
        id: WindowId::from_platform_value(1),
        bounds: Bounds {
            left: 100,
            top: 100,
            width: 200,
            height: 200,
        },
        title: "Front window".to_owned(),
    };
    let back = WindowCandidate {
        id: WindowId::from_platform_value(2),
        bounds: Bounds {
            left: 0,
            top: 0,
            width: 500,
            height: 500,
        },
        title: "Back window".to_owned(),
    };
    let mut candidates = WindowCandidates::new(vec![front.clone(), back]);

    assert_eq!(candidates.target_at(150, 150), Some(front.clone()));
    candidates.exclude(front.id);
    assert_ne!(candidates.target_at(150, 150), Some(front));
}

#[test]
fn output_dimensions_preserve_ratio_and_even_dimensions() {
    let source = Bounds {
        left: 0,
        top: 0,
        width: 2560,
        height: 1440,
    };
    assert_eq!(output_size(source, 1), (1280, 720));
    assert_eq!(output_size(source, 2), (1920, 1080));
    assert_eq!(output_size(source, 3), (2560, 1440));
    let odd = Bounds {
        width: 801,
        height: 601,
        ..source
    };
    let size = output_size(odd, 3);
    assert_eq!(size.0 % 2, 0);
    assert_eq!(size.1 % 2, 0);
}

#[test]
fn output_size_preserves_ratio_and_even_dimensions() {
    let source = Bounds {
        left: 0,
        top: 0,
        width: 2560,
        height: 1440,
    };
    assert_eq!(output_size(source, 1), (1280, 720));
    assert_eq!(output_size(source, 2), (1920, 1080));
    assert_eq!(output_size(source, 3), (2560, 1440));
    let odd = Bounds {
        width: 801,
        height: 601,
        ..source
    };
    let size = output_size(odd, 3);
    assert_eq!(size.0 % 2, 0);
    assert_eq!(size.1 % 2, 0);
}

#[test]
fn output_size_keeps_tiny_sources_at_the_minimum_edge() {
    let tiny = Bounds {
        left: 0,
        top: 0,
        width: 3,
        height: 5,
    };
    assert_eq!(output_size(tiny, 3), (16, 16));
    assert_eq!(output_size(tiny, 0), (16, 16));
}

#[test]
fn region_coordinates_are_mapped_into_the_portal_stream() {
    let crop = portal_crop(
        RecordingTarget::Region(Bounds {
            left: 100,
            top: 50,
            width: 400,
            height: 200,
        }),
        Some((0, 0)),
        Some((1000, 500)),
        2000,
        1000,
    );
    assert_eq!(
        (crop.x, crop.y, crop.width, crop.height),
        (200, 100, 800, 400)
    );
}

#[test]
fn virtual_desktop_union_keeps_negative_display_coordinates() {
    let bounds = union_bounds(&[
        Bounds {
            left: -1920,
            top: 0,
            width: 1920,
            height: 1080,
        },
        Bounds {
            left: 0,
            top: 0,
            width: 2560,
            height: 1440,
        },
    ])
    .unwrap();
    assert_eq!(
        bounds,
        Bounds {
            left: -1920,
            top: 0,
            width: 4480,
            height: 1440,
        }
    );
}

#[test]
fn union_of_no_display_is_an_error() {
    assert!(union_bounds(&[]).is_err());
}

#[test]
fn rgba_frames_are_converted_to_bgra_and_scaled() {
    let source = RawFrame {
        bytes: vec![10, 20, 30, 40],
        width: 1,
        height: 1,
        stride: 4,
        format: PixelFormat::Rgba,
    };
    let mut output = vec![0; 2 * 2 * 4];
    convert_and_scale(&source, Crop::full(1, 1), 2, 2, &mut output).unwrap();
    for pixel in output.chunks_exact(4) {
        assert_eq!(pixel, [30, 20, 10, 255]);
    }
}

#[test]
fn invalid_pipewire_stride_is_rejected() {
    let source = RawFrame {
        bytes: vec![0; 4],
        width: 2,
        height: 2,
        stride: 8,
        format: PixelFormat::Bgra,
    };
    let mut output = vec![0; 2 * 2 * 4];
    assert!(convert_and_scale(&source, Crop::full(2, 2), 2, 2, &mut output).is_err());
}

fn default_config() -> Config {
    Config::default_in("/home/user/Videos".to_owned())
}

#[test]
fn unavailable_platform_features_are_disabled_in_configuration() {
    let mut config = Config {
        system_audio: true,
        microphone: true,
        highlight_clicks: true,
        ..default_config()
    };
    normalize_recording_capabilities(
        &mut config,
        RecordingCapabilities {
            system_audio: false,
            microphone: true,
            highlight_clicks: false,
        },
    );
    assert!(!config.system_audio);
    assert!(config.microphone);
    assert!(!config.highlight_clicks);
}

#[test]
fn preferences_map_only_english_and_chinese() {
    assert_eq!(language_index(LanguageMode::English), 0);
    assert_eq!(language_index(LanguageMode::Chinese), 1);
    assert_eq!(language_from_index(0), LanguageMode::English);
    assert_eq!(language_from_index(1), LanguageMode::Chinese);
    assert_eq!(language_from_index(99), LanguageMode::English);
}

#[test]
fn target_indicator_window_keeps_visible_pixels_outside_capture_bounds() {
    let capture = Bounds {
        left: -640,
        top: 120,
        width: 1280,
        height: 720,
    };
    let indicator = target_indicator_geometry(capture).unwrap();
    let capture_left_in_indicator = capture.left - indicator.left;
    let capture_top_in_indicator = capture.top - indicator.top;

    assert_eq!(capture_left_in_indicator, TARGET_INDICATOR_BORDER_PIXELS);
    assert_eq!(
        capture_top_in_indicator,
        TARGET_INDICATOR_LABEL_HEIGHT_PIXELS
            + TARGET_INDICATOR_LABEL_GAP_PIXELS
            + TARGET_INDICATOR_BORDER_PIXELS
    );
    assert_eq!(
        indicator.width as i32,
        capture.width + TARGET_INDICATOR_BORDER_PIXELS * 2
    );
    assert_eq!(
        indicator.height as i32,
        capture.height
            + TARGET_INDICATOR_LABEL_HEIGHT_PIXELS
            + TARGET_INDICATOR_LABEL_GAP_PIXELS
            + TARGET_INDICATOR_BORDER_PIXELS * 2
    );
}

#[test]
fn defaults_match_product_design() {
    let config = default_config();
    assert_eq!(config.language, LanguageMode::English);
    assert_eq!(config.source_mode, 0);
    assert_eq!(config.quality_preset, 2);
    assert_eq!(config.frame_rate, 0);
    assert!(config.system_audio);
    assert!(!config.microphone);
    assert!(config.show_cursor);
    assert_eq!(config.countdown_seconds, 3);
    assert!(!config.auto_minimize_after_start);
    assert!(!config.open_directory_after_stop);
    assert_eq!(config.start_hotkey.as_deref(), Some("F10"));
    assert_eq!(config.pause_hotkey.as_deref(), Some("F11"));
    assert_eq!(config.stop_hotkey.as_deref(), Some("F12"));
    assert_eq!(config.save_directory, "/home/user/Videos");
}

#[test]
fn old_or_invalid_values_are_normalized() {
    let mut config = Config {
        source_mode: 9,
        quality_preset: 9,
        frame_rate: 9,
        countdown_seconds: 99,
        ..default_config()
    };
    config.validate("/home/user/Videos".to_owned());
    assert_eq!(config.language, LanguageMode::English);
    assert_eq!(config.source_mode, 2);
    assert_eq!(config.quality_preset, 3);
    assert_eq!(config.frame_rate, 1);
    assert_eq!(config.countdown_seconds, 10);
    assert_eq!(config.start_hotkey.as_deref(), Some("F10"));
    assert_eq!(config.pause_hotkey.as_deref(), Some("F11"));
    assert_eq!(config.stop_hotkey.as_deref(), Some("F12"));
}

#[test]
fn empty_save_folder_falls_back_to_the_default() {
    let mut config = Config {
        save_directory: String::new(),
        ..default_config()
    };
    config.validate("/fallback".to_owned());
    assert_eq!(config.save_directory, "/fallback");
}

#[test]
fn hotkeys_round_trip_through_set_hotkeys() {
    let mut config = default_config();
    let keys = [Some("control+KeyA".to_owned()), None, Some("F9".to_owned())];
    config.set_hotkeys(keys.clone());
    assert_eq!(config.hotkeys(), keys);
}

#[test]
fn output_formats_name_their_extension() {
    assert_eq!(OutputFormat::Mp4.extension(), "mp4");
    assert_eq!(OutputFormat::Gif.extension(), "gif");
    assert!(OutputFormat::Mp4.supports_audio());
    assert!(!OutputFormat::Gif.supports_audio());
}

#[test]
fn validating_twice_changes_nothing_more() {
    let mut config = Config {
        source_mode: 7,
        countdown_seconds: 40,
        save_directory: String::new(),
        ..default_config()
    };
    config.validate("/fallback".to_owned());
    let once = config.clone();
    config.validate("/elsewhere".to_owned());
    assert_eq!(config, once);
}
