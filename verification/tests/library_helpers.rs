use shikit::android::{elapsed_from_java, elapsed_to_java, state_from_java, RecordingState};
use shikit::i18n::{Language, LanguageMode};
use shikit::paths::slint_library_path;
use shikit::recorder::config::{Config as RecorderConfig, OutputFormat};
use shikit::recorder::controls::{
    check_target_change, current_display_selected, selection_outcome, IndicatorAction,
    SelectionOutcome, TargetChangeError, TargetIndicatorKind,
    build_information, shortcuts_without_manager,
    choose_screen, display_label, display_selected_message, refreshed_screen_index,
    ScreenChoiceError,
    check_can_start, countdown_start, countdown_step, initializing_status,
    start_failure_message, CountdownStep, StartError,
    countdown_texts, preference_config, preference_hotkeys, recording_target,
    save_failure_message, selected_target, selection_message, update_config_from_main,
    MainWindowSettings, PreferenceError, PreferenceForm, RecordingCapabilities, SelectionError,
    ShortcutRollback, TargetChoiceError,
};
use shikit::recorder::desktop::{
    arrange_monitors, clipped_window_bounds, current_target_bounds, primary_bounds, Edges,
    TrackingError,
    WindowReport,
};
use shikit::recorder::domain::{
    contains_bounds, Bounds, MonitorCandidate, MonitorCandidates, RecordingTarget, WindowId,
};
use shikit::recorder::overlay::{
    place_click_highlight, place_cursor, ClickCircle, CursorPlacement, CursorReport,
};
use shikit::recorder::shortcuts::ShortcutIssue;
use shikit::screenshot::config::{Config as ScreenshotConfig, OcrEngineKind};
use shikit::screenshot::geometry::{
    layered_alpha, layered_style, topmost_style, without_minimize_maximize,
    desktop_from_metrics, opaque_rgba_from_bgra, CaptureError, DesktopBounds,
};
use shikit::screenshot::ocr::{
    ai_state_from_readiness, confidence_argument, engine_argument, prepare_step, require_ready,
    unknown_engine, AiOcrState, OcrFailure, PrepareStep, ReadyState,
};
use shikit::screenshot::startup::units_to_le_bytes;
use shikit::shell::{open_path_status, open_path_unsupported, reveal_failure, select_argument};

fn bounds(left: i32, top: i32, width: i32, height: i32) -> Bounds {
    Bounds {
        left,
        top,
        width,
        height,
    }
}

fn no_capabilities() -> RecordingCapabilities {
    RecordingCapabilities {
        system_audio: false,
        microphone: false,
        highlight_clicks: false,
    }
}

fn all_capabilities() -> RecordingCapabilities {
    RecordingCapabilities {
        system_audio: true,
        microphone: true,
        highlight_clicks: true,
    }
}

#[test]
fn shell_results_name_the_system_code() {
    assert_eq!(open_path_status(42), Ok(()));
    assert_eq!(
        open_path_status(2),
        Err("打开目标失败，系统返回代码 2".to_owned())
    );
    assert_eq!(
        open_path_status(-5),
        Err("打开目标失败，系统返回代码 -5".to_owned())
    );
    assert_eq!(
        open_path_unsupported(),
        Err("当前平台尚未实现打开路径".to_owned())
    );
    assert_eq!(select_argument("C:\\a b\\x.mp4"), "/select,C:\\a b\\x.mp4");
    assert_eq!(reveal_failure(), "无法在文件夹中显示该文件");
}

#[test]
fn slint_components_live_in_the_ui_folder() {
    assert_eq!(slint_library_path("/src/shi-ui"), "/src/shi-ui/ui");
}

#[test]
fn java_values_are_clamped_into_range() {
    assert_eq!(state_from_java(-3), RecordingState::Idle);
    assert_eq!(state_from_java(2), RecordingState::Recording);
    assert_eq!(state_from_java(300), RecordingState::Idle);
    assert_eq!(elapsed_from_java(-1), 0);
    assert_eq!(elapsed_from_java(1500), 1500);
    assert_eq!(elapsed_to_java(u64::MAX), i64::MAX);
    assert_eq!(elapsed_to_java(7), 7);
}

#[test]
fn ai_engine_states_decide_the_preparation() {
    assert!(AiOcrState::Ready.is_ready());
    assert!(!AiOcrState::ModelNotInstalled.is_ready());
    assert!(AiOcrState::ModelNotInstalled.can_install());
    assert!(!AiOcrState::Unsupported.can_install());
    assert_eq!(ai_state_from_readiness(ReadyState::NotReady), AiOcrState::ModelNotInstalled);
    assert_eq!(
        ai_state_from_readiness(ReadyState::DisabledByUser),
        AiOcrState::DisabledByUser
    );
    assert_eq!(
        ai_state_from_readiness(ReadyState::Other(-7)),
        AiOcrState::Failed("未知 Windows AI 状态：-7".to_owned())
    );
    assert_eq!(require_ready(AiOcrState::Ready), Ok(()));
    assert_eq!(
        require_ready(AiOcrState::Unsupported),
        Err(OcrFailure::AiUnavailable(AiOcrState::Unsupported))
    );
    assert_eq!(prepare_step(AiOcrState::Ready), PrepareStep::AlreadyReady);
    assert_eq!(prepare_step(AiOcrState::ModelNotInstalled), PrepareStep::InstallModel);
    assert_eq!(
        prepare_step(AiOcrState::Preparing),
        PrepareStep::Refuse(OcrFailure::AiUnavailable(AiOcrState::Preparing))
    );
}

#[test]
fn worker_arguments_name_the_engine_and_the_confidence() {
    assert_eq!(engine_argument(OcrEngineKind::System), "system");
    assert_eq!(engine_argument(OcrEngineKind::WindowsAi), "windows_ai");
    assert_eq!(unknown_engine(), OcrFailure::Failed("未知 OCR 引擎".to_owned()));
    assert_eq!(confidence_argument(60), "60");
    assert_eq!(confidence_argument(150), "100");
}

#[test]
fn desktop_metrics_must_have_an_area() {
    assert_eq!(
        desktop_from_metrics(-1920, 0, 3840, 1080),
        Ok(DesktopBounds {
            left: -1920,
            top: 0,
            width: 3840,
            height: 1080
        })
    );
    assert_eq!(desktop_from_metrics(0, 0, 0, 10), Err(CaptureError::EmptyDesktop));
}

#[test]
fn captured_pixels_become_opaque_rgba() {
    assert_eq!(
        opaque_rgba_from_bgra(&[1, 2, 3, 4, 10, 20, 30, 0, 9]),
        vec![3, 2, 1, 255, 30, 20, 10, 255]
    );
}

#[test]
fn logs_live_in_the_configuration_folder() {
    assert_eq!(ScreenshotConfig::log_directory("/cfg"), "/cfg/GridStart/logs");
}

#[test]
fn registry_strings_are_little_endian_units() {
    assert_eq!(units_to_le_bytes(&[0x0041, 0x4E2D, 0]), vec![0x41, 0, 0x2D, 0x4E, 0, 0]);
}

#[test]
fn countdown_and_selection_texts() {
    assert_eq!(
        countdown_texts(Language::English, 3),
        (
            "3 seconds until recording starts".to_owned(),
            "00:00:03".to_owned()
        )
    );
    assert_eq!(countdown_texts(Language::Chinese, 10).0, "10 秒后开始录制");
    assert_eq!(
        selection_message(Language::English, bounds(0, 0, 1280, 720)),
        "Recording target selected: 1280 × 720"
    );
}

#[test]
fn save_failures_report_the_shortcut_rollback() {
    assert_eq!(
        save_failure_message(Language::English, "disk full", &ShortcutRollback::Done),
        "Failed to save settings: disk full"
    );
    assert_eq!(
        save_failure_message(
            Language::English,
            "disk full",
            &ShortcutRollback::Failed {
                message: "busy".to_owned(),
                disabled: true
            }
        ),
        "Failed to save settings: disk full; Failed to restore the previous shortcuts: busy; the new shortcuts were disabled"
    );
    assert_eq!(
        save_failure_message(
            Language::English,
            "disk full",
            &ShortcutRollback::Failed {
                message: "busy".to_owned(),
                disabled: false
            }
        ),
        "Failed to save settings: disk full; Failed to restore the previous shortcuts: busy; disabling the new shortcuts also failed"
    );
}

#[test]
fn typed_shortcuts_are_trimmed_or_dropped() {
    assert_eq!(
        preference_hotkeys(" F10 ", "  ", "Ctrl+F11"),
        [Some("F10".to_owned()), None, Some("Ctrl+F11".to_owned())]
    );
}

fn form() -> PreferenceForm {
    PreferenceForm {
        language_index: 1,
        auto_minimize_after_start: true,
        open_directory_after_stop: true,
        countdown_seconds: 42,
        save_directory: "/videos".to_owned(),
        quality_preset: 9,
        frame_rate: -1,
        output_format: OutputFormat::Gif,
        system_audio: true,
        microphone: true,
        show_cursor: false,
        highlight_clicks: true,
    }
}

#[test]
fn preferences_are_refused_while_recording_or_without_a_folder() {
    let old = RecorderConfig::default_in("/old".to_owned());
    assert_eq!(
        preference_config(&old, true, form(), all_capabilities()).err(),
        Some(PreferenceError::RecordingActive)
    );
    let mut empty = form();
    empty.save_directory = String::new();
    assert_eq!(
        preference_config(&old, false, empty, all_capabilities()).err(),
        Some(PreferenceError::EmptySaveDirectory)
    );
    let config = preference_config(&old, false, form(), no_capabilities()).unwrap();
    assert_eq!(config.save_directory, "/videos");
    assert_eq!(config.countdown_seconds, 10);
    assert_eq!(config.quality_preset, 3);
    assert_eq!(config.frame_rate, 0);
    assert!(!config.system_audio);
    assert!(!config.microphone);
    assert!(!config.highlight_clicks);
    assert!(!config.show_cursor);
    assert_eq!(config.start_hotkey, old.start_hotkey);
}

#[test]
fn main_window_settings_are_clamped_and_gated() {
    let mut config = RecorderConfig::default_in("/videos".to_owned());
    config.language = LanguageMode::Chinese;
    update_config_from_main(
        &mut config,
        MainWindowSettings {
            source_mode: 7,
            quality_preset: -2,
            frame_rate: 1,
            output_format: OutputFormat::Mp4,
            system_audio: true,
            microphone: true,
            show_cursor: false,
            highlight_clicks: true,
            countdown_seconds: 5,
            auto_minimize_after_start: true,
        },
        RecordingCapabilities {
            system_audio: true,
            microphone: false,
            highlight_clicks: true,
        },
    );
    assert_eq!(config.source_mode, 2);
    assert_eq!(config.quality_preset, 0);
    assert_eq!(config.frame_rate, 1);
    assert!(config.system_audio);
    assert!(!config.microphone);
    assert!(config.highlight_clicks);
    assert!(!config.show_cursor);
    assert_eq!(config.countdown_seconds, 5);
    assert!(config.auto_minimize_after_start);
    assert_eq!(config.language, LanguageMode::Chinese);
    assert_eq!(config.save_directory, "/videos");
}

#[test]
fn drawn_regions_and_screens_become_targets() {
    let desktop = bounds(-100, -50, 2000, 1000);
    assert_eq!(
        selected_target(Some(desktop), None, 2, 10, 20, 110, 220),
        Ok(RecordingTarget::Region(bounds(-90, -30, 100, 200)))
    );
    assert_eq!(
        selected_target(Some(desktop), None, 2, 10, 20, 20, 30),
        Err(SelectionError::RegionTooSmall)
    );
    assert_eq!(
        selected_target(Some(desktop), None, 1, 10, 20, 110, 220),
        Err(SelectionError::NoWindowAtPointer)
    );
    assert_eq!(
        selected_target(None, None, 2, 0, 0, 100, 100),
        Err(SelectionError::SessionEnded)
    );
    let primary = bounds(0, 0, 1920, 1080);
    assert_eq!(
        recording_target(0, None, primary, None),
        Ok(RecordingTarget::Screen(primary))
    );
    assert_eq!(
        recording_target(1, None, primary, None),
        Err(TargetChoiceError::NoWindowChosen)
    );
    let region = RecordingTarget::Region(bounds(5, 5, 100, 100));
    assert_eq!(recording_target(2, None, primary, Some(region)), Ok(region));
    assert_eq!(
        recording_target(2, None, primary, None),
        Err(TargetChoiceError::NoRegionChosen)
    );
    assert_eq!(
        recording_target(5, None, primary, Some(region)),
        Err(TargetChoiceError::InvalidSourceMode)
    );
}

#[test]
fn cursor_and_clicks_are_scaled_into_the_frame() {
    let source = bounds(100, 50, 200, 100);
    let report = CursorReport {
        showing: true,
        x: 110,
        y: 60,
        hotspot_x: 4,
        hotspot_y: 4,
        cursor_width: 32,
        cursor_height: 32,
    };
    assert_eq!(
        place_cursor(report, source, 100, 50),
        Some(CursorPlacement {
            x: 3,
            y: 3,
            width: 16,
            height: 16
        })
    );
    assert_eq!(
        place_cursor(CursorReport { showing: false, ..report }, source, 100, 50),
        None
    );
    assert_eq!(
        place_click_highlight(true, 150, 100, source, 100, 50),
        Some(ClickCircle {
            left: 16,
            top: 16,
            right: 34,
            bottom: 34
        })
    );
    assert_eq!(place_click_highlight(false, 150, 100, source, 100, 50), None);
}

#[test]
fn containment_and_window_numbers() {
    let screen = bounds(0, 0, 100, 100);
    assert!(contains_bounds(screen, bounds(10, 10, 20, 20)));
    assert!(!contains_bounds(screen, bounds(90, 90, 20, 20)));
    assert_eq!(WindowId::from_platform_value(7).platform_value(), 7);
    let issue = ShortcutIssue::general("x".to_owned());
    assert_eq!(issue.action, None);
    assert_eq!(issue.message, "x");
}

#[test]
fn displays_are_offered_primary_first_then_by_position() {
    let left = MonitorCandidate {
        bounds: bounds(-1920, 0, 1920, 1080),
        primary: false,
    };
    let main = MonitorCandidate {
        bounds: bounds(0, 0, 2560, 1440),
        primary: true,
    };
    let tiny = MonitorCandidate {
        bounds: bounds(0, 1440, 10, 10),
        primary: false,
    };
    let above = MonitorCandidate {
        bounds: bounds(0, -1080, 1920, 1080),
        primary: false,
    };
    let arranged = arrange_monitors(vec![left, tiny, main, above]).unwrap();
    assert_eq!(arranged.get(0), Some(main));
    assert_eq!(arranged.get(1), Some(above));
    assert_eq!(arranged.get(2), Some(left));
    assert_eq!(arranged.get(3), None);
    assert!(arrange_monitors(vec![tiny]).is_err());
}

#[test]
fn only_shown_opaque_windows_are_recorded_clipped_to_the_desktop() {
    let desktop = bounds(0, 0, 1920, 1080);
    let report = WindowReport {
        visible: true,
        minimized: false,
        extended_style: 0,
        cloaked: Some(0),
        frame: Some(Edges {
            left: -100,
            top: 100,
            right: 500,
            bottom: 2000,
        }),
    };
    assert_eq!(
        clipped_window_bounds(report, desktop),
        Some(bounds(0, 100, 500, 980))
    );
    assert_eq!(
        clipped_window_bounds(WindowReport { extended_style: 0x20, ..report }, desktop),
        None
    );
    assert_eq!(
        clipped_window_bounds(WindowReport { cloaked: Some(2), ..report }, desktop),
        None
    );
    assert_eq!(
        clipped_window_bounds(WindowReport { minimized: true, ..report }, desktop),
        None
    );
    let sliver = WindowReport {
        frame: Some(Edges {
            left: 1900,
            top: 0,
            right: 2100,
            bottom: 500,
        }),
        ..report
    };
    assert_eq!(clipped_window_bounds(sliver, desktop), None);
}

#[test]
fn countdown_ticks_down_to_the_start() {
    assert_eq!(check_can_start(false, 0), Ok(()));
    assert_eq!(check_can_start(true, 0), Err(StartError::AlreadyActive));
    assert_eq!(check_can_start(false, 3), Err(StartError::AlreadyActive));
    assert_eq!(
        StartError::AlreadyActive.message(Language::English),
        "A recording task is already active"
    );
    assert_eq!(countdown_start(-4), 0);
    assert_eq!(countdown_start(3), 3);
    assert_eq!(countdown_start(60), 10);
    assert_eq!(
        countdown_step(Language::English, 5, 5, 3, 2),
        CountdownStep::Show {
            status: "2 seconds until recording starts".to_owned(),
            clock: "00:00:02".to_owned(),
            next: 1
        }
    );
    assert_eq!(countdown_step(Language::English, 5, 5, 3, 0), CountdownStep::Start);
    assert_eq!(countdown_step(Language::English, 6, 5, 3, 2), CountdownStep::Abandon);
    assert_eq!(countdown_step(Language::English, 5, 5, 0, 2), CountdownStep::Abandon);
    assert_eq!(
        initializing_status(Language::English),
        "Initializing recording devices..."
    );
    assert_eq!(start_failure_message("no device", None), "no device");
    assert_eq!(
        start_failure_message("no device", Some("overlay failed")),
        "no device; overlay failed"
    );
}

#[test]
fn displays_are_chosen_by_index_and_found_again_by_bounds() {
    let left = MonitorCandidate {
        bounds: bounds(-1920, 0, 1920, 1080),
        primary: false,
    };
    let main = MonitorCandidate {
        bounds: bounds(0, 0, 2560, 1440),
        primary: true,
    };
    let monitors = MonitorCandidates::new(vec![left, main]);
    assert_eq!(refreshed_screen_index(&monitors, Some(left.bounds)), 0);
    assert_eq!(refreshed_screen_index(&monitors, Some(bounds(1, 2, 3, 4))), 1);
    assert_eq!(refreshed_screen_index(&monitors, None), 1);
    assert_eq!(display_label(Language::English, 1), "Display 2");
    assert_eq!(display_label(Language::Chinese, 0), "显示器 1");
    assert_eq!(choose_screen(false, 0, Some(&monitors), 1), Ok(main));
    assert_eq!(
        choose_screen(true, 0, Some(&monitors), 1),
        Err(ScreenChoiceError::RecordingActive)
    );
    assert_eq!(
        choose_screen(false, 0, Some(&monitors), -1),
        Err(ScreenChoiceError::InvalidIndex)
    );
    assert_eq!(choose_screen(false, 0, Some(&monitors), 2), Err(ScreenChoiceError::Gone));
    assert_eq!(choose_screen(false, 0, None, 0), Err(ScreenChoiceError::Gone));
    assert_eq!(
        ScreenChoiceError::Gone.message(Language::English),
        "The selected display is no longer available"
    );
    assert_eq!(
        display_selected_message(Language::English, 1, main.bounds),
        "Selected display 2: 2560 × 1440"
    );
}

#[test]
fn without_a_hotkey_manager_only_cleared_shortcuts_are_saved() {
    assert_eq!(
        shortcuts_without_manager(Language::English, [None, None, None]).unwrap(),
        [None, None, None]
    );
    let issue = shortcuts_without_manager(Language::English, [None, Some("F9".to_owned()), None])
        .unwrap_err();
    assert_eq!(issue.action, None);
    assert_eq!(
        issue.message,
        "The global shortcut manager is unavailable; clear all shortcuts to save the other settings"
    );
}

#[test]
fn build_line_names_platform_and_profile() {
    assert_eq!(
        build_information("windows", "x86_64", false),
        "windows x86_64 · Slint 1.17.0 · Release"
    );
    assert_eq!(
        build_information("linux", "aarch64", true),
        "linux aarch64 · Slint 1.17.0 · Debug"
    );
}

#[test]
fn finished_selections_mark_their_target() {
    let region = bounds(10, 20, 300, 200);
    assert_eq!(
        selection_outcome(Language::English, 2, 0, Some(RecordingTarget::Region(region))),
        SelectionOutcome {
            source_mode: 2,
            message: "Recording target selected: 300 × 200".to_owned(),
            indicator: IndicatorAction::Show(region, TargetIndicatorKind::Region),
            target: Some(RecordingTarget::Region(region)),
        }
    );
    let window = RecordingTarget::Window {
        id: WindowId::from_platform_value(9),
        initial_bounds: region,
    };
    assert_eq!(
        selection_outcome(Language::English, 1, 0, Some(window)).indicator,
        IndicatorAction::Show(region, TargetIndicatorKind::Window)
    );
    assert_eq!(
        selection_outcome(Language::English, 0, 2, Some(RecordingTarget::Screen(region))).indicator,
        IndicatorAction::Clear
    );
    let cancelled = selection_outcome(Language::English, 1, 2, None);
    assert_eq!(cancelled.source_mode, 2);
    assert_eq!(cancelled.message, "Target selection canceled");
    assert_eq!(cancelled.indicator, IndicatorAction::Restore);
    assert_eq!(check_target_change(false, 0), Ok(()));
    assert_eq!(check_target_change(false, 1), Err(TargetChangeError::RecordingActive));
    assert_eq!(
        TargetChangeError::RecordingActive.message(Language::English),
        "The recording target cannot be changed while recording"
    );
    assert_eq!(current_display_selected(Language::English), "Current display selected");
}

#[test]
fn pinned_window_styles_and_opacity() {
    assert_eq!(layered_alpha(100), 255);
    assert_eq!(layered_alpha(50), 127);
    assert_eq!(layered_alpha(0), 63);
    assert_eq!(layered_alpha(200), 255);
    assert_eq!(without_minimize_maximize(0x16CF_0000), 0x16CC_0000);
    assert_eq!(topmost_style(0x100, true), 0x108);
    assert_eq!(topmost_style(0x108, false), 0x100);
    assert_eq!(layered_style(0x8), 0x0008_0008);
}

#[test]
fn targets_are_followed_while_they_stay_recordable() {
    let region = bounds(0, 0, 640, 480);
    let window = RecordingTarget::Window {
        id: WindowId::from_platform_value(3),
        initial_bounds: region,
    };
    assert_eq!(current_target_bounds(RecordingTarget::Region(region), None), Ok(region));
    assert_eq!(
        current_target_bounds(RecordingTarget::Screen(bounds(0, 0, 8, 8)), None),
        Err(TrackingError::TooSmall)
    );
    assert_eq!(current_target_bounds(window, None), Err(TrackingError::WindowGone));
    assert_eq!(
        current_target_bounds(window, Some(bounds(5, 5, 300, 200))),
        Ok(bounds(5, 5, 300, 200))
    );
    assert_eq!(
        TrackingError::WindowGone.message(Language::English),
        "The selected window was closed, hidden, or minimized"
    );
}

#[test]
fn primary_display_is_marked_or_listed_first() {
    let a = MonitorCandidate {
        bounds: bounds(-1920, 0, 1920, 1080),
        primary: false,
    };
    let b = MonitorCandidate {
        bounds: bounds(0, 0, 2560, 1440),
        primary: true,
    };
    assert_eq!(primary_bounds(&vec![a, b]), Some(b.bounds));
    assert_eq!(primary_bounds(&vec![a]), Some(a.bounds));
    assert_eq!(primary_bounds(&vec![]), None);
}
