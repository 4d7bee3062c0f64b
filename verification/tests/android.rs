use shikit::i18n::{locale_is_chinese, resolve, Language, LanguageMode};
use shikit::android::{PermissionState, RecordingState, RecordingStatus, StatusBoard};

#[test]
fn permission_codes_round_trip() {
    for state in [
        PermissionState::Idle,
        PermissionState::Requested,
        PermissionState::Granted,
        PermissionState::Denied,
        PermissionState::Error,
    ] {
        assert_eq!(PermissionState::from_code(state.code()), state);
    }
}

#[test]
fn unknown_permission_code_is_idle() {
    assert_eq!(PermissionState::from_code(u8::MAX), PermissionState::Idle);
}

#[test]
fn state_codes_round_trip() {
    for state in [
        RecordingState::Idle,
        RecordingState::Authorizing,
        RecordingState::Recording,
        RecordingState::Finalizing,
        RecordingState::Completed,
        RecordingState::Failed,
    ] {
        assert_eq!(RecordingState::from_code(state.code()), state);
    }
}

#[test]
fn unknown_state_code_is_idle() {
    assert_eq!(RecordingState::from_code(u8::MAX), RecordingState::Idle);
}

#[test]
fn status_update_is_atomic_enough_for_snapshots() {
    let mut board = StatusBoard::new();
    board.update(RecordingState::Recording, 1_234);
    assert_eq!(
        board.current(),
        RecordingStatus {
            state: RecordingState::Recording,
            elapsed_ms: 1_234,
        }
    );
}

#[test]
fn new_status_board_is_idle_at_zero() {
    let board = StatusBoard::new();
    assert_eq!(
        board.current(),
        RecordingStatus {
            state: RecordingState::Idle,
            elapsed_ms: 0,
        }
    );
}

#[test]
fn permission_codes_are_distinct() {
    let codes: Vec<u8> = [
        PermissionState::Idle,
        PermissionState::Requested,
        PermissionState::Granted,
        PermissionState::Denied,
        PermissionState::Error,
    ]
    .iter()
    .map(|s| s.code())
    .collect();
    for i in 0..codes.len() {
        for j in 0..codes.len() {
            if i != j {
                assert_ne!(codes[i], codes[j]);
            }
        }
    }
}

#[test]
fn language_preference_resolves_against_the_system_locale() {
    assert!(locale_is_chinese("zh_CN.UTF-8"));
    assert!(locale_is_chinese("ZH-hans"));
    assert!(!locale_is_chinese("en_US.UTF-8"));
    assert!(!locale_is_chinese("z"));
    assert_eq!(resolve(LanguageMode::System, true), Language::Chinese);
    assert_eq!(resolve(LanguageMode::System, false), Language::English);
    assert_eq!(resolve(LanguageMode::English, true), Language::English);
    assert_eq!(resolve(LanguageMode::Chinese, false), Language::Chinese);
}
