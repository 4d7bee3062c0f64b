use shikit::recorder::hotkeys::action_index;
use global_hotkey::hotkey::HotKey;
use shikit::recorder::shortcuts::{
    check_shortcut_rules, display_shortcut, parse_shortcuts, shortcut_from_key_event,
};

fn validate_hotkey(hotkey: HotKey) -> Result<(), String> {
    check_shortcut_rules(hotkey.mods.bits(), &hotkey.key.to_string())
}

fn review(values: [Option<String>; 3]) -> Result<Vec<Option<String>>, shikit::recorder::shortcuts::ShortcutIssue> {
    parse_shortcuts(&values.to_vec()).1
}

#[test]
fn captures_function_and_modified_letter_shortcuts() {
    assert_eq!(
        shortcut_from_key_event("\u{F70F}", false, false, false, false).unwrap(),
        "F12"
    );
    let letter = shortcut_from_key_event("a", true, false, true, false).unwrap();
    assert_eq!(display_shortcut(Some(&letter)), "Ctrl + Shift + A");
    assert!(shortcut_from_key_event("a", false, false, false, false).is_err());
}

#[test]
fn rejects_function_keys_above_f12() {
    let captured = shortcut_from_key_event("\u{F710}", false, false, false, false).unwrap_err();
    assert!(captured.message.contains("F1–F12"));

    let f13 = "F13".parse::<HotKey>().unwrap();
    assert!(validate_hotkey(f13).is_err());
    let modified_f13 = "control+F13".parse::<HotKey>().unwrap();
    assert!(validate_hotkey(modified_f13).is_err());

    let configured = review([Some("F13".to_owned()), None, None]).unwrap_err();
    assert_eq!(configured.action, Some(0));
    assert!(configured.message.contains("F1–F12"));
}

#[test]
fn duplicate_shortcuts_are_rejected_before_registration() {
    let issue = review([Some("F10".to_owned()), Some("F10".to_owned()), None]).unwrap_err();
    assert_eq!(issue.action, Some(1));
    assert!(issue.message.contains("重复"));
}

#[test]
fn valid_shortcut_sets_come_back_in_canonical_form() {
    let fields = review([
        Some(" F10 ".to_owned()),
        None,
        Some("ctrl+shift+KeyA".to_owned()),
    ])
    .unwrap();
    assert_eq!(
        fields,
        vec![Some("F10".to_owned()), None, Some("shift+control+KeyA".to_owned())]
    );
}

#[test]
fn blank_enabled_shortcut_is_an_issue() {
    let issue = review([None, Some("   ".to_owned()), None]).unwrap_err();
    assert_eq!(issue.action, Some(1));
    assert_eq!(issue.message, "启用后必须设置快捷键");
}

#[test]
fn plain_letter_needs_a_modifier() {
    let issue = review([Some("KeyA".to_owned()), None, None]).unwrap_err();
    assert_eq!(issue.message, "普通按键必须同时按下 Ctrl、Alt、Shift 或 Win");
}

#[test]
fn shortcut_display_strips_key_and_digit_prefixes() {
    assert_eq!(display_shortcut(None), "");
    assert_eq!(display_shortcut(Some("alt+Digit5")), "Alt + 5");
    assert_eq!(display_shortcut(Some("not a shortcut ++")), "not a shortcut ++");
}

#[test]
fn unsupported_key_presses_are_refused() {
    let issue = shortcut_from_key_event("ab", true, false, false, false).unwrap_err();
    assert_eq!(issue.action, None);
    assert_eq!(issue.message, "这个按键暂不支持作为全局快捷键");
}

use shikit::recorder::hotkeys::{replace_registered, HotkeyRegistrar, RegistrationFailure};
use std::cell::RefCell;
use std::collections::HashSet;

#[derive(Default)]
struct FakeRegistrar {
    registered: RefCell<HashSet<HotKey>>,
    rejected: RefCell<HashSet<HotKey>>,
}

impl HotkeyRegistrar for FakeRegistrar {
    fn register(&self, hotkey: HotKey) -> Result<(), RegistrationFailure> {
        if self.rejected.borrow().contains(&hotkey) {
            return Err(RegistrationFailure::Conflict);
        }
        self.registered.borrow_mut().insert(hotkey);
        Ok(())
    }

    fn unregister(&self, hotkey: HotKey) -> Result<(), String> {
        if self.registered.borrow_mut().remove(&hotkey) {
            Ok(())
        } else {
            Err("尚未注册".to_owned())
        }
    }
}

#[test]
fn failed_replacement_restores_the_previous_shortcuts() {
    let registrar = FakeRegistrar::default();
    let old_start = "F10".parse::<HotKey>().unwrap();
    let old_pause = "F11".parse::<HotKey>().unwrap();
    let rejected = "F12".parse::<HotKey>().unwrap();
    registrar.register(old_start).unwrap();
    registrar.register(old_pause).unwrap();
    registrar.rejected.borrow_mut().insert(rejected);

    let result = replace_registered(
        &registrar,
        &[Some(old_start), Some(old_pause), None],
        &[Some(old_start), Some(old_pause), Some(rejected)],
    );

    let failure = result.unwrap_err();
    assert!(failure.restored_old);
    let registered = registrar.registered.borrow();
    assert!(registered.contains(&old_start));
    assert!(registered.contains(&old_pause));
    assert!(!registered.contains(&rejected));
}

#[test]
fn conflicting_shortcut_names_its_action() {
    let registrar = FakeRegistrar::default();
    let start = "F10".parse::<HotKey>().unwrap();
    let stop = "F12".parse::<HotKey>().unwrap();
    registrar.rejected.borrow_mut().insert(stop);
    let failure = replace_registered(&registrar, &[None, None, None], &[Some(start), None, Some(stop)]).unwrap_err();
    assert!(failure.restored_old);
    assert_eq!(failure.issue.action, Some(2));
    assert_eq!(failure.issue.message, "停止录制快捷键已被其他程序占用");
    assert!(registrar.registered.borrow().is_empty());
}

#[test]
fn shortcut_events_map_to_their_actions() {
    let ids = [Some(7), None, Some(9)];
    assert_eq!(action_index(&ids, 7), Some(0));
    assert_eq!(action_index(&ids, 9), Some(2));
    assert_eq!(action_index(&ids, 8), None);
    assert_eq!(action_index(&[Some(4), Some(4), None], 4), Some(0));
}

use shikit::recorder::hotkeys::{register_set, unregister_set};

/// Refuses every registration, and every removal but that of `removable`; counts the calls.
#[derive(Default)]
struct RefusingRegistrar {
    calls: RefCell<usize>,
    removable: Option<HotKey>,
}

impl HotkeyRegistrar for RefusingRegistrar {
    fn register(&self, _hotkey: HotKey) -> Result<(), RegistrationFailure> {
        *self.calls.borrow_mut() += 1;
        Err(RegistrationFailure::Other("refused".to_owned()))
    }

    fn unregister(&self, hotkey: HotKey) -> Result<(), String> {
        *self.calls.borrow_mut() += 1;
        if self.removable == Some(hotkey) {
            Ok(())
        } else {
            Err("refused".to_owned())
        }
    }
}

#[test]
fn empty_sets_ask_the_registrar_nothing() {
    let registrar = RefusingRegistrar::default();
    assert!(register_set(&registrar, &[None, None, None]).is_ok());
    assert!(unregister_set(&registrar, &[None, None, None]).is_ok());
    assert!(replace_registered(&registrar, &[None, None, None], &[None, None, None]).is_ok());
    assert_eq!(*registrar.calls.borrow(), 0);
}

#[test]
fn unremovable_shortcut_is_reported_with_its_action() {
    let registrar = RefusingRegistrar::default();
    let pause = "F11".parse::<HotKey>().unwrap();
    let failure = replace_registered(&registrar, &[None, Some(pause), None], &[None, None, None]).unwrap_err();
    assert!(failure.restored_old);
    assert_eq!(failure.issue.action, Some(1));
    assert_eq!(failure.issue.message, "无法更新暂停/继续快捷键：refused");
}

#[test]
fn shortcuts_that_cannot_come_back_give_a_general_issue() {
    let start = "F10".parse::<HotKey>().unwrap();
    let pause = "F11".parse::<HotKey>().unwrap();
    let registrar = RefusingRegistrar { calls: RefCell::new(0), removable: Some(start) };
    let failure = replace_registered(&registrar, &[Some(start), Some(pause), None], &[None, None, None]).unwrap_err();
    assert!(!failure.restored_old);
    assert_eq!(failure.issue.action, None);
    assert_eq!(
        failure.issue.message,
        "无法更新暂停/继续快捷键：refused；旧快捷键也未能恢复：开始录制快捷键注册失败：refused"
    );
}

use shikit::recorder::replacement::{replace_step, CallOutcome, RegistrarCall, ReplaceStep};
use shikit::recorder::shortcuts::{
    display_from_parsed, key_press_string, shortcut_from_parsed, ParsedShortcut,
};

fn parsed(modifiers: u32, key: &str, canonical: &str) -> ParsedShortcut {
    let hotkey = canonical.parse::<HotKey>().unwrap();
    ParsedShortcut {
        modifiers,
        key: key.to_owned(),
        canonical: canonical.to_owned(),
        id: hotkey.id(),
        hotkey,
    }
}

#[test]
fn key_presses_are_spelled_for_the_parser() {
    assert_eq!(key_press_string("F12", false, false, false, false), "F12");
    assert_eq!(key_press_string("A", true, false, true, false), "control+shift+A");
    assert_eq!(key_press_string("Space", true, true, true, true), "control+alt+shift+super+Space");
}

#[test]
fn parsed_key_presses_are_checked_against_the_rules() {
    let refused = shortcut_from_parsed(Err("bad".to_owned())).unwrap_err();
    assert_eq!(refused.action, None);
    assert_eq!(refused.message, "无法识别这个快捷键：bad");
    let bare = shortcut_from_parsed(Ok(parsed(0, "KeyA", "KeyA"))).unwrap_err();
    assert_eq!(bare.message, "普通按键必须同时按下 Ctrl、Alt、Shift 或 Win");
    let f13 = shortcut_from_parsed(Ok(parsed(0x08, "F13", "control+F13"))).unwrap_err();
    assert_eq!(f13.message, "功能键仅支持 F1–F12");
    assert_eq!(shortcut_from_parsed(Ok(parsed(0, "F12", "F12"))).unwrap(), "F12");
    assert_eq!(shortcut_from_parsed(Ok(parsed(0x08, "KeyA", "control+KeyA"))).unwrap(), "control+KeyA");
}

#[test]
fn shown_shortcuts_come_from_the_parse() {
    assert_eq!(display_from_parsed("not a shortcut ++", Err("bad".to_owned())), "not a shortcut ++");
    assert_eq!(display_from_parsed("alt+Digit5", Ok(parsed(0x01, "Digit5", "alt+Digit5"))), "Alt + 5");
}

fn call_of(step: ReplaceStep) -> RegistrarCall {
    match step {
        ReplaceStep::Call(c) => c,
        ReplaceStep::Finish(_) => panic!("expected a call"),
    }
}

#[test]
fn replacement_steps_follow_the_registrar_answers() {
    let f10 = "F10".parse::<HotKey>().unwrap();
    let f12 = "F12".parse::<HotKey>().unwrap();
    let none = [None, None, None];
    assert!(matches!(replace_step(&none, &none, &Vec::new()), ReplaceStep::Finish(Ok(()))));

    let old = [Some(f10), None, None];
    let new = [None, None, Some(f12)];
    let mut outs = Vec::new();
    assert_eq!(call_of(replace_step(&old, &new, &outs)), RegistrarCall::Unregister { new_set: false, slot: 0 });
    outs.push(CallOutcome::Accepted);
    assert_eq!(call_of(replace_step(&old, &new, &outs)), RegistrarCall::Register { new_set: true, slot: 2 });
    outs.push(CallOutcome::Refused(RegistrationFailure::Conflict));
    assert_eq!(call_of(replace_step(&old, &new, &outs)), RegistrarCall::Register { new_set: false, slot: 0 });
    outs.push(CallOutcome::Accepted);
    match replace_step(&old, &new, &outs) {
        ReplaceStep::Finish(Err(failure)) => {
            assert!(failure.restored_old);
            assert_eq!(failure.issue.action, Some(2));
            assert_eq!(failure.issue.message, "停止录制快捷键已被其他程序占用");
        }
        _ => panic!("expected a failure"),
    }

    let mut accepted = vec![CallOutcome::Accepted];
    accepted.push(CallOutcome::Accepted);
    assert!(matches!(replace_step(&old, &new, &accepted), ReplaceStep::Finish(Ok(()))));
}

#[test]
fn parsed_fields_carry_their_event_numbers() {
    let (inputs, review) = parse_shortcuts(&vec![Some(" F10 ".to_owned()), Some("ctrl+shift+KeyA".to_owned()), None]);
    assert!(review.is_ok());
    match &inputs[0] {
        shikit::recorder::shortcuts::ShortcutInput::Parsed(p) => {
            assert_eq!((p.modifiers, p.key.as_str()), (0, "F10"));
            assert_eq!(p.id, "F10".parse::<HotKey>().unwrap().id());
        }
        _ => panic!("expected a parsed field"),
    }
    match &inputs[1] {
        shikit::recorder::shortcuts::ShortcutInput::Parsed(p) => {
            assert_eq!((p.modifiers, p.key.as_str()), (0x08 | 0x200, "KeyA"));
            assert_eq!(p.canonical, "shift+control+KeyA");
        }
        _ => panic!("expected a parsed field"),
    }
}
