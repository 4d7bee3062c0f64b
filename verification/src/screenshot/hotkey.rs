//! The capture shortcut of the screenshot tool: its own parser for bindings such as
//! `Ctrl+Alt+C`, and the registration failures it reports.
use vstd::prelude::*;
use crate::i18n::{pick, Language};
use crate::recorder::shortcuts::{MOD_ALT, MOD_CONTROL, MOD_SHIFT, MOD_SUPER};
use crate::recorder::hotkeys::RegistrationFailure;
use crate::text::{
    ascii_upper, chars_of, contains_chars, contains_seq, decimal, digit_char, equals_text,
    extend_chars, is_space, lower_ascii, lowercased, split_chars, split_on, string_of, trim,
    trim_end, trim_start, trimmed,
};
use global_hotkey::hotkey::HotKey;
use global_hotkey::GlobalHotKeyManager;

verus! {

/// The key of a binding.
#[derive(Clone, Copy, Debug, PartialEq, Eq, Structural)]
pub enum KeyCode {
    /// A letter key, by its lower-case letter.
    Letter(char),
    /// A digit key, by its digit.
    Digit(char),
    Space,
    /// A function key `F1` … `F12`, by its number.
    Function(u8),
}

impl KeyCode {
    /// Letters are `a` … `z`, digits `0` … `9` and function keys `F1` … `F12`.
    pub open spec fn wf(self) -> bool {
        match self {
            KeyCode::Letter(c) => 'a' <= c && c <= 'z',
            KeyCode::Digit(c) => '0' <= c && c <= '9',
            KeyCode::Space => true,
            KeyCode::Function(n) => 1 <= n <= 12,
        }
    }
}

/// The name of a key in `keyboard_types::Code`: `KeyA`, `Digit1`, `Space`, `F3`.
pub open spec fn code_name(k: KeyCode) -> Seq<char> {
    match k {
        KeyCode::Letter(c) => "Key"@.push(ascii_upper(c)),
        KeyCode::Digit(c) => "Digit"@.push(c),
        KeyCode::Space => "Space"@,
        KeyCode::Function(n) => seq!['F'] + decimal(n as nat),
    }
}

/// A parsed binding: the modifiers held and the key.
#[derive(Clone, Copy, Debug, PartialEq, Eq, Structural)]
pub struct Chord {
    pub control: bool,
    pub alt: bool,
    pub shift: bool,
    pub super_key: bool,
    pub code: KeyCode,
}

/// The `keyboard_types::Modifiers` bits of a binding.
pub open spec fn modifier_bits(c: Chord) -> u32 {
    ((if c.control { MOD_CONTROL } else { 0u32 }) + (if c.alt { MOD_ALT } else { 0u32 }) + (
    if c.shift {
        MOD_SHIFT
    } else {
        0u32
    }) + (if c.super_key { MOD_SUPER } else { 0u32 })) as u32
}

/// What the parser has gathered after some of the `+`-separated parts.
#[derive(Clone, Copy, Debug, PartialEq, Eq, Structural)]
pub struct BindingScan {
    pub control: bool,
    pub alt: bool,
    pub shift: bool,
    pub super_key: bool,
    pub code: Option<KeyCode>,
}

/// The key that a single ASCII character names, if it names one.
pub open spec fn single_key(c: char) -> Option<KeyCode> {
    if 'a' <= c && c <= 'z' {
        Some(KeyCode::Letter(c))
    } else if '0' <= c && c <= '9' {
        Some(KeyCode::Digit(c))
    } else {
        None
    }
}

/// The number of a function-key part `f1` … `f12`.
pub open spec fn function_token(t: Seq<char>) -> Option<u8> {
    if t.len() == 2 && t[0] == 'f' && '1' <= t[1] && t[1] <= '9' {
        Some(((t[1] as u32) - 48) as u8)
    } else if t.len() == 3 && t[0] == 'f' && t[1] == '1' && '0' <= t[2] && t[2] <= '2' {
        Some(((t[2] as u32) - 38) as u8)
    } else {
        None
    }
}

/// One part of a binding, trimmed and in ASCII lower case, applied to what was gathered:
/// a modifier name sets its modifier; a single ASCII character sets the key (to none when
/// it is no letter or digit); `space` and `f1` … `f12` set the key; anything else makes the
/// binding invalid.
pub open spec fn scan_token(st: BindingScan, raw: Seq<char>) -> Option<BindingScan> {
    let t = lower_ascii(trim(raw));
    if t == "ctrl"@ || t == "control"@ {
        Some(BindingScan { control: true, alt: st.alt, shift: st.shift, super_key: st.super_key, code: st.code })
    } else if t == "alt"@ {
        Some(BindingScan { control: st.control, alt: true, shift: st.shift, super_key: st.super_key, code: st.code })
    } else if t == "shift"@ {
        Some(BindingScan { control: st.control, alt: st.alt, shift: true, super_key: st.super_key, code: st.code })
    } else if t == "win"@ || t == "super"@ || t == "meta"@ {
        Some(BindingScan { control: st.control, alt: st.alt, shift: st.shift, super_key: true, code: st.code })
    } else if t.len() == 1 && (t[0] as u32) < 128 {
        Some(BindingScan { control: st.control, alt: st.alt, shift: st.shift, super_key: st.super_key, code: single_key(t[0]) })
    } else if t == "space"@ {
        Some(BindingScan { control: st.control, alt: st.alt, shift: st.shift, super_key: st.super_key, code: Some(KeyCode::Space) })
    } else if function_token(t) is Some {
        Some(
            BindingScan {
                control: st.control,
                alt: st.alt,
                shift: st.shift,
                super_key: st.super_key,
                code: Some(KeyCode::Function(function_token(t)->0)),
            },
        )
    } else {
        None
    }
}

/// Nothing gathered yet.
pub open spec fn empty_scan() -> BindingScan {
    BindingScan { control: false, alt: false, shift: false, super_key: false, code: None }
}

/// The parts applied one after another, stopping at the first invalid one.
pub open spec fn scan_tokens(tokens: Seq<Seq<char>>) -> Option<BindingScan>
    decreases tokens.len(),
{
    if tokens.len() == 0 {
        Some(empty_scan())
    } else {
        match scan_tokens(tokens.drop_last()) {
            None => None,
            Some(st) => scan_token(st, tokens.last()),
        }
    }
}

/// The binding that a text names: its `+`-separated parts scanned in order; at least one
/// modifier and a key are needed.
pub open spec fn binding_of(value: Seq<char>) -> Option<Chord> {
    match scan_tokens(split_on(value, '+')) {
        None => None,
        Some(st) => if !(st.control || st.alt || st.shift || st.super_key) {
            None
        } else {
            match st.code {
                None => None,
                Some(code) => Some(
                    Chord {
                        control: st.control,
                        alt: st.alt,
                        shift: st.shift,
                        super_key: st.super_key,
                        code,
                    },
                ),
            }
        },
    }
}

proof fn lemma_scan_stays_invalid(tokens: Seq<Seq<char>>, i: int, j: int)
    requires
        0 <= i <= j <= tokens.len(),
        scan_tokens(tokens.take(i)) is None,
    ensures
        scan_tokens(tokens.take(j)) is None,
    decreases j - i,
{
    if j > i {
        lemma_scan_stays_invalid(tokens, i, j - 1);
        assert(tokens.take(j).drop_last() =~= tokens.take(j - 1));
    }
}

fn single_key_exec(c: char) -> (r: Option<KeyCode>)
    ensures
        r == single_key(c),
        r matches Some(k) ==> k.wf(),
{
    if 'a' <= c && c <= 'z' {
        Some(KeyCode::Letter(c))
    } else if '0' <= c && c <= '9' {
        Some(KeyCode::Digit(c))
    } else {
        None
    }
}

fn function_token_exec(t: &[char]) -> (r: Option<u8>)
    ensures
        r == function_token(t@),
        r matches Some(n) ==> 1 <= n <= 12,
{
    if t.len() == 2 && t[0] == 'f' && '1' <= t[1] && t[1] <= '9' {
        Some(((t[1] as u32) - 48) as u8)
    } else if t.len() == 3 && t[0] == 'f' && t[1] == '1' && '0' <= t[2] && t[2] <= '2' {
        Some(((t[2] as u32) - 38) as u8)
    } else {
        None
    }
}

/// The function-key parts are exactly `f1` … `f12`: `f` followed by the key's number in
/// decimal names that key, and nothing else names a function key.
pub proof fn lemma_function_keys_f1_to_f12(n: nat, t: Seq<char>)
    ensures
        1 <= n <= 12 ==> function_token(seq!['f'] + decimal(n)) == Some(n as u8),
        function_token(t) matches Some(k) ==> 1 <= k <= 12 && t == seq!['f'] + decimal(k as nat),
{
    reveal_with_fuel(decimal, 2);
    if 1 <= n <= 12 {
        if n >= 10 {
            assert(decimal(n) == seq![digit_char(1)].push(digit_char((n - 10) as nat)));
        }
    }
    if let Some(k) = function_token(t) {
        if t.len() == 2 {
            assert(decimal(k as nat) == seq![digit_char(k as nat)]);
            assert(t =~= seq!['f'] + decimal(k as nat));
        } else {
            assert(decimal(k as nat) == seq![digit_char(1)].push(digit_char((k - 10) as nat)));
            assert(t =~= seq!['f'] + decimal(k as nat));
        }
    }
}

/// A part `F` or `f` followed by a number from 1 to 12 sets the key of the binding to that
/// function key and leaves its modifiers as they were (`Ctrl+F10` names F10).
pub proof fn lemma_function_key_part(st: BindingScan, letter: char, n: nat)
    requires
        letter == 'f' || letter == 'F',
        1 <= n <= 12,
    ensures
        scan_token(st, seq![letter] + decimal(n)) == Some(
            BindingScan {
                control: st.control,
                alt: st.alt,
                shift: st.shift,
                super_key: st.super_key,
                code: Some(KeyCode::Function(n as u8)),
            },
        ),
{
    let raw = seq![letter] + decimal(n);
    reveal_with_fuel(decimal, 2);
    if n >= 10 {
        assert(decimal(n) == seq![digit_char(1)].push(digit_char((n - 10) as nat)));
    }
    assert(!is_space(raw[0]));
    assert(!is_space(raw.last()));
    assert(trim_start(raw) == raw);
    assert(trim_end(raw) == raw);
    let t = lower_ascii(trim(raw));
    assert(t =~= seq!['f'] + decimal(n));
    lemma_function_keys_f1_to_f12(n, t);
    reveal_strlit("ctrl");
    reveal_strlit("control");
    reveal_strlit("alt");
    reveal_strlit("shift");
    reveal_strlit("win");
    reveal_strlit("super");
    reveal_strlit("meta");
    reveal_strlit("space");
    assert(t != "ctrl"@ && t != "control"@ && t != "shift"@ && t != "super"@ && t != "meta"@
        && t != "space"@) by {
        assert(t.len() <= 3);
    }
    assert(t != "alt"@) by {
        assert(t[0] != "alt"@[0]);
    }
    assert(t != "win"@) by {
        assert(t[0] != "win"@[0]);
    }
}

fn scan_one(st: BindingScan, raw: &[char]) -> (r: Option<BindingScan>)
    requires
        st.code matches Some(k) ==> k.wf(),
    ensures
        r == scan_token(st, raw@),
        r matches Some(n) ==> (n.code matches Some(k) ==> k.wf()),
{
    let t = lowercased(&trimmed(raw));
    if equals_text(&t, "ctrl") || equals_text(&t, "control") {
        Some(BindingScan { control: true, alt: st.alt, shift: st.shift, super_key: st.super_key, code: st.code })
    } else if equals_text(&t, "alt") {
        Some(BindingScan { control: st.control, alt: true, shift: st.shift, super_key: st.super_key, code: st.code })
    } else if equals_text(&t, "shift") {
        Some(BindingScan { control: st.control, alt: st.alt, shift: true, super_key: st.super_key, code: st.code })
    } else if equals_text(&t, "win") || equals_text(&t, "super") || equals_text(&t, "meta") {
        Some(BindingScan { control: st.control, alt: st.alt, shift: st.shift, super_key: true, code: st.code })
    } else if t.len() == 1 && (t[0] as u32) < 128 {
        Some(BindingScan { control: st.control, alt: st.alt, shift: st.shift, super_key: st.super_key, code: single_key_exec(t[0]) })
    } else if equals_text(&t, "space") {
        Some(BindingScan { control: st.control, alt: st.alt, shift: st.shift, super_key: st.super_key, code: Some(KeyCode::Space) })
    } else {
        match function_token_exec(&t) {
            Some(n) => Some(
                BindingScan {
                    control: st.control,
                    alt: st.alt,
                    shift: st.shift,
                    super_key: st.super_key,
                    code: Some(KeyCode::Function(n)),
                },
            ),
            None => None,
        }
    }
}

/// Parses a binding such as `Ctrl+Alt+C`, `Win+Shift+K` or `Ctrl+F3`.
pub fn parse_binding(value: &str) -> (r: Option<Chord>)
    ensures
        r == binding_of(value@),
        r matches Some(c) ==> c.code.wf(),
{
    let parts = split_chars(&chars_of(value), '+');
    let ghost tokens = split_on(value@, '+');
    let mut st = BindingScan { control: false, alt: false, shift: false, super_key: false, code: None };
    let mut i: usize = 0;
    assert(tokens.take(0) =~= Seq::<Seq<char>>::empty());
    while i < parts.len()
        invariant
            i <= parts@.len(),
            parts@.len() == tokens.len(),
            tokens == split_on(value@, '+'),
            forall|k: int| 0 <= k < parts@.len() ==> #[trigger] parts@[k]@ == tokens[k],
            scan_tokens(tokens.take(i as int)) == Some(st),
            st.code matches Some(k) ==> k.wf(),
        decreases parts.len() - i,
    {
        assert(tokens.take(i + 1).drop_last() =~= tokens.take(i as int));
        assert(tokens.take(i + 1).last() == parts@[i as int]@);
        match scan_one(st, &parts[i]) {
            None => {
                proof {
                    lemma_scan_stays_invalid(tokens, i + 1, tokens.len() as int);
                    assert(tokens.take(tokens.len() as int) =~= tokens);
                }
                return None;
            },
            Some(next) => {
                st = next;
            },
        }
        i = i + 1;
    }
    assert(tokens.take(tokens.len() as int) =~= tokens);
    if !(st.control || st.alt || st.shift || st.super_key) {
        return None;
    }
    match st.code {
        None => None,
        Some(code) => Some(
            Chord { control: st.control, alt: st.alt, shift: st.shift, super_key: st.super_key, code },
        ),
    }
}


/// The name of a key in `keyboard_types::Code`.
pub fn key_code_name(k: KeyCode) -> (r: String)
    requires
        k.wf(),
    ensures
        r@ == code_name(k),
{
    match k {
        KeyCode::Letter(c) => {
            let mut v = chars_of("Key");
            v.push(crate::text::upper_char(c));
            string_of(&v)
        },
        KeyCode::Digit(c) => {
            let mut v = chars_of("Digit");
            v.push(c);
            string_of(&v)
        },
        KeyCode::Space => "Space".to_owned(),
        KeyCode::Function(n) => {
            let mut v: Vec<char> = Vec::new();
            v.push('F');
            extend_chars(&mut v, &crate::text::decimal_chars(n as u64));
            string_of(&v)
        },
    }
}

/// The `keyboard_types::Modifiers` bits of a binding.
pub fn chord_bits(c: &Chord) -> (r: u32)
    ensures
        r == modifier_bits(*c),
{
    let mut bits: u32 = 0;
    if c.control {
        bits = bits + MOD_CONTROL;
    }
    if c.alt {
        bits = bits + MOD_ALT;
    }
    if c.shift {
        bits = bits + MOD_SHIFT;
    }
    if c.super_key {
        bits = bits + MOD_SUPER;
    }
    bits
}

#[verifier::external_type_specification]
#[verifier::external_body]
pub struct ExHotKey(HotKey);

#[verifier::external_type_specification]
#[verifier::external_body]
pub struct ExGlobalHotKeyManager(GlobalHotKeyManager);

/// A hot key as plain values: its `keyboard_types::Modifiers` bits and the name of its
/// `keyboard_types::Code`.
#[derive(Clone, Debug, PartialEq, Eq)]
pub struct HotkeyChord {
    pub modifiers: u32,
    pub code: String,
}

/// A code name that `keyboard_types::Code::from_str` reads: the name of a valid key.
pub open spec fn known_code(name: Seq<char>) -> bool {
    exists|k: KeyCode| k.wf() && #[trigger] code_name(k) == name
}

/// The event number of `HotKey::new(Some(Modifiers::from_bits_truncate(modifiers)), code)`
/// for the code named `code`.
pub uninterp spec fn hotkey_number(modifiers: u32, code: Seq<char>) -> u32;

/// Registers `HotKey::new(Some(Modifiers::from_bits_truncate(modifiers)), code)` with the
/// manager, `code` being what `keyboard_types::Code::from_str` reads from `name`, which
/// accepts every name of a valid key. `Error::AlreadyRegistered` is told apart as a
/// conflict, and any other error is handed out by its message. Whether the system accepts
/// the hot key depends on the desktop session, so nothing is stated of the result.
#[verifier::external_body]
fn register_chord(manager: &GlobalHotKeyManager, modifiers: u32, name: &str) -> (r: Result<(), RegistrationFailure>)
    requires
        known_code(name@),
{
    match name.parse::<global_hotkey::hotkey::Code>() {
        Ok(code) => match manager.register(
            HotKey::new(Some(global_hotkey::hotkey::Modifiers::from_bits_truncate(modifiers)), code),
        ) {
            Ok(()) => Ok(()),
            Err(global_hotkey::Error::AlreadyRegistered(_)) => Err(RegistrationFailure::Conflict),
            Err(error) => Err(RegistrationFailure::Other(error.to_string())),
        },
        Err(error) => Err(RegistrationFailure::Other(error.to_string())),
    }
}

/// Unregisters `HotKey::new(Some(Modifiers::from_bits_truncate(modifiers)), code)`, `code`
/// being what `keyboard_types::Code::from_str` reads from `name`, handing out the error's
/// message. Whether the system accepts the call depends on the desktop session, so
/// nothing is stated of the result.
#[verifier::external_body]
fn unregister_chord(manager: &GlobalHotKeyManager, modifiers: u32, name: &str) -> (r: Result<(), String>)
    requires
        known_code(name@),
{
    match name.parse::<global_hotkey::hotkey::Code>() {
        Ok(code) => manager.unregister(
            HotKey::new(Some(global_hotkey::hotkey::Modifiers::from_bits_truncate(modifiers)), code),
        ).map_err(|error| error.to_string()),
        Err(error) => Err(error.to_string()),
    }
}

/// `HotKey::id` of `HotKey::new(Some(Modifiers::from_bits_truncate(modifiers)), code)`, `code`
/// being what `keyboard_types::Code::from_str` reads from `name`: the number that hot-key
/// events carry, a function of the modifier bits and the code alone. The name of a valid
/// key is always read. The number is the modifier bits shifted up by 16 with the code's
/// number, below 2¹⁶ (`Code` has some two hundred variants), in the low bits; so for bits
/// among alt, control, shift and super, which `from_bits_truncate` keeps, its upper half
/// is the bits.
#[verifier::external_body]
fn chord_number(modifiers: u32, name: &str) -> (r: Option<u32>)
    ensures
        known_code(name@) ==> r is Some,
        r matches Some(id) ==> id == hotkey_number(modifiers, name@),
        r matches Some(id) ==> (modifiers & !(MOD_ALT | MOD_CONTROL | MOD_SHIFT | MOD_SUPER) == 0
            ==> id >> 16 == modifiers),
{
    match name.parse::<global_hotkey::hotkey::Code>() {
        Ok(code) => Some(
            HotKey::new(Some(global_hotkey::hotkey::Modifiers::from_bits_truncate(modifiers)), code).id(),
        ),
        Err(_) => None,
    }
}

/// The hot key a binding stands for: the modifier bits and code name of its chord.
pub open spec fn hotkey_of(c: Chord) -> (u32, Seq<char>) {
    (modifier_bits(c), code_name(c.code))
}

/// Parses a binding into the hot key that is registered with the system.
pub fn parse_hotkey(value: &str) -> (r: Option<HotkeyChord>)
    ensures
        match binding_of(value@) {
            None => r is None,
            Some(c) => r matches Some(h) && (h.modifiers, h.code@) == hotkey_of(c),
        },
{
    match parse_binding(value) {
        None => None,
        Some(chord) => {
            let code = key_code_name(chord.code);
            Some(HotkeyChord { modifiers: chord_bits(&chord), code })
        },
    }
}

/// Why the capture shortcut could not be put in place.
#[derive(Clone, Copy, Debug, PartialEq, Eq, Structural)]
pub enum HotkeyFailure {
    Invalid,
    Occupied,
    SystemRejected,
}

impl HotkeyFailure {
    /// The message shown for the failure.
    pub fn message(&self, language: Language) -> (r: &'static str)
        ensures
            r@ == match *self {
                HotkeyFailure::Invalid => pick(language, "组合键无效"@, "Invalid key combination"@),
                HotkeyFailure::Occupied => pick(language, "已被占用"@, "Already in use"@),
                HotkeyFailure::SystemRejected => pick(
                    language,
                    "系统拒绝注册"@,
                    "Registration was rejected by the system"@,
                ),
            },
    {
        match self {
            HotkeyFailure::Invalid => crate::i18n::text(language, "组合键无效", "Invalid key combination"),
            HotkeyFailure::Occupied => crate::i18n::text(language, "已被占用", "Already in use"),
            HotkeyFailure::SystemRejected => crate::i18n::text(
                language,
                "系统拒绝注册",
                "Registration was rejected by the system",
            ),
        }
    }
}

/// Whether a registration error message says that the combination is taken.
pub open spec fn says_occupied(message: Seq<char>) -> bool {
    let lower = lower_ascii(message);
    ||| contains_seq(lower, "already"@)
    ||| contains_seq(lower, "registered"@)
    ||| contains_seq(lower, "occupied"@)
    ||| contains_seq(lower, "占用"@)
}

/// Sorts a registration error by its message: taken combinations, or any other refusal.
pub fn classify_registration_error(message: &str) -> (r: HotkeyFailure)
    ensures
        r == (if says_occupied(message@) {
            HotkeyFailure::Occupied
        } else {
            HotkeyFailure::SystemRejected
        }),
{
    let lower = lowercased(&chars_of(message));
    if contains_chars(&lower, &chars_of("already")) || contains_chars(&lower, &chars_of("registered"))
        || contains_chars(&lower, &chars_of("occupied")) || contains_chars(&lower, &chars_of("占用")) {
        HotkeyFailure::Occupied
    } else {
        HotkeyFailure::SystemRejected
    }
}

/// Accepts an empty binding (no shortcut) or one that parses.
pub fn validate_binding(value: &str) -> (r: Result<(), HotkeyFailure>)
    ensures
        r is Ok <==> (trim(value@).len() == 0 || binding_of(value@) is Some),
        r matches Err(e) ==> e == HotkeyFailure::Invalid,
{
    if trimmed(&chars_of(value)).len() == 0 || parse_hotkey(value).is_some() {
        Ok(())
    } else {
        Err(HotkeyFailure::Invalid)
    }
}


/// `GlobalHotKeyManager::new`, keeping the manager when the platform provides one. Whether
/// it does depends on the desktop session, so nothing is stated of the result.
#[verifier::external_body]
pub(crate) fn manager_new() -> (r: Option<GlobalHotKeyManager>) {
    GlobalHotKeyManager::new().ok()
}

/// `GlobalHotKeyManager::register`: `Error::AlreadyRegistered` is told apart as a
/// conflict, and any other error is handed out by its message. Whether the system accepts
/// the hot key depends on the desktop session, so nothing is stated of the result.
#[verifier::external_body]
pub(crate) fn register_hotkey(manager: &GlobalHotKeyManager, hotkey: HotKey) -> (r: Result<(), RegistrationFailure>) {
    match manager.register(hotkey) {
        Ok(()) => Ok(()),
        Err(global_hotkey::Error::AlreadyRegistered(_)) => Err(RegistrationFailure::Conflict),
        Err(error) => Err(RegistrationFailure::Other(error.to_string())),
    }
}

/// `GlobalHotKeyManager::unregister`, handing out the error's message. Whether the system
/// accepts the call depends on the desktop session, so nothing is stated of the result.
#[verifier::external_body]
pub(crate) fn unregister_hotkey(manager: &GlobalHotKeyManager, hotkey: HotKey) -> (r: Result<(), String>) {
    manager.unregister(hotkey).map_err(|error| error.to_string())
}

/// The binding a text stands for once trimmed: none when it is absent or blank.
pub open spec fn normalized_binding(binding: Option<Seq<char>>) -> Option<Seq<char>> {
    match binding {
        None => None,
        Some(v) => if trim(v).len() == 0 {
            None
        } else {
            Some(trim(v))
        },
    }
}

/// Whether a binding is present but does not parse.
pub open spec fn unparsable(binding: Option<Seq<char>>) -> bool {
    binding matches Some(b) && binding_of(b) is None
}

/// The text of an optional string.
pub open spec fn text_view(value: Option<&str>) -> Option<Seq<char>> {
    match value {
        None => None,
        Some(v) => Some(v@),
    }
}

/// The registered hot key and the binding it was made from.
struct Registration {
    chord: Chord,
    hotkey: HotkeyChord,
    id: u32,
}

/// The capture shortcut as registered with the system, and the last failure to change it.
pub struct HotkeyState {
    manager: Option<GlobalHotKeyManager>,
    registered: Option<Registration>,
    binding: Option<String>,
    error: Option<HotkeyFailure>,
    active_id: u32,
}

impl HotkeyState {
    /// The binding in place, trimmed.
    pub closed spec fn binding_view(&self) -> Option<Seq<char>> {
        match self.binding {
            None => None,
            Some(b) => Some(b@),
        }
    }

    /// The parsed form of the registered hot key.
    pub closed spec fn registered_chord(&self) -> Option<Chord> {
        match self.registered {
            None => None,
            Some(r) => Some(r.chord),
        }
    }

    /// The last failure kept for display.
    pub closed spec fn error_view(&self) -> Option<HotkeyFailure> {
        self.error
    }

    /// Whether the platform provided a hot-key manager.
    pub closed spec fn has_manager(&self) -> bool {
        self.manager is Some
    }

    /// The event number of the registered hot key, zero when none is registered.
    pub closed spec fn active_id_view(&self) -> u32 {
        self.active_id
    }

    /// A binding is in place exactly when a hot key is registered, and it is the trimmed,
    /// non-empty text that the registered hot key was parsed from.
    pub closed spec fn wf(&self) -> bool {
        &&& (self.binding is Some <==> self.registered is Some)
        &&& (self.registered is None ==> self.active_id == 0)
        &&& (self.registered matches Some(r) ==> self.active_id == r.id)
        &&& (self.registered matches Some(r) ==> r.chord.code.wf() && (r.hotkey.modifiers, r.hotkey.code@)
            == hotkey_of(r.chord) && r.id == hotkey_number(r.hotkey.modifiers, r.hotkey.code@))
        &&& (self.binding matches Some(b) ==> normalized_binding(Some(b@)) == Some(b@)
            && binding_of(b@) == self.registered_chord())
    }

    /// A state with the given binding registered, when the platform has a hot-key manager and
    /// accepts it. A binding that does not parse is kept as the failure, with none in place.
    pub fn new(binding: Option<&str>) -> (r: Self)
        ensures
            r.wf(),
            r.binding_view() is Some ==> r.binding_view() == normalized_binding(text_view(binding)),
            normalized_binding(text_view(binding)) is None ==> r.binding_view() is None
                && r.error_view() is None,
            unparsable(normalized_binding(text_view(binding))) ==> r.binding_view() is None
                && r.error_view() == Some(HotkeyFailure::Invalid),
    {
        let manager = manager_new();
        let mut state = HotkeyState {
            manager,
            registered: None,
            binding: None,
            error: None,
            active_id: 0,
        };
        match state.set_binding(binding) {
            Ok(()) => {},
            Err(error) => {
                state.error = Some(error);
            },
        }
        state
    }

    /// Replaces the binding: an unchanged binding only clears the failure; a new one is
    /// parsed, registered, and the previous hot key unregistered. When a step fails, the
    /// hot key registered before stays in place and the state is left as it was.
    pub fn set_binding(&mut self, binding: Option<&str>) -> (r: Result<(), HotkeyFailure>)
        requires
            old(self).wf(),
        ensures
            final(self).wf(),
            final(self).has_manager() == old(self).has_manager(),
            r is Ok ==> final(self).binding_view() == normalized_binding(text_view(binding))
                && final(self).error_view() is None,
            r is Err ==> final(self).binding_view() == old(self).binding_view()
                && final(self).registered_chord() == old(self).registered_chord()
                && final(self).error_view() == old(self).error_view()
                && final(self).active_id_view() == old(self).active_id_view(),
            normalized_binding(text_view(binding)) == old(self).binding_view() ==> r is Ok
                && final(self).registered_chord() == old(self).registered_chord()
                && final(self).active_id_view() == old(self).active_id_view(),
            (r == Err::<(), HotkeyFailure>(HotkeyFailure::Invalid)) <==> (normalized_binding(
                text_view(binding),
            ) != old(self).binding_view() && unparsable(normalized_binding(text_view(binding)))),
            (normalized_binding(text_view(binding)) != old(self).binding_view() && !old(
                self,
            ).has_manager() && !unparsable(normalized_binding(text_view(binding)))) ==> r
                == Err::<(), HotkeyFailure>(HotkeyFailure::SystemRejected),
    {
        let normalized: Option<String> = match binding {
            None => None,
            Some(v) => {
                let t = trimmed(&chars_of(v));
                if t.len() == 0 {
                    None
                } else {
                    Some(string_of(&t))
                }
            },
        };
        proof {
            if let Some(v) = binding {
                crate::text::lemma_trim_idempotent(v@);
            }
        }
        if same_text(&normalized, &self.binding) {
            self.error = None;
            return Ok(());
        }
        let candidate: Option<Registration> = match &normalized {
            None => None,
            Some(v) => match parse_binding(v.as_str()) {
                None => {
                    return Err(HotkeyFailure::Invalid);
                },
                Some(chord) => {
                    let code = key_code_name(chord.code);
                    let modifiers = chord_bits(&chord);
                    assert(known_code(code@)) by {
                        assert(chord.code.wf() && code_name(chord.code) == code@);
                    }
                    match chord_number(modifiers, code.as_str()) {
                        None => {
                            return Err(HotkeyFailure::Invalid);
                        },
                        Some(id) => Some(Registration { chord, hotkey: HotkeyChord { modifiers, code }, id }),
                    }
                },
            },
        };
        if candidate.is_none() && self.registered.is_none() {
            self.binding = None;
            self.error = None;
            self.active_id = 0;
            return Ok(());
        }
        let manager = match self.manager.as_ref() {
            Some(m) => m,
            None => {
                return Err(HotkeyFailure::SystemRejected);
            },
        };
        match &candidate {
            Some(c) => match register_chord(manager, c.hotkey.modifiers, c.hotkey.code.as_str()) {
                Ok(()) => {},
                Err(RegistrationFailure::Conflict) => {
                    return Err(HotkeyFailure::Occupied);
                },
                Err(RegistrationFailure::Other(message)) => {
                    return Err(classify_registration_error(message.as_str()));
                },
            },
            None => {},
        }
        match &self.registered {
            Some(previous) => match unregister_chord(
                manager,
                previous.hotkey.modifiers,
                previous.hotkey.code.as_str(),
            ) {
                Ok(()) => {},
                Err(message) => {
                    match &candidate {
                        Some(c) => {
                            let _ = unregister_chord(manager, c.hotkey.modifiers, c.hotkey.code.as_str());
                        },
                        None => {},
                    }
                    return Err(classify_registration_error(message.as_str()));
                },
            },
            None => {},
        }
        let id = match &candidate {
            Some(c) => c.id,
            None => 0,
        };
        self.registered = candidate;
        self.binding = normalized;
        self.error = None;
        self.active_id = id;
        Ok(())
    }

    /// The last failure to put the shortcut in place, if any.
    pub fn error(&self) -> (r: Option<&HotkeyFailure>)
        ensures
            r == match self.error_view() {
                None => None,
                Some(e) => Some(&e),
            },
    {
        self.error.as_ref()
    }

    /// The event number of the registered hot key, zero when none is registered; hot-key
    /// events with another number are not the capture shortcut.
    pub fn active_id(&self) -> (r: u32)
        ensures
            r == self.active_id_view(),
    {
        self.active_id
    }
}

/// Whether two optional texts are equal.
fn same_text(a: &Option<String>, b: &Option<String>) -> (r: bool)
    ensures
        r == (match *a {
            None => None::<Seq<char>>,
            Some(s) => Some(s@),
        } == match *b {
            None => None::<Seq<char>>,
            Some(s) => Some(s@),
        }),
{
    match (a, b) {
        (None, None) => true,
        (Some(x), Some(y)) => equals_text(&chars_of(x.as_str()), y.as_str()),
        _ => false,
    }
}

} // verus!
