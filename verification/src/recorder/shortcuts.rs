//! The global shortcuts of the recorder: capturing a key press, checking a set of three
//! shortcuts (start, pause, stop) and showing them. Shortcut text is parsed by the
//! `global-hotkey` crate, which the operating-system registration uses too.
use vstd::prelude::*;
use crate::screenshot::hotkey::hotkey_number;
use crate::text::{chars_of, extend_chars, string_of, trim, trimmed};

verus! {

/// The modifier bits of `keyboard_types::Modifiers` that a hot key can hold.
pub const MOD_ALT: u32 = 0x01;
pub const MOD_CONTROL: u32 = 0x08;
pub const MOD_SHIFT: u32 = 0x200;
pub const MOD_SUPER: u32 = 0x2000;

/// A shortcut as the `global-hotkey` crate parsed it: its modifier bits, the name of its
/// key (`Code`'s display form, such as `KeyA` or `F10`) and its canonical text.
#[derive(Debug)]
pub struct ParsedShortcut {
    pub modifiers: u32,
    pub key: String,
    pub canonical: String,
    /// The number that events of the hot key carry.
    pub id: u32,
    /// The hot key itself, for registration.
    pub hotkey: global_hotkey::hotkey::HotKey,
}

/// The canonical text of a hot key: its modifiers in the order shift, control, alt, super,
/// each followed by `+`, then the key name.
pub open spec fn canonical_text(modifiers: u32, key: Seq<char>) -> Seq<char> {
    (if modifiers & MOD_SHIFT != 0 { "shift+"@ } else { Seq::empty() }) + (if modifiers
        & MOD_CONTROL != 0 {
        "control+"@
    } else {
        Seq::empty()
    }) + (if modifiers & MOD_ALT != 0 { "alt+"@ } else { Seq::empty() }) + (if modifiers
        & MOD_SUPER != 0 {
        "super+"@
    } else {
        Seq::empty()
    }) + key
}

/// The modifier bits of a key press with the given keys held.
pub open spec fn chord_bits(control: bool, alt: bool, shift: bool, meta: bool) -> u32 {
    ((if control { MOD_CONTROL } else { 0 }) + (if alt { MOD_ALT } else { 0 }) + (if shift {
        MOD_SHIFT
    } else {
        0
    }) + (if meta { MOD_SUPER } else { 0 })) as u32
}

/// The text handed to the parser for a press of the key typed as `c`, when that key can be
/// a shortcut.
pub open spec fn key_event_text(c: char, control: bool, alt: bool, shift: bool, meta: bool) -> Option<Seq<char>> {
    match event_key_name(c) {
        Some(key) => Some(key_press_text(key, control, alt, shift, meta)),
        None => None,
    }
}

/// The name of the `keyboard_types::Code` of a key that a key press names: `KeyA` for
/// `A`, `Digit1` for `1`, the names of the punctuation keys, and the name itself for the
/// named keys.
pub open spec fn event_code_name(key: Seq<char>) -> Seq<char> {
    if key.len() == 1 {
        let c = key[0];
        if 'A' <= c && c <= 'Z' {
            "Key"@.push(c)
        } else if '0' <= c && c <= '9' {
            "Digit"@.push(c)
        } else if c == '`' {
            "Backquote"@
        } else if c == '\\' {
            "Backslash"@
        } else if c == '[' {
            "BracketLeft"@
        } else if c == ']' {
            "BracketRight"@
        } else if c == ',' {
            "Comma"@
        } else if c == '=' {
            "Equal"@
        } else if c == '-' {
            "Minus"@
        } else if c == '.' {
            "Period"@
        } else if c == '\'' {
            "Quote"@
        } else if c == ';' {
            "Semicolon"@
        } else if c == '/' {
            "Slash"@
        } else {
            key
        }
    } else {
        key
    }
}

/// What the parser's answer for `value` is known to satisfy. A parsed shortcut has only
/// the alt, control, shift and super bits, and its canonical text is `canonical_text` of
/// its parts. The text of a key press parses, into the bits of the keys held and the code
/// of the key pressed; so does the canonical text of such a code with any of the four
/// modifier bits.
pub open spec fn parse_fits(value: Seq<char>, parsed: Result<ParsedShortcut, String>) -> bool {
    &&& parsed matches Ok(p) ==> {
        &&& p.modifiers & !(MOD_ALT | MOD_CONTROL | MOD_SHIFT | MOD_SUPER) == 0
        &&& p.canonical@ == canonical_text(p.modifiers, p.key@)
        &&& p.id == hotkey_number(p.modifiers, p.key@)
    }
    &&& forall|c: char, control: bool, alt: bool, shift: bool, meta: bool|
        #[trigger] key_event_text(c, control, alt, shift, meta) == Some(value) ==> (parsed matches Ok(p)
            && p.modifiers == chord_bits(control, alt, shift, meta) && p.key@ == event_code_name(
            event_key_name(c)->0,
        ))
    &&& forall|c: char, m: u32|
        event_key_name(c) is Some && m & !(MOD_ALT | MOD_CONTROL | MOD_SHIFT | MOD_SUPER) == 0
            && value == #[trigger] canonical_text(m, event_code_name(event_key_name(c)->0)) ==> (
        parsed matches Ok(p) && p.modifiers == m && p.key@ == event_code_name(event_key_name(c)->0))
}

/// Parses shortcut text with `global_hotkey::hotkey::HotKey::from_str` and hands out the
/// parts of the result: `mods.bits()`, the display name of `key`, `to_string()`, `id()`,
/// and the hot key itself. The crate's parser sets only the alt, control, shift and super bits,
/// and `to_string` writes the modifiers and the key as `canonical_text` states; a failure
/// hands out the parse error's message. `parse_hotkey` splits the text at `+`; with one
/// token it reads the key, otherwise each trimmed token is a modifier word (`control`,
/// `alt`, `shift`, `super` among them) or the key, read by `parse_key`, which takes the
/// names of the keys a key press names (upper-cased) and the names of their codes alike;
/// `Code` displays a code by its name, and `HotKey::new` keeps the bits, there being no
/// `META` among them. `HotKey::id` is the number that `hotkey_number` names: `from_str`
/// of `Code` reads back the name that `Code` displays. So the text of a key press, and the canonical text of such a code,
/// parse as `parse_fits` states. Which other texts parse is not stated: the parser maps
/// some modifier names differently on macOS than elsewhere.
#[verifier::external_body]
fn parse_hotkey_text(value: &str) -> (r: Result<ParsedShortcut, String>)
    ensures
        parse_fits(value@, r),
{
    match value.parse::<global_hotkey::hotkey::HotKey>() {
        Ok(hotkey) => Ok(
            ParsedShortcut {
                modifiers: hotkey.mods.bits(),
                key: hotkey.key.to_string(),
                canonical: hotkey.to_string(),
                id: hotkey.id(),
                hotkey,
            },
        ),
        Err(error) => Err(error.to_string()),
    }
}

/// A problem with a shortcut, tied to the action it belongs to when there is one.
#[derive(Clone, Debug, PartialEq, Eq)]
pub struct ShortcutIssue {
    pub action: Option<usize>,
    pub message: String,
}

impl ShortcutIssue {
    /// An issue with the shortcut of one action.
    pub fn action(action: usize, message: String) -> (r: Self)
        ensures
            r.action == Some(action),
            r.message == message,
    {
        ShortcutIssue { action: Some(action), message }
    }

    /// An issue with the set as a whole.
    pub fn general(message: String) -> (r: Self)
        ensures
            r.action is None,
            r.message == message,
    {
        ShortcutIssue { action: None, message }
    }
}

/// The names of the function keys F1 to F12, which work without a modifier.
pub open spec fn supported_function_key(key: Seq<char>) -> bool {
    exists|n: nat| 1 <= n <= 12 && key == function_key_name(n)
}

/// The names of the function keys F13 to F24, which are refused.
pub open spec fn unsupported_function_key(key: Seq<char>) -> bool {
    exists|n: nat| 13 <= n <= 24 && key == function_key_name(n)
}

/// The name of function key `n`.
pub open spec fn function_key_name(n: nat) -> Seq<char> {
    seq!['F'] + crate::text::decimal(n)
}

/// The characters of the names `F1` … `F24`.
proof fn lemma_function_key_name_shape(n: nat)
    requires
        1 <= n <= 24,
    ensures
        n < 10 ==> function_key_name(n) == seq!['F', crate::text::digit_char(n)],
        n >= 10 ==> function_key_name(n) == seq![
            'F',
            crate::text::digit_char(n / 10),
            crate::text::digit_char(n % 10),
        ],
{
    reveal_with_fuel(crate::text::decimal, 2);
    if n < 10 {
        assert(function_key_name(n) =~= seq!['F', crate::text::digit_char(n)]);
    } else {
        assert(crate::text::decimal(n / 10) =~= seq![crate::text::digit_char(n / 10)]);
        assert(function_key_name(n) =~= seq![
            'F',
            crate::text::digit_char(n / 10),
            crate::text::digit_char(n % 10),
        ]);
    }
}

/// No two of the names `F1` … `F24` are equal.
pub proof fn lemma_function_key_names_distinct(n: nat, m: nat)
    requires
        1 <= n <= 24,
        1 <= m <= 24,
        function_key_name(n) == function_key_name(m),
    ensures
        n == m,
{
    lemma_function_key_name_shape(n);
    lemma_function_key_name_shape(m);
    let a = function_key_name(n);
    let b = function_key_name(m);
    assert(a.len() == b.len());
    if n < 10 {
        assert(a[1] == b[1]);
        assert(crate::text::digit_char(n) as u32 == n + 48);
        assert(crate::text::digit_char(m) as u32 == m + 48);
    } else {
        assert(a[1] == b[1]);
        assert(a[2] == b[2]);
        assert(crate::text::digit_char(n / 10) as u32 == n / 10 + 48);
        assert(crate::text::digit_char(m / 10) as u32 == m / 10 + 48);
        assert(crate::text::digit_char(n % 10) as u32 == n % 10 + 48);
        assert(crate::text::digit_char(m % 10) as u32 == m % 10 + 48);
    }
}

/// The message refusing a shortcut that the rules do not allow, if any: function keys above
/// F12 are refused, and a key without modifiers must be one of F1 to F12.
pub open spec fn shortcut_rule_violation(modifiers: u32, key: Seq<char>) -> Option<Seq<char>> {
    if unsupported_function_key(key) {
        Some("功能键仅支持 F1–F12"@)
    } else if modifiers == 0 && !supported_function_key(key) {
        Some("普通按键必须同时按下 Ctrl、Alt、Shift 或 Win"@)
    } else {
        None
    }
}

/// The number of a function-key name `F1` … `F24`, if the key is one.
fn function_key_number(key: &[char]) -> (r: Option<u64>)
    ensures
        match r {
            Some(n) => 1 <= n <= 24 && key@ == function_key_name(n as nat),
            None => forall|n: nat| 1 <= n <= 24 ==> key@ != function_key_name(n),
        },
{
    proof {
        assert forall|n: nat| 1 <= n <= 24 implies #[trigger] function_key_name(n).len() == 2 || function_key_name(n).len() == 3 by {
            reveal_with_fuel(crate::text::decimal, 3);
        }
    }
    if key.len() < 2 || key.len() > 3 || key[0] != 'F' {
        proof {
            assert forall|n: nat| 1 <= n <= 24 implies key@ != function_key_name(n) by {
                reveal_with_fuel(crate::text::decimal, 3);
                if key@.len() >= 1 && key@ == function_key_name(n) {
                    assert(key@[0] == 'F');
                }
            }
        }
        return None;
    }
    let mut n: u64 = 1;
    while n <= 24
        invariant
            1 <= n <= 25,
            forall|m: nat| 1 <= m < n ==> key@ != function_key_name(m),
        decreases 25 - n,
    {
        let name = crate::text::decimal_chars(n);
        let mut full: Vec<char> = Vec::new();
        full.push('F');
        extend_chars(&mut full, &name);
        if crate::text::matches_at(key, &full, 0) && full.len() == key.len() {
            proof {
                assert(key@.subrange(0, full@.len() as int) == full@);
                assert(key@ =~= full@);
                assert(full@ =~= function_key_name(n as nat));
            }
            return Some(n);
        }
        proof {
            assert(full@ =~= function_key_name(n as nat));
            if key@ == function_key_name(n as nat) {
                assert(key@.subrange(0, full@.len() as int) =~= key@);
            }
        }
        n = n + 1;
    }
    None
}

/// Checks the rules for a parsed shortcut.
pub fn check_shortcut_rules(modifiers: u32, key: &str) -> (r: Result<(), String>)
    ensures
        match shortcut_rule_violation(modifiers, key@) {
            Some(m) => r is Err && r->Err_0@ == m,
            None => r is Ok,
        },
{
    let number = function_key_number(&chars_of(key));
    match number {
        Some(n) => {
            if n >= 13 {
                assert(13 <= n <= 24 && key@ == function_key_name(n as nat));
                return Err("功能键仅支持 F1–F12".to_owned());
            }
            proof {
                assert(1 <= n <= 12 && key@ == function_key_name(n as nat));
                assert forall|m: nat| 13 <= m <= 24 implies key@ != function_key_name(m) by {
                    if key@ == function_key_name(m) {
                        lemma_function_key_names_distinct(n as nat, m);
                    }
                }
            }
        },
        None => {
            if modifiers == 0 {
                return Err("普通按键必须同时按下 Ctrl、Alt、Shift 或 Win".to_owned());
            }
        },
    }
    Ok(())
}

/// The name of an action in messages.
pub open spec fn action_name(index: int) -> Seq<char> {
    if index == 0 {
        "开始录制"@
    } else if index == 1 {
        "暂停/继续"@
    } else if index == 2 {
        "停止录制"@
    } else {
        "录制"@
    }
}

/// The name of an action in messages.
pub fn action_label(index: usize) -> (r: &'static str)
    ensures
        r@ == action_name(index as int),
{
    match index {
        0 => "开始录制",
        1 => "暂停/继续",
        2 => "停止录制",
        _ => "录制",
    }
}

/// One of the three shortcut fields after its text went through the parser.
#[derive(Debug)]
pub enum ShortcutInput {
    /// The shortcut is switched off.
    Absent,
    /// The shortcut is switched on but its text is blank.
    Blank,
    /// The parser refused the text, with its message.
    Rejected(String),
    /// The parser accepted the text.
    Parsed(ParsedShortcut),
}

/// Whether two parsed shortcuts stand for the same key combination.
pub open spec fn same_shortcut(a: ParsedShortcut, b: ParsedShortcut) -> bool {
    a.modifiers == b.modifiers && a.key@ == b.key@
}

/// Whether field `k` holds a parsed shortcut with the same combination as `p`.
pub open spec fn holds_combination(inputs: Seq<ShortcutInput>, k: int, p: ParsedShortcut) -> bool {
    inputs[k] matches ShortcutInput::Parsed(q) && same_shortcut(q, p)
}

/// The first of the fields before `index` that holds the same combination as `p`.
pub open spec fn first_duplicate(inputs: Seq<ShortcutInput>, index: int, p: ParsedShortcut) -> Option<int> {
    if exists|k: int| 0 <= k < index && #[trigger] holds_combination(inputs, k, p) {
        Some(
            choose|k: int|
                0 <= k < index && #[trigger] holds_combination(inputs, k, p) && forall|j: int|
                    0 <= j < k ==> !#[trigger] holds_combination(inputs, j, p),
        )
    } else {
        None
    }
}

/// The message about the field at `index`, if it is wrong: a blank field, text the parser
/// refused, a combination the rules refuse, or one that an earlier field already uses.
pub open spec fn field_issue(inputs: Seq<ShortcutInput>, index: int) -> Option<Seq<char>> {
    match inputs[index] {
        ShortcutInput::Absent => None,
        ShortcutInput::Blank => Some("启用后必须设置快捷键"@),
        ShortcutInput::Rejected(e) => Some("快捷键格式无效："@ + e@),
        ShortcutInput::Parsed(p) => match shortcut_rule_violation(p.modifiers, p.key@) {
            Some(m) => Some(m),
            None => match first_duplicate(inputs, index, p) {
                Some(k) => Some("与"@ + action_name(k) + "快捷键重复"@),
                None => None,
            },
        },
    }
}

/// A set that passes the review holds no key combination twice: no field repeats the
/// combination of an earlier one.
pub proof fn lemma_accepted_sets_have_no_duplicates(inputs: Seq<ShortcutInput>, i: int, j: int)
    requires
        forall|k: int| 0 <= k < inputs.len() ==> #[trigger] field_issue(inputs, k) is None,
        0 <= i < j < inputs.len(),
    ensures
        inputs[j] matches ShortcutInput::Parsed(q) ==> !holds_combination(inputs, i, q),
{
    assert(field_issue(inputs, j) is None);
    if let ShortcutInput::Parsed(q) = inputs[j] {
        if holds_combination(inputs, i, q) {
            assert(exists|k: int| 0 <= k < j && #[trigger] holds_combination(inputs, k, q));
            assert(first_duplicate(inputs, j, q) is Some);
        }
    }
}

/// The canonical text of each field of a valid set, or none for a field that is off.
pub open spec fn canonical_fields(inputs: Seq<ShortcutInput>) -> Seq<Option<Seq<char>>> {
    inputs.map_values(
        |i: ShortcutInput|
            match i {
                ShortcutInput::Parsed(p) => Some(p.canonical@),
                _ => None,
            },
    )
}

fn first_duplicate_exec(inputs: &Vec<ShortcutInput>, index: usize, p: &ParsedShortcut) -> (r: Option<usize>)
    requires
        index <= inputs@.len(),
    ensures
        match r {
            Some(k) => Some(k as int) == first_duplicate(inputs@, index as int, *p),
            None => first_duplicate(inputs@, index as int, *p) is None,
        },
{
    let mut k: usize = 0;
    while k < index
        invariant
            k <= index <= inputs@.len(),
            forall|j: int| 0 <= j < k ==> !#[trigger] holds_combination(inputs@, j, *p),
        decreases index - k,
    {
        match &inputs[k] {
            ShortcutInput::Parsed(q) => {
                if q.modifiers == p.modifiers && q.key == p.key {
                    proof {
                        let w = k as int;
                        assert(holds_combination(inputs@, w, *p));
                        assert(0 <= w < index && holds_combination(inputs@, w, *p) && forall|j: int|
                            0 <= j < w ==> !#[trigger] holds_combination(inputs@, j, *p));
                        let c = choose|c: int|
                            0 <= c < index && #[trigger] holds_combination(inputs@, c, *p) && forall|j: int|
                                0 <= j < c ==> !#[trigger] holds_combination(inputs@, j, *p);
                        if c < w {
                            assert(holds_combination(inputs@, c, *p));
                        } else if c > w {
                            assert(!holds_combination(inputs@, w, *p));
                        }
                        assert(c == w);
                    }
                    return Some(k);
                }
            },
            _ => {},
        }
        k = k + 1;
    }
    None
}

/// Checks the three fields in order and stops at the first wrong one; for a valid set it
/// returns the canonical text of each field.
pub fn review_shortcuts(inputs: &Vec<ShortcutInput>) -> (r: Result<Vec<Option<String>>, ShortcutIssue>)
    ensures
        match r {
            Ok(fields) => (forall|i: int| 0 <= i < inputs@.len() ==> field_issue(inputs@, i) is None)
                && fields@.map_values(|f: Option<String>| match f {
                Some(s) => Some(s@),
                None => None,
            }) == canonical_fields(inputs@),
            Err(issue) => exists|i: int|
                0 <= i < inputs@.len() && (forall|j: int|
                    0 <= j < i ==> field_issue(inputs@, j) is None) && field_issue(inputs@, i)
                    == Some(issue.message@) && issue.action == Some(i as usize),
        },
{
    let mut fields: Vec<Option<String>> = Vec::new();
    let mut i: usize = 0;
    while i < inputs.len()
        invariant
            i <= inputs@.len(),
            forall|j: int| 0 <= j < i ==> field_issue(inputs@, j) is None,
            fields@.map_values(|f: Option<String>| match f {
                Some(s) => Some(s@),
                None => None,
            }) == canonical_fields(inputs@).take(i as int),
        decreases inputs.len() - i,
    {
        let ghost before = fields@;
        match &inputs[i] {
            ShortcutInput::Absent => {
                fields.push(None);
            },
            ShortcutInput::Blank => {
                let message = "启用后必须设置快捷键".to_owned();
                assert(field_issue(inputs@, i as int) == Some(message@));
                return Err(ShortcutIssue { action: Some(i), message });
            },
            ShortcutInput::Rejected(e) => {
                let mut v = chars_of("快捷键格式无效：");
                extend_chars(&mut v, &chars_of(e.as_str()));
                let message = string_of(&v);
                assert(field_issue(inputs@, i as int) == Some(message@));
                return Err(ShortcutIssue { action: Some(i), message });
            },
            ShortcutInput::Parsed(p) => {
                match check_shortcut_rules(p.modifiers, p.key.as_str()) {
                    Err(m) => {
                        return Err(ShortcutIssue { action: Some(i), message: m });
                    },
                    Ok(()) => {},
                }
                match first_duplicate_exec(inputs, i, p) {
                    Some(k) => {
                        let mut v = chars_of("与");
                        extend_chars(&mut v, &chars_of(action_label(k)));
                        extend_chars(&mut v, &chars_of("快捷键重复"));
                        return Err(ShortcutIssue { action: Some(i), message: string_of(&v) });
                    },
                    None => {},
                }
                fields.push(Some(p.canonical.clone()));
            },
        }
        proof {
            assert(canonical_fields(inputs@).take(i + 1) =~= canonical_fields(inputs@).take(i as int).push(
                canonical_fields(inputs@)[i as int],
            ));
            assert(fields@.map_values(|f: Option<String>| match f {
                Some(s) => Some(s@),
                None => None,
            }) =~= before.map_values(|f: Option<String>| match f {
                Some(s) => Some(s@),
                None => None,
            }).push(canonical_fields(inputs@)[i as int]));
        }
        i = i + 1;
    }
    proof {
        assert(canonical_fields(inputs@).take(inputs@.len() as int) =~= canonical_fields(inputs@));
    }
    Ok(fields)
}

/// The input a parser's answer makes.
pub open spec fn parsed_input(parsed: Result<ParsedShortcut, String>) -> ShortcutInput {
    match parsed {
        Ok(p) => ShortcutInput::Parsed(p),
        Err(e) => ShortcutInput::Rejected(e),
    }
}

/// What one field's text turns into before the set is reviewed: off when it is none,
/// blank when its trimmed text is empty, else whatever the parser made of the trimmed text.
pub open spec fn input_matches(value: Option<String>, input: ShortcutInput) -> bool {
    match value {
        None => input is Absent,
        Some(v) => if trim(v@).len() == 0 {
            input is Blank
        } else {
            exists|parsed: Result<ParsedShortcut, String>|
                #[trigger] parse_fits(trim(v@), parsed) && input == parsed_input(parsed)
        },
    }
}

/// Parses the three shortcut fields (start, pause, stop) and reviews them as a set.
pub fn parse_shortcuts(values: &Vec<Option<String>>) -> (r: (Vec<ShortcutInput>, Result<Vec<Option<String>>, ShortcutIssue>))
    ensures
        r.0@.len() == values@.len(),
        forall|i: int| 0 <= i < values@.len() ==> input_matches(values@[i], #[trigger] r.0@[i]),
        match r.1 {
            Ok(fields) => (forall|i: int| 0 <= i < r.0@.len() ==> field_issue(r.0@, i) is None)
                && fields@.map_values(|f: Option<String>| match f {
                Some(s) => Some(s@),
                None => None,
            }) == canonical_fields(r.0@),
            Err(issue) => exists|i: int|
                0 <= i < r.0@.len() && (forall|j: int| 0 <= j < i ==> field_issue(r.0@, j) is None)
                    && field_issue(r.0@, i) == Some(issue.message@) && issue.action == Some(
                    i as usize,
                ),
        },
{
    let mut inputs: Vec<ShortcutInput> = Vec::new();
    let mut i: usize = 0;
    while i < values.len()
        invariant
            i <= values@.len(),
            inputs@.len() == i,
            forall|k: int| 0 <= k < i ==> input_matches(values@[k], #[trigger] inputs@[k]),
        decreases values.len() - i,
    {
        let input = match &values[i] {
            None => ShortcutInput::Absent,
            Some(v) => {
                let t = trimmed(&chars_of(v.as_str()));
                if t.len() == 0 {
                    ShortcutInput::Blank
                } else {
                    let text = string_of(&t);
                    let parsed = parse_hotkey_text(text.as_str());
                    let ghost answer = parsed;
                    let input = match parsed {
                        Ok(p) => ShortcutInput::Parsed(p),
                        Err(e) => ShortcutInput::Rejected(e),
                    };
                    assert(parse_fits(trim(v@), answer) && input == parsed_input(answer));
                    input
                }
            },
        };
        inputs.push(input);
        i = i + 1;
    }
    let review = review_shortcuts(&inputs);
    (inputs, review)
}

/// The display form of a key name: `KeyA` shows as `A` and `Digit1` as `1`.
pub open spec fn key_display(key: Seq<char>) -> Seq<char> {
    if key.len() >= 3 && key.take(3) == "Key"@ {
        key.skip(3)
    } else if key.len() >= 5 && key.take(5) == "Digit"@ {
        key.skip(5)
    } else {
        key
    }
}

/// How a parsed shortcut is shown: the modifiers in the order Ctrl, Alt, Shift, Win, then
/// the key, joined by ` + `.
pub open spec fn shortcut_display(p: ParsedShortcut) -> Seq<char> {
    (if p.modifiers & MOD_CONTROL != 0 { "Ctrl + "@ } else { Seq::empty() }) + (if p.modifiers
        & MOD_ALT != 0 {
        "Alt + "@
    } else {
        Seq::empty()
    }) + (if p.modifiers & MOD_SHIFT != 0 { "Shift + "@ } else { Seq::empty() }) + (if p.modifiers
        & MOD_SUPER != 0 {
        "Win + "@
    } else {
        Seq::empty()
    }) + key_display(p.key@)
}

fn strip_key_prefix(key: &[char]) -> (r: Vec<char>)
    ensures
        r@ == key_display(key@),
{
    proof {
        reveal_strlit("Key");
        reveal_strlit("Digit");
    }
    let key_prefix = chars_of("Key");
    let digit_prefix = chars_of("Digit");
    let skip: usize = if key.len() >= 3 && crate::text::matches_at(key, &key_prefix, 0) {
        assert(key@.take(3) =~= key@.subrange(0, 3));
        3
    } else if key.len() >= 5 && crate::text::matches_at(key, &digit_prefix, 0) {
        assert(key@.take(5) =~= key@.subrange(0, 5));
        proof {
            if key@.take(3) == "Key"@ {
                assert(key@.take(3) =~= key@.subrange(0, 3));
            }
        }
        5
    } else {
        proof {
            if key@.len() >= 3 && key@.take(3) == "Key"@ {
                assert(key@.take(3) =~= key@.subrange(0, 3));
            }
            if key@.len() >= 5 && key@.take(5) == "Digit"@ {
                assert(key@.take(5) =~= key@.subrange(0, 5));
            }
        }
        0
    };
    let mut r: Vec<char> = Vec::new();
    let mut k: usize = skip;
    while k < key.len()
        invariant
            skip <= k <= key@.len(),
            r@ == key@.subrange(skip as int, k as int),
        decreases key.len() - k,
    {
        r.push(key[k]);
        assert(r@ =~= key@.subrange(skip as int, k + 1));
        k = k + 1;
    }
    assert(key@.subrange(skip as int, key@.len() as int) =~= key@.skip(skip as int));
    assert(key@.skip(0) =~= key@);
    r
}

/// The display form of a parsed shortcut.
pub fn display_parsed(p: &ParsedShortcut) -> (r: String)
    ensures
        r@ == shortcut_display(*p),
{
    let mut v: Vec<char> = Vec::new();
    if p.modifiers & MOD_CONTROL != 0 {
        extend_chars(&mut v, &chars_of("Ctrl + "));
    }
    if p.modifiers & MOD_ALT != 0 {
        extend_chars(&mut v, &chars_of("Alt + "));
    }
    if p.modifiers & MOD_SHIFT != 0 {
        extend_chars(&mut v, &chars_of("Shift + "));
    }
    if p.modifiers & MOD_SUPER != 0 {
        extend_chars(&mut v, &chars_of("Win + "));
    }
    let key = strip_key_prefix(&chars_of(p.key.as_str()));
    extend_chars(&mut v, &key);
    assert(v@ =~= shortcut_display(*p));
    string_of(&v)
}

/// How a stored shortcut is shown once the parser has answered for it: the display form
/// of the parsed shortcut, or the text itself when the parser refused it.
pub open spec fn shown_shortcut(value: Seq<char>, parsed: Result<ParsedShortcut, String>) -> Seq<char> {
    match parsed {
        Ok(p) => shortcut_display(p),
        Err(_) => value,
    }
}

/// Shows a stored shortcut from the parser's answer for it.
pub fn display_from_parsed(value: &str, parsed: Result<ParsedShortcut, String>) -> (r: String)
    ensures
        r@ == shown_shortcut(value@, parsed),
{
    match parsed {
        Ok(p) => display_parsed(&p),
        Err(_) => value.to_owned(),
    }
}

/// How a stored shortcut is shown: empty when there is none, the text itself when the
/// parser refuses it, and the display form of the parsed shortcut otherwise.
pub fn display_shortcut(value: Option<&str>) -> (r: String)
    ensures
        value is None ==> r@.len() == 0,
        value matches Some(v) ==> exists|parsed: Result<ParsedShortcut, String>|
            #[trigger] parse_fits(v@, parsed) && r@ == shown_shortcut(v@, parsed),
{
    let value = match value {
        Some(v) => v,
        None => {
            return String::new();
        },
    };
    let parsed = parse_hotkey_text(value);
    display_from_parsed(value, parsed)
}

/// The key that a key press names, when it can be a global shortcut: a letter (in upper
/// case), a digit, one of the punctuation keys, or one of the named special keys.
pub open spec fn event_key_name(c: char) -> Option<Seq<char>> {
    let v = c as u32;
    if ('a' <= c && c <= 'z') {
        Some(seq![crate::text::ascii_upper(c)])
    } else if ('A' <= c && c <= 'Z') || ('0' <= c && c <= '9') || c == '`' || c == '\\' || c
        == '[' || c == ']' || c == ',' || c == '=' || c == '-' || c == '.' || c == '\'' || c
        == ';' || c == '/' {
        Some(seq![c])
    } else if v == 0x08 {
        Some("Backspace"@)
    } else if v == 0x09 {
        Some("Tab"@)
    } else if v == 0x0a || v == 0x0d {
        Some("Enter"@)
    } else if v == 0x1b {
        Some("Escape"@)
    } else if v == 0x20 {
        Some("Space"@)
    } else if v == 0x7f {
        Some("Delete"@)
    } else if v == 0xF700 {
        Some("ArrowUp"@)
    } else if v == 0xF701 {
        Some("ArrowDown"@)
    } else if v == 0xF702 {
        Some("ArrowLeft"@)
    } else if v == 0xF703 {
        Some("ArrowRight"@)
    } else if 0xF704 <= v && v <= 0xF71B {
        Some(function_key_name((v - 0xF704 + 1) as nat))
    } else if v == 0xF727 {
        Some("Insert"@)
    } else if v == 0xF729 {
        Some("Home"@)
    } else if v == 0xF72B {
        Some("End"@)
    } else if v == 0xF72C {
        Some("PageUp"@)
    } else if v == 0xF72D {
        Some("PageDown"@)
    } else if v == 0xF72F {
        Some("ScrollLock"@)
    } else if v == 0xF730 {
        Some("Pause"@)
    } else {
        None
    }
}

/// The key that the text of a key press names: the text must be exactly one character.
pub fn key_name_from_event(text: &str) -> (r: Option<String>)
    ensures
        match r {
            Some(name) => text@.len() == 1 && event_key_name(text@[0]) == Some(name@),
            None => text@.len() != 1 || event_key_name(text@[0]) is None,
        },
{
    let chars = chars_of(text);
    if chars.len() != 1 {
        return None;
    }
    let c = chars[0];
    let v = c as u32;
    let name: &str = if 'a' <= c && c <= 'z' {
        let mut out: Vec<char> = Vec::new();
        out.push(crate::text::upper_char(c));
        return Some(string_of(&out));
    } else if ('A' <= c && c <= 'Z') || ('0' <= c && c <= '9') || c == '`' || c == '\\' || c
        == '[' || c == ']' || c == ',' || c == '=' || c == '-' || c == '.' || c == '\'' || c
        == ';' || c == '/' {
        let mut out: Vec<char> = Vec::new();
        out.push(c);
        return Some(string_of(&out));
    } else if v == 0x08 {
        "Backspace"
    } else if v == 0x09 {
        "Tab"
    } else if v == 0x0a || v == 0x0d {
        "Enter"
    } else if v == 0x1b {
        "Escape"
    } else if v == 0x20 {
        "Space"
    } else if v == 0x7f {
        "Delete"
    } else if v == 0xF700 {
        "ArrowUp"
    } else if v == 0xF701 {
        "ArrowDown"
    } else if v == 0xF702 {
        "ArrowLeft"
    } else if v == 0xF703 {
        "ArrowRight"
    } else if 0xF704 <= v && v <= 0xF71B {
        let mut out: Vec<char> = Vec::new();
        out.push('F');
        extend_chars(&mut out, &crate::text::decimal_chars((v - 0xF704 + 1) as u64));
        return Some(string_of(&out));
    } else if v == 0xF727 {
        "Insert"
    } else if v == 0xF729 {
        "Home"
    } else if v == 0xF72B {
        "End"
    } else if v == 0xF72C {
        "PageUp"
    } else if v == 0xF72D {
        "PageDown"
    } else if v == 0xF72F {
        "ScrollLock"
    } else if v == 0xF730 {
        "Pause"
    } else {
        return None;
    };
    Some(name.to_owned())
}

/// The text handed to the parser for a key press: the held modifiers as `control`,
/// `alt`, `shift` and `super`, in that order, then the key, joined by `+`.
pub open spec fn key_press_text(key: Seq<char>, control: bool, alt: bool, shift: bool, meta: bool) -> Seq<char> {
    (if control { "control+"@ } else { Seq::empty() }) + (if alt { "alt+"@ } else { Seq::empty() })
        + (if shift { "shift+"@ } else { Seq::empty() }) + (if meta { "super+"@ } else { Seq::empty() })
        + key
}

/// What a key press gives once the parser has answered: the parser's error as the message
/// `无法识别这个快捷键：…`, the message of a rule the parsed shortcut breaks, or its
/// canonical text.
pub open spec fn key_shortcut_result(parsed: Result<ParsedShortcut, String>, r: Result<String, ShortcutIssue>) -> bool {
    match parsed {
        Err(e) => r matches Err(i) && i.action is None && i.message@ == "无法识别这个快捷键："@ + e@,
        Ok(p) => match shortcut_rule_violation(p.modifiers, p.key@) {
            Some(m) => r matches Err(i) && i.action is None && i.message@ == m,
            None => r matches Ok(t) && t@ == p.canonical@,
        },
    }
}

/// Decides a key press from the parser's answer for its text.
pub fn shortcut_from_parsed(parsed: Result<ParsedShortcut, String>) -> (r: Result<String, ShortcutIssue>)
    ensures
        key_shortcut_result(parsed, r),
{
    match parsed {
        Err(e) => {
            let mut m = chars_of("无法识别这个快捷键：");
            extend_chars(&mut m, &chars_of(e.as_str()));
            Err(ShortcutIssue { action: None, message: string_of(&m) })
        },
        Ok(p) => match check_shortcut_rules(p.modifiers, p.key.as_str()) {
            Err(m) => Err(ShortcutIssue { action: None, message: m }),
            Ok(()) => Ok(p.canonical),
        },
    }
}

/// The text handed to the parser for a key press, as `key_press_text` states it.
pub fn key_press_string(key: &str, control: bool, alt: bool, shift: bool, meta: bool) -> (r: String)
    ensures
        r@ == key_press_text(key@, control, alt, shift, meta),
{
    let mut v: Vec<char> = Vec::new();
    if control {
        extend_chars(&mut v, &chars_of("control+"));
    }
    if alt {
        extend_chars(&mut v, &chars_of("alt+"));
    }
    if shift {
        extend_chars(&mut v, &chars_of("shift+"));
    }
    if meta {
        extend_chars(&mut v, &chars_of("super+"));
    }
    extend_chars(&mut v, &chars_of(key));
    let r = string_of(&v);
    assert(r@ =~= key_press_text(key@, control, alt, shift, meta));
    r
}

/// Turns a key press into the canonical text of a shortcut, or says why it cannot be one.
/// A key that cannot be a shortcut is refused before the parser is asked; otherwise the
/// parser is handed `key_press_text` of the key and the held modifiers, and its answer
/// decides as `shortcut_from_parsed` states.
pub fn shortcut_from_key_event(
    text: &str,
    control: bool,
    alt: bool,
    shift: bool,
    meta: bool,
) -> (r: Result<String, ShortcutIssue>)
    ensures
        (text@.len() != 1 || event_key_name(text@[0]) is None) ==> (r is Err && r->Err_0.action
            is None && r->Err_0.message@ == "这个按键暂不支持作为全局快捷键"@),
        text@.len() == 1 && event_key_name(text@[0]) is Some ==> exists|
            parsed: Result<ParsedShortcut, String>,
        |
            #[trigger] parse_fits(
                key_press_text(event_key_name(text@[0])->0, control, alt, shift, meta),
                parsed,
            ) && key_shortcut_result(parsed, r),
{
    let key = match key_name_from_event(text) {
        Some(k) => k,
        None => {
            return Err(
                ShortcutIssue { action: None, message: "这个按键暂不支持作为全局快捷键".to_owned() },
            );
        },
    };
    let combined = key_press_string(key.as_str(), control, alt, shift, meta);
    let parsed = parse_hotkey_text(combined.as_str());
    let ghost answer = parsed;
    let r = shortcut_from_parsed(parsed);
    assert(parse_fits(key_press_text(event_key_name(text@[0])->0, control, alt, shift, meta), answer));
    r
}

} // verus!
