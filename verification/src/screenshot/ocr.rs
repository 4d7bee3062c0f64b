//! Text recognition of the screenshot tool: the states of the optional Windows AI engine,
//! the failures shown to the user, the worker process's command line, and how recognised
//! words are joined into lines.
use vstd::prelude::*;
use crate::i18n::{pick, Language};
use crate::text::{
    chars_of, contains_chars, contains_seq, decimal_chars, extend_chars, labelled, lower_ascii,
    lowercased, string_of, trim, trimmed, equals_text,
};
use crate::screenshot::config::{clamped, OcrEngineKind};

verus! {

/// The state of the Windows AI text recognition feature.
#[derive(Clone, Debug, PartialEq, Eq)]
pub enum AiOcrState {
    Ready,
    Preparing,
    ModelNotInstalled,
    Unsupported,
    DisabledByUser,
    ComponentMissing,
    Failed(String),
}

/// Why text could not be recognised.
#[derive(Clone, Debug, PartialEq, Eq)]
pub enum OcrFailure {
    MissingLanguagePack,
    Unsupported,
    AiUnavailable(AiOcrState),
    Failed(String),
}

/// The message shown for an AI recognition state.
pub open spec fn ai_state_message(state: AiOcrState, language: Language) -> Seq<char> {
    match state {
        AiOcrState::Ready => pick(language, "可用（Windows AI OCR）"@, "Available (Windows AI OCR)"@),
        AiOcrState::Preparing => pick(
            language,
            "正在下载并准备识别模型..."@,
            "Downloading and preparing the recognition model..."@,
        ),
        AiOcrState::ModelNotInstalled => pick(
            language,
            "支持，但识别模型尚未安装"@,
            "Supported, but the recognition model is not installed"@,
        ),
        AiOcrState::Unsupported => pick(
            language,
            "当前系统、硬件、驱动或策略不支持 Windows AI OCR"@,
            "Windows AI OCR is not supported by the current system, hardware, driver, or policy"@,
        ),
        AiOcrState::DisabledByUser => pick(
            language,
            "Windows AI 功能已被用户禁用"@,
            "Windows AI features were disabled by the user"@,
        ),
        AiOcrState::ComponentMissing => pick(
            language,
            "Windows AI OCR 组件或包身份不可用"@,
            "The Windows AI OCR component or package identity is unavailable"@,
        ),
        AiOcrState::Failed(message) => crate::text::labelled(
            pick(language, "Windows AI OCR 检测失败"@, "Windows AI OCR check failed"@),
            message@,
        ),
    }
}

/// The message of every AI recognition state is never blank, in either language.
pub proof fn lemma_ai_state_messages_not_blank(state: AiOcrState, language: Language)
    ensures
        crate::text::trim(ai_state_message(state, language)).len() > 0,
{
    reveal_strlit("可用（Windows AI OCR）");
    reveal_strlit("Available (Windows AI OCR)");
    reveal_strlit("正在下载并准备识别模型...");
    reveal_strlit("Downloading and preparing the recognition model...");
    reveal_strlit("支持，但识别模型尚未安装");
    reveal_strlit("Supported, but the recognition model is not installed");
    reveal_strlit("当前系统、硬件、驱动或策略不支持 Windows AI OCR");
    reveal_strlit("Windows AI OCR is not supported by the current system, hardware, driver, or policy");
    reveal_strlit("Windows AI 功能已被用户禁用");
    reveal_strlit("Windows AI features were disabled by the user");
    reveal_strlit("Windows AI OCR 组件或包身份不可用");
    reveal_strlit("The Windows AI OCR component or package identity is unavailable");
    reveal_strlit("Windows AI OCR 检测失败");
    reveal_strlit("Windows AI OCR check failed");
    let m = ai_state_message(state, language);
    assert(m.len() > 0 && !crate::text::is_space(m[0]));
    crate::text::lemma_not_blank(m);
}

/// Different AI recognition states, other than a failed check, have different messages in
/// the same language.
pub proof fn lemma_ai_state_messages_distinct(a: AiOcrState, b: AiOcrState, language: Language)
    requires
        a != b,
        !(a is Failed),
        !(b is Failed),
    ensures
        ai_state_message(a, language) != ai_state_message(b, language),
{
    reveal_strlit("可用（Windows AI OCR）");
    reveal_strlit("Available (Windows AI OCR)");
    reveal_strlit("正在下载并准备识别模型...");
    reveal_strlit("Downloading and preparing the recognition model...");
    reveal_strlit("支持，但识别模型尚未安装");
    reveal_strlit("Supported, but the recognition model is not installed");
    reveal_strlit("当前系统、硬件、驱动或策略不支持 Windows AI OCR");
    reveal_strlit("Windows AI OCR is not supported by the current system, hardware, driver, or policy");
    reveal_strlit("Windows AI 功能已被用户禁用");
    reveal_strlit("Windows AI features were disabled by the user");
    reveal_strlit("Windows AI OCR 组件或包身份不可用");
    reveal_strlit("The Windows AI OCR component or package identity is unavailable");
    let ma = ai_state_message(a, language);
    let mb = ai_state_message(b, language);
    assert(ma[0] != mb[0] || ma[11] != mb[11]);
}

impl AiOcrState {
    /// Whether recognition can run now.
    pub fn is_ready(&self) -> (r: bool)
        ensures
            r == (*self is Ready),
    {
        match self {
            AiOcrState::Ready => true,
            _ => false,
        }
    }

    /// Whether the recognition model can be installed.
    pub fn can_install(&self) -> (r: bool)
        ensures
            r == (*self is ModelNotInstalled),
    {
        match self {
            AiOcrState::ModelNotInstalled => true,
            _ => false,
        }
    }

    /// The message shown for the state.
    pub fn message(&self, language: Language) -> (r: String)
        ensures
            r@ == ai_state_message(*self, language),
    {
        match self {
            AiOcrState::Ready => crate::i18n::text(
                language,
                "可用（Windows AI OCR）",
                "Available (Windows AI OCR)",
            ).to_owned(),
            AiOcrState::Preparing => crate::i18n::text(
                language,
                "正在下载并准备识别模型...",
                "Downloading and preparing the recognition model...",
            ).to_owned(),
            AiOcrState::ModelNotInstalled => crate::i18n::text(
                language,
                "支持，但识别模型尚未安装",
                "Supported, but the recognition model is not installed",
            ).to_owned(),
            AiOcrState::Unsupported => crate::i18n::text(
                language,
                "当前系统、硬件、驱动或策略不支持 Windows AI OCR",
                "Windows AI OCR is not supported by the current system, hardware, driver, or policy",
            ).to_owned(),
            AiOcrState::DisabledByUser => crate::i18n::text(
                language,
                "Windows AI 功能已被用户禁用",
                "Windows AI features were disabled by the user",
            ).to_owned(),
            AiOcrState::ComponentMissing => crate::i18n::text(
                language,
                "Windows AI OCR 组件或包身份不可用",
                "The Windows AI OCR component or package identity is unavailable",
            ).to_owned(),
            AiOcrState::Failed(message) => crate::text::label_message(
                crate::i18n::text(language, "Windows AI OCR 检测失败", "Windows AI OCR check failed"),
                message.as_str(),
            ),
        }
    }
}

/// The message shown for a recognition failure; a failure without a message gets a
/// generic one.
pub open spec fn failure_message(failure: OcrFailure, language: Language) -> Seq<char> {
    match failure {
        OcrFailure::MissingLanguagePack => pick(
            language,
            "缺少可用的 Windows OCR 语言包"@,
            "No compatible Windows OCR language pack is installed"@,
        ),
        OcrFailure::Unsupported => pick(
            language,
            "当前系统或程序安装方式不支持 Windows 系统 OCR"@,
            "Windows system OCR is not supported by this system or installation"@,
        ),
        OcrFailure::AiUnavailable(state) => ai_state_message(state, language),
        OcrFailure::Failed(message) => if trim(message@).len() == 0 {
            pick(language, "OCR 识别失败"@, "OCR failed"@)
        } else {
            message@
        },
    }
}

/// The message of every recognition failure is never blank, in either language.
pub proof fn lemma_failure_messages_not_blank(failure: OcrFailure, language: Language)
    ensures
        crate::text::trim(failure_message(failure, language)).len() > 0,
{
    match failure {
        OcrFailure::AiUnavailable(state) => {
            lemma_ai_state_messages_not_blank(state, language);
        },
        OcrFailure::Failed(message) => {
            reveal_strlit("OCR 识别失败");
            reveal_strlit("OCR failed");
            if crate::text::trim(message@).len() == 0 {
                let m = failure_message(failure, language);
                assert(m.len() > 0 && !crate::text::is_space(m[0]));
                crate::text::lemma_not_blank(m);
            }
        },
        _ => {
            reveal_strlit("缺少可用的 Windows OCR 语言包");
            reveal_strlit("No compatible Windows OCR language pack is installed");
            reveal_strlit("当前系统或程序安装方式不支持 Windows 系统 OCR");
            reveal_strlit("Windows system OCR is not supported by this system or installation");
            let m = failure_message(failure, language);
            assert(m.len() > 0 && !crate::text::is_space(m[0]));
            crate::text::lemma_not_blank(m);
        },
    }
}

impl OcrFailure {
    /// The message shown for the failure.
    pub fn message(&self, language: Language) -> (r: String)
        ensures
            r@ == failure_message(*self, language),
    {
        match self {
            OcrFailure::MissingLanguagePack => crate::i18n::text(
                language,
                "缺少可用的 Windows OCR 语言包",
                "No compatible Windows OCR language pack is installed",
            ).to_owned(),
            OcrFailure::Unsupported => crate::i18n::text(
                language,
                "当前系统或程序安装方式不支持 Windows 系统 OCR",
                "Windows system OCR is not supported by this system or installation",
            ).to_owned(),
            OcrFailure::AiUnavailable(state) => state.message(language),
            OcrFailure::Failed(message) => {
                if trimmed(&chars_of(message.as_str())).len() == 0 {
                    crate::i18n::text(language, "OCR 识别失败", "OCR failed").to_owned()
                } else {
                    message.clone()
                }
            },
        }
    }
}

/// The readiness that Windows reports for the AI text recognizer.
#[derive(Clone, Copy, Debug, PartialEq, Eq, Structural)]
pub enum ReadyState {
    Ready,
    NotReady,
    NotSupportedOnCurrentSystem,
    DisabledByUser,
    /// A value this version does not know, by its number.
    Other(i32),
}

/// The AI recognition state for a reported readiness; an unknown value fails with
/// `未知 Windows AI 状态：{value}`.
pub fn ai_state_from_readiness(ready: ReadyState) -> (r: AiOcrState)
    ensures
        match ready {
            ReadyState::Ready => r == AiOcrState::Ready,
            ReadyState::NotReady => r == AiOcrState::ModelNotInstalled,
            ReadyState::NotSupportedOnCurrentSystem => r == AiOcrState::Unsupported,
            ReadyState::DisabledByUser => r == AiOcrState::DisabledByUser,
            ReadyState::Other(v) => r matches AiOcrState::Failed(m) && m@ == "未知 Windows AI 状态："@
                + crate::text::signed_decimal(v as int),
        },
{
    match ready {
        ReadyState::Ready => AiOcrState::Ready,
        ReadyState::NotReady => AiOcrState::ModelNotInstalled,
        ReadyState::NotSupportedOnCurrentSystem => AiOcrState::Unsupported,
        ReadyState::DisabledByUser => AiOcrState::DisabledByUser,
        ReadyState::Other(v) => {
            let mut m = chars_of("未知 Windows AI 状态：");
            extend_chars(&mut m, &crate::text::signed_decimal_chars(v as i64));
            AiOcrState::Failed(string_of(&m))
        },
    }
}

/// Recognition with the AI engine needs it ready; any other state is the failure.
pub fn require_ready(state: AiOcrState) -> (r: Result<(), OcrFailure>)
    ensures
        state is Ready ==> r is Ok,
        !(state is Ready) ==> r == Err::<(), OcrFailure>(OcrFailure::AiUnavailable(state)),
{
    match state {
        AiOcrState::Ready => Ok(()),
        other => Err(OcrFailure::AiUnavailable(other)),
    }
}

/// What preparing the AI engine does in each state: nothing more when it is ready, an
/// installation of the model when it is missing, and a failure otherwise.
#[derive(Clone, Debug, PartialEq, Eq)]
pub enum PrepareStep {
    AlreadyReady,
    InstallModel,
    Refuse(OcrFailure),
}

/// The step that preparing the AI engine takes in `state`.
pub fn prepare_step(state: AiOcrState) -> (r: PrepareStep)
    ensures
        state is Ready ==> r == PrepareStep::AlreadyReady,
        state is ModelNotInstalled ==> r == PrepareStep::InstallModel,
        !(state is Ready) && !(state is ModelNotInstalled) ==> r == PrepareStep::Refuse(
            OcrFailure::AiUnavailable(state),
        ),
{
    match state {
        AiOcrState::Ready => PrepareStep::AlreadyReady,
        AiOcrState::ModelNotInstalled => PrepareStep::InstallModel,
        other => PrepareStep::Refuse(OcrFailure::AiUnavailable(other)),
    }
}

/// The failure a Windows error stands for: a class that is not registered or a missing
/// package means the AI component is missing; anything else fails with the error's message.
pub open spec fn error_failure_is_missing(code: i32, message: Seq<char>) -> bool {
    ||| code == -2147221164
    ||| contains_seq(lower_ascii(message), "class not registered"@)
    ||| contains_seq(message, "没有注册类"@)
    ||| contains_seq(lower_ascii(message), "package"@)
}

/// Sorts a Windows error, by its `HRESULT` code and message.
pub fn classify_error(code: i32, message: String) -> (r: OcrFailure)
    ensures
        error_failure_is_missing(code, message@) ==> r == OcrFailure::AiUnavailable(
            AiOcrState::ComponentMissing,
        ),
        !error_failure_is_missing(code, message@) ==> r == OcrFailure::Failed(message),
{
    let chars = chars_of(message.as_str());
    let lower = lowercased(&chars);
    if code == -2147221164i32 || contains_chars(&lower, &chars_of("class not registered"))
        || contains_chars(&chars, &chars_of("没有注册类")) || contains_chars(&lower, &chars_of("package")) {
        OcrFailure::AiUnavailable(AiOcrState::ComponentMissing)
    } else {
        OcrFailure::Failed(message)
    }
}

/// Whether a character is a CJK ideograph, which is written without spaces between words.
pub open spec fn cjk_ideograph(c: char) -> bool {
    let v = c as u32;
    (0x3400 <= v && v <= 0x4DBF) || (0x4E00 <= v && v <= 0x9FFF) || (0xF900 <= v && v <= 0xFAFF)
}

/// Whether a character is a CJK ideograph.
pub fn is_cjk(c: char) -> (r: bool)
    ensures
        r == cjk_ideograph(c),
{
    let v = c as u32;
    (0x3400 <= v && v <= 0x4DBF) || (0x4E00 <= v && v <= 0x9FFF) || (0xF900 <= v && v <= 0xFAFF)
}

/// Recognised words joined into a line: a space goes between two words unless the text so
/// far is empty, ends in a CJK ideograph, or the next word starts with one.
pub open spec fn joined_words(words: Seq<Seq<char>>) -> Seq<char>
    decreases words.len(),
{
    if words.len() == 0 {
        Seq::empty()
    } else {
        let before = joined_words(words.drop_last());
        let word = words.last();
        if before.len() > 0 && !cjk_ideograph(before.last()) && !(word.len() > 0 && cjk_ideograph(word[0])) {
            before + seq![' '] + word
        } else {
            before + word
        }
    }
}

/// The texts of a sequence of strings.
pub open spec fn texts(words: Seq<String>) -> Seq<Seq<char>> {
    words.map_values(|w: String| w@)
}

/// Joins recognised words into a line.
pub fn join_words(words: &[String]) -> (r: String)
    ensures
        r@ == joined_words(texts(words@)),
{
    let mut result: Vec<char> = Vec::new();
    let mut i: usize = 0;
    assert(texts(words@).take(0) =~= Seq::<Seq<char>>::empty());
    while i < words.len()
        invariant
            i <= words@.len(),
            result@ == joined_words(texts(words@).take(i as int)),
        decreases words.len() - i,
    {
        let word = chars_of(words[i].as_str());
        assert(texts(words@).take(i + 1).drop_last() =~= texts(words@).take(i as int));
        assert(texts(words@).take(i + 1).last() == words@[i as int]@);
        let n = result.len();
        if n > 0 && !is_cjk(result[n - 1]) && !(word.len() > 0 && is_cjk(word[0])) {
            result.push(' ');
        }
        extend_chars(&mut result, &word);
        i = i + 1;
    }
    assert(texts(words@).take(words@.len() as int) =~= texts(words@));
    string_of(&result)
}

/// A single word is the whole line, with nothing added.
pub proof fn lemma_single_word_is_the_line(w: Seq<char>)
    ensures
        joined_words(seq![w]) == w,
{
    reveal_with_fuel(joined_words, 2);
    assert(seq![w].drop_last() =~= Seq::<Seq<char>>::empty());
    assert(Seq::<char>::empty() + w =~= w);
}

/// A word that starts with a CJK ideograph is appended to the line directly: no space goes
/// before it, whatever the line so far ends with.
pub proof fn lemma_no_space_before_cjk_word(words: Seq<Seq<char>>, w: Seq<char>)
    requires
        w.len() > 0,
        cjk_ideograph(w[0]),
    ensures
        joined_words(words.push(w)) == joined_words(words) + w,
{
    assert(words.push(w).drop_last() =~= words);
}

/// After a line that ends in a CJK ideograph the next word is appended directly.
pub proof fn lemma_no_space_after_cjk_text(words: Seq<Seq<char>>, w: Seq<char>)
    requires
        joined_words(words).len() > 0,
        cjk_ideograph(joined_words(words).last()),
    ensures
        joined_words(words.push(w)) == joined_words(words) + w,
{
    assert(words.push(w).drop_last() =~= words);
}

/// A space separates the next word from a non-empty line exactly when neither the end of the
/// line nor the start of the word is a CJK ideograph.
pub proof fn lemma_space_between_other_words(words: Seq<Seq<char>>, w: Seq<char>)
    requires
        joined_words(words).len() > 0,
        !cjk_ideograph(joined_words(words).last()),
        !(w.len() > 0 && cjk_ideograph(w[0])),
    ensures
        joined_words(words.push(w)) == joined_words(words) + seq![' '] + w,
{
    assert(words.push(w).drop_last() =~= words);
}

/// Two words: a word that ends in anything but a CJK ideograph followed by a word that starts
/// with one (`Rust` then `截图`) join without a space; two words that neither end nor start
/// with one (`hello` then `world`) join with one space.
pub proof fn lemma_two_words(a: Seq<char>, b: Seq<char>)
    requires
        a.len() > 0,
        !cjk_ideograph(a.last()),
    ensures
        b.len() > 0 && cjk_ideograph(b[0]) ==> joined_words(seq![a, b]) == a + b,
        !(b.len() > 0 && cjk_ideograph(b[0])) ==> joined_words(seq![a, b]) == a + seq![' '] + b,
{
    lemma_single_word_is_the_line(a);
    assert(seq![a].push(b) =~= seq![a, b]);
    if b.len() > 0 && cjk_ideograph(b[0]) {
        lemma_no_space_before_cjk_word(seq![a], b);
    } else {
        lemma_space_between_other_words(seq![a], b);
    }
}

/// Pixels for the Windows recognizer: the red and blue bytes of each whole pixel swapped
/// and its alpha made opaque; a trailing partial pixel is left as it is.
pub open spec fn bgra_for_recognizer(rgba: Seq<u8>) -> Seq<u8> {
    Seq::new(
        rgba.len(),
        |k: int|
            if k >= (rgba.len() / 4) * 4 {
                rgba[k]
            } else if k % 4 == 3 {
                255u8
            } else if k % 4 == 1 {
                rgba[k]
            } else {
                rgba[k - k % 4 + 2 - k % 4]
            },
    )
}

/// Converts RGBA pixels for the Windows recognizer.
#[verifier::spinoff_prover]
#[verifier::rlimit(40)]
pub fn rgba_to_bgra(pixels: Vec<u8>) -> (r: Vec<u8>)
    ensures
        r@ == bgra_for_recognizer(pixels@),
{
    let ghost before = pixels@;
    let mut pixels = pixels;
    let n = pixels.len();
    let whole = (n / 4) * 4;
    let mut p: usize = 0;
    while p < whole
        invariant
            n == pixels@.len(),
            n == before.len(),
            whole == (n / 4) * 4,
            p <= whole,
            p % 4 == 0,
            forall|k: int| 0 <= k < p ==> #[trigger] pixels@[k] == bgra_for_recognizer(before)[k],
            forall|k: int| p <= k < n ==> #[trigger] pixels@[k] == before[k],
        decreases whole - p,
    {
        let red = pixels[p];
        let blue = pixels[p + 2];
        pixels.set(p, blue);
        pixels.set(p + 2, red);
        pixels.set(p + 3, 255);
        assert forall|k: int| 0 <= k < p + 4 implies #[trigger] pixels@[k] == bgra_for_recognizer(before)[k] by {
            if k >= p {
                assert(k % 4 == k - p);
                assert(k - k % 4 == p);
            }
        }
        p = p + 4;
    }
    assert(pixels@ =~= bgra_for_recognizer(before));
    pixels
}


/// The value of a string of decimal digits.
pub open spec fn digits_value(s: Seq<char>) -> nat
    decreases s.len(),
{
    if s.len() == 0 {
        0
    } else {
        digits_value(s.drop_last()) * 10 + ((s.last() as u32) - 48) as nat
    }
}

/// Whether every character of `s` is an ASCII digit.
pub open spec fn all_digits(s: Seq<char>) -> bool {
    forall|i: int| 0 <= i < s.len() ==> '0' <= #[trigger] s[i] && s[i] <= '9'
}

/// What `str::parse::<u8>` gives: an optional `+` followed by at least one ASCII digit,
/// with a value of at most 255.
pub open spec fn parsed_u8(s: Seq<char>) -> Option<u8> {
    let digits = if s.len() > 0 && s[0] == '+' { s.skip(1) } else { s };
    if digits.len() == 0 || !all_digits(digits) || digits_value(digits) > 255 {
        None
    } else {
        Some(digits_value(digits) as u8)
    }
}

/// Parses a decimal `u8` as `str::parse` does.
#[verifier::rlimit(30)]
pub fn parse_u8(s: &str) -> (r: Option<u8>)
    ensures
        r == parsed_u8(s@),
{
    let chars = chars_of(s);
    let start: usize = if chars.len() > 0 && chars[0] == '+' { 1 } else { 0 };
    let ghost digits = if s@.len() > 0 && s@[0] == '+' { s@.skip(1) } else { s@ };
    assert(digits =~= s@.skip(start as int));
    if start >= chars.len() {
        return None;
    }
    let mut value: u32 = 0;
    let mut i: usize = start;
    assert(digits.take(0) =~= Seq::<char>::empty());
    while i < chars.len()
        invariant
            start <= i <= chars@.len(),
            chars@ == s@,
            digits == s@.skip(start as int),
            digits == (if s@.len() > 0 && s@[0] == '+' { s@.skip(1) } else { s@ }),
            digits.len() > 0,
            all_digits(digits.take(i - start)),
            digits_value(digits.take(i - start)) > 255 ==> value == 256,
            digits_value(digits.take(i - start)) <= 255 ==> value == digits_value(digits.take(i - start)),
        decreases chars.len() - i,
    {
        let c = chars[i];
        assert(digits.take(i - start + 1).drop_last() =~= digits.take(i - start));
        assert(digits.take(i - start + 1).last() == c);
        assert(digits[i - start] == c);
        if !('0' <= c && c <= '9') {
            assert(!all_digits(digits)) by {
                assert(!('0' <= digits[i - start] && digits[i - start] <= '9'));
                assert(0 <= i - start < digits.len());
            }
            return None;
        }
        if value <= 255 {
            value = value * 10 + ((c as u32) - 48);
            if value > 255 {
                value = 256;
            }
        }
        assert(all_digits(digits.take(i - start + 1)));
        i = i + 1;
    }
    assert(digits.take(digits.len() as int) =~= digits);
    if value > 255 {
        return None;
    }
    Some(value as u8)
}

/// How the program was asked to run as a recognition worker.
#[derive(Clone, Debug, PartialEq, Eq)]
pub enum WorkerCommand {
    /// Report (or, when `prepare` is set, prepare) the AI engine's state into `output`.
    AiState { output: String, prepare: bool },
    /// Recognise the text of the image `input` with `engine` and write the result to `output`.
    Recognize { engine: String, input: String, output: String, minimum_confidence: u8 },
    /// A worker argument with missing or extra arguments: the worker exits with code 2.
    Malformed,
}

/// The argument that starts the recognition worker.
pub const WORKER_ARGUMENT: &'static str = "--gridstart-system-ocr-worker";

/// The argument that starts the AI state probe.
pub const AI_PROBE_ARGUMENT: &'static str = "--gridstart-ai-ocr-probe";

/// The argument that starts the AI model preparation.
pub const AI_PREPARE_ARGUMENT: &'static str = "--gridstart-ai-ocr-prepare";

/// Reads the arguments after the program's name: the probe and prepare arguments take
/// exactly one output path; the worker argument takes an engine, an input path, an output
/// path and a minimum confidence, which is 0 when it does not parse; anything else is no
/// worker invocation.
pub fn worker_command(args: &Vec<String>) -> (r: Option<WorkerCommand>)
    ensures
        args@.len() == 0 ==> r is None,
        args@.len() > 0 && (args@[0]@ == AI_PROBE_ARGUMENT@ || args@[0]@ == AI_PREPARE_ARGUMENT@)
            ==> if args@.len() == 2 {
            r matches Some(WorkerCommand::AiState { output, prepare }) && output@ == args@[1]@
                && prepare == (args@[0]@ == AI_PREPARE_ARGUMENT@)
        } else {
            r == Some(WorkerCommand::Malformed)
        },
        args@.len() > 0 && args@[0]@ != AI_PROBE_ARGUMENT@ && args@[0]@ != AI_PREPARE_ARGUMENT@
            && args@[0]@ == WORKER_ARGUMENT@ ==> if args@.len() == 5 {
            r matches Some(WorkerCommand::Recognize { engine, input, output, minimum_confidence })
                && engine@ == args@[1]@ && input@ == args@[2]@ && output@ == args@[3]@
                && minimum_confidence == match parsed_u8(args@[4]@) {
                Some(v) => v,
                None => 0u8,
            }
        } else {
            r == Some(WorkerCommand::Malformed)
        },
        args@.len() > 0 && args@[0]@ != AI_PROBE_ARGUMENT@ && args@[0]@ != AI_PREPARE_ARGUMENT@
            && args@[0]@ != WORKER_ARGUMENT@ ==> r is None,
{
    if args.len() == 0 {
        return None;
    }
    let command = chars_of(args[0].as_str());
    let probe = equals_text(&command, AI_PROBE_ARGUMENT);
    let prepare = equals_text(&command, AI_PREPARE_ARGUMENT);
    if probe || prepare {
        if args.len() != 2 {
            return Some(WorkerCommand::Malformed);
        }
        return Some(WorkerCommand::AiState { output: args[1].clone(), prepare });
    }
    if !equals_text(&command, WORKER_ARGUMENT) {
        return None;
    }
    if args.len() != 5 {
        return Some(WorkerCommand::Malformed);
    }
    let minimum_confidence = match parse_u8(args[4].as_str()) {
        Some(v) => v,
        None => 0,
    };
    Some(
        WorkerCommand::Recognize {
            engine: args[1].clone(),
            input: args[2].clone(),
            output: args[3].clone(),
            minimum_confidence,
        },
    )
}

/// The engine argument handed to the worker.
pub fn engine_argument(engine: OcrEngineKind) -> (r: &'static str)
    ensures
        r@ == match engine {
            OcrEngineKind::System => "system"@,
            OcrEngineKind::WindowsAi => "windows_ai"@,
        },
{
    match engine {
        OcrEngineKind::System => "system",
        OcrEngineKind::WindowsAi => "windows_ai",
    }
}

/// The engine a worker argument names, if it names one.
pub fn engine_from_argument(argument: &str) -> (r: Option<OcrEngineKind>)
    ensures
        r == if argument@ == "system"@ {
            Some(OcrEngineKind::System)
        } else if argument@ == "windows_ai"@ {
            Some(OcrEngineKind::WindowsAi)
        } else {
            None
        },
{
    let chars = chars_of(argument);
    if equals_text(&chars, "system") {
        Some(OcrEngineKind::System)
    } else if equals_text(&chars, "windows_ai") {
        Some(OcrEngineKind::WindowsAi)
    } else {
        None
    }
}

/// The failure for an engine argument the worker does not know.
pub fn unknown_engine() -> (r: OcrFailure)
    ensures
        r matches OcrFailure::Failed(m) && m@ == "未知 OCR 引擎"@,
{
    OcrFailure::Failed("未知 OCR 引擎".to_owned())
}

/// The minimum-confidence argument handed to the worker: the setting, at most 100, in
/// decimal.
pub fn confidence_argument(minimum_confidence: u8) -> (r: String)
    ensures
        r@ == crate::text::decimal(clamped(minimum_confidence, 0, 100) as nat),
{
    let v: u8 = if minimum_confidence > 100 { 100 } else { minimum_confidence };
    string_of(&decimal_chars(v as u64))
}

/// The upper-case hexadecimal digit of `d`.
pub open spec fn hex_digit(d: nat) -> char {
    if d < 10 {
        ((d + 48) as u32) as char
    } else {
        ((d + 55) as u32) as char
    }
}

/// The last `width` hexadecimal digits of `v`, upper case, with leading zeros.
pub open spec fn hex_padded(v: nat, width: nat) -> Seq<char>
    decreases width,
{
    if width == 0 {
        Seq::empty()
    } else {
        hex_padded(v / 16, (width - 1) as nat).push(hex_digit(v % 16))
    }
}

fn hex_padded_chars(v: u32, width: usize) -> (r: Vec<char>)
    ensures
        r@ == hex_padded(v as nat, width as nat),
    decreases width,
{
    if width == 0 {
        return Vec::new();
    }
    let mut r = hex_padded_chars(v / 16, width - 1);
    let d = v % 16;
    let c = if d < 10 {
        crate::text::char_from_ascii(d + 48)
    } else {
        crate::text::char_from_ascii(d + 55)
    };
    r.push(c);
    r
}

/// The message for a worker that exited abnormally: with its exit code as eight upper-case
/// hexadecimal digits when there is one.
pub open spec fn worker_failure_text(code: Option<i32>) -> Seq<char> {
    match code {
        Some(c) => "Windows OCR 子进程异常退出（0x"@ + hex_padded((c as u32) as nat, 8) + "）"@,
        None => "Windows OCR 子进程异常退出"@,
    }
}

/// The message for a worker that exited abnormally.
pub fn format_worker_failure(code: Option<i32>) -> (r: String)
    ensures
        r@ == worker_failure_text(code),
{
    match code {
        Some(c) => {
            let mut v = chars_of("Windows OCR 子进程异常退出（0x");
            extend_chars(&mut v, &hex_padded_chars(c as u32, 8));
            extend_chars(&mut v, &chars_of("）"));
            string_of(&v)
        },
        None => "Windows OCR 子进程异常退出".to_owned(),
    }
}

} // verus!
