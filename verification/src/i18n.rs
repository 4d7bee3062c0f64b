//! The two languages of the user interface and the language preference of the settings.
use vstd::prelude::*;

verus! {

/// The language preference stored in the settings of both applications.
#[derive(Clone, Copy, Debug, PartialEq, Eq, Structural)]
pub enum LanguageMode {
    System,
    English,
    Chinese,
}

/// A language that text is shown in.
#[derive(Clone, Copy, Debug, PartialEq, Eq, Structural)]
pub enum Language {
    Chinese,
    English,
}

/// The text of a message in `language`, given its Chinese and English forms.
pub open spec fn pick(language: Language, zh: Seq<char>, en: Seq<char>) -> Seq<char> {
    match language {
        Language::Chinese => zh,
        Language::English => en,
    }
}

/// Chooses the Chinese or the English form of a message.
pub fn text(language: Language, zh: &'static str, en: &'static str) -> (r: &'static str)
    ensures
        r@ == pick(language, zh@, en@),
{
    match language {
        Language::Chinese => zh,
        Language::English => en,
    }
}

/// The language of a preference: the one chosen, or for `System` the system's language,
/// Chinese when the system speaks Chinese and English otherwise.
pub open spec fn resolved(mode: LanguageMode, system_chinese: bool) -> Language {
    match mode {
        LanguageMode::Chinese => Language::Chinese,
        LanguageMode::English => Language::English,
        LanguageMode::System => if system_chinese {
            Language::Chinese
        } else {
            Language::English
        },
    }
}

/// Resolves a language preference against the system's language.
pub fn resolve(mode: LanguageMode, system_chinese: bool) -> (r: Language)
    ensures
        r == resolved(mode, system_chinese),
{
    match mode {
        LanguageMode::Chinese => Language::Chinese,
        LanguageMode::English => Language::English,
        LanguageMode::System => if system_chinese {
            Language::Chinese
        } else {
            Language::English
        },
    }
}

/// Whether a locale name such as `zh_CN.UTF-8` or `zh-Hans` names Chinese: it starts with
/// `zh`, in either case.
pub open spec fn names_chinese(locale: Seq<char>) -> bool {
    locale.len() >= 2 && (locale[0] == 'z' || locale[0] == 'Z') && (locale[1] == 'h'
        || locale[1] == 'H')
}

/// Tells whether a locale name names Chinese.
pub fn locale_is_chinese(locale: &str) -> (r: bool)
    ensures
        r == names_chinese(locale@),
{
    let v = crate::text::chars_of(locale);
    v.len() >= 2 && (v[0] == 'z' || v[0] == 'Z') && (v[1] == 'h' || v[1] == 'H')
}

} // verus!
