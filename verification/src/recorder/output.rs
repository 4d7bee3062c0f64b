//! Where a recording is written: a hidden partial file next to the final name, both free
//! in the save folder, until the recording completes.
use vstd::prelude::*;
use crate::i18n::{pick, Language};
use crate::paths::{extends_with, first_free, join_path, path_exists, plain_name, verbatim_path};
use crate::recorder::config::OutputFormat;
use crate::text::{chars_of, decimal, decimal_chars, extend_chars, string_of};

verus! {

/// The paths of a recording in progress and of the finished file.
#[derive(Clone, Debug, PartialEq, Eq)]
pub struct OutputPaths {
    pub partial: String,
    pub final_path: String,
}

/// The stem of the `suffix`-th candidate name of a recording: `Recording_{timestamp}`, then
/// `Recording_{timestamp}_1` and so on.
pub open spec fn recording_stem(timestamp: Seq<char>, suffix: nat) -> Seq<char> {
    if suffix == 0 {
        "Recording_"@ + timestamp
    } else {
        "Recording_"@ + timestamp + seq!['_'] + decimal(suffix)
    }
}

/// The final file name of a stem: `{stem}.{extension}`.
pub open spec fn final_name(stem: Seq<char>, extension: Seq<char>) -> Seq<char> {
    stem + seq!['.'] + extension
}

/// The hidden partial file name of a stem: `.{stem}.partial.{extension}`.
pub open spec fn partial_name(stem: Seq<char>, extension: Seq<char>) -> Seq<char> {
    seq!['.'] + stem + ".partial."@ + extension
}

fn stem_exec(timestamp: &str, suffix: u32) -> (r: Vec<char>)
    ensures
        r@ == recording_stem(timestamp@, suffix as nat),
{
    let mut v = chars_of("Recording_");
    extend_chars(&mut v, &chars_of(timestamp));
    if suffix != 0 {
        v.push('_');
        extend_chars(&mut v, &decimal_chars(suffix as u64));
    }
    v
}

/// Why no output paths could be chosen.
#[derive(Clone, Copy, Debug, PartialEq, Eq, Structural)]
pub enum OutputError {
    /// Every candidate name up to the ten-thousandth is taken.
    NoFreeName,
}

impl OutputError {
    /// The message shown for the error.
    pub fn message(self, language: Language) -> (r: &'static str)
        ensures
            r@ == pick(
                language,
                "无法生成不重复的录制文件名"@,
                "Could not generate a unique recording filename"@,
            ),
    {
        crate::i18n::text(
            language,
            "无法生成不重复的录制文件名",
            "Could not generate a unique recording filename",
        )
    }
}

/// The two paths of a candidate in `directory`, as far as joining states them: the final
/// and the partial file of `stem`.
pub open spec fn candidate_paths(directory: Seq<char>, stem: Seq<char>, extension: Seq<char>, paths: OutputPaths) -> bool {
    &&& plain_name(final_name(stem, extension)) ==> extends_with(directory, final_name(stem, extension), paths.final_path@)
    &&& plain_name(partial_name(stem, extension)) ==> extends_with(directory, partial_name(stem, extension), paths.partial@)
}

/// Chooses the paths of a new recording in `directory`: the first candidate stem for which
/// neither the final nor the partial file exists. The candidates are probed in order until
/// one is free, and `first_free` picks the answer from what the probes said.
pub fn prepare_paths(directory: &str, timestamp: &str, format: OutputFormat) -> (r: Result<OutputPaths, OutputError>)
    ensures
        r matches Ok(paths) ==> exists|suffix: nat|
            suffix < 10000 && {
                let stem = #[trigger] recording_stem(timestamp@, suffix);
                !verbatim_path(directory@) ==> candidate_paths(directory@, stem, format.extension_text(), paths)
            },
{
    let extension = format.extension();
    let mut taken: Vec<bool> = Vec::new();
    let mut candidates: Vec<OutputPaths> = Vec::new();
    let mut found = false;
    let mut index: u32 = 0;
    while index < 10000 && !found
        invariant
            index <= 10000,
            extension@ == format.extension_text(),
            taken@.len() == candidates@.len(),
            taken@.len() <= 10000,
            !found ==> taken@.len() == index,
            forall|k: int| 0 <= k < candidates@.len() ==> (!verbatim_path(directory@)
                ==> candidate_paths(directory@, recording_stem(timestamp@, k as nat), format.extension_text(), #[trigger] candidates@[k])),
        decreases 10000 - index + (if found { 0int } else { 1int }),
    {
        let stem = stem_exec(timestamp, index);
        let mut final_chars = stem.clone();
        final_chars.push('.');
        extend_chars(&mut final_chars, &chars_of(extension));
        let mut partial_chars: Vec<char> = Vec::new();
        partial_chars.push('.');
        extend_chars(&mut partial_chars, &stem);
        extend_chars(&mut partial_chars, &chars_of(".partial."));
        extend_chars(&mut partial_chars, &chars_of(extension));
        let final_name_text = string_of(&final_chars);
        let partial_name_text = string_of(&partial_chars);
        proof {
            let s = recording_stem(timestamp@, index as nat);
            assert(final_name_text@ =~= final_name(s, format.extension_text()));
            assert(partial_name_text@ =~= partial_name(s, format.extension_text()));
        }
        let final_path = join_path(directory, final_name_text.as_str());
        let partial = join_path(directory, partial_name_text.as_str());
        let exists = path_exists(final_path.as_str()) || path_exists(partial.as_str());
        taken.push(exists);
        candidates.push(OutputPaths { partial, final_path });
        if exists {
            index = index + 1;
        } else {
            found = true;
        }
    }
    match first_free(taken.as_slice()) {
        Some(i) => {
            let chosen = OutputPaths {
                partial: candidates[i].partial.clone(),
                final_path: candidates[i].final_path.clone(),
            };
            let ghost w: nat = i as nat;
            let ghost stem = recording_stem(timestamp@, w);
            assert(w < 10000 && (!verbatim_path(directory@) ==> candidate_paths(
                directory@,
                stem,
                format.extension_text(),
                chosen,
            )));
            Ok(chosen)
        },
        None => Err(OutputError::NoFreeName),
    }
}

} // verus!
