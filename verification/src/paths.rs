//! Building file-system paths from a directory and one plain file or folder name.
use vstd::prelude::*;

verus! {

/// A single path component with no separator, drive colon or dot-only name.
pub open spec fn plain_name(name: Seq<char>) -> bool {
    &&& name.len() > 0
    &&& name != seq!['.']
    &&& name != seq!['.', '.']
    &&& forall|i: int| 0 <= i < name.len() ==> name[i] != '/' && name[i] != '\\' && name[i] != ':'
}

/// Whether `joined` is `base` extended by the plain name `name`: either appended directly
/// or after one path separator.
pub open spec fn extends_with(base: Seq<char>, name: Seq<char>, joined: Seq<char>) -> bool {
    ||| joined == base + name
    ||| joined == base + seq!['/'] + name
    ||| joined == base + seq!['\\'] + name
}

/// A path that starts with the Windows verbatim prefix `\\?\`. Joining onto such a path
/// rebuilds its components (dropping `.` parts) instead of appending.
pub open spec fn verbatim_path(path: Seq<char>) -> bool {
    &&& path.len() >= 4
    &&& path[0] == '\\'
    &&& path[1] == '\\'
    &&& path[2] == '?'
    &&& path[3] == '\\'
}

/// `Path::new(base).join(name)` as a string. When `name` is one plain component and `base`
/// has no verbatim prefix, the standard library appends it to `base`, with a separator
/// when `base` does not already end in one. Which separator, and whether one is needed,
/// depends on the platform, so the contract states only that one of the three forms comes
/// back. Of other names (absolute paths, several components) and of verbatim bases
/// nothing is stated.
#[verifier::external_body]
pub(crate) fn join_path(base: &str, name: &str) -> (r: String)
    ensures
        plain_name(name@) && !verbatim_path(base@) ==> extends_with(base@, name@, r@),
{
    std::path::Path::new(base).join(name).to_string_lossy().into_owned()
}

/// A name of three or more letters and dots is a plain name.
proof fn lemma_letters_are_plain(name: Seq<char>)
    requires
        name.len() >= 3,
        forall|i: int|
            0 <= i < name.len() ==> ('a' <= #[trigger] name[i] <= 'z' || 'A' <= name[i] <= 'Z' || name[i] == '.'),
    ensures
        plain_name(name),
{
}

/// The fixed folder and file names that the applications join are plain names.
pub proof fn lemma_fixed_names_are_plain()
    ensures
        plain_name("ShiPing"@),
        plain_name("GridStart"@),
        plain_name("config.json"@),
        plain_name("logs"@),
        plain_name("Pictures"@),
        plain_name("Videos"@),
{
    reveal_strlit("ShiPing");
    reveal_strlit("GridStart");
    reveal_strlit("config.json");
    reveal_strlit("logs");
    reveal_strlit("Pictures");
    reveal_strlit("Videos");
    lemma_letters_are_plain("ShiPing"@);
    lemma_letters_are_plain("GridStart"@);
    lemma_letters_are_plain("config.json"@);
    lemma_letters_are_plain("logs"@);
    lemma_letters_are_plain("Pictures"@);
    lemma_letters_are_plain("Videos"@);
}

/// The configuration folder of one product of the suite inside the platform's configuration
/// root.
pub fn roaming_app_data_directory(config_root: &str, product_directory: &str) -> (r: String)
    ensures
        plain_name(product_directory@) && !verbatim_path(config_root@) ==> extends_with(
            config_root@,
            product_directory@,
            r@,
        ),
{
    join_path(config_root, product_directory)
}

/// The user's conventional `Pictures` folder inside the home folder.
pub fn default_picture_directory(home: &str) -> (r: String)
    ensures
        !verbatim_path(home@) ==> extends_with(home@, "Pictures"@, r@),
{
    proof {
        lemma_fixed_names_are_plain();
    }
    join_path(home, "Pictures")
}


/// `Path::exists` on `path`. What is on disk is not known here, so nothing is stated.
#[verifier::external_body]
pub(crate) fn path_exists(path: &str) -> (r: bool) {
    std::path::Path::new(path).exists()
}


/// The first candidate that is free, given for each candidate probed so far whether it is
/// taken: the index of the first `false`, or none when every answer is `true`.
pub fn first_free(taken: &[bool]) -> (r: Option<usize>)
    ensures
        match r {
            Some(i) => i < taken@.len() && !taken@[i as int] && forall|k: int|
                0 <= k < i ==> #[trigger] taken@[k],
            None => forall|k: int| 0 <= k < taken@.len() ==> #[trigger] taken@[k],
        },
{
    let mut i: usize = 0;
    while i < taken.len()
        invariant
            i <= taken@.len(),
            forall|k: int| 0 <= k < i ==> #[trigger] taken@[k],
        decreases taken@.len() - i,
    {
        if !taken[i] {
            return Some(i);
        }
        i = i + 1;
    }
    None
}

/// A path that every platform splits at its `/` separators alone: it holds no backslash,
/// and it does not start with two separators, which Windows reads as the start of a
/// network or device prefix.
pub open spec fn portable_path(path: Seq<char>) -> bool {
    &&& forall|i: int| 0 <= i < path.len() ==> path[i] != '\\'
    &&& !(path.len() >= 2 && path[0] == '/' && path[1] == '/')
}

/// Whether `path` is `name`, or ends in a `/` followed by `name`.
pub open spec fn ends_with_component(path: Seq<char>, name: Seq<char>) -> bool {
    ||| path == name
    ||| {
        &&& path.len() > name.len()
        &&& path[path.len() - name.len() - 1] == '/'
        &&& path.skip(path.len() - name.len()) == name
    }
}

/// `Path::file_name` of `path`, as text: its last component, unless that is `..`. A file
/// name is non-empty; that of a portable path holds no `/`, and a portable path that is a
/// plain name, or ends in `/` and a plain name, has that name as its file name. Of other
/// paths, whose components depend on the platform's separators and prefixes, nothing more
/// is stated.
#[verifier::external_body]
pub(crate) fn file_name(path: &str) -> (r: Option<String>)
    ensures
        r matches Some(f) ==> f@.len() > 0 && (portable_path(path@) ==> forall|i: int|
            0 <= i < f@.len() ==> f@[i] != '/'),
        r is None ==> forall|name: Seq<char>|
            !(plain_name(name) && #[trigger] ends_with_component(path@, name) && portable_path(path@)),
        r matches Some(f) ==> forall|name: Seq<char>|
            (plain_name(name) && #[trigger] ends_with_component(path@, name) && portable_path(path@))
                ==> f@ == name,
{
    match std::path::Path::new(path).file_name() {
        Some(name) => Some(name.to_string_lossy().into_owned()),
        None => None,
    }
}

/// `Path::with_file_name`: `path` with its last component replaced by `name`, or with
/// `name` appended when it has no file name. For a plain name the result ends in `name`;
/// what comes before depends on the platform's separators and is not stated.
#[verifier::external_body]
pub(crate) fn with_file_name(path: &str, name: &str) -> (r: String)
    ensures
        plain_name(name@) ==> exists|prefix: Seq<char>| r@ == prefix + name@,
{
    std::path::Path::new(path).with_file_name(name).to_string_lossy().into_owned()
}


/// The folder of the shared Slint component library, inside the UI crate's own folder.
pub fn slint_library_path(crate_directory: &str) -> (r: String)
    ensures
        !verbatim_path(crate_directory@) ==> extends_with(crate_directory@, "ui"@, r@),
{
    proof {
        reveal_strlit("ui");
        assert("ui"@ =~= seq!['u', 'i']) by {
            assert forall|i: int| 0 <= i < 2 implies "ui"@[i] == seq!['u', 'i'][i] by {
                if i == 0 {} else {}
            }
        }
    }
    join_path(crate_directory, "ui")
}

} // verus!
