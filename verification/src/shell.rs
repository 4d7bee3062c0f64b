//! Opening files and folders with the desktop shell: the arguments handed over and how
//! its answers are read.
use vstd::prelude::*;
use crate::text::{chars_of, extend_chars, signed_decimal, signed_decimal_chars, string_of};

verus! {

/// The message for a shell that refused to open a target, with the code it returned.
pub open spec fn open_failure_text(code: i64) -> Seq<char> {
    "打开目标失败，系统返回代码 "@ + signed_decimal(code as int)
}

/// Reads the value `ShellExecuteW` returned: values up to 32 are errors.
pub fn open_path_status(code: i64) -> (r: Result<(), String>)
    ensures
        code <= 32 ==> (r matches Err(m) && m@ == open_failure_text(code)),
        code > 32 ==> r is Ok,
{
    if code <= 32 {
        let mut v = chars_of("打开目标失败，系统返回代码 ");
        extend_chars(&mut v, &signed_decimal_chars(code));
        return Err(string_of(&v));
    }
    Ok(())
}

/// The failure of opening a path where the platform has no way to do it.
pub fn open_path_unsupported() -> (r: Result<(), String>)
    ensures
        r matches Err(m) && m@ == "当前平台尚未实现打开路径"@,
{
    Err("当前平台尚未实现打开路径".to_owned())
}

/// The argument that makes Explorer open a folder with `path` selected.
pub fn select_argument(path: &str) -> (r: String)
    ensures
        r@ == "/select,"@ + path@,
{
    let mut v = chars_of("/select,");
    extend_chars(&mut v, &chars_of(path));
    string_of(&v)
}

/// The failure of Explorer showing a file in its folder.
pub fn reveal_failure() -> (r: String)
    ensures
        r@ == "无法在文件夹中显示该文件"@,
{
    "无法在文件夹中显示该文件".to_owned()
}

} // verus!
