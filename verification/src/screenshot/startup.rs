//! Starting the screenshot tool with the system: the command stored in the registry, the
//! argument that asks for a minimised start, and the UTF-16 text that Windows APIs take.
use vstd::prelude::*;
use crate::text::{chars_of, equals_text, extend_chars, string_of};

verus! {

/// The registry key under the current user that lists programs started at sign-in.
pub const RUN_KEY: &'static str = "Software\\Microsoft\\Windows\\CurrentVersion\\Run";

/// The registry value that holds the tool's start command.
pub const VALUE_NAME: &'static str = "GridStartCapture";

/// The argument that asks for a start without showing the main window.
pub const START_MINIMIZED_ARGUMENT: &'static str = "--minimized";

/// The start command: the executable's path in double quotes, followed by ` --minimized`
/// when a minimised start is wanted.
pub open spec fn startup_text(executable: Seq<char>, start_minimized: bool) -> Seq<char> {
    seq!['"'] + executable + seq!['"'] + if start_minimized {
        " --minimized"@
    } else {
        Seq::empty()
    }
}

/// The command stored in the registry to start the tool.
pub fn startup_command(executable: &str, start_minimized: bool) -> (r: String)
    ensures
        r@ == startup_text(executable@, start_minimized),
{
    let mut v: Vec<char> = Vec::new();
    v.push('"');
    extend_chars(&mut v, &chars_of(executable));
    v.push('"');
    if start_minimized {
        extend_chars(&mut v, &chars_of(" --minimized"));
    }
    assert(v@ =~= startup_text(executable@, start_minimized));
    string_of(&v)
}

/// Whether the arguments after the program's name ask for a minimised start.
pub fn start_minimized_requested(args: &Vec<String>) -> (r: bool)
    ensures
        r == exists|i: int| 0 <= i < args@.len() && #[trigger] args@[i]@ == START_MINIMIZED_ARGUMENT@,
{
    let mut i: usize = 0;
    while i < args.len()
        invariant
            i <= args@.len(),
            forall|k: int| 0 <= k < i ==> #[trigger] args@[k]@ != START_MINIMIZED_ARGUMENT@,
        decreases args.len() - i,
    {
        if equals_text(&chars_of(args[i].as_str()), START_MINIMIZED_ARGUMENT) {
            return true;
        }
        i = i + 1;
    }
    false
}

/// The UTF-16 code units of one character: itself below U+10000, else a surrogate pair.
pub open spec fn utf16_of(c: char) -> Seq<u16> {
    let v = c as u32;
    if v < 0x10000 {
        seq![v as u16]
    } else {
        seq![(0xD800 + (v - 0x10000) / 1024) as u16, (0xDC00 + (v - 0x10000) % 1024) as u16]
    }
}

/// The UTF-16 code units of a text.
pub open spec fn utf16(s: Seq<char>) -> Seq<u16>
    decreases s.len(),
{
    if s.len() == 0 {
        Seq::empty()
    } else {
        utf16(s.drop_last()) + utf16_of(s.last())
    }
}

/// A text as UTF-16 code units followed by a terminating zero, as Windows APIs take it.
pub fn wide(value: &str) -> (r: Vec<u16>)
    ensures
        r@ == utf16(value@).push(0u16),
{
    let chars = chars_of(value);
    let mut r: Vec<u16> = Vec::new();
    let mut i: usize = 0;
    assert(chars@.take(0) =~= Seq::<char>::empty());
    while i < chars.len()
        invariant
            i <= chars@.len(),
            chars@ == value@,
            r@ == utf16(chars@.take(i as int)),
        decreases chars.len() - i,
    {
        let v = chars[i] as u32;
        assert(chars@.take(i + 1).drop_last() =~= chars@.take(i as int));
        assert(chars@.take(i + 1).last() == chars@[i as int]);
        if v < 0x10000 {
            r.push(v as u16);
        } else {
            r.push((0xD800 + (v - 0x10000) / 1024) as u16);
            r.push((0xDC00 + (v - 0x10000) % 1024) as u16);
        }
        assert(r@ =~= utf16(chars@.take(i + 1)));
        i = i + 1;
    }
    assert(chars@.take(chars@.len() as int) =~= chars@);
    r.push(0);
    r
}

/// UTF-16 code units as little-endian bytes, as the registry stores a string value.
pub open spec fn le_units(units: Seq<u16>) -> Seq<u8> {
    Seq::new(
        units.len() * 2,
        |k: int|
            if k % 2 == 0 {
                (units[k / 2] % 256) as u8
            } else {
                (units[k / 2] / 256) as u8
            },
    )
}

/// The little-endian bytes of UTF-16 code units.
pub fn units_to_le_bytes(units: &[u16]) -> (r: Vec<u8>)
    ensures
        r@ == le_units(units@),
{
    let mut r: Vec<u8> = Vec::new();
    let mut i: usize = 0;
    while i < units.len()
        invariant
            i <= units@.len(),
            r@.len() == i * 2,
            forall|k: int| 0 <= k < i * 2 ==> #[trigger] r@[k] == (if k % 2 == 0 {
                (units@[k / 2] % 256) as u8
            } else {
                (units@[k / 2] / 256) as u8
            }),
        decreases units.len() - i,
    {
        let u = units[i];
        let ghost before = r@;
        r.push((u % 256) as u8);
        r.push((u / 256) as u8);
        assert forall|k: int| 0 <= k < (i + 1) * 2 implies #[trigger] r@[k] == (if k % 2 == 0 {
            (units@[k / 2] % 256) as u8
        } else {
            (units@[k / 2] / 256) as u8
        }) by {
            if k >= i * 2 {
                assert(k / 2 == i);
            } else {
                assert(r@[k] == before[k]);
            }
        }
        i = i + 1;
    }
    assert(r@ =~= le_units(units@));
    r
}

} // verus!
