//! Starting with Windows: the value under the current user's Run key.

use vstd::prelude::*;
use crate::updater::utf16_of;
use crate::updater::wide;

verus! {

/// The longest program path, in UTF-16 units, that the Run value is built from.
pub const MAX_PATH_UNITS: usize = 0x1000_0000;

/// A change to the `Wraith` value under the Run key.
pub enum RunKeyEdit {
    /// Write `value` (a NUL-terminated `REG_SZ` of `byte_len` bytes).
    Write { value: Vec<u16>, byte_len: u32 },
    /// Delete the value.
    Delete,
}

/// The Run value for the program at `exe_path`: the path in double quotes
/// (so that spaces in it survive), NUL-terminated.
pub open spec fn run_value(exe_path: Seq<u16>) -> Seq<u16> {
    seq![0x22u16] + exe_path + seq![0x22u16, 0u16]
}

/// `edit` writes the Run value for the program at `exe_path`, with its size
/// in bytes.
pub open spec fn sets_run_value(edit: RunKeyEdit, exe_path: Seq<u16>) -> bool {
    match edit {
        RunKeyEdit::Write { value, byte_len } => value@ == run_value(exe_path) && byte_len == 2
            * value@.len(),
        RunKeyEdit::Delete => false,
    }
}

/// The registry path of the Run key, under `HKEY_CURRENT_USER`.
pub open spec fn run_key_text() -> Seq<char> {
    "Software\\Microsoft\\Windows\\CurrentVersion\\Run"@
}

/// The name of the value under the Run key.
pub open spec fn value_name_text() -> Seq<char> {
    "Wraith"@
}

/// The Run key's path as a NUL-terminated wide string.
pub fn run_key() -> (r: Vec<u16>)
    ensures
        r@ == utf16_of(run_key_text()) + seq![0u16],
{
    wide("Software\\Microsoft\\Windows\\CurrentVersion\\Run")
}

/// The value's name as a NUL-terminated wide string.
pub fn value_name() -> (r: Vec<u16>)
    ensures
        r@ == utf16_of(value_name_text()) + seq![0u16],
{
    wide("Wraith")
}

/// The Run value for the program at `exe_path`.
pub fn quoted_command(exe_path: &[u16]) -> (r: Vec<u16>)
    ensures
        r@ == run_value(exe_path@),
{
    let mut quoted: Vec<u16> = Vec::new();
    quoted.push(0x22u16);
    let mut i: usize = 0;
    while i < exe_path.len()
        invariant
            i <= exe_path@.len(),
            quoted@ == seq![0x22u16] + exe_path@.take(i as int),
        decreases exe_path@.len() - i,
    {
        quoted.push(exe_path[i]);
        assert(exe_path@.take(i + 1) == exe_path@.take(i as int).push(exe_path@[i as int]));
        i = i + 1;
    }
    assert(exe_path@.take(exe_path@.len() as int) == exe_path@);
    quoted.push(0x22u16);
    quoted.push(0u16);
    assert(quoted@ =~= run_value(exe_path@));
    quoted
}

/// Starting with Windows turned on: the quoted program path is written.
pub fn enable(exe_path: &[u16]) -> (r: RunKeyEdit)
    requires
        exe_path@.len() <= MAX_PATH_UNITS,
    ensures
        sets_run_value(r, exe_path@),
{
    let value = quoted_command(exe_path);
    let byte_len: u32 = (value.len() * 2) as u32;
    RunKeyEdit::Write { value, byte_len }
}

/// Starting with Windows turned off: the value is deleted.
pub fn disable() -> (r: RunKeyEdit)
    ensures
        r == RunKeyEdit::Delete,
{
    RunKeyEdit::Delete
}

/// Starting with Windows is on: the Run key opened (status 0) and the value
/// was found in it (status 0).
pub fn is_enabled(open_status: u32, query_status: u32) -> (r: bool)
    ensures
        r == (open_status == 0 && query_status == 0),
{
    open_status == 0 && query_status == 0
}

} // verus!
