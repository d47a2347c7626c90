//! The file-open mode letters and what they request.
//!
//! Opening the file is I/O and stays outside this crate; what is decided
//! here, and therefore verified, is which options a mode string turns on.

use vstd::prelude::*;

use crate::str_utils::str_contains_char;

verus! {

/// The open options a mode string requests: `r` to read, `w` to write, `c`
/// to create, `a` to append. Letters combine freely; any other character is
/// ignored.
#[derive(Clone, Copy, Debug, PartialEq, Eq, Structural)]
pub struct OpenFlags {
    pub read: bool,
    pub write: bool,
    pub create: bool,
    pub append: bool,
}

/// Decodes a mode string: each option is on exactly when its letter occurs.
pub fn open_flags(flag: &str) -> (r: OpenFlags)
    ensures
        r.read == flag@.contains('r'),
        r.write == flag@.contains('w'),
        r.create == flag@.contains('c'),
        r.append == flag@.contains('a'),
{
    OpenFlags {
        read: str_contains_char(flag, 'r'),
        write: str_contains_char(flag, 'w'),
        create: str_contains_char(flag, 'c'),
        append: str_contains_char(flag, 'a'),
    }
}

} // verus!
