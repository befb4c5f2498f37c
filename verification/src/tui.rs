//! The rules of the terminal interface that do not draw anything.
use vstd::prelude::*;

verus! {

/// Whether a key press ends the session: Ctrl+C does, and nothing else.
/// `key` is the character of the key, if it is one, and `control` whether
/// Control was held.
pub fn ends_session(key: Option<char>, control: bool) -> (quit: bool)
    ensures
        quit == (key == Some('c') && control),
{
    match key {
        Some(c) => c == 'c' && control,
        None => false,
    }
}

} // verus!
