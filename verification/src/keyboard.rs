//! Keys as the keyboard driver decodes them.

use vstd::prelude::*;

verus! {

/// A decoded key.
#[derive(Clone, Copy, Debug, PartialEq, Eq, Structural)]
pub enum Key {
    /// A key that stands for a character.
    Unicode(char),
    /// A key that stands for none: an arrow, a function key, a modifier.
    RawKey,
}

} // verus!
