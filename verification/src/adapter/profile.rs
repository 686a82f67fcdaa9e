//! Which directives are honoured.

use vstd::prelude::*;

verus! {

/// A set of directives.
#[derive(Debug, Clone, Copy, PartialEq, Eq, Structural)]
pub enum Profile {
    /// The directives that every site needs; what else the format defines is refused by name.
    Core,
    /// The core, and the options that refine it.
    Extended,
}

} // verus!
