//! Why a run is given up.

use vstd::prelude::*;

verus! {

/// Why a run was given up.
#[derive(Clone, Copy, PartialEq, Eq, Structural, Debug)]
pub enum Failure {
    /// A directory could not be probed, removed, created or listed, a
    /// file could not be copied, or an entry of an attempt directory has
    /// no extension.
    Filesystem,
    /// The analysis tool could not be started, or waiting for it failed.
    Tool,
}

} // verus!
