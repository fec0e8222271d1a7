//! The ways an operation can fail.

use crate::config::Setting;
use crate::plan::Purpose;
use vstd::prelude::*;

verus! {

/// Why an operation ended early.
#[derive(Clone, Copy, Debug, PartialEq, Eq, Structural)]
pub enum Error {
    /// A required setting is unset.
    ConfigurationMissing(Setting),
    /// An external command failed in a stage that does not tolerate failure.
    CommandFailed(Purpose),
    /// What was looked for is not there: the account tool's output names no
    /// address, or the list of data directories has no entry at the position
    /// asked for.
    NotFound,
}

} // verus!
