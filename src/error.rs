//! The errors of the engine's own decisions.
use vstd::prelude::*;

verus! {

/// Why a unit, a page or a feed entry cannot be handled.
#[derive(Debug)]
pub enum EngineError {
    /// The directory name taken from a unit's address is not a safe path
    /// component.
    BadPath(String),
    /// A link of a unit's table of contents has no address.
    MissingHref,
    /// A feed entry, named by its title, has no link typed as HTML.
    MissingPageLink(String),
    /// No commit message of the archive's history records the ledger.
    UnknownLedger,
}

} // verus!
