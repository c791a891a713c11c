//! Errors raised while configuring a circuit or filling the witness grid.

use vstd::prelude::*;

verus! {

/// A synthesis- or evaluation-time failure.  All of these are fatal to the
/// synthesis that raised them: a circuit is either fully assigned or not
/// usable at all.
#[derive(Clone, Copy, PartialEq, Eq, Structural, Debug)]
pub enum Error {
    /// A cell was read before any value was assigned to it.
    UnassignedCell,
    /// A query or public-input index fell outside the grid or the
    /// provided instance values.
    OutOfBounds,
    /// An assignment targeted a row at or beyond the grid height.
    RowOutOfRange,
    /// An equality constraint was requested on a column that was not
    /// enabled for equality (or constants, for a fixed column).
    ColumnNotPermuted,
    /// A cell already holding a value was re-assigned a different one.
    Shadowing,
    /// A lookup argument referenced table columns whose rows were not
    /// fully loaded, or loaded to differing lengths.
    TableNotLoaded,
}

} // verus!
