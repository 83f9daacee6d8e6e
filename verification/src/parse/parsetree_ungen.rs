//! Statement shapes whose constants are still to be chosen (ungenerated trees).

use super::ReduceOperators;
use super::SingleOperators;
use super::VecOperators;
use vstd::prelude::*;

verus! {

/// The shape of a statement, before its constants are chosen.
pub enum StatementUngen {
    /// destination, source
    SingleStatement(SingleOperators, PositionUngen, DataUngen),
    /// destination start, source start, length of both
    VecStatement(VecOperators, PositionUngen, PositionUngen, PositionUngen),
    /// destination start, destination length, source
    MapStatement(SingleOperators, PositionUngen, PositionUngen, DataUngen),
    /// destination, source start, source length
    ReduceStatement(ReduceOperators, PositionUngen, DataUngen, DataUngen),
}

/// The shape of a value: a constant still to be chosen, or a position.
pub enum DataUngen {
    Val,
    Pos(PositionUngen),
}

/// The shape of a position.
pub enum PositionUngen {
    /// A fixed index still to be chosen.
    ConstPos,
    /// Which argument (first, second, ...).
    VarPos(u8),
}

} // verus!
