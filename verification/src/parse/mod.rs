//! The operator grammar: operator kinds and the parse tree types built from them.

pub use self::parsetree_gen::Data;
pub use self::parsetree_gen::ParseTree;
pub use self::parsetree_gen::Position;
pub use self::parsetree_gen::Statement;
pub use self::parsetree_ungen::DataUngen;
pub use self::parsetree_ungen::PositionUngen;
pub use self::parsetree_ungen::StatementUngen;

use vstd::prelude::*;

pub mod parsetree_gen;
pub mod parsetree_ungen;

verus! {

/// Operators that combine one destination element with one source value.
#[derive(Clone, Copy, Debug, PartialEq, Eq, Structural)]
pub enum SingleOperators {
    Add,
}

/// Operators that combine two element ranges of equal length.
#[derive(Clone, Copy, Debug, PartialEq, Eq, Structural)]
pub enum VecOperators {
    Add,
}

/// Operators applied element by element to a destination range.
#[derive(Clone, Copy, Debug, PartialEq, Eq, Structural)]
pub enum MapOperators {
    Add,
}

/// Operators that fold a source range into one destination element.
#[derive(Clone, Copy, Debug, PartialEq, Eq, Structural)]
pub enum ReduceOperators {
    Add,
}

} // verus!
