//! Parse trees whose positions and values are fixed (generated trees).

use super::MapOperators;
use super::ReduceOperators;
use super::SingleOperators;
use super::VecOperators;
use std::rc::Rc;
use vstd::prelude::*;

verus! {

/// A generated operator: a statement followed by zero, one or two subtrees.
pub enum ParseTree {
    ListStatement(Statement, ParseTreeWrapper),
    SplitStatement(Statement, ParseTreeWrapper, ParseTreeWrapper),
    SomeStatement(Statement),
}

/// A link to a subtree, which several trees may share.
pub enum ParseTreeWrapper {
    Strong(Rc<ParseTree>),
}

/// One step of an operator.
pub enum Statement {
    /// destination, source
    SingleStatement(SingleOperators, Position, Data),
    /// destination start, source start, length of both
    VecStatement(VecOperators, Position, Position, Position),
    /// destination start, destination length, source
    MapStatement(MapOperators, Position, Position, Data),
    /// destination, source start, source length
    ReduceStatement(ReduceOperators, Position, Data, Data),
}

/// A value: a constant, or the element at a position.
pub enum Data {
    Val(u64),
    Pos(Position),
}

/// A place in the operator's arguments.
pub enum Position {
    /// A fixed index.
    ConstPos(u64),
    /// Which argument (first, second, ...).
    VarPos(u8),
}

} // verus!
