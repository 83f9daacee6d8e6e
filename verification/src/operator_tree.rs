//! The operator trees that the compiler lowers, and what an operator computes
//! when it runs on its argument array.

use crate::parse::SingleOperators;
use vstd::prelude::*;

verus! {

/// Comparisons that a conditional statement can make.
#[derive(Clone, Copy, Debug, PartialEq, Eq, Structural)]
pub enum ConditionalOperators {
    Equals,
}

/// A place in the argument array.
pub enum Position {
    /// The element whose index is the element at the inner position.
    ContPos(Box<Position>),
    /// The element at a fixed index.
    EndPos(u64),
}

/// A value: a constant, or the element at a position.
pub enum Data {
    Val(u64),
    Pos(Position),
}

/// A statement that changes the destination element by a source value.
pub enum Statement {
    /// operator, destination, source
    SingleStatement(SingleOperators, Position, Data),
}

/// A test of the destination element against a source value: operator,
/// destination, source.
pub struct ConditionalStatement(pub ConditionalOperators, pub Position, pub Data);

/// An operator: statements run one after the other; the last one gives the result.
pub enum ParseTree {
    EndSingle(Statement),
    EndConditional(ConditionalStatement),
    /// The rest of the operator, and the statement that runs before it.
    Continuation(Box<ParseTree>, Statement),
}

/// The element of `args` at `index`, where there is one.
pub open spec fn element(args: Seq<u64>, index: u64) -> Option<u64> {
    if index < args.len() {
        Some(args[index as int])
    } else {
        None
    }
}

/// The result of a comparison: 1 where it holds, 0 where not.
pub open spec fn compare(operator: ConditionalOperators, destination: u64, source: u64) -> u64 {
    match operator {
        ConditionalOperators::Equals => if destination == source {
            1
        } else {
            0
        },
    }
}

/// The element that a position designates in `args`; `None` where an index
/// falls outside the array.
pub open spec fn position_value(position: Position, args: Seq<u64>) -> Option<u64>
    decreases position,
{
    match position {
        Position::EndPos(index) => element(args, index),
        Position::ContPos(inner) => match position_value(*inner, args) {
            Some(index) => element(args, index),
            None => None,
        },
    }
}

/// The value that a piece of data stands for.
pub open spec fn data_value(data: Data, args: Seq<u64>) -> Option<u64> {
    match data {
        Data::Val(value) => Some(value),
        Data::Pos(position) => position_value(position, args),
    }
}

/// A single statement has no defined result: the backend has no code for its
/// operators.
pub open spec fn statement_value(statement: Statement, args: Seq<u64>) -> Option<u64> {
    None
}

/// The result of a conditional statement: its comparison of the destination
/// element with the source value.
pub open spec fn conditional_value(statement: ConditionalStatement, args: Seq<u64>) -> Option<u64> {
    match (position_value(statement.1, args), data_value(statement.2, args)) {
        (Some(destination), Some(source)) => Some(compare(statement.0, destination, source)),
        _ => None,
    }
}

/// The result of an operator: that of its last statement, where every
/// statement of it has a defined result.
pub open spec fn tree_value(tree: ParseTree, args: Seq<u64>) -> Option<u64>
    decreases tree,
{
    match tree {
        ParseTree::EndSingle(statement) => statement_value(statement, args),
        ParseTree::EndConditional(statement) => conditional_value(statement, args),
        ParseTree::Continuation(rest, statement) => match (
            statement_value(statement, args),
            tree_value(*rest, args),
        ) {
            (Some(_), Some(value)) => Some(value),
            _ => None,
        },
    }
}

} // verus!
