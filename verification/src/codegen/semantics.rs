//! What a lowered program computes, and the proofs that lowering keeps the
//! meaning of the operator tree.

use super::lower_conditional;
use super::lower_data;
use super::lower_position;
use super::lower_statement;
use super::lower_tree;
use super::Instr;
use crate::operator_tree::compare;
use crate::operator_tree::conditional_value;
use crate::operator_tree::data_value;
use crate::operator_tree::element;
use crate::operator_tree::position_value;
use crate::operator_tree::statement_value;
use crate::operator_tree::tree_value;
use crate::operator_tree::ConditionalStatement;
use crate::operator_tree::Data;
use crate::operator_tree::ParseTree;
use crate::operator_tree::Position;
use crate::operator_tree::Statement;
use vstd::prelude::*;

verus! {

/// The result of the call at `index`, among the results computed so far.
pub open spec fn operand(values: Seq<Option<u64>>, index: usize) -> Option<u64> {
    if index < values.len() {
        values[index as int]
    } else {
        None
    }
}

/// The result of one call, given the results of the calls before it.
pub open spec fn call_value(call: Instr, values: Seq<Option<u64>>, args: Seq<u64>) -> Option<u64> {
    match call {
        Instr::Constant(value) => Some(value),
        Instr::EndPos(index) => element(args, index),
        Instr::ContPos(at) => match operand(values, at) {
            Some(index) => element(args, index),
            None => None,
        },
        Instr::Single(_, _, _) => None,
        Instr::Conditional(operator, destination, source) => match (
            operand(values, destination),
            operand(values, source),
        ) {
            (Some(d), Some(s)) => Some(compare(operator, d, s)),
            _ => None,
        },
    }
}

/// The results of all calls of a program, in order, on the argument array `args`.
pub open spec fn run(program: Seq<Instr>, args: Seq<u64>) -> Seq<Option<u64>>
    decreases program.len(),
{
    if program.len() == 0 {
        Seq::empty()
    } else {
        let before = run(program.drop_last(), args);
        before.push(call_value(program.last(), before, args))
    }
}

/// Every call has a defined result.
pub open spec fn all_defined(values: Seq<Option<u64>>) -> bool {
    forall|i: int| 0 <= i < values.len() ==> (#[trigger] values[i]) is Some
}

/// The result of a program: that of its last call, where every call has a
/// defined result.
pub open spec fn program_value(program: Seq<Instr>, args: Seq<u64>) -> Option<u64> {
    let values = run(program, args);
    if program.len() > 0 && all_defined(values) {
        values.last()
    } else {
        None
    }
}

/// The operands of the call at `index` name earlier calls.
pub open spec fn refers_back(call: Instr, index: int) -> bool {
    match call {
        Instr::Constant(_) => true,
        Instr::EndPos(_) => true,
        Instr::ContPos(at) => at < index,
        Instr::Single(_, destination, source) => destination < index && source < index,
        Instr::Conditional(_, destination, source) => destination < index && source < index,
    }
}

/// Every operand of every call names an earlier call.
pub open spec fn well_formed(program: Seq<Instr>) -> bool {
    forall|i: int| 0 <= i < program.len() ==> refers_back(#[trigger] program[i], i)
}

/// The number of calls that a position lowers to.
pub open spec fn position_size(position: Position) -> nat
    decreases position,
{
    match position {
        Position::EndPos(_) => 1,
        Position::ContPos(inner) => position_size(*inner) + 1,
    }
}

/// The number of calls that a piece of data lowers to.
pub open spec fn data_size(data: Data) -> nat {
    match data {
        Data::Val(_) => 1,
        Data::Pos(position) => position_size(position),
    }
}

/// The number of calls that a single statement lowers to.
pub open spec fn statement_size(statement: Statement) -> nat {
    match statement {
        Statement::SingleStatement(_, position, data) => position_size(position) + data_size(data)
            + 1,
    }
}

/// The number of calls that a conditional statement lowers to.
pub open spec fn conditional_size(statement: ConditionalStatement) -> nat {
    position_size(statement.1) + data_size(statement.2) + 1
}

/// The number of calls that an operator tree lowers to.
pub open spec fn tree_size(tree: ParseTree) -> nat
    decreases tree,
{
    match tree {
        ParseTree::EndSingle(statement) => statement_size(statement),
        ParseTree::EndConditional(statement) => conditional_size(statement),
        ParseTree::Continuation(rest, statement) => statement_size(statement) + tree_size(*rest),
    }
}

proof fn lemma_position_len(position: Position, base: nat)
    ensures
        lower_position(position, base).len() == position_size(position),
    decreases position,
{
    if let Position::ContPos(inner) = position {
        lemma_position_len(*inner, base);
    }
}

proof fn lemma_data_len(data: Data, base: nat)
    ensures
        lower_data(data, base).len() == data_size(data),
{
    if let Data::Pos(position) = data {
        lemma_position_len(position, base);
    }
}

/// However it is placed, an operator tree lowers to `tree_size` calls.
pub proof fn lemma_tree_len(tree: ParseTree, base: nat)
    ensures
        lower_tree(tree, base).len() == tree_size(tree),
    decreases tree,
{
    match tree {
        ParseTree::EndSingle(Statement::SingleStatement(_, position, data)) => {
            lemma_position_len(position, base);
            lemma_data_len(data, base + position_size(position));
        },
        ParseTree::EndConditional(ConditionalStatement(_, position, data)) => {
            lemma_position_len(position, base);
            lemma_data_len(data, base + position_size(position));
        },
        ParseTree::Continuation(rest, Statement::SingleStatement(_, position, data)) => {
            lemma_position_len(position, base);
            lemma_data_len(data, base + position_size(position));
            lemma_tree_len(*rest, base + position_size(position) + data_size(data) + 1);
        },
    }
}

proof fn lemma_run_len(program: Seq<Instr>, args: Seq<u64>)
    ensures
        run(program, args).len() == program.len(),
    decreases program.len(),
{
    if program.len() > 0 {
        lemma_run_len(program.drop_last(), args);
    }
}

proof fn lemma_run_push(program: Seq<Instr>, call: Instr, args: Seq<u64>)
    ensures
        run(program.push(call), args) == run(program, args).push(
            call_value(call, run(program, args), args),
        ),
{
    assert(program.push(call).drop_last() =~= program);
}

/// Calls appended to a program do not change the results of the calls before them.
proof fn lemma_run_prefix(front: Seq<Instr>, back: Seq<Instr>, args: Seq<u64>)
    ensures
        run(front + back, args).subrange(0, front.len() as int) == run(front, args),
    decreases back.len(),
{
    lemma_run_len(front, args);
    lemma_run_len(front + back, args);
    if back.len() == 0 {
        assert(front + back =~= front);
        assert(run(front, args).subrange(0, front.len() as int) =~= run(front, args));
    } else {
        let shorter = back.drop_last();
        lemma_run_prefix(front, shorter, args);
        assert(front + back =~= (front + shorter).push(back.last()));
        lemma_run_push(front + shorter, back.last(), args);
        lemma_run_len(front + shorter, args);
        assert(run(front + back, args).subrange(0, front.len() as int) =~= run(
            front + shorter,
            args,
        ).subrange(0, front.len() as int));
    }
}

proof fn lemma_all_defined_push(values: Seq<Option<u64>>, value: Option<u64>)
    ensures
        all_defined(values.push(value)) <==> all_defined(values) && value is Some,
{
    if all_defined(values.push(value)) {
        assert forall|i: int| 0 <= i < values.len() implies (#[trigger] values[i]) is Some by {
            assert(values.push(value)[i] == values[i]);
        }
        assert(values.push(value)[values.len() as int] == value);
    }
}

/// What a position lowers to: its size, the value of its last call, and when
/// all of its calls are defined.
proof fn lemma_lower_position(position: Position, front: Seq<Instr>, args: Seq<u64>)
    requires
        front.len() + position_size(position) <= usize::MAX,
    ensures
        ({
            let calls = lower_position(position, front.len());
            let values = run(front + calls, args);
            &&& calls.len() == position_size(position)
            &&& values.len() == front.len() + calls.len()
            &&& values.last() == position_value(position, args)
            &&& (all_defined(values) <==> all_defined(run(front, args)) && position_value(
                position,
                args,
            ) is Some)
            &&& (well_formed(front) ==> well_formed(front + calls))
        }),
    decreases position,
{
    let calls = lower_position(position, front.len());
    lemma_run_len(front + calls, args);
    lemma_run_len(front, args);
    match position {
        Position::EndPos(index) => {
            assert(front + calls =~= front.push(Instr::EndPos(index)));
            lemma_run_push(front, Instr::EndPos(index), args);
            lemma_all_defined_push(run(front, args), element(args, index));
            if well_formed(front) {
                assert forall|i: int| 0 <= i < (front + calls).len() implies refers_back(
                    #[trigger] (front + calls)[i],
                    i,
                ) by {
                    if i < front.len() {
                        assert((front + calls)[i] == front[i]);
                    }
                }
            }
        },
        Position::ContPos(inner) => {
            let inner_calls = lower_position(*inner, front.len());
            lemma_lower_position(*inner, front, args);
            let at = (front.len() + inner_calls.len() - 1) as usize;
            let call = Instr::ContPos(at);
            assert(front + calls =~= (front + inner_calls).push(call));
            lemma_run_push(front + inner_calls, call, args);
            lemma_run_len(front + inner_calls, args);
            let before = run(front + inner_calls, args);
            assert(operand(before, at) == position_value(*inner, args));
            lemma_all_defined_push(before, call_value(call, before, args));
            if well_formed(front) {
                assert forall|i: int| 0 <= i < (front + calls).len() implies refers_back(
                    #[trigger] (front + calls)[i],
                    i,
                ) by {
                    if i < (front + inner_calls).len() {
                        assert((front + calls)[i] == (front + inner_calls)[i]);
                    }
                }
            }
        },
    }
}

proof fn lemma_lower_data(data: Data, front: Seq<Instr>, args: Seq<u64>)
    requires
        front.len() + data_size(data) <= usize::MAX,
    ensures
        ({
            let calls = lower_data(data, front.len());
            let values = run(front + calls, args);
            &&& calls.len() == data_size(data)
            &&& values.len() == front.len() + calls.len()
            &&& values.last() == data_value(data, args)
            &&& (all_defined(values) <==> all_defined(run(front, args)) && data_value(
                data,
                args,
            ) is Some)
            &&& (well_formed(front) ==> well_formed(front + calls))
        }),
{
    match data {
        Data::Val(value) => {
            let calls = lower_data(data, front.len());
            assert(front + calls =~= front.push(Instr::Constant(value)));
            lemma_run_push(front, Instr::Constant(value), args);
            lemma_run_len(front, args);
            lemma_all_defined_push(run(front, args), Some(value));
            if well_formed(front) {
                assert forall|i: int| 0 <= i < (front + calls).len() implies refers_back(
                    #[trigger] (front + calls)[i],
                    i,
                ) by {
                    if i < front.len() {
                        assert((front + calls)[i] == front[i]);
                    }
                }
            }
        },
        Data::Pos(position) => {
            lemma_lower_position(position, front, args);
        },
    }
}

/// The destination and source of a statement, lowered one after the other:
/// the results of both and when they are defined.
proof fn lemma_lower_operands(
    position: Position,
    data: Data,
    front: Seq<Instr>,
    args: Seq<u64>,
)
    requires
        front.len() + position_size(position) + data_size(data) + 1 <= usize::MAX,
    ensures
        ({
            let destination = lower_position(position, front.len());
            let source = lower_data(data, front.len() + destination.len());
            let values = run(front + destination + source, args);
            &&& destination.len() == position_size(position)
            &&& source.len() == data_size(data)
            &&& values.len() == front.len() + destination.len() + source.len()
            &&& values[front.len() + destination.len() - 1] == position_value(position, args)
            &&& values[front.len() + destination.len() + source.len() - 1] == data_value(data, args)
            &&& (all_defined(values) <==> all_defined(run(front, args)) && position_value(
                position,
                args,
            ) is Some && data_value(data, args) is Some)
            &&& (well_formed(front) ==> well_formed(front + destination + source))
        }),
{
    let destination = lower_position(position, front.len());
    lemma_lower_position(position, front, args);
    let middle = front + destination;
    let source = lower_data(data, middle.len());
    lemma_lower_data(data, middle, args);
    lemma_run_prefix(middle, source, args);
    lemma_run_len(middle, args);
    let values = run(middle + source, args);
    let k = front.len() + destination.len() - 1;
    assert(values.subrange(0, middle.len() as int)[k] == values[k]);
}

proof fn lemma_lower_statement(statement: Statement, front: Seq<Instr>, args: Seq<u64>)
    requires
        front.len() + statement_size(statement) <= usize::MAX,
    ensures
        ({
            let calls = lower_statement(statement, front.len());
            let values = run(front + calls, args);
            &&& calls.len() == statement_size(statement)
            &&& values.len() == front.len() + calls.len()
            &&& values.last() == statement_value(statement, args)
            &&& (all_defined(values) <==> all_defined(run(front, args)) && statement_value(
                statement,
                args,
            ) is Some)
            &&& (well_formed(front) ==> well_formed(front + calls))
        }),
{
    match statement {
        Statement::SingleStatement(operator, position, data) => {
            lemma_lower_operands(position, data, front, args);
            let destination = lower_position(position, front.len());
            let source = lower_data(data, front.len() + destination.len());
            let operands = front + destination + source;
            let call = Instr::Single(
                operator,
                (front.len() + destination.len() - 1) as usize,
                (front.len() + destination.len() + source.len() - 1) as usize,
            );
            let calls = lower_statement(statement, front.len());
            assert(front + calls =~= operands.push(call));
            lemma_run_push(operands, call, args);
            lemma_run_len(operands, args);
            lemma_all_defined_push(run(operands, args), None);
            if well_formed(front) {
                assert forall|i: int| 0 <= i < (front + calls).len() implies refers_back(
                    #[trigger] (front + calls)[i],
                    i,
                ) by {
                    if i < operands.len() {
                        assert((front + calls)[i] == operands[i]);
                    }
                }
            }
        },
    }
}

proof fn lemma_lower_conditional(statement: ConditionalStatement, front: Seq<Instr>, args: Seq<u64>)
    requires
        front.len() + conditional_size(statement) <= usize::MAX,
    ensures
        ({
            let calls = lower_conditional(statement, front.len());
            let values = run(front + calls, args);
            &&& calls.len() == conditional_size(statement)
            &&& values.len() == front.len() + calls.len()
            &&& values.last() == conditional_value(statement, args)
            &&& (all_defined(values) <==> all_defined(run(front, args)) && conditional_value(
                statement,
                args,
            ) is Some)
            &&& (well_formed(front) ==> well_formed(front + calls))
        }),
{
    let ConditionalStatement(operator, position, data) = statement;
    lemma_lower_operands(position, data, front, args);
    let destination = lower_position(position, front.len());
    let source = lower_data(data, front.len() + destination.len());
    let operands = front + destination + source;
    let call = Instr::Conditional(
        operator,
        (front.len() + destination.len() - 1) as usize,
        (front.len() + destination.len() + source.len() - 1) as usize,
    );
    let calls = lower_conditional(statement, front.len());
    assert(front + calls =~= operands.push(call));
    lemma_run_push(operands, call, args);
    lemma_run_len(operands, args);
    let before = run(operands, args);
    assert(call_value(call, before, args) == conditional_value(statement, args));
    lemma_all_defined_push(before, conditional_value(statement, args));
    if well_formed(front) {
        assert forall|i: int| 0 <= i < (front + calls).len() implies refers_back(
            #[trigger] (front + calls)[i],
            i,
        ) by {
            if i < operands.len() {
                assert((front + calls)[i] == operands[i]);
            }
        }
    }
}

proof fn lemma_lower_tree(tree: ParseTree, front: Seq<Instr>, args: Seq<u64>)
    requires
        front.len() + tree_size(tree) <= usize::MAX,
    ensures
        ({
            let calls = lower_tree(tree, front.len());
            let values = run(front + calls, args);
            &&& calls.len() == tree_size(tree)
            &&& values.len() == front.len() + calls.len()
            &&& (all_defined(values) <==> all_defined(run(front, args)) && tree_value(
                tree,
                args,
            ) is Some)
            &&& (all_defined(values) ==> values.last() == tree_value(tree, args))
            &&& (well_formed(front) ==> well_formed(front + calls))
        }),
    decreases tree,
{
    match tree {
        ParseTree::EndSingle(statement) => {
            lemma_lower_statement(statement, front, args);
        },
        ParseTree::EndConditional(statement) => {
            lemma_lower_conditional(statement, front, args);
        },
        ParseTree::Continuation(rest, statement) => {
            let first = lower_statement(statement, front.len());
            lemma_lower_statement(statement, front, args);
            let middle = front + first;
            lemma_lower_tree(*rest, middle, args);
            let calls = lower_tree(tree, front.len());
            assert(front + calls =~= middle + lower_tree(*rest, middle.len()));
        },
    }
}

/// Lowering keeps the meaning of an operator: on every argument array, the
/// lowered program gives the operator's result, and has no result exactly
/// where the operator has none.
pub proof fn lemma_lowering_preserves_value(tree: ParseTree, args: Seq<u64>)
    requires
        tree_size(tree) <= usize::MAX,
    ensures
        program_value(lower_tree(tree, 0), args) == tree_value(tree, args),
{
    let front = Seq::<Instr>::empty();
    lemma_lower_tree(tree, front, args);
    assert(front + lower_tree(tree, 0) =~= lower_tree(tree, 0));
    assert(all_defined(run(front, args)));
}

/// A lowered operator is a straight-line program of `tree_size` calls in which
/// every operand names an earlier call.
pub proof fn lemma_lowering_well_formed(tree: ParseTree)
    requires
        tree_size(tree) <= usize::MAX,
    ensures
        lower_tree(tree, 0).len() == tree_size(tree),
        well_formed(lower_tree(tree, 0)),
{
    let front = Seq::<Instr>::empty();
    lemma_lower_tree(tree, front, Seq::empty());
    assert(front + lower_tree(tree, 0) =~= lower_tree(tree, 0));
}

/// The statements of an operator that run before its last one, in the order
/// in which they run.
pub open spec fn leading_statements(tree: ParseTree) -> Seq<Statement>
    decreases tree,
{
    match tree {
        ParseTree::Continuation(rest, statement) => seq![statement] + leading_statements(*rest),
        _ => Seq::empty(),
    }
}

/// The last statement of an operator, the one that gives its result.
pub open spec fn last_statement(tree: ParseTree) -> ParseTree
    decreases tree,
{
    match tree {
        ParseTree::Continuation(rest, _) => last_statement(*rest),
        _ => tree,
    }
}

/// The number of calls that the first `count` statements lower to.
pub open spec fn calls_before(statements: Seq<Statement>, count: int) -> nat
    decreases count,
{
    if count <= 0 {
        0
    } else {
        calls_before(statements, count - 1) + statement_size(statements[count - 1])
    }
}

/// The call at index `at` is the single statement `statement`, its operands
/// name calls at `low` or later and before it, and their results are the
/// statement's destination element and source value.
pub open spec fn is_statement_call(
    program: Seq<Instr>,
    values: Seq<Option<u64>>,
    at: int,
    low: int,
    statement: Statement,
    args: Seq<u64>,
) -> bool {
    match statement {
        Statement::SingleStatement(operator, position, data) => match program[at] {
            Instr::Single(o, destination, source) => {
                &&& o == operator
                &&& low <= destination < at
                &&& low <= source < at
                &&& destination < source
                &&& operand(values, destination) == position_value(position, args)
                &&& operand(values, source) == data_value(data, args)
            },
            _ => false,
        },
    }
}

/// The call at index `at` is the last statement `last`, whose operands are
/// the destination element and the source value of that statement.
pub open spec fn is_result_call(
    program: Seq<Instr>,
    values: Seq<Option<u64>>,
    at: int,
    last: ParseTree,
    args: Seq<u64>,
) -> bool {
    match last {
        ParseTree::EndSingle(statement) => is_statement_call(program, values, at, 0, statement, args),
        ParseTree::EndConditional(ConditionalStatement(operator, position, data)) => match program[at] {
            Instr::Conditional(o, destination, source) => {
                &&& o == operator
                &&& destination < source < at
                &&& operand(values, destination) == position_value(position, args)
                &&& operand(values, source) == data_value(data, args)
            },
            _ => false,
        },
        _ => false,
    }
}

proof fn lemma_calls_before_cons(first: Statement, rest: Seq<Statement>, count: int)
    requires
        0 <= count <= rest.len(),
    ensures
        calls_before(seq![first] + rest, count + 1) == statement_size(first) + calls_before(
            rest,
            count,
        ),
    decreases count,
{
    let all = seq![first] + rest;
    if count == 0 {
        assert(calls_before(all, 0) == 0);
    } else {
        lemma_calls_before_cons(first, rest, count - 1);
        assert(all[count] == rest[count - 1]);
    }
}

/// The call of a single statement lowered after `front`: where it stands and
/// what its operands give.
proof fn lemma_statement_call(statement: Statement, front: Seq<Instr>, args: Seq<u64>)
    requires
        front.len() + statement_size(statement) <= usize::MAX,
    ensures
        ({
            let calls = lower_statement(statement, front.len());
            let program = front + calls;
            is_statement_call(
                program,
                run(program, args),
                program.len() - 1,
                front.len() as int,
                statement,
                args,
            )
        }),
{
    match statement {
        Statement::SingleStatement(operator, position, data) => {
            lemma_lower_operands(position, data, front, args);
            let destination = lower_position(position, front.len());
            let source = lower_data(data, front.len() + destination.len());
            let operands = front + destination + source;
            let call = Instr::Single(
                operator,
                (front.len() + destination.len() - 1) as usize,
                (front.len() + destination.len() + source.len() - 1) as usize,
            );
            let calls = lower_statement(statement, front.len());
            assert(front + calls =~= operands.push(call));
            lemma_run_push(operands, call, args);
            lemma_run_len(operands, args);
            lemma_lower_statement(statement, front, args);
            let values = run(operands, args);
            let all = run(front + calls, args);
            assert(all[front.len() + destination.len() - 1] == values[front.len()
                + destination.len() - 1]);
            assert(all[front.len() + destination.len() + source.len() - 1] == values[front.len()
                + destination.len() + source.len() - 1]);
        },
    }
}

/// What lowering an operator after `front` gives: the call of each of its
/// leading statements at the end of that statement's block of calls, blocks in
/// statement order, and the call of its last statement at the very end.
pub open spec fn tree_calls_hold(tree: ParseTree, front: Seq<Instr>, args: Seq<u64>) -> bool {
    let program = front + lower_tree(tree, front.len());
    let values = run(program, args);
    let statements = leading_statements(tree);
    &&& program.len() == front.len() + tree_size(tree)
    &&& forall|i: int|
        0 <= i < statements.len() ==> is_statement_call(
            program,
            values,
            front.len() + calls_before(statements, i + 1) - 1,
            (front.len() + calls_before(statements, i)) as int,
            #[trigger] statements[i],
            args,
        )
    &&& is_result_call(program, values, program.len() - 1, last_statement(tree), args)
}

proof fn lemma_end_single_calls(statement: Statement, front: Seq<Instr>, args: Seq<u64>)
    requires
        front.len() + statement_size(statement) <= usize::MAX,
    ensures
        tree_calls_hold(ParseTree::EndSingle(statement), front, args),
{
    let tree = ParseTree::EndSingle(statement);
    lemma_tree_len(tree, front.len());
    lemma_statement_call(statement, front, args);
}

proof fn lemma_end_conditional_calls(
    statement: ConditionalStatement,
    front: Seq<Instr>,
    args: Seq<u64>,
)
    requires
        front.len() + conditional_size(statement) <= usize::MAX,
    ensures
        tree_calls_hold(ParseTree::EndConditional(statement), front, args),
{
    let tree = ParseTree::EndConditional(statement);
    lemma_tree_len(tree, front.len());
    let ConditionalStatement(operator, position, data) = statement;
    lemma_lower_operands(position, data, front, args);
    let destination = lower_position(position, front.len());
    let source = lower_data(data, front.len() + destination.len());
    let operands = front + destination + source;
    let call = Instr::Conditional(
        operator,
        (front.len() + destination.len() - 1) as usize,
        (front.len() + destination.len() + source.len() - 1) as usize,
    );
    let calls = lower_conditional(statement, front.len());
    assert(front + calls =~= operands.push(call));
    lemma_run_push(operands, call, args);
    lemma_run_len(operands, args);
    let values = run(operands, args);
    let all = run(front + calls, args);
    assert(all[front.len() + destination.len() - 1] == values[front.len() + destination.len()
        - 1]);
    assert(all[front.len() + destination.len() + source.len() - 1] == values[front.len()
        + destination.len() + source.len() - 1]);
}

proof fn lemma_continuation_calls(
    rest: ParseTree,
    statement: Statement,
    front: Seq<Instr>,
    args: Seq<u64>,
)
    requires
        front.len() + statement_size(statement) + tree_size(rest) <= usize::MAX,
        tree_calls_hold(rest, front + lower_statement(statement, front.len()), args),
    ensures
        tree_calls_hold(ParseTree::Continuation(Box::new(rest), statement), front, args),
{
    let tree = ParseTree::Continuation(Box::new(rest), statement);
    lemma_tree_len(tree, front.len());
    let first = lower_statement(statement, front.len());
    let middle = front + first;
    lemma_lower_statement(statement, front, args);
    lemma_statement_call(statement, front, args);
    let program = front + lower_tree(tree, front.len());
    assert(program =~= middle + lower_tree(rest, middle.len()));
    let values = run(program, args);
    lemma_run_len(program, args);
    lemma_run_prefix(middle, lower_tree(rest, middle.len()), args);
    lemma_run_len(middle, args);
    let head = run(middle, args);
    let statements = leading_statements(tree);
    let later = leading_statements(rest);
    assert(statements == seq![statement] + later);
    assert forall|i: int| 0 <= i < statements.len() implies is_statement_call(
        program,
        values,
        front.len() + calls_before(statements, i + 1) - 1,
        (front.len() + calls_before(statements, i)) as int,
        #[trigger] statements[i],
        args,
    ) by {
        if i == 0 {
            assert(calls_before(statements, 0) == 0);
            assert(statements[0] == statement);
            assert(calls_before(statements, 1) == statement_size(statement));
            let at = middle.len() - 1;
            assert(program[at] == middle[at]);
            if let Statement::SingleStatement(_, _, _) = statement {
                match middle[at] {
                    Instr::Single(_, d, s) => {
                        assert(values.subrange(0, middle.len() as int)[d as int]
                            == values[d as int]);
                        assert(values.subrange(0, middle.len() as int)[s as int]
                            == values[s as int]);
                        assert(values[d as int] == head[d as int]);
                        assert(values[s as int] == head[s as int]);
                    },
                    _ => {},
                }
            }
        } else {
            lemma_calls_before_cons(statement, later, i - 1);
            lemma_calls_before_cons(statement, later, i);
            assert(statements[i] == later[i - 1]);
        }
    }
}

/// The calls of the statements of an operator lowered after `front`.
proof fn lemma_tree_calls(tree: ParseTree, front: Seq<Instr>, args: Seq<u64>)
    requires
        front.len() + tree_size(tree) <= usize::MAX,
    ensures
        tree_calls_hold(tree, front, args),
    decreases tree,
{
    match tree {
        ParseTree::EndSingle(statement) => lemma_end_single_calls(statement, front, args),
        ParseTree::EndConditional(statement) => lemma_end_conditional_calls(statement, front, args),
        ParseTree::Continuation(rest, statement) => {
            lemma_tree_len(ParseTree::EndSingle(statement), front.len());
            lemma_tree_calls(*rest, front + lower_statement(statement, front.len()), args);
            lemma_continuation_calls(*rest, statement, front, args);
            assert(tree == ParseTree::Continuation(Box::new(*rest), statement));
        },
    }
}

/// The statements of a lowered operator run in order: the call of the `i`-th
/// statement before the last is the last call of the `i`-th block of calls,
/// blocks taken in statement order, and its operands give that statement's
/// destination element and source value. The program's last call is the last
/// statement's, with that statement's destination element and source value
/// as operands.
pub proof fn lemma_statements_in_order(tree: ParseTree, args: Seq<u64>)
    requires
        tree_size(tree) <= usize::MAX,
    ensures
        ({
            let program = lower_tree(tree, 0);
            let values = run(program, args);
            let statements = leading_statements(tree);
            &&& forall|i: int|
                0 <= i < statements.len() ==> is_statement_call(
                    program,
                    values,
                    calls_before(statements, i + 1) - 1,
                    calls_before(statements, i) as int,
                    #[trigger] statements[i],
                    args,
                )
            &&& is_result_call(program, values, program.len() - 1, last_statement(tree), args)
        }),
{
    let front = Seq::<Instr>::empty();
    lemma_tree_calls(tree, front, args);
    assert(front + lower_tree(tree, 0) =~= lower_tree(tree, 0));
    let statements = leading_statements(tree);
    assert forall|i: int| 0 <= i < statements.len() implies (front.len() + calls_before(
        statements,
        i,
    )) as int == calls_before(statements, i) as int by {}
}

} // verus!
