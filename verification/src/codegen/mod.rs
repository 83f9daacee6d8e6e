//! Lowering of operator trees to a straight-line program of backend calls,
//! the backend handles, and the modules that hold compiled operators.

use crate::operator_tree::ConditionalOperators;
use crate::operator_tree::ConditionalStatement;
use crate::operator_tree::Data;
use crate::operator_tree::ParseTree;
use crate::operator_tree::Position;
use crate::operator_tree::Statement;
use crate::operator_tree::tree_value;
use crate::parse::SingleOperators;
use semantics::lemma_lowering_preserves_value;
use semantics::lemma_lowering_well_formed;
use semantics::lemma_tree_len;
use semantics::program_value;
use semantics::refers_back;
use semantics::tree_size;
use semantics::well_formed;
use std::sync::Arc;
use std::sync::Mutex;
use vstd::prelude::*;

pub mod llvminterface;
pub mod semantics;

verus! {

/// The lock of `std::sync`, so that the compiler and its modules can share the
/// backend compiler. Nothing inside a lock is visible to proofs.
#[verifier::external_type_specification]
#[verifier::external_body]
#[verifier::reject_recursive_types(T)]
pub struct ExMutex<T: ?Sized>(Mutex<T>);

/// A value of the backend (an address in its memory).
#[derive(Clone, Copy, Debug, PartialEq, Eq, Structural)]
pub struct LLVMValue(pub usize);

/// The backend context; it lives across modules.
#[derive(Clone, Copy, Debug, PartialEq, Eq, Structural)]
pub struct LLVMContext(pub usize);

/// The backend's compiler of modules to machine code; it lives across modules.
#[derive(Clone, Copy, Debug, PartialEq, Eq, Structural)]
pub struct LLVMJit(pub usize);

/// The backend's instruction builder; it lives across modules.
#[derive(Clone, Copy, Debug, PartialEq, Eq, Structural)]
pub struct LLVMIrBuilder(pub usize);

/// The optimisation passes of one module.
#[derive(Clone, Copy, Debug, PartialEq, Eq, Structural)]
pub struct LLVMFpm(pub usize);

/// A module: the unit that the backend compiles to machine code. It is not
/// copied: it moves into the backend compiler once.
#[derive(Debug, PartialEq, Eq, Structural)]
pub struct LLVMModule(pub usize);

/// The backend's key for a module that it has compiled. It is not copied: it
/// is handed back to the backend once, to remove the module.
#[derive(Debug, PartialEq, Eq, Structural)]
pub struct LLVMModuleHandle(pub usize);

/// One backend call of a compiled operator. Its result is known by its index
/// in the program; operands name the results of earlier calls by index.
#[derive(Clone, Copy, Debug, PartialEq, Eq, Structural)]
pub enum Instr {
    /// A constant.
    Constant(u64),
    /// The argument element at a fixed index.
    EndPos(u64),
    /// The argument element whose index is the result of an earlier call.
    ContPos(usize),
    /// A single statement: operator, destination, source.
    Single(SingleOperators, usize, usize),
    /// A conditional statement: operator, destination, source.
    Conditional(ConditionalOperators, usize, usize),
}

/// The index of the last call of `length` calls placed from `base` on.
pub open spec fn last_index(base: nat, length: nat) -> usize {
    (base + length - 1) as usize
}

/// The calls that a position lowers to, placed from index `base` on.
pub open spec fn lower_position(position: Position, base: nat) -> Seq<Instr>
    decreases position,
{
    match position {
        Position::EndPos(index) => seq![Instr::EndPos(index)],
        Position::ContPos(inner) => {
            let calls = lower_position(*inner, base);
            calls.push(Instr::ContPos(last_index(base, calls.len())))
        },
    }
}

/// The calls that a piece of data lowers to, placed from index `base` on.
pub open spec fn lower_data(data: Data, base: nat) -> Seq<Instr> {
    match data {
        Data::Val(value) => seq![Instr::Constant(value)],
        Data::Pos(position) => lower_position(position, base),
    }
}

/// The calls that a single statement lowers to: destination, source, then the
/// statement itself.
pub open spec fn lower_statement(statement: Statement, base: nat) -> Seq<Instr> {
    match statement {
        Statement::SingleStatement(operator, position, data) => {
            let destination = lower_position(position, base);
            let source = lower_data(data, base + destination.len());
            (destination + source).push(
                Instr::Single(
                    operator,
                    last_index(base, destination.len()),
                    last_index(base, destination.len() + source.len()),
                ),
            )
        },
    }
}

/// The calls that a conditional statement lowers to: destination, source, then
/// the comparison.
pub open spec fn lower_conditional(statement: ConditionalStatement, base: nat) -> Seq<Instr> {
    let destination = lower_position(statement.1, base);
    let source = lower_data(statement.2, base + destination.len());
    (destination + source).push(
        Instr::Conditional(
            statement.0,
            last_index(base, destination.len()),
            last_index(base, destination.len() + source.len()),
        ),
    )
}

/// The calls that an operator tree lowers to: each statement in turn, the
/// first one first.
pub open spec fn lower_tree(tree: ParseTree, base: nat) -> Seq<Instr>
    decreases tree,
{
    match tree {
        ParseTree::EndSingle(statement) => lower_statement(statement, base),
        ParseTree::EndConditional(statement) => lower_conditional(statement, base),
        ParseTree::Continuation(rest, statement) => {
            let first = lower_statement(statement, base);
            first + lower_tree(*rest, base + first.len())
        },
    }
}

/// Something that lowers to backend calls appended to a program.
pub trait Codegen {
    /// The calls that `self` lowers to, placed from index `base` on.
    spec fn lowered(&self, base: nat) -> Seq<Instr>;

    /// Appends the calls of `self` to `program` and returns the index of the
    /// call that gives its result (the last one).
    fn codegen(&self, program: &mut Vec<Instr>) -> (result: usize)
        ensures
            final(program)@ == old(program)@ + self.lowered(old(program)@.len()),
            result + 1 == final(program)@.len(),
    ;
}

fn codegen_position(position: &Position, program: &mut Vec<Instr>) -> (result: usize)
    ensures
        final(program)@ == old(program)@ + lower_position(*position, old(program)@.len()),
        result + 1 == final(program)@.len(),
    decreases position,
{
    let ghost start = program@;
    match position {
        Position::EndPos(index) => {
            program.push(Instr::EndPos(*index));
        },
        Position::ContPos(inner) => {
            let index = codegen_position(inner, program);
            program.push(Instr::ContPos(index));
            assert(program@ =~= start + lower_position(*position, start.len()));
        },
    }
    assert(program@ =~= start + lower_position(*position, start.len()));
    program.len() - 1
}

fn codegen_data(data: &Data, program: &mut Vec<Instr>) -> (result: usize)
    ensures
        final(program)@ == old(program)@ + lower_data(*data, old(program)@.len()),
        result + 1 == final(program)@.len(),
{
    let ghost start = program@;
    match data {
        Data::Val(value) => {
            program.push(Instr::Constant(*value));
            assert(program@ =~= start + lower_data(*data, start.len()));
            program.len() - 1
        },
        Data::Pos(position) => codegen_position(position, program),
    }
}

fn codegen_statement(statement: &Statement, program: &mut Vec<Instr>) -> (result: usize)
    ensures
        final(program)@ == old(program)@ + lower_statement(*statement, old(program)@.len()),
        result + 1 == final(program)@.len(),
{
    let ghost start = program@;
    match statement {
        Statement::SingleStatement(operator, position, data) => {
            let destination = codegen_position(position, program);
            let ghost middle = program@;
            let source = codegen_data(data, program);
            program.push(Instr::Single(*operator, destination, source));
            proof {
                let d = lower_position(*position, start.len());
                let s = lower_data(*data, middle.len());
                assert(middle.len() == start.len() + d.len());
                assert(program@ =~= start + (d + s).push(
                    Instr::Single(*operator, last_index(start.len(), d.len()),
                    last_index(start.len(), d.len() + s.len()))));
            }
        },
    }
    program.len() - 1
}

fn codegen_conditional(statement: &ConditionalStatement, program: &mut Vec<Instr>) -> (result: usize)
    ensures
        final(program)@ == old(program)@ + lower_conditional(*statement, old(program)@.len()),
        result + 1 == final(program)@.len(),
{
    let ghost start = program@;
    let destination = codegen_position(&statement.1, program);
    let ghost middle = program@;
    let source = codegen_data(&statement.2, program);
    program.push(Instr::Conditional(statement.0, destination, source));
    proof {
        let d = lower_position(statement.1, start.len());
        let s = lower_data(statement.2, middle.len());
        assert(program@ =~= start + (d + s).push(
            Instr::Conditional(statement.0, last_index(start.len(), d.len()),
            last_index(start.len(), d.len() + s.len()))));
    }
    program.len() - 1
}

fn codegen_tree(tree: &ParseTree, program: &mut Vec<Instr>) -> (result: usize)
    ensures
        final(program)@ == old(program)@ + lower_tree(*tree, old(program)@.len()),
        result + 1 == final(program)@.len(),
    decreases tree,
{
    let ghost start = program@;
    match tree {
        ParseTree::EndSingle(statement) => codegen_statement(statement, program),
        ParseTree::EndConditional(statement) => codegen_conditional(statement, program),
        ParseTree::Continuation(rest, statement) => {
            // the statement's own result is not used
            codegen_statement(statement, program);
            let ghost middle = program@;
            let result = codegen_tree(rest, program);
            assert(program@ =~= start + lower_tree(*tree, start.len())) by {
                let first = lower_statement(*statement, start.len());
                assert(middle =~= start + first);
            }
            result
        },
    }
}

impl Codegen for Position {
    open spec fn lowered(&self, base: nat) -> Seq<Instr> {
        lower_position(*self, base)
    }

    fn codegen(&self, program: &mut Vec<Instr>) -> (result: usize) {
        codegen_position(self, program)
    }
}

impl Codegen for Data {
    open spec fn lowered(&self, base: nat) -> Seq<Instr> {
        lower_data(*self, base)
    }

    fn codegen(&self, program: &mut Vec<Instr>) -> (result: usize) {
        codegen_data(self, program)
    }
}

impl Codegen for Statement {
    open spec fn lowered(&self, base: nat) -> Seq<Instr> {
        lower_statement(*self, base)
    }

    fn codegen(&self, program: &mut Vec<Instr>) -> (result: usize) {
        codegen_statement(self, program)
    }
}

impl Codegen for ConditionalStatement {
    open spec fn lowered(&self, base: nat) -> Seq<Instr> {
        lower_conditional(*self, base)
    }

    fn codegen(&self, program: &mut Vec<Instr>) -> (result: usize) {
        codegen_conditional(self, program)
    }
}

impl Codegen for ParseTree {
    open spec fn lowered(&self, base: nat) -> Seq<Instr> {
        lower_tree(*self, base)
    }

    fn codegen(&self, program: &mut Vec<Instr>) -> (result: usize) {
        codegen_tree(self, program)
    }
}

/// Lowers an operator tree to the backend calls that compute it, in the order
/// in which they are made; the last call gives the operator's result.
pub fn lower(tree: &ParseTree) -> (program: Vec<Instr>)
    ensures
        program@ == lower_tree(*tree, 0),
        program@.len() == tree_size(*tree),
        well_formed(program@),
        forall|args: Seq<u64>| #[trigger] program_value(program@, args) == tree_value(*tree, args),
{
    let mut program: Vec<Instr> = Vec::new();
    tree.codegen(&mut program);
    proof {
        assert(program@ =~= lower_tree(*tree, 0));
        lemma_tree_len(*tree, 0);
        assert(program.len() <= usize::MAX);
        lemma_lowering_well_formed(*tree);
        assert forall|args: Seq<u64>| #[trigger]
            program_value(program@, args) == tree_value(*tree, args) by {
            lemma_lowering_preserves_value(*tree, args);
        }
    }
    program
}

/// A backend call with its operands resolved to backend values.
#[derive(Clone, Copy, Debug, PartialEq, Eq, Structural)]
pub enum BackendCall {
    /// Make a constant.
    Constant(u64),
    /// Load the argument element at a fixed index.
    EndPos(u64),
    /// Load the argument element whose index is the given value.
    ContPos(LLVMValue),
    /// A single statement: operator, destination, source.
    Single(SingleOperators, LLVMValue, LLVMValue),
    /// A comparison: operator, destination, source.
    Conditional(ConditionalOperators, LLVMValue, LLVMValue),
}

/// A call with each operand replaced by the backend value of the call it names.
pub open spec fn resolve(call: Instr, values: Seq<LLVMValue>) -> BackendCall {
    match call {
        Instr::Constant(value) => BackendCall::Constant(value),
        Instr::EndPos(index) => BackendCall::EndPos(index),
        Instr::ContPos(at) => BackendCall::ContPos(values[at as int]),
        Instr::Single(operator, destination, source) => BackendCall::Single(
            operator,
            values[destination as int],
            values[source as int],
        ),
        Instr::Conditional(operator, destination, source) => BackendCall::Conditional(
            operator,
            values[destination as int],
            values[source as int],
        ),
    }
}

/// The backend call to make for `call`, given the backend values that the
/// calls before it gave, in order; `None` where an operand of `call` names no
/// call among them.
pub fn backend_call(call: Instr, values: &Vec<LLVMValue>) -> (resolved: Option<BackendCall>)
    ensures
        resolved == (if refers_back(call, values@.len() as int) {
            Some(resolve(call, values@))
        } else {
            None
        }),
        call matches Instr::Constant(value) ==> resolved == Some(BackendCall::Constant(value)),
        call matches Instr::EndPos(index) ==> resolved == Some(BackendCall::EndPos(index)),
        call matches Instr::ContPos(at) ==> resolved == (if at < values@.len() {
            Some(BackendCall::ContPos(values@[at as int]))
        } else {
            None
        }),
        call matches Instr::Single(operator, destination, source) ==> resolved == (if destination
            < values@.len() && source < values@.len() {
            Some(BackendCall::Single(operator, values@[destination as int], values@[source as int]))
        } else {
            None
        }),
        call matches Instr::Conditional(operator, destination, source) ==> resolved == (
        if destination < values@.len() && source < values@.len() {
            Some(
                BackendCall::Conditional(
                    operator,
                    values@[destination as int],
                    values@[source as int],
                ),
            )
        } else {
            None
        }),
{
    let count = values.len();
    match call {
        Instr::Constant(value) => Some(BackendCall::Constant(value)),
        Instr::EndPos(index) => Some(BackendCall::EndPos(index)),
        Instr::ContPos(at) => if at < count {
            Some(BackendCall::ContPos(values[at]))
        } else {
            None
        },
        Instr::Single(operator, destination, source) => if destination < count && source < count {
            Some(BackendCall::Single(operator, values[destination], values[source]))
        } else {
            None
        },
        Instr::Conditional(operator, destination, source) => if destination < count && source
            < count {
            Some(BackendCall::Conditional(operator, values[destination], values[source]))
        } else {
            None
        },
    }
}

/// Resolving a call whose operands name earlier calls replaces each operand
/// index by the backend value of the call it names, and keeps the operator and
/// the constants as they are.
pub proof fn lemma_resolve_names_operands(call: Instr, values: Seq<LLVMValue>)
    requires
        refers_back(call, values.len() as int),
    ensures
        match call {
            Instr::Constant(value) => resolve(call, values) == BackendCall::Constant(value),
            Instr::EndPos(index) => resolve(call, values) == BackendCall::EndPos(index),
            Instr::ContPos(at) => resolve(call, values) == BackendCall::ContPos(values[at as int]),
            Instr::Single(operator, destination, source) => resolve(call, values)
                == BackendCall::Single(operator, values[destination as int], values[source as int]),
            Instr::Conditional(operator, destination, source) => resolve(call, values)
                == BackendCall::Conditional(
                operator,
                values[destination as int],
                values[source as int],
            ),
        },
{
}

/// Takes the value out of a shared pointer as its holder goes
/// (`std::sync::Arc::into_inner`). std guarantees that of all holders of one
/// pointer that call it, exactly one gets the value: the last to go. Which
/// holder that is depends on the other holders and is not stated; what is
/// stated is that a value taken out is the shared one.
#[verifier::external_body]
fn arc_into_inner<T>(shared: Arc<T>) -> (result: Option<T>)
    ensures
        result matches Some(value) ==> value == *shared,
{
    Arc::into_inner(shared)
}

/// A compiled module, shared by the operators whose code it holds. The module
/// leaves the backend when its last holder releases it.
#[derive(Clone)]
pub struct CompiledModule {
    handle: Arc<LLVMModuleHandle>,
    jit: Arc<Mutex<LLVMJit>>,
}

impl CompiledModule {
    /// The module that this holder shares.
    pub closed spec fn module(&self) -> LLVMModuleHandle {
        *self.handle
    }

    /// The backend compiler that holds the module.
    pub closed spec fn owner(&self) -> Arc<Mutex<LLVMJit>> {
        self.jit
    }

    /// The first holder of a module that `jit` has compiled.
    pub fn new(handle: LLVMModuleHandle, jit: Arc<Mutex<LLVMJit>>) -> (module: CompiledModule)
        ensures
            module.module() == handle,
            module.owner() == jit,
    {
        CompiledModule { handle: Arc::new(handle), jit: jit }
    }

    /// Gives up this holder. Where it is the last holder of its module to go,
    /// the module and the backend compiler that holds it come back, and the
    /// module is then to be removed from that compiler; where other holders
    /// remain, nothing comes back. Of all holders of one module, exactly one
    /// gets it back, even when they go at once.
    pub fn release(self) -> (removal: Option<(LLVMModuleHandle, Arc<Mutex<LLVMJit>>)>)
        ensures
            removal matches Some((handle, jit)) ==> handle == self.module() && jit == self.owner(),
    {
        removal_after(arc_into_inner(self.handle), self.jit)
    }
}

/// What giving up a holder comes to, once the shared module has been taken out
/// of its pointer or not: where it was taken out (the holder was the last one),
/// the module and the backend compiler `jit` that is to remove it; where it was
/// not (other holders remain), nothing.
pub fn removal_after(
    unwrapped: Option<LLVMModuleHandle>,
    jit: Arc<Mutex<LLVMJit>>,
) -> (removal: Option<(LLVMModuleHandle, Arc<Mutex<LLVMJit>>)>)
    ensures
        match unwrapped {
            Some(handle) => removal == Some((handle, jit)),
            None => removal is None,
        },
{
    match unwrapped {
        Some(handle) => Some((handle, jit)),
        None => None,
    }
}

} // verus!
