use kaleidoscope::codegen::backend_call;
use kaleidoscope::codegen::llvminterface::FunctionProto;
use kaleidoscope::codegen::lower;
use kaleidoscope::codegen::BackendCall;
use kaleidoscope::codegen::Codegen;
use kaleidoscope::codegen::Instr;
use kaleidoscope::codegen::LLVMValue;
use kaleidoscope::operator_tree::ConditionalOperators;
use kaleidoscope::operator_tree::ConditionalStatement;
use kaleidoscope::operator_tree::Data;
use kaleidoscope::operator_tree::ParseTree;
use kaleidoscope::operator_tree::Position;
use kaleidoscope::operator_tree::Statement;
use kaleidoscope::parse::SingleOperators;

/// Runs a lowered program on an argument array the way the backend code does:
/// `None` where an index falls outside the array or a statement has no code.
fn run(program: &[Instr], args: &[u64]) -> Option<u64> {
    let mut values: Vec<u64> = Vec::new();
    for call in program {
        let value = match *call {
            Instr::Constant(v) => v,
            Instr::EndPos(i) => *args.get(i as usize)?,
            Instr::ContPos(at) => *args.get(values[at] as usize)?,
            Instr::Single(_, _, _) => return None,
            Instr::Conditional(ConditionalOperators::Equals, d, s) => {
                if values[d] == values[s] {
                    1
                } else {
                    0
                }
            }
        };
        values.push(value);
    }
    values.last().copied()
}

fn equals(position: Position, data: Data) -> ParseTree {
    ParseTree::EndConditional(ConditionalStatement(ConditionalOperators::Equals, position, data))
}

#[test]
fn end_position_equals_constant_lowers_to_three_calls() {
    let program = lower(&equals(Position::EndPos(0), Data::Val(54)));
    assert_eq!(
        program,
        vec![
            Instr::EndPos(0),
            Instr::Constant(54),
            Instr::Conditional(ConditionalOperators::Equals, 0, 1)
        ]
    );
}

#[test]
fn value_test_on_array_of_54() {
    let args = [54u64; 1000];
    assert_eq!(run(&lower(&equals(Position::EndPos(0), Data::Val(54))), &args), Some(1));
    assert_eq!(run(&lower(&equals(Position::EndPos(0), Data::Val(u64::MAX))), &args), Some(0));
    assert_eq!(run(&lower(&equals(Position::EndPos(0), Data::Val(u64::MIN))), &args), Some(0));
}

#[test]
fn continued_position_reads_through_an_index() {
    let tree = equals(
        Position::ContPos(Box::new(Position::EndPos(3))),
        Data::Pos(Position::EndPos(0)),
    );
    let program = lower(&tree);
    assert_eq!(
        program,
        vec![
            Instr::EndPos(3),
            Instr::ContPos(0),
            Instr::EndPos(0),
            Instr::Conditional(ConditionalOperators::Equals, 1, 2)
        ]
    );
    // args[args[3]] == args[1] == 7 == args[0]
    assert_eq!(run(&program, &[7, 7, 9, 1]), Some(1));
    assert_eq!(run(&program, &[8, 7, 9, 1]), Some(0));
    // args[3] == 10 is out of range
    assert_eq!(run(&program, &[7, 7, 9, 10]), None);
}

#[test]
fn continuation_lowers_its_statement_first() {
    let tree = ParseTree::Continuation(
        Box::new(equals(Position::EndPos(2), Data::Val(5))),
        Statement::SingleStatement(SingleOperators::Add, Position::EndPos(1), Data::Val(3)),
    );
    let program = lower(&tree);
    assert_eq!(
        program,
        vec![
            Instr::EndPos(1),
            Instr::Constant(3),
            Instr::Single(SingleOperators::Add, 0, 1),
            Instr::EndPos(2),
            Instr::Constant(5),
            Instr::Conditional(ConditionalOperators::Equals, 3, 4)
        ]
    );
    // single statements have no backend code: the operator has no result
    assert_eq!(run(&program, &[0, 0, 5]), None);
}

#[test]
fn codegen_appends_after_existing_calls() {
    let mut program = vec![Instr::Constant(1), Instr::Constant(2)];
    let result = Position::ContPos(Box::new(Position::EndPos(4))).codegen(&mut program);
    assert_eq!(result, 3);
    assert_eq!(
        program,
        vec![Instr::Constant(1), Instr::Constant(2), Instr::EndPos(4), Instr::ContPos(2)]
    );
    let result = Data::Val(9).codegen(&mut program);
    assert_eq!(result, 4);
    assert_eq!(program[4], Instr::Constant(9));
}

#[test]
fn every_operand_names_an_earlier_call() {
    let tree = ParseTree::Continuation(
        Box::new(equals(
            Position::ContPos(Box::new(Position::ContPos(Box::new(Position::EndPos(1))))),
            Data::Pos(Position::ContPos(Box::new(Position::EndPos(2)))),
        )),
        Statement::SingleStatement(SingleOperators::Add, Position::EndPos(1), Data::Val(3)),
    );
    let program = lower(&tree);
    assert_eq!(program.len(), 9);
    for (i, call) in program.iter().enumerate() {
        match *call {
            Instr::Constant(_) | Instr::EndPos(_) => {}
            Instr::ContPos(at) => assert!(at < i),
            Instr::Single(_, d, s) | Instr::Conditional(_, d, s) => {
                assert!(d < i);
                assert!(s < i);
            }
        }
    }
}

#[test]
fn backend_call_resolves_operands() {
    let values = vec![LLVMValue(100), LLVMValue(200), LLVMValue(300)];
    assert_eq!(backend_call(Instr::Constant(54), &values), Some(BackendCall::Constant(54)));
    assert_eq!(backend_call(Instr::EndPos(7), &values), Some(BackendCall::EndPos(7)));
    assert_eq!(backend_call(Instr::ContPos(1), &values), Some(BackendCall::ContPos(LLVMValue(200))));
    assert_eq!(backend_call(Instr::Conditional(ConditionalOperators::Equals, 2, 0), &values), Some(BackendCall::Conditional(ConditionalOperators::Equals, LLVMValue(300), LLVMValue(100))));
    assert_eq!(backend_call(Instr::Single(SingleOperators::Add, 0, 1), &values), Some(BackendCall::Single(SingleOperators::Add, LLVMValue(100), LLVMValue(200))));
}

#[test]
fn backend_call_refuses_operands_not_yet_made() {
    let values = vec![LLVMValue(100), LLVMValue(200)];
    assert_eq!(backend_call(Instr::ContPos(2), &values), None);
    assert_eq!(backend_call(Instr::Conditional(ConditionalOperators::Equals, 0, 2), &values), None);
    assert_eq!(backend_call(Instr::Single(SingleOperators::Add, 5, 1), &values), None);
    assert_eq!(backend_call(Instr::Constant(1), &Vec::new()), Some(BackendCall::Constant(1)));
}

#[test]
fn function_proto_arguments_in_order() {
    let proto = FunctionProto { proto: 42, args: [10, 11, 12, 13, 14, 15, 16, 17, 18, 19] };
    let (function, arguments) = proto.function_and_arguments();
    assert_eq!(function, LLVMValue(42));
    assert_eq!(arguments.len(), 10);
    for (i, argument) in arguments.iter().enumerate() {
        assert_eq!(*argument, LLVMValue(10 + i));
    }
}
