use kaleidoscope::codegen::removal_after;
use kaleidoscope::codegen::lower;
use kaleidoscope::codegen::CompiledModule;
use kaleidoscope::codegen::LLVMContext;
use kaleidoscope::codegen::LLVMIrBuilder;
use kaleidoscope::codegen::LLVMJit;
use kaleidoscope::codegen::LLVMModuleHandle;
use kaleidoscope::operator_compiler::operator_name;
use kaleidoscope::operator_compiler::JitCompiler;
use kaleidoscope::operator_tree::ConditionalOperators;
use kaleidoscope::operator_tree::ConditionalStatement;
use kaleidoscope::operator_tree::Data;
use kaleidoscope::operator_tree::ParseTree;
use kaleidoscope::operator_tree::Position;
use std::sync::Arc;
use std::sync::Mutex;

fn tree() -> ParseTree {
    ParseTree::EndConditional(ConditionalStatement(
        ConditionalOperators::Equals,
        Position::EndPos(0),
        Data::Val(54),
    ))
}

#[test]
fn operator_names_are_decimal_counts() {
    assert_eq!(operator_name(0), "operator_0");
    assert_eq!(operator_name(7), "operator_7");
    assert_eq!(operator_name(10), "operator_10");
    assert_eq!(operator_name(1234), "operator_1234");
    assert_eq!(operator_name(u64::MAX), "operator_18446744073709551615");
    assert_eq!(operator_name(u64::MAX), format!("operator_{}", u64::MAX));
}

#[test]
fn operator_names_differ_for_different_counts() {
    let names: Vec<String> = (0..200u64).map(operator_name).collect();
    for i in 0..names.len() {
        for j in 0..i {
            assert_ne!(names[i], names[j]);
        }
    }
}

#[test]
fn compiler_names_operators_in_order() {
    let mut compiler = JitCompiler::new(10, LLVMContext(1), Arc::new(Mutex::new(LLVMJit(2))), LLVMIrBuilder(3));
    assert_eq!(compiler.count(), 0);
    let first = compiler.compile_operator(&tree());
    let second = compiler.compile_operator(&tree());
    assert_eq!(first.name, "operator_0");
    assert_eq!(second.name, "operator_1");
    assert_eq!(first.program, lower(&tree()));
    assert_eq!(compiler.count(), 2);
    assert_eq!(compiler.context(), LLVMContext(1));
    assert_eq!(compiler.ir_builder(), LLVMIrBuilder(3));
    assert_eq!(*compiler.jit().lock().unwrap(), LLVMJit(2));
}

#[test]
fn last_holder_of_a_module_removes_it() {
    let jit = Arc::new(Mutex::new(LLVMJit(5)));
    let module = CompiledModule::new(LLVMModuleHandle(9), jit.clone());
    let copy = module.clone();
    assert!(module.release().is_none());
    let (handle, owner) = copy.release().expect("last holder");
    assert_eq!(handle, LLVMModuleHandle(9));
    assert!(Arc::ptr_eq(&owner, &jit));
}

#[test]
fn single_holder_removes_its_module() {
    let module = CompiledModule::new(LLVMModuleHandle(3), Arc::new(Mutex::new(LLVMJit(1))));
    let (handle, owner) = module.release().expect("only holder");
    assert_eq!(handle, LLVMModuleHandle(3));
    assert_eq!(*owner.lock().unwrap(), LLVMJit(1));
}

#[test]
fn removal_after_taking_the_module_out() {
    let jit = Arc::new(Mutex::new(LLVMJit(4)));
    let (handle, owner) = removal_after(Some(LLVMModuleHandle(8)), jit.clone()).expect("taken out");
    assert_eq!(handle, LLVMModuleHandle(8));
    assert!(Arc::ptr_eq(&owner, &jit));
    assert!(removal_after(None, jit).is_none());
}
