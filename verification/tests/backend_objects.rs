use kaleidoscope::codegen::CompiledModule;
use kaleidoscope::codegen::LLVMContext;
use kaleidoscope::codegen::LLVMIrBuilder;
use kaleidoscope::codegen::LLVMJit;
use kaleidoscope::codegen::LLVMModuleHandle;
use kaleidoscope::operator_compiler::JitCompiler;
use std::sync::Arc;
use std::sync::Mutex;

/// The backend objects made at start-up are not null. The backend itself is
/// reached only from app/, so the start-up addresses are written here; what is
/// checked is that the compiler and its modules hold exactly those objects.
#[test]
fn null_and_sanity_checks_extern() {
    let context = LLVMContext(0x7f00_0000_1000);
    let jit = LLVMJit(0x7f00_0000_2000);
    let ir_builder = LLVMIrBuilder(0x7f00_0000_3000);
    let shared_jit = Arc::new(Mutex::new(jit));
    let compiler = JitCompiler::new(1, context, shared_jit.clone(), ir_builder);
    assert!(Arc::ptr_eq(compiler.jit(), &shared_jit));
    assert!(compiler.context().0 != 0);
    assert!(compiler.jit().lock().unwrap().0 != 0);
    assert!(compiler.ir_builder().0 != 0);

    let module = CompiledModule::new(LLVMModuleHandle(0x7f00_0000_4000), compiler.jit().clone());
    let (handle, owner) = module.release().expect("only holder");
    assert!(handle.0 != 0);
    assert!(owner.lock().unwrap().0 != 0);
}
