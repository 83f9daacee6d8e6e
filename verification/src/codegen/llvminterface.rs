//! The values that the backend hands back when it makes a function.

use super::LLVMValue;
use vstd::prelude::*;

verus! {

/// A function made by the backend: the function, and its argument values.
#[derive(Clone, Copy, Debug)]
pub struct FunctionProto {
    pub proto: usize,
    pub args: [usize; 10],
}

impl FunctionProto {
    /// The function, and its argument values in order, first argument first.
    pub fn function_and_arguments(&self) -> (parts: (LLVMValue, Vec<LLVMValue>))
        ensures
            parts.0 == LLVMValue(self.proto),
            parts.1@ == self.args@.map_values(|address: usize| LLVMValue(address)),
    {
        let mut arguments: Vec<LLVMValue> = Vec::new();
        let mut i: usize = 0;
        while i < 10
            invariant
                i <= 10,
                arguments@ == self.args@.subrange(0, i as int).map_values(
                    |address: usize| LLVMValue(address),
                ),
            decreases 10 - i,
        {
            arguments.push(LLVMValue(self.args[i]));
            i = i + 1;
            assert(arguments@ =~= self.args@.subrange(0, i as int).map_values(
                |address: usize| LLVMValue(address),
            ));
        }
        assert(self.args@.subrange(0, 10) =~= self.args@);
        (LLVMValue(self.proto), arguments)
    }
}

} // verus!
