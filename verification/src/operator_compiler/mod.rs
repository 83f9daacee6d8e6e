//! The compiler of operators: it names each operator it compiles and lowers
//! its tree to backend calls.

use crate::codegen::lower;
use crate::codegen::lower_tree;
use crate::codegen::Instr;
use crate::codegen::LLVMContext;
use crate::codegen::LLVMIrBuilder;
use crate::codegen::LLVMJit;
use crate::operator_tree::ParseTree;
use std::sync::Arc;
use std::sync::Mutex;
use vstd::prelude::*;
use vstd::string::StringExecFns;

verus! {

/// The character of a decimal digit.
pub open spec fn digit_char(digit: nat) -> char {
    if digit == 0 {
        '0'
    } else if digit == 1 {
        '1'
    } else if digit == 2 {
        '2'
    } else if digit == 3 {
        '3'
    } else if digit == 4 {
        '4'
    } else if digit == 5 {
        '5'
    } else if digit == 6 {
        '6'
    } else if digit == 7 {
        '7'
    } else if digit == 8 {
        '8'
    } else {
        '9'
    }
}

/// The decimal digits of `n`, most significant first, without leading zeros.
pub open spec fn decimal(n: nat) -> Seq<char>
    decreases n,
{
    if n < 10 {
        seq![digit_char(n)]
    } else {
        decimal(n / 10).push(digit_char(n % 10))
    }
}

/// The number that a string of decimal digits stands for.
pub open spec fn decimal_number(digits: Seq<char>) -> nat
    decreases digits.len(),
{
    if digits.len() == 0 {
        0
    } else {
        decimal_number(digits.drop_last()) * 10 + digit_number(digits.last())
    }
}

/// The number of a decimal digit character.
pub open spec fn digit_number(c: char) -> nat {
    if c == '0' {
        0
    } else if c == '1' {
        1
    } else if c == '2' {
        2
    } else if c == '3' {
        3
    } else if c == '4' {
        4
    } else if c == '5' {
        5
    } else if c == '6' {
        6
    } else if c == '7' {
        7
    } else if c == '8' {
        8
    } else {
        9
    }
}

/// The symbol name of the operator compiled when `count` operators had been
/// compiled before it.
pub open spec fn operator_name_spec(count: nat) -> Seq<char> {
    "operator_"@ + decimal(count)
}

proof fn lemma_digit(digit: nat)
    requires
        digit < 10,
    ensures
        digit_number(digit_char(digit)) == digit,
{
}

/// Reading the decimal digits of `n` gives `n` back.
pub proof fn lemma_decimal_number(n: nat)
    ensures
        decimal_number(decimal(n)) == n,
    decreases n,
{
    if n < 10 {
        assert(decimal(n).drop_last() =~= Seq::<char>::empty());
        assert(decimal_number(Seq::<char>::empty()) == 0);
        lemma_digit(n);
        assert(decimal_number(decimal(n)) == decimal_number(Seq::<char>::empty()) * 10
            + digit_number(digit_char(n)));
    } else {
        lemma_decimal_number(n / 10);
        assert(decimal(n).drop_last() =~= decimal(n / 10));
        lemma_digit(n % 10);
        assert((n / 10) * 10 + n % 10 == n);
        assert(decimal(n).last() == digit_char(n % 10));
        assert(decimal_number(decimal(n)) == decimal_number(decimal(n / 10)) * 10
            + digit_number(digit_char(n % 10)));
    }
}

/// A character is one of the ten decimal digits.
pub open spec fn is_decimal_digit(c: char) -> bool {
    c == '0' || c == '1' || c == '2' || c == '3' || c == '4' || c == '5' || c == '6' || c == '7'
        || c == '8' || c == '9'
}

/// The decimal form of `n` is the usual one: one or more decimal digits, with
/// no leading zero (`0` itself is the single digit `0`), that read back to `n`.
pub proof fn lemma_decimal_canonical(n: nat)
    ensures
        decimal(n).len() >= 1,
        forall|i: int| 0 <= i < decimal(n).len() ==> is_decimal_digit(#[trigger] decimal(n)[i]),
        n > 0 ==> decimal(n)[0] != '0',
        n == 0 ==> decimal(n) == seq!['0'],
        decimal_number(decimal(n)) == n,
    decreases n,
{
    lemma_decimal_number(n);
    if n >= 10 {
        lemma_decimal_canonical(n / 10);
        let shorter = decimal(n / 10);
        assert forall|i: int| 0 <= i < decimal(n).len() implies is_decimal_digit(
            #[trigger] decimal(n)[i],
        ) by {
            if i < shorter.len() {
                assert(decimal(n)[i] == shorter[i]);
            }
        }
        assert(decimal(n)[0] == shorter[0]);
    }
}

/// Operators compiled at different counts get different names: no two
/// operators of one compiler share a symbol name.
pub proof fn lemma_operator_names_distinct(first: nat, second: nat)
    requires
        first != second,
    ensures
        operator_name_spec(first) != operator_name_spec(second),
{
    let prefix = "operator_"@;
    if operator_name_spec(first) == operator_name_spec(second) {
        assert(operator_name_spec(first).subrange(prefix.len() as int, operator_name_spec(first).len() as int) =~= decimal(first));
        assert(operator_name_spec(second).subrange(prefix.len() as int, operator_name_spec(second).len() as int) =~= decimal(second));
        lemma_decimal_number(first);
        lemma_decimal_number(second);
    }
}

fn digit_str(digit: u64) -> (text: &'static str)
    requires
        digit < 10,
    ensures
        text@ == seq![digit_char(digit as nat)],
{
    if digit == 0 {
        proof { reveal_strlit("0"); }
        "0"
    } else if digit == 1 {
        proof { reveal_strlit("1"); }
        "1"
    } else if digit == 2 {
        proof { reveal_strlit("2"); }
        "2"
    } else if digit == 3 {
        proof { reveal_strlit("3"); }
        "3"
    } else if digit == 4 {
        proof { reveal_strlit("4"); }
        "4"
    } else if digit == 5 {
        proof { reveal_strlit("5"); }
        "5"
    } else if digit == 6 {
        proof { reveal_strlit("6"); }
        "6"
    } else if digit == 7 {
        proof { reveal_strlit("7"); }
        "7"
    } else if digit == 8 {
        proof { reveal_strlit("8"); }
        "8"
    } else {
        proof { reveal_strlit("9"); }
        "9"
    }
}

fn append_decimal(text: &mut String, n: u64)
    ensures
        final(text)@ == old(text)@ + decimal(n as nat),
    decreases n,
{
    if n >= 10 {
        append_decimal(text, n / 10);
    }
    text.append(digit_str(n % 10));
    assert(final(text)@ =~= old(text)@ + decimal(n as nat));
}

/// The symbol name of the operator compiled when `count` operators had been
/// compiled before it: `operator_` and the count in decimal.
pub fn operator_name(count: u64) -> (name: String)
    ensures
        name@ == operator_name_spec(count as nat),
{
    let mut name = String::from_str("operator_");
    append_decimal(&mut name, count);
    name
}

/// What compiling one operator comes to: the symbol name of its function, and
/// the backend calls of its body, in order.
pub struct OperatorPlan {
    pub name: String,
    pub program: Vec<Instr>,
}

/// The compiler of operators. It holds the backend objects that live across
/// modules and the number of operators compiled so far.
pub struct JitCompiler {
    context: LLVMContext,
    jit: Arc<Mutex<LLVMJit>>,
    ir_builder: LLVMIrBuilder,
    count: u64,
}

impl JitCompiler {
    /// The number of operators compiled so far.
    pub closed spec fn compiled(&self) -> u64 {
        self.count
    }

    /// The backend context.
    pub closed spec fn context_spec(&self) -> LLVMContext {
        self.context
    }

    /// The shared backend compiler.
    pub closed spec fn jit_spec(&self) -> Arc<Mutex<LLVMJit>> {
        self.jit
    }

    /// The backend instruction builder.
    pub closed spec fn ir_builder_spec(&self) -> LLVMIrBuilder {
        self.ir_builder
    }

    /// A compiler over freshly made backend objects that has compiled nothing;
    /// `jit` is the backend compiler, behind the lock through which the
    /// compiled modules share it. The rotation period, the number of operators
    /// per module, must not be 0.
    pub fn new(
        rotate_period: u16,
        context: LLVMContext,
        jit: Arc<Mutex<LLVMJit>>,
        ir_builder: LLVMIrBuilder,
    ) -> (compiler: JitCompiler)
        requires
            rotate_period != 0,
        ensures
            compiler.compiled() == 0,
            compiler.context_spec() == context,
            compiler.jit_spec() == jit,
            compiler.ir_builder_spec() == ir_builder,
    {
        JitCompiler { context: context, jit: jit, ir_builder: ir_builder, count: 0 }
    }

    /// Compiles one more operator: its function is named after the number of
    /// operators compiled before it, and its body is the lowered tree.
    pub fn compile_operator(&mut self, parse_tree: &ParseTree) -> (plan: OperatorPlan)
        requires
            old(self).compiled() < u64::MAX,
        ensures
            plan.name@ == operator_name_spec(old(self).compiled() as nat),
            plan.program@ == lower_tree(*parse_tree, 0),
            final(self).compiled() == old(self).compiled() + 1,
            final(self).context_spec() == old(self).context_spec(),
            final(self).ir_builder_spec() == old(self).ir_builder_spec(),
            final(self).jit_spec() == old(self).jit_spec(),
    {
        let name = operator_name(self.count);
        let program = lower(parse_tree);
        self.count = self.count + 1;
        OperatorPlan { name, program }
    }

    /// The number of operators compiled so far.
    pub fn count(&self) -> (count: u64)
        ensures
            count == self.compiled(),
    {
        self.count
    }

    /// The backend context.
    pub fn context(&self) -> (context: LLVMContext)
        ensures
            context == self.context_spec(),
    {
        self.context
    }

    /// The backend instruction builder.
    pub fn ir_builder(&self) -> (ir_builder: LLVMIrBuilder)
        ensures
            ir_builder == self.ir_builder_spec(),
    {
        self.ir_builder
    }

    /// The shared backend compiler.
    pub fn jit(&self) -> (jit: &Arc<Mutex<LLVMJit>>)
        ensures
            *jit == self.jit_spec(),
    {
        &self.jit
    }
}

} // verus!
