use vstd::prelude::*;
use crate::block::{Block, BlockView, OpCode};
use crate::value::Value;

verus! {

/// How a run ended: `CompileError` is for a caller that hands on a failed
/// compilation; the machine itself ends in `Success` or `RuntimeError`.
#[derive(Clone, Copy, Debug, PartialEq, Eq, Structural)]
pub enum InterpretResult {
    Success,
    CompileError,
    RuntimeError,
}

/// What running `code` from `pc` gives. Every instruction so far ends the
/// run: `Return` with `Success`; a byte that stands for no instruction, or running
/// off the end of the code, with `RuntimeError`.
pub open spec fn run_from(code: Seq<u8>, pc: int) -> InterpretResult {
    if pc < 0 || pc >= code.len() {
        InterpretResult::RuntimeError
    } else {
        match OpCode::decode(code[pc]) {
            Some(OpCode::Return) => InterpretResult::Success,
            None => InterpretResult::RuntimeError,
        }
    }
}

/// A machine's state: the block it holds and its operand stack.
pub struct VMState {
    pub block: BlockView,
    pub stack: Seq<Value>,
}

/// Interpreting `block` on a machine in state `vm`: the result, and the
/// state it leaves.
pub open spec fn interpret_spec(vm: VMState, block: BlockView) -> (InterpretResult, VMState) {
    (run_from(block.code, 0), VMState { block, stack: vm.stack })
}

/// A stack machine that runs one block at a time.
pub struct VM {
    block: Block,
    stack: Vec<Value>,
}

impl View for VM {
    type V = VMState;

    closed spec fn view(&self) -> VMState {
        VMState { block: self.block@, stack: self.stack@ }
    }
}

impl VM {
    /// A machine with an empty block and an empty stack.
    pub fn new() -> (r: Self)
        ensures
            r@.block.code == Seq::<u8>::empty(),
            r@.block.constants == Seq::<Value>::empty(),
            r@.stack == Seq::<Value>::empty(),
    {
        VM { block: Block::new(), stack: Vec::new() }
    }

    /// Installs `block` in place of the one held and runs it from its first
    /// byte.
    pub fn interpret(&mut self, block: Block) -> (r: InterpretResult)
        ensures
            (r, final(self)@) == interpret_spec(old(self)@, block@),
    {
        self.block = block;
        self.run()
    }

    fn run(&self) -> (r: InterpretResult)
        ensures
            r == run_from(self@.block.code, 0),
    {
        let code = self.block.code();
        let mut pc: usize = 0;
        while pc < code.len()
            invariant
                pc <= code.len(),
                code@ == self@.block.code,
                run_from(code@, pc as int) == run_from(code@, 0),
            decreases code.len() - pc,
        {
            let byte = code[pc];
            pc = pc + 1;
            match OpCode::from_byte(byte) {
                Some(OpCode::Return) => {
                    return InterpretResult::Success;
                },
                None => {
                    return InterpretResult::RuntimeError;
                },
            }
        }
        InterpretResult::RuntimeError
    }
}

/// One block run on two machines gives the same result whatever each held
/// before, and leaves each machine with its own stack: nothing of one
/// machine's state reaches the other's. Machines that start alike end alike.
pub proof fn lemma_runs_independent(block: BlockView, a: VMState, b: VMState)
    ensures
        interpret_spec(a, block).0 == interpret_spec(b, block).0,
        interpret_spec(a, block).1.stack == a.stack,
        interpret_spec(a, block).1.block == block,
        a.stack == b.stack ==> interpret_spec(a, block).1 == interpret_spec(b, block).1,
{
}

} // verus!
