use vstd::prelude::*;
use crate::value::{SValue, ValueArray};

verus! {

/// The built-in operations that the machine runs by id.
#[derive(Clone, Copy, Debug, PartialEq, Eq, Structural)]
pub enum KMethod {
    Print,
}

/// One instruction; an operand index travels inside it.
#[allow(non_camel_case_types)]
#[derive(Clone, Copy, Debug, PartialEq, Eq, Structural)]
pub enum Inst {
    RETURN,
    CONSTANT { idx: usize },
    OP_NEGATE,
    OP_ADD,
    OP_SUB,
    OP_MUL,
    OP_DIV,
    OP_NOT,
    OP_EQ,
    OP_GT,
    OP_LT,
    OP_KCALL { tp: KMethod },
    OP_POP,
    OP_DEFINE_GLOBAL { name_idx: usize },
    OP_GET_GLOBAL { name_idx: usize },
}

/// Instructions, their constants and the source line of each instruction.
#[derive(Debug)]
pub struct Chunk {
    pub data: Vec<Inst>,
    pub value_array: ValueArray,
    pub lines: Vec<usize>,
}

/// Every operand index of `i` names a constant of `pool`, and every name
/// index names a string constant.
pub open spec fn inst_refs_ok(i: Inst, pool: Seq<SValue>) -> bool {
    match i {
        Inst::CONSTANT { idx } => idx < pool.len(),
        Inst::OP_DEFINE_GLOBAL { name_idx } => name_idx < pool.len() && pool[name_idx as int] is Str,
        Inst::OP_GET_GLOBAL { name_idx } => name_idx < pool.len() && pool[name_idx as int] is Str,
        _ => true,
    }
}

impl Chunk {
    /// One line per instruction.
    pub open spec fn wf(&self) -> bool {
        self.data@.len() == self.lines@.len()
    }

    /// Every instruction's operands refer to constants of the right kind.
    pub open spec fn refs_ok(&self) -> bool {
        forall|i: int| 0 <= i < self.data@.len() ==> inst_refs_ok(#[trigger] self.data@[i], self.value_array@)
    }

    /// Appends an instruction with the line that produced it.
    pub fn write(&mut self, op: Inst, line: usize)
        ensures
            final(self).data@ == old(self).data@.push(op),
            final(self).lines@ == old(self).lines@.push(line),
            final(self).value_array == old(self).value_array,
    {
        self.data.push(op);
        self.lines.push(line);
    }

    pub fn new() -> (r: Chunk)
        ensures
            r.data@.len() == 0,
            r.lines@.len() == 0,
            r.value_array@.len() == 0,
    {
        Chunk { data: Vec::new(), value_array: ValueArray::new(), lines: Vec::new() }
    }
}

} // verus!
