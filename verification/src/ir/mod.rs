//! The three-address intermediate representation and the engine that lowers
//! the syntax tree to it.

use vstd::prelude::*;

pub mod instr;
pub mod laws;
pub mod lower;
pub mod mapper;
pub mod model;
pub mod render;
pub mod table;

pub use instr::{
    Addr, BinInstr, CallInstr, CopyInstr, Instr, IrError, Label, Op, ParamInstr, RetInstr, UnInstr,
};
pub use lower::{LowerError, LoweringEngine, LoweringPool};
pub use model::LowerErrorKind;

use crate::shared::Index;

verus! {

/// The IR representation of a program: the list of instructions with the
/// literals and the number of labels that they refer to.
pub struct IRRoot<'a> {
    /// The final value of the label counter: the number of labels given out.
    pub label_count: Index,
    /// The literals that the instructions refer to.
    pub interner: LoweringPool<'a>,
    /// The instructions, in the order in which they were emitted.
    pub instrs: Vec<Instr>,
}

impl<'a> IRRoot<'a> {
    /// No instruction writes to a constant, every constant that is read is
    /// in the pool, and every label was given out.
    pub open spec fn wf(&self) -> bool {
        &&& self.interner.integers.wf()
        &&& forall|i: int|
            0 <= i < self.instrs@.len() ==> {
                &&& (#[trigger] self.instrs@[i]).wf()
                &&& consts_in(self.instrs@[i], self.interner.integers@.len())
                &&& labels_in(self.instrs@[i], self.label_count as nat)
            }
    }
}

/// Whether a constant address is within the pool's `consts` values.
pub open spec fn const_in(addr: Addr, consts: nat) -> bool {
    match addr {
        Addr::Const(index) => index < consts,
        _ => true,
    }
}

/// Whether every constant that an instruction reads is within the pool's `consts` values.
pub open spec fn consts_in(instr: Instr, consts: nat) -> bool {
    match instr {
        Instr::Binary(bin) => const_in(bin.la, consts) && const_in(bin.ra, consts),
        Instr::Unary(un) => const_in(un.ad, consts),
        Instr::Copy(cop) => const_in(cop.ad, consts),
        Instr::Param(param) => const_in(param.ad, consts),
        Instr::Call(_) => true,
        Instr::Return(ret) => const_in(ret.ad, consts),
    }
}

/// Whether every label that an instruction carries or calls is below `labels`.
pub open spec fn labels_in(instr: Instr, labels: nat) -> bool {
    &&& model::label_in(instr.spec_label(), labels)
    &&& instr matches Instr::Call(call) ==> model::label_in(Some(call.fl), labels)
}

} // verus!
