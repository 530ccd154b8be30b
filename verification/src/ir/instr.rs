use vstd::pervasive::unreached;
use vstd::prelude::*;

use crate::shared::Index;

verus! {

/// What can go wrong when an instruction is put together.
#[derive(Debug, Clone, Copy, PartialEq, Eq, Structural)]
pub enum IrError {
    /// A constant was given where an instruction writes its result.
    InvalidDestination,
    /// An instruction reads a constant that the pool does not hold.
    UnknownConstant,
}

/// Represents a label, which identifies the start of a chunk of code. Labels are used for many purposes,
/// such as functions, loops, and conditional branching.
#[derive(Debug, Clone, Copy, PartialEq, Eq, Structural)]
pub struct Label(pub Index);

/// Represents an address, which is either a name defined by the user, a constant value, or a temporary name we
/// generated ourselves. Note that the actual values are interned.
#[derive(Debug, Clone, Copy, PartialEq, Eq, Structural)]
pub enum Addr {
    Name(Index),
    Const(Index),
    Temp(Index),
}

impl Addr {
    /// Whether an instruction may write to this address: a constant cannot be written to.
    pub open spec fn writable(&self) -> bool {
        !(*self is Const)
    }

    /// Whether an instruction may write to this address.
    #[verifier::when_used_as_spec(writable)]
    pub fn is_writable(&self) -> (writable: bool)
        ensures
            writable == self.writable(),
    {
        match self {
            Addr::Const(_) => false,
            _ => true,
        }
    }
}

/// Represents an operator. This is different from the source level operator construct.
#[derive(Debug, Clone, Copy, PartialEq, Eq, Structural)]
pub enum Op {
    /// +
    Plus,
    /// *
    Mult,
}

/// One instruction of three-address code.
#[derive(Debug, Clone, Copy, PartialEq, Eq)]
pub enum Instr {
    Binary(BinInstr),
    Unary(UnInstr),
    Copy(CopyInstr),
    Param(ParamInstr),
    Call(CallInstr),
    Return(RetInstr),
}

impl Instr {
    /// Whether this instruction writes a result: all but `param` and `ret` do.
    pub open spec fn has_dest(&self) -> bool {
        !(*self is Param) && !(*self is Return)
    }

    /// The destination address of an instruction that has one.
    pub open spec fn spec_da(&self) -> Addr
        recommends
            self.has_dest(),
    {
        match *self {
            Instr::Binary(bin) => bin.da,
            Instr::Unary(un) => un.da,
            Instr::Copy(cop) => cop.da,
            Instr::Call(call) => call.da,
            Instr::Param(_) => arbitrary(),
            Instr::Return(_) => arbitrary(),
        }
    }

    /// The label of this instruction, if it carries one.
    pub open spec fn spec_label(&self) -> Option<Label> {
        match *self {
            Instr::Binary(bin) => bin.label,
            Instr::Unary(un) => un.label,
            Instr::Copy(cop) => cop.label,
            Instr::Call(call) => call.label,
            Instr::Param(param) => param.label,
            Instr::Return(ret) => ret.label,
        }
    }

    /// This instruction with its label replaced by `label`.
    pub open spec fn with_label(&self, label: Option<Label>) -> Instr {
        match *self {
            Instr::Binary(bin) => Instr::Binary(BinInstr { label, ..bin }),
            Instr::Unary(un) => Instr::Unary(UnInstr { label, ..un }),
            Instr::Copy(cop) => Instr::Copy(CopyInstr { label, ..cop }),
            Instr::Call(call) => Instr::Call(CallInstr { label, ..call }),
            Instr::Param(param) => Instr::Param(ParamInstr { label, ..param }),
            Instr::Return(ret) => Instr::Return(RetInstr { label, ..ret }),
        }
    }

    /// An instruction is well formed when it does not write to a constant.
    pub open spec fn wf(&self) -> bool {
        self.has_dest() ==> self.spec_da().writable()
    }

    /// Whether this instruction writes a result.
    #[verifier::when_used_as_spec(has_dest)]
    pub fn has_da(&self) -> (has: bool)
        ensures
            has == self.has_dest(),
    {
        match self {
            Instr::Param(_) => false,
            Instr::Return(_) => false,
            _ => true,
        }
    }

    /// Return the destination address of this instruction, which must have one.
    pub fn da(&self) -> (da: &Addr)
        requires
            self.has_dest(),
        ensures
            *da == self.spec_da(),
    {
        match self {
            Instr::Binary(bin) => &bin.da,
            Instr::Unary(un) => &un.da,
            Instr::Copy(cop) => &cop.da,
            Instr::Call(call) => &call.da,
            Instr::Param(_) => unreached(),
            Instr::Return(_) => unreached(),
        }
    }

    /// The label of this instruction, if it carries one.
    pub fn label(&self) -> (label: Option<Label>)
        ensures
            label == self.spec_label(),
    {
        match self {
            Instr::Binary(bin) => bin.label,
            Instr::Unary(un) => un.label,
            Instr::Copy(cop) => cop.label,
            Instr::Call(call) => call.label,
            Instr::Param(param) => param.label,
            Instr::Return(ret) => ret.label,
        }
    }

    /// Set the label of this instruction.
    pub fn set_label(&mut self, label: Label)
        ensures
            *final(self) == old(self).with_label(Some(label)),
    {
        match self {
            Instr::Binary(bin) => bin.label = Some(label),
            Instr::Unary(un) => un.label = Some(label),
            Instr::Copy(cop) => cop.label = Some(label),
            Instr::Call(call) => call.label = Some(label),
            Instr::Param(param) => param.label = Some(label),
            Instr::Return(ret) => ret.label = Some(label),
        }
    }
}

/// Represents an instruction of the form `param <addr>`
#[derive(Debug, Clone, Copy, PartialEq, Eq)]
pub struct ParamInstr {
    /// The (optional) label.
    pub label: Option<Label>,
    /// The address.
    pub ad: Addr,
}

/// Represents an instruction of the form `<name|temp> = <addr> <op> <addr>`.
#[derive(Debug, Clone, Copy, PartialEq, Eq)]
pub struct BinInstr {
    /// The optional label.
    pub label: Option<Label>,
    /// The destination address, which absolutely **cannot** be a constant.
    pub da: Addr,
    /// The left operand (address), which can be any kind of address.
    pub la: Addr,
    /// The operator.
    pub op: Op,
    /// The right operand (address), which can be any kind of address.
    pub ra: Addr,
}

impl BinInstr {
    /// Create a new binary instruction; a constant destination is refused.
    pub fn new(da: Addr, la: Addr, op: Op, ra: Addr) -> (instr: Result<Self, IrError>)
        ensures
            da.writable() ==> instr == Ok::<Self, IrError>(BinInstr { label: None, da, la, op, ra }),
            !da.writable() ==> instr == Err::<Self, IrError>(IrError::InvalidDestination),
    {
        if da.is_writable() {
            Ok(BinInstr { label: None, da, la, op, ra })
        } else {
            Err(IrError::InvalidDestination)
        }
    }
}

/// Represents an instruction of the form `<name|temp> = <op> <addr>`.
#[derive(Debug, Clone, Copy, PartialEq, Eq)]
pub struct UnInstr {
    /// The optional label.
    pub label: Option<Label>,
    /// The destination address, which absolutely **cannot** be a constant.
    pub da: Addr,
    /// The operator.
    pub op: Op,
    /// The operand address, which can be any kind of address.
    pub ad: Addr,
}

/// Represents an instruction of the form `<name|temp> = <addr>`.
#[derive(Debug, Clone, Copy, PartialEq, Eq)]
pub struct CopyInstr {
    /// The optional label.
    pub label: Option<Label>,
    /// The destination address, which absolutely **cannot** be a constant.
    pub da: Addr,
    /// The source address, which can be any kind of address.
    pub ad: Addr,
}

impl CopyInstr {
    /// Create a new copy instruction; a constant destination is refused.
    pub fn new(da: Addr, ad: Addr) -> (instr: Result<Self, IrError>)
        ensures
            da.writable() ==> instr == Ok::<Self, IrError>(CopyInstr { label: None, da, ad }),
            !da.writable() ==> instr == Err::<Self, IrError>(IrError::InvalidDestination),
    {
        if da.is_writable() {
            Ok(CopyInstr { label: None, da, ad })
        } else {
            Err(IrError::InvalidDestination)
        }
    }
}

/// Represents an instruction of the form `ret ad`
#[derive(Debug, Clone, Copy, PartialEq, Eq)]
pub struct RetInstr {
    /// The optional label.
    pub label: Option<Label>,
    /// The address being returned.
    pub ad: Addr,
}

impl RetInstr {
    /// Create a new return instruction.
    pub fn new(ad: Addr) -> (instr: Self)
        ensures
            instr == (RetInstr { label: None, ad }),
    {
        RetInstr { label: None, ad }
    }
}

/// Represents an instruction of the form `da = call fl, n`
#[derive(Debug, Clone, Copy, PartialEq, Eq)]
pub struct CallInstr {
    /// The optional label.
    pub label: Option<Label>,
    /// The destination address, which absolutely **cannot** be a constant.
    pub da: Addr,
    /// The function label.
    pub fl: Label,
    /// The number of parameters.
    pub n: usize,
}

impl CallInstr {
    /// Create a new call instruction; a constant destination is refused.
    pub fn new(da: Addr, fl: Label, n: usize) -> (instr: Result<Self, IrError>)
        ensures
            da.writable() ==> instr == Ok::<Self, IrError>(CallInstr { label: None, da, fl, n }),
            !da.writable() ==> instr == Err::<Self, IrError>(IrError::InvalidDestination),
    {
        if da.is_writable() {
            Ok(CallInstr { label: None, da, fl, n })
        } else {
            Err(IrError::InvalidDestination)
        }
    }
}

} // verus!
