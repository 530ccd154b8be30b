//! The human-readable form of the intermediate representation: one line for
//! each instruction, with its label in a column of its own.

use vstd::prelude::*;
use vstd::string::StringExecFns;

use super::instr::{Addr, Instr, IrError, Label, Op};
use super::IRRoot;
use crate::text::{
    append_decimal, append_signed_decimal, append_spaces, decimal, decimal_len, signed_decimal,
    spaces,
};

verus! {

/// How an address reads: a name as `x` and its index, a temporary as `t` and
/// its index, a constant as its value. A constant cannot be written to, and
/// one that is read must be in the pool.
pub open spec fn addr_text(pool: Seq<i32>, addr: Addr, is_d: bool) -> Result<Seq<char>, IrError> {
    match addr {
        Addr::Name(index) => Ok("x"@ + decimal(index as nat)),
        Addr::Temp(index) => Ok("t"@ + decimal(index as nat)),
        Addr::Const(index) => if is_d {
            Err(IrError::InvalidDestination)
        } else if index < pool.len() {
            Ok(signed_decimal(pool[index as int] as int))
        } else {
            Err(IrError::UnknownConstant)
        },
    }
}

/// How a label reads: `l` and its number.
pub open spec fn label_text(label: Label) -> Seq<char> {
    "l"@ + decimal(label.0 as nat)
}

/// How an operator reads.
pub open spec fn op_text(op: Op) -> Seq<char> {
    match op {
        Op::Plus => "+"@,
        Op::Mult => "*"@,
    }
}

/// The label column of a line, `width` characters wide: the label with a
/// colon, or nothing, filled up with spaces.
pub open spec fn label_column(label: Option<Label>, width: nat) -> Seq<char> {
    match label {
        Some(label) => {
            let text = label_text(label) + ":"@;
            if text.len() <= width {
                text + spaces((width - text.len()) as nat)
            } else {
                text
            }
        },
        None => spaces(width),
    }
}

/// What follows the label column on the line of an instruction.
pub open spec fn instr_text(pool: Seq<i32>, instr: Instr) -> Result<Seq<char>, IrError> {
    match instr {
        Instr::Binary(bin) => match addr_text(pool, bin.da, true) {
            Err(error) => Err(error),
            Ok(da) => match addr_text(pool, bin.la, false) {
                Err(error) => Err(error),
                Ok(la) => match addr_text(pool, bin.ra, false) {
                    Err(error) => Err(error),
                    Ok(ra) => Ok(da + " = "@ + la + " "@ + op_text(bin.op) + " "@ + ra),
                },
            },
        },
        Instr::Unary(un) => match addr_text(pool, un.da, true) {
            Err(error) => Err(error),
            Ok(da) => match addr_text(pool, un.ad, false) {
                Err(error) => Err(error),
                Ok(ad) => Ok(da + " = "@ + op_text(un.op) + " "@ + ad),
            },
        },
        Instr::Copy(cop) => match addr_text(pool, cop.da, true) {
            Err(error) => Err(error),
            Ok(da) => match addr_text(pool, cop.ad, false) {
                Err(error) => Err(error),
                Ok(ad) => Ok(da + " = "@ + ad),
            },
        },
        Instr::Return(ret) => match addr_text(pool, ret.ad, false) {
            Err(error) => Err(error),
            Ok(ad) => Ok("ret "@ + ad),
        },
        Instr::Call(call) => match addr_text(pool, call.da, true) {
            Err(error) => Err(error),
            Ok(da) => Ok(
                da + " = call "@ + label_text(call.fl) + ", "@ + decimal(call.n as nat),
            ),
        },
        Instr::Param(param) => match addr_text(pool, param.ad, false) {
            Err(error) => Err(error),
            Ok(ad) => Ok("param "@ + ad),
        },
    }
}

/// The line of an instruction: its label column, its text and a line feed.
pub open spec fn instr_line(pool: Seq<i32>, instr: Instr, width: nat) -> Result<
    Seq<char>,
    IrError,
> {
    match instr_text(pool, instr) {
        Err(error) => Err(error),
        Ok(text) => Ok(label_column(instr.spec_label(), width) + text + "\n"@),
    }
}

/// The lines of the first `n` instructions, or the first error among them.
pub open spec fn lines(pool: Seq<i32>, instrs: Seq<Instr>, n: nat, width: nat) -> Result<
    Seq<char>,
    IrError,
>
    decreases n,
{
    if n == 0 || n > instrs.len() {
        Ok(Seq::empty())
    } else {
        match lines(pool, instrs, (n - 1) as nat, width) {
            Err(error) => Err(error),
            Ok(before) => match instr_line(pool, instrs[n - 1], width) {
                Err(error) => Err(error),
                Ok(line) => Ok(before + line),
            },
        }
    }
}

/// The width of the label column for a program with `label_count` labels:
/// that of the last label with its `l`, its colon and a space.
pub open spec fn label_width(label_count: nat) -> nat {
    decimal(
        if label_count > 0 {
            (label_count - 1) as nat
        } else {
            0
        },
    ).len() + 3
}

/// Once an instruction cannot be rendered, the program cannot be.
proof fn lemma_lines_fail(pool: Seq<i32>, instrs: Seq<Instr>, n: nat, m: nat, width: nat)
    requires
        0 < n <= m <= instrs.len(),
        lines(pool, instrs, n, width) is Err,
    ensures
        lines(pool, instrs, m, width) == lines(pool, instrs, n, width),
    decreases m,
{
    if n < m {
        lemma_lines_fail(pool, instrs, n, (m - 1) as nat, width);
    }
}

impl<'a> IRRoot<'a> {
    /// The human-readable form of the whole program.
    pub open spec fn rendered(&self) -> Result<Seq<char>, IrError> {
        lines(
            self.interner.integers@,
            self.instrs@,
            self.instrs@.len(),
            label_width(self.label_count as nat),
        )
    }

    /// Render the program in its human-readable form, one line for each instruction.
    pub fn human_readable(&self) -> (text: Result<String, IrError>)
        ensures
            match self.rendered() {
                Ok(rendered) => text is Ok && text->Ok_0@ == rendered,
                Err(error) => text == Err::<String, IrError>(error),
            },
    {
        // Figure out how much padding is needed for the labels
        // Note that we add three to account for the 'l' character, the colon, and the space
        let last_label = if self.label_count > 0 {
            self.label_count - 1
        } else {
            0
        };
        let max_length = decimal_len(last_label as u64) + 3;
        let mut text = String::new();
        let mut i: usize = 0;
        while i < self.instrs.len()
            invariant
                i <= self.instrs.len(),
                max_length == label_width(self.label_count as nat),
                lines(self.interner.integers@, self.instrs@, i as nat, max_length as nat) == Ok::<
                    Seq<char>,
                    IrError,
                >(text@),
            decreases self.instrs.len() - i,
        {
            let instr = &self.instrs[i];
            let ghost before = text@;
            label(&mut text, &instr.label(), max_length);
            let written = self.instr_readable(&mut text, instr);
            if let Err(error) = written {
                proof {
                    lemma_lines_fail(
                        self.interner.integers@,
                        self.instrs@,
                        (i + 1) as nat,
                        self.instrs@.len(),
                        max_length as nat,
                    );
                }
                return Err(error);
            }
            text.append("\n");
            proof {
                let tail = instr_text(self.interner.integers@, *instr)->Ok_0;
                assert(text@ =~= before + (label_column(instr.spec_label(), max_length as nat)
                    + tail + "\n"@));
            }
            i = i + 1;
        }
        Ok(text)
    }

    /// Append what follows the label column on the line of `instr`.
    fn instr_readable(&self, text: &mut String, instr: &Instr) -> (written: Result<(), IrError>)
        ensures
            match instr_text(self.interner.integers@, *instr) {
                Ok(rendered) => written is Ok && final(text)@ == old(text)@ + rendered,
                Err(error) => written == Err::<(), IrError>(error),
            },
    {
        match instr {
            Instr::Binary(bin) => {
                self.addr_readable(text, &bin.da, true)?;
                text.append(" = ");
                self.addr_readable(text, &bin.la, false)?;
                text.append(" ");
                op_readable(text, &bin.op);
                text.append(" ");
                self.addr_readable(text, &bin.ra, false)?;
                proof {
                    let pool = self.interner.integers@;
                    assert(text@ =~= old(text)@ + (addr_text(pool, bin.da, true)->Ok_0 + " = "@
                        + addr_text(pool, bin.la, false)->Ok_0 + " "@ + op_text(bin.op) + " "@
                        + addr_text(pool, bin.ra, false)->Ok_0));
                }
            },
            Instr::Unary(un) => {
                self.addr_readable(text, &un.da, true)?;
                text.append(" = ");
                op_readable(text, &un.op);
                text.append(" ");
                self.addr_readable(text, &un.ad, false)?;
                proof {
                    let pool = self.interner.integers@;
                    assert(text@ =~= old(text)@ + (addr_text(pool, un.da, true)->Ok_0 + " = "@
                        + op_text(un.op) + " "@ + addr_text(pool, un.ad, false)->Ok_0));
                }
            },
            Instr::Copy(cop) => {
                self.addr_readable(text, &cop.da, true)?;
                text.append(" = ");
                self.addr_readable(text, &cop.ad, false)?;
                proof {
                    let pool = self.interner.integers@;
                    assert(text@ =~= old(text)@ + (addr_text(pool, cop.da, true)->Ok_0 + " = "@
                        + addr_text(pool, cop.ad, false)->Ok_0));
                }
            },
            Instr::Return(ret) => {
                text.append("ret ");
                self.addr_readable(text, &ret.ad, false)?;
                proof {
                    let pool = self.interner.integers@;
                    assert(text@ =~= old(text)@ + ("ret "@ + addr_text(pool, ret.ad, false)->Ok_0));
                }
            },
            Instr::Call(call) => {
                self.addr_readable(text, &call.da, true)?;
                text.append(" = call ");
                label_readable(text, &call.fl);
                text.append(", ");
                append_decimal(text, call.n as u64);
                proof {
                    let pool = self.interner.integers@;
                    assert(text@ =~= old(text)@ + (addr_text(pool, call.da, true)->Ok_0
                        + " = call "@ + label_text(call.fl) + ", "@ + decimal(call.n as nat)));
                }
            },
            Instr::Param(param) => {
                text.append("param ");
                self.addr_readable(text, &param.ad, false)?;
                proof {
                    let pool = self.interner.integers@;
                    assert(text@ =~= old(text)@ + ("param "@ + addr_text(
                        pool,
                        param.ad,
                        false,
                    )->Ok_0));
                }
            },
        }
        Ok(())
    }

    /// Append the human readable form of an address.
    fn addr_readable(&self, text: &mut String, addr: &Addr, is_d: bool) -> (written: Result<
        (),
        IrError,
    >)
        ensures
            match addr_text(self.interner.integers@, *addr, is_d) {
                Ok(rendered) => written is Ok && final(text)@ == old(text)@ + rendered,
                Err(error) => written == Err::<(), IrError>(error) && final(text)@ == old(text)@,
            },
    {
        match addr {
            Addr::Name(i) => {
                text.append("x");
                append_decimal(text, *i as u64);
                assert(text@ =~= old(text)@ + ("x"@ + decimal(*i as nat)));
                Ok(())
            },
            Addr::Temp(i) => {
                text.append("t");
                append_decimal(text, *i as u64);
                assert(text@ =~= old(text)@ + ("t"@ + decimal(*i as nat)));
                Ok(())
            },
            Addr::Const(i) => {
                if is_d {
                    return Err(IrError::InvalidDestination);
                }
                match self.interner.integers.value_of(*i) {
                    Some(value) => {
                        append_signed_decimal(text, *value);
                        Ok(())
                    },
                    None => Err(IrError::UnknownConstant),
                }
            },
        }
    }
}

/// Append the human readable form of a label.
fn label_readable(text: &mut String, label: &Label)
    ensures
        final(text)@ == old(text)@ + label_text(*label),
{
    text.append("l");
    append_decimal(text, label.0 as u64);
    assert(text@ =~= old(text)@ + label_text(*label));
}

/// Append the human readable form of an operator.
fn op_readable(text: &mut String, op: &Op)
    ensures
        final(text)@ == old(text)@ + op_text(*op),
{
    match op {
        Op::Plus => text.append("+"),
        Op::Mult => text.append("*"),
    }
}

/// Append the label column of a line.
fn label(text: &mut String, label: &Option<Label>, max_len: usize)
    ensures
        final(text)@ == old(text)@ + label_column(*label, max_len as nat),
{
    match label {
        Some(label) => {
            label_readable(text, label);
            text.append(":");
            let len = decimal_len(label.0 as u64) + 2;
            proof {
                reveal_strlit("l");
                reveal_strlit(":");
                assert((label_text(*label) + ":"@).len() == len);
            }
            if len <= max_len {
                append_spaces(text, max_len - len);
            }
            assert(text@ =~= old(text)@ + label_column(Some(*label), max_len as nat));
        },
        None => {
            append_spaces(text, max_len);
        },
    }
}

} // verus!
