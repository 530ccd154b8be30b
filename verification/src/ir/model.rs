//! What lowering means: the state of the engine as plain mathematical values
//! and, for each construct of the syntax tree, the state that lowering it
//! leads to.

use vstd::prelude::*;

use super::instr::{Addr, BinInstr, CallInstr, CopyInstr, Instr, Label, Op, ParamInstr, RetInstr};
use super::mapper::{indices_below, lemma_lookup_below};
use super::table::{bind, enter, leave, lookup, Scopes};
use crate::ast::{Expr, ExprCall, ExprLit, File, Item, ItemFn, OpKind, Stmt};
use crate::shared::pool::{intern, lemma_intern_index};
use crate::shared::span::Span;
use crate::shared::Index;

verus! {

/// The kinds of failure of lowering.
#[derive(Debug, Clone, Copy, PartialEq, Eq, Structural)]
pub enum LowerErrorKind {
    /// An identifier is used that no open scope binds.
    UnresolvedName,
    /// A function is called that has no label.
    UndefinedFunction,
    /// The expression has no form in the intermediate representation.
    UnsupportedExpr,
}

/// A failure of lowering: its kind, the name that caused it and where that
/// name stands in the source.
pub struct Failure {
    pub kind: LowerErrorKind,
    pub name: Seq<char>,
    pub span: Span,
}

/// The state of a lowering run.
pub struct LowerState {
    /// The instructions emitted so far.
    pub instrs: Seq<Instr>,
    /// The scopes of local names with the index of each.
    pub names: Scopes<Index>,
    /// The number of name indices given out.
    pub next_name: nat,
    /// The functions that have a label.
    pub fns: Scopes<Index>,
    /// The number of labels given out.
    pub next_fn: nat,
    /// The interned integer literals, each at its index.
    pub ints: Seq<i32>,
    /// The number of temporaries given out.
    pub next_temp: nat,
}

impl LowerState {
    /// The state in which a lowering run starts.
    pub open spec fn initial() -> LowerState {
        LowerState {
            instrs: Seq::empty(),
            names: seq![Map::empty()],
            next_name: 0,
            fns: seq![Map::empty()],
            next_fn: 0,
            ints: Seq::empty(),
            next_temp: 0,
        }
    }

    /// The state after `instr` is appended.
    pub open spec fn emit(self, instr: Instr) -> LowerState {
        LowerState { instrs: self.instrs.push(instr), ..self }
    }

    /// The state after `instr`, which writes to the next free temporary, is
    /// appended and that temporary is taken.
    pub open spec fn emit_temp(self, instr: Instr) -> LowerState {
        LowerState { instrs: self.instrs.push(instr), next_temp: self.next_temp + 1, ..self }
    }

    /// The next free temporary as an address.
    pub open spec fn temp(self) -> Addr {
        Addr::Temp(self.next_temp as Index)
    }

    /// The address that holds the value of the expression lowered last: the
    /// destination of the last instruction.
    pub open spec fn result(self) -> Addr {
        self.instrs.last().spec_da()
    }
}

/// The operator of the intermediate representation for a source operator.
pub open spec fn lower_op(kind: OpKind) -> Op {
    match kind {
        OpKind::Add => Op::Plus,
        OpKind::Multiply => Op::Mult,
    }
}

/// Lowering an expression. The operands of a binary expression are lowered
/// left before right, the arguments of a call left to right, each followed by
/// its `param`. The value of the expression is in the destination of the last
/// instruction of the resulting state.
pub open spec fn lower_expr(s: LowerState, expr: Expr) -> Result<LowerState, Failure>
    decreases expr,
{
    match expr {
        Expr::Binary(expr_bin) => match lower_expr(s, *expr_bin.lhs) {
            Err(failure) => Err(failure),
            Ok(left) => match lower_expr(left, *expr_bin.rhs) {
                Err(failure) => Err(failure),
                Ok(right) => Ok(
                    right.emit_temp(
                        Instr::Binary(
                            BinInstr {
                                label: None,
                                da: right.temp(),
                                la: left.result(),
                                op: lower_op(expr_bin.op.kind),
                                ra: right.result(),
                            },
                        ),
                    ),
                ),
            },
        },
        Expr::Call(ExprCall::Fn(call)) => match lower_args(
            s,
            call.args.args@,
            call.args.args@.len(),
        ) {
            Err(failure) => Err(failure),
            Ok(after) => match lookup(after.fns, call.ident.repr@) {
                None => Err(
                    Failure {
                        kind: LowerErrorKind::UndefinedFunction,
                        name: call.ident.repr@,
                        span: call.ident.span,
                    },
                ),
                Some(label) => Ok(
                    after.emit_temp(
                        Instr::Call(
                            CallInstr {
                                label: None,
                                da: after.temp(),
                                fl: Label(label),
                                n: call.args.args@.len() as usize,
                            },
                        ),
                    ),
                ),
            },
        },
        Expr::Ident(ident) => match lookup(s.names, ident.repr@) {
            None => Err(
                Failure {
                    kind: LowerErrorKind::UnresolvedName,
                    name: ident.repr@,
                    span: ident.span,
                },
            ),
            Some(index) => Ok(
                s.emit_temp(
                    Instr::Copy(CopyInstr { label: None, da: s.temp(), ad: Addr::Name(index) }),
                ),
            ),
        },
        Expr::Lit(ExprLit::Num(lit_num)) => {
            let (ints, index) = intern(s.ints, lit_num.value);
            Ok(
                LowerState { ints, ..s }.emit_temp(
                    Instr::Copy(
                        CopyInstr { label: None, da: s.temp(), ad: Addr::Const(index as Index) },
                    ),
                ),
            )
        },
        Expr::Struct(expr_struct) => Err(
            Failure {
                kind: LowerErrorKind::UnsupportedExpr,
                name: expr_struct.ident.repr@,
                span: expr_struct.span,
            },
        ),
    }
}

/// Lowering the first `n` arguments of a call: each is lowered and then
/// handed over by a `param` that carries the address of its value.
pub open spec fn lower_args(s: LowerState, args: Seq<Expr>, n: nat) -> Result<LowerState, Failure>
    decreases args, n,
{
    if n == 0 || n > args.len() {
        Ok(s)
    } else {
        match lower_args(s, args, (n - 1) as nat) {
            Err(failure) => Err(failure),
            Ok(before) => match lower_expr(before, args[n - 1]) {
                Err(failure) => Err(failure),
                Ok(after) => Ok(
                    after.emit(Instr::Param(ParamInstr { label: None, ad: after.result() })),
                ),
            },
        }
    }
}

/// The state after the value of the last expression is copied to a fresh
/// name index that `name` is then bound to.
pub open spec fn bind_name(s: LowerState, name: Seq<char>) -> LowerState {
    LowerState {
        instrs: s.instrs.push(
            Instr::Copy(
                CopyInstr { label: None, da: Addr::Name(s.next_name as Index), ad: s.result() },
            ),
        ),
        names: bind(s.names, name, s.next_name as Index),
        next_name: s.next_name + 1,
        ..s
    }
}

/// Lowering a statement. A `let` binds its name to a fresh index only after
/// its expression is lowered, so the expression sees the outer binding.
pub open spec fn lower_stmt(s: LowerState, stmt: Stmt) -> Result<LowerState, Failure> {
    match stmt {
        Stmt::Local(local) => match lower_expr(s, local.expr) {
            Err(failure) => Err(failure),
            Ok(after) => Ok(bind_name(after, local.ident.repr@)),
        },
        Stmt::Expr(expr) => match lower_expr(s, expr) {
            Err(failure) => Err(failure),
            Ok(after) => Ok(
                after.emit_temp(
                    Instr::Copy(CopyInstr { label: None, da: after.temp(), ad: after.result() }),
                ),
            ),
        },
        Stmt::Return(ret) => match lower_expr(s, ret.expr) {
            Err(failure) => Err(failure),
            Ok(after) => Ok(
                after.emit(Instr::Return(RetInstr { label: None, ad: after.result() })),
            ),
        },
    }
}

/// Lowering the first `n` statements of a block, in order.
pub open spec fn lower_stmts(s: LowerState, stmts: Seq<Stmt>, n: nat) -> Result<LowerState, Failure>
    decreases n,
{
    if n == 0 || n > stmts.len() {
        Ok(s)
    } else {
        match lower_stmts(s, stmts, (n - 1) as nat) {
            Err(failure) => Err(failure),
            Ok(before) => lower_stmt(before, stmts[n - 1]),
        }
    }
}

/// The state after the function called `name` has its label: the one it has
/// already, or else the next free one.
pub open spec fn declare_fn(s: LowerState, name: Seq<char>) -> LowerState {
    match lookup(s.fns, name) {
        Some(_) => s,
        None => LowerState {
            fns: bind(s.fns, name, s.next_fn as Index),
            next_fn: s.next_fn + 1,
            ..s
        },
    }
}

/// The label of the function called `name`, once it is declared.
pub open spec fn label_of(s: LowerState, name: Seq<char>) -> Label {
    match lookup(s.fns, name) {
        Some(label) => Label(label),
        None => Label(s.next_fn as Index),
    }
}

/// The instruction that stands in for the body of a function that has no
/// statement: a fresh temporary copied onto itself.
pub open spec fn placeholder(s: LowerState) -> Instr {
    Instr::Copy(CopyInstr { label: None, da: s.temp(), ad: s.temp() })
}

/// Lowering a function: its body is lowered in a scope of its own, and the
/// first instruction of the body carries the function's label. A body without
/// statements gets a placeholder instruction to carry the label.
pub open spec fn lower_item_fn(s: LowerState, item_fn: ItemFn) -> Result<LowerState, Failure> {
    let declared = declare_fn(s, item_fn.ident.repr@);
    let inside = LowerState { names: enter(s.names), ..declared };
    match lower_stmts(inside, item_fn.body.stmts@, item_fn.body.stmts@.len()) {
        Err(failure) => Err(failure),
        Ok(body) => {
            let filled = if body.instrs.len() == s.instrs.len() {
                body.emit_temp(placeholder(body))
            } else {
                body
            };
            let start = s.instrs.len() as int;
            Ok(
                LowerState {
                    instrs: filled.instrs.update(
                        start,
                        filled.instrs[start].with_label(Some(label_of(s, item_fn.ident.repr@))),
                    ),
                    names: leave(filled.names),
                    ..filled
                },
            )
        },
    }
}

/// Lowering the first `n` items of a file: the functions in order;
/// declarations of structs and impl blocks emit no code.
pub open spec fn lower_items(s: LowerState, items: Seq<Item>, n: nat) -> Result<LowerState, Failure>
    decreases n,
{
    if n == 0 || n > items.len() {
        Ok(s)
    } else {
        match lower_items(s, items, (n - 1) as nat) {
            Err(failure) => Err(failure),
            Ok(before) => match items[n - 1] {
                Item::Fn(item_fn) => lower_item_fn(before, item_fn),
                _ => Ok(before),
            },
        }
    }
}

/// The state after each function among the first `n` items has its label:
/// the functions get their labels in the order of their declaration.
pub open spec fn declare_fns(s: LowerState, items: Seq<Item>, n: nat) -> LowerState
    decreases n,
{
    if n == 0 || n > items.len() {
        s
    } else {
        let before = declare_fns(s, items, (n - 1) as nat);
        match items[n - 1] {
            Item::Fn(item_fn) => declare_fn(before, item_fn.ident.repr@),
            _ => before,
        }
    }
}

/// Whether each function among the first `n` items has a label.
pub open spec fn fns_declared(s: LowerState, items: Seq<Item>, n: nat) -> bool {
    forall|k: int|
        0 <= k < n && k < items.len() && (#[trigger] items[k]) is Fn ==> lookup(
            s.fns,
            items[k]->Fn_0.ident.repr@,
        ) is Some
}

/// Lowering a whole file from the initial state: first every function gets
/// its label, so that a function can be called before its declaration; then
/// the functions are lowered in order.
pub open spec fn lower_file(file: File) -> Result<LowerState, Failure> {
    lower_items(
        declare_fns(LowerState::initial(), file.items@, file.items@.len()),
        file.items@,
        file.items@.len(),
    )
}

/// Whether an address lies within the names, constants and temporaries given out.
pub open spec fn addr_in(addr: Addr, names: nat, consts: nat, temps: nat) -> bool {
    match addr {
        Addr::Name(index) => index < names,
        Addr::Const(index) => index < consts,
        Addr::Temp(index) => index < temps,
    }
}

/// Whether a label, if there is one, was given out.
pub open spec fn label_in(label: Option<Label>, labels: nat) -> bool {
    match label {
        Some(label) => label.0 < labels,
        None => true,
    }
}

/// Whether an instruction writes to no constant and speaks only of names,
/// constants, temporaries and labels that were given out.
pub open spec fn instr_in(instr: Instr, names: nat, consts: nat, temps: nat, labels: nat) -> bool {
    match instr {
        Instr::Binary(bin) => bin.da.writable() && addr_in(bin.da, names, consts, temps)
            && addr_in(bin.la, names, consts, temps) && addr_in(bin.ra, names, consts, temps)
            && label_in(bin.label, labels),
        Instr::Unary(un) => un.da.writable() && addr_in(un.da, names, consts, temps) && addr_in(
            un.ad,
            names,
            consts,
            temps,
        ) && label_in(un.label, labels),
        Instr::Copy(cop) => cop.da.writable() && addr_in(cop.da, names, consts, temps) && addr_in(
            cop.ad,
            names,
            consts,
            temps,
        ) && label_in(cop.label, labels),
        Instr::Param(param) => addr_in(param.ad, names, consts, temps) && label_in(
            param.label,
            labels,
        ),
        Instr::Call(call) => call.da.writable() && addr_in(call.da, names, consts, temps)
            && call.fl.0 < labels && label_in(call.label, labels),
        Instr::Return(ret) => addr_in(ret.ad, names, consts, temps) && label_in(ret.label, labels),
    }
}

/// Every instruction speaks only of what was given out.
pub open spec fn code_ok(s: LowerState) -> bool {
    forall|i: int|
        0 <= i < s.instrs.len() ==> instr_in(
            #[trigger] s.instrs[i],
            s.next_name,
            s.ints.len(),
            s.next_temp,
            s.next_fn,
        )
}

/// The temporary that an instruction writes to, if it writes to one.
pub open spec fn temp_dest(instr: Instr) -> Option<Index> {
    if instr.has_dest() {
        match instr.spec_da() {
            Addr::Temp(index) => Some(index),
            _ => None,
        }
    } else {
        None
    }
}

/// The name that an instruction writes to, if it writes to one.
pub open spec fn name_dest(instr: Instr) -> Option<Index> {
    if instr.has_dest() {
        match instr.spec_da() {
            Addr::Name(index) => Some(index),
            _ => None,
        }
    } else {
        None
    }
}

/// Each instruction that writes to a temporary writes to a later one than
/// every instruction before it: no temporary is written to twice.
pub open spec fn temps_ascend(instrs: Seq<Instr>) -> bool {
    forall|i: int, j: int|
        #![trigger instrs[i], instrs[j]]
        0 <= i < j < instrs.len() && temp_dest(instrs[i]) is Some && temp_dest(instrs[j]) is Some
            ==> temp_dest(instrs[i])->0 < temp_dest(instrs[j])->0
}

/// Each instruction that writes to a name writes to a later one than every
/// instruction before it: no name index is bound twice.
pub open spec fn names_ascend(instrs: Seq<Instr>) -> bool {
    forall|i: int, j: int|
        #![trigger instrs[i], instrs[j]]
        0 <= i < j < instrs.len() && name_dest(instrs[i]) is Some && name_dest(instrs[j]) is Some
            ==> name_dest(instrs[i])->0 < name_dest(instrs[j])->0
}

/// What holds of the state between any two steps of a lowering run.
pub open spec fn state_wf(s: LowerState) -> bool {
    &&& s.next_temp + s.next_name <= s.instrs.len()
    &&& s.ints.len() <= s.instrs.len()
    &&& s.names.len() >= 1
    &&& s.fns.len() >= 1
    &&& indices_below(s.names, s.next_name as int)
    &&& indices_below(s.fns, s.next_fn as int)
    &&& s.ints.no_duplicates()
    &&& code_ok(s)
    &&& s.instrs.len() <= usize::MAX ==> temps_ascend(s.instrs) && names_ascend(s.instrs)
}

/// Whether `after` can be reached from `before` by lowering: what was emitted
/// and interned stays as it is, and the counters do not go back.
pub open spec fn extends(before: LowerState, after: LowerState) -> bool {
    &&& before.instrs.is_prefix_of(after.instrs)
    &&& before.ints.is_prefix_of(after.ints)
    &&& before.next_temp <= after.next_temp
    &&& before.next_name <= after.next_name
    &&& before.next_fn <= after.next_fn
}

/// Whether two states have the same names and functions in scope.
pub open spec fn same_scopes(before: LowerState, after: LowerState) -> bool {
    &&& after.names == before.names
    &&& after.next_name == before.next_name
    &&& after.fns == before.fns
    &&& after.next_fn == before.next_fn
}

/// The well-formedness of a state outlives the appending of an instruction
/// that writes to the next free temporary.
pub proof fn lemma_emit_temp(s: LowerState, instr: Instr)
    requires
        state_wf(s),
        instr.has_dest(),
        instr.spec_da() == s.temp(),
        instr.spec_label() is None,
        instr_in(instr, s.next_name, s.ints.len(), s.next_temp + 1, s.next_fn),
    ensures
        lowered(s, s.emit_temp(instr)),
        same_scopes(s, s.emit_temp(instr)),
{
    let after = s.emit_temp(instr);
    assert forall|i: int| 0 <= i < after.instrs.len() implies instr_in(
        #[trigger] after.instrs[i],
        after.next_name,
        after.ints.len(),
        after.next_temp,
        after.next_fn,
    ) by {
        if i < s.instrs.len() {
            assert(instr_in(s.instrs[i], s.next_name, s.ints.len(), s.next_temp, s.next_fn));
        }
    }
    if after.instrs.len() <= usize::MAX {
        assert forall|i: int, j: int|
            #![trigger after.instrs[i], after.instrs[j]]
            0 <= i < j < after.instrs.len() && temp_dest(after.instrs[i]) is Some && temp_dest(
                after.instrs[j],
            ) is Some implies temp_dest(after.instrs[i])->0 < temp_dest(after.instrs[j])->0 by {
            assert(instr_in(s.instrs[i], s.next_name, s.ints.len(), s.next_temp, s.next_fn));
            if j < s.instrs.len() {
                assert(temp_dest(s.instrs[i])->0 < temp_dest(s.instrs[j])->0);
            }
        }
        assert forall|i: int, j: int|
            #![trigger after.instrs[i], after.instrs[j]]
            0 <= i < j < after.instrs.len() && name_dest(after.instrs[i]) is Some && name_dest(
                after.instrs[j],
            ) is Some implies name_dest(after.instrs[i])->0 < name_dest(after.instrs[j])->0 by {
            if j < s.instrs.len() {
                assert(name_dest(s.instrs[i])->0 < name_dest(s.instrs[j])->0);
            }
        }
    }
}

/// The well-formedness of a state outlives the appending of an instruction
/// that writes nothing.
pub proof fn lemma_emit(s: LowerState, instr: Instr)
    requires
        state_wf(s),
        !instr.has_dest(),
        instr.spec_label() is None,
        instr_in(instr, s.next_name, s.ints.len(), s.next_temp, s.next_fn),
    ensures
        lowered(s, s.emit(instr)),
        same_scopes(s, s.emit(instr)),
{
    let after = s.emit(instr);
    assert forall|i: int| 0 <= i < after.instrs.len() implies instr_in(
        #[trigger] after.instrs[i],
        after.next_name,
        after.ints.len(),
        after.next_temp,
        after.next_fn,
    ) by {
        if i < s.instrs.len() {
            assert(instr_in(s.instrs[i], s.next_name, s.ints.len(), s.next_temp, s.next_fn));
        }
    }
    if after.instrs.len() <= usize::MAX {
        assert forall|i: int, j: int|
            #![trigger after.instrs[i], after.instrs[j]]
            0 <= i < j < after.instrs.len() && temp_dest(after.instrs[i]) is Some && temp_dest(
                after.instrs[j],
            ) is Some implies temp_dest(after.instrs[i])->0 < temp_dest(after.instrs[j])->0 by {
            if j < s.instrs.len() {
                assert(temp_dest(s.instrs[i])->0 < temp_dest(s.instrs[j])->0);
            }
        }
        assert forall|i: int, j: int|
            #![trigger after.instrs[i], after.instrs[j]]
            0 <= i < j < after.instrs.len() && name_dest(after.instrs[i]) is Some && name_dest(
                after.instrs[j],
            ) is Some implies name_dest(after.instrs[i])->0 < name_dest(after.instrs[j])->0 by {
            if j < s.instrs.len() {
                assert(name_dest(s.instrs[i])->0 < name_dest(s.instrs[j])->0);
            }
        }
    }
}

/// Whether no instruction from position `from` on carries a label.
pub open spec fn unlabelled_from(instrs: Seq<Instr>, from: int) -> bool {
    forall|i: int| from <= i < instrs.len() ==> (#[trigger] instrs[i]).spec_label() is None
}

/// Whether `after` is a well-formed state that lowering can reach from
/// `before` without putting a label on any instruction that it appends.
pub open spec fn lowered(before: LowerState, after: LowerState) -> bool {
    &&& state_wf(after)
    &&& extends(before, after)
    &&& unlabelled_from(after.instrs, before.instrs.len() as int)
}

/// Two lowering steps in a row make one.
pub proof fn lemma_lowered_trans(a: LowerState, b: LowerState, c: LowerState)
    requires
        lowered(a, b),
        lowered(b, c),
    ensures
        lowered(a, c),
{
    assert forall|i: int| a.instrs.len() <= i < c.instrs.len() implies (
    #[trigger] c.instrs[i]).spec_label() is None by {
        if i < b.instrs.len() {
            assert(c.instrs[i] == b.instrs[i]);
        }
    }
}

/// Whether the state ends in an instruction that writes a result.
pub open spec fn has_result(s: LowerState) -> bool {
    &&& s.instrs.len() > 0
    &&& s.instrs.last().has_dest()
}

/// Lowering an expression appends at least one instruction, the last of which
/// holds the value, and touches neither what was emitted before nor the scopes.
pub proof fn lemma_lower_expr(s: LowerState, expr: Expr)
    requires
        state_wf(s),
    ensures
        match lower_expr(s, expr) {
            Ok(after) => {
                &&& lowered(s, after)
                &&& same_scopes(s, after)
                &&& s.instrs.len() < after.instrs.len()
                &&& has_result(after)
            },
            Err(_) => true,
        },
    decreases expr,
{
    match expr {
        Expr::Binary(expr_bin) => {
            lemma_lower_expr(s, *expr_bin.lhs);
            if let Ok(left) = lower_expr(s, *expr_bin.lhs) {
                lemma_lower_expr(left, *expr_bin.rhs);
                if let Ok(right) = lower_expr(left, *expr_bin.rhs) {
                    let instr = Instr::Binary(
                        BinInstr {
                            label: None,
                            da: right.temp(),
                            la: left.result(),
                            op: lower_op(expr_bin.op.kind),
                            ra: right.result(),
                        },
                    );
                    lemma_result_in(left);
                    lemma_result_in(right);
                    lemma_emit_temp(right, instr);
                    lemma_lowered_trans(s, left, right);
                    lemma_lowered_trans(s, right, right.emit_temp(instr));
                }
            }
        },
        Expr::Call(ExprCall::Fn(call)) => {
            lemma_lower_args(s, call.args.args@, call.args.args@.len());
            if let Ok(after) = lower_args(s, call.args.args@, call.args.args@.len()) {
                if let Some(label) = lookup(after.fns, call.ident.repr@) {
                    lemma_lookup_below(after.fns, after.next_fn as int, call.ident.repr@);
                    let instr = Instr::Call(
                        CallInstr {
                            label: None,
                            da: after.temp(),
                            fl: Label(label),
                            n: call.args.args@.len() as usize,
                        },
                    );
                    lemma_emit_temp(after, instr);
                    lemma_lowered_trans(s, after, after.emit_temp(instr));
                }
            }
        },
        Expr::Ident(ident) => {
            if let Some(index) = lookup(s.names, ident.repr@) {
                lemma_lookup_below(s.names, s.next_name as int, ident.repr@);
                lemma_emit_temp(
                    s,
                    Instr::Copy(CopyInstr { label: None, da: s.temp(), ad: Addr::Name(index) }),
                );
            }
        },
        Expr::Lit(ExprLit::Num(lit_num)) => {
            lemma_intern_copy(s, lit_num.value);
        },
        Expr::Struct(_) => {},
    }
}

/// Interning a literal and copying it into a fresh temporary keeps the
/// state well formed.
proof fn lemma_intern_copy(s: LowerState, value: i32)
    requires
        state_wf(s),
    ensures
        ({
            let (ints, index) = intern(s.ints, value);
            let after = LowerState { ints, ..s }.emit_temp(
                Instr::Copy(
                    CopyInstr { label: None, da: s.temp(), ad: Addr::Const(index as Index) },
                ),
            );
            &&& lowered(s, after)
            &&& same_scopes(s, after)
        }),
{
    let (ints, index) = intern(s.ints, value);
    lemma_intern_index(s.ints, value);
    let instr = Instr::Copy(
        CopyInstr { label: None, da: s.temp(), ad: Addr::Const(index as Index) },
    );
    let after = LowerState { ints, ..s }.emit_temp(instr);
    assert forall|i: int| 0 <= i < after.instrs.len() implies instr_in(
        #[trigger] after.instrs[i],
        after.next_name,
        after.ints.len(),
        after.next_temp,
        after.next_fn,
    ) by {
        if i < s.instrs.len() {
            assert(instr_in(s.instrs[i], s.next_name, s.ints.len(), s.next_temp, s.next_fn));
        }
    }
    if after.instrs.len() <= usize::MAX {
        assert forall|i: int, j: int|
            #![trigger after.instrs[i], after.instrs[j]]
            0 <= i < j < after.instrs.len() && temp_dest(after.instrs[i]) is Some && temp_dest(
                after.instrs[j],
            ) is Some implies temp_dest(after.instrs[i])->0 < temp_dest(after.instrs[j])->0 by {
            assert(instr_in(s.instrs[i], s.next_name, s.ints.len(), s.next_temp, s.next_fn));
            if j < s.instrs.len() {
                assert(temp_dest(s.instrs[i])->0 < temp_dest(s.instrs[j])->0);
            }
        }
        assert forall|i: int, j: int|
            #![trigger after.instrs[i], after.instrs[j]]
            0 <= i < j < after.instrs.len() && name_dest(after.instrs[i]) is Some && name_dest(
                after.instrs[j],
            ) is Some implies name_dest(after.instrs[i])->0 < name_dest(after.instrs[j])->0 by {
            if j < s.instrs.len() {
                assert(name_dest(s.instrs[i])->0 < name_dest(s.instrs[j])->0);
            }
        }
    }
}

/// The address of a result lies within what was given out.
pub proof fn lemma_result_in(s: LowerState)
    requires
        state_wf(s),
        has_result(s),
    ensures
        addr_in(s.result(), s.next_name, s.ints.len(), s.next_temp),
        s.result().writable(),
{
    assert(instr_in(s.instrs[s.instrs.len() - 1], s.next_name, s.ints.len(), s.next_temp, s.next_fn));
}

/// Lowering arguments touches neither what was emitted before nor the scopes.
pub proof fn lemma_lower_args(s: LowerState, args: Seq<Expr>, n: nat)
    requires
        state_wf(s),
    ensures
        match lower_args(s, args, n) {
            Ok(after) => {
                &&& lowered(s, after)
                &&& same_scopes(s, after)
            },
            Err(_) => true,
        },
    decreases args, n,
{
    if n == 0 || n > args.len() {
    } else {
        lemma_lower_args(s, args, (n - 1) as nat);
        if let Ok(before) = lower_args(s, args, (n - 1) as nat) {
            lemma_lower_expr(before, args[n - 1]);
            if let Ok(after) = lower_expr(before, args[n - 1]) {
                lemma_result_in(after);
                let instr = Instr::Param(ParamInstr { label: None, ad: after.result() });
                lemma_emit(after, instr);
                lemma_lowered_trans(s, before, after);
                lemma_lowered_trans(s, after, after.emit(instr));
            }
        }
    }
}

/// Whether two states have the same functions in scope and the same scopes
/// of names around the current one.
pub open spec fn same_frame(before: LowerState, after: LowerState) -> bool {
    &&& after.names.len() == before.names.len()
    &&& after.names.drop_last() == before.names.drop_last()
    &&& after.fns == before.fns
    &&& after.next_fn == before.next_fn
}

/// Lowering a statement appends at least one unlabelled instruction and
/// binds names in the current scope only.
pub proof fn lemma_lower_stmt(s: LowerState, stmt: Stmt)
    requires
        state_wf(s),
    ensures
        match lower_stmt(s, stmt) {
            Ok(after) => {
                &&& lowered(s, after)
                &&& same_frame(s, after)
                &&& s.instrs.len() < after.instrs.len()
            },
            Err(_) => true,
        },
{
    match stmt {
        Stmt::Local(local) => {
            lemma_lower_expr(s, local.expr);
            if let Ok(after) = lower_expr(s, local.expr) {
                lemma_result_in(after);
                lemma_bind_name(after, local.ident.repr@);
                lemma_lowered_trans(s, after, bind_name(after, local.ident.repr@));
            }
        },
        Stmt::Expr(expr) => {
            lemma_lower_expr(s, expr);
            if let Ok(after) = lower_expr(s, expr) {
                lemma_result_in(after);
                let instr = Instr::Copy(
                    CopyInstr { label: None, da: after.temp(), ad: after.result() },
                );
                lemma_emit_temp(after, instr);
                lemma_lowered_trans(s, after, after.emit_temp(instr));
            }
        },
        Stmt::Return(ret) => {
            lemma_lower_expr(s, ret.expr);
            if let Ok(after) = lower_expr(s, ret.expr) {
                lemma_result_in(after);
                let instr = Instr::Return(RetInstr { label: None, ad: after.result() });
                lemma_emit(after, instr);
                lemma_lowered_trans(s, after, after.emit(instr));
            }
        },
    }
}

/// Binding the value of the last expression to a name keeps the state well formed.
pub proof fn lemma_bind_name(s: LowerState, name: Seq<char>)
    requires
        state_wf(s),
        has_result(s),
    ensures
        lowered(s, bind_name(s, name)),
        same_frame(s, bind_name(s, name)),
{
    let after = bind_name(s, name);
    lemma_result_in(s);
    assert(after.names.drop_last() =~= s.names.drop_last());
    assert forall|i: int| 0 <= i < after.instrs.len() implies instr_in(
        #[trigger] after.instrs[i],
        after.next_name,
        after.ints.len(),
        after.next_temp,
        after.next_fn,
    ) by {
        if i < s.instrs.len() {
            assert(instr_in(s.instrs[i], s.next_name, s.ints.len(), s.next_temp, s.next_fn));
        }
    }
    assert(indices_below(after.names, after.next_name as int)) by {
        assert forall|i: int, other: Seq<char>|
            0 <= i < after.names.len() && #[trigger] after.names[i].contains_key(
                other,
            ) implies after.names[i][other] < after.next_name by {
            if i < s.names.len() - 1 || other != name {
                assert(s.names[i].contains_key(other));
            }
        }
    }
    if after.instrs.len() <= usize::MAX {
        assert forall|i: int, j: int|
            #![trigger after.instrs[i], after.instrs[j]]
            0 <= i < j < after.instrs.len() && temp_dest(after.instrs[i]) is Some && temp_dest(
                after.instrs[j],
            ) is Some implies temp_dest(after.instrs[i])->0 < temp_dest(after.instrs[j])->0 by {
            if j < s.instrs.len() {
                assert(temp_dest(s.instrs[i])->0 < temp_dest(s.instrs[j])->0);
            }
        }
        assert forall|i: int, j: int|
            #![trigger after.instrs[i], after.instrs[j]]
            0 <= i < j < after.instrs.len() && name_dest(after.instrs[i]) is Some && name_dest(
                after.instrs[j],
            ) is Some implies name_dest(after.instrs[i])->0 < name_dest(after.instrs[j])->0 by {
            assert(instr_in(s.instrs[i], s.next_name, s.ints.len(), s.next_temp, s.next_fn));
            if j < s.instrs.len() {
                assert(name_dest(s.instrs[i])->0 < name_dest(s.instrs[j])->0);
            }
        }
    }
}

/// Lowering statements appends unlabelled instructions, one at least for
/// each statement, and binds names in the current scope only.
pub proof fn lemma_lower_stmts(s: LowerState, stmts: Seq<Stmt>, n: nat)
    requires
        state_wf(s),
    ensures
        match lower_stmts(s, stmts, n) {
            Ok(after) => {
                &&& lowered(s, after)
                &&& same_frame(s, after)
                &&& (n == 0 || n > stmts.len()) ==> after == s
                &&& 0 < n <= stmts.len() ==> s.instrs.len() < after.instrs.len()
            },
            Err(_) => true,
        },
    decreases n,
{
    if n == 0 || n > stmts.len() {
    } else {
        lemma_lower_stmts(s, stmts, (n - 1) as nat);
        if let Ok(before) = lower_stmts(s, stmts, (n - 1) as nat) {
            lemma_lower_stmt(before, stmts[n - 1]);
            if let Ok(after) = lower_stmt(before, stmts[n - 1]) {
                lemma_lowered_trans(s, before, after);
            }
        }
    }
}

/// Declaring a function keeps the state well formed and gives out one label at most.
pub proof fn lemma_declare_fn(s: LowerState, name: Seq<char>)
    requires
        state_wf(s),
    ensures
        state_wf(declare_fn(s, name)),
        extends(s, declare_fn(s, name)),
        declare_fn(s, name).instrs == s.instrs,
        declare_fn(s, name).names == s.names,
        declare_fn(s, name).next_fn <= s.next_fn + 1,
        lookup(declare_fn(s, name).fns, name) == Some(label_of(s, name).0),
        label_of(s, name).0 < declare_fn(s, name).next_fn,
        forall|other: Seq<char>|
            lookup(s.fns, other) is Some ==> #[trigger] lookup(declare_fn(s, name).fns, other)
                == lookup(s.fns, other),
        lookup(s.fns, name) is Some ==> declare_fn(s, name) == s,
{
    let after = declare_fn(s, name);
    assert forall|other: Seq<char>| lookup(s.fns, other) is Some implies #[trigger] lookup(
        after.fns,
        other,
    ) == lookup(s.fns, other) by {
        if lookup(s.fns, name) is None {
            super::table::lemma_lookup_bind_other(s.fns, name, s.next_fn as Index, other);
        }
    }
    if lookup(s.fns, name) is None {
        assert forall|i: int, other: Seq<char>|
            0 <= i < after.fns.len() && #[trigger] after.fns[i].contains_key(
                other,
            ) implies after.fns[i][other] < after.next_fn by {
            if i < s.fns.len() - 1 || other != name {
                assert(s.fns[i].contains_key(other));
            }
        }
        assert forall|i: int| 0 <= i < after.instrs.len() implies instr_in(
            #[trigger] after.instrs[i],
            after.next_name,
            after.ints.len(),
            after.next_temp,
            after.next_fn,
        ) by {
            assert(instr_in(s.instrs[i], s.next_name, s.ints.len(), s.next_temp, s.next_fn));
        }
    } else {
        lemma_lookup_below(s.fns, s.next_fn as int, name);
    }
}

/// Lowering a function appends its code, of which the first instruction and
/// no other carries the function's label, and leaves the names in scope as
/// they were.
pub proof fn lemma_lower_item_fn(s: LowerState, item_fn: ItemFn)
    requires
        state_wf(s),
    ensures
        match lower_item_fn(s, item_fn) {
            Ok(after) => {
                &&& state_wf(after)
                &&& extends(s, after)
                &&& after.names == s.names
                &&& after.next_fn <= s.next_fn + 1
                &&& after.fns == declare_fn(s, item_fn.ident.repr@).fns
                &&& after.next_fn == declare_fn(s, item_fn.ident.repr@).next_fn
                &&& s.instrs.len() < after.instrs.len()
                &&& after.instrs[s.instrs.len() as int].spec_label() == Some(
                    label_of(s, item_fn.ident.repr@),
                )
                &&& unlabelled_from(after.instrs, s.instrs.len() as int + 1)
            },
            Err(_) => true,
        },
{
    let name = item_fn.ident.repr@;
    let declared = declare_fn(s, name);
    lemma_declare_fn(s, name);
    let inside = LowerState { names: enter(s.names), ..declared };
    assert(state_wf(inside)) by {
        assert forall|i: int, other: Seq<char>|
            0 <= i < inside.names.len() && #[trigger] inside.names[i].contains_key(
                other,
            ) implies inside.names[i][other] < inside.next_name by {
            if i < s.names.len() {
                assert(s.names[i].contains_key(other));
            }
        }
        assert forall|i: int| 0 <= i < inside.instrs.len() implies instr_in(
            #[trigger] inside.instrs[i],
            inside.next_name,
            inside.ints.len(),
            inside.next_temp,
            inside.next_fn,
        ) by {
            assert(instr_in(
                declared.instrs[i],
                declared.next_name,
                declared.ints.len(),
                declared.next_temp,
                declared.next_fn,
            ));
        }
    }
    assert(inside.names.drop_last() =~= s.names);
    lemma_lower_stmts(inside, item_fn.body.stmts@, item_fn.body.stmts@.len());
    if let Ok(body) = lower_stmts(inside, item_fn.body.stmts@, item_fn.body.stmts@.len()) {
        let filled = if body.instrs.len() == s.instrs.len() {
            body.emit_temp(placeholder(body))
        } else {
            body
        };
        if body.instrs.len() == s.instrs.len() {
            lemma_emit_temp(body, placeholder(body));
        }
        let start = s.instrs.len() as int;
        let label = label_of(s, name);
        let after = LowerState {
            instrs: filled.instrs.update(start, filled.instrs[start].with_label(Some(label))),
            names: leave(filled.names),
            ..filled
        };
        assert(after.names =~= s.names);
        assert forall|i: int| 0 <= i < after.instrs.len() implies instr_in(
            #[trigger] after.instrs[i],
            after.next_name,
            after.ints.len(),
            after.next_temp,
            after.next_fn,
        ) by {
            assert(instr_in(
                filled.instrs[i],
                filled.next_name,
                filled.ints.len(),
                filled.next_temp,
                filled.next_fn,
            ));
        }
        assert forall|i: int| 0 <= i < after.instrs.len() implies temp_dest(
            #[trigger] after.instrs[i],
        ) == temp_dest(filled.instrs[i]) && name_dest(after.instrs[i]) == name_dest(
            filled.instrs[i],
        ) by {}
        assert(indices_below(after.names, after.next_name as int)) by {
            assert forall|i: int, other: Seq<char>|
                0 <= i < after.names.len() && #[trigger] after.names[i].contains_key(
                    other,
                ) implies after.names[i][other] < after.next_name by {
                assert(filled.names[i].contains_key(other));
            }
        }
        if after.instrs.len() <= usize::MAX {
            assert forall|i: int, j: int|
                #![trigger after.instrs[i], after.instrs[j]]
                0 <= i < j < after.instrs.len() && temp_dest(after.instrs[i]) is Some && temp_dest(
                    after.instrs[j],
                ) is Some implies temp_dest(after.instrs[i])->0 < temp_dest(after.instrs[j])->0 by {
                assert(temp_dest(filled.instrs[i])->0 < temp_dest(filled.instrs[j])->0);
            }
            assert forall|i: int, j: int|
                #![trigger after.instrs[i], after.instrs[j]]
                0 <= i < j < after.instrs.len() && name_dest(after.instrs[i]) is Some && name_dest(
                    after.instrs[j],
                ) is Some implies name_dest(after.instrs[i])->0 < name_dest(after.instrs[j])->0 by {
                assert(name_dest(filled.instrs[i])->0 < name_dest(filled.instrs[j])->0);
            }
        }
    }
}

/// Lowering items keeps the state well formed and leaves the names in scope
/// as they were; it gives out no label when every function has one already.
pub proof fn lemma_lower_items(s: LowerState, items: Seq<Item>, n: nat)
    requires
        state_wf(s),
        fns_declared(s, items, items.len()),
    ensures
        match lower_items(s, items, n) {
            Ok(after) => {
                &&& state_wf(after)
                &&& extends(s, after)
                &&& after.names == s.names
                &&& after.fns == s.fns
                &&& after.next_fn == s.next_fn
            },
            Err(_) => true,
        },
    decreases n,
{
    if n == 0 || n > items.len() {
    } else {
        lemma_lower_items(s, items, (n - 1) as nat);
        if let Ok(before) = lower_items(s, items, (n - 1) as nat) {
            if let Item::Fn(item_fn) = items[n - 1] {
                assert(items[n - 1] is Fn);
                lemma_lower_item_fn(before, item_fn);
                lemma_declare_fn(before, item_fn.ident.repr@);
            }
        }
    }
}

/// Giving the functions their labels emits no code, gives out one label at
/// most for each item, and leaves every function with a label.
pub proof fn lemma_declare_fns(s: LowerState, items: Seq<Item>, n: nat)
    requires
        state_wf(s),
        n <= items.len(),
    ensures
        state_wf(declare_fns(s, items, n)),
        extends(s, declare_fns(s, items, n)),
        declare_fns(s, items, n).instrs == s.instrs,
        declare_fns(s, items, n).names == s.names,
        declare_fns(s, items, n).next_fn <= s.next_fn + n,
        fns_declared(declare_fns(s, items, n), items, n),
    decreases n,
{
    if n > 0 {
        let before = declare_fns(s, items, (n - 1) as nat);
        lemma_declare_fns(s, items, (n - 1) as nat);
        if let Item::Fn(item_fn) = items[n - 1] {
            lemma_declare_fn(before, item_fn.ident.repr@);
            let after = declare_fn(before, item_fn.ident.repr@);
            assert forall|k: int| 0 <= k < n && k < items.len() && (#[trigger] items[k])
                is Fn implies lookup(after.fns, items[k]->Fn_0.ident.repr@) is Some by {
                if k < n - 1 {
                    assert(lookup(before.fns, items[k]->Fn_0.ident.repr@) is Some);
                }
            }
        }
    }
}

/// The initial state is well formed.
pub proof fn lemma_initial_wf()
    ensures
        state_wf(LowerState::initial()),
{
}

/// Entering a scope of names keeps the state well formed.
pub proof fn lemma_enter_scope(s: LowerState)
    requires
        state_wf(s),
    ensures
        state_wf(LowerState { names: enter(s.names), ..s }),
{
    let inside = LowerState { names: enter(s.names), ..s };
    assert forall|i: int, other: Seq<char>|
        0 <= i < inside.names.len() && #[trigger] inside.names[i].contains_key(
            other,
        ) implies inside.names[i][other] < inside.next_name by {
        if i < s.names.len() {
            assert(s.names[i].contains_key(other));
        }
    }
    assert forall|i: int| 0 <= i < inside.instrs.len() implies instr_in(
        #[trigger] inside.instrs[i],
        inside.next_name,
        inside.ints.len(),
        inside.next_temp,
        inside.next_fn,
    ) by {
        assert(instr_in(s.instrs[i], s.next_name, s.ints.len(), s.next_temp, s.next_fn));
    }
}

} // verus!
