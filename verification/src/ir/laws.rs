//! Laws of lowering: how many instructions of each kind a construct gives
//! rise to, that no temporary is written twice, and what a `let` of a sum
//! followed by a `return` of its name is lowered to.

use vstd::prelude::*;

use super::instr::{Addr, BinInstr, CopyInstr, Instr, RetInstr};
use super::model::{
    declare_fn, label_of, lemma_declare_fn, lemma_enter_scope, lemma_lower_args,
    lemma_lower_expr, lemma_lower_item_fn, lemma_lower_stmts, lower_args, lower_expr,
    lower_item_fn, lower_op, lower_stmt, lower_stmts, placeholder, state_wf, temp_dest,
    LowerState,
};
use super::table::{bind, enter, lemma_lookup_bind_same, lookup};
use crate::ast::{Expr, ExprCall, ExprLit, ItemFn, Local, Return, Stmt};
use crate::shared::pool::{intern, lemma_intern_index};
use crate::shared::Index;

verus! {

/// The number of `param` instructions in a piece of code.
pub open spec fn params_in(instrs: Seq<Instr>) -> nat
    decreases instrs.len(),
{
    if instrs.len() == 0 {
        0
    } else {
        params_in(instrs.drop_last()) + if instrs.last() is Param {
            1nat
        } else {
            0nat
        }
    }
}

/// The number of binary instructions in a piece of code.
pub open spec fn binaries_in(instrs: Seq<Instr>) -> nat
    decreases instrs.len(),
{
    if instrs.len() == 0 {
        0
    } else {
        binaries_in(instrs.drop_last()) + if instrs.last() is Binary {
            1nat
        } else {
            0nat
        }
    }
}

/// The number of arguments that the calls in an expression hand over.
pub open spec fn args_of(expr: Expr) -> nat
    decreases expr,
{
    match expr {
        Expr::Binary(expr_bin) => args_of(*expr_bin.lhs) + args_of(*expr_bin.rhs),
        Expr::Call(ExprCall::Fn(call)) => call.args.args@.len() + args_of_list(
            call.args.args@,
            call.args.args@.len(),
        ),
        _ => 0,
    }
}

/// The number of arguments that the calls in the first `n` of `exprs` hand over.
pub open spec fn args_of_list(exprs: Seq<Expr>, n: nat) -> nat
    decreases exprs, n,
{
    if n == 0 || n > exprs.len() {
        0
    } else {
        args_of_list(exprs, (n - 1) as nat) + args_of(exprs[n - 1])
    }
}

/// The number of binary sub-expressions of an expression.
pub open spec fn binaries_of(expr: Expr) -> nat
    decreases expr,
{
    match expr {
        Expr::Binary(expr_bin) => 1 + binaries_of(*expr_bin.lhs) + binaries_of(*expr_bin.rhs),
        Expr::Call(ExprCall::Fn(call)) => binaries_of_list(
            call.args.args@,
            call.args.args@.len(),
        ),
        _ => 0,
    }
}

/// The number of binary sub-expressions of the first `n` of `exprs`.
pub open spec fn binaries_of_list(exprs: Seq<Expr>, n: nat) -> nat
    decreases exprs, n,
{
    if n == 0 || n > exprs.len() {
        0
    } else {
        binaries_of_list(exprs, (n - 1) as nat) + binaries_of(exprs[n - 1])
    }
}

/// The expression of a statement.
pub open spec fn expr_of(stmt: Stmt) -> Expr {
    match stmt {
        Stmt::Local(local) => local.expr,
        Stmt::Expr(expr) => expr,
        Stmt::Return(ret) => ret.expr,
    }
}

/// The number of arguments that the calls in the first `n` statements hand over.
pub open spec fn args_of_stmts(stmts: Seq<Stmt>, n: nat) -> nat
    decreases n,
{
    if n == 0 || n > stmts.len() {
        0
    } else {
        args_of_stmts(stmts, (n - 1) as nat) + args_of(expr_of(stmts[n - 1]))
    }
}

/// The number of binary sub-expressions in the first `n` statements.
pub open spec fn binaries_of_stmts(stmts: Seq<Stmt>, n: nat) -> nat
    decreases n,
{
    if n == 0 || n > stmts.len() {
        0
    } else {
        binaries_of_stmts(stmts, (n - 1) as nat) + binaries_of(expr_of(stmts[n - 1]))
    }
}

/// Appending an instruction adds it to the counts.
pub proof fn lemma_count_push(instrs: Seq<Instr>, instr: Instr)
    ensures
        params_in(instrs.push(instr)) == params_in(instrs) + if instr is Param {
            1nat
        } else {
            0nat
        },
        binaries_in(instrs.push(instr)) == binaries_in(instrs) + if instr is Binary {
            1nat
        } else {
            0nat
        },
{
    assert(instrs.push(instr).drop_last() =~= instrs);
}

/// Replacing an instruction by one of the same kind leaves the counts as they were.
pub proof fn lemma_count_update(instrs: Seq<Instr>, at: int, instr: Instr)
    requires
        0 <= at < instrs.len(),
        (instr is Param) == (instrs[at] is Param),
        (instr is Binary) == (instrs[at] is Binary),
    ensures
        params_in(instrs.update(at, instr)) == params_in(instrs),
        binaries_in(instrs.update(at, instr)) == binaries_in(instrs),
    decreases instrs.len(),
{
    let updated = instrs.update(at, instr);
    if at == instrs.len() - 1 {
        assert(updated.drop_last() =~= instrs.drop_last());
    } else {
        lemma_count_update(instrs.drop_last(), at, instr);
        assert(updated.drop_last() =~= instrs.drop_last().update(at, instr));
    }
}

/// Lowering an expression emits one `param` for each argument of each call
/// in it, and one binary instruction for each binary sub-expression.
pub proof fn lemma_expr_counts(s: LowerState, expr: Expr)
    requires
        state_wf(s),
    ensures
        match lower_expr(s, expr) {
            Ok(after) => {
                &&& params_in(after.instrs) == params_in(s.instrs) + args_of(expr)
                &&& binaries_in(after.instrs) == binaries_in(s.instrs) + binaries_of(expr)
            },
            Err(_) => true,
        },
    decreases expr,
{
    match expr {
        Expr::Binary(expr_bin) => {
            lemma_lower_expr(s, *expr_bin.lhs);
            lemma_expr_counts(s, *expr_bin.lhs);
            if let Ok(left) = lower_expr(s, *expr_bin.lhs) {
                lemma_expr_counts(left, *expr_bin.rhs);
                if let Ok(right) = lower_expr(left, *expr_bin.rhs) {
                    lemma_count_push(
                        right.instrs,
                        Instr::Binary(
                            BinInstr {
                                label: None,
                                da: right.temp(),
                                la: left.result(),
                                op: lower_op(expr_bin.op.kind),
                                ra: right.result(),
                            },
                        ),
                    );
                }
            }
        },
        Expr::Call(ExprCall::Fn(call)) => {
            lemma_args_counts(s, call.args.args@, call.args.args@.len());
            if let Ok(after) = lower_args(s, call.args.args@, call.args.args@.len()) {
                if let Some(label) = lookup(after.fns, call.ident.repr@) {
                    lemma_count_push(after.instrs, lower_expr(s, expr)->Ok_0.instrs.last());
                    assert(lower_expr(s, expr)->Ok_0.instrs.drop_last() =~= after.instrs);
                }
            }
        },
        Expr::Ident(ident) => {
            if let Some(index) = lookup(s.names, ident.repr@) {
                lemma_count_push(
                    s.instrs,
                    Instr::Copy(CopyInstr { label: None, da: s.temp(), ad: Addr::Name(index) }),
                );
            }
        },
        Expr::Lit(ExprLit::Num(lit_num)) => {
            let (ints, index) = intern(s.ints, lit_num.value);
            lemma_count_push(
                s.instrs,
                Instr::Copy(
                    CopyInstr { label: None, da: s.temp(), ad: Addr::Const(index as Index) },
                ),
            );
        },
        Expr::Struct(_) => {},
    }
}

/// Lowering the arguments of a call emits exactly one `param` for each
/// argument, besides those of the calls inside the arguments.
pub proof fn lemma_args_counts(s: LowerState, args: Seq<Expr>, n: nat)
    requires
        state_wf(s),
        n <= args.len(),
    ensures
        match lower_args(s, args, n) {
            Ok(after) => {
                &&& params_in(after.instrs) == params_in(s.instrs) + n + args_of_list(args, n)
                &&& binaries_in(after.instrs) == binaries_in(s.instrs) + binaries_of_list(args, n)
            },
            Err(_) => true,
        },
    decreases args, n,
{
    if n > 0 {
        lemma_args_counts(s, args, (n - 1) as nat);
        lemma_lower_args(s, args, (n - 1) as nat);
        if let Ok(before) = lower_args(s, args, (n - 1) as nat) {
            lemma_expr_counts(before, args[n - 1]);
            if let Ok(after) = lower_expr(before, args[n - 1]) {
                lemma_count_push(after.instrs, lower_args(s, args, n)->Ok_0.instrs.last());
                assert(lower_args(s, args, n)->Ok_0.instrs.drop_last() =~= after.instrs);
            }
        }
    }
}

/// Lowering statements emits one `param` for each argument of each call in
/// them, and one binary instruction for each binary sub-expression.
pub proof fn lemma_stmts_counts(s: LowerState, stmts: Seq<Stmt>, n: nat)
    requires
        state_wf(s),
        n <= stmts.len(),
    ensures
        match lower_stmts(s, stmts, n) {
            Ok(after) => {
                &&& params_in(after.instrs) == params_in(s.instrs) + args_of_stmts(stmts, n)
                &&& binaries_in(after.instrs) == binaries_in(s.instrs) + binaries_of_stmts(
                    stmts,
                    n,
                )
            },
            Err(_) => true,
        },
    decreases n,
{
    if n > 0 {
        lemma_stmts_counts(s, stmts, (n - 1) as nat);
        lemma_lower_stmts(s, stmts, (n - 1) as nat);
        if let Ok(before) = lower_stmts(s, stmts, (n - 1) as nat) {
            let stmt = stmts[n - 1];
            lemma_expr_counts(before, expr_of(stmt));
            if let Ok(after) = lower_stmt(before, stmt) {
                let mid = lower_expr(before, expr_of(stmt))->Ok_0;
                lemma_count_push(mid.instrs, after.instrs.last());
                assert(after.instrs.drop_last() =~= mid.instrs);
            }
        }
    }
}

/// Lowering a function whose calls hand over `n` arguments in all and which
/// has `m` binary sub-expressions emits exactly `n` `param` instructions and
/// exactly `m` binary instructions, and no two instructions of the resulting
/// code write to the same temporary.
pub proof fn lemma_function_counts(s: LowerState, item_fn: ItemFn)
    requires
        state_wf(s),
    ensures
        match lower_item_fn(s, item_fn) {
            Ok(after) => {
                &&& params_in(after.instrs) == params_in(s.instrs) + args_of_stmts(
                    item_fn.body.stmts@,
                    item_fn.body.stmts@.len(),
                )
                &&& binaries_in(after.instrs) == binaries_in(s.instrs) + binaries_of_stmts(
                    item_fn.body.stmts@,
                    item_fn.body.stmts@.len(),
                )
                &&& after.instrs.len() <= usize::MAX ==> distinct_temps(after.instrs)
            },
            Err(_) => true,
        },
{
    let name = item_fn.ident.repr@;
    let stmts = item_fn.body.stmts@;
    let declared = declare_fn(s, name);
    lemma_declare_fn(s, name);
    lemma_enter_scope(declared);
    let inside = LowerState { names: enter(s.names), ..declared };
    lemma_lower_stmts(inside, stmts, stmts.len());
    lemma_stmts_counts(inside, stmts, stmts.len());
    lemma_lower_item_fn(s, item_fn);
    if let Ok(body) = lower_stmts(inside, stmts, stmts.len()) {
        let filled = if body.instrs.len() == s.instrs.len() {
            body.emit_temp(placeholder(body))
        } else {
            body
        };
        if body.instrs.len() == s.instrs.len() {
            lemma_count_push(body.instrs, placeholder(body));
        }
        let start = s.instrs.len() as int;
        lemma_count_update(
            filled.instrs,
            start,
            filled.instrs[start].with_label(Some(label_of(s, name))),
        );
        let after = lower_item_fn(s, item_fn)->Ok_0;
        if after.instrs.len() <= usize::MAX {
            lemma_distinct_temps(after);
        }
    }
}

/// Whether no two instructions write to the same temporary.
pub open spec fn distinct_temps(instrs: Seq<Instr>) -> bool {
    forall|i: int, j: int|
        #![trigger instrs[i], instrs[j]]
        0 <= i < instrs.len() && 0 <= j < instrs.len() && i != j && temp_dest(instrs[i]) is Some
            ==> temp_dest(instrs[i]) != temp_dest(instrs[j])
}

/// In the code of a well-formed state that fits into memory no temporary is
/// written twice.
pub proof fn lemma_distinct_temps(s: LowerState)
    requires
        state_wf(s),
        s.instrs.len() <= usize::MAX,
    ensures
        distinct_temps(s.instrs),
{
    assert forall|i: int, j: int|
        #![trigger s.instrs[i], s.instrs[j]]
        0 <= i < s.instrs.len() && 0 <= j < s.instrs.len() && i != j && temp_dest(
            s.instrs[i],
        ) is Some implies temp_dest(s.instrs[i]) != temp_dest(s.instrs[j]) by {
        if temp_dest(s.instrs[j]) is Some {
            if i < j {
                assert(temp_dest(s.instrs[i])->0 < temp_dest(s.instrs[j])->0);
            } else {
                assert(temp_dest(s.instrs[j])->0 < temp_dest(s.instrs[i])->0);
            }
        }
    }
}

/// A `let` that binds the sum or product of two literals, followed by a
/// `return` of the bound name, is lowered to six instructions: each literal
/// is copied from its constant into a fresh temporary, a binary instruction
/// combines the two temporaries into a third, a copy binds a fresh name to
/// it, and the value of that name, copied to one more temporary, is returned.
pub proof fn lemma_let_then_return(s: LowerState, local: Local, ret: Return)
    requires
        state_wf(s),
        s.instrs.len() + 6 <= usize::MAX,
        local.expr matches Expr::Binary(sum) && *sum.lhs is Lit && *sum.rhs is Lit,
        ret.expr matches Expr::Ident(ident) && ident.repr@ == local.ident.repr@,
    ensures
        ({
            let sum = local.expr->Binary_0;
            let a = (*sum.lhs)->Lit_0->Num_0.value;
            let b = (*sum.rhs)->Lit_0->Num_0.value;
            let (ints_a, ca) = intern(s.ints, a);
            let (ints, cb) = intern(ints_a, b);
            let t = s.next_temp as Index;
            let x = s.next_name as Index;
            &&& lower_stmt(s, Stmt::Local(local)) is Ok
            &&& lower_stmt(lower_stmt(s, Stmt::Local(local))->Ok_0, Stmt::Return(ret)) is Ok
            &&& lower_stmt(lower_stmt(s, Stmt::Local(local))->Ok_0, Stmt::Return(ret))->Ok_0
                == (LowerState {
                instrs: s.instrs + seq![
                    Instr::Copy(
                        CopyInstr { label: None, da: Addr::Temp(t), ad: Addr::Const(ca as Index) },
                    ),
                    Instr::Copy(
                        CopyInstr {
                            label: None,
                            da: Addr::Temp((t + 1) as Index),
                            ad: Addr::Const(cb as Index),
                        },
                    ),
                    Instr::Binary(
                        BinInstr {
                            label: None,
                            da: Addr::Temp((t + 2) as Index),
                            la: Addr::Temp(t),
                            op: lower_op(sum.op.kind),
                            ra: Addr::Temp((t + 1) as Index),
                        },
                    ),
                    Instr::Copy(
                        CopyInstr {
                            label: None,
                            da: Addr::Name(x),
                            ad: Addr::Temp((t + 2) as Index),
                        },
                    ),
                    Instr::Copy(
                        CopyInstr {
                            label: None,
                            da: Addr::Temp((t + 3) as Index),
                            ad: Addr::Name(x),
                        },
                    ),
                    Instr::Return(RetInstr { label: None, ad: Addr::Temp((t + 3) as Index) }),
                ],
                names: bind(s.names, local.ident.repr@, x),
                next_name: s.next_name + 1,
                ints,
                next_temp: s.next_temp + 4,
                ..s
            })
        }),
{
    let sum = local.expr->Binary_0;
    let a = (*sum.lhs)->Lit_0->Num_0.value;
    let b = (*sum.rhs)->Lit_0->Num_0.value;
    let (ints_a, ca) = intern(s.ints, a);
    let (ints, cb) = intern(ints_a, b);
    lemma_intern_index(s.ints, a);
    lemma_intern_index(ints_a, b);
    let left = lower_expr(s, *sum.lhs)->Ok_0;
    assert(lower_expr(s, *sum.lhs) is Ok);
    let right = lower_expr(left, *sum.rhs)->Ok_0;
    assert(lower_expr(left, *sum.rhs) is Ok);
    let bound = lower_stmt(s, Stmt::Local(local))->Ok_0;
    assert(lower_expr(s, local.expr) is Ok);
    lemma_lookup_bind_same(lower_expr(s, local.expr)->Ok_0.names, local.ident.repr@, s.next_name as Index);
    let done = lower_stmt(bound, Stmt::Return(ret))->Ok_0;
    assert(lower_expr(bound, ret.expr) is Ok);
    let n = s.instrs.len() as int;
    assert(done.instrs =~= s.instrs + seq![
        done.instrs[n],
        done.instrs[n + 1],
        done.instrs[n + 2],
        done.instrs[n + 3],
        done.instrs[n + 4],
        done.instrs[n + 5],
    ]);
}

} // verus!
