use vstd::prelude::*;

use super::instr::{Addr, BinInstr, CallInstr, CopyInstr, Instr, Label, Op, ParamInstr, RetInstr};
use super::mapper::Mapper;
use super::model::{
    declare_fn, declare_fns, fns_declared, lemma_declare_fn, lemma_declare_fns,
    lemma_enter_scope, lemma_initial_wf, lemma_lower_args, lemma_lower_expr,
    lemma_lower_item_fn, lemma_lower_items, lemma_lower_stmt, lemma_lower_stmts, lower_args,
    lower_expr, lower_file, lower_item_fn, lower_items, lower_stmt, lower_stmts, state_wf,
    Failure, LowerErrorKind, LowerState,
};
use super::table::{enter, lookup};
use super::IRRoot;
use crate::ast::{ArgList, Block, Expr, ExprCall, ExprLit, File, Item, ItemFn, OpKind, Stmt};
use crate::shared::pool::Pool;
use crate::shared::span::Span;
use crate::shared::Index;
use crate::text::concat3;

verus! {

broadcast use vstd::std_specs::hash::group_hash_axioms;

/// The text that explains a failure of lowering.
pub open spec fn failure_reason(failure: Failure) -> Seq<char> {
    match failure.kind {
        LowerErrorKind::UnresolvedName => "Cannot find '"@ + failure.name + "' in this scope"@,
        LowerErrorKind::UndefinedFunction => "Undefined function '"@ + failure.name + "'"@,
        LowerErrorKind::UnsupportedExpr => "Cannot lower the struct literal '"@ + failure.name
            + "'"@,
    }
}

/// Represents an error that occurred during lowering.
#[derive(Debug)]
pub struct LowerError {
    /// The kind of this error.
    pub kind: LowerErrorKind,
    /// The cause of this error.
    pub reason: String,
    /// The (optional) span of this error.
    pub span: Option<Span>,
}

impl LowerError {
    /// Whether this error reports `failure`.
    pub open spec fn describes(&self, failure: Failure) -> bool {
        &&& self.kind == failure.kind
        &&& self.span == Some(failure.span)
        &&& self.reason@ == failure_reason(failure)
    }

    /// The error for a failure of the given kind, caused by `name` at `span`.
    fn new(kind: LowerErrorKind, name: &str, span: Span) -> (error: Self)
        ensures
            error.describes(Failure { kind, name: name@, span }),
    {
        let reason = match kind {
            LowerErrorKind::UnresolvedName => concat3("Cannot find '", name, "' in this scope"),
            LowerErrorKind::UndefinedFunction => concat3("Undefined function '", name, "'"),
            LowerErrorKind::UnsupportedExpr => concat3(
                "Cannot lower the struct literal '",
                name,
                "'",
            ),
        };
        LowerError { kind, reason, span: Some(span) }
    }
}

/// Groups pools for various literals into one central pool.
pub struct LoweringPool<'a> {
    /// The integer interner.
    pub integers: Pool<i32>,
    /// The boolean interner.
    pub booleans: Pool<bool>,
    /// The string interner.
    pub strings: Pool<&'a str>,
}

impl<'a> LoweringPool<'a> {
    /// Create an empty lowering pool.
    pub fn new() -> (pool: Self)
        ensures
            pool.integers.wf(),
            pool.booleans.wf(),
            pool.strings.wf(),
            pool.integers@ == Seq::<i32>::empty(),
            pool.booleans@ == Seq::<bool>::empty(),
            pool.strings@ == Seq::<&'a str>::empty(),
    {
        LoweringPool { integers: Pool::new(), booleans: Pool::new(), strings: Pool::new() }
    }
}

/// Lowers an abstract syntax tree for an entire program to the intermediate representation.
pub struct LoweringEngine<'a> {
    /// The source abstract syntax tree.
    ast: &'a File,
    /// The generated instructions.
    instrs: Vec<Instr>,
    /// Map from names to their indices.
    name_map: Mapper,
    /// Map from functions to their labels.
    fn_map: Mapper,
    /// The lowering pool.
    pool: LoweringPool<'a>,
    /// The next available temporary address.
    next_temp: Index,
}

impl<'a> LoweringEngine<'a> {
    /// The state of the run as plain values.
    pub closed spec fn state(&self) -> LowerState {
        LowerState {
            instrs: self.instrs@,
            names: self.name_map.scopes(),
            next_name: self.name_map.spec_next() as nat,
            fns: self.fn_map.scopes(),
            next_fn: self.fn_map.spec_next() as nat,
            ints: self.pool.integers@,
            next_temp: self.next_temp as nat,
        }
    }

    /// The syntax tree that this engine lowers.
    pub closed spec fn ast(&self) -> &'a File {
        self.ast
    }

    /// The state is well formed and the literal pool is consistent.
    pub closed spec fn wf(&self) -> bool {
        &&& state_wf(self.state())
        &&& self.pool.integers.wf()
        &&& self.pool.booleans.wf()
        &&& self.pool.strings.wf()
        &&& self.pool.booleans@ == Seq::<bool>::empty()
        &&& self.pool.strings@ == Seq::<&'a str>::empty()
    }

    /// Create a new generator instance.
    pub fn new(ast: &'a File) -> (engine: Self)
        ensures
            engine.wf(),
            engine.ast() == ast,
            engine.state() == LowerState::initial(),
    {
        proof {
            lemma_initial_wf();
        }
        LoweringEngine {
            ast,
            instrs: Vec::new(),
            name_map: Mapper::new(),
            fn_map: Mapper::new(),
            pool: LoweringPool::new(),
            next_temp: 0,
        }
    }

    /// Generate IR for the whole syntax tree. Every function gets its label
    /// before any code is emitted, so a function can be called before it is
    /// declared. Lowering stops at the first name that cannot be resolved.
    pub fn lower(self) -> (ir: Result<IRRoot<'a>, LowerError>)
        requires
            self.wf(),
            self.state() == LowerState::initial(),
        ensures
            match lower_file(*self.ast()) {
                Ok(after) => ir is Ok && ir->Ok_0.wf() && ir->Ok_0.instrs@ == after.instrs
                    && ir->Ok_0.interner.integers@ == after.ints && ir->Ok_0.label_count
                    == after.next_fn && ir->Ok_0.interner.booleans@ == Seq::<bool>::empty()
                    && ir->Ok_0.interner.strings@ == Seq::<&'a str>::empty(),
                Err(failure) => ir is Err && ir->Err_0.describes(failure),
            },
    {
        let mut engine = self;
        let ast = engine.ast;
        let mut i: usize = 0;
        while i < ast.items.len()
            invariant
                i <= ast.items.len(),
                engine.wf(),
                engine.ast == ast,
                ast == self.ast,
                engine.state() == declare_fns(LowerState::initial(), ast.items@, i as nat),
            decreases ast.items.len() - i,
        {
            proof {
                lemma_initial_wf();
                lemma_declare_fns(LowerState::initial(), ast.items@, i as nat);
            }
            match &ast.items[i] {
                Item::Fn(item_fn) => {
                    engine.declare(item_fn.ident.repr.as_str());
                },
                _ => {},
            }
            i = i + 1;
        }
        let ghost declared = engine.state();
        proof {
            lemma_initial_wf();
            lemma_declare_fns(LowerState::initial(), ast.items@, ast.items@.len());
        }
        let mut i: usize = 0;
        while i < ast.items.len()
            invariant
                i <= ast.items.len(),
                engine.wf(),
                engine.ast == ast,
                ast == self.ast,
                state_wf(declared),
                declared == declare_fns(LowerState::initial(), ast.items@, ast.items@.len()),
                fns_declared(declared, ast.items@, ast.items@.len()),
                lower_items(declared, ast.items@, i as nat) == Ok::<LowerState, Failure>(
                    engine.state(),
                ),
            decreases ast.items.len() - i,
        {
            proof {
                lemma_lower_items(declared, ast.items@, i as nat);
            }
            match &ast.items[i] {
                Item::Fn(item_fn) => {
                    assert(ast.items@[i as int] is Fn);
                    if let Err(error) = engine.visit_item_fn(item_fn) {
                        proof {
                            lemma_items_fail(
                                declared,
                                ast.items@,
                                (i + 1) as nat,
                                ast.items@.len(),
                            );
                        }
                        return Err(error);
                    }
                },
                _ => {},
            }
            i = i + 1;
        }
        proof {
            lemma_lower_items(declared, ast.items@, ast.items@.len());
        }
        Ok(
            IRRoot {
                label_count: engine.fn_map.next(),
                interner: engine.pool,
                instrs: engine.instrs,
            },
        )
    }

    /// Give the function called `name` its label: the one it has already,
    /// or else the next free one.
    fn declare(&mut self, name: &str) -> (label: Index)
        requires
            old(self).wf(),
            lookup(old(self).state().fns, name@) is Some || old(self).state().next_fn
                < usize::MAX,
        ensures
            final(self).wf(),
            final(self).ast == old(self).ast,
            final(self).state() == declare_fn(old(self).state(), name@),
            lookup(final(self).state().fns, name@) == Some(label),
    {
        proof {
            lemma_declare_fn(old(self).state(), name@);
        }
        match self.fn_map.find(name) {
            Ok(label) => label,
            Err(_) => self.fn_map.insert(name),
        }
    }

    /// Append `instr` and return its position.
    fn emit(&mut self, instr: Instr) -> (index: Index)
        ensures
            final(self).state() == old(self).state().emit(instr),
            final(self).ast == old(self).ast,
            final(self).pool == old(self).pool,
            index == old(self).state().instrs.len(),
            index < usize::MAX,
    {
        let index = self.instrs.len();
        self.instrs.push(instr);
        // The new length fits in a `usize`, so the position lies below its maximum
        let _ = self.instrs.len();
        index
    }

    /// Get the next free temporary address.
    fn temp(&mut self) -> (index: Index)
        requires
            old(self).next_temp < usize::MAX,
        ensures
            index == old(self).state().next_temp,
            final(self).state() == (LowerState {
                next_temp: old(self).state().next_temp + 1,
                ..old(self).state()
            }),
            final(self).ast == old(self).ast,
            final(self).pool == old(self).pool,
    {
        let index = self.next_temp;
        self.next_temp = self.next_temp + 1;
        index
    }

    /// Append `instr`, which writes to the next free temporary, take that
    /// temporary and return the position of the instruction.
    fn emit_temp(&mut self, instr: Instr) -> (index: Index)
        requires
            old(self).state().next_temp <= old(self).state().instrs.len(),
        ensures
            final(self).state() == old(self).state().emit_temp(instr),
            final(self).ast == old(self).ast,
            final(self).pool == old(self).pool,
            index == old(self).state().instrs.len(),
    {
        let index = self.emit(instr);
        let _ = self.temp();
        index
    }

    /// Generate instructions from an expression, which may need to be broken
    /// down first. Returns the position of the instruction whose destination
    /// holds the value of the expression.
    fn process_expr(&mut self, expr: &Expr) -> (lowered: Result<Index, LowerError>)
        requires
            old(self).wf(),
        ensures
            final(self).ast == old(self).ast,
            match lower_expr(old(self).state(), *expr) {
                Ok(after) => lowered is Ok && lowered->Ok_0 == after.instrs.len() - 1
                    && final(self).state() == after && final(self).wf(),
                Err(failure) => lowered is Err && lowered->Err_0.describes(failure),
            },
        decreases *expr,
    {
        proof {
            lemma_lower_expr(old(self).state(), *expr);
        }
        match expr {
            Expr::Binary(expr_bin) => {
                // Generate an instruction for the left, getting its index
                let li = self.process_expr(&expr_bin.lhs)?;
                let ghost left = self.state();
                proof {
                    lemma_lower_expr(old(self).state(), *expr_bin.lhs);
                    lemma_lower_expr(left, *expr_bin.rhs);
                }
                // Generate an instruction for the right, getting its index
                let ri = self.process_expr(&expr_bin.rhs)?;
                let op = match expr_bin.op.kind {
                    OpKind::Add => Op::Plus,
                    OpKind::Multiply => Op::Mult,
                };
                assert(self.instrs@[li as int] == left.instrs[li as int]);
                let la = *self.instrs[li].da();
                let ra = *self.instrs[ri].da();
                let da = Addr::Temp(self.next_temp);
                // Create a new instruction and return its index
                Ok(self.emit_temp(Instr::Binary(BinInstr { label: None, da, la, op, ra })))
            },
            Expr::Call(expr_call) => match expr_call {
                ExprCall::Fn(call) => {
                    proof {
                        lemma_lower_args(
                            old(self).state(),
                            call.args.args@,
                            call.args.args@.len(),
                        );
                    }
                    // First, we need to add a parameter instruction for every argument passed to this function
                    self.process_args(&call.args)?;
                    let fl = match self.fn_map.find(call.ident.repr.as_str()) {
                        Ok(label) => Label(label),
                        Err(_) => {
                            return Err(
                                LowerError::new(
                                    LowerErrorKind::UndefinedFunction,
                                    call.ident.repr.as_str(),
                                    call.ident.span,
                                ),
                            );
                        },
                    };
                    let da = Addr::Temp(self.next_temp);
                    Ok(
                        self.emit_temp(
                            Instr::Call(CallInstr { label: None, da, fl, n: call.args.len() }),
                        ),
                    )
                },
            },
            Expr::Ident(ident) => {
                let index = match self.name_map.find(ident.repr.as_str()) {
                    Ok(index) => index,
                    Err(_) => {
                        return Err(
                            LowerError::new(
                                LowerErrorKind::UnresolvedName,
                                ident.repr.as_str(),
                                ident.span,
                            ),
                        );
                    },
                };
                let da = Addr::Temp(self.next_temp);
                let ad = Addr::Name(index);
                Ok(self.emit_temp(Instr::Copy(CopyInstr { label: None, da, ad })))
            },
            Expr::Lit(expr_lit) => match expr_lit {
                ExprLit::Num(lit_num) => {
                    let index = self.pool.integers.insert(lit_num.value);
                    let da = Addr::Temp(self.next_temp);
                    let ad = Addr::Const(index);
                    Ok(self.emit_temp(Instr::Copy(CopyInstr { label: None, da, ad })))
                },
            },
            Expr::Struct(expr_struct) => Err(
                LowerError::new(
                    LowerErrorKind::UnsupportedExpr,
                    expr_struct.ident.repr.as_str(),
                    expr_struct.span,
                ),
            ),
        }
    }

    /// Lower every argument of a call, left to right, and hand each over with
    /// a `param` instruction.
    fn process_args(&mut self, args: &ArgList) -> (lowered: Result<(), LowerError>)
        requires
            old(self).wf(),
        ensures
            final(self).ast == old(self).ast,
            match lower_args(old(self).state(), args.args@, args.args@.len()) {
                Ok(after) => lowered is Ok && final(self).state() == after && final(self).wf(),
                Err(failure) => lowered is Err && lowered->Err_0.describes(failure),
            },
        decreases *args,
    {
        let mut i: usize = 0;
        while i < args.args.len()
            invariant
                i <= args.args.len(),
                old(self).wf(),
                self.wf(),
                self.ast == old(self).ast,
                lower_args(old(self).state(), args.args@, i as nat) == Ok::<LowerState, Failure>(
                    self.state(),
                ),
            decreases args.args.len() - i,
        {
            let ghost before = self.state();
            proof {
                lemma_lower_expr(before, args.args@[i as int]);
            }
            // Generate an instruction for the expression, getting its index
            let index = match self.process_expr(&args.args[i]) {
                Ok(index) => index,
                Err(error) => {
                    proof {
                        lemma_args_fail(
                            old(self).state(),
                            args.args@,
                            (i + 1) as nat,
                            args.args@.len(),
                        );
                    }
                    return Err(error);
                },
            };
            // Get the destination address of this expression
            let ad = *self.instrs[index].da();
            // Use the destination address in the parameter instruction
            self.emit(Instr::Param(ParamInstr { label: None, ad }));
            proof {
                lemma_lower_args(old(self).state(), args.args@, (i + 1) as nat);
            }
            i = i + 1;
        }
        Ok(())
    }

    /// Lower one statement.
    fn visit_stmt(&mut self, stmt: &Stmt) -> (lowered: Result<(), LowerError>)
        requires
            old(self).wf(),
        ensures
            final(self).ast == old(self).ast,
            match lower_stmt(old(self).state(), *stmt) {
                Ok(after) => lowered is Ok && final(self).state() == after && final(self).wf(),
                Err(failure) => lowered is Err && lowered->Err_0.describes(failure),
            },
    {
        proof {
            lemma_lower_stmt(old(self).state(), *stmt);
        }
        match stmt {
            Stmt::Local(local) => {
                proof {
                    lemma_lower_expr(old(self).state(), local.expr);
                }
                let i = self.process_expr(&local.expr)?;
                let ad = *self.instrs[i].da();
                let da = Addr::Name(self.name_map.next());
                self.emit(Instr::Copy(CopyInstr { label: None, da, ad }));
                let _ = self.name_map.insert(local.ident.repr.as_str());
            },
            Stmt::Expr(expr) => {
                proof {
                    lemma_lower_expr(old(self).state(), *expr);
                }
                let i = self.process_expr(expr)?;
                let ad = *self.instrs[i].da();
                let da = Addr::Temp(self.next_temp);
                self.emit_temp(Instr::Copy(CopyInstr { label: None, da, ad }));
            },
            Stmt::Return(ret) => {
                proof {
                    lemma_lower_expr(old(self).state(), ret.expr);
                }
                let i = self.process_expr(&ret.expr)?;
                let ad = *self.instrs[i].da();
                self.emit(Instr::Return(RetInstr::new(ad)));
            },
        };
        Ok(())
    }

    /// Lower the statements of a block, in order.
    fn visit_block(&mut self, block: &Block) -> (lowered: Result<(), LowerError>)
        requires
            old(self).wf(),
        ensures
            final(self).ast == old(self).ast,
            match lower_stmts(old(self).state(), block.stmts@, block.stmts@.len()) {
                Ok(after) => lowered is Ok && final(self).state() == after && final(self).wf(),
                Err(failure) => lowered is Err && lowered->Err_0.describes(failure),
            },
    {
        let mut i: usize = 0;
        while i < block.stmts.len()
            invariant
                i <= block.stmts.len(),
                self.wf(),
                self.ast == old(self).ast,
                lower_stmts(old(self).state(), block.stmts@, i as nat) == Ok::<
                    LowerState,
                    Failure,
                >(self.state()),
            decreases block.stmts.len() - i,
        {
            if let Err(error) = self.visit_stmt(&block.stmts[i]) {
                proof {
                    lemma_stmts_fail(
                        old(self).state(),
                        block.stmts@,
                        (i + 1) as nat,
                        block.stmts@.len(),
                    );
                }
                return Err(error);
            }
            i = i + 1;
        }
        Ok(())
    }

    /// Lower one function: give it its label, lower its body in a scope of
    /// its own and put the label on the first instruction of the body.
    fn visit_item_fn(&mut self, item_fn: &ItemFn) -> (lowered: Result<(), LowerError>)
        requires
            old(self).wf(),
            lookup(old(self).state().fns, item_fn.ident.repr@) is Some || old(
                self,
            ).state().next_fn < usize::MAX,
        ensures
            final(self).ast == old(self).ast,
            match lower_item_fn(old(self).state(), *item_fn) {
                Ok(after) => lowered is Ok && final(self).state() == after && final(self).wf(),
                Err(failure) => lowered is Err && lowered->Err_0.describes(failure),
            },
    {
        let ident = item_fn.ident.repr.as_str();
        proof {
            lemma_lower_item_fn(old(self).state(), *item_fn);
            lemma_declare_fn(old(self).state(), ident@);
        }
        // Convert the function name into a label
        let label = self.declare(ident);
        // Move the name mapper up a level
        self.name_map.up();
        // Take note of the next available instruction index
        let index = self.instrs.len();
        let ghost inside = self.state();
        assert(inside == (LowerState {
            names: enter(old(self).state().names),
            ..declare_fn(old(self).state(), ident@)
        }));
        assert(state_wf(inside)) by {
            lemma_enter_scope(declare_fn(old(self).state(), ident@));
        }
        proof {
            lemma_lower_stmts(inside, item_fn.body.stmts@, item_fn.body.stmts@.len());
        }
        // Process all the statements in this function declaration
        self.visit_block(&item_fn.body)?;
        if self.instrs.len() == index {
            // A body without statements: emit the placeholder
            let da = Addr::Temp(self.next_temp);
            self.emit_temp(Instr::Copy(CopyInstr { label: None, da, ad: da }));
        }
        // Add the function label to the first instruction of the body
        let mut first = self.instrs[index];
        first.set_label(Label(label));
        self.instrs.set(index, first);
        // Move the name mapper down a level
        let _ = self.name_map.down();
        Ok(())
    }
}

/// Once an argument fails, the call fails in the same way.
proof fn lemma_args_fail(s: LowerState, args: Seq<Expr>, n: nat, m: nat)
    requires
        0 < n <= m <= args.len(),
        lower_args(s, args, n) is Err,
    ensures
        lower_args(s, args, m) == lower_args(s, args, n),
    decreases m,
{
    if n < m {
        lemma_args_fail(s, args, n, (m - 1) as nat);
    }
}

/// Once a statement fails, the block fails in the same way.
proof fn lemma_stmts_fail(s: LowerState, stmts: Seq<Stmt>, n: nat, m: nat)
    requires
        0 < n <= m <= stmts.len(),
        lower_stmts(s, stmts, n) is Err,
    ensures
        lower_stmts(s, stmts, m) == lower_stmts(s, stmts, n),
    decreases m,
{
    if n < m {
        lemma_stmts_fail(s, stmts, n, (m - 1) as nat);
    }
}

/// Once a function fails, the file fails in the same way.
proof fn lemma_items_fail(s: LowerState, items: Seq<Item>, n: nat, m: nat)
    requires
        0 < n <= m <= items.len(),
        lower_items(s, items, n) is Err,
    ensures
        lower_items(s, items, m) == lower_items(s, items, n),
    decreases m,
{
    if n < m {
        lemma_items_fail(s, items, n, (m - 1) as nat);
    }
}

} // verus!
