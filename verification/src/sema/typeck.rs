use vstd::prelude::*;
use vstd::string::StringExecFns;

use crate::ast::{Block, Expr, ExprBin, ExprCall, ExprLit, ExprStruct, File, Ident, Item, ItemFn, Stmt};
use crate::ir::table::{bind, Scopes};
use crate::resolution::{resolve_fn, resolve_local, resolve_ty, Resolver, SymbolView, Type, TypeView};
use crate::shared::span::Span;
use crate::text::concat3;

verus! {

/// The kinds of type error.
#[derive(Debug, Clone, Copy, PartialEq, Eq, Structural)]
pub enum TypeCkErrorKind {
    /// A declared type name is no registered type.
    UnknownType,
    /// An identifier is used that is not bound to a local.
    UndefinedName,
    /// A function is called that was never collected.
    UndefinedFunction,
    /// The expression of a `let` has another type than the one declared.
    LocalTypeMismatch,
    /// The body of a function has another type than the declared return type.
    ReturnTypeMismatch,
    /// The two operands of a binary expression have different types.
    BinaryTypeMismatch,
}

/// A type error as plain values.
pub struct TypeFailure {
    pub kind: TypeCkErrorKind,
    pub reason: Seq<char>,
    pub span: Span,
}

/// Represents an error that occurred during type checking.
#[derive(Debug)]
pub struct TypeCkError {
    /// The kind of this error.
    pub kind: TypeCkErrorKind,
    /// The cause of this error.
    pub reason: String,
    /// The (optional) span of this error.
    pub span: Option<Span>,
}

impl TypeCkError {
    /// Whether this error reports `failure`.
    pub open spec fn describes(&self, failure: TypeFailure) -> bool {
        &&& self.kind == failure.kind
        &&& self.reason@ == failure.reason
        &&& self.span == Some(failure.span)
    }
}

/// Represents the result of type checking.
pub type TypeCkResult<T> = Result<T, TypeCkError>;

/// The failure for an identifier that is bound to no local.
pub open spec fn undefined_name(ident: Ident) -> TypeFailure {
    TypeFailure {
        kind: TypeCkErrorKind::UndefinedName,
        reason: "Cannot find '"@ + ident.repr@ + "' in this scope"@,
        span: ident.span,
    }
}

/// The failure for a call of a function that was never collected.
pub open spec fn undefined_function(ident: Ident) -> TypeFailure {
    TypeFailure {
        kind: TypeCkErrorKind::UndefinedFunction,
        reason: "Undefined function '"@ + ident.repr@ + "'"@,
        span: ident.span,
    }
}

/// The failure for a type name that is no registered type.
pub open spec fn unknown_type(name: Seq<char>, span: Span) -> TypeFailure {
    TypeFailure {
        kind: TypeCkErrorKind::UnknownType,
        reason: "Unknown type '"@ + name + "'"@,
        span,
    }
}

/// The failure for a `let` whose declared type is no registered type.
pub open spec fn missing_type(ident: Ident) -> TypeFailure {
    TypeFailure {
        kind: TypeCkErrorKind::UnknownType,
        reason: "The type '"@ + ident.repr@ + "' doesn't exist"@,
        span: ident.span,
    }
}

/// The failure for operands of different types.
pub open spec fn binary_mismatch(lhs: TypeView, rhs: TypeView, span: Span) -> TypeFailure {
    TypeFailure {
        kind: TypeCkErrorKind::BinaryTypeMismatch,
        reason: "Left hand side of binary expression has type '"@ + lhs.name()
            + "' but the right hand side has type '"@ + rhs.name() + "'"@,
        span,
    }
}

/// The failure for a `let` whose expression has another type than declared.
pub open spec fn local_mismatch(
    name: Seq<char>,
    expected: TypeView,
    actual: TypeView,
    span: Span,
) -> TypeFailure {
    TypeFailure {
        kind: TypeCkErrorKind::LocalTypeMismatch,
        reason: "The expression assigned to variable '"@ + name + "' must have type '"@
            + expected.name() + "' but it actually has type '"@ + actual.name() + "'"@,
        span,
    }
}

/// The failure for a body that has another type than the function returns.
pub open spec fn return_mismatch(expected: TypeView, actual: TypeView, span: Span) -> TypeFailure {
    TypeFailure {
        kind: TypeCkErrorKind::ReturnTypeMismatch,
        reason: "Function must return type '"@ + expected.name() + "' but type '"@
            + actual.name() + "' is returned instead"@,
        span,
    }
}

/// The type of an expression. A literal number is an `i32`; an identifier
/// has the type of the local it is bound to; a call has the return type of
/// the function, whatever its arguments are; a struct literal has the type
/// that its name is registered as; the operands of a binary expression must
/// have the same type, which is the type of the expression.
pub open spec fn check_expr(symbols: Scopes<SymbolView>, expr: Expr) -> Result<TypeView, TypeFailure>
    decreases expr,
{
    match expr {
        Expr::Binary(expr_bin) => match check_expr(symbols, *expr_bin.lhs) {
            Err(failure) => Err(failure),
            Ok(lhs) => match check_expr(symbols, *expr_bin.rhs) {
                Err(failure) => Err(failure),
                Ok(rhs) => if lhs.name() == rhs.name() {
                    Ok(lhs)
                } else {
                    Err(binary_mismatch(lhs, rhs, (*expr_bin.rhs).spec_span()))
                },
            },
        },
        Expr::Call(ExprCall::Fn(call)) => match resolve_fn(symbols, call.ident.repr@) {
            Some(ty) => Ok(ty),
            None => Err(undefined_function(call.ident)),
        },
        Expr::Ident(ident) => match resolve_local(symbols, ident.repr@) {
            Some(ty) => Ok(ty),
            None => Err(undefined_name(ident)),
        },
        Expr::Lit(ExprLit::Num(_)) => Ok(TypeView::int32()),
        Expr::Struct(expr_struct) => match resolve_ty(symbols, expr_struct.ident.repr@) {
            Some(ty) => Ok(ty),
            None => Err(unknown_type(expr_struct.ident.repr@, expr_struct.ident.span)),
        },
    }
}

/// The type of a statement and the symbols after it. A `let` whose
/// expression has the declared type registers its name as a local of that
/// type; the other statements have the type of their expression.
pub open spec fn check_stmt(symbols: Scopes<SymbolView>, stmt: Stmt) -> Result<
    (Scopes<SymbolView>, TypeView),
    TypeFailure,
> {
    match stmt {
        Stmt::Local(local) => match check_expr(symbols, local.expr) {
            Err(failure) => Err(failure),
            Ok(actual) => match resolve_ty(symbols, local.ty.ident.repr@) {
                None => Err(missing_type(local.ty.ident)),
                Some(expected) => if expected.name() == actual.name() {
                    Ok((bind(symbols, local.ident.repr@, SymbolView::Local(actual)), actual))
                } else {
                    Err(
                        local_mismatch(
                            local.ident.repr@,
                            expected,
                            actual,
                            local.expr.spec_span(),
                        ),
                    )
                },
            },
        },
        Stmt::Expr(expr) => match check_expr(symbols, expr) {
            Err(failure) => Err(failure),
            Ok(ty) => Ok((symbols, ty)),
        },
        Stmt::Return(ret) => match check_expr(symbols, ret.expr) {
            Err(failure) => Err(failure),
            Ok(ty) => Ok((symbols, ty)),
        },
    }
}

/// The type of the first `n` statements of a block and the symbols after
/// them: the type of the last of them, or the unit type if there is none.
/// The first statement that fails makes the block fail.
pub open spec fn check_stmts(symbols: Scopes<SymbolView>, stmts: Seq<Stmt>, n: nat) -> Result<
    (Scopes<SymbolView>, TypeView),
    TypeFailure,
>
    decreases n,
{
    if n == 0 || n > stmts.len() {
        Ok((symbols, TypeView::unit()))
    } else {
        match check_stmts(symbols, stmts, (n - 1) as nat) {
            Err(failure) => Err(failure),
            Ok((before, _)) => check_stmt(before, stmts[n - 1]),
        }
    }
}

/// The symbols after a function is checked: its declared return type must
/// be registered and must be the type of its body.
pub open spec fn check_item_fn(symbols: Scopes<SymbolView>, item_fn: ItemFn) -> Result<
    Scopes<SymbolView>,
    TypeFailure,
> {
    match resolve_ty(symbols, item_fn.ty.ident.repr@) {
        None => Err(unknown_type(item_fn.ty.ident.repr@, item_fn.ty.span)),
        Some(expected) => match check_stmts(
            symbols,
            item_fn.body.stmts@,
            item_fn.body.stmts@.len(),
        ) {
            Err(failure) => Err(failure),
            Ok((after, actual)) => if expected.name() == actual.name() {
                Ok(after)
            } else {
                Err(return_mismatch(expected, actual, item_fn.ty.span))
            },
        },
    }
}

/// The symbols after the functions among the first `n` items are checked,
/// in order. The first function that fails makes the file fail.
pub open spec fn check_items(symbols: Scopes<SymbolView>, items: Seq<Item>, n: nat) -> Result<
    Scopes<SymbolView>,
    TypeFailure,
>
    decreases n,
{
    if n == 0 || n > items.len() {
        Ok(symbols)
    } else {
        match check_items(symbols, items, (n - 1) as nat) {
            Err(failure) => Err(failure),
            Ok(before) => match items[n - 1] {
                Item::Fn(item_fn) => check_item_fn(before, item_fn),
                _ => Ok(before),
            },
        }
    }
}

/// A call of a function that the symbols do not hold fails as undefined,
/// whatever its arguments are.
pub proof fn lemma_undeclared_call_fails(symbols: Scopes<SymbolView>, expr: Expr)
    requires
        expr matches Expr::Call(ExprCall::Fn(call)) && resolve_fn(symbols, call.ident.repr@)
            is None,
    ensures
        check_expr(symbols, expr) is Err,
        check_expr(symbols, expr)->Err_0.kind == TypeCkErrorKind::UndefinedFunction,
        check_expr(symbols, expr)->Err_0 == undefined_function(expr->Call_0->Fn_0.ident),
{
}

/// A sum or a product of two literal numbers is an `i32`, whatever the symbols are.
pub proof fn lemma_literals_make_an_i32(symbols: Scopes<SymbolView>, expr: Expr)
    requires
        expr matches Expr::Binary(expr_bin) && *expr_bin.lhs is Lit && *expr_bin.rhs is Lit,
    ensures
        check_expr(symbols, expr) == Ok::<TypeView, TypeFailure>(TypeView::int32()),
{
    let expr_bin = expr->Binary_0;
    assert(check_expr(symbols, *expr_bin.lhs) == Ok::<TypeView, TypeFailure>(TypeView::int32()));
    assert(check_expr(symbols, *expr_bin.rhs) == Ok::<TypeView, TypeFailure>(TypeView::int32()));
}

/// A function whose body checks out is accepted exactly when the type of
/// its body has the name of its declared return type; otherwise it fails
/// with a return type mismatch.
pub proof fn lemma_return_type_must_match(symbols: Scopes<SymbolView>, item_fn: ItemFn)
    requires
        resolve_ty(symbols, item_fn.ty.ident.repr@) is Some,
        check_stmts(symbols, item_fn.body.stmts@, item_fn.body.stmts@.len()) is Ok,
    ensures
        ({
            let expected = resolve_ty(symbols, item_fn.ty.ident.repr@)->0;
            let actual = check_stmts(
                symbols,
                item_fn.body.stmts@,
                item_fn.body.stmts@.len(),
            )->Ok_0.1;
            if expected.name() == actual.name() {
                check_item_fn(symbols, item_fn) is Ok
            } else {
                check_item_fn(symbols, item_fn) is Err && check_item_fn(symbols, item_fn)->Err_0
                    == return_mismatch(expected, actual, item_fn.ty.span)
                    && check_item_fn(symbols, item_fn)->Err_0.kind
                    == TypeCkErrorKind::ReturnTypeMismatch
            }
        }),
{
}

/// Once a statement fails, the block fails in the same way.
proof fn lemma_stmts_fail(symbols: Scopes<SymbolView>, stmts: Seq<Stmt>, n: nat, m: nat)
    requires
        0 < n <= m <= stmts.len(),
        check_stmts(symbols, stmts, n) is Err,
    ensures
        check_stmts(symbols, stmts, m) == check_stmts(symbols, stmts, n),
    decreases m,
{
    if n < m {
        lemma_stmts_fail(symbols, stmts, n, (m - 1) as nat);
    }
}

/// Once a function fails, the file fails in the same way.
proof fn lemma_items_fail(symbols: Scopes<SymbolView>, items: Seq<Item>, n: nat, m: nat)
    requires
        0 < n <= m <= items.len(),
        check_items(symbols, items, n) is Err,
    ensures
        check_items(symbols, items, m) == check_items(symbols, items, n),
    decreases m,
{
    if n < m {
        lemma_items_fail(symbols, items, n, (m - 1) as nat);
    }
}

/// The text `a b c d e`, each part following the one before it.
fn concat5(a: &str, b: &str, c: &str, d: &str, e: &str) -> (s: String)
    ensures
        s@ == a@ + b@ + c@ + d@ + e@,
{
    let mut s = concat3(a, b, c);
    s.append(d);
    s.append(e);
    s
}

/// Checks the types of a program against the symbols that the resolver collected.
pub struct TypeCk<'a> {
    resolver: Resolver<'a>,
}

impl<'a> TypeCk<'a> {
    /// The symbols that the checker knows.
    pub closed spec fn symbols(&self) -> Scopes<SymbolView> {
        self.resolver.symbols()
    }

    /// Create a type checker that starts from the symbols of `resolver`.
    pub fn new(resolver: Resolver<'a>) -> (typeck: Self)
        ensures
            typeck.symbols() == resolver.symbols(),
    {
        TypeCk { resolver }
    }

    /// Check every function of `file`, in order, and stop at the first type error.
    pub fn run(self, file: &File) -> (result: TypeCkResult<()>)
        ensures
            match check_items(self.symbols(), file.items@, file.items@.len()) {
                Ok(_) => result is Ok,
                Err(failure) => result is Err && result->Err_0.describes(failure),
            },
    {
        let mut typeck = self;
        let mut i: usize = 0;
        while i < file.items.len()
            invariant
                i <= file.items.len(),
                check_items(self.symbols(), file.items@, i as nat) == Ok::<
                    Scopes<SymbolView>,
                    TypeFailure,
                >(typeck.symbols()),
            decreases file.items.len() - i,
        {
            match &file.items[i] {
                Item::Fn(item_fn) => {
                    if let Err(error) = typeck.visit_item_fn(item_fn) {
                        proof {
                            lemma_items_fail(
                                self.symbols(),
                                file.items@,
                                (i + 1) as nat,
                                file.items@.len(),
                            );
                        }
                        return Err(error);
                    }
                },
                _ => {},
            }
            i = i + 1;
        }
        Ok(())
    }

    /// Does the type of the body match the declared return type?
    fn visit_item_fn(&mut self, item_fn: &ItemFn) -> (result: TypeCkResult<()>)
        ensures
            match check_item_fn(old(self).symbols(), *item_fn) {
                Ok(after) => result is Ok && final(self).symbols() == after,
                Err(failure) => result is Err && result->Err_0.describes(failure),
            },
    {
        match self.resolver.resolve_ty(item_fn.ty.ident.repr.as_str()) {
            Some(expected) => {
                let actual = self.typeck_block(&item_fn.body)?;
                if expected != actual {
                    Err(
                        TypeCkError {
                            kind: TypeCkErrorKind::ReturnTypeMismatch,
                            reason: concat5(
                                "Function must return type '",
                                expected.name(),
                                "' but type '",
                                actual.name(),
                                "' is returned instead",
                            ),
                            span: Some(item_fn.ty.span),
                        },
                    )
                } else {
                    Ok(())
                }
            },
            None => Err(
                TypeCkError {
                    kind: TypeCkErrorKind::UnknownType,
                    reason: concat3("Unknown type '", item_fn.ty.ident.repr.as_str(), "'"),
                    span: Some(item_fn.ty.span),
                },
            ),
        }
    }

    /// The type of a block is the type of its last statement.
    fn typeck_block(&mut self, block: &Block) -> (result: TypeCkResult<Type>)
        ensures
            match check_stmts(old(self).symbols(), block.stmts@, block.stmts@.len()) {
                Ok((after, ty)) => result is Ok && result->Ok_0@ == ty && final(self).symbols()
                    == after,
                Err(failure) => result is Err && result->Err_0.describes(failure),
            },
    {
        let mut result: Type = Type::Primitive("()".to_owned());
        let mut i: usize = 0;
        while i < block.stmts.len()
            invariant
                i <= block.stmts.len(),
                check_stmts(old(self).symbols(), block.stmts@, i as nat) == Ok::<
                    (Scopes<SymbolView>, TypeView),
                    TypeFailure,
                >((self.symbols(), result@)),
            decreases block.stmts.len() - i,
        {
            match self.typeck_stmt(&block.stmts[i]) {
                Ok(ty) => {
                    result = ty;
                },
                Err(error) => {
                    proof {
                        lemma_stmts_fail(
                            old(self).symbols(),
                            block.stmts@,
                            (i + 1) as nat,
                            block.stmts@.len(),
                        );
                    }
                    return Err(error);
                },
            }
            i = i + 1;
        }
        Ok(result)
    }

    /// The type of a statement; a `let` that checks out registers its local.
    fn typeck_stmt(&mut self, stmt: &Stmt) -> (result: TypeCkResult<Type>)
        ensures
            match check_stmt(old(self).symbols(), *stmt) {
                Ok((after, ty)) => result is Ok && result->Ok_0@ == ty && final(self).symbols()
                    == after,
                Err(failure) => result is Err && result->Err_0.describes(failure),
            },
    {
        match stmt {
            Stmt::Local(local) => {
                // Type check the expression
                let actual = self.typeck_expr(&local.expr)?;
                let expected = self.resolver.resolve_ty(local.ty.ident.repr.as_str());
                match expected {
                    Some(expected) => {
                        if expected == actual {
                            // This statement checks out
                            self.resolver.declare_local(
                                local.ident.repr.as_str(),
                                actual.clone(),
                            );
                            Ok(actual)
                        } else {
                            // The expected type doesn't match the actual type
                            let mut reason = concat5(
                                "The expression assigned to variable '",
                                local.ident.repr.as_str(),
                                "' must have type '",
                                expected.name(),
                                "' but it actually has type '",
                            );
                            reason.append(actual.name());
                            reason.append("'");
                            Err(
                                TypeCkError {
                                    kind: TypeCkErrorKind::LocalTypeMismatch,
                                    reason,
                                    span: Some(*local.expr.span()),
                                },
                            )
                        }
                    },
                    None => {
                        // The type assigned to this local variable doesn't exist
                        Err(
                            TypeCkError {
                                kind: TypeCkErrorKind::UnknownType,
                                reason: concat3(
                                    "The type '",
                                    local.ty.ident.repr.as_str(),
                                    "' doesn't exist",
                                ),
                                span: Some(local.ty.ident.span),
                            },
                        )
                    },
                }
            },
            Stmt::Expr(expr) => self.typeck_expr(expr),
            Stmt::Return(ret) => {
                // Type check the returned expression
                self.typeck_expr(&ret.expr)
            },
        }
    }

    /// The type of an expression.
    fn typeck_expr(&self, expr: &Expr) -> (result: TypeCkResult<Type>)
        ensures
            match check_expr(self.symbols(), *expr) {
                Ok(ty) => result is Ok && result->Ok_0@ == ty,
                Err(failure) => result is Err && result->Err_0.describes(failure),
            },
        decreases *expr, 1nat,
    {
        match expr {
            Expr::Binary(expr_bin) => self.typeck_expr_bin(expr_bin),
            Expr::Call(expr_call) => self.typeck_expr_call(expr_call),
            Expr::Ident(ident) => self.typeck_ident(ident),
            Expr::Lit(expr_lit) => self.typeck_expr_lit(expr_lit),
            Expr::Struct(expr_struct) => self.typeck_expr_struct(expr_struct),
        }
    }

    /// Right now, all literal numbers are `i32` values.
    fn typeck_expr_lit(&self, expr_lit: &ExprLit) -> (result: TypeCkResult<Type>)
        ensures
            result is Ok,
            result->Ok_0@ == TypeView::int32(),
    {
        match expr_lit {
            ExprLit::Num(_) => Ok(Type::Primitive("i32".to_owned())),
        }
    }

    /// The type of an identifier is the type of the local that it names.
    fn typeck_ident(&self, ident: &Ident) -> (result: TypeCkResult<Type>)
        ensures
            match resolve_local(self.symbols(), ident.repr@) {
                Some(ty) => result is Ok && result->Ok_0@ == ty,
                None => result is Err && result->Err_0.describes(undefined_name(*ident)),
            },
    {
        match self.resolver.resolve_local(ident) {
            Some(ty) => Ok(ty),
            None => Err(
                TypeCkError {
                    kind: TypeCkErrorKind::UndefinedName,
                    reason: concat3("Cannot find '", ident.repr.as_str(), "' in this scope"),
                    span: Some(ident.span),
                },
            ),
        }
    }

    /// The type of a call is the return type of the function that is called.
    fn typeck_expr_call(&self, expr_call: &ExprCall) -> (result: TypeCkResult<Type>)
        ensures
            match resolve_fn(self.symbols(), expr_call->Fn_0.ident.repr@) {
                Some(ty) => result is Ok && result->Ok_0@ == ty,
                None => result is Err && result->Err_0.describes(
                    undefined_function(expr_call->Fn_0.ident),
                ),
            },
    {
        match expr_call {
            ExprCall::Fn(call) => {
                // First, we need to collect the function signature
                match self.resolver.resolve_fn(&call.ident) {
                    Some(sig) => Ok(sig.return_type),
                    None => Err(
                        TypeCkError {
                            kind: TypeCkErrorKind::UndefinedFunction,
                            reason: concat3("Undefined function '", call.ident.repr.as_str(), "'"),
                            span: Some(call.ident.span),
                        },
                    ),
                }
            },
        }
    }

    /// The type of a struct literal is the type that its name is registered as.
    fn typeck_expr_struct(&self, expr_struct: &ExprStruct) -> (result: TypeCkResult<Type>)
        ensures
            match resolve_ty(self.symbols(), expr_struct.ident.repr@) {
                Some(ty) => result is Ok && result->Ok_0@ == ty,
                None => result is Err && result->Err_0.describes(
                    unknown_type(expr_struct.ident.repr@, expr_struct.ident.span),
                ),
            },
    {
        match self.resolver.resolve_ty(expr_struct.ident.repr.as_str()) {
            Some(ty) => Ok(ty),
            None => Err(
                TypeCkError {
                    kind: TypeCkErrorKind::UnknownType,
                    reason: concat3("Unknown type '", expr_struct.ident.repr.as_str(), "'"),
                    span: Some(expr_struct.ident.span),
                },
            ),
        }
    }

    /// Both operands of a binary expression must have the same type.
    fn typeck_expr_bin(&self, expr_bin: &ExprBin) -> (result: TypeCkResult<Type>)
        ensures
            match check_expr(self.symbols(), Expr::Binary(*expr_bin)) {
                Ok(ty) => result is Ok && result->Ok_0@ == ty,
                Err(failure) => result is Err && result->Err_0.describes(failure),
            },
        decreases *expr_bin, 0nat,
    {
        // What's the type of the lhs?
        let lhs = self.typeck_expr(&expr_bin.lhs)?;
        let rhs = self.typeck_expr(&expr_bin.rhs)?;
        if lhs == rhs {
            // We're good!
            Ok(lhs)
        } else {
            // The type of the lhs doesn't match the rhs
            Err(
                TypeCkError {
                    kind: TypeCkErrorKind::BinaryTypeMismatch,
                    reason: concat5(
                        "Left hand side of binary expression has type '",
                        lhs.name(),
                        "' but the right hand side has type '",
                        rhs.name(),
                        "'",
                    ),
                    span: Some(*expr_bin.rhs.span()),
                },
            )
        }
    }
}

} // verus!
