//! The syntax tree as plain mathematical values: each list of the tree is a
//! sequence. The parser's contracts are stated over these.

use vstd::prelude::*;

use super::{
    ArgList, BinaryOp, Block, Expr, ExprCall, ExprLit, FieldNamed, Fields, File, Ident, ImplItem,
    ImplItemFn, ImplParamList, Item, ItemFn, ItemImpl, ItemStruct, Local, NamedArg, NamedArgList,
    Param, ParamList, Return, Stmt, Ty,
};
use crate::lexer::token::Token;
use crate::shared::span::Span;

verus! {

pub struct FileView {
    pub items: Seq<ItemView>,
    pub span: Span,
}

pub enum ItemView {
    Fn(ItemFnView),
    Struct(ItemStructView),
    Impl(ItemImplView),
}

pub struct ItemFnView {
    pub kw: Token,
    pub ident: Ident,
    pub lp: Token,
    pub params: ParamListView,
    pub rp: Token,
    pub arrow: Token,
    pub ty: Ty,
    pub body: BlockView,
    pub span: Span,
}

pub struct ImplParamListView {
    pub receiver: Option<Token>,
    pub params: Seq<Param>,
    pub span: Span,
}

pub struct ParamListView {
    pub params: Seq<Param>,
    pub span: Span,
}

pub struct ItemStructView {
    pub kw: Token,
    pub ident: Ident,
    pub fields: FieldsView,
    pub span: Span,
}

pub enum FieldsView {
    Named(FieldsNamedView),
}

pub struct FieldsNamedView {
    pub lb: Token,
    pub fields: Seq<FieldNamed>,
    pub rb: Token,
    pub span: Span,
}

pub struct ItemImplView {
    pub kw: Token,
    pub ident: Ident,
    pub lb: Token,
    pub items: Seq<ImplItemView>,
    pub rb: Token,
    pub span: Span,
}

pub enum ImplItemView {
    Fn(ImplItemFnView),
}

pub struct ImplItemFnView {
    pub kw: Token,
    pub ident: Ident,
    pub lp: Token,
    pub params: ImplParamListView,
    pub rp: Token,
    pub arrow: Token,
    pub ty: Ty,
    pub body: BlockView,
    pub span: Span,
}

pub struct BlockView {
    pub lc: Token,
    pub stmts: Seq<StmtView>,
    pub rc: Token,
    pub span: Span,
}

pub enum StmtView {
    Local(LocalView),
    Expr(ExprView),
    Return(ReturnView),
}

pub struct ReturnView {
    pub kw: Token,
    pub expr: ExprView,
    pub span: Span,
}

pub struct LocalView {
    pub kw: Token,
    pub ident: Ident,
    pub colon: Token,
    pub ty: Ty,
    pub eq: Token,
    pub expr: ExprView,
    pub span: Span,
}

pub enum ExprView {
    Call(ExprCallView),
    Binary(ExprBinView),
    Struct(ExprStructView),
    Lit(ExprLit),
    Ident(Ident),
}

impl ExprView {
    /// The source span of the expression.
    pub open spec fn span(self) -> Span {
        match self {
            ExprView::Call(ExprCallView::Fn(call)) => call.span,
            ExprView::Binary(expr_bin) => expr_bin.span,
            ExprView::Struct(expr_struct) => expr_struct.span,
            ExprView::Lit(expr_lit) => expr_lit.spec_span(),
            ExprView::Ident(ident) => ident.span,
        }
    }
}

pub struct ExprStructView {
    pub ident: Ident,
    pub lb: Token,
    pub args: NamedArgListView,
    pub rb: Token,
    pub span: Span,
}

pub struct NamedArgListView {
    pub args: Seq<NamedArgView>,
    pub span: Span,
}

pub struct NamedArgView {
    pub ident: Ident,
    pub colon: Token,
    pub expr: ExprView,
    pub span: Span,
}

pub enum ExprCallView {
    Fn(CallFnView),
}

pub struct CallFnView {
    pub ident: Ident,
    pub lp: Token,
    pub args: ArgListView,
    pub rp: Token,
    pub span: Span,
}

pub struct ArgListView {
    pub args: Seq<ExprView>,
    pub span: Span,
}

pub struct ExprBinView {
    pub lhs: Box<ExprView>,
    pub op: BinaryOp,
    pub rhs: Box<ExprView>,
    pub span: Span,
}

/// The view of an expression.
pub open spec fn expr_view(expr: Expr) -> ExprView
    decreases expr,
{
    match expr {
        Expr::Call(ExprCall::Fn(call)) => ExprView::Call(
            ExprCallView::Fn(
                CallFnView {
                    ident: call.ident,
                    lp: call.lp,
                    args: ArgListView {
                        args: exprs_view(call.args.args@, call.args.args@.len()),
                        span: call.args.span,
                    },
                    rp: call.rp,
                    span: call.span,
                },
            ),
        ),
        Expr::Binary(expr_bin) => ExprView::Binary(
            ExprBinView {
                lhs: Box::new(expr_view(*expr_bin.lhs)),
                op: expr_bin.op,
                rhs: Box::new(expr_view(*expr_bin.rhs)),
                span: expr_bin.span,
            },
        ),
        Expr::Struct(expr_struct) => ExprView::Struct(
            ExprStructView {
                ident: expr_struct.ident,
                lb: expr_struct.lb,
                args: NamedArgListView {
                    args: named_args_view(expr_struct.args.args@, expr_struct.args.args@.len()),
                    span: expr_struct.args.span,
                },
                rb: expr_struct.rb,
                span: expr_struct.span,
            },
        ),
        Expr::Lit(expr_lit) => ExprView::Lit(expr_lit),
        Expr::Ident(ident) => ExprView::Ident(ident),
    }
}

/// The views of the first `n` of `exprs`.
pub open spec fn exprs_view(exprs: Seq<Expr>, n: nat) -> Seq<ExprView>
    decreases exprs, n,
{
    if n == 0 || n > exprs.len() {
        Seq::empty()
    } else {
        exprs_view(exprs, (n - 1) as nat).push(expr_view(exprs[n - 1]))
    }
}

/// The view of a field initialiser.
pub open spec fn named_arg_view(arg: NamedArg) -> NamedArgView
    decreases arg,
{
    NamedArgView {
        ident: arg.ident,
        colon: arg.colon,
        expr: expr_view(arg.expr),
        span: arg.span,
    }
}

/// The views of the first `n` of `args`.
pub open spec fn named_args_view(args: Seq<NamedArg>, n: nat) -> Seq<NamedArgView>
    decreases args, n,
{
    if n == 0 || n > args.len() {
        Seq::empty()
    } else {
        named_args_view(args, (n - 1) as nat).push(named_arg_view(args[n - 1]))
    }
}

/// The view of a list of arguments.
pub open spec fn arg_list_view(args: ArgList) -> ArgListView {
    ArgListView { args: exprs_view(args.args@, args.args@.len()), span: args.span }
}

/// The view of a list of field initialisers.
pub open spec fn named_arg_list_view(args: NamedArgList) -> NamedArgListView {
    NamedArgListView { args: named_args_view(args.args@, args.args@.len()), span: args.span }
}

/// The view of a statement.
pub open spec fn stmt_view(stmt: Stmt) -> StmtView {
    match stmt {
        Stmt::Local(local) => StmtView::Local(local_view(local)),
        Stmt::Expr(expr) => StmtView::Expr(expr_view(expr)),
        Stmt::Return(ret) => StmtView::Return(return_view(ret)),
    }
}

/// The view of a `let` binding.
pub open spec fn local_view(local: Local) -> LocalView {
    LocalView {
        kw: local.kw,
        ident: local.ident,
        colon: local.colon,
        ty: local.ty,
        eq: local.eq,
        expr: expr_view(local.expr),
        span: local.span,
    }
}

/// The view of a `return` statement.
pub open spec fn return_view(ret: Return) -> ReturnView {
    ReturnView { kw: ret.kw, expr: expr_view(ret.expr), span: ret.span }
}

/// The views of a list of statements.
pub open spec fn stmts_view(stmts: Seq<Stmt>) -> Seq<StmtView> {
    Seq::new(stmts.len(), |k: int| stmt_view(stmts[k]))
}

/// The view of a block.
pub open spec fn block_view(block: Block) -> BlockView {
    BlockView { lc: block.lc, stmts: stmts_view(block.stmts@), rc: block.rc, span: block.span }
}

/// The view of a list of parameters.
pub open spec fn param_list_view(params: ParamList) -> ParamListView {
    ParamListView { params: params.params@, span: params.span }
}

/// The view of a list of parameters of a function in an impl block.
pub open spec fn impl_param_list_view(params: ImplParamList) -> ImplParamListView {
    ImplParamListView { receiver: params.receiver, params: params.params@, span: params.span }
}

/// The view of a function.
pub open spec fn item_fn_view(item_fn: ItemFn) -> ItemFnView {
    ItemFnView {
        kw: item_fn.kw,
        ident: item_fn.ident,
        lp: item_fn.lp,
        params: param_list_view(item_fn.params),
        rp: item_fn.rp,
        arrow: item_fn.arrow,
        ty: item_fn.ty,
        body: block_view(item_fn.body),
        span: item_fn.span,
    }
}

/// The view of the fields of a struct.
pub open spec fn fields_view(fields: Fields) -> FieldsView {
    match fields {
        Fields::Named(named) => FieldsView::Named(
            FieldsNamedView { lb: named.lb, fields: named.fields@, rb: named.rb, span: named.span },
        ),
    }
}

/// The view of a struct declaration.
pub open spec fn item_struct_view(item_struct: ItemStruct) -> ItemStructView {
    ItemStructView {
        kw: item_struct.kw,
        ident: item_struct.ident,
        fields: fields_view(item_struct.fields),
        span: item_struct.span,
    }
}

/// The view of a function in an impl block.
pub open spec fn impl_item_fn_view(item_fn: ImplItemFn) -> ImplItemFnView {
    ImplItemFnView {
        kw: item_fn.kw,
        ident: item_fn.ident,
        lp: item_fn.lp,
        params: impl_param_list_view(item_fn.params),
        rp: item_fn.rp,
        arrow: item_fn.arrow,
        ty: item_fn.ty,
        body: block_view(item_fn.body),
        span: item_fn.span,
    }
}

/// The view of an item of an impl block.
pub open spec fn impl_item_view(item: ImplItem) -> ImplItemView {
    match item {
        ImplItem::Fn(item_fn) => ImplItemView::Fn(impl_item_fn_view(item_fn)),
    }
}

/// The views of a list of items of an impl block.
pub open spec fn impl_items_view(items: Seq<ImplItem>) -> Seq<ImplItemView> {
    Seq::new(items.len(), |k: int| impl_item_view(items[k]))
}

/// The view of an impl block.
pub open spec fn item_impl_view(item_impl: ItemImpl) -> ItemImplView {
    ItemImplView {
        kw: item_impl.kw,
        ident: item_impl.ident,
        lb: item_impl.lb,
        items: impl_items_view(item_impl.items@),
        rb: item_impl.rb,
        span: item_impl.span,
    }
}

/// The view of an item.
pub open spec fn item_view(item: Item) -> ItemView {
    match item {
        Item::Fn(item_fn) => ItemView::Fn(item_fn_view(item_fn)),
        Item::Struct(item_struct) => ItemView::Struct(item_struct_view(item_struct)),
        Item::Impl(item_impl) => ItemView::Impl(item_impl_view(item_impl)),
    }
}

/// The views of a list of items.
pub open spec fn items_view(items: Seq<Item>) -> Seq<ItemView> {
    Seq::new(items.len(), |k: int| item_view(items[k]))
}

/// The view of a file.
pub open spec fn file_view(file: File) -> FileView {
    FileView { items: items_view(file.items@), span: file.span }
}

} // verus!
