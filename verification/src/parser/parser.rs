use vstd::prelude::*;
use vstd::string::StringExecFns;

use super::grammar::{
    expected, p_arg_list, p_args, p_block, p_call, p_expect, p_expr, p_expr_rest, p_factor,
    p_field_list, p_field_named, p_fields, p_fields_named, p_file, p_ident, p_impl_item,
    p_impl_item_fn, p_impl_items, p_impl_param_list, p_item, p_item_fn, p_item_impl,
    p_item_struct, p_items, p_local, p_named_arg, p_named_arg_list, p_named_args, p_param,
    p_param_list, p_params, p_receiver, p_return, p_stmt, p_stmts, p_struct, p_term, p_term_rest,
    p_ty, Ctx, Cur, ParseFailure, Parsed,
};
use super::progress::{
    lemma_arg_list, lemma_args, lemma_block, lemma_call, lemma_expr,
    lemma_expr_rest, lemma_factor, lemma_field_list, lemma_field_named, lemma_fields,
    lemma_ident, lemma_impl_item, lemma_impl_items, lemma_impl_param_list, lemma_item,
    lemma_item_fn, lemma_item_impl, lemma_item_struct, lemma_items, lemma_local,
    lemma_named_arg, lemma_named_arg_list, lemma_named_args, lemma_param, lemma_param_list,
    lemma_params, lemma_receiver, lemma_return, lemma_separator, lemma_stmt, lemma_stmts,
    lemma_struct, lemma_term, lemma_term_rest, lemma_ty, moved,
};
use crate::ast::view::{
    arg_list_view, block_view, expr_view, exprs_view, fields_view, file_view, impl_item_view,
    impl_items_view, impl_param_list_view, item_view, items_view, local_view, named_arg_list_view,
    named_arg_view, named_args_view, param_list_view, return_view, stmt_view, stmts_view,
};
use crate::ast::{
    ArgList, BinaryOp, Block, CallFn, Expr, ExprBin, ExprCall, ExprLit, ExprStruct, FieldNamed,
    Fields, FieldsNamed, File, Ident, ImplItem, ImplItemFn, ImplParamList, Item, ItemFn, ItemImpl,
    ItemStruct, LitNum, Local, NamedArg, NamedArgList, OpKind, Param, ParamList, Return, Stmt, Ty,
};
use crate::lexer::token::{Token, TokenKind};
use crate::shared::span::Span;
use crate::text::concat2;

verus! {

/// Represents an error that occurred during parsing.
#[derive(Debug)]
pub struct ParseError {
    /// The cause of this error.
    pub reason: String,
    /// The (optional) span of this error.
    pub span: Option<Span>,
}

impl View for ParseError {
    type V = ParseFailure;

    open spec fn view(&self) -> ParseFailure {
        ParseFailure { reason: self.reason@, span: self.span }
    }
}

/// Represents the result of parsing.
pub type ParseResult<T> = Result<T, ParseError>;

/// Whether what the parser returned and where it stands afterwards agree
/// with what the grammar says.
pub open spec fn agrees<T, V>(result: ParseResult<T>, after: Cur, parsed: Parsed<V>) -> bool {
    match parsed {
        Ok((_, to)) => result is Ok && after == to,
        Err(failure) => result is Err && result->Err_0@ == failure,
    }
}

/// Builds the syntax tree of a file from its tokens.
pub struct Parser<'a> {
    /// The tokens of an entire file.
    input: &'a [Token],
    /// The index of the current token.
    index: usize,
    /// The spans at which the constructs that are still open began.
    starts: Vec<Span>,
    /// The name of the unit type.
    unit: String,
}

impl<'a> Parser<'a> {
    /// What the parser reads from.
    pub closed spec fn ctx(&self) -> Ctx {
        Ctx { input: self.input@, unit: self.unit }
    }

    /// Where the parser stands.
    pub closed spec fn cur(&self) -> Cur {
        Cur { index: self.index as nat, starts: self.starts@ }
    }

    /// The parser stands on a token, and what it reads from is well formed.
    pub open spec fn wf(&self) -> bool {
        &&& self.ctx().wf()
        &&& self.cur().index < self.ctx().input.len()
    }

    /// Create a new parser for tokens that all have a span; there must be one at least.
    pub fn new(input: &'a [Token]) -> (parser: Self)
        requires
            input@.len() > 0,
            forall|i: int| 0 <= i < input@.len() ==> (#[trigger] input@[i]).span is Some,
        ensures
            parser.wf(),
            parser.ctx().input == input@,
            parser.cur() == (Cur { index: 0, starts: Seq::empty() }),
    {
        Parser { input, index: 0, starts: Vec::new(), unit: "()".to_owned() }
    }

    /// Parse an entire file.
    pub fn parse_file(&mut self) -> (result: ParseResult<File>)
        requires
            old(self).wf(),
        ensures
            final(self).wf(),
            final(self).ctx() == old(self).ctx(),
            agrees(result, final(self).cur(), p_file(old(self).ctx(), old(self).cur())),
            result is Ok ==> file_view(result->Ok_0) == p_file(old(self).ctx(), old(self).cur())->Ok_0.0,
    {
        proof {
            reveal(p_file);
            lemma_items(self.ctx(), self.cur().start(self.ctx()), Seq::empty());
        }
        self.start();
        let items = self.parse_items()?;
        let span = self.end();
        Ok(File { items, span })
    }

    /// Parse the items up to the end of the input or a closing brace.
    fn parse_items(&mut self) -> (result: ParseResult<Vec<Item>>)
        requires
            old(self).wf(),
            old(self).cur().starts.len() > 0,
        ensures
            final(self).wf(),
            final(self).ctx() == old(self).ctx(),
            agrees(
                result,
                final(self).cur(),
                p_items(old(self).ctx(), old(self).cur(), Seq::empty()),
            ),
            result is Ok ==> items_view(result->Ok_0@) == p_items(
                old(self).ctx(),
                old(self).cur(),
                Seq::empty(),
            )->Ok_0.0,
            result is Ok ==> moved(old(self).ctx(), old(self).cur(), final(self).cur()),
    {
        proof {
            reveal(p_items);
            lemma_items(self.ctx(), self.cur(), Seq::empty());
        }
        let mut items: Vec<Item> = Vec::new();
        assert(items_view(items@) =~= Seq::empty());
        while *self.current_kind() != TokenKind::EOF && *self.current_kind() != TokenKind::RBrace
            invariant
                self.wf(),
                self.ctx() == old(self).ctx(),
                self.ctx().remaining(self.cur().index) <= old(self).ctx().remaining(
                    old(self).cur().index,
                ),
                self.cur().starts.len() > 0,
                p_items(self.ctx(), self.cur(), items_view(items@)) == p_items(
                    self.ctx(),
                    old(self).cur(),
                    Seq::empty(),
                ),
            decreases self.ctx().remaining(self.cur().index),
        {
            proof {
                reveal(p_items);
                lemma_item(self.ctx(), self.cur());
            }
            let ghost before = items@;
            let item = self.parse_item()?;
            items.push(item);
            assert(items_view(items@) =~= items_view(before).push(item_view(item)));
        }
        Ok(items)
    }

    /// Parse an item.
    fn parse_item(&mut self) -> (result: ParseResult<Item>)
        requires
            old(self).wf(),
            old(self).cur().starts.len() > 0,
        ensures
            final(self).wf(),
            final(self).ctx() == old(self).ctx(),
            agrees(result, final(self).cur(), p_item(old(self).ctx(), old(self).cur())),
            result is Ok ==> item_view(result->Ok_0) == p_item(old(self).ctx(), old(self).cur())->Ok_0.0,
            result is Ok ==> moved(old(self).ctx(), old(self).cur(), final(self).cur()),
            result is Ok ==> old(self).cur().index < final(self).cur().index,
    {
        proof {
            reveal(p_item);
            lemma_item(self.ctx(), self.cur());
        }
        match self.current_kind() {
            TokenKind::KwFn => self.parse_item_fn(),
            TokenKind::KwStruct => self.parse_item_struct(),
            TokenKind::KwImpl => self.parse_item_impl(),
            _ => {
                let found = self.current_kind().describe();
                Err(
                    ParseError {
                        reason: concat2("Expected 'fn' or 'mod', found ", found.as_str()),
                        span: Some(self.end()),
                    },
                )
            },
        }
    }

    /// Parse an impl block.
    fn parse_item_impl(&mut self) -> (result: ParseResult<Item>)
        requires
            old(self).wf(),
        ensures
            final(self).wf(),
            final(self).ctx() == old(self).ctx(),
            agrees(result, final(self).cur(), p_item_impl(old(self).ctx(), old(self).cur())),
            result is Ok ==> item_view(result->Ok_0) == p_item_impl(old(self).ctx(), old(self).cur())->Ok_0.0,
            result is Ok ==> moved(old(self).ctx(), old(self).cur(), final(self).cur()),
    {
        proof {
            reveal(p_item_impl);
            lemma_item_impl(self.ctx(), self.cur());
        }
        self.start();
        let kw = self.expect(TokenKind::KwImpl)?;
        let ident = self.parse_ident()?;
        let lb = self.expect(TokenKind::LBrace)?;
        let items = self.parse_impl_items()?;
        let rb = self.expect(TokenKind::RBrace)?;
        let span = self.end();
        Ok(Item::Impl(ItemImpl { kw, ident, lb, items, rb, span }))
    }

    /// Parse the items of an impl block up to the closing brace.
    fn parse_impl_items(&mut self) -> (result: ParseResult<Vec<ImplItem>>)
        requires
            old(self).wf(),
        ensures
            final(self).wf(),
            final(self).ctx() == old(self).ctx(),
            agrees(
                result,
                final(self).cur(),
                p_impl_items(old(self).ctx(), old(self).cur(), Seq::empty()),
            ),
            result is Ok ==> impl_items_view(result->Ok_0@) == p_impl_items(
                old(self).ctx(),
                old(self).cur(),
                Seq::empty(),
            )->Ok_0.0,
            result is Ok ==> moved(old(self).ctx(), old(self).cur(), final(self).cur()),
    {
        proof {
            reveal(p_impl_items);
            lemma_impl_items(self.ctx(), self.cur(), Seq::empty());
        }
        let mut items: Vec<ImplItem> = Vec::new();
        assert(impl_items_view(items@) =~= Seq::empty());
        while *self.current_kind() != TokenKind::RBrace
            invariant
                self.wf(),
                self.ctx() == old(self).ctx(),
                self.ctx().remaining(self.cur().index) <= old(self).ctx().remaining(
                    old(self).cur().index,
                ),
                p_impl_items(self.ctx(), self.cur(), impl_items_view(items@)) == p_impl_items(
                    self.ctx(),
                    old(self).cur(),
                    Seq::empty(),
                ),
            decreases self.ctx().remaining(self.cur().index),
        {
            proof {
                reveal(p_impl_items);
                lemma_impl_item(self.ctx(), self.cur());
            }
            let ghost before = items@;
            let item = self.parse_impl_item()?;
            items.push(item);
            assert(impl_items_view(items@) =~= impl_items_view(before).push(impl_item_view(item)));
        }
        Ok(items)
    }

    /// Parse an item of an impl block.
    fn parse_impl_item(&mut self) -> (result: ParseResult<ImplItem>)
        requires
            old(self).wf(),
        ensures
            final(self).wf(),
            final(self).ctx() == old(self).ctx(),
            agrees(result, final(self).cur(), p_impl_item(old(self).ctx(), old(self).cur())),
            result is Ok ==> impl_item_view(result->Ok_0) == p_impl_item(old(self).ctx(), old(self).cur())->Ok_0.0,
            result is Ok ==> moved(old(self).ctx(), old(self).cur(), final(self).cur()),
            result is Ok ==> old(self).cur().index < final(self).cur().index,
    {
        proof {
            reveal(p_impl_item);
            lemma_impl_item(self.ctx(), self.cur());
        }
        if *self.current_kind() == TokenKind::KwFn {
            self.parse_impl_item_fn()
        } else {
            let found = self.current_kind().describe();
            Err(
                ParseError {
                    reason: concat2("Expected a function item, found ", found.as_str()),
                    span: self.current().span,
                },
            )
        }
    }

    /// Parse a function of an impl block.
    fn parse_impl_item_fn(&mut self) -> (result: ParseResult<ImplItem>)
        requires
            old(self).wf(),
        ensures
            final(self).wf(),
            final(self).ctx() == old(self).ctx(),
            agrees(result, final(self).cur(), p_impl_item_fn(old(self).ctx(), old(self).cur())),
            result is Ok ==> impl_item_view(result->Ok_0) == p_impl_item_fn(old(self).ctx(), old(self).cur())->Ok_0.0,
            result is Ok ==> moved(old(self).ctx(), old(self).cur(), final(self).cur()),
    {
        proof {
            reveal(p_impl_item_fn);
            lemma_impl_item(self.ctx(), self.cur());
        }
        // Start a new span
        self.start();
        let kw = self.expect(TokenKind::KwFn)?;
        let ident = self.parse_ident()?;
        let lp = self.expect(TokenKind::LParen)?;
        let params = self.parse_impl_param_list()?;
        let rp = self.expect(TokenKind::RParen)?;
        let arrow = self.expect(TokenKind::RArrow)?;
        let ty = self.parse_ty()?;
        let body = self.parse_block()?;
        let span = self.end();
        Ok(ImplItem::Fn(ImplItemFn { kw, ident, lp, params, rp, arrow, ty, body, span }))
    }

    /// Parse a struct declaration.
    fn parse_item_struct(&mut self) -> (result: ParseResult<Item>)
        requires
            old(self).wf(),
        ensures
            final(self).wf(),
            final(self).ctx() == old(self).ctx(),
            agrees(result, final(self).cur(), p_item_struct(old(self).ctx(), old(self).cur())),
            result is Ok ==> item_view(result->Ok_0) == p_item_struct(old(self).ctx(), old(self).cur())->Ok_0.0,
            result is Ok ==> moved(old(self).ctx(), old(self).cur(), final(self).cur()),
    {
        proof {
            reveal(p_item_struct);
            lemma_item_struct(self.ctx(), self.cur());
        }
        self.start();
        let kw = self.expect(TokenKind::KwStruct)?;
        let ident = self.parse_ident()?;
        let fields = self.parse_fields()?;
        let span = self.end();
        Ok(Item::Struct(ItemStruct { kw, ident, fields, span }))
    }

    /// Parse the fields of a struct.
    fn parse_fields(&mut self) -> (result: ParseResult<Fields>)
        requires
            old(self).wf(),
        ensures
            final(self).wf(),
            final(self).ctx() == old(self).ctx(),
            agrees(result, final(self).cur(), p_fields(old(self).ctx(), old(self).cur())),
            result is Ok ==> fields_view(result->Ok_0) == p_fields(old(self).ctx(), old(self).cur())->Ok_0.0,
            result is Ok ==> moved(old(self).ctx(), old(self).cur(), final(self).cur()),
    {
        proof {
            reveal(p_fields);
            lemma_fields(self.ctx(), self.cur());
        }
        if *self.current_kind() == TokenKind::LBrace {
            self.parse_fields_named()
        } else {
            Err(self.unexpected(&TokenKind::LBrace))
        }
    }

    /// Parse the named fields of a struct.
    fn parse_fields_named(&mut self) -> (result: ParseResult<Fields>)
        requires
            old(self).wf(),
        ensures
            final(self).wf(),
            final(self).ctx() == old(self).ctx(),
            agrees(result, final(self).cur(), p_fields_named(old(self).ctx(), old(self).cur())),
            result is Ok ==> fields_view(result->Ok_0) == p_fields_named(old(self).ctx(), old(self).cur())->Ok_0.0,
            result is Ok ==> moved(old(self).ctx(), old(self).cur(), final(self).cur()),
    {
        proof {
            reveal(p_fields_named);
            lemma_fields(self.ctx(), self.cur());
        }
        self.start();
        let lb = self.expect(TokenKind::LBrace)?;
        let fields = self.parse_field_list()?;
        let rb = self.expect(TokenKind::RBrace)?;
        let span = self.end();
        Ok(Fields::Named(FieldsNamed { lb, fields, rb, span }))
    }

    /// Parse the fields of a struct up to the closing brace.
    fn parse_field_list(&mut self) -> (result: ParseResult<Vec<FieldNamed>>)
        requires
            old(self).wf(),
        ensures
            final(self).wf(),
            final(self).ctx() == old(self).ctx(),
            agrees(
                result,
                final(self).cur(),
                p_field_list(old(self).ctx(), old(self).cur(), Seq::empty()),
            ),
            result is Ok ==> result->Ok_0@ == p_field_list(
                old(self).ctx(),
                old(self).cur(),
                Seq::empty(),
            )->Ok_0.0,
            result is Ok ==> moved(old(self).ctx(), old(self).cur(), final(self).cur()),
    {
        proof {
            reveal(p_field_list);
            lemma_field_list(self.ctx(), self.cur(), Seq::empty());
        }
        let mut items: Vec<FieldNamed> = Vec::new();
        while *self.current_kind() != TokenKind::RBrace
            invariant
                self.wf(),
                self.ctx() == old(self).ctx(),
                self.ctx().remaining(self.cur().index) <= old(self).ctx().remaining(
                    old(self).cur().index,
                ),
                p_field_list(self.ctx(), self.cur(), items@) == p_field_list(
                    self.ctx(),
                    old(self).cur(),
                    Seq::empty(),
                ),
            decreases self.ctx().remaining(self.cur().index),
        {
            proof {
                reveal(p_field_list);
                lemma_field_named(self.ctx(), self.cur());
            }
            let item = self.parse_field_named()?;
            proof {
                lemma_separator(self.ctx(), self.cur(), TokenKind::RBrace);
            }
            if *self.current_kind() != TokenKind::RBrace {
                self.expect(TokenKind::Comma)?;
            }
            items.push(item);
        }
        Ok(items)
    }

    /// Parse one named field of a struct.
    fn parse_field_named(&mut self) -> (result: ParseResult<FieldNamed>)
        requires
            old(self).wf(),
        ensures
            final(self).wf(),
            final(self).ctx() == old(self).ctx(),
            agrees(result, final(self).cur(), p_field_named(old(self).ctx(), old(self).cur())),
            result is Ok ==> result->Ok_0 == p_field_named(old(self).ctx(), old(self).cur())->Ok_0.0,
            result is Ok ==> moved(old(self).ctx(), old(self).cur(), final(self).cur()),
            result is Ok ==> old(self).cur().index < final(self).cur().index,
    {
        proof {
            reveal(p_field_named);
            lemma_field_named(self.ctx(), self.cur());
        }
        self.start();
        let ident = self.parse_ident()?;
        let colon = self.expect(TokenKind::Colon)?;
        let ty = self.parse_ty()?;
        let span = self.end();
        Ok(FieldNamed { ident, colon, ty, span })
    }

    /// Parse a function declaration.
    fn parse_item_fn(&mut self) -> (result: ParseResult<Item>)
        requires
            old(self).wf(),
        ensures
            final(self).wf(),
            final(self).ctx() == old(self).ctx(),
            agrees(result, final(self).cur(), p_item_fn(old(self).ctx(), old(self).cur())),
            result is Ok ==> item_view(result->Ok_0) == p_item_fn(old(self).ctx(), old(self).cur())->Ok_0.0,
            result is Ok ==> moved(old(self).ctx(), old(self).cur(), final(self).cur()),
    {
        proof {
            reveal(p_item_fn);
            lemma_item_fn(self.ctx(), self.cur());
        }
        // Start a new span
        self.start();
        let kw = self.expect(TokenKind::KwFn)?;
        let ident = self.parse_ident()?;
        let lp = self.expect(TokenKind::LParen)?;
        let params = self.parse_param_list()?;
        let rp = self.expect(TokenKind::RParen)?;
        let arrow = self.expect(TokenKind::RArrow)?;
        let ty = self.parse_ty()?;
        let body = self.parse_block()?;
        let span = self.end();
        Ok(Item::Fn(ItemFn { kw, ident, lp, params, rp, arrow, ty, body, span }))
    }

    /// Parse the parameters up to the closing parenthesis.
    fn parse_params(&mut self) -> (result: ParseResult<Vec<Param>>)
        requires
            old(self).wf(),
        ensures
            final(self).wf(),
            final(self).ctx() == old(self).ctx(),
            agrees(
                result,
                final(self).cur(),
                p_params(old(self).ctx(), old(self).cur(), Seq::empty()),
            ),
            result is Ok ==> result->Ok_0@ == p_params(
                old(self).ctx(),
                old(self).cur(),
                Seq::empty(),
            )->Ok_0.0,
            result is Ok ==> moved(old(self).ctx(), old(self).cur(), final(self).cur()),
    {
        proof {
            reveal(p_params);
            lemma_params(self.ctx(), self.cur(), Seq::empty());
        }
        let mut items: Vec<Param> = Vec::new();
        while *self.current_kind() != TokenKind::RParen
            invariant
                self.wf(),
                self.ctx() == old(self).ctx(),
                self.ctx().remaining(self.cur().index) <= old(self).ctx().remaining(
                    old(self).cur().index,
                ),
                p_params(self.ctx(), self.cur(), items@) == p_params(
                    self.ctx(),
                    old(self).cur(),
                    Seq::empty(),
                ),
            decreases self.ctx().remaining(self.cur().index),
        {
            proof {
                reveal(p_params);
                lemma_param(self.ctx(), self.cur());
            }
            let item = self.parse_param()?;
            proof {
                lemma_separator(self.ctx(), self.cur(), TokenKind::RParen);
            }
            if *self.current_kind() != TokenKind::RParen {
                // Since we haven't reached the closing parenthesis yet, we expect a comma
                self.expect(TokenKind::Comma)?;
            }
            items.push(item);
        }
        Ok(items)
    }

    /// Parse a list of function parameters.
    fn parse_param_list(&mut self) -> (result: ParseResult<ParamList>)
        requires
            old(self).wf(),
        ensures
            final(self).wf(),
            final(self).ctx() == old(self).ctx(),
            agrees(result, final(self).cur(), p_param_list(old(self).ctx(), old(self).cur())),
            result is Ok ==> param_list_view(result->Ok_0) == p_param_list(old(self).ctx(), old(self).cur())->Ok_0.0,
            result is Ok ==> moved(old(self).ctx(), old(self).cur(), final(self).cur()),
    {
        proof {
            reveal(p_param_list);
            lemma_param_list(self.ctx(), self.cur());
        }
        self.start();
        let params = self.parse_params()?;
        let span = self.end();
        Ok(ParamList { params, span })
    }

    /// Parse the receiver of a function in an impl block, if it has one.
    fn parse_receiver(&mut self) -> (result: ParseResult<Option<Token>>)
        requires
            old(self).wf(),
        ensures
            final(self).wf(),
            final(self).ctx() == old(self).ctx(),
            agrees(result, final(self).cur(), p_receiver(old(self).ctx(), old(self).cur())),
            result is Ok ==> result->Ok_0 == p_receiver(old(self).ctx(), old(self).cur())->Ok_0.0,
            result is Ok ==> moved(old(self).ctx(), old(self).cur(), final(self).cur()),
    {
        proof {
            reveal(p_receiver);
            lemma_receiver(self.ctx(), self.cur());
        }
        if *self.current_kind() == TokenKind::KwSelf {
            let rcvr = self.expect(TokenKind::KwSelf)?;
            if *self.current_kind() != TokenKind::RParen {
                self.expect(TokenKind::Comma)?;
            }
            Ok(Some(rcvr))
        } else {
            Ok(None)
        }
    }

    /// Parse a list of parameters of a function in an impl block.
    fn parse_impl_param_list(&mut self) -> (result: ParseResult<ImplParamList>)
        requires
            old(self).wf(),
        ensures
            final(self).wf(),
            final(self).ctx() == old(self).ctx(),
            agrees(result, final(self).cur(), p_impl_param_list(old(self).ctx(), old(self).cur())),
            result is Ok ==> impl_param_list_view(result->Ok_0) == p_impl_param_list(old(self).ctx(), old(self).cur())->Ok_0.0,
            result is Ok ==> moved(old(self).ctx(), old(self).cur(), final(self).cur()),
    {
        proof {
            reveal(p_impl_param_list);
            lemma_impl_param_list(self.ctx(), self.cur());
        }
        self.start();
        let receiver = self.parse_receiver()?;
        let params = self.parse_params()?;
        let span = self.end();
        Ok(ImplParamList { receiver, params, span })
    }

    /// Parse a single function parameter.
    fn parse_param(&mut self) -> (result: ParseResult<Param>)
        requires
            old(self).wf(),
        ensures
            final(self).wf(),
            final(self).ctx() == old(self).ctx(),
            agrees(result, final(self).cur(), p_param(old(self).ctx(), old(self).cur())),
            result is Ok ==> result->Ok_0 == p_param(old(self).ctx(), old(self).cur())->Ok_0.0,
            result is Ok ==> moved(old(self).ctx(), old(self).cur(), final(self).cur()),
            result is Ok ==> old(self).cur().index < final(self).cur().index,
    {
        proof {
            reveal(p_param);
            lemma_param(self.ctx(), self.cur());
        }
        let ident = self.parse_ident()?;
        let colon = self.expect(TokenKind::Colon)?;
        let ty = self.parse_ty()?;
        Ok(Param { ident, colon, ty })
    }

    /// Parse an identifier.
    fn parse_ident(&mut self) -> (result: ParseResult<Ident>)
        requires
            old(self).wf(),
        ensures
            final(self).wf(),
            final(self).ctx() == old(self).ctx(),
            agrees(result, final(self).cur(), p_ident(old(self).ctx(), old(self).cur())),
            result is Ok ==> result->Ok_0 == p_ident(old(self).ctx(), old(self).cur())->Ok_0.0,
            result is Ok ==> moved(old(self).ctx(), old(self).cur(), final(self).cur()),
            result is Ok ==> final(self).cur().starts == old(self).cur().starts,
    {
        proof {
            lemma_ident(self.ctx(), self.cur());
        }
        let current = self.current().clone();
        match current.kind {
            TokenKind::Ident(raw) => {
                self.advance(1);
                Ok(Ident { repr: raw, span: current.span.unwrap() })
            },
            _ => Err(
                ParseError {
                    reason: concat2(
                        "Expected an identifier, found ",
                        current.kind.describe().as_str(),
                    ),
                    span: current.span,
                },
            ),
        }
    }

    /// Parse a block of statements enclosed by curly braces.
    fn parse_block(&mut self) -> (result: ParseResult<Block>)
        requires
            old(self).wf(),
        ensures
            final(self).wf(),
            final(self).ctx() == old(self).ctx(),
            agrees(result, final(self).cur(), p_block(old(self).ctx(), old(self).cur())),
            result is Ok ==> block_view(result->Ok_0) == p_block(old(self).ctx(), old(self).cur())->Ok_0.0,
            result is Ok ==> moved(old(self).ctx(), old(self).cur(), final(self).cur()),
    {
        proof {
            reveal(p_block);
            lemma_block(self.ctx(), self.cur());
        }
        self.start();
        // Get the left curly brace
        let lc = self.expect(TokenKind::LBrace)?;
        // Collect the statements
        let stmts = self.parse_stmts()?;
        let rc = self.expect(TokenKind::RBrace)?;
        let span = self.end();
        Ok(Block { lc, stmts, rc, span })
    }

    /// Parse the statements of a block up to the closing brace.
    fn parse_stmts(&mut self) -> (result: ParseResult<Vec<Stmt>>)
        requires
            old(self).wf(),
        ensures
            final(self).wf(),
            final(self).ctx() == old(self).ctx(),
            agrees(
                result,
                final(self).cur(),
                p_stmts(old(self).ctx(), old(self).cur(), Seq::empty()),
            ),
            result is Ok ==> stmts_view(result->Ok_0@) == p_stmts(
                old(self).ctx(),
                old(self).cur(),
                Seq::empty(),
            )->Ok_0.0,
            result is Ok ==> moved(old(self).ctx(), old(self).cur(), final(self).cur()),
    {
        proof {
            reveal(p_stmts);
            lemma_stmts(self.ctx(), self.cur(), Seq::empty());
        }
        let mut items: Vec<Stmt> = Vec::new();
        assert(stmts_view(items@) =~= Seq::empty());
        while *self.current_kind() != TokenKind::RBrace
            invariant
                self.wf(),
                self.ctx() == old(self).ctx(),
                self.ctx().remaining(self.cur().index) <= old(self).ctx().remaining(
                    old(self).cur().index,
                ),
                p_stmts(self.ctx(), self.cur(), stmts_view(items@)) == p_stmts(
                    self.ctx(),
                    old(self).cur(),
                    Seq::empty(),
                ),
            decreases self.ctx().remaining(self.cur().index),
        {
            proof {
                reveal(p_stmts);
                lemma_stmt(self.ctx(), self.cur());
            }
            let ghost before = items@;
            let item = self.parse_stmt()?;
            self.expect(TokenKind::Semicolon)?;
            items.push(item);
            assert(stmts_view(items@) =~= stmts_view(before).push(stmt_view(item)));
        }
        Ok(items)
    }

    /// Parse a statement.
    fn parse_stmt(&mut self) -> (result: ParseResult<Stmt>)
        requires
            old(self).wf(),
        ensures
            final(self).wf(),
            final(self).ctx() == old(self).ctx(),
            agrees(result, final(self).cur(), p_stmt(old(self).ctx(), old(self).cur())),
            result is Ok ==> stmt_view(result->Ok_0) == p_stmt(old(self).ctx(), old(self).cur())->Ok_0.0,
            result is Ok ==> moved(old(self).ctx(), old(self).cur(), final(self).cur()),
            result is Ok ==> old(self).cur().index < final(self).cur().index,
    {
        proof {
            reveal(p_stmt);
            lemma_stmt(self.ctx(), self.cur());
        }
        let current = self.current().clone();
        match current.kind {
            TokenKind::KwLet => Ok(Stmt::Local(self.parse_local()?)),
            TokenKind::KwRet => Ok(Stmt::Return(self.parse_return()?)),
            _ => Err(
                ParseError {
                    reason: concat2(
                        "Unknown statement beginning with ",
                        current.kind.describe().as_str(),
                    ),
                    span: current.span,
                },
            ),
        }
    }

    /// Parse a return statement.
    fn parse_return(&mut self) -> (result: ParseResult<Return>)
        requires
            old(self).wf(),
        ensures
            final(self).wf(),
            final(self).ctx() == old(self).ctx(),
            agrees(result, final(self).cur(), p_return(old(self).ctx(), old(self).cur())),
            result is Ok ==> return_view(result->Ok_0) == p_return(old(self).ctx(), old(self).cur())->Ok_0.0,
            result is Ok ==> moved(old(self).ctx(), old(self).cur(), final(self).cur()),
    {
        proof {
            reveal(p_return);
            lemma_return(self.ctx(), self.cur());
        }
        self.start();
        let kw = self.expect(TokenKind::KwRet)?;
        let expr = self.parse_expr()?;
        let span = self.end();
        Ok(Return { kw, expr, span })
    }

    /// Parse a local `let` binding.
    fn parse_local(&mut self) -> (result: ParseResult<Local>)
        requires
            old(self).wf(),
        ensures
            final(self).wf(),
            final(self).ctx() == old(self).ctx(),
            agrees(result, final(self).cur(), p_local(old(self).ctx(), old(self).cur())),
            result is Ok ==> local_view(result->Ok_0) == p_local(old(self).ctx(), old(self).cur())->Ok_0.0,
            result is Ok ==> moved(old(self).ctx(), old(self).cur(), final(self).cur()),
    {
        proof {
            reveal(p_local);
            lemma_local(self.ctx(), self.cur());
        }
        self.start();
        let kw = self.expect(TokenKind::KwLet)?;
        let ident = self.parse_ident()?;
        let colon = self.expect(TokenKind::Colon)?;
        let ty = self.parse_ty()?;
        let eq = self.expect(TokenKind::Equal)?;
        let expr = self.parse_expr()?;
        let span = self.end();
        Ok(Local { kw, ident, colon, ty, eq, expr, span })
    }

    /// Parse an expression (`expr ::= term { "+" term }`).
    fn parse_expr(&mut self) -> (result: ParseResult<Expr>)
        requires
            old(self).wf(),
        ensures
            final(self).wf(),
            final(self).ctx() == old(self).ctx(),
            agrees(result, final(self).cur(), p_expr(old(self).ctx(), old(self).cur())),
            result is Ok ==> expr_view(result->Ok_0) == p_expr(old(self).ctx(), old(self).cur())->Ok_0.0,
            result is Ok ==> moved(old(self).ctx(), old(self).cur(), final(self).cur()),
        decreases old(self).ctx().remaining(old(self).cur().index), 5nat,
    {
        proof {
            reveal(p_expr);
            reveal(p_term);
            reveal(p_expr_rest);
            lemma_expr(self.ctx(), self.cur());
        }
        let expr = self.parse_term()?;
        self.parse_expr_rest(expr)
    }

    /// Parse the rest of an expression whose operands so far are `lhs`.
    fn parse_expr_rest(&mut self, lhs: Expr) -> (result: ParseResult<Expr>)
        requires
            old(self).wf(),
        ensures
            final(self).wf(),
            final(self).ctx() == old(self).ctx(),
            agrees(
                result,
                final(self).cur(),
                p_expr_rest(old(self).ctx(), old(self).cur(), expr_view(lhs)),
            ),
            result is Ok ==> expr_view(result->Ok_0) == p_expr_rest(
                old(self).ctx(),
                old(self).cur(),
                expr_view(lhs),
            )->Ok_0.0,
            result is Ok ==> moved(old(self).ctx(), old(self).cur(), final(self).cur()),
        decreases old(self).ctx().remaining(old(self).cur().index), 4nat,
    {
        proof {
            reveal(p_expr_rest);
            reveal(p_term);
            lemma_expr_rest(self.ctx(), self.cur(), expr_view(lhs));
        }
        let mut expr = lhs;
        while *self.current_kind() == TokenKind::Plus
            invariant
                self.wf(),
                self.ctx() == old(self).ctx(),
                self.ctx().remaining(self.cur().index) <= old(self).ctx().remaining(
                    old(self).cur().index,
                ),
                p_expr_rest(self.ctx(), self.cur(), expr_view(expr)) == p_expr_rest(
                    self.ctx(),
                    old(self).cur(),
                    expr_view(lhs),
                ),
            decreases self.ctx().remaining(self.cur().index),
        {
            proof {
                reveal(p_expr_rest);
                reveal(p_term);
            }
            let op = self.expect(TokenKind::Plus)?;
            let op = BinaryOp { kind: OpKind::Add, span: op.span.unwrap() };
            proof {
                lemma_term(self.ctx(), self.cur());
            }
            let rhs = self.parse_term()?;
            let start = expr.span().start;
            let end = rhs.span().end;
            expr =
            Expr::Binary(
                ExprBin { lhs: Box::new(expr), op, rhs: Box::new(rhs), span: Span::new(start, end) },
            );
        }
        Ok(expr)
    }

    /// Parse a term (`term ::= factor { "*" factor }`).
    fn parse_term(&mut self) -> (result: ParseResult<Expr>)
        requires
            old(self).wf(),
        ensures
            final(self).wf(),
            final(self).ctx() == old(self).ctx(),
            agrees(result, final(self).cur(), p_term(old(self).ctx(), old(self).cur())),
            result is Ok ==> expr_view(result->Ok_0) == p_term(old(self).ctx(), old(self).cur())->Ok_0.0,
            result is Ok ==> moved(old(self).ctx(), old(self).cur(), final(self).cur()),
        decreases old(self).ctx().remaining(old(self).cur().index), 3nat,
    {
        proof {
            reveal(p_term);
            reveal(p_factor);
            reveal(p_term_rest);
            lemma_term(self.ctx(), self.cur());
        }
        let expr = self.parse_factor()?;
        self.parse_term_rest(expr)
    }

    /// Parse the rest of a term whose operands so far are `lhs`.
    fn parse_term_rest(&mut self, lhs: Expr) -> (result: ParseResult<Expr>)
        requires
            old(self).wf(),
        ensures
            final(self).wf(),
            final(self).ctx() == old(self).ctx(),
            agrees(
                result,
                final(self).cur(),
                p_term_rest(old(self).ctx(), old(self).cur(), expr_view(lhs)),
            ),
            result is Ok ==> expr_view(result->Ok_0) == p_term_rest(
                old(self).ctx(),
                old(self).cur(),
                expr_view(lhs),
            )->Ok_0.0,
            result is Ok ==> moved(old(self).ctx(), old(self).cur(), final(self).cur()),
        decreases old(self).ctx().remaining(old(self).cur().index), 2nat,
    {
        proof {
            reveal(p_term_rest);
            reveal(p_factor);
            lemma_term_rest(self.ctx(), self.cur(), expr_view(lhs));
        }
        let mut expr = lhs;
        while *self.current_kind() == TokenKind::Star
            invariant
                self.wf(),
                self.ctx() == old(self).ctx(),
                self.ctx().remaining(self.cur().index) <= old(self).ctx().remaining(
                    old(self).cur().index,
                ),
                p_term_rest(self.ctx(), self.cur(), expr_view(expr)) == p_term_rest(
                    self.ctx(),
                    old(self).cur(),
                    expr_view(lhs),
                ),
            decreases self.ctx().remaining(self.cur().index),
        {
            proof {
                reveal(p_term_rest);
                reveal(p_factor);
            }
            let op = self.expect(TokenKind::Star)?;
            let op = BinaryOp { kind: OpKind::Multiply, span: op.span.unwrap() };
            proof {
                lemma_factor(self.ctx(), self.cur());
            }
            let rhs = self.parse_factor()?;
            let start = expr.span().start;
            let end = rhs.span().end;
            expr =
            Expr::Binary(
                ExprBin { lhs: Box::new(expr), op, rhs: Box::new(rhs), span: Span::new(start, end) },
            );
        }
        Ok(expr)
    }

    /// Parse a factor (`factor ::= lit-num | ident | call-fn | struct-lit`).
    fn parse_factor(&mut self) -> (result: ParseResult<Expr>)
        requires
            old(self).wf(),
        ensures
            final(self).wf(),
            final(self).ctx() == old(self).ctx(),
            agrees(result, final(self).cur(), p_factor(old(self).ctx(), old(self).cur())),
            result is Ok ==> expr_view(result->Ok_0) == p_factor(old(self).ctx(), old(self).cur())->Ok_0.0,
            result is Ok ==> moved(old(self).ctx(), old(self).cur(), final(self).cur()),
        decreases old(self).ctx().remaining(old(self).cur().index), 1nat,
    {
        proof {
            reveal(p_factor);
            reveal(p_call);
            reveal(p_struct);
            lemma_factor(self.ctx(), self.cur());
        }
        self.start();
        let current = self.current().clone();
        match current.kind {
            TokenKind::LitNum(value) => {
                self.advance(1);
                Ok(Expr::Lit(ExprLit::Num(LitNum { value, span: self.end() })))
            },
            TokenKind::Ident(_) => {
                let ident = self.parse_ident()?;
                if *self.current_kind() == TokenKind::LParen {
                    self.parse_call(ident)
                } else if *self.current_kind() == TokenKind::LBrace {
                    self.parse_struct(ident)
                } else {
                    Ok(Expr::Ident(ident))
                }
            },
            _ => {
                self.advance(1);
                Err(
                    ParseError {
                        reason: concat2(
                            "Expected an identifier, literal or function call... found ",
                            current.kind.describe().as_str(),
                        ),
                        span: Some(self.end()),
                    },
                )
            },
        }
    }

    /// Parse the arguments of a call of the function `ident`.
    fn parse_call(&mut self, ident: Ident) -> (result: ParseResult<Expr>)
        requires
            old(self).wf(),
            old(self).cur().starts.len() > 0,
        ensures
            final(self).wf(),
            final(self).ctx() == old(self).ctx(),
            agrees(result, final(self).cur(), p_call(old(self).ctx(), old(self).cur(), ident)),
            result is Ok ==> expr_view(result->Ok_0) == p_call(
                old(self).ctx(),
                old(self).cur(),
                ident,
            )->Ok_0.0,
        decreases old(self).ctx().remaining(old(self).cur().index), 9nat,
    {
        proof {
            reveal(p_call);
            reveal(p_arg_list);
            lemma_call(self.ctx(), self.cur(), ident);
        }
        let open = self.expect(TokenKind::LParen)?;
        let args = self.parse_arg_list()?;
        let close = self.expect(TokenKind::RParen)?;
        let span = self.end();
        Ok(Expr::Call(ExprCall::Fn(CallFn { ident, lp: open, args, rp: close, span })))
    }

    /// Parse the field initialisers of a literal of the struct `ident`.
    fn parse_struct(&mut self, ident: Ident) -> (result: ParseResult<Expr>)
        requires
            old(self).wf(),
            old(self).cur().starts.len() > 0,
        ensures
            final(self).wf(),
            final(self).ctx() == old(self).ctx(),
            agrees(result, final(self).cur(), p_struct(old(self).ctx(), old(self).cur(), ident)),
            result is Ok ==> expr_view(result->Ok_0) == p_struct(
                old(self).ctx(),
                old(self).cur(),
                ident,
            )->Ok_0.0,
        decreases old(self).ctx().remaining(old(self).cur().index), 9nat,
    {
        proof {
            reveal(p_struct);
            reveal(p_named_arg_list);
            lemma_struct(self.ctx(), self.cur(), ident);
        }
        let open = self.expect(TokenKind::LBrace)?;
        let args = self.parse_named_arg_list()?;
        let close = self.expect(TokenKind::RBrace)?;
        let span = self.end();
        Ok(Expr::Struct(ExprStruct { ident, lb: open, args, rb: close, span }))
    }

    /// Parse the arguments of a call.
    fn parse_arg_list(&mut self) -> (result: ParseResult<ArgList>)
        requires
            old(self).wf(),
        ensures
            final(self).wf(),
            final(self).ctx() == old(self).ctx(),
            agrees(result, final(self).cur(), p_arg_list(old(self).ctx(), old(self).cur())),
            result is Ok ==> arg_list_view(result->Ok_0) == p_arg_list(old(self).ctx(), old(self).cur())->Ok_0.0,
            result is Ok ==> moved(old(self).ctx(), old(self).cur(), final(self).cur()),
        decreases old(self).ctx().remaining(old(self).cur().index), 7nat,
    {
        proof {
            reveal(p_arg_list);
            reveal(p_args);
            lemma_arg_list(self.ctx(), self.cur());
        }
        self.start();
        let args = self.parse_args()?;
        let span = self.end();
        Ok(ArgList { args, span })
    }

    /// Parse the arguments of a call up to the closing parenthesis.
    fn parse_args(&mut self) -> (result: ParseResult<Vec<Expr>>)
        requires
            old(self).wf(),
        ensures
            final(self).wf(),
            final(self).ctx() == old(self).ctx(),
            agrees(
                result,
                final(self).cur(),
                p_args(old(self).ctx(), old(self).cur(), Seq::empty()),
            ),
            result is Ok ==> exprs_view(result->Ok_0@, result->Ok_0@.len()) == p_args(
                old(self).ctx(),
                old(self).cur(),
                Seq::empty(),
            )->Ok_0.0,
            result is Ok ==> moved(old(self).ctx(), old(self).cur(), final(self).cur()),
        decreases old(self).ctx().remaining(old(self).cur().index), 6nat,
    {
        proof {
            reveal(p_args);
            reveal(p_expr);
            lemma_args(self.ctx(), self.cur(), Seq::empty());
        }
        let mut items: Vec<Expr> = Vec::new();
        assert(exprs_view(items@, items@.len()) =~= Seq::empty());
        while *self.current_kind() != TokenKind::RParen
            invariant
                self.wf(),
                self.ctx() == old(self).ctx(),
                self.ctx().remaining(self.cur().index) <= old(self).ctx().remaining(
                    old(self).cur().index,
                ),
                p_args(self.ctx(), self.cur(), exprs_view(items@, items@.len())) == p_args(
                    self.ctx(),
                    old(self).cur(),
                    Seq::empty(),
                ),
            decreases self.ctx().remaining(self.cur().index),
        {
            proof {
                reveal(p_args);
                reveal(p_expr);
                lemma_expr(self.ctx(), self.cur());
            }
            let ghost before = items@;
            let item = self.parse_expr()?;
            proof {
                lemma_separator(self.ctx(), self.cur(), TokenKind::RParen);
            }
            if *self.current_kind() != TokenKind::RParen {
                self.expect(TokenKind::Comma)?;
            }
            items.push(item);
            proof {
                lemma_exprs_view_push(before, item);
            }
        }
        Ok(items)
    }

    /// Parse the field initialisers of a struct literal.
    fn parse_named_arg_list(&mut self) -> (result: ParseResult<NamedArgList>)
        requires
            old(self).wf(),
        ensures
            final(self).wf(),
            final(self).ctx() == old(self).ctx(),
            agrees(result, final(self).cur(), p_named_arg_list(old(self).ctx(), old(self).cur())),
            result is Ok ==> named_arg_list_view(result->Ok_0) == p_named_arg_list(old(self).ctx(), old(self).cur())->Ok_0.0,
            result is Ok ==> moved(old(self).ctx(), old(self).cur(), final(self).cur()),
        decreases old(self).ctx().remaining(old(self).cur().index), 8nat,
    {
        proof {
            reveal(p_named_arg_list);
            reveal(p_named_args);
            lemma_named_arg_list(self.ctx(), self.cur());
        }
        self.start();
        let args = self.parse_named_args()?;
        let span = self.end();
        Ok(NamedArgList { args, span })
    }

    /// Parse the field initialisers of a struct literal up to the closing brace.
    fn parse_named_args(&mut self) -> (result: ParseResult<Vec<NamedArg>>)
        requires
            old(self).wf(),
        ensures
            final(self).wf(),
            final(self).ctx() == old(self).ctx(),
            agrees(
                result,
                final(self).cur(),
                p_named_args(old(self).ctx(), old(self).cur(), Seq::empty()),
            ),
            result is Ok ==> named_args_view(result->Ok_0@, result->Ok_0@.len()) == p_named_args(
                old(self).ctx(),
                old(self).cur(),
                Seq::empty(),
            )->Ok_0.0,
            result is Ok ==> moved(old(self).ctx(), old(self).cur(), final(self).cur()),
        decreases old(self).ctx().remaining(old(self).cur().index), 7nat,
    {
        proof {
            reveal(p_named_args);
            reveal(p_named_arg);
            lemma_named_args(self.ctx(), self.cur(), Seq::empty());
        }
        let mut items: Vec<NamedArg> = Vec::new();
        assert(named_args_view(items@, items@.len()) =~= Seq::empty());
        while *self.current_kind() != TokenKind::RBrace
            invariant
                self.wf(),
                self.ctx() == old(self).ctx(),
                self.ctx().remaining(self.cur().index) <= old(self).ctx().remaining(
                    old(self).cur().index,
                ),
                p_named_args(self.ctx(), self.cur(), named_args_view(items@, items@.len())) == p_named_args(
                    self.ctx(),
                    old(self).cur(),
                    Seq::empty(),
                ),
            decreases self.ctx().remaining(self.cur().index),
        {
            proof {
                reveal(p_named_args);
                reveal(p_named_arg);
                lemma_named_arg(self.ctx(), self.cur());
            }
            let ghost before = items@;
            let item = self.parse_named_arg()?;
            proof {
                lemma_separator(self.ctx(), self.cur(), TokenKind::RBrace);
            }
            if *self.current_kind() != TokenKind::RBrace {
                self.expect(TokenKind::Comma)?;
            }
            items.push(item);
            proof {
                lemma_named_args_view_push(before, item);
            }
        }
        Ok(items)
    }

    /// Parse one field initialiser of a struct literal.
    fn parse_named_arg(&mut self) -> (result: ParseResult<NamedArg>)
        requires
            old(self).wf(),
        ensures
            final(self).wf(),
            final(self).ctx() == old(self).ctx(),
            agrees(result, final(self).cur(), p_named_arg(old(self).ctx(), old(self).cur())),
            result is Ok ==> named_arg_view(result->Ok_0) == p_named_arg(old(self).ctx(), old(self).cur())->Ok_0.0,
            result is Ok ==> moved(old(self).ctx(), old(self).cur(), final(self).cur()),
            result is Ok ==> old(self).cur().index < final(self).cur().index,
        decreases old(self).ctx().remaining(old(self).cur().index), 6nat,
    {
        proof {
            reveal(p_named_arg);
            reveal(p_expr);
            lemma_named_arg(self.ctx(), self.cur());
        }
        self.start();
        let ident = self.parse_ident()?;
        let colon = self.expect(TokenKind::Colon)?;
        let expr = self.parse_expr()?;
        let span = self.end();
        Ok(NamedArg { ident, colon, expr, span })
    }

    /// Parse a type.
    fn parse_ty(&mut self) -> (result: ParseResult<Ty>)
        requires
            old(self).wf(),
        ensures
            final(self).wf(),
            final(self).ctx() == old(self).ctx(),
            agrees(result, final(self).cur(), p_ty(old(self).ctx(), old(self).cur())),
            result is Ok ==> result->Ok_0 == p_ty(old(self).ctx(), old(self).cur())->Ok_0.0,
            result is Ok ==> moved(old(self).ctx(), old(self).cur(), final(self).cur()),
    {
        proof {
            reveal(p_ty);
            lemma_ty(self.ctx(), self.cur());
        }
        self.start();
        if *self.current_kind() == TokenKind::LParen {
            // Special case - the unit type '()'
            self.expect(TokenKind::LParen)?;
            self.expect(TokenKind::RParen)?;
            let span: Span = self.end();
            Ok(Ty { ident: Ident { repr: self.unit.clone(), span }, span })
        } else {
            let ident = self.parse_ident()?;
            let span = self.end();
            Ok(Ty { ident, span })
        }
    }


    /// Start a span at the current location.
    fn start(&mut self)
        requires
            old(self).wf(),
        ensures
            final(self).wf(),
            final(self).ctx() == old(self).ctx(),
            final(self).cur() == old(self).cur().start(old(self).ctx()),
    {
        let span = self.input[self.index].span.unwrap();
        self.starts.push(span);
    }

    /// End the span that was started last, at the token before the current one.
    fn end(&mut self) -> (span: Span)
        requires
            old(self).wf(),
            old(self).cur().starts.len() > 0,
        ensures
            final(self).wf(),
            final(self).ctx() == old(self).ctx(),
            final(self).cur() == old(self).cur().end(),
            span == old(self).cur().span(old(self).ctx()),
    {
        let last = if self.index > 0 {
            self.index - 1
        } else {
            0
        };
        let to = self.input[last].span.unwrap();
        let from = self.starts.pop().unwrap();
        Span::new(from.start, to.end)
    }

    /// Get the kind of the current token.
    fn current_kind(&self) -> (kind: &TokenKind)
        requires
            self.wf(),
        ensures
            *kind == self.ctx().kind(self.cur().index),
    {
        &self.input[self.index].kind
    }

    /// Get the current token.
    fn current(&self) -> (token: &Token)
        requires
            self.wf(),
        ensures
            *token == self.ctx().input[self.cur().index as int],
    {
        &self.input[self.index]
    }

    /// Advance the token `n` times; the last token is never left.
    fn advance(&mut self, n: usize)
        requires
            old(self).wf(),
        ensures
            final(self).wf(),
            final(self).ctx() == old(self).ctx(),
            final(self).cur().starts == old(self).cur().starts,
            final(self).cur().index == if old(self).cur().index + n >= old(self).ctx().input.len() {
                old(self).ctx().input.len() - 1
            } else {
                old(self).cur().index + n
            },
            n == 1 ==> final(self).cur() == old(self).cur().advance(old(self).ctx()),
    {
        if n >= self.input.len() - self.index {
            self.index = self.input.len() - 1;
        } else {
            self.index = self.index + n;
        }
    }

    /// The error for a current token that is not of the kind that must come.
    fn unexpected(&self, kind: &TokenKind) -> (error: ParseError)
        requires
            self.wf(),
        ensures
            error@ == expected(*kind, self.ctx().input[self.cur().index as int]),
    {
        let mut reason = String::from_str("Expected ");
        reason.append(kind.describe().as_str());
        reason.append(" but found ");
        reason.append(self.current_kind().describe().as_str());
        ParseError { reason, span: self.current().span }
    }

    /// Return the current token if its kind matches `kind`, or an error otherwise.
    fn expect(&mut self, kind: TokenKind) -> (result: ParseResult<Token>)
        requires
            old(self).wf(),
        ensures
            final(self).wf(),
            final(self).ctx() == old(self).ctx(),
            agrees(result, final(self).cur(), p_expect(old(self).ctx(), old(self).cur(), kind)),
            result is Ok ==> result->Ok_0 == p_expect(
                old(self).ctx(),
                old(self).cur(),
                kind,
            )->Ok_0.0,
            result is Ok ==> moved(old(self).ctx(), old(self).cur(), final(self).cur()),
            result is Ok ==> final(self).cur().starts == old(self).cur().starts,
            result is Ok ==> old(self).ctx().kind(old(self).cur().index).same(&kind),
    {
        if *self.current_kind() == kind {
            let token = self.current().clone();
            self.advance(1);
            return Ok(token);
        }
        Err(self.unexpected(&kind))
    }
}

/// The views of a list of expressions with one more expression.
proof fn lemma_exprs_view_push(exprs: Seq<Expr>, expr: Expr)
    ensures
        exprs_view(exprs.push(expr), exprs.len() + 1) == exprs_view(exprs, exprs.len()).push(
            expr_view(expr),
        ),
{
    lemma_exprs_view_prefix(exprs.push(expr), exprs, exprs.len());
}

/// The views of the first `n` expressions do not depend on what follows them.
proof fn lemma_exprs_view_prefix(longer: Seq<Expr>, exprs: Seq<Expr>, n: nat)
    requires
        n <= exprs.len() <= longer.len(),
        forall|i: int| 0 <= i < exprs.len() ==> longer[i] == exprs[i],
    ensures
        exprs_view(longer, n) == exprs_view(exprs, n),
    decreases n,
{
    if n > 0 {
        lemma_exprs_view_prefix(longer, exprs, (n - 1) as nat);
    }
}

/// The views of a list of field initialisers with one more initialiser.
proof fn lemma_named_args_view_push(args: Seq<NamedArg>, arg: NamedArg)
    ensures
        named_args_view(args.push(arg), args.len() + 1) == named_args_view(
            args,
            args.len(),
        ).push(named_arg_view(arg)),
{
    lemma_named_args_view_prefix(args.push(arg), args, args.len());
}

/// The views of the first `n` field initialisers do not depend on what follows them.
proof fn lemma_named_args_view_prefix(longer: Seq<NamedArg>, args: Seq<NamedArg>, n: nat)
    requires
        n <= args.len() <= longer.len(),
        forall|i: int| 0 <= i < args.len() ==> longer[i] == args[i],
    ensures
        named_args_view(longer, n) == named_args_view(args, n),
    decreases n,
{
    if n > 0 {
        lemma_named_args_view_prefix(longer, args, (n - 1) as nat);
    }
}

} // verus!
