//! The parser: from tokens to the syntax tree.
//!
//! A recursive-descent parser with one token of lookahead. It stops at the
//! first token that does not fit and reports what it expected there.

use crate::ast::{
    Ast, AstView, CmpStmt, DataType, Expr, ExprView, ExtDecl, ExtDeclView, FuncDecl,
    GlobalVarDecl, ParamDecl, ParamDeclView, Stmt, StmtView, VarDecl,
};
use crate::common::{tok_text, token_text, tokens_view, TokType, TokTypeView, Token, TokenView};
use crate::parse::grammar::{
    args, compound_stmt, data_type, data_type_of, declarator, expect, expr,
    expr_at, expr_stmt, ext_decl, func_params_body, global_init, identifier, int_const, kind_at,
    more_args, more_params, param, params, parse_spec, program, return_stmt, stmt, stmts,
    to_signed, token_at, unexpected, var_decl, var_decl_stmt, ExpectedView, SyntaxErrorView,
};
use vstd::prelude::*;

pub mod grammar;
pub mod printing;

verus! {

/// What the parser was looking for when it met a token that does not fit.
#[derive(Debug, PartialEq)]
pub enum Expected {
    /// A function or global variable declaration.
    Declaration,
    /// A statement or the end of the block.
    Statement,
    /// An expression.
    Expression,
    /// A data type.
    DataType,
    /// An identifier.
    Identifier,
    /// The given token.
    Token(TokType),
}

/// A token that does not fit the grammar, or an input that ends too early.
#[derive(Debug, PartialEq)]
pub struct SyntaxError {
    /// What was expected.
    pub expected: Expected,
    /// The token that stands there instead, with its place; `None` at the
    /// end of the input.
    pub found: Option<Token>,
}

impl View for Expected {
    type V = ExpectedView;

    open spec fn view(&self) -> ExpectedView {
        match self {
            Expected::Declaration => ExpectedView::Declaration,
            Expected::Statement => ExpectedView::Statement,
            Expected::Expression => ExpectedView::Expression,
            Expected::DataType => ExpectedView::DataType,
            Expected::Identifier => ExpectedView::Identifier,
            Expected::Token(t) => ExpectedView::Token(t@),
        }
    }
}

/// The model of an optional token.
pub open spec fn opt_token_view(t: Option<Token>) -> Option<TokenView> {
    match t {
        Some(t) => Some(t@),
        None => None,
    }
}

impl View for SyntaxError {
    type V = SyntaxErrorView;

    open spec fn view(&self) -> SyntaxErrorView {
        SyntaxErrorView { expected: self.expected@, found: opt_token_view(self.found) }
    }
}

/// How the token that was found reads: the token, or `EOF` at the end of
/// the input.
pub open spec fn found_text(found: Option<TokenView>) -> Seq<char> {
    match found {
        Some(t) => token_text(t),
        None => "EOF"@,
    }
}

/// How a syntax error reads.
pub open spec fn syntax_error_text(e: SyntaxErrorView) -> Seq<char> {
    match e.expected {
        ExpectedView::Token(kind) => "expected "@ + tok_text(kind) + " but "@ + found_text(
            e.found,
        ),
        ExpectedView::Declaration => "unexpected "@ + found_text(e.found),
        ExpectedView::Statement => "unexpected "@ + found_text(e.found),
        ExpectedView::Expression => "expected expression but "@ + found_text(e.found),
        ExpectedView::DataType => "expected data type but "@ + found_text(e.found),
        ExpectedView::Identifier => "expected ID but "@ + found_text(e.found),
    }
}

impl SyntaxError {
    /// The text of the token that was found, or `EOF`.
    fn found_to_text(&self) -> (s: String)
        ensures
            s@ == found_text(self@.found),
    {
        match &self.found {
            Some(t) => t.to_text(),
            None => String::from_str("EOF"),
        }
    }

    /// The text of the error: what was expected, the token that was found
    /// and its place.
    pub fn message(&self) -> (s: String)
        ensures
            s@ == syntax_error_text(self@),
    {
        let mut s = match &self.expected {
            Expected::Token(kind) => {
                let mut s = String::from_str("expected ");
                s.append(kind.to_text().as_str());
                s.append(" but ");
                s
            },
            Expected::Declaration => String::from_str("unexpected "),
            Expected::Statement => String::from_str("unexpected "),
            Expected::Expression => String::from_str("expected expression but "),
            Expected::DataType => String::from_str("expected data type but "),
            Expected::Identifier => String::from_str("expected ID but "),
        };
        s.append(self.found_to_text().as_str());
        s
    }
}

/// The models of a list of expressions, in order.
pub open spec fn exprs_view(list: Seq<Expr>) -> Seq<ExprView> {
    Seq::new(list.len(), |i: int| list[i]@)
}

/// The models of a list of statements, in order.
pub open spec fn stmts_view(list: Seq<Stmt>) -> Seq<StmtView> {
    Seq::new(list.len(), |i: int| list[i]@)
}

/// The models of a list of parameters, in order.
pub open spec fn params_view(list: Seq<ParamDecl>) -> Seq<ParamDeclView> {
    Seq::new(list.len(), |i: int| list[i]@)
}

/// The models of a list of external declarations, in order.
pub open spec fn decls_view(list: Seq<ExtDecl>) -> Seq<ExtDeclView> {
    Seq::new(list.len(), |i: int| list[i]@)
}

/// The models of the outcome of parsing a program.
pub open spec fn parse_result_view(r: Result<Ast, SyntaxError>) -> Result<
    AstView,
    SyntaxErrorView,
> {
    match r {
        Ok(ast) => Ok(ast@),
        Err(e) => Err(e@),
    }
}

/// Parses the tokens of a program into its syntax tree, or reports the
/// first token that does not fit the grammar.
pub fn parse(tokens: Vec<Token>) -> (r: Result<Ast, SyntaxError>)
    ensures
        parse_result_view(r) == parse_spec(tokens_view(tokens@)),
{
    let mut parser = Parser::new(tokens);
    parser.parse()
}

/// The 64-bit magnitude `v` read as a signed number in two's complement.
pub fn magnitude_to_signed(v: u64) -> (r: i64)
    ensures
        r == to_signed(v),
{
    if v <= 0x7fff_ffff_ffff_ffff {
        v as i64
    } else {
        let low: u64 = v - 0x8000_0000_0000_0000;
        (low as i64) + i64::MIN
    }
}

/// The tokens of a program and the index of the next one to read.
pub struct Parser {
    tokens: Vec<Token>,
    index: usize,
}

impl Parser {
    /// The models of the tokens.
    pub closed spec fn toks(&self) -> Seq<TokenView> {
        tokens_view(self.tokens@)
    }

    /// The index of the next token to read.
    pub closed spec fn at(&self) -> int {
        self.index as int
    }

    /// The index is within the tokens or just behind them.
    pub closed spec fn wf(&self) -> bool {
        self.index <= self.tokens.len()
    }

    /// A parser at the first of `tokens`.
    pub fn new(tokens: Vec<Token>) -> (p: Parser)
        ensures
            p.wf(),
            p.toks() == tokens_view(tokens@),
            p.at() == 0,
    {
        Parser { tokens, index: 0 }
    }

    /// Parses external declarations from the current token up to the end
    /// of the input. On success the parser stands behind the last token;
    /// it never moves back.
    pub fn parse(&mut self) -> (r: Result<Ast, SyntaxError>)
        requires
            old(self).wf(),
        ensures
            final(self).wf(),
            final(self).toks() == old(self).toks(),
            old(self).at() <= final(self).at(),
            match program(old(self).toks(), old(self).at()) {
                Ok(decls) => r matches Ok(ast) && ast@.decls == decls && final(self).at()
                    == final(self).toks().len(),
                Err(e) => r matches Err(x) && x@ == e,
            },
    {
        let mut decls: Vec<ExtDecl> = Vec::new();
        let ghost toks = self.toks();
        let ghost start = self.at();
        loop
            invariant
                self.wf(),
                self.tokens == old(self).tokens,
                toks == self.toks(),
                start == old(self).at(),
                start <= self.at(),
                match program(toks, self.at()) {
                    Ok(rest) => program(toks, start) == Ok::<Seq<ExtDeclView>, SyntaxErrorView>(
                        decls_view(decls@) + rest,
                    ),
                    Err(e) => program(toks, start) == Err::<Seq<ExtDeclView>, SyntaxErrorView>(e),
                },
            decreases self.tokens.len() - self.index,
        {
            let ghost before = decls_view(decls@);
            let ghost i = self.at();
            match self.peek() {
                None => {
                    proof {
                        assert(before + Seq::<ExtDeclView>::empty() =~= before);
                    }
                    let ast = Ast(decls);
                    proof {
                        assert(ast@.decls =~= before);
                    }
                    return Ok(ast);
                },
                Some(t) => {
                    if self.is_data_type(t) {
                        let ext = self.parse_ext_decl()?;
                        decls.push(ext);
                        proof {
                            let after = decls_view(decls@);
                            assert(after =~= before + seq![ext@]);
                            match program(toks, self.at()) {
                                Ok(rest) => {
                                    assert(after + rest =~= before + (seq![ext@] + rest));
                                },
                                Err(_) => {},
                            }
                        }
                    } else {
                        let found = t.clone();
                        return Err(SyntaxError { expected: Expected::Declaration, found: Some(found) });
                    }
                },
            }
        }
    }

    /// Parses one external declaration: a function if a parenthesis follows
    /// the declarator, and else a global variable.
    fn parse_ext_decl(&mut self) -> (r: Result<ExtDecl, SyntaxError>)
        requires
            old(self).wf(),
        ensures
            final(self).wf(),
            final(self).tokens == old(self).tokens,
            old(self).at() <= final(self).at(),
            match ext_decl(old(self).toks(), old(self).at()) {
                Ok((d, n)) => r matches Ok(x) && x@ == d && final(self).at() == old(self).at() + 1
                    + n,
                Err(e) => r matches Err(x) && x@ == e,
            },
    {
        let (return_type, name) = self.parse_declarator()?;
        if self.is_peek_tok(TokType::ParentOpen) {
            let (list, body) = self.parse_func_params_body()?;
            Ok(ExtDecl::Func(make_func(return_type, name, list, body)))
        } else {
            let init = self.parse_global_init()?;
            Ok(ExtDecl::Global(GlobalVarDecl(return_type, name, init)))
        }
    }

    /// Parses the initializer of a global variable, if there is one, and
    /// the semicolon that ends the declaration.
    fn parse_global_init(&mut self) -> (r: Result<Option<Expr>, SyntaxError>)
        requires
            old(self).wf(),
        ensures
            final(self).wf(),
            final(self).tokens == old(self).tokens,
            old(self).at() <= final(self).at(),
            match global_init(old(self).toks(), old(self).at()) {
                Ok((init, n)) => r matches Ok(x) && crate::ast::opt_expr_view(x) == init
                    && final(self).at() == old(self).at() + 1 + n,
                Err(e) => r matches Err(x) && x@ == e,
            },
    {
        let init = if self.is_peek_tok(TokType::Assign) {
            self.consume_any();
            Some(self.parse_expr()?)
        } else {
            None
        };
        self.consume(TokType::Semicolon)?;
        Ok(init)
    }

    /// Parses the parameters and the body of a function.
    fn parse_func_params_body(&mut self) -> (r: Result<(Vec<ParamDecl>, CmpStmt), SyntaxError>)
        requires
            old(self).wf(),
        ensures
            final(self).wf(),
            final(self).tokens == old(self).tokens,
            old(self).at() <= final(self).at(),
            match func_params_body(old(self).toks(), old(self).at()) {
                Ok(((list, body), n)) => r matches Ok(x) && params_view(x.0@) == list && x.1@
                    == body && final(self).at() == old(self).at() + 1 + n,
                Err(e) => r matches Err(x) && x@ == e,
            },
    {
        self.consume(TokType::ParentOpen)?;
        let list = self.parse_parameters()?;
        self.consume(TokType::ParentClose)?;
        let body = self.parse_compound_stmt()?;
        Ok((list, body))
    }

    /// Parses a list of parameters, which may be empty.
    fn parse_parameters(&mut self) -> (r: Result<Vec<ParamDecl>, SyntaxError>)
        requires
            old(self).wf(),
        ensures
            final(self).wf(),
            final(self).tokens == old(self).tokens,
            old(self).at() <= final(self).at(),
            match params(old(self).toks(), old(self).at()) {
                Ok((list, n)) => r matches Ok(x) && params_view(x@) == list && final(self).at()
                    == old(self).at() + n,
                Err(e) => r matches Err(x) && x@ == e,
            },
    {
        let mut vec: Vec<ParamDecl> = Vec::new();
        let first = match self.peek() {
            Some(t) => self.is_data_type(t),
            None => false,
        };
        if first {
            let p = self.parse_parameter()?;
            vec.push(p);
            let ghost toks = self.toks();
            let ghost start = old(self).at();
            proof {
                assert(params_view(vec@) =~= seq![p@]);
            }
            loop
                invariant
                    self.wf(),
                    self.tokens == old(self).tokens,
                    toks == self.toks(),
                    start == old(self).at(),
                    start <= self.at(),
                    match more_params(toks, self.at()) {
                        Ok((rest, m)) => params(toks, start) == Ok::<
                            (Seq<ParamDeclView>, nat),
                            SyntaxErrorView,
                        >((params_view(vec@) + rest, (self.at() - start + m) as nat)),
                        Err(e) => params(toks, start) == Err::<
                            (Seq<ParamDeclView>, nat),
                            SyntaxErrorView,
                        >(e),
                    },
                ensures
                    self.wf(),
                    self.tokens == old(self).tokens,
                    params(toks, start) == Ok::<(Seq<ParamDeclView>, nat), SyntaxErrorView>(
                        (params_view(vec@), (self.at() - start) as nat),
                    ),
                decreases self.tokens.len() - self.index,
            {
                let ghost before = params_view(vec@);
                if self.is_peek_tok(TokType::Comma) {
                    self.consume_any();
                    let p = self.parse_parameter()?;
                    vec.push(p);
                    proof {
                        let after = params_view(vec@);
                        assert(after =~= before + seq![p@]);
                        match more_params(toks, self.at()) {
                            Ok((rest, _)) => {
                                assert(after + rest =~= before + (seq![p@] + rest));
                            },
                            Err(_) => {},
                        }
                    }
                } else {
                    proof {
                        assert(before + Seq::<ParamDeclView>::empty() =~= before);
                    }
                    break ;
                }
            }
        } else {
            proof {
                assert(params_view(vec@) =~= Seq::<ParamDeclView>::empty());
            }
        }
        Ok(vec)
    }

    /// Parses one parameter.
    fn parse_parameter(&mut self) -> (r: Result<ParamDecl, SyntaxError>)
        requires
            old(self).wf(),
        ensures
            final(self).wf(),
            final(self).tokens == old(self).tokens,
            old(self).at() <= final(self).at(),
            match param(old(self).toks(), old(self).at()) {
                Ok(p) => r matches Ok(x) && x@ == p && final(self).at() == old(self).at() + 2,
                Err(e) => r matches Err(x) && x@ == e,
            },
    {
        let (dt, id) = self.parse_declarator()?;
        Ok(ParamDecl { data_type: dt, name: id })
    }

    /// Parses a data type and the identifier that it declares.
    fn parse_declarator(&mut self) -> (r: Result<(DataType, String), SyntaxError>)
        requires
            old(self).wf(),
        ensures
            final(self).wf(),
            final(self).tokens == old(self).tokens,
            old(self).at() <= final(self).at(),
            match declarator(old(self).toks(), old(self).at()) {
                Ok((t, name)) => r matches Ok(x) && x.0 == t && x.1@ == name && final(self).at()
                    == old(self).at() + 2,
                Err(e) => r matches Err(x) && x@ == e,
            },
    {
        let dt = self.parse_data_type()?;
        let id = self.parse_id()?;
        Ok((dt, id))
    }

    /// Parses a block: statements between braces.
    fn parse_compound_stmt(&mut self) -> (r: Result<CmpStmt, SyntaxError>)
        requires
            old(self).wf(),
        ensures
            final(self).wf(),
            final(self).tokens == old(self).tokens,
            old(self).at() <= final(self).at(),
            match compound_stmt(old(self).toks(), old(self).at()) {
                Ok((block, n)) => r matches Ok(x) && x@ == block && final(self).at() == old(
                    self,
                ).at() + 1 + n,
                Err(e) => r matches Err(x) && x@ == e,
            },
        decreases old(self).tokens.len() - old(self).index, 0nat,
    {
        self.consume(TokType::BracketOpen)?;
        let mut list: Vec<Stmt> = Vec::new();
        let ghost toks = self.toks();
        let ghost start = self.at();
        proof {
            assert(stmts_view(list@) =~= Seq::<StmtView>::empty());
        }
        loop
            invariant
                self.wf(),
                self.tokens == old(self).tokens,
                toks == self.toks(),
                start == old(self).at() + 1,
                start <= self.at(),
                kind_at(toks, start - 1) == Some(TokTypeView::BracketOpen),
                match stmts(toks, self.at()) {
                    Ok((rest, m)) => stmts(toks, start) == Ok::<
                        (Seq<StmtView>, nat),
                        SyntaxErrorView,
                    >((stmts_view(list@) + rest, (self.at() - start + m) as nat)),
                    Err(e) => stmts(toks, start) == Err::<(Seq<StmtView>, nat), SyntaxErrorView>(
                        e,
                    ),
                },
            ensures
                self.wf(),
                self.tokens == old(self).tokens,
                toks == self.toks(),
                stmts(toks, start) == Ok::<(Seq<StmtView>, nat), SyntaxErrorView>(
                    (stmts_view(list@), (self.at() - start) as nat),
                ),
                kind_at(toks, self.at()) == Some(TokTypeView::BracketClose),
            decreases self.tokens.len() - self.index,
        {
            let ghost before = stmts_view(list@);
            match self.parse_stmt()? {
                Some(s) => {
                    list.push(s);
                    proof {
                        let after = stmts_view(list@);
                        assert(after =~= before + seq![s@]);
                        match stmts(toks, self.at()) {
                            Ok((rest, _)) => {
                                assert(after + rest =~= before + (seq![s@] + rest));
                            },
                            Err(_) => {},
                        }
                    }
                },
                None => {
                    proof {
                        assert(before + Seq::<StmtView>::empty() =~= before);
                    }
                    break ;
                },
            }
        }
        self.consume(TokType::BracketClose)?;
        let block = CmpStmt { stmts: list };
        proof {
            assert(block@.stmts =~= stmts_view(list@));
        }
        Ok(block)
    }

    /// Parses one statement, or finds the brace that closes the block.
    fn parse_stmt(&mut self) -> (r: Result<Option<Stmt>, SyntaxError>)
        requires
            old(self).wf(),
        ensures
            final(self).wf(),
            final(self).tokens == old(self).tokens,
            old(self).at() <= final(self).at(),
            match kind_at(old(self).toks(), old(self).at()) {
                Some(TokTypeView::BracketClose) => r matches Ok(None) && final(self).at() == old(
                    self,
                ).at(),
                _ => match stmt(old(self).toks(), old(self).at()) {
                    Ok((s, n)) => r matches Ok(Some(x)) && x@ == s && final(self).at() == old(
                        self,
                    ).at() + 1 + n,
                    Err(e) => r matches Err(x) && x@ == e,
                },
            },
        decreases old(self).tokens.len() - old(self).index, 1nat,
    {
        if self.is_expr() {
            return Ok(Some(self.parse_expr_stmt()?));
        }
        match self.peek() {
            Some(t) => {
                if self.is_data_type(t) {
                    Ok(Some(self.parse_var_decl_stmt()?))
                } else if t.tok.same(&TokType::KeywordReturn) {
                    Ok(Some(self.parse_return_stmt()?))
                } else if t.tok.same(&TokType::BracketOpen) {
                    Ok(Some(Stmt::Compound(self.parse_compound_stmt()?)))
                } else if t.tok.same(&TokType::BracketClose) {
                    Ok(None)
                } else {
                    let found = t.clone();
                    Err(SyntaxError { expected: Expected::Statement, found: Some(found) })
                }
            },
            None => Err(SyntaxError { expected: Expected::Statement, found: None }),
        }
    }

    /// Parses the declaration of a local variable as a statement.
    fn parse_var_decl_stmt(&mut self) -> (r: Result<Stmt, SyntaxError>)
        requires
            old(self).wf(),
        ensures
            final(self).wf(),
            final(self).tokens == old(self).tokens,
            old(self).at() <= final(self).at(),
            match var_decl_stmt(old(self).toks(), old(self).at()) {
                Ok((s, n)) => r matches Ok(x) && x@ == s && final(self).at() == old(self).at() + 1
                    + n,
                Err(e) => r matches Err(x) && x@ == e,
            },
    {
        let decl = self.parse_var_decl()?;
        self.consume(TokType::Semicolon)?;
        Ok(Stmt::VarDecl(decl))
    }

    /// Parses the declaration of a local variable, with its initializer
    /// if it has one.
    fn parse_var_decl(&mut self) -> (r: Result<VarDecl, SyntaxError>)
        requires
            old(self).wf(),
        ensures
            final(self).wf(),
            final(self).tokens == old(self).tokens,
            old(self).at() <= final(self).at(),
            match var_decl(old(self).toks(), old(self).at()) {
                Ok((d, n)) => r matches Ok(x) && x@ == d && final(self).at() == old(self).at() + 1
                    + n,
                Err(e) => r matches Err(x) && x@ == e,
            },
    {
        let data_type = self.parse_data_type()?;
        let name: String = self.parse_id()?;
        let init = if self.is_peek_tok(TokType::Assign) {
            self.consume(TokType::Assign)?;
            Some(self.parse_expr()?)
        } else {
            None
        };
        Ok(VarDecl(data_type, name, init))
    }

    /// Parses a return statement.
    fn parse_return_stmt(&mut self) -> (r: Result<Stmt, SyntaxError>)
        requires
            old(self).wf(),
        ensures
            final(self).wf(),
            final(self).tokens == old(self).tokens,
            old(self).at() <= final(self).at(),
            match return_stmt(old(self).toks(), old(self).at()) {
                Ok((s, n)) => r matches Ok(x) && x@ == s && final(self).at() == old(self).at() + 1
                    + n,
                Err(e) => r matches Err(x) && x@ == e,
            },
    {
        self.consume(TokType::KeywordReturn)?;
        let value: Option<Expr> = if self.is_expr() {
            Some(self.parse_expr()?)
        } else {
            None
        };
        self.consume(TokType::Semicolon)?;
        Ok(Stmt::Return(value))
    }

    /// Parses a statement that consists of an expression, such as a call.
    fn parse_expr_stmt(&mut self) -> (r: Result<Stmt, SyntaxError>)
        requires
            old(self).wf(),
        ensures
            final(self).wf(),
            final(self).tokens == old(self).tokens,
            old(self).at() <= final(self).at(),
            match expr_stmt(old(self).toks(), old(self).at()) {
                Ok((s, n)) => r matches Ok(x) && x@ == s && final(self).at() == old(self).at() + 1
                    + n,
                Err(e) => r matches Err(x) && x@ == e,
            },
    {
        let e = self.parse_expr()?;
        self.consume(TokType::Semicolon)?;
        Ok(Stmt::Expr(e))
    }

    /// Whether an expression starts at the current token.
    fn is_expr(&self) -> (r: bool)
        requires
            self.wf(),
        ensures
            r == expr_at(self.toks(), self.at()),
    {
        self.is_int_const_expr() || self.is_ref()
    }

    /// Parses an expression.
    fn parse_expr(&mut self) -> (r: Result<Expr, SyntaxError>)
        requires
            old(self).wf(),
        ensures
            final(self).wf(),
            final(self).tokens == old(self).tokens,
            old(self).at() <= final(self).at(),
            match expr(old(self).toks(), old(self).at()) {
                Ok((e, n)) => r matches Ok(x) && x@ == e && final(self).at() == old(self).at() + 1
                    + n,
                Err(e) => r matches Err(x) && x@ == e,
            },
        decreases old(self).tokens.len() - old(self).index, 2nat,
    {
        if self.is_int_const_expr() {
            self.parse_int_const_expr()
        } else if self.is_ref() {
            self.parse_ref_expr()
        } else {
            Err(SyntaxError { expected: Expected::Expression, found: self.found() })
        }
    }

    /// Whether the current token is an integer constant.
    fn is_int_const_expr(&self) -> (r: bool)
        requires
            self.wf(),
        ensures
            r == (kind_at(self.toks(), self.at()) matches Some(k) && k is NumInt),
    {
        match self.peek_tok() {
            Some(TokType::NumInt(_)) => true,
            _ => false,
        }
    }

    /// Parses an integer constant.
    fn parse_int_const_expr(&mut self) -> (r: Result<Expr, SyntaxError>)
        requires
            old(self).wf(),
        ensures
            final(self).wf(),
            final(self).tokens == old(self).tokens,
            old(self).at() <= final(self).at(),
            match int_const(old(self).toks(), old(self).at()) {
                Ok(e) => r matches Ok(x) && x@ == e && final(self).at() == old(self).at() + 1,
                Err(e) => r matches Err(x) && x@ == e && final(self).at() == old(self).at(),
            },
    {
        let value = match self.peek_tok() {
            Some(TokType::NumInt(v)) => Some(*v),
            _ => None,
        };
        match value {
            Some(v) => {
                self.consume_any();
                Ok(Expr::IntConst(magnitude_to_signed(v)))
            },
            None => Err(SyntaxError { expected: Expected::Expression, found: self.found() }),
        }
    }

    /// Whether the current token is an identifier, with which a reference
    /// to a variable or a call starts.
    fn is_ref(&self) -> (r: bool)
        requires
            self.wf(),
        ensures
            r == (kind_at(self.toks(), self.at()) matches Some(k) && k is ID),
    {
        self.is_id()
    }

    /// Parses a call or a reference to a variable.
    fn parse_ref_expr(&mut self) -> (r: Result<Expr, SyntaxError>)
        requires
            old(self).wf(),
            kind_at(old(self).toks(), old(self).at()) matches Some(k) && k is ID,
        ensures
            final(self).wf(),
            final(self).tokens == old(self).tokens,
            old(self).at() <= final(self).at(),
            match expr(old(self).toks(), old(self).at()) {
                Ok((e, n)) => r matches Ok(x) && x@ == e && final(self).at() == old(self).at() + 1
                    + n,
                Err(e) => r matches Err(x) && x@ == e,
            },
        decreases old(self).tokens.len() - old(self).index, 1nat,
    {
        let name = self.parse_id()?;
        if self.is_peek_tok(TokType::ParentOpen) {
            self.parse_function_call_expr(name)
        } else {
            Ok(Expr::VarRef(name))
        }
    }

    /// Parses the argument list of a call of `name`, parentheses included.
    fn parse_function_call_expr(&mut self, name: String) -> (r: Result<Expr, SyntaxError>)
        requires
            old(self).wf(),
            kind_at(old(self).toks(), old(self).at()) == Some(TokTypeView::ParentOpen),
        ensures
            final(self).wf(),
            final(self).tokens == old(self).tokens,
            old(self).at() <= final(self).at(),
            match args(old(self).toks(), old(self).at() + 1) {
                Ok((list, n)) => match expect(
                    old(self).toks(),
                    old(self).at() + 1 + n,
                    TokTypeView::ParentClose,
                ) {
                    Ok(_) => r matches Ok(x) && x@ == ExprView::FunctionCall(name@, list)
                        && final(self).at() == old(self).at() + 2 + n,
                    Err(e) => r matches Err(x) && x@ == e,
                },
                Err(e) => r matches Err(x) && x@ == e,
            },
        decreases old(self).tokens.len() - old(self).index, 0nat,
    {
        self.consume(TokType::ParentOpen)?;
        let list = self.parse_arguments()?;
        self.consume(TokType::ParentClose)?;
        let call = Expr::FunctionCall(name, list);
        proof {
            assert(call@->FunctionCall_1 =~= exprs_view(list@));
        }
        Ok(call)
    }

    /// Parses a list of arguments, which may be empty.
    fn parse_arguments(&mut self) -> (r: Result<Vec<Expr>, SyntaxError>)
        requires
            old(self).wf(),
        ensures
            final(self).wf(),
            final(self).tokens == old(self).tokens,
            old(self).at() <= final(self).at(),
            match args(old(self).toks(), old(self).at()) {
                Ok((list, n)) => r matches Ok(x) && exprs_view(x@) == list && final(self).at()
                    == old(self).at() + n,
                Err(e) => r matches Err(x) && x@ == e,
            },
        decreases old(self).tokens.len() - old(self).index, 3nat,
    {
        let mut vec: Vec<Expr> = Vec::new();
        if self.is_expr() {
            let first = self.parse_expr()?;
            vec.push(first);
            let ghost toks = self.toks();
            let ghost start = old(self).at();
            proof {
                assert(exprs_view(vec@) =~= seq![first@]);
            }
            loop
                invariant
                    self.wf(),
                    self.tokens == old(self).tokens,
                    toks == self.toks(),
                    start == old(self).at(),
                    start < self.at(),
                    match more_args(toks, self.at()) {
                        Ok((rest, m)) => args(toks, start) == Ok::<
                            (Seq<ExprView>, nat),
                            SyntaxErrorView,
                        >((exprs_view(vec@) + rest, (self.at() - start + m) as nat)),
                        Err(e) => args(toks, start) == Err::<(Seq<ExprView>, nat), SyntaxErrorView>(
                            e,
                        ),
                    },
                ensures
                    self.wf(),
                    self.tokens == old(self).tokens,
                    args(toks, start) == Ok::<(Seq<ExprView>, nat), SyntaxErrorView>(
                        (exprs_view(vec@), (self.at() - start) as nat),
                    ),
                decreases self.tokens.len() - self.index,
            {
                let ghost before = exprs_view(vec@);
                if self.is_peek_tok(TokType::Comma) {
                    self.consume_any();
                    let e = self.parse_expr()?;
                    vec.push(e);
                    proof {
                        let after = exprs_view(vec@);
                        assert(after =~= before + seq![e@]);
                        match more_args(toks, self.at()) {
                            Ok((rest, _)) => {
                                assert(after + rest =~= before + (seq![e@] + rest));
                            },
                            Err(_) => {},
                        }
                    }
                } else {
                    proof {
                        assert(before + Seq::<ExprView>::empty() =~= before);
                    }
                    break ;
                }
            }
        } else {
            proof {
                assert(exprs_view(vec@) =~= Seq::<ExprView>::empty());
            }
        }
        Ok(vec)
    }

    /// Whether `tok` names a data type.
    fn is_data_type(&self, tok: &Token) -> (r: bool)
        ensures
            r == data_type_of(tok@.tok) is Some,
    {
        self.has_value(Parser::parse_data_type_opt(tok))
    }

    /// The data type that `tok` names, if it names one.
    fn parse_data_type_opt(tok: &Token) -> (r: Option<DataType>)
        ensures
            r == data_type_of(tok@.tok),
    {
        match tok.tok {
            TokType::KeywordInt => Some(DataType::Int),
            TokType::KeywordVoid => Some(DataType::Void),
            _ => None,
        }
    }

    /// Parses a data type.
    fn parse_data_type(&mut self) -> (r: Result<DataType, SyntaxError>)
        requires
            old(self).wf(),
        ensures
            final(self).wf(),
            final(self).tokens == old(self).tokens,
            old(self).at() <= final(self).at(),
            match data_type(old(self).toks(), old(self).at()) {
                Ok(t) => r == Ok::<DataType, SyntaxError>(t) && final(self).at() == old(self).at()
                    + 1,
                Err(e) => r matches Err(x) && x@ == e && final(self).at() == old(self).at(),
            },
    {
        let parsed = match self.peek() {
            Some(t) => Parser::parse_data_type_opt(t),
            None => None,
        };
        match parsed {
            Some(t) => {
                self.consume_any();
                Ok(t)
            },
            None => Err(SyntaxError { expected: Expected::DataType, found: self.found() }),
        }
    }

    /// Parses an identifier.
    fn parse_id(&mut self) -> (r: Result<String, SyntaxError>)
        requires
            old(self).wf(),
        ensures
            final(self).wf(),
            final(self).tokens == old(self).tokens,
            old(self).at() <= final(self).at(),
            match identifier(old(self).toks(), old(self).at()) {
                Ok(name) => r matches Ok(x) && x@ == name && final(self).at() == old(self).at()
                    + 1,
                Err(e) => r matches Err(x) && x@ == e && final(self).at() == old(self).at(),
            },
    {
        let name = match self.peek_tok() {
            Some(TokType::ID(s)) => Some(s.clone()),
            _ => None,
        };
        match name {
            Some(s) => {
                self.consume_any();
                Ok(s)
            },
            None => Err(SyntaxError { expected: Expected::Identifier, found: self.found() }),
        }
    }

    /// Whether the current token is an identifier.
    fn is_id(&self) -> (r: bool)
        requires
            self.wf(),
        ensures
            r == (kind_at(self.toks(), self.at()) matches Some(k) && k is ID),
    {
        match self.peek_tok() {
            Some(TokType::ID(_)) => true,
            _ => false,
        }
    }

    /// Whether `opt` holds a value.
    fn has_value<T>(&self, opt: Option<T>) -> (r: bool)
        ensures
            r == opt is Some,
    {
        match opt {
            Some(_) => true,
            _ => false,
        }
    }

    /// Whether the current token is of the kind `tok`.
    fn is_peek_tok(&self, tok: TokType) -> (r: bool)
        requires
            self.wf(),
        ensures
            r == (kind_at(self.toks(), self.at()) == Some(tok@)),
    {
        match self.peek_tok() {
            Some(t) => t.same(&tok),
            None => false,
        }
    }

    /// Moves past the current token, whatever it is.
    fn consume_any(&mut self)
        requires
            old(self).wf(),
            old(self).at() < old(self).toks().len(),
        ensures
            final(self).wf(),
            final(self).tokens == old(self).tokens,
            old(self).at() <= final(self).at(),
            final(self).at() == old(self).at() + 1,
    {
        let _ = self.next();
    }

    /// Moves past the current token, which must be of the kind `tok`.
    fn consume(&mut self, tok: TokType) -> (r: Result<(), SyntaxError>)
        requires
            old(self).wf(),
        ensures
            final(self).wf(),
            final(self).tokens == old(self).tokens,
            old(self).at() <= final(self).at(),
            match expect(old(self).toks(), old(self).at(), tok@) {
                Ok(_) => r is Ok && final(self).at() == old(self).at() + 1,
                Err(e) => r matches Err(x) && x@ == e && final(self).at() == old(self).at(),
            },
    {
        if self.is_peek_tok(tok.clone()) {
            self.consume_any();
            Ok(())
        } else {
            Err(SyntaxError { expected: Expected::Token(tok), found: self.found() })
        }
    }

    /// A copy of the current token for a diagnostic, if there is one.
    fn found(&self) -> (r: Option<Token>)
        requires
            self.wf(),
        ensures
            opt_token_view(r) == token_at(self.toks(), self.at()),
    {
        match self.peek() {
            Some(t) => Some(t.clone()),
            None => None,
        }
    }

    /// The current token, if there is one, and moves past it.
    fn next(&mut self) -> (r: Option<&Token>)
        requires
            old(self).wf(),
        ensures
            final(self).wf(),
            final(self).tokens == old(self).tokens,
            old(self).at() <= final(self).at(),
            old(self).at() < old(self).toks().len() ==> (r matches Some(t) && t@ == old(
                self,
            ).toks()[old(self).at()] && final(self).at() == old(self).at() + 1),
            old(self).at() >= old(self).toks().len() ==> r is None && final(self).at() == old(
                self,
            ).at(),
    {
        if self.index < self.tokens.len() {
            let i = self.index;
            self.index = self.index + 1;
            Some(&self.tokens[i])
        } else {
            None
        }
    }

    /// The current token, if there is one.
    fn peek(&self) -> (r: Option<&Token>)
        requires
            self.wf(),
        ensures
            self.at() < self.toks().len() ==> (r matches Some(t) && t@ == self.toks()[self.at()]),
            self.at() >= self.toks().len() ==> r is None,
    {
        self.lookahead(0)
    }

    /// The token `i` places after the current one, if there is one.
    fn lookahead(&self, i: usize) -> (r: Option<&Token>)
        requires
            self.wf(),
            self.at() + i <= usize::MAX,
        ensures
            self.at() + i < self.toks().len() ==> (r matches Some(t) && t@ == self.toks()[self.at()
                + i]),
            self.at() + i >= self.toks().len() ==> r is None,
    {
        if self.index + i < self.tokens.len() {
            Some(&self.tokens[self.index + i])
        } else {
            None
        }
    }

    /// The kind of the current token, if there is one.
    fn peek_tok(&self) -> (r: Option<&TokType>)
        requires
            self.wf(),
        ensures
            match kind_at(self.toks(), self.at()) {
                Some(k) => r matches Some(t) && t@ == k,
                None => r is None,
            },
    {
        self.lookahead_tok(0)
    }

    /// The kind of the token `i` places after the current one, if there
    /// is one.
    fn lookahead_tok(&self, i: usize) -> (r: Option<&TokType>)
        requires
            self.wf(),
            self.at() + i <= usize::MAX,
        ensures
            match kind_at(self.toks(), self.at() + i) {
                Some(k) => r matches Some(t) && t@ == k,
                None => r is None,
            },
    {
        match self.lookahead(i) {
            Some(t) => Some(&t.tok),
            None => None,
        }
    }
}

/// The declaration of a function from its parts.
fn make_func(return_type: DataType, name: String, params: Vec<ParamDecl>, body: CmpStmt) -> (f:
    FuncDecl)
    ensures
        f@.return_type == return_type,
        f@.name == name@,
        f@.params == params_view(params@),
        f@.body == body@,
{
    let f = FuncDecl { return_type, name, params, cmp_stmt: body };
    proof {
        assert(f@.params =~= params_view(params@));
    }
    f
}

} // verus!
