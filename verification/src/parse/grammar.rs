//! The grammar: which syntax tree a sequence of tokens stands for.
//!
//! ```text
//! Program       := (FuncDecl | GlobalVarDecl)*
//! Declarator    := DataType Identifier
//! FuncDecl      := Declarator '(' ParamList? ')' CompoundStmt
//! ParamList     := Declarator (',' Declarator)*
//! GlobalVarDecl := Declarator ('=' Expr)? ';'
//! CompoundStmt  := '{' Stmt* '}'
//! Stmt          := VarDeclStmt | ReturnStmt | ExprStmt | CompoundStmt
//! VarDeclStmt   := Declarator ('=' Expr)? ';'
//! ReturnStmt    := 'return' Expr? ';'
//! ExprStmt      := Expr ';'
//! Expr          := IntConst | Identifier ('(' ArgList? ')')?
//! ArgList       := Expr (',' Expr)*
//! ```
//!
//! Each rule is a function of the tokens and the index at which the
//! construct starts. A rule that succeeds gives the construct and the
//! number of tokens that it spans; a rule that fails gives the syntax
//! error of the first token that does not fit. One token of lookahead
//! decides between the alternatives of a rule.

use crate::ast::{
    AstView, CmpStmtView, DataType, ExprView, ExtDeclView, FuncDeclView, ParamDeclView,
    StmtView, VarDeclView,
};
use crate::common::{TokTypeView, TokenView};
use vstd::prelude::*;

verus! {

/// What the parser was looking for when it met a token that does not fit.
pub enum ExpectedView {
    /// A function or global variable declaration.
    Declaration,
    /// A statement or the end of the block.
    Statement,
    /// An expression.
    Expression,
    /// A data type.
    DataType,
    /// An identifier.
    Identifier,
    /// The given token.
    Token(TokTypeView),
}

/// Model of a syntax error: what was expected, and the token that stands
/// there instead, or `None` at the end of the input.
pub struct SyntaxErrorView {
    pub expected: ExpectedView,
    pub found: Option<TokenView>,
}

/// What a rule gives: the construct and a count of tokens, or the error.
pub type Parsed<T> = Result<(T, nat), SyntaxErrorView>;

/// The token at index `i`, if there is one.
pub open spec fn token_at(toks: Seq<TokenView>, i: int) -> Option<TokenView> {
    if 0 <= i < toks.len() {
        Some(toks[i])
    } else {
        None
    }
}

/// The kind of the token at index `i`, if there is one.
pub open spec fn kind_at(toks: Seq<TokenView>, i: int) -> Option<TokTypeView> {
    if 0 <= i < toks.len() {
        Some(toks[i].tok)
    } else {
        None
    }
}

/// How many tokens are left from index `i` on.
pub open spec fn left(toks: Seq<TokenView>, i: int) -> nat {
    if 0 <= i <= toks.len() {
        (toks.len() - i) as nat
    } else {
        0
    }
}

/// The error of meeting the token at index `i` where `expected` should
/// stand.
pub open spec fn unexpected(expected: ExpectedView, toks: Seq<TokenView>, i: int) -> SyntaxErrorView {
    SyntaxErrorView { expected, found: token_at(toks, i) }
}

/// The data type that a token names, if it names one.
pub open spec fn data_type_of(kind: TokTypeView) -> Option<DataType> {
    match kind {
        TokTypeView::KeywordInt => Some(DataType::Int),
        TokTypeView::KeywordVoid => Some(DataType::Void),
        _ => None,
    }
}

/// Whether a data type stands at index `i`.
pub open spec fn data_type_at(toks: Seq<TokenView>, i: int) -> bool {
    kind_at(toks, i) matches Some(kind) && data_type_of(kind) is Some
}

/// Whether an expression starts at index `i`: with an integer constant or
/// with an identifier.
pub open spec fn expr_at(toks: Seq<TokenView>, i: int) -> bool {
    kind_at(toks, i) matches Some(kind) && (kind is NumInt || kind is ID)
}

/// The 64-bit magnitude `v` read as a signed number in two's complement.
pub open spec fn to_signed(v: u64) -> i64 {
    if v <= i64::MAX {
        v as i64
    } else {
        (v - 0x1_0000_0000_0000_0000) as i64
    }
}

/// The token `kind` must stand at index `i`.
pub open spec fn expect(toks: Seq<TokenView>, i: int, kind: TokTypeView) -> Result<
    (),
    SyntaxErrorView,
> {
    if kind_at(toks, i) == Some(kind) {
        Ok(())
    } else {
        Err(unexpected(ExpectedView::Token(kind), toks, i))
    }
}

/// The data type at index `i`.
pub open spec fn data_type(toks: Seq<TokenView>, i: int) -> Result<DataType, SyntaxErrorView> {
    match kind_at(toks, i) {
        Some(kind) => match data_type_of(kind) {
            Some(t) => Ok(t),
            None => Err(unexpected(ExpectedView::DataType, toks, i)),
        },
        None => Err(unexpected(ExpectedView::DataType, toks, i)),
    }
}

/// The identifier at index `i`.
pub open spec fn identifier(toks: Seq<TokenView>, i: int) -> Result<Seq<char>, SyntaxErrorView> {
    match kind_at(toks, i) {
        Some(TokTypeView::ID(name)) => Ok(name),
        _ => Err(unexpected(ExpectedView::Identifier, toks, i)),
    }
}

/// The integer constant at index `i`.
pub open spec fn int_const(toks: Seq<TokenView>, i: int) -> Result<ExprView, SyntaxErrorView> {
    match kind_at(toks, i) {
        Some(TokTypeView::NumInt(v)) => Ok(ExprView::IntConst(to_signed(v))),
        _ => Err(unexpected(ExpectedView::Expression, toks, i)),
    }
}

/// `Declarator := DataType Identifier`, two tokens from index `i` on.
pub open spec fn declarator(toks: Seq<TokenView>, i: int) -> Result<
    (DataType, Seq<char>),
    SyntaxErrorView,
> {
    match data_type(toks, i) {
        Err(e) => Err(e),
        Ok(t) => match identifier(toks, i + 1) {
            Err(e) => Err(e),
            Ok(name) => Ok((t, name)),
        },
    }
}

/// The parameter at index `i`: a declarator.
pub open spec fn param(toks: Seq<TokenView>, i: int) -> Result<ParamDeclView, SyntaxErrorView> {
    match declarator(toks, i) {
        Err(e) => Err(e),
        Ok((t, name)) => Ok(ParamDeclView { data_type: t, name }),
    }
}

/// `Expr := IntConst | Identifier ('(' ArgList? ')')?` at index `i`, with
/// the number of its tokens after the first. An identifier is a call if a
/// `(` follows it, and else a reference to a variable.
pub open spec fn expr(toks: Seq<TokenView>, i: int) -> Parsed<ExprView>
    decreases left(toks, i), 0nat,
{
    match kind_at(toks, i) {
        Some(TokTypeView::NumInt(v)) => Ok((ExprView::IntConst(to_signed(v)), 0)),
        Some(TokTypeView::ID(name)) => if kind_at(toks, i + 1) == Some(TokTypeView::ParentOpen) {
            match args(toks, i + 2) {
                Err(e) => Err(e),
                Ok((list, n)) => match expect(toks, i + 2 + n, TokTypeView::ParentClose) {
                    Err(e) => Err(e),
                    Ok(_) => Ok((ExprView::FunctionCall(name, list), 2 + n)),
                },
            }
        } else {
            Ok((ExprView::VarRef(name), 0))
        },
        _ => Err(unexpected(ExpectedView::Expression, toks, i)),
    }
}

/// `ArgList?` at index `i`, with the number of its tokens. The list is
/// empty unless an expression starts at `i`.
pub open spec fn args(toks: Seq<TokenView>, i: int) -> Parsed<Seq<ExprView>>
    decreases left(toks, i), 1nat,
{
    if expr_at(toks, i) {
        match expr(toks, i) {
            Err(e) => Err(e),
            Ok((first, n)) => match more_args(toks, i + 1 + n) {
                Err(e) => Err(e),
                Ok((rest, m)) => Ok((seq![first] + rest, 1 + n + m)),
            },
        }
    } else {
        Ok((Seq::empty(), 0))
    }
}

/// `(',' Expr)*` at index `i`, with the number of its tokens.
pub open spec fn more_args(toks: Seq<TokenView>, i: int) -> Parsed<Seq<ExprView>>
    decreases left(toks, i), 1nat,
{
    if kind_at(toks, i) == Some(TokTypeView::Comma) {
        match expr(toks, i + 1) {
            Err(e) => Err(e),
            Ok((next, n)) => match more_args(toks, i + 2 + n) {
                Err(e) => Err(e),
                Ok((rest, m)) => Ok((seq![next] + rest, 2 + n + m)),
            },
        }
    } else {
        Ok((Seq::empty(), 0))
    }
}

/// `Declarator ('=' Expr)?` at index `i`, with the number of its tokens
/// after the first.
pub open spec fn var_decl(toks: Seq<TokenView>, i: int) -> Parsed<VarDeclView> {
    match declarator(toks, i) {
        Err(e) => Err(e),
        Ok((t, name)) => if kind_at(toks, i + 2) == Some(TokTypeView::Assign) {
            match expr(toks, i + 3) {
                Err(e) => Err(e),
                Ok((init, n)) => Ok((VarDeclView { data_type: t, name, init: Some(init) }, 3 + n)),
            }
        } else {
            Ok((VarDeclView { data_type: t, name, init: None }, 1))
        },
    }
}

/// `ReturnStmt := 'return' Expr? ';'` at index `i`, with the number of
/// its tokens after the first.
pub open spec fn return_stmt(toks: Seq<TokenView>, i: int) -> Parsed<StmtView> {
    match expect(toks, i, TokTypeView::KeywordReturn) {
        Err(e) => Err(e),
        Ok(_) => if expr_at(toks, i + 1) {
            match expr(toks, i + 1) {
                Err(e) => Err(e),
                Ok((value, n)) => match expect(toks, i + 2 + n, TokTypeView::Semicolon) {
                    Err(e) => Err(e),
                    Ok(_) => Ok((StmtView::Return(Some(value)), 2 + n)),
                },
            }
        } else {
            match expect(toks, i + 1, TokTypeView::Semicolon) {
                Err(e) => Err(e),
                Ok(_) => Ok((StmtView::Return(None), 1)),
            }
        },
    }
}

/// `ExprStmt := Expr ';'` at index `i`, with the number of its tokens
/// after the first.
pub open spec fn expr_stmt(toks: Seq<TokenView>, i: int) -> Parsed<StmtView> {
    match expr(toks, i) {
        Err(e) => Err(e),
        Ok((e, n)) => match expect(toks, i + 1 + n, TokTypeView::Semicolon) {
            Err(e) => Err(e),
            Ok(_) => Ok((StmtView::Expr(e), 1 + n)),
        },
    }
}

/// `VarDeclStmt := Declarator ('=' Expr)? ';'` at index `i`, with the
/// number of its tokens after the first.
pub open spec fn var_decl_stmt(toks: Seq<TokenView>, i: int) -> Parsed<StmtView> {
    match var_decl(toks, i) {
        Err(e) => Err(e),
        Ok((decl, n)) => match expect(toks, i + 1 + n, TokTypeView::Semicolon) {
            Err(e) => Err(e),
            Ok(_) => Ok((StmtView::VarDecl(decl), 1 + n)),
        },
    }
}

/// `Stmt` at index `i`, with the number of its tokens after the first.
pub open spec fn stmt(toks: Seq<TokenView>, i: int) -> Parsed<StmtView>
    decreases left(toks, i), 1nat,
{
    if expr_at(toks, i) {
        expr_stmt(toks, i)
    } else if data_type_at(toks, i) {
        var_decl_stmt(toks, i)
    } else if kind_at(toks, i) == Some(TokTypeView::KeywordReturn) {
        return_stmt(toks, i)
    } else if kind_at(toks, i) == Some(TokTypeView::BracketOpen) {
        match compound_stmt(toks, i) {
            Err(e) => Err(e),
            Ok((block, n)) => Ok((StmtView::Compound(block), n)),
        }
    } else {
        Err(unexpected(ExpectedView::Statement, toks, i))
    }
}

/// `Stmt*` at index `i`, with the number of its tokens. The statements
/// run up to the `}` that closes the block; the input may not end before
/// it.
pub open spec fn stmts(toks: Seq<TokenView>, i: int) -> Parsed<Seq<StmtView>>
    decreases left(toks, i), 2nat,
{
    match kind_at(toks, i) {
        None => Err(unexpected(ExpectedView::Statement, toks, i)),
        Some(TokTypeView::BracketClose) => Ok((Seq::empty(), 0)),
        Some(_) => match stmt(toks, i) {
            Err(e) => Err(e),
            Ok((first, n)) => match stmts(toks, i + 1 + n) {
                Err(e) => Err(e),
                Ok((rest, m)) => Ok((seq![first] + rest, 1 + n + m)),
            },
        },
    }
}

/// `CompoundStmt := '{' Stmt* '}'` at index `i`, with the number of its
/// tokens after the first.
pub open spec fn compound_stmt(toks: Seq<TokenView>, i: int) -> Parsed<CmpStmtView>
    decreases left(toks, i), 0nat,
{
    match expect(toks, i, TokTypeView::BracketOpen) {
        Err(e) => Err(e),
        Ok(_) => match stmts(toks, i + 1) {
            Err(e) => Err(e),
            Ok((list, n)) => match expect(toks, i + 1 + n, TokTypeView::BracketClose) {
                Err(e) => Err(e),
                Ok(_) => Ok((CmpStmtView { stmts: list }, 1 + n)),
            },
        },
    }
}

/// `ParamList?` at index `i`, with the number of its tokens. The list is
/// empty unless a data type stands at `i`.
pub open spec fn params(toks: Seq<TokenView>, i: int) -> Parsed<Seq<ParamDeclView>> {
    if data_type_at(toks, i) {
        match param(toks, i) {
            Err(e) => Err(e),
            Ok(first) => match more_params(toks, i + 2) {
                Err(e) => Err(e),
                Ok((rest, m)) => Ok((seq![first] + rest, 2 + m)),
            },
        }
    } else {
        Ok((Seq::empty(), 0))
    }
}

/// `(',' Declarator)*` at index `i`, with the number of its tokens.
pub open spec fn more_params(toks: Seq<TokenView>, i: int) -> Parsed<Seq<ParamDeclView>>
    decreases left(toks, i),
{
    if kind_at(toks, i) == Some(TokTypeView::Comma) {
        match param(toks, i + 1) {
            Err(e) => Err(e),
            Ok(next) => match more_params(toks, i + 3) {
                Err(e) => Err(e),
                Ok((rest, m)) => Ok((seq![next] + rest, 3 + m)),
            },
        }
    } else {
        Ok((Seq::empty(), 0))
    }
}

/// `'(' ParamList? ')' CompoundStmt` at index `i`: the parameters and the
/// body of a function, with the number of their tokens after the first.
pub open spec fn func_params_body(toks: Seq<TokenView>, i: int) -> Parsed<
    (Seq<ParamDeclView>, CmpStmtView),
> {
    match expect(toks, i, TokTypeView::ParentOpen) {
        Err(e) => Err(e),
        Ok(_) => match params(toks, i + 1) {
            Err(e) => Err(e),
            Ok((list, n)) => match expect(toks, i + 1 + n, TokTypeView::ParentClose) {
                Err(e) => Err(e),
                Ok(_) => match compound_stmt(toks, i + 2 + n) {
                    Err(e) => Err(e),
                    Ok((body, m)) => Ok(((list, body), 2 + n + m)),
                },
            },
        },
    }
}

/// `('=' Expr)? ';'` at index `i`: the initializer of a global variable
/// and the end of its declaration, with the number of their tokens after
/// the first.
pub open spec fn global_init(toks: Seq<TokenView>, i: int) -> Parsed<Option<ExprView>> {
    if kind_at(toks, i) == Some(TokTypeView::Assign) {
        match expr(toks, i + 1) {
            Err(e) => Err(e),
            Ok((init, n)) => match expect(toks, i + 2 + n, TokTypeView::Semicolon) {
                Err(e) => Err(e),
                Ok(_) => Ok((Some(init), 2 + n)),
            },
        }
    } else {
        match expect(toks, i, TokTypeView::Semicolon) {
            Err(e) => Err(e),
            Ok(_) => Ok((None, 0)),
        }
    }
}

/// `FuncDecl | GlobalVarDecl` at index `i`, with the number of its tokens
/// after the first. A `(` after the declarator makes it a function.
pub open spec fn ext_decl(toks: Seq<TokenView>, i: int) -> Parsed<ExtDeclView> {
    match declarator(toks, i) {
        Err(e) => Err(e),
        Ok((t, name)) => if kind_at(toks, i + 2) == Some(TokTypeView::ParentOpen) {
            match func_params_body(toks, i + 2) {
                Err(e) => Err(e),
                Ok(((list, body), n)) => Ok(
                    (
                        ExtDeclView::Func(
                            FuncDeclView { return_type: t, name, params: list, body },
                        ),
                        2 + n,
                    ),
                ),
            }
        } else {
            match global_init(toks, i + 2) {
                Err(e) => Err(e),
                Ok((init, n)) => Ok(
                    (ExtDeclView::Global(VarDeclView { data_type: t, name, init }), 2 + n),
                ),
            }
        },
    }
}

/// `Program` from index `i` on: declarations up to the end of the input.
pub open spec fn program(toks: Seq<TokenView>, i: int) -> Result<
    Seq<ExtDeclView>,
    SyntaxErrorView,
>
    decreases left(toks, i),
{
    if i < 0 || i >= toks.len() {
        Ok(Seq::empty())
    } else if data_type_at(toks, i) {
        match ext_decl(toks, i) {
            Err(e) => Err(e),
            Ok((first, n)) => match program(toks, i + 1 + n) {
                Err(e) => Err(e),
                Ok(rest) => Ok(seq![first] + rest),
            },
        }
    } else {
        Err(unexpected(ExpectedView::Declaration, toks, i))
    }
}

/// The syntax tree of the tokens `toks`, or their first syntax error.
pub open spec fn parse_spec(toks: Seq<TokenView>) -> Result<AstView, SyntaxErrorView> {
    match program(toks, 0) {
        Err(e) => Err(e),
        Ok(decls) => Ok(AstView { decls }),
    }
}

} // verus!
