//! The tokens that a syntax tree is written with, and the proof that
//! parsing is faithful: the tree that the grammar gives for a sequence of
//! tokens is written with exactly these tokens.

use crate::ast::{
    ArithOp, AstView, CmpStmtView, DataType, ExprView, ExtDeclView, FuncDeclView, ParamDeclView,
    StmtView, VarDeclView,
};
use crate::common::{TokTypeView, TokenView};
use crate::parse::grammar::{
    args, compound_stmt, declarator, expr, expr_at, expr_stmt, ext_decl, kind_at, left,
    more_args, more_params, param, params, parse_spec, program, return_stmt, stmt, stmts,
    to_signed, var_decl, var_decl_stmt,
};
use vstd::prelude::*;

verus! {

/// The kinds of the tokens `toks`, in order.
pub open spec fn kinds(toks: Seq<TokenView>) -> Seq<TokTypeView> {
    Seq::new(toks.len(), |i: int| toks[i].tok)
}

/// The 64-bit magnitude whose two's complement reading is `v`.
pub open spec fn from_signed(v: i64) -> u64 {
    if v >= 0 {
        v as u64
    } else {
        (v + 0x1_0000_0000_0000_0000) as u64
    }
}

/// The keyword of a data type. Only `int` and `void` have one.
pub open spec fn type_token(t: DataType) -> TokTypeView {
    match t {
        DataType::Int => TokTypeView::KeywordInt,
        DataType::Void => TokTypeView::KeywordVoid,
        _ => arbitrary(),
    }
}

/// The token of an arithmetic operator.
pub open spec fn op_token(op: ArithOp) -> TokTypeView {
    match op {
        ArithOp::Add => TokTypeView::Plus,
        ArithOp::Sub => TokTypeView::Minus,
    }
}

/// The tokens of an expression.
pub open spec fn expr_tokens(e: ExprView) -> Seq<TokTypeView>
    decreases e,
{
    match e {
        ExprView::IntConst(v) => seq![TokTypeView::NumInt(from_signed(v))],
        ExprView::VarRef(name) => seq![TokTypeView::ID(name)],
        ExprView::FunctionCall(name, list) => seq![TokTypeView::ID(name), TokTypeView::ParentOpen]
            + args_tokens(list) + seq![TokTypeView::ParentClose],
        ExprView::Arith(l, op, r) => expr_tokens(*l) + seq![op_token(op)] + expr_tokens(*r),
    }
}

/// The tokens of a list of arguments: the expressions, with commas
/// between them.
pub open spec fn args_tokens(list: Seq<ExprView>) -> Seq<TokTypeView>
    decreases list,
{
    if list.len() == 0 {
        Seq::empty()
    } else {
        expr_tokens(list[0]) + more_args_tokens(list.subrange(1, list.len() as int))
    }
}

/// The tokens of the further arguments of a list: each expression behind
/// a comma.
pub open spec fn more_args_tokens(list: Seq<ExprView>) -> Seq<TokTypeView>
    decreases list,
{
    if list.len() == 0 {
        Seq::empty()
    } else {
        seq![TokTypeView::Comma] + expr_tokens(list[0]) + more_args_tokens(
            list.subrange(1, list.len() as int),
        )
    }
}

/// The tokens of an initializer, if there is one.
pub open spec fn init_tokens(init: Option<ExprView>) -> Seq<TokTypeView> {
    match init {
        Some(e) => seq![TokTypeView::Assign] + expr_tokens(e),
        None => Seq::empty(),
    }
}

/// The tokens of a variable declaration, without the semicolon.
pub open spec fn var_decl_tokens(d: VarDeclView) -> Seq<TokTypeView> {
    seq![type_token(d.data_type), TokTypeView::ID(d.name)] + init_tokens(d.init)
}

/// The tokens of a statement.
pub open spec fn stmt_tokens(s: StmtView) -> Seq<TokTypeView>
    decreases s,
{
    match s {
        StmtView::Compound(block) => block_tokens(block),
        StmtView::VarDecl(d) => var_decl_tokens(d) + seq![TokTypeView::Semicolon],
        StmtView::Assignment(name, e) => seq![TokTypeView::ID(name), TokTypeView::Assign]
            + expr_tokens(e) + seq![TokTypeView::Semicolon],
        StmtView::Return(Some(e)) => seq![TokTypeView::KeywordReturn] + expr_tokens(e)
            + seq![TokTypeView::Semicolon],
        StmtView::Return(None) => seq![TokTypeView::KeywordReturn, TokTypeView::Semicolon],
        StmtView::Expr(e) => expr_tokens(e) + seq![TokTypeView::Semicolon],
    }
}

/// The tokens of a list of statements.
pub open spec fn stmts_tokens(list: Seq<StmtView>) -> Seq<TokTypeView>
    decreases list,
{
    if list.len() == 0 {
        Seq::empty()
    } else {
        stmt_tokens(list[0]) + stmts_tokens(list.subrange(1, list.len() as int))
    }
}

/// The tokens of a compound statement: its statements between braces.
pub open spec fn block_tokens(block: CmpStmtView) -> Seq<TokTypeView>
    decreases block,
{
    seq![TokTypeView::BracketOpen] + stmts_tokens(block.stmts) + seq![TokTypeView::BracketClose]
}

/// The tokens of a parameter.
pub open spec fn param_tokens(p: ParamDeclView) -> Seq<TokTypeView> {
    seq![type_token(p.data_type), TokTypeView::ID(p.name)]
}

/// The tokens of a list of parameters: the parameters, with commas
/// between them.
pub open spec fn params_tokens(list: Seq<ParamDeclView>) -> Seq<TokTypeView> {
    if list.len() == 0 {
        Seq::empty()
    } else {
        param_tokens(list[0]) + more_params_tokens(list.subrange(1, list.len() as int))
    }
}

/// The tokens of the further parameters of a list: each parameter behind
/// a comma.
pub open spec fn more_params_tokens(list: Seq<ParamDeclView>) -> Seq<TokTypeView>
    decreases list.len(),
{
    if list.len() == 0 {
        Seq::empty()
    } else {
        seq![TokTypeView::Comma] + param_tokens(list[0]) + more_params_tokens(
            list.subrange(1, list.len() as int),
        )
    }
}

/// The tokens of a function declaration.
pub open spec fn func_tokens(f: FuncDeclView) -> Seq<TokTypeView> {
    seq![type_token(f.return_type), TokTypeView::ID(f.name), TokTypeView::ParentOpen]
        + params_tokens(f.params) + seq![TokTypeView::ParentClose] + block_tokens(f.body)
}

/// The tokens of an external declaration.
pub open spec fn decl_tokens(d: ExtDeclView) -> Seq<TokTypeView> {
    match d {
        ExtDeclView::Func(f) => func_tokens(f),
        ExtDeclView::Global(g) => var_decl_tokens(g) + seq![TokTypeView::Semicolon],
    }
}

/// The tokens of a list of external declarations.
pub open spec fn decls_tokens(list: Seq<ExtDeclView>) -> Seq<TokTypeView>
    decreases list.len(),
{
    if list.len() == 0 {
        Seq::empty()
    } else {
        decl_tokens(list[0]) + decls_tokens(list.subrange(1, list.len() as int))
    }
}

/// The tokens of a program.
pub open spec fn program_tokens(ast: AstView) -> Seq<TokTypeView> {
    decls_tokens(ast.decls)
}

/// The kinds of the tokens from index `i` up to index `j`.
pub open spec fn span(toks: Seq<TokenView>, i: int, j: int) -> Seq<TokTypeView> {
    kinds(toks).subrange(i, j)
}

/// Reading a magnitude as a signed number loses nothing.
pub proof fn lemma_signed_round_trip(v: u64)
    ensures
        from_signed(to_signed(v)) == v,
{
}

/// The first element and the rest of a list that is built from them.
proof fn lemma_cons<T>(first: T, rest: Seq<T>)
    ensures
        (seq![first] + rest).len() == rest.len() + 1,
        (seq![first] + rest)[0] == first,
        (seq![first] + rest).subrange(1, rest.len() as int + 1) == rest,
{
    assert((seq![first] + rest).subrange(1, rest.len() as int + 1) =~= rest);
}

/// A declarator is written with its two tokens.
proof fn lemma_declarator(toks: Seq<TokenView>, i: int)
    requires
        0 <= i <= toks.len(),
    ensures
        declarator(toks, i) matches Ok((t, name)) ==> i + 2 <= toks.len() && seq![
            type_token(t),
            TokTypeView::ID(name),
        ] == span(toks, i, i + 2),
{
    if declarator(toks, i) is Ok {
        let t = declarator(toks, i)->Ok_0.0;
        let name = declarator(toks, i)->Ok_0.1;
        assert(seq![type_token(t), TokTypeView::ID(name)] =~= span(toks, i, i + 2));
    }
}

/// An expression is written with the tokens that it was parsed from.
pub proof fn lemma_expr(toks: Seq<TokenView>, i: int)
    requires
        0 <= i <= toks.len(),
    ensures
        expr(toks, i) matches Ok((e, n)) ==> i + 1 + n <= toks.len() && expr_tokens(e) == span(
            toks,
            i,
            i + 1 + n,
        ),
    decreases left(toks, i), 0nat,
{
    if expr(toks, i) is Ok {
        let e = expr(toks, i)->Ok_0.0;
        let n = expr(toks, i)->Ok_0.1;
        match kind_at(toks, i) {
            Some(TokTypeView::NumInt(v)) => {
                lemma_signed_round_trip(v);
                assert(expr_tokens(e) =~= span(toks, i, i + 1));
            },
            Some(TokTypeView::ID(name)) => {
                if kind_at(toks, i + 1) == Some(TokTypeView::ParentOpen) {
                    lemma_args(toks, i + 2);
                    let m = args(toks, i + 2)->Ok_0.1;
                    let list = args(toks, i + 2)->Ok_0.0;
                    assert(expr_tokens(e) =~= seq![TokTypeView::ID(name), TokTypeView::ParentOpen]
                        + span(toks, i + 2, i + 2 + m) + seq![TokTypeView::ParentClose]);
                    assert(expr_tokens(e) =~= span(toks, i, i + 3 + m));
                } else {
                    assert(expr_tokens(e) =~= span(toks, i, i + 1));
                }
            },
            _ => {},
        }
    }
}

/// A list of arguments is written with the tokens that it was parsed
/// from.
pub proof fn lemma_args(toks: Seq<TokenView>, i: int)
    requires
        0 <= i <= toks.len(),
    ensures
        args(toks, i) matches Ok((list, n)) ==> i + n <= toks.len() && args_tokens(list) == span(
            toks,
            i,
            i + n,
        ),
    decreases left(toks, i), 1nat,
{
    if args(toks, i) is Ok {
        let list = args(toks, i)->Ok_0.0;
        let n = args(toks, i)->Ok_0.1;
        if expr_at(toks, i) {
            lemma_expr(toks, i);
            let first = expr(toks, i)->Ok_0.0;
            let k = expr(toks, i)->Ok_0.1;
            lemma_more_args(toks, i + 1 + k);
            let rest = more_args(toks, i + 1 + k)->Ok_0.0;
            let m = more_args(toks, i + 1 + k)->Ok_0.1;
            lemma_cons(first, rest);
            assert(args_tokens(list) =~= span(toks, i, i + 1 + k) + span(
                toks,
                i + 1 + k,
                i + 1 + k + m,
            ));
            assert(args_tokens(list) =~= span(toks, i, i + n));
        } else {
            assert(args_tokens(list) =~= span(toks, i, i));
        }
    }
}

/// The further arguments of a list are written with the tokens that they
/// were parsed from.
pub proof fn lemma_more_args(toks: Seq<TokenView>, i: int)
    requires
        0 <= i <= toks.len(),
    ensures
        more_args(toks, i) matches Ok((list, n)) ==> i + n <= toks.len() && more_args_tokens(list)
            == span(toks, i, i + n),
    decreases left(toks, i), 1nat,
{
    if more_args(toks, i) is Ok {
        let list = more_args(toks, i)->Ok_0.0;
        let n = more_args(toks, i)->Ok_0.1;
        if kind_at(toks, i) == Some(TokTypeView::Comma) {
            lemma_expr(toks, i + 1);
            let next = expr(toks, i + 1)->Ok_0.0;
            let k = expr(toks, i + 1)->Ok_0.1;
            lemma_more_args(toks, i + 2 + k);
            let rest = more_args(toks, i + 2 + k)->Ok_0.0;
            let m = more_args(toks, i + 2 + k)->Ok_0.1;
            lemma_cons(next, rest);
            assert(more_args_tokens(list) =~= seq![TokTypeView::Comma] + span(
                toks,
                i + 1,
                i + 2 + k,
            ) + span(toks, i + 2 + k, i + 2 + k + m));
            assert(more_args_tokens(list) =~= span(toks, i, i + n));
        } else {
            assert(more_args_tokens(list) =~= span(toks, i, i));
        }
    }
}

/// A variable declaration is written with the tokens that it was parsed
/// from.
pub proof fn lemma_var_decl(toks: Seq<TokenView>, i: int)
    requires
        0 <= i <= toks.len(),
    ensures
        var_decl(toks, i) matches Ok((d, n)) ==> i + 1 + n <= toks.len() && var_decl_tokens(d)
            == span(toks, i, i + 1 + n),
{
    if var_decl(toks, i) is Ok {
        let d = var_decl(toks, i)->Ok_0.0;
        let n = var_decl(toks, i)->Ok_0.1;
        lemma_declarator(toks, i);
        if kind_at(toks, i + 2) == Some(TokTypeView::Assign) {
            lemma_expr(toks, i + 3);
            let k = expr(toks, i + 3)->Ok_0.1;
            assert(var_decl_tokens(d) =~= span(toks, i, i + 2) + seq![TokTypeView::Assign] + span(
                toks,
                i + 3,
                i + 4 + k,
            ));
            assert(var_decl_tokens(d) =~= span(toks, i, i + 4 + k));
        } else {
            assert(var_decl_tokens(d) =~= span(toks, i, i + 2));
        }
    }
}

/// A statement that declares a variable is written with the tokens that
/// it was parsed from.
proof fn lemma_var_decl_stmt(toks: Seq<TokenView>, i: int)
    requires
        0 <= i <= toks.len(),
    ensures
        var_decl_stmt(toks, i) matches Ok((s, n)) ==> i + 1 + n <= toks.len() && stmt_tokens(s)
            == span(toks, i, i + 1 + n),
{
    if var_decl_stmt(toks, i) is Ok {
        let s = var_decl_stmt(toks, i)->Ok_0.0;
        let n = var_decl_stmt(toks, i)->Ok_0.1;
        lemma_var_decl(toks, i);
        let k = var_decl(toks, i)->Ok_0.1;
        assert(stmt_tokens(s) =~= span(toks, i, i + 1 + k) + seq![TokTypeView::Semicolon]);
        assert(stmt_tokens(s) =~= span(toks, i, i + 2 + k));
    }
}

/// A return statement is written with the tokens that it was parsed from.
proof fn lemma_return_stmt(toks: Seq<TokenView>, i: int)
    requires
        0 <= i <= toks.len(),
    ensures
        return_stmt(toks, i) matches Ok((s, n)) ==> i + 1 + n <= toks.len() && stmt_tokens(s)
            == span(toks, i, i + 1 + n),
{
    if return_stmt(toks, i) is Ok {
        let s = return_stmt(toks, i)->Ok_0.0;
        let n = return_stmt(toks, i)->Ok_0.1;
        if expr_at(toks, i + 1) {
            lemma_expr(toks, i + 1);
            let k = expr(toks, i + 1)->Ok_0.1;
            assert(stmt_tokens(s) =~= seq![TokTypeView::KeywordReturn] + span(
                toks,
                i + 1,
                i + 2 + k,
            ) + seq![TokTypeView::Semicolon]);
            assert(stmt_tokens(s) =~= span(toks, i, i + 3 + k));
        } else {
            assert(stmt_tokens(s) =~= span(toks, i, i + 2));
        }
    }
}

/// An expression statement is written with the tokens that it was parsed
/// from.
proof fn lemma_expr_stmt(toks: Seq<TokenView>, i: int)
    requires
        0 <= i <= toks.len(),
    ensures
        expr_stmt(toks, i) matches Ok((s, n)) ==> i + 1 + n <= toks.len() && stmt_tokens(s)
            == span(toks, i, i + 1 + n),
{
    if expr_stmt(toks, i) is Ok {
        let s = expr_stmt(toks, i)->Ok_0.0;
        let n = expr_stmt(toks, i)->Ok_0.1;
        lemma_expr(toks, i);
        let k = expr(toks, i)->Ok_0.1;
        assert(stmt_tokens(s) =~= span(toks, i, i + 1 + k) + seq![TokTypeView::Semicolon]);
        assert(stmt_tokens(s) =~= span(toks, i, i + 2 + k));
    }
}

/// A statement is written with the tokens that it was parsed from.
pub proof fn lemma_stmt(toks: Seq<TokenView>, i: int)
    requires
        0 <= i <= toks.len(),
    ensures
        stmt(toks, i) matches Ok((s, n)) ==> i + 1 + n <= toks.len() && stmt_tokens(s) == span(
            toks,
            i,
            i + 1 + n,
        ),
    decreases left(toks, i), 1nat,
{
    if stmt(toks, i) is Ok {
        let s = stmt(toks, i)->Ok_0.0;
        let n = stmt(toks, i)->Ok_0.1;
        lemma_expr_stmt(toks, i);
        lemma_var_decl_stmt(toks, i);
        lemma_return_stmt(toks, i);
        if !expr_at(toks, i) && kind_at(toks, i) == Some(TokTypeView::BracketOpen) {
            lemma_compound_stmt(toks, i);
        }
    }
}

/// A list of statements is written with the tokens that it was parsed
/// from.
pub proof fn lemma_stmts(toks: Seq<TokenView>, i: int)
    requires
        0 <= i <= toks.len(),
    ensures
        stmts(toks, i) matches Ok((list, n)) ==> i + n < toks.len() && stmts_tokens(list) == span(
            toks,
            i,
            i + n,
        ) && kind_at(toks, i + n) == Some(TokTypeView::BracketClose),
    decreases left(toks, i), 2nat,
{
    if stmts(toks, i) is Ok {
        let list = stmts(toks, i)->Ok_0.0;
        let n = stmts(toks, i)->Ok_0.1;
        if kind_at(toks, i) == Some(TokTypeView::BracketClose) {
            assert(stmts_tokens(list) =~= span(toks, i, i));
        } else {
            lemma_stmt(toks, i);
            let first = stmt(toks, i)->Ok_0.0;
            let k = stmt(toks, i)->Ok_0.1;
            lemma_stmts(toks, i + 1 + k);
            let rest = stmts(toks, i + 1 + k)->Ok_0.0;
            let m = stmts(toks, i + 1 + k)->Ok_0.1;
            lemma_cons(first, rest);
            assert(stmts_tokens(list) =~= span(toks, i, i + 1 + k) + span(
                toks,
                i + 1 + k,
                i + 1 + k + m,
            ));
            assert(stmts_tokens(list) =~= span(toks, i, i + n));
        }
    }
}

/// A compound statement is written with the tokens that it was parsed
/// from.
pub proof fn lemma_compound_stmt(toks: Seq<TokenView>, i: int)
    requires
        0 <= i <= toks.len(),
    ensures
        compound_stmt(toks, i) matches Ok((block, n)) ==> i + 1 + n <= toks.len() && block_tokens(
            block,
        ) == span(toks, i, i + 1 + n),
    decreases left(toks, i), 0nat,
{
    if compound_stmt(toks, i) is Ok {
        let block = compound_stmt(toks, i)->Ok_0.0;
        let n = compound_stmt(toks, i)->Ok_0.1;
        lemma_stmts(toks, i + 1);
        let m = stmts(toks, i + 1)->Ok_0.1;
        assert(block_tokens(block) =~= seq![TokTypeView::BracketOpen] + span(
            toks,
            i + 1,
            i + 1 + m,
        ) + seq![TokTypeView::BracketClose]);
        assert(block_tokens(block) =~= span(toks, i, i + 2 + m));
    }
}

/// The further parameters of a list are written with the tokens that
/// they were parsed from.
proof fn lemma_more_params(toks: Seq<TokenView>, i: int)
    requires
        0 <= i <= toks.len(),
    ensures
        more_params(toks, i) matches Ok((list, n)) ==> i + n <= toks.len() && more_params_tokens(
            list,
        ) == span(toks, i, i + n),
    decreases left(toks, i),
{
    if more_params(toks, i) is Ok {
        let list = more_params(toks, i)->Ok_0.0;
        let n = more_params(toks, i)->Ok_0.1;
        if kind_at(toks, i) == Some(TokTypeView::Comma) {
            lemma_declarator(toks, i + 1);
            let next = param(toks, i + 1)->Ok_0;
            lemma_more_params(toks, i + 3);
            let rest = more_params(toks, i + 3)->Ok_0.0;
            let m = more_params(toks, i + 3)->Ok_0.1;
            lemma_cons(next, rest);
            assert(more_params_tokens(list) =~= seq![TokTypeView::Comma] + span(
                toks,
                i + 1,
                i + 3,
            ) + span(toks, i + 3, i + 3 + m));
            assert(more_params_tokens(list) =~= span(toks, i, i + n));
        } else {
            assert(more_params_tokens(list) =~= span(toks, i, i));
        }
    }
}

/// A list of parameters is written with the tokens that it was parsed
/// from.
proof fn lemma_params(toks: Seq<TokenView>, i: int)
    requires
        0 <= i <= toks.len(),
    ensures
        params(toks, i) matches Ok((list, n)) ==> i + n <= toks.len() && params_tokens(list)
            == span(toks, i, i + n),
{
    if params(toks, i) is Ok {
        let list = params(toks, i)->Ok_0.0;
        let n = params(toks, i)->Ok_0.1;
        if kind_at(toks, i) matches Some(kind) && crate::parse::grammar::data_type_of(kind) is Some {
            lemma_declarator(toks, i);
            let first = param(toks, i)->Ok_0;
            lemma_more_params(toks, i + 2);
            let rest = more_params(toks, i + 2)->Ok_0.0;
            let m = more_params(toks, i + 2)->Ok_0.1;
            lemma_cons(first, rest);
            assert(params_tokens(list) =~= span(toks, i, i + 2) + span(toks, i + 2, i + 2 + m));
            assert(params_tokens(list) =~= span(toks, i, i + n));
        } else {
            assert(params_tokens(list) =~= span(toks, i, i));
        }
    }
}

/// An external declaration is written with the tokens that it was parsed
/// from.
pub proof fn lemma_ext_decl(toks: Seq<TokenView>, i: int)
    requires
        0 <= i <= toks.len(),
    ensures
        ext_decl(toks, i) matches Ok((d, n)) ==> i + 1 + n <= toks.len() && decl_tokens(d) == span(
            toks,
            i,
            i + 1 + n,
        ),
{
    if ext_decl(toks, i) is Ok {
        let d = ext_decl(toks, i)->Ok_0.0;
        let n = ext_decl(toks, i)->Ok_0.1;
        lemma_declarator(toks, i);
        if kind_at(toks, i + 2) == Some(TokTypeView::ParentOpen) {
            lemma_params(toks, i + 3);
            let k = params(toks, i + 3)->Ok_0.1;
            lemma_compound_stmt(toks, i + 4 + k);
            let m = compound_stmt(toks, i + 4 + k)->Ok_0.1;
            assert(decl_tokens(d) =~= span(toks, i, i + 2) + seq![TokTypeView::ParentOpen] + span(
                toks,
                i + 3,
                i + 3 + k,
            ) + seq![TokTypeView::ParentClose] + span(toks, i + 4 + k, i + 5 + k + m));
            assert(decl_tokens(d) =~= span(toks, i, i + 5 + k + m));
        } else if kind_at(toks, i + 2) == Some(TokTypeView::Assign) {
            lemma_expr(toks, i + 3);
            let k = expr(toks, i + 3)->Ok_0.1;
            assert(decl_tokens(d) =~= span(toks, i, i + 2) + seq![TokTypeView::Assign] + span(
                toks,
                i + 3,
                i + 4 + k,
            ) + seq![TokTypeView::Semicolon]);
            assert(decl_tokens(d) =~= span(toks, i, i + 5 + k));
        } else {
            assert(decl_tokens(d) =~= span(toks, i, i + 2) + seq![TokTypeView::Semicolon]);
            assert(decl_tokens(d) =~= span(toks, i, i + 3));
        }
    }
}

/// The declarations of a program from index `i` on are written with the
/// tokens from `i` up to the end.
pub proof fn lemma_program(toks: Seq<TokenView>, i: int)
    requires
        0 <= i <= toks.len(),
    ensures
        program(toks, i) matches Ok(list) ==> decls_tokens(list) == span(
            toks,
            i,
            toks.len() as int,
        ),
    decreases left(toks, i),
{
    if program(toks, i) is Ok {
        let list = program(toks, i)->Ok_0;
        if i < toks.len() {
            lemma_ext_decl(toks, i);
            let first = ext_decl(toks, i)->Ok_0.0;
            let k = ext_decl(toks, i)->Ok_0.1;
            lemma_program(toks, i + 1 + k);
            let rest = program(toks, i + 1 + k)->Ok_0;
            lemma_cons(first, rest);
            assert(decls_tokens(list) =~= span(toks, i, i + 1 + k) + span(
                toks,
                i + 1 + k,
                toks.len() as int,
            ));
            assert(decls_tokens(list) =~= span(toks, i, toks.len() as int));
        } else {
            assert(decls_tokens(list) =~= span(toks, i, toks.len() as int));
        }
    }
}

/// Parsing is faithful: the syntax tree of a sequence of tokens is
/// written with exactly these tokens, in their order.
pub proof fn lemma_parse_is_faithful(toks: Seq<TokenView>)
    ensures
        parse_spec(toks) matches Ok(ast) ==> program_tokens(ast) == kinds(toks),
{
    lemma_program(toks, 0);
    assert(span(toks, 0, toks.len() as int) =~= kinds(toks));
}

} // verus!
