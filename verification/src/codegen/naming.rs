//! How functions are named in the emitted text, and where the text of a
//! part of a program stands in the text of the whole.

use crate::ast::{AstView, ExprView, ExtDeclView, FuncDeclView, StmtView};
use crate::codegen::gen_util::frame_of;
use crate::codegen::listing::{
    args_asm, call_branch, call_enter, call_leave, decl_asm, decls_asm, expr_asm, frame_enter,
    frame_leave, func_asm, func_end, func_header, in_regs, arg_reg, move_reg, program_asm,
    stmt_asm, stmts_asm, store_params, symbol, Reg,
};
use crate::text::{line, occurs_in, tab_line};
use crate::util::TargetOs;
use vstd::prelude::*;

verus! {

/// On macOS the symbol of a function is its name behind an underscore; on
/// every other target it is the name itself.
pub proof fn lemma_symbol(name: Seq<char>)
    ensures
        symbol(name, TargetOs::MacOs) == "_"@ + name,
        symbol(name, TargetOs::Linux) == name,
        symbol(name, TargetOs::Other) == name,
{
    reveal_strlit("_");
    assert(seq!['_'] + name =~= "_"@ + name);
}

/// The text of a call branches to the symbol of the callee: on macOS to
/// the name behind an underscore, on every other target to the name.
pub proof fn lemma_call_names_symbol(
    name: Seq<char>,
    args: Seq<ExprView>,
    dst: Option<Reg>,
    target: TargetOs,
)
    requires
        expr_asm(ExprView::FunctionCall(name, args), dst, target) is Ok,
    ensures
        occurs_in(
            tab_line("bl "@ + symbol(name, target)),
            expr_asm(ExprView::FunctionCall(name, args), dst, target)->Ok_0,
        ),
        target == TargetOs::MacOs ==> occurs_in(
            tab_line("bl _"@ + name),
            expr_asm(ExprView::FunctionCall(name, args), dst, target)->Ok_0,
        ),
        target != TargetOs::MacOs ==> occurs_in(
            tab_line("bl "@ + name),
            expr_asm(ExprView::FunctionCall(name, args), dst, target)->Ok_0,
        ),
{
    let loads = args_asm(args, in_regs(args.len()), target)->Ok_0;
    let before = call_enter() + loads;
    let after = call_leave() + move_reg(dst, Reg::X0);
    let text = expr_asm(ExprView::FunctionCall(name, args), dst, target)->Ok_0;
    assert(text =~= before + tab_line("bl "@ + symbol(name, target)) + after);
    if target == TargetOs::MacOs {
        reveal_strlit("bl ");
        reveal_strlit("bl _");
        assert("bl "@ + symbol(name, target) =~= "bl _"@ + name);
    }
}

/// The text of a function declares the symbol of the function global and
/// labels its first instruction with it: on macOS with the name behind an
/// underscore, on every other target with the name.
pub proof fn lemma_label_names_symbol(f: FuncDeclView, target: TargetOs)
    requires
        func_asm(f, target) is Ok,
    ensures
        occurs_in(tab_line(".global "@ + symbol(f.name, target)), func_asm(f, target)->Ok_0),
        occurs_in(line(symbol(f.name, target) + ":"@), func_asm(f, target)->Ok_0),
        target == TargetOs::MacOs ==> occurs_in(
            line("_"@ + f.name + ":"@),
            func_asm(f, target)->Ok_0,
        ),
        target != TargetOs::MacOs ==> occurs_in(line(f.name + ":"@), func_asm(f, target)->Ok_0),
{
    let text = func_asm(f, target)->Ok_0;
    let frame = frame_of(f.params)->Ok_0;
    let body = stmts_asm(f.body.stmts, f.body.stmts.len(), target)->Ok_0;
    let rest = frame_enter(frame) + store_params(
        frame,
        in_regs(f.params.len()),
    ) + body + frame_leave(frame) + func_end();
    let global = tab_line(".global "@ + symbol(f.name, target));
    let align = tab_line(".p2align 2"@);
    let label = line(symbol(f.name, target) + ":"@);
    assert(text =~= Seq::<char>::empty() + global + (align + label + rest));
    assert(text =~= (global + align) + label + rest);
    lemma_symbol(f.name);
}

/// A text that occurs in a part of a text occurs in the whole text.
pub proof fn lemma_occurs_in_trans(a: Seq<char>, b: Seq<char>, c: Seq<char>)
    requires
        occurs_in(a, b),
        occurs_in(b, c),
    ensures
        occurs_in(a, c),
{
    let (p1, s1) = choose|p: Seq<char>, s: Seq<char>| b == p + a + s;
    let (p2, s2) = choose|p: Seq<char>, s: Seq<char>| c == p + b + s;
    assert(c =~= (p2 + p1) + a + (s1 + s2));
}

/// The text of each argument that travels in a register occurs in the
/// text that loads the arguments.
pub proof fn lemma_arg_in_args(args: Seq<ExprView>, n: nat, k: int, target: TargetOs)
    requires
        0 <= k < n <= args.len(),
        args_asm(args, n, target) is Ok,
    ensures
        expr_asm(args[k], Some(arg_reg(k)), target) is Ok,
        occurs_in(
            expr_asm(args[k], Some(arg_reg(k)), target)->Ok_0,
            args_asm(args, n, target)->Ok_0,
        ),
    decreases n,
{
    let front = args_asm(args, (n - 1) as nat, target)->Ok_0;
    let last = expr_asm(args[n - 1], Some(arg_reg(n - 1)), target)->Ok_0;
    let whole = args_asm(args, n, target)->Ok_0;
    if k == n - 1 {
        assert(whole =~= front + last + Seq::<char>::empty());
    } else {
        lemma_arg_in_args(args, (n - 1) as nat, k, target);
        let part = expr_asm(args[k], Some(arg_reg(k)), target)->Ok_0;
        let (p, s) = choose|p: Seq<char>, s: Seq<char>| front == p + part + s;
        assert(whole =~= p + part + (s + last));
    }
}

/// The text of each argument that travels in a register occurs in the
/// text of the call.
pub proof fn lemma_arg_in_call(
    name: Seq<char>,
    args: Seq<ExprView>,
    dst: Option<Reg>,
    k: int,
    target: TargetOs,
)
    requires
        0 <= k < in_regs(args.len()),
        expr_asm(ExprView::FunctionCall(name, args), dst, target) is Ok,
    ensures
        expr_asm(args[k], Some(arg_reg(k)), target) is Ok,
        occurs_in(
            expr_asm(args[k], Some(arg_reg(k)), target)->Ok_0,
            expr_asm(ExprView::FunctionCall(name, args), dst, target)->Ok_0,
        ),
{
    let n = in_regs(args.len());
    lemma_arg_in_args(args, n, k, target);
    let loads = args_asm(args, n, target)->Ok_0;
    let text = expr_asm(ExprView::FunctionCall(name, args), dst, target)->Ok_0;
    assert(text =~= call_enter() + loads + (call_branch(name, target) + call_leave() + move_reg(
        dst,
        Reg::X0,
    )));
    assert(occurs_in(loads, text));
    lemma_occurs_in_trans(expr_asm(args[k], Some(arg_reg(k)), target)->Ok_0, loads, text);
}

/// The text of each of the first `n` statements occurs in the text of
/// these statements.
pub proof fn lemma_stmt_in_stmts(stmts: Seq<StmtView>, n: nat, k: int, target: TargetOs)
    requires
        0 <= k < n <= stmts.len(),
        stmts_asm(stmts, n, target) is Ok,
    ensures
        stmt_asm(stmts[k], target) is Ok,
        occurs_in(stmt_asm(stmts[k], target)->Ok_0, stmts_asm(stmts, n, target)->Ok_0),
    decreases n,
{
    let front = stmts_asm(stmts, (n - 1) as nat, target)->Ok_0;
    let last = stmt_asm(stmts[n - 1], target)->Ok_0;
    let whole = stmts_asm(stmts, n, target)->Ok_0;
    if k == n - 1 {
        assert(whole =~= front + last + Seq::<char>::empty());
    } else {
        lemma_stmt_in_stmts(stmts, (n - 1) as nat, k, target);
        let part = stmt_asm(stmts[k], target)->Ok_0;
        let (p, s) = choose|p: Seq<char>, s: Seq<char>| front == p + part + s;
        assert(whole =~= p + part + (s + last));
    }
}

/// The text of each statement of a function occurs in the text of the
/// function.
pub proof fn lemma_stmt_in_func(f: FuncDeclView, k: int, target: TargetOs)
    requires
        0 <= k < f.body.stmts.len(),
        func_asm(f, target) is Ok,
    ensures
        stmt_asm(f.body.stmts[k], target) is Ok,
        occurs_in(stmt_asm(f.body.stmts[k], target)->Ok_0, func_asm(f, target)->Ok_0),
{
    let stmts = f.body.stmts;
    lemma_stmt_in_stmts(stmts, stmts.len(), k, target);
    let frame = frame_of(f.params)->Ok_0;
    let body = stmts_asm(stmts, stmts.len(), target)->Ok_0;
    let text = func_asm(f, target)->Ok_0;
    let before = func_header(f.name, target) + frame_enter(frame) + store_params(
        frame,
        in_regs(f.params.len()),
    );
    let after = frame_leave(frame) + func_end();
    assert(text =~= before + body + after);
    assert(occurs_in(body, text));
    lemma_occurs_in_trans(stmt_asm(stmts[k], target)->Ok_0, body, text);
}

/// The text of each of the first `n` declarations occurs in the text of
/// these declarations.
pub proof fn lemma_decl_in_decls(decls: Seq<ExtDeclView>, n: nat, k: int, target: TargetOs)
    requires
        0 <= k < n <= decls.len(),
        decls_asm(decls, n, target) is Ok,
    ensures
        decl_asm(decls[k], target) is Ok,
        occurs_in(decl_asm(decls[k], target)->Ok_0, decls_asm(decls, n, target)->Ok_0),
    decreases n,
{
    let front = decls_asm(decls, (n - 1) as nat, target)->Ok_0;
    let last = decl_asm(decls[n - 1], target)->Ok_0;
    let whole = decls_asm(decls, n, target)->Ok_0;
    if k == n - 1 {
        assert(whole =~= front + last + Seq::<char>::empty());
    } else {
        lemma_decl_in_decls(decls, (n - 1) as nat, k, target);
        let part = decl_asm(decls[k], target)->Ok_0;
        let (p, s) = choose|p: Seq<char>, s: Seq<char>| front == p + part + s;
        assert(whole =~= p + part + (s + last));
    }
}

/// The text of each function of a program occurs in the text of the
/// program.
pub proof fn lemma_func_in_program(ast: AstView, k: int, target: TargetOs)
    requires
        0 <= k < ast.decls.len(),
        ast.decls[k] is Func,
        program_asm(ast, target) is Ok,
    ensures
        func_asm(ast.decls[k]->Func_0, target) is Ok,
        occurs_in(func_asm(ast.decls[k]->Func_0, target)->Ok_0, program_asm(ast, target)->Ok_0),
{
    lemma_decl_in_decls(ast.decls, ast.decls.len(), k, target);
    let funcs = decls_asm(ast.decls, ast.decls.len(), target)->Ok_0;
    let text = program_asm(ast, target)->Ok_0;
    assert(text =~= tab_line(".text"@) + funcs + Seq::<char>::empty());
    assert(occurs_in(funcs, text));
    lemma_occurs_in_trans(func_asm(ast.decls[k]->Func_0, target)->Ok_0, funcs, text);
}

/// The text of a program has the label of each of its functions: on
/// macOS the name behind an underscore, on every other target the name.
pub proof fn lemma_program_labels(ast: AstView, k: int, target: TargetOs)
    requires
        0 <= k < ast.decls.len(),
        ast.decls[k] is Func,
        program_asm(ast, target) is Ok,
    ensures
        target == TargetOs::MacOs ==> occurs_in(
            line("_"@ + ast.decls[k]->Func_0.name + ":"@),
            program_asm(ast, target)->Ok_0,
        ),
        target != TargetOs::MacOs ==> occurs_in(
            line(ast.decls[k]->Func_0.name + ":"@),
            program_asm(ast, target)->Ok_0,
        ),
{
    let f = ast.decls[k]->Func_0;
    lemma_func_in_program(ast, k, target);
    lemma_label_names_symbol(f, target);
    let text = program_asm(ast, target)->Ok_0;
    let part = func_asm(f, target)->Ok_0;
    if target == TargetOs::MacOs {
        lemma_occurs_in_trans(line("_"@ + f.name + ":"@), part, text);
    } else {
        lemma_occurs_in_trans(line(f.name + ":"@), part, text);
    }
}

} // verus!
