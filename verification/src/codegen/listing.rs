//! The assembly text that a program stands for.
//!
//! These functions define, over the model of the syntax tree, the exact
//! text that the generator emits, or the construct that it refuses.

use crate::ast::{AstView, ExprView, ExtDeclView, FuncDeclView, StmtView};
use crate::codegen::gen_util::{frame_of, UnsupportedConstructError};
use crate::text::{begins_with, decimal, line, signed_decimal, tab_line};
use crate::util::TargetOs;
use vstd::prelude::*;

verus! {

/// The general-purpose registers that the generator names.
#[derive(Debug, Clone, Copy, PartialEq, Eq, Structural)]
pub enum Reg {
    X0,
    X1,
    X2,
    X3,
    X4,
    X5,
    X6,
    X7,
    X9,
    X10,
    X11,
    X12,
    X13,
    X14,
    X15,
    X29,
    X30,
}

impl Reg {
    /// The number of the register.
    pub open spec fn number(self) -> nat {
        match self {
            Reg::X0 => 0,
            Reg::X1 => 1,
            Reg::X2 => 2,
            Reg::X3 => 3,
            Reg::X4 => 4,
            Reg::X5 => 5,
            Reg::X6 => 6,
            Reg::X7 => 7,
            Reg::X9 => 9,
            Reg::X10 => 10,
            Reg::X11 => 11,
            Reg::X12 => 12,
            Reg::X13 => 13,
            Reg::X14 => 14,
            Reg::X15 => 15,
            Reg::X29 => 29,
            Reg::X30 => 30,
        }
    }

    /// The name of the register in assembly text.
    pub open spec fn name(self) -> Seq<char> {
        seq!['x'] + decimal(self.number())
    }
}

/// The frame pointer.
pub open spec fn fp() -> Reg {
    Reg::X29
}

/// The link register.
pub open spec fn lr() -> Reg {
    Reg::X30
}

/// How many leading arguments travel in registers.
pub open spec fn arg_reg_count() -> nat {
    8
}

/// The register that carries argument `i`.
pub open spec fn arg_reg(i: int) -> Reg {
    if i == 0 {
        Reg::X0
    } else if i == 1 {
        Reg::X1
    } else if i == 2 {
        Reg::X2
    } else if i == 3 {
        Reg::X3
    } else if i == 4 {
        Reg::X4
    } else if i == 5 {
        Reg::X5
    } else if i == 6 {
        Reg::X6
    } else {
        Reg::X7
    }
}

/// How many of `n` parameters or arguments travel in registers.
pub open spec fn in_regs(n: nat) -> nat {
    if n < arg_reg_count() {
        n
    } else {
        arg_reg_count()
    }
}

/// The assembly symbol of the function called `name`.
pub open spec fn symbol(name: Seq<char>, target: TargetOs) -> Seq<char> {
    match target {
        TargetOs::MacOs => seq!['_'] + name,
        _ => name,
    }
}

/// Loads the constant `v` into `dst`.
pub open spec fn mov_const(dst: Reg, v: i64) -> Seq<char> {
    tab_line("mov "@ + dst.name() + ", #"@ + signed_decimal(v as int))
}

/// Copies `src` into `dst`, unless there is no destination or the value is
/// already there.
pub open spec fn move_reg(dst: Option<Reg>, src: Reg) -> Seq<char> {
    match dst {
        Some(r) => if r != src {
            tab_line("mov "@ + r.name() + ", "@ + src.name())
        } else {
            Seq::empty()
        },
        None => Seq::empty(),
    }
}

/// Saves the frame pointer and the link register and opens the callee's
/// frame record.
pub open spec fn call_enter() -> Seq<char> {
    tab_line("stp "@ + fp().name() + ", "@ + lr().name() + ", [sp, #-16]!"@) + tab_line(
        "mov "@ + fp().name() + ", sp"@,
    )
}

/// Branches to the function called `name`.
pub open spec fn call_branch(name: Seq<char>, target: TargetOs) -> Seq<char> {
    tab_line("bl "@ + symbol(name, target))
}

/// Restores the frame pointer and the link register.
pub open spec fn call_leave() -> Seq<char> {
    tab_line("ldp "@ + fp().name() + ", "@ + lr().name() + ", [sp], #16"@)
}

/// The text that leaves the value of `e` in `dst`, if a destination is
/// asked for.
pub open spec fn expr_asm(e: ExprView, dst: Option<Reg>, target: TargetOs) -> Result<
    Seq<char>,
    UnsupportedConstructError,
>
    decreases e, 0nat,
{
    match e {
        ExprView::IntConst(v) => Ok(
            match dst {
                Some(r) => mov_const(r, v),
                None => Seq::empty(),
            },
        ),
        ExprView::FunctionCall(name, args) => match args_asm(args, in_regs(args.len()), target) {
            Err(err) => Err(err),
            Ok(loads) => Ok(
                call_enter() + loads + call_branch(name, target) + call_leave() + move_reg(
                    dst,
                    Reg::X0,
                ),
            ),
        },
        ExprView::VarRef(_) => Err(UnsupportedConstructError::VarRefExpr),
        ExprView::Arith(_, _, _) => Err(UnsupportedConstructError::ArithExpr),
    }
}

/// The text that loads the first `n` of `args` into their argument
/// registers, from left to right.
pub open spec fn args_asm(args: Seq<ExprView>, n: nat, target: TargetOs) -> Result<
    Seq<char>,
    UnsupportedConstructError,
>
    decreases args, n,
{
    if n == 0 || n > args.len() {
        Ok(Seq::empty())
    } else {
        match args_asm(args, (n - 1) as nat, target) {
            Err(err) => Err(err),
            Ok(front) => match expr_asm(args[n - 1], Some(arg_reg(n - 1)), target) {
                Err(err) => Err(err),
                Ok(last) => Ok(front + last),
            },
        }
    }
}

/// The text of one statement.
pub open spec fn stmt_asm(s: StmtView, target: TargetOs) -> Result<
    Seq<char>,
    UnsupportedConstructError,
> {
    match s {
        StmtView::Return(Some(e)) => expr_asm(e, Some(Reg::X0), target),
        StmtView::Return(None) => Ok(Seq::empty()),
        StmtView::Expr(e) => expr_asm(e, None, target),
        StmtView::Compound(_) => Err(UnsupportedConstructError::CompoundStmt),
        StmtView::VarDecl(_) => Err(UnsupportedConstructError::VarDeclStmt),
        StmtView::Assignment(_, _) => Err(UnsupportedConstructError::AssignmentStmt),
    }
}

/// The text of the first `n` of `stmts`, in order.
pub open spec fn stmts_asm(stmts: Seq<StmtView>, n: nat, target: TargetOs) -> Result<
    Seq<char>,
    UnsupportedConstructError,
>
    decreases n,
{
    if n == 0 || n > stmts.len() {
        Ok(Seq::empty())
    } else {
        match stmts_asm(stmts, (n - 1) as nat, target) {
            Err(err) => Err(err),
            Ok(front) => match stmt_asm(stmts[n - 1], target) {
                Err(err) => Err(err),
                Ok(last) => Ok(front + last),
            },
        }
    }
}

/// The directives and the label that open the function called `name`.
pub open spec fn func_header(name: Seq<char>, target: TargetOs) -> Seq<char> {
    tab_line(".global "@ + symbol(name, target)) + tab_line(".p2align 2"@) + line(
        symbol(name, target) + ":"@,
    )
}

/// Reserves a frame of `frame` bytes, if any.
pub open spec fn frame_enter(frame: nat) -> Seq<char> {
    if frame > 0 {
        tab_line("sub sp, sp, #"@ + decimal(frame))
    } else {
        Seq::empty()
    }
}

/// Releases a frame of `frame` bytes, if any.
pub open spec fn frame_leave(frame: nat) -> Seq<char> {
    if frame > 0 {
        tab_line("add sp, sp, #"@ + decimal(frame))
    } else {
        Seq::empty()
    }
}

/// Stores the register `reg` at `offset` bytes above the stack pointer.
pub open spec fn store_param(reg: Reg, offset: int) -> Seq<char> {
    tab_line("str "@ + reg.name() + ", [sp, #"@ + signed_decimal(offset) + "]"@)
}

/// The offset of parameter `i` in a frame of `frame` bytes: the frame size
/// less the sizes of the parameters up to and including it, each of which
/// occupies the four bytes of an `Int`.
pub open spec fn param_offset(frame: nat, i: int) -> int {
    frame - 4 * (i + 1)
}

/// Stores the first `n` parameters from their argument registers into a
/// frame of `frame` bytes.
pub open spec fn store_params(frame: nat, n: nat) -> Seq<char>
    decreases n,
{
    if n == 0 {
        Seq::empty()
    } else {
        store_params(frame, (n - 1) as nat) + store_param(
            arg_reg(n - 1),
            param_offset(frame, n - 1),
        )
    }
}

/// The return instruction and the blank line that close a function.
pub open spec fn func_end() -> Seq<char> {
    tab_line("ret"@) + line(Seq::empty())
}

/// The text of the function `f`. A parameter without a storage size is
/// refused first, then a frame that is too large, then the first
/// statement that cannot be lowered.
pub open spec fn func_asm(f: FuncDeclView, target: TargetOs) -> Result<
    Seq<char>,
    UnsupportedConstructError,
> {
    match frame_of(f.params) {
        Err(err) => Err(err),
        Ok(frame) => match stmts_asm(f.body.stmts, f.body.stmts.len(), target) {
            Err(err) => Err(err),
            Ok(body) => Ok(
                func_header(f.name, target) + frame_enter(frame) + store_params(
                    frame,
                    in_regs(f.params.len()),
                ) + body + frame_leave(frame) + func_end(),
            ),
        },
    }
}

/// The text of one external declaration. A global variable emits nothing.
pub open spec fn decl_asm(d: ExtDeclView, target: TargetOs) -> Result<
    Seq<char>,
    UnsupportedConstructError,
> {
    match d {
        ExtDeclView::Func(f) => func_asm(f, target),
        ExtDeclView::Global(_) => Ok(Seq::empty()),
    }
}

/// The text of the first `n` of `decls`, in source order.
pub open spec fn decls_asm(decls: Seq<ExtDeclView>, n: nat, target: TargetOs) -> Result<
    Seq<char>,
    UnsupportedConstructError,
>
    decreases n,
{
    if n == 0 || n > decls.len() {
        Ok(Seq::empty())
    } else {
        match decls_asm(decls, (n - 1) as nat, target) {
            Err(err) => Err(err),
            Ok(front) => match decl_asm(decls[n - 1], target) {
                Err(err) => Err(err),
                Ok(last) => Ok(front + last),
            },
        }
    }
}

/// Whether `r` and the text after it are what emitting `text` onto the
/// text `before` gives: on success the text grows by `text`; a refused
/// construct is reported as it is, and the text still begins with what
/// it held before.
pub open spec fn emitted(
    before: Seq<char>,
    after: Seq<char>,
    r: Result<(), UnsupportedConstructError>,
    text: Result<Seq<char>, UnsupportedConstructError>,
) -> bool {
    match text {
        Ok(t) => r is Ok && after == before + t,
        Err(err) => r == Err::<(), UnsupportedConstructError>(err) && begins_with(after, before),
    }
}

/// A refused argument among the first `n` fails every longer run of
/// arguments with the same error.
pub proof fn lemma_args_asm_fails(args: Seq<ExprView>, n: nat, m: nat, target: TargetOs)
    requires
        n <= m <= args.len(),
        args_asm(args, n, target) is Err,
    ensures
        args_asm(args, m, target) == args_asm(args, n, target),
    decreases m - n,
{
    if n < m {
        lemma_args_asm_fails(args, n, (m - 1) as nat, target);
    }
}

/// A refused statement among the first `n` fails every longer run of
/// statements with the same error.
pub proof fn lemma_stmts_asm_fails(stmts: Seq<StmtView>, n: nat, m: nat, target: TargetOs)
    requires
        n <= m <= stmts.len(),
        stmts_asm(stmts, n, target) is Err,
    ensures
        stmts_asm(stmts, m, target) == stmts_asm(stmts, n, target),
    decreases m - n,
{
    if n < m {
        lemma_stmts_asm_fails(stmts, n, (m - 1) as nat, target);
    }
}

/// A refused declaration among the first `n` fails every longer run of
/// declarations with the same error.
pub proof fn lemma_decls_asm_fails(decls: Seq<ExtDeclView>, n: nat, m: nat, target: TargetOs)
    requires
        n <= m <= decls.len(),
        decls_asm(decls, n, target) is Err,
    ensures
        decls_asm(decls, m, target) == decls_asm(decls, n, target),
    decreases m - n,
{
    if n < m {
        lemma_decls_asm_fails(decls, n, (m - 1) as nat, target);
    }
}

/// The assembly text of a whole program: the `.text` directive and then
/// every function in source order.
pub open spec fn program_asm(ast: AstView, target: TargetOs) -> Result<
    Seq<char>,
    UnsupportedConstructError,
> {
    match decls_asm(ast.decls, ast.decls.len(), target) {
        Err(err) => Err(err),
        Ok(funcs) => Ok(tab_line(".text"@) + funcs),
    }
}

} // verus!
