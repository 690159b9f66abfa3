//! Lowering of the syntax tree to AArch64 assembly text.
//!
//! The generator walks the tree once and appends to one text buffer. It
//! keeps no register state between expressions: the caller of an
//! expression names the register that the value is wanted in.

use crate::ast::{Ast, CmpStmt, Expr, ExtDecl, FuncDecl, Stmt};
use crate::codegen::gen_util::{
    get_sp_offset, lemma_params_size, size_args_local, UnsupportedConstructError,
    MAX_FRAME_INPUT,
};
use crate::codegen::listing::{
    arg_reg, args_asm, call_branch, call_enter, call_leave, decls_asm, emitted,
    expr_asm, frame_enter, frame_leave, func_asm, func_end, func_header, in_regs,
    lemma_args_asm_fails, lemma_decls_asm_fails, lemma_stmts_asm_fails, move_reg,
    program_asm, stmt_asm, stmts_asm, store_params, symbol, Reg,
};
use crate::text::{
    begins_with, lemma_begins_with_trans, line, push_char, push_decimal, push_line,
    push_signed_decimal, tab_line,
};
use crate::util::TargetOs;
use vstd::prelude::*;

pub mod gen_util;
pub mod listing;
pub mod naming;

verus! {

impl Reg {
    /// The number of the register.
    pub fn index(self) -> (n: u64)
        ensures
            n == self.number(),
    {
        match self {
            Reg::X0 => 0,
            Reg::X1 => 1,
            Reg::X2 => 2,
            Reg::X3 => 3,
            Reg::X4 => 4,
            Reg::X5 => 5,
            Reg::X6 => 6,
            Reg::X7 => 7,
            Reg::X9 => 9,
            Reg::X10 => 10,
            Reg::X11 => 11,
            Reg::X12 => 12,
            Reg::X13 => 13,
            Reg::X14 => 14,
            Reg::X15 => 15,
            Reg::X29 => 29,
            Reg::X30 => 30,
        }
    }

    /// Appends the name of the register to `out`.
    pub fn push_name(self, out: &mut String)
        ensures
            final(out)@ == old(out)@ + self.name(),
    {
        push_char(out, 'x');
        push_decimal(out, self.index());
    }
}

/// The register that carries argument `i`.
pub fn arg_reg_at(i: usize) -> (r: Reg)
    requires
        i < 8,
    ensures
        r == arg_reg(i as int),
{
    if i == 0 {
        Reg::X0
    } else if i == 1 {
        Reg::X1
    } else if i == 2 {
        Reg::X2
    } else if i == 3 {
        Reg::X3
    } else if i == 4 {
        Reg::X4
    } else if i == 5 {
        Reg::X5
    } else if i == 6 {
        Reg::X6
    } else {
        Reg::X7
    }
}

/// Generates the assembly text of `ast` for `target`, or reports the first
/// construct that cannot be lowered.
pub fn gen_asm(ast: &Ast, target: &TargetOs) -> (r: Result<String, UnsupportedConstructError>)
    ensures
        match program_asm(ast@, *target) {
            Ok(text) => r is Ok && r->Ok_0@ == text,
            Err(err) => r == Err::<String, UnsupportedConstructError>(err),
        },
{
    let mut g = ArmGen::new(ast, target);
    g.gen()?;
    Ok(g.str)
}

/// The generator: the program, the text emitted so far and the target.
pub struct ArmGen<'a> {
    /// The program that is lowered.
    pub ast: &'a Ast,
    /// The assembly text emitted so far.
    pub str: String,
    /// The target whose conventions the text follows.
    pub target: TargetOs,
}

impl<'a> ArmGen<'a> {
    /// A generator with an empty text.
    pub fn new(ast: &'a Ast, target: &TargetOs) -> (g: Self)
        ensures
            g.ast == ast,
            g.str@ == Seq::<char>::empty(),
            g.target == *target,
    {
        ArmGen { ast, str: String::new(), target: *target }
    }

    /// Emits the whole program.
    pub fn gen(&mut self) -> (r: Result<(), UnsupportedConstructError>)
        ensures
            final(self).ast == old(self).ast,
            final(self).target == old(self).target,
            emitted(old(self).str@, final(self).str@, r, program_asm(old(self).ast@, old(self).target)),
    {
        let begin = ".text";
        self.ptab(begin);
        let ast = self.ast;
        let ghost decls = ast@.decls;
        let ghost base = self.str@;
        let mut i: usize = 0;
        while i < ast.0.len()
            invariant
                i <= ast.0.len(),
                ast == old(self).ast,
                decls == ast@.decls,
                decls.len() == ast.0.len(),
                self.ast == old(self).ast,
                self.target == old(self).target,
                base == old(self).str@ + tab_line(".text"@),
                decls_asm(decls, i as nat, self.target) matches Ok(t) && self.str@ == base + t,
            decreases ast.0.len() - i,
        {
            let ghost before = self.str@;
            let r = match &ast.0[i] {
                ExtDecl::Func(f) => self.gen_func(f),
                ExtDecl::Global(_) => Ok(()),
            };
            proof {
                assert(decls[i as int] == ast.0[i as int]@);
                if r is Err {
                    lemma_decls_asm_fails(decls, (i + 1) as nat, decls.len(), self.target);
                    let t = decls_asm(decls, i as nat, self.target)->Ok_0;
                    assert(before =~= old(self).str@ + (tab_line(".text"@) + t));
                    lemma_begins_with_trans(old(self).str@, before, self.str@);
                }
            }
            r?;
            i = i + 1;
        }
        proof {
            let funcs = decls_asm(decls, decls.len(), self.target)->Ok_0;
            assert(self.str@ =~= old(self).str@ + (tab_line(".text"@) + funcs));
        }
        Ok(())
    }

    /// Emits one function: directives and label, the frame, the parameter
    /// stores, the body, and the return.
    pub fn gen_func(&mut self, func: &FuncDecl) -> (r: Result<(), UnsupportedConstructError>)
        ensures
            final(self).ast == old(self).ast,
            final(self).target == old(self).target,
            emitted(old(self).str@, final(self).str@, r, func_asm(func@, old(self).target)),
    {
        self.open_func(func.name.as_str());

        let size: u32 = size_args_local(func)?;
        if size > MAX_FRAME_INPUT {
            return Err(UnsupportedConstructError::FrameTooLarge);
        }
        let sp_offset: u32 = get_sp_offset(size);
        proof {
            lemma_params_size(func@.params);
        }
        self.enter_frame(sp_offset);
        self.store_args(func.params.len(), sp_offset);
        let ghost before = self.str@;
        let r = self.emit_cmp_stmt(&func.cmp_stmt);
        proof {
            if r is Err {
                assert(before =~= old(self).str@ + (func_header(func@.name, self.target)
                    + frame_enter(bytes(sp_offset)) + store_params(
                    bytes(sp_offset),
                    in_regs(func@.params.len()),
                )));
                lemma_begins_with_trans(old(self).str@, before, self.str@);
            }
        }
        r?;
        self.leave_frame(sp_offset);
        self.close_func();
        proof {
            let frame = bytes(sp_offset);
            let stmts = func@.body.stmts;
            let body = stmts_asm(stmts, stmts.len(), self.target)->Ok_0;
            assert(self.str@ =~= old(self).str@ + (func_header(func@.name, self.target)
                + frame_enter(frame) + store_params(frame, in_regs(func@.params.len())) + body
                + frame_leave(frame) + func_end()));
        }
        Ok(())
    }

    /// Emits the directives and the label that open the function called
    /// `name`.
    pub fn open_func(&mut self, name: &str)
        ensures
            final(self).ast == old(self).ast,
            final(self).target == old(self).target,
            final(self).str@ == old(self).str@ + func_header(name@, old(self).target),
    {
        let symbol = self.to_symbol(name);
        let mut global = String::from_str(".global ");
        global.append(symbol.as_str());
        self.ptab(global.as_str());
        self.ptab(".p2align 2");
        let mut label = symbol;
        label.append(":");
        self.pln(label.as_str());
    }

    /// Reserves the frame by moving the stack pointer down.
    pub fn enter_frame(&mut self, sp_offset: u32)
        ensures
            final(self).ast == old(self).ast,
            final(self).target == old(self).target,
            final(self).str@ == old(self).str@ + frame_enter(sp_offset as nat),
    {
        if sp_offset > 0 {
            let mut inst = String::from_str("sub sp, sp, #");
            push_decimal(&mut inst, sp_offset as u64);
            self.ptab(inst.as_str());
        }
    }

    /// Releases the frame by moving the stack pointer back up.
    pub fn leave_frame(&mut self, sp_offset: u32)
        ensures
            final(self).ast == old(self).ast,
            final(self).target == old(self).target,
            final(self).str@ == old(self).str@ + frame_leave(sp_offset as nat),
    {
        if sp_offset > 0 {
            let mut inst = String::from_str("add sp, sp, #");
            push_decimal(&mut inst, sp_offset as u64);
            self.ptab(inst.as_str());
        }
    }

    /// Emits the return instruction and the blank line after a function.
    pub fn close_func(&mut self)
        ensures
            final(self).ast == old(self).ast,
            final(self).target == old(self).target,
            final(self).str@ == old(self).str@ + func_end(),
    {
        proof {
            reveal_strlit("");
        }
        self.ptab("ret");
        self.pln("");
    }

    /// Stores the parameters that arrive in registers into a frame of
    /// `sp_offset` bytes, the first one closest to the top.
    pub fn store_args(&mut self, count: usize, sp_offset: u32)
        requires
            4 * count <= sp_offset,
        ensures
            final(self).ast == old(self).ast,
            final(self).target == old(self).target,
            final(self).str@ == old(self).str@ + store_params(
                sp_offset as nat,
                in_regs(count as nat),
            ),
    {
        let n: usize = if count < 8 { count } else { 8 };
        let mut arg_offset: u32 = sp_offset;
        let mut i: usize = 0;
        while i < n
            invariant
                i <= n <= 8,
                n <= count,
                4 * count <= sp_offset,
                arg_offset == sp_offset - 4 * i,
                self.ast == old(self).ast,
                self.target == old(self).target,
                self.str@ == old(self).str@ + store_params(sp_offset as nat, i as nat),
            decreases n - i,
        {
            arg_offset = arg_offset - 4;
            let reg = arg_reg_at(i);
            let mut inst = String::from_str("str ");
            reg.push_name(&mut inst);
            inst.append(", [sp, #");
            push_decimal(&mut inst, arg_offset as u64);
            inst.append("]");
            self.ptab(inst.as_str());
            i = i + 1;
        }
    }

    /// Emits the statements of a compound statement in order.
    pub fn emit_cmp_stmt(&mut self, cmp_stmt: &CmpStmt) -> (r: Result<(), UnsupportedConstructError>)
        ensures
            final(self).ast == old(self).ast,
            final(self).target == old(self).target,
            emitted(
                old(self).str@,
                final(self).str@,
                r,
                stmts_asm(cmp_stmt@.stmts, cmp_stmt@.stmts.len(), old(self).target),
            ),
    {
        let ghost stmts = cmp_stmt@.stmts;
        let mut i: usize = 0;
        while i < cmp_stmt.stmts.len()
            invariant
                i <= cmp_stmt.stmts.len(),
                stmts == cmp_stmt@.stmts,
                stmts.len() == cmp_stmt.stmts.len(),
                self.ast == old(self).ast,
                self.target == old(self).target,
                stmts_asm(stmts, count(i), self.target) matches Ok(t) && self.str@ == old(
                    self,
                ).str@ + t,
            decreases cmp_stmt.stmts.len() - i,
        {
            let ghost before = self.str@;
            let r = self.emit_stmt(&cmp_stmt.stmts[i]);
            proof {
                assert(stmts[index(i)] == cmp_stmt.stmts[index(i)]@);
                if r is Err {
                    lemma_stmts_asm_fails(stmts, count(i) + 1, stmts.len(), self.target);
                    lemma_begins_with_trans(old(self).str@, before, self.str@);
                }
            }
            r?;
            i = i + 1;
        }
        Ok(())
    }

    /// Emits one statement.
    pub fn emit_stmt(&mut self, stmt: &Stmt) -> (r: Result<(), UnsupportedConstructError>)
        ensures
            final(self).ast == old(self).ast,
            final(self).target == old(self).target,
            emitted(old(self).str@, final(self).str@, r, stmt_asm(stmt@, old(self).target)),
    {
        proof {
            assert(self.str@ =~= old(self).str@ + Seq::<char>::empty());
        }
        match stmt {
            Stmt::Return(opt) => {
                if let Some(expr) = opt {
                    self.emit_expr(expr, Some(Reg::X0))
                } else {
                    Ok(())
                }
            },
            Stmt::Expr(e) => self.emit_expr(e, None),
            Stmt::Compound(_) => Err(UnsupportedConstructError::CompoundStmt),
            Stmt::VarDecl(_) => Err(UnsupportedConstructError::VarDeclStmt),
            Stmt::Assignment(_, _) => Err(UnsupportedConstructError::AssignmentStmt),
        }
    }

    /// Emits an expression, leaving its value in `dst_reg` if one is named.
    pub fn emit_expr(&mut self, expr: &Expr, dst_reg: Option<Reg>) -> (r: Result<
        (),
        UnsupportedConstructError,
    >)
        ensures
            final(self).ast == old(self).ast,
            final(self).target == old(self).target,
            emitted(
                old(self).str@,
                final(self).str@,
                r,
                expr_asm(expr@, dst_reg, old(self).target),
            ),
        decreases expr,
    {
        match expr {
            Expr::IntConst(v) => {
                if let Some(r) = dst_reg {
                    let mut inst = String::from_str("mov ");
                    r.push_name(&mut inst);
                    inst.append(", #");
                    push_signed_decimal(&mut inst, *v);
                    self.ptab(inst.as_str());
                }
                Ok(())
            },
            Expr::FunctionCall(name, args) => {
                let ghost views = expr@->FunctionCall_1;
                let mut save = String::from_str("stp ");
                Reg::X29.push_name(&mut save);
                save.append(", ");
                Reg::X30.push_name(&mut save);
                save.append(", [sp, #-16]!");
                self.ptab(save.as_str());

                let mut frame = String::from_str("mov ");
                Reg::X29.push_name(&mut frame);
                frame.append(", sp");
                self.ptab(frame.as_str());

                let ghost base = self.str@;
                proof {
                    assert(base =~= old(self).str@ + (tab_line(save@) + tab_line(frame@)));
                }
                let n: usize = if args.len() < 8 { args.len() } else { 8 };
                let mut i: usize = 0;
                while i < n
                    invariant
                        i <= n <= 8,
                        n <= args.len(),
                        n == in_regs(views.len()),
                        *expr == Expr::FunctionCall(*name, *args),
                        views == expr@->FunctionCall_1,
                        views.len() == args.len(),
                        self.ast == old(self).ast,
                        self.target == old(self).target,
                        begins_with(base, old(self).str@),
                        args_asm(views, i as nat, self.target) matches Ok(t) && self.str@ == base
                            + t,
                    decreases n - i,
                {
                    let reg = arg_reg_at(i);
                    let ghost before = self.str@;
                    let r = self.emit_expr(&args[i], Some(reg));
                    proof {
                        assert(views[i as int] == args[i as int]@);
                        if r is Err {
                            lemma_args_asm_fails(views, (i + 1) as nat, n as nat, self.target);
                            lemma_begins_with_trans(old(self).str@, base, before);
                            lemma_begins_with_trans(old(self).str@, before, self.str@);
                        }
                    }
                    r?;
                    i = i + 1;
                }

                let mut call = String::from_str("bl ");
                let symbol = self.to_symbol(name.as_str());
                call.append(symbol.as_str());
                self.ptab(call.as_str());

                let mut restore = String::from_str("ldp ");
                Reg::X29.push_name(&mut restore);
                restore.append(", ");
                Reg::X30.push_name(&mut restore);
                restore.append(", [sp], #16");
                self.ptab(restore.as_str());

                self.util_move_reg(dst_reg, Reg::X0);
                proof {
                    let loads = args_asm(views, n as nat, self.target)->Ok_0;
                    assert(self.str@ =~= old(self).str@ + (call_enter() + loads + call_branch(
                        name@,
                        self.target,
                    ) + call_leave() + move_reg(dst_reg, Reg::X0)));
                }
                Ok(())
            },
            Expr::VarRef(_) => {
                proof {
                    assert(self.str@ =~= old(self).str@ + Seq::<char>::empty());
                }
                Err(UnsupportedConstructError::VarRefExpr)
            },
            Expr::Arith(_, _, _) => {
                proof {
                    assert(self.str@ =~= old(self).str@ + Seq::<char>::empty());
                }
                Err(UnsupportedConstructError::ArithExpr)
            },
        }
    }

    /// Copies `src` into `dst`, unless the value is already there.
    pub fn util_move_reg(&mut self, dst: Option<Reg>, src: Reg)
        ensures
            final(self).ast == old(self).ast,
            final(self).target == old(self).target,
            final(self).str@ == old(self).str@ + move_reg(dst, src),
    {
        if let Some(r) = dst {
            if src != r {
                let mut inst = String::from_str("mov ");
                r.push_name(&mut inst);
                inst.append(", ");
                src.push_name(&mut inst);
                self.ptab(inst.as_str());
            }
        }
    }

    /// The assembly symbol of the function called `name`.
    pub fn to_symbol(&self, name: &str) -> (s: String)
        ensures
            s@ == symbol(name@, self.target),
    {
        match self.target {
            TargetOs::MacOs => {
                proof {
                    reveal_strlit("_");
                }
                let mut s = String::from_str("_");
                s.append(name);
                s
            },
            _ => String::from_str(name),
        }
    }

    /// Appends a tab, `s` and a line break.
    pub fn ptab(&mut self, s: &str)
        ensures
            final(self).ast == old(self).ast,
            final(self).target == old(self).target,
            final(self).str@ == old(self).str@ + tab_line(s@),
    {
        push_char(&mut self.str, '\t');
        self.pln(s);
    }

    /// Appends `s` and a line break.
    pub fn pln(&mut self, s: &str)
        ensures
            final(self).ast == old(self).ast,
            final(self).target == old(self).target,
            final(self).str@ == old(self).str@ + line(s@),
    {
        push_line(&mut self.str, s);
    }
}

/// The index `i` as a mathematical integer.
spec fn index(i: usize) -> int {
    i as int
}

/// The byte count `n` as a natural number.
spec fn bytes(n: u32) -> nat {
    n as nat
}

/// The count `i` as a natural number.
spec fn count(i: usize) -> nat {
    i as nat
}

} // verus!
