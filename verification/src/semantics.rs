//! Semantic analysis: the check for duplicate declarations.
//!
//! The analysis walks the syntax tree once with a symbol table of its own,
//! which it builds and discards again. It reads the tree and changes
//! nothing in it.
//!
//! The parameters of a function are entered into no scope: a local
//! variable may take the name of a parameter. Assignments, returns and
//! expressions are not checked.

use crate::ast::{Ast, CmpStmt, ExtDecl, Stmt};
use crate::semantics::scoping::{
    analyse_spec, check_block, check_decls, check_stmts, lemma_roles_empty,
    lemma_roles_insert, roles,
};
use crate::symtable::{DeclRefCreation, SemanticError, SymTable};
use vstd::prelude::*;

pub mod scoping;

verus! {

/// The index `i` as a mathematical integer.
spec fn at(i: usize) -> int {
    i as int
}

/// Checks that no scope of the program declares a name twice, or reports
/// the first declaration of a name that its scope holds already.
pub fn analyse(ast: &mut Ast) -> (r: Result<(), SemanticError>)
    ensures
        *final(ast) == *old(ast),
        match analyse_spec(old(ast)@) {
            Ok(_) => r is Ok,
            Err(e) => r matches Err(x) && x@ == e,
        },
{
    let tree: &Ast = ast;
    let mut table = SymTable::new();
    table.push_scope();
    let ghost decls = tree@.decls;
    proof {
        lemma_roles_empty();
    }
    let mut i: usize = 0;
    while i < tree.0.len()
        invariant
            i <= tree.0.len(),
            *tree == *old(ast),
            decls == tree@.decls,
            decls.len() == tree.0.len(),
            table.wf(),
            table@.len() == 1,
            analyse_spec(tree@) == check_decls(decls, at(i), roles(table@[0])),
        decreases tree.0.len() - i,
    {
        let ghost scope = table@[0];
        proof {
            assert(decls[at(i)] == tree.0[at(i)]@);
        }
        match &tree.0[i] {
            ExtDecl::Func(decl) => {
                proof {
                    lemma_roles_insert(scope, decl.name@, decl.decl_ref());
                }
                table.cur_scope().insert_decl(decl.name.as_str(), decl)?;
                analyse_cmp_stmt(&mut table, &decl.cmp_stmt)?;
            },
            ExtDecl::Global(decl) => {
                proof {
                    lemma_roles_insert(scope, decl.1@, decl.decl_ref());
                }
                table.cur_scope().insert_decl(decl.1.as_str(), decl)?;
            },
        }
        i = i + 1;
    }
    table.pop_scope();
    Ok(())
}

/// The scopes `outer` that were open below the innermost scope of
/// `before` are still the lowest scopes of `after`, if `after` begins
/// with `before`.
proof fn lemma_scopes_kept<T>(outer: Seq<T>, before: Seq<T>, after: Seq<T>)
    requires
        before.len() > 0,
        before.drop_last() == outer,
        before.is_prefix_of(after),
    ensures
        outer.is_prefix_of(after),
{
    assert(outer =~= after.subrange(0, outer.len() as int));
}

/// A table that is left as it was begins with its scopes.
proof fn lemma_scopes_same<T>(before: Seq<T>, after: Seq<T>)
    requires
        before =~= after,
    ensures
        before.is_prefix_of(after),
{
    assert(before =~= after.subrange(0, before.len() as int));
}

/// Checks a compound statement in a scope of its own, which is opened on
/// entry and closed again on success. After an error the scopes that
/// were open on entry are still the lowest scopes of the table, below
/// those that the check had opened.
pub fn analyse_cmp_stmt<'a>(table: &mut SymTable<'a>, cmp_stmt: &'a CmpStmt) -> (r: Result<
    (),
    SemanticError,
>)
    requires
        old(table).wf(),
    ensures
        final(table).wf(),
        match check_block(cmp_stmt@) {
            Ok(_) => r is Ok && final(table)@ == old(table)@,
            Err(e) => r matches Err(x) && x@ == e && old(table)@.is_prefix_of(final(table)@),
        },
    decreases cmp_stmt,
{
    table.push_scope();
    let ghost stmts = cmp_stmt@.stmts;
    let ghost depth = old(table)@.len();
    proof {
        lemma_roles_empty();
    }
    let mut i: usize = 0;
    while i < cmp_stmt.stmts.len()
        invariant
            i <= cmp_stmt.stmts.len(),
            stmts == cmp_stmt@.stmts,
            stmts.len() == cmp_stmt.stmts.len(),
            table.wf(),
            depth == old(table)@.len(),
            table@.len() == depth + 1,
            table@.drop_last() == old(table)@,
            check_block(cmp_stmt@) == check_stmts(stmts, at(i), roles(table@.last())),
        decreases cmp_stmt.stmts.len() - i,
    {
        let ghost scope = table@.last();
        let ghost before = table@;
        proof {
            assert(stmts[at(i)] == cmp_stmt.stmts[at(i)]@);
        }
        match &cmp_stmt.stmts[i] {
            Stmt::Compound(st) => {
                let r = analyse_cmp_stmt(table, st);
                proof {
                    if r is Err {
                        lemma_scopes_kept(old(table)@, before, table@);
                    }
                }
                r?;
            },
            Stmt::VarDecl(decl) => {
                proof {
                    lemma_roles_insert(scope, decl.1@, decl.decl_ref());
                }
                let r = table.cur_scope().insert_decl(decl.1.as_str(), decl);
                proof {
                    if r is Err {
                        lemma_scopes_same(before, table@);
                        lemma_scopes_kept(old(table)@, before, table@);
                    }
                    assert(table@.drop_last() =~= before.drop_last());
                }
                r?;
            },
            Stmt::Assignment(_, _) => {},
            Stmt::Return(_) => {},
            Stmt::Expr(_) => {},
        }
        i = i + 1;
    }
    table.pop_scope();
    Ok(())
}

} // verus!
