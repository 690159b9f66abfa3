//! The scoping rule: within one scope a name is declared at most once.
//!
//! The top level of a program is one scope, which holds the functions and
//! the global variables. Every compound statement is a scope of its own,
//! which holds the local variables declared directly in it. Declarations
//! are checked in source order, and the first name that its scope holds
//! already is the error.

use crate::ast::{AstView, CmpStmtView, ExtDeclView, StmtView};
use crate::symtable::{DeclRef, DeclRole, SemanticErrorView};
use vstd::prelude::*;

verus! {

/// The names that a scope holds, each with the role of its declaration.
pub type Scope = Map<Seq<char>, DeclRole>;

/// The roles of the declarations that a scope of the symbol table holds.
pub open spec fn roles<'a>(scope: Map<Seq<char>, DeclRef<'a>>) -> Scope {
    Map::new(|name: Seq<char>| scope.dom().contains(name), |name: Seq<char>| scope[name].role())
}

/// Declares `name` with `role` in `scope`: the scope with the name added,
/// or the error if the scope holds the name already.
pub open spec fn declare(scope: Scope, name: Seq<char>, role: DeclRole) -> Result<
    Scope,
    SemanticErrorView,
> {
    if scope.dom().contains(name) {
        Err(SemanticErrorView { name, new_role: role, existing: scope[name] })
    } else {
        Ok(scope.insert(name, role))
    }
}

/// Checks the statements of a block from index `i` on, where `scope`
/// holds the names that the block has declared before them.
pub open spec fn check_stmts(stmts: Seq<StmtView>, i: int, scope: Scope) -> Result<
    (),
    SemanticErrorView,
>
    decreases stmts, stmts.len() - i,
{
    if i < 0 || i >= stmts.len() {
        Ok(())
    } else {
        match stmts[i] {
            StmtView::Compound(inner) => match check_block(inner) {
                Err(e) => Err(e),
                Ok(_) => check_stmts(stmts, i + 1, scope),
            },
            StmtView::VarDecl(d) => match declare(scope, d.name, DeclRole::Var) {
                Err(e) => Err(e),
                Ok(extended) => check_stmts(stmts, i + 1, extended),
            },
            _ => check_stmts(stmts, i + 1, scope),
        }
    }
}

/// Checks a compound statement, which opens an empty scope of its own.
pub open spec fn check_block(block: CmpStmtView) -> Result<(), SemanticErrorView>
    decreases block, 0int,
{
    check_stmts(block.stmts, 0, Map::empty())
}

/// Checks the external declarations from index `i` on, where `scope`
/// holds the names declared before them. The body of a function is
/// checked right after the name of the function is declared.
pub open spec fn check_decls(decls: Seq<ExtDeclView>, i: int, scope: Scope) -> Result<
    (),
    SemanticErrorView,
>
    decreases decls.len() - i,
{
    if i < 0 || i >= decls.len() {
        Ok(())
    } else {
        match decls[i] {
            ExtDeclView::Func(f) => match declare(scope, f.name, DeclRole::Func) {
                Err(e) => Err(e),
                Ok(extended) => match check_block(f.body) {
                    Err(e) => Err(e),
                    Ok(_) => check_decls(decls, i + 1, extended),
                },
            },
            ExtDeclView::Global(g) => match declare(scope, g.name, DeclRole::GlobalVar) {
                Err(e) => Err(e),
                Ok(extended) => check_decls(decls, i + 1, extended),
            },
        }
    }
}

/// Checks a whole program: `Ok` if no scope declares a name twice, and
/// else the first such declaration.
pub open spec fn analyse_spec(ast: AstView) -> Result<(), SemanticErrorView> {
    check_decls(ast.decls, 0, Map::empty())
}

/// The roles of an empty scope are empty.
pub proof fn lemma_roles_empty<'a>()
    ensures
        roles(Map::<Seq<char>, DeclRef<'a>>::empty()) == Map::<Seq<char>, DeclRole>::empty(),
{
    assert(roles(Map::<Seq<char>, DeclRef<'a>>::empty()) =~= Map::<Seq<char>, DeclRole>::empty());
}

/// A declaration added to a scope adds its role to the roles.
pub proof fn lemma_roles_insert<'a>(
    scope: Map<Seq<char>, DeclRef<'a>>,
    name: Seq<char>,
    decl: DeclRef<'a>,
)
    ensures
        roles(scope.insert(name, decl)) == roles(scope).insert(name, decl.role()),
{
    assert(roles(scope.insert(name, decl)) =~= roles(scope).insert(name, decl.role()));
}

/// The name that statement `k` declares in its block, if it declares one.
pub open spec fn local_name(stmts: Seq<StmtView>, k: int) -> Option<Seq<char>> {
    if 0 <= k < stmts.len() {
        match stmts[k] {
            StmtView::VarDecl(d) => Some(d.name),
            _ => None,
        }
    } else {
        None
    }
}

/// The block that statement `k` is, if it is a compound statement.
pub open spec fn inner_block(stmts: Seq<StmtView>, k: int) -> Option<CmpStmtView> {
    if 0 <= k < stmts.len() {
        match stmts[k] {
            StmtView::Compound(inner) => Some(inner),
            _ => None,
        }
    } else {
        None
    }
}

/// None of the statements from index `i` on declares a name of `scope`.
pub open spec fn locals_fresh(stmts: Seq<StmtView>, i: int, scope: Scope) -> bool {
    forall|k: int|
        i <= k < stmts.len() ==> (#[trigger] local_name(stmts, k) matches Some(name)
            ==> !scope.dom().contains(name))
}

/// No two of the statements from index `i` on declare the same name.
pub open spec fn locals_distinct(stmts: Seq<StmtView>, i: int) -> bool {
    forall|a: int, b: int|
        i <= a < b < stmts.len() && (#[trigger] local_name(stmts, a)) is Some ==> local_name(
            stmts,
            a,
        ) != #[trigger] local_name(stmts, b)
}

/// Every compound statement among the statements from index `i` on
/// passes the check.
pub open spec fn inner_blocks_pass(stmts: Seq<StmtView>, i: int) -> bool {
    forall|k: int|
        i <= k < stmts.len() ==> (#[trigger] inner_block(stmts, k) matches Some(inner)
            ==> check_block(inner) is Ok)
}

/// The statements of a block from index `i` on pass the check exactly if
/// they declare no name of the scope, no name twice, and every compound
/// statement among them passes on its own.
pub proof fn lemma_check_stmts(stmts: Seq<StmtView>, i: int, scope: Scope)
    requires
        0 <= i <= stmts.len(),
    ensures
        check_stmts(stmts, i, scope) is Ok <==> locals_fresh(stmts, i, scope) && locals_distinct(
            stmts,
            i,
        ) && inner_blocks_pass(stmts, i),
    decreases stmts.len() - i,
{
    if i < stmts.len() {
        match stmts[i] {
            StmtView::Compound(inner) => {
                lemma_check_stmts(stmts, i + 1, scope);
                assert(inner_block(stmts, i) == Some(inner));
                assert(local_name(stmts, i) is None);
                if check_block(inner) is Ok && locals_fresh(stmts, i + 1, scope)
                    && locals_distinct(stmts, i + 1) && inner_blocks_pass(stmts, i + 1) {
                    assert forall|k: int| i <= k < stmts.len() implies (#[trigger] local_name(
                        stmts,
                        k,
                    ) matches Some(name) ==> !scope.dom().contains(name)) by {
                        if k > i {
                            assert(i + 1 <= k);
                        }
                    }
                    assert forall|k: int| i <= k < stmts.len() implies (#[trigger] inner_block(
                        stmts,
                        k,
                    ) matches Some(b) ==> check_block(b) is Ok) by {
                        if k > i {
                            assert(i + 1 <= k);
                        }
                    }
                }
            },
            StmtView::VarDecl(d) => {
                let extended = scope.insert(d.name, DeclRole::Var);
                lemma_check_stmts(stmts, i + 1, extended);
                assert(local_name(stmts, i) == Some(d.name));
                assert(inner_block(stmts, i) is None);
                if locals_fresh(stmts, i, scope) && locals_distinct(stmts, i) {
                    assert forall|k: int| i + 1 <= k < stmts.len() implies (
                    #[trigger] local_name(stmts, k) matches Some(name)
                        ==> !extended.dom().contains(name)) by {
                        assert(local_name(stmts, i) != local_name(stmts, k));
                    }
                }
                if !scope.dom().contains(d.name) && locals_fresh(stmts, i + 1, extended)
                    && locals_distinct(stmts, i + 1) {
                    assert forall|a: int, b: int|
                        i <= a < b < stmts.len() && (#[trigger] local_name(
                            stmts,
                            a,
                        )) is Some implies local_name(stmts, a) != #[trigger] local_name(
                        stmts,
                        b,
                    ) by {
                        if a == i {
                            assert(i + 1 <= b);
                            if local_name(stmts, b) is Some {
                                assert(!extended.dom().contains(local_name(stmts, b)->0));
                            }
                        }
                    }
                    assert forall|k: int| i <= k < stmts.len() implies (#[trigger] local_name(
                        stmts,
                        k,
                    ) matches Some(name) ==> !scope.dom().contains(name)) by {
                        if k > i {
                            assert(i + 1 <= k);
                            if local_name(stmts, k) is Some {
                                assert(!extended.dom().contains(local_name(stmts, k)->0));
                            }
                        }
                    }
                }
            },
            _ => {
                lemma_check_stmts(stmts, i + 1, scope);
                assert(local_name(stmts, i) is None);
                assert(inner_block(stmts, i) is None);
                if locals_fresh(stmts, i + 1, scope) && locals_distinct(stmts, i + 1)
                    && inner_blocks_pass(stmts, i + 1) {
                    assert forall|k: int| i <= k < stmts.len() implies (#[trigger] local_name(
                        stmts,
                        k,
                    ) matches Some(name) ==> !scope.dom().contains(name)) by {
                        if k > i {
                            assert(i + 1 <= k);
                        }
                    }
                    assert forall|k: int| i <= k < stmts.len() implies (#[trigger] inner_block(
                        stmts,
                        k,
                    ) matches Some(b) ==> check_block(b) is Ok) by {
                        if k > i {
                            assert(i + 1 <= k);
                        }
                    }
                }
            },
        }
    }
}

/// A block passes the check exactly if the local variables declared
/// directly in it have different names and every block nested directly
/// in it passes on its own. So two declarations of one name in one block
/// are always an error, and a name of a block that an inner block
/// declares again never is one.
pub proof fn lemma_scope_uniqueness(block: CmpStmtView)
    ensures
        check_block(block) is Ok <==> locals_distinct(block.stmts, 0) && inner_blocks_pass(
            block.stmts,
            0,
        ),
{
    lemma_check_stmts(block.stmts, 0, Map::empty());
}

/// Two declarations of one name directly in one block fail the check of
/// the block.
pub proof fn lemma_duplicate_local_fails(block: CmpStmtView, a: int, b: int)
    requires
        0 <= a < b < block.stmts.len(),
        local_name(block.stmts, a) is Some,
        local_name(block.stmts, a) == local_name(block.stmts, b),
    ensures
        check_block(block) is Err,
{
    lemma_scope_uniqueness(block);
}

/// The name that external declaration `k` declares.
pub open spec fn global_name(decls: Seq<ExtDeclView>, k: int) -> Seq<char> {
    match decls[k] {
        ExtDeclView::Func(f) => f.name,
        ExtDeclView::Global(g) => g.name,
    }
}

/// The body of external declaration `k`, if it is a function.
pub open spec fn func_body(decls: Seq<ExtDeclView>, k: int) -> Option<CmpStmtView> {
    if 0 <= k < decls.len() {
        match decls[k] {
            ExtDeclView::Func(f) => Some(f.body),
            ExtDeclView::Global(_) => None,
        }
    } else {
        None
    }
}

/// None of the declarations from index `i` on declares a name of `scope`.
pub open spec fn globals_fresh(decls: Seq<ExtDeclView>, i: int, scope: Scope) -> bool {
    forall|k: int| i <= k < decls.len() ==> !scope.dom().contains(#[trigger] global_name(decls, k))
}

/// No two of the declarations from index `i` on declare the same name.
pub open spec fn globals_distinct(decls: Seq<ExtDeclView>, i: int) -> bool {
    forall|a: int, b: int|
        i <= a < b < decls.len() ==> #[trigger] global_name(decls, a) != #[trigger] global_name(
            decls,
            b,
        )
}

/// The body of every function from index `i` on passes the check.
pub open spec fn bodies_pass(decls: Seq<ExtDeclView>, i: int) -> bool {
    forall|k: int|
        i <= k < decls.len() ==> (#[trigger] func_body(decls, k) matches Some(body)
            ==> check_block(body) is Ok)
}

/// The declarations from index `i` on pass the check exactly if they
/// declare no name of the scope, no name twice, and the body of every
/// function among them passes.
pub proof fn lemma_check_decls(decls: Seq<ExtDeclView>, i: int, scope: Scope)
    requires
        0 <= i <= decls.len(),
    ensures
        check_decls(decls, i, scope) is Ok <==> globals_fresh(decls, i, scope)
            && globals_distinct(decls, i) && bodies_pass(decls, i),
    decreases decls.len() - i,
{
    if i < decls.len() {
        let name = global_name(decls, i);
        let role = match decls[i] {
            ExtDeclView::Func(_) => DeclRole::Func,
            ExtDeclView::Global(_) => DeclRole::GlobalVar,
        };
        let extended = scope.insert(name, role);
        lemma_check_decls(decls, i + 1, extended);
        let body = func_body(decls, i);
        if globals_fresh(decls, i, scope) && globals_distinct(decls, i) && bodies_pass(decls, i) {
            assert(!scope.dom().contains(global_name(decls, i)));
            assert forall|k: int| i + 1 <= k < decls.len() implies !extended.dom().contains(
                #[trigger] global_name(decls, k),
            ) by {
                assert(global_name(decls, i) != global_name(decls, k));
            }
            assert(func_body(decls, i) matches Some(b) ==> check_block(b) is Ok);
        }
        if check_decls(decls, i, scope) is Ok {
            assert(!scope.dom().contains(name));
            assert(body matches Some(b) ==> check_block(b) is Ok);
            assert(check_decls(decls, i + 1, extended) is Ok);
            assert forall|a: int, b: int| i <= a < b < decls.len() implies #[trigger] global_name(
                decls,
                a,
            ) != #[trigger] global_name(decls, b) by {
                if a == i {
                    assert(!extended.dom().contains(global_name(decls, b)));
                }
            }
            assert forall|k: int| i <= k < decls.len() implies !scope.dom().contains(
                #[trigger] global_name(decls, k),
            ) by {
                if k > i {
                    assert(!extended.dom().contains(global_name(decls, k)));
                }
            }
            assert forall|k: int| i <= k < decls.len() implies (#[trigger] func_body(
                decls,
                k,
            ) matches Some(b) ==> check_block(b) is Ok) by {
                if k > i {
                    assert(i + 1 <= k);
                }
            }
        }
    }
}

/// A program passes the analysis exactly if its functions and global
/// variables have different names and the body of every function passes
/// the check of its blocks.
pub proof fn lemma_analyse_spec(ast: AstView)
    ensures
        analyse_spec(ast) is Ok <==> globals_distinct(ast.decls, 0) && bodies_pass(ast.decls, 0),
{
    lemma_check_decls(ast.decls, 0, Map::empty());
}

} // verus!
