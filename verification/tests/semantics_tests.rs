use tncc::ast::{CmpStmt, DataType, ExtDecl, FuncDecl, GlobalVarDecl, ParamDecl, VarDecl};
use tncc::parse::parse;
use tncc::scan::scan;
use tncc::semantics::{analyse, analyse_cmp_stmt};
use tncc::symtable::{DeclRef, DeclRole, SemanticError, SymScope, SymTable};

fn check(src: &str) -> Result<(), SemanticError> {
    let mut ast = parse(scan(src).unwrap()).unwrap();
    analyse(&mut ast)
}

fn duplicate(name: &str, new_role: DeclRole, existing: DeclRole) -> Result<(), SemanticError> {
    Err(SemanticError { name: String::from(name), new_role, existing })
}

#[test]
fn distinct_names_pass() {
    assert_eq!(check("int g; int h = 1; int f() { int a; int b; } int main() { int a; }"), Ok(()));
    assert_eq!(check(""), Ok(()));
}

#[test]
fn two_locals_of_one_name_in_one_block_fail() {
    assert_eq!(check("int f() { int a; int a; }"), duplicate("a", DeclRole::Var, DeclRole::Var));
    assert_eq!(
        check("int f() { int a; return 1; int b; g(); int a = 2; }"),
        duplicate("a", DeclRole::Var, DeclRole::Var)
    );
}

#[test]
fn same_name_in_nested_block_passes() {
    assert_eq!(check("int f() { int a; { int a; { int a; } } }"), Ok(()));
    assert_eq!(check("int g = 101; void foo() { int g = 2; { int g = 3; }}"), Ok(()));
    assert_eq!(check("int f() { { int a; } { int a; } int a; }"), Ok(()));
}

#[test]
fn duplicate_in_nested_block_fails() {
    assert_eq!(
        check("int f() { int a; { int b; int b; } }"),
        duplicate("b", DeclRole::Var, DeclRole::Var)
    );
}

#[test]
fn duplicate_functions_and_globals_fail() {
    assert_eq!(check("int f() {} int f() {}"), duplicate("f", DeclRole::Func, DeclRole::Func));
    assert_eq!(check("int g; int g;"), duplicate("g", DeclRole::GlobalVar, DeclRole::GlobalVar));
    assert_eq!(check("int g; int g() {}"), duplicate("g", DeclRole::Func, DeclRole::GlobalVar));
    assert_eq!(check("int g() {} int g;"), duplicate("g", DeclRole::GlobalVar, DeclRole::Func));
}

#[test]
fn first_duplicate_in_source_order_is_reported() {
    assert_eq!(
        check("int f() { int x; int x; } int f() {}"),
        duplicate("x", DeclRole::Var, DeclRole::Var)
    );
    assert_eq!(
        check("int f() {} int f() { int x; int x; }"),
        duplicate("f", DeclRole::Func, DeclRole::Func)
    );
}

#[test]
fn local_may_take_the_name_of_a_parameter_or_function() {
    assert_eq!(check("int f(int x) { int x; int f; }"), Ok(()));
}

#[test]
fn analysis_leaves_the_tree_unchanged() {
    let src = "int g; int f(int x) { int a; { int a; } return 1; }";
    let mut ast = parse(scan(src).unwrap()).unwrap();
    assert_eq!(analyse(&mut ast), Ok(()));
    assert_eq!(ast, parse(scan(src).unwrap()).unwrap());
}

#[test]
fn semantic_error_message_names_name_and_roles() {
    let e = check("int g; int g() {}").unwrap_err();
    assert_eq!(e.message(), "function 'g' is already defined as global variable");
    let e = check("int f() { int a; int a; }").unwrap_err();
    assert_eq!(e.message(), "local variable 'a' is already defined as local variable");
}

#[test]
fn role_texts() {
    assert_eq!(DeclRole::GlobalVar.format_type(), "global variable");
    assert_eq!(DeclRole::Var.format_type(), "local variable");
    assert_eq!(DeclRole::Param.format_type(), "function parameter");
    assert_eq!(DeclRole::Func.format_type(), "function");
}

#[test]
fn scope_inserts_and_finds_declarations() {
    let var = VarDecl(DataType::Int, String::from("a"), None);
    let global = GlobalVarDecl(DataType::Int, String::from("g"), None);
    let param = ParamDecl { data_type: DataType::Int, name: String::from("p") };
    let func = FuncDecl {
        return_type: DataType::Void,
        name: String::from("f"),
        params: vec![],
        cmp_stmt: CmpStmt { stmts: vec![] },
    };
    let mut scope = SymScope::new();
    assert!(scope.lookup_decl::<VarDecl>("a").is_none());
    assert_eq!(scope.insert_decl("a", &var), Ok(()));
    assert_eq!(scope.insert_decl("g", &global), Ok(()));
    assert_eq!(scope.insert_decl("p", &param), Ok(()));
    assert_eq!(scope.insert_decl("f", &func), Ok(()));
    assert!(matches!(scope.lookup_decl::<VarDecl>("a"), Some(DeclRef::Var(_))));
    assert!(matches!(scope.lookup_decl::<VarDecl>("g"), Some(DeclRef::GlobalVar(_))));
    assert!(matches!(scope.lookup_decl::<VarDecl>("p"), Some(DeclRef::Param(_))));
    assert!(matches!(scope.lookup_decl::<VarDecl>("f"), Some(DeclRef::Func(_))));
    assert_eq!(scope.lookup_decl::<VarDecl>("f").unwrap().format_type(), "function");
    assert_eq!(scope.lookup_decl::<VarDecl>("p").unwrap().get_role(), DeclRole::Param);
    assert!(scope.lookup_decl::<VarDecl>("x").is_none());
    assert_eq!(
        scope.insert_decl("p", &var),
        Err(SemanticError {
            name: String::from("p"),
            new_role: DeclRole::Var,
            existing: DeclRole::Param
        })
    );
    assert!(matches!(scope.lookup_decl::<VarDecl>("p"), Some(DeclRef::Param(_))));
}

#[test]
fn table_scopes_nest() {
    let outer = VarDecl(DataType::Int, String::from("a"), None);
    let inner = VarDecl(DataType::Int, String::from("a"), None);
    let mut table = SymTable::new();
    table.pop_scope();
    table.push_scope();
    assert_eq!(table.cur_scope().insert_decl("a", &outer), Ok(()));
    table.push_scope();
    assert!(table.cur_scope().lookup_decl::<VarDecl>("a").is_none());
    assert_eq!(table.cur_scope().insert_decl("a", &inner), Ok(()));
    assert!(table.cur_scope().insert_decl("a", &inner).is_err());
    table.pop_scope();
    assert!(table.cur_scope().lookup_decl::<VarDecl>("a").is_some());
    assert!(table.cur_scope().insert_decl("a", &inner).is_err());
}

#[test]
fn block_is_checked_in_a_scope_of_its_own() {
    let ast = parse(scan("int f() { int a; { int a; } }").unwrap()).unwrap();
    let outer = VarDecl(DataType::Int, String::from("a"), None);
    let mut table = SymTable::new();
    table.push_scope();
    assert_eq!(table.cur_scope().insert_decl("a", &outer), Ok(()));
    match &ast.0[0] {
        ExtDecl::Func(f) => {
            assert_eq!(analyse_cmp_stmt(&mut table, &f.cmp_stmt), Ok(()));
        }
        _ => unreachable!(),
    }
    assert!(table.cur_scope().lookup_decl::<VarDecl>("a").is_some());
}

#[test]
fn failed_block_leaves_the_outer_scopes_in_place() {
    let ast = parse(scan("int f() { int b; { int c; int c; } }").unwrap()).unwrap();
    let outer = VarDecl(DataType::Int, String::from("a"), None);
    let mut table = SymTable::new();
    table.push_scope();
    assert_eq!(table.cur_scope().insert_decl("a", &outer), Ok(()));
    match &ast.0[0] {
        ExtDecl::Func(f) => {
            assert_eq!(
                analyse_cmp_stmt(&mut table, &f.cmp_stmt),
                Err(SemanticError {
                    name: String::from("c"),
                    new_role: DeclRole::Var,
                    existing: DeclRole::Var,
                })
            );
        }
        _ => unreachable!(),
    }
    // the scopes of the two blocks are still open above the outer one
    assert!(table.cur_scope().lookup_decl::<VarDecl>("c").is_some());
    table.pop_scope();
    assert!(table.cur_scope().lookup_decl::<VarDecl>("b").is_some());
    table.pop_scope();
    assert!(table.cur_scope().lookup_decl::<VarDecl>("a").is_some());
    assert!(table.cur_scope().lookup_decl::<VarDecl>("b").is_none());
}
