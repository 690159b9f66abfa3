use tncc::ast::{Ast, CmpStmt, DataType, Expr, ExtDecl, FuncDecl, GlobalVarDecl, ParamDecl, Stmt, VarDecl, ArithOp};
use tncc::codegen::{gen_asm, ArmGen};
use tncc::codegen::gen_util::{get_sp_offset, size_args_local, UnsupportedConstructError};
use tncc::codegen::listing::Reg;
use tncc::codegen::arg_reg_at;
use tncc::parse::parse;
use tncc::scan::scan;
use tncc::util::TargetOs;

fn listing(src: &str, target: TargetOs) -> String {
    gen_asm(&parse(scan(src).unwrap()).unwrap(), &target).unwrap()
}

fn expect_lines(text: &str, lines: Vec<&str>) {
    for i in lines.iter() {
        if !text.contains(i) {
            panic!("'{}' is not generated", i)
        }
    }
}

fn func_of(params: Vec<ParamDecl>, stmts: Vec<Stmt>) -> FuncDecl {
    FuncDecl {
        return_type: DataType::Int,
        name: String::from("f"),
        params,
        cmp_stmt: CmpStmt { stmts },
    }
}

fn int_params(n: usize) -> Vec<ParamDecl> {
    (0..n).map(|i| ParamDecl { data_type: DataType::Int, name: format!("p{}", i) }).collect()
}

#[test]
fn expect_header_linux() {
    let v = gen_asm(&parse(scan("int main(){return 1;}").unwrap()).unwrap(), &TargetOs::Linux)
        .unwrap();
    vec![".text", ".global main", "main:", ".p2align 2", "mov x0, #1", "ret"].iter().for_each(|i| {
        if !v.contains(i) {
            panic!("'{}' is not generated", i)
        }
    });
}

#[test]
fn whole_text_of_main_on_linux() {
    assert_eq!(
        listing("int main(){return 1;}", TargetOs::Linux),
        "\t.text\n\t.global main\n\t.p2align 2\nmain:\n\tmov x0, #1\n\tret\n\n"
    );
}

#[test]
fn test_function_with_args_single_function() {
    let v = listing("int main(){return 1;}", TargetOs::MacOs);
    expect_lines(&v, vec![".text", ".global _main", ".p2align 2", "_main:", "mov x0, #1", "ret"]);
}

#[test]
fn test_function_with_args_parameters() {
    let v = listing("int foo(int x, int y) {}", TargetOs::MacOs);
    expect_lines(
        &v,
        vec!["sub sp, sp, #16", "str x0, [sp, #12]", "str x1, [sp, #8]", "add sp, sp, #16", "ret"],
    );
    assert_eq!(
        v,
        "\t.text\n\t.global _foo\n\t.p2align 2\n_foo:\n\tsub sp, sp, #16\n\tstr x0, [sp, #12]\n\tstr x1, [sp, #8]\n\tadd sp, sp, #16\n\tret\n\n"
    );
}

#[test]
fn test_function_with_args_call() {
    let v = listing("int foo(int x, int y) {} int main() { return foo(3,4);}", TargetOs::MacOs);
    expect_lines(
        &v,
        vec![
            "stp x29, x30, [sp, #-16]!",
            "mov x29, sp",
            "mov x0, #3",
            "mov x1, #4",
            "bl _foo",
            "ldp x29, x30, [sp], #16",
        ],
    );
    assert_eq!(
        v,
        "\t.text\n\t.global _foo\n\t.p2align 2\n_foo:\n\tsub sp, sp, #16\n\tstr x0, [sp, #12]\n\tstr x1, [sp, #8]\n\tadd sp, sp, #16\n\tret\n\n\t.global _main\n\t.p2align 2\n_main:\n\tstp x29, x30, [sp, #-16]!\n\tmov x29, sp\n\tmov x0, #3\n\tmov x1, #4\n\tbl _foo\n\tldp x29, x30, [sp], #16\n\tret\n\n"
    );
}

#[test]
fn test_get_sp_offset_cases() {
    assert_eq!(get_sp_offset(0), 0);
    assert_eq!(get_sp_offset(10), 16);
    assert_eq!(get_sp_offset(16), 16);
    assert_eq!(get_sp_offset(20), 32);
    assert_eq!(get_sp_offset(32), 32);
    assert_eq!(get_sp_offset(33), 48);
    assert_eq!(get_sp_offset(1), 16);
    assert_eq!(get_sp_offset(0xffff_fff0), 0xffff_fff0);
    assert_eq!(get_sp_offset(0xffff_ffe1), 0xffff_fff0);
}

#[test]
fn symbol_naming_per_target() {
    let src = "int foo() {} int main() { foo(); }";
    let mac = listing(src, TargetOs::MacOs);
    assert!(mac.contains("\tbl _foo\n"));
    assert!(mac.contains("\n_foo:\n"));
    assert!(mac.contains("\t.global _foo\n"));
    let linux = listing(src, TargetOs::Linux);
    assert!(linux.contains("\tbl foo\n"));
    assert!(linux.contains("\nfoo:\n"));
    assert!(!linux.contains("_foo"));
    let other = listing(src, TargetOs::Other);
    assert_eq!(other, linux);
}

#[test]
fn call_statement_discards_the_result() {
    assert_eq!(
        listing("int main() { foo(); 5; }", TargetOs::Linux),
        "\t.text\n\t.global main\n\t.p2align 2\nmain:\n\tstp x29, x30, [sp, #-16]!\n\tmov x29, sp\n\tbl foo\n\tldp x29, x30, [sp], #16\n\tret\n\n"
    );
}

#[test]
fn nested_call_moves_result_into_argument_register() {
    assert_eq!(
        listing("int main() { return f(1, g(2)); }", TargetOs::Linux),
        "\t.text\n\t.global main\n\t.p2align 2\nmain:\n\tstp x29, x30, [sp, #-16]!\n\tmov x29, sp\n\tmov x0, #1\n\tstp x29, x30, [sp, #-16]!\n\tmov x29, sp\n\tmov x0, #2\n\tbl g\n\tldp x29, x30, [sp], #16\n\tmov x1, x0\n\tbl f\n\tldp x29, x30, [sp], #16\n\tret\n\n"
    );
}

#[test]
fn only_eight_arguments_travel_in_registers() {
    let v = listing("int main() { f(1,2,3,4,5,6,7,8,9,10); }", TargetOs::Linux);
    assert!(v.contains("\tmov x7, #8\n\tbl f\n"));
    assert!(!v.contains("#9"));
}

#[test]
fn nine_parameters_store_eight() {
    let ast = Ast(vec![ExtDecl::Func(func_of(int_params(9), vec![]))]);
    assert_eq!(
        gen_asm(&ast, &TargetOs::Linux).unwrap(),
        "\t.text\n\t.global f\n\t.p2align 2\nf:\n\tsub sp, sp, #48\n\tstr x0, [sp, #44]\n\tstr x1, [sp, #40]\n\tstr x2, [sp, #36]\n\tstr x3, [sp, #32]\n\tstr x4, [sp, #28]\n\tstr x5, [sp, #24]\n\tstr x6, [sp, #20]\n\tstr x7, [sp, #16]\n\tadd sp, sp, #48\n\tret\n\n"
    );
}

#[test]
fn negative_constant_and_return_without_value() {
    let ast = Ast(vec![ExtDecl::Func(func_of(
        vec![],
        vec![
            Stmt::Return(Some(Expr::IntConst(-42))),
            Stmt::Return(Some(Expr::IntConst(i64::MIN))),
            Stmt::Return(None),
        ],
    ))]);
    assert_eq!(
        gen_asm(&ast, &TargetOs::Linux).unwrap(),
        "\t.text\n\t.global f\n\t.p2align 2\nf:\n\tmov x0, #-42\n\tmov x0, #-9223372036854775808\n\tret\n\n"
    );
}

#[test]
fn global_variable_emits_nothing() {
    assert_eq!(listing("int g = 1;", TargetOs::Linux), "\t.text\n");
    assert_eq!(gen_asm(&Ast(vec![]), &TargetOs::MacOs).unwrap(), "\t.text\n");
}

#[test]
fn size_of_parameters() {
    assert_eq!(size_args_local(&func_of(vec![], vec![])), Ok(0));
    assert_eq!(size_args_local(&func_of(int_params(2), vec![])), Ok(8));
    assert_eq!(size_args_local(&func_of(int_params(5), vec![])), Ok(20));
    assert_eq!(DataType::Int.get_size(), Ok(4));
    assert_eq!(DataType::Char.get_size(), Err(UnsupportedConstructError::ParamType(DataType::Char)));
}

#[test]
fn unsupported_parameter_type() {
    let mut params = int_params(2);
    params.push(ParamDecl { data_type: DataType::Void, name: String::from("v") });
    params.push(ParamDecl { data_type: DataType::Double, name: String::from("d") });
    let f = func_of(params, vec![]);
    assert_eq!(size_args_local(&f), Err(UnsupportedConstructError::ParamType(DataType::Void)));
    assert_eq!(
        gen_asm(&Ast(vec![ExtDecl::Func(f)]), &TargetOs::Linux),
        Err(UnsupportedConstructError::ParamType(DataType::Void))
    );
}

#[test]
fn unsupported_statements() {
    let decl = Stmt::VarDecl(VarDecl(DataType::Int, String::from("a"), None));
    let ast = Ast(vec![ExtDecl::Func(func_of(vec![], vec![decl]))]);
    assert_eq!(gen_asm(&ast, &TargetOs::Linux), Err(UnsupportedConstructError::VarDeclStmt));
    let block = Stmt::Compound(CmpStmt { stmts: vec![] });
    let ast = Ast(vec![ExtDecl::Func(func_of(vec![], vec![block]))]);
    assert_eq!(gen_asm(&ast, &TargetOs::Linux), Err(UnsupportedConstructError::CompoundStmt));
    let assign = Stmt::Assignment(String::from("a"), Expr::IntConst(1));
    let ast = Ast(vec![ExtDecl::Func(func_of(vec![], vec![assign]))]);
    assert_eq!(gen_asm(&ast, &TargetOs::Linux), Err(UnsupportedConstructError::AssignmentStmt));
}

#[test]
fn unsupported_expressions() {
    let var = Stmt::Return(Some(Expr::VarRef(String::from("a"))));
    let ast = Ast(vec![ExtDecl::Func(func_of(vec![], vec![var]))]);
    assert_eq!(gen_asm(&ast, &TargetOs::Linux), Err(UnsupportedConstructError::VarRefExpr));
    let sum = Expr::Arith(Box::new(Expr::IntConst(1)), ArithOp::Add, Box::new(Expr::IntConst(2)));
    let call = Stmt::Expr(Expr::FunctionCall(String::from("g"), vec![Expr::IntConst(0), sum]));
    let ast = Ast(vec![ExtDecl::Func(func_of(vec![], vec![call]))]);
    assert_eq!(gen_asm(&ast, &TargetOs::Linux), Err(UnsupportedConstructError::ArithExpr));
}

#[test]
fn first_unsupported_construct_wins() {
    let ast = Ast(vec![
        ExtDecl::Global(GlobalVarDecl(DataType::Int, String::from("g"), None)),
        ExtDecl::Func(func_of(
            vec![],
            vec![
                Stmt::Return(Some(Expr::IntConst(1))),
                Stmt::Expr(Expr::VarRef(String::from("a"))),
                Stmt::Compound(CmpStmt { stmts: vec![] }),
            ],
        )),
    ]);
    assert_eq!(gen_asm(&ast, &TargetOs::Linux), Err(UnsupportedConstructError::VarRefExpr));
}

#[test]
fn unsupported_messages() {
    assert_eq!(
        UnsupportedConstructError::ParamType(DataType::Float).message(),
        "not supported: parameter of type Float"
    );
    assert_eq!(UnsupportedConstructError::FrameTooLarge.message(), "not supported: frame beyond 32 bits");
    assert_eq!(UnsupportedConstructError::CompoundStmt.message(), "not supported: compound statement");
    assert_eq!(UnsupportedConstructError::VarDeclStmt.message(), "not supported: variable declaration");
    assert_eq!(UnsupportedConstructError::AssignmentStmt.message(), "not supported: assignment");
    assert_eq!(UnsupportedConstructError::VarRefExpr.message(), "not supported: variable reference");
    assert_eq!(UnsupportedConstructError::ArithExpr.message(), "not supported: arithmetic expression");
}

#[test]
fn registers_have_numbers_and_names() {
    assert_eq!(Reg::X0.index(), 0);
    assert_eq!(Reg::X15.index(), 15);
    assert_eq!(Reg::X29.index(), 29);
    let mut s = String::new();
    Reg::X30.push_name(&mut s);
    assert_eq!(s, "x30");
    assert_eq!(arg_reg_at(0), Reg::X0);
    assert_eq!(arg_reg_at(7), Reg::X7);
}

fn label_lines(text: &str) -> Vec<&str> {
    text.lines().filter(|l| l.ends_with(':')).collect()
}

#[test]
fn function_on_macos_has_one_label_with_underscore() {
    let ast = Ast(vec![]);
    let mut g = ArmGen::new(&ast, &TargetOs::MacOs);
    let mut f = func_of(int_params(3), vec![Stmt::Return(Some(Expr::IntConst(7)))]);
    f.name = String::from("foo");
    assert_eq!(g.gen_func(&f), Ok(()));
    assert_eq!(label_lines(&g.str), vec!["_foo:"]);
    assert!(g.str.lines().any(|l| l == "\t.global _foo"));
    assert!(!g.str.lines().any(|l| l == "foo:"));
    assert_eq!(
        g.str,
        "\t.global _foo\n\t.p2align 2\n_foo:\n\tsub sp, sp, #16\n\tstr x0, [sp, #12]\n\tstr x1, [sp, #8]\n\tstr x2, [sp, #4]\n\tmov x0, #7\n\tadd sp, sp, #16\n\tret\n\n"
    );
}

#[test]
fn function_on_linux_has_one_label_without_underscore() {
    let ast = Ast(vec![]);
    let mut g = ArmGen::new(&ast, &TargetOs::Linux);
    let mut f = func_of(int_params(8), vec![]);
    f.name = String::from("foo");
    assert_eq!(g.gen_func(&f), Ok(()));
    assert_eq!(label_lines(&g.str), vec!["foo:"]);
    assert!(g.str.lines().any(|l| l == "\t.global foo"));
    assert!(!g.str.contains('_'));
}

#[test]
fn call_branches_to_the_symbol_of_the_target() {
    let ast = Ast(vec![]);
    let call = Expr::FunctionCall(
        String::from("foo"),
        vec![Expr::IntConst(3), Expr::FunctionCall(String::from("bar"), vec![])],
    );
    let mut mac = ArmGen::new(&ast, &TargetOs::MacOs);
    assert_eq!(mac.emit_expr(&call, Some(Reg::X0)), Ok(()));
    assert!(mac.str.lines().any(|l| l == "\tbl _foo"));
    assert!(mac.str.lines().any(|l| l == "\tbl _bar"));
    assert!(!mac.str.lines().any(|l| l == "\tbl foo"));
    let mut linux = ArmGen::new(&ast, &TargetOs::Linux);
    assert_eq!(linux.emit_expr(&call, Some(Reg::X0)), Ok(()));
    assert!(linux.str.lines().any(|l| l == "\tbl foo"));
    assert!(linux.str.lines().any(|l| l == "\tbl bar"));
    assert!(!linux.str.contains('_'));
}

#[test]
fn refused_construct_keeps_the_text_emitted_before() {
    let ast = Ast(vec![]);
    let mut g = ArmGen::new(&ast, &TargetOs::Linux);
    g.ptab(".text");
    let call = Expr::FunctionCall(
        String::from("f"),
        vec![Expr::IntConst(1), Expr::VarRef(String::from("a"))],
    );
    assert_eq!(g.emit_expr(&call, None), Err(UnsupportedConstructError::VarRefExpr));
    assert!(g.str.starts_with("\t.text\n"));
    let mut h = ArmGen::new(&ast, &TargetOs::Linux);
    h.pln("x:");
    assert_eq!(
        h.emit_stmt(&Stmt::Compound(CmpStmt { stmts: vec![] })),
        Err(UnsupportedConstructError::CompoundStmt)
    );
    assert_eq!(h.str, "x:\n");
}

#[test]
fn size_is_four_bytes_for_each_int_parameter() {
    for n in vec![0usize, 1, 3, 4, 8, 9, 1000] {
        assert_eq!(size_args_local(&func_of(int_params(n), vec![])), Ok(4 * n as u32));
    }
}
