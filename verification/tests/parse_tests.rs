use tncc::ast::{Ast, CmpStmt, DataType, Expr, ExtDecl, FuncDecl, GlobalVarDecl, ParamDecl, Stmt, VarDecl};
use tncc::common::{TokType, Token};
use tncc::parse::{magnitude_to_signed, parse, Expected, Parser, SyntaxError};
use tncc::scan::scan;

fn tree(src: &str) -> Ast {
    parse(scan(src).unwrap()).unwrap()
}

fn failure(src: &str) -> SyntaxError {
    parse(scan(src).unwrap()).unwrap_err()
}

fn func(return_type: DataType, name: &str, params: Vec<ParamDecl>, stmts: Vec<Stmt>) -> ExtDecl {
    ExtDecl::Func(FuncDecl {
        return_type,
        name: String::from(name),
        params,
        cmp_stmt: CmpStmt { stmts },
    })
}

fn param(name: &str) -> ParamDecl {
    ParamDecl { data_type: DataType::Int, name: String::from(name) }
}

#[test]
fn pass_program_return() {
    assert_eq!(
        tree("int main() { return 1; }"),
        Ast(vec![func(DataType::Int, "main", vec![], vec![Stmt::Return(Some(Expr::IntConst(1)))])])
    );
}

#[test]
fn pass_program_empty_body() {
    assert_eq!(tree("int main() { }"), Ast(vec![func(DataType::Int, "main", vec![], vec![])]));
}

#[test]
fn pass_program_void() {
    assert_eq!(
        tree("void test() { return 1; }"),
        Ast(vec![func(DataType::Void, "test", vec![], vec![Stmt::Return(Some(Expr::IntConst(1)))])])
    );
}

#[test]
fn pass_program_local_with_initializer() {
    assert_eq!(
        tree("int main() { int a = 100; return 1; }"),
        Ast(vec![func(
            DataType::Int,
            "main",
            vec![],
            vec![
                Stmt::VarDecl(VarDecl(DataType::Int, String::from("a"), Some(Expr::IntConst(100)))),
                Stmt::Return(Some(Expr::IntConst(1))),
            ]
        )])
    );
}

#[test]
fn pass_program_return_variable() {
    assert_eq!(
        tree("void test() { int a = 3; return a; }"),
        Ast(vec![func(
            DataType::Void,
            "test",
            vec![],
            vec![
                Stmt::VarDecl(VarDecl(DataType::Int, String::from("a"), Some(Expr::IntConst(3)))),
                Stmt::Return(Some(Expr::VarRef(String::from("a")))),
            ]
        )])
    );
}

#[test]
fn pass_program_parameters() {
    assert_eq!(
        tree("void foo(int x, int y) {}"),
        Ast(vec![func(DataType::Void, "foo", vec![param("x"), param("y")], vec![])])
    );
}

#[test]
fn pass_program_call_in_initializer() {
    assert_eq!(
        tree("void foo() { int a = undefined(x, 3); }"),
        Ast(vec![func(
            DataType::Void,
            "foo",
            vec![],
            vec![Stmt::VarDecl(VarDecl(
                DataType::Int,
                String::from("a"),
                Some(Expr::FunctionCall(
                    String::from("undefined"),
                    vec![Expr::VarRef(String::from("x")), Expr::IntConst(3)]
                ))
            ))]
        )])
    );
}

#[test]
fn pass_program_call_statement() {
    assert_eq!(
        tree("void foo() { undefined(3); }"),
        Ast(vec![func(
            DataType::Void,
            "foo",
            vec![],
            vec![Stmt::Expr(Expr::FunctionCall(String::from("undefined"), vec![Expr::IntConst(3)]))]
        )])
    );
}

#[test]
fn failed_program_identifier_first() {
    let e = failure("main");
    assert_eq!(
        e,
        SyntaxError {
            expected: Expected::Declaration,
            found: Some(Token { tok: TokType::ID(String::from("main")), loc: (1, 1) }),
        }
    );
    assert_eq!(e.message(), "unexpected identifier 'main' at 1:1");
}

#[test]
fn failed_program_missing_semicolon_at_end() {
    let e = failure("int main");
    assert_eq!(e, SyntaxError { expected: Expected::Token(TokType::Semicolon), found: None });
    assert_eq!(e.message(), "expected ; but EOF");
}

#[test]
fn failed_program_brace_after_declarator() {
    let e = failure("int test {");
    assert_eq!(
        e,
        SyntaxError {
            expected: Expected::Token(TokType::Semicolon),
            found: Some(Token { tok: TokType::BracketOpen, loc: (1, 10) }),
        }
    );
    assert!(e.message().starts_with("expected ; but {"));
}

#[test]
fn failed_program_open_block() {
    let e = failure("int test() {");
    assert_eq!(e, SyntaxError { expected: Expected::Statement, found: None });
    assert_eq!(e.message(), "unexpected EOF");
}

#[test]
fn failed_program_missing_semicolon_in_return() {
    let e = failure("int main() { return 1 }");
    assert_eq!(
        e,
        SyntaxError {
            expected: Expected::Token(TokType::Semicolon),
            found: Some(Token { tok: TokType::BracketClose, loc: (1, 23) }),
        }
    );
    assert_eq!(e.message(), "expected ; but } at 1:23");
}

#[test]
fn parse_global_with_reference() {
    assert_eq!(
        tree("int g = 101; void foo() { int a = g;}"),
        Ast(vec![
            ExtDecl::Global(GlobalVarDecl(DataType::Int, String::from("g"), Some(Expr::IntConst(101)))),
            func(
                DataType::Void,
                "foo",
                vec![],
                vec![Stmt::VarDecl(VarDecl(
                    DataType::Int,
                    String::from("a"),
                    Some(Expr::VarRef(String::from("g")))
                ))]
            ),
        ])
    );
}

#[test]
fn parse_global_shadowed_in_nested_blocks() {
    assert_eq!(
        tree("int g = 101; void foo() { int g = 2; { int g = 3; }}"),
        Ast(vec![
            ExtDecl::Global(GlobalVarDecl(DataType::Int, String::from("g"), Some(Expr::IntConst(101)))),
            func(
                DataType::Void,
                "foo",
                vec![],
                vec![
                    Stmt::VarDecl(VarDecl(DataType::Int, String::from("g"), Some(Expr::IntConst(2)))),
                    Stmt::Compound(CmpStmt {
                        stmts: vec![Stmt::VarDecl(VarDecl(
                            DataType::Int,
                            String::from("g"),
                            Some(Expr::IntConst(3))
                        ))]
                    }),
                ]
            ),
        ])
    );
}

#[test]
fn global_without_initializer() {
    assert_eq!(
        tree("int g;"),
        Ast(vec![ExtDecl::Global(GlobalVarDecl(DataType::Int, String::from("g"), None))])
    );
}

#[test]
fn empty_input_is_an_empty_program() {
    assert_eq!(parse(Vec::new()).unwrap(), Ast(vec![]));
}

#[test]
fn return_without_value_and_nested_calls() {
    assert_eq!(
        tree("void f() { return; g(h(), 1); }"),
        Ast(vec![func(
            DataType::Void,
            "f",
            vec![],
            vec![
                Stmt::Return(None),
                Stmt::Expr(Expr::FunctionCall(
                    String::from("g"),
                    vec![Expr::FunctionCall(String::from("h"), vec![]), Expr::IntConst(1)]
                )),
            ]
        )])
    );
}

#[test]
fn assignment_statement_is_not_in_the_grammar() {
    let e = failure("int main() { int a; a = 1; }");
    assert_eq!(
        e,
        SyntaxError {
            expected: Expected::Token(TokType::Semicolon),
            found: Some(Token { tok: TokType::Assign, loc: (1, 23) }),
        }
    );
    assert_eq!(e.message(), "expected ; but = at 1:23");
}

#[test]
fn error_expected_expression() {
    let e = failure("int a = ;");
    assert_eq!(
        e,
        SyntaxError {
            expected: Expected::Expression,
            found: Some(Token { tok: TokType::Semicolon, loc: (1, 9) }),
        }
    );
    assert_eq!(e.message(), "expected expression but ; at 1:9");
    assert_eq!(failure("int a =").message(), "expected expression but EOF");
}

#[test]
fn error_expected_identifier() {
    let e = failure("int 5");
    assert_eq!(
        e,
        SyntaxError {
            expected: Expected::Identifier,
            found: Some(Token { tok: TokType::NumInt(5), loc: (1, 5) }),
        }
    );
    assert_eq!(e.message(), "expected ID but NumInt(5) at 1:5");
}

#[test]
fn error_expected_data_type() {
    let e = failure("int f(int a, b) {}");
    assert_eq!(
        e,
        SyntaxError {
            expected: Expected::DataType,
            found: Some(Token { tok: TokType::ID(String::from("b")), loc: (1, 14) }),
        }
    );
    assert_eq!(e.message(), "expected data type but identifier 'b' at 1:14");
}

#[test]
fn error_unexpected_token_in_block() {
    let e = failure("int f() { ) }");
    assert_eq!(
        e,
        SyntaxError {
            expected: Expected::Statement,
            found: Some(Token { tok: TokType::ParentClose, loc: (1, 11) }),
        }
    );
    assert_eq!(e.message(), "unexpected ) at 1:11");
}

#[test]
fn error_expected_closing_parenthesis() {
    let e = failure("int f() { g(1 2); }");
    assert_eq!(
        e,
        SyntaxError {
            expected: Expected::Token(TokType::ParentClose),
            found: Some(Token { tok: TokType::NumInt(2), loc: (1, 15) }),
        }
    );
}

#[test]
fn real_literal_is_no_expression() {
    let e = failure("int a = 1.5;");
    assert_eq!(
        e,
        SyntaxError {
            expected: Expected::Expression,
            found: Some(Token { tok: TokType::NumReal(1, 5, 1), loc: (1, 9) }),
        }
    );
}

#[test]
fn int_constant_is_cast_to_signed() {
    assert_eq!(magnitude_to_signed(0), 0);
    assert_eq!(magnitude_to_signed(9223372036854775807), i64::MAX);
    assert_eq!(magnitude_to_signed(9223372036854775808), i64::MIN);
    assert_eq!(magnitude_to_signed(u64::MAX), -1);
    assert_eq!(
        tree("int a = 18446744073709551615;"),
        Ast(vec![ExtDecl::Global(GlobalVarDecl(
            DataType::Int,
            String::from("a"),
            Some(Expr::IntConst(-1))
        ))])
    );
}

#[test]
fn parser_object_parses_from_the_start() {
    let mut p = Parser::new(scan("int a; int b;").unwrap());
    let ast = p.parse().unwrap();
    assert_eq!(ast.0.len(), 2);
    // the parser stands behind the last token: nothing is left to parse
    assert_eq!(p.parse().unwrap(), Ast(vec![]));
}

#[test]
fn parse_is_repeatable() {
    let src = "int foo(int x, int y) {} int main() { return foo(3,4);}";
    assert_eq!(parse(scan(src).unwrap()), parse(scan(src).unwrap()));
    let bad = "int main() { return 1 }";
    assert_eq!(parse(scan(bad).unwrap()), parse(scan(bad).unwrap()));
}
