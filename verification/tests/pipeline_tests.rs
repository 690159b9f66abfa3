use tncc::codegen::gen_util::UnsupportedConstructError;
use tncc::common::{TokType, Token};
use tncc::driver::{check_target, output_conflict, output_place, LogLevel, OutputPlace};
use tncc::parse::{Expected, SyntaxError};
use tncc::pipeline::{compile, CompileError};
use tncc::scan::LexicalError;
use tncc::symtable::{DeclRole, SemanticError};
use tncc::text::{digit_to_char, push_decimal, push_line, push_signed_decimal};
use tncc::util::TargetOs;

#[test]
fn scenario_main_on_linux() {
    let text = compile("int main(){return 1;}", &TargetOs::Linux).unwrap();
    for line in vec![".text", ".global main", "main:", ".p2align 2", "mov x0, #1", "ret"] {
        assert!(text.contains(line), "'{}' is not generated", line);
    }
}

#[test]
fn scenario_parameters() {
    for target in vec![TargetOs::Linux, TargetOs::MacOs] {
        let text = compile("int foo(int x, int y) {}", &target).unwrap();
        for line in vec![
            "sub sp, sp, #16",
            "str x0, [sp, #12]",
            "str x1, [sp, #8]",
            "add sp, sp, #16",
            "ret",
        ] {
            assert!(text.contains(line), "'{}' is not generated", line);
        }
    }
}

#[test]
fn scenario_call_on_macos() {
    let text = compile(
        "int foo(int x, int y) {} int main() { return foo(3,4);}",
        &TargetOs::MacOs,
    )
    .unwrap();
    for line in vec![
        "stp x29, x30, [sp, #-16]!",
        "mov x29, sp",
        "mov x0, #3",
        "mov x1, #4",
        "bl _foo",
        "ldp x29, x30, [sp], #16",
    ] {
        assert!(text.contains(line), "'{}' is not generated", line);
    }
}

#[test]
fn scenario_missing_semicolon() {
    let r = compile("int main() { return 1 }", &TargetOs::Linux);
    assert_eq!(
        r,
        Err(CompileError::Syntax(SyntaxError {
            expected: Expected::Token(TokType::Semicolon),
            found: Some(Token { tok: TokType::BracketClose, loc: (1, 23) }),
        }))
    );
    assert_eq!(r.unwrap_err().message(), "syntax error: expected ; but } at 1:23");
}

#[test]
fn each_stage_reports_its_error() {
    assert_eq!(
        compile("int main() { return 1; } $", &TargetOs::Linux),
        Err(CompileError::Lexical(LexicalError { ch: '$', loc: (1, 26) }))
    );
    assert_eq!(
        compile("int main() { int a; int a; }", &TargetOs::Linux),
        Err(CompileError::Semantic(SemanticError {
            name: String::from("a"),
            new_role: DeclRole::Var,
            existing: DeclRole::Var,
        }))
    );
    assert_eq!(
        compile("int main() { int a; }", &TargetOs::Linux),
        Err(CompileError::Unsupported(UnsupportedConstructError::VarDeclStmt))
    );
}

#[test]
fn stage_error_messages() {
    assert_eq!(
        compile("?", &TargetOs::Linux).unwrap_err().message(),
        "lexical error: unexpected char: ? at 1:1"
    );
    assert_eq!(
        compile("int f() {} int f() {}", &TargetOs::Linux).unwrap_err().message(),
        "semantic error: function 'f' is already defined as function"
    );
    assert_eq!(
        compile("void f(void x) {}", &TargetOs::Linux).unwrap_err().message(),
        "unsupported construct: not supported: parameter of type Void"
    );
}

#[test]
fn compile_is_repeatable() {
    let src = "int foo(int x, int y) {} int main() { return foo(3,4);}";
    assert_eq!(compile(src, &TargetOs::MacOs), compile(src, &TargetOs::MacOs));
}

#[test]
fn decimal_text() {
    let mut s = String::new();
    push_decimal(&mut s, 0);
    s.push(' ');
    push_decimal(&mut s, 7);
    s.push(' ');
    push_decimal(&mut s, 1024);
    s.push(' ');
    push_decimal(&mut s, u64::MAX);
    s.push(' ');
    push_signed_decimal(&mut s, -1);
    s.push(' ');
    push_signed_decimal(&mut s, 90);
    s.push(' ');
    push_signed_decimal(&mut s, i64::MIN);
    assert_eq!(s, "0 7 1024 18446744073709551615 -1 90 -9223372036854775808");
    assert_eq!(digit_to_char(0), '0');
    assert_eq!(digit_to_char(9), '9');
}

#[test]
fn lines_of_text() {
    let mut s = String::from("a");
    push_line(&mut s, "b:");
    push_line(&mut s, "");
    assert_eq!(s, "ab:\n\n");
}

#[test]
fn supported_targets() {
    assert!(check_target(&TargetOs::MacOs, true));
    assert!(check_target(&TargetOs::Linux, true));
    assert!(!check_target(&TargetOs::Other, true));
    assert!(!check_target(&TargetOs::MacOs, false));
    assert!(!check_target(&TargetOs::Linux, false));
    assert!(!check_target(&TargetOs::Other, false));
}

#[test]
fn target_from_os_name() {
    assert_eq!(TargetOs::from_os_name("macos"), TargetOs::MacOs);
    assert_eq!(TargetOs::from_os_name("linux"), TargetOs::Linux);
    assert_eq!(TargetOs::from_os_name("windows"), TargetOs::Other);
    assert_eq!(TargetOs::from_os_name(""), TargetOs::Other);
}

#[test]
fn output_option_conflicts() {
    assert!(output_conflict(true, 2, true, false));
    assert!(output_conflict(true, 3, false, true));
    assert!(!output_conflict(true, 1, true, true));
    assert!(!output_conflict(false, 2, true, true));
    assert!(!output_conflict(true, 2, false, false));
}

#[test]
fn log_levels() {
    assert_eq!(LogLevel::from_flags(true, true), LogLevel::Debug);
    assert_eq!(LogLevel::from_flags(true, false), LogLevel::Debug);
    assert_eq!(LogLevel::from_flags(false, true), LogLevel::Info);
    assert_eq!(LogLevel::from_flags(false, false), LogLevel::Warn);
    assert_eq!(LogLevel::Debug.name(), "debug");
    assert_eq!(LogLevel::Info.name(), "info");
    assert_eq!(LogLevel::Warn.name(), "warn");
}

#[test]
fn output_places() {
    assert_eq!(output_place(false, true), OutputPlace::Temporary);
    assert_eq!(output_place(false, false), OutputPlace::Temporary);
    assert_eq!(output_place(true, true), OutputPlace::Given);
    assert_eq!(output_place(true, false), OutputPlace::BesideInput);
}
