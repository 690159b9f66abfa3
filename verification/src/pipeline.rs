//! The whole compiler: from source text to assembly text.
//!
//! The four stages run in order, each on the result of the one before:
//! scanning, parsing, semantic analysis and code generation. The first
//! stage that fails ends the run, and no assembly text is produced.

use crate::ast::Ast;
use crate::codegen::gen_asm;
use crate::codegen::gen_util::{unsupported_text, UnsupportedConstructError};
use crate::codegen::listing::program_asm;
use crate::common::{tokens_view, Token};
use crate::parse::grammar::{parse_spec, SyntaxErrorView};
use crate::parse::{parse, parse_result_view, syntax_error_text, SyntaxError};
use crate::scan::rules::{scan_spec, LexicalErrorView};
use crate::scan::{lexical_error_text, scan, scan_result_view, LexicalError, MAX_SOURCE_LEN};
use crate::semantics::analyse;
use crate::semantics::scoping::analyse_spec;
use crate::symtable::{semantic_error_text, SemanticError, SemanticErrorView};
use crate::util::TargetOs;
use vstd::prelude::*;

verus! {

/// Why a source text was not compiled.
#[derive(Debug, PartialEq)]
pub enum CompileError {
    /// A character that starts no token.
    Lexical(LexicalError),
    /// A token that does not fit the grammar.
    Syntax(SyntaxError),
    /// A name declared twice in one scope.
    Semantic(SemanticError),
    /// A construct that the generator does not lower.
    Unsupported(UnsupportedConstructError),
}

/// Model of a compile error.
pub enum CompileErrorView {
    Lexical(LexicalErrorView),
    Syntax(SyntaxErrorView),
    Semantic(SemanticErrorView),
    Unsupported(UnsupportedConstructError),
}

impl View for CompileError {
    type V = CompileErrorView;

    open spec fn view(&self) -> CompileErrorView {
        match self {
            CompileError::Lexical(e) => CompileErrorView::Lexical(e@),
            CompileError::Syntax(e) => CompileErrorView::Syntax(e@),
            CompileError::Semantic(e) => CompileErrorView::Semantic(e@),
            CompileError::Unsupported(e) => CompileErrorView::Unsupported(*e),
        }
    }
}

/// How a compile error reads: the kind of error and its text.
pub open spec fn compile_error_text(e: CompileErrorView) -> Seq<char> {
    match e {
        CompileErrorView::Lexical(e) => "lexical error: "@ + lexical_error_text(e),
        CompileErrorView::Syntax(e) => "syntax error: "@ + syntax_error_text(e),
        CompileErrorView::Semantic(e) => "semantic error: "@ + semantic_error_text(e),
        CompileErrorView::Unsupported(e) => "unsupported construct: "@ + unsupported_text(e),
    }
}

impl CompileError {
    /// The text of the error: its kind, and what the stage reports.
    pub fn message(&self) -> (s: String)
        ensures
            s@ == compile_error_text(self@),
    {
        match self {
            CompileError::Lexical(e) => {
                let mut s = String::from_str("lexical error: ");
                s.append(e.message().as_str());
                s
            },
            CompileError::Syntax(e) => {
                let mut s = String::from_str("syntax error: ");
                s.append(e.message().as_str());
                s
            },
            CompileError::Semantic(e) => {
                let mut s = String::from_str("semantic error: ");
                s.append(e.message().as_str());
                s
            },
            CompileError::Unsupported(e) => {
                let mut s = String::from_str("unsupported construct: ");
                s.append(e.message().as_str());
                s
            },
        }
    }
}

/// The assembly text of the source text `src` for `target`, or the error
/// of the first stage that fails.
pub open spec fn compile_spec(src: Seq<char>, target: TargetOs) -> Result<
    Seq<char>,
    CompileErrorView,
> {
    match scan_spec(src) {
        Err(e) => Err(CompileErrorView::Lexical(e)),
        Ok(tokens) => match parse_spec(tokens) {
            Err(e) => Err(CompileErrorView::Syntax(e)),
            Ok(ast) => match analyse_spec(ast) {
                Err(e) => Err(CompileErrorView::Semantic(e)),
                Ok(_) => match program_asm(ast, target) {
                    Err(e) => Err(CompileErrorView::Unsupported(e)),
                    Ok(text) => Ok(text),
                },
            },
        },
    }
}

/// Compiles the source text `src` to assembly text for `target`.
pub fn compile(src: &str, target: &TargetOs) -> (r: Result<String, CompileError>)
    requires
        src@.len() <= MAX_SOURCE_LEN,
    ensures
        match compile_spec(src@, *target) {
            Ok(text) => r matches Ok(s) && s@ == text,
            Err(e) => r matches Err(x) && x@ == e,
        },
{
    let tokens = match scan(src) {
        Ok(tokens) => tokens,
        Err(e) => {
            return Err(CompileError::Lexical(e));
        },
    };
    let mut ast = match parse(tokens) {
        Ok(ast) => ast,
        Err(e) => {
            return Err(CompileError::Syntax(e));
        },
    };
    match analyse(&mut ast) {
        Ok(_) => {},
        Err(e) => {
            return Err(CompileError::Semantic(e));
        },
    }
    match gen_asm(&ast, target) {
        Ok(text) => Ok(text),
        Err(e) => Err(CompileError::Unsupported(e)),
    }
}

/// Scanning and parsing are functions of the source text: two runs on the
/// same text give the same tokens and, from them, the same syntax tree,
/// or the same error.
pub proof fn lemma_scan_parse_deterministic(
    src: Seq<char>,
    tokens1: Result<Vec<Token>, LexicalError>,
    tokens2: Result<Vec<Token>, LexicalError>,
    tree1: Result<Ast, SyntaxError>,
    tree2: Result<Ast, SyntaxError>,
)
    requires
        scan_result_view(tokens1) == scan_spec(src),
        scan_result_view(tokens2) == scan_spec(src),
        tokens1 matches Ok(t) ==> parse_result_view(tree1) == parse_spec(tokens_view(t@)),
        tokens2 matches Ok(t) ==> parse_result_view(tree2) == parse_spec(tokens_view(t@)),
    ensures
        scan_result_view(tokens1) == scan_result_view(tokens2),
        tokens1 is Ok ==> tokens2 is Ok && parse_result_view(tree1) == parse_result_view(tree2),
{
}

} // verus!
