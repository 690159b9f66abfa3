use tncc::common::{TokType, Token};
use tncc::scan::{scan, source_fits, LexicalError};

fn kinds(src: &str) -> Vec<TokType> {
    scan(src).unwrap().into_iter().map(|t| t.tok).collect()
}

#[test]
fn valid_tokens_keywords() {
    assert_eq!(
        kinds("int return void main"),
        vec![
            TokType::KeywordInt,
            TokType::KeywordReturn,
            TokType::KeywordVoid,
            TokType::ID(String::from("main")),
        ]
    );
}

#[test]
fn valid_tokens_numbers() {
    assert_eq!(
        kinds("1 1.1 0 0.2"),
        vec![
            TokType::NumInt(1),
            TokType::NumReal(1, 1, 1),
            TokType::NumInt(0),
            TokType::NumReal(0, 2, 1),
        ]
    );
}

#[test]
fn valid_tokens_identifiers() {
    assert_eq!(
        kinds("a var1"),
        vec![TokType::ID(String::from("a")), TokType::ID(String::from("var1"))]
    );
}

#[test]
fn valid_tokens_punctuation() {
    assert_eq!(
        kinds("int () ( ) {} { } ; ="),
        vec![
            TokType::KeywordInt,
            TokType::ParentOpen,
            TokType::ParentClose,
            TokType::ParentOpen,
            TokType::ParentClose,
            TokType::BracketOpen,
            TokType::BracketClose,
            TokType::BracketOpen,
            TokType::BracketClose,
            TokType::Semicolon,
            TokType::Assign,
        ]
    );
}

#[test]
fn valid_program_return() {
    assert_eq!(
        kinds("int main() { return 1; }"),
        vec![
            TokType::KeywordInt,
            TokType::ID(String::from("main")),
            TokType::ParentOpen,
            TokType::ParentClose,
            TokType::BracketOpen,
            TokType::KeywordReturn,
            TokType::NumInt(1),
            TokType::Semicolon,
            TokType::BracketClose,
        ]
    );
}

#[test]
fn valid_program_local() {
    let toks = scan("int main() { int a = 100; return 1; }").unwrap();
    assert_eq!(toks.len(), 14);
    assert_eq!(toks[8].tok, TokType::NumInt(100));
}

#[test]
fn single_token_void() {
    let toks = scan("void").unwrap();
    assert_eq!(toks.first().unwrap().tok, TokType::KeywordVoid);
}

#[test]
fn single_token_voida() {
    let toks = scan("voida").unwrap();
    assert_eq!(toks.first().unwrap().tok, TokType::ID(String::from("voida")));
}

#[test]
fn empty_source_has_no_tokens() {
    assert_eq!(scan("").unwrap(), Vec::<Token>::new());
    assert_eq!(scan(" \t\n\r ").unwrap(), Vec::<Token>::new());
}

#[test]
fn comma_minus_plus() {
    assert_eq!(kinds(",-+"), vec![TokType::Comma, TokType::Minus, TokType::Plus]);
}

#[test]
fn identifier_with_underscore_and_digits() {
    assert_eq!(kinds("a_1b"), vec![TokType::ID(String::from("a_1b"))]);
    assert_eq!(
        kinds("int1 returned"),
        vec![TokType::ID(String::from("int1")), TokType::ID(String::from("returned"))]
    );
}

#[test]
fn locations_count_lines_and_columns_from_one() {
    let toks = scan("int main\n  (x)\n;").unwrap();
    let locs: Vec<(u32, u32)> = toks.iter().map(|t| t.loc).collect();
    assert_eq!(locs, vec![(1, 1), (1, 5), (2, 3), (2, 4), (2, 5), (3, 1)]);
}

#[test]
fn token_before_line_break_keeps_its_line() {
    let toks = scan("int\nmain").unwrap();
    assert_eq!(toks[0], Token { tok: TokType::KeywordInt, loc: (1, 1) });
    assert_eq!(toks[1], Token { tok: TokType::ID(String::from("main")), loc: (2, 1) });
}

#[test]
fn carriage_return_starts_a_line() {
    let toks = scan("a\r\nb").unwrap();
    assert_eq!(toks[1].loc, (3, 1));
}

#[test]
fn integer_literal_wraps_at_64_bits() {
    assert_eq!(kinds("18446744073709551615"), vec![TokType::NumInt(u64::MAX)]);
    assert_eq!(kinds("18446744073709551616"), vec![TokType::NumInt(0)]);
    assert_eq!(kinds("18446744073709551621"), vec![TokType::NumInt(5)]);
}

#[test]
fn real_literal_keeps_its_parts() {
    assert_eq!(kinds("12.034"), vec![TokType::NumReal(12, 34, 3)]);
    assert_eq!(kinds("7."), vec![TokType::NumReal(7, 0, 0)]);
    assert_eq!(kinds("1.2 3"), vec![TokType::NumReal(1, 2, 1), TokType::NumInt(3)]);
}

#[test]
fn unexpected_character_is_a_lexical_error() {
    assert_eq!(scan("int a @"), Err(LexicalError { ch: '@', loc: (1, 7) }));
    assert_eq!(scan("_a"), Err(LexicalError { ch: '_', loc: (1, 1) }));
    assert_eq!(scan("\n .5"), Err(LexicalError { ch: '.', loc: (2, 2) }));
}

#[test]
fn lexical_error_message_names_character_and_place() {
    let e = scan("x\n  #").unwrap_err();
    assert_eq!(e.message(), "unexpected char: # at 2:3");
}

#[test]
fn scan_is_repeatable() {
    let src = "int foo(int x, int y) {} int main() { return foo(3,4);}";
    assert_eq!(scan(src), scan(src));
}

#[test]
fn token_text_of_each_kind() {
    assert_eq!(TokType::KeywordVoid.to_text(), "void");
    assert_eq!(TokType::KeywordInt.to_text(), "int");
    assert_eq!(TokType::KeywordReturn.to_text(), "return");
    assert_eq!(TokType::ID(String::from("main")).to_text(), "identifier 'main'");
    assert_eq!(TokType::NumInt(42).to_text(), "NumInt(42)");
    assert_eq!(TokType::NumReal(1, 5, 1).to_text(), "NumReal(1, 5, 1)");
    assert_eq!(TokType::ParentOpen.to_text(), "(");
    assert_eq!(TokType::ParentClose.to_text(), ")");
    assert_eq!(TokType::BracketOpen.to_text(), "{");
    assert_eq!(TokType::BracketClose.to_text(), "}");
    assert_eq!(TokType::Semicolon.to_text(), ";");
    assert_eq!(TokType::Assign.to_text(), "=");
    assert_eq!(TokType::Comma.to_text(), "Comma");
    assert_eq!(TokType::Minus.to_text(), "Minus");
    assert_eq!(TokType::Plus.to_text(), "Plus");
    let t = Token { tok: TokType::BracketClose, loc: (1, 23) };
    assert_eq!(t.to_text(), "} at 1:23");
}

#[test]
fn token_clone_and_same() {
    let t = Token { tok: TokType::ID(String::from("abc")), loc: (4, 2) };
    assert_eq!(t.clone(), t);
    assert!(t.tok.same(&TokType::ID(String::from("abc"))));
    assert!(!t.tok.same(&TokType::ID(String::from("abd"))));
    assert!(!TokType::NumInt(1).same(&TokType::NumInt(2)));
    assert!(TokType::Comma.same(&TokType::Comma));
    assert!(!TokType::Comma.same(&TokType::Semicolon));
}

#[test]
fn underscore_inside_a_word_is_supported() {
    assert_eq!(
        kinds("a_ b__c x_1_"),
        vec![
            TokType::ID(String::from("a_")),
            TokType::ID(String::from("b__c")),
            TokType::ID(String::from("x_1_")),
        ]
    );
    assert_eq!(scan("1_"), Err(LexicalError { ch: '_', loc: (1, 2) }));
    assert_eq!(scan("a _b"), Err(LexicalError { ch: '_', loc: (1, 3) }));
}

#[test]
fn token_places_count_from_one() {
    let toks = scan("\n\n a\n\tb ( 1.5 )\r;").unwrap();
    assert!(toks.iter().all(|t| t.loc.0 >= 1 && t.loc.1 >= 1));
}

#[test]
fn ordinary_sources_fit() {
    assert!(source_fits(""));
    assert!(source_fits("int main() { return 1; }"));
}
