//! Tokens of the language and their models.

use crate::text::{decimal, push_decimal};
use vstd::prelude::*;

verus! {

/// A token together with the place where it starts.
#[derive(Debug, PartialEq)]
pub struct Token {
    /// The kind of token, with its value where it has one.
    pub tok: TokType,
    /// Line and column of the first character, both counted from 1.
    pub loc: (u32, u32),
}

/// The kind of a token, with its value where it has one.
#[derive(Debug, PartialEq)]
pub enum TokType {
    /// `void`
    KeywordVoid,
    /// `int`
    KeywordInt,
    /// `return`
    KeywordReturn,
    /// An identifier.
    ID(String),
    /// An integer literal: its magnitude, reduced modulo 2^64.
    NumInt(u64),
    /// A real literal, kept as written: the integer part, the number that
    /// the digits after the point spell (both reduced modulo 2^64), and
    /// how many such digits there are. Which floating-point number the
    /// three stand for is left to the user of the token.
    NumReal(u64, u64, u32),
    /// `(`
    ParentOpen,
    /// `)`
    ParentClose,
    /// `{`
    BracketOpen,
    /// `}`
    BracketClose,
    /// `;`
    Semicolon,
    /// `,`
    Comma,
    /// `-`
    Minus,
    /// `+`
    Plus,
    /// `=`
    Assign,
}

/// Model of a token kind: an identifier is the sequence of its characters.
pub enum TokTypeView {
    KeywordVoid,
    KeywordInt,
    KeywordReturn,
    ID(Seq<char>),
    NumInt(u64),
    NumReal(u64, u64, u32),
    ParentOpen,
    ParentClose,
    BracketOpen,
    BracketClose,
    Semicolon,
    Comma,
    Minus,
    Plus,
    Assign,
}

/// Model of a token.
pub struct TokenView {
    pub tok: TokTypeView,
    pub line: nat,
    pub col: nat,
}

impl View for TokType {
    type V = TokTypeView;

    open spec fn view(&self) -> TokTypeView {
        match self {
            TokType::KeywordVoid => TokTypeView::KeywordVoid,
            TokType::KeywordInt => TokTypeView::KeywordInt,
            TokType::KeywordReturn => TokTypeView::KeywordReturn,
            TokType::ID(name) => TokTypeView::ID(name@),
            TokType::NumInt(v) => TokTypeView::NumInt(*v),
            TokType::NumReal(whole, frac, digits) => TokTypeView::NumReal(*whole, *frac, *digits),
            TokType::ParentOpen => TokTypeView::ParentOpen,
            TokType::ParentClose => TokTypeView::ParentClose,
            TokType::BracketOpen => TokTypeView::BracketOpen,
            TokType::BracketClose => TokTypeView::BracketClose,
            TokType::Semicolon => TokTypeView::Semicolon,
            TokType::Comma => TokTypeView::Comma,
            TokType::Minus => TokTypeView::Minus,
            TokType::Plus => TokTypeView::Plus,
            TokType::Assign => TokTypeView::Assign,
        }
    }
}

impl View for Token {
    type V = TokenView;

    open spec fn view(&self) -> TokenView {
        TokenView { tok: self.tok@, line: self.loc.0 as nat, col: self.loc.1 as nat }
    }
}

/// The models of a list of tokens, in order.
pub open spec fn tokens_view(tokens: Seq<Token>) -> Seq<TokenView> {
    Seq::new(tokens.len(), |i: int| tokens[i]@)
}

/// How a token kind reads in a diagnostic.
pub open spec fn tok_text(t: TokTypeView) -> Seq<char> {
    match t {
        TokTypeView::KeywordVoid => "void"@,
        TokTypeView::KeywordInt => "int"@,
        TokTypeView::KeywordReturn => "return"@,
        TokTypeView::ID(name) => "identifier '"@ + name + "'"@,
        TokTypeView::NumInt(v) => "NumInt("@ + decimal(v as nat) + ")"@,
        TokTypeView::NumReal(whole, frac, digits) => "NumReal("@ + decimal(whole as nat) + ", "@
            + decimal(frac as nat) + ", "@ + decimal(digits as nat) + ")"@,
        TokTypeView::ParentOpen => "("@,
        TokTypeView::ParentClose => ")"@,
        TokTypeView::BracketOpen => "{"@,
        TokTypeView::BracketClose => "}"@,
        TokTypeView::Semicolon => ";"@,
        TokTypeView::Comma => "Comma"@,
        TokTypeView::Minus => "Minus"@,
        TokTypeView::Plus => "Plus"@,
        TokTypeView::Assign => "="@,
    }
}

/// How a place in the source reads in a diagnostic: line, colon, column.
pub open spec fn loc_text(line: nat, col: nat) -> Seq<char> {
    decimal(line) + ":"@ + decimal(col)
}

/// How a token reads in a diagnostic: its kind and its place.
pub open spec fn token_text(t: TokenView) -> Seq<char> {
    tok_text(t.tok) + " at "@ + loc_text(t.line, t.col)
}

/// Appends a source location to `out`.
pub fn push_loc(out: &mut String, loc: (u32, u32))
    ensures
        final(out)@ == old(out)@ + loc_text(loc.0 as nat, loc.1 as nat),
{
    push_decimal(out, loc.0 as u64);
    out.append(":");
    push_decimal(out, loc.1 as u64);
}

impl Clone for TokType {
    fn clone(&self) -> (r: TokType)
        ensures
            r@ == self@,
    {
        match self {
            TokType::KeywordVoid => TokType::KeywordVoid,
            TokType::KeywordInt => TokType::KeywordInt,
            TokType::KeywordReturn => TokType::KeywordReturn,
            TokType::ID(name) => TokType::ID(name.clone()),
            TokType::NumInt(v) => TokType::NumInt(*v),
            TokType::NumReal(whole, frac, digits) => TokType::NumReal(*whole, *frac, *digits),
            TokType::ParentOpen => TokType::ParentOpen,
            TokType::ParentClose => TokType::ParentClose,
            TokType::BracketOpen => TokType::BracketOpen,
            TokType::BracketClose => TokType::BracketClose,
            TokType::Semicolon => TokType::Semicolon,
            TokType::Comma => TokType::Comma,
            TokType::Minus => TokType::Minus,
            TokType::Plus => TokType::Plus,
            TokType::Assign => TokType::Assign,
        }
    }
}

impl Clone for Token {
    fn clone(&self) -> (r: Token)
        ensures
            r@ == self@,
    {
        Token { tok: self.tok.clone(), loc: self.loc }
    }
}

impl TokType {
    /// Whether two token kinds are the same, values included.
    pub fn same(&self, other: &TokType) -> (r: bool)
        ensures
            r == (self@ == other@),
    {
        match (self, other) {
            (TokType::KeywordVoid, TokType::KeywordVoid) => true,
            (TokType::KeywordInt, TokType::KeywordInt) => true,
            (TokType::KeywordReturn, TokType::KeywordReturn) => true,
            (TokType::ID(a), TokType::ID(b)) => *a == *b,
            (TokType::NumInt(a), TokType::NumInt(b)) => *a == *b,
            (TokType::NumReal(a, b, c), TokType::NumReal(x, y, z)) => *a == *x && *b == *y && *c
                == *z,
            (TokType::ParentOpen, TokType::ParentOpen) => true,
            (TokType::ParentClose, TokType::ParentClose) => true,
            (TokType::BracketOpen, TokType::BracketOpen) => true,
            (TokType::BracketClose, TokType::BracketClose) => true,
            (TokType::Semicolon, TokType::Semicolon) => true,
            (TokType::Comma, TokType::Comma) => true,
            (TokType::Minus, TokType::Minus) => true,
            (TokType::Plus, TokType::Plus) => true,
            (TokType::Assign, TokType::Assign) => true,
            _ => false,
        }
    }

    /// The text of the token kind in a diagnostic.
    pub fn to_text(&self) -> (s: String)
        ensures
            s@ == tok_text(self@),
    {
        match self {
            TokType::KeywordVoid => String::from_str("void"),
            TokType::KeywordInt => String::from_str("int"),
            TokType::KeywordReturn => String::from_str("return"),
            TokType::ID(name) => {
                let mut s = String::from_str("identifier '");
                s.append(name.as_str());
                s.append("'");
                s
            },
            TokType::NumInt(v) => {
                let mut s = String::from_str("NumInt(");
                push_decimal(&mut s, *v);
                s.append(")");
                s
            },
            TokType::NumReal(whole, frac, digits) => {
                let mut s = String::from_str("NumReal(");
                push_decimal(&mut s, *whole);
                s.append(", ");
                push_decimal(&mut s, *frac);
                s.append(", ");
                push_decimal(&mut s, *digits as u64);
                s.append(")");
                s
            },
            TokType::ParentOpen => String::from_str("("),
            TokType::ParentClose => String::from_str(")"),
            TokType::BracketOpen => String::from_str("{"),
            TokType::BracketClose => String::from_str("}"),
            TokType::Semicolon => String::from_str(";"),
            TokType::Comma => String::from_str("Comma"),
            TokType::Minus => String::from_str("Minus"),
            TokType::Plus => String::from_str("Plus"),
            TokType::Assign => String::from_str("="),
        }
    }
}

impl Token {
    /// The text of the token in a diagnostic: its kind and its place.
    pub fn to_text(&self) -> (s: String)
        ensures
            s@ == token_text(self@),
    {
        let mut s = self.tok.to_text();
        s.append(" at ");
        push_loc(&mut s, self.loc);
        s
    }
}

} // verus!
