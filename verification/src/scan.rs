//! The scanner: from source text to tokens.
//!
//! The scanner reads the characters of the source one by one, with one
//! character of pushback, and keeps track of line and column.

use crate::common::{loc_text, push_loc, tokens_view, TokType, Token, TokenView};
use crate::scan::rules::{
    decimal_from, decimal_value, digit_value, digits_len, ident_len, is_digit, is_letter,
    is_whitespace, lemma_digits_len, lemma_loc_at, lemma_spaces_len, lemma_token_at, loc_at,
    number_at, scan_from, scan_spec, token_at, token_start, u64_range, word_kind,
    LexicalErrorView,
};
use crate::text::push_char;
use vstd::prelude::*;

pub mod rules;

verus! {

/// A character that starts no token, and the place where it stands.
#[derive(Debug, PartialEq)]
pub struct LexicalError {
    /// The character.
    pub ch: char,
    /// Its line and column, both counted from 1.
    pub loc: (u32, u32),
}

impl View for LexicalError {
    type V = LexicalErrorView;

    open spec fn view(&self) -> LexicalErrorView {
        LexicalErrorView { ch: self.ch, line: self.loc.0 as nat, col: self.loc.1 as nat }
    }
}

/// How a lexical error reads.
pub open spec fn lexical_error_text(e: LexicalErrorView) -> Seq<char> {
    "unexpected char: "@ + seq![e.ch] + " at "@ + loc_text(e.line, e.col)
}

impl LexicalError {
    /// The text of the error: the character and its place.
    pub fn message(&self) -> (s: String)
        ensures
            s@ == lexical_error_text(self@),
    {
        let mut s = String::from_str("unexpected char: ");
        push_char(&mut s, self.ch);
        s.append(" at ");
        push_loc(&mut s, self.loc);
        s
    }
}

/// The models of the outcome of a scan.
pub open spec fn scan_result_view(r: Result<Vec<Token>, LexicalError>) -> Result<
    Seq<TokenView>,
    LexicalErrorView,
> {
    match r {
        Ok(tokens) => Ok(tokens_view(tokens@)),
        Err(e) => Err(e@),
    }
}

/// The longest text whose lines and columns fit in 32 bits.
pub const MAX_SOURCE_LEN: u32 = 0xffff_ffff;

/// Whether the lines and columns of `src` fit in 32 bits, so that it can be
/// scanned.
pub fn source_fits(src: &str) -> (fits: bool)
    ensures
        fits == (src@.len() <= MAX_SOURCE_LEN),
{
    src.unicode_len() <= MAX_SOURCE_LEN as usize
}

/// Scans the source text into its tokens, or reports the first character
/// that starts no token.
pub fn scan(src: &str) -> (r: Result<Vec<Token>, LexicalError>)
    requires
        src@.len() <= MAX_SOURCE_LEN,
    ensures
        scan_result_view(r) == scan_spec(src@),
{
    let mut input = ScanInput::from(src);
    let mut tokens: Vec<Token> = Vec::new();
    let ghost s = src@;
    loop
        invariant
            s == src@,
            input.wf(),
            input.chars@ == s,
            scan_spec(s) == with_front(tokens_view(tokens@), scan_from(s, input.pos as int)),
        decreases s.len() - input.pos,
    {
        let ghost before = tokens_view(tokens@);
        let ghost i = input.pos as int;
        proof {
            lemma_spaces_len(s, i);
            if token_start(s, i) < s.len() {
                lemma_token_at(s, token_start(s, i));
            }
        }
        match input.scan_token() {
            Err(e) => {
                return Err(e);
            },
            Ok(None) => {
                proof {
                    assert(before + Seq::<TokenView>::empty() =~= before);
                }
                return Ok(tokens);
            },
            Ok(Some(t)) => {
                tokens.push(t);
                proof {
                    let after = tokens_view(tokens@);
                    assert(after =~= before + seq![t@]);
                    match scan_from(s, input.pos as int) {
                        Ok(rest) => {
                            assert(after + rest =~= before + (seq![t@] + rest));
                        },
                        Err(_) => {},
                    }
                }
            },
        }
    }
}

/// The outcome `r` of scanning the rest of a text, with the tokens `front`
/// scanned before it.
pub open spec fn with_front(
    front: Seq<TokenView>,
    r: Result<Seq<TokenView>, LexicalErrorView>,
) -> Result<Seq<TokenView>, LexicalErrorView> {
    match r {
        Ok(rest) => Ok(front + rest),
        Err(e) => Err(e),
    }
}

/// Whether `c` separates tokens.
fn is_space_char(c: char) -> (r: bool)
    ensures
        r == is_whitespace(c),
{
    c == ' ' || c == '\t' || c == '\n' || c == '\x0C' || c == '\r'
}

/// Whether `c` is an ASCII letter.
fn is_letter_char(c: char) -> (r: bool)
    ensures
        r == is_letter(c),
{
    ('a' <= c && c <= 'z') || ('A' <= c && c <= 'Z')
}

/// Whether `c` is an ASCII digit.
fn is_digit_char(c: char) -> (r: bool)
    ensures
        r == is_digit(c),
{
    '0' <= c && c <= '9'
}

/// The characters of `src`, in order.
fn chars_of(src: &str) -> (v: Vec<char>)
    ensures
        v@ == src@,
{
    let mut v: Vec<char> = Vec::new();
    for c in it: src.chars()
        invariant
            it.seq() == src@,
            v@ == it.seq().take(it.index()),
    {
        v.push(c);
    }
    v
}

/// The source text with a reading position.
struct ScanInput {
    /// The characters of the source.
    chars: Vec<char>,
    /// How many of them have been read.
    pos: usize,
    /// The line of the next character, if there is one.
    line: u32,
    /// The column of the next character, if there is one.
    col: u32,
    /// The place of the character read last, as long as it can still be
    /// put back.
    back: Option<(u32, u32)>,
}

impl ScanInput {
    /// The position is within the text, and line and column are those of
    /// the next character, as long as there is one.
    spec fn wf(&self) -> bool {
        &&& self.pos <= self.chars.len() <= MAX_SOURCE_LEN
        &&& self.pos < self.chars.len() ==> (self.line as nat, self.col as nat) == loc_at(
            self.chars@,
            self.pos as int,
        )
        &&& self.back matches Some(place) ==> self.pos > 0 && (place.0 as nat, place.1 as nat)
            == loc_at(self.chars@, self.pos - 1)
    }

    /// A reader at the start of `src`.
    fn from(src: &str) -> (input: ScanInput)
        requires
            src@.len() <= MAX_SOURCE_LEN,
        ensures
            input.wf(),
            input.chars@ == src@,
            input.pos == 0,
    {
        ScanInput { chars: chars_of(src), pos: 0, line: 1, col: 1, back: None }
    }

    /// Scans the next token, if there is one.
    fn scan_token(&mut self) -> (r: Result<Option<Token>, LexicalError>)
        requires
            old(self).wf(),
        ensures
            final(self).wf(),
            final(self).chars@ == old(self).chars@,
            ({
                let s = old(self).chars@;
                let j = token_start(s, old(self).pos as int);
                if j >= s.len() {
                    r == Ok::<Option<Token>, LexicalError>(None)
                } else {
                    match token_at(s, j) {
                        None => r matches Err(e) && e@ == (LexicalErrorView {
                            ch: s[j],
                            line: loc_at(s, j).0,
                            col: loc_at(s, j).1,
                        }),
                        Some((kind, more)) => r matches Ok(Some(t)) && t@ == (TokenView {
                            tok: kind,
                            line: loc_at(s, j).0,
                            col: loc_at(s, j).1,
                        }) && final(self).pos == j + 1 + more,
                    }
                }
            }),
    {
        self.skip_whitespace();
        let line = self.line;
        let col = self.col;
        match self.next() {
            None => Ok(None),
            Some(c) => {
                let typ = if c == '(' {
                    TokType::ParentOpen
                } else if c == ')' {
                    TokType::ParentClose
                } else if c == '{' {
                    TokType::BracketOpen
                } else if c == '}' {
                    TokType::BracketClose
                } else if c == ';' {
                    TokType::Semicolon
                } else if c == ',' {
                    TokType::Comma
                } else if c == '-' {
                    TokType::Minus
                } else if c == '+' {
                    TokType::Plus
                } else if c == '=' {
                    TokType::Assign
                } else if is_letter_char(c) {
                    self.scan_keyword_or_id(c)
                } else if is_digit_char(c) {
                    self.scan_num(c)
                } else {
                    return Err(LexicalError { ch: c, loc: (line, col) });
                };
                Ok(Some(self.new_token(typ, line, col)))
            },
        }
    }

    /// Skips whitespace: spaces, tabs and line breaks.
    fn skip_whitespace(&mut self)
        requires
            old(self).wf(),
        ensures
            final(self).wf(),
            final(self).chars@ == old(self).chars@,
            final(self).pos == token_start(old(self).chars@, old(self).pos as int),
    {
        loop
            invariant
                self.wf(),
                self.chars@ == old(self).chars@,
                old(self).pos <= self.pos,
                token_start(self.chars@, self.pos as int) == token_start(
                    self.chars@,
                    old(self).pos as int,
                ),
            ensures
                self.pos == token_start(self.chars@, old(self).pos as int),
            decreases self.chars.len() - self.pos,
        {
            match self.next() {
                Some(c) => {
                    if !is_space_char(c) {
                        self.put_back(c);
                        break ;
                    }
                },
                None => {
                    break ;
                },
            }
        }
    }

    /// Scans a reserved word or an identifier whose first letter `c` has
    /// been read: letters, digits and underscores as far as they go.
    fn scan_keyword_or_id(&mut self, c: char) -> (r: TokType)
        requires
            old(self).wf(),
            old(self).pos > 0,
            old(self).chars@[old(self).pos - 1] == c,
        ensures
            final(self).wf(),
            final(self).chars@ == old(self).chars@,
            final(self).pos == old(self).pos + ident_len(old(self).chars@, old(self).pos as int),
            r@ == word_kind(
                old(self).chars@.subrange(old(self).pos - 1, final(self).pos as int),
            ),
    {
        let ghost s = self.chars@;
        let ghost start = self.pos - 1;
        let mut word = String::new();
        push_char(&mut word, c);
        loop
            invariant
                self.wf(),
                self.chars@ == s,
                0 <= start < self.pos,
                start + 1 == old(self).pos,
                word@ == s.subrange(start, self.pos as int),
                self.pos + ident_len(s, self.pos as int) == old(self).pos + ident_len(
                    s,
                    old(self).pos as int,
                ),
            ensures
                self.wf(),
                self.chars@ == s,
                word@ == s.subrange(start, self.pos as int),
                self.pos == old(self).pos + ident_len(s, old(self).pos as int),
            decreases self.chars.len() - self.pos,
        {
            match self.next() {
                Some(c) => {
                    if is_letter_char(c) || is_digit_char(c) || c == '_' {
                        push_char(&mut word, c);
                        proof {
                            assert(word@ =~= s.subrange(start, self.pos as int));
                        }
                    } else {
                        self.put_back(c);
                        break ;
                    }
                },
                None => {
                    break ;
                },
            }
        }
        if word == String::from_str("int") {
            TokType::KeywordInt
        } else if word == String::from_str("void") {
            TokType::KeywordVoid
        } else if word == String::from_str("return") {
            TokType::KeywordReturn
        } else {
            TokType::ID(word)
        }
    }

    /// Scans a number whose first digit `c` has been read: an integer, or
    /// a real number if a point follows the digits.
    fn scan_num(&mut self, c: char) -> (r: TokType)
        requires
            old(self).wf(),
            old(self).pos > 0,
            old(self).chars@[old(self).pos - 1] == c,
            is_digit(c),
        ensures
            final(self).wf(),
            final(self).chars@ == old(self).chars@,
            r@ == number_at(old(self).chars@, old(self).pos - 1).0,
            final(self).pos == old(self).pos + number_at(old(self).chars@, old(self).pos - 1).1,
    {
        let ghost s = self.chars@;
        let ghost j = self.pos - 1;
        let first = self.char_to_u64(c);
        let (num1, _) = self.scan_pos_num(first);
        proof {
            lemma_digits_len(s, j + 1);
            lemma_decimal_from_first(s.subrange(j, j + 1 + digits_len(s, j + 1)));
            assert(s.subrange(j, j + 1 + digits_len(s, j + 1)).subrange(
                1,
                1 + digits_len(s, j + 1) as int,
            ) =~= s.subrange(j + 1, j + 1 + digits_len(s, j + 1)));
        }
        match self.next() {
            Some(c) => {
                if c == '.' {
                    proof {
                        lemma_digits_len(s, self.pos as int);
                    }
                    let (num2, ct) = self.scan_pos_num(0);
                    TokType::NumReal(num1, num2, ct)
                } else {
                    self.put_back(c);
                    TokType::NumInt(num1)
                }
            },
            None => TokType::NumInt(num1),
        }
    }

    /// Scans digits as far as they go and appends them to the number
    /// `prefix`. Returns the number, reduced modulo 2^64, and how many
    /// digits were read.
    fn scan_pos_num(&mut self, prefix: u64) -> (r: (u64, u32))
        requires
            old(self).wf(),
        ensures
            final(self).wf(),
            final(self).chars@ == old(self).chars@,
            final(self).pos == old(self).pos + digits_len(old(self).chars@, old(self).pos as int),
            r.1 == digits_len(old(self).chars@, old(self).pos as int),
            r.0 == decimal_from(
                prefix as nat,
                old(self).chars@.subrange(old(self).pos as int, final(self).pos as int),
            ) % u64_range(),
    {
        let ghost s = self.chars@;
        let ghost start = self.pos as int;
        let mut num: u64 = prefix;
        let mut count: u32 = 0;
        proof {
            assert(s.subrange(start, start).len() == 0);
        }
        loop
            invariant
                self.wf(),
                self.chars@ == s,
                start == old(self).pos,
                start <= self.pos,
                count == self.pos - start,
                num == decimal_from(prefix as nat, s.subrange(start, self.pos as int))
                    % u64_range(),
                self.pos + digits_len(s, self.pos as int) == start + digits_len(s, start),
            ensures
                self.wf(),
                self.chars@ == s,
                count == self.pos - start,
                num == decimal_from(prefix as nat, s.subrange(start, self.pos as int))
                    % u64_range(),
                self.pos == start + digits_len(s, start),
            decreases self.chars.len() - self.pos,
        {
            match self.next() {
                Some(c) => {
                    if is_digit_char(c) {
                        let d = self.char_to_u64(c);
                        proof {
                            let run = s.subrange(start, self.pos as int);
                            assert(run.drop_last() =~= s.subrange(start, self.pos - 1));
                            assert(run.last() == c);
                            lemma_append_digit(
                                decimal_from(prefix as nat, run.drop_last()),
                                digit_value(c),
                            );
                        }
                        let wide: u128 = (num as u128) * 10 + (d as u128);
                        num = (wide % 0x1_0000_0000_0000_0000u128) as u64;
                        count = count + 1;
                    } else {
                        self.put_back(c);
                        break ;
                    }
                },
                None => {
                    break ;
                },
            }
        }
        (num, count)
    }

    /// The value of the digit `ch`.
    fn char_to_u64(&self, ch: char) -> (v: u64)
        requires
            is_digit(ch),
        ensures
            v == digit_value(ch),
            v < 10,
    {
        if ch == '0' {
            0
        } else if ch == '1' {
            1
        } else if ch == '2' {
            2
        } else if ch == '3' {
            3
        } else if ch == '4' {
            4
        } else if ch == '5' {
            5
        } else if ch == '6' {
            6
        } else if ch == '7' {
            7
        } else if ch == '8' {
            8
        } else {
            9
        }
    }

    /// A token of kind `tok_type` that starts at the given place.
    fn new_token(&mut self, tok_type: TokType, line: u32, col: u32) -> (t: Token)
        ensures
            *final(self) == *old(self),
            t.tok == tok_type,
            t.loc == (line, col),
    {
        Token { tok: tok_type, loc: (line, col) }
    }

    /// Reads the next character, if there is one, and moves line and
    /// column on to the character behind it.
    fn next(&mut self) -> (r: Option<char>)
        requires
            old(self).wf(),
        ensures
            final(self).wf(),
            final(self).chars@ == old(self).chars@,
            old(self).pos < old(self).chars.len() ==> r == Some(
                old(self).chars@[old(self).pos as int],
            ) && final(self).pos == old(self).pos + 1 && final(self).back is Some,
            old(self).pos >= old(self).chars.len() ==> r is None && final(self).pos == old(
                self,
            ).pos,
    {
        if self.pos < self.chars.len() {
            let c = self.chars[self.pos];
            proof {
                lemma_loc_at(self.chars@, self.pos as int);
            }
            self.back = Some((self.line, self.col));
            self.pos = self.pos + 1;
            if self.pos < self.chars.len() {
                proof {
                    lemma_loc_at(self.chars@, self.pos as int);
                }
                if c == '\n' || c == '\r' {
                    self.line = self.line + 1;
                    self.col = 1;
                } else {
                    self.col = self.col + 1;
                }
            }
            Some(c)
        } else {
            self.back = None;
            None
        }
    }

    /// Puts the character read last back, so that it is read again.
    fn put_back(&mut self, ch: char)
        requires
            old(self).wf(),
            old(self).back is Some,
            old(self).chars@[old(self).pos - 1] == ch,
        ensures
            final(self).wf(),
            final(self).chars@ == old(self).chars@,
            final(self).pos == old(self).pos - 1,
    {
        if let Some(place) = self.back {
            self.pos = self.pos - 1;
            self.line = place.0;
            self.col = place.1;
        }
        self.back = None;
    }
}

/// Appending a digit to a number and reducing modulo 2^64 gives the same
/// whether or not the number was reduced before.
proof fn lemma_append_digit(n: nat, d: nat)
    ensures
        ((n % u64_range()) * 10 + d) % u64_range() == (n * 10 + d) % u64_range(),
{
    let r = u64_range() as int;
    let q = (n as int) / r;
    let m = (n as int) % r;
    assert(n == q * r + m) by {
        vstd::arithmetic::div_mod::lemma_fundamental_div_mod(n as int, r);
    }
    assert(n * 10 + d == (m * 10 + d) + (10 * q) * r) by (nonlinear_arith)
        requires
            n == q * r + m,
    ;
    vstd::arithmetic::div_mod::lemma_mod_multiples_vanish(10 * q, m * 10 + d, r);
}

/// The digits of a number spell the same number when the first digit is
/// taken as the prefix of the others.
proof fn lemma_decimal_from_first(s: Seq<char>)
    requires
        s.len() > 0,
    ensures
        decimal_value(s) == decimal_from(digit_value(s[0]), s.subrange(1, s.len() as int)),
    decreases s.len(),
{
    let tail = s.subrange(1, s.len() as int);
    let first = digit_value(s[0]);
    if s.len() == 1 {
        assert(decimal_from(0, s.drop_last()) == 0);
        assert(s.last() == s[0]);
        assert(decimal_from(first, tail) == first);
    } else {
        let front = s.drop_last();
        lemma_decimal_from_first(front);
        assert(front.subrange(1, front.len() as int) =~= tail.drop_last());
        assert(front[0] == s[0]);
        assert(tail.last() == s.last());
        assert(decimal_value(s) == decimal_value(front) * 10 + digit_value(s.last()));
        assert(decimal_from(first, tail) == decimal_from(first, tail.drop_last()) * 10
            + digit_value(tail.last()));
    }
}

} // verus!
