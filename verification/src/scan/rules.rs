//! The lexical rules: which tokens a text consists of.
//!
//! The rules are stated over the characters of the source. A token starts
//! at the first character that is not whitespace and extends as far as its
//! kind allows; a character that starts no token is a lexical error.

use crate::common::{TokTypeView, TokenView};
use vstd::prelude::*;

verus! {

/// A character that separates tokens: space, tab, line feed, form feed or
/// carriage return.
pub open spec fn is_whitespace(c: char) -> bool {
    c == ' ' || c == '\t' || c == '\n' || c == '\x0C' || c == '\r'
}

/// A character that ends a line: line feed or carriage return.
pub open spec fn is_newline(c: char) -> bool {
    c == '\n' || c == '\r'
}

/// An ASCII letter.
pub open spec fn is_letter(c: char) -> bool {
    ('a' <= c && c <= 'z') || ('A' <= c && c <= 'Z')
}

/// An ASCII digit.
pub open spec fn is_digit(c: char) -> bool {
    '0' <= c && c <= '9'
}

/// A character that may continue an identifier.
pub open spec fn is_ident_char(c: char) -> bool {
    is_letter(c) || is_digit(c) || c == '_'
}

/// The value of the digit `c`.
pub open spec fn digit_value(c: char) -> nat {
    (c as int - '0' as int) as nat
}

/// The place of the character at index `i` of `s`: its line and its
/// column, both counted from 1. A new line starts after each line break.
pub open spec fn loc_at(s: Seq<char>, i: int) -> (nat, nat)
    decreases i,
{
    if i <= 0 || i > s.len() {
        (1, 1)
    } else {
        let before = loc_at(s, i - 1);
        if is_newline(s[i - 1]) {
            ((before.0 + 1) as nat, 1)
        } else {
            (before.0, (before.1 + 1) as nat)
        }
    }
}

/// How many whitespace characters stand in a row from index `i` on.
pub open spec fn spaces_len(s: Seq<char>, i: int) -> nat
    decreases s.len() - i,
{
    if 0 <= i < s.len() && is_whitespace(s[i]) {
        1 + spaces_len(s, i + 1)
    } else {
        0
    }
}

/// How many identifier characters stand in a row from index `i` on.
pub open spec fn ident_len(s: Seq<char>, i: int) -> nat
    decreases s.len() - i,
{
    if 0 <= i < s.len() && is_ident_char(s[i]) {
        1 + ident_len(s, i + 1)
    } else {
        0
    }
}

/// How many digits stand in a row from index `i` on.
pub open spec fn digits_len(s: Seq<char>, i: int) -> nat
    decreases s.len() - i,
{
    if 0 <= i < s.len() && is_digit(s[i]) {
        1 + digits_len(s, i + 1)
    } else {
        0
    }
}

/// The number that the digits `s` spell after the number `prefix`.
pub open spec fn decimal_from(prefix: nat, s: Seq<char>) -> nat
    decreases s.len(),
{
    if s.len() == 0 {
        prefix
    } else {
        decimal_from(prefix, s.drop_last()) * 10 + digit_value(s.last())
    }
}

/// The number that the digits `s` spell.
pub open spec fn decimal_value(s: Seq<char>) -> nat {
    decimal_from(0, s)
}

/// The number of values that 64 bits hold.
pub open spec fn u64_range() -> nat {
    0x1_0000_0000_0000_0000
}

/// The value of the literal with the digits `s`: the number they spell,
/// reduced modulo 2^64.
pub open spec fn literal_value(s: Seq<char>) -> u64 {
    (decimal_value(s) % u64_range()) as u64
}

/// The kind of the word `w`: a reserved word, or else an identifier.
pub open spec fn word_kind(w: Seq<char>) -> TokTypeView {
    if w == "int"@ {
        TokTypeView::KeywordInt
    } else if w == "void"@ {
        TokTypeView::KeywordVoid
    } else if w == "return"@ {
        TokTypeView::KeywordReturn
    } else {
        TokTypeView::ID(w)
    }
}

/// The kind of the punctuation token that `c` is, if it is one.
pub open spec fn punct_kind(c: char) -> Option<TokTypeView> {
    if c == '(' {
        Some(TokTypeView::ParentOpen)
    } else if c == ')' {
        Some(TokTypeView::ParentClose)
    } else if c == '{' {
        Some(TokTypeView::BracketOpen)
    } else if c == '}' {
        Some(TokTypeView::BracketClose)
    } else if c == ';' {
        Some(TokTypeView::Semicolon)
    } else if c == ',' {
        Some(TokTypeView::Comma)
    } else if c == '-' {
        Some(TokTypeView::Minus)
    } else if c == '+' {
        Some(TokTypeView::Plus)
    } else if c == '=' {
        Some(TokTypeView::Assign)
    } else {
        None
    }
}

/// The number that starts with the digit at index `j`: its kind, and how
/// many characters it has after the first. The digits run as far as they
/// go; a point right after them makes the literal a real one, whose
/// fraction is the run of digits after the point, which may be empty.
pub open spec fn number_at(s: Seq<char>, j: int) -> (TokTypeView, nat) {
    let more = digits_len(s, j + 1);
    let whole = literal_value(s.subrange(j, j + 1 + more));
    let dot = j + 1 + more;
    if dot < s.len() && s[dot] == '.' {
        let digits = digits_len(s, dot + 1);
        let frac = literal_value(s.subrange(dot + 1, dot + 1 + digits));
        (TokTypeView::NumReal(whole, frac, digits as u32), more + 1 + digits)
    } else {
        (TokTypeView::NumInt(whole), more)
    }
}

/// The token that starts at index `j`: its kind, and how many characters
/// it has after the first. `None` if the character at `j` starts no token.
pub open spec fn token_at(s: Seq<char>, j: int) -> Option<(TokTypeView, nat)> {
    let c = s[j];
    match punct_kind(c) {
        Some(kind) => Some((kind, 0)),
        None => if is_letter(c) {
            let more = ident_len(s, j + 1);
            Some((word_kind(s.subrange(j, j + 1 + more)), more))
        } else if is_digit(c) {
            Some(number_at(s, j))
        } else {
            None
        },
    }
}

/// Model of a lexical error: the character that starts no token, and its
/// place.
pub struct LexicalErrorView {
    pub ch: char,
    pub line: nat,
    pub col: nat,
}

/// The index of the first character at or after `i` that is not
/// whitespace, or the length of `s` if there is none.
pub open spec fn token_start(s: Seq<char>, i: int) -> int {
    i + spaces_len(s, i)
}

/// The tokens of `s` from index `i` on, or the first lexical error.
pub open spec fn scan_from(s: Seq<char>, i: int) -> Result<Seq<TokenView>, LexicalErrorView>
    decreases s.len() - i,
{
    let j = token_start(s, i);
    if i < 0 || j >= s.len() {
        Ok(Seq::empty())
    } else {
        proof {
            lemma_token_at(s, j);
        }
        let place = loc_at(s, j);
        match token_at(s, j) {
            None => Err(LexicalErrorView { ch: s[j], line: place.0, col: place.1 }),
            Some((kind, more)) => match scan_from(s, j + 1 + more) {
                Err(e) => Err(e),
                Ok(rest) => Ok(
                    seq![TokenView { tok: kind, line: place.0, col: place.1 }] + rest,
                ),
            },
        }
    }
}

/// The tokens of the source text `s`, or its first lexical error.
pub open spec fn scan_spec(s: Seq<char>) -> Result<Seq<TokenView>, LexicalErrorView> {
    scan_from(s, 0)
}

/// A run of whitespace ends within the text.
pub proof fn lemma_spaces_len(s: Seq<char>, i: int)
    requires
        0 <= i <= s.len(),
    ensures
        i + spaces_len(s, i) <= s.len(),
        forall|k: int| i <= k < i + spaces_len(s, i) ==> is_whitespace(#[trigger] s[k]),
        i + spaces_len(s, i) < s.len() ==> !is_whitespace(s[i + spaces_len(s, i)]),
    decreases s.len() - i,
{
    if i < s.len() && is_whitespace(s[i]) {
        lemma_spaces_len(s, i + 1);
    }
}

/// A run of identifier characters ends within the text.
pub proof fn lemma_ident_len(s: Seq<char>, i: int)
    requires
        0 <= i <= s.len(),
    ensures
        i + ident_len(s, i) <= s.len(),
        forall|k: int| i <= k < i + ident_len(s, i) ==> is_ident_char(#[trigger] s[k]),
        i + ident_len(s, i) < s.len() ==> !is_ident_char(s[i + ident_len(s, i)]),
    decreases s.len() - i,
{
    if i < s.len() && is_ident_char(s[i]) {
        lemma_ident_len(s, i + 1);
    }
}

/// A run of digits ends within the text.
pub proof fn lemma_digits_len(s: Seq<char>, i: int)
    requires
        0 <= i <= s.len(),
    ensures
        i + digits_len(s, i) <= s.len(),
        forall|k: int| i <= k < i + digits_len(s, i) ==> is_digit(#[trigger] s[k]),
        i + digits_len(s, i) < s.len() ==> !is_digit(s[i + digits_len(s, i)]),
    decreases s.len() - i,
{
    if i < s.len() && is_digit(s[i]) {
        lemma_digits_len(s, i + 1);
    }
}

/// A token ends within the text.
pub proof fn lemma_token_at(s: Seq<char>, j: int)
    requires
        0 <= j < s.len(),
    ensures
        token_at(s, j) matches Some((_, more)) ==> j + 1 + more <= s.len(),
{
    lemma_ident_len(s, j + 1);
    lemma_digits_len(s, j + 1);
    let dot = j + 1 + digits_len(s, j + 1);
    if dot < s.len() {
        lemma_digits_len(s, dot + 1);
    }
}

/// Lines and columns count from 1 and grow by at most one per character.
pub proof fn lemma_loc_at(s: Seq<char>, i: int)
    requires
        0 <= i <= s.len(),
    ensures
        1 <= loc_at(s, i).0 <= i + 1,
        1 <= loc_at(s, i).1 <= i + 1,
    decreases i,
{
    if i > 0 {
        lemma_loc_at(s, i - 1);
    }
}

/// A character that may stand anywhere between tokens or at the start of
/// one: whitespace, a letter, a digit or punctuation.
pub open spec fn is_plain(c: char) -> bool {
    is_whitespace(c) || is_letter(c) || is_digit(c) || punct_kind(c) is Some
}

/// A word starts at index `a` and runs at least up to index `k`: a
/// letter stands at `a`, and only identifier characters stand between
/// `a` and `k`.
pub open spec fn word_runs(s: Seq<char>, a: int, k: int) -> bool {
    &&& 0 <= a < k
    &&& is_letter(s[a])
    &&& forall|m: int| a < m < k ==> is_ident_char(#[trigger] s[m])
}

/// The character at index `k` stands behind the start of a word that
/// begins at index `i` or later and runs up to `k`.
pub open spec fn in_word(s: Seq<char>, i: int, k: int) -> bool {
    exists|a: int| i <= a && #[trigger] word_runs(s, a, k)
}

/// The character at index `k` is one that a text may hold from index `i`
/// on: a plain character, or an underscore inside a word.
pub open spec fn supported_at(s: Seq<char>, i: int, k: int) -> bool {
    is_plain(s[k]) || (s[k] == '_' && in_word(s, i, k))
}

/// Every character from index `i` on is a plain character or an
/// underscore inside a word that begins at `i` or later.
pub open spec fn supported_from(s: Seq<char>, i: int) -> bool {
    forall|k: int| i <= k < s.len() ==> #[trigger] supported_at(s, i, k)
}

/// Every character of the text is in the supported set: whitespace, a
/// letter, a digit, punctuation, or an underscore behind a run of
/// identifier characters that starts with a letter.
pub open spec fn supported(s: Seq<char>) -> bool {
    supported_from(s, 0)
}

/// A word that starts inside the token at index `j` ends with the token:
/// if it runs up to an index `k` behind the token, no identifier
/// character stands at `k`.
proof fn lemma_word_ends_with_token(s: Seq<char>, j: int, a: int, k: int)
    requires
        0 <= j < s.len(),
        token_at(s, j) is Some,
        j <= a < j + 1 + token_at(s, j)->Some_0.1 <= k < s.len(),
        word_runs(s, a, k),
    ensures
        !is_ident_char(s[k]),
{
    let more = token_at(s, j)->Some_0.1;
    let e = j + 1 + more;
    if punct_kind(s[j]) is Some {
    } else if is_letter(s[j]) {
        lemma_ident_len(s, j + 1);
        if e < k {
            assert(is_ident_char(s[e]));
        }
    } else {
        lemma_digits_len(s, j + 1);
        let dot = j + 1 + digits_len(s, j + 1);
        if dot < s.len() && s[dot] == '.' {
            lemma_digits_len(s, dot + 1);
            if a > dot {
                assert(is_digit(s[a]));
            } else if a < dot && a > j {
                assert(is_digit(s[a]));
            }
        } else {
            if a > j {
                assert(is_digit(s[a]));
            }
        }
    }
}

/// A text of supported characters scans without error from the start of
/// every token on.
pub proof fn lemma_scan_from_total(s: Seq<char>, i: int)
    requires
        0 <= i <= s.len(),
        supported_from(s, i),
    ensures
        scan_from(s, i) is Ok,
    decreases s.len() - i,
{
    lemma_spaces_len(s, i);
    let j = token_start(s, i);
    if j < s.len() {
        assert(supported_at(s, i, j));
        if !is_plain(s[j]) {
            let a = choose|a: int| i <= a && #[trigger] word_runs(s, a, j);
            assert(is_whitespace(s[a]));
        }
        lemma_token_at(s, j);
        let more = token_at(s, j)->Some_0.1;
        let e = j + 1 + more;
        assert forall|k: int| e <= k < s.len() implies #[trigger] supported_at(s, e, k) by {
            assert(supported_at(s, i, k));
            if !is_plain(s[k]) {
                let a = choose|a: int| i <= a && #[trigger] word_runs(s, a, k);
                if a < j {
                    assert(is_whitespace(s[a]));
                }
                if a < e {
                    lemma_word_ends_with_token(s, j, a, k);
                }
                assert(e <= a && word_runs(s, a, k));
            }
        }
        lemma_scan_from_total(s, e);
    }
}

/// Scanning is total on the supported characters: a text that consists
/// of whitespace, letters, digits, punctuation and underscores inside
/// words has a token sequence.
pub proof fn lemma_scan_total(s: Seq<char>)
    requires
        supported(s),
    ensures
        scan_spec(s) is Ok,
{
    lemma_scan_from_total(s, 0);
}

/// Every token that scanning gives from index `i` on stands at a line
/// and a column that count from 1.
pub proof fn lemma_scan_from_places(s: Seq<char>, i: int)
    requires
        0 <= i <= s.len(),
    ensures
        scan_from(s, i) matches Ok(tokens) ==> forall|t: int|
            0 <= t < tokens.len() ==> (#[trigger] tokens[t]).line >= 1 && tokens[t].col >= 1,
    decreases s.len() - i,
{
    lemma_spaces_len(s, i);
    let j = token_start(s, i);
    if j < s.len() && scan_from(s, i) is Ok {
        lemma_token_at(s, j);
        lemma_loc_at(s, j);
        let more = token_at(s, j)->Some_0.1;
        lemma_scan_from_places(s, j + 1 + more);
    }
}

/// Every token of a text stands at a line and a column that count from 1.
pub proof fn lemma_scan_places(s: Seq<char>)
    ensures
        scan_spec(s) matches Ok(tokens) ==> forall|t: int|
            0 <= t < tokens.len() ==> (#[trigger] tokens[t]).line >= 1 && tokens[t].col >= 1,
{
    lemma_scan_from_places(s, 0);
}

/// A lexical error names a character of the text that is neither
/// whitespace nor the start of a token, with the place where it stands.
pub proof fn lemma_scan_from_error(s: Seq<char>, i: int)
    requires
        0 <= i <= s.len(),
    ensures
        scan_from(s, i) matches Err(e) ==> !is_plain(e.ch) && exists|j: int|
            i <= j < s.len() && s[j] == e.ch && #[trigger] loc_at(s, j) == (e.line, e.col),
    decreases s.len() - i,
{
    lemma_spaces_len(s, i);
    let j = token_start(s, i);
    if j < s.len() {
        lemma_token_at(s, j);
        match token_at(s, j) {
            Some((_, more)) => {
                lemma_scan_from_error(s, j + 1 + more);
                if scan_from(s, i) is Err {
                    let e = scan_from(s, i)->Err_0;
                    let k = choose|k: int|
                        j + 1 + more <= k < s.len() && s[k] == e.ch && #[trigger] loc_at(s, k) == (
                            e.line,
                            e.col,
                        );
                    assert(i <= k < s.len() && s[k] == e.ch && loc_at(s, k) == (e.line, e.col));
                }
            },
            None => {
                assert(loc_at(s, j) == (loc_at(s, j).0, loc_at(s, j).1));
            },
        }
    }
}

/// Scanning fails only on a character that is not plain: the error names
/// a character of the text that is neither whitespace nor a letter, a
/// digit or punctuation, with the place where it stands.
pub proof fn lemma_scan_error(s: Seq<char>)
    ensures
        scan_spec(s) matches Err(e) ==> !is_plain(e.ch) && exists|j: int|
            0 <= j < s.len() && s[j] == e.ch && #[trigger] loc_at(s, j) == (e.line, e.col),
{
    lemma_scan_from_error(s, 0);
}

} // verus!
