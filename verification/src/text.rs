//! Building text: single characters, decimal numbers and whole lines.

use vstd::prelude::*;

verus! {

/// The character that stands for the decimal digit `d`.
pub open spec fn digit_char(d: int) -> char {
    if d == 0 {
        '0'
    } else if d == 1 {
        '1'
    } else if d == 2 {
        '2'
    } else if d == 3 {
        '3'
    } else if d == 4 {
        '4'
    } else if d == 5 {
        '5'
    } else if d == 6 {
        '6'
    } else if d == 7 {
        '7'
    } else if d == 8 {
        '8'
    } else {
        '9'
    }
}

/// The decimal notation of `n`, without leading zeros.
pub open spec fn decimal(n: nat) -> Seq<char>
    decreases n,
{
    if n < 10 {
        seq![digit_char(n as int)]
    } else {
        decimal(n / 10).push(digit_char((n % 10) as int))
    }
}

/// The decimal notation of `v`, with a leading minus sign when `v` is
/// negative.
pub open spec fn signed_decimal(v: int) -> Seq<char> {
    if v < 0 {
        seq!['-'] + decimal((-v) as nat)
    } else {
        decimal(v as nat)
    }
}

/// `s` followed by a line break.
pub open spec fn line(s: Seq<char>) -> Seq<char> {
    s + seq!['\n']
}

/// `s` indented by one tab and followed by a line break.
pub open spec fn tab_line(s: Seq<char>) -> Seq<char> {
    seq!['\t'] + s + seq!['\n']
}

/// `part` occurs in `whole` as a run of consecutive characters.
pub open spec fn occurs_in(part: Seq<char>, whole: Seq<char>) -> bool {
    exists|before: Seq<char>, after: Seq<char>| whole == before + part + after
}

/// `whole` begins with `front`.
pub open spec fn begins_with(whole: Seq<char>, front: Seq<char>) -> bool {
    exists|rest: Seq<char>| whole == front + rest
}

/// A text that begins with a text that begins with `a` begins with `a`.
pub proof fn lemma_begins_with_trans(a: Seq<char>, b: Seq<char>, c: Seq<char>)
    requires
        begins_with(b, a),
        begins_with(c, b),
    ensures
        begins_with(c, a),
{
    let r1 = choose|rest: Seq<char>| b == a + rest;
    let r2 = choose|rest: Seq<char>| c == b + rest;
    assert(c =~= a + (r1 + r2));
}

/// Appends one character to `out`.
///
/// Wraps `String::push` of the standard library, which is documented to
/// append the given character to the end of the string. The contract
/// claims exactly that and nothing else.
#[verifier::external_body]
pub(crate) fn push_char(out: &mut String, c: char)
    ensures
        final(out)@ == old(out)@.push(c),
{
    out.push(c)
}

/// The character of a decimal digit.
pub fn digit_to_char(d: u8) -> (c: char)
    requires
        d < 10,
    ensures
        c == digit_char(d as int),
{
    match d {
        0 => '0',
        1 => '1',
        2 => '2',
        3 => '3',
        4 => '4',
        5 => '5',
        6 => '6',
        7 => '7',
        8 => '8',
        _ => '9',
    }
}

/// Appends the decimal notation of `n` to `out`.
pub fn push_decimal(out: &mut String, n: u64)
    ensures
        final(out)@ == old(out)@ + decimal(n as nat),
    decreases n,
{
    if n >= 10 {
        push_decimal(out, n / 10);
    }
    let d: u8 = (n % 10) as u8;
    push_char(out, digit_to_char(d));
}

/// Appends the decimal notation of `v` to `out`, with a minus sign in
/// front of a negative number.
pub fn push_signed_decimal(out: &mut String, v: i64)
    ensures
        final(out)@ == old(out)@ + signed_decimal(v as int),
{
    if v < 0 {
        push_char(out, '-');
        let magnitude: u64 = ((-(v + 1)) as u64) + 1;
        push_decimal(out, magnitude);
    } else {
        push_decimal(out, v as u64);
    }
}

/// Appends `s` and a line break to `out`.
pub fn push_line(out: &mut String, s: &str)
    ensures
        final(out)@ == old(out)@ + line(s@),
{
    out.append(s);
    push_char(out, '\n');
}

} // verus!
