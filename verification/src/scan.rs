//! Low-level text scanning: character classes, whitespace and token
//! runs, and decimal digit values.  The grammar modules build on these.

use vstd::prelude::*;

verus! {

/// Whitespace separating tokens.
pub open spec fn is_ws_char(c: char) -> bool {
    c == ' ' || c == '\t' || c == '\n' || c == '\r'
}

/// A decimal digit.
pub open spec fn is_digit_char(c: char) -> bool {
    '0' <= c && c <= '9'
}

/// A character that may occur in an identifier or keyword.
pub open spec fn is_ident_char(c: char) -> bool {
    ('a' <= c && c <= 'z') || ('A' <= c && c <= 'Z') || is_digit_char(c) || c == '-' || c == '$'
        || c == '.' || c == '_'
}

/// The value of a decimal digit; 0 for any other character.
pub open spec fn digit_val(c: char) -> nat {
    if is_digit_char(c) {
        (c as nat - '0' as nat) as nat
    } else {
        0
    }
}

/// How many whitespace characters stand at `pos`.
pub open spec fn ws_count(s: Seq<char>, pos: int) -> nat
    decreases s.len() - pos,
{
    if 0 <= pos < s.len() && is_ws_char(s[pos]) {
        1 + ws_count(s, pos + 1)
    } else {
        0
    }
}

/// The first position at or after `pos` that does not hold whitespace.
pub open spec fn skip_ws(s: Seq<char>, pos: int) -> int {
    pos + ws_count(s, pos)
}

/// How many identifier characters stand at `pos`.
pub open spec fn ident_count(s: Seq<char>, pos: int) -> nat
    decreases s.len() - pos,
{
    if 0 <= pos < s.len() && is_ident_char(s[pos]) {
        1 + ident_count(s, pos + 1)
    } else {
        0
    }
}

/// The position just past the identifier-character run starting at `pos`.
pub open spec fn ident_end(s: Seq<char>, pos: int) -> int {
    pos + ident_count(s, pos)
}

/// How many digits stand at `pos`.
pub open spec fn digits_count(s: Seq<char>, pos: int) -> nat
    decreases s.len() - pos,
{
    if 0 <= pos < s.len() && is_digit_char(s[pos]) {
        1 + digits_count(s, pos + 1)
    } else {
        0
    }
}

/// The position just past the digit run starting at `pos`.
pub open spec fn digits_end(s: Seq<char>, pos: int) -> int {
    pos + digits_count(s, pos)
}

/// The number the digits of `s` between `from` and `to` denote.
pub open spec fn digits_value(s: Seq<char>, from: int, to: int) -> nat
    decreases to - from,
{
    if from >= to {
        0
    } else {
        digits_value(s, from, to - 1) * 10 + digit_val(s[to - 1])
    }
}

/// The identifier word starting at `pos`.
pub open spec fn word_at(s: Seq<char>, pos: int) -> Seq<char> {
    s.subrange(pos, ident_end(s, pos))
}

/// Whether the single-letter keyword `x` stands at `pos`.
pub open spec fn is_word_x(s: Seq<char>, pos: int) -> bool {
    pos < s.len() && s[pos] == 'x' && ident_end(s, pos) == pos + 1
}

/// The largest number a parsed length, width or address space may hold.
pub open spec fn max_number() -> nat {
    usize::MAX as nat
}

/// `skip_ws` never moves past the end of the text.
pub broadcast proof fn skip_ws_in_bounds(s: Seq<char>, pos: int)
    ensures
        pos <= #[trigger] skip_ws(s, pos),
        pos <= s.len() ==> skip_ws(s, pos) <= s.len(),
    decreases s.len() - pos,
{
    if 0 <= pos < s.len() && is_ws_char(s[pos]) {
        skip_ws_in_bounds(s, pos + 1);
    }
}

/// `ident_end` never moves past the end of the text.
pub broadcast proof fn ident_end_in_bounds(s: Seq<char>, pos: int)
    ensures
        pos <= #[trigger] ident_end(s, pos),
        pos <= s.len() ==> ident_end(s, pos) <= s.len(),
    decreases s.len() - pos,
{
    if 0 <= pos < s.len() && is_ident_char(s[pos]) {
        ident_end_in_bounds(s, pos + 1);
    }
}

/// `digits_end` never moves past the end of the text.
pub broadcast proof fn digits_end_in_bounds(s: Seq<char>, pos: int)
    ensures
        pos <= #[trigger] digits_end(s, pos),
        pos <= s.len() ==> digits_end(s, pos) <= s.len(),
    decreases s.len() - pos,
{
    if 0 <= pos < s.len() && is_digit_char(s[pos]) {
        digits_end_in_bounds(s, pos + 1);
    }
}

/// `ident_end` stays within bounds; the word consists of identifier
/// characters and ends before a non-identifier character.
pub proof fn lemma_ident_end(s: Seq<char>, pos: int)
    requires
        0 <= pos <= s.len(),
    ensures
        pos <= ident_end(s, pos) <= s.len(),
        ident_end(s, pos) < s.len() ==> !is_ident_char(s[ident_end(s, pos)]),
        forall|i: int| pos <= i < ident_end(s, pos) ==> is_ident_char(s[i]),
    decreases s.len() - pos,
{
    if pos < s.len() && is_ident_char(s[pos]) {
        lemma_ident_end(s, pos + 1);
    }
}

/// `digits_end` stays within bounds; the run consists of digits and ends
/// before a non-digit.
pub proof fn lemma_digits_end(s: Seq<char>, pos: int)
    requires
        0 <= pos <= s.len(),
    ensures
        pos <= digits_end(s, pos) <= s.len(),
        digits_end(s, pos) < s.len() ==> !is_digit_char(s[digits_end(s, pos)]),
        forall|i: int| pos <= i < digits_end(s, pos) ==> is_digit_char(s[i]),
    decreases s.len() - pos,
{
    if pos < s.len() && is_digit_char(s[pos]) {
        lemma_digits_end(s, pos + 1);
    }
}

/// Reading more digits never makes the value smaller.
pub proof fn lemma_digits_value_mono(s: Seq<char>, from: int, i: int, j: int)
    requires
        i <= j,
    ensures
        digits_value(s, from, i) <= digits_value(s, from, j),
    decreases j - i,
{
    if i < j {
        lemma_digits_value_mono(s, from, i, j - 1);
        assert(digits_value(s, from, j - 1) * 10 >= digits_value(s, from, j - 1)) by (
        nonlinear_arith);
    }
}

} // verus!
