//! The mathematical model of the tokenizer: character classes, maximal-run
//! scanning, trivia (whitespace and line-comment) skipping, and line/column
//! accounting, together with the lemmas the executable scanner relies on.

use vstd::prelude::*;

use crate::lex::token::TokenData;

verus! {

// ---------------------------------------------------------------------------
// Character classes
// ---------------------------------------------------------------------------

/// Whitespace skipped between tokens.
pub open spec fn is_ws_char(c: char) -> bool {
    c == ' ' || c == '\t' || c == '\r' || c == '\n'
}

/// An ASCII decimal digit.
pub open spec fn is_digit_char(c: char) -> bool {
    '0' <= c && c <= '9'
}

/// Whether `c` is in one of Unicode's letter general categories
/// (Ll, Lm, Lo, Lt, or Lu).  The full classification is given by the
/// Unicode tables; this name stands for its result.
pub uninterp spec fn is_unicode_letter(c: char) -> bool;

/// A character that may start an identifier: a letter or an underscore.
pub open spec fn is_ident_start_char(c: char) -> bool {
    c == '_' || is_unicode_letter(c)
}

/// A character that may continue an identifier: a letter, a digit, or an
/// underscore.
pub open spec fn is_ident_cont_char(c: char) -> bool {
    is_ident_start_char(c) || is_digit_char(c)
}

/// Relies on `unicode_categories::UnicodeCategories::is_letter`, which is
/// true exactly when the character is in a Unicode letter general category
/// (Ll, Lm, Lo, Lt, or Lu); in particular the ASCII letters are letters and
/// no other ASCII character is.
#[verifier::external_body]
pub(crate) fn char_is_letter(c: char) -> (r: bool)
    ensures
        r == is_unicode_letter(c),
        ('a' <= c && c <= 'z') || ('A' <= c && c <= 'Z') ==> r,
        (c as u32) < 128 && !(('a' <= c && c <= 'z') || ('A' <= c && c <= 'Z')) ==> !r,
{
    unicode_categories::UnicodeCategories::is_letter(c)
}

/// Relies on `str`'s `PartialEq` implementation: two string slices compare
/// equal exactly when their character sequences are equal.
#[verifier::external_body]
pub(crate) fn str_eq(a: &str, b: &str) -> (r: bool)
    ensures
        r == (a@ == b@),
{
    a == b
}

pub fn is_ws(c: char) -> (r: bool)
    ensures
        r == is_ws_char(c),
{
    c == ' ' || c == '\t' || c == '\r' || c == '\n'
}

pub fn is_digit(c: char) -> (r: bool)
    ensures
        r == is_digit_char(c),
{
    '0' <= c && c <= '9'
}

pub fn is_ident_start(c: char) -> (r: bool)
    ensures
        r == is_ident_start_char(c),
{
    c == '_' || char_is_letter(c)
}

pub fn is_ident_cont(c: char) -> (r: bool)
    ensures
        r == is_ident_cont_char(c),
{
    is_ident_start(c) || is_digit(c)
}

// ---------------------------------------------------------------------------
// Maximal runs
// ---------------------------------------------------------------------------

/// The end of the maximal run of decimal digits starting at `i`.
pub open spec fn digits_end(s: Seq<char>, i: int) -> int
    decreases s.len() - i,
{
    if 0 <= i && i < s.len() && is_digit_char(s[i]) {
        digits_end(s, i + 1)
    } else {
        i
    }
}

/// The end of the maximal run of identifier characters starting at `i`.
pub open spec fn ident_end(s: Seq<char>, i: int) -> int
    decreases s.len() - i,
{
    if 0 <= i && i < s.len() && is_ident_cont_char(s[i]) {
        ident_end(s, i + 1)
    } else {
        i
    }
}

pub proof fn lemma_digits_end(s: Seq<char>, i: int)
    requires
        0 <= i <= s.len(),
    ensures
        i <= digits_end(s, i) <= s.len(),
        forall|k: int| i <= k < digits_end(s, i) ==> is_digit_char(s[k]),
        digits_end(s, i) < s.len() ==> !is_digit_char(s[digits_end(s, i)]),
        i < s.len() && is_digit_char(s[i]) ==> digits_end(s, i) > i,
    decreases s.len() - i,
{
    if i < s.len() && is_digit_char(s[i]) {
        lemma_digits_end(s, i + 1);
    }
}

pub proof fn lemma_ident_end(s: Seq<char>, i: int)
    requires
        0 <= i <= s.len(),
    ensures
        i <= ident_end(s, i) <= s.len(),
        forall|k: int| i <= k < ident_end(s, i) ==> is_ident_cont_char(s[k]),
        ident_end(s, i) < s.len() ==> !is_ident_cont_char(s[ident_end(s, i)]),
        i < s.len() && is_ident_cont_char(s[i]) ==> ident_end(s, i) > i,
    decreases s.len() - i,
{
    if i < s.len() && is_ident_cont_char(s[i]) {
        lemma_ident_end(s, i + 1);
    }
}

// ---------------------------------------------------------------------------
// Trivia: whitespace and line comments
// ---------------------------------------------------------------------------

/// Whether a line comment (`//` up to the end of the line) starts at `i`.
pub open spec fn comment_start(s: Seq<char>, i: int) -> bool {
    0 <= i && i + 1 < s.len() && s[i] == '/' && s[i + 1] == '/'
}

/// The position of the first character of the next token at or after `i`:
/// whitespace is skipped, and a line comment is skipped as if it were
/// whitespace.
pub open spec fn skip_trivia(s: Seq<char>, i: int) -> int
    decreases s.len() - i, 1int,
{
    if 0 <= i && i < s.len() {
        if is_ws_char(s[i]) {
            skip_trivia(s, i + 1)
        } else if comment_start(s, i) {
            skip_comment(s, i + 2)
        } else {
            i
        }
    } else {
        i
    }
}

/// Skipping the rest of a line comment whose `//` ended just before `i`.
pub open spec fn skip_comment(s: Seq<char>, i: int) -> int
    decreases s.len() - i, 0int,
{
    if 0 <= i && i < s.len() {
        if s[i] == '\n' {
            skip_trivia(s, i + 1)
        } else {
            skip_comment(s, i + 1)
        }
    } else {
        i
    }
}

pub proof fn lemma_skip_trivia(s: Seq<char>, i: int)
    requires
        0 <= i <= s.len(),
    ensures
        i <= skip_trivia(s, i) <= s.len(),
        skip_trivia(s, i) < s.len() ==> !is_ws_char(s[skip_trivia(s, i)]) && !comment_start(
            s,
            skip_trivia(s, i),
        ),
    decreases s.len() - i, 1int,
{
    if i < s.len() {
        if is_ws_char(s[i]) {
            lemma_skip_trivia(s, i + 1);
        } else if comment_start(s, i) {
            lemma_skip_comment(s, i + 2);
        }
    }
}

pub proof fn lemma_skip_comment(s: Seq<char>, i: int)
    requires
        0 <= i <= s.len(),
    ensures
        i <= skip_comment(s, i) <= s.len(),
        skip_comment(s, i) < s.len() ==> !is_ws_char(s[skip_comment(s, i)]) && !comment_start(
            s,
            skip_comment(s, i),
        ),
    decreases s.len() - i, 0int,
{
    if i < s.len() {
        if s[i] == '\n' {
            lemma_skip_trivia(s, i + 1);
        } else {
            lemma_skip_comment(s, i + 1);
        }
    }
}

// ---------------------------------------------------------------------------
// Token boundaries and classification
// ---------------------------------------------------------------------------

/// The end of the fractional part of a number whose integer digit run ends
/// at `i`: a `.` is consumed only when a digit follows it.
pub open spec fn fraction_end(s: Seq<char>, i: int) -> int {
    if 0 <= i && i + 1 < s.len() && s[i] == '.' && is_digit_char(s[i + 1]) {
        digits_end(s, i + 1)
    } else {
        i
    }
}

/// The end of the exponent part of a number whose mantissa ends at `i`: an
/// exponent marker is consumed only when a digit, or a sign followed by a
/// digit, follows it; otherwise the number stops before the marker.
pub open spec fn exponent_end(s: Seq<char>, i: int) -> int {
    if 0 <= i && i < s.len() && (s[i] == 'e' || s[i] == 'E') {
        if i + 1 < s.len() && is_digit_char(s[i + 1]) {
            digits_end(s, i + 1)
        } else if i + 2 < s.len() && (s[i + 1] == '+' || s[i + 1] == '-') && is_digit_char(
            s[i + 2],
        ) {
            digits_end(s, i + 2)
        } else {
            i
        }
    } else {
        i
    }
}

/// The end of the number literal starting at the digit at `i`.
pub open spec fn number_end(s: Seq<char>, i: int) -> int {
    exponent_end(s, fraction_end(s, digits_end(s, i)))
}

/// The two-character symbols that are matched greedily before falling back
/// to a single-character symbol.
pub open spec fn is_compound_symbol(a: char, b: char) -> bool {
    b == '=' && (a == '+' || a == '-' || a == '*' || a == '/' || a == '%' || a == '=')
}

pub fn is_compound(a: char, b: char) -> (r: bool)
    ensures
        r == is_compound_symbol(a, b),
{
    b == '=' && (a == '+' || a == '-' || a == '*' || a == '/' || a == '%' || a == '=')
}

/// The fixed keyword set, compared case-sensitively.
pub open spec fn is_keyword_text(t: Seq<char>) -> bool {
    t == "let"@ || t == "mut"@ || t == "return"@
}

/// The end of the token whose first character stands at `start`; the length
/// of the text when `start` is at or past the end of the input (the token
/// there is EOF, whose text is empty).
pub open spec fn token_end(s: Seq<char>, start: int) -> int {
    if !(0 <= start && start < s.len()) {
        s.len() as int
    } else {
        let c = s[start];
        if is_digit_char(c) {
            number_end(s, start)
        } else if is_ident_start_char(c) {
            ident_end(s, start)
        } else if start + 1 < s.len() && is_compound_symbol(c, s[start + 1]) {
            start + 2
        } else {
            start + 1
        }
    }
}

/// The kind of the token whose first character stands at `start`.
pub open spec fn token_data_at(s: Seq<char>, start: int) -> TokenData {
    if !(0 <= start && start < s.len()) {
        TokenData::EOF
    } else {
        let c = s[start];
        if is_digit_char(c) {
            TokenData::NumberLiteral
        } else if is_ident_start_char(c) {
            if is_keyword_text(s.subrange(start, token_end(s, start))) {
                TokenData::Keyword
            } else {
                TokenData::Ident
            }
        } else {
            TokenData::Symbol
        }
    }
}

/// The text of the token whose first character stands at `start`.
pub open spec fn token_text_at(s: Seq<char>, start: int) -> Seq<char> {
    if !(0 <= start && start < s.len()) {
        Seq::<char>::empty()
    } else {
        s.subrange(start, token_end(s, start))
    }
}

pub proof fn lemma_token_end(s: Seq<char>, start: int)
    requires
        0 <= start < s.len(),
    ensures
        start < token_end(s, start) <= s.len(),
{
    let c = s[start];
    if is_digit_char(c) {
        lemma_digits_end(s, start);
        let d = digits_end(s, start);
        let f = fraction_end(s, d);
        if d + 1 < s.len() && s[d] == '.' && is_digit_char(s[d + 1]) {
            lemma_digits_end(s, d + 1);
        }
        assert(d <= f <= s.len());
        if 0 <= f && f < s.len() && (s[f] == 'e' || s[f] == 'E') {
            if f + 1 < s.len() && is_digit_char(s[f + 1]) {
                lemma_digits_end(s, f + 1);
            } else if f + 2 < s.len() && (s[f + 1] == '+' || s[f + 1] == '-') && is_digit_char(
                s[f + 2],
            ) {
                lemma_digits_end(s, f + 2);
            }
        }
    } else if is_ident_start_char(c) {
        lemma_ident_end(s, start);
    }
}

// ---------------------------------------------------------------------------
// Line and column accounting
// ---------------------------------------------------------------------------

/// The zero-based line number of position `p`: the number of newlines
/// strictly before `p`.
pub open spec fn line_of(s: Seq<char>, p: int) -> int
    decreases p,
{
    if p <= 0 {
        0
    } else {
        line_of(s, p - 1) + if s[p - 1] == '\n' {
            1int
        } else {
            0int
        }
    }
}

/// The zero-based column of position `p`: its distance from the start of
/// its line.
pub open spec fn col_of(s: Seq<char>, p: int) -> int
    decreases p,
{
    if p <= 0 {
        0
    } else if s[p - 1] == '\n' {
        0
    } else {
        col_of(s, p - 1) + 1
    }
}

pub proof fn lemma_line_col_bounds(s: Seq<char>, p: int)
    requires
        0 <= p,
    ensures
        0 <= line_of(s, p) <= p,
        0 <= col_of(s, p) <= p,
    decreases p,
{
    if p > 0 {
        lemma_line_col_bounds(s, p - 1);
    }
}

} // verus!
