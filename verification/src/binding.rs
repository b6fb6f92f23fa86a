//! A small standalone byte-level parser for variable bindings of the form
//! `let <name> = <digits>` / `mut <name> = <digits>`, with the grammar
//! stated exactly: keyword, spacing, an alphanumeric name, spacing, `=`,
//! spacing, and a digit run.

use vstd::prelude::*;
use vstd::slice::slice_index_get;

verus! {

/// A parsed variable binding.
#[derive(Debug, PartialEq, Eq)]
pub struct Binding {
    pub name: String,
    pub mutable: bool,
    pub value: String,
}

/// A space or a tab.
pub open spec fn is_space_byte(b: u8) -> bool {
    b == 32 || b == 9
}

/// An ASCII decimal digit.
pub open spec fn is_digit_byte(b: u8) -> bool {
    48 <= b <= 57
}

/// An ASCII letter or digit.
pub open spec fn is_alnum_byte(b: u8) -> bool {
    is_digit_byte(b) || (65 <= b <= 90) || (97 <= b <= 122)
}

pub open spec fn space_end(s: Seq<u8>, i: int) -> int
    decreases s.len() - i,
{
    if 0 <= i && i < s.len() && is_space_byte(s[i]) {
        space_end(s, i + 1)
    } else {
        i
    }
}

pub open spec fn alnum_end(s: Seq<u8>, i: int) -> int
    decreases s.len() - i,
{
    if 0 <= i && i < s.len() && is_alnum_byte(s[i]) {
        alnum_end(s, i + 1)
    } else {
        i
    }
}

pub open spec fn digit_run_end(s: Seq<u8>, i: int) -> int
    decreases s.len() - i,
{
    if 0 <= i && i < s.len() && is_digit_byte(s[i]) {
        digit_run_end(s, i + 1)
    } else {
        i
    }
}

/// The characters the given ASCII bytes stand for.
pub open spec fn bytes_as_chars(bs: Seq<u8>) -> Seq<char> {
    bs.map(|i: int, b: u8| b as char)
}

/// What the binding grammar accepts at the start of `s`: the mutability,
/// the name bytes, the value bytes, and how many bytes were consumed.  The
/// name may be empty; the spacings and the digit run may not.
pub open spec fn spec_binding(s: Seq<u8>) -> Option<(bool, Seq<u8>, Seq<u8>, int)> {
    let kw_let = s.len() >= 3 && s[0] == 108 && s[1] == 101 && s[2] == 116;
    let kw_mut = s.len() >= 3 && s[0] == 109 && s[1] == 117 && s[2] == 116;
    if !kw_let && !kw_mut {
        None
    } else {
        let p1 = space_end(s, 3);
        if p1 == 3 {
            None
        } else {
            let p2 = alnum_end(s, p1);
            let p3 = space_end(s, p2);
            if p3 == p2 {
                None
            } else if !(p3 < s.len() && s[p3] == 61) {
                None
            } else {
                let p4 = space_end(s, p3 + 1);
                if p4 == p3 + 1 {
                    None
                } else {
                    let p5 = digit_run_end(s, p4);
                    if p5 == p4 {
                        None
                    } else {
                        Some((kw_mut, s.subrange(p1, p2), s.subrange(p4, p5), p5))
                    }
                }
            }
        }
    }
}

/// Relies on `core::str::from_utf8` (with `str::to_owned` converting the
/// result): bytes below 128 decode to exactly the characters with the same
/// values.
#[verifier::external_body]
fn ascii_to_string(v: &[u8], from: usize, to: usize) -> (r: String)
    requires
        from <= to <= v@.len(),
        forall|i: int| from <= i < to ==> v@[i] < 128,
    ensures
        r@ == bytes_as_chars(v@.subrange(from as int, to as int)),
{
    match core::str::from_utf8(&v[from..to]) {
        Ok(s) => s.to_owned(),
        Err(_) => String::new(),
    }
}

fn is_space(b: u8) -> (r: bool)
    ensures
        r == is_space_byte(b),
{
    b == 32 || b == 9
}

fn is_alnum(b: u8) -> (r: bool)
    ensures
        r == is_alnum_byte(b),
{
    (48 <= b && b <= 57) || (65 <= b && b <= 90) || (97 <= b && b <= 122)
}

fn is_digit_b(b: u8) -> (r: bool)
    ensures
        r == is_digit_byte(b),
{
    48 <= b && b <= 57
}

/// Advances over a run of spaces.
fn scan_spaces(input: &[u8], from: usize) -> (r: usize)
    requires
        from <= input@.len(),
    ensures
        r as int == space_end(input@, from as int),
        from <= r <= input@.len(),
{
    let n = input.len();
    let mut i: usize = from;
    while i < n && is_space(*slice_index_get(input, i))
        invariant
            n == input@.len(),
            from <= i <= n,
            space_end(input@, i as int) == space_end(input@, from as int),
        decreases n - i,
    {
        i += 1;
    }
    i
}

/// Advances over a run of alphanumeric bytes.
fn scan_alnum(input: &[u8], from: usize) -> (r: usize)
    requires
        from <= input@.len(),
    ensures
        r as int == alnum_end(input@, from as int),
        from <= r <= input@.len(),
{
    let n = input.len();
    let mut i: usize = from;
    while i < n && is_alnum(*slice_index_get(input, i))
        invariant
            n == input@.len(),
            from <= i <= n,
            alnum_end(input@, i as int) == alnum_end(input@, from as int),
        decreases n - i,
    {
        i += 1;
    }
    i
}

/// Advances over a run of digits.
fn scan_digits(input: &[u8], from: usize) -> (r: usize)
    requires
        from <= input@.len(),
    ensures
        r as int == digit_run_end(input@, from as int),
        from <= r <= input@.len(),
{
    let n = input.len();
    let mut i: usize = from;
    while i < n && is_digit_b(*slice_index_get(input, i))
        invariant
            n == input@.len(),
            from <= i <= n,
            digit_run_end(input@, i as int) == digit_run_end(input@, from as int),
        decreases n - i,
    {
        i += 1;
    }
    i
}

/// Whether a byte may start an identifier: an underscore or an
/// alphanumeric byte.
pub fn ident_start(input: u8) -> (r: bool)
    ensures
        r == (input == 95 || is_alnum_byte(input)),
{
    input == 95 || is_alnum(input)
}

/// Whether `input` spells one of the binding keywords, `let` or `mut`.
pub open spec fn spec_is_binding_keyword(s: Seq<u8>) -> bool {
    s == seq![108u8, 101u8, 116u8] || s == seq![109u8, 117u8, 116u8]
}

/// True exactly when the bytes spell a binding keyword.
pub fn not_keyword(input: &[u8]) -> (r: bool)
    ensures
        r == spec_is_binding_keyword(input@),
{
    if input.len() != 3 {
        proof {
            assert(seq![108u8, 101u8, 116u8].len() == 3);
            assert(seq![109u8, 117u8, 116u8].len() == 3);
        }
        return false;
    }
    let b0 = *slice_index_get(input, 0);
    let b1 = *slice_index_get(input, 1);
    let b2 = *slice_index_get(input, 2);
    let r = (b0 == 108 && b1 == 101 && b2 == 116) || (b0 == 109 && b1 == 117 && b2 == 116);
    proof {
        if r {
            if b0 == 108 {
                assert(input@ =~= seq![108u8, 101u8, 116u8]);
            } else {
                assert(input@ =~= seq![109u8, 117u8, 116u8]);
            }
        } else {
            assert(input@[0] == b0 && input@[1] == b1 && input@[2] == b2);
        }
    }
    r
}

/// Parses a binding at the start of `input`.  Succeeds exactly when the
/// grammar matches, returning the binding and how many bytes it consumed;
/// trailing bytes are left for the caller.
pub fn binding(input: &[u8]) -> (r: Option<(Binding, usize)>)
    ensures
        match r {
            Some((b, consumed)) => {
                &&& spec_binding(input@) matches Some((m, name, value, end))
                &&& b.mutable == m
                &&& b.name@ == bytes_as_chars(name)
                &&& b.value@ == bytes_as_chars(value)
                &&& consumed as int == end
            },
            None => spec_binding(input@) is None,
        },
{
    let n = input.len();
    if n < 3 {
        return None;
    }
    let b0 = *slice_index_get(input, 0);
    let b1 = *slice_index_get(input, 1);
    let b2 = *slice_index_get(input, 2);
    let kw_let = b0 == 108 && b1 == 101 && b2 == 116;
    let kw_mut = b0 == 109 && b1 == 117 && b2 == 116;
    if !kw_let && !kw_mut {
        return None;
    }
    let p1 = scan_spaces(input, 3);
    if p1 == 3 {
        return None;
    }
    let p2 = scan_alnum(input, p1);
    let p3 = scan_spaces(input, p2);
    if p3 == p2 {
        return None;
    }
    if p3 == n || *slice_index_get(input, p3) != 61 {
        return None;
    }
    let p4 = scan_spaces(input, p3 + 1);
    if p4 == p3 + 1 {
        return None;
    }
    let p5 = scan_digits(input, p4);
    if p5 == p4 {
        return None;
    }
    proof {
        lemma_alnum_ascii(input@, p1 as int);
        lemma_digit_ascii(input@, p4 as int);
    }
    let name = ascii_to_string(input, p1, p2);
    let value = ascii_to_string(input, p4, p5);
    Some((Binding { name, mutable: kw_mut, value }, p5))
}

proof fn lemma_alnum_ascii(s: Seq<u8>, i: int)
    requires
        0 <= i <= s.len(),
    ensures
        forall|k: int| i <= k < alnum_end(s, i) ==> s[k] < 128,
        i <= alnum_end(s, i) <= s.len(),
    decreases s.len() - i,
{
    if i < s.len() && is_alnum_byte(s[i]) {
        lemma_alnum_ascii(s, i + 1);
    }
}

proof fn lemma_digit_ascii(s: Seq<u8>, i: int)
    requires
        0 <= i <= s.len(),
    ensures
        forall|k: int| i <= k < digit_run_end(s, i) ==> s[k] < 128,
        i <= digit_run_end(s, i) <= s.len(),
    decreases s.len() - i,
{
    if i < s.len() && is_digit_byte(s[i]) {
        lemma_digit_ascii(s, i + 1);
    }
}

} // verus!
