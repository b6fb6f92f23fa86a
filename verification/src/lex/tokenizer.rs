//! The tokenizer: a lazy, restartable-per-call sequence of tokens over a
//! character cursor.  Reaching the end of the input yields an `EOF` token,
//! and every later call yields the same `EOF` token again.

use vstd::prelude::*;

use crate::lex::scan::col_of;
use crate::lex::scan::comment_start;
use crate::lex::scan::digits_end;
use crate::lex::scan::exponent_end;
use crate::lex::scan::fraction_end;
use crate::lex::scan::ident_end;
use crate::lex::scan::is_compound;
use crate::lex::scan::is_digit;
use crate::lex::scan::is_digit_char;
use crate::lex::scan::is_ident_cont;
use crate::lex::scan::is_ident_start;
use crate::lex::scan::is_keyword_text;
use crate::lex::scan::is_ws;
use crate::lex::scan::lemma_digits_end;
use crate::lex::scan::lemma_skip_trivia;
use crate::lex::scan::lemma_token_end;
use crate::lex::scan::line_of;
use crate::lex::scan::number_end;
use crate::lex::scan::skip_comment;
use crate::lex::scan::skip_trivia;
use crate::lex::scan::str_eq;
use crate::lex::scan::token_data_at;
use crate::lex::scan::token_end;
use crate::lex::scan::token_text_at;
use crate::lex::textiter::PeekTextIter;
use crate::lex::token::Token;
use crate::lex::token::TokenData;

verus! {

/// What one call of [`IterTokenizer::next`] does when the cursor stands at
/// position `p` of `s`: trivia is skipped, the token starting there is
/// classified and carved out, its location is the line/column of its first
/// character, and the cursor ends at the token's end.
pub open spec fn next_token_at(s: Seq<char>, p: int, t: Token, p_after: int) -> bool {
    let start = skip_trivia(s, p);
    &&& t.location.start_char as int == start
    &&& t.location.start_line as int == line_of(s, start)
    &&& t.location.start_column as int == col_of(s, start)
    &&& t.data == token_data_at(s, start)
    &&& t.text@ == token_text_at(s, start)
    &&& p_after == token_end(s, start)
}

/// Law: tokens never overlap and their locations strictly advance.  When
/// one call of `next` yields a non-`EOF` token `t1` and the following call
/// yields `t2`, the earlier token ends at or before the start of the later
/// one, which lies strictly past the earlier token's start.
pub proof fn lemma_tokens_advance(
    s: Seq<char>,
    p: int,
    t1: Token,
    p1: int,
    t2: Token,
    p2: int,
)
    requires
        0 <= p <= s.len(),
        next_token_at(s, p, t1, p1),
        next_token_at(s, p1, t2, p2),
        t1.data != TokenData::EOF,
    ensures
        t1.location.start_char + t1.text@.len() <= t2.location.start_char as int,
        (t1.location.start_char as int) < t2.location.start_char as int,
{
    lemma_skip_trivia(s, p);
    let start1 = skip_trivia(s, p);
    lemma_token_end(s, start1);
    lemma_skip_trivia(s, p1);
}

/// A tokenizer over an in-memory source text.
#[derive(Debug)]
pub struct IterTokenizer {
    iter: PeekTextIter,
}

impl IterTokenizer {
    /// The characters of the source text.
    pub closed spec fn src(&self) -> Seq<char> {
        self.iter.src()
    }

    /// The position of the next unconsumed character.
    pub closed spec fn pos(&self) -> int {
        self.iter.pos_spec()
    }

    pub closed spec fn wf(&self) -> bool {
        self.iter.wf()
    }

    /// The number of unconsumed characters.
    pub open spec fn remaining(&self) -> int {
        self.src().len() - self.pos()
    }

    /// A well-formed tokenizer stands between 0 and the end of its text.
    pub proof fn lemma_wf(&self)
        requires
            self.wf(),
        ensures
            0 <= self.pos() <= self.src().len(),
    {
        self.iter.lemma_wf();
    }

    /// A tokenizer at the start of `input`.
    pub fn new(input: &str) -> (r: IterTokenizer)
        ensures
            r.wf(),
            r.src() == input@,
            r.pos() == 0,
    {
        IterTokenizer { iter: PeekTextIter::new(input) }
    }

    /// Produces the next token.  Whitespace and line comments before it are
    /// skipped; at end of input the token is `EOF`, located at the final
    /// cursor position, and every further call returns it again.
    ///
    /// Locations strictly advance: a non-`EOF` token starts at or after the
    /// old cursor position and ends, exactly `text` characters later, at the
    /// new one.
    pub fn next(&mut self) -> (t: Token)
        requires
            old(self).wf(),
        ensures
            final(self).wf(),
            final(self).src() == old(self).src(),
            next_token_at(old(self).src(), old(self).pos(), t, final(self).pos()),
            old(self).pos() <= t.location.start_char as int,
            t.location.start_char as int + t.text@.len() == final(self).pos()
                <= old(self).src().len(),
            t.data != TokenData::EOF <==> (t.location.start_char as int) < old(self).src().len(),
            t.data != TokenData::EOF ==> t.text@.len() > 0,
            t.data == TokenData::EOF ==> final(self).pos() == old(self).src().len()
                && t.text@.len() == 0,
    {
        proof {
            self.iter.lemma_wf();
        }
        let ghost s = self.src();
        let ghost p0 = self.pos();
        self.skip_trivia_exec();
        let ghost start = self.pos();
        proof {
            lemma_skip_trivia(s, p0);
        }
        let location = self.iter.get_location();
        let start_u = self.iter.position();
        match self.iter.peek() {
            None => {
                assert(start == s.len());
                Token { data: TokenData::EOF, text: String::new(), location }
            },
            Some(c) => {
                assert(c == s[start]);
                proof {
                    lemma_token_end(s, start);
                }
                if is_digit(c) {
                    self.scan_number();
                    let end_u = self.iter.position();
                    let text = self.iter.text_range(start_u, end_u);
                    Token { data: TokenData::NumberLiteral, text, location }
                } else if is_ident_start(c) {
                    self.scan_ident();
                    let end_u = self.iter.position();
                    let text = self.iter.text_range(start_u, end_u);
                    let is_kw = str_eq(text.as_str(), "let") || str_eq(text.as_str(), "mut")
                        || str_eq(text.as_str(), "return");
                    assert(is_kw == is_keyword_text(text@));
                    let data = if is_kw {
                        TokenData::Keyword
                    } else {
                        TokenData::Ident
                    };
                    Token { data, text, location }
                } else {
                    self.iter.next();
                    let second = self.iter.peek();
                    let two = match second {
                        Some(c2) => is_compound(c, c2),
                        None => false,
                    };
                    if two {
                        self.iter.next();
                    }
                    let end_u = self.iter.position();
                    let text = self.iter.text_range(start_u, end_u);
                    assert(self.pos() == token_end(s, start));
                    Token { data: TokenData::Symbol, text, location }
                }
            },
        }
    }

    /// Advances the cursor over whitespace and line comments.
    fn skip_trivia_exec(&mut self)
        requires
            old(self).wf(),
        ensures
            final(self).wf(),
            final(self).src() == old(self).src(),
            final(self).pos() == skip_trivia(old(self).src(), old(self).pos()),
            old(self).pos() <= final(self).pos() <= old(self).src().len(),
    {
        proof {
            self.iter.lemma_wf();
        }
        let ghost s = self.src();
        let ghost p0 = self.pos();
        loop
            invariant
                self.wf(),
                self.src() == s,
                0 <= p0 <= self.pos() <= s.len(),
                skip_trivia(s, self.pos()) == skip_trivia(s, p0),
            ensures
                self.wf(),
                self.src() == s,
                p0 <= self.pos() <= s.len(),
                self.pos() == skip_trivia(s, p0),
            decreases s.len() - self.pos(),
        {
            match self.iter.peek() {
                None => {
                    break ;
                },
                Some(c) => {
                    if is_ws(c) {
                        self.iter.next();
                    } else if c == '/' {
                        let after = self.iter.peek_at(1);
                        let second_slash = match after {
                            Some(c2) => c2 == '/',
                            None => false,
                        };
                        if second_slash {
                            assert(comment_start(s, self.pos()));
                            self.iter.next();
                            self.iter.next();
                            self.skip_comment_exec();
                        } else {
                            assert(!comment_start(s, self.pos()));
                            break ;
                        }
                    } else {
                        assert(!comment_start(s, self.pos()));
                        break ;
                    }
                },
            }
        }
    }

    /// Advances the cursor over the rest of a line comment, consuming the
    /// terminating newline when there is one.
    fn skip_comment_exec(&mut self)
        requires
            old(self).wf(),
        ensures
            final(self).wf(),
            final(self).src() == old(self).src(),
            skip_trivia(old(self).src(), final(self).pos()) == skip_comment(
                old(self).src(),
                old(self).pos(),
            ),
            old(self).pos() <= final(self).pos() <= old(self).src().len(),
    {
        proof {
            self.iter.lemma_wf();
        }
        let ghost s = self.src();
        let ghost p0 = self.pos();
        loop
            invariant_except_break
                skip_comment(s, self.pos()) == skip_comment(s, p0),
            invariant
                self.wf(),
                self.src() == s,
                0 <= p0 <= self.pos() <= s.len(),
            ensures
                self.wf(),
                self.src() == s,
                p0 <= self.pos() <= s.len(),
                skip_trivia(s, self.pos()) == skip_comment(s, p0),
            decreases s.len() - self.pos(),
        {
            match self.iter.peek() {
                None => {
                    break ;
                },
                Some(c) => {
                    self.iter.next();
                    if c == '\n' {
                        break ;
                    }
                },
            }
        }
    }

    /// Advances the cursor over a maximal run of decimal digits.
    fn scan_digits(&mut self)
        requires
            old(self).wf(),
        ensures
            final(self).wf(),
            final(self).src() == old(self).src(),
            final(self).pos() == digits_end(old(self).src(), old(self).pos()),
            old(self).pos() <= final(self).pos() <= old(self).src().len(),
    {
        proof {
            self.iter.lemma_wf();
        }
        let ghost s = self.src();
        let ghost p0 = self.pos();
        loop
            invariant
                self.wf(),
                self.src() == s,
                0 <= p0 <= self.pos() <= s.len(),
                digits_end(s, self.pos()) == digits_end(s, p0),
            ensures
                self.wf(),
                self.src() == s,
                p0 <= self.pos() <= s.len(),
                self.pos() == digits_end(s, p0),
            decreases s.len() - self.pos(),
        {
            match self.iter.peek() {
                None => {
                    break ;
                },
                Some(c) => {
                    if is_digit(c) {
                        self.iter.next();
                    } else {
                        break ;
                    }
                },
            }
        }
    }

    /// Advances the cursor over a maximal run of identifier characters.
    fn scan_ident(&mut self)
        requires
            old(self).wf(),
        ensures
            final(self).wf(),
            final(self).src() == old(self).src(),
            final(self).pos() == ident_end(old(self).src(), old(self).pos()),
            old(self).pos() <= final(self).pos() <= old(self).src().len(),
    {
        proof {
            self.iter.lemma_wf();
        }
        let ghost s = self.src();
        let ghost p0 = self.pos();
        loop
            invariant
                self.wf(),
                self.src() == s,
                0 <= p0 <= self.pos() <= s.len(),
                ident_end(s, self.pos()) == ident_end(s, p0),
            ensures
                self.wf(),
                self.src() == s,
                p0 <= self.pos() <= s.len(),
                self.pos() == ident_end(s, p0),
            decreases s.len() - self.pos(),
        {
            match self.iter.peek() {
                None => {
                    break ;
                },
                Some(c) => {
                    if is_ident_cont(c) {
                        self.iter.next();
                    } else {
                        break ;
                    }
                },
            }
        }
    }

    /// Advances the cursor over a number literal: a digit run, an optional
    /// fraction (`.` must be followed by a digit to count), and an optional
    /// exponent (the marker must be followed by a digit, or by a sign and a
    /// digit, to count).
    fn scan_number(&mut self)
        requires
            old(self).wf(),
            0 <= old(self).pos() < old(self).src().len(),
            is_digit_char(old(self).src()[old(self).pos()]),
        ensures
            final(self).wf(),
            final(self).src() == old(self).src(),
            final(self).pos() == number_end(old(self).src(), old(self).pos()),
            old(self).pos() < final(self).pos() <= old(self).src().len(),
    {
        let ghost s = self.src();
        let ghost p0 = self.pos();
        proof {
            self.iter.lemma_wf();
            lemma_digits_end(s, p0);
        }
        self.scan_digits();
        let ghost d = self.pos();
        let dot = self.iter.peek();
        let dot_is = match dot {
            Some(c) => c == '.',
            None => false,
        };
        if dot_is {
            let after = self.iter.peek_at(1);
            let frac = match after {
                Some(c2) => is_digit(c2),
                None => false,
            };
            if frac {
                proof {
                    lemma_digits_end(s, d + 1);
                }
                self.iter.next();
                self.scan_digits();
            }
        }
        let ghost f = self.pos();
        assert(f == fraction_end(s, d));
        let e = self.iter.peek();
        let e_is = match e {
            Some(c) => c == 'e' || c == 'E',
            None => false,
        };
        if e_is {
            let after = self.iter.peek_at(1);
            let digit_next = match after {
                Some(c1) => is_digit(c1),
                None => false,
            };
            if digit_next {
                proof {
                    lemma_digits_end(s, f + 1);
                }
                self.iter.next();
                self.scan_digits();
            } else {
                let sign_next = match after {
                    Some(c1) => c1 == '+' || c1 == '-',
                    None => false,
                };
                if sign_next {
                    let after2 = self.iter.peek_at(2);
                    let digit_after_sign = match after2 {
                        Some(c2) => is_digit(c2),
                        None => false,
                    };
                    if digit_after_sign {
                        proof {
                            lemma_digits_end(s, f + 2);
                        }
                        self.iter.next();
                        self.iter.next();
                        self.scan_digits();
                    }
                }
            }
        }
        assert(self.pos() == exponent_end(s, f));
    }
}

} // verus!
