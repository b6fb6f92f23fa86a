//! The shared diagnostics sink.  Verification-time diagnostics are
//! fail-slow: checkers keep running after a finding, and all findings are
//! returned together.

use vstd::prelude::*;

use crate::lex::token::Token;

verus! {

/// One diagnostic: the token it is about, other tokens it refers to, and a
/// human-readable message.
#[derive(Debug, PartialEq)]
pub struct VerifyError {
    pub token: Token,
    pub references: Vec<Token>,
    pub text: String,
}

impl VerifyError {
    pub fn new(token: Token, references: Vec<Token>, text: String) -> (r: VerifyError)
        ensures
            r.token == token,
            r.references == references,
            r.text == text,
    {
        VerifyError { token, references, text }
    }
}

/// Accumulates diagnostics.  Errors mean the program must not be handed to
/// code generation; warnings do not.
#[derive(Debug, PartialEq)]
pub struct ErrorCollector {
    errors: Vec<VerifyError>,
    warnings: Vec<VerifyError>,
}

impl ErrorCollector {
    pub closed spec fn errors_spec(&self) -> Seq<VerifyError> {
        self.errors@
    }

    pub closed spec fn warnings_spec(&self) -> Seq<VerifyError> {
        self.warnings@
    }

    /// An empty collector.
    pub fn new() -> (r: ErrorCollector)
        ensures
            r.errors_spec() =~= Seq::<VerifyError>::empty(),
            r.warnings_spec() =~= Seq::<VerifyError>::empty(),
    {
        ErrorCollector { errors: Vec::new(), warnings: Vec::new() }
    }

    /// Records an error-severity diagnostic; nothing already recorded is
    /// dropped.
    pub fn add_error(&mut self, error: VerifyError)
        ensures
            final(self).errors_spec() =~= old(self).errors_spec().push(error),
            final(self).warnings_spec() == old(self).warnings_spec(),
    {
        self.errors.push(error);
    }

    /// Records a warning-severity diagnostic; nothing already recorded is
    /// dropped.
    pub fn add_warning(&mut self, warning: VerifyError)
        ensures
            final(self).warnings_spec() =~= old(self).warnings_spec().push(warning),
            final(self).errors_spec() == old(self).errors_spec(),
    {
        self.warnings.push(warning);
    }

    pub fn get_errors(&self) -> (r: &Vec<VerifyError>)
        ensures
            r@ == self.errors_spec(),
    {
        &self.errors
    }

    pub fn get_warnings(&self) -> (r: &Vec<VerifyError>)
        ensures
            r@ == self.warnings_spec(),
    {
        &self.warnings
    }

    /// Whether any error-severity diagnostic was recorded.
    pub fn has_errors(&self) -> (r: bool)
        ensures
            r == (self.errors_spec().len() > 0),
    {
        self.errors.len() > 0
    }
}

} // verus!
