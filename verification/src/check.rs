//! The whole-pipeline call: parse a complete program, then run every
//! checker over the AST in one verification pass.

use vstd::prelude::*;

use crate::lex::scan::lemma_skip_trivia;
use crate::lex::scan::skip_trivia;
use crate::lex::scan::token_data_at;
use crate::lex::token::TokenData;
use crate::lex::tokenizer::IterTokenizer;
use crate::parse::ast::Block;
use crate::parse::errors::ParseError;
use crate::parse::parser::Parser;
use crate::verify::assignment_checker::AssignmentChecker;
use crate::verify::collector::ErrorCollector;
use crate::verify::scope::table_wf;
use crate::verify::scope::SymbolTable;
use crate::verify::symbol_checker::SymbolTableChecker;
use crate::verify::usage_checker::UsageChecker;

verus! {

/// Parses `source` and verifies the result.  A syntax error aborts at once
/// and is returned alone; semantic diagnostics are accumulated across all
/// checkers and, when any has error severity, returned together wrapped in
/// `VerifierError`.  On success the AST's identifiers carry resolved scope
/// indices, the symbol table maps each index to at most one binding, no
/// error-severity diagnostic was found, and the block is empty exactly when
/// the source holds nothing but whitespace and comments — on such a source
/// the call always succeeds.
pub fn parse_and_verify(source: &str) -> (r: Result<
    (Block, SymbolTable, ErrorCollector),
    ParseError,
>)
    ensures
        match r {
            Ok((block, table, diagnostics)) => {
                &&& diagnostics.errors_spec().len() == 0
                &&& table_wf(table@)
                &&& (block.statements@.len() == 0 <==> skip_trivia(source@, 0) == source@.len())
            },
            Err(e) => e matches ParseError::VerifierError { collection }
                ==> collection.errors_spec().len() > 0,
        },
        skip_trivia(source@, 0) == source@.len() ==> r is Ok,
{
    proof {
        lemma_skip_trivia(source@, 0);
    }
    let tokenizer = IterTokenizer::new(source);
    let mut parser = Parser::new(tokenizer);
    let block = match parser.block() {
        Ok(b) => b,
        Err(e) => {
            return Err(e);
        },
    };
    let mut diagnostics = ErrorCollector::new();
    let mut symbols = SymbolTableChecker::new();
    let resolved = symbols.check_block(&mut diagnostics, block);
    let table = symbols.into_table();
    let mut assignments = AssignmentChecker {  };
    assignments.check_block(&mut diagnostics, &resolved);
    let mut usage = UsageChecker {  };
    usage.check_block(&mut diagnostics, &resolved);
    if diagnostics.has_errors() {
        Err(ParseError::VerifierError { collection: diagnostics })
    } else {
        Ok((resolved, table, diagnostics))
    }
}

} // verus!
