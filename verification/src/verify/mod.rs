//! Semantic verification: scope addressing, the symbol table, the shared
//! diagnostics sink, and the AST-walking checkers.

pub mod assignment_checker;
pub mod collector;
pub mod constant_checker;
pub mod scope;
pub mod symbol_checker;
pub mod usage_checker;

pub use assignment_checker::AssignmentChecker;
pub use collector::ErrorCollector;
pub use collector::VerifyError;
pub use constant_checker::ConstantAssembler;
pub use scope::ScopeIndex;
pub use scope::Symbol;
pub use scope::SymbolTable;
pub use scope::SymbolTableBuilder;
pub use symbol_checker::SymbolTableChecker;
pub use usage_checker::UsageChecker;
