//! Tests for string interning, scope indices, the symbol-table builder,
//! and the whole parse-and-verify pipeline.

use protosnirk::check::parse_and_verify;
use protosnirk::lex::Intern;
use protosnirk::lex::StringPool;
use protosnirk::parse::ast::Expression;
use protosnirk::parse::ast::Statement;
use protosnirk::parse::ParseError;
use protosnirk::parse::types::FnType;
use protosnirk::parse::types::Type;
use protosnirk::verify::ScopeIndex;
use protosnirk::verify::SymbolTableBuilder;

#[test]
fn interning_twice_returns_the_same_handle() {
    let mut pool = StringPool::new();
    let first = pool.insert("snirk");
    let second = pool.insert("snirk");
    assert_eq!(first, second);
    assert_eq!(pool.len(), 1);
    assert_eq!(pool.get_text(first), "snirk".to_string());
}

#[test]
fn interning_distinct_texts_returns_distinct_handles() {
    let mut pool = StringPool::new();
    let a: Intern = pool.insert("alpha");
    let b: Intern = pool.insert("beta");
    assert_ne!(a, b);
    assert_eq!(pool.len(), 2);
    assert_eq!(pool.get_text(a), "alpha".to_string());
    assert_eq!(pool.get_text(b), "beta".to_string());
}

#[test]
fn prefilled_pool_deduplicates() {
    let initial = vec!["x".to_string(), "y".to_string(), "x".to_string()];
    let mut pool = StringPool::prefilled(initial);
    assert_eq!(pool.len(), 2);
    let x = pool.insert("x");
    assert_eq!(pool.get_text(x), "x".to_string());
    assert_eq!(pool.len(), 2);
}

#[test]
fn scope_index_operations_follow_the_discipline() {
    let mut index = ScopeIndex::default();
    assert_eq!(index, ScopeIndex::new(vec![0]));
    index.push();
    assert_eq!(index, ScopeIndex::new(vec![0, 0]));
    index.increment();
    assert_eq!(index, ScopeIndex::new(vec![0, 1]));
    index.increment();
    assert_eq!(index, ScopeIndex::new(vec![0, 2]));
    index.decrement();
    assert_eq!(index, ScopeIndex::new(vec![0, 1]));
    index.pop();
    assert_eq!(index, ScopeIndex::new(vec![0]));
    assert_eq!(index.len(), 1);
}

#[test]
fn builder_lookup_shadows_outer_scopes() {
    let mut builder = SymbolTableBuilder::new();
    builder.new_scope();
    builder.define_local("x".to_string(), ScopeIndex::new(vec![0]));
    builder.define_local("y".to_string(), ScopeIndex::new(vec![1]));
    builder.new_scope();
    builder.define_local("x".to_string(), ScopeIndex::new(vec![2, 0]));
    assert_eq!(builder.depth(), 2);
    // the inner x shadows the outer one
    assert_eq!(builder.get("x"), Some(ScopeIndex::new(vec![2, 0])));
    assert_eq!(builder.get("y"), Some(ScopeIndex::new(vec![1])));
    assert_eq!(builder.get("z"), None);
    // the innermost scope alone knows nothing of y
    assert_eq!(builder.get_local("x"), Some(ScopeIndex::new(vec![2, 0])));
    assert_eq!(builder.get_local("y"), None);
    // restricting the search to the outermost scope sees the outer x
    assert_eq!(builder.get_in_scope("x", 1), Some(ScopeIndex::new(vec![0])));
    assert_eq!(builder.get_in_scope("x", 0), None);
    let popped = builder.pop();
    assert!(popped.is_some());
    assert_eq!(builder.get("x"), Some(ScopeIndex::new(vec![0])));
}

#[test]
fn builder_define_global_reaches_the_root_scope() {
    let mut builder = SymbolTableBuilder::new();
    builder.new_scope();
    builder.new_scope();
    builder.define_global("g".to_string(), ScopeIndex::new(vec![7]));
    assert_eq!(builder.get("g"), Some(ScopeIndex::new(vec![7])));
    builder.pop();
    assert_eq!(builder.get("g"), Some(ScopeIndex::new(vec![7])));
}

#[test]
fn pipeline_accepts_a_well_formed_program() {
    let (block, table, diagnostics) = parse_and_verify("let x = 1 return x + 2").unwrap();
    assert_eq!(block.get_stmts().len(), 2);
    assert_eq!(table.len(), 1);
    assert_eq!(diagnostics.get_errors().len(), 0);
}

#[test]
fn pipeline_reports_undefined_reference() {
    // `let x = y` parses to a single immutable binding whose right side
    // refers to y; with no declaration of y in scope, verification reports
    // exactly one unresolved-name error.
    let err = parse_and_verify("let x = y").unwrap_err();
    match err {
        ParseError::VerifierError { collection } => {
            assert_eq!(collection.get_errors().len(), 1);
            assert_eq!(collection.get_errors()[0].token.text, "y".to_string());
            assert_eq!(
                collection.get_errors()[0].text,
                "Reference to undefined variable y".to_string()
            );
        },
        other => panic!("expected VerifierError, got {:?}", other),
    }
}

#[test]
fn pipeline_parses_immutable_binding_shape() {
    // The parse side of `let x = y`: one immutable declaration whose value
    // is a bare reference to y.
    let err_or_block = protosnirk::parse::Parser::new(protosnirk::lex::IterTokenizer::new(
        "let x = y",
    ))
    .block()
    .unwrap();
    assert_eq!(err_or_block.get_stmts().len(), 1);
    match &err_or_block.get_stmts()[0] {
        Statement::Declaration(decl) => {
            assert!(!decl.mutable);
            assert_eq!(decl.ident.token.text, "x".to_string());
            match &*decl.value {
                Expression::VariableRef(id) => assert_eq!(id.token.text, "y".to_string()),
                other => panic!("expected a variable reference, got {:?}", other),
            }
        },
        other => panic!("expected a declaration, got {:?}", other),
    }
}

#[test]
fn fn_type_finds_arguments_by_name() {
    let fn_type = FnType::new(
        Box::new(Type::Float),
        vec![("a".to_string(), Type::Float), ("b".to_string(), Type::Empty)],
    );
    assert_eq!(*fn_type.get_return(), Type::Float);
    assert_eq!(fn_type.get_args().len(), 2);
    let (ix, t) = fn_type.get_arg("b").unwrap();
    assert_eq!(ix, 1);
    assert_eq!(*t, Type::Empty);
    assert!(fn_type.get_arg("c").is_none());
    let recovered = Type::Fn(fn_type).expect_fn();
    assert_eq!(recovered.get_args()[0].0, "a".to_string());
}

#[test]
fn pipeline_accepts_trivia_only_sources() {
    // A source holding nothing but whitespace and comments always succeeds
    // and yields an empty block.
    let (block, table, diagnostics) = parse_and_verify("  // nothing here\n\t ").unwrap();
    assert_eq!(block.get_stmts().len(), 0);
    assert_eq!(table.len(), 0);
    assert_eq!(diagnostics.get_errors().len(), 0);
    let (block, _, _) = parse_and_verify("").unwrap();
    assert_eq!(block.get_stmts().len(), 0);
}
