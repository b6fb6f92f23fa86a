//! Tests for the standalone byte-level binding parser.

use protosnirk::binding::binding;
use protosnirk::binding::ident_start;
use protosnirk::binding::not_keyword;
use protosnirk::binding::Binding;

#[test]
fn binding_works() {
    let (parsed, consumed) = binding(&b"let foo = 12"[..]).unwrap();
    assert_eq!(consumed, b"let foo = 12".len());
    assert_eq!(
        parsed,
        Binding { name: "foo".to_string(), mutable: false, value: "12".to_string() }
    );

    let (parsed, consumed) = binding(b"mut foobarbaz = 1234").unwrap();
    assert_eq!(consumed, b"mut foobarbaz = 1234".len());
    assert_eq!(
        parsed,
        Binding { name: "foobarbaz".into(), mutable: true, value: "1234".into() }
    );

    let (parsed, consumed) = binding(b"let asdf = 22243").unwrap();
    assert_eq!(consumed, b"let asdf = 22243".len());
    assert_eq!(parsed, Binding { name: "asdf".into(), mutable: false, value: "22243".into() });
}

#[test]
fn binding_leaves_trailing_bytes() {
    let (parsed, consumed) = binding(b"let a = 5 extra").unwrap();
    assert_eq!(consumed, b"let a = 5".len());
    assert_eq!(parsed.name, "a".to_string());
    assert_eq!(parsed.value, "5".to_string());
}

#[test]
fn binding_rejects_malformed_input() {
    // keyword must be followed by spacing
    assert!(binding(b"letx = 1").is_none());
    // spacing is required around `=`
    assert!(binding(b"let x= 2").is_none());
    assert!(binding(b"let x =2").is_none());
    // the value needs at least one digit
    assert!(binding(b"let x = ").is_none());
    assert!(binding(b"let x = y").is_none());
    // no keyword at all
    assert!(binding(b"foo x = 2").is_none());
    // too short
    assert!(binding(b"le").is_none());
}

#[test]
fn ident_start_accepts_underscore_and_alphanumerics() {
    assert!(ident_start(b'_'));
    assert!(ident_start(b'a'));
    assert!(ident_start(b'Z'));
    assert!(ident_start(b'7'));
    assert!(!ident_start(b' '));
    assert!(!ident_start(b'='));
}

#[test]
fn not_keyword_recognizes_binding_keywords() {
    assert!(not_keyword(b"let"));
    assert!(not_keyword(b"mut"));
    assert!(!not_keyword(b"ret"));
    assert!(!not_keyword(b"lets"));
    assert!(!not_keyword(b""));
}
