use calc_engine::EvalError;
use calc_engine::History;
use calc_engine::Parser;
use calc_engine::Stmt;
use calc_engine::Tokenizer;

fn parse_expr(s: &str) -> calc_engine::Expr {
    let tokens = Tokenizer::new(s.chars().collect()).into_tokens().unwrap();
    match Parser::new(tokens, Vec::new()).parse().unwrap() {
        Stmt::Expr(e) => e,
        other => panic!("expected an expression, got {:?}", other),
    }
}

#[test]
fn history_deduplicates_entries() {
    let mut h = History::new();
    h.record(parse_expr("1 + 2"));
    h.record(parse_expr("3 * 4"));
    h.record(parse_expr("1 + 2"));
    h.record(parse_expr("1+2"));
    assert_eq!(h.len(), 2);
}

#[test]
fn history_select_walks_entries() {
    let mut h = History::new();
    assert_eq!(h.select(true), None);
    h.record(parse_expr("1 + 2"));
    h.record(parse_expr("3 * 4"));
    assert_eq!(h.select(true).as_deref(), Some("3 * 4"));
    assert_eq!(h.select(true).as_deref(), Some("1 + 2"));
    assert_eq!(h.select(true).as_deref(), Some("1 + 2"));
    assert_eq!(h.select(false).as_deref(), Some("3 * 4"));
    assert_eq!(h.select(false).as_deref(), Some("3 * 4"));
}

#[test]
fn history_remove_and_clear() {
    let mut h = History::new();
    h.record(parse_expr("1 + 2"));
    h.record(parse_expr("3 * 4"));
    h.select(true);
    h.remove_selected();
    assert_eq!(h.len(), 1);
    h.clear();
    assert_eq!(h.len(), 0);
}

#[test]
fn error_messages_name_the_offender() {
    assert_eq!(
        EvalError::UnknownVariable("foo".to_string()).message(),
        "unknown variable: foo"
    );
    assert_eq!(
        EvalError::UndefinedFunction("bar".to_string()).message(),
        "undefined function: bar"
    );
    assert_eq!(
        EvalError::ArityMismatch("baz".to_string()).message(),
        "wrong number of arguments: baz"
    );
    assert_eq!(
        EvalError::TooDeep("rec".to_string()).message(),
        "call depth exceeded: rec"
    );
}

#[test]
fn formatted_log_call_keeps_its_base() {
    let e = parse_expr("log 2 (8) + 1");
    assert_eq!(e.format(), "log 2(8) + 1");
    let reparsed = parse_expr(&e.format());
    assert_eq!(reparsed, e);
}
