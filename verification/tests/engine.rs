use calc_engine::EvalError;
use calc_engine::Expr;
use calc_engine::Instr;
use calc_engine::Interpreter;
use calc_engine::ParseErr;
use calc_engine::Parser;
use calc_engine::Stmt;
use calc_engine::Token;
use calc_engine::TokenizeError;
use calc_engine::Tokenizer;

fn tokens_of(s: &str) -> Vec<Token> {
    Tokenizer::new(s.chars().collect()).into_tokens().expect("tokenize failed")
}

fn parse_line(s: &str) -> Result<Stmt, ParseErr> {
    Parser::new(tokens_of(s), Vec::new()).parse()
}

fn run_prog(prog: &[Instr]) -> f64 {
    let mut st: Vec<f64> = Vec::new();
    for ins in prog {
        match ins {
            Instr::Push(w) => st.push(w.parse::<f64>().expect("bad numeral")),
            Instr::Neg => {
                let a = st.pop().unwrap();
                st.push(-a);
            }
            Instr::AbsVal => {
                let a = st.pop().unwrap();
                st.push(a.abs());
            }
            Instr::Add => {
                let b = st.pop().unwrap();
                let a = st.pop().unwrap();
                st.push(a + b);
            }
            Instr::Sub => {
                let b = st.pop().unwrap();
                let a = st.pop().unwrap();
                st.push(a - b);
            }
            Instr::Mul => {
                let b = st.pop().unwrap();
                let a = st.pop().unwrap();
                st.push(a * b);
            }
            Instr::Div => {
                let b = st.pop().unwrap();
                let a = st.pop().unwrap();
                st.push(a / b);
            }
            Instr::Rem => {
                let b = st.pop().unwrap();
                let a = st.pop().unwrap();
                st.push(a % b);
            }
            Instr::Pow => {
                let b = st.pop().unwrap();
                let a = st.pop().unwrap();
                st.push(a.powf(b));
            }
            Instr::Sin => {
                let a = st.pop().unwrap();
                st.push(a.sin());
            }
            Instr::Cos => {
                let a = st.pop().unwrap();
                st.push(a.cos());
            }
            Instr::Tan => {
                let a = st.pop().unwrap();
                st.push(a.tan());
            }
            Instr::Ln => {
                let a = st.pop().unwrap();
                st.push(a.ln());
            }
            Instr::LogBase(w) => {
                let base = w.parse::<f64>().expect("bad base");
                let a = st.pop().unwrap();
                st.push(a.log(base));
            }
        }
    }
    assert_eq!(st.len(), 1, "program left a bad stack");
    st[0]
}

/// Evaluates one input line against the interpreter, as the application
/// shell does: `Ok(Some(v))` for a computed value, `Ok(None)` for a
/// declaration, `Err(text)` for any tokenize/parse/eval error.
fn eval_line(it: &mut Interpreter, s: &str) -> Result<Option<f64>, String> {
    let tokens = match Tokenizer::new(s.chars().collect()).into_tokens() {
        Ok(t) => t,
        Err(_) => return Err("tokenize error".to_string()),
    };
    match Parser::new(tokens, Vec::new()).parse() {
        Err(e) => Err(e.message()),
        Ok(Stmt::Fn(name, params, body)) => {
            it.declare_function(name, params, body);
            Ok(None)
        }
        Ok(Stmt::Expr(e)) => {
            let prog = it.compile(&e).map_err(|er| er.message())?;
            let v = run_prog(&prog);
            it.record_result(None, format!("{}", v));
            Ok(Some(v))
        }
        Ok(Stmt::Assign(name, e)) => {
            let prog = it.compile(&e).map_err(|er| er.message())?;
            let v = run_prog(&prog);
            it.record_result(Some(name), format!("{}", v));
            Ok(Some(v))
        }
    }
}

fn eval_value(it: &mut Interpreter, s: &str) -> f64 {
    eval_line(it, s).expect("evaluation failed").expect("no value")
}

fn check(tokens: Vec<Token>, expected: Expr) {
    let mut parser = Parser::new(tokens, Vec::new());
    let stmt = parser.parse().unwrap();
    match stmt {
        Stmt::Expr(expr) => assert_eq!(expr, expected),
        other => panic!("expected a bare expression, got {:?}", other),
    }
}

fn num(s: &str) -> Expr {
    Expr::Num(s.to_string())
}

#[test]
fn simple_add() {
    let tokens = vec![
        Token::Num("10".to_string()),
        Token::Plus,
        Token::Num("5".to_string()),
        Token::Eoe,
    ];
    let expr = Expr::Binary(Box::new(num("10")), Token::Plus, Box::new(num("5")));
    check(tokens, expr);
}

#[test]
fn simple_mult() {
    let tokens = vec![
        Token::Num("20".to_string()),
        Token::Mult,
        Token::Num("5".to_string()),
        Token::Eoe,
    ];
    let expr = Expr::Binary(Box::new(num("20")), Token::Mult, Box::new(num("5")));
    check(tokens, expr);
}

#[test]
fn grouping() {
    let tokens = vec![
        Token::LParen,
        Token::Num("1".to_string()),
        Token::Plus,
        Token::Num("2".to_string()),
        Token::RParen,
        Token::Mult,
        Token::Num("5".to_string()),
        Token::Eoe,
    ];
    let expr = Expr::Binary(
        Box::new(Expr::Grouping(Box::new(Expr::Binary(
            Box::new(num("1")),
            Token::Plus,
            Box::new(num("2")),
        )))),
        Token::Mult,
        Box::new(num("5")),
    );
    check(tokens, expr);
}

#[test]
fn negative() {
    let tokens = vec![
        Token::Minus,
        Token::LParen,
        Token::Num("5".to_string()),
        Token::RParen,
        Token::Div,
        Token::Num("1".to_string()),
        Token::Eoe,
    ];
    let expr = Expr::Binary(
        Box::new(Expr::Negative(Box::new(Expr::Grouping(Box::new(num("5")))))),
        Token::Div,
        Box::new(num("1")),
    );
    check(tokens, expr);
}

#[test]
fn test_missing_closing_paren() {
    let tokens = vec![
        Token::Minus,
        Token::LParen,
        Token::Num("5".to_string()),
        Token::Eoe,
    ];
    if let Err(err) = Parser::new(tokens, Vec::new()).parse() {
        assert_eq!(
            err,
            ParseErr::new(Token::RParen, "Missing closing parentheses")
        );
    } else {
        panic!("Didn't return error");
    }
}

#[test]
fn test_variable() {
    let tokens = vec![
        Token::Var('a'),
        Token::Plus,
        Token::Num("3".to_string()),
        Token::Eoe,
    ];
    let mut parser = Parser::new(tokens, vec![('a', "1".to_string())]);
    let expr = Expr::Binary(Box::new(num("1")), Token::Plus, Box::new(num("3")));
    match parser.parse().unwrap() {
        Stmt::Expr(parsed) => assert_eq!(parsed, expr),
        other => panic!("expected a bare expression, got {:?}", other),
    }
}

#[test]
fn unknown_single_letter_variable_is_a_parse_error() {
    let tokens = vec![Token::Var('a'), Token::Eoe];
    let err = Parser::new(tokens, Vec::new()).parse().unwrap_err();
    assert_eq!(err, ParseErr::new(Token::Var('a'), "Unknown variable"));
}

#[test]
fn create_and_call_function() {
    let mut it = Interpreter::new();
    assert_eq!(eval_line(&mut it, "fn foo(x, y) x + y"), Ok(None));
    assert_eq!(eval_value(&mut it, "foo (1, 2)"), 3.0);
}

#[test]
fn test_empty_input() {
    let mut it = Interpreter::new();
    let r = eval_line(&mut it, "");
    assert!(r.is_err());
}

#[test]
fn test_built_in_fns() {
    let mut it = Interpreter::new();
    eval_line(&mut it, "fn sq(x) x ^ 2").unwrap();
    eval_line(&mut it, "fn sqrt(x) x ^ 0.5").unwrap();
    eval_line(&mut it, "fn cube(x) x ^ 3").unwrap();
    eval_line(&mut it, "fn cbrt(x) x ^ 0.3333333333333333").unwrap();
    assert_eq!(eval_value(&mut it, "sq(2)"), 4.0);
    assert_eq!(eval_value(&mut it, "sqrt(16)"), 4.0);
    assert_eq!(eval_value(&mut it, "cube(2)"), 8.0);
    assert!((eval_value(&mut it, "cbrt(8)") - 2.0).abs() < 1e-12);
}

#[test]
fn test_assignment() {
    let mut it = Interpreter::new();
    eval_line(&mut it, "fn sqrt(x) x ^ 0.5").unwrap();
    eval_value(&mut it, "let foo = sqrt(144)");
    assert_eq!(eval_value(&mut it, "foo"), 12.0);
}

#[test]
fn test_rc_file() {
    let mut it = Interpreter::new();
    eval_value(&mut it, "let x = 5");
    eval_line(&mut it, "fn foo(a, b) a + b * 5").unwrap();
    let persisted = it.serialize_env();

    let mut fresh = Interpreter::new();
    for line in persisted.lines() {
        eval_line(&mut fresh, line).unwrap();
    }
    assert_eq!(eval_value(&mut fresh, "x"), 5.0);
    assert_eq!(eval_value(&mut fresh, "foo(2, 3)"), 17.0);
}

#[test]
fn precedence() {
    let mut it = Interpreter::new();
    assert_eq!(eval_value(&mut it, "1 + 2 * 3"), 7.0);
    assert_eq!(eval_value(&mut it, "(1 + 2) * 3"), 9.0);
    assert_eq!(eval_value(&mut it, "2 ^ 3 ^ 2"), 64.0);
}

#[test]
fn unary_chaining() {
    let mut it = Interpreter::new();
    assert_eq!(eval_value(&mut it, "--5"), 5.0);
    assert_eq!(eval_value(&mut it, "-(5)/1"), -5.0);
}

#[test]
fn wrong_arity_is_an_eval_error() {
    let mut it = Interpreter::new();
    eval_line(&mut it, "fn foo(x, y) x + y").unwrap();
    let stmt = parse_line("foo(1)").unwrap();
    match stmt {
        Stmt::Expr(e) => match it.compile(&e) {
            Err(EvalError::ArityMismatch(name)) => assert_eq!(name, "foo"),
            other => panic!("expected an arity error, got {:?}", other),
        },
        other => panic!("expected a bare expression, got {:?}", other),
    }
}

#[test]
fn unknown_identifier_is_an_eval_error() {
    let it = Interpreter::new();
    let stmt = parse_line("zzz + 1").unwrap();
    match stmt {
        Stmt::Expr(e) => match it.compile(&e) {
            Err(EvalError::UnknownVariable(name)) => assert_eq!(name, "zzz"),
            other => panic!("expected an unknown-variable error, got {:?}", other),
        },
        other => panic!("expected a bare expression, got {:?}", other),
    }
}

#[test]
fn undefined_function_is_an_eval_error() {
    let it = Interpreter::new();
    let stmt = parse_line("nope(1)").unwrap();
    match stmt {
        Stmt::Expr(e) => match it.compile(&e) {
            Err(EvalError::UndefinedFunction(name)) => assert_eq!(name, "nope"),
            other => panic!("expected an undefined-function error, got {:?}", other),
        },
        other => panic!("expected an expression, got {:?}", other),
    }
}

#[test]
fn self_referential_function_hits_the_depth_bound() {
    let mut it = Interpreter::new();
    eval_line(&mut it, "fn rec(x) rec(x)").unwrap();
    let stmt = parse_line("rec(1)").unwrap();
    match stmt {
        Stmt::Expr(e) => match it.compile(&e) {
            Err(EvalError::TooDeep(name)) => assert_eq!(name, "rec"),
            other => panic!("expected a depth error, got {:?}", other),
        },
        other => panic!("expected an expression, got {:?}", other),
    }
}

#[test]
fn reset_vars_preserves_functions() {
    let mut it = Interpreter::new();
    eval_line(&mut it, "fn foo(x) x + 1").unwrap();
    eval_value(&mut it, "let bar = 41");
    assert_eq!(eval_value(&mut it, "bar"), 41.0);
    it.reset_vars();
    assert!(eval_line(&mut it, "bar").is_err());
    assert_eq!(eval_value(&mut it, "foo(41)"), 42.0);
}

#[test]
fn ans_is_rebound_after_each_evaluation() {
    let mut it = Interpreter::new();
    assert_eq!(eval_value(&mut it, "2 + 3"), 5.0);
    assert_eq!(eval_value(&mut it, "ans * 2"), 10.0);
    assert_eq!(eval_value(&mut it, "let t = ans + 1"), 11.0);
    assert_eq!(eval_value(&mut it, "ans"), 11.0);
}

#[test]
fn format_then_reparse_is_identity() {
    let lines = [
        "1 + 2 * 3",
        "(1 + 2) * 3",
        "2^3^2",
        "--5",
        "|1 - 4|",
        "sin(1) + cos(2) * tan(3)",
        "ln(10) / log 2 (8)",
        "foo(1, 2 + 3, |4|)",
        "x + y * z",
        "1.25 % 3",
    ];
    for line in lines {
        let stmt = parse_line(line).unwrap();
        let expr = match stmt {
            Stmt::Expr(e) => e,
            other => panic!("expected an expression, got {:?}", other),
        };
        let printed = expr.format();
        let reparsed = match parse_line(&printed).unwrap() {
            Stmt::Expr(e) => e,
            other => panic!("expected an expression, got {:?}", other),
        };
        assert_eq!(reparsed, expr, "reparse of {:?} changed the tree", printed);
    }
}

#[test]
fn numeral_round_trip() {
    let mut it = Interpreter::new();
    let stmt = parse_line("3.25").unwrap();
    match stmt {
        Stmt::Expr(ref e) => assert_eq!(*e, num("3.25")),
        ref other => panic!("expected a numeral, got {:?}", other),
    }
    assert_eq!(eval_value(&mut it, "3.25"), 3.25);
}

#[test]
fn malformed_numeral_is_a_tokenize_error() {
    let r = Tokenizer::new("1.2.3 + 4".chars().collect()).into_tokens();
    assert_eq!(
        r,
        Err(TokenizeError::MalformedNumeral("1.2.3".to_string()))
    );
}

#[test]
fn unrecognized_character_is_a_tokenize_error() {
    let r = Tokenizer::new("1 + #".chars().collect()).into_tokens();
    assert_eq!(r, Err(TokenizeError::UnrecognizedChar('#', 4)));
}

#[test]
fn missing_closing_pipe_is_a_parse_error() {
    let err = parse_line("|5").unwrap_err();
    assert_eq!(err, ParseErr::new(Token::Pipe, "Missing closing pipe"));
}

#[test]
fn missing_log_base_is_a_parse_error() {
    let err = parse_line("log(8)").unwrap_err();
    assert_eq!(err.msg, "Missing base for log function");
}

#[test]
fn duplicate_parameter_is_a_parse_error() {
    let err = parse_line("fn foo(x, x) x + x").unwrap_err();
    assert_eq!(err.msg, "Duplicate parameter");
}

#[test]
fn serialized_environment_text_is_exact() {
    let mut it = Interpreter::new();
    eval_value(&mut it, "let x = 5");
    eval_line(&mut it, "fn foo(a, b) a + b * 5").unwrap();
    // `ans` was rebound by the assignment before `x` itself was bound.
    assert_eq!(
        it.serialize_env(),
        "let ans = 5\nlet x = 5\nfn foo(a, b) a + b * 5\n"
    );
}

#[test]
fn redefinition_replaces_in_place() {
    let mut it = Interpreter::new();
    eval_value(&mut it, "let x = 5");
    eval_value(&mut it, "let x = 7");
    assert_eq!(eval_value(&mut it, "x"), 7.0);
    assert_eq!(it.serialize_env(), "let ans = 7\nlet x = 7\n");
}
