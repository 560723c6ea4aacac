use tan::ann::Ann;
use tan::api::parse_string;
use tan::eval::env::Env;
use tan::expr::format::format_value;
use tan::expr::Expr;
use tan::lexer::Lexer;
use tan::parser::Parser;
use tan::typecheck::resolve_type;

#[test]
fn expr_iter_performs_depth_first_iteration() {
    let input = "(quot (1 2 3 (4 5) (6 (+ 7 8)) 9 10))";

    let mut lexer = Lexer::new(input);
    let tokens = lexer.lex().unwrap();

    let mut parser = Parser::new(tokens);
    let expr = parser.parse().unwrap();

    let expr = &expr[0];

    let mut terms: Vec<String> = Vec::new();
    let mut iter = expr.iter();
    while let Some(ax) = iter.next() {
        terms.push(ax.0.to_string());
    }
    let expected_terms = vec![
        "(quot (1 2 3 (4 5) (6 (+ 7 8)) 9 10))",
        "quot",
        "(1 2 3 (4 5) (6 (+ 7 8)) 9 10)",
        "1",
        "2",
        "3",
        "(4 5)",
        "4",
        "5",
        "(6 (+ 7 8))",
        "6",
        "(+ 7 8)",
        "+",
        "7",
        "8",
        "9",
        "10",
    ];
    assert_eq!(terms, expected_terms);
}

#[test]
fn expr_iter_yields_quot_and_its_target() {
    let expr = parse_string("(quot (1 2 3))").unwrap().swap_remove(0);
    let mut terms: Vec<String> = Vec::new();
    let mut iter = expr.iter();
    while let Some(ax) = iter.next() {
        terms.push(ax.0.to_string());
    }
    assert_eq!(terms, vec!["(quot (1 2 3))", "quot", "(1 2 3)", "1", "2", "3"]);
    assert!(iter.next().is_none());
}

pub fn identity_fn(expr: Ann<Expr>) -> Ann<Expr> {
    expr
}

fn double_ints(expr: Ann<Expr>) -> Ann<Expr> {
    match expr {
        Ann(Expr::Int(n), a, r) => Ann(Expr::Int(2 * n), a, r),
        other => other,
    }
}

#[test]
fn transform_with_identity_function() {
    let input = "(quot (1 2 3 (4 5) (6 (+ 7 8)) 9 10))";

    let expr = parse_string(input).unwrap().swap_remove(0);

    let expr_string = expr.0.to_string();

    let expr_transformed = expr.transform(&identity_fn);

    assert_eq!(expr_string, expr_transformed.0.to_string());
}

#[test]
fn transform_maps_every_node() {
    let expr = parse_string("(+ 1 (* 2 3))").unwrap().swap_remove(0);
    let transformed = expr.transform(&double_ints);
    assert_eq!(transformed.0.to_string(), "(+ 2 (* 4 6))");
}

#[test]
fn expr_string_display() {
    let expr = Expr::String("hello".to_owned());
    assert_eq!("\"hello\"", format!("{}", expr.to_string()));
}

#[test]
fn expr_display_writes_every_kind() {
    assert_eq!(Expr::One.to_string(), "()");
    assert_eq!(Expr::Bool(true).to_string(), "true");
    assert_eq!(Expr::Bool(false).to_string(), "false");
    assert_eq!(Expr::Int(0).to_string(), "0");
    assert_eq!(Expr::Int(-120).to_string(), "-120");
    assert_eq!(Expr::Int(i64::MIN).to_string(), "-9223372036854775808");
    assert_eq!(Expr::Int(i64::MAX).to_string(), "9223372036854775807");
    assert_eq!(Expr::Float("1.5".to_owned()).to_string(), "1.5");
    assert_eq!(Expr::Char('x').to_string(), "(Char \"x\")");
    assert_eq!(Expr::symbol("a").to_string(), "a");
    assert_eq!(Expr::KeySymbol("k".to_owned()).to_string(), ":k");
    assert_eq!(
        Expr::Array(vec![Expr::Int(1), Expr::Int(2)]).to_string(),
        "[1 2]"
    );
    assert_eq!(Expr::ForeignFunc("f".to_owned()).to_string(), "#<foreign_func>");
    assert_eq!(format_value(&Expr::string("plain")), "plain");
    assert_eq!(format_value(&Expr::Int(5)), "5");
}

#[test]
fn resolve_specializes_functions() {
    let expr = parse_string("(do (let a 1.3) (+ a (+ 1.0 2.2)))")
        .unwrap()
        .swap_remove(0);
    let mut env = Env::prelude();
    let expr = resolve_type(expr, &mut env).unwrap();
    let Ann(Expr::List(terms), ..) = &expr else {
        panic!("assertion failed: invalid form")
    };
    let Ann(Expr::List(call), ..) = &terms[2] else {
        panic!("assertion failed: invalid form")
    };
    assert!(matches!(&call[0].0, Expr::Symbol(s) if s == "+$$Float$$Float"));
    assert!(matches!(
        call[0].get_annotation("method"),
        Some(Expr::Symbol(m)) if m == "+$$Float$$Float"
    ));
    assert!(matches!(
        call[0].get_annotation("type"),
        Some(Expr::Symbol(t)) if t == "Float"
    ));
    assert_eq!(terms[2].to_type_string(), "Float");
    assert_eq!(
        terms[2].0.to_string(),
        "(+$$Float$$Float a (+$$Float$$Float 1.0 2.2))"
    );
    assert!(matches!(&terms[0].0, Expr::Symbol(s) if s == "do"));
}

#[test]
fn resolve_rewrites_the_head_of_a_call() {
    let expr = parse_string("(+ 1.0 2.2)").unwrap().swap_remove(0);
    let range = expr.get_range();
    let mut env = Env::prelude();
    let resolved = resolve_type(expr, &mut env).unwrap();
    assert_eq!(resolved.to_type_string(), "Float");
    assert_eq!(resolved.get_range(), range);
    let Ann(Expr::List(terms), ..) = &resolved else {
        panic!("assertion failed: invalid form")
    };
    assert_eq!(terms.len(), 3);
    assert!(matches!(&terms[0].0, Expr::Symbol(s) if s == "+$$Float$$Float"));
    assert_eq!(terms[0].get_range(), tan::range::Range { start: 1, end: 2 });
    assert!(matches!(&terms[1].0, Expr::Float(t) if t == "1.0"));
    assert!(matches!(&terms[2].0, Expr::Float(t) if t == "2.2"));
    assert_eq!(terms[1].to_type_string(), "Float");
    assert_eq!(terms[2].to_type_string(), "Float");

    let expr = parse_string("(+ 1 2)").unwrap().swap_remove(0);
    let resolved = resolve_type(expr, &mut env).unwrap();
    assert_eq!(resolved.0.to_string(), "(+$$Int$$Int 1 2)");
    assert_eq!(resolved.to_type_string(), "Int");

    let expr = parse_string("(exit)").unwrap().swap_remove(0);
    let resolved = resolve_type(expr, &mut env).unwrap();
    assert_eq!(resolved.0.to_string(), "(exit$$)");
}

#[test]
fn resolve_falls_back_to_the_plain_name() {
    let mut env = Env::prelude();
    let expr = parse_string("(- 1 2)").unwrap().swap_remove(0);
    let resolved = resolve_type(expr, &mut env).unwrap();
    assert_eq!(resolved.0.to_string(), "(-$$Int$$Int 1 2)");
    assert_eq!(resolved.to_type_string(), "One");

    // What was resolved once resolves again, under the plain names.
    let again = resolve_type(resolved, &mut env).unwrap();
    assert_eq!(again.0.to_string(), "(-$$Int$$Int$$Int$$Int 1 2)");

    let symbol = parse_string("+$$Text$$Text").unwrap().swap_remove(0);
    let resolved = resolve_type(symbol, &mut env).unwrap();
    assert_eq!(resolved.to_type_string(), "Int");

    let symbol = parse_string("nope$$Int").unwrap().swap_remove(0);
    assert!(matches!(
        resolve_type(symbol, &mut env),
        Err(tan::error::Error::UndefinedSymbol(s)) if s == "nope$$Int"
    ));
    let symbol = parse_string("a$b").unwrap().swap_remove(0);
    assert!(matches!(
        resolve_type(symbol, &mut env),
        Err(tan::error::Error::UndefinedSymbol(s)) if s == "a$b"
    ));
}

#[test]
fn resolve_reports_undefined_symbols_and_reserved_names() {
    let mut env = Env::prelude();
    let expr = parse_string("(nope 1)").unwrap().swap_remove(0);
    assert!(matches!(
        resolve_type(expr, &mut env),
        Err(tan::error::Error::UndefinedSymbol(s)) if s == "nope$$Int"
    ));
    let expr = parse_string("(let if 1)").unwrap().swap_remove(0);
    assert!(matches!(
        resolve_type(expr, &mut env),
        Err(tan::error::Error::InvalidArguments(m)) if m == "let cannot shadow the reserved symbol `if`"
    ));
    let expr = parse_string("(let 1 1)").unwrap().swap_remove(0);
    assert!(matches!(
        resolve_type(expr, &mut env),
        Err(tan::error::Error::InvalidArguments(m)) if m == "`1` is not a Symbol"
    ));
}
