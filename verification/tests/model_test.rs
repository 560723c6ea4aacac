use tan::ann::Ann;
use tan::error::Error;
use tan::eval::env::{Env, Scope};
use tan::eval::machine::{Control, Machine, Status};
use tan::expr::{Dict, Expr};
use tan::lexer::token::Token;
use tan::lexer::Lexer;
use tan::ops::lang::ann;
use tan::ops::process::exit_status;
use tan::parser::{NonRecoverableError, Parser};
use tan::range::{Range, Ranged};

#[test]
fn dict_keeps_the_first_place_of_a_key() {
    let mut dict = Dict::new();
    assert_eq!(dict.len(), 0);
    dict.insert("a".to_owned(), Expr::Int(1));
    dict.insert("b".to_owned(), Expr::Int(2));
    dict.insert("a".to_owned(), Expr::Int(3));
    assert_eq!(dict.len(), 2);
    assert!(matches!(dict.get("a"), Some(Expr::Int(3))));
    assert!(matches!(dict.get("b"), Some(Expr::Int(2))));
    assert!(dict.get("c").is_none());
    assert_eq!(Expr::Dict(dict).to_string(), "{a 3 b 2}");
}

#[test]
fn env_looks_up_from_the_innermost_scope() {
    let mut env = Env::new();
    assert_eq!(env.depth(), 1);
    env.insert("a".to_owned(), Ann::new(Expr::Int(1)));
    env.push_new_scope();
    assert_eq!(env.depth(), 2);
    assert!(matches!(env.get("a"), Some(Ann(Expr::Int(1), ..))));
    env.insert("a".to_owned(), Ann::new(Expr::Int(2)));
    assert!(matches!(env.get("a"), Some(Ann(Expr::Int(2), ..))));
    env.pop();
    assert!(matches!(env.get("a"), Some(Ann(Expr::Int(1), ..))));
    assert!(env.get("b").is_none());
    env.pop();
    env.pop();
    assert_eq!(env.depth(), 0);
    env.insert("b".to_owned(), Ann::new(Expr::One));
    assert_eq!(env.depth(), 1);
    let copy = env.clone();
    assert!(matches!(copy.get("b"), Some(Ann(Expr::One, ..))));
    let mut scope = Scope::new();
    scope.insert("x".to_owned(), Ann::new(Expr::Int(1)));
    assert!(scope.get("x").is_some());
    assert!(scope.get("y").is_none());
}

#[test]
fn prelude_binds_the_built_in_functions() {
    let env = Env::prelude();
    assert_eq!(env.depth(), 1);
    assert_eq!(env.scopes[0].bindings.len(), 16);
    let plus = env.get("+").unwrap();
    assert!(matches!(&plus.0, Expr::ForeignFunc(f) if f == "add_int"));
    assert_eq!(plus.to_type_string(), "Int");
    let plus = env.get("+$$Float$$Float").unwrap();
    assert!(matches!(&plus.0, Expr::ForeignFunc(f) if f == "add_float"));
    assert_eq!(plus.to_type_string(), "Float");
    let exit = env.get("exit$$").unwrap();
    assert!(matches!(&exit.0, Expr::ForeignFunc(f) if f == "exit"));
    assert_eq!(exit.to_type_string(), "One");
}

#[test]
fn annotations_are_added_and_overwritten() {
    let mut a = Ann::with_range(Expr::Int(1), Range::new(3, 4));
    assert!(a.get_annotation("type").is_none());
    assert_eq!(a.get_range(), Range { start: 3, end: 4 });
    a.set_type_annotation(Expr::symbol("Int"));
    a.set_annotation("doc".to_owned(), Expr::string("one"));
    a.set_type_annotation(Expr::symbol("Num"));
    assert!(matches!(a.get_annotation("type"), Some(Expr::Symbol(t)) if t == "Num"));
    assert!(matches!(a.get_annotation("doc"), Some(Expr::String(t)) if t == "one"));
    assert_eq!(a.type_annotation().to_string(), "Num");
    let b = Ann::with_type(Expr::One, Expr::symbol("One"));
    assert_eq!(b.get_range(), Range { start: 0, end: 0 });
    assert_eq!(b.to_type_string(), "One");
    let c = b.clone();
    assert_eq!(c.to_type_string(), "One");
}

#[test]
fn ann_takes_exactly_one_argument() {
    let env = Env::new();
    assert!(matches!(ann(&[Expr::Int(1)], &env), Ok(Expr::One)));
    assert!(matches!(
        ann(&[], &env),
        Err(Error::InvalidArguments(m)) if m == "`ann` requires one argument"
    ));
    assert!(matches!(
        ann(&[Expr::Int(1), Expr::Int(2)], &env),
        Err(Error::InvalidArguments(_))
    ));
}

#[test]
fn parse_expr_and_parse_many_can_be_called_directly() {
    let tokens = Lexer::new("a ; note\n(b c) d e]").lex().unwrap();
    let mut parser = Parser::new(tokens);
    assert!(matches!(parser.parse_expr(), Ok(Some(Expr::Symbol(s))) if s == "a"));
    assert!(matches!(parser.parse_expr(), Ok(None)));
    assert!(matches!(parser.parse_expr(), Ok(Some(Expr::List(terms))) if terms.len() == 2));
    let terms = parser.parse_many(Token::RightBracket).unwrap();
    assert_eq!(terms.len(), 2);
    assert_eq!(terms[1].get_range(), Range { start: 17, end: 18 });
    assert!(matches!(parser.parse_expr(), Err(NonRecoverableError {})));
    assert_eq!(NonRecoverableError {}.to_string(), "NRE");

    let tokens = Lexer::new("a b").lex().unwrap();
    let mut parser = Parser::new(tokens);
    assert!(parser.parse_many(Token::RightParen).is_err());
    let errors = parser.parse().unwrap_err();
    assert!(matches!(errors[0].0, Error::UnterminatedList));
}

#[test]
fn annotations_can_hold_annotations() {
    let tokens = Lexer::new("#(doc #Text \"x\") a").lex().unwrap();
    let exprs = Parser::new(tokens).parse().unwrap();
    let doc = exprs[0].get_annotation("doc").unwrap();
    let Expr::List(terms) = doc else {
        panic!("assertion failed: invalid form")
    };
    assert!(matches!(
        terms[1].get_annotation("type"),
        Some(Expr::Symbol(t)) if t == "Text"
    ));
}

#[test]
fn machine_takes_no_more_steps_than_asked() {
    let expr = Ann::new(Expr::List(vec![
        Ann::new(Expr::symbol("for")),
        Ann::new(Expr::Bool(true)),
        Ann::new(Expr::One),
    ]));
    let mut machine = Machine::new(expr, Env::new());
    assert_eq!(machine.run(1000), 1000);
    assert_eq!(machine.status(), Status::Running);
    assert!(machine.result().is_none());
    assert_eq!(machine.env.depth(), 1);

    let mut machine = Machine::new(Ann::new(Expr::Int(7)), Env::new());
    assert_eq!(machine.run(1000), 1);
    assert_eq!(machine.status(), Status::Finished);
    assert!(matches!(machine.result(), Some(Ok(Ann(Expr::Int(7), ..)))));
    machine.resume(Ok(Ann::new(Expr::Int(8))));
    machine.load(None);
    machine.step();
    assert!(matches!(machine.result(), Some(Ok(Ann(Expr::Int(7), ..)))));
}

#[test]
fn machine_hands_foreign_calls_to_the_host() {
    let expr = Ann::new(Expr::List(vec![
        Ann::new(Expr::ForeignFunc("host".to_owned())),
        Ann::new(Expr::Int(1)),
        Ann::new(Expr::string("two")),
    ]));
    let mut machine = Machine::new(expr, Env::new());
    machine.run(100);
    assert_eq!(machine.status(), Status::AwaitingCall);
    match &machine.control {
        Control::Call { name, args } => {
            assert_eq!(name, "host");
            assert_eq!(args.len(), 2);
            assert!(matches!(args[0].0, Expr::Int(1)));
        }
        _ => panic!("the machine does not wait for a call"),
    }
    machine.step();
    assert_eq!(machine.status(), Status::AwaitingCall);
    machine.resume(Err(Ranged(
        Error::Io("no host".to_owned()),
        Range { start: 1, end: 2 },
    )));
    machine.run(100);
    assert!(matches!(
        machine.result(),
        Some(Err(Ranged(Error::Io(m), Range { start: 1, end: 2 }))) if m == "no host"
    ));
}

#[test]
fn exit_status_is_the_first_argument() {
    assert!(matches!(exit_status(&[]), Ok(0)));
    assert!(matches!(exit_status(&[Ann::new(Expr::Int(3))]), Ok(3)));
    assert!(matches!(exit_status(&[Ann::new(Expr::Int(-1))]), Ok(-1)));
    assert!(matches!(
        exit_status(&[Ann::new(Expr::Int(3)), Ann::new(Expr::One)]),
        Ok(3)
    ));
    assert!(matches!(
        exit_status(&[Ann::new(Expr::Int(4_294_967_298))]),
        Ok(2)
    ));
    assert!(matches!(
        exit_status(&[Ann::new(Expr::string("3"))]),
        Err(Error::InvalidArguments(m)) if m == "expected Int argument"
    ));
}
