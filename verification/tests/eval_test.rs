use tan::ann::Ann;
use tan::api::parse_string;
use tan::error::Error;
use tan::eval::env::Env;
use tan::eval::machine::{Control, Machine, Status};
use tan::expr::Expr;
use tan::range::{Range, Ranged};

/// What a host without foreign functions of its own answers.
fn call_foreign(
    _name: &str,
    args: &[Ann<Expr>],
    _env: &Env,
) -> Result<Ann<Expr>, Ranged<Error>> {
    let range = match args.first() {
        Some(arg) => arg.get_range(),
        None => Range { start: 0, end: 0 },
    };
    Err(Ranged(
        Error::InvalidArguments("unknown foreign function".to_owned()),
        range,
    ))
}

fn drive(mut machine: Machine) -> (Result<Ann<Expr>, Ranged<Error>>, Env) {
    loop {
        match machine.status() {
            Status::Running => machine.step(),
            Status::AwaitingCall => {
                if machine.answer_builtin() {
                    continue;
                }
                let result = match &machine.control {
                    Control::Call { name, args } => call_foreign(name, args, &machine.env),
                    _ => unreachable!(),
                };
                machine.resume(result);
            }
            Status::AwaitingLoad => machine.load(None),
            Status::Finished => break,
        }
    }
    let result = machine.result().unwrap();
    (result, machine.env)
}

fn eval(expr: &Ann<Expr>, env: &mut Env) -> Result<Ann<Expr>, Ranged<Error>> {
    let taken = std::mem::replace(env, Env::new());
    let (result, after) = drive(Machine::new(expr.clone(), taken));
    *env = after;
    result
}

fn eval_in(input: &str, env: &mut Env) -> Result<Expr, Error> {
    let taken = std::mem::replace(env, Env::new());
    let (result, after) = drive(tan::api::eval_string(input, taken));
    *env = after;
    match result {
        Ok(v) => Ok(v.0),
        Err(e) => Err(e.0),
    }
}

fn eval_string(input: &str) -> Result<Expr, Error> {
    let mut env = Env::prelude();
    eval_in(input, &mut env)
}

fn read_file(filename: &str) -> String {
    let text = match filename {
        "sum.tan" => "(do\n    (let a (+ 1 2 3 4))\n    (+ a 5)\n)\n",
        "sum.value.tan" => "15",
        "conditional.tan" => "(do\n    (let a 5)\n    (if (> a 3)\n        \"yes\"\n        \"no\"))\n",
        "conditional.value.tan" => "\"yes\"",
        "quoted.tan" => "'(+ 1 (* 2 3))",
        "quoted.value.tan" => "(+ 1 (* 2 3))",
        "factorial.tan" => {
            "(do\n    (let fact (Func (n)\n        (if (= n 0)\n            1\n            (* n (fact (- n 1))))))\n    (fact 5))\n"
        }
        "factorial.value.tan" => "120",
        "fibonacci.tan" => {
            "(do\n    (let fib (Func (n)\n        (if (< n 2)\n            n\n            (+ (fib (- n 1)) (fib (- n 2))))))\n    (fib 10))\n"
        }
        "fibonacci.value.tan" => "55",
        "do_intermediate_error.tan" => "(do\n    (write33 \"hello\")\n    (+ 1 2))\n",
        _ => panic!("no such fixture"),
    };
    text.to_owned()
}

fn eval_file(filename: &str) -> Result<Expr, Error> {
    let input = &read_file(filename);
    eval_string(input)
}

#[test]
fn eval_processes_arithmetic_expressions() {
    let result = eval_file("sum.tan");

    assert!(result.is_ok());

    let value = format!("{}", result.unwrap().to_string());
    let expected_value = read_file("sum.value.tan");

    assert_eq!(value, expected_value);
}

#[test]
fn do_reports_intermediate_errors() {
    let result = eval_file("do_intermediate_error.tan");

    assert!(result.is_err());

    let err = result.unwrap_err();

    assert!(matches!(err, Error::UndefinedSymbol(s) if s == "write33"));
}

#[test]
fn eval_processes_conditionals() {
    let result = eval_file("conditional.tan");
    assert!(result.is_ok());

    let value = format!("{}", result.unwrap().to_string());
    let expected_value = read_file("conditional.value.tan");

    assert_eq!(value, expected_value);
}

#[test]
fn eval_processes_empty_list() {
    let expr = Expr::List(Vec::new());
    let mut env = Env::new();

    let value = eval(&Ann::new(expr), &mut env).unwrap();

    assert!(matches!(value.0, Expr::One));
}

#[test]
fn eval_processes_let() {
    let result = eval_string("(do (let a (+ 1 2 3)) a)");
    assert!(matches!(result, Ok(Expr::Int(6))));
}

#[test]
fn eval_processes_quoted_expressions() {
    let result = eval_file("quoted.tan");

    assert!(result.is_ok());

    let value = format!("{}", result.unwrap().to_string());
    let expected_value = read_file("quoted.value.tan");

    assert_eq!(value, expected_value);
}

#[test]
fn eval_processes_function_definition_and_application() {
    let result = eval_file("factorial.tan");

    assert!(result.is_ok());

    let value = format!("{}", result.unwrap().to_string());
    let expected_value = read_file("factorial.value.tan");

    assert_eq!(value, expected_value);

    let result = eval_file("fibonacci.tan");

    assert!(result.is_ok());

    let value = format!("{}", result.unwrap().to_string());
    let expected_value = read_file("fibonacci.value.tan");

    assert_eq!(value, expected_value);
}

#[test]
fn eval_adds_with_digit_separators() {
    let result = eval_string("(+ 1 3_000)");
    assert!(matches!(result, Ok(Expr::Int(3001))));
}

#[test]
fn eval_chooses_the_true_clause() {
    let result = eval_string("(if (> 3 2) \"yes\" \"no\")");
    assert!(matches!(result, Ok(Expr::String(s)) if s == "yes"));
}

#[test]
fn eval_binds_in_sequence() {
    let result = eval_string("(do (let a 1) (let b 2) (+ a b))");
    assert!(matches!(result, Ok(Expr::Int(3))));
}

#[test]
fn eval_applies_a_user_function() {
    let result = eval_string("(do (let f (Func (x) (* x x))) (f 5))");
    assert!(matches!(result, Ok(Expr::Int(25))));
}

#[test]
fn eval_indexes_a_dict_across_top_level_forms() {
    let result = eval_string("(let m {\"name\" \"george\" \"value\" 1}) (m \"name\")");
    assert!(matches!(result, Ok(Expr::String(s)) if s == "george"));
}

#[test]
fn eval_reports_undefined_symbols() {
    let result = eval_string("(do (let a 1) (+ a undefined))");
    assert!(matches!(result, Err(Error::UndefinedSymbol(s)) if s == "undefined"));
}

#[test]
fn let_refuses_every_reserved_symbol() {
    let reserved = [
        "do", "ann", "let", "if", "for", "for_each", "eval", "quot", "use", "Char", "Func",
        "Macro", "List", "Array", "Dict",
    ];
    for name in reserved {
        let mut env = Env::prelude();
        let depth = env.depth();
        let bindings = env.scopes[0].bindings.len();
        let result = eval_in(&format!("(let {name} 1)"), &mut env);
        assert!(matches!(result, Err(Error::InvalidArguments(_))));
        assert_eq!(env.depth(), depth);
        assert_eq!(env.scopes[0].bindings.len(), bindings);
        assert!(env.get(name).is_none());
    }
}

#[test]
fn scopes_are_popped_on_success_and_on_failure() {
    let mut env = Env::prelude();
    let depth = env.depth();
    assert!(eval_in("(do (let f (Func (x) (do (* x x)))) (f 5))", &mut env).is_ok());
    assert_eq!(env.depth(), depth);
    assert!(eval_in("(do (do (let f (Func (x) (+ x nope))) (f 5)))", &mut env).is_err());
    assert_eq!(env.depth(), depth);
    assert!(eval_in("(for_each [1 2 3] x (+ x nope))", &mut env).is_err());
    assert_eq!(env.depth(), depth);
}

#[test]
fn eval_of_quot_is_the_expression_itself() {
    let direct = eval_string("(+ 1 (* 2 3))").unwrap();
    let quoted = eval_string("(eval (quot (+ 1 (* 2 3))))").unwrap();
    assert_eq!(direct.to_string(), "7");
    assert_eq!(quoted.to_string(), direct.to_string());
}

#[test]
fn literals_evaluate_to_themselves() {
    let inputs = [
        "true", "false", "42", "-7", "1.5", "\"text\"", ":key", "[1 2 3]", "{\"a\" 1}", "()",
    ];
    for input in inputs {
        let parsed = parse_string(input).unwrap().swap_remove(0);
        let value = eval_string(input).unwrap();
        assert_eq!(value.to_string(), parsed.0.to_string());
    }
    let mut env = Env::new();
    let value = eval(&Ann::new(Expr::Char('c')), &mut env).unwrap();
    assert!(matches!(value.0, Expr::Char('c')));
}

#[test]
fn eval_loops_while_the_predicate_holds() {
    let result = eval_string("(do (let i 0) (for (< i 5) (let i (+ i 1))) i)");
    assert!(matches!(result, Ok(Expr::Int(5))));
}

#[test]
fn eval_for_each_binds_each_item() {
    let result = eval_string("(do (let s 0) (for_each [1 2 3] x (let t x)) s)");
    assert!(matches!(result, Ok(Expr::Int(0))));
    let result = eval_string("(for_each 5 x x)");
    assert!(matches!(result, Err(Error::InvalidArguments(_))));
}

#[test]
fn eval_indexes_arrays() {
    assert!(matches!(eval_string("([10 20 30] 1)"), Ok(Expr::Int(20))));
    assert!(matches!(eval_string("([10 20 30] 3)"), Ok(Expr::One)));
    assert!(matches!(eval_string("([10 20 30] -1)"), Ok(Expr::One)));
    assert!(matches!(
        eval_string("([10 20 30] \"a\")"),
        Err(Error::InvalidArguments(_))
    ));
    assert!(matches!(eval_string("({\"a\" 1} \"b\")"), Ok(Expr::One)));
}

#[test]
fn eval_rejects_what_cannot_be_called() {
    assert!(matches!(eval_string("(1 2)"), Err(Error::NotInvocable(_))));
    assert!(matches!(eval_string("(Array 2)"), Err(Error::NotInvocable(_))));
}

#[test]
fn eval_makes_chars_and_lists() {
    assert!(matches!(eval_string("(Char \"a\")"), Ok(Expr::Char('a'))));
    assert!(matches!(
        eval_string("(Char \"ab\")"),
        Err(Error::InvalidArguments(_))
    ));
    let list = eval_string("(List 1 (+ 1 1))").unwrap();
    assert_eq!(list.to_string(), "(1 2)");
}

#[test]
fn eval_returns_annotations_as_a_dict() {
    let value = eval_string("(ann #Int 5)").unwrap();
    assert_eq!(value.to_string(), "{type Int}");
    let value = eval_string("(ann 5)").unwrap();
    assert_eq!(value.to_string(), "{}");
}

#[test]
fn eval_prefers_the_method_annotation() {
    let mut env = Env::new();
    env.insert("f".to_owned(), Ann::new(Expr::Int(1)));
    env.insert("f$$Int".to_owned(), Ann::new(Expr::Int(2)));
    let mut sym = Ann::new(Expr::symbol("f"));
    sym.set_annotation("method".to_owned(), Expr::symbol("f$$Int"));
    assert!(matches!(eval(&sym, &mut env).unwrap().0, Expr::Int(2)));
    let mut sym = Ann::new(Expr::symbol("f"));
    sym.set_annotation("method".to_owned(), Expr::symbol("f$$Float"));
    assert!(matches!(eval(&sym, &mut env).unwrap().0, Expr::Int(1)));
    let mut sym = Ann::new(Expr::symbol("g"));
    sym.set_annotation("method".to_owned(), Expr::symbol("g$$Int"));
    let err = eval(&sym, &mut env).unwrap_err();
    assert!(matches!(err.0, Error::UndefinedFunction(s, m) if s == "g" && m == "g$$Int"));
}

#[test]
fn use_evaluates_the_forms_of_a_module() {
    let expr = parse_string("(do (use lib) (+ a b))").unwrap().swap_remove(0);
    let mut machine = Machine::new(expr, Env::prelude());
    loop {
        match machine.status() {
            Status::Running => machine.step(),
            Status::AwaitingCall => {
                assert!(machine.answer_builtin());
            }
            Status::AwaitingLoad => {
                assert!(matches!(&machine.control, Control::Load { path, .. } if path == "lib"));
                machine.load(Some(vec!["(let a 1)".to_owned(), "(let b 2)".to_owned()]));
            }
            Status::Finished => break,
        }
    }
    assert!(matches!(machine.result(), Some(Ok(Ann(Expr::Int(3), ..)))));
}

#[test]
fn use_fails_where_the_module_cannot_be_read_or_parsed() {
    let mut env = Env::prelude();
    let err = eval(
        &parse_string("(use nowhere)").unwrap().swap_remove(0),
        &mut env,
    )
    .unwrap_err();
    assert!(matches!(err.0, Error::FailedUse));
    assert_eq!(err.1.start, 0);
    assert_eq!(err.1.end, 13);

    let expr = parse_string("(use lib)").unwrap().swap_remove(0);
    let mut machine = Machine::new(expr, Env::prelude());
    machine.step();
    machine.step();
    machine.step();
    assert_eq!(machine.status(), Status::AwaitingLoad);
    machine.load(Some(vec!["(let a".to_owned()]));
    machine.step();
    assert!(matches!(machine.result(), Some(Err(Ranged(Error::FailedUse, _)))));
}

#[test]
fn eval_string_gives_the_value_of_the_last_form() {
    assert!(matches!(eval_string("1 2 3"), Ok(Expr::Int(3))));
    assert!(matches!(eval_string(""), Ok(Expr::One)));
    assert!(matches!(eval_string("; nothing\n"), Ok(Expr::One)));
    assert!(matches!(
        eval_string("(let a 1) nope (let b 2)"),
        Err(Error::UndefinedSymbol(s)) if s == "nope"
    ));
}

#[test]
fn eval_string_ends_with_the_first_error_of_a_text_that_does_not_parse() {
    let env = Env::prelude();
    let depth = env.depth();
    let machine = tan::api::eval_string(") 0xZZ", env);
    assert_eq!(machine.status(), Status::Finished);
    assert!(matches!(
        machine.result(),
        Some(Err(Ranged(
            Error::UnexpectedToken(_),
            Range { start: 0, end: 1 }
        )))
    ));
    assert_eq!(machine.env.depth(), depth);

    let machine = tan::api::eval_string("(write \"Hello)", Env::new());
    assert!(matches!(
        machine.result(),
        Some(Err(Ranged(Error::UnterminatedString, _)))
    ));

    let error = tan::api::first_error(vec![
        Ranged(Error::InvalidQuote, Range { start: 1, end: 2 }),
        Ranged(Error::MalformedInt, Range { start: 3, end: 4 }),
    ]);
    assert!(matches!(
        error,
        Ranged(Error::InvalidQuote, Range { start: 1, end: 2 })
    ));
}

#[test]
fn macros_are_defined_with_their_own_messages() {
    let value = eval_string("(Macro (x) x)").unwrap();
    assert!(matches!(value, Expr::Macro(..)));
    assert_eq!(value.to_string(), "#<macro>");
    assert!(matches!(
        eval_string("(Macro (x))"),
        Err(Error::InvalidArguments(m)) if m == "malformed macro definition"
    ));
    assert!(matches!(
        eval_string("(Macro 1 x)"),
        Err(Error::InvalidArguments(m)) if m == "malformed macro parameters definition"
    ));
    assert!(matches!(
        eval_string("(Func (x))"),
        Err(Error::InvalidArguments(m)) if m == "malformed func definition"
    ));
    assert!(matches!(
        eval_string("(Func (1) x)"),
        Err(Error::InvalidArguments(m)) if m == "malformed func parameters definition"
    ));
    assert!(matches!(
        eval_string("((Macro (x) x) 1)"),
        Err(Error::NotInvocable(_))
    ));
}

#[test]
fn built_in_functions_compute_on_integers() {
    use_builtin("add_int", &[], Ok(Expr::Int(0)));
    use_builtin("add_int", &[1, 2, 3], Ok(Expr::Int(6)));
    use_builtin("mul", &[], Ok(Expr::Int(1)));
    use_builtin("mul", &[2, 3, -4], Ok(Expr::Int(-24)));
    use_builtin("sub", &[2, 5], Ok(Expr::Int(-3)));
    use_builtin("eq", &[2, 2], Ok(Expr::Bool(true)));
    use_builtin("eq", &[2, 3], Ok(Expr::Bool(false)));
    use_builtin("gt", &[3, 2], Ok(Expr::Bool(true)));
    use_builtin("lt", &[3, 2], Ok(Expr::Bool(false)));
    use_builtin("add_int", &[i64::MAX, 1], Err("integer overflow"));
    use_builtin("mul", &[i64::MIN, -1], Err("integer overflow"));
    use_builtin("sub", &[i64::MIN, 1], Err("integer overflow"));
    use_builtin("sub", &[1], Err("`-` requires two arguments"));
    use_builtin("gt", &[1, 2, 3], Err("`>` requires two arguments"));
    let env = Env::new();
    let args = [Ann::new(Expr::Int(1)), Ann::new(Expr::string("2"))];
    assert!(matches!(
        tan::ops::call_builtin("add_int", &args, &env),
        Some(Err(Ranged(Error::InvalidArguments(m), _))) if m == "expected Int argument"
    ));
    assert!(tan::ops::call_builtin("write", &args, &env).is_none());
    assert!(tan::ops::call_builtin("add_float", &args, &env).is_none());
}

fn use_builtin(name: &str, ints: &[i64], expected: Result<Expr, &str>) {
    let args: Vec<Ann<Expr>> = ints.iter().map(|n| Ann::new(Expr::Int(*n))).collect();
    let result = tan::ops::call_builtin(name, &args, &Env::new()).unwrap();
    match (result, expected) {
        (Ok(value), Ok(wanted)) => assert_eq!(value.0.to_string(), wanted.to_string()),
        (Err(Ranged(Error::InvalidArguments(message), _)), Err(wanted)) => {
            assert_eq!(message, wanted)
        }
        _ => panic!("{name} gives another outcome"),
    }
}
