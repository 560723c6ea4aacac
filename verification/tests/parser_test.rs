use tan::ann::Ann;
use tan::api::parse_string;
use tan::error::Error;
use tan::expr::Expr;
use tan::lexer::token::Token;
use tan::lexer::Lexer;
use tan::parser::Parser;
use tan::range::Ranged;

fn read_input(filename: &str) -> String {
    let text = match filename {
        "empty.tan" => "",
        "hello_world.tan" => "(writeln \"Hello World!\")\n",
        "unterminated_list_expr.tan" => "(let a 1)\n(let b 2)\n(write \"hi\" a",
        _ => panic!("no such fixture"),
    };
    text.to_owned()
}

fn lex_tokens(input: &str) -> Vec<Ranged<Token>> {
    let mut lexer = Lexer::new(input);
    lexer.lex().unwrap()
}

#[test]
fn parse_handles_an_empty_token_list() {
    let input = &read_input("empty.tan");
    let tokens = lex_tokens(input);
    let mut parser = Parser::new(tokens);
    let expr = parser.parse();
    assert!(matches!(expr, Ok(exprs) if exprs.is_empty()));
}

#[test]
fn parse_reports_unexpected_tokens() {
    let input = ")";
    let tokens = lex_tokens(input);
    let mut parser = Parser::new(tokens);

    let result = parser.parse();
    assert!(result.is_err());

    let err = result.unwrap_err().swap_remove(0);

    assert!(matches!(err.0, Error::UnexpectedToken(Token::RightParen)));
    assert_eq!(err.1.start, 0);
    assert_eq!(err.1.end, 1);

    let input = "]";
    let tokens = lex_tokens(input);
    let mut parser = Parser::new(tokens);

    let result = parser.parse();
    assert!(result.is_err());

    let err = result.unwrap_err().swap_remove(0);

    assert_eq!(err.1.start, 0);
    assert_eq!(err.1.end, 1);

    let input = "}";
    let tokens = lex_tokens(input);
    let mut parser = Parser::new(tokens);

    let result = parser.parse();
    assert!(result.is_err());

    let err = result.unwrap_err().swap_remove(0);

    assert_eq!(err.1.start, 0);
    assert_eq!(err.1.end, 1);
}

#[test]
fn parse_reports_quote_errors() {
    // Quote at EOF

    let input = "'";
    let result = parse_string(input);

    assert!(result.is_err());

    let err = result.unwrap_err().swap_remove(0);

    assert!(matches!(err.0, Error::InvalidQuote));
    assert_eq!(err.1.start, 0);
    assert_eq!(err.1.end, 1);

    // Consecutive quotes

    let input = "(let a '' 1)";
    let result = parse_string(input);

    assert!(result.is_ok());

    // A quote before a closing delimiter

    let input = "(let a ')";
    let result = parse_string(input);

    assert!(result.is_err());

    let errors = result.unwrap_err();
    let err = errors
        .iter()
        .find(|e| matches!(e.0, Error::InvalidQuote))
        .unwrap();

    assert_eq!(err.1.start, 7);
    assert_eq!(err.1.end, 8);
}

// () == Expr::One (Unit)
#[test]
fn parse_handles_one() {
    let input = "()";
    let tokens = lex_tokens(input);
    let mut parser = Parser::new(tokens);

    let expr = parser.parse().unwrap().swap_remove(0);

    assert!(matches!(expr, Ann(Expr::One, ..)));
}

#[test]
fn parse_handles_a_simple_expression() {
    let input = &read_input("hello_world.tan");
    let tokens = lex_tokens(input);
    let mut parser = Parser::new(tokens);

    let result = parser.parse().unwrap();
    assert_eq!(result.len(), 1);
    assert_eq!(result[0].0.to_string(), "(writeln \"Hello World!\")");
}

#[test]
fn parse_reports_unterminated_lists() {
    let filename = "unterminated_list_expr.tan";
    let input = &read_input(filename);
    let tokens = lex_tokens(input);
    let mut parser = Parser::new(tokens);

    let result = parser.parse();
    assert!(result.is_err());

    let err = result.unwrap_err().swap_remove(0);

    assert!(matches!(err.0, Error::UnterminatedList));
    assert_eq!(err.1.start, 20);
    assert_eq!(err.1.end, 33);
}

#[test]
fn parse_handles_annotations() {
    let input = r#"
    (let a #zonk #Int8 25 b #(inline true) 1)
    "#;
    let tokens = lex_tokens(input);
    let mut parser = Parser::new(tokens);

    let expr = parser.parse().unwrap().swap_remove(0);
    let Ann(Expr::List(terms), ..) = expr else {
        panic!("assertion failed: invalid form")
    };
    assert!(matches!(terms[2].get_annotation("zonk"), Some(Expr::Bool(true))));
    assert!(matches!(
        terms[2].get_annotation("type"),
        Some(Expr::Symbol(t)) if t == "Int8"
    ));
    assert_eq!(
        terms[4].get_annotation("inline").unwrap().to_string(),
        "(inline true)"
    );
    assert!(terms[1].get_annotation("zonk").is_none());
}

#[test]
fn parse_parses_dicts() {
    let input = r##"(let m {"name" "george" "value" 1})"##;
    let result = parse_string(input).unwrap().swap_remove(0);

    let Ann(Expr::List(vec), ..) = result else {
        panic!("assertion failed: invalid form")
    };

    assert!(matches!(&vec[2], Ann(Expr::Dict(dict), ..) if dict.len() == 2));
}

#[test]
fn parse_reports_malformed_numbers_and_goes_on() {
    let errors = parse_string("(+ 0xZZ 1.2.3 12a)").unwrap_err();
    assert_eq!(errors.len(), 3);
    assert!(matches!(errors[0].0, Error::MalformedInt));
    assert_eq!((errors[0].1.start, errors[0].1.end), (3, 7));
    assert!(matches!(errors[1].0, Error::MalformedFloat));
    assert_eq!((errors[1].1.start, errors[1].1.end), (8, 13));
    assert!(matches!(errors[2].0, Error::MalformedInt));
}

#[test]
fn parse_reads_numbers_in_every_radix() {
    let exprs = parse_string("0x1F 0b101 0o17 -42 3_000 1.5 -2.5e3 +7").unwrap();
    assert!(matches!(exprs[0].0, Expr::Int(31)));
    assert!(matches!(exprs[1].0, Expr::Int(5)));
    assert!(matches!(exprs[2].0, Expr::Int(15)));
    assert!(matches!(exprs[3].0, Expr::Int(-42)));
    assert!(matches!(exprs[4].0, Expr::Int(3000)));
    assert!(matches!(&exprs[5].0, Expr::Float(t) if t == "1.5"));
    assert!(matches!(&exprs[6].0, Expr::Float(t) if t == "-2.5e3"));
    assert!(matches!(&exprs[7].0, Expr::Symbol(t) if t == "+7"));
    let exprs = parse_string("9223372036854775807 -9223372036854775808").unwrap();
    assert!(matches!(exprs[0].0, Expr::Int(i64::MAX)));
    assert!(matches!(exprs[1].0, Expr::Int(i64::MIN)));
    assert!(parse_string("9223372036854775808").is_err());
}

#[test]
fn parse_reads_symbols_and_keys() {
    let exprs = parse_string("true false :key name").unwrap();
    assert!(matches!(exprs[0].0, Expr::Bool(true)));
    assert!(matches!(exprs[1].0, Expr::Bool(false)));
    assert!(matches!(&exprs[2].0, Expr::KeySymbol(k) if k == "key"));
    assert!(matches!(&exprs[3].0, Expr::Symbol(s) if s == "name"));
}

#[test]
fn parse_reports_malformed_annotations() {
    let errors = parse_string("#\"text\" 1").unwrap_err();
    assert!(matches!(&errors[0].0, Error::MalformedAnnotation(t) if t == "\"text\""));
    assert_eq!((errors[0].1.start, errors[0].1.end), (0, 7));
    let errors = parse_string("#(1 2) x").unwrap_err();
    assert!(matches!(&errors[0].0, Error::MalformedAnnotation(_)));
}

fn assert_nested(expr: &Ann<Expr>) {
    let range = expr.2.expect("every parsed expression has a range");
    assert!(range.start <= range.end);
    if let Expr::List(terms) = &expr.0 {
        for term in terms {
            let inner = term.2.expect("every parsed term has a range");
            assert!(range.start <= inner.start);
            assert!(inner.start <= inner.end);
            assert!(inner.end <= range.end);
            assert_nested(term);
        }
    }
}

#[test]
fn parse_nests_the_ranges_of_terms() {
    let input = "(a (b) c '(d #T e) [1 2] {\"k\" (f)})  (g)";
    let exprs = parse_string(input).unwrap();
    for expr in &exprs {
        assert_nested(expr);
    }
    let first = exprs[0].2.unwrap();
    assert_eq!((first.start, first.end), (0, 35));
    let Expr::List(terms) = &exprs[0].0 else {
        panic!("assertion failed: invalid form")
    };
    let c = terms[2].2.unwrap();
    assert_eq!((c.start, c.end), (7, 8));
    let quoted = terms[3].2.unwrap();
    assert_eq!((quoted.start, quoted.end), (9, 18));
}

fn number_token_parses(lexeme: &str) -> Result<Expr, Error> {
    let token = Ranged(
        Token::Number(lexeme.to_owned()),
        tan::range::Range { start: 0, end: lexeme.chars().count() },
    );
    match Parser::new(vec![token]).parse() {
        Ok(mut exprs) => Ok(exprs.swap_remove(0).0),
        Err(mut errors) => Err(errors.swap_remove(0).0),
    }
}

#[test]
fn float_literals_are_the_decimal_numerals() {
    let alphabet = ['0', '7', '.', 'e', 'E', '+', '-', 'x'];
    let mut lexemes = vec![String::new()];
    let mut checked = 0;
    for _ in 0..5 {
        let mut longer = Vec::new();
        for lexeme in &lexemes {
            for c in alphabet {
                let mut next = lexeme.clone();
                next.push(c);
                longer.push(next);
            }
        }
        for lexeme in &longer {
            if !lexeme.contains('.') {
                continue;
            }
            let is_float = lexeme.parse::<f64>().is_ok();
            match number_token_parses(lexeme) {
                Ok(Expr::Float(text)) => {
                    assert!(is_float, "{lexeme} is no number");
                    assert_eq!(&text, lexeme);
                }
                Err(Error::MalformedFloat) => assert!(!is_float, "{lexeme} is a number"),
                _ => panic!("{lexeme} is neither a float nor malformed"),
            }
            checked += 1;
        }
        lexemes = longer;
    }
    assert!(checked > 10_000);
}

#[test]
fn integer_literals_follow_their_radix() {
    assert!(matches!(number_token_parses("0xff"), Ok(Expr::Int(255))));
    assert!(matches!(number_token_parses("0xFF"), Ok(Expr::Int(255))));
    assert!(matches!(number_token_parses("0b2"), Err(Error::MalformedInt)));
    assert!(matches!(number_token_parses("0o8"), Err(Error::MalformedInt)));
    assert!(matches!(number_token_parses("0x"), Err(Error::MalformedInt)));
    assert!(matches!(number_token_parses(""), Err(Error::MalformedInt)));
    assert!(matches!(number_token_parses("-"), Err(Error::MalformedInt)));
    assert!(matches!(number_token_parses("+5"), Ok(Expr::Int(5))));
    assert!(matches!(number_token_parses("-0"), Ok(Expr::Int(0))));
    assert!(matches!(number_token_parses("12a"), Err(Error::MalformedInt)));
    assert!(matches!(number_token_parses("0x-1f"), Ok(Expr::Int(-31))));
}
