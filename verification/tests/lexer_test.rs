use tan::error::Error;
use tan::lexer::token::Token;
use tan::lexer::{is_delimiter, is_eol, is_whitespace, Lexer};
use tan::range::Ranged;
use tan::util::{is_reserved_symbol, Break};

fn lex_tokens(input: &str) -> Vec<Ranged<Token>> {
    let mut lexer = Lexer::new(input);
    lexer.lex().unwrap()
}

fn source_of(input: &str, token: &Ranged<Token>) -> String {
    input
        .chars()
        .skip(token.1.start)
        .take(token.1.end - token.1.start)
        .collect()
}

#[test]
fn lex_scans_a_simple_call() {
    let tokens = lex_tokens("(+ 1 3_000)");
    let kinds: Vec<&Token> = tokens.iter().map(|t| &t.0).collect();
    assert_eq!(
        kinds,
        vec![
            &Token::LeftParen,
            &Token::Symbol("+".to_owned()),
            &Token::Number("1".to_owned()),
            &Token::Number("3000".to_owned()),
            &Token::RightParen,
        ]
    );
    assert_eq!(tokens[3].1.start, 5);
    assert_eq!(tokens[3].1.end, 10);
}

#[test]
fn lex_reports_unexpected_eol() {
    let mut lexer = Lexer::new("(let a -");
    let err = lexer.lex().unwrap_err();
    assert!(matches!(err.0, Error::UnexpectedEol));
    assert_eq!(err.1.start, 7);
}

#[test]
fn lex_reports_unterminated_strings() {
    let mut lexer = Lexer::new("(write \"Hello)");
    let err = lexer.lex().unwrap_err();
    assert!(matches!(err.0, Error::UnterminatedString));
    assert_eq!(err.1.start, 7);
    assert_eq!(err.1.end, 14);
}

#[test]
fn lex_reports_unterminated_annotations() {
    let mut lexer = Lexer::new("#(inline true 1");
    let err = lexer.lex().unwrap_err();
    assert!(matches!(err.0, Error::UnterminatedAnnotation));
    assert_eq!((err.1.start, err.1.end), (0, 15));
}

#[test]
fn lex_scans_every_kind_of_token() {
    let input = "'[a] {b} ; note\n#Int #(inline true) \"s\" -x -12 x,y";
    let tokens = lex_tokens(input);
    let kinds: Vec<Token> = tokens.iter().map(|t| t.0.clone()).collect();
    assert_eq!(
        kinds,
        vec![
            Token::Quote,
            Token::LeftBracket,
            Token::Symbol("a".to_owned()),
            Token::RightBracket,
            Token::LeftBrace,
            Token::Symbol("b".to_owned()),
            Token::RightBrace,
            Token::Comment("; note".to_owned()),
            Token::Annotation("Int".to_owned()),
            Token::Annotation("(inline true)".to_owned()),
            Token::String("s".to_owned()),
            Token::Symbol("-x".to_owned()),
            Token::Number("-12".to_owned()),
            Token::Symbol("x".to_owned()),
            Token::Symbol("y".to_owned()),
        ]
    );
}

#[test]
fn lex_tokens_match_the_source_text() {
    let input = "(let a 3_000 \"text\" #Int b) ; done\n'sym";
    let tokens = lex_tokens(input);
    let mut last_end = 0;
    for token in &tokens {
        assert!(last_end <= token.1.start);
        assert!(token.1.start < token.1.end);
        last_end = token.1.end;
        let text = source_of(input, token);
        match &token.0 {
            Token::LeftParen => assert_eq!(text, "("),
            Token::RightParen => assert_eq!(text, ")"),
            Token::Quote => assert_eq!(text, "'"),
            Token::Symbol(s) => assert_eq!(&text, s),
            Token::Number(s) => assert_eq!(&text.replace('_', ""), s),
            Token::String(s) => assert_eq!(text, format!("\"{}\"", s)),
            Token::Annotation(s) => assert_eq!(text, format!("#{}", s)),
            Token::Comment(s) => assert_eq!(text, format!("{}\n", s)),
            _ => unreachable!(),
        }
    }
}

#[test]
fn lexer_input_is_what_is_left_to_read() {
    let mut lexer = Lexer::new("(a b)");
    assert_eq!(lexer.input(), "(a b)");
    lexer.lex().unwrap();
    assert_eq!(lexer.input(), "");
}

#[test]
fn lex_counts_positions_in_characters() {
    let tokens = lex_tokens("\"αβ\" x");
    assert_eq!((tokens[0].1.start, tokens[0].1.end), (0, 4));
    assert_eq!((tokens[1].1.start, tokens[1].1.end), (5, 6));
}

#[test]
fn character_classes() {
    assert!(is_whitespace(' '));
    assert!(is_whitespace(','));
    assert!(is_whitespace('\t'));
    assert!(!is_whitespace('a'));
    assert!(is_delimiter('('));
    assert!(is_delimiter('}'));
    assert!(!is_delimiter('<'));
    assert!(is_eol('\n'));
    assert!(!is_eol('\r'));
}

#[test]
fn reserved_symbols() {
    for name in [
        "do", "ann", "let", "if", "for", "for_each", "eval", "quot", "use", "Char", "Func",
        "Macro", "List", "Array", "Dict",
    ] {
        assert!(is_reserved_symbol(name));
    }
    assert!(!is_reserved_symbol("write"));
    assert!(!is_reserved_symbol("Do"));
    assert!(!is_reserved_symbol(""));
    assert_eq!(Break {}.to_string(), "Break");
}
