use loxrs::error::{LoxErr, ScannerError};
use loxrs::scanner::{locate, locate_all, number_lexemes, scan, with_numbers};
use loxrs::token::{Literal, Span, Token, TokenType};

fn kinds(source: &str) -> Vec<TokenType> {
    scan(source).unwrap().iter().map(|t| t.token_type).collect()
}

fn numbered(source: &str) -> Vec<Token> {
    let tokens = scan(source).unwrap();
    let values: Vec<Option<u64>> = number_lexemes(&tokens)
        .iter()
        .map(|text| text.parse::<f64>().ok().map(f64::to_bits))
        .collect();
    with_numbers(tokens, &values).unwrap()
}

#[test]
fn empty_source_is_just_eof() {
    let tokens = scan("").unwrap();
    assert_eq!(tokens.len(), 1);
    assert_eq!(tokens[0].token_type, TokenType::Eof);
    assert_eq!(tokens[0].line, 1);
    assert_eq!(tokens[0].column, 1);
    assert_eq!(tokens[0].span, Span { start: 0, end: 0 });
}

#[test]
fn punctuation_and_operators() {
    assert_eq!(
        kinds("( ) { } , . - + ; / * ? :"),
        vec![
            TokenType::LeftParen,
            TokenType::RightParen,
            TokenType::LeftBrace,
            TokenType::RightBrace,
            TokenType::Comma,
            TokenType::Dot,
            TokenType::Minus,
            TokenType::Plus,
            TokenType::SemiColon,
            TokenType::Slash,
            TokenType::Star,
            TokenType::QuestionMark,
            TokenType::Colon,
            TokenType::Eof,
        ]
    );
    assert_eq!(
        kinds("! != = == < <= > >="),
        vec![
            TokenType::Bang,
            TokenType::BangEqual,
            TokenType::Equal,
            TokenType::EqualEqual,
            TokenType::Less,
            TokenType::LessEqual,
            TokenType::Greater,
            TokenType::GreaterEqual,
            TokenType::Eof,
        ]
    );
    assert_eq!(
        kinds("!==="),
        vec![TokenType::BangEqual, TokenType::EqualEqual, TokenType::Eof]
    );
}

#[test]
fn keywords_and_identifiers() {
    assert_eq!(
        kinds("and class else false fun for if nil or print return super this true var while"),
        vec![
            TokenType::And,
            TokenType::Class,
            TokenType::Else,
            TokenType::False,
            TokenType::Fun,
            TokenType::For,
            TokenType::If,
            TokenType::Nil,
            TokenType::Or,
            TokenType::Print,
            TokenType::Return,
            TokenType::Super,
            TokenType::This,
            TokenType::True,
            TokenType::Var,
            TokenType::While,
            TokenType::Eof,
        ]
    );
    let tokens = scan("classy _x1 orchid").unwrap();
    assert_eq!(tokens.len(), 4);
    for (token, name) in tokens.iter().zip(["classy", "_x1", "orchid"]) {
        assert_eq!(token.token_type, TokenType::Identifier);
        assert!(matches!(&token.literal, Some(Literal::String(s)) if s == name));
    }
}

#[test]
fn strings_carry_their_contents() {
    let tokens = scan("\"hi there\" \"\"").unwrap();
    assert_eq!(tokens.len(), 3);
    assert!(matches!(&tokens[0].literal, Some(Literal::String(s)) if s == "hi there"));
    assert_eq!(tokens[0].span, Span { start: 0, end: 10 });
    assert!(matches!(&tokens[1].literal, Some(Literal::String(s)) if s.is_empty()));
}

#[test]
fn spans_are_in_bytes_and_columns_in_characters() {
    let tokens = scan("\"\u{e9}\u{20ac}\" x").unwrap();
    assert_eq!(tokens[0].span, Span { start: 0, end: 7 });
    assert_eq!(tokens[1].span, Span { start: 8, end: 9 });
    assert_eq!(tokens[1].column, 6);
}

#[test]
fn numbers_keep_their_text_until_valued() {
    let tokens = scan("12 3.25 7.").unwrap();
    assert_eq!(
        tokens.iter().map(|t| t.token_type).collect::<Vec<_>>(),
        vec![
            TokenType::Number,
            TokenType::Number,
            TokenType::Number,
            TokenType::Dot,
            TokenType::Eof
        ]
    );
    assert_eq!(number_lexemes(&tokens), vec!["12", "3.25", "7"]);
    let tokens = numbered("12 3.25 7.");
    assert!(matches!(tokens[0].literal, Some(Literal::Number(b)) if f64::from_bits(b) == 12.0));
    assert!(matches!(tokens[1].literal, Some(Literal::Number(b)) if f64::from_bits(b) == 3.25));
    assert!(matches!(tokens[2].literal, Some(Literal::Number(b)) if f64::from_bits(b) == 7.0));
}

#[test]
fn a_number_without_value_is_invalid() {
    let tokens = scan("1 + 22").unwrap();
    let errors = with_numbers(tokens, &vec![Some(1.0f64.to_bits()), None]).unwrap_err();
    assert_eq!(errors.len(), 1);
    assert!(matches!(&errors[0].0, ScannerError::InvalidNumber(s) if s == "22"));
    assert_eq!(errors[0].1, Span { start: 4, end: 6 });
    let tokens = scan("1 + 22").unwrap();
    let errors = with_numbers(tokens, &vec![]).unwrap_err();
    assert_eq!(errors.len(), 2);
}

#[test]
fn comments_and_white_space_are_skipped() {
    assert_eq!(
        kinds("a // rest of line\n\t b /* over\n lines * / still */ c\r\n\x0c"),
        vec![
            TokenType::Identifier,
            TokenType::Identifier,
            TokenType::Identifier,
            TokenType::Eof
        ]
    );
    assert_eq!(kinds("/**/1"), vec![TokenType::Number, TokenType::Eof]);
    assert_eq!(kinds("/***/1"), vec![TokenType::Number, TokenType::Eof]);
}

#[test]
fn block_comments_do_not_nest() {
    assert_eq!(
        kinds("/* /* */ x"),
        vec![TokenType::Identifier, TokenType::Eof]
    );
}

#[test]
fn lines_and_columns_count_from_one() {
    let tokens = scan("a\n  bb\n/* x\n y */ c").unwrap();
    assert_eq!((tokens[0].line, tokens[0].column), (1, 1));
    assert_eq!((tokens[1].line, tokens[1].column), (2, 3));
    assert_eq!((tokens[2].line, tokens[2].column), (4, 7));
    assert_eq!((tokens[3].line, tokens[3].column), (4, 8));
}

#[test]
fn unterminated_comment_is_malformed() {
    let errors = scan("1 /* never closed").unwrap_err();
    assert_eq!(errors.len(), 1);
    assert!(matches!(errors[0].0, ScannerError::MalformedComment));
    assert_eq!(errors[0].1, Span { start: 2, end: 17 });
    let errors = scan("/*/").unwrap_err();
    assert!(matches!(errors[0].0, ScannerError::MalformedComment));
}

#[test]
fn string_open_at_end_of_line_is_malformed() {
    let errors = scan("\"abc\nx").unwrap_err();
    assert_eq!(errors.len(), 1);
    assert!(matches!(&errors[0].0, ScannerError::MalformedString(s) if s == "\"abc"));
    assert_eq!(errors[0].1, Span { start: 0, end: 4 });
    let errors = scan("\"abc").unwrap_err();
    assert!(matches!(&errors[0].0, ScannerError::MalformedString(s) if s == "\"abc"));
}

#[test]
fn every_error_is_reported() {
    let errors = scan("@ 1 # \"x").unwrap_err();
    assert_eq!(errors.len(), 3);
    assert!(matches!(&errors[0].0, ScannerError::UnrecognizedInput(_)));
    assert_eq!(errors[0].1, Span { start: 0, end: 1 });
    assert!(matches!(&errors[1].0, ScannerError::UnrecognizedInput(_)));
    assert_eq!(errors[1].1, Span { start: 4, end: 5 });
    assert!(matches!(&errors[2].0, ScannerError::MalformedString(_)));
}

#[test]
fn identifier_text() {
    let tokens = scan("this super foo 1").unwrap();
    assert_eq!(tokens[0].extract_identifier_str().ok(), Some("this"));
    assert_eq!(tokens[1].extract_identifier_str().ok(), Some("super"));
    assert_eq!(tokens[2].extract_identifier_str().ok(), Some("foo"));
    assert!(tokens[3].extract_identifier_str().is_err());
    let made = Token::new(TokenType::Identifier, None, 1, 1);
    assert!(made.extract_identifier_str().is_err());
    assert_eq!(made.with_span(Span { start: 1, end: 2 }).span.end, 2);
}

#[test]
fn bytes_are_located_by_line_and_column() {
    let source = "ab\nc\u{e9}d\n\nx";
    assert_eq!(locate(source, 0), (1, 1));
    assert_eq!(locate(source, 1), (1, 2));
    assert_eq!(locate(source, 2), (1, 3));
    assert_eq!(locate(source, 3), (2, 1));
    assert_eq!(locate(source, 4), (2, 2));
    // The byte 5 lies inside the two bytes of the second character of line 2.
    assert_eq!(locate(source, 5), (2, 3));
    assert_eq!(locate(source, 6), (2, 3));
    assert_eq!(locate(source, 7), (2, 4));
    assert_eq!(locate(source, 8), (3, 1));
    assert_eq!(locate(source, 9), (4, 1));
    assert_eq!(locate(source, 10), (4, 2));
    assert_eq!(locate(source, 1000), (4, 2));
    assert_eq!(locate("", 0), (1, 1));
}

#[test]
fn scanner_errors_are_located() {
    let source = "var a = 1;\n  @ \"open";
    let errors = scan(source).unwrap_err();
    assert_eq!(errors.len(), 2);
    let located = locate_all(source, &errors);
    assert_eq!(located.len(), 2);
    match &located[0] {
        LoxErr::Scan { line, col, message } => {
            assert_eq!((*line, *col), (2, 3));
            assert_eq!(message, "Unrecognized input: Unrecognized input");
        }
        other => panic!("unexpected error {:?}", other),
    }
    match &located[1] {
        LoxErr::Scan { line, col, message } => {
            assert_eq!((*line, *col), (2, 5));
            assert_eq!(message, "Malformed string: \"open");
        }
        other => panic!("unexpected error {:?}", other),
    }
    assert_eq!(
        located[0].message(),
        "Syntax error: Unrecognized input: Unrecognized input\nat line: 2, col: 3"
    );
}
