use sip::errors::LexerError;
use sip::float::FloatBits;
use sip::lexer::Lexer;
use sip::tokens::Token;

#[test]
fn test_scan_tokens1() {
    let input = " \n + - * \t /";
    let mut lexer = Lexer::new(input.to_string());
    let tokens_res = lexer.scan_tokens();
    assert_eq!(tokens_res.is_ok(), true);
    assert_eq!(
        vec![
            Token::Plus('+'),
            Token::Minus('-'),
            Token::Star('*'),
            Token::Slash('/'),
            Token::EOF,
        ],
        tokens_res.unwrap()
    );
}

#[test]
fn test_scan_tokens2() {
    let input = "( { [ ) } ]";
    let mut lexer = Lexer::new(input.to_string());
    let tokens_res = lexer.scan_tokens();
    assert_eq!(tokens_res.is_ok(), true);
    assert_eq!(
        vec![
            Token::LParent('('),
            Token::LBrace('{'),
            Token::LSBracket('['),
            Token::RParent(')'),
            Token::RBrace('}'),
            Token::RSBracket(']'),
            Token::EOF,
        ],
        tokens_res.unwrap()
    );
}

#[test]
fn test_scan_tokens3() {
    let input = "< <= > >=";
    let mut lexer = Lexer::new(input.to_string());
    let tokens_res = lexer.scan_tokens();
    assert_eq!(tokens_res.is_ok(), true);
    assert_eq!(
        vec![
            Token::Lt('<'.to_string()),
            Token::LtEQ("<=".to_string()),
            Token::Gt(">".to_string()),
            Token::GtEQ(">=".to_string()),
            Token::EOF,
        ],
        tokens_res.unwrap()
    );
}

#[test]
fn test_scan_tokens4() {
    let input = "100 256";
    let mut lexer = Lexer::new(input.to_string());
    let tokens_res = lexer.scan_tokens();
    assert_eq!(tokens_res.is_ok(), true);
    println!("{:?}", tokens_res);
    assert_eq!(
        vec![
            Token::Integer(100 as i64),
            Token::Integer(256 as i64),
            Token::EOF,
        ],
        tokens_res.unwrap()
    );
}

#[test]
fn test_scan_string_tokens() {
    let input = r#""Hello" "World""#;

    let mut lexer = Lexer::new(input.to_string());
    let tokens_res = lexer.scan_tokens();

    assert_eq!(tokens_res.is_ok(), true);
    println!("{:?}", tokens_res);
    assert_eq!(
        vec![
            Token::SString("Hello".to_string()),
            Token::SString("World".to_string()),
            Token::EOF,
        ],
        tokens_res.unwrap()
    );
}

#[test]
fn test_scan_string1_tokens() {
    let input = r#""Hello" "World" 866"#;
    println!("input: {:?}", input);

    let mut lexer = Lexer::new(input.to_string());
    let tokens_res = lexer.scan_tokens();
    println!("{:?}", tokens_res);

    assert_eq!(tokens_res.is_ok(), true);
    assert_eq!(
        vec![
            Token::SString("Hello".to_string()),
            Token::SString("World".to_string()),
            Token::Integer(866 as i64),
            Token::EOF,
        ],
        tokens_res.unwrap()
    );
}

#[test]
fn test_scan_ident_tokens() {
    let input = "abc func1";

    let mut lexer = Lexer::new(input.to_string());
    let tokens_res = lexer.scan_tokens();
    println!("{:?}", tokens_res);

    assert_eq!(tokens_res.is_ok(), true);
    assert_eq!(
        vec![
            Token::Ident("abc".to_string()),
            Token::Ident("func1".to_string()),
            Token::EOF,
        ],
        tokens_res.unwrap()
    );
}

#[test]
fn test_scan_keyword_tokens() {
    let input = "true false var print";

    let mut lexer = Lexer::new(input.to_string());
    let tokens_res = lexer.scan_tokens();
    println!("{:?}", tokens_res);

    assert_eq!(tokens_res.is_ok(), true);
    assert_eq!(
        vec![
            Token::True,
            Token::False,
            Token::Var,
            Token::Print,
            Token::EOF
        ],
        tokens_res.unwrap()
    );
}

#[test]
fn test_scan_keyword_tokens1() {
    let input = "if else for while return";

    let mut lexer = Lexer::new(input.to_string());
    let tokens_res = lexer.scan_tokens();
    println!("{:?}", tokens_res);

    assert_eq!(tokens_res.is_ok(), true);
    assert_eq!(
        vec![
            Token::If,
            Token::Else,
            Token::For,
            Token::While,
            Token::Return,
            Token::EOF,
        ],
        tokens_res.unwrap()
    );
}

#[test]
fn test_scan_float_num() {
    let input = "1.26 0.6 123";

    let mut lexer = Lexer::new(input.to_string());
    let tokens_res = lexer.scan_tokens();
    println!("{:?}", tokens_res);

    assert_eq!(tokens_res.is_ok(), true);
    assert_eq!(
        vec![
            Token::Float(FloatBits((1.26 as f64).to_bits())),
            Token::Float(FloatBits((0.6 as f64).to_bits())),
            Token::Integer(123 as i64),
            Token::EOF,
        ],
        tokens_res.unwrap()
    )
}

#[test]
fn test_scan_or_and() {
    let input = "| || & &&";

    let mut lexer = Lexer::new(input.to_string());
    let tokens_res = lexer.scan_tokens();
    println!("{:?}", tokens_res);

    assert_eq!(tokens_res.is_ok(), true);
    assert_eq!(
        vec![
            Token::BitOr,
            Token::Or,
            Token::BitAnd,
            Token::And,
            Token::EOF
        ],
        tokens_res.unwrap()
    )
}

#[test]
fn test_parse_float() {
    let num_text = "1.266";
    match num_text.parse::<f64>() {
        Ok(n) => println!("num: {}", n),
        Err(e) => println!("err: {}", e),
    }
}

#[test]
fn test_scan_unterminated_string() {
    let input = "\"Hello";
    let mut lexer = Lexer::new(input.to_string());
    let tokens_res = lexer.scan_tokens();
    assert_eq!(
        tokens_res,
        Err(LexerError::InvalidString("\"Hello".to_string()))
    );
}

#[test]
fn test_scan_invalid_token() {
    let input = "100 @";
    let mut lexer = Lexer::new(input.to_string());
    let tokens_res = lexer.scan_tokens();
    assert_eq!(tokens_res, Err(LexerError::InvalidToken('@')));
}

#[test]
fn test_scan_integer_overflow() {
    let input = "99999999999999999999";
    let mut lexer = Lexer::new(input.to_string());
    let tokens_res = lexer.scan_tokens();
    assert_eq!(
        tokens_res,
        Err(LexerError::InvalidNum(
            "number too large to fit in target type".to_string()
        ))
    );
}

#[test]
fn test_scan_integer_max() {
    let input = "9223372036854775807";
    let mut lexer = Lexer::new(input.to_string());
    let tokens_res = lexer.scan_tokens();
    assert_eq!(
        tokens_res,
        Ok(vec![Token::Integer(i64::MAX), Token::EOF])
    );
}

#[test]
fn test_scan_trailing_dot_float() {
    let input = "1.";
    let mut lexer = Lexer::new(input.to_string());
    let tokens_res = lexer.scan_tokens();
    assert_eq!(
        tokens_res,
        Ok(vec![Token::Float(FloatBits((1.0 as f64).to_bits())), Token::EOF])
    );
}

#[test]
fn test_scan_two_char_operators_adjacent() {
    let input = "<=>=";
    let mut lexer = Lexer::new(input.to_string());
    let tokens_res = lexer.scan_tokens();
    assert_eq!(
        tokens_res,
        Ok(vec![
            Token::LtEQ("<=".to_string()),
            Token::GtEQ(">=".to_string()),
            Token::EOF
        ])
    );
}

#[test]
fn test_scan_second_decimal_point_not_consumed() {
    // A numeral takes at most one decimal point: the second dot is left
    // behind and no lexical rule covers it.
    let input = "12.3.4";
    let mut lexer = Lexer::new(input.to_string());
    let tokens_res = lexer.scan_tokens();
    assert_eq!(tokens_res, Err(LexerError::InvalidToken('.')));
}

#[test]
fn test_scan_empty_input() {
    let mut lexer = Lexer::new(String::new());
    let tokens_res = lexer.scan_tokens();
    assert_eq!(tokens_res, Ok(vec![Token::EOF]));
}

#[test]
fn test_scan_assign_and_eq() {
    let input = "= ==";
    let mut lexer = Lexer::new(input.to_string());
    let tokens_res = lexer.scan_tokens();
    assert_eq!(
        tokens_res,
        Ok(vec![
            Token::Assign('='),
            Token::EQ("==".to_string()),
            Token::EOF
        ])
    );
}

#[test]
fn test_scan_empty_string_literal() {
    let input = "\"\"";
    let mut lexer = Lexer::new(input.to_string());
    let tokens_res = lexer.scan_tokens();
    assert_eq!(
        tokens_res,
        Ok(vec![Token::SString(String::new()), Token::EOF])
    );
}
