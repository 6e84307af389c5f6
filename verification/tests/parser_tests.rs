use sip::ast::{Assign, Node, Program, VarStmt};
use sip::errors::ParserError;
use sip::float::FloatBits;
use sip::parser::Parser;
use sip::tokens::Token;

#[test]
fn test_parse_var() {
    let mut parser = Parser::new(vec![
        Token::Var,
        Token::Ident("x".to_string()),
        Token::Assign('='),
        Token::Integer(100),
        Token::EOF,
    ]);
    let res = parser.parse();
    println!("parse result: {:?}", res);
    assert_eq!(res.is_ok(), true);
    assert_eq!(
        Program::new(vec![Node::VarStmt(VarStmt::new(
            Token::Ident("x".to_string()),
            Node::Literal(Token::Integer(100))
        ))]),
        res.unwrap()
    );
}

#[test]
fn test_parse_literal() {
    let mut parser = Parser::new(vec![
        Token::Integer(100),
        Token::Float(FloatBits((66.88 as f64).to_bits())),
        Token::SString("Hello".to_string()),
        Token::True,
        Token::False,
        Token::EOF,
    ]);
    let res = parser.parse();
    println!("parse result: {:?}", res);
    assert_eq!(res.is_ok(), true);
    assert_eq!(
        Program::new(vec![
            Node::Literal(Token::Integer(100)),
            Node::Literal(Token::Float(FloatBits((66.88 as f64).to_bits()))),
            Node::Literal(Token::SString("Hello".to_string())),
            Node::Literal(Token::True),
            Node::Literal(Token::False),
        ]),
        res.unwrap()
    );
}

#[test]
fn test_parse_binary() {
    let mut parser = Parser::new(vec![
        Token::Integer(100),
        Token::Plus('+'),
        Token::Integer(1000),
        Token::Star('*'),
        Token::Integer(2),
        Token::EOF,
    ]);
    let res = parser.parse();
    println!("parse result: {:?}", res);
    assert_eq!(res.is_ok(), true);
    assert_eq!(
        Program::new(vec![Node::Binary(
            Box::new(Node::Literal(Token::Integer(100))),
            Token::Plus('+'),
            Box::new(Node::Binary(
                Box::new(Node::Literal(Token::Integer(1000))),
                Token::Star('*'),
                Box::new(Node::Literal(Token::Integer(2)))
            ))
        )]),
        res.unwrap()
    );
}

#[test]
fn test_parse_and_or() {
    let mut parser = Parser::new(vec![
        Token::Ident("a".to_string()),
        Token::Lt("<".to_string()),
        Token::Ident("b".to_string()),
        Token::And,
        Token::Ident("b".to_string()),
        Token::Gt(">".to_string()),
        Token::Ident("c".to_string()),
        Token::EOF,
    ]);
    let res = parser.parse();
    println!("parse result: {:?}", res);
    assert_eq!(res.is_ok(), true);
    assert_eq!(
        Program::new(vec![Node::Logical(
            Box::new(Node::Binary(
                Box::new(Node::Identifier(Token::Ident("a".to_string()))),
                Token::Lt("<".to_string()),
                Box::new(Node::Identifier(Token::Ident("b".to_string()))),
            )),
            Token::And,
            Box::new(Node::Binary(
                Box::new(Node::Identifier(Token::Ident("b".to_string()))),
                Token::Gt(">".to_string()),
                Box::new(Node::Identifier(Token::Ident("c".to_string()))),
            )),
        )]),
        res.unwrap()
    );
}

#[test]
fn test_parse_if() {
    let mut parser = Parser::new(vec![
        Token::If,
        Token::LParent('('),
        Token::Ident("b".to_string()),
        Token::Gt(">".to_string()),
        Token::Ident("a".to_string()),
        Token::RParent(')'),
        Token::LBrace('{'),
        Token::SString("then stmt".to_string()),
        Token::RBrace('}'),
        Token::EOF,
    ]);
    let res = parser.parse();
    println!("parse result: {:?}", res);
    assert_eq!(res.is_ok(), true);
    assert_eq!(
        Program::new(vec![Node::IfStmt(
            Box::new(Node::Binary(
                Box::new(Node::Identifier(Token::Ident("b".to_string()))),
                Token::Gt(">".to_string()),
                Box::new(Node::Identifier(Token::Ident("a".to_string()))),
            )),
            Box::new(Node::Block(vec![Node::Literal(Token::SString(
                "then stmt".to_string()
            ))])),
            Box::new(Node::Null)
        )]),
        res.unwrap()
    );
}

#[test]
fn test_parse_assignment() {
    let mut parser = Parser::new(vec![
        Token::Ident("x".to_string()),
        Token::Assign('='),
        Token::Integer(5),
        Token::EOF,
    ]);
    let res = parser.parse();
    assert_eq!(
        res,
        Ok(Program::new(vec![Node::Assign(Assign::new(
            Token::Ident("x".to_string()),
            Node::Literal(Token::Integer(5))
        ))]))
    );
}

#[test]
fn test_parse_assign_to_non_identifier() {
    let mut parser = Parser::new(vec![
        Token::Integer(5),
        Token::Assign('='),
        Token::Integer(6),
        Token::EOF,
    ]);
    let res = parser.parse();
    assert_eq!(res, Err(ParserError::NotSupportedToken(Token::Unkown)));
}

#[test]
fn test_parse_var_without_name() {
    let mut parser = Parser::new(vec![Token::Var, Token::Integer(5), Token::EOF]);
    let res = parser.parse();
    assert_eq!(
        res,
        Err(ParserError::ExpectedTokenNotFound(
            "expect ident token".to_string()
        ))
    );
}

#[test]
fn test_parse_var_without_initializer() {
    let mut parser = Parser::new(vec![
        Token::Var,
        Token::Ident("x".to_string()),
        Token::EOF,
    ]);
    let res = parser.parse();
    assert_eq!(
        res,
        Ok(Program::new(vec![Node::VarStmt(VarStmt::new(
            Token::Ident("x".to_string()),
            Node::Null
        ))]))
    );
}

#[test]
fn test_parse_if_without_paren() {
    let mut parser = Parser::new(vec![Token::If, Token::True, Token::EOF]);
    let res = parser.parse();
    assert_eq!(
        res,
        Err(ParserError::ExpectedTokenNotFound(
            "expect ( after if".to_string()
        ))
    );
}

#[test]
fn test_parse_unclosed_block() {
    let mut parser = Parser::new(vec![
        Token::LBrace('{'),
        Token::Integer(1),
        Token::EOF,
    ]);
    let res = parser.parse();
    assert_eq!(
        res,
        Err(ParserError::ExpectedTokenNotFound(
            "expect } after block".to_string()
        ))
    );
}

#[test]
fn test_parse_group() {
    let mut parser = Parser::new(vec![
        Token::LParent('('),
        Token::Integer(1),
        Token::RParent(')'),
        Token::EOF,
    ]);
    let res = parser.parse();
    assert_eq!(
        res,
        Ok(Program::new(vec![Node::Group(Box::new(Node::Literal(
            Token::Integer(1)
        )))]))
    );
}

#[test]
fn test_parse_unary() {
    let mut parser = Parser::new(vec![
        Token::Minus('-'),
        Token::Integer(1),
        Token::EOF,
    ]);
    let res = parser.parse();
    assert_eq!(
        res,
        Ok(Program::new(vec![Node::Unary(
            Token::Minus('-'),
            Box::new(Node::Literal(Token::Integer(1)))
        )]))
    );
}

#[test]
fn test_parse_not_supported_token() {
    let mut parser = Parser::new(vec![Token::RParent(')'), Token::EOF]);
    let res = parser.parse();
    assert_eq!(res, Err(ParserError::NotSupportedToken(Token::RParent(')'))));
}

#[test]
fn test_parse_empty() {
    let mut parser = Parser::new(vec![Token::EOF]);
    let res = parser.parse();
    assert_eq!(res, Ok(Program::new(vec![])));
}

#[test]
fn test_parse_for_placeholder() {
    let mut parser = Parser::new(vec![Token::For, Token::While, Token::Return, Token::EOF]);
    let res = parser.parse();
    assert_eq!(
        res,
        Ok(Program::new(vec![Node::Null, Node::Null, Node::Null]))
    );
}
