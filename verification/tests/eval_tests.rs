use sip::ast::{self, Node};
use sip::errors::EvalError;
use sip::eval::Interpreter;
use sip::float::FloatBits;
use sip::lexer::Lexer;
use sip::object::Object;
use sip::parser::Parser;
use sip::tokens::Token;

#[test]
fn test_eval_integer() {
    let n = Node::Literal(Token::Integer(100));
    let mut intpter = Interpreter::new();
    let v = intpter.eval(n);
    assert_eq!(v.is_ok(), true);
    assert_eq!(Object::Integer(100), v.unwrap());
}

#[test]
fn test_eval_literal1() {
    let n = Node::Literal(Token::SString("Hello, World!".to_string()));
    let mut intpter = Interpreter::new();
    let v = intpter.eval(n);
    assert_eq!(v.is_ok(), true);
    assert_eq!(Object::SString("Hello, World!".to_string()), v.unwrap());
}

#[test]
fn test_eval_literals() {
    let nodes = vec![
        Node::Literal(Token::True),
        Node::Literal(Token::False),
        Node::Literal(Token::Integer(1024)),
        Node::Literal(Token::Float(FloatBits((1024.8 as f64).to_bits()))),
        Node::Literal(Token::SString("Hi".to_string())),
    ];
    let expect_obj = vec![
        Object::Bool(true),
        Object::Bool(false),
        Object::Integer(1024),
        Object::Float(FloatBits((1024.8 as f64).to_bits())),
        Object::SString("Hi".to_string()),
    ];
    let mut intpter = Interpreter::new();

    let mut idx = 0 as usize;
    for node in nodes {
        let v = intpter.eval(node);
        assert_eq!(v.is_ok(), true);
        assert_eq!(expect_obj[idx], v.unwrap());
        idx += 1;
    }
}

#[test]
fn test_eval_assign() {
    let n = Node::Assign(ast::Assign::new(
        Token::Ident("x".to_string()),
        Node::Literal(Token::Integer(1024)),
    ));
    let mut intpter = Interpreter::new();
    let v = intpter.eval(n);
    assert_eq!(v.is_ok(), true);
    assert_eq!(Object::Integer(1024), v.unwrap());

    let val = intpter.get_value("x".to_string());
    println!("{:?}", val);
    assert_eq!(val.is_some(), true);
    assert_eq!(*val.unwrap(), Object::Integer(1024));
}

#[test]
fn test_eval_assign1() {
    let n = Node::Assign(ast::Assign::new(
        Token::Integer(1),
        Node::Literal(Token::Integer(1024)),
    ));
    let mut intpter = Interpreter::new();
    let v = intpter.eval(n);
    assert_eq!(v.is_err(), true);
    assert_eq!(v.err(), Some(EvalError::TkIsNotIdent(Token::Integer(1))));
}

#[test]
fn test_eval_binary() {
    let n = Node::Binary(
        Box::new(Node::Literal(Token::Integer(1024))),
        Token::Plus('+'),
        Box::new(Node::Literal(Token::Integer(1024))),
    );
    let mut intpter = Interpreter::new();
    let v = intpter.eval(n);
    println!("obj: {:?}", v);
    assert_eq!(v.is_ok(), true);
    assert_eq!(Object::Number(FloatBits((2048 as f64).to_bits())), v.unwrap());

    let v1 = intpter.eval(Node::Binary(
        Box::new(Node::Literal(Token::Integer(1))),
        Token::Minus('-'),
        Box::new(Node::Literal(Token::Integer(100))),
    ));
    println!("obj: {:?}", v1);
    assert_eq!(v1.is_ok(), true);
    assert_eq!(Object::Number(FloatBits((-99 as f64).to_bits())), v1.unwrap());

    let v1 = intpter.eval(Node::Binary(
        Box::new(Node::Literal(Token::Integer(2))),
        Token::Star('*'),
        Box::new(Node::Literal(Token::Integer(256))),
    ));
    println!("obj: {:?}", v1);
    assert_eq!(v1.is_ok(), true);
    assert_eq!(Object::Number(FloatBits((512 as f64).to_bits())), v1.unwrap());

    let v1 = intpter.eval(Node::Binary(
        Box::new(Node::Literal(Token::Integer(2048))),
        Token::Slash('/'),
        Box::new(Node::Literal(Token::Integer(2))),
    ));
    println!("2048 / 2 = : {:?}", v1);
    assert_eq!(v1.is_ok(), true);
    assert_eq!(Object::Number(FloatBits((1024 as f64).to_bits())), v1.unwrap());
}

#[test]
fn test_eval_compare() {
    let nodes = vec![
        Node::Binary(
            Box::new(Node::Literal(Token::Integer(1024))),
            Token::Lt("<".to_string()),
            Box::new(Node::Literal(Token::Integer(1024))),
        ),
        Node::Binary(
            Box::new(Node::Literal(Token::Integer(1000))),
            Token::LtEQ("<=".to_string()),
            Box::new(Node::Literal(Token::Integer(1024))),
        ),
        Node::Binary(
            Box::new(Node::Literal(Token::SString("abc".to_string()))),
            Token::Gt(">".to_string()),
            Box::new(Node::Literal(Token::SString("xyz".to_string()))),
        ),
        Node::Binary(
            Box::new(Node::Literal(Token::SString("def".to_string()))),
            Token::GtEQ(">=".to_string()),
            Box::new(Node::Literal(Token::SString("abc".to_string()))),
        ),
    ];

    let mut intpter = Interpreter::new();
    let expect_result = vec![
        Object::Bool(false),
        Object::Bool(true),
        Object::Bool(false),
        Object::Bool(true),
    ];

    let mut idx = 0;
    for n in nodes {
        let v = intpter.eval(n);
        println!("obj: {:?}", v);
        assert_eq!(v.is_ok(), true);
        assert_eq!(expect_result[idx], v.unwrap());
        idx += 1;
    }
}

#[test]
fn test_eval_compare_err() {
    let n = Node::Binary(
        Box::new(Node::Literal(Token::SString("def".to_string()))),
        Token::GtEQ(">=".to_string()),
        Box::new(Node::Literal(Token::Integer(1024))),
    );
    let mut intpter = Interpreter::new();
    let v = intpter.eval(n);
    println!("obj: {:?}", v);
    assert_eq!(v.is_err(), true);
    assert_eq!(
        v.err(),
        Some(EvalError::DifferObjectToCompare(
            Object::SString("def".to_string()),
            Object::Integer(1024)
        ))
    );
}

#[test]
fn test_eval_var_stmt() {
    let n = Node::VarStmt(ast::VarStmt::new(
        Token::Ident("x".to_string()),
        Node::Literal(Token::Integer(1024)),
    ));
    let mut intpter = Interpreter::new();
    let v = intpter.eval(n);
    println!("obj: {:?}", v);
    assert_eq!(v.is_ok(), true);
    assert_eq!(Object::Integer(1024), v.unwrap());

    let x_v = intpter.get_value("x".to_string());
    println!("x_v: {:?}", x_v);
    assert_eq!(Some(&Object::Integer(1024)), x_v);
}

#[test]
fn test_eval_var_stmt1() {
    let n = Node::VarStmt(ast::VarStmt::new(
        Token::Integer(1),
        Node::Literal(Token::Integer(1024)),
    ));
    let mut intpter = Interpreter::new();
    let v = intpter.eval(n);
    println!("obj: {:?}", v);
    assert_eq!(v.is_err(), true);
    assert_eq!(Some(EvalError::NotIdent(Token::Integer(1))), v.err());
}

#[test]
fn test_eval_divide_by_zero() {
    let mut intpter = Interpreter::new();
    let v = intpter.eval(Node::Binary(
        Box::new(Node::Literal(Token::Integer(2048))),
        Token::Slash('/'),
        Box::new(Node::Literal(Token::Integer(0))),
    ));
    assert_eq!(
        v,
        Err(EvalError::DivideByZero(
            "right: Integer(0) num is zero".to_string()
        ))
    );
}

#[test]
fn test_eval_divide_by_float_zero() {
    let mut intpter = Interpreter::new();
    let v = intpter.eval(Node::Binary(
        Box::new(Node::Literal(Token::Integer(7))),
        Token::Slash('/'),
        Box::new(Node::Literal(Token::Float(FloatBits((0.0 as f64).to_bits())))),
    ));
    assert_eq!(
        v,
        Err(EvalError::DivideByZero(
            "right: Float(0.0) num is zero".to_string()
        ))
    );

    let v = intpter.eval(Node::Binary(
        Box::new(Node::Literal(Token::Integer(7))),
        Token::Slash('/'),
        Box::new(Node::Literal(Token::Float(FloatBits((-0.0 as f64).to_bits())))),
    ));
    assert_eq!(
        v,
        Err(EvalError::DivideByZero(
            "right: Float(-0.0) num is zero".to_string()
        ))
    );
}

#[test]
fn test_eval_divide_by_number_zero() {
    let mut intpter = Interpreter::new();
    // The right operand is itself an arithmetic result, a `Number` zero.
    let zero = Node::Binary(
        Box::new(Node::Literal(Token::Integer(0))),
        Token::Star('*'),
        Box::new(Node::Literal(Token::Integer(5))),
    );
    let v = intpter.eval(Node::Binary(
        Box::new(Node::Literal(Token::Integer(7))),
        Token::Slash('/'),
        Box::new(zero),
    ));
    assert_eq!(
        v,
        Err(EvalError::DivideByZero(
            "right: Number(0.0) num is zero".to_string()
        ))
    );
}

#[test]
fn test_eval_float_arithmetic() {
    let mut intpter = Interpreter::new();
    let v = intpter.eval(Node::Binary(
        Box::new(Node::Literal(Token::Float(FloatBits((1.5 as f64).to_bits())))),
        Token::Plus('+'),
        Box::new(Node::Literal(Token::Float(FloatBits((2.25 as f64).to_bits())))),
    ));
    assert_eq!(v, Ok(Object::Number(FloatBits((3.75 as f64).to_bits()))));

    let v = intpter.eval(Node::Binary(
        Box::new(Node::Literal(Token::Integer(1))),
        Token::Slash('/'),
        Box::new(Node::Literal(Token::Integer(3))),
    ));
    assert_eq!(
        v,
        Ok(Object::Number(FloatBits((1.0 as f64 / 3.0 as f64).to_bits())))
    );
}

#[test]
fn test_eval_unary() {
    let mut intpter = Interpreter::new();
    let v = intpter.eval(Node::Unary(
        Token::Bang,
        Box::new(Node::Literal(Token::True)),
    ));
    assert_eq!(v, Ok(Object::Bool(false)));

    let v = intpter.eval(Node::Unary(
        Token::Minus('-'),
        Box::new(Node::Literal(Token::Integer(5))),
    ));
    assert_eq!(v, Ok(Object::Integer(-5)));

    let v = intpter.eval(Node::Unary(
        Token::Minus('-'),
        Box::new(Node::Literal(Token::Float(FloatBits((2.5 as f64).to_bits())))),
    ));
    assert_eq!(v, Ok(Object::Float(FloatBits((-2.5 as f64).to_bits()))));

    let v = intpter.eval(Node::Unary(
        Token::Bang,
        Box::new(Node::Literal(Token::Integer(1))),
    ));
    assert_eq!(v, Err(EvalError::NotLiteral(Token::Bang)));
}

#[test]
fn test_eval_if_else() {
    let mut intpter = Interpreter::new();
    let v = intpter.eval(Node::IfStmt(
        Box::new(Node::Literal(Token::True)),
        Box::new(Node::Literal(Token::Integer(1))),
        Box::new(Node::Literal(Token::Integer(2))),
    ));
    assert_eq!(v, Ok(Object::Integer(1)));

    let v = intpter.eval(Node::IfStmt(
        Box::new(Node::Literal(Token::False)),
        Box::new(Node::Literal(Token::Integer(1))),
        Box::new(Node::Null),
    ));
    assert_eq!(v, Ok(Object::Null));

    let v = intpter.eval(Node::IfStmt(
        Box::new(Node::Literal(Token::Integer(3))),
        Box::new(Node::Literal(Token::Integer(1))),
        Box::new(Node::Null),
    ));
    assert_eq!(v, Err(EvalError::NotTruthCond(Object::Integer(3))));
}

#[test]
fn test_eval_logical_short_circuit() {
    let mut intpter = Interpreter::new();
    // A false left operand of `&&` answers without evaluating the right:
    // the unbound identifier would otherwise be an error.
    let v = intpter.eval(Node::Logical(
        Box::new(Node::Literal(Token::False)),
        Token::And,
        Box::new(Node::Identifier(Token::Ident("nope".to_string()))),
    ));
    assert_eq!(v, Ok(Object::Bool(false)));

    let v = intpter.eval(Node::Logical(
        Box::new(Node::Literal(Token::True)),
        Token::Or,
        Box::new(Node::Identifier(Token::Ident("nope".to_string()))),
    ));
    assert_eq!(v, Ok(Object::Bool(true)));

    let v = intpter.eval(Node::Logical(
        Box::new(Node::Literal(Token::True)),
        Token::And,
        Box::new(Node::Literal(Token::False)),
    ));
    assert_eq!(v, Ok(Object::Bool(false)));
}

#[test]
fn test_eval_identifier_not_found() {
    let mut intpter = Interpreter::new();
    let v = intpter.eval(Node::Identifier(Token::Ident("y".to_string())));
    assert_eq!(v, Err(EvalError::IdentNotFound("y".to_string())));
}

#[test]
fn test_eval_identifier_idempotent() {
    let mut intpter = Interpreter::new();
    intpter
        .eval(Node::VarStmt(ast::VarStmt::new(
            Token::Ident("x".to_string()),
            Node::Literal(Token::Integer(7)),
        )))
        .unwrap();
    let first = intpter.eval(Node::Identifier(Token::Ident("x".to_string())));
    let second = intpter.eval(Node::Identifier(Token::Ident("x".to_string())));
    assert_eq!(first, Ok(Object::Integer(7)));
    assert_eq!(first, second);
}

#[test]
fn test_eval_var_literal_roundtrip() {
    let mut intpter = Interpreter::new();
    let declared = intpter
        .eval(Node::VarStmt(ast::VarStmt::new(
            Token::Ident("s".to_string()),
            Node::Literal(Token::SString("hi".to_string())),
        )))
        .unwrap();
    let looked_up = intpter
        .eval(Node::Identifier(Token::Ident("s".to_string())))
        .unwrap();
    assert_eq!(declared, Object::SString("hi".to_string()));
    assert_eq!(declared, looked_up);
}

#[test]
fn test_eval_return_wraps() {
    let mut intpter = Interpreter::new();
    let v = intpter.eval(Node::Return(ast::Return::new(Node::Literal(
        Token::Integer(3),
    ))));
    assert_eq!(v, Ok(Object::Return(Box::new(Object::Integer(3)))));
}

#[test]
fn test_eval_block_and_group() {
    let mut intpter = Interpreter::new();
    let v = intpter.eval(Node::Block(vec![
        Node::VarStmt(ast::VarStmt::new(
            Token::Ident("x".to_string()),
            Node::Literal(Token::Integer(1)),
        )),
        Node::Identifier(Token::Ident("x".to_string())),
    ]));
    assert_eq!(v, Ok(Object::Integer(1)));

    let v = intpter.eval(Node::Group(Box::new(Node::Literal(Token::Integer(9)))));
    assert_eq!(v, Ok(Object::Integer(9)));
}

#[test]
fn test_eval_number_not_comparable() {
    let mut intpter = Interpreter::new();
    // Arithmetic results are `Number`s, and comparison accepts only
    // integers, floats and strings.
    let sum = Node::Binary(
        Box::new(Node::Literal(Token::Integer(1))),
        Token::Plus('+'),
        Box::new(Node::Literal(Token::Integer(1))),
    );
    let v = intpter.eval(Node::Binary(
        Box::new(sum),
        Token::Lt("<".to_string()),
        Box::new(Node::Literal(Token::Integer(3))),
    ));
    assert_eq!(
        v,
        Err(EvalError::NotNumberOrStr(Object::Number(FloatBits(
            (2 as f64).to_bits()
        ))))
    );
}

#[test]
fn test_eval_program_pipeline() {
    let mut lexer = Lexer::new("var x = 100 x + 28".to_string());
    let tokens = lexer.scan_tokens().unwrap();
    let mut parser = Parser::new(tokens);
    let program = parser.parse().unwrap();
    let mut intpter = Interpreter::new();
    let result = intpter.eval_program(program);
    assert_eq!(result, Ok(Object::Number(FloatBits((128 as f64).to_bits()))));
    assert_eq!(
        intpter.get_value("x".to_string()),
        Some(&Object::Integer(100))
    );
}

#[test]
fn test_eval_empty_program() {
    let mut parser = Parser::new(vec![Token::EOF]);
    let program = parser.parse().unwrap();
    let mut intpter = Interpreter::new();
    assert_eq!(intpter.eval_program(program), Ok(Object::Null));
}

#[test]
fn test_eval_string_compare_all_operators() {
    let mut intpter = Interpreter::new();
    let cases = vec![
        (Token::Lt("<".to_string()), true),
        (Token::LtEQ("<=".to_string()), true),
        (Token::Gt(">".to_string()), false),
        (Token::GtEQ(">=".to_string()), false),
        (Token::EQ("==".to_string()), false),
        (Token::NotEQ("!=".to_string()), true),
    ];
    for (op, expected) in cases {
        let v = intpter.eval(Node::Binary(
            Box::new(Node::Literal(Token::SString("abc".to_string()))),
            op,
            Box::new(Node::Literal(Token::SString("abd".to_string()))),
        ));
        assert_eq!(v, Ok(Object::Bool(expected)));
    }
}

#[test]
fn test_eval_unknown_node() {
    let mut intpter = Interpreter::new();
    let v = intpter.eval(Node::ExpressionStmt(Box::new(Node::Null)));
    assert_eq!(
        v,
        Err(EvalError::UnknowNode(Node::ExpressionStmt(Box::new(
            Node::Null
        ))))
    );
}
