//! The error model: one independent error type per pipeline stage.  Every
//! stage stops at its first error and returns it; no stage recovers or
//! returns a partial result.

use crate::ast::{Node, NodeV};
use crate::object::{Object, ObjectV};
use crate::tokens::{Token, TokenV};
use vstd::prelude::*;

verus! {

/// An error of the lexing stage.
#[derive(Debug, PartialEq)]
pub enum LexerError {
    /// A character no rule of the lexical grammar covers.
    InvalidToken(char),
    /// A string literal that reaches end of input before its closing quote;
    /// carries the partial content, from the opening quote on.
    InvalidString(String),
    /// A numeral whose value cannot be represented; carries a message.
    InvalidNum(String),
}

/// The value of a [`LexerError`].
pub enum LexerErrorV {
    InvalidToken(char),
    InvalidString(Seq<char>),
    InvalidNum(Seq<char>),
}

impl View for LexerError {
    type V = LexerErrorV;

    open spec fn view(&self) -> LexerErrorV {
        match self {
            LexerError::InvalidToken(c) => LexerErrorV::InvalidToken(*c),
            LexerError::InvalidString(s) => LexerErrorV::InvalidString(s@),
            LexerError::InvalidNum(s) => LexerErrorV::InvalidNum(s@),
        }
    }
}

/// An error of the parsing stage.
#[derive(Debug, PartialEq)]
pub enum ParserError {
    /// A token no production of the grammar accepts at the current position.
    NotSupportedToken(Token),
    /// A required token is missing; carries a description of what was
    /// expected.
    ExpectedTokenNotFound(String),
}

/// The value of a [`ParserError`].
pub enum ParserErrorV {
    NotSupportedToken(TokenV),
    ExpectedTokenNotFound(Seq<char>),
}

impl View for ParserError {
    type V = ParserErrorV;

    open spec fn view(&self) -> ParserErrorV {
        match self {
            ParserError::NotSupportedToken(tk) => ParserErrorV::NotSupportedToken(tk@),
            ParserError::ExpectedTokenNotFound(s) => ParserErrorV::ExpectedTokenNotFound(s@),
        }
    }
}

/// An error of the evaluation stage.
#[derive(Debug, PartialEq)]
pub enum EvalError {
    NotLiteral(Token),
    NotNumber(Object),
    NotIdent(Token),
    NotNumberOrStr(Object),
    DifferObjectToCompare(Object, Object),
    DivideByZero(String),
    NotSupportedOperator(Token),
    TkIsNotIdent(Token),
    IdentNotFound(String),
    IdentifierIsNotCallable(String),
    OnlyClassInstanceHaveProperty(String),
    UnknowNode(Node),
    EmptyNode,
    /// A condition or logical operand that is not a boolean.
    NotTruthCond(Object),
}

/// The value of an [`EvalError`].
pub enum EvalErrorV {
    NotLiteral(TokenV),
    NotNumber(ObjectV),
    NotIdent(TokenV),
    NotNumberOrStr(ObjectV),
    DifferObjectToCompare(ObjectV, ObjectV),
    DivideByZero(Seq<char>),
    NotSupportedOperator(TokenV),
    TkIsNotIdent(TokenV),
    IdentNotFound(Seq<char>),
    IdentifierIsNotCallable(Seq<char>),
    OnlyClassInstanceHaveProperty(Seq<char>),
    UnknowNode(NodeV),
    EmptyNode,
    NotTruthCond(ObjectV),
}

impl View for EvalError {
    type V = EvalErrorV;

    open spec fn view(&self) -> EvalErrorV {
        match self {
            EvalError::NotLiteral(tk) => EvalErrorV::NotLiteral(tk@),
            EvalError::NotNumber(o) => EvalErrorV::NotNumber(o@),
            EvalError::NotIdent(tk) => EvalErrorV::NotIdent(tk@),
            EvalError::NotNumberOrStr(o) => EvalErrorV::NotNumberOrStr(o@),
            EvalError::DifferObjectToCompare(a, b) => EvalErrorV::DifferObjectToCompare(a@, b@),
            EvalError::DivideByZero(s) => EvalErrorV::DivideByZero(s@),
            EvalError::NotSupportedOperator(tk) => EvalErrorV::NotSupportedOperator(tk@),
            EvalError::TkIsNotIdent(tk) => EvalErrorV::TkIsNotIdent(tk@),
            EvalError::IdentNotFound(s) => EvalErrorV::IdentNotFound(s@),
            EvalError::IdentifierIsNotCallable(s) => EvalErrorV::IdentifierIsNotCallable(s@),
            EvalError::OnlyClassInstanceHaveProperty(s) => EvalErrorV::OnlyClassInstanceHaveProperty(
                s@,
            ),
            EvalError::UnknowNode(n) => EvalErrorV::UnknowNode(n@),
            EvalError::EmptyNode => EvalErrorV::EmptyNode,
            EvalError::NotTruthCond(o) => EvalErrorV::NotTruthCond(o@),
        }
    }
}

} // verus!
