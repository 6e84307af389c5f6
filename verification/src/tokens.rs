//! The token model: the closed set of lexical categories with their
//! literal payloads, the coarser [`TokenType`] classification the parser
//! dispatches on, and the keyword table.

use crate::float::FloatBits;
use vstd::prelude::*;

verus! {

/// One lexical unit.  Tokens are immutable once produced and equality is
/// structural: two tokens are equal exactly when variant and payload match.
#[derive(Debug, PartialEq)]
pub enum Token {
    Null,
    WhiteSpace,
    Ident(String),
    Integer(i64),
    Float(FloatBits),
    SString(String),
    True,
    False,
    /// keyword: var
    Var,
    /// keyword: print
    Print,
    If,
    Else,
    For,
    While,
    Return,
    Def,
    /// =
    Assign(char),
    /// +
    Plus(char),
    /// -
    Minus(char),
    /// *
    Star(char),
    /// /
    Slash(char),
    /// !
    Bang,
    /// |
    BitOr,
    /// ||
    Or,
    /// &
    BitAnd,
    /// &&
    And,
    /// (
    LParent(char),
    /// )
    RParent(char),
    /// {
    LBrace(char),
    /// }
    RBrace(char),
    /// [
    LSBracket(char),
    /// ]
    RSBracket(char),
    /// <
    Lt(String),
    /// <=
    LtEQ(String),
    /// >
    Gt(String),
    /// >=
    GtEQ(String),
    /// ==
    EQ(String),
    /// !=
    NotEQ(String),
    EOF,
    Unkown,
}

/// The mathematical value of a [`Token`]: the same tag, with each string
/// payload read as its sequence of characters and each float payload as
/// its bit pattern.
pub enum TokenV {
    Null,
    WhiteSpace,
    Ident(Seq<char>),
    Integer(i64),
    Float(u64),
    SString(Seq<char>),
    True,
    False,
    Var,
    Print,
    If,
    Else,
    For,
    While,
    Return,
    Def,
    Assign(char),
    Plus(char),
    Minus(char),
    Star(char),
    Slash(char),
    Bang,
    BitOr,
    Or,
    BitAnd,
    And,
    LParent(char),
    RParent(char),
    LBrace(char),
    RBrace(char),
    LSBracket(char),
    RSBracket(char),
    Lt(Seq<char>),
    LtEQ(Seq<char>),
    Gt(Seq<char>),
    GtEQ(Seq<char>),
    EQ(Seq<char>),
    NotEQ(Seq<char>),
    EOF,
    Unkown,
}

impl View for Token {
    type V = TokenV;

    open spec fn view(&self) -> TokenV {
        match self {
            Token::Null => TokenV::Null,
            Token::WhiteSpace => TokenV::WhiteSpace,
            Token::Ident(s) => TokenV::Ident(s@),
            Token::Integer(v) => TokenV::Integer(*v),
            Token::Float(b) => TokenV::Float(b.0),
            Token::SString(s) => TokenV::SString(s@),
            Token::True => TokenV::True,
            Token::False => TokenV::False,
            Token::Var => TokenV::Var,
            Token::Print => TokenV::Print,
            Token::If => TokenV::If,
            Token::Else => TokenV::Else,
            Token::For => TokenV::For,
            Token::While => TokenV::While,
            Token::Return => TokenV::Return,
            Token::Def => TokenV::Def,
            Token::Assign(c) => TokenV::Assign(*c),
            Token::Plus(c) => TokenV::Plus(*c),
            Token::Minus(c) => TokenV::Minus(*c),
            Token::Star(c) => TokenV::Star(*c),
            Token::Slash(c) => TokenV::Slash(*c),
            Token::Bang => TokenV::Bang,
            Token::BitOr => TokenV::BitOr,
            Token::Or => TokenV::Or,
            Token::BitAnd => TokenV::BitAnd,
            Token::And => TokenV::And,
            Token::LParent(c) => TokenV::LParent(*c),
            Token::RParent(c) => TokenV::RParent(*c),
            Token::LBrace(c) => TokenV::LBrace(*c),
            Token::RBrace(c) => TokenV::RBrace(*c),
            Token::LSBracket(c) => TokenV::LSBracket(*c),
            Token::RSBracket(c) => TokenV::RSBracket(*c),
            Token::Lt(s) => TokenV::Lt(s@),
            Token::LtEQ(s) => TokenV::LtEQ(s@),
            Token::Gt(s) => TokenV::Gt(s@),
            Token::GtEQ(s) => TokenV::GtEQ(s@),
            Token::EQ(s) => TokenV::EQ(s@),
            Token::NotEQ(s) => TokenV::NotEQ(s@),
            Token::EOF => TokenV::EOF,
            Token::Unkown => TokenV::Unkown,
        }
    }
}

/// The values of a sequence of tokens.
pub open spec fn tokens_view(v: Seq<Token>) -> Seq<TokenV> {
    Seq::new(v.len(), |i: int| v[i]@)
}

/// The lexical category of a token, with payloads forgotten.  The parser
/// dispatches on this classification alone.
#[derive(Debug, Clone, Copy, PartialEq, Eq, Structural)]
pub enum TokenType {
    Unkown,
    Null,
    Ident,
    Var,
    Assign,
    Or,
    And,
    True,
    False,
    Integer,
    Float,
    String,
    LParent,
    RParent,
    Lt,
    LtEQ,
    Gt,
    GtEQ,
    EQ,
    NotEQ,
    Slash,
    Star,
    Plus,
    Minus,
    Bang,
    If,
    Else,
    For,
    Return,
    While,
    Def,
    LBrace,
    RBrace,
}

impl TokenV {
    /// The category of a token value.  Tokens the grammar never inspects
    /// (whitespace, brackets, the bitwise operators, the end sentinel)
    /// fall into the `Unkown` category, as do unknown tokens themselves.
    pub open spec fn typ(self) -> TokenType {
        match self {
            TokenV::Ident(_) => TokenType::Ident,
            TokenV::Var => TokenType::Var,
            TokenV::Assign(_) => TokenType::Assign,
            TokenV::Or => TokenType::Or,
            TokenV::And => TokenType::And,
            TokenV::True => TokenType::True,
            TokenV::False => TokenType::False,
            TokenV::Integer(_) => TokenType::Integer,
            TokenV::Float(_) => TokenType::Float,
            TokenV::SString(_) => TokenType::String,
            TokenV::LParent(_) => TokenType::LParent,
            TokenV::RParent(_) => TokenType::RParent,
            TokenV::Slash(_) => TokenType::Slash,
            TokenV::Star(_) => TokenType::Star,
            TokenV::Plus(_) => TokenType::Plus,
            TokenV::Minus(_) => TokenType::Minus,
            TokenV::Bang => TokenType::Bang,
            TokenV::Lt(_) => TokenType::Lt,
            TokenV::LtEQ(_) => TokenType::LtEQ,
            TokenV::Gt(_) => TokenType::Gt,
            TokenV::GtEQ(_) => TokenType::GtEQ,
            TokenV::EQ(_) => TokenType::EQ,
            TokenV::NotEQ(_) => TokenType::NotEQ,
            TokenV::If => TokenType::If,
            TokenV::Else => TokenType::Else,
            TokenV::For => TokenType::For,
            TokenV::While => TokenType::While,
            TokenV::Return => TokenType::Return,
            TokenV::Def => TokenType::Def,
            TokenV::LBrace(_) => TokenType::LBrace,
            TokenV::RBrace(_) => TokenType::RBrace,
            _ => TokenType::Unkown,
        }
    }
}

impl Token {
    /// The lexical category of this token.
    pub fn token_type(&self) -> (r: TokenType)
        ensures
            r == self@.typ(),
    {
        match self {
            Token::Ident(_) => TokenType::Ident,
            Token::Var => TokenType::Var,
            Token::Assign(_) => TokenType::Assign,
            Token::Or => TokenType::Or,
            Token::And => TokenType::And,
            Token::True => TokenType::True,
            Token::False => TokenType::False,
            Token::Integer(_) => TokenType::Integer,
            Token::Float(_) => TokenType::Float,
            Token::SString(_) => TokenType::String,
            Token::LParent(_) => TokenType::LParent,
            Token::RParent(_) => TokenType::RParent,
            Token::Slash(_) => TokenType::Slash,
            Token::Star(_) => TokenType::Star,
            Token::Plus(_) => TokenType::Plus,
            Token::Minus(_) => TokenType::Minus,
            Token::Bang => TokenType::Bang,
            Token::Lt(_) => TokenType::Lt,
            Token::LtEQ(_) => TokenType::LtEQ,
            Token::Gt(_) => TokenType::Gt,
            Token::GtEQ(_) => TokenType::GtEQ,
            Token::EQ(_) => TokenType::EQ,
            Token::NotEQ(_) => TokenType::NotEQ,
            Token::If => TokenType::If,
            Token::Else => TokenType::Else,
            Token::For => TokenType::For,
            Token::While => TokenType::While,
            Token::Return => TokenType::Return,
            Token::Def => TokenType::Def,
            Token::LBrace(_) => TokenType::LBrace,
            Token::RBrace(_) => TokenType::RBrace,
            _ => TokenType::Unkown,
        }
    }
}

impl Clone for Token {
    /// A clone is equal to the token cloned.
    fn clone(&self) -> (r: Self)
        ensures
            r == *self,
    {
        match self {
            Token::Null => Token::Null,
            Token::WhiteSpace => Token::WhiteSpace,
            Token::Ident(s) => Token::Ident(s.clone()),
            Token::Integer(v) => Token::Integer(*v),
            Token::Float(b) => Token::Float(*b),
            Token::SString(s) => Token::SString(s.clone()),
            Token::True => Token::True,
            Token::False => Token::False,
            Token::Var => Token::Var,
            Token::Print => Token::Print,
            Token::If => Token::If,
            Token::Else => Token::Else,
            Token::For => Token::For,
            Token::While => Token::While,
            Token::Return => Token::Return,
            Token::Def => Token::Def,
            Token::Assign(c) => Token::Assign(*c),
            Token::Plus(c) => Token::Plus(*c),
            Token::Minus(c) => Token::Minus(*c),
            Token::Star(c) => Token::Star(*c),
            Token::Slash(c) => Token::Slash(*c),
            Token::Bang => Token::Bang,
            Token::BitOr => Token::BitOr,
            Token::Or => Token::Or,
            Token::BitAnd => Token::BitAnd,
            Token::And => Token::And,
            Token::LParent(c) => Token::LParent(*c),
            Token::RParent(c) => Token::RParent(*c),
            Token::LBrace(c) => Token::LBrace(*c),
            Token::RBrace(c) => Token::RBrace(*c),
            Token::LSBracket(c) => Token::LSBracket(*c),
            Token::RSBracket(c) => Token::RSBracket(*c),
            Token::Lt(s) => Token::Lt(s.clone()),
            Token::LtEQ(s) => Token::LtEQ(s.clone()),
            Token::Gt(s) => Token::Gt(s.clone()),
            Token::GtEQ(s) => Token::GtEQ(s.clone()),
            Token::EQ(s) => Token::EQ(s.clone()),
            Token::NotEQ(s) => Token::NotEQ(s.clone()),
            Token::EOF => Token::EOF,
            Token::Unkown => Token::Unkown,
        }
    }
}

/// The keyword token for the word `s`, if `s` is one of the fixed keywords.
pub open spec fn keyword_token(s: Seq<char>) -> Option<TokenV> {
    if s == "true"@ {
        Some(TokenV::True)
    } else if s == "false"@ {
        Some(TokenV::False)
    } else if s == "var"@ {
        Some(TokenV::Var)
    } else if s == "if"@ {
        Some(TokenV::If)
    } else if s == "else"@ {
        Some(TokenV::Else)
    } else if s == "for"@ {
        Some(TokenV::For)
    } else if s == "while"@ {
        Some(TokenV::While)
    } else if s == "return"@ {
        Some(TokenV::Return)
    } else if s == "print"@ {
        Some(TokenV::Print)
    } else if s == "def"@ {
        Some(TokenV::Def)
    } else {
        None
    }
}

/// Whether two string slices hold the same characters.
pub fn str_eqs(a: &str, b: &str) -> (r: bool)
    ensures
        r == (a@ == b@),
{
    let sa = String::from_str(a);
    let sb = String::from_str(b);
    sa == sb
}

/// Looks the word up in the fixed keyword table.
pub fn get_keyword(kw: &str) -> (r: Option<Token>)
    ensures
        match r {
            Some(t) => keyword_token(kw@) == Some(t@),
            None => keyword_token(kw@) is None,
        },
{
    if str_eqs(kw, "true") {
        Some(Token::True)
    } else if str_eqs(kw, "false") {
        Some(Token::False)
    } else if str_eqs(kw, "var") {
        Some(Token::Var)
    } else if str_eqs(kw, "if") {
        Some(Token::If)
    } else if str_eqs(kw, "else") {
        Some(Token::Else)
    } else if str_eqs(kw, "for") {
        Some(Token::For)
    } else if str_eqs(kw, "while") {
        Some(Token::While)
    } else if str_eqs(kw, "return") {
        Some(Token::Return)
    } else if str_eqs(kw, "print") {
        Some(Token::Print)
    } else if str_eqs(kw, "def") {
        Some(Token::Def)
    } else {
        None
    }
}

} // verus!
