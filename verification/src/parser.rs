//! The parser: consumes the token sequence exactly once, left to right,
//! by recursive descent with a single cursor and one-token lookahead, and
//! never backtracks past a consumed token.
//!
//! The grammar, one function per precedence level, each level delegating
//! to the next and left-associating unless noted:
//!
//! ```text
//! program     := declaration* EOF
//! declaration := "var" IDENT ("=" expression)?        | statement
//! statement   := ifStmt | forStmt | whileStmt | returnStmt | block | exprStmt
//! ifStmt      := "if" "(" expression ")" statement ("else" statement)?
//! block       := "{" declaration* "}"
//! expression  := assignment
//! assignment  := logic_or ("=" assignment)?     (right-assoc; LHS must be an identifier)
//! logic_or    := logic_and ("||" logic_and)*
//! logic_and   := equality ("&&" equality)*
//! equality    := comparison (("==" | "!=") comparison)*
//! comparison  := term (("<"|"<="|">"|">=") term)*
//! term        := factor (("+"|"-") factor)*
//! factor      := unary (("*"|"/") unary)*
//! unary       := ("!" | "-") unary | primary
//! primary     := INTEGER | FLOAT | STRING | "true" | "false"
//!              | IDENT | "(" expression ")"
//! ```
//!
//! The mathematical model is the family of `spec_*` functions below, one
//! per production; `parse` returns exactly what [`spec_program`] assigns to
//! the tokens.
//!
//! `for`, `while` and `return` are recognized but produce `Null`
//! placeholder nodes: their bodies are not yet lowered to executable nodes.

use crate::ast::{nodes_view, Assign, Node, NodeV, Program, VarStmt};
use crate::errors::{ParserError, ParserErrorV};
use crate::tokens::{tokens_view, Token, TokenType, TokenV};
use vstd::prelude::*;
use vstd::string::*;

verus! {

broadcast use vstd::std_specs::vec::axiom_spec_len;

/// The outcome of one specification production: the node built and the
/// position after it, or the error that aborts the parse.
pub type PRes = Result<(NodeV, int), ParserErrorV>;

/// The cursor stands on the end-of-input sentinel (or outside the tokens).
pub open spec fn spec_at_end(ts: Seq<TokenV>, i: int) -> bool {
    !(0 <= i < ts.len()) || ts[i] is EOF
}

/// The token at `i` exists, is not the end sentinel, and has category `tt`.
pub open spec fn tk_match(ts: Seq<TokenV>, i: int, tt: TokenType) -> bool {
    0 <= i < ts.len() && !(ts[i] is EOF) && ts[i].typ() == tt
}

/// The error of a production that found no acceptable token.  The parser
/// reports assignment to a non-identifier with a placeholder token.
pub open spec fn not_supported() -> PRes {
    Err(ParserErrorV::NotSupportedToken(TokenV::Unkown))
}

/// program := declaration* EOF — the top-level statements in order.
pub open spec fn spec_program(ts: Seq<TokenV>, i: int) -> Result<(Seq<NodeV>, int), ParserErrorV>
    decreases ts.len() - i, 14int,
{
    if spec_at_end(ts, i) {
        Ok((Seq::empty(), i))
    } else {
        match spec_declare(ts, i) {
            Err(e) => Err(e),
            Ok((n, j)) => if i < j <= ts.len() {
                match spec_program(ts, j) {
                    Err(e) => Err(e),
                    Ok((rest, k)) => Ok((seq![n] + rest, k)),
                }
            } else {
                // never reached: every production consumes at least one
                // token on success (the executable parser proves it)
                Err(ParserErrorV::NotSupportedToken(TokenV::Unkown))
            },
        }
    }
}

/// The statements of a block, up to the closing brace or the end.
pub open spec fn spec_block_items(ts: Seq<TokenV>, i: int) -> Result<
    (Seq<NodeV>, int),
    ParserErrorV,
>
    decreases ts.len() - i, 12int,
{
    if spec_at_end(ts, i) || tk_match(ts, i, TokenType::RBrace) {
        Ok((Seq::empty(), i))
    } else {
        match spec_declare(ts, i) {
            Err(e) => Err(e),
            Ok((n, j)) => if i < j <= ts.len() {
                match spec_block_items(ts, j) {
                    Err(e) => Err(e),
                    Ok((rest, k)) => Ok((seq![n] + rest, k)),
                }
            } else {
                Err(ParserErrorV::NotSupportedToken(TokenV::Unkown))
            },
        }
    }
}

/// declaration := "var" IDENT ("=" expression)? | statement
pub open spec fn spec_declare(ts: Seq<TokenV>, i: int) -> PRes
    decreases ts.len() - i, 11int,
{
    if tk_match(ts, i, TokenType::Var) {
        spec_parse_var(ts, i + 1)
    } else {
        spec_parse_stmt(ts, i)
    }
}

/// The rest of a `var` declaration, after the keyword: the name, and the
/// initializer if `=` follows, else the `Null` sentinel.
pub open spec fn spec_parse_var(ts: Seq<TokenV>, i: int) -> PRes
    decreases ts.len() - i, 10int,
{
    if tk_match(ts, i, TokenType::Ident) {
        let name = ts[i];
        if tk_match(ts, i + 1, TokenType::Assign) {
            match spec_assignment(ts, i + 2) {
                Err(e) => Err(e),
                Ok((v, j)) => Ok((NodeV::VarStmt(name, Box::new(v)), j)),
            }
        } else {
            Ok((NodeV::VarStmt(name, Box::new(NodeV::Null)), i + 1))
        }
    } else {
        Err(ParserErrorV::ExpectedTokenNotFound("expect ident token"@))
    }
}

/// statement := ifStmt | forStmt | whileStmt | returnStmt | block | exprStmt.
/// `for`, `while` and `return` parse to `Null` placeholders.
pub open spec fn spec_parse_stmt(ts: Seq<TokenV>, i: int) -> PRes
    decreases ts.len() - i, 10int,
{
    if tk_match(ts, i, TokenType::If) {
        spec_parse_if(ts, i + 1)
    } else if tk_match(ts, i, TokenType::For) {
        Ok((NodeV::Null, i + 1))
    } else if tk_match(ts, i, TokenType::While) {
        Ok((NodeV::Null, i + 1))
    } else if tk_match(ts, i, TokenType::Return) {
        Ok((NodeV::Null, i + 1))
    } else if tk_match(ts, i, TokenType::LBrace) {
        spec_parse_block(ts, i + 1)
    } else {
        spec_assignment(ts, i)
    }
}

/// The rest of an `if`, after the keyword: a parenthesized condition, a
/// then-statement, and an optional else-statement (`Null` when missing).
pub open spec fn spec_parse_if(ts: Seq<TokenV>, i: int) -> PRes
    decreases ts.len() - i, 10int,
{
    if !tk_match(ts, i, TokenType::LParent) {
        Err(ParserErrorV::ExpectedTokenNotFound("expect ( after if"@))
    } else {
        match spec_assignment(ts, i + 1) {
            Err(e) => Err(e),
            Ok((cond, j)) => if !tk_match(ts, j, TokenType::RParent) {
                Err(ParserErrorV::ExpectedTokenNotFound("expect ) after if"@))
            } else if !(i < j <= ts.len()) {
                not_supported()
            } else {
                match spec_parse_stmt(ts, j + 1) {
                    Err(e) => Err(e),
                    Ok((then, k)) => if tk_match(ts, k, TokenType::Else) {
                        if !(i < k <= ts.len()) {
                            not_supported()
                        } else {
                            match spec_parse_stmt(ts, k + 1) {
                                Err(e) => Err(e),
                                Ok((els, m)) => Ok(
                                    (
                                        NodeV::IfStmt(
                                            Box::new(cond),
                                            Box::new(then),
                                            Box::new(els),
                                        ),
                                        m,
                                    ),
                                ),
                            }
                        }
                    } else {
                        Ok(
                            (
                                NodeV::IfStmt(Box::new(cond), Box::new(then), Box::new(NodeV::Null)),
                                k,
                            ),
                        )
                    },
                }
            },
        }
    }
}

/// The rest of a block, after `{`: declarations through the closing `}`.
pub open spec fn spec_parse_block(ts: Seq<TokenV>, i: int) -> PRes
    decreases ts.len() - i, 13int,
{
    match spec_block_items(ts, i) {
        Err(e) => Err(e),
        Ok((items, j)) => if tk_match(ts, j, TokenType::RBrace) {
            Ok((NodeV::Block(items), j + 1))
        } else {
            Err(ParserErrorV::ExpectedTokenNotFound("expect } after block"@))
        },
    }
}

/// assignment := logic_or ("=" assignment)? — right-associative, and the
/// already-parsed left side must be exactly an identifier.
pub open spec fn spec_assignment(ts: Seq<TokenV>, i: int) -> PRes
    decreases ts.len() - i, 9int,
{
    match spec_or(ts, i) {
        Err(e) => Err(e),
        Ok((lhs, j)) => if tk_match(ts, j, TokenType::Assign) {
            if !(i <= j <= ts.len()) {
                not_supported()
            } else {
                match spec_assignment(ts, j + 1) {
                    Err(e) => Err(e),
                    Ok((v, k)) => match lhs {
                        NodeV::Identifier(name) => Ok((NodeV::Assign(name, Box::new(v)), k)),
                        _ => not_supported(),
                    },
                }
            }
        } else {
            Ok((lhs, j))
        },
    }
}

/// logic_or := logic_and ("||" logic_and)*
pub open spec fn spec_or(ts: Seq<TokenV>, i: int) -> PRes
    decreases ts.len() - i, 8int,
{
    match spec_and(ts, i) {
        Err(e) => Err(e),
        Ok((n, j)) => if i <= j <= ts.len() {
            spec_or_rest(ts, j, n)
        } else {
            not_supported()
        },
    }
}

/// The left-associated `||` chain continuing an expression at `j`.
pub open spec fn spec_or_rest(ts: Seq<TokenV>, j: int, n: NodeV) -> PRes
    decreases ts.len() - j, 0int,
{
    if tk_match(ts, j, TokenType::Or) {
        match spec_and(ts, j + 1) {
            Err(e) => Err(e),
            Ok((r, k)) => if j < k <= ts.len() {
                spec_or_rest(ts, k, NodeV::Logical(Box::new(n), ts[j], Box::new(r)))
            } else {
                not_supported()
            },
        }
    } else {
        Ok((n, j))
    }
}

/// logic_and := equality ("&&" equality)*
pub open spec fn spec_and(ts: Seq<TokenV>, i: int) -> PRes
    decreases ts.len() - i, 7int,
{
    match spec_equality(ts, i) {
        Err(e) => Err(e),
        Ok((n, j)) => if i <= j <= ts.len() {
            spec_and_rest(ts, j, n)
        } else {
            not_supported()
        },
    }
}

/// The left-associated `&&` chain continuing an expression at `j`.
pub open spec fn spec_and_rest(ts: Seq<TokenV>, j: int, n: NodeV) -> PRes
    decreases ts.len() - j, 0int,
{
    if tk_match(ts, j, TokenType::And) {
        match spec_equality(ts, j + 1) {
            Err(e) => Err(e),
            Ok((r, k)) => if j < k <= ts.len() {
                spec_and_rest(ts, k, NodeV::Logical(Box::new(n), ts[j], Box::new(r)))
            } else {
                not_supported()
            },
        }
    } else {
        Ok((n, j))
    }
}

/// equality := comparison (("==" | "!=") comparison)*
pub open spec fn spec_equality(ts: Seq<TokenV>, i: int) -> PRes
    decreases ts.len() - i, 6int,
{
    match spec_comparison(ts, i) {
        Err(e) => Err(e),
        Ok((n, j)) => if i <= j <= ts.len() {
            spec_equality_rest(ts, j, n)
        } else {
            not_supported()
        },
    }
}

/// The left-associated equality chain continuing an expression at `j`.
pub open spec fn spec_equality_rest(ts: Seq<TokenV>, j: int, n: NodeV) -> PRes
    decreases ts.len() - j, 0int,
{
    if tk_match(ts, j, TokenType::EQ) || tk_match(ts, j, TokenType::NotEQ) {
        match spec_comparison(ts, j + 1) {
            Err(e) => Err(e),
            Ok((r, k)) => if j < k <= ts.len() {
                spec_equality_rest(ts, k, NodeV::Binary(Box::new(n), ts[j], Box::new(r)))
            } else {
                not_supported()
            },
        }
    } else {
        Ok((n, j))
    }
}

/// comparison := term (("<"|"<="|">"|">=") term)*
pub open spec fn spec_comparison(ts: Seq<TokenV>, i: int) -> PRes
    decreases ts.len() - i, 5int,
{
    match spec_term(ts, i) {
        Err(e) => Err(e),
        Ok((n, j)) => if i <= j <= ts.len() {
            spec_comparison_rest(ts, j, n)
        } else {
            not_supported()
        },
    }
}

/// Whether the token at `j` is one of the comparison operators.  (The
/// equality operators are accepted here too, though the equality level
/// above consumes them first.)
pub open spec fn comparison_op_at(ts: Seq<TokenV>, j: int) -> bool {
    ||| tk_match(ts, j, TokenType::Lt)
    ||| tk_match(ts, j, TokenType::LtEQ)
    ||| tk_match(ts, j, TokenType::Gt)
    ||| tk_match(ts, j, TokenType::GtEQ)
    ||| tk_match(ts, j, TokenType::EQ)
    ||| tk_match(ts, j, TokenType::NotEQ)
}

/// The left-associated comparison chain continuing an expression at `j`.
pub open spec fn spec_comparison_rest(ts: Seq<TokenV>, j: int, n: NodeV) -> PRes
    decreases ts.len() - j, 0int,
{
    if comparison_op_at(ts, j) {
        match spec_term(ts, j + 1) {
            Err(e) => Err(e),
            Ok((r, k)) => if j < k <= ts.len() {
                spec_comparison_rest(ts, k, NodeV::Binary(Box::new(n), ts[j], Box::new(r)))
            } else {
                not_supported()
            },
        }
    } else {
        Ok((n, j))
    }
}

/// term := factor (("+"|"-") factor)*
pub open spec fn spec_term(ts: Seq<TokenV>, i: int) -> PRes
    decreases ts.len() - i, 4int,
{
    match spec_factor(ts, i) {
        Err(e) => Err(e),
        Ok((n, j)) => if i <= j <= ts.len() {
            spec_term_rest(ts, j, n)
        } else {
            not_supported()
        },
    }
}

/// The left-associated additive chain continuing an expression at `j`.
pub open spec fn spec_term_rest(ts: Seq<TokenV>, j: int, n: NodeV) -> PRes
    decreases ts.len() - j, 0int,
{
    if tk_match(ts, j, TokenType::Plus) || tk_match(ts, j, TokenType::Minus) {
        match spec_factor(ts, j + 1) {
            Err(e) => Err(e),
            Ok((r, k)) => if j < k <= ts.len() {
                spec_term_rest(ts, k, NodeV::Binary(Box::new(n), ts[j], Box::new(r)))
            } else {
                not_supported()
            },
        }
    } else {
        Ok((n, j))
    }
}

/// factor := unary (("*"|"/") unary)*
pub open spec fn spec_factor(ts: Seq<TokenV>, i: int) -> PRes
    decreases ts.len() - i, 3int,
{
    match spec_unary(ts, i) {
        Err(e) => Err(e),
        Ok((n, j)) => if i <= j <= ts.len() {
            spec_factor_rest(ts, j, n)
        } else {
            not_supported()
        },
    }
}

/// The left-associated multiplicative chain continuing an expression at `j`.
pub open spec fn spec_factor_rest(ts: Seq<TokenV>, j: int, n: NodeV) -> PRes
    decreases ts.len() - j, 0int,
{
    if tk_match(ts, j, TokenType::Slash) || tk_match(ts, j, TokenType::Star) {
        match spec_unary(ts, j + 1) {
            Err(e) => Err(e),
            Ok((r, k)) => if j < k <= ts.len() {
                spec_factor_rest(ts, k, NodeV::Binary(Box::new(n), ts[j], Box::new(r)))
            } else {
                not_supported()
            },
        }
    } else {
        Ok((n, j))
    }
}

/// unary := ("!" | "-") unary | primary
pub open spec fn spec_unary(ts: Seq<TokenV>, i: int) -> PRes
    decreases ts.len() - i, 2int,
{
    if tk_match(ts, i, TokenType::Minus) || tk_match(ts, i, TokenType::Bang) {
        match spec_unary(ts, i + 1) {
            Err(e) => Err(e),
            Ok((v, j)) => Ok((NodeV::Unary(ts[i], Box::new(v)), j)),
        }
    } else {
        spec_primary(ts, i)
    }
}

/// Whether the token at `i` is a literal.  (No token carries the `Null`
/// category, so that alternative never fires; it mirrors the grammar's
/// `null` placeholder.)
pub open spec fn literal_at(ts: Seq<TokenV>, i: int) -> bool {
    ||| tk_match(ts, i, TokenType::True)
    ||| tk_match(ts, i, TokenType::False)
    ||| tk_match(ts, i, TokenType::Integer)
    ||| tk_match(ts, i, TokenType::Float)
    ||| tk_match(ts, i, TokenType::String)
    ||| tk_match(ts, i, TokenType::Null)
}

/// primary := literal | IDENT | "(" expression ")".  Any other token is a
/// `NotSupportedToken` error carrying that token.
pub open spec fn spec_primary(ts: Seq<TokenV>, i: int) -> PRes
    decreases ts.len() - i, 1int,
{
    if literal_at(ts, i) {
        Ok((NodeV::Literal(ts[i]), i + 1))
    } else if tk_match(ts, i, TokenType::Ident) {
        Ok((NodeV::Identifier(ts[i]), i + 1))
    } else if tk_match(ts, i, TokenType::LParent) {
        match spec_assignment(ts, i + 1) {
            Err(e) => Err(e),
            Ok((e, j)) => if tk_match(ts, j, TokenType::RParent) {
                Ok((NodeV::Group(Box::new(e)), j + 1))
            } else {
                Err(ParserErrorV::ExpectedTokenNotFound("expect ) after expression"@))
            },
        }
    } else {
        if 0 <= i < ts.len() {
            Err(ParserErrorV::NotSupportedToken(ts[i]))
        } else {
            not_supported()
        }
    }
}

/// `pre` prepended to the statements of a partial parse.
pub open spec fn items_app(pre: Seq<NodeV>, r: Result<(Seq<NodeV>, int), ParserErrorV>) -> Result<
    (Seq<NodeV>, int),
    ParserErrorV,
> {
    match r {
        Ok((items, j)) => Ok((pre + items, j)),
        Err(e) => Err(e),
    }
}

/// How an executable production's outcome matches its specification: on
/// success the node's value and the new position, with at least one token
/// consumed since position `i`; on failure the same error.
pub open spec fn step_matches(
    s: PRes,
    r: Result<Node, ParserError>,
    i: int,
    j: int,
    len: int,
) -> bool {
    match r {
        Ok(n) => s == Ok::<(NodeV, int), ParserErrorV>((n@, j)) && i < j <= len,
        Err(e) => s == Err::<(NodeV, int), ParserErrorV>(e@),
    }
}

/// The recursive-descent parser: the token sequence and one cursor.
#[derive(Debug)]
pub struct Parser {
    tokens: Vec<Token>,
    current: usize,
}

impl Parser {
    /// The values of the tokens being parsed.
    pub closed spec fn toks(&self) -> Seq<TokenV> {
        tokens_view(self.tokens@)
    }

    /// The cursor position.
    pub closed spec fn pos(&self) -> int {
        self.current as int
    }

    /// The token sequence is nonempty, ends with the end-of-input sentinel,
    /// and the cursor lies within it.
    pub closed spec fn wf(&self) -> bool {
        &&& self.tokens@.len() > 0
        &&& self.toks().last() is EOF
        &&& self.pos() < self.tokens@.len()
    }

    /// A parser over `tokens`, positioned at their start.
    pub fn new(tokens: Vec<Token>) -> (r: Self)
        ensures
            r.toks() == tokens_view(tokens@),
            r.pos() == 0,
            tokens@.len() > 0 && tokens_view(tokens@).last() is EOF ==> r.wf(),
    {
        Self { tokens, current: 0 }
    }

    /// Parses the whole token sequence: exactly the program of
    /// [`spec_program`], or its first error.
    pub fn parse(&mut self) -> (r: Result<Program, ParserError>)
        requires
            old(self).wf(),
        ensures
            final(self).wf(),
            final(self).toks() == old(self).toks(),
            match r {
                Ok(p) => spec_program(old(self).toks(), old(self).pos()) == Ok::<
                    (Seq<NodeV>, int),
                    ParserErrorV,
                >((p@, final(self).pos())),
                Err(e) => spec_program(old(self).toks(), old(self).pos()) == Err::<
                    (Seq<NodeV>, int),
                    ParserErrorV,
                >(e@),
            },
    {
        let ghost ts = self.toks();
        let ghost i0 = self.pos();
        let mut nodes: Vec<Node> = Vec::new();
        loop
            invariant
                self.wf(),
                self.toks() == ts,
                ts == old(self).toks(),
                i0 == old(self).pos(),
                i0 <= self.pos(),
                spec_program(ts, i0) == items_app(
                    nodes_view(nodes, nodes@.len() as int),
                    spec_program(ts, self.pos()),
                ),
            ensures
                self.wf(),
                self.toks() == ts,
                spec_program(ts, i0) == Ok::<(Seq<NodeV>, int), ParserErrorV>(
                    (nodes_view(nodes, nodes@.len() as int), self.pos()),
                ),
            decreases ts.len() - self.pos(),
        {
            if self.is_at_end() {
                proof {
                    assert(spec_program(ts, self.pos()) == Ok::<(Seq<NodeV>, int), ParserErrorV>(
                        (Seq::empty(), self.pos()),
                    ));
                    assert(nodes_view(nodes, nodes@.len() as int) + Seq::<NodeV>::empty()
                        =~= nodes_view(nodes, nodes@.len() as int));
                }
                break;
            }
            let ghost i = self.pos();
            let ghost pre = nodes_view(nodes, nodes@.len() as int);
            let node_res = self.declare();
            match node_res {
                Ok(v) => {
                    let ghost vview = v@;
                    proof {
                        crate::ast::lemma_nodes_view(nodes, nodes@.len() as int);
                    }
                    nodes.push(v);
                    proof {
                        crate::ast::lemma_nodes_view(nodes, nodes@.len() as int);
                        assert(nodes_view(nodes, nodes@.len() as int) =~= pre + seq![vview]);
                        let j = self.pos();
                        if spec_program(ts, j) is Ok {
                            assert((pre + seq![vview]) + spec_program(ts, j)->Ok_0.0 =~= pre + (
                            seq![vview] + spec_program(ts, j)->Ok_0.0));
                        }
                    }
                }
                Err(e) => {
                    return Err(e);
                }
            }
        }
        Ok(Program::new(nodes))
    }

    /// declaration := "var" IDENT ("=" expression)? | statement
    fn declare(&mut self) -> (r: Result<Node, ParserError>)
        requires
            old(self).wf(),
        ensures
            final(self).wf(),
            final(self).toks() == old(self).toks(),
            step_matches(
                spec_declare(old(self).toks(), old(self).pos()),
                r,
                old(self).pos(),
                final(self).pos(),
                old(self).toks().len() as int,
            ),
        decreases old(self).toks().len() - old(self).pos(), 11int,
    {
        if self.match_tk(TokenType::Var) {
            return self.parse_var();
        }
        self.parse_stmt()
    }

    /// The name and optional initializer after `var`.
    fn parse_var(&mut self) -> (r: Result<Node, ParserError>)
        requires
            old(self).wf(),
        ensures
            final(self).wf(),
            final(self).toks() == old(self).toks(),
            step_matches(
                spec_parse_var(old(self).toks(), old(self).pos()),
                r,
                old(self).pos() - 1,
                final(self).pos(),
                old(self).toks().len() as int,
            ),
        decreases old(self).toks().len() - old(self).pos(), 10int,
    {
        let ident = self.consume(TokenType::Ident, String::from_str("expect ident token"))?;
        let mut init_expr = Node::Null;
        if self.match_tk(TokenType::Assign) {
            init_expr = self.parse_expr()?;
        }
        Ok(Node::VarStmt(VarStmt::new(ident, init_expr)))
    }

    /// statement := ifStmt | forStmt | whileStmt | returnStmt | block | exprStmt
    fn parse_stmt(&mut self) -> (r: Result<Node, ParserError>)
        requires
            old(self).wf(),
        ensures
            final(self).wf(),
            final(self).toks() == old(self).toks(),
            step_matches(
                spec_parse_stmt(old(self).toks(), old(self).pos()),
                r,
                old(self).pos(),
                final(self).pos(),
                old(self).toks().len() as int,
            ),
        decreases old(self).toks().len() - old(self).pos(), 10int,
    {
        if self.match_tk(TokenType::If) {
            return self.parse_if();
        }
        if self.match_tk(TokenType::For) {
            return self.parse_for();
        }
        if self.match_tk(TokenType::While) {
            return self.parse_while();
        }
        if self.match_tk(TokenType::Return) {
            return self.parse_return();
        }
        if self.match_tk(TokenType::LBrace) {
            return self.parse_block();
        }
        self.parse_expr()
    }

    /// expression := assignment
    fn parse_expr(&mut self) -> (r: Result<Node, ParserError>)
        requires
            old(self).wf(),
        ensures
            final(self).wf(),
            final(self).toks() == old(self).toks(),
            step_matches(
                spec_assignment(old(self).toks(), old(self).pos()),
                r,
                old(self).pos(),
                final(self).pos(),
                old(self).toks().len() as int,
            ),
        decreases old(self).toks().len() - old(self).pos(), 10int,
    {
        let res = self.assignment()?;
        Ok(res)
    }

    /// The condition and branches after `if`.
    #[verifier::rlimit(80)]
    fn parse_if(&mut self) -> (r: Result<Node, ParserError>)
        requires
            old(self).wf(),
        ensures
            final(self).wf(),
            final(self).toks() == old(self).toks(),
            step_matches(
                spec_parse_if(old(self).toks(), old(self).pos()),
                r,
                old(self).pos() - 1,
                final(self).pos(),
                old(self).toks().len() as int,
            ),
        decreases old(self).toks().len() - old(self).pos(), 10int,
    {
        self.consume(TokenType::LParent, String::from_str("expect ( after if"))?;
        let cond = self.parse_expr()?;
        self.consume(TokenType::RParent, String::from_str("expect ) after if"))?;
        let then = self.parse_stmt()?;
        let mut else_then = Node::Null;
        if self.match_tk(TokenType::Else) {
            else_then = self.parse_stmt()?;
        }
        Ok(Node::IfStmt(Box::new(cond), Box::new(then), Box::new(else_then)))
    }

    /// `for` is recognized but not yet lowered: a `Null` placeholder.
    fn parse_for(&mut self) -> (r: Result<Node, ParserError>)
        ensures
            *final(self) == *old(self),
            r matches Ok(n) && n == Node::Null,
    {
        Ok(Node::Null)
    }

    /// `while` is recognized but not yet lowered: a `Null` placeholder.
    fn parse_while(&mut self) -> (r: Result<Node, ParserError>)
        ensures
            *final(self) == *old(self),
            r matches Ok(n) && n == Node::Null,
    {
        Ok(Node::Null)
    }

    /// `return` is recognized but not yet lowered: a `Null` placeholder.
    fn parse_return(&mut self) -> (r: Result<Node, ParserError>)
        ensures
            *final(self) == *old(self),
            r matches Ok(n) && n == Node::Null,
    {
        Ok(Node::Null)
    }

    /// The declarations and closing brace after `{`.
    #[verifier::rlimit(80)]
    fn parse_block(&mut self) -> (r: Result<Node, ParserError>)
        requires
            old(self).wf(),
        ensures
            final(self).wf(),
            final(self).toks() == old(self).toks(),
            step_matches(
                spec_parse_block(old(self).toks(), old(self).pos()),
                r,
                old(self).pos() - 1,
                final(self).pos(),
                old(self).toks().len() as int,
            ),
        decreases old(self).toks().len() - old(self).pos(), 13int,
    {
        let ghost ts = self.toks();
        let ghost i0 = self.pos();
        let mut stmts: Vec<Node> = Vec::new();
        loop
            invariant
                self.wf(),
                self.toks() == ts,
                ts == old(self).toks(),
                i0 == old(self).pos(),
                i0 <= self.pos(),
                spec_block_items(ts, i0) == items_app(
                    nodes_view(stmts, stmts@.len() as int),
                    spec_block_items(ts, self.pos()),
                ),
            ensures
                self.wf(),
                self.toks() == ts,
                i0 <= self.pos(),
                spec_block_items(ts, i0) == Ok::<(Seq<NodeV>, int), ParserErrorV>(
                    (nodes_view(stmts, stmts@.len() as int), self.pos()),
                ),
            decreases ts.len() - self.pos(),
        {
            if self.is_at_end() || self.check(TokenType::RBrace) {
                proof {
                    assert(spec_block_items(ts, self.pos()) == Ok::<
                        (Seq<NodeV>, int),
                        ParserErrorV,
                    >((Seq::empty(), self.pos())));
                    assert(nodes_view(stmts, stmts@.len() as int) + Seq::<NodeV>::empty()
                        =~= nodes_view(stmts, stmts@.len() as int));
                }
                break;
            }
            let ghost i = self.pos();
            let ghost pre = nodes_view(stmts, stmts@.len() as int);
            let stmt_res = self.declare();
            match stmt_res {
                Ok(stmt) => {
                    let ghost vview = stmt@;
                    proof {
                        crate::ast::lemma_nodes_view(stmts, stmts@.len() as int);
                    }
                    stmts.push(stmt);
                    proof {
                        crate::ast::lemma_nodes_view(stmts, stmts@.len() as int);
                        assert(nodes_view(stmts, stmts@.len() as int) =~= pre + seq![vview]);
                        let j = self.pos();
                        if spec_block_items(ts, j) is Ok {
                            assert((pre + seq![vview]) + spec_block_items(ts, j)->Ok_0.0 =~= pre
                                + (seq![vview] + spec_block_items(ts, j)->Ok_0.0));
                        }
                    }
                }
                Err(e) => {
                    return Err(e);
                }
            }
        }
        self.consume(TokenType::RBrace, String::from_str("expect } after block"))?;
        Ok(Node::Block(stmts))
    }

    /// assignment := logic_or ("=" assignment)?
    #[verifier::rlimit(80)]
    fn assignment(&mut self) -> (r: Result<Node, ParserError>)
        requires
            old(self).wf(),
        ensures
            final(self).wf(),
            final(self).toks() == old(self).toks(),
            step_matches(
                spec_assignment(old(self).toks(), old(self).pos()),
                r,
                old(self).pos(),
                final(self).pos(),
                old(self).toks().len() as int,
            ),
        decreases old(self).toks().len() - old(self).pos(), 9int,
    {
        let exp = self.or()?;
        if self.match_tk(TokenType::Assign) {
            let value = self.assignment()?;
            let res = match exp {
                Node::Identifier(ident) => Ok(Node::Assign(Assign::new(ident, value))),
                _ => Err(ParserError::NotSupportedToken(Token::Unkown)),
            };
            return res;
        }
        Ok(exp)
    }

    /// logic_or := logic_and ("||" logic_and)*
    #[verifier::rlimit(80)]
    fn or(&mut self) -> (r: Result<Node, ParserError>)
        requires
            old(self).wf(),
        ensures
            final(self).wf(),
            final(self).toks() == old(self).toks(),
            step_matches(
                spec_or(old(self).toks(), old(self).pos()),
                r,
                old(self).pos(),
                final(self).pos(),
                old(self).toks().len() as int,
            ),
        decreases old(self).toks().len() - old(self).pos(), 8int,
    {
        let ghost ts = self.toks();
        let ghost i0 = self.pos();
        let mut res = self.and()?;
        loop
            invariant
                self.wf(),
                self.toks() == ts,
                ts == old(self).toks(),
                i0 == old(self).pos(),
                i0 < self.pos() <= ts.len(),
                spec_or(ts, i0) == spec_or_rest(ts, self.pos(), res@),
            ensures
                self.wf(),
                self.toks() == ts,
                i0 < self.pos() <= ts.len(),
                spec_or(ts, i0) == Ok::<(NodeV, int), ParserErrorV>((res@, self.pos())),
            decreases ts.len() - self.pos(),
        {
            if self.match_tk(TokenType::Or) {
                let op = self.previous();
                let exp = self.and()?;
                res = Node::Logical(Box::new(res), op, Box::new(exp));
                continue;
            }
            break;
        }
        Ok(res)
    }

    /// logic_and := equality ("&&" equality)*
    #[verifier::rlimit(80)]
    fn and(&mut self) -> (r: Result<Node, ParserError>)
        requires
            old(self).wf(),
        ensures
            final(self).wf(),
            final(self).toks() == old(self).toks(),
            step_matches(
                spec_and(old(self).toks(), old(self).pos()),
                r,
                old(self).pos(),
                final(self).pos(),
                old(self).toks().len() as int,
            ),
        decreases old(self).toks().len() - old(self).pos(), 7int,
    {
        let ghost ts = self.toks();
        let ghost i0 = self.pos();
        let mut exp = self.equality()?;
        loop
            invariant
                self.wf(),
                self.toks() == ts,
                ts == old(self).toks(),
                i0 == old(self).pos(),
                i0 < self.pos() <= ts.len(),
                spec_and(ts, i0) == spec_and_rest(ts, self.pos(), exp@),
            ensures
                self.wf(),
                self.toks() == ts,
                i0 < self.pos() <= ts.len(),
                spec_and(ts, i0) == Ok::<(NodeV, int), ParserErrorV>((exp@, self.pos())),
            decreases ts.len() - self.pos(),
        {
            if self.match_tk(TokenType::And) {
                let op = self.previous();
                let r_exp = self.equality()?;
                exp = Node::Logical(Box::new(exp), op, Box::new(r_exp));
                continue;
            }
            break;
        }
        Ok(exp)
    }

    /// equality := comparison (("==" | "!=") comparison)*
    #[verifier::rlimit(80)]
    fn equality(&mut self) -> (r: Result<Node, ParserError>)
        requires
            old(self).wf(),
        ensures
            final(self).wf(),
            final(self).toks() == old(self).toks(),
            step_matches(
                spec_equality(old(self).toks(), old(self).pos()),
                r,
                old(self).pos(),
                final(self).pos(),
                old(self).toks().len() as int,
            ),
        decreases old(self).toks().len() - old(self).pos(), 6int,
    {
        let ghost ts = self.toks();
        let ghost i0 = self.pos();
        let mut exp = self.comparison()?;
        loop
            invariant
                self.wf(),
                self.toks() == ts,
                ts == old(self).toks(),
                i0 == old(self).pos(),
                i0 < self.pos() <= ts.len(),
                spec_equality(ts, i0) == spec_equality_rest(ts, self.pos(), exp@),
            ensures
                self.wf(),
                self.toks() == ts,
                i0 < self.pos() <= ts.len(),
                spec_equality(ts, i0) == Ok::<(NodeV, int), ParserErrorV>((exp@, self.pos())),
            decreases ts.len() - self.pos(),
        {
            if self.match_tk(TokenType::EQ) || self.match_tk(TokenType::NotEQ) {
                let op = self.previous();
                let r_exp = self.comparison()?;
                exp = Node::Binary(Box::new(exp), op, Box::new(r_exp));
                continue;
            }
            break;
        }
        Ok(exp)
    }

    /// comparison := term (("<"|"<="|">"|">=") term)*
    #[verifier::rlimit(80)]
    fn comparison(&mut self) -> (r: Result<Node, ParserError>)
        requires
            old(self).wf(),
        ensures
            final(self).wf(),
            final(self).toks() == old(self).toks(),
            step_matches(
                spec_comparison(old(self).toks(), old(self).pos()),
                r,
                old(self).pos(),
                final(self).pos(),
                old(self).toks().len() as int,
            ),
        decreases old(self).toks().len() - old(self).pos(), 5int,
    {
        let ghost ts = self.toks();
        let ghost i0 = self.pos();
        let mut exp = self.term()?;
        loop
            invariant
                self.wf(),
                self.toks() == ts,
                ts == old(self).toks(),
                i0 == old(self).pos(),
                i0 < self.pos() <= ts.len(),
                spec_comparison(ts, i0) == spec_comparison_rest(ts, self.pos(), exp@),
            ensures
                self.wf(),
                self.toks() == ts,
                i0 < self.pos() <= ts.len(),
                spec_comparison(ts, i0) == Ok::<(NodeV, int), ParserErrorV>((exp@, self.pos())),
            decreases ts.len() - self.pos(),
        {
            if self.match_tk(TokenType::Lt) || self.match_tk(TokenType::LtEQ) || self.match_tk(
                TokenType::Gt,
            ) || self.match_tk(TokenType::GtEQ) || self.match_tk(TokenType::EQ) || self.match_tk(
                TokenType::NotEQ,
            ) {
                let op = self.previous();
                let r_exp = self.term()?;
                exp = Node::Binary(Box::new(exp), op, Box::new(r_exp));
                continue;
            }
            break;
        }
        Ok(exp)
    }

    /// term := factor (("+"|"-") factor)*
    #[verifier::rlimit(80)]
    fn term(&mut self) -> (r: Result<Node, ParserError>)
        requires
            old(self).wf(),
        ensures
            final(self).wf(),
            final(self).toks() == old(self).toks(),
            step_matches(
                spec_term(old(self).toks(), old(self).pos()),
                r,
                old(self).pos(),
                final(self).pos(),
                old(self).toks().len() as int,
            ),
        decreases old(self).toks().len() - old(self).pos(), 4int,
    {
        let ghost ts = self.toks();
        let ghost i0 = self.pos();
        let mut exp = self.factor()?;
        loop
            invariant
                self.wf(),
                self.toks() == ts,
                ts == old(self).toks(),
                i0 == old(self).pos(),
                i0 < self.pos() <= ts.len(),
                spec_term(ts, i0) == spec_term_rest(ts, self.pos(), exp@),
            ensures
                self.wf(),
                self.toks() == ts,
                i0 < self.pos() <= ts.len(),
                spec_term(ts, i0) == Ok::<(NodeV, int), ParserErrorV>((exp@, self.pos())),
            decreases ts.len() - self.pos(),
        {
            if self.match_tk(TokenType::Plus) || self.match_tk(TokenType::Minus) {
                let op = self.previous();
                let r_exp = self.factor()?;
                exp = Node::Binary(Box::new(exp), op, Box::new(r_exp));
            } else {
                break;
            }
        }
        Ok(exp)
    }

    /// factor := unary (("*"|"/") unary)*
    #[verifier::rlimit(80)]
    fn factor(&mut self) -> (r: Result<Node, ParserError>)
        requires
            old(self).wf(),
        ensures
            final(self).wf(),
            final(self).toks() == old(self).toks(),
            step_matches(
                spec_factor(old(self).toks(), old(self).pos()),
                r,
                old(self).pos(),
                final(self).pos(),
                old(self).toks().len() as int,
            ),
        decreases old(self).toks().len() - old(self).pos(), 3int,
    {
        let ghost ts = self.toks();
        let ghost i0 = self.pos();
        let mut exp = self.unary()?;
        loop
            invariant
                self.wf(),
                self.toks() == ts,
                ts == old(self).toks(),
                i0 == old(self).pos(),
                i0 < self.pos() <= ts.len(),
                spec_factor(ts, i0) == spec_factor_rest(ts, self.pos(), exp@),
            ensures
                self.wf(),
                self.toks() == ts,
                i0 < self.pos() <= ts.len(),
                spec_factor(ts, i0) == Ok::<(NodeV, int), ParserErrorV>((exp@, self.pos())),
            decreases ts.len() - self.pos(),
        {
            if self.match_tk(TokenType::Slash) || self.match_tk(TokenType::Star) {
                let op = self.previous();
                let r_exp = self.unary()?;
                exp = Node::Binary(Box::new(exp), op, Box::new(r_exp));
                continue;
            }
            break;
        }
        Ok(exp)
    }

    /// unary := ("!" | "-") unary | primary
    fn unary(&mut self) -> (r: Result<Node, ParserError>)
        requires
            old(self).wf(),
        ensures
            final(self).wf(),
            final(self).toks() == old(self).toks(),
            step_matches(
                spec_unary(old(self).toks(), old(self).pos()),
                r,
                old(self).pos(),
                final(self).pos(),
                old(self).toks().len() as int,
            ),
        decreases old(self).toks().len() - old(self).pos(), 2int,
    {
        if self.match_tk(TokenType::Minus) || self.match_tk(TokenType::Bang) {
            let op = self.previous();
            let val = self.unary()?;
            return Ok(Node::Unary(op, Box::new(val)));
        }
        self.primary()
    }

    /// primary := literal | IDENT | "(" expression ")"
    #[verifier::rlimit(80)]
    fn primary(&mut self) -> (r: Result<Node, ParserError>)
        requires
            old(self).wf(),
        ensures
            final(self).wf(),
            final(self).toks() == old(self).toks(),
            step_matches(
                spec_primary(old(self).toks(), old(self).pos()),
                r,
                old(self).pos(),
                final(self).pos(),
                old(self).toks().len() as int,
            ),
        decreases old(self).toks().len() - old(self).pos(), 1int,
    {
        if self.match_tk(TokenType::True) || self.match_tk(TokenType::False) || self.match_tk(
            TokenType::Integer,
        ) || self.match_tk(TokenType::Float) || self.match_tk(TokenType::String) || self.match_tk(
            TokenType::Null,
        ) {
            return Ok(Node::Literal(self.previous()));
        }
        if self.match_tk(TokenType::Ident) {
            return Ok(Node::Identifier(self.previous()));
        }
        if self.match_tk(TokenType::LParent) {
            let exp = self.parse_expr()?;
            self.consume(TokenType::RParent, String::from_str("expect ) after expression"))?;
            return Ok(Node::Group(Box::new(exp)));
        }
        Err(ParserError::NotSupportedToken(self.peek()))
    }

    /// Consumes the current token when its category is `tk_type`.
    fn match_tk(&mut self, tk_type: TokenType) -> (r: bool)
        requires
            old(self).wf(),
        ensures
            final(self).wf(),
            final(self).toks() == old(self).toks(),
            r == tk_match(old(self).toks(), old(self).pos(), tk_type),
            r ==> final(self).pos() == old(self).pos() + 1,
            !r ==> *final(self) == *old(self),
    {
        if self.check(tk_type) {
            self.advance();
            return true;
        }
        false
    }

    /// The current token when its category is `tk_type`, consumed;
    /// otherwise an `ExpectedTokenNotFound` error carrying `msg`.
    fn consume(&mut self, tk_type: TokenType, msg: String) -> (r: Result<Token, ParserError>)
        requires
            old(self).wf(),
        ensures
            final(self).wf(),
            final(self).toks() == old(self).toks(),
            match r {
                Ok(t) => tk_match(old(self).toks(), old(self).pos(), tk_type) && t@ == old(
                    self,
                ).toks()[old(self).pos()] && final(self).pos() == old(self).pos() + 1,
                Err(e) => !tk_match(old(self).toks(), old(self).pos(), tk_type) && e@
                    == ParserErrorV::ExpectedTokenNotFound(msg@) && *final(self) == *old(self),
            },
    {
        if self.check(tk_type) {
            return Ok(self.advance());
        }
        Err(ParserError::ExpectedTokenNotFound(msg))
    }

    /// Whether the current token has category `tk_type`.
    fn check(&self, tk_type: TokenType) -> (r: bool)
        requires
            self.wf(),
        ensures
            r == tk_match(self.toks(), self.pos(), tk_type),
    {
        if self.is_at_end() {
            return false;
        }
        self.tokens[self.current].token_type() == tk_type
    }

    /// Consumes and returns the current token.  (Called only off the end
    /// sentinel, so the cursor always moves.)
    fn advance(&mut self) -> (t: Token)
        requires
            old(self).wf(),
            !spec_at_end(old(self).toks(), old(self).pos()),
        ensures
            final(self).wf(),
            final(self).toks() == old(self).toks(),
            final(self).pos() == old(self).pos() + 1,
            t@ == old(self).toks()[old(self).pos()],
    {
        if !self.is_at_end() {
            proof {
                assert(self.tokens.len() == self.tokens@.len());
                assert(self.pos() != self.tokens@.len() - 1);
            }
            self.current += 1;
        }
        self.previous()
    }

    /// Whether the cursor stands on the end-of-input sentinel.
    fn is_at_end(&self) -> (r: bool)
        requires
            self.wf(),
        ensures
            r == spec_at_end(self.toks(), self.pos()),
    {
        match &self.tokens[self.current] {
            Token::EOF => true,
            _ => false,
        }
    }

    /// The token before the cursor.
    fn previous(&self) -> (t: Token)
        requires
            self.wf(),
            1 <= self.pos(),
        ensures
            t@ == self.toks()[self.pos() - 1],
    {
        self.tokens[self.current - 1].clone()
    }

    /// The token under the cursor.
    fn peek(&self) -> (t: Token)
        requires
            self.wf(),
        ensures
            t@ == self.toks()[self.pos()],
    {
        self.tokens[self.current].clone()
    }
}

} // verus!
