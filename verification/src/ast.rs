//! The abstract syntax tree: one closed sum type for expressions and
//! statements alike, plus the `Program` that holds the top-level statements
//! in evaluation order.  Every node owns its children exclusively.

use crate::tokens::{Token, TokenV};
use vstd::prelude::*;

verus! {

broadcast use vstd::std_specs::vec::axiom_vec_index_decreases;

/// A syntax-tree node.
#[derive(Debug, PartialEq)]
pub enum Node {
    Identifier(Token),
    /// var x = value
    VarStmt(VarStmt),
    /// x = value
    Assign(Assign),
    /// condition, then-branch, else-branch
    IfStmt(Box<Node>, Box<Node>, Box<Node>),
    /// left, operator (`&&`/`||`), right
    Logical(Box<Node>, Token, Box<Node>),
    /// left, operator, right: x + y
    Binary(Box<Node>, Token, Box<Node>),
    /// operator, operand: -1, !true
    Unary(Token, Box<Node>),
    ExpressionStmt(Box<Node>),
    /// integer, float, string, true, false
    Literal(Token),
    /// parenthesized expression
    Group(Box<Node>),
    Return(Return),
    Block(Vec<Node>),
    /// absence sentinel, used where a production may be omitted
    Null,
}

/// The name and initializer of a `var` declaration.
#[derive(Debug, PartialEq)]
pub struct VarStmt {
    pub name: Token,
    pub value: Box<Node>,
}

impl VarStmt {
    pub fn new(name: Token, value: Node) -> (r: Self)
        ensures
            r.name == name,
            *r.value == value,
    {
        Self { name, value: Box::new(value) }
    }
}

/// The target and value of an assignment expression.
#[derive(Debug, PartialEq)]
pub struct Assign {
    pub name: Token,
    pub value: Box<Node>,
}

impl Assign {
    pub fn new(name: Token, value: Node) -> (r: Self)
        ensures
            r.name == name,
            *r.value == value,
    {
        Self { name, value: Box::new(value) }
    }
}

/// The value expression of a `return` statement.
#[derive(Debug, PartialEq)]
pub struct Return {
    pub value: Box<Node>,
}

impl Return {
    pub fn new(value: Node) -> (r: Self)
        ensures
            *r.value == value,
    {
        Self { value: Box::new(value) }
    }
}

/// An ordered sequence of top-level statement nodes; the order is the
/// evaluation order.
#[derive(Debug, PartialEq)]
pub struct Program {
    pub stmts: Vec<Node>,
}

impl Program {
    pub fn new(nodes: Vec<Node>) -> (r: Self)
        ensures
            r.stmts == nodes,
            r@ == nodes_view(nodes, nodes@.len() as int),
    {
        Self { stmts: nodes }
    }
}

/// The mathematical value of a [`Node`]: the same tree with each token
/// replaced by its value.
pub enum NodeV {
    Identifier(TokenV),
    VarStmt(TokenV, Box<NodeV>),
    Assign(TokenV, Box<NodeV>),
    IfStmt(Box<NodeV>, Box<NodeV>, Box<NodeV>),
    Logical(Box<NodeV>, TokenV, Box<NodeV>),
    Binary(Box<NodeV>, TokenV, Box<NodeV>),
    Unary(TokenV, Box<NodeV>),
    ExpressionStmt(Box<NodeV>),
    Literal(TokenV),
    Group(Box<NodeV>),
    Return(Box<NodeV>),
    Block(Seq<NodeV>),
    Null,
}

/// The value of a node.
pub open spec fn node_view(n: Node) -> NodeV
    decreases n,
{
    match n {
        Node::Identifier(tk) => NodeV::Identifier(tk@),
        Node::VarStmt(v) => NodeV::VarStmt(v.name@, Box::new(node_view(*v.value))),
        Node::Assign(a) => NodeV::Assign(a.name@, Box::new(node_view(*a.value))),
        Node::IfStmt(c, t, e) => NodeV::IfStmt(
            Box::new(node_view(*c)),
            Box::new(node_view(*t)),
            Box::new(node_view(*e)),
        ),
        Node::Logical(l, op, r) => NodeV::Logical(
            Box::new(node_view(*l)),
            op@,
            Box::new(node_view(*r)),
        ),
        Node::Binary(l, op, r) => NodeV::Binary(
            Box::new(node_view(*l)),
            op@,
            Box::new(node_view(*r)),
        ),
        Node::Unary(op, v) => NodeV::Unary(op@, Box::new(node_view(*v))),
        Node::ExpressionStmt(e) => NodeV::ExpressionStmt(Box::new(node_view(*e))),
        Node::Literal(tk) => NodeV::Literal(tk@),
        Node::Group(g) => NodeV::Group(Box::new(node_view(*g))),
        Node::Return(r) => NodeV::Return(Box::new(node_view(*r.value))),
        Node::Block(stmts) => NodeV::Block(nodes_view(stmts, stmts.len() as int)),
        Node::Null => NodeV::Null,
    }
}

/// The values of the first `n` nodes of `v`.
pub open spec fn nodes_view(v: Vec<Node>, n: int) -> Seq<NodeV>
    decreases v, n,
{
    if n <= 0 || n > v.len() {
        Seq::empty()
    } else {
        nodes_view(v, n - 1).push(node_view(v[n - 1]))
    }
}

impl View for Node {
    type V = NodeV;

    open spec fn view(&self) -> NodeV {
        node_view(*self)
    }
}

impl View for Program {
    type V = Seq<NodeV>;

    open spec fn view(&self) -> Seq<NodeV> {
        nodes_view(self.stmts, self.stmts.len() as int)
    }
}

/// A deep copy of a node, with the same value.
pub fn clone_node(n: &Node) -> (r: Node)
    ensures
        r@ == n@,
    decreases *n, 0int,
{
    match n {
        Node::Identifier(tk) => Node::Identifier(tk.clone()),
        Node::VarStmt(v) => Node::VarStmt(
            VarStmt { name: v.name.clone(), value: Box::new(clone_node(&*v.value)) },
        ),
        Node::Assign(a) => Node::Assign(
            Assign { name: a.name.clone(), value: Box::new(clone_node(&*a.value)) },
        ),
        Node::IfStmt(c, t, e) => Node::IfStmt(
            Box::new(clone_node(&*c)),
            Box::new(clone_node(&*t)),
            Box::new(clone_node(&*e)),
        ),
        Node::Logical(l, op, r) => Node::Logical(
            Box::new(clone_node(&*l)),
            op.clone(),
            Box::new(clone_node(&*r)),
        ),
        Node::Binary(l, op, r) => Node::Binary(
            Box::new(clone_node(&*l)),
            op.clone(),
            Box::new(clone_node(&*r)),
        ),
        Node::Unary(op, v) => Node::Unary(op.clone(), Box::new(clone_node(&*v))),
        Node::ExpressionStmt(e) => Node::ExpressionStmt(Box::new(clone_node(&*e))),
        Node::Literal(tk) => Node::Literal(tk.clone()),
        Node::Group(g) => Node::Group(Box::new(clone_node(&*g))),
        Node::Return(r) => Node::Return(Return { value: Box::new(clone_node(&*r.value)) }),
        Node::Block(stmts) => {
            let out = clone_nodes(stmts);
            proof {
                lemma_nodes_view(out, out@.len() as int);
                lemma_nodes_view(*stmts, stmts@.len() as int);
                assert(nodes_view(out, out@.len() as int) =~= nodes_view(
                    *stmts,
                    stmts@.len() as int,
                ));
            }
            Node::Block(out)
        },
        Node::Null => Node::Null,
    }
}

/// A deep copy of a node sequence, with the same values.
pub fn clone_nodes(v: &Vec<Node>) -> (r: Vec<Node>)
    ensures
        r@.len() == v@.len(),
        forall|i: int| 0 <= i < v@.len() ==> r@[i]@ == v@[i]@,
    decreases *v, 1int,
{
    let mut out: Vec<Node> = Vec::new();
    let mut i: usize = 0;
    while i < v.len()
        invariant
            i <= v@.len(),
            out@.len() == i,
            forall|k: int| 0 <= k < i ==> out@[k]@ == v@[k]@,
        decreases v@.len() - i,
    {
        let c = clone_node(&v[i]);
        out.push(c);
        i += 1;
    }
    out
}

impl Clone for Node {
    /// A deep copy with the same value.
    fn clone(&self) -> (r: Self)
        ensures
            r@ == self@,
    {
        clone_node(self)
    }
}

/// `nodes_view` of a prefix is the pointwise view of that prefix.
pub proof fn lemma_nodes_view(v: Vec<Node>, n: int)
    requires
        0 <= n <= v.len(),
    ensures
        nodes_view(v, n).len() == n,
        forall|i: int| 0 <= i < n ==> nodes_view(v, n)[i] == v[i]@,
    decreases n,
{
    if n > 0 {
        lemma_nodes_view(v, n - 1);
    }
}

} // verus!
