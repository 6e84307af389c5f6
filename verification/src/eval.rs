//! The evaluator: walks the syntax tree against a mutable binding
//! environment and produces a runtime value, or the first error.
//!
//! The environment is one flat table: a block does not open a new scope,
//! and nothing is ever removed, so bindings persist for the life of the
//! interpreter (this is how a session accumulates state across programs).
//!
//! The mathematical model is [`spec_eval`]: each evaluation returns
//! exactly the value, the error and the environment that `spec_eval`
//! assigns to the node.  Where the model names a double's bits
//! (`i64_to_bits`, `add_bits`, ...), those are the IEEE 754 operations of
//! [`crate::float`].
//!
//! Two rules the tree allows deserve note.  A logical node short-circuits:
//! the left operand is evaluated and must be a boolean; `&&` with a false
//! left and `||` with a true left answer without touching the right, and
//! otherwise the right is evaluated and must be a boolean too.  A `return`
//! node wraps its value but does not unwind: folding a block carries the
//! wrapped value on like any other.

use crate::ast::{clone_node, nodes_view, Node, NodeV, Program};
use crate::errors::{EvalError, EvalErrorV};
use crate::float::{
    add_bits, div_bits, f64_is_zero, f64_le, f64_lt, f64_neg, f64_eq, float_add, float_div,
    float_eq, float_le, float_lt, float_mul, float_neg, float_of_i64, float_sub, i64_to_bits,
    mul_bits, sub_bits, FloatBits,
};
use crate::object::{clone_object, Object, ObjectV};
use crate::tokens::{Token, TokenV};
use vstd::prelude::*;
use vstd::string::*;

verus! {

broadcast use vstd::std_specs::vec::axiom_spec_len, vstd::std_specs::vec::axiom_vec_index_decreases;

/// The binding table's value: names to values.
pub type EnvV = Map<Seq<char>, ObjectV>;

/// The outcome of one evaluation: its result and the environment it
/// leaves behind (mutations before an error are kept).
pub type EOut = (Result<ObjectV, EvalErrorV>, EnvV);

/// The map induced by a binding list; a later binding for a name shadows
/// an earlier one.
pub open spec fn env_map(entries: Seq<(String, Object)>) -> EnvV
    decreases entries.len(),
{
    if entries.len() == 0 {
        Map::empty()
    } else {
        env_map(entries.drop_last()).insert(entries.last().0@, entries.last().1@)
    }
}

/// The message a division by zero reports: it names the offending right
/// operand.  Only a zero-valued numeric operand reaches it, so the integer
/// case always reads `Integer(0)`, and a zero double renders as `0.0` or
/// `-0.0` by its sign.
pub open spec fn divide_by_zero_msg(right: ObjectV) -> Seq<char> {
    match right {
        ObjectV::Integer(_) => "right: Integer(0) num is zero"@,
        ObjectV::Float(b) => if crate::float::f64_is_neg(b) {
            "right: Float(-0.0) num is zero"@
        } else {
            "right: Float(0.0) num is zero"@
        },
        ObjectV::Number(b) => if crate::float::f64_is_neg(b) {
            "right: Number(-0.0) num is zero"@
        } else {
            "right: Number(0.0) num is zero"@
        },
        _ => Seq::empty(),
    }
}

/// The value of a literal token: integers, floats, strings and the two
/// boolean keywords; any other token is not a literal.
pub open spec fn spec_literal(tk: TokenV) -> Result<ObjectV, EvalErrorV> {
    match tk {
        TokenV::Integer(v) => Ok(ObjectV::Integer(v)),
        TokenV::Float(b) => Ok(ObjectV::Float(b)),
        TokenV::SString(s) => Ok(ObjectV::SString(s)),
        TokenV::True => Ok(ObjectV::Bool(true)),
        TokenV::False => Ok(ObjectV::Bool(false)),
        _ => Err(EvalErrorV::NotLiteral(tk)),
    }
}

/// The double's bits a value contributes to arithmetic: an integer widens,
/// a float or a normalized number passes its bits through.
pub open spec fn spec_num_bits(o: ObjectV) -> Option<u64> {
    match o {
        ObjectV::Integer(v) => Some(i64_to_bits(v)),
        ObjectV::Number(b) => Some(b),
        ObjectV::Float(b) => Some(b),
        _ => None,
    }
}

/// The value is a number that equals zero (the operand the division rule
/// tests).
pub open spec fn spec_is_zero(o: ObjectV) -> bool {
    match o {
        ObjectV::Integer(v) => v == 0,
        ObjectV::Number(b) => f64_is_zero(b),
        ObjectV::Float(b) => f64_is_zero(b),
        _ => false,
    }
}

/// Arithmetic on two values: both must be numeric (integer, float or
/// number); the operands widen to doubles and the result is always a
/// `Number`.  Division by a zero right operand is an error, not an
/// infinity.
pub open spec fn spec_num_binary(op: TokenV, left: ObjectV, right: ObjectV) -> Result<
    ObjectV,
    EvalErrorV,
> {
    match spec_num_bits(left) {
        None => Err(EvalErrorV::NotNumber(left)),
        Some(ln) => match spec_num_bits(right) {
            None => Err(EvalErrorV::NotNumber(right)),
            Some(rn) => match op {
                TokenV::Plus(_) => Ok(ObjectV::Number(add_bits(ln, rn))),
                TokenV::Minus(_) => Ok(ObjectV::Number(sub_bits(ln, rn))),
                TokenV::Star(_) => Ok(ObjectV::Number(mul_bits(ln, rn))),
                TokenV::Slash(_) => if spec_is_zero(right) {
                    Err(EvalErrorV::DivideByZero(divide_by_zero_msg(right)))
                } else {
                    Ok(ObjectV::Number(div_bits(ln, rn)))
                },
                _ => Err(EvalErrorV::NotSupportedOperator(op)),
            },
        },
    }
}

/// A comparison of two doubles, by their bits, under IEEE 754 order.
pub open spec fn spec_cmp_num(op: TokenV, l: u64, r: u64) -> Result<ObjectV, EvalErrorV> {
    match op {
        TokenV::Lt(_) => Ok(ObjectV::Bool(f64_lt(l, r))),
        TokenV::LtEQ(_) => Ok(ObjectV::Bool(f64_le(l, r))),
        TokenV::Gt(_) => Ok(ObjectV::Bool(f64_lt(r, l))),
        TokenV::GtEQ(_) => Ok(ObjectV::Bool(f64_le(r, l))),
        TokenV::EQ(_) => Ok(ObjectV::Bool(f64_eq(l, r))),
        TokenV::NotEQ(_) => Ok(ObjectV::Bool(!f64_eq(l, r))),
        _ => Err(EvalErrorV::NotSupportedOperator(op)),
    }
}

/// Strict lexicographic order on character sequences.
pub open spec fn seq_char_lt(a: Seq<char>, b: Seq<char>) -> bool
    decreases a.len(),
{
    if b.len() == 0 {
        false
    } else if a.len() == 0 {
        true
    } else if a[0] != b[0] {
        a[0] < b[0]
    } else {
        seq_char_lt(a.subrange(1, a.len() as int), b.subrange(1, b.len() as int))
    }
}

/// A comparison of two strings, lexicographically.
pub open spec fn spec_cmp_str(op: TokenV, a: Seq<char>, b: Seq<char>) -> Result<
    ObjectV,
    EvalErrorV,
> {
    match op {
        TokenV::Lt(_) => Ok(ObjectV::Bool(seq_char_lt(a, b))),
        TokenV::LtEQ(_) => Ok(ObjectV::Bool(a == b || seq_char_lt(a, b))),
        TokenV::Gt(_) => Ok(ObjectV::Bool(seq_char_lt(b, a))),
        TokenV::GtEQ(_) => Ok(ObjectV::Bool(a == b || seq_char_lt(b, a))),
        TokenV::EQ(_) => Ok(ObjectV::Bool(a == b)),
        TokenV::NotEQ(_) => Ok(ObjectV::Bool(a != b)),
        _ => Err(EvalErrorV::NotSupportedOperator(op)),
    }
}

/// A comparison: both operands numeric (integers widen to doubles) or both
/// strings.  A left operand of any other kind is reported first; mixed
/// kinds are a `DifferObjectToCompare`; a `Number` is not accepted here.
pub open spec fn spec_compare(left: ObjectV, op: TokenV, right: ObjectV) -> Result<
    ObjectV,
    EvalErrorV,
> {
    match (left, right) {
        (ObjectV::Integer(a), ObjectV::Integer(b)) => spec_cmp_num(
            op,
            i64_to_bits(a),
            i64_to_bits(b),
        ),
        (ObjectV::Integer(a), ObjectV::Float(b)) => spec_cmp_num(op, i64_to_bits(a), b),
        (ObjectV::Float(a), ObjectV::Integer(b)) => spec_cmp_num(op, a, i64_to_bits(b)),
        (ObjectV::Float(a), ObjectV::Float(b)) => spec_cmp_num(op, a, b),
        (ObjectV::SString(a), ObjectV::SString(b)) => spec_cmp_str(op, a, b),
        (l, r) => {
            let l_num = l is Integer || l is Float;
            let l_str = l is SString;
            if !l_num && !l_str {
                Err(EvalErrorV::NotNumberOrStr(l))
            } else if r is Integer || r is Float || r is SString {
                Err(EvalErrorV::DifferObjectToCompare(l, r))
            } else {
                Err(EvalErrorV::NotNumberOrStr(r))
            }
        },
    }
}

/// A binary node's operation on two evaluated operands: the arithmetic
/// operators normalize to `Number`, the comparison operators to `Bool`;
/// any other operator token is unsupported.
pub open spec fn spec_binary(left: ObjectV, op: TokenV, right: ObjectV) -> Result<
    ObjectV,
    EvalErrorV,
> {
    match op {
        TokenV::Plus(_) => spec_num_binary(op, left, right),
        TokenV::Minus(_) => spec_num_binary(op, left, right),
        TokenV::Slash(_) => spec_num_binary(op, left, right),
        TokenV::Star(_) => spec_num_binary(op, left, right),
        TokenV::Lt(_) => spec_compare(left, op, right),
        TokenV::LtEQ(_) => spec_compare(left, op, right),
        TokenV::Gt(_) => spec_compare(left, op, right),
        TokenV::GtEQ(_) => spec_compare(left, op, right),
        TokenV::EQ(_) => spec_compare(left, op, right),
        TokenV::NotEQ(_) => spec_compare(left, op, right),
        _ => Err(EvalErrorV::NotSupportedOperator(op)),
    }
}

/// A unary node's operation: `!` negates a boolean; `-` negates an integer
/// or a float preserving its kind (the most negative integer wraps to
/// itself); anything else is a `NotLiteral` error.
pub open spec fn spec_unary_op(op: TokenV, v: ObjectV) -> Result<ObjectV, EvalErrorV> {
    match op {
        TokenV::Bang => match v {
            ObjectV::Bool(b) => Ok(ObjectV::Bool(!b)),
            _ => Err(EvalErrorV::NotLiteral(op)),
        },
        TokenV::Minus(_) => match v {
            ObjectV::Integer(n) => if n == i64::MIN {
                Ok(ObjectV::Integer(i64::MIN))
            } else {
                Ok(ObjectV::Integer((-n) as i64))
            },
            ObjectV::Float(b) => Ok(ObjectV::Float(f64_neg(b))),
            _ => Err(EvalErrorV::NotLiteral(op)),
        },
        _ => Err(EvalErrorV::NotLiteral(op)),
    }
}

/// One node's evaluation in an environment: its result, and the
/// environment after it.
pub open spec fn spec_eval(env: EnvV, n: NodeV) -> EOut
    decreases n, 0int,
{
    match n {
        NodeV::Null => (Ok(ObjectV::Null), env),
        NodeV::Literal(tk) => (spec_literal(tk), env),
        NodeV::Unary(op, operand) => if op is Bang || op is Minus {
            let (r, e1) = spec_eval(env, *operand);
            match r {
                Ok(v) => (spec_unary_op(op, v), e1),
                Err(e) => (Err(e), e1),
            }
        } else {
            (Err(EvalErrorV::NotLiteral(op)), env)
        },
        NodeV::VarStmt(name, value) => match name {
            TokenV::Ident(s) => {
                let (r, e1) = spec_eval(env, *value);
                match r {
                    Ok(v) => (Ok(v), e1.insert(s, v)),
                    Err(e) => (Err(e), e1),
                }
            },
            _ => (Err(EvalErrorV::NotIdent(name)), env),
        },
        NodeV::Assign(name, value) => match name {
            TokenV::Ident(s) => {
                let (r, e1) = spec_eval(env, *value);
                match r {
                    Ok(v) => (Ok(v), e1.insert(s, v)),
                    Err(e) => (Err(e), e1),
                }
            },
            _ => (Err(EvalErrorV::TkIsNotIdent(name)), env),
        },
        NodeV::Identifier(tk) => match tk {
            TokenV::Ident(s) => if env.dom().contains(s) {
                (Ok(env[s]), env)
            } else {
                (Err(EvalErrorV::IdentNotFound(s)), env)
            },
            _ => (Err(EvalErrorV::NotIdent(tk)), env),
        },
        NodeV::IfStmt(cond, then, els) => {
            let (r, e1) = spec_eval(env, *cond);
            match r {
                Ok(ObjectV::Bool(true)) => spec_eval(e1, *then),
                Ok(ObjectV::Bool(false)) => spec_eval(e1, *els),
                Ok(v) => (Err(EvalErrorV::NotTruthCond(v)), e1),
                Err(e) => (Err(e), e1),
            }
        },
        NodeV::Logical(left, op, right) => if op is And || op is Or {
            let (rl, e1) = spec_eval(env, *left);
            match rl {
                Ok(ObjectV::Bool(b)) => if (op is And && !b) || (op is Or && b) {
                    (Ok(ObjectV::Bool(b)), e1)
                } else {
                    let (rr, e2) = spec_eval(e1, *right);
                    match rr {
                        Ok(ObjectV::Bool(b2)) => (Ok(ObjectV::Bool(b2)), e2),
                        Ok(v) => (Err(EvalErrorV::NotTruthCond(v)), e2),
                        Err(e) => (Err(e), e2),
                    }
                },
                Ok(v) => (Err(EvalErrorV::NotTruthCond(v)), e1),
                Err(e) => (Err(e), e1),
            }
        } else {
            (Err(EvalErrorV::NotSupportedOperator(op)), env)
        },
        NodeV::Binary(left, op, right) => {
            let (rl, e1) = spec_eval(env, *left);
            match rl {
                Err(e) => (Err(e), e1),
                Ok(lv) => {
                    let (rr, e2) = spec_eval(e1, *right);
                    match rr {
                        Err(e) => (Err(e), e2),
                        Ok(rv) => (spec_binary(lv, op, rv), e2),
                    }
                },
            }
        },
        NodeV::Return(value) => {
            let (r, e1) = spec_eval(env, *value);
            match r {
                Ok(v) => (Ok(ObjectV::Return(Box::new(v))), e1),
                Err(e) => (Err(e), e1),
            }
        },
        NodeV::Group(inner) => spec_eval(env, *inner),
        NodeV::Block(stmts) => spec_eval_block(env, stmts, ObjectV::Null),
        NodeV::ExpressionStmt(_) => (Err(EvalErrorV::UnknowNode(n)), env),
    }
}

/// A fold of statements in order: the result is the last statement's value
/// (`last` when there are none); the first error stops the fold, keeping
/// the bindings made before it.
pub open spec fn spec_eval_block(env: EnvV, stmts: Seq<NodeV>, last: ObjectV) -> EOut
    decreases stmts, 1int,
{
    if stmts.len() == 0 {
        (Ok(last), env)
    } else {
        let (r, e1) = spec_eval(env, stmts[0]);
        match r {
            Ok(v) => spec_eval_block(e1, stmts.subrange(1, stmts.len() as int), v),
            Err(e) => (Err(e), e1),
        }
    }
}

/// How an executable evaluation matches the model: the same result value
/// or error, and the same environment left behind.
pub open spec fn eval_matches(out: EOut, r: Result<Object, EvalError>, env2: EnvV) -> bool {
    match r {
        Ok(o) => out == (Ok::<ObjectV, EvalErrorV>(o@), env2),
        Err(e) => out == (Err::<ObjectV, EvalErrorV>(e@), env2),
    }
}

/// The tree-walking interpreter, owning its binding environment.
pub struct Interpreter {
    env: Vec<(String, Object)>,
}

impl View for Interpreter {
    type V = EnvV;

    /// The binding table the interpreter has accumulated.
    closed spec fn view(&self) -> EnvV {
        env_map(self.env@)
    }
}

impl Interpreter {
    /// A fresh interpreter with an empty environment.
    pub fn new() -> (r: Self)
        ensures
            r@ == Map::<Seq<char>, ObjectV>::empty(),
    {
        Self { env: Vec::new() }
    }

    /// Binds `key` to `val`, shadowing any earlier binding.
    fn set_value(&mut self, key: String, val: Object)
        ensures
            final(self)@ == old(self)@.insert(key@, val@),
    {
        let ghost pre = self.env@;
        let ghost k = key@;
        let ghost v = val@;
        self.env.push((key, val));
        proof {
            assert(self.env@.drop_last() =~= pre);
            assert(env_map(self.env@) == env_map(pre).insert(k, v));
        }
    }

    /// The value bound to `key`, if any.
    pub fn get_value(&self, key: String) -> (r: Option<&Object>)
        ensures
            match r {
                Some(o) => self@.dom().contains(key@) && o@ == self@[key@],
                None => !self@.dom().contains(key@),
            },
    {
        proof {
            assert(self.env@.subrange(0, self.env@.len() as int) =~= self.env@);
        }
        let mut i = self.env.len();
        while i > 0
            invariant
                i <= self.env@.len(),
                env_map(self.env@).dom().contains(key@) == env_map(
                    self.env@.subrange(0, i as int),
                ).dom().contains(key@),
                env_map(self.env@).dom().contains(key@) ==> env_map(self.env@)[key@] == env_map(
                    self.env@.subrange(0, i as int),
                )[key@],
            decreases i,
        {
            i -= 1;
            proof {
                let sub = self.env@.subrange(0, i + 1);
                assert(sub.last() == self.env@[i as int]);
                assert(sub.drop_last() =~= self.env@.subrange(0, i as int));
                assert(env_map(sub) == env_map(sub.drop_last()).insert(
                    self.env@[i as int].0@,
                    self.env@[i as int].1@,
                ));
            }
            if self.env[i].0 == key {
                return Some(&self.env[i].1);
            }
        }
        proof {
            assert(self.env@.subrange(0, 0) =~= Seq::<(String, Object)>::empty());
        }
        None
    }

    /// Folds the program's statements in order and returns the last
    /// statement's value (`Null` for an empty program), or the first error.
    pub fn eval_program(&mut self, program: Program) -> (r: Result<Object, EvalError>)
        ensures
            eval_matches(
                spec_eval_block(old(self)@, program@, ObjectV::Null),
                r,
                final(self)@,
            ),
    {
        let ghost full = program@;
        let ghost env0: EnvV = old(self)@;
        let mut result = Object::Null;
        let mut i: usize = 0;
        proof {
            crate::ast::lemma_nodes_view(program.stmts, program.stmts@.len() as int);
            assert(full.subrange(0, full.len() as int) =~= full);
        }
        while i < program.stmts.len()
            invariant
                i <= program.stmts@.len(),
                full == program@,
                env0 == old(self)@,
                full.len() == program.stmts@.len(),
                forall|k: int| 0 <= k < full.len() ==> full[k] == program.stmts@[k]@,
                spec_eval_block(env0, full, ObjectV::Null) == spec_eval_block(
                    self@,
                    full.subrange(i as int, full.len() as int),
                    result@,
                ),
            decreases program.stmts@.len() - i,
        {
            let ghost rest = full.subrange(i as int, full.len() as int);
            proof {
                assert(rest[0] == full[i as int]);
                assert(rest.subrange(1, rest.len() as int) =~= full.subrange(
                    i + 1,
                    full.len() as int,
                ));
            }
            let r = self.eval_node(&program.stmts[i]);
            match r {
                Ok(v) => {
                    result = v;
                }
                Err(e) => {
                    return Err(e);
                }
            }
            i += 1;
        }
        proof {
            assert(full.subrange(full.len() as int, full.len() as int) =~= Seq::<NodeV>::empty());
        }
        Ok(result)
    }

    /// Evaluates one node against the environment.
    pub fn eval(&mut self, node: Node) -> (r: Result<Object, EvalError>)
        ensures
            eval_matches(spec_eval(old(self)@, node@), r, final(self)@),
    {
        self.eval_node(&node)
    }

    /// The recursive tree walk.
    fn eval_node(&mut self, node: &Node) -> (r: Result<Object, EvalError>)
        ensures
            eval_matches(spec_eval(old(self)@, node@), r, final(self)@),
        decreases *node, 0int,
    {
        match node {
            Node::Null => Ok(Object::Null),
            Node::Literal(tk) => self.eval_literal(tk),
            Node::Unary(op, operand) => self.eval_unary(op, operand),
            Node::VarStmt(var_stmt) => self.eval_var_stmt(&var_stmt.name, &var_stmt.value),
            Node::IfStmt(cond, then_stmt, else_stmt) => {
                // Three branches share this node, so the walk stays inline.
                let truth = self.eval_node(cond)?;
                match truth {
                    Object::Bool(v) => {
                        if v {
                            self.eval_node(then_stmt)
                        } else {
                            self.eval_node(else_stmt)
                        }
                    }
                    _ => Err(EvalError::NotTruthCond(truth)),
                }
            }
            Node::Block(stmts) => self.eval_block(stmts),
            Node::Identifier(x) => self.eval_identifier(x),
            Node::Assign(assign) => self.eval_assign(&assign.name, &assign.value),
            Node::Binary(left, tk, right) => {
                let left_obj = self.eval_node(left)?;
                let right_obj = self.eval_node(right)?;
                self.eval_binary(left_obj, tk, right_obj)
            }
            Node::Logical(left, op, right) => {
                // Short-circuit: `&&` answers false on a false left, `||`
                // answers true on a true left; both operands must be
                // booleans.
                let is_and = matches!(op, Token::And);
                let is_or = matches!(op, Token::Or);
                if !is_and && !is_or {
                    return Err(EvalError::NotSupportedOperator(op.clone()));
                }
                let left_obj = self.eval_node(left)?;
                match left_obj {
                    Object::Bool(b) => {
                        if (is_and && !b) || (is_or && b) {
                            Ok(Object::Bool(b))
                        } else {
                            let right_obj = self.eval_node(right)?;
                            match right_obj {
                                Object::Bool(b2) => Ok(Object::Bool(b2)),
                                _ => Err(EvalError::NotTruthCond(right_obj)),
                            }
                        }
                    }
                    _ => Err(EvalError::NotTruthCond(left_obj)),
                }
            }
            Node::Return(ret) => self.eval_return(&ret.value),
            Node::Group(inner) => self.eval_node(inner),
            Node::ExpressionStmt(_) => Err(EvalError::UnknowNode(clone_node(node))),
        }
    }

    /// The value of a literal token.
    fn eval_literal(&self, tk: &Token) -> (r: Result<Object, EvalError>)
        ensures
            match r {
                Ok(o) => spec_literal(tk@) == Ok::<ObjectV, EvalErrorV>(o@),
                Err(e) => spec_literal(tk@) == Err::<ObjectV, EvalErrorV>(e@),
            },
    {
        match tk {
            Token::Integer(v) => Ok(Object::Integer(*v)),
            Token::Float(v) => Ok(Object::Float(*v)),
            Token::SString(v) => Ok(Object::SString(v.clone())),
            Token::True => Ok(Object::Bool(true)),
            Token::False => Ok(Object::Bool(false)),
            _ => Err(EvalError::NotLiteral(tk.clone())),
        }
    }

    /// `!` on a boolean, or `-` on an integer or float.
    fn eval_unary(&mut self, tk: &Token, node: &Node) -> (r: Result<Object, EvalError>)
        ensures
            eval_matches(
                spec_eval(old(self)@, NodeV::Unary(tk@, Box::new(node@))),
                r,
                final(self)@,
            ),
        decreases *node, 1int,
    {
        match tk {
            Token::Bang => {
                let value = self.eval_node(node)?;
                match value {
                    Object::Bool(v) => Ok(Object::Bool(!v)),
                    _ => Err(EvalError::NotLiteral(tk.clone())),
                }
            }
            Token::Minus(_) => {
                let value = self.eval_node(node)?;
                match value {
                    Object::Integer(v) => {
                        if v == i64::MIN {
                            Ok(Object::Integer(i64::MIN))
                        } else {
                            Ok(Object::Integer(-v))
                        }
                    }
                    Object::Float(v) => Ok(Object::Float(FloatBits(float_neg(v.0)))),
                    _ => Err(EvalError::NotLiteral(tk.clone())),
                }
            }
            _ => Err(EvalError::NotLiteral(tk.clone())),
        }
    }

    /// Evaluates the initializer and binds the name to it; the bound value
    /// is the statement's value.
    fn eval_var_stmt(&mut self, tk: &Token, value: &Node) -> (r: Result<Object, EvalError>)
        ensures
            eval_matches(
                spec_eval(old(self)@, NodeV::VarStmt(tk@, Box::new(value@))),
                r,
                final(self)@,
            ),
        decreases *value, 1int,
    {
        match tk {
            Token::Ident(v) => {
                let name = v.clone();
                let final_val = self.eval_node(value)?;
                self.set_value(name, final_val.clone());
                Ok(final_val)
            }
            _ => Err(EvalError::NotIdent(tk.clone())),
        }
    }

    /// Evaluates the value and overwrites the name's binding; the assigned
    /// value is the expression's value.
    fn eval_assign(&mut self, name: &Token, value: &Node) -> (r: Result<Object, EvalError>)
        ensures
            eval_matches(
                spec_eval(old(self)@, NodeV::Assign(name@, Box::new(value@))),
                r,
                final(self)@,
            ),
        decreases *value, 1int,
    {
        match name {
            Token::Ident(ident) => {
                let key = ident.clone();
                let val = self.eval_node(value)?;
                self.set_value(key, val.clone());
                Ok(val)
            }
            _ => Err(EvalError::TkIsNotIdent(name.clone())),
        }
    }

    /// Looks the name up in the environment.
    fn eval_identifier(&mut self, tk: &Token) -> (r: Result<Object, EvalError>)
        ensures
            eval_matches(spec_eval(old(self)@, NodeV::Identifier(tk@)), r, final(self)@),
            *final(self) == *old(self),
    {
        match tk {
            Token::Ident(ident) => {
                if let Some(v) = self.get_value(ident.clone()) {
                    Ok(v.clone())
                } else {
                    Err(EvalError::IdentNotFound(ident.clone()))
                }
            }
            _ => Err(EvalError::NotIdent(tk.clone())),
        }
    }

    /// Folds a block's statements in order; the block's value is its last
    /// statement's value.  A block opens no scope: bindings land in the one
    /// shared environment, and a wrapped `Return` value does not unwind.
    fn eval_block(&mut self, stmts: &Vec<Node>) -> (r: Result<Object, EvalError>)
        ensures
            eval_matches(
                spec_eval_block(
                    old(self)@,
                    nodes_view(*stmts, stmts@.len() as int),
                    ObjectV::Null,
                ),
                r,
                final(self)@,
            ),
        decreases *stmts, 1int,
    {
        let ghost full = nodes_view(*stmts, stmts@.len() as int);
        let ghost env0: EnvV = old(self)@;
        let mut obj = Object::Null;
        let mut i: usize = 0;
        proof {
            crate::ast::lemma_nodes_view(*stmts, stmts@.len() as int);
            assert(full.subrange(0, full.len() as int) =~= full);
        }
        while i < stmts.len()
            invariant
                i <= stmts@.len(),
                full == nodes_view(*stmts, stmts@.len() as int),
                env0 == old(self)@,
                full.len() == stmts@.len(),
                forall|k: int| 0 <= k < full.len() ==> full[k] == stmts@[k]@,
                spec_eval_block(env0, full, ObjectV::Null) == spec_eval_block(
                    self@,
                    full.subrange(i as int, full.len() as int),
                    obj@,
                ),
            decreases stmts@.len() - i,
        {
            let ghost rest = full.subrange(i as int, full.len() as int);
            proof {
                assert(rest[0] == full[i as int]);
                assert(rest.subrange(1, rest.len() as int) =~= full.subrange(
                    i + 1,
                    full.len() as int,
                ));
            }
            let r = self.eval_node(&stmts[i]);
            match r {
                Ok(v) => {
                    obj = v;
                }
                Err(e) => {
                    return Err(e);
                }
            }
            i += 1;
        }
        proof {
            assert(full.subrange(full.len() as int, full.len() as int) =~= Seq::<NodeV>::empty());
        }
        Ok(obj)
    }

    /// Evaluates the inner expression and wraps it in a `Return` value.
    fn eval_return(&mut self, ret_value: &Node) -> (r: Result<Object, EvalError>)
        ensures
            eval_matches(
                spec_eval(old(self)@, NodeV::Return(Box::new(ret_value@))),
                r,
                final(self)@,
            ),
        decreases *ret_value, 1int,
    {
        let obj = self.eval_node(ret_value)?;
        Ok(Object::Return(Box::new(obj)))
    }

    /// Dispatches a binary operator on two evaluated operands.
    fn eval_binary(&self, left: Object, tk: &Token, right: Object) -> (r: Result<
        Object,
        EvalError,
    >)
        ensures
            match r {
                Ok(o) => spec_binary(left@, tk@, right@) == Ok::<ObjectV, EvalErrorV>(o@),
                Err(e) => spec_binary(left@, tk@, right@) == Err::<ObjectV, EvalErrorV>(e@),
            },
    {
        match tk {
            Token::Plus(_) | Token::Minus(_) | Token::Slash(_) | Token::Star(_) => self
                .eval_number(left, tk, right),
            Token::Lt(_) | Token::LtEQ(_) | Token::Gt(_) | Token::GtEQ(_) | Token::EQ(_)
                | Token::NotEQ(_) => self.eval_compare(left, tk, right),
            _ => Err(EvalError::NotSupportedOperator(tk.clone())),
        }
    }

    /// A comparison of two values.
    fn eval_compare(&self, left: Object, tk: &Token, right: Object) -> (r: Result<
        Object,
        EvalError,
    >)
        ensures
            match r {
                Ok(o) => spec_compare(left@, tk@, right@) == Ok::<ObjectV, EvalErrorV>(o@),
                Err(e) => spec_compare(left@, tk@, right@) == Err::<ObjectV, EvalErrorV>(e@),
            },
    {
        match (left, right) {
            (Object::Integer(a), Object::Integer(b)) => {
                self.eval_compare_num(tk, float_of_i64(a), float_of_i64(b))
            }
            (Object::Integer(a), Object::Float(b)) => {
                self.eval_compare_num(tk, float_of_i64(a), b.0)
            }
            (Object::Float(a), Object::Integer(b)) => {
                self.eval_compare_num(tk, a.0, float_of_i64(b))
            }
            (Object::Float(a), Object::Float(b)) => self.eval_compare_num(tk, a.0, b.0),
            (Object::SString(a), Object::SString(b)) => self.eval_compare_str(tk, &a, &b),
            (l, r) => {
                let l_num = matches!(l, Object::Integer(_) | Object::Float(_));
                let l_str = matches!(l, Object::SString(_));
                if !l_num && !l_str {
                    Err(EvalError::NotNumberOrStr(l))
                } else if matches!(r, Object::Integer(_) | Object::Float(_) | Object::SString(_)) {
                    Err(EvalError::DifferObjectToCompare(l, r))
                } else {
                    Err(EvalError::NotNumberOrStr(r))
                }
            }
        }
    }

    /// A comparison of two doubles, by their bit patterns.
    fn eval_compare_num(&self, tk: &Token, left: u64, right: u64) -> (r: Result<
        Object,
        EvalError,
    >)
        ensures
            match r {
                Ok(o) => spec_cmp_num(tk@, left, right) == Ok::<ObjectV, EvalErrorV>(o@),
                Err(e) => spec_cmp_num(tk@, left, right) == Err::<ObjectV, EvalErrorV>(e@),
            },
    {
        match tk {
            Token::Lt(_) => Ok(Object::Bool(float_lt(left, right))),
            Token::LtEQ(_) => Ok(Object::Bool(float_le(left, right))),
            Token::Gt(_) => Ok(Object::Bool(float_lt(right, left))),
            Token::GtEQ(_) => Ok(Object::Bool(float_le(right, left))),
            Token::EQ(_) => Ok(Object::Bool(float_eq(left, right))),
            Token::NotEQ(_) => Ok(Object::Bool(!float_eq(left, right))),
            _ => Err(EvalError::NotSupportedOperator(tk.clone())),
        }
    }

    /// A comparison of two strings, lexicographically.
    fn eval_compare_str(&self, tk: &Token, left: &String, right: &String) -> (r: Result<
        Object,
        EvalError,
    >)
        ensures
            match r {
                Ok(o) => spec_cmp_str(tk@, left@, right@) == Ok::<ObjectV, EvalErrorV>(o@),
                Err(e) => spec_cmp_str(tk@, left@, right@) == Err::<ObjectV, EvalErrorV>(e@),
            },
    {
        match tk {
            Token::Lt(_) => Ok(Object::Bool(str_lt(left, right))),
            Token::LtEQ(_) => Ok(Object::Bool(*left == *right || str_lt(left, right))),
            Token::Gt(_) => Ok(Object::Bool(str_lt(right, left))),
            Token::GtEQ(_) => Ok(Object::Bool(*left == *right || str_lt(right, left))),
            Token::EQ(_) => Ok(Object::Bool(*left == *right)),
            Token::NotEQ(_) => Ok(Object::Bool(!(*left == *right))),
            _ => Err(EvalError::NotSupportedOperator(tk.clone())),
        }
    }

    /// Dispatches an arithmetic operator.
    fn eval_number(&self, left: Object, tk: &Token, right: Object) -> (r: Result<
        Object,
        EvalError,
    >)
        requires
            tk@ is Plus || tk@ is Minus || tk@ is Slash || tk@ is Star,
        ensures
            match r {
                Ok(o) => spec_num_binary(tk@, left@, right@) == Ok::<ObjectV, EvalErrorV>(o@),
                Err(e) => spec_num_binary(tk@, left@, right@) == Err::<ObjectV, EvalErrorV>(e@),
            },
    {
        match tk {
            Token::Plus(_) | Token::Minus(_) | Token::Slash(_) | Token::Star(_) => self
                .eval_num_binary(tk, left, right),
            _ => Err(EvalError::NotSupportedOperator(tk.clone())),
        }
    }

    /// Arithmetic on two numeric values: both widen to doubles, the result
    /// is a `Number`; division by a zero right operand is an error.
    fn eval_num_binary(&self, tk: &Token, left: Object, right: Object) -> (r: Result<
        Object,
        EvalError,
    >)
        requires
            tk@ is Plus || tk@ is Minus || tk@ is Slash || tk@ is Star,
        ensures
            match r {
                Ok(o) => spec_num_binary(tk@, left@, right@) == Ok::<ObjectV, EvalErrorV>(o@),
                Err(e) => spec_num_binary(tk@, left@, right@) == Err::<ObjectV, EvalErrorV>(e@),
            },
    {
        let left_num: Option<u64> = match &left {
            Object::Integer(v) => Some(float_of_i64(*v)),
            Object::Number(b) => Some(b.0),
            Object::Float(b) => Some(b.0),
            _ => None,
        };
        let ghost right_zero = spec_is_zero(right@);
        let right_num: Option<u64> = match &right {
            Object::Integer(v) => Some(float_of_i64(*v)),
            Object::Number(b) => Some(b.0),
            Object::Float(b) => Some(b.0),
            _ => None,
        };
        let ln = match left_num {
            Some(v) => v,
            None => {
                return Err(EvalError::NotNumber(left));
            },
        };
        let rn = match right_num {
            Some(v) => v,
            None => {
                return Err(EvalError::NotNumber(right));
            },
        };
        match tk {
            Token::Plus(_) => Ok(Object::Number(FloatBits(float_add(ln, rn)))),
            Token::Minus(_) => Ok(Object::Number(FloatBits(float_sub(ln, rn)))),
            Token::Star(_) => Ok(Object::Number(FloatBits(float_mul(ln, rn)))),
            Token::Slash(_) => {
                if crate::float::is_zero_bits(rn) {
                    let msg = match &right {
                        Object::Integer(_) => String::from_str("right: Integer(0) num is zero"),
                        Object::Float(b) => {
                            if crate::float::is_neg_bits(b.0) {
                                String::from_str("right: Float(-0.0) num is zero")
                            } else {
                                String::from_str("right: Float(0.0) num is zero")
                            }
                        }
                        Object::Number(b) => {
                            if crate::float::is_neg_bits(b.0) {
                                String::from_str("right: Number(-0.0) num is zero")
                            } else {
                                String::from_str("right: Number(0.0) num is zero")
                            }
                        }
                        _ => String::new(),
                    };
                    return Err(EvalError::DivideByZero(msg));
                }
                Ok(Object::Number(FloatBits(float_div(ln, rn))))
            }
            _ => Err(EvalError::NotSupportedOperator(tk.clone())),
        }
    }
}

/// Strict lexicographic order on two strings, computed.
fn str_lt(a: &String, b: &String) -> (r: bool)
    ensures
        r == seq_char_lt(a@, b@),
{
    let n_a = a.as_str().unicode_len();
    let n_b = b.as_str().unicode_len();
    let mut i: usize = 0;
    proof {
        assert(a@.subrange(0, n_a as int) =~= a@);
        assert(b@.subrange(0, n_b as int) =~= b@);
    }
    loop
        invariant
            i <= n_a && i <= n_b,
            n_a == a@.len() && n_b == b@.len(),
            seq_char_lt(a@, b@) == seq_char_lt(
                a@.subrange(i as int, n_a as int),
                b@.subrange(i as int, n_b as int),
            ),
        decreases n_a - i,
    {
        if i >= n_b {
            proof {
                assert(b@.subrange(i as int, n_b as int).len() == 0);
            }
            return false;
        }
        if i >= n_a {
            proof {
                assert(a@.subrange(i as int, n_a as int).len() == 0);
                assert(b@.subrange(i as int, n_b as int).len() > 0);
            }
            return true;
        }
        let ca = a.as_str().get_char(i);
        let cb = b.as_str().get_char(i);
        proof {
            let sa = a@.subrange(i as int, n_a as int);
            let sb = b@.subrange(i as int, n_b as int);
            assert(sa[0] == a@[i as int]);
            assert(sb[0] == b@[i as int]);
            assert(sa.subrange(1, sa.len() as int) =~= a@.subrange(i + 1, n_a as int));
            assert(sb.subrange(1, sb.len() as int) =~= b@.subrange(i + 1, n_b as int));
        }
        if ca != cb {
            return ca < cb;
        }
        i += 1;
    }
}

/// Division by zero: whatever numeric value the left operand has, a `/`
/// whose right operand is a zero (the integer zero, or either floating
/// zero) evaluates to the `DivideByZero` error naming that operand, never
/// to an infinity.
pub proof fn lemma_divide_by_zero(left: ObjectV, c: char, right: ObjectV)
    requires
        spec_num_bits(left) is Some,
        spec_is_zero(right),
    ensures
        spec_binary(left, TokenV::Slash(c), right) == Err::<ObjectV, EvalErrorV>(
            EvalErrorV::DivideByZero(divide_by_zero_msg(right)),
        ),
{
}

/// Round trip: evaluating the declaration `var <ident> = <literal>` binds
/// the identifier to the literal's value and yields that value, and a bare
/// reference to the identifier immediately after yields the same value,
/// with the environment unchanged.
pub proof fn lemma_var_literal_roundtrip(env: EnvV, name: Seq<char>, lit: TokenV)
    requires
        lit is Integer || lit is Float || lit is SString || lit is True || lit is False,
    ensures
        ({
            let decl = NodeV::VarStmt(TokenV::Ident(name), Box::new(NodeV::Literal(lit)));
            let out = spec_eval(env, decl);
            &&& out.0 == spec_literal(lit)
            &&& spec_eval(out.1, NodeV::Identifier(TokenV::Ident(name))) == (
            spec_literal(lit),
            out.1,
            )
        }),
{
    let decl = NodeV::VarStmt(TokenV::Ident(name), Box::new(NodeV::Literal(lit)));
    assert(spec_eval(env, NodeV::Literal(lit)) == (spec_literal(lit), env));
    let v = spec_literal(lit)->Ok_0;
    assert(spec_eval(env, decl) == (Ok::<ObjectV, EvalErrorV>(v), env.insert(name, v)));
    assert(env.insert(name, v).dom().contains(name));
    assert(env.insert(name, v)[name] == v);
}

/// Idempotence: evaluating an identifier never changes the environment, so
/// re-evaluating it without an intervening assignment returns the identical
/// outcome both times.
pub proof fn lemma_identifier_idempotent(env: EnvV, tk: TokenV)
    ensures
        ({
            let out = spec_eval(env, NodeV::Identifier(tk));
            &&& out.1 == env
            &&& spec_eval(out.1, NodeV::Identifier(tk)) == out
        }),
{
}

} // verus!
