//! The runtime value model.  Values are immutable; every operation of the
//! evaluator produces a new value.

use crate::float::FloatBits;
use vstd::prelude::*;

verus! {

broadcast use vstd::std_specs::vec::axiom_vec_index_decreases;

/// A runtime value.  `Number` is the normalized result of any arithmetic
/// binary operation: whatever the operand kinds, arithmetic widens them to
/// double precision and yields a `Number`.  `Class`, `ClassInstance`,
/// `Function`, `Print` and `Error` are declared placeholders that no current
/// evaluation rule produces.
#[derive(Debug, PartialEq)]
pub enum Object {
    Class(String),
    ClassInstance(String),
    Function(String),
    Integer(i64),
    Float(FloatBits),
    Number(FloatBits),
    Bool(bool),
    SString(String),
    Return(Box<Object>),
    Print(Vec<Object>),
    Error(String),
    Null,
}

/// The mathematical value of an [`Object`]: strings as character sequences,
/// doubles as their bit patterns.
pub enum ObjectV {
    Class(Seq<char>),
    ClassInstance(Seq<char>),
    Function(Seq<char>),
    Integer(i64),
    Float(u64),
    Number(u64),
    Bool(bool),
    SString(Seq<char>),
    Return(Box<ObjectV>),
    Print(Seq<ObjectV>),
    Error(Seq<char>),
    Null,
}

/// The value of an object.
pub open spec fn object_view(o: Object) -> ObjectV
    decreases o,
{
    match o {
        Object::Class(s) => ObjectV::Class(s@),
        Object::ClassInstance(s) => ObjectV::ClassInstance(s@),
        Object::Function(s) => ObjectV::Function(s@),
        Object::Integer(v) => ObjectV::Integer(v),
        Object::Float(b) => ObjectV::Float(b.0),
        Object::Number(b) => ObjectV::Number(b.0),
        Object::Bool(b) => ObjectV::Bool(b),
        Object::SString(s) => ObjectV::SString(s@),
        Object::Return(o) => ObjectV::Return(Box::new(object_view(*o))),
        Object::Print(v) => ObjectV::Print(objects_view(v, v.len() as int)),
        Object::Error(s) => ObjectV::Error(s@),
        Object::Null => ObjectV::Null,
    }
}

/// The values of the first `n` objects of `v`.
pub open spec fn objects_view(v: Vec<Object>, n: int) -> Seq<ObjectV>
    decreases v, n,
{
    if n <= 0 || n > v.len() {
        Seq::empty()
    } else {
        objects_view(v, n - 1).push(object_view(v[n - 1]))
    }
}

impl View for Object {
    type V = ObjectV;

    open spec fn view(&self) -> ObjectV {
        object_view(*self)
    }
}

/// A deep copy of a value, with the same mathematical value.
pub fn clone_object(o: &Object) -> (r: Object)
    ensures
        r@ == o@,
    decreases *o, 0int,
{
    match o {
        Object::Class(s) => Object::Class(s.clone()),
        Object::ClassInstance(s) => Object::ClassInstance(s.clone()),
        Object::Function(s) => Object::Function(s.clone()),
        Object::Integer(v) => Object::Integer(*v),
        Object::Float(b) => Object::Float(*b),
        Object::Number(b) => Object::Number(*b),
        Object::Bool(b) => Object::Bool(*b),
        Object::SString(s) => Object::SString(s.clone()),
        Object::Return(inner) => Object::Return(Box::new(clone_object(&*inner))),
        Object::Print(v) => {
            let out = clone_objects(v);
            proof {
                lemma_objects_view(out, out@.len() as int);
                lemma_objects_view(*v, v@.len() as int);
                assert(objects_view(out, out@.len() as int) =~= objects_view(
                    *v,
                    v@.len() as int,
                ));
            }
            Object::Print(out)
        },
        Object::Error(s) => Object::Error(s.clone()),
        Object::Null => Object::Null,
    }
}

/// A deep copy of a value sequence, with the same values.
pub fn clone_objects(v: &Vec<Object>) -> (r: Vec<Object>)
    ensures
        r@.len() == v@.len(),
        forall|i: int| 0 <= i < v@.len() ==> r@[i]@ == v@[i]@,
    decreases *v, 1int,
{
    let mut out: Vec<Object> = Vec::new();
    let mut i: usize = 0;
    while i < v.len()
        invariant
            i <= v@.len(),
            out@.len() == i,
            forall|k: int| 0 <= k < i ==> out@[k]@ == v@[k]@,
        decreases v@.len() - i,
    {
        let c = clone_object(&v[i]);
        out.push(c);
        i += 1;
    }
    out
}

/// `objects_view` of a prefix is the pointwise view of that prefix.
pub proof fn lemma_objects_view(v: Vec<Object>, n: int)
    requires
        0 <= n <= v.len(),
    ensures
        objects_view(v, n).len() == n,
        forall|i: int| 0 <= i < n ==> objects_view(v, n)[i] == v[i]@,
    decreases n,
{
    if n > 0 {
        lemma_objects_view(v, n - 1);
    }
}

impl Clone for Object {
    /// A deep copy with the same mathematical value.
    fn clone(&self) -> (r: Self)
        ensures
            r@ == self@,
    {
        clone_object(self)
    }
}

} // verus!
