//! Runtime values: integers, booleans, first-class functions carrying the
//! scope they were created in, the internal return sentinel, and null.

use vstd::prelude::*;
use crate::ast::{Node, NodeV, clone_nodes, node_view, nodes_view};

verus! {

/// A runtime value.
#[derive(Debug)]
pub enum Object {
    Integer(IntegerObject),
    Boolean(BooleanObject),
    Identifier(IdentiferObject),
    Function(FunctionLiteralObject),
    Return(ReturnObject),
    Null,
}

#[derive(Debug)]
pub struct IntegerObject {
    pub value: i32,
}

#[derive(Debug)]
pub struct BooleanObject {
    pub value: bool,
}

#[derive(Debug)]
pub struct IdentiferObject {
    pub value: String,
}

/// A function value: parameter identifiers, a block-statement body, and
/// the index of the environment scope captured at the site of the literal.
#[derive(Debug)]
pub struct FunctionLiteralObject {
    pub parameters: Vec<Node>,
    pub body: Node,
    pub env: usize,
}

/// The internal sentinel wrapping a returned value; never observable
/// outside the nearest enclosing function or program boundary.
#[derive(Debug)]
pub struct ReturnObject {
    pub value: Box<Object>,
}

/// Mathematical model of a runtime value.
pub ghost enum ObjV {
    Int { value: i32 },
    Bool { value: bool },
    IdentObj { value: Seq<char> },
    Func { parameters: Seq<NodeV>, body: Box<NodeV>, env: int },
    Ret { value: Box<ObjV> },
    Null,
}

/// The model of a runtime value.
pub open spec fn object_view(o: Object) -> ObjV
    decreases o,
{
    match o {
        Object::Integer(v) => ObjV::Int { value: v.value },
        Object::Boolean(v) => ObjV::Bool { value: v.value },
        Object::Identifier(v) => ObjV::IdentObj { value: v.value@ },
        Object::Function(v) => ObjV::Func {
            parameters: nodes_view(v.parameters@),
            body: Box::new(node_view(v.body)),
            env: v.env as int,
        },
        Object::Return(v) => ObjV::Ret { value: Box::new(object_view(*v.value)) },
        Object::Null => ObjV::Null,
    }
}

impl View for Object {
    type V = ObjV;

    open spec fn view(&self) -> ObjV {
        object_view(*self)
    }
}

impl Clone for Object {
    /// Deep copy; the copy has the same model as the original.
    fn clone(&self) -> (r: Object)
        ensures
            r@ == self@,
        decreases self,
    {
        match self {
            Object::Integer(v) => Object::Integer(IntegerObject { value: v.value }),
            Object::Boolean(v) => Object::Boolean(BooleanObject { value: v.value }),
            Object::Identifier(v) => Object::Identifier(
                IdentiferObject { value: v.value.clone() },
            ),
            Object::Function(v) => Object::Function(
                FunctionLiteralObject {
                    parameters: clone_nodes(&v.parameters),
                    body: v.body.clone(),
                    env: v.env,
                },
            ),
            Object::Return(v) => Object::Return(
                ReturnObject { value: Box::new((&*v.value).clone()) },
            ),
            Object::Null => Object::Null,
        }
    }
}

} // verus!
