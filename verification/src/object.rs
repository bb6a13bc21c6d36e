//! The runtime values of the language: integers, booleans, null, error
//! values, function values (closures), and the return-value sentinel that
//! carries an early function exit.

use vstd::prelude::*;

use std::rc::Rc;
use crate::ast::{
    BlockStatement, IdentifierExpression, StmtModel, view_params, view_stmts,
};

verus! {

/// The kind of a runtime value.
#[derive(Clone, Copy, PartialEq, Eq, Structural, Debug)]
pub enum ObjectType {
    Integer,
    Boolean,
    Null,
    ReturnValue,
    Error,
    Function,
}

/// An integer value.
pub struct Integer {
    pub value: i64,
}

/// A boolean value.
pub struct Boolean {
    pub value: bool,
}

/// The null value: the result of a `let` binding or of an `if` without a
/// taken branch.
pub struct Null {}

/// A runtime error, carried as a value and propagated unchanged.
pub struct Error {
    pub message: String,
}

/// A function value: its parameters and body, shared with the literal
/// that made it, and a handle to the scope it was defined in.
pub struct Function {
    pub parameters: Rc<Vec<IdentifierExpression>>,
    pub body: Rc<BlockStatement>,
    pub env: usize,
}

/// A runtime value.
pub enum Object {
    Integer(Integer),
    Boolean(Boolean),
    Null(Null),
    ReturnValue(Box<Object>),
    Error(Error),
    Function(Function),
}

/// Mathematical image of an [`Object`].
pub enum ObjectModel {
    Integer { value: i64 },
    Boolean { value: bool },
    Null,
    ReturnValue { value: Box<ObjectModel> },
    Error { message: Seq<char> },
    Function { parameters: Seq<Seq<char>>, body: Seq<StmtModel>, env: int },
}

/// The model of a runtime value.
pub open spec fn view_object(o: Object) -> ObjectModel
    decreases o,
{
    match o {
        Object::Integer(n) => ObjectModel::Integer { value: n.value },
        Object::Boolean(n) => ObjectModel::Boolean { value: n.value },
        Object::Null(_) => ObjectModel::Null,
        Object::ReturnValue(inner) => ObjectModel::ReturnValue {
            value: Box::new(view_object(*inner)),
        },
        Object::Error(n) => ObjectModel::Error { message: n.message@ },
        Object::Function(f) => ObjectModel::Function {
            parameters: view_params(f.parameters@),
            body: view_stmts(f.body.statements@),
            env: f.env as int,
        },
    }
}

impl View for Object {
    type V = ObjectModel;

    open spec fn view(&self) -> ObjectModel {
        view_object(*self)
    }
}

impl DeepView for Object {
    type V = ObjectModel;

    open spec fn deep_view(&self) -> ObjectModel {
        self@
    }
}

/// The kind of a value model.
pub open spec fn object_type_of(m: ObjectModel) -> ObjectType {
    match m {
        ObjectModel::Integer { .. } => ObjectType::Integer,
        ObjectModel::Boolean { .. } => ObjectType::Boolean,
        ObjectModel::Null => ObjectType::Null,
        ObjectModel::ReturnValue { .. } => ObjectType::ReturnValue,
        ObjectModel::Error { .. } => ObjectType::Error,
        ObjectModel::Function { .. } => ObjectType::Function,
    }
}

/// How a value prints: integers in decimal, booleans as `true`/`false`,
/// null as `null`, an error as its message, a function as `Func` with its
/// parameters and body; the sentinel around an early return prints as the
/// value it carries.
pub open spec fn object_chars(m: ObjectModel) -> Seq<char>
    decreases m,
{
    match m {
        ObjectModel::Integer { value } => crate::ast::int_chars(value),
        ObjectModel::Boolean { value } => if value {
            "true"@
        } else {
            "false"@
        },
        ObjectModel::Null => "null"@,
        ObjectModel::ReturnValue { value } => object_chars(*value),
        ObjectModel::Error { message } => message,
        ObjectModel::Function { parameters, body, env } => "Func ("@ + crate::ast::params_chars(
            parameters,
        ) + ")\n"@ + crate::ast::block_chars(body),
    }
}

impl Object {
    /// Render this value for printing.
    pub fn to_string(&self) -> (r: String)
        ensures
            r@ == object_chars(self@),
        decreases self,
    {
        match self {
            Object::Integer(n) => crate::ast::int_to_string(n.value),
            Object::Boolean(b) => {
                if b.value {
                    "true".to_owned()
                } else {
                    "false".to_owned()
                }
            },
            Object::Null(_) => "null".to_owned(),
            Object::ReturnValue(inner) => {
                let i: &Object = &*inner;
                i.to_string()
            },
            Object::Error(e) => e.message.clone(),
            Object::Function(f) => {
                let m = String::from_str("Func (");
                proof {
                    assert(f.parameters@.skip(0) =~= f.parameters@);
                    assert(f.body.statements@.skip(0) =~= f.body.statements@);
                }
                let ps = crate::ast::params_to_string(&f.parameters, 0);
                let m = m.concat(ps.as_str());
                let m = m.concat(")\n");
                let b = crate::ast::block_to_string(&f.body.statements, 0);
                let m = m.concat(b.as_str());
                proof {
                    assert(m@ =~= object_chars(self@));
                }
                m
            },
        }
    }
}

/// Relies on `Rc::clone`: it returns a new handle to the same allocation,
/// and so to the same value.
#[verifier::external_body]
pub(crate) fn rc_clone<T>(rc: &Rc<T>) -> (res: Rc<T>)
    ensures
        res == *rc,
{
    Rc::clone(rc)
}

impl Object {
    /// The kind of this value.
    pub fn get_type(&self) -> (t: ObjectType)
        ensures
            t == object_type_of(self@),
    {
        match self {
            Object::Integer(_) => ObjectType::Integer,
            Object::Boolean(_) => ObjectType::Boolean,
            Object::Null(_) => ObjectType::Null,
            Object::ReturnValue(_) => ObjectType::ReturnValue,
            Object::Error(_) => ObjectType::Error,
            Object::Function(_) => ObjectType::Function,
        }
    }

    /// A value equal to this one; function values share their parameter
    /// list and body with the original.
    pub fn duplicate(&self) -> (r: Object)
        ensures
            r@ == self@,
        decreases self,
    {
        match self {
            Object::Integer(n) => Object::Integer(Integer { value: n.value }),
            Object::Boolean(n) => Object::Boolean(Boolean { value: n.value }),
            Object::Null(_) => Object::Null(Null {}),
            Object::ReturnValue(inner) => {
                let i: &Object = &*inner;
                Object::ReturnValue(Box::new(i.duplicate()))
            },
            Object::Error(n) => Object::Error(Error { message: n.message.clone() }),
            Object::Function(f) => Object::Function(
                Function {
                    parameters: rc_clone(&f.parameters),
                    body: rc_clone(&f.body),
                    env: f.env,
                },
            ),
        }
    }
}

} // verus!
