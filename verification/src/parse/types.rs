//! Representation of types in the language: every expression is
//! classifiable as the unit type, the floating-point numeric type, or a
//! function type.

use vstd::prelude::*;

use crate::lex::scan::str_eq;

verus! {

/// A type of the language.
#[derive(Debug, PartialEq)]
pub enum Type {
    /// `()`
    Empty,
    /// The standard numeric type.
    Float,
    /// A function type; only used in declarations.
    Fn(FnType),
}

impl Type {
    /// The function type inside.  Calling this on a non-function type is a
    /// caller error.
    pub fn expect_fn(self) -> (r: FnType)
        requires
            self is Fn,
        ensures
            self == Type::Fn(r),
    {
        match self {
            Type::Fn(inner) => inner,
            _ => vstd::pervasive::unreached(),
        }
    }
}

/// A function type: its return type and its ordered argument list of names
/// and types.
#[derive(Debug, PartialEq)]
pub struct FnType {
    return_type: Box<Type>,
    args: Vec<(String, Type)>,
}

impl FnType {
    pub fn new(return_type: Box<Type>, args: Vec<(String, Type)>) -> (r: FnType)
        ensures
            r.get_return_spec() == return_type,
            r.get_args_spec() == args@,
    {
        FnType { return_type, args }
    }

    pub closed spec fn get_return_spec(&self) -> Box<Type> {
        self.return_type
    }

    pub closed spec fn get_args_spec(&self) -> Seq<(String, Type)> {
        self.args@
    }

    pub fn get_return(&self) -> (r: &Type)
        ensures
            *r == *self.get_return_spec(),
    {
        &self.return_type
    }

    pub fn get_args(&self) -> (r: &Vec<(String, Type)>)
        ensures
            r@ == self.get_args_spec(),
    {
        &self.args
    }

    /// The position and type of the argument called `name`, or `None` when
    /// no argument has that name; the first match wins.
    pub fn get_arg(&self, name: &str) -> (r: Option<(usize, &Type)>)
        ensures
            match r {
                Some((ix, t)) => {
                    &&& 0 <= ix < self.get_args_spec().len()
                    &&& self.get_args_spec()[ix as int].0@ == name@
                    &&& *t == self.get_args_spec()[ix as int].1
                    &&& forall|j: int| 0 <= j < ix ==> self.get_args_spec()[j].0@ != name@
                },
                None => forall|j: int|
                    0 <= j < self.get_args_spec().len() ==> self.get_args_spec()[j].0@ != name@,
            },
    {
        let n = self.args.len();
        let mut ix: usize = 0;
        while ix < n
            invariant
                n == self.args.len(),
                ix <= n,
                forall|j: int| 0 <= j < ix ==> self.get_args_spec()[j].0@ != name@,
            decreases n - ix,
        {
            if str_eq(self.args[ix].0.as_str(), name) {
                return Some((ix, &self.args[ix].1));
            }
            ix += 1;
        }
        None
    }
}

} // verus!
