//! The builtin-function registry: a name-to-function table the evaluator
//! consults when a call target is bound in no scope of the environment.

use vstd::prelude::*;

use crate::eval::{res_matches, spec_eval_builtin, EvalOutcome};
use crate::object::{objs_view, EvalError, Object};
use crate::token::string_eq;
use vstd::string::StringExecFns;

verus! {

/// A tag naming one builtin's native implementation.
#[derive(Debug, PartialEq, Eq, Structural, Clone, Copy)]
pub enum BuiltinFn {
    Len,
}

/// The registry: the names the interpreter answers for natively.
#[derive(Debug)]
pub struct BuiltinFunctions {
    fns: Vec<(String, BuiltinFn)>,
}

impl BuiltinFunctions {
    /// The registry holds exactly `len`.
    pub closed spec fn wf(&self) -> bool {
        &&& self.fns@.len() == 1
        &&& self.fns@[0].0@ == "len"@
        &&& self.fns@[0].1 == BuiltinFn::Len
    }

    /// Builds the registry the evaluator works against.
    pub fn setup() -> (r: Self)
        ensures
            r.wf(),
    {
        let mut bf = BuiltinFunctions { fns: Vec::new() };
        bf.set_fn(String::from_str("len"), BuiltinFn::Len);
        bf
    }

    /// The native function registered under `name`, if any.
    pub fn get_fn(&self, name: String) -> (r: Option<BuiltinFn>)
        requires
            self.wf(),
        ensures
            name@ == "len"@ ==> r == Option::Some(BuiltinFn::Len),
            name@ != "len"@ ==> r is None,
    {
        let mut i: usize = 0;
        while i < self.fns.len()
            invariant
                self.wf(),
                0 <= i <= self.fns@.len(),
                forall|j: int| 0 <= j < i ==> (#[trigger] self.fns@[j]).0@ != name@,
            decreases self.fns@.len() - i,
        {
            if string_eq(&self.fns[i].0, &name) {
                return Option::Some(self.fns[i].1);
            }
            i += 1;
        }
        Option::None
    }

    fn set_fn(&mut self, name: String, func: BuiltinFn)
        ensures
            final(self).fns@ == old(self).fns@.push((name, func)),
    {
        self.fns.push((name, func));
    }
}

/// The `len` builtin: one string argument, and the result is its length in
/// bytes as an integer.
pub fn len(arguments: Option<Vec<Object>>) -> (r: Result<Object, EvalError>)
    ensures
        res_matches(
            r,
            spec_eval_builtin(
                "len"@,
                match arguments {
                    Option::Some(a) => objs_view(a@),
                    Option::None => Seq::empty(),
                },
            ),
        ),
        r matches Ok(o) ==> o@ is Integer,
{
    let args = match arguments {
        Option::Some(a) => a,
        Option::None => {
            return Result::Err(EvalError::ArityMismatch);
        },
    };
    if args.len() != 1 {
        return Result::Err(EvalError::ArityMismatch);
    }
    match &args[0] {
        Object::String(s) => {
            let n: usize = s.as_str().len();
            if n <= (isize::MAX as usize) {
                Result::Ok(Object::Integer(n as isize))
            } else {
                Result::Err(EvalError::Overflow)
            }
        },
        _ => Result::Err(EvalError::TypeMismatch),
    }
}

} // verus!
