//! The tree-walking evaluator.
//!
//! `spec_eval_stmts` and its companions form a specification-level
//! interpreter over the views of the syntax tree and of the environment; the
//! executable evaluator is proved to return exactly what they describe. A
//! fuel budget bounds the call depth: every function call consumes one unit,
//! and exhausting the budget is the `RecursionLimit` error.

use vstd::prelude::*;
use vstd::string::StringExecFns;

use crate::ast::{
    stmts_view, vexpr_size, vexprs_size, vstmt_size, vstmts_size, ExprV,
    IdentV, StmtV, lemma_stmts_view_len, lemma_exprs_view_len, lemma_vstmts_size_drop,
    exprs_view, dup_block, dup_idents, Statement, Expression, Identifier,
};
use crate::object::{
    lookup, vobj_wf, EvalError, Environment, FunctionObject, FunctionV, Object,
    ObjV, ScopeV, lemma_lookup_wf, lemma_vobj_wf_mono, dup_object,
};
use crate::token::{Token, TokenV};

verus! {

/// The call-depth budget of the public evaluator entry point.
pub const EVAL_FUEL: u64 = 1024;

/// What one evaluation step yields: a value, or a runtime error.
pub ghost enum EvalOutcome {
    Val(ObjV),
    Fail(EvalError),
}

/// What evaluating an argument list yields.
pub ghost enum ArgsOutcome {
    Vals(Seq<ObjV>),
    Fail(EvalError),
}

/// Everything except `false` and `Null` counts as true in a condition.
pub open spec fn vtruthy(o: ObjV) -> bool {
    match o {
        ObjV::Null => false,
        ObjV::Boolean(b) => b,
        _ => true,
    }
}

/// Truncating integer division, as the machine division operator computes
/// it.
pub open spec fn trunc_div(x: int, d: int) -> int {
    if x == 0 {
        0
    } else if x > 0 && d > 0 {
        x / d
    } else if x < 0 && d < 0 {
        (x * -1) / (d * -1)
    } else if x < 0 {
        ((x * -1) / d) * -1
    } else {
        (x / (d * -1)) * -1
    }
}

pub open spec fn in_isize(x: int) -> bool {
    isize::MIN as int <= x <= isize::MAX as int
}

/// The result of a prefix operator on an evaluated operand. `!` coerces by
/// truthiness and never fails; `-` demands an integer and fails on overflow.
pub open spec fn spec_eval_prefix(op: TokenV, v: ObjV) -> EvalOutcome {
    match op {
        TokenV::Bang => EvalOutcome::Val(ObjV::Boolean(!vtruthy(v))),
        TokenV::Minus => match v {
            ObjV::Integer(i) => if in_isize(-i) {
                EvalOutcome::Val(ObjV::Integer(-i))
            } else {
                EvalOutcome::Fail(EvalError::Overflow)
            },
            _ => EvalOutcome::Fail(EvalError::TypeMismatch),
        },
        _ => EvalOutcome::Fail(EvalError::UnknownOperator),
    }
}

/// The result of an infix operator on two evaluated operands.
///
/// Two integers accept `+ - * /` (checked; division truncates and fails on a
/// zero divisor) and the comparisons; two booleans accept only `==` and
/// `!=`; two strings accept only `+`, concatenation. Every other pairing is
/// a type mismatch.
pub open spec fn spec_eval_infix(op: TokenV, l: ObjV, r: ObjV) -> EvalOutcome {
    match (l, r) {
        (ObjV::Integer(a), ObjV::Integer(b)) => match op {
            TokenV::Plus => if in_isize(a + b) {
                EvalOutcome::Val(ObjV::Integer(a + b))
            } else {
                EvalOutcome::Fail(EvalError::Overflow)
            },
            TokenV::Minus => if in_isize(a - b) {
                EvalOutcome::Val(ObjV::Integer(a - b))
            } else {
                EvalOutcome::Fail(EvalError::Overflow)
            },
            TokenV::Asterisk => if in_isize(a * b) {
                EvalOutcome::Val(ObjV::Integer(a * b))
            } else {
                EvalOutcome::Fail(EvalError::Overflow)
            },
            TokenV::Slash => if b == 0 {
                EvalOutcome::Fail(EvalError::DivisionByZero)
            } else if in_isize(trunc_div(a, b)) {
                EvalOutcome::Val(ObjV::Integer(trunc_div(a, b)))
            } else {
                EvalOutcome::Fail(EvalError::Overflow)
            },
            TokenV::LessThan => EvalOutcome::Val(ObjV::Boolean(a < b)),
            TokenV::GreaterThan => EvalOutcome::Val(ObjV::Boolean(a > b)),
            TokenV::Equal => EvalOutcome::Val(ObjV::Boolean(a == b)),
            TokenV::NotEqual => EvalOutcome::Val(ObjV::Boolean(a != b)),
            _ => EvalOutcome::Fail(EvalError::UnknownOperator),
        },
        (ObjV::Boolean(a), ObjV::Boolean(b)) => match op {
            TokenV::Equal => EvalOutcome::Val(ObjV::Boolean(a == b)),
            TokenV::NotEqual => EvalOutcome::Val(ObjV::Boolean(a != b)),
            _ => EvalOutcome::Fail(EvalError::UnknownOperator),
        },
        (ObjV::String(a), ObjV::String(b)) => match op {
            TokenV::Plus => EvalOutcome::Val(ObjV::String(a + b)),
            _ => EvalOutcome::Fail(EvalError::UnknownOperator),
        },
        _ => EvalOutcome::Fail(EvalError::TypeMismatch),
    }
}

/// The names the builtin registry answers for.
pub open spec fn spec_is_builtin(name: Seq<char>) -> bool {
    name == "len"@
}

/// What the builtin named `name` returns on evaluated arguments. `len`
/// takes one string and returns its length in bytes.
pub open spec fn spec_eval_builtin(name: Seq<char>, args: Seq<ObjV>) -> EvalOutcome {
    if args.len() != 1 {
        EvalOutcome::Fail(EvalError::ArityMismatch)
    } else {
        match args[0] {
            ObjV::String(s) => {
                let n = vstd::utf8::encode_utf8(s).len() as usize;
                if n <= isize::MAX as usize {
                    EvalOutcome::Val(ObjV::Integer(n as int))
                } else {
                    EvalOutcome::Fail(EvalError::Overflow)
                }
            },
            _ => EvalOutcome::Fail(EvalError::TypeMismatch),
        }
    }
}

/// Every parameter of a function literal is an identifier token.
pub open spec fn params_named(ps: Seq<IdentV>) -> bool {
    forall|i: int| 0 <= i < ps.len() ==> (#[trigger] ps[i]).token is Ident
}

pub open spec fn param_count(ps: Option<Seq<IdentV>>) -> int {
    match ps {
        Option::Some(s) => s.len() as int,
        Option::None => 0,
    }
}

/// The store of a fresh call frame: each parameter name bound to the
/// argument in its position.
pub open spec fn params_store(ps: Seq<IdentV>, args: Seq<ObjV>) -> Map<Seq<char>, ObjV>
    decreases ps,
{
    if ps.len() == 0 || ps.len() != args.len() {
        Map::empty()
    } else {
        params_store(ps.drop_last(), args.drop_last()).insert(
            ps.last().token->Ident_0,
            args.last(),
        )
    }
}

// ------------------------------------------------------------------
// The specification-level evaluator
// ------------------------------------------------------------------

/// Evaluates a statement sequence: statements run in order, the sequence's
/// value is the last statement's value, and a `Return` wrapper produced by
/// any statement leaves the whole sequence at once.
pub open spec fn spec_eval_stmts(
    ss: Seq<StmtV>,
    env: Seq<ScopeV>,
    scope: int,
    fuel: nat,
) -> (EvalOutcome, Seq<ScopeV>)
    decreases fuel, vstmts_size(ss),
{
    if ss.len() == 0 {
        (EvalOutcome::Val(ObjV::Null), env)
    } else {
        let (r, env1) = spec_eval_stmt(ss[0], env, scope, fuel);
        match r {
            EvalOutcome::Fail(e) => (EvalOutcome::Fail(e), env1),
            EvalOutcome::Val(v) => if v is Return {
                (EvalOutcome::Val(v), env1)
            } else if ss.len() == 1 {
                (EvalOutcome::Val(v), env1)
            } else {
                spec_eval_stmts(ss.drop_first(), env1, scope, fuel)
            },
        }
    }
}

/// Evaluates one statement. A `let` binds in the current scope and yields
/// the bound value; a `return` wraps its value; an expression statement
/// yields its expression's value.
pub open spec fn spec_eval_stmt(
    s: StmtV,
    env: Seq<ScopeV>,
    scope: int,
    fuel: nat,
) -> (EvalOutcome, Seq<ScopeV>)
    decreases fuel, vstmt_size(s),
{
    match s {
        StmtV::Let(l) => match l.token {
            TokenV::Ident(name) => {
                let (r, env1) = spec_eval_expr(l.value, env, scope, fuel);
                match r {
                    EvalOutcome::Fail(e) => (EvalOutcome::Fail(e), env1),
                    EvalOutcome::Val(v) => if 0 <= scope < env1.len() {
                        (
                            EvalOutcome::Val(v),
                            env1.update(
                                scope,
                                ScopeV {
                                    store: env1[scope].store.insert(name, v),
                                    outer: env1[scope].outer,
                                },
                            ),
                        )
                    } else {
                        (EvalOutcome::Fail(EvalError::BadNode), env1)
                    },
                }
            },
            _ => (EvalOutcome::Fail(EvalError::BadNode), env),
        },
        StmtV::Return(ret) => {
            let (r, env1) = spec_eval_expr(ret.return_value, env, scope, fuel);
            match r {
                EvalOutcome::Fail(e) => (EvalOutcome::Fail(e), env1),
                EvalOutcome::Val(v) => (EvalOutcome::Val(ObjV::Return(Box::new(v))), env1),
            }
        },
        StmtV::Expression(e) => spec_eval_expr(e, env, scope, fuel),
    }
}

/// Evaluates one expression against the environment, threading the
/// environment through sub-evaluations from left to right.
pub open spec fn spec_eval_expr(
    e: ExprV,
    env: Seq<ScopeV>,
    scope: int,
    fuel: nat,
) -> (EvalOutcome, Seq<ScopeV>)
    decreases fuel, vexpr_size(e),
{
    match e {
        ExprV::Integer(t) => match t {
            TokenV::Int(i) => (EvalOutcome::Val(ObjV::Integer(i)), env),
            _ => (EvalOutcome::Fail(EvalError::BadNode), env),
        },
        ExprV::String(t) => match t {
            TokenV::String(s) => (EvalOutcome::Val(ObjV::String(s)), env),
            _ => (EvalOutcome::Fail(EvalError::BadNode), env),
        },
        ExprV::Boolean(t) => match t {
            TokenV::True => (EvalOutcome::Val(ObjV::Boolean(true)), env),
            TokenV::False => (EvalOutcome::Val(ObjV::Boolean(false)), env),
            _ => (EvalOutcome::Fail(EvalError::BadNode), env),
        },
        ExprV::Identifier(t) => match t {
            TokenV::Ident(name) => match lookup(env, scope, name) {
                Option::Some(v) => (EvalOutcome::Val(v), env),
                Option::None => (EvalOutcome::Fail(EvalError::IdentifierNotFound), env),
            },
            _ => (EvalOutcome::Fail(EvalError::BadNode), env),
        },
        ExprV::Prefix(p) => {
            let (r, env1) = spec_eval_expr(p.right, env, scope, fuel);
            match r {
                EvalOutcome::Fail(err) => (EvalOutcome::Fail(err), env1),
                EvalOutcome::Val(v) => (spec_eval_prefix(p.token, v), env1),
            }
        },
        ExprV::Infix(inf) => {
            let (rl, env1) = spec_eval_expr(inf.left, env, scope, fuel);
            match rl {
                EvalOutcome::Fail(err) => (EvalOutcome::Fail(err), env1),
                EvalOutcome::Val(lv) => {
                    let (rr, env2) = spec_eval_expr(inf.right, env1, scope, fuel);
                    match rr {
                        EvalOutcome::Fail(err) => (EvalOutcome::Fail(err), env2),
                        EvalOutcome::Val(rv) => (spec_eval_infix(inf.token, lv, rv), env2),
                    }
                },
            }
        },
        ExprV::If(i) => {
            let (rc, env1) = spec_eval_expr(i.condition, env, scope, fuel);
            match rc {
                EvalOutcome::Fail(err) => (EvalOutcome::Fail(err), env1),
                EvalOutcome::Val(c) => if vtruthy(c) {
                    spec_eval_stmts(i.consequence.statements, env1, scope, fuel)
                } else {
                    match i.alternative {
                        Option::Some(alt) => spec_eval_stmts(alt.statements, env1, scope, fuel),
                        Option::None => (EvalOutcome::Val(ObjV::Null), env1),
                    }
                },
            }
        },
        ExprV::Fn(f) => (
            EvalOutcome::Val(
                ObjV::Function(
                    FunctionV { parameters: f.parameters, body: f.body, environment: scope },
                ),
            ),
            env,
        ),
        ExprV::Call(c) => {
            match c.function {
                ExprV::Identifier(t) => match t {
                    TokenV::Ident(name) => match lookup(env, scope, name) {
                        Option::Some(f) => {
                            let (ra, env1) = spec_eval_args(spec_call_args(c.arguments), env, scope, fuel);
                            match ra {
                                ArgsOutcome::Fail(err) => (EvalOutcome::Fail(err), env1),
                                ArgsOutcome::Vals(args) => spec_eval_apply(f, args, env1, fuel),
                            }
                        },
                        Option::None => if spec_is_builtin(name) {
                            let (ra, env1) = spec_eval_args(spec_call_args(c.arguments), env, scope, fuel);
                            match ra {
                                ArgsOutcome::Fail(err) => (EvalOutcome::Fail(err), env1),
                                ArgsOutcome::Vals(args) => (spec_eval_builtin(name, args), env1),
                            }
                        } else {
                            (EvalOutcome::Fail(EvalError::IdentifierNotFound), env)
                        },
                    },
                    _ => (EvalOutcome::Fail(EvalError::BadNode), env),
                },
                _ => {
                    let (rf, env1) = spec_eval_expr(c.function, env, scope, fuel);
                    match rf {
                        EvalOutcome::Fail(err) => (EvalOutcome::Fail(err), env1),
                        EvalOutcome::Val(f) => {
                            let (ra, env2) = spec_eval_args(spec_call_args(c.arguments), env1, scope, fuel);
                            match ra {
                                ArgsOutcome::Fail(err) => (EvalOutcome::Fail(err), env2),
                                ArgsOutcome::Vals(args) => spec_eval_apply(f, args, env2, fuel),
                            }
                        },
                    }
                },
            }
        },
    }
}

/// The argument expressions of a call; an absent list is the empty list.
pub open spec fn spec_call_args(args: Option<Seq<ExprV>>) -> Seq<ExprV> {
    match args {
        Option::Some(a) => a,
        Option::None => Seq::empty(),
    }
}

/// Evaluates argument expressions left to right in the caller's scope.
pub open spec fn spec_eval_args(
    es: Seq<ExprV>,
    env: Seq<ScopeV>,
    scope: int,
    fuel: nat,
) -> (ArgsOutcome, Seq<ScopeV>)
    decreases fuel, vexprs_size(es),
{
    if es.len() == 0 {
        (ArgsOutcome::Vals(Seq::empty()), env)
    } else {
        let (r, env1) = spec_eval_expr(es[0], env, scope, fuel);
        match r {
            EvalOutcome::Fail(e) => (ArgsOutcome::Fail(e), env1),
            EvalOutcome::Val(v) => {
                let (rest, env2) = spec_eval_args(es.drop_first(), env1, scope, fuel);
                match rest {
                    ArgsOutcome::Fail(e) => (ArgsOutcome::Fail(e), env2),
                    ArgsOutcome::Vals(vs) => (ArgsOutcome::Vals(seq![v] + vs), env2),
                }
            },
        }
    }
}

/// Applies a function value to evaluated arguments: a fresh scope enclosed
/// by the captured scope binds each parameter to its argument by position,
/// the body runs there on one unit less fuel, and a `Return` wrapper coming
/// out of the body is unwrapped — a `return` never leaks past the call.
pub open spec fn spec_eval_apply(
    f: ObjV,
    args: Seq<ObjV>,
    env: Seq<ScopeV>,
    fuel: nat,
) -> (EvalOutcome, Seq<ScopeV>)
    decreases fuel, 0nat,
{
    match f {
        ObjV::Function(fv) => {
            let ps = match fv.parameters {
                Option::Some(s) => s,
                Option::None => Seq::empty(),
            };
            if !params_named(ps) {
                (EvalOutcome::Fail(EvalError::BadNode), env)
            } else if args.len() != ps.len() {
                (EvalOutcome::Fail(EvalError::ArityMismatch), env)
            } else if !(0 <= fv.environment < env.len()) {
                (EvalOutcome::Fail(EvalError::BadNode), env)
            } else if fuel == 0 {
                (EvalOutcome::Fail(EvalError::RecursionLimit), env)
            } else {
                let ns = env.len() as int;
                let env2 = env.push(
                    ScopeV {
                        store: params_store(ps, args),
                        outer: Option::Some(fv.environment),
                    },
                );
                let (r, env3) = spec_eval_stmts(
                    fv.body.statements,
                    env2,
                    ns,
                    (fuel - 1) as nat,
                );
                match r {
                    EvalOutcome::Fail(e) => (EvalOutcome::Fail(e), env3),
                    EvalOutcome::Val(v) => match v {
                        ObjV::Return(inner) => (EvalOutcome::Val(*inner), env3),
                        _ => (EvalOutcome::Val(v), env3),
                    },
                }
            }
        },
        _ => (EvalOutcome::Fail(EvalError::NotAFunction), env),
    }
}

// ------------------------------------------------------------------
// The executable evaluator
// ------------------------------------------------------------------

/// The executable result agrees with the specification-level outcome.
pub open spec fn res_matches(r: Result<Object, EvalError>, out: EvalOutcome) -> bool {
    match r {
        Result::Ok(o) => out == EvalOutcome::Val(o@),
        Result::Err(e) => out == EvalOutcome::Fail(e),
    }
}

impl Object {
    /// Truthiness: `false` and `Null` are falsy, every other value — the
    /// integer `0` included — is truthy.
    pub fn is_truthy(&self) -> (r: bool)
        ensures
            r == vtruthy(self@),
    {
        match self {
            Object::Null => false,
            Object::Boolean(b) => *b,
            _ => true,
        }
    }

    /// Whether the two values are the same variant of `Object`, whatever
    /// they hold.
    pub fn expect_object_is(&self, object: &Object) -> (r: bool)
        ensures
            r == (obj_kind(self@) == obj_kind(object@)),
    {
        self.kind_tag() == object.kind_tag()
    }

    fn kind_tag(&self) -> (k: u32)
        ensures
            k as int == obj_kind(self@),
    {
        match self {
            Object::Integer(_) => 0,
            Object::Boolean(_) => 1,
            Object::String(_) => 2,
            Object::Null => 3,
            Object::Return(_) => 4,
            Object::Let(_) => 5,
            Object::Function(_) => 6,
        }
    }
}

/// A small integer naming a value's variant.
pub open spec fn obj_kind(o: ObjV) -> int {
    match o {
        ObjV::Integer(_) => 0,
        ObjV::Boolean(_) => 1,
        ObjV::String(_) => 2,
        ObjV::Null => 3,
        ObjV::Return(_) => 4,
        ObjV::Let(_) => 5,
        ObjV::Function(_) => 6,
    }
}

/// Applies a prefix operator to an evaluated operand.
fn apply_prefix(op: &Token, v: Object) -> (r: Result<Object, EvalError>)
    ensures
        res_matches(r, spec_eval_prefix(op@, v@)),
        r matches Ok(o) ==> !(o@ is Function),
{
    match op {
        Token::Bang => Result::Ok(Object::Boolean(!v.is_truthy())),
        Token::Minus => match v {
            Object::Integer(i) => {
                if i == isize::MIN {
                    Result::Err(EvalError::Overflow)
                } else {
                    Result::Ok(Object::Integer(-i))
                }
            },
            _ => Result::Err(EvalError::TypeMismatch),
        },
        _ => Result::Err(EvalError::UnknownOperator),
    }
}

/// Applies an infix operator to two evaluated operands.
fn apply_infix(op: &Token, l: Object, r: Object) -> (res: Result<Object, EvalError>)
    ensures
        res_matches(res, spec_eval_infix(op@, l@, r@)),
        res matches Ok(o) ==> !(o@ is Function),
{
    match (l, r) {
        (Object::Integer(a), Object::Integer(b)) => match op {
            Token::Plus => match a.checked_add(b) {
                Option::Some(v) => Result::Ok(Object::Integer(v)),
                Option::None => Result::Err(EvalError::Overflow),
            },
            Token::Minus => match a.checked_sub(b) {
                Option::Some(v) => Result::Ok(Object::Integer(v)),
                Option::None => Result::Err(EvalError::Overflow),
            },
            Token::Asterisk => match a.checked_mul(b) {
                Option::Some(v) => Result::Ok(Object::Integer(v)),
                Option::None => Result::Err(EvalError::Overflow),
            },
            Token::Slash => {
                if b == 0 {
                    Result::Err(EvalError::DivisionByZero)
                } else {
                    match a.checked_div(b) {
                        Option::Some(v) => Result::Ok(Object::Integer(v)),
                        Option::None => Result::Err(EvalError::Overflow),
                    }
                }
            },
            Token::LessThan => Result::Ok(Object::Boolean(a < b)),
            Token::GreaterThan => Result::Ok(Object::Boolean(a > b)),
            Token::Equal => Result::Ok(Object::Boolean(a == b)),
            Token::NotEqual => Result::Ok(Object::Boolean(a != b)),
            _ => Result::Err(EvalError::UnknownOperator),
        },
        (Object::Boolean(a), Object::Boolean(b)) => match op {
            Token::Equal => Result::Ok(Object::Boolean(a == b)),
            Token::NotEqual => Result::Ok(Object::Boolean(a != b)),
            _ => Result::Err(EvalError::UnknownOperator),
        },
        (Object::String(a), Object::String(b)) => match op {
            Token::Plus => Result::Ok(Object::String(a.concat(b.as_str()))),
            _ => Result::Err(EvalError::UnknownOperator),
        },
        _ => Result::Err(EvalError::TypeMismatch),
    }
}

/// Every parameter token is an identifier token.
fn params_all_named(ps: &Vec<Identifier>) -> (r: bool)
    ensures
        r == params_named(crate::ast::idents_view(ps@)),
{
    let ghost psv = crate::ast::idents_view(ps@);
    let n: usize = ps.len();
    let mut i: usize = 0;
    while i < n
        invariant
            0 <= i <= n,
            n == ps@.len(),
            forall|j: int| 0 <= j < i ==> (#[trigger] psv[j]).token is Ident,
            psv == crate::ast::idents_view(ps@),
        decreases n - i,
    {
        let named = match &ps[i].token {
            Token::Ident(_) => true,
            _ => false,
        };
        if !named {
            proof {
                assert(!(psv[i as int].token is Ident));
            }
            return false;
        }
        i += 1;
    }
    true
}

/// Evaluates the statements of `ss` from position `i` on.
fn eval_stmts_at(
    ss: &Vec<Statement>,
    i: usize,
    env: &mut Environment,
    scope: usize,
    fuel: u64,
) -> (r: Result<Object, EvalError>)
    requires
        old(env).wf(),
        scope < old(env)@.len(),
        i <= ss@.len(),
    ensures
        final(env).wf(),
        old(env)@.len() <= final(env)@.len(),
        ({
            let (out, env2) = spec_eval_stmts(
                stmts_view(ss@).subrange(i as int, ss@.len() as int),
                old(env)@,
                scope as int,
                fuel as nat,
            );
            final(env)@ == env2 && res_matches(r, out)
        }),
        r matches Ok(o) ==> vobj_wf(o@, final(env)@.len() as int),
    decreases fuel, vstmts_size(stmts_view(ss@).subrange(i as int, ss@.len() as int)), 0int,
{
    proof {
        lemma_stmts_view_len(ss@);
    }
    let ghost sv = stmts_view(ss@).subrange(i as int, ss@.len() as int);
    if i == ss.len() {
        proof {
            assert(sv.len() == 0);
        }
        return Result::Ok(Object::Null);
    }
    proof {
        lemma_vstmts_size_drop(stmts_view(ss@), i as int);
        assert(sv[0] == crate::ast::stmt_view(ss@[i as int]));
    }
    let r0 = eval_stmt(&ss[i], env, scope, fuel);
    match r0 {
        Result::Err(e) => Result::Err(e),
        Result::Ok(v) => {
            let is_ret = match &v {
                Object::Return(_) => true,
                _ => false,
            };
            if is_ret {
                return Result::Ok(v);
            }
            if i + 1 == ss.len() {
                return Result::Ok(v);
            }
            proof {
                assert(sv.drop_first() =~= stmts_view(ss@).subrange(
                    i as int + 1,
                    ss@.len() as int,
                ));
            }
            eval_stmts_at(ss, i + 1, env, scope, fuel)
        },
    }
}

/// Evaluates one statement.
fn eval_stmt(s: &Statement, env: &mut Environment, scope: usize, fuel: u64) -> (r: Result<
    Object,
    EvalError,
>)
    requires
        old(env).wf(),
        scope < old(env)@.len(),
    ensures
        final(env).wf(),
        old(env)@.len() <= final(env)@.len(),
        ({
            let (out, env2) = spec_eval_stmt(s@, old(env)@, scope as int, fuel as nat);
            final(env)@ == env2 && res_matches(r, out)
        }),
        r matches Ok(o) ==> vobj_wf(o@, final(env)@.len() as int),
    decreases fuel, vstmt_size(s@), 0int,
{
    match s {
        Statement::Let(l) => {
            match &l.token {
                Token::Ident(name) => {
                    let rv = eval_expr(&l.value, env, scope, fuel);
                    match rv {
                        Result::Err(e) => Result::Err(e),
                        Result::Ok(v) => {
                            let stored = dup_object(&v);
                            env.set(scope, name.clone(), stored);
                            Result::Ok(v)
                        },
                    }
                },
                _ => Result::Err(EvalError::BadNode),
            }
        },
        Statement::Return(ret) => {
            let rv = eval_expr(&ret.return_value, env, scope, fuel);
            match rv {
                Result::Err(e) => Result::Err(e),
                Result::Ok(v) => Result::Ok(Object::Return(Box::new(v))),
            }
        },
        Statement::Expression(e) => eval_expr(e, env, scope, fuel),
    }
}

/// Evaluates one expression.
#[verifier::rlimit(60)]
fn eval_expr(e: &Expression, env: &mut Environment, scope: usize, fuel: u64) -> (r: Result<
    Object,
    EvalError,
>)
    requires
        old(env).wf(),
        scope < old(env)@.len(),
    ensures
        final(env).wf(),
        old(env)@.len() <= final(env)@.len(),
        ({
            let (out, env2) = spec_eval_expr(e@, old(env)@, scope as int, fuel as nat);
            final(env)@ == env2 && res_matches(r, out)
        }),
        r matches Ok(o) ==> vobj_wf(o@, final(env)@.len() as int),
    decreases fuel, vexpr_size(e@), 0int,
{
    match e {
        Expression::Integer(t) => match t {
            Token::Int(i) => Result::Ok(Object::Integer(*i)),
            _ => Result::Err(EvalError::BadNode),
        },
        Expression::String(t) => match t {
            Token::String(s) => Result::Ok(Object::String(s.clone())),
            _ => Result::Err(EvalError::BadNode),
        },
        Expression::Boolean(t) => match t {
            Token::True => Result::Ok(Object::Boolean(true)),
            Token::False => Result::Ok(Object::Boolean(false)),
            _ => Result::Err(EvalError::BadNode),
        },
        Expression::Identifier(t) => match t {
            Token::Ident(name) => {
                proof {
                    lemma_lookup_wf(env@, scope as int, name@);
                }
                env.get(scope, name)
            },
            _ => Result::Err(EvalError::BadNode),
        },
        Expression::Prefix(p) => {
            let rv = eval_expr(&p.right, env, scope, fuel);
            match rv {
                Result::Err(err) => Result::Err(err),
                Result::Ok(v) => {
                    let res = apply_prefix(&p.token, v);
                    res
                },
            }
        },
        Expression::Infix(inf) => {
            let rl = eval_expr(&inf.left, env, scope, fuel);
            match rl {
                Result::Err(err) => Result::Err(err),
                Result::Ok(lv) => {
                    let rr = eval_expr(&inf.right, env, scope, fuel);
                    match rr {
                        Result::Err(err) => Result::Err(err),
                        Result::Ok(rv) => apply_infix(&inf.token, lv, rv),
                    }
                },
            }
        },
        Expression::If(i) => {
            let rc = eval_expr(&i.condition, env, scope, fuel);
            match rc {
                Result::Err(err) => Result::Err(err),
                Result::Ok(c) => {
                    if c.is_truthy() {
                        proof {
                            lemma_stmts_view_len(i.consequence.statements@);
                            assert(e@ is If);
                            let ghost bf = e@->If_0;
                            assert(bf.consequence == crate::ast::block_view(i.consequence));
                            assert(bf.consequence.statements == stmts_view(i.consequence.statements@));
                            assert(vexpr_size(e@) == 2 + vexpr_size(bf.condition) + vstmts_size(
                                bf.consequence.statements,
                            ) + (match bf.alternative {
                                Option::Some(b) => 1 + vstmts_size(b.statements),
                                Option::None => 0nat,
                            }));
                            assert(vstmts_size(stmts_view(i.consequence.statements@)) < vexpr_size(
                                e@,
                            ));
                            assert(stmts_view(i.consequence.statements@).subrange(
                                0,
                                i.consequence.statements@.len() as int,
                            ) =~= stmts_view(i.consequence.statements@));
                        }
                        eval_stmts_at(&i.consequence.statements, 0, env, scope, fuel)
                    } else {
                        match &i.alternative {
                            Option::Some(alt) => {
                                proof {
                                    lemma_stmts_view_len(alt.statements@);
                                    let ghost bf = e@->If_0;
                                    assert(bf.alternative == Option::Some(
                                        crate::ast::block_view(*alt),
                                    ));
                                    assert(vexpr_size(e@) == 2 + vexpr_size(bf.condition)
                                        + vstmts_size(bf.consequence.statements) + (
                                    match bf.alternative {
                                        Option::Some(b) => 1 + vstmts_size(b.statements),
                                        Option::None => 0nat,
                                    }));
                                    assert(vstmts_size(stmts_view(alt.statements@)) < vexpr_size(
                                        e@,
                                    ));
                                    assert(stmts_view(alt.statements@).subrange(
                                        0,
                                        alt.statements@.len() as int,
                                    ) =~= stmts_view(alt.statements@));
                                }
                                eval_stmts_at(&alt.statements, 0, env, scope, fuel)
                            },
                            Option::None => Result::Ok(Object::Null),
                        }
                    }
                },
            }
        },
        Expression::Fn(f) => {
            let parameters = match &f.parameters {
                Option::Some(ps) => Option::Some(dup_idents(ps)),
                Option::None => Option::None,
            };
            Result::Ok(
                Object::Function(
                    FunctionObject { parameters, body: dup_block(&f.body), environment: scope },
                ),
            )
        },
        Expression::Call(c) => {
            match &c.function {
                Expression::Identifier(t) => match t {
                    Token::Ident(name) => {
                        let rf = env.get(scope, name);
                        match rf {
                            Result::Ok(f) => {
                                proof {
                                    lemma_lookup_wf(env@, scope as int, name@);
                                }
                                let ghost len0 = env@.len();
                                let ra = eval_call_args(&c.arguments, env, scope, fuel);
                                match ra {
                                    Result::Err(err) => Result::Err(err),
                                    Result::Ok(args) => {
                                        proof {
                                            lemma_vobj_wf_mono(f@, len0 as int, env@.len() as int);
                                        }
                                        eval_apply(f, args, env, fuel)
                                    },
                                }
                            },
                            Result::Err(_) => {
                                let lens = String::from_str("len");
                                if crate::token::string_eq(name, &lens) {
                                    let ra = eval_call_args(&c.arguments, env, scope, fuel);
                                    match ra {
                                        Result::Err(err) => Result::Err(err),
                                        Result::Ok(args) => crate::builtins::len(
                                            Option::Some(args),
                                        ),
                                    }
                                } else {
                                    Result::Err(EvalError::IdentifierNotFound)
                                }
                            },
                        }
                    },
                    _ => Result::Err(EvalError::BadNode),
                },
                _ => {
                    let rf = eval_expr(&c.function, env, scope, fuel);
                    match rf {
                        Result::Err(err) => Result::Err(err),
                        Result::Ok(f) => {
                            let ghost len0 = env@.len();
                            let ra = eval_call_args(&c.arguments, env, scope, fuel);
                            match ra {
                                Result::Err(err) => Result::Err(err),
                                Result::Ok(args) => {
                                    proof {
                                        lemma_vobj_wf_mono(f@, len0 as int, env@.len() as int);
                                    }
                                    eval_apply(f, args, env, fuel)
                                },
                            }
                        },
                    }
                },
            }
        },
    }
}

/// Evaluates a call's argument list; an absent list is the empty list.
fn eval_call_args(
    args: &Option<Vec<Expression>>,
    env: &mut Environment,
    scope: usize,
    fuel: u64,
) -> (r: Result<Vec<Object>, EvalError>)
    requires
        old(env).wf(),
        scope < old(env)@.len(),
    ensures
        final(env).wf(),
        old(env)@.len() <= final(env)@.len(),
        ({
            let avs = spec_call_args(
                match args {
                    Option::Some(a) => Option::Some(exprs_view(a@)),
                    Option::None => Option::None,
                },
            );
            let (out, env2) = spec_eval_args(avs, old(env)@, scope as int, fuel as nat);
            final(env)@ == env2 && (match r {
                Result::Ok(vs) => out == ArgsOutcome::Vals(crate::object::objs_view(vs@)),
                Result::Err(e) => out == ArgsOutcome::Fail(e),
            })
        }),
        r matches Ok(vs) ==> forall|j: int|
            0 <= j < vs@.len() ==> vobj_wf(
                #[trigger] crate::object::objs_view(vs@)[j],
                final(env)@.len() as int,
            ),
    decreases fuel, vexprs_size(
        spec_call_args(
            match args {
                Option::Some(a) => Option::Some(exprs_view(a@)),
                Option::None => Option::None,
            },
        ),
    ), 1int,
{
    match args {
        Option::Some(a) => {
            proof {
                lemma_exprs_view_len(a@);
                assert(exprs_view(a@).subrange(0, a@.len() as int) =~= exprs_view(a@));
            }
            eval_args_from(a, 0, env, scope, fuel)
        },
        Option::None => {
            let empty: Vec<Object> = Vec::new();
            proof {
                assert(crate::object::objs_view(empty@) =~= Seq::<ObjV>::empty());
            }
            Result::Ok(empty)
        },
    }
}

/// Evaluates argument expressions from position `i` on, left to right.
fn eval_args_from(es: &Vec<Expression>, i: usize, env: &mut Environment, scope: usize, fuel: u64) -> (r:
    Result<Vec<Object>, EvalError>)
    requires
        old(env).wf(),
        scope < old(env)@.len(),
        i <= es@.len(),
    ensures
        final(env).wf(),
        old(env)@.len() <= final(env)@.len(),
        ({
            let (out, env2) = spec_eval_args(
                exprs_view(es@).subrange(i as int, es@.len() as int),
                old(env)@,
                scope as int,
                fuel as nat,
            );
            final(env)@ == env2 && (match r {
                Result::Ok(vs) => out == ArgsOutcome::Vals(crate::object::objs_view(vs@)),
                Result::Err(e) => out == ArgsOutcome::Fail(e),
            })
        }),
        r matches Ok(vs) ==> forall|j: int|
            0 <= j < vs@.len() ==> vobj_wf(
                #[trigger] crate::object::objs_view(vs@)[j],
                final(env)@.len() as int,
            ),
    decreases fuel, vexprs_size(exprs_view(es@).subrange(i as int, es@.len() as int)), 0int,
{
    proof {
        lemma_exprs_view_len(es@);
    }
    let ghost ev = exprs_view(es@).subrange(i as int, es@.len() as int);
    if i == es.len() {
        let empty: Vec<Object> = Vec::new();
        proof {
            assert(ev.len() == 0);
            assert(crate::object::objs_view(empty@) =~= Seq::<ObjV>::empty());
        }
        return Result::Ok(empty);
    }
    proof {
        crate::ast::lemma_vexprs_size_drop(exprs_view(es@), i as int);
        assert(ev[0] == exprs_view(es@)[i as int]);
    }
    let rv = eval_expr(&es[i], env, scope, fuel);
    match rv {
        Result::Err(e) => Result::Err(e),
        Result::Ok(v) => {
            proof {
                assert(ev.drop_first() =~= exprs_view(es@).subrange(i as int + 1, es@.len() as int));
            }
            let ghost len1 = env@.len();
            let rrest = eval_args_from(es, i + 1, env, scope, fuel);
            match rrest {
                Result::Err(e) => Result::Err(e),
                Result::Ok(mut vs) => {
                    let ghost oldvs = vs@;
                    let ghost vv = v@;
                    vs.insert(0, v);
                    proof {
                        lemma_vobj_wf_mono(vv, len1 as int, env@.len() as int);
                        assert(crate::object::objs_view(vs@) =~= seq![vv]
                            + crate::object::objs_view(oldvs));
                        assert forall|j: int| 0 <= j < vs@.len() implies vobj_wf(
                            #[trigger] crate::object::objs_view(vs@)[j],
                            env@.len() as int,
                        ) by {
                            if j > 0 {
                                assert(crate::object::objs_view(vs@)[j]
                                    == crate::object::objs_view(oldvs)[j - 1]);
                            }
                        }
                    }
                    Result::Ok(vs)
                },
            }
        },
    }
}

/// Applies an evaluated callee to evaluated arguments.
fn eval_apply(func: Object, args: Vec<Object>, env: &mut Environment, fuel: u64) -> (r: Result<
    Object,
    EvalError,
>)
    requires
        old(env).wf(),
        vobj_wf(func@, old(env)@.len() as int),
        forall|j: int|
            0 <= j < args@.len() ==> vobj_wf(
                #[trigger] crate::object::objs_view(args@)[j],
                old(env)@.len() as int,
            ),
    ensures
        final(env).wf(),
        old(env)@.len() <= final(env)@.len(),
        ({
            let (out, env2) = spec_eval_apply(
                func@,
                crate::object::objs_view(args@),
                old(env)@,
                fuel as nat,
            );
            final(env)@ == env2 && res_matches(r, out)
        }),
        r matches Ok(o) ==> vobj_wf(o@, final(env)@.len() as int),
    decreases fuel, 0nat, 0int,
{
    let ghost argvs = crate::object::objs_view(args@);
    match func {
        Object::Function(f) => {
            let ghost fv = crate::object::func_view(f);
            let nparams: usize = match &f.parameters {
                Option::Some(ps) => {
                    if !params_all_named(ps) {
                        return Result::Err(EvalError::BadNode);
                    }
                    ps.len()
                },
                Option::None => 0,
            };
            if args.len() != nparams {
                return Result::Err(EvalError::ArityMismatch);
            }
            if fuel == 0 {
                return Result::Err(EvalError::RecursionLimit);
            }
            let ns = env.new_enclosed_environment(f.environment);
            proof {
                assert forall|k: int| 0 <= k < args@.len() implies vobj_wf(
                    #[trigger] crate::object::objs_view(args@)[k],
                    env@.len() as int,
                ) by {
                    lemma_vobj_wf_mono(
                        crate::object::objs_view(args@)[k],
                        old(env)@.len() as int,
                        env@.len() as int,
                    );
                }
            }
            let ghost base = env@;
            let ghost psv: Seq<IdentV> = match fv.parameters {
                Option::Some(s) => s,
                Option::None => Seq::empty(),
            };
            match &f.parameters {
                Option::Some(ps) => {
                    let n: usize = ps.len();
                    let mut j: usize = 0;
                    while j < n
                        invariant
                            0 <= j <= n,
                            n == ps@.len(),
                            n == args@.len(),
                            psv == crate::ast::idents_view(ps@),
                            argvs == crate::object::objs_view(args@),
                            params_named(psv),
                            env.wf(),
                            env@.len() == base.len(),
                            ns < env@.len(),
                            ns == base.len() - 1,
                            base == old(env)@.push(
                                ScopeV {
                                    store: Map::<Seq<char>, ObjV>::empty(),
                                    outer: Option::Some(fv.environment),
                                },
                            ),
                            env@ == base.update(
                                ns as int,
                                ScopeV {
                                    store: params_store(
                                        psv.subrange(0, j as int),
                                        argvs.subrange(0, j as int),
                                    ),
                                    outer: Option::Some(fv.environment),
                                },
                            ),
                            forall|k: int|
                                0 <= k < args@.len() ==> vobj_wf(
                                    #[trigger] crate::object::objs_view(args@)[k],
                                    env@.len() as int,
                                ),
                        decreases n - j,
                    {
                        let name: String = match &ps[j].token {
                            Token::Ident(s) => s.clone(),
                            _ => vstd::pervasive::unreached(),
                        };
                        let value = dup_object(&args[j]);
                        proof {
                            assert(crate::object::objs_view(args@)[j as int] == args@[j as int]@);
                        }
                        env.set(ns, name, value);
                        proof {
                            assert(psv.subrange(0, j as int + 1).drop_last() =~= psv.subrange(
                                0,
                                j as int,
                            ));
                            assert(argvs.subrange(0, j as int + 1).drop_last() =~= argvs.subrange(
                                0,
                                j as int,
                            ));
                            assert(psv.subrange(0, j as int + 1).last() == psv[j as int]);
                            assert(argvs.subrange(0, j as int + 1).last() == argvs[j as int]);
                            assert(env@ =~= base.update(
                                ns as int,
                                ScopeV {
                                    store: params_store(
                                        psv.subrange(0, j as int + 1),
                                        argvs.subrange(0, j as int + 1),
                                    ),
                                    outer: Option::Some(fv.environment),
                                },
                            ));
                        }
                        j += 1;
                    }
                    proof {
                        assert(psv.subrange(0, n as int) =~= psv);
                        assert(argvs.subrange(0, n as int) =~= argvs);
                    }
                },
                Option::None => {
                    proof {
                        assert(psv.subrange(0, 0) =~= Seq::<IdentV>::empty());
                        assert(argvs.subrange(0, 0) =~= Seq::<ObjV>::empty());
                        assert(params_store(psv, argvs) =~= Map::<Seq<char>, ObjV>::empty());
                    }
                },
            }
            proof {
                lemma_stmts_view_len(f.body.statements@);
                assert(env@ =~= old(env)@.push(
                    ScopeV { store: params_store(psv, argvs), outer: Option::Some(fv.environment) },
                ));
                assert(stmts_view(f.body.statements@).subrange(
                    0,
                    f.body.statements@.len() as int,
                ) =~= stmts_view(f.body.statements@));
            }
            let rb = eval_stmts_at(&f.body.statements, 0, env, ns, fuel - 1);
            match rb {
                Result::Err(e) => Result::Err(e),
                Result::Ok(v) => match v {
                    Object::Return(inner) => Result::Ok(*inner),
                    other => Result::Ok(other),
                },
            }
        },
        _ => Result::Err(EvalError::NotAFunction),
    }
}

// ------------------------------------------------------------------
// Laws of evaluation
// ------------------------------------------------------------------

/// `return` unwinds a whole statement sequence: once a statement produces
/// a `Return` wrapper, no later statement of the sequence runs, and the
/// wrapper comes out unchanged — through arbitrarily many enclosing blocks,
/// since each enclosing sequence applies this same rule to the wrapper.
pub proof fn lemma_return_unwinds(ss: Seq<StmtV>, env: Seq<ScopeV>, scope: int, fuel: nat)
    requires
        ss.len() > 0,
        ({
            let (r, e1) = spec_eval_stmt(ss[0], env, scope, fuel);
            r matches EvalOutcome::Val(v) && v is Return
        }),
    ensures
        spec_eval_stmts(ss, env, scope, fuel) == spec_eval_stmt(ss[0], env, scope, fuel),
{
}

/// A `Return` wrapper coming out of a function body is unwrapped at the
/// call boundary: a `return` inside a function never leaks into the
/// caller's own control flow.
pub proof fn lemma_call_unwraps_return(f: FunctionV, args: Seq<ObjV>, env: Seq<ScopeV>, fuel: nat)
    requires
        fuel > 0,
        0 <= f.environment < env.len(),
        params_named(
            match f.parameters {
                Option::Some(s) => s,
                Option::None => Seq::empty(),
            },
        ),
        args.len() == param_count(f.parameters),
        ({
            let ps = match f.parameters {
                Option::Some(s) => s,
                Option::None => Seq::empty(),
            };
            let env2 = env.push(
                ScopeV { store: params_store(ps, args), outer: Option::Some(f.environment) },
            );
            let (r, e1) = spec_eval_stmts(f.body.statements, env2, env.len() as int, (fuel - 1) as nat);
            r matches EvalOutcome::Val(v) && v matches ObjV::Return(_)
        }),
    ensures
        ({
            let ps = match f.parameters {
                Option::Some(s) => s,
                Option::None => Seq::empty(),
            };
            let env2 = env.push(
                ScopeV { store: params_store(ps, args), outer: Option::Some(f.environment) },
            );
            let (r, e1) = spec_eval_stmts(f.body.statements, env2, env.len() as int, (fuel - 1) as nat);
            spec_eval_apply(ObjV::Function(f), args, env, fuel) == (
                EvalOutcome::Val(*r->Val_0->Return_0),
                e1,
            )
        }),
{
}

/// Truthiness under `!`: the bang of any value is the boolean negation of
/// its truthiness, so `!v` is `false` exactly on the truthy values and
/// `!!v` recovers `v`'s truthiness as a boolean.
pub proof fn lemma_bang_truthiness(v: ObjV)
    ensures
        spec_eval_prefix(TokenV::Bang, v) == EvalOutcome::Val(ObjV::Boolean(!vtruthy(v))),
        spec_eval_prefix(TokenV::Bang, ObjV::Boolean(!vtruthy(v))) == EvalOutcome::Val(
            ObjV::Boolean(vtruthy(v)),
        ),
        vtruthy(v) <==> !(v is Null || v == ObjV::Boolean(false)),
{
}

/// Calling a function with the wrong number of arguments is a runtime
/// error and produces no value and no new scope.
pub proof fn lemma_arity_mismatch(f: FunctionV, args: Seq<ObjV>, env: Seq<ScopeV>, fuel: nat)
    requires
        params_named(
            match f.parameters {
                Option::Some(s) => s,
                Option::None => Seq::empty(),
            },
        ),
        args.len() != param_count(f.parameters),
    ensures
        spec_eval_apply(ObjV::Function(f), args, env, fuel) == (
            EvalOutcome::Fail(EvalError::ArityMismatch),
            env,
        ),
{
}

/// An arithmetic operator over an integer and a boolean is a type
/// mismatch, whatever the operator; the evaluation produces no value.
pub proof fn lemma_int_bool_mismatch(op: TokenV, a: int, b: bool)
    ensures
        spec_eval_infix(op, ObjV::Integer(a), ObjV::Boolean(b)) == EvalOutcome::Fail(
            EvalError::TypeMismatch,
        ),
        spec_eval_infix(op, ObjV::Boolean(b), ObjV::Integer(a)) == EvalOutcome::Fail(
            EvalError::TypeMismatch,
        ),
{
}

impl Object {
    /// Evaluates a statement sequence in the root scope of `env`, with the
    /// default call-depth budget. The result is the last statement's value
    /// — still wrapped if the program ended by `return` — or the first
    /// runtime error.
    pub fn eval(nodes: Vec<Statement>, env: &mut Environment) -> (r: Result<Object, EvalError>)
        requires
            old(env).wf(),
        ensures
            final(env).wf(),
            ({
                let (out, env2) = spec_eval_stmts(
                    stmts_view(nodes@),
                    old(env)@,
                    0,
                    EVAL_FUEL as nat,
                );
                final(env)@ == env2 && res_matches(r, out)
            }),
    {
        proof {
            lemma_stmts_view_len(nodes@);
            assert(stmts_view(nodes@).subrange(0, nodes@.len() as int) =~= stmts_view(nodes@));
        }
        eval_stmts_at(&nodes, 0, env, 0, EVAL_FUEL)
    }
}

} // verus!
