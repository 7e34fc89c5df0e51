//! Runtime values and the environment chain.
//!
//! Environments form an arena: every scope lives in one growing vector, and a
//! scope names its enclosing scope by index. A function value captures the
//! index of the scope where it was created, so two closures made in the same
//! scope share that scope — a binding added later is visible to both.

use vstd::prelude::*;

use crate::ast::{
    block_view, idents_eq, idents_view, BlockStatement, BlockV, IdentV, Identifier, block_eq,
    dup_block, dup_idents,
};
use crate::token::string_eq;

verus! {

/// A runtime error. Every error aborts the evaluation of the current input.
#[derive(Debug, PartialEq, Eq, Structural, Clone, Copy)]
pub enum EvalError {
    /// An abstract-syntax-tree node holds a token of the wrong kind.
    BadNode,
    /// A name is bound in no scope of the chain, and is no builtin.
    IdentifierNotFound,
    /// An operator was applied to operands of types it does not accept.
    TypeMismatch,
    /// An operator token that is not defined for its operand types.
    UnknownOperator,
    /// The callee of a call did not evaluate to a function.
    NotAFunction,
    /// A call supplied a number of arguments different from the number of
    /// parameters.
    ArityMismatch,
    /// Integer division by zero.
    DivisionByZero,
    /// Integer arithmetic left the representable range.
    Overflow,
    /// The call depth exceeded the evaluator's recursion budget.
    RecursionLimit,
}

/// A runtime value.
#[derive(Debug)]
pub enum Object {
    Integer(isize),
    Boolean(bool),
    String(String),
    Null,
    /// Internal control-flow carrier for `return`: it propagates out of every
    /// enclosing block and is unwrapped at the nearest call boundary.
    Return(Box<Object>),
    Let(Box<Object>),
    Function(FunctionObject),
}

/// A function value: parameters, body, and the scope captured at its
/// definition site.
#[derive(Debug)]
pub struct FunctionObject {
    pub parameters: Option<Vec<Identifier>>,
    pub body: BlockStatement,
    /// Index of the captured scope in the environment arena.
    pub environment: usize,
}

/// One scope: a mapping from names to values, and an optional enclosing
/// scope.
#[derive(Debug)]
pub struct Scope {
    pub store: Vec<(String, Object)>,
    pub outer: Option<usize>,
}

/// The arena of all scopes. Index 0 is the root scope.
#[derive(Debug)]
pub struct Environment {
    pub scopes: Vec<Scope>,
}

// ------------------------------------------------------------------
// Views
// ------------------------------------------------------------------

pub ghost enum ObjV {
    Integer(int),
    Boolean(bool),
    String(Seq<char>),
    Null,
    Return(Box<ObjV>),
    Let(Box<ObjV>),
    Function(FunctionV),
}

pub ghost struct FunctionV {
    pub parameters: Option<Seq<IdentV>>,
    pub body: BlockV,
    pub environment: int,
}

pub ghost struct ScopeV {
    pub store: Map<Seq<char>, ObjV>,
    pub outer: Option<int>,
}

pub open spec fn obj_view(o: Object) -> ObjV
    decreases o,
{
    match o {
        Object::Integer(i) => ObjV::Integer(i as int),
        Object::Boolean(b) => ObjV::Boolean(b),
        Object::String(s) => ObjV::String(s@),
        Object::Null => ObjV::Null,
        Object::Return(b) => ObjV::Return(Box::new(obj_view(*b))),
        Object::Let(b) => ObjV::Let(Box::new(obj_view(*b))),
        Object::Function(f) => ObjV::Function(func_view(f)),
    }
}

pub open spec fn func_view(f: FunctionObject) -> FunctionV
    decreases f,
{
    FunctionV {
        parameters: match f.parameters {
            Option::Some(ps) => Option::Some(idents_view(ps@)),
            Option::None => Option::None,
        },
        body: block_view(f.body),
        environment: f.environment as int,
    }
}

/// The mapping described by an association list; a later entry for a name
/// overrides an earlier one.
pub open spec fn store_view(es: Seq<(String, Object)>) -> Map<Seq<char>, ObjV>
    decreases es,
{
    if es.len() == 0 {
        Map::empty()
    } else {
        store_view(es.drop_last()).insert(es.last().0@, obj_view(es.last().1))
    }
}

pub open spec fn scope_view(s: Scope) -> ScopeV {
    ScopeV {
        store: store_view(s.store@),
        outer: match s.outer {
            Option::Some(p) => Option::Some(p as int),
            Option::None => Option::None,
        },
    }
}

pub open spec fn env_view(env: Environment) -> Seq<ScopeV> {
    Seq::new(env.scopes@.len(), |i: int| scope_view(env.scopes@[i]))
}

impl View for Object {
    type V = ObjV;

    open spec fn view(&self) -> ObjV {
        obj_view(*self)
    }
}

impl View for FunctionObject {
    type V = FunctionV;

    open spec fn view(&self) -> FunctionV {
        func_view(*self)
    }
}

impl View for Scope {
    type V = ScopeV;

    open spec fn view(&self) -> ScopeV {
        scope_view(*self)
    }
}

impl View for Environment {
    type V = Seq<ScopeV>;

    open spec fn view(&self) -> Seq<ScopeV> {
        env_view(*self)
    }
}

// ------------------------------------------------------------------
// Well-formedness: every scope index stored anywhere stays inside the arena,
// and every scope's enclosing scope comes before it.
// ------------------------------------------------------------------

pub open spec fn vobj_wf(o: ObjV, n: int) -> bool
    decreases o,
{
    match o {
        ObjV::Integer(_) => true,
        ObjV::Boolean(_) => true,
        ObjV::String(_) => true,
        ObjV::Null => true,
        ObjV::Return(b) => vobj_wf(*b, n),
        ObjV::Let(b) => vobj_wf(*b, n),
        ObjV::Function(f) => 0 <= f.environment < n,
    }
}

pub open spec fn vscope_wf(s: ScopeV, idx: int, n: int) -> bool {
    &&& match s.outer {
        Option::Some(p) => 0 <= p < idx,
        Option::None => true,
    }
    &&& forall|name: Seq<char>| #[trigger]
        s.store.contains_key(name) ==> vobj_wf(s.store[name], n)
}

pub open spec fn venv_wf(env: Seq<ScopeV>) -> bool {
    &&& env.len() >= 1
    &&& forall|i: int| 0 <= i < env.len() ==> vscope_wf(#[trigger] env[i], i, env.len() as int)
}

/// The views of a sequence of values, elementwise.
pub open spec fn objs_view(s: Seq<Object>) -> Seq<ObjV> {
    Seq::new(s.len(), |i: int| obj_view(s[i]))
}

/// A well-formed value stays well-formed when the arena grows.
pub proof fn lemma_vobj_wf_mono(o: ObjV, n1: int, n2: int)
    requires
        vobj_wf(o, n1),
        n1 <= n2,
    ensures
        vobj_wf(o, n2),
    decreases o,
{
    match o {
        ObjV::Return(b) => lemma_vobj_wf_mono(*b, n1, n2),
        ObjV::Let(b) => lemma_vobj_wf_mono(*b, n1, n2),
        _ => {},
    }
}

// ------------------------------------------------------------------
// Name lookup along the scope chain
// ------------------------------------------------------------------

/// The value bound to `name`, searching the chain innermost first from
/// `scope`; `None` when the chain is exhausted.
pub open spec fn lookup(env: Seq<ScopeV>, scope: int, name: Seq<char>) -> Option<ObjV>
    decreases scope,
{
    if !(0 <= scope < env.len()) {
        Option::None
    } else if env[scope].store.contains_key(name) {
        Option::Some(env[scope].store[name])
    } else {
        match env[scope].outer {
            Option::Some(p) => if 0 <= p < scope {
                lookup(env, p, name)
            } else {
                Option::None
            },
            Option::None => Option::None,
        }
    }
}

/// Whatever lookup returns is well-formed, in a well-formed environment.
pub proof fn lemma_lookup_wf(env: Seq<ScopeV>, scope: int, name: Seq<char>)
    requires
        venv_wf(env),
    ensures
        match lookup(env, scope, name) {
            Option::Some(v) => vobj_wf(v, env.len() as int),
            Option::None => true,
        },
    decreases scope,
{
    if 0 <= scope < env.len() {
        if env[scope].store.contains_key(name) {
        } else {
            match env[scope].outer {
                Option::Some(p) => {
                    if 0 <= p < scope {
                        lemma_lookup_wf(env, p, name);
                    }
                },
                Option::None => {},
            }
        }
    }
}

// ------------------------------------------------------------------
// Laws of the environment chain
// ------------------------------------------------------------------

/// Binding a name in a scope makes it visible there at once: looking the
/// name up from that scope right after `set` yields the bound value.
pub proof fn lemma_get_after_set(env: Seq<ScopeV>, scope: int, name: Seq<char>, v: ObjV)
    requires
        0 <= scope < env.len(),
    ensures
        ({
            let env2 = env.update(
                scope,
                ScopeV { store: env[scope].store.insert(name, v), outer: env[scope].outer },
            );
            lookup(env2, scope, name) == Option::Some(v)
        }),
{
}

/// Live capture: a scope that does not bind a name itself resolves it
/// exactly as its enclosing scope does. A closure holding a scope therefore
/// sees bindings added to the enclosing scope after the capture.
pub proof fn lemma_lookup_defers_to_outer(env: Seq<ScopeV>, scope: int, name: Seq<char>)
    requires
        0 <= scope < env.len(),
        !env[scope].store.contains_key(name),
    ensures
        env[scope].outer matches Some(p) ==> (0 <= p < scope ==> lookup(env, scope, name)
            == lookup(env, p, name)),
        env[scope].outer is None ==> lookup(env, scope, name) is None,
{
}

/// Shadowing is local: binding a name in a scope never changes what any
/// earlier scope — in particular any enclosing scope — resolves, for any
/// name.
pub proof fn lemma_set_never_touches_enclosing(
    env: Seq<ScopeV>,
    scope: int,
    other: int,
    sc: ScopeV,
    name: Seq<char>,
)
    requires
        venv_wf(env),
        0 <= scope < env.len(),
        0 <= other < scope,
    ensures
        lookup(env.update(scope, sc), other, name) == lookup(env, other, name),
    decreases other,
{
    let env2 = env.update(scope, sc);
    assert(env2[other] == env[other]);
    if env[other].store.contains_key(name) {
    } else {
        match env[other].outer {
            Option::Some(p) => {
                assert(vscope_wf(env[other], other, env.len() as int));
                if 0 <= p < other {
                    lemma_set_never_touches_enclosing(env, scope, p, sc, name);
                }
            },
            Option::None => {},
        }
    }
}

// ------------------------------------------------------------------
// Facts about association-list stores
// ------------------------------------------------------------------

pub proof fn lemma_store_view_found(es: Seq<(String, Object)>, i: int, name: Seq<char>)
    requires
        0 <= i < es.len(),
        es[i].0@ == name,
        forall|j: int| i < j < es.len() ==> (#[trigger] es[j]).0@ != name,
    ensures
        store_view(es).contains_key(name),
        store_view(es)[name] == obj_view(es[i].1),
    decreases es,
{
    if i == es.len() - 1 {
        assert(es.last() == es[i]);
    } else {
        assert(es.last() == es[es.len() - 1]);
        lemma_store_view_found(es.drop_last(), i, name);
    }
}

pub proof fn lemma_store_view_missing(es: Seq<(String, Object)>, name: Seq<char>)
    requires
        forall|j: int| 0 <= j < es.len() ==> (#[trigger] es[j]).0@ != name,
    ensures
        !store_view(es).contains_key(name),
    decreases es,
{
    if es.len() > 0 {
        lemma_store_view_missing(es.drop_last(), name);
    }
}

pub proof fn lemma_store_view_update(es: Seq<(String, Object)>, i: int, name: Seq<char>, v: Object)
    requires
        0 <= i < es.len(),
        es[i].0@ == name,
        forall|j: int| i < j < es.len() ==> (#[trigger] es[j]).0@ != name,
    ensures
        forall|k: String| #![auto]
            k@ == name ==> store_view(es.update(i, (k, v))) == store_view(es).insert(
                name,
                obj_view(v),
            ),
    decreases es,
{
    assert forall|k: String| #![auto] k@ == name implies store_view(es.update(i, (k, v)))
        == store_view(es).insert(name, obj_view(v)) by {
        if i == es.len() - 1 {
            assert(es.update(i, (k, v)).drop_last() =~= es.drop_last());
            assert(es.update(i, (k, v)).last() == (k, v));
            assert(store_view(es.update(i, (k, v))) =~= store_view(es).insert(name, obj_view(v)));
        } else {
            lemma_store_view_update(es.drop_last(), i, name, v);
            assert(es.update(i, (k, v)).drop_last() =~= es.drop_last().update(i, (k, v)));
            assert(es.update(i, (k, v)).last() == es.last());
            assert(es.last().0@ != name);
            assert(store_view(es.update(i, (k, v))) =~= store_view(es).insert(name, obj_view(v)));
        }
    }
}

// ------------------------------------------------------------------
// Deep copies and equality of values
// ------------------------------------------------------------------

/// A deep copy of a value, equal to the original by view.
pub fn dup_object(o: &Object) -> (r: Object)
    ensures
        r@ == o@,
    decreases *o,
{
    match o {
        Object::Integer(i) => Object::Integer(*i),
        Object::Boolean(b) => Object::Boolean(*b),
        Object::String(s) => Object::String(s.clone()),
        Object::Null => Object::Null,
        Object::Return(b) => Object::Return(Box::new(dup_object(&**b))),
        Object::Let(b) => Object::Let(Box::new(dup_object(&**b))),
        Object::Function(f) => Object::Function(
            FunctionObject {
                parameters: match &f.parameters {
                    Option::Some(ps) => Option::Some(dup_idents(ps)),
                    Option::None => Option::None,
                },
                body: dup_block(&f.body),
                environment: f.environment,
            },
        ),
    }
}

pub fn obj_eq(a: &Object, b: &Object) -> (r: bool)
    ensures
        r == (a@ == b@),
    decreases *a,
{
    match (a, b) {
        (Object::Integer(x), Object::Integer(y)) => x == y,
        (Object::Boolean(x), Object::Boolean(y)) => x == y,
        (Object::String(x), Object::String(y)) => string_eq(x, y),
        (Object::Null, Object::Null) => true,
        (Object::Return(x), Object::Return(y)) => obj_eq(&**x, &**y),
        (Object::Let(x), Object::Let(y)) => obj_eq(&**x, &**y),
        (Object::Function(x), Object::Function(y)) => {
            (match (&x.parameters, &y.parameters) {
                (Option::Some(pa), Option::Some(pb)) => idents_eq(pa, pb),
                (Option::None, Option::None) => true,
                _ => false,
            }) && block_eq(&x.body, &y.body) && x.environment == y.environment
        },
        _ => false,
    }
}

impl PartialEq for Object {
    fn eq(&self, other: &Object) -> bool {
        obj_eq(self, other)
    }
}

impl vstd::std_specs::cmp::PartialEqSpecImpl for Object {
    open spec fn obeys_eq_spec() -> bool {
        true
    }

    open spec fn eq_spec(&self, other: &Object) -> bool {
        self@ == other@
    }
}

impl PartialEq for FunctionObject {
    fn eq(&self, other: &FunctionObject) -> bool {
        (match (&self.parameters, &other.parameters) {
            (Option::Some(pa), Option::Some(pb)) => idents_eq(pa, pb),
            (Option::None, Option::None) => true,
            _ => false,
        }) && block_eq(&self.body, &other.body) && self.environment == other.environment
    }
}

impl vstd::std_specs::cmp::PartialEqSpecImpl for FunctionObject {
    open spec fn obeys_eq_spec() -> bool {
        true
    }

    open spec fn eq_spec(&self, other: &FunctionObject) -> bool {
        self@ == other@
    }
}

impl FunctionObject {
    /// A function value from its parts; `environment` is the index of the
    /// captured scope.
    pub fn new(
        parameters: Option<Vec<Identifier>>,
        body: BlockStatement,
        environment: usize,
    ) -> (r: Self)
        ensures
            r.parameters == parameters,
            r.body == body,
            r.environment == environment,
    {
        FunctionObject { parameters, body, environment }
    }
}

// ------------------------------------------------------------------
// The environment operations
// ------------------------------------------------------------------

impl Environment {
    /// The arena is well-formed.
    pub open spec fn wf(&self) -> bool {
        venv_wf(self@)
    }

    /// An empty root scope, alone in its arena.
    pub fn new() -> (r: Environment)
        ensures
            r.wf(),
            r@.len() == 1,
            r@[0].store == Map::<Seq<char>, ObjV>::empty(),
            r@[0].outer is None,
    {
        let scope = Scope { store: Vec::new(), outer: Option::None };
        let env = Environment { scopes: vec![scope] };
        proof {
            assert(env@[0].store =~= Map::<Seq<char>, ObjV>::empty());
        }
        env
    }

    /// Adds an empty scope enclosed by `parent` and returns its index; used
    /// for call frames. The new scope shares `parent` — it does not copy it.
    pub fn new_enclosed_environment(&mut self, parent: usize) -> (s: usize)
        requires
            old(self).wf(),
            parent < old(self)@.len(),
        ensures
            final(self).wf(),
            s == old(self)@.len(),
            final(self)@ == old(self)@.push(
                ScopeV {
                    store: Map::<Seq<char>, ObjV>::empty(),
                    outer: Option::Some(parent as int),
                },
            ),
    {
        let s = self.scopes.len();
        let scope = Scope { store: Vec::new(), outer: Option::Some(parent) };
        self.scopes.push(scope);
        proof {
            let newv = ScopeV {
                store: Map::<Seq<char>, ObjV>::empty(),
                outer: Option::Some(parent as int),
            };
            assert(store_view(Seq::<(String, Object)>::empty()) =~= Map::<Seq<char>, ObjV>::empty());
            assert(self@ =~= old(self)@.push(newv));
            assert forall|i: int| 0 <= i < self@.len() implies vscope_wf(
                #[trigger] self@[i],
                i,
                self@.len() as int,
            ) by {
                if i < old(self)@.len() {
                    assert(vscope_wf(old(self)@[i], i, old(self)@.len() as int));
                    assert forall|name: Seq<char>| #[trigger]
                        self@[i].store.contains_key(name) implies vobj_wf(
                        self@[i].store[name],
                        self@.len() as int,
                    ) by {
                        lemma_vobj_wf_mono(
                            self@[i].store[name],
                            old(self)@.len() as int,
                            self@.len() as int,
                        );
                    }
                }
            }
        }
        s
    }

    /// The value bound to `name`, searching `scope` first and then its
    /// enclosing scopes; fails when no scope of the chain binds the name.
    #[verifier::loop_isolation(false)]
    pub fn get(&self, scope: usize, name: &String) -> (r: Result<Object, EvalError>)
        requires
            self.wf(),
            scope < self@.len(),
        ensures
            match lookup(self@, scope as int, name@) {
                Option::Some(v) => r matches Ok(o) && o@ == v,
                Option::None => r matches Err(e) && e == EvalError::IdentifierNotFound,
            },
        decreases scope,
    {
        let sc: &Scope = &self.scopes[scope];
        let n: usize = sc.store.len();
        let mut i: usize = n;
        while i > 0
            invariant
                0 <= i <= n,
                n == sc.store@.len(),
                forall|j: int| i <= j < n ==> (#[trigger] sc.store@[j]).0@ != name@,
            decreases i,
        {
            i = i - 1;
            if string_eq(&sc.store[i].0, name) {
                proof {
                    lemma_store_view_found(sc.store@, i as int, name@);
                    assert(self@[scope as int] == scope_view(*sc));
                }
                return Result::Ok(dup_object(&sc.store[i].1));
            }
        }
        proof {
            lemma_store_view_missing(sc.store@, name@);
            assert(self@[scope as int] == scope_view(*sc));
        }
        match sc.outer {
            Option::Some(p) => {
                proof {
                    assert(vscope_wf(self@[scope as int], scope as int, self@.len() as int));
                }
                self.get(p, name)
            },
            Option::None => Result::Err(EvalError::IdentifierNotFound),
        }
    }

    /// Binds `name` to `value` in exactly the scope `scope`: it inserts or
    /// overwrites there, and never touches an enclosing scope.
    #[verifier::loop_isolation(false)]
    pub fn set(&mut self, scope: usize, name: String, value: Object)
        requires
            old(self).wf(),
            scope < old(self)@.len(),
            vobj_wf(value@, old(self)@.len() as int),
        ensures
            final(self).wf(),
            final(self)@.len() == old(self)@.len(),
            final(self)@ == old(self)@.update(
                scope as int,
                ScopeV {
                    store: old(self)@[scope as int].store.insert(name@, value@),
                    outer: old(self)@[scope as int].outer,
                },
            ),
    {
        let ghost oldenv = self@;
        let ghost target = ScopeV {
            store: old(self)@[scope as int].store.insert(name@, obj_view(value)),
            outer: old(self)@[scope as int].outer,
        };
        let sc: &mut Scope = &mut self.scopes[scope];
        let n: usize = sc.store.len();
        let mut i: usize = n;
        let mut found: bool = false;
        let ghost valv = obj_view(value);
        while i > 0 && !found
            invariant
                0 <= i <= n,
                n == sc.store@.len(),
                !found ==> forall|j: int| i <= j < n ==> (#[trigger] sc.store@[j]).0@ != name@,
                found ==> i < n && sc.store@[i as int].0@ == name@ && forall|j: int|
                    i < j < n ==> (#[trigger] sc.store@[j]).0@ != name@,
            decreases i + (if found {
                0int
            } else {
                1int
            }),
        {
            i = i - 1;
            if string_eq(&sc.store[i].0, &name) {
                found = true;
            }
        }
        if found {
            proof {
                lemma_store_view_update(sc.store@, i as int, name@, value);
            }
            sc.store[i] = (name, value);
            proof {
                assert(store_view(sc.store@) == store_view(old(self).scopes@[scope as int].store@)
                    .insert(name@, valv));
            }
        } else {
            sc.store.push((name, value));
            proof {
                assert(sc.store@.drop_last() =~= old(self).scopes@[scope as int].store@);
            }
        }
        proof {
            assert(scope_view(self.scopes@[scope as int]) == target);
            assert(self@ =~= oldenv.update(scope as int, target));
            assert forall|k: int| 0 <= k < self@.len() implies vscope_wf(
                #[trigger] self@[k],
                k,
                self@.len() as int,
            ) by {
                assert(vscope_wf(oldenv[k], k, oldenv.len() as int));
                if k == scope as int {
                    assert forall|nm: Seq<char>| #[trigger]
                        self@[k].store.contains_key(nm) implies vobj_wf(
                        self@[k].store[nm],
                        self@.len() as int,
                    ) by {
                        if nm != name@ {
                            assert(oldenv[k].store.contains_key(nm));
                        }
                    }
                }
            }
        }
    }
}

} // verus!
