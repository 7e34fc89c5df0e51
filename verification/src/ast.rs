//! The abstract syntax tree: plain data built by the parser and consumed by
//! the evaluator, together with its mathematical view.

use vstd::prelude::*;

use crate::token::{token_eq, Token, TokenV};

verus! {

broadcast use vstd::std_specs::vec::axiom_vec_index_decreases, vstd::std_specs::vec::axiom_vec_decreases_to_view, vstd::seq::axiom_seq_index_decreases;

/// A statement of the language.
#[derive(Debug)]
pub enum Statement {
    Let(Let),
    Return(Return),
    Expression(Expression),
}

/// An expression of the language. Literal variants carry the token they were
/// parsed from; recursive variants box their node to keep the size finite.
#[derive(Debug)]
pub enum Expression {
    Identifier(Token),
    Integer(Token),
    String(Token),
    Boolean(Token),
    Prefix(Box<PrefixExpression>),
    Infix(Box<InfixExpression>),
    If(Box<IfExpression>),
    Fn(Box<FnExpression>),
    Call(Box<CallExpression>),
}

/// An ordered sequence of statements: the result of a whole parse.
#[derive(Debug)]
pub struct Program {
    pub statements: Vec<Statement>,
}

/// `let <name> = <value>;` — `token` is the identifier token being bound.
#[derive(Debug)]
pub struct Let {
    pub token: Token,
    pub name: Identifier,
    pub value: Expression,
}

/// `return <return_value>;`
#[derive(Debug)]
pub struct Return {
    pub token: Token,
    pub return_value: Expression,
}

/// A name; its token is expected to be an identifier token.
#[derive(Debug, PartialEq)]
pub struct Identifier {
    pub token: Token,
}

/// `<operator><right>`, for the prefix operators `!` and `-`.
#[derive(Debug)]
pub struct PrefixExpression {
    pub token: Token,
    pub right: Expression,
}

/// `<left> <operator> <right>`.
#[derive(Debug)]
pub struct InfixExpression {
    pub left: Expression,
    pub token: Token,
    pub right: Expression,
}

/// `if (<condition>) { <consequence> }`, with an optional `else` block.
#[derive(Debug)]
pub struct IfExpression {
    pub token: Token,
    pub condition: Expression,
    pub consequence: BlockStatement,
    pub alternative: Option<BlockStatement>,
}

/// A brace-delimited sequence of statements.
#[derive(Debug)]
pub struct BlockStatement {
    pub token: Token,
    pub statements: Vec<Statement>,
}

/// `fn(<parameters>) { <body> }` — a function literal; it captures no
/// environment at parse time.
#[derive(Debug)]
pub struct FnExpression {
    pub token: Token,
    pub parameters: Option<Vec<Identifier>>,
    pub body: BlockStatement,
}

/// `<function>(<arguments>)`.
#[derive(Debug)]
pub struct CallExpression {
    pub token: Token,
    pub function: Expression,
    pub arguments: Option<Vec<Expression>>,
}

// ------------------------------------------------------------------
// Views
// ------------------------------------------------------------------

pub ghost enum StmtV {
    Let(LetV),
    Return(ReturnV),
    Expression(ExprV),
}

pub ghost enum ExprV {
    Identifier(TokenV),
    Integer(TokenV),
    String(TokenV),
    Boolean(TokenV),
    Prefix(Box<PrefixV>),
    Infix(Box<InfixV>),
    If(Box<IfV>),
    Fn(Box<FnV>),
    Call(Box<CallV>),
}

pub ghost struct ProgramV {
    pub statements: Seq<StmtV>,
}

pub ghost struct LetV {
    pub token: TokenV,
    pub name: IdentV,
    pub value: ExprV,
}

pub ghost struct ReturnV {
    pub token: TokenV,
    pub return_value: ExprV,
}

pub ghost struct IdentV {
    pub token: TokenV,
}

pub ghost struct PrefixV {
    pub token: TokenV,
    pub right: ExprV,
}

pub ghost struct InfixV {
    pub left: ExprV,
    pub token: TokenV,
    pub right: ExprV,
}

pub ghost struct IfV {
    pub token: TokenV,
    pub condition: ExprV,
    pub consequence: BlockV,
    pub alternative: Option<BlockV>,
}

pub ghost struct BlockV {
    pub token: TokenV,
    pub statements: Seq<StmtV>,
}

pub ghost struct FnV {
    pub token: TokenV,
    pub parameters: Option<Seq<IdentV>>,
    pub body: BlockV,
}

pub ghost struct CallV {
    pub token: TokenV,
    pub function: ExprV,
    pub arguments: Option<Seq<ExprV>>,
}

pub open spec fn stmt_view(s: Statement) -> StmtV
    decreases s,
{
    match s {
        Statement::Let(l) => StmtV::Let(
            LetV { token: l.token@, name: IdentV { token: l.name.token@ }, value: expr_view(l.value) },
        ),
        Statement::Return(r) => StmtV::Return(
            ReturnV { token: r.token@, return_value: expr_view(r.return_value) },
        ),
        Statement::Expression(e) => StmtV::Expression(expr_view(e)),
    }
}

pub open spec fn stmts_view(ss: Seq<Statement>) -> Seq<StmtV>
    decreases ss,
{
    if ss.len() == 0 {
        Seq::empty()
    } else {
        seq![stmt_view(ss[0])] + stmts_view(ss.drop_first())
    }
}

pub open spec fn expr_view(e: Expression) -> ExprV
    decreases e,
{
    match e {
        Expression::Identifier(t) => ExprV::Identifier(t@),
        Expression::Integer(t) => ExprV::Integer(t@),
        Expression::String(t) => ExprV::String(t@),
        Expression::Boolean(t) => ExprV::Boolean(t@),
        Expression::Prefix(p) => ExprV::Prefix(
            Box::new(PrefixV { token: p.token@, right: expr_view(p.right) }),
        ),
        Expression::Infix(i) => ExprV::Infix(
            Box::new(InfixV { left: expr_view(i.left), token: i.token@, right: expr_view(i.right) }),
        ),
        Expression::If(i) => ExprV::If(
            Box::new(
                IfV {
                    token: i.token@,
                    condition: expr_view(i.condition),
                    consequence: block_view(i.consequence),
                    alternative: match i.alternative {
                        Option::Some(b) => Option::Some(block_view(b)),
                        Option::None => Option::None,
                    },
                },
            ),
        ),
        Expression::Fn(f) => ExprV::Fn(
            Box::new(
                FnV {
                    token: f.token@,
                    parameters: match f.parameters {
                        Option::Some(ps) => Option::Some(idents_view(ps@)),
                        Option::None => Option::None,
                    },
                    body: block_view(f.body),
                },
            ),
        ),
        Expression::Call(c) => ExprV::Call(
            Box::new(
                CallV {
                    token: c.token@,
                    function: expr_view(c.function),
                    arguments: match c.arguments {
                        Option::Some(args) => Option::Some(exprs_view(args@)),
                        Option::None => Option::None,
                    },
                },
            ),
        ),
    }
}

pub open spec fn block_view(b: BlockStatement) -> BlockV
    decreases b,
{
    BlockV { token: b.token@, statements: stmts_view(b.statements@) }
}

pub open spec fn idents_view(ps: Seq<Identifier>) -> Seq<IdentV> {
    Seq::new(ps.len(), |i: int| IdentV { token: ps[i].token@ })
}

pub open spec fn exprs_view(es: Seq<Expression>) -> Seq<ExprV>
    decreases es,
{
    if es.len() == 0 {
        Seq::empty()
    } else {
        seq![expr_view(es[0])] + exprs_view(es.drop_first())
    }
}

impl View for Statement {
    type V = StmtV;

    open spec fn view(&self) -> StmtV {
        stmt_view(*self)
    }
}

impl View for Expression {
    type V = ExprV;

    open spec fn view(&self) -> ExprV {
        expr_view(*self)
    }
}

impl View for Program {
    type V = ProgramV;

    open spec fn view(&self) -> ProgramV {
        ProgramV { statements: stmts_view(self.statements@) }
    }
}

impl View for BlockStatement {
    type V = BlockV;

    open spec fn view(&self) -> BlockV {
        block_view(*self)
    }
}

impl View for Identifier {
    type V = IdentV;

    open spec fn view(&self) -> IdentV {
        IdentV { token: self.token@ }
    }
}

// ------------------------------------------------------------------
// Sizes of views, for termination measures
// ------------------------------------------------------------------

pub open spec fn vstmt_size(s: StmtV) -> nat
    decreases s,
{
    match s {
        StmtV::Let(l) => 1 + vexpr_size(l.value),
        StmtV::Return(r) => 1 + vexpr_size(r.return_value),
        StmtV::Expression(e) => 1 + vexpr_size(e),
    }
}

pub open spec fn vstmts_size(ss: Seq<StmtV>) -> nat
    decreases ss,
{
    if ss.len() == 0 {
        1
    } else {
        1 + vstmt_size(ss[0]) + vstmts_size(ss.drop_first())
    }
}

pub open spec fn vexpr_size(e: ExprV) -> nat
    decreases e,
{
    match e {
        ExprV::Identifier(_) => 1,
        ExprV::Integer(_) => 1,
        ExprV::String(_) => 1,
        ExprV::Boolean(_) => 1,
        ExprV::Prefix(p) => 1 + vexpr_size(p.right),
        ExprV::Infix(i) => 1 + vexpr_size(i.left) + vexpr_size(i.right),
        ExprV::If(i) => 2 + vexpr_size(i.condition) + vstmts_size(i.consequence.statements) + (
        match i.alternative {
            Option::Some(b) => 1 + vstmts_size(b.statements),
            Option::None => 0,
        }),
        ExprV::Fn(f) => 2 + vstmts_size(f.body.statements),
        ExprV::Call(c) => 2 + vexpr_size(c.function) + (
        match c.arguments {
            Option::Some(args) => vexprs_size(args),
            Option::None => 1,
        }),
    }
}

pub open spec fn vexprs_size(es: Seq<ExprV>) -> nat
    decreases es,
{
    if es.len() == 0 {
        1
    } else {
        1 + vexpr_size(es[0]) + vexprs_size(es.drop_first())
    }
}

pub proof fn lemma_vstmts_size_drop(ss: Seq<StmtV>, i: int)
    requires
        0 <= i < ss.len(),
    ensures
        vstmts_size(ss.subrange(i + 1, ss.len() as int)) < vstmts_size(
            ss.subrange(i, ss.len() as int),
        ),
        vstmt_size(ss[i]) < vstmts_size(ss.subrange(i, ss.len() as int)),
{
    let tail = ss.subrange(i, ss.len() as int);
    assert(tail.len() > 0);
    assert(tail[0] == ss[i]);
    assert(tail.drop_first() =~= ss.subrange(i + 1, ss.len() as int));
}

pub proof fn lemma_vexprs_size_drop(es: Seq<ExprV>, i: int)
    requires
        0 <= i < es.len(),
    ensures
        vexprs_size(es.subrange(i + 1, es.len() as int)) < vexprs_size(
            es.subrange(i, es.len() as int),
        ),
        vexpr_size(es[i]) < vexprs_size(es.subrange(i, es.len() as int)),
{
    let tail = es.subrange(i, es.len() as int);
    assert(tail.len() > 0);
    assert(tail[0] == es[i]);
    assert(tail.drop_first() =~= es.subrange(i + 1, es.len() as int));
}

// ------------------------------------------------------------------
// Facts about the sequence views
// ------------------------------------------------------------------

pub proof fn lemma_stmts_view_len(ss: Seq<Statement>)
    ensures
        stmts_view(ss).len() == ss.len(),
        forall|i: int| 0 <= i < ss.len() ==> stmts_view(ss)[i] == stmt_view(ss[i]),
    decreases ss,
{
    if ss.len() > 0 {
        lemma_stmts_view_len(ss.drop_first());
    }
}

pub proof fn lemma_stmts_view_push(ss: Seq<Statement>, s: Statement)
    ensures
        stmts_view(ss.push(s)) == stmts_view(ss).push(stmt_view(s)),
    decreases ss,
{
    if ss.len() == 0 {
        assert(ss.push(s).drop_first() =~= ss);
        assert(stmts_view(ss.push(s)) =~= stmts_view(ss).push(stmt_view(s)));
    } else {
        assert(ss.push(s).drop_first() =~= ss.drop_first().push(s));
        lemma_stmts_view_push(ss.drop_first(), s);
        assert(stmts_view(ss.push(s)) =~= stmts_view(ss).push(stmt_view(s)));
    }
}

pub proof fn lemma_exprs_view_len(es: Seq<Expression>)
    ensures
        exprs_view(es).len() == es.len(),
        forall|i: int| 0 <= i < es.len() ==> exprs_view(es)[i] == expr_view(es[i]),
    decreases es,
{
    if es.len() > 0 {
        lemma_exprs_view_len(es.drop_first());
    }
}

pub proof fn lemma_exprs_view_push(es: Seq<Expression>, e: Expression)
    ensures
        exprs_view(es.push(e)) == exprs_view(es).push(expr_view(e)),
    decreases es,
{
    if es.len() == 0 {
        assert(es.push(e).drop_first() =~= es);
        assert(exprs_view(es.push(e)) =~= exprs_view(es).push(expr_view(e)));
    } else {
        assert(es.push(e).drop_first() =~= es.drop_first().push(e));
        lemma_exprs_view_push(es.drop_first(), e);
        assert(exprs_view(es.push(e)) =~= exprs_view(es).push(expr_view(e)));
    }
}

// ------------------------------------------------------------------
// Equality, by view
// ------------------------------------------------------------------

pub fn stmt_eq(a: &Statement, b: &Statement) -> (r: bool)
    ensures
        r == (a@ == b@),
    decreases *a,
{
    match (a, b) {
        (Statement::Let(x), Statement::Let(y)) => token_eq(&x.token, &y.token) && token_eq(
            &x.name.token,
            &y.name.token,
        ) && expr_eq(&x.value, &y.value),
        (Statement::Return(x), Statement::Return(y)) => token_eq(&x.token, &y.token) && expr_eq(
            &x.return_value,
            &y.return_value,
        ),
        (Statement::Expression(x), Statement::Expression(y)) => expr_eq(x, y),
        _ => false,
    }
}

pub fn expr_eq(a: &Expression, b: &Expression) -> (r: bool)
    ensures
        r == (a@ == b@),
    decreases *a,
{
    match (a, b) {
        (Expression::Identifier(x), Expression::Identifier(y)) => token_eq(x, y),
        (Expression::Integer(x), Expression::Integer(y)) => token_eq(x, y),
        (Expression::String(x), Expression::String(y)) => token_eq(x, y),
        (Expression::Boolean(x), Expression::Boolean(y)) => token_eq(x, y),
        (Expression::Prefix(x), Expression::Prefix(y)) => token_eq(&x.token, &y.token) && expr_eq(
            &x.right,
            &y.right,
        ),
        (Expression::Infix(x), Expression::Infix(y)) => expr_eq(&x.left, &y.left) && token_eq(
            &x.token,
            &y.token,
        ) && expr_eq(&x.right, &y.right),
        (Expression::If(x), Expression::If(y)) => {
            token_eq(&x.token, &y.token) && expr_eq(&x.condition, &y.condition) && block_eq(
                &x.consequence,
                &y.consequence,
            ) && (match (&x.alternative, &y.alternative) {
                (Option::Some(ba), Option::Some(bb)) => block_eq(ba, bb),
                (Option::None, Option::None) => true,
                _ => false,
            })
        },
        (Expression::Fn(x), Expression::Fn(y)) => {
            token_eq(&x.token, &y.token) && (match (&x.parameters, &y.parameters) {
                (Option::Some(pa), Option::Some(pb)) => idents_eq(pa, pb),
                (Option::None, Option::None) => true,
                _ => false,
            }) && block_eq(&x.body, &y.body)
        },
        (Expression::Call(x), Expression::Call(y)) => {
            token_eq(&x.token, &y.token) && expr_eq(&x.function, &y.function) && (match (
                &x.arguments,
                &y.arguments,
            ) {
                (Option::Some(aa), Option::Some(ab)) => exprs_eq(aa, ab),
                (Option::None, Option::None) => true,
                _ => false,
            })
        },
        _ => false,
    }
}

pub fn block_eq(a: &BlockStatement, b: &BlockStatement) -> (r: bool)
    ensures
        r == (a@ == b@),
    decreases *a,
{
    token_eq(&a.token, &b.token) && stmts_eq(&a.statements, &b.statements)
}

pub fn stmts_eq(a: &Vec<Statement>, b: &Vec<Statement>) -> (r: bool)
    ensures
        r == (stmts_view(a@) == stmts_view(b@)),
    decreases *a,
{
    proof {
        lemma_stmts_view_len(a@);
        lemma_stmts_view_len(b@);
    }
    if a.len() != b.len() {
        return false;
    }
    let n: usize = a.len();
    let mut i: usize = 0;
    while i < n
        invariant
            n == a@.len(),
            n == b@.len(),
            0 <= i <= n,
            forall|j: int| 0 <= j < i ==> stmts_view(a@)[j] == stmts_view(b@)[j],
            stmts_view(a@).len() == n,
            stmts_view(b@).len() == n,
            forall|j: int| 0 <= j < n ==> stmts_view(a@)[j] == stmt_view(a@[j]),
            forall|j: int| 0 <= j < n ==> stmts_view(b@)[j] == stmt_view(b@[j]),
        decreases n - i,
    {
        if !stmt_eq(&a[i], &b[i]) {
            proof {
                assert(stmts_view(a@)[i as int] != stmts_view(b@)[i as int]);
                assert(stmts_view(a@) != stmts_view(b@));
            }
            return false;
        }
        i += 1;
    }
    proof {
        assert(stmts_view(a@) =~= stmts_view(b@));
    }
    true
}

pub fn idents_eq(a: &Vec<Identifier>, b: &Vec<Identifier>) -> (r: bool)
    ensures
        r == (idents_view(a@) == idents_view(b@)),
{
    if a.len() != b.len() {
        proof {
            assert(a@.len() != b@.len());
            assert(idents_view(a@).len() == a@.len());
            assert(idents_view(b@).len() == b@.len());
            assert(idents_view(a@) != idents_view(b@));
        }
        return false;
    }
    let n: usize = a.len();
    let mut i: usize = 0;
    while i < n
        invariant
            n == a@.len(),
            n == b@.len(),
            0 <= i <= n,
            forall|j: int| 0 <= j < i ==> idents_view(a@)[j] == idents_view(b@)[j],
        decreases n - i,
    {
        if !token_eq(&a[i].token, &b[i].token) {
            proof {
                assert(a@[i as int].token@ != b@[i as int].token@);
                assert(idents_view(a@)[i as int] == IdentV { token: a@[i as int].token@ });
                assert(idents_view(b@)[i as int] == IdentV { token: b@[i as int].token@ });
                assert(idents_view(a@)[i as int] != idents_view(b@)[i as int]);
                assert(idents_view(a@) != idents_view(b@));
            }
            return false;
        }
        i += 1;
    }
    proof {
        assert(idents_view(a@) =~= idents_view(b@));
    }
    true
}

pub fn exprs_eq(a: &Vec<Expression>, b: &Vec<Expression>) -> (r: bool)
    ensures
        r == (exprs_view(a@) == exprs_view(b@)),
    decreases *a,
{
    proof {
        lemma_exprs_view_len(a@);
        lemma_exprs_view_len(b@);
    }
    if a.len() != b.len() {
        return false;
    }
    let n: usize = a.len();
    let mut i: usize = 0;
    while i < n
        invariant
            n == a@.len(),
            n == b@.len(),
            0 <= i <= n,
            forall|j: int| 0 <= j < i ==> exprs_view(a@)[j] == exprs_view(b@)[j],
            exprs_view(a@).len() == n,
            exprs_view(b@).len() == n,
            forall|j: int| 0 <= j < n ==> exprs_view(a@)[j] == expr_view(a@[j]),
            forall|j: int| 0 <= j < n ==> exprs_view(b@)[j] == expr_view(b@[j]),
        decreases n - i,
    {
        if !expr_eq(&a[i], &b[i]) {
            proof {
                assert(exprs_view(a@)[i as int] != exprs_view(b@)[i as int]);
                assert(exprs_view(a@) != exprs_view(b@));
            }
            return false;
        }
        i += 1;
    }
    proof {
        assert(exprs_view(a@) =~= exprs_view(b@));
    }
    true
}

impl PartialEq for Statement {
    fn eq(&self, other: &Statement) -> bool {
        stmt_eq(self, other)
    }
}

impl vstd::std_specs::cmp::PartialEqSpecImpl for Statement {
    open spec fn obeys_eq_spec() -> bool {
        true
    }

    open spec fn eq_spec(&self, other: &Statement) -> bool {
        self@ == other@
    }
}

impl PartialEq for Expression {
    fn eq(&self, other: &Expression) -> bool {
        expr_eq(self, other)
    }
}

impl vstd::std_specs::cmp::PartialEqSpecImpl for Expression {
    open spec fn obeys_eq_spec() -> bool {
        true
    }

    open spec fn eq_spec(&self, other: &Expression) -> bool {
        self@ == other@
    }
}

impl PartialEq for BlockStatement {
    fn eq(&self, other: &BlockStatement) -> bool {
        block_eq(self, other)
    }
}

impl vstd::std_specs::cmp::PartialEqSpecImpl for BlockStatement {
    open spec fn obeys_eq_spec() -> bool {
        true
    }

    open spec fn eq_spec(&self, other: &BlockStatement) -> bool {
        self@ == other@
    }
}

impl PartialEq for Program {
    fn eq(&self, other: &Program) -> bool {
        stmts_eq(&self.statements, &other.statements)
    }
}

impl vstd::std_specs::cmp::PartialEqSpecImpl for Program {
    open spec fn obeys_eq_spec() -> bool {
        true
    }

    open spec fn eq_spec(&self, other: &Program) -> bool {
        self@ == other@
    }
}

// ------------------------------------------------------------------
// Deep copies, by view
// ------------------------------------------------------------------

impl Identifier {
    /// A deep copy whose view equals this identifier's view.
    pub fn duplicate(&self) -> (r: Identifier)
        ensures
            r@ == self@,
    {
        Identifier { token: self.token.duplicate() }
    }
}

pub fn dup_stmt(s: &Statement) -> (r: Statement)
    ensures
        r@ == s@,
    decreases *s,
{
    match s {
        Statement::Let(l) => Statement::Let(
            Let {
                token: l.token.duplicate(),
                name: l.name.duplicate(),
                value: dup_expr(&l.value),
            },
        ),
        Statement::Return(ret) => Statement::Return(
            Return { token: ret.token.duplicate(), return_value: dup_expr(&ret.return_value) },
        ),
        Statement::Expression(e) => Statement::Expression(dup_expr(e)),
    }
}

pub fn dup_expr(e: &Expression) -> (r: Expression)
    ensures
        r@ == e@,
    decreases *e,
{
    match e {
        Expression::Identifier(t) => Expression::Identifier(t.duplicate()),
        Expression::Integer(t) => Expression::Integer(t.duplicate()),
        Expression::String(t) => Expression::String(t.duplicate()),
        Expression::Boolean(t) => Expression::Boolean(t.duplicate()),
        Expression::Prefix(p) => Expression::Prefix(
            Box::new(PrefixExpression { token: p.token.duplicate(), right: dup_expr(&p.right) }),
        ),
        Expression::Infix(i) => Expression::Infix(
            Box::new(
                InfixExpression {
                    left: dup_expr(&i.left),
                    token: i.token.duplicate(),
                    right: dup_expr(&i.right),
                },
            ),
        ),
        Expression::If(i) => Expression::If(
            Box::new(
                IfExpression {
                    token: i.token.duplicate(),
                    condition: dup_expr(&i.condition),
                    consequence: dup_block(&i.consequence),
                    alternative: match &i.alternative {
                        Option::Some(b) => Option::Some(dup_block(b)),
                        Option::None => Option::None,
                    },
                },
            ),
        ),
        Expression::Fn(f) => Expression::Fn(
            Box::new(
                FnExpression {
                    token: f.token.duplicate(),
                    parameters: match &f.parameters {
                        Option::Some(ps) => Option::Some(dup_idents(ps)),
                        Option::None => Option::None,
                    },
                    body: dup_block(&f.body),
                },
            ),
        ),
        Expression::Call(c) => Expression::Call(
            Box::new(
                CallExpression {
                    token: c.token.duplicate(),
                    function: dup_expr(&c.function),
                    arguments: match &c.arguments {
                        Option::Some(args) => Option::Some(dup_exprs(args)),
                        Option::None => Option::None,
                    },
                },
            ),
        ),
    }
}

pub fn dup_block(b: &BlockStatement) -> (r: BlockStatement)
    ensures
        r@ == b@,
    decreases *b,
{
    BlockStatement { token: b.token.duplicate(), statements: dup_stmts(&b.statements) }
}

pub fn dup_stmts(ss: &Vec<Statement>) -> (r: Vec<Statement>)
    ensures
        stmts_view(r@) == stmts_view(ss@),
    decreases *ss,
{
    proof {
        lemma_stmts_view_len(ss@);
    }
    let n: usize = ss.len();
    let mut out: Vec<Statement> = Vec::new();
    let mut i: usize = 0;
    while i < n
        invariant
            n == ss@.len(),
            0 <= i <= n,
            out@.len() == i,
            forall|j: int| 0 <= j < i ==> stmts_view(out@)[j] == stmts_view(ss@)[j],
            stmts_view(out@).len() == i,
            forall|j: int| 0 <= j < n ==> stmts_view(ss@)[j] == stmt_view(ss@[j]),
        decreases n - i,
    {
        let d = dup_stmt(&ss[i]);
        proof {
            lemma_stmts_view_push(out@, d);
        }
        out.push(d);
        proof {
            lemma_stmts_view_len(out@);
        }
        i += 1;
    }
    proof {
        assert(stmts_view(out@) =~= stmts_view(ss@));
    }
    out
}

pub fn dup_idents(ps: &Vec<Identifier>) -> (r: Vec<Identifier>)
    ensures
        idents_view(r@) == idents_view(ps@),
{
    let n: usize = ps.len();
    let mut out: Vec<Identifier> = Vec::new();
    let mut i: usize = 0;
    while i < n
        invariant
            n == ps@.len(),
            0 <= i <= n,
            out@.len() == i,
            forall|j: int| 0 <= j < i ==> idents_view(out@)[j] == idents_view(ps@)[j],
        decreases n - i,
    {
        let d = ps[i].duplicate();
        out.push(d);
        i += 1;
    }
    proof {
        assert(idents_view(out@) =~= idents_view(ps@));
    }
    out
}

pub fn dup_exprs(es: &Vec<Expression>) -> (r: Vec<Expression>)
    ensures
        exprs_view(r@) == exprs_view(es@),
    decreases *es,
{
    proof {
        lemma_exprs_view_len(es@);
    }
    let n: usize = es.len();
    let mut out: Vec<Expression> = Vec::new();
    let mut i: usize = 0;
    while i < n
        invariant
            n == es@.len(),
            0 <= i <= n,
            out@.len() == i,
            forall|j: int| 0 <= j < i ==> exprs_view(out@)[j] == exprs_view(es@)[j],
            exprs_view(out@).len() == i,
            forall|j: int| 0 <= j < n ==> exprs_view(es@)[j] == expr_view(es@[j]),
        decreases n - i,
    {
        let d = dup_expr(&es[i]);
        proof {
            lemma_exprs_view_push(out@, d);
        }
        out.push(d);
        proof {
            lemma_exprs_view_len(out@);
        }
        i += 1;
    }
    proof {
        assert(exprs_view(out@) =~= exprs_view(es@));
    }
    out
}

// ------------------------------------------------------------------
// Constructors
// ------------------------------------------------------------------

impl Program {
    pub fn new(statements: Vec<Statement>) -> (r: Program)
        ensures
            r.statements == statements,
    {
        Program { statements }
    }
}

impl Let {
    pub fn new(token: Token, name: Identifier, value: Expression) -> (r: Let)
        ensures
            r.token == token,
            r.name == name,
            r.value == value,
    {
        Let { token, name, value }
    }
}

impl Return {
    pub fn new(token: Token, return_value: Expression) -> (r: Return)
        ensures
            r.token == token,
            r.return_value == return_value,
    {
        Return { token, return_value }
    }
}

impl Identifier {
    pub fn new(token: Token) -> (r: Identifier)
        ensures
            r.token == token,
    {
        Identifier { token }
    }
}

impl PrefixExpression {
    pub fn new(token: Token, right: Expression) -> (r: Self)
        ensures
            r.token == token,
            r.right == right,
    {
        PrefixExpression { token, right }
    }
}

impl InfixExpression {
    pub fn new(left: Expression, token: Token, right: Expression) -> (r: Self)
        ensures
            r.left == left,
            r.token == token,
            r.right == right,
    {
        InfixExpression { left, token, right }
    }
}

impl IfExpression {
    pub fn new(
        token: Token,
        condition: Expression,
        consequence: BlockStatement,
        alternative: Option<BlockStatement>,
    ) -> (r: Self)
        ensures
            r.token == token,
            r.condition == condition,
            r.consequence == consequence,
            r.alternative == alternative,
    {
        IfExpression { token, condition, consequence, alternative }
    }
}

impl BlockStatement {
    pub fn new(token: Token, statements: Vec<Statement>) -> (r: Self)
        ensures
            r.token == token,
            r.statements == statements,
    {
        BlockStatement { token, statements }
    }
}

impl FnExpression {
    pub fn new(token: Token, parameters: Option<Vec<Identifier>>, body: BlockStatement) -> (r: Self)
        ensures
            r.token == token,
            r.parameters == parameters,
            r.body == body,
    {
        FnExpression { token, parameters, body }
    }
}

impl CallExpression {
    pub fn new(token: Token, function: Expression, arguments: Option<Vec<Expression>>) -> (r: Self)
        ensures
            r.token == token,
            r.function == function,
            r.arguments == arguments,
    {
        CallExpression { token, function, arguments }
    }
}

} // verus!
