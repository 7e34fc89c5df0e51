//! The parser: precedence-climbing (Pratt) expression parsing over the
//! token stream.
//!
//! The `sp_*` functions form a specification-level parser over the views of
//! the tokens; each returns the parsed node, the position of its last token,
//! and how many errors it recorded. The executable parser is proved to
//! produce exactly what they describe. Binary operators are left-associative
//! because the right-hand side is parsed at the operator's own precedence;
//! parentheses reset the precedence floor; a `(` after a complete expression
//! binds tightest of all and forms a call.

use vstd::prelude::*;

use crate::ast::{
    BlockStatement, BlockV, CallExpression, CallV, ExprV, Expression, FnExpression, FnV, IdentV,
    Identifier, IfExpression, IfV, InfixExpression, InfixV, Let, LetV, PrefixExpression, PrefixV,
    Program, Return, ReturnV, Statement, StmtV,
};
use crate::lexer::Lexer;
use crate::token::{tok_kind, toks_view, Token, TokenV};

verus! {

/// The precedence levels, lowest binding power first.
#[derive(Debug, PartialEq, Eq, Structural, Clone, Copy)]
pub enum Precidence {
    Lowest,
    Equals,
    LessGreater,
    Sum,
    Product,
    Prefix,
    Call,
}

/// The binding power of a precedence level.
pub open spec fn spec_prec_rank(p: Precidence) -> int {
    match p {
        Precidence::Lowest => 0,
        Precidence::Equals => 1,
        Precidence::LessGreater => 2,
        Precidence::Sum => 3,
        Precidence::Product => 4,
        Precidence::Prefix => 5,
        Precidence::Call => 6,
    }
}

/// The binding power of a token met in infix position. `(` binds tightest:
/// it turns the expression before it into a call.
pub open spec fn prec_of(t: TokenV) -> int {
    match t {
        TokenV::Equal => 1,
        TokenV::NotEqual => 1,
        TokenV::LessThan => 2,
        TokenV::GreaterThan => 2,
        TokenV::Plus => 3,
        TokenV::Minus => 3,
        TokenV::Slash => 4,
        TokenV::Asterisk => 4,
        TokenV::LParen => 6,
        _ => 0,
    }
}

impl Precidence {
    /// The precedence a token met in infix position carries.
    pub fn from(token: &Token) -> (p: Precidence)
        ensures
            spec_prec_rank(p) == prec_of(token@),
    {
        match token {
            Token::Equal => Precidence::Equals,
            Token::NotEqual => Precidence::Equals,
            Token::LessThan => Precidence::LessGreater,
            Token::GreaterThan => Precidence::LessGreater,
            Token::Plus => Precidence::Sum,
            Token::Minus => Precidence::Sum,
            Token::Slash => Precidence::Product,
            Token::Asterisk => Precidence::Product,
            Token::LParen => Precidence::Call,
            _ => Precidence::Lowest,
        }
    }

    /// The numeric binding power.
    pub fn rank(&self) -> (r: u8)
        ensures
            r as int == spec_prec_rank(*self),
    {
        match self {
            Precidence::Lowest => 0,
            Precidence::Equals => 1,
            Precidence::LessGreater => 2,
            Precidence::Sum => 3,
            Precidence::Product => 4,
            Precidence::Prefix => 5,
            Precidence::Call => 6,
        }
    }
}

/// The token at a position; past the end it is `EOF`.
pub open spec fn tok(ts: Seq<TokenV>, i: int) -> TokenV {
    if 0 <= i < ts.len() {
        ts[i]
    } else {
        TokenV::EOF
    }
}

/// Where the cursor lands after one step from `i`: it saturates at the last
/// token, the `EOF` sentinel.
pub open spec fn adv1(ts: Seq<TokenV>, i: int) -> int {
    if i + 1 < ts.len() {
        i + 1
    } else {
        ts.len() - 1
    }
}

/// The first position at or after `i` holding a semicolon or `EOF`: the
/// boundary parsing resumes at after a failed statement.
pub open spec fn sync_pos(ts: Seq<TokenV>, i: int) -> int
    decreases ts.len() - i,
{
    if !(0 <= i < ts.len()) {
        i
    } else if ts[i] is Semicolon || ts[i] is EOF {
        i
    } else {
        sync_pos(ts, i + 1)
    }
}

// ------------------------------------------------------------------
// The specification-level parser.
//
// Each function takes the position of the first token of its construct and
// returns (parsed node or `None` after an error, position of the last token
// consumed, number of errors recorded).
// ------------------------------------------------------------------

/// Parses the prefix part of an expression: a literal, an identifier, a
/// prefix operator, a parenthesized group, an `if`, or a function literal.
#[verifier::opaque]
pub open spec fn sp_prefix_part(ts: Seq<TokenV>, i: int) -> (Option<ExprV>, int, nat)
    decreases ts.len() - i, 2int,
{
    if !(0 <= i < ts.len()) {
        (Option::None, i, 0)
    } else {
        let t = ts[i];
        match t {
            TokenV::Ident(_) => (Option::Some(ExprV::Identifier(t)), i, 0),
            TokenV::Int(_) => (Option::Some(ExprV::Integer(t)), i, 0),
            TokenV::String(_) => (Option::Some(ExprV::String(t)), i, 0),
            TokenV::True => (Option::Some(ExprV::Boolean(t)), i, 0),
            TokenV::False => (Option::Some(ExprV::Boolean(t)), i, 0),
            TokenV::Bang => sp_prefix_op(ts, i),
            TokenV::Minus => sp_prefix_op(ts, i),
            TokenV::LParen => {
                let p = adv1(ts, i);
                if p <= i {
                    (Option::None, i, 1)
                } else {
                    let (r, j, n) = sp_expression(ts, p, 0);
                    match r {
                        Option::None => (Option::None, j, n),
                        Option::Some(e) => if tok(ts, j + 1) is RParen {
                            (Option::Some(e), j + 1, n)
                        } else {
                            (Option::None, j, n + 1)
                        },
                    }
                }
            },
            TokenV::If => sp_if_expr(ts, i),
            TokenV::Function => sp_fn_expr(ts, i),
            _ => (Option::None, i, 1),
        }
    }
}

/// Parses `!` or `-` applied to an operand at `Prefix` precedence.
#[verifier::opaque]
pub open spec fn sp_prefix_op(ts: Seq<TokenV>, i: int) -> (Option<ExprV>, int, nat)
    decreases ts.len() - i, 1int,
{
    let t = tok(ts, i);
    let p = adv1(ts, i);
    if p <= i {
        (Option::None, i, 1)
    } else {
        let (r, j, n) = sp_expression(ts, p, 5);
        match r {
            Option::None => (Option::None, j, n),
            Option::Some(right) => (
                Option::Some(ExprV::Prefix(Box::new(PrefixV { token: t, right }))),
                j,
                n,
            ),
        }
    }
}

/// Parses `if (<cond>) { <consequence> }` with an optional `else` block.
#[verifier::opaque]
pub open spec fn sp_if_expr(ts: Seq<TokenV>, i: int) -> (Option<ExprV>, int, nat)
    decreases ts.len() - i, 1int,
{
    if !(tok(ts, i + 1) is LParen) {
        (Option::None, i, 1)
    } else {
        let p = adv1(ts, i + 1);
        if p <= i + 1 {
            (Option::None, i + 1, 1)
        } else {
            let (rc, j, n) = sp_expression(ts, p, 0);
            match rc {
                Option::None => (Option::None, j, n),
                Option::Some(cond) => if !(tok(ts, j + 1) is RParen) {
                    (Option::None, j, n + 1)
                } else if !(tok(ts, j + 2) is LBrace) {
                    (Option::None, j + 1, n + 1)
                } else if !(j + 2 > i) {
                    (Option::None, j + 1, n + 1)
                } else {
                    let (cons, k, n2) = sp_block(ts, j + 2);
                    if tok(ts, k + 1) is Else {
                        if !(tok(ts, k + 2) is LBrace) {
                            (Option::None, k + 1, n + n2 + 1)
                        } else if !(k + 2 > i) {
                            (Option::None, k + 1, n + n2 + 1)
                        } else {
                            let (alt, m, n3) = sp_block(ts, k + 2);
                            (
                                Option::Some(
                                    ExprV::If(
                                        Box::new(
                                            IfV {
                                                token: TokenV::If,
                                                condition: cond,
                                                consequence: cons,
                                                alternative: Option::Some(alt),
                                            },
                                        ),
                                    ),
                                ),
                                m,
                                (n + n2 + n3) as nat,
                            )
                        }
                    } else {
                        (
                            Option::Some(
                                ExprV::If(
                                    Box::new(
                                        IfV {
                                            token: TokenV::If,
                                            condition: cond,
                                            consequence: cons,
                                            alternative: Option::None,
                                        },
                                    ),
                                ),
                            ),
                            k,
                            (n + n2) as nat,
                        )
                    }
                },
            }
        }
    }
}

/// Parses `fn(<parameters>) { <body> }`. An empty parameter list parses to
/// an absent one.
#[verifier::opaque]
pub open spec fn sp_fn_expr(ts: Seq<TokenV>, i: int) -> (Option<ExprV>, int, nat)
    decreases ts.len() - i, 1int,
{
    if !(tok(ts, i + 1) is LParen) {
        (Option::None, i, 1)
    } else if tok(ts, i + 2) is RParen {
        if !(tok(ts, i + 3) is LBrace) {
            (Option::None, i + 2, 1)
        } else if !(i + 3 > i) {
            (Option::None, i + 2, 1)
        } else {
            let (body, k, n2) = sp_block(ts, i + 3);
            (
                Option::Some(
                    ExprV::Fn(
                        Box::new(
                            FnV { token: TokenV::Function, parameters: Option::None, body },
                        ),
                    ),
                ),
                k,
                n2,
            )
        }
    } else {
        if !(i + 2 > i) {
            (Option::None, i + 1, 1)
        } else {
            let (ps, j, n) = sp_fn_params(ts, i + 2);
            match ps {
                Option::None => (Option::None, j, n),
                Option::Some(params) => if !(tok(ts, j + 1) is RParen) {
                    (Option::None, j, n + 1)
                } else if !(tok(ts, j + 2) is LBrace) {
                    (Option::None, j + 1, n + 1)
                } else if !(j + 2 > i) {
                    (Option::None, j + 1, n + 1)
                } else {
                    let (body, k, n2) = sp_block(ts, j + 2);
                    (
                        Option::Some(
                            ExprV::Fn(
                                Box::new(
                                    FnV {
                                        token: TokenV::Function,
                                        parameters: Option::Some(params),
                                        body,
                                    },
                                ),
                            ),
                        ),
                        k,
                        (n + n2) as nat,
                    )
                },
            }
        }
    }
}

/// Parses a comma-separated identifier list; `i` is the first identifier's
/// position.
#[verifier::opaque]
pub open spec fn sp_fn_params(ts: Seq<TokenV>, i: int) -> (Option<Seq<IdentV>>, int, nat)
    decreases ts.len() - i, 1int,
{
    match tok(ts, i) {
        TokenV::Ident(_) => sp_fn_params_loop(ts, i, seq![IdentV { token: tok(ts, i) }]),
        _ => (Option::None, i, 1),
    }
}

#[verifier::opaque]
pub open spec fn sp_fn_params_loop(ts: Seq<TokenV>, i: int, acc: Seq<IdentV>) -> (
    Option<Seq<IdentV>>,
    int,
    nat,
)
    decreases ts.len() - i, 0int,
{
    if tok(ts, i + 1) is Comma {
        match tok(ts, i + 2) {
            TokenV::Ident(_) => {
                if i + 2 > i {
                    sp_fn_params_loop(ts, i + 2, acc.push(IdentV { token: tok(ts, i + 2) }))
                } else {
                    (Option::None, i, 1)
                }
            },
            _ => (Option::None, i + 2, 1),
        }
    } else {
        (Option::Some(acc), i, 0)
    }
}

/// Parses one full expression at the given precedence floor: a prefix part,
/// then every infix operator binding tighter than the floor.
#[verifier::opaque]
pub open spec fn sp_expression(ts: Seq<TokenV>, i: int, prec: int) -> (Option<ExprV>, int, nat)
    decreases ts.len() - i, 3int,
{
    let (r, j, n) = sp_prefix_part(ts, i);
    match r {
        Option::None => (Option::None, j, n),
        Option::Some(left) => {
            if j >= i && j < ts.len() {
                let (r2, k, n2) = sp_infix_loop(ts, left, j, prec);
                (r2, k, (n + n2) as nat)
            } else {
                (Option::None, j, n)
            }
        },
    }
}

/// The infix loop: while the next token is no semicolon and binds tighter
/// than the floor, extend the expression to the left — a `(` extends it
/// into a call, any other operator into a binary node whose right side is
/// parsed at the operator's own precedence.
#[verifier::opaque]
pub open spec fn sp_infix_loop(ts: Seq<TokenV>, left: ExprV, i: int, prec: int) -> (
    Option<ExprV>,
    int,
    nat,
)
    decreases ts.len() - i, 0int,
{
    let pt = tok(ts, i + 1);
    if !(pt is Semicolon) && prec < prec_of(pt) {
        if pt is LParen {
            if i + 1 > i && i + 1 < ts.len() {
                let (args, j, n) = sp_call_arguments(ts, i + 1);
                match args {
                    Option::None => (Option::None, j, n),
                    Option::Some(a) => {
                        let callexp = ExprV::Call(
                            Box::new(
                                CallV { token: TokenV::LParen, function: left, arguments: a },
                            ),
                        );
                        if j > i && j < ts.len() {
                            let (r2, k, n2) = sp_infix_loop(ts, callexp, j, prec);
                            (r2, k, (n + n2) as nat)
                        } else {
                            (Option::None, j, n)
                        }
                    },
                }
            } else {
                (Option::None, i, 0)
            }
        } else {
            let p = adv1(ts, i + 1);
            if p > i + 1 {
                let (r, j, n) = sp_expression(ts, p, prec_of(pt));
                match r {
                    Option::None => (Option::None, j, n),
                    Option::Some(right) => {
                        let ie = ExprV::Infix(Box::new(InfixV { left, token: pt, right }));
                        if j > i && j < ts.len() {
                            let (r2, k, n2) = sp_infix_loop(ts, ie, j, prec);
                            (r2, k, (n + n2) as nat)
                        } else {
                            (Option::None, j, n)
                        }
                    },
                }
            } else {
                (Option::None, i + 1, 0)
            }
        }
    } else {
        (Option::Some(left), i, 0)
    }
}

/// Parses a call's argument list; `i` is the `(` position. The result is
/// the argument list, absent when the parentheses are empty, and the
/// position of the closing `)`.
#[verifier::opaque]
pub open spec fn sp_call_arguments(ts: Seq<TokenV>, i: int) -> (
    Option<Option<Seq<ExprV>>>,
    int,
    nat,
)
    decreases ts.len() - i, 1int,
{
    if tok(ts, i + 1) is RParen {
        (Option::Some(Option::None), i + 1, 0)
    } else {
        let p = adv1(ts, i);
        if p <= i {
            (Option::None, i, 0)
        } else {
            let (r, j, n) = sp_expression(ts, p, 0);
            match r {
                Option::None => (Option::None, j, n),
                Option::Some(e) => {
                    if j >= i && j < ts.len() {
                        let (rest, k, n2) = sp_call_args_loop(ts, j, seq![e]);
                        (rest, k, (n + n2) as nat)
                    } else {
                        (Option::None, j, n)
                    }
                },
            }
        }
    }
}

#[verifier::opaque]
pub open spec fn sp_call_args_loop(ts: Seq<TokenV>, i: int, acc: Seq<ExprV>) -> (
    Option<Option<Seq<ExprV>>>,
    int,
    nat,
)
    decreases ts.len() - i, 0int,
{
    if tok(ts, i + 1) is Comma {
        let p = adv1(ts, i + 1);
        if p > i + 1 {
            let (r, j, n) = sp_expression(ts, p, 0);
            match r {
                Option::None => (Option::None, j, n),
                Option::Some(e) => {
                    if j > i && j < ts.len() {
                        let (rest, k, n2) = sp_call_args_loop(ts, j, acc.push(e));
                        (rest, k, (n + n2) as nat)
                    } else {
                        (Option::None, j, n)
                    }
                },
            }
        } else {
            (Option::None, i + 1, 0)
        }
    } else if tok(ts, i + 1) is RParen {
        (Option::Some(Option::Some(acc)), i + 1, 0)
    } else {
        (Option::None, i, 1)
    }
}

/// Parses a brace block; `i` is the `{` position. The result ends at the
/// closing `}` (or at `EOF` when the block is unterminated).
#[verifier::opaque]
pub open spec fn sp_block(ts: Seq<TokenV>, i: int) -> (BlockV, int, nat)
    decreases ts.len() - i, 4int,
{
    let p = adv1(ts, i);
    if p <= i {
        (BlockV { token: TokenV::LBrace, statements: Seq::empty() }, i, 0)
    } else {
        let (stmts, j, n) = sp_block_loop(ts, p);
        (BlockV { token: TokenV::LBrace, statements: stmts }, j, n)
    }
}

#[verifier::opaque]
pub open spec fn sp_block_loop(ts: Seq<TokenV>, i: int) -> (Seq<StmtV>, int, nat)
    decreases ts.len() - i, 7int,
{
    if tok(ts, i) is RBrace || tok(ts, i) is EOF {
        (Seq::empty(), i, 0)
    } else {
        let (s, j, n) = sp_statement(ts, i);
        let p = adv1(ts, j);
        if j >= i && p > i {
            let (rest, k, n2) = sp_block_loop(ts, p);
            (
                match s {
                    Option::Some(st) => seq![st] + rest,
                    Option::None => rest,
                },
                k,
                (n + n2) as nat,
            )
        } else {
            (Seq::empty(), j, n)
        }
    }
}

/// Parses one statement, dispatching on its first token; after a failure
/// the cursor is moved to the next statement boundary.
#[verifier::opaque]
pub open spec fn sp_statement(ts: Seq<TokenV>, i: int) -> (Option<StmtV>, int, nat)
    decreases ts.len() - i, 6int,
{
    let (r, j, n) = match tok(ts, i) {
        TokenV::Let => sp_let_stmt(ts, i),
        TokenV::Return => sp_return_stmt(ts, i),
        _ => sp_expr_stmt(ts, i),
    };
    match r {
        Option::Some(s) => (Option::Some(s), j, n),
        Option::None => (Option::None, sync_pos(ts, j), n),
    }
}

/// Parses `let <name> = <value>` with an optional trailing semicolon. The
/// statement's token is the bound identifier's token.
#[verifier::opaque]
pub open spec fn sp_let_stmt(ts: Seq<TokenV>, i: int) -> (Option<StmtV>, int, nat)
    decreases ts.len() - i, 5int,
{
    if !(tok(ts, i + 1) is Ident) {
        (Option::None, i, 1)
    } else if !(tok(ts, i + 2) is Assign) {
        (Option::None, i + 1, 1)
    } else {
        let p = adv1(ts, i + 2);
        if p <= i {
            (Option::None, i + 2, 0)
        } else {
            let (r, j, n) = sp_expression(ts, p, 0);
            match r {
                Option::None => (Option::None, j, n),
                Option::Some(v) => {
                    let idtok = tok(ts, i + 1);
                    let stmt = StmtV::Let(
                        LetV { token: idtok, name: IdentV { token: idtok }, value: v },
                    );
                    if tok(ts, j + 1) is Semicolon {
                        (Option::Some(stmt), j + 1, n)
                    } else {
                        (Option::Some(stmt), j, n)
                    }
                },
            }
        }
    }
}

/// Parses `return <value>` with an optional trailing semicolon.
#[verifier::opaque]
pub open spec fn sp_return_stmt(ts: Seq<TokenV>, i: int) -> (Option<StmtV>, int, nat)
    decreases ts.len() - i, 5int,
{
    let p = adv1(ts, i);
    if p <= i {
        (Option::None, i, 0)
    } else {
        let (r, j, n) = sp_expression(ts, p, 0);
        match r {
            Option::None => (Option::None, j, n),
            Option::Some(v) => {
                let stmt = StmtV::Return(ReturnV { token: TokenV::Return, return_value: v });
                if tok(ts, j + 1) is Semicolon {
                    (Option::Some(stmt), j + 1, n)
                } else {
                    (Option::Some(stmt), j, n)
                }
            },
        }
    }
}

/// Parses a bare expression as a statement, with an optional trailing
/// semicolon.
#[verifier::opaque]
pub open spec fn sp_expr_stmt(ts: Seq<TokenV>, i: int) -> (Option<StmtV>, int, nat)
    decreases ts.len() - i, 5int,
{
    let (r, j, n) = sp_expression(ts, i, 0);
    match r {
        Option::None => (Option::None, j, n),
        Option::Some(v) => {
            let stmt = StmtV::Expression(v);
            if tok(ts, j + 1) is Semicolon {
                (Option::Some(stmt), j + 1, n)
            } else {
                (Option::Some(stmt), j, n)
            }
        },
    }
}

/// Parses statements until `EOF`: the whole program, and the number of
/// errors recorded along the way. A failed statement is skipped and parsing
/// continues at the next boundary, so one pass can report several errors.
#[verifier::opaque]
pub open spec fn sp_program(ts: Seq<TokenV>, i: int) -> (Seq<StmtV>, nat)
    decreases ts.len() - i, 7int,
{
    if tok(ts, i) is EOF {
        (Seq::empty(), 0)
    } else {
        let (s, j, n) = sp_statement(ts, i);
        let p = adv1(ts, j);
        if j >= i && p > i {
            let (rest, n2) = sp_program(ts, p);
            (
                match s {
                    Option::Some(st) => seq![st] + rest,
                    Option::None => rest,
                },
                (n + n2) as nat,
            )
        } else {
            (Seq::empty(), n)
        }
    }
}

// ------------------------------------------------------------------
// Laws of precedence parsing
// ------------------------------------------------------------------

/// All binary operators are left-associative: between two operators of
/// equal binding power, the left one binds first, so `a op1 b op2 c`
/// parses as `(a op1 b) op2 c`.
#[verifier::spinoff_prover]
pub proof fn lemma_left_associative(a: int, b: int, c: int, op1: TokenV, op2: TokenV)
    requires
        prec_of(op1) == prec_of(op2),
        1 <= prec_of(op1) <= 4,
    ensures
        ({
            let ts = seq![
                TokenV::Int(a),
                op1,
                TokenV::Int(b),
                op2,
                TokenV::Int(c),
                TokenV::EOF,
            ];
            sp_expression(ts, 0, 0).0 == Option::Some(
                ExprV::Infix(
                    Box::new(
                        InfixV {
                            left: ExprV::Infix(
                                Box::new(
                                    InfixV {
                                        left: ExprV::Integer(TokenV::Int(a)),
                                        token: op1,
                                        right: ExprV::Integer(TokenV::Int(b)),
                                    },
                                ),
                            ),
                            token: op2,
                            right: ExprV::Integer(TokenV::Int(c)),
                        },
                    ),
                ),
            )
        }),
{
    reveal_with_fuel(sp_expression, 8);
    reveal_with_fuel(sp_prefix_part, 8);
    reveal_with_fuel(sp_infix_loop, 10);
}

/// Precedence climbing: between two operators where the right one binds
/// tighter, the right one binds first, so `a op1 b op2 c` parses as
/// `a op1 (b op2 c)` — in particular `*` binds tighter than `+`.
#[verifier::rlimit(100)]
#[verifier::spinoff_prover]
pub proof fn lemma_tighter_binds_first(a: int, b: int, c: int, op1: TokenV, op2: TokenV)
    requires
        1 <= prec_of(op1) < prec_of(op2) <= 4,
    ensures
        ({
            let ts = seq![
                TokenV::Int(a),
                op1,
                TokenV::Int(b),
                op2,
                TokenV::Int(c),
                TokenV::EOF,
            ];
            sp_expression(ts, 0, 0).0 == Option::Some(
                ExprV::Infix(
                    Box::new(
                        InfixV {
                            left: ExprV::Integer(TokenV::Int(a)),
                            token: op1,
                            right: ExprV::Infix(
                                Box::new(
                                    InfixV {
                                        left: ExprV::Integer(TokenV::Int(b)),
                                        token: op2,
                                        right: ExprV::Integer(TokenV::Int(c)),
                                    },
                                ),
                            ),
                        },
                    ),
                ),
            )
        }),
{
    reveal_with_fuel(sp_expression, 8);
    reveal_with_fuel(sp_prefix_part, 8);
    reveal_with_fuel(sp_infix_loop, 10);
}

// ------------------------------------------------------------------
// The executable parser
// ------------------------------------------------------------------

/// The executable option agrees with the specification-level one.
pub open spec fn opt_expr_rel(r: Option<Expression>, ro: Option<ExprV>) -> bool {
    match r {
        Option::Some(e) => ro == Option::Some(crate::ast::expr_view(e)),
        Option::None => ro is None,
    }
}

pub open spec fn opt_stmt_rel(r: Option<Statement>, ro: Option<StmtV>) -> bool {
    match r {
        Option::Some(s) => ro == Option::Some(crate::ast::stmt_view(s)),
        Option::None => ro is None,
    }
}

pub struct Parser {
    tokens: Vec<Token>,
    position: usize,
    errors: Vec<String>,
}

impl Parser {
    /// The views of the token stream the parser walks.
    pub closed spec fn toks(&self) -> Seq<TokenV> {
        toks_view(self.tokens@)
    }

    /// The cursor: the index of the current token.
    pub closed spec fn pos(&self) -> int {
        self.position as int
    }

    /// How many errors have been recorded.
    pub closed spec fn nerrs(&self) -> int {
        self.errors@.len() as int
    }

    /// The stream ends with `EOF`, holds `EOF` nowhere else, and the cursor
    /// is inside it.
    pub closed spec fn wf(&self) -> bool {
        &&& self.tokens@.len() >= 1
        &&& self.toks().last() == TokenV::EOF
        &&& forall|k: int| 0 <= k < self.toks().len() - 1 ==> !(#[trigger] self.toks()[k] is EOF)
        &&& self.position < self.tokens@.len()
    }

    /// Runs the lexer to the end of its input and sits down before the
    /// first token.
    pub fn new(lexer: Lexer) -> (r: Parser)
        requires
            lexer.wf(),
        ensures
            r.wf(),
            r.toks() == crate::lexer::spec_tokens(lexer.spec_input(), lexer.spec_position()),
            r.pos() == 0,
            r.nerrs() == 0,
    {
        let mut lex = lexer;
        let tokens = lex.tokenize();
        proof {
            crate::lexer::lemma_spec_tokens_shape(lexer.spec_input(), lexer.spec_position());
        }
        Parser { tokens, position: 0, errors: Vec::new() }
    }

    /// The recorded parse errors; the parse is trustworthy only when this
    /// list is empty.
    pub fn errors(&mut self) -> (r: Vec<String>)
        ensures
            *final(self) == *old(self),
            r@.len() == old(self).nerrs(),
    {
        let mut r: Vec<String> = Vec::new();
        let mut i: usize = 0;
        while i < self.errors.len()
            invariant
                0 <= i <= self.errors@.len(),
                r@.len() == i,
                self == old(self),
            decreases self.errors@.len() - i,
        {
            r.push(self.errors[i].clone());
            i += 1;
        }
        r
    }

    /// Records one parse error.
    fn record_error(&mut self, msg: &str)
        ensures
            final(self).tokens == old(self).tokens,
            final(self).position == old(self).position,
            final(self).errors@.len() == old(self).errors@.len() + 1,
    {
        self.errors.push(msg.to_owned());
    }

    /// Records an expected-next-token error, named after what was expected.
    fn peek_error(&mut self, t: &Token)
        ensures
            final(self).tokens == old(self).tokens,
            final(self).position == old(self).position,
            final(self).errors@.len() == old(self).errors@.len() + 1,
    {
        match t {
            Token::Ident(_) => self.record_error("expected an identifier"),
            Token::Assign => self.record_error("expected an assignment sign"),
            Token::LParen => self.record_error("expected an opening parenthesis"),
            Token::RParen => self.record_error("expected a closing parenthesis"),
            Token::LBrace => self.record_error("expected an opening brace"),
            Token::RBrace => self.record_error("expected a closing brace"),
            Token::Semicolon => self.record_error("expected a semicolon"),
            Token::Comma => self.record_error("expected a comma"),
            _ => self.record_error("expected a different token"),
        }
    }

    /// Moves the cursor one token forward, saturating at the `EOF`
    /// sentinel.
    fn next_token(&mut self)
        requires
            old(self).wf(),
        ensures
            final(self).wf(),
            final(self).toks() == old(self).toks(),
            final(self).nerrs() == old(self).nerrs(),
            final(self).pos() == adv1(old(self).toks(), old(self).pos()),
    {
        let n = self.tokens.len();
        if self.position + 1 < n {
            self.position = self.position + 1;
        }
    }

    /// The current token.
    fn cur_token(&self) -> (t: &Token)
        requires
            self.wf(),
        ensures
            t@ == tok(self.toks(), self.pos()),
    {
        &self.tokens[self.position]
    }

    /// The token after the current one; at the end it is the `EOF`
    /// sentinel.
    fn peek_token(&self) -> (t: &Token)
        requires
            self.wf(),
        ensures
            t@ == tok(self.toks(), self.pos() + 1),
    {
        let n = self.tokens.len();
        if self.position + 1 < n {
            &self.tokens[self.position + 1]
        } else {
            &self.tokens[n - 1]
        }
    }

    /// Whether the current token is of the same kind as `t`.
    fn current_token_is(&self, t: &Token) -> (r: bool)
        requires
            self.wf(),
        ensures
            r == (tok_kind(tok(self.toks(), self.pos())) == tok_kind(t@)),
    {
        self.cur_token().kind() == t.kind()
    }

    /// Whether the next token is of the same kind as `t`.
    fn peek_token_is(&self, t: &Token) -> (r: bool)
        requires
            self.wf(),
        ensures
            r == (tok_kind(tok(self.toks(), self.pos() + 1)) == tok_kind(t@)),
    {
        self.peek_token().kind() == t.kind()
    }

    /// The binding power of the next token.
    fn peek_precedence(&self) -> (p: Precidence)
        requires
            self.wf(),
        ensures
            spec_prec_rank(p) == prec_of(tok(self.toks(), self.pos() + 1)),
    {
        Precidence::from(self.peek_token())
    }

    /// If the next token is of `t`'s kind, steps onto it; otherwise records
    /// an error and stays put.
    fn expect_peek_and_skip_token(&mut self, t: &Token) -> (r: bool)
        requires
            old(self).wf(),
        ensures
            final(self).wf(),
            final(self).toks() == old(self).toks(),
            r == (tok_kind(tok(old(self).toks(), old(self).pos() + 1)) == tok_kind(t@)),
            r ==> final(self).pos() == adv1(old(self).toks(), old(self).pos()) && final(self).nerrs() == old(self).nerrs(),
            !r ==> final(self).pos() == old(self).pos() && final(self).nerrs() == old(self).nerrs() + 1,
    {
        if self.peek_token_is(t) {
            self.next_token();
            true
        } else {
            self.peek_error(t);
            false
        }
    }

    /// Moves the cursor forward to the next semicolon or to the end of
    /// input: the boundary at which parsing resumes after a failed
    /// statement.
    #[verifier::loop_isolation(false)]
    fn synchronize(&mut self)
        requires
            old(self).wf(),
        ensures
            final(self).wf(),
            final(self).toks() == old(self).toks(),
            final(self).nerrs() == old(self).nerrs(),
            final(self).pos() == sync_pos(old(self).toks(), old(self).pos()),
            final(self).pos() >= old(self).pos(),
    {
        while !self.current_token_is(&Token::Semicolon) && !self.current_token_is(&Token::EOF)
            invariant
                self.wf(),
                self.toks() == old(self).toks(),
                self.nerrs() == old(self).nerrs(),
                self.pos() >= old(self).pos(),
                sync_pos(self.toks(), self.pos()) == sync_pos(old(self).toks(), old(self).pos()),
            decreases self.toks().len() - self.pos(),
        {
            proof {
                assert(!(self.toks()[self.pos()] is EOF));
                assert(self.pos() < self.toks().len() - 1);
            }
            self.next_token();
        }
    }

    /// Parses the whole input into a program, collecting errors as it
    /// goes; a statement that fails to parse is skipped up to the next
    /// boundary.
    #[verifier::loop_isolation(false)]
    #[verifier::rlimit(100)]
    #[verifier::spinoff_prover]
    pub fn parse_program(&mut self) -> (r: Option<Program>)
        requires
            old(self).wf(),
        ensures
            final(self).wf(),
            final(self).toks() == old(self).toks(),
            ({
                let (ss, n) = sp_program(old(self).toks(), old(self).pos());
                r matches Some(p) && crate::ast::stmts_view(p.statements@) == ss && final(self).nerrs() == old(self).nerrs() + n
            }),
    {
        reveal(sp_program);
        reveal(sp_statement);
        let ghost ts = self.toks();
        let ghost pos0 = self.pos();
        let ghost errs0 = self.nerrs();
        let mut statements: Vec<Statement> = Vec::new();
        while !self.current_token_is(&Token::EOF)
            invariant
                self.wf(),
                self.toks() == ts,
                self.pos() >= pos0,
                self.nerrs() >= errs0,
                ({
                    let (ss, n) = sp_program(ts, self.pos());
                    let (ss0, n0) = sp_program(ts, pos0);
                    ss0 == crate::ast::stmts_view(statements@) + ss && n0 == (self.nerrs() - errs0)
                        + n
                }),
            decreases self.toks().len() - self.pos(),
        {
            let ghost pre_pos = self.pos();
            let ghost pre_errs = self.nerrs();
            let ghost pre_stmts = statements@;
            let s = self.parse_statement();
            match s {
                Option::Some(st) => {
                    proof {
                        crate::ast::lemma_stmts_view_push(pre_stmts, st);
                    }
                    statements.push(st);
                },
                Option::None => {},
            }
            self.next_token();
            proof {
                reveal(sp_program);
                let (ss_pre, n_pre) = sp_program(ts, pre_pos);
                let (ss_now, n_now) = sp_program(ts, self.pos());
                assert(crate::ast::stmts_view(statements@) + ss_now =~= crate::ast::stmts_view(
                    pre_stmts,
                ) + ss_pre);
            }
        }
        proof {
            reveal(sp_program);
            assert(sp_program(ts, self.pos()).0 =~= Seq::<StmtV>::empty());
            assert(crate::ast::stmts_view(statements@) + Seq::<StmtV>::empty()
                =~= crate::ast::stmts_view(statements@));
        }
        Option::Some(Program { statements })
    }

    /// Parses one statement; on failure the cursor ends at the next
    /// boundary.
    #[verifier::rlimit(100)]
    #[verifier::spinoff_prover]
    fn parse_statement(&mut self) -> (r: Option<Statement>)
        requires
            old(self).wf(),
        ensures
            final(self).wf(),
            final(self).toks() == old(self).toks(),
            final(self).pos() >= old(self).pos(),
            ({
                let (ro, j, n) = sp_statement(old(self).toks(), old(self).pos());
                opt_stmt_rel(r, ro) && final(self).pos() == j && final(self).nerrs() == old(self).nerrs() + n
            }),
        decreases old(self).toks().len() - old(self).pos(), 6int,
    {
        reveal(sp_statement);
        let k = self.cur_token().kind();
        let r0: Option<Statement> = if k == 24 {
            match self.parse_let_statement() {
                Option::Some(l) => Option::Some(Statement::Let(l)),
                Option::None => Option::None,
            }
        } else if k == 27 {
            self.parse_return_statement()
        } else {
            self.parse_expression_statement()
        };
        match r0 {
            Option::Some(s) => Option::Some(s),
            Option::None => {
                self.synchronize();
                Option::None
            },
        }
    }

    /// Parses `let <name> = <value>`, with an optional trailing semicolon.
    #[verifier::rlimit(100)]
    #[verifier::spinoff_prover]
    fn parse_let_statement(&mut self) -> (r: Option<Let>)
        requires
            old(self).wf(),
            tok(old(self).toks(), old(self).pos()) is Let,
        ensures
            final(self).wf(),
            final(self).toks() == old(self).toks(),
            final(self).pos() >= old(self).pos(),
            ({
                let (ro, j, n) = sp_let_stmt(old(self).toks(), old(self).pos());
                (match r {
                    Option::Some(l) => ro == Option::Some(crate::ast::stmt_view(Statement::Let(l))),
                    Option::None => ro is None,
                }) && final(self).pos() == j && final(self).nerrs() == old(self).nerrs() + n
            }),
        decreases old(self).toks().len() - old(self).pos(), 5int,
    {
        reveal(sp_let_stmt);
        if !self.expect_peek_and_skip_token(&Token::Ident(String::new())) {
            return Option::None;
        }
        let ident_token = self.cur_token().duplicate();
        let identifier = Identifier::new(self.cur_token().duplicate());
        if !self.expect_peek_and_skip_token(&Token::Assign) {
            return Option::None;
        }
        self.next_token();
        let rv = self.parse_expression(Precidence::Lowest);
        let value = match rv {
            Option::Some(v) => v,
            Option::None => {
                return Option::None;
            },
        };
        if self.peek_token_is(&Token::Semicolon) {
            self.next_token();
        }
        Option::Some(Let::new(ident_token, identifier, value))
    }

    /// Parses `return <value>`, with an optional trailing semicolon.
    #[verifier::rlimit(100)]
    #[verifier::spinoff_prover]
    fn parse_return_statement(&mut self) -> (r: Option<Statement>)
        requires
            old(self).wf(),
            tok(old(self).toks(), old(self).pos()) is Return,
        ensures
            final(self).wf(),
            final(self).toks() == old(self).toks(),
            final(self).pos() >= old(self).pos(),
            ({
                let (ro, j, n) = sp_return_stmt(old(self).toks(), old(self).pos());
                opt_stmt_rel(r, ro) && final(self).pos() == j && final(self).nerrs() == old(self).nerrs() + n
            }),
        decreases old(self).toks().len() - old(self).pos(), 5int,
    {
        reveal(sp_return_stmt);
        let token = self.cur_token().duplicate();
        self.next_token();
        let rv = self.parse_expression(Precidence::Lowest);
        let value = match rv {
            Option::Some(v) => v,
            Option::None => {
                return Option::None;
            },
        };
        if self.peek_token_is(&Token::Semicolon) {
            self.next_token();
        }
        Option::Some(Statement::Return(Return::new(token, value)))
    }

    /// Parses a bare expression as a statement, with an optional trailing
    /// semicolon.
    #[verifier::rlimit(100)]
    #[verifier::spinoff_prover]
    fn parse_expression_statement(&mut self) -> (r: Option<Statement>)
        requires
            old(self).wf(),
        ensures
            final(self).wf(),
            final(self).toks() == old(self).toks(),
            final(self).pos() >= old(self).pos(),
            ({
                let (ro, j, n) = sp_expr_stmt(old(self).toks(), old(self).pos());
                opt_stmt_rel(r, ro) && final(self).pos() == j && final(self).nerrs() == old(self).nerrs() + n
            }),
        decreases old(self).toks().len() - old(self).pos(), 5int,
    {
        reveal(sp_expr_stmt);
        let rv = self.parse_expression(Precidence::Lowest);
        let expression = match rv {
            Option::Some(v) => v,
            Option::None => {
                return Option::None;
            },
        };
        if self.peek_token_is(&Token::Semicolon) {
            self.next_token();
        }
        Option::Some(Statement::Expression(expression))
    }

    /// Parses one expression at the given precedence floor.
    pub fn parse_expression(&mut self, precidence: Precidence) -> (r: Option<Expression>)
        requires
            old(self).wf(),
        ensures
            final(self).wf(),
            final(self).toks() == old(self).toks(),
            final(self).pos() >= old(self).pos(),
            ({
                let (ro, j, n) = sp_expression(
                    old(self).toks(),
                    old(self).pos(),
                    spec_prec_rank(precidence),
                );
                opt_expr_rel(r, ro) && final(self).pos() == j && final(self).nerrs() == old(self).nerrs() + n
            }),
        decreases old(self).toks().len() - old(self).pos(), 3int,
    {
        reveal(sp_expression);
        reveal(sp_prefix_part);
        reveal(sp_infix_loop);
        let rp = self.parse_prefix_part();
        match rp {
            Option::None => Option::None,
            Option::Some(left) => {
                let ghost leftv = left@;
                let ghost jmid = self.pos();
                let rr = self.parse_infix(left, precidence);
                proof {
                    assert(jmid >= old(self).pos() && jmid < old(self).toks().len());
                    assert(sp_expression(old(self).toks(), old(self).pos(), spec_prec_rank(precidence)).0
                        == sp_infix_loop(old(self).toks(), leftv, jmid, spec_prec_rank(precidence)).0);
                }
                rr
            },
        }
    }

    /// Parses the prefix part of an expression.
    #[verifier::rlimit(100)]
    #[verifier::spinoff_prover]
    fn parse_prefix_part(&mut self) -> (r: Option<Expression>)
        requires
            old(self).wf(),
        ensures
            final(self).wf(),
            final(self).toks() == old(self).toks(),
            final(self).pos() >= old(self).pos(),
            ({
                let (ro, j, n) = sp_prefix_part(old(self).toks(), old(self).pos());
                opt_expr_rel(r, ro) && final(self).pos() == j && final(self).nerrs() == old(self).nerrs() + n
            }),
        decreases old(self).toks().len() - old(self).pos(), 2int,
    {
        reveal(sp_prefix_part);
        let t = self.cur_token().duplicate();
        match &t {
            Token::Ident(_) => Option::Some(Expression::Identifier(t)),
            Token::Int(_) => Option::Some(Expression::Integer(t)),
            Token::String(_) => Option::Some(Expression::String(t)),
            Token::True => Option::Some(Expression::Boolean(t)),
            Token::False => Option::Some(Expression::Boolean(t)),
            Token::Bang => self.parse_prefix(),
            Token::Minus => self.parse_prefix(),
            Token::LParen => {
                self.next_token();
                let re = self.parse_expression(Precidence::Lowest);
                match re {
                    Option::None => Option::None,
                    Option::Some(e) => {
                        if self.expect_peek_and_skip_token(&Token::RParen) {
                            Option::Some(e)
                        } else {
                            Option::None
                        }
                    },
                }
            },
            Token::If => self.parse_if_expression(),
            Token::Function => self.parse_fn_expression(),
            _ => {
                self.record_error("no prefix parse rule for this token");
                Option::None
            },
        }
    }

    /// Parses `!` or `-` applied to an operand.
    fn parse_prefix(&mut self) -> (r: Option<Expression>)
        requires
            old(self).wf(),
            tok(old(self).toks(), old(self).pos()) is Bang || tok(
                old(self).toks(),
                old(self).pos(),
            ) is Minus,
        ensures
            final(self).wf(),
            final(self).toks() == old(self).toks(),
            final(self).pos() >= old(self).pos(),
            ({
                let (ro, j, n) = sp_prefix_op(old(self).toks(), old(self).pos());
                opt_expr_rel(r, ro) && final(self).pos() == j && final(self).nerrs() == old(self).nerrs() + n
            }),
        decreases old(self).toks().len() - old(self).pos(), 1int,
    {
        reveal(sp_prefix_op);
        reveal(sp_expression);
        let token = self.cur_token().duplicate();
        proof {
            assert(old(self).pos() < old(self).toks().len() - 1);
        }
        self.next_token();
        let rr = self.parse_expression(Precidence::Prefix);
        match rr {
            Option::None => Option::None,
            Option::Some(right) => Option::Some(
                Expression::Prefix(Box::new(PrefixExpression::new(token, right))),
            ),
        }
    }

    /// Parses `if (<cond>) { <consequence> }` with an optional `else`
    /// block.
    #[verifier::rlimit(100)]
    #[verifier::spinoff_prover]
    fn parse_if_expression(&mut self) -> (r: Option<Expression>)
        requires
            old(self).wf(),
            tok(old(self).toks(), old(self).pos()) is If,
        ensures
            final(self).wf(),
            final(self).toks() == old(self).toks(),
            final(self).pos() >= old(self).pos(),
            ({
                let (ro, j, n) = sp_if_expr(old(self).toks(), old(self).pos());
                opt_expr_rel(r, ro) && final(self).pos() == j && final(self).nerrs() == old(self).nerrs() + n
            }),
        decreases old(self).toks().len() - old(self).pos(), 1int,
    {
        reveal(sp_if_expr);
        if !self.expect_peek_and_skip_token(&Token::LParen) {
            return Option::None;
        }
        self.next_token();
        let rc = self.parse_expression(Precidence::Lowest);
        let condition = match rc {
            Option::Some(c) => c,
            Option::None => {
                return Option::None;
            },
        };
        if !self.expect_peek_and_skip_token(&Token::RParen) {
            return Option::None;
        }
        if !self.expect_peek_and_skip_token(&Token::LBrace) {
            return Option::None;
        }
        let consequence = self.parse_block_statement();
        let alternative: Option<BlockStatement> = if self.peek_token_is(&Token::Else) {
            self.next_token();
            if !self.expect_peek_and_skip_token(&Token::LBrace) {
                return Option::None;
            }
            Option::Some(self.parse_block_statement())
        } else {
            Option::None
        };
        Option::Some(
            Expression::If(
                Box::new(IfExpression::new(Token::If, condition, consequence, alternative)),
            ),
        )
    }

    /// Parses `fn(<parameters>) { <body> }`.
    #[verifier::rlimit(100)]
    #[verifier::spinoff_prover]
    fn parse_fn_expression(&mut self) -> (r: Option<Expression>)
        requires
            old(self).wf(),
            tok(old(self).toks(), old(self).pos()) is Function,
        ensures
            final(self).wf(),
            final(self).toks() == old(self).toks(),
            final(self).pos() >= old(self).pos(),
            ({
                let (ro, j, n) = sp_fn_expr(old(self).toks(), old(self).pos());
                opt_expr_rel(r, ro) && final(self).pos() == j && final(self).nerrs() == old(self).nerrs() + n
            }),
        decreases old(self).toks().len() - old(self).pos(), 1int,
    {
        reveal(sp_fn_expr);
        if !self.expect_peek_and_skip_token(&Token::LParen) {
            return Option::None;
        }
        let parameters: Option<Vec<Identifier>>;
        if self.peek_token_is(&Token::RParen) {
            self.next_token();
            parameters = Option::None;
        } else {
            self.next_token();
            let rp = self.parse_fn_parameters();
            match rp {
                Option::Some(ps) => {
                    parameters = Option::Some(ps);
                },
                Option::None => {
                    return Option::None;
                },
            }
            if !self.expect_peek_and_skip_token(&Token::RParen) {
                return Option::None;
            }
        }
        if !self.expect_peek_and_skip_token(&Token::LBrace) {
            return Option::None;
        }
        let body = self.parse_block_statement();
        Option::Some(Expression::Fn(Box::new(FnExpression::new(Token::Function, parameters, body))))
    }

    /// Parses a comma-separated identifier list.
    #[verifier::loop_isolation(false)]
    fn parse_fn_parameters(&mut self) -> (r: Option<Vec<Identifier>>)
        requires
            old(self).wf(),
        ensures
            final(self).wf(),
            final(self).toks() == old(self).toks(),
            final(self).pos() >= old(self).pos(),
            ({
                let (ro, j, n) = sp_fn_params(old(self).toks(), old(self).pos());
                (match r {
                    Option::Some(ps) => ro == Option::Some(crate::ast::idents_view(ps@)),
                    Option::None => ro is None,
                }) && final(self).pos() == j && final(self).nerrs() == old(self).nerrs() + n
            }),
        decreases old(self).toks().len() - old(self).pos(), 1int,
    {
        reveal(sp_fn_params);
        reveal(sp_fn_params_loop);
        let ghost ts = self.toks();
        let first = match self.cur_token() {
            Token::Ident(_) => self.cur_token().duplicate(),
            _ => {
                self.record_error("expected an identifier");
                return Option::None;
            },
        };
        let mut params: Vec<Identifier> = Vec::new();
        params.push(Identifier::new(first));
        let ghost start_pos = self.pos();
        let ghost errs0 = self.nerrs();
        proof {
            assert(crate::ast::idents_view(params@) =~= seq![
                IdentV { token: tok(ts, start_pos) },
            ]);
        }
        while self.peek_token_is(&Token::Comma)
            invariant
                self.wf(),
                self.toks() == ts,
                self.pos() >= start_pos,
                self.nerrs() == errs0,
                sp_fn_params_loop(ts, self.pos(), crate::ast::idents_view(params@))
                    == sp_fn_params_loop(ts, start_pos, seq![IdentV { token: tok(ts, start_pos) }]),
            decreases ts.len() - self.pos(),
        {
            let ghost pre_pos = self.pos();
            let ghost pre_ps = params@;
            self.next_token();
            self.next_token();
            match self.cur_token() {
                Token::Ident(_) => {},
                _ => {
                    self.record_error("expected an identifier");
                    return Option::None;
                },
            }
            let nt = self.cur_token().duplicate();
            params.push(Identifier::new(nt));
            proof {
                reveal(sp_fn_params_loop);
                assert(crate::ast::idents_view(params@) =~= crate::ast::idents_view(pre_ps).push(
                    IdentV { token: tok(ts, self.pos()) },
                ));
            }
        }
        Option::Some(params)
    }

    /// Parses a brace block: statements until the matching `}` or the end
    /// of input.
    #[verifier::loop_isolation(false)]
    #[verifier::rlimit(100)]
    #[verifier::spinoff_prover]
    fn parse_block_statement(&mut self) -> (r: BlockStatement)
        requires
            old(self).wf(),
            tok(old(self).toks(), old(self).pos()) is LBrace,
        ensures
            final(self).wf(),
            final(self).toks() == old(self).toks(),
            final(self).pos() >= old(self).pos(),
            ({
                let (bv, j, n) = sp_block(old(self).toks(), old(self).pos());
                crate::ast::block_view(r) == bv && final(self).pos() == j && final(self).nerrs()
                    == old(self).nerrs() + n
            }),
        decreases old(self).toks().len() - old(self).pos(), 4int,
    {
        reveal(sp_block);
        reveal(sp_block_loop);
        reveal(sp_statement);
        let ghost ts = self.toks();
        let token = Token::LBrace;
        self.next_token();
        let ghost p0 = self.pos();
        let ghost errs0 = self.nerrs();
        let mut statements: Vec<Statement> = Vec::new();
        while !self.current_token_is(&Token::RBrace) && !self.current_token_is(&Token::EOF)
            invariant
                self.wf(),
                self.toks() == ts,
                self.pos() >= p0,
                self.nerrs() >= errs0,
                ({
                    let (ss, k, n) = sp_block_loop(ts, self.pos());
                    let (ss0, k0, n0) = sp_block_loop(ts, p0);
                    ss0 == crate::ast::stmts_view(statements@) + ss && k0 == k && n0 == (
                    self.nerrs() - errs0) + n
                }),
            decreases ts.len() - self.pos(),
        {
            let ghost pre_pos = self.pos();
            let ghost pre_stmts = statements@;
            let s = self.parse_statement();
            match s {
                Option::Some(st) => {
                    proof {
                        crate::ast::lemma_stmts_view_push(pre_stmts, st);
                    }
                    statements.push(st);
                },
                Option::None => {},
            }
            self.next_token();
            proof {
                reveal(sp_block_loop);
                let (ss_pre, k_pre, n_pre) = sp_block_loop(ts, pre_pos);
                let (ss_now, k_now, n_now) = sp_block_loop(ts, self.pos());
                assert(crate::ast::stmts_view(statements@) + ss_now =~= crate::ast::stmts_view(
                    pre_stmts,
                ) + ss_pre);
            }
        }
        proof {
            reveal(sp_block_loop);
            assert(sp_block_loop(ts, self.pos()).0 =~= Seq::<StmtV>::empty());
            assert(crate::ast::stmts_view(statements@) + Seq::<StmtV>::empty()
                =~= crate::ast::stmts_view(statements@));
        }
        BlockStatement::new(token, statements)
    }

    /// Extends `left` with every infix operator binding tighter than the
    /// floor.
    #[verifier::rlimit(100)]
    #[verifier::spinoff_prover]
    fn parse_infix(&mut self, left: Expression, precidence: Precidence) -> (r: Option<
        Expression,
    >)
        requires
            old(self).wf(),
        ensures
            final(self).wf(),
            final(self).toks() == old(self).toks(),
            final(self).pos() >= old(self).pos(),
            ({
                let (ro, j, n) = sp_infix_loop(
                    old(self).toks(),
                    crate::ast::expr_view(left),
                    old(self).pos(),
                    spec_prec_rank(precidence),
                );
                opt_expr_rel(r, ro) && final(self).pos() == j && final(self).nerrs() == old(self).nerrs() + n
            }),
        decreases old(self).toks().len() - old(self).pos(), 0int,
    {
        reveal(sp_infix_loop);
        let peek_semi = self.peek_token_is(&Token::Semicolon);
        let pprec = self.peek_precedence();
        if !peek_semi && precidence.rank() < pprec.rank() {
            let peek_lparen = self.peek_token_is(&Token::LParen);
            if peek_lparen {
                self.next_token();
                let ra = self.parse_call_arguments();
                match ra {
                    Option::None => Option::None,
                    Option::Some(arguments) => {
                        let callexp = Expression::Call(
                            Box::new(CallExpression::new(Token::LParen, left, arguments)),
                        );
                        self.parse_infix(callexp, precidence)
                    },
                }
            } else {
                let op = self.peek_token().duplicate();
                self.next_token();
                self.next_token();
                let opprec = Precidence::from(&op);
                let rr = self.parse_expression(opprec);
                match rr {
                    Option::None => Option::None,
                    Option::Some(right) => {
                        let ie = Expression::Infix(Box::new(InfixExpression::new(left, op, right)));
                        self.parse_infix(ie, precidence)
                    },
                }
            }
        } else {
            Option::Some(left)
        }
    }

    /// Parses a call's argument list; the cursor sits on the `(`.
    #[verifier::loop_isolation(false)]
    #[verifier::rlimit(100)]
    #[verifier::spinoff_prover]
    fn parse_call_arguments(&mut self) -> (r: Option<Option<Vec<Expression>>>)
        requires
            old(self).wf(),
            tok(old(self).toks(), old(self).pos()) is LParen,
        ensures
            final(self).wf(),
            final(self).toks() == old(self).toks(),
            final(self).pos() >= old(self).pos(),
            ({
                let (ro, j, n) = sp_call_arguments(old(self).toks(), old(self).pos());
                (match r {
                    Option::Some(args) => ro == Option::Some(
                        match args {
                            Option::Some(a) => Option::Some(crate::ast::exprs_view(a@)),
                            Option::None => Option::None,
                        },
                    ),
                    Option::None => ro is None,
                }) && final(self).pos() == j && final(self).nerrs() == old(self).nerrs() + n
            }),
        decreases old(self).toks().len() - old(self).pos(), 1int,
    {
        reveal(sp_call_arguments);
        reveal(sp_call_args_loop);
        let ghost ts = self.toks();
        if self.peek_token_is(&Token::RParen) {
            self.next_token();
            return Option::Some(Option::None);
        }
        self.next_token();
        let re = self.parse_expression(Precidence::Lowest);
        let first = match re {
            Option::Some(e) => e,
            Option::None => {
                return Option::None;
            },
        };
        let mut args: Vec<Expression> = Vec::new();
        let ghost firstv = crate::ast::expr_view(first);
        args.push(first);
        let ghost start_pos = self.pos();
        let ghost errs0 = self.nerrs();
        proof {
            crate::ast::lemma_exprs_view_len(args@);
            assert(crate::ast::exprs_view(args@) =~= seq![firstv]);
        }
        while self.peek_token_is(&Token::Comma)
            invariant
                self.wf(),
                self.toks() == ts,
                self.pos() >= start_pos,
                self.nerrs() >= errs0,
                ({
                    let (ro, j, n) = sp_call_args_loop(ts, self.pos(), crate::ast::exprs_view(
                        args@,
                    ));
                    let (ro0, j0, n0) = sp_call_args_loop(ts, start_pos, seq![firstv]);
                    ro0 == ro && j0 == j && n0 == (self.nerrs() - errs0) + n
                }),
            decreases ts.len() - self.pos(),
        {
            let ghost pre_pos = self.pos();
            let ghost pre_args = args@;
            self.next_token();
            self.next_token();
            let rn = self.parse_expression(Precidence::Lowest);
            match rn {
                Option::Some(e) => {
                    proof {
                        reveal(sp_call_args_loop);
                        crate::ast::lemma_exprs_view_push(pre_args, e);
                    }
                    args.push(e);
                },
                Option::None => {
                    return Option::None;
                },
            }
        }
        if !self.expect_peek_and_skip_token(&Token::RParen) {
            return Option::None;
        }
        Option::Some(Option::Some(args))
    }
}

} // verus!
