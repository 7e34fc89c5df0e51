//! The tokens of the language, and their mathematical view.

use vstd::prelude::*;

verus! {

/// A lexical token. Literal tokens carry their decoded payload; every other
/// token is a bare tag.
#[derive(Debug, PartialEq, Eq, Clone, Hash)]
pub enum Token {
    Illegal,
    EOF,

    Ident(String),
    Int(isize),
    String(String),

    Assign,
    Plus,
    Minus,
    Bang,
    Asterisk,
    Slash,
    GreaterThan,
    LessThan,
    Equal,
    NotEqual,

    Comma,
    Semicolon,

    LParen,
    RParen,
    LBrace,
    RBrace,
    LBracket,
    RBracket,

    Function,
    Let,
    If,
    Else,
    Return,
    True,
    False,
}

/// The view of a token: payloads become sequences of characters and
/// unbounded integers.
pub ghost enum TokenV {
    Illegal,
    EOF,

    Ident(Seq<char>),
    Int(int),
    String(Seq<char>),

    Assign,
    Plus,
    Minus,
    Bang,
    Asterisk,
    Slash,
    GreaterThan,
    LessThan,
    Equal,
    NotEqual,

    Comma,
    Semicolon,

    LParen,
    RParen,
    LBrace,
    RBrace,
    LBracket,
    RBracket,

    Function,
    Let,
    If,
    Else,
    Return,
    True,
    False,
}

impl View for Token {
    type V = TokenV;

    open spec fn view(&self) -> TokenV {
        match self {
            Token::Illegal => TokenV::Illegal,
            Token::EOF => TokenV::EOF,
            Token::Ident(s) => TokenV::Ident(s@),
            Token::Int(i) => TokenV::Int(*i as int),
            Token::String(s) => TokenV::String(s@),
            Token::Assign => TokenV::Assign,
            Token::Plus => TokenV::Plus,
            Token::Minus => TokenV::Minus,
            Token::Bang => TokenV::Bang,
            Token::Asterisk => TokenV::Asterisk,
            Token::Slash => TokenV::Slash,
            Token::GreaterThan => TokenV::GreaterThan,
            Token::LessThan => TokenV::LessThan,
            Token::Equal => TokenV::Equal,
            Token::NotEqual => TokenV::NotEqual,
            Token::Comma => TokenV::Comma,
            Token::Semicolon => TokenV::Semicolon,
            Token::LParen => TokenV::LParen,
            Token::RParen => TokenV::RParen,
            Token::LBrace => TokenV::LBrace,
            Token::RBrace => TokenV::RBrace,
            Token::LBracket => TokenV::LBracket,
            Token::RBracket => TokenV::RBracket,
            Token::Function => TokenV::Function,
            Token::Let => TokenV::Let,
            Token::If => TokenV::If,
            Token::Else => TokenV::Else,
            Token::Return => TokenV::Return,
            Token::True => TokenV::True,
            Token::False => TokenV::False,
        }
    }
}

/// A small integer naming a token's variant, ignoring any payload.
pub open spec fn tok_kind(t: TokenV) -> int {
    match t {
        TokenV::Illegal => 0,
        TokenV::EOF => 1,
        TokenV::Ident(_) => 2,
        TokenV::Int(_) => 3,
        TokenV::String(_) => 4,
        TokenV::Assign => 5,
        TokenV::Plus => 6,
        TokenV::Minus => 7,
        TokenV::Bang => 8,
        TokenV::Asterisk => 9,
        TokenV::Slash => 10,
        TokenV::GreaterThan => 11,
        TokenV::LessThan => 12,
        TokenV::Equal => 13,
        TokenV::NotEqual => 14,
        TokenV::Comma => 15,
        TokenV::Semicolon => 16,
        TokenV::LParen => 17,
        TokenV::RParen => 18,
        TokenV::LBrace => 19,
        TokenV::RBrace => 20,
        TokenV::LBracket => 21,
        TokenV::RBracket => 22,
        TokenV::Function => 23,
        TokenV::Let => 24,
        TokenV::If => 25,
        TokenV::Else => 26,
        TokenV::Return => 27,
        TokenV::True => 28,
        TokenV::False => 29,
    }
}

/// The payload-free token whose `tok_kind` is `k`, for the kinds that carry
/// no payload.
pub open spec fn unit_token_of_kind(k: int) -> TokenV {
    if k == 0 {
        TokenV::Illegal
    } else if k == 1 {
        TokenV::EOF
    } else if k == 5 {
        TokenV::Assign
    } else if k == 6 {
        TokenV::Plus
    } else if k == 7 {
        TokenV::Minus
    } else if k == 8 {
        TokenV::Bang
    } else if k == 9 {
        TokenV::Asterisk
    } else if k == 10 {
        TokenV::Slash
    } else if k == 11 {
        TokenV::GreaterThan
    } else if k == 12 {
        TokenV::LessThan
    } else if k == 13 {
        TokenV::Equal
    } else if k == 14 {
        TokenV::NotEqual
    } else if k == 15 {
        TokenV::Comma
    } else if k == 16 {
        TokenV::Semicolon
    } else if k == 17 {
        TokenV::LParen
    } else if k == 18 {
        TokenV::RParen
    } else if k == 19 {
        TokenV::LBrace
    } else if k == 20 {
        TokenV::RBrace
    } else if k == 21 {
        TokenV::LBracket
    } else if k == 22 {
        TokenV::RBracket
    } else if k == 23 {
        TokenV::Function
    } else if k == 24 {
        TokenV::Let
    } else if k == 25 {
        TokenV::If
    } else if k == 26 {
        TokenV::Else
    } else if k == 27 {
        TokenV::Return
    } else if k == 28 {
        TokenV::True
    } else if k == 29 {
        TokenV::False
    } else {
        TokenV::Illegal
    }
}

/// The views of a sequence of tokens, elementwise.
pub open spec fn toks_view(ts: Seq<Token>) -> Seq<TokenV> {
    Seq::new(ts.len(), |i: int| ts[i]@)
}

/// Compares two strings by their character sequences.
pub fn string_eq(x: &String, y: &String) -> (r: bool)
    ensures
        r == (x@ == y@),
{
    x.eq(y)
}

/// A token that carries no payload is determined by its kind.
pub proof fn lemma_unit_token(t: TokenV)
    requires
        !(t is Ident),
        !(t is Int),
        !(t is String),
    ensures
        t == unit_token_of_kind(tok_kind(t)),
{
}

/// Compares two tokens for view equality; usable from verified code, unlike
/// the derived `==`.
pub fn token_eq(a: &Token, b: &Token) -> (r: bool)
    ensures
        r == (a@ == b@),
{
    let ka = a.kind();
    let kb = b.kind();
    if ka != kb {
        return false;
    }
    match (a, b) {
        (Token::Ident(x), Token::Ident(y)) => string_eq(x, y),
        (Token::Int(x), Token::Int(y)) => x == y,
        (Token::String(x), Token::String(y)) => string_eq(x, y),
        _ => {
            proof {
                lemma_unit_token(a@);
                lemma_unit_token(b@);
            }
            true
        },
    }
}

impl Token {
    /// The variant tag of this token, as `tok_kind` numbers them.
    pub fn kind(&self) -> (k: u32)
        ensures
            k as int == tok_kind(self@),
    {
        match self {
            Token::Illegal => 0,
            Token::EOF => 1,
            Token::Ident(_) => 2,
            Token::Int(_) => 3,
            Token::String(_) => 4,
            Token::Assign => 5,
            Token::Plus => 6,
            Token::Minus => 7,
            Token::Bang => 8,
            Token::Asterisk => 9,
            Token::Slash => 10,
            Token::GreaterThan => 11,
            Token::LessThan => 12,
            Token::Equal => 13,
            Token::NotEqual => 14,
            Token::Comma => 15,
            Token::Semicolon => 16,
            Token::LParen => 17,
            Token::RParen => 18,
            Token::LBrace => 19,
            Token::RBrace => 20,
            Token::LBracket => 21,
            Token::RBracket => 22,
            Token::Function => 23,
            Token::Let => 24,
            Token::If => 25,
            Token::Else => 26,
            Token::Return => 27,
            Token::True => 28,
            Token::False => 29,
        }
    }

    /// A deep copy whose view equals this token's view.
    pub fn duplicate(&self) -> (r: Token)
        ensures
            r@ == self@,
    {
        match self {
            Token::Illegal => Token::Illegal,
            Token::EOF => Token::EOF,
            Token::Ident(s) => Token::Ident(s.clone()),
            Token::Int(i) => Token::Int(*i),
            Token::String(s) => Token::String(s.clone()),
            Token::Assign => Token::Assign,
            Token::Plus => Token::Plus,
            Token::Minus => Token::Minus,
            Token::Bang => Token::Bang,
            Token::Asterisk => Token::Asterisk,
            Token::Slash => Token::Slash,
            Token::GreaterThan => Token::GreaterThan,
            Token::LessThan => Token::LessThan,
            Token::Equal => Token::Equal,
            Token::NotEqual => Token::NotEqual,
            Token::Comma => Token::Comma,
            Token::Semicolon => Token::Semicolon,
            Token::LParen => Token::LParen,
            Token::RParen => Token::RParen,
            Token::LBrace => Token::LBrace,
            Token::RBrace => Token::RBrace,
            Token::LBracket => Token::LBracket,
            Token::RBracket => Token::RBracket,
            Token::Function => Token::Function,
            Token::Let => Token::Let,
            Token::If => Token::If,
            Token::Else => Token::Else,
            Token::Return => Token::Return,
            Token::True => Token::True,
            Token::False => Token::False,
        }
    }
}

} // verus!
