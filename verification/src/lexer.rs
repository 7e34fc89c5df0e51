//! The lexer: a linear scanner turning source bytes into tokens.
//!
//! `spec_token_at` gives the token starting at a position and the position
//! after it; `spec_tokens` gives the whole token stream, ending in `EOF`.
//! The scanner reads bytes: a byte outside the ASCII range inside a string
//! literal is decoded as the replacement character. An identifier is a run
//! of ASCII letters and underscores; an integer literal too large for the
//! machine integer type is an `Illegal` token; a `NUL` byte ends the input.

use vstd::prelude::*;

use crate::token::{Token, TokenV};

verus! {

/// Relies on `String::push`: appends the given character to the end of the
/// string.
#[verifier::external_body]
fn push_char(s: &mut String, c: char)
    ensures
        final(s)@ == old(s)@.push(c),
{
    s.push(c);
}

/// The ASCII whitespace bytes: space, tab, line feed, form feed, carriage
/// return.
pub open spec fn is_ws(b: u8) -> bool {
    b == 32 || b == 9 || b == 10 || b == 12 || b == 13
}

/// The bytes that may form an identifier: ASCII letters and the underscore.
pub open spec fn is_word_byte(b: u8) -> bool {
    (97 <= b <= 122) || (65 <= b <= 90) || b == 95
}

pub open spec fn is_digit_byte(b: u8) -> bool {
    48 <= b <= 57
}

/// The character a single byte decodes to: itself in the ASCII range, the
/// replacement character beyond it.
pub open spec fn byte_char(b: u8) -> char {
    if b < 128 {
        b as char
    } else {
        '\u{FFFD}'
    }
}

/// A byte sequence decoded bytewise.
pub open spec fn ascii_str(s: Seq<u8>) -> Seq<char> {
    Seq::new(s.len(), |k: int| byte_char(s[k]))
}

/// The first position at or after `i` holding no whitespace.
pub open spec fn skip_ws(s: Seq<u8>, i: int) -> int
    decreases s.len() - i,
{
    if 0 <= i < s.len() && is_ws(s[i]) {
        skip_ws(s, i + 1)
    } else {
        i
    }
}

/// The end of the identifier run starting at `i`.
pub open spec fn word_end(s: Seq<u8>, i: int) -> int
    decreases s.len() - i,
{
    if 0 <= i < s.len() && is_word_byte(s[i]) {
        word_end(s, i + 1)
    } else {
        i
    }
}

/// The end of the digit run starting at `i`.
pub open spec fn digit_end(s: Seq<u8>, i: int) -> int
    decreases s.len() - i,
{
    if 0 <= i < s.len() && is_digit_byte(s[i]) {
        digit_end(s, i + 1)
    } else {
        i
    }
}

/// The first position at or after `i` holding a quote or a `NUL`, or the
/// end of input: where the string literal's content stops.
pub open spec fn string_end(s: Seq<u8>, i: int) -> int
    decreases s.len() - i,
{
    if 0 <= i < s.len() && s[i] != 39 && s[i] != 34 && s[i] != 0 {
        string_end(s, i + 1)
    } else {
        i
    }
}

/// The number a digit run denotes.
pub open spec fn digits_val(ds: Seq<u8>) -> int
    decreases ds,
{
    if ds.len() == 0 {
        0
    } else {
        digits_val(ds.drop_last()) * 10 + (ds.last() - 48)
    }
}

/// The token an identifier run denotes: a keyword where it matches one, an
/// identifier otherwise.
pub open spec fn keyword_of(w: Seq<u8>) -> TokenV {
    if w == seq![102u8, 110u8] {
        TokenV::Function
    } else if w == seq![108u8, 101u8, 116u8] {
        TokenV::Let
    } else if w == seq![114u8, 101u8, 116u8, 117u8, 114u8, 110u8] {
        TokenV::Return
    } else if w == seq![105u8, 102u8] {
        TokenV::If
    } else if w == seq![101u8, 108u8, 115u8, 101u8] {
        TokenV::Else
    } else if w == seq![116u8, 114u8, 117u8, 101u8] {
        TokenV::True
    } else if w == seq![102u8, 97u8, 108u8, 115u8, 101u8] {
        TokenV::False
    } else {
        TokenV::Ident(ascii_str(w))
    }
}

/// The token starting at position `pos`, and the position just after it.
pub open spec fn spec_token_at(s: Seq<u8>, pos: int) -> (TokenV, int) {
    let i = skip_ws(s, pos);
    if !(0 <= i < s.len()) {
        (TokenV::EOF, s.len() as int)
    } else {
        let c = s[i];
        if c == 61 {
            if i + 1 < s.len() && s[i + 1] == 61 {
                (TokenV::Equal, i + 2)
            } else {
                (TokenV::Assign, i + 1)
            }
        } else if c == 33 {
            if i + 1 < s.len() && s[i + 1] == 61 {
                (TokenV::NotEqual, i + 2)
            } else {
                (TokenV::Bang, i + 1)
            }
        } else if c == 59 {
            (TokenV::Semicolon, i + 1)
        } else if c == 40 {
            (TokenV::LParen, i + 1)
        } else if c == 41 {
            (TokenV::RParen, i + 1)
        } else if c == 44 {
            (TokenV::Comma, i + 1)
        } else if c == 43 {
            (TokenV::Plus, i + 1)
        } else if c == 123 {
            (TokenV::LBrace, i + 1)
        } else if c == 125 {
            (TokenV::RBrace, i + 1)
        } else if c == 91 {
            (TokenV::LBracket, i + 1)
        } else if c == 93 {
            (TokenV::RBracket, i + 1)
        } else if c == 45 {
            (TokenV::Minus, i + 1)
        } else if c == 42 {
            (TokenV::Asterisk, i + 1)
        } else if c == 47 {
            (TokenV::Slash, i + 1)
        } else if c == 60 {
            (TokenV::LessThan, i + 1)
        } else if c == 62 {
            (TokenV::GreaterThan, i + 1)
        } else if c == 0 {
            (TokenV::EOF, i + 1)
        } else if c == 39 || c == 34 {
            let j = string_end(s, i + 1);
            let t = TokenV::String(ascii_str(s.subrange(i + 1, j)));
            (
                t,
                if j < s.len() {
                    j + 1
                } else {
                    s.len() as int
                },
            )
        } else if is_word_byte(c) {
            let j = word_end(s, i);
            (keyword_of(s.subrange(i, j)), j)
        } else if is_digit_byte(c) {
            let j = digit_end(s, i);
            let v = digits_val(s.subrange(i, j));
            (
                if v <= isize::MAX as int {
                    TokenV::Int(v)
                } else {
                    TokenV::Illegal
                },
                j,
            )
        } else {
            (TokenV::Illegal, i + 1)
        }
    }
}

/// The whole token stream from position `i`, ending with a single `EOF`.
pub open spec fn spec_tokens(s: Seq<u8>, i: int) -> Seq<TokenV>
    decreases s.len() - i + 1,
{
    let (t, j) = spec_token_at(s, i);
    if t is EOF {
        seq![TokenV::EOF]
    } else if j <= i || j > s.len() {
        seq![TokenV::EOF]
    } else {
        seq![t] + spec_tokens(s, j)
    }
}

pub proof fn lemma_skip_ws_bounds(s: Seq<u8>, i: int)
    requires
        0 <= i <= s.len(),
    ensures
        i <= skip_ws(s, i) <= s.len(),
    decreases s.len() - i,
{
    if i < s.len() && is_ws(s[i]) {
        lemma_skip_ws_bounds(s, i + 1);
    }
}

pub proof fn lemma_word_end_bounds(s: Seq<u8>, i: int)
    requires
        0 <= i <= s.len(),
    ensures
        i <= word_end(s, i) <= s.len(),
    decreases s.len() - i,
{
    if i < s.len() && is_word_byte(s[i]) {
        lemma_word_end_bounds(s, i + 1);
    }
}

pub proof fn lemma_digit_end_bounds(s: Seq<u8>, i: int)
    requires
        0 <= i <= s.len(),
    ensures
        i <= digit_end(s, i) <= s.len(),
    decreases s.len() - i,
{
    if i < s.len() && is_digit_byte(s[i]) {
        lemma_digit_end_bounds(s, i + 1);
    }
}

pub proof fn lemma_string_end_bounds(s: Seq<u8>, i: int)
    requires
        0 <= i <= s.len(),
    ensures
        i <= string_end(s, i) <= s.len(),
    decreases s.len() - i,
{
    if i < s.len() && s[i] != 39 && s[i] != 34 && s[i] != 0 {
        lemma_string_end_bounds(s, i + 1);
    }
}

/// The stream ends with `EOF` and holds `EOF` nowhere else.
pub proof fn lemma_spec_tokens_shape(s: Seq<u8>, i: int)
    ensures
        spec_tokens(s, i).len() >= 1,
        spec_tokens(s, i).last() == TokenV::EOF,
        forall|k: int|
            0 <= k < spec_tokens(s, i).len() - 1 ==> !(#[trigger] spec_tokens(s, i)[k] is EOF),
    decreases s.len() - i + 1,
{
    let (t, j) = spec_token_at(s, i);
    if !(t is EOF) && i < j <= s.len() {
        lemma_spec_tokens_shape(s, j);
    }
}

// ------------------------------------------------------------------
// The executable lexer
// ------------------------------------------------------------------

/// The byte one would read at position `i`: zero at or past the end.
pub open spec fn ch_at(s: Seq<u8>, i: int) -> u8 {
    if 0 <= i < s.len() {
        s[i]
    } else {
        0
    }
}

pub struct Lexer {
    input: Vec<u8>,
    position: usize,
    ch: u8,
}

impl Lexer {
    /// The cursor sits inside the input (or one past it) and caches the
    /// byte under it.
    pub closed spec fn wf(&self) -> bool {
        &&& self.position <= self.input@.len()
        &&& self.ch == ch_at(self.input@, self.position as int)
    }

    pub closed spec fn spec_input(&self) -> Seq<u8> {
        self.input@
    }

    pub closed spec fn spec_position(&self) -> int {
        self.position as int
    }

    /// A lexer at the start of `input`.
    pub fn new(input: Vec<u8>) -> (r: Lexer)
        ensures
            r.wf(),
            r.spec_input() == input@,
            r.spec_position() == 0,
    {
        let ch: u8 = if input.len() > 0 {
            input[0]
        } else {
            0
        };
        Lexer { input, position: 0, ch }
    }

    /// Moves the cursor one byte forward, saturating at the end of input.
    fn read_char(&mut self)
        requires
            old(self).wf(),
        ensures
            final(self).wf(),
            final(self).spec_input() == old(self).spec_input(),
            old(self).position < old(self).input@.len() ==> final(self).position == old(
                self,
            ).position + 1,
            old(self).position == old(self).input@.len() ==> final(self).position == old(
                self,
            ).position,
    {
        if self.position < self.input.len() {
            self.position = self.position + 1;
            self.ch = if self.position < self.input.len() {
                self.input[self.position]
            } else {
                0
            };
        } else {
            self.ch = 0;
        }
    }

    /// The byte after the cursor, without moving it.
    fn peek_char(&self) -> (b: u8)
        requires
            self.wf(),
        ensures
            b == ch_at(self.spec_input(), self.spec_position() + 1),
    {
        if self.position < self.input.len() && self.position + 1 < self.input.len() {
            self.input[self.position + 1]
        } else {
            0
        }
    }

    /// Moves the cursor past any whitespace.
    #[verifier::loop_isolation(false)]
    fn skip_whitespace(&mut self)
        requires
            old(self).wf(),
        ensures
            final(self).wf(),
            final(self).spec_input() == old(self).spec_input(),
            final(self).spec_position() == skip_ws(old(self).spec_input(), old(self).spec_position()),
    {
        while self.position < self.input.len() && (self.ch == 32 || self.ch == 9 || self.ch == 10
            || self.ch == 12 || self.ch == 13)
            invariant
                self.wf(),
                self.input@ == old(self).input@,
                skip_ws(self.input@, self.position as int) == skip_ws(
                    old(self).input@,
                    old(self).position as int,
                ),
            decreases self.input@.len() - self.position,
        {
            self.read_char();
        }
    }

    /// Decodes `input[start..end]` bytewise into a string.
    #[verifier::loop_isolation(false)]
    fn string_from_bytes(&self, start: usize, end: usize) -> (r: String)
        requires
            start <= end <= self.input@.len(),
        ensures
            r@ == ascii_str(self.input@.subrange(start as int, end as int)),
    {
        let mut r = String::new();
        let mut k: usize = start;
        while k < end
            invariant
                start <= k <= end,
                r@ == ascii_str(self.input@.subrange(start as int, k as int)),
            decreases end - k,
        {
            let b = self.input[k];
            let c: char = if b < 128 {
                b as char
            } else {
                '\u{FFFD}'
            };
            push_char(&mut r, c);
            proof {
                assert(ascii_str(self.input@.subrange(start as int, k as int + 1)) =~= ascii_str(
                    self.input@.subrange(start as int, k as int),
                ).push(byte_char(self.input@[k as int])));
            }
            k += 1;
        }
        proof {
            assert(self.input@.subrange(start as int, k as int) =~= self.input@.subrange(
                start as int,
                end as int,
            ));
        }
        r
    }

    /// Scans an identifier run and yields its keyword or identifier token.
    #[verifier::loop_isolation(false)]
    fn read_identifier(&mut self) -> (t: Token)
        requires
            old(self).wf(),
        ensures
            final(self).wf(),
            final(self).spec_input() == old(self).spec_input(),
            final(self).spec_position() == word_end(old(self).spec_input(), old(self).spec_position()),
            t@ == keyword_of(
                old(self).spec_input().subrange(
                    old(self).spec_position(),
                    final(self).spec_position(),
                ),
            ),
    {
        let start = self.position;
        while self.position < self.input.len() && ((97 <= self.ch && self.ch <= 122) || (65
            <= self.ch && self.ch <= 90) || self.ch == 95)
            invariant
                self.wf(),
                self.input@ == old(self).input@,
                start <= self.position,
                word_end(self.input@, self.position as int) == word_end(
                    old(self).input@,
                    start as int,
                ),
            decreases self.input@.len() - self.position,
        {
            self.read_char();
        }
        let end = self.position;
        self.look_up_ident(start, end)
    }

    /// The token for the identifier bytes `input[start..end]`.
    fn look_up_ident(&self, start: usize, end: usize) -> (t: Token)
        requires
            start <= end <= self.input@.len(),
        ensures
            t@ == keyword_of(self.input@.subrange(start as int, end as int)),
    {
        let ghost w = self.input@.subrange(start as int, end as int);
        let n = end - start;
        if n == 2 && self.input[start] == 102u8 && self.input[start + 1] == 110u8 {
            proof {
                assert(w =~= seq![102u8, 110u8]);
            }
            Token::Function
        } else if n == 3 && self.input[start] == 108u8 && self.input[start + 1] == 101u8
            && self.input[start + 2] == 116u8 {
            proof {
                assert(w =~= seq![108u8, 101u8, 116u8]);
            }
            Token::Let
        } else if n == 6 && self.input[start] == 114u8 && self.input[start + 1] == 101u8
            && self.input[start + 2] == 116u8 && self.input[start + 3] == 117u8 && self.input[start
            + 4] == 114u8 && self.input[start + 5] == 110u8 {
            proof {
                assert(w =~= seq![114u8, 101u8, 116u8, 117u8, 114u8, 110u8]);
            }
            Token::Return
        } else if n == 2 && self.input[start] == 105u8 && self.input[start + 1] == 102u8 {
            proof {
                assert(w =~= seq![105u8, 102u8]);
            }
            Token::If
        } else if n == 4 && self.input[start] == 101u8 && self.input[start + 1] == 108u8
            && self.input[start + 2] == 115u8 && self.input[start + 3] == 101u8 {
            proof {
                assert(w =~= seq![101u8, 108u8, 115u8, 101u8]);
            }
            Token::Else
        } else if n == 4 && self.input[start] == 116u8 && self.input[start + 1] == 114u8
            && self.input[start + 2] == 117u8 && self.input[start + 3] == 101u8 {
            proof {
                assert(w =~= seq![116u8, 114u8, 117u8, 101u8]);
            }
            Token::True
        } else if n == 5 && self.input[start] == 102u8 && self.input[start + 1] == 97u8
            && self.input[start + 2] == 108u8 && self.input[start + 3] == 115u8 && self.input[start
            + 4] == 101u8 {
            proof {
                assert(w =~= seq![102u8, 97u8, 108u8, 115u8, 101u8]);
            }
            Token::False
        } else {
            proof {
                assert(w != seq![102u8, 110u8]);
                assert(w != seq![108u8, 101u8, 116u8]);
                assert(w != seq![114u8, 101u8, 116u8, 117u8, 114u8, 110u8]);
                assert(w != seq![105u8, 102u8]);
                assert(w != seq![101u8, 108u8, 115u8, 101u8]);
                assert(w != seq![116u8, 114u8, 117u8, 101u8]);
                assert(w != seq![102u8, 97u8, 108u8, 115u8, 101u8]);
            }
            Token::Ident(self.string_from_bytes(start, end))
        }
    }

    /// Scans a string literal's content up to the closing quote, `NUL`, or
    /// the end of input, and moves past the closer.
    #[verifier::loop_isolation(false)]
    fn read_string(&mut self) -> (r: String)
        requires
            old(self).wf(),
            old(self).spec_position() < old(self).spec_input().len(),
        ensures
            final(self).wf(),
            final(self).spec_input() == old(self).spec_input(),
            ({
                let j = string_end(old(self).spec_input(), old(self).spec_position() + 1);
                r@ == ascii_str(old(self).spec_input().subrange(old(self).spec_position() + 1, j))
                    && final(self).spec_position() == (if j < old(self).spec_input().len() {
                    j + 1
                } else {
                    old(self).spec_input().len() as int
                })
            }),
            final(self).spec_position() > old(self).spec_position(),
    {
        self.read_char();
        let start = self.position;
        while self.position < self.input.len() && self.ch != 39 && self.ch != 34 && self.ch != 0
            invariant
                self.wf(),
                self.input@ == old(self).input@,
                start <= self.position,
                string_end(self.input@, self.position as int) == string_end(
                    old(self).input@,
                    start as int,
                ),
            decreases self.input@.len() - self.position,
        {
            self.read_char();
        }
        let end = self.position;
        let r = self.string_from_bytes(start, end);
        self.read_char();
        r
    }

    /// Scans a digit run; too large a number is an `Illegal` token.
    #[verifier::loop_isolation(false)]
    fn read_number(&mut self) -> (t: Token)
        requires
            old(self).wf(),
        ensures
            final(self).wf(),
            final(self).spec_input() == old(self).spec_input(),
            final(self).spec_position() == digit_end(
                old(self).spec_input(),
                old(self).spec_position(),
            ),
            ({
                let v = digits_val(
                    old(self).spec_input().subrange(
                        old(self).spec_position(),
                        final(self).spec_position(),
                    ),
                );
                t@ == (if v <= isize::MAX as int {
                    TokenV::Int(v)
                } else {
                    TokenV::Illegal
                })
            }),
    {
        let start = self.position;
        let mut acc: Option<isize> = Option::Some(0);
        proof {
            assert(self.input@.subrange(start as int, start as int) =~= Seq::<u8>::empty());
        }
        while self.position < self.input.len() && 48 <= self.ch && self.ch <= 57
            invariant
                self.wf(),
                self.input@ == old(self).input@,
                start <= self.position,
                forall|k: int|
                    start <= k < self.position ==> is_digit_byte(#[trigger] self.input@[k]),
                digit_end(self.input@, self.position as int) == digit_end(
                    old(self).input@,
                    start as int,
                ),
                ({
                    let v = digits_val(self.input@.subrange(start as int, self.position as int));
                    match acc {
                        Option::Some(a) => a as int == v && a >= 0,
                        Option::None => v > isize::MAX as int,
                    }
                }),
            decreases self.input@.len() - self.position,
        {
            let d = self.ch;
            let ghost pre = self.input@.subrange(start as int, self.position as int);
            acc = match acc {
                Option::Some(a) => {
                    match a.checked_mul(10) {
                        Option::Some(m) => {
                            match m.checked_add((d - 48) as isize) {
                                Option::Some(v) => Option::Some(v),
                                Option::None => Option::None,
                            }
                        },
                        Option::None => Option::None,
                    }
                },
                Option::None => Option::None,
            };
            self.read_char();
            proof {
                let cur = self.input@.subrange(start as int, self.position as int);
                assert(cur.drop_last() =~= pre);
                assert(cur.last() == d);
            }
        }
        let end = self.position;
        match acc {
            Option::Some(v) => Token::Int(v),
            Option::None => Token::Illegal,
        }
    }

    /// The next token of the stream, and the cursor moves past it.
    pub fn next_token(&mut self) -> (t: Token)
        requires
            old(self).wf(),
        ensures
            final(self).wf(),
            final(self).spec_input() == old(self).spec_input(),
            ({
                let (tv, j) = spec_token_at(old(self).spec_input(), old(self).spec_position());
                t@ == tv && final(self).spec_position() == j
            }),
            final(self).spec_position() >= old(self).spec_position() || final(self).spec_position()
                == old(self).spec_input().len(),
            !(t@ is EOF) ==> final(self).spec_position() > old(self).spec_position(),
    {
        self.skip_whitespace();
        proof {
            lemma_skip_ws_bounds(old(self).spec_input(), old(self).spec_position());
        }
        if self.position == self.input.len() {
            return Token::EOF;
        }
        proof {
            let s = self.input@;
            let i = self.position as int;
            lemma_word_end_bounds(s, i + 1);
            lemma_digit_end_bounds(s, i + 1);
            lemma_string_end_bounds(s, i + 1);
        }
        let c = self.ch;
        if c == 61 {
            if self.peek_char() == 61 {
                self.read_char();
                self.read_char();
                Token::Equal
            } else {
                self.read_char();
                Token::Assign
            }
        } else if c == 33 {
            if self.peek_char() == 61 {
                self.read_char();
                self.read_char();
                Token::NotEqual
            } else {
                self.read_char();
                Token::Bang
            }
        } else if c == 59 {
            self.read_char();
            Token::Semicolon
        } else if c == 40 {
            self.read_char();
            Token::LParen
        } else if c == 41 {
            self.read_char();
            Token::RParen
        } else if c == 44 {
            self.read_char();
            Token::Comma
        } else if c == 43 {
            self.read_char();
            Token::Plus
        } else if c == 123 {
            self.read_char();
            Token::LBrace
        } else if c == 125 {
            self.read_char();
            Token::RBrace
        } else if c == 91 {
            self.read_char();
            Token::LBracket
        } else if c == 93 {
            self.read_char();
            Token::RBracket
        } else if c == 45 {
            self.read_char();
            Token::Minus
        } else if c == 42 {
            self.read_char();
            Token::Asterisk
        } else if c == 47 {
            self.read_char();
            Token::Slash
        } else if c == 60 {
            self.read_char();
            Token::LessThan
        } else if c == 62 {
            self.read_char();
            Token::GreaterThan
        } else if c == 0 {
            self.read_char();
            Token::EOF
        } else if c == 39 || c == 34 {
            Token::String(self.read_string())
        } else if (97 <= c && c <= 122) || (65 <= c && c <= 90) || c == 95 {
            self.read_identifier()
        } else if 48 <= c && c <= 57 {
            self.read_number()
        } else {
            self.read_char();
            Token::Illegal
        }
    }

    /// Runs the lexer to the end of input and collects the whole stream,
    /// `EOF` sentinel included.
    #[verifier::loop_isolation(false)]
    pub fn tokenize(&mut self) -> (ts: Vec<Token>)
        requires
            old(self).wf(),
        ensures
            final(self).wf(),
            crate::token::toks_view(ts@) == spec_tokens(
                old(self).spec_input(),
                old(self).spec_position(),
            ),
    {
        let ghost s = self.input@;
        let ghost pos0 = self.position as int;
        let mut ts: Vec<Token> = Vec::new();
        let mut done: bool = false;
        while !done
            invariant
                self.wf(),
                self.input@ == s,
                !done ==> crate::token::toks_view(ts@) + spec_tokens(s, self.position as int)
                    == spec_tokens(s, pos0),
                !done ==> forall|k: int|
                    0 <= k < ts@.len() ==> !((#[trigger] ts@[k])@ is EOF),
                done ==> crate::token::toks_view(ts@) == spec_tokens(s, pos0),
            decreases s.len() + 1 - self.position + (if done {
                0int
            } else {
                1int
            }),
        {
            let ghost prev_pos = self.position as int;
            let t = self.next_token();
            let is_eof = match &t {
                Token::EOF => true,
                _ => false,
            };
            let ghost old_ts = ts@;
            ts.push(t);
            proof {
                assert(crate::token::toks_view(ts@) =~= crate::token::toks_view(old_ts).push(
                    spec_token_at(s, prev_pos).0,
                ));
                if is_eof {
                    assert(spec_tokens(s, prev_pos) =~= seq![TokenV::EOF]);
                    assert(crate::token::toks_view(ts@) =~= spec_tokens(s, pos0));
                } else {
                    assert(spec_tokens(s, prev_pos) =~= seq![spec_token_at(s, prev_pos).0]
                        + spec_tokens(s, self.position as int));
                    assert(crate::token::toks_view(ts@) + spec_tokens(s, self.position as int)
                        =~= spec_tokens(s, pos0));
                }
            }
            if is_eof {
                done = true;
            }
        }
        ts
    }
}

} // verus!
