//! The lexer: turns source text into a flat token stream, one token per
//! call. It never fails; it only degrades gracefully: whitespace carries no
//! token, malformed numeric text silently reads as 0, an unterminated string
//! runs to the end of the input, a character literal tolerates a missing
//! closing quote, and any byte that matches no production is skipped.
//! Repeated calls at the end of the input keep returning `Eof`.
//!
//! The exact token at every position is pinned down by [`sp_next_token`],
//! and the whole stream by [`sp_tokens_from`].
use crate::chars::char_is_alphabetic;
use crate::chars::char_is_alphanumeric;
use crate::chars::char_is_dec_digit;
use crate::chars::char_is_hex_digit;
use crate::chars::char_is_numeric;
use crate::chars::char_is_whitespace;
use crate::chars::is_dec_digit;
use crate::chars::is_hex_digit;
use crate::chars::is_unicode_alphabetic;
use crate::chars::is_unicode_numeric;
use crate::chars::is_unicode_whitespace;
use crate::chars::push_char;
use crate::chars::str_eq_str;
use crate::chars::str_to_chars;
use crate::numbers::parse_int;
use crate::numbers::parsed_int;
use vstd::prelude::*;

verus! {

/// One lexical token. `fn` is the only reserved word.
#[derive(Debug, PartialEq, Clone)]
pub enum Token {
    Fn,
    Ident(String),
    Number(i64),
    Str(String),
    Char(char),
    LParen,
    RParen,
    LBrace,
    RBrace,
    Comma,
    Semicolon,
    Eof,
}

pub enum TokV {
    Fn,
    Ident(Seq<char>),
    Number(i64),
    Str(Seq<char>),
    Char(char),
    LParen,
    RParen,
    LBrace,
    RBrace,
    Comma,
    Semicolon,
    Eof,
}

impl View for Token {
    type V = TokV;

    open spec fn view(&self) -> TokV {
        match self {
            Token::Fn => TokV::Fn,
            Token::Ident(s) => TokV::Ident(s@),
            Token::Number(n) => TokV::Number(*n),
            Token::Str(s) => TokV::Str(s@),
            Token::Char(c) => TokV::Char(*c),
            Token::LParen => TokV::LParen,
            Token::RParen => TokV::RParen,
            Token::LBrace => TokV::LBrace,
            Token::RBrace => TokV::RBrace,
            Token::Comma => TokV::Comma,
            Token::Semicolon => TokV::Semicolon,
            Token::Eof => TokV::Eof,
        }
    }
}

/// A character that may continue an identifier.
pub open spec fn is_ident_cont(c: char) -> bool {
    is_unicode_alphabetic(c) || is_unicode_numeric(c) || c == '_'
}

/// A character that may continue a numeric literal (the lexer gathers hex
/// digits and `x`/`X` markers greedily; validity is judged when the text is
/// read as a value).
pub open spec fn is_num_cont(c: char) -> bool {
    is_hex_digit(c) || is_dec_digit(c) || c == 'x' || c == 'X'
}

/// The first position at or after `i` whose character fails `pred`, or the
/// end of the input.
pub open spec fn sp_run_end(s: Seq<char>, i: int, pred: spec_fn(char) -> bool) -> int
    decreases s.len() - i,
    when 0 <= i <= s.len()
{
    if i == s.len() {
        i
    } else if pred(s[i]) {
        sp_run_end(s, i + 1, pred)
    } else {
        i
    }
}

pub proof fn lemma_run_end(s: Seq<char>, i: int, pred: spec_fn(char) -> bool)
    requires
        0 <= i <= s.len(),
    ensures
        i <= sp_run_end(s, i, pred) <= s.len(),
        sp_run_end(s, i, pred) < s.len() ==> !pred(s[sp_run_end(s, i, pred)]),
        forall|j: int| i <= j < sp_run_end(s, i, pred) ==> pred(#[trigger] s[j]),
    decreases s.len() - i,
{
    if i < s.len() && pred(s[i]) {
        lemma_run_end(s, i + 1, pred);
    }
}

/// The content and end position of a string literal being read at `i` (just
/// past the opening quote): characters accumulate until a closing quote or
/// the end of the input; a backslash escapes `n`, `r` and `t`, and hands any
/// other character through unchanged.
pub open spec fn sp_read_string(s: Seq<char>, i: int) -> (Seq<char>, int)
    decreases s.len() - i,
    when 0 <= i <= s.len()
{
    if i == s.len() {
        (Seq::empty(), i)
    } else if s[i] == '"' {
        (Seq::empty(), i + 1)
    } else if s[i] == '\\' {
        if i + 1 == s.len() {
            (Seq::empty(), i + 1)
        } else {
            let e = s[i + 1];
            let c = if e == 'n' {
                '\n'
            } else if e == 'r' {
                '\r'
            } else if e == 't' {
                '\t'
            } else {
                e
            };
            let r = sp_read_string(s, i + 2);
            (seq![c] + r.0, r.1)
        }
    } else {
        let r = sp_read_string(s, i + 1);
        (seq![s[i]] + r.0, r.1)
    }
}

pub proof fn lemma_read_string_bounds(s: Seq<char>, i: int)
    requires
        0 <= i <= s.len(),
    ensures
        i <= sp_read_string(s, i).1 <= s.len(),
    decreases s.len() - i,
{
    if i < s.len() && s[i] != '"' {
        if s[i] == '\\' {
            if i + 1 < s.len() {
                lemma_read_string_bounds(s, i + 2);
            }
        } else {
            lemma_read_string_bounds(s, i + 1);
        }
    }
}

/// The tolerant value of a numeric literal's text: `0x`/`0X` followed by hex
/// digits reads in base 16, anything else in base 10; malformed or
/// overflowing text reads as 0.
pub open spec fn sp_number_value(text: Seq<char>) -> i64 {
    if text.len() >= 2 && text[0] == '0' && (text[1] == 'x' || text[1] == 'X') {
        parsed_int(text.skip(2), 16, i64::MAX as int) as i64
    } else {
        parsed_int(text, 10, i64::MAX as int) as i64
    }
}

/// The token beginning at position `pos` (whitespace and unmatched bytes
/// skipped) and the position just past it.
pub open spec fn sp_next_token(s: Seq<char>, pos: int) -> (TokV, int)
    decreases s.len() - pos,
    when 0 <= pos <= s.len()
{
    let i = sp_run_end(s, pos, |c: char| is_unicode_whitespace(c));
    proof {
        lemma_run_end(s, pos, |c: char| is_unicode_whitespace(c));
    }
    if i == s.len() {
        (TokV::Eof, i)
    } else {
        let c = s[i];
        let j = i + 1;
        if c == '(' {
            (TokV::LParen, j)
        } else if c == ')' {
            (TokV::RParen, j)
        } else if c == '{' {
            (TokV::LBrace, j)
        } else if c == '}' {
            (TokV::RBrace, j)
        } else if c == ',' {
            (TokV::Comma, j)
        } else if c == ';' {
            (TokV::Semicolon, j)
        } else if c == '"' {
            let r = sp_read_string(s, j);
            (TokV::Str(r.0), r.1)
        } else if c == '\'' {
            if j == s.len() {
                (TokV::Eof, j)
            } else {
                let q = if j + 1 < s.len() {
                    j + 2
                } else {
                    j + 1
                };
                (TokV::Char(s[j]), q)
            }
        } else if is_unicode_numeric(c) {
            let e = sp_run_end(s, j, |c2: char| is_num_cont(c2));
            (TokV::Number(sp_number_value(seq![c] + s.subrange(j, e))), e)
        } else if is_unicode_alphabetic(c) || c == '_' {
            let e = sp_run_end(s, j, |c2: char| is_ident_cont(c2));
            let text = seq![c] + s.subrange(j, e);
            if text == "fn"@ {
                (TokV::Fn, e)
            } else {
                (TokV::Ident(text), e)
            }
        } else {
            sp_next_token(s, j)
        }
    }
}

/// A token is read from within the input, never from beyond it, and every
/// token but `Eof` consumes at least one character.
pub proof fn lemma_next_token_bounds(s: Seq<char>, pos: int)
    requires
        0 <= pos <= s.len(),
    ensures
        pos <= sp_next_token(s, pos).1 <= s.len(),
        !(sp_next_token(s, pos).0 is Eof) ==> sp_next_token(s, pos).1 > pos,
    decreases s.len() - pos,
{
    let ws = |c: char| is_unicode_whitespace(c);
    lemma_run_end(s, pos, ws);
    let i = sp_run_end(s, pos, ws);
    if i < s.len() {
        let c = s[i];
        let j = i + 1;
        if c == '(' || c == ')' || c == '{' || c == '}' || c == ',' || c == ';' {
        } else if c == '"' {
            lemma_read_string_bounds(s, j);
        } else if c == '\'' {
        } else if is_unicode_numeric(c) {
            lemma_run_end(s, j, |c2: char| is_num_cont(c2));
        } else if is_unicode_alphabetic(c) || c == '_' {
            lemma_run_end(s, j, |c2: char| is_ident_cont(c2));
        } else {
            lemma_next_token_bounds(s, j);
        }
    }
}

/// The whole token stream from position `pos` on: every token up to, and
/// not including, the `Eof` that follows them.
pub open spec fn sp_tokens_from(s: Seq<char>, pos: int) -> Seq<TokV>
    decreases s.len() - pos,
    when 0 <= pos <= s.len()
{
    let r = sp_next_token(s, pos);
    proof {
        lemma_next_token_bounds(s, pos);
    }
    if r.0 is Eof {
        Seq::empty()
    } else {
        seq![r.0] + sp_tokens_from(s, r.1)
    }
}

/// The token stream of a whole source text.
pub open spec fn sp_tokens(s: Seq<char>) -> Seq<TokV> {
    sp_tokens_from(s, 0)
}

/// The lexer: the characters of the source and a cursor.
pub struct Lexer {
    pub chars: Vec<char>,
    pub pos: usize,
}

impl Lexer {
    /// The cursor never leaves the input.
    pub open spec fn wf(self) -> bool {
        self.pos <= self.chars@.len()
    }

    /// A lexer at the start of the source text.
    pub fn new(src: &str) -> (r: Lexer)
        ensures
            r.chars@ == src@,
            r.pos == 0,
            r.wf(),
    {
        Lexer { chars: str_to_chars(src), pos: 0 }
    }

    /// Advances the cursor past the whitespace run at the cursor.
    #[verifier::loop_isolation(false)]
    fn skip_whitespace(&mut self)
        requires
            old(self).wf(),
        ensures
            final(self).chars == old(self).chars,
            final(self).pos as int == sp_run_end(
                old(self).chars@,
                old(self).pos as int,
                |c: char| is_unicode_whitespace(c),
            ),
            final(self).wf(),
    {
        let ghost ws = |c: char| is_unicode_whitespace(c);
        let n = self.chars.len();
        while self.pos < n && char_is_whitespace(self.chars[self.pos])
            invariant
                self.pos <= n,
                n == self.chars@.len(),
                self.chars == old(self).chars,
                sp_run_end(self.chars@, old(self).pos as int, ws) == sp_run_end(
                    self.chars@,
                    self.pos as int,
                    ws,
                ),
            decreases n - self.pos,
        {
            self.pos = self.pos + 1;
        }
    }

    /// Reads the identifier that began with `first`, gathering letters,
    /// digits and underscores.
    #[verifier::loop_isolation(false)]
    fn read_identifier(&mut self, first: char) -> (r: String)
        requires
            old(self).wf(),
        ensures
            final(self).chars == old(self).chars,
            final(self).wf(),
            final(self).pos as int == sp_run_end(
                old(self).chars@,
                old(self).pos as int,
                |c: char| is_ident_cont(c),
            ),
            r@ == seq![first] + old(self).chars@.subrange(
                old(self).pos as int,
                final(self).pos as int,
            ),
    {
        let ghost pred = |c: char| is_ident_cont(c);
        let mut s = String::new();
        push_char(&mut s, first);
        let n = self.chars.len();
        loop
            invariant
                self.pos <= n,
                n == self.chars@.len(),
                old(self).pos <= self.pos,
                self.chars == old(self).chars,
                sp_run_end(self.chars@, old(self).pos as int, pred) == sp_run_end(
                    self.chars@,
                    self.pos as int,
                    pred,
                ),
                s@ == seq![first] + self.chars@.subrange(old(self).pos as int, self.pos as int),
            decreases n - self.pos,
        {
            if self.pos == n {
                return s;
            }
            let c = self.chars[self.pos];
            let cont = char_is_alphanumeric(c) || c == '_';
            proof {
                assert(cont == pred(self.chars@[self.pos as int]));
            }
            if !cont {
                return s;
            }
            push_char(&mut s, c);
            self.pos = self.pos + 1;
            proof {
                assert(s@ =~= seq![first] + self.chars@.subrange(
                    old(self).pos as int,
                    self.pos as int,
                ));
            }
        }
    }

    /// Reads the numeric literal that began with `first` and returns its
    /// tolerant value: malformed or overflowing text reads as 0.
    #[verifier::loop_isolation(false)]
    fn read_number(&mut self, first: char) -> (r: i64)
        requires
            old(self).wf(),
        ensures
            final(self).chars == old(self).chars,
            final(self).wf(),
            final(self).pos as int == sp_run_end(
                old(self).chars@,
                old(self).pos as int,
                |c: char| is_num_cont(c),
            ),
            r == sp_number_value(
                seq![first] + old(self).chars@.subrange(old(self).pos as int, final(self).pos as int),
            ),
    {
        let ghost pred = |c: char| is_num_cont(c);
        let mut text: Vec<char> = Vec::new();
        text.push(first);
        let n = self.chars.len();
        loop
            invariant
                self.pos <= n,
                n == self.chars@.len(),
                old(self).pos <= self.pos,
                self.chars == old(self).chars,
                sp_run_end(self.chars@, old(self).pos as int, pred) == sp_run_end(
                    self.chars@,
                    self.pos as int,
                    pred,
                ),
                text@ == seq![first] + self.chars@.subrange(old(self).pos as int, self.pos as int),
            decreases n - self.pos,
        {
            if self.pos == n {
                break ;
            }
            let c = self.chars[self.pos];
            let cont = char_is_hex_digit(c) || char_is_dec_digit(c) || c == 'x' || c == 'X';
            proof {
                assert(cont == pred(self.chars@[self.pos as int]));
            }
            if !cont {
                break ;
            }
            text.push(c);
            self.pos = self.pos + 1;
            proof {
                assert(text@ =~= seq![first] + self.chars@.subrange(
                    old(self).pos as int,
                    self.pos as int,
                ));
            }
        }
        let ghost whole = text@;
        if text.len() >= 2 {
            let c0 = text[0];
            let c1 = text[1];
            if c0 == '0' && (c1 == 'x' || c1 == 'X') {
                let v = parse_int(&text, 2, 16, 0x7fff_ffff_ffff_ffff);
                proof {
                    assert(whole.skip(2) =~= whole.subrange(2, whole.len() as int));
                }
                return v as i64;
            }
        }
        let v = parse_int(&text, 0, 10, 0x7fff_ffff_ffff_ffff);
        proof {
            assert(whole.subrange(0, whole.len() as int) =~= whole);
        }
        v as i64
    }

    /// Reads a string literal from just past its opening quote to its
    /// closing quote, or to the end of an unterminated literal, applying
    /// the escapes.
    #[verifier::loop_isolation(false)]
    fn read_string(&mut self) -> (r: String)
        requires
            old(self).wf(),
        ensures
            final(self).chars == old(self).chars,
            final(self).wf(),
            r@ == sp_read_string(old(self).chars@, old(self).pos as int).0,
            final(self).pos as int == sp_read_string(old(self).chars@, old(self).pos as int).1,
    {
        let mut s = String::new();
        let n = self.chars.len();
        loop
            invariant
                self.pos <= n,
                n == self.chars@.len(),
                self.chars == old(self).chars,
                sp_read_string(self.chars@, old(self).pos as int) == (
                    s@ + sp_read_string(self.chars@, self.pos as int).0,
                    sp_read_string(self.chars@, self.pos as int).1,
                ),
            decreases n - self.pos,
        {
            if self.pos == n {
                proof {
                    assert(s@ + Seq::<char>::empty() =~= s@);
                }
                return s;
            }
            let c = self.chars[self.pos];
            self.pos = self.pos + 1;
            if c == '"' {
                proof {
                    assert(s@ + Seq::<char>::empty() =~= s@);
                }
                return s;
            } else if c == '\\' {
                if self.pos == n {
                    proof {
                        assert(s@ + Seq::<char>::empty() =~= s@);
                    }
                    return s;
                }
                let e = self.chars[self.pos];
                self.pos = self.pos + 1;
                let c2 = if e == 'n' {
                    '\n'
                } else if e == 'r' {
                    '\r'
                } else if e == 't' {
                    '\t'
                } else {
                    e
                };
                push_char(&mut s, c2);
            } else {
                push_char(&mut s, c);
            }
            proof {
                let rest = sp_read_string(self.chars@, self.pos as int);
                assert(sp_read_string(self.chars@, old(self).pos as int).0 =~= s@ + rest.0);
            }
        }
    }

    /// The next token, advancing the cursor: exactly the token and position
    /// of [`sp_next_token`]. At the end of the input this keeps returning
    /// `Eof` without moving.
    #[verifier::loop_isolation(false)]
    pub fn next_token(&mut self) -> (t: Token)
        requires
            old(self).wf(),
        ensures
            final(self).chars == old(self).chars,
            final(self).wf(),
            t@ == sp_next_token(old(self).chars@, old(self).pos as int).0,
            final(self).pos as int == sp_next_token(old(self).chars@, old(self).pos as int).1,
    {
        let n = self.chars.len();
        loop
            invariant
                self.wf(),
                n == self.chars@.len(),
                self.chars == old(self).chars,
                sp_next_token(self.chars@, old(self).pos as int) == sp_next_token(
                    self.chars@,
                    self.pos as int,
                ),
            decreases n - self.pos,
        {
            let ghost prev = self.pos as int;
            self.skip_whitespace();
            proof {
                let ws = |c: char| is_unicode_whitespace(c);
                lemma_run_end(self.chars@, prev, ws);
                lemma_run_end(self.chars@, self.pos as int, ws);
            }
            if self.pos == n {
                return Token::Eof;
            }
            let c = self.chars[self.pos];
            if c == '(' {
                self.pos = self.pos + 1;
                return Token::LParen;
            } else if c == ')' {
                self.pos = self.pos + 1;
                return Token::RParen;
            } else if c == '{' {
                self.pos = self.pos + 1;
                return Token::LBrace;
            } else if c == '}' {
                self.pos = self.pos + 1;
                return Token::RBrace;
            } else if c == ',' {
                self.pos = self.pos + 1;
                return Token::Comma;
            } else if c == ';' {
                self.pos = self.pos + 1;
                return Token::Semicolon;
            } else if c == '"' {
                self.pos = self.pos + 1;
                let s = self.read_string();
                return Token::Str(s);
            } else if c == '\'' {
                self.pos = self.pos + 1;
                if self.pos == n {
                    return Token::Eof;
                }
                let ch = self.chars[self.pos];
                self.pos = self.pos + 1;
                if self.pos < n {
                    self.pos = self.pos + 1;
                }
                return Token::Char(ch);
            } else {
                let numeric = char_is_numeric(c);
                if numeric {
                    self.pos = self.pos + 1;
                    let v = self.read_number(c);
                    return Token::Number(v);
                }
                let alpha = char_is_alphabetic(c);
                if alpha || c == '_' {
                    self.pos = self.pos + 1;
                    let id = self.read_identifier(c);
                    if str_eq_str(id.as_str(), "fn") {
                        return Token::Fn;
                    }
                    return Token::Ident(id);
                }
                self.pos = self.pos + 1;
            }
        }
    }
}

} // verus!
