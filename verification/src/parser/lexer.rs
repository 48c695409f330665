//! Splitting an expression into tokens.
use vstd::prelude::*;
use crate::parser::{Operator, MathFunc, func_from_name, func_from_chars, operator_symbol};

verus! {

/// What a token is.
#[derive(Debug, Clone, Copy, PartialEq, Eq, Structural)]
pub enum TokenKind {
    Number,
    Ident,
    Keyword(MathFunc),
    Op(Operator),
    Open,
    Close,
    Pipe,
}

/// A token: its kind and the characters `start..end` of the input that it spans.
#[derive(Debug, Clone, Copy, PartialEq, Eq, Structural)]
pub struct Token {
    pub kind: TokenKind,
    pub start: usize,
    pub end: usize,
}

pub open spec fn is_space(c: char) -> bool {
    c == ' ' || c == '\t' || c == '\n' || c == '\r'
}

pub open spec fn is_digit(c: char) -> bool {
    '0' <= c <= '9'
}

pub open spec fn is_letter(c: char) -> bool {
    ('a' <= c <= 'z') || ('A' <= c <= 'Z')
}

pub open spec fn is_word_char(c: char) -> bool {
    is_letter(c) || is_digit(c) || c == '_'
}

/// The operator written as the character `c`.
pub open spec fn op_of_char(c: char) -> Option<Operator> {
    if c == '+' {
        Some(Operator::Plus)
    } else if c == '-' {
        Some(Operator::Minus)
    } else if c == '*' {
        Some(Operator::Times)
    } else if c == '/' {
        Some(Operator::Div)
    } else if c == '^' {
        Some(Operator::Pow)
    } else {
        None
    }
}

/// The characters that may appear in an expression.
pub open spec fn is_valid_char(c: char) -> bool {
    is_space(c) || is_word_char(c) || c == '.' || op_of_char(c) is Some || c == '(' || c == ')'
        || c == '|'
}

/// The end of the run of digits that starts at `i`.
pub open spec fn digits_end(s: Seq<char>, i: nat) -> nat
    decreases s.len() - i,
{
    if i < s.len() && is_digit(s[i as int]) {
        digits_end(s, i + 1)
    } else {
        i
    }
}

/// The end of the run of word characters that starts at `i`.
pub open spec fn word_end(s: Seq<char>, i: nat) -> nat
    decreases s.len() - i,
{
    if i < s.len() && is_word_char(s[i as int]) {
        word_end(s, i + 1)
    } else {
        i
    }
}

/// The end of the mantissa of a number that starts at `i`: digits, then a point and
/// more digits.
pub open spec fn mantissa_end(s: Seq<char>, i: nat) -> nat {
    let a = digits_end(s, i);
    if a < s.len() && s[a as int] == '.' {
        digits_end(s, a + 1)
    } else {
        a
    }
}

/// Whether the mantissa `i..mantissa_end(s, i)` holds a digit.
pub open spec fn mantissa_has_digit(s: Seq<char>, i: nat) -> bool {
    digits_end(s, i) > i || mantissa_end(s, i) > digits_end(s, i) + 1
}

/// The end of a number that starts at `i`: its mantissa, then an exponent made of
/// `e` or `E`, a sign if any, and at least one digit.
pub open spec fn number_end(s: Seq<char>, i: nat) -> nat {
    let b = mantissa_end(s, i);
    if b < s.len() && (s[b as int] == 'e' || s[b as int] == 'E') {
        let c = if b + 1 < s.len() && (s[b + 1int] == '+' || s[b + 1int] == '-') {
            b + 2
        } else {
            b + 1
        };
        let d = digits_end(s, c);
        if d > c {
            d
        } else {
            b
        }
    } else {
        b
    }
}

/// The kind of the one-character token `c`, if it is one.
pub open spec fn symbol_kind(c: char) -> Option<TokenKind> {
    if op_of_char(c) is Some {
        Some(TokenKind::Op(op_of_char(c)->0))
    } else if c == '(' {
        Some(TokenKind::Open)
    } else if c == ')' {
        Some(TokenKind::Close)
    } else if c == '|' {
        Some(TokenKind::Pipe)
    } else {
        None
    }
}

/// `ts` in front of the tokens of `r`, if there are.
pub open spec fn prepend_tokens(ts: Seq<Token>, r: Option<Seq<Token>>) -> Option<Seq<Token>> {
    match r {
        Some(rest) => Some(ts + rest),
        None => None,
    }
}

/// The tokens of `s` from position `i` on; `None` where something there is no token.
pub open spec fn lex_from(s: Seq<char>, i: nat) -> Option<Seq<Token>>
    decreases s.len() - i,
{
    if i >= s.len() {
        Some(seq![])
    } else {
        let c = s[i as int];
        if is_space(c) {
            lex_from(s, i + 1)
        } else if is_digit(c) || c == '.' {
            let e = number_end(s, i);
            if mantissa_has_digit(s, i) && i < e <= s.len() {
                prepend_tokens(seq![Token { kind: TokenKind::Number, start: i as usize, end: e as usize }], lex_from(s, e))
            } else {
                None
            }
        } else if is_letter(c) {
            let e = word_end(s, i);
            if i < e <= s.len() {
                let kind = match func_from_name(s.subrange(i as int, e as int)) {
                    Some(f) => TokenKind::Keyword(f),
                    None => TokenKind::Ident,
                };
                prepend_tokens(seq![Token { kind: kind, start: i as usize, end: e as usize }], lex_from(s, e))
            } else {
                None
            }
        } else if symbol_kind(c) is Some {
            prepend_tokens(
                seq![Token { kind: symbol_kind(c)->0, start: i as usize, end: (i + 1) as usize }],
                lex_from(s, i + 1),
            )
        } else {
            None
        }
    }
}

/// Tokenizing keeps the operators that are written: every operator token of the
/// tokens of `s` from `i` on spans one character of `s`, at or after `i`, and that
/// character is the symbol of the token's operator. (Positions are `usize`, so the
/// input fits in memory.)
pub proof fn lemma_lex_keeps_operators(s: Seq<char>, i: nat)
    requires
        s.len() <= usize::MAX,
    ensures
        lex_from(s, i) matches Some(t) ==> forall|k: int|
            0 <= k < t.len() && (#[trigger] t[k]).kind is Op ==> {
                &&& i <= t[k].start < s.len()
                &&& t[k].end == t[k].start + 1
                &&& operator_symbol(t[k].kind->Op_0) == s[t[k].start as int]
            },
    decreases s.len() - i,
{
    if i < s.len() {
        let c = s[i as int];
        if is_space(c) {
            lemma_lex_keeps_operators(s, i + 1);
        } else if is_digit(c) || c == '.' {
            let e = number_end(s, i);
            if mantissa_has_digit(s, i) && i < e <= s.len() {
                lemma_lex_keeps_operators(s, e);
                lemma_prepend_keeps_operators(s, i, seq![Token { kind: TokenKind::Number, start: i as usize, end: e as usize }], lex_from(s, e), e);
            }
        } else if is_letter(c) {
            let e = word_end(s, i);
            if i < e <= s.len() {
                let kind = match func_from_name(s.subrange(i as int, e as int)) {
                    Some(f) => TokenKind::Keyword(f),
                    None => TokenKind::Ident,
                };
                lemma_lex_keeps_operators(s, e);
                lemma_prepend_keeps_operators(s, i, seq![Token { kind: kind, start: i as usize, end: e as usize }], lex_from(s, e), e);
            }
        } else if symbol_kind(c) is Some {
            lemma_lex_keeps_operators(s, i + 1);
            lemma_prepend_keeps_operators(
                s,
                i,
                seq![Token { kind: symbol_kind(c)->0, start: i as usize, end: (i + 1) as usize }],
                lex_from(s, i + 1),
                i + 1,
            );
        }
    }
}

proof fn lemma_prepend_keeps_operators(s: Seq<char>, i: nat, ts: Seq<Token>, r: Option<Seq<Token>>, e: nat)
    requires
        s.len() <= usize::MAX,
        i < e,
        ts.len() == 1,
        ts[0].start == i,
        i < s.len(),
        ts[0].kind is Op ==> ts[0].end == i + 1 && operator_symbol(ts[0].kind->Op_0) == s[i as int],
        r matches Some(t) ==> forall|k: int|
            0 <= k < t.len() && (#[trigger] t[k]).kind is Op ==> {
                &&& e <= t[k].start < s.len()
                &&& t[k].end == t[k].start + 1
                &&& operator_symbol(t[k].kind->Op_0) == s[t[k].start as int]
            },
    ensures
        prepend_tokens(ts, r) matches Some(t) ==> forall|k: int|
            0 <= k < t.len() && (#[trigger] t[k]).kind is Op ==> {
                &&& i <= t[k].start < s.len()
                &&& t[k].end == t[k].start + 1
                &&& operator_symbol(t[k].kind->Op_0) == s[t[k].start as int]
            },
{
    if let Some(rest) = r {
        let t = ts + rest;
        assert forall|k: int| 0 <= k < t.len() && (#[trigger] t[k]).kind is Op implies {
            &&& i <= t[k].start < s.len()
            &&& t[k].end == t[k].start + 1
            &&& operator_symbol(t[k].kind->Op_0) == s[t[k].start as int]
        } by {
            if k >= 1 {
                assert(t[k] == rest[k - 1]);
            }
        }
    }
}

/// Every token spans characters of `s`, and the tokens come in order.
pub open spec fn tokens_wf(s: Seq<char>, t: Seq<Token>) -> bool {
    &&& forall|k: int| 0 <= k < t.len() ==> #[trigger] t[k].start <= t[k].end <= s.len()
    &&& forall|k: int, l: int| 0 <= k < l < t.len() ==> #[trigger] t[k].end <= #[trigger] t[l].start
}

fn is_digit_exec(c: char) -> (r: bool)
    ensures
        r == is_digit(c),
{
    '0' <= c && c <= '9'
}

fn is_letter_exec(c: char) -> (r: bool)
    ensures
        r == is_letter(c),
{
    ('a' <= c && c <= 'z') || ('A' <= c && c <= 'Z')
}

fn is_word_char_exec(c: char) -> (r: bool)
    ensures
        r == is_word_char(c),
{
    is_letter_exec(c) || is_digit_exec(c) || c == '_'
}

fn is_space_exec(c: char) -> (r: bool)
    ensures
        r == is_space(c),
{
    c == ' ' || c == '\t' || c == '\n' || c == '\r'
}

fn op_of_char_exec(c: char) -> (r: Option<Operator>)
    ensures
        r == op_of_char(c),
{
    if c == '+' {
        Some(Operator::Plus)
    } else if c == '-' {
        Some(Operator::Minus)
    } else if c == '*' {
        Some(Operator::Times)
    } else if c == '/' {
        Some(Operator::Div)
    } else if c == '^' {
        Some(Operator::Pow)
    } else {
        None
    }
}

/// Whether `c` may appear in an expression.
pub fn is_valid_char_exec(c: char) -> (r: bool)
    ensures
        r == is_valid_char(c),
{
    is_space_exec(c) || is_word_char_exec(c) || c == '.' || op_of_char_exec(c).is_some() || c == '('
        || c == ')' || c == '|'
}

fn symbol_kind_exec(c: char) -> (r: Option<TokenKind>)
    ensures
        r == symbol_kind(c),
{
    match op_of_char_exec(c) {
        Some(op) => Some(TokenKind::Op(op)),
        None => {
            if c == '(' {
                Some(TokenKind::Open)
            } else if c == ')' {
                Some(TokenKind::Close)
            } else if c == '|' {
                Some(TokenKind::Pipe)
            } else {
                None
            }
        },
    }
}

fn digits_end_exec(s: &Vec<char>, i: usize) -> (r: usize)
    requires
        i <= s@.len(),
    ensures
        r == digits_end(s@, i as nat),
        i <= r <= s@.len(),
    decreases s@.len() - i,
{
    if i < s.len() && is_digit_exec(s[i]) {
        digits_end_exec(s, i + 1)
    } else {
        i
    }
}

fn word_end_exec(s: &Vec<char>, i: usize) -> (r: usize)
    requires
        i <= s@.len(),
    ensures
        r == word_end(s@, i as nat),
        i <= r <= s@.len(),
    decreases s@.len() - i,
{
    if i < s.len() && is_word_char_exec(s[i]) {
        word_end_exec(s, i + 1)
    } else {
        i
    }
}

fn mantissa_end_exec(s: &Vec<char>, i: usize) -> (r: usize)
    requires
        i <= s@.len(),
    ensures
        r == mantissa_end(s@, i as nat),
        i <= r <= s@.len(),
{
    let a = digits_end_exec(s, i);
    if a < s.len() && s[a] == '.' {
        digits_end_exec(s, a + 1)
    } else {
        a
    }
}

fn number_end_exec(s: &Vec<char>, i: usize) -> (r: usize)
    requires
        i <= s@.len(),
    ensures
        r == number_end(s@, i as nat),
        i <= r <= s@.len(),
{
    let b = mantissa_end_exec(s, i);
    if b < s.len() && (s[b] == 'e' || s[b] == 'E') {
        let c = if b + 1 < s.len() && (s[b + 1] == '+' || s[b + 1] == '-') {
            b + 2
        } else {
            b + 1
        };
        let d = digits_end_exec(s, c);
        if d > c {
            d
        } else {
            b
        }
    } else {
        b
    }
}

/// The tokens of the characters `s`, or `None` where some characters make no token
/// (a lone point, a word that starts with an underscore, a character that is not
/// allowed).
pub fn tokenize(s: &Vec<char>) -> (r: Option<Vec<Token>>)
    ensures
        match r {
            Some(t) => lex_from(s@, 0) == Some(t@) && tokens_wf(s@, t@),
            None => lex_from(s@, 0) is None,
        },
{
    let mut toks: Vec<Token> = Vec::new();
    let mut i: usize = 0;
    while i < s.len()
        invariant
            i <= s@.len(),
            lex_from(s@, 0) == prepend_tokens(toks@, lex_from(s@, i as nat)),
            tokens_wf(s@, toks@),
            forall|k: int| 0 <= k < toks@.len() ==> #[trigger] toks@[k].end <= i,
        decreases s@.len() - i,
    {
        let c = s[i];
        if is_space_exec(c) {
            i = i + 1;
        } else if is_digit_exec(c) || c == '.' {
            let e = number_end_exec(s, i);
            let a = digits_end_exec(s, i);
            let b = mantissa_end_exec(s, i);
            if (a > i || b > a + 1) && e > i {
                let ghost old_toks = toks@;
                let tok = Token { kind: TokenKind::Number, start: i, end: e };
                toks.push(tok);
                proof {
                    assert(toks@ == old_toks + seq![tok]);
                    assert(old_toks + (seq![tok] + lex_from(s@, e as nat)->0) == toks@ + lex_from(s@, e as nat)->0) by {
                        assert(old_toks + (seq![tok] + lex_from(s@, e as nat)->0) =~= old_toks + seq![tok] + lex_from(s@, e as nat)->0);
                    }
                }
                i = e;
            } else {
                return None;
            }
        } else if is_letter_exec(c) {
            let e = word_end_exec(s, i);
            if e > i {
                let w = vec_slice(s, i, e);
                let kind = match func_from_chars(w.as_slice()) {
                    Some(f) => TokenKind::Keyword(f),
                    None => TokenKind::Ident,
                };
                let ghost old_toks = toks@;
                let tok = Token { kind: kind, start: i, end: e };
                toks.push(tok);
                proof {
                    assert(toks@ == old_toks + seq![tok]);
                    assert(old_toks + (seq![tok] + lex_from(s@, e as nat)->0) =~= old_toks + seq![tok] + lex_from(s@, e as nat)->0);
                }
                i = e;
            } else {
                return None;
            }
        } else {
            match symbol_kind_exec(c) {
                Some(kind) => {
                    let ghost old_toks = toks@;
                    let tok = Token { kind: kind, start: i, end: i + 1 };
                    toks.push(tok);
                    proof {
                        assert(toks@ == old_toks + seq![tok]);
                        assert(old_toks + (seq![tok] + lex_from(s@, (i + 1) as nat)->0) =~= old_toks + seq![tok] + lex_from(s@, (i + 1) as nat)->0);
                    }
                    i = i + 1;
                },
                None => {
                    return None;
                },
            }
        }
    }
    assert(toks@ + seq![] =~= toks@);
    Some(toks)
}

/// The characters `from..to` of `s`.
fn vec_slice(s: &Vec<char>, from: usize, to: usize) -> (r: Vec<char>)
    requires
        from <= to <= s@.len(),
    ensures
        r@ == s@.subrange(from as int, to as int),
{
    let mut r: Vec<char> = Vec::new();
    let mut k = from;
    while k < to
        invariant
            from <= k <= to <= s@.len(),
            r@ == s@.subrange(from as int, k as int),
        decreases to - k,
    {
        r.push(s[k]);
        k = k + 1;
        assert(r@ =~= s@.subrange(from as int, k as int));
    }
    r
}

} // verus!
