//! The grammar of expressions, read by recursive descent over the tokens.
use vstd::prelude::*;
use crate::parser::{Operator, MathFunc, AstNode, AstError, Expr, chars_of, pairs_view, lemma_rhs_view};
use crate::parser::lexer::{
    Token, TokenKind, tokenize, tokens_wf, lex_from, is_valid_char, is_valid_char_exec,
};

verus! {

/// The kinds of the errors of the parser.
#[derive(Debug, Clone, Copy, PartialEq, Eq, Structural)]
pub enum ErrorKind {
    MissingParenthesis,
    MultipleExpressions,
    MultipleOps,
    MultipleSigns,
    ImplicitProduct,
    InternalError,
    UnreachableMatch,
    PowAmbiguity,
    FailedParse,
    InvalidCharacter,
}

/// A failure of the parser: its kind and the characters `start..end` of the input
/// that the message quotes.
#[derive(Debug, Clone, Copy, PartialEq, Eq, Structural)]
pub struct Failure {
    pub kind: ErrorKind,
    pub start: usize,
    pub end: usize,
}

pub open spec fn fail(kind: ErrorKind, start: usize, end: usize) -> Failure {
    Failure { kind: kind, start: start, end: end }
}

pub open spec fn failed_parse() -> Failure {
    fail(ErrorKind::FailedParse, 0, 0)
}

pub open spec fn internal_error() -> Failure {
    fail(ErrorKind::InternalError, 0, 0)
}

/// Whether a token of this kind starts a value.
pub open spec fn starts_value(k: TokenKind) -> bool {
    k is Number || k is Ident || k is Keyword || k is Open
}

pub open spec fn is_sign(k: TokenKind) -> bool {
    k == TokenKind::Op(Operator::Plus) || k == TokenKind::Op(Operator::Minus)
}

pub open spec fn is_mul_div(k: TokenKind) -> bool {
    k == TokenKind::Op(Operator::Times) || k == TokenKind::Op(Operator::Div)
}

/// The characters of `s` that the token spans.
pub open spec fn text(s: Seq<char>, tok: Token) -> Seq<char> {
    s.subrange(tok.start as int, tok.end as int)
}

/// A value that starts at token `first` and ends before token `q`, unless another
/// value follows it directly.
pub open spec fn end_value(t: Seq<Token>, first: nat, q: nat, e: Expr, kind: ErrorKind) -> Result<
    (Expr, nat),
    Failure,
> {
    if q < t.len() && starts_value(t[q as int].kind) {
        Err(fail(kind, t[first as int].start, t[q as int].end))
    } else {
        Ok((e, q))
    }
}

/// `v` in front of the pairs of `r`, if there are.
pub open spec fn prepend_pairs(
    v: Seq<(Operator, Expr)>,
    r: Result<(Seq<(Operator, Expr)>, nat), Failure>,
) -> Result<(Seq<(Operator, Expr)>, nat), Failure> {
    match r {
        Ok((rest, q)) => Ok((v + rest, q)),
        Err(f) => Err(f),
    }
}

/// A chain of operands joined by operators: the first operand alone, or the chain.
pub open spec fn chain(e: Expr, rest: Seq<(Operator, Expr)>) -> Expr {
    if rest.len() == 0 {
        e
    } else {
        Expr::Bin(Box::new(e), rest)
    }
}

/// A sum starting at token `p`: products joined by `+` and `-`.
pub open spec fn sum_at(s: Seq<char>, t: Seq<Token>, p: nat) -> Result<(Expr, nat), Failure>
    decreases t.len() - p, 6nat,
{
    match product_at(s, t, p) {
        Ok((e, q)) => if p < q <= t.len() {
            match sum_rest(s, t, q) {
                Ok((rest, q2)) => Ok((chain(e, rest), q2)),
                Err(f) => Err(f),
            }
        } else {
            Err(internal_error())
        },
        Err(f) => Err(f),
    }
}

/// The `+` and `-` pairs of a sum from token `q` on.
pub open spec fn sum_rest(s: Seq<char>, t: Seq<Token>, q: nat) -> Result<
    (Seq<(Operator, Expr)>, nat),
    Failure,
>
    decreases t.len() - q, 6nat,
{
    if q < t.len() && is_sign(t[q as int].kind) {
        match product_at(s, t, q + 1) {
            Ok((e, q2)) => if q + 1 < q2 <= t.len() {
                prepend_pairs(seq![(t[q as int].kind->Op_0, e)], sum_rest(s, t, q2))
            } else {
                Err(internal_error())
            },
            Err(f) => Err(f),
        }
    } else {
        Ok((seq![], q))
    }
}

/// A product starting at token `p`: powers joined by `*` and `/`.
pub open spec fn product_at(s: Seq<char>, t: Seq<Token>, p: nat) -> Result<(Expr, nat), Failure>
    decreases t.len() - p, 5nat,
{
    match power_at(s, t, p) {
        Ok((e, q)) => if p < q <= t.len() {
            match product_rest(s, t, q) {
                Ok((rest, q2)) => Ok((chain(e, rest), q2)),
                Err(f) => Err(f),
            }
        } else {
            Err(internal_error())
        },
        Err(f) => Err(f),
    }
}

/// The `*` and `/` pairs of a product from token `q` on.
pub open spec fn product_rest(s: Seq<char>, t: Seq<Token>, q: nat) -> Result<
    (Seq<(Operator, Expr)>, nat),
    Failure,
>
    decreases t.len() - q, 5nat,
{
    if q < t.len() && is_mul_div(t[q as int].kind) {
        match power_at(s, t, q + 1) {
            Ok((e, q2)) => if q + 1 < q2 <= t.len() {
                prepend_pairs(seq![(t[q as int].kind->Op_0, e)], product_rest(s, t, q2))
            } else {
                Err(internal_error())
            },
            Err(f) => Err(f),
        }
    } else {
        Ok((seq![], q))
    }
}

/// The end of a chain of `^` and signed values from token `q` on: the token after its
/// last value, or the failure of one of its values.
pub open spec fn pow_chain_end(s: Seq<char>, t: Seq<Token>, q: nat) -> Result<nat, Failure>
    decreases t.len() - q, 3nat,
{
    if q < t.len() && t[q as int].kind == TokenKind::Op(Operator::Pow) {
        match unary_at(s, t, q + 1) {
            Ok((_, q2)) => if q + 1 < q2 <= t.len() {
                pow_chain_end(s, t, q2)
            } else {
                Err(internal_error())
            },
            Err(f) => Err(f),
        }
    } else {
        Ok(q)
    }
}

/// A power starting at token `p`: a signed value, or two joined by `^`. A second `^`
/// makes the power ambiguous; the error then quotes the whole chain of powers, from
/// its first value to its last.
pub open spec fn power_at(s: Seq<char>, t: Seq<Token>, p: nat) -> Result<(Expr, nat), Failure>
    decreases t.len() - p, 4nat,
{
    match unary_at(s, t, p) {
        Ok((b, q)) => if q < t.len() && t[q as int].kind == TokenKind::Op(Operator::Pow) {
            if p < q {
                match unary_at(s, t, q + 1) {
                    Ok((x, q2)) => if q2 < t.len() && t[q2 as int].kind == TokenKind::Op(
                        Operator::Pow,
                    ) {
                        if q + 1 < q2 {
                            match pow_chain_end(s, t, q2) {
                                Ok(q3) => if q2 < q3 <= t.len() {
                                    Err(fail(ErrorKind::PowAmbiguity, t[p as int].start, t[q3 - 1].end))
                                } else {
                                    Err(internal_error())
                                },
                                Err(f) => Err(f),
                            }
                        } else {
                            Err(internal_error())
                        }
                    } else {
                        Ok((Expr::Pow(Box::new(b), Box::new(x)), q2))
                    },
                    Err(f) => Err(f),
                }
            } else {
                Err(internal_error())
            }
        } else {
            Ok((b, q))
        },
        Err(f) => Err(f),
    }
}

/// A value starting at token `p`, with one sign in front of it or none.
pub open spec fn unary_at(s: Seq<char>, t: Seq<Token>, p: nat) -> Result<(Expr, nat), Failure>
    decreases t.len() - p, 2nat,
{
    if p < t.len() && is_sign(t[p as int].kind) {
        if p + 1 < t.len() && is_sign(t[p + 1int].kind) {
            Err(fail(ErrorKind::MultipleSigns, t[p as int].start, t[p + 1int].end))
        } else {
            match value_at(s, t, p + 1) {
                Ok((e, q)) => Ok((Expr::Unary(t[p as int].kind->Op_0, Box::new(e)), q)),
                Err(f) => Err(f),
            }
        }
    } else {
        value_at(s, t, p)
    }
}

/// A value starting at token `p`: a number, an identifier, a function applied to a
/// sum in parentheses, a sum between vertical bars (its absolute value) or a sum in
/// parentheses.
pub open spec fn value_at(s: Seq<char>, t: Seq<Token>, p: nat) -> Result<(Expr, nat), Failure>
    decreases t.len() - p, 1nat,
{
    if p >= t.len() {
        Err(failed_parse())
    } else {
        let tok = t[p as int];
        match tok.kind {
            TokenKind::Number => end_value(
                t,
                p,
                p + 1,
                Expr::Number(text(s, tok)),
                ErrorKind::ImplicitProduct,
            ),
            TokenKind::Ident => end_value(
                t,
                p,
                p + 1,
                Expr::Ident(text(s, tok)),
                ErrorKind::MultipleExpressions,
            ),
            TokenKind::Keyword(f) => if p + 1 < t.len() && t[p + 1int].kind == TokenKind::Open {
                match sum_at(s, t, p + 2) {
                    Ok((e, q)) => if q < t.len() && t[q as int].kind == TokenKind::Close {
                        end_value(
                            t,
                            p,
                            q + 1,
                            Expr::Func(f, Box::new(e)),
                            ErrorKind::MultipleExpressions,
                        )
                    } else {
                        Err(failed_parse())
                    },
                    Err(x) => Err(x),
                }
            } else {
                Err(fail(ErrorKind::MissingParenthesis, tok.start, tok.end))
            },
            TokenKind::Open => match sum_at(s, t, p + 1) {
                Ok((e, q)) => if q < t.len() && t[q as int].kind == TokenKind::Close {
                    end_value(t, p, q + 1, e, ErrorKind::MultipleExpressions)
                } else {
                    Err(failed_parse())
                },
                Err(x) => Err(x),
            },
            TokenKind::Pipe => match sum_at(s, t, p + 1) {
                Ok((e, q)) => if q < t.len() && t[q as int].kind == TokenKind::Pipe {
                    end_value(
                        t,
                        p,
                        q + 1,
                        Expr::Func(MathFunc::Abs, Box::new(e)),
                        ErrorKind::MultipleExpressions,
                    )
                } else {
                    Err(failed_parse())
                },
                Err(x) => Err(x),
            },
            TokenKind::Op(_) => Err(
                fail(
                    ErrorKind::MultipleOps,
                    if p > 0 {
                        t[p - 1int].start
                    } else {
                        tok.start
                    },
                    tok.end,
                ),
            ),
            TokenKind::Close => Err(failed_parse()),
        }
    }
}

/// A whole line: one sum that takes every token.
pub open spec fn line_at(s: Seq<char>, t: Seq<Token>) -> Result<Expr, Failure> {
    match sum_at(s, t, 0) {
        Ok((e, q)) => if q == t.len() {
            Ok(e)
        } else {
            Err(failed_parse())
        },
        Err(f) => Err(f),
    }
}

/// The position of the first character of `s` from `i` on that may not appear in an
/// expression.
pub open spec fn first_invalid(s: Seq<char>, i: nat) -> Option<nat>
    decreases s.len() - i,
{
    if i >= s.len() {
        None
    } else if !is_valid_char(s[i as int]) {
        Some(i)
    } else {
        first_invalid(s, i + 1)
    }
}

/// What parsing the text `s` gives: its first invalid character, or the tokens that
/// do not make a token sequence, or the line that the tokens make.
pub open spec fn parse_spec(s: Seq<char>) -> Result<Expr, Failure> {
    match first_invalid(s, 0) {
        Some(i) => Err(fail(ErrorKind::InvalidCharacter, i as usize, (i + 1) as usize)),
        None => match lex_from(s, 0) {
            None => Err(failed_parse()),
            Some(t) => line_at(s, t),
        },
    }
}

/// The text in front of the quoted part of a message.
pub open spec fn message_prefix(k: ErrorKind) -> Seq<char> {
    match k {
        ErrorKind::MissingParenthesis => "Please use parenthesis for mathematical functions: `"@,
        ErrorKind::MultipleExpressions => "Found two or more expressions without any operator within them: `"@,
        ErrorKind::MultipleOps => "Too many operation symbols chained together: `"@,
        ErrorKind::MultipleSigns => "Remove the extra sign from this expression: `"@,
        ErrorKind::ImplicitProduct => "Please avoid using implicit products: `"@,
        ErrorKind::PowAmbiguity => "Three exponentiations create ambiguity, please add parenthesis: `"@,
        ErrorKind::InvalidCharacter => "The input contains an invalid symbol: `"@,
        ErrorKind::FailedParse => "Failed to parse. Please check the expression for mismatched parenthesis or other errors"@,
        ErrorKind::InternalError => "unexpected token positions while parsing the expression"@,
        ErrorKind::UnreachableMatch => "matched an unexpected rule"@,
    }
}

/// Whether the message of this kind quotes a part of the input.
pub open spec fn quotes_input(k: ErrorKind) -> bool {
    !(k is FailedParse || k is InternalError || k is UnreachableMatch)
}

/// The message of a failure on the input `s`.
pub open spec fn failure_message(s: Seq<char>, f: Failure) -> Seq<char> {
    if quotes_input(f.kind) {
        message_prefix(f.kind) + s.subrange(f.start as int, f.end as int) + "`"@
    } else {
        message_prefix(f.kind)
    }
}

impl AstError {
    /// The kind of the error.
    pub open spec fn kind(self) -> ErrorKind {
        match self {
            AstError::MissingParenthesis(_) => ErrorKind::MissingParenthesis,
            AstError::MultipleExpressions(_) => ErrorKind::MultipleExpressions,
            AstError::MultipleOps(_) => ErrorKind::MultipleOps,
            AstError::MultipleSigns(_) => ErrorKind::MultipleSigns,
            AstError::ImplicitProduct(_) => ErrorKind::ImplicitProduct,
            AstError::InternalError(_) => ErrorKind::InternalError,
            AstError::UnreachableMatch(_) => ErrorKind::UnreachableMatch,
            AstError::PowAmbiguity(_) => ErrorKind::PowAmbiguity,
            AstError::FailedParse(_) => ErrorKind::FailedParse,
            AstError::InvalidCharacter(_) => ErrorKind::InvalidCharacter,
        }
    }

    /// The message of the error.
    pub open spec fn message(self) -> Seq<char> {
        match self {
            AstError::MissingParenthesis(m) => m@,
            AstError::MultipleExpressions(m) => m@,
            AstError::MultipleOps(m) => m@,
            AstError::MultipleSigns(m) => m@,
            AstError::ImplicitProduct(m) => m@,
            AstError::InternalError(m) => m@,
            AstError::UnreachableMatch(m) => m@,
            AstError::PowAmbiguity(m) => m@,
            AstError::FailedParse(m) => m@,
            AstError::InvalidCharacter(m) => m@,
        }
    }
}

/// The value of a result of one of the parsing functions.
pub open spec fn res_view(r: Result<(AstNode, usize), Failure>) -> Result<(Expr, nat), Failure> {
    match r {
        Ok((a, q)) => Ok((a@, q as nat)),
        Err(f) => Err(f),
    }
}

/// The quoted part of a failure lies in `s`.
pub open spec fn failure_wf(s: Seq<char>, f: Failure) -> bool {
    f.start <= f.end <= s.len()
}

/// What every parsing function ensures of its failures: the quote lies in the input,
/// and the failure is one of those that the grammar describes.
pub open spec fn failure_ok(s: Seq<char>, r: Result<(AstNode, usize), Failure>) -> bool {
    r is Err ==> {
        &&& failure_wf(s, r->Err_0)
        &&& r->Err_0.kind != ErrorKind::InvalidCharacter
        &&& r->Err_0.kind != ErrorKind::InternalError
        &&& r->Err_0.kind != ErrorKind::UnreachableMatch
    }
}

/// The first operand alone, or the chain of it and the pairs.
fn make_chain(lhs: AstNode, rhs: Vec<(Operator, Box<AstNode>)>) -> (r: AstNode)
    ensures
        r@ == chain(lhs@, pairs_view(rhs@)),
{
    if rhs.len() == 0 {
        lhs
    } else {
        let r = AstNode::BinOp { lhs: Box::new(lhs), repeated_rhs: rhs };
        proof {
            lemma_rhs_view(r, 0);
            assert(rhs@.subrange(0, rhs@.len() as int) =~= rhs@);
        }
        r
    }
}

fn is_sign_exec(k: TokenKind) -> (r: bool)
    ensures
        r == is_sign(k),
{
    k == TokenKind::Op(Operator::Plus) || k == TokenKind::Op(Operator::Minus)
}

fn is_mul_div_exec(k: TokenKind) -> (r: bool)
    ensures
        r == is_mul_div(k),
{
    k == TokenKind::Op(Operator::Times) || k == TokenKind::Op(Operator::Div)
}

fn starts_value_exec(k: TokenKind) -> (r: bool)
    ensures
        r == starts_value(k),
{
    match k {
        TokenKind::Number | TokenKind::Ident | TokenKind::Keyword(_) | TokenKind::Open => true,
        _ => false,
    }
}

fn operator_of(k: TokenKind) -> (op: Operator)
    requires
        k is Op,
    ensures
        op == k->Op_0,
{
    match k {
        TokenKind::Op(op) => op,
        _ => Operator::Plus,
    }
}

fn failed_parse_exec() -> (f: Failure)
    ensures
        f == failed_parse(),
{
    Failure { kind: ErrorKind::FailedParse, start: 0, end: 0 }
}

fn end_value_exec(
    input: &str,
    toks: &Vec<Token>,
    first: usize,
    q: usize,
    e: AstNode,
    kind: ErrorKind,
) -> (r: Result<(AstNode, usize), Failure>)
    requires
        tokens_wf(input@, toks@),
        first < q <= toks@.len(),
        kind == ErrorKind::ImplicitProduct || kind == ErrorKind::MultipleExpressions,
    ensures
        res_view(r) == end_value(toks@, first as nat, q as nat, e@, kind),
        r is Ok ==> r->Ok_0.1 == q,
        failure_ok(input@, r),
{
    if q < toks.len() && starts_value_exec(toks[q].kind) {
        assert(toks@[first as int].end <= toks@[q as int].start);
        Err(Failure { kind: kind, start: toks[first].start, end: toks[q].end })
    } else {
        Ok((e, q))
    }
}

/// `v` with the pair `(op, e)` at its end, and the pairs of a chain `r` that was
/// read after it.
proof fn lemma_push_pair(
    v: Seq<(Operator, Box<AstNode>)>,
    op: Operator,
    e: AstNode,
    r: Result<(Seq<(Operator, Expr)>, nat), Failure>,
)
    ensures
        pairs_view(v.push((op, Box::new(e)))) == pairs_view(v) + seq![(op, e@)],
        prepend_pairs(pairs_view(v), prepend_pairs(seq![(op, e@)], r)) == prepend_pairs(
            pairs_view(v.push((op, Box::new(e)))),
            r,
        ),
{
    assert(pairs_view(v.push((op, Box::new(e)))) =~= pairs_view(v) + seq![(op, e@)]);
    match r {
        Ok((rest, q)) => {
            assert(pairs_view(v) + (seq![(op, e@)] + rest) =~= pairs_view(v) + seq![(op, e@)] + rest);
        },
        Err(_) => {},
    }
}

/// The `+` and `-` pairs of a sum from token `q0` on.
fn sum_rest_exec(input: &str, toks: &Vec<Token>, q0: usize) -> (r: Result<
    (Vec<(Operator, Box<AstNode>)>, usize),
    Failure,
>)
    requires
        tokens_wf(input@, toks@),
        0 < q0 <= toks@.len(),
    ensures
        match r {
            Ok((v, q)) => sum_rest(input@, toks@, q0 as nat) == Ok::<
                (Seq<(Operator, Expr)>, nat),
                Failure,
            >((pairs_view(v@), q as nat)) && q0 <= q <= toks@.len(),
            Err(f) => sum_rest(input@, toks@, q0 as nat) == Err::<(Seq<(Operator, Expr)>, nat), Failure>(f)
                && failure_ok(input@, Err(f)),
        },
    decreases toks@.len() - q0, 5nat,
{
    let mut rhs: Vec<(Operator, Box<AstNode>)> = Vec::new();
    let mut q = q0;
    while q < toks.len() && is_sign_exec(toks[q].kind)
        invariant
            tokens_wf(input@, toks@),
            0 < q0 <= q <= toks@.len(),
            sum_rest(input@, toks@, q0 as nat) == prepend_pairs(
                pairs_view(rhs@),
                sum_rest(input@, toks@, q as nat),
            ),
        decreases toks@.len() - q,
    {
        let op = operator_of(toks[q].kind);
        match product_exec(input, toks, q + 1) {
            Err(f) => {
                return Err(f);
            },
            Ok((e, q2)) => {
                proof {
                    lemma_push_pair(rhs@, op, e, sum_rest(input@, toks@, q2 as nat));
                }
                rhs.push((op, Box::new(e)));
                q = q2;
            },
        }
    }
    proof {
        assert(pairs_view(rhs@) + seq![] =~= pairs_view(rhs@));
    }
    Ok((rhs, q))
}

/// The `*` and `/` pairs of a product from token `q0` on.
fn product_rest_exec(input: &str, toks: &Vec<Token>, q0: usize) -> (r: Result<
    (Vec<(Operator, Box<AstNode>)>, usize),
    Failure,
>)
    requires
        tokens_wf(input@, toks@),
        0 < q0 <= toks@.len(),
    ensures
        match r {
            Ok((v, q)) => product_rest(input@, toks@, q0 as nat) == Ok::<
                (Seq<(Operator, Expr)>, nat),
                Failure,
            >((pairs_view(v@), q as nat)) && q0 <= q <= toks@.len(),
            Err(f) => product_rest(input@, toks@, q0 as nat) == Err::<
                (Seq<(Operator, Expr)>, nat),
                Failure,
            >(f) && failure_ok(input@, Err(f)),
        },
    decreases toks@.len() - q0, 4nat,
{
    let mut rhs: Vec<(Operator, Box<AstNode>)> = Vec::new();
    let mut q = q0;
    while q < toks.len() && is_mul_div_exec(toks[q].kind)
        invariant
            tokens_wf(input@, toks@),
            0 < q0 <= q <= toks@.len(),
            product_rest(input@, toks@, q0 as nat) == prepend_pairs(
                pairs_view(rhs@),
                product_rest(input@, toks@, q as nat),
            ),
        decreases toks@.len() - q,
    {
        let op = operator_of(toks[q].kind);
        match power_exec(input, toks, q + 1) {
            Err(f) => {
                return Err(f);
            },
            Ok((e, q2)) => {
                proof {
                    lemma_push_pair(rhs@, op, e, product_rest(input@, toks@, q2 as nat));
                }
                rhs.push((op, Box::new(e)));
                q = q2;
            },
        }
    }
    proof {
        assert(pairs_view(rhs@) + seq![] =~= pairs_view(rhs@));
    }
    Ok((rhs, q))
}

fn sum_exec(input: &str, toks: &Vec<Token>, p: usize) -> (r: Result<(AstNode, usize), Failure>)
    requires
        tokens_wf(input@, toks@),
        p <= toks@.len(),
    ensures
        res_view(r) == sum_at(input@, toks@, p as nat),
        r is Ok ==> p < r->Ok_0.1 <= toks@.len(),
        failure_ok(input@, r),
    decreases toks@.len() - p, 6nat,
{
    match product_exec(input, toks, p) {
        Err(f) => Err(f),
        Ok((lhs, q0)) => match sum_rest_exec(input, toks, q0) {
            Err(f) => Err(f),
            Ok((rhs, q)) => Ok((make_chain(lhs, rhs), q)),
        },
    }
}

fn product_exec(input: &str, toks: &Vec<Token>, p: usize) -> (r: Result<(AstNode, usize), Failure>)
    requires
        tokens_wf(input@, toks@),
        p <= toks@.len(),
    ensures
        res_view(r) == product_at(input@, toks@, p as nat),
        r is Ok ==> p < r->Ok_0.1 <= toks@.len(),
        failure_ok(input@, r),
    decreases toks@.len() - p, 4nat,
{
    match power_exec(input, toks, p) {
        Err(f) => Err(f),
        Ok((lhs, q0)) => match product_rest_exec(input, toks, q0) {
            Err(f) => Err(f),
            Ok((rhs, q)) => Ok((make_chain(lhs, rhs), q)),
        },
    }
}

/// The end of the chain of `^` and signed values from token `q0` on.
fn pow_chain_exec(input: &str, toks: &Vec<Token>, q0: usize) -> (r: Result<usize, Failure>)
    requires
        tokens_wf(input@, toks@),
        0 < q0 < toks@.len(),
        toks@[q0 as int].kind == TokenKind::Op(Operator::Pow),
    ensures
        match r {
            Ok(q) => pow_chain_end(input@, toks@, q0 as nat) == Ok::<nat, Failure>(q as nat) && q0 < q <= toks@.len(),
            Err(f) => pow_chain_end(input@, toks@, q0 as nat) == Err::<nat, Failure>(f) && failure_ok(
                input@,
                Err::<(AstNode, usize), Failure>(f),
            ),
        },
    decreases toks@.len() - q0, 3nat,
{
    let mut q = q0;
    while q < toks.len() && toks[q].kind == TokenKind::Op(Operator::Pow)
        invariant
            tokens_wf(input@, toks@),
            0 < q0 <= q <= toks@.len(),
            q0 < q || toks@[q0 as int].kind == TokenKind::Op(Operator::Pow),
            pow_chain_end(input@, toks@, q0 as nat) == pow_chain_end(input@, toks@, q as nat),
        decreases toks@.len() - q,
    {
        match unary_exec(input, toks, q + 1) {
            Err(f) => {
                return Err(f);
            },
            Ok((_, q2)) => {
                q = q2;
            },
        }
    }
    Ok(q)
}

#[verifier::rlimit(50)]
fn power_exec(input: &str, toks: &Vec<Token>, p: usize) -> (r: Result<(AstNode, usize), Failure>)
    requires
        tokens_wf(input@, toks@),
        p <= toks@.len(),
    ensures
        res_view(r) == power_at(input@, toks@, p as nat),
        r is Ok ==> p < r->Ok_0.1 <= toks@.len(),
        failure_ok(input@, r),
    decreases toks@.len() - p, 3nat,
{
    match unary_exec(input, toks, p) {
        Err(f) => Err(f),
        Ok((b, q)) => {
            if q < toks.len() && toks[q].kind == TokenKind::Op(Operator::Pow) {
                match unary_exec(input, toks, q + 1) {
                    Err(f) => Err(f),
                    Ok((x, q2)) => {
                        if q2 < toks.len() && toks[q2].kind == TokenKind::Op(Operator::Pow) {
                            match pow_chain_exec(input, toks, q2) {
                                Err(f) => Err(f),
                                Ok(q3) => {
                                    assert(toks@[p as int].end <= toks@[q3 - 1].start);
                                    Err(
                                        Failure {
                                            kind: ErrorKind::PowAmbiguity,
                                            start: toks[p].start,
                                            end: toks[q3 - 1].end,
                                        },
                                    )
                                },
                            }
                        } else {
                            Ok((AstNode::PowOp { base: Box::new(b), exp: Box::new(x) }, q2))
                        }
                    },
                }
            } else {
                Ok((b, q))
            }
        },
    }
}

fn unary_exec(input: &str, toks: &Vec<Token>, p: usize) -> (r: Result<(AstNode, usize), Failure>)
    requires
        tokens_wf(input@, toks@),
        p <= toks@.len(),
    ensures
        res_view(r) == unary_at(input@, toks@, p as nat),
        r is Ok ==> p < r->Ok_0.1 <= toks@.len(),
        failure_ok(input@, r),
    decreases toks@.len() - p, 2nat,
{
    if p < toks.len() && is_sign_exec(toks[p].kind) {
        if p + 1 < toks.len() && is_sign_exec(toks[p + 1].kind) {
            assert(toks@[p as int].end <= toks@[p + 1].start);
            Err(Failure { kind: ErrorKind::MultipleSigns, start: toks[p].start, end: toks[p + 1].end })
        } else {
            let op = operator_of(toks[p].kind);
            match value_exec(input, toks, p + 1) {
                Ok((e, q)) => Ok((AstNode::UnaryOp { operator: op, arg: Box::new(e) }, q)),
                Err(f) => Err(f),
            }
        }
    } else {
        value_exec(input, toks, p)
    }
}

#[verifier::rlimit(50)]
fn value_exec(input: &str, toks: &Vec<Token>, p: usize) -> (r: Result<(AstNode, usize), Failure>)
    requires
        tokens_wf(input@, toks@),
        p <= toks@.len(),
    ensures
        res_view(r) == value_at(input@, toks@, p as nat),
        r is Ok ==> p < r->Ok_0.1 <= toks@.len(),
        failure_ok(input@, r),
    decreases toks@.len() - p, 1nat,
{
    if p >= toks.len() {
        return Err(failed_parse_exec());
    }
    let tok = toks[p];
    assert(tok.start <= tok.end <= input@.len());
    match tok.kind {
        TokenKind::Number => {
            let txt = String::from_str(input.substring_char(tok.start, tok.end));
            end_value_exec(input, toks, p, p + 1, AstNode::Number(txt), ErrorKind::ImplicitProduct)
        },
        TokenKind::Ident => {
            let txt = String::from_str(input.substring_char(tok.start, tok.end));
            end_value_exec(input, toks, p, p + 1, AstNode::Ident(txt), ErrorKind::MultipleExpressions)
        },
        TokenKind::Keyword(f) => {
            if p + 1 < toks.len() && toks[p + 1].kind == TokenKind::Open {
                match sum_exec(input, toks, p + 2) {
                    Ok((e, q)) => {
                        if q < toks.len() && toks[q].kind == TokenKind::Close {
                            end_value_exec(
                                input,
                                toks,
                                p,
                                q + 1,
                                AstNode::Func { func: f, arg: Box::new(e) },
                                ErrorKind::MultipleExpressions,
                            )
                        } else {
                            Err(failed_parse_exec())
                        }
                    },
                    Err(x) => Err(x),
                }
            } else {
                Err(Failure { kind: ErrorKind::MissingParenthesis, start: tok.start, end: tok.end })
            }
        },
        TokenKind::Open => {
            match sum_exec(input, toks, p + 1) {
                Ok((e, q)) => {
                    if q < toks.len() && toks[q].kind == TokenKind::Close {
                        end_value_exec(input, toks, p, q + 1, e, ErrorKind::MultipleExpressions)
                    } else {
                        Err(failed_parse_exec())
                    }
                },
                Err(x) => Err(x),
            }
        },
        TokenKind::Pipe => {
            match sum_exec(input, toks, p + 1) {
                Ok((e, q)) => {
                    if q < toks.len() && toks[q].kind == TokenKind::Pipe {
                        end_value_exec(
                            input,
                            toks,
                            p,
                            q + 1,
                            AstNode::Func { func: MathFunc::Abs, arg: Box::new(e) },
                            ErrorKind::MultipleExpressions,
                        )
                    } else {
                        Err(failed_parse_exec())
                    }
                },
                Err(x) => Err(x),
            }
        },
        TokenKind::Op(_) => {
            let start = if p > 0 {
                assert(toks@[p - 1].end <= toks@[p as int].start);
                toks[p - 1].start
            } else {
                tok.start
            };
            Err(Failure { kind: ErrorKind::MultipleOps, start: start, end: tok.end })
        },
        TokenKind::Close => Err(failed_parse_exec()),
    }
}

fn line_exec(input: &str, toks: &Vec<Token>) -> (r: Result<AstNode, Failure>)
    requires
        tokens_wf(input@, toks@),
    ensures
        match r {
            Ok(a) => line_at(input@, toks@) == Ok::<Expr, Failure>(a@),
            Err(f) => line_at(input@, toks@) == Err::<Expr, Failure>(f) && failure_wf(input@, f)
                && f.kind != ErrorKind::InvalidCharacter && f.kind != ErrorKind::InternalError
                && f.kind != ErrorKind::UnreachableMatch,
        },
{
    match sum_exec(input, toks, 0) {
        Ok((e, q)) => {
            if q == toks.len() {
                Ok(e)
            } else {
                Err(failed_parse_exec())
            }
        },
        Err(f) => Err(f),
    }
}

/// The text in front of the quoted part of a message.
fn message_prefix_exec(k: ErrorKind) -> (r: &'static str)
    ensures
        r@ == message_prefix(k),
{
    match k {
        ErrorKind::MissingParenthesis => "Please use parenthesis for mathematical functions: `",
        ErrorKind::MultipleExpressions => "Found two or more expressions without any operator within them: `",
        ErrorKind::MultipleOps => "Too many operation symbols chained together: `",
        ErrorKind::MultipleSigns => "Remove the extra sign from this expression: `",
        ErrorKind::ImplicitProduct => "Please avoid using implicit products: `",
        ErrorKind::PowAmbiguity => "Three exponentiations create ambiguity, please add parenthesis: `",
        ErrorKind::InvalidCharacter => "The input contains an invalid symbol: `",
        ErrorKind::FailedParse => "Failed to parse. Please check the expression for mismatched parenthesis or other errors",
        ErrorKind::InternalError => "unexpected token positions while parsing the expression",
        ErrorKind::UnreachableMatch => "matched an unexpected rule",
    }
}

/// The error, with its message, for a failure on the input `input`.
pub fn make_error(input: &str, f: Failure) -> (e: AstError)
    requires
        failure_wf(input@, f),
    ensures
        e.kind() == f.kind,
        e.message() == failure_message(input@, f),
{
    let mut m = String::from_str(message_prefix_exec(f.kind));
    let quotes = match f.kind {
        ErrorKind::FailedParse | ErrorKind::InternalError | ErrorKind::UnreachableMatch => false,
        _ => true,
    };
    if quotes {
        m.append(input.substring_char(f.start, f.end));
        m.append("`");
    }
    match f.kind {
        ErrorKind::MissingParenthesis => AstError::MissingParenthesis(m),
        ErrorKind::MultipleExpressions => AstError::MultipleExpressions(m),
        ErrorKind::MultipleOps => AstError::MultipleOps(m),
        ErrorKind::MultipleSigns => AstError::MultipleSigns(m),
        ErrorKind::ImplicitProduct => AstError::ImplicitProduct(m),
        ErrorKind::InternalError => AstError::InternalError(m),
        ErrorKind::UnreachableMatch => AstError::UnreachableMatch(m),
        ErrorKind::PowAmbiguity => AstError::PowAmbiguity(m),
        ErrorKind::FailedParse => AstError::FailedParse(m),
        ErrorKind::InvalidCharacter => AstError::InvalidCharacter(m),
    }
}

proof fn lemma_first_invalid(s: Seq<char>, i: nat)
    ensures
        first_invalid(s, i) is None <==> forall|j: int| i <= j < s.len() ==> is_valid_char(#[trigger] s[j]),
        first_invalid(s, i) matches Some(k) ==> i <= k < s.len() && !is_valid_char(s[k as int]),
    decreases s.len() - i,
{
    if i < s.len() {
        lemma_first_invalid(s, i + 1);
    }
}

/// Parses an expression typed by the user.
///
/// The result is the one that the grammar gives (`parse_spec`). Beyond that: the
/// input is refused as holding an invalid character exactly when one of its
/// characters may not appear in an expression, and the parser never reports an
/// error of its own making.
pub fn parse_expression(expr: &str) -> (r: Result<AstNode, AstError>)
    ensures
        match r {
            Ok(ast) => parse_spec(expr@) == Ok::<Expr, Failure>(ast@),
            Err(e) => parse_spec(expr@) is Err && e.kind() == parse_spec(expr@)->Err_0.kind
                && e.message() == failure_message(expr@, parse_spec(expr@)->Err_0),
        },
        (r is Err && r->Err_0.kind() == ErrorKind::InvalidCharacter) <==> exists|i: int|
            0 <= i < expr@.len() && !is_valid_char(#[trigger] expr@[i]),
        r is Err ==> r->Err_0.kind() != ErrorKind::InternalError && r->Err_0.kind()
            != ErrorKind::UnreachableMatch,
{
    let chars = chars_of(expr);
    proof {
        lemma_first_invalid(expr@, 0);
    }
    let mut i: usize = 0;
    while i < chars.len()
        invariant
            i <= chars@.len(),
            chars@ == expr@,
            first_invalid(expr@, 0) == first_invalid(expr@, i as nat),
        decreases chars@.len() - i,
    {
        if !is_valid_char_exec(chars[i]) {
            let f = Failure { kind: ErrorKind::InvalidCharacter, start: i, end: i + 1 };
            return Err(make_error(expr, f));
        }
        i = i + 1;
    }
    match tokenize(&chars) {
        None => Err(make_error(expr, failed_parse_exec())),
        Some(toks) => match line_exec(expr, &toks) {
            Ok(a) => Ok(a),
            Err(f) => Err(make_error(expr, f)),
        },
    }
}

} // verus!
