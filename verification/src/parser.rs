//! Mathematical expressions typed by the user: a hand-written recursive-descent
//! parser into an abstract syntax tree, and the rendering of that tree into the
//! shading language.
//!
//! The grammar, on characters (spaces may stand between any two tokens):
//!
//! ```text
//! line    := sum END
//! sum     := product (("+" | "-") product)*
//! product := power (("*" | "/") power)*
//! power   := unary ("^" unary)?              (a second "^" is ambiguous)
//! unary   := ("+" | "-")? value
//! value   := number | keyword "(" sum ")" | "|" sum "|" | identifier | "(" sum ")"
//! number  := digit+ ("." digit*)? exponent? | "." digit+ exponent?
//! exponent:= ("e" | "E") ("+" | "-")? digit+
//! identifier := letter (letter | digit | "_")*   (not a keyword)
//! keyword := sin | cos | tan | asin | acos | atan | sqrt | exp | log | abs
//! ```
pub mod grammar;
pub mod lexer;

pub use grammar::parse_expression;

use vstd::prelude::*;

verus! {

/// A binary or unary arithmetic operator of an expression.
#[derive(Debug, Clone, Copy, PartialEq, Eq, Structural)]
pub enum Operator {
    Plus,
    Minus,
    Times,
    Div,
    Pow,
}

/// The one-character symbol of an operator.
pub open spec fn operator_symbol(op: Operator) -> char {
    match op {
        Operator::Plus => '+',
        Operator::Minus => '-',
        Operator::Times => '*',
        Operator::Div => '/',
        Operator::Pow => '^',
    }
}

/// The operator whose symbol is the one-character text `name`.
pub open spec fn operator_from_symbol(name: Seq<char>) -> Option<Operator> {
    if name == seq!['+'] {
        Some(Operator::Plus)
    } else if name == seq!['-'] {
        Some(Operator::Minus)
    } else if name == seq!['*'] {
        Some(Operator::Times)
    } else if name == seq!['/'] {
        Some(Operator::Div)
    } else if name == seq!['^'] {
        Some(Operator::Pow)
    } else {
        None
    }
}

impl Operator {
    /// The operator as it is written in an expression.
    pub fn to_string(&self) -> (s: String)
        ensures
            s@ == seq![operator_symbol(*self)],
    {
        proof {
            reveal_strlit("+");
            reveal_strlit("-");
            reveal_strlit("*");
            reveal_strlit("/");
            reveal_strlit("^");
        }
        match self {
            Operator::Plus => String::from_str("+"),
            Operator::Minus => String::from_str("-"),
            Operator::Times => String::from_str("*"),
            Operator::Div => String::from_str("/"),
            Operator::Pow => String::from_str("^"),
        }
    }

    /// The operator written as `name`, one of `+ - * / ^`.
    pub fn from_str(name: &str) -> (op: Self)
        requires
            operator_from_symbol(name@) is Some,
        ensures
            Some(op) == operator_from_symbol(name@),
            seq![operator_symbol(op)] == name@,
    {
        let c = chars_of(name);
        if c[0] == '+' {
            Operator::Plus
        } else if c[0] == '-' {
            Operator::Minus
        } else if c[0] == '*' {
            Operator::Times
        } else if c[0] == '/' {
            Operator::Div
        } else {
            Operator::Pow
        }
    }
}

/// A mathematical function that expressions may call.
#[derive(Debug, Clone, Copy, PartialEq, Eq, Structural)]
pub enum MathFunc {
    Sin,
    Cos,
    Tan,
    Asin,
    Acos,
    Atan,
    Sqrt,
    Exp,
    Log,
    Abs,
}

/// The keyword that names a function.
pub open spec fn func_name(f: MathFunc) -> Seq<char> {
    match f {
        MathFunc::Sin => seq!['s', 'i', 'n'],
        MathFunc::Cos => seq!['c', 'o', 's'],
        MathFunc::Tan => seq!['t', 'a', 'n'],
        MathFunc::Asin => seq!['a', 's', 'i', 'n'],
        MathFunc::Acos => seq!['a', 'c', 'o', 's'],
        MathFunc::Atan => seq!['a', 't', 'a', 'n'],
        MathFunc::Sqrt => seq!['s', 'q', 'r', 't'],
        MathFunc::Exp => seq!['e', 'x', 'p'],
        MathFunc::Log => seq!['l', 'o', 'g'],
        MathFunc::Abs => seq!['a', 'b', 's'],
    }
}

/// The function named by the keyword `name`, if it is one.
pub open spec fn func_from_name(name: Seq<char>) -> Option<MathFunc> {
    if name == func_name(MathFunc::Sin) {
        Some(MathFunc::Sin)
    } else if name == func_name(MathFunc::Cos) {
        Some(MathFunc::Cos)
    } else if name == func_name(MathFunc::Tan) {
        Some(MathFunc::Tan)
    } else if name == func_name(MathFunc::Asin) {
        Some(MathFunc::Asin)
    } else if name == func_name(MathFunc::Acos) {
        Some(MathFunc::Acos)
    } else if name == func_name(MathFunc::Atan) {
        Some(MathFunc::Atan)
    } else if name == func_name(MathFunc::Sqrt) {
        Some(MathFunc::Sqrt)
    } else if name == func_name(MathFunc::Exp) {
        Some(MathFunc::Exp)
    } else if name == func_name(MathFunc::Log) {
        Some(MathFunc::Log)
    } else if name == func_name(MathFunc::Abs) {
        Some(MathFunc::Abs)
    } else {
        None
    }
}

/// Whether `name` is one of the function keywords.
pub open spec fn is_keyword(name: Seq<char>) -> bool {
    func_from_name(name) is Some
}

impl MathFunc {
    /// The function named by the keyword `name`.
    pub fn from_str(name: &str) -> (f: Self)
        requires
            is_keyword(name@),
        ensures
            Some(f) == func_from_name(name@),
            func_name(f) == name@,
    {
        let c = chars_of(name);
        match func_from_chars(&c) {
            Some(f) => f,
            None => MathFunc::Abs,
        }
    }

    /// The keyword that names the function.
    pub fn to_string(&self) -> (s: String)
        ensures
            s@ == func_name(*self),
    {
        proof {
            reveal_strlit("sin");
            reveal_strlit("cos");
            reveal_strlit("tan");
            reveal_strlit("asin");
            reveal_strlit("acos");
            reveal_strlit("atan");
            reveal_strlit("sqrt");
            reveal_strlit("exp");
            reveal_strlit("log");
            reveal_strlit("abs");
        }
        match self {
            MathFunc::Sin => String::from_str("sin"),
            MathFunc::Cos => String::from_str("cos"),
            MathFunc::Tan => String::from_str("tan"),
            MathFunc::Asin => String::from_str("asin"),
            MathFunc::Acos => String::from_str("acos"),
            MathFunc::Atan => String::from_str("atan"),
            MathFunc::Sqrt => String::from_str("sqrt"),
            MathFunc::Exp => String::from_str("exp"),
            MathFunc::Log => String::from_str("log"),
            MathFunc::Abs => String::from_str("abs"),
        }
    }
}

/// The characters of `s`, in order.
pub fn chars_of(s: &str) -> (v: Vec<char>)
    ensures
        v@ == s@,
{
    let mut v: Vec<char> = Vec::new();
    for c in it: s.chars()
        invariant
            v@ == it.seq().take(it.index() as int),
    {
        v.push(c);
    }
    v
}

/// Whether `w` equals the literal `lit`.
fn chars_eq(w: &[char], lit: &[char]) -> (r: bool)
    ensures
        r == (w@ == lit@),
{
    if w.len() != lit.len() {
        return false;
    }
    let mut i: usize = 0;
    while i < w.len()
        invariant
            w@.len() == lit@.len(),
            0 <= i <= w@.len(),
            forall|j: int| 0 <= j < i ==> w@[j] == lit@[j],
        decreases w@.len() - i,
    {
        if w[i] != lit[i] {
            return false;
        }
        i = i + 1;
    }
    assert(w@ =~= lit@);
    true
}

/// The function named by the word `w`, if it is a keyword.
pub fn func_from_chars(w: &[char]) -> (r: Option<MathFunc>)
    ensures
        r == func_from_name(w@),
{
    if chars_eq(w, &['s', 'i', 'n']) {
        Some(MathFunc::Sin)
    } else if chars_eq(w, &['c', 'o', 's']) {
        Some(MathFunc::Cos)
    } else if chars_eq(w, &['t', 'a', 'n']) {
        Some(MathFunc::Tan)
    } else if chars_eq(w, &['a', 's', 'i', 'n']) {
        Some(MathFunc::Asin)
    } else if chars_eq(w, &['a', 'c', 'o', 's']) {
        Some(MathFunc::Acos)
    } else if chars_eq(w, &['a', 't', 'a', 'n']) {
        Some(MathFunc::Atan)
    } else if chars_eq(w, &['s', 'q', 'r', 't']) {
        Some(MathFunc::Sqrt)
    } else if chars_eq(w, &['e', 'x', 'p']) {
        Some(MathFunc::Exp)
    } else if chars_eq(w, &['l', 'o', 'g']) {
        Some(MathFunc::Log)
    } else if chars_eq(w, &['a', 'b', 's']) {
        Some(MathFunc::Abs)
    } else {
        None
    }
}

/// The parser of expressions typed by the user.
pub struct ExprParser;

/// The mathematical value of an expression tree: what it says, without the storage.
pub ghost enum Expr {
    Number(Seq<char>),
    Ident(Seq<char>),
    Unary(Operator, Box<Expr>),
    Pow(Box<Expr>, Box<Expr>),
    Bin(Box<Expr>, Seq<(Operator, Expr)>),
    Func(MathFunc, Box<Expr>),
}

/// An expression tree. A number keeps the text in which it was written.
#[derive(Debug)]
pub enum AstNode {
    Number(String),
    Ident(String),
    UnaryOp { operator: Operator, arg: Box<AstNode> },
    PowOp { base: Box<AstNode>, exp: Box<AstNode> },
    BinOp { lhs: Box<AstNode>, repeated_rhs: Vec<(Operator, Box<AstNode>)> },
    Func { func: MathFunc, arg: Box<AstNode> },
}

/// Why an expression could not be parsed; each carries a message for the user.
#[derive(Debug)]
pub enum AstError {
    MissingParenthesis(String),
    MultipleExpressions(String),
    MultipleOps(String),
    MultipleSigns(String),
    ImplicitProduct(String),
    InternalError(String),
    UnreachableMatch(String),
    PowAmbiguity(String),
    FailedParse(String),
    InvalidCharacter(String),
}

impl AstNode {
    /// The expression in the shading language: numbers as written, unary operators
    /// and functions applied to a parenthesized argument, powers through `pow`, and
    /// chains of binary operators inside one pair of parentheses.
    pub open spec fn render(self) -> Seq<char>
        decreases self, 1nat, 0nat,
    {
        match self {
            AstNode::Number(text) => text@,
            AstNode::Ident(ident) => ident@,
            AstNode::UnaryOp { operator, arg } => seq![operator_symbol(operator), '('] + arg.render()
                + seq![')'],
            AstNode::PowOp { base, exp } => seq!['p', 'o', 'w', '('] + base.render() + seq![','] + exp.render()
                + seq![')'],
            AstNode::BinOp { lhs, repeated_rhs } => seq!['('] + lhs.render() + Self::render_rhs(
                self,
                0,
            ) + seq![')'],
            AstNode::Func { func, arg } => func_name(func) + seq!['('] + arg.render() + seq![')'],
        }
    }

    /// The rendering of the operator/operand pairs of a chain from pair `i` on: each as
    /// a space, the operator, a space and the operand.
    pub open spec fn render_rhs(node: AstNode, i: nat) -> Seq<char>
        decreases node, 0nat, (if node is BinOp { node->repeated_rhs@.len() } else { 0 }) - i,
    {
        match node {
            AstNode::BinOp { lhs, repeated_rhs } => if i < repeated_rhs@.len() {
                let pair = repeated_rhs@[i as int];
                proof {
                    assert(decreases_to!(node => repeated_rhs));
                    assert(decreases_to!(repeated_rhs => repeated_rhs@));
                    assert(decreases_to!(repeated_rhs@ => repeated_rhs@[i as int]));
                }
                seq![' ', operator_symbol(pair.0), ' '] + pair.1.render() + Self::render_rhs(
                    node,
                    i + 1,
                )
            } else {
                seq![]
            },
            _ => seq![],
        }
    }
}

impl AstNode {
    /// The value of the tree.
    pub open spec fn view_expr(self) -> Expr
        decreases self, 1nat, 0nat,
    {
        match self {
            AstNode::Number(text) => Expr::Number(text@),
            AstNode::Ident(ident) => Expr::Ident(ident@),
            AstNode::UnaryOp { operator, arg } => Expr::Unary(operator, Box::new(arg.view_expr())),
            AstNode::PowOp { base, exp } => Expr::Pow(Box::new(base.view_expr()), Box::new(exp.view_expr())),
            AstNode::BinOp { lhs, .. } => Expr::Bin(Box::new(lhs.view_expr()), Self::rhs_view(self, 0)),
            AstNode::Func { func, arg } => Expr::Func(func, Box::new(arg.view_expr())),
        }
    }

    /// The values of the operator/operand pairs of a chain from pair `i` on.
    pub open spec fn rhs_view(node: AstNode, i: nat) -> Seq<(Operator, Expr)>
        decreases node, 0nat, (if node is BinOp { node->repeated_rhs@.len() } else { 0 }) - i,
    {
        match node {
            AstNode::BinOp { lhs, repeated_rhs } => if i < repeated_rhs@.len() {
                proof {
                    assert(decreases_to!(node => repeated_rhs));
                    assert(decreases_to!(repeated_rhs => repeated_rhs@));
                    assert(decreases_to!(repeated_rhs@ => repeated_rhs@[i as int]));
                }
                seq![(repeated_rhs@[i as int].0, repeated_rhs@[i as int].1.view_expr())] + Self::rhs_view(node, i + 1)
            } else {
                seq![]
            },
            _ => seq![],
        }
    }
}

/// The values of the operator/operand pairs of a chain.
pub open spec fn pairs_view(v: Seq<(Operator, Box<AstNode>)>) -> Seq<(Operator, Expr)> {
    v.map_values(|x: (Operator, Box<AstNode>)| (x.0, x.1.view_expr()))
}

/// The values of the pairs of a chain from pair `i` on are those of its operands.
pub proof fn lemma_rhs_view(node: AstNode, i: nat)
    requires
        node is BinOp,
        i <= node->repeated_rhs@.len(),
    ensures
        AstNode::rhs_view(node, i) == pairs_view(
            node->repeated_rhs@.subrange(i as int, node->repeated_rhs@.len() as int),
        ),
    decreases node->repeated_rhs@.len() - i,
{
    let v = node->repeated_rhs@;
    if i < v.len() {
        lemma_rhs_view(node, i + 1);
        assert(pairs_view(v.subrange(i as int, v.len() as int)) =~= seq![(v[i as int].0, v[i as int].1.view_expr())]
            + pairs_view(v.subrange(i + 1int, v.len() as int)));
    } else {
        assert(pairs_view(v.subrange(i as int, v.len() as int)) =~= seq![]);
    }
}

impl Expr {
    /// The expression in the shading language: numbers as written, unary operators
    /// and functions applied to a parenthesized argument, powers through `pow`, and
    /// chains of binary operators inside one pair of parentheses.
    pub open spec fn render(self) -> Seq<char>
        decreases self, 1nat, 0nat,
    {
        match self {
            Expr::Number(text) => text,
            Expr::Ident(ident) => ident,
            Expr::Unary(operator, arg) => seq![operator_symbol(operator), '('] + arg.render() + seq![')'],
            Expr::Pow(base, exp) => seq!['p', 'o', 'w', '('] + base.render() + seq![','] + exp.render() + seq![')'],
            Expr::Bin(lhs, _) => seq!['('] + lhs.render() + Self::render_pairs(self, 0) + seq![')'],
            Expr::Func(func, arg) => func_name(func) + seq!['('] + arg.render() + seq![')'],
        }
    }

    /// The rendering of the operator/operand pairs of a chain from pair `i` on.
    pub open spec fn render_pairs(e: Expr, i: nat) -> Seq<char>
        decreases e, 0nat, (if e is Bin { e->Bin_1.len() } else { 0 }) - i,
    {
        match e {
            Expr::Bin(_, rest) => if i < rest.len() {
                proof {
                    assert(decreases_to!(e => rest));
                    assert(decreases_to!(rest => rest[i as int]));
                }
                seq![' ', operator_symbol(rest[i as int].0), ' '] + rest[i as int].1.render() + Self::render_pairs(e, i + 1)
            } else {
                seq![]
            },
            _ => seq![],
        }
    }

    /// The identifiers of the expression, left to right, repeats included.
    pub open spec fn idents(self) -> Seq<Seq<char>>
        decreases self, 1nat, 0nat,
    {
        match self {
            Expr::Number(_) => seq![],
            Expr::Ident(ident) => seq![ident],
            Expr::Unary(_, arg) => arg.idents(),
            Expr::Pow(base, exp) => base.idents() + exp.idents(),
            Expr::Bin(lhs, _) => lhs.idents() + Self::idents_pairs(self, 0),
            Expr::Func(_, arg) => arg.idents(),
        }
    }

    /// The identifiers of the operands of a chain from pair `i` on.
    pub open spec fn idents_pairs(e: Expr, i: nat) -> Seq<Seq<char>>
        decreases e, 0nat, (if e is Bin { e->Bin_1.len() } else { 0 }) - i,
    {
        match e {
            Expr::Bin(_, rest) => if i < rest.len() {
                proof {
                    assert(decreases_to!(e => rest));
                    assert(decreases_to!(rest => rest[i as int]));
                }
                rest[i as int].1.idents() + Self::idents_pairs(e, i + 1)
            } else {
                seq![]
            },
            _ => seq![],
        }
    }
}

/// A tree and its value render alike and hold the same identifiers.
pub proof fn lemma_render_view(node: AstNode)
    ensures
        node.render() == node.view_expr().render(),
        node.idents() == node.view_expr().idents(),
    decreases node, 1nat, 0nat,
{
    match node {
        AstNode::Number(_) => {},
        AstNode::Ident(_) => {},
        AstNode::UnaryOp { arg, .. } => {
            lemma_render_view(*arg);
        },
        AstNode::PowOp { base, exp } => {
            lemma_render_view(*base);
            lemma_render_view(*exp);
        },
        AstNode::BinOp { lhs, repeated_rhs } => {
            lemma_render_view(*lhs);
            lemma_rhs_view(node, 0);
            assert(repeated_rhs@.subrange(0, repeated_rhs@.len() as int) =~= repeated_rhs@);
            lemma_render_rhs_view(node, 0);
        },
        AstNode::Func { arg, .. } => {
            lemma_render_view(*arg);
        },
    }
}

proof fn lemma_render_rhs_view(node: AstNode, i: nat)
    requires
        node is BinOp,
        i <= node->repeated_rhs@.len(),
        AstNode::rhs_view(node, 0) == pairs_view(node->repeated_rhs@),
    ensures
        AstNode::render_rhs(node, i) == Expr::render_pairs(node.view_expr(), i),
        AstNode::idents_rhs(node, i) == Expr::idents_pairs(node.view_expr(), i),
    decreases node, 0nat, node->repeated_rhs@.len() - i,
{
    let v = node->repeated_rhs@;
    if i < v.len() {
        assert(decreases_to!(node => node->repeated_rhs));
        assert(decreases_to!(node->repeated_rhs => v));
        assert(decreases_to!(v => v[i as int]));
        lemma_render_view(*v[i as int].1);
        lemma_render_rhs_view(node, i + 1);
    }
}

impl View for AstNode {
    type V = Expr;

    open spec fn view(&self) -> Expr {
        self.view_expr()
    }
}

impl AstNode {
    /// The identifiers of the expression, left to right, repeats included.
    pub open spec fn idents(self) -> Seq<Seq<char>>
        decreases self, 1nat, 0nat,
    {
        match self {
            AstNode::Number(_) => seq![],
            AstNode::Ident(ident) => seq![ident@],
            AstNode::UnaryOp { arg, .. } => arg.idents(),
            AstNode::PowOp { base, exp } => base.idents() + exp.idents(),
            AstNode::BinOp { lhs, .. } => lhs.idents() + Self::idents_rhs(self, 0),
            AstNode::Func { arg, .. } => arg.idents(),
        }
    }

    /// The identifiers of the operands of a chain from pair `i` on.
    pub open spec fn idents_rhs(node: AstNode, i: nat) -> Seq<Seq<char>>
        decreases node, 0nat, (if node is BinOp { node->repeated_rhs@.len() } else { 0 }) - i,
    {
        match node {
            AstNode::BinOp { lhs, repeated_rhs } => if i < repeated_rhs@.len() {
                proof {
                    assert(decreases_to!(node => repeated_rhs));
                    assert(decreases_to!(repeated_rhs => repeated_rhs@));
                    assert(decreases_to!(repeated_rhs@ => repeated_rhs@[i as int]));
                }
                repeated_rhs@[i as int].1.idents() + Self::idents_rhs(node, i + 1)
            } else {
                seq![]
            },
            _ => seq![],
        }
    }

    /// The expression written in the shading language.
    pub fn to_string(&self) -> (r: String)
        ensures
            r@ == self.render(),
            r@ == self@.render(),
        decreases self,
    {
        proof {
            reveal_strlit("(");
            reveal_strlit(")");
            reveal_strlit(",");
            reveal_strlit(" ");
            reveal_strlit("pow(");
            lemma_render_view(*self);
        }
        match self {
            AstNode::Number(text) => text.clone(),
            AstNode::Ident(ident) => ident.clone(),
            AstNode::UnaryOp { operator, arg } => {
                let mut r = operator.to_string();
                r.append("(");
                let a = arg.to_string();
                r.append(a.as_str());
                r.append(")");
                r
            },
            AstNode::PowOp { base, exp } => {
                let mut r = String::from_str("pow(");
                let b = base.to_string();
                r.append(b.as_str());
                r.append(",");
                let e = exp.to_string();
                r.append(e.as_str());
                r.append(")");
                r
            },
            AstNode::BinOp { lhs, repeated_rhs } => {
                let mut r = String::from_str("(");
                let l = lhs.to_string();
                r.append(l.as_str());
                let mut i: usize = 0;
                let ghost node = *self;
                while i < repeated_rhs.len()
                    invariant
                        node == *self,
                        node is BinOp,
                        node->repeated_rhs == *repeated_rhs,
                        node->lhs == *lhs,
                        0 <= i <= repeated_rhs@.len(),
                        r@ + Self::render_rhs(node, i as nat) == seq!['('] + lhs.render() + Self::render_rhs(node, 0),
                    decreases repeated_rhs@.len() - i,
                {
                    let pair = &repeated_rhs[i];
                    proof {
                        assert(decreases_to!(*self => *repeated_rhs));
                        assert(decreases_to!(*repeated_rhs => repeated_rhs@));
                        assert(decreases_to!(repeated_rhs@ => repeated_rhs@[i as int]));
                    }
                    proof {
                        reveal_strlit(" ");
                    }
                    let ghost r0 = r@;
                    r.append(" ");
                    let op = pair.0.to_string();
                    r.append(op.as_str());
                    r.append(" ");
                    let t = pair.1.to_string();
                    r.append(t.as_str());
                    proof {
                        let piece = seq![' ', operator_symbol(pair.0), ' '] + pair.1.render();
                        assert(Self::render_rhs(node, i as nat) == piece + Self::render_rhs(node, (i + 1) as nat));
                        assert(r@ =~= r0 + piece);
                        assert(r@ + Self::render_rhs(node, (i + 1) as nat) =~= r0 + Self::render_rhs(node, i as nat));
                    }
                    i = i + 1;
                }
                r.append(")");
                r
            },
            AstNode::Func { func, arg } => {
                let mut r = func.to_string();
                r.append("(");
                let a = arg.to_string();
                r.append(a.as_str());
                r.append(")");
                r
            },
        }
    }

    /// All the identifiers of the expression, left to right, repeats included.
    pub fn find_all_idents(&self) -> (r: Vec<String>)
        ensures
            r@.map_values(|s: String| s@) == self.idents(),
            r@.map_values(|s: String| s@) == self@.idents(),
        decreases self,
    {
        proof {
            lemma_render_view(*self);
        }
        match self {
            AstNode::Number(_) => Vec::new(),
            AstNode::Ident(ident) => {
                let mut v = Vec::new();
                v.push(ident.clone());
                assert(v@.map_values(|s: String| s@) =~= seq![ident@]);
                v
            },
            AstNode::UnaryOp { arg, .. } => arg.find_all_idents(),
            AstNode::PowOp { base, exp } => {
                let mut base_idents = base.find_all_idents();
                let mut exp_idents = exp.find_all_idents();
                let ghost b = base_idents@;
                let ghost e = exp_idents@;
                base_idents.append(&mut exp_idents);
                assert(base_idents@.map_values(|s: String| s@) =~= b.map_values(|s: String| s@) + e.map_values(|s: String| s@));
                base_idents
            },
            AstNode::BinOp { lhs, repeated_rhs } => {
                let mut lhs_idents = lhs.find_all_idents();
                let mut i: usize = 0;
                let ghost node = *self;
                while i < repeated_rhs.len()
                    invariant
                        node == *self,
                        node is BinOp,
                        node->repeated_rhs == *repeated_rhs,
                        node->lhs == *lhs,
                        0 <= i <= repeated_rhs@.len(),
                        lhs_idents@.map_values(|s: String| s@) + Self::idents_rhs(node, i as nat) == lhs.idents() + Self::idents_rhs(node, 0),
                    decreases repeated_rhs@.len() - i,
                {
                    proof {
                        assert(decreases_to!(*self => *repeated_rhs));
                        assert(decreases_to!(*repeated_rhs => repeated_rhs@));
                        assert(decreases_to!(repeated_rhs@ => repeated_rhs@[i as int]));
                    }
                    let mut rhs_idents = repeated_rhs[i].1.find_all_idents();
                    let ghost a = lhs_idents@;
                    let ghost b = rhs_idents@;
                    lhs_idents.append(&mut rhs_idents);
                    assert(lhs_idents@.map_values(|s: String| s@) =~= a.map_values(|s: String| s@) + b.map_values(|s: String| s@));
                    i = i + 1;
                }
                lhs_idents
            },
            AstNode::Func { arg, .. } => arg.find_all_idents(),
        }
    }
}

} // verus!
