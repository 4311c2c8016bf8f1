//! Precedence-climbing parser for arithmetic expressions.
//!
//! Binding powers: prefix `-` binds with power 9; `*` and `/` have left power 7 and right
//! power 8; `+` and `-` have left power 5 and right power 6. An infix operator is taken
//! while its left power is at least the minimum asked for, and its right operand is parsed
//! with its right power as the new minimum, which makes every infix operator associate to
//! the left.

use crate::ast::{Expr, ExprView};
use crate::lexer::{tokens, Lexer, Tok, TokView};
use vstd::prelude::*;

verus! {

/// Why an expression could not be parsed.
#[derive(Debug, PartialEq, Eq)]
pub enum ExprError {
    /// The tokens ended where an operand had to start.
    ExpectedExpression,
    /// A parenthesized expression was not followed by `)`.
    ExpectedRParen,
    /// This token cannot start an operand.
    UnexpectedToken(Tok),
    /// This token follows a complete expression.
    TrailingToken(Tok),
}

/// Mathematical value of an [`ExprError`].
pub ghost enum ExprErrorView {
    ExpectedExpression,
    ExpectedRParen,
    UnexpectedToken(TokView),
    TrailingToken(TokView),
}

impl View for ExprError {
    type V = ExprErrorView;

    open spec fn view(&self) -> ExprErrorView {
        match self {
            ExprError::ExpectedExpression => ExprErrorView::ExpectedExpression,
            ExprError::ExpectedRParen => ExprErrorView::ExpectedRParen,
            ExprError::UnexpectedToken(t) => ExprErrorView::UnexpectedToken(t@),
            ExprError::TrailingToken(t) => ExprErrorView::TrailingToken(t@),
        }
    }
}

impl ExprError {
    /// The error in words.
    pub open spec fn message_spec(e: ExprErrorView) -> Seq<char> {
        match e {
            ExprErrorView::ExpectedExpression => "expected expression"@,
            ExprErrorView::ExpectedRParen => "expected `)`"@,
            ExprErrorView::UnexpectedToken(t) => "unexpected token: "@ + Tok::text_spec(t),
            ExprErrorView::TrailingToken(t) => "unexpected token after expression: "@
                + Tok::text_spec(t),
        }
    }

    /// The error in words.
    pub fn message(&self) -> (text: String)
        ensures
            text@ == ExprError::message_spec(self@),
    {
        match self {
            ExprError::ExpectedExpression => String::from_str("expected expression"),
            ExprError::ExpectedRParen => String::from_str("expected `)`"),
            ExprError::UnexpectedToken(t) => String::from_str("unexpected token: ").concat(
                t.text().as_str(),
            ),
            ExprError::TrailingToken(t) => String::from_str(
                "unexpected token after expression: ",
            ).concat(t.text().as_str()),
        }
    }
}

/// Binding power of prefix minus.
pub const PREFIX_POWER: u8 = 9;

/// An infix operator.
#[derive(Clone, Copy, Debug, PartialEq, Eq, Structural)]
pub enum BinOp {
    Add,
    Sub,
    Mul,
    Div,
}

impl BinOp {
    /// The infix operator that a token stands for, if any.
    pub open spec fn of(tok: TokView) -> Option<BinOp> {
        match tok {
            TokView::Plus => Some(BinOp::Add),
            TokView::Minus => Some(BinOp::Sub),
            TokView::Star => Some(BinOp::Mul),
            TokView::Slash => Some(BinOp::Div),
            _ => None,
        }
    }

    /// How strongly the operator binds the operand on its left.
    pub open spec fn left_power(self) -> u8 {
        match self {
            BinOp::Add | BinOp::Sub => 5,
            BinOp::Mul | BinOp::Div => 7,
        }
    }

    /// How strongly the operator binds the operand on its right.
    pub open spec fn right_power(self) -> u8 {
        match self {
            BinOp::Add | BinOp::Sub => 6,
            BinOp::Mul | BinOp::Div => 8,
        }
    }

    /// The node that the operator builds from its operands.
    pub open spec fn apply(self, lhs: ExprView, rhs: ExprView) -> ExprView {
        match self {
            BinOp::Add => ExprView::Add(Box::new(lhs), Box::new(rhs)),
            BinOp::Sub => ExprView::Sub(Box::new(lhs), Box::new(rhs)),
            BinOp::Mul => ExprView::Mul(Box::new(lhs), Box::new(rhs)),
            BinOp::Div => ExprView::Div(Box::new(lhs), Box::new(rhs)),
        }
    }

    fn infix(tok: &Tok) -> (op: Option<BinOp>)
        ensures
            op == BinOp::of(tok@),
    {
        match tok {
            Tok::Plus => Some(BinOp::Add),
            Tok::Minus => Some(BinOp::Sub),
            Tok::Star => Some(BinOp::Mul),
            Tok::Slash => Some(BinOp::Div),
            _ => None,
        }
    }

    fn powers(self) -> (p: (u8, u8))
        ensures
            p.0 == self.left_power(),
            p.1 == self.right_power(),
    {
        match self {
            BinOp::Add | BinOp::Sub => (5, 6),
            BinOp::Mul | BinOp::Div => (7, 8),
        }
    }

    fn build(self, lhs: Expr, rhs: Expr) -> (node: Expr)
        ensures
            node@ == self.apply(lhs@, rhs@),
    {
        match self {
            BinOp::Add => Expr::Add(Box::new(lhs), Box::new(rhs)),
            BinOp::Sub => Expr::Sub(Box::new(lhs), Box::new(rhs)),
            BinOp::Mul => Expr::Mul(Box::new(lhs), Box::new(rhs)),
            BinOp::Div => Expr::Div(Box::new(lhs), Box::new(rhs)),
        }
    }
}

/// Parses one expression at the front of `toks`, taking infix operators whose left power
/// is at least `min_bp`. Gives the expression and the tokens that follow it.
pub open spec fn parse_bp_spec(toks: Seq<TokView>, min_bp: u8) -> Result<
    (ExprView, Seq<TokView>),
    ExprErrorView,
>
    decreases toks.len(), 1nat,
{
    if toks.len() == 0 {
        Err(ExprErrorView::ExpectedExpression)
    } else {
        let rest = toks.drop_first();
        match toks[0] {
            TokView::Int(v) => climb(ExprView::Int(v), rest, min_bp),
            TokView::Ident(name) => climb(ExprView::Var(name), rest, min_bp),
            TokView::Minus => match parse_bp_spec(rest, PREFIX_POWER) {
                Ok((operand, after)) => if after.len() <= rest.len() {
                    climb(ExprView::UnaryNeg(Box::new(operand)), after, min_bp)
                } else {
                    Err(ExprErrorView::ExpectedExpression)
                },
                Err(e) => Err(e),
            },
            TokView::LParen => match parse_bp_spec(rest, 0) {
                Ok((inner, after)) => if 0 < after.len() <= rest.len() && after[0]
                    == TokView::RParen {
                    climb(inner, after.drop_first(), min_bp)
                } else {
                    Err(ExprErrorView::ExpectedRParen)
                },
                Err(e) => Err(e),
            },
            other => Err(ExprErrorView::UnexpectedToken(other)),
        }
    }
}

/// Extends `lhs` with the infix operators at the front of `toks` whose left power is at
/// least `min_bp`, each with its right operand.
pub open spec fn climb(lhs: ExprView, toks: Seq<TokView>, min_bp: u8) -> Result<
    (ExprView, Seq<TokView>),
    ExprErrorView,
>
    decreases toks.len(), 0nat,
{
    if toks.len() == 0 {
        Ok((lhs, toks))
    } else {
        match BinOp::of(toks[0]) {
            None => Ok((lhs, toks)),
            Some(op) => if op.left_power() < min_bp {
                Ok((lhs, toks))
            } else {
                match parse_bp_spec(toks.drop_first(), op.right_power()) {
                    Ok((rhs, after)) => if after.len() < toks.len() {
                        climb(op.apply(lhs, rhs), after, min_bp)
                    } else {
                        Err(ExprErrorView::ExpectedExpression)
                    },
                    Err(e) => Err(e),
                }
            },
        }
    }
}

/// Parses a whole token sequence as one expression; a token left over is an error.
pub open spec fn parse_tokens(toks: Seq<TokView>) -> Result<ExprView, ExprErrorView> {
    match parse_bp_spec(toks, 0) {
        Ok((e, rest)) => if rest.len() == 0 {
            Ok(e)
        } else {
            Err(ExprErrorView::TrailingToken(rest[0]))
        },
        Err(e) => Err(e),
    }
}

/// Parses the text of an expression: its tokens, then the expression they form.
pub open spec fn parse_expr_spec(s: Seq<char>) -> Result<ExprView, ExprErrorView> {
    parse_tokens(tokens(s))
}

/// A successful parse leaves fewer tokens than it was given.
pub proof fn lemma_parse_consumes(toks: Seq<TokView>, min_bp: u8)
    ensures
        match parse_bp_spec(toks, min_bp) {
            Ok((_, after)) => after.len() < toks.len(),
            Err(_) => true,
        },
    decreases toks.len(), 1nat,
{
    if toks.len() > 0 {
        let rest = toks.drop_first();
        match toks[0] {
            TokView::Int(v) => lemma_climb_consumes(ExprView::Int(v), rest, min_bp),
            TokView::Ident(name) => lemma_climb_consumes(ExprView::Var(name), rest, min_bp),
            TokView::Minus => {
                lemma_parse_consumes(rest, PREFIX_POWER);
                match parse_bp_spec(rest, PREFIX_POWER) {
                    Ok((operand, after)) => lemma_climb_consumes(
                        ExprView::UnaryNeg(Box::new(operand)),
                        after,
                        min_bp,
                    ),
                    Err(_) => {},
                }
            },
            TokView::LParen => {
                lemma_parse_consumes(rest, 0);
                match parse_bp_spec(rest, 0) {
                    Ok((inner, after)) => if 0 < after.len() && after[0] == TokView::RParen {
                        lemma_climb_consumes(inner, after.drop_first(), min_bp);
                    },
                    Err(_) => {},
                }
            },
            _ => {},
        }
    }
}

/// Taking infix operators never adds tokens.
pub proof fn lemma_climb_consumes(lhs: ExprView, toks: Seq<TokView>, min_bp: u8)
    ensures
        match climb(lhs, toks, min_bp) {
            Ok((_, after)) => after.len() <= toks.len(),
            Err(_) => true,
        },
    decreases toks.len(), 0nat,
{
    if toks.len() > 0 {
        match BinOp::of(toks[0]) {
            None => {},
            Some(op) => if op.left_power() >= min_bp {
                lemma_parse_consumes(toks.drop_first(), op.right_power());
                match parse_bp_spec(toks.drop_first(), op.right_power()) {
                    Ok((rhs, after)) => lemma_climb_consumes(op.apply(lhs, rhs), after, min_bp),
                    Err(_) => {},
                }
            },
        }
    }
}

/// A lexer with one token of lookahead.
pub struct TokenStream {
    lexer: Lexer,
    peeked: Option<Tok>,
}

impl View for TokenStream {
    type V = Seq<TokView>;

    /// The tokens that are still to come.
    closed spec fn view(&self) -> Seq<TokView> {
        match self.peeked {
            Some(t) => seq![t@] + self.lexer@,
            None => self.lexer@,
        }
    }
}

impl TokenStream {
    /// The tokens of `s`, none of them read yet.
    pub fn new(s: &str) -> (stream: TokenStream)
        ensures
            stream@ == tokens(s@),
    {
        TokenStream { lexer: Lexer::new(s), peeked: None }
    }

    /// A copy of the next token, which stays in the stream.
    pub fn peek(&mut self) -> (tok: Option<Tok>)
        ensures
            final(self)@ == old(self)@,
            match tok {
                Some(t) => old(self)@.len() > 0 && t@ == old(self)@[0],
                None => old(self)@.len() == 0,
            },
    {
        if self.peeked.is_none() {
            self.peeked = self.lexer.next();
        }
        match &self.peeked {
            Some(t) => Some(t.clone()),
            None => None,
        }
    }

    /// Takes the next token out of the stream.
    pub fn next(&mut self) -> (tok: Option<Tok>)
        ensures
            match tok {
                Some(t) => old(self)@.len() > 0 && t@ == old(self)@[0] && final(self)@ == old(
                    self,
                )@.drop_first(),
                None => old(self)@.len() == 0 && final(self)@.len() == 0,
            },
    {
        match self.peeked.take() {
            Some(t) => {
                assert((seq![t@] + self.lexer@).drop_first() =~= self.lexer@);
                Some(t)
            },
            None => {
                let tok = self.lexer.next();
                proof {
                    if let Some(t) = &tok {
                        assert((seq![t@] + self.lexer@).drop_first() =~= self.lexer@);
                    }
                }
                tok
            },
        }
    }
}

/// Parses one expression from the stream, taking infix operators whose left power is at
/// least `min_bp`. On success the stream stands behind the expression.
pub fn parse_bp(it: &mut TokenStream, min_bp: u8) -> (r: Result<Expr, ExprError>)
    ensures
        match parse_bp_spec(old(it)@, min_bp) {
            Ok((e, rest)) => r is Ok && r->Ok_0@ == e && final(it)@ == rest,
            Err(err) => r is Err && r->Err_0@ == err,
        },
    decreases old(it)@.len(),
{
    let ghost toks = it@;
    let first = match it.next() {
        Some(t) => t,
        None => { return Err(ExprError::ExpectedExpression); },
    };
    let ghost rest = it@;
    let mut lhs = match first {
        Tok::Int(v) => Expr::Int(v),
        Tok::Ident(name) => Expr::Var(name),
        Tok::Minus => {
            proof {
                lemma_parse_consumes(rest, PREFIX_POWER);
            }
            let operand = parse_bp(it, PREFIX_POWER)?;
            Expr::UnaryNeg(Box::new(operand))
        },
        Tok::LParen => {
            proof {
                lemma_parse_consumes(rest, 0);
            }
            let inner = parse_bp(it, 0)?;
            match it.next() {
                Some(Tok::RParen) => inner,
                _ => { return Err(ExprError::ExpectedRParen); },
            }
        },
        other => { return Err(ExprError::UnexpectedToken(other)); },
    };
    loop
        invariant
            toks == old(it)@,
            it@.len() < toks.len(),
            climb(lhs@, it@, min_bp) == parse_bp_spec(toks, min_bp),
        decreases it@.len(),
    {
        let infix = match it.peek() {
            Some(t) => BinOp::infix(&t),
            None => None,
        };
        let op = match infix {
            Some(op) => op,
            None => {
                return Ok(lhs);
            },
        };
        let (left, right) = op.powers();
        if left < min_bp {
            return Ok(lhs);
        }
        let ghost before = it@;
        let _ = it.next();
        proof {
            lemma_parse_consumes(before.drop_first(), right);
        }
        let rhs = parse_bp(it, right)?;
        lhs = op.build(lhs, rhs);
    }
}

/// Parses `s` as one arithmetic expression; a token after the expression is an error.
pub fn parse_int_expr(s: &str) -> (r: Result<Expr, ExprError>)
    ensures
        match parse_expr_spec(s@) {
            Ok(e) => r is Ok && r->Ok_0@ == e,
            Err(err) => r is Err && r->Err_0@ == err,
        },
{
    let mut it = TokenStream::new(s);
    let expr = parse_bp(&mut it, 0)?;
    match it.peek() {
        Some(tok) => Err(ExprError::TrailingToken(tok)),
        None => Ok(expr),
    }
}

/// Whether the token is an operand by itself: a number or a name.
pub open spec fn is_atom(tok: TokView) -> bool {
    tok is Int || tok is Ident
}

/// The expression that an atom is.
pub open spec fn atom(tok: TokView) -> ExprView {
    match tok {
        TokView::Int(v) => ExprView::Int(v),
        TokView::Ident(name) => ExprView::Var(name),
        _ => arbitrary(),
    }
}

/// The token of an infix operator.
pub open spec fn op_token(op: BinOp) -> TokView {
    match op {
        BinOp::Add => TokView::Plus,
        BinOp::Sub => TokView::Minus,
        BinOp::Mul => TokView::Star,
        BinOp::Div => TokView::Slash,
    }
}

/// An atom alone is the expression that it is.
pub proof fn law_atom(a: TokView)
    requires
        is_atom(a),
    ensures
        parse_tokens(seq![a]) == Ok::<ExprView, ExprErrorView>(atom(a)),
{
    reveal_with_fuel(parse_bp_spec, 2);
    reveal_with_fuel(climb, 2);
    assert(seq![a].drop_first() =~= Seq::<TokView>::empty());
}

/// Precedence and associativity: in `a op1 b op2 c`, the second operator takes `b` only if
/// it is `*` or `/` and the first is `+` or `-`; in every other case the first operator
/// has taken `b`, so that operators of one level associate to the left.
pub proof fn law_precedence_and_associativity(
    a: TokView,
    op1: BinOp,
    b: TokView,
    op2: BinOp,
    c: TokView,
)
    requires
        is_atom(a),
        is_atom(b),
        is_atom(c),
    ensures
        parse_tokens(seq![a, op_token(op1), b, op_token(op2), c]) == Ok::<ExprView, ExprErrorView>(
            if op2.left_power() > op1.left_power() {
                op1.apply(atom(a), op2.apply(atom(b), atom(c)))
            } else {
                op2.apply(op1.apply(atom(a), atom(b)), atom(c))
            },
        ),
{
    reveal_with_fuel(parse_bp_spec, 4);
    reveal_with_fuel(climb, 4);
    let t0 = seq![a, op_token(op1), b, op_token(op2), c];
    let t1 = seq![op_token(op1), b, op_token(op2), c];
    let t2 = seq![b, op_token(op2), c];
    let t3 = seq![op_token(op2), c];
    let t4 = seq![c];
    assert(t0.drop_first() =~= t1);
    assert(t1.drop_first() =~= t2);
    assert(t2.drop_first() =~= t3);
    assert(t3.drop_first() =~= t4);
    assert(t4.drop_first() =~= Seq::<TokView>::empty());
    assert(parse_bp_spec(t4, op2.right_power()) == Ok::<_, ExprErrorView>(
        (atom(c), Seq::<TokView>::empty()),
    ));
    if op2.left_power() >= op1.right_power() {
        assert(parse_bp_spec(t2, op1.right_power()) == Ok::<_, ExprErrorView>(
            (op2.apply(atom(b), atom(c)), Seq::<TokView>::empty()),
        ));
    } else {
        assert(parse_bp_spec(t2, op1.right_power()) == Ok::<_, ExprErrorView>((atom(b), t3)));
        assert(climb(op1.apply(atom(a), atom(b)), t3, 0) == Ok::<_, ExprErrorView>(
            (op2.apply(op1.apply(atom(a), atom(b)), atom(c)), Seq::<TokView>::empty()),
        ));
    }
}

/// Unary minus binds tighter than every infix operator: `-a op b` is `(-a) op b`.
pub proof fn law_unary_minus_binds_tighter(a: TokView, op: BinOp, b: TokView)
    requires
        is_atom(a),
        is_atom(b),
    ensures
        parse_tokens(seq![TokView::Minus, a, op_token(op), b]) == Ok::<ExprView, ExprErrorView>(
            op.apply(ExprView::UnaryNeg(Box::new(atom(a))), atom(b)),
        ),
{
    reveal_with_fuel(parse_bp_spec, 4);
    reveal_with_fuel(climb, 4);
    let t0 = seq![TokView::Minus, a, op_token(op), b];
    let t1 = seq![a, op_token(op), b];
    let t2 = seq![op_token(op), b];
    let t3 = seq![b];
    assert(t0.drop_first() =~= t1);
    assert(t1.drop_first() =~= t2);
    assert(t2.drop_first() =~= t3);
    assert(t3.drop_first() =~= Seq::<TokView>::empty());
    assert(parse_bp_spec(t1, PREFIX_POWER) == Ok::<_, ExprErrorView>((atom(a), t2)));
    assert(parse_bp_spec(t3, op.right_power()) == Ok::<_, ExprErrorView>(
        (atom(b), Seq::<TokView>::empty()),
    ));
}

/// Parentheses override precedence: `(a op1 b) op2 c` applies `op2` to the whole of
/// `a op1 b`, whatever the two operators are.
pub proof fn law_parentheses_group(a: TokView, op1: BinOp, b: TokView, op2: BinOp, c: TokView)
    requires
        is_atom(a),
        is_atom(b),
        is_atom(c),
    ensures
        parse_tokens(
            seq![TokView::LParen, a, op_token(op1), b, TokView::RParen, op_token(op2), c],
        ) == Ok::<ExprView, ExprErrorView>(op2.apply(op1.apply(atom(a), atom(b)), atom(c))),
{
    reveal_with_fuel(parse_bp_spec, 4);
    reveal_with_fuel(climb, 4);
    let t0 = seq![TokView::LParen, a, op_token(op1), b, TokView::RParen, op_token(op2), c];
    let t1 = seq![a, op_token(op1), b, TokView::RParen, op_token(op2), c];
    let t2 = seq![op_token(op1), b, TokView::RParen, op_token(op2), c];
    let t3 = seq![b, TokView::RParen, op_token(op2), c];
    let t4 = seq![TokView::RParen, op_token(op2), c];
    let t5 = seq![op_token(op2), c];
    let t6 = seq![c];
    assert(t0.drop_first() =~= t1);
    assert(t1.drop_first() =~= t2);
    assert(t2.drop_first() =~= t3);
    assert(t3.drop_first() =~= t4);
    assert(t4.drop_first() =~= t5);
    assert(t5.drop_first() =~= t6);
    assert(t6.drop_first() =~= Seq::<TokView>::empty());
    assert(parse_bp_spec(t3, op1.right_power()) == Ok::<_, ExprErrorView>((atom(b), t4)));
    assert(parse_bp_spec(t1, 0) == Ok::<_, ExprErrorView>((op1.apply(atom(a), atom(b)), t4)));
    assert(parse_bp_spec(t6, op2.right_power()) == Ok::<_, ExprErrorView>(
        (atom(c), Seq::<TokView>::empty()),
    ));
}

} // verus!
