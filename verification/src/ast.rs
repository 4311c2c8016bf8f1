//! Abstract syntax tree of the Mini language, with the mathematical view of each node.

use vstd::prelude::*;

verus! {

/// An expression. Every variant but `Str` denotes a 32-bit signed integer;
/// `Str` is only meaningful as the whole initializer of a `let`.
#[derive(Debug, PartialEq, Eq)]
pub enum Expr {
    /// Integer literal.
    Int(i32),
    /// Reference to a bound name.
    Var(String),
    /// Unary minus, e.g. `-a`.
    UnaryNeg(Box<Expr>),
    Add(Box<Expr>, Box<Expr>),
    Sub(Box<Expr>, Box<Expr>),
    Mul(Box<Expr>, Box<Expr>),
    Div(Box<Expr>, Box<Expr>),
    /// String literal, already unescaped.
    Str(String),
}

/// Mathematical value of an [`Expr`]: the same tree with text as sequences of characters.
pub ghost enum ExprView {
    Int(i32),
    Var(Seq<char>),
    UnaryNeg(Box<ExprView>),
    Add(Box<ExprView>, Box<ExprView>),
    Sub(Box<ExprView>, Box<ExprView>),
    Mul(Box<ExprView>, Box<ExprView>),
    Div(Box<ExprView>, Box<ExprView>),
    Str(Seq<char>),
}

impl Expr {
    /// The tree that this expression denotes.
    pub open spec fn model(&self) -> ExprView
        decreases self,
    {
        match self {
            Expr::Int(v) => ExprView::Int(*v),
            Expr::Var(name) => ExprView::Var(name@),
            Expr::UnaryNeg(e) => ExprView::UnaryNeg(Box::new(e.model())),
            Expr::Add(a, b) => ExprView::Add(Box::new(a.model()), Box::new(b.model())),
            Expr::Sub(a, b) => ExprView::Sub(Box::new(a.model()), Box::new(b.model())),
            Expr::Mul(a, b) => ExprView::Mul(Box::new(a.model()), Box::new(b.model())),
            Expr::Div(a, b) => ExprView::Div(Box::new(a.model()), Box::new(b.model())),
            Expr::Str(text) => ExprView::Str(text@),
        }
    }
}

impl View for Expr {
    type V = ExprView;

    open spec fn view(&self) -> ExprView {
        self.model()
    }
}

impl Expr {
    /// A deep copy of the tree.
    pub fn duplicate(&self) -> (copy: Expr)
        ensures
            copy@ == self@,
        decreases self,
    {
        match self {
            Expr::Int(v) => Expr::Int(*v),
            Expr::Var(name) => Expr::Var(name.clone()),
            Expr::UnaryNeg(e) => Expr::UnaryNeg(Box::new(e.duplicate())),
            Expr::Add(a, b) => Expr::Add(Box::new(a.duplicate()), Box::new(b.duplicate())),
            Expr::Sub(a, b) => Expr::Sub(Box::new(a.duplicate()), Box::new(b.duplicate())),
            Expr::Mul(a, b) => Expr::Mul(Box::new(a.duplicate()), Box::new(b.duplicate())),
            Expr::Div(a, b) => Expr::Div(Box::new(a.duplicate()), Box::new(b.duplicate())),
            Expr::Str(text) => Expr::Str(text.clone()),
        }
    }
}

impl Clone for Expr {
    fn clone(&self) -> (copy: Expr)
        ensures
            copy@ == self@,
    {
        self.duplicate()
    }
}

/// A statement: one source line.
#[derive(Debug, PartialEq, Eq)]
pub enum Stmt {
    /// `let name = expr;`, where the kind of the binding follows from the initializer.
    Let { name: String, expr: Expr },
    /// `print name;`
    Print { name: String },
}

/// Mathematical value of a [`Stmt`].
pub ghost enum StmtView {
    Let { name: Seq<char>, expr: ExprView },
    Print { name: Seq<char> },
}

impl View for Stmt {
    type V = StmtView;

    open spec fn view(&self) -> StmtView {
        match self {
            Stmt::Let { name, expr } => StmtView::Let { name: name@, expr: expr@ },
            Stmt::Print { name } => StmtView::Print { name: name@ },
        }
    }
}

impl Clone for Stmt {
    fn clone(&self) -> (copy: Stmt)
        ensures
            copy@ == self@,
    {
        match self {
            Stmt::Let { name, expr } => Stmt::Let { name: name.clone(), expr: expr.clone() },
            Stmt::Print { name } => Stmt::Print { name: name.clone() },
        }
    }
}

/// A parsed program: its statements in source order.
#[derive(Debug, PartialEq, Eq)]
pub struct Program {
    pub stmts: Vec<Stmt>,
}

impl View for Program {
    type V = Seq<StmtView>;

    open spec fn view(&self) -> Seq<StmtView> {
        stmts_view(self.stmts@)
    }
}

impl Clone for Program {
    fn clone(&self) -> (copy: Program)
        ensures
            copy@ == self@,
    {
        let mut stmts: Vec<Stmt> = Vec::new();
        let mut i: usize = 0;
        while i < self.stmts.len()
            invariant
                i <= self.stmts.len(),
                stmts@.len() == i,
                forall|k: int| 0 <= k < i ==> stmts@[k]@ == self.stmts@[k]@,
            decreases self.stmts.len() - i,
        {
            stmts.push(self.stmts[i].clone());
            i += 1;
        }
        let copy = Program { stmts };
        assert(copy@ =~= self@);
        copy
    }
}

/// The views of a sequence of statements, in order.
pub open spec fn stmts_view(stmts: Seq<Stmt>) -> Seq<StmtView> {
    Seq::new(stmts.len(), |i: int| stmts[i]@)
}

} // verus!
