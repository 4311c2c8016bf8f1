//! Semantic analysis and lowering: from a program to the instructions of its entry point.
//!
//! Statements are taken in order against a symbol table. A `let` whose initializer is a
//! string literal binds a `Str` name; every other `let` binds an `Int` name, and its
//! initializer becomes a sequence of operations in which each operand is the position of an
//! earlier operation of the same sequence. Every `let` takes a fresh storage slot. A name
//! keeps the kind of its first binding: binding it again with the other kind is an error.

use crate::ast::{Expr, ExprView, Program, Stmt, StmtView};
use crate::expr::BinOp;
use crate::ir::{
    code_ok, inst_ok, insts_view, lemma_slot_kinds_len, lemma_slot_kinds_prefix, op_ok,
    ops_ok_from, slot_kinds, Inst, InstView, Op,
};
use crate::symbols::{
    bind, lemma_bind_lookup, lemma_position, lookup, Binding, ExprKind, SymbolTable, SymbolView,
};
use vstd::prelude::*;

verus! {

/// Why a program has no meaning.
#[derive(Debug, PartialEq, Eq)]
pub enum SemanticError {
    /// The name is used before any `let` binds it.
    UndefinedVariable(String),
    /// The name is bound to a string and stands in an arithmetic expression.
    StringInArithmetic(String),
    /// A string literal stands inside an arithmetic expression.
    LiteralInArithmetic,
    /// The name is bound with the kind `bound`, and a `let` gives it an initializer of the
    /// other kind.
    KindMismatch { name: String, bound: ExprKind },
    /// A string literal was asked of an expression that is none.
    ExpectedStringLiteral,
}

impl SemanticError {
    /// The kind in a word.
    pub open spec fn kind_word(kind: ExprKind) -> Seq<char> {
        match kind {
            ExprKind::Int => "an integer"@,
            ExprKind::Str => "a string"@,
        }
    }

    /// The error in words.
    pub open spec fn message_spec(e: SemanticErrorView) -> Seq<char> {
        match e {
            SemanticErrorView::UndefinedVariable(name) => "undefined variable `"@ + name + "`"@,
            SemanticErrorView::StringInArithmetic(name) => "type error: `"@ + name
                + "` is a string, expected integer"@,
            SemanticErrorView::LiteralInArithmetic =>
                "type error: string literal not allowed in integer expression"@,
            SemanticErrorView::KindMismatch { name, bound } => "type error: `"@ + name
                + "` is bound to "@ + SemanticError::kind_word(bound)
                + " and keeps its kind"@,
            SemanticErrorView::ExpectedStringLiteral => "expected string literal"@,
        }
    }

    /// The error in words.
    pub fn message(&self) -> (text: String)
        ensures
            text@ == SemanticError::message_spec(self@),
    {
        match self {
            SemanticError::UndefinedVariable(name) => String::from_str(
                "undefined variable `",
            ).concat(name.as_str()).concat("`"),
            SemanticError::StringInArithmetic(name) => String::from_str("type error: `").concat(
                name.as_str(),
            ).concat("` is a string, expected integer"),
            SemanticError::LiteralInArithmetic => String::from_str(
                "type error: string literal not allowed in integer expression",
            ),
            SemanticError::KindMismatch { name, bound } => {
                let word = match bound {
                    ExprKind::Int => "an integer",
                    ExprKind::Str => "a string",
                };
                String::from_str("type error: `").concat(name.as_str()).concat(
                    "` is bound to ",
                ).concat(word).concat(" and keeps its kind")
            },
            SemanticError::ExpectedStringLiteral => String::from_str("expected string literal"),
        }
    }
}

/// Mathematical value of a [`SemanticError`].
pub ghost enum SemanticErrorView {
    UndefinedVariable(Seq<char>),
    StringInArithmetic(Seq<char>),
    LiteralInArithmetic,
    KindMismatch { name: Seq<char>, bound: ExprKind },
    ExpectedStringLiteral,
}

impl View for SemanticError {
    type V = SemanticErrorView;

    open spec fn view(&self) -> SemanticErrorView {
        match self {
            SemanticError::UndefinedVariable(name) => SemanticErrorView::UndefinedVariable(name@),
            SemanticError::StringInArithmetic(name) => SemanticErrorView::StringInArithmetic(
                name@,
            ),
            SemanticError::LiteralInArithmetic => SemanticErrorView::LiteralInArithmetic,
            SemanticError::KindMismatch { name, bound } => SemanticErrorView::KindMismatch {
                name: name@,
                bound: *bound,
            },
            SemanticError::ExpectedStringLiteral => SemanticErrorView::ExpectedStringLiteral,
        }
    }
}

/// The kind of an expression: `Str` for a string literal, `Int` for everything else.
pub open spec fn kind_of(e: ExprView) -> ExprKind {
    match e {
        ExprView::Str(_) => ExprKind::Str,
        _ => ExprKind::Int,
    }
}

/// The code of a binary operation from the code of its operands, where `base` operations
/// precede the left operand's code.
pub open spec fn join(
    op: BinOp,
    base: nat,
    left: Result<Seq<Op>, SemanticErrorView>,
    right: Result<Seq<Op>, SemanticErrorView>,
) -> Result<Seq<Op>, SemanticErrorView> {
    match (left, right) {
        (Ok(l), Ok(r)) => Ok(
            (l + r).push(
                Op::Binary(
                    op,
                    (base + l.len() - 1) as usize,
                    (base + l.len() + r.len() - 1) as usize,
                ),
            ),
        ),
        (Err(e), _) => Err(e),
        (_, Err(e)) => Err(e),
    }
}

/// The operations that compute the integer expression `e`, to stand behind `base` earlier
/// operations; the result of `e` is the result of the last of them. Operands are computed
/// from left to right. The first name that is unbound or bound to a string, or the first
/// string literal, is the error.
pub open spec fn lower_expr(e: ExprView, table: Seq<SymbolView>, base: nat) -> Result<
    Seq<Op>,
    SemanticErrorView,
>
    decreases e,
{
    match e {
        ExprView::Int(v) => Ok(seq![Op::Const(v)]),
        ExprView::Var(name) => match lookup(table, name) {
            None => Err(SemanticErrorView::UndefinedVariable(name)),
            Some(binding) => match binding.kind {
                ExprKind::Int => Ok(seq![Op::Load(binding.slot)]),
                ExprKind::Str => Err(SemanticErrorView::StringInArithmetic(name)),
            },
        },
        ExprView::UnaryNeg(a) => match lower_expr(*a, table, base) {
            Ok(code) => Ok(code.push(Op::Neg((base + code.len() - 1) as usize))),
            Err(e) => Err(e),
        },
        ExprView::Add(a, b) => {
            let left = lower_expr(*a, table, base);
            let right = if let Ok(l) = left {
                lower_expr(*b, table, base + l.len())
            } else {
                left
            };
            join(BinOp::Add, base, left, right)
        },
        ExprView::Sub(a, b) => {
            let left = lower_expr(*a, table, base);
            let right = if let Ok(l) = left {
                lower_expr(*b, table, base + l.len())
            } else {
                left
            };
            join(BinOp::Sub, base, left, right)
        },
        ExprView::Mul(a, b) => {
            let left = lower_expr(*a, table, base);
            let right = if let Ok(l) = left {
                lower_expr(*b, table, base + l.len())
            } else {
                left
            };
            join(BinOp::Mul, base, left, right)
        },
        ExprView::Div(a, b) => {
            let left = lower_expr(*a, table, base);
            let right = if let Ok(l) = left {
                lower_expr(*b, table, base + l.len())
            } else {
                left
            };
            join(BinOp::Div, base, left, right)
        },
        ExprView::Str(_) => Err(SemanticErrorView::LiteralInArithmetic),
    }
}

/// What lowering has reached after some statements.
pub ghost struct Lowered {
    /// The names bound so far.
    pub table: Seq<SymbolView>,
    /// The number of storage slots taken so far.
    pub slots: nat,
    /// The instructions so far.
    pub code: Seq<InstView>,
}

/// The error of giving `name`, bound as it is in `table`, an initializer of kind `kind`.
pub open spec fn rebind_error(table: Seq<SymbolView>, name: Seq<char>, kind: ExprKind) -> Option<
    SemanticErrorView,
> {
    match lookup(table, name) {
        Some(binding) => if binding.kind != kind {
            Some(SemanticErrorView::KindMismatch { name, bound: binding.kind })
        } else {
            None
        },
        None => None,
    }
}

/// `state` after one more statement.
pub open spec fn lower_stmt(state: Lowered, stmt: StmtView) -> Result<Lowered, SemanticErrorView> {
    match stmt {
        StmtView::Let { name, expr } => {
            let bound = Binding { kind: kind_of(expr), slot: state.slots as usize };
            let next = Lowered {
                table: bind(state.table, name, bound),
                slots: state.slots + 1,
                code: state.code,
            };
            match expr {
                ExprView::Str(text) => match rebind_error(state.table, name, ExprKind::Str) {
                    Some(e) => Err(e),
                    None => Ok(
                        Lowered {
                            code: state.code.push(
                                InstView::BindStr {
                                    name,
                                    text,
                                    label: state.table.len() as usize,
                                },
                            ),
                            ..next
                        },
                    ),
                },
                _ => match lower_expr(expr, state.table, 0) {
                    Err(e) => Err(e),
                    Ok(code) => match rebind_error(state.table, name, ExprKind::Int) {
                        Some(e) => Err(e),
                        None => Ok(
                            Lowered { code: state.code.push(InstView::BindInt { name, code }), ..next },
                        ),
                    },
                },
            }
        },
        StmtView::Print { name } => match lookup(state.table, name) {
            None => Err(SemanticErrorView::UndefinedVariable(name)),
            Some(binding) => Ok(
                Lowered {
                    code: state.code.push(
                        match binding.kind {
                            ExprKind::Int => InstView::PrintInt { slot: binding.slot },
                            ExprKind::Str => InstView::PrintStr { slot: binding.slot },
                        },
                    ),
                    ..state
                },
            ),
        },
    }
}

/// What lowering has reached after the first `n` statements, or the error of the first
/// statement among them that has one.
pub open spec fn lower_prefix(stmts: Seq<StmtView>, n: nat) -> Result<Lowered, SemanticErrorView>
    decreases n,
{
    if n == 0 {
        Ok(Lowered { table: Seq::empty(), slots: 0, code: Seq::empty() })
    } else {
        match lower_prefix(stmts, (n - 1) as nat) {
            Ok(state) => lower_stmt(state, stmts[n - 1]),
            Err(e) => Err(e),
        }
    }
}

/// The instructions of a program, or its first semantic error.
pub open spec fn lower_spec(program: Seq<StmtView>) -> Result<Seq<InstView>, SemanticErrorView> {
    match lower_prefix(program, program.len()) {
        Ok(state) => Ok(state.code),
        Err(e) => Err(e),
    }
}

/// An error stays: once a prefix has failed, every longer prefix fails in the same way.
pub proof fn lemma_error_stays(stmts: Seq<StmtView>, n: nat, m: nat)
    requires
        n <= m,
        lower_prefix(stmts, n) is Err,
    ensures
        lower_prefix(stmts, m) == lower_prefix(stmts, n),
    decreases m - n,
{
    if n < m {
        lemma_error_stays(stmts, n, (m - 1) as nat);
    }
}

/// The code of an expression is never empty.
pub proof fn lemma_lower_expr_nonempty(e: ExprView, table: Seq<SymbolView>, base: nat)
    ensures
        match lower_expr(e, table, base) {
            Ok(code) => code.len() > 0,
            Err(_) => true,
        },
    decreases e,
{
    match e {
        ExprView::UnaryNeg(a) => lemma_lower_expr_nonempty(*a, table, base),
        _ => {},
    }
}

/// The kind of an expression.
pub fn infer_expr_kind(e: &Expr) -> (kind: ExprKind)
    ensures
        kind == kind_of(e@),
{
    match e {
        Expr::Str(_) => ExprKind::Str,
        _ => ExprKind::Int,
    }
}

/// The text of a string literal; an error for every other expression.
pub fn expect_string_literal(e: &Expr) -> (r: Result<String, SemanticError>)
    ensures
        match e@ {
            ExprView::Str(text) => r is Ok && r->Ok_0@ == text,
            _ => r == Err::<String, SemanticError>(SemanticError::ExpectedStringLiteral),
        },
{
    match e {
        Expr::Str(s) => Ok(s.clone()),
        _ => Err(SemanticError::ExpectedStringLiteral),
    }
}

/// Appends to `code` the operations that compute the integer expression `expr` and gives
/// the position of the last of them, whose result is the value of `expr`.
pub fn gen_expr_int(expr: &Expr, table: &SymbolTable, code: &mut Vec<Op>) -> (r: Result<
    usize,
    SemanticError,
>)
    ensures
        match lower_expr(expr@, table@, old(code)@.len()) {
            Ok(ops) => final(code)@ == old(code)@ + ops && r == Ok::<usize, SemanticError>(
                (final(code)@.len() - 1) as usize,
            ) && ops.len() > 0,
            Err(e) => r is Err && r->Err_0@ == e,
        },
    decreases expr,
{
    let ghost base = code@.len();
    proof {
        lemma_lower_expr_nonempty(expr@, table@, base);
    }
    let (op, a, b) = match expr {
        Expr::Int(v) => {
            code.push(Op::Const(*v));
            assert(code@ =~= old(code)@ + seq![Op::Const(*v)]);
            return Ok(code.len() - 1);
        },
        Expr::Var(name) => {
            return match table.get(name) {
                None => Err(SemanticError::UndefinedVariable(name.clone())),
                Some(binding) => match binding.kind {
                    ExprKind::Int => {
                        code.push(Op::Load(binding.slot));
                        assert(code@ =~= old(code)@ + seq![Op::Load(binding.slot)]);
                        Ok(code.len() - 1)
                    },
                    ExprKind::Str => Err(SemanticError::StringInArithmetic(name.clone())),
                },
            };
        },
        Expr::UnaryNeg(a) => {
            let operand = gen_expr_int(a, table, code)?;
            let ghost ops = lower_expr(a@, table@, base)->Ok_0;
            code.push(Op::Neg(operand));
            assert(code@ =~= old(code)@ + ops.push(Op::Neg(operand)));
            return Ok(code.len() - 1);
        },
        Expr::Str(_) => {
            return Err(SemanticError::LiteralInArithmetic);
        },
        Expr::Add(a, b) => (BinOp::Add, a, b),
        Expr::Sub(a, b) => (BinOp::Sub, a, b),
        Expr::Mul(a, b) => (BinOp::Mul, a, b),
        Expr::Div(a, b) => (BinOp::Div, a, b),
    };
    let left = gen_expr_int(a, table, code)?;
    let ghost l = lower_expr(a@, table@, base)->Ok_0;
    proof {
        lemma_lower_expr_nonempty(b@, table@, base + l.len());
    }
    let right = gen_expr_int(b, table, code)?;
    let ghost r = lower_expr(b@, table@, base + l.len())->Ok_0;
    code.push(Op::Binary(op, left, right));
    assert(code@ =~= old(code)@ + (l + r).push(Op::Binary(op, left, right)));
    Ok(code.len() - 1)
}

/// The error of giving `name` an initializer of kind `kind`, if it is one.
fn check_rebind(table: &SymbolTable, name: &String, kind: ExprKind) -> (r: Result<
    (),
    SemanticError,
>)
    ensures
        match rebind_error(table@, name@, kind) {
            Some(e) => r is Err && r->Err_0@ == e,
            None => r is Ok,
        },
{
    match table.get(name) {
        Some(binding) => if binding.kind != kind {
            Err(SemanticError::KindMismatch { name: name.clone(), bound: binding.kind })
        } else {
            Ok(())
        },
        None => Ok(()),
    }
}

/// Lowers one statement: checks it against `table`, updates `table`, and gives the
/// instruction that it becomes. `slots` is the number of storage slots taken before it.
pub fn lower_statement(stmt: &Stmt, table: &mut SymbolTable, slots: usize) -> (r: Result<
    Inst,
    SemanticError,
>)
    ensures
        match lower_stmt(
            Lowered { table: old(table)@, slots: slots as nat, code: Seq::empty() },
            stmt@,
        ) {
            Ok(state) => r is Ok && state.code == seq![r->Ok_0@] && final(table)@ == state.table,
            Err(e) => r is Err && r->Err_0@ == e,
        },
{
    match stmt {
        Stmt::Let { name, expr } => {
            let kind = infer_expr_kind(expr);
            let inst = match kind {
                ExprKind::Int => {
                    let mut code: Vec<Op> = Vec::new();
                    let _ = gen_expr_int(expr, table, &mut code)?;
                    check_rebind(table, name, ExprKind::Int)?;
                    assert(code@ =~= lower_expr(expr@, table@, 0)->Ok_0);
                    Inst::BindInt { name: name.clone(), code }
                },
                ExprKind::Str => {
                    let text = expect_string_literal(expr)?;
                    check_rebind(table, name, ExprKind::Str)?;
                    Inst::BindStr { name: name.clone(), text, label: table.len() }
                },
            };
            table.set(name.clone(), Binding { kind, slot: slots });
            assert(Seq::<InstView>::empty().push(inst@) =~= seq![inst@]);
            Ok(inst)
        },
        Stmt::Print { name } => match table.get(name) {
            None => Err(SemanticError::UndefinedVariable(name.clone())),
            Some(binding) => {
                let inst = match binding.kind {
                    ExprKind::Int => Inst::PrintInt { slot: binding.slot },
                    ExprKind::Str => Inst::PrintStr { slot: binding.slot },
                };
                assert(Seq::<InstView>::empty().push(inst@) =~= seq![inst@]);
                Ok(inst)
            },
        },
    }
}

/// Lowers a program: the instructions of its statements in order, or the error of the
/// first statement that has one. The instructions are well formed.
pub fn lower_program(program: &Program) -> (r: Result<Vec<Inst>, SemanticError>)
    ensures
        match lower_spec(program@) {
            Ok(code) => r is Ok && insts_view(r->Ok_0@) == code && code_ok(code),
            Err(e) => r is Err && r->Err_0@ == e,
        },
{
    let ghost stmts = program@;
    let mut table = SymbolTable::new();
    let mut slots: usize = 0;
    let mut code: Vec<Inst> = Vec::new();
    let mut i: usize = 0;
    assert(insts_view(code@) =~= Seq::<InstView>::empty());
    while i < program.stmts.len()
        invariant
            stmts == program@,
            i <= program.stmts.len(),
            slots <= i,
            lower_prefix(stmts, i as nat) == Ok::<Lowered, SemanticErrorView>(
                Lowered { table: table@, slots: slots as nat, code: insts_view(code@) },
            ),
        decreases program.stmts.len() - i,
    {
        let stmt = &program.stmts[i];
        assert(stmts[i as int] == stmt@);
        let ghost state = Lowered { table: table@, slots: slots as nat, code: insts_view(code@) };
        proof {
            lemma_lower_stmt_frame(state, stmt@);
        }
        match lower_statement(stmt, &mut table, slots) {
            Ok(inst) => {
                let ghost before = insts_view(code@);
                code.push(inst);
                assert(insts_view(code@) =~= before + seq![inst@]);
                match stmt {
                    Stmt::Let { .. } => {
                        slots += 1;
                    },
                    Stmt::Print { .. } => {},
                }
            },
            Err(e) => {
                proof {
                    lemma_error_stays(stmts, (i + 1) as nat, stmts.len());
                }
                return Err(e);
            },
        }
        i += 1;
    }
    proof {
        assert forall|k: int| 0 <= k < code@.len() implies match #[trigger] insts_view(code@)[k] {
            InstView::BindInt { code: ops, .. } => ops.len() <= usize::MAX,
            _ => true,
        } by {
            match code@[k] {
                Inst::BindInt { code: ops, .. } => {
                    assert(ops.len() == ops@.len());
                },
                _ => {},
            }
        }
        assert(code.len() == code@.len());
        lemma_lowered_code_ok(stmts);
    }
    Ok(code)
}

/// Lowering a statement adds to the code that is there and does not read it.
pub proof fn lemma_lower_stmt_frame(state: Lowered, stmt: StmtView)
    ensures
        match lower_stmt(Lowered { code: Seq::empty(), ..state }, stmt) {
            Ok(next) => lower_stmt(state, stmt) == Ok::<Lowered, SemanticErrorView>(
                Lowered { code: state.code + next.code, ..next },
            ),
            Err(e) => lower_stmt(state, stmt) == Err::<Lowered, SemanticErrorView>(e),
        },
{
    match lower_stmt(Lowered { code: Seq::empty(), ..state }, stmt) {
        Ok(next) => {
            let full = lower_stmt(state, stmt)->Ok_0;
            assert(full.code =~= state.code + next.code);
        },
        Err(_) => {},
    }
}

/// Whether every binding of `table` names a slot of its kind among `kinds`.
pub open spec fn table_ok(table: Seq<SymbolView>, kinds: Seq<ExprKind>) -> bool {
    forall|i: int|
        0 <= i < table.len() ==> {
            let b = (#[trigger] table[i]).binding;
            b.slot < kinds.len() && kinds[b.slot as int] == b.kind
        }
}

/// Whether the positions in `code` can be held in machine words.
pub open spec fn fits(code: Seq<InstView>) -> bool {
    &&& code.len() <= usize::MAX
    &&& forall|i: int|
        0 <= i < code.len() ==> match #[trigger] code[i] {
            InstView::BindInt { code: ops, .. } => ops.len() <= usize::MAX,
            _ => true,
        }
}

/// Whether a state of lowering is consistent: its code is well formed, it counts the slots
/// that its code takes, and its table binds every name to a slot of the name's kind.
pub open spec fn state_ok(state: Lowered) -> bool {
    let kinds = slot_kinds(state.code, state.code.len() as int);
    &&& kinds.len() == state.slots
    &&& table_ok(state.table, kinds)
    &&& code_ok(state.code)
}

/// What a consistent table gives for a name is a slot of the binding's kind.
pub proof fn lemma_lookup_ok(table: Seq<SymbolView>, kinds: Seq<ExprKind>, name: Seq<char>)
    requires
        table_ok(table, kinds),
    ensures
        match lookup(table, name) {
            Some(b) => b.slot < kinds.len() && kinds[b.slot as int] == b.kind,
            None => true,
        },
{
    lemma_position(table, name, 0);
}

/// The code of an expression takes its operands from earlier operations and loads from
/// integer slots only.
pub proof fn lemma_lower_expr_ok(
    e: ExprView,
    table: Seq<SymbolView>,
    base: nat,
    kinds: Seq<ExprKind>,
)
    requires
        table_ok(table, kinds),
    ensures
        match lower_expr(e, table, base) {
            Ok(ops) => base + ops.len() <= usize::MAX ==> ops_ok_from(ops, base, kinds),
            Err(_) => true,
        },
    decreases e,
{
    lemma_lower_expr_nonempty(e, table, base);
    match e {
        ExprView::Int(_) => {},
        ExprView::Var(name) => lemma_lookup_ok(table, kinds, name),
        ExprView::UnaryNeg(a) => {
            lemma_lower_expr_ok(*a, table, base, kinds);
            lemma_lower_expr_nonempty(*a, table, base);
            if let Ok(code) = lower_expr(*a, table, base) {
                let ops = code.push(Op::Neg((base + code.len() - 1) as usize));
                if base + ops.len() <= usize::MAX {
                    assert forall|i: int| 0 <= i < ops.len() implies op_ok(
                        #[trigger] ops[i],
                        base + i,
                        kinds,
                    ) by {
                        if i < code.len() {
                            assert(ops[i] == code[i]);
                        }
                    }
                }
            }
        },
        ExprView::Add(a, b) => {
            lemma_lower_expr_ok(*a, table, base, kinds);
            if let Ok(l) = lower_expr(*a, table, base) {
                lemma_lower_expr_ok(*b, table, base + l.len(), kinds);
            }
            lemma_join_ok(BinOp::Add, *a, *b, table, base, kinds);
        },
        ExprView::Sub(a, b) => {
            lemma_lower_expr_ok(*a, table, base, kinds);
            if let Ok(l) = lower_expr(*a, table, base) {
                lemma_lower_expr_ok(*b, table, base + l.len(), kinds);
            }
            lemma_join_ok(BinOp::Sub, *a, *b, table, base, kinds);
        },
        ExprView::Mul(a, b) => {
            lemma_lower_expr_ok(*a, table, base, kinds);
            if let Ok(l) = lower_expr(*a, table, base) {
                lemma_lower_expr_ok(*b, table, base + l.len(), kinds);
            }
            lemma_join_ok(BinOp::Mul, *a, *b, table, base, kinds);
        },
        ExprView::Div(a, b) => {
            lemma_lower_expr_ok(*a, table, base, kinds);
            if let Ok(l) = lower_expr(*a, table, base) {
                lemma_lower_expr_ok(*b, table, base + l.len(), kinds);
            }
            lemma_join_ok(BinOp::Div, *a, *b, table, base, kinds);
        },
        ExprView::Str(_) => {},
    }
}

/// The code of two operands that are in order, joined by their operation, is in order.
proof fn lemma_join_ok(
    op: BinOp,
    a: ExprView,
    b: ExprView,
    table: Seq<SymbolView>,
    base: nat,
    kinds: Seq<ExprKind>,
)
    requires
        match lower_expr(a, table, base) {
            Ok(l) => {
                &&& base + l.len() <= usize::MAX ==> ops_ok_from(l, base, kinds)
                &&& match lower_expr(b, table, base + l.len()) {
                    Ok(r) => base + l.len() + r.len() <= usize::MAX ==> ops_ok_from(
                        r,
                        base + l.len(),
                        kinds,
                    ),
                    Err(_) => true,
                }
            },
            Err(_) => true,
        },
    ensures
        match join(
            op,
            base,
            lower_expr(a, table, base),
            if let Ok(l) = lower_expr(a, table, base) {
                lower_expr(b, table, base + l.len())
            } else {
                lower_expr(a, table, base)
            },
        ) {
            Ok(ops) => base + ops.len() <= usize::MAX ==> ops_ok_from(ops, base, kinds),
            Err(_) => true,
        },
{
    lemma_lower_expr_nonempty(a, table, base);
    if let Ok(l) = lower_expr(a, table, base) {
        lemma_lower_expr_nonempty(b, table, base + l.len());
        if let Ok(r) = lower_expr(b, table, base + l.len()) {
            let last = Op::Binary(
                op,
                (base + l.len() - 1) as usize,
                (base + l.len() + r.len() - 1) as usize,
            );
            let ops = (l + r).push(last);
            if base + ops.len() <= usize::MAX {
                assert forall|i: int| 0 <= i < ops.len() implies op_ok(
                    #[trigger] ops[i],
                    base + i,
                    kinds,
                ) by {
                    if i < l.len() {
                        assert(ops[i] == l[i]);
                    } else if i < l.len() + r.len() {
                        assert(ops[i] == r[i - l.len()]);
                    } else {
                        assert(ops[i] == last);
                    }
                }
            }
        }
    }
}

/// One statement keeps a consistent state consistent.
pub proof fn lemma_lower_stmt_ok(state: Lowered, stmt: StmtView)
    requires
        state_ok(state),
    ensures
        match lower_stmt(state, stmt) {
            Ok(next) => fits(next.code) ==> state_ok(next),
            Err(_) => true,
        },
{
    let kinds = slot_kinds(state.code, state.code.len() as int);
    if let Ok(next) = lower_stmt(state, stmt) {
        if fits(next.code) {
            let n = state.code.len() as int;
            let inst = next.code[n];
            assert(next.code =~= state.code.push(inst));
            lemma_slot_kinds_len(state.code, n);
            assert forall|i: int| 0 <= i <= n implies slot_kinds(next.code, i) == slot_kinds(
                state.code,
                i,
            ) by {
                lemma_slot_kinds_prefix(state.code, next.code, i);
            }
            let after = slot_kinds(next.code, n + 1);
            match stmt {
                StmtView::Let { name, expr } => {
                    assert(after == kinds.push(kind_of(expr)));
                    lemma_position(state.table, name, 0);
                    assert(table_ok(next.table, after));
                    match expr {
                        ExprView::Str(_) => {},
                        _ => {
                            lemma_lower_expr_ok(expr, state.table, 0, kinds);
                            lemma_lower_expr_nonempty(expr, state.table, 0);
                        },
                    }
                    assert(inst_ok(inst, kinds));
                },
                StmtView::Print { name } => {
                    lemma_lookup_ok(state.table, kinds, name);
                    assert(after == kinds);
                    assert(inst_ok(inst, kinds));
                },
            }
            assert forall|i: int| 0 <= i < next.code.len() implies inst_ok(
                #[trigger] next.code[i],
                slot_kinds(next.code, i),
            ) by {
                if i < n {
                    assert(next.code[i] == state.code[i]);
                }
            }
        }
    }
}

/// The code only grows: what a prefix of the statements has given stays at the front.
pub proof fn lemma_lower_stmt_extends(state: Lowered, stmt: StmtView)
    ensures
        match lower_stmt(state, stmt) {
            Ok(next) => next.code.len() == state.code.len() + 1 && next.code.take(
                state.code.len() as int,
            ) == state.code,
            Err(_) => true,
        },
{
    if let Ok(next) = lower_stmt(state, stmt) {
        assert(next.code.take(state.code.len() as int) =~= state.code);
    }
}

/// Well-typed programs have well-formed code: whatever lowering reaches is consistent.
pub proof fn lemma_lower_prefix_ok(stmts: Seq<StmtView>, n: nat)
    ensures
        match lower_prefix(stmts, n) {
            Ok(state) => fits(state.code) ==> state_ok(state),
            Err(_) => true,
        },
    decreases n,
{
    if n > 0 {
        lemma_lower_prefix_ok(stmts, (n - 1) as nat);
        if let Ok(prev) = lower_prefix(stmts, (n - 1) as nat) {
            lemma_lower_stmt_extends(prev, stmts[n - 1]);
            if let Ok(state) = lower_stmt(prev, stmts[n - 1]) {
                if fits(state.code) {
                    assert forall|i: int| 0 <= i < prev.code.len() implies match #[trigger] prev.code[i] {
                        InstView::BindInt { code: ops, .. } => ops.len() <= usize::MAX,
                        _ => true,
                    } by {
                        assert(prev.code[i] == state.code[i]);
                    }
                    assert(fits(prev.code));
                    lemma_lower_stmt_ok(prev, stmts[n - 1]);
                }
            }
        }
    }
}

/// The code of a program that has one is well formed.
pub proof fn lemma_lowered_code_ok(program: Seq<StmtView>)
    ensures
        match lower_spec(program) {
            Ok(code) => fits(code) ==> code_ok(code),
            Err(_) => true,
        },
{
    lemma_lower_prefix_ok(program, program.len());
}

/// Whether the name stands in the expression as a reference.
pub open spec fn mentions(e: ExprView, name: Seq<char>) -> bool
    decreases e,
{
    match e {
        ExprView::Int(_) => false,
        ExprView::Var(other) => other == name,
        ExprView::UnaryNeg(a) => mentions(*a, name),
        ExprView::Add(a, b) => mentions(*a, name) || mentions(*b, name),
        ExprView::Sub(a, b) => mentions(*a, name) || mentions(*b, name),
        ExprView::Mul(a, b) => mentions(*a, name) || mentions(*b, name),
        ExprView::Div(a, b) => mentions(*a, name) || mentions(*b, name),
        ExprView::Str(_) => false,
    }
}

/// Whether the statement binds the name.
pub open spec fn binds_name(stmt: StmtView, name: Seq<char>) -> bool {
    match stmt {
        StmtView::Let { name: bound, .. } => bound == name,
        StmtView::Print { .. } => false,
    }
}

/// Whether the statement binds the name with the kind.
pub open spec fn binds(stmt: StmtView, name: Seq<char>, kind: ExprKind) -> bool {
    match stmt {
        StmtView::Let { name: bound, expr } => bound == name && kind_of(expr) == kind,
        StmtView::Print { .. } => false,
    }
}

/// Whether the statement refers to the name: prints it, or has it in its initializer.
pub open spec fn refers_to(stmt: StmtView, name: Seq<char>) -> bool {
    match stmt {
        StmtView::Let { expr, .. } => mentions(expr, name),
        StmtView::Print { name: printed } => printed == name,
    }
}

/// An expression that mentions a name which is unbound, or bound to a string, has no code.
proof fn lemma_mention_fails(e: ExprView, table: Seq<SymbolView>, base: nat, name: Seq<char>)
    requires
        mentions(e, name),
        match lookup(table, name) {
            Some(binding) => binding.kind == ExprKind::Str,
            None => true,
        },
    ensures
        lower_expr(e, table, base) is Err,
    decreases e,
{
    match e {
        ExprView::UnaryNeg(a) => lemma_mention_fails(*a, table, base, name),
        ExprView::Add(a, b) | ExprView::Sub(a, b) | ExprView::Mul(a, b) | ExprView::Div(a, b) => {
            if mentions(*a, name) {
                lemma_mention_fails(*a, table, base, name);
            } else if let Ok(l) = lower_expr(*a, table, base) {
                lemma_mention_fails(*b, table, base + l.len(), name);
            }
        },
        _ => {},
    }
}

/// A name that no statement has bound is not in the table.
proof fn lemma_unbound_stays_unbound(stmts: Seq<StmtView>, n: nat, name: Seq<char>)
    requires
        n <= stmts.len(),
        forall|i: int| 0 <= i < n ==> !binds_name(#[trigger] stmts[i], name),
    ensures
        match lower_prefix(stmts, n) {
            Ok(state) => lookup(state.table, name) is None,
            Err(_) => true,
        },
    decreases n,
{
    if n == 0 {
        lemma_position(Seq::<SymbolView>::empty(), name, 0);
    } else {
        lemma_unbound_stays_unbound(stmts, (n - 1) as nat, name);
        if let Ok(prev) = lower_prefix(stmts, (n - 1) as nat) {
            match stmts[n - 1] {
                StmtView::Let { name: bound, expr } => {
                    assert(!binds_name(stmts[n - 1], name));
                    lemma_bind_lookup(
                        prev.table,
                        bound,
                        Binding { kind: kind_of(expr), slot: prev.slots as usize },
                        name,
                    );
                },
                StmtView::Print { .. } => {},
            }
        }
    }
}

/// A name keeps the kind of its first binding for as long as lowering goes on.
proof fn lemma_kind_stays(stmts: Seq<StmtView>, n: nat, first: int, name: Seq<char>, kind: ExprKind)
    requires
        0 <= first < n <= stmts.len(),
        binds(stmts[first], name, kind),
    ensures
        match lower_prefix(stmts, n) {
            Ok(state) => match lookup(state.table, name) {
                Some(binding) => binding.kind == kind,
                None => false,
            },
            Err(_) => true,
        },
    decreases n,
{
    if let Ok(prev) = lower_prefix(stmts, (n - 1) as nat) {
        if first < n - 1 {
            lemma_kind_stays(stmts, (n - 1) as nat, first, name, kind);
        }
        match stmts[n - 1] {
            StmtView::Let { name: bound, expr } => {
                lemma_bind_lookup(
                    prev.table,
                    bound,
                    Binding { kind: kind_of(expr), slot: prev.slots as usize },
                    name,
                );
            },
            StmtView::Print { .. } => {},
        }
    }
}

/// A reference to a name that no earlier `let` binds is a semantic error: a program in
/// which the statement at `at` prints such a name, or has it in its initializer, has no
/// code.
pub proof fn law_undefined_name_fails(program: Seq<StmtView>, at: int, name: Seq<char>)
    requires
        0 <= at < program.len(),
        refers_to(program[at], name),
        forall|i: int| 0 <= i < at ==> !binds_name(#[trigger] program[i], name),
    ensures
        lower_spec(program) is Err,
{
    lemma_unbound_stays_unbound(program, at as nat, name);
    match lower_prefix(program, at as nat) {
        Ok(state) => {
            if let StmtView::Let { expr, .. } = program[at] {
                lemma_mention_fails(expr, state.table, 0, name);
            }
            assert(lower_prefix(program, (at + 1) as nat) is Err);
            lemma_error_stays(program, (at + 1) as nat, program.len());
        },
        Err(_) => {
            lemma_error_stays(program, at as nat, program.len());
        },
    }
}

/// A name has one kind: a program that binds a name at `first` and, at `later`, binds it
/// again with an initializer of the other kind, or has it in an integer initializer
/// although it is bound to a string, has no code.
pub proof fn law_kind_mismatch_fails(
    program: Seq<StmtView>,
    first: int,
    later: int,
    name: Seq<char>,
    kind: ExprKind,
)
    requires
        0 <= first < later < program.len(),
        binds(program[first], name, kind),
        match program[later] {
            StmtView::Let { name: bound, expr } => {
                ||| bound == name && kind_of(expr) != kind
                ||| kind == ExprKind::Str && kind_of(expr) == ExprKind::Int && mentions(expr, name)
            },
            StmtView::Print { .. } => false,
        },
    ensures
        lower_spec(program) is Err,
{
    lemma_kind_stays(program, later as nat, first, name, kind);
    match lower_prefix(program, later as nat) {
        Ok(state) => {
            if let StmtView::Let { name: bound, expr } = program[later] {
                if kind == ExprKind::Str && kind_of(expr) == ExprKind::Int && mentions(
                    expr,
                    name,
                ) {
                    lemma_mention_fails(expr, state.table, 0, name);
                }
            }
            assert(lower_prefix(program, (later + 1) as nat) is Err);
            lemma_error_stays(program, (later + 1) as nat, program.len());
        },
        Err(_) => {
            lemma_error_stays(program, later as nat, program.len());
        },
    }
}

} // verus!
