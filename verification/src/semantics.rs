//! What a program means, what its instructions do, and that the two are the same.
//!
//! Integers are 32-bit two's complement: `+`, `-`, `*` and negation wrap around, as the
//! instructions of the backend do. Division is signed and truncates toward zero; it has no
//! meaning where the divisor is 0 and where the quotient does not fit 32 bits. A program
//! that divides so, or that uses a name in a way that its kind does not allow, has no
//! meaning.
//!
//! A string is its whole text here. The backend ends a text at its first zero character;
//! for a text that holds one, what is printed is shorter than what this model says.

use crate::ast::{ExprView, StmtView};
use crate::expr::BinOp;
use crate::ir::{InstView, Op};
use crate::lower::{
    fits, kind_of, lemma_lower_expr_nonempty, lemma_lower_stmt_extends, lower_expr, lower_prefix,
    lower_spec, lower_stmt, Lowered,
};
use crate::symbols::{lemma_bind_lookup, lemma_position, lookup, Binding, ExprKind, SymbolView};
use vstd::prelude::*;

verus! {

/// What a name or a slot holds, and what a `print` writes.
pub ghost enum Value {
    Int(i32),
    Str(Seq<char>),
}

/// The 32-bit two's complement number that `v` is modulo 2^32.
pub open spec fn wrap(v: int) -> i32 {
    let m = v % 0x1_0000_0000;
    if m >= 0x8000_0000 {
        (m - 0x1_0000_0000) as i32
    } else {
        m as i32
    }
}

/// The quotient of `x` by `y`, rounded toward zero; `y` is not 0.
pub open spec fn quotient(x: int, y: int) -> int {
    let q = (if x < 0 {
        -x
    } else {
        x
    }) / (if y < 0 {
        -y
    } else {
        y
    });
    if (x < 0) != (y < 0) {
        -q
    } else {
        q
    }
}

/// The result of an infix operator on two integers, where it has one.
pub open spec fn apply(op: BinOp, x: i32, y: i32) -> Option<i32> {
    match op {
        BinOp::Add => Some(wrap(x + y)),
        BinOp::Sub => Some(wrap(x - y)),
        BinOp::Mul => Some(wrap(x * y)),
        BinOp::Div => if y == 0 || (x == i32::MIN && y == -1) {
            None
        } else {
            Some(quotient(x as int, y as int) as i32)
        },
    }
}

/// The result of an infix operator on two results.
pub open spec fn apply_both(op: BinOp, x: Option<i32>, y: Option<i32>) -> Option<i32> {
    match (x, y) {
        (Some(a), Some(b)) => apply(op, a, b),
        _ => None,
    }
}

/// The value of an integer expression where names hold what `env` says.
pub open spec fn eval(e: ExprView, env: Map<Seq<char>, Value>) -> Option<i32>
    decreases e,
{
    match e {
        ExprView::Int(v) => Some(v),
        ExprView::Var(name) => if env.contains_key(name) {
            match env[name] {
                Value::Int(v) => Some(v),
                Value::Str(_) => None,
            }
        } else {
            None
        },
        ExprView::UnaryNeg(a) => match eval(*a, env) {
            Some(v) => Some(wrap(-v)),
            None => None,
        },
        ExprView::Add(a, b) => apply_both(BinOp::Add, eval(*a, env), eval(*b, env)),
        ExprView::Sub(a, b) => apply_both(BinOp::Sub, eval(*a, env), eval(*b, env)),
        ExprView::Mul(a, b) => apply_both(BinOp::Mul, eval(*a, env), eval(*b, env)),
        ExprView::Div(a, b) => apply_both(BinOp::Div, eval(*a, env), eval(*b, env)),
        ExprView::Str(_) => None,
    }
}

/// A program on its way: what the names hold and what has been printed.
pub ghost struct Run {
    pub env: Map<Seq<char>, Value>,
    pub out: Seq<Value>,
}

/// `run` after one more statement.
pub open spec fn step(run: Run, stmt: StmtView) -> Option<Run> {
    match stmt {
        StmtView::Let { name, expr } => match expr {
            ExprView::Str(text) => Some(Run { env: run.env.insert(name, Value::Str(text)), ..run }),
            _ => match eval(expr, run.env) {
                Some(v) => Some(Run { env: run.env.insert(name, Value::Int(v)), ..run }),
                None => None,
            },
        },
        StmtView::Print { name } => if run.env.contains_key(name) {
            Some(Run { out: run.out.push(run.env[name]), ..run })
        } else {
            None
        },
    }
}

/// The program after its first `n` statements.
pub open spec fn run_prefix(stmts: Seq<StmtView>, n: nat) -> Option<Run>
    decreases n,
{
    if n == 0 {
        Some(Run { env: Map::empty(), out: Seq::empty() })
    } else {
        match run_prefix(stmts, (n - 1) as nat) {
            Some(run) => step(run, stmts[n - 1]),
            None => None,
        }
    }
}

/// What a program prints, value by value, if it has a meaning.
pub open spec fn meaning(program: Seq<StmtView>) -> Option<Seq<Value>> {
    match run_prefix(program, program.len()) {
        Some(run) => Some(run.out),
        None => None,
    }
}

/// The result of one operation, where `values` holds the results of the operations
/// before it and `slots` what the storage slots hold.
pub open spec fn eval_op(op: Op, values: Seq<i32>, slots: Seq<Value>) -> Option<i32> {
    match op {
        Op::Const(v) => Some(v),
        Op::Load(slot) => if slot < slots.len() {
            match slots[slot as int] {
                Value::Int(v) => Some(v),
                Value::Str(_) => None,
            }
        } else {
            None
        },
        Op::Neg(a) => if a < values.len() {
            Some(wrap(-values[a as int]))
        } else {
            None
        },
        Op::Binary(op, a, b) => if a < values.len() && b < values.len() {
            apply(op, values[a as int], values[b as int])
        } else {
            None
        },
    }
}

/// The results of the first `n` operations of `code`, in order.
pub open spec fn eval_ops(code: Seq<Op>, n: nat, slots: Seq<Value>) -> Option<Seq<i32>>
    decreases n,
{
    if n == 0 {
        Some(Seq::empty())
    } else {
        match eval_ops(code, (n - 1) as nat, slots) {
            Some(values) => match eval_op(code[n - 1], values, slots) {
                Some(v) => Some(values.push(v)),
                None => None,
            },
            None => None,
        }
    }
}

/// The entry point on its way: what the storage slots hold and what has been printed.
pub ghost struct Machine {
    pub slots: Seq<Value>,
    pub out: Seq<Value>,
}

/// `machine` after one more instruction.
pub open spec fn exec_inst(machine: Machine, inst: InstView) -> Option<Machine> {
    match inst {
        InstView::BindInt { code, .. } => match eval_ops(code, code.len(), machine.slots) {
            Some(values) => if values.len() > 0 {
                Some(Machine { slots: machine.slots.push(Value::Int(values.last())), ..machine })
            } else {
                None
            },
            None => None,
        },
        InstView::BindStr { text, .. } => Some(
            Machine { slots: machine.slots.push(Value::Str(text)), ..machine },
        ),
        InstView::PrintInt { slot } => if slot < machine.slots.len() && machine.slots[slot as int] is Int {
            Some(Machine { out: machine.out.push(machine.slots[slot as int]), ..machine })
        } else {
            None
        },
        InstView::PrintStr { slot } => if slot < machine.slots.len() && machine.slots[slot as int] is Str {
            Some(Machine { out: machine.out.push(machine.slots[slot as int]), ..machine })
        } else {
            None
        },
    }
}

/// The entry point after its first `n` instructions.
pub open spec fn exec_prefix(code: Seq<InstView>, n: nat) -> Option<Machine>
    decreases n,
{
    if n == 0 {
        Some(Machine { slots: Seq::empty(), out: Seq::empty() })
    } else {
        match exec_prefix(code, (n - 1) as nat) {
            Some(machine) => exec_inst(machine, code[n - 1]),
            None => None,
        }
    }
}

/// What the instructions print, value by value, if nothing in them is without a result.
pub open spec fn effect(code: Seq<InstView>) -> Option<Seq<Value>> {
    match exec_prefix(code, code.len()) {
        Some(machine) => Some(machine.out),
        None => None,
    }
}

/// Whether the table leads from every name to the slot that holds what the name holds:
/// a bound name has a value of its kind, which is in its slot, and an unbound name has
/// no value.
pub open spec fn agree(table: Seq<SymbolView>, env: Map<Seq<char>, Value>, slots: Seq<Value>) -> bool {
    forall|name: Seq<char>|
        match #[trigger] lookup(table, name) {
            Some(binding) => {
                &&& binding.slot < slots.len()
                &&& env.contains_key(name)
                &&& env[name] == slots[binding.slot as int]
                &&& (binding.kind == ExprKind::Int <==> env[name] is Int)
            },
            None => !env.contains_key(name),
        }
}

/// There is one result for each operation.
proof fn lemma_eval_ops_len(code: Seq<Op>, n: nat, slots: Seq<Value>)
    ensures
        match eval_ops(code, n, slots) {
            Some(values) => values.len() == n,
            None => true,
        },
    decreases n,
{
    if n > 0 {
        lemma_eval_ops_len(code, (n - 1) as nat, slots);
    }
}

/// Later operations keep the results of earlier ones, and where an earlier one has no
/// result, none has.
proof fn lemma_eval_ops_extends(code: Seq<Op>, n: nat, m: nat, slots: Seq<Value>)
    requires
        n <= m,
    ensures
        match eval_ops(code, m, slots) {
            Some(values) => eval_ops(code, n, slots) == Some(values.take(n as int)),
            None => true,
        },
    decreases m - n,
{
    lemma_eval_ops_len(code, m, slots);
    if n < m {
        lemma_eval_ops_extends(code, n, (m - 1) as nat, slots);
        lemma_eval_ops_len(code, (m - 1) as nat, slots);
        if let Some(values) = eval_ops(code, m, slots) {
            let before = eval_ops(code, (m - 1) as nat, slots)->Some_0;
            assert(before.take(n as int) =~= values.take(n as int));
        }
    } else if let Some(values) = eval_ops(code, m, slots) {
        assert(values.take(n as int) =~= values);
    }
}

/// Whether `ops` stands in `full` behind `base` operations.
pub open spec fn placed(full: Seq<Op>, base: nat, ops: Seq<Op>) -> bool {
    &&& base + ops.len() <= full.len()
    &&& forall|i: int| 0 <= i < ops.len() ==> full[base + i] == #[trigger] ops[i]
}

/// Whether the `len` operations of `full` behind the first `base` compute `result`: the
/// last of them has that result, or, where there is none, one of them has no result.
pub open spec fn computes(
    full: Seq<Op>,
    base: nat,
    len: nat,
    slots: Seq<Value>,
    result: Option<i32>,
) -> bool {
    match result {
        Some(v) => eval_ops(full, base + len, slots) is Some && eval_ops(
            full,
            base + len,
            slots,
        )->Some_0.last() == v,
        None => eval_ops(full, base + len, slots) is None,
    }
}

/// Where the operand of a negation is computed, the negation computes its negative.
proof fn lemma_neg_computes(
    full: Seq<Op>,
    base: nat,
    len: nat,
    slots: Seq<Value>,
    operand: Option<i32>,
)
    requires
        len > 0,
        base + len < full.len() <= usize::MAX,
        computes(full, base, len, slots, operand),
        full[base as int + len] == Op::Neg((base + len - 1) as usize),
    ensures
        computes(
            full,
            base,
            len + 1,
            slots,
            match operand {
                Some(v) => Some(wrap(-v)),
                None => None,
            },
        ),
{
    lemma_eval_ops_len(full, base + len, slots);
}

/// Where the two operands of an operation are computed one after the other, the
/// operation computes its result on them.
proof fn lemma_binary_computes(
    op: BinOp,
    full: Seq<Op>,
    base: nat,
    left: nat,
    right: nat,
    slots: Seq<Value>,
    x: Option<i32>,
    y: Option<i32>,
)
    requires
        left > 0,
        right > 0,
        base + left + right < full.len() <= usize::MAX,
        computes(full, base, left, slots, x),
        x is Some ==> computes(full, base + left, right, slots, y),
        full[base as int + left + right] == Op::Binary(
            op,
            (base + left - 1) as usize,
            (base + left + right - 1) as usize,
        ),
    ensures
        computes(full, base, left + right + 1, slots, apply_both(op, x, y)),
{
    let mid = base + left;
    let last = mid + right;
    lemma_eval_ops_len(full, mid, slots);
    lemma_eval_ops_len(full, last, slots);
    lemma_eval_ops_extends(full, mid, last, slots);
    if let Some(values) = eval_ops(full, last, slots) {
        assert(values.take(mid as int).last() == values[mid - 1]);
        assert(eval_ops(full, mid, slots) == Some(values.take(mid as int)));
    }
}

/// The parts of the code of a binary operation stand where the whole code stands.
proof fn lemma_placed_parts(full: Seq<Op>, base: nat, l: Seq<Op>, r: Seq<Op>, x: Op)
    requires
        placed(full, base, (l + r).push(x)),
    ensures
        placed(full, base, l),
        placed(full, base + l.len(), r),
        full[base as int + l.len() + r.len()] == x,
{
    let ops = (l + r).push(x);
    assert forall|i: int| 0 <= i < l.len() implies full[base + i] == #[trigger] l[i] by {
        assert(ops[i] == l[i]);
    }
    assert forall|i: int| 0 <= i < r.len() implies full[base + l.len() + i] == #[trigger] r[i] by {
        assert(ops[l.len() + i] == r[i]);
    }
    assert(ops[l.len() as int + r.len()] == x);
}

/// The code of an expression computes the value of the expression: where the code stands
/// in `full` behind `base` operations that have results, running `full` to the end of the
/// code gives the value of the expression as the last result, and no result if and only
/// if the expression has no value.
proof fn lemma_code_computes(
    e: ExprView,
    table: Seq<SymbolView>,
    base: nat,
    env: Map<Seq<char>, Value>,
    slots: Seq<Value>,
    full: Seq<Op>,
)
    requires
        agree(table, env, slots),
        lower_expr(e, table, base) is Ok,
        placed(full, base, lower_expr(e, table, base)->Ok_0),
        full.len() <= usize::MAX,
        eval_ops(full, base, slots) is Some,
    ensures
        computes(full, base, lower_expr(e, table, base)->Ok_0.len(), slots, eval(e, env)),
    decreases e,
{
    let ops = lower_expr(e, table, base)->Ok_0;
    lemma_lower_expr_nonempty(e, table, base);
    match e {
        ExprView::Int(v) => {
            assert(full[base as int + 0] == ops[0]);
        },
        ExprView::Var(name) => {
            assert(lookup(table, name) is Some);
            assert(full[base as int + 0] == ops[0]);
        },
        ExprView::UnaryNeg(a) => {
            let code = lower_expr(*a, table, base)->Ok_0;
            lemma_lower_expr_nonempty(*a, table, base);
            let x = Op::Neg((base + code.len() - 1) as usize);
            assert(ops == code.push(x));
            assert(code.push(x) =~= (code + Seq::<Op>::empty()).push(x));
            lemma_placed_parts(full, base, code, Seq::<Op>::empty(), x);
            lemma_code_computes(*a, table, base, env, slots, full);
            lemma_neg_computes(full, base, code.len(), slots, eval(*a, env));
        },
        ExprView::Add(a, b) => {
            lemma_operands_compute(BinOp::Add, *a, *b, table, base, env, slots, full);
            lemma_code_computes(*a, table, base, env, slots, full);
            let l = lower_expr(*a, table, base)->Ok_0;
            if eval(*a, env) is Some {
                lemma_code_computes(*b, table, base + l.len(), env, slots, full);
            }
            lemma_operation_computes(BinOp::Add, *a, *b, table, base, env, slots, full);
        },
        ExprView::Sub(a, b) => {
            lemma_operands_compute(BinOp::Sub, *a, *b, table, base, env, slots, full);
            lemma_code_computes(*a, table, base, env, slots, full);
            let l = lower_expr(*a, table, base)->Ok_0;
            if eval(*a, env) is Some {
                lemma_code_computes(*b, table, base + l.len(), env, slots, full);
            }
            lemma_operation_computes(BinOp::Sub, *a, *b, table, base, env, slots, full);
        },
        ExprView::Mul(a, b) => {
            lemma_operands_compute(BinOp::Mul, *a, *b, table, base, env, slots, full);
            lemma_code_computes(*a, table, base, env, slots, full);
            let l = lower_expr(*a, table, base)->Ok_0;
            if eval(*a, env) is Some {
                lemma_code_computes(*b, table, base + l.len(), env, slots, full);
            }
            lemma_operation_computes(BinOp::Mul, *a, *b, table, base, env, slots, full);
        },
        ExprView::Div(a, b) => {
            lemma_operands_compute(BinOp::Div, *a, *b, table, base, env, slots, full);
            lemma_code_computes(*a, table, base, env, slots, full);
            let l = lower_expr(*a, table, base)->Ok_0;
            if eval(*a, env) is Some {
                lemma_code_computes(*b, table, base + l.len(), env, slots, full);
            }
            lemma_operation_computes(BinOp::Div, *a, *b, table, base, env, slots, full);
        },
        ExprView::Str(_) => {},
    }
}

/// The code of a binary operation: the code of its operands, then the operation.
pub open spec fn binary_code(
    op: BinOp,
    a: ExprView,
    b: ExprView,
    table: Seq<SymbolView>,
    base: nat,
) -> Result<Seq<Op>, crate::lower::SemanticErrorView> {
    crate::lower::join(
        op,
        base,
        lower_expr(a, table, base),
        if let Ok(l) = lower_expr(a, table, base) {
            lower_expr(b, table, base + l.len())
        } else {
            lower_expr(a, table, base)
        },
    )
}

/// Where the code of a binary operation stands, the code of its operands stands.
proof fn lemma_operands_compute(
    op: BinOp,
    a: ExprView,
    b: ExprView,
    table: Seq<SymbolView>,
    base: nat,
    env: Map<Seq<char>, Value>,
    slots: Seq<Value>,
    full: Seq<Op>,
)
    requires
        binary_code(op, a, b, table, base) is Ok,
        placed(full, base, binary_code(op, a, b, table, base)->Ok_0),
    ensures
        lower_expr(a, table, base) is Ok,
        lower_expr(b, table, base + lower_expr(a, table, base)->Ok_0.len()) is Ok,
        placed(full, base, lower_expr(a, table, base)->Ok_0),
        placed(
            full,
            base + lower_expr(a, table, base)->Ok_0.len(),
            lower_expr(b, table, base + lower_expr(a, table, base)->Ok_0.len())->Ok_0,
        ),
{
    let l = lower_expr(a, table, base)->Ok_0;
    let r = lower_expr(b, table, base + l.len())->Ok_0;
    let x = Op::Binary(op, (base + l.len() - 1) as usize, (base + l.len() + r.len() - 1) as usize);
    lemma_placed_parts(full, base, l, r, x);
}

/// Where the operands of a binary operation are computed, its code computes its value.
proof fn lemma_operation_computes(
    op: BinOp,
    a: ExprView,
    b: ExprView,
    table: Seq<SymbolView>,
    base: nat,
    env: Map<Seq<char>, Value>,
    slots: Seq<Value>,
    full: Seq<Op>,
)
    requires
        binary_code(op, a, b, table, base) is Ok,
        placed(full, base, binary_code(op, a, b, table, base)->Ok_0),
        full.len() <= usize::MAX,
        computes(full, base, lower_expr(a, table, base)->Ok_0.len(), slots, eval(a, env)),
        eval(a, env) is Some ==> computes(
            full,
            base + lower_expr(a, table, base)->Ok_0.len(),
            lower_expr(b, table, base + lower_expr(a, table, base)->Ok_0.len())->Ok_0.len(),
            slots,
            eval(b, env),
        ),
    ensures
        computes(
            full,
            base,
            binary_code(op, a, b, table, base)->Ok_0.len(),
            slots,
            apply_both(op, eval(a, env), eval(b, env)),
        ),
{
    let l = lower_expr(a, table, base)->Ok_0;
    let r = lower_expr(b, table, base + l.len())->Ok_0;
    let x = Op::Binary(op, (base + l.len() - 1) as usize, (base + l.len() + r.len() - 1) as usize);
    lemma_lower_expr_nonempty(a, table, base);
    lemma_lower_expr_nonempty(b, table, base + l.len());
    lemma_placed_parts(full, base, l, r, x);
    lemma_binary_computes(op, full, base, l.len(), r.len(), slots, eval(a, env), eval(b, env));
}

/// What the machine has reached is what the program has reached.
pub open spec fn same(state: Lowered, run: Option<Run>, machine: Option<Machine>) -> bool {
    match (run, machine) {
        (Some(r), Some(m)) => {
            &&& r.out == m.out
            &&& m.slots.len() == state.slots
            &&& agree(state.table, r.env, m.slots)
        },
        (None, None) => true,
        _ => false,
    }
}

/// One statement and its instruction do the same.
proof fn lemma_step_same(state: Lowered, stmt: StmtView, run: Run, machine: Machine)
    requires
        lower_stmt(state, stmt) is Ok,
        fits(lower_stmt(state, stmt)->Ok_0.code),
        state.slots <= usize::MAX,
        same(state, Some(run), Some(machine)),
    ensures
        same(
            lower_stmt(state, stmt)->Ok_0,
            step(run, stmt),
            exec_inst(machine, lower_stmt(state, stmt)->Ok_0.code.last()),
        ),
{
    let next = lower_stmt(state, stmt)->Ok_0;
    let inst = next.code.last();
    lemma_lower_stmt_extends(state, stmt);
    match stmt {
        StmtView::Let { name, expr } => {
            let bound = Binding { kind: kind_of(expr), slot: state.slots as usize };
            match expr {
                ExprView::Str(text) => {
                    let env = run.env.insert(name, Value::Str(text));
                    let slots = machine.slots.push(Value::Str(text));
                    assert forall|other: Seq<char>| match #[trigger] lookup(next.table, other) {
                        Some(binding) => {
                            &&& binding.slot < slots.len()
                            &&& env.contains_key(other)
                            &&& env[other] == slots[binding.slot as int]
                            &&& (binding.kind == ExprKind::Int <==> env[other] is Int)
                        },
                        None => !env.contains_key(other),
                    } by {
                        lemma_bind_lookup(state.table, name, bound, other);
                    }
                },
                _ => {
                    let code = lower_expr(expr, state.table, 0)->Ok_0;
                    assert(inst == InstView::BindInt { name, code });
                    assert(next.code[state.code.len() as int] == inst);
                    assert(code.len() <= usize::MAX);
                    assert(placed(code, 0, code));
                    lemma_lower_expr_nonempty(expr, state.table, 0);
                    lemma_code_computes(expr, state.table, 0, run.env, machine.slots, code);
                    lemma_eval_ops_len(code, code.len(), machine.slots);
                    if let Some(v) = eval(expr, run.env) {
                        let env = run.env.insert(name, Value::Int(v));
                        let slots = machine.slots.push(Value::Int(v));
                        assert forall|other: Seq<char>| match #[trigger] lookup(next.table, other) {
                            Some(binding) => {
                                &&& binding.slot < slots.len()
                                &&& env.contains_key(other)
                                &&& env[other] == slots[binding.slot as int]
                                &&& (binding.kind == ExprKind::Int <==> env[other] is Int)
                            },
                            None => !env.contains_key(other),
                        } by {
                            lemma_bind_lookup(state.table, name, bound, other);
                            }
                    }
                },
            }
        },
        StmtView::Print { name } => {
            assert(lookup(state.table, name) is Some);
        },
    }
}

/// Lowering gives one instruction for each statement and takes at most one slot for each.
proof fn lemma_lowered_sizes(stmts: Seq<StmtView>, n: nat)
    ensures
        match lower_prefix(stmts, n) {
            Ok(state) => state.code.len() == n && state.slots <= n,
            Err(_) => true,
        },
    decreases n,
{
    if n > 0 {
        lemma_lowered_sizes(stmts, (n - 1) as nat);
        if let Ok(prev) = lower_prefix(stmts, (n - 1) as nat) {
            lemma_lower_stmt_extends(prev, stmts[n - 1]);
        }
    }
}

/// What a prefix of the instructions does depends on nothing that follows it.
proof fn lemma_exec_prefix(code: Seq<InstView>, other: Seq<InstView>, n: nat)
    requires
        n <= code.len(),
        n <= other.len(),
        forall|i: int| 0 <= i < n ==> code[i] == other[i],
    ensures
        exec_prefix(code, n) == exec_prefix(other, n),
    decreases n,
{
    if n > 0 {
        lemma_exec_prefix(code, other, (n - 1) as nat);
    }
}

/// After every number of statements, the instructions have done what the statements mean.
proof fn lemma_prefix_same(stmts: Seq<StmtView>, n: nat)
    requires
        lower_prefix(stmts, n) is Ok,
        fits(lower_prefix(stmts, n)->Ok_0.code),
    ensures
        same(
            lower_prefix(stmts, n)->Ok_0,
            run_prefix(stmts, n),
            exec_prefix(lower_prefix(stmts, n)->Ok_0.code, n),
        ),
    decreases n,
{
    let state = lower_prefix(stmts, n)->Ok_0;
    if n == 0 {
        assert forall|name: Seq<char>| #[trigger]
            lookup(Seq::<SymbolView>::empty(), name) is None by {
            lemma_position(Seq::<SymbolView>::empty(), name, 0);
        }
    } else {
        let prev = lower_prefix(stmts, (n - 1) as nat)->Ok_0;
        let stmt = stmts[n - 1];
        lemma_lowered_sizes(stmts, n);
        lemma_lowered_sizes(stmts, (n - 1) as nat);
        lemma_lower_stmt_extends(prev, stmt);
        assert forall|i: int| 0 <= i < prev.code.len() implies prev.code[i] == state.code[i] by {
            assert(state.code.take(prev.code.len() as int)[i] == state.code[i]);
        }
        assert(fits(prev.code)) by {
            assert forall|i: int| 0 <= i < prev.code.len() implies match #[trigger] prev.code[i] {
                InstView::BindInt { code: ops, .. } => ops.len() <= usize::MAX,
                _ => true,
            } by {
                assert(prev.code[i] == state.code[i]);
            }
        }
        lemma_prefix_same(stmts, (n - 1) as nat);
        lemma_exec_prefix(prev.code, state.code, (n - 1) as nat);
        assert(state.code[n - 1] == state.code.last());
        match (run_prefix(stmts, (n - 1) as nat), exec_prefix(prev.code, (n - 1) as nat)) {
            (Some(run), Some(machine)) => {
                lemma_step_same(prev, stmt, run, machine);
            },
            _ => {},
        }
    }
}

/// Lowering keeps the meaning: the instructions of a program print what the program
/// means, value by value, and print nothing if and only if the program has no meaning.
pub proof fn law_lowering_keeps_meaning(program: Seq<StmtView>)
    requires
        lower_spec(program) is Ok,
        fits(lower_spec(program)->Ok_0),
    ensures
        effect(lower_spec(program)->Ok_0) == meaning(program),
{
    lemma_lowered_sizes(program, program.len());
    lemma_prefix_same(program, program.len());
}

} // verus!
