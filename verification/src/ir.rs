//! The instructions that a program is lowered to, and when a sequence of them is well
//! formed.

use crate::expr::BinOp;
use crate::symbols::ExprKind;
use vstd::prelude::*;

verus! {

/// One operation of an integer computation. An operand is the position, in the same
/// sequence, of the operation whose result it is.
#[derive(Clone, Copy, Debug, PartialEq, Eq, Structural)]
pub enum Op {
    /// The constant.
    Const(i32),
    /// The integer in the storage slot.
    Load(usize),
    /// Two's-complement negation.
    Neg(usize),
    /// The operator applied to the left and the right operand; division is signed.
    Binary(BinOp, usize, usize),
}

/// One instruction of the entry point.
#[derive(Debug, PartialEq, Eq)]
pub enum Inst {
    /// Runs `code`, takes a fresh integer slot called `name` and stores the result of the
    /// last operation in it.
    BindInt { name: String, code: Vec<Op> },
    /// Interns `text` as the constant number `label`, takes a fresh pointer slot called
    /// `name` and stores the reference to the constant in it.
    BindStr { name: String, text: String, label: usize },
    /// Prints the integer in the slot, followed by a line feed.
    PrintInt { slot: usize },
    /// Prints the text that the slot refers to, followed by a line feed.
    PrintStr { slot: usize },
}

/// Mathematical value of an [`Inst`].
pub ghost enum InstView {
    BindInt { name: Seq<char>, code: Seq<Op> },
    BindStr { name: Seq<char>, text: Seq<char>, label: usize },
    PrintInt { slot: usize },
    PrintStr { slot: usize },
}

impl View for Inst {
    type V = InstView;

    open spec fn view(&self) -> InstView {
        match self {
            Inst::BindInt { name, code } => InstView::BindInt { name: name@, code: code@ },
            Inst::BindStr { name, text, label } => InstView::BindStr {
                name: name@,
                text: text@,
                label: *label,
            },
            Inst::PrintInt { slot } => InstView::PrintInt { slot: *slot },
            Inst::PrintStr { slot } => InstView::PrintStr { slot: *slot },
        }
    }
}

/// The views of a sequence of instructions, in order.
pub open spec fn insts_view(insts: Seq<Inst>) -> Seq<InstView> {
    Seq::new(insts.len(), |i: int| insts[i]@)
}

/// Whether the operation at position `at` takes its operands from earlier operations and
/// loads from an integer slot; `kinds` holds the kinds of the slots taken so far.
pub open spec fn op_ok(op: Op, at: int, kinds: Seq<ExprKind>) -> bool {
    match op {
        Op::Const(_) => true,
        Op::Load(slot) => slot < kinds.len() && kinds[slot as int] == ExprKind::Int,
        Op::Neg(a) => a < at,
        Op::Binary(_, a, b) => a < at && b < at,
    }
}

/// Whether every operation of `code` is in order, where `base` operations precede `code`.
pub open spec fn ops_ok_from(code: Seq<Op>, base: nat, kinds: Seq<ExprKind>) -> bool {
    forall|i: int| 0 <= i < code.len() ==> op_ok(#[trigger] code[i], base + i, kinds)
}

/// Whether `code` computes a value: it is not empty and every operation is in order.
pub open spec fn ops_ok(code: Seq<Op>, kinds: Seq<ExprKind>) -> bool {
    code.len() > 0 && ops_ok_from(code, 0, kinds)
}

/// Whether an instruction is in order where `kinds` holds the kinds of the slots taken
/// before it.
pub open spec fn inst_ok(inst: InstView, kinds: Seq<ExprKind>) -> bool {
    match inst {
        InstView::BindInt { code, .. } => ops_ok(code, kinds),
        InstView::BindStr { .. } => true,
        InstView::PrintInt { slot } => slot < kinds.len() && kinds[slot as int] == ExprKind::Int,
        InstView::PrintStr { slot } => slot < kinds.len() && kinds[slot as int] == ExprKind::Str,
    }
}

/// The kinds of the storage slots that the first `n` instructions take, in the order in
/// which they are taken.
pub open spec fn slot_kinds(code: Seq<InstView>, n: int) -> Seq<ExprKind>
    decreases n,
{
    if n <= 0 || n > code.len() {
        Seq::empty()
    } else {
        let before = slot_kinds(code, n - 1);
        match code[n - 1] {
            InstView::BindInt { .. } => before.push(ExprKind::Int),
            InstView::BindStr { .. } => before.push(ExprKind::Str),
            _ => before,
        }
    }
}

/// Whether a sequence of instructions is well formed: every slot is taken before it is
/// used and holds the kind that its use needs, and every operand of an operation is the
/// result of an earlier operation.
pub open spec fn code_ok(code: Seq<InstView>) -> bool {
    forall|i: int| 0 <= i < code.len() ==> inst_ok(#[trigger] code[i], slot_kinds(code, i))
}

/// The slots that a prefix takes do not depend on what follows it.
pub proof fn lemma_slot_kinds_prefix(code: Seq<InstView>, longer: Seq<InstView>, n: int)
    requires
        0 <= n <= code.len() <= longer.len(),
        forall|i: int| 0 <= i < code.len() ==> code[i] == longer[i],
    ensures
        slot_kinds(code, n) == slot_kinds(longer, n),
    decreases n,
{
    if n > 0 {
        lemma_slot_kinds_prefix(code, longer, n - 1);
    }
}

/// No more slots are taken than there are instructions.
pub proof fn lemma_slot_kinds_len(code: Seq<InstView>, n: int)
    requires
        0 <= n <= code.len(),
    ensures
        slot_kinds(code, n).len() <= n,
    decreases n,
{
    if n > 0 {
        lemma_slot_kinds_len(code, n - 1);
    }
}

} // verus!
