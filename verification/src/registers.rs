//! What holds of the registers and labels in generated code.
//!
//! Registers are handed out in increasing order, from 1 in every
//! function; register 0, the frame pointer, is read but never written.
//! A register that is handed out is larger than every register in the
//! code so far: no number is ever used for two values.
//!
//! Labels are handed out in increasing order over the whole translation
//! unit, and every label is defined at most once.

use vstd::prelude::*;
use crate::ast::NodeTypeView;
use crate::ast::NodeView;
use crate::error::ErrorView;
use crate::gen_ir::gen_args_spec;
use crate::gen_ir::gen_binop_spec;
use crate::gen_ir::gen_expr_spec;
use crate::gen_ir::gen_func_spec;
use crate::gen_ir::gen_funcs_spec;
use crate::gen_ir::gen_ir_spec;
use crate::gen_ir::gen_lval_spec;
use crate::gen_ir::gen_params_spec;
use crate::gen_ir::gen_stmt_spec;
use crate::gen_ir::gen_stmts_spec;
use crate::gen_ir::load_op;
use crate::gen_ir::local_addr_spec;
use crate::gen_ir::store_arg_op;
use crate::gen_ir::store_op;
use crate::gen_ir::FunctionView;
use crate::gen_ir::IRGenView;
use crate::gen_ir::IROpView;
use crate::gen_ir::IRType;
use crate::gen_ir::IRView;
use crate::gen_ir::MAX_ARGS;
use crate::token::TokenType;
use crate::types::CtypeView;
use crate::types::ScopeView;

verus! {

/// Whether `r` is a register that has been handed out: not the frame
/// pointer, and below `bound`.
pub open spec fn allocated(r: Option<usize>, bound: usize) -> bool {
    r matches Some(x) && 1 <= x < bound
}

/// Whether the instruction is well formed, every register that it names
/// is the frame pointer or has been handed out, and the register that it
/// names first, which is the one it writes if it writes one, is not the
/// frame pointer.
pub open spec fn regs_in(ir: IRView, bound: usize) -> bool {
    match ir.op.info().1 {
        IRType::RegReg => allocated(ir.lhs, bound) && (ir.rhs matches Some(r) && r < bound),
        IRType::RegImm | IRType::RegLabel => allocated(ir.lhs, bound) && ir.rhs is Some,
        IRType::Reg => allocated(ir.lhs, bound),
        IRType::Call => allocated(ir.lhs, bound) && (ir.op matches IROpView::Call(_, nargs, args)
            && nargs == args.len() && forall|i: int|
            0 <= i < args.len() ==> 1 <= #[trigger] args[i] < bound),
        IRType::Jmp | IRType::Label | IRType::Imm => ir.lhs is Some,
        IRType::ImmImm => ir.lhs is Some && ir.rhs is Some,
        IRType::Noarg => true,
    }
}

/// Whether [`regs_in`] holds of every instruction of `code`.
#[verifier::opaque]
pub open spec fn code_ok(code: Seq<IRView>, bound: usize) -> bool {
    forall|i: int| 0 <= i < code.len() ==> regs_in(#[trigger] code[i], bound)
}

/// Whether the instruction defines label `x`.
pub open spec fn defines(ir: IRView, x: usize) -> bool {
    ir.op is Label && ir.lhs == Some(x)
}

/// How often label `x` is defined in `code`.
pub open spec fn label_count(code: Seq<IRView>, x: usize) -> nat
    decreases code.len(),
{
    if code.len() == 0 {
        0
    } else {
        label_count(code.drop_last(), x) + if defines(code.last(), x) {
            1nat
        } else {
            0nat
        }
    }
}

/// Whether no label is defined twice in `code`, and none that has not
/// been handed out.
#[verifier::opaque]
pub open spec fn labels_ok(code: Seq<IRView>, nlabel: usize) -> bool {
    forall|x: usize|
        #[trigger] label_count(code, x) <= 1 && (x >= nlabel ==> label_count(code, x) == 0)
}

/// Whether the labels below `bound` are defined as often in `b` as in `a`.
#[verifier::opaque]
pub open spec fn keeps_labels(a: Seq<IRView>, b: Seq<IRView>, bound: usize) -> bool {
    forall|x: usize| x < bound ==> #[trigger] label_count(b, x) == label_count(a, x)
}

/// Whether the state of the generator is in order: registers count from
/// 1, the code names only registers that were handed out, and defines
/// every label at most once.
pub open spec fn state_ok(st: IRGenView) -> bool {
    &&& st.nreg >= 1
    &&& code_ok(st.code, st.nreg)
    &&& labels_ok(st.code, st.nlabel)
}

/// Whether the generator went from `before` to `after` by taking
/// registers and labels and by adding instructions that name only
/// registers that were handed out and define only labels that were
/// handed out since `before`.
pub open spec fn extends(before: IRGenView, after: IRGenView) -> bool {
    &&& before.nreg <= after.nreg
    &&& before.nlabel <= after.nlabel
    &&& code_ok(after.code, after.nreg)
    &&& labels_ok(after.code, after.nlabel)
    &&& code_extends(before, after)
}

/// Whether the code of `after` starts with the code of `before` and
/// defines no label that was handed out before `before` more often than
/// the code of `before` does.
#[verifier::opaque]
pub open spec fn code_extends(before: IRGenView, after: IRGenView) -> bool {
    &&& before.code.len() <= after.code.len()
    &&& after.code.take(before.code.len() as int) == before.code
    &&& keeps_labels(before.code, after.code, before.nlabel)
}

/// Code that extends other code starts with it.
pub proof fn lemma_extends_ok(a: IRGenView, b: IRGenView)
    requires
        extends(a, b),
    ensures
        a.code.len() <= b.code.len(),
        b.code.take(a.code.len() as int) == a.code,
{
    reveal(code_extends);
}

/// Adding an instruction adds one definition of the label that it
/// defines, and none of any other label.
pub proof fn lemma_count_emit(
    st: IRGenView,
    op: IROpView,
    lhs: Option<usize>,
    rhs: Option<usize>,
    x: usize,
)
    ensures
        label_count(st.emit(op, lhs, rhs).code, x) == label_count(st.code, x) + if defines(
            IRView { op, lhs, rhs },
            x,
        ) {
            1nat
        } else {
            0nat
        },
{
    assert(st.emit(op, lhs, rhs).code.drop_last() == st.code);
}

/// A label that has not been handed out is not defined.
pub proof fn lemma_count_fresh(st: IRGenView, x: usize)
    requires
        labels_ok(st.code, st.nlabel),
        x >= st.nlabel,
    ensures
        label_count(st.code, x) == 0,
{
    reveal(labels_ok);
    assert(label_count(st.code, x) <= 1 && (x >= st.nlabel ==> label_count(st.code, x) == 0));
}

/// No label is defined twice.
pub proof fn lemma_count_once(code: Seq<IRView>, nlabel: usize, x: usize)
    requires
        labels_ok(code, nlabel),
    ensures
        label_count(code, x) <= 1,
{
    reveal(labels_ok);
    assert(label_count(code, x) <= 1 && (x >= nlabel ==> label_count(code, x) == 0));
}

/// A lowering does not define a label that was handed out before it.
pub proof fn lemma_count_kept(a: IRGenView, b: IRGenView, x: usize)
    requires
        extends(a, b),
        x < a.nlabel,
    ensures
        label_count(b.code, x) == label_count(a.code, x),
{
    reveal(code_extends);
    reveal(keeps_labels);
}

/// An instruction that is in order stays so when more registers are handed out.
pub proof fn lemma_regs_in_mono(ir: IRView, a: usize, b: usize)
    requires
        regs_in(ir, a),
        a <= b,
    ensures
        regs_in(ir, b),
{
}

/// Code that is in order stays so when more registers are handed out.
pub proof fn lemma_code_ok_mono(code: Seq<IRView>, a: usize, b: usize)
    requires
        code_ok(code, a),
        a <= b,
    ensures
        code_ok(code, b),
{
    reveal(code_ok);
    assert forall|i: int| 0 <= i < code.len() implies regs_in(#[trigger] code[i], b) by {
        lemma_regs_in_mono(code[i], a, b);
    }
}

/// Every instruction of code that is in order is in order and well formed.
pub proof fn lemma_code_ok_index(code: Seq<IRView>, bound: usize, i: int)
    requires
        code_ok(code, bound),
        0 <= i < code.len(),
    ensures
        regs_in(code[i], bound),
        code[i].wf(),
{
    reveal(code_ok);
}

/// A state that is in order extends itself.
pub proof fn lemma_extends_refl(st: IRGenView)
    requires
        code_ok(st.code, st.nreg),
        labels_ok(st.code, st.nlabel),
    ensures
        extends(st, st),
{
    reveal(code_extends);
    reveal(keeps_labels);
    assert(st.code.take(st.code.len() as int) == st.code);
}

/// What extends an extension of a state extends that state.
pub proof fn lemma_extends_trans(a: IRGenView, b: IRGenView, c: IRGenView)
    requires
        extends(a, b),
        extends(b, c),
    ensures
        extends(a, c),
{
    reveal(code_extends);
    reveal(keeps_labels);
    assert(c.code.take(a.code.len() as int) =~= c.code.take(b.code.len() as int).take(
        a.code.len() as int,
    ));
}

/// Adding an instruction that is in order, and defines no label, keeps
/// the code in order.
pub proof fn lemma_extends_emit(
    a: IRGenView,
    b: IRGenView,
    op: IROpView,
    lhs: Option<usize>,
    rhs: Option<usize>,
)
    requires
        extends(a, b),
        regs_in(IRView { op, lhs, rhs }, b.nreg),
        !(op is Label),
    ensures
        extends(a, b.emit(op, lhs, rhs)),
{
    reveal(code_extends);
    reveal(code_ok);
    let c = b.emit(op, lhs, rhs);
    assert(c.code.take(a.code.len() as int) =~= b.code.take(a.code.len() as int));
    assert(labels_ok(c.code, c.nlabel) && keeps_labels(a.code, c.code, a.nlabel)) by {
        reveal(labels_ok);
        reveal(keeps_labels);
        assert forall|x: usize| #[trigger] label_count(c.code, x) == label_count(b.code, x) by {
            lemma_count_emit(b, op, lhs, rhs, x);
        }
    }
}

/// Defining a label that was handed out since `a` and is not defined
/// yet keeps the code in order.
pub proof fn lemma_extends_label(a: IRGenView, b: IRGenView, x: usize)
    requires
        extends(a, b),
        a.nlabel <= x < b.nlabel,
        label_count(b.code, x) == 0,
    ensures
        extends(a, b.label(x)),
{
    reveal(code_extends);
    reveal(code_ok);
    let c = b.label(x);
    assert(c.code.take(a.code.len() as int) =~= b.code.take(a.code.len() as int));
    assert(labels_ok(c.code, c.nlabel) && keeps_labels(a.code, c.code, a.nlabel)) by {
        reveal(labels_ok);
        reveal(keeps_labels);
        assert forall|y: usize| #[trigger]
            label_count(c.code, y) == label_count(b.code, y) + if y == x {
                1nat
            } else {
                0nat
            } by {
            lemma_count_emit(b, IROpView::Label, Some(x), None, y);
        }
    }
}

/// Taking a register keeps the code in order; the register is the next
/// in order.
pub proof fn lemma_extends_fresh_reg(a: IRGenView, b: IRGenView)
    requires
        extends(a, b),
        b.fresh_reg() is Some,
    ensures
        b.fresh_reg() matches Some((r, c)) && extends(a, c) && r == b.nreg && c.nreg == b.nreg + 1
            && c.nlabel == b.nlabel && c.code == b.code,
{
    reveal(code_extends);
    lemma_code_ok_mono(b.code, b.nreg, (b.nreg + 1) as usize);
}

/// Taking a label keeps the code in order; the label is the next in order.
pub proof fn lemma_extends_fresh_label(a: IRGenView, b: IRGenView)
    requires
        extends(a, b),
        b.fresh_label() is Some,
    ensures
        b.fresh_label() matches Some((x, c)) && extends(a, c) && c.nreg == b.nreg && x == b.nlabel
            && c.nlabel == b.nlabel + 1 && c.code == b.code,
{
    reveal(code_extends);
    reveal(labels_ok);
}

/// Marking registers dead that were handed out keeps the code in order.
pub proof fn lemma_extends_kill_all(a: IRGenView, b: IRGenView, regs: Seq<usize>)
    requires
        extends(a, b),
        forall|i: int| 0 <= i < regs.len() ==> 1 <= #[trigger] regs[i] < b.nreg,
    ensures
        extends(a, b.kill_all(regs)),
        b.kill_all(regs).nreg == b.nreg,
        b.kill_all(regs).nlabel == b.nlabel,
    decreases regs.len(),
{
    if regs.len() > 0 {
        lemma_extends_kill_all(a, b, regs.drop_last());
        let c = b.kill_all(regs.drop_last());
        assert(1 <= regs[regs.len() - 1] < b.nreg);
        lemma_extends_emit(a, c, IROpView::Kill, Some(regs.last()), None);
    }
}

/// A register that is handed out is not the frame pointer and is named
/// by no instruction of the code so far: no register number is used for
/// two values.
pub proof fn lemma_fresh_register_is_new(st: IRGenView, i: int)
    requires
        state_ok(st),
        st.fresh_reg() is Some,
        0 <= i < st.code.len(),
    ensures
        st.fresh_reg() matches Some((r, s)) && r >= 1 && regs_in(st.code[i], r) && s.nreg == r + 1,
{
    lemma_code_ok_index(st.code, st.nreg, i);
}

/// The address of a local is left in a fresh register.
pub proof fn lemma_local_addr_regs(offset: usize, st: IRGenView)
    requires
        state_ok(st),
    ensures
        local_addr_spec(offset, st) matches Ok((r, s)) ==> extends(st, s) && st.nreg <= r < s.nreg,
{
    lemma_extends_refl(st);
    match st.fresh_reg() {
        Some((r, st1)) => {
            lemma_extends_fresh_reg(st, st);
            lemma_extends_emit(st, st1, IROpView::Mov, Some(r), Some(0));
            lemma_extends_emit(
                st,
                st1.emit(IROpView::Mov, Some(r), Some(0)),
                IROpView::SubImm,
                Some(r),
                Some(offset),
            );
        },
        None => {},
    }
}

/// What the lowering of an expression keeps true: the code that was
/// there stays, the counters do not go back, and the result is in a
/// register that this lowering handed out.
pub open spec fn lowers_in_order(st: IRGenView, r: usize, s: IRGenView) -> bool {
    extends(st, s) && st.nreg <= r < s.nreg
}

/// The lowering of an lvalue keeps the code in order and leaves the
/// address in a register that it handed out.
pub proof fn lemma_gen_lval_regs(node: NodeView, st: IRGenView)
    requires
        state_ok(st),
    ensures
        gen_lval_spec(node, st) matches Ok((r, s)) ==> lowers_in_order(st, r, s),
    decreases node, 0nat,
{
    match node.op {
        NodeTypeView::Deref(expr) => {
            lemma_gen_expr_regs(*expr, st);
        },
        NodeTypeView::Lvar(ScopeView::Local(offset)) => {
            lemma_local_addr_regs(offset, st);
        },
        _ => {},
    }
}

/// The lowering of a binary operation keeps the code in order and leaves
/// the result in a register that it handed out.
pub proof fn lemma_gen_binop_regs(op: IROpView, node: NodeView, st: IRGenView)
    requires
        state_ok(st),
        op.info().1 == IRType::RegReg,
    ensures
        gen_binop_spec(op, node, st) matches Ok((r, s)) ==> lowers_in_order(st, r, s),
    decreases node, 0nat,
{
    match node.op {
        NodeTypeView::BinOp(_, lhs, rhs) => {
            lemma_gen_expr_regs(*lhs, st);
            match gen_expr_spec(*lhs, st) {
                Ok((r1, st1)) => {
                    lemma_gen_expr_regs(*rhs, st1);
                    match gen_expr_spec(*rhs, st1) {
                        Ok((r2, st2)) => {
                            lemma_extends_trans(st, st1, st2);
                            lemma_extends_emit(st, st2, op, Some(r1), Some(r2));
                            lemma_extends_emit(
                                st,
                                st2.emit(op, Some(r1), Some(r2)),
                                IROpView::Kill,
                                Some(r2),
                                None,
                            );
                        },
                        Err(_) => {},
                    }
                },
                Err(_) => {},
            }
        },
        _ => {},
    }
}

/// The lowering of the arguments of a call keeps the code in order and
/// leaves every argument in a register that it handed out.
pub proof fn lemma_gen_args_regs(args: Seq<NodeView>, st: IRGenView)
    requires
        state_ok(st),
    ensures
        gen_args_spec(args, st) matches Ok((regs, s)) ==> extends(st, s) && regs.len() == args.len()
            && forall|i: int| 0 <= i < regs.len() ==> st.nreg <= #[trigger] regs[i] < s.nreg,
    decreases args, 0nat,
{
    if args.len() == 0 {
        lemma_extends_refl(st);
    } else {
        lemma_gen_args_regs(args.drop_last(), st);
        match gen_args_spec(args.drop_last(), st) {
            Ok((regs, st1)) => {
                lemma_gen_expr_regs(args.last(), st1);
                match gen_expr_spec(args.last(), st1) {
                    Ok((r, st2)) => {
                        lemma_extends_trans(st, st1, st2);
                    },
                    Err(_) => {},
                }
            },
            Err(_) => {},
        }
    }
}

proof fn lemma_gen_call_regs(node: NodeView, st: IRGenView)
    requires
        state_ok(st),
        node.op is Call,
    ensures
        gen_expr_spec(node, st) matches Ok((r, s)) ==> lowers_in_order(st, r, s),
    decreases node, 1nat,
{
    match node.op {
        NodeTypeView::Call(name, args) => {
            if args.len() <= MAX_ARGS {
                lemma_gen_args_regs(args, st);
                match gen_args_spec(args, st) {
                    Ok((regs, st1)) => {
                        match st1.fresh_reg() {
                            Some((r, st2)) => {
                                lemma_extends_fresh_reg(st, st1);
                                let op = IROpView::Call(name, args.len() as usize, regs);
                                lemma_extends_emit(st, st2, op, Some(r), None);
                                lemma_extends_kill_all(st, st2.emit(op, Some(r), None), regs);
                            },
                            None => {},
                        }
                    },
                    Err(_) => {},
                }
            }
        },
        _ => {},
    }
}

proof fn lemma_gen_logand_regs(node: NodeView, st: IRGenView)
    requires
        state_ok(st),
        node.op matches NodeTypeView::BinOp(op, _, _) && op == TokenType::Logand,
    ensures
        gen_expr_spec(node, st) matches Ok((r, s)) ==> lowers_in_order(st, r, s),
    decreases node, 1nat,
{
    match node.op {
        NodeTypeView::BinOp(_, lhs, rhs) => {
            lemma_extends_refl(st);
            match st.fresh_label() {
                Some((x, st0)) => {
                    lemma_extends_fresh_label(st, st);
                    lemma_count_fresh(st, x);
                    lemma_gen_expr_regs(*lhs, st0);
                    match gen_expr_spec(*lhs, st0) {
                        Ok((r1, st1)) => {
                            lemma_extends_trans(st, st0, st1);
                            lemma_count_kept(st0, st1, x);
                            lemma_extends_emit(st, st1, IROpView::Unless, Some(r1), Some(x));
                            let st1b = st1.emit(IROpView::Unless, Some(r1), Some(x));
                            lemma_count_emit(st1, IROpView::Unless, Some(r1), Some(x), x);
                            lemma_gen_expr_regs(*rhs, st1b);
                            match gen_expr_spec(*rhs, st1b) {
                                Ok((r2, st2)) => {
                                    lemma_extends_trans(st, st1b, st2);
                                    lemma_count_kept(st1b, st2, x);
                                    let a = st2.emit(IROpView::Mov, Some(r1), Some(r2));
                                    let b = a.kill(r2);
                                    let c = b.emit(IROpView::Unless, Some(r1), Some(x));
                                    let d = c.emit(IROpView::Imm, Some(r1), Some(1));
                                    lemma_extends_emit(st, st2, IROpView::Mov, Some(r1), Some(r2));
                                    lemma_extends_emit(st, a, IROpView::Kill, Some(r2), None);
                                    lemma_extends_emit(st, b, IROpView::Unless, Some(r1), Some(x));
                                    lemma_extends_emit(st, c, IROpView::Imm, Some(r1), Some(1));
                                    lemma_count_emit(st2, IROpView::Mov, Some(r1), Some(r2), x);
                                    lemma_count_emit(a, IROpView::Kill, Some(r2), None, x);
                                    lemma_count_emit(b, IROpView::Unless, Some(r1), Some(x), x);
                                    lemma_count_emit(c, IROpView::Imm, Some(r1), Some(1), x);
                                    lemma_extends_label(st, d, x);
                                },
                                Err(_) => {},
                            }
                        },
                        Err(_) => {},
                    }
                },
                None => {},
            }
        },
        _ => {},
    }
}

#[verifier::rlimit(40)]
proof fn lemma_gen_logor_regs(node: NodeView, st: IRGenView)
    requires
        state_ok(st),
        node.op matches NodeTypeView::BinOp(op, _, _) && op == TokenType::Logor,
    ensures
        gen_expr_spec(node, st) matches Ok((r, s)) ==> lowers_in_order(st, r, s),
    decreases node, 1nat,
{
    match node.op {
        NodeTypeView::BinOp(_, lhs, rhs) => {
            lemma_extends_refl(st);
            match st.fresh_label() {
                Some((x, sta)) => {
                    lemma_extends_fresh_label(st, st);
                    lemma_count_fresh(st, x);
                    match sta.fresh_label() {
                        Some((y, st0)) => {
                            lemma_extends_fresh_label(st, sta);
                            lemma_count_fresh(st, y);
                            lemma_gen_expr_regs(*lhs, st0);
                            match gen_expr_spec(*lhs, st0) {
                                Ok((r1, st1)) => {
                                    lemma_extends_trans(st, st0, st1);
                                    lemma_count_kept(st0, st1, x);
                                    lemma_count_kept(st0, st1, y);
                                    let p = st1.emit(IROpView::Unless, Some(r1), Some(x));
                                    let q = p.emit(IROpView::Imm, Some(r1), Some(1));
                                    let u = q.emit(IROpView::Jmp, Some(y), None);
                                    let v = u.label(x);
                                    lemma_extends_emit(st, st1, IROpView::Unless, Some(r1), Some(x));
                                    lemma_extends_emit(st, p, IROpView::Imm, Some(r1), Some(1));
                                    lemma_extends_emit(st, q, IROpView::Jmp, Some(y), None);
                                    lemma_count_emit(st1, IROpView::Unless, Some(r1), Some(x), x);
                                    lemma_count_emit(p, IROpView::Imm, Some(r1), Some(1), x);
                                    lemma_count_emit(q, IROpView::Jmp, Some(y), None, x);
                                    lemma_count_emit(st1, IROpView::Unless, Some(r1), Some(x), y);
                                    lemma_count_emit(p, IROpView::Imm, Some(r1), Some(1), y);
                                    lemma_count_emit(q, IROpView::Jmp, Some(y), None, y);
                                    lemma_extends_label(st, u, x);
                                    lemma_count_emit(u, IROpView::Label, Some(x), None, y);
                                    lemma_gen_expr_regs(*rhs, v);
                                    match gen_expr_spec(*rhs, v) {
                                        Ok((r2, st2)) => {
                                            lemma_extends_trans(st, v, st2);
                                            lemma_count_kept(v, st2, y);
                                            let a = st2.emit(IROpView::Mov, Some(r1), Some(r2));
                                            let b = a.kill(r2);
                                            let c = b.emit(IROpView::Unless, Some(r1), Some(y));
                                            let d = c.emit(IROpView::Imm, Some(r1), Some(1));
                                            lemma_extends_emit(
                                                st,
                                                st2,
                                                IROpView::Mov,
                                                Some(r1),
                                                Some(r2),
                                            );
                                            lemma_extends_emit(st, a, IROpView::Kill, Some(r2), None);
                                            lemma_extends_emit(
                                                st,
                                                b,
                                                IROpView::Unless,
                                                Some(r1),
                                                Some(y),
                                            );
                                            lemma_extends_emit(
                                                st,
                                                c,
                                                IROpView::Imm,
                                                Some(r1),
                                                Some(1),
                                            );
                                            lemma_count_emit(st2, IROpView::Mov, Some(r1), Some(r2), y);
                                            lemma_count_emit(a, IROpView::Kill, Some(r2), None, y);
                                            lemma_count_emit(b, IROpView::Unless, Some(r1), Some(y), y);
                                            lemma_count_emit(c, IROpView::Imm, Some(r1), Some(1), y);
                                            lemma_extends_label(st, d, y);
                                        },
                                        Err(_) => {},
                                    }
                                },
                                Err(_) => {},
                            }
                        },
                        None => {},
                    }
                },
                None => {},
            }
        },
        _ => {},
    }
}

proof fn lemma_gen_assign_regs(node: NodeView, st: IRGenView)
    requires
        state_ok(st),
        node.op matches NodeTypeView::BinOp(op, _, _) && op == TokenType::Equal,
    ensures
        gen_expr_spec(node, st) matches Ok((r, s)) ==> lowers_in_order(st, r, s),
    decreases node, 1nat,
{
    match node.op {
        NodeTypeView::BinOp(_, lhs, rhs) => {
            lemma_gen_expr_regs(*rhs, st);
            match gen_expr_spec(*rhs, st) {
                Ok((r, st1)) => {
                    lemma_gen_lval_regs(*lhs, st1);
                    match gen_lval_spec(*lhs, st1) {
                        Ok((l, st2)) => {
                            lemma_extends_trans(st, st1, st2);
                            let op = store_op(node.ty.ty);
                            lemma_extends_emit(st, st2, op, Some(l), Some(r));
                            lemma_extends_emit(
                                st,
                                st2.emit(op, Some(l), Some(r)),
                                IROpView::Kill,
                                Some(r),
                                None,
                            );
                        },
                        Err(_) => {},
                    }
                },
                Err(_) => {},
            }
        },
        _ => {},
    }
}

proof fn lemma_gen_arith_regs(node: NodeView, st: IRGenView)
    requires
        state_ok(st),
        node.op matches NodeTypeView::BinOp(op, _, _) && op != TokenType::Equal && op
            != TokenType::Logand && op != TokenType::Logor,
    ensures
        gen_expr_spec(node, st) matches Ok((r, s)) ==> lowers_in_order(st, r, s),
    decreases node, 1nat,
{
    match node.op {
        NodeTypeView::BinOp(op, lhs, rhs) => {
            match IROpView::from_token_type(op) {
                Some(insn) => {
                    let scaled = lhs.ty.ty is Ptr && (op == TokenType::Plus || op
                        == TokenType::Minus);
                    if scaled {
                        let size = lhs.ty.ty->Ptr_0.size;
                        lemma_gen_expr_regs(*rhs, st);
                        match gen_expr_spec(*rhs, st) {
                            Ok((r, st1)) => {
                                match st1.fresh_reg() {
                                    Some((scale, st2)) => {
                                        lemma_extends_fresh_reg(st, st1);
                                        let a = st2.emit(IROpView::Imm, Some(scale), Some(size));
                                        let b = a.emit(IROpView::Mul, Some(r), Some(scale));
                                        let c = b.kill(scale);
                                        lemma_extends_emit(
                                            st,
                                            st2,
                                            IROpView::Imm,
                                            Some(scale),
                                            Some(size),
                                        );
                                        lemma_extends_emit(
                                            st,
                                            a,
                                            IROpView::Mul,
                                            Some(r),
                                            Some(scale),
                                        );
                                        lemma_extends_emit(st, b, IROpView::Kill, Some(scale), None);
                                        lemma_gen_expr_regs(*lhs, c);
                                        match gen_expr_spec(*lhs, c) {
                                            Ok((l, st3)) => {
                                                lemma_extends_trans(st, c, st3);
                                                lemma_extends_emit(st, st3, insn, Some(l), Some(r));
                                                lemma_extends_emit(
                                                    st,
                                                    st3.emit(insn, Some(l), Some(r)),
                                                    IROpView::Kill,
                                                    Some(r),
                                                    None,
                                                );
                                            },
                                            Err(_) => {},
                                        }
                                    },
                                    None => {},
                                }
                            },
                            Err(_) => {},
                        }
                    } else {
                        lemma_gen_binop_regs(insn, node, st);
                    }
                },
                None => {},
            }
        },
        _ => {},
    }
}

/// The lowering of an expression adds to the code, takes registers in
/// increasing order, names only registers that were handed out, and
/// leaves its result in a register that it handed out itself.
pub proof fn lemma_gen_expr_regs(node: NodeView, st: IRGenView)
    requires
        state_ok(st),
    ensures
        gen_expr_spec(node, st) matches Ok((r, s)) ==> lowers_in_order(st, r, s),
    decreases node, 2nat,
{
    match node.op {
        NodeTypeView::Num(val) => {
            lemma_extends_refl(st);
            match st.fresh_reg() {
                Some((r, st1)) => {
                    lemma_extends_fresh_reg(st, st);
                    lemma_extends_emit(st, st1, IROpView::Imm, Some(r), Some(val as usize));
                },
                None => {},
            }
        },
        NodeTypeView::Lvar(_) => {
            lemma_gen_lval_regs(node, st);
            match gen_lval_spec(node, st) {
                Ok((r, st1)) => {
                    lemma_extends_emit(st, st1, load_op(node.ty.ty), Some(r), Some(r));
                },
                Err(_) => {},
            }
        },
        NodeTypeView::Call(_, _) => {
            lemma_gen_call_regs(node, st);
        },
        NodeTypeView::Addr(expr) => {
            lemma_gen_lval_regs(*expr, st);
        },
        NodeTypeView::Deref(expr) => {
            lemma_gen_expr_regs(*expr, st);
            match gen_expr_spec(*expr, st) {
                Ok((r, st1)) => {
                    lemma_extends_emit(st, st1, IROpView::Load64, Some(r), Some(r));
                },
                Err(_) => {},
            }
        },
        NodeTypeView::BinOp(op, _, _) => {
            if op == TokenType::Logand {
                lemma_gen_logand_regs(node, st);
            } else if op == TokenType::Logor {
                lemma_gen_logor_regs(node, st);
            } else if op == TokenType::Equal {
                lemma_gen_assign_regs(node, st);
            } else {
                lemma_gen_arith_regs(node, st);
            }
        },
        _ => {},
    }
}

proof fn lemma_gen_vardef_regs(node: NodeView, st: IRGenView)
    requires
        state_ok(st),
        node.op is Vardef,
    ensures
        gen_stmt_spec(node, st) matches Ok(s) ==> extends(st, s),
    decreases node, 1nat,
{
    lemma_extends_refl(st);
    match node.op {
        NodeTypeView::Vardef(_, Some(e), ScopeView::Local(offset)) => {
            lemma_gen_expr_regs(*e, st);
            match gen_expr_spec(*e, st) {
                Ok((r, st1)) => {
                    lemma_local_addr_regs(offset, st1);
                    match local_addr_spec(offset, st1) {
                        Ok((l, st2)) => {
                            lemma_extends_trans(st, st1, st2);
                            let op = store_op(node.ty.ty);
                            let a = st2.emit(op, Some(l), Some(r));
                            lemma_extends_emit(st, st2, op, Some(l), Some(r));
                            lemma_extends_emit(st, a, IROpView::Kill, Some(l), None);
                            lemma_extends_emit(st, a.kill(l), IROpView::Kill, Some(r), None);
                        },
                        Err(_) => {},
                    }
                },
                Err(_) => {},
            }
        },
        _ => {},
    }
}

proof fn lemma_gen_if_regs(node: NodeView, st: IRGenView)
    requires
        state_ok(st),
        node.op matches NodeTypeView::If(_, _, els) && els is None,
    ensures
        gen_stmt_spec(node, st) matches Ok(s) ==> extends(st, s),
    decreases node, 1nat,
{
    lemma_extends_refl(st);
    match node.op {
        NodeTypeView::If(cond, then, _) => {
            match st.fresh_label() {
                Some((x, st0)) => {
                    lemma_extends_fresh_label(st, st);
                    lemma_count_fresh(st, x);
                    lemma_gen_expr_regs(*cond, st0);
                    match gen_expr_spec(*cond, st0) {
                        Ok((r, st1)) => {
                            lemma_extends_trans(st, st0, st1);
                            lemma_count_kept(st0, st1, x);
                            let a = st1.emit(IROpView::Unless, Some(r), Some(x));
                            lemma_extends_emit(st, st1, IROpView::Unless, Some(r), Some(x));
                            lemma_extends_emit(st, a, IROpView::Kill, Some(r), None);
                            lemma_count_emit(st1, IROpView::Unless, Some(r), Some(x), x);
                            lemma_count_emit(a, IROpView::Kill, Some(r), None, x);
                            lemma_gen_stmt_regs(*then, a.kill(r));
                            match gen_stmt_spec(*then, a.kill(r)) {
                                Ok(st2) => {
                                    lemma_extends_trans(st, a.kill(r), st2);
                                    lemma_count_kept(a.kill(r), st2, x);
                                    lemma_extends_label(st, st2, x);
                                },
                                Err(_) => {},
                            }
                        },
                        Err(_) => {},
                    }
                },
                None => {},
            }
        },
        _ => {},
    }
}

#[verifier::rlimit(40)]
proof fn lemma_gen_if_else_regs(node: NodeView, st: IRGenView)
    requires
        state_ok(st),
        node.op matches NodeTypeView::If(_, _, els) && els is Some,
    ensures
        gen_stmt_spec(node, st) matches Ok(s) ==> extends(st, s),
    decreases node, 1nat,
{
    lemma_extends_refl(st);
    match node.op {
        NodeTypeView::If(cond, then, Some(e)) => {
            match st.fresh_label() {
                Some((x, sta)) => {
                    lemma_extends_fresh_label(st, st);
                    lemma_count_fresh(st, x);
                    match sta.fresh_label() {
                        Some((y, st0)) => {
                            lemma_extends_fresh_label(st, sta);
                            lemma_count_fresh(st, y);
                            lemma_gen_expr_regs(*cond, st0);
                            match gen_expr_spec(*cond, st0) {
                                Ok((r, st1)) => {
                                    lemma_extends_trans(st, st0, st1);
                                    lemma_count_kept(st0, st1, x);
                                    lemma_count_kept(st0, st1, y);
                                    let a = st1.emit(IROpView::Unless, Some(r), Some(x));
                                    let k = a.kill(r);
                                    lemma_extends_emit(st, st1, IROpView::Unless, Some(r), Some(x));
                                    lemma_extends_emit(st, a, IROpView::Kill, Some(r), None);
                                    lemma_count_emit(st1, IROpView::Unless, Some(r), Some(x), x);
                                    lemma_count_emit(a, IROpView::Kill, Some(r), None, x);
                                    lemma_count_emit(st1, IROpView::Unless, Some(r), Some(x), y);
                                    lemma_count_emit(a, IROpView::Kill, Some(r), None, y);
                                    lemma_gen_stmt_regs(*then, k);
                                    match gen_stmt_spec(*then, k) {
                                        Ok(st2) => {
                                            lemma_extends_trans(st, k, st2);
                                            lemma_count_kept(k, st2, x);
                                            lemma_count_kept(k, st2, y);
                                            let b = st2.emit(IROpView::Jmp, Some(y), None);
                                            lemma_extends_emit(st, st2, IROpView::Jmp, Some(y), None);
                                            lemma_count_emit(st2, IROpView::Jmp, Some(y), None, x);
                                            lemma_count_emit(st2, IROpView::Jmp, Some(y), None, y);
                                            lemma_extends_label(st, b, x);
                                            lemma_count_emit(b, IROpView::Label, Some(x), None, y);
                                            lemma_gen_stmt_regs(*e, b.label(x));
                                            match gen_stmt_spec(*e, b.label(x)) {
                                                Ok(st3) => {
                                                    lemma_extends_trans(st, b.label(x), st3);
                                                    lemma_count_kept(b.label(x), st3, y);
                                                    lemma_extends_label(st, st3, y);
                                                },
                                                Err(_) => {},
                                            }
                                        },
                                        Err(_) => {},
                                    }
                                },
                                Err(_) => {},
                            }
                        },
                        None => {},
                    }
                },
                None => {},
            }
        },
        _ => {},
    }
}

#[verifier::rlimit(40)]
proof fn lemma_gen_for_regs(node: NodeView, st: IRGenView)
    requires
        state_ok(st),
        node.op is For,
    ensures
        gen_stmt_spec(node, st) matches Ok(s) ==> extends(st, s),
    decreases node, 1nat,
{
    lemma_extends_refl(st);
    match node.op {
        NodeTypeView::For(init, cond, inc, body) => {
            match st.fresh_label() {
                Some((x, sta)) => {
                    lemma_extends_fresh_label(st, st);
                    lemma_count_fresh(st, x);
                    match sta.fresh_label() {
                        Some((y, st0)) => {
                            lemma_extends_fresh_label(st, sta);
                            lemma_count_fresh(st, y);
                            lemma_gen_stmt_regs(*init, st0);
                            match gen_stmt_spec(*init, st0) {
                                Ok(st1) => {
                                    lemma_extends_trans(st, st0, st1);
                                    lemma_count_kept(st0, st1, x);
                                    lemma_count_kept(st0, st1, y);
                                    lemma_extends_label(st, st1, x);
                                    let l = st1.label(x);
                                    lemma_count_emit(st1, IROpView::Label, Some(x), None, y);
                                    lemma_gen_expr_regs(*cond, l);
                                    match gen_expr_spec(*cond, l) {
                                        Ok((r2, st2)) => {
                                            lemma_extends_trans(st, l, st2);
                                            lemma_count_kept(l, st2, y);
                                            let a = st2.emit(IROpView::Unless, Some(r2), Some(y));
                                            let k = a.kill(r2);
                                            lemma_extends_emit(
                                                st,
                                                st2,
                                                IROpView::Unless,
                                                Some(r2),
                                                Some(y),
                                            );
                                            lemma_extends_emit(st, a, IROpView::Kill, Some(r2), None);
                                            lemma_count_emit(st2, IROpView::Unless, Some(r2), Some(y), y);
                                            lemma_count_emit(a, IROpView::Kill, Some(r2), None, y);
                                            lemma_gen_stmt_regs(*body, k);
                                            match gen_stmt_spec(*body, k) {
                                                Ok(st3) => {
                                                    lemma_extends_trans(st, k, st3);
                                                    lemma_count_kept(k, st3, y);
                                                    lemma_gen_expr_regs(*inc, st3);
                                                    match gen_expr_spec(*inc, st3) {
                                                        Ok((r3, st4)) => {
                                                            lemma_extends_trans(st, st3, st4);
                                                            lemma_count_kept(st3, st4, y);
                                                            let b = st4.kill(r3);
                                                            let c = b.emit(
                                                                IROpView::Jmp,
                                                                Some(x),
                                                                None,
                                                            );
                                                            lemma_extends_emit(
                                                                st,
                                                                st4,
                                                                IROpView::Kill,
                                                                Some(r3),
                                                                None,
                                                            );
                                                            lemma_extends_emit(
                                                                st,
                                                                b,
                                                                IROpView::Jmp,
                                                                Some(x),
                                                                None,
                                                            );
                                                            lemma_count_emit(
                                                                st4,
                                                                IROpView::Kill,
                                                                Some(r3),
                                                                None,
                                                                y,
                                                            );
                                                            lemma_count_emit(
                                                                b,
                                                                IROpView::Jmp,
                                                                Some(x),
                                                                None,
                                                                y,
                                                            );
                                                            lemma_extends_label(st, c, y);
                                                        },
                                                        Err(_) => {},
                                                    }
                                                },
                                                Err(_) => {},
                                            }
                                        },
                                        Err(_) => {},
                                    }
                                },
                                Err(_) => {},
                            }
                        },
                        None => {},
                    }
                },
                None => {},
            }
        },
        _ => {},
    }
}

/// The lowering of a list of statements keeps the code in order.
pub proof fn lemma_gen_stmts_regs(stmts: Seq<NodeView>, st: IRGenView)
    requires
        state_ok(st),
    ensures
        gen_stmts_spec(stmts, st) matches Ok(s) ==> extends(st, s),
    decreases stmts, 0nat,
{
    if stmts.len() == 0 {
        lemma_extends_refl(st);
    } else {
        lemma_gen_stmts_regs(stmts.drop_last(), st);
        match gen_stmts_spec(stmts.drop_last(), st) {
            Ok(st1) => {
                lemma_gen_stmt_regs(stmts.last(), st1);
                match gen_stmt_spec(stmts.last(), st1) {
                    Ok(st2) => {
                        lemma_extends_trans(st, st1, st2);
                    },
                    Err(_) => {},
                }
            },
            Err(_) => {},
        }
    }
}

/// The lowering of a statement adds to the code, takes registers and
/// labels in increasing order, and names only registers that were handed out.
pub proof fn lemma_gen_stmt_regs(node: NodeView, st: IRGenView)
    requires
        state_ok(st),
    ensures
        gen_stmt_spec(node, st) matches Ok(s) ==> extends(st, s),
    decreases node, 2nat,
{
    match node.op {
        NodeTypeView::Vardef(_, _, _) => {
            lemma_gen_vardef_regs(node, st);
        },
        NodeTypeView::If(_, _, None) => {
            lemma_gen_if_regs(node, st);
        },
        NodeTypeView::If(_, _, Some(_)) => {
            lemma_gen_if_else_regs(node, st);
        },
        NodeTypeView::For(_, _, _, _) => {
            lemma_gen_for_regs(node, st);
        },
        NodeTypeView::Return(expr) => {
            lemma_gen_expr_regs(*expr, st);
            match gen_expr_spec(*expr, st) {
                Ok((r, st1)) => {
                    lemma_extends_emit(st, st1, IROpView::Return, Some(r), None);
                    lemma_extends_emit(
                        st,
                        st1.emit(IROpView::Return, Some(r), None),
                        IROpView::Kill,
                        Some(r),
                        None,
                    );
                },
                Err(_) => {},
            }
        },
        NodeTypeView::ExprStmt(expr) => {
            lemma_gen_expr_regs(*expr, st);
            match gen_expr_spec(*expr, st) {
                Ok((r, st1)) => {
                    lemma_extends_emit(st, st1, IROpView::Kill, Some(r), None);
                },
                Err(_) => {},
            }
        },
        NodeTypeView::CompStmt(stmts) => {
            lemma_gen_stmts_regs(stmts, st);
        },
        _ => {},
    }
}

/// The prologue of a function keeps the code in order and takes no register.
pub proof fn lemma_gen_params_regs(params: Seq<NodeView>, st: IRGenView)
    requires
        code_ok(st.code, st.nreg),
        labels_ok(st.code, st.nlabel),
    ensures
        gen_params_spec(params, st) matches Ok(s) ==> extends(st, s) && s.nreg == st.nreg,
    decreases params.len(),
{
    if params.len() == 0 {
        lemma_extends_refl(st);
    } else {
        lemma_gen_params_regs(params.drop_last(), st);
        match gen_params_spec(params.drop_last(), st) {
            Ok(st1) => {
                match params.last().op {
                    NodeTypeView::Vardef(_, _, ScopeView::Local(offset)) => {
                        lemma_extends_emit(
                            st,
                            st1,
                            store_arg_op(params.last().ty.ty),
                            Some(offset),
                            Some((params.len() - 1) as usize),
                        );
                    },
                    _ => {},
                }
            },
            Err(_) => {},
        }
    }
}

/// Whether the code of a function is in order: every instruction is well
/// formed, names only the frame pointer and registers from 1 up to some
/// bound, and writes none but the latter.
pub open spec fn function_in_order(f: FunctionView) -> bool {
    exists|bound: usize| 1 <= bound && code_ok(f.ir, bound)
}

/// Whether `code` defines no label twice, and only labels from `lo` up
/// to, but not including, `hi`.
pub open spec fn labels_within(code: Seq<IRView>, lo: usize, hi: usize) -> bool {
    forall|x: usize|
        #[trigger] label_count(code, x) <= 1 && (label_count(code, x) > 0 ==> lo <= x < hi)
}

/// In the code of every function the registers start at 1, whatever the
/// functions before it used, and the labels go on where the function
/// before it stopped: the function defines no label twice and only
/// labels that were handed out for it.
pub proof fn lemma_gen_func_regs(node: NodeView, nlabel: usize)
    ensures
        gen_func_spec(node, nlabel) matches Ok((f, n)) ==> nlabel <= n && function_in_order(f)
            && f.wf() && labels_within(f.ir, nlabel, n),
{
    match node.op {
        NodeTypeView::Func(name, params, body, stacksize) => {
            let st = IRGenView { nreg: 1, nlabel, code: Seq::empty() };
            assert(code_ok(st.code, st.nreg)) by {
                reveal(code_ok);
            }
            assert(labels_ok(st.code, st.nlabel)) by {
                reveal(labels_ok);
            }
            lemma_gen_params_regs(params, st);
            match gen_params_spec(params, st) {
                Ok(st1) => {
                    lemma_gen_stmt_regs(*body, st1);
                    match gen_stmt_spec(*body, st1) {
                        Ok(st2) => {
                            lemma_extends_trans(st, st1, st2);
                            let f = FunctionView { name, ir: st2.code, stacksize };
                            assert(1 <= st2.nreg && code_ok(f.ir, st2.nreg));
                            assert(function_in_order(f));
                            assert forall|i: int| 0 <= i < f.ir.len() implies (#[trigger] f.ir[i]).wf() by {
                                lemma_code_ok_index(f.ir, st2.nreg, i);
                            }
                            assert forall|x: usize| #[trigger]
                                label_count(f.ir, x) <= 1 && (label_count(f.ir, x) > 0 ==> nlabel <= x
                                    < st2.nlabel) by {
                                lemma_count_once(st2.code, st2.nlabel, x);
                                if x < nlabel {
                                    lemma_count_kept(st, st2, x);
                                }
                                if x >= st2.nlabel {
                                    lemma_count_fresh(st2, x);
                                }
                            }
                        },
                        Err(_) => {},
                    }
                },
                Err(_) => {},
            }
        },
        _ => {},
    }
}

/// Every function that the generator gives is in order and can be
/// shown, and all their labels lie between the first label that was free
/// before them and the first that is free after them.
pub proof fn lemma_gen_funcs_regs(nodes: Seq<NodeView>, nlabel: usize)
    ensures
        gen_funcs_spec(nodes, nlabel) matches Ok((fns, n)) ==> nlabel <= n && fns.len()
            == nodes.len() && forall|i: int|
            0 <= i < fns.len() ==> function_in_order(#[trigger] fns[i]) && fns[i].wf()
                && labels_within(fns[i].ir, nlabel, n),
    decreases nodes.len(),
{
    if nodes.len() > 0 {
        lemma_gen_funcs_regs(nodes.drop_last(), nlabel);
        match gen_funcs_spec(nodes.drop_last(), nlabel) {
            Ok((done, n1)) => {
                lemma_gen_func_regs(nodes.last(), n1);
            },
            Err(_) => {},
        }
    }
}

/// Every function of a lowered translation unit is in order: its
/// registers are numbered from 1, each instruction has the operands it
/// needs, and the frame pointer is never written. Such code can be shown.
pub proof fn lemma_gen_ir_regs(nodes: Seq<NodeView>)
    ensures
        gen_ir_spec(nodes) matches Ok(fns) ==> fns.len() == nodes.len() && forall|i: int|
            0 <= i < fns.len() ==> function_in_order(#[trigger] fns[i]) && fns[i].wf(),
{
    lemma_gen_funcs_regs(nodes, 0);
}

/// A function that comes after other functions defines none of their labels.
proof fn lemma_gen_funcs_labels(nodes: Seq<NodeView>, nlabel: usize, i: int, j: int, x: usize)
    requires
        0 <= i < j < nodes.len(),
    ensures
        gen_funcs_spec(nodes, nlabel) matches Ok((fns, _)) ==> fns.len() == nodes.len() && !(
        label_count(fns[i].ir, x) > 0 && label_count(fns[j].ir, x) > 0),
    decreases nodes.len(),
{
    lemma_gen_funcs_regs(nodes, nlabel);
    lemma_gen_funcs_regs(nodes.drop_last(), nlabel);
    match gen_funcs_spec(nodes.drop_last(), nlabel) {
        Ok((done, n1)) => {
            match gen_func_spec(nodes.last(), n1) {
                Ok((f, n2)) => {
                    let fns = done.push(f);
                    assert(gen_funcs_spec(nodes, nlabel) == Ok::<
                        (Seq<FunctionView>, usize),
                        ErrorView,
                    >((fns, n2)));
                    assert(fns[i] == done[i]);
                    if j < nodes.len() - 1 {
                        lemma_gen_funcs_labels(nodes.drop_last(), nlabel, i, j, x);
                        assert(fns[j] == done[j]);
                    } else {
                        lemma_gen_func_regs(nodes.last(), n1);
                        assert(fns[j] == f);
                        assert(labels_within(done[i].ir, nlabel, n1));
                        assert(label_count(done[i].ir, x) <= 1 && (label_count(done[i].ir, x) > 0
                            ==> nlabel <= x < n1));
                        assert(label_count(f.ir, x) <= 1 && (label_count(f.ir, x) > 0 ==> n1 <= x
                            < n2));
                    }
                },
                Err(_) => {},
            }
        },
        Err(_) => {},
    }
}

/// Labels are unique over the whole translation unit: no label is
/// defined twice in a function, and none in two functions.
pub proof fn lemma_labels_unique(nodes: Seq<NodeView>, i: int, j: int, x: usize)
    requires
        0 <= i < nodes.len(),
        0 <= j < nodes.len(),
    ensures
        gen_ir_spec(nodes) matches Ok(fns) ==> label_count(fns[i].ir, x) <= 1 && (i != j ==> !(
        label_count(fns[i].ir, x) > 0 && label_count(fns[j].ir, x) > 0)),
{
    lemma_gen_funcs_regs(nodes, 0);
    match gen_funcs_spec(nodes, 0) {
        Ok((fns, n)) => {
            assert(label_count(fns[i].ir, x) <= 1 && (label_count(fns[i].ir, x) > 0 ==> 0 <= x < n));
            if i < j {
                lemma_gen_funcs_labels(nodes, 0, i, j, x);
            } else if j < i {
                lemma_gen_funcs_labels(nodes, 0, j, i, x);
            }
        },
        Err(_) => {},
    }
}

/// The lowering of a function does not depend on the functions around
/// it but for the number of its first label: its registers start anew.
pub proof fn lemma_registers_reset(a: Seq<NodeView>, b: Seq<NodeView>, node: NodeView)
    requires
        gen_funcs_spec(a, 0) matches Ok((_, na)) && gen_funcs_spec(b, 0) matches Ok((_, nb)) && na
            == nb,
    ensures
        gen_funcs_spec(a.push(node), 0) is Ok == gen_funcs_spec(b.push(node), 0) is Ok,
        gen_funcs_spec(a.push(node), 0) matches Ok((fa, _)) ==> gen_funcs_spec(b.push(node), 0)
            matches Ok((fb, _)) && fa.last() == fb.last(),
{
    assert(a.push(node).drop_last() == a);
    assert(b.push(node).drop_last() == b);
}

} // verus!
