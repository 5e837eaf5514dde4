//! What the code of `&&` and `||` does when it runs.
//!
//! The model covers the instructions that move values between registers
//! and that branch, which is all that the code around the operands of
//! `&&` and `||` is made of. It shows that this code evaluates the right
//! operand only where the left operand does not decide, and that it
//! leaves 0 or 1 in the result register.

use vstd::prelude::*;
use crate::ast::NodeTypeView;
use crate::ast::NodeView;
use crate::gen_ir::gen_expr_spec;
use crate::gen_ir::IRGenView;
use crate::gen_ir::IROpView;
use crate::gen_ir::IRView;
use crate::registers::defines;
use crate::registers::extends;
use crate::registers::label_count;
use crate::registers::lemma_count_emit;
use crate::registers::lemma_count_fresh;
use crate::registers::lemma_count_kept;
use crate::registers::lemma_extends_emit;
use crate::registers::lemma_extends_fresh_label;
use crate::registers::lemma_extends_label;
use crate::registers::lemma_extends_ok;
use crate::registers::lemma_extends_refl;
use crate::registers::lemma_extends_trans;
use crate::registers::lemma_gen_expr_regs;
use crate::registers::state_ok;
use crate::token::TokenType;

verus! {

/// Where label `x` is defined in `code`: the first such place.
pub open spec fn label_pos(code: Seq<IRView>, x: usize) -> Option<int>
    decreases code.len(),
{
    if code.len() == 0 {
        None
    } else {
        match label_pos(code.drop_last(), x) {
            Some(p) => Some(p),
            None => if defines(code.last(), x) {
                Some(code.len() - 1)
            } else {
                None
            },
        }
    }
}

/// One step of the machine at the instruction `pc`, with the registers
/// holding `regs`: the next instruction and the registers after the step.
/// `None` for an instruction that the model does not cover, and where a
/// branch names a label that is not defined.
///
/// `UNLESS r, x` goes to label `x` where `r` holds 0 and on to the next
/// instruction where it does not.
pub open spec fn step(code: Seq<IRView>, pc: int, regs: Map<usize, int>) -> Option<
    (int, Map<usize, int>),
> {
    if !(0 <= pc < code.len()) {
        None
    } else {
        let ir = code[pc];
        match (ir.op, ir.lhs, ir.rhs) {
            (IROpView::Imm, Some(r), Some(v)) => Some((pc + 1, regs.insert(r, v as int))),
            (IROpView::Mov, Some(r), Some(from)) => Some((pc + 1, regs.insert(r, regs[from]))),
            (IROpView::Kill, _, _) => Some((pc + 1, regs)),
            (IROpView::Label, _, _) => Some((pc + 1, regs)),
            (IROpView::Nop, _, _) => Some((pc + 1, regs)),
            (IROpView::Jmp, Some(x), _) => match label_pos(code, x) {
                Some(p) => Some((p, regs)),
                None => None,
            },
            (IROpView::Unless, Some(r), Some(x)) => if regs[r] == 0 {
                match label_pos(code, x) {
                    Some(p) => Some((p, regs)),
                    None => None,
                }
            } else {
                Some((pc + 1, regs))
            },
            _ => None,
        }
    }
}

/// `n` steps of the machine.
pub open spec fn run(code: Seq<IRView>, pc: int, regs: Map<usize, int>, n: nat) -> Option<
    (int, Map<usize, int>),
>
    decreases n,
{
    if n == 0 {
        Some((pc, regs))
    } else {
        match step(code, pc, regs) {
            Some((next, after)) => run(code, next, after, (n - 1) as nat),
            None => None,
        }
    }
}

/// A label that is not defined has no place.
pub proof fn lemma_label_pos_none(code: Seq<IRView>, x: usize)
    requires
        label_count(code, x) == 0,
    ensures
        label_pos(code, x) is None,
    decreases code.len(),
{
    if code.len() > 0 {
        lemma_label_pos_none(code.drop_last(), x);
    }
}

/// The place of a label stays when code is added.
pub proof fn lemma_label_pos_prefix(a: Seq<IRView>, b: Seq<IRView>, x: usize)
    requires
        a.len() <= b.len(),
        b.take(a.len() as int) == a,
        label_pos(a, x) is Some,
    ensures
        label_pos(b, x) == label_pos(a, x),
    decreases b.len() - a.len(),
{
    if a.len() < b.len() {
        assert(b.drop_last().take(a.len() as int) =~= b.take(a.len() as int));
        lemma_label_pos_prefix(a, b.drop_last(), x);
    } else {
        assert(b.take(a.len() as int) == b);
    }
}

/// A label that is defined where no definition of it was gets the place
/// of that definition.
pub proof fn lemma_label_pos_new(st: IRGenView, x: usize)
    requires
        label_count(st.code, x) == 0,
    ensures
        label_pos(st.label(x).code, x) == Some(st.code.len() as int),
{
    lemma_label_pos_none(st.code, x);
    assert(st.label(x).code.drop_last() == st.code);
}

/// The instructions of `a` are at the same places in code that extends `a`.
pub proof fn lemma_extends_index(a: IRGenView, b: IRGenView, i: int)
    requires
        extends(a, b),
        0 <= i < a.code.len(),
    ensures
        b.code[i] == a.code[i],
        i < b.code.len(),
{
    lemma_extends_ok(a, b);
    assert(b.code.take(a.code.len() as int)[i] == b.code[i]);
}

/// How the code of `lhs && rhs` is laid out.
pub ghost struct AndLayout {
    /// The label at the end.
    pub x: usize,
    /// The register of the left operand, which is the result register.
    pub r1: usize,
    /// The register of the right operand.
    pub r2: usize,
    /// The place of the test of the left operand.
    pub test: int,
    /// The place after the code of the right operand.
    pub tail: int,
}

/// The layout of the code of the `&&` node `node`, lowered from `st`.
pub open spec fn and_layout(node: NodeView, st: IRGenView) -> AndLayout
    recommends
        gen_expr_spec(node, st) is Ok,
{
    let lhs = *node.op->BinOp_1;
    let rhs = *node.op->BinOp_2;
    let (x, st0) = st.fresh_label()->0;
    let (r1, st1) = gen_expr_spec(lhs, st0)->Ok_0;
    let (r2, st2) = gen_expr_spec(rhs, st1.emit(IROpView::Unless, Some(r1), Some(x)))->Ok_0;
    AndLayout { x, r1, r2, test: st1.code.len() as int, tail: st2.code.len() as int }
}

/// `lhs && rhs` evaluates `rhs` only where `lhs` is not 0, and gives 0 or 1.
///
/// The code is: the left operand; a test; the right operand; five closing
/// instructions, of which the last defines the label of the test.
///
/// - Where the left operand gave 0, the test goes straight to that last
///   instruction, past all of the right operand, and the result is 0.
/// - After the right operand, the closing instructions leave 1 in the
///   result register where the right operand gave something else than
///   0, and 0 where it gave 0.
pub proof fn lemma_logand_short_circuit(node: NodeView, st: IRGenView, regs: Map<usize, int>)
    requires
        state_ok(st),
        node.op matches NodeTypeView::BinOp(op, _, _) && op == TokenType::Logand,
        gen_expr_spec(node, st) is Ok,
    ensures
        ({
            let (r, s) = gen_expr_spec(node, st)->Ok_0;
            let lay = and_layout(node, st);
            let end = s.code.len() as int;
            &&& r == lay.r1
            &&& st.code.len() <= lay.test < lay.tail
            &&& lay.tail + 5 == end
            &&& s.code[lay.test] == (IRView {
                op: IROpView::Unless,
                lhs: Some(lay.r1),
                rhs: Some(lay.x),
            })
            &&& regs[lay.r1] == 0 ==> step(s.code, lay.test, regs) == Some((end - 1, regs)) && run(
                s.code,
                lay.test,
                regs,
                2,
            ) == Some((end, regs))
            &&& regs[lay.r2] != 0 ==> (run(s.code, lay.tail, regs, 5) matches Some((pc, after))
                && pc == end && after[r] == 1)
            &&& regs[lay.r2] == 0 ==> (run(s.code, lay.tail, regs, 4) matches Some((pc, after))
                && pc == end && after[r] == 0)
        }),
{
    let lhs = *node.op->BinOp_1;
    let rhs = *node.op->BinOp_2;
    lemma_extends_refl(st);
    let (x, st0) = st.fresh_label()->0;
    lemma_extends_fresh_label(st, st);
    lemma_count_fresh(st, x);
    lemma_gen_expr_regs(lhs, st0);
    let (r1, st1) = gen_expr_spec(lhs, st0)->Ok_0;
    lemma_count_kept(st0, st1, x);
    lemma_extends_trans(st, st0, st1);
    lemma_extends_ok(st, st1);
    lemma_extends_emit(st, st1, IROpView::Unless, Some(r1), Some(x));
    let st1b = st1.emit(IROpView::Unless, Some(r1), Some(x));
    lemma_count_emit(st1, IROpView::Unless, Some(r1), Some(x), x);
    lemma_gen_expr_regs(rhs, st1b);
    let (r2, st2) = gen_expr_spec(rhs, st1b)->Ok_0;
    lemma_count_kept(st1b, st2, x);
    lemma_extends_ok(st1b, st2);
    let a = st2.emit(IROpView::Mov, Some(r1), Some(r2));
    let b = a.kill(r2);
    let c = b.emit(IROpView::Unless, Some(r1), Some(x));
    let d = c.emit(IROpView::Imm, Some(r1), Some(1));
    let s = d.label(x);
    lemma_count_emit(st2, IROpView::Mov, Some(r1), Some(r2), x);
    lemma_count_emit(a, IROpView::Kill, Some(r2), None, x);
    lemma_count_emit(b, IROpView::Unless, Some(r1), Some(x), x);
    lemma_count_emit(c, IROpView::Imm, Some(r1), Some(1), x);
    lemma_label_pos_new(d, x);
    let test = st1.code.len() as int;
    let tail = st2.code.len() as int;
    let end = s.code.len() as int;
    assert(st1b.code[test] == (IRView { op: IROpView::Unless, lhs: Some(r1), rhs: Some(x) }));
    lemma_extends_index(st1b, st2, test);
    assert(s.code[test] == st2.code[test]);
    assert(s.code[tail] == (IRView { op: IROpView::Mov, lhs: Some(r1), rhs: Some(r2) }));
    assert(s.code[tail + 1] == (IRView { op: IROpView::Kill, lhs: Some(r2), rhs: None }));
    assert(s.code[tail + 2] == (IRView { op: IROpView::Unless, lhs: Some(r1), rhs: Some(x) }));
    assert(s.code[tail + 3] == (IRView { op: IROpView::Imm, lhs: Some(r1), rhs: Some(1) }));
    assert(s.code[tail + 4] == (IRView { op: IROpView::Label, lhs: Some(x), rhs: None }));
    assert(label_pos(s.code, x) == Some(end - 1));
    if regs[r1] == 0 {
        assert(step(s.code, test, regs) == Some((end - 1, regs)));
        assert(step(s.code, end - 1, regs) == Some((end, regs)));
        assert(run(s.code, end, regs, 0) == Some((end, regs)));
        assert(run(s.code, end - 1, regs, 1) == Some((end, regs)));
        assert(run(s.code, test, regs, 2) == Some((end, regs)));
    }
    lemma_closing(s.code, tail, r1, r2, x, regs);
}

/// What the five closing instructions of `&&` and `||` do: they leave 1
/// in `r1` where `r2` holds something else than 0, and 0 where it holds 0.
pub proof fn lemma_closing(
    code: Seq<IRView>,
    tail: int,
    r1: usize,
    r2: usize,
    x: usize,
    regs: Map<usize, int>,
)
    requires
        0 <= tail,
        tail + 5 == code.len(),
        code[tail] == (IRView { op: IROpView::Mov, lhs: Some(r1), rhs: Some(r2) }),
        code[tail + 1] == (IRView { op: IROpView::Kill, lhs: Some(r2), rhs: None }),
        code[tail + 2] == (IRView { op: IROpView::Unless, lhs: Some(r1), rhs: Some(x) }),
        code[tail + 3] == (IRView { op: IROpView::Imm, lhs: Some(r1), rhs: Some(1) }),
        code[tail + 4] == (IRView { op: IROpView::Label, lhs: Some(x), rhs: None }),
        label_pos(code, x) == Some(tail + 4),
    ensures
        regs[r2] != 0 ==> (run(code, tail, regs, 5) matches Some((pc, after)) && pc == code.len()
            && after[r1] == 1),
        regs[r2] == 0 ==> (run(code, tail, regs, 4) matches Some((pc, after)) && pc == code.len()
            && after[r1] == 0),
{
    let end = code.len() as int;
    let moved = regs.insert(r1, regs[r2]);
    assert(step(code, tail, regs) == Some((tail + 1, moved)));
    assert(step(code, tail + 1, moved) == Some((tail + 2, moved)));
    if regs[r2] != 0 {
        let one = moved.insert(r1, 1);
        assert(step(code, tail + 2, moved) == Some((tail + 3, moved)));
        assert(step(code, tail + 3, moved) == Some((tail + 4, one)));
        assert(step(code, tail + 4, one) == Some((end, one)));
        assert(run(code, end, one, 0) == Some((end, one)));
        assert(run(code, tail + 4, one, 1) == Some((end, one)));
        assert(run(code, tail + 3, moved, 2) == Some((end, one)));
        assert(run(code, tail + 2, moved, 3) == Some((end, one)));
        assert(run(code, tail + 1, moved, 4) == Some((end, one)));
        assert(run(code, tail, regs, 5) == Some((end, one)));
    } else {
        assert(step(code, tail + 2, moved) == Some((tail + 4, moved)));
        assert(step(code, tail + 4, moved) == Some((end, moved)));
        assert(run(code, end, moved, 0) == Some((end, moved)));
        assert(run(code, tail + 4, moved, 1) == Some((end, moved)));
        assert(run(code, tail + 2, moved, 2) == Some((end, moved)));
        assert(run(code, tail + 1, moved, 3) == Some((end, moved)));
        assert(run(code, tail, regs, 4) == Some((end, moved)));
    }
}

/// How the code of `lhs || rhs` is laid out.
pub ghost struct OrLayout {
    /// The label before the right operand.
    pub x: usize,
    /// The label at the end.
    pub y: usize,
    /// The register of the left operand, which is the result register.
    pub r1: usize,
    /// The register of the right operand.
    pub r2: usize,
    /// The place of the test of the left operand.
    pub test: int,
    /// The place after the code of the right operand.
    pub tail: int,
}

/// The layout of the code of the `||` node `node`, lowered from `st`.
pub open spec fn or_layout(node: NodeView, st: IRGenView) -> OrLayout
    recommends
        gen_expr_spec(node, st) is Ok,
{
    let lhs = *node.op->BinOp_1;
    let rhs = *node.op->BinOp_2;
    let (x, sta) = st.fresh_label()->0;
    let (y, st0) = sta.fresh_label()->0;
    let (r1, st1) = gen_expr_spec(lhs, st0)->Ok_0;
    let v = st1.emit(IROpView::Unless, Some(r1), Some(x)).emit(IROpView::Imm, Some(r1), Some(1)).emit(
        IROpView::Jmp,
        Some(y),
        None,
    ).label(x);
    let (r2, st2) = gen_expr_spec(rhs, v)->Ok_0;
    OrLayout { x, y, r1, r2, test: st1.code.len() as int, tail: st2.code.len() as int }
}

/// `lhs || rhs` evaluates `rhs` only where `lhs` is 0, and gives 0 or 1.
///
/// The code is: the left operand; a test and three more instructions;
/// the right operand; five closing instructions, of which the last
/// defines the label of the end.
///
/// - Where the left operand gave something else than 0, control goes
///   from the test to that last instruction, past all of the right
///   operand, and the result is 1.
/// - Where the left operand gave 0, the test goes to the start of the
///   right operand.
/// - After the right operand, the closing instructions leave 1 in the
///   result register where the right operand gave something else than
///   0, and 0 where it gave 0.
pub proof fn lemma_logor_short_circuit(node: NodeView, st: IRGenView, regs: Map<usize, int>)
    requires
        state_ok(st),
        node.op matches NodeTypeView::BinOp(op, _, _) && op == TokenType::Logor,
        gen_expr_spec(node, st) is Ok,
    ensures
        ({
            let (r, s) = gen_expr_spec(node, st)->Ok_0;
            let lay = or_layout(node, st);
            let end = s.code.len() as int;
            &&& r == lay.r1
            &&& st.code.len() <= lay.test
            &&& lay.test + 4 <= lay.tail
            &&& lay.tail + 5 == end
            &&& s.code[lay.test] == (IRView {
                op: IROpView::Unless,
                lhs: Some(lay.r1),
                rhs: Some(lay.x),
            })
            &&& regs[lay.r1] != 0 ==> (run(s.code, lay.test, regs, 3) matches Some((pc, after))
                && pc == end - 1 && after[r] == 1) && (run(s.code, lay.test, regs, 4) matches Some(
                (pc, after),
            ) && pc == end && after[r] == 1)
            &&& regs[lay.r1] == 0 ==> run(s.code, lay.test, regs, 2) == Some((lay.test + 4, regs))
            &&& regs[lay.r2] != 0 ==> (run(s.code, lay.tail, regs, 5) matches Some((pc, after))
                && pc == end && after[r] == 1)
            &&& regs[lay.r2] == 0 ==> (run(s.code, lay.tail, regs, 4) matches Some((pc, after))
                && pc == end && after[r] == 0)
        }),
{
    let lhs = *node.op->BinOp_1;
    let rhs = *node.op->BinOp_2;
    lemma_extends_refl(st);
    let (x, sta) = st.fresh_label()->0;
    lemma_extends_fresh_label(st, st);
    lemma_count_fresh(st, x);
    let (y, st0) = sta.fresh_label()->0;
    lemma_extends_fresh_label(st, sta);
    lemma_count_fresh(st, y);
    lemma_gen_expr_regs(lhs, st0);
    let (r1, st1) = gen_expr_spec(lhs, st0)->Ok_0;
    lemma_extends_trans(st, st0, st1);
    lemma_extends_ok(st, st1);
    lemma_count_kept(st0, st1, x);
    lemma_count_kept(st0, st1, y);
    let p = st1.emit(IROpView::Unless, Some(r1), Some(x));
    let q = p.emit(IROpView::Imm, Some(r1), Some(1));
    let u = q.emit(IROpView::Jmp, Some(y), None);
    let v = u.label(x);
    lemma_extends_emit(st, st1, IROpView::Unless, Some(r1), Some(x));
    lemma_extends_emit(st, p, IROpView::Imm, Some(r1), Some(1));
    lemma_extends_emit(st, q, IROpView::Jmp, Some(y), None);
    lemma_count_emit(st1, IROpView::Unless, Some(r1), Some(x), x);
    lemma_count_emit(p, IROpView::Imm, Some(r1), Some(1), x);
    lemma_count_emit(q, IROpView::Jmp, Some(y), None, x);
    lemma_count_emit(st1, IROpView::Unless, Some(r1), Some(x), y);
    lemma_count_emit(p, IROpView::Imm, Some(r1), Some(1), y);
    lemma_count_emit(q, IROpView::Jmp, Some(y), None, y);
    lemma_extends_label(st, u, x);
    lemma_count_emit(u, IROpView::Label, Some(x), None, y);
    lemma_label_pos_new(u, x);
    lemma_gen_expr_regs(rhs, v);
    let (r2, st2) = gen_expr_spec(rhs, v)->Ok_0;
    lemma_count_kept(v, st2, y);
    lemma_extends_ok(v, st2);
    let a = st2.emit(IROpView::Mov, Some(r1), Some(r2));
    let b = a.kill(r2);
    let c = b.emit(IROpView::Unless, Some(r1), Some(y));
    let d = c.emit(IROpView::Imm, Some(r1), Some(1));
    let s = d.label(y);
    lemma_count_emit(st2, IROpView::Mov, Some(r1), Some(r2), y);
    lemma_count_emit(a, IROpView::Kill, Some(r2), None, y);
    lemma_count_emit(b, IROpView::Unless, Some(r1), Some(y), y);
    lemma_count_emit(c, IROpView::Imm, Some(r1), Some(1), y);
    lemma_label_pos_new(d, y);
    let test = st1.code.len() as int;
    let tail = st2.code.len() as int;
    let end = s.code.len() as int;
    assert(v.code[test] == (IRView { op: IROpView::Unless, lhs: Some(r1), rhs: Some(x) }));
    assert(v.code[test + 1] == (IRView { op: IROpView::Imm, lhs: Some(r1), rhs: Some(1) }));
    assert(v.code[test + 2] == (IRView { op: IROpView::Jmp, lhs: Some(y), rhs: None }));
    assert(v.code[test + 3] == (IRView { op: IROpView::Label, lhs: Some(x), rhs: None }));
    lemma_extends_index(v, st2, test);
    lemma_extends_index(v, st2, test + 1);
    lemma_extends_index(v, st2, test + 2);
    lemma_extends_index(v, st2, test + 3);
    assert(s.code[test] == st2.code[test]);
    assert(s.code[test + 1] == st2.code[test + 1]);
    assert(s.code[test + 2] == st2.code[test + 2]);
    assert(s.code[test + 3] == st2.code[test + 3]);
    assert(s.code[tail] == (IRView { op: IROpView::Mov, lhs: Some(r1), rhs: Some(r2) }));
    assert(s.code[tail + 1] == (IRView { op: IROpView::Kill, lhs: Some(r2), rhs: None }));
    assert(s.code[tail + 2] == (IRView { op: IROpView::Unless, lhs: Some(r1), rhs: Some(y) }));
    assert(s.code[tail + 3] == (IRView { op: IROpView::Imm, lhs: Some(r1), rhs: Some(1) }));
    assert(s.code[tail + 4] == (IRView { op: IROpView::Label, lhs: Some(y), rhs: None }));
    assert(label_pos(s.code, y) == Some(end - 1));
    assert(label_pos(s.code, x) == Some(test + 3)) by {
        assert(s.code.take(v.code.len() as int) =~= v.code) by {
            lemma_extends_ok(v, st2);
            assert forall|i: int| 0 <= i < v.code.len() implies s.code[i] == v.code[i] by {
                lemma_extends_index(v, st2, i);
            }
        }
        lemma_label_pos_prefix(v.code, s.code, x);
    }
    if regs[r1] != 0 {
        let one = regs.insert(r1, 1);
        assert(step(s.code, test, regs) == Some((test + 1, regs)));
        assert(step(s.code, test + 1, regs) == Some((test + 2, one)));
        assert(step(s.code, test + 2, one) == Some((end - 1, one)));
        assert(step(s.code, end - 1, one) == Some((end, one)));
        assert(run(s.code, end, one, 0) == Some((end, one)));
        assert(run(s.code, end - 1, one, 0) == Some((end - 1, one)));
        assert(run(s.code, end - 1, one, 1) == Some((end, one)));
        assert(run(s.code, test + 2, one, 1) == Some((end - 1, one)));
        assert(run(s.code, test + 2, one, 2) == Some((end, one)));
        assert(run(s.code, test + 1, regs, 2) == Some((end - 1, one)));
        assert(run(s.code, test + 1, regs, 3) == Some((end, one)));
        assert(run(s.code, test, regs, 3) == Some((end - 1, one)));
        assert(run(s.code, test, regs, 4) == Some((end, one)));
    } else {
        assert(step(s.code, test, regs) == Some((test + 3, regs)));
        assert(step(s.code, test + 3, regs) == Some((test + 4, regs)));
        assert(run(s.code, test + 4, regs, 0) == Some((test + 4, regs)));
        assert(run(s.code, test + 3, regs, 1) == Some((test + 4, regs)));
        assert(run(s.code, test, regs, 2) == Some((test + 4, regs)));
    }
    lemma_closing(s.code, tail, r1, r2, y, regs);
}

} // verus!
