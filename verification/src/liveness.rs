//! How generated code says which registers are dead.
//!
//! The only word on liveness that the code carries is `KILL`. A register
//! is marked dead as soon as its value has been used for the last time:
//! the right operand after a binary operation, both operands after the
//! store of an initializer, the arguments after a call, the value of a
//! statement at its end. So the code of a statement marks every register
//! that it takes dead exactly once, and the code of an expression every
//! register that it takes but the one that holds its value. And no
//! instruction names a register that an earlier instruction marked dead.

use vstd::prelude::*;
use crate::ast::NodeTypeView;
use crate::ast::NodeView;
use crate::gen_ir::gen_args_spec;
use crate::gen_ir::gen_binop_spec;
use crate::gen_ir::gen_expr_spec;
use crate::gen_ir::gen_func_spec;
use crate::gen_ir::gen_funcs_spec;
use crate::gen_ir::gen_ir_spec;
use crate::gen_ir::gen_lval_spec;
use crate::gen_ir::gen_params_spec;
use crate::gen_ir::gen_stmt_spec;
use crate::gen_ir::gen_stmts_spec;
use crate::gen_ir::load_op;
use crate::gen_ir::local_addr_spec;
use crate::gen_ir::store_arg_op;
use crate::gen_ir::store_op;
use crate::gen_ir::IRGenView;
use crate::gen_ir::IROpView;
use crate::gen_ir::IRType;
use crate::gen_ir::IRView;
use crate::gen_ir::MAX_ARGS;
use crate::token::TokenType;
use crate::types::ScopeView;

verus! {

/// Whether the instruction marks register `q` dead.
pub open spec fn kills(ir: IRView, q: usize) -> bool {
    ir.op is Kill && ir.lhs == Some(q)
}

/// How often register `q` is marked dead in `code`.
pub open spec fn kill_count(code: Seq<IRView>, q: usize) -> nat
    decreases code.len(),
{
    if code.len() == 0 {
        0
    } else {
        kill_count(code.drop_last(), q) + if kills(code.last(), q) {
            1nat
        } else {
            0nat
        }
    }
}

/// Whether the instruction names register `q`, to read it, to write it
/// or to mark it dead.
pub open spec fn names(ir: IRView, q: usize) -> bool {
    match ir.op.info().1 {
        IRType::RegReg => ir.lhs == Some(q) || ir.rhs == Some(q),
        IRType::RegImm | IRType::RegLabel | IRType::Reg => ir.lhs == Some(q),
        IRType::Call => ir.lhs == Some(q) || (ir.op matches IROpView::Call(_, _, args)
            && args.contains(q)),
        _ => false,
    }
}

/// Whether `r` is the frame pointer or one of `live`.
pub open spec fn readable(r: Option<usize>, live: Set<usize>) -> bool {
    r matches Some(q) && (q == 0 || live.contains(q))
}

/// Whether every register that the instruction names is the frame
/// pointer or one of `live`.
pub open spec fn operands_live(
    op: IROpView,
    lhs: Option<usize>,
    rhs: Option<usize>,
    live: Set<usize>,
) -> bool {
    match op.info().1 {
        IRType::RegReg => readable(lhs, live) && readable(rhs, live),
        IRType::RegImm | IRType::RegLabel | IRType::Reg => readable(lhs, live),
        IRType::Call => readable(lhs, live) && (op matches IROpView::Call(_, _, args)
            && forall|i: int| 0 <= i < args.len() ==> live.contains(#[trigger] args[i])),
        _ => true,
    }
}

/// Whether no instruction of `code` names a register that an earlier
/// instruction of `code` marked dead.
pub open spec fn uses_ok(code: Seq<IRView>) -> bool
    decreases code.len(),
{
    code.len() == 0 || (uses_ok(code.drop_last()) && forall|q: usize|
        names(code.last(), q) ==> #[trigger] kill_count(code.drop_last(), q) == 0)
}

/// Whether neither the frame pointer nor a register that has not been
/// handed out is marked dead in the code of `st`.
#[verifier::opaque]
pub open spec fn unkilled(st: IRGenView) -> bool {
    forall|q: usize| (q == 0 || q >= st.nreg) ==> #[trigger] kill_count(st.code, q) == 0
}

/// Whether the state of the generator is in order as to liveness:
/// registers count from 1, no instruction names a register that was
/// marked dead before it, and only registers that were handed out are
/// marked dead.
pub open spec fn live_ok(st: IRGenView) -> bool {
    &&& st.nreg >= 1
    &&& uses_ok(st.code)
    &&& unkilled(st)
}

/// Whether, of the registers that were handed out from `before` to
/// `after`, those of `live` have not been marked dead since, and every
/// other one has been marked dead exactly once; and no other register has
/// been marked dead since `before`.
#[verifier::opaque]
pub open spec fn kill_counts(before: IRGenView, after: IRGenView, live: Set<usize>) -> bool {
    &&& forall|q: usize| live.contains(q) ==> before.nreg <= q < after.nreg
    &&& forall|q: usize| #[trigger]
        kill_count(after.code, q) == kill_count(before.code, q) + if before.nreg <= q < after.nreg
            && !live.contains(q) {
            1nat
        } else {
            0nat
        }
}

/// Whether the generator went from `before` to `after` so that the
/// registers of `live`, and no others of those it handed out on the way,
/// are live, and the state is in order as to liveness.
pub open spec fn kills_ok(before: IRGenView, after: IRGenView, live: Set<usize>) -> bool {
    &&& before.nreg <= after.nreg
    &&& kill_counts(before, after, live)
    &&& live_ok(after)
}

/// Adding an instruction adds one mark for the register that it marks
/// dead, and none for any other.
pub proof fn lemma_kill_count_emit(
    st: IRGenView,
    op: IROpView,
    lhs: Option<usize>,
    rhs: Option<usize>,
    q: usize,
)
    ensures
        kill_count(st.emit(op, lhs, rhs).code, q) == kill_count(st.code, q) + if kills(
            IRView { op, lhs, rhs },
            q,
        ) {
            1nat
        } else {
            0nat
        },
{
    assert(st.emit(op, lhs, rhs).code.drop_last() == st.code);
}

/// Where nothing was done, nothing is live and nothing was marked dead.
pub proof fn lemma_kills_refl(st: IRGenView)
    requires
        live_ok(st),
    ensures
        kills_ok(st, st, Set::empty()),
{
    reveal(kill_counts);
}

/// After two steps the registers that either step left live are live.
pub proof fn lemma_kills_trans(
    a: IRGenView,
    b: IRGenView,
    c: IRGenView,
    first: Set<usize>,
    second: Set<usize>,
)
    requires
        kills_ok(a, b, first),
        kills_ok(b, c, second),
    ensures
        kills_ok(a, c, first.union(second)),
{
    reveal(kill_counts);
    assert forall|q: usize| #[trigger]
        kill_count(c.code, q) == kill_count(a.code, q) + if a.nreg <= q < c.nreg && !first.union(
            second,
        ).contains(q) {
            1nat
        } else {
            0nat
        } by {
        assert(kill_count(b.code, q) == kill_count(a.code, q) + if a.nreg <= q < b.nreg
            && !first.contains(q) {
            1nat
        } else {
            0nat
        });
    }
}

/// A live register is one that was handed out on the way.
pub proof fn lemma_live_range(a: IRGenView, b: IRGenView, live: Set<usize>, q: usize)
    requires
        kills_ok(a, b, live),
        live.contains(q),
    ensures
        a.nreg <= q < b.nreg,
{
    reveal(kill_counts);
}

/// A live register has not been marked dead, nor has the frame pointer.
pub proof fn lemma_live_unkilled(a: IRGenView, b: IRGenView, live: Set<usize>, q: usize)
    requires
        unkilled(a),
        kills_ok(a, b, live),
        q == 0 || live.contains(q),
    ensures
        kill_count(b.code, q) == 0,
{
    reveal(kill_counts);
    reveal(unkilled);
    assert(kill_count(b.code, q) == kill_count(a.code, q) + if a.nreg <= q < b.nreg
        && !live.contains(q) {
        1nat
    } else {
        0nat
    });
}

/// An instruction that names only live registers and the frame pointer,
/// and marks no register dead, changes nothing.
pub proof fn lemma_kills_emit(
    a: IRGenView,
    b: IRGenView,
    live: Set<usize>,
    op: IROpView,
    lhs: Option<usize>,
    rhs: Option<usize>,
)
    requires
        unkilled(a),
        kills_ok(a, b, live),
        !(op is Kill),
        operands_live(op, lhs, rhs, live),
    ensures
        kills_ok(a, b.emit(op, lhs, rhs), live),
{
    let c = b.emit(op, lhs, rhs);
    assert forall|q: usize| names(IRView { op, lhs, rhs }, q) implies q == 0 || live.contains(
        q,
    ) by {
        match op {
            IROpView::Call(_, _, args) => {
                if lhs != Some(q) {
                    let i = choose|i: int| 0 <= i < args.len() && args[i] == q;
                    assert(live.contains(args[i]));
                }
            },
            _ => {},
        }
    }
    assert(c.code.drop_last() == b.code);
    assert forall|q: usize| #[trigger] kill_count(c.code, q) == kill_count(b.code, q) by {
        lemma_kill_count_emit(b, op, lhs, rhs, q);
    }
    assert(kill_counts(a, c, live)) by {
        reveal(kill_counts);
    }
    assert(unkilled(c)) by {
        reveal(unkilled);
    }
    assert forall|q: usize| names(c.code.last(), q) implies #[trigger] kill_count(
        c.code.drop_last(),
        q,
    ) == 0 by {
        lemma_live_unkilled(a, b, live, q);
    }
}

/// Marking a live register dead takes it out of the live ones.
pub proof fn lemma_kills_kill(a: IRGenView, b: IRGenView, live: Set<usize>, q: usize)
    requires
        unkilled(a),
        a.nreg >= 1,
        kills_ok(a, b, live),
        live.contains(q),
    ensures
        kills_ok(a, b.kill(q), live.remove(q)),
{
    let c = b.kill(q);
    assert(c.code.drop_last() == b.code);
    assert forall|p: usize| #[trigger]
        kill_count(c.code, p) == kill_count(b.code, p) + if p == q {
            1nat
        } else {
            0nat
        } by {
        lemma_kill_count_emit(b, IROpView::Kill, Some(q), None, p);
    }
    assert(kill_counts(a, c, live.remove(q))) by {
        reveal(kill_counts);
    }
    assert(a.nreg <= q < b.nreg) by {
        reveal(kill_counts);
    }
    assert(unkilled(c)) by {
        reveal(unkilled);
    }
    assert forall|p: usize| names(c.code.last(), p) implies #[trigger] kill_count(
        c.code.drop_last(),
        p,
    ) == 0 by {
        lemma_live_unkilled(a, b, live, p);
    }
}

/// A register that is handed out is live.
pub proof fn lemma_kills_fresh_reg(a: IRGenView, b: IRGenView, live: Set<usize>)
    requires
        kills_ok(a, b, live),
        b.fresh_reg() is Some,
    ensures
        b.fresh_reg() matches Some((r, c)) && kills_ok(a, c, live.insert(r)) && r == b.nreg
            && c.nreg == r + 1,
{
    reveal(kill_counts);
    reveal(unkilled);
}

/// Taking a label changes nothing for the registers.
pub proof fn lemma_kills_fresh_label(a: IRGenView, b: IRGenView, live: Set<usize>)
    requires
        kills_ok(a, b, live),
        b.fresh_label() is Some,
    ensures
        b.fresh_label() matches Some((_, c)) && kills_ok(a, c, live) && c.nreg == b.nreg,
{
    reveal(kill_counts);
    reveal(unkilled);
}

/// What the lowering of an expression keeps true: the value is in a
/// register that the lowering took, which is live; every other register
/// that it took is marked dead once; and no instruction names a register
/// that was marked dead before it.
pub open spec fn expr_kills(st: IRGenView, r: usize, s: IRGenView) -> bool {
    st.nreg <= r < s.nreg && kills_ok(st, s, set![r])
}

/// What the lowering of a statement keeps true: every register that it
/// took is marked dead once, and no instruction names a register that
/// was marked dead before it.
pub open spec fn stmt_kills(st: IRGenView, s: IRGenView) -> bool {
    kills_ok(st, s, Set::empty())
}

/// Two steps of which the first leaves `live` live and the second nothing.
proof fn lemma_then_nothing(a: IRGenView, b: IRGenView, c: IRGenView, live: Set<usize>)
    requires
        kills_ok(a, b, live),
        kills_ok(b, c, Set::empty()),
    ensures
        kills_ok(a, c, live),
{
    lemma_kills_trans(a, b, c, live, Set::empty());
    assert(live.union(Set::empty()) =~= live);
}

/// Two steps of which the first leaves nothing live and the second `live`.
proof fn lemma_nothing_then(a: IRGenView, b: IRGenView, c: IRGenView, live: Set<usize>)
    requires
        kills_ok(a, b, Set::empty()),
        kills_ok(b, c, live),
    ensures
        kills_ok(a, c, live),
{
    lemma_kills_trans(a, b, c, Set::empty(), live);
    assert(Set::<usize>::empty().union(live) =~= live);
}

/// A step that leaves `r` live, then `r` is marked dead: nothing is live.
proof fn lemma_kill_last(a: IRGenView, b: IRGenView, r: usize)
    requires
        live_ok(a),
        kills_ok(a, b, set![r]),
    ensures
        kills_ok(a, b.kill(r), Set::empty()),
{
    lemma_kills_kill(a, b, set![r], r);
    assert(set![r].remove(r) =~= Set::<usize>::empty());
}

/// A step that leaves `r1` live, a step that leaves `r2` live, an
/// instruction that marks none dead, and `r2` is marked dead: `r1` is live.
proof fn lemma_binary(
    a: IRGenView,
    b: IRGenView,
    c: IRGenView,
    r1: usize,
    r2: usize,
    op: IROpView,
    lhs: Option<usize>,
    rhs: Option<usize>,
)
    requires
        live_ok(a),
        kills_ok(a, b, set![r1]),
        expr_kills(b, r2, c),
        !(op is Kill),
        operands_live(op, lhs, rhs, set![r1, r2]),
    ensures
        kills_ok(a, c.emit(op, lhs, rhs).kill(r2), set![r1]),
        kills_ok(a, c, set![r1, r2]),
{
    lemma_live_range(a, b, set![r1], r1);
    lemma_kills_trans(a, b, c, set![r1], set![r2]);
    assert(set![r1].union(set![r2]) =~= set![r1, r2]);
    lemma_kills_emit(a, c, set![r1, r2], op, lhs, rhs);
    lemma_kills_kill(a, c.emit(op, lhs, rhs), set![r1, r2], r2);
    assert(set![r1, r2].remove(r2) =~= set![r1]);
}

proof fn lemma_local_addr_kills(offset: usize, st: IRGenView)
    requires
        live_ok(st),
    ensures
        local_addr_spec(offset, st) matches Ok((r, s)) ==> expr_kills(st, r, s),
{
    lemma_kills_refl(st);
    match st.fresh_reg() {
        Some((r, st1)) => {
            lemma_kills_fresh_reg(st, st, Set::empty());
            assert(Set::<usize>::empty().insert(r) =~= set![r]);
            lemma_kills_emit(st, st1, set![r], IROpView::Mov, Some(r), Some(0));
            lemma_kills_emit(
                st,
                st1.emit(IROpView::Mov, Some(r), Some(0)),
                set![r],
                IROpView::SubImm,
                Some(r),
                Some(offset),
            );
        },
        None => {},
    }
}

/// The code of an lvalue leaves the register of the address live, and
/// marks every other register that it takes dead once.
pub proof fn lemma_gen_lval_kills(node: NodeView, st: IRGenView)
    requires
        live_ok(st),
    ensures
        gen_lval_spec(node, st) matches Ok((r, s)) ==> expr_kills(st, r, s),
    decreases node, 0nat,
{
    match node.op {
        NodeTypeView::Deref(expr) => {
            lemma_gen_expr_kills(*expr, st);
        },
        NodeTypeView::Lvar(ScopeView::Local(offset)) => {
            lemma_local_addr_kills(offset, st);
        },
        _ => {},
    }
}

/// The code of a binary operation leaves the register of the left
/// operand live, and marks every other register that it takes dead once.
pub proof fn lemma_gen_binop_kills(op: IROpView, node: NodeView, st: IRGenView)
    requires
        live_ok(st),
        op.info().1 == IRType::RegReg,
    ensures
        gen_binop_spec(op, node, st) matches Ok((r, s)) ==> expr_kills(st, r, s),
    decreases node, 0nat,
{
    match node.op {
        NodeTypeView::BinOp(_, lhs, rhs) => {
            lemma_gen_expr_kills(*lhs, st);
            match gen_expr_spec(*lhs, st) {
                Ok((r1, st1)) => {
                    lemma_gen_expr_kills(*rhs, st1);
                    match gen_expr_spec(*rhs, st1) {
                        Ok((r2, st2)) => {
                            lemma_binary(st, st1, st2, r1, r2, op, Some(r1), Some(r2));
                        },
                        Err(_) => {},
                    }
                },
                Err(_) => {},
            }
        },
        _ => {},
    }
}

/// A sequence that grew by one element holds what it held and that element.
proof fn lemma_push_to_set(regs: Seq<usize>, r: usize)
    ensures
        regs.push(r).to_set() == regs.to_set().insert(r),
{
    let all = regs.push(r);
    assert forall|p: usize| all.to_set().contains(p) <==> regs.to_set().insert(r).contains(p) by {
        if all.to_set().contains(p) {
            let i = choose|i: int| 0 <= i < all.len() && all[i] == p;
            if i < regs.len() {
                assert(regs[i] == p);
            }
        }
        if regs.to_set().contains(p) {
            let i = choose|i: int| 0 <= i < regs.len() && regs[i] == p;
            assert(all[i] == p);
        }
        if p == r {
            assert(all[all.len() - 1] == p);
        }
    }
    assert(all.to_set() =~= regs.to_set().insert(r));
}

/// Marking all of `regs` dead, which are live and differ from each
/// other, takes them out of the live ones.
proof fn lemma_kills_kill_all(a: IRGenView, b: IRGenView, live: Set<usize>, regs: Seq<usize>)
    requires
        live_ok(a),
        kills_ok(a, b, live),
        forall|i: int| 0 <= i < regs.len() ==> live.contains(#[trigger] regs[i]),
        forall|i: int, j: int| 0 <= i < j < regs.len() ==> regs[i] != regs[j],
    ensures
        kills_ok(a, b.kill_all(regs), live.difference(regs.to_set())),
        b.kill_all(regs).nreg == b.nreg,
    decreases regs.len(),
{
    if regs.len() == 0 {
        assert(live.difference(regs.to_set()) =~= live);
    } else {
        let init = regs.drop_last();
        lemma_kills_kill_all(a, b, live, init);
        let q = regs.last();
        assert(live.contains(regs[regs.len() - 1]));
        assert(!init.to_set().contains(q)) by {
            if init.to_set().contains(q) {
                let i = choose|i: int| 0 <= i < init.len() && init[i] == q;
                assert(regs[i] == regs[regs.len() - 1]);
            }
        }
        lemma_kills_kill(a, b.kill_all(init), live.difference(init.to_set()), q);
        assert(init.push(q) == regs);
        lemma_push_to_set(init, q);
        assert(live.difference(init.to_set()).remove(q) =~= live.difference(regs.to_set()));
    }
}

/// The registers of the arguments of a call are live after the
/// arguments, and each is larger than the ones before it.
pub proof fn lemma_gen_args_kills(args: Seq<NodeView>, st: IRGenView)
    requires
        live_ok(st),
    ensures
        gen_args_spec(args, st) matches Ok((regs, s)) ==> kills_ok(st, s, regs.to_set()) && st.nreg
            <= s.nreg && (forall|i: int|
            0 <= i < regs.len() ==> st.nreg <= #[trigger] regs[i] < s.nreg) && (forall|
            i: int,
            j: int,
        | 0 <= i < j < regs.len() ==> regs[i] < regs[j]),
    decreases args, 0nat,
{
    if args.len() == 0 {
        lemma_kills_refl(st);
        assert(Seq::<usize>::empty().to_set() =~= Set::<usize>::empty());
    } else {
        lemma_gen_args_kills(args.drop_last(), st);
        match gen_args_spec(args.drop_last(), st) {
            Ok((regs, st1)) => {
                lemma_gen_expr_kills(args.last(), st1);
                match gen_expr_spec(args.last(), st1) {
                    Ok((r, st2)) => {
                        lemma_kills_trans(st, st1, st2, regs.to_set(), set![r]);
                        let all = regs.push(r);
                        lemma_push_to_set(regs, r);
                        assert(regs.to_set().union(set![r]) =~= all.to_set());
                        assert forall|i: int, j: int| 0 <= i < j < all.len() implies all[i]
                            < all[j] by {
                            if j < regs.len() {
                                assert(regs[i] < regs[j]);
                            } else {
                                assert(regs[i] < st1.nreg);
                            }
                        }
                    },
                    Err(_) => {},
                }
            },
            Err(_) => {},
        }
    }
}

proof fn lemma_gen_call_kills(node: NodeView, st: IRGenView)
    requires
        live_ok(st),
        node.op is Call,
    ensures
        gen_expr_spec(node, st) matches Ok((r, s)) ==> expr_kills(st, r, s),
    decreases node, 1nat,
{
    match node.op {
        NodeTypeView::Call(name, args) => {
            if args.len() <= MAX_ARGS {
                lemma_gen_args_kills(args, st);
                match gen_args_spec(args, st) {
                    Ok((regs, st1)) => {
                        match st1.fresh_reg() {
                            Some((r, st2)) => {
                                let live = regs.to_set().insert(r);
                                lemma_kills_fresh_reg(st, st1, regs.to_set());
                                let op = IROpView::Call(name, args.len() as usize, regs);
                                lemma_kills_emit(st, st2, live, op, Some(r), None);
                                assert forall|i: int| 0 <= i < regs.len() implies live.contains(
                                    #[trigger] regs[i],
                                ) by {
                                    assert(regs.to_set().contains(regs[i]));
                                }
                                assert forall|i: int, j: int| 0 <= i < j < regs.len() implies regs[i]
                                    != regs[j] by {
                                    assert(regs[i] < regs[j]);
                                }
                                lemma_kills_kill_all(st, st2.emit(op, Some(r), None), live, regs);
                                assert(!regs.to_set().contains(r)) by {
                                    if regs.to_set().contains(r) {
                                        let i = choose|i: int| 0 <= i < regs.len() && regs[i] == r;
                                        assert(regs[i] < st1.nreg);
                                    }
                                }
                                assert(live.difference(regs.to_set()) =~= set![r]);
                            },
                            None => {},
                        }
                    },
                    Err(_) => {},
                }
            }
        },
        _ => {},
    }
}

proof fn lemma_gen_logand_kills(node: NodeView, st: IRGenView)
    requires
        live_ok(st),
        node.op matches NodeTypeView::BinOp(op, _, _) && op == TokenType::Logand,
    ensures
        gen_expr_spec(node, st) matches Ok((r, s)) ==> expr_kills(st, r, s),
    decreases node, 1nat,
{
    match node.op {
        NodeTypeView::BinOp(_, lhs, rhs) => {
            lemma_kills_refl(st);
            match st.fresh_label() {
                Some((x, st0)) => {
                    lemma_kills_fresh_label(st, st, Set::empty());
                    lemma_gen_expr_kills(*lhs, st0);
                    match gen_expr_spec(*lhs, st0) {
                        Ok((r1, st1)) => {
                            lemma_nothing_then(st, st0, st1, set![r1]);
                            lemma_kills_emit(st, st1, set![r1], IROpView::Unless, Some(r1), Some(x));
                            let st1b = st1.emit(IROpView::Unless, Some(r1), Some(x));
                            lemma_gen_expr_kills(*rhs, st1b);
                            match gen_expr_spec(*rhs, st1b) {
                                Ok((r2, st2)) => {
                                    lemma_binary(
                                        st,
                                        st1b,
                                        st2,
                                        r1,
                                        r2,
                                        IROpView::Mov,
                                        Some(r1),
                                        Some(r2),
                                    );
                                    let b = st2.emit(IROpView::Mov, Some(r1), Some(r2)).kill(r2);
                                    let c = b.emit(IROpView::Unless, Some(r1), Some(x));
                                    let d = c.emit(IROpView::Imm, Some(r1), Some(1));
                                    lemma_kills_emit(st, b, set![r1], IROpView::Unless, Some(r1), Some(x));
                                    lemma_kills_emit(st, c, set![r1], IROpView::Imm, Some(r1), Some(1));
                                    lemma_kills_emit(st, d, set![r1], IROpView::Label, Some(x), None);
                                },
                                Err(_) => {},
                            }
                        },
                        Err(_) => {},
                    }
                },
                None => {},
            }
        },
        _ => {},
    }
}

#[verifier::rlimit(40)]
proof fn lemma_gen_logor_kills(node: NodeView, st: IRGenView)
    requires
        live_ok(st),
        node.op matches NodeTypeView::BinOp(op, _, _) && op == TokenType::Logor,
    ensures
        gen_expr_spec(node, st) matches Ok((r, s)) ==> expr_kills(st, r, s),
    decreases node, 1nat,
{
    match node.op {
        NodeTypeView::BinOp(_, lhs, rhs) => {
            lemma_kills_refl(st);
            match st.fresh_label() {
                Some((x, sta)) => {
                    lemma_kills_fresh_label(st, st, Set::empty());
                    match sta.fresh_label() {
                        Some((y, st0)) => {
                            lemma_kills_fresh_label(st, sta, Set::empty());
                            lemma_gen_expr_kills(*lhs, st0);
                            match gen_expr_spec(*lhs, st0) {
                                Ok((r1, st1)) => {
                                    lemma_nothing_then(st, st0, st1, set![r1]);
                                    let p = st1.emit(IROpView::Unless, Some(r1), Some(x));
                                    let q = p.emit(IROpView::Imm, Some(r1), Some(1));
                                    let u = q.emit(IROpView::Jmp, Some(y), None);
                                    let v = u.label(x);
                                    lemma_kills_emit(st, st1, set![r1], IROpView::Unless, Some(r1), Some(x));
                                    lemma_kills_emit(st, p, set![r1], IROpView::Imm, Some(r1), Some(1));
                                    lemma_kills_emit(st, q, set![r1], IROpView::Jmp, Some(y), None);
                                    lemma_kills_emit(st, u, set![r1], IROpView::Label, Some(x), None);
                                    lemma_gen_expr_kills(*rhs, v);
                                    match gen_expr_spec(*rhs, v) {
                                        Ok((r2, st2)) => {
                                            lemma_binary(
                                                st,
                                                v,
                                                st2,
                                                r1,
                                                r2,
                                                IROpView::Mov,
                                                Some(r1),
                                                Some(r2),
                                            );
                                            let b = st2.emit(IROpView::Mov, Some(r1), Some(r2)).kill(
                                                r2,
                                            );
                                            let c = b.emit(IROpView::Unless, Some(r1), Some(y));
                                            let d = c.emit(IROpView::Imm, Some(r1), Some(1));
                                            lemma_kills_emit(
                                                st,
                                                b,
                                                set![r1],
                                                IROpView::Unless,
                                                Some(r1),
                                                Some(y),
                                            );
                                            lemma_kills_emit(
                                                st,
                                                c,
                                                set![r1],
                                                IROpView::Imm,
                                                Some(r1),
                                                Some(1),
                                            );
                                            lemma_kills_emit(
                                                st,
                                                d,
                                                set![r1],
                                                IROpView::Label,
                                                Some(y),
                                                None,
                                            );
                                        },
                                        Err(_) => {},
                                    }
                                },
                                Err(_) => {},
                            }
                        },
                        None => {},
                    }
                },
                None => {},
            }
        },
        _ => {},
    }
}

proof fn lemma_gen_assign_kills(node: NodeView, st: IRGenView)
    requires
        live_ok(st),
        node.op matches NodeTypeView::BinOp(op, _, _) && op == TokenType::Equal,
    ensures
        gen_expr_spec(node, st) matches Ok((r, s)) ==> expr_kills(st, r, s),
    decreases node, 1nat,
{
    match node.op {
        NodeTypeView::BinOp(_, lhs, rhs) => {
            lemma_gen_expr_kills(*rhs, st);
            match gen_expr_spec(*rhs, st) {
                Ok((r, st1)) => {
                    lemma_gen_lval_kills(*lhs, st1);
                    match gen_lval_spec(*lhs, st1) {
                        Ok((l, st2)) => {
                            let op = store_op(node.ty.ty);
                            lemma_kills_trans(st, st1, st2, set![r], set![l]);
                            assert(set![r].union(set![l]) =~= set![l, r]);
                            lemma_kills_emit(st, st2, set![l, r], op, Some(l), Some(r));
                            lemma_kills_kill(st, st2.emit(op, Some(l), Some(r)), set![l, r], r);
                            assert(set![l, r].remove(r) =~= set![l]);
                        },
                        Err(_) => {},
                    }
                },
                Err(_) => {},
            }
        },
        _ => {},
    }
}

proof fn lemma_gen_arith_kills(node: NodeView, st: IRGenView)
    requires
        live_ok(st),
        node.op matches NodeTypeView::BinOp(op, _, _) && op != TokenType::Equal && op
            != TokenType::Logand && op != TokenType::Logor,
    ensures
        gen_expr_spec(node, st) matches Ok((r, s)) ==> expr_kills(st, r, s),
    decreases node, 1nat,
{
    match node.op {
        NodeTypeView::BinOp(op, lhs, rhs) => {
            match IROpView::from_token_type(op) {
                Some(insn) => {
                    let scaled = lhs.ty.ty is Ptr && (op == TokenType::Plus || op
                        == TokenType::Minus);
                    if scaled {
                        let size = lhs.ty.ty->Ptr_0.size;
                        lemma_gen_expr_kills(*rhs, st);
                        match gen_expr_spec(*rhs, st) {
                            Ok((r, st1)) => {
                                match st1.fresh_reg() {
                                    Some((scale, st2)) => {
                                        lemma_kills_fresh_reg(st, st1, set![r]);
                                        assert(set![r].insert(scale) =~= set![r, scale]);
                                        let a = st2.emit(IROpView::Imm, Some(scale), Some(size));
                                        let b = a.emit(IROpView::Mul, Some(r), Some(scale));
                                        let c = b.kill(scale);
                                        lemma_kills_emit(
                                            st,
                                            st2,
                                            set![r, scale],
                                            IROpView::Imm,
                                            Some(scale),
                                            Some(size),
                                        );
                                        lemma_kills_emit(
                                            st,
                                            a,
                                            set![r, scale],
                                            IROpView::Mul,
                                            Some(r),
                                            Some(scale),
                                        );
                                        lemma_kills_kill(st, b, set![r, scale], scale);
                                        assert(set![r, scale].remove(scale) =~= set![r]);
                                        lemma_gen_expr_kills(*lhs, c);
                                        match gen_expr_spec(*lhs, c) {
                                            Ok((l, st3)) => {
                                                lemma_kills_trans(st, c, st3, set![r], set![l]);
                                                assert(set![r].union(set![l]) =~= set![l, r]);
                                                lemma_kills_emit(
                                                    st,
                                                    st3,
                                                    set![l, r],
                                                    insn,
                                                    Some(l),
                                                    Some(r),
                                                );
                                                lemma_kills_kill(
                                                    st,
                                                    st3.emit(insn, Some(l), Some(r)),
                                                    set![l, r],
                                                    r,
                                                );
                                                assert(set![l, r].remove(r) =~= set![l]);
                                            },
                                            Err(_) => {},
                                        }
                                    },
                                    None => {},
                                }
                            },
                            Err(_) => {},
                        }
                    } else {
                        lemma_gen_binop_kills(insn, node, st);
                    }
                },
                None => {},
            }
        },
        _ => {},
    }
}

/// The code of an expression marks every register that it takes dead
/// exactly once, but the one that holds the value, which it leaves live;
/// and it marks no other register dead.
pub proof fn lemma_gen_expr_kills(node: NodeView, st: IRGenView)
    requires
        live_ok(st),
    ensures
        gen_expr_spec(node, st) matches Ok((r, s)) ==> expr_kills(st, r, s),
    decreases node, 2nat,
{
    match node.op {
        NodeTypeView::Num(val) => {
            lemma_kills_refl(st);
            match st.fresh_reg() {
                Some((r, st1)) => {
                    lemma_kills_fresh_reg(st, st, Set::empty());
                    assert(Set::<usize>::empty().insert(r) =~= set![r]);
                    lemma_kills_emit(st, st1, set![r], IROpView::Imm, Some(r), Some(val as usize));
                },
                None => {},
            }
        },
        NodeTypeView::Lvar(_) => {
            lemma_gen_lval_kills(node, st);
            match gen_lval_spec(node, st) {
                Ok((r, st1)) => {
                    lemma_kills_emit(st, st1, set![r], load_op(node.ty.ty), Some(r), Some(r));
                },
                Err(_) => {},
            }
        },
        NodeTypeView::Call(_, _) => {
            lemma_gen_call_kills(node, st);
        },
        NodeTypeView::Addr(expr) => {
            lemma_gen_lval_kills(*expr, st);
        },
        NodeTypeView::Deref(expr) => {
            lemma_gen_expr_kills(*expr, st);
            match gen_expr_spec(*expr, st) {
                Ok((r, st1)) => {
                    lemma_kills_emit(st, st1, set![r], IROpView::Load64, Some(r), Some(r));
                },
                Err(_) => {},
            }
        },
        NodeTypeView::BinOp(op, _, _) => {
            if op == TokenType::Logand {
                lemma_gen_logand_kills(node, st);
            } else if op == TokenType::Logor {
                lemma_gen_logor_kills(node, st);
            } else if op == TokenType::Equal {
                lemma_gen_assign_kills(node, st);
            } else {
                lemma_gen_arith_kills(node, st);
            }
        },
        _ => {},
    }
}

proof fn lemma_gen_vardef_kills(node: NodeView, st: IRGenView)
    requires
        live_ok(st),
        node.op is Vardef,
    ensures
        gen_stmt_spec(node, st) matches Ok(s) ==> stmt_kills(st, s),
    decreases node, 1nat,
{
    lemma_kills_refl(st);
    match node.op {
        NodeTypeView::Vardef(_, Some(e), ScopeView::Local(offset)) => {
            lemma_gen_expr_kills(*e, st);
            match gen_expr_spec(*e, st) {
                Ok((r, st1)) => {
                    lemma_local_addr_kills(offset, st1);
                    match local_addr_spec(offset, st1) {
                        Ok((l, st2)) => {
                            let op = store_op(node.ty.ty);
                            let a = st2.emit(op, Some(l), Some(r));
                            lemma_kills_trans(st, st1, st2, set![r], set![l]);
                            assert(set![r].union(set![l]) =~= set![l, r]);
                            lemma_kills_emit(st, st2, set![l, r], op, Some(l), Some(r));
                            lemma_kills_kill(st, a, set![l, r], l);
                            assert(set![l, r].remove(l) =~= set![r]);
                            lemma_kill_last(st, a.kill(l), r);
                        },
                        Err(_) => {},
                    }
                },
                Err(_) => {},
            }
        },
        _ => {},
    }
}

/// The test of a condition: the value, a branch, and the value is dead.
proof fn lemma_test_kills(a: IRGenView, b: IRGenView, c: IRGenView, r: usize, x: usize)
    requires
        live_ok(a),
        kills_ok(a, b, Set::empty()),
        expr_kills(b, r, c),
    ensures
        kills_ok(a, c.emit(IROpView::Unless, Some(r), Some(x)).kill(r), Set::empty()),
{
    lemma_nothing_then(a, b, c, set![r]);
    lemma_kills_emit(a, c, set![r], IROpView::Unless, Some(r), Some(x));
    lemma_kill_last(a, c.emit(IROpView::Unless, Some(r), Some(x)), r);
}

proof fn lemma_gen_if_kills(node: NodeView, st: IRGenView)
    requires
        live_ok(st),
        node.op matches NodeTypeView::If(_, _, els) && els is None,
    ensures
        gen_stmt_spec(node, st) matches Ok(s) ==> stmt_kills(st, s),
    decreases node, 1nat,
{
    lemma_kills_refl(st);
    match node.op {
        NodeTypeView::If(cond, then, _) => {
            match st.fresh_label() {
                Some((x, st0)) => {
                    lemma_kills_fresh_label(st, st, Set::empty());
                    lemma_gen_expr_kills(*cond, st0);
                    match gen_expr_spec(*cond, st0) {
                        Ok((r, st1)) => {
                            lemma_test_kills(st, st0, st1, r, x);
                            let k = st1.emit(IROpView::Unless, Some(r), Some(x)).kill(r);
                            lemma_gen_stmt_kills(*then, k);
                            match gen_stmt_spec(*then, k) {
                                Ok(st2) => {
                                    lemma_then_nothing(st, k, st2, Set::empty());
                                    lemma_kills_emit(
                                        st,
                                        st2,
                                        Set::empty(),
                                        IROpView::Label,
                                        Some(x),
                                        None,
                                    );
                                },
                                Err(_) => {},
                            }
                        },
                        Err(_) => {},
                    }
                },
                None => {},
            }
        },
        _ => {},
    }
}

#[verifier::rlimit(40)]
proof fn lemma_gen_if_else_kills(node: NodeView, st: IRGenView)
    requires
        live_ok(st),
        node.op matches NodeTypeView::If(_, _, els) && els is Some,
    ensures
        gen_stmt_spec(node, st) matches Ok(s) ==> stmt_kills(st, s),
    decreases node, 1nat,
{
    lemma_kills_refl(st);
    match node.op {
        NodeTypeView::If(cond, then, Some(e)) => {
            match st.fresh_label() {
                Some((x, sta)) => {
                    lemma_kills_fresh_label(st, st, Set::empty());
                    match sta.fresh_label() {
                        Some((y, st0)) => {
                            lemma_kills_fresh_label(st, sta, Set::empty());
                            lemma_gen_expr_kills(*cond, st0);
                            match gen_expr_spec(*cond, st0) {
                                Ok((r, st1)) => {
                                    lemma_test_kills(st, st0, st1, r, x);
                                    let k = st1.emit(IROpView::Unless, Some(r), Some(x)).kill(r);
                                    lemma_gen_stmt_kills(*then, k);
                                    match gen_stmt_spec(*then, k) {
                                        Ok(st2) => {
                                            lemma_then_nothing(st, k, st2, Set::empty());
                                            let b = st2.emit(IROpView::Jmp, Some(y), None);
                                            lemma_kills_emit(
                                                st,
                                                st2,
                                                Set::empty(),
                                                IROpView::Jmp,
                                                Some(y),
                                                None,
                                            );
                                            lemma_kills_emit(
                                                st,
                                                b,
                                                Set::empty(),
                                                IROpView::Label,
                                                Some(x),
                                                None,
                                            );
                                            lemma_gen_stmt_kills(*e, b.label(x));
                                            match gen_stmt_spec(*e, b.label(x)) {
                                                Ok(st3) => {
                                                    lemma_then_nothing(
                                                        st,
                                                        b.label(x),
                                                        st3,
                                                        Set::empty(),
                                                    );
                                                    lemma_kills_emit(
                                                        st,
                                                        st3,
                                                        Set::empty(),
                                                        IROpView::Label,
                                                        Some(y),
                                                        None,
                                                    );
                                                },
                                                Err(_) => {},
                                            }
                                        },
                                        Err(_) => {},
                                    }
                                },
                                Err(_) => {},
                            }
                        },
                        None => {},
                    }
                },
                None => {},
            }
        },
        _ => {},
    }
}

#[verifier::rlimit(40)]
proof fn lemma_gen_for_kills(node: NodeView, st: IRGenView)
    requires
        live_ok(st),
        node.op is For,
    ensures
        gen_stmt_spec(node, st) matches Ok(s) ==> stmt_kills(st, s),
    decreases node, 1nat,
{
    lemma_kills_refl(st);
    match node.op {
        NodeTypeView::For(init, cond, inc, body) => {
            match st.fresh_label() {
                Some((x, sta)) => {
                    lemma_kills_fresh_label(st, st, Set::empty());
                    match sta.fresh_label() {
                        Some((y, st0)) => {
                            lemma_kills_fresh_label(st, sta, Set::empty());
                            lemma_gen_stmt_kills(*init, st0);
                            match gen_stmt_spec(*init, st0) {
                                Ok(st1) => {
                                    lemma_then_nothing(st, st0, st1, Set::empty());
                                    lemma_kills_emit(
                                        st,
                                        st1,
                                        Set::empty(),
                                        IROpView::Label,
                                        Some(x),
                                        None,
                                    );
                                    let l = st1.label(x);
                                    lemma_gen_expr_kills(*cond, l);
                                    match gen_expr_spec(*cond, l) {
                                        Ok((r2, st2)) => {
                                            lemma_test_kills(st, l, st2, r2, y);
                                            let k = st2.emit(
                                                IROpView::Unless,
                                                Some(r2),
                                                Some(y),
                                            ).kill(r2);
                                            lemma_gen_stmt_kills(*body, k);
                                            match gen_stmt_spec(*body, k) {
                                                Ok(st3) => {
                                                    lemma_then_nothing(st, k, st3, Set::empty());
                                                    lemma_gen_expr_kills(*inc, st3);
                                                    match gen_expr_spec(*inc, st3) {
                                                        Ok((r3, st4)) => {
                                                            lemma_nothing_then(
                                                                st,
                                                                st3,
                                                                st4,
                                                                set![r3],
                                                            );
                                                            lemma_kill_last(st, st4, r3);
                                                            let b = st4.kill(r3);
                                                            let c = b.emit(
                                                                IROpView::Jmp,
                                                                Some(x),
                                                                None,
                                                            );
                                                            lemma_kills_emit(
                                                                st,
                                                                b,
                                                                Set::empty(),
                                                                IROpView::Jmp,
                                                                Some(x),
                                                                None,
                                                            );
                                                            lemma_kills_emit(
                                                                st,
                                                                c,
                                                                Set::empty(),
                                                                IROpView::Label,
                                                                Some(y),
                                                                None,
                                                            );
                                                        },
                                                        Err(_) => {},
                                                    }
                                                },
                                                Err(_) => {},
                                            }
                                        },
                                        Err(_) => {},
                                    }
                                },
                                Err(_) => {},
                            }
                        },
                        None => {},
                    }
                },
                None => {},
            }
        },
        _ => {},
    }
}

/// The code of a list of statements marks every register that it takes
/// dead once.
pub proof fn lemma_gen_stmts_kills(stmts: Seq<NodeView>, st: IRGenView)
    requires
        live_ok(st),
    ensures
        gen_stmts_spec(stmts, st) matches Ok(s) ==> stmt_kills(st, s),
    decreases stmts, 0nat,
{
    if stmts.len() == 0 {
        lemma_kills_refl(st);
    } else {
        lemma_gen_stmts_kills(stmts.drop_last(), st);
        match gen_stmts_spec(stmts.drop_last(), st) {
            Ok(st1) => {
                lemma_gen_stmt_kills(stmts.last(), st1);
                match gen_stmt_spec(stmts.last(), st1) {
                    Ok(st2) => {
                        lemma_then_nothing(st, st1, st2, Set::empty());
                    },
                    Err(_) => {},
                }
            },
            Err(_) => {},
        }
    }
}

/// The code of a statement marks every register that it takes dead
/// exactly once, and no other register.
pub proof fn lemma_gen_stmt_kills(node: NodeView, st: IRGenView)
    requires
        live_ok(st),
    ensures
        gen_stmt_spec(node, st) matches Ok(s) ==> stmt_kills(st, s),
    decreases node, 2nat,
{
    match node.op {
        NodeTypeView::Vardef(_, _, _) => {
            lemma_gen_vardef_kills(node, st);
        },
        NodeTypeView::If(_, _, None) => {
            lemma_gen_if_kills(node, st);
        },
        NodeTypeView::If(_, _, Some(_)) => {
            lemma_gen_if_else_kills(node, st);
        },
        NodeTypeView::For(_, _, _, _) => {
            lemma_gen_for_kills(node, st);
        },
        NodeTypeView::Return(expr) => {
            lemma_gen_expr_kills(*expr, st);
            match gen_expr_spec(*expr, st) {
                Ok((r, st1)) => {
                    lemma_kills_emit(st, st1, set![r], IROpView::Return, Some(r), None);
                    lemma_kill_last(st, st1.emit(IROpView::Return, Some(r), None), r);
                },
                Err(_) => {},
            }
        },
        NodeTypeView::ExprStmt(expr) => {
            lemma_gen_expr_kills(*expr, st);
            match gen_expr_spec(*expr, st) {
                Ok((r, st1)) => {
                    lemma_kill_last(st, st1, r);
                },
                Err(_) => {},
            }
        },
        NodeTypeView::CompStmt(stmts) => {
            lemma_gen_stmts_kills(stmts, st);
        },
        _ => {},
    }
}

proof fn lemma_gen_params_kills(params: Seq<NodeView>, st: IRGenView)
    requires
        live_ok(st),
    ensures
        gen_params_spec(params, st) matches Ok(s) ==> stmt_kills(st, s) && s.nreg == st.nreg,
    decreases params.len(),
{
    if params.len() == 0 {
        lemma_kills_refl(st);
    } else {
        lemma_gen_params_kills(params.drop_last(), st);
        match gen_params_spec(params.drop_last(), st) {
            Ok(st1) => {
                match params.last().op {
                    NodeTypeView::Vardef(_, _, ScopeView::Local(offset)) => {
                        lemma_kills_emit(
                            st,
                            st1,
                            Set::empty(),
                            store_arg_op(params.last().ty.ty),
                            Some(offset),
                            Some((params.len() - 1) as usize),
                        );
                    },
                    _ => {},
                }
            },
            Err(_) => {},
        }
    }
}

/// The number of the first register that the code of the function
/// `node` has not taken.
pub open spec fn registers_taken(node: NodeView, nlabel: usize) -> usize
    recommends
        gen_func_spec(node, nlabel) is Ok,
{
    let params = node.op->Func_1;
    let body = *node.op->Func_2;
    let st = IRGenView { nreg: 1, nlabel, code: Seq::empty() };
    gen_stmt_spec(body, gen_params_spec(params, st)->Ok_0)->Ok_0.nreg
}

/// In the code of a function every register that the code takes, from 1
/// on, is marked dead exactly once, and no other register is marked dead:
/// no register is left live at the end, none is marked dead twice, and
/// the frame pointer is never marked dead. And no instruction names a
/// register that an earlier instruction marked dead.
pub proof fn lemma_gen_func_kills(node: NodeView, nlabel: usize, q: usize)
    ensures
        gen_func_spec(node, nlabel) matches Ok((f, _)) ==> uses_ok(f.ir) && kill_count(f.ir, q)
            == if 1 <= q < registers_taken(node, nlabel) {
            1nat
        } else {
            0nat
        },
{
    match node.op {
        NodeTypeView::Func(name, params, body, stacksize) => {
            let st = IRGenView { nreg: 1, nlabel, code: Seq::empty() };
            assert(live_ok(st)) by {
                reveal(unkilled);
            }
            lemma_gen_params_kills(params, st);
            match gen_params_spec(params, st) {
                Ok(st1) => {
                    lemma_gen_stmt_kills(*body, st1);
                    match gen_stmt_spec(*body, st1) {
                        Ok(st2) => {
                            lemma_then_nothing(st, st1, st2, Set::empty());
                            reveal(kill_counts);
                            assert(kill_count(st2.code, q) == kill_count(st.code, q) + if st.nreg <= q
                                < st2.nreg && !Set::<usize>::empty().contains(q) {
                                1nat
                            } else {
                                0nat
                            });
                        },
                        Err(_) => {},
                    }
                },
                Err(_) => {},
            }
        },
        _ => {},
    }
}

/// Whether the code marks no register dead twice, never marks the frame
/// pointer dead, and names no register after it was marked dead.
pub open spec fn liveness_in_order(code: Seq<IRView>) -> bool {
    &&& uses_ok(code)
    &&& kill_count(code, 0) == 0
    &&& forall|q: usize| #[trigger] kill_count(code, q) <= 1
}

proof fn lemma_gen_funcs_kills(nodes: Seq<NodeView>, nlabel: usize)
    ensures
        gen_funcs_spec(nodes, nlabel) matches Ok((fns, _)) ==> fns.len() == nodes.len() && forall|
            i: int,
        | 0 <= i < fns.len() ==> liveness_in_order(#[trigger] fns[i].ir),
    decreases nodes.len(),
{
    if nodes.len() > 0 {
        lemma_gen_funcs_kills(nodes.drop_last(), nlabel);
        match gen_funcs_spec(nodes.drop_last(), nlabel) {
            Ok((done, n1)) => {
                match gen_func_spec(nodes.last(), n1) {
                    Ok((f, _)) => {
                        lemma_gen_func_kills(nodes.last(), n1, 0);
                        assert forall|q: usize| #[trigger] kill_count(f.ir, q) <= 1 by {
                            lemma_gen_func_kills(nodes.last(), n1, q);
                        }
                        assert(liveness_in_order(f.ir));
                    },
                    Err(_) => {},
                }
            },
            Err(_) => {},
        }
    }
}

/// In every function of a lowered translation unit no register is
/// marked dead twice, the frame pointer is never marked dead, and no
/// register is named after it was marked dead.
pub proof fn lemma_gen_ir_kills(nodes: Seq<NodeView>)
    ensures
        gen_ir_spec(nodes) matches Ok(fns) ==> forall|i: int|
            0 <= i < fns.len() ==> liveness_in_order(#[trigger] fns[i].ir),
{
    lemma_gen_funcs_kills(nodes, 0);
}

} // verus!
