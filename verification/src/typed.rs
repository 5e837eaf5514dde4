//! What holds of the tree that the semantic analyzer gives.
//!
//! Every name is resolved, every string is a global, every `sizeof` is a
//! number; what is assigned to or has its address taken is an lvalue; what
//! is dereferenced is a pointer, and not to void; a member access names a
//! member of the struct it is applied to; and in a sum or difference the
//! right operand is no pointer.

use vstd::prelude::*;
use crate::ast::NodeTypeView;
use crate::ast::NodeView;
use crate::env::env_find;
use crate::env::env_insert;
use crate::sema::alloc_local;
use crate::sema::find_member_spec;
use crate::sema::is_lval;
use crate::sema::maybe_decay_spec;
use crate::sema::sema_item_spec;
use crate::sema::sema_items_spec;
use crate::sema::sema_spec;
use crate::sema::str_label_name;
use crate::sema::walk_list_spec;
use crate::sema::walk_spec;
use crate::sema::with_frame_size;
use crate::sema::SemaView;
use crate::token::TokenType;
use crate::types::CtypeView;
use crate::types::ScopeView;
use crate::types::TypeView;
use crate::types::VarView;

verus! {

/// Whether `node` is a tree as the analyzer leaves it.
pub open spec fn analyzed(node: NodeView) -> bool
    decreases node,
{
    match node.op {
        NodeTypeView::Num(_) => node.ty == TypeView::int_ty(),
        NodeTypeView::Str(_, _) => false,
        NodeTypeView::Ident(_) => false,
        NodeTypeView::Sizeof(_) => false,
        NodeTypeView::Alignof(_) => false,
        NodeTypeView::Break => false,
        NodeTypeView::Lvar(scope) => scope is Local,
        NodeTypeView::Gvar(_, _, _) => true,
        NodeTypeView::Null => true,
        NodeTypeView::Vardef(_, init, scope) => scope is Local && match init {
            Some(e) => analyzed(*e),
            None => true,
        },
        NodeTypeView::BinOp(op, lhs, rhs) => {
            &&& analyzed(*lhs)
            &&& analyzed(*rhs)
            &&& node.ty == lhs.ty
            &&& op == TokenType::Equal ==> is_lval(*lhs)
            &&& (op == TokenType::Plus || op == TokenType::Minus) ==> !rhs.ty.is_ptr()
        },
        NodeTypeView::If(cond, then, els) => analyzed(*cond) && analyzed(*then) && match els {
            Some(e) => analyzed(*e),
            None => true,
        },
        NodeTypeView::Ternary(cond, then, els) => analyzed(*cond) && analyzed(*then) && analyzed(
            *els,
        ) && node.ty == then.ty,
        NodeTypeView::For(init, cond, inc, body) => analyzed(*init) && analyzed(*cond) && analyzed(
            *inc,
        ) && analyzed(*body),
        NodeTypeView::DoWhile(body, cond) => analyzed(*body) && analyzed(*cond),
        NodeTypeView::Addr(expr) => {
            &&& analyzed(*expr)
            &&& is_lval(*expr)
            &&& node.ty == TypeView::ptr_to(expr.ty) || (expr.ty.ty matches CtypeView::Ary(of, _)
                && node.ty == TypeView::ptr_to(*of))
        },
        NodeTypeView::Deref(expr) => {
            &&& analyzed(*expr)
            &&& expr.ty.ty matches CtypeView::Ptr(to) && node.ty == *to && !(to.ty is Void)
        },
        NodeTypeView::Dot(expr, name, offset) => {
            &&& analyzed(*expr)
            &&& expr.ty.ty matches CtypeView::Struct(members) && (find_member_spec(members, name)
                matches Some(m) && m.offset == offset && m.ty == node.ty)
        },
        NodeTypeView::Exclamation(expr) | NodeTypeView::Neg(expr) | NodeTypeView::PostInc(expr)
        | NodeTypeView::PostDec(expr) | NodeTypeView::PreInc(expr) | NodeTypeView::PreDec(expr)
        | NodeTypeView::Return(expr) | NodeTypeView::ExprStmt(expr) => analyzed(*expr),
        NodeTypeView::StmtExpr(expr) => analyzed(*expr) && node.ty == TypeView::int_ty(),
        NodeTypeView::Call(_, args) => all_analyzed(args),
        NodeTypeView::Func(_, args, body, _) => all_analyzed(args) && analyzed(*body),
        NodeTypeView::CompStmt(stmts) => all_analyzed(stmts),
        NodeTypeView::VecStmt(stmts) => all_analyzed(stmts),
    }
}

/// Whether every node of `nodes` is as the analyzer leaves it.
pub open spec fn all_analyzed(nodes: Seq<NodeView>) -> bool
    decreases nodes,
{
    if nodes.len() == 0 {
        true
    } else {
        all_analyzed(nodes.drop_last()) && analyzed(nodes.last())
    }
}

/// The explicit conversion of an analyzed lvalue is analyzed.
proof fn lemma_decay_analyzed(base: NodeView, decay: bool)
    requires
        analyzed(base),
        is_lval(base),
    ensures
        analyzed(maybe_decay_spec(base, decay)),
{
}

proof fn lemma_walk_analyzed_leaf(node: NodeView, st: SemaView, decay: bool)
    requires
        node.op is Str || node.op is Ident || node.op is Num || node.op is Null,
    ensures
        walk_spec(node, st, decay) matches Ok((n, _)) ==> analyzed(n),
    decreases node, 1nat,
{
    match node.op {
        NodeTypeView::Str(data, len) => {
            if st.str_label != usize::MAX {
                let name = str_label_name(st.str_label);
                let ret = NodeView { op: NodeTypeView::Gvar(name, Seq::empty(), len), ty: node.ty };
                lemma_decay_analyzed(ret, decay);
            }
        },
        NodeTypeView::Ident(name) => {
            match env_find(st.env, name) {
                Some(var) => match var.scope {
                    ScopeView::Local(offset) => {
                        lemma_decay_analyzed(
                            NodeView { op: NodeTypeView::Lvar(ScopeView::Local(offset)), ty: var.ty },
                            decay,
                        );
                    },
                    ScopeView::Global(data, len, _) => {
                        lemma_decay_analyzed(
                            NodeView { op: NodeTypeView::Gvar(var.name, data, len), ty: var.ty },
                            decay,
                        );
                    },
                },
                None => {},
            }
        },
        _ => {},
    }
}

proof fn lemma_walk_analyzed_vardef(node: NodeView, st: SemaView, decay: bool)
    requires
        node.op is Vardef,
    ensures
        walk_spec(node, st, decay) matches Ok((n, _)) ==> analyzed(n),
    decreases node, 1nat,
{
    match node.op {
        NodeTypeView::Vardef(name, init, _) => {
            match alloc_local(st.stacksize, node.ty) {
                Some(offset) => {
                    let var = VarView { ty: node.ty, name, scope: ScopeView::Local(offset) };
                    let st1 = SemaView { stacksize: offset, env: env_insert(st.env, var), ..st };
                    match init {
                        Some(e) => {
                            lemma_walk_analyzed(*e, st1, true);
                        },
                        None => {},
                    }
                },
                None => {},
            }
        },
        _ => {},
    }
}

proof fn lemma_walk_analyzed_branch(node: NodeView, st: SemaView, decay: bool)
    requires
        node.op is If || node.op is Ternary,
    ensures
        walk_spec(node, st, decay) matches Ok((n, _)) ==> analyzed(n),
    decreases node, 1nat,
{
    match node.op {
        NodeTypeView::If(cond, then, els) => {
            lemma_walk_analyzed(*cond, st, true);
            match walk_spec(*cond, st, true) {
                Ok((_, st1)) => {
                    lemma_walk_analyzed(*then, st1, true);
                    match walk_spec(*then, st1, true) {
                        Ok((_, st2)) => {
                            match els {
                                Some(e) => {
                                    lemma_walk_analyzed(*e, st2, true);
                                },
                                None => {},
                            }
                        },
                        Err(_) => {},
                    }
                },
                Err(_) => {},
            }
        },
        NodeTypeView::Ternary(cond, then, els) => {
            lemma_walk_analyzed(*cond, st, true);
            match walk_spec(*cond, st, true) {
                Ok((_, st1)) => {
                    lemma_walk_analyzed(*then, st1, true);
                    match walk_spec(*then, st1, true) {
                        Ok((_, st2)) => {
                            lemma_walk_analyzed(*els, st2, true);
                        },
                        Err(_) => {},
                    }
                },
                Err(_) => {},
            }
        },
        _ => {},
    }
}

proof fn lemma_walk_analyzed_loop(node: NodeView, st: SemaView, decay: bool)
    requires
        node.op is For || node.op is DoWhile,
    ensures
        walk_spec(node, st, decay) matches Ok((n, _)) ==> analyzed(n),
    decreases node, 1nat,
{
    match node.op {
        NodeTypeView::For(init, cond, inc, body) => {
            lemma_walk_analyzed(*init, st, true);
            match walk_spec(*init, st, true) {
                Ok((_, st1)) => {
                    lemma_walk_analyzed(*cond, st1, true);
                    match walk_spec(*cond, st1, true) {
                        Ok((_, st2)) => {
                            lemma_walk_analyzed(*inc, st2, true);
                            match walk_spec(*inc, st2, true) {
                                Ok((_, st3)) => {
                                    lemma_walk_analyzed(*body, st3, true);
                                },
                                Err(_) => {},
                            }
                        },
                        Err(_) => {},
                    }
                },
                Err(_) => {},
            }
        },
        NodeTypeView::DoWhile(body, cond) => {
            lemma_walk_analyzed(*body, st, true);
            match walk_spec(*body, st, true) {
                Ok((_, st1)) => {
                    lemma_walk_analyzed(*cond, st1, true);
                },
                Err(_) => {},
            }
        },
        _ => {},
    }
}

proof fn lemma_walk_analyzed_binop(node: NodeView, st: SemaView, decay: bool)
    requires
        node.op is BinOp,
    ensures
        walk_spec(node, st, decay) matches Ok((n, _)) ==> analyzed(n),
    decreases node, 1nat,
{
    match node.op {
        NodeTypeView::BinOp(op, lhs, rhs) => {
            let d = op != TokenType::Equal;
            lemma_walk_analyzed(*lhs, st, d);
            match walk_spec(*lhs, st, d) {
                Ok((_, st1)) => {
                    lemma_walk_analyzed(*rhs, st1, true);
                },
                Err(_) => {},
            }
        },
        _ => {},
    }
}

proof fn lemma_walk_analyzed_dot(node: NodeView, st: SemaView, decay: bool)
    requires
        node.op is Dot,
    ensures
        walk_spec(node, st, decay) matches Ok((n, _)) ==> analyzed(n),
    decreases node, 1nat,
{
    match node.op {
        NodeTypeView::Dot(expr, name, _) => {
            lemma_walk_analyzed(*expr, st, true);
            match walk_spec(*expr, st, true) {
                Ok((e1, _)) => match e1.ty.ty {
                    CtypeView::Struct(members) => match find_member_spec(members, name) {
                        Some(m) => {
                            lemma_decay_analyzed(
                                NodeView {
                                    op: NodeTypeView::Dot(Box::new(e1), name, m.offset),
                                    ty: m.ty,
                                },
                                decay,
                            );
                        },
                        None => {},
                    },
                    _ => {},
                },
                Err(_) => {},
            }
        },
        _ => {},
    }
}

proof fn lemma_walk_analyzed_unary(node: NodeView, st: SemaView, decay: bool)
    requires
        !(node.op is Str || node.op is Ident || node.op is Num || node.op is Null || node.op is Vardef
            || node.op is If || node.op is Ternary || node.op is For || node.op is DoWhile
            || node.op is BinOp || node.op is Dot || node.op is Call || node.op is Func
            || node.op is CompStmt || node.op is VecStmt),
    ensures
        walk_spec(node, st, decay) matches Ok((n, _)) ==> analyzed(n),
    decreases node, 1nat,
{
    match node.op {
        NodeTypeView::PreInc(expr) | NodeTypeView::PreDec(expr) | NodeTypeView::PostInc(expr)
        | NodeTypeView::PostDec(expr) | NodeTypeView::Neg(expr) | NodeTypeView::Exclamation(expr)
        | NodeTypeView::Addr(expr) | NodeTypeView::Deref(expr) | NodeTypeView::Return(expr)
        | NodeTypeView::ExprStmt(expr) | NodeTypeView::StmtExpr(expr) => {
            lemma_walk_analyzed(*expr, st, true);
        },
        NodeTypeView::Sizeof(expr) | NodeTypeView::Alignof(expr) => {
            lemma_walk_analyzed(*expr, st, false);
        },
        _ => {},
    }
}

proof fn lemma_walk_analyzed_seq(node: NodeView, st: SemaView, decay: bool)
    requires
        node.op is Call || node.op is Func || node.op is CompStmt || node.op is VecStmt,
    ensures
        walk_spec(node, st, decay) matches Ok((n, _)) ==> analyzed(n),
    decreases node, 1nat,
{
    match node.op {
        NodeTypeView::Call(_, args) => {
            lemma_walk_list_analyzed(args, st);
        },
        NodeTypeView::Func(_, args, body, _) => {
            lemma_walk_list_analyzed(args, st);
            match walk_list_spec(args, st) {
                Ok((_, st1)) => {
                    lemma_walk_analyzed(*body, st1, true);
                },
                Err(_) => {},
            }
        },
        NodeTypeView::CompStmt(stmts) => {
            lemma_walk_list_analyzed(stmts, SemaView { env: st.env.push(Seq::empty()), ..st });
        },
        NodeTypeView::VecStmt(stmts) => {
            lemma_walk_list_analyzed(stmts, st);
        },
        _ => {},
    }
}

/// Every tree of a list that the analyzer gives is analyzed.
pub proof fn lemma_walk_list_analyzed(nodes: Seq<NodeView>, st: SemaView)
    ensures
        walk_list_spec(nodes, st) matches Ok((ns, _)) ==> all_analyzed(ns),
    decreases nodes, 0nat,
{
    if nodes.len() > 0 {
        lemma_walk_list_analyzed(nodes.drop_last(), st);
        match walk_list_spec(nodes.drop_last(), st) {
            Ok((done, st1)) => {
                lemma_walk_analyzed(nodes.last(), st1, true);
                match walk_spec(nodes.last(), st1, true) {
                    Ok((n, _)) => {
                        assert(done.push(n).drop_last() == done);
                    },
                    Err(_) => {},
                }
            },
            Err(_) => {},
        }
    }
}

/// The tree that the analyzer gives is analyzed: nothing in it is left
/// to resolve, and every rule on lvalues, pointers and members holds of it.
pub proof fn lemma_walk_analyzed(node: NodeView, st: SemaView, decay: bool)
    ensures
        walk_spec(node, st, decay) matches Ok((n, _)) ==> analyzed(n),
    decreases node, 2nat,
{
    match node.op {
        NodeTypeView::Str(_, _) | NodeTypeView::Ident(_) | NodeTypeView::Num(_)
        | NodeTypeView::Null => lemma_walk_analyzed_leaf(node, st, decay),
        NodeTypeView::Vardef(_, _, _) => lemma_walk_analyzed_vardef(node, st, decay),
        NodeTypeView::If(_, _, _) | NodeTypeView::Ternary(_, _, _) => lemma_walk_analyzed_branch(
            node,
            st,
            decay,
        ),
        NodeTypeView::For(_, _, _, _) | NodeTypeView::DoWhile(_, _) => lemma_walk_analyzed_loop(
            node,
            st,
            decay,
        ),
        NodeTypeView::BinOp(_, _, _) => lemma_walk_analyzed_binop(node, st, decay),
        NodeTypeView::Dot(_, _, _) => lemma_walk_analyzed_dot(node, st, decay),
        NodeTypeView::Call(_, _) | NodeTypeView::Func(_, _, _, _) | NodeTypeView::CompStmt(_)
        | NodeTypeView::VecStmt(_) => lemma_walk_analyzed_seq(node, st, decay),
        _ => lemma_walk_analyzed_unary(node, st, decay),
    }
}

/// Every function that the analysis of a translation unit gives is analyzed.
pub proof fn lemma_sema_items_analyzed(nodes: Seq<NodeView>, st: SemaView)
    ensures
        sema_items_spec(nodes, st) matches Ok((funcs, _)) ==> all_analyzed(funcs),
    decreases nodes.len(),
{
    if nodes.len() > 0 {
        lemma_sema_items_analyzed(nodes.drop_last(), st);
        match sema_items_spec(nodes.drop_last(), st) {
            Ok((done, st1)) => {
                let node = nodes.last();
                match sema_item_spec(node, st1) {
                    Ok((Some(f), _)) => {
                        let inner = SemaView { stacksize: 0, env: st1.env.push(Seq::empty()), ..st1 };
                        lemma_walk_analyzed(node, inner, true);
                        match walk_spec(node, inner, true) {
                            Ok((n, after)) => {
                                assert(f == with_frame_size(n, after.stacksize));
                                assert(analyzed(n));
                                assert(analyzed(f));
                            },
                            Err(_) => {},
                        }
                        assert(done.push(f).drop_last() == done);
                    },
                    _ => {},
                }
            },
            Err(_) => {},
        }
    }
}

/// Every function that the analyzer gives is analyzed.
pub proof fn lemma_sema_analyzed(nodes: Seq<NodeView>)
    ensures
        sema_spec(nodes) matches Ok((funcs, _)) ==> all_analyzed(funcs),
{
    lemma_sema_items_analyzed(nodes, SemaView::start());
}

} // verus!
