//! The semantic analyzer.
//!
//! It walks the syntax tree of each function once and
//!
//! - resolves every name through the chain of scopes: a local variable to
//!   its offset below the frame pointer, a global one to its name;
//! - gives every expression its type;
//! - makes the conversion of an array to a pointer to its first element
//!   explicit, wherever C applies it;
//! - lays out the stack frame;
//! - rejects what cannot be assigned to, dereferenced or resolved.
//!
//! The first violation is fatal: the pass returns it and yields no tree.

use vstd::prelude::*;
use vstd::string::StringExecFns;
use crate::ast::lemma_nodes_view_push;
use crate::ast::nodes_view;
use crate::ast::opt_node_view;
use crate::ast::Node;
use crate::ast::NodeType;
use crate::ast::NodeTypeView;
use crate::ast::NodeView;
use crate::env::env_find;
use crate::env::env_insert;
use crate::env::vars_view;
use crate::env::Env;
use crate::error::Error;
use crate::error::ErrorKind;
use crate::error::ErrorView;
use crate::text::decimal;
use crate::text::push_decimal;
use crate::token::TokenType;
use crate::types::members_view;
use crate::types::spec_roundup;
use crate::types::roundup;
use crate::types::Ctype;
use crate::types::CtypeView;
use crate::types::Member;
use crate::types::MemberView;
use crate::types::Scope;
use crate::types::ScopeView;
use crate::types::Type;
use crate::types::TypeView;
use crate::types::Var;
use crate::types::VarView;

verus! {

/// The state of one analysis: the scopes, the stack-size cursor of the
/// function at hand, the number of the next string label, and the global
/// variables found so far.
#[derive(Debug)]
pub struct Sema {
    pub env: Env,
    pub stacksize: usize,
    pub str_label: usize,
    pub globals: Vec<Var>,
}

/// The mathematical value of a [`Sema`].
pub ghost struct SemaView {
    /// The chain of scopes, outermost first.
    pub env: Seq<Seq<VarView>>,
    pub stacksize: usize,
    pub str_label: usize,
    pub globals: Seq<VarView>,
}

impl View for Sema {
    type V = SemaView;

    open spec fn view(&self) -> SemaView {
        SemaView {
            env: self.env@,
            stacksize: self.stacksize,
            str_label: self.str_label,
            globals: vars_view(self.globals@),
        }
    }
}

/// What walking a node gives: the typed node and the state after it, or
/// the first error.
pub type Walked = Result<(NodeView, SemaView), ErrorView>;

/// What walking a list of nodes gives.
pub type WalkedList = Result<(Seq<NodeView>, SemaView), ErrorView>;

/// The name of the `n`-th anonymous string: `.L.str` and the number.
pub open spec fn str_label_name(n: usize) -> Seq<char> {
    seq!['.', 'L', '.', 's', 't', 'r'] + decimal(n as nat)
}

/// The node `base`, or, where `decay` is set and `base` is an array, the
/// address of `base`, typed as a pointer to the array's elements.
pub open spec fn maybe_decay_spec(base: NodeView, decay: bool) -> NodeView {
    if !decay {
        base
    } else {
        match base.ty.ty {
            CtypeView::Ary(of, _) => NodeView {
                op: NodeTypeView::Addr(Box::new(base)),
                ty: TypeView::ptr_to(*of),
            },
            _ => base,
        }
    }
}

/// Whether a node may be assigned to or have its address taken: a
/// variable, a dereference or a member access.
pub open spec fn is_lval(node: NodeView) -> bool {
    node.op is Lvar || node.op is Gvar || node.op is Deref || node.op is Dot
}

/// The first member called `name`.
pub open spec fn find_member_spec(members: Seq<MemberView>, name: Seq<char>) -> Option<MemberView>
    decreases members.len(),
{
    if members.len() == 0 {
        None
    } else if members[0].name == name {
        Some(members[0])
    } else {
        find_member_spec(members.drop_first(), name)
    }
}

/// The stack-size cursor after room was made for a variable of type `ty`:
/// the cursor is rounded up to the type's alignment, then the type's size
/// is added. `None` where the alignment is zero or the frame outgrows the
/// machine's integers.
pub open spec fn alloc_local(stacksize: usize, ty: TypeView) -> Option<usize> {
    if ty.align == 0 {
        None
    } else if spec_roundup(stacksize as int, ty.align as int) + ty.size > usize::MAX {
        None
    } else {
        Some((spec_roundup(stacksize as int, ty.align as int) + ty.size) as usize)
    }
}

/// The typed tree for `node` and the state after walking it.
pub open spec fn walk_spec(node: NodeView, st: SemaView, decay: bool) -> Walked
    decreases node,
{
    match node.op {
        NodeTypeView::Num(val) => Ok((NodeView { op: node.op, ty: TypeView::int_ty() }, st)),
        NodeTypeView::Str(data, len) => {
            if st.str_label == usize::MAX {
                Err(ErrorView::bare(ErrorKind::Overflow))
            } else {
                let name = str_label_name(st.str_label);
                let var = VarView::new_global(node.ty, name, data, len, false);
                let ret = NodeView { op: NodeTypeView::Gvar(name, Seq::empty(), len), ty: node.ty };
                Ok(
                    (
                        maybe_decay_spec(ret, decay),
                        SemaView {
                            str_label: (st.str_label + 1) as usize,
                            globals: st.globals.push(var),
                            ..st
                        },
                    ),
                )
            }
        },
        NodeTypeView::Ident(name) => match env_find(st.env, name) {
            Some(var) => match var.scope {
                ScopeView::Local(offset) => Ok(
                    (
                        maybe_decay_spec(
                            NodeView { op: NodeTypeView::Lvar(ScopeView::Local(offset)), ty: var.ty },
                            decay,
                        ),
                        st,
                    ),
                ),
                ScopeView::Global(data, len, _) => Ok(
                    (
                        maybe_decay_spec(
                            NodeView { op: NodeTypeView::Gvar(var.name, data, len), ty: var.ty },
                            decay,
                        ),
                        st,
                    ),
                ),
            },
            None => Err(ErrorView::named(ErrorKind::UndefinedVariable, name)),
        },
        NodeTypeView::Vardef(name, init, _) => match alloc_local(st.stacksize, node.ty) {
            None => Err(ErrorView::bare(ErrorKind::Overflow)),
            Some(offset) => {
                let var = VarView { ty: node.ty, name, scope: ScopeView::Local(offset) };
                let st1 = SemaView { stacksize: offset, env: env_insert(st.env, var), ..st };
                match init {
                    None => Ok(
                        (
                            NodeView {
                                op: NodeTypeView::Vardef(name, None, ScopeView::Local(offset)),
                                ty: node.ty,
                            },
                            st1,
                        ),
                    ),
                    Some(e) => match walk_spec(*e, st1, true) {
                        Err(err) => Err(err),
                        Ok((e1, st2)) => Ok(
                            (
                                NodeView {
                                    op: NodeTypeView::Vardef(
                                        name,
                                        Some(Box::new(e1)),
                                        ScopeView::Local(offset),
                                    ),
                                    ty: node.ty,
                                },
                                st2,
                            ),
                        ),
                    },
                }
            },
        },
        NodeTypeView::If(cond, then, els) => match walk_spec(*cond, st, true) {
            Err(err) => Err(err),
            Ok((c1, st1)) => match walk_spec(*then, st1, true) {
                Err(err) => Err(err),
                Ok((t1, st2)) => match els {
                    None => Ok(
                        (
                            NodeView {
                                op: NodeTypeView::If(Box::new(c1), Box::new(t1), None),
                                ty: node.ty,
                            },
                            st2,
                        ),
                    ),
                    Some(e) => match walk_spec(*e, st2, true) {
                        Err(err) => Err(err),
                        Ok((e1, st3)) => Ok(
                            (
                                NodeView {
                                    op: NodeTypeView::If(
                                        Box::new(c1),
                                        Box::new(t1),
                                        Some(Box::new(e1)),
                                    ),
                                    ty: node.ty,
                                },
                                st3,
                            ),
                        ),
                    },
                },
            },
        },
        NodeTypeView::Ternary(cond, then, els) => match walk_spec(*cond, st, true) {
            Err(err) => Err(err),
            Ok((c1, st1)) => match walk_spec(*then, st1, true) {
                Err(err) => Err(err),
                Ok((t1, st2)) => match walk_spec(*els, st2, true) {
                    Err(err) => Err(err),
                    Ok((e1, st3)) => Ok(
                        (
                            NodeView {
                                op: NodeTypeView::Ternary(Box::new(c1), Box::new(t1), Box::new(e1)),
                                ty: t1.ty,
                            },
                            st3,
                        ),
                    ),
                },
            },
        },
        NodeTypeView::For(init, cond, inc, body) => match walk_spec(*init, st, true) {
            Err(err) => Err(err),
            Ok((i1, st1)) => match walk_spec(*cond, st1, true) {
                Err(err) => Err(err),
                Ok((c1, st2)) => match walk_spec(*inc, st2, true) {
                    Err(err) => Err(err),
                    Ok((n1, st3)) => match walk_spec(*body, st3, true) {
                        Err(err) => Err(err),
                        Ok((b1, st4)) => Ok(
                            (
                                NodeView {
                                    op: NodeTypeView::For(
                                        Box::new(i1),
                                        Box::new(c1),
                                        Box::new(n1),
                                        Box::new(b1),
                                    ),
                                    ty: node.ty,
                                },
                                st4,
                            ),
                        ),
                    },
                },
            },
        },
        NodeTypeView::DoWhile(body, cond) => match walk_spec(*body, st, true) {
            Err(err) => Err(err),
            Ok((b1, st1)) => match walk_spec(*cond, st1, true) {
                Err(err) => Err(err),
                Ok((c1, st2)) => Ok(
                    (
                        NodeView {
                            op: NodeTypeView::DoWhile(Box::new(b1), Box::new(c1)),
                            ty: node.ty,
                        },
                        st2,
                    ),
                ),
            },
        },
        NodeTypeView::Dot(expr, name, _) => match walk_spec(*expr, st, true) {
            Err(err) => Err(err),
            Ok((e1, st1)) => match e1.ty.ty {
                CtypeView::Struct(members) => match find_member_spec(members, name) {
                    Some(m) => Ok(
                        (
                            maybe_decay_spec(
                                NodeView {
                                    op: NodeTypeView::Dot(Box::new(e1), name, m.offset),
                                    ty: m.ty,
                                },
                                decay,
                            ),
                            st1,
                        ),
                    ),
                    None => Err(ErrorView::named(ErrorKind::MemberMissing, name)),
                },
                _ => Err(ErrorView::bare(ErrorKind::StructExpected)),
            },
        },
        NodeTypeView::BinOp(op, lhs, rhs) => if op == TokenType::Equal {
            match walk_spec(*lhs, st, false) {
                Err(err) => Err(err),
                Ok((l1, st1)) => if !is_lval(l1) {
                    Err(ErrorView::bare(ErrorKind::NotAnLvalue))
                } else {
                    match walk_spec(*rhs, st1, true) {
                        Err(err) => Err(err),
                        Ok((r1, st2)) => Ok(
                            (
                                NodeView {
                                    op: NodeTypeView::BinOp(op, Box::new(l1), Box::new(r1)),
                                    ty: l1.ty,
                                },
                                st2,
                            ),
                        ),
                    }
                },
            }
        } else {
            match walk_spec(*lhs, st, true) {
                Err(err) => Err(err),
                Ok((l1, st1)) => match walk_spec(*rhs, st1, true) {
                    Err(err) => Err(err),
                    Ok((r1, st2)) => if op == TokenType::Plus || op == TokenType::Minus {
                        // the pointer, if there is one, goes to the left
                        let (l2, r2) = if r1.ty.is_ptr() {
                            (r1, l1)
                        } else {
                            (l1, r1)
                        };
                        if r2.ty.is_ptr() {
                            Err(ErrorView::bare(ErrorKind::PointerArithmetic))
                        } else {
                            Ok(
                                (
                                    NodeView {
                                        op: NodeTypeView::BinOp(op, Box::new(l2), Box::new(r2)),
                                        ty: l2.ty,
                                    },
                                    st2,
                                ),
                            )
                        }
                    } else {
                        Ok(
                            (
                                NodeView {
                                    op: NodeTypeView::BinOp(op, Box::new(l1), Box::new(r1)),
                                    ty: l1.ty,
                                },
                                st2,
                            ),
                        )
                    },
                },
            }
        },
        NodeTypeView::PreInc(expr) => match walk_spec(*expr, st, true) {
            Err(err) => Err(err),
            Ok((e1, st1)) => Ok(
                (NodeView { op: NodeTypeView::PreInc(Box::new(e1)), ty: node.ty }, st1),
            ),
        },
        NodeTypeView::PreDec(expr) => match walk_spec(*expr, st, true) {
            Err(err) => Err(err),
            Ok((e1, st1)) => Ok(
                (NodeView { op: NodeTypeView::PreDec(Box::new(e1)), ty: node.ty }, st1),
            ),
        },
        NodeTypeView::PostInc(expr) => match walk_spec(*expr, st, true) {
            Err(err) => Err(err),
            Ok((e1, st1)) => Ok(
                (NodeView { op: NodeTypeView::PostInc(Box::new(e1)), ty: node.ty }, st1),
            ),
        },
        NodeTypeView::PostDec(expr) => match walk_spec(*expr, st, true) {
            Err(err) => Err(err),
            Ok((e1, st1)) => Ok(
                (NodeView { op: NodeTypeView::PostDec(Box::new(e1)), ty: node.ty }, st1),
            ),
        },
        NodeTypeView::Neg(expr) => match walk_spec(*expr, st, true) {
            Err(err) => Err(err),
            Ok((e1, st1)) => Ok((NodeView { op: NodeTypeView::Neg(Box::new(e1)), ty: node.ty }, st1)),
        },
        NodeTypeView::Exclamation(expr) => match walk_spec(*expr, st, true) {
            Err(err) => Err(err),
            Ok((e1, st1)) => Ok(
                (NodeView { op: NodeTypeView::Exclamation(Box::new(e1)), ty: node.ty }, st1),
            ),
        },
        NodeTypeView::Addr(expr) => match walk_spec(*expr, st, true) {
            Err(err) => Err(err),
            Ok((e1, st1)) => if !is_lval(e1) {
                Err(ErrorView::bare(ErrorKind::NotAnLvalue))
            } else {
                Ok(
                    (
                        NodeView {
                            op: NodeTypeView::Addr(Box::new(e1)),
                            ty: TypeView::ptr_to(e1.ty),
                        },
                        st1,
                    ),
                )
            },
        },
        NodeTypeView::Deref(expr) => match walk_spec(*expr, st, true) {
            Err(err) => Err(err),
            Ok((e1, st1)) => match e1.ty.ty {
                CtypeView::Ptr(to) => if to.ty is Void {
                    Err(ErrorView::bare(ErrorKind::DerefVoid))
                } else {
                    Ok((NodeView { op: NodeTypeView::Deref(Box::new(e1)), ty: *to }, st1))
                },
                CtypeView::Void => Err(ErrorView::bare(ErrorKind::DerefVoid)),
                _ => Err(ErrorView::bare(ErrorKind::DerefNonPointer)),
            },
        },
        NodeTypeView::Return(expr) => match walk_spec(*expr, st, true) {
            Err(err) => Err(err),
            Ok((e1, st1)) => Ok(
                (NodeView { op: NodeTypeView::Return(Box::new(e1)), ty: node.ty }, st1),
            ),
        },
        NodeTypeView::ExprStmt(expr) => match walk_spec(*expr, st, true) {
            Err(err) => Err(err),
            Ok((e1, st1)) => Ok(
                (NodeView { op: NodeTypeView::ExprStmt(Box::new(e1)), ty: node.ty }, st1),
            ),
        },
        NodeTypeView::Sizeof(expr) => match walk_spec(*expr, st, false) {
            Err(err) => Err(err),
            Ok((e1, st1)) => if e1.ty.size > i32::MAX {
                Err(ErrorView::bare(ErrorKind::Overflow))
            } else {
                Ok((NodeView::int_ty(e1.ty.size as i32), st1))
            },
        },
        NodeTypeView::Alignof(expr) => match walk_spec(*expr, st, false) {
            Err(err) => Err(err),
            Ok((e1, st1)) => if e1.ty.align > i32::MAX {
                Err(ErrorView::bare(ErrorKind::Overflow))
            } else {
                Ok((NodeView::int_ty(e1.ty.align as i32), st1))
            },
        },
        NodeTypeView::Call(name, args) => match walk_list_spec(args, st) {
            Err(err) => Err(err),
            Ok((args1, st1)) => Ok((NodeView { op: NodeTypeView::Call(name, args1), ty: node.ty }, st1)),
        },
        NodeTypeView::Func(name, args, body, stacksize) => match walk_list_spec(args, st) {
            Err(err) => Err(err),
            Ok((args1, st1)) => match walk_spec(*body, st1, true) {
                Err(err) => Err(err),
                Ok((b1, st2)) => Ok(
                    (
                        NodeView {
                            op: NodeTypeView::Func(name, args1, Box::new(b1), stacksize),
                            ty: node.ty,
                        },
                        st2,
                    ),
                ),
            },
        },
        NodeTypeView::CompStmt(stmts) => match walk_list_spec(
            stmts,
            SemaView { env: st.env.push(Seq::empty()), ..st },
        ) {
            Err(err) => Err(err),
            Ok((stmts1, st1)) => Ok(
                (
                    NodeView { op: NodeTypeView::CompStmt(stmts1), ty: node.ty },
                    SemaView { env: st1.env.drop_last(), ..st1 },
                ),
            ),
        },
        NodeTypeView::VecStmt(stmts) => match walk_list_spec(stmts, st) {
            Err(err) => Err(err),
            Ok((stmts1, st1)) => Ok((NodeView { op: NodeTypeView::VecStmt(stmts1), ty: node.ty }, st1)),
        },
        NodeTypeView::StmtExpr(body) => match walk_spec(*body, st, true) {
            Err(err) => Err(err),
            Ok((b1, st1)) => Ok(
                (NodeView { op: NodeTypeView::StmtExpr(Box::new(b1)), ty: TypeView::int_ty() }, st1),
            ),
        },
        NodeTypeView::Null => Ok((node, st)),
        NodeTypeView::Lvar(_) | NodeTypeView::Gvar(_, _, _) | NodeTypeView::Break => Err(
            ErrorView::bare(ErrorKind::UnknownNode),
        ),
    }
}

/// The typed trees for `nodes`, walked from the first to the last, each
/// in the state that the one before it left.
pub open spec fn walk_list_spec(nodes: Seq<NodeView>, st: SemaView) -> WalkedList
    decreases nodes,
{
    if nodes.len() == 0 {
        Ok((Seq::empty(), st))
    } else {
        match walk_list_spec(nodes.drop_last(), st) {
            Err(err) => Err(err),
            Ok((done, st1)) => match walk_spec(nodes.last(), st1, true) {
                Err(err) => Err(err),
                Ok((n, st2)) => Ok((done.push(n), st2)),
            },
        }
    }
}

/// An error among the first `k` nodes is the error of the whole list.
pub proof fn lemma_walk_list_err(nodes: Seq<NodeView>, st: SemaView, k: int)
    requires
        0 <= k <= nodes.len(),
        walk_list_spec(nodes.take(k), st) is Err,
    ensures
        walk_list_spec(nodes, st) == walk_list_spec(nodes.take(k), st),
    decreases nodes.len() - k,
{
    if k < nodes.len() {
        assert(nodes.take(k + 1).drop_last() == nodes.take(k));
        lemma_walk_list_err(nodes, st, k + 1);
    } else {
        assert(nodes.take(k) == nodes);
    }
}

/// A walk changes the innermost scope only: the number of scopes stays,
/// and so does every scope around the innermost one.
pub open spec fn keeps_outer_scopes(before: SemaView, after: SemaView) -> bool {
    &&& after.env.len() == before.env.len()
    &&& after.env.drop_last() == before.env.drop_last()
}

/// Walking a list of nodes changes the innermost scope only.
pub proof fn lemma_walk_list_scopes(nodes: Seq<NodeView>, st: SemaView)
    requires
        st.env.len() > 0,
    ensures
        walk_list_spec(nodes, st) matches Ok((_, s)) ==> keeps_outer_scopes(st, s),
    decreases nodes, 0nat,
{
    if nodes.len() > 0 {
        lemma_walk_list_scopes(nodes.drop_last(), st);
        match walk_list_spec(nodes.drop_last(), st) {
            Ok((_, st1)) => {
                lemma_walk_scopes(nodes.last(), st1, true);
            },
            Err(_) => {},
        }
    }
}

/// A definition changes the innermost scope only.
proof fn lemma_walk_scopes_vardef(node: NodeView, st: SemaView, decay: bool)
    requires
        st.env.len() > 0,
        node.op is Vardef,
    ensures
        walk_spec(node, st, decay) matches Ok((_, s)) ==> keeps_outer_scopes(st, s),
    decreases node, 1nat,
{
    match node.op {
        NodeTypeView::Vardef(name, init, _) => {
            match alloc_local(st.stacksize, node.ty) {
                Some(offset) => {
                    let var = VarView { ty: node.ty, name, scope: ScopeView::Local(offset) };
                    let st1 = SemaView { stacksize: offset, env: env_insert(st.env, var), ..st };
                    assert(st1.env.drop_last() == st.env.drop_last());
                    match init {
                        Some(e) => {
                            lemma_walk_scopes(*e, st1, true);
                        },
                        None => {},
                    }
                },
                None => {},
            }
        },
        _ => {},
    }
}

/// `if` and `?:` change the innermost scope only.
proof fn lemma_walk_scopes_branch(node: NodeView, st: SemaView, decay: bool)
    requires
        st.env.len() > 0,
        node.op is If || node.op is Ternary,
    ensures
        walk_spec(node, st, decay) matches Ok((_, s)) ==> keeps_outer_scopes(st, s),
    decreases node, 1nat,
{
    match node.op {
        NodeTypeView::If(cond, then, els) => {
            lemma_walk_scopes(*cond, st, true);
            match walk_spec(*cond, st, true) {
                Ok((_, st1)) => {
                    lemma_walk_scopes(*then, st1, true);
                    match walk_spec(*then, st1, true) {
                        Ok((_, st2)) => {
                            match els {
                                Some(e) => {
                                    lemma_walk_scopes(*e, st2, true);
                                },
                                None => {},
                            }
                        },
                        Err(_) => {},
                    }
                },
                Err(_) => {},
            }
        },
        NodeTypeView::Ternary(cond, then, els) => {
            lemma_walk_scopes(*cond, st, true);
            match walk_spec(*cond, st, true) {
                Ok((_, st1)) => {
                    lemma_walk_scopes(*then, st1, true);
                    match walk_spec(*then, st1, true) {
                        Ok((_, st2)) => {
                            lemma_walk_scopes(*els, st2, true);
                        },
                        Err(_) => {},
                    }
                },
                Err(_) => {},
            }
        },
        _ => {},
    }
}

/// `for` and `do` change the innermost scope only.
proof fn lemma_walk_scopes_loop(node: NodeView, st: SemaView, decay: bool)
    requires
        st.env.len() > 0,
        node.op is For || node.op is DoWhile,
    ensures
        walk_spec(node, st, decay) matches Ok((_, s)) ==> keeps_outer_scopes(st, s),
    decreases node, 1nat,
{
    match node.op {
        NodeTypeView::For(init, cond, inc, body) => {
            lemma_walk_scopes(*init, st, true);
            match walk_spec(*init, st, true) {
                Ok((_, st1)) => {
                    lemma_walk_scopes(*cond, st1, true);
                    match walk_spec(*cond, st1, true) {
                        Ok((_, st2)) => {
                            lemma_walk_scopes(*inc, st2, true);
                            match walk_spec(*inc, st2, true) {
                                Ok((_, st3)) => {
                                    lemma_walk_scopes(*body, st3, true);
                                },
                                Err(_) => {},
                            }
                        },
                        Err(_) => {},
                    }
                },
                Err(_) => {},
            }
        },
        NodeTypeView::DoWhile(body, cond) => {
            lemma_walk_scopes(*body, st, true);
            match walk_spec(*body, st, true) {
                Ok((_, st1)) => {
                    lemma_walk_scopes(*cond, st1, true);
                },
                Err(_) => {},
            }
        },
        _ => {},
    }
}

/// A node with one operand changes the innermost scope only.
proof fn lemma_walk_scopes_unary(node: NodeView, st: SemaView, decay: bool)
    requires
        st.env.len() > 0,
        !(node.op is Vardef || node.op is If || node.op is Ternary || node.op is For || node.op is DoWhile || node.op is BinOp || node.op is Call || node.op is Func || node.op is CompStmt || node.op is VecStmt),
    ensures
        walk_spec(node, st, decay) matches Ok((_, s)) ==> keeps_outer_scopes(st, s),
    decreases node, 1nat,
{
    match node.op {
        NodeTypeView::Dot(expr, _, _) => {
            lemma_walk_scopes(*expr, st, true);
        },
        NodeTypeView::PreInc(expr) | NodeTypeView::PreDec(expr) | NodeTypeView::PostInc(expr)
        | NodeTypeView::PostDec(expr) | NodeTypeView::Neg(expr) | NodeTypeView::Exclamation(expr)
        | NodeTypeView::Addr(expr) | NodeTypeView::Deref(expr) | NodeTypeView::Return(expr)
        | NodeTypeView::ExprStmt(expr) | NodeTypeView::StmtExpr(expr) => {
            lemma_walk_scopes(*expr, st, true);
        },
        NodeTypeView::Sizeof(expr) | NodeTypeView::Alignof(expr) => {
            lemma_walk_scopes(*expr, st, false);
        },
        _ => {},
    }
}

/// A binary operation changes the innermost scope only.
proof fn lemma_walk_scopes_binop(node: NodeView, st: SemaView, decay: bool)
    requires
        st.env.len() > 0,
        node.op is BinOp,
    ensures
        walk_spec(node, st, decay) matches Ok((_, s)) ==> keeps_outer_scopes(st, s),
    decreases node, 1nat,
{
    match node.op {
        NodeTypeView::BinOp(op, lhs, rhs) => {
            let d = op != TokenType::Equal;
            lemma_walk_scopes(*lhs, st, d);
            match walk_spec(*lhs, st, d) {
                Ok((_, st1)) => {
                    lemma_walk_scopes(*rhs, st1, true);
                },
                Err(_) => {},
            }
        },
        _ => {},
    }
}

/// A node that holds a list changes the innermost scope only; a block
/// closes the scope that it opened.
proof fn lemma_walk_scopes_seq(node: NodeView, st: SemaView, decay: bool)
    requires
        st.env.len() > 0,
        node.op is Call || node.op is Func || node.op is CompStmt || node.op is VecStmt,
    ensures
        walk_spec(node, st, decay) matches Ok((_, s)) ==> keeps_outer_scopes(st, s),
    decreases node, 1nat,
{
    match node.op {
        NodeTypeView::Call(_, args) => {
            lemma_walk_list_scopes(args, st);
        },
        NodeTypeView::Func(_, args, body, _) => {
            lemma_walk_list_scopes(args, st);
            match walk_list_spec(args, st) {
                Ok((_, st1)) => {
                    lemma_walk_scopes(*body, st1, true);
                },
                Err(_) => {},
            }
        },
        NodeTypeView::CompStmt(stmts) => {
            let inner = SemaView { env: st.env.push(Seq::empty()), ..st };
            lemma_walk_list_scopes(stmts, inner);
            assert(inner.env.drop_last() == st.env);
        },
        NodeTypeView::VecStmt(stmts) => {
            lemma_walk_list_scopes(stmts, st);
        },
        _ => {},
    }
}

/// Walking a node changes the innermost scope only. In particular a
/// block leaves the scopes as it found them.
pub proof fn lemma_walk_scopes(node: NodeView, st: SemaView, decay: bool)
    requires
        st.env.len() > 0,
    ensures
        walk_spec(node, st, decay) matches Ok((_, s)) ==> keeps_outer_scopes(st, s),
    decreases node, 2nat,
{
    match node.op {
        NodeTypeView::Vardef(_, _, _) => lemma_walk_scopes_vardef(node, st, decay),
        NodeTypeView::If(_, _, _) | NodeTypeView::Ternary(_, _, _) => lemma_walk_scopes_branch(
            node,
            st,
            decay,
        ),
        NodeTypeView::For(_, _, _, _) | NodeTypeView::DoWhile(_, _) => lemma_walk_scopes_loop(
            node,
            st,
            decay,
        ),
        NodeTypeView::BinOp(_, _, _) => lemma_walk_scopes_binop(node, st, decay),
        NodeTypeView::Call(_, _) | NodeTypeView::Func(_, _, _, _) | NodeTypeView::CompStmt(_)
        | NodeTypeView::VecStmt(_) => lemma_walk_scopes_seq(node, st, decay),
        _ => lemma_walk_scopes_unary(node, st, decay),
    }
}

/// A block leaves the scopes as it found them: after the block every
/// name resolves as it did before the block, whatever the block defined.
pub proof fn lemma_block_restores_scopes(node: NodeView, st: SemaView, decay: bool)
    requires
        st.env.len() > 0,
        node.op is CompStmt,
    ensures
        walk_spec(node, st, decay) matches Ok((_, s)) ==> s.env == st.env,
{
    let stmts = node.op->CompStmt_0;
    let inner = SemaView { env: st.env.push(Seq::empty()), ..st };
    lemma_walk_list_scopes(stmts, inner);
    assert(inner.env.drop_last() == st.env);
}

/// Once a variable is defined, its name resolves to it in the scope of
/// the definition, whatever the scopes around it hold under that name.
pub proof fn lemma_definition_shadows(node: NodeView, st: SemaView)
    requires
        st.env.len() > 0,
        node.op matches NodeTypeView::Vardef(_, init, _) && init is None,
    ensures
        walk_spec(node, st, true) matches Ok((n, s)) ==> (n.op matches NodeTypeView::Vardef(
            name,
            _,
            scope,
        ) && env_find(s.env, name) == Some(VarView { ty: node.ty, name, scope })),
{
    match alloc_local(st.stacksize, node.ty) {
        Some(offset) => {
            let name = node.op->Vardef_0;
            let var = VarView { ty: node.ty, name, scope: ScopeView::Local(offset) };
            crate::env::lemma_shadowing(st.env.drop_last(), st.env.last(), var);
        },
        None => {},
    }
}

/// Whether what a walk returned and left behind is what `expected` says.
pub open spec fn walked_as(r: Result<Node, Error>, after: SemaView, expected: Walked) -> bool {
    match expected {
        Ok((n, s)) => r matches Ok(rn) && rn@ == n && after == s,
        Err(e) => r matches Err(re) && re@ == e,
    }
}

/// Whether what a walk over a list returned and left behind is what
/// `expected` says.
pub open spec fn walked_list_as(
    r: Result<Vec<Node>, Error>,
    after: SemaView,
    expected: WalkedList,
) -> bool {
    match expected {
        Ok((ns, s)) => r matches Ok(rn) && nodes_view(rn@) == ns && after == s,
        Err(e) => r matches Err(re) && re@ == e,
    }
}

/// The name of the `n`-th anonymous string.
pub fn str_label_string(n: usize) -> (s: String)
    ensures
        s@ == str_label_name(n),
{
    proof {
        reveal_strlit(".L.str");
    }
    let mut s = ".L.str".to_owned();
    assert(s@ =~= seq!['.', 'L', '.', 's', 't', 'r']);
    push_decimal(&mut s, n);
    s
}

/// Makes the conversion of an array to a pointer explicit, where `decay`
/// asks for it.
pub fn maybe_decay(base: Node, decay: bool) -> (r: Node)
    ensures
        r@ == maybe_decay_spec(base@, decay),
{
    if !decay {
        return base;
    }
    let elem = match &base.ty.ty {
        Ctype::Ary(of, _) => Some(of.duplicate()),
        _ => None,
    };
    match elem {
        Some(of) => Node { op: NodeType::Addr(Box::new(base)), ty: Type::ptr_to(of) },
        None => base,
    }
}

/// Exchanges two nodes.
pub fn swap(p: &mut Node, q: &mut Node)
    ensures
        *final(p) == *old(q),
        *final(q) == *old(p),
{
    core::mem::swap(p, q);
}

/// Whether `node` may be assigned to or have its address taken.
pub fn check_lval(node: &Node) -> (b: bool)
    ensures
        b == is_lval(node@),
{
    match &node.op {
        NodeType::Lvar(_) => true,
        NodeType::Gvar(_, _, _) => true,
        NodeType::Deref(_) => true,
        NodeType::Dot(_, _, _) => true,
        _ => false,
    }
}

/// The position of the first member called `name`.
pub fn find_member(members: &Vec<Member>, name: &String) -> (r: Option<usize>)
    ensures
        match r {
            Some(i) => i < members.len() && find_member_spec(members_view(members@), name@) == Some(
                members[i as int]@,
            ),
            None => find_member_spec(members_view(members@), name@) is None,
        },
{
    let ghost all = members_view(members@);
    let mut i: usize = 0;
    proof {
        assert(all.skip(0) == all);
    }
    while i < members.len()
        invariant
            i <= members.len(),
            all == members_view(members@),
            find_member_spec(all, name@) == find_member_spec(all.skip(i as int), name@),
        decreases members.len() - i,
    {
        if members[i].name == *name {
            return Some(i);
        }
        proof {
            assert(all.skip(i as int).drop_first() == all.skip(i as int + 1));
        }
        i += 1;
    }
    None
}

impl Sema {
    /// The scopes are well formed.
    pub open spec fn wf(&self) -> bool {
        self.env.wf()
    }

    /// The state at the start of an analysis: one scope, nothing defined.
    pub fn new() -> (st: Sema)
        ensures
            st.wf(),
            st@ == SemaView::start(),
    {
        let st = Sema { env: Env::new(), stacksize: 0, str_label: 0, globals: Vec::new() };
        assert(vars_view(st.globals@) =~= Seq::<VarView>::empty());
        st
    }
}

impl SemaView {
    /// The state at the start of an analysis: one scope, nothing defined.
    pub open spec fn start() -> SemaView {
        SemaView {
            env: seq![Seq::<VarView>::empty()],
            stacksize: 0,
            str_label: 0,
            globals: Seq::empty(),
        }
    }
}

/// Walks `nodes` from the first to the last.
pub fn walk_list(nodes: &Vec<Node>, st: &mut Sema) -> (r: Result<Vec<Node>, Error>)
    requires
        old(st).wf(),
    ensures
        final(st).wf(),
        walked_list_as(r, final(st)@, walk_list_spec(nodes_view(nodes@), old(st)@)),
        r is Ok ==> final(st)@.env.len() == old(st)@.env.len(),
    decreases nodes, 2nat,
{
    let ghost all = nodes_view(nodes@);
    let mut out: Vec<Node> = Vec::new();
    let mut i: usize = 0;
    proof {
        assert(all.take(0) == Seq::<NodeView>::empty());
        assert(nodes_view(out@) == Seq::<NodeView>::empty());
    }
    while i < nodes.len()
        invariant
            i <= nodes.len(),
            st.wf(),
            all == nodes_view(nodes@),
            walk_list_spec(all.take(i as int), old(st)@) == Ok::<(Seq<NodeView>, SemaView), ErrorView>(
                (nodes_view(out@), st@),
            ),
            st@.env.len() == old(st)@.env.len(),
        decreases nodes.len() - i,
    {
        proof {
            assert(all.take(i as int + 1).drop_last() == all.take(i as int));
            assert(all.take(i as int + 1).last() == nodes[i as int]@);
        }
        match walk(&nodes[i], st, true) {
            Ok(n) => {
                proof {
                    lemma_nodes_view_push(out@, n);
                }
                out.push(n);
            },
            Err(e) => {
                proof {
                    lemma_walk_list_err(all, old(st)@, i as int + 1);
                }
                return Err(e);
            },
        }
        i += 1;
    }
    proof {
        assert(all.take(nodes.len() as int) == all);
    }
    Ok(out)
}

/// A string literal becomes an anonymous global; a name is resolved.
fn walk_name(node: &Node, st: &mut Sema, decay: bool) -> (r: Result<Node, Error>)
    requires
        old(st).wf(),
        node.op is Str || node.op is Ident,
    ensures
        final(st).wf(),
        walked_as(r, final(st)@, walk_spec(node@, old(st)@, decay)),
        r is Ok ==> final(st)@.env.len() == old(st)@.env.len(),
    decreases node, 0nat,
{
    match &node.op {
        NodeType::Str(data, len) => {
            let n = st.str_label;
            if n == usize::MAX {
                return Err(Error::bare(ErrorKind::Overflow));
            }
            let name = str_label_string(n);
            st.str_label = n + 1;
            let var = Var::new_global(node.ty.duplicate(), name.clone(), data.clone(), *len, false);
            proof {
                assert(vars_view(st.globals@.push(var)) =~= vars_view(st.globals@).push(var@));
            }
            st.globals.push(var);
            let ret = Node { op: NodeType::Gvar(name, String::new(), *len), ty: node.ty.duplicate() };
            Ok(maybe_decay(ret, decay))
        },
        NodeType::Ident(name) => {
            match st.env.find(name) {
                Some(var) => {
                    let ret = match &var.scope {
                        Scope::Local(offset) => Node {
                            op: NodeType::Lvar(Scope::Local(*offset)),
                            ty: var.ty.duplicate(),
                        },
                        Scope::Global(data, len, _) => Node {
                            op: NodeType::Gvar(var.name.clone(), data.clone(), *len),
                            ty: var.ty.duplicate(),
                        },
                    };
                    Ok(maybe_decay(ret, decay))
                },
                None => Err(Error::named(ErrorKind::UndefinedVariable, name)),
            }
        },
        _ => Err(Error::bare(ErrorKind::UnknownNode)),
    }
}

/// A local definition gets its place in the frame and is entered in the
/// current scope before its initializer is walked.
fn walk_vardef(node: &Node, st: &mut Sema, decay: bool) -> (r: Result<Node, Error>)
    requires
        old(st).wf(),
        node.op is Vardef,
    ensures
        final(st).wf(),
        walked_as(r, final(st)@, walk_spec(node@, old(st)@, decay)),
        r is Ok ==> final(st)@.env.len() == old(st)@.env.len(),
    decreases node, 0nat,
{
    match &node.op {
        NodeType::Vardef(name, init, _) => {
            let aligned = match roundup(st.stacksize, node.ty.align) {
                Some(a) => a,
                None => {
                    return Err(Error::bare(ErrorKind::Overflow));
                },
            };
            let offset = match aligned.checked_add(node.ty.size) {
                Some(o) => o,
                None => {
                    return Err(Error::bare(ErrorKind::Overflow));
                },
            };
            st.stacksize = offset;
            st.env.insert(Var::new(node.ty.duplicate(), name.clone(), Scope::Local(offset)));
            assert(node@.op == NodeTypeView::Vardef(name@, opt_node_view(*init), node.op->Vardef_2@));
            let init1 = match init {
                Some(e) => Some(Box::new(walk(e, st, true)?)),
                None => None,
            };
            assert(opt_node_view(init1) == match init1 {
                Some(b) => Some(Box::new(b@)),
                None => None,
            });
            Ok(
                Node {
                    op: NodeType::Vardef(name.clone(), init1, Scope::Local(offset)),
                    ty: node.ty.duplicate(),
                },
            )
        },
        _ => Err(Error::bare(ErrorKind::UnknownNode)),
    }
}

/// `if` and `?:`.
fn walk_branch(node: &Node, st: &mut Sema, decay: bool) -> (r: Result<Node, Error>)
    requires
        old(st).wf(),
        node.op is If || node.op is Ternary,
    ensures
        final(st).wf(),
        walked_as(r, final(st)@, walk_spec(node@, old(st)@, decay)),
        r is Ok ==> final(st)@.env.len() == old(st)@.env.len(),
    decreases node, 0nat,
{
    match &node.op {
        NodeType::If(cond, then, els) => {
            assert(node@.op == NodeTypeView::If(
                Box::new(cond@),
                Box::new(then@),
                opt_node_view(*els),
            ));
            let c1 = walk(cond, st, true)?;
            let t1 = walk(then, st, true)?;
            let e1 = match els {
                Some(e) => Some(Box::new(walk(e, st, true)?)),
                None => None,
            };
            assert(opt_node_view(e1) == match e1 {
                Some(b) => Some(Box::new(b@)),
                None => None,
            });
            Ok(Node { op: NodeType::If(Box::new(c1), Box::new(t1), e1), ty: node.ty.duplicate() })
        },
        NodeType::Ternary(cond, then, els) => {
            let c1 = walk(cond, st, true)?;
            let t1 = walk(then, st, true)?;
            let e1 = walk(els, st, true)?;
            let ty = t1.ty.duplicate();
            Ok(Node { op: NodeType::Ternary(Box::new(c1), Box::new(t1), Box::new(e1)), ty })
        },
        _ => Err(Error::bare(ErrorKind::UnknownNode)),
    }
}

/// `for` and `do`.
fn walk_loop(node: &Node, st: &mut Sema, decay: bool) -> (r: Result<Node, Error>)
    requires
        old(st).wf(),
        node.op is For || node.op is DoWhile,
    ensures
        final(st).wf(),
        walked_as(r, final(st)@, walk_spec(node@, old(st)@, decay)),
        r is Ok ==> final(st)@.env.len() == old(st)@.env.len(),
    decreases node, 0nat,
{
    match &node.op {
        NodeType::For(init, cond, inc, body) => {
            let i1 = walk(init, st, true)?;
            let c1 = walk(cond, st, true)?;
            let n1 = walk(inc, st, true)?;
            let b1 = walk(body, st, true)?;
            Ok(
                Node {
                    op: NodeType::For(Box::new(i1), Box::new(c1), Box::new(n1), Box::new(b1)),
                    ty: node.ty.duplicate(),
                },
            )
        },
        NodeType::DoWhile(body, cond) => {
            let b1 = walk(body, st, true)?;
            let c1 = walk(cond, st, true)?;
            Ok(Node { op: NodeType::DoWhile(Box::new(b1), Box::new(c1)), ty: node.ty.duplicate() })
        },
        _ => Err(Error::bare(ErrorKind::UnknownNode)),
    }
}

/// A member access takes the member's type and offset.
fn walk_dot(node: &Node, st: &mut Sema, decay: bool) -> (r: Result<Node, Error>)
    requires
        old(st).wf(),
        node.op is Dot,
    ensures
        final(st).wf(),
        walked_as(r, final(st)@, walk_spec(node@, old(st)@, decay)),
        r is Ok ==> final(st)@.env.len() == old(st)@.env.len(),
    decreases node, 0nat,
{
    match &node.op {
        NodeType::Dot(expr, name, _) => {
            let e1 = walk(expr, st, true)?;
            let found = match &e1.ty.ty {
                Ctype::Struct(members) => match find_member(members, name) {
                    Some(i) => Ok((members[i].ty.duplicate(), members[i].offset)),
                    None => Err(Error::named(ErrorKind::MemberMissing, name)),
                },
                _ => Err(Error::bare(ErrorKind::StructExpected)),
            };
            match found {
                Ok((ty, offset)) => Ok(
                    maybe_decay(
                        Node { op: NodeType::Dot(Box::new(e1), name.clone(), offset), ty },
                        decay,
                    ),
                ),
                Err(e) => Err(e),
            }
        },
        _ => Err(Error::bare(ErrorKind::UnknownNode)),
    }
}

/// A binary operation. An assignment needs an lvalue on its left; in a
/// sum or difference the pointer, if there is one, goes to the left.
fn walk_binop(node: &Node, st: &mut Sema, decay: bool) -> (r: Result<Node, Error>)
    requires
        old(st).wf(),
        node.op is BinOp,
    ensures
        final(st).wf(),
        walked_as(r, final(st)@, walk_spec(node@, old(st)@, decay)),
        r is Ok ==> final(st)@.env.len() == old(st)@.env.len(),
    decreases node, 0nat,
{
    match &node.op {
        NodeType::BinOp(op, lhs, rhs) => {
            if *op == TokenType::Equal {
                let l1 = walk(lhs, st, false)?;
                if !check_lval(&l1) {
                    return Err(Error::bare(ErrorKind::NotAnLvalue));
                }
                let r1 = walk(rhs, st, true)?;
                let ty = l1.ty.duplicate();
                Ok(Node { op: NodeType::BinOp(*op, Box::new(l1), Box::new(r1)), ty })
            } else {
                let mut l1 = walk(lhs, st, true)?;
                let mut r1 = walk(rhs, st, true)?;
                if *op == TokenType::Plus || *op == TokenType::Minus {
                    if r1.ty.is_ptr() {
                        swap(&mut l1, &mut r1);
                    }
                    if r1.ty.is_ptr() {
                        return Err(Error::bare(ErrorKind::PointerArithmetic));
                    }
                    let ty = l1.ty.duplicate();
                    Ok(Node { op: NodeType::BinOp(*op, Box::new(l1), Box::new(r1)), ty })
                } else {
                    let ty = l1.ty.duplicate();
                    Ok(Node { op: NodeType::BinOp(*op, Box::new(l1), Box::new(r1)), ty })
                }
            }
        },
        _ => Err(Error::bare(ErrorKind::UnknownNode)),
    }
}

/// Increments and decrements.
fn walk_step(node: &Node, st: &mut Sema, decay: bool) -> (r: Result<Node, Error>)
    requires
        old(st).wf(),
        node.op is PreInc || node.op is PreDec || node.op is PostInc || node.op is PostDec,
    ensures
        final(st).wf(),
        walked_as(r, final(st)@, walk_spec(node@, old(st)@, decay)),
        r is Ok ==> final(st)@.env.len() == old(st)@.env.len(),
    decreases node, 0nat,
{
    match &node.op {
        NodeType::PreInc(expr) => {
            let e1 = walk(expr, st, true)?;
            Ok(Node { op: NodeType::PreInc(Box::new(e1)), ty: node.ty.duplicate() })
        },
        NodeType::PreDec(expr) => {
            let e1 = walk(expr, st, true)?;
            Ok(Node { op: NodeType::PreDec(Box::new(e1)), ty: node.ty.duplicate() })
        },
        NodeType::PostInc(expr) => {
            let e1 = walk(expr, st, true)?;
            Ok(Node { op: NodeType::PostInc(Box::new(e1)), ty: node.ty.duplicate() })
        },
        NodeType::PostDec(expr) => {
            let e1 = walk(expr, st, true)?;
            Ok(Node { op: NodeType::PostDec(Box::new(e1)), ty: node.ty.duplicate() })
        },
        _ => Err(Error::bare(ErrorKind::UnknownNode)),
    }
}

/// Nodes with one operand that is walked as a value.
fn walk_unary(node: &Node, st: &mut Sema, decay: bool) -> (r: Result<Node, Error>)
    requires
        old(st).wf(),
        node.op is Neg || node.op is Exclamation || node.op is Return || node.op is ExprStmt || node.op is StmtExpr,
    ensures
        final(st).wf(),
        walked_as(r, final(st)@, walk_spec(node@, old(st)@, decay)),
        r is Ok ==> final(st)@.env.len() == old(st)@.env.len(),
    decreases node, 0nat,
{
    match &node.op {
        NodeType::Neg(expr) => {
            let e1 = walk(expr, st, true)?;
            Ok(Node { op: NodeType::Neg(Box::new(e1)), ty: node.ty.duplicate() })
        },
        NodeType::Exclamation(expr) => {
            let e1 = walk(expr, st, true)?;
            Ok(Node { op: NodeType::Exclamation(Box::new(e1)), ty: node.ty.duplicate() })
        },
        NodeType::Return(expr) => {
            let e1 = walk(expr, st, true)?;
            Ok(Node { op: NodeType::Return(Box::new(e1)), ty: node.ty.duplicate() })
        },
        NodeType::ExprStmt(expr) => {
            let e1 = walk(expr, st, true)?;
            Ok(Node { op: NodeType::ExprStmt(Box::new(e1)), ty: node.ty.duplicate() })
        },
        NodeType::StmtExpr(body) => {
            let b1 = walk(body, st, true)?;
            Ok(Node { op: NodeType::StmtExpr(Box::new(b1)), ty: Type::int_ty() })
        },
        _ => Err(Error::bare(ErrorKind::UnknownNode)),
    }
}

/// `&` needs an lvalue and gives a pointer to its type; `*` needs a
/// pointer, not to void, and gives what it points to.
fn walk_pointer(node: &Node, st: &mut Sema, decay: bool) -> (r: Result<Node, Error>)
    requires
        old(st).wf(),
        node.op is Addr || node.op is Deref,
    ensures
        final(st).wf(),
        walked_as(r, final(st)@, walk_spec(node@, old(st)@, decay)),
        r is Ok ==> final(st)@.env.len() == old(st)@.env.len(),
    decreases node, 0nat,
{
    match &node.op {
        NodeType::Addr(expr) => {
            let e1 = walk(expr, st, true)?;
            if !check_lval(&e1) {
                return Err(Error::bare(ErrorKind::NotAnLvalue));
            }
            let ty = Type::ptr_to(e1.ty.duplicate());
            Ok(Node { op: NodeType::Addr(Box::new(e1)), ty })
        },
        NodeType::Deref(expr) => {
            let e1 = walk(expr, st, true)?;
            let pointee = match &e1.ty.ty {
                Ctype::Ptr(to) => match &to.ty {
                    Ctype::Void => Err(Error::bare(ErrorKind::DerefVoid)),
                    _ => Ok(to.duplicate()),
                },
                Ctype::Void => Err(Error::bare(ErrorKind::DerefVoid)),
                _ => Err(Error::bare(ErrorKind::DerefNonPointer)),
            };
            match pointee {
                Ok(ty) => Ok(Node { op: NodeType::Deref(Box::new(e1)), ty }),
                Err(e) => Err(e),
            }
        },
        _ => Err(Error::bare(ErrorKind::UnknownNode)),
    }
}

/// `sizeof` and `_Alignof` become the literal they stand for.
fn walk_measure(node: &Node, st: &mut Sema, decay: bool) -> (r: Result<Node, Error>)
    requires
        old(st).wf(),
        node.op is Sizeof || node.op is Alignof,
    ensures
        final(st).wf(),
        walked_as(r, final(st)@, walk_spec(node@, old(st)@, decay)),
        r is Ok ==> final(st)@.env.len() == old(st)@.env.len(),
    decreases node, 0nat,
{
    match &node.op {
        NodeType::Sizeof(expr) => {
            let e1 = walk(expr, st, false)?;
            if e1.ty.size > i32::MAX as usize {
                return Err(Error::bare(ErrorKind::Overflow));
            }
            Ok(Node::int_ty(e1.ty.size as i32))
        },
        NodeType::Alignof(expr) => {
            let e1 = walk(expr, st, false)?;
            if e1.ty.align > i32::MAX as usize {
                return Err(Error::bare(ErrorKind::Overflow));
            }
            Ok(Node::int_ty(e1.ty.align as i32))
        },
        _ => Err(Error::bare(ErrorKind::UnknownNode)),
    }
}

/// Nodes that hold a list of nodes. A block opens a scope around its
/// statements.
fn walk_seq(node: &Node, st: &mut Sema, decay: bool) -> (r: Result<Node, Error>)
    requires
        old(st).wf(),
        node.op is Call || node.op is Func || node.op is CompStmt || node.op is VecStmt,
    ensures
        final(st).wf(),
        walked_as(r, final(st)@, walk_spec(node@, old(st)@, decay)),
        r is Ok ==> final(st)@.env.len() == old(st)@.env.len(),
    decreases node, 0nat,
{
    match &node.op {
        NodeType::Call(name, args) => {
            let args1 = walk_list(args, st)?;
            Ok(Node { op: NodeType::Call(name.clone(), args1), ty: node.ty.duplicate() })
        },
        NodeType::Func(name, args, body, stacksize) => {
            let args1 = walk_list(args, st)?;
            let b1 = walk(body, st, true)?;
            Ok(
                Node {
                    op: NodeType::Func(name.clone(), args1, Box::new(b1), *stacksize),
                    ty: node.ty.duplicate(),
                },
            )
        },
        NodeType::CompStmt(stmts) => {
            st.env.enter();
            let stmts1 = walk_list(stmts, st)?;
            st.env.leave();
            Ok(Node { op: NodeType::CompStmt(stmts1), ty: node.ty.duplicate() })
        },
        NodeType::VecStmt(stmts) => {
            let stmts1 = walk_list(stmts, st)?;
            Ok(Node { op: NodeType::VecStmt(stmts1), ty: node.ty.duplicate() })
        },
        _ => Err(Error::bare(ErrorKind::UnknownNode)),
    }
}

/// Resolves and types `node`. `decay` says whether an array that the node
/// denotes is to be converted to a pointer to its first element.
pub fn walk(node: &Node, st: &mut Sema, decay: bool) -> (r: Result<Node, Error>)
    requires
        old(st).wf(),
    ensures
        final(st).wf(),
        walked_as(r, final(st)@, walk_spec(node@, old(st)@, decay)),
        r is Ok ==> final(st)@.env.len() == old(st)@.env.len(),
    decreases node, 1nat,
{
    match &node.op {
        NodeType::Num(val) => Ok(Node { op: NodeType::Num(*val), ty: Type::int_ty() }),
        NodeType::Str(_, _) | NodeType::Ident(_) => walk_name(node, st, decay),
        NodeType::Vardef(_, _, _) => walk_vardef(node, st, decay),
        NodeType::If(_, _, _) | NodeType::Ternary(_, _, _) => walk_branch(node, st, decay),
        NodeType::For(_, _, _, _) | NodeType::DoWhile(_, _) => walk_loop(node, st, decay),
        NodeType::Dot(_, _, _) => walk_dot(node, st, decay),
        NodeType::BinOp(_, _, _) => walk_binop(node, st, decay),
        NodeType::PreInc(_) | NodeType::PreDec(_) | NodeType::PostInc(_) | NodeType::PostDec(_) => {
            walk_step(node, st, decay)
        },
        NodeType::Neg(_) | NodeType::Exclamation(_) | NodeType::Return(_) | NodeType::ExprStmt(_)
        | NodeType::StmtExpr(_) => walk_unary(node, st, decay),
        NodeType::Addr(_) | NodeType::Deref(_) => walk_pointer(node, st, decay),
        NodeType::Sizeof(_) | NodeType::Alignof(_) => walk_measure(node, st, decay),
        NodeType::Call(_, _) | NodeType::Func(_, _, _, _) | NodeType::CompStmt(_)
        | NodeType::VecStmt(_) => walk_seq(node, st, decay),
        NodeType::Null => Ok(Node { op: NodeType::Null, ty: node.ty.duplicate() }),
        NodeType::Lvar(_) | NodeType::Gvar(_, _, _) | NodeType::Break => Err(
            Error::bare(ErrorKind::UnknownNode),
        ),
    }
}

/// The function node `n` with its frame size set to `size`.
pub open spec fn with_frame_size(n: NodeView, size: usize) -> NodeView {
    match n.op {
        NodeTypeView::Func(name, args, body, _) => NodeView {
            op: NodeTypeView::Func(name, args, body, size),
            ty: n.ty,
        },
        _ => n,
    }
}

/// What one top-level item gives.
///
/// A global variable is entered in the table of globals and in the
/// outermost scope, and leaves no node. A function is walked in a scope of
/// its own, with the stack-size cursor at zero; what the cursor has reached
/// after the walk is the function's frame size. Anything else is an error.
pub open spec fn sema_item_spec(node: NodeView, st: SemaView) -> Result<
    (Option<NodeView>, SemaView),
    ErrorView,
> {
    match node.op {
        NodeTypeView::Vardef(name, _, ScopeView::Global(data, len, is_extern)) => {
            let var = VarView::new_global(node.ty, name, data, len, is_extern);
            Ok((None, SemaView { globals: st.globals.push(var), env: env_insert(st.env, var), ..st }))
        },
        NodeTypeView::Func(_, _, _, _) => match walk_spec(
            node,
            SemaView { stacksize: 0, env: st.env.push(Seq::empty()), ..st },
            true,
        ) {
            Err(err) => Err(err),
            Ok((n, st1)) => Ok(
                (
                    Some(with_frame_size(n, st1.stacksize)),
                    SemaView { env: st1.env.drop_last(), ..st1 },
                ),
            ),
        },
        _ => Err(ErrorView::bare(ErrorKind::NotAFunction)),
    }
}

/// What the top-level items `nodes` give, taken from the first to the
/// last: the typed functions, in order, and the state after the last item.
pub open spec fn sema_items_spec(nodes: Seq<NodeView>, st: SemaView) -> WalkedList
    decreases nodes.len(),
{
    if nodes.len() == 0 {
        Ok((Seq::empty(), st))
    } else {
        match sema_items_spec(nodes.drop_last(), st) {
            Err(err) => Err(err),
            Ok((done, st1)) => match sema_item_spec(nodes.last(), st1) {
                Err(err) => Err(err),
                Ok((Some(n), st2)) => Ok((done.push(n), st2)),
                Ok((None, st2)) => Ok((done, st2)),
            },
        }
    }
}

/// The result of the analysis of a translation unit: its functions, typed
/// and resolved, and its global variables, string literals included, in
/// the order in which they were met.
pub open spec fn sema_spec(nodes: Seq<NodeView>) -> Result<
    (Seq<NodeView>, Seq<VarView>),
    ErrorView,
> {
    match sema_items_spec(nodes, SemaView::start()) {
        Err(err) => Err(err),
        Ok((funcs, st)) => Ok((funcs, st.globals)),
    }
}

/// An error among the first `k` items is the error of the whole unit.
pub proof fn lemma_sema_items_err(nodes: Seq<NodeView>, st: SemaView, k: int)
    requires
        0 <= k <= nodes.len(),
        sema_items_spec(nodes.take(k), st) is Err,
    ensures
        sema_items_spec(nodes, st) == sema_items_spec(nodes.take(k), st),
    decreases nodes.len() - k,
{
    if k < nodes.len() {
        assert(nodes.take(k + 1).drop_last() == nodes.take(k));
        lemma_sema_items_err(nodes, st, k + 1);
    } else {
        assert(nodes.take(k) == nodes);
    }
}

/// Analyzes one top-level item.
pub fn sema_item(node: &Node, st: &mut Sema) -> (r: Result<Option<Node>, Error>)
    requires
        old(st).wf(),
    ensures
        final(st).wf(),
        match sema_item_spec(node@, old(st)@) {
            Ok((n, s)) => r matches Ok(rn) && final(st)@ == s && match n {
                Some(n) => rn matches Some(x) && x@ == n,
                None => rn is None,
            },
            Err(e) => r matches Err(re) && re@ == e,
        },
{
    match &node.op {
        NodeType::Vardef(name, _, Scope::Global(data, len, is_extern)) => {
            let var = Var::new_global(
                node.ty.duplicate(),
                name.clone(),
                data.clone(),
                *len,
                *is_extern,
            );
            proof {
                assert(vars_view(st.globals@.push(var)) =~= vars_view(st.globals@).push(var@));
            }
            st.env.insert(var.clone());
            st.globals.push(var);
            Ok(None)
        },
        NodeType::Func(_, _, _, _) => {
            st.stacksize = 0;
            st.env.enter();
            let walked = walk(node, st, true)?;
            st.env.leave();
            let size = st.stacksize;
            let func = match walked.op {
                NodeType::Func(name, args, body, _) => Node {
                    op: NodeType::Func(name, args, body, size),
                    ty: walked.ty,
                },
                op => Node { op, ty: walked.ty },
            };
            Ok(Some(func))
        },
        _ => Err(Error::bare(ErrorKind::NotAFunction)),
    }
}

/// Analyzes a translation unit: resolves names, types expressions, lays
/// out the stack frames. Returns the functions, typed and resolved, and
/// the global variables.
pub fn sema(nodes: Vec<Node>) -> (r: Result<(Vec<Node>, Vec<Var>), Error>)
    ensures
        match sema_spec(nodes_view(nodes@)) {
            Ok((funcs, globals)) => r matches Ok((rf, rg)) && nodes_view(rf@) == funcs && vars_view(
                rg@,
            ) == globals,
            Err(e) => r matches Err(re) && re@ == e,
        },
{
    let ghost all = nodes_view(nodes@);
    let mut st = Sema::new();
    let mut out: Vec<Node> = Vec::new();
    let mut i: usize = 0;
    proof {
        assert(all.take(0) == Seq::<NodeView>::empty());
        assert(nodes_view(out@) == Seq::<NodeView>::empty());
    }
    while i < nodes.len()
        invariant
            i <= nodes.len(),
            st.wf(),
            all == nodes_view(nodes@),
            sema_items_spec(all.take(i as int), SemaView::start()) == Ok::<
                (Seq<NodeView>, SemaView),
                ErrorView,
            >((nodes_view(out@), st@)),
        decreases nodes.len() - i,
    {
        proof {
            assert(all.take(i as int + 1).drop_last() == all.take(i as int));
            assert(all.take(i as int + 1).last() == nodes[i as int]@);
        }
        match sema_item(&nodes[i], &mut st) {
            Ok(Some(n)) => {
                proof {
                    lemma_nodes_view_push(out@, n);
                }
                out.push(n);
            },
            Ok(None) => {},
            Err(e) => {
                proof {
                    lemma_sema_items_err(all, SemaView::start(), i as int + 1);
                }
                return Err(e);
            },
        }
        i += 1;
    }
    proof {
        assert(all.take(nodes.len() as int) == all);
    }
    Ok((out, st.globals))
}

} // verus!
