//! The syntax tree that the parser hands to the semantic analyzer, and that
//! the analyzer hands, typed and resolved, to the code generator.

use vstd::prelude::*;
use crate::token::TokenType;
use crate::types::Scope;
use crate::types::ScopeView;
use crate::types::Type;
use crate::types::TypeView;

verus! {

/// The form of a node, with its operands.
#[derive(Debug, PartialEq, Eq)]
pub enum NodeType {
    /// A numeric literal.
    Num(i32),
    /// A string literal: its bytes and their number.
    Str(String, usize),
    /// A name that is not yet resolved.
    Ident(String),
    /// A variable definition: name, initializer, storage.
    Vardef(String, Option<Box<Node>>, Scope),
    /// A resolved local variable.
    Lvar(Scope),
    /// A resolved global variable: name, initial bytes, their number.
    Gvar(String, String, usize),
    /// A binary operation; the operator is given by its token.
    BinOp(TokenType, Box<Node>, Box<Node>),
    /// `if (cond) then else els`.
    If(Box<Node>, Box<Node>, Option<Box<Node>>),
    /// `cond ? then : els`.
    Ternary(Box<Node>, Box<Node>, Box<Node>),
    /// `for (init; cond; inc) body`.
    For(Box<Node>, Box<Node>, Box<Node>, Box<Node>),
    /// `do body while (cond)`.
    DoWhile(Box<Node>, Box<Node>),
    /// `&expr`.
    Addr(Box<Node>),
    /// `*expr`.
    Deref(Box<Node>),
    /// `expr.name`, with the member's offset once resolved.
    Dot(Box<Node>, String, usize),
    /// `!expr`.
    Exclamation(Box<Node>),
    /// `-expr`.
    Neg(Box<Node>),
    PostInc(Box<Node>),
    PostDec(Box<Node>),
    PreInc(Box<Node>),
    PreDec(Box<Node>),
    Return(Box<Node>),
    Sizeof(Box<Node>),
    Alignof(Box<Node>),
    /// A call: callee and arguments.
    Call(String, Vec<Node>),
    /// A function definition: name, parameters, body, frame size.
    Func(String, Vec<Node>, Box<Node>, usize),
    /// A block, which opens a scope.
    CompStmt(Vec<Node>),
    /// A list of statements in the enclosing scope.
    VecStmt(Vec<Node>),
    /// An expression evaluated for its effect.
    ExprStmt(Box<Node>),
    /// A statement used as an expression.
    StmtExpr(Box<Node>),
    Break,
    /// The empty statement.
    Null,
}

/// A node of the syntax tree, with its type.
#[derive(Debug, PartialEq, Eq)]
pub struct Node {
    pub op: NodeType,
    pub ty: Type,
}

/// The mathematical value of a [`NodeType`].
pub ghost enum NodeTypeView {
    Num(i32),
    Str(Seq<char>, usize),
    Ident(Seq<char>),
    Vardef(Seq<char>, Option<Box<NodeView>>, ScopeView),
    Lvar(ScopeView),
    Gvar(Seq<char>, Seq<char>, usize),
    BinOp(TokenType, Box<NodeView>, Box<NodeView>),
    If(Box<NodeView>, Box<NodeView>, Option<Box<NodeView>>),
    Ternary(Box<NodeView>, Box<NodeView>, Box<NodeView>),
    For(Box<NodeView>, Box<NodeView>, Box<NodeView>, Box<NodeView>),
    DoWhile(Box<NodeView>, Box<NodeView>),
    Addr(Box<NodeView>),
    Deref(Box<NodeView>),
    Dot(Box<NodeView>, Seq<char>, usize),
    Exclamation(Box<NodeView>),
    Neg(Box<NodeView>),
    PostInc(Box<NodeView>),
    PostDec(Box<NodeView>),
    PreInc(Box<NodeView>),
    PreDec(Box<NodeView>),
    Return(Box<NodeView>),
    Sizeof(Box<NodeView>),
    Alignof(Box<NodeView>),
    Call(Seq<char>, Seq<NodeView>),
    Func(Seq<char>, Seq<NodeView>, Box<NodeView>, usize),
    CompStmt(Seq<NodeView>),
    VecStmt(Seq<NodeView>),
    ExprStmt(Box<NodeView>),
    StmtExpr(Box<NodeView>),
    Break,
    Null,
}

/// The mathematical value of a [`Node`].
pub ghost struct NodeView {
    pub op: NodeTypeView,
    pub ty: TypeView,
}

/// The mathematical value of a node.
pub open spec fn node_view(n: Node) -> NodeView
    decreases n,
{
    NodeView { op: node_type_view(n.op), ty: n.ty@ }
}

/// The mathematical value of a node that may be absent.
pub open spec fn opt_node_view(n: Option<Box<Node>>) -> Option<Box<NodeView>>
    decreases n,
{
    match n {
        Some(b) => Some(Box::new(node_view(*b))),
        None => None,
    }
}

/// The nodes of a vector, as mathematical values.
pub open spec fn nodes_view(nodes: Seq<Node>) -> Seq<NodeView>
    decreases nodes,
{
    Seq::new(
        nodes.len(),
        |i: int|
            if 0 <= i < nodes.len() {
                node_view(nodes[i])
            } else {
                arbitrary()
            },
    )
}

/// The mathematical value of the form of a node.
pub open spec fn node_type_view(op: NodeType) -> NodeTypeView
    decreases op,
{
    match op {
        NodeType::Num(val) => NodeTypeView::Num(val),
        NodeType::Str(data, len) => NodeTypeView::Str(data@, len),
        NodeType::Ident(name) => NodeTypeView::Ident(name@),
        NodeType::Vardef(name, init, scope) => NodeTypeView::Vardef(
            name@,
            opt_node_view(init),
            scope@,
        ),
        NodeType::Lvar(scope) => NodeTypeView::Lvar(scope@),
        NodeType::Gvar(name, data, len) => NodeTypeView::Gvar(name@, data@, len),
        NodeType::BinOp(op, lhs, rhs) => NodeTypeView::BinOp(
            op,
            Box::new(node_view(*lhs)),
            Box::new(node_view(*rhs)),
        ),
        NodeType::If(cond, then, els) => NodeTypeView::If(
            Box::new(node_view(*cond)),
            Box::new(node_view(*then)),
            opt_node_view(els),
        ),
        NodeType::Ternary(cond, then, els) => NodeTypeView::Ternary(
            Box::new(node_view(*cond)),
            Box::new(node_view(*then)),
            Box::new(node_view(*els)),
        ),
        NodeType::For(init, cond, inc, body) => NodeTypeView::For(
            Box::new(node_view(*init)),
            Box::new(node_view(*cond)),
            Box::new(node_view(*inc)),
            Box::new(node_view(*body)),
        ),
        NodeType::DoWhile(body, cond) => NodeTypeView::DoWhile(
            Box::new(node_view(*body)),
            Box::new(node_view(*cond)),
        ),
        NodeType::Addr(expr) => NodeTypeView::Addr(Box::new(node_view(*expr))),
        NodeType::Deref(expr) => NodeTypeView::Deref(Box::new(node_view(*expr))),
        NodeType::Dot(expr, name, offset) => NodeTypeView::Dot(
            Box::new(node_view(*expr)),
            name@,
            offset,
        ),
        NodeType::Exclamation(expr) => NodeTypeView::Exclamation(Box::new(node_view(*expr))),
        NodeType::Neg(expr) => NodeTypeView::Neg(Box::new(node_view(*expr))),
        NodeType::PostInc(expr) => NodeTypeView::PostInc(Box::new(node_view(*expr))),
        NodeType::PostDec(expr) => NodeTypeView::PostDec(Box::new(node_view(*expr))),
        NodeType::PreInc(expr) => NodeTypeView::PreInc(Box::new(node_view(*expr))),
        NodeType::PreDec(expr) => NodeTypeView::PreDec(Box::new(node_view(*expr))),
        NodeType::Return(expr) => NodeTypeView::Return(Box::new(node_view(*expr))),
        NodeType::Sizeof(expr) => NodeTypeView::Sizeof(Box::new(node_view(*expr))),
        NodeType::Alignof(expr) => NodeTypeView::Alignof(Box::new(node_view(*expr))),
        NodeType::Call(name, args) => NodeTypeView::Call(name@, nodes_view(args@)),
        NodeType::Func(name, args, body, stacksize) => NodeTypeView::Func(
            name@,
            nodes_view(args@),
            Box::new(node_view(*body)),
            stacksize,
        ),
        NodeType::CompStmt(stmts) => NodeTypeView::CompStmt(nodes_view(stmts@)),
        NodeType::VecStmt(stmts) => NodeTypeView::VecStmt(nodes_view(stmts@)),
        NodeType::ExprStmt(expr) => NodeTypeView::ExprStmt(Box::new(node_view(*expr))),
        NodeType::StmtExpr(expr) => NodeTypeView::StmtExpr(Box::new(node_view(*expr))),
        NodeType::Break => NodeTypeView::Break,
        NodeType::Null => NodeTypeView::Null,
    }
}

impl View for Node {
    type V = NodeView;

    open spec fn view(&self) -> NodeView {
        node_view(*self)
    }
}

impl View for NodeType {
    type V = NodeTypeView;

    open spec fn view(&self) -> NodeTypeView {
        node_type_view(*self)
    }
}

impl NodeView {
    /// A node of the given form, typed `int` until the analyzer knows better.
    pub open spec fn new(op: NodeTypeView) -> NodeView {
        NodeView { op, ty: TypeView::int_ty() }
    }

    /// The literal `val`.
    pub open spec fn int_ty(val: i32) -> NodeView {
        NodeView::new(NodeTypeView::Num(val))
    }
}

impl Node {
    /// A node of the given form, typed `int` until the analyzer knows better.
    pub fn new(op: NodeType) -> (n: Node)
        ensures
            n.op == op,
            n@ == NodeView::new(op@),
    {
        Node { op, ty: Type::int_ty() }
    }

    /// The literal `val`.
    pub fn int_ty(val: i32) -> (n: Node)
        ensures
            n@ == NodeView::int_ty(val),
    {
        Node::new(NodeType::Num(val))
    }
}

impl Node {
    /// A copy of this node and of everything below it.
    pub fn duplicate(&self) -> (n: Node)
        ensures
            n@ == self@,
        decreases self, 1nat,
    {
        let op = match &self.op {
            NodeType::Num(val) => NodeType::Num(*val),
            NodeType::Str(data, len) => NodeType::Str(data.clone(), *len),
            NodeType::Ident(name) => NodeType::Ident(name.clone()),
            NodeType::Vardef(name, init, scope) => {
                let init1 = match init {
                    Some(e) => Some(Box::new(e.duplicate())),
                    None => None,
                };
                assert(opt_node_view(init1) == opt_node_view(*init));
                NodeType::Vardef(name.clone(), init1, scope.clone())
            },
            NodeType::Lvar(scope) => NodeType::Lvar(scope.clone()),
            NodeType::Gvar(name, data, len) => NodeType::Gvar(name.clone(), data.clone(), *len),
            NodeType::BinOp(op, lhs, rhs) => NodeType::BinOp(
                *op,
                Box::new(lhs.duplicate()),
                Box::new(rhs.duplicate()),
            ),
            NodeType::If(cond, then, els) => {
                let els1 = match els {
                    Some(e) => Some(Box::new(e.duplicate())),
                    None => None,
                };
                assert(opt_node_view(els1) == opt_node_view(*els));
                NodeType::If(Box::new(cond.duplicate()), Box::new(then.duplicate()), els1)
            },
            NodeType::Ternary(cond, then, els) => NodeType::Ternary(
                Box::new(cond.duplicate()),
                Box::new(then.duplicate()),
                Box::new(els.duplicate()),
            ),
            NodeType::For(init, cond, inc, body) => NodeType::For(
                Box::new(init.duplicate()),
                Box::new(cond.duplicate()),
                Box::new(inc.duplicate()),
                Box::new(body.duplicate()),
            ),
            NodeType::DoWhile(body, cond) => NodeType::DoWhile(
                Box::new(body.duplicate()),
                Box::new(cond.duplicate()),
            ),
            NodeType::Addr(expr) => NodeType::Addr(Box::new(expr.duplicate())),
            NodeType::Deref(expr) => NodeType::Deref(Box::new(expr.duplicate())),
            NodeType::Dot(expr, name, offset) => NodeType::Dot(
                Box::new(expr.duplicate()),
                name.clone(),
                *offset,
            ),
            NodeType::Exclamation(expr) => NodeType::Exclamation(Box::new(expr.duplicate())),
            NodeType::Neg(expr) => NodeType::Neg(Box::new(expr.duplicate())),
            NodeType::PostInc(expr) => NodeType::PostInc(Box::new(expr.duplicate())),
            NodeType::PostDec(expr) => NodeType::PostDec(Box::new(expr.duplicate())),
            NodeType::PreInc(expr) => NodeType::PreInc(Box::new(expr.duplicate())),
            NodeType::PreDec(expr) => NodeType::PreDec(Box::new(expr.duplicate())),
            NodeType::Return(expr) => NodeType::Return(Box::new(expr.duplicate())),
            NodeType::Sizeof(expr) => NodeType::Sizeof(Box::new(expr.duplicate())),
            NodeType::Alignof(expr) => NodeType::Alignof(Box::new(expr.duplicate())),
            NodeType::Call(name, args) => NodeType::Call(name.clone(), duplicate_nodes(args)),
            NodeType::Func(name, args, body, stacksize) => NodeType::Func(
                name.clone(),
                duplicate_nodes(args),
                Box::new(body.duplicate()),
                *stacksize,
            ),
            NodeType::CompStmt(stmts) => NodeType::CompStmt(duplicate_nodes(stmts)),
            NodeType::VecStmt(stmts) => NodeType::VecStmt(duplicate_nodes(stmts)),
            NodeType::ExprStmt(expr) => NodeType::ExprStmt(Box::new(expr.duplicate())),
            NodeType::StmtExpr(expr) => NodeType::StmtExpr(Box::new(expr.duplicate())),
            NodeType::Break => NodeType::Break,
            NodeType::Null => NodeType::Null,
        };
        Node { op, ty: self.ty.duplicate() }
    }
}

/// A copy of a vector of nodes.
pub fn duplicate_nodes(nodes: &Vec<Node>) -> (v: Vec<Node>)
    ensures
        nodes_view(v@) == nodes_view(nodes@),
    decreases nodes, 0nat,
{
    let mut v: Vec<Node> = Vec::new();
    let mut i: usize = 0;
    while i < nodes.len()
        invariant
            i <= nodes.len(),
            v.len() == i,
            forall|j: int| 0 <= j < i ==> (#[trigger] v[j])@ == nodes[j]@,
        decreases nodes.len() - i,
    {
        v.push(nodes[i].duplicate());
        i += 1;
    }
    assert(nodes_view(v@) =~= nodes_view(nodes@));
    v
}

impl Clone for Node {
    fn clone(&self) -> (n: Self)
        ensures
            n@ == self@,
    {
        self.duplicate()
    }
}

/// The view of a vector that grew by one node.
pub proof fn lemma_nodes_view_push(nodes: Seq<Node>, n: Node)
    ensures
        nodes_view(nodes.push(n)) == nodes_view(nodes).push(n@),
{
    assert(nodes_view(nodes.push(n)) =~= nodes_view(nodes).push(n@));
}

} // verus!
