use minicc::ast::Node;
use minicc::ast::NodeType;
use minicc::env::Env;
use minicc::error::ErrorCategory;
use minicc::error::ErrorKind;
use minicc::sema::check_lval;
use minicc::sema::find_member;
use minicc::sema::maybe_decay;
use minicc::sema::sema;
use minicc::sema::sema_item;
use minicc::sema::str_label_string;
use minicc::sema::swap;
use minicc::sema::walk;
use minicc::sema::walk_list;
use minicc::sema::Sema;
use minicc::token::TokenType;
use minicc::types::roundup;
use minicc::types::Ctype;
use minicc::types::Member;
use minicc::types::Scope;
use minicc::types::Type;
use minicc::types::Var;

fn int_t() -> Type {
    Type::int_ty()
}

fn ptr_t(base: Type) -> Type {
    Type::ptr_to(base)
}

fn ary_t(base: Type, len: usize) -> Type {
    let size = base.size * len;
    let align = base.align;
    Type::new(Ctype::Ary(Box::new(base), len), size, align)
}

fn void_t() -> Type {
    Type::new(Ctype::Void, 0, 0)
}

fn pair_t() -> Type {
    let members = vec![
        Member { name: String::from("x"), ty: int_t(), offset: 0 },
        Member { name: String::from("p"), ty: ptr_t(int_t()), offset: 8 },
    ];
    Type::new(Ctype::Struct(members), 16, 8)
}

fn node(op: NodeType) -> Node {
    Node::new(op)
}

fn typed(op: NodeType, ty: Type) -> Node {
    Node { op, ty }
}

fn num(v: i32) -> Node {
    Node::int_ty(v)
}

fn name(s: &str) -> Node {
    node(NodeType::Ident(String::from(s)))
}

fn local(s: &str, ty: Type) -> Node {
    typed(NodeType::Vardef(String::from(s), None, Scope::Local(0)), ty)
}

fn local_init(s: &str, ty: Type, init: Node) -> Node {
    typed(NodeType::Vardef(String::from(s), Some(Box::new(init)), Scope::Local(0)), ty)
}

fn global(s: &str, ty: Type, data: &str, len: usize, is_extern: bool) -> Node {
    typed(
        NodeType::Vardef(String::from(s), None, Scope::Global(String::from(data), len, is_extern)),
        ty,
    )
}

fn bin(op: TokenType, l: Node, r: Node) -> Node {
    node(NodeType::BinOp(op, Box::new(l), Box::new(r)))
}

fn stmt(e: Node) -> Node {
    node(NodeType::ExprStmt(Box::new(e)))
}

fn block(stmts: Vec<Node>) -> Node {
    node(NodeType::CompStmt(stmts))
}

fn func(s: &str, params: Vec<Node>, body: Node) -> Node {
    node(NodeType::Func(String::from(s), params, Box::new(body), 0))
}

fn lvar(offset: usize, ty: Type) -> Node {
    typed(NodeType::Lvar(Scope::Local(offset)), ty)
}

/// Walks `n` in a state in which `defs` have been defined first.
fn walk_with(defs: Vec<Node>, n: Node, decay: bool) -> Result<Node, ErrorKind> {
    let mut st = Sema::new();
    for d in &defs {
        walk(d, &mut st, true).map_err(|e| e.kind)?;
    }
    walk(&n, &mut st, decay).map_err(|e| e.kind)
}

#[test]
fn roundup_examples() {
    assert_eq!(roundup(0, 4), Some(0));
    assert_eq!(roundup(1, 4), Some(4));
    assert_eq!(roundup(4, 4), Some(4));
    assert_eq!(roundup(5, 8), Some(8));
    assert_eq!(roundup(9, 1), Some(9));
    assert_eq!(roundup(7, 3), Some(9));
    assert_eq!(roundup(7, 0), None);
    assert_eq!(roundup(usize::MAX, 2), None);
    assert_eq!(roundup(usize::MAX, 1), Some(usize::MAX));
}

#[test]
fn type_constructors() {
    assert_eq!(int_t(), Type { ty: Ctype::Int, size: 4, align: 4 });
    let p = ptr_t(int_t());
    assert_eq!(p.size, 8);
    assert_eq!(p.align, 8);
    assert!(p.is_ptr());
    assert!(!int_t().is_ptr());
    assert_eq!(p.clone(), p);
    assert_eq!(pair_t().duplicate(), pair_t());
}

#[test]
fn var_constructors() {
    let v = Var::new(int_t(), String::from("a"), Scope::Local(4));
    assert_eq!(v.scope, Scope::Local(4));
    let g = Var::new_global(int_t(), String::from("g"), String::from("ab"), 2, true);
    assert_eq!(g.scope, Scope::Global(String::from("ab"), 2, true));
    assert_eq!(g.clone(), g);
}

#[test]
fn env_lookup_walks_outwards() {
    let mut env = Env::new();
    assert!(env.find(&String::from("a")).is_none());
    env.insert(Var::new(int_t(), String::from("a"), Scope::Local(4)));
    env.enter();
    env.insert(Var::new(int_t(), String::from("b"), Scope::Local(8)));
    assert_eq!(env.find(&String::from("a")).unwrap().scope, Scope::Local(4));
    assert_eq!(env.find(&String::from("b")).unwrap().scope, Scope::Local(8));
    env.leave();
    assert!(env.find(&String::from("b")).is_none());
    assert_eq!(env.find(&String::from("a")).unwrap().scope, Scope::Local(4));
}

#[test]
fn env_inner_binding_shadows_outer() {
    let mut env = Env::new();
    env.insert(Var::new(int_t(), String::from("a"), Scope::Local(4)));
    env.enter();
    assert_eq!(env.find(&String::from("a")).unwrap().scope, Scope::Local(4));
    env.insert(Var::new(ptr_t(int_t()), String::from("a"), Scope::Local(16)));
    assert_eq!(env.find(&String::from("a")).unwrap().scope, Scope::Local(16));
    env.enter();
    assert_eq!(env.find(&String::from("a")).unwrap().scope, Scope::Local(16));
    env.leave();
    env.leave();
    assert_eq!(env.find(&String::from("a")).unwrap().scope, Scope::Local(4));
    assert_eq!(env.frames.len(), 1);
}

#[test]
fn env_redefinition_in_same_scope_wins() {
    let mut env = Env::new();
    env.insert(Var::new(int_t(), String::from("a"), Scope::Local(4)));
    env.insert(Var::new(int_t(), String::from("a"), Scope::Local(8)));
    assert_eq!(env.find(&String::from("a")).unwrap().scope, Scope::Local(8));
}

#[test]
fn block_local_shadows_and_outer_returns_after_block() {
    // { int a; { int a; a; } a; }
    let body = block(vec![
        local("a", int_t()),
        block(vec![local("a", int_t()), stmt(name("a"))]),
        stmt(name("a")),
    ]);
    let (funcs, _) = sema(vec![func("f", vec![], body)]).unwrap();
    let stmts = match &funcs[0].op {
        NodeType::Func(_, _, body, size) => {
            assert_eq!(*size, 8);
            match &body.op {
                NodeType::CompStmt(s) => s,
                other => panic!("{:?}", other),
            }
        },
        other => panic!("{:?}", other),
    };
    let inner = match &stmts[1].op {
        NodeType::CompStmt(s) => s,
        other => panic!("{:?}", other),
    };
    assert_eq!(inner[1], stmt(lvar(8, int_t())));
    assert_eq!(stmts[2], stmt(lvar(4, int_t())));
}

#[test]
fn undefined_variable_is_rejected() {
    let mut st = Sema::new();
    let e = walk(&name("nope"), &mut st, true).unwrap_err();
    assert_eq!(e.kind, ErrorKind::UndefinedVariable);
    assert_eq!(e.detail, "nope");
    assert_eq!(e.category(), ErrorCategory::Scope);
}

#[test]
fn block_local_is_undefined_after_block() {
    let body = block(vec![block(vec![local("a", int_t())]), stmt(name("a"))]);
    let e = sema(vec![func("f", vec![], body)]).unwrap_err();
    assert_eq!(e.kind, ErrorKind::UndefinedVariable);
}

#[test]
fn parameters_do_not_leak_into_the_next_function() {
    let f = func("f", vec![local("x", int_t())], block(vec![stmt(name("x"))]));
    let g = func("g", vec![], block(vec![stmt(name("x"))]));
    assert!(sema(vec![f]).is_ok());
    let f = func("f", vec![local("x", int_t())], block(vec![stmt(name("x"))]));
    assert_eq!(sema(vec![f, g]).unwrap_err().kind, ErrorKind::UndefinedVariable);
}

#[test]
fn locals_are_laid_out_upwards_with_alignment() {
    // int a; int *p; int b;  ->  4, 16, 20
    let body = block(vec![local("a", int_t()), local("p", ptr_t(int_t())), local("b", int_t())]);
    let (funcs, globals) = sema(vec![func("f", vec![], body)]).unwrap();
    assert!(globals.is_empty());
    let expected = block(vec![
        typed(NodeType::Vardef(String::from("a"), None, Scope::Local(4)), int_t()),
        typed(NodeType::Vardef(String::from("p"), None, Scope::Local(16)), ptr_t(int_t())),
        typed(NodeType::Vardef(String::from("b"), None, Scope::Local(20)), int_t()),
    ]);
    assert_eq!(funcs[0].op, NodeType::Func(String::from("f"), vec![], Box::new(expected), 20));
}

#[test]
fn frame_size_starts_at_zero_for_each_function() {
    let f = func("f", vec![], block(vec![local("a", int_t()), local("b", int_t())]));
    let g = func("g", vec![local("x", int_t())], block(vec![]));
    let (funcs, _) = sema(vec![f, g]).unwrap();
    match (&funcs[0].op, &funcs[1].op) {
        (NodeType::Func(_, _, _, a), NodeType::Func(_, params, _, b)) => {
            assert_eq!(*a, 8);
            assert_eq!(*b, 4);
            assert_eq!(
                params[0],
                typed(NodeType::Vardef(String::from("x"), None, Scope::Local(4)), int_t())
            );
        },
        other => panic!("{:?}", other),
    }
}

#[test]
fn local_with_zero_alignment_is_rejected() {
    let bad = Type::new(Ctype::Int, 4, 0);
    assert_eq!(walk_with(vec![], local("a", bad), true), Err(ErrorKind::Overflow));
}

#[test]
fn local_that_overflows_the_frame_is_rejected() {
    let huge = Type::new(Ctype::Int, usize::MAX, 1);
    let mut st = Sema::new();
    st.stacksize = 1;
    let e = walk(&local("a", huge), &mut st, true).unwrap_err();
    assert_eq!(e.kind, ErrorKind::Overflow);
    assert_eq!(e.category(), ErrorCategory::Internal);
}

#[test]
fn initializer_sees_the_variable_it_initializes() {
    let n = walk_with(vec![], local_init("a", int_t(), name("a")), true).unwrap();
    assert_eq!(
        n,
        typed(
            NodeType::Vardef(String::from("a"), Some(Box::new(lvar(4, int_t()))), Scope::Local(4)),
            int_t()
        )
    );
}

#[test]
fn number_is_typed_int() {
    let n = walk_with(vec![], typed(NodeType::Num(3), ptr_t(int_t())), true).unwrap();
    assert_eq!(n, num(3));
}

#[test]
fn string_literal_becomes_a_labelled_global() {
    let ty = ary_t(int_t(), 3);
    let lit = typed(NodeType::Str(String::from("hi"), 3), ty.clone());
    let mut st = Sema::new();
    let n = walk(&lit, &mut st, true).unwrap();
    let g = typed(NodeType::Gvar(String::from(".L.str0"), String::new(), 3), ty.clone());
    assert_eq!(n, typed(NodeType::Addr(Box::new(g)), ptr_t(int_t())));
    assert_eq!(
        st.globals,
        vec![Var::new_global(ty.clone(), String::from(".L.str0"), String::from("hi"), 3, false)]
    );
    let lit2 = typed(NodeType::Str(String::from("yo"), 3), ty.clone());
    let n2 = walk(&lit2, &mut st, false).unwrap();
    assert_eq!(n2, typed(NodeType::Gvar(String::from(".L.str1"), String::new(), 3), ty));
    assert_eq!(st.globals.len(), 2);
    assert_eq!(st.str_label, 2);
}

#[test]
fn string_labels_are_numbered_in_decimal() {
    assert_eq!(str_label_string(0), ".L.str0");
    assert_eq!(str_label_string(7), ".L.str7");
    assert_eq!(str_label_string(10), ".L.str10");
    assert_eq!(str_label_string(1203), ".L.str1203");
}

#[test]
fn string_label_counter_overflow_is_rejected() {
    let mut st = Sema::new();
    st.str_label = usize::MAX;
    let lit = typed(NodeType::Str(String::from("hi"), 3), ary_t(int_t(), 3));
    assert_eq!(walk(&lit, &mut st, true).unwrap_err().kind, ErrorKind::Overflow);
}

#[test]
fn global_variable_resolves_by_name() {
    let g = global("g", int_t(), "\u{1}\u{0}", 4, false);
    let body = block(vec![stmt(name("g"))]);
    let (funcs, globals) = sema(vec![g, func("f", vec![], body)]).unwrap();
    assert_eq!(funcs.len(), 1);
    assert_eq!(
        globals,
        vec![Var::new_global(int_t(), String::from("g"), String::from("\u{1}\u{0}"), 4, false)]
    );
    let expected = block(vec![stmt(typed(
        NodeType::Gvar(String::from("g"), String::from("\u{1}\u{0}"), 4),
        int_t(),
    ))]);
    assert_eq!(funcs[0].op, NodeType::Func(String::from("f"), vec![], Box::new(expected), 0));
}

#[test]
fn local_shadows_global() {
    let g = global("v", ptr_t(int_t()), "", 8, true);
    let body = block(vec![local("v", int_t()), stmt(name("v"))]);
    let (funcs, globals) = sema(vec![g, func("f", vec![], body)]).unwrap();
    assert_eq!(globals.len(), 1);
    match &funcs[0].op {
        NodeType::Func(_, _, body, _) => match &body.op {
            NodeType::CompStmt(s) => assert_eq!(s[1], stmt(lvar(4, int_t()))),
            other => panic!("{:?}", other),
        },
        other => panic!("{:?}", other),
    }
}

#[test]
fn top_level_item_must_be_function_or_global() {
    let e = sema(vec![num(1)]).unwrap_err();
    assert_eq!(e.kind, ErrorKind::NotAFunction);
    assert_eq!(e.category(), ErrorCategory::Internal);
    let mut st = Sema::new();
    assert_eq!(
        sema_item(&local("a", int_t()), &mut st).unwrap_err().kind,
        ErrorKind::NotAFunction
    );
}

#[test]
fn sema_of_nothing_is_nothing() {
    let (funcs, globals) = sema(vec![]).unwrap();
    assert!(funcs.is_empty());
    assert!(globals.is_empty());
}

#[test]
fn array_decays_to_pointer_in_value_context() {
    let defs = vec![local("a", ary_t(int_t(), 3))];
    let n = walk_with(defs, name("a"), true).unwrap();
    let a = lvar(12, ary_t(int_t(), 3));
    assert_eq!(n, typed(NodeType::Addr(Box::new(a)), ptr_t(int_t())));
}

#[test]
fn array_does_not_decay_where_suppressed() {
    let defs = vec![local("a", ary_t(int_t(), 3))];
    let n = walk_with(defs, name("a"), false).unwrap();
    assert_eq!(n, lvar(12, ary_t(int_t(), 3)));
}

#[test]
fn maybe_decay_leaves_other_types_alone() {
    assert_eq!(maybe_decay(lvar(4, int_t()), true), lvar(4, int_t()));
    assert_eq!(maybe_decay(lvar(4, ptr_t(int_t())), true), lvar(4, ptr_t(int_t())));
    assert_eq!(maybe_decay(lvar(4, ary_t(int_t(), 2)), false), lvar(4, ary_t(int_t(), 2)));
}

#[test]
fn sizeof_array_is_not_decayed() {
    let defs = vec![local("a", ary_t(int_t(), 3))];
    let n = walk_with(defs, node(NodeType::Sizeof(Box::new(name("a")))), true).unwrap();
    assert_eq!(n, num(12));
}

#[test]
fn alignof_gives_alignment() {
    let defs = vec![local("p", ptr_t(int_t()))];
    let n = walk_with(defs, node(NodeType::Alignof(Box::new(name("p")))), true).unwrap();
    assert_eq!(n, num(8));
}

#[test]
fn sizeof_too_large_for_int_is_rejected() {
    let big = Type::new(Ctype::Int, (i32::MAX as usize) + 1, 1);
    let defs = vec![local("a", big)];
    let r = walk_with(defs, node(NodeType::Sizeof(Box::new(name("a")))), true);
    assert_eq!(r, Err(ErrorKind::Overflow));
    let fits = Type::new(Ctype::Int, i32::MAX as usize, 1);
    let defs = vec![local("a", fits)];
    let r = walk_with(defs, node(NodeType::Sizeof(Box::new(name("a")))), true);
    assert_eq!(r, Ok(num(i32::MAX)));
}

#[test]
fn pointer_operand_is_moved_to_the_left() {
    let defs = vec![local("p", ptr_t(int_t()))];
    let n = walk_with(defs, bin(TokenType::Plus, num(1), name("p")), true).unwrap();
    let p = lvar(8, ptr_t(int_t()));
    assert_eq!(
        n,
        typed(NodeType::BinOp(TokenType::Plus, Box::new(p), Box::new(num(1))), ptr_t(int_t()))
    );
}

#[test]
fn pointer_on_the_left_stays() {
    let defs = vec![local("p", ptr_t(int_t()))];
    let n = walk_with(defs, bin(TokenType::Minus, name("p"), num(2)), true).unwrap();
    let p = lvar(8, ptr_t(int_t()));
    assert_eq!(
        n,
        typed(NodeType::BinOp(TokenType::Minus, Box::new(p), Box::new(num(2))), ptr_t(int_t()))
    );
}

#[test]
fn pointer_plus_pointer_is_rejected() {
    let defs = vec![local("p", ptr_t(int_t())), local("q", ptr_t(int_t()))];
    let r = walk_with(defs, bin(TokenType::Plus, name("p"), name("q")), true);
    assert_eq!(r, Err(ErrorKind::PointerArithmetic));
    assert_eq!(ErrorKind::PointerArithmetic.category(), ErrorCategory::Type);
}

#[test]
fn other_binary_operators_take_the_left_type() {
    let defs = vec![local("p", ptr_t(int_t()))];
    let n = walk_with(defs, bin(TokenType::Mul, name("p"), num(2)), true).unwrap();
    assert_eq!(n.ty, ptr_t(int_t()));
    let defs = vec![local("p", ptr_t(int_t()))];
    let n = walk_with(defs, bin(TokenType::Logand, num(1), name("p")), true).unwrap();
    assert_eq!(n.ty, int_t());
    match n.op {
        NodeType::BinOp(TokenType::Logand, l, r) => {
            assert_eq!(*l, num(1));
            assert_eq!(*r, lvar(8, ptr_t(int_t())));
        },
        other => panic!("{:?}", other),
    }
}

#[test]
fn assignment_needs_an_lvalue() {
    let r = walk_with(vec![], bin(TokenType::Equal, num(1), num(2)), true);
    assert_eq!(r, Err(ErrorKind::NotAnLvalue));
    let defs = vec![local("a", int_t())];
    let n = walk_with(defs, bin(TokenType::Equal, name("a"), num(2)), true).unwrap();
    assert_eq!(
        n,
        typed(
            NodeType::BinOp(TokenType::Equal, Box::new(lvar(4, int_t())), Box::new(num(2))),
            int_t()
        )
    );
}

#[test]
fn assignment_target_array_is_not_decayed() {
    let defs = vec![local("a", ary_t(int_t(), 2)), local("b", ary_t(int_t(), 2))];
    let n = walk_with(defs, bin(TokenType::Equal, name("a"), name("b")), true).unwrap();
    match n.op {
        NodeType::BinOp(_, l, r) => {
            assert_eq!(*l, lvar(8, ary_t(int_t(), 2)));
            assert_eq!(r.ty, ptr_t(int_t()));
        },
        other => panic!("{:?}", other),
    }
    assert_eq!(n.ty, ary_t(int_t(), 2));
}

#[test]
fn address_of_needs_an_lvalue() {
    let r = walk_with(vec![], node(NodeType::Addr(Box::new(num(1)))), true);
    assert_eq!(r, Err(ErrorKind::NotAnLvalue));
    let defs = vec![local("a", int_t())];
    let n = walk_with(defs, node(NodeType::Addr(Box::new(name("a")))), true).unwrap();
    assert_eq!(n, typed(NodeType::Addr(Box::new(lvar(4, int_t()))), ptr_t(int_t())));
}

#[test]
fn dereference_needs_a_pointer() {
    let defs = vec![local("a", int_t())];
    let r = walk_with(defs, node(NodeType::Deref(Box::new(name("a")))), true);
    assert_eq!(r, Err(ErrorKind::DerefNonPointer));
    let defs = vec![local("p", ptr_t(int_t()))];
    let n = walk_with(defs, node(NodeType::Deref(Box::new(name("p")))), true).unwrap();
    assert_eq!(n, typed(NodeType::Deref(Box::new(lvar(8, ptr_t(int_t())))), int_t()));
}

#[test]
fn dereference_of_void_pointer_is_rejected() {
    let vp = Type::new(Ctype::Ptr(Box::new(void_t())), 8, 8);
    let defs = vec![local("p", vp)];
    let r = walk_with(defs, node(NodeType::Deref(Box::new(name("p")))), true);
    assert_eq!(r, Err(ErrorKind::DerefVoid));
    let v = Type::new(Ctype::Void, 1, 1);
    let defs = vec![local("v", v)];
    let r = walk_with(defs, node(NodeType::Deref(Box::new(name("v")))), true);
    assert_eq!(r, Err(ErrorKind::DerefVoid));
}

#[test]
fn member_access_takes_type_and_offset() {
    let defs = vec![local("s", pair_t())];
    let dot = node(NodeType::Dot(Box::new(name("s")), String::from("p"), 0));
    let n = walk_with(defs, dot, true).unwrap();
    let s = lvar(16, pair_t());
    assert_eq!(n, typed(NodeType::Dot(Box::new(s), String::from("p"), 8), ptr_t(int_t())));
}

#[test]
fn member_access_is_stable() {
    let dot = || node(NodeType::Dot(Box::new(name("s")), String::from("x"), 99));
    let a = walk_with(vec![local("s", pair_t())], dot(), true).unwrap();
    let b = walk_with(vec![local("s", pair_t())], dot(), true).unwrap();
    assert_eq!(a, b);
    match a.op {
        NodeType::Dot(_, _, offset) => assert_eq!(offset, 0),
        other => panic!("{:?}", other),
    }
}

#[test]
fn missing_member_is_rejected() {
    let mut st = Sema::new();
    walk(&local("s", pair_t()), &mut st, true).unwrap();
    let dot = node(NodeType::Dot(Box::new(name("s")), String::from("z"), 0));
    let e = walk(&dot, &mut st, true).unwrap_err();
    assert_eq!(e.kind, ErrorKind::MemberMissing);
    assert_eq!(e.detail, "z");
    assert_eq!(e.category(), ErrorCategory::Scope);
}

#[test]
fn member_of_non_struct_is_rejected() {
    let defs = vec![local("a", int_t())];
    let dot = node(NodeType::Dot(Box::new(name("a")), String::from("x"), 0));
    assert_eq!(walk_with(defs, dot, true), Err(ErrorKind::StructExpected));
}

#[test]
fn find_member_takes_the_first_of_a_name() {
    let members = vec![
        Member { name: String::from("a"), ty: int_t(), offset: 0 },
        Member { name: String::from("b"), ty: int_t(), offset: 4 },
        Member { name: String::from("a"), ty: int_t(), offset: 8 },
    ];
    assert_eq!(find_member(&members, &String::from("a")), Some(0));
    assert_eq!(find_member(&members, &String::from("b")), Some(1));
    assert_eq!(find_member(&members, &String::from("c")), None);
}

#[test]
fn check_lval_accepts_the_four_forms() {
    assert!(check_lval(&lvar(4, int_t())));
    assert!(check_lval(&node(NodeType::Gvar(String::from("g"), String::new(), 0))));
    assert!(check_lval(&node(NodeType::Deref(Box::new(num(0))))));
    assert!(check_lval(&node(NodeType::Dot(Box::new(num(0)), String::from("x"), 0))));
    assert!(!check_lval(&num(0)));
    assert!(!check_lval(&name("a")));
    assert!(!check_lval(&node(NodeType::Addr(Box::new(num(0))))));
}

#[test]
fn ternary_takes_the_type_of_its_second_operand() {
    let defs = vec![local("p", ptr_t(int_t()))];
    let t = node(NodeType::Ternary(Box::new(num(1)), Box::new(name("p")), Box::new(num(0))));
    let n = walk_with(defs, t, true).unwrap();
    assert_eq!(n.ty, ptr_t(int_t()));
}

#[test]
fn statement_expression_is_typed_int() {
    let inner = || typed(NodeType::Null, ptr_t(int_t()));
    let n = walk_with(
        vec![],
        typed(NodeType::StmtExpr(Box::new(inner())), ptr_t(int_t())),
        true,
    ).unwrap();
    assert_eq!(n, typed(NodeType::StmtExpr(Box::new(inner())), int_t()));
}

#[test]
fn control_flow_nodes_are_walked_through() {
    let defs = vec![local("a", int_t())];
    let a = || stmt(name("a"));
    let body = node(NodeType::VecStmt(vec![
        node(NodeType::If(Box::new(name("a")), Box::new(a()), Some(Box::new(a())))),
        node(NodeType::If(Box::new(name("a")), Box::new(a()), None)),
        node(NodeType::For(Box::new(a()), Box::new(name("a")), Box::new(name("a")), Box::new(a()))),
        node(NodeType::DoWhile(Box::new(a()), Box::new(name("a")))),
        node(NodeType::Return(Box::new(name("a")))),
        node(NodeType::Call(String::from("f"), vec![name("a"), num(1)])),
        node(NodeType::Neg(Box::new(name("a")))),
        node(NodeType::Exclamation(Box::new(name("a")))),
        node(NodeType::PreInc(Box::new(name("a")))),
        node(NodeType::PreDec(Box::new(name("a")))),
        node(NodeType::PostInc(Box::new(name("a")))),
        node(NodeType::PostDec(Box::new(name("a")))),
        node(NodeType::Null),
    ]));
    let n = walk_with(defs, body, true).unwrap();
    let r = || lvar(4, int_t());
    let s = || stmt(r());
    let expected = node(NodeType::VecStmt(vec![
        node(NodeType::If(Box::new(r()), Box::new(s()), Some(Box::new(s())))),
        node(NodeType::If(Box::new(r()), Box::new(s()), None)),
        node(NodeType::For(Box::new(s()), Box::new(r()), Box::new(r()), Box::new(s()))),
        node(NodeType::DoWhile(Box::new(s()), Box::new(r()))),
        node(NodeType::Return(Box::new(r()))),
        node(NodeType::Call(String::from("f"), vec![r(), num(1)])),
        node(NodeType::Neg(Box::new(r()))),
        node(NodeType::Exclamation(Box::new(r()))),
        node(NodeType::PreInc(Box::new(r()))),
        node(NodeType::PreDec(Box::new(r()))),
        node(NodeType::PostInc(Box::new(r()))),
        node(NodeType::PostDec(Box::new(r()))),
        node(NodeType::Null),
    ]));
    assert_eq!(n, expected);
}

#[test]
fn statement_list_defines_in_the_enclosing_scope() {
    let mut st = Sema::new();
    let list = node(NodeType::VecStmt(vec![local("a", int_t())]));
    walk(&list, &mut st, true).unwrap();
    assert!(walk(&name("a"), &mut st, true).is_ok());
    let blk = block(vec![local("b", int_t())]);
    walk(&blk, &mut st, true).unwrap();
    assert_eq!(walk(&name("b"), &mut st, true).unwrap_err().kind, ErrorKind::UndefinedVariable);
    assert_eq!(st.stacksize, 8);
}

#[test]
fn resolved_and_unsupported_nodes_are_rejected() {
    assert_eq!(walk_with(vec![], lvar(4, int_t()), true), Err(ErrorKind::UnknownNode));
    assert_eq!(
        walk_with(vec![], node(NodeType::Gvar(String::from("g"), String::new(), 0)), true),
        Err(ErrorKind::UnknownNode)
    );
    assert_eq!(walk_with(vec![], node(NodeType::Break), true), Err(ErrorKind::UnknownNode));
    assert_eq!(ErrorKind::UnknownNode.category(), ErrorCategory::Internal);
}

#[test]
fn walk_list_stops_at_first_error() {
    let mut st = Sema::new();
    let nodes = vec![local("a", int_t()), name("zz"), local("b", int_t())];
    let e = walk_list(&nodes, &mut st).unwrap_err();
    assert_eq!(e.kind, ErrorKind::UndefinedVariable);
    assert_eq!(e.detail, "zz");
    let mut st = Sema::new();
    let nodes = vec![local("a", int_t()), name("a")];
    let out = walk_list(&nodes, &mut st).unwrap();
    assert_eq!(out.len(), 2);
    assert_eq!(out[1], lvar(4, int_t()));
}

#[test]
fn error_categories() {
    assert_eq!(ErrorKind::UnexpectedEof.category(), ErrorCategory::Token);
    assert_eq!(ErrorKind::UnexpectedToken.category(), ErrorCategory::Token);
    assert_eq!(ErrorKind::UnknownDirective.category(), ErrorCategory::Directive);
    assert_eq!(ErrorKind::UnclosedArgument.category(), ErrorCategory::Directive);
    assert_eq!(ErrorKind::ParamCountMismatch.category(), ErrorCategory::Directive);
    assert_eq!(ErrorKind::UndefinedVariable.category(), ErrorCategory::Scope);
    assert_eq!(ErrorKind::MemberMissing.category(), ErrorCategory::Scope);
    assert_eq!(ErrorKind::StructExpected.category(), ErrorCategory::Type);
    assert_eq!(ErrorKind::NotAnLvalue.category(), ErrorCategory::Type);
    assert_eq!(ErrorKind::DerefVoid.category(), ErrorCategory::Type);
    assert_eq!(ErrorKind::DerefNonPointer.category(), ErrorCategory::Type);
    assert_eq!(ErrorKind::UnknownOperator.category(), ErrorCategory::Internal);
    assert_eq!(ErrorKind::TooManyArguments.category(), ErrorCategory::Internal);
    assert_eq!(ErrorKind::NotAFunction.category(), ErrorCategory::Internal);
    assert_eq!(ErrorKind::Overflow.category(), ErrorCategory::Internal);
}

#[test]
fn swap_exchanges_nodes() {
    let mut a = num(1);
    let mut b = lvar(4, ptr_t(int_t()));
    swap(&mut a, &mut b);
    assert_eq!(a, lvar(4, ptr_t(int_t())));
    assert_eq!(b, num(1));
}

#[test]
fn node_clone_is_equal() {
    let n = func(
        "f",
        vec![local("x", pair_t())],
        block(vec![
            local_init("a", int_t(), bin(TokenType::Plus, name("x"), num(1))),
            node(NodeType::If(Box::new(name("a")), Box::new(stmt(num(1))), None)),
            node(NodeType::Call(String::from("g"), vec![name("a"), num(2)])),
            global("g", ary_t(int_t(), 2), "ab", 2, true),
        ]),
    );
    assert_eq!(n.clone(), n);
    assert_eq!(n.duplicate(), n);
}
