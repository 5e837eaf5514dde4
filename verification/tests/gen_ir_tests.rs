use minicc::ast::Node;
use minicc::ast::NodeType;
use minicc::dump::dump_ir;
use minicc::error::ErrorKind;
use minicc::gen_ir::add;
use minicc::gen_ir::gen_binop;
use minicc::gen_ir::gen_expr;
use minicc::gen_ir::gen_func;
use minicc::gen_ir::gen_ir;
use minicc::gen_ir::gen_lval;
use minicc::gen_ir::gen_stmt;
use minicc::gen_ir::kill;
use minicc::gen_ir::label;
use minicc::gen_ir::Function;
use minicc::gen_ir::IRGen;
use minicc::gen_ir::IRInfo;
use minicc::gen_ir::IROp;
use minicc::gen_ir::IRType;
use minicc::gen_ir::IR;
use minicc::gen_ir::MAX_ARGS;
use minicc::sema::sema;
use minicc::text::decimal_string;
use minicc::token::TokenType;
use minicc::types::Ctype;
use minicc::types::Scope;
use minicc::types::Type;

fn int_type() -> Type {
    Type::int_ty()
}

fn ptr_type() -> Type {
    Type::ptr_to(Type::int_ty())
}

fn mk(op: NodeType) -> Node {
    Node::new(op)
}

fn mk_typed(op: NodeType, ty: Type) -> Node {
    Node { op, ty }
}

fn lit(v: i32) -> Node {
    Node::int_ty(v)
}

fn var(offset: usize) -> Node {
    mk_typed(NodeType::Lvar(Scope::Local(offset)), int_type())
}

fn ptr_var(offset: usize) -> Node {
    mk_typed(NodeType::Lvar(Scope::Local(offset)), ptr_type())
}

fn binop(op: TokenType, l: Node, r: Node) -> Node {
    mk(NodeType::BinOp(op, Box::new(l), Box::new(r)))
}

fn ident(s: &str) -> Node {
    mk(NodeType::Ident(String::from(s)))
}

fn def(s: &str, ty: Type, init: Option<Node>) -> Node {
    mk_typed(NodeType::Vardef(String::from(s), init.map(Box::new), Scope::Local(0)), ty)
}

fn def_at(offset: usize, ty: Type, init: Option<Node>) -> Node {
    mk_typed(NodeType::Vardef(String::from("v"), init.map(Box::new), Scope::Local(offset)), ty)
}

fn expr_stmt(e: Node) -> Node {
    mk(NodeType::ExprStmt(Box::new(e)))
}

fn ret(e: Node) -> Node {
    mk(NodeType::Return(Box::new(e)))
}

fn comp(stmts: Vec<Node>) -> Node {
    mk(NodeType::CompStmt(stmts))
}

fn function(name: &str, params: Vec<Node>, body: Node, size: usize) -> Node {
    mk(NodeType::Func(String::from(name), params, Box::new(body), size))
}

fn ir(op: IROp, lhs: usize, rhs: usize) -> IR {
    IR::new(op, Some(lhs), Some(rhs))
}

fn ir1(op: IROp, lhs: usize) -> IR {
    IR::new(op, Some(lhs), None)
}

fn lower_expr(n: &Node) -> (usize, IRGen) {
    let mut g = IRGen::new();
    let r = gen_expr(n, &mut g).unwrap();
    (r, g)
}

fn lower_stmt(n: &Node) -> IRGen {
    let mut g = IRGen::new();
    gen_stmt(n, &mut g).unwrap();
    g
}

fn expr_error(n: &Node) -> ErrorKind {
    let mut g = IRGen::new();
    gen_expr(n, &mut g).unwrap_err().kind
}

fn stmt_error(n: &Node) -> ErrorKind {
    let mut g = IRGen::new();
    gen_stmt(n, &mut g).unwrap_err().kind
}

fn lines(code: &[IR]) -> Vec<String> {
    code.iter().map(|i| i.to_string()).collect()
}

#[test]
fn info_holds_name_and_form() {
    let info = IRInfo::new("ADD", IRType::RegReg);
    assert_eq!(info.name, "ADD");
    assert_eq!(info.ty, IRType::RegReg);
}

#[test]
fn every_opcode_has_its_mnemonic() {
    let table = vec![
        (IROp::Add, "ADD", IRType::RegReg),
        (IROp::Sub, "SUB", IRType::RegReg),
        (IROp::Mul, "MUL", IRType::RegReg),
        (IROp::Div, "DIV", IRType::RegReg),
        (IROp::Imm, "MOV", IRType::RegImm),
        (IROp::SubImm, "SUB", IRType::RegImm),
        (IROp::Mov, "MOV", IRType::RegReg),
        (IROp::Return, "RET", IRType::Reg),
        (IROp::Call(String::from("f"), 0, vec![]), "CALL", IRType::Call),
        (IROp::Label, "", IRType::Label),
        (IROp::LT, "LT", IRType::RegReg),
        (IROp::Jmp, "JMP", IRType::Jmp),
        (IROp::Unless, "UNLESS", IRType::RegLabel),
        (IROp::Load32, "LOAD32", IRType::RegReg),
        (IROp::Load64, "LOAD64", IRType::RegReg),
        (IROp::Store32, "STORE32", IRType::RegReg),
        (IROp::Store64, "STORE64", IRType::RegReg),
        (IROp::Store32Arg, "STORE32_ARG", IRType::ImmImm),
        (IROp::Store64Arg, "STORE64_ARG", IRType::ImmImm),
        (IROp::Kill, "KILL", IRType::Reg),
        (IROp::Nop, "NOP", IRType::Noarg),
    ];
    for (op, name, ty) in table {
        let info = op.info();
        assert_eq!(info.name, name);
        assert_eq!(info.ty, ty);
        assert_eq!(IRInfo::from(&op).name, name);
        assert_eq!(IRInfo::from(&op).ty, ty);
    }
}

#[test]
fn operators_map_to_opcodes() {
    assert_eq!(IROp::from_token_type(TokenType::Plus), Some(IROp::Add));
    assert_eq!(IROp::from_token_type(TokenType::Minus), Some(IROp::Sub));
    assert_eq!(IROp::from_token_type(TokenType::Mul), Some(IROp::Mul));
    assert_eq!(IROp::from_token_type(TokenType::Div), Some(IROp::Div));
    assert_eq!(IROp::from_token_type(TokenType::LeftAngleBracket), Some(IROp::LT));
    assert_eq!(IROp::from_token_type(TokenType::RightAngleBracket), Some(IROp::LT));
    assert_eq!(IROp::from_token_type(TokenType::Equal), None);
    assert_eq!(IROp::from_token_type(TokenType::Comma), None);
    let n = binop(TokenType::Div, lit(1), lit(2));
    assert_eq!(IROp::from_node_type(&n.op), Some(IROp::Div));
    assert_eq!(IROp::from_node_type(&lit(1).op), None);
}

#[test]
fn constructors_keep_their_arguments() {
    let i = IR::new(IROp::Add, Some(1), Some(2));
    assert_eq!(i.op, IROp::Add);
    assert_eq!(i.lhs, Some(1));
    assert_eq!(i.rhs, Some(2));
    assert_eq!(i.clone(), i);
    let f = Function::new(String::from("f"), vec![i], 16);
    assert_eq!(f.name, "f");
    assert_eq!(f.ir.len(), 1);
    assert_eq!(f.stacksize, 16);
    assert_eq!(f.clone(), f);
    let call = IROp::Call(String::from("g"), 2, vec![1, 2]);
    assert_eq!(call.clone(), call);
}

#[test]
fn add_kill_label_append_one_instruction() {
    let mut g = IRGen::new();
    assert_eq!(g.nreg, 1);
    assert_eq!(g.nlabel, 0);
    add(&mut g, IROp::Mov, Some(1), Some(0));
    kill(&mut g, Some(1));
    label(&mut g, Some(3));
    assert_eq!(g.code, vec![ir(IROp::Mov, 1, 0), ir1(IROp::Kill, 1), ir1(IROp::Label, 3)]);
    assert_eq!(g.nreg, 1);
}

#[test]
fn fresh_registers_and_labels_count_up() {
    let mut g = IRGen::new();
    assert_eq!(g.new_reg().unwrap(), 1);
    assert_eq!(g.new_reg().unwrap(), 2);
    assert_eq!(g.new_label().unwrap(), 0);
    assert_eq!(g.new_label().unwrap(), 1);
    g.nreg = usize::MAX;
    assert_eq!(g.new_reg().unwrap_err().kind, ErrorKind::Overflow);
    g.nlabel = usize::MAX;
    assert_eq!(g.new_label().unwrap_err().kind, ErrorKind::Overflow);
}

#[test]
fn number_is_loaded_into_a_fresh_register() {
    let (r, g) = lower_expr(&lit(42));
    assert_eq!(r, 1);
    assert_eq!(g.code, vec![ir(IROp::Imm, 1, 42)]);
    assert_eq!(g.nreg, 2);
}

#[test]
fn negative_number_wraps_like_a_cast() {
    let (_, g) = lower_expr(&lit(-1));
    assert_eq!(g.code, vec![ir(IROp::Imm, 1, (-1i32) as usize)]);
}

#[test]
fn local_address_is_frame_pointer_minus_offset() {
    let mut g = IRGen::new();
    let r = gen_lval(&var(12), &mut g).unwrap();
    assert_eq!(r, 1);
    assert_eq!(g.code, vec![ir(IROp::Mov, 1, 0), ir(IROp::SubImm, 1, 12)]);
}

#[test]
fn lvalue_of_dereference_is_the_pointer_value() {
    let mut g = IRGen::new();
    let n = mk(NodeType::Deref(Box::new(ptr_var(8))));
    let r = gen_lval(&n, &mut g).unwrap();
    assert_eq!(r, 1);
    assert_eq!(g.code, vec![ir(IROp::Mov, 1, 0), ir(IROp::SubImm, 1, 8), ir(IROp::Load64, 1, 1)]);
}

#[test]
fn other_nodes_are_not_lvalues() {
    let mut g = IRGen::new();
    assert_eq!(gen_lval(&lit(1), &mut g).unwrap_err().kind, ErrorKind::NotAnLvalue);
    let dot = mk(NodeType::Dot(Box::new(var(4)), String::from("x"), 0));
    assert_eq!(gen_lval(&dot, &mut g).unwrap_err().kind, ErrorKind::NotAnLvalue);
    let glob = mk(NodeType::Lvar(Scope::Global(String::new(), 0, false)));
    assert_eq!(gen_lval(&glob, &mut g).unwrap_err().kind, ErrorKind::NotAnLvalue);
    assert_eq!(expr_error(&binop(TokenType::Equal, lit(1), lit(2))), ErrorKind::NotAnLvalue);
}

#[test]
fn variable_load_width_follows_type() {
    let (_, g) = lower_expr(&var(4));
    assert_eq!(g.code[2], ir(IROp::Load32, 1, 1));
    let (_, g) = lower_expr(&ptr_var(8));
    assert_eq!(g.code[2], ir(IROp::Load64, 1, 1));
}

#[test]
fn address_of_gives_the_address() {
    let (r, g) = lower_expr(&mk(NodeType::Addr(Box::new(var(4)))));
    assert_eq!(r, 1);
    assert_eq!(g.code, vec![ir(IROp::Mov, 1, 0), ir(IROp::SubImm, 1, 4)]);
}

#[test]
fn binary_operation_kills_right_operand() {
    let (r, g) = lower_expr(&binop(TokenType::Mul, lit(2), lit(3)));
    assert_eq!(r, 1);
    assert_eq!(
        g.code,
        vec![ir(IROp::Imm, 1, 2), ir(IROp::Imm, 2, 3), ir(IROp::Mul, 1, 2), ir1(IROp::Kill, 2)]
    );
    let mut g = IRGen::new();
    let n = binop(TokenType::Plus, lit(2), lit(3));
    assert_eq!(gen_binop(IROp::LT, &n, &mut g).unwrap(), 1);
    assert_eq!(g.code[2], ir(IROp::LT, 1, 2));
    assert_eq!(gen_binop(IROp::LT, &lit(1), &mut g).unwrap_err().kind, ErrorKind::UnknownNode);
}

#[test]
fn comparison_lowers_to_lt() {
    let (_, g) = lower_expr(&binop(TokenType::LeftAngleBracket, lit(1), lit(2)));
    assert_eq!(g.code[2], ir(IROp::LT, 1, 2));
}

#[test]
fn unknown_operator_is_rejected() {
    assert_eq!(expr_error(&binop(TokenType::Comma, lit(1), lit(2))), ErrorKind::UnknownOperator);
}

#[test]
fn pointer_addition_scales_the_integer() {
    // int *p; p + 1;
    let n = binop(TokenType::Plus, ptr_var(8), lit(1));
    let (r, g) = lower_expr(&n);
    assert_eq!(r, 3);
    assert_eq!(
        g.code,
        vec![
            ir(IROp::Imm, 1, 1),
            ir(IROp::Imm, 2, 4),
            ir(IROp::Mul, 1, 2),
            ir1(IROp::Kill, 2),
            ir(IROp::Mov, 3, 0),
            ir(IROp::SubImm, 3, 8),
            ir(IROp::Load64, 3, 3),
            ir(IROp::Add, 3, 1),
            ir1(IROp::Kill, 1),
        ]
    );
    let mul = g.code.iter().position(|i| i.op == IROp::Mul).unwrap();
    let add = g.code.iter().position(|i| i.op == IROp::Add).unwrap();
    assert!(mul < add);
}

#[test]
fn pointer_subtraction_scales_by_pointee_size() {
    let pp = Type::ptr_to(ptr_type());
    let p = mk_typed(NodeType::Lvar(Scope::Local(8)), pp);
    let (_, g) = lower_expr(&binop(TokenType::Minus, p, lit(3)));
    assert_eq!(g.code[1], ir(IROp::Imm, 2, 8));
    assert_eq!(g.code[7], ir(IROp::Sub, 3, 1));
}

#[test]
fn pointer_multiplication_is_not_scaled() {
    let (_, g) = lower_expr(&binop(TokenType::Mul, ptr_var(8), lit(3)));
    assert_eq!(g.code.len(), 6);
    assert_eq!(g.code[4], ir(IROp::Mul, 1, 2));
}

#[test]
fn assignment_lowers_right_side_first() {
    let n = mk_typed(
        NodeType::BinOp(TokenType::Equal, Box::new(var(4)), Box::new(lit(1))),
        int_type(),
    );
    let (r, g) = lower_expr(&n);
    assert_eq!(r, 2);
    assert_eq!(
        g.code,
        vec![
            ir(IROp::Imm, 1, 1),
            ir(IROp::Mov, 2, 0),
            ir(IROp::SubImm, 2, 4),
            ir(IROp::Store32, 2, 1),
            ir1(IROp::Kill, 1),
        ]
    );
}

#[test]
fn assignment_to_pointer_stores_64_bits() {
    let n = mk_typed(
        NodeType::BinOp(TokenType::Equal, Box::new(ptr_var(8)), Box::new(lit(0))),
        ptr_type(),
    );
    let (_, g) = lower_expr(&n);
    assert_eq!(g.code[3], ir(IROp::Store64, 2, 1));
}

#[test]
fn logical_and_branches_past_the_right_operand() {
    let n = binop(TokenType::Logand, lit(5), lit(6));
    let (r, g) = lower_expr(&n);
    assert_eq!(r, 1);
    assert_eq!(g.nlabel, 1);
    assert_eq!(
        g.code,
        vec![
            ir(IROp::Imm, 1, 5),
            ir(IROp::Unless, 1, 0),
            ir(IROp::Imm, 2, 6),
            ir(IROp::Mov, 1, 2),
            ir1(IROp::Kill, 2),
            ir(IROp::Unless, 1, 0),
            ir(IROp::Imm, 1, 1),
            ir1(IROp::Label, 0),
        ]
    );
}

#[test]
fn logical_or_branches_past_the_right_operand() {
    let n = binop(TokenType::Logor, lit(5), lit(6));
    let (r, g) = lower_expr(&n);
    assert_eq!(r, 1);
    assert_eq!(g.nlabel, 2);
    assert_eq!(
        g.code,
        vec![
            ir(IROp::Imm, 1, 5),
            ir(IROp::Unless, 1, 0),
            ir(IROp::Imm, 1, 1),
            ir1(IROp::Jmp, 1),
            ir1(IROp::Label, 0),
            ir(IROp::Imm, 2, 6),
            ir(IROp::Mov, 1, 2),
            ir1(IROp::Kill, 2),
            ir(IROp::Unless, 1, 1),
            ir(IROp::Imm, 1, 1),
            ir1(IROp::Label, 1),
        ]
    );
}

#[test]
fn call_lowers_arguments_in_order_and_kills_them() {
    let n = mk(NodeType::Call(String::from("f"), vec![lit(7), lit(8)]));
    let (r, g) = lower_expr(&n);
    assert_eq!(r, 3);
    assert_eq!(
        g.code,
        vec![
            ir(IROp::Imm, 1, 7),
            ir(IROp::Imm, 2, 8),
            IR::new(IROp::Call(String::from("f"), 2, vec![1, 2]), Some(3), None),
            ir1(IROp::Kill, 1),
            ir1(IROp::Kill, 2),
        ]
    );
}

#[test]
fn call_without_arguments() {
    let n = mk(NodeType::Call(String::from("g"), vec![]));
    let (r, g) = lower_expr(&n);
    assert_eq!(r, 1);
    assert_eq!(g.code, vec![IR::new(IROp::Call(String::from("g"), 0, vec![]), Some(1), None)]);
}

#[test]
fn call_with_most_arguments_is_accepted() {
    assert_eq!(MAX_ARGS, 6);
    let args: Vec<Node> = (0..6).map(lit).collect();
    let n = mk(NodeType::Call(String::from("f"), args));
    let (r, g) = lower_expr(&n);
    assert_eq!(r, 7);
    assert_eq!(g.code.len(), 13);
}

#[test]
fn call_with_too_many_arguments_is_rejected() {
    let args: Vec<Node> = (0..7).map(lit).collect();
    let n = mk(NodeType::Call(String::from("f"), args));
    let mut g = IRGen::new();
    assert_eq!(gen_expr(&n, &mut g).unwrap_err().kind, ErrorKind::TooManyArguments);
    assert!(g.code.is_empty());
}

#[test]
fn dereference_loads_64_bits() {
    let (r, g) = lower_expr(&mk(NodeType::Deref(Box::new(ptr_var(8)))));
    assert_eq!(r, 1);
    assert_eq!(g.code[3], ir(IROp::Load64, 1, 1));
}

#[test]
fn unsupported_expression_is_rejected() {
    assert_eq!(expr_error(&ident("a")), ErrorKind::UnknownNode);
    assert_eq!(expr_error(&mk(NodeType::Null)), ErrorKind::UnknownNode);
    let g = mk(NodeType::Gvar(String::from("g"), String::new(), 0));
    assert_eq!(expr_error(&g), ErrorKind::UnknownNode);
}

#[test]
fn register_counter_overflow_is_rejected() {
    let mut g = IRGen::new();
    g.nreg = usize::MAX;
    assert_eq!(gen_expr(&lit(1), &mut g).unwrap_err().kind, ErrorKind::Overflow);
}

#[test]
fn definition_without_initializer_emits_nothing() {
    let g = lower_stmt(&def_at(4, int_type(), None));
    assert!(g.code.is_empty());
}

#[test]
fn definition_with_initializer_stores_the_value() {
    let g = lower_stmt(&def_at(4, int_type(), Some(lit(9))));
    assert_eq!(
        g.code,
        vec![
            ir(IROp::Imm, 1, 9),
            ir(IROp::Mov, 2, 0),
            ir(IROp::SubImm, 2, 4),
            ir(IROp::Store32, 2, 1),
            ir1(IROp::Kill, 2),
            ir1(IROp::Kill, 1),
        ]
    );
    let g = lower_stmt(&def_at(8, ptr_type(), Some(lit(0))));
    assert_eq!(g.code[3], ir(IROp::Store64, 2, 1));
}

#[test]
fn definition_of_global_with_initializer_is_rejected() {
    let n = mk(NodeType::Vardef(
        String::from("g"),
        Some(Box::new(lit(1))),
        Scope::Global(String::new(), 4, false),
    ));
    assert_eq!(stmt_error(&n), ErrorKind::UnknownNode);
}

#[test]
fn if_without_else() {
    let n = mk(NodeType::If(Box::new(lit(1)), Box::new(expr_stmt(lit(2))), None));
    let g = lower_stmt(&n);
    assert_eq!(
        g.code,
        vec![
            ir(IROp::Imm, 1, 1),
            ir(IROp::Unless, 1, 0),
            ir1(IROp::Kill, 1),
            ir(IROp::Imm, 2, 2),
            ir1(IROp::Kill, 2),
            ir1(IROp::Label, 0),
        ]
    );
}

#[test]
fn if_with_else() {
    let n = mk(NodeType::If(
        Box::new(lit(1)),
        Box::new(expr_stmt(lit(2))),
        Some(Box::new(expr_stmt(lit(3)))),
    ));
    let g = lower_stmt(&n);
    assert_eq!(
        g.code,
        vec![
            ir(IROp::Imm, 1, 1),
            ir(IROp::Unless, 1, 0),
            ir1(IROp::Kill, 1),
            ir(IROp::Imm, 2, 2),
            ir1(IROp::Kill, 2),
            ir1(IROp::Jmp, 1),
            ir1(IROp::Label, 0),
            ir(IROp::Imm, 3, 3),
            ir1(IROp::Kill, 3),
            ir1(IROp::Label, 1),
        ]
    );
    assert_eq!(g.nlabel, 2);
}

#[test]
fn for_loop() {
    let n = mk(NodeType::For(
        Box::new(expr_stmt(lit(1))),
        Box::new(lit(2)),
        Box::new(lit(3)),
        Box::new(expr_stmt(lit(4))),
    ));
    let g = lower_stmt(&n);
    assert_eq!(
        g.code,
        vec![
            ir(IROp::Imm, 1, 1),
            ir1(IROp::Kill, 1),
            ir1(IROp::Label, 0),
            ir(IROp::Imm, 2, 2),
            ir(IROp::Unless, 2, 1),
            ir1(IROp::Kill, 2),
            ir(IROp::Imm, 3, 4),
            ir1(IROp::Kill, 3),
            ir(IROp::Imm, 4, 3),
            ir1(IROp::Kill, 4),
            ir1(IROp::Jmp, 0),
            ir1(IROp::Label, 1),
        ]
    );
}

#[test]
fn return_and_expression_statement() {
    let g = lower_stmt(&ret(lit(1)));
    assert_eq!(g.code, vec![ir(IROp::Imm, 1, 1), ir1(IROp::Return, 1), ir1(IROp::Kill, 1)]);
    let g = lower_stmt(&expr_stmt(lit(1)));
    assert_eq!(g.code, vec![ir(IROp::Imm, 1, 1), ir1(IROp::Kill, 1)]);
}

#[test]
fn block_lowers_statements_in_order() {
    let g = lower_stmt(&comp(vec![expr_stmt(lit(1)), comp(vec![]), ret(lit(2))]));
    assert_eq!(
        g.code,
        vec![
            ir(IROp::Imm, 1, 1),
            ir1(IROp::Kill, 1),
            ir(IROp::Imm, 2, 2),
            ir1(IROp::Return, 2),
            ir1(IROp::Kill, 2),
        ]
    );
}

#[test]
fn block_stops_at_first_error() {
    assert_eq!(
        stmt_error(&comp(vec![expr_stmt(lit(1)), mk(NodeType::Break), ret(lit(2))])),
        ErrorKind::UnknownNode
    );
    assert_eq!(stmt_error(&lit(1)), ErrorKind::UnknownNode);
    assert_eq!(stmt_error(&expr_stmt(ident("a"))), ErrorKind::UnknownNode);
}

#[test]
fn label_counter_overflow_is_rejected() {
    let mut g = IRGen::new();
    g.nlabel = usize::MAX;
    let n = mk(NodeType::If(Box::new(lit(1)), Box::new(comp(vec![])), None));
    assert_eq!(gen_stmt(&n, &mut g).unwrap_err().kind, ErrorKind::Overflow);
    let mut g = IRGen::new();
    g.nlabel = usize::MAX - 1;
    let n = mk(NodeType::If(
        Box::new(lit(1)),
        Box::new(comp(vec![])),
        Some(Box::new(comp(vec![]))),
    ));
    assert_eq!(gen_stmt(&n, &mut g).unwrap_err().kind, ErrorKind::Overflow);
}

#[test]
fn prologue_stores_parameters_in_order() {
    let f = function(
        "f",
        vec![def_at(4, int_type(), None), def_at(16, ptr_type(), None)],
        comp(vec![]),
        16,
    );
    let fns = gen_ir(vec![f]).unwrap();
    assert_eq!(fns.len(), 1);
    assert_eq!(fns[0].name, "f");
    assert_eq!(fns[0].stacksize, 16);
    assert_eq!(fns[0].ir, vec![ir(IROp::Store32Arg, 4, 0), ir(IROp::Store64Arg, 16, 1)]);
}

#[test]
fn parameter_that_is_no_local_is_rejected() {
    let f = function("f", vec![lit(1)], comp(vec![]), 0);
    assert_eq!(gen_ir(vec![f]).unwrap_err().kind, ErrorKind::UnknownNode);
}

#[test]
fn top_level_non_function_is_rejected() {
    assert_eq!(gen_ir(vec![lit(1)]).unwrap_err().kind, ErrorKind::NotAFunction);
    assert!(gen_ir(vec![]).unwrap().is_empty());
}

#[test]
fn registers_restart_at_one_in_each_function_and_labels_go_on() {
    let body = || {
        comp(vec![
            mk(NodeType::If(Box::new(lit(1)), Box::new(expr_stmt(lit(2))), None)),
            ret(binop(TokenType::Plus, lit(3), lit(4))),
        ])
    };
    let fns = gen_ir(vec![function("f", vec![], body(), 0), function("g", vec![], body(), 0)])
        .unwrap();
    assert_eq!(fns.len(), 2);
    let code = |x: usize| {
        vec![
            ir(IROp::Imm, 1, 1),
            ir(IROp::Unless, 1, x),
            ir1(IROp::Kill, 1),
            ir(IROp::Imm, 2, 2),
            ir1(IROp::Kill, 2),
            ir1(IROp::Label, x),
            ir(IROp::Imm, 3, 3),
            ir(IROp::Imm, 4, 4),
            ir(IROp::Add, 3, 4),
            ir1(IROp::Kill, 4),
            ir1(IROp::Return, 3),
            ir1(IROp::Kill, 3),
        ]
    };
    assert_eq!(fns[0].ir, code(0));
    assert_eq!(fns[1].ir, code(1));
}

#[test]
fn fresh_registers_increase_by_one() {
    let n = binop(
        TokenType::Plus,
        binop(TokenType::Mul, lit(1), lit(2)),
        binop(TokenType::Div, lit(3), lit(4)),
    );
    let (_, g) = lower_expr(&n);
    let fresh: Vec<usize> = g
        .code
        .iter()
        .filter(|i| i.op == IROp::Imm)
        .map(|i| i.lhs.unwrap())
        .collect();
    assert_eq!(fresh, vec![1, 2, 3, 4]);
    assert_eq!(g.nreg, 5);
}

#[test]
fn gen_func_threads_the_label_counter() {
    let f = function(
        "f",
        vec![],
        mk(NodeType::If(Box::new(lit(1)), Box::new(comp(vec![])), None)),
        0,
    );
    let mut nlabel = 5;
    let out = gen_func(&f, &mut nlabel).unwrap();
    assert_eq!(nlabel, 6);
    assert_eq!(out.ir[1], ir(IROp::Unless, 1, 5));
    assert_eq!(gen_func(&lit(1), &mut nlabel).unwrap_err().kind, ErrorKind::NotAFunction);
}

#[test]
fn main_that_assigns_and_returns() {
    // int main() { int a; a = 1; return a; }
    let body = comp(vec![
        def("a", int_type(), None),
        expr_stmt(binop(TokenType::Equal, ident("a"), lit(1))),
        ret(ident("a")),
    ]);
    let (typed, globals) = sema(vec![function("main", vec![], body, 0)]).unwrap();
    assert!(globals.is_empty());
    match &typed[0].op {
        NodeType::Func(_, _, body, size) => {
            assert_eq!(*size, 4);
            match &body.op {
                NodeType::CompStmt(s) => assert_eq!(s[0], def_named_a_at_4()),
                other => panic!("{:?}", other),
            }
        },
        other => panic!("{:?}", other),
    }
    let fns = gen_ir(typed).unwrap();
    assert_eq!(fns.len(), 1);
    assert_eq!(fns[0].name, "main");
    assert_eq!(fns[0].stacksize, 4);
    assert_eq!(
        fns[0].ir,
        vec![
            ir(IROp::Imm, 1, 1),
            ir(IROp::Mov, 2, 0),
            ir(IROp::SubImm, 2, 4),
            ir(IROp::Store32, 2, 1),
            ir1(IROp::Kill, 1),
            ir1(IROp::Kill, 2),
            ir(IROp::Mov, 3, 0),
            ir(IROp::SubImm, 3, 4),
            ir(IROp::Load32, 3, 3),
            ir1(IROp::Return, 3),
            ir1(IROp::Kill, 3),
        ]
    );
    assert!(fns[0].is_wf());
    assert_eq!(
        dump_ir(&fns),
        "main(): \n  MOV r1, 1\n  MOV r2, r0\n  SUB r2, 4\n  STORE32 r2, r1\n  KILL r1\n  KILL r2\n  MOV r3, r0\n  SUB r3, 4\n  LOAD32 r3, r3\n  RET r3\n  KILL r3\n"
    );
}

fn def_named_a_at_4() -> Node {
    mk_typed(NodeType::Vardef(String::from("a"), None, Scope::Local(4)), int_type())
}

#[test]
fn every_form_has_its_text() {
    let text = lines(&[
        ir1(IROp::Label, 3),
        ir1(IROp::Kill, 12),
        ir1(IROp::Return, 1),
        ir1(IROp::Jmp, 7),
        ir(IROp::Add, 1, 2),
        ir(IROp::Imm, 4, 100),
        ir(IROp::SubImm, 4, 8),
        ir(IROp::Store64Arg, 16, 1),
        ir(IROp::Unless, 2, 5),
        IR::new(IROp::Call(String::from("foo"), 2, vec![3, 4]), Some(5), None),
        IR::new(IROp::Call(String::from("bar"), 0, vec![]), Some(1), None),
        IR::new(IROp::Nop, None, None),
    ]);
    assert_eq!(
        text,
        vec![
            ".L3=>",
            "  KILL r12",
            "  RET r1",
            "  JMP .L7",
            "  ADD r1, r2",
            "  MOV r4, 100",
            "  SUB r4, 8",
            "  STORE64_ARG 16, 1",
            "  UNLESS r2, .L5",
            "  r5 = foo(, r3, r4)",
            "  r1 = bar()",
            "  NOP",
        ]
    );
}

#[test]
fn call_text_shows_as_many_arguments_as_it_counts() {
    let i = IR::new(IROp::Call(String::from("f"), 1, vec![3, 4]), Some(5), None);
    assert!(i.is_wf());
    assert_eq!(i.to_string(), "  r5 = f(, r3)");
}

#[test]
fn instruction_without_its_operands_is_not_well_formed() {
    assert!(!IR::new(IROp::Add, Some(1), None).is_wf());
    assert!(!IR::new(IROp::Kill, None, None).is_wf());
    assert!(!IR::new(IROp::Call(String::from("f"), 2, vec![1]), Some(1), None).is_wf());
    assert!(!IR::new(IROp::Call(String::from("f"), 0, vec![]), None, None).is_wf());
    assert!(IR::new(IROp::Nop, None, None).is_wf());
    let f = Function::new(String::from("f"), vec![IR::new(IROp::Add, None, None)], 0);
    assert!(!f.is_wf());
}

#[test]
fn dump_of_several_functions() {
    let f = Function::new(String::from("f"), vec![ir1(IROp::Return, 1)], 0);
    let g = Function::new(String::from("g"), vec![], 0);
    assert_eq!(dump_ir(&vec![f, g]), "f(): \n  RET r1\ng(): \n");
    assert_eq!(dump_ir(&vec![]), "");
}

#[test]
fn decimal_numerals() {
    assert_eq!(decimal_string(0), "0");
    assert_eq!(decimal_string(9), "9");
    assert_eq!(decimal_string(10), "10");
    assert_eq!(decimal_string(1234567890), "1234567890");
    assert_eq!(decimal_string(usize::MAX), format!("{}", usize::MAX));
}

#[test]
fn struct_types_survive_lowering_of_their_uses() {
    let s = Type::new(Ctype::Struct(vec![]), 0, 1);
    let n = mk_typed(NodeType::Lvar(Scope::Local(8)), s);
    let (_, g) = lower_expr(&n);
    assert_eq!(g.code[2], ir(IROp::Load32, 1, 1));
}

/// Runs code that is made of moves, branches and calls: the calls are
/// counted, and each gives 7. Returns what register `result` holds at the
/// end, and the number of calls.
fn run_code(code: &[IR], result: usize) -> (usize, usize) {
    let mut regs = vec![0usize; 64];
    let mut calls = 0;
    let mut pc = 0;
    let mut steps = 0;
    while pc < code.len() {
        steps += 1;
        assert!(steps < 1000);
        let i = &code[pc];
        let target = |x: usize| {
            code.iter().position(|j| j.op == IROp::Label && j.lhs == Some(x)).unwrap()
        };
        pc += 1;
        match &i.op {
            IROp::Imm => regs[i.lhs.unwrap()] = i.rhs.unwrap(),
            IROp::Mov => regs[i.lhs.unwrap()] = regs[i.rhs.unwrap()],
            IROp::Unless => {
                if regs[i.lhs.unwrap()] == 0 {
                    pc = target(i.rhs.unwrap());
                }
            },
            IROp::Jmp => pc = target(i.lhs.unwrap()),
            IROp::Call(_, _, _) => {
                calls += 1;
                regs[i.lhs.unwrap()] = 7;
            },
            IROp::Label | IROp::Kill | IROp::Nop => {},
            other => panic!("{:?}", other),
        }
    }
    (regs[result], calls)
}

fn call0() -> Node {
    mk(NodeType::Call(String::from("f"), vec![]))
}

#[test]
fn logical_and_gives_zero_or_one_and_skips_right_operand() {
    for (l, expected, expected_calls) in [(0, 0, 0), (1, 1, 1), (5, 1, 1)] {
        let (r, g) = lower_expr(&binop(TokenType::Logand, lit(l), call0()));
        assert_eq!(run_code(&g.code, r), (expected, expected_calls));
    }
    for (l, rr, expected) in [(0, 0, 0), (0, 3, 0), (2, 0, 0), (2, 3, 1)] {
        let (r, g) = lower_expr(&binop(TokenType::Logand, lit(l), lit(rr)));
        assert_eq!(run_code(&g.code, r).0, expected);
    }
}

#[test]
fn logical_or_gives_zero_or_one_and_skips_right_operand() {
    for (l, expected, expected_calls) in [(0, 1, 1), (1, 1, 0), (5, 1, 0)] {
        let (r, g) = lower_expr(&binop(TokenType::Logor, lit(l), call0()));
        assert_eq!(run_code(&g.code, r), (expected, expected_calls));
    }
    for (l, rr, expected) in [(0, 0, 0), (0, 3, 1), (2, 0, 1), (2, 3, 1)] {
        let (r, g) = lower_expr(&binop(TokenType::Logor, lit(l), lit(rr)));
        assert_eq!(run_code(&g.code, r).0, expected);
    }
}

#[test]
fn nested_logical_operators_give_zero_or_one() {
    for a in [0, 4] {
        for b in [0, 5] {
            for c in [0, 6] {
                let n = binop(
                    TokenType::Logor,
                    binop(TokenType::Logand, lit(a), lit(b)),
                    lit(c),
                );
                let (r, g) = lower_expr(&n);
                let want = if (a != 0 && b != 0) || c != 0 { 1 } else { 0 };
                assert_eq!(run_code(&g.code, r).0, want);
                let n = binop(
                    TokenType::Logand,
                    lit(a),
                    binop(TokenType::Logor, lit(b), lit(c)),
                );
                let (r, g) = lower_expr(&n);
                let want = if a != 0 && (b != 0 || c != 0) { 1 } else { 0 };
                assert_eq!(run_code(&g.code, r).0, want);
            }
        }
    }
}

#[test]
fn labels_are_defined_once_in_the_whole_unit() {
    let body = || {
        comp(vec![
            mk(NodeType::If(
                Box::new(binop(TokenType::Logor, lit(1), lit(2))),
                Box::new(expr_stmt(binop(TokenType::Logand, lit(1), lit(2)))),
                Some(Box::new(comp(vec![]))),
            )),
            mk(NodeType::For(
                Box::new(comp(vec![])),
                Box::new(lit(1)),
                Box::new(lit(2)),
                Box::new(comp(vec![])),
            )),
        ])
    };
    let fns = gen_ir(vec![function("f", vec![], body(), 0), function("g", vec![], body(), 0)])
        .unwrap();
    let mut seen = Vec::new();
    for f in &fns {
        assert!(f.is_wf());
        for i in &f.ir {
            if i.op == IROp::Label {
                assert!(!seen.contains(&i.lhs));
                seen.push(i.lhs);
            }
        }
    }
    assert_eq!(seen.len(), 14);
}

#[test]
fn generated_code_never_writes_the_frame_pointer() {
    let body = comp(vec![
        def_at(4, int_type(), Some(lit(1))),
        expr_stmt(binop(TokenType::Plus, ptr_var(16), var(4))),
        ret(mk(NodeType::Call(String::from("f"), vec![var(4), lit(2)]))),
    ]);
    let fns = gen_ir(vec![function("f", vec![def_at(4, int_type(), None)], body, 16)]).unwrap();
    let nreg = 1 + fns[0]
        .ir
        .iter()
        .filter(|i| i.op.info().ty != IRType::ImmImm)
        .filter_map(|i| i.lhs)
        .max()
        .unwrap();
    for i in &fns[0].ir {
        match i.op.info().ty {
            IRType::RegReg => {
                assert!(i.lhs.unwrap() >= 1);
                assert!(i.rhs.unwrap() < nreg);
            },
            IRType::RegImm | IRType::Reg | IRType::RegLabel | IRType::Call => {
                assert!(i.lhs.unwrap() >= 1);
            },
            _ => {},
        }
    }
}

#[test]
fn every_register_is_marked_dead_exactly_once() {
    let body = comp(vec![
        def_at(4, int_type(), Some(binop(TokenType::Logor, lit(1), lit(2)))),
        mk(NodeType::If(
            Box::new(binop(TokenType::LeftAngleBracket, var(4), lit(3))),
            Box::new(expr_stmt(mk_typed(
                NodeType::BinOp(
                    TokenType::Equal,
                    Box::new(mk_typed(NodeType::Deref(Box::new(ptr_var(16))), int_type())),
                    Box::new(binop(TokenType::Plus, ptr_var(16), var(4))),
                ),
                int_type(),
            ))),
            Some(Box::new(mk(NodeType::For(
                Box::new(comp(vec![])),
                Box::new(lit(1)),
                Box::new(mk(NodeType::Call(String::from("g"), vec![var(4), lit(2), lit(3)]))),
                Box::new(comp(vec![])),
            )))),
        )),
        ret(mk(NodeType::Call(String::from("f"), vec![mk(NodeType::Addr(Box::new(var(4))))]))),
    ]);
    let fns = gen_ir(vec![function("f", vec![def_at(4, int_type(), None)], body, 16)]).unwrap();
    let code = &fns[0].ir;
    let nreg = 1 + code.iter().filter(|i| i.op == IROp::Kill).map(|i| i.lhs.unwrap()).max().unwrap();
    assert!(nreg > 10);
    for q in 0..nreg + 2 {
        let kills = code.iter().filter(|i| i.op == IROp::Kill && i.lhs == Some(q)).count();
        assert_eq!(kills, if 1 <= q && q < nreg { 1 } else { 0 });
        if let Some(k) = code.iter().position(|i| i.op == IROp::Kill && i.lhs == Some(q)) {
            for i in &code[k + 1..] {
                let names = match i.op.info().ty {
                    IRType::RegReg => i.lhs == Some(q) || i.rhs == Some(q),
                    IRType::RegImm | IRType::Reg | IRType::RegLabel => i.lhs == Some(q),
                    IRType::Call => match &i.op {
                        IROp::Call(_, _, args) => i.lhs == Some(q) || args.contains(&q),
                        _ => false,
                    },
                    _ => false,
                };
                assert!(!names);
            }
        }
    }
}
