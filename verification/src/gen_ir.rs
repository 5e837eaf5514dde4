//! The generator of intermediate code.
//!
//! A typed syntax tree is lowered to a flat sequence of three-address
//! instructions over an unbounded set of virtual registers. Register 0
//! always holds the frame pointer and is never assigned.

use vstd::prelude::*;
use crate::ast::nodes_view;
use crate::ast::opt_node_view;
use crate::ast::Node;
use crate::ast::NodeType;
use crate::ast::NodeTypeView;
use crate::ast::NodeView;
use crate::error::Error;
use crate::error::ErrorKind;
use crate::error::ErrorView;
use crate::token::TokenType;
use crate::types::Ctype;
use crate::types::CtypeView;
use crate::types::Scope;
use crate::types::ScopeView;

verus! {

/// How the operands of an instruction are to be read.
#[derive(Clone, Copy, Debug, PartialEq, Eq, Structural)]
pub enum IRType {
    Noarg,
    Reg,
    Imm,
    Jmp,
    Label,
    RegReg,
    RegImm,
    ImmImm,
    RegLabel,
    Call,
}

/// The mnemonic and the operand form of an opcode.
#[derive(Clone, Copy, Debug)]
pub struct IRInfo {
    pub name: &'static str,
    pub ty: IRType,
}

impl IRInfo {
    /// The description of an opcode with the given mnemonic and operand form.
    pub fn new(name: &'static str, ty: IRType) -> (info: Self)
        ensures
            info == (IRInfo { name, ty }),
    {
        IRInfo { name, ty }
    }
}

/// The opcodes.
#[derive(Debug, PartialEq, Eq)]
pub enum IROp {
    Add,
    Sub,
    Mul,
    Div,
    /// Loads an immediate into a register.
    Imm,
    /// Subtracts an immediate from a register.
    SubImm,
    Mov,
    Return,
    /// A call: the callee, the number of arguments, and the registers that hold them.
    Call(String, usize, Vec<usize>),
    Label,
    LT,
    Jmp,
    /// Jumps to a label unless a register holds a non-zero value.
    Unless,
    Load32,
    Load64,
    Store32,
    Store64,
    /// Stores an argument register into the frame.
    Store32Arg,
    Store64Arg,
    /// Marks a register as dead.
    Kill,
    Nop,
}

/// The mathematical value of an [`IROp`].
pub ghost enum IROpView {
    Add,
    Sub,
    Mul,
    Div,
    Imm,
    SubImm,
    Mov,
    Return,
    Call(Seq<char>, usize, Seq<usize>),
    Label,
    LT,
    Jmp,
    Unless,
    Load32,
    Load64,
    Store32,
    Store64,
    Store32Arg,
    Store64Arg,
    Kill,
    Nop,
}

impl View for IROp {
    type V = IROpView;

    open spec fn view(&self) -> IROpView {
        match self {
            IROp::Add => IROpView::Add,
            IROp::Sub => IROpView::Sub,
            IROp::Mul => IROpView::Mul,
            IROp::Div => IROpView::Div,
            IROp::Imm => IROpView::Imm,
            IROp::SubImm => IROpView::SubImm,
            IROp::Mov => IROpView::Mov,
            IROp::Return => IROpView::Return,
            IROp::Call(name, nargs, args) => IROpView::Call(name@, *nargs, args@),
            IROp::Label => IROpView::Label,
            IROp::LT => IROpView::LT,
            IROp::Jmp => IROpView::Jmp,
            IROp::Unless => IROpView::Unless,
            IROp::Load32 => IROpView::Load32,
            IROp::Load64 => IROpView::Load64,
            IROp::Store32 => IROpView::Store32,
            IROp::Store64 => IROpView::Store64,
            IROp::Store32Arg => IROpView::Store32Arg,
            IROp::Store64Arg => IROpView::Store64Arg,
            IROp::Kill => IROpView::Kill,
            IROp::Nop => IROpView::Nop,
        }
    }
}

impl Clone for IROp {
    fn clone(&self) -> (op: Self)
        ensures
            op@ == self@,
    {
        match self {
            IROp::Add => IROp::Add,
            IROp::Sub => IROp::Sub,
            IROp::Mul => IROp::Mul,
            IROp::Div => IROp::Div,
            IROp::Imm => IROp::Imm,
            IROp::SubImm => IROp::SubImm,
            IROp::Mov => IROp::Mov,
            IROp::Return => IROp::Return,
            IROp::Call(name, nargs, args) => IROp::Call(name.clone(), *nargs, args.clone()),
            IROp::Label => IROp::Label,
            IROp::LT => IROp::LT,
            IROp::Jmp => IROp::Jmp,
            IROp::Unless => IROp::Unless,
            IROp::Load32 => IROp::Load32,
            IROp::Load64 => IROp::Load64,
            IROp::Store32 => IROp::Store32,
            IROp::Store64 => IROp::Store64,
            IROp::Store32Arg => IROp::Store32Arg,
            IROp::Store64Arg => IROp::Store64Arg,
            IROp::Kill => IROp::Kill,
            IROp::Nop => IROp::Nop,
        }
    }
}

impl IROpView {
    /// The mnemonic and operand form of an opcode.
    pub open spec fn info(self) -> (Seq<char>, IRType) {
        match self {
            IROpView::Add => ("ADD"@, IRType::RegReg),
            IROpView::Call(_, _, _) => ("CALL"@, IRType::Call),
            IROpView::Div => ("DIV"@, IRType::RegReg),
            IROpView::Imm => ("MOV"@, IRType::RegImm),
            IROpView::Jmp => ("JMP"@, IRType::Jmp),
            IROpView::Kill => ("KILL"@, IRType::Reg),
            IROpView::Label => (""@, IRType::Label),
            IROpView::LT => ("LT"@, IRType::RegReg),
            IROpView::Load32 => ("LOAD32"@, IRType::RegReg),
            IROpView::Load64 => ("LOAD64"@, IRType::RegReg),
            IROpView::Mov => ("MOV"@, IRType::RegReg),
            IROpView::Mul => ("MUL"@, IRType::RegReg),
            IROpView::Nop => ("NOP"@, IRType::Noarg),
            IROpView::Return => ("RET"@, IRType::Reg),
            IROpView::Store32 => ("STORE32"@, IRType::RegReg),
            IROpView::Store64 => ("STORE64"@, IRType::RegReg),
            IROpView::Store32Arg => ("STORE32_ARG"@, IRType::ImmImm),
            IROpView::Store64Arg => ("STORE64_ARG"@, IRType::ImmImm),
            IROpView::Sub => ("SUB"@, IRType::RegReg),
            IROpView::SubImm => ("SUB"@, IRType::RegImm),
            IROpView::Unless => ("UNLESS"@, IRType::RegLabel),
        }
    }

    /// The instruction for a binary operator, where there is one.
    pub open spec fn from_token_type(ty: TokenType) -> Option<IROpView> {
        match ty {
            TokenType::Plus => Some(IROpView::Add),
            TokenType::Minus => Some(IROpView::Sub),
            TokenType::Mul => Some(IROpView::Mul),
            TokenType::Div => Some(IROpView::Div),
            TokenType::LeftAngleBracket | TokenType::RightAngleBracket => Some(IROpView::LT),
            _ => None,
        }
    }
}

impl IROp {
    /// The mnemonic and operand form of this opcode.
    pub open spec fn spec_info(&self) -> IRInfo {
        match self {
            IROp::Add => IRInfo { name: "ADD", ty: IRType::RegReg },
            IROp::Call(_, _, _) => IRInfo { name: "CALL", ty: IRType::Call },
            IROp::Div => IRInfo { name: "DIV", ty: IRType::RegReg },
            IROp::Imm => IRInfo { name: "MOV", ty: IRType::RegImm },
            IROp::Jmp => IRInfo { name: "JMP", ty: IRType::Jmp },
            IROp::Kill => IRInfo { name: "KILL", ty: IRType::Reg },
            IROp::Label => IRInfo { name: "", ty: IRType::Label },
            IROp::LT => IRInfo { name: "LT", ty: IRType::RegReg },
            IROp::Load32 => IRInfo { name: "LOAD32", ty: IRType::RegReg },
            IROp::Load64 => IRInfo { name: "LOAD64", ty: IRType::RegReg },
            IROp::Mov => IRInfo { name: "MOV", ty: IRType::RegReg },
            IROp::Mul => IRInfo { name: "MUL", ty: IRType::RegReg },
            IROp::Nop => IRInfo { name: "NOP", ty: IRType::Noarg },
            IROp::Return => IRInfo { name: "RET", ty: IRType::Reg },
            IROp::Store32 => IRInfo { name: "STORE32", ty: IRType::RegReg },
            IROp::Store64 => IRInfo { name: "STORE64", ty: IRType::RegReg },
            IROp::Store32Arg => IRInfo { name: "STORE32_ARG", ty: IRType::ImmImm },
            IROp::Store64Arg => IRInfo { name: "STORE64_ARG", ty: IRType::ImmImm },
            IROp::Sub => IRInfo { name: "SUB", ty: IRType::RegReg },
            IROp::SubImm => IRInfo { name: "SUB", ty: IRType::RegImm },
            IROp::Unless => IRInfo { name: "UNLESS", ty: IRType::RegLabel },
        }
    }

    /// The mnemonic and operand form of this opcode.
    pub fn info(&self) -> (info: IRInfo)
        ensures
            info == self.spec_info(),
            (info.name@, info.ty) == self@.info(),
    {
        match self {
            IROp::Add => IRInfo::new("ADD", IRType::RegReg),
            IROp::Call(_, _, _) => IRInfo::new("CALL", IRType::Call),
            IROp::Div => IRInfo::new("DIV", IRType::RegReg),
            IROp::Imm => IRInfo::new("MOV", IRType::RegImm),
            IROp::Jmp => IRInfo::new("JMP", IRType::Jmp),
            IROp::Kill => IRInfo::new("KILL", IRType::Reg),
            IROp::Label => IRInfo::new("", IRType::Label),
            IROp::LT => IRInfo::new("LT", IRType::RegReg),
            IROp::Load32 => IRInfo::new("LOAD32", IRType::RegReg),
            IROp::Load64 => IRInfo::new("LOAD64", IRType::RegReg),
            IROp::Mov => IRInfo::new("MOV", IRType::RegReg),
            IROp::Mul => IRInfo::new("MUL", IRType::RegReg),
            IROp::Nop => IRInfo::new("NOP", IRType::Noarg),
            IROp::Return => IRInfo::new("RET", IRType::Reg),
            IROp::Store32 => IRInfo::new("STORE32", IRType::RegReg),
            IROp::Store64 => IRInfo::new("STORE64", IRType::RegReg),
            IROp::Store32Arg => IRInfo::new("STORE32_ARG", IRType::ImmImm),
            IROp::Store64Arg => IRInfo::new("STORE64_ARG", IRType::ImmImm),
            IROp::Sub => IRInfo::new("SUB", IRType::RegReg),
            IROp::SubImm => IRInfo::new("SUB", IRType::RegImm),
            IROp::Unless => IRInfo::new("UNLESS", IRType::RegLabel),
        }
    }

    /// The instruction for a binary operator, where there is one.
    pub fn from_token_type(ty: TokenType) -> (r: Option<IROp>)
        ensures
            match IROpView::from_token_type(ty) {
                Some(op) => r matches Some(x) && x@ == op,
                None => r is None,
            },
    {
        match ty {
            TokenType::Plus => Some(IROp::Add),
            TokenType::Minus => Some(IROp::Sub),
            TokenType::Mul => Some(IROp::Mul),
            TokenType::Div => Some(IROp::Div),
            TokenType::LeftAngleBracket | TokenType::RightAngleBracket => Some(IROp::LT),
            _ => None,
        }
    }

    /// The instruction for a binary operation node.
    pub fn from_node_type(op: &NodeType) -> (r: Option<IROp>)
        ensures
            match op@ {
                NodeTypeView::BinOp(ty, _, _) => match IROpView::from_token_type(ty) {
                    Some(op) => r matches Some(x) && x@ == op,
                    None => r is None,
                },
                _ => r is None,
            },
    {
        match op {
            NodeType::BinOp(ty, _, _) => IROp::from_token_type(*ty),
            _ => None,
        }
    }
}

impl<'a> From<&'a IROp> for IRInfo {
    fn from(op: &'a IROp) -> (info: IRInfo) {
        op.info()
    }
}

impl<'a> vstd::std_specs::convert::FromSpecImpl<&'a IROp> for IRInfo {
    open spec fn obeys_from_spec() -> bool {
        true
    }

    open spec fn from_spec(op: &'a IROp) -> IRInfo {
        op.spec_info()
    }
}

/// One instruction: an opcode and up to two operands. What an operand
/// means (a register, an immediate, a label) is given by the opcode.
#[derive(Debug, PartialEq, Eq)]
pub struct IR {
    pub op: IROp,
    pub lhs: Option<usize>,
    pub rhs: Option<usize>,
}

/// The mathematical value of an [`IR`].
pub ghost struct IRView {
    pub op: IROpView,
    pub lhs: Option<usize>,
    pub rhs: Option<usize>,
}

impl View for IR {
    type V = IRView;

    open spec fn view(&self) -> IRView {
        IRView { op: self.op@, lhs: self.lhs, rhs: self.rhs }
    }
}

impl DeepView for IR {
    type V = IRView;

    open spec fn deep_view(&self) -> IRView {
        self@
    }
}

impl IR {
    /// An instruction with the given opcode and operands.
    pub fn new(op: IROp, lhs: Option<usize>, rhs: Option<usize>) -> (ir: Self)
        ensures
            ir == (IR { op, lhs, rhs }),
    {
        IR { op, lhs, rhs }
    }
}

impl Clone for IR {
    fn clone(&self) -> (ir: Self)
        ensures
            ir@ == self@,
    {
        IR { op: self.op.clone(), lhs: self.lhs, rhs: self.rhs }
    }
}

/// The instructions of a vector, as mathematical values.
pub open spec fn code_view(code: Seq<IR>) -> Seq<IRView> {
    Seq::new(code.len(), |i: int| code[i]@)
}

/// A lowered function: its name, its instructions, and the size of its
/// stack frame.
#[derive(Debug, PartialEq, Eq)]
pub struct Function {
    pub name: String,
    pub ir: Vec<IR>,
    pub stacksize: usize,
}

/// The mathematical value of a [`Function`].
pub ghost struct FunctionView {
    pub name: Seq<char>,
    pub ir: Seq<IRView>,
    pub stacksize: usize,
}

impl View for Function {
    type V = FunctionView;

    open spec fn view(&self) -> FunctionView {
        FunctionView { name: self.name@, ir: code_view(self.ir@), stacksize: self.stacksize }
    }
}

impl Function {
    /// A function with the given name, code and frame size.
    pub fn new(name: String, ir: Vec<IR>, stacksize: usize) -> (f: Self)
        ensures
            f == (Function { name, ir, stacksize }),
    {
        Function { name, ir, stacksize }
    }
}

impl Clone for Function {
    fn clone(&self) -> (f: Self)
        ensures
            f@ == self@,
    {
        let mut ir: Vec<IR> = Vec::new();
        let mut i: usize = 0;
        while i < self.ir.len()
            invariant
                i <= self.ir.len(),
                ir.len() == i,
                forall|j: int| 0 <= j < i ==> (#[trigger] ir[j])@ == self.ir[j]@,
            decreases self.ir.len() - i,
        {
            ir.push(self.ir[i].clone());
            i += 1;
        }
        assert(code_view(ir@) =~= code_view(self.ir@));
        Function { name: self.name.clone(), ir, stacksize: self.stacksize }
    }
}

/// The functions of a vector, as mathematical values.
pub open spec fn functions_view(fns: Seq<Function>) -> Seq<FunctionView> {
    Seq::new(fns.len(), |i: int| fns[i]@)
}

/// The most arguments a call can pass: one per argument register.
pub const MAX_ARGS: usize = 6;

/// The state of the generator: the next free register, the next free
/// label, and the code of the function at hand.
///
/// Registers are numbered from 1 in every function. Labels are numbered
/// from 0 over the whole translation unit.
#[derive(Debug, PartialEq, Eq)]
pub struct IRGen {
    pub nreg: usize,
    pub nlabel: usize,
    pub code: Vec<IR>,
}

/// The mathematical value of an [`IRGen`].
pub ghost struct IRGenView {
    pub nreg: usize,
    pub nlabel: usize,
    pub code: Seq<IRView>,
}

impl View for IRGen {
    type V = IRGenView;

    open spec fn view(&self) -> IRGenView {
        IRGenView { nreg: self.nreg, nlabel: self.nlabel, code: code_view(self.code@) }
    }
}

impl IRGenView {
    /// The state at the start of a translation unit.
    pub open spec fn start() -> IRGenView {
        IRGenView { nreg: 1, nlabel: 0, code: Seq::empty() }
    }

    /// The state with one more instruction.
    pub open spec fn emit(self, op: IROpView, lhs: Option<usize>, rhs: Option<usize>) -> IRGenView {
        IRGenView { code: self.code.push(IRView { op, lhs, rhs }), ..self }
    }

    /// The state with register `r` marked dead.
    pub open spec fn kill(self, r: usize) -> IRGenView {
        self.emit(IROpView::Kill, Some(r), None)
    }

    /// The state with label `x` defined at this point.
    pub open spec fn label(self, x: usize) -> IRGenView {
        self.emit(IROpView::Label, Some(x), None)
    }

    /// The state with every register of `regs` marked dead, in order.
    pub open spec fn kill_all(self, regs: Seq<usize>) -> IRGenView
        decreases regs.len(),
    {
        if regs.len() == 0 {
            self
        } else {
            self.kill_all(regs.drop_last()).kill(regs.last())
        }
    }

    /// A fresh register and the state after it was taken; `None` where
    /// the registers are used up.
    pub open spec fn fresh_reg(self) -> Option<(usize, IRGenView)> {
        if self.nreg == usize::MAX {
            None
        } else {
            Some((self.nreg, IRGenView { nreg: (self.nreg + 1) as usize, ..self }))
        }
    }

    /// A fresh label and the state after it was taken; `None` where the
    /// labels are used up.
    pub open spec fn fresh_label(self) -> Option<(usize, IRGenView)> {
        if self.nlabel == usize::MAX {
            None
        } else {
            Some((self.nlabel, IRGenView { nlabel: (self.nlabel + 1) as usize, ..self }))
        }
    }
}

/// What lowering an expression gives: the register that holds its value
/// and the state after it, or the first error.
pub type Lowered = Result<(usize, IRGenView), ErrorView>;

/// What lowering a statement gives.
pub type LoweredStmt = Result<IRGenView, ErrorView>;

/// The store of the width that suits a destination of type `ty`: 64 bits
/// for a pointer, 32 bits for anything else.
pub open spec fn store_op(ty: CtypeView) -> IROpView {
    if ty is Ptr {
        IROpView::Store64
    } else {
        IROpView::Store32
    }
}

/// The load of the width that suits a value of type `ty`.
pub open spec fn load_op(ty: CtypeView) -> IROpView {
    if ty is Ptr {
        IROpView::Load64
    } else {
        IROpView::Load32
    }
}

/// The instruction that stores an incoming argument of type `ty`.
pub open spec fn store_arg_op(ty: CtypeView) -> IROpView {
    if ty is Ptr {
        IROpView::Store64Arg
    } else {
        IROpView::Store32Arg
    }
}

/// The code that leaves the address of the local at `offset` in a fresh
/// register: the frame pointer less the offset.
pub open spec fn local_addr_spec(offset: usize, st: IRGenView) -> Lowered {
    match st.fresh_reg() {
        None => Err(ErrorView::bare(ErrorKind::Overflow)),
        Some((r, st1)) => Ok(
            (
                r,
                st1.emit(IROpView::Mov, Some(r), Some(0)).emit(IROpView::SubImm, Some(r), Some(offset)),
            ),
        ),
    }
}

/// The code that leaves the address of an lvalue in a register.
pub open spec fn gen_lval_spec(node: NodeView, st: IRGenView) -> Lowered
    decreases node, 0nat,
{
    match node.op {
        NodeTypeView::Deref(expr) => gen_expr_spec(*expr, st),
        NodeTypeView::Lvar(ScopeView::Local(offset)) => local_addr_spec(offset, st),
        _ => Err(ErrorView::bare(ErrorKind::NotAnLvalue)),
    }
}

/// The code of the binary operation `node` whose operands are both
/// values: the left operand, the right operand, the instruction `op`, and
/// the right operand's register is dead. The result is in the left
/// operand's register.
pub open spec fn gen_binop_spec(op: IROpView, node: NodeView, st: IRGenView) -> Lowered
    decreases node, 0nat,
{
    match node.op {
        NodeTypeView::BinOp(_, lhs, rhs) => match gen_expr_spec(*lhs, st) {
            Err(err) => Err(err),
            Ok((r1, st1)) => match gen_expr_spec(*rhs, st1) {
                Err(err) => Err(err),
                Ok((r2, st2)) => Ok((r1, st2.emit(op, Some(r1), Some(r2)).kill(r2))),
            },
        },
        _ => Err(ErrorView::bare(ErrorKind::UnknownNode)),
    }
}

/// The code that leaves the value of an expression in a register.
pub open spec fn gen_expr_spec(node: NodeView, st: IRGenView) -> Lowered
    decreases node, 1nat,
{
    match node.op {
        NodeTypeView::Num(val) => match st.fresh_reg() {
            None => Err(ErrorView::bare(ErrorKind::Overflow)),
            Some((r, st1)) => Ok((r, st1.emit(IROpView::Imm, Some(r), Some(val as usize)))),
        },
        NodeTypeView::Lvar(_) => match gen_lval_spec(node, st) {
            Err(err) => Err(err),
            Ok((r, st1)) => Ok((r, st1.emit(load_op(node.ty.ty), Some(r), Some(r)))),
        },
        NodeTypeView::Call(name, args) => if args.len() > MAX_ARGS {
            Err(ErrorView::bare(ErrorKind::TooManyArguments))
        } else {
            match gen_args_spec(args, st) {
                Err(err) => Err(err),
                Ok((regs, st1)) => match st1.fresh_reg() {
                    None => Err(ErrorView::bare(ErrorKind::Overflow)),
                    Some((r, st2)) => Ok(
                        (
                            r,
                            st2.emit(
                                IROpView::Call(name, args.len() as usize, regs),
                                Some(r),
                                None,
                            ).kill_all(regs),
                        ),
                    ),
                },
            }
        },
        NodeTypeView::Addr(expr) => gen_lval_spec(*expr, st),
        NodeTypeView::Deref(expr) => match gen_expr_spec(*expr, st) {
            Err(err) => Err(err),
            Ok((r, st1)) => Ok((r, st1.emit(IROpView::Load64, Some(r), Some(r)))),
        },
        NodeTypeView::BinOp(op, lhs, rhs) => match op {
            TokenType::Logand => match st.fresh_label() {
                None => Err(ErrorView::bare(ErrorKind::Overflow)),
                Some((x, st0)) => match gen_expr_spec(*lhs, st0) {
                    Err(err) => Err(err),
                    Ok((r1, st1)) => match gen_expr_spec(
                        *rhs,
                        st1.emit(IROpView::Unless, Some(r1), Some(x)),
                    ) {
                        Err(err) => Err(err),
                        Ok((r2, st2)) => Ok(
                            (
                                r1,
                                st2.emit(IROpView::Mov, Some(r1), Some(r2)).kill(r2).emit(
                                    IROpView::Unless,
                                    Some(r1),
                                    Some(x),
                                ).emit(IROpView::Imm, Some(r1), Some(1)).label(x),
                            ),
                        ),
                    },
                },
            },
            TokenType::Logor => match st.fresh_label() {
                None => Err(ErrorView::bare(ErrorKind::Overflow)),
                Some((x, sta)) => match sta.fresh_label() {
                    None => Err(ErrorView::bare(ErrorKind::Overflow)),
                    Some((y, st0)) => match gen_expr_spec(*lhs, st0) {
                        Err(err) => Err(err),
                        Ok((r1, st1)) => match gen_expr_spec(
                            *rhs,
                            st1.emit(IROpView::Unless, Some(r1), Some(x)).emit(
                                IROpView::Imm,
                                Some(r1),
                                Some(1),
                            ).emit(IROpView::Jmp, Some(y), None).label(x),
                        ) {
                            Err(err) => Err(err),
                            Ok((r2, st2)) => Ok(
                                (
                                    r1,
                                    st2.emit(IROpView::Mov, Some(r1), Some(r2)).kill(r2).emit(
                                        IROpView::Unless,
                                        Some(r1),
                                        Some(y),
                                    ).emit(IROpView::Imm, Some(r1), Some(1)).label(y),
                                ),
                            ),
                        },
                    },
                },
            },
            TokenType::Equal => match gen_expr_spec(*rhs, st) {
                Err(err) => Err(err),
                Ok((r, st1)) => match gen_lval_spec(*lhs, st1) {
                    Err(err) => Err(err),
                    Ok((l, st2)) => Ok(
                        (l, st2.emit(store_op(node.ty.ty), Some(l), Some(r)).kill(r)),
                    ),
                },
            },
            _ => match IROpView::from_token_type(op) {
                None => Err(ErrorView::bare(ErrorKind::UnknownOperator)),
                Some(insn) => match lhs.ty.ty {
                    CtypeView::Ptr(ptr_of) => if op == TokenType::Plus || op == TokenType::Minus {
                        // the integer is scaled by the size of what the pointer points to
                        match gen_expr_spec(*rhs, st) {
                            Err(err) => Err(err),
                            Ok((r, st1)) => match st1.fresh_reg() {
                                None => Err(ErrorView::bare(ErrorKind::Overflow)),
                                Some((scale, st2)) => match gen_expr_spec(
                                    *lhs,
                                    st2.emit(IROpView::Imm, Some(scale), Some(ptr_of.size)).emit(
                                        IROpView::Mul,
                                        Some(r),
                                        Some(scale),
                                    ).kill(scale),
                                ) {
                                    Err(err) => Err(err),
                                    Ok((l, st3)) => Ok(
                                        (l, st3.emit(insn, Some(l), Some(r)).kill(r)),
                                    ),
                                },
                            },
                        }
                    } else {
                        gen_binop_spec(insn, node, st)
                    },
                    _ => gen_binop_spec(insn, node, st),
                },
            },
        },
        _ => Err(ErrorView::bare(ErrorKind::UnknownNode)),
    }
}

/// The code of the arguments of a call, from the first to the last, and
/// the registers that hold them.
pub open spec fn gen_args_spec(args: Seq<NodeView>, st: IRGenView) -> Result<
    (Seq<usize>, IRGenView),
    ErrorView,
>
    decreases args, 2nat,
{
    if args.len() == 0 {
        Ok((Seq::empty(), st))
    } else {
        match gen_args_spec(args.drop_last(), st) {
            Err(err) => Err(err),
            Ok((regs, st1)) => match gen_expr_spec(args.last(), st1) {
                Err(err) => Err(err),
                Ok((r, st2)) => Ok((regs.push(r), st2)),
            },
        }
    }
}

/// The code of a statement.
pub open spec fn gen_stmt_spec(node: NodeView, st: IRGenView) -> LoweredStmt
    decreases node, 1nat,
{
    match node.op {
        NodeTypeView::Vardef(_, init, scope) => match init {
            None => Ok(st),
            Some(e) => match gen_expr_spec(*e, st) {
                Err(err) => Err(err),
                Ok((r, st1)) => match scope {
                    ScopeView::Local(offset) => match local_addr_spec(offset, st1) {
                        Err(err) => Err(err),
                        Ok((l, st2)) => Ok(
                            st2.emit(store_op(node.ty.ty), Some(l), Some(r)).kill(l).kill(r),
                        ),
                    },
                    _ => Err(ErrorView::bare(ErrorKind::UnknownNode)),
                },
            },
        },
        NodeTypeView::If(cond, then, els) => match els {
            None => match st.fresh_label() {
                None => Err(ErrorView::bare(ErrorKind::Overflow)),
                Some((x, st0)) => match gen_expr_spec(*cond, st0) {
                    Err(err) => Err(err),
                    Ok((r, st1)) => match gen_stmt_spec(
                        *then,
                        st1.emit(IROpView::Unless, Some(r), Some(x)).kill(r),
                    ) {
                        Err(err) => Err(err),
                        Ok(st2) => Ok(st2.label(x)),
                    },
                },
            },
            Some(e) => match st.fresh_label() {
                None => Err(ErrorView::bare(ErrorKind::Overflow)),
                Some((x, sta)) => match sta.fresh_label() {
                    None => Err(ErrorView::bare(ErrorKind::Overflow)),
                    Some((y, st0)) => match gen_expr_spec(*cond, st0) {
                        Err(err) => Err(err),
                        Ok((r, st1)) => match gen_stmt_spec(
                            *then,
                            st1.emit(IROpView::Unless, Some(r), Some(x)).kill(r),
                        ) {
                            Err(err) => Err(err),
                            Ok(st2) => match gen_stmt_spec(
                                *e,
                                st2.emit(IROpView::Jmp, Some(y), None).label(x),
                            ) {
                                Err(err) => Err(err),
                                Ok(st3) => Ok(st3.label(y)),
                            },
                        },
                    },
                },
            },
        },
        NodeTypeView::For(init, cond, inc, body) => match st.fresh_label() {
            None => Err(ErrorView::bare(ErrorKind::Overflow)),
            Some((x, sta)) => match sta.fresh_label() {
                None => Err(ErrorView::bare(ErrorKind::Overflow)),
                Some((y, st0)) => match gen_stmt_spec(*init, st0) {
                    Err(err) => Err(err),
                    Ok(st1) => match gen_expr_spec(*cond, st1.label(x)) {
                        Err(err) => Err(err),
                        Ok((r2, st2)) => match gen_stmt_spec(
                            *body,
                            st2.emit(IROpView::Unless, Some(r2), Some(y)).kill(r2),
                        ) {
                            Err(err) => Err(err),
                            Ok(st3) => match gen_expr_spec(*inc, st3) {
                                Err(err) => Err(err),
                                Ok((r3, st4)) => Ok(
                                    st4.kill(r3).emit(IROpView::Jmp, Some(x), None).label(y),
                                ),
                            },
                        },
                    },
                },
            },
        },
        NodeTypeView::Return(expr) => match gen_expr_spec(*expr, st) {
            Err(err) => Err(err),
            Ok((r, st1)) => Ok(st1.emit(IROpView::Return, Some(r), None).kill(r)),
        },
        NodeTypeView::ExprStmt(expr) => match gen_expr_spec(*expr, st) {
            Err(err) => Err(err),
            Ok((r, st1)) => Ok(st1.kill(r)),
        },
        NodeTypeView::CompStmt(stmts) => gen_stmts_spec(stmts, st),
        _ => Err(ErrorView::bare(ErrorKind::UnknownNode)),
    }
}

/// The code of a list of statements, from the first to the last.
pub open spec fn gen_stmts_spec(stmts: Seq<NodeView>, st: IRGenView) -> LoweredStmt
    decreases stmts, 2nat,
{
    if stmts.len() == 0 {
        Ok(st)
    } else {
        match gen_stmts_spec(stmts.drop_last(), st) {
            Err(err) => Err(err),
            Ok(st1) => gen_stmt_spec(stmts.last(), st1),
        }
    }
}

/// Whether what the lowering of an expression returned and left behind
/// is what `expected` says.
pub open spec fn lowered_as(r: Result<usize, Error>, after: IRGenView, expected: Lowered) -> bool {
    match expected {
        Ok((reg, s)) => r matches Ok(x) && x == reg && after == s,
        Err(e) => r matches Err(re) && re@ == e,
    }
}

/// Whether what the lowering of a statement returned and left behind is
/// what `expected` says.
pub open spec fn lowered_stmt_as(r: Result<(), Error>, after: IRGenView, expected: LoweredStmt) -> bool {
    match expected {
        Ok(s) => r is Ok && after == s,
        Err(e) => r matches Err(re) && re@ == e,
    }
}

/// Appends one instruction to the code.
pub fn add(gen: &mut IRGen, op: IROp, lhs: Option<usize>, rhs: Option<usize>)
    ensures
        final(gen)@ == old(gen)@.emit(op@, lhs, rhs),
{
    let ir = IR::new(op, lhs, rhs);
    proof {
        assert(code_view(gen.code@.push(ir)) =~= code_view(gen.code@).push(ir@));
    }
    gen.code.push(ir);
}

/// Marks register `r` as dead.
pub fn kill(gen: &mut IRGen, r: Option<usize>)
    ensures
        final(gen)@ == old(gen)@.emit(IROpView::Kill, r, None),
{
    self::add(gen, IROp::Kill, r, None);
}

/// Defines label `x` at this point of the code.
pub fn label(gen: &mut IRGen, x: Option<usize>)
    ensures
        final(gen)@ == old(gen)@.emit(IROpView::Label, x, None),
{
    self::add(gen, IROp::Label, x, None);
}

impl IRGen {
    /// The generator at the start of a translation unit.
    pub fn new() -> (gen: IRGen)
        ensures
            gen@ == IRGenView::start(),
    {
        let gen = IRGen { nreg: 1, nlabel: 0, code: Vec::new() };
        assert(code_view(gen.code@) =~= Seq::<IRView>::empty());
        gen
    }

    /// Takes a fresh register.
    pub fn new_reg(&mut self) -> (r: Result<usize, Error>)
        ensures
            match old(self)@.fresh_reg() {
                Some((reg, st)) => r matches Ok(x) && x == reg && final(self)@ == st,
                None => r matches Err(e) && e@ == ErrorView::bare(ErrorKind::Overflow) && final(self)@
                    == old(self)@,
            },
    {
        if self.nreg == usize::MAX {
            return Err(Error::bare(ErrorKind::Overflow));
        }
        let r = self.nreg;
        self.nreg = r + 1;
        Ok(r)
    }

    /// Takes a fresh label.
    pub fn new_label(&mut self) -> (r: Result<usize, Error>)
        ensures
            match old(self)@.fresh_label() {
                Some((x, st)) => r matches Ok(l) && l == x && final(self)@ == st,
                None => r matches Err(e) && e@ == ErrorView::bare(ErrorKind::Overflow) && final(self)@
                    == old(self)@,
            },
    {
        if self.nlabel == usize::MAX {
            return Err(Error::bare(ErrorKind::Overflow));
        }
        let x = self.nlabel;
        self.nlabel = x + 1;
        Ok(x)
    }
}

/// The store of the width that suits a destination of type `ty`.
fn store_for(ty: &Ctype) -> (op: IROp)
    ensures
        op@ == store_op(ty@),
{
    match ty {
        Ctype::Ptr(_) => IROp::Store64,
        _ => IROp::Store32,
    }
}

/// The load of the width that suits a value of type `ty`.
fn load_for(ty: &Ctype) -> (op: IROp)
    ensures
        op@ == load_op(ty@),
{
    match ty {
        Ctype::Ptr(_) => IROp::Load64,
        _ => IROp::Load32,
    }
}

/// Leaves the address of the local at `offset` in a fresh register.
fn local_addr(offset: usize, gen: &mut IRGen) -> (r: Result<usize, Error>)
    ensures
        lowered_as(r, final(gen)@, local_addr_spec(offset, old(gen)@)),
{
    let r = gen.new_reg()?;
    self::add(gen, IROp::Mov, Some(r), Some(0));
    self::add(gen, IROp::SubImm, Some(r), Some(offset));
    Ok(r)
}

/// Leaves the address of the lvalue `node` in a register.
pub fn gen_lval(node: &Node, gen: &mut IRGen) -> (r: Result<usize, Error>)
    ensures
        lowered_as(r, final(gen)@, gen_lval_spec(node@, old(gen)@)),
    decreases node, 0nat,
{
    match &node.op {
        NodeType::Deref(expr) => gen_expr(expr, gen),
        NodeType::Lvar(Scope::Local(offset)) => local_addr(*offset, gen),
        _ => Err(Error::bare(ErrorKind::NotAnLvalue)),
    }
}

/// Lowers the binary operation `node`, both of whose operands are values,
/// to the instruction `ty`.
pub fn gen_binop(ty: IROp, node: &Node, gen: &mut IRGen) -> (r: Result<usize, Error>)
    ensures
        lowered_as(r, final(gen)@, gen_binop_spec(ty@, node@, old(gen)@)),
    decreases node, 0nat,
{
    match &node.op {
        NodeType::BinOp(_, lhs, rhs) => {
            let r1 = gen_expr(lhs, gen)?;
            let r2 = gen_expr(rhs, gen)?;
            self::add(gen, ty, Some(r1), Some(r2));
            self::kill(gen, Some(r2));
            Ok(r1)
        },
        _ => Err(Error::bare(ErrorKind::UnknownNode)),
    }
}

/// An error among the first `k` arguments is the error of them all.
pub proof fn lemma_gen_args_err(args: Seq<NodeView>, st: IRGenView, k: int)
    requires
        0 <= k <= args.len(),
        gen_args_spec(args.take(k), st) is Err,
    ensures
        gen_args_spec(args, st) == gen_args_spec(args.take(k), st),
    decreases args.len() - k,
{
    if k < args.len() {
        assert(args.take(k + 1).drop_last() == args.take(k));
        lemma_gen_args_err(args, st, k + 1);
    } else {
        assert(args.take(k) == args);
    }
}

/// An error among the first `k` statements is the error of them all.
pub proof fn lemma_gen_stmts_err(stmts: Seq<NodeView>, st: IRGenView, k: int)
    requires
        0 <= k <= stmts.len(),
        gen_stmts_spec(stmts.take(k), st) is Err,
    ensures
        gen_stmts_spec(stmts, st) == gen_stmts_spec(stmts.take(k), st),
    decreases stmts.len() - k,
{
    if k < stmts.len() {
        assert(stmts.take(k + 1).drop_last() == stmts.take(k));
        lemma_gen_stmts_err(stmts, st, k + 1);
    } else {
        assert(stmts.take(k) == stmts);
    }
}

/// Lowers a call: the arguments from the first to the last, each into a
/// register of its own; the call; then every argument register is dead.
fn gen_call(node: &Node, gen: &mut IRGen) -> (r: Result<usize, Error>)
    requires
        node.op is Call,
    ensures
        lowered_as(r, final(gen)@, gen_expr_spec(node@, old(gen)@)),
    decreases node, 1nat,
{
    match &node.op {
        NodeType::Call(name, args) => {
            let ghost all = nodes_view(args@);
            proof {
                assert(node@.op == NodeTypeView::Call(name@, all));
                assert(all.len() == args.len());
            }
            if args.len() > MAX_ARGS {
                return Err(Error::bare(ErrorKind::TooManyArguments));
            }
            let mut regs: Vec<usize> = Vec::new();
            let mut i: usize = 0;
            proof {
                assert(all.take(0) == Seq::<NodeView>::empty());
            }
            while i < args.len()
                invariant
                    i <= args.len(),
                    node.op matches NodeType::Call(_, a) && a == args,
                    all == nodes_view(args@),
                    node@.op == NodeTypeView::Call(name@, all),
                    all.len() <= MAX_ARGS,
                    gen_args_spec(all.take(i as int), old(gen)@) == Ok::<
                        (Seq<usize>, IRGenView),
                        ErrorView,
                    >((regs@, gen@)),
                decreases args.len() - i,
            {
                proof {
                    assert(all.take(i as int + 1).drop_last() == all.take(i as int));
                    assert(all.take(i as int + 1).last() == args[i as int]@);
                }
                match gen_expr(&args[i], gen) {
                    Ok(r) => {
                        regs.push(r);
                    },
                    Err(e) => {
                        proof {
                            lemma_gen_args_err(all, old(gen)@, i as int + 1);
                        }
                        return Err(e);
                    },
                }
                i += 1;
            }
            proof {
                assert(all.take(args.len() as int) == all);
            }
            let r = gen.new_reg()?;
            self::add(gen, IROp::Call(name.clone(), args.len(), regs.clone()), Some(r), None);
            let ghost called = gen@;
            let mut k: usize = 0;
            while k < regs.len()
                invariant
                    k <= regs.len(),
                    gen@ == called.kill_all(regs@.take(k as int)),
                decreases regs.len() - k,
            {
                proof {
                    assert(regs@.take(k as int + 1).drop_last() == regs@.take(k as int));
                }
                self::kill(gen, Some(regs[k]));
                k += 1;
            }
            proof {
                assert(regs@.take(regs.len() as int) == regs@);
            }
            Ok(r)
        },
        _ => Err(Error::bare(ErrorKind::UnknownNode)),
    }
}

/// Lowers `&&` and `||` to branches: the right operand is only reached
/// where the left one does not decide, and the result is 0 or 1.
fn gen_logical(node: &Node, gen: &mut IRGen) -> (r: Result<usize, Error>)
    requires
        node.op matches NodeType::BinOp(op, _, _) && (op == TokenType::Logand || op
            == TokenType::Logor),
    ensures
        lowered_as(r, final(gen)@, gen_expr_spec(node@, old(gen)@)),
    decreases node, 1nat,
{
    match &node.op {
        NodeType::BinOp(TokenType::Logand, lhs, rhs) => {
            let x = gen.new_label()?;
            let r1 = gen_expr(lhs, gen)?;
            self::add(gen, IROp::Unless, Some(r1), Some(x));
            let r2 = gen_expr(rhs, gen)?;
            self::add(gen, IROp::Mov, Some(r1), Some(r2));
            self::kill(gen, Some(r2));
            self::add(gen, IROp::Unless, Some(r1), Some(x));
            self::add(gen, IROp::Imm, Some(r1), Some(1));
            self::label(gen, Some(x));
            Ok(r1)
        },
        NodeType::BinOp(TokenType::Logor, lhs, rhs) => {
            let x = gen.new_label()?;
            let y = gen.new_label()?;
            let r1 = gen_expr(lhs, gen)?;
            self::add(gen, IROp::Unless, Some(r1), Some(x));
            self::add(gen, IROp::Imm, Some(r1), Some(1));
            self::add(gen, IROp::Jmp, Some(y), None);
            self::label(gen, Some(x));
            let r2 = gen_expr(rhs, gen)?;
            self::add(gen, IROp::Mov, Some(r1), Some(r2));
            self::kill(gen, Some(r2));
            self::add(gen, IROp::Unless, Some(r1), Some(y));
            self::add(gen, IROp::Imm, Some(r1), Some(1));
            self::label(gen, Some(y));
            Ok(r1)
        },
        _ => Err(Error::bare(ErrorKind::UnknownNode)),
    }
}

/// Lowers an assignment: the right-hand side, then the address of the
/// left-hand side, then the store. The result is the address.
fn gen_assign(node: &Node, gen: &mut IRGen) -> (r: Result<usize, Error>)
    requires
        node.op matches NodeType::BinOp(op, _, _) && op == TokenType::Equal,
    ensures
        lowered_as(r, final(gen)@, gen_expr_spec(node@, old(gen)@)),
    decreases node, 1nat,
{
    match &node.op {
        NodeType::BinOp(_, lhs, rhs) => {
            let r = gen_expr(rhs, gen)?;
            let l = gen_lval(lhs, gen)?;
            self::add(gen, store_for(&node.ty.ty), Some(l), Some(r));
            self::kill(gen, Some(r));
            Ok(l)
        },
        _ => Err(Error::bare(ErrorKind::UnknownNode)),
    }
}

/// Lowers an arithmetic operation or a comparison. Where a pointer is
/// added to or subtracted from, the integer is first multiplied by the
/// size of what the pointer points to.
fn gen_arith(node: &Node, gen: &mut IRGen) -> (r: Result<usize, Error>)
    requires
        node.op matches NodeType::BinOp(op, _, _) && op != TokenType::Equal && op
            != TokenType::Logand && op != TokenType::Logor,
    ensures
        lowered_as(r, final(gen)@, gen_expr_spec(node@, old(gen)@)),
    decreases node, 1nat,
{
    match &node.op {
        NodeType::BinOp(op, lhs, rhs) => {
            let insn = match IROp::from_token_type(*op) {
                Some(insn) => insn,
                None => {
                    return Err(Error::bare(ErrorKind::UnknownOperator));
                },
            };
            let scale = match &lhs.ty.ty {
                Ctype::Ptr(ptr_of) => {
                    proof {
                        assert(lhs@.ty.ty == CtypeView::Ptr(Box::new(ptr_of@)));
                        assert(ptr_of@.size == ptr_of.size);
                    }
                    if *op == TokenType::Plus || *op == TokenType::Minus {
                        Some(ptr_of.size)
                    } else {
                        None
                    }
                },
                _ => {
                    proof {
                        assert(!(lhs@.ty.ty is Ptr));
                    }
                    None
                },
            };
            match scale {
                Some(size) => {
                    let r = gen_expr(rhs, gen)?;
                    let s = gen.new_reg()?;
                    self::add(gen, IROp::Imm, Some(s), Some(size));
                    self::add(gen, IROp::Mul, Some(r), Some(s));
                    self::kill(gen, Some(s));
                    let l = gen_expr(lhs, gen)?;
                    self::add(gen, insn, Some(l), Some(r));
                    self::kill(gen, Some(r));
                    Ok(l)
                },
                None => gen_binop(insn, node, gen),
            }
        },
        _ => Err(Error::bare(ErrorKind::UnknownNode)),
    }
}

/// Lowers an expression; returns the register that holds its value.
pub fn gen_expr(node: &Node, gen: &mut IRGen) -> (r: Result<usize, Error>)
    ensures
        lowered_as(r, final(gen)@, gen_expr_spec(node@, old(gen)@)),
    decreases node, 2nat,
{
    match &node.op {
        NodeType::Num(val) => {
            let r = gen.new_reg()?;
            self::add(gen, IROp::Imm, Some(r), Some(#[verifier::truncate] (*val as usize)));
            Ok(r)
        },
        NodeType::Lvar(_) => {
            let r = gen_lval(node, gen)?;
            self::add(gen, load_for(&node.ty.ty), Some(r), Some(r));
            Ok(r)
        },
        NodeType::Call(_, _) => gen_call(node, gen),
        NodeType::Addr(expr) => gen_lval(expr, gen),
        NodeType::Deref(expr) => {
            let r = gen_expr(expr, gen)?;
            self::add(gen, IROp::Load64, Some(r), Some(r));
            Ok(r)
        },
        NodeType::BinOp(op, _, _) => {
            if *op == TokenType::Logand || *op == TokenType::Logor {
                gen_logical(node, gen)
            } else if *op == TokenType::Equal {
                gen_assign(node, gen)
            } else {
                gen_arith(node, gen)
            }
        },
        _ => Err(Error::bare(ErrorKind::UnknownNode)),
    }
}

/// Lowers a definition with an initializer: the value, the address of
/// the variable, the store.
fn gen_vardef(node: &Node, gen: &mut IRGen) -> (r: Result<(), Error>)
    requires
        node.op is Vardef,
    ensures
        lowered_stmt_as(r, final(gen)@, gen_stmt_spec(node@, old(gen)@)),
    decreases node, 1nat,
{
    match &node.op {
        NodeType::Vardef(_, init, scope) => {
            proof {
                assert(node@.op->Vardef_1 == opt_node_view(*init));
            }
            match init {
                None => Ok(()),
                Some(e) => {
                    let r = gen_expr(e, gen)?;
                    match scope {
                        Scope::Local(offset) => {
                            let l = local_addr(*offset, gen)?;
                            self::add(gen, store_for(&node.ty.ty), Some(l), Some(r));
                            self::kill(gen, Some(l));
                            self::kill(gen, Some(r));
                            Ok(())
                        },
                        _ => Err(Error::bare(ErrorKind::UnknownNode)),
                    }
                },
            }
        },
        _ => Err(Error::bare(ErrorKind::UnknownNode)),
    }
}

/// Lowers an `if` without a second arm: a branch past the arm where the
/// condition is false.
fn gen_if(node: &Node, gen: &mut IRGen) -> (r: Result<(), Error>)
    requires
        node.op matches NodeType::If(_, _, els) && els is None,
    ensures
        lowered_stmt_as(r, final(gen)@, gen_stmt_spec(node@, old(gen)@)),
    decreases node, 1nat,
{
    match &node.op {
        NodeType::If(cond, then, els) => {
            proof {
                assert(node@.op->If_2 == opt_node_view(*els));
            }
            let x = gen.new_label()?;
            let r = gen_expr(cond, gen)?;
            self::add(gen, IROp::Unless, Some(r), Some(x));
            self::kill(gen, Some(r));
            gen_stmt(then, gen)?;
            self::label(gen, Some(x));
            Ok(())
        },
        _ => Err(Error::bare(ErrorKind::UnknownNode)),
    }
}

/// Lowers an `if` with two arms: a branch to the second arm where the
/// condition is false, and a jump past it at the end of the first.
fn gen_if_else(node: &Node, gen: &mut IRGen) -> (r: Result<(), Error>)
    requires
        node.op matches NodeType::If(_, _, els) && els is Some,
    ensures
        lowered_stmt_as(r, final(gen)@, gen_stmt_spec(node@, old(gen)@)),
    decreases node, 1nat,
{
    match &node.op {
        NodeType::If(cond, then, Some(e)) => {
            proof {
                assert(node@.op->If_2 == opt_node_view(Some(*e)));
            }
            let x = gen.new_label()?;
            let y = gen.new_label()?;
            let r = gen_expr(cond, gen)?;
            self::add(gen, IROp::Unless, Some(r), Some(x));
            self::kill(gen, Some(r));
            gen_stmt(then, gen)?;
            self::add(gen, IROp::Jmp, Some(y), None);
            self::label(gen, Some(x));
            gen_stmt(e, gen)?;
            self::label(gen, Some(y));
            Ok(())
        },
        _ => Err(Error::bare(ErrorKind::UnknownNode)),
    }
}

/// Lowers `for`: the initializer; the test, which leaves the loop where
/// it fails; the body; the increment; the jump back to the test.
fn gen_for(node: &Node, gen: &mut IRGen) -> (r: Result<(), Error>)
    requires
        node.op is For,
    ensures
        lowered_stmt_as(r, final(gen)@, gen_stmt_spec(node@, old(gen)@)),
    decreases node, 1nat,
{
    match &node.op {
        NodeType::For(init, cond, inc, body) => {
            let x = gen.new_label()?;
            let y = gen.new_label()?;
            gen_stmt(init, gen)?;
            self::label(gen, Some(x));
            let r2 = gen_expr(cond, gen)?;
            self::add(gen, IROp::Unless, Some(r2), Some(y));
            self::kill(gen, Some(r2));
            gen_stmt(body, gen)?;
            let r3 = gen_expr(inc, gen)?;
            self::kill(gen, Some(r3));
            self::add(gen, IROp::Jmp, Some(x), None);
            self::label(gen, Some(y));
            Ok(())
        },
        _ => Err(Error::bare(ErrorKind::UnknownNode)),
    }
}

/// Lowers the statements of a block, from the first to the last.
fn gen_stmts(stmts: &Vec<Node>, gen: &mut IRGen) -> (r: Result<(), Error>)
    ensures
        lowered_stmt_as(r, final(gen)@, gen_stmts_spec(nodes_view(stmts@), old(gen)@)),
    decreases stmts, 0nat,
{
    let ghost all = nodes_view(stmts@);
    let mut i: usize = 0;
    proof {
        assert(all.take(0) == Seq::<NodeView>::empty());
    }
    while i < stmts.len()
        invariant
            i <= stmts.len(),
            all == nodes_view(stmts@),
            gen_stmts_spec(all.take(i as int), old(gen)@) == Ok::<IRGenView, ErrorView>(gen@),
        decreases stmts.len() - i,
    {
        proof {
            assert(all.take(i as int + 1).drop_last() == all.take(i as int));
            assert(all.take(i as int + 1).last() == stmts[i as int]@);
        }
        match gen_stmt(&stmts[i], gen) {
            Ok(()) => {},
            Err(e) => {
                proof {
                    lemma_gen_stmts_err(all, old(gen)@, i as int + 1);
                }
                return Err(e);
            },
        }
        i += 1;
    }
    proof {
        assert(all.take(stmts.len() as int) == all);
    }
    Ok(())
}

/// Lowers a statement.
pub fn gen_stmt(node: &Node, gen: &mut IRGen) -> (r: Result<(), Error>)
    ensures
        lowered_stmt_as(r, final(gen)@, gen_stmt_spec(node@, old(gen)@)),
    decreases node, 2nat,
{
    match &node.op {
        NodeType::Vardef(_, _, _) => gen_vardef(node, gen),
        NodeType::If(_, _, None) => gen_if(node, gen),
        NodeType::If(_, _, Some(_)) => gen_if_else(node, gen),
        NodeType::For(_, _, _, _) => gen_for(node, gen),
        NodeType::Return(expr) => {
            let r = gen_expr(expr, gen)?;
            self::add(gen, IROp::Return, Some(r), None);
            self::kill(gen, Some(r));
            Ok(())
        },
        NodeType::ExprStmt(expr) => {
            let r = gen_expr(expr, gen)?;
            self::kill(gen, Some(r));
            Ok(())
        },
        NodeType::CompStmt(stmts) => gen_stmts(stmts, gen),
        _ => Err(Error::bare(ErrorKind::UnknownNode)),
    }
}

/// The prologue of a function: every parameter is stored from its
/// argument register into its place in the frame, in declaration order.
/// The first operand is the parameter's offset, the second its position.
pub open spec fn gen_params_spec(params: Seq<NodeView>, st: IRGenView) -> LoweredStmt
    decreases params.len(),
{
    if params.len() == 0 {
        Ok(st)
    } else {
        match gen_params_spec(params.drop_last(), st) {
            Err(err) => Err(err),
            Ok(st1) => match params.last().op {
                NodeTypeView::Vardef(_, _, ScopeView::Local(offset)) => Ok(
                    st1.emit(
                        store_arg_op(params.last().ty.ty),
                        Some(offset),
                        Some((params.len() - 1) as usize),
                    ),
                ),
                _ => Err(ErrorView::bare(ErrorKind::UnknownNode)),
            },
        }
    }
}

/// The lowering of one function, given the first label that is free, and
/// the first label that is free after it. Registers start at 1.
pub open spec fn gen_func_spec(node: NodeView, nlabel: usize) -> Result<
    (FunctionView, usize),
    ErrorView,
> {
    match node.op {
        NodeTypeView::Func(name, params, body, stacksize) => match gen_params_spec(
            params,
            IRGenView { nreg: 1, nlabel, code: Seq::empty() },
        ) {
            Err(err) => Err(err),
            Ok(st1) => match gen_stmt_spec(*body, st1) {
                Err(err) => Err(err),
                Ok(st2) => Ok((FunctionView { name, ir: st2.code, stacksize }, st2.nlabel)),
            },
        },
        _ => Err(ErrorView::bare(ErrorKind::NotAFunction)),
    }
}

/// The lowering of the functions `nodes`, from the first to the last,
/// and the first label that is free after them.
pub open spec fn gen_funcs_spec(nodes: Seq<NodeView>, nlabel: usize) -> Result<
    (Seq<FunctionView>, usize),
    ErrorView,
>
    decreases nodes.len(),
{
    if nodes.len() == 0 {
        Ok((Seq::empty(), nlabel))
    } else {
        match gen_funcs_spec(nodes.drop_last(), nlabel) {
            Err(err) => Err(err),
            Ok((done, nlabel1)) => match gen_func_spec(nodes.last(), nlabel1) {
                Err(err) => Err(err),
                Ok((f, nlabel2)) => Ok((done.push(f), nlabel2)),
            },
        }
    }
}

/// The lowering of a translation unit.
pub open spec fn gen_ir_spec(nodes: Seq<NodeView>) -> Result<Seq<FunctionView>, ErrorView> {
    match gen_funcs_spec(nodes, 0) {
        Err(err) => Err(err),
        Ok((fns, _)) => Ok(fns),
    }
}

/// An error among the first `k` parameters is the error of them all.
pub proof fn lemma_gen_params_err(params: Seq<NodeView>, st: IRGenView, k: int)
    requires
        0 <= k <= params.len(),
        gen_params_spec(params.take(k), st) is Err,
    ensures
        gen_params_spec(params, st) == gen_params_spec(params.take(k), st),
    decreases params.len() - k,
{
    if k < params.len() {
        assert(params.take(k + 1).drop_last() == params.take(k));
        lemma_gen_params_err(params, st, k + 1);
    } else {
        assert(params.take(k) == params);
    }
}

/// An error among the first `k` functions is the error of the whole unit.
pub proof fn lemma_gen_funcs_err(nodes: Seq<NodeView>, nlabel: usize, k: int)
    requires
        0 <= k <= nodes.len(),
        gen_funcs_spec(nodes.take(k), nlabel) is Err,
    ensures
        gen_funcs_spec(nodes, nlabel) == gen_funcs_spec(nodes.take(k), nlabel),
    decreases nodes.len() - k,
{
    if k < nodes.len() {
        assert(nodes.take(k + 1).drop_last() == nodes.take(k));
        lemma_gen_funcs_err(nodes, nlabel, k + 1);
    } else {
        assert(nodes.take(k) == nodes);
    }
}

/// Emits the prologue of a function.
fn gen_params(params: &Vec<Node>, gen: &mut IRGen) -> (r: Result<(), Error>)
    ensures
        lowered_stmt_as(r, final(gen)@, gen_params_spec(nodes_view(params@), old(gen)@)),
{
    let ghost all = nodes_view(params@);
    let mut i: usize = 0;
    proof {
        assert(all.take(0) == Seq::<NodeView>::empty());
    }
    while i < params.len()
        invariant
            i <= params.len(),
            all == nodes_view(params@),
            gen_params_spec(all.take(i as int), old(gen)@) == Ok::<IRGenView, ErrorView>(gen@),
        decreases params.len() - i,
    {
        proof {
            assert(all.take(i as int + 1).drop_last() == all.take(i as int));
            assert(all.take(i as int + 1).last() == params[i as int]@);
        }
        let param = &params[i];
        match &param.op {
            NodeType::Vardef(_, _, Scope::Local(offset)) => {
                let op = match &param.ty.ty {
                    Ctype::Ptr(_) => IROp::Store64Arg,
                    _ => IROp::Store32Arg,
                };
                self::add(gen, op, Some(*offset), Some(i));
            },
            _ => {
                proof {
                    lemma_gen_params_err(all, old(gen)@, i as int + 1);
                }
                return Err(Error::bare(ErrorKind::UnknownNode));
            },
        }
        i += 1;
    }
    proof {
        assert(all.take(params.len() as int) == all);
    }
    Ok(())
}

/// Lowers one function. `nlabel` is the first free label before it and,
/// on return, the first free label after it.
pub fn gen_func(node: &Node, nlabel: &mut usize) -> (r: Result<Function, Error>)
    ensures
        match gen_func_spec(node@, *old(nlabel)) {
            Ok((f, n)) => r matches Ok(rf) && rf@ == f && *final(nlabel) == n,
            Err(e) => r matches Err(re) && re@ == e,
        },
{
    match &node.op {
        NodeType::Func(name, params, body, stacksize) => {
            let mut gen = IRGen { nreg: 1, nlabel: *nlabel, code: Vec::new() };
            proof {
                assert(code_view(gen.code@) =~= Seq::<IRView>::empty());
            }
            gen_params(params, &mut gen)?;
            gen_stmt(body, &mut gen)?;
            *nlabel = gen.nlabel;
            Ok(Function::new(name.clone(), gen.code, *stacksize))
        },
        _ => Err(Error::bare(ErrorKind::NotAFunction)),
    }
}

/// Lowers the functions of a translation unit to intermediate code.
pub fn gen_ir(nodes: Vec<Node>) -> (r: Result<Vec<Function>, Error>)
    ensures
        match gen_ir_spec(nodes_view(nodes@)) {
            Ok(fns) => r matches Ok(v) && functions_view(v@) == fns,
            Err(e) => r matches Err(re) && re@ == e,
        },
        r matches Ok(v) ==> forall|i: int| 0 <= i < v.len() ==> (#[trigger] v[i])@.wf(),
{
    let ghost all = nodes_view(nodes@);
    let mut v: Vec<Function> = Vec::new();
    let mut nlabel: usize = 0;
    let mut i: usize = 0;
    proof {
        assert(all.take(0) == Seq::<NodeView>::empty());
        assert(functions_view(v@) =~= Seq::<FunctionView>::empty());
    }
    while i < nodes.len()
        invariant
            i <= nodes.len(),
            all == nodes_view(nodes@),
            gen_funcs_spec(all.take(i as int), 0) == Ok::<(Seq<FunctionView>, usize), ErrorView>(
                (functions_view(v@), nlabel),
            ),
        decreases nodes.len() - i,
    {
        proof {
            assert(all.take(i as int + 1).drop_last() == all.take(i as int));
            assert(all.take(i as int + 1).last() == nodes[i as int]@);
        }
        match gen_func(&nodes[i], &mut nlabel) {
            Ok(f) => {
                proof {
                    assert(functions_view(v@.push(f)) =~= functions_view(v@).push(f@));
                }
                v.push(f);
            },
            Err(e) => {
                proof {
                    lemma_gen_funcs_err(all, 0, i as int + 1);
                }
                return Err(e);
            },
        }
        i += 1;
    }
    proof {
        assert(all.take(nodes.len() as int) == all);
        crate::registers::lemma_gen_ir_regs(all);
        assert forall|i: int| 0 <= i < v.len() implies (#[trigger] v[i])@.wf() by {
            assert(functions_view(v@)[i] == v[i]@);
        }
    }
    Ok(v)
}

} // verus!
