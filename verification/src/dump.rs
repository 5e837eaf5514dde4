//! The textual form of the intermediate code.
//!
//! One line per instruction. A register reads `r` and its number, a label
//! `.L` and its number; the place where a label is defined reads `.L`, the
//! number and `=>`.

use vstd::prelude::*;
use vstd::string::StringExecFns;
use crate::gen_ir::code_view;
use crate::gen_ir::functions_view;
use crate::gen_ir::Function;
use crate::gen_ir::FunctionView;
use crate::gen_ir::IROp;
use crate::gen_ir::IROpView;
use crate::gen_ir::IRType;
use crate::gen_ir::IRView;
use crate::gen_ir::IR;
use crate::text::decimal;
use crate::text::push_decimal;

verus! {

/// `r` and the number of a register.
pub open spec fn reg_text(r: usize) -> Seq<char> {
    seq!['r'] + decimal(r as nat)
}

/// `.L` and the number of a label.
pub open spec fn label_text(x: usize) -> Seq<char> {
    seq!['.', 'L'] + decimal(x as nat)
}

/// The argument registers of a call, each after a comma and a space.
pub open spec fn call_args_text(args: Seq<usize>) -> Seq<char>
    decreases args.len(),
{
    if args.len() == 0 {
        Seq::empty()
    } else {
        call_args_text(args.drop_last()) + seq![',', ' '] + reg_text(args.last())
    }
}

impl IRView {
    /// Whether the instruction has the operands that its opcode reads,
    /// and, for a call, as many argument registers as it says.
    pub open spec fn wf(self) -> bool {
        match self.op.info().1 {
            IRType::Noarg => true,
            IRType::Label | IRType::Imm | IRType::Reg | IRType::Jmp => self.lhs is Some,
            IRType::RegReg | IRType::RegImm | IRType::ImmImm | IRType::RegLabel => self.lhs is Some
                && self.rhs is Some,
            IRType::Call => self.lhs is Some && (self.op matches IROpView::Call(_, nargs, args)
                && nargs <= args.len()),
        }
    }

    /// The line that shows the instruction.
    pub open spec fn text(self) -> Seq<char>
        recommends
            self.wf(),
    {
        let name = self.op.info().0;
        let indent = seq![' ', ' '];
        match self.op.info().1 {
            IRType::Label => label_text(self.lhs->0) + seq!['=', '>'],
            IRType::Imm => indent + name + seq![' '] + decimal(self.lhs->0 as nat),
            IRType::Reg => indent + name + seq![' '] + reg_text(self.lhs->0),
            IRType::Jmp => indent + name + seq![' '] + label_text(self.lhs->0),
            IRType::RegReg => indent + name + seq![' '] + reg_text(self.lhs->0) + seq![',', ' ']
                + reg_text(self.rhs->0),
            IRType::RegImm => indent + name + seq![' '] + reg_text(self.lhs->0) + seq![',', ' ']
                + decimal(self.rhs->0 as nat),
            IRType::ImmImm => indent + name + seq![' '] + decimal(self.lhs->0 as nat) + seq![
                ',',
                ' ',
            ] + decimal(self.rhs->0 as nat),
            IRType::RegLabel => indent + name + seq![' '] + reg_text(self.lhs->0) + seq![',', ' ']
                + label_text(self.rhs->0),
            IRType::Call => match self.op {
                IROpView::Call(callee, nargs, args) => indent + reg_text(self.lhs->0) + seq![
                    ' ',
                    '=',
                    ' ',
                ] + callee + seq!['('] + call_args_text(args.take(nargs as int)) + seq![')'],
                _ => Seq::empty(),
            },
            IRType::Noarg => indent + name,
        }
    }
}

/// The lines of `code`, each followed by a line feed.
pub open spec fn code_text(code: Seq<IRView>) -> Seq<char>
    decreases code.len(),
{
    if code.len() == 0 {
        Seq::empty()
    } else {
        code_text(code.drop_last()) + code.last().text() + seq!['\n']
    }
}

impl FunctionView {
    /// Whether every instruction of the function is well formed.
    pub open spec fn wf(self) -> bool {
        forall|i: int| 0 <= i < self.ir.len() ==> (#[trigger] self.ir[i]).wf()
    }

    /// The name of the function, `(): ` and a line feed, then its code.
    pub open spec fn text(self) -> Seq<char> {
        self.name + seq!['(', ')', ':', ' ', '\n'] + code_text(self.ir)
    }
}

/// The text of the functions `fns`, one after the other.
pub open spec fn dump_text(fns: Seq<FunctionView>) -> Seq<char>
    decreases fns.len(),
{
    if fns.len() == 0 {
        Seq::empty()
    } else {
        dump_text(fns.drop_last()) + fns.last().text()
    }
}

fn push_reg(s: &mut String, r: usize)
    ensures
        final(s)@ == old(s)@ + reg_text(r),
{
    proof {
        reveal_strlit("r");
    }
    s.append("r");
    push_decimal(s, r);
    assert(s@ =~= old(s)@ + reg_text(r));
}

fn push_label(s: &mut String, x: usize)
    ensures
        final(s)@ == old(s)@ + label_text(x),
{
    proof {
        reveal_strlit(".L");
    }
    s.append(".L");
    push_decimal(s, x);
    assert(s@ =~= old(s)@ + label_text(x));
}

fn push_sep(s: &mut String)
    ensures
        final(s)@ == old(s)@ + seq![',', ' '],
{
    proof {
        reveal_strlit(", ");
    }
    s.append(", ");
    assert(s@ =~= old(s)@ + seq![',', ' ']);
}

/// Starts a line with the indentation, the mnemonic and a space.
fn push_head(s: &mut String, name: &str)
    ensures
        final(s)@ == old(s)@ + seq![' ', ' '] + name@ + seq![' '],
{
    proof {
        reveal_strlit("  ");
        reveal_strlit(" ");
    }
    s.append("  ");
    s.append(name);
    s.append(" ");
    assert(s@ =~= old(s)@ + seq![' ', ' '] + name@ + seq![' ']);
}

impl IR {
    /// Whether the instruction has the operands that its opcode reads.
    pub fn is_wf(&self) -> (b: bool)
        ensures
            b == self@.wf(),
    {
        let info = self.op.info();
        match info.ty {
            IRType::Noarg => true,
            IRType::Label | IRType::Imm | IRType::Reg | IRType::Jmp => self.lhs.is_some(),
            IRType::RegReg | IRType::RegImm | IRType::ImmImm | IRType::RegLabel => {
                self.lhs.is_some() && self.rhs.is_some()
            },
            IRType::Call => match &self.op {
                IROp::Call(_, nargs, args) => self.lhs.is_some() && *nargs <= args.len(),
                _ => false,
            },
        }
    }

    /// Appends the line that shows the instruction, without a line feed.
    pub fn push_text(&self, s: &mut String)
        requires
            self@.wf(),
        ensures
            final(s)@ == old(s)@ + self@.text(),
    {
        let info = self.op.info();
        let ghost name = self@.op.info().0;
        let ghost indent = seq![' ', ' '];
        match info.ty {
            IRType::Label => {
                proof {
                    reveal_strlit("=>");
                }
                push_label(s, self.lhs.unwrap());
                s.append("=>");
                assert(s@ =~= old(s)@ + self@.text());
            },
            IRType::Imm => {
                push_head(s, info.name);
                push_decimal(s, self.lhs.unwrap());
                assert(s@ =~= old(s)@ + self@.text());
            },
            IRType::Reg => {
                push_head(s, info.name);
                push_reg(s, self.lhs.unwrap());
                assert(s@ =~= old(s)@ + self@.text());
            },
            IRType::Jmp => {
                push_head(s, info.name);
                push_label(s, self.lhs.unwrap());
                assert(s@ =~= old(s)@ + self@.text());
            },
            IRType::RegReg => {
                push_head(s, info.name);
                push_reg(s, self.lhs.unwrap());
                push_sep(s);
                push_reg(s, self.rhs.unwrap());
                assert(s@ =~= old(s)@ + self@.text());
            },
            IRType::RegImm => {
                push_head(s, info.name);
                push_reg(s, self.lhs.unwrap());
                push_sep(s);
                push_decimal(s, self.rhs.unwrap());
                assert(s@ =~= old(s)@ + self@.text());
            },
            IRType::ImmImm => {
                push_head(s, info.name);
                push_decimal(s, self.lhs.unwrap());
                push_sep(s);
                push_decimal(s, self.rhs.unwrap());
                assert(s@ =~= old(s)@ + self@.text());
            },
            IRType::RegLabel => {
                push_head(s, info.name);
                push_reg(s, self.lhs.unwrap());
                push_sep(s);
                push_label(s, self.rhs.unwrap());
                assert(s@ =~= old(s)@ + self@.text());
            },
            IRType::Call => {
                match &self.op {
                    IROp::Call(callee, nargs, args) => {
                        proof {
                            reveal_strlit("  ");
                            reveal_strlit(" = ");
                            reveal_strlit("(");
                            reveal_strlit(")");
                        }
                        s.append("  ");
                        push_reg(s, self.lhs.unwrap());
                        s.append(" = ");
                        s.append(callee.as_str());
                        s.append("(");
                        let ghost head = s@;
                        let mut i: usize = 0;
                        proof {
                            assert(args@.take(*nargs as int).take(0).len() == 0);
                            assert(s@ =~= head + call_args_text(args@.take(*nargs as int).take(0)));
                        }
                        while i < *nargs
                            invariant
                                i <= *nargs <= args.len(),
                                s@ == head + call_args_text(
                                    args@.take(*nargs as int).take(i as int),
                                ),
                            decreases *nargs - i,
                        {
                            let ghost shown = args@.take(*nargs as int);
                            proof {
                                assert(shown.take(i as int + 1).drop_last() == shown.take(i as int));
                                assert(shown.take(i as int + 1).last() == args[i as int]);
                            }
                            let ghost before = s@;
                            push_sep(s);
                            push_reg(s, args[i]);
                            proof {
                                assert(s@ =~= head + call_args_text(shown.take(i as int + 1)));
                            }
                            i += 1;
                        }
                        proof {
                            let shown = args@.take(*nargs as int);
                            assert(shown.take(*nargs as int) == shown);
                        }
                        s.append(")");
                        assert(s@ =~= old(s)@ + self@.text());
                    },
                    _ => {},
                }
            },
            IRType::Noarg => {
                proof {
                    reveal_strlit("  ");
                }
                s.append("  ");
                s.append(info.name);
                assert(s@ =~= old(s)@ + self@.text());
            },
        }
    }

    /// The line that shows the instruction, without a line feed.
    pub fn to_string(&self) -> (s: String)
        requires
            self@.wf(),
        ensures
            s@ == self@.text(),
    {
        let mut s = String::new();
        self.push_text(&mut s);
        assert(s@ =~= self@.text());
        s
    }
}

impl Function {
    /// Whether every instruction of the function is well formed.
    pub fn is_wf(&self) -> (b: bool)
        ensures
            b == self@.wf(),
    {
        let mut i: usize = 0;
        while i < self.ir.len()
            invariant
                i <= self.ir.len(),
                forall|j: int| 0 <= j < i ==> (#[trigger] self@.ir[j]).wf(),
            decreases self.ir.len() - i,
        {
            if !self.ir[i].is_wf() {
                assert(!self@.ir[i as int].wf());
                return false;
            }
            i += 1;
        }
        true
    }

    /// Appends the text of the function: its name, then its code.
    pub fn push_text(&self, s: &mut String)
        requires
            self@.wf(),
        ensures
            final(s)@ == old(s)@ + self@.text(),
    {
        proof {
            reveal_strlit("(): \n");
            reveal_strlit("\n");
        }
        s.append(self.name.as_str());
        s.append("(): \n");
        let ghost head = s@;
        let ghost code = code_view(self.ir@);
        let mut i: usize = 0;
        proof {
            assert(head =~= old(s)@ + self@.name + seq!['(', ')', ':', ' ', '\n']);
            assert(s@ =~= head + code_text(code.take(0)));
        }
        while i < self.ir.len()
            invariant
                i <= self.ir.len(),
                self@.wf(),
                code == code_view(self.ir@),
                s@ == head + code_text(code.take(i as int)),
                "\n"@ == seq!['\n'],
            decreases self.ir.len() - i,
        {
            proof {
                assert(code.take(i as int + 1).drop_last() == code.take(i as int));
                assert(code.take(i as int + 1).last() == self.ir[i as int]@);
                assert(self@.ir[i as int].wf());
            }
            self.ir[i].push_text(s);
            s.append("\n");
            proof {
                assert(s@ =~= head + code_text(code.take(i as int + 1)));
            }
            i += 1;
        }
        proof {
            assert(code.take(self.ir.len() as int) == code);
            assert(s@ =~= old(s)@ + self@.text());
        }
    }
}

/// The text of the functions `fns`: for each its name and its code, one
/// instruction per line.
pub fn dump_ir(fns: &Vec<Function>) -> (s: String)
    requires
        forall|i: int| 0 <= i < fns.len() ==> (#[trigger] fns[i])@.wf(),
    ensures
        s@ == dump_text(functions_view(fns@)),
{
    let ghost all = functions_view(fns@);
    let mut s = String::new();
    let mut i: usize = 0;
    proof {
        assert(s@ =~= dump_text(all.take(0)));
    }
    while i < fns.len()
        invariant
            i <= fns.len(),
            all == functions_view(fns@),
            forall|i: int| 0 <= i < fns.len() ==> (#[trigger] fns[i])@.wf(),
            s@ == dump_text(all.take(i as int)),
        decreases fns.len() - i,
    {
        proof {
            assert(all.take(i as int + 1).drop_last() == all.take(i as int));
            assert(all.take(i as int + 1).last() == fns[i as int]@);
        }
        fns[i].push_text(&mut s);
        i += 1;
    }
    proof {
        assert(all.take(fns.len() as int) == all);
    }
    s
}

} // verus!
