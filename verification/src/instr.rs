//! The flat instruction set the compiler emits and the machine executes.
//!
//! Jump targets and call entries are absolute offsets into the single
//! instruction sequence; local-variable operands are frame slot indices.
//! `AInstr` is the mathematical counterpart used by the contracts.
use crate::value::{val_view, AVal, Value};
use vstd::prelude::*;

verus! {

/// Mathematical model of one instruction.
#[verifier::ext_equal]
pub enum AInstr {
    Add,
    Sub,
    Mul,
    Div,
    Mod,
    Neg,
    Not,
    And,
    Or,
    Equal,
    NotEqual,
    Less,
    LessEqual,
    Greater,
    GreaterEqual,
    True,
    False,
    Jump(usize),
    JumpIfFalse(usize),
    Store,
    Index,
    Append,
    List(usize),
    Const(AVal),
    DefLocal(usize),
    GetLocal(usize),
    Assign(usize),
    Call(usize, usize),
    Return,
    Print,
    Pop,
}

/// One machine instruction. `Jump`, `JumpIfFalse` and `Call` carry absolute
/// offsets; `Call` also carries the argument count; `List` carries how many
/// stack cells the aggregate consumes.
#[derive(Debug, PartialEq)]
pub enum Instruction {
    Add,
    Sub,
    Mul,
    Div,
    Mod,
    Neg,
    Not,
    And,
    Or,
    Equal,
    NotEqual,
    Less,
    LessEqual,
    Greater,
    GreaterEqual,
    True,
    False,
    Jump(usize),
    JumpIfFalse(usize),
    Store,
    Index,
    Append,
    List(usize),
    Const(Value),
    DefLocal(usize),
    GetLocal(usize),
    Assign(usize),
    Call(usize, usize),
    Return,
    Print,
    Pop,
}

pub open spec fn instr_view(i: Instruction) -> AInstr {
    match i {
        Instruction::Add => AInstr::Add,
        Instruction::Sub => AInstr::Sub,
        Instruction::Mul => AInstr::Mul,
        Instruction::Div => AInstr::Div,
        Instruction::Mod => AInstr::Mod,
        Instruction::Neg => AInstr::Neg,
        Instruction::Not => AInstr::Not,
        Instruction::And => AInstr::And,
        Instruction::Or => AInstr::Or,
        Instruction::Equal => AInstr::Equal,
        Instruction::NotEqual => AInstr::NotEqual,
        Instruction::Less => AInstr::Less,
        Instruction::LessEqual => AInstr::LessEqual,
        Instruction::Greater => AInstr::Greater,
        Instruction::GreaterEqual => AInstr::GreaterEqual,
        Instruction::True => AInstr::True,
        Instruction::False => AInstr::False,
        Instruction::Jump(t) => AInstr::Jump(t),
        Instruction::JumpIfFalse(t) => AInstr::JumpIfFalse(t),
        Instruction::Store => AInstr::Store,
        Instruction::Index => AInstr::Index,
        Instruction::Append => AInstr::Append,
        Instruction::List(n) => AInstr::List(n),
        Instruction::Const(v) => AInstr::Const(val_view(v)),
        Instruction::DefLocal(s) => AInstr::DefLocal(s),
        Instruction::GetLocal(s) => AInstr::GetLocal(s),
        Instruction::Assign(s) => AInstr::Assign(s),
        Instruction::Call(entry, nargs) => AInstr::Call(entry, nargs),
        Instruction::Return => AInstr::Return,
        Instruction::Print => AInstr::Print,
        Instruction::Pop => AInstr::Pop,
    }
}

impl View for Instruction {
    type V = AInstr;

    open spec fn view(&self) -> AInstr {
        instr_view(*self)
    }
}

impl DeepView for Instruction {
    type V = AInstr;

    open spec fn deep_view(&self) -> AInstr {
        instr_view(*self)
    }
}

} // verus!
