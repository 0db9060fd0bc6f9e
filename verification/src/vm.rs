//! The stack-based virtual machine.
//!
//! The semantics is given as a small-step transition function over
//! mathematical states (`spec_step`), iterated by `spec_run` under a fuel
//! bound; the interpreter (`Vm::step`, `run`) is proved to follow it
//! transition by transition. A runtime failure aborts the program and names
//! the failing instruction offset; there is no recovery.
use crate::instr::{AInstr, Instruction};
use crate::value::{dup_value, dv, value_eq, AVal, Value};
use vstd::prelude::*;

verus! {

broadcast use vstd::std_specs::vec::group_vec_axioms, crate::value::lemma_vec_dv, crate::value::lemma_dv_push, crate::value::lemma_dv_subrange, crate::value::lemma_dv_update, crate::value::lemma_vals_view_is_dv, crate::value::lemma_val_view_list;

/// What went wrong at runtime.
#[derive(Debug, Clone, Copy, PartialEq, Eq, Structural)]
pub enum VmErrKind {
    /// The instruction pointer left the instruction sequence.
    BadTarget,
    /// An instruction needed more operand-stack cells than there were.
    StackUnderflow,
    /// An operand's runtime tag has no rule for this instruction.
    TypeMismatch,
    /// Division or modulo by zero.
    DivByZero,
    /// An integer operation left the 64-bit signed range.
    Overflow,
    /// A list was indexed or stored outside its bounds.
    IndexOutOfRange,
    /// A local-variable slot was not allocated in the current frame.
    BadSlot,
    /// A return was executed with no call frame left.
    FrameMissing,
}

/// A runtime failure: the kind and the offset of the failing instruction.
#[derive(Debug, Clone, Copy, PartialEq, Eq, Structural)]
pub struct VmError {
    pub kind: VmErrKind,
    pub at: usize,
}

/// Mathematical model of one call frame.
#[verifier::ext_equal]
pub struct AFrame {
    pub locals: Seq<AVal>,
    pub ret_ip: int,
    pub base: int,
}

/// Mathematical model of the whole machine state.
#[verifier::ext_equal]
pub struct AState {
    pub ip: int,
    pub stack: Seq<AVal>,
    pub frames: Seq<AFrame>,
    pub output: Seq<AVal>,
}

/// One call frame: the local-variable slots, the caller's resume offset,
/// and the operand-stack depth at entry.
pub struct Frame {
    pub locals: Vec<Value>,
    pub ret_ip: usize,
    pub base: usize,
}

impl View for Frame {
    type V = AFrame;

    open spec fn view(&self) -> AFrame {
        AFrame { locals: self.locals.deep_view(), ret_ip: self.ret_ip as int, base: self.base as int }
    }
}

impl DeepView for Frame {
    type V = AFrame;

    open spec fn deep_view(&self) -> AFrame {
        self.view()
    }
}

/// The machine: one instruction pointer, one operand stack, one stack of
/// call frames, and the values printed so far, in order.
pub struct Vm {
    pub ip: usize,
    pub stack: Vec<Value>,
    pub frames: Vec<Frame>,
    pub output: Vec<Value>,
}

impl View for Vm {
    type V = AState;

    open spec fn view(&self) -> AState {
        AState {
            ip: self.ip as int,
            stack: self.stack.deep_view(),
            frames: self.frames.deep_view(),
            output: self.output.deep_view(),
        }
    }
}

/// The outcome of one transition.
pub enum AStep {
    Next(AState),
    Halt(AVal),
    Fail(VmError),
}

/// The result of a binary instruction on two operands, or the failure kind.
/// Arithmetic and ordering are defined on integer pairs (ordering also on
/// character pairs); equality compares any two values structurally; `And`
/// and `Or` need two booleans. Anything else has no rule.
pub open spec fn bin_result(op: AInstr, a: AVal, b: AVal) -> Result<AVal, VmErrKind> {
    match op {
        AInstr::Add => match (a, b) {
            (AVal::Int(x), AVal::Int(y)) => match x.checked_add(y) {
                Some(z) => Ok(AVal::Int(z)),
                None => Err(VmErrKind::Overflow),
            },
            _ => Err(VmErrKind::TypeMismatch),
        },
        AInstr::Sub => match (a, b) {
            (AVal::Int(x), AVal::Int(y)) => match x.checked_sub(y) {
                Some(z) => Ok(AVal::Int(z)),
                None => Err(VmErrKind::Overflow),
            },
            _ => Err(VmErrKind::TypeMismatch),
        },
        AInstr::Mul => match (a, b) {
            (AVal::Int(x), AVal::Int(y)) => match x.checked_mul(y) {
                Some(z) => Ok(AVal::Int(z)),
                None => Err(VmErrKind::Overflow),
            },
            _ => Err(VmErrKind::TypeMismatch),
        },
        AInstr::Div => match (a, b) {
            (AVal::Int(x), AVal::Int(y)) => if y == 0 {
                Err(VmErrKind::DivByZero)
            } else {
                match x.checked_div(y) {
                    Some(z) => Ok(AVal::Int(z)),
                    None => Err(VmErrKind::Overflow),
                }
            },
            _ => Err(VmErrKind::TypeMismatch),
        },
        AInstr::Mod => match (a, b) {
            (AVal::Int(x), AVal::Int(y)) => if y == 0 {
                Err(VmErrKind::DivByZero)
            } else {
                match x.checked_rem(y) {
                    Some(z) => Ok(AVal::Int(z)),
                    None => Err(VmErrKind::Overflow),
                }
            },
            _ => Err(VmErrKind::TypeMismatch),
        },
        AInstr::And => match (a, b) {
            (AVal::Bool(x), AVal::Bool(y)) => Ok(AVal::Bool(x && y)),
            _ => Err(VmErrKind::TypeMismatch),
        },
        AInstr::Or => match (a, b) {
            (AVal::Bool(x), AVal::Bool(y)) => Ok(AVal::Bool(x || y)),
            _ => Err(VmErrKind::TypeMismatch),
        },
        AInstr::Equal => Ok(AVal::Bool(a == b)),
        AInstr::NotEqual => Ok(AVal::Bool(a != b)),
        AInstr::Less => match (a, b) {
            (AVal::Int(x), AVal::Int(y)) => Ok(AVal::Bool(x < y)),
            (AVal::Char(x), AVal::Char(y)) => Ok(AVal::Bool(x < y)),
            _ => Err(VmErrKind::TypeMismatch),
        },
        AInstr::LessEqual => match (a, b) {
            (AVal::Int(x), AVal::Int(y)) => Ok(AVal::Bool(x <= y)),
            (AVal::Char(x), AVal::Char(y)) => Ok(AVal::Bool(x <= y)),
            _ => Err(VmErrKind::TypeMismatch),
        },
        AInstr::Greater => match (a, b) {
            (AVal::Int(x), AVal::Int(y)) => Ok(AVal::Bool(x > y)),
            (AVal::Char(x), AVal::Char(y)) => Ok(AVal::Bool(x > y)),
            _ => Err(VmErrKind::TypeMismatch),
        },
        AInstr::GreaterEqual => match (a, b) {
            (AVal::Int(x), AVal::Int(y)) => Ok(AVal::Bool(x >= y)),
            (AVal::Char(x), AVal::Char(y)) => Ok(AVal::Bool(x >= y)),
            _ => Err(VmErrKind::TypeMismatch),
        },
        _ => Err(VmErrKind::TypeMismatch),
    }
}

/// Whether an instruction is one of the binary stack operations.
pub open spec fn is_bin_op(op: AInstr) -> bool {
    ||| op == AInstr::Add
    ||| op == AInstr::Sub
    ||| op == AInstr::Mul
    ||| op == AInstr::Div
    ||| op == AInstr::Mod
    ||| op == AInstr::And
    ||| op == AInstr::Or
    ||| op == AInstr::Equal
    ||| op == AInstr::NotEqual
    ||| op == AInstr::Less
    ||| op == AInstr::LessEqual
    ||| op == AInstr::Greater
    ||| op == AInstr::GreaterEqual
}

/// The result of a unary instruction on one operand.
pub open spec fn un_result(op: AInstr, a: AVal) -> Result<AVal, VmErrKind> {
    match op {
        AInstr::Neg => match a {
            AVal::Int(x) => match (0i64).checked_sub(x) {
                Some(z) => Ok(AVal::Int(z)),
                None => Err(VmErrKind::Overflow),
            },
            _ => Err(VmErrKind::TypeMismatch),
        },
        AInstr::Not => match a {
            AVal::Bool(x) => Ok(AVal::Bool(!x)),
            _ => Err(VmErrKind::TypeMismatch),
        },
        _ => Err(VmErrKind::TypeMismatch),
    }
}

/// One transition of the machine on program `prog` from state `s`.
///
/// Most instructions advance the instruction pointer by one; jumps set it
/// to their target. `Call` binds the popped arguments to the callee's first
/// parameter slots in order; `Return` discards the frame, restores the
/// caller's offset and pushes the return value (`Nil` when the callee left
/// nothing above its stack base). Returning from the outermost frame halts
/// the program with that value.
pub open spec fn spec_step(prog: Seq<AInstr>, s: AState) -> AStep {
    if !(0 <= s.ip < prog.len()) {
        AStep::Fail(VmError { kind: VmErrKind::BadTarget, at: s.ip as usize })
    } else {
        let op = prog[s.ip];
        let err = |k: VmErrKind| AStep::Fail(VmError { kind: k, at: s.ip as usize });
        if is_bin_op(op) {
            if s.stack.len() < 2 {
                err(VmErrKind::StackUnderflow)
            } else {
                let a = s.stack[s.stack.len() - 2];
                let b = s.stack.last();
                match bin_result(op, a, b) {
                    Ok(v) => AStep::Next(
                        AState {
                            ip: s.ip + 1,
                            stack: s.stack.take(s.stack.len() - 2).push(v),
                            ..s
                        },
                    ),
                    Err(k) => err(k),
                }
            }
        } else if op == AInstr::Neg || op == AInstr::Not {
            if s.stack.len() < 1 {
                err(VmErrKind::StackUnderflow)
            } else {
                match un_result(op, s.stack.last()) {
                    Ok(v) => AStep::Next(
                        AState { ip: s.ip + 1, stack: s.stack.drop_last().push(v), ..s },
                    ),
                    Err(k) => err(k),
                }
            }
        } else {
            match op {
                AInstr::True => AStep::Next(
                    AState { ip: s.ip + 1, stack: s.stack.push(AVal::Bool(true)), ..s },
                ),
                AInstr::False => AStep::Next(
                    AState { ip: s.ip + 1, stack: s.stack.push(AVal::Bool(false)), ..s },
                ),
                AInstr::Const(v) => AStep::Next(
                    AState { ip: s.ip + 1, stack: s.stack.push(v), ..s },
                ),
                AInstr::Pop => if s.stack.len() < 1 {
                    err(VmErrKind::StackUnderflow)
                } else {
                    AStep::Next(AState { ip: s.ip + 1, stack: s.stack.drop_last(), ..s })
                },
                AInstr::Jump(t) => AStep::Next(AState { ip: t as int, ..s }),
                AInstr::JumpIfFalse(t) => if s.stack.len() < 1 {
                    err(VmErrKind::StackUnderflow)
                } else {
                    match s.stack.last() {
                        AVal::Bool(c) => AStep::Next(
                            AState {
                                ip: if c {
                                    s.ip + 1
                                } else {
                                    t as int
                                },
                                stack: s.stack.drop_last(),
                                ..s
                            },
                        ),
                        _ => err(VmErrKind::TypeMismatch),
                    }
                },
                AInstr::List(n) => if s.stack.len() < n {
                    err(VmErrKind::StackUnderflow)
                } else {
                    let elems = s.stack.subrange(s.stack.len() - n, s.stack.len() as int);
                    AStep::Next(
                        AState {
                            ip: s.ip + 1,
                            stack: s.stack.take(s.stack.len() - n).push(AVal::List(elems)),
                            ..s
                        },
                    )
                },
                AInstr::Index => if s.stack.len() < 2 {
                    err(VmErrKind::StackUnderflow)
                } else {
                    match (s.stack[s.stack.len() - 2], s.stack.last()) {
                        (AVal::List(l), AVal::Int(i)) => if 0 <= i < l.len() {
                            AStep::Next(
                                AState {
                                    ip: s.ip + 1,
                                    stack: s.stack.take(s.stack.len() - 2).push(l[i as int]),
                                    ..s
                                },
                            )
                        } else {
                            err(VmErrKind::IndexOutOfRange)
                        },
                        _ => err(VmErrKind::TypeMismatch),
                    }
                },
                AInstr::Store => if s.stack.len() < 3 {
                    err(VmErrKind::StackUnderflow)
                } else {
                    match (s.stack[s.stack.len() - 3], s.stack[s.stack.len() - 2], s.stack.last()) {
                        (v, AVal::List(l), AVal::Int(i)) => if 0 <= i < l.len() {
                            AStep::Next(
                                AState {
                                    ip: s.ip + 1,
                                    stack: s.stack.take(s.stack.len() - 3).push(
                                        AVal::List(l.update(i as int, v)),
                                    ),
                                    ..s
                                },
                            )
                        } else {
                            err(VmErrKind::IndexOutOfRange)
                        },
                        _ => err(VmErrKind::TypeMismatch),
                    }
                },
                AInstr::Append => if s.stack.len() < 2 {
                    err(VmErrKind::StackUnderflow)
                } else {
                    match (s.stack[s.stack.len() - 2], s.stack.last()) {
                        (AVal::List(l), v) => AStep::Next(
                            AState {
                                ip: s.ip + 1,
                                stack: s.stack.take(s.stack.len() - 2).push(AVal::List(l.push(v))),
                                ..s
                            },
                        ),
                        _ => err(VmErrKind::TypeMismatch),
                    }
                },
                AInstr::DefLocal(n) => if s.stack.len() < 1 {
                    err(VmErrKind::StackUnderflow)
                } else if s.frames.len() < 1 {
                    err(VmErrKind::FrameMissing)
                } else {
                    let f = s.frames.last();
                    let v = s.stack.last();
                    if n < f.locals.len() {
                        AStep::Next(
                            AState {
                                ip: s.ip + 1,
                                stack: s.stack.drop_last(),
                                frames: s.frames.drop_last().push(
                                    AFrame { locals: f.locals.update(n as int, v), ..f },
                                ),
                                ..s
                            },
                        )
                    } else if n == f.locals.len() {
                        AStep::Next(
                            AState {
                                ip: s.ip + 1,
                                stack: s.stack.drop_last(),
                                frames: s.frames.drop_last().push(
                                    AFrame { locals: f.locals.push(v), ..f },
                                ),
                                ..s
                            },
                        )
                    } else {
                        err(VmErrKind::BadSlot)
                    }
                },
                AInstr::Assign(n) => if s.stack.len() < 1 {
                    err(VmErrKind::StackUnderflow)
                } else if s.frames.len() < 1 {
                    err(VmErrKind::FrameMissing)
                } else {
                    let f = s.frames.last();
                    let v = s.stack.last();
                    if n < f.locals.len() {
                        AStep::Next(
                            AState {
                                ip: s.ip + 1,
                                stack: s.stack.drop_last(),
                                frames: s.frames.drop_last().push(
                                    AFrame { locals: f.locals.update(n as int, v), ..f },
                                ),
                                ..s
                            },
                        )
                    } else {
                        err(VmErrKind::BadSlot)
                    }
                },
                AInstr::GetLocal(n) => if s.frames.len() < 1 {
                    err(VmErrKind::FrameMissing)
                } else {
                    let f = s.frames.last();
                    if n < f.locals.len() {
                        AStep::Next(
                            AState { ip: s.ip + 1, stack: s.stack.push(f.locals[n as int]), ..s },
                        )
                    } else {
                        err(VmErrKind::BadSlot)
                    }
                },
                AInstr::Call(entry, nargs) => if s.stack.len() < nargs {
                    err(VmErrKind::StackUnderflow)
                } else {
                    let args = s.stack.subrange(s.stack.len() - nargs, s.stack.len() as int);
                    AStep::Next(
                        AState {
                            ip: entry as int,
                            stack: s.stack.take(s.stack.len() - nargs),
                            frames: s.frames.push(
                                AFrame {
                                    locals: args,
                                    ret_ip: s.ip + 1,
                                    base: s.stack.len() - nargs,
                                },
                            ),
                            ..s
                        },
                    )
                },
                AInstr::Return => if s.frames.len() < 1 {
                    err(VmErrKind::FrameMissing)
                } else {
                    let f = s.frames.last();
                    let rv = if s.stack.len() > f.base {
                        s.stack.last()
                    } else {
                        AVal::Nil
                    };
                    if s.frames.len() == 1 {
                        AStep::Halt(rv)
                    } else {
                        let kept = if f.base < s.stack.len() {
                            f.base
                        } else {
                            s.stack.len() as int
                        };
                        AStep::Next(
                            AState {
                                ip: f.ret_ip,
                                stack: s.stack.take(kept).push(rv),
                                frames: s.frames.drop_last(),
                                ..s
                            },
                        )
                    }
                },
                AInstr::Print => if s.stack.len() < 1 {
                    err(VmErrKind::StackUnderflow)
                } else {
                    AStep::Next(
                        AState {
                            ip: s.ip + 1,
                            stack: s.stack.drop_last(),
                            output: s.output.push(s.stack.last()),
                            ..s
                        },
                    )
                },
                _ => err(VmErrKind::TypeMismatch),
            }
        }
    }
}

/// The machine run under a fuel bound: `More` means the fuel ran out with
/// the machine still going.
pub enum ARun {
    More(AState),
    Halted(AVal, Seq<AVal>),
    Failed(VmError, Seq<AVal>),
}

pub open spec fn spec_run(prog: Seq<AInstr>, s: AState, fuel: nat) -> ARun
    decreases fuel,
{
    if fuel == 0 {
        ARun::More(s)
    } else {
        match spec_step(prog, s) {
            AStep::Next(s2) => spec_run(prog, s2, (fuel - 1) as nat),
            AStep::Halt(v) => ARun::Halted(v, s.output),
            AStep::Fail(e) => ARun::Failed(e, s.output),
        }
    }
}

/// The machine's starting state: execution begins at the entry offset with
/// an empty operand stack and one frame, the entry function's own.
pub open spec fn init_state(start_ip: usize) -> AState {
    AState {
        ip: start_ip as int,
        stack: Seq::empty(),
        frames: seq![AFrame { locals: Seq::empty(), ret_ip: 0, base: 0 }],
        output: Seq::empty(),
    }
}

fn pop_val(stack: &mut Vec<Value>) -> (r: Value)
    requires
        old(stack).len() >= 1,
    ensures
        r == old(stack)@.last(),
        final(stack)@ == old(stack)@.drop_last(),
{
    match stack.pop() {
        Some(v) => v,
        None => {
            proof {
                assert(false);
            }
            Value::Nil
        },
    }
}

fn pop_frame(frames: &mut Vec<Frame>) -> (r: Frame)
    requires
        old(frames).len() >= 1,
    ensures
        r == old(frames)@.last(),
        final(frames)@ == old(frames)@.drop_last(),
{
    match frames.pop() {
        Some(f) => f,
        None => {
            proof {
                assert(false);
            }
            Frame { locals: Vec::new(), ret_ip: 0, base: 0 }
        },
    }
}

/// Evaluates a binary instruction on two operands, as `bin_result` says.
fn eval_bin(op: &Instruction, a: &Value, b: &Value) -> (r: Result<Value, VmErrKind>)
    ensures
        match r {
            Ok(v) => bin_result(op@, a@, b@) == Ok::<AVal, VmErrKind>(v@),
            Err(k) => bin_result(op@, a@, b@) == Err::<AVal, VmErrKind>(k),
        },
{
    match op {
        Instruction::Add => match (a, b) {
            (Value::Int(x), Value::Int(y)) => match x.checked_add(*y) {
                Some(z) => Ok(Value::Int(z)),
                None => Err(VmErrKind::Overflow),
            },
            _ => Err(VmErrKind::TypeMismatch),
        },
        Instruction::Sub => match (a, b) {
            (Value::Int(x), Value::Int(y)) => match x.checked_sub(*y) {
                Some(z) => Ok(Value::Int(z)),
                None => Err(VmErrKind::Overflow),
            },
            _ => Err(VmErrKind::TypeMismatch),
        },
        Instruction::Mul => match (a, b) {
            (Value::Int(x), Value::Int(y)) => match x.checked_mul(*y) {
                Some(z) => Ok(Value::Int(z)),
                None => Err(VmErrKind::Overflow),
            },
            _ => Err(VmErrKind::TypeMismatch),
        },
        Instruction::Div => match (a, b) {
            (Value::Int(x), Value::Int(y)) => if *y == 0 {
                Err(VmErrKind::DivByZero)
            } else {
                match x.checked_div(*y) {
                    Some(z) => Ok(Value::Int(z)),
                    None => Err(VmErrKind::Overflow),
                }
            },
            _ => Err(VmErrKind::TypeMismatch),
        },
        Instruction::Mod => match (a, b) {
            (Value::Int(x), Value::Int(y)) => if *y == 0 {
                Err(VmErrKind::DivByZero)
            } else {
                match x.checked_rem(*y) {
                    Some(z) => Ok(Value::Int(z)),
                    None => Err(VmErrKind::Overflow),
                }
            },
            _ => Err(VmErrKind::TypeMismatch),
        },
        Instruction::And => match (a, b) {
            (Value::Bool(x), Value::Bool(y)) => Ok(Value::Bool(*x && *y)),
            _ => Err(VmErrKind::TypeMismatch),
        },
        Instruction::Or => match (a, b) {
            (Value::Bool(x), Value::Bool(y)) => Ok(Value::Bool(*x || *y)),
            _ => Err(VmErrKind::TypeMismatch),
        },
        Instruction::Equal => Ok(Value::Bool(value_eq(a, b))),
        Instruction::NotEqual => Ok(Value::Bool(!value_eq(a, b))),
        Instruction::Less => match (a, b) {
            (Value::Int(x), Value::Int(y)) => Ok(Value::Bool(*x < *y)),
            (Value::Char(x), Value::Char(y)) => Ok(Value::Bool(*x < *y)),
            _ => Err(VmErrKind::TypeMismatch),
        },
        Instruction::LessEqual => match (a, b) {
            (Value::Int(x), Value::Int(y)) => Ok(Value::Bool(*x <= *y)),
            (Value::Char(x), Value::Char(y)) => Ok(Value::Bool(*x <= *y)),
            _ => Err(VmErrKind::TypeMismatch),
        },
        Instruction::Greater => match (a, b) {
            (Value::Int(x), Value::Int(y)) => Ok(Value::Bool(*x > *y)),
            (Value::Char(x), Value::Char(y)) => Ok(Value::Bool(*x > *y)),
            _ => Err(VmErrKind::TypeMismatch),
        },
        Instruction::GreaterEqual => match (a, b) {
            (Value::Int(x), Value::Int(y)) => Ok(Value::Bool(*x >= *y)),
            (Value::Char(x), Value::Char(y)) => Ok(Value::Bool(*x >= *y)),
            _ => Err(VmErrKind::TypeMismatch),
        },
        _ => Err(VmErrKind::TypeMismatch),
    }
}

/// Evaluates a unary instruction on one operand, as `un_result` says.
fn eval_un(op: &Instruction, a: &Value) -> (r: Result<Value, VmErrKind>)
    ensures
        match r {
            Ok(v) => un_result(op@, a@) == Ok::<AVal, VmErrKind>(v@),
            Err(k) => un_result(op@, a@) == Err::<AVal, VmErrKind>(k),
        },
{
    match op {
        Instruction::Neg => match a {
            Value::Int(x) => match (0i64).checked_sub(*x) {
                Some(z) => Ok(Value::Int(z)),
                None => Err(VmErrKind::Overflow),
            },
            _ => Err(VmErrKind::TypeMismatch),
        },
        Instruction::Not => match a {
            Value::Bool(x) => Ok(Value::Bool(!*x)),
            _ => Err(VmErrKind::TypeMismatch),
        },
        _ => Err(VmErrKind::TypeMismatch),
    }
}

/// The outcome of one executed transition.
pub enum StepOut {
    Cont,
    Halt(Value),
    Fail(VmError),
}

impl Vm {
    /// Executes one instruction, following `spec_step` exactly. On a halt
    /// or a failure the printed output is left as it was.
    pub fn step(&mut self, instrs: &Vec<Instruction>) -> (r: StepOut)
        ensures
            match r {
                StepOut::Cont => spec_step(instrs.deep_view(), old(self)@) == AStep::Next(final(self)@),
                StepOut::Halt(v) => spec_step(instrs.deep_view(), old(self)@) == AStep::Halt(v@)
                    && final(self)@.output == old(self)@.output,
                StepOut::Fail(e) => spec_step(instrs.deep_view(), old(self)@) == AStep::Fail(e)
                    && final(self)@.output == old(self)@.output,
            },
    {
        let ghost prog = instrs.deep_view();
        let ghost s0 = self@;
        if self.ip >= instrs.len() {
            return StepOut::Fail(VmError { kind: VmErrKind::BadTarget, at: self.ip });
        }
        let at = self.ip;
        let ins = &instrs[at];
        proof {
            assert(prog[s0.ip] == ins@);
        }
        match ins {
            Instruction::Add
            | Instruction::Sub
            | Instruction::Mul
            | Instruction::Div
            | Instruction::Mod
            | Instruction::And
            | Instruction::Or
            | Instruction::Equal
            | Instruction::NotEqual
            | Instruction::Less
            | Instruction::LessEqual
            | Instruction::Greater
            | Instruction::GreaterEqual => {
                if self.stack.len() < 2 {
                    return StepOut::Fail(VmError { kind: VmErrKind::StackUnderflow, at });
                }
                let b = pop_val(&mut self.stack);
                let a = pop_val(&mut self.stack);
                match eval_bin(ins, &a, &b) {
                    Ok(v) => {
                        self.stack.push(v);
                        self.ip = at + 1;
                        proof {
                            assert(self@.stack =~~= s0.stack.take(s0.stack.len() - 2).push(v@));
                            assert(spec_step(prog, s0) == AStep::Next(self@)) by {
                                assert(spec_step(prog, s0) matches AStep::Next(s2) && s2 =~~= self@);
                            }
                        }
                        StepOut::Cont
                    },
                    Err(k) => StepOut::Fail(VmError { kind: k, at }),
                }
            },
            Instruction::Neg | Instruction::Not => {
                if self.stack.len() < 1 {
                    return StepOut::Fail(VmError { kind: VmErrKind::StackUnderflow, at });
                }
                let a = pop_val(&mut self.stack);
                match eval_un(ins, &a) {
                    Ok(v) => {
                        self.stack.push(v);
                        self.ip = at + 1;
                        proof {
                            assert(self@.stack =~~= s0.stack.drop_last().push(v@));
                            assert(spec_step(prog, s0) matches AStep::Next(s2) && s2 =~~= self@);
                        }
                        StepOut::Cont
                    },
                    Err(k) => StepOut::Fail(VmError { kind: k, at }),
                }
            },
            Instruction::True => {
                self.stack.push(Value::Bool(true));
                self.ip = at + 1;
                proof {
                    assert(spec_step(prog, s0) matches AStep::Next(s2) && s2 =~~= self@);
                }
                StepOut::Cont
            },
            Instruction::False => {
                self.stack.push(Value::Bool(false));
                self.ip = at + 1;
                proof {
                    assert(spec_step(prog, s0) matches AStep::Next(s2) && s2 =~~= self@);
                }
                StepOut::Cont
            },
            Instruction::Const(c) => {
                let v = dup_value(c);
                self.stack.push(v);
                self.ip = at + 1;
                proof {
                    assert(spec_step(prog, s0) matches AStep::Next(s2) && s2 =~~= self@);
                }
                StepOut::Cont
            },
            Instruction::Pop => {
                if self.stack.len() < 1 {
                    return StepOut::Fail(VmError { kind: VmErrKind::StackUnderflow, at });
                }
                let _ = pop_val(&mut self.stack);
                self.ip = at + 1;
                proof {
                    assert(self@.stack =~~= s0.stack.drop_last());
                    assert(spec_step(prog, s0) matches AStep::Next(s2) && s2 =~~= self@);
                }
                StepOut::Cont
            },
            Instruction::Jump(t) => {
                self.ip = *t;
                proof {
                    assert(spec_step(prog, s0) matches AStep::Next(s2) && s2 =~~= self@);
                }
                StepOut::Cont
            },
            Instruction::JumpIfFalse(t) => {
                if self.stack.len() < 1 {
                    return StepOut::Fail(VmError { kind: VmErrKind::StackUnderflow, at });
                }
                let c = pop_val(&mut self.stack);
                match c {
                    Value::Bool(cond) => {
                        self.ip = if cond {
                            at + 1
                        } else {
                            *t
                        };
                        proof {
                            assert(self@.stack =~~= s0.stack.drop_last());
                            assert(spec_step(prog, s0) matches AStep::Next(s2) && s2 =~~= self@);
                        }
                        StepOut::Cont
                    },
                    _ => StepOut::Fail(VmError { kind: VmErrKind::TypeMismatch, at }),
                }
            },
            Instruction::List(n) => {
                if self.stack.len() < *n {
                    return StepOut::Fail(VmError { kind: VmErrKind::StackUnderflow, at });
                }
                let ghost st0 = self.stack@;
                let split = self.stack.len() - *n;
                let elems = self.stack.split_off(split);
                let ghost ev = elems@;
                self.stack.push(Value::List(elems));
                self.ip = at + 1;
                proof {
                    assert(dv(ev) == dv(st0.subrange(split as int, st0.len() as int)));
                    assert(dv(ev) =~~= s0.stack.subrange(
                        s0.stack.len() - (n as int),
                        s0.stack.len() as int,
                    ));
                    assert(self@.stack =~~= s0.stack.take(s0.stack.len() - (n as int)).push(
                        AVal::List(s0.stack.subrange(s0.stack.len() - (n as int), s0.stack.len() as int)),
                    ));
                    assert(spec_step(prog, s0) matches AStep::Next(s2) && s2 =~~= self@);
                }
                StepOut::Cont
            },
            Instruction::Index => {
                if self.stack.len() < 2 {
                    return StepOut::Fail(VmError { kind: VmErrKind::StackUnderflow, at });
                }
                let idx = pop_val(&mut self.stack);
                let lst = pop_val(&mut self.stack);
                match &lst {
                    Value::List(l) => match &idx {
                        Value::Int(i) => {
                            if *i < 0 || *i as u64 >= l.len() as u64 {
                                return StepOut::Fail(
                                    VmError { kind: VmErrKind::IndexOutOfRange, at },
                                );
                            }
                            let v = dup_value(&l[*i as usize]);
                            self.stack.push(v);
                            self.ip = at + 1;
                            proof {
                                assert(lst@ == AVal::List(dv(l@)));
                                assert(v@ == l@[*i as int]@);
                                assert(l@[*i as int]@ == l@[*i as int].deep_view());
                                assert(v@ == dv(l@)[*i as int]);
                                assert(self@.stack =~~= s0.stack.take(s0.stack.len() - 2).push(
                                    lst@->List_0[idx@->Int_0 as int],
                                ));
                                assert(spec_step(prog, s0) matches AStep::Next(s2) && s2 =~~= self@);
                            }
                            StepOut::Cont
                        },
                        _ => StepOut::Fail(VmError { kind: VmErrKind::TypeMismatch, at }),
                    },
                    _ => StepOut::Fail(VmError { kind: VmErrKind::TypeMismatch, at }),
                }
            },
            Instruction::Store => {
                if self.stack.len() < 3 {
                    return StepOut::Fail(VmError { kind: VmErrKind::StackUnderflow, at });
                }
                let idx = pop_val(&mut self.stack);
                let lst = pop_val(&mut self.stack);
                let v = pop_val(&mut self.stack);
                let ghost lv = lst@;
                let ghost vv = v@;
                match lst {
                    Value::List(mut l) => match &idx {
                        Value::Int(i) => {
                            if *i < 0 || *i as u64 >= l.len() as u64 {
                                return StepOut::Fail(
                                    VmError { kind: VmErrKind::IndexOutOfRange, at },
                                );
                            }
                            let ghost l0 = l@;
                            l[*i as usize] = v;
                            self.stack.push(Value::List(l));
                            self.ip = at + 1;
                            proof {
                                assert(lv == AVal::List(dv(l0)));
                                assert(l@ == l0.update(*i as int, v));
                                assert(self@.stack =~~= s0.stack.take(s0.stack.len() - 3).push(
                                    AVal::List(dv(l0).update(idx@->Int_0 as int, vv)),
                                ));
                                assert(spec_step(prog, s0) matches AStep::Next(s2) && s2 =~~= self@);
                            }
                            StepOut::Cont
                        },
                        _ => StepOut::Fail(VmError { kind: VmErrKind::TypeMismatch, at }),
                    },
                    _ => StepOut::Fail(VmError { kind: VmErrKind::TypeMismatch, at }),
                }
            },
            Instruction::Append => {
                if self.stack.len() < 2 {
                    return StepOut::Fail(VmError { kind: VmErrKind::StackUnderflow, at });
                }
                let v = pop_val(&mut self.stack);
                let lst = pop_val(&mut self.stack);
                let ghost lv = lst@;
                let ghost vv = v@;
                match lst {
                    Value::List(mut l) => {
                        let ghost l0 = l@;
                        l.push(v);
                        self.stack.push(Value::List(l));
                        self.ip = at + 1;
                        proof {
                            assert(lv == AVal::List(dv(l0)));
                            assert(dv(l0.push(v)) == dv(l0).push(vv));
                            assert(self@.stack =~~= s0.stack.take(s0.stack.len() - 2).push(
                                AVal::List(dv(l0).push(vv)),
                            ));
                            assert(spec_step(prog, s0) matches AStep::Next(s2) && s2 =~~= self@);
                        }
                        StepOut::Cont
                    },
                    _ => StepOut::Fail(VmError { kind: VmErrKind::TypeMismatch, at }),
                }
            },
            Instruction::DefLocal(n) => {
                if self.stack.len() < 1 {
                    return StepOut::Fail(VmError { kind: VmErrKind::StackUnderflow, at });
                }
                if self.frames.len() < 1 {
                    return StepOut::Fail(VmError { kind: VmErrKind::FrameMissing, at });
                }
                let v = pop_val(&mut self.stack);
                let mut f = pop_frame(&mut self.frames);
                if *n < f.locals.len() {
                    let ghost loc0 = f.locals@;
                    f.locals[*n] = v;
                    self.frames.push(f);
                    self.ip = at + 1;
                    proof {
                        assert(self@.frames =~~= s0.frames.drop_last().push(
                            AFrame {
                                locals: dv(loc0).update(n as int, v@),
                                ..s0.frames.last()
                            },
                        ));
                        assert(self@.stack =~~= s0.stack.drop_last());
                        assert(spec_step(prog, s0) matches AStep::Next(s2) && s2 =~~= self@);
                    }
                    StepOut::Cont
                } else if *n == f.locals.len() {
                    let ghost loc0 = f.locals@;
                    f.locals.push(v);
                    self.frames.push(f);
                    self.ip = at + 1;
                    proof {
                        assert(self@.frames =~~= s0.frames.drop_last().push(
                            AFrame { locals: dv(loc0).push(v@), ..s0.frames.last() },
                        ));
                        assert(self@.stack =~~= s0.stack.drop_last());
                        assert(spec_step(prog, s0) matches AStep::Next(s2) && s2 =~~= self@);
                    }
                    StepOut::Cont
                } else {
                    StepOut::Fail(VmError { kind: VmErrKind::BadSlot, at })
                }
            },
            Instruction::Assign(n) => {
                if self.stack.len() < 1 {
                    return StepOut::Fail(VmError { kind: VmErrKind::StackUnderflow, at });
                }
                if self.frames.len() < 1 {
                    return StepOut::Fail(VmError { kind: VmErrKind::FrameMissing, at });
                }
                let v = pop_val(&mut self.stack);
                let mut f = pop_frame(&mut self.frames);
                if *n < f.locals.len() {
                    let ghost loc0 = f.locals@;
                    f.locals[*n] = v;
                    self.frames.push(f);
                    self.ip = at + 1;
                    proof {
                        assert(self@.frames =~~= s0.frames.drop_last().push(
                            AFrame {
                                locals: dv(loc0).update(n as int, v@),
                                ..s0.frames.last()
                            },
                        ));
                        assert(self@.stack =~~= s0.stack.drop_last());
                        assert(spec_step(prog, s0) matches AStep::Next(s2) && s2 =~~= self@);
                    }
                    StepOut::Cont
                } else {
                    StepOut::Fail(VmError { kind: VmErrKind::BadSlot, at })
                }
            },
            Instruction::GetLocal(n) => {
                if self.frames.len() < 1 {
                    return StepOut::Fail(VmError { kind: VmErrKind::FrameMissing, at });
                }
                let fidx = self.frames.len() - 1;
                if *n >= self.frames[fidx].locals.len() {
                    return StepOut::Fail(VmError { kind: VmErrKind::BadSlot, at });
                }
                let v = dup_value(&self.frames[fidx].locals[*n]);
                self.stack.push(v);
                self.ip = at + 1;
                proof {
                    assert(self@.stack =~~= s0.stack.push(s0.frames.last().locals[n as int]));
                    assert(spec_step(prog, s0) matches AStep::Next(s2) && s2 =~~= self@);
                }
                StepOut::Cont
            },
            Instruction::Call(entry, nargs) => {
                if self.stack.len() < *nargs {
                    return StepOut::Fail(VmError { kind: VmErrKind::StackUnderflow, at });
                }
                let base = self.stack.len() - *nargs;
                let locals = self.stack.split_off(base);
                self.frames.push(Frame { locals, ret_ip: at + 1, base });
                self.ip = *entry;
                proof {
                    assert(self@.stack =~~= s0.stack.take(s0.stack.len() - (nargs as int)));
                    assert(self@.frames =~~= s0.frames.push(
                        AFrame {
                            locals: s0.stack.subrange(
                                s0.stack.len() - (nargs as int),
                                s0.stack.len() as int,
                            ),
                            ret_ip: s0.ip + 1,
                            base: s0.stack.len() - (nargs as int),
                        },
                    ));
                    assert(spec_step(prog, s0) matches AStep::Next(s2) && s2 =~~= self@);
                }
                StepOut::Cont
            },
            Instruction::Return => {
                if self.frames.len() < 1 {
                    return StepOut::Fail(VmError { kind: VmErrKind::FrameMissing, at });
                }
                let f = pop_frame(&mut self.frames);
                let rv = if self.stack.len() > f.base {
                    pop_val(&mut self.stack)
                } else {
                    Value::Nil
                };
                self.stack.truncate(f.base);
                if self.frames.len() == 0 {
                    proof {
                        assert(spec_step(prog, s0) == AStep::Halt(rv@));
                    }
                    StepOut::Halt(rv)
                } else {
                    self.ip = f.ret_ip;
                    self.stack.push(rv);
                    proof {
                        let fs = s0.frames.last();
                        let kept = if fs.base < s0.stack.len() {
                            fs.base
                        } else {
                            s0.stack.len() as int
                        };
                        assert(self@.stack =~~= s0.stack.take(kept).push(
                            if s0.stack.len() > fs.base {
                                s0.stack.last()
                            } else {
                                AVal::Nil
                            },
                        ));
                        assert(self@.frames =~~= s0.frames.drop_last());
                        assert(spec_step(prog, s0) matches AStep::Next(s2) && s2 =~~= self@);
                    }
                    StepOut::Cont
                }
            },
            Instruction::Print => {
                if self.stack.len() < 1 {
                    return StepOut::Fail(VmError { kind: VmErrKind::StackUnderflow, at });
                }
                let v = pop_val(&mut self.stack);
                self.output.push(v);
                self.ip = at + 1;
                proof {
                    assert(self@.stack =~~= s0.stack.drop_last());
                    assert(self@.output =~~= s0.output.push(s0.stack.last()));
                    assert(spec_step(prog, s0) matches AStep::Next(s2) && s2 =~~= self@);
                }
                StepOut::Cont
            },
        }
    }
}

/// The outcome of a whole run: the entry function's return value and the
/// printed values in order, a runtime failure with the output printed up to
/// it, or exhaustion of the step budget.
#[derive(Debug)]
pub enum ExecOutcome {
    Halted(Value, Vec<Value>),
    Failed(VmError, Vec<Value>),
    OutOfFuel,
}

/// Runs the machine from `start_ip` for at most `fuel` transitions,
/// following `spec_run` exactly.
#[verifier::loop_isolation(false)]
pub fn run(instrs: &Vec<Instruction>, start_ip: usize, fuel: u64) -> (r: ExecOutcome)
    ensures
        match r {
            ExecOutcome::Halted(v, out) => spec_run(
                instrs.deep_view(),
                init_state(start_ip),
                fuel as nat,
            ) == ARun::Halted(v@, out.deep_view()),
            ExecOutcome::Failed(e, out) => spec_run(
                instrs.deep_view(),
                init_state(start_ip),
                fuel as nat,
            ) == ARun::Failed(e, out.deep_view()),
            ExecOutcome::OutOfFuel => spec_run(
                instrs.deep_view(),
                init_state(start_ip),
                fuel as nat,
            ) matches ARun::More(_),
        },
{
    let ghost prog = instrs.deep_view();
    let mut frames: Vec<Frame> = Vec::new();
    frames.push(Frame { locals: Vec::new(), ret_ip: 0, base: 0 });
    let mut vm = Vm { ip: start_ip, stack: Vec::new(), frames, output: Vec::new() };
    proof {
        assert(vm@.frames =~~= init_state(start_ip).frames);
        assert(vm@ =~~= init_state(start_ip));
    }
    let mut n: u64 = 0;
    while n < fuel
        invariant
            n <= fuel,
            spec_run(prog, init_state(start_ip), fuel as nat) == spec_run(
                prog,
                vm@,
                (fuel - n) as nat,
            ),
        decreases fuel - n,
    {
        let ghost pre = vm@;
        match vm.step(instrs) {
            StepOut::Cont => {
                proof {
                    let k = (fuel - n) as nat;
                    assert(k > 0);
                    assert(spec_step(prog, pre) == AStep::Next(vm@));
                    reveal_with_fuel(spec_run, 2);
                    assert(spec_run(prog, pre, k) == spec_run(prog, vm@, (k - 1) as nat));
                    assert((k - 1) as nat == (fuel - (n + 1)) as nat);
                }
                n = n + 1;
            },
            StepOut::Halt(v) => {
                proof {
                    assert(spec_run(prog, pre, (fuel - n) as nat) == ARun::Halted(v@, pre.output));
                }
                return ExecOutcome::Halted(v, vm.output);
            },
            StepOut::Fail(e) => {
                proof {
                    assert(spec_run(prog, pre, (fuel - n) as nat) == ARun::Failed(e, pre.output));
                }
                return ExecOutcome::Failed(e, vm.output);
            },
        }
    }
    ExecOutcome::OutOfFuel
}

} // verus!

