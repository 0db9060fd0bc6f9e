//! Laws of the compiler and the machine, stated over the specification
//! functions and proved once and for all.
use crate::ast::{ArithOp, Expr, Type};
use crate::compile::{arith_instr, emit_expr, patch_jumps, zero_val};
use crate::instr::AInstr;
use crate::value::AVal;
use crate::vm::{bin_result, spec_step, AState, AStep, VmErrKind, VmError};
use vstd::prelude::*;

verus! {

/// Compiled arithmetic evaluates as the native operation. A compiled
/// `a op b` on integer literals is exactly the three instructions pushing
/// `a`, pushing `b`, then the operator; from any state at that code, three
/// transitions leave one value on the stack: the native 64-bit result `r`
/// of `op`, whenever that operation is defined and representable (that is
/// what `bin_result` returning `Ok` says). Frames, locals and output are
/// untouched.
pub proof fn lemma_arith_eval(prog: Seq<AInstr>, s: AState, op: ArithOp, a: i64, b: i64, r: i64)
    requires
        0 <= s.ip,
        s.ip + 3 <= prog.len(),
        prog[s.ip] == AInstr::Const(AVal::Int(a)),
        prog[s.ip + 1] == AInstr::Const(AVal::Int(b)),
        prog[s.ip + 2] == arith_instr(op),
        bin_result(arith_instr(op), AVal::Int(a), AVal::Int(b)) == Ok::<AVal, VmErrKind>(
            AVal::Int(r),
        ),
    ensures
        spec_step(prog, s) matches AStep::Next(s1) && spec_step(prog, s1) matches AStep::Next(s2)
            && spec_step(prog, s2) == AStep::Next(
            AState { ip: s.ip + 3, stack: s.stack.push(AVal::Int(r)), ..s },
        ),
{
    let s1 = spec_step(prog, s)->Next_0;
    let s2 = spec_step(prog, s1)->Next_0;
    assert(s1.stack == s.stack.push(AVal::Int(a)));
    assert(s2.stack == s.stack.push(AVal::Int(a)).push(AVal::Int(b)));
    assert(s2.stack.take(s2.stack.len() - 2) =~= s.stack);
    assert(spec_step(prog, s2) matches AStep::Next(s3) && s3 =~~= AState {
        ip: s.ip + 3,
        stack: s.stack.push(AVal::Int(r)),
        ..s
    });
}

/// A compiled conditional on a boolean literal continues at the selected
/// branch. The compiled form of `if (c) { A } else { B }` opens with the
/// condition's code — for a literal, one `True`/`False` push — and a
/// conditional jump whose patched target is B's first instruction; two
/// transitions later execution stands at A's first instruction when `c`
/// holds and at B's when it does not, with the stack, frames and output
/// exactly as before: the other branch's code is not entered.
pub proof fn lemma_if_literal_selects_branch(prog: Seq<AInstr>, s: AState, c: bool, else_base: usize)
    requires
        0 <= s.ip,
        s.ip + 2 <= prog.len(),
        prog[s.ip] == (if c {
            AInstr::True
        } else {
            AInstr::False
        }),
        prog[s.ip + 1] == AInstr::JumpIfFalse(else_base),
    ensures
        spec_step(prog, s) matches AStep::Next(s1) && spec_step(prog, s1) == AStep::Next(
            AState {
                ip: if c {
                    s.ip + 2
                } else {
                    else_base as int
                },
                ..s
            },
        ),
{
    let s1 = spec_step(prog, s)->Next_0;
    assert(s1.stack == s.stack.push(AVal::Bool(c)));
    assert(s1.stack.drop_last() =~= s.stack);
    assert(spec_step(prog, s1) matches AStep::Next(s2) && s2 =~~= AState {
        ip: if c {
            s.ip + 2
        } else {
            else_base as int
        },
        ..s
    });
}

/// Patching a recorded jump site never disturbs a site that already holds
/// the patched jump.
proof fn lemma_patch_jumps_keeps(
    code: Seq<AInstr>,
    base: int,
    sites: Seq<usize>,
    target: usize,
    p: int,
)
    requires
        forall|t: int| 0 <= t < sites.len() ==> base <= #[trigger] sites[t] < base + code.len(),
        0 <= p < code.len(),
        code[p] == AInstr::Jump(target),
    ensures
        patch_jumps(code, base, sites, target)[p] == AInstr::Jump(target),
    decreases sites.len(),
{
    if sites.len() > 0 {
        let rest = sites.subrange(1, sites.len() as int);
        assert(forall|t: int|
            0 <= t < rest.len() ==> base <= #[trigger] rest[t] < base + code.len());
        lemma_patch_jumps_keeps(
            code.update(sites[0] - base, AInstr::Jump(target)),
            base,
            rest,
            target,
            p,
        );
    }
}

/// Every recorded `break` site is patched to an unconditional jump to the
/// loop's exit: in the compiled form of a `while`, each `break` in the
/// body, wherever it is nested, ends as `Jump(exit)` where `exit` is the
/// first offset after the loop — the compiled break semantics.
pub proof fn lemma_breaks_jump_to_exit(
    code: Seq<AInstr>,
    base: int,
    sites: Seq<usize>,
    target: usize,
    t: int,
)
    requires
        forall|q: int| 0 <= q < sites.len() ==> base <= #[trigger] sites[q] < base + code.len(),
        0 <= t < sites.len(),
    ensures
        patch_jumps(code, base, sites, target)[sites[t] - base] == AInstr::Jump(target),
    decreases sites.len(),
{
    let code2 = code.update(sites[0] - base, AInstr::Jump(target));
    let rest = sites.subrange(1, sites.len() as int);
    assert(forall|q: int| 0 <= q < rest.len() ==> base <= #[trigger] rest[q] < base + code2.len());
    if t == 0 {
        lemma_patch_jumps_keeps(code2, base, rest, target, sites[0] - base);
    } else {
        assert(rest[t - 1] == sites[t]);
        lemma_breaks_jump_to_exit(code2, base, rest, target, t - 1);
    }
}

/// A call binds its arguments to the callee's first parameter slots in
/// declaration order: the machine pops the `nargs` argument values and the
/// new frame's slot `j` holds exactly the `j`-th argument. The caller's
/// frames — its locals among them — are untouched underneath, and the
/// frame records where to resume and the caller's stack depth.
pub proof fn lemma_call_binds_args(prog: Seq<AInstr>, s: AState, entry: usize, nargs: usize)
    requires
        0 <= s.ip < prog.len(),
        prog[s.ip] == AInstr::Call(entry, nargs),
        s.stack.len() >= nargs,
    ensures
        spec_step(prog, s) matches AStep::Next(s2) && {
            let frame = s2.frames.last();
            &&& s2.ip == entry
            &&& s2.frames.len() == s.frames.len() + 1
            &&& s2.frames.drop_last() == s.frames
            &&& frame.locals.len() == nargs
            &&& forall|j: int|
                0 <= j < nargs ==> frame.locals[j] == s.stack[s.stack.len() - nargs + j]
            &&& frame.ret_ip == s.ip + 1
            &&& frame.base == s.stack.len() - nargs
            &&& s2.stack == s.stack.take(s.stack.len() - nargs)
            &&& s2.output == s.output
        },
{
    let s2 = spec_step(prog, s)->Next_0;
    assert(s2.frames.drop_last() =~= s.frames);
}

/// `Append` yields a new list one longer, with the appended value at the
/// end and the original elements unchanged in place; every other stack
/// cell, every frame and the output stay as they were, so a separately
/// bound copy of the original list is unaffected.
pub proof fn lemma_append_step(prog: Seq<AInstr>, s: AState, l: Seq<AVal>, v: AVal)
    requires
        0 <= s.ip < prog.len(),
        prog[s.ip] == AInstr::Append,
        s.stack.len() >= 2,
        s.stack[s.stack.len() - 2] == AVal::List(l),
        s.stack.last() == v,
    ensures
        spec_step(prog, s) matches AStep::Next(s2) && {
            let top = s2.stack.last();
            &&& s2.stack.len() == s.stack.len() - 1
            &&& s2.stack.take(s2.stack.len() - 1) == s.stack.take(s.stack.len() - 2)
            &&& top == AVal::List(l.push(v))
            &&& top->List_0.len() == l.len() + 1
            &&& top->List_0.last() == v
            &&& forall|j: int| 0 <= j < l.len() ==> top->List_0[j] == l[j]
            &&& s2.frames == s.frames
            &&& s2.output == s.output
            &&& s2.ip == s.ip + 1
        },
{
    let s2 = spec_step(prog, s)->Next_0;
    assert(s2.stack.take(s2.stack.len() - 1) =~= s.stack.take(s.stack.len() - 2));
}

/// `Index` out of range fails the run with `IndexOutOfRange` at the
/// failing offset rather than producing any value.
pub proof fn lemma_index_out_of_range_fails(prog: Seq<AInstr>, s: AState, l: Seq<AVal>, i: i64)
    requires
        0 <= s.ip < prog.len(),
        prog[s.ip] == AInstr::Index,
        s.stack.len() >= 2,
        s.stack[s.stack.len() - 2] == AVal::List(l),
        s.stack.last() == AVal::Int(i),
        !(0 <= i < l.len()),
    ensures
        spec_step(prog, s) == AStep::Fail(
            VmError { kind: VmErrKind::IndexOutOfRange, at: s.ip as usize },
        ),
{
}

/// `Store` at a valid index mutates only that index: the stored list keeps
/// its length, holds the new value at the index, and every other element
/// as before; the rest of the machine state is untouched.
pub proof fn lemma_store_updates_only_index(
    prog: Seq<AInstr>,
    s: AState,
    v: AVal,
    l: Seq<AVal>,
    i: i64,
)
    requires
        0 <= s.ip < prog.len(),
        prog[s.ip] == AInstr::Store,
        s.stack.len() >= 3,
        s.stack[s.stack.len() - 3] == v,
        s.stack[s.stack.len() - 2] == AVal::List(l),
        s.stack.last() == AVal::Int(i),
        0 <= i < l.len(),
    ensures
        spec_step(prog, s) matches AStep::Next(s2) && {
            let top = s2.stack.last();
            &&& s2.stack.len() == s.stack.len() - 2
            &&& s2.stack.take(s2.stack.len() - 1) == s.stack.take(s.stack.len() - 3)
            &&& top == AVal::List(l.update(i as int, v))
            &&& top->List_0.len() == l.len()
            &&& top->List_0[i as int] == v
            &&& forall|j: int| 0 <= j < l.len() && j != i ==> top->List_0[j] == l[j]
            &&& s2.frames == s.frames
            &&& s2.output == s.output
            &&& s2.ip == s.ip + 1
        },
{
    let s2 = spec_step(prog, s)->Next_0;
    assert(s2.stack.take(s2.stack.len() - 1) =~= s.stack.take(s.stack.len() - 3));
}

/// `make(list<elem>, n)` compiles, for every scalar element type, to one
/// constant: a list of exactly `n` copies of that type's zero value —
/// zero, the zero character, `false`, the zero encoding, or the empty
/// string.
pub proof fn lemma_make_zero_list(
    ty: Type,
    n: usize,
    locals: Seq<(Seq<char>, usize)>,
    funcs: Seq<(Seq<char>, usize)>,
)
    requires
        ty matches Type::List(el) && zero_val(*el) is Some,
    ensures
        emit_expr(Expr::Make(ty, n), locals, funcs) matches Ok(c) && (c.len() == 1
            && (c[0] matches AInstr::Const(cv) && (cv matches AVal::List(l) && (l.len() == n
            && (forall|j: int| 0 <= j < n ==> l[j] == zero_val(*ty->List_0)->Some_0))))),
{
}

} // verus!
