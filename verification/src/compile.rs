//! The bytecode compiler: one walk over the typed tree, emitting a flat
//! instruction sequence with every jump and call target resolved.
//!
//! The emission is specified by the `emit_*` spec functions, which mirror
//! the compiled layout exactly: operands before operators, placeholder
//! jumps back-patched once their destination is known, and a deferred
//! patch list for `break` jumps. The executable compiler is proved to
//! produce precisely the specified sequence.
use crate::ast::{ArithOp, BoolOp, CmpOp, Expr, Func, Lit, Param, Program, Stmt, Type};
use crate::instr::{AInstr, Instruction};
use crate::value::{dup_bytes, dup_value, dv, AVal, Value};
use crate::vm::{init_state, run, spec_run, ARun, ExecOutcome};
use vstd::prelude::*;

verus! {

broadcast use vstd::std_specs::vec::group_vec_axioms, vstd::seq::axiom_seq_index_decreases, vstd::seq::axiom_seq_subrange_decreases, crate::value::lemma_vec_dv, crate::value::lemma_dv_push, crate::value::lemma_dv_subrange, crate::value::lemma_dv_update, crate::value::lemma_push_concat, crate::value::lemma_concat_assoc, crate::value::lemma_val_view_list;

/// Why a compilation was rejected. Every failure aborts the whole
/// compilation: such trees should have been stopped by the upstream
/// semantic checker.
#[derive(Debug, Clone, Copy, PartialEq, Eq, Structural)]
pub enum CompileError {
    /// A variable reference or assignment names an undeclared local.
    UnknownVariable,
    /// A call names a function that is not yet in the function table.
    UnknownFunction,
    /// An assignment target other than a variable or an indexed expression.
    InvalidAssignTarget,
    /// `break` outside of any enclosing loop.
    BreakOutsideLoop,
    /// `continue` outside of any enclosing loop.
    ContinueOutsideLoop,
    /// `make` of anything but a list of scalars.
    InvalidMake,
}

/// Looks a name up in an association table; the latest binding wins.
pub open spec fn lookup(tab: Seq<(Seq<char>, usize)>, name: Seq<char>) -> Option<usize>
    decreases tab.len(),
{
    if tab.len() == 0 {
        None
    } else if tab.last().0 == name {
        Some(tab.last().1)
    } else {
        lookup(tab.drop_last(), name)
    }
}

/// The zero value of a scalar element type, used by `make`.
pub open spec fn zero_val(t: Type) -> Option<AVal> {
    match t {
        Type::Int => Some(AVal::Int(0)),
        Type::Char => Some(AVal::Char(0)),
        Type::Bool => Some(AVal::Bool(false)),
        Type::Float => Some(AVal::Float(0)),
        Type::Str => Some(AVal::Str(Seq::empty())),
        _ => None,
    }
}

/// The instruction for an arithmetic operator.
pub open spec fn arith_instr(op: ArithOp) -> AInstr {
    match op {
        ArithOp::Add => AInstr::Add,
        ArithOp::Sub => AInstr::Sub,
        ArithOp::Mul => AInstr::Mul,
        ArithOp::Div => AInstr::Div,
        ArithOp::Mod => AInstr::Mod,
    }
}

/// The instruction for a logical operator.
pub open spec fn bool_instr(op: BoolOp) -> AInstr {
    match op {
        BoolOp::And => AInstr::And,
        BoolOp::Or => AInstr::Or,
    }
}

/// The instruction for a comparison operator.
pub open spec fn cmp_instr(op: CmpOp) -> AInstr {
    match op {
        CmpOp::Eq => AInstr::Equal,
        CmpOp::Ne => AInstr::NotEqual,
        CmpOp::Lt => AInstr::Less,
        CmpOp::Le => AInstr::LessEqual,
        CmpOp::Gt => AInstr::Greater,
        CmpOp::Ge => AInstr::GreaterEqual,
    }
}

/// The code emitted for one expression, given the local-slot table and the
/// function table. Emission is post-order: operands first, left to right,
/// then the operator, so the operands end up as the top stack cells.
/// Expressions emit no jumps, so their code is position-independent.
pub open spec fn emit_expr(
    e: Expr,
    locals: Seq<(Seq<char>, usize)>,
    funcs: Seq<(Seq<char>, usize)>,
) -> Result<Seq<AInstr>, CompileError>
    decreases e,
{
    match e {
        Expr::Literal(lit) => match lit {
            Lit::Int(i) => Ok(seq![AInstr::Const(AVal::Int(i))]),
            Lit::Char(c) => Ok(seq![AInstr::Const(AVal::Char(c))]),
            Lit::Bool(b) => Ok(
                seq![
                    if b {
                        AInstr::True
                    } else {
                        AInstr::False
                    },
                ],
            ),
            Lit::Float(bits) => Ok(seq![AInstr::Const(AVal::Float(bits))]),
            Lit::Str(s) => Ok(seq![AInstr::Const(AVal::Str(s@))]),
            Lit::List(es) => match emit_exprs(es@, locals, funcs) {
                Ok(code) => Ok(code.push(AInstr::List(es@.len() as usize))),
                Err(k) => Err(k),
            },
        },
        Expr::Variable(name) => match lookup(locals, name@) {
            Some(slot) => Ok(seq![AInstr::GetLocal(slot)]),
            None => Err(CompileError::UnknownVariable),
        },
        Expr::Neg(e1) => match emit_expr(*e1, locals, funcs) {
            Ok(code) => Ok(code.push(AInstr::Neg)),
            Err(k) => Err(k),
        },
        Expr::Not(e1) => match emit_expr(*e1, locals, funcs) {
            Ok(code) => Ok(code.push(AInstr::Not)),
            Err(k) => Err(k),
        },
        Expr::Arith(op, e1, e2) => match (emit_expr(*e1, locals, funcs), emit_expr(*e2, locals, funcs)) {
            (Ok(c1), Ok(c2)) => Ok(c1 + c2 + seq![arith_instr(op)]),
            (Err(k), _) => Err(k),
            (_, Err(k)) => Err(k),
        },
        Expr::BoolOp(op, e1, e2) => match (emit_expr(*e1, locals, funcs), emit_expr(*e2, locals, funcs)) {
            (Ok(c1), Ok(c2)) => Ok(c1 + c2 + seq![bool_instr(op)]),
            (Err(k), _) => Err(k),
            (_, Err(k)) => Err(k),
        },
        Expr::CmpOp(op, e1, e2) => match (emit_expr(*e1, locals, funcs), emit_expr(*e2, locals, funcs)) {
            (Ok(c1), Ok(c2)) => Ok(c1 + c2 + seq![cmp_instr(op)]),
            (Err(k), _) => Err(k),
            (_, Err(k)) => Err(k),
        },
        Expr::Call(name, args) => match emit_exprs(args@, locals, funcs) {
            Ok(code) => if name@ == "print"@ {
                Ok(code.push(AInstr::Print))
            } else if name@ == "append"@ {
                Ok(code.push(AInstr::Append))
            } else {
                match lookup(funcs, name@) {
                    Some(entry) => Ok(code.push(AInstr::Call(entry, args@.len() as usize))),
                    None => Err(CompileError::UnknownFunction),
                }
            },
            Err(k) => Err(k),
        },
        Expr::Subscr(e1, e2) => match (emit_expr(*e1, locals, funcs), emit_expr(*e2, locals, funcs)) {
            (Ok(c1), Ok(c2)) => Ok(c1 + c2 + seq![AInstr::Index]),
            (Err(k), _) => Err(k),
            (_, Err(k)) => Err(k),
        },
        Expr::Assign(lhs, rhs) => match emit_expr(*rhs, locals, funcs) {
            Ok(cr) => match *lhs {
                Expr::Variable(name) => match lookup(locals, name@) {
                    Some(slot) => Ok(cr.push(AInstr::Assign(slot))),
                    None => Err(CompileError::UnknownVariable),
                },
                Expr::Subscr(e1, e2) => match (
                    emit_expr(*e1, locals, funcs),
                    emit_expr(*e2, locals, funcs),
                ) {
                    (Ok(c1), Ok(c2)) => Ok(cr + c1 + c2 + seq![AInstr::Store]),
                    (Err(k), _) => Err(k),
                    (_, Err(k)) => Err(k),
                },
                _ => Err(CompileError::InvalidAssignTarget),
            },
            Err(k) => Err(k),
        },
        Expr::Make(ty, size) => match ty {
            Type::List(elem) => match zero_val(*elem) {
                Some(z) => Ok(
                    seq![AInstr::Const(AVal::List(Seq::new(size as nat, |j: int| z)))],
                ),
                None => Err(CompileError::InvalidMake),
            },
            _ => Err(CompileError::InvalidMake),
        },
    }
}

/// The code emitted for a run of expressions, in order, concatenated; the
/// first failure wins.
pub open spec fn emit_exprs(
    es: Seq<Expr>,
    locals: Seq<(Seq<char>, usize)>,
    funcs: Seq<(Seq<char>, usize)>,
) -> Result<Seq<AInstr>, CompileError>
    decreases es,
{
    if es.len() == 0 {
        Ok(Seq::empty())
    } else {
        match emit_exprs(es.drop_last(), locals, funcs) {
            Ok(code) => match emit_expr(es.last(), locals, funcs) {
                Ok(cl) => Ok(code + cl),
                Err(k) => Err(k),
            },
            Err(k) => Err(k),
        }
    }
}

/// Every successfully compiled expression emits at least one instruction.
pub proof fn lemma_emit_expr_nonempty(
    e: Expr,
    locals: Seq<(Seq<char>, usize)>,
    funcs: Seq<(Seq<char>, usize)>,
)
    ensures
        emit_expr(e, locals, funcs) matches Ok(c) ==> c.len() >= 1,
{
}

/// What compiling a statement produces: its code, the local table it
/// leaves behind (declarations persist for the rest of the function), and
/// the absolute offsets of `break` jumps awaiting a patch to the exit of
/// the innermost enclosing loop.
pub struct StmtOut {
    pub code: Seq<AInstr>,
    pub locals: Seq<(Seq<char>, usize)>,
    pub breaks: Seq<usize>,
}

/// Rewrites each recorded patch site (an absolute offset into `code`,
/// whose first instruction sits at absolute offset `base`) to an
/// unconditional jump to `target`.
pub open spec fn patch_jumps(
    code: Seq<AInstr>,
    base: int,
    sites: Seq<usize>,
    target: usize,
) -> Seq<AInstr>
    decreases sites.len(),
{
    if sites.len() == 0 {
        code
    } else {
        patch_jumps(
            code.update(sites[0] - base, AInstr::Jump(target)),
            base,
            sites.subrange(1, sites.len() as int),
            target,
        )
    }
}

/// The code emitted for one statement beginning at absolute offset `base`.
/// `in_loop` carries the innermost loop's start offset, so that `continue`
/// can jump just past it and `break` can record a patch site.
pub open spec fn emit_stmt(
    s: Stmt,
    locals: Seq<(Seq<char>, usize)>,
    funcs: Seq<(Seq<char>, usize)>,
    base: int,
    in_loop: Option<usize>,
) -> Result<StmtOut, CompileError>
    decreases s,
{
    match s {
        Stmt::Expr(e) => match emit_expr(e, locals, funcs) {
            Ok(code) => Ok(StmtOut { code, locals, breaks: Seq::empty() }),
            Err(k) => Err(k),
        },
        Stmt::Return(e) => match emit_expr(e, locals, funcs) {
            Ok(code) => Ok(
                StmtOut { code: code.push(AInstr::Return), locals, breaks: Seq::empty() },
            ),
            Err(k) => Err(k),
        },
        Stmt::IfElse(cond, then, els) => match emit_expr(cond, locals, funcs) {
            Ok(c0) => match emit_stmts(then@, locals, funcs, base + c0.len() + 1, in_loop) {
                Ok(t) => {
                    let else_base = base + c0.len() + 1 + t.code.len() + 1;
                    let ores = match els {
                        Some(ss) => emit_stmts(ss@, t.locals, funcs, else_base, in_loop),
                        None => Ok(
                            StmtOut {
                                code: Seq::empty(),
                                locals: t.locals,
                                breaks: Seq::empty(),
                            },
                        ),
                    };
                    match ores {
                        Ok(o) => Ok(
                            StmtOut {
                                code: c0 + seq![AInstr::JumpIfFalse(else_base as usize)] + t.code
                                    + seq![AInstr::Jump((else_base + o.code.len()) as usize)]
                                    + o.code,
                                locals: o.locals,
                                breaks: t.breaks + o.breaks,
                            },
                        ),
                        Err(k) => Err(k),
                    }
                },
                Err(k) => Err(k),
            },
            Err(k) => Err(k),
        },
        Stmt::While(cond, body) => match emit_expr(cond, locals, funcs) {
            Ok(c0) => {
                let body_base = base + c0.len() + 1;
                match emit_stmts(body@, locals, funcs, body_base, Some(base as usize)) {
                    Ok(b) => {
                        let exit = body_base + b.code.len() + 1;
                        Ok(
                            StmtOut {
                                code: c0 + seq![AInstr::JumpIfFalse(exit as usize)] + patch_jumps(
                                    b.code,
                                    body_base,
                                    b.breaks,
                                    exit as usize,
                                ) + seq![AInstr::Jump(base as usize)],
                                locals: b.locals,
                                breaks: Seq::empty(),
                            },
                        )
                    },
                    Err(k) => Err(k),
                }
            },
            Err(k) => Err(k),
        },
        Stmt::Decl(name, e) => {
            let slot = locals.len() as usize;
            let locals2 = locals.push((name@, slot));
            match emit_expr(e, locals2, funcs) {
                Ok(code) => Ok(
                    StmtOut {
                        code: code.push(AInstr::DefLocal(slot)),
                        locals: locals2,
                        breaks: Seq::empty(),
                    },
                ),
                Err(k) => Err(k),
            }
        },
        Stmt::Break => match in_loop {
            Some(start) => Ok(
                StmtOut {
                    code: seq![AInstr::Jump(start)],
                    locals,
                    breaks: seq![base as usize],
                },
            ),
            None => Err(CompileError::BreakOutsideLoop),
        },
        Stmt::Continue => match in_loop {
            Some(start) => Ok(
                StmtOut {
                    code: seq![AInstr::Jump((start + 1) as usize)],
                    locals,
                    breaks: Seq::empty(),
                },
            ),
            None => Err(CompileError::ContinueOutsideLoop),
        },
    }
}

/// The code emitted for a run of statements, in order; each statement
/// starts where the previous one ended and sees the locals it left.
pub open spec fn emit_stmts(
    ss: Seq<Stmt>,
    locals: Seq<(Seq<char>, usize)>,
    funcs: Seq<(Seq<char>, usize)>,
    base: int,
    in_loop: Option<usize>,
) -> Result<StmtOut, CompileError>
    decreases ss,
{
    if ss.len() == 0 {
        Ok(StmtOut { code: Seq::empty(), locals, breaks: Seq::empty() })
    } else {
        match emit_stmts(ss.drop_last(), locals, funcs, base, in_loop) {
            Ok(mid) => match emit_stmt(
                ss.last(),
                mid.locals,
                funcs,
                base + mid.code.len(),
                in_loop,
            ) {
                Ok(last) => Ok(
                    StmtOut {
                        code: mid.code + last.code,
                        locals: last.locals,
                        breaks: mid.breaks + last.breaks,
                    },
                ),
                Err(k) => Err(k),
            },
            Err(k) => Err(k),
        }
    }
}


/// The initial local table of a function: its parameters occupy the first
/// slots in declaration order.
pub open spec fn param_locals(ps: Seq<Param>) -> Seq<(Seq<char>, usize)> {
    Seq::new(ps.len(), |i: int| (ps[i].name@, i as usize))
}

/// Compiles the declared functions in order onto `code`, each registered
/// in the function table before its own body is compiled (so recursion
/// resolves), each body followed by an implicit `Return`.
pub open spec fn emit_funcs(
    fs: Seq<Func>,
    code: Seq<AInstr>,
    funcs: Seq<(Seq<char>, usize)>,
) -> Result<(Seq<AInstr>, Seq<(Seq<char>, usize)>), CompileError>
    decreases fs.len(),
{
    if fs.len() == 0 {
        Ok((code, funcs))
    } else {
        let f = fs[0];
        let funcs2 = funcs.push((f.name@, code.len() as usize));
        match emit_stmts(f.body@, param_locals(f.args@), funcs2, code.len() as int, None) {
            Ok(b) => emit_funcs(
                fs.subrange(1, fs.len() as int),
                code + b.code + seq![AInstr::Return],
                funcs2,
            ),
            Err(k) => Err(k),
        }
    }
}

/// The whole program: every declared function first, then the entry body,
/// whose first instruction's offset is the recorded start.
pub open spec fn emit_program(p: Program) -> Result<(Seq<AInstr>, usize), CompileError> {
    match emit_funcs(p.funcs@, Seq::empty(), Seq::empty()) {
        Ok((code0, funcs0)) => {
            let start = code0.len() as usize;
            let funcs1 = funcs0.push(("main"@, start));
            match emit_stmts(p.main@, Seq::empty(), funcs1, start as int, None) {
                Ok(m) => Ok((code0 + m.code + seq![AInstr::Return], start)),
                Err(k) => Err(k),
            }
        },
        Err(k) => Err(k),
    }
}


/// The bytecode compiler's state: the instructions emitted so far, the
/// current function's local-slot table, the function table, and the
/// recorded program entry offset.
pub struct Codegen {
    instructions: Vec<Instruction>,
    locals: Vec<(String, usize)>,
    functions: Vec<(String, usize)>,
    start_ip: usize,
}

impl Codegen {
    /// The emitted instruction sequence, as its mathematical model.
    pub closed spec fn code(self) -> Seq<AInstr> {
        self.instructions.deep_view()
    }

    /// The recorded program entry offset.
    pub closed spec fn entry(self) -> usize {
        self.start_ip
    }

    /// A compiler that has not compiled anything yet.
    pub closed spec fn is_fresh(self) -> bool {
        &&& self.instructions@.len() == 0
        &&& self.locals@.len() == 0
        &&& self.functions@.len() == 0
        &&& self.start_ip == 0
    }

    spec fn locs(self) -> Seq<(Seq<char>, usize)> {
        self.locals.deep_view()
    }

    spec fn fns(self) -> Seq<(Seq<char>, usize)> {
        self.functions.deep_view()
    }

    pub fn new() -> (r: Codegen)
        ensures
            r.is_fresh(),
    {
        Codegen {
            instructions: Vec::new(),
            locals: Vec::new(),
            functions: Vec::new(),
            start_ip: 0,
        }
    }

    /// Appends one instruction and returns its offset.
    fn add_instruction(&mut self, instruction: Instruction) -> (r: usize)
        ensures
            final(self).instructions@ == old(self).instructions@.push(instruction),
            r == old(self).instructions@.len(),
            final(self).locals == old(self).locals,
            final(self).functions == old(self).functions,
            final(self).start_ip == old(self).start_ip,
    {
        let r = self.instructions.len();
        self.instructions.push(instruction);
        r
    }

    /// Binds a name to the next free slot of the current function's frame.
    fn add_local(&mut self, name: String) -> (r: usize)
        ensures
            final(self).locals@ == old(self).locals@.push((name, r)),
            r == old(self).locals@.len(),
            final(self).instructions == old(self).instructions,
            final(self).functions == old(self).functions,
            final(self).start_ip == old(self).start_ip,
    {
        let r = self.locals.len();
        self.locals.push((name, r));
        r
    }

    /// Resolves a name through the current local-slot table; the latest
    /// binding wins.
    #[verifier::loop_isolation(false)]
    fn get_local(&self, name: &String) -> (r: Option<usize>)
        ensures
            r == lookup(self.locs(), name@),
    {
        proof {
            assert(self.locs().subrange(0, self.locs().len() as int) =~= self.locs());
        }
        let mut i: usize = self.locals.len();
        while i > 0
            invariant
                i <= self.locals@.len(),
                lookup(self.locs(), name@) == lookup(
                    self.locs().subrange(0, i as int),
                    name@,
                ),
            decreases i,
        {
            let pair = &self.locals[i - 1];
            if pair.0 == *name {
                proof {
                    assert(self.locs().subrange(0, i as int).last() == (pair.0@, pair.1));
                }
                return Some(pair.1);
            }
            proof {
                assert(self.locs().subrange(0, i as int).drop_last() =~= self.locs().subrange(
                    0,
                    i - 1,
                ));
            }
            i = i - 1;
        }
        None
    }

    /// Resolves a call target through the function table.
    #[verifier::loop_isolation(false)]
    fn get_function(&self, name: &String) -> (r: Option<usize>)
        ensures
            r == lookup(self.fns(), name@),
    {
        proof {
            assert(self.fns().subrange(0, self.fns().len() as int) =~= self.fns());
        }
        let mut i: usize = self.functions.len();
        while i > 0
            invariant
                i <= self.functions@.len(),
                lookup(self.fns(), name@) == lookup(
                    self.fns().subrange(0, i as int),
                    name@,
                ),
            decreases i,
        {
            let pair = &self.functions[i - 1];
            if pair.0 == *name {
                proof {
                    assert(self.fns().subrange(0, i as int).last() == (pair.0@, pair.1));
                }
                return Some(pair.1);
            }
            proof {
                assert(self.fns().subrange(0, i as int).drop_last() =~= self.fns().subrange(
                    0,
                    i - 1,
                ));
            }
            i = i - 1;
        }
        None
    }

    /// Compiles the expressions of a run left to right, as `emit_exprs`.
    #[verifier::loop_isolation(false)]
    fn compile_exprs(&mut self, es: &Vec<Expr>) -> (r: Result<(), CompileError>)
        ensures
            final(self).locals == old(self).locals,
            final(self).functions == old(self).functions,
            final(self).start_ip == old(self).start_ip,
            match r {
                Ok(()) => emit_exprs(es@, old(self).locs(), old(self).fns()) matches Ok(c)
                    && final(self).code() == old(self).code() + c,
                Err(k) => emit_exprs(es@, old(self).locs(), old(self).fns()) == Err::<
                    Seq<AInstr>,
                    CompileError,
                >(k),
            },
        decreases *es, 1nat,
    {
        let mut i: usize = 0;
        while i < es.len()
            invariant
                i <= es@.len(),
                self.locals == old(self).locals,
                self.functions == old(self).functions,
                self.start_ip == old(self).start_ip,
                emit_exprs(es@.subrange(0, i as int), old(self).locs(), old(self).fns())
                    matches Ok(c) && self.code() == old(self).code() + c,
            decreases es@.len() - i,
        {
            proof {
                assert(decreases_to!(es@ => es@[i as int]));
            }
            let ghost pre = self.code();
            let res = self.compile_expr(&es[i]);
            proof {
                assert(es@.subrange(0, i + 1).drop_last() =~= es@.subrange(0, i as int));
                assert(es@.subrange(0, i + 1).last() == es@[i as int]);
            }
            match res {
                Ok(()) => {},
                Err(k) => {
                    proof {
                        lemma_emit_exprs_err(es@, old(self).locs(), old(self).fns(), i as int, k);
                    }
                    return Err(k);
                },
            }
            i = i + 1;
        }
        proof {
            assert(es@.subrange(0, es@.len() as int) =~= es@);
        }
        Ok(())
    }

    /// Compiles one expression, as `emit_expr` specifies.
    #[verifier::loop_isolation(false)]
    fn compile_expr(&mut self, e: &Expr) -> (r: Result<(), CompileError>)
        ensures
            final(self).locals == old(self).locals,
            final(self).functions == old(self).functions,
            final(self).start_ip == old(self).start_ip,
            match r {
                Ok(()) => emit_expr(*e, old(self).locs(), old(self).fns()) matches Ok(c)
                    && final(self).code() == old(self).code() + c,
                Err(k) => emit_expr(*e, old(self).locs(), old(self).fns()) == Err::<
                    Seq<AInstr>,
                    CompileError,
                >(k),
            },
        decreases *e, 1nat,
    {
        match e {
            Expr::Literal(_) => self.compile_literal(e),
            Expr::Variable(name) => match self.get_local(name) {
                Some(slot) => {
                    self.add_instruction(Instruction::GetLocal(slot));
                    Ok(())
                },
                None => Err(CompileError::UnknownVariable),
            },
            Expr::Neg(_) | Expr::Not(_) | Expr::Arith(..) | Expr::BoolOp(..) | Expr::CmpOp(..)
                | Expr::Subscr(..) => self.compile_operator(e),
            Expr::Call(..) => self.compile_call(e),
            Expr::Assign(..) => self.compile_assign(e),
            Expr::Make(..) => self.compile_make(e),
        }
    }

    /// Compiles a literal expression.
    #[verifier::loop_isolation(false)]
    #[verifier::rlimit(100)]
    fn compile_literal(&mut self, e: &Expr) -> (r: Result<(), CompileError>)
        requires
            e is Literal,
        ensures
            final(self).locals == old(self).locals,
            final(self).functions == old(self).functions,
            final(self).start_ip == old(self).start_ip,
            match r {
                Ok(()) => emit_expr(*e, old(self).locs(), old(self).fns()) matches Ok(c)
                    && final(self).code() == old(self).code() + c,
                Err(k) => emit_expr(*e, old(self).locs(), old(self).fns()) == Err::<
                    Seq<AInstr>,
                    CompileError,
                >(k),
            },
        decreases *e, 0nat,
    {
        match e {
            Expr::Literal(lit) => match lit {
                Lit::Int(i) => {
                    self.add_instruction(Instruction::Const(Value::Int(*i)));
                    Ok(())
                },
                Lit::Char(c) => {
                    self.add_instruction(Instruction::Const(Value::Char(*c)));
                    Ok(())
                },
                Lit::Bool(b) => {
                    if *b {
                        self.add_instruction(Instruction::True);
                    } else {
                        self.add_instruction(Instruction::False);
                    }
                    Ok(())
                },
                Lit::Float(bits) => {
                    self.add_instruction(Instruction::Const(Value::Float(*bits)));
                    Ok(())
                },
                Lit::Str(s) => {
                    self.add_instruction(Instruction::Const(Value::Str(dup_bytes(s))));
                    Ok(())
                },
                Lit::List(es) => {
                    proof {
                        assert(decreases_to!(*e => *es));
                    }
                    match self.compile_exprs(es) {
                        Ok(()) => {
                            self.add_instruction(Instruction::List(es.len()));
                            Ok(())
                        },
                        Err(k) => Err(k),
                    }
                },
            },
            _ => {
                proof {
                    assert(false);
                }
                Err(CompileError::InvalidMake)
            },
        }
    }

    /// Compiles a unary, arithmetic, logical, comparison or indexing
    /// expression: operands first, then the operator instruction.
    #[verifier::loop_isolation(false)]
    #[verifier::rlimit(100)]
    fn compile_operator(&mut self, e: &Expr) -> (r: Result<(), CompileError>)
        requires
            e is Neg || e is Not || e is Arith || e is BoolOp || e is CmpOp || e is Subscr,
        ensures
            final(self).locals == old(self).locals,
            final(self).functions == old(self).functions,
            final(self).start_ip == old(self).start_ip,
            match r {
                Ok(()) => emit_expr(*e, old(self).locs(), old(self).fns()) matches Ok(c)
                    && final(self).code() == old(self).code() + c,
                Err(k) => emit_expr(*e, old(self).locs(), old(self).fns()) == Err::<
                    Seq<AInstr>,
                    CompileError,
                >(k),
            },
        decreases *e, 0nat,
    {
        match e {
            Expr::Neg(e1) => match self.compile_expr(e1) {
                Ok(()) => {
                    self.add_instruction(Instruction::Neg);
                    Ok(())
                },
                Err(k) => Err(k),
            },
            Expr::Not(e1) => match self.compile_expr(e1) {
                Ok(()) => {
                    self.add_instruction(Instruction::Not);
                    Ok(())
                },
                Err(k) => Err(k),
            },
            Expr::Arith(op, e1, e2) => match self.compile_expr(e1) {
                Ok(()) => match self.compile_expr(e2) {
                    Ok(()) => {
                        self.add_instruction(
                            match op {
                                ArithOp::Add => Instruction::Add,
                                ArithOp::Sub => Instruction::Sub,
                                ArithOp::Mul => Instruction::Mul,
                                ArithOp::Div => Instruction::Div,
                                ArithOp::Mod => Instruction::Mod,
                            },
                        );
                        Ok(())
                    },
                    Err(k) => Err(k),
                },
                Err(k) => Err(k),
            },
            Expr::BoolOp(op, e1, e2) => match self.compile_expr(e1) {
                Ok(()) => match self.compile_expr(e2) {
                    Ok(()) => {
                        self.add_instruction(
                            match op {
                                BoolOp::And => Instruction::And,
                                BoolOp::Or => Instruction::Or,
                            },
                        );
                        Ok(())
                    },
                    Err(k) => Err(k),
                },
                Err(k) => Err(k),
            },
            Expr::CmpOp(op, e1, e2) => match self.compile_expr(e1) {
                Ok(()) => match self.compile_expr(e2) {
                    Ok(()) => {
                        self.add_instruction(
                            match op {
                                CmpOp::Eq => Instruction::Equal,
                                CmpOp::Ne => Instruction::NotEqual,
                                CmpOp::Lt => Instruction::Less,
                                CmpOp::Le => Instruction::LessEqual,
                                CmpOp::Gt => Instruction::Greater,
                                CmpOp::Ge => Instruction::GreaterEqual,
                            },
                        );
                        Ok(())
                    },
                    Err(k) => Err(k),
                },
                Err(k) => Err(k),
            },
            Expr::Subscr(e1, e2) => match self.compile_expr(e1) {
                Ok(()) => match self.compile_expr(e2) {
                    Ok(()) => {
                        self.add_instruction(Instruction::Index);
                        Ok(())
                    },
                    Err(k) => Err(k),
                },
                Err(k) => Err(k),
            },
            _ => {
                proof {
                    assert(false);
                }
                Err(CompileError::InvalidMake)
            },
        }
    }

    /// Compiles a call: the reserved names `print` and `append` become
    /// dedicated instructions; any other callee must already stand in the
    /// function table.
    #[verifier::loop_isolation(false)]
    #[verifier::rlimit(100)]
    fn compile_call(&mut self, e: &Expr) -> (r: Result<(), CompileError>)
        requires
            e is Call,
        ensures
            final(self).locals == old(self).locals,
            final(self).functions == old(self).functions,
            final(self).start_ip == old(self).start_ip,
            match r {
                Ok(()) => emit_expr(*e, old(self).locs(), old(self).fns()) matches Ok(c)
                    && final(self).code() == old(self).code() + c,
                Err(k) => emit_expr(*e, old(self).locs(), old(self).fns()) == Err::<
                    Seq<AInstr>,
                    CompileError,
                >(k),
            },
        decreases *e, 0nat,
    {
        match e {
            Expr::Call(name, args) => {
                proof {
                    assert(decreases_to!(*e => *args));
                }
                match self.compile_exprs(args) {
                    Ok(()) => {
                        let print_name = "print".to_owned();
                        let append_name = "append".to_owned();
                        if *name == print_name {
                            self.add_instruction(Instruction::Print);
                            Ok(())
                        } else if *name == append_name {
                            self.add_instruction(Instruction::Append);
                            Ok(())
                        } else {
                            match self.get_function(name) {
                                Some(entry) => {
                                    self.add_instruction(Instruction::Call(entry, args.len()));
                                    Ok(())
                                },
                                None => Err(CompileError::UnknownFunction),
                            }
                        }
                    },
                    Err(k) => Err(k),
                }
            },
            _ => {
                proof {
                    assert(false);
                }
                Err(CompileError::InvalidMake)
            },
        }
    }

    /// Compiles an assignment: the value first, then the target, which
    /// must be a bare variable or an indexed expression.
    #[verifier::loop_isolation(false)]
    #[verifier::rlimit(100)]
    fn compile_assign(&mut self, e: &Expr) -> (r: Result<(), CompileError>)
        requires
            e is Assign,
        ensures
            final(self).locals == old(self).locals,
            final(self).functions == old(self).functions,
            final(self).start_ip == old(self).start_ip,
            match r {
                Ok(()) => emit_expr(*e, old(self).locs(), old(self).fns()) matches Ok(c)
                    && final(self).code() == old(self).code() + c,
                Err(k) => emit_expr(*e, old(self).locs(), old(self).fns()) == Err::<
                    Seq<AInstr>,
                    CompileError,
                >(k),
            },
        decreases *e, 0nat,
    {
        match e {
            Expr::Assign(lhs, rhs) => match self.compile_expr(rhs) {
                Ok(()) => match &**lhs {
                    Expr::Variable(name) => match self.get_local(name) {
                        Some(slot) => {
                            self.add_instruction(Instruction::Assign(slot));
                            Ok(())
                        },
                        None => Err(CompileError::UnknownVariable),
                    },
                    Expr::Subscr(e1, e2) => match self.compile_expr(e1) {
                        Ok(()) => match self.compile_expr(e2) {
                            Ok(()) => {
                                self.add_instruction(Instruction::Store);
                                Ok(())
                            },
                            Err(k) => Err(k),
                        },
                        Err(k) => Err(k),
                    },
                    _ => Err(CompileError::InvalidAssignTarget),
                },
                Err(k) => Err(k),
            },
            _ => {
                proof {
                    assert(false);
                }
                Err(CompileError::InvalidMake)
            },
        }
    }

    /// Compiles `make(list<elem>, size)` wholly at compile time into one
    /// constant: a pre-sized list of the element type's zero value.
    #[verifier::loop_isolation(false)]
    #[verifier::rlimit(100)]
    fn compile_make(&mut self, e: &Expr) -> (r: Result<(), CompileError>)
        requires
            e is Make,
        ensures
            final(self).locals == old(self).locals,
            final(self).functions == old(self).functions,
            final(self).start_ip == old(self).start_ip,
            match r {
                Ok(()) => emit_expr(*e, old(self).locs(), old(self).fns()) matches Ok(c)
                    && final(self).code() == old(self).code() + c,
                Err(k) => emit_expr(*e, old(self).locs(), old(self).fns()) == Err::<
                    Seq<AInstr>,
                    CompileError,
                >(k),
            },
        decreases *e, 0nat,
    {
        match e {
            Expr::Make(ty, size) => match ty {
                Type::List(elem) => match zero_value(elem) {
                    Some(z) => {
                        let ghost zv = z@;
                        let mut items: Vec<Value> = Vec::new();
                        let mut j: usize = 0;
                        let mut zopt = Some(z);
                        while j < *size
                            invariant
                                j <= *size,
                                items@.len() == j,
                                zopt matches Some(zz) && zz@ == zv,
                                forall|k: int| 0 <= k < j ==> items@[k]@ == zv,
                            decreases *size - j,
                        {
                            let zc = match &zopt {
                                Some(zz) => dup_value(zz),
                                None => Value::Nil,
                            };
                            items.push(zc);
                            j = j + 1;
                        }
                        self.add_instruction(Instruction::Const(Value::List(items)));
                        proof {
                            assert(zero_val(**elem) == Some(zv));
                            let cc = emit_expr(*e, old(self).locs(), old(self).fns())->Ok_0;
                            assert(dv(items@) =~~= cc[0]->Const_0->List_0);
                            assert(self.code() =~~= old(self).code() + cc);
                        }
                        Ok(())
                    },
                    None => Err(CompileError::InvalidMake),
                },
                _ => Err(CompileError::InvalidMake),
            },
            _ => {
                proof {
                    assert(false);
                }
                Err(CompileError::InvalidMake)
            },
        }
    }
}

/// The zero value of a scalar element type, as `zero_val` specifies.
fn zero_value(t: &Type) -> (r: Option<Value>)
    ensures
        match r {
            Some(v) => zero_val(*t) == Some(v@),
            None => zero_val(*t) is None,
        },
{
    match t {
        Type::Int => Some(Value::Int(0)),
        Type::Char => Some(Value::Char(0)),
        Type::Bool => Some(Value::Bool(false)),
        Type::Float => Some(Value::Float(0)),
        Type::Str => Some(Value::Str(Vec::new())),
        _ => None,
    }
}

/// If a prefix compiles and the next expression fails, the whole run
/// fails with that first error.
proof fn lemma_emit_exprs_err(
    es: Seq<Expr>,
    locals: Seq<(Seq<char>, usize)>,
    funcs: Seq<(Seq<char>, usize)>,
    i: int,
    k: CompileError,
)
    requires
        0 <= i < es.len(),
        emit_exprs(es.subrange(0, i), locals, funcs) is Ok,
        emit_expr(es[i], locals, funcs) == Err::<Seq<AInstr>, CompileError>(k),
    ensures
        emit_exprs(es, locals, funcs) == Err::<Seq<AInstr>, CompileError>(k),
    decreases es.len(),
{
    if es.len() == i + 1 {
        assert(es.subrange(0, i) =~= es.drop_last());
        assert(es.last() == es[i]);
    } else {
        assert(es.drop_last().subrange(0, i) =~= es.subrange(0, i));
        assert(es.drop_last()[i] == es[i]);
        lemma_emit_exprs_err(es.drop_last(), locals, funcs, i, k);
    }
}


impl Codegen {
    /// Compiles one statement, as `emit_stmt` specifies; `breaks` collects
    /// the offsets of `break` jumps for the innermost enclosing loop to
    /// patch.
    #[verifier::loop_isolation(false)]
    #[verifier::rlimit(100)]
    fn compile_stmt(&mut self, s: &Stmt, in_loop: Option<usize>, breaks: &mut Vec<usize>) -> (r:
        Result<(), CompileError>)
        requires
            in_loop matches Some(st) ==> st < old(self).code().len(),
        ensures
            final(self).functions == old(self).functions,
            final(self).start_ip == old(self).start_ip,
            match r {
                Ok(()) => emit_stmt(
                    *s,
                    old(self).locs(),
                    old(self).fns(),
                    old(self).code().len() as int,
                    in_loop,
                ) matches Ok(out) && final(self).code() == old(self).code() + out.code
                    && final(self).locs() == out.locals
                    && final(breaks)@ == old(breaks)@ + out.breaks
                    && (forall|q: int|
                        old(breaks)@.len() <= q < final(breaks)@.len()
                            ==> old(self).code().len() <= #[trigger] final(breaks)@[q]
                            < final(self).code().len()),
                Err(k) => emit_stmt(
                    *s,
                    old(self).locs(),
                    old(self).fns(),
                    old(self).code().len() as int,
                    in_loop,
                ) == Err::<StmtOut, CompileError>(k),
            },
        decreases *s, 1nat,
    {
        match s {
            Stmt::Expr(e) => match self.compile_expr(e) {
                Ok(()) => {
                    proof {
                        assert(breaks@ =~= breaks@ + Seq::<usize>::empty());
                    }
                    Ok(())
                },
                Err(k) => Err(k),
            },
            Stmt::Return(e) => match self.compile_expr(e) {
                Ok(()) => {
                    self.add_instruction(Instruction::Return);
                    proof {
                        assert(breaks@ =~= breaks@ + Seq::<usize>::empty());
                    }
                    Ok(())
                },
                Err(k) => Err(k),
            },
            Stmt::IfElse(..) => self.compile_if(s, in_loop, breaks),
            Stmt::While(..) => self.compile_while(s, in_loop, breaks),
            Stmt::Decl(name, e) => {
                let slot = self.add_local(name.clone());
                match self.compile_expr(e) {
                    Ok(()) => {
                        self.add_instruction(Instruction::DefLocal(slot));
                        proof {
                            assert(breaks@ =~= breaks@ + Seq::<usize>::empty());
                        }
                        Ok(())
                    },
                    Err(k) => Err(k),
                }
            },
            Stmt::Break => match in_loop {
                Some(st) => {
                    let site = self.add_instruction(Instruction::Jump(st));
                    breaks.push(site);
                    proof {
                        assert(breaks@ =~= old(breaks)@ + seq![site]);
                    }
                    Ok(())
                },
                None => Err(CompileError::BreakOutsideLoop),
            },
            Stmt::Continue => match in_loop {
                Some(st) => {
                    let here = self.instructions.len();
                    proof {
                        assert(here == old(self).code().len());
                        assert(st < here);
                    }
                    self.add_instruction(Instruction::Jump(st + 1));
                    proof {
                        assert(breaks@ =~= breaks@ + Seq::<usize>::empty());
                    }
                    Ok(())
                },
                None => Err(CompileError::ContinueOutsideLoop),
            },
        }
    }

    /// Compiles a conditional: condition, a placeholder exit jump patched
    /// to the else-branch, the then-branch, a placeholder skip jump
    /// patched past the else-branch, then the else-branch.
    #[verifier::loop_isolation(false)]
    #[verifier::rlimit(100)]
    fn compile_if(&mut self, s: &Stmt, in_loop: Option<usize>, breaks: &mut Vec<usize>) -> (r:
        Result<(), CompileError>)
        requires
            s is IfElse,
            in_loop matches Some(st) ==> st < old(self).code().len(),
        ensures
            final(self).functions == old(self).functions,
            final(self).start_ip == old(self).start_ip,
            match r {
                Ok(()) => emit_stmt(
                    *s,
                    old(self).locs(),
                    old(self).fns(),
                    old(self).code().len() as int,
                    in_loop,
                ) matches Ok(out) && final(self).code() == old(self).code() + out.code
                    && final(self).locs() == out.locals
                    && final(breaks)@ == old(breaks)@ + out.breaks
                    && (forall|q: int|
                        old(breaks)@.len() <= q < final(breaks)@.len()
                            ==> old(self).code().len() <= #[trigger] final(breaks)@[q]
                            < final(self).code().len()),
                Err(k) => emit_stmt(
                    *s,
                    old(self).locs(),
                    old(self).fns(),
                    old(self).code().len() as int,
                    in_loop,
                ) == Err::<StmtOut, CompileError>(k),
            },
        decreases *s, 0nat,
    {
        match s {
            Stmt::IfElse(cond, then, els) => {
                match self.compile_expr(cond) {
                    Ok(()) => {},
                    Err(k) => {
                        return Err(k);
                    },
                }
                let jmp_site = self.add_instruction(Instruction::JumpIfFalse(0));
                proof {
                    assert(decreases_to!(*s => *then));
                }
                match self.compile_stmts(then, in_loop, breaks) {
                    Ok(()) => {},
                    Err(k) => {
                        return Err(k);
                    },
                }
                let jmp2_site = self.add_instruction(Instruction::Jump(0));
                let else_target = self.instructions.len();
                proof {
                    assert(self.instructions@.len() == self.code().len());
                    assert(jmp_site < self.instructions@.len());
                }
                self.instructions[jmp_site] = Instruction::JumpIfFalse(else_target);
                match els {
                    Some(ss) => {
                        proof {
                            assert(decreases_to!(*s => *ss));
                        }
                        match self.compile_stmts(ss, in_loop, breaks) {
                            Ok(()) => {},
                            Err(k) => {
                                return Err(k);
                            },
                        }
                    },
                    None => {},
                }
                let end_target = self.instructions.len();
                proof {
                    assert(self.instructions@.len() == self.code().len());
                    assert(jmp2_site < self.instructions@.len());
                }
                self.instructions[jmp2_site] = Instruction::Jump(end_target);
                proof {
                    let out = emit_stmt(
                        *s,
                        old(self).locs(),
                        old(self).fns(),
                        old(self).code().len() as int,
                        in_loop,
                    )->Ok_0;
                    assert(self.code() =~~= old(self).code() + out.code);
                    assert(breaks@ =~~= old(breaks)@ + out.breaks);
                }
                Ok(())
            },
            _ => {
                proof {
                    assert(false);
                }
                Err(CompileError::InvalidMake)
            },
        }
    }

    /// Compiles a loop: condition, a placeholder exit jump, the body
    /// (recording `break` sites), an unconditional jump back to the loop
    /// start, then patches the exit jump and every recorded `break` to the
    /// first instruction after the loop.
    #[verifier::loop_isolation(false)]
    #[verifier::rlimit(100)]
    fn compile_while(&mut self, s: &Stmt, in_loop: Option<usize>, breaks: &mut Vec<usize>) -> (r:
        Result<(), CompileError>)
        requires
            s is While,
            in_loop matches Some(st) ==> st < old(self).code().len(),
        ensures
            final(self).functions == old(self).functions,
            final(self).start_ip == old(self).start_ip,
            match r {
                Ok(()) => emit_stmt(
                    *s,
                    old(self).locs(),
                    old(self).fns(),
                    old(self).code().len() as int,
                    in_loop,
                ) matches Ok(out) && final(self).code() == old(self).code() + out.code
                    && final(self).locs() == out.locals
                    && final(breaks)@ == old(breaks)@ + out.breaks
                    && (forall|q: int|
                        old(breaks)@.len() <= q < final(breaks)@.len()
                            ==> old(self).code().len() <= #[trigger] final(breaks)@[q]
                            < final(self).code().len()),
                Err(k) => emit_stmt(
                    *s,
                    old(self).locs(),
                    old(self).fns(),
                    old(self).code().len() as int,
                    in_loop,
                ) == Err::<StmtOut, CompileError>(k),
            },
        decreases *s, 0nat,
    {
        match s {
            Stmt::While(cond, body) => {
                let start = self.instructions.len();
                match self.compile_expr(cond) {
                    Ok(()) => {},
                    Err(k) => {
                        return Err(k);
                    },
                }
                proof {
                    lemma_emit_expr_nonempty(*cond, old(self).locs(), old(self).fns());
                }
                let jmp_site = self.add_instruction(Instruction::JumpIfFalse(0));
                let ghost body_base = self.code().len() as int;
                let mut inner: Vec<usize> = Vec::new();
                proof {
                    assert(decreases_to!(*s => *body));
                }
                match self.compile_stmts(body, Some(start), &mut inner) {
                    Ok(()) => {},
                    Err(k) => {
                        return Err(k);
                    },
                }
                self.add_instruction(Instruction::Jump(start));
                let exit = self.instructions.len();
                proof {
                    assert(self.instructions@.len() == self.code().len());
                    assert(jmp_site < self.instructions@.len());
                }
                self.instructions[jmp_site] = Instruction::JumpIfFalse(exit);
                let ghost b = emit_stmts(
                    body@,
                    old(self).locs(),
                    old(self).fns(),
                    body_base,
                    Some(start),
                )->Ok_0;
                let ghost prefix = self.code().subrange(0, body_base);
                let ghost locs1 = self.locals;
                proof {
                    assert(b.breaks.subrange(0, 0) =~= Seq::<usize>::empty());
                    assert(self.code() =~~= prefix + patch_jumps(
                        b.code,
                        body_base,
                        b.breaks.subrange(0, 0),
                        exit,
                    ) + seq![AInstr::Jump(start)]);
                }
                let mut q: usize = 0;
                while q < inner.len()
                    invariant
                        q <= inner@.len(),
                        inner@.len() == b.breaks.len(),
                        self.locals == locs1,
                        self.functions == old(self).functions,
                        self.start_ip == old(self).start_ip,
                        self.instructions@.len() == exit,
                        exit == body_base + b.code.len() + 1,
                        forall|t: int|
                            0 <= t < inner@.len() ==> body_base <= #[trigger] inner@[t] < exit - 1,
                        self.code() == prefix + patch_jumps(
                            b.code,
                            body_base,
                            b.breaks.subrange(0, q as int),
                            exit,
                        ) + seq![AInstr::Jump(start)],
                        inner@ == b.breaks,
                        prefix.len() == body_base,
                    decreases inner@.len() - q,
                {
                    let site = inner[q];
                    let ghost mid = patch_jumps(b.code, body_base, b.breaks.subrange(0, q as int), exit);
                    proof {
                        lemma_patch_jumps_len(b.code, body_base, b.breaks.subrange(0, q as int), exit);
                    }
                    self.instructions[site] = Instruction::Jump(exit);
                    proof {
                        assert(b.breaks.subrange(0, q + 1).drop_last() =~= b.breaks.subrange(
                            0,
                            q as int,
                        ));
                        assert(b.breaks.subrange(0, q + 1).last() == b.breaks[q as int]);
                        lemma_patch_jumps_snoc(
                            b.code,
                            body_base,
                            b.breaks.subrange(0, q + 1),
                            exit,
                        );
                        lemma_concat_update_mid(
                            prefix,
                            mid,
                            seq![AInstr::Jump(start)],
                            site - body_base,
                            AInstr::Jump(exit),
                        );
                        assert(self.code() == (prefix + mid + seq![AInstr::Jump(start)]).update(
                            site as int,
                            AInstr::Jump(exit),
                        ));
                    }
                    q = q + 1;
                }
                proof {
                    assert(b.breaks.subrange(0, b.breaks.len() as int) =~= b.breaks);
                    let out = emit_stmt(
                        *s,
                        old(self).locs(),
                        old(self).fns(),
                        old(self).code().len() as int,
                        in_loop,
                    )->Ok_0;
                    assert(self.code() =~~= old(self).code() + out.code);
                    assert(breaks@ =~= breaks@ + Seq::<usize>::empty());
                }
                Ok(())
            },
            _ => {
                proof {
                    assert(false);
                }
                Err(CompileError::InvalidMake)
            },
        }
    }

    /// Compiles a run of statements in order, as `emit_stmts`.
    #[verifier::loop_isolation(false)]
    #[verifier::rlimit(100)]
    fn compile_stmts(&mut self, ss: &Vec<Stmt>, in_loop: Option<usize>, breaks: &mut Vec<usize>) -> (r:
        Result<(), CompileError>)
        requires
            in_loop matches Some(st) ==> st < old(self).code().len(),
        ensures
            final(self).functions == old(self).functions,
            final(self).start_ip == old(self).start_ip,
            match r {
                Ok(()) => emit_stmts(
                    ss@,
                    old(self).locs(),
                    old(self).fns(),
                    old(self).code().len() as int,
                    in_loop,
                ) matches Ok(out) && final(self).code() == old(self).code() + out.code
                    && final(self).locs() == out.locals
                    && final(breaks)@ == old(breaks)@ + out.breaks
                    && (forall|q: int|
                        old(breaks)@.len() <= q < final(breaks)@.len()
                            ==> old(self).code().len() <= #[trigger] final(breaks)@[q]
                            < final(self).code().len()),
                Err(k) => emit_stmts(
                    ss@,
                    old(self).locs(),
                    old(self).fns(),
                    old(self).code().len() as int,
                    in_loop,
                ) == Err::<StmtOut, CompileError>(k),
            },
        decreases *ss, 1nat,
    {
        let mut i: usize = 0;
        while i < ss.len()
            invariant
                i <= ss@.len(),
                self.functions == old(self).functions,
                self.start_ip == old(self).start_ip,
                emit_stmts(
                    ss@.subrange(0, i as int),
                    old(self).locs(),
                    old(self).fns(),
                    old(self).code().len() as int,
                    in_loop,
                ) matches Ok(mid) && self.code() == old(self).code() + mid.code && self.locs()
                    == mid.locals && breaks@ == old(breaks)@ + mid.breaks,
                forall|q: int|
                    old(breaks)@.len() <= q < breaks@.len() ==> old(self).code().len()
                        <= #[trigger] breaks@[q] < self.code().len(),
            decreases ss@.len() - i,
        {
            proof {
                assert(decreases_to!(ss@ => ss@[i as int]));
            }
            let ghost mid = emit_stmts(
                ss@.subrange(0, i as int),
                old(self).locs(),
                old(self).fns(),
                old(self).code().len() as int,
                in_loop,
            )->Ok_0;
            let res = self.compile_stmt(&ss[i], in_loop, breaks);
            proof {
                assert(ss@.subrange(0, i + 1).drop_last() =~= ss@.subrange(0, i as int));
                assert(ss@.subrange(0, i + 1).last() == ss@[i as int]);
            }
            match res {
                Ok(()) => {},
                Err(k) => {
                    proof {
                        lemma_emit_stmts_err(
                            ss@,
                            old(self).locs(),
                            old(self).fns(),
                            old(self).code().len() as int,
                            in_loop,
                            i as int,
                            k,
                        );
                    }
                    return Err(k);
                },
            }
            i = i + 1;
        }
        proof {
            assert(ss@.subrange(0, ss@.len() as int) =~= ss@);
        }
        Ok(())
    }

    /// Registers a function at the current offset, binds its parameters to
    /// the first local slots in order, and compiles its body.
    #[verifier::loop_isolation(false)]
    #[verifier::rlimit(100)]
    fn compile_fn(&mut self, name: String, params: &Vec<Param>, body: &Vec<Stmt>) -> (r: Result<
        (),
        CompileError,
    >)
        requires
            old(self).locals@.len() == 0,
        ensures
            final(self).fns() == old(self).fns().push((name@, old(self).code().len() as usize)),
            final(self).start_ip == old(self).start_ip,
            match r {
                Ok(()) => emit_stmts(
                    body@,
                    param_locals(params@),
                    old(self).fns().push((name@, old(self).code().len() as usize)),
                    old(self).code().len() as int,
                    None,
                ) matches Ok(out) && final(self).code() == old(self).code() + out.code,
                Err(k) => emit_stmts(
                    body@,
                    param_locals(params@),
                    old(self).fns().push((name@, old(self).code().len() as usize)),
                    old(self).code().len() as int,
                    None,
                ) == Err::<StmtOut, CompileError>(k),
            },
    {
        let here = self.instructions.len();
        self.functions.push((name, here));
        let mut p: usize = 0;
        while p < params.len()
            invariant
                p <= params@.len(),
                self.locals@.len() == p,
                self.locs() =~= param_locals(params@).subrange(0, p as int),
                self.instructions == old(self).instructions,
                self.functions@ == old(self).functions@.push((name, here)),
                self.start_ip == old(self).start_ip,
            decreases params@.len() - p,
        {
            self.add_local(params[p].name.clone());
            proof {
                assert(self.locs() =~= param_locals(params@).subrange(0, p + 1));
            }
            p = p + 1;
        }
        proof {
            assert(param_locals(params@).subrange(0, params@.len() as int) =~= param_locals(
                params@,
            ));
        }
        let mut sink: Vec<usize> = Vec::new();
        match self.compile_stmts(body, None, &mut sink) {
            Ok(()) => Ok(()),
            Err(k) => Err(k),
        }
    }

    /// Compiles a whole program: every declared function in order, each
    /// with a fresh local table and an implicit trailing `Return`, then
    /// the entry body, whose offset is recorded as the program start.
    #[verifier::loop_isolation(false)]
    #[verifier::rlimit(100)]
    pub fn compile_program(&mut self, program: &Program) -> (r: Result<(), CompileError>)
        requires
            old(self).is_fresh(),
        ensures
            match r {
                Ok(()) => emit_program(*program) matches Ok((code, start)) && final(self).code()
                    == code && final(self).entry() == start,
                Err(k) => emit_program(*program) == Err::<(Seq<AInstr>, usize), CompileError>(k),
            },
    {
        proof {
            assert(self.code() =~= Seq::<AInstr>::empty());
            assert(self.fns() =~= Seq::<(Seq<char>, usize)>::empty());
            assert(program.funcs@.subrange(0, program.funcs@.len() as int) =~= program.funcs@);
        }
        let mut i: usize = 0;
        while i < program.funcs.len()
            invariant
                i <= program.funcs@.len(),
                self.start_ip == 0,
                emit_funcs(program.funcs@, Seq::empty(), Seq::empty()) == emit_funcs(
                    program.funcs@.subrange(i as int, program.funcs@.len() as int),
                    self.code(),
                    self.fns(),
                ),
            decreases program.funcs@.len() - i,
        {
            self.locals.clear();
            let f = &program.funcs[i];
            let ghost fseq = program.funcs@.subrange(i as int, program.funcs@.len() as int);
            proof {
                assert(fseq[0] == program.funcs@[i as int]);
                assert(fseq.subrange(1, fseq.len() as int) =~= program.funcs@.subrange(
                    i + 1,
                    program.funcs@.len() as int,
                ));
            }
            match self.compile_fn(f.name.clone(), &f.args, &f.body) {
                Ok(()) => {},
                Err(k) => {
                    return Err(k);
                },
            }
            self.add_instruction(Instruction::Return);
            i = i + 1;
        }
        proof {
            assert(program.funcs@.subrange(
                program.funcs@.len() as int,
                program.funcs@.len() as int,
            ) =~= Seq::<Func>::empty());
        }
        self.locals.clear();
        self.start_ip = self.instructions.len();
        let no_params: Vec<Param> = Vec::new();
        proof {
            assert(param_locals(no_params@) =~= Seq::<(Seq<char>, usize)>::empty());
        }
        match self.compile_fn("main".to_owned(), &no_params, &program.main) {
            Ok(()) => {},
            Err(k) => {
                return Err(k);
            },
        }
        self.add_instruction(Instruction::Return);
        Ok(())
    }

    /// Runs the compiled program on the virtual machine for at most `fuel`
    /// transitions.
    pub fn execute(&self, fuel: u64) -> (r: ExecOutcome)
        ensures
            match r {
                ExecOutcome::Halted(v, out) => spec_run(
                    self.code(),
                    init_state(self.entry()),
                    fuel as nat,
                ) == ARun::Halted(v@, out.deep_view()),
                ExecOutcome::Failed(e, out) => spec_run(
                    self.code(),
                    init_state(self.entry()),
                    fuel as nat,
                ) == ARun::Failed(e, out.deep_view()),
                ExecOutcome::OutOfFuel => spec_run(
                    self.code(),
                    init_state(self.entry()),
                    fuel as nat,
                ) matches ARun::More(_),
            },
    {
        run(&self.instructions, self.start_ip, fuel)
    }
}

/// If a prefix of statements compiles and the next one fails, the whole
/// run fails with that first error.
proof fn lemma_emit_stmts_err(
    ss: Seq<Stmt>,
    locals: Seq<(Seq<char>, usize)>,
    funcs: Seq<(Seq<char>, usize)>,
    base: int,
    in_loop: Option<usize>,
    i: int,
    k: CompileError,
)
    requires
        0 <= i < ss.len(),
        emit_stmts(ss.subrange(0, i), locals, funcs, base, in_loop) matches Ok(mid)
            && emit_stmt(ss[i], mid.locals, funcs, base + mid.code.len(), in_loop) == Err::<
            StmtOut,
            CompileError,
        >(k),
    ensures
        emit_stmts(ss, locals, funcs, base, in_loop) == Err::<StmtOut, CompileError>(k),
    decreases ss.len(),
{
    if ss.len() == i + 1 {
        assert(ss.subrange(0, i) =~= ss.drop_last());
        assert(ss.last() == ss[i]);
    } else {
        assert(ss.drop_last().subrange(0, i) =~= ss.subrange(0, i));
        assert(ss.drop_last()[i] == ss[i]);
        lemma_emit_stmts_err(ss.drop_last(), locals, funcs, base, in_loop, i, k);
    }
}

/// Patching keeps the code's length.
proof fn lemma_patch_jumps_len(code: Seq<AInstr>, base: int, sites: Seq<usize>, target: usize)
    requires
        forall|t: int| 0 <= t < sites.len() ==> base <= #[trigger] sites[t] < base + code.len(),
    ensures
        patch_jumps(code, base, sites, target).len() == code.len(),
    decreases sites.len(),
{
    if sites.len() > 0 {
        let rest = sites.subrange(1, sites.len() as int);
        assert(forall|t: int|
            0 <= t < rest.len() ==> base <= #[trigger] rest[t] < base + code.len());
        lemma_patch_jumps_len(
            code.update(sites[0] - base, AInstr::Jump(target)),
            base,
            rest,
            target,
        );
    }
}

/// Updating inside the middle piece of a three-way concatenation.
proof fn lemma_concat_update_mid<T>(a: Seq<T>, b: Seq<T>, c: Seq<T>, k: int, x: T)
    requires
        0 <= k < b.len(),
    ensures
        (a + b + c).update(a.len() + k, x) == a + b.update(k, x) + c,
{
    assert((a + b + c).update(a.len() + k, x) =~= a + b.update(k, x) + c);
}

/// Patching one more recorded site is one more update.
proof fn lemma_patch_jumps_snoc(code: Seq<AInstr>, base: int, sites: Seq<usize>, target: usize)
    requires
        sites.len() >= 1,
    ensures
        patch_jumps(code, base, sites, target) == patch_jumps(
            code,
            base,
            sites.drop_last(),
            target,
        ).update(sites.last() - base, AInstr::Jump(target)),
    decreases sites.len(),
{
    reveal_with_fuel(patch_jumps, 3);
    if sites.len() == 1 {
        assert(sites.subrange(1, 1) =~= Seq::<usize>::empty());
        assert(sites.drop_last() =~= Seq::<usize>::empty());
        assert(patch_jumps(code, base, sites.drop_last(), target) == code);
        assert(sites[0] == sites.last());
    } else {
        let rest = sites.subrange(1, sites.len() as int);
        let code2 = code.update(sites[0] - base, AInstr::Jump(target));
        assert(rest.drop_last() =~= sites.drop_last().subrange(1, sites.len() - 1));
        assert(rest.last() == sites.last());
        assert(sites.drop_last()[0] == sites[0]);
        assert(sites.drop_last().len() >= 1);
        lemma_patch_jumps_snoc(code2, base, rest, target);
        assert(patch_jumps(code, base, sites, target) == patch_jumps(code2, base, rest, target));
        assert(patch_jumps(code, base, sites.drop_last(), target) == patch_jumps(
            code2,
            base,
            sites.drop_last().subrange(1, sites.len() - 1),
            target,
        ));
    }
}

} // verus!
