use sahl::ast::{ArithOp, CmpOp, Expr, Func, Lit, Param, Program, Stmt, Type};
use sahl::compile::{Codegen, CompileError};
use sahl::value::Value;
use sahl::vm::{ExecOutcome, VmErrKind};

const FUEL: u64 = 100_000;

fn ilit(i: i64) -> Expr {
    Expr::Literal(Lit::Int(i))
}

fn var(name: &str) -> Expr {
    Expr::Variable(String::from(name))
}

fn call(name: &str, args: Vec<Expr>) -> Expr {
    Expr::Call(String::from(name), args)
}

fn print1(e: Expr) -> Stmt {
    Stmt::Expr(call("print", vec![e]))
}

fn arith(op: ArithOp, a: Expr, b: Expr) -> Expr {
    Expr::Arith(op, Box::new(a), Box::new(b))
}

fn cmp(op: CmpOp, a: Expr, b: Expr) -> Expr {
    Expr::CmpOp(op, Box::new(a), Box::new(b))
}

fn run_main(main: Vec<Stmt>) -> (Value, Vec<Value>) {
    run_program(Program { funcs: vec![], main })
}

fn run_program(p: Program) -> (Value, Vec<Value>) {
    let mut cg = Codegen::new();
    cg.compile_program(&p).unwrap();
    match cg.execute(FUEL) {
        ExecOutcome::Halted(v, out) => (v, out),
        other => panic!("program did not halt normally: {:?}", other),
    }
}

fn fail_kind(main: Vec<Stmt>) -> VmErrKind {
    let mut cg = Codegen::new();
    cg.compile_program(&Program { funcs: vec![], main }).unwrap();
    match cg.execute(FUEL) {
        ExecOutcome::Failed(e, _) => e.kind,
        other => panic!("program did not fail: {:?}", other),
    }
}

fn rejected_main(main: Vec<Stmt>) -> CompileError {
    let mut cg = Codegen::new();
    cg.compile_program(&Program { funcs: vec![], main }).unwrap_err()
}

#[test]
fn arith_add_matches_native() {
    let main = vec![print1(arith(ArithOp::Add, ilit(20), ilit(22)))];
    let (_, out) = run_main(main);
    assert_eq!(out, vec![Value::Int(42)]);
}

#[test]
fn arith_all_ops_match_native() {
    let cases = vec![
        (ArithOp::Add, 17i64, 5i64, 22i64),
        (ArithOp::Sub, 17, 5, 12),
        (ArithOp::Mul, 17, 5, 85),
        (ArithOp::Div, 17, 5, 3),
        (ArithOp::Mod, 17, 5, 2),
        (ArithOp::Div, 7, -2, -3),
        (ArithOp::Mod, -7, 2, -1),
    ];
    for (op, a, b, expect) in cases {
        let (_, out) = run_main(vec![print1(arith(op, ilit(a), ilit(b)))]);
        assert_eq!(out, vec![Value::Int(expect)]);
    }
}

#[test]
fn division_by_zero_fails_the_run() {
    let kind = fail_kind(vec![print1(arith(ArithOp::Div, ilit(1), ilit(0)))]);
    assert_eq!(kind, VmErrKind::DivByZero);
}

#[test]
fn modulo_by_zero_fails_the_run() {
    let kind = fail_kind(vec![print1(arith(ArithOp::Mod, ilit(1), ilit(0)))]);
    assert_eq!(kind, VmErrKind::DivByZero);
}

#[test]
fn if_true_runs_only_then_branch() {
    let main = vec![Stmt::IfElse(
        Expr::Literal(Lit::Bool(true)),
        vec![print1(ilit(1))],
        Some(vec![print1(ilit(2))]),
    )];
    let (_, out) = run_main(main);
    assert_eq!(out, vec![Value::Int(1)]);
}

#[test]
fn if_false_runs_only_else_branch() {
    let main = vec![Stmt::IfElse(
        Expr::Literal(Lit::Bool(false)),
        vec![print1(ilit(1))],
        Some(vec![print1(ilit(2))]),
    )];
    let (_, out) = run_main(main);
    assert_eq!(out, vec![Value::Int(2)]);
}

#[test]
fn while_loop_with_nested_break_sums_prefix() {
    // sum i over 0..5 but break when i == 3: adds 0, 1 and 2.
    let main = vec![
        Stmt::Decl(String::from("i"), ilit(0)),
        Stmt::Decl(String::from("sum"), ilit(0)),
        Stmt::While(
            cmp(CmpOp::Lt, var("i"), ilit(5)),
            vec![
                Stmt::IfElse(cmp(CmpOp::Eq, var("i"), ilit(3)), vec![Stmt::Break], None),
                Stmt::Expr(Expr::Assign(
                    Box::new(var("sum")),
                    Box::new(arith(ArithOp::Add, var("sum"), var("i"))),
                )),
                Stmt::Expr(Expr::Assign(
                    Box::new(var("i")),
                    Box::new(arith(ArithOp::Add, var("i"), ilit(1))),
                )),
            ],
        ),
        print1(var("sum")),
    ];
    let (_, out) = run_main(main);
    assert_eq!(out, vec![Value::Int(3)]);
}

#[test]
fn while_loop_counts_to_five() {
    let main = vec![
        Stmt::Decl(String::from("i"), ilit(0)),
        Stmt::While(
            cmp(CmpOp::Lt, var("i"), ilit(5)),
            vec![Stmt::Expr(Expr::Assign(
                Box::new(var("i")),
                Box::new(arith(ArithOp::Add, var("i"), ilit(1))),
            ))],
        ),
        print1(var("i")),
    ];
    let (_, out) = run_main(main);
    assert_eq!(out, vec![Value::Int(5)]);
}

fn fact_program(extra_main: Vec<Stmt>) -> Program {
    let fact = Func {
        name: String::from("fact"),
        args: vec![Param { name: String::from("n"), ty: Type::Int }],
        body: vec![
            Stmt::IfElse(
                cmp(CmpOp::Lt, var("n"), ilit(2)),
                vec![Stmt::Return(ilit(1))],
                None,
            ),
            Stmt::Return(arith(
                ArithOp::Mul,
                var("n"),
                call("fact", vec![arith(ArithOp::Sub, var("n"), ilit(1))]),
            )),
        ],
    };
    Program { funcs: vec![fact], main: extra_main }
}

#[test]
fn recursive_factorial_of_five_is_120() {
    let p = fact_program(vec![print1(call("fact", vec![ilit(5)]))]);
    let (_, out) = run_program(p);
    assert_eq!(out, vec![Value::Int(120)]);
}

#[test]
fn call_does_not_corrupt_caller_locals() {
    let p = fact_program(vec![
        Stmt::Decl(String::from("x"), ilit(7)),
        Stmt::Decl(String::from("r"), call("fact", vec![ilit(5)])),
        print1(var("x")),
        print1(var("r")),
    ]);
    let (_, out) = run_program(p);
    assert_eq!(out, vec![Value::Int(7), Value::Int(120)]);
}

#[test]
fn append_extends_and_leaves_original_binding_unchanged() {
    let main = vec![
        Stmt::Decl(
            String::from("a"),
            Expr::Literal(Lit::List(vec![ilit(1), ilit(2), ilit(3)])),
        ),
        Stmt::Decl(String::from("b"), call("append", vec![var("a"), ilit(4)])),
        print1(Expr::Subscr(Box::new(var("b")), Box::new(ilit(3)))),
        print1(var("b")),
        print1(var("a")),
    ];
    let (_, out) = run_main(main);
    assert_eq!(
        out,
        vec![
            Value::Int(4),
            Value::List(vec![Value::Int(1), Value::Int(2), Value::Int(3), Value::Int(4)]),
            Value::List(vec![Value::Int(1), Value::Int(2), Value::Int(3)]),
        ]
    );
}

#[test]
fn index_out_of_range_fails_the_run() {
    let main = vec![
        Stmt::Decl(
            String::from("a"),
            Expr::Literal(Lit::List(vec![ilit(1), ilit(2), ilit(3)])),
        ),
        print1(Expr::Subscr(Box::new(var("a")), Box::new(ilit(9)))),
    ];
    let kind = fail_kind(main);
    assert_eq!(kind, VmErrKind::IndexOutOfRange);
}

#[test]
fn store_mutates_only_that_index_of_the_stack_copy() {
    // The assignment expression leaves the updated list on the stack,
    // where print picks it up; the binding itself keeps its own copy.
    let main = vec![
        Stmt::Decl(
            String::from("x"),
            Expr::Literal(Lit::List(vec![ilit(1), ilit(2), ilit(3)])),
        ),
        print1(Expr::Assign(
            Box::new(Expr::Subscr(Box::new(var("x")), Box::new(ilit(1)))),
            Box::new(ilit(9)),
        )),
        print1(Expr::Subscr(Box::new(var("x")), Box::new(ilit(1)))),
    ];
    let (_, out) = run_main(main);
    assert_eq!(
        out,
        vec![
            Value::List(vec![Value::Int(1), Value::Int(9), Value::Int(3)]),
            Value::Int(2),
        ]
    );
}

#[test]
fn make_int_list_is_five_zeroes() {
    let main = vec![print1(Expr::Make(Type::List(Box::new(Type::Int)), 5))];
    let (_, out) = run_main(main);
    let zeros: Vec<Value> = (0..5).map(|_| Value::Int(0)).collect();
    assert_eq!(out, vec![Value::List(zeros)]);
}

#[test]
fn make_uses_each_scalar_zero_value() {
    let cases: Vec<(Type, Value)> = vec![
        (Type::Char, Value::Char(0)),
        (Type::Bool, Value::Bool(false)),
        (Type::Float, Value::Float(0.0f64.to_bits())),
        (Type::Str, Value::Str(vec![])),
    ];
    for (ty, zero) in cases {
        let main = vec![print1(Expr::Subscr(
            Box::new(Expr::Make(Type::List(Box::new(ty)), 2)),
            Box::new(ilit(0)),
        ))];
        let (_, out) = run_main(main);
        assert_eq!(out, vec![zero]);
    }
}

#[test]
fn make_of_list_of_lists_is_rejected() {
    let err = rejected_main(vec![print1(Expr::Make(
        Type::List(Box::new(Type::List(Box::new(Type::Int)))),
        2,
    ))]);
    assert_eq!(err, CompileError::InvalidMake);
}

#[test]
fn unknown_variable_is_a_rejected_main() {
    let err = rejected_main(vec![print1(var("nope"))]);
    assert_eq!(err, CompileError::UnknownVariable);
}

#[test]
fn break_outside_loop_is_a_rejected_main() {
    let err = rejected_main(vec![Stmt::Break]);
    assert_eq!(err, CompileError::BreakOutsideLoop);
}

#[test]
fn continue_outside_loop_is_a_rejected_main() {
    let err = rejected_main(vec![Stmt::Continue]);
    assert_eq!(err, CompileError::ContinueOutsideLoop);
}

#[test]
fn unknown_function_is_a_rejected_main() {
    let err = rejected_main(vec![print1(call("mystery", vec![]))]);
    assert_eq!(err, CompileError::UnknownFunction);
}

#[test]
fn print_output_follows_execution_order() {
    let main = vec![print1(ilit(1)), print1(ilit(2)), print1(ilit(3))];
    let (_, out) = run_main(main);
    assert_eq!(out, vec![Value::Int(1), Value::Int(2), Value::Int(3)]);
}

#[test]
fn string_and_bool_values_round_through_execution() {
    let main = vec![
        print1(Expr::Literal(Lit::Str(b"hi".to_vec()))),
        print1(Expr::Literal(Lit::Bool(true))),
        print1(Expr::Neg(Box::new(ilit(5)))),
        print1(Expr::Not(Box::new(Expr::Literal(Lit::Bool(false))))),
    ];
    let (_, out) = run_main(main);
    assert_eq!(
        out,
        vec![Value::Str(b"hi".to_vec()), Value::Bool(true), Value::Int(-5), Value::Bool(true)]
    );
}

#[test]
fn comparison_and_equality_dispatch_on_tags() {
    let main = vec![
        print1(cmp(CmpOp::Lt, ilit(2), ilit(3))),
        print1(cmp(CmpOp::Eq, Expr::Literal(Lit::Char(97)), Expr::Literal(Lit::Char(97)))),
        print1(cmp(
            CmpOp::Ne,
            Expr::Literal(Lit::Str(b"a".to_vec())),
            Expr::Literal(Lit::Str(b"b".to_vec())),
        )),
    ];
    let (_, out) = run_main(main);
    assert_eq!(out, vec![Value::Bool(true), Value::Bool(true), Value::Bool(true)]);
}

#[test]
fn adding_bool_to_int_is_a_type_error() {
    let kind = fail_kind(vec![print1(arith(
        ArithOp::Add,
        ilit(1),
        Expr::Literal(Lit::Bool(true)),
    ))]);
    assert_eq!(kind, VmErrKind::TypeMismatch);
}

#[test]
fn integer_overflow_fails_the_run() {
    let kind = fail_kind(vec![print1(arith(ArithOp::Add, ilit(i64::MAX), ilit(1)))]);
    assert_eq!(kind, VmErrKind::Overflow);
}

#[test]
fn main_returns_its_value() {
    let (v, out) = run_main(vec![Stmt::Return(ilit(99))]);
    assert_eq!(v, Value::Int(99));
    assert!(out.is_empty());
}
