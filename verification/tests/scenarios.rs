use hush::flow::Flow;
use hush::host::Host;
use hush::mem::Memory;
use hush::ops::Number;
use hush::panic::Panic;
use hush::program::{
    BinaryOp, Block, Capture, Expr, FrameInfo, Literal, Lvalue, Program, SlotIx, Statement,
    UnaryOp,
};
use hush::runtime::{Halt, Runtime};
use hush::source::Pos;
use hush::symbol::{Interner, Symbol};
use hush::value::{Float, Value};

struct Plain;

fn promote(n: Number) -> f64 {
    match n {
        Number::Int(i) => i as f64,
        Number::Float(f) => f64::from_bits(f.to_bits()),
    }
}

impl Host for Plain {
    fn library(&mut self, _mem: &mut Memory) -> Value {
        Value::Nil
    }

    fn call(&mut self, _id: u32, _mem: &mut Memory, _args: u32) -> Result<Value, Panic> {
        Ok(Value::Nil)
    }

    fn float_arith(&mut self, op: BinaryOp, left: Number, right: Number) -> Float {
        let (a, b) = (promote(left), promote(right));
        let r = match op {
            BinaryOp::Plus => a + b,
            BinaryOp::Minus => a - b,
            BinaryOp::Times => a * b,
            BinaryOp::Div => a / b,
            _ => a % b,
        };
        Float::from_bits(r.to_bits())
    }
}

fn at(line: u32) -> Pos {
    Pos { line, column: 1 }
}

fn slot(index: u32) -> SlotIx {
    SlotIx { index }
}

fn lit(literal: Literal) -> Expr {
    Expr::Literal { literal, pos: at(1) }
}

fn num(i: i64) -> Expr {
    lit(Literal::Int(i))
}

fn boolean(b: bool) -> Expr {
    lit(Literal::Bool(b))
}

fn text(s: &str) -> Expr {
    lit(Literal::String(s.as_bytes().to_vec()))
}

fn name(symbol: Symbol) -> Expr {
    lit(Literal::Identifier(symbol))
}

fn var(index: u32) -> Expr {
    Expr::Identifier { slot_ix: slot(index), pos: at(1) }
}

fn bin(left: Expr, op: BinaryOp, right: Expr) -> Expr {
    Expr::BinaryOp { left: Box::new(left), op, right: Box::new(right), pos: at(1) }
}

fn access(object: Expr, field: Expr) -> Expr {
    Expr::Access { object: Box::new(object), field: Box::new(field), pos: at(1) }
}

fn call(function: Expr, args: Vec<Expr>) -> Expr {
    Expr::Call { function: Box::new(function), args, pos: at(1) }
}

fn cond(test: Expr, then: Vec<Statement>, otherwise: Vec<Statement>) -> Expr {
    Expr::If {
        condition: Box::new(test),
        then: Block(then),
        otherwise: Block(otherwise),
        pos: at(1),
    }
}

fn function(params: u32, slots: u32, captures: Vec<Capture>, body: Vec<Statement>) -> Expr {
    lit(Literal::Function {
        params,
        frame_info: FrameInfo { slots, captures, self_slot: None },
        body: Block(body),
    })
}

fn set(index: u32, right: Expr) -> Statement {
    Statement::Assign { left: Lvalue::Identifier { slot_ix: slot(index), pos: at(1) }, right }
}

fn set_at(object: Expr, field: Expr, right: Expr) -> Statement {
    Statement::Assign {
        left: Lvalue::Access { object: Box::new(object), field: Box::new(field), pos: at(1) },
        right,
    }
}

fn ret(expr: Expr) -> Statement {
    Statement::Return { expr }
}

fn run_with(
    statements: Vec<Statement>,
    root_slots: u32,
    interner: &Interner,
) -> (Result<Value, Halt>, Runtime) {
    let program: &'static Program =
        Box::leak(Box::new(Program { source: "test.hsh", statements: Block(statements), root_slots }));
    assert!(program.check(interner));
    let mut runtime = Runtime::new(100_000);
    let result = runtime.eval(program, interner, &mut Plain);
    assert!(runtime.memory().is_empty());
    (result, runtime)
}

fn run(statements: Vec<Statement>, root_slots: u32) -> (Result<Value, Halt>, Runtime) {
    run_with(statements, root_slots, &Interner::new())
}

fn is_int(result: &Result<Value, Halt>, expected: i64) -> bool {
    matches!(result, Ok(Value::Int(i)) if *i == expected)
}

#[test]
fn arithmetic_with_precedence() {
    // x = 2 + 3 * 4; x
    let (result, _) = run(
        vec![
            set(1, bin(num(2), BinaryOp::Plus, bin(num(3), BinaryOp::Times, num(4)))),
            Statement::Expr(var(1)),
        ],
        2,
    );
    assert!(is_int(&result, 14));
}

#[test]
fn array_element_assignment() {
    // a = [10, 20, 30]; a[1] = 99; a[0] + a[1] + a[2]
    let (result, _) = run(
        vec![
            set(1, lit(Literal::Array(vec![num(10), num(20), num(30)]))),
            set_at(var(1), num(1), num(99)),
            Statement::Expr(bin(
                bin(access(var(1), num(0)), BinaryOp::Plus, access(var(1), num(1))),
                BinaryOp::Plus,
                access(var(1), num(2)),
            )),
        ],
        2,
    );
    assert!(is_int(&result, 139));
}

fn counter_maker() -> Expr {
    // function() { c = 0; return function() { c = c + 1; return c } }
    let inner = function(
        0,
        1,
        vec![Capture { from: slot(0), to: slot(0) }],
        vec![set(0, bin(var(0), BinaryOp::Plus, num(1))), ret(var(0))],
    );
    function(0, 1, vec![], vec![set(0, num(0)), ret(inner)])
}

#[test]
fn closure_counts_through_its_capture() {
    // mk = ..; f = mk(); [f(), f(), f()]
    let (result, runtime) = run(
        vec![
            set(1, counter_maker()),
            set(2, call(var(1), vec![])),
            Statement::Expr(lit(Literal::Array(vec![
                call(var(2), vec![]),
                call(var(2), vec![]),
                call(var(2), vec![]),
            ]))),
        ],
        3,
    );
    let array = match result {
        Ok(Value::Array(r)) => r,
        other => panic!("{:?}", other),
    };
    let mem = runtime.memory();
    assert_eq!(mem.array_len(array), 3);
    assert!(matches!(mem.array_index(array, 0), Some(Value::Int(1))));
    assert!(matches!(mem.array_index(array, 1), Some(Value::Int(2))));
    assert!(matches!(mem.array_index(array, 2), Some(Value::Int(3))));
}

#[test]
fn two_closures_of_one_maker_do_not_share() {
    let (result, _) = run(
        vec![
            set(1, counter_maker()),
            set(2, call(var(1), vec![])),
            set(3, call(var(1), vec![])),
            Statement::Expr(call(var(2), vec![])),
            Statement::Expr(call(var(2), vec![])),
            Statement::Expr(call(var(3), vec![])),
        ],
        4,
    );
    assert!(is_int(&result, 1));
}

fn faulty() -> Expr {
    // function() { 1 / 0 }
    function(0, 0, vec![], vec![Statement::Expr(bin(num(1), BinaryOp::Div, num(0)))])
}

#[test]
fn and_short_circuits() {
    let (result, _) = run(
        vec![
            set(1, faulty()),
            Statement::Expr(bin(boolean(false), BinaryOp::And, call(var(1), vec![]))),
        ],
        2,
    );
    assert!(matches!(result, Ok(Value::Bool(false))));
}

#[test]
fn or_short_circuits() {
    let (result, _) = run(
        vec![
            set(1, faulty()),
            Statement::Expr(bin(boolean(true), BinaryOp::Or, call(var(1), vec![]))),
        ],
        2,
    );
    assert!(matches!(result, Ok(Value::Bool(true))));
}

#[test]
fn and_evaluates_the_right_operand_when_left_is_true() {
    let (result, _) = run(
        vec![
            set(1, faulty()),
            Statement::Expr(bin(boolean(true), BinaryOp::And, call(var(1), vec![]))),
        ],
        2,
    );
    assert!(matches!(result, Err(Halt::Panic(Panic::DivisionByZero { .. }))));
}

fn iterator_maker(finished: Symbol, value: Symbol, end: i64) -> Expr {
    // function() {
    //     i = 0
    //     return function() {
    //         i = i + 1
    //         if i == end { return @[finished: true, value: nil] }
    //         else { return @[finished: false, value: i] }
    //     }
    // }
    let over = lit(Literal::Dict(vec![(finished, boolean(true)), (value, lit(Literal::Nil))]));
    let next = lit(Literal::Dict(vec![(finished, boolean(false)), (value, var(0))]));
    let inner = function(
        0,
        1,
        vec![Capture { from: slot(0), to: slot(0) }],
        vec![
            set(0, bin(var(0), BinaryOp::Plus, num(1))),
            Statement::Expr(cond(
                bin(var(0), BinaryOp::Equals, num(end)),
                vec![ret(over)],
                vec![ret(next)],
            )),
        ],
    );
    function(0, 1, vec![], vec![set(0, num(0)), ret(inner)])
}

fn keys() -> (Interner, Symbol, Symbol) {
    let mut interner = Interner::new();
    let finished = interner.get_or_intern(b"finished").unwrap();
    let value = interner.get_or_intern(b"value").unwrap();
    (interner, finished, value)
}

#[test]
fn for_loop_sees_each_item() {
    // seen = []; sum = 0; for x in mk() { sum = sum * 10 + x }; sum
    let (interner, finished, value) = keys();
    let (result, _) = run_with(
        vec![
            set(1, iterator_maker(finished, value, 3)),
            set(2, num(0)),
            Statement::For {
                slot_ix: slot(3),
                expr: call(var(1), vec![]),
                block: Block(vec![set(
                    2,
                    bin(bin(var(2), BinaryOp::Times, num(10)), BinaryOp::Plus, var(3)),
                )]),
            },
            Statement::Expr(var(2)),
        ],
        4,
        &interner,
    );
    assert!(is_int(&result, 12));
}

#[test]
fn for_loop_yields_nil() {
    let (interner, finished, value) = keys();
    let (result, _) = run_with(
        vec![
            set(1, iterator_maker(finished, value, 3)),
            Statement::For { slot_ix: slot(2), expr: call(var(1), vec![]), block: Block(vec![]) },
        ],
        3,
        &interner,
    );
    assert!(matches!(result, Ok(Value::Nil)));
}

#[test]
fn dict_keys_of_different_kinds_are_distinct() {
    // d = @[]; d[1] = "a"; d[1]
    let (result, _) = run(
        vec![
            set(1, lit(Literal::Dict(vec![]))),
            set_at(var(1), num(1), text("a")),
            Statement::Expr(access(var(1), num(1))),
        ],
        2,
    );
    assert!(matches!(result, Ok(Value::String(s)) if s == b"a"));
    // d["1"]
    let (result, _) = run(
        vec![
            set(1, lit(Literal::Dict(vec![]))),
            set_at(var(1), num(1), text("a")),
            Statement::Expr(access(var(1), text("1"))),
        ],
        2,
    );
    assert!(matches!(
        result,
        Err(Halt::Panic(Panic::IndexOutOfBounds { value: Value::String(s), .. })) if s == b"1"
    ));
}

#[test]
fn method_call_binds_the_receiver() {
    // obj = @[tag: 7, method: function(x) { return self.tag + x }]; obj.method(5)
    let mut interner = Interner::new();
    let tag = interner.get_or_intern(b"tag").unwrap();
    let method = interner.get_or_intern(b"method").unwrap();
    let body = vec![ret(bin(access(var(1), name(tag)), BinaryOp::Plus, var(0)))];
    let fun = lit(Literal::Function {
        params: 1,
        frame_info: FrameInfo { slots: 2, captures: vec![], self_slot: Some(slot(1)) },
        body: Block(body),
    });
    let (result, _) = run_with(
        vec![
            set(1, lit(Literal::Dict(vec![(tag, num(7)), (method, fun)]))),
            Statement::Expr(call(access(var(1), name(method)), vec![num(5)])),
        ],
        2,
        &interner,
    );
    assert!(is_int(&result, 12));
}

#[test]
fn plain_call_binds_no_receiver() {
    // f = function() { return self }; f()   -- the self slot keeps nil
    let fun = lit(Literal::Function {
        params: 0,
        frame_info: FrameInfo { slots: 1, captures: vec![], self_slot: Some(slot(0)) },
        body: Block(vec![ret(var(0))]),
    });
    let (result, _) = run(vec![set(1, fun), Statement::Expr(call(var(1), vec![]))], 2);
    assert!(matches!(result, Ok(Value::Nil)));
}

#[test]
fn nested_calls_keep_their_own_arguments() {
    // add = function(a, b) { return a + b }; add(1, add(2, 3))
    let add = function(2, 2, vec![], vec![ret(bin(var(0), BinaryOp::Plus, var(1)))]);
    let (result, _) = run(
        vec![
            set(1, add),
            Statement::Expr(call(var(1), vec![num(1), call(var(1), vec![num(2), num(3)])])),
        ],
        2,
    );
    assert!(is_int(&result, 6));
}

#[test]
fn unary_operators() {
    let neg = Expr::UnaryOp { op: UnaryOp::Minus, operand: Box::new(num(5)), pos: at(1) };
    let (result, _) = run(vec![Statement::Expr(neg)], 1);
    assert!(is_int(&result, -5));
    let not = Expr::UnaryOp { op: UnaryOp::Not, operand: Box::new(boolean(true)), pos: at(1) };
    let (result, _) = run(vec![Statement::Expr(not)], 1);
    assert!(matches!(result, Ok(Value::Bool(false))));
}

#[test]
fn last_statement_gives_the_result() {
    let (result, _) = run(vec![Statement::Expr(num(1)), Statement::Expr(num(2))], 1);
    assert!(is_int(&result, 2));
    let (result, _) = run(vec![Statement::Expr(num(1)), set(1, num(2))], 2);
    assert!(matches!(result, Ok(Value::Nil)));
    let (result, _) = run(vec![], 1);
    assert!(matches!(result, Ok(Value::Nil)));
}

#[test]
fn flow_is_a_plain_value() {
    let flow = Flow::Return(Value::Int(3));
    assert!(matches!(flow.clone(), Flow::Return(Value::Int(3))));
    assert!(matches!(Flow::Break, Flow::Break));
}

// Faults.

fn fault(result: Result<Value, Halt>) -> Panic {
    match result {
        Err(Halt::Panic(p)) => p,
        other => panic!("{:?}", other),
    }
}

fn lit_at(literal: Literal, line: u32) -> Expr {
    Expr::Literal { literal, pos: at(line) }
}

fn bin_at(left: Expr, op: BinaryOp, right: Expr, line: u32) -> Expr {
    Expr::BinaryOp { left: Box::new(left), op, right: Box::new(right), pos: at(line) }
}

#[test]
fn integer_overflow_faults_at_the_expression() {
    for (a, op, b) in [
        (i64::MAX, BinaryOp::Plus, 1),
        (i64::MIN, BinaryOp::Minus, 1),
        (i64::MAX, BinaryOp::Times, 2),
    ] {
        let (result, _) = run(vec![Statement::Expr(bin_at(num(a), op, num(b), 7))], 1);
        let p = fault(result);
        assert!(matches!(p, Panic::IntegerOverflow { .. }));
        assert_eq!(p.pos().line, 7);
        assert_eq!(p.pos().path, "test.hsh");
    }
}

#[test]
fn arithmetic_at_the_limits_works() {
    let (result, _) = run(vec![Statement::Expr(bin(num(i64::MAX - 1), BinaryOp::Plus, num(1)))], 1);
    assert!(is_int(&result, i64::MAX));
    let (result, _) = run(vec![Statement::Expr(bin(num(i64::MIN + 1), BinaryOp::Minus, num(1)))], 1);
    assert!(is_int(&result, i64::MIN));
}

#[test]
fn division_rounds_toward_zero() {
    for (a, b, q, r) in [(7, 2, 3, 1), (-7, 2, -3, -1), (7, -2, -3, 1), (-7, -2, 3, -1), (0, 5, 0, 0)] {
        let (result, _) = run(vec![Statement::Expr(bin(num(a), BinaryOp::Div, num(b)))], 1);
        assert!(is_int(&result, q));
        let (result, _) = run(vec![Statement::Expr(bin(num(a), BinaryOp::Mod, num(b)))], 1);
        assert!(is_int(&result, r));
    }
}

#[test]
fn division_by_zero_faults() {
    for op in [BinaryOp::Div, BinaryOp::Mod] {
        let (result, _) = run(vec![Statement::Expr(bin_at(num(1), op, num(0), 3))], 1);
        let p = fault(result);
        assert!(matches!(p, Panic::DivisionByZero { .. }));
        assert_eq!(p.pos().line, 3);
    }
}

#[test]
fn least_integer_by_minus_one_overflows() {
    for op in [BinaryOp::Div, BinaryOp::Mod] {
        let (result, _) = run(vec![Statement::Expr(bin_at(num(i64::MIN), op, num(-1), 3))], 1);
        let p = fault(result);
        assert!(matches!(p, Panic::IntegerOverflow { .. }));
        assert_eq!(p.pos().line, 3);
        let (result, _) = run(vec![Statement::Expr(bin(num(i64::MIN), op, num(0)))], 1);
        assert!(matches!(fault(result), Panic::DivisionByZero { .. }));
    }
}

#[test]
fn negating_the_least_integer_overflows() {
    let neg = Expr::UnaryOp { op: UnaryOp::Minus, operand: Box::new(num(i64::MIN)), pos: at(4) };
    let (result, _) = run(vec![Statement::Expr(neg)], 1);
    let p = fault(result);
    assert!(matches!(p, Panic::IntegerOverflow { .. }));
    assert_eq!(p.pos().line, 4);
}

#[test]
fn unary_operand_of_the_wrong_kind() {
    let neg = Expr::UnaryOp {
        op: UnaryOp::Minus,
        operand: Box::new(lit_at(Literal::Bool(true), 9)),
        pos: at(4),
    };
    let (result, _) = run(vec![Statement::Expr(neg)], 1);
    let p = fault(result);
    assert!(matches!(p, Panic::InvalidOperand { value: Value::Bool(true), .. }));
    assert_eq!(p.pos().line, 9);
    let not = Expr::UnaryOp {
        op: UnaryOp::Not,
        operand: Box::new(lit_at(Literal::Int(1), 9)),
        pos: at(4),
    };
    let (result, _) = run(vec![Statement::Expr(not)], 1);
    assert!(matches!(fault(result), Panic::InvalidOperand { value: Value::Int(1), .. }));
}

#[test]
fn arithmetic_charges_the_first_operand_that_is_no_number() {
    let e = bin_at(lit_at(Literal::Nil, 2), BinaryOp::Plus, lit_at(Literal::Bool(true), 3), 1);
    let p = fault(run(vec![Statement::Expr(e)], 1).0);
    assert!(matches!(p, Panic::InvalidOperand { value: Value::Nil, .. }));
    assert_eq!(p.pos().line, 2);
    let e = bin_at(lit_at(Literal::Int(1), 2), BinaryOp::Plus, lit_at(Literal::Bool(true), 3), 1);
    let p = fault(run(vec![Statement::Expr(e)], 1).0);
    assert!(matches!(p, Panic::InvalidOperand { value: Value::Bool(true), .. }));
    assert_eq!(p.pos().line, 3);
}

#[test]
fn two_floats_are_no_operands() {
    let f = |x: f64, line| lit_at(Literal::Float(Float::from_bits(x.to_bits())), line);
    let e = bin_at(f(1.0, 2), BinaryOp::Plus, f(2.0, 3), 1);
    let p = fault(run(vec![Statement::Expr(e)], 1).0);
    assert!(matches!(p, Panic::InvalidOperand { value: Value::Float(_), .. }));
    assert_eq!(p.pos().line, 3);
}

fn float(x: f64) -> Expr {
    lit(Literal::Float(Float::from_bits(x.to_bits())))
}

fn is_float(result: &Result<Value, Halt>, expected: f64) -> bool {
    matches!(result, Ok(Value::Float(f)) if f.to_bits() == expected.to_bits())
}

#[test]
fn mixed_arithmetic_promotes_the_integer() {
    let (result, _) = run(vec![Statement::Expr(bin(num(1), BinaryOp::Plus, float(2.5)))], 1);
    assert!(is_float(&result, 3.5));
    let (result, _) = run(vec![Statement::Expr(bin(float(2.5), BinaryOp::Times, num(2)))], 1);
    assert!(is_float(&result, 5.0));
    let (result, _) = run(vec![Statement::Expr(bin(num(10), BinaryOp::Minus, float(2.5)))], 1);
    assert!(is_float(&result, 7.5));
    let (result, _) = run(vec![Statement::Expr(bin(float(2.5), BinaryOp::Minus, num(10)))], 1);
    assert!(is_float(&result, -7.5));
    let (result, _) = run(vec![Statement::Expr(bin(num(1), BinaryOp::Div, float(4.0)))], 1);
    assert!(is_float(&result, 0.25));
}

#[test]
fn float_identities() {
    for x in [0.0, 1.5, -3.25, 1e300] {
        let (result, _) = run(vec![Statement::Expr(bin(float(x), BinaryOp::Plus, num(0)))], 1);
        assert!(is_float(&result, x));
        let (result, _) = run(vec![Statement::Expr(bin(float(x), BinaryOp::Times, num(1)))], 1);
        assert!(is_float(&result, x));
    }
}

#[test]
fn negating_a_float_flips_its_sign() {
    for x in [0.0, 1.5, -3.25, f64::INFINITY] {
        let neg = Expr::UnaryOp { op: UnaryOp::Minus, operand: Box::new(float(x)), pos: at(1) };
        let (result, _) = run(vec![Statement::Expr(neg)], 1);
        assert!(is_float(&result, -x));
    }
}

#[test]
fn relational_operators_are_faults() {
    for op in [BinaryOp::Greater, BinaryOp::GreaterEquals, BinaryOp::Lower, BinaryOp::LowerEquals] {
        let e = bin_at(lit_at(Literal::Int(1), 2), op, lit_at(Literal::Int(2), 3), 1);
        let p = fault(run(vec![Statement::Expr(e)], 1).0);
        assert!(matches!(p, Panic::InvalidOperand { value: Value::Int(1), .. }));
        assert_eq!(p.pos().line, 2);
    }
}

#[test]
fn concat_joins_strings_only() {
    let (result, _) = run(vec![Statement::Expr(bin(text("ab"), BinaryOp::Concat, text("cd")))], 1);
    assert!(matches!(result, Ok(Value::String(s)) if s == b"abcd"));
    let e = bin_at(lit_at(Literal::String(b"ab".to_vec()), 2), BinaryOp::Concat, lit_at(Literal::Int(1), 3), 1);
    let p = fault(run(vec![Statement::Expr(e)], 1).0);
    assert!(matches!(p, Panic::InvalidOperand { value: Value::String(_), .. }));
    assert_eq!(p.pos().line, 2);
}

#[test]
fn concat_is_associative() {
    let left = bin(bin(text("a"), BinaryOp::Concat, text("bc")), BinaryOp::Concat, text("def"));
    let right = bin(text("a"), BinaryOp::Concat, bin(text("bc"), BinaryOp::Concat, text("def")));
    let (result, _) = run(vec![Statement::Expr(bin(left, BinaryOp::Equals, right))], 1);
    assert!(matches!(result, Ok(Value::Bool(true))));
}

#[test]
fn equality_of_values() {
    let cases: Vec<(Expr, Expr, bool)> = vec![
        (num(1), num(1), true),
        (num(1), num(2), false),
        (num(1), float(1.0), false),
        (float(1.5), float(1.5), true),
        (float(f64::NAN), float(f64::NAN), true),
        (text("a"), text("a"), true),
        (text("a"), text("b"), false),
        (text("1"), num(1), false),
        (lit(Literal::Nil), lit(Literal::Nil), true),
        (lit(Literal::Nil), boolean(false), false),
        (lit(Literal::Byte(7)), lit(Literal::Byte(7)), true),
        (lit(Literal::Byte(7)), num(7), false),
    ];
    for (a, b, equal) in cases {
        let (result, _) = run(vec![Statement::Expr(bin(a, BinaryOp::Equals, b))], 1);
        assert!(matches!(result, Ok(Value::Bool(e)) if e == equal));
    }
    let (result, _) = run(vec![Statement::Expr(bin(num(1), BinaryOp::NotEquals, num(2)))], 1);
    assert!(matches!(result, Ok(Value::Bool(true))));
}

#[test]
fn containers_are_equal_by_identity() {
    // a = [1]; b = a; c = [1]; [a == b, a == c]
    let (result, runtime) = run(
        vec![
            set(1, lit(Literal::Array(vec![num(1)]))),
            set(2, var(1)),
            set(3, lit(Literal::Array(vec![num(1)]))),
            Statement::Expr(lit(Literal::Array(vec![
                bin(var(1), BinaryOp::Equals, var(2)),
                bin(var(1), BinaryOp::Equals, var(3)),
            ]))),
        ],
        4,
    );
    let array = match result {
        Ok(Value::Array(r)) => r,
        other => panic!("{:?}", other),
    };
    assert!(matches!(runtime.memory().array_index(array, 0), Some(Value::Bool(true))));
    assert!(matches!(runtime.memory().array_index(array, 1), Some(Value::Bool(false))));
}

#[test]
fn all_handles_see_a_mutation() {
    // a = [1, 2]; b = a; b[0] = 5; a[0]
    let (result, _) = run(
        vec![
            set(1, lit(Literal::Array(vec![num(1), num(2)]))),
            set(2, var(1)),
            set_at(var(2), num(0), num(5)),
            Statement::Expr(access(var(1), num(0))),
        ],
        3,
    );
    assert!(is_int(&result, 5));
    // d = @[]; e = d; e["k"] = 1; d["k"]
    let (result, _) = run(
        vec![
            set(1, lit(Literal::Dict(vec![]))),
            set(2, var(1)),
            set_at(var(2), text("k"), num(1)),
            Statement::Expr(access(var(1), text("k"))),
        ],
        3,
    );
    assert!(is_int(&result, 1));
}

#[test]
fn array_index_out_of_bounds() {
    for ix in [3, -1, i64::MAX, i64::MIN] {
        let e = Expr::Access {
            object: Box::new(lit(Literal::Array(vec![num(1), num(2), num(3)]))),
            field: Box::new(lit_at(Literal::Int(ix), 6)),
            pos: at(1),
        };
        let p = fault(run(vec![Statement::Expr(e)], 1).0);
        assert!(matches!(p, Panic::IndexOutOfBounds { value: Value::Int(i), .. } if i == ix));
        assert_eq!(p.pos().line, 6);
    }
}

#[test]
fn array_assignment_out_of_bounds() {
    let target = |ix: i64| Statement::Assign {
        left: Lvalue::Access {
            object: Box::new(var(1)),
            field: Box::new(lit_at(Literal::Int(ix), 6)),
            pos: at(8),
        },
        right: num(0),
    };
    let array = || set(1, lit(Literal::Array(vec![num(1), num(2)])));
    let p = fault(run(vec![array(), target(2)], 2).0);
    assert!(matches!(p, Panic::IndexOutOfBounds { value: Value::Int(2), .. }));
    assert_eq!(p.pos().line, 6);
    let p = fault(run(vec![array(), target(-1)], 2).0);
    assert!(matches!(p, Panic::IndexOutOfBounds { value: Value::Int(-1), .. }));
    assert_eq!(p.pos().line, 6);
}

#[test]
fn access_operands_of_the_wrong_kind() {
    let e = Expr::Access {
        object: Box::new(lit(Literal::Array(vec![num(1)]))),
        field: Box::new(lit_at(Literal::String(b"x".to_vec()), 6)),
        pos: at(1),
    };
    let p = fault(run(vec![Statement::Expr(e)], 1).0);
    assert!(matches!(p, Panic::InvalidOperand { value: Value::String(_), .. }));
    assert_eq!(p.pos().line, 6);
    let e = Expr::Access {
        object: Box::new(lit_at(Literal::Int(3), 5)),
        field: Box::new(lit_at(Literal::Int(0), 6)),
        pos: at(1),
    };
    let p = fault(run(vec![Statement::Expr(e)], 1).0);
    assert!(matches!(p, Panic::InvalidOperand { value: Value::Int(3), .. }));
    assert_eq!(p.pos().line, 5);
    let p = fault(run(vec![set(1, num(3)), set_at(var(1), num(0), num(1))], 2).0);
    assert!(matches!(p, Panic::InvalidOperand { value: Value::Int(3), .. }));
    let p = fault(
        run(vec![set(1, lit(Literal::Array(vec![num(1)]))), set_at(var(1), text("x"), num(1))], 2).0,
    );
    assert!(matches!(p, Panic::InvalidOperand { value: Value::String(_), .. }));
}

#[test]
fn absent_key_faults() {
    let e = Expr::Access {
        object: Box::new(lit(Literal::Dict(vec![]))),
        field: Box::new(lit_at(Literal::Int(1), 6)),
        pos: at(1),
    };
    let p = fault(run(vec![Statement::Expr(e)], 1).0);
    assert!(matches!(p, Panic::IndexOutOfBounds { value: Value::Int(1), .. }));
    assert_eq!(p.pos().line, 6);
}

#[test]
fn calling_what_is_no_function() {
    let e = call(lit_at(Literal::Int(3), 5), vec![]);
    let p = fault(run(vec![Statement::Expr(e)], 1).0);
    assert!(matches!(p, Panic::InvalidCall { value: Value::Int(3), .. }));
    assert_eq!(p.pos().line, 5);
}

#[test]
fn calling_with_the_wrong_number_of_arguments() {
    let f = || function(1, 1, vec![], vec![ret(var(0))]);
    for args in [vec![], vec![num(1), num(2)]] {
        let e = Expr::Call { function: Box::new(var(1)), args, pos: at(4) };
        let (result, runtime) = run(vec![set(1, f()), Statement::Expr(e)], 2);
        let p = fault(result);
        assert!(matches!(p, Panic::MissingParameters { .. }));
        assert_eq!(p.pos().line, 4);
        assert!(runtime.memory().is_empty());
    }
    let e = call(var(1), vec![num(9)]);
    let (result, _) = run(vec![set(1, f()), Statement::Expr(e)], 2);
    assert!(is_int(&result, 9));
}

#[test]
fn conditions_have_to_be_booleans() {
    let e = Expr::If {
        condition: Box::new(lit_at(Literal::Int(1), 5)),
        then: Block(vec![]),
        otherwise: Block(vec![]),
        pos: at(1),
    };
    let p = fault(run(vec![Statement::Expr(e)], 1).0);
    assert!(matches!(p, Panic::InvalidCondition { value: Value::Int(1), .. }));
    assert_eq!(p.pos().line, 5);
    let w = Statement::While { condition: lit_at(Literal::Nil, 6), block: Block(vec![]) };
    let p = fault(run(vec![w], 1).0);
    assert!(matches!(p, Panic::InvalidCondition { value: Value::Nil, .. }));
    assert_eq!(p.pos().line, 6);
}

#[test]
fn logical_operands_have_to_be_booleans() {
    let e = bin_at(lit_at(Literal::Int(1), 2), BinaryOp::And, lit_at(Literal::Bool(true), 3), 1);
    let p = fault(run(vec![Statement::Expr(e)], 1).0);
    assert!(matches!(p, Panic::InvalidOperand { value: Value::Int(1), .. }));
    assert_eq!(p.pos().line, 2);
    let e = bin_at(lit_at(Literal::Bool(false), 2), BinaryOp::Or, lit_at(Literal::Int(1), 3), 1);
    let p = fault(run(vec![Statement::Expr(e)], 1).0);
    assert!(matches!(p, Panic::InvalidOperand { value: Value::Int(1), .. }));
    assert_eq!(p.pos().line, 3);
    let (result, _) = run(vec![Statement::Expr(bin(boolean(true), BinaryOp::And, boolean(false)))], 1);
    assert!(matches!(result, Ok(Value::Bool(false))));
    let (result, _) = run(vec![Statement::Expr(bin(boolean(false), BinaryOp::Or, boolean(true)))], 1);
    assert!(matches!(result, Ok(Value::Bool(true))));
}

#[test]
fn if_runs_one_block() {
    let e = |c: bool| cond(boolean(c), vec![Statement::Expr(num(1))], vec![Statement::Expr(num(2))]);
    assert!(is_int(&run(vec![Statement::Expr(e(true))], 1).0, 1));
    assert!(is_int(&run(vec![Statement::Expr(e(false))], 1).0, 2));
}

#[test]
fn while_loop_sums() {
    // c = 0; i = 0; while i != 10 { c = c + i; i = i + 1 }; c
    let (result, _) = run(
        vec![
            set(1, num(0)),
            set(2, num(0)),
            Statement::While {
                condition: bin(var(2), BinaryOp::NotEquals, num(10)),
                block: Block(vec![
                    set(1, bin(var(1), BinaryOp::Plus, var(2))),
                    set(2, bin(var(2), BinaryOp::Plus, num(1))),
                ]),
            },
            Statement::Expr(var(1)),
        ],
        3,
    );
    assert!(is_int(&result, 45));
}

fn counting_loop() -> Vec<Statement> {
    // i = 0; while true { i = i + 1; if i == 3 { break } }
    vec![
        set(1, num(0)),
        Statement::While {
            condition: boolean(true),
            block: Block(vec![
                set(1, bin(var(1), BinaryOp::Plus, num(1))),
                Statement::Expr(cond(
                    bin(var(1), BinaryOp::Equals, num(3)),
                    vec![Statement::Break],
                    vec![],
                )),
            ]),
        },
    ]
}

#[test]
fn break_ends_the_loop_with_nil() {
    assert!(matches!(run(counting_loop(), 2).0, Ok(Value::Nil)));
    let mut then = counting_loop();
    then.push(Statement::Expr(var(1)));
    assert!(is_int(&run(then, 2).0, 3));
}

#[test]
fn return_leaves_loops_and_the_function() {
    // f = function() { while true { return 4 }; return 5 }; f()
    let f = function(
        0,
        0,
        vec![],
        vec![
            Statement::While { condition: boolean(true), block: Block(vec![ret(num(4))]) },
            ret(num(5)),
        ],
    );
    assert!(is_int(&run(vec![set(1, f), Statement::Expr(call(var(1), vec![]))], 2).0, 4));
}

#[test]
fn function_without_return_gives_its_last_value() {
    let f = function(0, 0, vec![], vec![Statement::Expr(num(8))]);
    assert!(is_int(&run(vec![set(1, f), Statement::Expr(call(var(1), vec![]))], 2).0, 8));
}

#[test]
fn for_needs_an_iterator_function() {
    let s = Statement::For { slot_ix: slot(1), expr: lit_at(Literal::Int(1), 5), block: Block(vec![]) };
    let p = fault(run(vec![s], 2).0);
    assert!(matches!(p, Panic::InvalidOperand { value: Value::Int(1), .. }));
    assert_eq!(p.pos().line, 5);
}

fn for_over(answer: Expr, interner: &Interner) -> Panic {
    let iter = function(0, 0, vec![], vec![ret(answer)]);
    let s = Statement::For {
        slot_ix: slot(1),
        expr: Expr::Literal {
            literal: match iter {
                Expr::Literal { literal, .. } => literal,
                _ => unreachable!(),
            },
            pos: at(5),
        },
        block: Block(vec![]),
    };
    let (result, runtime) = run_with(vec![s], 2, interner);
    assert!(runtime.memory().is_empty());
    fault(result)
}

#[test]
fn iterator_answers_of_the_wrong_shape() {
    let (interner, finished, value) = keys();
    let p = for_over(num(1), &interner);
    assert!(matches!(p, Panic::InvalidOperand { value: Value::Int(1), .. }));
    assert_eq!(p.pos().line, 5);
    let p = for_over(lit(Literal::Dict(vec![(value, num(1))])), &interner);
    assert!(matches!(p, Panic::IndexOutOfBounds { value: Value::String(s), .. } if s == b"finished"));
    let p = for_over(lit(Literal::Dict(vec![(finished, boolean(false))])), &interner);
    assert!(matches!(p, Panic::IndexOutOfBounds { value: Value::String(s), .. } if s == b"value"));
    let p = for_over(lit(Literal::Dict(vec![(finished, num(0)), (value, num(1))])), &interner);
    assert!(matches!(p, Panic::InvalidOperand { value: Value::Int(0), .. }));
}

#[test]
fn iterator_with_parameters_faults() {
    let (interner, _, _) = keys();
    let iter = function(1, 1, vec![], vec![ret(num(1))]);
    let s = Statement::For { slot_ix: slot(1), expr: iter, block: Block(vec![]) };
    let p = fault(run_with(vec![s], 2, &interner).0);
    assert!(matches!(p, Panic::MissingParameters { .. }));
}

#[test]
fn dict_literal_later_key_wins() {
    let mut interner = Interner::new();
    let k = interner.get_or_intern(b"k").unwrap();
    let (result, _) = run_with(
        vec![
            set(1, lit(Literal::Dict(vec![(k, num(1)), (k, num(2))]))),
            Statement::Expr(access(var(1), name(k))),
        ],
        2,
        &interner,
    );
    assert!(is_int(&result, 2));
}

#[test]
fn identifier_literal_is_the_name() {
    let mut interner = Interner::new();
    let k = interner.get_or_intern(b"name").unwrap();
    let (result, _) = run_with(vec![Statement::Expr(name(k))], 1, &interner);
    assert!(matches!(result, Ok(Value::String(s)) if s == b"name"));
}

#[test]
fn array_literal_stops_at_a_jump() {
    // f = function() { [1, return 2, 1 / 0] }; f()   -- written with an `if` that returns
    let jump = cond(boolean(true), vec![ret(num(2))], vec![]);
    let f = function(
        0,
        0,
        vec![],
        vec![Statement::Expr(lit(Literal::Array(vec![
            num(1),
            jump,
            bin(num(1), BinaryOp::Div, num(0)),
        ])))],
    );
    assert!(is_int(&run(vec![set(1, f), Statement::Expr(call(var(1), vec![]))], 2).0, 2));
}

#[test]
fn argument_that_jumps_abandons_the_call() {
    // g = function(a, b) { 1 / 0 }; f = function() { g(1, return 7) }; f()
    let g = function(2, 2, vec![], vec![Statement::Expr(bin(num(1), BinaryOp::Div, num(0)))]);
    let jump = cond(boolean(true), vec![ret(num(7))], vec![]);
    let f = lit(Literal::Function {
        params: 0,
        frame_info: FrameInfo {
            slots: 1,
            captures: vec![Capture { from: slot(1), to: slot(0) }],
            self_slot: None,
        },
        body: Block(vec![Statement::Expr(call(var(0), vec![num(1), jump]))]),
    });
    let (result, _) = run(vec![set(1, g), set(2, f), Statement::Expr(call(var(2), vec![]))], 3);
    assert!(is_int(&result, 7));
}

#[test]
fn capture_sees_later_writes_of_the_enclosing_frame() {
    // x = 1; f = function() { return x }; x = 2; f()
    let f = function(0, 1, vec![Capture { from: slot(1), to: slot(0) }], vec![ret(var(0))]);
    let (result, _) =
        run(vec![set(1, num(1)), set(2, f), set(1, num(2)), Statement::Expr(call(var(2), vec![]))], 3);
    assert!(is_int(&result, 2));
}

#[test]
fn write_through_a_capture_is_seen_by_the_enclosing_frame() {
    // x = 1; f = function() { x = 5 }; f(); x
    let f = function(0, 1, vec![Capture { from: slot(1), to: slot(0) }], vec![set(0, num(5))]);
    let (result, _) = run(
        vec![set(1, num(1)), set(2, f), Statement::Expr(call(var(2), vec![])), Statement::Expr(var(1))],
        3,
    );
    assert!(is_int(&result, 5));
}

#[test]
fn recursion_through_a_capture() {
    // fact = function(n) { if n == 0 { return 1 } else { return n * fact(n - 1) } }; fact(10)
    let body = vec![Statement::Expr(cond(
        bin(var(0), BinaryOp::Equals, num(0)),
        vec![ret(num(1))],
        vec![ret(bin(
            var(0),
            BinaryOp::Times,
            call(var(1), vec![bin(var(0), BinaryOp::Minus, num(1))]),
        ))],
    ))];
    let fact = function(1, 2, vec![Capture { from: slot(1), to: slot(1) }], body);
    let (result, _) = run(vec![set(1, fact), Statement::Expr(call(var(1), vec![num(10)]))], 2);
    assert!(is_int(&result, 3628800));
}

fn leak(statements: Vec<Statement>, root_slots: u32) -> &'static Program {
    Box::leak(Box::new(Program { source: "test.hsh", statements: Block(statements), root_slots }))
}

#[test]
fn stack_overflow_at_the_root() {
    let program = leak(vec![], 5);
    let interner = Interner::new();
    assert!(program.check(&interner));
    let mut runtime = Runtime::with_limits(100, 4);
    let p = fault(runtime.eval(program, &interner, &mut Plain));
    assert!(matches!(p, Panic::StackOverflow { .. }));
    assert_eq!((p.pos().line, p.pos().column, p.pos().path), (0, 0, "test.hsh"));
    assert!(runtime.memory().is_empty());
    assert_eq!(runtime.steps(), 100);
}

#[test]
fn stack_overflow_in_a_call() {
    // f = function() { return f() }; f()
    let f = function(
        0,
        1,
        vec![Capture { from: slot(1), to: slot(0) }],
        vec![ret(Expr::Call { function: Box::new(var(0)), args: vec![], pos: at(6) })],
    );
    let program = leak(vec![set(1, f), Statement::Expr(call(var(1), vec![]))], 2);
    let interner = Interner::new();
    assert!(program.check(&interner));
    let mut runtime = Runtime::with_limits(1_000_000, 50);
    let p = fault(runtime.eval(program, &interner, &mut Plain));
    assert!(matches!(p, Panic::StackOverflow { .. }));
    assert_eq!(p.pos().line, 6);
    assert!(runtime.memory().is_empty());
}

#[test]
fn endless_loop_runs_out_of_steps() {
    let program = leak(vec![Statement::While { condition: boolean(true), block: Block(vec![]) }], 1);
    let interner = Interner::new();
    assert!(program.check(&interner));
    let mut runtime = Runtime::new(1000);
    assert!(matches!(runtime.eval(program, &interner, &mut Plain), Err(Halt::OutOfSteps)));
    assert_eq!(runtime.steps(), 0);
    assert!(runtime.memory().is_empty());
}

#[test]
fn steps_are_counted() {
    // one block, one statement, one expression, one literal
    let program = leak(vec![Statement::Expr(num(1))], 1);
    let interner = Interner::new();
    let mut runtime = Runtime::new(4);
    assert!(is_int(&runtime.eval(program, &interner, &mut Plain), 1));
    assert_eq!(runtime.steps(), 0);
    let mut runtime = Runtime::new(3);
    assert!(matches!(runtime.eval(program, &interner, &mut Plain), Err(Halt::OutOfSteps)));
    runtime.refill(10);
    assert!(is_int(&runtime.eval(program, &interner, &mut Plain), 1));
    assert_eq!(runtime.steps(), 6);
}

#[test]
fn fault_in_a_callee_removes_its_frame() {
    let (result, runtime) = run(vec![set(1, faulty()), Statement::Expr(call(var(1), vec![]))], 2);
    assert!(matches!(fault(result), Panic::DivisionByZero { .. }));
    assert!(runtime.memory().is_empty());
}

#[test]
fn programs_that_are_not_well_scoped_are_refused() {
    let interner = Interner::new();
    let refused = |statements: Vec<Statement>, root_slots: u32| {
        !leak(statements, root_slots).check(&interner)
    };
    assert!(refused(vec![], 0));
    assert!(refused(vec![Statement::Break], 1));
    assert!(refused(vec![ret(num(1))], 1));
    assert!(refused(vec![Statement::Expr(var(1))], 1));
    assert!(refused(vec![set(1, num(1))], 1));
    assert!(refused(vec![Statement::Expr(Expr::CommandBlock { pos: at(1) })], 1));
    assert!(refused(vec![Statement::Expr(name(Symbol { index: 0 }))], 1));
    assert!(refused(vec![Statement::Expr(function(2, 1, vec![], vec![]))], 1));
    assert!(refused(
        vec![Statement::Expr(function(0, 1, vec![Capture { from: slot(1), to: slot(0) }], vec![]))],
        1
    ));
    assert!(refused(
        vec![Statement::Expr(function(0, 1, vec![Capture { from: slot(0), to: slot(1) }], vec![]))],
        1
    ));
    assert!(refused(vec![Statement::Expr(function(0, 0, vec![], vec![Statement::Break]))], 1));
    assert!(refused(
        vec![Statement::While {
            condition: boolean(true),
            block: Block(vec![Statement::Expr(function(0, 0, vec![], vec![Statement::Break]))]),
        }],
        1
    ));
    assert!(!refused(
        vec![Statement::While { condition: boolean(true), block: Block(vec![Statement::Break]) }],
        1
    ));
    assert!(!refused(vec![Statement::Expr(function(0, 0, vec![], vec![ret(num(1))]))], 1));
}
