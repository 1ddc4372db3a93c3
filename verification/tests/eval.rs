//! End-to-end runs: source text in, printed output out.
use pijama::run;
use pijama::run_with_fuel;
use pijama::LangError;

#[test]
fn arithmetic() {
    let input = "print((5 + 6) * (5 + 6))";
    let output = run(input).unwrap();
    assert_eq!("121\n", output);
}

#[test]
fn logic() {
    let input = "print((true && false) || (false && true))";
    let output = run(input).unwrap();
    assert_eq!("0\n", output);
}

#[test]
fn factorial() {
    let input = "fn rec fact(n: Int): Int do\n    if n == 0 do 1 else n * fact(n - 1) end\nend\nprint(fact(10))";
    let output = run(input).unwrap();
    assert_eq!("3628800\n", output);
}

#[test]
fn factorial_tail() {
    let input = "fn rec go(n: Int, acc: Int): Int do\n    if n == 0 do acc else go(n - 1, acc * n) end\nend\nprint(go(10, 1))";
    let output = run(input).unwrap();
    assert_eq!("3628800\n", output);
}

#[test]
fn fancy_max() {
    let input = "fn max(a: Int, b: Int): Int do\n    if a > b do a else b end\nend\nprint(max(7, max(10, 3)))";
    let output = run(input).unwrap();
    assert_eq!("10\n", output);
}

#[test]
fn fibonacci() {
    let input = "fn rec fib(n: Int): Int do\n    if n < 2 do n else fib(n - 1) + fib(n - 2) end\nend\nprint(fib(8))";
    let output = run(input).unwrap();
    assert_eq!("21\n", output);
}

#[test]
fn fibonacci_tail() {
    let input = "fn rec go(n: Int, a: Int, b: Int): Int do\n    if n == 0 do a else go(n - 1, b, a + b) end\nend\nprint(go(8, 0, 1))";
    let output = run(input).unwrap();
    assert_eq!("21\n", output);
}

#[test]
fn gcd() {
    let input = "fn rec gcd(a: Int, b: Int): Int do\n    if b == 0 do a else gcd(b, a % b) end\nend\nprint(gcd(9, 7))";
    let output = run(input).unwrap();
    assert_eq!("1\n", output);
}

#[test]
fn ackermann() {
    let input = "fn rec ack(m: Int, n: Int): Int do\n    if m == 0 do\n        n + 1\n    else if n == 0 do\n        ack(m - 1, 1)\n    else\n        ack(m - 1, ack(m, n - 1))\n    end\nend\nprint(ack(2, 1))";
    let output = run(input).unwrap();
    assert_eq!("5\n", output);
}

#[test]
fn calling() {
    let input = "fn apply(f: Int -> Int, x: Int): Int do f(x) end\nfn inc(x: Int): Int do x + 1 end\nprint(apply(inc, 0))";
    let output = run(input).unwrap();
    assert_eq!("1\n", output);
}

#[test]
fn complex_calling() {
    let input = "fn plus(a: Int): Int -> Int do\n    fn (b: Int) do a + b end\nend\nprint(plus(1)(0))";
    let output = run(input).unwrap();
    assert_eq!("1\n", output);
}

#[test]
fn step() {
    let input = "fn step(x: Int): Int do\n    if x < 0 do 0 else 1 end\nend\nprint(step(5))";
    let output = run(input).unwrap();
    assert_eq!("1\n", output);
}

#[test]
fn bit_and() {
    let output = run("print(0xFF & 0x40)").unwrap();
    assert_eq!("64\n", output);
}

#[test]
fn bit_or() {
    let output = run("print(0xC0 | 0x00)").unwrap();
    assert_eq!("192\n", output);
}

#[test]
fn bit_xor() {
    let output = run("print(0xFF ^ 0x7F)").unwrap();
    assert_eq!("128\n", output);
}

#[test]
fn bit_shift_l() {
    let output = run("print(1 << 7)").unwrap();
    assert_eq!("128\n", output);
}

#[test]
fn bit_shift_r() {
    let output = run("print(128 >> 2)").unwrap();
    assert_eq!("32\n", output);
}

#[test]
fn or_short_circuit() {
    let input = "fn rec spin(x: Int): Int do spin(x) end\nprint(true || spin(0) == 0)";
    let output = run(input).unwrap();
    assert_eq!("1\n", output);
}

#[test]
fn and_short_circuit() {
    let input = "fn rec spin(x: Int): Int do spin(x) end\nprint(false && spin(0) == 0)";
    let output = run(input).unwrap();
    assert_eq!("0\n", output);
}

#[test]
fn print_simple() {
    let output = run("print(10)").unwrap();
    assert_eq!("10\n", output);
}

#[test]
fn print_simple_fn() {
    let input = "fn f(x: Int): Int do x end\nprint(f)";
    let output = run(input).unwrap();
    assert_eq!("(\u{03bb}. _0)\n", output);
}

#[test]
fn print_complex_fn() {
    let input = "fn f(x: Int, y: Int): Int do x + y end\nprint(f(0, 1))";
    let output = run(input).unwrap();
    assert_eq!("1\n", output);
}

#[test]
fn print_print() {
    let input = "print(10)\nprint(false)";
    let output = run(input).unwrap();
    assert_eq!("10\n0\n", output);
}

#[test]
fn print_redefine() {
    let input = "print = 10\nprint(print)";
    let err = run(input).unwrap_err();
    assert!(matches!(err, LangError::Parse(_)));
}

#[test]
fn number_bases_cmp() {
    let output = run("print(0xFF == 255)").unwrap();
    assert_eq!("1\n", output);
}

#[test]
fn number_bases_arithmetic() {
    let output = run("print(0x200000 + 0o100000 + 0b1000 + 141604)").unwrap();
    assert_eq!("2271532\n", output);
}

#[test]
fn add_overflow_panics() {
    let err = run("print(9223372036854775807 + 1)").unwrap_err();
    assert!(matches!(err, LangError::Eval(pijama::machine::EvalError::Overflow(_, _))));
}

#[test]
fn neg_overflow_panics() {
    let err = run("print(-(0 - 9223372036854775807 - 1))").unwrap_err();
    assert!(matches!(err, LangError::Eval(pijama::machine::EvalError::Overflow(_, _))));
}

#[test]
fn tail_recursion_budget() {
    let fact = "fn rec go(n: Int, acc: Int): Int do\n    if n == 0 do acc else go(n - 1, acc * n) end\nend\nprint(go(10, 1))";
    assert_eq!("3628800\n", run_with_fuel(fact, 100000).unwrap());
    let fib = "fn rec go(n: Int, a: Int, b: Int): Int do\n    if n == 0 do a else go(n - 1, b, a + b) end\nend\nprint(go(10, 0, 1))";
    assert_eq!("55\n", run_with_fuel(fib, 100000).unwrap());
}

#[test]
fn print_unit_value() {
    let output = run("print(unit)").unwrap();
    assert_eq!("unit\n", output);
}

#[test]
fn print_negative_number() {
    let output = run("print(0 - 129)").unwrap();
    assert_eq!("-129\n", output);
}

#[test]
fn arithmetic_tree() {
    let output = run("print((1 + 2) * (3 + 4 * 10))").unwrap();
    assert_eq!("129\n", output);
}

#[test]
fn division_truncates() {
    assert_eq!("3\n", run("print(7 / 2)").unwrap());
    assert_eq!("-3\n", run("print((0 - 7) / 2)").unwrap());
    assert_eq!("-1\n", run("print((0 - 7) % 2)").unwrap());
    assert_eq!("1\n", run("print(7 % (0 - 2))").unwrap());
}

#[test]
fn div_by_zero_reported() {
    let err = run("print(1 / 0)").unwrap_err();
    assert!(matches!(err, LangError::Eval(pijama::machine::EvalError::DivByZero(_))));
}

#[test]
fn shift_out_of_range_overflows() {
    let err = run("print(1 << 64)").unwrap_err();
    assert!(matches!(err, LangError::Eval(pijama::machine::EvalError::Overflow(_, _))));
}

#[test]
fn let_binding_shadows() {
    let input = "x = 1\nx = x + 1\nprint(x)";
    let output = run(input).unwrap();
    assert_eq!("2\n", output);
}

#[test]
fn same_source_same_output() {
    let input = "fn rec fib(n: Int): Int do\n    if n < 2 do n else fib(n - 1) + fib(n - 2) end\nend\nprint(fib(8))";
    let first = run(input).unwrap();
    let second = run(input).unwrap();
    assert_eq!(first, second);
    assert_eq!("21\n", first);
}

#[test]
fn print_recursive_fn() {
    let input = "fn rec f(n: Int): Int do f(n) end\nprint(f)";
    let output = run(input).unwrap();
    assert_eq!("(\u{03bb}. (_1 _0))\n", output);
}

#[test]
fn closure_captures_environment() {
    let input = "fn plus(a: Int): Int -> Int do\n    fn (b: Int) do a + b end\nend\nadder = plus(40)\nprint(adder(2))\nprint(adder(60))";
    let output = run(input).unwrap();
    assert_eq!("42\n100\n", output);
}

#[test]
fn rem_overflow_reported() {
    let err = run("print((0 - 9223372036854775807 - 1) % (0 - 1))").unwrap_err();
    assert!(matches!(err, LangError::Eval(pijama::machine::EvalError::Overflow(_, _))));
}
