use loxrs::error::LoxErr;
use loxrs::interp::machine::{ArithOp, Effect, Interpreter, Signal};
use loxrs::interp::value::Value;
use loxrs::parser::Parser;
use loxrs::resolver::Resolver;
use loxrs::scanner::{number_lexemes, scan, with_numbers};
use loxrs::token::Token;

fn scanned(source: &str) -> Result<Vec<Token>, LoxErr> {
    let failed = |message: &str| LoxErr::Scan { line: 0, col: 0, message: message.to_owned() };
    let tokens = scan(source).map_err(|_| failed("the source does not scan"))?;
    let values: Vec<Option<u64>> = number_lexemes(&tokens)
        .iter()
        .map(|text| text.parse::<f64>().ok().map(f64::to_bits))
        .collect();
    with_numbers(tokens, &values).map_err(|_| failed("a number has no value"))
}

fn tokens_of(source: &str) -> Vec<Token> {
    scanned(source).unwrap()
}

fn arith(op: ArithOp, lhs: u64, rhs: u64) -> u64 {
    let (a, b) = (f64::from_bits(lhs), f64::from_bits(rhs));
    match op {
        ArithOp::Add => a + b,
        ArithOp::Subtract => a - b,
        ArithOp::Multiply => a * b,
        ArithOp::Divide => a / b,
    }
    .to_bits()
}

/// Runs a program to its end and returns what it printed, or the error
/// together with what it had printed by then.
fn run(source: &str) -> Result<Vec<String>, (LoxErr, Vec<String>)> {
    let mut out = Vec::new();
    let tokens = match scanned(source) {
        Ok(tokens) => tokens,
        Err(e) => return Err((e, out)),
    };
    let mut parser = Parser::new(tokens);
    let stmts = match parser.parse() {
        Ok(stmts) => stmts,
        Err(mut errors) => return Err((errors.remove(0), out)),
    };
    let ast = parser.into_ast();
    let mut resolver = Resolver::new();
    if let Err(e) = resolver.resolve(&ast, &stmts) {
        return Err((e, out));
    }
    let mut interpreter = Interpreter::new();
    interpreter.set_locals(resolver.into_locals());
    interpreter.interpret(&stmts);
    let mut steps = 0u64;
    loop {
        steps += 1;
        assert!(steps < 1_000_000, "the program does not end");
        match interpreter.run(&ast, 1000) {
            Ok(Signal::Done) => return Ok(out),
            Ok(Signal::Continue) => {}
            Ok(Signal::Effect(effect)) => match effect {
                Effect::Arith { op, lhs, rhs } => interpreter.resume_number(arith(op, lhs, rhs)),
                Effect::Format(bits) => {
                    if let Err(e) = interpreter.resume_text(&format!("{}", f64::from_bits(bits))) {
                        return Err((e, out));
                    }
                }
                Effect::Clock => interpreter.resume_number(1234.5f64.to_bits()),
                Effect::Print(value) => match interpreter.display(value) {
                    Some(text) => out.push(text),
                    None => match value {
                        Value::Number(bits) => out.push(format!("{}", f64::from_bits(bits))),
                        _ => unreachable!(),
                    },
                },
            },
            Err(e) => return Err((e, out)),
        }
    }
}

fn prints(source: &str) -> Vec<String> {
    match run(source) {
        Ok(out) => out,
        Err((e, _)) => panic!("{:?}", e),
    }
}

fn fails(source: &str) -> LoxErr {
    run(source).unwrap_err().0
}

#[test]
fn closure_capture() {
    assert_eq!(
        prints("var x=1; fun make(){ var y=2; fun inner(){ print x+y; } return inner; } make()();"),
        vec!["3"]
    );
}

#[test]
fn class_with_inheritance_and_super() {
    assert_eq!(
        prints(
            "class A { greet(){ print \"A\"; } } class B < A { greet(){ super.greet(); print \"B\"; } } B().greet();"
        ),
        vec!["A", "B"]
    );
}

#[test]
fn initializer_enforcement() {
    match fails("class C { init(){ return 5; } }") {
        LoxErr::Resolve { message } => {
            assert!(message.contains("Can't return a value from class initializer"))
        }
        other => panic!("{:?}", other),
    }
}

#[test]
fn this_outside_class() {
    assert!(matches!(fails("print this;"), LoxErr::Resolve { .. }));
}

#[test]
fn arithmetic_precedence() {
    assert_eq!(prints("print 1 + 2 * 3;"), vec!["7"]);
}

#[test]
fn values_are_written_as_the_language_writes_them() {
    assert_eq!(
        prints("print nil; print true; print false; print 1.5; print 10; print \"hi\"; print -0.5;"),
        vec!["nil", "true", "false", "1.5", "10", "hi", "-0.5"]
    );
    assert_eq!(
        prints("class Foo {} fun f() {} print Foo; print Foo(); print f; print clock;"),
        vec!["[<Class Foo>]", "[<Instance Foo>]", "[<function>]", "[<native fn>clock]"]
    );
}

#[test]
fn truthiness() {
    assert_eq!(
        prints(
            "if (nil) print 1; else print 2; if (false) print 1; else print 2; if (0) print 3; if (\"\") print 4;"
        ),
        vec!["2", "2", "3", "4"]
    );
    assert_eq!(prints("print !nil; print !0; print !!\"\";"), vec!["true", "false", "true"]);
}

#[test]
fn equality() {
    assert_eq!(
        prints(
            "print 1 == 1; print 1 == 2; print \"a\" == \"a\"; print \"a\" == \"b\"; print nil == nil; print nil == false; print 1 == \"1\"; print 0 == -0; print 1 != 2;"
        ),
        vec!["true", "false", "true", "false", "true", "false", "false", "true", "true"]
    );
    assert_eq!(prints("print \"a\" + \"b\" == \"ab\";"), vec!["true"]);
    assert_eq!(
        prints("class A {} var a = A(); var b = A(); print a == a; print a == b; print A == A;"),
        vec!["true", "false", "true"]
    );
}

#[test]
fn plus_joins_strings_and_numbers() {
    assert_eq!(
        prints("print \"a\" + \"b\"; print \"a\" + 1; print 1.5 + \"b\"; print 1 + 2;"),
        vec!["ab", "a1", "1.5b", "3"]
    );
    assert!(matches!(fails("print nil + 1;"), LoxErr::Eval { .. }));
    assert!(matches!(fails("print \"a\" - \"b\";"), LoxErr::Eval { .. }));
    assert!(matches!(fails("print true + true;"), LoxErr::Eval { .. }));
}

#[test]
fn arithmetic_and_comparison() {
    assert_eq!(
        prints("print 7 - 2 * 3; print (1 + 2) * 3; print 1 / 4; print -(-3); print 2 < 3; print 2 >= 3; print 3 <= 3; print 4 > 3;"),
        vec!["1", "9", "0.25", "3", "true", "false", "true", "true"]
    );
    assert!(matches!(fails("print -\"a\";"), LoxErr::Eval { .. }));
    assert!(matches!(fails("print 1 < \"a\";"), LoxErr::Eval { .. }));
}

#[test]
fn division_by_zero_is_an_error() {
    match fails("print 1 / 0;") {
        LoxErr::Eval { message, .. } => assert_eq!(message, "Division by zero"),
        other => panic!("{:?}", other),
    }
    assert!(matches!(fails("print 1 / -0;"), LoxErr::Eval { .. }));
    assert_eq!(prints("print 0 / 5;"), vec!["0"]);
}

#[test]
fn logical_operators_return_an_operand() {
    assert_eq!(
        prints("print 1 and 2; print nil and 2; print false or 3; print 1 or 2; print nil or false;"),
        vec!["2", "nil", "3", "1", "false"]
    );
    assert_eq!(
        prints("var a = 0; fun f() { a = a + 1; return true; } false and f(); true or f(); print a;"),
        vec!["0"]
    );
}

#[test]
fn variables_and_scopes() {
    assert_eq!(
        prints("var a = 1; { var a = 2; print a; { a = 3; } print a; } print a;"),
        vec!["2", "3", "1"]
    );
    assert_eq!(prints("var a; print a; a = 2; print a;"), vec!["nil", "2"]);
    assert_eq!(prints("var a = 1; var b = a = 2; print a + b;"), vec!["4"]);
    assert!(matches!(fails("print missing;"), LoxErr::Undefined { .. }));
}

#[test]
fn closures_keep_their_scope() {
    assert_eq!(
        prints(
            "fun counter() { var n = 0; fun next() { n = n + 1; return n; } return next; } var c = counter(); var d = counter(); c(); print c(); print d();"
        ),
        vec!["2", "1"]
    );
    assert_eq!(
        prints(
            "var a = \"global\"; { fun show() { print a; } show(); var a = \"block\"; a = a; show(); }"
        ),
        vec!["global", "global"]
    );
    assert_eq!(prints("var f = fun (a, b) { return a + b; }; print f(1, 2);"), vec!["3"]);
}

#[test]
fn control_flow() {
    assert_eq!(
        prints("var i = 0; while (i < 3) { print i; i = i + 1; }"),
        vec!["0", "1", "2"]
    );
    assert_eq!(
        prints("for (var i = 0; i < 3; i = i + 1) print i;"),
        vec!["0", "1", "2"]
    );
    assert_eq!(prints("for (;;) print 1; print 2;"), vec!["2"]);
    assert_eq!(
        prints("fun f(n) { while (true) { if (n > 2) return n; n = n + 1; } } print f(0);"),
        vec!["3"]
    );
    assert_eq!(prints("fun f() { } print f();"), vec!["nil"]);
    assert_eq!(
        prints("fun fib(n) { if (n < 2) return n; return fib(n - 1) + fib(n - 2); } print fib(15);"),
        vec!["610"]
    );
}

#[test]
fn calls_check_what_is_called() {
    assert!(matches!(fails("var a = 1; a();"), LoxErr::Eval { .. }));
    match fails("fun f(a) {} f();") {
        LoxErr::Eval { message, .. } => assert_eq!(message, "Expected 1 args but got 0"),
        other => panic!("{:?}", other),
    }
    match fails("fun f() {} f(1,2,3,4,5,6,7,8,9,10,11,12);") {
        LoxErr::Eval { message, .. } => assert_eq!(message, "Expected 0 args but got 12"),
        other => panic!("{:?}", other),
    }
    assert!(matches!(fails("fun f(a) {} f(1, 2);"), LoxErr::Eval { .. }));
    assert!(matches!(fails("class A { init(a) {} } A();"), LoxErr::Eval { .. }));
    assert!(matches!(fails("class A {} A(1);"), LoxErr::Eval { .. }));
    assert_eq!(
        prints("var n = 0; fun a() { n = n * 10 + 1; return 1; } fun b() { n = n * 10 + 2; return 2; } fun f(x, y) {} f(a(), b()); print n;"),
        vec!["12"]
    );
    let (e, out) = run("fun f(a) {} print 1; f(missing); print 2;").unwrap_err();
    assert!(matches!(e, LoxErr::Undefined { .. }));
    assert_eq!(out, vec!["1"]);
}

#[test]
fn the_clock_is_the_hosts() {
    assert_eq!(prints("print clock();"), vec!["1234.5"]);
    assert!(matches!(fails("clock = 1;"), LoxErr::Eval { .. }));
    assert!(matches!(fails("clock(1);"), LoxErr::Eval { .. }));
}

#[test]
fn instances_have_fields_and_methods() {
    assert_eq!(
        prints(
            "class P { init(x) { this.x = x; } get() { return this.x; } } var p = P(4); print p.x; print p.get(); p.x = p.x + 1; print p.get(); p.y = \"new\"; print p.y;"
        ),
        vec!["4", "4", "5", "new"]
    );
    assert_eq!(
        prints("class A { m() { return 1; } } var a = A(); a.m = 2; print a.m;"),
        vec!["2"]
    );
    assert_eq!(
        prints("class A { init() { this.v = 7; } } var a = A(); print a.init().v;"),
        vec!["7"]
    );
    assert_eq!(
        prints("class A { m() { return this; } } var a = A(); var m = a.m; print m() == a;"),
        vec!["true"]
    );
    assert!(matches!(fails("class A {} A().missing;"), LoxErr::Undefined { .. }));
    assert!(matches!(fails("var a = 1; a.b;"), LoxErr::Eval { .. }));
    assert!(matches!(fails("var a = 1; a.b = 2;"), LoxErr::Eval { .. }));
}

#[test]
fn methods_are_inherited() {
    assert_eq!(
        prints(
            "class A { a() { return \"a\"; } who() { return \"A\"; } } class B < A { who() { return \"B\" + super.who(); } } class C < B {} var c = C(); print c.a(); print c.who();"
        ),
        vec!["a", "BA"]
    );
    assert_eq!(
        prints(
            "class A { init(x) { this.x = x; } } class B < A { init(x) { super.init(x + 1); } } print B(1).x;"
        ),
        vec!["2"]
    );
    assert!(matches!(fails("var A = 1; class B < A {}"), LoxErr::Eval { .. }));
    assert!(matches!(
        fails("class A {} class B < A { m() { super.none(); } } B().m();"),
        LoxErr::Undefined { .. }
    ));
}

#[test]
fn a_run_can_be_taken_up_again() {
    let mut parser = Parser::new(tokens_of("var i = 0; while (true) i = i;"));
    let stmts = parser.parse().unwrap();
    let ast = parser.into_ast();
    let mut interpreter = Interpreter::new();
    interpreter.interpret(&stmts);
    for _ in 0..10 {
        assert_eq!(interpreter.run(&ast, 100).unwrap(), Signal::Continue);
    }
    assert_eq!(interpreter.scope(), 0);
    interpreter.resolve(9999, 3);
    assert_eq!(interpreter.step(&ast).unwrap(), Signal::Continue);
}

/// Whether every one of `programs` runs to its end without an error.
fn all_run(programs: &[&str]) -> bool {
    programs.iter().all(|source| run(source).is_ok())
}

/// Whether every one of `programs` ends with an error.
fn all_fail(programs: &[&str]) -> bool {
    programs.iter().all(|source| run(source).is_err())
}

#[test]
fn e2e_pass() {
    assert!(all_run(&[
        "print 1;",
        "var a = 1; var b = 2; print a + b;",
        "fun add(a, b) { return a + b; } print add(1, 2);",
        "class Counter { init() { this.n = 0; } up() { this.n = this.n + 1; return this.n; } } var c = Counter(); c.up(); print c.up();",
        "var t = clock(); print t >= 0;",
        "for (var i = 0; i < 10; i = i + 1) { if (i > 5) print i; else print -i; }",
    ]));
}

#[test]
fn e2e_fail() {
    assert!(all_fail(&[
        "print ;",
        "print \"unterminated;",
        "print undefined_variable;",
        "print 1 / 0;",
        "print this;",
        "return 1;",
        "{ var a = 1; var a = 2; }",
        "class A < A {}",
        "var a = 1 + nil;",
        "@",
    ]));
}

#[test]
fn spec_samples() {
    assert!(all_run(&[
        "print \"Hello, world!\";",
        "var breakfast = \"bagels\"; print breakfast; breakfast = \"beignets\"; print breakfast;",
        "if (1 < 2 and 2 < 3) { print \"yes\"; } else { print \"no\"; }",
        "var a = 1; while (a < 10) { print a; a = a + 1; }",
        "fun printSum(a, b) { print a + b; } printSum(1, 2);",
        "fun returnFunction() { var outside = \"outside\"; fun inner() { print outside; } return inner; } var fn = returnFunction(); fn();",
        "class Breakfast { cook() { print \"Eggs a-fryin'!\"; } serve(who) { print \"Enjoy your breakfast, \" + who + \".\"; } } var b = Breakfast(); b.cook(); b.serve(\"you\");",
        "class Breakfast { init(meat, bread) { this.meat = meat; this.bread = bread; } } class Brunch < Breakfast { init(meat, bread, drink) { super.init(meat, bread); this.drink = drink; } } var b = Brunch(\"ham\", \"toast\", \"tea\"); print b.meat + b.drink;",
    ]));
}

#[test]
fn spec_assignment() {
    assert_eq!(
        prints("var a = \"a\"; var b = \"b\"; var c = \"c\"; a = b = c; print a; print b; print c;"),
        vec!["c", "c", "c"]
    );
    assert_eq!(
        prints("var a = \"before\"; print a; a = \"after\"; print a; print a = \"arg\"; print a;"),
        vec!["before", "after", "arg", "arg"]
    );
    assert_eq!(
        prints("{ var a = \"before\"; print a; a = \"after\"; print a; print a = \"arg\"; print a; }"),
        vec!["before", "after", "arg", "arg"]
    );
    assert_eq!(
        prints("var a = \"before\"; var c = a = \"var\"; print a; print c;"),
        vec!["var", "var"]
    );
}

#[test]
fn spec_block() {
    assert_eq!(prints("{} if (true) {} if (false) {} else {} print \"ok\";"), vec!["ok"]);
    assert_eq!(
        prints("var a = \"outer\"; { var a = \"inner\"; print a; } print a;"),
        vec!["inner", "outer"]
    );
}

#[test]
fn spec_bool() {
    assert_eq!(
        prints(
            "print true == true; print true == false; print false == true; print false == false; print true == 1; print false == 0; print true == \"true\"; print false == \"false\"; print false == \"\"; print true != true; print true != false; print true != 1;"
        ),
        vec![
            "true", "false", "false", "true", "false", "false", "false", "false", "false",
            "false", "true", "true"
        ]
    );
    assert_eq!(prints("print !true; print !false; print !!true;"), vec!["false", "true", "true"]);
}

#[test]
fn spec_call() {
    assert!(all_fail(&[
        "true();",
        "nil();",
        "123();",
        "\"str\"();",
        "class Foo {} var foo = Foo(); foo();",
    ]));
}

#[test]
fn spec_closure() {
    assert_eq!(
        prints(
            "var f; var g; { var local = \"local\"; fun f_() { print local; local = \"after f\"; print local; } f = f_; fun g_() { print local; local = \"after g\"; print local; } g = g_; } f(); g();"
        ),
        vec!["local", "after f", "after f", "after g"]
    );
    assert_eq!(
        prints("var f; fun foo(param) { fun f_() { print param; } f = f_; } foo(\"param\"); f();"),
        vec!["param"]
    );
    assert_eq!(
        prints("fun f() { var a = \"a\"; var b = \"b\"; fun g() { print b; print a; } g(); } f();"),
        vec!["b", "a"]
    );
    assert_eq!(
        prints(
            "var f; fun f1() { var a = \"a\"; fun f2() { var b = \"b\"; fun f3() { var c = \"c\"; fun f4() { print a; print b; print c; } f = f4; } f3(); } f2(); } f1(); f();"
        ),
        vec!["a", "b", "c"]
    );
    assert_eq!(
        prints("var f; class Foo { method(param) { fun f_() { print param; } f = f_; } } Foo().method(\"param\"); f();"),
        vec!["param"]
    );
    assert_eq!(
        prints("{ var f; { var a = \"a\"; fun f_() { print a; } f = f_; } { var b = \"b\"; f(); b = b; } }"),
        vec!["a"]
    );
    assert_eq!(
        prints("{ var a = \"closure\"; fun f() { { print a; var a = \"shadow\"; print a; a = a; } print a; } f(); }"),
        vec!["closure", "shadow", "closure"]
    );
}

/// Runs `source` to its end and returns the evaluator.
fn evaluator_after(source: &str) -> Interpreter {
    let mut parser = Parser::new(tokens_of(source));
    let stmts = parser.parse().unwrap();
    let ast = parser.into_ast();
    let mut resolver = Resolver::new();
    resolver.resolve(&ast, &stmts).unwrap();
    let mut interpreter = Interpreter::new();
    interpreter.set_locals(resolver.into_locals());
    interpreter.interpret(&stmts);
    loop {
        match interpreter.run(&ast, usize::MAX).unwrap() {
            Signal::Done => return interpreter,
            Signal::Continue => {}
            Signal::Effect(effect) => match effect {
                Effect::Arith { op, lhs, rhs } => interpreter.resume_number(arith(op, lhs, rhs)),
                Effect::Format(bits) => {
                    interpreter.resume_text(&format!("{}", f64::from_bits(bits))).unwrap();
                }
                Effect::Clock => interpreter.resume_number(0),
                Effect::Print(_) => {}
            },
        }
    }
}

#[test]
fn scopes_of_blocks_and_calls_are_released() {
    let after = evaluator_after(
        "fun twice(n) { var m = n * 2; return m; } var i = 0; var sum = 0; while (i < 2000) { var t = twice(i); { sum = sum + t; } i = i + 1; }",
    );
    assert_eq!(after.heap.scopes_len(), 1);
    let after = evaluator_after(
        "fun fib(n) { if (n < 2) return n; return fib(n - 1) + fib(n - 2); } print fib(12);",
    );
    assert_eq!(after.heap.scopes_len(), 1);
    let after = evaluator_after(
        "class A { init() { this.x = 1; } } var i = 0; while (i < 100) { var a = A(); a = a; i = i + 1; }",
    );
    assert_eq!(after.heap.scopes_len(), 1);
}

#[test]
fn scopes_that_functions_point_into_are_kept() {
    let after = evaluator_after(
        "var f; { var a = 1; { var b = 2; fun g() { return a + b; } f = g; } } var i = 0; while (i < 10) { { var c = f(); c = c; } i = i + 1; }",
    );
    assert_eq!(after.heap.scopes_len(), 3);
    assert_eq!(
        prints(
            "var f; { var a = 1; fun g() { a = a + 1; return a; } f = g; } { var other = 10; other = other; } fun h(x) { return x; } h(0); print f(); print f();"
        ),
        vec!["2", "3"]
    );
    assert_eq!(
        prints(
            "class A { init(v) { this.v = v; } get() { return this.v; } } var m = A(7).get; var n = A(8).get; fun noise(x) { var y = x; return y; } noise(1); noise(2); print m(); print n();"
        ),
        vec!["7", "8"]
    );
}
