use loxrs::ast::{Ast, ExprKind};
use loxrs::error::LoxErr;
use loxrs::parser::Parser;
use loxrs::resolver::{Locals, Resolver};
use loxrs::scanner::{number_lexemes, scan, with_numbers};
use loxrs::token::Token;

fn tokens_of(source: &str) -> Vec<Token> {
    let tokens = scan(source).unwrap();
    let values: Vec<Option<u64>> = number_lexemes(&tokens)
        .iter()
        .map(|text| text.parse::<f64>().ok().map(f64::to_bits))
        .collect();
    with_numbers(tokens, &values).unwrap()
}

fn resolve(source: &str) -> (Ast, Result<Locals, LoxErr>) {
    let mut parser = Parser::new(tokens_of(source));
    let stmts = parser.parse().unwrap();
    let ast = parser.into_ast();
    let mut resolver = Resolver::new();
    let result = resolver.resolve(&ast, &stmts);
    (ast, result.map(|_| resolver.into_locals()))
}

fn message(source: &str) -> String {
    match resolve(source).1 {
        Err(LoxErr::Resolve { message }) => message,
        Err(other) => format!("{:?}", other),
        Ok(_) => "resolved".to_owned(),
    }
}

/// The depths of the uses of `name`, in source order; `None` for a global use.
fn depths(source: &str, name: &str) -> Vec<Option<usize>> {
    let (ast, locals) = resolve(source);
    let locals = locals.unwrap();
    // The left side of an assignment is parsed as a variable first; that
    // node is not part of the tree.
    let targets: Vec<usize> = (0..ast.len())
        .filter_map(|i| match ast.expr(i) {
            Some(ExprKind::Assign(a)) => Some(a.name),
            _ => None,
        })
        .collect();
    (0..ast.len())
        .filter(|i| match ast.expr(*i) {
            Some(ExprKind::Var(t)) => ast.name(t).unwrap() == name && !targets.contains(&t),
            Some(ExprKind::Assign(a)) => ast.name(a.name).unwrap() == name,
            Some(ExprKind::This(_)) => name == "this",
            Some(ExprKind::Super(_)) => name == "super",
            _ => false,
        })
        .map(|i| locals.get(i))
        .collect()
}

#[test]
fn globals_are_not_recorded() {
    assert_eq!(depths("var a = 1; print a; a = 2;", "a"), vec![None, None]);
    assert_eq!(depths("print undefined_anywhere;", "undefined_anywhere"), vec![None]);
}

#[test]
fn depth_counts_the_scopes_in_between() {
    assert_eq!(depths("{ var a = 1; print a; }", "a"), vec![Some(0)]);
    assert_eq!(depths("{ var a = 1; { print a; } }", "a"), vec![Some(1)]);
    assert_eq!(depths("{ var a = 1; { { a = 2; } } }", "a"), vec![Some(2)]);
    assert_eq!(
        depths("{ var a = 1; { var a = 2; print a; } print a; }", "a"),
        vec![Some(0), Some(0)]
    );
}

#[test]
fn parameters_and_body_are_two_scopes() {
    assert_eq!(depths("fun f(a) { print a; }", "a"), vec![Some(1)]);
    assert_eq!(depths("fun f(a) { { print a; } }", "a"), vec![Some(2)]);
    assert_eq!(
        depths("{ var x = 1; fun make() { var y = 2; fun inner() { print x + y; } } }", "x"),
        vec![Some(4)]
    );
    assert_eq!(
        depths("{ var x = 1; fun make() { var y = 2; fun inner() { print x + y; } } }", "y"),
        vec![Some(2)]
    );
}

#[test]
fn this_and_super_live_in_scopes_of_their_own() {
    assert_eq!(depths("class A { m() { print this; } }", "this"), vec![Some(2)]);
    assert_eq!(
        depths("class A {} class B < A { m() { super.m(); this.m(); } }", "super"),
        vec![Some(3)]
    );
    assert_eq!(
        depths("class A {} class B < A { m() { super.m(); this.m(); } }", "this"),
        vec![Some(2)]
    );
}

#[test]
fn static_rules() {
    assert_eq!(message("print this;"), "Can't use the `this` keyword outside a class statement.");
    assert_eq!(
        message("fun f() { this; }"),
        "Can't use the `this` keyword outside a class statement."
    );
    assert_eq!(
        message("super.x;"),
        "Can't use the `super` keyword outside a class statement."
    );
    assert_eq!(
        message("class A { m() { super.m(); } }"),
        "Can't use the `super` keyword in a class without subclass."
    );
    assert_eq!(message("return 1;"), "Can't return from non-function scope");
    assert_eq!(
        message("class C { init(){ return 5; } }"),
        "Can't return a value from class initializer"
    );
    assert_eq!(message("class C { init(){ return; } }"), "resolved");
    assert_eq!(message("class C { m(){ return 5; } }"), "resolved");
    assert_eq!(message("class A < A {}"), "classes cannot inherit from themselves");
    assert_eq!(
        message("{ var a = 1; var a = 2; }"),
        "Variable already declared in current scope: a"
    );
    assert_eq!(message("fun f(a, a) {}"), "Variable already declared in current scope: a");
    assert_eq!(
        message("{ var a = a; }"),
        "Can't read local variable from its own initializer: a"
    );
    assert_eq!(message("var a = 1; var a = 2;"), "resolved");
}

#[test]
fn a_local_that_is_never_assigned_is_reported() {
    assert_eq!(message("{ var a; }"), "Variable not assigned: a");
    assert_eq!(message("{ var a; var b = 1; }"), "Variable not assigned: a");
    assert_eq!(message("{ var a; a = 1; }"), "resolved");
    assert_eq!(message("{ var a; { a = 1; } }"), "resolved");
    assert_eq!(message("var a;"), "resolved");
}

#[test]
fn resolving_again_gives_the_same_depths() {
    let source = "{ var a = 1; fun f(b) { return a + b; } print f(a); }";
    let mut parser = Parser::new(tokens_of(source));
    let stmts = parser.parse().unwrap();
    let ast = parser.into_ast();
    let mut first = Resolver::new();
    first.resolve(&ast, &stmts).unwrap();
    let once: Vec<Option<usize>> = (0..ast.len()).map(|i| first.locals().get(i)).collect();
    let mut second = Resolver::with_locals(first.into_locals());
    second.resolve(&ast, &stmts).unwrap();
    let twice: Vec<Option<usize>> = (0..ast.len()).map(|i| second.locals().get(i)).collect();
    assert_eq!(once, twice);
    assert!(once.iter().any(|d| d.is_some()));
}
