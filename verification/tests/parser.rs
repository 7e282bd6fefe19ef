use loxrs::ast::{Ast, ExprKind, Lit, Stmt};
use loxrs::error::LoxErr;
use loxrs::parser::Parser;
use loxrs::scanner::{number_lexemes, scan, with_numbers};
use loxrs::token::{Token, TokenType};

fn tokens_of(source: &str) -> Vec<Token> {
    let tokens = scan(source).unwrap();
    let values: Vec<Option<u64>> = number_lexemes(&tokens)
        .iter()
        .map(|text| text.parse::<f64>().ok().map(f64::to_bits))
        .collect();
    with_numbers(tokens, &values).unwrap()
}

fn parse(source: &str) -> (Ast, Result<Vec<usize>, Vec<LoxErr>>) {
    let mut parser = Parser::new(tokens_of(source));
    let result = parser.parse();
    (parser.into_ast(), result)
}

fn items(ast: &Ast, list: loxrs::ast::List) -> Vec<usize> {
    (0..list.len).map(|i| ast.item(list, i).unwrap()).collect()
}

/// Writes an expression with every operator application in parentheses.
fn show(ast: &Ast, id: usize) -> String {
    let op = |t: usize| ast.token_type(t).text();
    match ast.expr(id).unwrap() {
        ExprKind::Literal(Lit::Nil) => "nil".to_owned(),
        ExprKind::Literal(Lit::Boolean(b)) => format!("{}", b),
        ExprKind::Literal(Lit::Number(bits)) => format!("{}", f64::from_bits(bits)),
        ExprKind::Literal(Lit::String(t)) => format!("{:?}", ast.string(t)),
        ExprKind::Var(t) => ast.name(t).unwrap().to_owned(),
        ExprKind::This(_) => "this".to_owned(),
        ExprKind::Super(s) => format!("super.{}", ast.name(s.method).unwrap()),
        ExprKind::Grouping(g) => format!("(group {})", show(ast, g.expression)),
        ExprKind::Unary(u) => format!("({} {})", op(u.operator), show(ast, u.right)),
        ExprKind::Binary(b) => {
            format!("({} {} {})", op(b.operator), show(ast, b.left), show(ast, b.right))
        }
        ExprKind::Logical(b) => {
            format!("({} {} {})", op(b.operator), show(ast, b.left), show(ast, b.right))
        }
        ExprKind::Assign(a) => {
            format!("(= {} {})", ast.name(a.name).unwrap(), show(ast, a.expression))
        }
        ExprKind::Get(g) => format!("(. {} {})", show(ast, g.expr), ast.name(g.name).unwrap()),
        ExprKind::SetField(s) => format!(
            "(.= {} {} {})",
            show(ast, s.target),
            ast.name(s.name).unwrap(),
            show(ast, s.value)
        ),
        ExprKind::Call(c) => {
            let args: Vec<String> = items(ast, c.args).iter().map(|a| show(ast, *a)).collect();
            format!("(call {} [{}])", show(ast, c.callee), args.join(" "))
        }
        ExprKind::Function(f) => {
            let params: Vec<String> = items(ast, f.params)
                .iter()
                .map(|p| ast.name(*p).unwrap().to_owned())
                .collect();
            format!("(fun [{}] {})", params.join(" "), block(ast, f.body.stmts))
        }
    }
}

fn block(ast: &Ast, list: loxrs::ast::List) -> String {
    let stmts: Vec<String> = items(ast, list).iter().map(|s| show_stmt(ast, *s)).collect();
    format!("{{{}}}", stmts.join(" "))
}

fn show_stmt(ast: &Ast, id: usize) -> String {
    match ast.stmt(id).unwrap() {
        Stmt::Expr(s) => format!("{};", show(ast, s.expr)),
        Stmt::Print(s) => format!("print {};", show(ast, s.expr)),
        Stmt::Return(s) => format!("return {};", show(ast, s.val)),
        Stmt::Var(s) => match s.expr {
            Some(e) => format!("var {} = {};", ast.name(s.token).unwrap(), show(ast, e)),
            None => format!("var {};", ast.name(s.token).unwrap()),
        },
        Stmt::Block(s) => block(ast, s.stmts),
        Stmt::If(s) => match s.else_stmt {
            Some(e) => format!(
                "if {} {} else {}",
                show(ast, s.cond),
                show_stmt(ast, s.then_branch),
                show_stmt(ast, e)
            ),
            None => format!("if {} {}", show(ast, s.cond), show_stmt(ast, s.then_branch)),
        },
        Stmt::While(s) => format!("while {} {}", show(ast, s.expr), show_stmt(ast, s.stmt)),
        Stmt::Fun(s) => {
            let params: Vec<String> = items(ast, s.def.params)
                .iter()
                .map(|p| ast.name(*p).unwrap().to_owned())
                .collect();
            format!(
                "fun {} [{}] {}",
                ast.name(s.name).unwrap(),
                params.join(" "),
                block(ast, s.def.body.stmts)
            )
        }
        Stmt::Class(s) => {
            let methods: Vec<String> =
                items(ast, s.methods).iter().map(|m| show_stmt(ast, *m)).collect();
            let parent = match s.superclass {
                Some(p) => format!(" < {}", show(ast, p)),
                None => String::new(),
            };
            format!("class {}{} {{{}}}", ast.name(s.name).unwrap(), parent, methods.join(" "))
        }
    }
}

fn program(source: &str) -> String {
    let (ast, result) = parse(source);
    let stmts = result.unwrap();
    let shown: Vec<String> = stmts.iter().map(|s| show_stmt(&ast, *s)).collect();
    shown.join(" ")
}

fn errors(source: &str) -> Vec<String> {
    let (_, result) = parse(source);
    result
        .unwrap_err()
        .into_iter()
        .map(|e| match e {
            LoxErr::Parse { token, line, column } => format!("{}:{}: {}", line, column, token),
            other => format!("{:?}", other),
        })
        .collect()
}

#[test]
fn precedence_and_associativity() {
    assert_eq!(program("print 1 + 2 * 3;"), "print (+ 1 (* 2 3));");
    assert_eq!(program("1 - 2 - 3;"), "(- (- 1 2) 3);");
    assert_eq!(program("1 * 2 / 3;"), "(/ (* 1 2) 3);");
    assert_eq!(program("-1 - -2;"), "(- (- 1) (- 2));");
    assert_eq!(program("!!a;"), "(! (! a));");
    assert_eq!(program("1 < 2 == 3 >= 4;"), "(== (< 1 2) (>= 3 4));");
    assert_eq!(program("a or b and c;"), "(Or a (And b c));");
    assert_eq!(program("a and b or c and d;"), "(Or (And a b) (And c d));");
    assert_eq!(program("(1 + 2) * 3;"), "(* (group (+ 1 2)) 3);");
    assert_eq!(program("a = b = 1 + 2;"), "(= a (= b (+ 1 2)));");
}

#[test]
fn calls_and_properties() {
    assert_eq!(program("f();"), "(call f []);");
    assert_eq!(program("f(1, a)(b);"), "(call (call f [1 a]) [b]);");
    assert_eq!(program("a.b.c;"), "(. (. a b) c);");
    assert_eq!(program("a.b(1).c = 2;"), "(.= (call (. a b) [1]) c 2);");
    assert_eq!(program("this.x = super.y();"), "(.= this x (call super.y []));");
    assert_eq!(program("\"s\" + nil == true != false;"), "(!= (== (+ \"s\" nil) true) false);");
}

#[test]
fn statements() {
    assert_eq!(program("var a; var b = 1;"), "var a; var b = 1;");
    assert_eq!(program("{ print a; { } }"), "{print a; {}}");
    assert_eq!(program("if (a) b; else c;"), "if a b; else c;");
    assert_eq!(program("if (a) if (b) c; else d;"), "if a if b c; else d;");
    assert_eq!(program("while (a) { b; }"), "while a {b;}");
    assert_eq!(program("fun f(a, b) { return a; }"), "fun f [a b] {return a;}");
    assert_eq!(program("fun f() { return; }"), "fun f [] {return nil;}");
    assert_eq!(
        program("class A < B { init(x) { this.x = x; } go() {} }"),
        "class A < B {fun init [x] {(.= this x x);} fun go [] {}}"
    );
    assert_eq!(program("class A {}"), "class A {}");
}

#[test]
fn function_literals() {
    assert_eq!(program("var f = fun (a) { print a; };"), "var f = (fun [a] {print a;});");
    assert_eq!(program("fun () {}();"), "(call (fun [] {}) []);");
}

#[test]
fn for_is_desugared() {
    assert_eq!(
        program("for (var i = 0; i < 3; i = i + 1) print i;"),
        "{var i = 0; while (< i 3) {print i; (= i (+ i 1));}}"
    );
    assert_eq!(program("for (;;) print 1;"), "while false print 1;");
    assert_eq!(program("for (i = 0;;) {}"), "{(= i 0); while false {}}");
    assert_eq!(program("for (; a; b) c;"), "while a {c; b;}");
}

#[test]
fn invalid_assignment_target_is_reported_and_dropped() {
    assert_eq!(errors("1 = 2;"), vec!["1:3: Invalid assignment target"]);
    let (ast, result) = parse("a + b = c; print 1;");
    assert_eq!(result.unwrap_err().len(), 1);
    let prints = (0..ast.len()).filter(|i| matches!(ast.stmt(*i), Some(Stmt::Print(_)))).count();
    assert_eq!(prints, 1);
}

#[test]
fn errors_name_what_is_missing() {
    assert_eq!(errors("print 1"), vec!["1:8: Expected `;` after value."]);
    assert_eq!(errors("var 1;"), vec!["1:5: expected variable name"]);
    assert_eq!(errors("(1;"), vec!["1:3: Expected ) after current token"]);
    assert_eq!(errors("+;"), vec!["1:1: expected expression"]);
    assert_eq!(errors("f(1;"), vec!["1:4: Expected ) after args list"]);
    assert_eq!(errors("a.1;"), vec!["1:3: expected identifier name after `.`."]);
    assert_eq!(errors("fun f(1) {}"), vec!["1:7: expected parameter name"]);
    assert_eq!(errors("fun f {}"), vec!["1:7: expected `(` after `function` identifier"]);
    assert_eq!(
        errors("class A { f; }"),
        vec!["1:12: Error in `class` statement body", "1:14: expected expression"]
    );
    assert_eq!(errors("class { }"), vec!["1:7: Expected `identifier` after `class` keyword."]);
    assert_eq!(errors("super;"), vec!["1:6: Expected `.` after `super`."]);
    assert_eq!(errors("{ print 1;"), vec!["1:11: Expected `}` after block end."]);
    assert_eq!(errors("while 1) a;"), vec!["1:7: Expected `(` after `while` keyword."]);
    assert_eq!(errors("for (;; a"), vec!["1:10: Expected `)` after `for` clause."]);
    assert_eq!(errors("for (;;"), vec!["1:8: expected expression"]);
}

#[test]
fn recovery_goes_on_after_the_statement() {
    assert_eq!(
        errors("var = 1; print; var x = ;"),
        vec![
            "1:5: expected variable name",
            "1:15: expected expression",
            "1:25: expected expression"
        ]
    );
    assert_eq!(
        errors("print 1 2 3 4 print (; var 1;"),
        vec![
            "1:9: Expected `;` after value.",
            "1:22: expected expression",
            "1:28: expected variable name"
        ]
    );
}

#[test]
fn a_failed_body_fails_the_loop() {
    assert_eq!(
        errors("while (a) var;"),
        vec!["1:14: expected variable name", "1:15: Error in `while` statement body"]
    );
    assert_eq!(
        errors("if (a) b; else +;"),
        vec!["1:16: expected expression", "1:18: Error in `if` statement `else` clause"]
    );
}

#[test]
fn at_most_255_arguments_and_parameters() {
    let args = vec!["1"; 255].join(", ");
    assert!(parse(&format!("f({});", args)).1.is_ok());
    let args = vec!["1"; 256].join(", ");
    let e = errors(&format!("f({});", args));
    assert_eq!(e.len(), 1);
    assert!(e[0].ends_with("No more than 255 args are allowed"));
    let params = vec!["p"; 255].join(", ");
    assert!(parse(&format!("fun f({}) {{}}", params)).1.is_ok());
    let params = vec!["p"; 256].join(", ");
    let e = errors(&format!("fun f({}) {{}}", params));
    assert!(e[0].ends_with("No more than 255 params are allowed"));
}

#[test]
fn every_expression_has_its_own_identity() {
    let (ast, result) = parse("a + a;");
    result.unwrap();
    let vars: Vec<usize> =
        (0..ast.len()).filter(|i| matches!(ast.expr(*i), Some(ExprKind::Var(_)))).collect();
    assert_eq!(vars.len(), 2);
    assert_ne!(vars[0], vars[1]);
}

#[test]
fn a_parser_can_add_to_a_tree() {
    let mut first = Parser::new(tokens_of("var a = 1;"));
    let one = first.parse().unwrap();
    let ast = first.into_ast();
    let nodes = ast.len();
    let mut second = Parser::with_ast(ast, tokens_of("print a;"));
    let two = second.parse().unwrap();
    let ast = second.into_ast();
    assert!(ast.len() > nodes);
    assert_eq!(show_stmt(&ast, one[0]), "var a = 1;");
    assert_eq!(show_stmt(&ast, two[0]), "print a;");
    assert_eq!(ast.token_type(0), TokenType::Var);
}

#[test]
fn tokens_without_eof_still_parse() {
    let mut tokens = tokens_of("print 1;");
    tokens.pop();
    let mut parser = Parser::new(tokens);
    assert_eq!(parser.parse().unwrap().len(), 1);
    let mut parser = Parser::new(Vec::new());
    assert_eq!(parser.parse().unwrap().len(), 0);
}

/// Writes an expression as source text.
fn write_expr(ast: &Ast, id: usize) -> String {
    let op = |t: usize| match ast.token_type(t) {
        TokenType::Or => "or",
        TokenType::And => "and",
        other => other.text(),
    };
    let name = |t: usize| ast.name(t).unwrap().to_owned();
    match ast.expr(id).unwrap() {
        ExprKind::Literal(Lit::Nil) => "nil".to_owned(),
        ExprKind::Literal(Lit::Boolean(b)) => format!("{}", b),
        ExprKind::Literal(Lit::Number(bits)) => format!("{}", f64::from_bits(bits)),
        ExprKind::Literal(Lit::String(t)) => format!("\"{}\"", ast.string(t)),
        ExprKind::Var(t) => name(t),
        ExprKind::This(_) => "this".to_owned(),
        ExprKind::Super(s) => format!("super.{}", name(s.method)),
        ExprKind::Grouping(g) => format!("({})", write_expr(ast, g.expression)),
        ExprKind::Unary(u) => format!("{}{}", op(u.operator), write_expr(ast, u.right)),
        ExprKind::Binary(b) => {
            format!("{} {} {}", write_expr(ast, b.left), op(b.operator), write_expr(ast, b.right))
        }
        ExprKind::Logical(b) => {
            format!("{} {} {}", write_expr(ast, b.left), op(b.operator), write_expr(ast, b.right))
        }
        ExprKind::Assign(a) => format!("{} = {}", name(a.name), write_expr(ast, a.expression)),
        ExprKind::Get(g) => format!("{}.{}", write_expr(ast, g.expr), name(g.name)),
        ExprKind::SetField(s) => {
            format!("{}.{} = {}", write_expr(ast, s.target), name(s.name), write_expr(ast, s.value))
        }
        ExprKind::Call(c) => {
            let args: Vec<String> =
                items(ast, c.args).iter().map(|a| write_expr(ast, *a)).collect();
            format!("{}({})", write_expr(ast, c.callee), args.join(", "))
        }
        ExprKind::Function(f) => format!("fun {}", write_function(ast, f)),
    }
}

fn write_function(ast: &Ast, f: loxrs::ast::ExprFunction) -> String {
    let params: Vec<String> =
        items(ast, f.params).iter().map(|p| ast.name(*p).unwrap().to_owned()).collect();
    format!("({}) {}", params.join(", "), write_block(ast, f.body.stmts))
}

fn write_block(ast: &Ast, list: loxrs::ast::List) -> String {
    let stmts: Vec<String> = items(ast, list).iter().map(|s| write_stmt(ast, *s)).collect();
    format!("{{ {} }}", stmts.join(" "))
}

/// Writes a statement as source text.
fn write_stmt(ast: &Ast, id: usize) -> String {
    let name = |t: usize| ast.name(t).unwrap().to_owned();
    match ast.stmt(id).unwrap() {
        Stmt::Expr(s) => format!("{};", write_expr(ast, s.expr)),
        Stmt::Print(s) => format!("print {};", write_expr(ast, s.expr)),
        Stmt::Return(s) => format!("return {};", write_expr(ast, s.val)),
        Stmt::Var(s) => match s.expr {
            Some(e) => format!("var {} = {};", name(s.token), write_expr(ast, e)),
            None => format!("var {};", name(s.token)),
        },
        Stmt::Block(s) => write_block(ast, s.stmts),
        Stmt::If(s) => match s.else_stmt {
            Some(e) => format!(
                "if ({}) {} else {}",
                write_expr(ast, s.cond),
                write_stmt(ast, s.then_branch),
                write_stmt(ast, e)
            ),
            None => format!("if ({}) {}", write_expr(ast, s.cond), write_stmt(ast, s.then_branch)),
        },
        Stmt::While(s) => {
            format!("while ({}) {}", write_expr(ast, s.expr), write_stmt(ast, s.stmt))
        }
        Stmt::Fun(s) => format!("fun {}{}", name(s.name), write_function(ast, s.def)),
        Stmt::Class(s) => {
            let methods: Vec<String> = items(ast, s.methods)
                .iter()
                .map(|m| match ast.stmt(*m).unwrap() {
                    Stmt::Fun(f) => format!("{}{}", name(f.name), write_function(ast, f.def)),
                    other => panic!("a method is a function, not {:?}", other),
                })
                .collect();
            let parent = match s.superclass {
                Some(p) => format!(" < {}", write_expr(ast, p)),
                None => String::new(),
            };
            format!("class {}{} {{ {} }}", name(s.name), parent, methods.join(" "))
        }
    }
}

fn written(source: &str) -> String {
    let (ast, result) = parse(source);
    let stmts = result.unwrap();
    let texts: Vec<String> = stmts.iter().map(|s| write_stmt(&ast, *s)).collect();
    texts.join("\n")
}

#[test]
fn a_written_tree_parses_to_the_same_tree() {
    let sources = [
        "print 1 + 2 * 3;",
        "print (1 + 2) * 3 - -4 / !x;",
        "a = b = c or d and e == f != g < h <= i > j >= k;",
        "var x; var y = \"text\"; var z = 0.25; var n = nil; var t = true; var f = false;",
        "a.b.c = d.e(f, g)(h).i;",
        "if (a) b; else if (c) { d; } else e;",
        "if (a) if (b) c; else d;",
        "while (a < 10) { a = a + 1; print a; }",
        "for (var i = 0; i < 3; i = i + 1) print i;",
        "for (;;) print 1;",
        "for (i = 0;;) {}",
        "for (; a; b) c;",
        "fun make(a, b) { var y = 2; fun inner() { print a + y; } return inner; } make(1, 2)();",
        "fun f() { return; }",
        "var g = fun (a) { return a * 2; }; print g(2);",
        "fun () {}();",
        "class A { init(x) { this.x = x; } greet() { print \"A\"; } }",
        "class B < A { greet() { super.greet(); print this.x; } } B(1).greet();",
        "{ { } { var a = 1; { print a; } } }",
        "",
    ];
    for source in sources {
        let text = written(source);
        assert!(parse(&text).1.is_ok(), "{} was written as {}", source, text);
        assert_eq!(program(&text), program(source), "{} was written as {}", source, text);
        assert_eq!(written(&text), text);
    }
}
