//! How statements are executed, and the evaluator's steps and runs.
use vstd::prelude::*;

use crate::ast::{
    item_at, malformed, name_at, stmt_at, Ast, AstView, List, Stmt, StmtClass,
};
use crate::error::{LoxErr, LoxErrView};
use crate::frame::Frame;
use crate::interp::call::{s_boundary, s_check_call, s_invoke, s_return};
use crate::interp::expr::{
    closure, s_assign, s_binary, s_concat, s_eval, s_get, s_logical, s_set_target, s_set_value,
    s_unary,
};
use crate::interp::heap::{
    changes, h_define, h_intern, h_scope, Change, ClassView, Heap, HeapView,
};
use crate::interp::machine::{
    confused, eval_error, steps, Effect, Interpreter, Machine, Signal, Stepped, Task,
};
use crate::interp::value::{truthy, Func, Function, NativeFunction, Value};
use crate::resolver::Locals;
use crate::scope::NodeView;

verus! {

/// `m` after a change to the heap that yields nothing, or stopped by its failure.
pub open spec fn changed(m: Machine, c: Change<()>) -> Stepped {
    match c.r {
        Ok(_) => m.on(c.heap).go(),
        Err(e) => m.on(c.heap).fail(e),
    }
}

/// A block is entered: a scope below the current one, the statements of
/// `stmts` in it, and then the current scope again.
#[verifier::opaque]
pub open spec fn s_enter(m: Machine, stmts: List) -> Stepped {
    let c = h_scope(m.heap, m.scope);
    match c.r {
        Err(e) => m.on(c.heap).fail(e),
        Ok(inner) => m.on(c.heap).next(
            Task::ExitScope(m.scope, m.heap.scopes.len() as usize),
        ).next(Task::Block(stmts, 0)).inside(inner).go(),
    }
}

/// The name at token `token` is bound to `value` in the current scope.
#[verifier::opaque]
pub open spec fn s_bind(ast: AstView, m: Machine, token: usize, value: Value) -> Stepped {
    match name_at(ast.tokens, token as int) {
        None => m.fail(crate::resolver::no_name()),
        Some(name) => changed(m, h_define(m.heap, m.scope, name, value)),
    }
}

/// A class statement begins: the name is bound to `nil`, the superclass is
/// evaluated if there is one, and then the class is built.
#[verifier::opaque]
pub open spec fn s_class(ast: AstView, m: Machine, id: usize, class: StmtClass) -> Stepped {
    let named = s_bind(ast, m, class.name, Value::Nil);
    if named.r is Err {
        named
    } else {
        match class.superclass {
            Some(e) => named.m.next(Task::MakeClass(id)).next(Task::Eval(e)).go(),
            None => named.m.next(Task::MakeClass(id)).go(),
        }
    }
}

/// The tasks that a statement with parts is replaced by.
#[verifier::opaque]
pub open spec fn s_parts(m: Machine, id: usize, stmt: Stmt) -> Stepped {
    match stmt {
        Stmt::Expr(s) => m.next(Task::Pop).next(Task::Eval(s.expr)).go(),
        Stmt::Print(s) => m.next(Task::Print).next(Task::Eval(s.expr)).go(),
        Stmt::If(s) => m.next(Task::Branch(id)).next(Task::Eval(s.cond)).go(),
        Stmt::While(s) => m.next(Task::LoopTest(id)).next(Task::Eval(s.expr)).go(),
        Stmt::Return(s) => m.next(Task::Return).next(Task::Eval(s.val)).go(),
        _ => m.fail(confused()),
    }
}

/// The task `Exec(id)`.
#[verifier::opaque]
pub open spec fn s_exec(ast: AstView, m: Machine, id: usize) -> Stepped {
    match stmt_at(ast.nodes, id as int) {
        None => m.fail(malformed()),
        Some(stmt) => match stmt {
            Stmt::Var(s) => match s.expr {
                Some(e) => m.next(Task::Define(id)).next(Task::Eval(e)).go(),
                None => s_bind(ast, m, s.token, Value::Nil),
            },
            Stmt::Block(s) => s_enter(m, s.stmts),
            Stmt::Fun(s) => s_bind(ast, m.pin(), s.name, closure(s.def, m.scope)),
            Stmt::Class(s) => s_class(ast, m, id, s),
            _ => s_parts(m, id, stmt),
        },
    }
}

/// The task `Define(id)`: the variable of the statement is bound to the value on top.
#[verifier::opaque]
pub open spec fn s_define(ast: AstView, m: Machine, id: usize) -> Stepped {
    if m.values.len() == 0 {
        m.fail(confused())
    } else {
        match stmt_at(ast.nodes, id as int) {
            Some(Stmt::Var(s)) => s_bind(ast, m.drop(), s.token, m.values.last()),
            _ => m.fail(malformed()),
        }
    }
}

/// The task `Block(list, i)`: the `i`-th statement of the list, and then the rest.
#[verifier::opaque]
pub open spec fn s_block(ast: AstView, m: Machine, list: List, i: usize) -> Stepped {
    if i >= list.len {
        m.go()
    } else {
        match item_at(ast.extra, list, i as int) {
            None => m.fail(malformed()),
            Some(stmt) => m.next(Task::Block(list, (i + 1) as usize)).next(Task::Exec(stmt)).go(),
        }
    }
}

/// The task `Branch(id)`: the branch of the `if` that the value on top selects.
#[verifier::opaque]
pub open spec fn s_branch(ast: AstView, m: Machine, id: usize) -> Stepped {
    if m.values.len() == 0 {
        m.fail(confused())
    } else {
        match stmt_at(ast.nodes, id as int) {
            Some(Stmt::If(s)) => if truthy(m.values.last()) {
                m.drop().next(Task::Exec(s.then_branch)).go()
            } else {
                match s.else_stmt {
                    Some(other) => m.drop().next(Task::Exec(other)).go(),
                    None => m.drop().go(),
                }
            },
            _ => m.fail(malformed()),
        }
    }
}

/// The task `LoopTest(id)`: if the value on top counts as true, the body
/// of the `while`, then its condition again, and then this test again.
#[verifier::opaque]
pub open spec fn s_loop_test(ast: AstView, m: Machine, id: usize) -> Stepped {
    if m.values.len() == 0 {
        m.fail(confused())
    } else {
        match stmt_at(ast.nodes, id as int) {
            Some(Stmt::While(s)) => if truthy(m.values.last()) {
                m.drop().next(Task::LoopTest(id)).next(Task::Eval(s.expr)).next(
                    Task::Exec(s.stmt),
                ).go()
            } else {
                m.drop().go()
            },
            _ => m.fail(malformed()),
        }
    }
}

/// The tasks `Pop` and `Print`: the value on top is dropped, and with `print` printed.
#[verifier::opaque]
pub open spec fn s_pop(m: Machine, print: bool) -> Stepped {
    if m.values.len() == 0 {
        m.fail(confused())
    } else if print {
        m.drop().ask(Effect::Print(m.values.last()))
    } else {
        m.drop().go()
    }
}

/// The methods that the first `n` statements of `list` declare, as
/// functions in the scope `scope`.  A method named `init` is an initializer.
pub open spec fn methods_of(ast: AstView, list: List, n: int, scope: usize) -> Option<
    Map<Seq<char>, Function>,
>
    decreases n,
{
    if n <= 0 {
        Some(Map::empty())
    } else {
        match (methods_of(ast, list, n - 1, scope), item_at(ast.extra, list, n - 1)) {
            (Some(methods), Some(id)) => match stmt_at(ast.nodes, id as int) {
                Some(Stmt::Fun(f)) => match name_at(ast.tokens, f.name as int) {
                    Some(name) => Some(
                        methods.insert(
                            name,
                            Function { def: f.def, scope, is_initializer: name == "init"@ },
                        ),
                    ),
                    None => None,
                },
                _ => None,
            },
            _ => None,
        }
    }
}

/// `h` with one more class.
pub open spec fn with_class(h: HeapView, class: ClassView) -> HeapView {
    HeapView { classes: h.classes.push(class), ..h }
}

/// The scope that the methods of a class with superclass `over` are
/// functions in: a scope below the current one that binds `super`.
#[verifier::opaque]
pub open spec fn s_super_scope(m: Machine, over: usize) -> Change<usize> {
    let c = h_scope(m.heap, m.scope);
    match c.r {
        Err(e) => Change { heap: c.heap, r: Err(e) },
        Ok(s) => {
            let d = h_define(c.heap, s, "super"@, Value::Func(Func::Class(over)));
            Change {
                heap: d.heap,
                r: match d.r {
                    Ok(_) => Ok(s),
                    Err(e) => Err(e),
                },
            }
        },
    }
}

/// The class of the statement is built, with its methods as functions in
/// the scope `scope` and the superclass `over`, and its name is bound to it.
#[verifier::opaque]
pub open spec fn s_build(
    ast: AstView,
    m: Machine,
    class: StmtClass,
    over: Option<usize>,
    scope: usize,
) -> Stepped {
    match (
        name_at(ast.tokens, class.name as int),
        methods_of(ast, class.methods, class.methods.len as int, scope),
    ) {
        (Some(name), Some(methods)) => changed(
            m.pin(),
            h_define(
                with_class(m.heap, ClassView { name, superclass: over, methods }),
                m.scope,
                name,
                Value::Func(Func::Class(m.heap.classes.len() as usize)),
            ),
        ),
        (None, _) => m.fail(crate::resolver::no_name()),
        _ => m.fail(malformed()),
    }
}

/// The task `MakeClass(id)`.  The superclass, if the class has one, is the
/// value on top and has to be a class.
#[verifier::opaque]
pub open spec fn s_make_class(ast: AstView, m: Machine, id: usize) -> Stepped {
    match stmt_at(ast.nodes, id as int) {
        Some(Stmt::Class(class)) => match class.superclass {
            None => s_build(ast, m, class, None, m.scope),
            Some(_) => if m.values.len() == 0 {
                m.fail(confused())
            } else {
                match m.values.last() {
                    Value::Func(Func::Class(over)) => {
                        let c = s_super_scope(m.drop(), over);
                        match c.r {
                            Err(e) => m.drop().on(c.heap).fail(e),
                            Ok(scope) => s_build(ast, m.drop().on(c.heap), class, Some(over), scope),
                        }
                    },
                    _ => m.fail(eval_error("class"@, "Superclass must be a class"@)),
                }
            },
        },
        _ => m.fail(malformed()),
    }
}

/// What the task `task` does to `m`, from which the task has been taken.
#[verifier::opaque]
pub open spec fn s_task(ast: AstView, m: Machine, task: Task) -> Stepped {
    match task {
        Task::Exec(id) => s_exec(ast, m, id),
        Task::Eval(id) => s_eval(ast, m, id),
        Task::Pop => s_pop(m, false),
        Task::Print => s_pop(m, true),
        Task::Unary(id) => s_unary(ast, m, id),
        Task::Binary(id) => s_binary(ast, m, id),
        Task::Concat => s_concat(m, false),
        Task::ConcatRev => s_concat(m, true),
        Task::Logical(id) => s_logical(ast, m, id),
        Task::Assign(id) => s_assign(ast, m, id),
        Task::CheckCall(id) => s_check_call(ast, m, id),
        Task::Invoke(id) => s_invoke(ast, m, id),
        Task::Get(id) => s_get(ast, m, id),
        Task::SetTarget(id) => s_set_target(ast, m, id),
        Task::SetValue(id) => s_set_value(ast, m, id),
        Task::Define(id) => s_define(ast, m, id),
        Task::Block(list, i) => s_block(ast, m, list, i),
        Task::ExitScope(scope, mark) => m.inside(scope).release(mark).go(),
        Task::Branch(id) => s_branch(ast, m, id),
        Task::LoopTest(id) => s_loop_test(ast, m, id),
        Task::Return => s_return(m),
        Task::Boundary(b) => s_boundary(m, b),
        Task::MakeClass(id) => s_make_class(ast, m, id),
    }
}

/// One step: the task on top is taken and done.  With no task left, the machine is done.
pub open spec fn s_step(ast: AstView, m: Machine) -> Stepped {
    if m.tasks.len() == 0 {
        Stepped { m, r: Ok(Signal::Done) }
    } else {
        s_task(ast, Machine { tasks: m.tasks.drop_last(), ..m }, m.tasks.last())
    }
}

/// At most `fuel` steps, up to the first that does not just go on.
pub open spec fn s_run(ast: AstView, m: Machine, fuel: nat) -> Stepped
    decreases fuel,
{
    if fuel == 0 {
        m.go()
    } else {
        let one = s_step(ast, m);
        if one.r == Ok::<Signal, LoxErrView>(Signal::Continue) {
            s_run(ast, one.m, (fuel - 1) as nat)
        } else {
            one
        }
    }
}

/// `m` with the statements `stmts[..n]` to be executed, the first of them next.
pub open spec fn scheduled(m: Machine, stmts: Seq<usize>, n: int) -> Machine
    decreases n,
{
    if n <= 0 {
        m
    } else {
        scheduled(m, stmts, n - 1).next(Task::Exec(stmts[stmts.len() - n]))
    }
}

/// The evaluator that has run nothing yet: a global scope that binds
/// `clock`, and nothing to do.
pub open spec fn fresh() -> Machine {
    Machine {
        heap: HeapView {
            scopes: seq![
                NodeView {
                    vars: Map::<Seq<char>, Value>::empty().insert(
                        "clock"@,
                        Value::Func(Func::Native(NativeFunction::Clock)),
                    ),
                    parent: None,
                },
            ],
            classes: Seq::empty(),
            instances: Seq::empty(),
            texts: Seq::empty(),
        },
        locals: Map::empty(),
        scope: 0,
        pinned: 1,
        tasks: Seq::empty(),
        values: Seq::empty(),
    }
}

impl Interpreter {
    /// An evaluator whose global scope binds the native function `clock`.
    pub fn new() -> (i: Interpreter)
        ensures
            i@ == fresh(),
    {
        proof {
            reveal(h_define);
        }
        let mut heap = Heap::new();
        let _ = heap.define(0, "clock", Value::Func(Func::Native(NativeFunction::Clock)));
        let i = Interpreter {
            heap,
            locals: Locals::new(),
            scope: 0,
            globals: 0,
            pinned: 1,
            tasks: Vec::new(),
            values: Vec::new(),
        };
        assert(i@.heap.scopes =~= fresh().heap.scopes);
        i
    }

    /// Records that the binding used by `expr` lies `depth` scopes out.
    pub fn resolve(&mut self, expr: usize, depth: usize)
        ensures
            final(self)@ == (Machine {
                locals: old(self)@.locals.insert(expr, depth),
                ..old(self)@
            }),
    {
        self.locals.resolve(expr, depth);
    }

    /// Takes the depths that a resolver found.
    pub fn set_locals(&mut self, locals: Locals)
        ensures
            final(self)@ == (Machine { locals: locals@, ..old(self)@ }),
    {
        self.locals = locals;
    }

    /// The current scope.
    pub fn scope(&self) -> (s: usize)
        ensures
            s == self@.scope,
    {
        self.scope
    }

    /// Sets the statements `stmts` to be executed in order, after what is
    /// still to be done.  [`Interpreter::run`] executes them.
    pub fn interpret(&mut self, stmts: &Vec<usize>)
        ensures
            final(self)@ == scheduled(old(self)@, stmts@, stmts@.len() as int),
    {
        let mut i: usize = stmts.len();
        let mut n: usize = 0;
        while i > 0
            invariant
                i + n == stmts.len(),
                self@ == scheduled(old(self)@, stmts@, n as int),
            decreases i,
        {
            i -= 1;
            n += 1;
            self.tasks.push(Task::Exec(stmts[i]));
        }
    }

    fn changed(&mut self, r: Result<(), LoxErr>) -> (s: Result<Signal, LoxErr>)
        ensures
            match r {
                Ok(_) => steps(s, final(self)@, old(self)@.go()),
                Err(e) => steps(s, final(self)@, old(self)@.fail(e@)),
            },
    {
        match r {
            Ok(()) => Ok(Signal::Continue),
            Err(e) => self.fail(e),
        }
    }

    /// Enters a block.
    fn enter(&mut self, stmts: List) -> (r: Result<Signal, LoxErr>)
        ensures
            steps(r, final(self)@, s_enter(old(self)@, stmts)),
    {
        proof {
            reveal(s_enter);
            reveal(h_scope);
        }
        match self.heap.open_scope(self.scope) {
            Err(e) => self.fail(e),
            Ok(inner) => {
                self.push(Task::ExitScope(self.scope, inner));
                self.push(Task::Block(stmts, 0));
                self.scope = inner;
                Ok(Signal::Continue)
            },
        }
    }

    /// Binds the name at `token` to `value` in the current scope.
    fn bind(&mut self, ast: &Ast, token: usize, value: Value) -> (r: Result<Signal, LoxErr>)
        ensures
            steps(r, final(self)@, s_bind(ast@, old(self)@, token, value)),
    {
        proof {
            reveal(s_bind);
        }
        match ast.name(token) {
            Err(e) => self.fail(e),
            Ok(name) => {
                let c = self.heap.define(self.scope, name, value);
                self.changed(c)
            },
        }
    }

    /// Begins a class statement.
    fn class_stmt(&mut self, ast: &Ast, id: usize, class: StmtClass) -> (r: Result<
        Signal,
        LoxErr,
    >)
        ensures
            steps(r, final(self)@, s_class(ast@, old(self)@, id, class)),
    {
        proof {
            reveal(s_class);
        }
        match self.bind(ast, class.name, Value::Nil) {
            Ok(_) => {},
            Err(e) => {
                return Err(e);
            },
        }
        self.push(Task::MakeClass(id));
        match class.superclass {
            Some(e) => {
                self.push(Task::Eval(e));
            },
            None => {},
        }
        Ok(Signal::Continue)
    }

    fn parts(&mut self, id: usize, stmt: Stmt) -> (r: Result<Signal, LoxErr>)
        ensures
            steps(r, final(self)@, s_parts(old(self)@, id, stmt)),
    {
        proof {
            reveal(s_parts);
        }
        match stmt {
            Stmt::Expr(s) => {
                self.push(Task::Pop);
                self.push(Task::Eval(s.expr));
            },
            Stmt::Print(s) => {
                self.push(Task::Print);
                self.push(Task::Eval(s.expr));
            },
            Stmt::If(s) => {
                self.push(Task::Branch(id));
                self.push(Task::Eval(s.cond));
            },
            Stmt::While(s) => {
                self.push(Task::LoopTest(id));
                self.push(Task::Eval(s.expr));
            },
            Stmt::Return(s) => {
                self.push(Task::Return);
                self.push(Task::Eval(s.val));
            },
            _ => {
                return self.confused();
            },
        }
        Ok(Signal::Continue)
    }

    /// Does the task `Exec(id)`.
    pub fn exec_stmt(&mut self, ast: &Ast, id: usize) -> (r: Result<Signal, LoxErr>)
        ensures
            steps(r, final(self)@, s_exec(ast@, old(self)@, id)),
    {
        proof {
            reveal(s_exec);
        }
        match ast.stmt(id) {
            None => self.fail(LoxErr::internal("malformed syntax tree")),
            Some(stmt) => match stmt {
                Stmt::Var(s) => match s.expr {
                    Some(e) => {
                        self.push(Task::Define(id));
                        self.push(Task::Eval(e));
                        Ok(Signal::Continue)
                    },
                    None => self.bind(ast, s.token, Value::Nil),
                },
                Stmt::Block(s) => self.enter(s.stmts),
                Stmt::Fun(s) => {
                    self.pin();
                    self.bind(
                        ast,
                        s.name,
                        Value::Func(
                            Func::Lox(
                                Function { def: s.def, scope: self.scope, is_initializer: false },
                            ),
                        ),
                    )
                },
                Stmt::Class(s) => self.class_stmt(ast, id, s),
                _ => self.parts(id, stmt),
            },
        }
    }

    /// Does the task `Define(id)`.
    pub fn var_stmt(&mut self, ast: &Ast, id: usize) -> (r: Result<Signal, LoxErr>)
        ensures
            steps(r, final(self)@, s_define(ast@, old(self)@, id)),
    {
        proof {
            reveal(s_define);
        }
        let v = match self.top() {
            Some(v) => v,
            None => {
                return self.confused();
            },
        };
        match ast.stmt(id) {
            Some(Stmt::Var(s)) => {
                let _ = self.take();
                self.bind(ast, s.token, v)
            },
            _ => self.fail(LoxErr::internal("malformed syntax tree")),
        }
    }

    /// Does the task `Block(list, i)`.
    pub fn block_stmt(&mut self, ast: &Ast, list: List, i: usize) -> (r: Result<Signal, LoxErr>)
        ensures
            steps(r, final(self)@, s_block(ast@, old(self)@, list, i)),
    {
        proof {
            reveal(s_block);
        }
        if i >= list.len {
            return Ok(Signal::Continue);
        }
        match ast.item(list, i) {
            None => self.fail(LoxErr::internal("malformed syntax tree")),
            Some(stmt) => {
                self.push(Task::Block(list, i + 1));
                self.push(Task::Exec(stmt));
                Ok(Signal::Continue)
            },
        }
    }

    /// Does the task `Branch(id)`.
    pub fn if_stmt(&mut self, ast: &Ast, id: usize) -> (r: Result<Signal, LoxErr>)
        ensures
            steps(r, final(self)@, s_branch(ast@, old(self)@, id)),
    {
        proof {
            reveal(s_branch);
        }
        let test = match self.top() {
            Some(v) => v.is_truthy(),
            None => {
                return self.confused();
            },
        };
        match ast.stmt(id) {
            Some(Stmt::If(s)) => {
                let _ = self.take();
                if test {
                    self.push(Task::Exec(s.then_branch));
                } else {
                    match s.else_stmt {
                        Some(other) => {
                            self.push(Task::Exec(other));
                        },
                        None => {},
                    }
                }
                Ok(Signal::Continue)
            },
            _ => self.fail(LoxErr::internal("malformed syntax tree")),
        }
    }

    /// Does the task `LoopTest(id)`.
    pub fn while_stmt(&mut self, ast: &Ast, id: usize) -> (r: Result<Signal, LoxErr>)
        ensures
            steps(r, final(self)@, s_loop_test(ast@, old(self)@, id)),
    {
        proof {
            reveal(s_loop_test);
        }
        let test = match self.top() {
            Some(v) => v.is_truthy(),
            None => {
                return self.confused();
            },
        };
        match ast.stmt(id) {
            Some(Stmt::While(s)) => {
                let _ = self.take();
                if test {
                    self.push(Task::LoopTest(id));
                    self.push(Task::Eval(s.expr));
                    self.push(Task::Exec(s.stmt));
                }
                Ok(Signal::Continue)
            },
            _ => self.fail(LoxErr::internal("malformed syntax tree")),
        }
    }

    /// Does the tasks `Pop` and `Print`.
    pub fn print_stmt(&mut self, print: bool) -> (r: Result<Signal, LoxErr>)
        ensures
            steps(r, final(self)@, s_pop(old(self)@, print)),
    {
        proof {
            reveal(s_pop);
        }
        match self.take() {
            None => self.confused(),
            Some(v) => if print {
                Ok(Signal::Effect(Effect::Print(v)))
            } else {
                Ok(Signal::Continue)
            },
        }
    }

    /// The methods that the statements of `list` declare, as functions in `scope`.
    fn methods(&self, ast: &Ast, list: List, scope: usize) -> (r: Option<Frame<Function>>)
        ensures
            match methods_of(ast@, list, list.len as int, scope) {
                Some(methods) => r is Some && r->0@ == methods,
                None => r is None,
            },
    {
        let mut frame: Frame<Function> = Frame::new();
        let mut i: usize = 0;
        while i < list.len
            invariant
                i <= list.len,
                methods_of(ast@, list, i as int, scope) == Some(frame@),
            decreases list.len - i,
        {
            let fun = match ast.item(list, i) {
                Some(id) => match ast.stmt(id) {
                    Some(Stmt::Fun(f)) => f,
                    _ => {
                        proof {
                            lemma_methods_none(ast@, list, i + 1, list.len as int, scope);
                        }
                        return None;
                    },
                },
                None => {
                    proof {
                        lemma_methods_none(ast@, list, i + 1, list.len as int, scope);
                    }
                    return None;
                },
            };
            let name = match ast.name(fun.name) {
                Ok(name) => name,
                Err(_) => {
                    proof {
                        lemma_methods_none(ast@, list, i + 1, list.len as int, scope);
                    }
                    return None;
                },
            };
            let is_initializer = crate::text::same_text(name, "init");
            frame.insert(name.to_owned(), Function { def: fun.def, scope, is_initializer });
            i += 1;
        }
        Some(frame)
    }

    /// Opens the scope that binds `super` to the class `over`.
    fn super_scope(&mut self, over: usize) -> (r: Result<usize, LoxErr>)
        ensures
            final(self)@ == old(self)@.on(final(self)@.heap),
            changes(r, final(self)@.heap, s_super_scope(old(self)@, over)),
    {
        proof {
            reveal(s_super_scope);
        }
        let s = match self.heap.open_scope(self.scope) {
            Ok(s) => s,
            Err(e) => {
                return Err(e);
            },
        };
        match self.heap.define(s, "super", Value::Func(Func::Class(over))) {
            Ok(()) => Ok(s),
            Err(e) => Err(e),
        }
    }

    /// Builds a class and binds its name to it.
    fn build(&mut self, ast: &Ast, class: StmtClass, over: Option<usize>, scope: usize) -> (r: Result<
        Signal,
        LoxErr,
    >)
        ensures
            steps(r, final(self)@, s_build(ast@, old(self)@, class, over, scope)),
    {
        proof {
            reveal(s_build);
        }
        let name = match ast.name(class.name) {
            Ok(name) => name,
            Err(e) => {
                return self.fail(e);
            },
        };
        let methods = match self.methods(ast, class.methods, scope) {
            Some(m) => m,
            None => {
                return self.fail(LoxErr::internal("malformed syntax tree"));
            },
        };
        self.pin();
        let id = self.heap.new_class(name, over, methods);
        let c = self.heap.define(self.scope, name, Value::Func(Func::Class(id)));
        self.changed(c)
    }

    /// Does the task `MakeClass(id)`.
    pub fn make_class(&mut self, ast: &Ast, id: usize) -> (r: Result<Signal, LoxErr>)
        ensures
            steps(r, final(self)@, s_make_class(ast@, old(self)@, id)),
    {
        proof {
            reveal(s_make_class);
        }
        let class = match ast.stmt(id) {
            Some(Stmt::Class(class)) => class,
            _ => {
                return self.fail(LoxErr::internal("malformed syntax tree"));
            },
        };
        if class.superclass.is_none() {
            return self.build(ast, class, None, self.scope);
        }
        let over = match self.top() {
            None => {
                return self.confused();
            },
            Some(Value::Func(Func::Class(over))) => over,
            Some(_) => {
                return self.fail_eval("class", "Superclass must be a class");
            },
        };
        let _ = self.take();
        match self.super_scope(over) {
            Ok(scope) => self.build(ast, class, Some(over), scope),
            Err(e) => self.fail(e),
        }
    }

    /// Does `task`, which has been taken from the tasks.
    fn task(&mut self, ast: &Ast, task: Task) -> (r: Result<Signal, LoxErr>)
        ensures
            steps(r, final(self)@, s_task(ast@, old(self)@, task)),
    {
        proof {
            reveal(s_task);
        }
        match task {
            Task::Exec(id) => self.exec_stmt(ast, id),
            Task::Eval(id) => self.eval(ast, id),
            Task::Pop => self.print_stmt(false),
            Task::Print => self.print_stmt(true),
            Task::Unary(id) => self.unary(ast, id),
            Task::Binary(id) => self.binary(ast, id),
            Task::Concat => self.concat(false),
            Task::ConcatRev => self.concat(true),
            Task::Logical(id) => self.logical(ast, id),
            Task::Assign(id) => self.assign(ast, id),
            Task::CheckCall(id) => self.check_call(ast, id),
            Task::Invoke(id) => self.invoke(ast, id),
            Task::Get(id) => self.get(ast, id),
            Task::SetTarget(id) => self.set_target(ast, id),
            Task::SetValue(id) => self.set(ast, id),
            Task::Define(id) => self.var_stmt(ast, id),
            Task::Block(list, i) => self.block_stmt(ast, list, i),
            Task::ExitScope(scope, mark) => {
                self.scope = scope;
                self.release(mark);
                Ok(Signal::Continue)
            },
            Task::Branch(id) => self.if_stmt(ast, id),
            Task::LoopTest(id) => self.while_stmt(ast, id),
            Task::Return => self.return_stmt(),
            Task::Boundary(b) => self.boundary(b),
            Task::MakeClass(id) => self.make_class(ast, id),
        }
    }

    /// Takes one step.
    pub fn step(&mut self, ast: &Ast) -> (r: Result<Signal, LoxErr>)
        ensures
            steps(r, final(self)@, s_step(ast@, old(self)@)),
    {
        match self.tasks.pop() {
            None => Ok(Signal::Done),
            Some(task) => self.task(ast, task),
        }
    }

    /// Takes at most `fuel` steps, up to the first that ends the program,
    /// fails, or asks the host for something.  `Continue` says that the
    /// steps ran out.
    pub fn run(&mut self, ast: &Ast, fuel: usize) -> (r: Result<Signal, LoxErr>)
        ensures
            steps(r, final(self)@, s_run(ast@, old(self)@, fuel as nat)),
    {
        let mut left: usize = fuel;
        while left > 0
            invariant
                s_run(ast@, self@, left as nat) == s_run(ast@, old(self)@, fuel as nat),
            decreases left,
        {
            match self.step(ast) {
                Ok(Signal::Continue) => {},
                other => {
                    return other;
                },
            }
            left -= 1;
        }
        Ok(Signal::Continue)
    }

    /// Takes the number that the host computed and puts it on top of the values.
    pub fn resume_number(&mut self, bits: u64)
        ensures
            final(self)@ == old(self)@.give(Value::Number(bits)),
    {
        self.values.push(Value::Number(bits));
    }

    /// Takes the text that the host produced and puts it, as a string, on
    /// top of the values.
    pub fn resume_text(&mut self, text: &str) -> (r: Result<Signal, LoxErr>)
        ensures
            steps(
                r,
                final(self)@,
                crate::interp::expr::given(old(self)@, h_intern(old(self)@.heap, text@)),
            ),
    {
        let v = self.heap.intern(text);
        self.found_kept(v)
    }
}

proof fn lemma_methods_none(ast: AstView, list: List, from: int, n: int, scope: usize)
    requires
        0 < from <= n,
        methods_of(ast, list, from, scope) is None,
    ensures
        methods_of(ast, list, n, scope) is None,
    decreases n - from,
{
    if from < n {
        lemma_methods_none(ast, list, from + 1, n, scope);
    }
}


/// The name of the class `class`; empty if there is no such class.
pub open spec fn class_name(h: HeapView, class: usize) -> Seq<char> {
    if class < h.classes.len() {
        h.classes[class as int].name
    } else {
        Seq::empty()
    }
}

/// How a value that is not a number is written.
pub open spec fn shown(h: HeapView, v: Value) -> Seq<char> {
    match v {
        Value::Nil => "nil"@,
        Value::Boolean(b) => if b {
            "true"@
        } else {
            "false"@
        },
        Value::Number(_) => Seq::empty(),
        Value::String(handle) => crate::interp::heap::text_of(h, handle),
        Value::Func(Func::Lox(_)) => "[<function>]"@,
        Value::Func(Func::Native(_)) => "[<native fn>clock]"@,
        Value::Func(Func::Class(c)) => "[<Class "@ + class_name(h, c) + ">]"@,
        Value::Instance(i) => "[<Instance "@ + (if i < h.instances.len() {
            class_name(h, h.instances[i as int].class)
        } else {
            Seq::empty()
        }) + ">]"@,
    }
}

impl Interpreter {
    /// How `v` is written, unless it is a number: numbers are written by the host.
    pub fn display(&self, v: Value) -> (r: Option<String>)
        ensures
            match v {
                Value::Number(_) => r is None,
                _ => r is Some && r->0@ == shown(self@.heap, v),
            },
    {
        match v {
            Value::Nil => Some("nil".to_owned()),
            Value::Boolean(b) => if b {
                Some("true".to_owned())
            } else {
                Some("false".to_owned())
            },
            Value::Number(_) => None,
            Value::String(handle) => Some(self.heap.text(handle).to_owned()),
            Value::Func(Func::Lox(_)) => Some("[<function>]".to_owned()),
            Value::Func(Func::Native(_)) => Some("[<native fn>clock]".to_owned()),
            Value::Func(Func::Class(c)) => Some(
                crate::text::join(
                    crate::text::join("[<Class ", self.heap.class_name(c)).as_str(),
                    ">]",
                ),
            ),
            Value::Instance(i) => {
                let name = match self.heap.class_of(i) {
                    Some(c) => self.heap.class_name(c),
                    None => {
                        proof {
                            reveal_strlit("");
                            assert(""@ =~= Seq::<char>::empty());
                        }
                        ""
                    },
                };
                Some(crate::text::join(crate::text::join("[<Instance ", name).as_str(), ">]"))
            },
        }
    }
}

} // verus!
