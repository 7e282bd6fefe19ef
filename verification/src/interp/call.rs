//! How functions are called and returned from.
use vstd::prelude::*;

use crate::ast::{expr_at, item_at, malformed, name_at, Ast, AstView, ExprKind, List};
use crate::error::LoxErr;
use crate::interp::heap::{
    changes, h_bind, h_define, h_scope, method_of, Change, HeapView, InstanceView,
};
use crate::interp::machine::{
    confused, eval_error, steps, Boundary, Effect, Interpreter, Machine, Signal, Stepped, Task,
};
use crate::interp::value::{Func, Function, NativeFunction, Value};

verus! {

/// Whether the whole of `list` lies within the side table.
pub open spec fn list_ok(extra: Seq<usize>, list: List) -> bool {
    list.len == 0 || list.start + list.len <= extra.len()
}

/// The tasks that evaluate the expressions `list[from..]`, the first of them uppermost.
pub open spec fn arg_tasks(extra: Seq<usize>, list: List, from: int) -> Seq<Task>
    decreases list.len - from,
{
    if from < 0 || from >= list.len {
        Seq::empty()
    } else {
        arg_tasks(extra, list, from + 1).push(Task::Eval(extra[list.start + from]))
    }
}

/// How many arguments `f` takes.  A class takes those of its initializer.
pub open spec fn arity_of(h: HeapView, f: Func) -> usize {
    match f {
        Func::Lox(fun) => fun.def.params.len,
        Func::Native(_) => 0,
        Func::Class(c) => match method_of(h.classes, c as int, "init"@) {
            Some(init) => init.def.params.len,
            None => 0,
        },
    }
}

/// What is said of a call with `got` arguments of something that takes `wanted`.
pub open spec fn arity_message(wanted: usize, got: usize) -> Seq<char> {
    "Expected "@ + crate::text::decimal(wanted as nat) + " args but got "@ + crate::text::decimal(
        got as nat,
    )
}

/// The task `CheckCall(id)`: the callee, on top, has to be something that
/// can be called, with as many parameters as the call has arguments.  Then
/// the arguments are evaluated from left to right, and the call is made.
#[verifier::opaque]
pub open spec fn s_check_call(ast: AstView, m: Machine, id: usize) -> Stepped {
    if m.values.len() == 0 {
        m.fail(confused())
    } else {
        match expr_at(ast.nodes, id as int) {
            Some(ExprKind::Call(e)) => match m.values.last() {
                Value::Func(f) => if arity_of(m.heap, f) != e.args.len {
                    m.fail(eval_error("call"@, arity_message(arity_of(m.heap, f), e.args.len)))
                } else if !list_ok(ast.extra, e.args) {
                    m.fail(malformed())
                } else {
                    Machine {
                        tasks: m.tasks.push(Task::Invoke(id)) + arg_tasks(ast.extra, e.args, 0),
                        ..m
                    }.go()
                },
                _ => m.fail(eval_error("call"@, "Invalid call on non-func value"@)),
            },
            _ => m.fail(malformed()),
        }
    }
}

/// The heap after the parameters `params[i..]` have been bound to the
/// arguments `args[i..]` in scope `at`.
pub open spec fn bound_params(
    ast: AstView,
    h: HeapView,
    at: usize,
    params: List,
    args: Seq<Value>,
    i: int,
) -> Change<()>
    decreases params.len - i,
{
    if i < 0 || i >= params.len || i >= args.len() {
        Change { heap: h, r: Ok(()) }
    } else {
        match item_at(ast.extra, params, i) {
            None => Change { heap: h, r: Err(malformed()) },
            Some(token) => match name_at(ast.tokens, token as int) {
                None => Change { heap: h, r: Err(crate::resolver::no_name()) },
                Some(name) => {
                    let c = h_define(h, at, name, args[i]);
                    if c.r is Err {
                        c
                    } else {
                        bound_params(ast, c.heap, at, params, args, i + 1)
                    }
                },
            },
        }
    }
}

/// The call of `fun` with `args`: a scope below that of the function binds
/// the parameters; the body runs as a block in a scope below that; the
/// caller's scope is kept for the return.
#[verifier::opaque]
pub open spec fn s_call(ast: AstView, m: Machine, fun: Function, args: Seq<Value>, mark: usize)
    -> Stepped {
    let outer = h_scope(m.heap, fun.scope);
    match outer.r {
        Err(e) => m.on(outer.heap).fail(e),
        Ok(p) => {
            let params = bound_params(ast, outer.heap, p, fun.def.params, args, 0);
            match params.r {
                Err(e) => m.on(params.heap).fail(e),
                Ok(_) => {
                    let inner = h_scope(params.heap, p);
                    match inner.r {
                        Err(e) => m.on(inner.heap).fail(e),
                        Ok(b) => Machine {
                            heap: inner.heap,
                            scope: b,
                            tasks: m.tasks.push(
                                Task::Boundary(
                                    Boundary {
                                        scope: m.scope,
                                        is_initializer: fun.is_initializer,
                                        closure: fun.scope,
                                        mark,
                                    },
                                ),
                            ).push(Task::Block(fun.def.body.stmts, 0)),
                            ..m
                        }.go(),
                    }
                },
            }
        },
    }
}

/// `h` with a new instance of `class`.
pub open spec fn with_instance(h: HeapView, class: usize) -> HeapView {
    HeapView { instances: h.instances.push(InstanceView { class, fields: Map::empty() }), ..h }
}

/// The call of the class `class` with `args`: a new instance, which the
/// initializer of the class, if it has one, is called on.
#[verifier::opaque]
pub open spec fn s_construct(ast: AstView, m: Machine, class: usize, args: Seq<Value>) -> Stepped {
    let mark = m.heap.scopes.len() as usize;
    let made = with_instance(m.heap, class);
    let instance = m.heap.instances.len() as usize;
    match method_of(m.heap.classes, class as int, "init"@) {
        None => m.on(made).give(Value::Instance(instance)).go(),
        Some(init) => {
            let b = h_bind(made, init, instance);
            match b.r {
                Err(e) => m.on(b.heap).fail(e),
                Ok(f) => s_call(ast, m.on(b.heap), f, args, mark),
            }
        },
    }
}

/// The task `Invoke(id)`: the callee and, above it, the arguments of the
/// call are taken from the values, and the callee is called.
#[verifier::opaque]
pub open spec fn s_invoke(ast: AstView, m: Machine, id: usize) -> Stepped {
    match expr_at(ast.nodes, id as int) {
        Some(ExprKind::Call(e)) => if m.values.len() <= e.args.len {
            m.fail(confused())
        } else {
            let base = m.values.len() - e.args.len - 1;
            let args = m.values.subrange(base + 1, m.values.len() as int);
            let rest = Machine { values: m.values.take(base), ..m };
            match m.values[base] {
                Value::Func(Func::Lox(fun)) => s_call(
                    ast,
                    rest,
                    fun,
                    args,
                    m.heap.scopes.len() as usize,
                ),
                Value::Func(Func::Native(NativeFunction::Clock)) => rest.ask(Effect::Clock),
                Value::Func(Func::Class(c)) => s_construct(ast, rest, c, args),
                _ => m.fail(confused()),
            }
        },
        _ => m.fail(malformed()),
    }
}

/// What the scope `at` itself binds to `this`.
pub open spec fn this_of(h: HeapView, at: usize) -> Option<Value> {
    if at < h.scopes.len() && h.scopes[at as int].vars.contains_key("this"@) {
        Some(h.scopes[at as int].vars["this"@])
    } else {
        None
    }
}

/// What a call that ends at `b` with the value `v` returns: `this` from an
/// initializer, and `v` from anything else.
pub open spec fn returned(h: HeapView, b: Boundary, v: Value) -> Option<Value> {
    if b.is_initializer {
        this_of(h, b.closure)
    } else {
        Some(v)
    }
}

/// The task `Boundary(b)`: the body of a call has run to its end without a
/// `return`.  The call returns `nil`, or `this` from an initializer.
#[verifier::opaque]
pub open spec fn s_boundary(m: Machine, b: Boundary) -> Stepped {
    match returned(m.heap, b, Value::Nil) {
        Some(v) => m.inside(b.scope).release(b.mark).give(v).go(),
        None => m.fail(confused()),
    }
}

/// How many tasks lie below the innermost call boundary and with it; 0 if there is none.
pub open spec fn boundary_at(tasks: Seq<Task>) -> int
    decreases tasks.len(),
{
    if tasks.len() == 0 {
        0
    } else if tasks.last() is Boundary {
        tasks.len() as int
    } else {
        boundary_at(tasks.drop_last())
    }
}

/// The task `Return`: the value on top is returned from the innermost
/// call.  What the call had left to do is dropped.
#[verifier::opaque]
pub open spec fn s_return(m: Machine) -> Stepped {
    let n = boundary_at(m.tasks);
    if m.values.len() == 0 {
        m.fail(confused())
    } else if n == 0 {
        m.fail(eval_error("return"@, "Can't return from non-function scope"@))
    } else {
        match m.tasks[n - 1] {
            Task::Boundary(b) => match returned(m.heap, b, m.values.last()) {
                Some(v) => Machine {
                    tasks: m.tasks.take(n - 1),
                    scope: b.scope,
                    values: m.values.drop_last().push(v),
                    ..m
                }.release(b.mark).go(),
                None => m.fail(confused()),
            },
            _ => m.fail(confused()),
        }
    }
}

proof fn lemma_boundary_at(tasks: Seq<Task>)
    ensures
        0 <= boundary_at(tasks) <= tasks.len(),
        boundary_at(tasks) > 0 ==> tasks[boundary_at(tasks) - 1] is Boundary,
    decreases tasks.len(),
{
    if tasks.len() > 0 && !(tasks.last() is Boundary) {
        lemma_boundary_at(tasks.drop_last());
    }
}

impl Interpreter {
    /// How many arguments `f` takes.
    pub fn arity(&self, f: Func) -> (n: usize)
        ensures
            n == arity_of(self@.heap, f),
    {
        match f {
            Func::Lox(fun) => fun.def.params.len,
            Func::Native(native) => native.arity(),
            Func::Class(c) => {
                let key = "init".to_owned();
                match self.heap.find_method(c, &key) {
                    Some(init) => init.def.params.len,
                    None => 0,
                }
            },
        }
    }

    /// Pushes the tasks that evaluate the expressions of `list`.
    fn push_args(&mut self, ast: &Ast, list: List)
        requires
            list_ok(ast@.extra, list),
        ensures
            final(self)@ == (Machine {
                tasks: old(self)@.tasks + arg_tasks(ast@.extra, list, 0),
                ..old(self)@
            }),
    {
        let mut i: usize = list.len;
        assert(self@.tasks =~= old(self)@.tasks + arg_tasks(ast@.extra, list, i as int));
        while i > 0
            invariant
                i <= list.len,
                list_ok(ast@.extra, list),
                self@ == (Machine {
                    tasks: old(self)@.tasks + arg_tasks(ast@.extra, list, i as int),
                    ..old(self)@
                }),
            decreases i,
        {
            i -= 1;
            let item = match ast.item(list, i) {
                Some(item) => item,
                None => 0,
            };
            self.tasks.push(Task::Eval(item));
            assert(self@.tasks =~= old(self)@.tasks + arg_tasks(ast@.extra, list, i as int));
        }
    }

    /// Does the task `CheckCall(id)`.
    pub fn check_call(&mut self, ast: &Ast, id: usize) -> (r: Result<Signal, LoxErr>)
        ensures
            steps(r, final(self)@, s_check_call(ast@, old(self)@, id)),
    {
        proof {
            reveal(s_check_call);
        }
        let callee = match self.top() {
            Some(v) => v,
            None => {
                return self.confused();
            },
        };
        let args = match ast.expr(id) {
            Some(ExprKind::Call(e)) => e.args,
            _ => {
                return self.fail(LoxErr::internal("malformed syntax tree"));
            },
        };
        let f = match callee {
            Value::Func(f) => f,
            _ => {
                return self.fail_eval("call", "Invalid call on non-func value");
            },
        };
        let wanted = self.arity(f);
        if wanted != args.len {
            let mut message = "Expected ".to_owned();
            crate::text::push_decimal(&mut message, wanted);
            message.append(" args but got ");
            crate::text::push_decimal(&mut message, args.len);
            return self.fail_eval("call", message.as_str());
        }
        let fits = args.len == 0 || ast.item(args, args.len - 1).is_some();
        if !fits {
            return self.fail(LoxErr::internal("malformed syntax tree"));
        }
        self.push(Task::Invoke(id));
        self.push_args(ast, args);
        Ok(Signal::Continue)
    }

    /// Binds the parameters `params[i..]` to the arguments `args[i..]` in scope `at`.
    fn bind_params(&mut self, ast: &Ast, at: usize, params: List, args: &Vec<Value>) -> (r: Result<
        (),
        LoxErr,
    >)
        ensures
            final(self)@ == old(self)@.on(final(self)@.heap),
            changes(
                r,
                final(self)@.heap,
                bound_params(ast@, old(self)@.heap, at, params, args@, 0),
            ),
    {
        let mut i: usize = 0;
        while i < params.len && i < args.len()
            invariant
                self@ == old(self)@.on(self@.heap),
                bound_params(ast@, self@.heap, at, params, args@, i as int) == bound_params(
                    ast@,
                    old(self)@.heap,
                    at,
                    params,
                    args@,
                    0,
                ),
            decreases params.len - i,
        {
            let name = match ast.item(params, i) {
                None => {
                    return Err(LoxErr::internal("malformed syntax tree"));
                },
                Some(token) => match ast.name(token) {
                    Ok(name) => name,
                    Err(e) => {
                        return Err(e);
                    },
                },
            };
            match self.heap.define(at, name, args[i]) {
                Ok(()) => {},
                Err(e) => {
                    return Err(e);
                },
            }
            i += 1;
        }
        Ok(())
    }

    /// Calls `fun` with `args`.  The return goes back to `mark` scopes.
    pub fn call(&mut self, ast: &Ast, fun: Function, args: &Vec<Value>, mark: usize) -> (r: Result<
        Signal,
        LoxErr,
    >)
        ensures
            steps(r, final(self)@, s_call(ast@, old(self)@, fun, args@, mark)),
    {
        proof {
            reveal(s_call);
        }
        let outer = match self.heap.open_scope(fun.scope) {
            Ok(p) => p,
            Err(e) => {
                return self.fail(e);
            },
        };
        match self.bind_params(ast, outer, fun.def.params, args) {
            Ok(()) => {},
            Err(e) => {
                return self.fail(e);
            },
        }
        let inner = match self.heap.open_scope(outer) {
            Ok(b) => b,
            Err(e) => {
                return self.fail(e);
            },
        };
        self.push(
            Task::Boundary(
                Boundary {
                    scope: self.scope,
                    is_initializer: fun.is_initializer,
                    closure: fun.scope,
                    mark,
                },
            ),
        );
        self.push(Task::Block(fun.def.body.stmts, 0));
        self.scope = inner;
        Ok(Signal::Continue)
    }

    /// Calls the class `class` with `args`.
    pub fn construct(&mut self, ast: &Ast, class: usize, args: &Vec<Value>) -> (r: Result<
        Signal,
        LoxErr,
    >)
        ensures
            steps(r, final(self)@, s_construct(ast@, old(self)@, class, args@)),
    {
        proof {
            reveal(s_construct);
        }
        let mark = self.heap.scopes_len();
        let key = "init".to_owned();
        let init = self.heap.find_method(class, &key);
        let instance = self.heap.new_instance(class);
        match init {
            None => self.give(Value::Instance(instance)),
            Some(init) => match self.heap.bind(init, instance) {
                Ok(f) => self.call(ast, f, args, mark),
                Err(e) => self.fail(e),
            },
        }
    }

    /// Does the task `Invoke(id)`.
    pub fn invoke(&mut self, ast: &Ast, id: usize) -> (r: Result<Signal, LoxErr>)
        ensures
            steps(r, final(self)@, s_invoke(ast@, old(self)@, id)),
    {
        proof {
            reveal(s_invoke);
        }
        let argc = match ast.expr(id) {
            Some(ExprKind::Call(e)) => e.args.len,
            _ => {
                return self.fail(LoxErr::internal("malformed syntax tree"));
            },
        };
        let n = self.values.len();
        if n <= argc {
            return self.confused();
        }
        let base = n - argc - 1;
        let callee = self.values[base];
        let callable = match callee {
            Value::Func(f) => f,
            _ => {
                return self.confused();
            },
        };
        let args = self.values.split_off(base + 1);
        let _ = self.values.pop();
        assert(self@.values =~= old(self)@.values.take(base as int));
        assert(args@ =~= old(self)@.values.subrange(base + 1, n as int));
        match callable {
            Func::Lox(fun) => {
                let mark = self.heap.scopes_len();
                self.call(ast, fun, &args, mark)
            },
            Func::Native(NativeFunction::Clock) => Ok(Signal::Effect(Effect::Clock)),
            Func::Class(c) => self.construct(ast, c, &args),
        }
    }

    /// What a call that ends at `b` with the value `v` returns.
    fn returned(&self, b: Boundary, v: Value) -> (r: Option<Value>)
        ensures
            r == returned(self@.heap, b, v),
    {
        if b.is_initializer {
            if b.closure < self.heap.scopes_len() {
                match self.heap.scopes().get_at(b.closure, 0, "this") {
                    Ok(v) => Some(v),
                    Err(_) => None,
                }
            } else {
                None
            }
        } else {
            Some(v)
        }
    }

    /// Does the task `Boundary(b)`.
    pub fn boundary(&mut self, b: Boundary) -> (r: Result<Signal, LoxErr>)
        ensures
            steps(r, final(self)@, s_boundary(old(self)@, b)),
    {
        proof {
            reveal(s_boundary);
        }
        match self.returned(b, Value::Nil) {
            Some(v) => {
                self.scope = b.scope;
                self.release(b.mark);
                self.give(v)
            },
            None => self.confused(),
        }
    }

    /// Does the task `Return`.
    pub fn return_stmt(&mut self) -> (r: Result<Signal, LoxErr>)
        ensures
            steps(r, final(self)@, s_return(old(self)@)),
    {
        proof {
            reveal(s_return);
            lemma_boundary_at(self@.tasks);
        }
        let v = match self.top() {
            Some(v) => v,
            None => {
                return self.confused();
            },
        };
        let mut n: usize = self.tasks.len();
        assert(self@.tasks.take(n as int) =~= self@.tasks);
        while n > 0
            invariant
                n <= self.tasks.len(),
                self@ == old(self)@,
                self@.values.len() > 0,
                v == self@.values.last(),
                boundary_at(self@.tasks.take(n as int)) == boundary_at(self@.tasks),
            decreases n,
        {
            proof {
                reveal(s_return);
                lemma_boundary_at(self@.tasks);
            }
            assert(self@.tasks.take(n as int).drop_last() =~= self@.tasks.take(n - 1));
            match self.tasks[n - 1] {
                Task::Boundary(b) => {
                    match self.returned(b, v) {
                        Some(result) => {
                            self.tasks.truncate(n - 1);
                            let _ = self.values.pop();
                            self.values.push(result);
                            self.scope = b.scope;
                            self.release(b.mark);
                            return Ok(Signal::Continue);
                        },
                        None => {
                            return self.confused();
                        },
                    }
                },
                _ => {},
            }
            n -= 1;
        }
        assert(self@.tasks.take(0) =~= Seq::<Task>::empty());
        self.fail_eval("return", "Can't return from non-function scope")
    }
}

} // verus!
