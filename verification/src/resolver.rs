//! The resolver: one walk over the syntax tree that finds, for every use of
//! a local variable, how many scopes lie between the use and the binding,
//! and that rejects programs which break a static rule.
//!
//! The functions whose names start with `r_` say what the resolver does;
//! the methods of [`Resolver`] compute exactly that.
use vstd::prelude::*;

use crate::ast::{
    expr_at, item_at, malformed, name_at, stmt_at, Ast, AstView, ExprFunction, ExprKind, List, Lit,
    Stmt, StmtClass,
};
use crate::error::{LoxErr, LoxErrView};
use crate::frame::{binds, put, value_of, Frame};

verus! {

/// What kind of function the resolver is in.
#[derive(Clone, Copy, PartialEq, Eq, Debug, Structural)]
pub enum FuncType {
    Function,
    Method,
    Initializer,
    /// Outside every function.
    NoFunction,
}

/// What kind of class the resolver is in.
#[derive(Clone, Copy, PartialEq, Eq, Debug, Structural)]
pub enum ClassType {
    /// Outside every class.
    NoClass,
    Class,
    SubClass,
}

impl Default for ClassType {
    fn default() -> (c: ClassType)
        ensures
            c == ClassType::NoClass,
    {
        ClassType::NoClass
    }
}

/// How far a local variable has come.  A status is only ever followed by a later one.
#[derive(Clone, Copy, PartialEq, Eq, Debug, Structural)]
pub enum VarStatus {
    Declared,
    Defined,
    Assigned,
}

impl Default for VarStatus {
    fn default() -> (s: VarStatus)
        ensures
            s == VarStatus::Declared,
    {
        VarStatus::Declared
    }
}

/// The place of a status in the order `Declared < Defined < Assigned`.
pub open spec fn status_rank(s: VarStatus) -> int {
    match s {
        VarStatus::Declared => 0,
        VarStatus::Defined => 1,
        VarStatus::Assigned => 2,
    }
}

/// For each resolved expression, the number of scopes between it and the binding it uses.
pub struct Locals {
    depths: Vec<Option<usize>>,
}

impl View for Locals {
    type V = Map<usize, usize>;

    closed spec fn view(&self) -> Map<usize, usize> {
        Map::new(
            |e: usize| e < self.depths@.len() && self.depths@[e as int] is Some,
            |e: usize| self.depths@[e as int]->0,
        )
    }
}

impl Locals {
    /// No expression is resolved.
    pub fn new() -> (l: Locals)
        ensures
            l@ == Map::<usize, usize>::empty(),
    {
        let l = Locals { depths: Vec::new() };
        assert(l@ =~= Map::<usize, usize>::empty());
        l
    }

    /// Records that the binding used by `expr` lies `depth` scopes out.
    pub fn resolve(&mut self, expr: usize, depth: usize)
        ensures
            final(self)@ == old(self)@.insert(expr, depth),
    {
        while self.depths.len() <= expr
            invariant
                self@ == old(self)@,
            decreases expr + 1 - self.depths.len(),
        {
            let ghost before = self@;
            self.depths.push(None);
            assert(self@ =~= before);
        }
        self.depths.set(expr, Some(depth));
        assert(self@ =~= old(self)@.insert(expr, depth));
    }

    /// The depth recorded for `expr`.
    pub fn get(&self, expr: usize) -> (r: Option<usize>)
        ensures
            r == if self@.contains_key(expr) {
                Some(self@[expr])
            } else {
                None
            },
    {
        if expr < self.depths.len() {
            self.depths[expr]
        } else {
            None
        }
    }
}

/// A frame of the resolver: the names declared in one scope, each with its status.
pub type Names = Seq<(Seq<char>, VarStatus)>;

/// The state of a resolution.
pub struct Resolving {
    /// The open scopes, innermost last.  Global scope has no frame.
    pub stack: Seq<Names>,
    pub function: FuncType,
    pub class: ClassType,
    pub locals: Map<usize, usize>,
}

/// The state after a piece of resolution, and whether the piece succeeded.
pub struct Resolved {
    pub st: Resolving,
    pub r: Result<(), LoxErrView>,
}

/// Success, with the resolver left in `st`.
pub open spec fn done(st: Resolving) -> Resolved {
    Resolved { st, r: Ok(()) }
}

/// The error `e`, with the resolver left in `st`.
pub open spec fn failed(st: Resolving, e: LoxErrView) -> Resolved {
    Resolved { st, r: Err(e) }
}

/// The error of the static rule `what`, broken for `name`.
pub open spec fn rule(what: Seq<char>, name: Seq<char>) -> LoxErrView {
    LoxErrView::Resolve { message: what + name }
}

/// The error of the static rule `what`.
pub open spec fn broken(what: Seq<char>) -> LoxErrView {
    LoxErrView::Resolve { message: what }
}

/// The error of a token that should be a name and is not.
pub open spec fn no_name() -> LoxErrView {
    LoxErrView::Internal { message: "No string value defined for identifier token"@ }
}

/// `st` with its innermost frame replaced.
pub open spec fn with_top(st: Resolving, frame: Names) -> Resolving {
    Resolving { stack: st.stack.update(st.stack.len() - 1, frame), ..st }
}

/// `name` enters the innermost scope as `Declared`, unless it is there already.
#[verifier::opaque]
pub open spec fn r_declare(st: Resolving, name: Seq<char>) -> Resolved {
    if st.stack.len() == 0 {
        done(st)
    } else if binds(st.stack.last(), name) {
        failed(st, rule("Variable already declared in current scope: "@, name))
    } else {
        done(with_top(st, put(st.stack.last(), name, VarStatus::Declared)))
    }
}

/// `name`, declared in the innermost scope, becomes `Defined`.
#[verifier::opaque]
pub open spec fn r_define(st: Resolving, name: Seq<char>) -> Resolved {
    if st.stack.len() == 0 {
        done(st)
    } else if value_of(st.stack.last(), name) == Some(VarStatus::Declared) {
        done(with_top(st, put(st.stack.last(), name, VarStatus::Defined)))
    } else {
        failed(st, rule("Can't define local variable before it is declared: "@, name))
    }
}

/// `name`, defined in the innermost scope, becomes `Assigned`.
#[verifier::opaque]
pub open spec fn r_assign(st: Resolving, name: Seq<char>) -> Resolved {
    if st.stack.len() == 0 {
        done(st)
    } else if value_of(st.stack.last(), name) == Some(VarStatus::Defined) || value_of(
        st.stack.last(),
        name,
    ) == Some(VarStatus::Assigned) {
        done(with_top(st, put(st.stack.last(), name, VarStatus::Assigned)))
    } else {
        failed(st, rule("Can't assign local variable before it is defined: "@, name))
    }
}

/// `name` is declared, defined and assigned at once, as a parameter or a function is.
#[verifier::opaque]
pub open spec fn r_introduce(st: Resolving, name: Seq<char>) -> Resolved {
    let declared = r_declare(st, name);
    if declared.r is Err {
        declared
    } else {
        let defined = r_define(declared.st, name);
        if defined.r is Err {
            defined
        } else {
            r_assign(defined.st, name)
        }
    }
}

/// A new innermost scope.
#[verifier::opaque]
pub open spec fn r_begin(st: Resolving) -> Resolving {
    Resolving { stack: st.stack.push(Seq::empty()), ..st }
}

/// A new innermost scope that holds `name`, assigned.
#[verifier::opaque]
pub open spec fn r_begin_with(st: Resolving, name: Seq<char>) -> Resolving {
    Resolving { stack: st.stack.push(seq![(name, VarStatus::Assigned)]), ..st }
}

/// The first name of `frame`, from position `from` on, that was never assigned.
pub open spec fn unassigned(frame: Names, from: int) -> Option<Seq<char>>
    decreases frame.len() - from,
{
    if from < 0 || from >= frame.len() {
        None
    } else if frame[from].1 != VarStatus::Assigned {
        Some(frame[from].0)
    } else {
        unassigned(frame, from + 1)
    }
}

/// The innermost scope closes.  A variable of it that was never assigned is an error.
#[verifier::opaque]
pub open spec fn r_end(st: Resolving) -> Resolved {
    if st.stack.len() == 0 {
        done(st)
    } else {
        let rest = Resolving { stack: st.stack.drop_last(), ..st };
        match unassigned(st.stack.last(), 0) {
            Some(name) => failed(rest, rule("Variable not assigned: "@, name)),
            None => done(rest),
        }
    }
}

/// How many scopes lie between the innermost scope and the nearest one that declares `name`.
pub open spec fn depth_of(stack: Seq<Names>, name: Seq<char>) -> Option<int>
    decreases stack.len(),
{
    if stack.len() == 0 {
        None
    } else if binds(stack.last(), name) {
        Some(0)
    } else {
        match depth_of(stack.drop_last(), name) {
            Some(d) => Some(d + 1),
            None => None,
        }
    }
}

/// The use of `name` by expression `expr` is resolved: its depth is
/// recorded if a scope declares it, and nothing is if it is global.  A use
/// that assigns marks the variable as assigned.
#[verifier::opaque]
pub open spec fn r_local(st: Resolving, expr: usize, name: Seq<char>, assign: bool) -> Resolving {
    match depth_of(st.stack, name) {
        None => st,
        Some(d) => {
            let at = st.stack.len() - 1 - d;
            Resolving {
                locals: st.locals.insert(expr, d as usize),
                stack: if assign {
                    st.stack.update(at, put(st.stack[at], name, VarStatus::Assigned))
                } else {
                    st.stack
                },
                ..st
            }
        },
    }
}

/// The kind of function that a class member named `name` is.
pub open spec fn member_type(name: Seq<char>) -> FuncType {
    if name == "init"@ {
        FuncType::Initializer
    } else {
        FuncType::Method
    }
}

/// The expressions `list[i..]`, children of node `parent`, in order.
pub open spec fn r_exprs(ast: AstView, st: Resolving, parent: int, list: List, i: int) -> Resolved
    decreases parent, 0int, list.len - i,
{
    if i < 0 || i >= list.len {
        done(st)
    } else {
        match item_at(ast.extra, list, i) {
            None => failed(st, malformed()),
            Some(id) => if id >= parent {
                failed(st, malformed())
            } else {
                let first = r_expr(ast, st, id as int);
                if first.r is Err {
                    first
                } else {
                    r_exprs(ast, first.st, parent, list, i + 1)
                }
            },
        }
    }
}

/// The statements `list[i..]`, children of node `parent`, in order.
pub open spec fn r_stmts(ast: AstView, st: Resolving, parent: int, list: List, i: int) -> Resolved
    decreases parent, 0int, list.len - i,
{
    if i < 0 || i >= list.len {
        done(st)
    } else {
        match item_at(ast.extra, list, i) {
            None => failed(st, malformed()),
            Some(id) => if id >= parent {
                failed(st, malformed())
            } else {
                let first = r_stmt(ast, st, id as int);
                if first.r is Err {
                    first
                } else {
                    r_stmts(ast, first.st, parent, list, i + 1)
                }
            },
        }
    }
}

/// The parameters `list[i..]`: each is introduced in the innermost scope.
pub open spec fn r_params(ast: AstView, st: Resolving, list: List, i: int) -> Resolved
    decreases list.len - i,
{
    if i < 0 || i >= list.len {
        done(st)
    } else {
        match item_at(ast.extra, list, i) {
            None => failed(st, malformed()),
            Some(token) => match name_at(ast.tokens, token as int) {
                None => failed(st, no_name()),
                Some(name) => {
                    let first = r_introduce(st, name);
                    if first.r is Err {
                        first
                    } else {
                        r_params(ast, first.st, list, i + 1)
                    }
                },
            },
        }
    }
}

/// A block that belongs to node `parent`: a scope around its statements.
pub open spec fn r_block(ast: AstView, st: Resolving, parent: int, stmts: List) -> Resolved
    decreases parent, 1int, 0int,
{
    let inner = r_stmts(ast, r_begin(st), parent, stmts, 0);
    if inner.r is Err {
        inner
    } else {
        r_end(inner.st)
    }
}

/// A function that belongs to node `parent`: a scope with the parameters,
/// and in it the body as a block.  Inside, returns are judged by `kind`.
pub open spec fn r_function(
    ast: AstView,
    st: Resolving,
    parent: int,
    def: ExprFunction,
    kind: FuncType,
) -> Resolved
    decreases parent, 2int, 0int,
{
    if kind == FuncType::NoFunction {
        failed(st, LoxErrView::Internal { message: "a function has to be of some kind"@ })
    } else {
        let params = r_params(
            ast,
            r_begin(Resolving { function: kind, ..st }),
            def.params,
            0,
        );
        if params.r is Err {
            params
        } else {
            let body = r_block(ast, params.st, parent, def.body.stmts);
            if body.r is Err {
                body
            } else {
                let closed = r_end(body.st);
                if closed.r is Err {
                    closed
                } else {
                    done(Resolving { function: st.function, ..closed.st })
                }
            }
        }
    }
}

/// The methods `list[i..]` of the class at node `parent`.
pub open spec fn r_methods(ast: AstView, st: Resolving, parent: int, list: List, i: int)
    -> Resolved
    decreases parent, 3int, list.len - i,
{
    if i < 0 || i >= list.len {
        done(st)
    } else {
        match item_at(ast.extra, list, i) {
            None => failed(st, malformed()),
            Some(id) => match stmt_at(ast.nodes, id as int) {
                Some(Stmt::Fun(fun)) => match name_at(ast.tokens, fun.name as int) {
                    None => failed(st, no_name()),
                    Some(name) => if id >= parent {
                        failed(st, malformed())
                    } else {
                        let first = r_function(ast, st, id as int, fun.def, member_type(name));
                        if first.r is Err {
                            first
                        } else {
                            r_methods(ast, first.st, parent, list, i + 1)
                        }
                    },
                },
                _ => failed(st, malformed()),
            },
        }
    }
}

/// The expression at node `child`, which belongs to node `parent`.
pub open spec fn r_child(ast: AstView, st: Resolving, parent: int, child: usize) -> Resolved
    decreases parent, 0int, 0int,
{
    if child >= parent {
        failed(st, malformed())
    } else {
        r_expr(ast, st, child as int)
    }
}

/// The statement at node `child`, which belongs to node `parent`.
pub open spec fn r_child_stmt(ast: AstView, st: Resolving, parent: int, child: usize) -> Resolved
    decreases parent, 0int, 0int,
{
    if child >= parent {
        failed(st, malformed())
    } else {
        r_stmt(ast, st, child as int)
    }
}

/// Two expressions that belong to node `parent`, one after the other.
pub open spec fn r_pair(ast: AstView, st: Resolving, parent: int, first: usize, second: usize)
    -> Resolved
    decreases parent, 0int, 1int,
{
    let one = r_child(ast, st, parent, first);
    if one.r is Err {
        one
    } else {
        r_child(ast, one.st, parent, second)
    }
}

/// The use of the name at token `token` by expression `id`.
pub open spec fn r_use(ast: AstView, st: Resolving, id: int, token: usize, assign: bool)
    -> Resolved {
    match name_at(ast.tokens, token as int) {
        None => failed(st, no_name()),
        Some(name) => done(r_local(st, id as usize, name, assign)),
    }
}

/// The expression at node `id`.
pub open spec fn r_expr(ast: AstView, st: Resolving, id: int) -> Resolved
    decreases id, 4int, 0int,
{
    match expr_at(ast.nodes, id) {
        None => failed(st, malformed()),
        Some(kind) => match kind {
            ExprKind::Literal(_) => done(st),
            ExprKind::Unary(e) => r_child(ast, st, id, e.right),
            ExprKind::Grouping(e) => r_child(ast, st, id, e.expression),
            ExprKind::Binary(e) => r_pair(ast, st, id, e.left, e.right),
            ExprKind::Logical(e) => r_pair(ast, st, id, e.left, e.right),
            ExprKind::Get(e) => r_child(ast, st, id, e.expr),
            ExprKind::SetField(e) => r_pair(ast, st, id, e.target, e.value),
            ExprKind::Call(e) => {
                let callee = r_child(ast, st, id, e.callee);
                if callee.r is Err {
                    callee
                } else {
                    r_exprs(ast, callee.st, id, e.args, 0)
                }
            },
            ExprKind::Function(def) => r_function(ast, st, id, def, FuncType::Function),
            ExprKind::Var(token) => match name_at(ast.tokens, token as int) {
                None => failed(st, no_name()),
                Some(name) => if st.stack.len() > 0 && value_of(st.stack.last(), name) == Some(
                    VarStatus::Declared,
                ) {
                    failed(st, rule("Can't read local variable from its own initializer: "@, name))
                } else {
                    done(r_local(st, id as usize, name, false))
                },
            },
            ExprKind::Assign(e) => {
                let value = r_child(ast, st, id, e.expression);
                if value.r is Err {
                    value
                } else {
                    r_use(ast, value.st, id, e.name, true)
                }
            },
            ExprKind::This(_) => if st.class == ClassType::NoClass {
                failed(st, broken("Can't use the `this` keyword outside a class statement."@))
            } else {
                done(r_local(st, id as usize, "this"@, true))
            },
            ExprKind::Super(_) => match st.class {
                ClassType::NoClass => failed(
                    st,
                    broken("Can't use the `super` keyword outside a class statement."@),
                ),
                ClassType::Class => failed(
                    st,
                    broken("Can't use the `super` keyword in a class without subclass."@),
                ),
                ClassType::SubClass => done(r_local(st, id as usize, "super"@, true)),
            },
        },
    }
}

/// Whether the expression at `id` is the literal `nil`.
pub open spec fn is_nil_literal(ast: AstView, id: usize) -> bool {
    expr_at(ast.nodes, id as int) == Some(ExprKind::Literal(Lit::Nil))
}

/// The superclass `parent` of the class named `name`: it has to be a
/// variable of another name.  `seen` is its resolution inside a subclass;
/// after it a scope that holds `super` opens.
#[verifier::opaque]
pub open spec fn r_superclass(
    ast: AstView,
    st: Resolving,
    name: Seq<char>,
    parent: usize,
    seen: Resolved,
) -> Resolved {
    match expr_at(ast.nodes, parent as int) {
        Some(ExprKind::Var(token)) => match name_at(ast.tokens, token as int) {
            None => failed(st, no_name()),
            Some(parent_name) => if parent_name == name {
                failed(st, broken("classes cannot inherit from themselves"@))
            } else if seen.r is Err {
                seen
            } else {
                done(r_begin_with(seen.st, "super"@))
            },
        },
        _ => failed(st, LoxErrView::Internal { message: "a superclass has to be a name"@ }),
    }
}

/// `st` inside a subclass.
pub open spec fn in_subclass(st: Resolving) -> Resolving {
    Resolving { class: ClassType::SubClass, ..st }
}

/// `st` inside a class.
pub open spec fn in_class(st: Resolving) -> Resolving {
    Resolving { class: ClassType::Class, ..st }
}

/// The name of a class is introduced inside the class.
#[verifier::opaque]
pub open spec fn r_class_name(ast: AstView, st: Resolving, class: StmtClass) -> Resolved {
    match name_at(ast.tokens, class.name as int) {
        None => failed(st, no_name()),
        Some(name) => r_introduce(in_class(st), name),
    }
}

/// The class is left: what surrounded it is what the resolver is in again.
#[verifier::opaque]
pub open spec fn r_class_end(st: Resolving, body: Resolved) -> Resolved {
    if body.r is Err {
        body
    } else {
        done(Resolving { class: st.class, ..body.st })
    }
}

/// The methods of the class at node `id`, in a scope that holds `this`.
/// With `nested`, the scope that holds `super` closes after it.
pub open spec fn r_class_body(ast: AstView, st: Resolving, id: int, methods: List, nested: bool)
    -> Resolved
    decreases id, 4int, 0int,
{
    let inside = r_methods(ast, r_begin_with(st, "this"@), id, methods, 0);
    if inside.r is Err {
        inside
    } else {
        let inner = r_end(inside.st);
        if inner.r is Err || !nested {
            inner
        } else {
            r_end(inner.st)
        }
    }
}

/// The token of the superclass of `class`, as an expression; 0 if it has none.
pub open spec fn parent_of(class: StmtClass) -> usize {
    match class.superclass {
        Some(parent) => parent,
        None => 0,
    }
}

/// The name of the class `class`; empty if its token is not a name.
pub open spec fn class_name_of(ast: AstView, class: StmtClass) -> Seq<char> {
    match name_at(ast.tokens, class.name as int) {
        Some(name) => name,
        None => Seq::empty(),
    }
}

/// The superclass of `class`, if it has one, after the name of the class has
/// been introduced with outcome `named`.  `seen` is the resolution of the
/// superclass inside a subclass.
#[verifier::opaque]
pub open spec fn r_class_over(ast: AstView, named: Resolved, class: StmtClass, seen: Resolved)
    -> Resolved {
    if named.r is Err {
        named
    } else {
        match class.superclass {
            None => named,
            Some(parent) => r_superclass(
                ast,
                named.st,
                class_name_of(ast, class),
                parent,
                seen,
            ),
        }
    }
}

/// The methods of a class, after its superclass has been resolved with
/// outcome `over`.  `body` is the resolution of the methods.
#[verifier::opaque]
pub open spec fn r_class_inside(over: Resolved, body: Resolved) -> Resolved {
    if over.r is Err {
        over
    } else {
        body
    }
}

/// A `return`: not outside a function, and not with a value in an
/// initializer.  `nil` says whether the value is the literal `nil`, and
/// `value` is the resolution of the value.
#[verifier::opaque]
pub open spec fn r_return(st: Resolving, nil: bool, value: Resolved) -> Resolved {
    match st.function {
        FuncType::NoFunction => failed(st, broken("Can't return from non-function scope"@)),
        FuncType::Initializer => if nil {
            value
        } else {
            failed(st, broken("Can't return a value from class initializer"@))
        },
        _ => value,
    }
}

/// A variable declaration at node `id`: the name is declared, the
/// initializer resolved, and the name defined; with an initializer it is
/// assigned too.
pub open spec fn r_var(ast: AstView, st: Resolving, id: int, token: usize, expr: Option<usize>)
    -> Resolved
    decreases id, 1int, 0int,
{
    match name_at(ast.tokens, token as int) {
        None => failed(st, no_name()),
        Some(name) => {
            let declared = r_declare(st, name);
            if declared.r is Err {
                declared
            } else {
                match expr {
                    None => r_define(declared.st, name),
                    Some(e) => {
                        let value = r_child(ast, declared.st, id, e);
                        if value.r is Err {
                            value
                        } else {
                            let defined = r_define(value.st, name);
                            if defined.r is Err {
                                defined
                            } else {
                                r_assign(defined.st, name)
                            }
                        }
                    },
                }
            }
        },
    }
}

/// An `if` at node `id`.
pub open spec fn r_if(
    ast: AstView,
    st: Resolving,
    id: int,
    cond: usize,
    then_branch: usize,
    else_stmt: Option<usize>,
) -> Resolved
    decreases id, 1int, 0int,
{
    let tested = r_child(ast, st, id, cond);
    if tested.r is Err {
        tested
    } else {
        let taken = r_child_stmt(ast, tested.st, id, then_branch);
        if taken.r is Err {
            taken
        } else {
            match else_stmt {
                Some(other) => r_child_stmt(ast, taken.st, id, other),
                None => taken,
            }
        }
    }
}

/// A function declaration at node `id`: the name is introduced, then the function resolved.
pub open spec fn r_fun(ast: AstView, st: Resolving, id: int, name: usize, def: ExprFunction)
    -> Resolved
    decreases id, 3int, 0int,
{
    match name_at(ast.tokens, name as int) {
        None => failed(st, no_name()),
        Some(name) => {
            let named = r_introduce(st, name);
            if named.r is Err {
                named
            } else {
                r_function(ast, named.st, id, def, FuncType::Function)
            }
        },
    }
}

/// The statement at node `id`.
pub open spec fn r_stmt(ast: AstView, st: Resolving, id: int) -> Resolved
    decreases id, 7int, 0int,
{
    match stmt_at(ast.nodes, id) {
        None => failed(st, malformed()),
        Some(stmt) => match stmt {
            Stmt::Print(s) => r_child(ast, st, id, s.expr),
            Stmt::Expr(s) => r_child(ast, st, id, s.expr),
            Stmt::Class(s) => {
                let named = r_class_name(ast, st, s);
                let over = r_class_over(
                    ast,
                    named,
                    s,
                    r_child(ast, in_subclass(named.st), id, parent_of(s)),
                );
                r_class_end(
                    st,
                    r_class_inside(
                        over,
                        r_class_body(ast, over.st, id, s.methods, s.superclass is Some),
                    ),
                )
            },
            Stmt::Return(s) => r_return(st, is_nil_literal(ast, s.val), r_child(ast, st, id, s.val)),
            Stmt::Fun(s) => r_fun(ast, st, id, s.name, s.def),
            Stmt::Var(s) => r_var(ast, st, id, s.token, s.expr),
            Stmt::Block(s) => r_block(ast, st, id, s.stmts),
            Stmt::If(s) => r_if(ast, st, id, s.cond, s.then_branch, s.else_stmt),
            Stmt::While(s) => r_pair_stmt(ast, st, id, s.expr, s.stmt),
        },
    }
}

/// An expression and then a statement, both of which belong to node `parent`.
pub open spec fn r_pair_stmt(ast: AstView, st: Resolving, parent: int, expr: usize, stmt: usize)
    -> Resolved
    decreases parent, 0int, 1int,
{
    let one = r_child(ast, st, parent, expr);
    if one.r is Err {
        one
    } else {
        r_child_stmt(ast, one.st, parent, stmt)
    }
}

/// The statements `stmts[i..]` of a program, in order.
pub open spec fn r_program(ast: AstView, st: Resolving, stmts: Seq<usize>, i: int) -> Resolved
    decreases stmts.len() - i,
{
    if i < 0 || i >= stmts.len() {
        done(st)
    } else {
        let first = r_stmt(ast, st, stmts[i] as int);
        if first.r is Err {
            first
        } else {
            r_program(ast, first.st, stmts, i + 1)
        }
    }
}


/// Whether the result `r`, with the resolver left in state `st`, is the outcome `out`.
pub open spec fn settles(r: Result<(), LoxErr>, st: Resolving, out: Resolved) -> bool {
    st == out.st && match out.r {
        Ok(_) => r is Ok,
        Err(e) => r is Err && r->Err_0@ == e,
    }
}

spec fn stack_view(stack: Seq<Frame<VarStatus>>) -> Seq<Names> {
    Seq::new(stack.len(), |i: int| stack[i].entries())
}

proof fn lemma_depth_of(stack: Seq<Names>, name: Seq<char>, d: int)
    requires
        0 <= d < stack.len(),
        forall|k: int| 0 <= k < d ==> !binds(#[trigger] stack[stack.len() - 1 - k], name),
        binds(stack[stack.len() - 1 - d], name),
    ensures
        depth_of(stack, name) == Some(d),
    decreases d,
{
    if d == 0 {
    } else {
        assert(!binds(stack[stack.len() - 1 - 0], name));
        let rest = stack.drop_last();
        assert forall|k: int| 0 <= k < d - 1 implies !binds(
            #[trigger] rest[rest.len() - 1 - k],
            name,
        ) by {
            assert(!binds(stack[stack.len() - 1 - (k + 1)], name));
        }
        lemma_depth_of(rest, name, d - 1);
    }
}

proof fn lemma_depth_of_none(stack: Seq<Names>, name: Seq<char>)
    requires
        forall|k: int| 0 <= k < stack.len() ==> !binds(#[trigger] stack[k], name),
    ensures
        depth_of(stack, name) is None,
    decreases stack.len(),
{
    if stack.len() > 0 {
        lemma_depth_of_none(stack.drop_last(), name);
    }
}

/// The resolver.
pub struct Resolver {
    stack: Vec<Frame<VarStatus>>,
    curr_function: FuncType,
    curr_class: ClassType,
    locals: Locals,
}

impl View for Resolver {
    type V = Resolving;

    closed spec fn view(&self) -> Resolving {
        Resolving {
            stack: stack_view(self.stack@),
            function: self.curr_function,
            class: self.curr_class,
            locals: self.locals@,
        }
    }
}

impl Resolver {
    /// A resolver in global scope, outside every function and class, that has resolved nothing.
    pub fn new() -> (r: Resolver)
        ensures
            r@ == (Resolving {
                stack: Seq::empty(),
                function: FuncType::NoFunction,
                class: ClassType::NoClass,
                locals: Map::empty(),
            }),
    {
        Resolver::with_locals(Locals::new())
    }

    /// A resolver in global scope that adds to `locals`.
    pub fn with_locals(locals: Locals) -> (r: Resolver)
        ensures
            r@ == (Resolving {
                stack: Seq::empty(),
                function: FuncType::NoFunction,
                class: ClassType::NoClass,
                locals: locals@,
            }),
    {
        let r = Resolver {
            stack: Vec::new(),
            curr_function: FuncType::NoFunction,
            curr_class: ClassType::NoClass,
            locals,
        };
        assert(r@.stack =~= Seq::empty());
        r
    }

    /// The depths found so far.
    pub fn locals(&self) -> (l: &Locals)
        ensures
            l@ == self@.locals,
    {
        &self.locals
    }

    /// The depths found.
    pub fn into_locals(self) -> (l: Locals)
        ensures
            l@ == self@.locals,
    {
        self.locals
    }

    fn set_top(&mut self, name: String, status: VarStatus)
        requires
            old(self)@.stack.len() > 0,
        ensures
            final(self)@ == with_top(old(self)@, put(old(self)@.stack.last(), name@, status)),
    {
        let n = self.stack.len();
        self.stack[n - 1].insert(name, status);
        assert(self@.stack =~= old(self)@.stack.update(
            n - 1,
            put(old(self)@.stack.last(), name@, status),
        ));
    }

    /// The status of `name` in the innermost scope.
    fn status(&self, name: &String) -> (r: Option<VarStatus>)
        requires
            self@.stack.len() > 0,
        ensures
            r == value_of(self@.stack.last(), name@),
            r is Some == binds(self@.stack.last(), name@),
    {
        let n = self.stack.len();
        match self.stack[n - 1].get(name) {
            Some(s) => Some(*s),
            None => None,
        }
    }

    fn declare(&mut self, name: &str) -> (r: Result<(), LoxErr>)
        ensures
            settles(r, final(self)@, r_declare(old(self)@, name@)),
    {
        proof {
            reveal(r_declare);
        }
        if self.stack.len() == 0 {
            return Ok(());
        }
        let key = name.to_owned();
        if self.status(&key).is_some() {
            return Err(LoxErr::resolve("Variable already declared in current scope: ", name));
        }
        self.set_top(key, VarStatus::Declared);
        Ok(())
    }

    fn define(&mut self, name: &str) -> (r: Result<(), LoxErr>)
        ensures
            settles(r, final(self)@, r_define(old(self)@, name@)),
    {
        proof {
            reveal(r_define);
        }
        if self.stack.len() == 0 {
            return Ok(());
        }
        let key = name.to_owned();
        match self.status(&key) {
            Some(VarStatus::Declared) => {
                self.set_top(key, VarStatus::Defined);
                Ok(())
            },
            _ => Err(
                LoxErr::resolve("Can't define local variable before it is declared: ", name),
            ),
        }
    }

    fn assign(&mut self, name: &str) -> (r: Result<(), LoxErr>)
        ensures
            settles(r, final(self)@, r_assign(old(self)@, name@)),
    {
        proof {
            reveal(r_assign);
        }
        if self.stack.len() == 0 {
            return Ok(());
        }
        let key = name.to_owned();
        match self.status(&key) {
            Some(VarStatus::Defined) | Some(VarStatus::Assigned) => {
                self.set_top(key, VarStatus::Assigned);
                Ok(())
            },
            _ => Err(LoxErr::resolve("Can't assign local variable before it is defined: ", name)),
        }
    }

    fn introduce(&mut self, name: &str) -> (r: Result<(), LoxErr>)
        ensures
            settles(r, final(self)@, r_introduce(old(self)@, name@)),
    {
        proof {
            reveal(r_introduce);
        }
        match self.declare(name) {
            Ok(()) => {},
            Err(e) => {
                return Err(e);
            },
        }
        match self.define(name) {
            Ok(()) => {},
            Err(e) => {
                return Err(e);
            },
        }
        self.assign(name)
    }

    fn begin_scope(&mut self)
        ensures
            final(self)@ == r_begin(old(self)@),
    {
        proof {
            reveal(r_begin);
        }
        self.stack.push(Frame::new());
        assert(self@.stack =~= old(self)@.stack.push(Seq::empty()));
    }

    fn begin_scope_with(&mut self, name: &str)
        ensures
            final(self)@ == r_begin_with(old(self)@, name@),
    {
        proof {
            reveal(r_begin_with);
        }
        let mut frame: Frame<VarStatus> = Frame::new();
        frame.insert(name.to_owned(), VarStatus::Assigned);
        assert(frame.entries() =~= seq![(name@, VarStatus::Assigned)]);
        self.stack.push(frame);
        assert(self@.stack =~= old(self)@.stack.push(seq![(name@, VarStatus::Assigned)]));
    }

    fn end_scope(&mut self) -> (r: Result<(), LoxErr>)
        ensures
            settles(r, final(self)@, r_end(old(self)@)),
    {
        proof {
            reveal(r_end);
        }
        let frame = match self.stack.pop() {
            Some(f) => f,
            None => {
                return Ok(());
            },
        };
        assert(self@.stack =~= old(self)@.stack.drop_last());
        let ghost names = frame.entries();
        let n = frame.len();
        let mut i: usize = 0;
        while i < n
            invariant
                i <= n,
                n == names.len(),
                names == frame.entries(),
                names == old(self)@.stack.last(),
                old(self)@.stack.len() > 0,
                self@ == (Resolving { stack: old(self)@.stack.drop_last(), ..old(self)@ }),
                unassigned(names, i as int) == unassigned(names, 0),
            decreases n - i,
        {
            proof {
                reveal(r_end);
            }
            match frame.value_at(i) {
                VarStatus::Assigned => {},
                _ => {
                    return Err(
                        LoxErr::resolve("Variable not assigned: ", frame.name_at(i).as_str()),
                    );
                },
            }
            i += 1;
        }
        Ok(())
    }

    /// Resolves the use of `name` by expression `expr`.
    fn resolve_local(&mut self, expr: usize, name: &str, assign: bool)
        ensures
            final(self)@ == r_local(old(self)@, expr, name@, assign),
    {
        proof {
            reveal(r_local);
        }
        let key = name.to_owned();
        let n = self.stack.len();
        let mut d: usize = 0;
        while d < n
            invariant
                d <= n,
                n == self.stack.len(),
                key@ == name@,
                self@ == old(self)@,
                forall|k: int|
                    0 <= k < d ==> !binds(#[trigger] self@.stack[self@.stack.len() - 1 - k], name@),
            decreases n - d,
        {
            let at = n - 1 - d;
            if self.stack[at].contains(&key) {
                proof {
                    reveal(r_local);
                    lemma_depth_of(self@.stack, name@, d as int);
                }
                self.locals.resolve(expr, d);
                if assign {
                    self.stack[at].insert(key, VarStatus::Assigned);
                    assert(self@.stack =~= old(self)@.stack.update(
                        at as int,
                        put(old(self)@.stack[at as int], name@, VarStatus::Assigned),
                    ));
                }
                return ;
            }
            d += 1;
        }
        proof {
            assert forall|k: int| 0 <= k < self@.stack.len() implies !binds(
                #[trigger] self@.stack[k],
                name@,
            ) by {
                assert(!binds(self@.stack[self@.stack.len() - 1 - (self@.stack.len() - 1 - k)], name@));
            }
            lemma_depth_of_none(self@.stack, name@);
        }
    }

    fn resolve_use(&mut self, ast: &Ast, id: usize, token: usize, assign: bool) -> (r: Result<
        (),
        LoxErr,
    >)
        ensures
            settles(r, final(self)@, r_use(ast@, old(self)@, id as int, token, assign)),
    {
        match ast.name(token) {
            Ok(name) => {
                self.resolve_local(id, name, assign);
                Ok(())
            },
            Err(e) => Err(e),
        }
    }

    fn exprs(&mut self, ast: &Ast, parent: usize, list: List, i: usize) -> (r: Result<(), LoxErr>)
        ensures
            settles(r, final(self)@, r_exprs(ast@, old(self)@, parent as int, list, i as int)),
        decreases parent, 0int, list.len - i,
    {
        if i >= list.len {
            return Ok(());
        }
        match ast.item(list, i) {
            None => Err(LoxErr::internal("malformed syntax tree")),
            Some(id) => {
                if id >= parent {
                    return Err(LoxErr::internal("malformed syntax tree"));
                }
                match self.eval(ast, id) {
                    Ok(()) => self.exprs(ast, parent, list, i + 1),
                    Err(e) => Err(e),
                }
            },
        }
    }

    fn stmts(&mut self, ast: &Ast, parent: usize, list: List, i: usize) -> (r: Result<(), LoxErr>)
        ensures
            settles(r, final(self)@, r_stmts(ast@, old(self)@, parent as int, list, i as int)),
        decreases parent, 0int, list.len - i,
    {
        if i >= list.len {
            return Ok(());
        }
        match ast.item(list, i) {
            None => Err(LoxErr::internal("malformed syntax tree")),
            Some(id) => {
                if id >= parent {
                    return Err(LoxErr::internal("malformed syntax tree"));
                }
                match self.exec_stmt(ast, id) {
                    Ok(()) => self.stmts(ast, parent, list, i + 1),
                    Err(e) => Err(e),
                }
            },
        }
    }

    fn params(&mut self, ast: &Ast, list: List, i: usize) -> (r: Result<(), LoxErr>)
        ensures
            settles(r, final(self)@, r_params(ast@, old(self)@, list, i as int)),
        decreases list.len - i,
    {
        if i >= list.len {
            return Ok(());
        }
        match ast.item(list, i) {
            None => Err(LoxErr::internal("malformed syntax tree")),
            Some(token) => match ast.name(token) {
                Err(e) => Err(e),
                Ok(name) => match self.introduce(name) {
                    Ok(()) => self.params(ast, list, i + 1),
                    Err(e) => Err(e),
                },
            },
        }
    }

    fn block_stmt(&mut self, ast: &Ast, parent: usize, stmts: List) -> (r: Result<(), LoxErr>)
        ensures
            settles(r, final(self)@, r_block(ast@, old(self)@, parent as int, stmts)),
        decreases parent, 1int, 0int,
    {
        self.begin_scope();
        match self.stmts(ast, parent, stmts, 0) {
            Ok(()) => self.end_scope(),
            Err(e) => Err(e),
        }
    }

    /// Resolves a function of kind `func_type`.
    fn resolve_fun_stmt(
        &mut self,
        ast: &Ast,
        parent: usize,
        def: ExprFunction,
        func_type: FuncType,
    ) -> (r: Result<(), LoxErr>)
        ensures
            settles(r, final(self)@, r_function(ast@, old(self)@, parent as int, def, func_type)),
        decreases parent, 2int, 0int,
    {
        if func_type == FuncType::NoFunction {
            return Err(LoxErr::internal("a function has to be of some kind"));
        }
        let prev = self.curr_function;
        self.curr_function = func_type;
        self.begin_scope();
        match self.params(ast, def.params, 0) {
            Ok(()) => {},
            Err(e) => {
                return Err(e);
            },
        }
        match self.block_stmt(ast, parent, def.body.stmts) {
            Ok(()) => {},
            Err(e) => {
                return Err(e);
            },
        }
        match self.end_scope() {
            Ok(()) => {},
            Err(e) => {
                return Err(e);
            },
        }
        self.curr_function = prev;
        Ok(())
    }

    fn methods(&mut self, ast: &Ast, parent: usize, list: List, i: usize) -> (r: Result<
        (),
        LoxErr,
    >)
        ensures
            settles(r, final(self)@, r_methods(ast@, old(self)@, parent as int, list, i as int)),
        decreases parent, 3int, list.len - i,
    {
        if i >= list.len {
            return Ok(());
        }
        let id = match ast.item(list, i) {
            Some(id) => id,
            None => {
                return Err(LoxErr::internal("malformed syntax tree"));
            },
        };
        let fun = match ast.stmt(id) {
            Some(Stmt::Fun(fun)) => fun,
            _ => {
                return Err(LoxErr::internal("malformed syntax tree"));
            },
        };
        let func_type = match ast.name(fun.name) {
            Ok(name) => if crate::text::same_text(name, "init") {
                FuncType::Initializer
            } else {
                FuncType::Method
            },
            Err(e) => {
                return Err(e);
            },
        };
        if id >= parent {
            return Err(LoxErr::internal("malformed syntax tree"));
        }
        match self.resolve_fun_stmt(ast, id, fun.def, func_type) {
            Ok(()) => self.methods(ast, parent, list, i + 1),
            Err(e) => Err(e),
        }
    }

    fn child(&mut self, ast: &Ast, parent: usize, child: usize) -> (r: Result<(), LoxErr>)
        ensures
            settles(r, final(self)@, r_child(ast@, old(self)@, parent as int, child)),
        decreases parent, 0int, 0int,
    {
        if child >= parent {
            Err(LoxErr::internal("malformed syntax tree"))
        } else {
            self.eval(ast, child)
        }
    }

    fn child_stmt(&mut self, ast: &Ast, parent: usize, child: usize) -> (r: Result<(), LoxErr>)
        ensures
            settles(r, final(self)@, r_child_stmt(ast@, old(self)@, parent as int, child)),
        decreases parent, 0int, 0int,
    {
        if child >= parent {
            Err(LoxErr::internal("malformed syntax tree"))
        } else {
            self.exec_stmt(ast, child)
        }
    }

    fn pair(&mut self, ast: &Ast, parent: usize, first: usize, second: usize) -> (r: Result<
        (),
        LoxErr,
    >)
        ensures
            settles(r, final(self)@, r_pair(ast@, old(self)@, parent as int, first, second)),
        decreases parent, 0int, 1int,
    {
        match self.child(ast, parent, first) {
            Ok(()) => self.child(ast, parent, second),
            Err(e) => Err(e),
        }
    }

    /// Resolves the expression at node `id`.
    pub fn eval(&mut self, ast: &Ast, id: usize) -> (r: Result<(), LoxErr>)
        ensures
            settles(r, final(self)@, r_expr(ast@, old(self)@, id as int)),
        decreases id, 4int, 0int,
    {
        let kind = match ast.expr(id) {
            Some(kind) => kind,
            None => {
                return Err(LoxErr::internal("malformed syntax tree"));
            },
        };
        match kind {
            ExprKind::Literal(_) => Ok(()),
            ExprKind::Unary(e) => self.child(ast, id, e.right),
            ExprKind::Grouping(e) => self.child(ast, id, e.expression),
            ExprKind::Binary(e) => self.pair(ast, id, e.left, e.right),
            ExprKind::Logical(e) => self.pair(ast, id, e.left, e.right),
            ExprKind::Get(e) => self.child(ast, id, e.expr),
            ExprKind::SetField(e) => self.pair(ast, id, e.target, e.value),
            ExprKind::Call(e) => match self.child(ast, id, e.callee) {
                Ok(()) => self.exprs(ast, id, e.args, 0),
                Err(e) => Err(e),
            },
            ExprKind::Function(def) => self.resolve_fun_stmt(ast, id, def, FuncType::Function),
            ExprKind::Var(token) => self.var(ast, id, token),
            ExprKind::Assign(e) => match self.child(ast, id, e.expression) {
                Ok(()) => self.resolve_use(ast, id, e.name, true),
                Err(e) => Err(e),
            },
            ExprKind::This(_) => self.this(id),
            ExprKind::Super(_) => self.super_expr(id),
        }
    }

    fn var(&mut self, ast: &Ast, id: usize, token: usize) -> (r: Result<(), LoxErr>)
        ensures
            settles(
                r,
                final(self)@,
                match name_at(ast@.tokens, token as int) {
                    None => failed(old(self)@, no_name()),
                    Some(name) => if old(self)@.stack.len() > 0 && value_of(
                        old(self)@.stack.last(),
                        name,
                    ) == Some(VarStatus::Declared) {
                        failed(
                            old(self)@,
                            rule("Can't read local variable from its own initializer: "@, name),
                        )
                    } else {
                        done(r_local(old(self)@, id, name, false))
                    },
                },
            ),
    {
        let name = match ast.name(token) {
            Ok(name) => name,
            Err(e) => {
                return Err(e);
            },
        };
        if self.stack.len() > 0 {
            let key = name.to_owned();
            match self.status(&key) {
                Some(VarStatus::Declared) => {
                    return Err(
                        LoxErr::resolve(
                            "Can't read local variable from its own initializer: ",
                            name,
                        ),
                    );
                },
                _ => {},
            }
        }
        self.resolve_local(id, name, false);
        Ok(())
    }

    fn this(&mut self, id: usize) -> (r: Result<(), LoxErr>)
        ensures
            settles(
                r,
                final(self)@,
                if old(self)@.class == ClassType::NoClass {
                    failed(
                        old(self)@,
                        broken("Can't use the `this` keyword outside a class statement."@),
                    )
                } else {
                    done(r_local(old(self)@, id, "this"@, true))
                },
            ),
    {
        if self.curr_class == ClassType::NoClass {
            return Err(
                LoxErr::broken("Can't use the `this` keyword outside a class statement."),
            );
        }
        self.resolve_local(id, "this", true);
        Ok(())
    }

    fn super_expr(&mut self, id: usize) -> (r: Result<(), LoxErr>)
        ensures
            settles(
                r,
                final(self)@,
                match old(self)@.class {
                    ClassType::NoClass => failed(
                        old(self)@,
                        broken("Can't use the `super` keyword outside a class statement."@),
                    ),
                    ClassType::Class => failed(
                        old(self)@,
                        broken("Can't use the `super` keyword in a class without subclass."@),
                    ),
                    ClassType::SubClass => done(r_local(old(self)@, id, "super"@, true)),
                },
            ),
    {
        match self.curr_class {
            ClassType::NoClass => Err(
                LoxErr::broken("Can't use the `super` keyword outside a class statement."),
            ),
            ClassType::Class => Err(
                LoxErr::broken("Can't use the `super` keyword in a class without subclass."),
            ),
            ClassType::SubClass => {
                self.resolve_local(id, "super", true);
                Ok(())
            },
        }
    }

    /// Resolves the superclass `parent` of the class named `name`.
    fn superclass(&mut self, ast: &Ast, id: usize, name: &str, parent: usize) -> (r: Result<
        (),
        LoxErr,
    >)
        ensures
            settles(
                r,
                final(self)@,
                r_superclass(
                    ast@,
                    old(self)@,
                    name@,
                    parent,
                    r_child(ast@, in_subclass(old(self)@), id as int, parent),
                ),
            ),
        decreases id, 0int, 1int,
    {
        proof {
            reveal(r_superclass);
        }
        let token = match ast.expr(parent) {
            Some(ExprKind::Var(token)) => token,
            _ => {
                return Err(LoxErr::internal("a superclass has to be a name"));
            },
        };
        let parent_name = match ast.name(token) {
            Ok(n) => n,
            Err(e) => {
                return Err(e);
            },
        };
        if crate::text::same_text(parent_name, name) {
            return Err(LoxErr::broken("classes cannot inherit from themselves"));
        }
        self.curr_class = ClassType::SubClass;
        match self.child(ast, id, parent) {
            Ok(()) => {
                self.begin_scope_with("super");
                Ok(())
            },
            Err(e) => Err(e),
        }
    }

    fn class_body(&mut self, ast: &Ast, id: usize, methods: List, nested: bool) -> (r: Result<
        (),
        LoxErr,
    >)
        ensures
            settles(r, final(self)@, r_class_body(ast@, old(self)@, id as int, methods, nested)),
        decreases id, 4int, 0int,
    {
        self.begin_scope_with("this");
        match self.methods(ast, id, methods, 0) {
            Ok(()) => {},
            Err(e) => {
                return Err(e);
            },
        }
        match self.end_scope() {
            Ok(()) => {},
            Err(e) => {
                return Err(e);
            },
        }
        if nested {
            self.end_scope()
        } else {
            Ok(())
        }
    }

    /// Introduces the name of a class and enters the class.
    fn class_name(&mut self, ast: &Ast, class: StmtClass) -> (r: Result<(), LoxErr>)
        ensures
            settles(r, final(self)@, r_class_name(ast@, old(self)@, class)),
    {
        proof {
            reveal(r_class_name);
        }
        let name = match ast.name(class.name) {
            Ok(n) => n,
            Err(e) => {
                return Err(e);
            },
        };
        self.curr_class = ClassType::Class;
        self.introduce(name)
    }

    /// Resolves the superclass of a class, if it has one.
    fn class_over(&mut self, ast: &Ast, id: usize, class: StmtClass) -> (r: Result<(), LoxErr>)
        ensures
            settles(
                r,
                final(self)@,
                r_class_over(
                    ast@,
                    done(old(self)@),
                    class,
                    r_child(ast@, in_subclass(old(self)@), id as int, parent_of(class)),
                ),
            ),
        decreases id, 1int, 0int,
    {
        proof {
            reveal(r_class_over);
        }
        match class.superclass {
            None => Ok(()),
            Some(parent) => {
                let name = match ast.name(class.name) {
                    Ok(n) => n,
                    Err(_) => {
                        proof {
                            reveal_strlit("");
                            assert(""@ =~= Seq::<char>::empty());
                        }
                        ""
                    },
                };
                self.superclass(ast, id, name, parent)
            },
        }
    }

    /// Resolves the class at node `id`: its name is introduced, its
    /// superclass resolved, and its methods resolved in a scope that holds `this`.
    fn class_stmt(&mut self, ast: &Ast, id: usize, class: StmtClass) -> (r: Result<(), LoxErr>)
        ensures
            ({
                let named = r_class_name(ast@, old(self)@, class);
                let over = r_class_over(
                    ast@,
                    named,
                    class,
                    r_child(ast@, in_subclass(named.st), id as int, parent_of(class)),
                );
                settles(
                    r,
                    final(self)@,
                    r_class_end(
                        old(self)@,
                        r_class_inside(
                            over,
                            r_class_body(
                                ast@,
                                over.st,
                                id as int,
                                class.methods,
                                class.superclass is Some,
                            ),
                        ),
                    ),
                )
            }),
        decreases id, 6int, 0int,
    {
        proof {
            reveal(r_class_end);
            reveal(r_class_inside);
            reveal(r_class_over);
        }
        let prev = self.curr_class;
        match self.class_name(ast, class) {
            Ok(()) => {},
            Err(e) => {
                return Err(e);
            },
        }
        match self.class_over(ast, id, class) {
            Ok(()) => {},
            Err(e) => {
                return Err(e);
            },
        }
        match self.class_body(ast, id, class.methods, class.superclass.is_some()) {
            Ok(()) => {},
            Err(e) => {
                return Err(e);
            },
        }
        self.curr_class = prev;
        Ok(())
    }

    fn return_stmt(&mut self, ast: &Ast, id: usize, val: usize) -> (r: Result<(), LoxErr>)
        ensures
            settles(
                r,
                final(self)@,
                r_return(
                    old(self)@,
                    is_nil_literal(ast@, val),
                    r_child(ast@, old(self)@, id as int, val),
                ),
            ),
        decreases id, 1int, 0int,
    {
        proof {
            reveal(r_return);
        }
        let kind = self.curr_function;
        if kind == FuncType::NoFunction {
            return Err(LoxErr::broken("Can't return from non-function scope"));
        }
        if kind == FuncType::Initializer {
            let nil = match ast.expr(val) {
                Some(ExprKind::Literal(Lit::Nil)) => true,
                _ => false,
            };
            if !nil {
                return Err(LoxErr::broken("Can't return a value from class initializer"));
            }
        }
        self.child(ast, id, val)
    }

    fn var_stmt(&mut self, ast: &Ast, id: usize, token: usize, expr: Option<usize>) -> (r: Result<
        (),
        LoxErr,
    >)
        ensures
            settles(r, final(self)@, r_var(ast@, old(self)@, id as int, token, expr)),
        decreases id, 1int, 0int,
    {
        let name = match ast.name(token) {
            Ok(n) => n,
            Err(e) => {
                return Err(e);
            },
        };
        match self.declare(name) {
            Ok(()) => {},
            Err(e) => {
                return Err(e);
            },
        }
        match expr {
            None => self.define(name),
            Some(e) => {
                match self.child(ast, id, e) {
                    Ok(()) => {},
                    Err(e) => {
                        return Err(e);
                    },
                }
                match self.define(name) {
                    Ok(()) => self.assign(name),
                    Err(e) => Err(e),
                }
            },
        }
    }

    fn if_stmt(
        &mut self,
        ast: &Ast,
        id: usize,
        cond: usize,
        then_branch: usize,
        else_stmt: Option<usize>,
    ) -> (r: Result<(), LoxErr>)
        ensures
            settles(
                r,
                final(self)@,
                r_if(ast@, old(self)@, id as int, cond, then_branch, else_stmt),
            ),
        decreases id, 1int, 0int,
    {
        match self.child(ast, id, cond) {
            Ok(()) => {},
            Err(e) => {
                return Err(e);
            },
        }
        match self.child_stmt(ast, id, then_branch) {
            Ok(()) => {},
            Err(e) => {
                return Err(e);
            },
        }
        match else_stmt {
            Some(other) => self.child_stmt(ast, id, other),
            None => Ok(()),
        }
    }

    fn while_stmt(&mut self, ast: &Ast, id: usize, expr: usize, stmt: usize) -> (r: Result<
        (),
        LoxErr,
    >)
        ensures
            settles(r, final(self)@, r_pair_stmt(ast@, old(self)@, id as int, expr, stmt)),
        decreases id, 0int, 1int,
    {
        match self.child(ast, id, expr) {
            Ok(()) => self.child_stmt(ast, id, stmt),
            Err(e) => Err(e),
        }
    }

    fn fun_stmt(&mut self, ast: &Ast, id: usize, name: usize, def: ExprFunction) -> (r: Result<
        (),
        LoxErr,
    >)
        ensures
            settles(r, final(self)@, r_fun(ast@, old(self)@, id as int, name, def)),
        decreases id, 3int, 0int,
    {
        match ast.name(name) {
            Err(e) => Err(e),
            Ok(name) => match self.introduce(name) {
                Ok(()) => self.resolve_fun_stmt(ast, id, def, FuncType::Function),
                Err(e) => Err(e),
            },
        }
    }

    /// Resolves the statement at node `id`.
    pub fn exec_stmt(&mut self, ast: &Ast, id: usize) -> (r: Result<(), LoxErr>)
        ensures
            settles(r, final(self)@, r_stmt(ast@, old(self)@, id as int)),
        decreases id, 7int, 0int,
    {
        let stmt = match ast.stmt(id) {
            Some(stmt) => stmt,
            None => {
                return Err(LoxErr::internal("malformed syntax tree"));
            },
        };
        match stmt {
            Stmt::Print(s) => self.child(ast, id, s.expr),
            Stmt::Expr(s) => self.child(ast, id, s.expr),
            Stmt::Class(s) => self.class_stmt(ast, id, s),
            Stmt::Return(s) => self.return_stmt(ast, id, s.val),
            Stmt::Fun(s) => self.fun_stmt(ast, id, s.name, s.def),
            Stmt::Var(s) => self.var_stmt(ast, id, s.token, s.expr),
            Stmt::Block(s) => self.block_stmt(ast, id, s.stmts),
            Stmt::If(s) => self.if_stmt(ast, id, s.cond, s.then_branch, s.else_stmt),
            Stmt::While(s) => self.while_stmt(ast, id, s.expr, s.stmt),
        }
    }

    /// Resolves the statements `stmts` of `ast` in order, up to the first
    /// that breaks a rule.
    pub fn resolve(&mut self, ast: &Ast, stmts: &Vec<usize>) -> (r: Result<(), LoxErr>)
        ensures
            settles(r, final(self)@, r_program(ast@, old(self)@, stmts@, 0)),
    {
        let mut i: usize = 0;
        while i < stmts.len()
            invariant
                i <= stmts.len(),
                r_program(ast@, self@, stmts@, i as int) == r_program(
                    ast@,
                    old(self)@,
                    stmts@,
                    0,
                ),
            decreases stmts.len() - i,
        {
            match self.exec_stmt(ast, stmts[i]) {
                Ok(()) => {},
                Err(e) => {
                    return Err(e);
                },
            }
            i += 1;
        }
        Ok(())
    }
}

} // verus!
