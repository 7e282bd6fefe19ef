//! Resolving is a function of the tree alone: the depths that a resolver
//! starts with lie underneath what it finds and change nothing of it.  So a
//! second resolution of the same statements finds what the first one found.
use vstd::prelude::*;

use crate::ast::{
    expr_at, item_at, name_at, stmt_at, AstView, ExprFunction, ExprKind, List, Stmt, StmtClass,
};
use crate::resolver::{
    in_class, in_subclass, member_type, parent_of, r_assign, r_begin,
    r_begin_with, r_block, r_child, r_child_stmt, r_class_body, r_class_end, r_class_inside,
    r_class_name, r_class_over, r_declare, r_define, r_end, r_expr, r_exprs, r_fun, r_function,
    r_if, r_introduce, r_local, r_methods, r_pair, r_pair_stmt, r_params, r_program, r_return,
    r_stmt, r_stmts, r_superclass, r_use, r_var, ClassType, FuncType, Resolved,
    Resolving, };

verus! {

/// The state `bare` with the depths `locals` underneath its own.
pub open spec fn over(locals: Map<usize, usize>, bare: Resolving) -> Resolving {
    Resolving { locals: locals.union_prefer_right(bare.locals), ..bare }
}

/// Whether `full` is the outcome `bare` with the depths `locals` underneath.
pub open spec fn framed(full: Resolved, bare: Resolved, locals: Map<usize, usize>) -> bool {
    full.r == bare.r && full.st == over(locals, bare.st)
}

proof fn frame_names(l: Map<usize, usize>, b: Resolving, name: Seq<char>)
    ensures
        framed(r_declare(over(l, b), name), r_declare(b, name), l),
        framed(r_define(over(l, b), name), r_define(b, name), l),
        framed(r_assign(over(l, b), name), r_assign(b, name), l),
        framed(r_end(over(l, b)), r_end(b), l),
        r_begin(over(l, b)) == over(l, r_begin(b)),
        r_begin_with(over(l, b), name) == over(l, r_begin_with(b, name)),
{
    reveal(r_declare);
    reveal(r_define);
    reveal(r_assign);
    reveal(r_end);
    reveal(r_begin);
    reveal(r_begin_with);
}

proof fn frame_introduce(l: Map<usize, usize>, b: Resolving, name: Seq<char>)
    ensures
        framed(r_introduce(over(l, b), name), r_introduce(b, name), l),
{
    reveal(r_introduce);
    frame_names(l, b, name);
    let declared = r_declare(b, name);
    frame_names(l, declared.st, name);
    let defined = r_define(declared.st, name);
    frame_names(l, defined.st, name);
}

proof fn frame_local(l: Map<usize, usize>, b: Resolving, expr: usize, name: Seq<char>, assign: bool)
    ensures
        r_local(over(l, b), expr, name, assign) == over(l, r_local(b, expr, name, assign)),
{
    reveal(r_local);
    let full = r_local(over(l, b), expr, name, assign);
    let bare = r_local(b, expr, name, assign);
    assert(full.locals =~= l.union_prefer_right(bare.locals));
}

proof fn frame_use(
    ast: AstView,
    l: Map<usize, usize>,
    b: Resolving,
    id: int,
    token: usize,
    assign: bool,
)
    ensures
        framed(r_use(ast, over(l, b), id, token, assign), r_use(ast, b, id, token, assign), l),
{
    match name_at(ast.tokens, token as int) {
        None => {},
        Some(name) => {
            frame_local(l, b, id as usize, name, assign);
        },
    }
}

proof fn frame_exprs(
    ast: AstView,
    l: Map<usize, usize>,
    b: Resolving,
    parent: int,
    list: List,
    i: int,
)
    ensures
        framed(
            r_exprs(ast, over(l, b), parent, list, i),
            r_exprs(ast, b, parent, list, i),
            l,
        ),
    decreases parent, 0int, list.len - i,
{
    if 0 <= i < list.len {
        match item_at(ast.extra, list, i) {
            None => {},
            Some(id) => if id < parent {
                frame_expr(ast, l, b, id as int);
                let first = r_expr(ast, b, id as int);
                if first.r is Ok {
                    frame_exprs(ast, l, first.st, parent, list, i + 1);
                }
            },
        }
    }
}

proof fn frame_stmts(
    ast: AstView,
    l: Map<usize, usize>,
    b: Resolving,
    parent: int,
    list: List,
    i: int,
)
    ensures
        framed(
            r_stmts(ast, over(l, b), parent, list, i),
            r_stmts(ast, b, parent, list, i),
            l,
        ),
    decreases parent, 0int, list.len - i,
{
    if 0 <= i < list.len {
        match item_at(ast.extra, list, i) {
            None => {},
            Some(id) => if id < parent {
                frame_stmt(ast, l, b, id as int);
                let first = r_stmt(ast, b, id as int);
                if first.r is Ok {
                    frame_stmts(ast, l, first.st, parent, list, i + 1);
                }
            },
        }
    }
}

proof fn frame_params(ast: AstView, l: Map<usize, usize>, b: Resolving, list: List, i: int)
    ensures
        framed(r_params(ast, over(l, b), list, i), r_params(ast, b, list, i), l),
    decreases list.len - i,
{
    if 0 <= i < list.len {
        match item_at(ast.extra, list, i) {
            None => {},
            Some(token) => match name_at(ast.tokens, token as int) {
                None => {},
                Some(name) => {
                    frame_introduce(l, b, name);
                    let first = r_introduce(b, name);
                    if first.r is Ok {
                        frame_params(ast, l, first.st, list, i + 1);
                    }
                },
            },
        }
    }
}

proof fn frame_block(ast: AstView, l: Map<usize, usize>, b: Resolving, parent: int, stmts: List)
    ensures
        framed(r_block(ast, over(l, b), parent, stmts), r_block(ast, b, parent, stmts), l),
    decreases parent, 1int, 0int,
{
    frame_names(l, b, Seq::empty());
    frame_stmts(ast, l, r_begin(b), parent, stmts, 0);
    let inner = r_stmts(ast, r_begin(b), parent, stmts, 0);
    frame_names(l, inner.st, Seq::empty());
}

proof fn frame_function(
    ast: AstView,
    l: Map<usize, usize>,
    b: Resolving,
    parent: int,
    def: ExprFunction,
    kind: FuncType,
)
    ensures
        framed(
            r_function(ast, over(l, b), parent, def, kind),
            r_function(ast, b, parent, def, kind),
            l,
        ),
    decreases parent, 2int, 0int,
{
    if kind != FuncType::NoFunction {
        let entered = Resolving { function: kind, ..b };
        assert(Resolving { function: kind, ..over(l, b) } == over(l, entered));
        frame_names(l, entered, Seq::empty());
        frame_params(ast, l, r_begin(entered), def.params, 0);
        let params = r_params(ast, r_begin(entered), def.params, 0);
        if params.r is Ok {
            frame_block(ast, l, params.st, parent, def.body.stmts);
            let body = r_block(ast, params.st, parent, def.body.stmts);
            if body.r is Ok {
                frame_names(l, body.st, Seq::empty());
                let closed = r_end(body.st);
                if closed.r is Ok {
                    assert(Resolving { function: b.function, ..over(l, closed.st) } == over(
                        l,
                        Resolving { function: b.function, ..closed.st },
                    ));
                }
            }
        }
    }
}

proof fn frame_methods(
    ast: AstView,
    l: Map<usize, usize>,
    b: Resolving,
    parent: int,
    list: List,
    i: int,
)
    ensures
        framed(
            r_methods(ast, over(l, b), parent, list, i),
            r_methods(ast, b, parent, list, i),
            l,
        ),
    decreases parent, 3int, list.len - i,
{
    if 0 <= i < list.len {
        match item_at(ast.extra, list, i) {
            None => {},
            Some(id) => match stmt_at(ast.nodes, id as int) {
                Some(Stmt::Fun(fun)) => match name_at(ast.tokens, fun.name as int) {
                    None => {},
                    Some(name) => if id < parent {
                        frame_function(ast, l, b, id as int, fun.def, member_type(name));
                        let first = r_function(ast, b, id as int, fun.def, member_type(name));
                        if first.r is Ok {
                            frame_methods(ast, l, first.st, parent, list, i + 1);
                        }
                    },
                },
                _ => {},
            },
        }
    }
}

proof fn frame_child(ast: AstView, l: Map<usize, usize>, b: Resolving, parent: int, child: usize)
    ensures
        framed(r_child(ast, over(l, b), parent, child), r_child(ast, b, parent, child), l),
    decreases parent, 0int, 0int,
{
    if child < parent {
        frame_expr(ast, l, b, child as int);
    }
}

proof fn frame_child_stmt(
    ast: AstView,
    l: Map<usize, usize>,
    b: Resolving,
    parent: int,
    child: usize,
)
    ensures
        framed(
            r_child_stmt(ast, over(l, b), parent, child),
            r_child_stmt(ast, b, parent, child),
            l,
        ),
    decreases parent, 0int, 0int,
{
    if child < parent {
        frame_stmt(ast, l, b, child as int);
    }
}

proof fn frame_pair(
    ast: AstView,
    l: Map<usize, usize>,
    b: Resolving,
    parent: int,
    first: usize,
    second: usize,
)
    ensures
        framed(
            r_pair(ast, over(l, b), parent, first, second),
            r_pair(ast, b, parent, first, second),
            l,
        ),
    decreases parent, 0int, 1int,
{
    frame_child(ast, l, b, parent, first);
    let one = r_child(ast, b, parent, first);
    if one.r is Ok {
        frame_child(ast, l, one.st, parent, second);
    }
}

proof fn frame_pair_stmt(
    ast: AstView,
    l: Map<usize, usize>,
    b: Resolving,
    parent: int,
    expr: usize,
    stmt: usize,
)
    ensures
        framed(
            r_pair_stmt(ast, over(l, b), parent, expr, stmt),
            r_pair_stmt(ast, b, parent, expr, stmt),
            l,
        ),
    decreases parent, 0int, 1int,
{
    frame_child(ast, l, b, parent, expr);
    let one = r_child(ast, b, parent, expr);
    if one.r is Ok {
        frame_child_stmt(ast, l, one.st, parent, stmt);
    }
}

proof fn frame_expr(ast: AstView, l: Map<usize, usize>, b: Resolving, id: int)
    ensures
        framed(r_expr(ast, over(l, b), id), r_expr(ast, b, id), l),
    decreases id, 4int, 0int,
{
    match expr_at(ast.nodes, id) {
        None => {},
        Some(kind) => match kind {
            ExprKind::Literal(_) => {},
            ExprKind::Unary(e) => {
                frame_child(ast, l, b, id, e.right);
            },
            ExprKind::Grouping(e) => {
                frame_child(ast, l, b, id, e.expression);
            },
            ExprKind::Binary(e) => {
                frame_pair(ast, l, b, id, e.left, e.right);
            },
            ExprKind::Logical(e) => {
                frame_pair(ast, l, b, id, e.left, e.right);
            },
            ExprKind::Get(e) => {
                frame_child(ast, l, b, id, e.expr);
            },
            ExprKind::SetField(e) => {
                frame_pair(ast, l, b, id, e.target, e.value);
            },
            ExprKind::Call(e) => {
                frame_child(ast, l, b, id, e.callee);
                let callee = r_child(ast, b, id, e.callee);
                if callee.r is Ok {
                    frame_exprs(ast, l, callee.st, id, e.args, 0);
                }
            },
            ExprKind::Function(def) => {
                frame_function(ast, l, b, id, def, FuncType::Function);
            },
            ExprKind::Var(token) => match name_at(ast.tokens, token as int) {
                None => {},
                Some(name) => {
                    frame_local(l, b, id as usize, name, false);
                },
            },
            ExprKind::Assign(e) => {
                frame_child(ast, l, b, id, e.expression);
                let value = r_child(ast, b, id, e.expression);
                if value.r is Ok {
                    frame_use(ast, l, value.st, id, e.name, true);
                }
            },
            ExprKind::This(_) => {
                frame_local(l, b, id as usize, "this"@, true);
            },
            ExprKind::Super(_) => {
                frame_local(l, b, id as usize, "super"@, true);
            },
        },
    }
}

proof fn frame_class_body(
    ast: AstView,
    l: Map<usize, usize>,
    b: Resolving,
    id: int,
    methods: List,
    nested: bool,
)
    ensures
        framed(
            r_class_body(ast, over(l, b), id, methods, nested),
            r_class_body(ast, b, id, methods, nested),
            l,
        ),
    decreases id, 4int, 0int,
{
    frame_names(l, b, "this"@);
    frame_methods(ast, l, r_begin_with(b, "this"@), id, methods, 0);
    let inside = r_methods(ast, r_begin_with(b, "this"@), id, methods, 0);
    if inside.r is Ok {
        frame_names(l, inside.st, Seq::empty());
        let inner = r_end(inside.st);
        if inner.r is Ok && nested {
            frame_names(l, inner.st, Seq::empty());
        }
    }
}

proof fn frame_var(
    ast: AstView,
    l: Map<usize, usize>,
    b: Resolving,
    id: int,
    token: usize,
    expr: Option<usize>,
)
    ensures
        framed(r_var(ast, over(l, b), id, token, expr), r_var(ast, b, id, token, expr), l),
    decreases id, 1int, 0int,
{
    match name_at(ast.tokens, token as int) {
        None => {},
        Some(name) => {
            frame_names(l, b, name);
            let declared = r_declare(b, name);
            if declared.r is Ok {
                match expr {
                    None => {
                        frame_names(l, declared.st, name);
                    },
                    Some(e) => {
                        frame_child(ast, l, declared.st, id, e);
                        let value = r_child(ast, declared.st, id, e);
                        if value.r is Ok {
                            frame_names(l, value.st, name);
                            let defined = r_define(value.st, name);
                            if defined.r is Ok {
                                frame_names(l, defined.st, name);
                            }
                        }
                    },
                }
            }
        },
    }
}

proof fn frame_if(
    ast: AstView,
    l: Map<usize, usize>,
    b: Resolving,
    id: int,
    cond: usize,
    then_branch: usize,
    else_stmt: Option<usize>,
)
    ensures
        framed(
            r_if(ast, over(l, b), id, cond, then_branch, else_stmt),
            r_if(ast, b, id, cond, then_branch, else_stmt),
            l,
        ),
    decreases id, 1int, 0int,
{
    frame_child(ast, l, b, id, cond);
    let tested = r_child(ast, b, id, cond);
    if tested.r is Ok {
        frame_child_stmt(ast, l, tested.st, id, then_branch);
        let taken = r_child_stmt(ast, tested.st, id, then_branch);
        if taken.r is Ok {
            match else_stmt {
                Some(other) => {
                    frame_child_stmt(ast, l, taken.st, id, other);
                },
                None => {},
            }
        }
    }
}

proof fn frame_fun(
    ast: AstView,
    l: Map<usize, usize>,
    b: Resolving,
    id: int,
    name: usize,
    def: ExprFunction,
)
    ensures
        framed(r_fun(ast, over(l, b), id, name, def), r_fun(ast, b, id, name, def), l),
    decreases id, 3int, 0int,
{
    match name_at(ast.tokens, name as int) {
        None => {},
        Some(name) => {
            frame_introduce(l, b, name);
            let named = r_introduce(b, name);
            if named.r is Ok {
                frame_function(ast, l, named.st, id, def, FuncType::Function);
            }
        },
    }
}

proof fn frame_class(ast: AstView, l: Map<usize, usize>, b: Resolving, id: int, class: StmtClass)
    ensures
        framed(
            r_stmt_class(ast, over(l, b), id, class),
            r_stmt_class(ast, b, id, class),
            l,
        ),
    decreases id, 6int, 0int,
{
    reveal(r_class_name);
    reveal(r_class_over);
    reveal(r_class_inside);
    reveal(r_class_end);
    reveal(r_superclass);
    let named = r_class_name(ast, b, class);
    match name_at(ast.tokens, class.name as int) {
        None => {},
        Some(name) => {
            assert(in_class(over(l, b)) == over(l, in_class(b)));
            frame_introduce(l, in_class(b), name);
            if named.r is Ok {
                assert(in_subclass(over(l, named.st)) == over(l, in_subclass(named.st)));
                frame_child(ast, l, in_subclass(named.st), id, parent_of(class));
                let seen = r_child(ast, in_subclass(named.st), id, parent_of(class));
                if seen.r is Ok {
                    frame_names(l, seen.st, "super"@);
                }
                let over_ = r_class_over(ast, named, class, seen);
                if over_.r is Ok {
                    frame_class_body(
                        ast,
                        l,
                        over_.st,
                        id,
                        class.methods,
                        class.superclass is Some,
                    );
                    let body = r_class_body(
                        ast,
                        over_.st,
                        id,
                        class.methods,
                        class.superclass is Some,
                    );
                    if body.r is Ok {
                        assert(Resolving { class: b.class, ..over(l, body.st) } == over(
                            l,
                            Resolving { class: b.class, ..body.st },
                        ));
                    }
                }
            }
        },
    }
}

/// The resolution of the class statement at node `id`.
pub open spec fn r_stmt_class(ast: AstView, st: Resolving, id: int, class: StmtClass) -> Resolved {
    let named = r_class_name(ast, st, class);
    let over = r_class_over(
        ast,
        named,
        class,
        r_child(ast, in_subclass(named.st), id, parent_of(class)),
    );
    r_class_end(
        st,
        r_class_inside(
            over,
            r_class_body(ast, over.st, id, class.methods, class.superclass is Some),
        ),
    )
}

proof fn frame_stmt(ast: AstView, l: Map<usize, usize>, b: Resolving, id: int)
    ensures
        framed(r_stmt(ast, over(l, b), id), r_stmt(ast, b, id), l),
    decreases id, 7int, 0int,
{
    match stmt_at(ast.nodes, id) {
        None => {},
        Some(stmt) => match stmt {
            Stmt::Print(s) => {
                frame_child(ast, l, b, id, s.expr);
            },
            Stmt::Expr(s) => {
                frame_child(ast, l, b, id, s.expr);
            },
            Stmt::Class(s) => {
                frame_class(ast, l, b, id, s);
            },
            Stmt::Return(s) => {
                reveal(r_return);
                frame_child(ast, l, b, id, s.val);
            },
            Stmt::Fun(s) => {
                frame_fun(ast, l, b, id, s.name, s.def);
            },
            Stmt::Var(s) => {
                frame_var(ast, l, b, id, s.token, s.expr);
            },
            Stmt::Block(s) => {
                frame_block(ast, l, b, id, s.stmts);
            },
            Stmt::If(s) => {
                frame_if(ast, l, b, id, s.cond, s.then_branch, s.else_stmt);
            },
            Stmt::While(s) => {
                frame_pair_stmt(ast, l, b, id, s.expr, s.stmt);
            },
        },
    }
}

/// The depths that a resolution starts with lie underneath what it finds:
/// resolving with the depths `locals` underneath gives the outcome of
/// resolving without them, with `locals` underneath.
pub proof fn lemma_resolution_framed(
    ast: AstView,
    locals: Map<usize, usize>,
    bare: Resolving,
    stmts: Seq<usize>,
    i: int,
)
    ensures
        framed(
            r_program(ast, over(locals, bare), stmts, i),
            r_program(ast, bare, stmts, i),
            locals,
        ),
    decreases stmts.len() - i,
{
    if 0 <= i < stmts.len() {
        frame_stmt(ast, locals, bare, stmts[i] as int);
        let first = r_stmt(ast, bare, stmts[i] as int);
        if first.r is Ok {
            lemma_resolution_framed(ast, locals, first.st, stmts, i + 1);
        }
    }
}

/// A resolver in global scope with the depths `locals`.
pub open spec fn starting(locals: Map<usize, usize>) -> Resolving {
    Resolving {
        stack: Seq::empty(),
        function: FuncType::NoFunction,
        class: ClassType::NoClass,
        locals,
    }
}

/// Resolving is idempotent: a second resolution of the same statements,
/// started with the depths that the first one found, ends as the first one
/// did and finds the same depths.
pub proof fn lemma_resolver_idempotent(ast: AstView, locals: Map<usize, usize>, stmts: Seq<usize>)
    ensures
        ({
            let once = r_program(ast, starting(locals), stmts, 0);
            let twice = r_program(ast, starting(once.st.locals), stmts, 0);
            twice == once
        }),
{
    let bare = starting(Map::empty());
    let core = r_program(ast, bare, stmts, 0);
    assert(starting(locals) == over(locals, bare)) by {
        assert(over(locals, bare).locals =~= locals);
    }
    lemma_resolution_framed(ast, locals, bare, stmts, 0);
    let once = r_program(ast, starting(locals), stmts, 0);
    assert(starting(once.st.locals) == over(once.st.locals, bare)) by {
        assert(over(once.st.locals, bare).locals =~= once.st.locals);
    }
    lemma_resolution_framed(ast, once.st.locals, bare, stmts, 0);
    let twice = r_program(ast, starting(once.st.locals), stmts, 0);
    assert(twice.st.locals =~= once.st.locals);
}

} // verus!
