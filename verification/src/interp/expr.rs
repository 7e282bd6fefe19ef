//! How expressions are evaluated.
use vstd::prelude::*;

use crate::ast::{expr_at, malformed, name_at, string_at, Ast, AstView, ExprKind, Lit};
use crate::error::{LoxErr, LoxErrView};
use crate::interp::heap::{h_get, h_intern, h_set, text_of, Change, HeapView};
use crate::interp::machine::{
    confused, eval_error, steps, ArithOp, Effect, Interpreter, Machine, Signal, Stepped, Task,
};
use crate::interp::value::{equal, truthy, Func, Function, Value};
use crate::number::{
    is_zero, less, less_or_same, negated, number_is_zero, number_less, number_less_or_same,
    number_negate,
};
use crate::parser::kind_at;
use crate::scope::ancestor;
use crate::token::{token_text, TokenType};

verus! {

/// Why an operator cannot be applied.
#[derive(Clone, Copy, Debug, PartialEq, Eq, Structural)]
pub enum OperatorError {
    /// `+` on something other than numbers and strings.
    BadAddition,
    /// An operand is not of the kind that the operator takes, or the token is no operator.
    BadOperands,
    /// The divisor is zero.
    DivisionByZero,
}

/// What applying a binary operator to two values comes to.
#[derive(Clone, Copy, Debug, PartialEq, Eq, Structural)]
pub enum Applied {
    /// The result is this value.
    Value(Value),
    /// The result is a number that the host computes.
    Arith(ArithOp, u64, u64),
    /// The result is the two strings joined.
    Join(u64, u64),
    /// The result is the string followed by the text of the number.
    JoinNumber(u64, u64),
    /// The result is the text of the number followed by the string.
    NumberJoin(u64, u64),
    Fail(OperatorError),
}

/// What the operator `op` comes to on the numbers `l` and `r`.
pub open spec fn applied_numbers(op: TokenType, l: u64, r: u64) -> Applied {
    match op {
        TokenType::Plus => Applied::Arith(ArithOp::Add, l, r),
        TokenType::Minus => Applied::Arith(ArithOp::Subtract, l, r),
        TokenType::Star => Applied::Arith(ArithOp::Multiply, l, r),
        TokenType::Slash => if is_zero(r) {
            Applied::Fail(OperatorError::DivisionByZero)
        } else {
            Applied::Arith(ArithOp::Divide, l, r)
        },
        TokenType::Greater => Applied::Value(Value::Boolean(less(r, l))),
        TokenType::GreaterEqual => Applied::Value(Value::Boolean(less_or_same(r, l))),
        TokenType::Less => Applied::Value(Value::Boolean(less(l, r))),
        TokenType::LessEqual => Applied::Value(Value::Boolean(less_or_same(l, r))),
        TokenType::BangEqual => Applied::Value(Value::Boolean(!equal(Value::Number(l), Value::Number(r)))),
        TokenType::EqualEqual => Applied::Value(Value::Boolean(equal(Value::Number(l), Value::Number(r)))),
        _ => Applied::Fail(OperatorError::BadOperands),
    }
}

/// What the binary operator `op` comes to on the values `l` and `r`.
pub open spec fn applied(op: TokenType, l: Value, r: Value) -> Applied {
    if op == TokenType::EqualEqual {
        Applied::Value(Value::Boolean(equal(l, r)))
    } else if op == TokenType::BangEqual {
        Applied::Value(Value::Boolean(!equal(l, r)))
    } else {
        match (l, r) {
            (Value::Number(x), Value::Number(y)) => applied_numbers(op, x, y),
            (Value::String(x), Value::String(y)) => if op == TokenType::Plus {
                Applied::Join(x, y)
            } else {
                Applied::Fail(OperatorError::BadOperands)
            },
            (Value::String(x), Value::Number(y)) => if op == TokenType::Plus {
                Applied::JoinNumber(x, y)
            } else {
                Applied::Fail(OperatorError::BadOperands)
            },
            (Value::Number(x), Value::String(y)) => if op == TokenType::Plus {
                Applied::NumberJoin(x, y)
            } else {
                Applied::Fail(OperatorError::BadOperands)
            },
            _ => if op == TokenType::Plus {
                Applied::Fail(OperatorError::BadAddition)
            } else {
                Applied::Fail(OperatorError::BadOperands)
            },
        }
    }
}

/// What the unary operator `op` comes to on the value `v`.
pub open spec fn applied_unary(op: TokenType, v: Value) -> Result<Value, OperatorError> {
    match op {
        TokenType::Minus => match v {
            Value::Number(bits) => Ok(Value::Number(negated(bits))),
            _ => Err(OperatorError::BadOperands),
        },
        TokenType::Bang => Ok(Value::Boolean(!truthy(v))),
        _ => Err(OperatorError::BadOperands),
    }
}

/// Decides what the binary operator `op` comes to on `l` and `r`.
pub fn binary(op: TokenType, l: Value, r: Value) -> (a: Applied)
    ensures
        a == applied(op, l, r),
{
    if op == TokenType::EqualEqual {
        return Applied::Value(Value::Boolean(l.equals(&r)));
    }
    if op == TokenType::BangEqual {
        return Applied::Value(Value::Boolean(!l.equals(&r)));
    }
    let plus = op == TokenType::Plus;
    match (l, r) {
        (Value::Number(x), Value::Number(y)) => match op {
            TokenType::Plus => Applied::Arith(ArithOp::Add, x, y),
            TokenType::Minus => Applied::Arith(ArithOp::Subtract, x, y),
            TokenType::Star => Applied::Arith(ArithOp::Multiply, x, y),
            TokenType::Slash => if number_is_zero(y) {
                Applied::Fail(OperatorError::DivisionByZero)
            } else {
                Applied::Arith(ArithOp::Divide, x, y)
            },
            TokenType::Greater => Applied::Value(Value::Boolean(number_less(y, x))),
            TokenType::GreaterEqual => Applied::Value(Value::Boolean(number_less_or_same(y, x))),
            TokenType::Less => Applied::Value(Value::Boolean(number_less(x, y))),
            TokenType::LessEqual => Applied::Value(Value::Boolean(number_less_or_same(x, y))),
            _ => Applied::Fail(OperatorError::BadOperands),
        },
        (Value::String(x), Value::String(y)) => if plus {
            Applied::Join(x, y)
        } else {
            Applied::Fail(OperatorError::BadOperands)
        },
        (Value::String(x), Value::Number(y)) => if plus {
            Applied::JoinNumber(x, y)
        } else {
            Applied::Fail(OperatorError::BadOperands)
        },
        (Value::Number(x), Value::String(y)) => if plus {
            Applied::NumberJoin(x, y)
        } else {
            Applied::Fail(OperatorError::BadOperands)
        },
        _ => if plus {
            Applied::Fail(OperatorError::BadAddition)
        } else {
            Applied::Fail(OperatorError::BadOperands)
        },
    }
}

/// Decides what the unary operator `op` comes to on `v`.
pub fn unary(op: TokenType, v: Value) -> (r: Result<Value, OperatorError>)
    ensures
        r == applied_unary(op, v),
{
    match op {
        TokenType::Minus => match v {
            Value::Number(bits) => Ok(Value::Number(number_negate(bits))),
            _ => Err(OperatorError::BadOperands),
        },
        TokenType::Bang => Ok(Value::Boolean(!v.is_truthy())),
        _ => Err(OperatorError::BadOperands),
    }
}

/// The error that an operator error is reported as, for the operator `op`.
#[verifier::opaque]
pub open spec fn operator_error(op: TokenType, e: OperatorError) -> LoxErrView {
    match e {
        OperatorError::BadAddition => eval_error(
            token_text(op),
            "unexpected types for addition operation"@,
        ),
        OperatorError::BadOperands => eval_error(token_text(op), "Unexpected values in expr"@),
        OperatorError::DivisionByZero => eval_error(token_text(op), "Division by zero"@),
    }
}

/// The value of the variable `name` as used by expression `id`: from the
/// scope at the depth that the resolver found, or else from the globals.
#[verifier::opaque]
pub open spec fn s_lookup(m: Machine, name: Seq<char>, id: usize) -> Result<Value, LoxErrView> {
    let at = if m.locals.contains_key(id) {
        m.scope
    } else {
        0
    };
    let distance = if m.locals.contains_key(id) {
        m.locals[id]
    } else {
        0
    };
    match ancestor(m.heap.scopes, at as int, distance as nat) {
        None => Err(LoxErrView::Internal { message: "expected an ancestor scope at this depth"@ }),
        Some(k) => if m.heap.scopes[k].vars.contains_key(name) {
            Ok(m.heap.scopes[k].vars[name])
        } else {
            Err(LoxErrView::Undefined { message: "variable undefined: "@ + name })
        },
    }
}

/// The function that the literal `def` denotes in the scope `scope`.
pub open spec fn closure(def: crate::ast::ExprFunction, scope: usize) -> Value {
    Value::Func(Func::Lox(Function { def, scope, is_initializer: false }))
}

/// `m` with the value or the failure that a change to the heap came to.
pub open spec fn given(m: Machine, c: Change<Value>) -> Stepped {
    match c.r {
        Ok(v) => kept(m.on(c.heap), v).give(v).go(),
        Err(e) => m.on(c.heap).fail(e),
    }
}

/// `m` with all its scopes kept for good if `v` is a function, which
/// points into them.
pub open spec fn kept(m: Machine, v: Value) -> Machine {
    if v matches Value::Func(Func::Lox(_)) {
        m.pin()
    } else {
        m
    }
}

/// `m` with the value or the failure that a look at the heap came to.
pub open spec fn found(m: Machine, r: Result<Value, LoxErrView>) -> Stepped {
    match r {
        Ok(v) => m.give(v).go(),
        Err(e) => m.fail(e),
    }
}

/// The variable at token `token`, used by expression `id`.
#[verifier::opaque]
pub open spec fn s_var(ast: AstView, m: Machine, id: usize, token: usize) -> Stepped {
    match name_at(ast.tokens, token as int) {
        None => m.fail(crate::resolver::no_name()),
        Some(name) => found(m, s_lookup(m, name, id)),
    }
}

/// The literal `lit`.
#[verifier::opaque]
pub open spec fn s_literal(ast: AstView, m: Machine, lit: Lit) -> Stepped {
    match lit {
        Lit::Nil => m.give(Value::Nil).go(),
        Lit::Boolean(b) => m.give(Value::Boolean(b)).go(),
        Lit::Number(bits) => m.give(Value::Number(bits)).go(),
        Lit::String(token) => given(m, h_intern(m.heap, string_at(ast.tokens, token as int))),
    }
}

/// The tasks that an expression with subexpressions is replaced by.
#[verifier::opaque]
pub open spec fn s_compound(m: Machine, id: usize, kind: ExprKind) -> Stepped {
    match kind {
        ExprKind::Grouping(e) => m.next(Task::Eval(e.expression)).go(),
        ExprKind::Unary(e) => m.next(Task::Unary(id)).next(Task::Eval(e.right)).go(),
        ExprKind::Binary(e) => m.next(Task::Binary(id)).next(Task::Eval(e.right)).next(
            Task::Eval(e.left),
        ).go(),
        ExprKind::Logical(e) => m.next(Task::Logical(id)).next(Task::Eval(e.left)).go(),
        ExprKind::Assign(e) => m.next(Task::Assign(id)).next(Task::Eval(e.expression)).go(),
        ExprKind::Call(e) => m.next(Task::CheckCall(id)).next(Task::Eval(e.callee)).go(),
        ExprKind::Get(e) => m.next(Task::Get(id)).next(Task::Eval(e.expr)).go(),
        ExprKind::SetField(e) => m.next(Task::SetTarget(id)).next(Task::Eval(e.target)).go(),
        ExprKind::Function(def) => m.pin().give(closure(def, m.scope)).go(),
        _ => m.fail(confused()),
    }
}

/// The task `Eval(id)`.
#[verifier::opaque]
pub open spec fn s_eval(ast: AstView, m: Machine, id: usize) -> Stepped {
    match expr_at(ast.nodes, id as int) {
        None => m.fail(malformed()),
        Some(kind) => match kind {
            ExprKind::Literal(lit) => s_literal(ast, m, lit),
            ExprKind::Var(token) => s_var(ast, m, id, token),
            ExprKind::This(token) => s_var(ast, m, id, token),
            ExprKind::Super(e) => s_super(ast, m, id, e.method),
            _ => s_compound(m, id, kind),
        },
    }
}

/// The operator token of the expression at `id`, if it has one.
pub open spec fn operator_at(ast: AstView, id: usize) -> Option<TokenType> {
    match expr_at(ast.nodes, id as int) {
        Some(ExprKind::Unary(e)) => Some(kind_at(ast.tokens, e.operator as int)),
        Some(ExprKind::Binary(e)) => Some(kind_at(ast.tokens, e.operator as int)),
        Some(ExprKind::Logical(e)) => Some(kind_at(ast.tokens, e.operator as int)),
        _ => None,
    }
}

/// The task `Unary(id)`: the operator is applied to the value on top.
#[verifier::opaque]
pub open spec fn s_unary(ast: AstView, m: Machine, id: usize) -> Stepped {
    if m.values.len() == 0 {
        m.fail(confused())
    } else {
        match operator_at(ast, id) {
            None => m.fail(malformed()),
            Some(op) => match applied_unary(op, m.values.last()) {
                Ok(v) => m.drop().give(v).go(),
                Err(e) => m.fail(operator_error(op, e)),
            },
        }
    }
}

/// What the machine does with what a binary operator came to.  The two operands are gone.
#[verifier::opaque]
pub open spec fn s_applied(m: Machine, op: TokenType, a: Applied) -> Stepped {
    match a {
        Applied::Value(v) => m.give(v).go(),
        Applied::Arith(op, lhs, rhs) => m.ask(Effect::Arith { op, lhs, rhs }),
        Applied::Join(x, y) => m.give(Value::String(x)).give(Value::String(y)).next(
            Task::Concat,
        ).go(),
        Applied::JoinNumber(x, y) => m.give(Value::String(x)).next(Task::Concat).ask(
            Effect::Format(y),
        ),
        Applied::NumberJoin(x, y) => m.give(Value::String(y)).next(Task::ConcatRev).ask(
            Effect::Format(x),
        ),
        Applied::Fail(e) => m.fail(operator_error(op, e)),
    }
}

/// The task `Binary(id)`: the operator is applied to the two values on
/// top, the right operand uppermost.
#[verifier::opaque]
pub open spec fn s_binary(ast: AstView, m: Machine, id: usize) -> Stepped {
    if m.values.len() < 2 {
        m.fail(confused())
    } else {
        match operator_at(ast, id) {
            None => m.fail(malformed()),
            Some(op) => s_applied(
                m.drop().drop(),
                op,
                applied(op, m.values[m.values.len() - 2], m.values.last()),
            ),
        }
    }
}

/// The tasks `Concat` and `ConcatRev`: the two strings on top are joined,
/// with `reversed` the upper one first.
#[verifier::opaque]
pub open spec fn s_concat(m: Machine, reversed: bool) -> Stepped {
    if m.values.len() < 2 {
        m.fail(confused())
    } else {
        match (m.values[m.values.len() - 2], m.values.last()) {
            (Value::String(a), Value::String(b)) => given(
                m.drop().drop(),
                h_intern(
                    m.heap,
                    if reversed {
                        text_of(m.heap, b) + text_of(m.heap, a)
                    } else {
                        text_of(m.heap, a) + text_of(m.heap, b)
                    },
                ),
            ),
            _ => m.fail(confused()),
        }
    }
}

/// The task `Logical(id)`: `and` goes on to its right side if the left one,
/// on top, counts as true, and `or` if it does not; otherwise the left side
/// is the value.
#[verifier::opaque]
pub open spec fn s_logical(ast: AstView, m: Machine, id: usize) -> Stepped {
    if m.values.len() == 0 {
        m.fail(confused())
    } else {
        match expr_at(ast.nodes, id as int) {
            Some(ExprKind::Logical(e)) => {
                let op = kind_at(ast.tokens, e.operator as int);
                let left = truthy(m.values.last());
                if op == TokenType::And || op == TokenType::Or {
                    if left == (op == TokenType::And) {
                        m.drop().next(Task::Eval(e.right)).go()
                    } else {
                        m.go()
                    }
                } else {
                    m.fail(operator_error(op, OperatorError::BadOperands))
                }
            },
            _ => m.fail(malformed()),
        }
    }
}

/// Whether `name` is bound to a native function in the global scope.
pub open spec fn is_native(h: HeapView, name: Seq<char>) -> bool {
    h.scopes.len() > 0 && h.scopes[0].vars.contains_key(name) && h.scopes[0].vars[name] matches Value::Func(
        Func::Native(_),
    )
}

/// The task `Assign(id)`: the value on top, which stays there, is assigned
/// to the variable: in the scope at the depth that the resolver found, or
/// else among the globals.  A native function cannot be assigned to.
#[verifier::opaque]
pub open spec fn s_assign(ast: AstView, m: Machine, id: usize) -> Stepped {
    if m.values.len() == 0 {
        m.fail(confused())
    } else {
        match expr_at(ast.nodes, id as int) {
            Some(ExprKind::Assign(e)) => match name_at(ast.tokens, e.name as int) {
                None => m.fail(crate::resolver::no_name()),
                Some(name) => if is_native(m.heap, name) {
                    m.fail(eval_error(name, "Not allowed to override native function"@))
                } else {
                    let at = if m.locals.contains_key(id) {
                        m.scope
                    } else {
                        0
                    };
                    let distance = if m.locals.contains_key(id) {
                        m.locals[id]
                    } else {
                        0
                    };
                    match ancestor(m.heap.scopes, at as int, distance as nat) {
                        None => m.fail(
                            LoxErrView::Internal {
                                message: "expected an ancestor scope at this depth"@,
                            },
                        ),
                        Some(k) => m.on(
                            crate::interp::heap::with_binding(m.heap, k, name, m.values.last()),
                        ).go(),
                    }
                },
            },
            _ => m.fail(malformed()),
        }
    }
}

/// The task `Get(id)`: the property of the instance on top.
#[verifier::opaque]
pub open spec fn s_get(ast: AstView, m: Machine, id: usize) -> Stepped {
    if m.values.len() == 0 {
        m.fail(confused())
    } else {
        match expr_at(ast.nodes, id as int) {
            Some(ExprKind::Get(e)) => match name_at(ast.tokens, e.name as int) {
                None => m.fail(crate::resolver::no_name()),
                Some(name) => match m.values.last() {
                    Value::Instance(i) => given(m.drop(), h_get(m.heap, i, name)),
                    _ => m.fail(eval_error(name, "Invalid call on non-instance value"@)),
                },
            },
            _ => m.fail(malformed()),
        }
    }
}

/// The task `SetTarget(id)`: the value on top has to be an instance; the new value is evaluated.
#[verifier::opaque]
pub open spec fn s_set_target(ast: AstView, m: Machine, id: usize) -> Stepped {
    if m.values.len() == 0 {
        m.fail(confused())
    } else {
        match expr_at(ast.nodes, id as int) {
            Some(ExprKind::SetField(e)) => match m.values.last() {
                Value::Instance(_) => m.next(Task::SetValue(id)).next(Task::Eval(e.value)).go(),
                _ => m.fail(
                    eval_error(
                        "."@,
                        "Only instances can be accessed via fields (`.`)"@,
                    ),
                ),
            },
            _ => m.fail(malformed()),
        }
    }
}

/// The task `SetValue(id)`: the field of the instance below the top
/// becomes the value on top, which is the value of the expression.
#[verifier::opaque]
pub open spec fn s_set_value(ast: AstView, m: Machine, id: usize) -> Stepped {
    if m.values.len() < 2 {
        m.fail(confused())
    } else {
        match expr_at(ast.nodes, id as int) {
            Some(ExprKind::SetField(e)) => match name_at(ast.tokens, e.name as int) {
                None => m.fail(crate::resolver::no_name()),
                Some(name) => match m.values[m.values.len() - 2] {
                    Value::Instance(i) => {
                        let c = h_set(m.heap, i, name, m.values.last());
                        match c.r {
                            Ok(_) => m.drop().drop().on(c.heap).give(m.values.last()).go(),
                            Err(e) => m.on(c.heap).fail(e),
                        }
                    },
                    _ => m.fail(confused()),
                },
            },
            _ => m.fail(malformed()),
        }
    }
}

/// `super.method`: the method is looked for from the superclass on, and
/// bound to the instance that `this` is.  `super` lies at the depth that the
/// resolver found and `this` one scope inside it.
#[verifier::opaque]
pub open spec fn s_super(ast: AstView, m: Machine, id: usize, method: usize) -> Stepped {
    match name_at(ast.tokens, method as int) {
        None => m.fail(crate::resolver::no_name()),
        Some(name) => if !m.locals.contains_key(id) || m.locals[id] == 0 {
            m.fail(confused())
        } else {
            let over = scope_value(m, m.locals[id], "super"@);
            let this = scope_value(m, (m.locals[id] - 1) as usize, "this"@);
            match (over, this) {
                (Some(Value::Func(Func::Class(c))), Some(Value::Instance(i))) => match crate::interp::heap::method_of(
                    m.heap.classes,
                    c as int,
                    name,
                ) {
                    Some(f) => {
                        let b = crate::interp::heap::h_bind(m.heap, f, i);
                        given(
                            m,
                            Change {
                                heap: b.heap,
                                r: match b.r {
                                    Ok(f) => Ok(Value::Func(Func::Lox(f))),
                                    Err(e) => Err(e),
                                },
                            },
                        )
                    },
                    None => m.fail(
                        LoxErrView::Undefined { message: "undefined property: "@ + name },
                    ),
                },
                _ => m.fail(confused()),
            }
        },
    }
}

/// What the scope `distance` links above the current one binds to `name`, if it binds it.
pub open spec fn scope_value(m: Machine, distance: usize, name: Seq<char>) -> Option<Value> {
    match ancestor(m.heap.scopes, m.scope as int, distance as nat) {
        Some(k) => if m.heap.scopes[k].vars.contains_key(name) {
            Some(m.heap.scopes[k].vars[name])
        } else {
            None
        },
        None => None,
    }
}


/// The error that `e` is reported as, for the operator `op`.
pub fn report(op: TokenType, e: OperatorError) -> (r: LoxErr)
    ensures
        r@ == operator_error(op, e),
{
    proof {
        reveal(operator_error);
    }
    match e {
        OperatorError::BadAddition => LoxErr::eval(
            op.text(),
            "unexpected types for addition operation",
        ),
        OperatorError::BadOperands => LoxErr::eval(op.text(), "Unexpected values in expr"),
        OperatorError::DivisionByZero => LoxErr::eval(op.text(), "Division by zero"),
    }
}

/// The operator of the expression at `id`.
pub fn operator_of(ast: &Ast, id: usize) -> (r: Option<TokenType>)
    ensures
        r == operator_at(ast@, id),
{
    match ast.expr(id) {
        Some(ExprKind::Unary(e)) => Some(ast.token_type(e.operator)),
        Some(ExprKind::Binary(e)) => Some(ast.token_type(e.operator)),
        Some(ExprKind::Logical(e)) => Some(ast.token_type(e.operator)),
        _ => None,
    }
}

impl Interpreter {
    /// The value of the variable `name` as used by expression `id`.
    pub fn lookup_var(&self, name: &str, id: usize) -> (r: Result<Value, LoxErr>)
        ensures
            match s_lookup(self@, name@, id) {
                Ok(v) => r is Ok && r->Ok_0 == v,
                Err(e) => r is Err && r->Err_0@ == e,
            },
    {
        proof {
            reveal(s_lookup);
        }
        let (at, distance) = match self.locals.get(id) {
            Some(d) => (self.scope, d),
            None => (0, 0),
        };
        self.heap.scopes().get_at(at, distance, name)
    }

    /// What the scope `distance` links above the current one binds to `name`.
    fn scope_value(&self, distance: usize, name: &str) -> (r: Option<Value>)
        ensures
            r == scope_value(self@, distance, name@),
    {
        match self.heap.scopes().get_at(self.scope, distance, name) {
            Ok(v) => Some(v),
            Err(_) => None,
        }
    }

    /// Pushes the value, or fails with the error.
    fn found(&mut self, r: Result<Value, LoxErr>) -> (s: Result<Signal, LoxErr>)
        ensures
            match r {
                Ok(v) => steps(s, final(self)@, old(self)@.give(v).go()),
                Err(e) => steps(s, final(self)@, old(self)@.fail(e@)),
            },
    {
        match r {
            Ok(v) => self.give(v),
            Err(e) => self.fail(e),
        }
    }

    /// Pushes the value, keeping the scopes for good if it is a function,
    /// or fails with the error.
    pub fn found_kept(&mut self, r: Result<Value, LoxErr>) -> (s: Result<Signal, LoxErr>)
        ensures
            match r {
                Ok(v) => steps(s, final(self)@, kept(old(self)@, v).give(v).go()),
                Err(e) => steps(s, final(self)@, old(self)@.fail(e@)),
            },
    {
        match r {
            Ok(v) => {
                match v {
                    Value::Func(Func::Lox(_)) => {
                        self.pin();
                    },
                    _ => {},
                }
                self.give(v)
            },
            Err(e) => self.fail(e),
        }
    }

    fn var(&mut self, ast: &Ast, id: usize, token: usize) -> (r: Result<Signal, LoxErr>)
        ensures
            steps(r, final(self)@, s_var(ast@, old(self)@, id, token)),
    {
        proof {
            reveal(s_var);
        }
        match ast.name(token) {
            Err(e) => self.fail(e),
            Ok(name) => {
                let v = self.lookup_var(name, id);
                self.found(v)
            },
        }
    }

    fn literal(&mut self, ast: &Ast, lit: Lit) -> (r: Result<Signal, LoxErr>)
        ensures
            steps(r, final(self)@, s_literal(ast@, old(self)@, lit)),
    {
        proof {
            reveal(s_literal);
        }
        match lit {
            Lit::Nil => self.give(Value::Nil),
            Lit::Boolean(b) => self.give(Value::Boolean(b)),
            Lit::Number(bits) => self.give(Value::Number(bits)),
            Lit::String(token) => {
                let v = self.heap.intern(ast.string(token));
                self.found_kept(v)
            },
        }
    }

    fn compound(&mut self, id: usize, kind: ExprKind) -> (r: Result<Signal, LoxErr>)
        ensures
            steps(r, final(self)@, s_compound(old(self)@, id, kind)),
    {
        proof {
            reveal(s_compound);
        }
        match kind {
            ExprKind::Grouping(e) => {
                self.push(Task::Eval(e.expression));
            },
            ExprKind::Unary(e) => {
                self.push(Task::Unary(id));
                self.push(Task::Eval(e.right));
            },
            ExprKind::Binary(e) => {
                self.push(Task::Binary(id));
                self.push(Task::Eval(e.right));
                self.push(Task::Eval(e.left));
            },
            ExprKind::Logical(e) => {
                self.push(Task::Logical(id));
                self.push(Task::Eval(e.left));
            },
            ExprKind::Assign(e) => {
                self.push(Task::Assign(id));
                self.push(Task::Eval(e.expression));
            },
            ExprKind::Call(e) => {
                self.push(Task::CheckCall(id));
                self.push(Task::Eval(e.callee));
            },
            ExprKind::Get(e) => {
                self.push(Task::Get(id));
                self.push(Task::Eval(e.expr));
            },
            ExprKind::SetField(e) => {
                self.push(Task::SetTarget(id));
                self.push(Task::Eval(e.target));
            },
            ExprKind::Function(def) => {
                self.pin();
                return self.give(
                    Value::Func(
                        Func::Lox(Function { def, scope: self.scope, is_initializer: false }),
                    ),
                );
            },
            _ => {
                return self.confused();
            },
        }
        Ok(Signal::Continue)
    }

    /// Does the task `Eval(id)`.
    pub fn eval(&mut self, ast: &Ast, id: usize) -> (r: Result<Signal, LoxErr>)
        ensures
            steps(r, final(self)@, s_eval(ast@, old(self)@, id)),
    {
        proof {
            reveal(s_eval);
        }
        match ast.expr(id) {
            None => self.fail(LoxErr::internal("malformed syntax tree")),
            Some(kind) => match kind {
                ExprKind::Literal(lit) => self.literal(ast, lit),
                ExprKind::Var(token) => self.var(ast, id, token),
                ExprKind::This(token) => self.var(ast, id, token),
                ExprKind::Super(e) => self.super_expr(ast, id, e.method),
                _ => self.compound(id, kind),
            },
        }
    }

    /// Does the task `Unary(id)`.
    pub fn unary(&mut self, ast: &Ast, id: usize) -> (r: Result<Signal, LoxErr>)
        ensures
            steps(r, final(self)@, s_unary(ast@, old(self)@, id)),
    {
        proof {
            reveal(s_unary);
        }
        let v = match self.top() {
            Some(v) => v,
            None => {
                return self.confused();
            },
        };
        let op = match operator_of(ast, id) {
            Some(op) => op,
            None => {
                return self.fail(LoxErr::internal("malformed syntax tree"));
            },
        };
        match unary(op, v) {
            Ok(v) => {
                let _ = self.take();
                self.give(v)
            },
            Err(e) => self.fail(report(op, e)),
        }
    }

    /// Acts on what a binary operator came to.
    fn apply(&mut self, op: TokenType, a: Applied) -> (r: Result<Signal, LoxErr>)
        ensures
            steps(r, final(self)@, s_applied(old(self)@, op, a)),
    {
        proof {
            reveal(s_applied);
        }
        match a {
            Applied::Value(v) => self.give(v),
            Applied::Arith(op, lhs, rhs) => Ok(Signal::Effect(Effect::Arith { op, lhs, rhs })),
            Applied::Join(x, y) => {
                self.values.push(Value::String(x));
                self.values.push(Value::String(y));
                self.push(Task::Concat);
                Ok(Signal::Continue)
            },
            Applied::JoinNumber(x, y) => {
                self.values.push(Value::String(x));
                self.push(Task::Concat);
                Ok(Signal::Effect(Effect::Format(y)))
            },
            Applied::NumberJoin(x, y) => {
                self.values.push(Value::String(y));
                self.push(Task::ConcatRev);
                Ok(Signal::Effect(Effect::Format(x)))
            },
            Applied::Fail(e) => self.fail(report(op, e)),
        }
    }

    /// Does the task `Binary(id)`.
    pub fn binary(&mut self, ast: &Ast, id: usize) -> (r: Result<Signal, LoxErr>)
        ensures
            steps(r, final(self)@, s_binary(ast@, old(self)@, id)),
    {
        proof {
            reveal(s_binary);
        }
        let n = self.values.len();
        if n < 2 {
            return self.confused();
        }
        let op = match operator_of(ast, id) {
            Some(op) => op,
            None => {
                return self.fail(LoxErr::internal("malformed syntax tree"));
            },
        };
        let right = self.values[n - 1];
        let left = self.values[n - 2];
        let _ = self.take();
        let _ = self.take();
        self.apply(op, binary(op, left, right))
    }

    /// Does the tasks `Concat` and `ConcatRev`.
    pub fn concat(&mut self, reversed: bool) -> (r: Result<Signal, LoxErr>)
        ensures
            steps(r, final(self)@, s_concat(old(self)@, reversed)),
    {
        proof {
            reveal(s_concat);
        }
        let n = self.values.len();
        if n < 2 {
            return self.confused();
        }
        match (self.values[n - 2], self.values[n - 1]) {
            (Value::String(a), Value::String(b)) => {
                let text = if reversed {
                    crate::text::join(self.heap.text(b), self.heap.text(a))
                } else {
                    crate::text::join(self.heap.text(a), self.heap.text(b))
                };
                let _ = self.take();
                let _ = self.take();
                let v = self.heap.intern(text.as_str());
                self.found_kept(v)
            },
            _ => self.confused(),
        }
    }

    /// Does the task `Logical(id)`.
    pub fn logical(&mut self, ast: &Ast, id: usize) -> (r: Result<Signal, LoxErr>)
        ensures
            steps(r, final(self)@, s_logical(ast@, old(self)@, id)),
    {
        proof {
            reveal(s_logical);
        }
        let left = match self.top() {
            Some(v) => v.is_truthy(),
            None => {
                return self.confused();
            },
        };
        match ast.expr(id) {
            Some(ExprKind::Logical(e)) => {
                let op = ast.token_type(e.operator);
                if op == TokenType::And || op == TokenType::Or {
                    if left == (op == TokenType::And) {
                        let _ = self.take();
                        self.push(Task::Eval(e.right));
                    }
                    Ok(Signal::Continue)
                } else {
                    self.fail(report(op, OperatorError::BadOperands))
                }
            },
            _ => self.fail(LoxErr::internal("malformed syntax tree")),
        }
    }

    /// Whether `name` is bound to a native function in the global scope.
    fn is_native(&self, name: &str) -> (r: bool)
        ensures
            r == is_native(self@.heap, name@),
    {
        match self.heap.scopes().get_at(0, 0, name) {
            Ok(Value::Func(Func::Native(_))) => true,
            _ => false,
        }
    }

    /// Does the task `Assign(id)`.
    pub fn assign(&mut self, ast: &Ast, id: usize) -> (r: Result<Signal, LoxErr>)
        ensures
            steps(r, final(self)@, s_assign(ast@, old(self)@, id)),
    {
        proof {
            reveal(s_assign);
        }
        let v = match self.top() {
            Some(v) => v,
            None => {
                return self.confused();
            },
        };
        let name = match ast.expr(id) {
            Some(ExprKind::Assign(e)) => match ast.name(e.name) {
                Ok(name) => name,
                Err(e) => {
                    return self.fail(e);
                },
            },
            _ => {
                return self.fail(LoxErr::internal("malformed syntax tree"));
            },
        };
        if self.is_native(name) {
            return self.fail_eval(name, "Not allowed to override native function");
        }
        let (at, distance) = match self.locals.get(id) {
            Some(d) => (self.scope, d),
            None => (0, 0),
        };
        match self.heap.assign_at(at, distance, name, v) {
            Ok(()) => Ok(Signal::Continue),
            Err(e) => self.fail(e),
        }
    }

    /// Does the task `Get(id)`.
    pub fn get(&mut self, ast: &Ast, id: usize) -> (r: Result<Signal, LoxErr>)
        ensures
            steps(r, final(self)@, s_get(ast@, old(self)@, id)),
    {
        proof {
            reveal(s_get);
        }
        let v = match self.top() {
            Some(v) => v,
            None => {
                return self.confused();
            },
        };
        let name = match ast.expr(id) {
            Some(ExprKind::Get(e)) => match ast.name(e.name) {
                Ok(name) => name,
                Err(e) => {
                    return self.fail(e);
                },
            },
            _ => {
                return self.fail(LoxErr::internal("malformed syntax tree"));
            },
        };
        match v {
            Value::Instance(i) => {
                let _ = self.take();
                let p = self.heap.get_property(i, name);
                self.found_kept(p)
            },
            _ => self.fail_eval(name, "Invalid call on non-instance value"),
        }
    }

    /// Does the task `SetTarget(id)`.
    pub fn set_target(&mut self, ast: &Ast, id: usize) -> (r: Result<Signal, LoxErr>)
        ensures
            steps(r, final(self)@, s_set_target(ast@, old(self)@, id)),
    {
        proof {
            reveal(s_set_target);
        }
        let v = match self.top() {
            Some(v) => v,
            None => {
                return self.confused();
            },
        };
        match ast.expr(id) {
            Some(ExprKind::SetField(e)) => match v {
                Value::Instance(_) => {
                    self.push(Task::SetValue(id));
                    self.push(Task::Eval(e.value));
                    Ok(Signal::Continue)
                },
                _ => self.fail_eval(".", "Only instances can be accessed via fields (`.`)"),
            },
            _ => self.fail(LoxErr::internal("malformed syntax tree")),
        }
    }

    /// Does the task `SetValue(id)`.
    pub fn set(&mut self, ast: &Ast, id: usize) -> (r: Result<Signal, LoxErr>)
        ensures
            steps(r, final(self)@, s_set_value(ast@, old(self)@, id)),
    {
        proof {
            reveal(s_set_value);
        }
        let n = self.values.len();
        if n < 2 {
            return self.confused();
        }
        let name = match ast.expr(id) {
            Some(ExprKind::SetField(e)) => match ast.name(e.name) {
                Ok(name) => name,
                Err(e) => {
                    return self.fail(e);
                },
            },
            _ => {
                return self.fail(LoxErr::internal("malformed syntax tree"));
            },
        };
        let value = self.values[n - 1];
        match self.values[n - 2] {
            Value::Instance(i) => match self.heap.set_field(i, name, value) {
                Ok(()) => {
                    let _ = self.take();
                    let _ = self.take();
                    self.give(value)
                },
                Err(e) => self.fail(e),
            },
            _ => self.confused(),
        }
    }

    /// Evaluates `super.method`.
    pub fn super_expr(&mut self, ast: &Ast, id: usize, method: usize) -> (r: Result<
        Signal,
        LoxErr,
    >)
        ensures
            steps(r, final(self)@, s_super(ast@, old(self)@, id, method)),
    {
        proof {
            reveal(s_super);
        }
        let name = match ast.name(method) {
            Ok(name) => name,
            Err(e) => {
                return self.fail(e);
            },
        };
        let depth = match self.locals.get(id) {
            Some(d) => d,
            None => {
                return self.confused();
            },
        };
        if depth == 0 {
            return self.confused();
        }
        let over = self.scope_value(depth, "super");
        let this = self.scope_value(depth - 1, "this");
        match (over, this) {
            (Some(Value::Func(Func::Class(c))), Some(Value::Instance(i))) => {
                let key = name.to_owned();
                match self.heap.find_method(c, &key) {
                    Some(f) => match self.heap.bind(f, i) {
                        Ok(f) => self.found_kept(Ok(Value::Func(Func::Lox(f)))),
                        Err(e) => self.fail(e),
                    },
                    None => self.fail(LoxErr::undefined("undefined property: ", name)),
                }
            },
            _ => self.confused(),
        }
    }
}

} // verus!
