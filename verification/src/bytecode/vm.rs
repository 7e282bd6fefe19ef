//! The stack machine.
//!
//! [`step`] says what one instruction does to a machine and [`run`] strings
//! the steps together; [`VM`] computes exactly that.  The machine never
//! rounds: where an instruction needs the sum, difference, product or
//! quotient of two numbers it pauses, the host computes, and
//! [`VM::resume`] takes the result.
use arrayvec::ArrayVec;
use vstd::prelude::*;

use crate::bytecode::chunk::{constant_at, Chunk, ChunkView};
use crate::bytecode::compiler::{compile, compiled, empty_chunk};
use crate::bytecode::object::{interned, place_of, Object, StringPool, MAX_OBJECTS};
use crate::bytecode::opcode;
use crate::bytecode::slots::{
    items, slots_get, slots_len, slots_new, slots_pop, slots_set, slots_try_push, };
use crate::bytecode::value::{
    falsey, unbox, Unboxed, Value, FALSE_BITS, HANDLE_MASK, NIL_BITS, OBJECT_TAG, TRUE_BITS,
};
use crate::error::{InternalError, InvalidAccessError, LoxError, LoxErrorView, OverflowError};
use crate::number::{less, negated, number_less, number_negate};
use crate::scanner::views;
use crate::text::join;
use crate::token::{no_span, Span, Token};

verus! {

/// The most values that the operand stack can hold.
pub const MAX_STACK: usize = 256;

/// The arithmetic that the machine leaves to the host.
#[derive(Clone, Copy, Debug, PartialEq, Eq, Structural)]
pub enum ArithOp {
    Add,
    Subtract,
    Multiply,
    Divide,
}

/// Why a run stopped without failing.
#[derive(Clone, Copy, Debug, PartialEq, Eq, Structural)]
pub enum Pause {
    /// `RETURN` was reached; this is the value it popped.
    Return(Value),
    /// The numbers `lhs` and `rhs`, given by their bits, are to be combined
    /// by `op`.  The result goes to [`VM::resume`].
    Arith { op: ArithOp, lhs: u64, rhs: u64 },
}

/// A machine as contracts see it.
pub struct Machine {
    pub chunk: ChunkView,
    pub ip: int,
    pub stack: Seq<u64>,
    pub pool: Seq<Seq<char>>,
}

/// What one instruction leads to.
pub enum Step {
    /// The machine goes on in this state.
    Continue(Machine),
    /// The machine stops in this state, for this reason.
    Pause(Machine, Pause),
    /// The instruction fails.
    Fail(LoxErrorView),
}

/// The error of an instruction that finds too few values on the stack.
pub open spec fn stack_empty() -> LoxErrorView {
    LoxErrorView::InvalidAccessError(InvalidAccessError::StackEmpty)
}

/// The error of an arithmetic instruction on a value that is no number.
pub open spec fn not_a_number() -> LoxErrorView {
    LoxErrorView::ConversionError("number"@)
}

/// `m` at instruction `ip` with the top of its stack replaced by `word`.
pub open spec fn with_top(m: Machine, ip: int, word: u64) -> Machine {
    Machine { ip, stack: m.stack.update(m.stack.len() - 1, word), ..m }
}

/// `m` at instruction `ip` without the top of its stack.
pub open spec fn popped(m: Machine, ip: int) -> Machine {
    Machine { ip, stack: m.stack.drop_last(), ..m }
}

/// `m` at instruction `ip` with `word` pushed, if the stack has room.
pub open spec fn pushed(m: Machine, ip: int, word: u64) -> Step {
    if m.stack.len() >= MAX_STACK {
        Step::Fail(LoxErrorView::OverflowError(OverflowError::ExceedsStackSize(MAX_STACK)))
    } else {
        Step::Continue(Machine { ip, stack: m.stack.push(word), ..m })
    }
}

/// The word of a Boolean.
pub open spec fn bool_word(b: bool) -> u64 {
    if b {
        TRUE_BITS
    } else {
        FALSE_BITS
    }
}

/// What an instruction does that takes two numbers `a` and `b`, `b` on top.
pub open spec fn numeric(m: Machine, next: int, op: u8) -> Step {
    if m.stack.len() == 0 {
        Step::Fail(stack_empty())
    } else {
        let b = m.stack.last();
        let rest = popped(m, next);
        match unbox(b) {
            Unboxed::Number(b) => if rest.stack.len() == 0 {
                Step::Fail(stack_empty())
            } else {
                match unbox(rest.stack.last()) {
                    Unboxed::Number(a) => if op == opcode::GREATER {
                        Step::Continue(with_top(rest, next, bool_word(less(b, a))))
                    } else if op == opcode::LESS {
                        Step::Continue(with_top(rest, next, bool_word(less(a, b))))
                    } else if op == opcode::ADD {
                        Step::Pause(rest, Pause::Arith { op: ArithOp::Add, lhs: a, rhs: b })
                    } else if op == opcode::SUBTRACT {
                        Step::Pause(rest, Pause::Arith { op: ArithOp::Subtract, lhs: a, rhs: b })
                    } else if op == opcode::MULTIPLY {
                        Step::Pause(rest, Pause::Arith { op: ArithOp::Multiply, lhs: a, rhs: b })
                    } else {
                        Step::Pause(rest, Pause::Arith { op: ArithOp::Divide, lhs: a, rhs: b })
                    },
                    _ => Step::Fail(not_a_number()),
                }
            },
            _ => Step::Fail(not_a_number()),
        }
    }
}

/// What `ADD` does to two strings, the objects `a` and `b`: their texts are
/// joined and the result is interned.
pub open spec fn joined(m: Machine, next: int, a: u64, b: u64) -> Step {
    if a >= m.pool.len() || b >= m.pool.len() {
        Step::Fail(LoxErrorView::InternalError(InternalError::UnexpectedCodePath))
    } else {
        let text = m.pool[a as int] + m.pool[b as int];
        let handle = place_of(m.pool, text);
        if handle == m.pool.len() && m.pool.len() >= MAX_OBJECTS {
            Step::Fail(LoxErrorView::OverflowError(OverflowError::ExceedsPoolSize(MAX_OBJECTS)))
        } else {
            Step::Continue(
                Machine {
                    ip: next,
                    stack: m.stack.drop_last().update(
                        m.stack.len() - 2,
                        ((handle as u64) & HANDLE_MASK) | OBJECT_TAG,
                    ),
                    pool: interned(m.pool, text),
                    ..m
                },
            )
        }
    }
}

/// What the instruction at `m.ip` does.
pub open spec fn step(m: Machine) -> Step {
    if !(0 <= m.ip < m.chunk.code.len()) {
        Step::Fail(LoxErrorView::InternalError(InternalError::UnexpectedCodePath))
    } else {
        let op = m.chunk.code[m.ip];
        let next = m.ip + 1;
        let n = m.stack.len();
        if op == opcode::RETURN {
            if n == 0 {
                Step::Fail(stack_empty())
            } else {
                Step::Pause(popped(m, next), Pause::Return(Value(m.stack.last())))
            }
        } else if op == opcode::CONSTANT {
            match constant_at(m.chunk, next) {
                Some(word) => pushed(m, next + 1, word),
                None => Step::Fail(
                    LoxErrorView::OverflowError(OverflowError::IndexOverflow(256)),
                ),
            }
        } else if op == opcode::NIL {
            pushed(m, next, NIL_BITS)
        } else if op == opcode::TRUE {
            pushed(m, next, TRUE_BITS)
        } else if op == opcode::FALSE {
            pushed(m, next, FALSE_BITS)
        } else if op == opcode::NEGATE {
            if n == 0 {
                Step::Fail(stack_empty())
            } else {
                match unbox(m.stack.last()) {
                    Unboxed::Number(bits) => Step::Continue(with_top(m, next, negated(bits))),
                    _ => Step::Fail(not_a_number()),
                }
            }
        } else if op == opcode::NOT {
            if n == 0 {
                Step::Fail(stack_empty())
            } else {
                Step::Continue(with_top(m, next, bool_word(falsey(unbox(m.stack.last())))))
            }
        } else if op == opcode::ADD {
            if n < 2 {
                Step::Fail(stack_empty())
            } else {
                match (unbox(m.stack[n - 2]), unbox(m.stack[n - 1])) {
                    (Unboxed::Object(a), Unboxed::Object(b)) => joined(m, next, a, b),
                    _ => numeric(m, next, op),
                }
            }
        } else if op == opcode::SUBTRACT || op == opcode::MULTIPLY || op == opcode::DIVIDE || op
            == opcode::GREATER || op == opcode::LESS {
            numeric(m, next, op)
        } else if op == opcode::EQUAL {
            if n < 2 {
                Step::Fail(stack_empty())
            } else {
                let a = m.stack[n - 2];
                let b = m.stack[n - 1];
                let same = match (unbox(a), unbox(b)) {
                    (Unboxed::Object(x), Unboxed::Object(y)) => x == y,
                    _ => a == b,
                };
                Step::Continue(with_top(popped(m, next), next, bool_word(same)))
            }
        } else if op == opcode::TERNARY_LOGICAL {
            if n < 3 {
                Step::Fail(stack_empty())
            } else {
                match unbox(m.stack[n - 3]) {
                    Unboxed::Boolean(test) => Step::Continue(
                        Machine {
                            ip: next,
                            stack: m.stack.subrange(0, n - 3).push(
                                if test {
                                    m.stack[n - 2]
                                } else {
                                    m.stack[n - 1]
                                },
                            ),
                            ..m
                        },
                    ),
                    _ => Step::Fail(LoxErrorView::ConversionError("bool"@)),
                }
            }
        } else {
            Step::Fail(LoxErrorView::InternalError(InternalError::UnknownOperation(op)))
        }
    }
}

/// How a run ends: the state it ends in, and the pause or the failure.
/// After a failure `machine` is the state in which the failing instruction began.
pub struct Outcome {
    pub machine: Machine,
    pub result: Result<Pause, LoxErrorView>,
}

/// The run of `m` up to its first pause or failure.
pub open spec fn run(m: Machine) -> Outcome
    decreases m.chunk.code.len() - m.ip,
{
    match step(m) {
        Step::Continue(next) => if m.ip < next.ip <= m.chunk.code.len() && next.chunk
            == m.chunk {
            run(next)
        } else {
            Outcome { machine: next, result: Err(stack_empty()) }
        },
        Step::Pause(next, pause) => Outcome { machine: next, result: Ok(pause) },
        Step::Fail(e) => Outcome { machine: m, result: Err(e) },
    }
}

/// A machine that takes up a run after the host has computed `bits`: the
/// result replaces the left operand on top of the stack.
pub open spec fn resumed(m: Machine, bits: u64) -> Machine {
    with_top(m, m.ip, bits)
}

/// Every instruction that does not stop the machine moves it forward, within the same code.
pub proof fn lemma_step_advances(m: Machine)
    ensures
        match step(m) {
            Step::Continue(next) => m.ip < next.ip <= m.chunk.code.len() && next.chunk == m.chunk,
            Step::Pause(next, _) => next.chunk == m.chunk && next.ip == m.ip + 1,
            Step::Fail(_) => true,
        },
{
}


/// The virtual machine: a chunk, a place in it, the operand stack and the interned strings.
pub struct VM {
    chunk: Chunk,
    stack: ArrayVec<u64, 256>,
    ip: usize,
    pool: StringPool,
}

impl View for VM {
    type V = Machine;

    closed spec fn view(&self) -> Machine {
        Machine {
            chunk: self.chunk@,
            ip: self.ip as int,
            stack: items(self.stack),
            pool: self.pool@,
        }
    }
}

/// Whether `r` is the result `expected`.
pub open spec fn is_result<T>(r: Result<T, LoxError>, expected: Result<T, LoxErrorView>) -> bool {
    match expected {
        Ok(x) => r is Ok && r->Ok_0 == x,
        Err(e) => r is Err && r->Err_0@ == e,
    }
}

/// The span of the instruction at which `m` stands, if it stands at one.
pub open spec fn span_at(m: Machine) -> Span {
    if 0 <= m.ip < m.chunk.spans.len() {
        m.chunk.spans[m.ip]
    } else {
        no_span()
    }
}

impl VM {
    /// A machine with an empty chunk, an empty stack and no strings.
    pub fn new() -> (vm: VM)
        ensures
            vm@ == (Machine {
                chunk: empty_chunk(),
                ip: 0,
                stack: Seq::empty(),
                pool: Seq::empty(),
            }),
    {
        VM { chunk: Chunk::new(), stack: slots_new(), ip: 0, pool: StringPool::new() }
    }

    /// The index of the next instruction.
    pub fn ip(&self) -> (ip: usize)
        ensures
            ip == self@.ip,
    {
        self.ip
    }

    /// The span of the instruction at which the machine stands; after a
    /// failure, that of the instruction that failed.
    pub fn span(&self) -> (s: Span)
        ensures
            s == span_at(self@),
    {
        if self.ip < self.chunk.len() {
            self.chunk.span(self.ip)
        } else {
            Span::none()
        }
    }

    /// The text of the string that `value` is, if it is one of this machine's strings.
    pub fn text_of(&self, value: Value) -> (r: Option<&str>)
        ensures
            match (value@, r) {
                (Unboxed::Object(handle), Some(s)) => handle < self@.pool.len() && s@
                    == self@.pool[handle as int],
                (Unboxed::Object(handle), None) => handle >= self@.pool.len(),
                (_, Some(_)) => false,
                (_, None) => true,
            },
    {
        match value.as_object() {
            Some(o) => self.pool.text(o),
            None => None,
        }
    }

    fn try_pop(&mut self) -> (r: Result<Value, LoxError>)
        ensures
            final(self)@.chunk == old(self)@.chunk,
            final(self)@.ip == old(self)@.ip,
            final(self)@.pool == old(self)@.pool,
            old(self)@.stack.len() == 0 ==> final(self)@ == old(self)@ && is_result(
                r,
                Err(stack_empty()),
            ),
            old(self)@.stack.len() > 0 ==> r == Ok::<Value, LoxError>(
                Value(old(self)@.stack.last()),
            ) && final(self)@.stack == old(self)@.stack.drop_last(),
    {
        match slots_pop(&mut self.stack) {
            Some(word) => Ok(Value(word)),
            None => Err(LoxError::stack_empty()),
        }
    }

    /// The value on top of the stack.
    fn last(&self) -> (r: Result<Value, LoxError>)
        ensures
            self@.stack.len() == 0 ==> is_result(r, Err(stack_empty())),
            self@.stack.len() > 0 ==> r == Ok::<Value, LoxError>(Value(self@.stack.last())),
    {
        let n = slots_len(&self.stack);
        if n == 0 {
            Err(LoxError::stack_empty())
        } else {
            Ok(Value(slots_get(&self.stack, n - 1)))
        }
    }

    /// Replaces the value on top of the stack.
    fn set_last(&mut self, value: Value)
        requires
            old(self)@.stack.len() > 0,
        ensures
            final(self)@ == with_top(old(self)@, old(self)@.ip, value.0),
    {
        let n = slots_len(&self.stack);
        slots_set(&mut self.stack, n - 1, value.0);
    }

    fn push(&mut self, value: Value) -> (r: Result<(), LoxError>)
        ensures
            match pushed(old(self)@, old(self)@.ip, value.0) {
                Step::Continue(m) => r is Ok && final(self)@ == m,
                Step::Fail(e) => r is Err && r->Err_0@ == e && final(self)@ == old(self)@,
                Step::Pause(_, _) => false,
            },
    {
        let _ = slots_len(&self.stack);
        match slots_try_push(&mut self.stack, value.0) {
            Ok(()) => Ok(()),
            Err(_) => Err(LoxError::OverflowError(OverflowError::ExceedsStackSize(MAX_STACK))),
        }
    }

    /// The instruction `op`, which takes two numbers.  The instruction pointer stands after it.
    fn binary_op_number(&mut self, op: u8) -> (r: Result<Option<Pause>, LoxError>)
        requires
            op == opcode::ADD || op == opcode::SUBTRACT || op == opcode::MULTIPLY || op
                == opcode::DIVIDE || op == opcode::GREATER || op == opcode::LESS,
        ensures
            final(self)@.chunk == old(self)@.chunk,
            final(self)@.ip == old(self)@.ip,
            match numeric(old(self)@, old(self)@.ip, op) {
                Step::Continue(m) => r == Ok::<Option<Pause>, LoxError>(None) && final(self)@ == m,
                Step::Pause(m, p) => r == Ok::<Option<Pause>, LoxError>(Some(p)) && final(self)@
                    == m,
                Step::Fail(e) => r is Err && r->Err_0@ == e && final(self)@ == old(self)@,
            },
    {
        let n = slots_len(&self.stack);
        if n == 0 {
            return Err(LoxError::stack_empty());
        }
        let b = match Value(slots_get(&self.stack, n - 1)).try_number() {
            Ok(bits) => bits,
            Err(e) => {
                return Err(e);
            },
        };
        if n == 1 {
            return Err(LoxError::stack_empty());
        }
        let a = match Value(slots_get(&self.stack, n - 2)).try_number() {
            Ok(bits) => bits,
            Err(e) => {
                return Err(e);
            },
        };
        let _ = slots_pop(&mut self.stack);
        if op == opcode::GREATER {
            self.set_last(Value::from_bool(number_less(b, a)));
            Ok(None)
        } else if op == opcode::LESS {
            self.set_last(Value::from_bool(number_less(a, b)));
            Ok(None)
        } else if op == opcode::ADD {
            Ok(Some(Pause::Arith { op: ArithOp::Add, lhs: a, rhs: b }))
        } else if op == opcode::SUBTRACT {
            Ok(Some(Pause::Arith { op: ArithOp::Subtract, lhs: a, rhs: b }))
        } else if op == opcode::MULTIPLY {
            Ok(Some(Pause::Arith { op: ArithOp::Multiply, lhs: a, rhs: b }))
        } else {
            Ok(Some(Pause::Arith { op: ArithOp::Divide, lhs: a, rhs: b }))
        }
    }

    /// `ADD` on the strings `a` and `b`, the two values on top of the stack.
    fn concat(&mut self, a: Object, b: Object) -> (r: Result<Option<Pause>, LoxError>)
        requires
            old(self)@.stack.len() >= 2,
        ensures
            final(self)@.chunk == old(self)@.chunk,
            final(self)@.ip == old(self)@.ip,
            match joined(old(self)@, old(self)@.ip, a.handle, b.handle) {
                Step::Continue(m) => r == Ok::<Option<Pause>, LoxError>(None) && final(self)@ == m,
                Step::Fail(e) => r is Err && r->Err_0@ == e && final(self)@ == old(self)@,
                Step::Pause(_, _) => false,
            },
    {
        let text = match (self.pool.text(a), self.pool.text(b)) {
            (Some(x), Some(y)) => join(x, y),
            _ => {
                return Err(LoxError::unexpected());
            },
        };
        let object = match self.pool.intern_string(text.as_str()) {
            Ok(o) => o,
            Err(e) => {
                return Err(e);
            },
        };
        let _ = slots_pop(&mut self.stack);
        self.set_last(Value::from_object(object));
        Ok(None)
    }

    fn negate(&mut self) -> (r: Result<(), LoxError>)
        ensures
            final(self)@.chunk == old(self)@.chunk,
            final(self)@.ip == old(self)@.ip,
            r is Err ==> final(self)@ == old(self)@,
            old(self)@.stack.len() == 0 ==> is_result(r, Err(stack_empty())),
            old(self)@.stack.len() > 0 ==> match unbox(old(self)@.stack.last()) {
                Unboxed::Number(bits) => r is Ok && final(self)@ == with_top(
                    old(self)@,
                    old(self)@.ip,
                    negated(bits),
                ),
                _ => is_result(r, Err(not_a_number())),
            },
    {
        let top = match self.last() {
            Ok(v) => v,
            Err(e) => {
                return Err(e);
            },
        };
        match top.try_number() {
            Ok(bits) => {
                self.set_last(Value(number_negate(bits)));
                Ok(())
            },
            Err(e) => Err(e),
        }
    }

    fn not(&mut self) -> (r: Result<(), LoxError>)
        ensures
            final(self)@.chunk == old(self)@.chunk,
            final(self)@.ip == old(self)@.ip,
            r is Err ==> final(self)@ == old(self)@,
            old(self)@.stack.len() == 0 ==> is_result(r, Err(stack_empty())),
            old(self)@.stack.len() > 0 ==> r is Ok && final(self)@ == with_top(
                old(self)@,
                old(self)@.ip,
                bool_word(falsey(unbox(old(self)@.stack.last()))),
            ),
    {
        let top = match self.last() {
            Ok(v) => v,
            Err(e) => {
                return Err(e);
            },
        };
        self.set_last(Value::from_bool(top.is_falsey()));
        Ok(())
    }

    fn equal(&mut self) -> (r: Result<(), LoxError>)
        ensures
            final(self)@.chunk == old(self)@.chunk,
            final(self)@.ip == old(self)@.ip,
            old(self)@.stack.len() < 2 ==> is_result(r, Err(stack_empty())) && final(self)@
                == old(self)@,
            old(self)@.stack.len() >= 2 ==> r is Ok && final(self)@ == with_top(
                popped(old(self)@, old(self)@.ip),
                old(self)@.ip,
                bool_word(
                    match (
                        unbox(old(self)@.stack[old(self)@.stack.len() - 2]),
                        unbox(old(self)@.stack.last()),
                    ) {
                        (Unboxed::Object(x), Unboxed::Object(y)) => x == y,
                        _ => old(self)@.stack[old(self)@.stack.len() - 2] == old(self)@.stack.last(),
                    },
                ),
            ),
    {
        let n = slots_len(&self.stack);
        if n < 2 {
            return Err(LoxError::stack_empty());
        }
        let b = Value(slots_get(&self.stack, n - 1));
        let a = Value(slots_get(&self.stack, n - 2));
        let same = match (a.as_object(), b.as_object()) {
            (Some(x), Some(y)) => x.handle == y.handle,
            _ => a.0 == b.0,
        };
        let _ = slots_pop(&mut self.stack);
        self.set_last(Value::from_bool(same));
        Ok(())
    }

    fn ternary(&mut self) -> (r: Result<(), LoxError>)
        ensures
            final(self)@.chunk == old(self)@.chunk,
            final(self)@.ip == old(self)@.ip,
            final(self)@.pool == old(self)@.pool,
            r is Err ==> final(self)@ == old(self)@,
            old(self)@.stack.len() < 3 ==> is_result(r, Err(stack_empty())),
            old(self)@.stack.len() >= 3 ==> match unbox(
                old(self)@.stack[old(self)@.stack.len() - 3],
            ) {
                Unboxed::Boolean(test) => r is Ok && final(self)@.stack == old(self)@.stack.subrange(0, old(self)@.stack.len() - 3).push(
                    if test {
                        old(self)@.stack[old(self)@.stack.len() - 2]
                    } else {
                        old(self)@.stack[old(self)@.stack.len() - 1]
                    },
                ),
                _ => is_result(r, Err(LoxErrorView::ConversionError("bool"@))),
            },
    {
        let n = slots_len(&self.stack);
        if n < 3 {
            return Err(LoxError::stack_empty());
        }
        let c = Value(slots_get(&self.stack, n - 1));
        let b = Value(slots_get(&self.stack, n - 2));
        let a = Value(slots_get(&self.stack, n - 3));
        match a.try_bool() {
            Ok(test) => {
                let _ = slots_pop(&mut self.stack);
                let _ = slots_pop(&mut self.stack);
                self.set_last(if test {
                    b
                } else {
                    c
                });
                assert(self@.stack =~= old(self)@.stack.subrange(
                    0,
                    old(self)@.stack.len() - 3,
                ).push(
                    if test {
                        b.0
                    } else {
                        c.0
                    },
                ));
                Ok(())
            },
            Err(e) => Err(e),
        }
    }

    /// Executes the instruction at the instruction pointer.  Returns the
    /// pause if the instruction stops the run.  An instruction that fails
    /// changes nothing.
    pub fn step(&mut self) -> (r: Result<Option<Pause>, LoxError>)
        ensures
            final(self)@.chunk == old(self)@.chunk,
            match step(old(self)@) {
                Step::Continue(m) => r == Ok::<Option<Pause>, LoxError>(None) && final(self)@ == m,
                Step::Pause(m, p) => r == Ok::<Option<Pause>, LoxError>(Some(p)) && final(self)@
                    == m,
                Step::Fail(e) => r is Err && r->Err_0@ == e && final(self)@ == old(self)@,
            },
    {
        let at = self.ip;
        if at >= self.chunk.len() {
            return Err(LoxError::unexpected());
        }
        let op = self.chunk.byte(at);
        self.ip = at + 1;
        let r: Result<Option<Pause>, LoxError> = if op == opcode::RETURN {
            match self.try_pop() {
                Ok(v) => Ok(Some(Pause::Return(v))),
                Err(e) => Err(e),
            }
        } else if op == opcode::CONSTANT {
            match self.chunk.read_const(at + 1) {
                Ok(v) => {
                    self.ip = at + 2;
                    match self.push(v) {
                        Ok(()) => Ok(None),
                        Err(e) => Err(e),
                    }
                },
                Err(e) => Err(e),
            }
        } else if op == opcode::NIL {
            match self.push(Value::nil()) {
                Ok(()) => Ok(None),
                Err(e) => Err(e),
            }
        } else if op == opcode::TRUE {
            match self.push(Value::from_bool(true)) {
                Ok(()) => Ok(None),
                Err(e) => Err(e),
            }
        } else if op == opcode::FALSE {
            match self.push(Value::from_bool(false)) {
                Ok(()) => Ok(None),
                Err(e) => Err(e),
            }
        } else if op == opcode::NEGATE {
            match self.negate() {
                Ok(()) => Ok(None),
                Err(e) => Err(e),
            }
        } else if op == opcode::NOT {
            match self.not() {
                Ok(()) => Ok(None),
                Err(e) => Err(e),
            }
        } else if op == opcode::ADD {
            let n = slots_len(&self.stack);
            if n < 2 {
                Err(LoxError::stack_empty())
            } else {
                let a = Value(slots_get(&self.stack, n - 2));
                let b = Value(slots_get(&self.stack, n - 1));
                match (a.as_object(), b.as_object()) {
                    (Some(x), Some(y)) => self.concat(x, y),
                    _ => self.binary_op_number(op),
                }
            }
        } else if op == opcode::SUBTRACT || op == opcode::MULTIPLY || op == opcode::DIVIDE || op
            == opcode::GREATER || op == opcode::LESS {
            self.binary_op_number(op)
        } else if op == opcode::EQUAL {
            match self.equal() {
                Ok(()) => Ok(None),
                Err(e) => Err(e),
            }
        } else if op == opcode::TERNARY_LOGICAL {
            match self.ternary() {
                Ok(()) => Ok(None),
                Err(e) => Err(e),
            }
        } else {
            Err(LoxError::InternalError(InternalError::UnknownOperation(op)))
        };
        if r.is_err() {
            self.ip = at;
        }
        r
    }

    /// Runs from the instruction pointer to the first pause or failure.
    /// After a failure the machine is as it was when the instruction that
    /// failed began.
    pub fn run(&mut self) -> (r: Result<Pause, LoxError>)
        ensures
            is_result(r, run(old(self)@).result),
            final(self)@ == run(old(self)@).machine,
    {
        loop
            invariant
                run(self@) == run(old(self)@),
            decreases self@.chunk.code.len() - self@.ip,
        {
            proof {
                lemma_step_advances(self@);
            }
            match self.step() {
                Ok(Some(pause)) => {
                    return Ok(pause);
                },
                Ok(None) => {},
                Err(e) => {
                    return Err(e);
                },
            }
        }
    }

    /// Takes up the run after an [`Pause::Arith`]: `bits`, the result that
    /// the host computed, replaces the left operand on top of the stack.
    pub fn resume(&mut self, bits: u64) -> (r: Result<Pause, LoxError>)
        ensures
            old(self)@.stack.len() == 0 ==> is_result(r, Err(stack_empty())) && final(self)@
                == old(self)@,
            old(self)@.stack.len() > 0 ==> {
                let end = run(resumed(old(self)@, bits));
                &&& is_result(r, end.result)
                &&& final(self)@ == end.machine
            },
    {
        if slots_len(&self.stack) == 0 {
            return Err(LoxError::stack_empty());
        }
        self.set_last(Value::from_number(bits));
        self.run()
    }

    /// Compiles `tokens` and runs the chunk from its start, on the operand
    /// stack as it is.  An error of the run comes with the span of the
    /// instruction that failed.
    pub fn interpret(&mut self, tokens: Vec<Token>) -> (r: Result<Pause, Vec<(LoxError, Span)>>)
        ensures
            match compiled(views(tokens@), old(self)@.pool) {
                Err(e) => final(self)@ == old(self)@ && r is Err && r->Err_0@.len() == 1
                    && r->Err_0@[0].0@ == e.0 && r->Err_0@[0].1 == e.1,
                Ok(st) => {
                    let end = run(
                        Machine {
                            chunk: st.chunk,
                            ip: 0,
                            stack: old(self)@.stack,
                            pool: st.pool,
                        },
                    );
                    match end.result {
                        Ok(pause) => r == Ok::<Pause, Vec<(LoxError, Span)>>(pause) && final(self)@ == end.machine,
                        Err(e) => r is Err && r->Err_0@.len() == 1 && r->Err_0@[0].0@ == e
                            && r->Err_0@[0].1 == span_at(end.machine),
                    }
                },
            },
    {
        match compile(tokens, &mut self.pool) {
            Err(errors) => Err(errors),
            Ok(chunk) => {
                self.chunk = chunk;
                self.ip = 0;
                match self.run() {
                    Ok(pause) => Ok(pause),
                    Err(e) => {
                        let span = self.span();
                        let mut errors: Vec<(LoxError, Span)> = Vec::new();
                        errors.push((e, span));
                        Err(errors)
                    },
                }
            },
        }
    }
}

} // verus!
