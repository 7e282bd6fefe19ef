//! The state of the evaluator and what it is made of.
//!
//! The evaluator keeps what is still to be done as a stack of tasks and the
//! values that the tasks pass to each other as a second stack.  A step takes
//! the task on top and does it; most tasks put other tasks in their place.
use vstd::prelude::*;

use crate::ast::List;
use crate::error::{LoxErr, LoxErrView};
use crate::interp::heap::{Heap, HeapView};
use crate::interp::value::Value;
use crate::resolver::Locals;

verus! {

/// The arithmetic that the evaluator leaves to the host.
#[derive(Clone, Copy, Debug, PartialEq, Eq, Structural)]
pub enum ArithOp {
    Add,
    Subtract,
    Multiply,
    Divide,
}

/// What only the host can do.
#[derive(Clone, Copy, Debug, PartialEq, Eq, Structural)]
pub enum Effect {
    /// The numbers `lhs` and `rhs`, given by their bits, are to be combined
    /// by `op`; the result goes to [`Interpreter::resume_number`].
    Arith { op: ArithOp, lhs: u64, rhs: u64 },
    /// The number is to be written out as text; the text goes to
    /// [`Interpreter::resume_text`].
    Format(u64),
    /// The time in seconds since the epoch is wanted, as a number; it goes
    /// to [`Interpreter::resume_number`].
    Clock,
    /// The value is to be printed on a line of its own.
    Print(Value),
}

/// What a step or a run ends with, if it does not fail.
#[derive(Clone, Copy, Debug, PartialEq, Eq, Structural)]
pub enum Signal {
    /// There is more to do.
    Continue,
    /// Nothing is left to do.
    Done,
    /// The host is to act; after that there may be more to do.
    Effect(Effect),
}

/// Where a call returns to.
#[derive(Clone, Copy, Debug, PartialEq, Eq, Structural)]
pub struct Boundary {
    /// The scope of the caller.
    pub scope: usize,
    /// Whether the function called is an initializer, which returns `this`.
    pub is_initializer: bool,
    /// The scope of the function called, which for a method binds `this`.
    pub closure: usize,
    /// How many scopes there were when the call began.
    pub mark: usize,
}

/// Something still to be done.  An expression is named by its node.
#[derive(Clone, Copy, Debug, PartialEq, Eq, Structural)]
pub enum Task {
    /// Execute the statement.
    Exec(usize),
    /// Evaluate the expression and push its value.
    Eval(usize),
    /// Drop the value on top.
    Pop,
    /// Print the value on top.
    Print,
    /// Apply the operator of the unary expression to the value on top.
    Unary(usize),
    /// Apply the operator of the binary expression to the two values on top.
    Binary(usize),
    /// Join the two strings on top, the upper one last.
    Concat,
    /// Join the two strings on top, the upper one first.
    ConcatRev,
    /// Decide by the value on top whether the right side of the logical
    /// expression is evaluated.
    Logical(usize),
    /// Assign the value on top to the target of the assignment.
    Assign(usize),
    /// Check that the value on top can be called with the arguments of the
    /// call, and evaluate them.
    CheckCall(usize),
    /// Call the callee with the arguments of the call, all on the stack.
    Invoke(usize),
    /// Read the property of the value on top.
    Get(usize),
    /// Check that the value on top has fields, and evaluate the new value.
    SetTarget(usize),
    /// Set the field of the instance below the top to the value on top.
    SetValue(usize),
    /// Define the variable of the statement with the value on top.
    Define(usize),
    /// Execute the statements of the list from the given one on.
    Block(List, usize),
    /// Go back to the scope, and to the number of scopes, of before a block.
    ExitScope(usize, usize),
    /// Take a branch of the `if` statement by the value on top.
    Branch(usize),
    /// Go round the `while` statement once more if the value on top says so.
    LoopTest(usize),
    /// Return the value on top from the innermost call.
    Return,
    /// The body of a call has run to its end.
    Boundary(Boundary),
    /// Build the class of the statement; its superclass, if it has one, is on top.
    MakeClass(usize),
}

/// The evaluator as contracts see it.
pub struct Machine {
    pub heap: HeapView,
    pub locals: Map<usize, usize>,
    /// The scope in which the next task runs.
    pub scope: usize,
    /// How many scopes, from the first on, a function may point into.
    pub pinned: usize,
    /// What is still to be done, the next task last.
    pub tasks: Seq<Task>,
    /// The values that tasks have left for later ones, the newest last.
    pub values: Seq<Value>,
}

/// The state after a step, and what the step ended with.
pub struct Stepped {
    pub m: Machine,
    pub r: Result<Signal, LoxErrView>,
}

impl Machine {
    /// With `task` to be done next.
    pub open spec fn next(self, task: Task) -> Machine {
        Machine { tasks: self.tasks.push(task), ..self }
    }

    /// With `value` on top.
    pub open spec fn give(self, value: Value) -> Machine {
        Machine { values: self.values.push(value), ..self }
    }

    /// Without the value on top.
    pub open spec fn drop(self) -> Machine {
        Machine { values: self.values.drop_last(), ..self }
    }

    /// With the heap `heap`.
    pub open spec fn on(self, heap: HeapView) -> Machine {
        Machine { heap, ..self }
    }

    /// In the scope `scope`.
    pub open spec fn inside(self, scope: usize) -> Machine {
        Machine { scope, ..self }
    }

    /// With all the scopes there are kept for good: a function has been
    /// made that points into them.
    pub open spec fn pin(self) -> Machine {
        Machine {
            pinned: if self.pinned < self.heap.scopes.len() {
                self.heap.scopes.len() as usize
            } else {
                self.pinned
            },
            ..self
        }
    }

    /// Without the scopes made since there were `mark` of them, but for
    /// those that are kept for good.
    pub open spec fn release(self, mark: usize) -> Machine {
        self.on(
            crate::interp::heap::released(
                self.heap,
                if mark < self.pinned {
                    self.pinned as int
                } else {
                    mark as int
                },
            ),
        )
    }

    /// Stopped: nothing left to do, no values, in global scope.
    pub open spec fn halted(self) -> Machine {
        Machine { tasks: Seq::empty(), values: Seq::empty(), scope: 0, ..self }
    }

    /// The step goes on.
    pub open spec fn go(self) -> Stepped {
        Stepped { m: self, r: Ok(Signal::Continue) }
    }

    /// The step fails with `e`, and the machine stops.
    pub open spec fn fail(self, e: LoxErrView) -> Stepped {
        Stepped { m: self.halted(), r: Err(e) }
    }

    /// The step asks the host for `effect`.
    pub open spec fn ask(self, effect: Effect) -> Stepped {
        Stepped { m: self, r: Ok(Signal::Effect(effect)) }
    }
}

/// The error of a machine whose stacks are not what a task expects.
pub open spec fn confused() -> LoxErrView {
    LoxErrView::Internal { message: "evaluator out of step"@ }
}

/// The error `message` about `what`.
pub open spec fn eval_error(what: Seq<char>, message: Seq<char>) -> LoxErrView {
    LoxErrView::Eval { expr: what, message }
}

/// The tree-walking evaluator.
pub struct Interpreter {
    pub heap: Heap,
    pub locals: Locals,
    /// The current scope.
    pub scope: usize,
    /// The global scope.
    pub globals: usize,
    /// How many scopes, from the first on, are kept for good.
    pub pinned: usize,
    pub tasks: Vec<Task>,
    pub values: Vec<Value>,
}

impl View for Interpreter {
    type V = Machine;

    open spec fn view(&self) -> Machine {
        Machine {
            heap: self.heap@,
            locals: self.locals@,
            scope: self.scope,
            pinned: self.pinned,
            tasks: self.tasks@,
            values: self.values@,
        }
    }
}

/// Whether the result `r`, with the evaluator left as `after`, is the outcome `s`.
pub open spec fn steps(r: Result<Signal, LoxErr>, after: Machine, s: Stepped) -> bool {
    after == s.m && match s.r {
        Ok(signal) => r is Ok && r->Ok_0 == signal,
        Err(e) => r is Err && r->Err_0@ == e,
    }
}

impl Interpreter {
    /// Stops the machine and gives the error back.
    pub fn fail(&mut self, e: LoxErr) -> (r: Result<Signal, LoxErr>)
        ensures
            steps(r, final(self)@, old(self)@.fail(e@)),
    {
        self.tasks.clear();
        self.values.clear();
        self.scope = 0;
        Err(e)
    }

    /// Stops the machine because its stacks are not what a task expects.
    pub fn confused(&mut self) -> (r: Result<Signal, LoxErr>)
        ensures
            steps(r, final(self)@, old(self)@.fail(confused())),
    {
        self.fail(LoxErr::internal("evaluator out of step"))
    }

    /// Stops the machine with an error about an expression that cannot be evaluated.
    pub fn fail_eval(&mut self, what: &str, message: &str) -> (r: Result<Signal, LoxErr>)
        ensures
            steps(r, final(self)@, old(self)@.fail(eval_error(what@, message@))),
    {
        self.fail(LoxErr::eval(what, message))
    }

    /// Puts `value` on top of the values.
    pub fn give(&mut self, value: Value) -> (r: Result<Signal, LoxErr>)
        ensures
            steps(r, final(self)@, old(self)@.give(value).go()),
    {
        self.values.push(value);
        Ok(Signal::Continue)
    }

    /// Puts `task` on top of the tasks.
    pub fn push(&mut self, task: Task)
        ensures
            final(self)@ == old(self)@.next(task),
    {
        self.tasks.push(task);
    }

    /// Keeps all the scopes there are for good.
    pub fn pin(&mut self)
        ensures
            final(self)@ == old(self)@.pin(),
    {
        let n = self.heap.scopes_len();
        if self.pinned < n {
            self.pinned = n;
        }
    }

    /// Forgets the scopes made since there were `mark` of them, but for
    /// those that are kept for good.
    pub fn release(&mut self, mark: usize)
        ensures
            final(self)@ == old(self)@.release(mark),
    {
        let keep = if mark < self.pinned {
            self.pinned
        } else {
            mark
        };
        self.heap.release(keep);
    }

    /// Takes the value on top.
    pub fn take(&mut self) -> (r: Option<Value>)
        ensures
            match r {
                Some(v) => old(self)@.values.len() > 0 && v == old(self)@.values.last() && final(self)@ == old(self)@.drop(),
                None => old(self)@.values.len() == 0 && final(self)@ == old(self)@,
            },
    {
        self.values.pop()
    }

    /// The value on top.
    pub fn top(&self) -> (r: Option<Value>)
        ensures
            r == if self@.values.len() > 0 {
                Some(self@.values.last())
            } else {
                None
            },
    {
        let n = self.values.len();
        if n > 0 {
            Some(self.values[n - 1])
        } else {
            None
        }
    }
}

} // verus!
