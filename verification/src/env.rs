//! A stack of frames over one frame of globals.
use vstd::prelude::*;

use crate::error::{LoxErr, LoxErrView};
use crate::frame::Frame;

verus! {

/// An [`Env`] as contracts see it: the open frames, innermost last, and the globals.
pub struct EnvView<T> {
    pub frames: Seq<Map<Seq<char>, T>>,
    pub globals: Map<Seq<char>, T>,
}

/// Nested scopes that open and close in stack order, with globals kept apart.
pub struct Env<T> {
    frames: Vec<Frame<T>>,
    globals: Frame<T>,
}

/// The innermost frame that binds `name`.
pub open spec fn innermost<T>(frames: Seq<Map<Seq<char>, T>>, name: Seq<char>) -> Option<int>
    decreases frames.len(),
{
    if frames.len() == 0 {
        None
    } else if frames.last().contains_key(name) {
        Some(frames.len() - 1)
    } else {
        innermost(frames.drop_last(), name)
    }
}

/// What a lookup of `name` finds: the innermost binding, else the global one.
pub open spec fn lookup<T>(env: EnvView<T>, name: Seq<char>) -> Option<T> {
    match innermost(env.frames, name) {
        Some(k) => Some(env.frames[k][name]),
        None => if env.globals.contains_key(name) {
            Some(env.globals[name])
        } else {
            None
        },
    }
}

spec fn frames_view<T>(frames: Seq<Frame<T>>) -> Seq<Map<Seq<char>, T>> {
    Seq::new(frames.len(), |i: int| frames[i]@)
}

impl<T> View for Env<T> {
    type V = EnvView<T>;

    closed spec fn view(&self) -> EnvView<T> {
        EnvView { frames: frames_view(self.frames@), globals: self.globals@ }
    }
}

impl<T: Clone> Default for Env<T> {
    fn default() -> (env: Env<T>)
        ensures
            env@.frames == seq![Map::<Seq<char>, T>::empty()],
            env@.globals == Map::<Seq<char>, T>::empty(),
    {
        Env::new()
    }
}

impl<T: Clone> Env<T> {
    /// One empty scope over empty globals.
    pub fn new() -> (env: Env<T>)
        ensures
            env@.frames == seq![Map::<Seq<char>, T>::empty()],
            env@.globals == Map::<Seq<char>, T>::empty(),
    {
        let mut frames: Vec<Frame<T>> = Vec::new();
        frames.push(Frame::new());
        let env = Env { frames, globals: Frame::new() };
        assert(env@.frames =~= seq![Map::<Seq<char>, T>::empty()]);
        env
    }

    /// Binds `name` among the globals.
    pub fn define_global(&mut self, name: &str, val: T)
        ensures
            final(self)@.frames == old(self)@.frames,
            final(self)@.globals == old(self)@.globals.insert(name@, val),
    {
        self.globals.insert(name.to_owned(), val);
    }

    /// Opens an empty scope inside the current one.
    pub fn open_scope(&mut self)
        ensures
            final(self)@.frames == old(self)@.frames.push(Map::<Seq<char>, T>::empty()),
            final(self)@.globals == old(self)@.globals,
    {
        self.frames.push(Frame::new());
        assert(self@.frames =~= old(self)@.frames.push(Map::<Seq<char>, T>::empty()));
    }

    /// Closes the current scope and forgets its bindings.  Without a scope, nothing happens.
    pub fn close_scope(&mut self)
        ensures
            final(self)@.globals == old(self)@.globals,
            final(self)@.frames == if old(self)@.frames.len() == 0 {
                old(self)@.frames
            } else {
                old(self)@.frames.drop_last()
            },
    {
        let _ = self.frames.pop();
        assert(self@.frames =~= if old(self)@.frames.len() == 0 {
            old(self)@.frames
        } else {
            old(self)@.frames.drop_last()
        });
    }

    /// How many scopes are open.
    pub fn depth(&self) -> (n: usize)
        ensures
            n == self@.frames.len(),
    {
        self.frames.len()
    }

    /// Binds `name` in the current scope.  Without a scope, nothing happens.
    pub fn define(&mut self, name: &str, val: T)
        ensures
            final(self)@.globals == old(self)@.globals,
            final(self)@.frames == if old(self)@.frames.len() == 0 {
                old(self)@.frames
            } else {
                old(self)@.frames.update(
                    old(self)@.frames.len() - 1,
                    old(self)@.frames.last().insert(name@, val),
                )
            },
    {
        let n = self.frames.len();
        if n > 0 {
            self.insert_at(n - 1, name.to_owned(), val);
        }
    }

    fn insert_at(&mut self, k: usize, name: String, val: T)
        requires
            k < old(self)@.frames.len(),
        ensures
            final(self)@.globals == old(self)@.globals,
            final(self)@.frames == old(self)@.frames.update(
                k as int,
                old(self)@.frames[k as int].insert(name@, val),
            ),
    {
        self.frames[k].insert(name, val);
        assert(self@.frames =~= old(self)@.frames.update(
            k as int,
            old(self)@.frames[k as int].insert(name@, val),
        ));
    }

    /// The innermost open frame that binds `name`.
    fn find(&self, name: &String) -> (r: Option<usize>)
        ensures
            match r {
                Some(k) => innermost(self@.frames, name@) == Some(k as int) && k
                    < self@.frames.len() && self@.frames[k as int].contains_key(name@),
                None => innermost(self@.frames, name@) is None,
            },
    {
        let mut n: usize = self.frames.len();
        let ghost all = self@.frames;
        assert(all.take(n as int) =~= all);
        while n > 0
            invariant
                n <= self.frames.len(),
                all == self@.frames,
                innermost(all, name@) == innermost(all.take(n as int), name@),
            decreases n,
        {
            let ghost prefix = all.take(n as int);
            assert(prefix.last() == all[n - 1]);
            assert(prefix.drop_last() =~= all.take(n - 1));
            if self.frames[n - 1].contains(name) {
                return Some(n - 1);
            }
            n -= 1;
        }
        None
    }

    /// Rebinds `name` in the innermost open scope that binds it.  Globals are not assigned to.
    pub fn assign(&mut self, name: &str, val: T) -> (r: Result<(), LoxErr>)
        ensures
            final(self)@.globals == old(self)@.globals,
            old(self)@.frames.len() == 0 ==> final(self)@ == old(self)@ && r is Err && r->Err_0@
                == (LoxErrView::Internal {
                message: "Attempted to assign to an unscoped environment"@,
            }),
            old(self)@.frames.len() > 0 ==> match innermost(old(self)@.frames, name@) {
                Some(k) => r is Ok && final(self)@.frames == old(self)@.frames.update(
                    k,
                    old(self)@.frames[k].insert(name@, val),
                ),
                None => final(self)@ == old(self)@ && r is Err && r->Err_0@ == (
                LoxErrView::Undefined {
                    message: "attempted to assign to undefined var: "@ + name@,
                }),
            },
    {
        if self.frames.len() == 0 {
            return Err(LoxErr::internal("Attempted to assign to an unscoped environment"));
        }
        let key = name.to_owned();
        match self.find(&key) {
            Some(k) => {
                self.insert_at(k, key, val);
                Ok(())
            },
            None => Err(LoxErr::undefined("attempted to assign to undefined var: ", name)),
        }
    }

    /// A copy of what `name` is bound to: in the innermost scope that binds it, else globally.
    pub fn get(&self, name: &str) -> (r: Result<T, LoxErr>)
        ensures
            self@.frames.len() == 0 ==> r is Err && r->Err_0@ == (LoxErrView::Internal {
                message: "Attempted to get from an unscoped environment"@,
            }),
            self@.frames.len() > 0 ==> match lookup(self@, name@) {
                Some(v) => r is Ok && cloned(v, r->Ok_0),
                None => r is Err && r->Err_0@ == (LoxErrView::Undefined {
                    message: "variable undefined: "@ + name@,
                }),
            },
    {
        if self.frames.len() == 0 {
            return Err(LoxErr::internal("Attempted to get from an unscoped environment"));
        }
        let key = name.to_owned();
        let found = match self.find(&key) {
            Some(k) => self.frames[k].get(&key),
            None => self.globals.get(&key),
        };
        match found {
            Some(v) => Ok(v.clone()),
            None => Err(LoxErr::undefined("variable undefined: ", name)),
        }
    }
}

} // verus!
