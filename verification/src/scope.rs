//! Lexical environments.
//!
//! [`Scope`] is a tree of frames: every frame knows its parent, and a frame
//! stays alive for as long as the tree does, so a closure can keep the handle
//! of the frame it was created in.  [`Env`] is the simpler stack of frames
//! that suffices where nothing outlives its block.
use vstd::prelude::*;

use crate::error::{LoxErr, LoxErrView};
use crate::frame::Frame;

verus! {

/// One frame of a [`Scope`], as contracts see it.
pub struct NodeView<T> {
    pub vars: Map<Seq<char>, T>,
    pub parent: Option<usize>,
}

struct Node<T> {
    frame: Frame<T>,
    parent: Option<usize>,
}

/// A tree of frames.  A frame is named by its handle, the order of its creation.
pub struct Scope<T> {
    nodes: Vec<Node<T>>,
}

/// The frame reached from `at` by following `distance` parent links.
pub open spec fn ancestor<T>(s: Seq<NodeView<T>>, at: int, distance: nat) -> Option<int>
    decreases distance,
{
    if !(0 <= at < s.len()) {
        None
    } else if distance == 0 {
        Some(at)
    } else {
        match s[at].parent {
            Some(p) => ancestor(s, p as int, (distance - 1) as nat),
            None => None,
        }
    }
}

/// The nearest frame, starting at `at` and walking up, that binds `name`.
pub open spec fn resolve<T>(s: Seq<NodeView<T>>, at: int, name: Seq<char>) -> Option<int>
    decreases at,
{
    if !(0 <= at < s.len()) {
        None
    } else if s[at].vars.contains_key(name) {
        Some(at)
    } else {
        match s[at].parent {
            Some(p) => if p < at {
                resolve(s, p as int, name)
            } else {
                None
            },
            None => None,
        }
    }
}

/// `s` with `name` bound to `value` in frame `at`.
pub open spec fn bind<T>(s: Seq<NodeView<T>>, at: int, name: Seq<char>, value: T) -> Seq<
    NodeView<T>,
> {
    s.update(at, NodeView { vars: s[at].vars.insert(name, value), parent: s[at].parent })
}

/// `s` without the frames from `len` on, if that leaves the root.
pub open spec fn cut<T>(s: Seq<NodeView<T>>, len: int) -> Seq<NodeView<T>> {
    if 1 <= len < s.len() {
        s.take(len)
    } else {
        s
    }
}

/// Every parent was created before its children.
pub open spec fn parents_first<T>(s: Seq<NodeView<T>>) -> bool {
    forall|i: int|
        0 <= i < s.len() ==> match (#[trigger] s[i]).parent {
            Some(p) => p < i,
            None => true,
        }
}

spec fn nodes_view<T>(nodes: Seq<Node<T>>) -> Seq<NodeView<T>> {
    Seq::new(nodes.len(), |i: int| NodeView { vars: nodes[i].frame@, parent: nodes[i].parent })
}

impl<T> View for Scope<T> {
    type V = Seq<NodeView<T>>;

    closed spec fn view(&self) -> Seq<NodeView<T>> {
        nodes_view(self.nodes@)
    }
}

impl<T> Scope<T> {
    #[verifier::type_invariant]
    spec fn wf(&self) -> bool {
        parents_first(self@)
    }
}

impl<T: Clone> Default for Scope<T> {
    fn default() -> (s: Scope<T>)
        ensures
            s@ == seq![NodeView { vars: Map::<Seq<char>, T>::empty(), parent: None }],
    {
        Scope::new()
    }
}

impl<T: Clone> Scope<T> {
    /// A tree with a single, empty frame: its root, with handle 0.
    pub fn new() -> (s: Scope<T>)
        ensures
            s@ == seq![NodeView { vars: Map::<Seq<char>, T>::empty(), parent: None }],
    {
        let mut nodes: Vec<Node<T>> = Vec::new();
        nodes.push(Node { frame: Frame::new(), parent: None });
        let s = Scope { nodes };
        assert(s@ =~= seq![NodeView { vars: Map::<Seq<char>, T>::empty(), parent: None }]);
        s
    }

    /// The handle of the first frame.
    pub fn root(&self) -> (id: usize)
        ensures
            id == 0,
    {
        0
    }

    /// How many frames the tree holds; the valid handles are those below it.
    pub fn len(&self) -> (n: usize)
        ensures
            n == self@.len(),
            parents_first(self@),
    {
        proof {
            use_type_invariant(self);
        }
        self.nodes.len()
    }

    /// Adds an empty frame below `parent` and returns its handle.
    pub fn from_parent(&mut self, parent: usize) -> (id: usize)
        requires
            parent < old(self)@.len(),
        ensures
            id == old(self)@.len(),
            final(self)@ == old(self)@.push(
                NodeView { vars: Map::<Seq<char>, T>::empty(), parent: Some(parent) },
            ),
    {
        proof {
            use_type_invariant(&*self);
        }
        let id = self.nodes.len();
        let ghost before = self@;
        let mut nodes: Vec<Node<T>> = Vec::new();
        std::mem::swap(&mut self.nodes, &mut nodes);
        nodes.push(Node { frame: Frame::new(), parent: Some(parent) });
        assert(nodes_view(nodes@) =~= before.push(
            NodeView { vars: Map::<Seq<char>, T>::empty(), parent: Some(parent) },
        ));
        std::mem::swap(&mut self.nodes, &mut nodes);
        id
    }

    /// Forgets the frames from `len` on, if that leaves the root.  Their
    /// handles are given out again.
    pub fn truncate(&mut self, len: usize)
        ensures
            final(self)@ == cut(old(self)@, len as int),
    {
        proof {
            use_type_invariant(&*self);
        }
        if len >= 1 && len < self.nodes.len() {
            let ghost before = self@;
            let mut nodes: Vec<Node<T>> = Vec::new();
            std::mem::swap(&mut self.nodes, &mut nodes);
            nodes.truncate(len);
            assert(nodes_view(nodes@) =~= before.take(len as int));
            std::mem::swap(&mut self.nodes, &mut nodes);
        }
    }

    /// Binds `name` to `val` in frame `at`, replacing an earlier binding there.
    pub fn define(&mut self, at: usize, name: &str, val: T)
        requires
            at < old(self)@.len(),
        ensures
            final(self)@ == bind(old(self)@, at as int, name@, val),
    {
        self.insert_at(at, name.to_owned(), val);
    }

    fn insert_at(&mut self, at: usize, name: String, val: T)
        requires
            at < old(self)@.len(),
        ensures
            final(self)@ == bind(old(self)@, at as int, name@, val),
    {
        proof {
            use_type_invariant(&*self);
        }
        let ghost before = self@;
        let mut nodes: Vec<Node<T>> = Vec::new();
        std::mem::swap(&mut self.nodes, &mut nodes);
        nodes[at].frame.insert(name, val);
        assert(nodes_view(nodes@) =~= bind(before, at as int, name@, val));
        std::mem::swap(&mut self.nodes, &mut nodes);
    }

    /// The handle of the frame `distance` links above `at`, if the chain is that long.
    fn ancestor(&self, at: usize, distance: usize) -> (r: Option<usize>)
        ensures
            match r {
                Some(k) => ancestor(self@, at as int, distance as nat) == Some(k as int) && k
                    < self@.len(),
                None => ancestor(self@, at as int, distance as nat) is None,
            },
    {
        proof {
            use_type_invariant(self);
        }
        if at >= self.nodes.len() {
            return None;
        }
        let mut cur: usize = at;
        let mut left: usize = distance;
        while left > 0
            invariant
                cur < self@.len(),
                parents_first(self@),
                ancestor(self@, at as int, distance as nat) == ancestor(
                    self@,
                    cur as int,
                    left as nat,
                ),
            decreases left,
        {
            match self.nodes[cur].parent {
                Some(p) => {
                    assert(self@[cur as int].parent == Some(p));
                    cur = p;
                    left -= 1;
                },
                None => {
                    return None;
                },
            }
        }
        Some(cur)
    }

    /// The nearest frame at or above `at` that binds `name`.
    fn find(&self, at: usize, name: &String) -> (r: Option<usize>)
        ensures
            match r {
                Some(k) => resolve(self@, at as int, name@) == Some(k as int) && k < self@.len()
                    && self@[k as int].vars.contains_key(name@),
                None => resolve(self@, at as int, name@) is None,
            },
    {
        proof {
            use_type_invariant(self);
        }
        if at >= self.nodes.len() {
            return None;
        }
        let mut cur: usize = at;
        loop
            invariant
                cur < self@.len(),
                parents_first(self@),
                resolve(self@, at as int, name@) == resolve(self@, cur as int, name@),
            decreases cur,
        {
            if self.nodes[cur].frame.contains(name) {
                return Some(cur);
            }
            match self.nodes[cur].parent {
                Some(p) => {
                    assert(self@[cur as int].parent == Some(p));
                    cur = p;
                },
                None => {
                    return None;
                },
            }
        }
    }

    /// Rebinds `name` in the nearest frame at or above `at` that binds it.
    pub fn assign(&mut self, at: usize, name: &str, val: T) -> (r: Result<(), LoxErr>)
        ensures
            match resolve(old(self)@, at as int, name@) {
                Some(k) => r is Ok && final(self)@ == bind(old(self)@, k, name@, val),
                None => final(self)@ == old(self)@ && r is Err && r->Err_0@ == (
                LoxErrView::Undefined {
                    message: "attempted to assign to undefined var: "@ + name@,
                }),
            },
    {
        let key = name.to_owned();
        match self.find(at, &key) {
            Some(k) => {
                self.insert_at(k, key, val);
                Ok(())
            },
            None => Err(LoxErr::undefined("attempted to assign to undefined var: ", name)),
        }
    }

    /// Binds `name` in the frame `distance` links above `at`, whether or not it was bound there.
    pub fn assign_at(&mut self, at: usize, distance: usize, name: &str, val: T) -> (r: Result<
        (),
        LoxErr,
    >)
        ensures
            match ancestor(old(self)@, at as int, distance as nat) {
                Some(k) => r is Ok && final(self)@ == bind(old(self)@, k, name@, val),
                None => final(self)@ == old(self)@ && r is Err && r->Err_0@ == (
                LoxErrView::Internal { message: "expected an ancestor scope at this depth"@ }),
            },
    {
        match self.ancestor(at, distance) {
            Some(k) => {
                self.insert_at(k, name.to_owned(), val);
                Ok(())
            },
            None => Err(LoxErr::internal("expected an ancestor scope at this depth")),
        }
    }

    /// A copy of what the nearest frame at or above `at` binds to `name`.
    pub fn get(&self, at: usize, name: &str) -> (r: Result<T, LoxErr>)
        ensures
            match resolve(self@, at as int, name@) {
                Some(k) => r is Ok && cloned(self@[k].vars[name@], r->Ok_0),
                None => r is Err && r->Err_0@ == (LoxErrView::Undefined {
                    message: "variable undefined: "@ + name@,
                }),
            },
    {
        let key = name.to_owned();
        match self.find(at, &key) {
            Some(k) => self.read(k, &key, name),
            None => Err(LoxErr::undefined("variable undefined: ", name)),
        }
    }

    /// A copy of what frame `k` itself binds to `key`.
    fn read(&self, k: usize, key: &String, name: &str) -> (r: Result<T, LoxErr>)
        requires
            k < self@.len(),
            key@ == name@,
        ensures
            if self@[k as int].vars.contains_key(name@) {
                r is Ok && cloned(self@[k as int].vars[name@], r->Ok_0)
            } else {
                r is Err && r->Err_0@ == (LoxErrView::Undefined {
                    message: "variable undefined: "@ + name@,
                })
            },
    {
        match self.nodes[k].frame.get(key) {
            Some(v) => Ok(v.clone()),
            None => Err(LoxErr::undefined("variable undefined: ", name)),
        }
    }

    /// A copy of what the frame `distance` links above `at` itself binds to `name`.
    pub fn get_at(&self, at: usize, distance: usize, name: &str) -> (r: Result<T, LoxErr>)
        ensures
            match ancestor(self@, at as int, distance as nat) {
                Some(k) => if self@[k].vars.contains_key(name@) {
                    r is Ok && cloned(self@[k].vars[name@], r->Ok_0)
                } else {
                    r is Err && r->Err_0@ == (LoxErrView::Undefined {
                        message: "variable undefined: "@ + name@,
                    })
                },
                None => r is Err && r->Err_0@ == (LoxErrView::Internal {
                    message: "expected an ancestor scope at this depth"@,
                }),
            },
    {
        match self.ancestor(at, distance) {
            Some(k) => {
                let key = name.to_owned();
                self.read(k, &key, name)
            },
            None => Err(LoxErr::internal("expected an ancestor scope at this depth")),
        }
    }
}

} // verus!
