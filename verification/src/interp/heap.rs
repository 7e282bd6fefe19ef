//! What values point into: the scopes, the classes, the instances and the
//! interned strings.  Nothing is ever removed, so an index stays good once
//! it has been handed out.
use vstd::prelude::*;

use crate::bytecode::object::{interned, place_of, Object, StringPool, MAX_OBJECTS};
use crate::error::{LoxErr, LoxErrView};
use crate::frame::Frame;
use crate::interp::value::{Func, Function, Value};
use crate::scope::{ancestor, bind, NodeView, Scope};

verus! {

/// A class.
pub struct Class {
    pub name: String,
    /// The class that this one inherits from, by its index in the heap.
    pub superclass: Option<usize>,
    pub methods: Frame<Function>,
}

/// An instance of a class, with its fields.
pub struct Instance {
    pub class: usize,
    pub fields: Frame<Value>,
}

/// A [`Class`] as contracts see it.
pub struct ClassView {
    pub name: Seq<char>,
    pub superclass: Option<usize>,
    pub methods: Map<Seq<char>, Function>,
}

/// An [`Instance`] as contracts see it.
pub struct InstanceView {
    pub class: usize,
    pub fields: Map<Seq<char>, Value>,
}

/// The heap.
pub struct Heap {
    scopes: Scope<Value>,
    classes: Vec<Class>,
    instances: Vec<Instance>,
    texts: StringPool,
}

/// A [`Heap`] as contracts see it.
pub struct HeapView {
    pub scopes: Seq<NodeView<Value>>,
    pub classes: Seq<ClassView>,
    pub instances: Seq<InstanceView>,
    pub texts: Seq<Seq<char>>,
}

spec fn classes_view(classes: Seq<Class>) -> Seq<ClassView> {
    Seq::new(
        classes.len(),
        |i: int|
            ClassView {
                name: classes[i].name@,
                superclass: classes[i].superclass,
                methods: classes[i].methods@,
            },
    )
}

spec fn instances_view(instances: Seq<Instance>) -> Seq<InstanceView> {
    Seq::new(
        instances.len(),
        |i: int| InstanceView { class: instances[i].class, fields: instances[i].fields@ },
    )
}

impl View for Heap {
    type V = HeapView;

    closed spec fn view(&self) -> HeapView {
        HeapView {
            scopes: self.scopes@,
            classes: classes_view(self.classes@),
            instances: instances_view(self.instances@),
            texts: self.texts@,
        }
    }
}

/// The method `name` of class `class`: its own, or else that of the nearest
/// class above it that has one.
pub open spec fn method_of(classes: Seq<ClassView>, class: int, name: Seq<char>) -> Option<
    Function,
>
    decreases class,
{
    if !(0 <= class < classes.len()) {
        None
    } else if classes[class].methods.contains_key(name) {
        Some(classes[class].methods[name])
    } else {
        match classes[class].superclass {
            Some(above) => if above < class {
                method_of(classes, above as int, name)
            } else {
                None
            },
            None => None,
        }
    }
}

/// The error of an index that names nothing in the heap.
pub open spec fn dangling() -> LoxErrView {
    LoxErrView::Internal { message: "dangling reference"@ }
}

/// The error of a heap that has no room left.
pub open spec fn exhausted() -> LoxErrView {
    LoxErrView::Internal { message: "out of memory"@ }
}

/// `h` with one more scope, below `parent`.
pub open spec fn with_scope(h: HeapView, parent: usize) -> HeapView {
    HeapView {
        scopes: h.scopes.push(NodeView { vars: Map::empty(), parent: Some(parent) }),
        ..h
    }
}

/// `h` without the scopes from `len` on, if that leaves the global scope.
pub open spec fn released(h: HeapView, len: int) -> HeapView {
    HeapView { scopes: crate::scope::cut(h.scopes, len), ..h }
}

/// `h` with `name` bound to `value` in scope `at`.
pub open spec fn with_binding(h: HeapView, at: int, name: Seq<char>, value: Value) -> HeapView {
    HeapView { scopes: bind(h.scopes, at, name, value), ..h }
}

/// `h` with `text` interned.
pub open spec fn with_text(h: HeapView, text: Seq<char>) -> HeapView {
    HeapView { texts: interned(h.texts, text), ..h }
}

/// The scope in which `f` runs as a method of `instance`: a scope below that of `f`
/// which binds `this`.
pub open spec fn bound(h: HeapView, f: Function, instance: usize) -> HeapView {
    with_binding(
        with_scope(h, f.scope),
        h.scopes.len() as int,
        "this"@,
        Value::Instance(instance),
    )
}

/// A heap and the value or error that came out of a change to it.
pub struct Change<T> {
    pub heap: HeapView,
    pub r: Result<T, LoxErrView>,
}

/// `f` bound to `instance`: the same function in the scope that binds `this`.
#[verifier::opaque]
pub open spec fn h_bind(h: HeapView, f: Function, instance: usize) -> Change<Function> {
    if f.scope >= h.scopes.len() {
        Change { heap: h, r: Err(dangling()) }
    } else {
        Change {
            heap: bound(h, f, instance),
            r: Ok(Function { scope: h.scopes.len() as usize, ..f }),
        }
    }
}

/// The property `name` of `instance`: the field of that name, or else the
/// method of that name, bound to the instance.
#[verifier::opaque]
pub open spec fn h_get(h: HeapView, instance: usize, name: Seq<char>) -> Change<Value> {
    if instance >= h.instances.len() {
        Change { heap: h, r: Err(dangling()) }
    } else if h.instances[instance as int].fields.contains_key(name) {
        Change { heap: h, r: Ok(h.instances[instance as int].fields[name]) }
    } else {
        match method_of(h.classes, h.instances[instance as int].class as int, name) {
            Some(f) => {
                let b = h_bind(h, f, instance);
                Change {
                    heap: b.heap,
                    r: match b.r {
                        Ok(f) => Ok(Value::Func(Func::Lox(f))),
                        Err(e) => Err(e),
                    },
                }
            },
            None => Change {
                heap: h,
                r: Err(LoxErrView::Undefined { message: "undefined property: "@ + name }),
            },
        }
    }
}

/// The field `name` of `instance` becomes `value`.
#[verifier::opaque]
pub open spec fn h_set(h: HeapView, instance: usize, name: Seq<char>, value: Value) -> Change<()> {
    if instance >= h.instances.len() {
        Change { heap: h, r: Err(dangling()) }
    } else {
        Change {
            heap: HeapView {
                instances: h.instances.update(
                    instance as int,
                    InstanceView {
                        class: h.instances[instance as int].class,
                        fields: h.instances[instance as int].fields.insert(name, value),
                    },
                ),
                ..h
            },
            r: Ok(()),
        }
    }
}

/// The string value of `text`.
#[verifier::opaque]
pub open spec fn h_intern(h: HeapView, text: Seq<char>) -> Change<Value> {
    if place_of(h.texts, text) == h.texts.len() && h.texts.len() >= MAX_OBJECTS {
        Change { heap: h, r: Err(exhausted()) }
    } else {
        Change { heap: with_text(h, text), r: Ok(Value::String(place_of(h.texts, text) as u64)) }
    }
}

/// The text of the string `handle`; empty if there is no such string.
pub open spec fn text_of(h: HeapView, handle: u64) -> Seq<char> {
    if handle < h.texts.len() {
        h.texts[handle as int]
    } else {
        Seq::empty()
    }
}

/// A scope below `parent`.
#[verifier::opaque]
pub open spec fn h_scope(h: HeapView, parent: usize) -> Change<usize> {
    if parent >= h.scopes.len() {
        Change { heap: h, r: Err(dangling()) }
    } else {
        Change { heap: with_scope(h, parent), r: Ok(h.scopes.len() as usize) }
    }
}

/// `name` is bound to `value` in scope `at`.
#[verifier::opaque]
pub open spec fn h_define(h: HeapView, at: usize, name: Seq<char>, value: Value) -> Change<()> {
    if at >= h.scopes.len() {
        Change { heap: h, r: Err(dangling()) }
    } else {
        Change { heap: with_binding(h, at as int, name, value), r: Ok(()) }
    }
}

/// Whether the result `r`, with the heap left as `after`, is the change `c`.
pub open spec fn changes<T>(r: Result<T, LoxErr>, after: HeapView, c: Change<T>) -> bool {
    after == c.heap && match c.r {
        Ok(v) => r is Ok && r->Ok_0 == v,
        Err(e) => r is Err && r->Err_0@ == e,
    }
}

impl Heap {
    /// A heap with one scope, the global one, and nothing else.
    pub fn new() -> (h: Heap)
        ensures
            h@ == (HeapView {
                scopes: seq![NodeView { vars: Map::empty(), parent: None }],
                classes: Seq::empty(),
                instances: Seq::empty(),
                texts: Seq::empty(),
            }),
    {
        let h = Heap {
            scopes: Scope::new(),
            classes: Vec::new(),
            instances: Vec::new(),
            texts: StringPool::new(),
        };
        assert(h@.classes =~= Seq::empty());
        assert(h@.instances =~= Seq::empty());
        h
    }

    /// The number of scopes.
    pub fn scopes_len(&self) -> (n: usize)
        ensures
            n == self@.scopes.len(),
    {
        self.scopes.len()
    }

    /// The scopes.
    pub fn scopes(&self) -> (s: &Scope<Value>)
        ensures
            s@ == self@.scopes,
    {
        &self.scopes
    }

    /// Adds a scope below `parent`.
    pub fn open_scope(&mut self, parent: usize) -> (r: Result<usize, LoxErr>)
        ensures
            changes(r, final(self)@, h_scope(old(self)@, parent)),
    {
        proof {
            reveal(h_scope);
        }
        if parent >= self.scopes.len() {
            return Err(LoxErr::internal("dangling reference"));
        }
        Ok(self.scopes.from_parent(parent))
    }

    /// Forgets the scopes from `len` on.  Nothing may point to them any more.
    pub fn release(&mut self, len: usize)
        ensures
            final(self)@ == released(old(self)@, len as int),
    {
        self.scopes.truncate(len);
    }

    /// Binds `name` to `value` in scope `at`.
    pub fn define(&mut self, at: usize, name: &str, value: Value) -> (r: Result<(), LoxErr>)
        ensures
            changes(r, final(self)@, h_define(old(self)@, at, name@, value)),
    {
        proof {
            reveal(h_define);
        }
        if at >= self.scopes.len() {
            return Err(LoxErr::internal("dangling reference"));
        }
        self.scopes.define(at, name, value);
        Ok(())
    }

    /// Rebinds `name` in the scope `distance` links above `at`.
    pub fn assign_at(&mut self, at: usize, distance: usize, name: &str, value: Value) -> (r: Result<
        (),
        LoxErr,
    >)
        ensures
            final(self)@.classes == old(self)@.classes,
            final(self)@.instances == old(self)@.instances,
            final(self)@.texts == old(self)@.texts,
            match ancestor(old(self)@.scopes, at as int, distance as nat) {
                Some(k) => r is Ok && final(self)@.scopes == bind(
                    old(self)@.scopes,
                    k,
                    name@,
                    value,
                ),
                None => final(self)@ == old(self)@ && r is Err && r->Err_0@ == (
                LoxErrView::Internal { message: "expected an ancestor scope at this depth"@ }),
            },
    {
        self.scopes.assign_at(at, distance, name, value)
    }

    /// The string value of `text`.
    pub fn intern(&mut self, text: &str) -> (r: Result<Value, LoxErr>)
        ensures
            changes(r, final(self)@, h_intern(old(self)@, text@)),
    {
        proof {
            reveal(h_intern);
        }
        match self.texts.intern_string(text) {
            Ok(o) => Ok(Value::String(o.handle)),
            Err(_) => Err(LoxErr::internal("out of memory")),
        }
    }

    /// The text of the string `handle`.
    pub fn text(&self, handle: u64) -> (s: &str)
        ensures
            s@ == text_of(self@, handle),
    {
        match self.texts.text(Object { handle }) {
            Some(s) => s,
            None => {
                proof {
                    reveal_strlit("");
                    assert(""@ =~= Seq::<char>::empty());
                }
                ""
            },
        }
    }

    /// The method `name` of class `class`, looked for up the chain of superclasses.
    pub fn find_method(&self, class: usize, name: &String) -> (r: Option<Function>)
        ensures
            r == method_of(self@.classes, class as int, name@),
    {
        if class >= self.classes.len() {
            return None;
        }
        let mut at: usize = class;
        loop
            invariant
                at < self.classes.len(),
                method_of(self@.classes, at as int, name@) == method_of(
                    self@.classes,
                    class as int,
                    name@,
                ),
            decreases at,
        {
            match self.classes[at].methods.get(name) {
                Some(f) => {
                    return Some(*f);
                },
                None => {},
            }
            match self.classes[at].superclass {
                Some(above) => {
                    if above < at {
                        at = above;
                    } else {
                        return None;
                    }
                },
                None => {
                    return None;
                },
            }
        }
    }

    /// The function `f` as a method of `instance`.
    pub fn bind(&mut self, f: Function, instance: usize) -> (r: Result<Function, LoxErr>)
        ensures
            changes(r, final(self)@, h_bind(old(self)@, f, instance)),
    {
        proof {
            reveal(h_bind);
        }
        if f.scope >= self.scopes.len() {
            return Err(LoxErr::internal("dangling reference"));
        }
        let scope = self.scopes.from_parent(f.scope);
        self.scopes.define(scope, "this", Value::Instance(instance));
        Ok(Function { scope, ..f })
    }

    /// Adds an instance of `class` without fields.
    pub fn new_instance(&mut self, class: usize) -> (id: usize)
        ensures
            id == old(self)@.instances.len(),
            final(self)@ == (HeapView {
                instances: old(self)@.instances.push(
                    InstanceView { class, fields: Map::empty() },
                ),
                ..old(self)@
            }),
    {
        let id = self.instances.len();
        self.instances.push(Instance { class, fields: Frame::new() });
        assert(self@.instances =~= old(self)@.instances.push(
            InstanceView { class, fields: Map::empty() },
        ));
        id
    }

    /// The class of `instance`.
    pub fn class_of(&self, instance: usize) -> (r: Option<usize>)
        ensures
            r == if instance < self@.instances.len() {
                Some(self@.instances[instance as int].class)
            } else {
                None
            },
    {
        if instance < self.instances.len() {
            Some(self.instances[instance].class)
        } else {
            None
        }
    }

    /// The name of `class`; empty if there is no such class.
    pub fn class_name(&self, class: usize) -> (s: &str)
        ensures
            s@ == if class < self@.classes.len() {
                self@.classes[class as int].name
            } else {
                Seq::empty()
            },
    {
        if class < self.classes.len() {
            self.classes[class].name.as_str()
        } else {
            proof {
                reveal_strlit("");
                assert(""@ =~= Seq::<char>::empty());
            }
            ""
        }
    }

    /// Adds a class.
    pub fn new_class(&mut self, name: &str, superclass: Option<usize>, methods: Frame<Function>)
        -> (id: usize)
        ensures
            id == old(self)@.classes.len(),
            final(self)@ == (HeapView {
                classes: old(self)@.classes.push(
                    ClassView { name: name@, superclass, methods: methods@ },
                ),
                ..old(self)@
            }),
    {
        let id = self.classes.len();
        self.classes.push(Class { name: name.to_owned(), superclass, methods });
        assert(self@.classes =~= old(self)@.classes.push(
            ClassView { name: name@, superclass, methods: methods@ },
        ));
        id
    }

    /// The property `name` of `instance`.
    pub fn get_property(&mut self, instance: usize, name: &str) -> (r: Result<Value, LoxErr>)
        ensures
            changes(r, final(self)@, h_get(old(self)@, instance, name@)),
    {
        proof {
            reveal(h_get);
        }
        if instance >= self.instances.len() {
            return Err(LoxErr::internal("dangling reference"));
        }
        let key = name.to_owned();
        match self.instances[instance].fields.get(&key) {
            Some(v) => {
                return Ok(*v);
            },
            None => {},
        }
        let class = self.instances[instance].class;
        match self.find_method(class, &key) {
            Some(f) => match self.bind(f, instance) {
                Ok(f) => Ok(Value::Func(Func::Lox(f))),
                Err(e) => Err(e),
            },
            None => Err(LoxErr::undefined("undefined property: ", name)),
        }
    }

    /// Sets the field `name` of `instance`.
    pub fn set_field(&mut self, instance: usize, name: &str, value: Value) -> (r: Result<
        (),
        LoxErr,
    >)
        ensures
            changes(r, final(self)@, h_set(old(self)@, instance, name@, value)),
    {
        proof {
            reveal(h_set);
        }
        if instance >= self.instances.len() {
            return Err(LoxErr::internal("dangling reference"));
        }
        self.instances[instance].fields.insert(name.to_owned(), value);
        assert(self@.instances =~= old(self)@.instances.update(
            instance as int,
            InstanceView {
                class: old(self)@.instances[instance as int].class,
                fields: old(self)@.instances[instance as int].fields.insert(name@, value),
            },
        ));
        Ok(())
    }
}

} // verus!
