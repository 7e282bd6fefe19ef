//! One frame of a lexical environment: names bound to values, each name
//! once, in the order in which the names were first bound.
use vstd::prelude::*;

verus! {

/// A name and the value bound to it.
pub struct Binding<T> {
    pub name: String,
    pub value: T,
}

/// The bindings of one scope.  No name is bound twice.
pub struct Frame<T> {
    bindings: Vec<Binding<T>>,
}

/// Whether some entry of `entries` carries `name`.
pub open spec fn binds<T>(entries: Seq<(Seq<char>, T)>, name: Seq<char>) -> bool {
    exists|i: int| 0 <= i < entries.len() && (#[trigger] entries[i]).0 == name
}

/// The position of an entry for `name` in `entries`.
pub open spec fn index_of<T>(entries: Seq<(Seq<char>, T)>, name: Seq<char>) -> int {
    choose|i: int| 0 <= i < entries.len() && (#[trigger] entries[i]).0 == name
}

/// Whether all names in `entries` differ.
pub open spec fn distinct<T>(entries: Seq<(Seq<char>, T)>) -> bool {
    forall|i: int, j: int|
        0 <= i < j < entries.len() ==> (#[trigger] entries[i]).0 != (#[trigger] entries[j]).0
}

/// The value that `entries` bind to `name`, if they bind it.
pub open spec fn value_of<T>(entries: Seq<(Seq<char>, T)>, name: Seq<char>) -> Option<T> {
    if binds(entries, name) {
        Some(entries[index_of(entries, name)].1)
    } else {
        None
    }
}

/// `entries` with `name` bound to `value`: in place if `name` was bound, at the end if not.
pub open spec fn put<T>(entries: Seq<(Seq<char>, T)>, name: Seq<char>, value: T) -> Seq<
    (Seq<char>, T),
> {
    if binds(entries, name) {
        entries.update(index_of(entries, name), (name, value))
    } else {
        entries.push((name, value))
    }
}

/// The map that `entries` stand for.
pub open spec fn as_map<T>(entries: Seq<(Seq<char>, T)>) -> Map<Seq<char>, T> {
    Map::new(|k: Seq<char>| binds(entries, k), |k: Seq<char>| entries[index_of(entries, k)].1)
}

/// With distinct names, the entry at `i` is the one that its name finds.
pub proof fn lemma_index_of<T>(entries: Seq<(Seq<char>, T)>, i: int)
    requires
        distinct(entries),
        0 <= i < entries.len(),
    ensures
        binds(entries, entries[i].0),
        index_of(entries, entries[i].0) == i,
        value_of(entries, entries[i].0) == Some(entries[i].1),
        as_map(entries)[entries[i].0] == entries[i].1,
{
    let j = index_of(entries, entries[i].0);
    assert(0 <= j < entries.len() && entries[j].0 == entries[i].0);
    if j < i {
        assert(entries[j].0 != entries[i].0);
    } else if i < j {
        assert(entries[i].0 != entries[j].0);
    }
}

/// Binding a name keeps the names distinct and is an insertion into the map;
/// the other names keep their values.
pub proof fn lemma_put<T>(entries: Seq<(Seq<char>, T)>, name: Seq<char>, value: T)
    requires
        distinct(entries),
    ensures
        distinct(put(entries, name, value)),
        as_map(put(entries, name, value)) == as_map(entries).insert(name, value),
        value_of(put(entries, name, value), name) == Some(value),
        forall|k: Seq<char>|
            k != name ==> #[trigger] value_of(put(entries, name, value), k) == value_of(
                entries,
                k,
            ),
{
    let next = put(entries, name, value);
    if binds(entries, name) {
        let i = index_of(entries, name);
        assert forall|x: int, y: int| 0 <= x < y < next.len() implies (#[trigger] next[x]).0 != (
        #[trigger] next[y]).0 by {
            assert(entries[x].0 != entries[y].0);
        }
        assert forall|k: Seq<char>| binds(next, k) <==> binds(entries, k) by {
            if binds(next, k) {
                let j = index_of(next, k);
                assert(entries[j].0 == k);
            }
            if binds(entries, k) {
                let j = index_of(entries, k);
                assert(next[j].0 == k);
            }
        }
        lemma_index_of(entries, i);
        assert forall|k: Seq<char>| binds(next, k) implies #[trigger] as_map(next)[k] == as_map(
            entries,
        ).insert(name, value)[k] && value_of(next, k) == if k == name {
            Some(value)
        } else {
            value_of(entries, k)
        } by {
            let j = index_of(next, k);
            lemma_index_of(next, j);
            lemma_index_of(entries, j);
        }
        assert(next[i].0 == name);
    } else {
        assert forall|x: int, y: int| 0 <= x < y < next.len() implies (#[trigger] next[x]).0 != (
        #[trigger] next[y]).0 by {
            if y == entries.len() {
                assert(entries[x].0 != name);
            } else {
                assert(entries[x].0 != entries[y].0);
            }
        }
        assert forall|k: Seq<char>| binds(next, k) <==> (k == name || binds(entries, k)) by {
            if binds(next, k) {
                let i = index_of(next, k);
                if i < entries.len() {
                    assert(entries[i].0 == k);
                }
            }
            if k == name {
                assert(next[entries.len() as int].0 == k);
            }
            if binds(entries, k) {
                let i = index_of(entries, k);
                assert(next[i].0 == k);
            }
        }
        assert forall|k: Seq<char>| binds(next, k) implies #[trigger] as_map(next)[k] == as_map(
            entries,
        ).insert(name, value)[k] && value_of(next, k) == if k == name {
            Some(value)
        } else {
            value_of(entries, k)
        } by {
            let i = index_of(next, k);
            lemma_index_of(next, i);
            if i < entries.len() {
                lemma_index_of(entries, i);
            }
        }
        assert(next[entries.len() as int].0 == name);
    }
    assert(as_map(next) =~= as_map(entries).insert(name, value));
    assert forall|k: Seq<char>| k != name implies #[trigger] value_of(next, k) == value_of(
        entries,
        k,
    ) by {
        if binds(next, k) {
        } else {
        }
    }
}

/// With distinct names, there are as many names in the map as entries.
pub proof fn lemma_as_map_len<T>(entries: Seq<(Seq<char>, T)>)
    requires
        distinct(entries),
    ensures
        as_map(entries).dom().finite(),
        as_map(entries).len() == entries.len(),
    decreases entries.len(),
{
    if entries.len() == 0 {
        assert(as_map(entries) =~= Map::<Seq<char>, T>::empty());
    } else {
        let front = entries.drop_last();
        let b = entries.last();
        assert(distinct(front)) by {
            assert forall|i: int, j: int| 0 <= i < j < front.len() implies (#[trigger] front[i]).0
                != (#[trigger] front[j]).0 by {
                assert(entries[i].0 != entries[j].0);
            }
        }
        assert(!binds(front, b.0)) by {
            if binds(front, b.0) {
                let i = index_of(front, b.0);
                assert(entries[i].0 != entries[entries.len() - 1].0);
            }
        }
        lemma_as_map_len(front);
        lemma_put(front, b.0, b.1);
        assert(front.push(b) =~= entries);
    }
}

spec fn entries_of<T>(bindings: Seq<Binding<T>>) -> Seq<(Seq<char>, T)> {
    Seq::new(bindings.len(), |i: int| (bindings[i].name@, bindings[i].value))
}

impl<T> View for Frame<T> {
    type V = Map<Seq<char>, T>;

    closed spec fn view(&self) -> Map<Seq<char>, T> {
        as_map(entries_of(self.bindings@))
    }
}

impl<T> Frame<T> {
    #[verifier::type_invariant]
    spec fn wf(&self) -> bool {
        distinct(entries_of(self.bindings@))
    }

    /// The bindings in the order in which their names were first bound.
    pub closed spec fn entries(&self) -> Seq<(Seq<char>, T)> {
        entries_of(self.bindings@)
    }

    /// A frame that binds nothing.
    pub fn new() -> (f: Frame<T>)
        ensures
            f@ == Map::<Seq<char>, T>::empty(),
            f.entries() == Seq::<(Seq<char>, T)>::empty(),
    {
        let f = Frame { bindings: Vec::new() };
        assert(f@ =~= Map::<Seq<char>, T>::empty());
        assert(f.entries() =~= Seq::<(Seq<char>, T)>::empty());
        f
    }

    /// The position at which `name` is bound, if it is.
    fn position(&self, name: &String) -> (r: Option<usize>)
        ensures
            distinct(self.entries()),
            self@ == as_map(self.entries()),
            match r {
                Some(i) => i < self.entries().len() && self.entries()[i as int].0 == name@
                    && index_of(self.entries(), name@) == i && binds(self.entries(), name@),
                None => !binds(self.entries(), name@),
            },
    {
        proof {
            use_type_invariant(self);
        }
        let mut i: usize = 0;
        while i < self.bindings.len()
            invariant
                i <= self.bindings.len(),
                distinct(self.entries()),
                forall|j: int| 0 <= j < i ==> (#[trigger] self.entries()[j]).0 != name@,
            decreases self.bindings.len() - i,
        {
            if self.bindings[i].name == *name {
                proof {
                    lemma_index_of(self.entries(), i as int);
                }
                return Some(i);
            }
            i += 1;
        }
        None
    }

    /// Whether `name` is bound here.
    pub fn contains(&self, name: &String) -> (r: bool)
        ensures
            r == self@.contains_key(name@),
            r == binds(self.entries(), name@),
    {
        self.position(name).is_some()
    }

    /// The value bound to `name`, where there is one.
    pub fn get(&self, name: &String) -> (r: Option<&T>)
        ensures
            match r {
                Some(v) => self@.contains_key(name@) && *v == self@[name@],
                None => !self@.contains_key(name@),
            },
            match r {
                Some(v) => value_of(self.entries(), name@) == Some(*v),
                None => value_of(self.entries(), name@) is None,
            },
    {
        match self.position(name) {
            Some(i) => Some(&self.bindings[i].value),
            None => None,
        }
    }

    /// Binds `name` to `value`, replacing what was bound to it before.
    pub fn insert(&mut self, name: String, value: T)
        ensures
            final(self)@ == old(self)@.insert(name@, value),
            final(self).entries() == put(old(self).entries(), name@, value),
    {
        let found = self.position(&name);
        let ghost before = self.entries();
        proof {
            lemma_put(before, name@, value);
        }
        let mut bindings: Vec<Binding<T>> = Vec::new();
        std::mem::swap(&mut self.bindings, &mut bindings);
        assert(entries_of(self.bindings@) =~= Seq::empty());
        match found {
            Some(i) => {
                bindings.set(i, Binding { name, value });
                assert(entries_of(bindings@) =~= put(before, name@, value));
            },
            None => {
                bindings.push(Binding { name, value });
                assert(entries_of(bindings@) =~= put(before, name@, value));
            },
        }
        std::mem::swap(&mut self.bindings, &mut bindings);
    }

    /// How many names are bound here.  The names differ, and the map of the
    /// frame is the map of its entries.
    pub fn len(&self) -> (n: usize)
        ensures
            n == self@.len(),
            n == self.entries().len(),
            self@.dom().finite(),
            distinct(self.entries()),
            self@ == as_map(self.entries()),
    {
        proof {
            use_type_invariant(self);
            lemma_as_map_len(self.entries());
        }
        self.bindings.len()
    }

    /// The name of the `i`-th binding.
    pub fn name_at(&self, i: usize) -> (name: &String)
        requires
            i < self.entries().len(),
        ensures
            name@ == self.entries()[i as int].0,
    {
        &self.bindings[i].name
    }

    /// The value of the `i`-th binding.
    pub fn value_at(&self, i: usize) -> (value: &T)
        requires
            i < self.entries().len(),
        ensures
            *value == self.entries()[i as int].1,
    {
        &self.bindings[i].value
    }
}

} // verus!
