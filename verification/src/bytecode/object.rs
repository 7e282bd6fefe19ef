//! Heap objects of the bytecode machine.  The only objects are strings, and
//! every string is interned: a text has one object, so that two string values
//! are equal exactly if they name the same object.
use vstd::prelude::*;

use crate::error::{LoxError, LoxErrorView, OverflowError};

verus! {

/// The kinds of object.
#[derive(Clone, Copy, Debug, PartialEq, Eq, Structural)]
pub enum ObjType {
    String,
}

/// What every object starts with: its kind.
#[derive(Clone, Copy, Debug, PartialEq, Eq, Structural)]
pub struct ObjCommon {
    pub type_: ObjType,
}

/// A string object.
#[derive(Debug)]
pub struct ObjString {
    pub common: ObjCommon,
    pub value: String,
}

impl ObjString {
    /// The string object of `value`.
    pub fn new(value: String) -> (o: ObjString)
        ensures
            o.common.type_ == ObjType::String,
            o.value == value,
    {
        ObjString { common: ObjCommon { type_: ObjType::String }, value }
    }
}

/// The handle of an object: its place in the pool.
#[derive(Clone, Copy, Debug, PartialEq, Eq, Structural)]
pub struct Object {
    pub handle: u64,
}

/// The largest number of objects: a handle has to fit the 50 bits that a
/// boxed value leaves for it.
pub const MAX_OBJECTS: usize = 0x1000_0000;


/// The interned strings.
pub struct StringPool {
    strings: Vec<ObjString>,
}

/// Whether no two of `texts` are equal.
pub open spec fn all_differ(texts: Seq<Seq<char>>) -> bool {
    forall|i: int, j: int| 0 <= i < j < texts.len() ==> texts[i] != texts[j]
}

/// The first place of `text` in `texts`, or `texts.len()` if it is not there.
pub open spec fn place_of(texts: Seq<Seq<char>>, text: Seq<char>) -> int
    decreases texts.len(),
{
    if texts.len() == 0 {
        0
    } else if texts[0] == text {
        0
    } else {
        1 + place_of(texts.drop_first(), text)
    }
}

/// The pool after interning `text`.
pub open spec fn interned(texts: Seq<Seq<char>>, text: Seq<char>) -> Seq<Seq<char>> {
    if place_of(texts, text) < texts.len() {
        texts
    } else {
        texts.push(text)
    }
}

proof fn lemma_place_of(texts: Seq<Seq<char>>, text: Seq<char>, upto: int)
    requires
        0 <= upto <= texts.len(),
        forall|j: int| 0 <= j < upto ==> texts[j] != text,
        upto < texts.len() ==> texts[upto] == text,
    ensures
        place_of(texts, text) == upto,
    decreases upto,
{
    if upto > 0 {
        let rest = texts.drop_first();
        assert forall|j: int| 0 <= j < upto - 1 implies rest[j] != text by {
            assert(rest[j] == texts[j + 1]);
        }
        lemma_place_of(rest, text, upto - 1);
    }
}

spec fn pool_view(strings: Seq<ObjString>) -> Seq<Seq<char>> {
    Seq::new(strings.len(), |i: int| strings[i].value@)
}

impl View for StringPool {
    type V = Seq<Seq<char>>;

    closed spec fn view(&self) -> Seq<Seq<char>> {
        pool_view(self.strings@)
    }
}

impl StringPool {
    #[verifier::type_invariant]
    spec fn wf(&self) -> bool {
        &&& all_differ(self@)
        &&& self@.len() <= MAX_OBJECTS
    }

    /// A pool without strings.
    pub fn new() -> (p: StringPool)
        ensures
            p@ == Seq::<Seq<char>>::empty(),
    {
        let p = StringPool { strings: Vec::new() };
        assert(p@ =~= Seq::<Seq<char>>::empty());
        p
    }

    /// A pool with the same strings.
    pub fn copy(&self) -> (p: StringPool)
        ensures
            p@ == self@,
    {
        proof {
            use_type_invariant(self);
        }
        let mut strings: Vec<ObjString> = Vec::new();
        let mut i: usize = 0;
        while i < self.strings.len()
            invariant
                i <= self.strings.len(),
                pool_view(strings@) == self@.take(i as int),
            decreases self.strings.len() - i,
        {
            let ghost before = pool_view(strings@);
            let text = self.strings[i].value.clone();
            assert(text@ == self@[i as int]);
            strings.push(ObjString::new(text));
            assert(pool_view(strings@) =~= before.push(self@[i as int]));
            assert(self@.take(i + 1) =~= self@.take(i as int).push(self@[i as int]));
            i += 1;
        }
        assert(self@.take(self@.len() as int) =~= self@);
        StringPool { strings }
    }

    /// How many strings are interned.  No text is interned twice.
    pub fn len(&self) -> (n: usize)
        ensures
            n == self@.len(),
            n <= MAX_OBJECTS,
            all_differ(self@),
    {
        proof {
            use_type_invariant(self);
        }
        self.strings.len()
    }

    /// The kind of the object `o`.
    pub fn type_(&self, o: Object) -> (t: ObjType)
        ensures
            t == ObjType::String,
    {
        if o.handle < self.strings.len() as u64 {
            self.strings[o.handle as usize].common.type_
        } else {
            ObjType::String
        }
    }

    /// The text of the object `o`.
    pub fn text(&self, o: Object) -> (r: Option<&str>)
        ensures
            match r {
                Some(s) => o.handle < self@.len() && s@ == self@[o.handle as int],
                None => o.handle >= self@.len(),
            },
    {
        if o.handle < self.strings.len() as u64 {
            Some(self.strings[o.handle as usize].value.as_str())
        } else {
            None
        }
    }

    /// The object of `text`: the one that the pool already has for it, or a
    /// new one.  Objects already handed out keep their texts.  Fails if the
    /// pool is full and `text` is new.
    pub fn intern_string(&mut self, text: &str) -> (r: Result<Object, LoxError>)
        ensures
            final(self)@.len() <= MAX_OBJECTS,
            match r {
                Ok(o) => final(self)@ == interned(old(self)@, text@) && o.handle == place_of(
                    old(self)@,
                    text@,
                ) && o.handle < final(self)@.len() && final(self)@[o.handle as int] == text@,
                Err(e) => final(self)@ == old(self)@ && place_of(old(self)@, text@) == old(self)@.len() && old(self)@.len() == MAX_OBJECTS && e@ == LoxErrorView::OverflowError(
                    OverflowError::ExceedsPoolSize(MAX_OBJECTS),
                ),
            },
    {
        proof {
            use_type_invariant(&*self);
        }
        let key = text.to_owned();
        let mut i: usize = 0;
        while i < self.strings.len()
            invariant
                i <= self.strings.len(),
                key@ == text@,
                self@ == old(self)@,
                self@.len() <= MAX_OBJECTS,
                forall|j: int| 0 <= j < i ==> self@[j] != text@,
            decreases self.strings.len() - i,
        {
            if self.strings[i].value == key {
                proof {
                    lemma_place_of(self@, text@, i as int);
                }
                return Ok(Object { handle: i as u64 });
            }
            i += 1;
        }
        proof {
            lemma_place_of(self@, text@, i as int);
        }
        if i >= MAX_OBJECTS {
            return Err(LoxError::OverflowError(OverflowError::ExceedsPoolSize(MAX_OBJECTS)));
        }
        let ghost before = self@;
        let mut strings: Vec<ObjString> = Vec::new();
        std::mem::swap(&mut self.strings, &mut strings);
        strings.push(ObjString::new(key));
        assert(pool_view(strings@) =~= before.push(text@));
        assert(all_differ(pool_view(strings@)));
        std::mem::swap(&mut self.strings, &mut strings);
        Ok(Object { handle: i as u64 })
    }
}

} // verus!
