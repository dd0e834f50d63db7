//! Object heaps: allocation hands out a stable reference to an object, and
//! every object is released at once when the program ends.
use vstd::prelude::*;

use std::rc::Rc;

use crate::opcode::Obj;

verus! {

/// A heap whose references are indexes into its object list.
pub struct OffsetHeap {
    objects: Vec<Obj>,
}

impl View for OffsetHeap {
    type V = Seq<Obj>;

    closed spec fn view(&self) -> Seq<Obj> {
        self.objects@
    }
}

impl OffsetHeap {
    pub fn new() -> (r: Self)
        ensures
            r@ == Seq::<Obj>::empty(),
    {
        Self { objects: Vec::new() }
    }

    /// Stores `object`; returns its index.
    pub fn allocate(&mut self, object: Obj) -> (r: usize)
        ensures
            final(self)@ == old(self)@.push(object),
            r == old(self)@.len(),
    {
        let at = self.objects.len();
        self.objects.push(object);
        at
    }

    /// The object at `index`, if any.
    pub fn get(&self, index: usize) -> (r: Option<&Obj>)
        ensures
            r.is_some() == (index < self@.len()),
            r.is_some() ==> *r.unwrap() == self@[index as int],
    {
        if index < self.objects.len() {
            Some(&self.objects[index])
        } else {
            None
        }
    }

    /// Releases every object.
    pub fn free_all(&mut self)
        ensures
            final(self)@ == Seq::<Obj>::empty(),
    {
        self.objects.clear();
    }

    pub fn size(&self) -> (r: usize)
        ensures
            r == self@.len(),
    {
        self.objects.len()
    }
}

/// A heap of shared references: an allocated object lives while the heap
/// or a value holds it.
pub struct RcHeap {
    objects: Vec<Rc<Obj>>,
}

impl View for RcHeap {
    type V = Seq<Obj>;

    closed spec fn view(&self) -> Seq<Obj> {
        self.objects@.map_values(|o: Rc<Obj>| *o)
    }
}

impl RcHeap {
    pub fn new() -> (r: Self)
        ensures
            r@ == Seq::<Obj>::empty(),
    {
        let r = Self { objects: Vec::new() };
        assert(r@ =~= Seq::<Obj>::empty());
        r
    }

    /// Stores `object`; returns a shared reference to it.
    pub fn allocate(&mut self, object: Obj) -> (r: Rc<Obj>)
        ensures
            final(self)@ == old(self)@.push(object),
            *r == object,
    {
        let it = Rc::new(object);
        let kept = Rc::clone(&it);
        self.objects.push(kept);
        assert(self@ =~= old(self)@.push(object));
        it
    }

    /// Releases the heap's references.
    pub fn free_all(&mut self)
        ensures
            final(self)@ == Seq::<Obj>::empty(),
    {
        self.objects.clear();
        assert(self@ =~= Seq::<Obj>::empty());
    }

    pub fn size(&self) -> (r: usize)
        ensures
            r == self@.len(),
    {
        self.objects.len()
    }
}

} // verus!
