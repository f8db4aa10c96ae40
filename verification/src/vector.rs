//! A growable sequence backed by `Vec`, with the operations the runtime
//! needs.
use vstd::prelude::*;

verus! {

/// A growable sequence of `T`.
#[derive(Debug, Clone)]
pub struct StdVector<T>(Vec<T>);

impl<T> View for StdVector<T> {
    type V = Seq<T>;

    closed spec fn view(&self) -> Seq<T> {
        self.0@
    }
}

impl<T> StdVector<T> {
    /// The sequence holding the elements of `v`.
    pub fn new(v: Vec<T>) -> (r: Self)
        ensures
            r@ == v@,
    {
        StdVector(v)
    }

    /// The elements as a `Vec`.
    pub fn into_vec(self) -> (v: Vec<T>)
        ensures
            v@ == self@,
    {
        self.0
    }

    /// The number of elements.
    pub fn len(&self) -> (n: usize)
        ensures
            n == self@.len(),
    {
        self.0.len()
    }

    /// The elements as a slice.
    pub fn as_slice(&self) -> (s: &[T])
        ensures
            s@ == self@,
    {
        self.0.as_slice()
    }
}

/// A growable sequence, seen as the sequence of its elements.
pub trait Vector<T>: View<V = Seq<T>> {
    /// Appends an element.
    fn push(&mut self, item: T)
        ensures
            final(self)@ == old(self)@.push(item),
    ;

    /// Removes the last element, if any.
    fn pop(&mut self) -> (r: Option<T>)
        ensures
            old(self)@.len() > 0 ==> r == Some(old(self)@.last()) && final(self)@ == old(
                self,
            )@.drop_last(),
            old(self)@.len() == 0 ==> r is None && final(self)@ == old(self)@,
    ;

    /// Keeps the first `len` elements (all of them if there are fewer).
    fn truncate(&mut self, len: usize)
        ensures
            len <= old(self)@.len() ==> final(self)@ == old(self)@.subrange(0, len as int),
            len > old(self)@.len() ==> final(self)@ == old(self)@,
    ;

    /// Removes the elements from `start` up to `end`.
    fn remove_range(&mut self, start: usize, end: usize)
        requires
            start <= end <= old(self)@.len(),
        ensures
            final(self)@ == old(self)@.subrange(0, start as int) + old(self)@.subrange(
                end as int,
                old(self)@.len() as int,
            ),
    ;
}

impl<T> Vector<T> for StdVector<T> {
    fn push(&mut self, item: T) {
        self.0.push(item);
    }

    fn pop(&mut self) -> (r: Option<T>) {
        self.0.pop()
    }

    fn truncate(&mut self, len: usize) {
        self.0.truncate(len);
    }

    fn remove_range(&mut self, start: usize, end: usize) {
        let mut tail = self.0.split_off(end);
        self.0.truncate(start);
        self.0.append(&mut tail);
    }
}

/// Makes `StdVector`s.
#[derive(Debug, Clone, Copy)]
pub struct StdVectorFactory;

impl StdVectorFactory {
    /// An empty vector, with room for `capacity` elements if given.
    pub fn create_vector<T>(capacity: Option<usize>) -> (v: StdVector<T>)
        ensures
            v@ == Seq::<T>::empty(),
    {
        match capacity {
            Some(c) => StdVector(Vec::with_capacity(c)),
            None => StdVector(Vec::new()),
        }
    }

    /// A copy of `vector` whose elements are copies of the originals.
    pub fn clone_vector<T: Copy>(vector: &StdVector<T>) -> (v: StdVector<T>)
        ensures
            v@ == vector@,
    {
        StdVector(vstd::slice::slice_to_vec(vector.0.as_slice()))
    }
}

} // verus!
