//! The shared collection: an ordered, append-only list of integers.

use vstd::prelude::*;

verus! {

/// An append-only sequence of integers that its users reach one at a time.
///
/// `append` needs exclusive access for the length of one call and gives it
/// up when the call returns, on every path: the borrow ends there. No call
/// holds the collection across another, so no caller can wait for itself.
pub struct MutexCollection {
    numbers: Vec<i32>,
}

impl View for MutexCollection {
    type V = Seq<i32>;

    /// The elements, oldest first.
    closed spec fn view(&self) -> Seq<i32> {
        self.numbers@
    }
}

impl MutexCollection {
    /// An empty collection.
    pub fn new() -> (collection: Self)
        ensures
            collection@ == Seq::<i32>::empty(),
    {
        MutexCollection { numbers: Vec::new() }
    }

    /// Inserts `value` at the end. Nothing that was there is lost, moved or
    /// repeated.
    pub fn append(&mut self, value: i32)
        ensures
            final(self)@ == old(self)@.push(value),
    {
        self.numbers.push(value);
    }

    /// A copy of the elements as they are now.
    pub fn snapshot(&self) -> (copy: Vec<i32>)
        ensures
            copy@ == self@,
    {
        self.numbers.clone()
    }

    /// The number of elements: the number of appends so far.
    pub fn len(&self) -> (count: usize)
        ensures
            count == self@.len(),
    {
        self.numbers.len()
    }
}

} // verus!
