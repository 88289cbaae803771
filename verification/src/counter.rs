//! The two counters: one whose increment is a single indivisible step, and
//! one whose increment is a load followed by a store.

use vstd::prelude::*;

verus! {

/// The value of a 32-bit two's complement register that mathematically holds
/// `x`: the one representative of `x` modulo 2^32 between `i32::MIN` and
/// `i32::MAX`.
pub open spec fn wrap_i32(x: int) -> int {
    (x + 0x8000_0000) % 0x1_0000_0000 - 0x8000_0000
}

/// Wrapping leaves a value that fits untouched.
pub proof fn lemma_wrap_in_range(x: int)
    requires
        i32::MIN <= x <= i32::MAX,
    ensures
        wrap_i32(x) == x,
{
}

/// Wrapping, stepping by one and wrapping again is wrapping the stepped value.
pub proof fn lemma_wrap_step(x: int)
    ensures
        i32::MIN <= wrap_i32(x) <= i32::MAX,
        wrap_i32(wrap_i32(x) + 1) == wrap_i32(x + 1),
{
    let m = 0x1_0000_0000int;
    let a = x + 0x8000_0000;
    assert((a % m + 1) % m == (a + 1) % m) by (nonlinear_arith)
        requires
            m == 0x1_0000_0000int,
    ;
    assert(0 <= a % m < m);
}

/// A counter whose increment is one indivisible fetch-and-add: no other
/// operation can fall between its read and its write.
pub struct AtomicCounter {
    value: i32,
}

impl AtomicCounter {
    /// The value that `read` returns.
    pub closed spec fn value(&self) -> int {
        self.value as int
    }

    /// A counter at zero.
    pub fn new() -> (counter: Self)
        ensures
            counter.value() == 0,
    {
        AtomicCounter { value: 0 }
    }

    /// A counter at `value`.
    pub fn with_value(value: i32) -> (counter: Self)
        ensures
            counter.value() == value,
    {
        AtomicCounter { value }
    }

    /// Adds one in a single step and returns the value from before, wrapping
    /// round at the end of the 32-bit range as a hardware register does.
    pub fn increment(&mut self) -> (previous: i32)
        ensures
            previous == old(self).value(),
            final(self).value() == wrap_i32(old(self).value() + 1),
    {
        let previous = self.value;
        self.value = previous.wrapping_add(1);
        previous
    }

    /// The current value, in a single step.
    pub fn read(&self) -> (value: i32)
        ensures
            value == self.value(),
    {
        self.value
    }

    /// The value lies within 32 bits.
    pub proof fn lemma_value_in_range(&self)
        ensures
            i32::MIN <= self.value() <= i32::MAX,
    {
    }
}

/// A counter whose increment is two separate steps, a load and a store of
/// the loaded value plus one. Between the two another worker may move, and
/// its update is then overwritten. The hazard is silent: nothing reports it.
pub struct UnsynchronizedCounter {
    value: i32,
}

impl UnsynchronizedCounter {
    /// The raw stored value.
    pub closed spec fn value(&self) -> int {
        self.value as int
    }

    /// A counter at zero.
    pub fn new() -> (counter: Self)
        ensures
            counter.value() == 0,
    {
        UnsynchronizedCounter { value: 0 }
    }

    /// A counter at `value`.
    pub fn with_value(value: i32) -> (counter: Self)
        ensures
            counter.value() == value,
    {
        UnsynchronizedCounter { value }
    }

    /// The first half of an increment: the stored value as it is now.
    pub fn load(&self) -> (value: i32)
        ensures
            value == self.value(),
    {
        self.value
    }

    /// The second half of an increment: overwrites the stored value,
    /// whatever it has become since the load.
    pub fn store(&mut self, value: i32)
        ensures
            final(self).value() == value,
    {
        self.value = value;
    }

    /// A load and a store with nothing in between: adds one, wrapping round
    /// at the end of the 32-bit range.
    pub fn increment(&mut self)
        ensures
            final(self).value() == wrap_i32(old(self).value() + 1),
    {
        let loaded = self.load();
        self.store(loaded.wrapping_add(1));
    }

    /// The raw stored value.
    pub fn read(&self) -> (value: i32)
        ensures
            value == self.value(),
    {
        self.value
    }
}

} // verus!
