//! A fixed-length circular buffer over memory that the caller lends.
use vstd::prelude::*;
use crate::delay_model::DelayState;

verus! {

/// A circular buffer over a borrowed slice, with one cursor that serves both
/// reading and writing. The slice is borrowed exclusively for as long as the
/// delay line lives, and its length never changes.
pub struct DelayLine<'a, T> {
    inner: &'a mut [T],
    index: usize,
}

impl<'a, T> View for DelayLine<'a, T> {
    type V = DelayState<T>;

    closed spec fn view(&self) -> DelayState<T> {
        DelayState { samples: self.inner@, cursor: self.index as int }
    }
}

impl<'a, T> DelayLine<'a, T> {
    #[verifier::type_invariant]
    spec fn valid(&self) -> bool {
        self.index < self.inner@.len()
    }
}

impl<'a, T: Copy> DelayLine<'a, T> {
    /// Takes a non-empty buffer as it is and puts the cursor at its start.
    pub fn new(inner: &'a mut [T]) -> (line: DelayLine<'a, T>)
        requires
            old(inner)@.len() > 0,
        ensures
            line@ == DelayState::fresh(old(inner)@),
            line@.wf(),
    {
        DelayLine { inner, index: 0 }
    }

    /// Returns the sample under the cursor, then moves the cursor one step on
    /// and stores `input` there: the next call returns `input`.
    pub fn process(&mut self, input: T) -> (output: T)
        ensures
            output == old(self)@.read(),
            final(self)@ == old(self)@.process(input),
            final(self)@.len() == old(self)@.len(),
            final(self)@.wf(),
    {
        proof {
            use_type_invariant(&*self);
        }
        let output = self.inner[self.index];
        self.index = (self.index + 1) % self.inner.len();
        self.inner[self.index] = input;
        output
    }

    /// The sample at `index`, counted in a circle: any index is allowed.
    pub fn get(&self, index: usize) -> (sample: T)
        ensures
            sample == self@.get(index as int),
            self@.wf(),
    {
        proof {
            use_type_invariant(self);
        }
        self.inner[index % self.inner.len()]
    }

    /// The sample under the cursor. Nothing changes.
    pub fn read(&self) -> (sample: T)
        ensures
            sample == self@.read(),
            self@.wf(),
    {
        proof {
            use_type_invariant(self);
        }
        self.inner[self.index]
    }

    /// Stores `input` under the cursor, then moves the cursor one step on.
    pub fn write(&mut self, input: T)
        ensures
            final(self)@ == old(self)@.write(input),
            final(self)@.len() == old(self)@.len(),
            final(self)@.wf(),
    {
        proof {
            use_type_invariant(&*self);
        }
        self.inner[self.index] = input;
        self.index = (self.index + 1) % self.inner.len();
    }

    /// The length of the buffer.
    pub fn len(&self) -> (n: usize)
        ensures
            n == self@.len(),
            self@.wf(),
    {
        proof {
            use_type_invariant(self);
        }
        self.inner.len()
    }
}

/// Hands out the place of one sample of a buffer.
fn slot_mut<T>(buffer: &mut [T], index: usize) -> (sample: &mut T)
    requires
        index < old(buffer)@.len(),
    ensures
        *sample == old(buffer)@[index as int],
        final(buffer)@ == old(buffer)@.update(index as int, *final(sample)),
    no_unwind
{
    &mut buffer[index]
}

impl<'a, T> vstd::std_specs::core::IndexSpecImpl<usize> for DelayLine<'a, T> {
    open spec fn index_req(&self, index: &usize) -> bool {
        *index < self@.len()
    }
}

impl<'a, T> std::ops::Index<usize> for DelayLine<'a, T> {
    type Output = T;

    /// The sample at position `index` of the buffer, which must lie inside it.
    fn index(&self, index: usize) -> (sample: &T)
        ensures
            *sample == self@.samples[index as int],
    {
        &self.inner[index]
    }
}

impl<'a, T> std::ops::IndexMut<usize> for DelayLine<'a, T> {
    /// The place of the sample at position `index` of the buffer, which must
    /// lie inside it. The cursor stays where it is.
    fn index_mut(&mut self, index: usize) -> (sample: &mut T)
        requires
            index < old(self)@.len(),
        ensures
            *sample == old(self)@.samples[index as int],
            final(self)@.samples == old(self)@.samples.update(index as int, *final(sample)),
            final(self)@.cursor == old(self)@.cursor,
            final(self)@.wf(),
    {
        proof {
            use_type_invariant(&*self);
        }
        slot_mut(self.inner, index)
    }
}

} // verus!
