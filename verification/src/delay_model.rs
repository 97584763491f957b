//! The mathematical model of a circular delay buffer: a sequence of samples
//! and a cursor into it.
use vstd::prelude::*;
use vstd::arithmetic::div_mod::lemma_mod_equivalence;
use vstd::arithmetic::div_mod::lemma_small_mod;
use vstd::arithmetic::div_mod::lemma_mod_add_multiples_vanish;
use vstd::arithmetic::div_mod::lemma_mod_bound;
use vstd::arithmetic::div_mod::lemma_add_mod_noop_right;

verus! {

/// What a delay line is, seen from outside: the samples it stores and the
/// position at which the next sample is read and written.
pub struct DelayState<T> {
    pub samples: Seq<T>,
    pub cursor: int,
}

impl<T> DelayState<T> {
    /// The buffer is non-empty and the cursor points into it.
    pub open spec fn wf(self) -> bool {
        0 <= self.cursor < self.samples.len()
    }

    /// A buffer that nothing has been written to yet: the cursor is at the start.
    pub open spec fn fresh(samples: Seq<T>) -> Self {
        DelayState { samples, cursor: 0 }
    }

    /// The number of samples the buffer holds.
    pub open spec fn len(self) -> int {
        self.samples.len() as int
    }

    /// The position that lies `k` steps after the cursor, walking in a circle.
    pub open spec fn slot(self, k: int) -> int {
        (self.cursor + k) % self.len()
    }

    /// The sample under the cursor.
    pub open spec fn read(self) -> T {
        self.samples[self.cursor]
    }

    /// The sample at position `i`, counted in a circle from the start of the buffer.
    pub open spec fn get(self, i: int) -> T {
        self.samples[i % self.len()]
    }

    /// Stores `x` under the cursor, then moves the cursor one step on.
    pub open spec fn write(self, x: T) -> Self {
        DelayState { samples: self.samples.update(self.cursor, x), cursor: self.slot(1) }
    }

    /// Moves the cursor one step on, then stores `x` under it.
    pub open spec fn process(self, x: T) -> Self {
        DelayState { samples: self.samples.update(self.slot(1), x), cursor: self.slot(1) }
    }

    /// Writes the samples of `xs` one after the other, first to last.
    pub open spec fn write_all(self, xs: Seq<T>) -> Self
        decreases xs.len(),
    {
        if xs.len() == 0 {
            self
        } else {
            self.write_all(xs.drop_last()).write(xs.last())
        }
    }
}

/// What holds of one step.
impl<T> DelayState<T> {
    /// Every slot lies inside the buffer, however far from the cursor it is counted.
    pub proof fn lemma_slot_in_range(self, k: int)
        requires
            self.wf(),
        ensures
            0 <= self.slot(k) < self.len(),
    {
        lemma_mod_bound(self.cursor + k, self.len());
    }

    /// Two counts that are less than a full turn apart name different slots.
    pub proof fn lemma_slots_differ(self, j: int, k: int)
        requires
            self.wf(),
            0 < k - j < self.len(),
        ensures
            self.slot(j) != self.slot(k),
    {
        if self.slot(j) == self.slot(k) {
            lemma_mod_equivalence(self.cursor + k, self.cursor + j, self.len());
            lemma_small_mod((k - j) as nat, self.len() as nat);
        }
    }

    /// A full turn leads back to the same slot.
    pub proof fn lemma_slot_full_turn(self, k: int)
        requires
            self.wf(),
        ensures
            self.slot(k + self.len()) == self.slot(k),
    {
        lemma_mod_add_multiples_vanish(self.cursor + k, self.len());
    }

    /// A write keeps the buffer's length and leaves a valid cursor; only the
    /// slot that was under the cursor changes.
    pub proof fn lemma_write_shape(self, x: T)
        requires
            self.wf(),
        ensures
            self.write(x).wf(),
            self.write(x).len() == self.len(),
            self.write(x).samples[self.cursor] == x,
            forall|i: int|
                0 <= i < self.len() && i != self.cursor ==> self.write(x).samples[i]
                    == self.samples[i],
    {
        self.lemma_slot_in_range(1);
    }

    /// After `process` the cursor is on the sample just stored: the next
    /// `process` hands it back, one call late, whatever the buffer's length.
    pub proof fn lemma_process_delays_by_one(self, x: T)
        requires
            self.wf(),
        ensures
            self.process(x).wf(),
            self.process(x).len() == self.len(),
            self.process(x).read() == x,
    {
        self.lemma_slot_in_range(1);
    }

    /// `get` at the cursor is `read`.
    pub proof fn lemma_get_at_cursor(self)
        requires
            self.wf(),
        ensures
            self.get(self.cursor) == self.read(),
    {
        lemma_small_mod(self.cursor as nat, self.len() as nat);
    }

    /// `get` sees the buffer as a circle: an index and the same index one
    /// buffer length further name the same sample.
    pub proof fn lemma_get_periodic(self, i: int)
        requires
            self.wf(),
        ensures
            self.get(i + self.len()) == self.get(i),
            0 <= i < self.len() ==> self.get(i) == self.samples[i],
    {
        lemma_mod_add_multiples_vanish(i, self.len());
        if 0 <= i < self.len() {
            lemma_small_mod(i as nat, self.len() as nat);
        }
    }
}

/// What holds of a run of writes.
impl<T> DelayState<T> {
    /// A run of writes keeps the buffer's length and moves the cursor by as
    /// many steps as there were samples.
    pub proof fn lemma_write_all_cursor(self, xs: Seq<T>)
        requires
            self.wf(),
        ensures
            self.write_all(xs).wf(),
            self.write_all(xs).len() == self.len(),
            self.write_all(xs).cursor == self.slot(xs.len() as int),
        decreases xs.len(),
    {
        if xs.len() == 0 {
            lemma_small_mod(self.cursor as nat, self.len() as nat);
        } else {
            let before = self.write_all(xs.drop_last());
            self.lemma_write_all_cursor(xs.drop_last());
            before.lemma_write_shape(xs.last());
            // one step on from the slot before the last is the last slot
            let n = xs.len() as int;
            lemma_add_mod_noop_right(1, self.cursor + n - 1, self.len());
        }
    }

    /// Each of the last samples written, up to one buffer length of them, is
    /// stored in the slot that its place in the run gives it.
    pub proof fn lemma_write_all_recent(self, xs: Seq<T>, k: int)
        requires
            self.wf(),
            0 <= k < xs.len(),
            xs.len() - k <= self.len(),
        ensures
            self.write_all(xs).samples[self.slot(k)] == xs[k],
        decreases xs.len(),
    {
        let n = xs.len() as int;
        let before = self.write_all(xs.drop_last());
        self.lemma_write_all_cursor(xs.drop_last());
        self.lemma_slot_in_range(k);
        before.lemma_write_shape(xs.last());
        if k < n - 1 {
            self.lemma_write_all_recent(xs.drop_last(), k);
            self.lemma_slots_differ(k, n - 1);
        }
    }

    /// A slot that a run of writes has not reached yet holds what it held before.
    pub proof fn lemma_write_all_untouched(self, xs: Seq<T>, k: int)
        requires
            self.wf(),
            xs.len() <= k < self.len(),
        ensures
            self.write_all(xs).samples[self.slot(k)] == self.samples[self.slot(k)],
        decreases xs.len(),
    {
        if xs.len() > 0 {
            let n = xs.len() as int;
            let before = self.write_all(xs.drop_last());
            self.lemma_write_all_cursor(xs.drop_last());
            self.lemma_slot_in_range(k);
            before.lemma_write_shape(xs.last());
            self.lemma_write_all_untouched(xs.drop_last(), k);
            self.lemma_slots_differ(n - 1, k);
        }
    }

    /// The delay: once at least one buffer length of samples has been written,
    /// `read` returns the sample written one buffer length ago.
    pub proof fn lemma_read_after_writes(self, xs: Seq<T>)
        requires
            self.wf(),
            xs.len() >= self.len(),
        ensures
            self.write_all(xs).read() == xs[xs.len() - self.len()],
    {
        let n = xs.len() as int;
        self.lemma_write_all_cursor(xs);
        self.lemma_write_all_recent(xs, n - self.len());
        self.lemma_slot_full_turn(n - self.len());
    }

    /// Before a full turn is written, `read` still returns what the buffer
    /// held when the run began.
    pub proof fn lemma_read_before_full_turn(self, xs: Seq<T>)
        requires
            self.wf(),
            xs.len() < self.len(),
        ensures
            self.write_all(xs).read() == self.samples[self.slot(xs.len() as int)],
    {
        self.lemma_write_all_cursor(xs);
        self.lemma_write_all_untouched(xs, xs.len() as int);
    }
}

/// Wrap-around on a buffer that starts with its cursor at the beginning.
impl<T> DelayState<T> {
    /// Writing exactly one buffer length of samples brings the cursor back to
    /// the start, where the first sample written is read.
    pub proof fn lemma_full_turn(buffer: Seq<T>, xs: Seq<T>)
        requires
            buffer.len() > 0,
            xs.len() == buffer.len(),
        ensures
            Self::fresh(buffer).write_all(xs).cursor == 0,
            Self::fresh(buffer).write_all(xs).read() == xs[0],
            Self::fresh(buffer).write_all(xs).samples == xs,
    {
        let start = Self::fresh(buffer);
        let end = start.write_all(xs);
        start.lemma_write_all_cursor(xs);
        start.lemma_read_after_writes(xs);
        start.lemma_slot_full_turn(0);
        lemma_small_mod(0, buffer.len());
        assert forall|i: int| 0 <= i < xs.len() implies end.samples[i] == xs[i] by {
            start.lemma_write_all_recent(xs, i);
            lemma_small_mod(i as nat, buffer.len());
        }
        assert(end.samples =~= xs);
    }

    /// One write past a full turn overwrites the first sample written: `read`
    /// then returns the second sample of the run, and so the first one only
    /// where the two are equal.
    pub proof fn lemma_one_past_full_turn(buffer: Seq<T>, xs: Seq<T>)
        requires
            buffer.len() > 0,
            xs.len() == buffer.len() + 1,
        ensures
            Self::fresh(buffer).write_all(xs).cursor == 1int % (buffer.len() as int),
            Self::fresh(buffer).write_all(xs).read() == xs[1],
            Self::fresh(buffer).write_all(xs).read() == xs[0] <==> xs[1] == xs[0],
            Self::fresh(buffer).write_all(xs).samples[0] == xs[buffer.len() as int],
    {
        let start = Self::fresh(buffer);
        start.lemma_write_all_cursor(xs);
        start.lemma_read_after_writes(xs);
        start.lemma_slot_full_turn(1);
        start.lemma_write_all_recent(xs, buffer.len() as int);
        start.lemma_slot_full_turn(0);
        lemma_small_mod(0, buffer.len());
    }
}

} // verus!
