//! A circular buffer that is written at its head and read at a delay behind
//! it. It holds any plain value; the delay lines around it hold samples.
use vstd::prelude::*;

verus! {

/// The state of a delay buffer.
pub struct DelayBufferView<T> {
    /// The slots, in place.
    pub buffer: Seq<T>,
    /// The slot written next.
    pub index: nat,
}

impl<T> DelayBufferView<T> {
    /// The write position lies inside the slots, or at 0 where there are
    /// none.
    pub open spec fn wf(self) -> bool {
        &&& self.buffer.len() <= usize::MAX
        &&& self.buffer.len() > 0 ==> self.index < self.buffer.len()
        &&& self.buffer.len() == 0 ==> self.index == 0
    }

    /// The state after `value` was written: it fills the slot at the write
    /// position, which moves on by one and wraps at the end.
    pub open spec fn written(self, value: T) -> DelayBufferView<T> {
        DelayBufferView {
            buffer: self.buffer.update(self.index as int, value),
            index: (((self.index + 1) as int) % (self.buffer.len() as int)) as nat,
        }
    }

    /// The slot read at `delay`: that of the value written `delay + 1`
    /// writes ago.
    pub open spec fn slot(self, delay: nat) -> int {
        if delay < self.index {
            self.index - 1 - delay
        } else {
            self.buffer.len() + self.index - 1 - delay
        }
    }
}

/// A circular buffer with one write position and reads at a delay behind it.
#[derive(Debug, Clone)]
pub struct DelayBuffer<T> {
    buffer: Vec<T>,
    index: usize,
}

impl<T> View for DelayBuffer<T> {
    type V = DelayBufferView<T>;

    closed spec fn view(&self) -> DelayBufferView<T> {
        DelayBufferView { buffer: self.buffer@, index: self.index as nat }
    }
}

impl<T: Copy> DelayBuffer<T> {
    /// A buffer of `capacity` slots, each holding `fill`, written from the
    /// first slot on.
    pub fn new(capacity: usize, fill: T) -> (buffer: Self)
        ensures
            buffer@.wf(),
            buffer@.index == 0,
            buffer@.buffer == Seq::new(capacity as nat, |i: int| fill),
    {
        let mut slots: Vec<T> = Vec::new();
        let mut made: usize = 0;
        while made < capacity
            invariant
                made <= capacity,
                slots@ == Seq::new(made as nat, |i: int| fill),
            decreases capacity - made,
        {
            slots.push(fill);
            made = made + 1;
            assert(slots@ =~= Seq::new(made as nat, |i: int| fill));
        }
        Self { buffer: slots, index: 0 }
    }

    /// Writes `value` at the write position and moves the position on. The
    /// buffer must have a slot.
    pub fn write(&mut self, value: T)
        requires
            old(self)@.wf(),
            old(self)@.buffer.len() > 0,
        ensures
            final(self)@.wf(),
            final(self)@ == old(self)@.written(value),
    {
        self.buffer[self.index] = value;
        self.index = (self.index + 1) % self.buffer.len();
    }

    /// Reads the value written `delay + 1` writes ago. The delay must lie
    /// inside the buffer.
    pub fn read(&self, delay: usize) -> (value: T)
        requires
            self@.wf(),
            delay < self@.buffer.len(),
        ensures
            0 <= self@.slot(delay as nat) < self@.buffer.len(),
            value == self@.buffer[self@.slot(delay as nat)],
    {
        let offset: usize = if delay < self.index {
            self.index - 1 - delay
        } else {
            self.buffer.len() - 1 - delay + self.index
        };
        self.buffer[offset]
    }

    /// The number of slots.
    pub fn capacity(&self) -> (capacity: usize)
        ensures
            capacity == self@.buffer.len(),
    {
        self.buffer.len()
    }

    /// The slot written next.
    pub fn index(&self) -> (index: usize)
        ensures
            index == self@.index,
    {
        self.index
    }

    /// A copy of the slots, in place.
    pub fn contents(&self) -> (slots: Vec<T>)
        ensures
            slots@ == self@.buffer,
    {
        let mut slots: Vec<T> = Vec::new();
        let mut at: usize = 0;
        while at < self.buffer.len()
            invariant
                at <= self.buffer@.len(),
                slots@ == self.buffer@.take(at as int),
            decreases self.buffer@.len() - at,
        {
            slots.push(self.buffer[at]);
            proof {
                assert(slots@ =~= self.buffer@.take(at + 1));
            }
            at = at + 1;
        }
        proof {
            assert(self.buffer@.take(self.buffer@.len() as int) =~= self.buffer@);
        }
        slots
    }
}

/// What was written last is read at no delay, and each further write moves
/// everything one step further into the past.
pub proof fn lemma_written_is_delayed<T>(buffer: DelayBufferView<T>, value: T, delay: nat)
    requires
        buffer.wf(),
        buffer.buffer.len() > 0,
        delay < buffer.buffer.len(),
    ensures
        buffer.written(value).wf(),
        buffer.written(value).buffer[buffer.written(value).slot(0)] == value,
        0 < delay ==> buffer.written(value).buffer[buffer.written(value).slot(delay)]
            == buffer.buffer[buffer.slot((delay - 1) as nat)],
{
    let after = buffer.written(value);
    let len = buffer.buffer.len();
    if buffer.index + 1 < len {
        vstd::arithmetic::div_mod::lemma_small_mod(buffer.index + 1, len);
    } else {
        vstd::arithmetic::div_mod::lemma_mod_self_0(len as int);
    }
}

} // verus!
