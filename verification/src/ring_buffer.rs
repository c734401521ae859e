//! A fixed-capacity circular buffer of recent audio output samples, kept for
//! inspection and visualization; it has no effect on the emulation itself.

use vstd::prelude::*;

verus! {

/// Abstract value of a [`RingBuffer`]: the stored samples and the slot the
/// next push overwrites.
#[verifier::ext_equal]
pub ghost struct RingView {
    pub data: Seq<i16>,
    pub index: int,
}

impl RingView {
    /// The write cursor always stays inside the (nonempty) store.
    pub open spec fn wf(self) -> bool {
        &&& self.data.len() > 0
        &&& 0 <= self.index < self.data.len()
    }
}

/// The ring after one push: the slot under the cursor is overwritten and
/// the cursor advances, wrapping at the capacity.
pub open spec fn rv_pushed(rv: RingView, sample: i16) -> RingView
    recommends
        rv.wf(),
{
    RingView { data: rv.data.update(rv.index, sample), index: (rv.index + 1) % (rv.data.len() as int) }
}

/// Fixed-capacity circular sample store: pushes overwrite the oldest slot.
pub struct RingBuffer {
    buffer: Vec<i16>,
    index: usize,
}

impl View for RingBuffer {
    type V = RingView;

    closed spec fn view(&self) -> RingView {
        RingView { data: self.buffer@, index: self.index as int }
    }
}

impl RingBuffer {
    pub open spec fn wf(&self) -> bool {
        self@.wf()
    }

    /// A zeroed buffer of the given capacity.
    pub fn new(length: usize) -> (r: RingBuffer)
        requires
            length > 0,
        ensures
            r.wf(),
            r@.data.len() == length,
            forall|j: int| 0 <= j < length ==> r@.data[j] == 0i16,
            r@.index == 0,
    {
        let mut buffer: Vec<i16> = Vec::new();
        let mut i: usize = 0;
        while i < length
            invariant
                i <= length,
                buffer@.len() == i,
                forall|j: int| 0 <= j < i ==> buffer@[j] == 0i16,
            decreases length - i,
        {
            buffer.push(0);
            i = i + 1;
        }
        RingBuffer { buffer, index: 0 }
    }

    /// Pushes one sample into the slot under the cursor and advances the
    /// cursor, wrapping at the capacity.
    pub fn push(&mut self, sample: i16)
        requires
            old(self).wf(),
        ensures
            final(self).wf(),
            final(self)@ == rv_pushed(old(self)@, sample),
    {
        self.buffer.set(self.index, sample);
        let len = self.buffer.len();
        let i = self.index;
        assert(i < len);
        self.index = (i + 1) % len;
    }

    /// The stored samples, oldest and newest interleaved at the cursor.
    pub fn buffer(&self) -> (r: &Vec<i16>)
        ensures
            r@ == self@.data,
    {
        &self.buffer
    }

    pub fn len(&self) -> (r: usize)
        ensures
            r == self@.data.len(),
    {
        self.buffer.len()
    }
}

} // verus!
