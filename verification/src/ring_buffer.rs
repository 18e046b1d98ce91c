use vstd::prelude::*;

verus! {

/// A bounded, fixed-capacity circular buffer.
///
/// The view of a buffer is the sequence of items currently queued, oldest
/// first. `push` appends at the tail and fails on a full buffer without
/// touching its contents; `pop` removes the head. The capacity is fixed at
/// construction: a full buffer is a normal condition, never an overwrite.
///
/// One storage slot is kept vacant so that "empty" (`start == end`) and
/// "full" can be told apart without a separate counter; the storage
/// therefore holds one element more than the usable capacity.
#[derive(Debug)]
pub struct RingBuffer<T> {
    data: Vec<T>,
    start: usize,
    end: usize,
}

impl<T: Copy> View for RingBuffer<T> {
    type V = Seq<T>;

    closed spec fn view(&self) -> Seq<T> {
        if self.start <= self.end {
            self.data@.subrange(self.start as int, self.end as int)
        } else {
            self.data@.subrange(self.start as int, self.data@.len() as int) + self.data@.subrange(
                0,
                self.end as int,
            )
        }
    }
}

impl<T: Copy> RingBuffer<T> {
    /// Structural well-formedness: the cursors lie inside the storage.
    pub closed spec fn wf(&self) -> bool {
        &&& self.data@.len() >= 1
        &&& self.start < self.data@.len()
        &&& self.end < self.data@.len()
    }

    /// The number of items the buffer can hold at once.
    pub closed spec fn capacity(&self) -> int {
        self.data@.len() - 1
    }

    /// Creates a buffer for at most `capacity` items. `fill` is the value
    /// the vacant storage slots start from; it is never returned by `pop`.
    pub fn new(capacity: usize, fill: T) -> (r: Self)
        requires
            capacity < usize::MAX,
        ensures
            r.wf(),
            r.capacity() == capacity,
            r@ == Seq::<T>::empty(),
    {
        let mut data: Vec<T> = Vec::new();
        let mut i: usize = 0;
        while i < capacity + 1
            invariant
                i <= capacity + 1,
                capacity < usize::MAX,
                data@.len() == i,
            decreases capacity + 1 - i,
        {
            data.push(fill);
            i = i + 1;
        }
        let r = RingBuffer { data, start: 0, end: 0 };
        proof {
            assert(r@ =~= Seq::<T>::empty());
        }
        r
    }

    /// A well-formed buffer never holds more than its capacity.
    pub proof fn lemma_len_le_capacity(&self)
        requires
            self.wf(),
        ensures
            self@.len() <= self.capacity(),
    {
    }

    /// The number of items currently queued.
    pub fn size(&self) -> (r: usize)
        requires
            self.wf(),
        ensures
            r == self@.len(),
    {
        let n = self.data.len();
        if self.start <= self.end {
            self.end - self.start
        } else {
            self.end + (n - self.start)
        }
    }

    /// True when nothing is queued.
    pub fn empty(&self) -> (r: bool)
        requires
            self.wf(),
        ensures
            r == (self@.len() == 0),
    {
        self.end == self.start
    }

    /// True when the buffer holds `capacity` items and a push would fail.
    pub fn full(&self) -> (r: bool)
        requires
            self.wf(),
        ensures
            r == (self@.len() == self.capacity()),
    {
        let n = self.data.len();
        let next = if self.end + 1 == n { 0 } else { self.end + 1 };
        next == self.start
    }

    /// Appends `item` at the tail. A full buffer returns `Err(())` and is
    /// left exactly as it was — no overwrite, no blocking.
    pub fn push(&mut self, item: &T) -> (r: Result<(), ()>)
        requires
            old(self).wf(),
        ensures
            final(self).wf(),
            final(self).capacity() == old(self).capacity(),
            match r {
                Ok(()) => {
                    &&& old(self)@.len() < old(self).capacity()
                    &&& final(self)@ == old(self)@.push(*item)
                },
                Err(()) => {
                    &&& old(self)@.len() == old(self).capacity()
                    &&& final(self)@ == old(self)@
                },
            },
    {
        if !self.full() {
            let n = self.data.len();
            self.data.set(self.end, *item);
            self.end = if self.end + 1 == n { 0 } else { self.end + 1 };
            proof {
                assert(self@ =~= old(self)@.push(*item));
            }
            return Ok(());
        }
        Err(())
    }

    /// Removes and returns the oldest item, or `None` when the buffer is
    /// empty.
    pub fn pop(&mut self) -> (r: Option<T>)
        requires
            old(self).wf(),
        ensures
            final(self).wf(),
            final(self).capacity() == old(self).capacity(),
            match r {
                Some(item) => {
                    &&& old(self)@.len() > 0
                    &&& item == old(self)@[0]
                    &&& final(self)@ == old(self)@.drop_first()
                },
                None => {
                    &&& old(self)@.len() == 0
                    &&& final(self)@ == old(self)@
                },
            },
    {
        if !self.empty() {
            let n = self.data.len();
            let ans = self.data[self.start];
            self.start = if self.start + 1 == n { 0 } else { self.start + 1 };
            proof {
                assert(self@ =~= old(self)@.drop_first());
            }
            return Some(ans);
        }
        None
    }
}

} // verus!
