use vstd::prelude::*;

verus! {

/// A fixed-capacity bitmap allocator handing out small dense integer
/// identifiers.
///
/// The view of an allocator is the sequence of its slots: `true` marks an
/// index that is currently handed out, `false` one that is free.
/// `allocate` always returns the lowest free index; exhaustion is a normal,
/// recoverable condition reported as `None`.
pub struct IndexAllocator {
    used: Vec<bool>,
}

impl View for IndexAllocator {
    type V = Seq<bool>;

    closed spec fn view(&self) -> Seq<bool> {
        self.used@
    }
}

impl IndexAllocator {
    /// The fixed number of indices this allocator manages.
    pub open spec fn capacity(&self) -> int {
        self@.len() as int
    }

    /// Creates an allocator with `capacity` indices, all free.
    pub fn new(capacity: usize) -> (r: Self)
        ensures
            r.capacity() == capacity,
            forall|i: int| 0 <= i < capacity ==> !r@[i],
    {
        let mut used: Vec<bool> = Vec::new();
        let mut i: usize = 0;
        while i < capacity
            invariant
                i <= capacity,
                used@.len() == i,
                forall|j: int| 0 <= j < i ==> !used@[j],
            decreases capacity - i,
        {
            used.push(false);
            i = i + 1;
        }
        IndexAllocator { used }
    }

    /// Hands out the lowest free index, or `None` when every index is in
    /// use.
    pub fn allocate(&mut self) -> (r: Option<usize>)
        ensures
            final(self).capacity() == old(self).capacity(),
            match r {
                Some(index) => {
                    &&& 0 <= index < old(self).capacity()
                    &&& !old(self)@[index as int]
                    &&& forall|j: int| 0 <= j < index ==> old(self)@[j]
                    &&& final(self)@ == old(self)@.update(index as int, true)
                },
                None => {
                    &&& forall|j: int| 0 <= j < old(self).capacity() ==> old(self)@[j]
                    &&& final(self)@ == old(self)@
                },
            },
    {
        let capacity = self.used.len();
        let mut i: usize = 0;
        while i < capacity
            invariant
                i <= capacity,
                capacity == self@.len(),
                self@ == old(self)@,
                forall|j: int| 0 <= j < i ==> self@[j],
            decreases capacity - i,
        {
            if !self.used[i] {
                self.used.set(i, true);
                return Some(i);
            }
            i = i + 1;
        }
        None
    }

    /// Marks `index` free again.
    ///
    /// Releasing an index that is already free leaves the allocator
    /// unchanged, so a release is idempotent.
    pub fn release(&mut self, index: usize)
        requires
            index < old(self).capacity(),
        ensures
            final(self)@ == old(self)@.update(index as int, false),
    {
        self.used.set(index, false);
    }

    /// True when `index` is currently handed out.
    pub fn is_used(&self, index: usize) -> (r: bool)
        requires
            index < self.capacity(),
        ensures
            r == self@[index as int],
    {
        self.used[index]
    }
}

} // verus!
