use vstd::pervasive::VecAdditionalExecFns;
use vstd::prelude::*;

verus! {

/// An unsigned integer type narrow enough to index a fixed block.
///
/// The ring buffer stores its head and tail cursors in such a type; a
/// backing store picks the narrowest one that can address all of its
/// slots. `bound` is the exclusive upper limit of the values the type
/// can hold, and `as_int` is the mathematical value of a cursor.
pub trait Index: Copy + Sized {
    /// The mathematical value held by this cursor.
    spec fn as_int(self) -> int;

    /// Exclusive upper bound on the values this type can hold.
    spec fn bound() -> int;

    /// Widen the cursor to a `usize`.
    fn to_usize(self) -> (r: usize)
        ensures
            r == self.as_int(),
            0 <= self.as_int() < Self::bound(),
    ;

    /// Narrow a `usize` into the cursor type; the value must fit.
    fn from(ix: usize) -> (r: Self)
        requires
            ix < Self::bound(),
        ensures
            r.as_int() == ix,
    ;
}

impl Index for u8 {
    open spec fn as_int(self) -> int {
        self as int
    }

    open spec fn bound() -> int {
        256
    }

    fn to_usize(self) -> usize {
        self as usize
    }

    fn from(ix: usize) -> Self {
        ix as u8
    }
}

impl Index for u16 {
    open spec fn as_int(self) -> int {
        self as int
    }

    open spec fn bound() -> int {
        65536
    }

    fn to_usize(self) -> usize {
        self as usize
    }

    fn from(ix: usize) -> Self {
        ix as u16
    }
}

impl Index for u32 {
    open spec fn as_int(self) -> int {
        self as int
    }

    open spec fn bound() -> int {
        0x1_0000_0000
    }

    fn to_usize(self) -> usize {
        self as usize
    }

    fn from(ix: usize) -> Self {
        ix as u32
    }
}

impl Index for usize {
    open spec fn as_int(self) -> int {
        self as int
    }

    open spec fn bound() -> int {
        usize::MAX as int + 1
    }

    fn to_usize(self) -> usize {
        self
    }

    fn from(ix: usize) -> Self {
        ix
    }
}

/// A contiguous, fixed-size backing store for a ring buffer.
///
/// A block holds a fixed number of slots, each of which either holds an
/// element or is empty. The block tracks no occupancy of its own and owns
/// no ring-buffer logic; it only exposes its slots. Its size is fixed at
/// construction: every operation leaves the slot count unchanged.
pub trait Array: Sized {
    /// The element type stored in the slots.
    type Item;

    /// The cursor type wide enough to index every slot.
    type Index: Index;

    /// The current contents of the slots, in physical order.
    spec fn slots(&self) -> Seq<Option<Self::Item>>;

    /// Make a block of `size` slots, all empty.
    fn with_size(size: usize) -> (r: Self)
        requires
            size < <Self::Index as Index>::bound(),
        ensures
            r.slots() =~= Seq::new(size as nat, |i: int| None::<Self::Item>),
    ;

    /// The number of slots, fixed for the block's lifetime.
    fn capacity(&self) -> (n: usize)
        ensures
            n == self.slots().len(),
    ;

    /// Read-only view of one slot.
    fn slot(&self, i: usize) -> (r: &Option<Self::Item>)
        requires
            i < self.slots().len(),
        ensures
            *r == self.slots()[i as int],
    ;

    /// Mutable view of one slot.
    fn slot_mut(&mut self, i: usize) -> (r: &mut Option<Self::Item>)
        requires
            i < old(self).slots().len(),
        ensures
            *r == old(self).slots()[i as int],
            final(self).slots() =~= old(self).slots().update(i as int, *final(r)),
    ;

    /// Move an element into slot `i`, which must be empty.
    fn fill(&mut self, i: usize, v: Self::Item)
        requires
            i < old(self).slots().len(),
            old(self).slots()[i as int] is None,
        ensures
            final(self).slots() =~= old(self).slots().update(i as int, Some(v)),
    ;

    /// Move the element out of slot `i`, which must be occupied; the slot
    /// becomes empty.
    fn empty_out(&mut self, i: usize) -> (r: Self::Item)
        requires
            i < old(self).slots().len(),
            old(self).slots()[i as int] is Some,
        ensures
            old(self).slots()[i as int] == Some(r),
            final(self).slots() =~= old(self).slots().update(i as int, None),
    ;
}

/// A backing store that can also expose its whole slot region as one
/// contiguous slice, in physical order.
pub trait ArrayExt: Array {
    /// The slots as a contiguous slice.
    fn as_slice(&self) -> (r: &[Option<Self::Item>])
        ensures
            r@ == self.slots(),
    ;
}

/// A backing store of `size` slots held in a vector that is never resized.
pub struct FixedBlock<T> {
    slots: Vec<Option<T>>,
}

impl<T> Array for FixedBlock<T> {
    type Item = T;

    type Index = usize;

    closed spec fn slots(&self) -> Seq<Option<T>> {
        self.slots@
    }

    fn with_size(size: usize) -> (r: Self) {
        let mut slots: Vec<Option<T>> = Vec::new();
        let mut i: usize = 0;
        while i < size
            invariant
                i <= size,
                slots@ =~= Seq::new(i as nat, |j: int| None::<T>),
            decreases size - i,
        {
            slots.push(None);
            i = i + 1;
        }
        FixedBlock { slots }
    }

    fn capacity(&self) -> usize {
        self.slots.len()
    }

    fn slot(&self, i: usize) -> &Option<T> {
        &self.slots[i]
    }

    fn slot_mut(&mut self, i: usize) -> &mut Option<T> {
        &mut self.slots[i]
    }

    fn fill(&mut self, i: usize, v: T) {
        self.slots.set(i, Some(v));
    }

    fn empty_out(&mut self, i: usize) -> T {
        let mut taken: Option<T> = None;
        self.slots.set_and_swap(i, &mut taken);
        taken.unwrap()
    }
}

impl<T> ArrayExt for FixedBlock<T> {
    fn as_slice(&self) -> &[Option<T>] {
        self.slots.as_slice()
    }
}

} // verus!
