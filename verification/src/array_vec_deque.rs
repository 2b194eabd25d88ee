use crate::array::Array;
use crate::array::Index;
use vstd::prelude::*;

verus! {

/// Number of elements logically stored in a ring of `size` slots whose
/// cursors stand at `tail` and `head`.
pub open spec fn spec_count(tail: int, head: int, size: int) -> int {
    if tail <= head {
        head - tail
    } else {
        size - tail + head
    }
}

/// Cursor `idx` advanced by `add` positions around a ring of `size` slots.
/// Meaningful for `0 <= idx < size` and `0 <= add <= size`, where it equals
/// `(idx + add) % size`.
pub open spec fn spec_wrap_add(idx: int, add: int, size: int) -> int {
    if idx + add < size {
        idx + add
    } else {
        idx + add - size
    }
}

/// Cursor `idx` moved back by `sub` positions around a ring of `size`
/// slots. Meaningful for `0 <= idx < size` and `0 <= sub < size`, where it
/// equals `(idx - sub) mod size`.
pub open spec fn spec_wrap_sub(idx: int, sub: int, size: int) -> int {
    if sub <= idx {
        idx - sub
    } else {
        size - sub + idx
    }
}

/// Whether physical slot `i` lies in the logical range `[tail, head)` of a
/// ring of `size` slots, taking wraparound into account.
pub open spec fn slot_occupied(tail: int, head: int, size: int, i: int) -> bool {
    if tail <= head {
        tail <= i < head
    } else {
        i >= tail || i < head
    }
}

/// Calculate the number of elements left to be read in the buffer.
pub fn count(tail: usize, head: usize, size: usize) -> (r: usize)
    requires
        tail < size,
        head < size,
    ensures
        r == spec_count(tail as int, head as int, size as int),
        r < size,
{
    if tail <= head {
        head - tail
    } else {
        size - tail + head
    }
}

/// Returns the index in the underlying buffer for a given logical element
/// index.
pub fn wrap_index(index: usize, size: usize) -> (r: usize)
    requires
        size >= 1,
    ensures
        r == index as int % size as int,
        r < size,
{
    index % size
}

/// The error returned when a push finds the buffer full; it hands the
/// rejected element back to the caller unchanged.
pub struct CapacityError<T> {
    /// The element that there was no room for.
    pub element: T,
}

impl<T> CapacityError<T> {
    /// Wrap a rejected element.
    pub fn new(element: T) -> (r: Self)
        ensures
            r.element == element,
    {
        CapacityError { element }
    }
}

/// A double-ended queue with a fixed number of slots.
///
/// `tail` and `head` are cursors into the backing block. Tail always
/// points to the first element that could be read, head to where the next
/// element would be written. When `tail == head` the buffer is empty, so
/// one slot is permanently kept free and the usable capacity is one less
/// than the slot count.
pub struct ArrayVecDeque<A: Array> {
    tail: usize,
    head: usize,
    buf: A,
}

impl<A: Array> View for ArrayVecDeque<A> {
    type V = Seq<A::Item>;

    /// The elements held, oldest (front) first.
    closed spec fn view(&self) -> Seq<A::Item> {
        Seq::new(
            spec_count(self.tail as int, self.head as int, self.num_slots()) as nat,
            |j: int| self.buf.slots()[spec_wrap_add(self.tail as int, j, self.num_slots())]->0,
        )
    }
}

impl<A: Array> ArrayVecDeque<A> {
    /// Total number of physical slots in the backing block.
    pub closed spec fn num_slots(&self) -> int {
        self.buf.slots().len() as int
    }

    /// Number of elements the buffer can hold: one less than the slot
    /// count, since one slot stays free to tell a full buffer from an
    /// empty one.
    pub closed spec fn spec_capacity(&self) -> int {
        self.num_slots() - 1
    }

    /// Validity of the structure: the cursors address real slots, and a
    /// slot holds an element exactly when it lies in the logical range
    /// `[tail, head)`.
    pub closed spec fn well_formed(&self) -> bool {
        &&& 1 <= self.num_slots()
        &&& (self.tail as int) < self.num_slots()
        &&& (self.head as int) < self.num_slots()
        &&& forall|i: int|
            0 <= i < self.num_slots() ==> (self.buf.slots()[i] is Some <==> slot_occupied(
                self.tail as int,
                self.head as int,
                self.num_slots(),
                i,
            ))
    }

    /// Construct an empty buffer over a block of `size` slots; it will
    /// hold up to `size - 1` elements.
    pub fn new(size: usize) -> (r: Self)
        requires
            1 <= size,
            size < <A::Index as Index>::bound(),
        ensures
            r.well_formed(),
            r@ =~= Seq::<A::Item>::empty(),
            r.spec_capacity() == size - 1,
    {
        let r = ArrayVecDeque { tail: 0, head: 0, buf: A::with_size(size) };
        proof {
            assert(r@ =~= Seq::<A::Item>::empty());
        }
        r
    }

    /// Total slot count of the backing block.
    fn cap(&self) -> (n: usize)
        ensures
            n == self.num_slots(),
    {
        self.buf.capacity()
    }

    /// The number of elements currently held.
    pub fn len(&self) -> (r: usize)
        requires
            self.well_formed(),
        ensures
            r == self@.len(),
            r <= self.spec_capacity(),
    {
        let size = self.cap();
        count(self.tail, self.head, size)
    }

    /// Whether the buffer holds no elements.
    pub fn is_empty(&self) -> (r: bool)
        requires
            self.well_formed(),
        ensures
            r <==> self@.len() == 0,
    {
        self.tail == self.head
    }

    /// Whether the buffer is at full capacity.
    fn is_full(&self) -> (r: bool)
        requires
            self.well_formed(),
        ensures
            r <==> self@.len() == self.spec_capacity(),
    {
        let size = self.cap();
        size - self.len() == 1
    }

    /// How many elements the buffer can hold; fixed for its lifetime.
    pub fn capacity(&self) -> (r: usize)
        requires
            self.well_formed(),
        ensures
            r == self.spec_capacity(),
            self@.len() <= r,
    {
        let size = self.cap();
        size - 1
    }

    /// Cursor `idx` advanced by `addend` slots, wrapping around the block.
    fn wrap_add(&self, idx: usize, addend: usize) -> (r: usize)
        requires
            self.well_formed(),
            idx < self.num_slots(),
            addend < self.num_slots(),
        ensures
            r == spec_wrap_add(idx as int, addend as int, self.num_slots()),
            r < self.num_slots(),
    {
        let size = self.cap();
        if addend < size - idx {
            idx + addend
        } else {
            addend - (size - idx)
        }
    }

    /// Cursor `idx` moved back by `subtrahend` slots, wrapping around the
    /// block.
    fn wrap_sub(&self, idx: usize, subtrahend: usize) -> (r: usize)
        requires
            self.well_formed(),
            idx < self.num_slots(),
            subtrahend < self.num_slots(),
        ensures
            r == spec_wrap_sub(idx as int, subtrahend as int, self.num_slots()),
            r < self.num_slots(),
    {
        let size = self.cap();
        if subtrahend <= idx {
            idx - subtrahend
        } else {
            size - subtrahend + idx
        }
    }

    /// Push an element onto the back, or hand it back in an error when
    /// the buffer is full. A full buffer is left exactly as it was.
    pub fn try_push_back(&mut self, value: A::Item) -> (r: Result<(), CapacityError<A::Item>>)
        requires
            old(self).well_formed(),
        ensures
            final(self).well_formed(),
            final(self).spec_capacity() == old(self).spec_capacity(),
            old(self)@.len() < old(self).spec_capacity() ==> r is Ok && final(self)@ =~= old(
                self,
            )@.push(value),
            old(self)@.len() >= old(self).spec_capacity() ==> r == Err::<(), CapacityError<A::Item>>(
                CapacityError { element: value },
            ) && *final(self) == *old(self),
    {
        if self.is_full() {
            Err(CapacityError::new(value))
        } else {
            let head = self.head;
            let new_head = self.wrap_add(self.head, 1);
            proof {
                let s = self.num_slots();
                let t = self.tail as int;
                let h = self.head as int;
                lemma_cursor_of_count(t, h, s);
                assert(!slot_occupied(t, h, s, h));
            }
            self.buf.fill(head, value);
            self.head = new_head;
            proof {
                let s = self.num_slots();
                let t = self.tail as int;
                let h = old(self).head as int;
                let h2 = self.head as int;
                assert forall|i: int| 0 <= i < s && i != h implies (slot_occupied(t, h2, s, i)
                    <==> slot_occupied(t, h, s, i)) by {}
                assert(self.well_formed());
                assert forall|j: int| 0 <= j < spec_count(t, h, s) implies spec_wrap_add(t, j, s)
                    != h && self@[j] == old(self)@[j] by {
                    assert(slot_occupied(t, h, s, spec_wrap_add(t, j, s)));
                }
                assert(self@[spec_count(t, h, s)] == value);
                assert(self@ =~= old(self)@.push(value));
            }
            Ok(())
        }
    }

    /// Push an element onto the front, or hand it back in an error when
    /// the buffer is full. A full buffer is left exactly as it was.
    pub fn try_push_front(&mut self, value: A::Item) -> (r: Result<(), CapacityError<A::Item>>)
        requires
            old(self).well_formed(),
        ensures
            final(self).well_formed(),
            final(self).spec_capacity() == old(self).spec_capacity(),
            old(self)@.len() < old(self).spec_capacity() ==> r is Ok && final(self)@ =~= seq![value]
                + old(self)@,
            old(self)@.len() >= old(self).spec_capacity() ==> r == Err::<(), CapacityError<A::Item>>(
                CapacityError { element: value },
            ) && *final(self) == *old(self),
    {
        if self.is_full() {
            Err(CapacityError::new(value))
        } else {
            let new_tail = self.wrap_sub(self.tail, 1);
            proof {
                let s = self.num_slots();
                let t = self.tail as int;
                let h = self.head as int;
                assert(!slot_occupied(t, h, s, new_tail as int));
            }
            self.tail = new_tail;
            self.buf.fill(new_tail, value);
            proof {
                let s = self.num_slots();
                let t = old(self).tail as int;
                let h = self.head as int;
                let t2 = self.tail as int;
                assert forall|i: int| 0 <= i < s && i != t2 implies (slot_occupied(t2, h, s, i)
                    <==> slot_occupied(t, h, s, i)) by {}
                assert(slot_occupied(t2, h, s, t2));
                assert(self.well_formed());
                assert(self@[0] == value);
                assert forall|j: int| 0 <= j < spec_count(t, h, s) implies spec_wrap_add(t, j, s)
                    != t2 && self@[j + 1] == old(self)@[j] by {
                    assert(slot_occupied(t, h, s, spec_wrap_add(t, j, s)));
                    assert(spec_wrap_add(t2, j + 1, s) == spec_wrap_add(t, j, s));
                }
                assert(self@ =~= seq![value] + old(self)@);
            }
            Ok(())
        }
    }

    /// Remove and return the front element, or an empty result when the
    /// buffer holds nothing. An empty buffer is left exactly as it was.
    pub fn pop_front(&mut self) -> (r: Option<A::Item>)
        requires
            old(self).well_formed(),
        ensures
            final(self).well_formed(),
            final(self).spec_capacity() == old(self).spec_capacity(),
            old(self)@.len() == 0 ==> r is None && *final(self) == *old(self),
            old(self)@.len() > 0 ==> r == Some(old(self)@[0]) && final(self)@ =~= old(
                self,
            )@.subrange(1, old(self)@.len() as int),
    {
        if self.is_empty() {
            None
        } else {
            let tail = self.tail;
            let new_tail = self.wrap_add(self.tail, 1);
            proof {
                let s = self.num_slots();
                let t = self.tail as int;
                let h = self.head as int;
                assert(slot_occupied(t, h, s, t));
            }
            let v = self.buf.empty_out(tail);
            self.tail = new_tail;
            proof {
                let s = self.num_slots();
                let t = old(self).tail as int;
                let h = self.head as int;
                let t2 = self.tail as int;
                assert forall|i: int| 0 <= i < s && i != t implies (slot_occupied(t2, h, s, i)
                    <==> slot_occupied(t, h, s, i)) by {}
                assert(!slot_occupied(t2, h, s, t));
                assert(self.well_formed());
                assert(v == old(self)@[0]);
                assert forall|j: int| 0 <= j < spec_count(t2, h, s) implies spec_wrap_add(
                    t2,
                    j,
                    s,
                ) != t && self@[j] == old(self)@[j + 1] by {
                    assert(slot_occupied(t2, h, s, spec_wrap_add(t2, j, s)));
                    assert(spec_wrap_add(t2, j, s) == spec_wrap_add(t, j + 1, s));
                }
                assert(self@ =~= old(self)@.subrange(1, old(self)@.len() as int));
            }
            Some(v)
        }
    }

    /// Remove and return the back element, or an empty result when the
    /// buffer holds nothing. An empty buffer is left exactly as it was.
    pub fn pop_back(&mut self) -> (r: Option<A::Item>)
        requires
            old(self).well_formed(),
        ensures
            final(self).well_formed(),
            final(self).spec_capacity() == old(self).spec_capacity(),
            old(self)@.len() == 0 ==> r is None && *final(self) == *old(self),
            old(self)@.len() > 0 ==> r == Some(old(self)@.last()) && final(self)@ =~= old(
                self,
            )@.drop_last(),
    {
        if self.is_empty() {
            None
        } else {
            let new_head = self.wrap_sub(self.head, 1);
            proof {
                let s = self.num_slots();
                let t = self.tail as int;
                let h = self.head as int;
                lemma_cursor_of_count(t, h, s);
                assert(spec_wrap_sub(h, 1, s) == spec_wrap_add(t, spec_count(t, h, s) - 1, s));
                assert(slot_occupied(t, h, s, new_head as int));
            }
            self.head = new_head;
            let v = self.buf.empty_out(new_head);
            proof {
                let s = self.num_slots();
                let t = self.tail as int;
                let h = old(self).head as int;
                let h2 = self.head as int;
                assert forall|i: int| 0 <= i < s && i != h2 implies (slot_occupied(t, h2, s, i)
                    <==> slot_occupied(t, h, s, i)) by {}
                assert(!slot_occupied(t, h2, s, h2));
                assert(self.well_formed());
                assert(v == old(self)@.last());
                assert forall|j: int| 0 <= j < spec_count(t, h2, s) implies spec_wrap_add(
                    t,
                    j,
                    s,
                ) != h2 && self@[j] == old(self)@[j] by {
                    assert(slot_occupied(t, h2, s, spec_wrap_add(t, j, s)));
                }
                assert(self@ =~= old(self)@.drop_last());
            }
            Some(v)
        }
    }

    /// Push an element onto the back; the buffer must not be full.
    pub fn push_back(&mut self, value: A::Item)
        requires
            old(self).well_formed(),
            old(self)@.len() < old(self).spec_capacity(),
        ensures
            final(self).well_formed(),
            final(self).spec_capacity() == old(self).spec_capacity(),
            final(self)@ =~= old(self)@.push(value),
    {
        let _ = self.try_push_back(value);
    }

    /// Push an element onto the front; the buffer must not be full.
    pub fn push_front(&mut self, value: A::Item)
        requires
            old(self).well_formed(),
            old(self)@.len() < old(self).spec_capacity(),
        ensures
            final(self).well_formed(),
            final(self).spec_capacity() == old(self).spec_capacity(),
            final(self)@ =~= seq![value] + old(self)@,
    {
        let _ = self.try_push_front(value);
    }

    /// Remove every element, oldest first; an already empty buffer is
    /// left as it is.
    pub fn clear(&mut self)
        requires
            old(self).well_formed(),
        ensures
            final(self).well_formed(),
            final(self).spec_capacity() == old(self).spec_capacity(),
            final(self)@ =~= Seq::<A::Item>::empty(),
    {
        loop
            invariant
                self.well_formed(),
                self.spec_capacity() == old(self).spec_capacity(),
            ensures
                self.well_formed(),
                self.spec_capacity() == old(self).spec_capacity(),
                self@.len() == 0,
            decreases self@.len(),
        {
            match self.pop_front() {
                Some(_) => (),
                None => break,
            }
        }
        proof {
            assert(self@ =~= Seq::<A::Item>::empty());
        }
    }

    /// Reference to the element `index` places behind the front, or an
    /// empty result when fewer elements are held.
    pub fn get(&self, index: usize) -> (r: Option<&A::Item>)
        requires
            self.well_formed(),
        ensures
            index < self@.len() ==> (r matches Some(x) && *x == self@[index as int]),
            index >= self@.len() ==> r is None,
    {
        let len = self.len();
        if index < len {
            let idx = self.wrap_add(self.tail, index);
            proof {
                let s = self.num_slots();
                let t = self.tail as int;
                let h = self.head as int;
                assert(slot_occupied(t, h, s, idx as int));
            }
            match self.buf.slot(idx) {
                Some(x) => Some(x),
                None => None,
            }
        } else {
            None
        }
    }

    /// Mutable reference to the element `index` places behind the front;
    /// that many elements must be held.
    pub fn get_mut(&mut self, index: usize) -> (r: &mut A::Item)
        requires
            old(self).well_formed(),
            index < old(self)@.len(),
        ensures
            final(self).well_formed(),
            final(self).spec_capacity() == old(self).spec_capacity(),
            *r == old(self)@[index as int],
            final(self)@ =~= old(self)@.update(index as int, *final(r)),
    {
        let idx = self.wrap_add(self.tail, index);
        proof {
            let s = self.num_slots();
            let t = self.tail as int;
            let h = self.head as int;
            assert(slot_occupied(t, h, s, idx as int));
            assert forall|j: int| 0 <= j < self@.len() && j != index implies spec_wrap_add(
                t,
                j,
                s,
            ) != idx by {}
        }
        match self.buf.slot_mut(idx) {
            Some(x) => x,
            None => vstd::pervasive::unreached(),
        }
    }

    /// Reference to the element `index` places behind the front; that
    /// many elements must be held. This is the checked form of the
    /// indexing operator, whose out-of-range use is a caller bug.
    pub fn index(&self, index: usize) -> (r: &A::Item)
        requires
            self.well_formed(),
            index < self@.len(),
        ensures
            *r == self@[index as int],
    {
        self.get(index).unwrap()
    }

    /// Mutable reference to the element `index` places behind the front;
    /// that many elements must be held. This is the checked form of the
    /// mutable indexing operator, whose out-of-range use is a caller bug.
    pub fn index_mut(&mut self, index: usize) -> (r: &mut A::Item)
        requires
            old(self).well_formed(),
            index < old(self)@.len(),
        ensures
            final(self).well_formed(),
            final(self).spec_capacity() == old(self).spec_capacity(),
            *r == old(self)@[index as int],
            final(self)@ =~= old(self)@.update(index as int, *final(r)),
    {
        self.get_mut(index)
    }
}

/// Law: pushing an element onto the back of the abstract sequence and then
/// popping the back yields that element and restores the sequence exactly,
/// and with it the length. Together with the contracts of `push_back`
/// (resp. `try_push_back`) and `pop_back`, whose postconditions are stated
/// over these same sequence operations, this says that `push_back(x)`
/// immediately followed by `pop_back()` returns `x` and leaves the buffer
/// as it was.
pub proof fn lemma_push_back_pop_back_round_trip<T>(s: Seq<T>, x: T)
    ensures
        s.push(x).len() == s.len() + 1,
        s.push(x).last() == x,
        s.push(x).drop_last() =~= s,
{
}

/// Law: each push grows the abstract sequence by exactly one element and
/// each pop of a non-empty sequence shrinks it by exactly one. Since every
/// operation's postcondition is stated over these sequence operations and
/// `len` returns the sequence's length, the length after any run of
/// operations that stays within capacity is the number of pushes performed
/// minus the number of pops performed, exactly as for a plain list.
pub proof fn lemma_len_tracks_pushes_and_pops<T>(s: Seq<T>, x: T)
    ensures
        s.push(x).len() == s.len() + 1,
        (seq![x] + s).len() == s.len() + 1,
        s.len() > 0 ==> s.drop_last().len() == s.len() - 1,
        s.len() > 0 ==> s.subrange(1, s.len() as int).len() == s.len() - 1,
{
}

/// The head cursor stands exactly `spec_count(tail, head, size)` logical
/// positions past the tail cursor.
proof fn lemma_cursor_of_count(tail: int, head: int, size: int)
    requires
        0 <= tail < size,
        0 <= head < size,
    ensures
        spec_wrap_add(tail, spec_count(tail, head, size), size) == head,
{
}

} // verus!
