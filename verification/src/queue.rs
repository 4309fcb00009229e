//! A bounded FIFO queue kept in a ring buffer of fixed capacity, with
//! positional insertion and removal.
use vstd::prelude::*;
use vstd::std_specs::cmp::PartialEqSpec;
use crate::search::{has_match, first_match, first_match_at, lemma_first_match_unique, lemma_first_match_exists};

verus! {

/// Number of slots of the ring buffer.
pub const CAPACITY: usize = 30;

/// First physical index of the ring buffer.
pub const INITIAL_INDEX: usize = 0;

/// Maximal number of queued elements.
pub const LIMIT: usize = CAPACITY - INITIAL_INDEX;

/// Physical slot of logical position `i` for a queue whose front is at `head`
/// (valid for `head < LIMIT` and `i <= LIMIT`).
pub open spec fn ring_index(head: int, i: int) -> int {
    if head + i < LIMIT {
        head + i
    } else {
        head + i - LIMIT
    }
}

/// A bounded queue of at most `LIMIT` elements.
#[derive(Clone, Copy)]
pub struct SimpleQueue<T> where T: Copy, T: PartialEq {
    head: usize,
    tail: usize,
    count: usize,
    queue: [Option<T>; LIMIT],
}

impl<T> View for SimpleQueue<T> where T: Copy, T: PartialEq {
    type V = Seq<T>;

    /// The queued elements, front first.
    closed spec fn view(&self) -> Seq<T> {
        Seq::new(self.count as nat, |i: int| self.slot(i)->Some_0)
    }
}

impl<T> SimpleQueue<T> where T: Copy, T: PartialEq {
    /// The slot that holds logical position `i`.
    spec fn slot(&self, i: int) -> Option<T> {
        self.queue@[ring_index(self.head as int, i)]
    }

    /// Well-formedness: the `count` slots from `head` on are filled and
    /// `tail` is the slot just behind them.
    pub closed spec fn wf(&self) -> bool {
        &&& self.head < LIMIT
        &&& self.count <= LIMIT
        &&& self.tail == ring_index(self.head as int, self.count as int)
        &&& forall|i: int| 0 <= i < self.count ==> (#[trigger] self.slot(i)) is Some
    }

    /// A well-formed queue holds at most `LIMIT` elements.
    pub proof fn lemma_len_bound(&self)
        requires
            self.wf(),
        ensures
            self@.len() <= LIMIT,
    {
    }

    /// An empty queue.
    pub fn new() -> (r: Self)
        ensures
            r.wf(),
            r@ == Seq::<T>::empty(),
    {
        let r = SimpleQueue { head: INITIAL_INDEX, tail: INITIAL_INDEX, count: 0, queue: [None; LIMIT] };
        assert(r@ =~= Seq::<T>::empty());
        r
    }

    /// Whether `index` is below the last physical slot, so that the next slot
    /// is `index + 1` and not a wrap to the start.
    fn check_index_limit(index: usize) -> (r: bool)
        ensures
            r == (index < LIMIT - 1),
    {
        index < LIMIT - 1
    }

    /// The physical slot of logical position `idx`.
    fn get_index_in_queue(&self, idx: usize) -> (r: usize)
        requires
            self.head < LIMIT,
            idx <= LIMIT,
        ensures
            r == ring_index(self.head as int, idx as int),
    {
        if idx + self.head > LIMIT - 1 {
            idx + self.head - LIMIT
        } else {
            idx + self.head
        }
    }

    /// The number of queued elements.
    pub fn len(&self) -> (r: usize)
        requires
            self.wf(),
        ensures
            r == self@.len(),
    {
        self.count
    }

    /// Whether the queue holds no element.
    pub fn is_empty(&self) -> (r: bool)
        requires
            self.wf(),
        ensures
            r == (self@.len() == 0),
    {
        self.len() == 0
    }

    /// Whether the queue holds at least one element.
    pub fn is_existing(&self) -> (r: bool)
        requires
            self.wf(),
        ensures
            r == (self@.len() > 0),
    {
        self.len() > 0
    }

    /// Appends `data` at the back; a full queue is left unchanged.
    pub fn enqueue(&mut self, data: T)
        requires
            old(self).wf(),
        ensures
            final(self).wf(),
            old(self)@.len() == LIMIT ==> final(self)@ == old(self)@,
            old(self)@.len() < LIMIT ==> final(self)@ == old(self)@.push(data),
    {
        if self.len() == LIMIT {
            return;
        }
        let ghost old_self = *self;
        self.queue[self.tail] = Some(data);
        self.count = self.count + 1;
        if Self::check_index_limit(self.tail) {
            self.tail = self.tail + 1;
        } else {
            self.tail = INITIAL_INDEX;
        }
        assert forall|i: int| 0 <= i < self.count implies (#[trigger] self.slot(i)) is Some by {
            if i < old_self.count {
                assert(old_self.slot(i) is Some);
            }
        }
        assert(self@ =~= old_self@.push(data)) by {
            assert forall|i: int| 0 <= i < old_self.count implies self.slot(i) == old_self.slot(i) by {}
        }
    }

    /// Removes and returns the front element; `None` when empty.
    pub fn dequeue(&mut self) -> (r: Option<T>)
        requires
            old(self).wf(),
        ensures
            final(self).wf(),
            old(self)@.len() == 0 ==> r is None && final(self)@ == old(self)@,
            old(self)@.len() > 0 ==> r == Some(old(self)@[0]) && final(self)@ == old(self)@.drop_first(),
    {
        if self.len() == 0 {
            return None;
        }
        let ghost old_self = *self;
        assert(self.slot(0) is Some);
        let data = self.queue[self.head];
        self.count = self.count - 1;
        if Self::check_index_limit(self.head) {
            self.head = self.head + 1;
        } else {
            self.head = INITIAL_INDEX;
        }
        assert forall|i: int| 0 <= i < self.count implies #[trigger] self.slot(i) == old_self.slot(i + 1) by {}
        assert forall|i: int| 0 <= i < self.count implies (#[trigger] self.slot(i)) is Some by {
            assert(self.slot(i) == old_self.slot(i + 1));
        }
        assert(self@ =~= old_self@.drop_first());
        data
    }

    /// Inserts `data` at the front; a full queue is left unchanged.
    pub fn enqueue_front(&mut self, data: T)
        requires
            old(self).wf(),
        ensures
            final(self).wf(),
            old(self)@.len() == LIMIT ==> final(self)@ == old(self)@,
            old(self)@.len() < LIMIT ==> final(self)@ == old(self)@.insert(0, data),
    {
        self.add(data, 0);
    }

    /// Removes and returns the front element; `None` when empty. The argument
    /// is not used.
    pub fn dequeue_front(&mut self, data: T) -> (r: Option<T>)
        requires
            old(self).wf(),
        ensures
            final(self).wf(),
            old(self)@.len() == 0 ==> r is None && final(self)@ == old(self)@,
            old(self)@.len() > 0 ==> r == Some(old(self)@[0]) && final(self)@ == old(self)@.remove(0),
    {
        self.remove(0)
    }

    /// Inserts `data` so that it stands at position `index`; a full queue is
    /// left unchanged, whatever `index` is.
    pub fn add(&mut self, data: T, index: usize)
        requires
            old(self).wf(),
            old(self)@.len() == LIMIT || index <= old(self)@.len(),
        ensures
            final(self).wf(),
            old(self)@.len() == LIMIT ==> final(self)@ == old(self)@,
            old(self)@.len() < LIMIT ==> final(self)@ == old(self)@.insert(index as int, data),
    {
        if self.len() == LIMIT {
            return;
        }
        if index == self.len() {
            self.enqueue(data);
            assert(old(self)@.push(data) =~= old(self)@.insert(index as int, data));
            return;
        }
        let ghost old_self = *self;
        let len = self.len();
        let mut j: usize = len;
        while j > index
            invariant
                index <= j <= len,
                len == old_self.count,
                len < LIMIT,
                self.head == old_self.head,
                self.count == old_self.count,
                self.tail == old_self.tail,
                old_self.wf(),
                forall|m: int| 0 <= m < j ==> #[trigger] self.slot(m) == old_self.slot(m),
                forall|m: int| j < m <= len ==> #[trigger] self.slot(m) == old_self.slot(m - 1),
            decreases j,
        {
            let dst = self.get_index_in_queue(j);
            let src = self.get_index_in_queue(j - 1);
            let v = self.queue[src];
            let ghost prev = *self;
            self.queue[dst] = v;
            assert forall|m: int| 0 <= m <= LIMIT && m != j implies #[trigger] self.slot(m) == prev.slot(m) by {}
            assert(self.slot(j as int) == prev.slot(j - 1));
            j = j - 1;
        }
        let ghost shifted = *self;
        let dst = self.get_index_in_queue(index);
        self.queue[dst] = Some(data);
        assert forall|m: int| 0 <= m < LIMIT && m != index implies #[trigger] self.slot(m) == shifted.slot(m) by {}
        self.count = self.count + 1;
        if Self::check_index_limit(self.tail) {
            self.tail = self.tail + 1;
        } else {
            self.tail = INITIAL_INDEX;
        }
        assert forall|m: int| 0 <= m < self.count implies (#[trigger] self.slot(m)) is Some by {
            if m < index {
                assert(shifted.slot(m) == old_self.slot(m));
                assert(old_self.slot(m) is Some);
            } else if m > index {
                assert(shifted.slot(m) == old_self.slot(m - 1));
                assert(old_self.slot(m - 1) is Some);
            }
        }
        assert(self@ =~= old_self@.insert(index as int, data)) by {
            assert forall|m: int| 0 <= m < self.count implies #[trigger] self@[m] == old_self@.insert(index as int, data)[m] by {
                if m < index {
                    assert(shifted.slot(m) == old_self.slot(m));
                } else if m > index {
                    assert(shifted.slot(m) == old_self.slot(m - 1));
                }
            }
        }
    }

    /// Removes and returns the element at position `index`; `None` when
    /// there is no such position.
    pub fn remove(&mut self, index: usize) -> (r: Option<T>)
        requires
            old(self).wf(),
        ensures
            final(self).wf(),
            index >= old(self)@.len() ==> r is None && final(self)@ == old(self)@,
            index < old(self)@.len() ==> r == Some(old(self)@[index as int]) && final(self)@
                == old(self)@.remove(index as int),
    {
        if index >= self.len() {
            return None;
        }
        if index == 0 {
            let r = self.dequeue();
            assert(old(self)@.drop_first() =~= old(self)@.remove(0));
            return r;
        }
        let ghost old_self = *self;
        let len = self.len();
        let at = self.get_index_in_queue(index);
        assert(self.slot(index as int) is Some);
        let data = self.queue[at];
        let mut j: usize = index;
        while j + 1 < len
            invariant
                index <= j < len,
                len == old_self.count,
                len <= LIMIT,
                self.head == old_self.head,
                self.count == old_self.count,
                self.tail == old_self.tail,
                old_self.wf(),
                forall|m: int| 0 <= m < index ==> #[trigger] self.slot(m) == old_self.slot(m),
                forall|m: int| index <= m < j ==> #[trigger] self.slot(m) == old_self.slot(m + 1),
                forall|m: int| j <= m < len ==> #[trigger] self.slot(m) == old_self.slot(m),
            decreases len - j,
        {
            let dst = self.get_index_in_queue(j);
            let src = self.get_index_in_queue(j + 1);
            let v = self.queue[src];
            let ghost prev = *self;
            self.queue[dst] = v;
            assert forall|m: int| 0 <= m < LIMIT && m != j implies #[trigger] self.slot(m) == prev.slot(m) by {}
            assert(self.slot(j as int) == prev.slot(j + 1));
            j = j + 1;
        }
        let ghost shifted = *self;
        self.count = self.count - 1;
        if self.tail == INITIAL_INDEX {
            self.tail = LIMIT - 1;
        } else {
            self.tail = self.tail - 1;
        }
        assert forall|m: int| 0 <= m < self.count implies (#[trigger] self.slot(m)) is Some by {
            assert(self.slot(m) == shifted.slot(m));
            if m < index {
                assert(old_self.slot(m) is Some);
            } else {
                assert(old_self.slot(m + 1) is Some);
            }
        }
        assert(self@ =~= old_self@.remove(index as int)) by {
            assert forall|m: int| 0 <= m < self.count implies #[trigger] self@[m] == old_self@.remove(index as int)[m] by {
                assert(self.slot(m) == shifted.slot(m));
                if m < index {
                    assert(shifted.slot(m) == old_self.slot(m));
                } else {
                    assert(shifted.slot(m) == old_self.slot(m + 1));
                }
            }
        }
        data
    }

    /// The element at position `idx`, if any.
    pub fn get(&self, idx: usize) -> (r: Option<T>)
        requires
            self.wf(),
        ensures
            idx < self@.len() ==> r == Some(self@[idx as int]),
            idx >= self@.len() ==> r is None,
    {
        if idx >= self.len() {
            return None;
        }
        let i = self.get_index_in_queue(idx);
        self.queue[i]
    }

    /// The first position whose element equals `data`.
    pub fn get_position_in_queue(&self, data: T) -> (r: Result<usize, String>)
        requires
            self.wf(),
            T::obeys_eq_spec(),
        ensures
            self@.len() == 0 ==> (r matches Err(e) && e@ == "queue is empty."@),
            self@.len() > 0 && !has_match(self@, data) ==> (r matches Err(e) && e@
                == "data is not existing"@),
            has_match(self@, data) ==> (r matches Ok(p) && p == first_match(self@, data)),
    {
        if self.len() == 0 {
            return Err("queue is empty.".to_owned());
        }
        let len = self.len();
        let mut i: usize = 0;
        while i < len
            invariant
                self.wf(),
                T::obeys_eq_spec(),
                len == self@.len(),
                0 <= i <= len,
                forall|j: int| 0 <= j < i ==> !data.eq_spec(&#[trigger] self@[j]),
            decreases len - i,
        {
            let v = self.get(i).unwrap();
            if data == v {
                proof {
                    assert(first_match_at(self@, data, i as int));
                    lemma_first_match_unique(self@, data, i as int);
                }
                return Ok(i);
            }
            i = i + 1;
        }
        Err("data is not existing".to_owned())
    }

    /// Replaces the first element equal to `data` by `data`.
    pub fn update(&mut self, data: T) -> (r: Result<(), String>)
        requires
            old(self).wf(),
            T::obeys_eq_spec(),
        ensures
            final(self).wf(),
            !has_match(old(self)@, data) ==> (r matches Err(e) && e@ == "Error in update queue."@
                && final(self)@ == old(self)@),
            has_match(old(self)@, data) ==> r is Ok && final(self)@ == old(self)@.update(
                first_match(old(self)@, data),
                data,
            ),
    {
        let index = match self.get_position_in_queue(data) {
            Ok(i) => {
                proof {
                    lemma_first_match_exists(self@, data);
                }
                i
            },
            Err(_) => {
                return Err("Error in update queue.".to_owned());
            },
        };
        let ghost old_self = *self;
        let at = self.get_index_in_queue(index);
        self.queue[at] = Some(data);
        assert forall|m: int| 0 <= m < self.count implies (#[trigger] self.slot(m)) is Some by {
            if m != index {
                assert(old_self.slot(m) is Some);
            }
        }
        assert(self@ =~= old_self@.update(index as int, data));
        Ok(())
    }

    /// Removes the first element equal to `data`.
    pub fn remove_entry(&mut self, data: T) -> (r: Result<(), String>)
        requires
            old(self).wf(),
            T::obeys_eq_spec(),
        ensures
            final(self).wf(),
            !has_match(old(self)@, data) ==> (r matches Err(e) && e@
                == "Removing Target is not existing."@ && final(self)@ == old(self)@),
            has_match(old(self)@, data) ==> r is Ok && final(self)@ == old(self)@.remove(
                first_match(old(self)@, data),
            ),
    {
        let len = self.len();
        let mut idx: usize = 0;
        while idx < len
            invariant
                self.wf(),
                self@ == old(self)@,
                T::obeys_eq_spec(),
                len == self@.len(),
                0 <= idx <= len,
                forall|j: int| 0 <= j < idx ==> !data.eq_spec(&#[trigger] self@[j]),
            decreases len - idx,
        {
            let i = self.get_index_in_queue(idx);
            assert(self.slot(idx as int) is Some);
            let v = self.queue[i].unwrap();
            assert(v == self@[idx as int]);
            if data == v {
                proof {
                    assert(first_match_at(self@, data, idx as int));
                    lemma_first_match_unique(self@, data, idx as int);
                }
                self.remove(idx);
                return Ok(());
            }
            idx = idx + 1;
        }
        Err("Removing Target is not existing.".to_owned())
    }

    /// Empties the queue.
    pub fn clear(&mut self)
        ensures
            final(self).wf(),
            final(self)@ == Seq::<T>::empty(),
    {
        self.queue = [None; LIMIT];
        self.head = INITIAL_INDEX;
        self.tail = INITIAL_INDEX;
        self.count = 0;
        assert(self@ =~= Seq::<T>::empty());
    }
}

/// Adding `x` at position `i` and then removing position `i` gives `x`
/// back and leaves the queue as it was.
pub proof fn lemma_add_then_remove<T>(q: Seq<T>, i: int, x: T)
    requires
        0 <= i <= q.len(),
    ensures
        q.insert(i, x)[i] == x,
        q.insert(i, x).remove(i) == q,
{
    assert(q.insert(i, x).remove(i) =~= q);
}

/// Elements leave in the order they came: after `x` is enqueued behind a
/// nonempty queue, its front still leaves first, and what stays is the rest
/// with `x` behind it.
pub proof fn lemma_enqueue_then_dequeue<T>(q: Seq<T>, x: T)
    requires
        q.len() > 0,
    ensures
        q.push(x)[0] == q[0],
        q.push(x).drop_first() == q.drop_first().push(x),
{
    assert(q.push(x).drop_first() =~= q.drop_first().push(x));
}

/// What a queue holds after `x` is enqueued into an empty queue and one
/// element is dequeued: `x` came out and nothing is left.
pub proof fn lemma_enqueue_then_dequeue_empty<T>(x: T)
    ensures
        Seq::<T>::empty().push(x)[0] == x,
        Seq::<T>::empty().push(x).drop_first() == Seq::<T>::empty(),
{
    assert(Seq::<T>::empty().push(x).drop_first() =~= Seq::<T>::empty());
}

} // verus!
