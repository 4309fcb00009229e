//! A doubly linked list. Its nodes live in an arena and are linked by arena
//! index; a node that leaves the list stays in the arena.
use vstd::prelude::*;
use vstd::std_specs::cmp::PartialEqSpec;
use crate::search::{has_match, first_match, first_match_at, lemma_first_match_unique, lemma_first_match_exists};

verus! {

/// A node: the element and the arena indices of its neighbours.
#[derive(Clone, Copy)]
pub struct LinkedListNode<T> where T: Copy, T: PartialEq {
    prev: Option<usize>,
    next: Option<usize>,
    data: T,
}

impl<T> LinkedListNode<T> where T: Copy, T: PartialEq {
    /// The element held by the node.
    pub closed spec fn value(self) -> T {
        self.data
    }

    /// The node's link to the previous node.
    pub closed spec fn prev_link(self) -> Option<usize> {
        self.prev
    }

    /// The node's link to the next node.
    pub closed spec fn next_link(self) -> Option<usize> {
        self.next
    }

    /// An unlinked node holding `data`.
    pub fn new(data: T) -> (r: Self)
        ensures
            r.value() == data,
            r.prev_link() is None,
            r.next_link() is None,
    {
        LinkedListNode { prev: None, next: None, data }
    }
}

/// The link a node at position `i` of `order` has to its predecessor.
pub open spec fn prev_of(order: Seq<usize>, i: int) -> Option<usize> {
    if i == 0 {
        None
    } else {
        Some(order[i - 1])
    }
}

/// The link a node at position `i` of `order` has to its successor.
pub open spec fn next_of(order: Seq<usize>, i: int) -> Option<usize> {
    if i + 1 == order.len() {
        None
    } else {
        Some(order[i + 1])
    }
}

/// The first and last arena index of `order`, if any.
pub open spec fn first_of(order: Seq<usize>) -> Option<usize> {
    if order.len() == 0 {
        None
    } else {
        Some(order[0])
    }
}

/// The last arena index of `order`, if any.
pub open spec fn last_of(order: Seq<usize>) -> Option<usize> {
    if order.len() == 0 {
        None
    } else {
        Some(order.last())
    }
}

/// A doubly linked list of `Copy` elements.
pub struct LinkedList<T> where T: Copy, T: PartialEq {
    nodes: Vec<LinkedListNode<T>>,
    head: Option<usize>,
    tail: Option<usize>,
    count: usize,
    order: Ghost<Seq<usize>>,
}

impl<T> View for LinkedList<T> where T: Copy, T: PartialEq {
    type V = Seq<T>;

    /// The elements from head to tail.
    closed spec fn view(&self) -> Seq<T> {
        Seq::new(self.order@.len(), |i: int| self.nodes@[self.order@[i] as int].data)
    }
}

impl<T> LinkedList<T> where T: Copy, T: PartialEq {
    /// The links of the listed nodes follow `order`.
    spec fn links_ok(nodes: Seq<LinkedListNode<T>>, order: Seq<usize>) -> bool {
        forall|i: int|
            0 <= i < order.len() ==> {
                &&& (#[trigger] nodes[order[i] as int]).prev == prev_of(order, i)
                &&& nodes[order[i] as int].next == next_of(order, i)
            }
    }

    /// Well-formedness: `order` lists distinct arena nodes from head to tail,
    /// and their links agree with it.
    pub closed spec fn wf(&self) -> bool {
        let o = self.order@;
        &&& o.len() == self.count
        &&& self.count <= self.nodes@.len()
        &&& o.no_duplicates()
        &&& forall|i: int| 0 <= i < o.len() ==> #[trigger] o[i] < self.nodes@.len()
        &&& self.head == first_of(o)
        &&& self.tail == last_of(o)
        &&& Self::links_ok(self.nodes@, o)
    }

    /// An empty list.
    pub fn new() -> (r: Self)
        ensures
            r.wf(),
            r@ == Seq::<T>::empty(),
    {
        let r = LinkedList { nodes: Vec::new(), head: None, tail: None, count: 0, order: Ghost(Seq::empty()) };
        assert(r@ =~= Seq::<T>::empty());
        r
    }

    /// The number of elements.
    pub fn len(&self) -> (r: usize)
        requires
            self.wf(),
        ensures
            r == self@.len(),
    {
        self.count
    }

    /// Overwrites the previous-link of arena node `k`.
    fn set_prev(&mut self, k: usize, link: Option<usize>)
        requires
            k < old(self).nodes@.len(),
        ensures
            final(self).nodes@ == old(self).nodes@.update(
                k as int,
                LinkedListNode { prev: link, ..old(self).nodes@[k as int] },
            ),
            final(self).head == old(self).head,
            final(self).tail == old(self).tail,
            final(self).count == old(self).count,
            final(self).order == old(self).order,
    {
        let mut n = self.nodes[k];
        n.prev = link;
        self.nodes.set(k, n);
    }

    /// Overwrites the next-link of arena node `k`.
    fn set_next(&mut self, k: usize, link: Option<usize>)
        requires
            k < old(self).nodes@.len(),
        ensures
            final(self).nodes@ == old(self).nodes@.update(
                k as int,
                LinkedListNode { next: link, ..old(self).nodes@[k as int] },
            ),
            final(self).head == old(self).head,
            final(self).tail == old(self).tail,
            final(self).count == old(self).count,
            final(self).order == old(self).order,
    {
        let mut n = self.nodes[k];
        n.next = link;
        self.nodes.set(k, n);
    }

    /// Takes the node at position `p` out of the list; the node stays in the
    /// arena.
    fn unlink(&mut self, p: usize) -> (k: usize)
        requires
            old(self).wf(),
            p < old(self)@.len(),
        ensures
            final(self).wf(),
            k == old(self).order@[p as int],
            final(self).order@ == old(self).order@.remove(p as int),
            final(self)@ == old(self)@.remove(p as int),
            final(self).nodes@.len() == old(self).nodes@.len(),
            forall|j: int| 0 <= j < final(self).nodes@.len() ==> (#[trigger] final(self).nodes@[j]).data == old(self).nodes@[j].data,
    {
        let ghost o = self.order@;
        let k = self.get_pointer_from_index(p).unwrap();
        let node = self.nodes[k];
        let ghost before = self.nodes@;
        match node.prev {
            Some(a) => {
                assert(a == o[p - 1]);
                self.set_next(a, node.next);
            },
            None => {
                self.head = node.next;
            },
        }
        match node.next {
            Some(b) => {
                assert(b == o[p + 1]);
                self.set_prev(b, node.prev);
            },
            None => {
                self.tail = node.prev;
            },
        }
        self.count = self.count - 1;
        let ghost n = o.remove(p as int);
        self.order = Ghost(n);
        proof {
            assert forall|i: int| 0 <= i < n.len() implies #[trigger] n[i] < self.nodes@.len() by {
                if i < p {
                    assert(n[i] == o[i]);
                } else {
                    assert(n[i] == o[i + 1]);
                }
            }
            assert forall|i: int| 0 <= i < n.len() implies {
                &&& (#[trigger] self.nodes@[n[i] as int]).prev == prev_of(n, i)
                &&& self.nodes@[n[i] as int].next == next_of(n, i)
            } by {
                let oi = if i < p { i } else { i + 1 };
                assert(n[i] == o[oi]);
                assert(o[oi] != o[p as int]);
                if oi == p - 1 {
                    if p + 1 < o.len() {
                        assert(o[oi] != o[p + 1]);
                    }
                } else if oi == p + 1 {
                    if p > 0 {
                        assert(o[oi] != o[p - 1]);
                    }
                } else {
                    if p > 0 {
                        assert(o[oi] != o[p - 1]);
                    }
                    if p + 1 < o.len() {
                        assert(o[oi] != o[p + 1]);
                    }
                }
                assert(before[o[oi] as int].prev == prev_of(o, oi));
                assert(before[o[oi] as int].next == next_of(o, oi));
            }
            assert(n.no_duplicates()) by {
                assert forall|i: int, j: int| 0 <= i < n.len() && 0 <= j < n.len() && i != j implies n[i] != n[j] by {
                    let oi = if i < p { i } else { i + 1 };
                    let oj = if j < p { j } else { j + 1 };
                    assert(n[i] == o[oi]);
                    assert(n[j] == o[oj]);
                }
            }
            if n.len() > 0 {
                if p == 0 {
                    assert(n[0] == o[1]);
                }
                if p == o.len() - 1 {
                    assert(n.last() == o[o.len() - 2]);
                } else {
                    assert(n.last() == o.last());
                }
            }
            assert(self@ =~= old(self)@.remove(p as int)) by {
                assert forall|i: int| 0 <= i < n.len() implies #[trigger] self@[i] == old(self)@.remove(p as int)[i] by {
                    if i < p {
                        assert(n[i] == o[i]);
                    } else {
                        assert(n[i] == o[i + 1]);
                    }
                }
            }
        }
        k
    }

    /// Links arena node `k`, which is not listed, in at position `q`.
    fn link_at(&mut self, k: usize, q: usize)
        requires
            old(self).wf(),
            k < old(self).nodes@.len(),
            !old(self).order@.contains(k),
            q <= old(self)@.len(),
            old(self)@.len() < old(self).nodes@.len(),
        ensures
            final(self).wf(),
            final(self).order@ == old(self).order@.insert(q as int, k),
            final(self)@ == old(self)@.insert(q as int, old(self).nodes@[k as int].data),
            final(self).nodes@.len() == old(self).nodes@.len(),
            forall|j: int| 0 <= j < final(self).nodes@.len() ==> (#[trigger] final(self).nodes@[j]).data == old(self).nodes@[j].data,
    {
        let ghost o = self.order@;
        let ghost before = self.nodes@;
        let arena_len = self.nodes.len();
        assert(self.count < arena_len);
        if q == self.count {
            let mut n = self.nodes[k];
            n.prev = self.tail;
            n.next = None;
            self.nodes.set(k, n);
            match self.tail {
                Some(t) => {
                    self.set_next(t, Some(k));
                },
                None => {
                    self.head = Some(k);
                },
            }
            self.tail = Some(k);
        } else {
            let dest = self.get_pointer_from_index(q).unwrap();
            let before_dest = self.nodes[dest].prev;
            let mut n = self.nodes[k];
            n.prev = before_dest;
            n.next = Some(dest);
            self.nodes.set(k, n);
            self.set_prev(dest, Some(k));
            match before_dest {
                Some(a) => {
                    self.set_next(a, Some(k));
                },
                None => {
                    self.head = Some(k);
                },
            }
        }
        self.count = self.count + 1;
        let ghost n = o.insert(q as int, k);
        self.order = Ghost(n);
        proof {
            assert forall|i: int| 0 <= i < n.len() implies #[trigger] n[i] < self.nodes@.len() by {
                if i < q {
                    assert(n[i] == o[i]);
                } else if i > q {
                    assert(n[i] == o[i - 1]);
                }
            }
            assert forall|i: int| 0 <= i < n.len() implies {
                &&& (#[trigger] self.nodes@[n[i] as int]).prev == prev_of(n, i)
                &&& self.nodes@[n[i] as int].next == next_of(n, i)
            } by {
                if i != q {
                    let oi = if i < q { i } else { i - 1 };
                    assert(n[i] == o[oi]);
                    assert(o[oi] != k);
                    assert(before[o[oi] as int].prev == prev_of(o, oi));
                    assert(before[o[oi] as int].next == next_of(o, oi));
                    if q > 0 && oi != q - 1 {
                        assert(o[oi] != o[q - 1]);
                    }
                    if q < o.len() && oi != q {
                        assert(o[oi] != o[q as int]);
                    }
                }
            }
            assert(n.no_duplicates()) by {
                assert forall|i: int, j: int| 0 <= i < n.len() && 0 <= j < n.len() && i != j implies n[i] != n[j] by {
                    if i != q && j != q {
                        let oi = if i < q { i } else { i - 1 };
                        let oj = if j < q { j } else { j - 1 };
                        assert(n[i] == o[oi]);
                        assert(n[j] == o[oj]);
                    } else if i == q {
                        let oj = if j < q { j } else { j - 1 };
                        assert(n[j] == o[oj]);
                    } else {
                        let oi = if i < q { i } else { i - 1 };
                        assert(n[i] == o[oi]);
                    }
                }
            }
            if q > 0 {
                assert(n[0] == o[0]);
            }
            if q < o.len() {
                assert(n.last() == o.last());
            }
            assert(self@ =~= old(self)@.insert(q as int, before[k as int].data)) by {
                assert forall|i: int| 0 <= i < n.len() implies #[trigger] self@[i] == old(self)@.insert(q as int, before[k as int].data)[i] by {
                    if i < q {
                        assert(n[i] == o[i]);
                    } else if i > q {
                        assert(n[i] == o[i - 1]);
                    }
                }
            }
        }
    }

    /// The arena index of the node at position `idx`.
    fn get_pointer_from_index(&self, idx: usize) -> (r: Option<usize>)
        requires
            self.wf(),
        ensures
            idx < self@.len() ==> r == Some(self.order@[idx as int]),
            idx >= self@.len() ==> r is None,
    {
        if idx >= self.len() {
            return None;
        }
        let mut node = self.head.unwrap();
        let mut i: usize = 0;
        while i < idx
            invariant
                self.wf(),
                idx < self@.len(),
                i <= idx,
                node == self.order@[i as int],
            decreases idx - i,
        {
            assert(self.nodes@[self.order@[i as int] as int].next == next_of(self.order@, i as int));
            node = self.nodes[node].next.unwrap();
            i = i + 1;
        }
        Some(node)
    }

    /// The arena index of the first node whose element equals `data`.
    fn get_pointer_from_data(&self, data: T) -> (r: Option<usize>)
        requires
            self.wf(),
            T::obeys_eq_spec(),
        ensures
            has_match(self@, data) ==> r == Some(self.order@[first_match(self@, data)]),
            !has_match(self@, data) ==> r is None,
    {
        match self.get_position_from_data(data) {
            Some(p) => {
                proof {
                    lemma_first_match_exists(self@, data);
                }
                self.get_pointer_from_index(p)
            },
            None => None,
        }
    }

    /// The first position whose element equals `data`.
    pub fn get_position_from_data(&self, data: T) -> (r: Option<usize>)
        requires
            self.wf(),
            T::obeys_eq_spec(),
        ensures
            has_match(self@, data) ==> (r matches Some(p) && p == first_match(self@, data)),
            !has_match(self@, data) ==> r is None,
    {
        let len = self.len();
        if len == 0 {
            return None;
        }
        let mut idx: usize = 0;
        let mut node = self.head.unwrap();
        while idx < len
            invariant
                self.wf(),
                T::obeys_eq_spec(),
                len == self@.len(),
                0 <= idx <= len,
                idx < len ==> node == self.order@[idx as int],
                forall|j: int| 0 <= j < idx ==> !data.eq_spec(&#[trigger] self@[j]),
            decreases len - idx,
        {
            assert(self.nodes@[self.order@[idx as int] as int].next == next_of(self.order@, idx as int));
            let n = self.nodes[node];
            assert(n.data == self@[idx as int]);
            if data == n.data {
                proof {
                    assert(first_match_at(self@, data, idx as int));
                    lemma_first_match_unique(self@, data, idx as int);
                }
                return Some(idx);
            }
            idx = idx + 1;
            if idx < len {
                node = n.next.unwrap();
            }
        }
        None
    }

    /// The element at position `idx`, if any.
    pub fn get_data_from_position(&self, idx: usize) -> (r: Option<T>)
        requires
            self.wf(),
        ensures
            idx < self@.len() ==> r == Some(self@[idx as int]),
            idx >= self@.len() ==> r is None,
    {
        if idx >= self.count {
            return None;
        }
        let k = self.get_pointer_from_index(idx).unwrap();
        Some(self.nodes[k].data)
    }

    /// The element behind the first element equal to `data`, if both exist.
    pub fn get_next_data(&self, data: T) -> (r: Option<T>)
        requires
            self.wf(),
            T::obeys_eq_spec(),
        ensures
            !has_match(self@, data) ==> r is None,
            has_match(self@, data) && first_match(self@, data) + 1 >= self@.len() ==> r is None,
            has_match(self@, data) && first_match(self@, data) + 1 < self@.len() ==> r == Some(
                self@[first_match(self@, data) + 1],
            ),
    {
        match self.get_position_from_data(data) {
            Some(idx) => {
                proof {
                    lemma_first_match_exists(self@, data);
                }
                if idx + 1 >= self.len() {
                    return None;
                }
                let k = self.get_pointer_from_index(idx + 1).unwrap();
                Some(self.nodes[k].data)
            },
            None => None,
        }
    }

    /// The element before the first element equal to `data`, if both exist.
    pub fn get_prev_data(&self, data: T) -> (r: Option<T>)
        requires
            self.wf(),
            T::obeys_eq_spec(),
        ensures
            !has_match(self@, data) ==> r is None,
            has_match(self@, data) && first_match(self@, data) == 0 ==> r is None,
            has_match(self@, data) && first_match(self@, data) > 0 ==> r == Some(
                self@[first_match(self@, data) - 1],
            ),
    {
        match self.get_position_from_data(data) {
            Some(idx) => {
                proof {
                    lemma_first_match_exists(self@, data);
                }
                if idx == 0 {
                    return None;
                }
                let k = self.get_pointer_from_index(idx - 1).unwrap();
                Some(self.nodes[k].data)
            },
            None => None,
        }
    }

    /// Adds a fresh node holding `data` to the arena.
    fn new_node(&mut self, data: T) -> (k: usize)
        requires
            old(self).wf(),
        ensures
            final(self).wf(),
            final(self)@ == old(self)@,
            final(self).order == old(self).order,
            k == old(self).nodes@.len(),
            final(self).nodes@ == old(self).nodes@.push(LinkedListNode { prev: None, next: None, data }),
    {
        let k = self.nodes.len();
        self.nodes.push(LinkedListNode::new(data));
        assert(self@ =~= old(self)@);
        k
    }

    /// Inserts `data` at the head.
    pub fn push_front(&mut self, data: T) -> (r: Result<(), String>)
        requires
            old(self).wf(),
        ensures
            final(self).wf(),
            r is Ok,
            final(self)@ == old(self)@.insert(0, data),
    {
        let k = self.new_node(data);
        self.link_at(k, 0);
        assert(self@ =~= old(self)@.insert(0, data));
        Ok(())
    }

    /// Appends `data` at the tail.
    pub fn add(&mut self, data: T) -> (r: Result<(), String>)
        requires
            old(self).wf(),
        ensures
            final(self).wf(),
            r is Ok,
            final(self)@ == old(self)@.push(data),
    {
        let k = self.new_node(data);
        let len = self.len();
        self.link_at(k, len);
        assert(self@ =~= old(self)@.push(data));
        Ok(())
    }

    /// Removes the first element equal to `data`.
    pub fn remove(&mut self, data: T) -> (r: Result<(), String>)
        requires
            old(self).wf(),
            T::obeys_eq_spec(),
        ensures
            final(self).wf(),
            old(self)@.len() == 0 ==> (r matches Err(e) && e@ == "LinkedList length is 0."@
                && final(self)@ == old(self)@),
            old(self)@.len() > 0 && !has_match(old(self)@, data) ==> (r matches Err(e) && e@
                == "Data is not existing."@ && final(self)@ == old(self)@),
            has_match(old(self)@, data) ==> r is Ok && final(self)@ == old(self)@.remove(
                first_match(old(self)@, data),
            ),
    {
        if self.len() == 0 {
            return Err("LinkedList length is 0.".to_owned());
        }
        let p = match self.get_position_from_data(data) {
            Some(p) => p,
            None => {
                return Err("Data is not existing.".to_owned());
            },
        };
        proof {
            lemma_first_match_exists(self@, data);
        }
        self.unlink(p);
        Ok(())
    }

    /// Replaces the first element equal to `data` by `data`.
    pub fn update(&mut self, data: T) -> (r: Result<(), String>)
        requires
            old(self).wf(),
            T::obeys_eq_spec(),
        ensures
            final(self).wf(),
            !has_match(old(self)@, data) ==> (r matches Err(e) && e@ == "Data is not existing."@
                && final(self)@ == old(self)@),
            has_match(old(self)@, data) ==> r is Ok && final(self)@ == old(self)@.update(
                first_match(old(self)@, data),
                data,
            ),
    {
        let p = match self.get_position_from_data(data) {
            Some(p) => p,
            None => {
                return Err("Data is not existing.".to_owned());
            },
        };
        proof {
            lemma_first_match_exists(self@, data);
        }
        let k = self.get_pointer_from_index(p).unwrap();
        let mut n = self.nodes[k];
        n.data = data;
        let ghost before = self.nodes@;
        self.nodes.set(k, n);
        proof {
            let o = self.order@;
            assert forall|i: int| 0 <= i < o.len() && i != p implies #[trigger] self.nodes@[o[i] as int] == before[o[i] as int] by {
                assert(o[i] != o[p as int]);
            }
            assert(self@ =~= old(self)@.update(p as int, data));
        }
        Ok(())
    }

    /// Moves the first element equal to `data` to position
    /// `min(idx, len - 1)`. A head element moved to a middle position lands
    /// one place before it, since the destination is counted with the
    /// element still at the head.
    pub fn change_order(&mut self, data: T, idx: usize) -> (r: Result<(), String>)
        requires
            old(self).wf(),
            T::obeys_eq_spec(),
        ensures
            final(self).wf(),
            !has_match(old(self)@, data) ==> (r matches Err(e) && e@
                == "data is not existing in LinkedList"@ && final(self)@ == old(self)@),
            has_match(old(self)@, data) ==> r is Ok && final(self)@ == moved(
                old(self)@,
                first_match(old(self)@, data),
                idx as int,
            ),
    {
        let p = match self.get_position_from_data(data) {
            Some(p) => p,
            None => {
                return Err("data is not existing in LinkedList".to_owned());
            },
        };
        proof {
            lemma_first_match_exists(self@, data);
        }
        let len = self.len();
        let order: usize = if idx >= len {
            len - 1
        } else {
            idx
        };
        if order == p {
            return Ok(());
        }
        let dest: usize = if p == 0 && order < len - 1 {
            order - 1
        } else {
            order
        };
        let ghost s = self@;
        let k = self.unlink(p);
        proof {
            assert(!self.order@.contains(k)) by {
                let o = old(self).order@;
                if self.order@.contains(k) {
                    let j = choose|j: int| 0 <= j < self.order@.len() && self.order@[j] == k;
                    let oj = if j < p { j } else { j + 1 };
                    assert(self.order@[j] == o[oj]);
                }
            }
        }
        self.link_at(k, dest);
        Ok(())
    }
}

/// The sequence `s` after `change_order` moved its element at position `p`
/// towards position `idx`: the target is `min(idx, len - 1)`, and an element
/// taken from the head to a middle position lands one place before it.
pub open spec fn moved<T>(s: Seq<T>, p: int, idx: int) -> Seq<T> {
    let target = if idx >= s.len() { s.len() - 1 } else { idx };
    if target == p {
        s
    } else if p == 0 && target < s.len() - 1 {
        s.remove(p).insert(target - 1, s[p])
    } else {
        s.remove(p).insert(target, s[p])
    }
}

/// Inserting `e` anywhere adds one `e` to the elements.
proof fn lemma_insert_to_multiset<T>(r: Seq<T>, k: int, e: T)
    requires
        0 <= k <= r.len(),
    ensures
        r.insert(k, e).to_multiset() =~= r.to_multiset().insert(e),
{
    broadcast use vstd::seq_lib::group_to_multiset_ensures;

    let t = r.insert(k, e);
    assert(t.remove(k) =~= r);
    assert(t[k] == e);
    assert(t.to_multiset().count(e) > 0) by {
        assert(t.contains(e));
    }
}

/// Moving an element keeps the list's elements: `moved` only reorders.
pub proof fn lemma_moved_keeps_elements<T>(s: Seq<T>, p: int, idx: int)
    requires
        0 <= p < s.len(),
        0 <= idx,
    ensures
        moved(s, p, idx).len() == s.len(),
        moved(s, p, idx).to_multiset() =~= s.to_multiset(),
{
    broadcast use vstd::seq_lib::group_to_multiset_ensures;

    let target = if idx >= s.len() { s.len() - 1 } else { idx };
    if target != p {
        let r = s.remove(p);
        let k = if p == 0 && target < s.len() - 1 { target - 1 } else { target };
        lemma_insert_to_multiset(r, k, s[p]);
        assert(s.to_multiset().count(s[p]) > 0) by {
            assert(s.contains(s[p]));
        }
    }
}

/// Appending `x` to a list that holds no element equal to it, and then
/// removing `x`, gives the list back.
pub proof fn lemma_add_then_remove<T: PartialEq>(s: Seq<T>, x: T)
    requires
        !has_match(s, x),
        x.eq_spec(&x),
    ensures
        has_match(s.push(x), x),
        first_match(s.push(x), x) == s.len(),
        s.push(x).remove(first_match(s.push(x), x)) == s,
{
    let t = s.push(x);
    assert forall|j: int| 0 <= j < s.len() implies !x.eq_spec(&#[trigger] t[j]) by {
        assert(t[j] == s[j]);
    }
    assert(first_match_at(t, x, s.len() as int));
    lemma_first_match_unique(t, x, s.len() as int);
    assert(t.remove(s.len() as int) =~= s);
}

/// Where `change_order` puts the element at position `p` when asked for
/// position `idx` (past the end meaning the last position): an element not
/// at the head lands exactly at the target; the head lands at the target
/// if that is the last position, else one place before it. The other
/// elements keep their order.
pub proof fn lemma_moved_position<T>(s: Seq<T>, p: int, idx: int)
    requires
        0 <= p < s.len(),
        0 <= idx,
    ensures
        ({
            let t = if idx >= s.len() { s.len() - 1 } else { idx };
            let at = if p == 0 && 0 < t < s.len() - 1 { t - 1 } else { t };
            &&& moved(s, p, idx).len() == s.len()
            &&& moved(s, p, idx)[at] == s[p]
            &&& moved(s, p, idx).remove(at) == s.remove(p)
            &&& p > 0 ==> at == t
        }),
{
    let t = if idx >= s.len() { s.len() - 1 } else { idx };
    let at = if p == 0 && 0 < t < s.len() - 1 { t - 1 } else { t };
    if t == p {
        assert(s.remove(p).insert(p, s[p]) =~= s);
        assert(moved(s, p, idx).remove(at) =~= s.remove(p));
    } else {
        let r = s.remove(p);
        assert(r.insert(at, s[p]).remove(at) =~= r);
    }
}

} // verus!
