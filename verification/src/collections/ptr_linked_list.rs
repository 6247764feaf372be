//! A doubly linked list of entries: the list keeps, for each entry, the
//! link record that points to the entries before and after it. Entries are
//! numbered by the list and stay numbered while they are out of it.
use vstd::prelude::*;

verus! {

/// The links of an entry: the entries before and after it.
#[derive(Debug, Clone, Copy, PartialEq, Eq, Structural)]
pub struct PtrLinkedListNode {
    prev: Option<usize>,
    next: Option<usize>,
}

/// The list: its first and last entries and the link record of every
/// entry, in the list or not.
pub struct PtrLinkedList {
    head: Option<usize>,
    tail: Option<usize>,
    nodes: Vec<PtrLinkedListNode>,
    order: Ghost<Seq<usize>>,
}

/// A position in a list: an entry, or none (before the first and after
/// the last).
pub struct CursorMut {
    current: Option<usize>,
}

impl PtrLinkedListNode {
    pub closed spec fn spec_prev(&self) -> Option<usize> {
        self.prev
    }

    pub closed spec fn spec_next(&self) -> Option<usize> {
        self.next
    }

    /// A record that links nothing.
    pub fn new() -> (r: Self)
        ensures
            r.spec_prev() is None,
            r.spec_next() is None,
    {
        PtrLinkedListNode { prev: None, next: None }
    }

    pub fn has_next(&self) -> (r: bool)
        ensures
            r == self.spec_next() is Some,
    {
        self.next.is_some()
    }

    pub fn has_prev(&self) -> (r: bool)
        ensures
            r == self.spec_prev() is Some,
    {
        self.prev.is_some()
    }

    pub fn get_next(&self) -> (r: Option<usize>)
        ensures
            r == self.spec_next(),
    {
        self.next
    }

    pub fn get_prev(&self) -> (r: Option<usize>)
        ensures
            r == self.spec_prev(),
    {
        self.prev
    }
}

/// The entry before the `k`th of `order`.
pub open spec fn prev_of(order: Seq<usize>, k: int) -> Option<usize> {
    if k == 0 {
        None
    } else {
        Some(order[k - 1])
    }
}

/// The entry after the `k`th of `order`.
pub open spec fn next_of(order: Seq<usize>, k: int) -> Option<usize> {
    if k == order.len() - 1 {
        None
    } else {
        Some(order[k + 1])
    }
}

/// The first entry of `order`.
pub open spec fn first_of(order: Seq<usize>) -> Option<usize> {
    if order.len() == 0 {
        None
    } else {
        Some(order[0])
    }
}

/// The last entry of `order`.
pub open spec fn last_of(order: Seq<usize>) -> Option<usize> {
    if order.len() == 0 {
        None
    } else {
        Some(order.last())
    }
}

/// The link records of `nodes` chain the entries of `order` and leave
/// every other entry unlinked.
pub open spec fn links_ok(nodes: Seq<PtrLinkedListNode>, order: Seq<usize>) -> bool {
    &&& order.no_duplicates()
    &&& forall|k: int| 0 <= k < order.len() ==> order[k] < nodes.len()
    &&& forall|k: int|
        0 <= k < order.len() ==> (#[trigger] nodes[order[k] as int]).spec_prev() == prev_of(order, k)
            && nodes[order[k] as int].spec_next() == next_of(order, k)
    &&& forall|e: int|
        0 <= e < nodes.len() && !order.contains(e as usize) ==> (#[trigger] nodes[e]).spec_prev() is None
            && nodes[e].spec_next() is None
}

/// The index of entry `e` in `order`.
pub open spec fn index_in(order: Seq<usize>, e: usize) -> int {
    choose|i: int| 0 <= i < order.len() && order[i] == e
}

proof fn lemma_index_in(order: Seq<usize>, e: usize, k: int)
    requires
        order.no_duplicates(),
        0 <= k < order.len(),
        order[k] == e,
    ensures
        index_in(order, e) == k,
{
    let i = index_in(order, e);
    assert(0 <= i < order.len() && order[i] == e);
}

/// `order` with `e` put at `i`.
pub open spec fn insert_at(order: Seq<usize>, i: int, e: usize) -> Seq<usize> {
    order.subrange(0, i).push(e) + order.subrange(i, order.len() as int)
}

impl PtrLinkedList {
    /// The entries of the list, first to last.
    pub closed spec fn view(&self) -> Seq<usize> {
        self.order@
    }

    /// The number of entries that the list has numbered.
    pub closed spec fn spec_capacity(&self) -> nat {
        self.nodes@.len()
    }

    /// The link record of entry `e`.
    pub closed spec fn spec_node(&self, e: usize) -> PtrLinkedListNode {
        self.nodes@[e as int]
    }

    pub closed spec fn wf(&self) -> bool {
        &&& links_ok(self.nodes@, self.order@)
        &&& self.head == first_of(self.order@)
        &&& self.tail == last_of(self.order@)
    }

    /// Facts of a well-formed list, for its users.
    pub proof fn lemma_wf(&self)
        requires
            self.wf(),
        ensures
            self.view().no_duplicates(),
            forall|k: int| 0 <= k < self.view().len() ==> self.view()[k] < self.spec_capacity(),
            forall|k: int|
                0 <= k < self.view().len() ==> (#[trigger] self.spec_node(self.view()[k])).spec_prev()
                    == prev_of(self.view(), k) && self.spec_node(self.view()[k]).spec_next()
                    == next_of(self.view(), k),
            forall|e: usize|
                e < self.spec_capacity() && !self.view().contains(e) ==> (#[trigger] self.spec_node(
                    e,
                )).spec_prev() is None && self.spec_node(e).spec_next() is None,
    {
        assert forall|e: usize|
            e < self.spec_capacity() && !self.view().contains(e) implies (#[trigger] self.spec_node(
            e,
        )).spec_prev() is None && self.spec_node(e).spec_next() is None by {
            assert(self.nodes@[e as int] == self.spec_node(e));
        }
    }

    pub fn new() -> (r: Self)
        ensures
            r.wf(),
            r.view() == Seq::<usize>::empty(),
            r.spec_capacity() == 0,
    {
        PtrLinkedList { head: None, tail: None, nodes: Vec::new(), order: Ghost(Seq::empty()) }
    }

    /// Numbers a new entry, out of the list.
    pub fn new_entry(&mut self) -> (e: usize)
        requires
            old(self).wf(),
            old(self).spec_capacity() < usize::MAX,
        ensures
            final(self).wf(),
            e == old(self).spec_capacity(),
            final(self).spec_capacity() == old(self).spec_capacity() + 1,
            final(self).view() == old(self).view(),
    {
        let e = self.nodes.len();
        self.nodes.push(PtrLinkedListNode::new());
        proof {
            assert forall|k: int| 0 <= k < self.order@.len() implies self.order@[k] != e by {
                assert(self.order@[k] < e);
            }
            assert(!self.order@.contains(e));
        }
        e
    }

    pub fn is_empty(&self) -> (r: bool)
        requires
            self.wf(),
        ensures
            r == (self.view().len() == 0),
    {
        self.head.is_none()
    }

    pub fn get_first_entry(&self) -> (r: Option<usize>)
        requires
            self.wf(),
        ensures
            r == first_of(self.view()),
    {
        self.head
    }

    pub fn get_last_entry(&self) -> (r: Option<usize>)
        requires
            self.wf(),
        ensures
            r == last_of(self.view()),
    {
        self.tail
    }

    /// The link record of entry `e`.
    pub fn get_node(&self, e: usize) -> (r: PtrLinkedListNode)
        requires
            self.wf(),
            e < self.spec_capacity(),
        ensures
            r == self.spec_node(e),
    {
        self.nodes[e]
    }

    fn set_prev(&mut self, e: usize, prev: Option<usize>)
        requires
            e < old(self).nodes@.len(),
        ensures
            final(self).nodes@ == old(self).nodes@.update(
                e as int,
                PtrLinkedListNode { prev, next: old(self).nodes@[e as int].next },
            ),
            final(self).head == old(self).head,
            final(self).tail == old(self).tail,
            final(self).order == old(self).order,
    {
        let n = self.nodes[e];
        self.nodes.set(e, PtrLinkedListNode { prev, next: n.next });
    }

    fn set_next(&mut self, e: usize, next: Option<usize>)
        requires
            e < old(self).nodes@.len(),
        ensures
            final(self).nodes@ == old(self).nodes@.update(
                e as int,
                PtrLinkedListNode { prev: old(self).nodes@[e as int].prev, next },
            ),
            final(self).head == old(self).head,
            final(self).tail == old(self).tail,
            final(self).order == old(self).order,
    {
        let n = self.nodes[e];
        self.nodes.set(e, PtrLinkedListNode { prev: n.prev, next });
    }

    /// Puts entry `entry` first.
    pub fn insert_head(&mut self, entry: usize)
        requires
            old(self).wf(),
            entry < old(self).spec_capacity(),
            !old(self).view().contains(entry),
        ensures
            final(self).wf(),
            final(self).view() == seq![entry] + old(self).view(),
            final(self).spec_capacity() == old(self).spec_capacity(),
    {
        let ghost o = self.order@;
        let ghost n0 = self.nodes@;
        match self.head {
            Some(h) => {
                self.set_prev(h, Some(entry));
                self.nodes.set(entry, PtrLinkedListNode { prev: None, next: Some(h) });
                self.head = Some(entry);
            },
            None => {
                self.nodes.set(entry, PtrLinkedListNode { prev: None, next: None });
                self.head = Some(entry);
                self.tail = Some(entry);
            },
        }
        let ghost no = seq![entry] + o;
        self.order = Ghost(no);
        proof {
            assert(no.no_duplicates()) by {
                assert forall|i: int, j: int| 0 <= i < j < no.len() implies no[i] != no[j] by {
                    if i == 0 {
                        assert(o.contains(no[j]));
                    } else {
                        assert(no[i] == o[i - 1] && no[j] == o[j - 1]);
                    }
                }
            }
            assert forall|k: int| 0 <= k < no.len() implies (#[trigger] self.nodes@[no[k] as int]).spec_prev()
                == prev_of(no, k) && self.nodes@[no[k] as int].spec_next() == next_of(no, k) by {
                if k >= 1 {
                    assert(no[k] == o[k - 1]);
                    assert(n0[o[k - 1] as int].spec_prev() == prev_of(o, k - 1));
                    assert(o[k - 1] != entry) by {
                        assert(o.contains(o[k - 1]));
                    }
                }
            }
            assert forall|e: int|
                0 <= e < self.nodes@.len() && !no.contains(e as usize) implies (
            #[trigger] self.nodes@[e]).spec_prev() is None && self.nodes@[e].spec_next() is None by {
                assert(e != entry) by {
                    assert(no[0] == entry);
                }
                assert(!o.contains(e as usize)) by {
                    if o.contains(e as usize) {
                        let k = choose|k: int| 0 <= k < o.len() && o[k] == e as usize;
                        assert(no[k + 1] == e as usize);
                    }
                }
                if o.len() > 0 {
                    assert(e != o[0]) by {
                        assert(o.contains(o[0]));
                    }
                }
            }
            assert(last_of(no) == last_of(o) || o.len() == 0);
        }
    }

    /// Puts entry `entry` last.
    pub fn insert_tail(&mut self, entry: usize)
        requires
            old(self).wf(),
            entry < old(self).spec_capacity(),
            !old(self).view().contains(entry),
        ensures
            final(self).wf(),
            final(self).view() == old(self).view().push(entry),
            final(self).spec_capacity() == old(self).spec_capacity(),
    {
        let ghost o = self.order@;
        let ghost n0 = self.nodes@;
        match self.tail {
            Some(t) => {
                self.set_next(t, Some(entry));
                self.nodes.set(entry, PtrLinkedListNode { prev: Some(t), next: None });
                self.tail = Some(entry);
            },
            None => {
                self.nodes.set(entry, PtrLinkedListNode { prev: None, next: None });
                self.head = Some(entry);
                self.tail = Some(entry);
            },
        }
        let ghost no = o.push(entry);
        self.order = Ghost(no);
        proof {
            assert(no.no_duplicates()) by {
                assert forall|i: int, j: int| 0 <= i < j < no.len() implies no[i] != no[j] by {
                    if j == o.len() {
                        assert(o.contains(no[i]));
                    }
                }
            }
            assert forall|k: int| 0 <= k < no.len() implies (#[trigger] self.nodes@[no[k] as int]).spec_prev()
                == prev_of(no, k) && self.nodes@[no[k] as int].spec_next() == next_of(no, k) by {
                if k < o.len() {
                    assert(no[k] == o[k]);
                    assert(n0[o[k] as int].spec_prev() == prev_of(o, k));
                    assert(o[k] != entry) by {
                        assert(o.contains(o[k]));
                    }
                }
            }
            assert forall|e: int|
                0 <= e < self.nodes@.len() && !no.contains(e as usize) implies (
            #[trigger] self.nodes@[e]).spec_prev() is None && self.nodes@[e].spec_next() is None by {
                assert(e != entry) by {
                    assert(no[o.len() as int] == entry);
                }
                assert(!o.contains(e as usize)) by {
                    if o.contains(e as usize) {
                        let k = choose|k: int| 0 <= k < o.len() && o[k] == e as usize;
                        assert(no[k] == e as usize);
                    }
                }
                if o.len() > 0 {
                    assert(e != o.last()) by {
                        assert(o.contains(o[o.len() - 1]));
                    }
                }
            }
        }
    }

    /// Takes entry `entry` out of the list; the others keep their order.
    pub fn remove(&mut self, entry: usize)
        requires
            old(self).wf(),
            old(self).view().contains(entry),
        ensures
            final(self).wf(),
            final(self).view() == old(self).view().remove(index_in(old(self).view(), entry)),
            final(self).spec_capacity() == old(self).spec_capacity(),
    {
        let ghost o = self.order@;
        let ghost n0 = self.nodes@;
        let ghost i = index_in(o, entry);
        proof {
            assert(0 <= i < o.len() && o[i] == entry);
        }
        let node = self.nodes[entry];
        match (node.prev, node.next) {
            (Some(p), Some(n)) => {
                self.set_next(p, Some(n));
                self.set_prev(n, Some(p));
            },
            (Some(p), None) => {
                self.set_next(p, None);
                self.tail = Some(p);
            },
            (None, Some(n)) => {
                self.set_prev(n, None);
                self.head = Some(n);
            },
            (None, None) => {
                self.head = None;
                self.tail = None;
            },
        }
        self.nodes.set(entry, PtrLinkedListNode { prev: None, next: None });
        let ghost no = o.remove(i);
        self.order = Ghost(no);
        let len = self.nodes.len();
        proof {
            assert(self.nodes@.len() == len);
            assert forall|a: int, b: int| 0 <= a < b < no.len() implies no[a] != no[b] by {
                let a2 = if a < i { a } else { a + 1 };
                let b2 = if b < i { b } else { b + 1 };
                assert(no[a] == o[a2] && no[b] == o[b2]);
            }
            assert(no.no_duplicates());
            assert forall|k: int| 0 <= k < no.len() implies (#[trigger] self.nodes@[no[k] as int]).spec_prev()
                == prev_of(no, k) && self.nodes@[no[k] as int].spec_next() == next_of(no, k) by {
                let k2 = if k < i { k } else { k + 1 };
                assert(no[k] == o[k2]);
                assert(n0[o[k2] as int].spec_prev() == prev_of(o, k2));
                assert(o[k2] != entry);
                if k2 == i - 1 {
                } else if k2 == i + 1 {
                } else {
                    if i > 0 {
                        assert(o[k2] != o[i - 1]);
                    }
                    if i < o.len() - 1 {
                        assert(o[k2] != o[i + 1]);
                    }
                }
            }
            assert forall|e: int|
                0 <= e < self.nodes@.len() && !no.contains(e as usize) implies (
            #[trigger] self.nodes@[e]).spec_prev() is None && self.nodes@[e].spec_next() is None by {
                if e != entry {
                    assert(!o.contains(e as usize)) by {
                        if o.contains(e as usize) {
                            let k = choose|k: int| 0 <= k < o.len() && o[k] == e as usize;
                            let k3 = if k < i { k } else { k - 1 };
                            assert(o[i] == entry);
                            assert(k != i);
                            assert(no[k3] == e as usize);
                        }
                    }
                    if i > 0 {
                        assert(e != o[i - 1]) by {
                            assert(o.contains(o[i - 1]));
                        }
                    }
                    if i < o.len() - 1 {
                        assert(e != o[i + 1]) by {
                            assert(o.contains(o[i + 1]));
                        }
                    }
                }
            }
            if no.len() > 0 {
                if i == 0 {
                    assert(no[0] == o[1]);
                }
                if i == o.len() - 1 {
                    assert(no.last() == o[o.len() - 2]);
                }
            }
        }
    }

    /// Puts entry `next` right after entry `entry`.
    pub fn insert_after(&mut self, entry: usize, next: usize)
        requires
            old(self).wf(),
            old(self).view().contains(entry),
            next < old(self).spec_capacity(),
            !old(self).view().contains(next),
        ensures
            final(self).wf(),
            final(self).view() == insert_at(old(self).view(), index_in(old(self).view(), entry) + 1, next),
            final(self).spec_capacity() == old(self).spec_capacity(),
    {
        let ghost o = self.order@;
        let ghost n0 = self.nodes@;
        let ghost i = index_in(o, entry);
        proof {
            assert(0 <= i < o.len() && o[i] == entry);
        }
        let node = self.nodes[entry];
        match node.next {
            None => {
                self.insert_tail(next);
                proof {
                    assert(insert_at(o, i + 1, next) =~= o.push(next));
                }
            },
            Some(n) => {
                self.set_next(entry, Some(next));
                self.set_prev(n, Some(next));
                self.nodes.set(next, PtrLinkedListNode { prev: Some(entry), next: Some(n) });
                let ghost no = insert_at(o, i + 1, next);
                self.order = Ghost(no);
                proof {
                    lemma_insert_at(o, i + 1, next);
                    assert forall|k: int| 0 <= k < no.len() implies (#[trigger] self.nodes@[no[k] as int]).spec_prev()
                        == prev_of(no, k) && self.nodes@[no[k] as int].spec_next() == next_of(no, k) by {
                        if k < i + 1 {
                            assert(no[k] == o[k]);
                            assert(n0[o[k] as int].spec_prev() == prev_of(o, k));
                            assert(o[k] != next) by {
                                assert(o.contains(o[k]));
                            }
                            if k < i {
                                assert(o[k] != o[i + 1]);
                            }
                        } else if k > i + 1 {
                            assert(no[k] == o[k - 1]);
                            assert(n0[o[k - 1] as int].spec_prev() == prev_of(o, k - 1));
                            assert(o[k - 1] != next) by {
                                assert(o.contains(o[k - 1]));
                            }
                            if k - 1 > i + 1 {
                                assert(o[k - 1] != o[i + 1]);
                            }
                            assert(o[k - 1] != o[i]);
                        }
                    }
                    assert forall|e: int|
                        0 <= e < self.nodes@.len() && !no.contains(e as usize) implies (
                    #[trigger] self.nodes@[e]).spec_prev() is None && self.nodes@[e].spec_next() is None by {
                        assert(e != next) by {
                            assert(no[i + 1] == next);
                        }
                        assert(e != entry) by {
                            assert(no[i] == entry);
                        }
                        assert(e != o[i + 1]) by {
                            assert(no[i + 2] == o[i + 1]);
                        }
                        assert(!o.contains(e as usize)) by {
                            if o.contains(e as usize) {
                                let k = choose|k: int| 0 <= k < o.len() && o[k] == e as usize;
                                if k <= i {
                                    assert(no[k] == e as usize);
                                } else {
                                    assert(no[k + 1] == e as usize);
                                }
                            }
                        }
                    }
                    assert(last_of(no) == last_of(o));
                }
            },
        }
    }

    /// Puts entry `prev` right before entry `entry`.
    pub fn insert_before(&mut self, entry: usize, prev: usize)
        requires
            old(self).wf(),
            old(self).view().contains(entry),
            prev < old(self).spec_capacity(),
            !old(self).view().contains(prev),
        ensures
            final(self).wf(),
            final(self).view() == insert_at(old(self).view(), index_in(old(self).view(), entry), prev),
            final(self).spec_capacity() == old(self).spec_capacity(),
    {
        let ghost o = self.order@;
        let ghost n0 = self.nodes@;
        let ghost i = index_in(o, entry);
        proof {
            assert(0 <= i < o.len() && o[i] == entry);
        }
        let node = self.nodes[entry];
        match node.prev {
            None => {
                self.insert_head(prev);
                proof {
                    assert(insert_at(o, 0, prev) =~= seq![prev] + o);
                }
            },
            Some(p) => {
                self.set_prev(entry, Some(prev));
                self.set_next(p, Some(prev));
                self.nodes.set(prev, PtrLinkedListNode { prev: Some(p), next: Some(entry) });
                let ghost no = insert_at(o, i, prev);
                self.order = Ghost(no);
                proof {
                    lemma_insert_at(o, i, prev);
                    assert forall|k: int| 0 <= k < no.len() implies (#[trigger] self.nodes@[no[k] as int]).spec_prev()
                        == prev_of(no, k) && self.nodes@[no[k] as int].spec_next() == next_of(no, k) by {
                        if k < i {
                            assert(no[k] == o[k]);
                            assert(n0[o[k] as int].spec_prev() == prev_of(o, k));
                            assert(o[k] != prev) by {
                                assert(o.contains(o[k]));
                            }
                            assert(o[k] != o[i]);
                        } else if k > i {
                            assert(no[k] == o[k - 1]);
                            assert(n0[o[k - 1] as int].spec_prev() == prev_of(o, k - 1));
                            assert(o[k - 1] != prev) by {
                                assert(o.contains(o[k - 1]));
                            }
                            if k - 1 > i {
                                assert(o[k - 1] != o[i]);
                            }
                            assert(o[k - 1] != o[i - 1]);
                        }
                    }
                    assert forall|e: int|
                        0 <= e < self.nodes@.len() && !no.contains(e as usize) implies (
                    #[trigger] self.nodes@[e]).spec_prev() is None && self.nodes@[e].spec_next() is None by {
                        assert(e != prev) by {
                            assert(no[i] == prev);
                        }
                        assert(e != entry) by {
                            assert(no[i + 1] == entry);
                        }
                        assert(e != o[i - 1]) by {
                            assert(no[i - 1] == o[i - 1]);
                        }
                        assert(!o.contains(e as usize)) by {
                            if o.contains(e as usize) {
                                let k = choose|k: int| 0 <= k < o.len() && o[k] == e as usize;
                                if k < i {
                                    assert(no[k] == e as usize);
                                } else {
                                    assert(no[k + 1] == e as usize);
                                }
                            }
                        }
                    }
                    assert(first_of(no) == first_of(o));
                    assert(last_of(no) == last_of(o));
                }
            },
        }
    }

    /// Takes the first entry out of the list and gives it.
    pub fn take_first_entry(&mut self) -> (r: Option<usize>)
        requires
            old(self).wf(),
        ensures
            final(self).wf(),
            r == first_of(old(self).view()),
            r is Some ==> final(self).view() == old(self).view().drop_first(),
            r is None ==> final(self).view() == old(self).view(),
            final(self).spec_capacity() == old(self).spec_capacity(),
    {
        match self.head {
            None => None,
            Some(h) => {
                proof {
                    lemma_index_in(self.order@, h, 0);
                    assert(self.order@.contains(h));
                }
                let ghost o = self.order@;
                self.remove(h);
                proof {
                    assert(o.remove(0) =~= o.drop_first());
                }
                Some(h)
            },
        }
    }

    /// A cursor at the first entry.
    pub fn cursor_front_mut(&self) -> (c: CursorMut)
        requires
            self.wf(),
        ensures
            c.spec_current() == first_of(self.view()),
    {
        CursorMut { current: self.head }
    }
}

proof fn lemma_insert_at(o: Seq<usize>, i: int, e: usize)
    requires
        o.no_duplicates(),
        0 <= i <= o.len(),
        !o.contains(e),
    ensures
        insert_at(o, i, e).len() == o.len() + 1,
        forall|k: int| 0 <= k < i ==> #[trigger] insert_at(o, i, e)[k] == o[k],
        insert_at(o, i, e)[i] == e,
        forall|k: int| i < k <= o.len() ==> #[trigger] insert_at(o, i, e)[k] == o[k - 1],
        insert_at(o, i, e).no_duplicates(),
        forall|k: int| 0 <= k < o.len() ==> #[trigger] o[k] != e,
{
    let no = insert_at(o, i, e);
    assert forall|k: int| 0 <= k < o.len() implies #[trigger] o[k] != e by {
        assert(o.contains(o[k]));
    }
    assert forall|a: int, b: int| 0 <= a < b < no.len() implies no[a] != no[b] by {
        let a2 = if a < i { a } else if a == i { -1 } else { a - 1 };
        let b2 = if b < i { b } else if b == i { -1 } else { b - 1 };
        if a2 >= 0 && b2 >= 0 {
            assert(no[a] == o[a2] && no[b] == o[b2]);
        }
    }
}

impl CursorMut {
    pub closed spec fn spec_current(&self) -> Option<usize> {
        self.current
    }

    /// The cursor stands at an entry of `list`, or at none.
    pub open spec fn valid_for(&self, list: &PtrLinkedList) -> bool {
        self.spec_current() matches Some(e) ==> list.view().contains(e)
    }

    pub fn is_valid(&self) -> (r: bool)
        ensures
            r == self.spec_current() is Some,
    {
        self.current.is_some()
    }

    pub fn current(&self) -> (r: Option<usize>)
        ensures
            r == self.spec_current(),
    {
        self.current
    }

    /// To the next entry; from none, to the first.
    pub fn move_next(&mut self, list: &PtrLinkedList)
        requires
            list.wf(),
            old(self).valid_for(list),
        ensures
            final(self).valid_for(list),
            final(self).spec_current() == match old(self).spec_current() {
                Some(e) => next_of(list.view(), index_in(list.view(), e)),
                None => first_of(list.view()),
            },
    {
        proof {
            list.lemma_wf();
        }
        match self.current {
            Some(e) => {
                proof {
                    let i = index_in(list.view(), e);
                    assert(0 <= i < list.view().len() && list.view()[i] == e);
                    if i + 1 < list.view().len() {
                        assert(list.view().contains(list.view()[i + 1]));
                    }
                }
                self.current = list.get_node(e).get_next();
            },
            None => {
                proof {
                    if list.view().len() > 0 {
                        assert(list.view().contains(list.view()[0]));
                    }
                }
                self.current = list.get_first_entry();
            },
        }
    }

    /// To the previous entry; from none, to the last.
    pub fn move_prev(&mut self, list: &PtrLinkedList)
        requires
            list.wf(),
            old(self).valid_for(list),
        ensures
            final(self).valid_for(list),
            final(self).spec_current() == match old(self).spec_current() {
                Some(e) => prev_of(list.view(), index_in(list.view(), e)),
                None => last_of(list.view()),
            },
    {
        proof {
            list.lemma_wf();
        }
        match self.current {
            Some(e) => {
                proof {
                    let i = index_in(list.view(), e);
                    assert(0 <= i < list.view().len() && list.view()[i] == e);
                    if i > 0 {
                        assert(list.view().contains(list.view()[i - 1]));
                    }
                }
                self.current = list.get_node(e).get_prev();
            },
            None => {
                proof {
                    if list.view().len() > 0 {
                        assert(list.view().contains(list.view()[list.view().len() - 1]));
                    }
                }
                self.current = list.get_last_entry();
            },
        }
    }

    /// Puts `next` after the current entry; at none, first.
    pub fn insert_after(&mut self, list: &mut PtrLinkedList, next: usize)
        requires
            old(list).wf(),
            old(self).valid_for(old(list)),
            next < old(list).spec_capacity(),
            !old(list).view().contains(next),
        ensures
            final(list).wf(),
            final(self).spec_current() == old(self).spec_current(),
            final(self).valid_for(final(list)),
            final(list).view() == match old(self).spec_current() {
                Some(e) => insert_at(old(list).view(), index_in(old(list).view(), e) + 1, next),
                None => seq![next] + old(list).view(),
            },
            final(list).spec_capacity() == old(list).spec_capacity(),
    {
        match self.current {
            Some(e) => {
                let ghost o = list.view();
                list.insert_after(e, next);
                proof {
                    lemma_stays(o, index_in(o, e) + 1, next, e);
                }
            },
            None => {
                list.insert_head(next);
            },
        }
    }

    /// Puts `prev` before the current entry; at none, last.
    pub fn insert_before(&mut self, list: &mut PtrLinkedList, prev: usize)
        requires
            old(list).wf(),
            old(self).valid_for(old(list)),
            prev < old(list).spec_capacity(),
            !old(list).view().contains(prev),
        ensures
            final(list).wf(),
            final(self).spec_current() == old(self).spec_current(),
            final(self).valid_for(final(list)),
            final(list).view() == match old(self).spec_current() {
                Some(e) => insert_at(old(list).view(), index_in(old(list).view(), e), prev),
                None => old(list).view().push(prev),
            },
            final(list).spec_capacity() == old(list).spec_capacity(),
    {
        match self.current {
            Some(e) => {
                let ghost o = list.view();
                list.insert_before(e, prev);
                proof {
                    lemma_stays(o, index_in(o, e), prev, e);
                }
            },
            None => {
                list.insert_tail(prev);
            },
        }
    }

    /// Takes the current entry out of the list and moves to the next one;
    /// nothing at none.
    pub fn remove_current(&mut self, list: &mut PtrLinkedList)
        requires
            old(list).wf(),
            old(self).valid_for(old(list)),
        ensures
            final(list).wf(),
            final(self).valid_for(final(list)),
            final(list).spec_capacity() == old(list).spec_capacity(),
            match old(self).spec_current() {
                Some(e) => final(list).view() == old(list).view().remove(index_in(old(list).view(), e))
                    && final(self).spec_current() == next_of(old(list).view(), index_in(old(list).view(), e)),
                None => final(list).view() == old(list).view() && final(self).spec_current() is None,
            },
    {
        match self.current {
            Some(e) => {
                let ghost o = list.view();
                let ghost i = index_in(o, e);
                proof {
                    list.lemma_wf();
                    assert(0 <= i < o.len() && o[i] == e);
                }
                let next = list.get_node(e).get_next();
                list.remove(e);
                self.current = next;
                proof {
                    if i + 1 < o.len() {
                        assert(list.view()[i] == o[i + 1]);
                        assert(list.view().contains(o[i + 1]));
                    }
                }
            },
            None => {},
        }
    }
}

/// The entries of `o` with `e` put at `i` keep those of `o` around it.
pub proof fn lemma_insert_at_pub(o: Seq<usize>, i: int, e: usize)
    requires
        o.no_duplicates(),
        0 <= i <= o.len(),
        !o.contains(e),
    ensures
        insert_at(o, i, e).len() == o.len() + 1,
        forall|k: int| 0 <= k < i ==> #[trigger] insert_at(o, i, e)[k] == o[k],
        insert_at(o, i, e)[i] == e,
        forall|k: int| i < k <= o.len() ==> #[trigger] insert_at(o, i, e)[k] == o[k - 1],
        insert_at(o, i, e).no_duplicates(),
{
    lemma_insert_at(o, i, e);
}

/// An entry of `o` other than the inserted one stays in the list.
proof fn lemma_stays(o: Seq<usize>, i: int, n: usize, e: usize)
    requires
        o.no_duplicates(),
        0 <= i <= o.len(),
        !o.contains(n),
        o.contains(e),
    ensures
        insert_at(o, i, n).contains(e),
{
    lemma_insert_at(o, i, n);
    let k = choose|k: int| 0 <= k < o.len() && o[k] == e;
    if k < i {
        assert(insert_at(o, i, n)[k] == e);
    } else {
        assert(insert_at(o, i, n)[k + 1] == e);
    }
}

/// An entry put after another and taken out again leaves the entries as
/// they were.
pub proof fn lemma_insert_after_then_remove(o: Seq<usize>, entry: usize, next: usize)
    requires
        o.no_duplicates(),
        o.contains(entry),
        !o.contains(next),
    ensures
        ({
            let o1 = insert_at(o, index_in(o, entry) + 1, next);
            o1.remove(index_in(o1, next)) == o
        }),
{
    let i = index_in(o, entry);
    assert(0 <= i < o.len() && o[i] == entry);
    let o1 = insert_at(o, i + 1, next);
    lemma_insert_at(o, i + 1, next);
    lemma_index_in(o1, next, i + 1);
    assert(o1.remove(i + 1) =~= o);
}

/// An entry put first and taken first leaves the entries as they were.
pub proof fn lemma_insert_head_then_take(o: Seq<usize>, e: usize)
    ensures
        first_of(seq![e] + o) == Some(e),
        (seq![e] + o).drop_first() == o,
{
    assert((seq![e] + o).drop_first() =~= o);
}

} // verus!
