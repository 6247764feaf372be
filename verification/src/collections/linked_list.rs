//! A doubly linked list of values: the links are those of a
//! [`PtrLinkedList`] over numbered entries, and each entry in the list
//! holds a value. The entries of taken values are reused.
use vstd::prelude::*;
use super::ptr_linked_list::{
    PtrLinkedList, CursorMut as PtrCursor, first_of, last_of, next_of, prev_of, index_in,
    insert_at,
};

verus! {

/// The list of values.
pub struct LinkedList<T> {
    list: PtrLinkedList,
    data: Vec<Option<T>>,
    free: Vec<usize>,
}

/// A position in a list of values: a value, or none (before the first and
/// after the last).
pub struct CursorMut {
    cursor: PtrCursor,
}

impl<T> LinkedList<T> {
    /// The entries of the list, first to last.
    pub closed spec fn entries(&self) -> Seq<usize> {
        self.list.view()
    }

    /// The values of the list, first to last.
    pub closed spec fn view(&self) -> Seq<T> {
        values(self.data@, self.list.view())
    }

    /// The number of entries numbered so far.
    pub closed spec fn spec_capacity(&self) -> nat {
        self.list.spec_capacity()
    }

    pub closed spec fn wf(&self) -> bool {
        &&& self.list.wf()
        &&& self.data@.len() == self.list.spec_capacity()
        &&& forall|k: int|
            0 <= k < self.list.view().len() ==> (#[trigger] self.data@[self.list.view()[k] as int]) is Some
        &&& self.free@.no_duplicates()
        &&& forall|j: int|
            0 <= j < self.free@.len() ==> (#[trigger] self.free@[j]) < self.list.spec_capacity()
                && !self.list.view().contains(self.free@[j])
    }

    pub fn new() -> (r: Self)
        ensures
            r.wf(),
            r.view() == Seq::<T>::empty(),
    {
        LinkedList { list: PtrLinkedList::new(), data: Vec::new(), free: Vec::new() }
    }

    pub fn is_empty(&self) -> (r: bool)
        requires
            self.wf(),
        ensures
            r == (self.view().len() == 0),
    {
        self.list.is_empty()
    }

    /// An entry out of the list that holds `x`; the list is unchanged.
    fn allocate_entry(&mut self, x: T) -> (e: usize)
        requires
            old(self).wf(),
            old(self).spec_capacity() < usize::MAX,
        ensures
            final(self).list.wf(),
            final(self).list.view() == old(self).list.view(),
            final(self).data@.len() == final(self).list.spec_capacity(),
            final(self).spec_capacity() <= old(self).spec_capacity() + 1,
            e < final(self).list.spec_capacity(),
            !final(self).list.view().contains(e),
            final(self).data@[e as int] == Some(x),
            forall|i: int|
                0 <= i < old(self).data@.len() && i != e ==> #[trigger] final(self).data@[i] == old(
                    self,
                ).data@[i],
            final(self).free@.no_duplicates(),
            forall|j: int|
                0 <= j < final(self).free@.len() ==> (#[trigger] final(self).free@[j])
                    < final(self).list.spec_capacity() && !final(self).list.view().contains(
                    final(self).free@[j],
                ) && final(self).free@[j] != e,
    {
        match self.free.pop() {
            Some(f) => {
                proof {
                    let n = old(self).free@.len() - 1;
                    assert(old(self).free@[n] == f);
                    assert(!self.list.view().contains(old(self).free@[n]));
                    assert forall|j: int| 0 <= j < self.free@.len() implies (#[trigger] self.free@[j]) != f by {
                        assert(self.free@[j] == old(self).free@[j]);
                    }
                    assert(self.free@.no_duplicates()) by {
                        assert forall|a: int, b: int| 0 <= a < b < self.free@.len() implies self.free@[a] != self.free@[b] by {
                            assert(self.free@[a] == old(self).free@[a]);
                            assert(self.free@[b] == old(self).free@[b]);
                        }
                    }
                }
                self.data.set(f, Some(x));
                f
            },
            None => {
                proof {
                    self.list.lemma_wf();
                    assert forall|k: int| 0 <= k < self.list.view().len() implies #[trigger] self.list.view()[k]
                        != self.list.spec_capacity() by {}
                }
                let e = self.list.new_entry();
                self.data.push(Some(x));
                proof {
                    assert forall|j: int| 0 <= j < self.free@.len() implies (#[trigger] self.free@[j]) != e by {
                        assert(self.free@[j] < old(self).list.spec_capacity());
                    }
                }
                e
            },
        }
    }

    /// Puts `data` first.
    pub fn push_front(&mut self, data: T)
        requires
            old(self).wf(),
            old(self).spec_capacity() < usize::MAX,
        ensures
            final(self).wf(),
            final(self).view() == seq![data] + old(self).view(),
    {
        let ghost o = self.list.view();
        let ghost d0 = self.data@;
        proof {
            self.list.lemma_wf();
        }
        let e = self.allocate_entry(data);
        self.list.insert_head(e);
        proof {
            assert(self.list.view() =~= insert_at(o, 0, e));
            lemma_values_insert(d0, self.data@, o, 0, e, data);
            assert(insert_at_value(values(d0, o), 0, data) =~= seq![data] + values(d0, o));
            self.lemma_free_after_insert(o, 0, e);
        }
    }

    /// Puts `data` last.
    pub fn push_back(&mut self, data: T)
        requires
            old(self).wf(),
            old(self).spec_capacity() < usize::MAX,
        ensures
            final(self).wf(),
            final(self).view() == old(self).view().push(data),
    {
        let ghost o = self.list.view();
        let ghost d0 = self.data@;
        proof {
            self.list.lemma_wf();
        }
        let e = self.allocate_entry(data);
        self.list.insert_tail(e);
        proof {
            assert(self.list.view() =~= insert_at(o, o.len() as int, e));
            lemma_values_insert(d0, self.data@, o, o.len() as int, e, data);
            assert(insert_at_value(values(d0, o), o.len() as int, data) =~= values(d0, o).push(data));
            self.lemma_free_after_insert(o, o.len() as int, e);
        }
    }

    proof fn lemma_free_after_insert(&self, o: Seq<usize>, i: int, e: usize)
        requires
            0 <= i <= o.len(),
            self.list.view() == insert_at(o, i, e),
            forall|j: int|
                0 <= j < self.free@.len() ==> !o.contains(#[trigger] self.free@[j]) && self.free@[j]
                    != e,
        ensures
            forall|j: int| 0 <= j < self.free@.len() ==> !self.list.view().contains(#[trigger] self.free@[j]),
    {
        assert forall|j: int| 0 <= j < self.free@.len() implies !self.list.view().contains(
            #[trigger] self.free@[j],
        ) by {
            let f = self.free@[j];
            let no = self.list.view();
            if no.contains(f) {
                let k = choose|k: int| 0 <= k < no.len() && no[k] == f;
                if k < i {
                    assert(o[k] == f);
                } else if k > i {
                    assert(o[k - 1] == f);
                }
            }
        }
    }

    /// The value held by entry `e`, which is taken out of it.
    fn take_entry(&mut self, e: usize) -> (x: T)
        requires
            e < old(self).data@.len(),
            old(self).data@[e as int] is Some,
        ensures
            x == old(self).data@[e as int]->0,
            final(self).data@ == old(self).data@.update(e as int, None),
            final(self).list == old(self).list,
            final(self).free == old(self).free,
    {
        let mut slot: Option<T> = None;
        self.data.set_and_swap(e, &mut slot);
        slot.unwrap()
    }

    /// Frees entry `e`, the `i`th of the old entries `o`, now out of the
    /// list.
    proof fn lemma_after_remove(&self, old_free: Seq<usize>, o: Seq<usize>, d0: Seq<Option<T>>, i: int, e: usize)
        requires
            self.list.wf(),
            o.no_duplicates(),
            0 <= i < o.len(),
            o[i] == e,
            forall|k: int| 0 <= k < o.len() ==> o[k] < d0.len(),
            forall|k: int| 0 <= k < o.len() ==> (#[trigger] d0[o[k] as int]) is Some,
            self.list.view() == o.remove(i),
            self.list.spec_capacity() == d0.len(),
            self.data@ == d0.update(e as int, None),
            self.free@ == old_free.push(e),
            old_free.no_duplicates(),
            forall|j: int|
                0 <= j < old_free.len() ==> (#[trigger] old_free[j]) < d0.len() && !o.contains(old_free[j]),
        ensures
            self.wf(),
            values(self.data@, self.list.view()) == values(d0, o).remove(i),
    {
        let no = self.list.view();
        assert forall|k: int| 0 <= k < no.len() implies (#[trigger] self.data@[no[k] as int]) is Some
            && self.data@[no[k] as int] == d0[no[k] as int] by {
            let k2 = if k < i { k } else { k + 1 };
            assert(no[k] == o[k2]);
            assert(o[k2] != e);
        }
        assert(!old_free.contains(e)) by {
            assert(o.contains(e));
        }
        assert(self.free@.no_duplicates()) by {
            assert forall|a: int, b: int| 0 <= a < b < self.free@.len() implies self.free@[a] != self.free@[b] by {
                if b == old_free.len() {
                    assert(old_free.contains(self.free@[a]));
                }
            }
        }
        assert forall|j: int| 0 <= j < self.free@.len() implies (#[trigger] self.free@[j]) < self.list.spec_capacity()
            && !self.list.view().contains(self.free@[j]) by {
            let f = self.free@[j];
            if no.contains(f) {
                let k = choose|k: int| 0 <= k < no.len() && no[k] == f;
                let k2 = if k < i { k } else { k + 1 };
                assert(o[k2] == f);
                if j < old_free.len() {
                    assert(old_free[j] == f);
                    assert(o.contains(f));
                } else {
                    assert(k2 != i);
                }
            }
        }
        assert(values(self.data@, no) =~= values(d0, o).remove(i)) by {
            assert forall|k: int| 0 <= k < no.len() implies values(self.data@, no)[k] == values(d0, o).remove(i)[k] by {
                let k2 = if k < i { k } else { k + 1 };
                assert(no[k] == o[k2]);
            }
        }
    }

    /// Takes the first value.
    pub fn pop_front(&mut self) -> (r: Option<T>)
        requires
            old(self).wf(),
        ensures
            final(self).wf(),
            old(self).view().len() == 0 ==> r is None && final(self).view() == old(self).view(),
            old(self).view().len() > 0 ==> r == Some(old(self).view()[0]) && final(self).view()
                == old(self).view().drop_first(),
    {
        let ghost o = self.list.view();
        let ghost d0 = self.data@;
        let ghost f0 = self.free@;
        proof {
            self.list.lemma_wf();
        }
        match self.list.take_first_entry() {
            None => None,
            Some(e) => {
                let x = self.take_entry(e);
                self.free.push(e);
                proof {
                    assert(o.drop_first() =~= o.remove(0));
                    self.lemma_after_remove(f0, o, d0, 0, e);
                    assert(values(d0, o).remove(0) =~= values(d0, o).drop_first());
                }
                Some(x)
            },
        }
    }

    /// Takes the last value.
    pub fn pop_back(&mut self) -> (r: Option<T>)
        requires
            old(self).wf(),
        ensures
            final(self).wf(),
            old(self).view().len() == 0 ==> r is None && final(self).view() == old(self).view(),
            old(self).view().len() > 0 ==> r == Some(old(self).view().last()) && final(self).view()
                == old(self).view().drop_last(),
    {
        let ghost o = self.list.view();
        let ghost d0 = self.data@;
        let ghost f0 = self.free@;
        proof {
            self.list.lemma_wf();
        }
        match self.list.get_last_entry() {
            None => None,
            Some(e) => {
                let ghost i = o.len() - 1;
                proof {
                    assert(o[i] == e);
                    assert(o.contains(e));
                }
                self.list.remove(e);
                proof {
                    assert(index_in(o, e) == i) by {
                        let j = index_in(o, e);
                        assert(0 <= j < o.len() && o[j] == e);
                    }
                }
                let x = self.take_entry(e);
                self.free.push(e);
                proof {
                    self.lemma_after_remove(f0, o, d0, i, e);
                    assert(values(d0, o).remove(i) =~= values(d0, o).drop_last());
                }
                Some(x)
            },
        }
    }

    /// The first value.
    pub fn front(&self) -> (r: Option<&T>)
        requires
            self.wf(),
        ensures
            r is None <==> self.view().len() == 0,
            r matches Some(x) ==> *x == self.view()[0],
    {
        proof {
            self.list.lemma_wf();
        }
        match self.list.get_first_entry() {
            Some(e) => self.data[e].as_ref(),
            None => None,
        }
    }

    /// The last value.
    pub fn back(&self) -> (r: Option<&T>)
        requires
            self.wf(),
        ensures
            r is None <==> self.view().len() == 0,
            r matches Some(x) ==> *x == self.view().last(),
    {
        proof {
            self.list.lemma_wf();
        }
        match self.list.get_last_entry() {
            Some(e) => {
                proof {
                    assert(self.data@[self.list.view()[self.list.view().len() - 1] as int] is Some);
                }
                self.data[e].as_ref()
            },
            None => None,
        }
    }

    /// Takes every value out.
    pub fn clear(&mut self)
        requires
            old(self).wf(),
        ensures
            final(self).wf(),
            final(self).view() == Seq::<T>::empty(),
    {
        while !self.is_empty()
            invariant
                self.wf(),
            decreases self.view().len(),
        {
            let _ = self.pop_front();
        }
    }

    /// A cursor at the first value.
    pub fn cursor_front_mut(&self) -> (c: CursorMut)
        requires
            self.wf(),
        ensures
            c.valid_for(self),
            c.position(self) == (if self.view().len() == 0 {
                None
            } else {
                Some(0int)
            }),
    {
        proof {
            self.list.lemma_wf();
            if self.list.view().len() > 0 {
                assert(self.list.view().contains(self.list.view()[0]));
                lemma_index_of(self.list.view(), 0);
            }
        }
        CursorMut { cursor: self.list.cursor_front_mut() }
    }
}

/// The values that the entries `o` hold in `d`.
pub open spec fn values<T>(d: Seq<Option<T>>, o: Seq<usize>) -> Seq<T> {
    Seq::new(o.len(), |k: int| d[o[k] as int]->0)
}

/// `s` with `x` put at `i`.
pub open spec fn insert_at_value<T>(s: Seq<T>, i: int, x: T) -> Seq<T> {
    s.subrange(0, i).push(x) + s.subrange(i, s.len() as int)
}

proof fn lemma_index_of(o: Seq<usize>, k: int)
    requires
        o.no_duplicates(),
        0 <= k < o.len(),
    ensures
        index_in(o, o[k]) == k,
{
    let j = index_in(o, o[k]);
    assert(0 <= j < o.len() && o[j] == o[k]);
}

proof fn lemma_values_insert<T>(d0: Seq<Option<T>>, d1: Seq<Option<T>>, o: Seq<usize>, i: int, e: usize, x: T)
    requires
        0 <= i <= o.len(),
        o.no_duplicates(),
        !o.contains(e),
        forall|k: int| 0 <= k < o.len() ==> o[k] < d0.len(),
        forall|k: int| 0 <= k < o.len() ==> (#[trigger] d0[o[k] as int]) is Some,
        forall|j: int| 0 <= j < d0.len() && j != e ==> #[trigger] d1[j] == d0[j],
        d1[e as int] == Some(x),
    ensures
        values(d1, insert_at(o, i, e)) == insert_at_value(values(d0, o), i, x),
        forall|k: int|
            0 <= k < insert_at(o, i, e).len() ==> (#[trigger] d1[insert_at(o, i, e)[k] as int]) is Some,
{
    let no = insert_at(o, i, e);
    assert forall|k: int| 0 <= k < o.len() implies #[trigger] o[k] != e by {
        assert(o.contains(o[k]));
    }
    assert forall|k: int| 0 <= k < no.len() implies (#[trigger] d1[no[k] as int]) is Some && values(d1, no)[k]
        == insert_at_value(values(d0, o), i, x)[k] by {
        if k < i {
            assert(no[k] == o[k]);
            assert(d1[o[k] as int] == d0[o[k] as int]);
        } else if k > i {
            assert(no[k] == o[k - 1]);
            assert(d1[o[k - 1] as int] == d0[o[k - 1] as int]);
        }
    }
    assert(values(d1, no) =~= insert_at_value(values(d0, o), i, x));
}

impl CursorMut {
    /// The cursor stands at an entry of `list`, or at none.
    pub closed spec fn valid_for<T>(&self, list: &LinkedList<T>) -> bool {
        self.cursor.valid_for(&list.list)
    }

    /// The index of the value that the cursor stands at.
    pub closed spec fn position<T>(&self, list: &LinkedList<T>) -> Option<int> {
        match self.cursor.spec_current() {
            Some(e) => Some(index_in(list.list.view(), e)),
            None => None,
        }
    }

    /// The cursor stands at a value.
    pub closed spec fn spec_is_valid(&self) -> bool {
        self.cursor.spec_current() is Some
    }

    pub fn is_valid(&self) -> (r: bool)
        ensures
            r == self.spec_is_valid(),
    {
        self.cursor.is_valid()
    }

    /// A valid cursor stands at a value.
    pub proof fn lemma_position<T>(&self, list: &LinkedList<T>)
        requires
            list.wf(),
            self.valid_for(list),
        ensures
            self.position(list) matches Some(i) ==> 0 <= i < list.view().len(),
            self.position(list) is Some <==> self.spec_is_valid(),
    {
        if let Some(e) = self.cursor.spec_current() {
            let i = index_in(list.list.view(), e);
            assert(0 <= i < list.list.view().len() && list.list.view()[i] == e);
        }
    }

    /// To the next value; from none, to the first; from the last, to none.
    pub fn move_next<T>(&mut self, list: &LinkedList<T>)
        requires
            list.wf(),
            old(self).valid_for(list),
        ensures
            final(self).valid_for(list),
            final(self).position(list) == match old(self).position(list) {
                Some(i) => if i + 1 < list.view().len() {
                    Some(i + 1)
                } else {
                    None
                },
                None => if list.view().len() == 0 {
                    None
                } else {
                    Some(0int)
                },
            },
    {
        proof {
            list.list.lemma_wf();
            self.lemma_position(list);
        }
        self.cursor.move_next(&list.list);
        proof {
            let o = list.list.view();
            if let Some(e) = self.cursor.spec_current() {
                let j = index_in(o, e);
                assert(0 <= j < o.len() && o[j] == e);
                let k = choose|k: int| 0 <= k < o.len() && o[k] == e;
                lemma_index_of(o, k);
            }
        }
    }

    /// To the previous value; from none, to the last; from the first, to
    /// none.
    pub fn move_prev<T>(&mut self, list: &LinkedList<T>)
        requires
            list.wf(),
            old(self).valid_for(list),
        ensures
            final(self).valid_for(list),
            final(self).position(list) == match old(self).position(list) {
                Some(i) => if i > 0 {
                    Some(i - 1)
                } else {
                    None
                },
                None => if list.view().len() == 0 {
                    None
                } else {
                    Some(list.view().len() - 1)
                },
            },
    {
        proof {
            list.list.lemma_wf();
            self.lemma_position(list);
        }
        self.cursor.move_prev(&list.list);
        proof {
            let o = list.list.view();
            if let Some(e) = self.cursor.spec_current() {
                let k = choose|k: int| 0 <= k < o.len() && o[k] == e;
                lemma_index_of(o, k);
            }
        }
    }

    /// The value that the cursor stands at.
    pub fn current<'a, T>(&self, list: &'a LinkedList<T>) -> (r: Option<&'a T>)
        requires
            list.wf(),
            self.valid_for(list),
        ensures
            r is None <==> self.position(list) is None,
            r matches Some(x) ==> *x == list.view()[self.position(list)->0],
    {
        proof {
            list.list.lemma_wf();
            self.lemma_position(list);
        }
        match self.cursor.current() {
            Some(e) => {
                proof {
                    let o = list.list.view();
                    let j = index_in(o, e);
                    assert(0 <= j < o.len() && o[j] == e);
                }
                list.data[e].as_ref()
            },
            None => None,
        }
    }

    /// Puts `data` after the value that the cursor stands at; at none,
    /// first. The cursor stays.
    pub fn insert_after<T>(&mut self, list: &mut LinkedList<T>, data: T)
        requires
            old(list).wf(),
            old(self).valid_for(old(list)),
            old(list).spec_capacity() < usize::MAX,
        ensures
            final(list).wf(),
            final(self).valid_for(final(list)),
            final(list).view() == match old(self).position(old(list)) {
                Some(i) => insert_at_value(old(list).view(), i + 1, data),
                None => seq![data] + old(list).view(),
            },
            final(self).position(final(list)) == match old(self).position(old(list)) {
                Some(i) => Some(i),
                None => None,
            },
    {
        let ghost o = list.list.view();
        let ghost d0 = list.data@;
        proof {
            list.list.lemma_wf();
            self.lemma_position(&*list);
        }
        let e = list.allocate_entry(data);
        self.cursor.insert_after(&mut list.list, e);
        proof {
            match self.cursor.spec_current() {
                Some(c) => {
                    let i = index_in(o, c);
                    assert(0 <= i < o.len() && o[i] == c);
                    lemma_values_insert(d0, list.data@, o, i + 1, e, data);
                    list.lemma_free_after_insert(o, i + 1, e);
                    crate::collections::ptr_linked_list::lemma_insert_at_pub(o, i + 1, e);
                    lemma_index_of(list.list.view(), i);
                },
                None => {
                    assert(list.list.view() =~= insert_at(o, 0, e));
                    lemma_values_insert(d0, list.data@, o, 0, e, data);
                    assert(insert_at_value(values(d0, o), 0, data) =~= seq![data] + values(d0, o));
                    list.lemma_free_after_insert(o, 0, e);
                },
            }
        }
    }

    /// Puts `data` after the value that the cursor stands at, as
    /// `insert_after` does (the new node is linked after the current one,
    /// not before it); at none, first.
    pub fn insert_before<T>(&mut self, list: &mut LinkedList<T>, data: T)
        requires
            old(list).wf(),
            old(self).valid_for(old(list)),
            old(list).spec_capacity() < usize::MAX,
        ensures
            final(list).wf(),
            final(self).valid_for(final(list)),
            final(list).view() == match old(self).position(old(list)) {
                Some(i) => insert_at_value(old(list).view(), i + 1, data),
                None => seq![data] + old(list).view(),
            },
            final(self).position(final(list)) == match old(self).position(old(list)) {
                Some(i) => Some(i),
                None => None,
            },
    {
        self.insert_after(list, data)
    }

    /// Takes the value that the cursor stands at and moves to the next.
    pub fn remove_current<T>(&mut self, list: &mut LinkedList<T>) -> (r: Option<T>)
        requires
            old(list).wf(),
            old(self).valid_for(old(list)),
        ensures
            final(list).wf(),
            final(self).valid_for(final(list)),
            match old(self).position(old(list)) {
                Some(i) => r == Some(old(list).view()[i]) && final(list).view() == old(list).view().remove(i)
                    && final(self).position(final(list)) == if i < final(list).view().len() {
                    Some(i)
                } else {
                    None
                },
                None => r is None && final(list).view() == old(list).view() && final(self).position(
                    final(list),
                ) is None,
            },
    {
        let ghost o = list.list.view();
        let ghost d0 = list.data@;
        let ghost f0 = list.free@;
        proof {
            list.list.lemma_wf();
            self.lemma_position(&*list);
        }
        match self.cursor.current() {
            None => None,
            Some(e) => {
                let ghost i = index_in(o, e);
                proof {
                    assert(0 <= i < o.len() && o[i] == e);
                }
                self.cursor.remove_current(&mut list.list);
                let x = list.take_entry(e);
                list.free.push(e);
                proof {
                    list.lemma_after_remove(f0, o, d0, i, e);
                    list.list.lemma_wf();
                    if i + 1 < o.len() {
                        assert(list.list.view()[i] == o[i + 1]);
                        lemma_index_of(list.list.view(), i);
                    }
                }
                Some(x)
            },
        }
    }
}

/// A value pushed at the front is the one popped from the front, and the
/// list is then as it was; likewise at the back.
pub proof fn lemma_push_then_pop<T>(v: Seq<T>, x: T)
    ensures
        (seq![x] + v)[0] == x,
        (seq![x] + v).drop_first() == v,
        v.push(x).last() == x,
        v.push(x).drop_last() == v,
{
    assert((seq![x] + v).drop_first() =~= v);
    assert(v.push(x).drop_last() =~= v);
}

/// Values pushed at the back come out at the front in the order they went
/// in.
pub proof fn lemma_back_to_front_order<T>(x: T, y: T)
    ensures
        Seq::<T>::empty().push(x).push(y)[0] == x,
        Seq::<T>::empty().push(x).push(y).drop_first()[0] == y,
{
}

} // verus!
