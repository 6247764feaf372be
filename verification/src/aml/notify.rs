//! The functions to call when AML notifies a device.
use vstd::prelude::*;
use super::name_object::NameString;
use super::aml_variable::AmlVariable;

verus! {

/// Pairs of a device path and the hook registered for it.
pub struct NotifyList<H> {
    list: Vec<(NameString, H)>,
}

/// The index of the first entry of `l` whose name equals `name`.
pub open spec fn find_name<H>(l: Seq<(NameString, H)>, name: NameString, from: int) -> Option<int>
    decreases l.len() - from,
{
    if from < 0 || from >= l.len() {
        None
    } else if l[from].0.spec_eq(&name) {
        Some(from)
    } else {
        find_name(l, name, from + 1)
    }
}

/// The hook registered for `name` in `l`.
pub open spec fn hook_of<H>(l: Seq<(NameString, H)>, name: NameString) -> Option<H> {
    match find_name(l, name, 0) {
        Some(i) => Some(l[i].1),
        None => None,
    }
}

proof fn lemma_find_name_range<H>(l: Seq<(NameString, H)>, name: NameString, from: int)
    ensures
        find_name(l, name, from) matches Some(i) ==> from <= i < l.len() && l[i].0.spec_eq(&name)
            && forall|j: int| from <= j < i ==> !(#[trigger] l[j].0.spec_eq(&name)),
        find_name(l, name, from) is None ==> forall|j: int|
            from <= j < l.len() && from >= 0 ==> !(#[trigger] l[j].0.spec_eq(&name)),
    decreases l.len() - from,
{
    if from >= 0 && from < l.len() && !l[from].0.spec_eq(&name) {
        lemma_find_name_range(l, name, from + 1);
    }
}

proof fn lemma_find_name_first<H>(l: Seq<(NameString, H)>, name: NameString, from: int, i: int)
    requires
        0 <= from <= i < l.len(),
        l[i].0.spec_eq(&name),
        forall|j: int| from <= j < i ==> !(#[trigger] l[j].0.spec_eq(&name)),
    ensures
        find_name(l, name, from) == Some(i),
    decreases i - from,
{
    if from < i {
        lemma_find_name_first(l, name, from + 1, i);
    }
}

proof fn lemma_same_eq(a: NameString, b: NameString)
    requires
        a.same(&b),
    ensures
        a.spec_eq(&b),
{
}

impl<H: Copy> NotifyList<H> {
    pub closed spec fn view(&self) -> Seq<(NameString, H)> {
        self.list@
    }

    pub fn new() -> (r: Self)
        ensures
            r.view().len() == 0,
    {
        NotifyList { list: Vec::new() }
    }

    fn find(&self, name: &NameString) -> (r: Option<usize>)
        ensures
            r matches Some(i) ==> find_name(self.view(), *name, 0) == Some(i as int),
            r is None ==> find_name(self.view(), *name, 0) is None,
    {
        let mut i: usize = 0;
        while i < self.list.len()
            invariant
                i <= self.list@.len(),
                forall|j: int| 0 <= j < i ==> !(#[trigger] self.list@[j].0.spec_eq(name)),
            decreases self.list@.len() - i,
        {
            if self.list[i].0 == *name {
                proof {
                    lemma_find_name_first(self.view(), *name, 0, i as int);
                }
                return Some(i);
            }
            i = i + 1;
        }
        proof {
            lemma_find_name_range(self.view(), *name, 0);
        }
        None
    }

    /// Registers `hook` for `notify_name`, in place of the hook that was
    /// registered for it.
    pub fn register_function(&mut self, notify_name: &NameString, hook: H)
        ensures
            registered(old(self).view(), final(self).view(), *notify_name, hook),
            hook_of(final(self).view(), *notify_name) == Some(hook),
            find_name(old(self).view(), *notify_name, 0) matches Some(i) ==> final(self).view()
                == old(self).view().update(i, (old(self).view()[i].0, hook)),
            find_name(old(self).view(), *notify_name, 0) is None ==> final(self).view().len()
                == old(self).view().len() + 1,
            find_name(old(self).view(), *notify_name, 0) is None ==> final(self).view().drop_last()
                == old(self).view(),
            find_name(old(self).view(), *notify_name, 0) is None ==> final(self).view().last().1
                == hook,
            find_name(old(self).view(), *notify_name, 0) is None ==> final(self).view().last().0.same(
                notify_name,
            ),
    {
        match self.find(notify_name) {
            Some(i) => {
                proof {
                    lemma_find_name_range(self.view(), *notify_name, 0);
                }
                self.list[i].1 = hook;
                proof {
                    assert(self.list@ =~= old(self).list@.update(i as int, (old(self).list@[i as int].0, hook)));
                    lemma_find_name_range(old(self).view(), *notify_name, 0);
                    lemma_find_name_first(self.view(), *notify_name, 0, i as int);
                }
            },
            None => {
                let name = notify_name.clone();
                self.list.push((name, hook));
                proof {
                    lemma_find_name_range(old(self).view(), *notify_name, 0);
                    assert(self.view().drop_last() =~= old(self).view());
                    lemma_same_eq(name, *notify_name);
                    lemma_find_name_first(self.view(), *notify_name, 0, old(self).view().len() as int);
                }
            },
        }
    }

    /// The hook registered for `notify_name`; none where there is none.
    pub fn find_hook(&self, notify_name: &NameString) -> (r: Option<H>)
        ensures
            r == hook_of(self.view(), *notify_name),
    {
        match self.find(notify_name) {
            Some(i) => {
                proof {
                    lemma_find_name_range(self.view(), *notify_name, 0);
                }
                Some(self.list[i].1)
            },
            None => None,
        }
    }
}

impl<H: Copy + Fn(AmlVariable)> NotifyList<H> {
    /// Calls the hook registered for `notify_name` with `value`; whether
    /// there was one.
    pub fn notify(&self, notify_name: &NameString, value: AmlVariable) -> (r: bool)
        requires
            hook_of(self.view(), *notify_name) matches Some(h) ==> h.requires((value,)),
        ensures
            r == hook_of(self.view(), *notify_name) is Some,
            hook_of(self.view(), *notify_name) matches Some(h) ==> h.ensures((value,), ()),
    {
        match self.find_hook(notify_name) {
            Some(h) => {
                h(value);
                true
            },
            None => false,
        }
    }
}



/// `after` is `before` with `hook` registered for `name`: in place of the
/// hook of the first entry of that name, else in a new last entry.
pub open spec fn registered<H>(before: Seq<(NameString, H)>, after: Seq<(NameString, H)>, name: NameString, hook: H) -> bool {
    match find_name(before, name, 0) {
        Some(i) => after == before.update(i, (before[i].0, hook)),
        None => after.len() == before.len() + 1 && after.drop_last() == before && after.last().1 == hook
            && after.last().0.same(&name),
    }
}

/// A list with no entry of `m` keeps none after a hook is registered for
/// a name unlike `m`.
proof fn lemma_register_keeps_absent<H>(before: Seq<(NameString, H)>, after: Seq<(NameString, H)>, name: NameString, hook: H, m: NameString)
    requires
        registered(before, after, name, hook),
        find_name(before, m, 0) is None,
        !name.spec_eq(&m),
    ensures
        find_name(after, m, 0) is None,
{
    lemma_find_name_range(before, m, 0);
    lemma_find_name_range(before, name, 0);
    assert forall|j: int| 0 <= j < after.len() implies !(#[trigger] after[j].0.spec_eq(&m)) by {
        if j < before.len() {
            assert(after[j].0 == before[j].0);
        } else {
            assert(after[j].0.same(&name));
        }
    }
    if find_name(after, m, 0) is Some {
        lemma_find_name_range(after, m, 0);
    }
}

/// Registering two hooks for one name leaves the second as its hook, and a
/// name never registered, unlike it, has none.
pub proof fn lemma_register_twice<H>(
    l0: Seq<(NameString, H)>,
    l1: Seq<(NameString, H)>,
    l2: Seq<(NameString, H)>,
    n: NameString,
    m: NameString,
    f1: H,
    f2: H,
)
    requires
        registered(l0, l1, n, f1),
        registered(l1, l2, n, f2),
        hook_of(l0, m) is None,
        !n.spec_eq(&m),
    ensures
        hook_of(l2, n) == Some(f2),
        hook_of(l2, m) is None,
{
    lemma_register_keeps_absent(l0, l1, n, f1, m);
    lemma_register_keeps_absent(l1, l2, n, f2, m);
    lemma_find_name_range(l1, n, 0);
    match find_name(l1, n, 0) {
        Some(i) => {
            lemma_find_name_first(l2, n, 0, i);
        },
        None => {
            lemma_same_eq(l2.last().0, n);
            assert forall|j: int| 0 <= j < l1.len() implies !(#[trigger] l2[j].0.spec_eq(&n)) by {
                assert(l2[j] == l1[j]);
            }
            lemma_find_name_first(l2, n, 0, l1.len() as int);
        },
    }
}

} // verus!
