//! The argument counts of the objects a parser can meet as method calls.
use vstd::prelude::*;
use super::AmlError;
use super::name_object::{NameString, NameStringFlag};

verus! {

/// Known object paths and the number of arguments each takes when invoked
/// (zero for objects that are not methods).
#[derive(Debug)]
pub struct MethodTable {
    entries: Vec<(NameString, usize)>,
}

/// The entry of `entries` whose path equals `target`, first match first.
pub open spec fn table_find(entries: Seq<(NameString, usize)>, target: Seq<[u8; 4]>) -> Option<usize>
    decreases entries.len(),
{
    if entries.len() == 0 {
        None
    } else if entries[0].0.elems() == target && !entries[0].0.is_null() {
        Some(entries[0].1)
    } else {
        table_find(entries.drop_first(), target)
    }
}

/// The path of `last` placed `k` levels above the scope `scope`.
pub open spec fn ancestor_path(scope: Seq<[u8; 4]>, k: int, last: [u8; 4]) -> Seq<[u8; 4]> {
    scope.subrange(0, scope.len() - k).push(last)
}

/// The argument count found for a single-segment name whose scope is
/// `scope`, trying the scope itself, then each enclosing scope.
pub open spec fn search_upward(entries: Seq<(NameString, usize)>, scope: Seq<[u8; 4]>, last: [u8; 4], k: int) -> Option<usize>
    decreases scope.len() + 1 - k,
{
    if k > scope.len() || k < 0 {
        None
    } else {
        match table_find(entries, ancestor_path(scope, k, last)) {
            Some(c) => Some(c),
            None => search_upward(entries, scope, last, k + 1),
        }
    }
}

impl MethodTable {
    pub closed spec fn spec_entries(&self) -> Seq<(NameString, usize)> {
        self.entries@
    }

    /// The argument count of `name`: by its full path, and for a
    /// single-segment name also in each enclosing scope, nearest first.
    pub open spec fn spec_lookup(&self, name: &NameString) -> Option<usize> {
        self.spec_lookup_parts(name.segs(), name.spec_flag())
    }

    /// `spec_lookup` of the name with segments `segs` and kind `flag`.
    pub open spec fn spec_lookup_parts(&self, segs: Seq<[u8; 4]>, flag: NameStringFlag) -> Option<usize> {
        let elems = if flag == NameStringFlag::NullName { Seq::empty() } else { segs };
        match table_find(self.spec_entries(), elems) {
            Some(c) => Some(c),
            None => if flag == NameStringFlag::SingleRelativePath && segs.len() > 0 {
                search_upward(self.spec_entries(), segs.drop_last(), segs.last(), 1)
            } else {
                None
            },
        }
    }

    pub fn new() -> (r: Self)
        ensures
            r.spec_entries() == Seq::<(NameString, usize)>::empty(),
    {
        MethodTable { entries: Vec::new() }
    }

    /// Records an object path and its argument count.
    pub fn add(&mut self, name: NameString, argument_count: usize)
        ensures
            final(self).spec_entries() == old(self).spec_entries().push((name, argument_count)),
    {
        self.entries.push((name, argument_count));
    }

    fn find(&self, target: &Vec<[u8; 4]>) -> (r: Option<usize>)
        ensures
            r == table_find(self.spec_entries(), target@),
    {
        let mut i: usize = 0;
        assert(self.spec_entries().subrange(0, self.spec_entries().len() as int) =~= self.spec_entries());
        while i < self.entries.len()
            invariant
                i <= self.spec_entries().len(),
                table_find(self.spec_entries(), target@) == table_find(self.spec_entries().subrange(i as int, self.spec_entries().len() as int), target@),
            decreases self.spec_entries().len() - i,
        {
            let ghost rest = self.spec_entries().subrange(i as int, self.spec_entries().len() as int);
            assert(rest.drop_first() =~= self.spec_entries().subrange(i + 1, self.spec_entries().len() as int));
            let e = &self.entries[i];
            if !e.0.is_null_name() && e.0.elements_equal(target) {
                return Some(e.1);
            }
            i = i + 1;
        }
        None
    }

    /// The number of arguments `method_name` takes: zero for a null name,
    /// `InvalidName` when the table has no such object.
    pub fn find_method_argument_count(&self, method_name: &NameString) -> (r: Result<usize, AmlError>)
        ensures
            method_name.is_null() ==> r == Ok::<usize, AmlError>(0),
            !method_name.is_null() ==> match self.spec_lookup(method_name) {
                Some(c) => r == Ok::<usize, AmlError>(c),
                None => r matches Err(e) && e is InvalidName,
            },
    {
        if method_name.is_null_name() {
            return Ok(0);
        }
        let path = method_name.elements();
        match self.find(&path) {
            Some(c) => {
                return Ok(c);
            },
            None => {},
        }
        let total = method_name.len();
        if method_name.is_single_relative_path_name() && total > 0 {
            let mut scope = method_name.elements();
            let last = scope.pop().unwrap();
            let ghost sc = scope@;
            let n = scope.len();
            assert(n < total);
            let mut k: usize = 1;
            while k <= n
                invariant
                    sc == method_name.segs().drop_last(),
                    n == sc.len(),
                    n + 1 == method_name.segs().len(),
                    n < usize::MAX,
                    last == method_name.segs().last(),
                    1 <= k <= sc.len() + 1,
                    scope@ == sc.subrange(0, sc.len() - k + 1),
                    search_upward(self.spec_entries(), sc, last, 1) == search_upward(self.spec_entries(), sc, last, k as int),
                    table_find(self.spec_entries(), method_name.elems()) is None,
                    !method_name.is_null(),
                    method_name.spec_flag() == NameStringFlag::SingleRelativePath,
                decreases sc.len() + 1 - k,
            {
                scope.pop();
                let mut candidate = copy_vec(&scope);
                candidate.push(last);
                assert(candidate@ =~= ancestor_path(sc, k as int, last));
                match self.find(&candidate) {
                    Some(c) => {
                        assert(search_upward(self.spec_entries(), sc, last, k as int) == Some(c));
                        return Ok(c);
                    },
                    None => {},
                }
                k = k + 1;
            }
        }
        Err(AmlError::InvalidName(method_name.copy()))
    }
}

fn copy_vec(v: &Vec<[u8; 4]>) -> (r: Vec<[u8; 4]>)
    ensures
        r@ == v@,
{
    super::name_object::copy_segments(v)
}

} // verus!
