//! Table images: the bytes of an ACPI table as it lies in memory.
use vstd::prelude::*;
use crate::aml::stream::le_value;
use super::read_le_at;

verus! {

/// The length that the header of table `t` claims, at offset 4.
pub open spec fn table_length(t: Seq<u8>) -> int {
    le_value(t, 4, 4)
}

/// The value of bytes depends on those bytes alone.
pub proof fn lemma_le_value_same(a: Seq<u8>, b: Seq<u8>, p: int, n: nat)
    requires
        forall|i: int| p <= i < p + n ==> a[i] == b[i],
    ensures
        le_value(a, p, n) == le_value(b, p, n),
    decreases n,
{
    if n > 0 {
        lemma_le_value_same(a, b, p + 1, (n - 1) as nat);
    }
}

/// `bytes` begin with a table of at least `header` bytes that lies whole
/// within them.
pub open spec fn table_fits(bytes: Seq<u8>, header: int) -> bool {
    &&& 8 <= header <= bytes.len()
    &&& header <= table_length(bytes) <= bytes.len()
}

/// The table at the start of `bytes`: its first `length` bytes, or none
/// where it is shorter than `header` or longer than `bytes`.
pub fn load_table(bytes: &Vec<u8>, header: usize) -> (r: Option<Vec<u8>>)
    requires
        header >= 8,
    ensures
        r is Some <==> table_fits(bytes@, header as int),
        r matches Some(t) ==> t@ == bytes@.subrange(0, table_length(bytes@)),
{
    if bytes.len() < header {
        return None;
    }
    let length = read_le_at(bytes.as_slice(), 4, 4);
    if length < header as u64 || length > bytes.len() as u64 {
        return None;
    }
    let length = length as usize;
    let mut t: Vec<u8> = Vec::new();
    let mut i: usize = 0;
    while i < length
        invariant
            i <= length <= bytes@.len(),
            t@ == bytes@.subrange(0, i as int),
        decreases length - i,
    {
        t.push(bytes[i]);
        i = i + 1;
        proof {
            assert(t@ =~= bytes@.subrange(0, i as int));
        }
    }
    Some(t)
}

/// The bytes `t[from..to]`.
pub fn copy_range(t: &Vec<u8>, from: usize, to: usize) -> (r: Vec<u8>)
    requires
        from <= to <= t@.len(),
    ensures
        r@ == t@.subrange(from as int, to as int),
{
    let mut r: Vec<u8> = Vec::new();
    let mut i: usize = from;
    while i < to
        invariant
            from <= i <= to <= t@.len(),
            r@ == t@.subrange(from as int, i as int),
        decreases to - i,
    {
        r.push(t[i]);
        i = i + 1;
        proof {
            assert(r@ =~= t@.subrange(from as int, i as int));
        }
    }
    r
}

} // verus!
