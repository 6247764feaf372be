//! The arithmetic of loading an application: where each loadable segment
//! goes, and how much of the top of the new stack the arguments, the
//! environment and the auxiliary vector take.
use vstd::prelude::*;
use crate::aml::stream::{byte_bound, le_value, lemma_le_value_bound, read_le};

verus! {

/// The size of a page.
pub const PAGE_SIZE: usize = 0x1000;

/// The size of an entry of the auxiliary vector: a type and a value.
pub const AUX_ENTRY_SIZE: usize = 16;

/// What to do with a loadable segment: nothing (it takes no memory), or
/// map `aligned_size` bytes at `user_address`, the segment starting
/// `align_offset` bytes into them.
#[derive(Debug, Clone, Copy, PartialEq, Eq, Structural)]
pub enum SegmentPlan {
    Skip,
    Load { align_offset: usize, aligned_size: usize, user_address: usize },
}

/// What the loader reads from the head of an executable's ELF header.
#[derive(Debug, Clone, Copy, PartialEq, Eq, Structural)]
pub struct ElfHeaderInfo {
    pub entry_point: u64,
    pub program_header_offset: u64,
    pub program_header_entry_size: u16,
    pub program_header_count: u16,
}

/// The size of an ELF64 header.
pub const ELF64_HEADER_SIZE: usize = 64;

/// The ELF header at the start of `head` (the first bytes of a file, read
/// into a buffer of that length), where it describes an executable the
/// loader takes: the magic number, the 64-bit class and little-endian data,
/// the type of an executable file (2) and the machine `machine`, and its
/// program headers within `head`.
pub open spec fn spec_elf_header(head: Seq<u8>, machine: u16) -> Option<ElfHeaderInfo> {
    if head.len() < ELF64_HEADER_SIZE {
        None
    } else if !(head[0] == 0x7f && head[1] == 0x45 && head[2] == 0x4c && head[3] == 0x46 && head[4] == 2) {
        None
    } else if le_value(head, 16, 2) != 2 || le_value(head, 18, 2) != machine || head[5] != 1 {
        None
    } else {
        let offset = le_value(head, 32, 8);
        let size = le_value(head, 54, 2) * le_value(head, 56, 2);
        if offset + size > head.len() {
            None
        } else {
            Some(
                ElfHeaderInfo {
                    entry_point: le_value(head, 24, 8) as u64,
                    program_header_offset: offset as u64,
                    program_header_entry_size: le_value(head, 54, 2) as u16,
                    program_header_count: le_value(head, 56, 2) as u16,
                },
            )
        }
    }
}

/// Checks the ELF header at the start of `head` as `spec_elf_header` says;
/// none where the file is no executable the loader takes.
pub fn check_elf_header(head: &Vec<u8>, machine: u16) -> (r: Option<ElfHeaderInfo>)
    ensures
        r == spec_elf_header(head@, machine),
{
    if head.len() < ELF64_HEADER_SIZE {
        return None;
    }
    if !(head[0] == 0x7f && head[1] == 0x45 && head[2] == 0x4c && head[3] == 0x46 && head[4] == 2) {
        return None;
    }
    let file_type = read_le(head, 16, 2);
    let machine_type = read_le(head, 18, 2);
    if file_type != 2 || machine_type != machine as u64 || head[5] != 1 {
        return None;
    }
    let offset = read_le(head, 32, 8);
    let entry_size = read_le(head, 54, 2);
    let count = read_le(head, 56, 2);
    proof {
        lemma_le_value_bound(head@, 54, 2);
        lemma_le_value_bound(head@, 56, 2);
        reveal_with_fuel(byte_bound, 3);
        assert(entry_size < 65536 && count < 65536);
        assert(entry_size * count < 0x1_0000_0000) by (nonlinear_arith)
            requires
                entry_size < 65536,
                count < 65536,
        ;
    }
    let size = entry_size * count;
    if offset > head.len() as u64 || size > head.len() as u64 - offset {
        return None;
    }
    let entry_point = read_le(head, 24, 8);
    proof {
        lemma_le_value_bound(head@, 24, 8);
        lemma_le_value_bound(head@, 32, 8);
    }
    Some(
        ElfHeaderInfo {
            entry_point,
            program_header_offset: offset,
            program_header_entry_size: entry_size as u16,
            program_header_count: count as u16,
        },
    )
}

/// `n` rounded up to a whole number of pages.
pub open spec fn page_round_up(n: int) -> int {
    if n % (PAGE_SIZE as int) == 0 {
        n
    } else {
        n - n % (PAGE_SIZE as int) + PAGE_SIZE as int
    }
}

/// `n` is a power of two.
pub open spec fn is_power_of_two(n: u64) -> bool {
    n != 0 && n & ((n - 1) as u64) == 0
}

/// What `plan_load_segment` gives.
pub open spec fn spec_plan(vaddr: u64, file_offset: u64, align: u64, memory_size: u64) -> Option<SegmentPlan> {
    let alignment: u64 = if align >= 1 { align } else { 1 };
    let align_offset = vaddr & ((alignment - 1) as u64);
    if alignment != 1 && (align_offset != file_offset & ((alignment - 1) as u64) || !is_power_of_two(alignment)
        || alignment < PAGE_SIZE) {
        None
    } else if memory_size == 0 {
        Some(SegmentPlan::Skip)
    } else {
        Some(SegmentPlan::Load {
            align_offset: align_offset as usize,
            aligned_size: page_round_up(memory_size + align_offset) as usize,
            user_address: (vaddr - align_offset) as usize,
        })
    }
}

/// Checks a loadable segment of virtual address `vaddr`, file offset
/// `file_offset`, alignment `align` (0 counting as 1) and `memory_size`
/// bytes: an alignment other than 1 must be a power of two of a page or
/// more, and the address and the offset must agree below it. Gives where
/// the segment's pages go, or none where the segment is refused.
pub fn plan_load_segment(vaddr: u64, file_offset: u64, align: u64, memory_size: u64) -> (r: Option<SegmentPlan>)
    requires
        vaddr <= usize::MAX,
        memory_size + vaddr + PAGE_SIZE <= usize::MAX,
    ensures
        r == spec_plan(vaddr, file_offset, align, memory_size),
{
    let alignment: u64 = if align >= 1 {
        align
    } else {
        1
    };
    let mask = alignment - 1;
    let align_offset = vaddr & mask;
    let pow2 = alignment & (alignment - 1) == 0;
    if alignment != 1 && (align_offset != (file_offset & mask) || !pow2 || alignment < PAGE_SIZE as u64) {
        return None;
    }
    if memory_size == 0 {
        return Some(SegmentPlan::Skip);
    }
    assert(vaddr & mask <= vaddr) by (bit_vector);
    let total = (memory_size + align_offset) as usize;
    let rem = total % PAGE_SIZE;
    let aligned_size = if rem == 0 {
        total
    } else {
        total - rem + PAGE_SIZE
    };
    Some(
        SegmentPlan::Load {
            align_offset: align_offset as usize,
            aligned_size,
            user_address: (vaddr - align_offset) as usize,
        },
    )
}

/// The pages planned for a loadable segment hold it whole: they start at a
/// page (or at the segment, for an alignment of one), the segment starts
/// `align_offset` bytes into them, they are a whole number of pages, they
/// reach past the segment's last byte, and they take less than a page
/// more than the segment and its offset need.
pub proof fn lemma_plan_covers_segment(vaddr: u64, file_offset: u64, align: u64, memory_size: u64)
    requires
        vaddr <= usize::MAX,
        memory_size + vaddr + PAGE_SIZE <= usize::MAX,
    ensures
        spec_plan(vaddr, file_offset, align, memory_size) matches Some(SegmentPlan::Load { align_offset, aligned_size, user_address }) ==> {
            &&& user_address + align_offset == vaddr
            &&& aligned_size % PAGE_SIZE == 0
            &&& user_address + aligned_size >= vaddr + memory_size
            &&& aligned_size < memory_size + align_offset + PAGE_SIZE
            &&& (align > 1 ==> user_address % PAGE_SIZE == 0)
        },
        spec_plan(vaddr, file_offset, align, memory_size) == Some(SegmentPlan::Skip) ==> memory_size == 0,
{
    let alignment: u64 = if align >= 1 { align } else { 1 };
    let mask = (alignment - 1) as u64;
    let off = vaddr & mask;
    assert(vaddr & mask <= vaddr) by (bit_vector);
    if align > 1 && is_power_of_two(alignment) && alignment >= PAGE_SIZE {
        assert(mask & 0xFFFu64 == 0xFFFu64) by (bit_vector)
            requires
                alignment != 0,
                alignment & ((alignment - 1) as u64) == 0,
                alignment >= 0x1000u64,
                mask == (alignment - 1) as u64,
        ;
        let u: u64 = (vaddr - off) as u64;
        assert(u & 0xFFFu64 == 0) by (bit_vector)
            requires
                mask & 0xFFFu64 == 0xFFFu64,
                off == vaddr & mask,
                u == (vaddr - off) as u64,
                off <= vaddr,
        ;
        assert(u & 0xFFFu64 == u % 0x1000u64) by (bit_vector);
    }
}

/// The bytes that the strings take: each with its closing NUL, an
/// environment entry as `name=value`.
pub open spec fn strings_size(file_name_len: int, arg_lens: Seq<usize>, env_lens: Seq<(usize, usize)>) -> int {
    file_name_len + 1 + sum_args(arg_lens) + sum_envs(env_lens)
}

pub open spec fn sum_args(s: Seq<usize>) -> int
    decreases s.len(),
{
    if s.len() == 0 {
        0
    } else {
        sum_args(s.drop_last()) + s.last() + 1
    }
}

pub open spec fn sum_envs(s: Seq<(usize, usize)>) -> int
    decreases s.len(),
{
    if s.len() == 0 {
        0
    } else {
        sum_envs(s.drop_last()) + s.last().0 + 1 + s.last().1 + 1
    }
}

/// `n` rounded up to a multiple of eight.
pub open spec fn round_up8(n: int) -> int {
    if n % 8 == 0 {
        n
    } else {
        n - n % 8 + 8
    }
}

/// The offset below the top of the stack of the argument count that a new
/// program starts with: the strings and one auxiliary-vector entry,
/// rounded up to eight bytes, then the count, the argument pointers and
/// their NULL, the environment pointers and their NULL.
pub open spec fn spec_ap_offset(file_name_len: int, arg_lens: Seq<usize>, env_lens: Seq<(usize, usize)>) -> int {
    round_up8(strings_size(file_name_len, arg_lens, env_lens) + AUX_ENTRY_SIZE) + (1 + 1 + arg_lens.len() + 1
        + env_lens.len() + 1) * 8
}

proof fn lemma_sums_grow(a: Seq<usize>, e: Seq<(usize, usize)>)
    ensures
        sum_args(a) >= a.len(),
        sum_envs(e) >= 2 * e.len(),
    decreases a.len() + e.len(),
{
    if a.len() > 0 {
        lemma_sums_grow(a.drop_last(), e);
    } else if e.len() > 0 {
        lemma_sums_grow(a, e.drop_last());
    }
}

/// The offset of the argument count below the top of a new stack, for a
/// program file name of `file_name_len` bytes, arguments of `arg_lens`
/// bytes and environment entries of `env_lens` bytes (name and value);
/// none where it does not fit in the address width.
pub fn ap_offset_from_stack_top(file_name_len: usize, arg_lens: &Vec<usize>, env_lens: &Vec<(usize, usize)>) -> (r: Option<usize>)
    ensures
        r is Some <==> spec_ap_offset(file_name_len as int, arg_lens@, env_lens@) <= usize::MAX,
        r matches Some(o) ==> o == spec_ap_offset(file_name_len as int, arg_lens@, env_lens@),
{
    let mut total: usize = match file_name_len.checked_add(1) {
        Some(t) => t,
        None => {
            proof {
                lemma_sums_grow(arg_lens@, env_lens@);
            }
            return None;
        },
    };
    let mut i: usize = 0;
    while i < arg_lens.len()
        invariant
            i <= arg_lens@.len(),
            total == file_name_len + 1 + sum_args(arg_lens@.subrange(0, i as int)),
        decreases arg_lens@.len() - i,
    {
        proof {
            assert(arg_lens@.subrange(0, i + 1).drop_last() =~= arg_lens@.subrange(0, i as int));
        }
        let step = match arg_lens[i].checked_add(1) {
            Some(s) => s,
            None => {
                proof {
                    lemma_sums_monotone(arg_lens@, env_lens@, file_name_len as int, i as int);
                }
                return None;
            },
        };
        total = match total.checked_add(step) {
            Some(t) => t,
            None => {
                proof {
                    lemma_sums_monotone(arg_lens@, env_lens@, file_name_len as int, i as int);
                }
                return None;
            },
        };
        i = i + 1;
    }
    proof {
        assert(arg_lens@.subrange(0, arg_lens@.len() as int) =~= arg_lens@);
    }
    let mut j: usize = 0;
    while j < env_lens.len()
        invariant
            j <= env_lens@.len(),
            total == file_name_len + 1 + sum_args(arg_lens@) + sum_envs(env_lens@.subrange(0, j as int)),
        decreases env_lens@.len() - j,
    {
        proof {
            assert(env_lens@.subrange(0, j + 1).drop_last() =~= env_lens@.subrange(0, j as int));
        }
        let (k, v) = env_lens[j];
        let step = match k.checked_add(v) {
            Some(s) => match s.checked_add(2) {
                Some(s2) => s2,
                None => {
                    proof {
                        lemma_envs_monotone(arg_lens@, env_lens@, file_name_len as int, j as int);
                    }
                    return None;
                },
            },
            None => {
                proof {
                    lemma_envs_monotone(arg_lens@, env_lens@, file_name_len as int, j as int);
                }
                return None;
            },
        };
        total = match total.checked_add(step) {
            Some(t) => t,
            None => {
                proof {
                    lemma_envs_monotone(arg_lens@, env_lens@, file_name_len as int, j as int);
                }
                return None;
            },
        };
        j = j + 1;
    }
    proof {
        assert(env_lens@.subrange(0, env_lens@.len() as int) =~= env_lens@);
        lemma_sums_grow(arg_lens@, env_lens@);
    }
    let with_aux = match total.checked_add(AUX_ENTRY_SIZE) {
        Some(t) => t,
        None => {
            return None;
        },
    };
    let rounded = if with_aux % 8 != 0 {
        match (with_aux - with_aux % 8).checked_add(8) {
            Some(t) => t,
            None => {
                return None;
            },
        }
    } else {
        with_aux
    };
    let pointers = match arg_lens.len().checked_add(env_lens.len()) {
        Some(n) => match n.checked_add(4) {
            Some(n4) => match n4.checked_mul(8) {
                Some(p) => p,
                None => {
                    return None;
                },
            },
            None => {
                return None;
            },
        },
        None => {
            return None;
        },
    };
    rounded.checked_add(pointers)
}

proof fn lemma_sums_monotone(a: Seq<usize>, e: Seq<(usize, usize)>, f: int, i: int)
    requires
        0 <= i < a.len(),
        f >= 0,
    ensures
        f + 1 + sum_args(a.subrange(0, i)) + a[i] + 1 <= spec_ap_offset(f, a, e),
{
    lemma_sum_args_prefix(a, i + 1);
    assert(a.subrange(0, i + 1).drop_last() =~= a.subrange(0, i));
    lemma_sums_grow(a, e);
}

proof fn lemma_sum_args_prefix(a: Seq<usize>, k: int)
    requires
        0 <= k <= a.len(),
    ensures
        sum_args(a.subrange(0, k)) <= sum_args(a),
    decreases a.len() - k,
{
    if k < a.len() {
        lemma_sum_args_prefix(a, k + 1);
        assert(a.subrange(0, k + 1).drop_last() =~= a.subrange(0, k));
    } else {
        assert(a.subrange(0, k) =~= a);
    }
}

proof fn lemma_sum_envs_prefix(e: Seq<(usize, usize)>, k: int)
    requires
        0 <= k <= e.len(),
    ensures
        sum_envs(e.subrange(0, k)) <= sum_envs(e),
    decreases e.len() - k,
{
    if k < e.len() {
        lemma_sum_envs_prefix(e, k + 1);
        assert(e.subrange(0, k + 1).drop_last() =~= e.subrange(0, k));
    } else {
        assert(e.subrange(0, k) =~= e);
    }
}

proof fn lemma_envs_monotone(a: Seq<usize>, e: Seq<(usize, usize)>, f: int, j: int)
    requires
        0 <= j < e.len(),
        f >= 0,
    ensures
        f + 1 + sum_args(a) + sum_envs(e.subrange(0, j)) + e[j].0 + e[j].1 + 2 <= spec_ap_offset(f, a, e),
{
    lemma_sum_envs_prefix(e, j + 1);
    assert(e.subrange(0, j + 1).drop_last() =~= e.subrange(0, j));
    lemma_sums_grow(a, e);
}

/// The strings that a new program finds on its stack, each closed by a NUL,
/// in the order they are written down from the top: the file name, the
/// arguments, then each environment entry as `name=value`.
pub open spec fn string_entries(file_name: Seq<u8>, args: Seq<Vec<u8>>, envs: Seq<(Vec<u8>, Vec<u8>)>) -> Seq<
    Seq<u8>,
> {
    Seq::new(
        (1 + args.len() + envs.len()) as nat,
        |k: int|
            if k == 0 {
                file_name.push(0)
            } else if k <= args.len() {
                args[k - 1]@.push(0)
            } else {
                (envs[k - 1 - args.len()].0@.push(0x3d) + envs[k - 1 - args.len()].1@).push(0)
            },
    )
}

/// The bytes taken by the first `k` entries.
pub open spec fn total_len(e: Seq<Seq<u8>>, k: int) -> int
    decreases k,
{
    if k <= 0 {
        0
    } else {
        total_len(e, k - 1) + e[k - 1].len()
    }
}

/// The entries as they lie in memory, from the lowest address: the last
/// entry first, the first entry last.
pub open spec fn rev_concat(e: Seq<Seq<u8>>) -> Seq<u8>
    decreases e.len(),
{
    if e.len() == 0 {
        Seq::empty()
    } else {
        rev_concat(e.drop_first()) + e[0]
    }
}

/// The eight little-endian bytes of `v`.
pub open spec fn le8(v: u64) -> Seq<u8> {
    Seq::new(8, |i: int| ((v >> (8 * i) as u64) & 0xff) as u8)
}

/// Words laid one after the other, each as `le8`.
pub open spec fn words_bytes(ws: Seq<u64>) -> Seq<u8>
    decreases ws.len(),
{
    if ws.len() == 0 {
        Seq::empty()
    } else {
        words_bytes(ws.drop_last()) + le8(ws.last())
    }
}

/// The user address of each entry: entry `k` ends where entry `k - 1`
/// begins, and entry 0 ends at `user_top`.
pub open spec fn string_pointers(e: Seq<Seq<u8>>, user_top: int) -> Seq<u64> {
    Seq::new(e.len(), |k: int| (user_top - total_len(e, k + 1)) as u64)
}

/// The words at the bottom of the block: the argument count, the pointers
/// to the file name and the arguments, a NULL, the pointers to the
/// environment entries, a NULL that is also the type of the closing
/// auxiliary entry (`AT_NULL`), and that entry's value, 0.
pub open spec fn header_words(e: Seq<Seq<u8>>, arg_count: int, user_top: int) -> Seq<u64> {
    let p = string_pointers(e, user_top);
    seq![(arg_count + 1) as u64] + p.subrange(0, arg_count + 1) + seq![0u64] + p.subrange(arg_count + 1, e.len() as int)
        + seq![0u64, 0u64]
}

/// The size of the block: the strings and one auxiliary entry rounded up to
/// eight bytes, then the count and the two NULL-closed pointer arrays.
pub open spec fn image_len(e: Seq<Seq<u8>>, arg_count: int, env_count: int) -> int {
    round_up8(total_len(e, e.len() as int) + AUX_ENTRY_SIZE) + (arg_count + env_count + 4) * 8
}

/// The block at the top of a new program's stack, from its lowest address
/// (where the stack pointer starts) to `user_top`: the header words, zeros,
/// then the strings.
pub open spec fn spec_stack_image(
    file_name: Seq<u8>,
    args: Seq<Vec<u8>>,
    envs: Seq<(Vec<u8>, Vec<u8>)>,
    user_top: int,
) -> Seq<u8> {
    let e = string_entries(file_name, args, envs);
    let h = words_bytes(header_words(e, args.len() as int, user_top));
    let pad = image_len(e, args.len() as int, envs.len() as int) - h.len() - total_len(e, e.len() as int);
    h + Seq::new(pad as nat, |i: int| 0u8) + rev_concat(e)
}

proof fn lemma_total_len_mono(e: Seq<Seq<u8>>, k: int, j: int)
    requires
        0 <= k <= j <= e.len(),
    ensures
        total_len(e, k) <= total_len(e, j),
    decreases j - k,
{
    if k < j {
        lemma_total_len_mono(e, k, j - 1);
    }
}

proof fn lemma_words_bytes_len(ws: Seq<u64>)
    ensures
        words_bytes(ws).len() == 8 * ws.len(),
    decreases ws.len(),
{
    if ws.len() > 0 {
        lemma_words_bytes_len(ws.drop_last());
    }
}

/// The prefix sums over the file name and the first `i` arguments.
proof fn lemma_total_args(
    file_name: Seq<u8>,
    args: Seq<Vec<u8>>,
    envs: Seq<(Vec<u8>, Vec<u8>)>,
    arg_lens: Seq<usize>,
    i: int,
)
    requires
        0 <= i <= args.len(),
        arg_lens.len() == args.len(),
        forall|k: int| 0 <= k < args.len() ==> #[trigger] arg_lens[k] == args[k]@.len(),
    ensures
        total_len(string_entries(file_name, args, envs), 1 + i) == file_name.len() + 1 + sum_args(
            arg_lens.subrange(0, i),
        ),
    decreases i,
{
    let e = string_entries(file_name, args, envs);
    if i == 0 {
        assert(total_len(e, 0) == 0);
        assert(e[0] == file_name.push(0));
    } else {
        lemma_total_args(file_name, args, envs, arg_lens, i - 1);
        assert(arg_lens.subrange(0, i).drop_last() =~= arg_lens.subrange(0, i - 1));
        assert(e[i] == args[i - 1]@.push(0));
    }
}

/// The prefix sums over the file name, all arguments and the first `j`
/// environment entries.
proof fn lemma_total_envs(
    file_name: Seq<u8>,
    args: Seq<Vec<u8>>,
    envs: Seq<(Vec<u8>, Vec<u8>)>,
    arg_lens: Seq<usize>,
    env_lens: Seq<(usize, usize)>,
    j: int,
)
    requires
        0 <= j <= envs.len(),
        arg_lens.len() == args.len(),
        env_lens.len() == envs.len(),
        forall|k: int| 0 <= k < args.len() ==> #[trigger] arg_lens[k] == args[k]@.len(),
        forall|k: int| 0 <= k < envs.len() ==> (#[trigger] env_lens[k]).0 == envs[k].0@.len(),
        forall|k: int| 0 <= k < envs.len() ==> (#[trigger] env_lens[k]).1 == envs[k].1@.len(),
    ensures
        total_len(string_entries(file_name, args, envs), 1 + args.len() + j) == file_name.len() + 1 + sum_args(
            arg_lens,
        ) + sum_envs(env_lens.subrange(0, j)),
    decreases j,
{
    let e = string_entries(file_name, args, envs);
    let m = args.len() as int;
    if j == 0 {
        lemma_total_args(file_name, args, envs, arg_lens, m);
        assert(arg_lens.subrange(0, m) =~= arg_lens);
    } else {
        lemma_total_envs(file_name, args, envs, arg_lens, env_lens, j - 1);
        assert(env_lens.subrange(0, j).drop_last() =~= env_lens.subrange(0, j - 1));
        assert(e[m + j] == (envs[j - 1].0@.push(0x3d) + envs[j - 1].1@).push(0));
    }
}

/// The block that `build_initial_stack` lays out is exactly as long as the
/// offset that `ap_offset_from_stack_top` gives for the same lengths.
pub proof fn lemma_image_len_is_ap_offset(
    file_name: Seq<u8>,
    args: Seq<Vec<u8>>,
    envs: Seq<(Vec<u8>, Vec<u8>)>,
    arg_lens: Seq<usize>,
    env_lens: Seq<(usize, usize)>,
    user_top: int,
)
    requires
        arg_lens.len() == args.len(),
        env_lens.len() == envs.len(),
        forall|i: int| 0 <= i < args.len() ==> #[trigger] arg_lens[i] == args[i]@.len(),
        forall|i: int| 0 <= i < envs.len() ==> (#[trigger] env_lens[i]).0 == envs[i].0@.len(),
        forall|i: int| 0 <= i < envs.len() ==> (#[trigger] env_lens[i]).1 == envs[i].1@.len(),
    ensures
        spec_stack_image(file_name, args, envs, user_top).len() == spec_ap_offset(
            file_name.len() as int,
            arg_lens,
            env_lens,
        ),
{
    let e = string_entries(file_name, args, envs);
    lemma_total_envs(file_name, args, envs, arg_lens, env_lens, envs.len() as int);
    assert(env_lens.subrange(0, envs.len() as int) =~= env_lens);
    lemma_rev_concat_len(e);
    let hw = header_words(e, args.len() as int, user_top);
    lemma_words_bytes_len(hw);
    assert(hw.len() == args.len() + envs.len() + 5);
}

proof fn lemma_rev_concat_len(e: Seq<Seq<u8>>)
    ensures
        rev_concat(e).len() == total_len(e, e.len() as int),
    decreases e.len(),
{
    if e.len() > 0 {
        lemma_rev_concat_len(e.drop_first());
        lemma_total_len_shift(e, e.len() as int);
    }
}

/// Dropping the first entry takes its length off every prefix sum.
proof fn lemma_total_len_shift(e: Seq<Seq<u8>>, k: int)
    requires
        1 <= k <= e.len(),
    ensures
        total_len(e, k) == e[0].len() + total_len(e.drop_first(), k - 1),
    decreases k,
{
    assert(total_len(e, 0) == 0);
    assert(total_len(e.drop_first(), 0) == 0);
    if k > 1 {
        lemma_total_len_shift(e, k - 1);
        assert(e.drop_first()[k - 2] == e[k - 1]);
    }
}

/// Appends the eight little-endian bytes of `v`.
fn push_word(out: &mut Vec<u8>, v: u64)
    ensures
        final(out)@ == old(out)@ + le8(v),
{
    let ghost start = out@;
    let mut i: u64 = 0;
    while i < 8
        invariant
            i <= 8,
            out@ == start + le8(v).subrange(0, i as int),
        decreases 8 - i,
    {
        let b = ((v >> (8 * i)) & 0xff) as u8;
        proof {
            assert(le8(v).subrange(0, i + 1) =~= le8(v).subrange(0, i as int).push(b));
        }
        out.push(b);
        i = i + 1;
    }
    proof {
        assert(le8(v).subrange(0, 8) =~= le8(v));
    }
}

/// Appends the bytes of `src`.
fn push_bytes(out: &mut Vec<u8>, src: &Vec<u8>)
    ensures
        final(out)@ == old(out)@ + src@,
{
    let ghost start = out@;
    let mut i: usize = 0;
    while i < src.len()
        invariant
            i <= src@.len(),
            out@ == start + src@.subrange(0, i as int),
        decreases src@.len() - i,
    {
        proof {
            assert(src@.subrange(0, i + 1) =~= src@.subrange(0, i as int).push(src@[i as int]));
        }
        out.push(src[i]);
        i = i + 1;
    }
    proof {
        assert(src@.subrange(0, src@.len() as int) =~= src@);
    }
}

proof fn lemma_words_bytes_push(ws: Seq<u64>, w: u64)
    ensures
        words_bytes(ws.push(w)) == words_bytes(ws) + le8(w),
{
    assert(ws.push(w).drop_last() =~= ws);
}

/// The bytes of the block at the top of a new program's stack, from the
/// address where its stack pointer starts up to `stack_user_top`, for the
/// program file `file_name`, its `arguments` and its `environments`: the
/// argument count, the pointers to the file name and the arguments with a
/// closing NULL, the pointers to the environment entries with a closing
/// NULL that is also the type of the closing auxiliary entry, that entry's
/// value, zeros, and the NUL-closed strings, the file name topmost. None
/// where the block does not fit below `stack_user_top`.
pub fn build_initial_stack(
    file_name: &Vec<u8>,
    arguments: &Vec<Vec<u8>>,
    environments: &Vec<(Vec<u8>, Vec<u8>)>,
    stack_user_top: usize,
) -> (r: Option<Vec<u8>>)
    ensures
        r is Some <==> spec_stack_image(file_name@, arguments@, environments@, stack_user_top as int).len()
            <= stack_user_top,
        r matches Some(img) ==> img@ == spec_stack_image(
            file_name@,
            arguments@,
            environments@,
            stack_user_top as int,
        ),
{
    let ghost e = string_entries(file_name@, arguments@, environments@);
    let m = arguments.len();
    let n = environments.len();
    let mut arg_lens: Vec<usize> = Vec::new();
    let mut i: usize = 0;
    while i < m
        invariant
            i <= m == arguments@.len(),
            arg_lens@.len() == i,
            forall|k: int| 0 <= k < i ==> #[trigger] arg_lens@[k] == arguments@[k]@.len(),
        decreases m - i,
    {
        arg_lens.push(arguments[i].len());
        i = i + 1;
    }
    let mut env_lens: Vec<(usize, usize)> = Vec::new();
    let mut j: usize = 0;
    while j < n
        invariant
            j <= n == environments@.len(),
            env_lens@.len() == j,
            forall|k: int| 0 <= k < j ==> (#[trigger] env_lens@[k]).0 == environments@[k].0@.len(),
            forall|k: int| 0 <= k < j ==> (#[trigger] env_lens@[k]).1 == environments@[k].1@.len(),
        decreases n - j,
    {
        env_lens.push((environments[j].0.len(), environments[j].1.len()));
        j = j + 1;
    }
    proof {
        lemma_image_len_is_ap_offset(
            file_name@,
            arguments@,
            environments@,
            arg_lens@,
            env_lens@,
            stack_user_top as int,
        );
        lemma_total_envs(file_name@, arguments@, environments@, arg_lens@, env_lens@, n as int);
        assert(env_lens@.subrange(0, n as int) =~= env_lens@);
    }
    let ap_offset = match ap_offset_from_stack_top(file_name.len(), &arg_lens, &env_lens) {
        Some(o) => o,
        None => {
            return None;
        },
    };
    if ap_offset > stack_user_top {
        return None;
    }
    let ghost total = total_len(e, e.len() as int);
    let ghost hw = header_words(e, m as int, stack_user_top as int);
    assert(total <= ap_offset);
    let count = m + n + 1;
    let mut out: Vec<u8> = Vec::new();
    push_word(&mut out, (m + 1) as u64);
    proof {
        assert(hw.subrange(0, 1) =~= seq![(m + 1) as u64]);
        assert(seq![(m + 1) as u64] =~= Seq::<u64>::empty().push((m + 1) as u64));
        lemma_words_bytes_push(Seq::<u64>::empty(), (m + 1) as u64);
    }
    let mut cum: usize = 0;
    let mut k: usize = 0;
    while k < count
        invariant
            count == m + n + 1 == e.len(),
            m == arguments@.len(),
            n == environments@.len(),
            k <= count,
            e == string_entries(file_name@, arguments@, environments@),
            hw == header_words(e, m as int, stack_user_top as int),
            total == total_len(e, e.len() as int),
            total <= ap_offset <= stack_user_top,
            cum == total_len(e, k as int),
            out@ == words_bytes(hw.subrange(0, if k <= m { 1 + k } else { 2 + k })),
        decreases count - k,
    {
        proof {
            lemma_total_len_mono(e, k + 1, e.len() as int);
        }
        let size = if k == 0 {
            file_name.len() + 1
        } else if k <= m {
            arguments[k - 1].len() + 1
        } else {
            environments[k - 1 - m].0.len() + environments[k - 1 - m].1.len() + 2
        };
        assert(size == e[k as int].len());
        cum = cum + size;
        let ghost w: int = if k <= m { 1 + k } else { 2 + k };
        let ptr = (stack_user_top - cum) as u64;
        proof {
            assert(hw[w] == ptr);
            assert(hw.subrange(0, w + 1) =~= hw.subrange(0, w).push(ptr));
            lemma_words_bytes_push(hw.subrange(0, w), ptr);
        }
        push_word(&mut out, ptr);
        if k == m {
            proof {
                assert(hw[w + 1] == 0u64);
                assert(hw.subrange(0, w + 2) =~= hw.subrange(0, w + 1).push(0u64));
                lemma_words_bytes_push(hw.subrange(0, w + 1), 0u64);
            }
            push_word(&mut out, 0);
        }
        k = k + 1;
    }
    proof {
        let w = count + 2;
        assert(hw[w] == 0u64);
        assert(hw[w + 1] == 0u64);
        assert(hw.subrange(0, w + 1) =~= hw.subrange(0, w).push(0u64));
        lemma_words_bytes_push(hw.subrange(0, w), 0u64);
        assert(hw.subrange(0, w + 2) =~= hw.subrange(0, w + 1).push(0u64));
        lemma_words_bytes_push(hw.subrange(0, w + 1), 0u64);
        assert(hw.subrange(0, w + 2) =~= hw);
    }
    push_word(&mut out, 0);
    push_word(&mut out, 0);
    let ghost h = out@;
    proof {
        lemma_words_bytes_len(hw);
    }
    let pad = ap_offset - out.len() - cum;
    let mut z: usize = 0;
    while z < pad
        invariant
            z <= pad,
            out@ == h + Seq::new(z as nat, |i: int| 0u8),
        decreases pad - z,
    {
        proof {
            assert(Seq::new((z + 1) as nat, |i: int| 0u8) =~= Seq::new(z as nat, |i: int| 0u8).push(0u8));
        }
        out.push(0);
        z = z + 1;
    }
    let ghost zeros = Seq::new(pad as nat, |i: int| 0u8);
    let mut k: usize = count;
    while k > 0
        invariant
            count == m + n + 1 == e.len(),
            m == arguments@.len(),
            n == environments@.len(),
            k <= count,
            e == string_entries(file_name@, arguments@, environments@),
            out@ == h + zeros + rev_concat(e.subrange(k as int, count as int)),
        decreases k,
    {
        let ghost before = out@;
        k = k - 1;
        if k == 0 {
            push_bytes(&mut out, file_name);
            out.push(0);
        } else if k <= m {
            push_bytes(&mut out, &arguments[k - 1]);
            out.push(0);
        } else {
            push_bytes(&mut out, &environments[k - 1 - m].0);
            out.push(0x3d);
            push_bytes(&mut out, &environments[k - 1 - m].1);
            out.push(0);
        }
        proof {
            assert(out@ =~= before + e[k as int]);
            assert(e.subrange(k as int, count as int).drop_first() =~= e.subrange(k + 1, count as int));
        }
    }
    proof {
        assert(e.subrange(0, count as int) =~= e);
    }
    Some(out)
}

/// Entry `k` lies in `rev_concat(e)` after the entries that follow it.
proof fn lemma_rev_concat_index(e: Seq<Seq<u8>>, k: int, j: int)
    requires
        0 <= k < e.len(),
        0 <= j < e[k].len(),
    ensures
        rev_concat(e)[total_len(e, e.len() as int) - total_len(e, k + 1) + j] == e[k][j],
    decreases e.len(),
{
    let d = e.drop_first();
    lemma_rev_concat_len(d);
    lemma_total_len_shift(e, e.len() as int);
    assert(rev_concat(e) == rev_concat(d) + e[0]);
    if k == 0 {
        assert(total_len(e, 1) == e[0].len()) by {
            assert(total_len(e, 0) == 0);
        }
    } else {
        lemma_rev_concat_index(d, k - 1, j);
        lemma_total_len_shift(e, k + 1);
        lemma_total_len_mono(d, k, d.len() as int);
        lemma_total_len_mono(d, 0, k - 1);
        assert(total_len(d, 0) == 0);
        assert(d[k - 1] == e[k]);
        assert(total_len(d, k) == total_len(d, k - 1) + d[k - 1].len());
    }
}

/// Every pointer of the block reaches its string: in the block built for
/// `user_top`, the byte at the user address held in pointer `k`, plus `j`,
/// is byte `j` of entry `k` (the file name, then the arguments, then the
/// environment entries).
pub proof fn lemma_pointer_reaches_string(
    file_name: Seq<u8>,
    args: Seq<Vec<u8>>,
    envs: Seq<(Vec<u8>, Vec<u8>)>,
    user_top: int,
    k: int,
    j: int,
)
    requires
        spec_stack_image(file_name, args, envs, user_top).len() <= user_top <= usize::MAX,
        0 <= k < 1 + args.len() + envs.len(),
        0 <= j < string_entries(file_name, args, envs)[k].len(),
    ensures
        ({
            let img = spec_stack_image(file_name, args, envs, user_top);
            let e = string_entries(file_name, args, envs);
            img[string_pointers(e, user_top)[k] - (user_top - img.len()) + j] == e[k][j]
        }),
{
    let e = string_entries(file_name, args, envs);
    let hw = header_words(e, args.len() as int, user_top);
    let h = words_bytes(hw);
    let total = total_len(e, e.len() as int);
    lemma_words_bytes_len(hw);
    lemma_rev_concat_len(e);
    lemma_rev_concat_index(e, k, j);
    lemma_total_len_mono(e, k + 1, e.len() as int);
    assert(hw.len() == args.len() + envs.len() + 5);
    let pad = image_len(e, args.len() as int, envs.len() as int) - h.len() - total;
    assert(pad >= 0);
    let img = spec_stack_image(file_name, args, envs, user_top);
    assert(img.len() == h.len() + pad + total);
    lemma_total_len_mono(e, 0, k + 1);
    assert(total_len(e, 0) == 0);
    assert(0 <= user_top - total_len(e, k + 1) <= usize::MAX);
    assert(string_pointers(e, user_top)[k] == user_top - total_len(e, k + 1));
    lemma_total_len_mono(e, 0, k);
    assert(total_len(e, k + 1) == total_len(e, k) + e[k].len());
    let pre = h + Seq::new(pad as nat, |i: int| 0u8);
    assert(img == pre + rev_concat(e));
    let idx = pre.len() + total - total_len(e, k + 1) + j;
    assert(img[idx] == rev_concat(e)[total - total_len(e, k + 1) + j]);
}

} // verus!
