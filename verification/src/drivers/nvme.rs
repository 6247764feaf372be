//! NVMe: decoding the controller's registers, the admin and I/O queues as
//! rings of command slots, the commands the driver builds, and the checks
//! of a read before it is submitted.
use vstd::prelude::*;

verus! {

/// A completed command succeeded where its status field, the bits of the
/// fourth double word from 17 on, is 0 (bit 16 is the phase tag).
pub fn is_command_successful(result: &[u32; 4]) -> (r: bool)
    ensures
        r == (result[3] as int / 0x20000 == 0),
{
    let v = result[3];
    let r = ((v >> 16) & !1u32) == 0;
    assert(((v >> 16) & !1u32 == 0) == (v / 0x20000 == 0)) by (bit_vector);
    r
}

/// The offset of the doorbells in the controller's registers.
pub const PCIE_SPECIFIC_DEFINITIONS_BASE: usize = 0x1000;
/// The size of a submission queue entry.
pub const SUBMISSION_ENTRY_SIZE: usize = 64;
/// The size of a completion queue entry.
pub const COMPLETION_ENTRY_SIZE: usize = 16;
/// The size of every queue the driver makes.
pub const QUEUE_SIZE: usize = 0x1000;
/// The highest version the driver accepts (2.0).
pub const MAX_SUPPORTED_VERSION: u32 = 0x20000;

pub const QUEUE_COMMAND_CREATE_IO_SUBMISSION_QUEUE: u32 = 0x01;
pub const QUEUE_COMMAND_CREATE_IO_COMPLETION_QUEUE: u32 = 0x05;
pub const QUEUE_COMMAND_IDENTIFY: u32 = 0x06;
pub const IO_COMMAND_READ: u32 = 0x02;

/// What the driver takes from the capabilities register.
#[derive(Debug, Clone, Copy, PartialEq, Eq, Structural)]
pub struct NvmeCapabilities {
    /// The smallest memory page size, as a power of two above 4 KiB.
    pub memory_page_min: u8,
    /// The distance between doorbells in bytes.
    pub stride: usize,
    /// The largest number of entries of a queue.
    pub max_queue: u16,
    /// Bit 7 of the command sets supported: only the admin command set.
    pub no_io_command_set: bool,
}

/// Decodes the capabilities register: MPSMIN is bits 48 to 51, CSS bits 37
/// to 44, DSTRD bits 32 to 35 (the stride is 4 bytes shifted up by it), and
/// MQES bits 0 to 15 (the number of entries less one, wrapping at 16 bits).
pub fn decode_capabilities(cap: u64) -> (r: NvmeCapabilities)
    ensures
        r.memory_page_min == ((cap >> 48u64) & 0xf) as u8,
        r.stride == 4 * pow2_small(((cap >> 32u64) & 0xf) as nat),
        r.max_queue == ((cap & 0xffff) as u16).wrapping_add(1),
        r.no_io_command_set == (((cap >> 37u64) & 0x80) != 0),
{
    assert((cap >> 32u64) & 0xf <= 15) by (bit_vector);
    let dstrd = ((cap >> 32u64) & 0xf) as usize;
    let mut stride: usize = 4;
    let mut i: usize = 0;
    while i < dstrd
        invariant
            i <= dstrd <= 15,
            stride == 4 * pow2_small(i as nat),
            stride <= 4 * 0x8000,
        decreases dstrd - i,
    {
        proof {
            lemma_pow2_small_bound(i as nat);
        }
        stride = stride * 2;
        i = i + 1;
    }
    NvmeCapabilities {
        memory_page_min: ((cap >> 48u64) & 0xf) as u8,
        stride,
        max_queue: ((cap & 0xffff) as u16).wrapping_add(1),
        no_io_command_set: ((cap >> 37u64) & 0x80) != 0,
    }
}

/// `2` to the power `n`.
pub open spec fn pow2_small(n: nat) -> int
    decreases n,
{
    if n == 0 {
        1
    } else {
        2 * pow2_small((n - 1) as nat)
    }
}

proof fn lemma_pow2_small_mono(a: nat, b: nat)
    requires
        a <= b,
    ensures
        1 <= pow2_small(a) <= pow2_small(b),
    decreases b,
{
    if b > 0 {
        if a < b {
            lemma_pow2_small_mono(a, (b - 1) as nat);
        } else {
            lemma_pow2_small_mono((a - 1) as nat, (b - 1) as nat);
        }
    }
}

proof fn lemma_pow2_small_bound(n: nat)
    requires
        n < 15,
    ensures
        pow2_small(n) * 2 <= 0x8000,
        pow2_small(n) >= 1,
{
    lemma_pow2_small_mono(n, 14);
    assert(pow2_small(14) == 0x4000) by {
        reveal_with_fuel(pow2_small, 15);
    }
}

/// The queue entry sizes that the configuration register gives, as powers
/// of two: the completion entry size (IOCQES, bits 20 to 23, 4 where zero)
/// and the submission entry size (IOSQES, bits 16 to 19, 6 where zero).
pub fn queue_entry_sizes(cc: u32) -> (r: (u32, u32))
    ensures
        r.0 == if (cc >> 20u32) & 0xf == 0 { 4 } else { (cc >> 20u32) & 0xf },
        r.1 == if (cc >> 16u32) & 0xf == 0 { 6 } else { (cc >> 16u32) & 0xf },
{
    let c = (cc >> 20u32) & 0xf;
    let s = (cc >> 16u32) & 0xf;
    (if c == 0 {
        4
    } else {
        c
    }, if s == 0 {
        6
    } else {
        s
    })
}

/// How the controller is set up.
#[derive(Debug, Clone, Copy, PartialEq, Eq, Structural)]
pub struct NvmeSetup {
    pub stride: usize,
    pub max_queue: u16,
    /// The configuration to write first to stop an enabled controller.
    pub reset_value: Option<u32>,
    /// The configuration that enables the controller.
    pub enable_value: u32,
    /// The number of entries of the admin completion and submission queues.
    pub admin_completion_entries: u16,
    pub admin_submission_entries: u16,
}

/// Why the controller cannot be set up.
#[derive(Debug, Clone, Copy, PartialEq, Eq, Structural)]
pub enum NvmeSetupError {
    /// A version above 2.0.
    UnsupportedVersion,
    /// A smallest memory page above 4 KiB.
    UnsupportedPageSize,
    /// Queue entries other than 64-byte submissions and 16-byte completions.
    UnsupportedQueueEntrySize,
}

/// The setup of a controller of version `version`, capabilities `cap` and
/// configuration `cc`: refused for a version above 2.0, a smallest page
/// above 4 KiB, or entry sizes other than 2^6 and 2^4; an enabled
/// controller is stopped first; the admin queues are a page each; the
/// enabling configuration holds the entry sizes and the enable bit.
pub fn plan_controller_setup(version: u32, cap: u64, cc: u32) -> (r: Result<NvmeSetup, NvmeSetupError>)
    ensures
        version > MAX_SUPPORTED_VERSION ==> r == Err::<NvmeSetup, NvmeSetupError>(
            NvmeSetupError::UnsupportedVersion,
        ),
        version <= MAX_SUPPORTED_VERSION && (cap >> 48u64) & 0xf != 0 ==> r == Err::<NvmeSetup, NvmeSetupError>(
            NvmeSetupError::UnsupportedPageSize,
        ),
        version <= MAX_SUPPORTED_VERSION && (cap >> 48u64) & 0xf == 0 && !(((cc >> 20u32) & 0xf == 0 || (cc
            >> 20u32) & 0xf == 4) && ((cc >> 16u32) & 0xf == 0 || (cc >> 16u32) & 0xf == 6)) ==> r == Err::<
            NvmeSetup,
            NvmeSetupError,
        >(NvmeSetupError::UnsupportedQueueEntrySize),
        r matches Ok(s) ==> s.stride == 4 * pow2_small(((cap >> 32u64) & 0xf) as nat) && s.max_queue == ((cap
            & 0xffff) as u16).wrapping_add(1) && s.reset_value == (if cc & 1 != 0 {
            Some(cc & !1u32)
        } else {
            None
        }) && s.enable_value == (4u32 << 20u32) | (6u32 << 16u32) | 1 && s.admin_completion_entries == 256
            && s.admin_submission_entries == 64,
        version <= MAX_SUPPORTED_VERSION && (cap >> 48u64) & 0xf == 0 && ((cc >> 20u32) & 0xf == 0 || (cc
            >> 20u32) & 0xf == 4) && ((cc >> 16u32) & 0xf == 0 || (cc >> 16u32) & 0xf == 6) ==> r is Ok,
{
    if version > MAX_SUPPORTED_VERSION {
        return Err(NvmeSetupError::UnsupportedVersion);
    }
    let caps = decode_capabilities(cap);
    assert((cap >> 48u64) & 0xf <= 15) by (bit_vector);
    if caps.memory_page_min > 0 {
        return Err(NvmeSetupError::UnsupportedPageSize);
    }
    let (completion, submission) = queue_entry_sizes(cc);
    if submission != 6 || completion != 4 {
        return Err(NvmeSetupError::UnsupportedQueueEntrySize);
    }
    let reset_value = if (cc & 1) != 0 {
        Some(cc & !1u32)
    } else {
        None
    };
    Ok(
        NvmeSetup {
            stride: caps.stride,
            max_queue: caps.max_queue,
            reset_value,
            enable_value: (completion << 20u32) | (submission << 16u32) | 1,
            admin_completion_entries: (QUEUE_SIZE / COMPLETION_ENTRY_SIZE) as u16,
            admin_submission_entries: (QUEUE_SIZE / SUBMISSION_ENTRY_SIZE) as u16,
        },
    )
}

/// The admin queue attributes to write: the numbers of entries of the two
/// admin queues as the driver writes them (not less one), completions in
/// the upper half; none where either exceeds the controller's maximum.
pub fn admin_queue_attributes(setup: &NvmeSetup) -> (r: Option<u32>)
    ensures
        r is Some <==> setup.admin_completion_entries <= setup.max_queue && setup.admin_submission_entries
            <= setup.max_queue,
        r matches Some(v) ==> v == ((setup.admin_completion_entries as u32) << 16u32) | (
        setup.admin_submission_entries as u32),
{
    if setup.admin_completion_entries > setup.max_queue || setup.admin_submission_entries > setup.max_queue {
        return None;
    }
    Some(((setup.admin_completion_entries as u32) << 16u32) | (setup.admin_submission_entries as u32))
}

/// Whether base address register 0 maps memory (bit 0 clear), and is a
/// 64-bit one (type bits 1 and 2 equal to 2).
pub fn bar_kind(bar0: u32) -> (r: (bool, bool))
    ensures
        r.0 == (bar0 & 1 == 0),
        r.1 == ((bar0 >> 1u32) & 3 == 2),
{
    ((bar0 & 1) == 0, ((bar0 >> 1u32) & 3) == 2)
}

/// The physical base address of the registers: BAR 0 without its four flag
/// bits, with BAR 1 as the upper half for a 64-bit BAR.
pub fn bar_base_address(bar0: u32, bar1: u32, is_64bit: bool) -> (r: u64)
    ensures
        r == ((bar0 & !0xfu32) as u64) | (if is_64bit { (bar1 as u64) << 32u64 } else { 0 }),
{
    ((bar0 & !0xfu32) as u64) | (if is_64bit {
        (bar1 as u64) << 32u64
    } else {
        0
    })
}

/// The offset of the submission tail doorbell of queue `id`.
pub open spec fn submission_doorbell(id: usize, stride: usize) -> int {
    PCIE_SPECIFIC_DEFINITIONS_BASE + (2 * id) * stride
}

/// The offset of the completion head doorbell of queue `id`.
pub open spec fn completion_doorbell(id: usize, stride: usize) -> int {
    PCIE_SPECIFIC_DEFINITIONS_BASE + (2 * id + 1) * stride
}

/// A queue pair as a ring of command slots: the next submission slot, the
/// next completion slot and the number given to the next command (never 0).
pub struct NvmeQueue {
    id: usize,
    submission_current_pointer: u16,
    completion_current_pointer: u16,
    next_command_id: u16,
    number_of_completion_queue_entries: u16,
    number_of_submission_queue_entries: u16,
}

/// What submitting a command comes to: the command with its number, the
/// offset of its slot in the submission queue, and the doorbell to write
/// with the new tail.
#[derive(Debug, Clone, Copy)]
pub struct Submission {
    pub command: [u32; 16],
    pub slot_offset: usize,
    pub doorbell_offset: usize,
    pub tail: u32,
    pub command_id: u16,
}

/// What taking a completion comes to: the offset of its slot in the
/// completion queue (whose fourth double word is then cleared), and the
/// doorbell to write with the new head.
#[derive(Debug, Clone, Copy, PartialEq, Eq, Structural)]
pub struct Completion {
    pub slot_offset: usize,
    pub doorbell_offset: usize,
    pub head: u32,
}

/// The slot after `p` in a ring of `n` slots.
pub open spec fn next_slot(p: u16, n: u16) -> u16 {
    if p + 1 >= n {
        0
    } else {
        (p + 1) as u16
    }
}

impl NvmeQueue {
    pub closed spec fn spec_id(&self) -> usize {
        self.id
    }

    pub closed spec fn submission_pointer(&self) -> u16 {
        self.submission_current_pointer
    }

    pub closed spec fn completion_pointer(&self) -> u16 {
        self.completion_current_pointer
    }

    pub closed spec fn next_id(&self) -> u16 {
        self.next_command_id
    }

    pub closed spec fn completion_entries(&self) -> u16 {
        self.number_of_completion_queue_entries
    }

    pub closed spec fn submission_entries(&self) -> u16 {
        self.number_of_submission_queue_entries
    }

    /// The pointers lie within their rings (or are 0).
    pub open spec fn wf(&self) -> bool {
        &&& (self.submission_pointer() == 0 || self.submission_pointer() < self.submission_entries())
        &&& (self.completion_pointer() == 0 || self.completion_pointer() < self.completion_entries())
    }

    pub fn new(id: usize, number_of_completion_queue_entries: u16, number_of_submission_queue_entries: u16) -> (r: Self)
        ensures
            r.wf(),
            r.spec_id() == id,
            r.submission_pointer() == 0,
            r.completion_pointer() == 0,
            r.next_id() == 0,
            r.completion_entries() == number_of_completion_queue_entries,
            r.submission_entries() == number_of_submission_queue_entries,
    {
        NvmeQueue {
            id,
            submission_current_pointer: 0,
            completion_current_pointer: 0,
            next_command_id: 0,
            number_of_completion_queue_entries,
            number_of_submission_queue_entries,
        }
    }

    pub fn get_id(&self) -> (r: usize)
        ensures
            r == self.spec_id(),
    {
        self.id
    }

    /// Submits `command`: it gets the next number (1 after 0, the number
    /// wrapping at 16 bits) in the upper half of its first double word and
    /// goes into the current slot; the tail moves to the next slot.
    pub fn submit(&mut self, command: [u32; 16], stride: usize) -> (r: Submission)
        requires
            old(self).wf(),
            stride >= 1,
            submission_doorbell(old(self).spec_id(), stride) <= usize::MAX,
        ensures
            final(self).wf(),
            ({
                let id = if old(self).next_id() == 0 { 1u16 } else { old(self).next_id() };
                &&& r.command_id == id
                &&& r.command[0] == (command[0] & 0xffff) | ((id as u32) << 16u32)
                &&& forall|i: int| 1 <= i < 16 ==> r.command[i] == command[i]
                &&& r.slot_offset == old(self).submission_pointer() * SUBMISSION_ENTRY_SIZE
                &&& r.doorbell_offset == submission_doorbell(old(self).spec_id(), stride)
                &&& final(self).submission_pointer() == next_slot(
                    old(self).submission_pointer(),
                    old(self).submission_entries(),
                )
                &&& r.tail == final(self).submission_pointer() as u32
                &&& final(self).next_id() == id.wrapping_add(1)
            }),
            final(self).spec_id() == old(self).spec_id(),
            final(self).completion_pointer() == old(self).completion_pointer(),
            final(self).completion_entries() == old(self).completion_entries(),
            final(self).submission_entries() == old(self).submission_entries(),
    {
        if self.next_command_id == 0 {
            self.next_command_id = 1;
        }
        let command_id = self.next_command_id;
        let mut c = command;
        c[0] = (c[0] & 0xffff) | ((command_id as u32) << 16u32);
        let slot_offset = (self.submission_current_pointer as usize) * SUBMISSION_ENTRY_SIZE;
        let mut next = self.submission_current_pointer as u32 + 1;
        if next >= self.number_of_submission_queue_entries as u32 {
            next = 0;
        }
        self.submission_current_pointer = next as u16;
        self.next_command_id = command_id.wrapping_add(1);
        proof {
            let i = self.id as int;
            assert(2 * i <= (2 * i) * stride) by (nonlinear_arith)
                requires
                    stride >= 1,
                    i >= 0,
            ;
        }
        Submission {
            command: c,
            slot_offset,
            doorbell_offset: PCIE_SPECIFIC_DEFINITIONS_BASE + (2 * self.id) * stride,
            tail: next,
            command_id,
        }
    }

    /// Takes the completion in the current slot: the head moves to the next
    /// slot.
    pub fn take_completion(&mut self, stride: usize) -> (r: Completion)
        requires
            old(self).wf(),
            stride >= 1,
            completion_doorbell(old(self).spec_id(), stride) <= usize::MAX,
        ensures
            final(self).wf(),
            r.slot_offset == old(self).completion_pointer() * COMPLETION_ENTRY_SIZE,
            r.doorbell_offset == completion_doorbell(old(self).spec_id(), stride),
            final(self).completion_pointer() == next_slot(
                old(self).completion_pointer(),
                old(self).completion_entries(),
            ),
            r.head == final(self).completion_pointer() as u32,
            final(self).spec_id() == old(self).spec_id(),
            final(self).submission_pointer() == old(self).submission_pointer(),
            final(self).next_id() == old(self).next_id(),
            final(self).completion_entries() == old(self).completion_entries(),
            final(self).submission_entries() == old(self).submission_entries(),
    {
        let slot_offset = (self.completion_current_pointer as usize) * COMPLETION_ENTRY_SIZE;
        let mut next = self.completion_current_pointer as u32 + 1;
        if next >= self.number_of_completion_queue_entries as u32 {
            next = 0;
        }
        self.completion_current_pointer = next as u16;
        proof {
            let i = self.id as int;
            assert(2 * i + 1 <= (2 * i + 1) * stride) by (nonlinear_arith)
                requires
                    stride >= 1,
                    i >= 0,
            ;
        }
        Completion {
            slot_offset,
            doorbell_offset: PCIE_SPECIFIC_DEFINITIONS_BASE + (2 * self.id + 1) * stride,
            head: next,
        }
    }
}

/// Whether the completion entry whose fourth double word is `dword3` has
/// been posted (its phase tag, bit 16, is set).
pub fn is_completion_posted(dword3: u32) -> (r: bool)
    ensures
        r == (dword3 & 0x10000 != 0),
{
    (dword3 & 0x10000) != 0
}

/// The number of the command that a completion entry answers.
pub fn completion_command_id(dword3: u32) -> (r: u16)
    ensures
        r == (dword3 & 0xffff) as u16,
{
    (dword3 & 0xffff) as u16
}

/// The command with opcode `opcode` in the first double word, and the
/// 64-bit address `prp1` in double words 6 and 7; the rest zero.
pub open spec fn base_command(opcode: u32, prp1: u64) -> Seq<u32> {
    seq![opcode, 0, 0, 0, 0, 0, (prp1 & 0xffff_ffff) as u32, (prp1 >> 32u64) as u32, 0, 0, 0, 0, 0, 0, 0, 0]
}

fn command_with_address(opcode: u32, prp1: u64) -> (r: [u32; 16])
    ensures
        r@ == base_command(opcode, prp1),
{
    let mut c = [0u32; 16];
    c.set(0, opcode);
    c.set(6, (prp1 & 0xffff_ffff) as u32);
    c.set(7, (prp1 >> 32u64) as u32);
    assert(c@ =~= base_command(opcode, prp1));
    c
}

/// The identify command for the structure `cns` of namespace
/// `namespace_id`, written to `output`.
pub fn identify_command(output: u64, cns: u32, namespace_id: u32) -> (r: [u32; 16])
    ensures
        r@ == base_command(QUEUE_COMMAND_IDENTIFY, output).update(1, namespace_id).update(10, cns),
{
    let mut c = command_with_address(QUEUE_COMMAND_IDENTIFY, output);
    c.set(1, namespace_id);
    c.set(10, cns);
    c
}

/// The command that creates the I/O completion queue `queue_id` of
/// `queue_size` entries at `queue`, raising `interrupt_vector` where
/// interrupts are enabled (physically contiguous).
pub fn create_completion_queue_command(
    queue: u64,
    queue_size: u16,
    queue_id: u16,
    interrupt_vector: u16,
    interrupts_enabled: bool,
) -> (r: [u32; 16])
    requires
        queue_size >= 1,
    ensures
        r@ == base_command(QUEUE_COMMAND_CREATE_IO_COMPLETION_QUEUE, queue).update(
            10,
            (((queue_size - 1) as u32) << 16u32) | (queue_id as u32),
        ).update(11, ((interrupt_vector as u32) << 16u32) | ((if interrupts_enabled { 1u32 } else { 0u32 }) << 1u32) | 1),
{
    let mut c = command_with_address(QUEUE_COMMAND_CREATE_IO_COMPLETION_QUEUE, queue);
    c.set(10, (((queue_size - 1) as u32) << 16u32) | (queue_id as u32));
    let ie: u32 = if interrupts_enabled {
        1
    } else {
        0
    };
    c.set(11, ((interrupt_vector as u32) << 16u32) | (ie << 1u32) | 1);
    c
}

/// The command that creates the I/O submission queue
/// `submission_queue_id` of `queue_size` entries at `queue`, completing
/// into `completion_queue_id`, with priority `queue_priority`.
pub fn create_submission_queue_command(
    queue: u64,
    queue_size: u16,
    completion_queue_id: u16,
    submission_queue_id: u16,
    queue_priority: u8,
) -> (r: [u32; 16])
    requires
        queue_size >= 1,
    ensures
        r@ == base_command(QUEUE_COMMAND_CREATE_IO_SUBMISSION_QUEUE, queue).update(
            10,
            (((queue_size - 1) as u32) << 16u32) | (submission_queue_id as u32),
        ).update(11, ((completion_queue_id as u32) << 16u32) | ((queue_priority as u32) << 1u32) | 1),
{
    let mut c = command_with_address(QUEUE_COMMAND_CREATE_IO_SUBMISSION_QUEUE, queue);
    c.set(10, (((queue_size - 1) as u32) << 16u32) | (submission_queue_id as u32));
    c.set(11, ((completion_queue_id as u32) << 16u32) | ((queue_priority as u32) << 1u32) | 1);
    c
}

/// The read command of `number_of_blocks` (1 or more) blocks from
/// `starting_lba` into `buffer`, for namespace 1, with the list of pages
/// `prp_list` (0 for none).
pub fn read_command(buffer: u64, prp_list: u64, starting_lba: u64, number_of_blocks: u64) -> (r: [u32; 16])
    requires
        number_of_blocks >= 1,
    ensures
        r@ == base_command(IO_COMMAND_READ, buffer).update(1, 1u32).update(8, (prp_list & 0xffff_ffff) as u32).update(
            9,
            (prp_list >> 32u64) as u32,
        ).update(10, (starting_lba & 0xffff_ffff) as u32).update(11, (starting_lba >> 32u64) as u32).update(
            12,
            (number_of_blocks - 1) as u32,
        ),
{
    let mut c = command_with_address(IO_COMMAND_READ, buffer);
    c.set(1, 1);
    c.set(8, (prp_list & 0xffff_ffff) as u32);
    c.set(9, (prp_list >> 32u64) as u32);
    c.set(10, (starting_lba & 0xffff_ffff) as u32);
    c.set(11, (starting_lba >> 32u64) as u32);
    c.set(12, (number_of_blocks - 1) as u32);
    c
}

/// The index of the LBA format in use: bits 0 to 3 of the formatted LBA
/// size, with bits 5 and 6 above them.
pub fn lba_format_index(formatted_lba_size: u8) -> (r: u8)
    ensures
        r == ((((formatted_lba_size & 0x60) >> 5u8) << 4u8) | (formatted_lba_size & 0xf)),
        r < 64,
{
    let r = (((formatted_lba_size & 0x60) >> 5u8) << 4u8) | (formatted_lba_size & 0xf);
    assert(((((formatted_lba_size & 0x60) >> 5u8) << 4u8) | (formatted_lba_size & 0xf)) < 64) by (bit_vector);
    r
}

/// The size of a block, as a power of two, that an LBA format gives
/// (bits 16 to 23).
pub fn lba_data_size(format: u32) -> (r: u8)
    ensures
        r == ((format >> 16u32) & 0xff) as u8,
{
    ((format >> 16u32) & 0xff) as u8
}

/// A namespace: its number, its size in blocks, and the size of a block as
/// a power of two.
#[derive(Debug, Clone, Copy, PartialEq, Eq, Structural)]
pub struct NameSpace {
    pub name_space_id: u32,
    pub name_space_lba_size: u64,
    pub sector_size_exp_index: u8,
}

/// The driver's view of a controller: the doorbell stride, the admin
/// queue, the namespaces in increasing order of number, and the I/O queues,
/// queue `i + 1` at position `i`.
pub struct NvmeManager {
    stride: usize,
    admin_queue: NvmeQueue,
    namespace_list: Vec<NameSpace>,
    io_queue_list: Vec<NvmeQueue>,
}

impl NvmeManager {
    pub closed spec fn spec_stride(&self) -> usize {
        self.stride
    }

    pub closed spec fn namespaces(&self) -> Seq<NameSpace> {
        self.namespace_list@
    }

    pub closed spec fn io_queue_ids(&self) -> Seq<usize> {
        self.io_queue_list@.map_values(|q: NvmeQueue| q.spec_id())
    }

    /// Namespace numbers increase; I/O queue `i` has number `i + 1`.
    pub open spec fn wf(&self) -> bool {
        &&& forall|i: int, j: int|
            0 <= i < j < self.namespaces().len() ==> self.namespaces()[i].name_space_id
                < self.namespaces()[j].name_space_id
        &&& forall|i: int| 0 <= i < self.io_queue_ids().len() ==> self.io_queue_ids()[i] == i + 1
    }

    pub fn new(admin_queue: NvmeQueue, stride: usize) -> (r: Self)
        ensures
            r.wf(),
            r.spec_stride() == stride,
            r.namespaces().len() == 0,
            r.io_queue_ids().len() == 0,
    {
        NvmeManager { stride, admin_queue, namespace_list: Vec::new(), io_queue_list: Vec::new() }
    }

    /// Adds a namespace, whose number must be above those already added.
    pub fn add_name_space(&mut self, name_space: NameSpace)
        requires
            old(self).wf(),
            old(self).namespaces().len() == 0 || old(self).namespaces().last().name_space_id
                < name_space.name_space_id,
        ensures
            final(self).wf(),
            final(self).namespaces() == old(self).namespaces().push(name_space),
            final(self).io_queue_ids() == old(self).io_queue_ids(),
            final(self).spec_stride() == old(self).spec_stride(),
    {
        self.namespace_list.push(name_space);
        proof {
            let ns = self.namespaces();
            let o = old(self).namespaces();
            assert(ns == o.push(name_space));
            assert forall|i: int, j: int| 0 <= i < j < ns.len() implies ns[i].name_space_id < ns[j].name_space_id by {
                assert(ns[i] == o[i]);
                if j < o.len() {
                    assert(ns[j] == o[j]);
                } else {
                    assert(ns[j] == name_space);
                    if i < o.len() - 1 {
                        assert(o[i].name_space_id < o[o.len() - 1].name_space_id);
                    }
                }
            }
            assert(self.io_queue_ids() == old(self).io_queue_ids());
        }
    }

    /// Adds an I/O queue, whose number must be the next one; refused
    /// otherwise, and nothing changes then.
    pub fn add_io_queue(&mut self, queue: NvmeQueue) -> (r: Result<(), ()>)
        requires
            old(self).wf(),
        ensures
            final(self).wf(),
            r is Ok <==> queue.spec_id() == old(self).io_queue_ids().len() + 1,
            r is Ok ==> final(self).io_queue_ids() == old(self).io_queue_ids().push(queue.spec_id()),
            r is Err ==> final(self).io_queue_ids() == old(self).io_queue_ids(),
            final(self).namespaces() == old(self).namespaces(),
            final(self).spec_stride() == old(self).spec_stride(),
    {
        let id = queue.get_id();
        if id == 0 || self.io_queue_list.len() != id - 1 {
            return Err(());
        }
        self.io_queue_list.push(queue);
        proof {
            let ids = self.io_queue_ids();
            assert(self.namespaces() == old(self).namespaces());
            assert(ids =~= old(self).io_queue_ids().push(id));
            assert forall|i: int| 0 <= i < ids.len() implies ids[i] == i + 1 by {
                if i < ids.len() - 1 {
                    assert(ids[i] == old(self).io_queue_ids()[i]);
                }
            }
        }
        Ok(())
    }

    pub fn get_stride(&self) -> (r: usize)
        ensures
            r == self.spec_stride(),
    {
        self.stride
    }

    /// The size of a block of namespace `device_id`, in bytes.
    pub fn get_lba_sector_size(&self, device_id: usize) -> (r: u64)
        requires
            device_id < self.namespaces().len(),
            self.namespaces()[device_id as int].sector_size_exp_index < 64,
        ensures
            r == 1u64 << (self.namespaces()[device_id as int].sector_size_exp_index as u64),
    {
        1u64 << (self.namespace_list[device_id].sector_size_exp_index as u64)
    }

    /// The first block and the number of blocks of a read of `size` bytes
    /// at byte `offset` of namespace `index`: refused for no bytes, a
    /// namespace past the last, an offset that is not a multiple of two
    /// blocks, more than a page or more than 0x10000 blocks, or a read that
    /// reaches the namespace's last block.
    pub fn plan_read_data(&self, index: usize, offset: usize, size: usize) -> (r: Result<(u64, u64), ()>)
        ensures
            ({
                let ns = self.namespaces();
                if size == 0 || index >= ns.len() || ns[index as int].sector_size_exp_index >= 63 {
                    r is Err
                } else {
                    let e = ns[index as int].sector_size_exp_index as u64;
                    let start = (offset as u64) >> e;
                    let blocks = ((((size as u64) - 1) as u64) >> e) + 1;
                    if (offset as u64) & ((2u64 << e) - 1) as u64 != 0 {
                        r is Err
                    } else if blocks * pow2_small(e as nat) > 0x1000 || blocks - 1 > 0xffff || start + blocks
                        >= ns[index as int].name_space_lba_size {
                        r is Err
                    } else {
                        r == Ok::<(u64, u64), ()>((start, blocks as u64))
                    }
                }
            }),
    {
        if size == 0 || index >= self.namespace_list.len() {
            return Err(());
        }
        let ns = self.namespace_list[index];
        if ns.sector_size_exp_index >= 63 {
            return Err(());
        }
        let e = ns.sector_size_exp_index as u64;
        assert((2u64 << e) >= 2) by (bit_vector)
            requires
                e < 63,
        ;
        if (offset as u64) & ((2u64 << e) - 1) != 0 {
            return Err(());
        }
        let start = (offset as u64) >> e;
        let sm1: u64 = (size as u64) - 1;
        assert(sm1 < 0xffff_ffff_ffff_ffff);
        assert(sm1 >> e < 0xffff_ffff_ffff_ffff) by (bit_vector)
            requires
                sm1 < 0xffff_ffff_ffff_ffff,
        ;
        let blocks = (sm1 >> e) + 1;
        if blocks > 0x1000 {
            proof {
                lemma_pow2_small_pos(e as nat);
                assert(blocks * pow2_small(e as nat) > 0x1000) by (nonlinear_arith)
                    requires
                        blocks > 0x1000,
                        pow2_small(e as nat) >= 1,
                ;
            }
            return Err(());
        }
        let total = shl_small(blocks, e);
        if total > 0x1000 {
            return Err(());
        }
        if blocks - 1 > 0xffff {
            return Err(());
        }
        if start >= ns.name_space_lba_size || blocks >= ns.name_space_lba_size - start {
            return Err(());
        }
        Ok((start, blocks))
    }

    /// The position in the I/O queue list of queue `queue_id`; refused for
    /// 0 and past the last queue.
    pub fn io_queue_index(&self, queue_id: u16) -> (r: Result<usize, ()>)
        ensures
            r is Ok <==> 1 <= queue_id <= self.io_queue_ids().len(),
            r matches Ok(i) ==> i == queue_id - 1,
    {
        if queue_id == 0 || queue_id as usize > self.io_queue_list.len() {
            return Err(());
        }
        Ok((queue_id - 1) as usize)
    }

    /// The size in bytes of a read of `number_of_sectors` blocks from block
    /// `lba` of namespace `index`: refused for no blocks, a namespace past
    /// the last, a size past the machine's width, or where `lba` plus the
    /// size in bytes reaches the namespace's block count (as the driver
    /// compares them).
    pub fn plan_read_data_lba(&self, index: usize, lba: usize, number_of_sectors: usize) -> (r: Result<usize, ()>)
        ensures
            ({
                let ns = self.namespaces();
                if number_of_sectors == 0 || index >= ns.len() {
                    r is Err
                } else {
                    let bytes = number_of_sectors * pow2_small(ns[index as int].sector_size_exp_index as nat);
                    if bytes > usize::MAX || lba + bytes >= ns[index as int].name_space_lba_size {
                        r is Err
                    } else {
                        r == Ok::<usize, ()>(bytes as usize)
                    }
                }
            }),
    {
        if number_of_sectors == 0 || index >= self.namespace_list.len() {
            return Err(());
        }
        let ns = self.namespace_list[index];
        let e = ns.sector_size_exp_index;
        let mut bytes: usize = number_of_sectors;
        let mut i: u8 = 0;
        while i < e
            invariant
                i <= e,
                bytes == number_of_sectors * pow2_small(i as nat),
                number_of_sectors >= 1,
                index < self.namespaces().len(),
                ns == self.namespaces()[index as int],
                e == ns.sector_size_exp_index,
            decreases e - i,
        {
            proof {
                lemma_pow2_small_mono(i as nat, e as nat);
            }
            if bytes > usize::MAX / 2 {
                proof {
                    lemma_pow2_small_mono((i + 1) as nat, e as nat);
                    assert(number_of_sectors * pow2_small((i + 1) as nat) == 2 * bytes) by (nonlinear_arith)
                        requires
                            bytes == number_of_sectors * pow2_small(i as nat),
                            pow2_small((i + 1) as nat) == 2 * pow2_small(i as nat),
                    ;
                    assert(number_of_sectors * pow2_small((i + 1) as nat) <= number_of_sectors * pow2_small(e as nat)) by (nonlinear_arith)
                        requires
                            number_of_sectors >= 1,
                            pow2_small((i + 1) as nat) <= pow2_small(e as nat),
                    ;
                    assert(2 * bytes > usize::MAX);
                }
                return Err(());
            }
            proof {
                assert(number_of_sectors * pow2_small((i + 1) as nat) == 2 * bytes) by (nonlinear_arith)
                    requires
                        bytes == number_of_sectors * pow2_small(i as nat),
                        pow2_small((i + 1) as nat) == 2 * pow2_small(i as nat),
                ;
            }
            bytes = bytes * 2;
            i = i + 1;
        }
        if lba as u64 >= ns.name_space_lba_size || bytes as u64 >= ns.name_space_lba_size - lba as u64 {
            return Err(());
        }
        Ok(bytes)
    }
}

/// The entries of the list of pages of a read of `allocate_size` bytes
/// into the pages at `io_physical`: none up to a page; otherwise one per
/// page, each the address of the second page (as the driver fills them).
pub fn prp_list_entries(io_physical: u64, allocate_size: usize) -> (r: Vec<u64>)
    requires
        io_physical + 0x1000 <= u64::MAX,
    ensures
        allocate_size <= 0x1000 ==> r@.len() == 0,
        allocate_size > 0x1000 ==> r@ == Seq::new((allocate_size / 0x1000) as nat, |i: int| (io_physical + 0x1000) as u64),
{
    let mut r: Vec<u64> = Vec::new();
    if allocate_size <= 0x1000 {
        return r;
    }
    let n = allocate_size / 0x1000;
    let mut i: usize = 0;
    while i < n
        invariant
            i <= n,
            io_physical + 0x1000 <= u64::MAX,
            r@ == Seq::new(i as nat, |k: int| (io_physical + 0x1000) as u64),
        decreases n - i,
    {
        r.push(io_physical + 0x1000);
        i = i + 1;
        proof {
            assert(r@ =~= Seq::new(i as nat, |k: int| (io_physical + 0x1000) as u64));
        }
    }
    r
}

proof fn lemma_pow2_small_pos(n: nat)
    ensures
        pow2_small(n) >= 1,
    decreases n,
{
    if n > 0 {
        lemma_pow2_small_pos((n - 1) as nat);
    }
}

/// `v` shifted up by `e` (`v` at most a page), or more than a page where it
/// would pass one.
fn shl_small(v: u64, e: u64) -> (r: u64)
    requires
        v <= 0x1000,
    ensures
        r <= 0x1000 ==> r == v * pow2_small(e as nat),
        r > 0x1000 ==> v * pow2_small(e as nat) > 0x1000,
{
    let mut r = v;
    let mut i: u64 = 0;
    while i < e
        invariant
            i <= e,
            r <= 0x1000 ==> r == v * pow2_small(i as nat),
            r > 0x1000 ==> v * pow2_small(i as nat) > 0x1000,
            r <= 0x2000,
        decreases e - i,
    {
        if r > 0x1000 {
            proof {
                lemma_pow2_small_pos(i as nat);
                assert(v * pow2_small((i + 1) as nat) == 2 * (v * pow2_small(i as nat))) by (nonlinear_arith)
                    requires
                        pow2_small((i + 1) as nat) == 2 * pow2_small(i as nat),
                ;
            }
            i = i + 1;
        } else {
            proof {
                assert(v * pow2_small((i + 1) as nat) == 2 * (v * pow2_small(i as nat))) by (nonlinear_arith)
                    requires
                        pow2_small((i + 1) as nat) == 2 * pow2_small(i as nat),
                ;
            }
            r = r * 2;
            i = i + 1;
        }
    }
    r
}

} // verus!
