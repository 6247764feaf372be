//! The Multiple APIC Description Table: a header followed by a chain of
//! interrupt-controller records, each led by its type and its length.
use vstd::prelude::*;
use crate::aml::stream::{le_value, lemma_le_value_bound, byte_bound};
use super::read_le_at;
use super::table::{load_table, table_fits, table_length, lemma_le_value_same};

verus! {

/// The size of the MADT header.
pub const MADT_HEADER: usize = 44;

pub const LOCAL_APIC: u8 = 0x00;
pub const LOCAL_X2APIC: u8 = 0x09;
pub const GIC_CPU_INTERFACE: u8 = 0x0B;
pub const GIC_DISTRIBUTOR: u8 = 0x0C;
pub const GIC_REDISTRIBUTOR: u8 = 0x0E;

/// The distributor of a generic interrupt controller.
#[derive(Debug, Clone, Copy, PartialEq, Eq, Structural)]
pub struct GenericInterruptDistributorInfo {
    pub base_address: usize,
    pub version: u8,
}

/// The CPU interface of a generic interrupt controller.
#[derive(Debug, Clone, Copy, PartialEq, Eq, Structural)]
pub struct GenericInterruptControllerCpuInfo {
    pub acpi_processor_uid: u32,
    pub gicr_base_address: u64,
}

/// The discovery range of the redistributors.
#[derive(Debug, Clone, Copy, PartialEq, Eq, Structural)]
pub struct GenericInterruptRedistributorInfo {
    pub discovery_range_base_address: u64,
    pub discovery_range_length: u32,
}

/// The MADT, held as its bytes; empty until `init`.
pub struct MadtManager {
    table: Vec<u8>,
}

/// Yields the IDs of the enabled local (x2)APICs, record by record.
pub struct LocalApicIdIter {
    table: Vec<u8>,
    pointer: usize,
}

/// Yields the MPIDRs of the enabled GIC CPU interfaces, record by record.
pub struct GicCpuIter {
    table: Vec<u8>,
    pointer: usize,
}

/// The length a record of type `ty` needs for the fields that are read of
/// it.
pub open spec fn record_min_len(ty: u8) -> int {
    if ty == LOCAL_APIC {
        8
    } else if ty == LOCAL_X2APIC {
        12
    } else if ty == GIC_CPU_INTERFACE {
        76
    } else if ty == GIC_DISTRIBUTOR {
        21
    } else if ty == GIC_REDISTRIBUTOR {
        16
    } else {
        2
    }
}

/// The records from `p` form a chain that ends at `end` exactly, each long
/// enough for its type.
pub open spec fn records_ok(t: Seq<u8>, p: int, end: int) -> bool
    decreases end - p,
{
    if p >= end {
        p == end
    } else {
        &&& p + 2 <= end
        &&& t[p + 1] >= record_min_len(t[p])
        &&& p + t[p + 1] <= end
        &&& records_ok(t, p + t[p + 1], end)
    }
}

/// The first record from `p` on that `pred` holds of.
pub open spec fn first_record(t: Seq<u8>, p: int, end: int, pred: spec_fn(int) -> bool) -> Option<int>
    decreases end - p,
{
    if p < 0 || p >= end || p + 1 >= t.len() {
        None
    } else {
        let len = t[p + 1] as int;
        if len <= 0 || p + len > end {
            None
        } else if pred(p) {
            Some(p)
        } else {
            first_record(t, p + len, end, pred)
        }
    }
}

/// The APIC ID of the record at `p`, where it is an enabled local APIC or
/// x2APIC.
pub open spec fn apic_id_at(t: Seq<u8>, p: int) -> Option<u32> {
    if t[p] == LOCAL_APIC && le_value(t, p + 4, 4) % 2 == 1 {
        Some(t[p + 3] as u32)
    } else if t[p] == LOCAL_X2APIC && le_value(t, p + 8, 4) % 2 == 1 {
        Some(le_value(t, p + 4, 4) as u32)
    } else {
        None
    }
}

/// The MPIDR of the record at `p`, where it is an enabled GIC CPU
/// interface.
pub open spec fn gic_cpu_at(t: Seq<u8>, p: int) -> Option<u64> {
    if t[p] == GIC_CPU_INTERFACE && t[p + 12] % 2 == 1 {
        Some(le_value(t, p + 68, 8) as u64)
    } else {
        None
    }
}

/// Holds of the records of type `ty`.
pub open spec fn of_type(t: Seq<u8>, ty: u8) -> spec_fn(int) -> bool {
    |p: int| t[p] == ty
}

/// Holds of the enabled GIC CPU interface whose MPIDR is `target`.
pub open spec fn gic_cpu_for(t: Seq<u8>, target: u64) -> spec_fn(int) -> bool {
    |p: int| t[p] == GIC_CPU_INTERFACE && le_value(t, p + 68, 8) == target && t[p + 12] % 2 == 1
}

/// The APIC IDs of the records.
pub open spec fn apic_items(t: Seq<u8>) -> spec_fn(int) -> Option<u32> {
    |p: int| apic_id_at(t, p)
}

/// The MPIDRs of the records.
pub open spec fn gic_cpu_items(t: Seq<u8>) -> spec_fn(int) -> Option<u64> {
    |p: int| gic_cpu_at(t, p)
}

/// What an iterator at `p` yields next and where it then stands.
pub open spec fn next_item<T>(t: Seq<u8>, p: int, end: int, item: spec_fn(int) -> Option<T>) -> (
    Option<T>,
    int,
)
    decreases end - p,
{
    if p < 0 || p >= end || p + 1 >= t.len() {
        (None, p)
    } else {
        let len = t[p + 1] as int;
        if len <= 0 || p + len > end {
            (None, p)
        } else {
            match item(p) {
                Some(x) => (Some(x), p + len),
                None => next_item(t, p + len, end, item),
            }
        }
    }
}

/// An ID read from a record is an enabled processor's: a local APIC whose
/// flags (from +4) have bit 0 set, its ID the byte at +3, or an x2APIC
/// whose flags (from +8) have bit 0 set, its ID the 32 bits at +4.
pub open spec fn enabled_processor_id(t: Seq<u8>, k: int, x: u32) -> bool {
    ||| (t[k] == 0 && t[k + 4] % 2 == 1 && x == t[k + 3] as u32)
    ||| (t[k] == 9 && t[k + 8] % 2 == 1 && x as int == t[k + 4] + 256 * t[k + 5] + 65536 * t[k + 6] + 16777216 * t[k
        + 7])
}

/// Every APIC ID that the iterator yields comes from the record it then
/// stands right after, a record of an enabled processor: disabled local
/// APICs and x2APICs are passed over.
pub proof fn lemma_apic_ids_enabled(t: Seq<u8>, p: int, end: int)
    ensures
        next_item(t, p, end, apic_items(t)).0 matches Some(x) ==> exists|k: int|
            p <= k < end && k + t[k + 1] == next_item(t, p, end, apic_items(t)).1 && #[trigger] enabled_processor_id(
                t,
                k,
                x,
            ),
    decreases end - p,
{
    if !(p < 0 || p >= end || p + 1 >= t.len()) {
        let len = t[p + 1] as int;
        if !(len <= 0 || p + len > end) {
            match apic_id_at(t, p) {
                Some(x) => {
                    reveal_with_fuel(le_value, 5);
                    lemma_le_value_bound(t, p + 4, 4);
                    reveal_with_fuel(byte_bound, 5);
                    assert(enabled_processor_id(t, p, x));
                },
                None => {
                    lemma_apic_ids_enabled(t, p + len, end);
                },
            }
        }
    }
}

/// Every MPIDR that the GIC iterator yields comes from the record it then
/// stands right after: a GIC CPU interface (type 0x0B) whose flags have
/// bit 0 (enabled) set, the MPIDR being its eight bytes at +68.
pub proof fn lemma_gic_cpus_enabled(t: Seq<u8>, p: int, end: int)
    ensures
        next_item(t, p, end, gic_cpu_items(t)).0 matches Some(x) ==> exists|k: int|
            p <= k < end && k + t[k + 1] == next_item(t, p, end, gic_cpu_items(t)).1 && #[trigger] t[k] == 0x0B
                && t[k + 12] % 2 == 1 && x as int == le_value(t, k + 68, 8),
    decreases end - p,
{
    if !(p < 0 || p >= end || p + 1 >= t.len()) {
        let len = t[p + 1] as int;
        if !(len <= 0 || p + len > end) {
            match gic_cpu_at(t, p) {
                Some(x) => {
                    lemma_le_value_bound(t, p + 68, 8);
                    reveal_with_fuel(byte_bound, 9);
                    assert(t[p] == 0x0B);
                },
                None => {
                    lemma_gic_cpus_enabled(t, p + len, end);
                },
            }
        }
    }
}

/// The whole chain of records of a table, as a loop checks it.
fn check_records(t: &Vec<u8>) -> (r: bool)
    requires
        t@.len() >= MADT_HEADER,
    ensures
        r == records_ok(t@, MADT_HEADER as int, t@.len() as int),
{
    let mut p: usize = MADT_HEADER;
    while p < t.len()
        invariant
            MADT_HEADER <= p <= t@.len(),
            records_ok(t@, MADT_HEADER as int, t@.len() as int) == records_ok(
                t@,
                p as int,
                t@.len() as int,
            ),
        decreases t@.len() - p,
    {
        if t.len() - p < 2 {
            return false;
        }
        let ty = t[p];
        let len = t[p + 1] as usize;
        let min: usize = if ty == LOCAL_APIC {
            8
        } else if ty == LOCAL_X2APIC {
            12
        } else if ty == GIC_CPU_INTERFACE {
            76
        } else if ty == GIC_DISTRIBUTOR {
            21
        } else if ty == GIC_REDISTRIBUTOR {
            16
        } else {
            2
        };
        if len < min || len > t.len() - p {
            return false;
        }
        p = p + len;
    }
    true
}

proof fn lemma_records_step(t: Seq<u8>, p: int, end: int)
    requires
        records_ok(t, p, end),
        p < end,
    ensures
        p + 2 <= end,
        t[p + 1] >= record_min_len(t[p]),
        t[p + 1] >= 2,
        p + t[p + 1] <= end,
        records_ok(t, p + t[p + 1], end),
{
}

impl MadtManager {
    pub closed spec fn bytes(&self) -> Seq<u8> {
        self.table@
    }

    /// Empty, or a whole table whose records form a chain.
    pub open spec fn wf(&self) -> bool {
        self.bytes().len() == 0 || (self.bytes().len() >= MADT_HEADER && table_length(self.bytes())
            == self.bytes().len() && records_ok(
            self.bytes(),
            MADT_HEADER as int,
            self.bytes().len() as int,
        ))
    }

    pub fn new() -> (r: Self)
        ensures
            r.wf(),
            r.bytes().len() == 0,
    {
        MadtManager { table: Vec::new() }
    }

    /// Takes the table at the start of `bytes`; fails where it is shorter
    /// than its header, longer than `bytes`, or its records do not chain up
    /// to its end, and the manager is then unchanged.
    pub fn init(&mut self, bytes: &Vec<u8>) -> (r: Result<(), ()>)
        requires
            old(self).wf(),
        ensures
            final(self).wf(),
            r is Ok <==> table_fits(bytes@, MADT_HEADER as int) && records_ok(
                bytes@.subrange(0, table_length(bytes@)),
                MADT_HEADER as int,
                table_length(bytes@),
            ),
            r is Ok ==> final(self).bytes() == bytes@.subrange(0, table_length(bytes@)),
            r is Err ==> final(self).bytes() == old(self).bytes(),
    {
        match load_table(bytes, MADT_HEADER) {
            Some(t) => {
                if !check_records(&t) {
                    return Err(());
                }
                self.table = t;
                proof {
                    lemma_le_value_same(self.bytes(), bytes@, 4, 4);
                }
                Ok(())
            },
            None => Err(()),
        }
    }

    /// The record after which `pred` holds, scanning from the first record.
    fn find_record(&self, Ghost(pred): Ghost<spec_fn(int) -> bool>, ty: u8) -> (r: Option<usize>)
        requires
            self.wf(),
            self.bytes().len() != 0,
            forall|p: int| #[trigger] pred(p) <==> self.bytes()[p] == ty,
        ensures
            r is Some <==> first_record(
                self.bytes(),
                MADT_HEADER as int,
                self.bytes().len() as int,
                pred,
            ) is Some,
            r matches Some(p) ==> first_record(
                self.bytes(),
                MADT_HEADER as int,
                self.bytes().len() as int,
                pred,
            ) == Some(p as int),
            r matches Some(p) ==> p + record_min_len(ty) <= self.bytes().len() && self.bytes()[p
                as int] == ty,
    {
        let t = &self.table;
        let mut p: usize = MADT_HEADER;
        while p < t.len()
            invariant
                self.wf(),
                t@ == self.bytes(),
                MADT_HEADER <= p <= t@.len(),
                records_ok(t@, p as int, t@.len() as int),
                forall|q: int| #[trigger] pred(q) <==> t@[q] == ty,
                first_record(t@, MADT_HEADER as int, t@.len() as int, pred) == first_record(
                    t@,
                    p as int,
                    t@.len() as int,
                    pred,
                ),
            decreases t@.len() - p,
        {
            proof {
                lemma_records_step(t@, p as int, t@.len() as int);
            }
            if t[p] == ty {
                return Some(p);
            }
            p = p + t[p + 1] as usize;
        }
        None
    }

    /// The CPU interface whose MPIDR is `target_mpidr` and which is enabled;
    /// none before `init`.
    pub fn find_generic_interrupt_controller_cpu_interface(&self, target_mpidr: u64) -> (r: Option<
        GenericInterruptControllerCpuInfo,
    >)
        requires
            self.wf(),
        ensures
            ({
                let t = self.bytes();
                let pred = gic_cpu_for(t, target_mpidr);
                r == if t.len() == 0 {
                    None
                } else {
                    match first_record(t, MADT_HEADER as int, t.len() as int, pred) {
                        Some(p) => Some(
                            GenericInterruptControllerCpuInfo {
                                acpi_processor_uid: le_value(t, p + 8, 4) as u32,
                                gicr_base_address: le_value(t, p + 60, 8) as u64,
                            },
                        ),
                        None => None,
                    }
                }
            }),
    {
        if self.table.len() == 0 {
            return None;
        }
        let ghost tt = self.bytes();
        let ghost pred = gic_cpu_for(tt, target_mpidr);
        let t = &self.table;
        let mut p: usize = MADT_HEADER;
        while p < t.len()
            invariant
                self.wf(),
                t@ == self.bytes(),
                tt == t@,
                pred == gic_cpu_for(tt, target_mpidr),
                MADT_HEADER <= p <= t@.len(),
                records_ok(t@, p as int, t@.len() as int),
                first_record(t@, MADT_HEADER as int, t@.len() as int, pred) == first_record(
                    t@,
                    p as int,
                    t@.len() as int,
                    pred,
                ),
            decreases t@.len() - p,
        {
            proof {
                lemma_records_step(t@, p as int, t@.len() as int);
            }
            if t[p] == GIC_CPU_INTERFACE {
                let mpidr = read_le_at(t.as_slice(), p + 68, 8);
                if mpidr == target_mpidr && t[p + 12] % 2 == 1 {
                    let uid = read_le_at(t.as_slice(), p + 8, 4);
                    proof {
                        lemma_le_value_bound(t@, p + 8, 4);
                        reveal_with_fuel(byte_bound, 5);
                    }
                    let gicr = read_le_at(t.as_slice(), p + 60, 8);
                    return Some(
                        GenericInterruptControllerCpuInfo {
                            acpi_processor_uid: uid as u32,
                            gicr_base_address: gicr,
                        },
                    );
                }
            }
            p = p + t[p + 1] as usize;
        }
        None
    }

    /// The first distributor record; none before `init`.
    pub fn find_generic_interrupt_distributor(&self) -> (r: Option<GenericInterruptDistributorInfo>)
        requires
            self.wf(),
        ensures
            ({
                let t = self.bytes();
                r == if t.len() == 0 {
                    None
                } else {
                    match first_record(
                        t,
                        MADT_HEADER as int,
                        t.len() as int,
                        of_type(t, GIC_DISTRIBUTOR),
                    ) {
                        Some(p) => Some(
                            GenericInterruptDistributorInfo {
                                base_address: le_value(t, p + 8, 8) as u64 as usize,
                                version: t[p + 20],
                            },
                        ),
                        None => None,
                    }
                }
            }),
    {
        if self.table.len() == 0 {
            return None;
        }
        let ghost tt = self.bytes();
        let ghost pred = of_type(tt, GIC_DISTRIBUTOR);
        match self.find_record(Ghost(pred), GIC_DISTRIBUTOR) {
            Some(p) => {
                let base = read_le_at(self.table.as_slice(), p + 8, 8);
                Some(
                    GenericInterruptDistributorInfo {
                        base_address: base as usize,
                        version: self.table[p + 20],
                    },
                )
            },
            None => None,
        }
    }

    /// The first redistributor record; none before `init`.
    pub fn find_generic_interrupt_redistributor_struct(&self) -> (r: Option<
        GenericInterruptRedistributorInfo,
    >)
        requires
            self.wf(),
        ensures
            ({
                let t = self.bytes();
                r == if t.len() == 0 {
                    None
                } else {
                    match first_record(
                        t,
                        MADT_HEADER as int,
                        t.len() as int,
                        of_type(t, GIC_REDISTRIBUTOR),
                    ) {
                        Some(p) => Some(
                            GenericInterruptRedistributorInfo {
                                discovery_range_base_address: le_value(t, p + 4, 8) as u64,
                                discovery_range_length: le_value(t, p + 12, 4) as u32,
                            },
                        ),
                        None => None,
                    }
                }
            }),
    {
        if self.table.len() == 0 {
            return None;
        }
        let ghost tt = self.bytes();
        let ghost pred = of_type(tt, GIC_REDISTRIBUTOR);
        match self.find_record(Ghost(pred), GIC_REDISTRIBUTOR) {
            Some(p) => {
                let base = read_le_at(self.table.as_slice(), p + 4, 8);
                let len = read_le_at(self.table.as_slice(), p + 12, 4);
                proof {
                    lemma_le_value_bound(self.bytes(), p + 12, 4);
                    reveal_with_fuel(byte_bound, 5);
                }
                Some(
                    GenericInterruptRedistributorInfo {
                        discovery_range_base_address: base,
                        discovery_range_length: len as u32,
                    },
                )
            },
            None => None,
        }
    }

    /// An iterator over the enabled local APIC IDs, from the first record.
    pub fn find_apic_id_list(&self) -> (r: LocalApicIdIter)
        requires
            self.wf(),
        ensures
            r.bytes() == self.bytes(),
            r.spec_pointer() == if self.bytes().len() == 0 { 0 } else { MADT_HEADER as int },
            r.wf(),
    {
        let pointer = if self.table.len() == 0 {
            0
        } else {
            MADT_HEADER
        };
        LocalApicIdIter { table: self.table.clone(), pointer }
    }

    /// An iterator over the MPIDRs of the enabled GIC CPU interfaces.
    pub fn get_generic_interrupt_controller_cpu_info_iter(&self) -> (r: GicCpuIter)
        requires
            self.wf(),
        ensures
            r.bytes() == self.bytes(),
            r.spec_pointer() == if self.bytes().len() == 0 { 0 } else { MADT_HEADER as int },
            r.wf(),
    {
        let pointer = if self.table.len() == 0 {
            0
        } else {
            MADT_HEADER
        };
        GicCpuIter { table: self.table.clone(), pointer }
    }
}

impl LocalApicIdIter {
    pub closed spec fn bytes(&self) -> Seq<u8> {
        self.table@
    }

    pub closed spec fn spec_pointer(&self) -> int {
        self.pointer as int
    }

    /// The pointer stands at a record of the chain, or at the end.
    pub open spec fn wf(&self) -> bool {
        self.spec_pointer() <= self.bytes().len() && records_ok(
            self.bytes(),
            self.spec_pointer(),
            self.bytes().len() as int,
        )
    }

    /// The next enabled APIC ID, and the pointer moves past its record.
    pub fn next(&mut self) -> (r: Option<u32>)
        requires
            old(self).wf(),
        ensures
            final(self).wf(),
            final(self).bytes() == old(self).bytes(),
            (r, final(self).spec_pointer()) == next_item(
                old(self).bytes(),
                old(self).spec_pointer(),
                old(self).bytes().len() as int,
                apic_items(old(self).bytes()),
            ),
    {
        let ghost t0 = self.bytes();
        let ghost item = apic_items(t0);
        while self.pointer < self.table.len()
            invariant
                self.wf(),
                self.bytes() == t0,
                t0 == old(self).bytes(),
                item == apic_items(t0),
                next_item(t0, old(self).spec_pointer(), t0.len() as int, item) == next_item(
                    t0,
                    self.spec_pointer(),
                    t0.len() as int,
                    item,
                ),
            decreases t0.len() - self.spec_pointer(),
        {
            let p = self.pointer;
            proof {
                lemma_records_step(t0, p as int, t0.len() as int);
            }
            let ty = self.table[p];
            let len = self.table[p + 1] as usize;
            self.pointer = p + len;
            if ty == LOCAL_APIC {
                let flags = read_le_at(self.table.as_slice(), p + 4, 4);
                if flags % 2 == 1 {
                    return Some(self.table[p + 3] as u32);
                }
            } else if ty == LOCAL_X2APIC {
                let flags = read_le_at(self.table.as_slice(), p + 8, 4);
                if flags % 2 == 1 {
                    let id = read_le_at(self.table.as_slice(), p + 4, 4);
                    proof {
                        lemma_le_value_bound(t0, p + 4, 4);
                        reveal_with_fuel(byte_bound, 5);
                    }
                    return Some(id as u32);
                }
            }
        }
        None
    }
}

impl GicCpuIter {
    pub closed spec fn bytes(&self) -> Seq<u8> {
        self.table@
    }

    pub closed spec fn spec_pointer(&self) -> int {
        self.pointer as int
    }

    /// The pointer stands at a record of the chain, or at the end.
    pub open spec fn wf(&self) -> bool {
        self.spec_pointer() <= self.bytes().len() && records_ok(
            self.bytes(),
            self.spec_pointer(),
            self.bytes().len() as int,
        )
    }

    /// The next enabled MPIDR, and the pointer moves past its record.
    pub fn next(&mut self) -> (r: Option<u64>)
        requires
            old(self).wf(),
        ensures
            final(self).wf(),
            final(self).bytes() == old(self).bytes(),
            (r, final(self).spec_pointer()) == next_item(
                old(self).bytes(),
                old(self).spec_pointer(),
                old(self).bytes().len() as int,
                gic_cpu_items(old(self).bytes()),
            ),
    {
        let ghost t0 = self.bytes();
        let ghost item = gic_cpu_items(t0);
        while self.pointer < self.table.len()
            invariant
                self.wf(),
                self.bytes() == t0,
                t0 == old(self).bytes(),
                item == gic_cpu_items(t0),
                next_item(t0, old(self).spec_pointer(), t0.len() as int, item) == next_item(
                    t0,
                    self.spec_pointer(),
                    t0.len() as int,
                    item,
                ),
            decreases t0.len() - self.spec_pointer(),
        {
            let p = self.pointer;
            proof {
                lemma_records_step(t0, p as int, t0.len() as int);
            }
            let ty = self.table[p];
            let len = self.table[p + 1] as usize;
            self.pointer = p + len;
            if ty == GIC_CPU_INTERFACE && self.table[p + 12] % 2 == 1 {
                return Some(read_le_at(self.table.as_slice(), p + 68, 8));
            }
        }
        None
    }
}

} // verus!
