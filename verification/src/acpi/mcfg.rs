//! The PCI Express Memory-mapped Configuration table: a header followed by
//! allocation structures of sixteen bytes.
use vstd::prelude::*;
use crate::aml::stream::le_value;
use super::read_le_at;
use super::table::{load_table, table_fits, table_length, lemma_le_value_same};

verus! {

/// The size of the MCFG header.
pub const MCFG_HEADER: usize = 44;

/// The size of a base-address allocation structure.
pub const ALLOCATION_SIZE: usize = 16;

/// Where the configuration space of a range of buses lies.
#[derive(Debug, Clone, Copy, PartialEq, Eq, Structural)]
pub struct PciBaseAddressInfo {
    pub base_address: u64,
    pub segment_group: u16,
    pub start_bus: u8,
    pub end_bus: u8,
}

/// The MCFG, held as its bytes; empty until `init`.
pub struct McfgManager {
    table: Vec<u8>,
}

/// The allocation structure at offset `p` of `t`.
pub open spec fn spec_info_at(t: Seq<u8>, p: int) -> PciBaseAddressInfo {
    PciBaseAddressInfo {
        base_address: le_value(t, p, 8) as u64,
        segment_group: le_value(t, p + 8, 2) as u16,
        start_bus: t[p + 10],
        end_bus: t[p + 11],
    }
}

impl McfgManager {
    pub closed spec fn bytes(&self) -> Seq<u8> {
        self.table@
    }

    /// Empty, or a whole table.
    pub open spec fn wf(&self) -> bool {
        self.bytes().len() == 0 || (self.bytes().len() >= MCFG_HEADER && table_length(self.bytes())
            == self.bytes().len())
    }

    /// The number of whole allocation structures.
    pub open spec fn spec_count(&self) -> int {
        (self.bytes().len() - MCFG_HEADER) / ALLOCATION_SIZE as int
    }

    pub fn new() -> (r: Self)
        ensures
            r.wf(),
            r.bytes().len() == 0,
    {
        McfgManager { table: Vec::new() }
    }

    /// Takes the table at the start of `bytes`; fails where it is shorter
    /// than its header or longer than `bytes`, and the manager is unchanged.
    pub fn init(&mut self, bytes: &Vec<u8>) -> (r: Result<(), ()>)
        requires
            old(self).wf(),
        ensures
            final(self).wf(),
            r is Ok <==> table_fits(bytes@, MCFG_HEADER as int),
            r is Ok ==> final(self).bytes() == bytes@.subrange(0, table_length(bytes@)),
            r is Err ==> final(self).bytes() == old(self).bytes(),
    {
        match load_table(bytes, MCFG_HEADER) {
            Some(t) => {
                self.table = t;
                proof {
                    lemma_le_value_same(self.bytes(), bytes@, 4, 4);
                }
                Ok(())
            },
            None => Err(()),
        }
    }

    /// The `index`th allocation structure; none before `init` or past the
    /// last whole structure.
    pub fn get_base_address_info(&self, index: usize) -> (r: Option<PciBaseAddressInfo>)
        requires
            self.wf(),
        ensures
            r is Some <==> self.bytes().len() != 0 && index < self.spec_count(),
            r matches Some(info) ==> info == spec_info_at(
                self.bytes(),
                MCFG_HEADER + index * ALLOCATION_SIZE,
            ),
    {
        if self.table.len() == 0 {
            return None;
        }
        let count = (self.table.len() - MCFG_HEADER) / ALLOCATION_SIZE;
        if count <= index {
            return None;
        }
        assert(MCFG_HEADER + index * ALLOCATION_SIZE + ALLOCATION_SIZE <= self.bytes().len()) by (nonlinear_arith)
            requires
                index < count,
                count == (self.bytes().len() - MCFG_HEADER) / ALLOCATION_SIZE as int,
                self.bytes().len() >= MCFG_HEADER,
        ;
        let p = MCFG_HEADER + index * ALLOCATION_SIZE;
        let t = self.table.as_slice();
        let base_address = read_le_at(t, p, 8);
        let segment_group = read_le_at(t, p + 8, 2);
        assert(segment_group < 0x10000) by {
            crate::aml::stream::lemma_le_value_bound(t@, p + 8, 2);
            reveal_with_fuel(crate::aml::stream::byte_bound, 3);
        }
        Some(
            PciBaseAddressInfo {
                base_address,
                segment_group: segment_group as u16,
                start_bus: self.table[p + 10],
                end_bus: self.table[p + 11],
            },
        )
    }
}

} // verus!
