//! The Fixed ACPI Description Table: the ports of the power-management
//! registers, the timer and the address of the DSDT.
use vstd::prelude::*;
use crate::aml::stream::{le_value, lemma_le_value_bound, byte_bound};
use super::{read_le_at, GeneralAddress};
use super::pm_timer::AcpiPmTimer;
use super::table::{load_table, table_fits, table_length, lemma_le_value_same};

verus! {

/// The size of the FADT that is read.
pub const FADT_SIZE: usize = 276;

/// The FADT, held as its bytes; empty until `init`.
pub struct FadtManager {
    table: Vec<u8>,
}

/// The address of the Generic Address Structure at offset `off` of `t`.
pub open spec fn gas_address(t: Seq<u8>, off: int) -> u64 {
    GeneralAddress::spec_new(t.subrange(off, off + 12)).address
}

/// The 64-bit address at `xoff` where it is not 0, else the 32-bit one at
/// `off`.
pub open spec fn x_or_legacy(t: Seq<u8>, xoff: int, off: int) -> usize {
    if gas_address(t, xoff) != 0 {
        gas_address(t, xoff) as usize
    } else {
        le_value(t, off, 4) as usize
    }
}

impl FadtManager {
    pub closed spec fn bytes(&self) -> Seq<u8> {
        self.table@
    }

    /// Empty, or a whole table of at least `FADT_SIZE` bytes.
    pub open spec fn wf(&self) -> bool {
        self.bytes().len() == 0 || (self.bytes().len() >= FADT_SIZE && table_length(self.bytes())
            == self.bytes().len())
    }

    pub open spec fn enabled(&self) -> bool {
        self.bytes().len() != 0
    }

    pub fn new() -> (r: Self)
        ensures
            r.wf(),
            !r.enabled(),
    {
        FadtManager { table: Vec::new() }
    }

    /// Takes the table at the start of `bytes`; fails where it is shorter
    /// than `FADT_SIZE` or longer than `bytes`, and the manager is then
    /// unchanged.
    pub fn init(&mut self, bytes: &Vec<u8>) -> (r: bool)
        requires
            old(self).wf(),
        ensures
            final(self).wf(),
            r <==> table_fits(bytes@, FADT_SIZE as int),
            r ==> final(self).bytes() == bytes@.subrange(0, table_length(bytes@)),
            !r ==> final(self).bytes() == old(self).bytes(),
    {
        match load_table(bytes, FADT_SIZE) {
            Some(t) => {
                self.table = t;
                proof {
                    lemma_le_value_same(self.bytes(), bytes@, 4, 4);
                }
                true
            },
            None => false,
        }
    }

    fn u32_at(&self, off: usize) -> (r: u32)
        requires
            self.wf(),
            self.enabled(),
            off + 4 <= FADT_SIZE,
        ensures
            r == le_value(self.bytes(), off as int, 4),
    {
        let v = read_le_at(self.table.as_slice(), off, 4);
        proof {
            lemma_le_value_bound(self.bytes(), off as int, 4);
            reveal_with_fuel(byte_bound, 5);
        }
        v as u32
    }

    fn gas_at(&self, off: usize) -> (r: u64)
        requires
            self.wf(),
            self.enabled(),
            off + 12 <= FADT_SIZE,
        ensures
            r == gas_address(self.bytes(), off as int),
    {
        let t = &self.table;
        let a: [u8; 12] = [
            t[off],
            t[off + 1],
            t[off + 2],
            t[off + 3],
            t[off + 4],
            t[off + 5],
            t[off + 6],
            t[off + 7],
            t[off + 8],
            t[off + 9],
            t[off + 10],
            t[off + 11],
        ];
        assert(a@ =~= self.bytes().subrange(off as int, off + 12));
        GeneralAddress::new(&a).address
    }

    fn x_or_legacy_at(&self, xoff: usize, off: usize) -> (r: usize)
        requires
            self.wf(),
            self.enabled(),
            xoff + 12 <= FADT_SIZE,
            off + 4 <= FADT_SIZE,
        ensures
            r == x_or_legacy(self.bytes(), xoff as int, off as int),
    {
        let address = self.gas_at(xoff);
        if address != 0 {
            address as usize
        } else {
            self.u32_at(off) as usize
        }
    }

    /// The PM timer: at the extended timer block where its address is not
    /// 0, else at the legacy one; 32 bits wide where bit 8 of the flags is
    /// set.
    pub fn get_acpi_pm_timer(&self) -> (r: Option<AcpiPmTimer>)
        requires
            self.wf(),
        ensures
            r is Some <==> self.enabled(),
            r matches Some(timer) ==> timer.spec_port() == x_or_legacy(self.bytes(), 208, 76)
                && timer.spec_is_32_bit() == ((le_value(self.bytes(), 112, 4) / 256) % 2 == 1),
    {
        if self.table.len() == 0 {
            return None;
        }
        let port = self.x_or_legacy_at(208, 76);
        let flags = self.u32_at(112);
        assert((flags >> 8) & 1 == (flags / 256) % 2) by (bit_vector);
        Some(AcpiPmTimer::new(port, ((flags >> 8) & 1) != 0))
    }

    pub fn get_flags(&self) -> (r: Option<u32>)
        requires
            self.wf(),
        ensures
            r == if self.enabled() {
                Some(le_value(self.bytes(), 112, 4) as u32)
            } else {
                None
            },
    {
        if self.table.len() == 0 {
            return None;
        }
        Some(self.u32_at(112))
    }

    pub fn get_pm1a_control_block_address(&self) -> (r: Option<usize>)
        requires
            self.wf(),
        ensures
            r == if self.enabled() {
                Some(x_or_legacy(self.bytes(), 172, 64))
            } else {
                None
            },
    {
        if self.table.len() == 0 {
            return None;
        }
        Some(self.x_or_legacy_at(172, 64))
    }

    pub fn get_pm1b_control_block_address(&self) -> (r: Option<usize>)
        requires
            self.wf(),
        ensures
            r == if self.enabled() {
                Some(x_or_legacy(self.bytes(), 184, 68))
            } else {
                None
            },
    {
        if self.table.len() == 0 {
            return None;
        }
        Some(self.x_or_legacy_at(184, 68))
    }

    pub fn get_pm1a_event_block_address(&self) -> (r: Option<usize>)
        requires
            self.wf(),
        ensures
            r == if self.enabled() {
                Some(x_or_legacy(self.bytes(), 148, 56))
            } else {
                None
            },
    {
        if self.table.len() == 0 {
            return None;
        }
        Some(self.x_or_legacy_at(148, 56))
    }

    pub fn get_pm1b_event_block_address(&self) -> (r: Option<usize>)
        requires
            self.wf(),
        ensures
            r == if self.enabled() {
                Some(x_or_legacy(self.bytes(), 160, 60))
            } else {
                None
            },
    {
        if self.table.len() == 0 {
            return None;
        }
        Some(self.x_or_legacy_at(160, 60))
    }

    pub fn get_pm1_event_block_len(&self) -> (r: Option<usize>)
        requires
            self.wf(),
        ensures
            r == if self.enabled() {
                Some(self.bytes()[88] as usize)
            } else {
                None
            },
    {
        if self.table.len() == 0 {
            return None;
        }
        Some(self.table[88] as usize)
    }

    /// The sleep control register, where its address is not 0.
    pub fn get_sleep_control_register(&self) -> (r: Option<usize>)
        requires
            self.wf(),
        ensures
            r == if self.enabled() && gas_address(self.bytes(), 244) != 0 {
                Some(gas_address(self.bytes(), 244) as usize)
            } else {
                None
            },
    {
        if self.table.len() != 0 {
            let address = self.gas_at(244);
            if address != 0 {
                return Some(address as usize);
            }
        }
        None
    }

    pub fn get_sci_int(&self) -> (r: Option<u16>)
        requires
            self.wf(),
        ensures
            r == if self.enabled() {
                Some(le_value(self.bytes(), 46, 2) as u16)
            } else {
                None
            },
    {
        if self.table.len() == 0 {
            return None;
        }
        let v = read_le_at(self.table.as_slice(), 46, 2);
        proof {
            lemma_le_value_bound(self.bytes(), 46, 2);
            reveal_with_fuel(byte_bound, 3);
        }
        Some(v as u16)
    }

    pub fn get_smi_cmd(&self) -> (r: Option<usize>)
        requires
            self.wf(),
        ensures
            r == if self.enabled() {
                Some(le_value(self.bytes(), 48, 4) as usize)
            } else {
                None
            },
    {
        if self.table.len() == 0 {
            return None;
        }
        Some(self.u32_at(48) as usize)
    }

    pub fn get_acpi_enable(&self) -> (r: Option<usize>)
        requires
            self.wf(),
        ensures
            r == if self.enabled() {
                Some(self.bytes()[52] as usize)
            } else {
                None
            },
    {
        if self.table.len() == 0 {
            return None;
        }
        Some(self.table[52] as usize)
    }

    /// The address of the DSDT: the 64-bit field where it is not 0, else
    /// the 32-bit one.
    pub fn get_dsdt_address(&self) -> (r: Option<usize>)
        requires
            self.wf(),
        ensures
            r == if self.enabled() {
                Some(
                    if le_value(self.bytes(), 140, 8) != 0 {
                        le_value(self.bytes(), 140, 8) as u64 as usize
                    } else {
                        le_value(self.bytes(), 40, 4) as usize
                    },
                )
            } else {
                None
            },
    {
        if self.table.len() == 0 {
            return None;
        }
        let x = read_le_at(self.table.as_slice(), 140, 8);
        if x != 0 {
            Some(x as usize)
        } else {
            Some(self.u32_at(40) as usize)
        }
    }
}

} // verus!
