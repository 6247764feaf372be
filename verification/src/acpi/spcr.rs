//! The Serial Port Console Redirection table: which serial port the
//! firmware used as its console.
use vstd::prelude::*;
use crate::aml::stream::le_value;
use super::read_le_at;
use super::table::{load_table, table_fits, table_length, lemma_le_value_same};

verus! {

/// The size of the SPCR fields up to the clock frequency.
pub const SPCR_SIZE: usize = 79;

/// The offset of the interface type.
pub const SPCR_INTERFACE_TYPE_OFFSET: usize = 36;

/// The offset of the base address, a Generic Address Structure.
pub const SPCR_BASE_ADDRESS_OFFSET: usize = 40;

/// The address-space identifier of system memory.
pub const ADDRESS_SPACE_ID_SYSTEM_MEMORY: u8 = 0;

/// The SPCR, held as its bytes; empty until `init`.
pub struct SpcrManager {
    table: Vec<u8>,
}

impl SpcrManager {
    pub const INTERFACE_TYPE_ARM_PL011: u8 = 0x03;
    pub const INTERFACE_TYPE_ARM_SBSA_GENERIC: u8 = 0x0E;

    pub closed spec fn bytes(&self) -> Seq<u8> {
        self.table@
    }

    /// Empty, or a whole table of at least `SPCR_SIZE` bytes.
    pub open spec fn wf(&self) -> bool {
        self.bytes().len() == 0 || (self.bytes().len() >= SPCR_SIZE && table_length(self.bytes())
            == self.bytes().len())
    }

    pub fn new() -> (r: Self)
        ensures
            r.wf(),
            r.bytes().len() == 0,
    {
        SpcrManager { table: Vec::new() }
    }

    /// Takes the table at the start of `bytes`; fails where it is shorter
    /// than `SPCR_SIZE` or longer than `bytes`, and the manager is then
    /// unchanged. A revision below 2 is taken as it is.
    pub fn init(&mut self, bytes: &Vec<u8>) -> (r: Result<(), ()>)
        requires
            old(self).wf(),
        ensures
            final(self).wf(),
            r is Ok <==> table_fits(bytes@, SPCR_SIZE as int),
            r is Ok ==> final(self).bytes() == bytes@.subrange(0, table_length(bytes@)),
            r is Err ==> final(self).bytes() == old(self).bytes(),
    {
        match load_table(bytes, SPCR_SIZE) {
            Some(t) => {
                self.table = t;
                proof {
                    lemma_le_value_same(self.bytes(), bytes@, 4, 4);
                }
                Ok(())
            },
            None => Err(()),
        }
    }

    /// The address of the console's registers, where the base address lies
    /// in system memory; none before `init`, or in another address space
    /// (an identifier of `0x0B` or above counts as invalid).
    pub fn get_memory_mapped_io_base_address(&self) -> (r: Option<usize>)
        requires
            self.wf(),
        ensures
            r == if self.bytes().len() == 0 || self.bytes()[40] != ADDRESS_SPACE_ID_SYSTEM_MEMORY {
                None
            } else {
                Some(le_value(self.bytes(), 44, 8) as u64 as usize)
            },
    {
        if self.table.len() == 0 {
            return None;
        }
        let space_id = self.table[SPCR_BASE_ADDRESS_OFFSET];
        if space_id >= 0x0B || space_id != ADDRESS_SPACE_ID_SYSTEM_MEMORY {
            return None;
        }
        let a = read_le_at(self.table.as_slice(), SPCR_BASE_ADDRESS_OFFSET + 4, 8);
        Some(a as usize)
    }

    /// The type of the console's interface.
    pub fn get_interface_type(&self) -> (r: u8)
        requires
            self.wf(),
            self.bytes().len() != 0,
        ensures
            r == self.bytes()[36],
    {
        self.table[SPCR_INTERFACE_TYPE_OFFSET]
    }
}

} // verus!
