//! The Boot Graphics Resource Table (the vendor logo) and the Generic
//! Timer Description Table.
use vstd::prelude::*;
use crate::aml::stream::{le_value, lemma_le_value_bound, byte_bound};
use super::read_le_at;
use super::table::{load_table, table_fits, table_length, lemma_le_value_same};

verus! {

/// The size of the BGRT.
pub const BGRT_SIZE: usize = 56;

/// The size of the GTDT fields that are read.
pub const GTDT_SIZE: usize = 104;

/// The value of an absent counter-control base.
pub const ADDRESS_INVALID: u64 = 0xFFFF_FFFF_FFFF_FFFF;

/// The BGRT, held as its bytes; empty until `init`.
pub struct BgrtManager {
    table: Vec<u8>,
}

/// The GTDT, held as its bytes; empty until `init`.
pub struct GtdtManager {
    table: Vec<u8>,
}

proof fn lemma_u32_bound(t: Seq<u8>, p: int)
    ensures
        0 <= le_value(t, p, 4) <= 0xffff_ffff,
{
    lemma_le_value_bound(t, p, 4);
    reveal_with_fuel(byte_bound, 5);
}

impl BgrtManager {
    pub closed spec fn bytes(&self) -> Seq<u8> {
        self.table@
    }

    /// Empty, or a whole table of at least `BGRT_SIZE` bytes.
    pub open spec fn wf(&self) -> bool {
        self.bytes().len() == 0 || (self.bytes().len() >= BGRT_SIZE && table_length(self.bytes())
            == self.bytes().len())
    }

    pub fn new() -> (r: Self)
        ensures
            r.wf(),
            r.bytes().len() == 0,
    {
        BgrtManager { table: Vec::new() }
    }

    /// Takes the table at the start of `bytes`; fails where it is shorter
    /// than `BGRT_SIZE` or longer than `bytes`, and the manager is then
    /// unchanged.
    pub fn init(&mut self, bytes: &Vec<u8>) -> (r: bool)
        requires
            old(self).wf(),
        ensures
            final(self).wf(),
            r <==> table_fits(bytes@, BGRT_SIZE as int),
            r ==> final(self).bytes() == bytes@.subrange(0, table_length(bytes@)),
            !r ==> final(self).bytes() == old(self).bytes(),
    {
        match load_table(bytes, BGRT_SIZE) {
            Some(t) => {
                self.table = t;
                proof {
                    lemma_le_value_same(self.bytes(), bytes@, 4, 4);
                }
                true
            },
            None => false,
        }
    }

    /// The address of the image, where it is a bitmap (type 0).
    pub fn get_bitmap_physical_address(&self) -> (r: Option<usize>)
        requires
            self.wf(),
            self.bytes().len() != 0,
        ensures
            r == if self.bytes()[39] == 0 {
                Some(le_value(self.bytes(), 40, 8) as u64 as usize)
            } else {
                None
            },
    {
        if self.table[39] == 0 {
            Some(read_le_at(self.table.as_slice(), 40, 8) as usize)
        } else {
            None
        }
    }

    /// The offsets of the image, across and down.
    pub fn get_image_offset(&self) -> (r: (usize, usize))
        requires
            self.wf(),
            self.bytes().len() != 0,
        ensures
            r == (le_value(self.bytes(), 48, 4) as usize, le_value(self.bytes(), 52, 4) as usize),
    {
        let x = read_le_at(self.table.as_slice(), 48, 4);
        let y = read_le_at(self.table.as_slice(), 52, 4);
        proof {
            lemma_u32_bound(self.bytes(), 48);
            lemma_u32_bound(self.bytes(), 52);
        }
        (x as usize, y as usize)
    }
}

impl GtdtManager {
    pub closed spec fn bytes(&self) -> Seq<u8> {
        self.table@
    }

    /// Empty, or a whole table of at least `GTDT_SIZE` bytes.
    pub open spec fn wf(&self) -> bool {
        self.bytes().len() == 0 || (self.bytes().len() >= GTDT_SIZE && table_length(self.bytes())
            == self.bytes().len())
    }

    pub fn new() -> (r: Self)
        ensures
            r.wf(),
            r.bytes().len() == 0,
    {
        GtdtManager { table: Vec::new() }
    }

    /// Takes the table at the start of `bytes`; fails where it is shorter
    /// than `GTDT_SIZE` or longer than `bytes`, and the manager is then
    /// unchanged.
    pub fn init(&mut self, bytes: &Vec<u8>) -> (r: Result<(), ()>)
        requires
            old(self).wf(),
        ensures
            final(self).wf(),
            r is Ok <==> table_fits(bytes@, GTDT_SIZE as int),
            r is Ok ==> final(self).bytes() == bytes@.subrange(0, table_length(bytes@)),
            r is Err ==> final(self).bytes() == old(self).bytes(),
    {
        match load_table(bytes, GTDT_SIZE) {
            Some(t) => {
                self.table = t;
                proof {
                    lemma_le_value_same(self.bytes(), bytes@, 4, 4);
                }
                Ok(())
            },
            None => Err(()),
        }
    }

    /// The base of the counter-control block; none before `init` or where
    /// it is marked invalid.
    pub fn get_cnt_control_base(&self) -> (r: Option<usize>)
        requires
            self.wf(),
        ensures
            r == if self.bytes().len() == 0 || le_value(self.bytes(), 36, 8) == ADDRESS_INVALID {
                None
            } else {
                Some(le_value(self.bytes(), 36, 8) as u64 as usize)
            },
    {
        if self.table.len() == 0 {
            return None;
        }
        let a = read_le_at(self.table.as_slice(), 36, 8);
        if a == ADDRESS_INVALID {
            None
        } else {
            Some(a as usize)
        }
    }

    pub fn get_non_secure_el1_gsiv(&self) -> (r: u32)
        requires
            self.wf(),
            self.bytes().len() != 0,
        ensures
            r == le_value(self.bytes(), 56, 4),
    {
        proof {
            lemma_u32_bound(self.bytes(), 56);
        }
        read_le_at(self.table.as_slice(), 56, 4) as u32
    }

    pub fn get_non_secure_el1_flags(&self) -> (r: u32)
        requires
            self.wf(),
            self.bytes().len() != 0,
        ensures
            r == le_value(self.bytes(), 60, 4),
    {
        proof {
            lemma_u32_bound(self.bytes(), 60);
        }
        read_le_at(self.table.as_slice(), 60, 4) as u32
    }
}

} // verus!
