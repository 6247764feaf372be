//! The Differentiated and Secondary System Description Tables: a header
//! followed by a definition block of AML.
use vstd::prelude::*;
use super::table::{lemma_le_value_same, load_table, table_fits, table_length, copy_range};

verus! {

/// The size of the header of a definition-block table.
pub const DEFINITION_BLOCK_HEADER: usize = 36;

/// The DSDT, held as its bytes; empty until `init`.
pub struct DsdtManager {
    table: Vec<u8>,
}

/// An SSDT, held as its bytes; empty until `init`.
pub struct SsdtManager {
    table: Vec<u8>,
}

impl DsdtManager {
    pub closed spec fn bytes(&self) -> Seq<u8> {
        self.table@
    }

    /// Empty, or a whole table.
    pub open spec fn wf(&self) -> bool {
        self.bytes().len() == 0 || (self.bytes().len() >= DEFINITION_BLOCK_HEADER
            && table_length(self.bytes()) == self.bytes().len())
    }

    pub fn new() -> (r: Self)
        ensures
            r.wf(),
            r.bytes().len() == 0,
    {
        DsdtManager { table: Vec::new() }
    }

    /// Takes the table at the start of `bytes`; fails where it is shorter
    /// than its header or longer than `bytes`, and the manager is unchanged.
    pub fn init(&mut self, bytes: &Vec<u8>) -> (r: Result<(), ()>)
        requires
            old(self).wf(),
        ensures
            final(self).wf(),
            r is Ok <==> table_fits(bytes@, DEFINITION_BLOCK_HEADER as int),
            r is Ok ==> final(self).bytes() == bytes@.subrange(0, table_length(bytes@)),
            r is Err ==> final(self).bytes() == old(self).bytes(),
    {
        match load_table(bytes, DEFINITION_BLOCK_HEADER) {
            Some(t) => {
                self.table = t;
                proof {
                    lemma_le_value_same(self.bytes(), bytes@, 4, 4);
                }
                Ok(())
            },
            None => Err(()),
        }
    }

    pub fn is_initialized(&self) -> (r: bool)
        ensures
            r == (self.bytes().len() != 0),
    {
        self.table.len() != 0
    }

    /// The offset of the definition block in the table and its size.
    pub fn get_definition_block_address_and_size(&self) -> (r: (usize, usize))
        requires
            self.wf(),
            self.bytes().len() != 0,
        ensures
            r == (DEFINITION_BLOCK_HEADER, (self.bytes().len() - DEFINITION_BLOCK_HEADER) as usize),
    {
        (DEFINITION_BLOCK_HEADER, self.table.len() - DEFINITION_BLOCK_HEADER)
    }

    /// The AML bytes of the definition block.
    pub fn get_definition_block(&self) -> (r: Vec<u8>)
        requires
            self.wf(),
            self.bytes().len() != 0,
        ensures
            r@ == self.bytes().subrange(DEFINITION_BLOCK_HEADER as int, self.bytes().len() as int),
    {
        copy_range(&self.table, DEFINITION_BLOCK_HEADER, self.table.len())
    }
}

impl SsdtManager {
    pub closed spec fn bytes(&self) -> Seq<u8> {
        self.table@
    }

    /// Empty, or a whole table.
    pub open spec fn wf(&self) -> bool {
        self.bytes().len() == 0 || (self.bytes().len() >= DEFINITION_BLOCK_HEADER
            && table_length(self.bytes()) == self.bytes().len())
    }

    pub fn new() -> (r: Self)
        ensures
            r.wf(),
            r.bytes().len() == 0,
    {
        SsdtManager { table: Vec::new() }
    }

    /// Takes the table at the start of `bytes`; fails where it is shorter
    /// than its header or longer than `bytes`, and the manager is unchanged.
    pub fn init(&mut self, bytes: &Vec<u8>) -> (r: Result<(), ()>)
        requires
            old(self).wf(),
        ensures
            final(self).wf(),
            r is Ok <==> table_fits(bytes@, DEFINITION_BLOCK_HEADER as int),
            r is Ok ==> final(self).bytes() == bytes@.subrange(0, table_length(bytes@)),
            r is Err ==> final(self).bytes() == old(self).bytes(),
    {
        match load_table(bytes, DEFINITION_BLOCK_HEADER) {
            Some(t) => {
                self.table = t;
                proof {
                    lemma_le_value_same(self.bytes(), bytes@, 4, 4);
                }
                Ok(())
            },
            None => Err(()),
        }
    }

    pub fn is_initialized(&self) -> (r: bool)
        ensures
            r == (self.bytes().len() != 0),
    {
        self.table.len() != 0
    }

    /// The offset of the definition block in the table and its size.
    pub fn get_definition_block_address_and_size(&self) -> (r: (usize, usize))
        requires
            self.wf(),
            self.bytes().len() != 0,
        ensures
            r == (DEFINITION_BLOCK_HEADER, (self.bytes().len() - DEFINITION_BLOCK_HEADER) as usize),
    {
        (DEFINITION_BLOCK_HEADER, self.table.len() - DEFINITION_BLOCK_HEADER)
    }

    /// The AML bytes of the definition block.
    pub fn get_definition_block(&self) -> (r: Vec<u8>)
        requires
            self.wf(),
            self.bytes().len() != 0,
        ensures
            r@ == self.bytes().subrange(DEFINITION_BLOCK_HEADER as int, self.bytes().len() as int),
    {
        copy_range(&self.table, DEFINITION_BLOCK_HEADER, self.table.len())
    }
}

} // verus!
