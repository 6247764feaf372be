//! The Extended System Description Table: a header followed by the 64-bit
//! physical addresses of the other tables.
use vstd::prelude::*;
use crate::aml::stream::le_value;
use super::read_le_at;
use super::dsdt::DsdtManager;
use super::fadt::FadtManager;
use super::table::{load_table, table_fits, table_length, lemma_le_value_same};

verus! {

/// The size of the XSDT header.
pub const XSDT_HEADER: usize = 36;

/// The XSDT, held as its bytes, with the FADT and the DSDT that were
/// handed to it.
pub struct XsdtManager {
    table: Vec<u8>,
    fadt_manager: FadtManager,
    dsdt_manager: DsdtManager,
}

/// The four bytes of `t` from 0 spell `s`.
pub open spec fn has_signature(t: Seq<u8>, s: Seq<u8>) -> bool {
    t.len() >= 4 && t.subrange(0, 4) == s
}

pub open spec fn sig_xsdt() -> Seq<u8> {
    seq![0x58u8, 0x53u8, 0x44u8, 0x54u8]
}

pub open spec fn sig_facp() -> Seq<u8> {
    seq![0x46u8, 0x41u8, 0x43u8, 0x50u8]
}

pub open spec fn sig_dsdt() -> Seq<u8> {
    seq![0x44u8, 0x53u8, 0x44u8, 0x54u8]
}

/// Whether `t` begins with the four bytes `a b c d`.
fn starts_with(t: &Vec<u8>, a: u8, b: u8, c: u8, d: u8) -> (r: bool)
    ensures
        r == has_signature(t@, seq![a, b, c, d]),
{
    if t.len() < 4 {
        return false;
    }
    let r = t[0] == a && t[1] == b && t[2] == c && t[3] == d;
    assert(r == (t@.subrange(0, 4) =~= seq![a, b, c, d]));
    r
}

impl XsdtManager {
    pub closed spec fn bytes(&self) -> Seq<u8> {
        self.table@
    }

    pub closed spec fn fadt(&self) -> FadtManager {
        self.fadt_manager
    }

    pub closed spec fn dsdt(&self) -> DsdtManager {
        self.dsdt_manager
    }

    /// Empty, or a whole table; and the held tables are well formed.
    pub open spec fn wf(&self) -> bool {
        &&& (self.bytes().len() == 0 || (self.bytes().len() >= XSDT_HEADER && table_length(
            self.bytes(),
        ) == self.bytes().len()))
        &&& self.fadt().wf()
        &&& self.dsdt().wf()
    }

    /// The number of entries.
    pub open spec fn spec_count(&self) -> int {
        if self.bytes().len() == 0 {
            0
        } else {
            (self.bytes().len() - XSDT_HEADER) / 8
        }
    }

    pub fn new() -> (r: Self)
        ensures
            r.wf(),
            r.bytes().len() == 0,
            !r.fadt().enabled(),
            r.dsdt().bytes().len() == 0,
    {
        XsdtManager { table: Vec::new(), fadt_manager: FadtManager::new(), dsdt_manager: DsdtManager::new() }
    }

    /// Takes the XSDT at the start of `bytes`: it must be signed `XSDT`, of
    /// revision 1 and lie whole within `bytes`. On failure the manager is
    /// unchanged.
    pub fn init(&mut self, bytes: &Vec<u8>) -> (r: Result<(), ()>)
        requires
            old(self).wf(),
        ensures
            final(self).wf(),
            r is Ok <==> has_signature(bytes@, sig_xsdt()) && table_fits(bytes@, XSDT_HEADER as int)
                && bytes@[8] == 1,
            r is Ok ==> final(self).bytes() == bytes@.subrange(0, table_length(bytes@)),
            r is Err ==> final(self).bytes() == old(self).bytes(),
            final(self).fadt() == old(self).fadt(),
            final(self).dsdt() == old(self).dsdt(),
    {
        if !starts_with(bytes, 0x58, 0x53, 0x44, 0x54) {
            return Err(());
        }
        if bytes.len() <= 8 || bytes[8] != 1 {
            return Err(());
        }
        match load_table(bytes, XSDT_HEADER) {
            Some(t) => {
                self.table = t;
                proof {
                    lemma_le_value_same(self.bytes(), bytes@, 4, 4);
                }
                Ok(())
            },
            None => Err(()),
        }
    }

    /// The physical address in entry `index`; none past the last entry.
    pub fn get_entry(&self, index: usize) -> (r: Option<u64>)
        requires
            self.wf(),
        ensures
            r is Some <==> index < self.spec_count(),
            r matches Some(a) ==> a == le_value(self.bytes(), XSDT_HEADER + 8 * index, 8),
    {
        if self.table.len() == 0 {
            return None;
        }
        let count = (self.table.len() - XSDT_HEADER) / 8;
        if count <= index {
            return None;
        }
        assert(XSDT_HEADER + 8 * index + 8 <= self.bytes().len());
        Some(read_le_at(self.table.as_slice(), XSDT_HEADER + 8 * index, 8))
    }

    /// Hands over the table `bytes` that an entry points to: a FADT or a
    /// DSDT is kept, any other table is skipped. Fails where a FADT or DSDT
    /// does not load, and nothing changes then.
    pub fn add_table(&mut self, bytes: &Vec<u8>) -> (r: Result<(), ()>)
        requires
            old(self).wf(),
        ensures
            final(self).wf(),
            final(self).bytes() == old(self).bytes(),
            has_signature(bytes@, sig_facp()) ==> (r is Ok <==> table_fits(bytes@, 276)) && (r is Ok
                ==> final(self).fadt().bytes() == bytes@.subrange(0, table_length(bytes@))) && (r is Ok
                ==> final(self).dsdt() == old(self).dsdt()),
            has_signature(bytes@, sig_dsdt()) ==> (r is Ok <==> table_fits(bytes@, 36)) && (r is Ok
                ==> final(self).dsdt().bytes() == bytes@.subrange(0, table_length(bytes@))) && (r is Ok
                ==> final(self).fadt() == old(self).fadt()),
            !has_signature(bytes@, sig_facp()) && !has_signature(bytes@, sig_dsdt()) ==> r is Ok
                && final(self).fadt() == old(self).fadt() && final(self).dsdt() == old(self).dsdt(),
            r is Err ==> final(self).fadt().bytes() == old(self).fadt().bytes(),
            r is Err ==> final(self).dsdt().bytes() == old(self).dsdt().bytes(),
    {
        if starts_with(bytes, 0x46, 0x41, 0x43, 0x50) {
            assert(sig_facp() != sig_dsdt()) by {
                assert(sig_facp()[0] != sig_dsdt()[0]);
            }
            if self.fadt_manager.init(bytes) {
                Ok(())
            } else {
                Err(())
            }
        } else if starts_with(bytes, 0x44, 0x53, 0x44, 0x54) {
            self.dsdt_manager.init(bytes)
        } else {
            Ok(())
        }
    }

    pub fn get_fadt_manager(&self) -> (r: &FadtManager)
        ensures
            *r == self.fadt(),
    {
        &self.fadt_manager
    }

    pub fn get_dsdt_manager(&self) -> (r: &DsdtManager)
        ensures
            *r == self.dsdt(),
    {
        &self.dsdt_manager
    }
}

} // verus!
