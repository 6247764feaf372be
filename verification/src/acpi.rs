//! ACPI: the system description tables, the general-purpose and fixed
//! events, the power-management timer, the embedded controller, device
//! resources, sleep states and the power button.

pub mod bgrt;
pub mod device;
pub mod dsdt;
pub mod ec;
pub mod event;
pub mod fadt;
pub mod gpe;
pub mod madt;
pub mod mcfg;
pub mod pm_timer;
pub mod power;
pub mod resources;
pub mod spcr;
pub mod table;
pub mod xsdt;

use vstd::prelude::*;
use crate::aml::stream::{byte_bound, le_value, lemma_byte_bound_mono, lemma_le_value_bound};

verus! {

/// Reads the little-endian value of the `n <= 8` bytes of `t` from `p`.
pub fn read_le_at(t: &[u8], p: usize, n: usize) -> (r: u64)
    requires
        n <= 8,
        p + n <= t@.len(),
    ensures
        r == le_value(t@, p as int, n as nat),
{
    let mut r: u64 = 0;
    let mut i: usize = n;
    assert(byte_bound(7) == 0x100000000000000) by {
        reveal_with_fuel(byte_bound, 8);
    }
    while i > 0
        invariant
            i <= n <= 8,
            p + n <= t@.len(),
            t@.len() == t.len(),
            byte_bound(7) == 0x100000000000000,
            r == le_value(t@, p + i, (n - i) as nat),
        decreases i,
    {
        i = i - 1;
        proof {
            lemma_le_value_bound(t@, p + i + 1, (n - i - 1) as nat);
            lemma_byte_bound_mono((n - i - 1) as nat, 7);
            assert(((n - i - 1) as nat) == ((n - (i + 1)) as nat));
        }
        r = t[p + i] as u64 + 256 * r;
    }
    r
}

/// The address part of an ACPI Generic Address Structure.
#[derive(Clone, Copy, PartialEq, Eq, Structural)]
pub struct GeneralAddress {
    pub address: u64,
    pub address_type: u8,
}

/// The address-space identifier of an invalid structure.
pub const INVALID_ADDRESS_TYPE: u8 = 0x0B;

impl GeneralAddress {
    /// What `new` reads from the twelve bytes `a`.
    pub open spec fn spec_new(a: Seq<u8>) -> GeneralAddress {
        if a[0] >= INVALID_ADDRESS_TYPE {
            GeneralAddress { address: 0, address_type: INVALID_ADDRESS_TYPE }
        } else {
            GeneralAddress { address: le_value(a, 4, 8) as u64, address_type: a[0] }
        }
    }

    fn invalid() -> (r: Self)
        ensures
            r == (GeneralAddress { address: 0, address_type: INVALID_ADDRESS_TYPE }),
    {
        GeneralAddress { address: 0, address_type: INVALID_ADDRESS_TYPE }
    }

    /// Reads the structure: the address-space identifier is byte 0, the
    /// address the little-endian bytes 4 to 11. An identifier of `0x0B` or
    /// above gives the invalid structure.
    pub fn new(a: &[u8; 12]) -> (r: Self)
        ensures
            r == Self::spec_new(a@),
    {
        let address_type = a[0];
        if address_type >= INVALID_ADDRESS_TYPE {
            return Self::invalid();
        }
        let address = read_le_at(a.as_slice(), 4, 8);
        GeneralAddress { address_type, address }
    }
}


/// The size of the root system description pointer of ACPI 2.0.
pub const RSDP_SIZE: usize = 36;

/// `RSD PTR `, the signature of the root system description pointer.
pub open spec fn is_rsdp_signature(b: Seq<u8>) -> bool {
    &&& b[0] == 0x52 && b[1] == 0x53 && b[2] == 0x44 && b[3] == 0x20
    &&& b[4] == 0x50 && b[5] == 0x54 && b[6] == 0x52 && b[7] == 0x20
}

/// The address of the XSDT that the root system description pointer
/// `bytes` gives: where it is whole, holds the signature `RSD PTR ` and is
/// of revision 2; none otherwise.
pub open spec fn spec_rsdp_xsdt(bytes: Seq<u8>) -> Option<u64> {
    if bytes.len() < RSDP_SIZE || !is_rsdp_signature(bytes) || bytes[15] != 2 {
        None
    } else {
        Some(le_value(bytes, 24, 8) as u64)
    }
}

/// Checks the root system description pointer `bytes` and gives the
/// address of the XSDT, as `spec_rsdp_xsdt` says.
pub fn rsdp_xsdt_address(bytes: &[u8]) -> (r: Option<u64>)
    ensures
        r == spec_rsdp_xsdt(bytes@),
{
    if bytes.len() < RSDP_SIZE {
        return None;
    }
    if !(bytes[0] == 0x52 && bytes[1] == 0x53 && bytes[2] == 0x44 && bytes[3] == 0x20 && bytes[4] == 0x50 && bytes[5]
        == 0x54 && bytes[6] == 0x52 && bytes[7] == 0x20) {
        return None;
    }
    if bytes[15] != 2 {
        return None;
    }
    Some(read_le_at(bytes, 24, 8))
}

} // verus!
