//! The Intel ICHx LPC interface: setting it up sets enable bits in three
//! registers of its PCI configuration space.
use vstd::prelude::*;

verus! {

/// The LPC bridge (PCI class 06h, subclass 01h).
pub struct LpcManager {}

impl LpcManager {
    pub const BASE_CLASS_CODE: u8 = 0x06;
    pub const SUB_CLASS_CODE: u8 = 0x01;

    pub const ACPI_CONTROL: u32 = 0x44;
    pub const GPIO_CONTROL: u32 = 0x4C;
    pub const LPC_I: u32 = 0x80;

    pub const ACPI_ENABLE: u32 = 0x80;
    pub const GPIO_ENABLE: u32 = 0x10;
    /// The micro-controller enable of LPC_EN (ports 62h and 66h), bit 11 of
    /// the upper half of the register.
    pub const MC_LPC_EN: u32 = 0x800;

    /// The registers to update and the bit to set in each, in order: ACPI
    /// enable, GPIO enable, then the micro-controller ports in LPC_EN.
    pub fn enable_bits() -> (r: Vec<(u32, u32)>)
        ensures
            r@ == seq![(0x44u32, 0x80u32), (0x4Cu32, 0x10u32), (0x80u32, 0x0800_0000u32)],
    {
        let r = vec![
            (Self::ACPI_CONTROL, Self::ACPI_ENABLE),
            (Self::GPIO_CONTROL, Self::GPIO_ENABLE),
            (Self::LPC_I, Self::MC_LPC_EN << 16u32),
        ];
        assert(0x800u32 << 16u32 == 0x0800_0000u32) by (bit_vector);
        assert(r@ =~= seq![(0x44u32, 0x80u32), (0x4Cu32, 0x10u32), (0x80u32, 0x0800_0000u32)]);
        r
    }

    /// The value to write back to a register read as `original`, with
    /// `bit` set and every other bit kept.
    pub fn enabled(original: u32, bit: u32) -> (r: u32)
        ensures
            r == original | bit,
            r & bit == bit,
    {
        assert((original | bit) & bit == bit) by (bit_vector);
        original | bit
    }
}

} // verus!
