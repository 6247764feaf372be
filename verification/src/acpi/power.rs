//! Switching the machine to ACPI mode, entering a sleep state (S5 is
//! soft-off), and what the power button and the embedded controller's
//! queries are bound to.
use vstd::prelude::*;
use crate::aml::aml_variable::{AmlPackage, AmlVariable};

verus! {

/// A step of switching to ACPI mode.
#[derive(Debug, Clone, Copy, PartialEq, Eq, Structural)]
pub enum AcpiEnableStep {
    /// Write a byte to a port.
    WriteByte(usize, u8),
    /// Read the port until its bit 0 (SCI_EN) is set.
    WaitSciEnabled(usize),
}

/// The steps that switch to ACPI mode: none on hardware-reduced ACPI (no
/// SMI command port); otherwise the enable value written to the SMI command
/// port, then a wait for SCI_EN in PM1a control and, where there is one, in
/// PM1b control.
pub fn acpi_enable_steps(smi_cmd: usize, acpi_enable: u8, pm1a_control: usize, pm1b_control: usize) -> (r: Vec<
    AcpiEnableStep,
>)
    ensures
        smi_cmd == 0 ==> r@.len() == 0,
        smi_cmd != 0 && pm1b_control == 0 ==> r@ == seq![
            AcpiEnableStep::WriteByte(smi_cmd, acpi_enable),
            AcpiEnableStep::WaitSciEnabled(pm1a_control),
        ],
        smi_cmd != 0 && pm1b_control != 0 ==> r@ == seq![
            AcpiEnableStep::WriteByte(smi_cmd, acpi_enable),
            AcpiEnableStep::WaitSciEnabled(pm1a_control),
            AcpiEnableStep::WaitSciEnabled(pm1b_control),
        ],
{
    let mut r: Vec<AcpiEnableStep> = Vec::new();
    if smi_cmd == 0 {
        return r;
    }
    r.push(AcpiEnableStep::WriteByte(smi_cmd, acpi_enable));
    r.push(AcpiEnableStep::WaitSciEnabled(pm1a_control));
    if pm1b_control != 0 {
        r.push(AcpiEnableStep::WaitSciEnabled(pm1b_control));
    }
    r
}

/// The name segment of the object that describes sleep state `s` (`_S0_`
/// to `_S5_`, the last byte 0 as the interpreter writes it); none above 5.
pub fn sleep_state_name(s: u8) -> (r: Option<[u8; 4]>)
    ensures
        s > 5 ==> r is None,
        s <= 5 ==> (r matches Some(n) && n@ == seq![0x5fu8, 0x53u8, (s + 0x30) as u8, 0u8]),
{
    if s > 5 {
        return None;
    }
    let n = [0x5fu8, 0x53u8, s + 0x30, 0u8];
    assert(n@ =~= seq![0x5fu8, 0x53u8, (s + 0x30) as u8, 0u8]);
    Some(n)
}

/// The sleep type values for PM1a and PM1b that a sleep state object holds:
/// the first two elements of its package, where both are integers.
pub fn sleep_state_values(object: &AmlVariable) -> (r: Option<(usize, usize)>)
    ensures
        r is Some <==> (*object matches AmlVariable::Package(p) && p@.len() >= 2 && p@[0] is ConstData
            && p@[1] is ConstData),
        r matches Some((a, b)) ==> (*object matches AmlVariable::Package(p) && a == p@[0]->ConstData_0.spec_value()
            as usize && b == p@[1]->ConstData_0.spec_value() as usize),
{
    match object {
        AmlVariable::Package(p) => {
            if p.len() < 2 {
                return None;
            }
            match (&p[0], &p[1]) {
                (AmlPackage::ConstData(a), AmlPackage::ConstData(b)) => Some((a.to_int(), b.to_int())),
                _ => None,
            }
        },
        _ => None,
    }
}

/// The sleep control register value that enters the sleep state of type
/// `slp_typ`: SLP_TYPx (bits 2 to 4) replaced by the low three bits of the
/// type, and SLP_EN (bit 5) set.
pub fn sleep_control_value(status: u8, slp_typ: usize) -> (r: u8)
    ensures
        r == (status & !(7u8 << 2u8)) | ((((slp_typ & 7) << 2usize) | 0x20usize) as u8),
{
    (status & !(7u8 << 2u8)) | ((((slp_typ & 7) << 2usize) | 0x20usize) as u8)
}

/// The PM1 control register value that enters the sleep state of type
/// `slp_typ`: SLP_TYPx (bits 10 to 12) replaced by the low three bits of
/// the type, and SLP_EN (bit 13) set.
pub fn pm1_control_value(status: u16, slp_typ: usize) -> (r: u16)
    ensures
        r == (status & !(7u16 << 10u16)) | ((((slp_typ & 7) << 10usize) | 0x2000usize) as u16),
{
    (status & !(7u16 << 10u16)) | ((((slp_typ & 7) << 10usize) | 0x2000usize) as u16)
}

/// Whether the power button is a control-method device (FADT flag
/// PWR_BUTTON, bit 4) rather than the fixed-hardware button.
pub fn is_control_method_power_button(fadt_flags: u32) -> (r: bool)
    ensures
        r == (fadt_flags & 0x10 != 0),
{
    (fadt_flags & 0x10) != 0
}

/// The upper-case hexadecimal digit of `x` (below 16).
pub open spec fn hex_upper(x: u8) -> u8 {
    if x >= 10 {
        (x - 10 + 0x41) as u8
    } else {
        (x + 0x30) as u8
    }
}

/// The name segment of the method that handles query `query` of the
/// embedded controller: `_Q` and the query in two upper-case hexadecimal
/// digits.
pub fn query_method_name(query: u8) -> (r: [u8; 4])
    ensures
        r@ == seq![0x5fu8, 0x51u8, hex_upper(query / 16), hex_upper(query % 16)],
{
    let hi = query >> 4u8;
    let lo = query & 0xf;
    assert(hi == query / 16 && lo == query % 16) by (bit_vector)
        requires
            hi == query >> 4u8,
            lo == query & 0xf,
    ;
    let h = if hi >= 0xa {
        hi - 0xa + 0x41
    } else {
        hi + 0x30
    };
    let l = if lo >= 0xa {
        lo - 0xa + 0x41
    } else {
        lo + 0x30
    };
    let r = [0x5fu8, 0x51u8, h, l];
    assert(r@ =~= seq![0x5fu8, 0x51u8, hex_upper(query / 16), hex_upper(query % 16)]);
    r
}

} // verus!
