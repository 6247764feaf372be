//! What the kernel reads from the values that AML methods return: the PCI
//! interrupt routing table (`_PRT`) and the current resources (`_CRS`) of
//! an interrupt link device.
use vstd::prelude::*;
use crate::aml::aml_variable::AmlPackage;
use crate::aml::data_object::ConstData;
use crate::aml::name_object::NameString;

verus! {

/// An interrupt: a legacy IRQ or a global system interrupt.
#[derive(Debug, Clone, Copy, PartialEq, Eq, Structural)]
pub enum ResourceData {
    Irq(u8),
    Interrupt(usize),
}

/// The lowest set bit of a nonzero byte, from `i` on.
pub open spec fn lowest_set(mask: u8, i: int) -> int
    decreases 8 - i,
{
    if i >= 8 {
        8
    } else if (mask as int / vstd::arithmetic::power2::pow2(i as nat) as int) % 2 == 1 {
        i
    } else {
        lowest_set(mask, i + 1)
    }
}

fn lowest_set_bit(mask: u8) -> (r: u8)
    ensures
        r == lowest_set(mask, 0),
        r <= 8,
{
    let mut i: u8 = 0;
    let mut m: u8 = mask;
    proof {
        vstd::arithmetic::power2::lemma2_to64();
    }
    while i < 8
        invariant
            i <= 8,
            m == mask as int / vstd::arithmetic::power2::pow2(i as nat) as int,
            lowest_set(mask, 0) == lowest_set(mask, i as int),
        decreases 8 - i,
    {
        if m % 2 == 1 {
            return i;
        }
        proof {
            vstd::arithmetic::power2::lemma_pow2_unfold((i + 1) as nat);
            vstd::arithmetic::power2::lemma_pow2_pos(i as nat);
            vstd::arithmetic::div_mod::lemma_div_denominator(
                mask as int,
                vstd::arithmetic::power2::pow2(i as nat) as int,
                2,
            );
        }
        m = m / 2;
        i = i + 1;
    }
    8
}

/// The interrupt that the resource template `v` of a link device
/// describes: an IRQ descriptor (tags `0x22`, `0x23`) gives the lowest IRQ
/// of its mask, the low byte first; an extended interrupt descriptor
/// (`0x89`) of length 6 or more with one interrupt gives that interrupt's
/// low byte. Anything else gives none.
pub fn parse_link_resource(v: &Vec<u8>) -> (r: Option<ResourceData>)
    requires
        v@.len() >= 1 && (v@[0] == 0x22 || v@[0] == 0x23) ==> v@.len() >= 3,
        v@.len() >= 1 && v@[0] == 0x89 && v@.len() >= 5 && v@[4] == 1 ==> v@.len() >= 6,
    ensures
        v@.len() == 0 ==> r is None,
        v@.len() > 0 && (v@[0] == 0x22 || v@[0] == 0x23) ==> r == if v@[1] != 0 {
            Some(ResourceData::Irq(lowest_set(v@[1], 0) as u8))
        } else if v@[2] != 0 {
            Some(ResourceData::Irq((lowest_set(v@[2], 0) + 8) as u8))
        } else {
            None
        },
        v@.len() > 0 && v@[0] == 0x89 ==> r == ({
            let b1 = if v@.len() > 1 { v@[1] } else { 0u8 };
            let b2 = if v@.len() > 2 { v@[2] } else { 0u8 };
            let b4 = if v@.len() > 4 { v@[4] } else { 0u8 };
            if b1 + 256 * b2 < 6 || b4 != 1 {
                None
            } else {
                Some(ResourceData::Interrupt(v@[5] as usize))
            }
        }),
        v@.len() > 0 && v@[0] != 0x22 && v@[0] != 0x23 && v@[0] != 0x89 ==> r is None,
{
    if v.len() == 0 {
        return None;
    }
    let tag = v[0];
    if tag == 0x22 || tag == 0x23 {
        if v[1] != 0 {
            let b = lowest_set_bit(v[1]);
            proof {
                lemma_lowest_set_found(v@[1], 0);
            }
            return Some(ResourceData::Irq(b));
        } else if v[2] != 0 {
            let b = lowest_set_bit(v[2]);
            proof {
                lemma_lowest_set_found(v@[2], 0);
            }
            return Some(ResourceData::Irq(b + 8));
        }
        None
    } else if tag == 0x89 {
        let b1: u16 = if v.len() > 1 {
            v[1] as u16
        } else {
            0
        };
        let b2: u16 = if v.len() > 2 {
            v[2] as u16
        } else {
            0
        };
        let length: u16 = b1 | (b2 << 8);
        assert(b1 | (b2 << 8) == b1 + 256 * b2) by (bit_vector)
            requires
                b1 < 256,
                b2 < 256,
        ;
        if length < 0x06 {
            return None;
        }
        let b4 = if v.len() > 4 {
            v[4]
        } else {
            0
        };
        if b4 != 1 {
            return None;
        }
        Some(ResourceData::Interrupt(v[5] as usize))
    } else {
        None
    }
}

/// A nonzero mask has a set bit below 8.
proof fn lemma_lowest_set_found(mask: u8, i: int)
    requires
        mask != 0,
        i == 0,
    ensures
        lowest_set(mask, 0) < 8,
{
    lemma_no_bit_from(mask, 0);
    vstd::arithmetic::power2::lemma2_to64();
    assert(mask as int / 1 == mask);
}

/// Where no bit from `i` on is set, the bits from `i` on make 0.
proof fn lemma_no_bit_from(mask: u8, i: int)
    requires
        0 <= i <= 8,
    ensures
        lowest_set(mask, i) == 8 ==> mask as int / vstd::arithmetic::power2::pow2(i as nat) as int == 0,
        lowest_set(mask, i) <= 8,
    decreases 8 - i,
{
    vstd::arithmetic::power2::lemma2_to64();
    if i == 8 {
        assert(mask as int / 256 == 0);
    }
    if i < 8 {
        lemma_no_bit_from(mask, i + 1);
        if lowest_set(mask, i) == 8 {
            let p = vstd::arithmetic::power2::pow2(i as nat) as int;
            vstd::arithmetic::power2::lemma_pow2_unfold((i + 1) as nat);
            vstd::arithmetic::power2::lemma_pow2_pos(i as nat);
            vstd::arithmetic::div_mod::lemma_div_denominator(mask as int, p, 2);
            let q = mask as int / p;
            assert(q % 2 == 0);
            assert(q / 2 == 0);
            vstd::arithmetic::div_mod::lemma_fundamental_div_mod(q, 2);
            assert(q >= 0) by {
                vstd::arithmetic::div_mod::lemma_div_pos_is_pos(mask as int, p);
            }
        }
    }
}

/// What a look-up in a routing table finds: an IRQ, the interrupt link
/// device named in element 2 of the entry at the given index, an entry
/// that breaks the table's form, or nothing.
#[derive(Debug, Clone, Copy, PartialEq, Eq, Structural)]
pub enum PrtLookup {
    Irq(u8),
    Link(usize),
    Invalid,
    NotFound,
}

/// The integer of a constant element.
pub open spec fn element_int(p: AmlPackage) -> Option<usize> {
    match p {
        AmlPackage::ConstData(c) => Some(c.spec_value() as usize),
        _ => None,
    }
}

/// What the entry `e`, the `index`th of the table, gives for `device` and
/// `int_pin`: none where it is not for them.
pub open spec fn prt_entry(e: Seq<AmlPackage>, index: int, device: u8, int_pin: u8) -> Option<PrtLookup> {
    if e.len() == 0 || element_int(e[0]) is None {
        None
    } else {
        let target = element_int(e[0])->0;
        let target_device = ((target >> 16) & 0xFFFF) as u16;
        let target_function = (target & 0xFFFF) as u16;
        if target_device != device as u16 {
            None
        } else if target_function != 0xFFFF || e.len() != 4 {
            Some(PrtLookup::Invalid)
        } else if element_int(e[1]) is None {
            Some(PrtLookup::Invalid)
        } else if element_int(e[1])->0 != int_pin as usize {
            None
        } else if element_int(e[3]) is None {
            Some(PrtLookup::Invalid)
        } else if element_int(e[3])->0 != 0 {
            Some(PrtLookup::Irq(element_int(e[3])->0 as u8))
        } else if e[2] is NameString {
            Some(PrtLookup::Link(index as usize))
        } else {
            Some(PrtLookup::Invalid)
        }
    }
}

/// What a scan of the table `v` from entry `i` finds.
pub open spec fn prt_scan(v: Seq<AmlPackage>, i: int, device: u8, int_pin: u8) -> PrtLookup
    decreases v.len() - i,
{
    if i < 0 || i >= v.len() {
        PrtLookup::NotFound
    } else {
        match v[i] {
            AmlPackage::Package(e) => match prt_entry(e@, i, device, int_pin) {
                Some(r) => r,
                None => prt_scan(v, i + 1, device, int_pin),
            },
            _ => PrtLookup::Invalid,
        }
    }
}

fn element_int_exec(p: &AmlPackage) -> (r: Option<usize>)
    ensures
        r == element_int(*p),
{
    match p {
        AmlPackage::ConstData(c) => Some(c.to_int()),
        _ => None,
    }
}

/// Finds the entry of the routing table `vector` (the value of `_PRT`)
/// for `device` and `int_pin`. The first entry for the device and pin
/// decides; an element that is not a package, or an entry for the device
/// that is not of four elements with a function of `0xFFFF`, breaks the
/// table.
pub fn search_prt(vector: &Vec<AmlPackage>, device: u8, int_pin: u8) -> (r: PrtLookup)
    ensures
        r == prt_scan(vector@, 0, device, int_pin),
{
    let mut i: usize = 0;
    while i < vector.len()
        invariant
            i <= vector@.len(),
            prt_scan(vector@, 0, device, int_pin) == prt_scan(vector@, i as int, device, int_pin),
        decreases vector@.len() - i,
    {
        match &vector[i] {
            AmlPackage::Package(e) => {
                if e.len() > 0 {
                    if let Some(target) = element_int_exec(&e[0]) {
                        let target_device = ((target >> 16) & 0xFFFF) as u16;
                        let target_function = (target & 0xFFFF) as u16;
                        if target_device == device as u16 {
                            if target_function != 0xFFFF || e.len() != 4 {
                                return PrtLookup::Invalid;
                            }
                            match element_int_exec(&e[1]) {
                                None => {
                                    return PrtLookup::Invalid;
                                },
                                Some(pin) => {
                                    if pin == int_pin as usize {
                                        match element_int_exec(&e[3]) {
                                            None => {
                                                return PrtLookup::Invalid;
                                            },
                                            Some(irq) => {
                                                if irq != 0 {
                                                    return PrtLookup::Irq(irq as u8);
                                                }
                                                return match &e[2] {
                                                    AmlPackage::NameString(_) => PrtLookup::Link(i),
                                                    _ => PrtLookup::Invalid,
                                                };
                                            },
                                        }
                                    }
                                },
                            }
                        }
                    }
                }
            },
            _ => {
                return PrtLookup::Invalid;
            },
        }
        i = i + 1;
    }
    PrtLookup::NotFound
}

/// The path of the routing-table method of PCI bus `bus`:
/// `\_SB.PCI<digit>._PRT`.
pub fn prt_method_name(bus: u8) -> (r: NameString)
    requires
        bus <= 207,
    ensures
        r.segs() == seq![
            [0x5Fu8, 0x53u8, 0x42u8, 0u8],
            [0x50u8, 0x43u8, 0x49u8, (bus + 0x30) as u8],
            [0x5Fu8, 0x50u8, 0x52u8, 0x54u8],
        ],
        r.spec_flag() == crate::aml::name_object::NameStringFlag::AbsolutePath,
{
    let parts: [[u8; 4]; 3] = [[0x5F, 0x53, 0x42, 0], [0x50, 0x43, 0x49, bus + 0x30], [0x5F, 0x50, 0x52, 0x54]];
    let r = NameString::from_array(parts.as_slice(), true);
    proof {
        assert(parts@ =~= seq![
            [0x5Fu8, 0x53u8, 0x42u8, 0u8],
            [0x50u8, 0x43u8, 0x49u8, (bus + 0x30) as u8],
            [0x5Fu8, 0x50u8, 0x52u8, 0x54u8],
        ]);
    }
    r
}

/// The path of the `_CRS` method of the link device named `link`: its last
/// segment under `\_SB`; none for a name without segments.
pub fn link_crs_name(link: &NameString) -> (r: Option<NameString>)
    ensures
        r is Some <==> !link.is_null() && link.segs().len() > 0,
        r matches Some(n) ==> n.segs() == seq![
            [0x5Fu8, 0x53u8, 0x42u8, 0u8],
            link.segs().last(),
            [0x5Fu8, 0x43u8, 0x52u8, 0x53u8],
        ],
{
    match link.get_last_element() {
        None => None,
        Some(device) => {
            let sb_parts: [[u8; 4]; 1] = [[0x5F, 0x53, 0x42, 0]];
            let sb = NameString::from_array(sb_parts.as_slice(), true);
            let device_path = device.get_full_name_path(&sb, true);
            let crs_parts: [[u8; 4]; 1] = [[0x5F, 0x43, 0x52, 0x53]];
            let crs = NameString::from_array(crs_parts.as_slice(), false);
            let r = crs.get_full_name_path(&device_path, true);
            proof {
                assert(sb_parts@ =~= seq![[0x5Fu8, 0x53u8, 0x42u8, 0u8]]);
                assert(crs_parts@ =~= seq![[0x5Fu8, 0x43u8, 0x52u8, 0x53u8]]);
                assert(r.segs() =~= seq![
                    [0x5Fu8, 0x53u8, 0x42u8, 0u8],
                    link.segs().last(),
                    [0x5Fu8, 0x43u8, 0x52u8, 0x53u8],
                ]);
            }
            Some(r)
        },
    }
}

} // verus!
