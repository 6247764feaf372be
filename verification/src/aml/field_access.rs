//! How reading or writing a variable of the interpreter's store comes down
//! to accesses: of the hardware (I/O ports, memory, the embedded
//! controller, PCI configuration space) and of other entries of the store.
//!
//! A field names the variable it lies in by its handle; following it locks
//! that variable until the access through it is over, so a chain that comes
//! back to a locked variable fails as a lock that is already held.
use vstd::prelude::*;
use super::AmlError;
use super::aml_variable::{AmlVariable, AmlPciConfig, AmlIndexField, index_field_access, spec_index_field_offset};
use super::data_object::ConstData;
use crate::acpi::read_le_at;
use crate::aml::stream::le_value;

verus! {

/// Where an access falls in a variable, and how wide it is.
#[derive(Debug, Clone, Copy, PartialEq, Eq, Structural)]
pub struct FieldPosition {
    pub byte_index: usize,
    pub bit_index: usize,
    pub access_align: usize,
    pub num_of_bits: usize,
}

/// An access of the hardware.
#[derive(Debug, Clone, Copy, PartialEq, Eq, Structural)]
pub enum HardwareAccess {
    /// I/O port `port`, from bit `bit_index` (below 8), in accesses of
    /// `align` bytes.
    Io { port: usize, bit_index: usize, align: usize, num_of_bits: usize },
    /// Physical memory at `address`.
    Memory { address: usize, bit_index: usize, align: usize, num_of_bits: usize },
    /// Byte `address` of the embedded controller.
    EmbeddedController { address: u8, bit_index: usize, num_of_bits: usize },
    /// Byte `byte_offset` of the PCI configuration region `config`.
    Pci { config: AmlPciConfig, byte_offset: usize, bit_index: usize, align: usize, num_of_bits: usize },
}

/// What a write stores: the data handed to the write, or the value of an
/// index register.
#[derive(Debug, Clone, Copy, PartialEq, Eq, Structural)]
pub enum FieldData {
    Given,
    Index(ConstData),
}

/// One access that a read or a write comes down to, in the order in which
/// they are made.
#[derive(Debug, Clone, Copy, PartialEq, Eq, Structural)]
pub enum FieldStep {
    /// Read the hardware: the value of the read.
    HardwareRead(HardwareAccess),
    /// Write a constant to the hardware.
    HardwareWrite(HardwareAccess, ConstData),
    /// The store entry, as it is: the value of the read.
    StoreCopy(usize),
    /// Element `index` of the store entry: the value of the read.
    StoreIndexRead(usize, usize),
    /// The store entry (uninitialized) becomes the data.
    StoreSet(usize, FieldData),
    /// Bits of the buffer in the store entry take the low bits of `value`.
    StoreBits { handle: usize, byte_offset: usize, bit_index: usize, num_of_bits: usize, value: usize },
    /// Element `index` of the store entry takes the data.
    StoreIndexWrite(usize, usize, FieldData),
}

/// The integer that a write into an embedded controller or a buffer takes
/// of its data.
pub open spec fn int_of(v: AmlVariable) -> Result<usize, AmlError> {
    match v {
        AmlVariable::ConstData(c) => Ok(c.spec_value() as usize),
        AmlVariable::Mutex(level, _) => Ok(level as usize),
        _ => Err(AmlError::InvalidType),
    }
}

/// The value for the index register of `field` and the bit of its data
/// register, for an access at `byte_index` and `bit_index`; none where the
/// offset does not fit the access width or the width is not 0, 1, 2, 4 or 8.
pub open spec fn spec_index_value(byte_index: usize, bit_index: usize, field: AmlIndexField) -> Option<
    (ConstData, usize),
> {
    let (aligned, bit) = spec_index_field_offset(byte_index, bit_index, field);
    let a = field.access_align;
    if a == 0 || a == 1 {
        if aligned <= 0xFF {
            Some((ConstData::Byte(aligned as u8), bit))
        } else {
            None
        }
    } else if a == 2 {
        if aligned <= 0xFFFF {
            Some((ConstData::Word(aligned as u16), bit))
        } else {
            None
        }
    } else if a == 4 {
        if aligned <= 0xFFFF_FFFF {
            Some((ConstData::DWord(aligned as u32), bit))
        } else {
            None
        }
    } else if a == 8 {
        Some((ConstData::QWord(aligned as u64), bit))
    } else {
        None
    }
}

/// Why the variable `s` cannot be locked and followed, if it cannot: it is
/// not in the store, or it is locked already (every entry is locked when
/// there are as many locks as entries).
pub open spec fn follow_error(store_len: int, s: usize, locked: Seq<usize>) -> Option<AmlError> {
    if s >= store_len {
        Some(AmlError::InvalidOperation)
    } else if locked.contains(s) || locked.len() >= store_len {
        Some(AmlError::MutexError)
    } else {
        None
    }
}

pub open spec fn max_usize(a: usize, b: usize) -> usize {
    if a >= b {
        a
    } else {
        b
    }
}

/// The accesses of a read (`write` false) or a write of `dv` (described by
/// `d`) at position `p` of store entry `h`, with the entries `locked` held.
pub open spec fn field_steps(
    store: Seq<AmlVariable>,
    h: usize,
    p: FieldPosition,
    write: bool,
    d: FieldData,
    dv: AmlVariable,
    locked: Seq<usize>,
) -> Result<Seq<FieldStep>, AmlError>
    decreases store.len() - locked.len(),
{
    let byte = p.byte_index + p.bit_index / 8;
    let bit8 = (p.bit_index % 8) as usize;
    if h >= store.len() {
        Err(AmlError::InvalidOperation)
    } else {
        match store[h as int] {
            AmlVariable::Io(port, limit) => if byte > limit || port + byte > usize::MAX {
                Err(AmlError::InvalidOperation)
            } else {
                let a = HardwareAccess::Io {
                    port: (port + byte) as usize,
                    bit_index: bit8,
                    align: p.access_align,
                    num_of_bits: p.num_of_bits,
                };
                hardware_step(a, write, dv)
            },
            AmlVariable::MMIo(address, limit) => if byte > limit || address + byte > usize::MAX {
                Err(AmlError::InvalidOperation)
            } else {
                let a = HardwareAccess::Memory {
                    address: (address + byte) as usize,
                    bit_index: bit8,
                    align: p.access_align,
                    num_of_bits: p.num_of_bits,
                };
                hardware_step(a, write, dv)
            },
            AmlVariable::EcIo(address, limit) => if byte >= limit || address + byte > usize::MAX {
                Err(AmlError::InvalidOperation)
            } else {
                let a = HardwareAccess::EmbeddedController {
                    address: (address + byte) as u8,
                    bit_index: bit8,
                    num_of_bits: p.num_of_bits,
                };
                let bad_bits = p.num_of_bits == 0 || p.num_of_bits + bit8 > 8;
                if write {
                    if (bit8 != 0 || p.num_of_bits != 8) && bad_bits {
                        Err(AmlError::InvalidOperation)
                    } else {
                        match int_of(dv) {
                            Ok(x) => Ok(seq![FieldStep::HardwareWrite(a, ConstData::Byte(x as u8))]),
                            Err(e) => Err(e),
                        }
                    }
                } else if bad_bits {
                    Err(AmlError::InvalidOperation)
                } else {
                    Ok(seq![FieldStep::HardwareRead(a)])
                }
            },
            AmlVariable::PciConfig(config) => if byte > config.length {
                Err(AmlError::InvalidOperation)
            } else {
                let a = HardwareAccess::Pci {
                    config,
                    byte_offset: byte as usize,
                    bit_index: bit8,
                    align: p.access_align,
                    num_of_bits: p.num_of_bits,
                };
                hardware_step(a, write, dv)
            },
            AmlVariable::Uninitialized => if write {
                Ok(seq![FieldStep::StoreSet(h, d)])
            } else {
                Ok(seq![FieldStep::StoreCopy(h)])
            },
            AmlVariable::ConstData(_) => if write {
                Err(AmlError::UnsupportedType)
            } else {
                Ok(seq![FieldStep::StoreCopy(h)])
            },
            AmlVariable::Mutex(_, _) | AmlVariable::Method(_) | AmlVariable::BuiltInMethod(_, _) => if write {
                Err(AmlError::InvalidOperation)
            } else {
                Ok(seq![FieldStep::StoreCopy(h)])
            },
            AmlVariable::String(_) => if write {
                Err(AmlError::UnsupportedType)
            } else {
                element_read(h, byte, bit8)
            },
            AmlVariable::Package(_) => if write {
                Err(AmlError::InvalidOperation)
            } else {
                element_read(h, byte, bit8)
            },
            AmlVariable::Buffer(b) => if write {
                let width = p.num_of_bits >> 3;
                if byte + width >= b@.len() {
                    Err(AmlError::InvalidOperation)
                } else if !(width == 1 || width == 2 || width == 4 || width == 8) {
                    Err(AmlError::InvalidOperation)
                } else {
                    match int_of(dv) {
                        Ok(x) => Ok(
                            seq![
                                FieldStep::StoreBits {
                                    handle: h,
                                    byte_offset: byte as usize,
                                    bit_index: bit8,
                                    num_of_bits: p.num_of_bits,
                                    value: x,
                                },
                            ],
                        ),
                        Err(e) => Err(e),
                    }
                }
            } else {
                element_read(h, byte, bit8)
            },
            AmlVariable::BitField(f) => match follow_error(store.len() as int, f.source, locked) {
                Some(e) => Err(e),
                None => if p.bit_index + f.bit_index > usize::MAX {
                    Err(AmlError::InvalidOperation)
                } else {
                    field_steps(
                        store,
                        f.source,
                        FieldPosition {
                            byte_index: p.byte_index,
                            bit_index: (p.bit_index + f.bit_index) as usize,
                            access_align: max_usize(f.access_align, p.access_align),
                            num_of_bits: f.num_of_bits,
                        },
                        write,
                        d,
                        dv,
                        locked.push(f.source),
                    )
                },
            },
            AmlVariable::ByteField(f) => match follow_error(store.len() as int, f.source, locked) {
                Some(e) => Err(e),
                None => if p.byte_index + f.byte_index > usize::MAX {
                    Err(AmlError::InvalidOperation)
                } else {
                    field_steps(
                        store,
                        f.source,
                        FieldPosition {
                            byte_index: (p.byte_index + f.byte_index) as usize,
                            bit_index: p.bit_index,
                            access_align: max_usize(f.num_of_bytes, p.access_align),
                            num_of_bits: f.num_of_bytes << 3usize,
                        },
                        write,
                        d,
                        dv,
                        locked.push(f.source),
                    )
                },
            },
            AmlVariable::IndexField(f) => if f.bit_index + p.bit_index > usize::MAX || p.byte_index + (f.bit_index
                + p.bit_index) / 8 + 7 > usize::MAX {
                Err(AmlError::InvalidOperation)
            } else {
                match spec_index_value(p.byte_index, p.bit_index, f) {
                    None => Err(AmlError::InvalidOperation),
                    Some((c, bit)) => match follow_error(store.len() as int, f.index_register, locked) {
                        Some(e) => Err(e),
                        None => match field_steps(
                            store,
                            f.index_register,
                            FieldPosition { byte_index: 0, bit_index: 0, access_align: 0, num_of_bits: 8 },
                            true,
                            FieldData::Index(c),
                            AmlVariable::ConstData(c),
                            locked.push(f.index_register),
                        ) {
                            Err(e) => Err(e),
                            Ok(first) => match follow_error(store.len() as int, f.data_register, locked) {
                                Some(e) => Err(e),
                                None => match field_steps(
                                    store,
                                    f.data_register,
                                    FieldPosition {
                                        byte_index: 0,
                                        bit_index: bit,
                                        access_align: f.access_align,
                                        num_of_bits: f.num_of_bits,
                                    },
                                    write,
                                    d,
                                    dv,
                                    locked.push(f.data_register),
                                ) {
                                    Err(e) => Err(e),
                                    Ok(second) => Ok(first + second),
                                },
                            },
                        },
                    },
                }
            },
            AmlVariable::Reference(s, index) => match follow_error(store.len() as int, s, locked) {
                Some(e) => Err(e),
                None => match index {
                    Some(i) => if store[s as int] is Reference {
                        Err(AmlError::InvalidOperation)
                    } else if write {
                        Ok(seq![FieldStep::StoreIndexWrite(s, i, d)])
                    } else {
                        Ok(seq![FieldStep::StoreIndexRead(s, i)])
                    },
                    None => field_steps(store, s, p, write, d, dv, locked.push(s)),
                },
            },
        }
    }
}

/// The access of a hardware region: a read, or a write of constant data
/// (any other data is refused).
pub open spec fn hardware_step(a: HardwareAccess, write: bool, dv: AmlVariable) -> Result<Seq<FieldStep>, AmlError> {
    if write {
        match dv {
            AmlVariable::ConstData(c) => Ok(seq![FieldStep::HardwareWrite(a, c)]),
            _ => Err(AmlError::InvalidOperation),
        }
    } else {
        Ok(seq![FieldStep::HardwareRead(a)])
    }
}

/// A read of a string, buffer or package: whole at offset 0, one element at
/// a whole byte offset, refused within a byte.
pub open spec fn element_read(h: usize, byte: int, bit8: usize) -> Result<Seq<FieldStep>, AmlError> {
    if bit8 != 0 || byte > usize::MAX {
        Err(AmlError::InvalidOperation)
    } else if byte != 0 {
        Ok(seq![FieldStep::StoreIndexRead(h, byte as usize)])
    } else {
        Ok(seq![FieldStep::StoreCopy(h)])
    }
}

pub open spec fn steps_view(r: Result<Vec<FieldStep>, AmlError>) -> Result<Seq<FieldStep>, AmlError> {
    match r {
        Ok(v) => Ok(v@),
        Err(e) => Err(e),
    }
}

fn int_of_data(v: &AmlVariable) -> (r: Result<usize, AmlError>)
    ensures
        r == int_of(*v),
{
    match v {
        AmlVariable::ConstData(c) => Ok(c.to_int()),
        AmlVariable::Mutex(level, _) => Ok(*level as usize),
        _ => Err(AmlError::InvalidType),
    }
}

fn contains_handle(locked: &Vec<usize>, s: usize) -> (r: bool)
    ensures
        r == locked@.contains(s),
{
    let mut i: usize = 0;
    while i < locked.len()
        invariant
            i <= locked@.len(),
            forall|k: int| 0 <= k < i ==> locked@[k] != s,
        decreases locked@.len() - i,
    {
        if locked[i] == s {
            return true;
        }
        i = i + 1;
    }
    false
}

fn check_follow(store_len: usize, s: usize, locked: &Vec<usize>) -> (r: Option<AmlError>)
    ensures
        r == follow_error(store_len as int, s, locked@),
{
    if s >= store_len {
        Some(AmlError::InvalidOperation)
    } else if contains_handle(locked, s) || locked.len() >= store_len {
        Some(AmlError::MutexError)
    } else {
        None
    }
}

fn hardware_step_exec(a: HardwareAccess, write: bool, dv: &AmlVariable) -> (r: Result<Vec<FieldStep>, AmlError>)
    ensures
        steps_view(r) == hardware_step(a, write, *dv),
{
    let mut v: Vec<FieldStep> = Vec::new();
    if write {
        match dv {
            AmlVariable::ConstData(c) => {
                v.push(FieldStep::HardwareWrite(a, *c));
            },
            _ => {
                return Err(AmlError::InvalidOperation);
            },
        }
    } else {
        v.push(FieldStep::HardwareRead(a));
    }
    proof {
        assert(v@ =~= if write {
            seq![FieldStep::HardwareWrite(a, dv->ConstData_0)]
        } else {
            seq![FieldStep::HardwareRead(a)]
        });
    }
    Ok(v)
}

fn one_step(s: FieldStep) -> (r: Vec<FieldStep>)
    ensures
        r@ == seq![s],
{
    let mut v: Vec<FieldStep> = Vec::new();
    v.push(s);
    proof {
        assert(v@ =~= seq![s]);
    }
    v
}

fn element_read_exec(h: usize, byte_index: usize, bit_index: usize) -> (r: Result<Vec<FieldStep>, AmlError>)
    ensures
        steps_view(r) == element_read(h, byte_index + bit_index / 8, (bit_index % 8) as usize),
{
    if bit_index % 8 != 0 {
        return Err(AmlError::InvalidOperation);
    }
    let byte = match byte_index.checked_add(bit_index / 8) {
        Some(b) => b,
        None => {
            return Err(AmlError::InvalidOperation);
        },
    };
    if byte != 0 {
        Ok(one_step(FieldStep::StoreIndexRead(h, byte)))
    } else {
        Ok(one_step(FieldStep::StoreCopy(h)))
    }
}

/// The accesses of a read or a write at `p` of store entry `h`, as
/// `field_steps` gives them; `locked` is left as it was.
fn plan_steps(
    store: &Vec<AmlVariable>,
    h: usize,
    p: FieldPosition,
    write: bool,
    d: FieldData,
    dv: &AmlVariable,
    locked: &mut Vec<usize>,
) -> (r: Result<Vec<FieldStep>, AmlError>)
    ensures
        steps_view(r) == field_steps(store@, h, p, write, d, *dv, old(locked)@),
        final(locked)@ == old(locked)@,
    decreases store@.len() - old(locked)@.len(),
{
    if h >= store.len() {
        return Err(AmlError::InvalidOperation);
    }
    let bit8 = p.bit_index % 8;
    match &store[h] {
        AmlVariable::Io(port, limit) => {
            let byte = match p.byte_index.checked_add(p.bit_index / 8) {
                Some(b) => b,
                None => {
                    return Err(AmlError::InvalidOperation);
                },
            };
            if byte > *limit {
                return Err(AmlError::InvalidOperation);
            }
            let at = match port.checked_add(byte) {
                Some(a) => a,
                None => {
                    return Err(AmlError::InvalidOperation);
                },
            };
            hardware_step_exec(
                HardwareAccess::Io { port: at, bit_index: bit8, align: p.access_align, num_of_bits: p.num_of_bits },
                write,
                dv,
            )
        },
        AmlVariable::MMIo(address, limit) => {
            let byte = match p.byte_index.checked_add(p.bit_index / 8) {
                Some(b) => b,
                None => {
                    return Err(AmlError::InvalidOperation);
                },
            };
            if byte > *limit {
                return Err(AmlError::InvalidOperation);
            }
            let at = match address.checked_add(byte) {
                Some(a) => a,
                None => {
                    return Err(AmlError::InvalidOperation);
                },
            };
            hardware_step_exec(
                HardwareAccess::Memory {
                    address: at,
                    bit_index: bit8,
                    align: p.access_align,
                    num_of_bits: p.num_of_bits,
                },
                write,
                dv,
            )
        },
        AmlVariable::EcIo(address, limit) => {
            let byte = match p.byte_index.checked_add(p.bit_index / 8) {
                Some(b) => b,
                None => {
                    return Err(AmlError::InvalidOperation);
                },
            };
            if byte >= *limit {
                return Err(AmlError::InvalidOperation);
            }
            let at = match address.checked_add(byte) {
                Some(a) => a,
                None => {
                    return Err(AmlError::InvalidOperation);
                },
            };
            let a = HardwareAccess::EmbeddedController {
                address: at as u8,
                bit_index: bit8,
                num_of_bits: p.num_of_bits,
            };
            let bad_bits = p.num_of_bits == 0 || p.num_of_bits > 8 || p.num_of_bits + bit8 > 8;
            if write {
                if (bit8 != 0 || p.num_of_bits != 8) && bad_bits {
                    return Err(AmlError::InvalidOperation);
                }
                let x = int_of_data(dv)?;
                Ok(one_step(FieldStep::HardwareWrite(a, ConstData::Byte(x as u8))))
            } else if bad_bits {
                Err(AmlError::InvalidOperation)
            } else {
                Ok(one_step(FieldStep::HardwareRead(a)))
            }
        },
        AmlVariable::PciConfig(config) => {
            let byte = match p.byte_index.checked_add(p.bit_index / 8) {
                Some(b) => b,
                None => {
                    return Err(AmlError::InvalidOperation);
                },
            };
            if byte > config.length {
                return Err(AmlError::InvalidOperation);
            }
            hardware_step_exec(
                HardwareAccess::Pci {
                    config: *config,
                    byte_offset: byte,
                    bit_index: bit8,
                    align: p.access_align,
                    num_of_bits: p.num_of_bits,
                },
                write,
                dv,
            )
        },
        AmlVariable::Uninitialized => {
            if write {
                Ok(one_step(FieldStep::StoreSet(h, d)))
            } else {
                Ok(one_step(FieldStep::StoreCopy(h)))
            }
        },
        AmlVariable::ConstData(_) => {
            if write {
                Err(AmlError::UnsupportedType)
            } else {
                Ok(one_step(FieldStep::StoreCopy(h)))
            }
        },
        AmlVariable::Mutex(_, _) | AmlVariable::Method(_) | AmlVariable::BuiltInMethod(_, _) => {
            if write {
                Err(AmlError::InvalidOperation)
            } else {
                Ok(one_step(FieldStep::StoreCopy(h)))
            }
        },
        AmlVariable::String(_) => {
            if write {
                Err(AmlError::UnsupportedType)
            } else {
                element_read_exec(h, p.byte_index, p.bit_index)
            }
        },
        AmlVariable::Package(_) => {
            if write {
                Err(AmlError::InvalidOperation)
            } else {
                element_read_exec(h, p.byte_index, p.bit_index)
            }
        },
        AmlVariable::Buffer(b) => {
            if !write {
                return element_read_exec(h, p.byte_index, p.bit_index);
            }
            let blen = b.len();
            let byte = match p.byte_index.checked_add(p.bit_index / 8) {
                Some(x) => x,
                None => {
                    return Err(AmlError::InvalidOperation);
                },
            };
            let width = p.num_of_bits >> 3;
            if byte >= b.len() || width >= b.len() - byte {
                return Err(AmlError::InvalidOperation);
            }
            if !(width == 1 || width == 2 || width == 4 || width == 8) {
                return Err(AmlError::InvalidOperation);
            }
            let x = int_of_data(dv)?;
            Ok(
                one_step(
                    FieldStep::StoreBits {
                        handle: h,
                        byte_offset: byte,
                        bit_index: bit8,
                        num_of_bits: p.num_of_bits,
                        value: x,
                    },
                ),
            )
        },
        AmlVariable::BitField(f) => {
            if let Some(e) = check_follow(store.len(), f.source, locked) {
                return Err(e);
            }
            let bit = match p.bit_index.checked_add(f.bit_index) {
                Some(b) => b,
                None => {
                    return Err(AmlError::InvalidOperation);
                },
            };
            let align = if f.access_align >= p.access_align {
                f.access_align
            } else {
                p.access_align
            };
            let q = FieldPosition { byte_index: p.byte_index, bit_index: bit, access_align: align, num_of_bits: f.num_of_bits };
            locked.push(f.source);
            let r = plan_steps(store, f.source, q, write, d, dv, locked);
            locked.pop();
            r
        },
        AmlVariable::ByteField(f) => {
            if let Some(e) = check_follow(store.len(), f.source, locked) {
                return Err(e);
            }
            let byte = match p.byte_index.checked_add(f.byte_index) {
                Some(b) => b,
                None => {
                    return Err(AmlError::InvalidOperation);
                },
            };
            let align = if f.num_of_bytes >= p.access_align {
                f.num_of_bytes
            } else {
                p.access_align
            };
            let q = FieldPosition {
                byte_index: byte,
                bit_index: p.bit_index,
                access_align: align,
                num_of_bits: f.num_of_bytes << 3usize,
            };
            locked.push(f.source);
            let r = plan_steps(store, f.source, q, write, d, dv, locked);
            locked.pop();
            r
        },
        AmlVariable::IndexField(f) => {
            let total = match f.bit_index.checked_add(p.bit_index) {
                Some(t) => t,
                None => {
                    return Err(AmlError::InvalidOperation);
                },
            };
            let fits = match p.byte_index.checked_add(total / 8) {
                Some(x) => x.checked_add(7).is_some(),
                None => false,
            };
            if !fits {
                return Err(AmlError::InvalidOperation);
            }
            let (c, bit) = index_field_access(p.byte_index, p.bit_index, f)?;
            if let Some(e) = check_follow(store.len(), f.index_register, locked) {
                return Err(e);
            }
            let cv = AmlVariable::ConstData(c);
            locked.push(f.index_register);
            let first = plan_steps(
                store,
                f.index_register,
                FieldPosition { byte_index: 0, bit_index: 0, access_align: 0, num_of_bits: 8 },
                true,
                FieldData::Index(c),
                &cv,
                locked,
            );
            locked.pop();
            assert(locked@ =~= old(locked)@);
            let mut first = match first {
                Ok(v) => v,
                Err(e) => {
                    return Err(e);
                },
            };
            if let Some(e) = check_follow(store.len(), f.data_register, locked) {
                return Err(e);
            }
            locked.push(f.data_register);
            let second = plan_steps(
                store,
                f.data_register,
                FieldPosition { byte_index: 0, bit_index: bit, access_align: f.access_align, num_of_bits: f.num_of_bits },
                write,
                d,
                dv,
                locked,
            );
            locked.pop();
            let mut second = match second {
                Ok(v) => v,
                Err(e) => {
                    return Err(e);
                },
            };
            first.append(&mut second);
            Ok(first)
        },
        AmlVariable::Reference(s, index) => {
            if let Some(e) = check_follow(store.len(), *s, locked) {
                return Err(e);
            }
            match index {
                Some(i) => {
                    if let AmlVariable::Reference(_, _) = &store[*s] {
                        return Err(AmlError::InvalidOperation);
                    }
                    if write {
                        Ok(one_step(FieldStep::StoreIndexWrite(*s, *i, d)))
                    } else {
                        Ok(one_step(FieldStep::StoreIndexRead(*s, *i)))
                    }
                },
                None => {
                    locked.push(*s);
                    let r = plan_steps(store, *s, p, write, d, dv, locked);
                    locked.pop();
                    r
                },
            }
        },
    }
}

/// The accesses that reading store entry `handle` as a whole comes down to
/// (a field is read from its start; `handle` is held while it is read).
/// The last step gives the value: a hardware read, or an entry of the
/// store.
pub fn plan_read(store: &Vec<AmlVariable>, handle: usize) -> (r: Result<Vec<FieldStep>, AmlError>)
    ensures
        steps_view(r) == field_steps(
            store@,
            handle,
            FieldPosition { byte_index: 0, bit_index: 0, access_align: 0, num_of_bits: 0 },
            false,
            FieldData::Given,
            AmlVariable::Uninitialized,
            seq![handle],
        ),
{
    let mut locked: Vec<usize> = Vec::new();
    locked.push(handle);
    proof {
        assert(locked@ =~= seq![handle]);
    }
    let none = AmlVariable::Uninitialized;
    plan_steps(
        store,
        handle,
        FieldPosition { byte_index: 0, bit_index: 0, access_align: 0, num_of_bits: 0 },
        false,
        FieldData::Given,
        &none,
        &mut locked,
    )
}

/// What writing `data` into store entry `handle` comes down to: an entry
/// that holds its value is replaced by the data; a field, region or
/// reference is written through, one bit wide from its start.
pub open spec fn spec_plan_write(store: Seq<AmlVariable>, handle: usize, data: AmlVariable) -> Result<
    Seq<FieldStep>,
    AmlError,
> {
    if handle < store.len() && store[handle as int].spec_is_constant_data() {
        Ok(seq![FieldStep::StoreSet(handle, FieldData::Given)])
    } else {
        field_steps(
            store,
            handle,
            FieldPosition { byte_index: 0, bit_index: 0, access_align: 0, num_of_bits: 1 },
            true,
            FieldData::Given,
            data,
            seq![handle],
        )
    }
}

/// The accesses that writing `data` (a value that holds itself) into store
/// entry `handle` comes down to, as `spec_plan_write` gives them.
pub fn plan_write(store: &Vec<AmlVariable>, handle: usize, data: &AmlVariable) -> (r: Result<Vec<FieldStep>, AmlError>)
    ensures
        steps_view(r) == spec_plan_write(store@, handle, *data),
{
    if handle < store.len() && store[handle].is_constant_data() {
        return Ok(one_step(FieldStep::StoreSet(handle, FieldData::Given)));
    }
    let mut locked: Vec<usize> = Vec::new();
    locked.push(handle);
    proof {
        assert(locked@ =~= seq![handle]);
    }
    plan_steps(
        store,
        handle,
        FieldPosition { byte_index: 0, bit_index: 0, access_align: 0, num_of_bits: 1 },
        true,
        FieldData::Given,
        data,
        &mut locked,
    )
}

/// Store entry `handle` becomes `data` (a value that holds itself): a copy.
pub fn set_entry(store: &mut Vec<AmlVariable>, handle: usize, data: &AmlVariable) -> (r: Result<(), AmlError>)
    requires
        data.spec_is_constant_data(),
    ensures
        handle < old(store)@.len() <==> r is Ok,
        r is Err ==> (r matches Err(e) && e is InvalidOperation) && final(store)@ == old(store)@,
        final(store)@.len() == old(store)@.len(),
        forall|j: int| 0 <= j < old(store)@.len() && j != handle ==> final(store)@[j] == old(store)@[j],
        r is Ok ==> data.same_value(&final(store)@[handle as int]),
{
    if handle >= store.len() {
        return Err(AmlError::InvalidOperation);
    }
    let copy = match data.get_constant_data() {
        Ok(c) => c,
        Err(e) => {
            return Err(e);
        },
    };
    store.set(handle, copy);
    Ok(())
}

/// The mask of the low `n` bits of a machine word, built bit by bit (every
/// bit from the word's width up).
pub open spec fn low_mask(n: nat) -> usize
    decreases n,
{
    if n == 0 {
        0
    } else {
        ((low_mask((n - 1) as nat) << 1usize) | 1usize) as usize
    }
}

fn make_mask(n: usize) -> (r: usize)
    ensures
        r == low_mask(n as nat),
{
    let mut m: usize = 0;
    let mut i: usize = 0;
    while i < n
        invariant
            i <= n,
            m == low_mask(i as nat),
        decreases n - i,
    {
        m = (m << 1usize) | 1usize;
        i = i + 1;
    }
    m
}

/// The bits of a word of `w` bytes.
pub open spec fn width_mask(w: usize) -> u64 {
    if w == 1 {
        0xFF
    } else if w == 2 {
        0xFFFF
    } else if w == 4 {
        0xFFFF_FFFF
    } else {
        0xFFFF_FFFF_FFFF_FFFF
    }
}

/// The word of `w` bytes `orig` with bits written as a field write does:
/// it is and-ed with the inverted mask of `num` bits shifted up by `bit`,
/// then or-ed with the low `num` bits of `value` shifted up by `bit`, all
/// within the word's width (computed on 64 bits).
pub open spec fn merged_word(orig: u64, w: usize, bit: usize, num: usize, value: usize) -> u64 {
    let wm = width_mask(w);
    let m = (low_mask(num as nat) as u64) & wm;
    let clear = ((!m) << (bit as u64)) & wm;
    let set = (((value as u64) & (low_mask(num as nat) as u64)) << (bit as u64)) & wm;
    (orig & clear) | set
}

/// The `w` little-endian bytes of `v`.
pub open spec fn word_bytes(v: u64, w: usize) -> Seq<u8> {
    Seq::new(w as nat, |i: int| ((v >> (8 * i) as u64) & 0xff) as u8)
}

/// Writes bits into the word of `num_of_bits / 8` bytes (1, 2, 4 or 8) at
/// `byte_offset` of `b`, read and written little-endian, as
/// `merged_word` gives it; the other bytes stay.
pub fn write_buffer_bits(b: &mut Vec<u8>, byte_offset: usize, bit_index: usize, num_of_bits: usize, value: usize)
    requires
        bit_index < 8,
        (num_of_bits >> 3usize) == 1 || (num_of_bits >> 3usize) == 2 || (num_of_bits >> 3usize) == 4 || (num_of_bits
            >> 3usize) == 8,
        byte_offset + (num_of_bits >> 3usize) < old(b)@.len(),
    ensures
        ({
            let w = num_of_bits >> 3usize;
            let orig = le_value(old(b)@, byte_offset as int, w as nat) as u64;
            final(b)@ == old(b)@.subrange(0, byte_offset as int) + word_bytes(
                merged_word(orig, w, bit_index, num_of_bits, value),
                w,
            ) + old(b)@.subrange(byte_offset + w, old(b)@.len() as int)
        }),
{
    let w = num_of_bits >> 3usize;
    let orig = read_le_at(b.as_slice(), byte_offset, w);
    let mask = make_mask(num_of_bits);
    let wm: u64 = if w == 1 {
        0xFF
    } else if w == 2 {
        0xFFFF
    } else if w == 4 {
        0xFFFF_FFFF
    } else {
        0xFFFF_FFFF_FFFF_FFFF
    };
    let m = (mask as u64) & wm;
    let clear = ((!m) << (bit_index as u64)) & wm;
    let set = (((value as u64) & (mask as u64)) << (bit_index as u64)) & wm;
    let new = (orig & clear) | set;
    assert(new == merged_word(orig, w, bit_index, num_of_bits, value));
    let ghost old_b = b@;
    let blen = b.len();
    let mut i: usize = 0;
    while i < w
        invariant
            i <= w <= 8,
            old_b.len() == blen,
            byte_offset + w < old_b.len(),
            b@.len() == old_b.len(),
            forall|j: int|
                0 <= j < old_b.len() ==> #[trigger] b@[j] == if byte_offset <= j < byte_offset + i {
                    word_bytes(new, w)[j - byte_offset]
                } else {
                    old_b[j]
                },
        decreases w - i,
    {
        let byte = ((new >> (8 * i as u64)) & 0xff) as u8;
        assert(byte == word_bytes(new, w)[i as int]);
        b.set(byte_offset + i, byte);
        i = i + 1;
    }
    proof {
        let target = old_b.subrange(0, byte_offset as int) + word_bytes(new, w) + old_b.subrange(
            byte_offset + w,
            old_b.len() as int,
        );
        assert forall|j: int| 0 <= j < old_b.len() implies b@[j] == target[j] by {
            if j < byte_offset {
            } else if j < byte_offset + w {
            } else {
            }
        }
        assert(b@ =~= target);
    }
}

/// Writes the bits of `value` into the buffer in store entry `handle`, as
/// `write_buffer_bits` does; refused where the entry is no buffer or the
/// word does not lie within it (with one byte to spare), the width is not
/// 1, 2, 4 or 8 bytes, or the bit index is 8 or more.
pub fn write_entry_bits(
    store: &mut Vec<AmlVariable>,
    handle: usize,
    byte_offset: usize,
    bit_index: usize,
    num_of_bits: usize,
    value: usize,
) -> (r: Result<(), AmlError>)
    ensures
        final(store)@.len() == old(store)@.len(),
        forall|j: int| 0 <= j < old(store)@.len() && j != handle ==> final(store)@[j] == old(store)@[j],
        ({
            let w = num_of_bits >> 3usize;
            if handle < old(store)@.len() && old(store)@[handle as int] is Buffer && bit_index < 8 && (w == 1
                || w == 2 || w == 4 || w == 8) && byte_offset + w < old(store)@[handle as int]->Buffer_0@.len() {
                let ob = old(store)@[handle as int]->Buffer_0@;
                let orig = le_value(ob, byte_offset as int, w as nat) as u64;
                r is Ok && (final(store)@[handle as int] matches AmlVariable::Buffer(nb) && nb@ == ob.subrange(
                    0,
                    byte_offset as int,
                ) + word_bytes(merged_word(orig, w, bit_index, num_of_bits, value), w) + ob.subrange(
                    byte_offset + w,
                    ob.len() as int,
                ))
            } else {
                (r matches Err(e) && e is InvalidOperation) && final(store)@ == old(store)@
            }
        }),
{
    if handle >= store.len() || bit_index >= 8 {
        return Err(AmlError::InvalidOperation);
    }
    let w = num_of_bits >> 3usize;
    if !(w == 1 || w == 2 || w == 4 || w == 8) {
        return Err(AmlError::InvalidOperation);
    }
    let ok = match &store[handle] {
        AmlVariable::Buffer(b) => byte_offset < b.len() && w < b.len() - byte_offset,
        _ => false,
    };
    if !ok {
        return Err(AmlError::InvalidOperation);
    }
    let mut entry = AmlVariable::Uninitialized;
    store.set_and_swap(handle, &mut entry);
    let ghost taken = entry;
    if let AmlVariable::Buffer(mut b) = entry {
        write_buffer_bits(&mut b, byte_offset, bit_index, num_of_bits, value);
        let mut back = AmlVariable::Buffer(b);
        store.set_and_swap(handle, &mut back);
        proof {
            assert(final(store)@.len() == old(store)@.len());
        }
        Ok(())
    } else {
        Err(AmlError::InvalidOperation)
    }
}

/// The word that an access of `align` bytes at (mapped) `address` reads
/// or writes: its address (aligned down) and its width in bytes; none for
/// an alignment other than 0, 1, 2, 4 or 8.
pub open spec fn spec_memory_word(address: usize, align: usize) -> Option<(usize, usize)> {
    if align == 0 || align == 1 {
        Some((address, 1))
    } else if align == 2 {
        Some((address & !1usize, 2))
    } else if align == 4 {
        Some((address & !3usize, 4))
    } else if align == 8 {
        Some((address & !7usize, 8))
    } else {
        None
    }
}

/// The word of a memory access, as `spec_memory_word` gives it; refused
/// for another alignment.
pub fn memory_word(address: usize, align: usize) -> (r: Result<(usize, usize), AmlError>)
    ensures
        match spec_memory_word(address, align) {
            Some(w) => r == Ok::<(usize, usize), AmlError>(w),
            None => r matches Err(e) && e is InvalidOperation,
        },
{
    if align == 0 || align == 1 {
        Ok((address, 1))
    } else if align == 2 {
        Ok((address & !1usize, 2))
    } else if align == 4 {
        Ok((address & !3usize, 4))
    } else if align == 8 {
        Ok((address & !7usize, 8))
    } else {
        Err(AmlError::InvalidOperation)
    }
}

proof fn lemma_word_offset(address: usize)
    ensures
        address & !1usize <= address,
        address - (address & !1usize) <= 1,
        address & !3usize <= address,
        address - (address & !3usize) <= 3,
        address & !7usize <= address,
        address - (address & !7usize) <= 7,
{
    assert(address & !1usize <= address) by (bit_vector);
    assert(address - (address & !1usize) <= 1) by (bit_vector);
    assert(address & !3usize <= address) by (bit_vector);
    assert(address - (address & !3usize) <= 3) by (bit_vector);
    assert(address & !7usize <= address) by (bit_vector);
    assert(address - (address & !7usize) <= 7) by (bit_vector);
}

/// The value of a memory read of `num_of_bits` from bit `bit_index` at
/// (mapped) `address`, from the word `raw` read at the aligned address: a
/// byte access shifts the byte down by `bit_index` and masks it; a wider
/// access shifts the word down by the bit offset of `address` in it plus
/// `bit_index`, masked by the bit mask (as the interpreter does), and keeps
/// the whole word.
pub open spec fn spec_memory_value(raw: u64, address: usize, bit_index: usize, align: usize, num_of_bits: usize) -> Option<
    ConstData,
> {
    match spec_memory_word(address, align) {
        None => None,
        Some((aligned, w)) => {
            let shift = ((((address - aligned) as usize) << 3usize) + bit_index) as usize & low_mask(
                num_of_bits as nat,
            );
            if w == 1 {
                Some(ConstData::Byte(((raw as u8) >> (bit_index as u8)) & (low_mask(num_of_bits as nat) as u8)))
            } else if w == 2 {
                Some(ConstData::Word((raw as u16) >> (shift as u16)))
            } else if w == 4 {
                Some(ConstData::DWord((raw as u32) >> (shift as u32)))
            } else {
                Some(ConstData::QWord(raw >> (shift as u64)))
            }
        },
    }
}

/// The width in bytes of a port access of alignment `align`: 2, 4 or 8 as
/// asked, else one byte.
pub open spec fn spec_io_width(align: usize) -> usize {
    if align == 2 || align == 4 || align == 8 {
        align
    } else {
        1
    }
}

pub fn io_width(align: usize) -> (r: usize)
    ensures
        r == spec_io_width(align),
{
    if align == 2 || align == 4 || align == 8 {
        align
    } else {
        1
    }
}

/// `v` as constant data of `width` bytes (its low bytes).
pub open spec fn const_of_width(v: u64, width: usize) -> ConstData {
    if width == 2 {
        ConstData::Word((v % 0x1_0000) as u16)
    } else if width == 4 {
        ConstData::DWord((v % 0x1_0000_0000) as u32)
    } else if width == 8 {
        ConstData::QWord(v)
    } else {
        ConstData::Byte((v % 0x100) as u8)
    }
}

/// The mask of the low `n` bits; all bits for 0 and for 64 or more.
pub open spec fn io_mask(n: usize) -> u64 {
    if n == 0 || n >= 64 {
        u64::MAX
    } else {
        ((1u64 << n as u64) - 1) as u64
    }
}

/// What a port read of `raw` gives for a field of `num_of_bits` bits from
/// bit `bit_index`: shifted down, masked, as data of the access's width.
pub fn io_read_value(raw: u64, bit_index: usize, align: usize, num_of_bits: usize) -> (r: ConstData)
    requires
        bit_index < 64,
    ensures
        r == const_of_width((raw >> bit_index as u64) & io_mask(num_of_bits), spec_io_width(align)),
{
    let width = io_width(align);
    let shifted = raw >> bit_index as u64;
    let mask: u64 = if num_of_bits >= 64 || num_of_bits == 0 {
        u64::MAX
    } else {
        assert(1u64 << num_of_bits as u64 >= 1) by (bit_vector)
            requires
                num_of_bits < 64,
        ;
        (1u64 << num_of_bits as u64) - 1
    };
    let v = shifted & mask;
    if width == 2 {
        ConstData::Word((v % 0x1_0000) as u16)
    } else if width == 4 {
        ConstData::DWord((v % 0x1_0000_0000) as u32)
    } else if width == 8 {
        ConstData::QWord(v)
    } else {
        ConstData::Byte((v % 0x100) as u8)
    }
}

/// The word a port write of `value` into a field from bit `bit_index`
/// puts out: the value shifted up to the field.
pub fn io_write_value(value: u64, bit_index: usize) -> (r: u64)
    requires
        bit_index < 64,
    ensures
        r == value << bit_index as u64,
{
    value << bit_index as u64
}

/// The value of a memory read, as `spec_memory_value` gives it from the
/// word read; refused for an alignment other than 0, 1, 2, 4 or 8.
pub fn memory_read_value(raw: u64, address: usize, bit_index: usize, align: usize, num_of_bits: usize) -> (r: Result<
    ConstData,
    AmlError,
>)
    requires
        bit_index < 8,
    ensures
        match spec_memory_value(raw, address, bit_index, align, num_of_bits) {
            Some(c) => r == Ok::<ConstData, AmlError>(c),
            None => r matches Err(e) && e is InvalidOperation,
        },
{
    let (aligned, w) = memory_word(address, align)?;
    proof {
        lemma_word_offset(address);
    }
    let off: usize = address - aligned;
    assert(off <= 7);
    assert((off << 3usize) + bit_index < 64) by (bit_vector)
        requires
            off <= 7,
            bit_index < 8,
    ;
    let mask = make_mask(num_of_bits);
    let base = off << 3usize;
    let shift = (base + bit_index) & mask;
    if w == 1 {
        Ok(ConstData::Byte(((raw as u8) >> (bit_index as u8)) & (mask as u8)))
    } else if w == 2 {
        assert(off <= 1);
        assert(shift < 16) by (bit_vector)
            requires
                shift == ((base + bit_index) as usize) & mask,
                base == off << 3usize,
                off <= 1,
                bit_index < 8,
        ;
        Ok(ConstData::Word((raw as u16) >> (shift as u16)))
    } else if w == 4 {
        assert(off <= 3);
        assert(shift < 32) by (bit_vector)
            requires
                shift == ((base + bit_index) as usize) & mask,
                base == off << 3usize,
                off <= 3,
                bit_index < 8,
        ;
        Ok(ConstData::DWord((raw as u32) >> (shift as u32)))
    } else {
        assert(shift < 64) by (bit_vector)
            requires
                shift == ((base + bit_index) as usize) & mask,
                base == off << 3usize,
                off <= 7,
                bit_index < 8,
        ;
        Ok(ConstData::QWord(raw >> (shift as u64)))
    }
}

/// The word to write back for a memory write of the low `num_of_bits` of
/// `data` from bit `bit_index` at (mapped) `address`, given the word
/// `orig` read at the aligned address: `merged_word` at the bit offset of
/// `address` in the word plus `bit_index`.
pub open spec fn spec_memory_write_word(orig: u64, address: usize, bit_index: usize, align: usize, num_of_bits: usize, data: usize) -> Option<
    u64,
> {
    match spec_memory_word(address, align) {
        None => None,
        Some((aligned, w)) => Some(
            merged_word(orig, w, ((((address - aligned) as usize) << 3usize) + bit_index) as usize, num_of_bits, data),
        ),
    }
}

/// The word to write back for a memory write, as `spec_memory_write_word`
/// gives it; refused for an alignment other than 0, 1, 2, 4 or 8.
pub fn memory_write_word(orig: u64, address: usize, bit_index: usize, align: usize, num_of_bits: usize, data: usize) -> (r: Result<
    u64,
    AmlError,
>)
    requires
        bit_index < 8,
    ensures
        match spec_memory_write_word(orig, address, bit_index, align, num_of_bits, data) {
            Some(v) => r == Ok::<u64, AmlError>(v),
            None => r matches Err(e) && e is InvalidOperation,
        },
{
    let (aligned, w) = memory_word(address, align)?;
    proof {
        lemma_word_offset(address);
    }
    let off: usize = address - aligned;
    assert(off <= 7);
    assert((off << 3usize) + bit_index < 64) by (bit_vector)
        requires
            off <= 7,
            bit_index < 8,
    ;
    let shift = (off << 3usize) + bit_index;
    let mask = make_mask(num_of_bits);
    let wm: u64 = if w == 1 {
        0xFF
    } else if w == 2 {
        0xFFFF
    } else if w == 4 {
        0xFFFF_FFFF
    } else {
        0xFFFF_FFFF_FFFF_FFFF
    };
    let m = (mask as u64) & wm;
    let clear = ((!m) << (shift as u64)) & wm;
    let set = (((data as u64) & (mask as u64)) << (shift as u64)) & wm;
    Ok((orig & clear) | set)
}

/// The mask of the low `n` bits of a 64-bit word, built bit by bit.
pub open spec fn low_mask64(n: nat) -> u64
    decreases n,
{
    if n == 0 {
        0
    } else {
        ((low_mask64((n - 1) as nat) << 1u64) | 1u64) as u64
    }
}

fn make_mask64(n: usize) -> (r: u64)
    ensures
        r == low_mask64(n as nat),
{
    let mut m: u64 = 0;
    let mut i: usize = 0;
    while i < n
        invariant
            i <= n,
            m == low_mask64(i as nat),
        decreases n - i,
    {
        m = (m << 1u64) | 1u64;
        i = i + 1;
    }
    m
}

/// The number of further double words that the mask `m` (shifted down
/// past the first double word) still covers, 32 bits each.
pub open spec fn extra_words(m: u64) -> nat
    decreases m,
{
    if m == 0 {
        0
    } else {
        proof {
            assert(m != 0 ==> m >> 32u64 < m) by (bit_vector);
        }
        1 + extra_words(m >> 32u64)
    }
}

/// How a PCI configuration access is made: the double word it starts at,
/// the bit in it where the value starts, and the number of double words
/// read (and written) one after the other, the next at the next byte
/// offset.
#[derive(Debug, Clone, Copy, PartialEq, Eq, Structural)]
pub struct PciPlan {
    pub aligned_offset: usize,
    pub bit_offset: usize,
    pub count: usize,
}

/// The plan of an access of `num_of_bits` from bit `bit_index` of byte
/// `byte_offset` of the region `config`: the byte offset is aligned down to
/// four bytes and to the access width; refused where the value would start
/// past the first double word or is wider than 64 bits.
pub open spec fn spec_pci_plan(config: AmlPciConfig, byte_offset: usize, bit_index: usize, align: usize, num_of_bits: usize) -> Result<
    PciPlan,
    AmlError,
> {
    let offset = config.offset + byte_offset;
    let a: usize = if align >= 1 {
        align
    } else {
        1
    };
    if offset > usize::MAX {
        Err(AmlError::InvalidOperation)
    } else {
        let aligned = (offset as usize & !3usize) & !((a - 1) as usize);
        let bo = bit_index + (offset - aligned) * 8;
        if bo >= 32 {
            Err(AmlError::InvalidOperation)
        } else if num_of_bits > 64 {
            Err(AmlError::InvalidOperation)
        } else {
            Ok(
                PciPlan {
                    aligned_offset: aligned,
                    bit_offset: bo as usize,
                    count: (1 + extra_words(low_mask64(num_of_bits as nat) >> ((32 - bo) as u64))) as usize,
                },
            )
        }
    }
}

proof fn lemma_extra_words_small(m: u64)
    ensures
        extra_words(m) <= 2,
{
    assert(m >> 32u64 >> 32u64 == 0) by (bit_vector);
    if m != 0 {
        assert(extra_words(m >> 32u64) == if m >> 32u64 == 0 {
            0
        } else {
            1 + extra_words(m >> 32u64 >> 32u64)
        });
        assert(extra_words(0) == 0);
    }
}

/// The plan of a PCI configuration access, as `spec_pci_plan` gives it.
pub fn pci_plan(config: &AmlPciConfig, byte_offset: usize, bit_index: usize, align: usize, num_of_bits: usize) -> (r: Result<
    PciPlan,
    AmlError,
>)
    ensures
        match spec_pci_plan(*config, byte_offset, bit_index, align, num_of_bits) {
            Ok(p) => r == Ok::<PciPlan, AmlError>(p),
            Err(_) => r matches Err(e) && e is InvalidOperation,
        },
{
    let offset = match config.offset.checked_add(byte_offset) {
        Some(o) => o,
        None => {
            return Err(AmlError::InvalidOperation);
        },
    };
    let a: usize = if align >= 1 {
        align
    } else {
        1
    };
    let aligned = (offset & !3usize) & !(a - 1);
    assert((offset & !3usize) & !((a - 1) as usize) <= offset) by (bit_vector);
    let diff = offset - aligned;
    if diff >= 4 || bit_index >= 32 - diff * 8 {
        return Err(AmlError::InvalidOperation);
    }
    let bo = bit_index + diff * 8;
    if num_of_bits > 64 {
        return Err(AmlError::InvalidOperation);
    }
    let mut m = make_mask64(num_of_bits) >> ((32 - bo) as u64);
    let ghost m0 = m;
    proof {
        lemma_extra_words_small(m0);
    }
    let mut count: usize = 1;
    while m != 0
        invariant
            1 + extra_words(m0) == count + extra_words(m),
            extra_words(m0) <= 2,
            count <= 3,
        decreases m,
    {
        assert(m != 0 ==> m >> 32u64 < m) by (bit_vector);
        m = m >> 32u64;
        count = count + 1;
    }
    Ok(PciPlan { aligned_offset: aligned, bit_offset: bo, count })
}

/// The or of the double words from `i` on.
pub open spec fn or_rest(s: Seq<u32>, i: int) -> u64
    decreases s.len() - i,
{
    if i >= s.len() || i < 0 {
        0
    } else {
        (s[i] as u64) | or_rest(s, i + 1)
    }
}

/// The value of a PCI configuration read of `num_of_bits` from the double
/// words read, `dwords`: the first shifted down by the bit offset and
/// masked, or-ed with the following double words as they are (as the
/// interpreter does), kept as a byte, word, double word or quad word by the
/// number of bits.
pub open spec fn spec_pci_value(dwords: Seq<u32>, bit_offset: usize, num_of_bits: usize) -> ConstData {
    let result = (((dwords[0] >> (bit_offset as u32)) as u64) & low_mask64(num_of_bits as nat)) | or_rest(dwords, 1);
    if num_of_bits <= 8 {
        ConstData::Byte(result as u8)
    } else if num_of_bits <= 16 {
        ConstData::Word(result as u16)
    } else if num_of_bits <= 32 {
        ConstData::DWord(result as u32)
    } else {
        ConstData::QWord(result)
    }
}

/// The value of a PCI configuration read, as `spec_pci_value` gives it.
pub fn pci_read_value(dwords: &Vec<u32>, bit_offset: usize, num_of_bits: usize) -> (r: ConstData)
    requires
        dwords@.len() >= 1,
        bit_offset < 32,
    ensures
        r == spec_pci_value(dwords@, bit_offset, num_of_bits),
{
    let mut rest: u64 = 0;
    let mut i: usize = dwords.len();
    while i > 1
        invariant
            1 <= i <= dwords@.len(),
            rest == or_rest(dwords@, i as int),
        decreases i,
    {
        i = i - 1;
        rest = (dwords[i] as u64) | rest;
    }
    let mask = make_mask64(num_of_bits);
    let result = (((dwords[0] >> (bit_offset as u32)) as u64) & mask) | rest;
    if num_of_bits <= 8 {
        ConstData::Byte(result as u8)
    } else if num_of_bits <= 16 {
        ConstData::Word(result as u16)
    } else if num_of_bits <= 32 {
        ConstData::DWord(result as u32)
    } else {
        ConstData::QWord(result)
    }
}

/// The double word to write back at step `i` of a PCI configuration write
/// of the low `num_of_bits` of `data` from bit `bit_offset`, given the
/// double word `read` there: the first takes the bits above the bit offset,
/// each next one the following 32 bits of the mask and of the data.
pub open spec fn spec_pci_write_dword(i: nat, read: u32, bit_offset: usize, num_of_bits: usize, data: u64) -> u32 {
    let m = low_mask64(num_of_bits as nat);
    if i == 0 {
        (read & !((m << (bit_offset as u64)) as u32)) | (((data & m) << (bit_offset as u64)) as u32)
    } else {
        let shift = (32 - bit_offset) as u64;
        let mi = (m >> shift) >> (32 * (i - 1)) as u64;
        let di = (data >> shift) >> (32 * (i - 1)) as u64;
        (read & !(mi as u32)) | ((di as u32) & (mi as u32))
    }
}

/// The double word to write back at step `i` (below 3) of a PCI
/// configuration write, as `spec_pci_write_dword` gives it.
pub fn pci_write_dword(i: usize, read: u32, bit_offset: usize, num_of_bits: usize, data: u64) -> (r: u32)
    requires
        bit_offset < 32,
        i < 3,
    ensures
        r == spec_pci_write_dword(i as nat, read, bit_offset, num_of_bits, data),
{
    let m = make_mask64(num_of_bits);
    if i == 0 {
        (read & !((m << (bit_offset as u64)) as u32)) | (((data & m) << (bit_offset as u64)) as u32)
    } else {
        let shift = (32 - bit_offset) as u64;
        let mi = (m >> shift) >> (32 * (i - 1)) as u64;
        let di = (data >> shift) >> (32 * (i - 1)) as u64;
        (read & !(mi as u32)) | ((di as u32) & (mi as u32))
    }
}

/// The plan of a PCI configuration write: as `pci_plan`, after refusing a
/// function number of 8 or more.
pub fn pci_write_plan(config: &AmlPciConfig, byte_offset: usize, bit_index: usize, align: usize, num_of_bits: usize) -> (r: Result<
    PciPlan,
    AmlError,
>)
    ensures
        config.function >= 8 ==> (r matches Err(e) && e is InvalidOperation),
        config.function < 8 ==> match spec_pci_plan(*config, byte_offset, bit_index, align, num_of_bits) {
            Ok(p) => r == Ok::<PciPlan, AmlError>(p),
            Err(_) => r matches Err(e) && e is InvalidOperation,
        },
{
    if config.function >= 8 {
        return Err(AmlError::InvalidOperation);
    }
    pci_plan(config, byte_offset, bit_index, align, num_of_bits)
}

} // verus!
