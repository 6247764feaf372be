//! The values of the AML interpreter: constants, strings, buffers and
//! packages, and the objects (fields, regions, methods, references) that
//! stand for them.
use vstd::prelude::*;
use super::AmlError;
use super::data_object::{ConstData, utf8_to_string};
use super::name_object::NameString;
use super::named_object::Method;
use crate::acpi::table::copy_range;

verus! {

/// A region of PCI configuration space.
#[derive(Debug, Clone, Copy, PartialEq, Eq, Structural)]
pub struct AmlPciConfig {
    pub bus: u16,
    pub device: u16,
    pub function: u16,
    pub offset: usize,
    pub length: usize,
}

/// A field of bits in the variable `source` (a handle in the
/// interpreter's store).
#[derive(Debug, Clone, Copy, PartialEq, Eq, Structural)]
pub struct AmlBitFiled {
    pub source: usize,
    pub bit_index: usize,
    pub num_of_bits: usize,
    pub access_align: usize,
    pub should_lock_global_lock: bool,
}

/// A field of bytes in the variable `source`.
#[derive(Debug, Clone, Copy, PartialEq, Eq, Structural)]
pub struct AmlByteFiled {
    pub source: usize,
    pub byte_index: usize,
    pub num_of_bytes: usize,
    pub should_lock_global_lock: bool,
}

/// A field reached through an index register and a data register.
#[derive(Debug, Clone, Copy, PartialEq, Eq, Structural)]
pub struct AmlIndexField {
    pub index_register: usize,
    pub data_register: usize,
    pub bit_index: usize,
    pub num_of_bits: usize,
    pub access_align: usize,
    pub should_lock_global_lock: bool,
}

/// An element of a package.
#[derive(Debug)]
pub enum AmlPackage {
    ConstData(ConstData),
    String(String),
    Buffer(Vec<u8>),
    NameString(NameString),
    Package(Vec<AmlPackage>),
}

/// A value of the interpreter. Fields, references and built-in methods
/// name other variables and functions by their handles in the
/// interpreter's store.
#[derive(Debug)]
pub enum AmlVariable {
    Uninitialized,
    ConstData(ConstData),
    String(String),
    Buffer(Vec<u8>),
    Io(usize, usize),
    MMIo(usize, usize),
    EcIo(usize, usize),
    PciConfig(AmlPciConfig),
    BitField(AmlBitFiled),
    ByteField(AmlByteFiled),
    IndexField(AmlIndexField),
    Package(Vec<AmlPackage>),
    Method(Method),
    BuiltInMethod(usize, u8),
    Mutex(u8, u8),
    Reference(usize, Option<usize>),
}

/// A copy of a package element; the copies of strings and name strings
/// have the same contents.
pub open spec fn same_package(a: AmlPackage, b: AmlPackage) -> bool
    decreases a,
{
    match a {
        AmlPackage::ConstData(x) => b == AmlPackage::ConstData(x),
        AmlPackage::String(x) => b is String && b->String_0@ == x@,
        AmlPackage::Buffer(x) => b is Buffer && b->Buffer_0@ == x@,
        AmlPackage::NameString(x) => b is NameString && x.same(&b->NameString_0),
        AmlPackage::Package(x) => b is Package && same_list(x@, b->Package_0@),
    }
}

/// Element by element copies.
pub open spec fn same_list(x: Seq<AmlPackage>, y: Seq<AmlPackage>) -> bool
    decreases x,
{
    if x.len() == 0 {
        y.len() == 0
    } else {
        y.len() == x.len() && same_package(x[0], y[0]) && same_list(
            x.subrange(1, x.len() as int),
            y.subrange(1, y.len() as int),
        )
    }
}

/// A copy of the bytes `b`.
pub fn copy_bytes(b: &Vec<u8>) -> (r: Vec<u8>)
    ensures
        r@ == b@,
{
    let r = copy_range(b, 0, b.len());
    assert(b@.subrange(0, b@.len() as int) =~= b@);
    r
}

/// A copy of a package element.
pub fn copy_package(p: &AmlPackage) -> (r: AmlPackage)
    ensures
        same_package(*p, r),
    decreases *p,
{
    match p {
        AmlPackage::ConstData(c) => {
            let r = AmlPackage::ConstData(*c);
            assert(same_package(*p, r));
            r
        },
        AmlPackage::String(s) => {
            let r = AmlPackage::String(s.clone());
            assert(same_package(*p, r));
            r
        },
        AmlPackage::Buffer(b) => {
            let r = AmlPackage::Buffer(copy_bytes(b));
            assert(same_package(*p, r));
            r
        },
        AmlPackage::NameString(n) => {
            let r = AmlPackage::NameString(n.copy());
            assert(same_package(*p, r));
            r
        },
        AmlPackage::Package(v) => {
            let r = AmlPackage::Package(copy_package_list(v));
            assert(same_package(*p, r));
            r
        },
    }
}

/// A copy of a list of package elements.
pub fn copy_package_list(v: &Vec<AmlPackage>) -> (r: Vec<AmlPackage>)
    ensures
        r@.len() == v@.len(),
        forall|i: int| 0 <= i < v@.len() ==> #[trigger] same_package(v@[i], r@[i]),
        same_list(v@, r@),
    decreases v@,
{
    let mut r: Vec<AmlPackage> = Vec::new();
    let mut i: usize = 0;
    while i < v.len()
        invariant
            i <= v@.len(),
            r@.len() == i,
            forall|k: int| 0 <= k < i ==> #[trigger] same_package(v@[k], r@[k]),
        decreases v@.len() - i,
    {
        assert(decreases_to!(v@ => v@[i as int]));
        r.push(copy_package(&v[i]));
        i = i + 1;
    }
    proof {
        lemma_same_list(v@, r@);
    }
    r
}

proof fn lemma_same_list(x: Seq<AmlPackage>, y: Seq<AmlPackage>)
    requires
        x.len() == y.len(),
        forall|i: int| 0 <= i < x.len() ==> #[trigger] same_package(x[i], y[i]),
    ensures
        same_list(x, y),
    decreases x.len(),
{
    if x.len() > 0 {
        let x1 = x.subrange(1, x.len() as int);
        let y1 = y.subrange(1, y.len() as int);
        assert forall|i: int| 0 <= i < x1.len() implies #[trigger] same_package(x1[i], y1[i]) by {
            assert(x1[i] == x[i + 1] && y1[i] == y[i + 1]);
        }
        lemma_same_list(x1, y1);
        assert(same_package(x[0], y[0]));
    }
}

impl AmlVariable {
    /// The kinds that hold their value themselves.
    pub open spec fn spec_is_constant_data(&self) -> bool {
        match self {
            AmlVariable::ConstData(_) | AmlVariable::String(_) | AmlVariable::Buffer(_)
            | AmlVariable::Package(_) | AmlVariable::Uninitialized | AmlVariable::Mutex(_, _) => true,
            _ => false,
        }
    }

    pub fn is_constant_data(&self) -> (r: bool)
        ensures
            r == self.spec_is_constant_data(),
    {
        match self {
            AmlVariable::ConstData(_) => true,
            AmlVariable::String(_) => true,
            AmlVariable::Buffer(_) => true,
            AmlVariable::Io(_, _) => false,
            AmlVariable::MMIo(_, _) => false,
            AmlVariable::EcIo(_, _) => false,
            AmlVariable::PciConfig(_) => false,
            AmlVariable::BitField(_) => false,
            AmlVariable::ByteField(_) => false,
            AmlVariable::IndexField(_) => false,
            AmlVariable::Package(_) => true,
            AmlVariable::Uninitialized => true,
            AmlVariable::Method(_) => false,
            AmlVariable::BuiltInMethod(_, _) => false,
            AmlVariable::Mutex(_, _) => true,
            AmlVariable::Reference(_, _) => false,
        }
    }

    /// A copy of a value that holds itself: same kind, same contents.
    pub open spec fn same_value(&self, other: &AmlVariable) -> bool {
        match (*self, *other) {
            (AmlVariable::ConstData(x), AmlVariable::ConstData(y)) => x == y,
            (AmlVariable::String(x), AmlVariable::String(y)) => x@ == y@,
            (AmlVariable::Buffer(x), AmlVariable::Buffer(y)) => x@ == y@,
            (AmlVariable::Package(x), AmlVariable::Package(y)) => same_list(x@, y@),
            (AmlVariable::Uninitialized, AmlVariable::Uninitialized) => true,
            (AmlVariable::Mutex(a, b), AmlVariable::Mutex(c, d)) => a == c && b == d,
            _ => false,
        }
    }

    fn copy_constant(&self) -> (r: AmlVariable)
        requires
            self.spec_is_constant_data(),
        ensures
            self.same_value(&r),
    {
        match self {
            AmlVariable::ConstData(c) => AmlVariable::ConstData(*c),
            AmlVariable::String(s) => AmlVariable::String(s.clone()),
            AmlVariable::Buffer(b) => AmlVariable::Buffer(copy_bytes(b)),
            AmlVariable::Package(p) => AmlVariable::Package(copy_package_list(p)),
            AmlVariable::Mutex(a, b) => AmlVariable::Mutex(*a, *b),
            _ => AmlVariable::Uninitialized,
        }
    }

    /// The value of a variable that holds itself: a copy. A method or a
    /// built-in method has no value. (Fields, regions and references are
    /// read through the interpreter's I/O and store.)
    pub fn get_constant_data(&self) -> (r: Result<AmlVariable, AmlError>)
        requires
            self.spec_is_constant_data() || self is Method || self is BuiltInMethod,
        ensures
            self.spec_is_constant_data() ==> (r matches Ok(v) && self.same_value(&v)),
            !self.spec_is_constant_data() ==> (r matches Err(e) && e is InvalidOperation),
    {
        if self.is_constant_data() {
            Ok(self.copy_constant())
        } else {
            Err(AmlError::InvalidOperation)
        }
    }

    /// The integer value: that of a constant, or the level of a mutex.
    pub fn to_int(&self) -> (r: Result<usize, AmlError>)
        requires
            self.spec_is_constant_data() || self is Method || self is BuiltInMethod,
        ensures
            self matches AmlVariable::ConstData(c) ==> r == Ok::<usize, AmlError>(
                c.spec_value() as usize,
            ),
            self matches AmlVariable::Mutex(level, _) ==> r == Ok::<usize, AmlError>(level as usize),
            !(self is ConstData) && !(self is Mutex) ==> (r matches Err(e) && e is InvalidType),
    {
        match self {
            AmlVariable::ConstData(c) => Ok(c.to_int()),
            AmlVariable::Mutex(level, _) => Ok(*level as usize),
            AmlVariable::Package(_) => Err(AmlError::InvalidType),
            _ => Err(AmlError::InvalidType),
        }
    }

    /// The size in bytes: that of a constant, or the length of a string or
    /// a buffer.
    pub fn get_byte_size(&self) -> (r: Result<usize, AmlError>)
        ensures
            self matches AmlVariable::ConstData(c) ==> r == Ok::<usize, AmlError>(c.spec_byte_size()),
            self matches AmlVariable::String(s) ==> r == Ok::<usize, AmlError>(
                vstd::utf8::encode_utf8(s@).len() as usize,
            ),
            self matches AmlVariable::Buffer(b) ==> r == Ok::<usize, AmlError>(b@.len() as usize),
            (self is Uninitialized || self is Method || self is BuiltInMethod || self is Mutex) ==> (
            r matches Err(e) && e is InvalidType),
            (self is Package || self is Io || self is MMIo || self is EcIo || self is PciConfig
                || self is BitField || self is ByteField || self is IndexField || self is Reference)
                ==> (r matches Err(e) && e is UnsupportedType),
    {
        match self {
            AmlVariable::ConstData(c) => Ok(c.get_byte_size()),
            AmlVariable::String(s) => Ok(s.as_str().len()),
            AmlVariable::Buffer(b) => Ok(b.len()),
            AmlVariable::Uninitialized => Err(AmlError::InvalidType),
            AmlVariable::Method(_) => Err(AmlError::InvalidType),
            AmlVariable::BuiltInMethod(_, _) => Err(AmlError::InvalidType),
            AmlVariable::Mutex(_, _) => Err(AmlError::InvalidType),
            _ => Err(AmlError::UnsupportedType),
        }
    }

    /// The variable that a package element is; a name string is none.
    pub fn from_aml_package(p: AmlPackage) -> (r: Result<AmlVariable, AmlError>)
        ensures
            p matches AmlPackage::ConstData(c) ==> (r matches Ok(v) && v == AmlVariable::ConstData(c)),
            p matches AmlPackage::String(s) ==> (r matches Ok(AmlVariable::String(t)) && t@ == s@),
            p matches AmlPackage::Buffer(b) ==> (r matches Ok(AmlVariable::Buffer(c)) && c@ == b@),
            p matches AmlPackage::Package(l) ==> (r matches Ok(AmlVariable::Package(m)) && m@ == l@),
            p is NameString ==> (r matches Err(e) && e is InvalidType),
    {
        match p {
            AmlPackage::ConstData(c) => Ok(AmlVariable::ConstData(c)),
            AmlPackage::String(s) => Ok(AmlVariable::String(s)),
            AmlPackage::Buffer(b) => Ok(AmlVariable::Buffer(b)),
            AmlPackage::NameString(_) => Err(AmlError::InvalidType),
            AmlPackage::Package(l) => Ok(AmlVariable::Package(l)),
        }
    }

    /// The package element that a variable that holds itself is.
    pub fn convert_to_aml_package(self) -> (r: Result<AmlPackage, AmlError>)
        requires
            self.spec_is_constant_data() || self is Method || self is BuiltInMethod,
        ensures
            self matches AmlVariable::ConstData(c) ==> (r matches Ok(v) && v == AmlPackage::ConstData(c)),
            self matches AmlVariable::String(s) ==> (r matches Ok(AmlPackage::String(t)) && t@ == s@),
            self matches AmlVariable::Buffer(b) ==> (r matches Ok(AmlPackage::Buffer(c)) && c@ == b@),
            self matches AmlVariable::Package(l) ==> (r matches Ok(AmlPackage::Package(m)) && m@ == l@),
            (self is Uninitialized || self is Mutex || self is Method || self is BuiltInMethod) ==> (
            r matches Err(e) && e is InvalidType),
    {
        match self {
            AmlVariable::ConstData(c) => Ok(AmlPackage::ConstData(c)),
            AmlVariable::String(s) => Ok(AmlPackage::String(s)),
            AmlVariable::Buffer(b) => Ok(AmlPackage::Buffer(b)),
            AmlVariable::Package(p) => Ok(AmlPackage::Package(p)),
            _ => Err(AmlError::InvalidType),
        }
    }

    /// Element `index` of a buffer (as a byte), a package or the bytes of a
    /// string; refused past the end and for any other kind. (A reference is
    /// read through the interpreter's store.)
    pub fn read_buffer_with_index(&self, index: usize) -> (r: Result<AmlVariable, AmlError>)
        requires
            !(self is Reference),
        ensures
            self matches AmlVariable::Buffer(b) ==> if index < b@.len() {
                r matches Ok(v) && v == AmlVariable::ConstData(ConstData::Byte(b@[index as int]))
            } else {
                r matches Err(e) && e is InvalidOperation
            },
            self matches AmlVariable::String(s) ==> ({
                let bytes = vstd::utf8::encode_utf8(s@);
                if index < bytes.len() {
                    r matches Ok(v) && v == AmlVariable::ConstData(ConstData::Byte(bytes[index as int]))
                } else {
                    r matches Err(e) && e is InvalidOperation
                }
            }),
            self matches AmlVariable::Package(l) ==> if index < l@.len() {
                match l@[index as int] {
                    AmlPackage::NameString(_) => r matches Err(e) && e is InvalidType,
                    _ => r matches Ok(v) && AmlVariable::same_element(l@[index as int], v),
                }
            } else {
                r matches Err(e) && e is InvalidOperation
            },
            !(self is Buffer) && !(self is String) && !(self is Package) ==> (r matches Err(e)
                && e is InvalidOperation),
    {
        match self {
            AmlVariable::Buffer(b) => {
                if index < b.len() {
                    Ok(AmlVariable::ConstData(ConstData::Byte(b[index])))
                } else {
                    Err(AmlError::InvalidOperation)
                }
            },
            AmlVariable::Package(v) => {
                if index < v.len() {
                    let e = copy_package(&v[index]);
                    AmlVariable::from_aml_package(e)
                } else {
                    Err(AmlError::InvalidOperation)
                }
            },
            AmlVariable::String(s) => {
                let bytes = s.as_str().as_bytes();
                if index < bytes.len() {
                    Ok(AmlVariable::ConstData(ConstData::Byte(bytes[index])))
                } else {
                    Err(AmlError::InvalidOperation)
                }
            },
            _ => Err(AmlError::InvalidOperation),
        }
    }

    /// The variable that package element `p` gives holds its value.
    pub open spec fn same_element(p: AmlPackage, v: AmlVariable) -> bool {
        match (p, v) {
            (AmlPackage::ConstData(x), AmlVariable::ConstData(y)) => x == y,
            (AmlPackage::String(x), AmlVariable::String(y)) => x@ == y@,
            (AmlPackage::Buffer(x), AmlVariable::Buffer(y)) => x@ == y@,
            (AmlPackage::Package(x), AmlVariable::Package(y)) => same_list(x@, y@),
            _ => false,
        }
    }
}

impl AmlVariable {
    /// The integer of a constant or mutex as a byte, as the string write
    /// takes it.
    pub open spec fn spec_int(&self) -> Option<usize> {
        match self {
            AmlVariable::ConstData(c) => Some(c.spec_value() as usize),
            AmlVariable::Mutex(level, _) => Some(*level as usize),
            _ => None,
        }
    }

    /// Writes `data` into element `index` of a buffer (where `data` is a
    /// byte), a package (where it can be an element), or a string (its
    /// integer, truncated to a byte; where the bytes stay UTF-8). Refused
    /// past the end and for any other kind.
    pub fn write_buffer_with_index(&mut self, data: AmlVariable, index: usize) -> (r: Result<(), AmlError>)
        requires
            !(*old(self) is Reference),
            data.spec_is_constant_data() || data is Method || data is BuiltInMethod,
        ensures
            *old(self) matches AmlVariable::Buffer(b) ==> if data.spec_is_constant_data() && (
            data matches AmlVariable::ConstData(ConstData::Byte(x))) && index < b@.len() {
                r is Ok && (*final(self) matches AmlVariable::Buffer(c) && c@ == b@.update(
                    index as int,
                    data->ConstData_0->Byte_0,
                ))
            } else {
                r matches Err(e) && e is InvalidOperation
            },
            *old(self) matches AmlVariable::Package(l) ==> if index < l@.len() {
                if data is ConstData || data is String || data is Buffer || data is Package {
                    r is Ok && (*final(self) matches AmlVariable::Package(m) && m@.len() == l@.len()
                        && AmlVariable::same_element(m@[index as int], data) && forall|i: int|
                        0 <= i < l@.len() && i != index ==> m@[i] == l@[i])
                } else {
                    r matches Err(e) && e is InvalidType
                }
            } else {
                r matches Err(e) && e is InvalidOperation
            },
            *old(self) matches AmlVariable::String(s) ==> ({
                let bytes = vstd::utf8::encode_utf8(s@);
                if index < bytes.len() && data.spec_int() is Some {
                    let nb = bytes.update(index as int, data.spec_int()->0 as u8);
                    if vstd::utf8::valid_utf8(nb) {
                        r is Ok && (*final(self) matches AmlVariable::String(t) && t@
                            == vstd::utf8::decode_utf8(nb))
                    } else {
                        r matches Err(e) && e is InvalidOperation
                    }
                } else if index < bytes.len() {
                    r matches Err(e) && e is InvalidType
                } else {
                    r matches Err(e) && e is InvalidOperation
                }
            }),
            !(*old(self) is Buffer) && !(*old(self) is Package) && !(*old(self) is String) ==> (r matches Err(
                e,
            ) && e is InvalidOperation),
            r is Err ==> *final(self) == *old(self),
    {
        match self {
            AmlVariable::Buffer(s) => {
                if data.is_constant_data() {
                    if let AmlVariable::ConstData(ConstData::Byte(byte)) = data {
                        if s.len() <= index {
                            return Err(AmlError::InvalidOperation);
                        }
                        s.set(index, byte);
                        return Ok(());
                    }
                }
                Err(AmlError::InvalidOperation)
            },
            AmlVariable::Package(v) => {
                if index < v.len() {
                    let ghost d = data;
                    match data.convert_to_aml_package() {
                        Ok(e) => {
                            proof {
                                if let AmlVariable::Package(l) = d {
                                    lemma_same_list_refl(l@);
                                }
                            }
                            v.set(index, e);
                            Ok(())
                        },
                        Err(e) => Err(e),
                    }
                } else {
                    Err(AmlError::InvalidOperation)
                }
            },
            AmlVariable::String(s) => {
                let bytes = s.as_str().as_bytes();
                if index < bytes.len() {
                    let value = match data {
                        AmlVariable::ConstData(c) => c.to_int(),
                        AmlVariable::Mutex(level, _) => level as usize,
                        _ => {
                            return Err(AmlError::InvalidType);
                        },
                    };
                    let mut nb: Vec<u8> = Vec::new();
                    let mut i: usize = 0;
                    while i < bytes.len()
                        invariant
                            i <= bytes@.len(),
                            index < bytes@.len(),
                            nb@.len() == i,
                            forall|k: int| 0 <= k < i ==> #[trigger] nb@[k] == if k == index {
                                value as u8
                            } else {
                                bytes@[k]
                            },
                        decreases bytes@.len() - i,
                    {
                        if i == index {
                            nb.push(value as u8);
                        } else {
                            nb.push(bytes[i]);
                        }
                        i = i + 1;
                    }
                    proof {
                        assert(nb@ =~= bytes@.update(index as int, value as u8));
                    }
                    match utf8_to_string(nb) {
                        Some(t) => {
                            *s = t;
                            Ok(())
                        },
                        None => Err(AmlError::InvalidOperation),
                    }
                } else {
                    Err(AmlError::InvalidOperation)
                }
            },
            _ => Err(AmlError::InvalidOperation),
        }
    }

    /// Stores `data` in a variable that holds its value: the variable
    /// becomes a copy of it. (Fields and regions are written through the
    /// interpreter's I/O.)
    pub fn write(&mut self, data: AmlVariable) -> (r: Result<(), AmlError>)
        requires
            old(self).spec_is_constant_data(),
            data.spec_is_constant_data() || data is Method || data is BuiltInMethod,
        ensures
            data.spec_is_constant_data() ==> r is Ok && data.same_value(&*final(self)),
            !data.spec_is_constant_data() ==> (r matches Err(e) && e is InvalidOperation) && *final(self)
                == *old(self),
    {
        let constant_data = if data.is_constant_data() {
            data
        } else {
            match data.get_constant_data() {
                Ok(c) => c,
                Err(e) => {
                    return Err(e);
                },
            }
        };
        proof {
            lemma_same_value_refl(&constant_data);
        }
        *self = constant_data;
        Ok(())
    }
}

proof fn lemma_same_list_refl(x: Seq<AmlPackage>)
    ensures
        same_list(x, x),
    decreases x,
{
    if x.len() > 0 {
        lemma_same_package_refl(x[0]);
        lemma_same_list_refl(x.subrange(1, x.len() as int));
    }
}

proof fn lemma_same_package_refl(a: AmlPackage)
    ensures
        same_package(a, a),
    decreases a,
{
    if let AmlPackage::Package(x) = a {
        lemma_same_list_refl(x@);
    }
}

proof fn lemma_same_value_refl(v: &AmlVariable)
    requires
        v.spec_is_constant_data(),
    ensures
        v.same_value(v),
{
    if let AmlVariable::Package(x) = *v {
        lemma_same_list_refl(x@);
    }
}

/// The mask of the low `n <= 8` bits of a byte.
pub open spec fn low_mask8(n: int) -> u8
    decreases n,
{
    if n <= 0 {
        0
    } else {
        (low_mask8(n - 1) * 2 + 1) as u8
    }
}

fn make_mask8(n: usize) -> (r: u8)
    requires
        n <= 8,
    ensures
        r == low_mask8(n as int),
{
    let mut mask: u8 = 0;
    let mut i: usize = 0;
    proof {
        vstd::arithmetic::power2::lemma2_to64();
    }
    while i < n
        invariant
            i <= n <= 8,
            mask == low_mask8(i as int),
            mask < vstd::arithmetic::power2::pow2(i as nat),
        decreases n - i,
    {
        proof {
            vstd::arithmetic::power2::lemma2_to64();
            vstd::arithmetic::power2::lemma_pow2_unfold((i + 1) as nat);
        }
        mask = mask * 2 + 1;
        i = i + 1;
    }
    mask
}

/// The byte that writing `value` into `num_of_bits` bits from `bit_index`
/// of the embedded-controller byte `original` gives; a whole byte is
/// written as is. Refused where the bits do not lie within the byte.
pub fn ec_write_byte(original: u8, value: usize, bit_index: usize, num_of_bits: usize) -> (r: Result<u8, AmlError>)
    requires
        bit_index < 8,
    ensures
        bit_index == 0 && num_of_bits == 8 ==> r == Ok::<u8, AmlError>(value as u8),
        !(bit_index == 0 && num_of_bits == 8) ==> if num_of_bits == 0 || num_of_bits + bit_index > 8 {
            r matches Err(e) && e is InvalidOperation
        } else {
            r == Ok::<u8, AmlError>(
                (original & !(low_mask8(num_of_bits as int) << bit_index as u8)) | (((value as u8)
                    & low_mask8(num_of_bits as int)) << bit_index as u8),
            )
        },
{
    if bit_index != 0 || num_of_bits != 8 {
        if num_of_bits == 0 || num_of_bits > 8 - bit_index {
            return Err(AmlError::InvalidOperation);
        }
        let mask = make_mask8(num_of_bits);
        let b = bit_index as u8;
        Ok((original & !(mask << b)) | (((value as u8) & mask) << b))
    } else {
        Ok(value as u8)
    }
}

/// The bits that reading `num_of_bits` bits from `bit_index` of the
/// embedded-controller byte `read` gives; a whole byte is read as is.
/// Refused where the bits do not lie within the byte.
pub fn ec_read_byte(read: u8, bit_index: usize, num_of_bits: usize) -> (r: Result<u8, AmlError>)
    requires
        bit_index < 8,
    ensures
        num_of_bits == 0 || num_of_bits + bit_index > 8 ==> (r matches Err(e) && e is InvalidOperation),
        !(num_of_bits == 0 || num_of_bits + bit_index > 8) ==> r == Ok::<u8, AmlError>(
            if bit_index == 0 && num_of_bits == 8 {
                read
            } else {
                (read >> bit_index as u8) & low_mask8(num_of_bits as int)
            },
        ),
{
    if num_of_bits == 0 || num_of_bits > 8 - bit_index {
        return Err(AmlError::InvalidOperation);
    }
    if bit_index != 0 || num_of_bits != 8 {
        let mask = make_mask8(num_of_bits);
        Ok((read >> (bit_index as u8)) & mask)
    } else {
        Ok(read)
    }
}

/// Where an index field is reached: the value to write into its index
/// register and the bit of its data register to start from.
pub open spec fn spec_index_field_offset(byte_index: usize, bit_index: usize, field: AmlIndexField) -> (usize, usize) {
    let byte_offset = (byte_index + (field.bit_index + bit_index) / 8) as usize;
    let aligned = if field.access_align > 1 {
        byte_offset & !((field.access_align - 1) as usize)
    } else {
        byte_offset
    };
    (aligned, ((field.bit_index + bit_index) % 8 + (byte_offset - aligned)) as usize)
}

/// The value for the index register of `field` and the bit of its data
/// register, for an access at `byte_index` and `bit_index` into it: the
/// byte offset is aligned down to the access width, and the index is a
/// constant of that width. Refused for an offset that does not fit the
/// width or a width other than 0, 1, 2, 4 or 8.
pub fn index_field_access(byte_index: usize, bit_index: usize, field: &AmlIndexField) -> (r: Result<(ConstData, usize), AmlError>)
    requires
        field.bit_index + bit_index <= usize::MAX,
        byte_index + (field.bit_index + bit_index) / 8 + 7 <= usize::MAX,
    ensures
        ({
            let (aligned, bit) = spec_index_field_offset(byte_index, bit_index, *field);
            let a = field.access_align;
            if a == 0 || a == 1 {
                if aligned <= 0xFF {
                    r == Ok::<(ConstData, usize), AmlError>((ConstData::Byte(aligned as u8), bit))
                } else {
                    r matches Err(e) && e is InvalidOperation
                }
            } else if a == 2 {
                if aligned <= 0xFFFF {
                    r == Ok::<(ConstData, usize), AmlError>((ConstData::Word(aligned as u16), bit))
                } else {
                    r matches Err(e) && e is InvalidOperation
                }
            } else if a == 4 {
                if aligned <= 0xFFFF_FFFF {
                    r == Ok::<(ConstData, usize), AmlError>((ConstData::DWord(aligned as u32), bit))
                } else {
                    r matches Err(e) && e is InvalidOperation
                }
            } else if a == 8 {
                r == Ok::<(ConstData, usize), AmlError>((ConstData::QWord(aligned as u64), bit))
            } else {
                r matches Err(e) && e is InvalidOperation
            }
        }),
{
    let total = field.bit_index + bit_index;
    let byte_offset = byte_index + total / 8;
    let aligned = if field.access_align > 1 {
        let m = field.access_align - 1;
        let a = byte_offset & !m;
        assert(byte_offset & !m <= byte_offset) by (bit_vector);
        a
    } else {
        byte_offset
    };
    let gap = byte_offset - aligned;
    let bit = total % 8 + gap;
    let index = match field.access_align {
        0 | 1 => {
            if aligned > 0xFF {
                return Err(AmlError::InvalidOperation);
            }
            ConstData::Byte(aligned as u8)
        },
        2 => {
            if aligned > 0xFFFF {
                return Err(AmlError::InvalidOperation);
            }
            ConstData::Word(aligned as u16)
        },
        4 => {
            if aligned > 0xFFFF_FFFF {
                return Err(AmlError::InvalidOperation);
            }
            ConstData::DWord(aligned as u32)
        },
        8 => ConstData::QWord(aligned as u64),
        _ => {
            return Err(AmlError::InvalidOperation);
        },
    };
    Ok((index, bit))
}

} // verus!
