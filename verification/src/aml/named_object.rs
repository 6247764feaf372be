//! AML named objects: devices, methods, fields, regions and the rest.
use vstd::prelude::*;
use super::AmlError;
use super::data_object::{PkgLength, PkgParse, WindowParse, is_window, spec_pkg_length, spec_window, split_package};
use super::method_table::MethodTable;
use super::name_object::{NameParse, NameString, NameStringFlag, spec_parse_name};
use super::namespace_modifier_object::{
    is_name, name_error, name_outcome, named_list_matches, named_list_outcome, parse_named_term_list, parsed_name,
    spec_named_list,
};
use super::opcode;
use super::stream::AmlStream;
use super::term_object::{TermArg, TermList, one_byte_term};

verus! {

#[derive(Debug)]
pub struct BankField {
    region_name: NameString,
    bank_name: NameString,
    bank_value: TermArg,
    field_flags: u8,
    field_list: FieldList,
}

/// The width of the field a `CreateField` opcode makes.
#[derive(Eq, PartialEq, Debug, Clone, Copy, Structural)]
pub enum CreateFieldType {
    Bit,
    Byte,
    Word,
    DWord,
    QWord,
    Other,
}

#[derive(Debug)]
pub struct CreateField {
    size: CreateFieldType,
    source_buffer: TermArg,
    index: TermArg,
    name: NameString,
    optional_size: Option<TermArg>,
}

#[derive(Debug)]
pub struct DataRegion {
    name: NameString,
    term_args: [TermArg; 3],
}

#[derive(Debug)]
pub struct External {
    name: NameString,
    object_type: u8,
    argument_count: u8,
}

/// The address spaces of an operation region.
#[derive(Debug, Clone, Copy, Eq, PartialEq, Structural)]
pub enum OperationRegionType {
    SystemMemory,
    SystemIO,
    PciConfig,
    EmbeddedControl,
    SMBus,
    SystemCMOS,
    PciBarTarget,
    IPMI,
    GeneralPurposeIO,
    GenericSerialBus,
    PCC,
}

#[derive(Debug)]
pub struct OpRegion {
    name: NameString,
    region_scope: u8,
    region_offset: TermArg,
    region_len: TermArg,
}

#[derive(Debug)]
pub struct PowerRes {
    name: NameString,
    system_level: u8,
    resource_order: u16,
    term_list: TermList,
}

#[derive(Debug)]
pub struct Device {
    device_name: NameString,
    term_list: TermList,
}

#[derive(Debug)]
pub struct ThermalZone {
    name: NameString,
    term_list: TermList,
}

#[derive(Debug)]
pub struct Method {
    name: NameString,
    method_flags: u8,
    term_list: TermList,
}

#[derive(Debug)]
pub struct Field {
    region_name: NameString,
    field_flags: u8,
    field_list: FieldList,
}

#[derive(Debug)]
pub struct IndexField {
    index_register_name: NameString,
    data_register_name: NameString,
    field_flags: u8,
    field_list: FieldList,
}

#[derive(Debug)]
pub enum NamedObject {
    DefBankField(BankField),
    DefCreateField(CreateField),
    DefDataRegion(DataRegion),
    DefDevice(Device),
    DefField(Field),
    DefEvent(NameString),
    DefIndexField(IndexField),
    DefMethod(Method),
    DefMutex(NameString, u8),
    DefExternal(External),
    DefOpRegion(OpRegion),
    DefPowerRes(PowerRes),
    DefThermalZone(ThermalZone),
}

/// The elements of a field list, read one by one.
#[derive(Debug)]
pub struct FieldList {
    stream: AmlStream,
    current_scope: NameString,
}

#[derive(Debug)]
pub enum FieldElement {
    ReservedField(PkgLength),
    AccessField(u8, u8),
    ExtendedAccessField([u8; 3]),
    ConnectField(NameString),
    NameField(NameString, PkgLength),
}

/// What reading a `BankField` at `p` in the window ending at `end` gives as
/// `r`, with the stream then at `after`.
pub open spec fn bank_field_outcome(
    s: Seq<u8>,
    p: int,
    end: int,
    current_scope: &NameString,
    r: Result<BankField, AmlError>,
    after: int,
) -> bool {
    match spec_window(s, p, end) {
        WindowParse::OutOfRange => r matches Err(e) && e is AccessOutOfRange,
        WindowParse::Done(start, len) => after == start + len && match parsed_name(
            s,
            start,
            start + len,
            current_scope,
        ) {
            NameParse::Done(q1, segs1, flag1) => match parsed_name(s, q1, start + len, current_scope) {
                NameParse::Done(q, segs, flag) => (q + 2 <= start + len && one_byte_term(s[q]) is Some)
                    ==> (r matches Ok(b) && is_name(b.spec_names().0, segs1, flag1) && is_name(
                    b.spec_names().1,
                    segs,
                    flag,
                ) && b.spec_names().2 == one_byte_term(s[q])->0 && b.spec_flags() == s[q + 1]
                    && b.spec_field_list().scope().same(current_scope) && is_window(
                    &b.spec_field_list().window(),
                    s,
                    q + 2,
                    start + len - q - 2,
                )),
                np => name_error(np, r),
            },
            np => name_error(np, r),
        },
    }
}

impl Clone for FieldList {
    fn clone(&self) -> (r: Self)
        ensures
            r.window().same_as(&self.window()),
            r.scope().same(&self.scope()),
    {
        FieldList { stream: self.stream.copy(), current_scope: self.current_scope.copy() }
    }
}

/// The access size in bytes that the low three bits of field flags select
/// (0 for any access, for buffer access and for unknown values).
pub open spec fn spec_access_size(flags: u8) -> usize {
    let t = flags % 8;
    if t == 1 {
        1
    } else if t == 2 {
        2
    } else if t == 3 {
        4
    } else if t == 4 {
        8
    } else {
        0
    }
}

/// The access types of field flags (bits 0 to 2) that name a width,
/// `ByteAcc` to `QWordAcc` (1 to 4), select 1, 2, 4 and 8 bytes: two to
/// the power of one less than the type; any other type selects none.
pub proof fn lemma_access_size_widths(flags: u8)
    ensures
        1 <= flags % 8 <= 4 ==> spec_access_size(flags) == vstd::arithmetic::power2::pow2((flags % 8 - 1) as nat),
        !(1 <= flags % 8 <= 4) ==> spec_access_size(flags) == 0,
{
    vstd::arithmetic::power2::lemma2_to64();
}

/// Reads a package length and the field list that follows the fixed part:
/// the returned stream holds the package, the outer one moves past it.
fn open_package(stream: &mut AmlStream) -> (r: Result<AmlStream, AmlError>)
    requires
        old(stream).wf(),
    ensures
        old(stream).moved_to(final(stream)),
        r is Ok ==> final(stream).pos() > old(stream).pos(),
        match spec_window(old(stream).bytes(), old(stream).pos(), old(stream).end()) {
            WindowParse::Done(start, len) => (r matches Ok(w) && is_window(&w, old(stream).bytes(), start, len)
                && final(stream).pos() == start + len),
            WindowParse::OutOfRange => (r matches Err(e) && e is AccessOutOfRange),
        },
{
    split_package(stream)
}

impl BankField {
    pub closed spec fn spec_flags(&self) -> u8 {
        self.field_flags
    }

    /// The region's name, the bank's name and the bank value.
    pub closed spec fn spec_names(&self) -> (NameString, NameString, TermArg) {
        (self.region_name, self.bank_name, self.bank_value)
    }

    pub closed spec fn spec_field_list(&self) -> FieldList {
        self.field_list
    }

    /// Reads the package after `BankFieldOp`.
    pub fn parse(stream: &mut AmlStream, current_scope: &NameString, table: &MethodTable) -> (r: Result<
        Self,
        AmlError,
    >)
        requires
            old(stream).wf(),
        ensures
            old(stream).moved_to(final(stream)),
            r is Ok ==> final(stream).pos() > old(stream).pos(),
            bank_field_outcome(old(stream).bytes(), old(stream).pos(), old(stream).end(), current_scope, r, final(stream).pos()),
    {
        let mut bank_field_stream = open_package(stream)?;
        let region_name = NameString::parse(&mut bank_field_stream, Some(current_scope))?;
        let bank_name = NameString::parse(&mut bank_field_stream, Some(current_scope))?;
        let bank_value = TermArg::parse_integer(&mut bank_field_stream, current_scope, table)?;
        let field_flags = bank_field_stream.read_byte()?;
        let field_list = FieldList::new(bank_field_stream, current_scope)?;
        Ok(BankField { region_name, bank_name, bank_value, field_flags, field_list })
    }
}

impl CreateField {
    pub closed spec fn spec_size(&self) -> CreateFieldType {
        self.size
    }

    pub closed spec fn spec_name(&self) -> NameString {
        self.name
    }

    pub closed spec fn spec_source_buffer(&self) -> TermArg {
        self.source_buffer
    }

    pub closed spec fn spec_index(&self) -> TermArg {
        self.index
    }

    pub closed spec fn spec_optional_size(&self) -> Option<TermArg> {
        self.optional_size
    }

    /// Reads the source buffer, the index, the size (for `CreateField`
    /// only) and the name.
    pub fn parse(
        stream: &mut AmlStream,
        current_scope: &NameString,
        field_type: CreateFieldType,
        table: &MethodTable,
    ) -> (r: Result<Self, AmlError>)
        requires
            old(stream).wf(),
        ensures
            old(stream).moved_to(final(stream)),
            r is Ok ==> final(stream).pos() > old(stream).pos(),
            r matches Ok(c) ==> c.spec_size() == field_type && (c.spec_optional_size() is Some <==> field_type
                == CreateFieldType::Other) && c.spec_index().is_integer_kind(),
            ({
                let s = old(stream).bytes();
                let p = old(stream).pos();
                let k: int = if field_type == CreateFieldType::Other { 3 } else { 2 };
                (p + k <= old(stream).end() && one_byte_term(s[p]) is Some && one_byte_term(s[p + 1]) is Some && (
                field_type == CreateFieldType::Other ==> one_byte_term(s[p + 2]) is Some)) ==> match parsed_name(
                    s,
                    p + k,
                    old(stream).end(),
                    current_scope,
                ) {
                    NameParse::Done(q, segs, flag) => r matches Ok(c) && is_name(c.spec_name(), segs, flag)
                        && c.spec_source_buffer() == one_byte_term(s[p])->0 && c.spec_index() == one_byte_term(
                        s[p + 1],
                    )->0 && (field_type == CreateFieldType::Other ==> c.spec_optional_size() == Some(
                        one_byte_term(s[p + 2])->0,
                    )) && final(stream).pos() == q,
                    np => name_error(np, r),
                }
            }),
    {
        let source_buffer = TermArg::try_parse(stream, current_scope, table)?;
        let index = TermArg::parse_integer(stream, current_scope, table)?;
        let optional_size = if field_type == CreateFieldType::Other {
            Some(TermArg::parse_integer(stream, current_scope, table)?)
        } else {
            None
        };
        let name = NameString::parse(stream, Some(current_scope))?;
        Ok(CreateField { size: field_type, source_buffer, index, name, optional_size })
    }

    pub fn get_name(&self) -> (r: &NameString)
        ensures
            *r == self.spec_name(),
    {
        &self.name
    }

    pub fn get_source_buffer(&self) -> (r: &TermArg)
        ensures
            *r == self.spec_source_buffer(),
    {
        &self.source_buffer
    }

    pub fn get_index(&self) -> (r: &TermArg)
        ensures
            *r == self.spec_index(),
    {
        &self.index
    }

    /// Whether the field is counted in bits.
    pub fn is_bit_field(&self) -> (r: bool)
        ensures
            r == (self.spec_size() == CreateFieldType::Bit || self.spec_size() == CreateFieldType::Other),
    {
        self.size == CreateFieldType::Bit || self.size == CreateFieldType::Other
    }

    /// The field's size: one bit, or the bytes of its width; `None` for a
    /// `CreateField` whose size is a term.
    pub fn get_source_size(&self) -> (r: Option<usize>)
        ensures
            r == match self.spec_size() {
                CreateFieldType::Other => None,
                CreateFieldType::Bit => Some(1usize),
                CreateFieldType::Byte => Some(1usize),
                CreateFieldType::Word => Some(2usize),
                CreateFieldType::DWord => Some(4usize),
                CreateFieldType::QWord => Some(8usize),
            },
    {
        match self.size {
            CreateFieldType::Other => None,
            CreateFieldType::Bit => Some(1),
            CreateFieldType::Byte => Some(1),
            CreateFieldType::Word => Some(2),
            CreateFieldType::DWord => Some(4),
            CreateFieldType::QWord => Some(8),
        }
    }

    pub fn get_source_size_term_arg(&self) -> (r: &Option<TermArg>)
        ensures
            *r == self.spec_optional_size(),
    {
        &self.optional_size
    }
}

impl DataRegion {
    pub closed spec fn spec_name(&self) -> NameString {
        self.name
    }

    pub closed spec fn spec_args(&self) -> Seq<TermArg> {
        self.term_args@
    }

    /// Reads the name and the three term arguments after `DataRegionOp`.
    pub fn parse(stream: &mut AmlStream, current_scope: &NameString, table: &MethodTable) -> (r: Result<
        Self,
        AmlError,
    >)
        requires
            old(stream).wf(),
        ensures
            old(stream).moved_to(final(stream)),
            r is Ok ==> final(stream).pos() > old(stream).pos(),
            r matches Ok(d) ==> name_outcome(
                old(stream).bytes(),
                old(stream).pos(),
                old(stream).end(),
                current_scope,
                Ok(d.spec_name()),
                super::namespace_modifier_object::name_end(
                    old(stream).bytes(),
                    old(stream).pos(),
                    old(stream).end(),
                    current_scope,
                ),
            ),
            ({
                let s = old(stream).bytes();
                let end = old(stream).end();
                match parsed_name(s, old(stream).pos(), end, current_scope) {
                    NameParse::Done(q, _, _) => (q + 3 <= end && one_byte_term(s[q]) is Some && one_byte_term(s[q + 1]) is Some
                        && one_byte_term(s[q + 2]) is Some) ==> (r matches Ok(d) && d.spec_args() == seq![
                        one_byte_term(s[q])->0,
                        one_byte_term(s[q + 1])->0,
                        one_byte_term(s[q + 2])->0,
                    ] && final(stream).pos() == q + 3),
                    np => name_error(np, r),
                }
            }),
    {
        let name = NameString::parse(stream, Some(current_scope))?;
        let term_arg1 = TermArg::try_parse(stream, current_scope, table)?;
        let term_arg2 = TermArg::try_parse(stream, current_scope, table)?;
        let term_arg3 = TermArg::try_parse(stream, current_scope, table)?;
        Ok(DataRegion { name, term_args: [term_arg1, term_arg2, term_arg3] })
    }

    pub fn get_name(&self) -> (r: &NameString)
        ensures
            *r == self.spec_name(),
    {
        &self.name
    }
}

impl External {
    pub closed spec fn spec_name(&self) -> NameString {
        self.name
    }

    pub closed spec fn spec_object_type(&self) -> u8 {
        self.object_type
    }

    pub closed spec fn spec_argument_count(&self) -> u8 {
        self.argument_count
    }

    /// Reads the name, the object type and the argument count after `ExternalOp`.
    pub fn parse(stream: &mut AmlStream, current_scope: &NameString) -> (r: Result<Self, AmlError>)
        requires
            old(stream).wf(),
        ensures
            old(stream).moved_to(final(stream)),
            r is Ok ==> final(stream).pos() > old(stream).pos(),
            r matches Ok(x) ==> {
                let s = old(stream).bytes();
                let q = super::namespace_modifier_object::name_end(s, old(stream).pos(), old(stream).end(), current_scope);
                &&& name_outcome(s, old(stream).pos(), old(stream).end(), current_scope, Ok(x.spec_name()), q)
                &&& x.spec_object_type() == s[q]
                &&& x.spec_argument_count() == s[q + 1]
                &&& final(stream).pos() == q + 2
            },
            match parsed_name(old(stream).bytes(), old(stream).pos(), old(stream).end(), current_scope) {
                NameParse::Done(q, _, _) => (r is Ok <==> q + 2 <= old(stream).end()) && (r matches Err(e)
                    ==> e is AccessOutOfRange),
                np => name_error(np, r),
            },
    {
        let name = NameString::parse(stream, Some(current_scope))?;
        let object_type = stream.read_byte()?;
        let argument_count = stream.read_byte()?;
        Ok(External { name, object_type, argument_count })
    }

    /// An external object declared by the interpreter itself.
    pub fn new(name: NameString, object_type: u8, argument_count: u8) -> (r: Self)
        ensures
            r.spec_name() == name,
            r.spec_object_type() == object_type,
            r.spec_argument_count() == argument_count,
    {
        External { name, object_type, argument_count }
    }

    pub fn get_name(&self) -> (r: &NameString)
        ensures
            *r == self.spec_name(),
    {
        &self.name
    }

    pub fn get_argument_count(&self) -> (r: usize)
        ensures
            r == self.spec_argument_count(),
    {
        self.argument_count as usize
    }
}

/// What reading a `PowerRes` at `p` in the window ending at `end` gives as
/// `r`, with the stream then at `after`.
pub open spec fn power_res_outcome(
    s: Seq<u8>,
    p: int,
    end: int,
    current_scope: &NameString,
    r: Result<PowerRes, AmlError>,
    after: int,
) -> bool {
    match spec_window(s, p, end) {
        WindowParse::OutOfRange => r matches Err(e) && e is AccessOutOfRange,
        WindowParse::Done(start, len) => after == start + len && match parsed_name(
            s,
            start,
            start + len,
            current_scope,
        ) {
            NameParse::Done(q, segs, flag) => if q + 3 <= start + len {
                r matches Ok(x) && is_name(x.spec_name(), segs, flag) && x.spec_levels() == (
                    s[q],
                    (s[q + 1] + 256 * s[q + 2]) as u16,
                ) && x.spec_term_list().scope().same(&x.spec_name()) && is_window(
                    &x.spec_term_list().window(),
                    s,
                    q + 3,
                    start + len - q - 3,
                )
            } else {
                r matches Err(e) && e is AccessOutOfRange
            },
            np => name_error(np, r),
        },
    }
}

impl OpRegion {
    pub closed spec fn spec_name(&self) -> NameString {
        self.name
    }

    pub closed spec fn spec_region_scope(&self) -> u8 {
        self.region_scope
    }

    pub closed spec fn spec_offset(&self) -> TermArg {
        self.region_offset
    }

    pub closed spec fn spec_length(&self) -> TermArg {
        self.region_len
    }

    /// Reads the name, the space, the offset and the length after `OpRegionOp`.
    pub fn parse(stream: &mut AmlStream, current_scope: &NameString, table: &MethodTable) -> (r: Result<
        Self,
        AmlError,
    >)
        requires
            old(stream).wf(),
        ensures
            old(stream).moved_to(final(stream)),
            r is Ok ==> final(stream).pos() > old(stream).pos(),
            r matches Ok(o) ==> {
                let s = old(stream).bytes();
                let q = super::namespace_modifier_object::name_end(s, old(stream).pos(), old(stream).end(), current_scope);
                &&& name_outcome(s, old(stream).pos(), old(stream).end(), current_scope, Ok(o.spec_name()), q)
                &&& o.spec_region_scope() == s[q]
                &&& o.spec_offset().is_integer_kind()
                &&& o.spec_length().is_integer_kind()
            },
            ({
                let s = old(stream).bytes();
                let end = old(stream).end();
                match parsed_name(s, old(stream).pos(), end, current_scope) {
                    NameParse::Done(q, _, _) => {
                        &&& q >= end ==> (r matches Err(e) && e is AccessOutOfRange)
                        &&& (q + 3 <= end && one_byte_term(s[q + 1]) is Some && one_byte_term(s[q + 2]) is Some) ==> (
                        r matches Ok(o) && o.spec_offset() == one_byte_term(s[q + 1])->0 && o.spec_length()
                            == one_byte_term(s[q + 2])->0 && final(stream).pos() == q + 3)
                    },
                    np => name_error(np, r),
                }
            }),
    {
        let name = NameString::parse(stream, Some(current_scope))?;
        let region_scope = stream.read_byte()?;
        let region_offset = TermArg::parse_integer(stream, current_scope, table)?;
        let region_len = TermArg::parse_integer(stream, current_scope, table)?;
        Ok(OpRegion { name, region_scope, region_offset, region_len })
    }

    pub fn get_name(&self) -> (r: &NameString)
        ensures
            *r == self.spec_name(),
    {
        &self.name
    }

    /// The region's address space; `UnsupportedType` past `PCC` (0x0A).
    pub fn get_operation_type(&self) -> (r: Result<OperationRegionType, AmlError>)
        ensures
            r is Ok <==> self.spec_region_scope() <= 0x0A,
            r matches Err(e) ==> e is UnsupportedType,
            r matches Ok(t) ==> region_type_code(t) == self.spec_region_scope(),
    {
        match self.region_scope {
            0 => Ok(OperationRegionType::SystemMemory),
            1 => Ok(OperationRegionType::SystemIO),
            2 => Ok(OperationRegionType::PciConfig),
            3 => Ok(OperationRegionType::EmbeddedControl),
            4 => Ok(OperationRegionType::SMBus),
            5 => Ok(OperationRegionType::SystemCMOS),
            6 => Ok(OperationRegionType::PciBarTarget),
            7 => Ok(OperationRegionType::IPMI),
            8 => Ok(OperationRegionType::GeneralPurposeIO),
            9 => Ok(OperationRegionType::GenericSerialBus),
            10 => Ok(OperationRegionType::PCC),
            _ => Err(AmlError::UnsupportedType),
        }
    }

    pub fn get_region_offset(&self) -> (r: &TermArg)
        ensures
            *r == self.spec_offset(),
    {
        &self.region_offset
    }

    pub fn get_region_length(&self) -> (r: &TermArg)
        ensures
            *r == self.spec_length(),
    {
        &self.region_len
    }
}

/// The code of an address space.
pub open spec fn region_type_code(t: OperationRegionType) -> u8 {
    match t {
        OperationRegionType::SystemMemory => 0,
        OperationRegionType::SystemIO => 1,
        OperationRegionType::PciConfig => 2,
        OperationRegionType::EmbeddedControl => 3,
        OperationRegionType::SMBus => 4,
        OperationRegionType::SystemCMOS => 5,
        OperationRegionType::PciBarTarget => 6,
        OperationRegionType::IPMI => 7,
        OperationRegionType::GeneralPurposeIO => 8,
        OperationRegionType::GenericSerialBus => 9,
        OperationRegionType::PCC => 10,
    }
}

impl PowerRes {
    pub closed spec fn spec_name(&self) -> NameString {
        self.name
    }

    pub closed spec fn spec_term_list(&self) -> TermList {
        self.term_list
    }

    /// The system level and the resource order.
    pub closed spec fn spec_levels(&self) -> (u8, u16) {
        (self.system_level, self.resource_order)
    }

    /// Reads the package after `PowerResOp`: name, system level, resource
    /// order, then the terms.
    pub fn parse(stream: &mut AmlStream, current_scope: &NameString) -> (r: Result<Self, AmlError>)
        requires
            old(stream).wf(),
        ensures
            old(stream).moved_to(final(stream)),
            r is Ok ==> final(stream).pos() > old(stream).pos(),
            power_res_outcome(old(stream).bytes(), old(stream).pos(), old(stream).end(), current_scope, r, final(stream).pos()),
    {
        let mut power_res_stream = open_package(stream)?;
        let name = NameString::parse(&mut power_res_stream, Some(current_scope))?;
        let system_level = power_res_stream.read_byte()?;
        let resource_order = power_res_stream.read_word()?;
        let term_list = TermList::new(power_res_stream, name.copy());
        Ok(PowerRes { name, system_level, resource_order, term_list })
    }

    pub fn get_name(&self) -> (r: &NameString)
        ensures
            *r == self.spec_name(),
    {
        &self.name
    }
}

impl Device {
    pub closed spec fn spec_name(&self) -> NameString {
        self.device_name
    }

    pub closed spec fn spec_term_list(&self) -> TermList {
        self.term_list
    }

    /// Reads the package after `DeviceOp`: the device's name and its terms.
    pub fn parse(stream: &mut AmlStream, current_scope: &NameString) -> (r: Result<Self, AmlError>)
        requires
            old(stream).wf(),
        ensures
            named_list_outcome(
                old(stream),
                final(stream),
                current_scope,
                match r {
                    Ok(d) => Ok((d.spec_name(), d.spec_term_list())),
                    Err(e) => Err(e),
                },
            ),
            r is Ok ==> final(stream).pos() > old(stream).pos(),
            named_list_matches(
                old(stream).bytes(),
                spec_named_list(
                    old(stream).bytes(),
                    old(stream).pos(),
                    old(stream).end(),
                    (current_scope.segs(), current_scope.spec_flag()),
                ),
                match r {
                    Ok(d) => Ok((d.spec_name(), d.spec_term_list())),
                    Err(e) => Err(e),
                },
                final(stream).pos(),
            ),
    {
        let (device_name, term_list) = parse_named_term_list(stream, current_scope)?;
        Ok(Device { device_name, term_list })
    }

    pub fn get_name(&self) -> (r: &NameString)
        ensures
            *r == self.spec_name(),
    {
        &self.device_name
    }

    pub fn get_term_list(&self) -> (r: &TermList)
        ensures
            *r == self.spec_term_list(),
    {
        &self.term_list
    }
}

/// The method definition read at `p` in the window ending at `end`, where
/// one reads (names relative to the scope with segments and kind `scope`):
/// its name's segments and kind, its flags, the start of its body, and the
/// end of its package (see `method_outcome`).
pub open spec fn method_read(s: Seq<u8>, p: int, end: int, scope: (Seq<[u8; 4]>, NameStringFlag)) -> Option<
    (Seq<[u8; 4]>, NameStringFlag, u8, int, int),
> {
    match spec_window(s, p, end) {
        WindowParse::Done(start, len) => match spec_parse_name(s, start, start + len, Some(scope)) {
            NameParse::Done(q, segs, flag) => if q < start + len {
                Some((segs, flag, s[q], q + 1, start + len))
            } else {
                None
            },
            _ => None,
        },
        WindowParse::OutOfRange => None,
    }
}

/// What reading a `Method` at `p` in the window ending at `end` gives as
/// `r`, with the stream then at `after`.
pub open spec fn method_outcome(
    s: Seq<u8>,
    p: int,
    end: int,
    current_scope: &NameString,
    r: Result<Method, AmlError>,
    after: int,
) -> bool {
    match spec_window(s, p, end) {
        WindowParse::OutOfRange => (r matches Err(e) && e is AccessOutOfRange),
        WindowParse::Done(start, len) => after == start + len && match spec_parse_name(
            s,
            start,
            start + len,
            Some((current_scope.segs(), current_scope.spec_flag())),
        ) {
            NameParse::Done(q, segs, flag) => if q < start + len {
                (r matches Ok(m) && m.spec_name().segs() == segs && m.spec_name().spec_flag() == flag
                    && m.spec_flags() == s[q] && is_window(
                    &m.spec_term_list().window(),
                    s,
                    q + 1,
                    start + len - q - 1,
                ) && m.spec_term_list().scope().same(&m.spec_name()))
            } else {
                (r matches Err(e) && e is AccessOutOfRange)
            },
            NameParse::OutOfRange => (r matches Err(e) && e is AccessOutOfRange),
            NameParse::BadChar => (r matches Err(e) && e is InvalidType),
        },
    }
}

impl ThermalZone {
    pub closed spec fn spec_name(&self) -> NameString {
        self.name
    }

    pub closed spec fn spec_term_list(&self) -> TermList {
        self.term_list
    }

    /// Reads the package after `ThermalZoneOp`: the zone's name and its terms.
    pub fn parse(stream: &mut AmlStream, current_scope: &NameString) -> (r: Result<Self, AmlError>)
        requires
            old(stream).wf(),
        ensures
            named_list_outcome(
                old(stream),
                final(stream),
                current_scope,
                match r {
                    Ok(d) => Ok((d.spec_name(), d.spec_term_list())),
                    Err(e) => Err(e),
                },
            ),
            r is Ok ==> final(stream).pos() > old(stream).pos(),
    {
        let (name, term_list) = parse_named_term_list(stream, current_scope)?;
        Ok(ThermalZone { name, term_list })
    }

    pub fn get_name(&self) -> (r: &NameString)
        ensures
            *r == self.spec_name(),
    {
        &self.name
    }
}

/// What reading a `Field` at `p` in the window ending at `end` gives as
/// `r`, with the stream then at `after`.
pub open spec fn field_outcome(
    s: Seq<u8>,
    p: int,
    end: int,
    current_scope: &NameString,
    r: Result<Field, AmlError>,
    after: int,
) -> bool {
    match spec_window(s, p, end) {
        WindowParse::OutOfRange => r matches Err(e) && e is AccessOutOfRange,
        WindowParse::Done(start, len) => after == start + len && match parsed_name(
            s,
            start,
            start + len,
            current_scope,
        ) {
            NameParse::Done(q, segs, flag) => if q < start + len {
                r matches Ok(f) && is_name(f.spec_region_name(), segs, flag) && f.spec_flags() == s[q]
                    && is_window(&f.spec_field_list().window(), s, q + 1, start + len - q - 1)
            } else {
                r matches Err(e) && e is AccessOutOfRange
            },
            np => name_error(np, r),
        },
    }
}

impl Method {
    pub closed spec fn spec_name(&self) -> NameString {
        self.name
    }

    pub closed spec fn spec_flags(&self) -> u8 {
        self.method_flags
    }

    pub closed spec fn spec_term_list(&self) -> TermList {
        self.term_list
    }

    /// Reads the package after `MethodOp`: name, flags, then the body.
    pub fn parse(stream: &mut AmlStream, current_scope: &NameString) -> (r: Result<Self, AmlError>)
        requires
            old(stream).wf(),
        ensures
            old(stream).moved_to(final(stream)),
            r is Ok ==> final(stream).pos() > old(stream).pos(),
            method_outcome(old(stream).bytes(), old(stream).pos(), old(stream).end(), current_scope, r, final(stream).pos()),
    {
        let mut method_stream = open_package(stream)?;
        let name = NameString::parse(&mut method_stream, Some(current_scope))?;
        let method_flags = method_stream.read_byte()?;
        let term_list = TermList::new(method_stream, name.copy());
        Ok(Method { name, method_flags, term_list })
    }

    pub fn get_name(&self) -> (r: &NameString)
        ensures
            *r == self.spec_name(),
    {
        &self.name
    }

    /// The number of arguments: the low three bits of the flags.
    pub fn get_argument_count(&self) -> (r: usize)
        ensures
            r == self.spec_flags() % 8,
    {
        (self.method_flags % 8) as usize
    }

    pub fn get_term_list(&self) -> (r: &TermList)
        ensures
            *r == self.spec_term_list(),
    {
        &self.term_list
    }

    /// A copy: the same name, flags and body.
    pub fn copy(&self) -> (r: Self)
        ensures
            r.spec_name().same(&self.spec_name()),
            r.spec_flags() == self.spec_flags(),
            r.spec_term_list().window().same_as(&self.spec_term_list().window()),
    {
        Method { name: self.name.copy(), method_flags: self.method_flags, term_list: self.term_list.clone() }
    }
}

/// What reading a `IndexField` at `p` in the window ending at `end` gives as
/// `r`, with the stream then at `after`.
pub open spec fn index_field_outcome(
    s: Seq<u8>,
    p: int,
    end: int,
    current_scope: &NameString,
    r: Result<IndexField, AmlError>,
    after: int,
) -> bool {
    match spec_window(s, p, end) {
        WindowParse::OutOfRange => r matches Err(e) && e is AccessOutOfRange,
        WindowParse::Done(start, len) => after == start + len && match parsed_name(
            s,
            start,
            start + len,
            current_scope,
        ) {
            NameParse::Done(q1, segs1, flag1) => match parsed_name(s, q1, start + len, current_scope) {
                NameParse::Done(q, segs, flag) => if q < start + len {
                    r matches Ok(f) && is_name(f.spec_index_register(), segs1, flag1) && is_name(
                        f.spec_data_register(),
                        segs,
                        flag,
                    ) && f.spec_flags() == s[q] && f.spec_field_list().scope().same(current_scope)
                        && is_window(&f.spec_field_list().window(), s, q + 1, start + len - q - 1)
                } else {
                    r matches Err(e) && e is AccessOutOfRange
                },
                np => name_error(np, r),
            },
            np => name_error(np, r),
        },
    }
}

impl Field {
    pub closed spec fn spec_region_name(&self) -> NameString {
        self.region_name
    }

    pub closed spec fn spec_flags(&self) -> u8 {
        self.field_flags
    }

    pub closed spec fn spec_field_list(&self) -> FieldList {
        self.field_list
    }

    /// Reads the package after `FieldOp`: the region's name, the flags and
    /// the field list.
    pub fn parse(stream: &mut AmlStream, current_scope: &NameString) -> (r: Result<Self, AmlError>)
        requires
            old(stream).wf(),
        ensures
            old(stream).moved_to(final(stream)),
            r is Ok ==> final(stream).pos() > old(stream).pos(),
            r matches Ok(f) ==> f.spec_field_list().scope().same(current_scope),
            field_outcome(old(stream).bytes(), old(stream).pos(), old(stream).end(), current_scope, r, final(stream).pos()),
    {
        let mut field_stream = open_package(stream)?;
        let region_name = NameString::parse(&mut field_stream, Some(current_scope))?;
        let field_flags = field_stream.read_byte()?;
        let field_list = FieldList::new(field_stream, current_scope)?;
        Ok(Field { region_name, field_flags, field_list })
    }

    pub fn get_source_region_name(&self) -> (r: &NameString)
        ensures
            *r == self.spec_region_name(),
    {
        &self.region_name
    }

    /// The access size in bytes that the flags select (see `spec_access_size`).
    pub fn convert_to_access_size(flags: u8) -> (r: usize)
        ensures
            r == spec_access_size(flags),
    {
        let t = flags % 8;
        if t == 1 {
            1
        } else if t == 2 {
            2
        } else if t == 3 {
            4
        } else if t == 4 {
            8
        } else {
            0
        }
    }

    pub fn get_access_size(&self) -> (r: usize)
        ensures
            r == spec_access_size(self.spec_flags()),
    {
        Self::convert_to_access_size(self.field_flags)
    }

    /// Whether bit 4 of the flags asks for the global lock.
    pub fn should_lock(&self) -> (r: bool)
        ensures
            r == ((self.spec_flags() / 16) % 2 == 1),
    {
        (self.field_flags / 16) % 2 == 1
    }

    /// Bits 5 and 6 of the flags.
    pub fn get_update_rule(&self) -> (r: u8)
        ensures
            r == (self.spec_flags() / 32) % 4,
    {
        (self.field_flags / 32) % 4
    }

    pub fn get_field_list(&self) -> (r: &FieldList)
        ensures
            *r == self.spec_field_list(),
    {
        &self.field_list
    }
}

impl IndexField {
    pub closed spec fn spec_index_register(&self) -> NameString {
        self.index_register_name
    }

    pub closed spec fn spec_data_register(&self) -> NameString {
        self.data_register_name
    }

    pub closed spec fn spec_flags(&self) -> u8 {
        self.field_flags
    }

    pub closed spec fn spec_field_list(&self) -> FieldList {
        self.field_list
    }

    /// Reads the package after `IndexFieldOp`: the index and data registers,
    /// the flags and the field list.
    pub fn parse(stream: &mut AmlStream, current_scope: &NameString) -> (r: Result<Self, AmlError>)
        requires
            old(stream).wf(),
        ensures
            old(stream).moved_to(final(stream)),
            r is Ok ==> final(stream).pos() > old(stream).pos(),
            index_field_outcome(old(stream).bytes(), old(stream).pos(), old(stream).end(), current_scope, r, final(stream).pos()),
    {
        let mut index_field_stream = open_package(stream)?;
        let index_register_name = NameString::parse(&mut index_field_stream, Some(current_scope))?;
        let data_register_name = NameString::parse(&mut index_field_stream, Some(current_scope))?;
        let field_flags = index_field_stream.read_byte()?;
        let field_list = FieldList::new(index_field_stream, current_scope)?;
        Ok(IndexField { index_register_name, data_register_name, field_flags, field_list })
    }

    pub fn get_index_register(&self) -> (r: &NameString)
        ensures
            *r == self.spec_index_register(),
    {
        &self.index_register_name
    }

    pub fn get_data_register(&self) -> (r: &NameString)
        ensures
            *r == self.spec_data_register(),
    {
        &self.data_register_name
    }

    pub fn get_access_size(&self) -> (r: usize)
        ensures
            r == spec_access_size(self.spec_flags()),
    {
        Field::convert_to_access_size(self.field_flags)
    }

    pub fn should_lock(&self) -> (r: bool)
        ensures
            r == ((self.spec_flags() / 16) % 2 == 1),
    {
        (self.field_flags / 16) % 2 == 1
    }

    pub fn get_field_list(&self) -> (r: &FieldList)
        ensures
            *r == self.spec_field_list(),
    {
        &self.field_list
    }
}

/// The named object an opcode selects, by its first byte and (after
/// `ExtOpPrefix`) its second.
pub enum NamedKind {
    BankField,
    CreateField(CreateFieldType),
    DataRegion,
    Device,
    Mutex,
    Field,
    IndexField,
    Event,
    OpRegion,
    PowerRes,
    ThermalZone,
    External,
    Method,
    NoObject,
}

pub open spec fn named_kind(b0: u8, b1: u8) -> NamedKind {
    if b0 == opcode::EXT_OP_PREFIX {
        if b1 == opcode::BANK_FIELD_OP {
            NamedKind::BankField
        } else if b1 == opcode::CREATE_FIELD_OP {
            NamedKind::CreateField(CreateFieldType::Other)
        } else if b1 == opcode::DATA_REGION_OP {
            NamedKind::DataRegion
        } else if b1 == opcode::DEVICE_OP {
            NamedKind::Device
        } else if b1 == opcode::MUTEX_OP {
            NamedKind::Mutex
        } else if b1 == opcode::FIELD_OP {
            NamedKind::Field
        } else if b1 == opcode::INDEX_FIELD_OP {
            NamedKind::IndexField
        } else if b1 == opcode::EVENT_OP {
            NamedKind::Event
        } else if b1 == opcode::OP_REGION_OP {
            NamedKind::OpRegion
        } else if b1 == opcode::POWER_RES_OP {
            NamedKind::PowerRes
        } else if b1 == opcode::THERMAL_ZONE_OP {
            NamedKind::ThermalZone
        } else {
            NamedKind::NoObject
        }
    } else if b0 == opcode::CREATE_BIT_FIELD_OP {
        NamedKind::CreateField(CreateFieldType::Bit)
    } else if b0 == opcode::CREATE_BYTE_FIELD_OP {
        NamedKind::CreateField(CreateFieldType::Byte)
    } else if b0 == opcode::CREATE_WORD_FIELD_OP {
        NamedKind::CreateField(CreateFieldType::Word)
    } else if b0 == opcode::CREATE_DOUBLE_WORD_FIELD_OP {
        NamedKind::CreateField(CreateFieldType::DWord)
    } else if b0 == opcode::CREATE_QUAD_WORD_FIELD_OP {
        NamedKind::CreateField(CreateFieldType::QWord)
    } else if b0 == opcode::EXTERNAL_OP {
        NamedKind::External
    } else if b0 == opcode::METHOD_OP {
        NamedKind::Method
    } else {
        NamedKind::NoObject
    }
}

impl NamedObject {
    pub open spec fn has_kind(&self, k: NamedKind) -> bool {
        match self {
            NamedObject::DefBankField(_) => k is BankField,
            NamedObject::DefCreateField(c) => k == NamedKind::CreateField(c.spec_size()),
            NamedObject::DefDataRegion(_) => k is DataRegion,
            NamedObject::DefDevice(_) => k is Device,
            NamedObject::DefField(_) => k is Field,
            NamedObject::DefEvent(_) => k is Event,
            NamedObject::DefIndexField(_) => k is IndexField,
            NamedObject::DefMethod(_) => k is Method,
            NamedObject::DefMutex(..) => k is Mutex,
            NamedObject::DefExternal(_) => k is External,
            NamedObject::DefOpRegion(_) => k is OpRegion,
            NamedObject::DefPowerRes(_) => k is PowerRes,
            NamedObject::DefThermalZone(_) => k is ThermalZone,
        }
    }

    /// Reads a named object; the opcode (see `named_kind`) selects it, and
    /// an opcode that selects none is `InvalidType` with nothing read.
    pub fn try_parse(stream: &mut AmlStream, current_scope: &NameString, table: &MethodTable) -> (r: Result<
        Self,
        AmlError,
    >)
        requires
            old(stream).wf(),
        ensures
            old(stream).moved_to(final(stream)),
            r is Ok ==> final(stream).pos() > old(stream).pos(),
            ({
                let s = old(stream).bytes();
                let p = old(stream).pos();
                let end = old(stream).end();
                &&& p >= s.len() ==> (r matches Err(e) && e is AccessOutOfRange)
                &&& r matches Ok(x) ==> x.has_kind(named_kind(s[p], s[p + 1]))
                &&& (p < s.len() && s[p] != opcode::EXT_OP_PREFIX && named_kind(s[p], 0) is NoObject) ==> (r matches Err(e)
                    && e is InvalidType && final(stream).same_as(old(stream)))
                &&& (p < end && s[p] == opcode::METHOD_OP) ==> method_outcome(
                    s,
                    p + 1,
                    end,
                    current_scope,
                    match r {
                        Ok(NamedObject::DefMethod(m)) => Ok(m),
                        Ok(_) => Err(AmlError::InvalidType),
                        Err(e) => Err(e),
                    },
                    final(stream).pos(),
                )
                &&& (p + 2 <= end && s[p] == opcode::EXT_OP_PREFIX && s[p + 1] == opcode::FIELD_OP) ==> field_outcome(
                    s,
                    p + 2,
                    end,
                    current_scope,
                    match r {
                        Ok(NamedObject::DefField(f)) => Ok(f),
                        Ok(_) => Err(AmlError::InvalidType),
                        Err(e) => Err(e),
                    },
                    final(stream).pos(),
                )
                &&& (p + 2 <= end && s[p] == opcode::EXT_OP_PREFIX && s[p + 1] == opcode::INDEX_FIELD_OP)
                    ==> index_field_outcome(
                    s,
                    p + 2,
                    end,
                    current_scope,
                    match r {
                        Ok(NamedObject::DefIndexField(f)) => Ok(f),
                        Ok(_) => Err(AmlError::InvalidType),
                        Err(e) => Err(e),
                    },
                    final(stream).pos(),
                )
                &&& (p + 2 <= end && s[p] == opcode::EXT_OP_PREFIX && s[p + 1] == opcode::BANK_FIELD_OP)
                    ==> bank_field_outcome(
                    s,
                    p + 2,
                    end,
                    current_scope,
                    match r {
                        Ok(NamedObject::DefBankField(f)) => Ok(f),
                        Ok(_) => Err(AmlError::InvalidType),
                        Err(e) => Err(e),
                    },
                    final(stream).pos(),
                )
                &&& (p + 2 <= end && s[p] == opcode::EXT_OP_PREFIX && s[p + 1] == opcode::DEVICE_OP) ==> named_list_matches(
                    s,
                    spec_named_list(s, p + 2, end, (current_scope.segs(), current_scope.spec_flag())),
                    match r {
                        Ok(NamedObject::DefDevice(d)) => Ok((d.spec_name(), d.spec_term_list())),
                        Ok(_) => Err(AmlError::InvalidType),
                        Err(e) => Err(e),
                    },
                    final(stream).pos(),
                )
                &&& (p + 2 <= end && s[p] == opcode::EXT_OP_PREFIX && s[p + 1] == opcode::MUTEX_OP) ==> match parsed_name(
                    s,
                    p + 2,
                    end,
                    current_scope,
                ) {
                    NameParse::Done(q, segs, flag) => if q < end {
                        r matches Ok(NamedObject::DefMutex(n, sync)) && is_name(n, segs, flag) && sync == s[q]
                            && final(stream).pos() == q + 1
                    } else {
                        r matches Err(e) && e is AccessOutOfRange
                    },
                    np => name_error(np, r),
                }
                &&& (p + 2 <= end && s[p] == opcode::EXT_OP_PREFIX && s[p + 1] == opcode::EVENT_OP) ==> match parsed_name(
                    s,
                    p + 2,
                    end,
                    current_scope,
                ) {
                    NameParse::Done(q, segs, flag) => r matches Ok(NamedObject::DefEvent(n)) && is_name(n, segs, flag)
                        && final(stream).pos() == q,
                    np => name_error(np, r),
                }
                &&& (p + 2 <= end && s[p] == opcode::EXT_OP_PREFIX && s[p + 1] == opcode::POWER_RES_OP)
                    ==> power_res_outcome(
                    s,
                    p + 2,
                    end,
                    current_scope,
                    match r {
                        Ok(NamedObject::DefPowerRes(x)) => Ok(x),
                        Ok(_) => Err(AmlError::InvalidType),
                        Err(e) => Err(e),
                    },
                    final(stream).pos(),
                )
            }),
    {
        let first_byte = stream.peek_byte()?;
        if first_byte == opcode::EXT_OP_PREFIX {
            let second = stream.peek_byte_with_pos(1)?;
            if second == opcode::BANK_FIELD_OP {
                stream.seek(2)?;
                Ok(NamedObject::DefBankField(BankField::parse(stream, current_scope, table)?))
            } else if second == opcode::CREATE_FIELD_OP {
                stream.seek(2)?;
                Ok(NamedObject::DefCreateField(CreateField::parse(stream, current_scope, CreateFieldType::Other, table)?))
            } else if second == opcode::DATA_REGION_OP {
                stream.seek(2)?;
                Ok(NamedObject::DefDataRegion(DataRegion::parse(stream, current_scope, table)?))
            } else if second == opcode::DEVICE_OP {
                stream.seek(2)?;
                Ok(NamedObject::DefDevice(Device::parse(stream, current_scope)?))
            } else if second == opcode::MUTEX_OP {
                stream.seek(2)?;
                let name = NameString::parse(stream, Some(current_scope))?;
                let flags = stream.read_byte()?;
                Ok(NamedObject::DefMutex(name, flags))
            } else if second == opcode::FIELD_OP {
                stream.seek(2)?;
                Ok(NamedObject::DefField(Field::parse(stream, current_scope)?))
            } else if second == opcode::INDEX_FIELD_OP {
                stream.seek(2)?;
                Ok(NamedObject::DefIndexField(IndexField::parse(stream, current_scope)?))
            } else if second == opcode::EVENT_OP {
                stream.seek(2)?;
                Ok(NamedObject::DefEvent(NameString::parse(stream, Some(current_scope))?))
            } else if second == opcode::OP_REGION_OP {
                stream.seek(2)?;
                Ok(NamedObject::DefOpRegion(OpRegion::parse(stream, current_scope, table)?))
            } else if second == opcode::POWER_RES_OP {
                stream.seek(2)?;
                Ok(NamedObject::DefPowerRes(PowerRes::parse(stream, current_scope)?))
            } else if second == opcode::THERMAL_ZONE_OP {
                stream.seek(2)?;
                Ok(NamedObject::DefThermalZone(ThermalZone::parse(stream, current_scope)?))
            } else {
                Err(AmlError::InvalidType)
            }
        } else if first_byte == opcode::CREATE_BIT_FIELD_OP {
            stream.seek(1)?;
            Ok(NamedObject::DefCreateField(CreateField::parse(stream, current_scope, CreateFieldType::Bit, table)?))
        } else if first_byte == opcode::CREATE_BYTE_FIELD_OP {
            stream.seek(1)?;
            Ok(NamedObject::DefCreateField(CreateField::parse(stream, current_scope, CreateFieldType::Byte, table)?))
        } else if first_byte == opcode::CREATE_WORD_FIELD_OP {
            stream.seek(1)?;
            Ok(NamedObject::DefCreateField(CreateField::parse(stream, current_scope, CreateFieldType::Word, table)?))
        } else if first_byte == opcode::CREATE_DOUBLE_WORD_FIELD_OP {
            stream.seek(1)?;
            Ok(NamedObject::DefCreateField(CreateField::parse(stream, current_scope, CreateFieldType::DWord, table)?))
        } else if first_byte == opcode::CREATE_QUAD_WORD_FIELD_OP {
            stream.seek(1)?;
            Ok(NamedObject::DefCreateField(CreateField::parse(stream, current_scope, CreateFieldType::QWord, table)?))
        } else if first_byte == opcode::EXTERNAL_OP {
            stream.seek(1)?;
            Ok(NamedObject::DefExternal(External::parse(stream, current_scope)?))
        } else if first_byte == opcode::METHOD_OP {
            stream.seek(1)?;
            Ok(NamedObject::DefMethod(Method::parse(stream, current_scope)?))
        } else {
            Err(AmlError::InvalidType)
        }
    }

    /// The name the object defines; fields define the names in their lists.
    pub fn get_name(&self) -> (r: Option<&NameString>)
        ensures
            r == match self {
                NamedObject::DefCreateField(c) => Some(&c.spec_name()),
                NamedObject::DefMethod(m) => Some(&m.spec_name()),
                NamedObject::DefMutex(n, _) => Some(n),
                NamedObject::DefDataRegion(d) => Some(&d.spec_name()),
                NamedObject::DefExternal(d) => Some(&d.spec_name()),
                NamedObject::DefThermalZone(z) => Some(&z.spec_name()),
                NamedObject::DefPowerRes(p) => Some(&p.spec_name()),
                NamedObject::DefOpRegion(o) => Some(&o.spec_name()),
                NamedObject::DefDevice(d) => Some(&d.spec_name()),
                NamedObject::DefEvent(n) => Some(n),
                _ => None,
            },
    {
        match self {
            NamedObject::DefCreateField(c) => Some(c.get_name()),
            NamedObject::DefMethod(m) => Some(m.get_name()),
            NamedObject::DefMutex(n, _) => Some(n),
            NamedObject::DefDataRegion(d) => Some(d.get_name()),
            NamedObject::DefExternal(d) => Some(d.get_name()),
            NamedObject::DefThermalZone(z) => Some(z.get_name()),
            NamedObject::DefPowerRes(p) => Some(p.get_name()),
            NamedObject::DefOpRegion(o) => Some(o.get_name()),
            NamedObject::DefDevice(d) => Some(d.get_name()),
            NamedObject::DefEvent(n) => Some(n),
            NamedObject::DefBankField(_) => None,
            NamedObject::DefField(_) => None,
            NamedObject::DefIndexField(_) => None,
        }
    }

    /// The argument count of a method or an external object; zero otherwise.
    pub fn get_argument_count(&self) -> (r: Option<usize>)
        ensures
            r == Some(
                match self {
                    NamedObject::DefMethod(m) => (m.spec_flags() % 8) as usize,
                    NamedObject::DefExternal(e) => e.spec_argument_count() as usize,
                    _ => 0usize,
                },
            ),
    {
        match self {
            NamedObject::DefMethod(m) => Some(m.get_argument_count()),
            NamedObject::DefExternal(e) => Some(e.get_argument_count()),
            _ => Some(0),
        }
    }

    /// A copy of the field list of a field object.
    pub fn get_field_list(&self) -> (r: Option<FieldList>)
        ensures
            r is Some <==> (self is DefBankField || self is DefField || self is DefIndexField),
            r matches Some(l) ==> match self {
                NamedObject::DefField(f) => l.window().same_as(&f.spec_field_list().window()),
                NamedObject::DefIndexField(f) => l.window().same_as(&f.spec_field_list().window()),
                _ => true,
            },
    {
        match self {
            NamedObject::DefBankField(b_f) => Some(b_f.field_list.clone()),
            NamedObject::DefField(d_f) => Some(d_f.field_list.clone()),
            NamedObject::DefIndexField(d_i) => Some(d_i.field_list.clone()),
            _ => None,
        }
    }

    /// A copy of the term list of a device, method, power resource or thermal zone.
    pub fn get_term_list(&self) -> (r: Option<TermList>)
        ensures
            r is Some <==> (self is DefDevice || self is DefMethod || self is DefPowerRes || self is DefThermalZone),
            r matches Some(t) ==> match self {
                NamedObject::DefDevice(d) => t.window().same_as(&d.spec_term_list().window())
                    && t.scope().same(&d.spec_term_list().scope()),
                NamedObject::DefMethod(d) => t.window().same_as(&d.spec_term_list().window())
                    && t.scope().same(&d.spec_term_list().scope()),
                NamedObject::DefPowerRes(d) => t.window().same_as(&d.spec_term_list().window()),
                NamedObject::DefThermalZone(d) => t.window().same_as(&d.spec_term_list().window()),
                _ => true,
            },
    {
        match self {
            NamedObject::DefDevice(d_d) => Some(d_d.term_list.clone()),
            NamedObject::DefMethod(d_m) => Some(d_m.term_list.clone()),
            NamedObject::DefPowerRes(d_p) => Some(d_p.term_list.clone()),
            NamedObject::DefThermalZone(d_t) => Some(d_t.term_list.clone()),
            _ => None,
        }
    }
}

/// The element `next` reads at `p`.
pub enum FieldKind {
    Reserved,
    Access,
    Connect,
    ExtendedAccess,
    Named,
}

pub open spec fn field_kind(b: u8) -> FieldKind {
    if b == 0 {
        FieldKind::Reserved
    } else if b == 1 {
        FieldKind::Access
    } else if b == 2 {
        FieldKind::Connect
    } else if b == 3 {
        FieldKind::ExtendedAccess
    } else {
        FieldKind::Named
    }
}

/// What reading one element of a field list at `p`, in the window ending at
/// `end` and in the scope with segments and kind `scope`, gives: the end of
/// the list, a failure, or the element's contents and the position after it.
pub enum ElementStep {
    End,
    Fail(AmlError),
    Reserved(int, int),
    Access(u8, u8, int),
    Connect(Seq<[u8; 4]>, NameStringFlag, int),
    ExtendedAccess(u8, u8, u8, int),
    Named(Seq<[u8; 4]>, NameStringFlag, int, int),
}

pub open spec fn spec_field_step(s: Seq<u8>, p: int, end: int, scope: (Seq<[u8; 4]>, NameStringFlag)) -> ElementStep {
    if p >= end {
        ElementStep::End
    } else {
        match field_kind(s[p]) {
            FieldKind::Reserved => match spec_pkg_length(s, p + 1, end) {
                PkgParse::Done(q, len, _) => ElementStep::Reserved(len, q),
                PkgParse::OutOfRange => ElementStep::Fail(AmlError::AccessOutOfRange),
            },
            FieldKind::Access => if p + 3 <= end {
                ElementStep::Access(s[p + 1], s[p + 2], p + 3)
            } else {
                ElementStep::Fail(AmlError::AccessOutOfRange)
            },
            FieldKind::Connect => match spec_parse_name(s, p + 1, end, Some(scope)) {
                NameParse::Done(q, segs, flag) => ElementStep::Connect(segs, flag, q),
                _ => ElementStep::Fail(AmlError::UnsupportedType),
            },
            FieldKind::ExtendedAccess => if p + 4 <= end {
                ElementStep::ExtendedAccess(s[p + 1], s[p + 2], s[p + 3], p + 4)
            } else {
                ElementStep::Fail(AmlError::AccessOutOfRange)
            },
            FieldKind::Named => match spec_parse_name(s, p, end, Some(scope)) {
                NameParse::Done(q, segs, flag) => match spec_pkg_length(s, q, end) {
                    PkgParse::Done(q2, len, _) => ElementStep::Named(segs, flag, len, q2),
                    PkgParse::OutOfRange => ElementStep::Fail(AmlError::AccessOutOfRange),
                },
                _ => ElementStep::Fail(AmlError::InvalidType),
            },
        }
    }
}

/// `r` and `after` are what reading `step` gives.
pub open spec fn field_step_outcome(step: ElementStep, r: Result<Option<FieldElement>, AmlError>, after: int) -> bool {
    match step {
        ElementStep::End => r matches Ok(None),
        ElementStep::Fail(e) => r == Err::<Option<FieldElement>, AmlError>(e),
        ElementStep::Reserved(len, q) => r matches Ok(Some(FieldElement::ReservedField(l))) && l.length == len
            && after == q,
        ElementStep::Access(t, a, q) => r == Ok::<Option<FieldElement>, AmlError>(
            Some(FieldElement::AccessField(t, a)),
        ) && after == q,
        ElementStep::Connect(segs, flag, q) => r matches Ok(Some(FieldElement::ConnectField(n))) && n.segs() == segs
            && n.spec_flag() == flag && after == q,
        ElementStep::ExtendedAccess(t, a, l, q) => r == Ok::<Option<FieldElement>, AmlError>(
            Some(FieldElement::ExtendedAccessField([t, a, l])),
        ) && after == q,
        ElementStep::Named(segs, flag, len, q) => r matches Ok(Some(FieldElement::NameField(n, l))) && n.segs()
            == segs && n.spec_flag() == flag && l.length == len && after == q,
    }
}

impl FieldList {
    pub closed spec fn window(&self) -> AmlStream {
        self.stream
    }

    pub closed spec fn scope(&self) -> NameString {
        self.current_scope
    }

    pub fn new(stream: AmlStream, current_scope: &NameString) -> (r: Result<Self, AmlError>)
        ensures
            r matches Ok(l) && l.window() == stream && l.scope().same(current_scope),
    {
        Ok(FieldList { stream, current_scope: current_scope.copy() })
    }

    /// Whether the list's window can be read.
    pub fn is_readable(&self) -> (r: bool)
        ensures
            r == self.window().wf(),
    {
        self.stream.is_valid()
    }

    /// Reads the next element; `None` at the end of the list. The first byte
    /// selects a reserved field (0), an access field (1), a connection (2),
    /// an extended access field (3), else a named field.
    pub fn next(&mut self) -> (r: Result<Option<FieldElement>, AmlError>)
        requires
            old(self).window().wf(),
        ensures
            old(self).window().moved_to(&final(self).window()),
            final(self).scope() == old(self).scope(),
            old(self).window().rem() == 0 <==> r matches Ok(None),
            r matches Ok(Some(_)) ==> final(self).window().pos() > old(self).window().pos(),
            ({
                let w = old(self).window();
                let s = w.bytes();
                let p = w.pos();
                r matches Ok(Some(e)) ==> match field_kind(s[p]) {
                    FieldKind::Reserved => e is ReservedField,
                    FieldKind::Access => e == FieldElement::AccessField(s[p + 1], s[p + 2])
                        && final(self).window().pos() == p + 3,
                    FieldKind::Connect => e is ConnectField,
                    FieldKind::ExtendedAccess => e == FieldElement::ExtendedAccessField(
                        [s[p + 1], s[p + 2], s[p + 3]],
                    ) && final(self).window().pos() == p + 4,
                    FieldKind::Named => e is NameField,
                }
            }),
            field_step_outcome(
                spec_field_step(
                    old(self).window().bytes(),
                    old(self).window().pos(),
                    old(self).window().end(),
                    (old(self).scope().segs(), old(self).scope().spec_flag()),
                ),
                r,
                final(self).window().pos(),
            ),
    {
        if self.stream.is_end_of_stream() {
            return Ok(None);
        }
        let b = self.stream.peek_byte()?;
        if b == 0 {
            self.stream.seek(1)?;
            Ok(Some(FieldElement::ReservedField(PkgLength::parse(&mut self.stream)?)))
        } else if b == 1 {
            self.stream.seek(1)?;
            let access_type = self.stream.read_byte()?;
            let access_attribute = self.stream.read_byte()?;
            Ok(Some(FieldElement::AccessField(access_type, access_attribute)))
        } else if b == 2 {
            self.stream.seek(1)?;
            match NameString::parse(&mut self.stream, Some(&self.current_scope)) {
                Ok(n) => Ok(Some(FieldElement::ConnectField(n))),
                Err(_) => Err(AmlError::UnsupportedType),
            }
        } else if b == 3 {
            self.stream.seek(1)?;
            let access_type = self.stream.read_byte()?;
            let extended_access_attribute = self.stream.read_byte()?;
            let access_length = self.stream.read_byte()?;
            Ok(Some(FieldElement::ExtendedAccessField([access_type, extended_access_attribute, access_length])))
        } else {
            let name = match NameString::parse(&mut self.stream, Some(&self.current_scope)) {
                Ok(n) => n,
                Err(_) => {
                    return Err(AmlError::InvalidType);
                },
            };
            let pkg_length = PkgLength::parse(&mut self.stream)?;
            Ok(Some(FieldElement::NameField(name, pkg_length)))
        }
    }
}

} // verus!
