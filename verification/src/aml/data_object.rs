//! AML data objects: package lengths, constants, strings, buffers, packages
//! and the integers written in ASCII.
use vstd::prelude::*;
use super::AmlError;
use super::expression_opcode::{ByteList, Package, VarPackage};
use super::name_object::NameString;
use super::opcode;
use super::stream::{AmlStream, le_value};

verus! {

/// The length of a package and the length of what follows its encoding.
#[derive(Clone, Copy, Debug)]
pub struct PkgLength {
    pub length: usize,
    pub actual_length: usize,
}

#[derive(Debug, Copy, Clone, PartialEq, Eq, Structural)]
pub enum ConstData {
    Byte(u8),
    Word(u16),
    DWord(u32),
    QWord(u64),
}

#[derive(Debug, Clone)]
pub enum ComputationalData {
    ConstData(ConstData),
    StringData(String),
    ConstObj(u8),
    Revision,
    DefBuffer(ByteList),
}

#[derive(Debug, Clone)]
pub enum PackageElement {
    DataRefObject(DataRefObject),
    NameString(NameString),
}

#[derive(Debug, Clone)]
pub enum DataObject {
    ComputationalData(ComputationalData),
    DefPackage(Package),
    DefVarPackage(VarPackage),
}

#[derive(Debug, Clone)]
pub enum DataRefObject {
    DataObject(DataObject),
    ObjectReference(usize),
}

pub const BYTE_PREFIX: u8 = 0x0A;

pub const WORD_PREFIX: u8 = 0x0B;

pub const DWORD_PREFIX: u8 = 0x0C;

pub const QWORD_PREFIX: u8 = 0x0E;

pub const STRING_PREFIX: u8 = 0x0D;

pub const NULL_CHAR: u8 = 0x00;

/// The outcome of reading a package length at `p`: the position after it,
/// the length, and the length of what follows the encoding.
pub enum PkgParse {
    Done(int, int, int),
    OutOfRange,
}

pub open spec fn spec_pkg_length(s: Seq<u8>, p: int, end: int) -> PkgParse {
    if p >= end {
        PkgParse::OutOfRange
    } else {
        let lead = s[p];
        let count = lead / 64;
        if count == 0 {
            if lead == 0 {
                PkgParse::OutOfRange
            } else {
                PkgParse::Done(p + 1, lead as int, lead - 1)
            }
        } else if p + count >= end {
            PkgParse::OutOfRange
        } else {
            let v1 = lead % 16 + 16 * s[p + 1];
            let v2 = if count > 1 { v1 + 4096 * s[p + 2] } else { v1 };
            let v3 = if count > 2 { v2 + 1048576 * s[p + 3] } else { v2 };
            if v3 < count + 1 {
                PkgParse::OutOfRange
            } else {
                PkgParse::Done(p + 1 + count, v3, v3 - count - 1)
            }
        }
    }
}

/// The outcome of reading a package length at `p` and taking the window of
/// `actual_length` bytes after it: the window's start and length.
pub enum WindowParse {
    Done(int, int),
    OutOfRange,
}

pub open spec fn spec_window(s: Seq<u8>, p: int, end: int) -> WindowParse {
    match spec_pkg_length(s, p, end) {
        PkgParse::Done(q, _, actual) => if q + actual > end {
            WindowParse::OutOfRange
        } else {
            WindowParse::Done(q, actual)
        },
        PkgParse::OutOfRange => WindowParse::OutOfRange,
    }
}

/// `w` reads the bytes `s` from `start` for `len` bytes.
pub open spec fn is_window(w: &AmlStream, s: Seq<u8>, start: int, len: int) -> bool {
    &&& w.wf()
    &&& w.bytes() == s
    &&& w.pos() == start
    &&& w.end() == start + len
}

/// Reads a package length and splits `stream` at the end of the package: the
/// returned stream reads the package's contents and `stream` moves past them.
pub fn split_package(stream: &mut AmlStream) -> (r: Result<AmlStream, AmlError>)
    requires
        old(stream).wf(),
    ensures
        final(stream).wf(),
        old(stream).same_window(final(stream)),
        match spec_window(old(stream).bytes(), old(stream).pos(), old(stream).end()) {
            WindowParse::Done(start, len) => r matches Ok(w) && is_window(&w, old(stream).bytes(), start, len)
                && final(stream).pos() == start + len,
            WindowParse::OutOfRange => r matches Err(e) && e is AccessOutOfRange,
        },
{
    let pkg_length = PkgLength::parse(stream)?;
    let mut inner = stream.copy();
    stream.seek(pkg_length.actual_length)?;
    let _ = inner.change_size(pkg_length.actual_length);
    Ok(inner)
}

impl PkgLength {
    /// Reads a package length. A length too small to hold its own encoding
    /// is refused as out of range.
    pub fn parse(stream: &mut AmlStream) -> (r: Result<Self, AmlError>)
        requires
            old(stream).wf(),
        ensures
            final(stream).wf(),
            old(stream).same_window(final(stream)),
            match spec_pkg_length(old(stream).bytes(), old(stream).pos(), old(stream).end()) {
                PkgParse::Done(p, len, actual) => r matches Ok(l) && l.length == len
                    && l.actual_length == actual && final(stream).pos() == p,
                PkgParse::OutOfRange => r matches Err(e) && e is AccessOutOfRange,
            },
    {
        let ghost s = stream.bytes();
        let ghost p = stream.pos();
        let pkg_lead_byte = stream.read_byte()?;
        let byte_data_count = pkg_lead_byte / 64;
        if byte_data_count == 0 {
            if pkg_lead_byte == 0 {
                return Err(AmlError::AccessOutOfRange);
            }
            Ok(PkgLength { length: pkg_lead_byte as usize, actual_length: pkg_lead_byte as usize - 1 })
        } else {
            let b1 = stream.read_byte()?;
            let mut result: usize = (pkg_lead_byte % 16) as usize + 16 * (b1 as usize);
            if byte_data_count > 1 {
                let b2 = stream.read_byte()?;
                result = result + 4096 * (b2 as usize);
            }
            if byte_data_count > 2 {
                let b3 = stream.read_byte()?;
                result = result + 1048576 * (b3 as usize);
            }
            if result < byte_data_count as usize + 1 {
                return Err(AmlError::AccessOutOfRange);
            }
            Ok(PkgLength { length: result, actual_length: result - byte_data_count as usize - 1 })
        }
    }
}

impl ConstData {
    /// The value as an integer of the machine's width.
    pub open spec fn spec_value(&self) -> int {
        match self {
            ConstData::Byte(b) => *b as int,
            ConstData::Word(w) => *w as int,
            ConstData::DWord(d) => *d as int,
            ConstData::QWord(q) => *q as int,
        }
    }

    pub open spec fn spec_byte_size(&self) -> usize {
        match self {
            ConstData::Byte(_) => 1,
            ConstData::Word(_) => 2,
            ConstData::DWord(_) => 4,
            ConstData::QWord(_) => 8,
        }
    }

    pub fn to_int(&self) -> (r: usize)
        ensures
            r == self.spec_value() as usize,
    {
        match self {
            ConstData::Byte(b) => *b as usize,
            ConstData::Word(w) => *w as usize,
            ConstData::DWord(d) => *d as usize,
            ConstData::QWord(q) => *q as usize,
        }
    }

    pub fn get_byte_size(&self) -> (r: usize)
        ensures
            r == self.spec_byte_size(),
    {
        match self {
            ConstData::Byte(_) => 1,
            ConstData::Word(_) => 2,
            ConstData::DWord(_) => 4,
            ConstData::QWord(_) => 8,
        }
    }

    /// The narrowest constant of `byte_size` bytes or wider (1, 2, 4 or 8)
    /// that holds `data`.
    pub fn from_usize(data: usize, byte_size: usize) -> (r: Result<Self, AmlError>)
        ensures
            r is Ok <==> (byte_size == 1 || byte_size == 2 || byte_size == 4 || byte_size == 8),
            r matches Err(e) ==> e is InvalidType,
            r matches Ok(c) ==> c == (if byte_size == 1 && data <= 0xFF {
                ConstData::Byte(data as u8)
            } else if byte_size <= 2 && data <= 0xFFFF {
                ConstData::Word(data as u16)
            } else if byte_size <= 4 && data <= 0xFFFF_FFFF {
                ConstData::DWord(data as u32)
            } else {
                ConstData::QWord(data as u64)
            }),
        decreases 8 - byte_size,
    {
        if byte_size == 1 {
            if data > 0xFF {
                Self::from_usize(data, 2)
            } else {
                Ok(ConstData::Byte(data as u8))
            }
        } else if byte_size == 2 {
            if data > 0xFFFF {
                Self::from_usize(data, 4)
            } else {
                Ok(ConstData::Word(data as u16))
            }
        } else if byte_size == 4 {
            if data > 0xFFFF_FFFF {
                Self::from_usize(data, 8)
            } else {
                Ok(ConstData::DWord(data as u32))
            }
        } else if byte_size == 8 {
            Ok(ConstData::QWord(data as u64))
        } else {
            Err(AmlError::InvalidType)
        }
    }
}

/// The position where a string from `p` stops: the first NUL, or the last
/// byte of the window.
pub open spec fn string_stop(s: Seq<u8>, p: int, end: int) -> int
    decreases end - p,
{
    if p >= end - 1 || s[p] == NULL_CHAR {
        p
    } else {
        string_stop(s, p + 1, end)
    }
}

/// Whether every byte is below 0x80.
pub open spec fn bytes_ascii(b: Seq<u8>) -> bool {
    forall|i: int| 0 <= i < b.len() ==> #[trigger] b[i] < 0x80
}

/// The string of `bytes`, when they are UTF-8 (calls `String::from_utf8`,
/// which accepts exactly the UTF-8 byte sequences and decodes them).
#[verifier::external_body]
pub fn utf8_to_string(bytes: Vec<u8>) -> (r: Option<String>)
    ensures
        r is Some <==> vstd::utf8::valid_utf8(bytes@),
        r matches Some(t) ==> t@ == vstd::utf8::decode_utf8(bytes@),
{
    String::from_utf8(bytes).ok()
}

/// The kinds of value `ComputationalData::parse` can give.
pub enum CompKind {
    Const(ConstData),
    Str(Seq<u8>),
    Obj(u8),
    Revision,
    Buffer,
}

/// The outcome of reading computational data at `p`.
pub enum CompParse {
    Done(int, CompKind),
    /// A buffer: the position after it, and the start and length of its bytes.
    BufferDone(int, int, int),
    OutOfRange,
    NotThisType,
    BadString,
}

pub open spec fn spec_computational(s: Seq<u8>, p: int, end: int) -> CompParse {
    if p >= end {
        CompParse::OutOfRange
    } else {
        let op = s[p];
        if op == BYTE_PREFIX {
            if p + 1 >= end {
                CompParse::OutOfRange
            } else {
                CompParse::Done(p + 2, CompKind::Const(ConstData::Byte(s[p + 1])))
            }
        } else if op == WORD_PREFIX {
            if p + 2 >= end {
                CompParse::OutOfRange
            } else {
                CompParse::Done(p + 3, CompKind::Const(ConstData::Word(le_value(s, p + 1, 2) as u16)))
            }
        } else if op == DWORD_PREFIX {
            if p + 4 >= end {
                CompParse::OutOfRange
            } else {
                CompParse::Done(p + 5, CompKind::Const(ConstData::DWord(le_value(s, p + 1, 4) as u32)))
            }
        } else if op == QWORD_PREFIX {
            if p + 8 >= end {
                CompParse::OutOfRange
            } else {
                CompParse::Done(p + 9, CompKind::Const(ConstData::QWord(le_value(s, p + 1, 8) as u64)))
            }
        } else if op == STRING_PREFIX {
            if p + 1 >= end {
                CompParse::OutOfRange
            } else {
                let stop = string_stop(s, p + 1, end);
                let text = s.subrange(p + 1, stop);
                if vstd::utf8::valid_utf8(text) {
                    CompParse::Done(stop + 1, CompKind::Str(text))
                } else {
                    CompParse::BadString
                }
            }
        } else if op == opcode::BUFFER_OP {
            match spec_window(s, p + 1, end) {
                WindowParse::Done(start, len) => CompParse::BufferDone(start + len, start, len),
                WindowParse::OutOfRange => CompParse::OutOfRange,
            }
        } else if op == opcode::ZERO_OP || op == opcode::ONE_OP || op == opcode::ONES_OP {
            CompParse::Done(p + 1, CompKind::Obj(op))
        } else if op == opcode::EXT_OP_PREFIX {
            if p + 1 >= end {
                CompParse::OutOfRange
            } else if s[p + 1] == opcode::REVISION_OP {
                CompParse::Done(p + 2, CompKind::Revision)
            } else {
                CompParse::NotThisType
            }
        } else {
            CompParse::NotThisType
        }
    }
}

impl ComputationalData {
    /// Whether this is the value that `kind` describes.
    pub open spec fn is_kind(&self, kind: CompKind) -> bool {
        match kind {
            CompKind::Const(c) => self == ComputationalData::ConstData(c),
            CompKind::Str(b) => self matches ComputationalData::StringData(t) && t@
                == vstd::utf8::decode_utf8(b),
            CompKind::Obj(o) => self == ComputationalData::ConstObj(o),
            CompKind::Revision => self is Revision,
            CompKind::Buffer => self is DefBuffer,
        }
    }

    /// Reads a constant, a string, a constant object, the revision or a
    /// buffer. Another opcode is `InvalidType`. A string ends at a NUL byte
    /// or at the last byte of the window, which is then left out.
    pub fn parse(stream: &mut AmlStream, current_scope: &NameString) -> (r: Result<Self, AmlError>)
        requires
            old(stream).wf(),
        ensures
            final(stream).wf(),
            old(stream).same_window(final(stream)),
            r is Ok ==> final(stream).pos() > old(stream).pos(),
            match spec_computational(old(stream).bytes(), old(stream).pos(), old(stream).end()) {
                CompParse::Done(p, kind) => r matches Ok(c) && c.is_kind(kind) && final(stream).pos()
                    == p,
                CompParse::BufferDone(next, start, len) => r matches Ok(c) && c matches ComputationalData::DefBuffer(b)
                    && is_window(&b.window(), old(stream).bytes(), start, len) && b.scope().same(current_scope)
                    && final(stream).pos() == next,
                CompParse::OutOfRange => r matches Err(e) && e is AccessOutOfRange,
                CompParse::NotThisType => r matches Err(e) && e is InvalidType,
                CompParse::BadString => r matches Err(e) && e is InvalidType,
            },
    {
        let ghost s = stream.bytes();
        let ghost p = stream.pos();
        let ghost end = stream.end();
        let op = stream.read_byte()?;
        if op == BYTE_PREFIX {
            Ok(ComputationalData::ConstData(ConstData::Byte(stream.read_byte()?)))
        } else if op == WORD_PREFIX {
            let w = stream.read_word()?;
            proof {
                reveal_with_fuel(le_value, 3);
            }
            Ok(ComputationalData::ConstData(ConstData::Word(w)))
        } else if op == DWORD_PREFIX {
            Ok(ComputationalData::ConstData(ConstData::DWord(stream.read_dword()?)))
        } else if op == QWORD_PREFIX {
            Ok(ComputationalData::ConstData(ConstData::QWord(stream.read_qword()?)))
        } else if op == STRING_PREFIX {
            let start = stream.get_pointer();
            let mut b = stream.read_byte()?;
            while b != NULL_CHAR && !stream.is_end_of_stream()
                invariant
                    stream.wf(),
                    stream.bytes() == s,
                    stream.end() == end,
                    s == old(stream).bytes(),
                    p == old(stream).pos(),
                    end == old(stream).end(),
                    start == p + 1,
                    start < stream.pos() <= end,
                    b == s[stream.pos() - 1],
                    string_stop(s, start as int, end) == string_stop(s, stream.pos() - 1, end),
                decreases end - stream.pos(),
            {
                b = stream.read_byte()?;
            }
            assert(string_stop(s, stream.pos() - 1, end) == stream.pos() - 1);
            let mut bytes = stream.bytes_from(start);
            bytes.pop();
            assert(bytes@ =~= s.subrange(p + 1, string_stop(s, p + 1, end)));
            match utf8_to_string(bytes) {
                Some(t) => Ok(ComputationalData::StringData(t)),
                None => Err(AmlError::InvalidType),
            }
        } else if op == opcode::BUFFER_OP {
            Ok(ComputationalData::DefBuffer(ByteList::parse(stream, current_scope)?))
        } else if op == opcode::ZERO_OP {
            Ok(ComputationalData::ConstObj(opcode::ZERO_OP))
        } else if op == opcode::ONE_OP {
            Ok(ComputationalData::ConstObj(opcode::ONE_OP))
        } else if op == opcode::ONES_OP {
            Ok(ComputationalData::ConstObj(opcode::ONES_OP))
        } else if op == opcode::EXT_OP_PREFIX {
            if stream.read_byte()? == opcode::REVISION_OP {
                Ok(ComputationalData::Revision)
            } else {
                Err(AmlError::InvalidType)
            }
        } else {
            Err(AmlError::InvalidType)
        }
    }
}


impl ComputationalData {
    /// What `parse` gives on `before`, leaving `after`.
    pub open spec fn outcome(
        before: &AmlStream,
        after: &AmlStream,
        scope: &NameString,
        r: Result<Self, AmlError>,
    ) -> bool {
        &&& after.wf()
        &&& before.same_window(after)
        &&& match spec_computational(before.bytes(), before.pos(), before.end()) {
            CompParse::Done(p, kind) => r matches Ok(c) && c.is_kind(kind) && after.pos() == p,
            CompParse::BufferDone(next, start, len) => r matches Ok(c) && c matches ComputationalData::DefBuffer(b)
                && is_window(&b.window(), before.bytes(), start, len) && b.scope().same(scope)
                && after.pos() == next,
            CompParse::OutOfRange => r matches Err(e) && e is AccessOutOfRange,
            CompParse::NotThisType => r matches Err(e) && e is InvalidType,
            CompParse::BadString => r matches Err(e) && e is InvalidType,
        }
    }

    /// Whether `spec_computational` refuses the bytes as another type.
    pub open spec fn refuses(before: &AmlStream) -> bool {
        let c = spec_computational(before.bytes(), before.pos(), before.end());
        c is NotThisType || c is BadString
    }
}

/// The `Ok` value of `r` when it has the variant `v` picks, else an error.
pub open spec fn data_as_computational(r: Result<DataObject, AmlError>) -> Result<ComputationalData, AmlError> {
    match r {
        Ok(DataObject::ComputationalData(c)) => Ok(c),
        Ok(_) => Err(AmlError::InvalidOperation),
        Err(e) => Err(e),
    }
}

pub open spec fn data_as_package(r: Result<DataObject, AmlError>) -> Result<Package, AmlError> {
    match r {
        Ok(DataObject::DefPackage(c)) => Ok(c),
        Ok(_) => Err(AmlError::InvalidOperation),
        Err(e) => Err(e),
    }
}

pub open spec fn data_as_var_package(r: Result<DataObject, AmlError>) -> Result<VarPackage, AmlError> {
    match r {
        Ok(DataObject::DefVarPackage(c)) => Ok(c),
        Ok(_) => Err(AmlError::InvalidOperation),
        Err(e) => Err(e),
    }
}

impl DataObject {
    /// What `try_parse` gives on `before`, leaving `after`: computational
    /// data, else (from the same place) a package, else a variable package.
    pub open spec fn outcome(
        before: &AmlStream,
        after: &AmlStream,
        scope: &NameString,
        r: Result<Self, AmlError>,
    ) -> bool {
        let s = before.bytes();
        let p = before.pos();
        &&& after.wf()
        &&& before.same_window(after)
        &&& if !ComputationalData::refuses(before) {
            ComputationalData::outcome(before, after, scope, data_as_computational(r))
        } else if p >= s.len() || s[p] == opcode::PACKAGE_OP {
            Package::outcome(before, after, data_as_package(r))
        } else if s[p] == opcode::VAR_PACKAGE_OP {
            VarPackage::outcome(before, after, data_as_var_package(r))
        } else {
            r matches Err(e) && e is InvalidType && after.same_as(before)
        }
    }

    /// Reads a data object; `InvalidType`, with the stream where it was, when
    /// the bytes hold none.
    pub fn try_parse(stream: &mut AmlStream, current_scope: &NameString) -> (r: Result<Self, AmlError>)
        requires
            old(stream).wf(),
        ensures
            Self::outcome(old(stream), final(stream), current_scope, r),
            r is Ok ==> final(stream).pos() > old(stream).pos(),
    {
        let backup = stream.copy();
        match ComputationalData::parse(stream, current_scope) {
            Ok(t) => {
                return Ok(DataObject::ComputationalData(t));
            },
            Err(AmlError::InvalidType) => {},
            Err(e) => {
                return Err(e);
            },
        }
        stream.roll_back(&backup);
        match Package::try_parse(stream) {
            Ok(l) => {
                return Ok(DataObject::DefPackage(l));
            },
            Err(AmlError::InvalidType) => {},
            Err(e) => {
                return Err(e);
            },
        }
        match VarPackage::try_parse(stream) {
            Ok(l) => {
                return Ok(DataObject::DefVarPackage(l));
            },
            Err(AmlError::InvalidType) => {},
            Err(e) => {
                return Err(e);
            },
        }
        Err(AmlError::InvalidType)
    }
}

/// The digits `parse_integer` accepts after its prefix.
pub enum Radix {
    HexLower,
    HexUpper,
    Octal,
    Decimal,
}

/// The value of digit `c`, when it is one in `radix`.
pub open spec fn digit_value(c: u8, radix: Radix) -> Option<int> {
    if 0x30 <= c <= 0x39 && !(radix is Octal) {
        Some(c - 0x30)
    } else if 0x30 <= c <= 0x37 {
        Some(c - 0x30)
    } else if radix is HexLower && 0x61 <= c <= 0x66 {
        Some(c - 0x61 + 10)
    } else if radix is HexUpper && 0x41 <= c <= 0x46 {
        Some(c - 0x41 + 10)
    } else {
        None
    }
}

pub open spec fn radix_base(radix: Radix) -> int {
    match radix {
        Radix::HexLower => 16,
        Radix::HexUpper => 16,
        Radix::Octal => 8,
        Radix::Decimal => 10,
    }
}

/// The outcome of reading an integer: its end and value, or an error.
pub enum IntParse {
    Done(int, usize),
    OutOfRange,
    NotThisType,
}

/// Reads digits from `p` into `val`, wrapping at the machine's width, until
/// a byte that is not a digit; a zero value is refused.
pub open spec fn scan_digits(s: Seq<u8>, p: int, end: int, radix: Radix, val: usize) -> IntParse
    decreases end - p,
{
    if p >= s.len() {
        IntParse::OutOfRange
    } else {
        match digit_value(s[p], radix) {
            Some(d) => if p + 1 > end {
                IntParse::OutOfRange
            } else {
                scan_digits(s, p + 1, end, radix, ((val * radix_base(radix) + d) % (usize::MAX + 1)) as usize)
            },
            None => if val == 0 {
                IntParse::NotThisType
            } else {
                IntParse::Done(p, val)
            },
        }
    }
}

/// The result of `parse_integer` at `p`. After a leading `0` comes `x`, `X`
/// or the first octal digit, which is skipped; without a leading `0` the
/// first decimal digit is skipped as well.
pub open spec fn spec_parse_integer(s: Seq<u8>, p: int, end: int) -> IntParse {
    if p >= end {
        IntParse::OutOfRange
    } else if s[p] == 0x30 {
        if p + 1 >= end {
            IntParse::OutOfRange
        } else if s[p + 1] == 0x78 {
            scan_digits(s, p + 2, end, Radix::HexLower, 0)
        } else if s[p + 1] == 0x58 {
            scan_digits(s, p + 2, end, Radix::HexUpper, 0)
        } else {
            scan_digits(s, p + 2, end, Radix::Octal, 0)
        }
    } else {
        scan_digits(s, p + 1, end, Radix::Decimal, 0)
    }
}

fn digit_of(c: u8, radix: u8) -> (r: Option<usize>)
    requires
        radix < 4,
    ensures
        r matches Some(d) ==> digit_value(c, radix_of(radix)) == Some(d as int) && d < 16,
        r is None ==> digit_value(c, radix_of(radix)) is None,
{
    if 0x30 <= c && c <= 0x39 && radix != 2 {
        Some((c - 0x30) as usize)
    } else if 0x30 <= c && c <= 0x37 {
        Some((c - 0x30) as usize)
    } else if radix == 0 && 0x61 <= c && c <= 0x66 {
        Some((c - 0x61 + 10) as usize)
    } else if radix == 1 && 0x41 <= c && c <= 0x46 {
        Some((c - 0x41 + 10) as usize)
    } else {
        None
    }
}

pub open spec fn radix_of(radix: u8) -> Radix {
    if radix == 0 {
        Radix::HexLower
    } else if radix == 1 {
        Radix::HexUpper
    } else if radix == 2 {
        Radix::Octal
    } else {
        Radix::Decimal
    }
}

/// Reads an integer written in ASCII (see `spec_parse_integer`).
pub fn parse_integer(stream: &mut AmlStream) -> (r: Result<usize, AmlError>)
    requires
        old(stream).wf(),
    ensures
        final(stream).wf(),
        old(stream).same_window(final(stream)),
        match spec_parse_integer(old(stream).bytes(), old(stream).pos(), old(stream).end()) {
            IntParse::Done(p, v) => r == Ok::<usize, AmlError>(v) && final(stream).pos() == p,
            IntParse::OutOfRange => r matches Err(e) && e is AccessOutOfRange,
            IntParse::NotThisType => r matches Err(e) && e is InvalidType,
        },
{
    let ghost s = stream.bytes();
    let ghost end = stream.end();
    let c = stream.read_byte()?;
    let radix: u8 = if c == 0x30 {
        let c2 = stream.read_byte()?;
        if c2 == 0x78 {
            0
        } else if c2 == 0x58 {
            1
        } else {
            2
        }
    } else {
        3
    };
    let base: usize = if radix < 2 {
        16
    } else if radix == 2 {
        8
    } else {
        10
    };
    let mut val: usize = 0;
    assert(spec_parse_integer(s, old(stream).pos(), end) == scan_digits(s, stream.pos(), end, radix_of(radix), val));
    loop
        invariant
            stream.wf(),
            stream.bytes() == s,
            stream.end() == end,
            s == old(stream).bytes(),
            end == old(stream).end(),
            old(stream).pos() <= stream.pos(),
            radix < 4,
            base == radix_base(radix_of(radix)),
            spec_parse_integer(s, old(stream).pos(), end) == scan_digits(s, stream.pos(), end, radix_of(radix), val),
        decreases end - stream.pos(),
    {
        let c = stream.peek_byte()?;
        match digit_of(c, radix) {
            Some(d) => {
                assert(d < 16);
                let next = val.wrapping_mul(base).wrapping_add(d);
                proof {
                    lemma_wrap_step(val, base, d);
                }
                stream.seek(1)?;
                val = next;
            },
            None => {
                if val == 0 {
                    return Err(AmlError::InvalidType);
                } else {
                    return Ok(val);
                }
            },
        }
    }
}

proof fn lemma_wrap_step(val: usize, base: usize, d: usize)
    requires
        d < 16,
    ensures
        vstd::wrapping::usize_specs::wrapping_add(vstd::wrapping::usize_specs::wrapping_mul(val, base), d)
            == ((val * base + d) % (usize::MAX + 1)) as usize,
{
    let m: int = usize::MAX + 1;
    let x: int = val * base;
    let w = vstd::wrapping::usize_specs::wrapping_mul(val, base);
    assert(w as int == x % m) by {
        assert(val as nat * base as nat == x);
    }
    vstd::arithmetic::div_mod::lemma_mod_bound(x, m);
    vstd::arithmetic::div_mod::lemma_add_mod_noop(x, d as int, m);
    vstd::arithmetic::div_mod::lemma_small_mod(d as nat, m as nat);
    vstd::arithmetic::div_mod::lemma_mod_twice(x, m);
    if w + d > usize::MAX {
        vstd::arithmetic::div_mod::lemma_mod_sub_multiples_vanish((x % m + d) as int, m);
        vstd::arithmetic::div_mod::lemma_small_mod((x % m + d - m) as nat, m as nat);
    } else {
        vstd::arithmetic::div_mod::lemma_small_mod((x % m + d) as nat, m as nat);
    }
}


impl DataObject {
    /// The bytes at `before` hold no data object.
    pub open spec fn absent(before: &AmlStream) -> bool {
        let s = before.bytes();
        let p = before.pos();
        &&& ComputationalData::refuses(before)
        &&& p < s.len()
        &&& s[p] != opcode::PACKAGE_OP
        &&& s[p] != opcode::VAR_PACKAGE_OP
    }
}

pub open spec fn ref_as_data(r: Result<DataRefObject, AmlError>) -> Result<DataObject, AmlError> {
    match r {
        Ok(DataRefObject::DataObject(d)) => Ok(d),
        Ok(_) => Err(AmlError::InvalidOperation),
        Err(e) => Err(e),
    }
}

impl DataRefObject {
    /// What `parse` gives on `before`, leaving `after`: a data object, else an
    /// object reference written as an integer.
    pub open spec fn outcome(
        before: &AmlStream,
        after: &AmlStream,
        scope: &NameString,
        r: Result<Self, AmlError>,
    ) -> bool {
        &&& after.wf()
        &&& before.same_window(after)
        &&& if !DataObject::absent(before) {
            DataObject::outcome(before, after, scope, ref_as_data(r))
        } else {
            match spec_parse_integer(before.bytes(), before.pos(), before.end()) {
                IntParse::Done(p, v) => r matches Ok(o) && o == DataRefObject::ObjectReference(v)
                    && after.pos() == p,
                IntParse::OutOfRange => r matches Err(e) && e is AccessOutOfRange,
                IntParse::NotThisType => r matches Err(e) && e is InvalidType,
            }
        }
    }

    pub fn parse(stream: &mut AmlStream, current_scope: &NameString) -> (r: Result<Self, AmlError>)
        requires
            old(stream).wf(),
        ensures
            Self::outcome(old(stream), final(stream), current_scope, r),
    {
        match DataObject::try_parse(stream, current_scope) {
            Ok(d) => {
                return Ok(DataRefObject::DataObject(d));
            },
            Err(AmlError::InvalidType) => {},
            Err(e) => {
                return Err(e);
            },
        }
        Ok(DataRefObject::ObjectReference(parse_integer(stream)?))
    }

    /// The integer value of a constant or constant object; `None` for other
    /// data. (An object reference has no such value here.)
    pub fn get_const_data(&self) -> (r: Option<usize>)
        requires
            !(self is ObjectReference),
        ensures
            r == (match self {
                DataRefObject::DataObject(DataObject::ComputationalData(ComputationalData::ConstData(c))) => Some(
                    c.spec_value() as usize,
                ),
                DataRefObject::DataObject(DataObject::ComputationalData(ComputationalData::ConstObj(c))) => Some(
                    c as usize,
                ),
                _ => None,
            }),
    {
        match self {
            DataRefObject::DataObject(d) => match d {
                DataObject::ComputationalData(c) => match c {
                    ComputationalData::ConstData(c) => Some(c.to_int()),
                    ComputationalData::StringData(_) => None,
                    ComputationalData::ConstObj(c) => Some(*c as usize),
                    ComputationalData::Revision => None,
                    ComputationalData::DefBuffer(_) => None,
                },
                DataObject::DefPackage(_) => None,
                DataObject::DefVarPackage(_) => None,
            },
            DataRefObject::ObjectReference(_) => None,
        }
    }
}

/// `parse_integer` on a stream over `buffer`.
pub fn parse_integer_from_buffer(buffer: &[u8]) -> (r: Result<usize, AmlError>)
    ensures
        match spec_parse_integer(buffer@, 0, buffer@.len() as int) {
            IntParse::Done(_, v) => r == Ok::<usize, AmlError>(v),
            IntParse::OutOfRange => r matches Err(e) && e is AccessOutOfRange,
            IntParse::NotThisType => r matches Err(e) && e is InvalidType,
        },
{
    let mut v: Vec<u8> = Vec::new();
    let mut i: usize = 0;
    while i < buffer.len()
        invariant
            i <= buffer@.len(),
            v@ == buffer@.subrange(0, i as int),
        decreases buffer@.len() - i,
    {
        v.push(buffer[i]);
        i = i + 1;
        assert(v@ =~= buffer@.subrange(0, i as int));
    }
    assert(v@ =~= buffer@);
    let mut stream = AmlStream::new(v);
    parse_integer(&mut stream)
}

/// The five-bit code of a manufacturer letter.
pub open spec fn mfg_code(c: u8) -> u32 {
    ((c - 0x40) % 32) as u32
}

/// The value of a hexadecimal digit (`0`-`9`, or from `A` on).
pub open spec fn hex_value(c: u8) -> u32 {
    if 0x30 <= c <= 0x39 {
        (c - 0x30) as u32
    } else {
        (c - 0x41 + 10) as u32
    }
}

/// A byte `eisa_id_to_dword` accepts at position `i` of the identifier.
pub open spec fn eisa_char_ok(c: u8, i: int) -> bool {
    if i < 3 {
        c >= 0x40
    } else {
        (0x30 <= c <= 0x39) || c >= 0x41
    }
}

/// The compressed EISA identifier of a seven-letter hardware id such as
/// `PNP0A03`, in the order its bytes are stored.
pub open spec fn spec_eisa_id(id: Seq<u8>) -> u32 {
    (((mfg_code(id[0]) << 2u32) | (mfg_code(id[1]) >> 3u32)) | ((((mfg_code(id[1]) & 7u32) << 5u32)
        | mfg_code(id[2])) << 8u32) | (((hex_value(id[3]) << 4u32) | hex_value(id[4])) << 16u32) | (
    ((hex_value(id[5]) << 4u32) | hex_value(id[6])) << 24u32))
}

pub fn eisa_id_to_dword(id: &[u8; 7]) -> (r: u32)
    requires
        forall|i: int| 0 <= i < 7 ==> eisa_char_ok(#[trigger] id[i], i),
    ensures
        r == spec_eisa_id(id@),
{
    assert(eisa_char_ok(id[0], 0) && eisa_char_ok(id[1], 1) && eisa_char_ok(id[2], 2));
    assert(eisa_char_ok(id[3], 3) && eisa_char_ok(id[4], 4) && eisa_char_ok(id[5], 5) && eisa_char_ok(id[6], 6));
    let m0 = to_compressed_mfg_code(id[0]);
    let m1 = to_compressed_mfg_code(id[1]);
    let m2 = to_compressed_mfg_code(id[2]);
    let h3 = to_hex(id[3]);
    let h4 = to_hex(id[4]);
    let h5 = to_hex(id[5]);
    let h6 = to_hex(id[6]);
    ((m0 << 2u32) | (m1 >> 3u32)) | ((((m1 & 7u32) << 5u32) | m2) << 8u32) | (((h3 << 4u32) | h4)
        << 16u32) | (((h5 << 4u32) | h6) << 24u32)
}

fn to_compressed_mfg_code(c: u8) -> (r: u32)
    requires
        c >= 0x40,
    ensures
        r == mfg_code(c),
{
    let v: u8 = c - 0x40;
    assert(v & 0x1f == v % 32) by (bit_vector);
    (v & 0x1f) as u32
}

fn to_hex(c: u8) -> (r: u32)
    requires
        (0x30 <= c <= 0x39) || c >= 0x41,
    ensures
        r == hex_value(c),
{
    if 0x30 <= c && c <= 0x39 {
        (c - 0x30) as u32
    } else {
        (c - 0x41 + 0xA) as u32
    }
}

/// Reads one byte in `start..=end` and gives its offset from `start`;
/// `InvalidType`, reading nothing, for another byte.
fn try_parse_miscellaneous_object(stream: &mut AmlStream, start: u8, end: u8) -> (r: Result<u8, AmlError>)
    requires
        old(stream).wf(),
        start <= end,
    ensures
        final(stream).wf(),
        ({
            let s = old(stream).bytes();
            let p = old(stream).pos();
            if p >= s.len() {
                r matches Err(e) && e is AccessOutOfRange && final(stream).same_as(old(stream))
            } else if start <= s[p] <= end {
                if p >= old(stream).end() {
                    r matches Err(e) && e is AccessOutOfRange && final(stream).same_as(old(stream))
                } else {
                    r == Ok::<u8, AmlError>((s[p] - start) as u8) && old(stream).advanced(final(stream), 1)
                }
            } else {
                r matches Err(e) && e is InvalidType && final(stream).same_as(old(stream))
            }
        }),
{
    let b = stream.peek_byte()?;
    if start <= b && b <= end {
        Ok(stream.read_byte()? - start)
    } else {
        Err(AmlError::InvalidType)
    }
}

/// Reads `Local0` to `Local7`, giving the local's number.
pub fn try_parse_local_object(stream: &mut AmlStream) -> (r: Result<u8, AmlError>)
    requires
        old(stream).wf(),
    ensures
        final(stream).wf(),
        misc_outcome(old(stream), final(stream), opcode::LOCAL0_OP, opcode::LOCAL7_OP, r),
{
    try_parse_miscellaneous_object(stream, opcode::LOCAL0_OP, opcode::LOCAL7_OP)
}

/// Reads `Arg0` to `Arg6`, giving the argument's number.
pub fn try_parse_argument_object(stream: &mut AmlStream) -> (r: Result<u8, AmlError>)
    requires
        old(stream).wf(),
    ensures
        final(stream).wf(),
        misc_outcome(old(stream), final(stream), opcode::ARG0_OP, opcode::ARG6_OP, r),
{
    try_parse_miscellaneous_object(stream, opcode::ARG0_OP, opcode::ARG6_OP)
}

/// What reading one byte in `start..=end` gives on `before`, leaving `after`.
pub open spec fn misc_outcome(before: &AmlStream, after: &AmlStream, start: u8, end: u8, r: Result<u8, AmlError>) -> bool {
    let s = before.bytes();
    let p = before.pos();
    if p >= s.len() {
        r matches Err(e) && e is AccessOutOfRange && after.same_as(before)
    } else if start <= s[p] <= end {
        if p >= before.end() {
            r matches Err(e) && e is AccessOutOfRange && after.same_as(before)
        } else {
            r == Ok::<u8, AmlError>((s[p] - start) as u8) && before.advanced(after, 1)
        }
    } else {
        r matches Err(e) && e is InvalidType && after.same_as(before)
    }
}

} // verus!
