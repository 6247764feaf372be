//! AML expression opcodes: buffers, packages and the operators.
use vstd::prelude::*;
use super::AmlError;
use super::data_object::{
    DataRefObject, PackageElement, PkgLength, WindowParse, is_window, spec_window, split_package,
};
use super::name_object::{NameParse, NameString, spec_parse_name};
use super::opcode;
use super::stream::AmlStream;
use super::method_table::MethodTable;
use super::super_name::{SimpleName, SuperName, Target, one_byte_super_name, one_byte_target};
use super::term_object::{MethodInvocation, TermArg, one_byte_term, read_one_byte_term, simple_term};

verus! {

/// The bytes of a buffer: its size as a term, then its initial bytes.
#[derive(Debug)]
pub struct ByteList {
    stream: AmlStream,
    current_scope: NameString,
}

/// A package: the number of elements still to read and their bytes.
#[derive(Debug)]
pub struct Package {
    num_elements: usize,
    stream: AmlStream,
}

/// A package whose element count is a term.
#[derive(Debug)]
pub struct VarPackage {
    stream: AmlStream,
}

impl Clone for ByteList {
    fn clone(&self) -> (r: Self)
        ensures
            r.window().same_as(&self.window()),
            r.scope().same(&self.scope()),
    {
        ByteList { stream: self.stream.copy(), current_scope: self.current_scope.copy() }
    }
}

impl Clone for Package {
    fn clone(&self) -> (r: Self)
        ensures
            r.window().same_as(&self.window()),
            r.remaining() == self.remaining(),
    {
        Package { num_elements: self.num_elements, stream: self.stream.copy() }
    }
}

impl Clone for VarPackage {
    fn clone(&self) -> (r: Self)
        ensures
            r.window().same_as(&self.window()),
    {
        VarPackage { stream: self.stream.copy() }
    }
}

impl ByteList {
    pub closed spec fn window(&self) -> AmlStream {
        self.stream
    }

    pub closed spec fn scope(&self) -> NameString {
        self.current_scope
    }

    /// Reads the package length after `BufferOp` and keeps the buffer's bytes.
    pub fn parse(stream: &mut AmlStream, current_scope: &NameString) -> (r: Result<Self, AmlError>)
        requires
            old(stream).wf(),
        ensures
            final(stream).wf(),
            old(stream).same_window(final(stream)),
            match spec_window(old(stream).bytes(), old(stream).pos(), old(stream).end()) {
                WindowParse::Done(start, len) => r matches Ok(b) && is_window(&b.window(), old(stream).bytes(), start, len)
                    && b.scope().same(current_scope) && final(stream).pos() == start + len,
                WindowParse::OutOfRange => r matches Err(e) && e is AccessOutOfRange,
            },
    {
        let byte_list_stream = split_package(stream)?;
        Ok(ByteList { stream: byte_list_stream, current_scope: current_scope.copy() })
    }

    /// Whether the list's window can be read.
    pub fn is_readable(&self) -> (r: bool)
        ensures
            r == self.window().wf(),
    {
        self.stream.is_valid()
    }

    /// Reads the term at the start of the list that gives the buffer's size.
    pub fn get_buffer_size(&mut self, table: &MethodTable) -> (r: Result<TermArg, AmlError>)
        requires
            old(self).window().wf(),
        ensures
            final(self).window().wf(),
            final(self).scope() == old(self).scope(),
            r matches Ok(t) ==> t.is_integer_kind(),
            old(self).window().moved_to(&final(self).window()),
            read_one_byte_term(&old(self).window(), &final(self).window(), r),
    {
        TermArg::parse_integer(&mut self.stream, &self.current_scope, table)
    }

    /// Reads the next byte of the buffer.
    pub fn read_next(&mut self) -> (r: Result<u8, AmlError>)
        requires
            old(self).window().wf(),
        ensures
            final(self).window().wf(),
            final(self).scope() == old(self).scope(),
            r is Ok <==> old(self).window().rem() >= 1,
            r matches Ok(b) ==> b == old(self).window().at(0) && old(self).window().advanced(
                &final(self).window(),
                1,
            ),
            r matches Err(e) ==> e is AccessOutOfRange && final(self).window() == old(self).window(),
    {
        self.stream.read_byte()
    }
}

impl Package {
    pub closed spec fn window(&self) -> AmlStream {
        self.stream
    }

    pub closed spec fn remaining(&self) -> usize {
        self.num_elements
    }

    /// What `try_parse` gives on `before`, leaving `after`.
    pub open spec fn outcome(before: &AmlStream, after: &AmlStream, r: Result<Self, AmlError>) -> bool {
        let s = before.bytes();
        let p = before.pos();
        let end = before.end();
        &&& after.wf()
        &&& before.same_window(after)
        &&& if p >= s.len() {
            r matches Err(e) && e is AccessOutOfRange
        } else if s[p] != opcode::PACKAGE_OP {
            r matches Err(e) && e is InvalidType && after.same_as(before)
        } else if p >= end {
            r matches Err(e) && e is AccessOutOfRange
        } else {
            match spec_window(s, p + 1, end) {
                WindowParse::Done(start, len) => after.pos() == start + len && if len >= 1 {
                    r matches Ok(pk) && is_window(&pk.window(), s, start + 1, len - 1) && pk.remaining()
                        == s[start]
                } else {
                    r matches Err(e) && e is AccessOutOfRange
                },
                WindowParse::OutOfRange => r matches Err(e) && e is AccessOutOfRange,
            }
        }
    }

    /// Reads `PackageOp`, the package length and the element count.
    pub fn try_parse(stream: &mut AmlStream) -> (r: Result<Self, AmlError>)
        requires
            old(stream).wf(),
        ensures
            Self::outcome(old(stream), final(stream), r),
            r is Ok ==> final(stream).pos() > old(stream).pos(),
    {
        if stream.peek_byte()? == opcode::PACKAGE_OP {
            stream.read_byte()?;
            let mut element_list_stream = split_package(stream)?;
            let num_elements = element_list_stream.read_byte()?;
            Ok(Package { num_elements: num_elements as usize, stream: element_list_stream })
        } else {
            Err(AmlError::InvalidType)
        }
    }

    /// Whether the package's window can be read.
    pub fn is_readable(&self) -> (r: bool)
        ensures
            r == self.window().wf(),
    {
        self.stream.is_valid()
    }

    pub fn get_number_of_remaining_elements(&self) -> (r: usize)
        ensures
            r == self.remaining(),
    {
        self.num_elements
    }

    /// Reads the next element: a data object or a reference, else a name.
    /// `None` once every element was read.
    pub fn get_next_element(&mut self, current_scope: &NameString) -> (r: Result<Option<PackageElement>, AmlError>)
        requires
            old(self).window().wf(),
        ensures
            final(self).window().wf(),
            old(self).window().same_window(&final(self).window()),
            old(self).remaining() == 0 ==> (r matches Ok(None) && *final(self) == *old(self)),
            r matches Ok(Some(_)) ==> final(self).remaining() == old(self).remaining() - 1,
    {
        if self.num_elements == 0 {
            return Ok(None);
        }
        let backup = self.stream.copy();
        match DataRefObject::parse(&mut self.stream, current_scope) {
            Ok(e) => {
                self.num_elements = self.num_elements - 1;
                return Ok(Some(PackageElement::DataRefObject(e)));
            },
            Err(AmlError::InvalidType) => {},
            Err(e) => {
                return Err(e);
            },
        }
        self.stream.roll_back(&backup);
        let name_string = NameString::parse(&mut self.stream, Some(current_scope))?;
        self.num_elements = self.num_elements - 1;
        Ok(Some(PackageElement::NameString(name_string)))
    }
}

impl VarPackage {
    pub closed spec fn window(&self) -> AmlStream {
        self.stream
    }

    /// Whether the package's window can be read.
    pub fn is_readable(&self) -> (r: bool)
        ensures
            r == self.window().wf(),
    {
        self.stream.is_valid()
    }

    /// Reads the term at the start of the package that gives its number of
    /// elements.
    pub fn get_number_of_elements(&mut self, current_scope: &NameString, table: &MethodTable) -> (r: Result<
        TermArg,
        AmlError,
    >)
        requires
            old(self).window().wf(),
        ensures
            final(self).window().wf(),
            r matches Ok(t) ==> t.is_integer_kind(),
            old(self).window().moved_to(&final(self).window()),
            read_one_byte_term(&old(self).window(), &final(self).window(), r),
    {
        TermArg::parse_integer(&mut self.stream, current_scope, table)
    }

    /// The package of `num_elements` elements whose bytes are the rest of
    /// this one.
    pub fn convert_to_package(self, num_elements: usize) -> (r: Package)
        ensures
            r.window() == self.window(),
            r.remaining() == num_elements,
    {
        Package { num_elements, stream: self.stream }
    }

    /// What `try_parse` gives on `before`, leaving `after`.
    pub open spec fn outcome(before: &AmlStream, after: &AmlStream, r: Result<Self, AmlError>) -> bool {
        let s = before.bytes();
        let p = before.pos();
        let end = before.end();
        &&& after.wf()
        &&& before.same_window(after)
        &&& if p >= s.len() {
            r matches Err(e) && e is AccessOutOfRange
        } else if s[p] != opcode::VAR_PACKAGE_OP {
            r matches Err(e) && e is InvalidType && after.same_as(before)
        } else if p >= end {
            r matches Err(e) && e is AccessOutOfRange
        } else {
            match spec_window(s, p + 1, end) {
                WindowParse::Done(start, len) => r matches Ok(v) && is_window(&v.window(), s, start, len)
                    && after.pos() == start + len,
                WindowParse::OutOfRange => r matches Err(e) && e is AccessOutOfRange,
            }
        }
    }

    /// Reads `VarPackageOp` and the package length.
    pub fn try_parse(stream: &mut AmlStream) -> (r: Result<Self, AmlError>)
        requires
            old(stream).wf(),
        ensures
            Self::outcome(old(stream), final(stream), r),
            r is Ok ==> final(stream).pos() > old(stream).pos(),
    {
        if stream.peek_byte()? == opcode::VAR_PACKAGE_OP {
            stream.read_byte()?;
            let element_list_stream = split_package(stream)?;
            Ok(VarPackage { stream: element_list_stream })
        } else {
            Err(AmlError::InvalidType)
        }
    }
}


/// `IndexOp`'s operands: the object, the index and the target.
#[derive(Debug)]
pub struct Index {
    buffer_pkg_str_obj: TermArg,
    index: TermArg,
    target: SuperName,
}

impl Index {
    /// Reads the operands after `IndexOp`.
    pub fn parse(stream: &mut AmlStream, current_scope: &NameString, table: &MethodTable) -> (r: Result<
        Self,
        AmlError,
    >)
        requires
            old(stream).wf(),
        ensures
            old(stream).moved_to(final(stream)),
            r matches Ok(i) ==> i.spec_index().is_integer_kind(),
            ({
                let a = one_byte_term(old(stream).at(0));
                let b = one_byte_term(old(stream).at(1));
                let c = one_byte_super_name(old(stream).at(2));
                (old(stream).rem() >= 3 && a is Some && b is Some && c is Some) ==> (r matches Ok(i) && i.spec_fields()
                    == (a->0, b->0, c->0) && old(stream).advanced(final(stream), 3))
            }),
        decreases old(stream).rem(), 10nat,
    {
        let buffer_pkg_str_obj = TermArg::try_parse(stream, current_scope, table)?;
        let index = TermArg::parse_integer(stream, current_scope, table)?;
        let target = SuperName::try_parse(stream, current_scope, table)?;
        Ok(Index { buffer_pkg_str_obj, index, target })
    }

    pub closed spec fn spec_index(&self) -> TermArg {
        self.index
    }

    /// The object, the index and the target.
    pub closed spec fn spec_fields(&self) -> (TermArg, TermArg, SuperName) {
        (self.buffer_pkg_str_obj, self.index, self.target)
    }
}

/// The reference opcodes: `RefOf`, `DerefOf` and `Index`.
#[derive(Debug)]
pub enum ReferenceTypeOpcode {
    DefRefOf(SuperName),
    DefDerefOf(TermArg),
    DefIndex(Index),
    UserTermObj,
}

impl ReferenceTypeOpcode {
    /// Reads `RefOfOp`, `DerefOfOp` or `IndexOp` and its operands; another
    /// byte is `InvalidType`, with nothing read.
    pub fn try_parse(stream: &mut AmlStream, current_scope: &NameString, table: &MethodTable) -> (r: Result<
        Self,
        AmlError,
    >)
        requires
            old(stream).wf(),
        ensures
            old(stream).moved_to(final(stream)),
            ({
                let s = old(stream).bytes();
                let p = old(stream).pos();
                &&& p >= s.len() ==> (r matches Err(e) && e is AccessOutOfRange)
                &&& (p < s.len() && s[p] != opcode::REF_OF_OP && s[p] != opcode::DEREF_OF_OP && s[p]
                    != opcode::INDEX_OP) ==> (r matches Err(e) && e is InvalidType && final(stream).same_as(
                    old(stream),
                ))
                &&& r matches Ok(ReferenceTypeOpcode::DefRefOf(_)) ==> s[p] == opcode::REF_OF_OP
                &&& r matches Ok(ReferenceTypeOpcode::DefDerefOf(_)) ==> s[p] == opcode::DEREF_OF_OP
                &&& r matches Ok(ReferenceTypeOpcode::DefIndex(_)) ==> s[p] == opcode::INDEX_OP
                &&& !(r matches Ok(ReferenceTypeOpcode::UserTermObj))
            }),
            r is Ok ==> final(stream).pos() > old(stream).pos(),
        decreases old(stream).rem(), 1nat,
    {
        let op = stream.peek_byte()?;
        if op == opcode::REF_OF_OP {
            stream.seek(1)?;
            Ok(ReferenceTypeOpcode::DefRefOf(SuperName::try_parse(stream, current_scope, table)?))
        } else if op == opcode::DEREF_OF_OP {
            stream.seek(1)?;
            Ok(ReferenceTypeOpcode::DefDerefOf(TermArg::try_parse(stream, current_scope, table)?))
        } else if op == opcode::INDEX_OP {
            stream.seek(1)?;
            Ok(ReferenceTypeOpcode::DefIndex(Index::parse(stream, current_scope, table)?))
        } else {
            Err(AmlError::InvalidType)
        }
    }
}

/// An operator with two integer operands and a target.
#[derive(Debug)]
pub struct BinaryOperation {
    pub opcode: u8,
    pub operand1: TermArg,
    pub operand2: TermArg,
    pub target: Target,
}

/// The binary operation at `p` in the window ending at `end` where its two
/// operands are simple terms (see `simple_term`) and its target one byte,
/// with the position after it.
#[verifier::opaque]
pub open spec fn simple_binary(s: Seq<u8>, p: int, end: int) -> Option<(BinaryOperation, int)> {
    if 0 <= p < end {
        match simple_term(s, p + 1, end) {
            Some((a, q1)) => match simple_term(s, q1, end) {
                Some((b, q2)) => if q2 < end && one_byte_target(s[q2]) is Some {
                    Some(
                        (
                            BinaryOperation {
                                opcode: s[p],
                                operand1: a,
                                operand2: b,
                                target: one_byte_target(s[q2])->0,
                            },
                            q2 + 1,
                        ),
                    )
                } else {
                    None
                },
                None => None,
            },
            None => None,
        }
    } else {
        None
    }
}

/// `Store` of a simple term into a one-byte super name, `Increment` and
/// `Decrement` of a one-byte super name, and `LEqual`, `LGreater` and
/// `LLess` of two simple terms, at `p` in the window ending at `end`, with
/// the position after it.
pub open spec fn simple_other_expression(s: Seq<u8>, p: int, end: int) -> Option<(ExpressionOpcode, int)> {
    if !(0 <= p < end) {
        None
    } else if s[p] == opcode::STORE_OP {
        match simple_term(s, p + 1, end) {
            Some((t, q)) => if q < end && one_byte_super_name(s[q]) is Some {
                Some((ExpressionOpcode::DefStore(t, one_byte_super_name(s[q])->0), q + 1))
            } else {
                None
            },
            None => None,
        }
    } else if s[p] == opcode::INCREMENT_OP || s[p] == opcode::DECREMENT_OP {
        if p + 1 < end && one_byte_super_name(s[p + 1]) is Some {
            let n = one_byte_super_name(s[p + 1])->0;
            Some(
                (
                    if s[p] == opcode::INCREMENT_OP {
                        ExpressionOpcode::DefIncrement(n)
                    } else {
                        ExpressionOpcode::DefDecrement(n)
                    },
                    p + 2,
                ),
            )
        } else {
            None
        }
    } else if s[p] == opcode::L_EQUAL_OP || s[p] == opcode::L_GREATER_OP || s[p] == opcode::L_LESS_OP {
        match simple_term(s, p + 1, end) {
            Some((a, q1)) => match simple_term(s, q1, end) {
                Some((b, q2)) => Some(
                    (
                        if s[p] == opcode::L_EQUAL_OP {
                            ExpressionOpcode::DefLEqual(a, b)
                        } else if s[p] == opcode::L_GREATER_OP {
                            ExpressionOpcode::DefLGreater(a, b)
                        } else {
                            ExpressionOpcode::DefLLess(a, b)
                        },
                        q2,
                    ),
                ),
                None => None,
            },
            None => None,
        }
    } else {
        None
    }
}

/// The expression at `p` where it is a binary operation of simple terms
/// (see `simple_binary`) or one of `simple_other_expression`, with the
/// position after it.
pub open spec fn simple_expression(s: Seq<u8>, p: int, end: int) -> Option<(ExpressionOpcode, int)> {
    if 0 <= p < s.len() && is_binary_opcode(s[p]) {
        match simple_binary(s, p, end) {
            Some((b, q)) => Some((ExpressionOpcode::BinaryOperation(b), q)),
            None => None,
        }
    } else {
        simple_other_expression(s, p, end)
    }
}

impl BinaryOperation {
    pub closed spec fn spec_opcode(&self) -> u8 {
        self.opcode
    }

    pub closed spec fn spec_left(&self) -> TermArg {
        self.operand1
    }

    pub closed spec fn spec_right(&self) -> TermArg {
        self.operand2
    }

    pub closed spec fn spec_target(&self) -> Target {
        self.target
    }

    /// Reads the opcode, two integer operands and the target.
    pub fn parse(stream: &mut AmlStream, current_scope: &NameString, table: &MethodTable) -> (r: Result<
        Self,
        AmlError,
    >)
        requires
            old(stream).wf(),
        ensures
            old(stream).moved_to(final(stream)),
            r matches Ok(b) ==> b.spec_opcode() == old(stream).at(0) && b.spec_left().is_integer_kind()
                && b.spec_right().is_integer_kind(),
            r is Ok ==> final(stream).pos() > old(stream).pos(),
            old(stream).rem() == 0 ==> (r matches Err(e) && e is AccessOutOfRange),
            simple_binary(old(stream).bytes(), old(stream).pos(), old(stream).end()) matches Some((b, q)) ==> (r
                == Ok::<BinaryOperation, AmlError>(b) && final(stream).pos() == q),
        decreases old(stream).rem(), 2nat,
    {
        proof {
            reveal(simple_binary);
        }
        let opcode = stream.read_byte()?;
        let operand1 = TermArg::parse_integer(stream, current_scope, table)?;
        let operand2 = TermArg::parse_integer(stream, current_scope, table)?;
        let target = Target::parse(stream, current_scope, table)?;
        Ok(BinaryOperation { opcode, operand1, operand2, target })
    }

    pub fn get_left_operand(&self) -> (r: &TermArg)
        ensures
            *r == self.spec_left(),
    {
        &self.operand1
    }

    pub fn get_right_operand(&self) -> (r: &TermArg)
        ensures
            *r == self.spec_right(),
    {
        &self.operand2
    }

    pub fn get_target(&self) -> (r: &Target)
        ensures
            *r == self.spec_target(),
    {
        &self.target
    }

    pub fn get_opcode(&self) -> (r: u8)
        ensures
            r == self.spec_opcode(),
    {
        self.opcode
    }
}

/// The operands of `Concat` (computational data) and `ConcatRes` (buffers).
#[derive(Debug)]
pub enum ConcatDataType {
    ComputationalData(TermArg),
    Buffer(TermArg),
}

#[derive(Debug)]
pub struct Concat {
    data1: ConcatDataType,
    data2: ConcatDataType,
    target: Target,
}

impl Concat {
    pub closed spec fn of_buffers(&self) -> bool {
        self.data1 is Buffer && self.data2 is Buffer
    }

    pub closed spec fn of_data(&self) -> bool {
        self.data1 is ComputationalData && self.data2 is ComputationalData
    }

    /// The two operands and the target.
    pub closed spec fn spec_fields(&self) -> (ConcatDataType, ConcatDataType, Target) {
        (self.data1, self.data2, self.target)
    }

    /// Reads the two operands and the target after `ConcatOp`.
    pub fn parse_concat(stream: &mut AmlStream, current_scope: &NameString, table: &MethodTable) -> (r: Result<
        Self,
        AmlError,
    >)
        requires
            old(stream).wf(),
        ensures
            old(stream).moved_to(final(stream)),
            r matches Ok(c) ==> c.of_data(),
            ({
                let a = one_byte_term(old(stream).at(0));
                let b = one_byte_term(old(stream).at(1));
                let t = one_byte_target(old(stream).at(2));
                (old(stream).rem() >= 3 && a is Some && b is Some && t is Some) ==> (r matches Ok(c) && c.spec_fields()
                    == (ConcatDataType::ComputationalData(a->0), ConcatDataType::ComputationalData(b->0), t->0)
                    && old(stream).advanced(final(stream), 3))
            }),
        decreases old(stream).rem(), 10nat,
    {
        let data1 = TermArg::try_parse(stream, current_scope, table)?;
        let data2 = TermArg::try_parse(stream, current_scope, table)?;
        let target = Target::parse(stream, current_scope, table)?;
        Ok(Concat {
            data1: ConcatDataType::ComputationalData(data1),
            data2: ConcatDataType::ComputationalData(data2),
            target,
        })
    }

    /// Reads the two operands and the target after `ConcatResOp`.
    pub fn parse_concat_res(stream: &mut AmlStream, current_scope: &NameString, table: &MethodTable) -> (r: Result<
        Self,
        AmlError,
    >)
        requires
            old(stream).wf(),
        ensures
            old(stream).moved_to(final(stream)),
            r matches Ok(c) ==> c.of_buffers(),
            ({
                let a = one_byte_term(old(stream).at(0));
                let b = one_byte_term(old(stream).at(1));
                let t = one_byte_target(old(stream).at(2));
                (old(stream).rem() >= 3 && a is Some && b is Some && t is Some) ==> (r matches Ok(c) && c.spec_fields()
                    == (ConcatDataType::Buffer(a->0), ConcatDataType::Buffer(b->0), t->0) && old(stream).advanced(
                    final(stream),
                    3,
                ))
            }),
        decreases old(stream).rem(), 10nat,
    {
        let data1 = TermArg::try_parse(stream, current_scope, table)?;
        let data2 = TermArg::try_parse(stream, current_scope, table)?;
        let target = Target::parse(stream, current_scope, table)?;
        Ok(Concat { data1: ConcatDataType::Buffer(data1), data2: ConcatDataType::Buffer(data2), target })
    }
}

/// `Divide`'s operands and its two targets.
#[derive(Debug)]
pub struct Divide {
    pub dividend: TermArg,
    pub divisor: TermArg,
    pub remainder: Target,
    pub quotient: Target,
}

impl Divide {
    pub closed spec fn spec_dividend(&self) -> TermArg {
        self.dividend
    }

    pub closed spec fn spec_divisor(&self) -> TermArg {
        self.divisor
    }

    pub closed spec fn spec_remainder(&self) -> Target {
        self.remainder
    }

    pub closed spec fn spec_quotient(&self) -> Target {
        self.quotient
    }

    /// Reads the dividend, the divisor, then the remainder and quotient targets.
    pub fn parse(stream: &mut AmlStream, current_scope: &NameString, table: &MethodTable) -> (r: Result<
        Self,
        AmlError,
    >)
        requires
            old(stream).wf(),
        ensures
            old(stream).moved_to(final(stream)),
            r matches Ok(d) ==> d.spec_dividend().is_integer_kind() && d.spec_divisor().is_integer_kind(),
            ({
                let a = one_byte_term(old(stream).at(0));
                let b = one_byte_term(old(stream).at(1));
                let t = one_byte_target(old(stream).at(2));
                let u = one_byte_target(old(stream).at(3));
                (old(stream).rem() >= 4 && a is Some && b is Some && t is Some && u is Some) ==> (r == Ok::<Divide, AmlError>(
                    Divide { dividend: a->0, divisor: b->0, remainder: t->0, quotient: u->0 },
                ) && old(stream).advanced(final(stream), 4))
            }),
        decreases old(stream).rem(), 10nat,
    {
        let dividend = TermArg::parse_integer(stream, current_scope, table)?;
        let divisor = TermArg::parse_integer(stream, current_scope, table)?;
        let remainder = Target::parse(stream, current_scope, table)?;
        let quotient = Target::parse(stream, current_scope, table)?;
        Ok(Divide { dividend, divisor, remainder, quotient })
    }

    pub fn get_dividend(&self) -> (r: &TermArg)
        ensures
            *r == self.spec_dividend(),
    {
        &self.dividend
    }

    pub fn get_divisor(&self) -> (r: &TermArg)
        ensures
            *r == self.spec_divisor(),
    {
        &self.divisor
    }

    pub fn get_remainder(&self) -> (r: &Target)
        ensures
            *r == self.spec_remainder(),
    {
        &self.remainder
    }

    pub fn get_quotient(&self) -> (r: &Target)
        ensures
            *r == self.spec_quotient(),
    {
        &self.quotient
    }
}

/// `Match`'s search package, two comparisons and start index.
#[derive(Debug)]
pub struct Match {
    search_pkg: TermArg,
    match_opcode_1: u8,
    operand_1: TermArg,
    match_opcode_2: u8,
    operand_2: TermArg,
    start_index: TermArg,
}

impl Match {
    pub closed spec fn spec_match_opcodes(&self) -> (u8, u8) {
        (self.match_opcode_1, self.match_opcode_2)
    }

    /// The search package, the two operands and the start index.
    pub closed spec fn spec_operands(&self) -> (TermArg, TermArg, TermArg, TermArg) {
        (self.search_pkg, self.operand_1, self.operand_2, self.start_index)
    }

    /// Reads the operands after `MatchOp`.
    pub fn parse(stream: &mut AmlStream, current_scope: &NameString, table: &MethodTable) -> (r: Result<
        Self,
        AmlError,
    >)
        requires
            old(stream).wf(),
        ensures
            old(stream).moved_to(final(stream)),
            ({
                let a = one_byte_term(old(stream).at(0));
                let b = one_byte_term(old(stream).at(2));
                let c = one_byte_term(old(stream).at(4));
                let d = one_byte_term(old(stream).at(5));
                (old(stream).rem() >= 6 && a is Some && b is Some && c is Some && d is Some) ==> (r matches Ok(m)
                    && m.spec_match_opcodes() == (old(stream).at(1), old(stream).at(3)) && m.spec_operands() == (
                    a->0,
                    b->0,
                    c->0,
                    d->0,
                ) && old(stream).advanced(final(stream), 6))
            }),
        decreases old(stream).rem(), 10nat,
    {
        let search_pkg = TermArg::try_parse(stream, current_scope, table)?;
        let match_opcode_1 = stream.read_byte()?;
        let operand_1 = TermArg::parse_integer(stream, current_scope, table)?;
        let match_opcode_2 = stream.read_byte()?;
        let operand_2 = TermArg::parse_integer(stream, current_scope, table)?;
        let start_index = TermArg::parse_integer(stream, current_scope, table)?;
        Ok(Match { search_pkg, match_opcode_1, operand_1, match_opcode_2, operand_2, start_index })
    }
}

/// `Mid`'s source, index, length and target.
#[derive(Debug)]
pub struct Mid {
    mid_obj: TermArg,
    term_arg_1: TermArg,
    term_arg_2: TermArg,
    target: Target,
}

impl Mid {
    /// The source, the index, the length and the target.
    pub closed spec fn spec_fields(&self) -> (TermArg, TermArg, TermArg, Target) {
        (self.mid_obj, self.term_arg_1, self.term_arg_2, self.target)
    }

    /// Reads the operands after `MidOp`.
    pub fn parse(stream: &mut AmlStream, current_scope: &NameString, table: &MethodTable) -> (r: Result<
        Self,
        AmlError,
    >)
        requires
            old(stream).wf(),
        ensures
            old(stream).moved_to(final(stream)),
            ({
                let a = one_byte_term(old(stream).at(0));
                let b = one_byte_term(old(stream).at(1));
                let c = one_byte_term(old(stream).at(2));
                let t = one_byte_target(old(stream).at(3));
                (old(stream).rem() >= 4 && a is Some && b is Some && c is Some && t is Some) ==> (r matches Ok(m)
                    && m.spec_fields() == (a->0, b->0, c->0, t->0) && old(stream).advanced(final(stream), 4))
            }),
        decreases old(stream).rem(), 10nat,
    {
        let mid_obj = TermArg::try_parse(stream, current_scope, table)?;
        let term_arg_1 = TermArg::try_parse(stream, current_scope, table)?;
        let term_arg_2 = TermArg::try_parse(stream, current_scope, table)?;
        let target = Target::parse(stream, current_scope, table)?;
        Ok(Mid { mid_obj, term_arg_1, term_arg_2, target })
    }
}

/// An AML expression.
#[derive(Debug)]
pub enum ExpressionOpcode {
    BinaryOperation(BinaryOperation),
    DefAcquire(SuperName, u16),
    DefBuffer(ByteList),
    DefConcat(Concat),
    DefConcatRes(Concat),
    DefCondRefOf(SuperName, Target),
    DefCopyObject(TermArg, SimpleName),
    DefDecrement(SuperName),
    DefDivide(Divide),
    DefFindSetLeftBit(TermArg, Target),
    DefFindSetRightBit(TermArg, Target),
    DefFromBCD(TermArg, Target),
    DefIncrement(SuperName),
    DefLAnd(TermArg, TermArg),
    DefLEqual(TermArg, TermArg),
    DefLGreater(TermArg, TermArg),
    DefLGreaterEqual(TermArg, TermArg),
    DefLLess(TermArg, TermArg),
    DefLLessEqual(TermArg, TermArg),
    DefLNot(TermArg),
    DefLNotEqual(TermArg, TermArg),
    DefLoad(NameString, Target),
    DefLoadTable([TermArg; 6]),
    DefLOr(TermArg, TermArg),
    DefMatch(Match),
    DefMid(Mid),
    DefNot(TermArg, Target),
    DefObjectType(SuperName),
    DefPackage(Package),
    DefVarPackage(VarPackage),
    DefSizeOf(SuperName),
    DefStore(TermArg, SuperName),
    DefTimer,
    DefProcessor,
    DefToBCD(TermArg, Target),
    DefToBuffer(TermArg, Target),
    DefToDecimalString(TermArg, Target),
    DefToHexString(TermArg, Target),
    DefToInteger(TermArg, Target),
    DefToString(TermArg, TermArg, Target),
    DefWait(SuperName, TermArg),
    ReferenceTypeOpcode(ReferenceTypeOpcode),
    MethodInvocation(MethodInvocation),
}

/// The single-byte opcodes of `BinaryOperation`.
pub open spec fn is_binary_opcode(op: u8) -> bool {
    op == opcode::ADD_OP || op == opcode::AND_OP || op == opcode::MULTIPLY_OP || op == opcode::NAND_OP
        || op == opcode::MOD_OP || op == opcode::NOR_OP || op == opcode::OR_OP || op
        == opcode::SHIFT_LEFT_OP || op == opcode::SHIFT_RIGHT_OP || op == opcode::SUBTRACT_OP || op
        == opcode::XOR_OP
}

/// The expression an opcode byte (with the next byte after `ExtOpPrefix`,
/// and after `LNotOp`) selects; `None` where the expression is chosen by
/// what follows.
pub enum ExprKind {
    Binary,
    Acquire,
    Buffer,
    Concat,
    ConcatRes,
    CondRefOf,
    CopyObject,
    Decrement,
    Divide,
    FindSetLeftBit,
    FindSetRightBit,
    FromBCD,
    Increment,
    LAnd,
    LEqual,
    LGreater,
    LGreaterEqual,
    LLess,
    LLessEqual,
    LNot,
    LNotEqual,
    Load,
    LoadTable,
    LOr,
    Match,
    Mid,
    Not,
    ObjectType,
    Package,
    VarPackage,
    SizeOf,
    Store,
    Timer,
    Processor,
    ToBCD,
    ToBuffer,
    ToDecimalString,
    ToHexString,
    ToInteger,
    ToString,
    Wait,
    /// A reference opcode or a method invocation.
    Other,
    /// An `ExtOpPrefix` followed by a byte that selects no expression.
    NoExt,
}

pub open spec fn ext_kind(b: u8) -> ExprKind {
    if b == opcode::ACQUIRE_OP {
        ExprKind::Acquire
    } else if b == opcode::COND_REF_OF_OP {
        ExprKind::CondRefOf
    } else if b == opcode::FROM_BCD_OP {
        ExprKind::FromBCD
    } else if b == opcode::LOAD_OP {
        ExprKind::Load
    } else if b == opcode::LOAD_TABLE_OP {
        ExprKind::LoadTable
    } else if b == opcode::TIMER_OP {
        ExprKind::Timer
    } else if b == opcode::TO_BCD_OP {
        ExprKind::ToBCD
    } else if b == opcode::PROCESSOR_OP {
        ExprKind::Processor
    } else if b == opcode::WAIT_OP {
        ExprKind::Wait
    } else {
        ExprKind::NoExt
    }
}

pub open spec fn lnot_kind(b: u8) -> ExprKind {
    if b == opcode::L_LESS_OP {
        ExprKind::LGreaterEqual
    } else if b == opcode::L_GREATER_OP {
        ExprKind::LLessEqual
    } else if b == opcode::L_EQUAL_OP {
        ExprKind::LNotEqual
    } else {
        ExprKind::LNot
    }
}

/// The kind selected by the byte `b0`, given the byte `b1` after it.
pub open spec fn expr_kind(b0: u8, b1: u8) -> ExprKind {
    if b0 == opcode::EXT_OP_PREFIX {
        ext_kind(b1)
    } else if is_binary_opcode(b0) {
        ExprKind::Binary
    } else if b0 == opcode::BUFFER_OP {
        ExprKind::Buffer
    } else if b0 == opcode::CONCAT_OP {
        ExprKind::Concat
    } else if b0 == opcode::CONCAT_RES_OP {
        ExprKind::ConcatRes
    } else if b0 == opcode::COPY_OBJECT_OP {
        ExprKind::CopyObject
    } else if b0 == opcode::DECREMENT_OP {
        ExprKind::Decrement
    } else if b0 == opcode::DIVIDE_OP {
        ExprKind::Divide
    } else if b0 == opcode::FIND_SET_LEFT_BIT_OP {
        ExprKind::FindSetLeftBit
    } else if b0 == opcode::FIND_SET_RIGHT_BIT_OP {
        ExprKind::FindSetRightBit
    } else if b0 == opcode::INCREMENT_OP {
        ExprKind::Increment
    } else if b0 == opcode::L_AND_OP {
        ExprKind::LAnd
    } else if b0 == opcode::L_EQUAL_OP {
        ExprKind::LEqual
    } else if b0 == opcode::L_GREATER_OP {
        ExprKind::LGreater
    } else if b0 == opcode::L_LESS_OP {
        ExprKind::LLess
    } else if b0 == opcode::L_NOT_OP {
        lnot_kind(b1)
    } else if b0 == opcode::L_OR_OP {
        ExprKind::LOr
    } else if b0 == opcode::MATCH_OP {
        ExprKind::Match
    } else if b0 == opcode::MID_OP {
        ExprKind::Mid
    } else if b0 == opcode::NOT_OP {
        ExprKind::Not
    } else if b0 == opcode::OBJECT_TYPE_OP {
        ExprKind::ObjectType
    } else if b0 == opcode::VAR_PACKAGE_OP {
        ExprKind::VarPackage
    } else if b0 == opcode::PACKAGE_OP {
        ExprKind::Package
    } else if b0 == opcode::SIZE_OF_OP {
        ExprKind::SizeOf
    } else if b0 == opcode::STORE_OP {
        ExprKind::Store
    } else if b0 == opcode::TO_BUFFER_OP {
        ExprKind::ToBuffer
    } else if b0 == opcode::TO_DECIMAL_STRING_OP {
        ExprKind::ToDecimalString
    } else if b0 == opcode::TO_HEX_STRING_OP {
        ExprKind::ToHexString
    } else if b0 == opcode::TO_INTEGER_OP {
        ExprKind::ToInteger
    } else if b0 == opcode::TO_STRING_OP {
        ExprKind::ToString
    } else {
        ExprKind::Other
    }
}

impl ExpressionOpcode {
    /// Whether this expression is of kind `k`.
    pub open spec fn has_kind(&self, k: ExprKind) -> bool {
        match self {
            ExpressionOpcode::BinaryOperation(_) => k is Binary,
            ExpressionOpcode::DefAcquire(..) => k is Acquire,
            ExpressionOpcode::DefBuffer(_) => k is Buffer,
            ExpressionOpcode::DefConcat(_) => k is Concat,
            ExpressionOpcode::DefConcatRes(_) => k is ConcatRes,
            ExpressionOpcode::DefCondRefOf(..) => k is CondRefOf,
            ExpressionOpcode::DefCopyObject(_, _) => k is CopyObject,
            ExpressionOpcode::DefDecrement(_) => k is Decrement,
            ExpressionOpcode::DefDivide(_) => k is Divide,
            ExpressionOpcode::DefFindSetLeftBit(..) => k is FindSetLeftBit,
            ExpressionOpcode::DefFindSetRightBit(..) => k is FindSetRightBit,
            ExpressionOpcode::DefFromBCD(..) => k is FromBCD,
            ExpressionOpcode::DefIncrement(_) => k is Increment,
            ExpressionOpcode::DefLAnd(..) => k is LAnd,
            ExpressionOpcode::DefLEqual(..) => k is LEqual,
            ExpressionOpcode::DefLGreater(..) => k is LGreater,
            ExpressionOpcode::DefLGreaterEqual(..) => k is LGreaterEqual,
            ExpressionOpcode::DefLLess(..) => k is LLess,
            ExpressionOpcode::DefLLessEqual(..) => k is LLessEqual,
            ExpressionOpcode::DefLNot(_) => k is LNot,
            ExpressionOpcode::DefLNotEqual(..) => k is LNotEqual,
            ExpressionOpcode::DefLoad(..) => k is Load,
            ExpressionOpcode::DefLoadTable(_) => k is LoadTable,
            ExpressionOpcode::DefLOr(..) => k is LOr,
            ExpressionOpcode::DefMatch(_) => k is Match,
            ExpressionOpcode::DefMid(_) => k is Mid,
            ExpressionOpcode::DefNot(..) => k is Not,
            ExpressionOpcode::DefObjectType(_) => k is ObjectType,
            ExpressionOpcode::DefPackage(_) => k is Package,
            ExpressionOpcode::DefVarPackage(_) => k is VarPackage,
            ExpressionOpcode::DefSizeOf(_) => k is SizeOf,
            ExpressionOpcode::DefStore(..) => k is Store,
            ExpressionOpcode::DefTimer => k is Timer,
            ExpressionOpcode::DefProcessor => k is Processor,
            ExpressionOpcode::DefToBCD(..) => k is ToBCD,
            ExpressionOpcode::DefToBuffer(..) => k is ToBuffer,
            ExpressionOpcode::DefToDecimalString(..) => k is ToDecimalString,
            ExpressionOpcode::DefToHexString(..) => k is ToHexString,
            ExpressionOpcode::DefToInteger(..) => k is ToInteger,
            ExpressionOpcode::DefToString(..) => k is ToString,
            ExpressionOpcode::DefWait(..) => k is Wait,
            ExpressionOpcode::ReferenceTypeOpcode(_) => k is Other,
            ExpressionOpcode::MethodInvocation(_) => k is Other,
        }
    }

    /// Reads an expression. Its opcode (see `expr_kind`) selects the
    /// expression; an `ExtOpPrefix` with an unknown second byte is
    /// `InvalidType` with nothing read.
    pub fn try_parse(stream: &mut AmlStream, current_scope: &NameString, table: &MethodTable) -> (r: Result<
        Self,
        AmlError,
    >)
        requires
            old(stream).wf(),
        ensures
            old(stream).moved_to(final(stream)),
            ({
                let s = old(stream).bytes();
                let p = old(stream).pos();
                &&& p >= s.len() ==> (r matches Err(e) && e is AccessOutOfRange)
                &&& r matches Ok(x) ==> x.has_kind(expr_kind(s[p], s[p + 1]))
                &&& (p + 1 < s.len() && p + 1 <= old(stream).end() && s[p] == opcode::EXT_OP_PREFIX
                    && ext_kind(s[p + 1]) is NoExt) ==> (r matches Err(e) && e is InvalidType
                    && final(stream).same_as(old(stream)))
                &&& simple_expression(s, p, old(stream).end()) matches Some((x, q)) ==> (r == Ok::<
                    ExpressionOpcode,
                    AmlError,
                >(x) && final(stream).pos() == q)
            }),
            r is Ok ==> final(stream).pos() > old(stream).pos(),
        decreases old(stream).rem(), 6nat,
    {
        let ghost s = stream.bytes();
        let ghost p = stream.pos();
        let op = stream.peek_byte()?;
        if op == opcode::EXT_OP_PREFIX {
            let ext = stream.peek_byte_with_pos(1)?;
            if ext == opcode::ACQUIRE_OP {
                stream.seek(2)?;
                let mutex_object = SuperName::try_parse(stream, current_scope, table)?;
                let timeout = stream.read_word()?;
                Ok(ExpressionOpcode::DefAcquire(mutex_object, timeout))
            } else if ext == opcode::COND_REF_OF_OP {
                stream.seek(2)?;
                let source = SuperName::try_parse(stream, current_scope, table)?;
                let result = Target::parse(stream, current_scope, table)?;
                Ok(ExpressionOpcode::DefCondRefOf(source, result))
            } else if ext == opcode::FROM_BCD_OP {
                stream.seek(2)?;
                let bcd_value = TermArg::parse_integer(stream, current_scope, table)?;
                let target = Target::parse(stream, current_scope, table)?;
                Ok(ExpressionOpcode::DefFromBCD(bcd_value, target))
            } else if ext == opcode::LOAD_OP {
                stream.seek(2)?;
                let name = NameString::parse(stream, Some(current_scope))?;
                let target = Target::parse(stream, current_scope, table)?;
                Ok(ExpressionOpcode::DefLoad(name, target))
            } else if ext == opcode::LOAD_TABLE_OP {
                stream.seek(2)?;
                let t0 = TermArg::try_parse(stream, current_scope, table)?;
                let t1 = TermArg::try_parse(stream, current_scope, table)?;
                let t2 = TermArg::try_parse(stream, current_scope, table)?;
                let t3 = TermArg::try_parse(stream, current_scope, table)?;
                let t4 = TermArg::try_parse(stream, current_scope, table)?;
                let t5 = TermArg::try_parse(stream, current_scope, table)?;
                Ok(ExpressionOpcode::DefLoadTable([t0, t1, t2, t3, t4, t5]))
            } else if ext == opcode::TIMER_OP {
                stream.seek(2)?;
                Ok(ExpressionOpcode::DefTimer)
            } else if ext == opcode::TO_BCD_OP {
                stream.seek(2)?;
                let operand = TermArg::parse_integer(stream, current_scope, table)?;
                let target = Target::parse(stream, current_scope, table)?;
                Ok(ExpressionOpcode::DefToBCD(operand, target))
            } else if ext == opcode::PROCESSOR_OP {
                stream.seek(2)?;
                let pkg_length = PkgLength::parse(stream)?;
                stream.seek(pkg_length.actual_length)?;
                Ok(ExpressionOpcode::DefProcessor)
            } else if ext == opcode::WAIT_OP {
                stream.seek(2)?;
                let event_object = SuperName::try_parse(stream, current_scope, table)?;
                let operand = TermArg::parse_integer(stream, current_scope, table)?;
                Ok(ExpressionOpcode::DefWait(event_object, operand))
            } else {
                Err(AmlError::InvalidType)
            }
        } else if op == opcode::ADD_OP || op == opcode::AND_OP || op == opcode::MULTIPLY_OP || op
            == opcode::NAND_OP || op == opcode::MOD_OP || op == opcode::NOR_OP || op == opcode::OR_OP
            || op == opcode::SHIFT_LEFT_OP || op == opcode::SHIFT_RIGHT_OP || op == opcode::SUBTRACT_OP
            || op == opcode::XOR_OP {
            Ok(ExpressionOpcode::BinaryOperation(BinaryOperation::parse(stream, current_scope, table)?))
        } else if op == opcode::BUFFER_OP {
            stream.seek(1)?;
            Ok(ExpressionOpcode::DefBuffer(ByteList::parse(stream, current_scope)?))
        } else if op == opcode::CONCAT_OP {
            stream.seek(1)?;
            Ok(ExpressionOpcode::DefConcat(Concat::parse_concat(stream, current_scope, table)?))
        } else if op == opcode::CONCAT_RES_OP {
            stream.seek(1)?;
            Ok(ExpressionOpcode::DefConcatRes(Concat::parse_concat_res(stream, current_scope, table)?))
        } else if op == opcode::COPY_OBJECT_OP {
            stream.seek(1)?;
            let term_arg = TermArg::try_parse(stream, current_scope, table)?;
            let simple_name = SimpleName::parse(stream, current_scope)?;
            Ok(ExpressionOpcode::DefCopyObject(term_arg, simple_name))
        } else if op == opcode::DECREMENT_OP {
            stream.seek(1)?;
            Ok(ExpressionOpcode::DefDecrement(SuperName::try_parse(stream, current_scope, table)?))
        } else if op == opcode::DIVIDE_OP {
            stream.seek(1)?;
            Ok(ExpressionOpcode::DefDivide(Divide::parse(stream, current_scope, table)?))
        } else if op == opcode::FIND_SET_LEFT_BIT_OP {
            stream.seek(1)?;
            let operand = TermArg::parse_integer(stream, current_scope, table)?;
            let target = Target::parse(stream, current_scope, table)?;
            Ok(ExpressionOpcode::DefFindSetLeftBit(operand, target))
        } else if op == opcode::FIND_SET_RIGHT_BIT_OP {
            stream.seek(1)?;
            let operand = TermArg::parse_integer(stream, current_scope, table)?;
            let target = Target::parse(stream, current_scope, table)?;
            Ok(ExpressionOpcode::DefFindSetRightBit(operand, target))
        } else if op == opcode::INCREMENT_OP {
            stream.seek(1)?;
            Ok(ExpressionOpcode::DefIncrement(SuperName::try_parse(stream, current_scope, table)?))
        } else if op == opcode::L_AND_OP {
            stream.seek(1)?;
            let operand1 = TermArg::parse_integer(stream, current_scope, table)?;
            let operand2 = TermArg::parse_integer(stream, current_scope, table)?;
            Ok(ExpressionOpcode::DefLAnd(operand1, operand2))
        } else if op == opcode::L_EQUAL_OP {
            stream.seek(1)?;
            let operand1 = TermArg::parse_integer(stream, current_scope, table)?;
            let operand2 = TermArg::parse_integer(stream, current_scope, table)?;
            Ok(ExpressionOpcode::DefLEqual(operand1, operand2))
        } else if op == opcode::L_GREATER_OP {
            stream.seek(1)?;
            let operand1 = TermArg::parse_integer(stream, current_scope, table)?;
            let operand2 = TermArg::parse_integer(stream, current_scope, table)?;
            Ok(ExpressionOpcode::DefLGreater(operand1, operand2))
        } else if op == opcode::L_LESS_OP {
            stream.seek(1)?;
            let operand1 = TermArg::parse_integer(stream, current_scope, table)?;
            let operand2 = TermArg::parse_integer(stream, current_scope, table)?;
            Ok(ExpressionOpcode::DefLLess(operand1, operand2))
        } else if op == opcode::L_NOT_OP {
            stream.seek(1)?;
            let next = stream.peek_byte()?;
            if next == opcode::L_LESS_OP {
                stream.seek(1)?;
                let operand1 = TermArg::parse_integer(stream, current_scope, table)?;
                let operand2 = TermArg::parse_integer(stream, current_scope, table)?;
                Ok(ExpressionOpcode::DefLGreaterEqual(operand1, operand2))
            } else if next == opcode::L_GREATER_OP {
                stream.seek(1)?;
                let operand1 = TermArg::parse_integer(stream, current_scope, table)?;
                let operand2 = TermArg::parse_integer(stream, current_scope, table)?;
                Ok(ExpressionOpcode::DefLLessEqual(operand1, operand2))
            } else if next == opcode::L_EQUAL_OP {
                stream.seek(1)?;
                let operand1 = TermArg::parse_integer(stream, current_scope, table)?;
                let operand2 = TermArg::parse_integer(stream, current_scope, table)?;
                Ok(ExpressionOpcode::DefLNotEqual(operand1, operand2))
            } else {
                Ok(ExpressionOpcode::DefLNot(TermArg::parse_integer(stream, current_scope, table)?))
            }
        } else if op == opcode::L_OR_OP {
            stream.seek(1)?;
            let operand1 = TermArg::parse_integer(stream, current_scope, table)?;
            let operand2 = TermArg::parse_integer(stream, current_scope, table)?;
            Ok(ExpressionOpcode::DefLOr(operand1, operand2))
        } else if op == opcode::MATCH_OP {
            stream.seek(1)?;
            Ok(ExpressionOpcode::DefMatch(Match::parse(stream, current_scope, table)?))
        } else if op == opcode::MID_OP {
            stream.seek(1)?;
            Ok(ExpressionOpcode::DefMid(Mid::parse(stream, current_scope, table)?))
        } else if op == opcode::NOT_OP {
            stream.seek(1)?;
            let operand = TermArg::parse_integer(stream, current_scope, table)?;
            let target = Target::parse(stream, current_scope, table)?;
            Ok(ExpressionOpcode::DefNot(operand, target))
        } else if op == opcode::OBJECT_TYPE_OP {
            stream.seek(1)?;
            Ok(ExpressionOpcode::DefObjectType(SuperName::try_parse(stream, current_scope, table)?))
        } else if op == opcode::VAR_PACKAGE_OP {
            Ok(ExpressionOpcode::DefVarPackage(VarPackage::try_parse(stream)?))
        } else if op == opcode::PACKAGE_OP {
            Ok(ExpressionOpcode::DefPackage(Package::try_parse(stream)?))
        } else if op == opcode::SIZE_OF_OP {
            stream.seek(1)?;
            Ok(ExpressionOpcode::DefSizeOf(SuperName::try_parse(stream, current_scope, table)?))
        } else if op == opcode::STORE_OP {
            stream.seek(1)?;
            let term_arg = TermArg::try_parse(stream, current_scope, table)?;
            let super_name = SuperName::try_parse(stream, current_scope, table)?;
            Ok(ExpressionOpcode::DefStore(term_arg, super_name))
        } else if op == opcode::TO_BUFFER_OP {
            stream.seek(1)?;
            let operand = TermArg::parse_integer(stream, current_scope, table)?;
            let target = Target::parse(stream, current_scope, table)?;
            Ok(ExpressionOpcode::DefToBuffer(operand, target))
        } else if op == opcode::TO_DECIMAL_STRING_OP {
            stream.seek(1)?;
            let operand = TermArg::parse_integer(stream, current_scope, table)?;
            let target = Target::parse(stream, current_scope, table)?;
            Ok(ExpressionOpcode::DefToDecimalString(operand, target))
        } else if op == opcode::TO_HEX_STRING_OP {
            stream.seek(1)?;
            let operand = TermArg::parse_integer(stream, current_scope, table)?;
            let target = Target::parse(stream, current_scope, table)?;
            Ok(ExpressionOpcode::DefToHexString(operand, target))
        } else if op == opcode::TO_INTEGER_OP {
            stream.seek(1)?;
            let operand = TermArg::parse_integer(stream, current_scope, table)?;
            let target = Target::parse(stream, current_scope, table)?;
            Ok(ExpressionOpcode::DefToInteger(operand, target))
        } else if op == opcode::TO_STRING_OP {
            stream.seek(1)?;
            let term_arg = TermArg::try_parse(stream, current_scope, table)?;
            let length_arg = TermArg::parse_integer(stream, current_scope, table)?;
            let target = Target::parse(stream, current_scope, table)?;
            Ok(ExpressionOpcode::DefToString(term_arg, length_arg, target))
        } else {
            match ReferenceTypeOpcode::try_parse(stream, current_scope, table) {
                Ok(r) => {
                    return Ok(ExpressionOpcode::ReferenceTypeOpcode(r));
                },
                Err(AmlError::InvalidType) => {},
                Err(e) => {
                    return Err(e);
                },
            }
            Ok(ExpressionOpcode::MethodInvocation(MethodInvocation::try_parse(stream, current_scope, table)?))
        }
    }
}
} // verus!
