//! Simple names, super names and targets: where an operator stores its result.
use vstd::prelude::*;
use super::AmlError;
use super::data_object::{try_parse_argument_object, try_parse_local_object};
use super::expression_opcode::ReferenceTypeOpcode;
use super::method_table::MethodTable;
use super::name_object::NameString;
use super::opcode;
use super::stream::AmlStream;

verus! {

#[derive(Debug)]
pub enum SimpleName {
    NameString(NameString),
    ArgObj(u8),
    LocalObj(u8),
}

#[derive(Debug)]
pub enum SuperName {
    SimpleName(SimpleName),
    DebugObj,
    ReferenceTypeOpcode(Box<ReferenceTypeOpcode>),
}

#[derive(Debug)]
pub enum Target {
    Null,
    SuperName(SuperName),
}

impl SimpleName {
    /// Reads a local, an argument or a name.
    pub fn parse(stream: &mut AmlStream, current_scope: &NameString) -> (r: Result<Self, AmlError>)
        requires
            old(stream).wf(),
        ensures
            old(stream).moved_to(final(stream)),
            ({
                let s = old(stream).bytes();
                let p = old(stream).pos();
                &&& (p < s.len() && opcode::LOCAL0_OP <= s[p] <= opcode::LOCAL7_OP && p < old(
                    stream,
                ).end()) ==> (r matches Ok(n) && n == SimpleName::LocalObj((s[p] - opcode::LOCAL0_OP) as u8)
                    && old(stream).advanced(final(stream), 1))
                &&& (p < s.len() && opcode::ARG0_OP <= s[p] <= opcode::ARG6_OP && p < old(stream).end())
                    ==> (r matches Ok(n) && n == SimpleName::ArgObj((s[p] - opcode::ARG0_OP) as u8)
                    && old(stream).advanced(final(stream), 1))
                &&& r matches Ok(SimpleName::NameString(_)) ==> final(stream).pos() > p
                &&& (p < old(stream).end() && s[p] == opcode::EXT_OP_PREFIX) ==> (r matches Err(e)
                    && e is InvalidType)
            }),
    {
        match try_parse_local_object(stream) {
            Ok(n) => {
                return Ok(SimpleName::LocalObj(n));
            },
            Err(AmlError::InvalidType) => {},
            Err(e) => {
                return Err(e);
            },
        }
        match try_parse_argument_object(stream) {
            Ok(n) => {
                return Ok(SimpleName::ArgObj(n));
            },
            Err(AmlError::InvalidType) => {},
            Err(e) => {
                return Err(e);
            },
        }
        Ok(SimpleName::NameString(NameString::parse(stream, Some(current_scope))?))
    }
}

/// Where the byte at `before`'s position is a local or an argument: the
/// super name that names it, one byte on.
pub open spec fn local_or_arg_outcome(before: &AmlStream, after: &AmlStream, r: Result<SuperName, AmlError>) -> bool {
    let b = before.at(0);
    &&& (opcode::LOCAL0_OP <= b <= opcode::LOCAL7_OP) ==> (r matches Ok(n) && n == SuperName::SimpleName(
        SimpleName::LocalObj((b - opcode::LOCAL0_OP) as u8),
    ) && before.advanced(after, 1))
    &&& (opcode::ARG0_OP <= b <= opcode::ARG6_OP) ==> (r matches Ok(n) && n == SuperName::SimpleName(
        SimpleName::ArgObj((b - opcode::ARG0_OP) as u8),
    ) && before.advanced(after, 1))
}

/// The super name that the byte `b` makes on its own: a local or an argument.
pub open spec fn one_byte_super_name(b: u8) -> Option<SuperName> {
    if opcode::LOCAL0_OP <= b <= opcode::LOCAL7_OP {
        Some(SuperName::SimpleName(SimpleName::LocalObj((b - opcode::LOCAL0_OP) as u8)))
    } else if opcode::ARG0_OP <= b <= opcode::ARG6_OP {
        Some(SuperName::SimpleName(SimpleName::ArgObj((b - opcode::ARG0_OP) as u8)))
    } else {
        None
    }
}

/// The target that the byte `b` makes on its own: none, a local or an argument.
pub open spec fn one_byte_target(b: u8) -> Option<Target> {
    if b == 0 {
        Some(Target::Null)
    } else {
        match one_byte_super_name(b) {
            Some(n) => Some(Target::SuperName(n)),
            None => None,
        }
    }
}

impl SuperName {
    /// Reads a reference opcode, else a simple name, else the debug object;
    /// `InvalidType` when none fits.
    pub fn try_parse(stream: &mut AmlStream, current_scope: &NameString, table: &MethodTable) -> (r: Result<
        Self,
        AmlError,
    >)
        requires
            old(stream).wf(),
        ensures
            old(stream).moved_to(final(stream)),
            r matches Ok(SuperName::DebugObj) ==> final(stream).pos() >= old(stream).pos() + 2,
            old(stream).rem() > 0 ==> local_or_arg_outcome(old(stream), final(stream), r),
            (old(stream).rem() >= 2 && old(stream).at(0) == opcode::EXT_OP_PREFIX && old(stream).at(1)
                == opcode::DEBUG_OP) ==> (r matches Ok(SuperName::DebugObj) && old(stream).advanced(final(stream), 2)),
            (old(stream).rem() > 0 && one_byte_super_name(old(stream).at(0)) is Some) ==> (r == Ok::<SuperName, AmlError>(
                one_byte_super_name(old(stream).at(0))->0,
            ) && old(stream).advanced(final(stream), 1)),
        decreases old(stream).rem(), 7nat,
    {
        match ReferenceTypeOpcode::try_parse(stream, current_scope, table) {
            Ok(r_n) => {
                return Ok(SuperName::ReferenceTypeOpcode(Box::new(r_n)));
            },
            Err(AmlError::InvalidType) => {},
            Err(e) => {
                return Err(e);
            },
        }
        let backup = stream.copy();
        match SimpleName::parse(stream, current_scope) {
            Ok(n) => {
                return Ok(SuperName::SimpleName(n));
            },
            Err(AmlError::InvalidType) => {},
            Err(e) => {
                return Err(e);
            },
        }
        stream.roll_back(&backup);
        let op = stream.peek_byte()?;
        if op == opcode::EXT_OP_PREFIX {
            let ext_op = stream.peek_byte_with_pos(1)?;
            if ext_op == opcode::DEBUG_OP {
                stream.seek(2)?;
                return Ok(SuperName::DebugObj);
            }
        }
        Err(AmlError::InvalidType)
    }
}

impl Target {
    /// Reads a zero byte as no target, else a super name.
    pub fn parse(stream: &mut AmlStream, current_scope: &NameString, table: &MethodTable) -> (r: Result<
        Self,
        AmlError,
    >)
        requires
            old(stream).wf(),
        ensures
            old(stream).moved_to(final(stream)),
            ({
                let s = old(stream).bytes();
                let p = old(stream).pos();
                &&& (p < s.len() && s[p] == 0 && p < old(stream).end()) ==> (r matches Ok(t) && t is Null
                    && old(stream).advanced(final(stream), 1))
                &&& (p < s.len() && s[p] == 0 && p >= old(stream).end()) ==> (r matches Err(e)
                    && e is AccessOutOfRange)
                &&& p >= s.len() ==> (r matches Err(e) && e is AccessOutOfRange)
                &&& (p < s.len() && s[p] != 0) ==> !(r matches Ok(Target::Null))
                &&& p < old(stream).end() ==> match r {
                    Ok(Target::SuperName(n)) => local_or_arg_outcome(old(stream), final(stream), Ok(n)),
                    _ => local_or_arg_outcome(old(stream), final(stream), Err(AmlError::InvalidType)),
                }
            }),
            (old(stream).rem() > 0 && one_byte_target(old(stream).at(0)) is Some) ==> (r == Ok::<Target, AmlError>(
                one_byte_target(old(stream).at(0))->0,
            ) && old(stream).advanced(final(stream), 1)),
        decreases old(stream).rem(), 9nat,
    {
        if stream.peek_byte()? == 0 {
            stream.seek(1)?;
            Ok(Target::Null)
        } else {
            Ok(Target::SuperName(SuperName::try_parse(stream, current_scope, table)?))
        }
    }

    pub fn is_null(&self) -> (r: bool)
        ensures
            r == (self is Null),
    {
        match self {
            Target::Null => true,
            _ => false,
        }
    }
}

} // verus!
