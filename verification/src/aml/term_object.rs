//! AML terms: term arguments, method invocations and term lists.
use vstd::prelude::*;
use super::AmlError;
use super::data_object::{
    CompKind, CompParse, ComputationalData, ConstData, DataObject, DataRefObject, is_window, misc_outcome,
    spec_computational, try_parse_argument_object, try_parse_local_object,
};
use super::expression_opcode::{ExpressionOpcode, simple_expression};
use super::method_table::MethodTable;
use super::name_object::{NameParse, NameString, NameStringFlag, spec_parse_name};
use super::named_object::{Method, NamedObject, method_outcome, method_read};
use super::namespace_modifier_object::{NamespaceModifierObject, spec_name_constant, spec_named_list};
use super::opcode;
use super::statement_opcode::{
    IfElse, StatementOpcode, While, if_read_matches, one_byte_statement, spec_if_read, spec_while_read,
    while_read_matches,
};
use super::stream::AmlStream;

verus! {

/// A term argument: an expression, a data object, an argument or a local.
#[derive(Debug)]
pub enum TermArg {
    ExpressionOpcode(Box<ExpressionOpcode>),
    DataObject(DataObject),
    ArgObj(u8),
    LocalObj(u8),
}

/// The term arguments of a method invocation.
#[derive(Debug)]
pub struct TermArgList {
    pub list: Vec<TermArg>,
}

/// A call of a method (or a reference to a named object, with no arguments).
#[derive(Debug)]
pub struct MethodInvocation {
    name: NameString,
    term_arg_list: TermArgList,
}

/// The term argument that the byte `b` makes on its own: a local or an
/// argument.
pub open spec fn one_byte_term(b: u8) -> Option<TermArg> {
    if opcode::LOCAL0_OP <= b <= opcode::LOCAL7_OP {
        Some(TermArg::LocalObj((b - opcode::LOCAL0_OP) as u8))
    } else if opcode::ARG0_OP <= b <= opcode::ARG6_OP {
        Some(TermArg::ArgObj((b - opcode::ARG0_OP) as u8))
    } else {
        None
    }
}

/// The term at `p` in the window ending at `end` where it is a local, an
/// argument, an integer constant or a constant object, with the position
/// after it.
pub open spec fn simple_term(s: Seq<u8>, p: int, end: int) -> Option<(TermArg, int)> {
    if 0 <= p < end && p < s.len() && one_byte_term(s[p]) is Some {
        Some((one_byte_term(s[p])->0, p + 1))
    } else {
        match spec_computational(s, p, end) {
            CompParse::Done(q, CompKind::Const(c)) => Some(
                (TermArg::DataObject(DataObject::ComputationalData(ComputationalData::ConstData(c))), q),
            ),
            CompParse::Done(q, CompKind::Obj(o)) => Some(
                (TermArg::DataObject(DataObject::ComputationalData(ComputationalData::ConstObj(o))), q),
            ),
            _ => None,
        }
    }
}

/// Where `before` starts with a simple term, `r` is that term and `after`
/// stands after it.
pub open spec fn read_simple_term(before: &AmlStream, after: &AmlStream, r: Result<TermArg, AmlError>) -> bool {
    simple_term(before.bytes(), before.pos(), before.end()) matches Some((t, q)) ==> (r == Ok::<TermArg, AmlError>(t)
        && after.pos() == q)
}

/// `after` is `before` one byte on, and `r` is the term of that byte.
pub open spec fn read_one_byte_term(before: &AmlStream, after: &AmlStream, r: Result<TermArg, AmlError>) -> bool {
    (before.rem() > 0 && one_byte_term(before.at(0)) is Some) ==> (r == Ok::<TermArg, AmlError>(
        one_byte_term(before.at(0))->0,
    ) && before.advanced(after, 1))
}

impl TermArg {
    /// Whether this is a kind of term that can stand for an integer.
    pub open spec fn is_integer_kind(&self) -> bool {
        match self {
            TermArg::LocalObj(_) => true,
            TermArg::ArgObj(_) => true,
            TermArg::ExpressionOpcode(_) => true,
            TermArg::DataObject(DataObject::ComputationalData(ComputationalData::StringData(_))) => false,
            TermArg::DataObject(_) => true,
        }
    }

    /// Reads a local, an argument, a data object or an expression, trying
    /// them in that order; `InvalidType` when none fits.
    pub fn try_parse(stream: &mut AmlStream, current_scope: &NameString, table: &MethodTable) -> (r: Result<
        Self,
        AmlError,
    >)
        requires
            old(stream).wf(),
        ensures
            old(stream).moved_to(final(stream)),
            ({
                let s = old(stream).bytes();
                let p = old(stream).pos();
                &&& (p < s.len() && opcode::LOCAL0_OP <= s[p] <= opcode::LOCAL7_OP && p < old(
                    stream,
                ).end()) ==> r == Ok::<TermArg, AmlError>(TermArg::LocalObj((s[p] - opcode::LOCAL0_OP) as u8))
                    && old(stream).advanced(final(stream), 1)
                &&& (p < s.len() && opcode::ARG0_OP <= s[p] <= opcode::ARG6_OP && p < old(stream).end())
                    ==> r == Ok::<TermArg, AmlError>(TermArg::ArgObj((s[p] - opcode::ARG0_OP) as u8))
                    && old(stream).advanced(final(stream), 1)
                &&& p >= s.len() ==> (r matches Err(e) && e is AccessOutOfRange)
            }),
            r is Ok ==> final(stream).pos() > old(stream).pos(),
            read_one_byte_term(old(stream), final(stream), r),
            read_simple_term(old(stream), final(stream), r),
        decreases old(stream).rem(), 8nat,
    {
        match try_parse_local_object(stream) {
            Ok(n) => {
                return Ok(TermArg::LocalObj(n));
            },
            Err(AmlError::InvalidType) => {},
            Err(e) => {
                return Err(e);
            },
        }
        match try_parse_argument_object(stream) {
            Ok(n) => {
                return Ok(TermArg::ArgObj(n));
            },
            Err(AmlError::InvalidType) => {},
            Err(e) => {
                return Err(e);
            },
        }
        match DataObject::try_parse(stream, current_scope) {
            Ok(d) => {
                return Ok(TermArg::DataObject(d));
            },
            Err(AmlError::InvalidType) => {},
            Err(e) => {
                return Err(e);
            },
        }
        match ExpressionOpcode::try_parse(stream, current_scope, table) {
            Ok(o) => {
                return Ok(TermArg::ExpressionOpcode(Box::new(o)));
            },
            Err(AmlError::InvalidType) => {},
            Err(e) => {
                return Err(e);
            },
        }
        Err(AmlError::InvalidType)
    }

    /// Reads a term argument that can stand for an integer. A string is
    /// refused with `InvalidType`, and the stream goes back to where it was.
    pub fn parse_integer(stream: &mut AmlStream, current_scope: &NameString, table: &MethodTable) -> (r: Result<
        Self,
        AmlError,
    >)
        requires
            old(stream).wf(),
        ensures
            old(stream).moved_to(final(stream)),
            r matches Ok(t) ==> t.is_integer_kind(),
            r is Ok ==> final(stream).pos() > old(stream).pos(),
            ({
                let s = old(stream).bytes();
                let p = old(stream).pos();
                &&& (p < s.len() && opcode::LOCAL0_OP <= s[p] <= opcode::LOCAL7_OP && p < old(
                    stream,
                ).end()) ==> r == Ok::<TermArg, AmlError>(TermArg::LocalObj((s[p] - opcode::LOCAL0_OP) as u8))
                    && old(stream).advanced(final(stream), 1)
                &&& (p < s.len() && opcode::ARG0_OP <= s[p] <= opcode::ARG6_OP && p < old(stream).end())
                    ==> r == Ok::<TermArg, AmlError>(TermArg::ArgObj((s[p] - opcode::ARG0_OP) as u8))
                    && old(stream).advanced(final(stream), 1)
                &&& p >= s.len() ==> (r matches Err(e) && e is AccessOutOfRange)
            }),
            read_one_byte_term(old(stream), final(stream), r),
            read_simple_term(old(stream), final(stream), r),
        decreases old(stream).rem(), 9nat,
    {
        let backup = stream.copy();
        let arg = match Self::try_parse(stream, current_scope, table) {
            Ok(a) => a,
            Err(e) => {
                return Err(e);
            },
        };
        let ok = match &arg {
            TermArg::DataObject(DataObject::ComputationalData(ComputationalData::StringData(_))) => false,
            _ => true,
        };
        if ok {
            Ok(arg)
        } else {
            stream.roll_back(&backup);
            Err(AmlError::InvalidType)
        }
    }
}

impl TermArgList {
    /// Reads `argument_count` term arguments.
    pub fn parse(
        stream: &mut AmlStream,
        current_scope: &NameString,
        argument_count: usize,
        table: &MethodTable,
    ) -> (r: Result<Self, AmlError>)
        requires
            old(stream).wf(),
        ensures
            old(stream).moved_to(final(stream)),
            r matches Ok(l) ==> l.list@.len() == argument_count,
            argument_count == 0 ==> (r matches Ok(l) && l.list@.len() == 0 && final(stream).same_as(old(stream))),
        decreases old(stream).rem(), 10nat,
    {
        let mut list: Vec<TermArg> = Vec::new();
        let mut i: usize = 0;
        while i < argument_count
            invariant
                old(stream).moved_to(stream),
                i <= argument_count,
                list@.len() == i,
                i == 0 ==> stream.same_as(old(stream)),
            decreases argument_count - i,
        {
            let t = TermArg::try_parse(stream, current_scope, table)?;
            list.push(t);
            i = i + 1;
        }
        Ok(TermArgList { list })
    }
}

impl MethodInvocation {
    pub closed spec fn spec_name(&self) -> NameString {
        self.name
    }

    pub closed spec fn spec_args(&self) -> Seq<TermArg> {
        self.term_arg_list.list@
    }

    /// Reads a name, then as many term arguments as `table` gives for it.
    /// A bytes that is not a name is `InvalidType`, with the stream back
    /// where it was.
    pub fn try_parse(stream: &mut AmlStream, current_scope: &NameString, table: &MethodTable) -> (r: Result<
        Self,
        AmlError,
    >)
        requires
            old(stream).wf(),
        ensures
            old(stream).moved_to(final(stream)),
            r is Ok ==> final(stream).pos() > old(stream).pos(),
            r matches Ok(m) ==> !m.spec_name().is_null() ==> table.spec_lookup(&m.spec_name()) == Some(
                m.spec_args().len() as usize,
            ),
            match spec_parse_name(
                old(stream).bytes(),
                old(stream).pos(),
                old(stream).end(),
                Some((current_scope.segs(), current_scope.spec_flag())),
            ) {
                NameParse::Done(p, segs, flag) => {
                    &&& r matches Ok(m) ==> m.spec_name().segs() == segs && m.spec_name().spec_flag() == flag
                        && final(stream).pos() >= p
                    &&& (flag == NameStringFlag::NullName || table.spec_lookup_parts(segs, flag) == Some(0usize))
                        ==> (r matches Ok(m) && m.spec_args().len() == 0 && final(stream).pos() == p)
                    &&& (flag != NameStringFlag::NullName && table.spec_lookup_parts(segs, flag) is None) ==> (
                    r matches Err(e) && e is InvalidName)
                },
                _ => r matches Err(e) && e is InvalidType && final(stream).same_as(old(stream)),
            },
        decreases old(stream).rem(), 2nat,
    {
        let backup = stream.copy();
        match NameString::parse(stream, Some(current_scope)) {
            Ok(name) => {
                let arg_cnt = match table.find_method_argument_count(&name) {
                    Ok(c) => c,
                    Err(e) => {
                        return Err(e);
                    },
                };
                let term_arg_list = match TermArgList::parse(stream, current_scope, arg_cnt, table) {
                    Ok(l) => l,
                    Err(e) => {
                        return Err(e);
                    },
                };
                Ok(MethodInvocation { name, term_arg_list })
            },
            Err(_) => {
                stream.roll_back(&backup);
                Err(AmlError::InvalidType)
            },
        }
    }

    pub fn get_name(&self) -> (r: &NameString)
        ensures
            *r == self.spec_name(),
    {
        &self.name
    }

    pub fn get_ter_arg_list(&self) -> (r: &TermArgList)
        ensures
            r.list@ == self.spec_args(),
    {
        &self.term_arg_list
    }
}


/// A list of terms: the bytes still to read, and the scope they belong to.
#[derive(Debug)]
pub struct TermList {
    stream: AmlStream,
    current_scope: NameString,
}

impl Clone for TermList {
    fn clone(&self) -> (r: Self)
        ensures
            r.window().same_as(&self.window()),
            r.scope().same(&self.scope()),
    {
        TermList { stream: self.stream.copy(), current_scope: self.current_scope.copy() }
    }
}

/// A term: a namespace modifier, a named object, a statement or an expression.
#[derive(Debug)]
pub enum TermObj {
    NamespaceModifierObj(NamespaceModifierObject),
    NamedObj(NamedObject),
    StatementOpcode(StatementOpcode),
    ExpressionOpcode(ExpressionOpcode),
}

impl TermList {
    pub closed spec fn window(&self) -> AmlStream {
        self.stream
    }

    pub closed spec fn scope(&self) -> NameString {
        self.current_scope
    }

    pub fn new(stream: AmlStream, current_scope: NameString) -> (r: Self)
        ensures
            r.window() == stream,
            r.scope() == current_scope,
    {
        TermList { stream, current_scope }
    }

    /// Whether the list's window can be read.
    pub fn is_readable(&self) -> (r: bool)
        ensures
            r == self.window().wf(),
    {
        self.stream.is_valid()
    }

    pub fn is_end_of_stream(&self) -> (r: bool)
        requires
            self.window().wf(),
        ensures
            r == (self.window().rem() == 0),
    {
        self.stream.is_end_of_stream()
    }

    pub fn get_scope_name(&self) -> (r: &NameString)
        ensures
            *r == self.scope(),
    {
        &self.current_scope
    }

    /// Reads the next term; `None` at the end of the list.
    pub fn next(&mut self, table: &MethodTable) -> (r: Result<Option<TermObj>, AmlError>)
        requires
            old(self).window().wf(),
        ensures
            old(self).window().moved_to(&final(self).window()),
            final(self).scope() == old(self).scope(),
            old(self).window().rem() == 0 <==> r matches Ok(None),
            r matches Ok(Some(_)) ==> final(self).window().pos() > old(self).window().pos(),
            simple_term_obj(old(self).window().bytes(), old(self).window().pos(), old(self).window().end()) matches Some(
                (t, q),
            ) ==> (r == Ok::<Option<TermObj>, AmlError>(Some(t)) && final(self).window().pos() == q),
            (old(self).window().rem() > 0 && old(self).window().at(0) == opcode::METHOD_OP && method_read(
                old(self).window().bytes(),
                old(self).window().pos() + 1,
                old(self).window().end(),
                (old(self).scope().segs(), old(self).scope().spec_flag()),
            ) is Some) ==> method_outcome(
                old(self).window().bytes(),
                old(self).window().pos() + 1,
                old(self).window().end(),
                &old(self).scope(),
                match r {
                    Ok(Some(t)) => method_term(Ok(t)),
                    Ok(None) => Err(AmlError::InvalidType),
                    Err(e) => Err(e),
                },
                final(self).window().pos(),
            ),
            decl_matches(
                old(self).window().bytes(),
                spec_decl(
                    old(self).window().bytes(),
                    old(self).window().pos(),
                    old(self).window().end(),
                    (old(self).scope().segs(), old(self).scope().spec_flag()),
                ),
                next_term(r),
                final(self).window().pos(),
            ),
            (old(self).window().rem() > 0 && old(self).window().at(0) == opcode::IF_OP) ==> if_read_matches(
                old(self).window().bytes(),
                spec_if_read(old(self).window().bytes(), old(self).window().pos() + 1, old(self).window().end()),
                if_term(next_term(r)),
                final(self).window().pos(),
            ),
            (old(self).window().rem() > 0 && old(self).window().at(0) == opcode::WHILE_OP) ==> while_read_matches(
                old(self).window().bytes(),
                spec_while_read(old(self).window().bytes(), old(self).window().pos() + 1, old(self).window().end()),
                while_term(next_term(r)),
                final(self).window().pos(),
            ),
    {
        proof {
            reveal(decl_matches);
        }
        if self.stream.is_end_of_stream() {
            Ok(None)
        } else {
            let o = TermObj::parse(&mut self.stream, &self.current_scope, table)?;
            Ok(Some(o))
        }
    }
}

/// The term at `p` in the window ending at `end` where it is a statement of
/// one byte, `Return` of a simple term, or a simple expression (see
/// `simple_term` and `simple_expression`), with the position after it.
pub open spec fn simple_term_obj(s: Seq<u8>, p: int, end: int) -> Option<(TermObj, int)> {
    if !(0 <= p < end) {
        None
    } else if one_byte_statement(s[p]) is Some {
        Some((TermObj::StatementOpcode(one_byte_statement(s[p])->0), p + 1))
    } else if s[p] == opcode::RETURN_OP {
        match simple_term(s, p + 1, end) {
            Some((t, q)) => Some((TermObj::StatementOpcode(StatementOpcode::DefReturn(t)), q)),
            None => None,
        }
    } else {
        match simple_expression(s, p, end) {
            Some((e, q)) => Some((TermObj::ExpressionOpcode(e), q)),
            None => None,
        }
    }
}

/// The method that `r` holds as a term, or its error.
pub open spec fn method_term(r: Result<TermObj, AmlError>) -> Result<Method, AmlError> {
    match r {
        Ok(TermObj::NamedObj(NamedObject::DefMethod(m))) => Ok(m),
        Ok(_) => Err(AmlError::InvalidType),
        Err(e) => Err(e),
    }
}

/// The `If` that `r` holds as a term, or its error.
pub open spec fn if_term(r: Result<TermObj, AmlError>) -> Result<IfElse, AmlError> {
    match r {
        Ok(TermObj::StatementOpcode(StatementOpcode::DefIfElse(i))) => Ok(i),
        Ok(_) => Err(AmlError::InvalidType),
        Err(e) => Err(e),
    }
}

/// The `While` that `r` holds as a term, or its error.
pub open spec fn while_term(r: Result<TermObj, AmlError>) -> Result<While, AmlError> {
    match r {
        Ok(TermObj::StatementOpcode(StatementOpcode::DefWhile(w))) => Ok(w),
        Ok(_) => Err(AmlError::InvalidType),
        Err(e) => Err(e),
    }
}

/// The term that `r` holds as the next term of a list, or its error.
pub open spec fn next_term(r: Result<Option<TermObj>, AmlError>) -> Result<TermObj, AmlError> {
    match r {
        Ok(Some(t)) => Ok(t),
        Ok(None) => Err(AmlError::InvalidType),
        Err(e) => Err(e),
    }
}

/// A declaration read from a term list: a scope or a device (the name's
/// segments and kind, and the start and end of its term list), the `Name`
/// of an integer constant, or a method (its name, flags, and the start and
/// end of its body).
pub enum Decl {
    Scope(Seq<[u8; 4]>, NameStringFlag, int, int),
    Device(Seq<[u8; 4]>, NameStringFlag, int, int),
    Name(Seq<[u8; 4]>, NameStringFlag, ConstData),
    Method(Seq<[u8; 4]>, NameStringFlag, u8, int, int),
}

/// The declaration at `p` in the window ending at `end` (names relative to
/// the scope with segments and kind `scope`), where one reads there, with
/// the position after it.
pub open spec fn spec_decl(s: Seq<u8>, p: int, end: int, scope: (Seq<[u8; 4]>, NameStringFlag)) -> Option<(Decl, int)> {
    if !(0 <= p < end) {
        None
    } else if s[p] == opcode::SCOPE_OP {
        match spec_named_list(s, p + 1, end, scope) {
            Some((segs, flag, bs, be, next)) => Some((Decl::Scope(segs, flag, bs, be), next)),
            None => None,
        }
    } else if s[p] == opcode::NAME_OP {
        match spec_name_constant(s, p + 1, end, scope) {
            Some((segs, flag, c, next)) => Some((Decl::Name(segs, flag, c), next)),
            None => None,
        }
    } else if s[p] == opcode::METHOD_OP {
        match method_read(s, p + 1, end, scope) {
            Some((segs, flag, flags, bs, next)) => Some((Decl::Method(segs, flag, flags, bs, next), next)),
            None => None,
        }
    } else if p + 1 < end && s[p] == opcode::EXT_OP_PREFIX && s[p + 1] == opcode::DEVICE_OP {
        match spec_named_list(s, p + 2, end, scope) {
            Some((segs, flag, bs, be, next)) => Some((Decl::Device(segs, flag, bs, be), next)),
            None => None,
        }
    } else {
        None
    }
}

/// Where `d` is `Some`, `r` is the term it describes over the bytes `s`,
/// and `after` the position after it.
#[verifier::opaque]
pub open spec fn decl_matches(s: Seq<u8>, d: Option<(Decl, int)>, r: Result<TermObj, AmlError>, after: int) -> bool {
    d matches Some((decl, next)) ==> after == next && match decl {
        Decl::Scope(segs, flag, bs, be) => r matches Ok(
            TermObj::NamespaceModifierObj(NamespaceModifierObject::DefScope(sc)),
        ) && sc.spec_name().segs() == segs && sc.spec_name().spec_flag() == flag && is_window(
            &sc.spec_term_list().window(),
            s,
            bs,
            be - bs,
        ) && sc.spec_term_list().scope().same(&sc.spec_name()),
        Decl::Device(segs, flag, bs, be) => r matches Ok(TermObj::NamedObj(NamedObject::DefDevice(dv)))
            && dv.spec_name().segs() == segs && dv.spec_name().spec_flag() == flag && is_window(
            &dv.spec_term_list().window(),
            s,
            bs,
            be - bs,
        ) && dv.spec_term_list().scope().same(&dv.spec_name()),
        Decl::Name(segs, flag, c) => r matches Ok(TermObj::NamespaceModifierObj(NamespaceModifierObject::DefName(n)))
            && n.spec_name().segs() == segs && n.spec_name().spec_flag() == flag && n.spec_object()
            == DataRefObject::DataObject(DataObject::ComputationalData(ComputationalData::ConstData(c))),
        Decl::Method(segs, flag, flags, bs, be) => r matches Ok(TermObj::NamedObj(NamedObject::DefMethod(m)))
            && m.spec_name().segs() == segs && m.spec_name().spec_flag() == flag && m.spec_flags() == flags
            && is_window(&m.spec_term_list().window(), s, bs, be - bs) && m.spec_term_list().scope().same(
            &m.spec_name(),
        ),
    }
}

impl TermObj {
    /// Reads a namespace modifier, else a named object, else a statement,
    /// else an expression; `InvalidType` when none fits.
    pub fn parse(stream: &mut AmlStream, current_scope: &NameString, table: &MethodTable) -> (r: Result<
        Self,
        AmlError,
    >)
        requires
            old(stream).wf(),
            old(stream).rem() > 0,
        ensures
            old(stream).moved_to(final(stream)),
            r is Ok ==> final(stream).pos() > old(stream).pos(),
            one_byte_statement(old(stream).at(0)) is Some ==> r == Ok::<TermObj, AmlError>(
                TermObj::StatementOpcode(one_byte_statement(old(stream).at(0))->0),
            ) && old(stream).advanced(final(stream), 1),
            simple_term_obj(old(stream).bytes(), old(stream).pos(), old(stream).end()) matches Some((t, q)) ==> (r
                == Ok::<TermObj, AmlError>(t) && final(stream).pos() == q),
            (old(stream).at(0) == opcode::METHOD_OP && method_read(
                old(stream).bytes(),
                old(stream).pos() + 1,
                old(stream).end(),
                (current_scope.segs(), current_scope.spec_flag()),
            ) is Some) ==> method_outcome(
                old(stream).bytes(),
                old(stream).pos() + 1,
                old(stream).end(),
                current_scope,
                method_term(r),
                final(stream).pos(),
            ),
            old(stream).at(0) == opcode::IF_OP ==> if_read_matches(
                old(stream).bytes(),
                spec_if_read(old(stream).bytes(), old(stream).pos() + 1, old(stream).end()),
                if_term(r),
                final(stream).pos(),
            ),
            decl_matches(
                old(stream).bytes(),
                spec_decl(
                    old(stream).bytes(),
                    old(stream).pos(),
                    old(stream).end(),
                    (current_scope.segs(), current_scope.spec_flag()),
                ),
                r,
                final(stream).pos(),
            ),
            old(stream).at(0) == opcode::WHILE_OP ==> while_read_matches(
                old(stream).bytes(),
                spec_while_read(old(stream).bytes(), old(stream).pos() + 1, old(stream).end()),
                while_term(r),
                final(stream).pos(),
            ),
    {
        proof {
            reveal(decl_matches);
        }
        match NamespaceModifierObject::try_parse(stream, current_scope) {
            Ok(o) => {
                return Ok(TermObj::NamespaceModifierObj(o));
            },
            Err(AmlError::InvalidType) => {},
            Err(e) => {
                return Err(e);
            },
        }
        match NamedObject::try_parse(stream, current_scope, table) {
            Ok(o) => {
                return Ok(TermObj::NamedObj(o));
            },
            Err(AmlError::InvalidType) => {},
            Err(e) => {
                return Err(e);
            },
        }
        match StatementOpcode::try_parse(stream, current_scope, table) {
            Ok(o) => {
                return Ok(TermObj::StatementOpcode(o));
            },
            Err(AmlError::InvalidType) => {},
            Err(e) => {
                return Err(e);
            },
        }
        match ExpressionOpcode::try_parse(stream, current_scope, table) {
            Ok(o) => {
                return Ok(TermObj::ExpressionOpcode(o));
            },
            Err(AmlError::InvalidType) => {},
            Err(e) => {
                return Err(e);
            },
        }
        Err(AmlError::InvalidType)
    }
}
} // verus!
