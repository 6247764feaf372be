//! AML namespace modifiers: `Alias`, `Name` and `Scope`.
use vstd::prelude::*;
use super::AmlError;
use super::data_object::{
    CompKind, CompParse, ComputationalData, ConstData, DataObject, DataRefObject, WindowParse, is_window,
    spec_computational, spec_window, split_package,
};
use super::name_object::{NameParse, NameString, NameStringFlag, spec_parse_name};
use super::opcode;
use super::stream::AmlStream;
use super::term_object::TermList;

verus! {

/// What reading a name at `p` in the window ending at `end` relative to
/// `scope` gives as `r`, with the stream then at `after_pos`.
pub open spec fn name_outcome(
    s: Seq<u8>,
    p: int,
    end: int,
    scope: &NameString,
    r: Result<NameString, AmlError>,
    after_pos: int,
) -> bool {
    match spec_parse_name(s, p, end, Some((scope.segs(), scope.spec_flag()))) {
        NameParse::Done(q, segs, flag) => r matches Ok(n) && n.segs() == segs && n.spec_flag() == flag
            && after_pos == q,
        NameParse::OutOfRange => r matches Err(e) && e is AccessOutOfRange,
        NameParse::BadChar => r matches Err(e) && e is InvalidType,
    }
}

/// Reading a name at `p` in the window ending at `end`, relative to `scope`.
pub open spec fn parsed_name(s: Seq<u8>, p: int, end: int, scope: &NameString) -> NameParse {
    spec_parse_name(s, p, end, Some((scope.segs(), scope.spec_flag())))
}

/// Where reading a name failed, `r` is that failure.
pub open spec fn name_error<T>(np: NameParse, r: Result<T, AmlError>) -> bool {
    match np {
        NameParse::OutOfRange => r matches Err(e) && e is AccessOutOfRange,
        NameParse::BadChar => r matches Err(e) && e is InvalidType,
        NameParse::Done(..) => true,
    }
}

/// `n` is the name with segments `segs` and kind `flag`.
pub open spec fn is_name(n: NameString, segs: Seq<[u8; 4]>, flag: NameStringFlag) -> bool {
    n.segs() == segs && n.spec_flag() == flag
}

/// The position after the name at `p`, when it reads.
pub open spec fn name_end(s: Seq<u8>, p: int, end: int, scope: &NameString) -> int {
    match spec_parse_name(s, p, end, Some((scope.segs(), scope.spec_flag()))) {
        NameParse::Done(q, _, _) => q,
        _ => p,
    }
}

#[derive(Debug)]
pub struct Alias {
    source: NameString,
    alias: NameString,
}

#[derive(Debug)]
pub struct Name {
    name: NameString,
    data_ref_object: DataRefObject,
}

#[derive(Debug)]
pub struct Scope {
    name: NameString,
    term_list: TermList,
}

#[derive(Debug)]
pub enum NamespaceModifierObject {
    DefAlias(Alias),
    DefName(Name),
    DefScope(Scope),
}

/// The source name that `r` holds, or its error.
pub open spec fn source_of(r: Result<Alias, AmlError>) -> Result<NameString, AmlError> {
    match r {
        Ok(a) => Ok(a.spec_source()),
        Err(e) => Err(e),
    }
}

/// The alias name that `r` holds, or its error.
pub open spec fn alias_of(r: Result<Alias, AmlError>) -> Result<NameString, AmlError> {
    match r {
        Ok(a) => Ok(a.spec_alias()),
        Err(e) => Err(e),
    }
}

/// The data object that `r` holds, or its error.
pub open spec fn object_of(r: Result<Name, AmlError>) -> Result<DataRefObject, AmlError> {
    match r {
        Ok(n) => Ok(n.spec_object()),
        Err(e) => Err(e),
    }
}

impl Alias {
    pub closed spec fn spec_source(&self) -> NameString {
        self.source
    }

    pub closed spec fn spec_alias(&self) -> NameString {
        self.alias
    }

    /// Reads the source name and the alias name after `AliasOp`.
    pub fn parse(stream: &mut AmlStream, current_scope: &NameString) -> (r: Result<Self, AmlError>)
        requires
            old(stream).wf(),
        ensures
            old(stream).moved_to(final(stream)),
            r is Ok ==> final(stream).pos() > old(stream).pos(),
            r matches Ok(a) ==> {
                let s = old(stream).bytes();
                let end = old(stream).end();
                let q = name_end(s, old(stream).pos(), end, current_scope);
                &&& name_outcome(s, old(stream).pos(), end, current_scope, Ok(a.spec_source()), q)
                &&& name_outcome(s, q, end, current_scope, Ok(a.spec_alias()), final(stream).pos())
            },
            ({
                let s = old(stream).bytes();
                let end = old(stream).end();
                let q = name_end(s, old(stream).pos(), end, current_scope);
                match spec_parse_name(s, old(stream).pos(), end, Some((current_scope.segs(), current_scope.spec_flag()))) {
                    NameParse::Done(..) => name_outcome(s, q, end, current_scope, alias_of(r), final(stream).pos()),
                    _ => name_outcome(s, old(stream).pos(), end, current_scope, source_of(r), q),
                }
            }),
    {
        let source = match NameString::parse(stream, Some(current_scope)) {
            Ok(n) => n,
            Err(e) => {
                return Err(e);
            },
        };
        let alias = match NameString::parse(stream, Some(current_scope)) {
            Ok(n) => n,
            Err(e) => {
                return Err(e);
            },
        };
        Ok(Alias { source, alias })
    }

    pub fn get_name(&self) -> (r: &NameString)
        ensures
            *r == self.spec_alias(),
    {
        &self.alias
    }

    pub fn get_source(&self) -> (r: &NameString)
        ensures
            *r == self.spec_source(),
    {
        &self.source
    }
}

impl Name {
    pub closed spec fn spec_name(&self) -> NameString {
        self.name
    }

    pub closed spec fn spec_object(&self) -> DataRefObject {
        self.data_ref_object
    }

    /// Reads the name and its data after `NameOp`.
    pub fn parse(stream: &mut AmlStream, current_scope: &NameString) -> (r: Result<Self, AmlError>)
        requires
            old(stream).wf(),
        ensures
            old(stream).moved_to(final(stream)),
            r is Ok ==> final(stream).pos() > old(stream).pos(),
            r matches Ok(n) ==> name_outcome(
                old(stream).bytes(),
                old(stream).pos(),
                old(stream).end(),
                current_scope,
                Ok(n.spec_name()),
                name_end(old(stream).bytes(), old(stream).pos(), old(stream).end(), current_scope),
            ),
            ({
                let s = old(stream).bytes();
                let end = old(stream).end();
                match spec_parse_name(s, old(stream).pos(), end, Some((current_scope.segs(), current_scope.spec_flag()))) {
                    NameParse::Done(q, _, _) => exists|mid: AmlStream|
                        #![trigger DataRefObject::outcome(&mid, final(stream), current_scope, object_of(r))]
                        mid.bytes() == s && mid.pos() == q && mid.end() == end && DataRefObject::outcome(
                            &mid,
                            final(stream),
                            current_scope,
                            object_of(r),
                        ),
                    NameParse::OutOfRange => r matches Err(e) && e is AccessOutOfRange,
                    NameParse::BadChar => r matches Err(e) && e is InvalidType,
                }
            }),
            name_constant_matches(
                spec_name_constant(
                    old(stream).bytes(),
                    old(stream).pos(),
                    old(stream).end(),
                    (current_scope.segs(), current_scope.spec_flag()),
                ),
                r,
                final(stream).pos(),
            ),
    {
        let name = match NameString::parse(stream, Some(current_scope)) {
            Ok(n) => n,
            Err(e) => {
                return Err(e);
            },
        };
        let ghost mid = *stream;
        let data_ref_object = match DataRefObject::parse(stream, current_scope) {
            Ok(d) => d,
            Err(e) => {
                let r = Err(e);
                assert(DataRefObject::outcome(&mid, stream, current_scope, object_of(r)));
                return r;
            },
        };
        let r = Ok(Name { name, data_ref_object });
        assert(DataRefObject::outcome(&mid, stream, current_scope, object_of(r)));
        r
    }

    pub fn get_name(&self) -> (r: &NameString)
        ensures
            *r == self.spec_name(),
    {
        &self.name
    }

    pub fn get_data_ref_object(&self) -> (r: &DataRefObject)
        ensures
            *r == self.spec_object(),
    {
        &self.data_ref_object
    }
}

/// What reading a package of a name and a term list at `before` gives: the
/// name relative to `scope`, and a term list over the rest of the package in
/// the scope of that name; the stream moves past the package.
pub open spec fn named_list_outcome(
    before: &AmlStream,
    after: &AmlStream,
    scope: &NameString,
    r: Result<(NameString, TermList), AmlError>,
) -> bool {
    let s = before.bytes();
    &&& before.moved_to(after)
    &&& match spec_window(s, before.pos(), before.end()) {
        WindowParse::OutOfRange => r matches Err(e) && e is AccessOutOfRange,
        WindowParse::Done(start, len) => after.pos() == start + len && match spec_parse_name(
            s,
            start,
            start + len,
            Some((scope.segs(), scope.spec_flag())),
        ) {
            NameParse::Done(q, segs, flag) => r matches Ok((n, t)) && n.segs() == segs && n.spec_flag()
                == flag && is_window(&t.window(), s, q, start + len - q) && t.scope().same(&n),
            NameParse::OutOfRange => r matches Err(e) && e is AccessOutOfRange,
            NameParse::BadChar => r matches Err(e) && e is InvalidType,
        },
    }
}

/// The package of a name and a term list at `p` in the window ending at
/// `end`, where it reads (names relative to the scope with segments and
/// kind `scope`): the name's segments and kind, the start and end of the
/// list, and the position after the package.
pub open spec fn spec_named_list(s: Seq<u8>, p: int, end: int, scope: (Seq<[u8; 4]>, NameStringFlag)) -> Option<
    (Seq<[u8; 4]>, NameStringFlag, int, int, int),
> {
    match spec_window(s, p, end) {
        WindowParse::Done(start, len) => match spec_parse_name(s, start, start + len, Some(scope)) {
            NameParse::Done(q, segs, flag) => Some((segs, flag, q, start + len, start + len)),
            _ => None,
        },
        WindowParse::OutOfRange => None,
    }
}

/// Where `rd` is `Some`, `r` holds the name and the term list it describes
/// over the bytes `s`, and `after` is the position after the package.
pub open spec fn named_list_matches(
    s: Seq<u8>,
    rd: Option<(Seq<[u8; 4]>, NameStringFlag, int, int, int)>,
    r: Result<(NameString, TermList), AmlError>,
    after: int,
) -> bool {
    rd matches Some((segs, flag, bs, be, next)) ==> (r matches Ok((n, t)) && n.segs() == segs && n.spec_flag()
        == flag && is_window(&t.window(), s, bs, be - bs) && t.scope().same(&n) && after == next)
}

/// The `Name` of an integer constant at `p` (after `NameOp`), where it
/// reads: the name's segments and kind, the constant, and the position
/// after it.
pub open spec fn spec_name_constant(s: Seq<u8>, p: int, end: int, scope: (Seq<[u8; 4]>, NameStringFlag)) -> Option<
    (Seq<[u8; 4]>, NameStringFlag, ConstData, int),
> {
    match spec_parse_name(s, p, end, Some(scope)) {
        NameParse::Done(q, segs, flag) => match spec_computational(s, q, end) {
            CompParse::Done(q2, CompKind::Const(c)) => Some((segs, flag, c, q2)),
            _ => None,
        },
        _ => None,
    }
}

/// Where `rd` is `Some`, `r` is the `Name` of the constant it describes,
/// and `after` the position after it.
pub open spec fn name_constant_matches(
    rd: Option<(Seq<[u8; 4]>, NameStringFlag, ConstData, int)>,
    r: Result<Name, AmlError>,
    after: int,
) -> bool {
    rd matches Some((segs, flag, c, next)) ==> (r matches Ok(n) && n.spec_name().segs() == segs
        && n.spec_name().spec_flag() == flag && n.spec_object() == DataRefObject::DataObject(
        DataObject::ComputationalData(ComputationalData::ConstData(c)),
    ) && after == next)
}

/// Reads a package length, a name, and keeps the rest of the package as a
/// term list in the scope of that name.
pub fn parse_named_term_list(stream: &mut AmlStream, current_scope: &NameString) -> (r: Result<
    (NameString, TermList),
    AmlError,
>)
    requires
        old(stream).wf(),
    ensures
        named_list_outcome(old(stream), final(stream), current_scope, r),
        r is Ok ==> final(stream).pos() > old(stream).pos(),
        named_list_matches(
            old(stream).bytes(),
            spec_named_list(
                old(stream).bytes(),
                old(stream).pos(),
                old(stream).end(),
                (current_scope.segs(), current_scope.spec_flag()),
            ),
            r,
            final(stream).pos(),
        ),
{
    let mut scope_stream = split_package(stream)?;
    let name = NameString::parse(&mut scope_stream, Some(current_scope))?;
    let term_list = TermList::new(scope_stream, name.copy());
    Ok((name, term_list))
}

impl Scope {
    pub closed spec fn spec_name(&self) -> NameString {
        self.name
    }

    pub closed spec fn spec_term_list(&self) -> TermList {
        self.term_list
    }

    /// Reads the package after `ScopeOp`: the scope's name and its terms.
    pub fn parse(stream: &mut AmlStream, current_scope: &NameString) -> (r: Result<Self, AmlError>)
        requires
            old(stream).wf(),
        ensures
            named_list_outcome(
                old(stream),
                final(stream),
                current_scope,
                match r {
                    Ok(sc) => Ok((sc.spec_name(), sc.spec_term_list())),
                    Err(e) => Err(e),
                },
            ),
            r is Ok ==> final(stream).pos() > old(stream).pos(),
            named_list_matches(
                old(stream).bytes(),
                spec_named_list(
                    old(stream).bytes(),
                    old(stream).pos(),
                    old(stream).end(),
                    (current_scope.segs(), current_scope.spec_flag()),
                ),
                match r {
                    Ok(sc) => Ok((sc.spec_name(), sc.spec_term_list())),
                    Err(e) => Err(e),
                },
                final(stream).pos(),
            ),
    {
        let (name, term_list) = parse_named_term_list(stream, current_scope)?;
        Ok(Scope { name, term_list })
    }

    pub fn get_name(&self) -> (r: &NameString)
        ensures
            *r == self.spec_name(),
    {
        &self.name
    }

    pub fn get_term_list(&self) -> (r: &TermList)
        ensures
            *r == self.spec_term_list(),
    {
        &self.term_list
    }
}

impl NamespaceModifierObject {
    /// Reads `Alias`, `Name` or `Scope`; another byte is `InvalidType` with
    /// nothing read.
    pub fn try_parse(stream: &mut AmlStream, current_scope: &NameString) -> (r: Result<Self, AmlError>)
        requires
            old(stream).wf(),
        ensures
            old(stream).moved_to(final(stream)),
            r is Ok ==> final(stream).pos() > old(stream).pos(),
            ({
                let s = old(stream).bytes();
                let p = old(stream).pos();
                &&& p >= s.len() ==> (r matches Err(e) && e is AccessOutOfRange)
                &&& (p < s.len() && s[p] != opcode::ALIAS_OP && s[p] != opcode::NAME_OP && s[p]
                    != opcode::SCOPE_OP) ==> (r matches Err(e) && e is InvalidType && final(stream).same_as(
                    old(stream),
                ))
                &&& (p < old(stream).end() && s[p] == opcode::SCOPE_OP) ==> named_list_matches(
                    s,
                    spec_named_list(s, p + 1, old(stream).end(), (current_scope.segs(), current_scope.spec_flag())),
                    match r {
                        Ok(NamespaceModifierObject::DefScope(sc)) => Ok((sc.spec_name(), sc.spec_term_list())),
                        Ok(_) => Err(AmlError::InvalidType),
                        Err(e) => Err(e),
                    },
                    final(stream).pos(),
                )
                &&& (p < old(stream).end() && s[p] == opcode::NAME_OP) ==> name_constant_matches(
                    spec_name_constant(s, p + 1, old(stream).end(), (current_scope.segs(), current_scope.spec_flag())),
                    match r {
                        Ok(NamespaceModifierObject::DefName(n)) => Ok(n),
                        Ok(_) => Err(AmlError::InvalidType),
                        Err(e) => Err(e),
                    },
                    final(stream).pos(),
                )
                &&& r matches Ok(NamespaceModifierObject::DefAlias(_)) ==> s[p] == opcode::ALIAS_OP
                &&& r matches Ok(NamespaceModifierObject::DefName(_)) ==> s[p] == opcode::NAME_OP
                &&& r matches Ok(NamespaceModifierObject::DefScope(_)) ==> s[p] == opcode::SCOPE_OP
            }),
    {
        let op = stream.peek_byte()?;
        if op == opcode::ALIAS_OP {
            stream.seek(1)?;
            let alias = Alias::parse(stream, current_scope)?;
            Ok(NamespaceModifierObject::DefAlias(alias))
        } else if op == opcode::NAME_OP {
            stream.seek(1)?;
            let name = Name::parse(stream, current_scope)?;
            Ok(NamespaceModifierObject::DefName(name))
        } else if op == opcode::SCOPE_OP {
            stream.seek(1)?;
            Ok(NamespaceModifierObject::DefScope(Scope::parse(stream, current_scope)?))
        } else {
            Err(AmlError::InvalidType)
        }
    }

    /// The name the object defines: the alias, the name, or the scope.
    pub fn get_name(&self) -> (r: &NameString)
        ensures
            *r == match self {
                NamespaceModifierObject::DefAlias(a) => a.spec_alias(),
                NamespaceModifierObject::DefName(n) => n.spec_name(),
                NamespaceModifierObject::DefScope(s) => s.spec_name(),
            },
    {
        match self {
            NamespaceModifierObject::DefAlias(a) => a.get_name(),
            NamespaceModifierObject::DefName(n) => n.get_name(),
            NamespaceModifierObject::DefScope(s) => s.get_name(),
        }
    }
}

} // verus!
