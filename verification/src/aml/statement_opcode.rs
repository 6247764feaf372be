//! AML statements: control flow, notifications, waits and fatal errors.
use vstd::prelude::*;
use super::AmlError;
use super::data_object::{WindowParse, is_window, spec_window, split_package};
use super::method_table::MethodTable;
use super::name_object::NameString;
use super::opcode;
use super::stream::AmlStream;
use super::super_name::{SuperName, one_byte_super_name};
use super::term_object::{TermArg, TermList, one_byte_term, simple_term};

verus! {

#[derive(Debug)]
pub struct Fatal {
    fatal_type: u8,
    fatal_code: u32,
    fatal_arg: TermArg,
}

#[derive(Debug)]
pub struct IfElse {
    predicate: TermArg,
    term_list: TermList,
    else_term_list: Option<TermList>,
}

#[derive(Debug)]
pub struct Notify {
    notify_object: SuperName,
    notify_value: TermArg,
}

#[derive(Debug)]
pub struct While {
    predicate: TermArg,
    term_list: TermList,
}

#[derive(Debug)]
pub enum StatementOpcode {
    DefBreak,
    DefBreakPoint,
    DefContinue,
    DefFatal(Fatal),
    DefIfElse(IfElse),
    DefNoop,
    DefNotify(Notify),
    DefRelease(SuperName),
    DefReset(SuperName),
    DefReturn(TermArg),
    DefSignal(SuperName),
    DefSleep(TermArg),
    DefStall(TermArg),
    DefWhile(While),
}

impl Fatal {
    pub closed spec fn spec_type(&self) -> u8 {
        self.fatal_type
    }

    pub closed spec fn spec_code(&self) -> u32 {
        self.fatal_code
    }

    pub closed spec fn spec_arg(&self) -> TermArg {
        self.fatal_arg
    }

    /// Reads the type byte, the code and the argument after `FatalOp`.
    pub fn parse(stream: &mut AmlStream, current_scope: &NameString, table: &MethodTable) -> (r: Result<
        Self,
        AmlError,
    >)
        requires
            old(stream).wf(),
        ensures
            old(stream).moved_to(final(stream)),
            r is Ok ==> final(stream).pos() > old(stream).pos(),
            r matches Ok(f) ==> f.spec_type() == old(stream).at(0) && f.spec_code()
                == super::stream::le_value(old(stream).bytes(), old(stream).pos() + 1, 4),
            old(stream).rem() < 5 ==> (r matches Err(e) && e is AccessOutOfRange),
            (old(stream).rem() >= 6 && one_byte_term(old(stream).at(5)) is Some) ==> (r matches Ok(f) && f.spec_arg()
                == one_byte_term(old(stream).at(5))->0 && old(stream).advanced(final(stream), 6)),
    {
        let fatal_type = stream.read_byte()?;
        let fatal_code = stream.read_dword()?;
        let fatal_arg = TermArg::parse_integer(stream, current_scope, table)?;
        Ok(Fatal { fatal_type, fatal_code, fatal_arg })
    }
}

/// The `If` package at `p` in the window ending at `end` (after `IfOp`),
/// where its predicate is a simple term (see `simple_term`): the
/// predicate, the start and end of its body, the start and end of the
/// body of an `Else` package that follows, and the position after them.
pub open spec fn spec_if_read(s: Seq<u8>, p: int, end: int) -> Option<(TermArg, int, int, Option<(int, int)>, int)> {
    match spec_window(s, p, end) {
        WindowParse::Done(start, len) => match simple_term(s, start, start + len) {
            Some((t, q)) => {
                let a = start + len;
                if a >= s.len() {
                    None
                } else if s[a] != opcode::ELSE_OP {
                    Some((t, q, a, None, a))
                } else if a >= end {
                    None
                } else {
                    match spec_window(s, a + 1, end) {
                        WindowParse::Done(start2, len2) => Some((t, q, a, Some((start2, start2 + len2)), start2 + len2)),
                        WindowParse::OutOfRange => None,
                    }
                }
            },
            None => None,
        },
        WindowParse::OutOfRange => None,
    }
}

/// Where `rd` is `Some`, `r` is the `If` it describes over the bytes `s`,
/// and `after` the position after it.
pub open spec fn if_read_matches(
    s: Seq<u8>,
    rd: Option<(TermArg, int, int, Option<(int, int)>, int)>,
    r: Result<IfElse, AmlError>,
    after: int,
) -> bool {
    rd matches Some((t, bs, be, els, next)) ==> (r matches Ok(i) && i.spec_predicate() == t && is_window(
        &i.spec_term_list().window(),
        s,
        bs,
        be - bs,
    ) && after == next && match els {
        None => i.spec_else() is None,
        Some((es, ee)) => i.spec_else() matches Some(e) && is_window(&e.window(), s, es, ee - es),
    })
}

/// The `While` package at `p` (after `WhileOp`) where its predicate is a
/// simple term: the predicate, the start and end of its body, and the
/// position after it.
pub open spec fn spec_while_read(s: Seq<u8>, p: int, end: int) -> Option<(TermArg, int, int, int)> {
    match spec_window(s, p, end) {
        WindowParse::Done(start, len) => match simple_term(s, start, start + len) {
            Some((t, q)) => Some((t, q, start + len, start + len)),
            None => None,
        },
        WindowParse::OutOfRange => None,
    }
}

/// Where `rd` is `Some`, `r` is the `While` it describes over the bytes
/// `s`, and `after` the position after it.
pub open spec fn while_read_matches(s: Seq<u8>, rd: Option<(TermArg, int, int, int)>, r: Result<While, AmlError>, after: int) -> bool {
    rd matches Some((t, bs, be, next)) ==> (r matches Ok(w) && w.spec_predicate() == t && is_window(
        &w.spec_term_list().window(),
        s,
        bs,
        be - bs,
    ) && after == next)
}

impl IfElse {
    pub closed spec fn spec_predicate(&self) -> TermArg {
        self.predicate
    }

    pub closed spec fn spec_term_list(&self) -> TermList {
        self.term_list
    }

    pub closed spec fn spec_else(&self) -> Option<TermList> {
        self.else_term_list
    }

    pub fn get_predicate(&self) -> (r: &TermArg)
        ensures
            *r == self.spec_predicate(),
    {
        &self.predicate
    }

    pub fn get_if_true_term_list(&self) -> (r: &TermList)
        ensures
            *r == self.spec_term_list(),
    {
        &self.term_list
    }

    pub fn get_if_false_term_list(&self) -> (r: &Option<TermList>)
        ensures
            *r == self.spec_else(),
    {
        &self.else_term_list
    }

    /// Reads the `If` package: its predicate and its terms, then an `Else`
    /// package when one follows.
    pub fn parse(stream: &mut AmlStream, current_scope: &NameString, table: &MethodTable) -> (r: Result<
        Self,
        AmlError,
    >)
        requires
            old(stream).wf(),
        ensures
            old(stream).moved_to(final(stream)),
            r is Ok ==> final(stream).pos() > old(stream).pos(),
            r matches Ok(i) ==> i.spec_predicate().is_integer_kind() && i.spec_term_list().scope().same(
                current_scope,
            ) && i.spec_term_list().window().wf(),
            spec_window(old(stream).bytes(), old(stream).pos(), old(stream).end()) is OutOfRange ==> (r matches Err(
                e,
            ) && e is AccessOutOfRange),
            if_read_matches(
                old(stream).bytes(),
                spec_if_read(old(stream).bytes(), old(stream).pos(), old(stream).end()),
                r,
                final(stream).pos(),
            ),
    {
        let mut if_scope_stream = split_package(stream)?;
        let predicate = TermArg::parse_integer(&mut if_scope_stream, current_scope, table)?;
        let term_list = TermList::new(if_scope_stream, current_scope.copy());
        let op = stream.peek_byte()?;
        if op != opcode::ELSE_OP {
            Ok(IfElse { predicate, term_list, else_term_list: None })
        } else {
            stream.seek(1)?;
            let else_scope_stream = split_package(stream)?;
            let else_term_list = TermList::new(else_scope_stream, current_scope.copy());
            Ok(IfElse { predicate, term_list, else_term_list: Some(else_term_list) })
        }
    }
}

impl Notify {
    pub closed spec fn spec_value(&self) -> TermArg {
        self.notify_value
    }

    pub closed spec fn spec_object(&self) -> SuperName {
        self.notify_object
    }

    /// Reads the object and the value after `NotifyOp`.
    pub fn parse(stream: &mut AmlStream, current_scope: &NameString, table: &MethodTable) -> (r: Result<
        Self,
        AmlError,
    >)
        requires
            old(stream).wf(),
        ensures
            old(stream).moved_to(final(stream)),
            r matches Ok(n) ==> n.spec_value().is_integer_kind(),
            ({
                let a = one_byte_super_name(old(stream).at(0));
                let b = one_byte_term(old(stream).at(1));
                (old(stream).rem() >= 2 && a is Some && b is Some) ==> (r matches Ok(n) && n.spec_object() == a->0
                    && n.spec_value() == b->0 && old(stream).advanced(final(stream), 2))
            }),
    {
        let notify_object = SuperName::try_parse(stream, current_scope, table)?;
        let notify_value = TermArg::parse_integer(stream, current_scope, table)?;
        Ok(Notify { notify_object, notify_value })
    }
}

impl While {
    pub closed spec fn spec_predicate(&self) -> TermArg {
        self.predicate
    }

    pub closed spec fn spec_term_list(&self) -> TermList {
        self.term_list
    }

    pub fn get_predicate(&self) -> (r: &TermArg)
        ensures
            *r == self.spec_predicate(),
    {
        &self.predicate
    }

    pub fn get_term_list(&self) -> (r: &TermList)
        ensures
            *r == self.spec_term_list(),
    {
        &self.term_list
    }

    /// Reads the `While` package: its predicate and its terms.
    pub fn parse(stream: &mut AmlStream, current_scope: &NameString, table: &MethodTable) -> (r: Result<
        Self,
        AmlError,
    >)
        requires
            old(stream).wf(),
        ensures
            old(stream).moved_to(final(stream)),
            r is Ok ==> final(stream).pos() > old(stream).pos(),
            r matches Ok(w) ==> w.spec_predicate().is_integer_kind() && w.spec_term_list().scope().same(
                current_scope,
            ) && w.spec_term_list().window().wf(),
            spec_window(old(stream).bytes(), old(stream).pos(), old(stream).end()) is OutOfRange ==> (r matches Err(
                e,
            ) && e is AccessOutOfRange),
            while_read_matches(
                old(stream).bytes(),
                spec_while_read(old(stream).bytes(), old(stream).pos(), old(stream).end()),
                r,
                final(stream).pos(),
            ),
    {
        let mut while_scope_stream = split_package(stream)?;
        let predicate = TermArg::parse_integer(&mut while_scope_stream, current_scope, table)?;
        let term_list = TermList::new(while_scope_stream, current_scope.copy());
        Ok(While { predicate, term_list })
    }
}

/// The statement an opcode selects, by its first byte and (after
/// `ExtOpPrefix`) its second.
pub enum StatementKind {
    Break,
    BreakPoint,
    Continue,
    Fatal,
    IfElse,
    Noop,
    Notify,
    Release,
    Reset,
    Return,
    Signal,
    Sleep,
    Stall,
    While,
    NoStatement,
}

pub open spec fn statement_kind(b0: u8, b1: u8) -> StatementKind {
    if b0 == opcode::EXT_OP_PREFIX {
        if b1 == opcode::SIGNAL_OP {
            StatementKind::Signal
        } else if b1 == opcode::RESET_OP {
            StatementKind::Reset
        } else if b1 == opcode::RELEASE_OP {
            StatementKind::Release
        } else if b1 == opcode::FATAL_OP {
            StatementKind::Fatal
        } else if b1 == opcode::SLEEP_OP {
            StatementKind::Sleep
        } else if b1 == opcode::STALL_OP {
            StatementKind::Stall
        } else {
            StatementKind::NoStatement
        }
    } else if b0 == opcode::BREAK_OP {
        StatementKind::Break
    } else if b0 == opcode::BREAK_POINT_OP {
        StatementKind::BreakPoint
    } else if b0 == opcode::CONTINUE_OP {
        StatementKind::Continue
    } else if b0 == opcode::IF_OP {
        StatementKind::IfElse
    } else if b0 == opcode::NOOP_OP {
        StatementKind::Noop
    } else if b0 == opcode::NOTIFY_OP {
        StatementKind::Notify
    } else if b0 == opcode::RETURN_OP {
        StatementKind::Return
    } else if b0 == opcode::WHILE_OP {
        StatementKind::While
    } else {
        StatementKind::NoStatement
    }
}

/// The `If` that `r` holds, or its error.
pub open spec fn if_of(r: Result<StatementOpcode, AmlError>) -> Result<IfElse, AmlError> {
    match r {
        Ok(StatementOpcode::DefIfElse(i)) => Ok(i),
        Ok(_) => Err(AmlError::InvalidType),
        Err(e) => Err(e),
    }
}

/// The `While` that `r` holds, or its error.
pub open spec fn while_of(r: Result<StatementOpcode, AmlError>) -> Result<While, AmlError> {
    match r {
        Ok(StatementOpcode::DefWhile(w)) => Ok(w),
        Ok(_) => Err(AmlError::InvalidType),
        Err(e) => Err(e),
    }
}

/// The statement that a single opcode byte makes on its own, with no operands.
pub open spec fn one_byte_statement(b: u8) -> Option<StatementOpcode> {
    if b == opcode::BREAK_OP {
        Some(StatementOpcode::DefBreak)
    } else if b == opcode::BREAK_POINT_OP {
        Some(StatementOpcode::DefBreakPoint)
    } else if b == opcode::CONTINUE_OP {
        Some(StatementOpcode::DefContinue)
    } else if b == opcode::NOOP_OP {
        Some(StatementOpcode::DefNoop)
    } else {
        None
    }
}

impl StatementOpcode {
    pub open spec fn has_kind(&self, k: StatementKind) -> bool {
        match self {
            StatementOpcode::DefBreak => k is Break,
            StatementOpcode::DefBreakPoint => k is BreakPoint,
            StatementOpcode::DefContinue => k is Continue,
            StatementOpcode::DefFatal(_) => k is Fatal,
            StatementOpcode::DefIfElse(_) => k is IfElse,
            StatementOpcode::DefNoop => k is Noop,
            StatementOpcode::DefNotify(_) => k is Notify,
            StatementOpcode::DefRelease(_) => k is Release,
            StatementOpcode::DefReset(_) => k is Reset,
            StatementOpcode::DefReturn(_) => k is Return,
            StatementOpcode::DefSignal(_) => k is Signal,
            StatementOpcode::DefSleep(_) => k is Sleep,
            StatementOpcode::DefStall(_) => k is Stall,
            StatementOpcode::DefWhile(_) => k is While,
        }
    }

    /// Reads a statement; the opcode (see `statement_kind`) selects it, and an
    /// opcode that selects none is `InvalidType` with the stream back where
    /// it was.
    pub fn try_parse(stream: &mut AmlStream, current_scope: &NameString, table: &MethodTable) -> (r: Result<
        Self,
        AmlError,
    >)
        requires
            old(stream).wf(),
        ensures
            old(stream).moved_to(final(stream)),
            r is Ok ==> final(stream).pos() > old(stream).pos(),
            ({
                let s = old(stream).bytes();
                let p = old(stream).pos();
                &&& p >= old(stream).end() ==> (r matches Err(e) && e is AccessOutOfRange)
                &&& r matches Ok(x) ==> x.has_kind(statement_kind(s[p], s[p + 1]))
                &&& (p < old(stream).end() && s[p] != opcode::EXT_OP_PREFIX && statement_kind(s[p], 0) is NoStatement)
                    ==> (r matches Err(e) && e is InvalidType && final(stream).same_as(old(stream)))
                &&& (p < old(stream).end() && one_byte_statement(s[p]) is Some) ==> r == Ok::<StatementOpcode, AmlError>(
                    one_byte_statement(s[p])->0,
                ) && old(stream).advanced(final(stream), 1)
                &&& (p < old(stream).end() && s[p] == opcode::RETURN_OP) ==> (simple_term(s, p + 1, old(stream).end()) matches Some(
                    (t, q),
                ) ==> (r == Ok::<StatementOpcode, AmlError>(StatementOpcode::DefReturn(t)) && final(stream).pos() == q))
                &&& (p < old(stream).end() && s[p] == opcode::IF_OP) ==> if_read_matches(
                    s,
                    spec_if_read(s, p + 1, old(stream).end()),
                    if_of(r),
                    final(stream).pos(),
                )
                &&& (p < old(stream).end() && s[p] == opcode::WHILE_OP) ==> while_read_matches(
                    s,
                    spec_while_read(s, p + 1, old(stream).end()),
                    while_of(r),
                    final(stream).pos(),
                )
            }),
    {
        let back_up = stream.copy();
        let op = stream.read_byte()?;
        if op == opcode::EXT_OP_PREFIX {
            let ext = stream.read_byte()?;
            if ext == opcode::SIGNAL_OP {
                Ok(StatementOpcode::DefSignal(SuperName::try_parse(stream, current_scope, table)?))
            } else if ext == opcode::RESET_OP {
                Ok(StatementOpcode::DefReset(SuperName::try_parse(stream, current_scope, table)?))
            } else if ext == opcode::RELEASE_OP {
                Ok(StatementOpcode::DefRelease(SuperName::try_parse(stream, current_scope, table)?))
            } else if ext == opcode::FATAL_OP {
                Ok(StatementOpcode::DefFatal(Fatal::parse(stream, current_scope, table)?))
            } else if ext == opcode::SLEEP_OP {
                Ok(StatementOpcode::DefSleep(TermArg::parse_integer(stream, current_scope, table)?))
            } else if ext == opcode::STALL_OP {
                Ok(StatementOpcode::DefStall(TermArg::parse_integer(stream, current_scope, table)?))
            } else {
                stream.roll_back(&back_up);
                Err(AmlError::InvalidType)
            }
        } else if op == opcode::BREAK_OP {
            Ok(StatementOpcode::DefBreak)
        } else if op == opcode::BREAK_POINT_OP {
            Ok(StatementOpcode::DefBreakPoint)
        } else if op == opcode::CONTINUE_OP {
            Ok(StatementOpcode::DefContinue)
        } else if op == opcode::IF_OP {
            Ok(StatementOpcode::DefIfElse(IfElse::parse(stream, current_scope, table)?))
        } else if op == opcode::NOOP_OP {
            Ok(StatementOpcode::DefNoop)
        } else if op == opcode::NOTIFY_OP {
            Ok(StatementOpcode::DefNotify(Notify::parse(stream, current_scope, table)?))
        } else if op == opcode::RETURN_OP {
            Ok(StatementOpcode::DefReturn(TermArg::try_parse(stream, current_scope, table)?))
        } else if op == opcode::WHILE_OP {
            Ok(StatementOpcode::DefWhile(While::parse(stream, current_scope, table)?))
        } else {
            stream.roll_back(&back_up);
            Err(AmlError::InvalidType)
        }
    }
}

} // verus!
