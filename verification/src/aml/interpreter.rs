//! The interpreter of a system's AML tables: the DSDT and the SSDTs, the
//! built-in objects, the argument counts of the methods they declare, and
//! objects found by name and evaluated on request.
use vstd::prelude::*;
use super::AmlError;
use super::aml_variable::AmlVariable;
use super::data_object::{
    ComputationalData, ConstData, DataObject, DataRefObject, eisa_char_ok, eisa_id_to_dword, spec_eisa_id,
};
use super::expression_evaluator::{Evaluator, Operand, NUMBER_OF_LOCAL_VARIABLES, NUMBER_OF_ARGUMENT_VARIABLES, read_source};
use super::method_evaluation::{Completion, EVALUATION_FUEL, Wait, method_value, valid_prefix};
use super::method_table::MethodTable;
use super::name_object::{NameString, NameStringFlag};
use super::named_object::{NamedObject, method_read};
use super::opcode;
use super::namespace_modifier_object::NamespaceModifierObject;
use super::stream::AmlStream;
use super::term_object::{Decl, TermList, TermObj, decl_matches, spec_decl};
use super::namespace_search::begins_with_method;

verus! {

/// The function number of the built-in `_OSI` method.
pub const OSI_FUNCTION: usize = 0;

/// How deep scopes may nest in a search or a scan of the tables.
pub const SEARCH_FUEL: usize = 0x100;

/// The segment `_GL` (the global lock).
pub const GL_SEGMENT: [u8; 4] = [0x5F, 0x47, 0x4C, 0x00];

/// The segment `_OSI`.
pub const OSI_SEGMENT: [u8; 4] = [0x5F, 0x4F, 0x53, 0x49];

/// The segment `_OS`.
pub const OS_SEGMENT: [u8; 4] = [0x5F, 0x4F, 0x53, 0x00];

/// The segment `_REV`.
pub const REV_SEGMENT: [u8; 4] = [0x5F, 0x52, 0x45, 0x56];

/// The segment `_DLM`.
pub const DLM_SEGMENT: [u8; 4] = [0x5F, 0x44, 0x4C, 0x4D];

/// Whether a method whose body ended as `c`, leaving `store`, gives a
/// value (see `method_value`).
pub open spec fn method_ok(store: Seq<AmlVariable>, c: Result<Completion, AmlError>) -> bool {
    match c {
        Ok(Completion::Normal) => true,
        Ok(Completion::Return(Operand::Integer(_))) => true,
        Ok(Completion::Return(Operand::Variable(h))) => match read_source(store, h) {
            Ok(k) => store[k as int].spec_is_constant_data(),
            Err(_) => false,
        },
        _ => false,
    }
}

/// What `evaluate_method` answers for a method whose body ended as `c`,
/// leaving `store`: none where it gives no value (uninitialized), the value
/// it gives, and an error where it fails.
pub open spec fn method_answer(store: Seq<AmlVariable>, c: Result<Completion, AmlError>, r: Result<
    Option<AmlVariable>,
    (),
>) -> bool {
    if !method_ok(store, c) {
        r == Err::<Option<AmlVariable>, ()>(())
    } else {
        match c {
            Ok(Completion::Return(Operand::Integer(k))) => r == Ok::<Option<AmlVariable>, ()>(
                Some(AmlVariable::ConstData(k)),
            ),
            Ok(Completion::Return(Operand::Variable(h))) => {
                let k = read_source(store, h)->Ok_0;
                if store[k as int] is Uninitialized {
                    r == Ok::<Option<AmlVariable>, ()>(None)
                } else {
                    r matches Ok(Some(v)) && store[k as int].same_value(&v)
                }
            },
            _ => r == Ok::<Option<AmlVariable>, ()>(None),
        }
    }
}

/// The segment `_HID` (a device's hardware identifier).
pub const HID_SEGMENT: [u8; 4] = [0x5F, 0x48, 0x49, 0x44];

/// What a search for a device by its `_HID` found.
pub enum Found {
    /// The device with this path (segments and kind).
    Device(Seq<[u8; 4]>, NameStringFlag),
    Absent,
    Failed,
}

/// `a` and `b` are the same path as names compare them (see `spec_eq`).
pub open spec fn same_path(a: (Seq<[u8; 4]>, NameStringFlag), b: (Seq<[u8; 4]>, NameStringFlag)) -> bool {
    ||| (a.1 == NameStringFlag::NullName && b.1 == NameStringFlag::NullName)
    ||| (a.0.len() == b.0.len() && (a.0.len() == 0 || (a.1 != NameStringFlag::NullName && b.1
        != NameStringFlag::NullName && a.0 == b.0)))
}

/// The path of `_HID` in the scope with segments and kind `scope`.
pub open spec fn hid_path(scope: (Seq<[u8; 4]>, NameStringFlag)) -> (Seq<[u8; 4]>, NameStringFlag) {
    if scope.1 == NameStringFlag::NullName {
        (seq![HID_SEGMENT], NameStringFlag::SingleRelativePath)
    } else {
        (scope.0 + seq![HID_SEGMENT], NameStringFlag::AbsolutePath)
    }
}

/// The search for the device whose `_HID` is the integer `hid` in the list
/// from `p` to `end` of the scope `scope` and in the scopes and devices in
/// it (at most `fuel` deep; `in_device` says whether the list is a
/// device's): the scope that holds a `Name` of `_HID` with that value, in
/// a device. `None` where a term read is not a declaration (see
/// `spec_decl`).
#[verifier::opaque]
pub open spec fn spec_find_device(
    s: Seq<u8>,
    p: int,
    end: int,
    scope: (Seq<[u8; 4]>, NameStringFlag),
    hid: u32,
    in_device: bool,
    fuel: nat,
) -> Option<Found>
    decreases fuel, end - p,
{
    if fuel == 0 {
        Some(Found::Failed)
    } else if p >= end {
        Some(Found::Absent)
    } else {
        match spec_decl(s, p, end, scope) {
            None => None,
            Some((d, next)) => if next <= p || next > end {
                None
            } else {
                match d {
                    Decl::Scope(segs, flag, bs, be) => match spec_find_device(s, bs, be, (segs, flag), hid, in_device, (fuel - 1) as nat) {
                        Some(Found::Absent) => spec_find_device(s, next, end, scope, hid, in_device, fuel),
                        other => other,
                    },
                    Decl::Device(segs, flag, bs, be) => match spec_find_device(s, bs, be, (segs, flag), hid, true, (fuel - 1) as nat) {
                        Some(Found::Absent) => spec_find_device(s, next, end, scope, hid, in_device, fuel),
                        other => other,
                    },
                    Decl::Name(segs, flag, c) => if in_device && same_path((segs, flag), hid_path(scope))
                        && c.spec_value() as usize == hid as usize {
                        Some(Found::Device(scope.0, scope.1))
                    } else {
                        spec_find_device(s, next, end, scope, hid, in_device, fuel)
                    },
                    Decl::Method(..) => spec_find_device(s, next, end, scope, hid, in_device, fuel),
                }
            },
        }
    }
}

/// `spec_find_device` at the end of its window, or with no budget.
proof fn lemma_find_end(
    s: Seq<u8>,
    p: int,
    end: int,
    scope: (Seq<[u8; 4]>, NameStringFlag),
    hid: u32,
    in_device: bool,
    fuel: nat,
)
    ensures
        fuel == 0 ==> spec_find_device(s, p, end, scope, hid, in_device, fuel) == Some(Found::Failed),
        (fuel > 0 && p >= end) ==> spec_find_device(s, p, end, scope, hid, in_device, fuel) == Some(Found::Absent),
{
    reveal(spec_find_device);
}

/// One declaration read by `spec_find_device`.
proof fn lemma_find_step(
    s: Seq<u8>,
    p: int,
    end: int,
    scope: (Seq<[u8; 4]>, NameStringFlag),
    hid: u32,
    in_device: bool,
    fuel: nat,
)
    requires
        fuel > 0,
        p < end,
        spec_find_device(s, p, end, scope, hid, in_device, fuel) is Some,
    ensures
        spec_decl(s, p, end, scope) matches Some((d, next)) && p < next <= end && spec_find_device(
            s,
            p,
            end,
            scope,
            hid,
            in_device,
            fuel,
        ) == match d {
            Decl::Scope(segs, flag, bs, be) => match spec_find_device(s, bs, be, (segs, flag), hid, in_device, (fuel - 1) as nat) {
                Some(Found::Absent) => spec_find_device(s, next, end, scope, hid, in_device, fuel),
                other => other,
            },
            Decl::Device(segs, flag, bs, be) => match spec_find_device(s, bs, be, (segs, flag), hid, true, (fuel - 1) as nat) {
                Some(Found::Absent) => spec_find_device(s, next, end, scope, hid, in_device, fuel),
                other => other,
            },
            Decl::Name(segs, flag, c) => if in_device && same_path((segs, flag), hid_path(scope)) && c.spec_value() as usize
                == hid as usize {
                Some(Found::Device(scope.0, scope.1))
            } else {
                spec_find_device(s, next, end, scope, hid, in_device, fuel)
            },
            Decl::Method(..) => spec_find_device(s, next, end, scope, hid, in_device, fuel),
        },
{
    reveal(spec_find_device);
}

/// The search for the device with `_HID` `hid` in the tables from the
/// `i`-th on: the first that holds it, a failure, or none that does.
pub open spec fn find_in_tables(tables: Seq<TermList>, i: int, hid: u32) -> Option<Found>
    decreases tables.len() - i,
{
    if i < 0 || i >= tables.len() {
        Some(Found::Absent)
    } else {
        let w = tables[i].window();
        if !w.wf() {
            Some(Found::Failed)
        } else {
            match spec_find_device(
                w.bytes(),
                w.pos(),
                w.end(),
                (tables[i].scope().segs(), tables[i].scope().spec_flag()),
                hid,
                false,
                SEARCH_FUEL as nat,
            ) {
                Some(Found::Absent) => find_in_tables(tables, i + 1, hid),
                other => other,
            }
        }
    }
}

/// The segment `_STA` (a device's status).
pub const STA_SEGMENT: [u8; 4] = [0x5F, 0x53, 0x54, 0x41];

/// The segment `_INI` (a device's initialisation).
pub const INI_SEGMENT: [u8; 4] = [0x5F, 0x49, 0x4E, 0x49];

/// What a device's status decides: whether to run its `_INI` (it is
/// present, bit 0) and whether to go on into the objects below it (it is
/// present or functioning, bit 3).
pub open spec fn spec_device_action(status: usize) -> (bool, bool) {
    let present = status % 2 == 1;
    let functional = (status / 8) % 2 == 1;
    if !present && !functional {
        (false, false)
    } else {
        (present, true)
    }
}

pub fn device_action(status: usize) -> (r: (bool, bool))
    ensures
        r == spec_device_action(status),
{
    let present = status % 2 == 1;
    let functional = (status / 8) % 2 == 1;
    if !present && !functional {
        (false, false)
    } else {
        (present, true)
    }
}

/// `table` begins with the entries of `before`.
pub open spec fn table_extends(before: Seq<(NameString, usize)>, table: Seq<(NameString, usize)>) -> bool {
    &&& before.len() <= table.len()
    &&& forall|i: int| 0 <= i < before.len() ==> #[trigger] table[i] == before[i]
}

/// The method definitions that the list read from `p` in the window ending
/// at `end` holds, where it holds nothing else (names relative to the scope
/// with segments and kind `scope`): each one's name segments, name kind and
/// argument count, in order.
pub open spec fn method_decls(s: Seq<u8>, p: int, end: int, scope: (Seq<[u8; 4]>, NameStringFlag)) -> Option<
    Seq<(Seq<[u8; 4]>, NameStringFlag, usize)>,
>
    decreases end - p,
{
    if p >= end {
        Some(Seq::empty())
    } else if s[p] == opcode::METHOD_OP {
        match method_read(s, p + 1, end, scope) {
            Some((segs, flag, flags, _, next)) => if next <= p || next > end {
                None
            } else {
                match method_decls(s, next, end, scope) {
                    Some(rest) => Some(seq![(segs, flag, (flags % 8) as usize)] + rest),
                    None => None,
                }
            },
            None => None,
        }
    } else {
        None
    }
}

/// `after` is `before` with an entry for each of `decls` added, in order.
pub open spec fn entries_added(
    before: Seq<(NameString, usize)>,
    after: Seq<(NameString, usize)>,
    decls: Seq<(Seq<[u8; 4]>, NameStringFlag, usize)>,
) -> bool {
    &&& after.len() == before.len() + decls.len()
    &&& forall|i: int|
        0 <= i < decls.len() ==> {
            let e = #[trigger] after[before.len() + i];
            e.0.segs() == decls[i].0 && e.0.spec_flag() == decls[i].1 && e.1 == decls[i].2
        }
}

/// Records in `table` the argument count of each method and external
/// object declared in `list`, in the scopes, devices, power resources and
/// thermal zones in it too (at most `fuel` deep); method bodies are not
/// read.
pub fn collect_method_counts(list: &TermList, table: &mut MethodTable, fuel: usize) -> (r: Result<(), AmlError>)
    ensures
        table_extends(old(table).spec_entries(), final(table).spec_entries()),
        fuel == 0 ==> r == Err::<(), AmlError>(AmlError::InvalidOperation) && final(table).spec_entries() == old(
            table,
        ).spec_entries(),
        fuel > 0 && !list.window().wf() ==> r == Err::<(), AmlError>(AmlError::AccessOutOfRange),
        fuel > 0 && list.window().wf() && list.window().rem() == 0 ==> r == Ok::<(), AmlError>(())
            && final(table).spec_entries() == old(table).spec_entries(),
        (fuel > 0 && list.window().wf()) ==> (method_decls(
            list.window().bytes(),
            list.window().pos(),
            list.window().end(),
            (list.scope().segs(), list.scope().spec_flag()),
        ) matches Some(decls) ==> (r == Ok::<(), AmlError>(()) && entries_added(
            old(table).spec_entries(),
            final(table).spec_entries(),
            decls,
        ))),
    decreases fuel,
{
    if fuel == 0 {
        return Err(AmlError::InvalidOperation);
    }
    let ghost empty = list.window().wf() && list.window().rem() == 0;
    let ghost bytes = list.window().bytes();
    let ghost end = list.window().end();
    let ghost sc = (list.scope().segs(), list.scope().spec_flag());
    let ghost all = method_decls(bytes, list.window().pos(), end, sc);
    let ghost mut done: int = 0;
    let mut terms = list.clone();
    if !terms.is_readable() {
        return Err(AmlError::AccessOutOfRange);
    }
    assert(all matches Some(ds) ==> ds.subrange(0, ds.len() as int) =~= ds);
    loop
        invariant
            terms.window().wf(),
            table_extends(old(table).spec_entries(), table.spec_entries()),
            fuel > 0,
            list.window().wf(),
            empty == (list.window().wf() && list.window().rem() == 0),
            empty ==> terms.window().rem() == 0 && table.spec_entries() == old(table).spec_entries(),
            bytes == list.window().bytes(),
            end == list.window().end(),
            sc == (list.scope().segs(), list.scope().spec_flag()),
            all == method_decls(bytes, list.window().pos(), end, sc),
            terms.window().bytes() == bytes,
            terms.window().end() == end,
            (terms.scope().segs(), terms.scope().spec_flag()) == sc,
            all matches Some(ds) ==> {
                &&& 0 <= done <= ds.len()
                &&& method_decls(bytes, terms.window().pos(), end, sc) == Some(ds.subrange(done, ds.len() as int))
                &&& entries_added(old(table).spec_entries(), table.spec_entries(), ds.subrange(0, done))
            },
        decreases terms.window().rem(),
    {
        let ghost cur = terms.window().pos();
        let term = match terms.next(table) {
            Ok(Some(t)) => t,
            Ok(None) => {
                return Ok(());
            },
            Err(e) => {
                return Err(e);
            },
        };
        proof {
            if all is Some {
                let ds = all->0;
                assert(method_decls(bytes, cur, end, sc) == Some(ds.subrange(done, ds.len() as int)));
                assert(bytes[cur] == opcode::METHOD_OP);
                assert(method_read(bytes, cur + 1, end, sc) is Some);
                assert(term is NamedObj);
            }
        }
        match term {
            TermObj::NamespaceModifierObj(NamespaceModifierObject::DefScope(s)) => {
                if let Err(e) = collect_method_counts(s.get_term_list(), table, fuel - 1) {
                    return Err(e);
                }
            },
            TermObj::NamedObj(o) => {
                match &o {
                    NamedObject::DefMethod(m) => {
                        let ghost before = table.spec_entries();
                        table.add(m.get_name().copy(), m.get_argument_count());
                        proof {
                            if all is Some {
                                let ds = all->0;
                                let (segs, flag, flags, _, next) = method_read(bytes, cur + 1, end, sc)->0;
                                assert(terms.window().pos() == next);
                                assert(m.spec_name().segs() == segs);
                                assert(m.spec_flags() == flags);
                                let x = (segs, flag, (flags % 8) as usize);
                                let rest = method_decls(bytes, next, end, sc)->0;
                                assert(method_decls(bytes, next, end, sc) is Some);
                                assert(method_decls(bytes, cur, end, sc) == Some(seq![x] + rest));
                                assert((seq![x] + rest)[0] == x);
                                assert(ds.subrange(done, ds.len() as int)[0] == ds[done]);
                                assert(ds[done] == x);
                                assert(rest == (seq![x] + rest).drop_first());
                                assert(ds.subrange(done, ds.len() as int).drop_first() =~= ds.subrange(
                                    done + 1,
                                    ds.len() as int,
                                ));
                                assert(ds.subrange(0, done + 1) =~= ds.subrange(0, done).push(ds[done]));
                                done = done + 1;
                            }
                        }
                    },
                    NamedObject::DefExternal(e) => {
                        table.add(e.get_name().copy(), e.get_argument_count());
                    },
                    _ => {},
                }
                let is_method = match &o {
                    NamedObject::DefMethod(_) => true,
                    _ => false,
                };
                if !is_method {
                    if let Some(body) = o.get_term_list() {
                        if let Err(e) = collect_method_counts(&body, table, fuel - 1) {
                            return Err(e);
                        }
                    }
                }
            },
            _ => {},
        }
    }
}

impl Evaluator {
    /// Adds the built-in objects in the root scope: the global lock `_GL`
    /// (a mutex not held), the method `_OSI` (built in, one argument), the
    /// name of the operating system `_OS`, the revision `_REV` (2) and
    /// `_DLM` (0), in that order, after the entries the store had.
    pub fn init(&mut self, os_name: String) -> (r: Result<(), AmlError>)
        requires
            old(self).wf(),
        ensures
            r is Ok,
            final(self).wf(),
            final(self).grown_from(old(self)),
            final(self).spec_store() == old(self).spec_store() + seq![
                AmlVariable::Mutex(0, 0),
                AmlVariable::BuiltInMethod(OSI_FUNCTION, 1),
                AmlVariable::String(os_name),
                AmlVariable::ConstData(ConstData::Byte(2)),
                AmlVariable::ConstData(ConstData::Byte(0)),
            ],
            ({
                let before = old(self).spec_frame().spec_namespace().spec_entries();
                let b = before.len() as int;
                let after = final(self).spec_frame().spec_namespace().spec_entries();
                let n = old(self).spec_store().len();
                &&& after.len() == before.len() + 5
                &&& after[b].0.segs() == seq![GL_SEGMENT] && after[b].1 == n
                &&& after[b + 1].0.segs() == seq![OSI_SEGMENT] && after[b + 1].1 == n + 1
                &&& after[b + 2].0.segs() == seq![OS_SEGMENT] && after[b + 2].1 == n + 2
                &&& after[b + 3].0.segs() == seq![REV_SEGMENT] && after[b + 3].1 == n + 3
                &&& after[b + 4].0.segs() == seq![DLM_SEGMENT] && after[b + 4].1 == n + 4
                &&& forall|i: int|
                    before.len() <= i < after.len() ==> #[trigger] after[i].0.spec_flag() == NameStringFlag::AbsolutePath
            }),
    {
        let ghost before = self.spec_frame().spec_namespace().spec_entries();
        let ghost store = self.spec_store();
        let gl = [GL_SEGMENT];
        self.add_variable(NameString::from_array(&gl, true), AmlVariable::Mutex(0, 0));
        let osi = [OSI_SEGMENT];
        self.add_variable(NameString::from_array(&osi, true), AmlVariable::BuiltInMethod(OSI_FUNCTION, 1));
        let os = [OS_SEGMENT];
        self.add_variable(NameString::from_array(&os, true), AmlVariable::String(os_name));
        let rev = [REV_SEGMENT];
        self.add_variable(NameString::from_array(&rev, true), AmlVariable::ConstData(ConstData::Byte(2)));
        let dlm = [DLM_SEGMENT];
        self.add_variable(NameString::from_array(&dlm, true), AmlVariable::ConstData(ConstData::Byte(0)));
        proof {
            assert(self.spec_store() =~= store + seq![
                AmlVariable::Mutex(0, 0),
                AmlVariable::BuiltInMethod(OSI_FUNCTION, 1),
                AmlVariable::String(os_name),
                AmlVariable::ConstData(ConstData::Byte(2)),
                AmlVariable::ConstData(ConstData::Byte(0)),
            ]);
        }
        Ok(())
    }
}

/// The interpreter: the evaluation state, the root term lists of the
/// tables (the DSDT first) and the argument counts of their methods.
pub struct AmlInterpreter {
    evaluator: Evaluator,
    root_term_lists: Vec<TermList>,
    table: MethodTable,
}

impl AmlInterpreter {
    pub closed spec fn wf(&self) -> bool {
        self.evaluator.wf()
    }

    pub closed spec fn spec_evaluator(&self) -> Evaluator {
        self.evaluator
    }

    /// The root term lists of the tables, the DSDT first.
    pub closed spec fn spec_tables(&self) -> Seq<TermList> {
        self.root_term_lists@
    }

    /// An interpreter of the DSDT `dsdt` and the SSDTs `ssdts` (their term
    /// lists, in the root scope), with the built-in objects (`_OS` being
    /// `os_name`) and the argument counts of the methods the tables
    /// declare (a table that cannot be scanned gives the counts found
    /// before the fault).
    pub fn setup(dsdt: Vec<u8>, ssdts: Vec<Vec<u8>>, os_name: String) -> (r: Option<Self>)
        ensures
            r is Some,
            r matches Some(i) ==> i.spec_tables().len() > 0 && i.spec_tables()[0].window().wf()
                && i.spec_tables()[0].window().bytes() == dsdt@ && i.spec_tables()[0].window().pos() == 0
                && i.spec_tables()[0].window().end() == dsdt@.len() && i.spec_tables()[0].scope().segs()
                == Seq::<[u8; 4]>::empty() && i.spec_tables()[0].scope().spec_flag() == NameStringFlag::AbsolutePath,
            r matches Some(i) ==> i.wf() && i.spec_evaluator().spec_store() =~= Seq::new(
                (NUMBER_OF_LOCAL_VARIABLES + NUMBER_OF_ARGUMENT_VARIABLES) as nat,
                |k: int| AmlVariable::Uninitialized,
            ) + seq![
                AmlVariable::Mutex(0, 0),
                AmlVariable::BuiltInMethod(OSI_FUNCTION, 1),
                AmlVariable::String(os_name),
                AmlVariable::ConstData(ConstData::Byte(2)),
                AmlVariable::ConstData(ConstData::Byte(0)),
            ],
    {
        let ghost dsdt_bytes = dsdt@;
        let mut root_term_lists: Vec<TermList> = Vec::new();
        root_term_lists.push(TermList::new(AmlStream::new(dsdt), NameString::root()));
        let ghost first = root_term_lists@[0];
        let mut ssdts = ssdts;
        while ssdts.len() > 0
            invariant
                root_term_lists@.len() > 0,
                root_term_lists@[0] == first,
            decreases ssdts.len(),
        {
            let s = ssdts.remove(0);
            root_term_lists.push(TermList::new(AmlStream::new(s), NameString::root()));
        }
        let mut table = MethodTable::new();
        let osi = [OSI_SEGMENT];
        table.add(NameString::from_array(&osi, true), 1);
        let mut i: usize = 0;
        while i < root_term_lists.len()
            invariant
                root_term_lists@.len() > 0,
                root_term_lists@[0] == first,
            decreases root_term_lists.len() - i,
        {
            let _ = collect_method_counts(&root_term_lists[i], &mut table, SEARCH_FUEL);
            i = i + 1;
        }
        let mut evaluator = Evaluator::new(Vec::new(), MethodTable::new(), NameString::root());
        let ghost frame_store = evaluator.spec_store();
        if evaluator.init(os_name).is_err() {
            return None;
        }
        proof {
            assert(frame_store =~= Seq::new(
                (NUMBER_OF_LOCAL_VARIABLES + NUMBER_OF_ARGUMENT_VARIABLES) as nat,
                |k: int| AmlVariable::Uninitialized,
            ));
        }
        Some(AmlInterpreter { evaluator, root_term_lists, table })
    }

    pub fn get_current_scope(&self) -> (r: &NameString)
        ensures
            *r == self.spec_evaluator().spec_frame().spec_scope(),
    {
        self.evaluator.get_current_scope()
    }

    /// The handle of the object `name`: from the namespace where it is
    /// there; else found by reading the root term lists in turn (and then
    /// added to the namespace); `InvalidName` where none holds it.
    pub fn search(&mut self, name: &NameString) -> (r: Result<usize, AmlError>)
        requires
            old(self).wf(),
        ensures
            final(self).wf(),
            old(self).spec_evaluator().spec_frame().spec_search(*name) matches Ok(h) ==> (h < old(
                self,
            ).spec_evaluator().spec_store().len() ==> (r == Ok::<usize, AmlError>(h) && final(self).spec_evaluator()
                == old(self).spec_evaluator())),
            r matches Ok(h) ==> h < final(self).spec_evaluator().spec_store().len(),
            name.is_null() ==> r is Err,
            final(self).spec_tables() == old(self).spec_tables(),
            ({
                let tables = old(self).spec_tables();
                let store = old(self).spec_evaluator().spec_store();
                let after = final(self).spec_evaluator().spec_store();
                (old(self).spec_evaluator().spec_frame().spec_search(*name) is Err && tables.len() > 0
                    && tables[0].scope().spec_is_child(name) && begins_with_method(tables[0], *name)) ==> {
                    &&& r == Ok::<usize, AmlError>(store.len() as usize)
                    &&& after.len() == store.len() + 1
                    &&& after.drop_last() == store
                    &&& after.last() matches AmlVariable::Method(m) && m.spec_name().segs() == name.segs()
                }
            }),
    {
        match self.evaluator.search_aml_variable(name) {
            Ok(h) => {
                if h < self.evaluator.get_variable_count() {
                    return Ok(h);
                }
                return Err(AmlError::InvalidOperation);
            },
            Err(AmlError::InvalidName(_)) => {},
            Err(e) => {
                return Err(e);
            },
        }
        if name.is_null_name() {
            return Err(AmlError::InvalidName(name.copy()));
        }
        let mut i: usize = 0;
        while i < self.root_term_lists.len()
            invariant
                self.wf(),
                old(self).spec_evaluator().spec_frame().spec_search(*name) is Err,
                self.spec_tables() == old(self).spec_tables(),
                (old(self).spec_tables().len() > 0 && old(self).spec_tables()[0].scope().spec_is_child(name)
                    && begins_with_method(old(self).spec_tables()[0], *name)) ==> (i == 0 && self.spec_evaluator()
                    == old(self).spec_evaluator()),
            decreases self.root_term_lists.len() - i,
        {
            match self.evaluator.search_aml_variable_by_parsing_term_list(
                name,
                &self.root_term_lists[i],
                None,
                &self.table,
                SEARCH_FUEL,
            ) {
                Ok(Some(h)) => {
                    return Ok(h);
                },
                Ok(None) => {},
                Err(e) => {
                    return Err(e);
                },
            }
            i = i + 1;
        }
        Err(AmlError::InvalidName(name.copy()))
    }

    /// The value of the object `name`: what its method returns (the waits
    /// it asks for added to `waits`), a copy of its value where it holds
    /// one, or what a read of it reaches; none where it cannot be found
    /// or read.
    pub fn get_aml_variable(&mut self, name: &NameString, waits: &mut Vec<Wait>) -> (r: Option<AmlVariable>)
        requires
            old(self).wf(),
        ensures
            final(self).wf(),
            name.is_null() ==> r is None,
            old(self).spec_evaluator().spec_frame().spec_search(*name) matches Ok(h) ==> (h < old(
                self,
            ).spec_evaluator().spec_store().len() ==> (old(self).spec_evaluator().spec_store()[h as int] matches AmlVariable::ConstData(
                c,
            ) ==> r == Some(AmlVariable::ConstData(c)))),
            ({
                let ev = old(self).spec_evaluator();
                let store = ev.spec_store();
                ev.spec_frame().spec_search(*name) matches Ok(h) ==> (h < store.len() ==> (store[h as int] matches AmlVariable::Method(
                    m,
                ) ==> ({
                    let w = m.spec_term_list().window();
                    let s0 = ev.spec_frame().reset_store(store, Seq::<AmlVariable>::empty());
                    (m.spec_flags() % 8 == 0 && w.wf()) ==> (ev.spec_frame().run_list(s0, w.bytes(), w.pos(), w.end(), EVALUATION_FUEL as nat) matches Some(
                        (s1, c),
                    ) ==> (if method_ok(s1, c) {
                        r matches Some(v) && method_value(s1, c, Ok::<AmlVariable, AmlError>(v))
                    } else {
                        r is None
                    }))
                })))
            }),
    {
        proof {
            reveal(read_source);
        }
        let h = match self.search(name) {
            Ok(h) => h,
            Err(_) => {
                return None;
            },
        };
        let method = match self.evaluator.get_variable(h) {
            Some(AmlVariable::Method(m)) => Some(m.copy()),
            _ => None,
        };
        match method {
            Some(m) => match self.evaluator.eval_method(&m, Vec::new(), &self.table, waits) {
                Ok(v) => Some(v),
                Err(_) => None,
            },
            None => match self.evaluator.value_of(Operand::Variable(h)) {
                Ok(v) => Some(v),
                Err(_) => None,
            },
        }
    }

    /// Runs the method `method_name` with `arguments`, the waits it asks for
    /// added to `waits`: what it returns, or none where it returns nothing.
    /// A null name, and a name that no table holds, give none; an object
    /// that is no method, and a method that fails, are errors.
    pub fn evaluate_method(&mut self, method_name: &NameString, arguments: Vec<AmlVariable>, waits: &mut Vec<Wait>) -> (r:
        Result<Option<AmlVariable>, ()>)
        requires
            old(self).wf(),
        ensures
            final(self).wf(),
            method_name.is_null() ==> r == Ok::<Option<AmlVariable>, ()>(None),
            ({
                let ev = old(self).spec_evaluator();
                let store = ev.spec_store();
                !method_name.is_null() ==> (ev.spec_frame().spec_search(*method_name) matches Ok(h) ==> (h
                    < store.len() ==> match store[h as int] {
                    AmlVariable::Method(m) => {
                        let count = (m.spec_flags() % 8) as usize;
                        let w = m.spec_term_list().window();
                        let s0 = ev.spec_frame().reset_store(store, arguments@);
                        ((count == arguments@.len() || valid_prefix(arguments@) == count) && w.wf()) ==> (
                        ev.spec_frame().run_list(s0, w.bytes(), w.pos(), w.end(), EVALUATION_FUEL as nat) matches Some((s1, c)) ==> method_answer(
                            s1,
                            c,
                            r,
                        ))
                    },
                    _ => r == Err::<Option<AmlVariable>, ()>(()),
                }))
            }),
    {
        if method_name.is_null_name() {
            return Ok(None);
        }
        let h = match self.search(method_name) {
            Ok(h) => h,
            Err(AmlError::InvalidName(n)) => {
                return if n == *method_name {
                    Ok(None)
                } else {
                    Err(())
                };
            },
            Err(_) => {
                return Err(());
            },
        };
        let method = match self.evaluator.get_variable(h) {
            Some(AmlVariable::Method(m)) => m.copy(),
            _ => {
                return Err(());
            },
        };
        match self.evaluator.eval_method(&method, arguments, &self.table, waits) {
            Ok(AmlVariable::Uninitialized) => Ok(None),
            Ok(v) => Ok(Some(v)),
            Err(_) => Err(()),
        }
    }

    /// The status of the device `device_name`: its `_STA` value, or what
    /// its `_STA` method returns; 15 (present and functioning) where it has
    /// no `_STA`.
    pub fn device_status(&mut self, device_name: &NameString, waits: &mut Vec<Wait>) -> (r: Result<usize, AmlError>)
        requires
            old(self).wf(),
        ensures
            final(self).wf(),
            final(self).spec_tables() == old(self).spec_tables(),
            ({
                let ev = old(self).spec_evaluator();
                let store = ev.spec_store();
                let sta = device_name.segs().push(STA_SEGMENT);
                !device_name.is_null() ==> (ev.spec_frame().spec_namespace().spec_lookup_parts(
                    sta,
                    NameStringFlag::AbsolutePath,
                ) matches Some(h) ==> (h < store.len() ==> (store[h as int] matches AmlVariable::ConstData(c) ==> r
                    == Ok::<usize, AmlError>(c.spec_value() as usize))))
            }),
            ({
                let ev = old(self).spec_evaluator();
                let store = ev.spec_store();
                let sta = device_name.segs().push(STA_SEGMENT);
                !device_name.is_null() ==> (ev.spec_frame().spec_namespace().spec_lookup_parts(
                    sta,
                    NameStringFlag::AbsolutePath,
                ) matches Some(h) ==> (h < store.len() ==> (store[h as int] matches AmlVariable::Method(m) ==> ({
                    let w = m.spec_term_list().window();
                    let s0 = ev.spec_frame().reset_store(store, Seq::<AmlVariable>::empty());
                    (m.spec_flags() % 8 == 0 && w.wf()) ==> (ev.spec_frame().run_list(
                        s0,
                        w.bytes(),
                        w.pos(),
                        w.end(),
                        EVALUATION_FUEL as nat,
                    ) matches Some((s1, c)) ==> match c {
                        Ok(Completion::Return(Operand::Integer(k))) => r == Ok::<usize, AmlError>(k.spec_value() as usize),
                        Ok(Completion::Normal) => r == Err::<usize, AmlError>(AmlError::InvalidType),
                        Err(_) => r is Err,
                        _ => true,
                    })
                }))))
            }),
    {
        let sta_segment = [STA_SEGMENT];
        let sta = NameString::from_array(&sta_segment, false).get_full_name_path(device_name, true);
        assert(!device_name.is_null() ==> sta.segs() =~= device_name.segs().push(STA_SEGMENT));
        let h = match self.search(&sta) {
            Ok(h) => h,
            Err(AmlError::InvalidName(n)) => {
                if n == sta {
                    return Ok(0b1111);
                }
                return Err(AmlError::InvalidName(n));
            },
            Err(e) => {
                return Err(e);
            },
        };
        let method = match self.evaluator.get_variable(h) {
            Some(AmlVariable::ConstData(c)) => {
                return Ok(c.to_int());
            },
            Some(AmlVariable::Method(m)) => m.copy(),
            _ => {
                return Err(AmlError::InvalidType);
            },
        };
        match self.evaluator.eval_method(&method, Vec::new(), &self.table, waits) {
            Ok(AmlVariable::ConstData(c)) => Ok(c.to_int()),
            Ok(_) => Err(AmlError::InvalidType),
            Err(e) => Err(e),
        }
    }

    /// Runs the `_INI` method of the device `device_name` where it has one.
    fn run_ini(&mut self, device_name: &NameString, waits: &mut Vec<Wait>) -> (r: Result<(), AmlError>)
        requires
            old(self).wf(),
        ensures
            final(self).wf(),
            final(self).spec_tables() == old(self).spec_tables(),
    {
        let ini_segment = [INI_SEGMENT];
        let ini = NameString::from_array(&ini_segment, false).get_full_name_path(device_name, true);
        let h = match self.search(&ini) {
            Ok(h) => h,
            Err(AmlError::InvalidName(n)) => {
                if n == ini {
                    return Ok(());
                }
                return Err(AmlError::InvalidName(n));
            },
            Err(e) => {
                return Err(e);
            },
        };
        let method = match self.evaluator.get_variable(h) {
            Some(AmlVariable::Method(m)) => m.copy(),
            _ => {
                return Err(AmlError::InvalidType);
            },
        };
        match self.evaluator.eval_method(&method, Vec::new(), &self.table, waits) {
            Ok(_) => Ok(()),
            Err(e) => Err(e),
        }
    }

    /// Initialises the devices declared in `list`, in the scopes, power
    /// resources and thermal zones in it and below the devices that are
    /// there (at most `fuel` deep): a device that is neither present nor
    /// functioning is passed over with all below it; a present one has its
    /// `_INI` run; the waits asked for are added to `waits`.
    pub fn walk_all_devices(&mut self, list: &TermList, waits: &mut Vec<Wait>, fuel: usize) -> (r: Result<(), AmlError>)
        requires
            old(self).wf(),
        ensures
            final(self).wf(),
            final(self).spec_tables() == old(self).spec_tables(),
            fuel == 0 ==> r == Err::<(), AmlError>(AmlError::InvalidOperation),
            fuel > 0 && !list.window().wf() ==> r == Err::<(), AmlError>(AmlError::AccessOutOfRange),
            (fuel > 0 && list.window().wf() && list.window().rem() == 0) ==> (r == Ok::<(), AmlError>(())
                && final(self).spec_evaluator() == old(self).spec_evaluator()),
        decreases fuel,
    {
        if fuel == 0 {
            return Err(AmlError::InvalidOperation);
        }
        let ghost empty = list.window().wf() && list.window().rem() == 0;
        let mut terms = list.clone();
        if !terms.is_readable() {
            return Err(AmlError::AccessOutOfRange);
        }
        loop
            invariant
                self.wf(),
                self.spec_tables() == old(self).spec_tables(),
                list.window().wf(),
                terms.window().wf(),
                fuel > 0,
                empty == (list.window().wf() && list.window().rem() == 0),
                empty ==> terms.window().rem() == 0 && self.spec_evaluator() == old(self).spec_evaluator(),
            decreases terms.window().rem(),
        {
            let term = match terms.next(&self.table) {
                Ok(Some(t)) => t,
                Ok(None) => {
                    return Ok(());
                },
                Err(e) => {
                    return Err(e);
                },
            };
            match term {
                TermObj::NamespaceModifierObj(NamespaceModifierObject::DefScope(sc)) => {
                    if let Err(e) = self.walk_all_devices(sc.get_term_list(), waits, fuel - 1) {
                        return Err(e);
                    }
                },
                TermObj::NamedObj(NamedObject::DefDevice(d)) => {
                    let status = match self.device_status(d.get_name(), waits) {
                        Ok(s) => s,
                        Err(e) => {
                            return Err(e);
                        },
                    };
                    let (ini, below) = device_action(status);
                    if ini {
                        if let Err(e) = self.run_ini(d.get_name(), waits) {
                            return Err(e);
                        }
                    }
                    if below {
                        if let Err(e) = self.walk_all_devices(d.get_term_list(), waits, fuel - 1) {
                            return Err(e);
                        }
                    }
                },
                TermObj::NamedObj(o) => {
                    let holds_devices = match &o {
                        NamedObject::DefPowerRes(_) => true,
                        NamedObject::DefThermalZone(_) => true,
                        _ => false,
                    };
                    if holds_devices {
                        if let Some(body) = o.get_term_list() {
                            if let Err(e) = self.walk_all_devices(&body, waits, fuel - 1) {
                                return Err(e);
                            }
                        }
                    }
                },
                _ => {},
            }
        }
    }

    /// Initialises the devices of every table, the DSDT first (see
    /// `walk_all_devices`).
    pub fn initialize_all_devices(&mut self, waits: &mut Vec<Wait>) -> (r: Result<(), AmlError>)
        requires
            old(self).wf(),
        ensures
            final(self).wf(),
    {
        let mut i: usize = 0;
        while i < self.root_term_lists.len()
            invariant
                self.wf(),
                self.spec_tables() == old(self).spec_tables(),
            decreases self.root_term_lists.len() - i,
        {
            let list = self.root_term_lists[i].clone();
            if let Err(e) = self.walk_all_devices(&list, waits, SEARCH_FUEL) {
                return Err(e);
            }
            i = i + 1;
        }
        Ok(())
    }

    /// The scope of the first device, in `list` and the scopes and devices
    /// in it (at most `fuel` deep), that names `hid` as its `_HID` integer;
    /// `in_device` says whether `list` is the body of a device.
    #[verifier::rlimit(60)]
    pub fn find_device(&self, list: &TermList, hid: u32, in_device: bool, fuel: usize) -> (r: Result<
        Option<NameString>,
        AmlError,
    >)
        ensures
            fuel == 0 ==> r == Err::<Option<NameString>, AmlError>(AmlError::InvalidOperation),
            fuel > 0 && !list.window().wf() ==> r == Err::<Option<NameString>, AmlError>(AmlError::AccessOutOfRange),
            list.window().wf() ==> (spec_find_device(
                list.window().bytes(),
                list.window().pos(),
                list.window().end(),
                (list.scope().segs(), list.scope().spec_flag()),
                hid,
                in_device,
                fuel as nat,
            ) matches Some(f) ==> match f {
                Found::Device(segs, flag) => r matches Ok(Some(n)) && n.segs() == segs && n.spec_flag() == flag,
                Found::Absent => r == Ok::<Option<NameString>, AmlError>(None),
                Found::Failed => r is Err,
            }),
            (fuel > 0 && list.window().wf() && list.window().rem() == 0) ==> r == Ok::<
                Option<NameString>,
                AmlError,
            >(None),
        decreases fuel,
    {
        proof {
            lemma_find_end(
                list.window().bytes(),
                list.window().pos(),
                list.window().end(),
                (list.scope().segs(), list.scope().spec_flag()),
                hid,
                in_device,
                fuel as nat,
            );
        }
        if fuel == 0 {
            return Err(AmlError::InvalidOperation);
        }
        let mut terms = list.clone();
        if !terms.is_readable() {
            return Err(AmlError::AccessOutOfRange);
        }
        let ghost empty = list.window().rem() == 0;
        let hid_segment = [HID_SEGMENT];
        let hid_name = NameString::from_array(&hid_segment, false).get_full_name_path(list.get_scope_name(), true);
        let ghost sc = (list.scope().segs(), list.scope().spec_flag());
        let ghost bytes = list.window().bytes();
        let ghost end = list.window().end();
        let ghost target = spec_find_device(bytes, list.window().pos(), end, sc, hid, in_device, fuel as nat);
        proof {
            if sc.1 != NameStringFlag::NullName {
                assert(hid_name.segs() =~= hid_path(sc).0);
            }
        }
        loop
            invariant
                terms.window().wf(),
                list.window().wf(),
                fuel > 0,
                empty == (list.window().rem() == 0),
                empty ==> terms.window().rem() == 0,
                bytes == list.window().bytes(),
                end == list.window().end(),
                sc == (list.scope().segs(), list.scope().spec_flag()),
                terms.window().bytes() == bytes,
                terms.window().end() == end,
                (terms.scope().segs(), terms.scope().spec_flag()) == sc,
                hid_name.segs() == hid_path(sc).0,
                hid_name.spec_flag() == hid_path(sc).1,
                target == spec_find_device(bytes, list.window().pos(), end, sc, hid, in_device, fuel as nat),
                target is Some ==> spec_find_device(bytes, terms.window().pos(), end, sc, hid, in_device, fuel as nat)
                    == target,
            decreases terms.window().rem(),
        {
            let ghost cur = terms.window().pos();
            proof {
                if cur >= end {
                    lemma_find_end(bytes, cur, end, sc, hid, in_device, fuel as nat);
                } else if target is Some {
                    lemma_find_step(bytes, cur, end, sc, hid, in_device, fuel as nat);
                }
                reveal(decl_matches);
            }
            let term = match terms.next(&self.table) {
                Ok(Some(t)) => t,
                Ok(None) => {
                    return Ok(None);
                },
                Err(e) => {
                    return Err(e);
                },
            };
            match term {
                TermObj::NamespaceModifierObj(NamespaceModifierObject::DefScope(sc)) => {
                    match self.find_device(sc.get_term_list(), hid, in_device, fuel - 1) {
                        Ok(Some(n)) => {
                            return Ok(Some(n));
                        },
                        Ok(None) => {},
                        Err(e) => {
                            return Err(e);
                        },
                    }
                },
                TermObj::NamespaceModifierObj(NamespaceModifierObject::DefName(n)) => {
                    if in_device && *n.get_name() == hid_name {
                        if let DataRefObject::DataObject(DataObject::ComputationalData(ComputationalData::ConstData(d))) =
                            n.get_data_ref_object() {
                            if d.to_int() == hid as usize {
                                return Ok(Some(list.get_scope_name().copy()));
                            }
                        }
                    }
                },
                TermObj::NamedObj(NamedObject::DefDevice(d)) => {
                    match self.find_device(d.get_term_list(), hid, true, fuel - 1) {
                        Ok(Some(n)) => {
                            return Ok(Some(n));
                        },
                        Ok(None) => {},
                        Err(e) => {
                            return Err(e);
                        },
                    }
                },
                _ => {},
            }
        }
    }

    /// Makes the scope of the device whose `_HID` is the EISA identifier
    /// `hid` the current scope, searching the tables in turn; whether one
    /// was found (none changes nothing), and an error where a table cannot
    /// be read.
    pub fn move_into_device(&mut self, hid: &[u8; 7]) -> (r: Result<bool, ()>)
        requires
            old(self).wf(),
            forall|i: int| 0 <= i < 7 ==> eisa_char_ok(#[trigger] hid[i], i),
        ensures
            final(self).wf(),
            final(self).spec_tables() == old(self).spec_tables(),
            final(self).spec_evaluator().spec_store() == old(self).spec_evaluator().spec_store(),
            r != Ok::<bool, ()>(true) ==> final(self).spec_evaluator() == old(self).spec_evaluator(),
            old(self).spec_tables().len() == 0 ==> r == Ok::<bool, ()>(false),
            find_in_tables(old(self).spec_tables(), 0, spec_eisa_id(hid@)) matches Some(f) ==> match f {
                Found::Device(segs, flag) => r == Ok::<bool, ()>(true) && final(self).spec_evaluator().spec_frame().spec_scope().segs()
                    == segs && final(self).spec_evaluator().spec_frame().spec_scope().spec_flag() == flag,
                Found::Absent => r == Ok::<bool, ()>(false),
                Found::Failed => r == Err::<bool, ()>(()),
            },
    {
        let id = eisa_id_to_dword(hid);
        let mut i: usize = 0;
        while i < self.root_term_lists.len()
            invariant
                self.wf(),
                self.spec_tables() == old(self).spec_tables(),
                self.spec_evaluator() == old(self).spec_evaluator(),
                id == spec_eisa_id(hid@),
                find_in_tables(old(self).spec_tables(), 0, id) is Some ==> find_in_tables(old(self).spec_tables(), 0, id)
                    == find_in_tables(old(self).spec_tables(), i as int, id),
            decreases self.root_term_lists.len() - i,
        {
            match self.find_device(&self.root_term_lists[i], id, false, SEARCH_FUEL) {
                Ok(Some(scope)) => {
                    self.evaluator.set_current_scope(scope);
                    return Ok(true);
                },
                Ok(None) => {},
                Err(_) => {
                    return Err(());
                },
            }
            i = i + 1;
        }
        Ok(false)
    }
}

} // verus!
