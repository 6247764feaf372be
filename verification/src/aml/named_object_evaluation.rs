//! What a named object stands for in the interpreter's store: a region of
//! an address space, a field of a region or of a buffer, a method, a
//! mutex, or a device. A field is found in its field list by name.
use vstd::prelude::*;
use super::AmlError;
use super::aml_variable::{AmlBitFiled, AmlByteFiled, AmlIndexField, AmlPciConfig, AmlVariable};
use super::data_object::ConstData;
use super::expression_evaluator::{EvaluationFrame, Evaluator, Operand, agrees, same_error};
use super::name_object::{NORMAL_LIMIT, NameString, NameStringFlag, suffix_match};
use super::named_object::{
    CreateField, CreateFieldType, FieldElement, FieldList, ElementStep, NamedObject, OpRegion, spec_access_size,
    spec_field_step,
};

verus! {

/// Where a named field lies in its region: its first bit, its width in
/// bits and its access size in bytes.
#[derive(Debug, Clone, Copy, PartialEq, Eq, Structural)]
pub struct FieldLocation {
    pub bit_index: usize,
    pub num_of_bits: usize,
    pub access_align: usize,
}

/// Whether the field element named `entry` is the object `name`: the last
/// segments of the two agree (a single-segment entry by its one segment).
pub open spec fn field_name_matches(name: NameString, entry: NameString) -> bool {
    entry_matches((name.segs(), name.spec_flag()), entry.segs(), entry.spec_flag())
}

/// `field_name_matches` for the entry with segments `segs` and kind `flag`.
/// The name looked for is given by its segments and kind.
pub open spec fn entry_matches(name: (Seq<[u8; 4]>, NameStringFlag), segs: Seq<[u8; 4]>, flag: NameStringFlag) -> bool {
    let name_is_null = name.1 == NameStringFlag::NullName;
    if flag == NameStringFlag::SingleRelativePath && segs.len() > 0 {
        name_is_null || suffix_match(name.0, seq![segs.last()])
    } else {
        name_is_null || flag == NameStringFlag::NullName || suffix_match(name.0, segs)
    }
}

/// The location of the field `name` in the field list read from `p` in the
/// window ending at `end` (as `spec_field_step` reads it), the elements
/// before `p` having taken the bits up to `index` and set the access size to
/// `access`, as `spec_locate` finds it in those elements; the first failure
/// to read an element is the result where it comes before the field.
pub open spec fn spec_read_field(
    s: Seq<u8>,
    p: int,
    end: int,
    scope: (Seq<[u8; 4]>, NameStringFlag),
    name: (Seq<[u8; 4]>, NameStringFlag),
    index: usize,
    access: usize,
) -> Result<FieldLocation, AmlError>
    decreases end - p,
{
    match spec_field_step(s, p, end, scope) {
        ElementStep::End => Err(AmlError::AccessOutOfRange),
        ElementStep::Fail(e) => Err(e),
        ElementStep::Reserved(len, q) => if index + len > usize::MAX {
            Err(AmlError::InvalidOperation)
        } else if q <= p || q > end {
            Err(AmlError::AccessOutOfRange)
        } else {
            spec_read_field(s, q, end, scope, name, (index + len) as usize, access)
        },
        ElementStep::Access(t, _, q) => if q <= p || q > end {
            Err(AmlError::AccessOutOfRange)
        } else {
            spec_read_field(s, q, end, scope, name, index, spec_access_size(t))
        },
        ElementStep::Connect(_, _, q) => if q <= p || q > end {
            Err(AmlError::AccessOutOfRange)
        } else {
            spec_read_field(s, q, end, scope, name, index, access)
        },
        ElementStep::ExtendedAccess(_, _, l, q) => if index + l > usize::MAX {
            Err(AmlError::InvalidOperation)
        } else if q <= p || q > end {
            Err(AmlError::AccessOutOfRange)
        } else {
            spec_read_field(s, q, end, scope, name, (index + l) as usize, access)
        },
        ElementStep::Named(segs, flag, len, q) => if entry_matches(name, segs, flag) {
            Ok(FieldLocation { bit_index: index, num_of_bits: len as usize, access_align: access })
        } else if index + len > usize::MAX {
            Err(AmlError::InvalidOperation)
        } else if q <= p || q > end {
            Err(AmlError::AccessOutOfRange)
        } else {
            spec_read_field(s, q, end, scope, name, (index + len) as usize, access)
        },
    }
}

/// The location of the field `name` in the elements of a field list, the
/// elements before them having taken the bits up to `index` and set the
/// access size to `access`: reserved fields, extended access fields and the
/// named fields before it take bits; an access field changes the access
/// size. A list without the name is `AccessOutOfRange`.
pub open spec fn spec_locate(elements: Seq<FieldElement>, name: NameString, index: usize, access: usize) -> Result<
    FieldLocation,
    AmlError,
>
    decreases elements.len(),
{
    if elements.len() == 0 {
        Err(AmlError::AccessOutOfRange)
    } else {
        let rest = elements.drop_first();
        match elements[0] {
            FieldElement::ReservedField(size) => if index + size.length > usize::MAX {
                Err(AmlError::InvalidOperation)
            } else {
                spec_locate(rest, name, (index + size.length) as usize, access)
            },
            FieldElement::AccessField(t, _) => spec_locate(rest, name, index, spec_access_size(t)),
            FieldElement::ExtendedAccessField(e) => if index + e[2] > usize::MAX {
                Err(AmlError::InvalidOperation)
            } else {
                spec_locate(rest, name, (index + e[2]) as usize, access)
            },
            FieldElement::ConnectField(_) => spec_locate(rest, name, index, access),
            FieldElement::NameField(entry, len) => if field_name_matches(name, entry) {
                Ok(FieldLocation { bit_index: index, num_of_bits: len.length, access_align: access })
            } else if index + len.length > usize::MAX {
                Err(AmlError::InvalidOperation)
            } else {
                spec_locate(rest, name, (index + len.length) as usize, access)
            },
        }
    }
}

/// Finds the field `name` in the elements of a field list whose access size
/// is `access_size` at first, as `spec_locate` says.
pub fn locate_field(elements: &Vec<FieldElement>, name: &NameString, access_size: usize) -> (r: Result<
    FieldLocation,
    AmlError,
>)
    ensures
        r == spec_locate(elements@, *name, 0, access_size),
{
    let mut i: usize = 0;
    let mut index: usize = 0;
    let mut access = access_size;
    assert(elements@.subrange(0, elements@.len() as int) =~= elements@);
    while i < elements.len()
        invariant
            i <= elements@.len(),
            spec_locate(elements@, *name, 0, access_size) == spec_locate(
                elements@.subrange(i as int, elements@.len() as int),
                *name,
                index,
                access,
            ),
        decreases elements@.len() - i,
    {
        let ghost rest = elements@.subrange(i as int, elements@.len() as int);
        assert(rest.drop_first() =~= elements@.subrange(i + 1, elements@.len() as int));
        assert(rest[0] == elements@[i as int]);
        match &elements[i] {
            FieldElement::ReservedField(size) => {
                if size.length > usize::MAX - index {
                    return Err(AmlError::InvalidOperation);
                }
                index = index + size.length;
            },
            FieldElement::AccessField(t, _) => {
                access = super::named_object::Field::convert_to_access_size(*t);
            },
            FieldElement::ExtendedAccessField(e) => {
                let n = e[2] as usize;
                if n > usize::MAX - index {
                    return Err(AmlError::InvalidOperation);
                }
                index = index + n;
            },
            FieldElement::ConnectField(_) => {},
            FieldElement::NameField(entry, len) => {
                let last = match entry.get_single_name_path() {
                    Some(n) => n,
                    None => entry.copy(),
                };
                if name.suffix_search(&last) {
                    return Ok(FieldLocation { bit_index: index, num_of_bits: len.length, access_align: access });
                }
                if len.length > usize::MAX - index {
                    return Err(AmlError::InvalidOperation);
                }
                index = index + len.length;
            },
        }
        i = i + 1;
    }
    Err(AmlError::AccessOutOfRange)
}

/// The number of bytes of a `CreateField` of a fixed width.
pub open spec fn byte_width(t: CreateFieldType) -> usize {
    match t {
        CreateFieldType::Word => 2,
        CreateFieldType::DWord => 4,
        CreateFieldType::QWord => 8,
        _ => 1,
    }
}

impl EvaluationFrame {
    /// A `CreateField` opcode: a bit field (one bit, or as many as its size
    /// term) or a byte field of the variable its source names, from the
    /// index its index term gives. A source that is no variable of the
    /// store is `UnsupportedType`.
    pub open spec fn create_field_val(&self, store: Seq<AmlVariable>, f: CreateField) -> (
        Seq<AmlVariable>,
        Result<AmlVariable, AmlError>,
    ) {
        let (s1, src) = self.term_val(store, f.spec_source_buffer());
        match src {
            Err(e) => (s1, Err(e)),
            Ok(Operand::Variable(h)) => {
                let (s2, x) = self.int_val(s1, f.spec_index());
                match x {
                    Err(e) => (s2, Err(e)),
                    Ok(i) => {
                        let index = i.spec_value() as usize;
                        match f.spec_size() {
                            CreateFieldType::Bit => (
                                s2,
                                Ok(
                                    AmlVariable::BitField(
                                        AmlBitFiled {
                                            source: h,
                                            bit_index: index,
                                            num_of_bits: 1,
                                            access_align: 1,
                                            should_lock_global_lock: false,
                                        },
                                    ),
                                ),
                            ),
                            CreateFieldType::Other => match f.spec_optional_size() {
                                None => (s2, Err(AmlError::InvalidOperation)),
                                Some(t) => {
                                    let (s3, y) = self.int_val(s2, t);
                                    match y {
                                        Err(e) => (s3, Err(e)),
                                        Ok(n) => (
                                            s3,
                                            Ok(
                                                AmlVariable::BitField(
                                                    AmlBitFiled {
                                                        source: h,
                                                        bit_index: index,
                                                        num_of_bits: n.spec_value() as usize,
                                                        access_align: 1,
                                                        should_lock_global_lock: false,
                                                    },
                                                ),
                                            ),
                                        ),
                                    }
                                },
                            },
                            t => (
                                s2,
                                Ok(
                                    AmlVariable::ByteField(
                                        AmlByteFiled {
                                            source: h,
                                            byte_index: index,
                                            num_of_bytes: byte_width(t),
                                            should_lock_global_lock: false,
                                        },
                                    ),
                                ),
                            ),
                        }
                    },
                }
            },
            Ok(_) => (s1, Err(AmlError::UnsupportedType)),
        }
    }

    /// The offset and the length of an operation region, its terms
    /// evaluated in turn; an address space past `PCC` is `UnsupportedType`.
    pub open spec fn region_bounds(&self, store: Seq<AmlVariable>, r: OpRegion) -> (
        Seq<AmlVariable>,
        Result<(usize, usize), AmlError>,
    ) {
        if r.spec_region_scope() > 0x0A {
            (store, Err(AmlError::UnsupportedType))
        } else {
            let (s1, x) = self.int_val(store, r.spec_offset());
            match x {
                Err(e) => (s1, Err(e)),
                Ok(o) => {
                    let (s2, y) = self.int_val(s1, r.spec_length());
                    match y {
                        Err(e) => (s2, Err(e)),
                        Ok(l) => (s2, Ok((o.spec_value() as usize, l.spec_value() as usize))),
                    }
                },
            }
        }
    }

    /// What a named object other than a field and a PCI region stands for:
    /// a region of system memory, system I/O or the embedded controller; a
    /// field created on a buffer; a method; a mutex (not held); a device
    /// (no value). Other kinds of objects are not supported.
    pub open spec fn named_val(&self, store: Seq<AmlVariable>, n: NamedObject) -> (
        Seq<AmlVariable>,
        Result<AmlVariable, AmlError>,
    ) {
        match n {
            NamedObject::DefCreateField(f) => self.create_field_val(store, f),
            NamedObject::DefDevice(_) => (store, Ok(AmlVariable::Uninitialized)),
            NamedObject::DefMethod(m) => (store, Ok(AmlVariable::Method(m))),
            NamedObject::DefMutex(_, sync) => (store, Ok(AmlVariable::Mutex(0, sync))),
            NamedObject::DefExternal(_) => (store, Err(AmlError::InvalidType)),
            NamedObject::DefOpRegion(r) => {
                let (s1, b) = self.region_bounds(store, r);
                match b {
                    Err(e) => (s1, Err(e)),
                    Ok((offset, length)) => if r.spec_region_scope() == 0 {
                        (s1, Ok(AmlVariable::MMIo(offset, length)))
                    } else if r.spec_region_scope() == 1 {
                        (s1, Ok(AmlVariable::Io(offset, length)))
                    } else if r.spec_region_scope() == 3 {
                        (s1, Ok(AmlVariable::EcIo(offset, length)))
                    } else {
                        (s1, Err(AmlError::UnsupportedType))
                    },
                }
            },
            _ => (store, Err(AmlError::UnsupportedType)),
        }
    }
}

/// Whether a named object is a region of PCI configuration space.
pub open spec fn is_pci_region(n: NamedObject) -> bool {
    n matches NamedObject::DefOpRegion(r) && r.spec_region_scope() == 2
}


/// What evaluating the PCI region `reg` gave: the store its terms leave,
/// and a PCI region of their offset and length, or their error.
pub open spec fn pci_region_outcome(
    frame: EvaluationFrame,
    store: Seq<AmlVariable>,
    reg: OpRegion,
    after: Seq<AmlVariable>,
    r: Result<AmlVariable, AmlError>,
) -> bool {
    let (s1, b) = frame.region_bounds(store, reg);
    &&& after == s1
    &&& match b {
        Err(e) => r matches Err(x) && same_error(x, e),
        Ok((o, l)) => r matches Ok(v) ==> (v matches AmlVariable::PciConfig(c) && c.offset == o && c.length == l),
    }
}

/// The path that the single segment `seg` names when taken in the scope
/// that holds the object `region`.
pub open spec fn sibling_path(region: NameString, seg: [u8; 4]) -> Seq<[u8; 4]> {
    if region.spec_flag() == NameStringFlag::NullName {
        seq![seg]
    } else if region.segs().len() == 0 {
        seq![seg]
    } else {
        region.segs().drop_last() + seq![seg]
    }
}

/// What a PCI region reads from the object at `h`, where there is one: the
/// integer of constant data; a method is not supported, anything else is
/// of the wrong type.
pub open spec fn pci_object(store: Seq<AmlVariable>, h: Option<usize>) -> Option<Result<usize, AmlError>> {
    match h {
        None => None,
        Some(h) => Some(
            if h >= store.len() {
                Err(AmlError::InvalidType)
            } else {
                match store[h as int] {
                    AmlVariable::ConstData(c) => Ok(c.spec_value() as usize),
                    AmlVariable::Method(_) => Err(AmlError::UnsupportedType),
                    _ => Err(AmlError::InvalidType),
                }
            },
        ),
    }
}

/// The segments and kind by which the field list of a field in `scope`
/// knows the object `object_name`: its path relative to `scope` where it
/// lies below it (past seven segments, the first seven and the last), else
/// the name as it is.
pub open spec fn field_lookup_name(object_name: NameString, scope: NameString) -> (Seq<[u8; 4]>, NameStringFlag) {
    if scope.spec_is_child(&object_name) {
        let rel = object_name.elems().subrange(scope.elems().len() as int, object_name.elems().len() as int);
        (
            if rel.len() <= NORMAL_LIMIT {
                rel
            } else {
                rel.subrange(0, NORMAL_LIMIT as int).push(rel.last())
            },
            if rel.len() == 1 {
                NameStringFlag::SingleRelativePath
            } else {
                NameStringFlag::RelativePath
            },
        )
    } else {
        (object_name.segs(), object_name.spec_flag())
    }
}

/// Where the field `object_name` lies in the field list `list` of a field
/// in `scope` whose flags are `flags`: as `spec_read_field` reads the list;
/// a list that cannot be read is out of range.
pub open spec fn field_location(list: FieldList, object_name: NameString, scope: NameString, flags: u8) -> Result<
    FieldLocation,
    AmlError,
> {
    let w = list.window();
    if w.wf() {
        spec_read_field(
            w.bytes(),
            w.pos(),
            w.end(),
            (list.scope().segs(), list.scope().spec_flag()),
            field_lookup_name(object_name, scope),
            0,
            spec_access_size(flags),
        )
    } else {
        Err(AmlError::AccessOutOfRange)
    }
}

/// The bit index and the access size after the element `el`, from `index`
/// and `access` before it, where `el` is not the field looked for.
pub open spec fn locate_step(el: FieldElement, index: usize, access: usize) -> (usize, usize) {
    match el {
        FieldElement::ReservedField(l) => ((index + l.length) as usize, access),
        FieldElement::AccessField(t, _) => (index, spec_access_size(t)),
        FieldElement::ExtendedAccessField(x) => ((index + x[2]) as usize, access),
        FieldElement::ConnectField(_) => (index, access),
        FieldElement::NameField(_, l) => ((index + l.length) as usize, access),
    }
}

/// Where `el` alone does not settle the search, the elements after it are
/// searched from the state it leaves.
proof fn lemma_locate_one(el: FieldElement, ext: Seq<FieldElement>, name: NameString, index: usize, access: usize)
    requires
        spec_locate(seq![el], name, index, access) == Err::<FieldLocation, AmlError>(AmlError::AccessOutOfRange),
    ensures
        spec_locate(seq![el] + ext, name, index, access) == spec_locate(
            ext,
            name,
            locate_step(el, index, access).0,
            locate_step(el, index, access).1,
        ),
{
    reveal_with_fuel(spec_locate, 2);
    assert(seq![el].drop_first() =~= Seq::<FieldElement>::empty());
    assert((seq![el] + ext).drop_first() =~= ext);
    assert((seq![el] + ext)[0] == el);
}

/// One element read from the bytes: reading the list from `p` is reading it
/// from after the element, unless the element settles the search.
proof fn lemma_read_one(
    s: Seq<u8>,
    p: int,
    end: int,
    scope: (Seq<[u8; 4]>, NameStringFlag),
    name: NameString,
    index: usize,
    access: usize,
    el: FieldElement,
    q: int,
)
    requires
        super::named_object::field_step_outcome(
            spec_field_step(s, p, end, scope),
            Ok::<Option<FieldElement>, AmlError>(Some(el)),
            q,
        ),
        p < q <= end,
    ensures
        spec_locate(seq![el], name, index, access) == Err::<FieldLocation, AmlError>(AmlError::AccessOutOfRange)
            ==> spec_read_field(s, p, end, scope, (name.segs(), name.spec_flag()), index, access) == spec_read_field(
            s,
            q,
            end,
            scope,
            (name.segs(), name.spec_flag()),
            locate_step(el, index, access).0,
            locate_step(el, index, access).1,
        ),
        spec_locate(seq![el], name, index, access) != Err::<FieldLocation, AmlError>(AmlError::AccessOutOfRange)
            ==> spec_read_field(s, p, end, scope, (name.segs(), name.spec_flag()), index, access) == spec_locate(
            seq![el],
            name,
            index,
            access,
        ),
{
    reveal_with_fuel(spec_locate, 2);
    assert(seq![el].drop_first() =~= Seq::<FieldElement>::empty());
    assert(seq![el][0] == el);
}

/// Reads the elements of a field list until the field `name` is found in
/// them (as `spec_locate` finds it), or the list ends: `spec_read_field` of
/// the list's bytes.
fn read_field(list: &FieldList, name: &NameString, access_size: usize) -> (r: Result<FieldLocation, AmlError>)
    ensures
        !list.window().wf() ==> r == Err::<FieldLocation, AmlError>(AmlError::AccessOutOfRange),
        list.window().wf() ==> r == spec_read_field(
            list.window().bytes(),
            list.window().pos(),
            list.window().end(),
            (list.scope().segs(), list.scope().spec_flag()),
            (name.segs(), name.spec_flag()),
            0,
            access_size,
        ),
{
    let ghost s = list.window().bytes();
    let ghost end = list.window().end();
    let ghost sc = (list.scope().segs(), list.scope().spec_flag());
    let ghost nm = (name.segs(), name.spec_flag());
    let ghost whole = spec_read_field(s, list.window().pos(), end, sc, nm, 0, access_size);
    let mut fields = list.clone();
    if !fields.is_readable() {
        return Err(AmlError::AccessOutOfRange);
    }
    let mut elements: Vec<FieldElement> = Vec::new();
    let ghost mut idx: usize = 0;
    let ghost mut acc: usize = access_size;
    assert forall|ext: Seq<FieldElement>|
        spec_locate(elements@ + ext, *name, 0, access_size) == spec_locate(ext, *name, idx, acc) by {
        assert(elements@ + ext =~= ext);
    }
    loop
        invariant
            list.window().wf(),
            nm == (name.segs(), name.spec_flag()),
            whole == spec_read_field(
                list.window().bytes(),
                list.window().pos(),
                list.window().end(),
                (list.scope().segs(), list.scope().spec_flag()),
                nm,
                0,
                access_size,
            ),
            fields.window().wf(),
            fields.window().bytes() == s,
            fields.window().end() == end,
            (fields.scope().segs(), fields.scope().spec_flag()) == sc,
            whole == spec_read_field(s, fields.window().pos(), end, sc, nm, idx, acc),
            forall|ext: Seq<FieldElement>|
                spec_locate(elements@ + ext, *name, 0, access_size) == #[trigger] spec_locate(ext, *name, idx, acc),
        decreases fields.window().rem(),
    {
        let ghost cur = fields.window().pos();
        let ghost before = elements@;
        match fields.next() {
            Err(e) => {
                return Err(e);
            },
            Ok(None) => {
                return Err(AmlError::AccessOutOfRange);
            },
            Ok(Some(e)) => {
                elements.push(e);
                let ghost el = elements@.last();
                let ghost q = fields.window().pos();
                let ghost (nidx, nacc) = locate_step(el, idx, acc);
                proof {
                    assert(before + seq![el] =~= elements@);
                    assert(spec_locate(elements@, *name, 0, access_size) == spec_locate(seq![el], *name, idx, acc));
                    lemma_read_one(s, cur, end, sc, *name, idx, acc, el, q);
                }
                match locate_field(&elements, name, access_size) {
                    Ok(loc) => {
                        return Ok(loc);
                    },
                    Err(AmlError::AccessOutOfRange) => {
                        proof {
                            assert forall|ext: Seq<FieldElement>|
                                spec_locate(elements@ + ext, *name, 0, access_size) == #[trigger] spec_locate(
                                    ext,
                                    *name,
                                    nidx,
                                    nacc,
                                ) by {
                                assert(before + (seq![el] + ext) =~= elements@ + ext);
                                lemma_locate_one(el, ext, *name, idx, acc);
                            }
                        }
                        proof {
                            idx = nidx;
                            acc = nacc;
                        }
                    },
                    Err(e) => {
                        return Err(e);
                    },
                }
            },
        }
    }
}

impl Evaluator {
    fn region_bounds_exec(&mut self, r: &OpRegion) -> (res: Result<(usize, usize), AmlError>)
        requires
            old(self).wf(),
        ensures
            final(self).wf(),
            final(self).same_frame(old(self)),
            final(self).spec_store() == old(self).spec_frame().region_bounds(old(self).spec_store(), *r).0,
            agrees(res, old(self).spec_frame().region_bounds(old(self).spec_store(), *r).1),
    {
        if let Err(e) = r.get_operation_type() {
            return Err(e);
        }
        let offset = match self.eval_integer_expression(r.get_region_offset()) {
            Ok(c) => c.to_int(),
            Err(e) => {
                return Err(e);
            },
        };
        let length = match self.eval_integer_expression(r.get_region_length()) {
            Ok(c) => c.to_int(),
            Err(e) => {
                return Err(e);
            },
        };
        Ok((offset, length))
    }

    fn create_field(&mut self, f: &CreateField) -> (res: Result<AmlVariable, AmlError>)
        requires
            old(self).wf(),
        ensures
            final(self).wf(),
            final(self).same_frame(old(self)),
            final(self).spec_store() == old(self).spec_frame().create_field_val(old(self).spec_store(), *f).0,
            agrees(res, old(self).spec_frame().create_field_val(old(self).spec_store(), *f).1),
    {
        let source = match self.eval_term_arg(f.get_source_buffer()) {
            Ok(Operand::Variable(h)) => h,
            Ok(_) => {
                return Err(AmlError::UnsupportedType);
            },
            Err(e) => {
                return Err(e);
            },
        };
        let index = match self.eval_integer_expression(f.get_index()) {
            Ok(c) => c.to_int(),
            Err(e) => {
                return Err(e);
            },
        };
        if f.is_bit_field() {
            let num_of_bits = match f.get_source_size() {
                Some(n) => n,
                None => match f.get_source_size_term_arg() {
                    Some(t) => match self.eval_integer_expression(t) {
                        Ok(c) => c.to_int(),
                        Err(e) => {
                            return Err(e);
                        },
                    },
                    None => {
                        return Err(AmlError::InvalidOperation);
                    },
                },
            };
            Ok(
                AmlVariable::BitField(
                    AmlBitFiled {
                        source,
                        bit_index: index,
                        num_of_bits,
                        access_align: 1,
                        should_lock_global_lock: false,
                    },
                ),
            )
        } else {
            let num_of_bytes = match f.get_source_size() {
                Some(n) => n,
                None => 1,
            };
            Ok(
                AmlVariable::ByteField(
                    AmlByteFiled { source, byte_index: index, num_of_bytes, should_lock_global_lock: false },
                ),
            )
        }
    }

    /// The bus, device and function of the PCI region `r`: the bus from
    /// `_BBN` in the region's scope (0 where there is none), the device and
    /// function from `_ADR`. Either given by a method is not supported.
    fn pci_address(&self, r: &OpRegion) -> (res: Result<(u16, u16, u16), AmlError>)
        ensures
            ({
                let ns = self.spec_frame().spec_namespace();
                let store = self.spec_store();
                let bus = pci_object(
                    store,
                    ns.spec_lookup_parts(
                        sibling_path(r.spec_name(), [0x5Fu8, 0x42u8, 0x42u8, 0x4Eu8]),
                        NameStringFlag::SingleRelativePath,
                    ),
                );
                let adr = pci_object(
                    store,
                    ns.spec_lookup_parts(
                        sibling_path(r.spec_name(), [0x5Fu8, 0x41u8, 0x44u8, 0x52u8]),
                        NameStringFlag::SingleRelativePath,
                    ),
                );
                match bus {
                    Some(Err(e)) => res == Err::<(u16, u16, u16), AmlError>(e),
                    _ => match adr {
                        None => res matches Err(e) && e is InvalidName,
                        Some(Err(e)) => res == Err::<(u16, u16, u16), AmlError>(e),
                        Some(Ok(a)) => res == Ok::<(u16, u16, u16), AmlError>(
                            (
                                match bus {
                                    Some(Ok(b)) => (b & 0xFF) as u16,
                                    _ => 0u16,
                                },
                                ((a >> 16usize) & 0xFFFF) as u16,
                                (a & 0xFFFF) as u16,
                            ),
                        ),
                    },
                }
            }),
    {
        let mut scope = r.get_name().copy();
        scope.up_to_parent_name_space();
        let bbn = [0x5Fu8, 0x42u8, 0x42u8, 0x4Eu8];
        let bbn_name = NameString::from_array(&[bbn], false).get_full_name_path(&scope, false);
        assert(bbn_name.segs() == sibling_path(r.spec_name(), bbn));
        assert(bbn_name.spec_flag() == NameStringFlag::SingleRelativePath);
        let bus: u16 = match self.search_aml_variable(&bbn_name) {
            Ok(h) => match self.get_variable(h) {
                Some(AmlVariable::ConstData(c)) => (c.to_int() & 0xFF) as u16,
                Some(AmlVariable::Method(_)) => {
                    return Err(AmlError::UnsupportedType);
                },
                _ => {
                    return Err(AmlError::InvalidType);
                },
            },
            Err(AmlError::InvalidName(_)) => 0,
            Err(e) => {
                return Err(e);
            },
        };
        let adr = [0x5Fu8, 0x41u8, 0x44u8, 0x52u8];
        let adr_name = NameString::from_array(&[adr], false).get_full_name_path(&scope, false);
        assert(adr_name.segs() == sibling_path(r.spec_name(), adr));
        assert(adr_name.spec_flag() == NameStringFlag::SingleRelativePath);
        let address = match self.search_aml_variable(&adr_name) {
            Ok(h) => match self.get_variable(h) {
                Some(AmlVariable::ConstData(c)) => c.to_int(),
                Some(AmlVariable::Method(_)) => {
                    return Err(AmlError::UnsupportedType);
                },
                _ => {
                    return Err(AmlError::InvalidType);
                },
            },
            Err(e) => {
                return Err(e);
            },
        };
        Ok((bus, ((address >> 16usize) & 0xFFFF) as u16, (address & 0xFFFF) as u16))
    }

    /// What the named object `object_name` (`named_object`) stands for in the
    /// store, as `named_val` says for all but fields and PCI regions. A field
    /// of a region is a bit field of the region the namespace gives for its
    /// region name, an index field one of its two registers; either lies
    /// where its field list places `object_name`, taken relative to the
    /// current scope. A PCI region takes its offset and length from its
    /// terms.
    pub fn eval_named_object(&mut self, object_name: &NameString, named_object: NamedObject) -> (r: Result<
        AmlVariable,
        AmlError,
    >)
        requires
            old(self).wf(),
            !(named_object is DefDataRegion),
        ensures
            final(self).wf(),
            final(self).same_frame(old(self)),
            !(named_object is DefField || named_object is DefIndexField || is_pci_region(named_object)) ==> (
            final(self).spec_store() == old(self).spec_frame().named_val(old(self).spec_store(), named_object).0
                && agrees(r, old(self).spec_frame().named_val(old(self).spec_store(), named_object).1)),
            named_object matches NamedObject::DefField(f) ==> final(self).spec_store() == old(self).spec_store()
                && match old(self).spec_frame().spec_search(f.spec_region_name()) {
                Err(e) => r matches Err(x) && same_error(x, e),
                Ok(h) => match field_location(
                    f.spec_field_list(),
                    *object_name,
                    old(self).spec_frame().spec_scope(),
                    f.spec_flags(),
                ) {
                    Err(e) => r == Err::<AmlVariable, AmlError>(e),
                    Ok(loc) => r == Ok::<AmlVariable, AmlError>(
                        AmlVariable::BitField(
                            AmlBitFiled {
                                source: h,
                                bit_index: loc.bit_index,
                                num_of_bits: loc.num_of_bits,
                                access_align: loc.access_align,
                                should_lock_global_lock: (f.spec_flags() / 16) % 2 == 1,
                            },
                        ),
                    ),
                },
            },
            named_object matches NamedObject::DefIndexField(f) ==> final(self).spec_store() == old(
                self,
            ).spec_store() && match old(self).spec_frame().spec_search(f.spec_index_register()) {
                Err(e) => r matches Err(x) && same_error(x, e),
                Ok(i) => match old(self).spec_frame().spec_search(f.spec_data_register()) {
                    Err(e) => r matches Err(x) && same_error(x, e),
                    Ok(d) => match field_location(
                        f.spec_field_list(),
                        *object_name,
                        old(self).spec_frame().spec_scope(),
                        f.spec_flags(),
                    ) {
                        Err(e) => r == Err::<AmlVariable, AmlError>(e),
                        Ok(loc) => r == Ok::<AmlVariable, AmlError>(
                            AmlVariable::IndexField(
                                AmlIndexField {
                                    index_register: i,
                                    data_register: d,
                                    bit_index: loc.bit_index,
                                    num_of_bits: loc.num_of_bits,
                                    access_align: loc.access_align,
                                    should_lock_global_lock: (f.spec_flags() / 16) % 2 == 1,
                                },
                            ),
                        ),
                    },
                },
            },
            named_object matches NamedObject::DefOpRegion(reg) ==> (reg.spec_region_scope() == 2 ==> pci_region_outcome(
                old(self).spec_frame(),
                old(self).spec_store(),
                reg,
                final(self).spec_store(),
                r,
            )),
    {
        match named_object {
            NamedObject::DefCreateField(f) => self.create_field(&f),
            NamedObject::DefDevice(_) => Ok(AmlVariable::Uninitialized),
            NamedObject::DefMethod(m) => Ok(AmlVariable::Method(m)),
            NamedObject::DefMutex(_, sync) => Ok(AmlVariable::Mutex(0, sync)),
            NamedObject::DefExternal(_) => Err(AmlError::InvalidType),
            NamedObject::DefOpRegion(reg) => {
                let (offset, length) = match self.region_bounds_exec(&reg) {
                    Ok(b) => b,
                    Err(e) => {
                        return Err(e);
                    },
                };
                let t = reg.get_operation_type();
                match t {
                    Ok(super::named_object::OperationRegionType::SystemMemory) => Ok(AmlVariable::MMIo(offset, length)),
                    Ok(super::named_object::OperationRegionType::SystemIO) => Ok(AmlVariable::Io(offset, length)),
                    Ok(super::named_object::OperationRegionType::EmbeddedControl) => Ok(AmlVariable::EcIo(offset, length)),
                    Ok(super::named_object::OperationRegionType::PciConfig) => {
                        let (bus, device, function) = match self.pci_address(&reg) {
                            Ok(a) => a,
                            Err(e) => {
                                return Err(e);
                            },
                        };
                        Ok(AmlVariable::PciConfig(AmlPciConfig { bus, device, function, offset, length }))
                    },
                    _ => Err(AmlError::UnsupportedType),
                }
            },
            NamedObject::DefField(f) => {
                let access = f.get_access_size();
                let lock = f.should_lock();
                let source = match self.search_aml_variable(f.get_source_region_name()) {
                    Ok(h) => h,
                    Err(e) => {
                        return Err(e);
                    },
                };
                let relative = match object_name.get_relative_name(self.get_current_scope()) {
                    Some(n) => n,
                    None => object_name.copy(),
                };
                let location = match read_field(f.get_field_list(), &relative, access) {
                    Ok(l) => l,
                    Err(e) => {
                        return Err(e);
                    },
                };
                Ok(
                    AmlVariable::BitField(
                        AmlBitFiled {
                            source,
                            bit_index: location.bit_index,
                            num_of_bits: location.num_of_bits,
                            access_align: location.access_align,
                            should_lock_global_lock: lock,
                        },
                    ),
                )
            },
            NamedObject::DefIndexField(f) => {
                let index_register = match self.search_aml_variable(f.get_index_register()) {
                    Ok(h) => h,
                    Err(e) => {
                        return Err(e);
                    },
                };
                let data_register = match self.search_aml_variable(f.get_data_register()) {
                    Ok(h) => h,
                    Err(e) => {
                        return Err(e);
                    },
                };
                let access = f.get_access_size();
                let relative = match object_name.get_relative_name(self.get_current_scope()) {
                    Some(n) => n,
                    None => object_name.copy(),
                };
                let location = match read_field(f.get_field_list(), &relative, access) {
                    Ok(l) => l,
                    Err(e) => {
                        return Err(e);
                    },
                };
                Ok(
                    AmlVariable::IndexField(
                        AmlIndexField {
                            index_register,
                            data_register,
                            bit_index: location.bit_index,
                            num_of_bits: location.num_of_bits,
                            access_align: location.access_align,
                            should_lock_global_lock: f.should_lock(),
                        },
                    ),
                )
            },
            _ => Err(AmlError::UnsupportedType),
        }
    }
}

} // verus!
