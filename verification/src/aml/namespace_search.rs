//! Finding objects by reading the AML: the values of data objects (the
//! contents of buffers and packages too), the rules by which an object of
//! a term list is the one searched for, and the search itself, which adds
//! what it finds to the store and the namespace.
use vstd::prelude::*;
use super::AmlError;
use super::aml_variable::{AmlPackage, AmlVariable};
use super::data_object::{ComputationalData, ConstData, DataObject, DataRefObject, PackageElement};
use super::evaluator::AML_EVALUATOR_REVISION;
use super::expression_evaluator::{Evaluator, same_error};
use super::expression_opcode::{ByteList, Package, VarPackage};
use super::method_table::MethodTable;
use super::name_object::{NameString, NameStringFlag, suffix_match};
use super::named_object::{FieldElement, NamedObject, method_read};
use super::opcode;
use super::named_object_evaluation::is_pci_region;
use super::namespace_modifier_object::NamespaceModifierObject;
use super::term_object::{TermList, TermObj, one_byte_term};

verus! {

/// The name `a` ends with the name `b` (a null name matches any).
pub open spec fn ends_with(a: NameString, b: NameString) -> bool {
    a.is_null() || b.is_null() || suffix_match(a.segs(), b.segs())
}

/// Whether the object `object_name` of a term list of scope
/// `term_list_scope` is the object `searching_name`: an absolute path
/// names it exactly; a single segment (`single_name`) and a longer
/// relative path match its last segments, within `search_scope` (the scope
/// itself or below it for a single segment, below it otherwise) where one
/// is given.
pub open spec fn spec_search_rules(
    object_name: NameString,
    searching_name: NameString,
    term_list_scope: NameString,
    single_name: Option<NameString>,
    search_scope: Option<NameString>,
) -> bool {
    if searching_name.spec_flag() == NameStringFlag::AbsolutePath {
        object_name.spec_eq(&searching_name)
    } else {
        match single_name {
            Some(single) => match search_scope {
                Some(target) => (term_list_scope.spec_eq(&target) || term_list_scope.spec_is_child(&target))
                    && ends_with(object_name, single),
                None => ends_with(object_name, single),
            },
            None => match search_scope {
                Some(target) => term_list_scope.spec_is_child(&target) && ends_with(object_name, searching_name),
                None => ends_with(object_name, searching_name),
            },
        }
    }
}

/// Decides the search rules of `spec_search_rules`.
pub fn compare_by_search_rules(
    object_name: &NameString,
    searching_name: &NameString,
    term_list_scope: &NameString,
    single_name: &Option<NameString>,
    search_scope: Option<&NameString>,
) -> (r: bool)
    ensures
        r == spec_search_rules(
            *object_name,
            *searching_name,
            *term_list_scope,
            *single_name,
            match search_scope {
                Some(s) => Some(*s),
                None => None,
            },
        ),
{
    if searching_name.is_absolute_path() {
        object_name == searching_name
    } else if let Some(single) = single_name {
        match search_scope {
            Some(target) => (term_list_scope == target || term_list_scope.is_child(target))
                && object_name.suffix_search(single),
            None => object_name.suffix_search(single),
        }
    } else {
        match search_scope {
            Some(target) => term_list_scope.is_child(target) && object_name.suffix_search(searching_name),
            None => object_name.suffix_search(searching_name),
        }
    }
}

/// `n` bytes of `s` from `p`, with zeros in place of those from `end` on.
pub open spec fn padded_bytes(s: Seq<u8>, p: int, end: int, n: nat) -> Seq<u8> {
    Seq::new(n, |j: int| if p + j < end { s[p + j] } else { 0u8 })
}

impl Evaluator {
    /// The bytes of a buffer: as many as its size term gives, from its
    /// byte list, and zeros where the list is shorter.
    pub fn byte_list_to_vec(&mut self, byte_list: &ByteList, table: &MethodTable) -> (r: Result<Vec<u8>, AmlError>)
        requires
            old(self).wf(),
        ensures
            final(self).wf(),
            final(self).same_frame(old(self)),
            !byte_list.window().wf() ==> r == Err::<Vec<u8>, AmlError>(AmlError::AccessOutOfRange)
                && final(self).spec_store() == old(self).spec_store(),
            ({
                let w = byte_list.window();
                let (s1, n) = old(self).spec_frame().int_val(old(self).spec_store(), one_byte_term(w.at(0))->0);
                (w.wf() && w.rem() >= 1 && one_byte_term(w.at(0)) is Some) ==> final(self).spec_store() == s1 && match n {
                    Err(e) => r matches Err(x) && same_error(x, e),
                    Ok(c) => r matches Ok(v) && v@ == padded_bytes(
                        w.bytes(),
                        w.pos() + 1,
                        w.end(),
                        (c.spec_value() as usize) as nat,
                    ),
                }
            }),
    {
        let mut list = byte_list.clone();
        if !list.is_readable() {
            return Err(AmlError::AccessOutOfRange);
        }
        let size_term = match list.get_buffer_size(table) {
            Ok(t) => t,
            Err(e) => {
                return Err(e);
            },
        };
        let size = match self.eval_integer_expression(&size_term) {
            Ok(c) => c.to_int(),
            Err(e) => {
                return Err(e);
            },
        };
        let ghost s = list.window().bytes();
        let ghost p1 = list.window().pos();
        let ghost end = list.window().end();
        let mut buffer: Vec<u8> = Vec::new();
        let mut i: usize = 0;
        let mut reading = true;
        while i < size
            invariant
                self.wf(),
                self.same_frame(old(self)),
                self.spec_store() == old(self).spec_frame().int_val(old(self).spec_store(), size_term).0,
                list.window().wf(),
                list.window().bytes() == s,
                list.window().end() == end,
                byte_list.window().wf(),
                i <= size,
                buffer@ == padded_bytes(s, p1, end, i as nat),
                reading ==> list.window().pos() == p1 + i,
                !reading ==> p1 + i >= end,
            decreases size - i,
        {
            if reading {
                match list.read_next() {
                    Ok(d) => {
                        buffer.push(d);
                    },
                    Err(AmlError::AccessOutOfRange) => {
                        reading = false;
                        buffer.push(0);
                    },
                    Err(e) => {
                        return Err(e);
                    },
                }
            } else {
                buffer.push(0);
            }
            assert(buffer@ =~= padded_bytes(s, p1, end, (i + 1) as nat));
            i = i + 1;
        }
        Ok(buffer)
    }

    /// The elements of a package of `num` elements: data objects by their
    /// values, names as they are, and zeros in place of the elements the
    /// package does not hold. Packages nest at most `fuel` deep.
    pub fn eval_package_list(
        &mut self,
        package: Package,
        num: usize,
        current_scope: &NameString,
        table: &MethodTable,
        fuel: usize,
    ) -> (r: Result<Vec<AmlPackage>, AmlError>)
        requires
            old(self).wf(),
        ensures
            final(self).wf(),
            final(self).same_frame(old(self)),
            r matches Ok(v) ==> v@.len() == num,
            !package.window().wf() ==> r == Err::<Vec<AmlPackage>, AmlError>(AmlError::AccessOutOfRange),
            package.window().wf() && package.remaining() == 0 ==> (r matches Ok(v) && forall|j: int|
                0 <= j < v@.len() ==> #[trigger] v@[j] == AmlPackage::ConstData(ConstData::Byte(0))),
        decreases fuel, 1int,
    {
        let ghost none_held = package.remaining() == 0;
        let mut p = package;
        if !p.is_readable() {
            return Err(AmlError::AccessOutOfRange);
        }
        let mut v: Vec<AmlPackage> = Vec::new();
        let mut i: usize = 0;
        while i < num
            invariant_except_break
                none_held ==> i == 0 && p.remaining() == 0,
            invariant
                self.wf(),
                self.same_frame(old(self)),
                p.window().wf(),
                i <= num,
                v@.len() == i,
                none_held == (package.remaining() == 0),
                package.window().wf(),
            ensures
                v@.len() == num,
                none_held ==> forall|j: int| 0 <= j < v@.len() ==> #[trigger] v@[j] == AmlPackage::ConstData(ConstData::Byte(0)),
            decreases num - i,
        {
            match p.get_next_element(current_scope) {
                Ok(Some(element)) => {
                    let e = match element {
                        PackageElement::DataRefObject(DataRefObject::DataObject(o)) => match o {
                            DataObject::ComputationalData(ComputationalData::ConstData(c)) => AmlPackage::ConstData(c),
                            DataObject::ComputationalData(ComputationalData::StringData(s)) => AmlPackage::String(s),
                            DataObject::ComputationalData(ComputationalData::ConstObj(c)) => AmlPackage::ConstData(
                                ConstData::Byte(c),
                            ),
                            DataObject::ComputationalData(ComputationalData::Revision) => AmlPackage::ConstData(
                                ConstData::Byte(AML_EVALUATOR_REVISION),
                            ),
                            DataObject::ComputationalData(ComputationalData::DefBuffer(b)) => {
                                match self.byte_list_to_vec(&b, table) {
                                    Ok(bytes) => AmlPackage::Buffer(bytes),
                                    Err(e) => {
                                        return Err(e);
                                    },
                                }
                            },
                            DataObject::DefPackage(inner) => {
                                if fuel == 0 {
                                    return Err(AmlError::InvalidOperation);
                                }
                                match self.eval_package(inner, current_scope, table, fuel - 1) {
                                    Ok(list) => AmlPackage::Package(list),
                                    Err(e) => {
                                        return Err(e);
                                    },
                                }
                            },
                            DataObject::DefVarPackage(inner) => {
                                if fuel == 0 {
                                    return Err(AmlError::InvalidOperation);
                                }
                                match self.eval_var_package(inner, current_scope, table, fuel - 1) {
                                    Ok(list) => AmlPackage::Package(list),
                                    Err(e) => {
                                        return Err(e);
                                    },
                                }
                            },
                        },
                        PackageElement::DataRefObject(DataRefObject::ObjectReference(_)) => {
                            return Err(AmlError::UnsupportedType);
                        },
                        PackageElement::NameString(n) => AmlPackage::NameString(n),
                    };
                    v.push(e);
                },
                Ok(None) | Err(AmlError::AccessOutOfRange) => {
                    while i < num
                        invariant
                            i <= num,
                            v@.len() == i,
                            none_held ==> forall|j: int| 0 <= j < v@.len() ==> #[trigger] v@[j] == AmlPackage::ConstData(ConstData::Byte(0)),
                        decreases num - i,
                    {
                        v.push(AmlPackage::ConstData(ConstData::Byte(0)));
                        i = i + 1;
                    }
                    break;
                },
                Err(e) => {
                    return Err(e);
                },
            }
            i = i + 1;
        }
        Ok(v)
    }

    /// The elements of a package, as many as it says it holds.
    pub fn eval_package(&mut self, package: Package, current_scope: &NameString, table: &MethodTable, fuel: usize) -> (r:
        Result<Vec<AmlPackage>, AmlError>)
        requires
            old(self).wf(),
        ensures
            final(self).wf(),
            final(self).same_frame(old(self)),
            r matches Ok(v) ==> v@.len() == package.remaining(),
            !package.window().wf() ==> r == Err::<Vec<AmlPackage>, AmlError>(AmlError::AccessOutOfRange),
            package.window().wf() && package.remaining() == 0 ==> (r matches Ok(v) && v@.len() == 0),
        decreases fuel, 2int,
    {
        let num = package.get_number_of_remaining_elements();
        self.eval_package_list(package, num, current_scope, table, fuel)
    }

    /// The elements of a package whose count is a term: that many.
    pub fn eval_var_package(
        &mut self,
        package: VarPackage,
        current_scope: &NameString,
        table: &MethodTable,
        fuel: usize,
    ) -> (r: Result<Vec<AmlPackage>, AmlError>)
        requires
            old(self).wf(),
        ensures
            final(self).wf(),
            final(self).same_frame(old(self)),
            !package.window().wf() ==> r == Err::<Vec<AmlPackage>, AmlError>(AmlError::AccessOutOfRange)
                && final(self).spec_store() == old(self).spec_store(),
            ({
                let w = package.window();
                let (s1, n) = old(self).spec_frame().int_val(old(self).spec_store(), one_byte_term(w.at(0))->0);
                (w.wf() && w.rem() >= 1 && one_byte_term(w.at(0)) is Some) ==> match n {
                    Err(e) => r matches Err(x) && same_error(x, e) && final(self).spec_store() == s1,
                    Ok(c) => (r matches Ok(v) ==> v@.len() == c.spec_value() as usize) && (c.spec_value() == 0 ==> (
                    r matches Ok(v) && v@.len() == 0)),
                }
            }),
        decreases fuel, 2int,
    {
        let mut p = package;
        if !p.is_readable() {
            return Err(AmlError::AccessOutOfRange);
        }
        let count_term = match p.get_number_of_elements(current_scope, table) {
            Ok(t) => t,
            Err(e) => {
                return Err(e);
            },
        };
        let count = match self.eval_integer_expression(&count_term) {
            Ok(c) => c.to_int(),
            Err(e) => {
                return Err(e);
            },
        };
        self.eval_package_list(p.convert_to_package(count), count, current_scope, table, fuel)
    }

    /// The value of a data object: an integer or a string as it is, a
    /// buffer or a package by its contents (see `byte_list_to_vec` and
    /// `eval_package_list`).
    pub fn eval_data_object(&mut self, d: DataObject, current_scope: &NameString, table: &MethodTable, fuel: usize) -> (r:
        Result<AmlVariable, AmlError>)
        requires
            old(self).wf(),
        ensures
            final(self).wf(),
            final(self).same_frame(old(self)),
            d matches DataObject::ComputationalData(ComputationalData::ConstData(c)) ==> r == Ok::<
                AmlVariable,
                AmlError,
            >(AmlVariable::ConstData(c)),
            d matches DataObject::ComputationalData(ComputationalData::ConstObj(c)) ==> r == Ok::<
                AmlVariable,
                AmlError,
            >(AmlVariable::ConstData(ConstData::Byte(c))),
            d matches DataObject::ComputationalData(ComputationalData::Revision) ==> r == Ok::<
                AmlVariable,
                AmlError,
            >(AmlVariable::ConstData(ConstData::Byte(AML_EVALUATOR_REVISION))),
            d matches DataObject::ComputationalData(ComputationalData::StringData(s)) ==> r == Ok::<
                AmlVariable,
                AmlError,
            >(AmlVariable::String(s)),
            d matches DataObject::ComputationalData(ComputationalData::DefBuffer(_)) ==> (r matches Ok(v) ==> v is Buffer),
            (d is DefPackage || d is DefVarPackage) ==> (r matches Ok(v) ==> v is Package),
    {
        match d {
            DataObject::ComputationalData(ComputationalData::ConstData(c)) => Ok(AmlVariable::ConstData(c)),
            DataObject::ComputationalData(ComputationalData::ConstObj(c)) => Ok(AmlVariable::ConstData(ConstData::Byte(c))),
            DataObject::ComputationalData(ComputationalData::Revision) => Ok(
                AmlVariable::ConstData(ConstData::Byte(AML_EVALUATOR_REVISION)),
            ),
            DataObject::ComputationalData(ComputationalData::StringData(s)) => Ok(AmlVariable::String(s)),
            DataObject::ComputationalData(ComputationalData::DefBuffer(b)) => match self.byte_list_to_vec(&b, table) {
                Ok(bytes) => Ok(AmlVariable::Buffer(bytes)),
                Err(e) => Err(e),
            },
            DataObject::DefPackage(p) => match self.eval_package(p, current_scope, table, fuel) {
                Ok(list) => Ok(AmlVariable::Package(list)),
                Err(e) => Err(e),
            },
            DataObject::DefVarPackage(p) => match self.eval_var_package(p, current_scope, table, fuel) {
                Ok(list) => Ok(AmlVariable::Package(list)),
                Err(e) => Err(e),
            },
        }
    }
}


/// The name a named object defines (fields define the names in their
/// lists), as `NamedObject::get_name` gives it.
pub open spec fn object_name_of(o: NamedObject) -> Option<NameString> {
    match o {
        NamedObject::DefCreateField(c) => Some(c.spec_name()),
        NamedObject::DefMethod(m) => Some(m.spec_name()),
        NamedObject::DefMutex(n, _) => Some(n),
        NamedObject::DefDataRegion(d) => Some(d.spec_name()),
        NamedObject::DefExternal(d) => Some(d.spec_name()),
        NamedObject::DefThermalZone(z) => Some(z.spec_name()),
        NamedObject::DefPowerRes(p) => Some(p.spec_name()),
        NamedObject::DefOpRegion(o) => Some(o.spec_name()),
        NamedObject::DefDevice(d) => Some(d.spec_name()),
        NamedObject::DefEvent(n) => Some(n),
        _ => None,
    }
}

/// The named object `o` of a list of scope `scope` is the object `name`:
/// by the same path, or, for a single segment searched from above, by its
/// last segment.
pub open spec fn object_found(o: NamedObject, name: NameString, scope: NameString) -> bool {
    match object_name_of(o) {
        Some(n) => name.spec_eq(&n) || (name.spec_flag() == NameStringFlag::SingleRelativePath && name.segs().len()
            > 0 && scope.spec_is_child(&name) && (n.is_null() || suffix_match(n.segs(), seq![name.segs().last()]))),
        None => false,
    }
}

/// The object `o` (or, having no name, the scope `scope`) lies above `name`.
pub open spec fn object_above(o: NamedObject, name: NameString, scope: NameString) -> bool {
    match object_name_of(o) {
        Some(n) => n.spec_is_child(&name),
        None => scope.spec_is_child(&name),
    }
}

/// The list `list` begins with the definition of a method whose path is
/// that of `name`.
pub open spec fn begins_with_method(list: TermList, name: NameString) -> bool {
    let w = list.window();
    &&& w.wf()
    &&& w.rem() > 0
    &&& w.at(0) == opcode::METHOD_OP
    &&& !name.is_null()
    &&& method_read(w.bytes(), w.pos() + 1, w.end(), (list.scope().segs(), list.scope().spec_flag())) matches Some(
        (segs, flag, _, _, _),
    ) && segs == name.segs() && flag != NameStringFlag::NullName
}

/// The outcome of a search that changes nothing where it finds nothing, and
/// adds exactly one entry (the handle given) where it finds the object.
pub open spec fn search_outcome(before: Evaluator, after: Evaluator, r: Result<Option<usize>, AmlError>) -> bool {
    &&& r matches Ok(None) ==> after.spec_store() == before.spec_store() && after.spec_frame() == before.spec_frame()
    &&& r matches Ok(Some(h)) ==> h == before.spec_store().len() && after.spec_store().len() == h + 1
        && after.spec_frame().spec_namespace().spec_entries().len() == before.spec_frame().spec_namespace().spec_entries().len() + 1
        && after.spec_frame().spec_namespace().spec_entries().last().1 == h
}

impl Evaluator {
    /// Searches the term list `list` for the object `name` (within
    /// `search_scope` where one is given): a `Name` or a named object that
    /// the search rules find is evaluated, added to the store and the
    /// namespace, and its handle given; `Scope` bodies and the bodies of
    /// devices, methods, power resources and thermal zones are searched in
    /// turn, at most `fuel` deep. `None` where the list does not hold it.
    pub fn search_aml_variable_by_parsing_term_list(
        &mut self,
        name: &NameString,
        list: &TermList,
        search_scope: Option<&NameString>,
        table: &MethodTable,
        fuel: usize,
    ) -> (r: Result<Option<usize>, AmlError>)
        requires
            old(self).wf(),
        ensures
            final(self).wf(),
            final(self).grown_from(old(self)),
            r matches Ok(Some(h)) ==> h < final(self).spec_store().len(),
            search_outcome(*old(self), *final(self), r),
            (!list.scope().spec_is_child(name) && match search_scope {
                Some(t) => !list.scope().spec_is_child(t),
                None => true,
            }) ==> r == Ok::<Option<usize>, AmlError>(None),
            (list.scope().spec_is_child(name) && fuel == 0) ==> r == Err::<Option<usize>, AmlError>(
                AmlError::InvalidOperation,
            ),
            (list.scope().spec_is_child(name) && fuel > 0 && begins_with_method(*list, *name)) ==> ({
                let after = final(self).spec_store();
                &&& r == Ok::<Option<usize>, AmlError>(Some(old(self).spec_store().len() as usize))
                &&& after.len() == old(self).spec_store().len() + 1
                &&& after.drop_last() == old(self).spec_store()
                &&& after.last() matches AmlVariable::Method(m) && m.spec_name().segs() == name.segs()
            }),
        decreases fuel, 0int,
    {
        let scope = list.get_scope_name().copy();
        let ghost list_scope = list.scope();
        let outside = match search_scope {
            Some(s) => !scope.is_child(s),
            None => true,
        };
        if !scope.is_child(name) && outside {
            return Ok(None);
        }
        if fuel == 0 {
            return Err(AmlError::InvalidOperation);
        }
        proof {
            assert(scope.elems() == list_scope.elems());
        }
        let single = name.get_single_name_path();
        let mut terms = list.clone();
        if !terms.is_readable() {
            return Err(AmlError::AccessOutOfRange);
        }
        loop
            invariant
                self.wf(),
                self.grown_from(old(self)),
                self.spec_store() == old(self).spec_store(),
                self.spec_frame() == old(self).spec_frame(),
                terms.window().wf(),
                list_scope == list.scope(),
                fuel > 0,
                list_scope.spec_is_child(name) || match search_scope {
                    Some(t) => list_scope.spec_is_child(t),
                    None => false,
                },
                (list_scope.spec_is_child(name) && begins_with_method(*list, *name)) ==> (terms.window().same_as(
                    &list.window(),
                ) && terms.scope().same(&list.scope())),
                scope.same(&list_scope),
            decreases terms.window().rem(),
        {
            let term = match terms.next(table) {
                Ok(Some(t)) => t,
                Ok(None) => {
                    return Ok(None);
                },
                Err(AmlError::AccessOutOfRange) => {
                    return Ok(None);
                },
                Err(AmlError::NestedSearch) => {
                    return Ok(None);
                },
                Err(e) => {
                    return Err(e);
                },
            };
            match term {
                TermObj::NamespaceModifierObj(NamespaceModifierObject::DefAlias(a)) => {
                    if compare_by_search_rules(a.get_name(), name, &scope, &single, search_scope) {
                        return Err(AmlError::UnsupportedType);
                    }
                },
                TermObj::NamespaceModifierObj(NamespaceModifierObject::DefName(n)) => {
                    if compare_by_search_rules(n.get_name(), name, &scope, &single, search_scope) {
                        return match n.get_data_ref_object() {
                            DataRefObject::DataObject(d) => {
                                let value = match d {
                                    DataObject::ComputationalData(ComputationalData::ConstData(c)) => AmlVariable::ConstData(
                                        *c,
                                    ),
                                    _ => match self.eval_data_object(d.clone(), &scope, table, fuel) {
                                        Ok(v) => v,
                                        Err(e) => {
                                            return Err(e);
                                        },
                                    },
                                };
                                let h = self.add_variable(n.get_name().copy(), value);
                                Ok(Some(h))
                            },
                            DataRefObject::ObjectReference(_) => Err(AmlError::UnsupportedType),
                        };
                    }
                },
                TermObj::NamespaceModifierObj(NamespaceModifierObject::DefScope(sco)) => {
                    let scope_name = sco.get_name();
                    let within = match search_scope {
                        Some(target) => target == scope_name || scope_name.is_child(target),
                        None => false,
                    };
                    if scope_name == name || scope_name.suffix_search(name) || scope_name.is_child(name) || within {
                        match self.search_aml_variable_by_parsing_term_list(
                            name,
                            sco.get_term_list(),
                            search_scope,
                            table,
                            fuel - 1,
                        ) {
                            Ok(Some(h)) => {
                                return Ok(Some(h));
                            },
                            Ok(None) => {},
                            Err(e) => {
                                return Err(e);
                            },
                        }
                    }
                },
                TermObj::NamedObj(o) => {
                    match self.search_aml_variable_by_parsing_named_object(name, &scope, o, search_scope, table, fuel - 1) {
                        Ok(Some(h)) => {
                            return Ok(Some(h));
                        },
                        Ok(None) => {},
                        Err(e) => {
                            return Err(e);
                        },
                    }
                },
                TermObj::StatementOpcode(_) => {},
                TermObj::ExpressionOpcode(_) => {},
            }
        }
    }

    /// Whether the named object `named_object` of a term list of scope
    /// `current_scope` is, or holds, the object `name`: the object itself
    /// by its name, a field of its field list, or an object of its body.
    /// What is found is evaluated and added to the store and the namespace.
    pub fn search_aml_variable_by_parsing_named_object(
        &mut self,
        name: &NameString,
        current_scope: &NameString,
        named_object: NamedObject,
        search_scope: Option<&NameString>,
        table: &MethodTable,
        fuel: usize,
    ) -> (r: Result<Option<usize>, AmlError>)
        requires
            old(self).wf(),
        ensures
            final(self).wf(),
            final(self).grown_from(old(self)),
            r matches Ok(Some(h)) ==> h < final(self).spec_store().len(),
            search_outcome(*old(self), *final(self), r),
            (!object_found(named_object, *name, *current_scope) && name.spec_flag()
                != NameStringFlag::SingleRelativePath && !object_above(named_object, *name, *current_scope)) ==> r
                == Ok::<Option<usize>, AmlError>(None),
            (object_found(named_object, *name, *current_scope) && named_object is DefDataRegion) ==> r == Err::<
                Option<usize>,
                AmlError,
            >(AmlError::UnsupportedType),
            (object_found(named_object, *name, *current_scope) && !(named_object is DefDataRegion) && !is_pci_region(
                named_object,
            )) ==> ({
                let (s1, v) = old(self).spec_frame().named_val(old(self).spec_store(), named_object);
                match v {
                    Err(e) => r matches Err(x) && same_error(x, e),
                    Ok(val) => {
                        let after = *final(self);
                        &&& r == Ok::<Option<usize>, AmlError>(Some(old(self).spec_store().len() as usize))
                        &&& after.spec_store() == s1.push(val)
                        &&& after.spec_frame().spec_namespace().spec_entries().last().0.same(
                            &object_name_of(named_object)->0,
                        )
                    },
                }
            }),
        decreases fuel, 1int,
    {
        let single = name.get_single_name_path();
        let object_name = match named_object.get_name() {
            Some(n) => Some(n.copy()),
            None => None,
        };
        if let Some(object_name) = &object_name {
            let found = *name == *object_name || match &single {
                Some(s) => current_scope.is_child(name) && object_name.suffix_search(s),
                None => false,
            };
            assert(object_found(named_object, *name, *current_scope) == found);
            if found {
                if let NamedObject::DefDataRegion(_) = &named_object {
                    return Err(AmlError::UnsupportedType);
                }
                let value = match self.eval_named_object(name, named_object) {
                    Ok(v) => v,
                    Err(e) => {
                        return Err(e);
                    },
                };
                let h = self.add_variable(object_name.copy(), value);
                return Ok(Some(h));
            }
        }
        assert(!object_found(named_object, *name, *current_scope));
        let holder_is_parent = match &object_name {
            Some(n) => n.is_child(name),
            None => current_scope.is_child(name),
        };
        if !name.is_single_relative_path_name() && !holder_is_parent {
            return Ok(None);
        }
        if let Some(field_list) = named_object.get_field_list() {
            let mut field_list = field_list;
            if !field_list.is_readable() {
                return Err(AmlError::AccessOutOfRange);
            }
            loop
                invariant
                    self.wf(),
                    self.grown_from(old(self)),
                    self.spec_store() == old(self).spec_store(),
                    self.spec_frame() == old(self).spec_frame(),
                    object_found(named_object, *name, *current_scope) || name.spec_flag()
                        == NameStringFlag::SingleRelativePath || object_above(named_object, *name, *current_scope),
                    !object_found(named_object, *name, *current_scope),
                    field_list.window().wf(),
                    !(named_object is DefDataRegion),
                decreases field_list.window().rem(),
            {
                let element = match field_list.next() {
                    Ok(Some(e)) => e,
                    Ok(None) => {
                        return Ok(None);
                    },
                    Err(e) => {
                        return Err(e);
                    },
                };
                if let FieldElement::NameField(n, _) = &element {
                    let same = *n == *name;
                    let by_segment = match &single {
                        Some(s) => current_scope.is_child(name) && n.suffix_search(s),
                        None => false,
                    };
                    if same || by_segment {
                        let value = match self.eval_named_object(name, named_object) {
                            Ok(v) => v,
                            Err(e) => {
                                return Err(e);
                            },
                        };
                        let h = self.add_variable(name.copy(), value);
                        return Ok(Some(h));
                    }
                }
            }
        } else if let Some(body) = named_object.get_term_list() {
            self.search_aml_variable_by_parsing_term_list(name, &body, search_scope, table, fuel)
        } else {
            Ok(None)
        }
    }
}

} // verus!
