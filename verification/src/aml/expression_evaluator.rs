//! The evaluation of term arguments and expression opcodes over the
//! interpreter's store: locals, arguments and named objects are handles
//! into the store, and the namespace gives the handle of each object path.
//!
//! Integer expressions are computed here; a read or a write of a variable
//! goes through the plan that `field_access` gives for it, and is carried
//! out here where the plan stays inside the store (one entry read or
//! replaced). Accesses that reach the hardware, methods and the operators
//! that build strings, buffers and packages are answered `UnsupportedType`.
use vstd::prelude::*;
use super::AmlError;
use super::aml_variable::{AmlPackage, AmlVariable};
use super::data_object::{ComputationalData, ConstData, DataObject};
use super::evaluator::{
    AML_EVALUATOR_REVISION, Comparison, binary_defined, bool_to_const, const_of, eval_binary_operation,
    eval_compare, eval_decrement, eval_divide, eval_increment, eval_logical_not, eval_not,
    find_set_left_bit, find_set_right_bit, spec_binary, spec_compare, spec_to_integer, to_integer, wider,
    bit_length, lowest_bit,
};
use super::expression_opcode::{ExpressionOpcode, ReferenceTypeOpcode};
use super::field_access::{
    FieldData, FieldPosition, FieldStep, field_steps, plan_read, plan_write, spec_plan_write, steps_view,
};
use super::method_table::MethodTable;
use super::name_object::NameString;
use super::super_name::{SimpleName, SuperName, Target};
use super::term_object::TermArg;

verus! {

/// The number of local variables (`Local0` to `Local6`).
pub const NUMBER_OF_LOCAL_VARIABLES: usize = 7;

/// The number of argument variables (`Arg0` to `Arg6`).
pub const NUMBER_OF_ARGUMENT_VARIABLES: usize = 7;

/// What a term argument evaluates to: an integer, a variable of the store
/// (a local, an argument or a named object, read when it is used), or a
/// value of another kind (a string, a buffer or a package).
#[derive(Debug, Clone, Copy, PartialEq, Eq, Structural)]
pub enum Operand {
    Integer(ConstData),
    Variable(usize),
    Value,
}

/// What stays fixed while an expression is evaluated: the namespace (each
/// object path with its handle), the handles of the locals and the
/// arguments, and the current scope.
pub struct EvaluationFrame {
    namespace: MethodTable,
    local_variables: Vec<usize>,
    argument_variables: Vec<usize>,
    current_scope: NameString,
}

/// The state of an evaluation: the store and the frame.
pub struct Evaluator {
    variables: Vec<AmlVariable>,
    frame: EvaluationFrame,
}

/// Two errors are the same error: the same kind, and for a name the same
/// name.
pub open spec fn same_error(a: AmlError, b: AmlError) -> bool {
    match (a, b) {
        (AmlError::InvalidName(x), AmlError::InvalidName(y)) => x.same(&y),
        (AmlError::InvalidMethodName(x), AmlError::InvalidMethodName(y)) => x.same(&y),
        _ => a == b,
    }
}

/// `store` with the first `n` entries of `hs` made uninitialized, in order.
pub open spec fn clear_entries(store: Seq<AmlVariable>, hs: Seq<usize>, n: nat) -> Seq<AmlVariable>
    decreases n,
{
    if n == 0 {
        store
    } else {
        clear_entries(store, hs, (n - 1) as nat).update(hs[n - 1] as int, AmlVariable::Uninitialized)
    }
}

/// `store` with entry `hs[i]` set to `values[i]`, in order, for `i` below `n`.
pub open spec fn fill_entries(store: Seq<AmlVariable>, hs: Seq<usize>, values: Seq<AmlVariable>, n: nat) -> Seq<
    AmlVariable,
>
    decreases n,
{
    if n == 0 {
        store
    } else {
        fill_entries(store, hs, values, (n - 1) as nat).update(hs[n - 1] as int, values[n - 1])
    }
}

/// Clearing entries in range keeps the store's length; an entry cleared is
/// uninitialized, and an entry not among them is unchanged.
pub proof fn lemma_clear_entries(store: Seq<AmlVariable>, hs: Seq<usize>, n: nat, x: int)
    requires
        n <= hs.len(),
        0 <= x < store.len(),
        forall|j: int| 0 <= j < n ==> #[trigger] hs[j] < store.len(),
    ensures
        clear_entries(store, hs, n).len() == store.len(),
        (exists|j: int| 0 <= j < n && hs[j] == x) ==> clear_entries(store, hs, n)[x] is Uninitialized,
        (forall|j: int| 0 <= j < n ==> hs[j] != x) ==> clear_entries(store, hs, n)[x] == store[x],
    decreases n,
{
    if n > 0 {
        lemma_clear_entries(store, hs, (n - 1) as nat, x);
        assert(hs[n - 1] < store.len());
        if exists|j: int| 0 <= j < n && hs[j] == x {
            let j = choose|j: int| 0 <= j < n && hs[j] == x;
            if j < n - 1 {
                assert(exists|j: int| 0 <= j < n - 1 && hs[j] == x);
            }
        }
    }
}

/// Filling entries in range keeps the store's length, and an entry not
/// among them is unchanged.
pub proof fn lemma_fill_entries(store: Seq<AmlVariable>, hs: Seq<usize>, values: Seq<AmlVariable>, n: nat, x: int)
    requires
        n <= hs.len(),
        n <= values.len(),
        0 <= x < store.len(),
        forall|j: int| 0 <= j < n ==> #[trigger] hs[j] < store.len(),
    ensures
        fill_entries(store, hs, values, n).len() == store.len(),
        (forall|j: int| 0 <= j < n ==> hs[j] != x) ==> fill_entries(store, hs, values, n)[x] == store[x],
    decreases n,
{
    if n > 0 {
        lemma_fill_entries(store, hs, values, (n - 1) as nat, x);
        assert(hs[n - 1] < store.len());
    }
}

/// The outcome `r` is the outcome `s`: the same value, or the same error.
pub open spec fn agrees<T>(r: Result<T, AmlError>, s: Result<T, AmlError>) -> bool {
    match s {
        Ok(v) => r == Ok::<T, AmlError>(v),
        Err(e) => r matches Err(x) && same_error(x, e),
    }
}

/// The entry that a read of a whole plan gives, where the plan is one copy
/// of an entry of the store.
pub open spec fn copy_source(store: Seq<AmlVariable>, steps: Seq<FieldStep>) -> Option<usize> {
    if steps.len() == 1 {
        match steps[0] {
            FieldStep::StoreCopy(k) => if k < store.len() {
                Some(k)
            } else {
                None
            },
            _ => None,
        }
    } else {
        None
    }
}

/// The entry that a write of a whole plan replaces, where the plan is one
/// replacement of an entry of the store by the data.
pub open spec fn set_target(store: Seq<AmlVariable>, steps: Seq<FieldStep>) -> Option<usize> {
    if steps.len() == 1 {
        match steps[0] {
            FieldStep::StoreSet(k, FieldData::Given) => if k < store.len() {
                Some(k)
            } else {
                None
            },
            _ => None,
        }
    } else {
        None
    }
}

/// The entry whose value reading entry `h` gives: `h` itself where it holds
/// its value; otherwise the entry that its read plan copies. A plan that
/// leaves the store is `UnsupportedType`.
#[verifier::opaque]
pub open spec fn read_source(store: Seq<AmlVariable>, h: usize) -> Result<usize, AmlError> {
    if h < store.len() && store[h as int].spec_is_constant_data() {
        Ok(h)
    } else {
        match field_steps(
            store,
            h,
            FieldPosition { byte_index: 0, bit_index: 0, access_align: 0, num_of_bits: 0 },
            false,
            FieldData::Given,
            AmlVariable::Uninitialized,
            seq![h],
        ) {
            Ok(steps) => match copy_source(store, steps) {
                Some(k) => Ok(k),
                None => Err(AmlError::UnsupportedType),
            },
            Err(e) => Err(e),
        }
    }
}

/// A value as an integer operand: a constant; a method has no value; any
/// other kind is no integer.
pub open spec fn value_int(v: AmlVariable) -> Result<ConstData, AmlError> {
    match v {
        AmlVariable::ConstData(c) => Ok(c),
        AmlVariable::Method(_) | AmlVariable::BuiltInMethod(_, _) => Err(AmlError::InvalidOperation),
        _ => Err(AmlError::InvalidType),
    }
}

/// The element that reading entry `h` comes down to, where its read plan
/// is one read of element `i` of entry `s`: a field or a reference into a
/// buffer, a string or a package.
pub open spec fn element_source(store: Seq<AmlVariable>, h: usize) -> Option<(usize, usize)> {
    match field_steps(
        store,
        h,
        FieldPosition { byte_index: 0, bit_index: 0, access_align: 0, num_of_bits: 0 },
        false,
        FieldData::Given,
        AmlVariable::Uninitialized,
        seq![h],
    ) {
        Ok(steps) => if steps.len() == 1 {
            match steps[0] {
                FieldStep::StoreIndexRead(s, i) => if s < store.len() {
                    Some((s, i))
                } else {
                    None
                },
                _ => None,
            }
        } else {
            None
        },
        Err(_) => None,
    }
}

/// Element `i` of `v` as an integer: a byte of a buffer or of a string's
/// text, an integer element of a package; past the end, or in any other
/// kind, refused.
pub open spec fn element_int(v: AmlVariable, i: usize) -> Result<ConstData, AmlError> {
    match v {
        AmlVariable::Buffer(b) => if i < b@.len() {
            Ok(ConstData::Byte(b@[i as int]))
        } else {
            Err(AmlError::InvalidOperation)
        },
        AmlVariable::String(t) => {
            let bytes = vstd::utf8::encode_utf8(t@);
            if i < bytes.len() {
                Ok(ConstData::Byte(bytes[i as int]))
            } else {
                Err(AmlError::InvalidOperation)
            }
        },
        AmlVariable::Package(l) => if i < l@.len() {
            match l@[i as int] {
                AmlPackage::ConstData(c) => Ok(c),
                _ => Err(AmlError::InvalidType),
            }
        } else {
            Err(AmlError::InvalidOperation)
        },
        _ => Err(AmlError::InvalidOperation),
    }
}

/// An operand as an integer, the store being `store` when it is used: an
/// entry that holds its value, or an element that a field or a reference
/// reads (see `element_source`).
pub open spec fn operand_int(store: Seq<AmlVariable>, o: Operand) -> Result<ConstData, AmlError> {
    match o {
        Operand::Integer(c) => Ok(c),
        Operand::Variable(h) => match read_source(store, h) {
            Ok(k) => value_int(store[k as int]),
            Err(AmlError::UnsupportedType) => match element_source(store, h) {
                Some((s, i)) => element_int(store[s as int], i),
                None => Err(AmlError::UnsupportedType),
            },
            Err(e) => Err(e),
        },
        Operand::Value => Err(AmlError::InvalidType),
    }
}

/// An operand as a condition: a nonzero integer; anything that is no
/// integer is `InvalidType`.
pub open spec fn operand_bool(store: Seq<AmlVariable>, o: Operand) -> Result<bool, AmlError> {
    match operand_int(store, o) {
        Ok(c) => Ok(c.spec_value() as usize != 0),
        Err(_) => Err(AmlError::InvalidType),
    }
}

/// Writing the integer `c` into entry `h`: the store after it, and the
/// outcome. The write goes as `spec_plan_write` plans it; a plan that does
/// more than replace one entry is `UnsupportedType`.
#[verifier::opaque]
pub open spec fn write_entry(store: Seq<AmlVariable>, h: usize, c: ConstData) -> (Seq<AmlVariable>, Result<(), AmlError>) {
    match spec_plan_write(store, h, AmlVariable::ConstData(c)) {
        Ok(steps) => match set_target(store, steps) {
            Some(k) => (store.update(k as int, AmlVariable::ConstData(c)), Ok(())),
            None => (store, Err(AmlError::UnsupportedType)),
        },
        Err(e) => (store, Err(e)),
    }
}

/// The byte size of a value as `get_byte_size` gives it.
pub open spec fn byte_size_of(v: AmlVariable) -> Result<usize, AmlError> {
    match v {
        AmlVariable::ConstData(c) => Ok(c.spec_byte_size()),
        AmlVariable::String(s) => Ok(vstd::utf8::encode_utf8(s@).len() as usize),
        AmlVariable::Buffer(b) => Ok(b@.len() as usize),
        AmlVariable::Uninitialized | AmlVariable::Method(_) | AmlVariable::BuiltInMethod(_, _)
        | AmlVariable::Mutex(_, _) => Err(AmlError::InvalidType),
        _ => Err(AmlError::UnsupportedType),
    }
}

/// `SizeOf` of entry `h`: the length of a string, a buffer or a package,
/// or the byte size of what a reference points to.
pub open spec fn size_of_entry(store: Seq<AmlVariable>, h: usize) -> Result<ConstData, AmlError> {
    if h >= store.len() {
        Err(AmlError::InvalidOperation)
    } else {
        match store[h as int] {
            AmlVariable::String(s) => Ok(ConstData::QWord((vstd::utf8::encode_utf8(s@).len() as usize) as u64)),
            AmlVariable::Buffer(b) => Ok(ConstData::QWord(b@.len() as u64)),
            AmlVariable::Package(p) => Ok(ConstData::QWord(p@.len() as u64)),
            AmlVariable::Reference(s, _) => if s >= store.len() {
                Err(AmlError::InvalidOperation)
            } else if s == h {
                Err(AmlError::MutexError)
            } else {
                match byte_size_of(store[s as int]) {
                    Ok(n) => Ok(ConstData::QWord(n as u64)),
                    Err(e) => Err(e),
                }
            },
            _ => Err(AmlError::InvalidOperation),
        }
    }
}

/// Whether a target names nothing.
pub open spec fn target_is_null(t: Target) -> bool {
    t is Null
}

/// The integer `ToInteger` makes of a string literal, where `t` is one.
pub open spec fn literal_string(t: TermArg) -> Option<AmlVariable> {
    match t {
        TermArg::DataObject(DataObject::ComputationalData(ComputationalData::StringData(s))) => Some(
            AmlVariable::String(s),
        ),
        _ => None,
    }
}

impl Evaluator {
    pub closed spec fn spec_store(&self) -> Seq<AmlVariable> {
        self.variables@
    }

    pub closed spec fn spec_frame(&self) -> EvaluationFrame {
        self.frame
    }

    /// Seven locals and seven arguments, each a handle into the store.
    pub open spec fn wf(&self) -> bool {
        self.spec_frame().wf(self.spec_store().len())
    }

    /// The evaluation changed the store only: the same frame, and a store
    /// of the same length.
    pub open spec fn same_frame(&self, other: &Self) -> bool {
        &&& self.spec_frame() == other.spec_frame()
        &&& self.spec_store().len() == other.spec_store().len()
    }

    /// Objects were added: the same locals, arguments and scope; the store
    /// and the namespace begin with what `other` had, and each object the
    /// namespace gained names an entry of the store.
    pub open spec fn grown_from(&self, other: &Self) -> bool {
        &&& self.spec_frame().spec_locals() == other.spec_frame().spec_locals()
        &&& self.spec_frame().spec_args() == other.spec_frame().spec_args()
        &&& self.spec_frame().spec_scope() == other.spec_frame().spec_scope()
        &&& other.spec_store().len() <= self.spec_store().len()
        &&& other.spec_frame().spec_namespace().spec_entries().len() <= self.spec_frame().spec_namespace().spec_entries().len()
        &&& forall|i: int|
            0 <= i < other.spec_frame().spec_namespace().spec_entries().len() ==> #[trigger] self.spec_frame().spec_namespace().spec_entries()[i]
                == other.spec_frame().spec_namespace().spec_entries()[i]
    }
}

impl EvaluationFrame {
    /// The store a method starts with: its locals and arguments made
    /// uninitialized, then the arguments given `arguments`.
    pub open spec fn reset_store(&self, store: Seq<AmlVariable>, arguments: Seq<AmlVariable>) -> Seq<AmlVariable> {
        let cleared = clear_entries(
            clear_entries(store, self.spec_locals(), self.spec_locals().len()),
            self.spec_args(),
            self.spec_args().len(),
        );
        let n = if arguments.len() < self.spec_args().len() {
            arguments.len()
        } else {
            self.spec_args().len()
        };
        fill_entries(cleared, self.spec_args(), arguments, n)
    }

    pub closed spec fn spec_locals(&self) -> Seq<usize> {
        self.local_variables@
    }

    pub closed spec fn spec_args(&self) -> Seq<usize> {
        self.argument_variables@
    }

    pub closed spec fn spec_namespace(&self) -> MethodTable {
        self.namespace
    }

    pub closed spec fn spec_scope(&self) -> NameString {
        self.current_scope
    }

    /// Seven locals and seven arguments, each a handle into a store of `n`
    /// entries.
    pub open spec fn wf(&self, n: nat) -> bool {
        &&& self.spec_locals().len() == NUMBER_OF_LOCAL_VARIABLES
        &&& self.spec_args().len() == NUMBER_OF_ARGUMENT_VARIABLES
        &&& forall|i: int| 0 <= i < self.spec_locals().len() ==> #[trigger] self.spec_locals()[i] < n
        &&& forall|i: int| 0 <= i < self.spec_args().len() ==> #[trigger] self.spec_args()[i] < n
        &&& forall|i: int, j: int|
            0 <= i < self.spec_locals().len() && 0 <= j < self.spec_args().len() ==> #[trigger] self.spec_locals()[i]
                != #[trigger] self.spec_args()[j]
    }

    /// The handle of the object `name`: as the namespace finds it (by its
    /// path, and a single segment also in each enclosing scope); a null
    /// name is `InvalidMethodName`, one that is not there `InvalidName`.
    pub open spec fn spec_search(&self, name: NameString) -> Result<usize, AmlError> {
        if name.is_null() {
            Err(AmlError::InvalidMethodName(name))
        } else {
            match self.spec_namespace().spec_lookup(&name) {
                Some(h) => Ok(h),
                None => Err(AmlError::InvalidName(name)),
            }
        }
    }

    /// `Acquire` of the mutex `s` names, waiting at most `wait`
    /// milliseconds (`0xFFFF`: for ever): where its level is at most its
    /// sync level, the level one more and 0 (acquired); else, as nothing
    /// else runs while a method is evaluated, the mutex is never freed: 1
    /// (timed out), and `MutexError` where the wait has no end.
    pub open spec fn acquire_val(&self, store: Seq<AmlVariable>, s: SuperName, wait: u16) -> (
        Seq<AmlVariable>,
        Result<Operand, AmlError>,
    ) {
        match self.spec_handle(s) {
            Err(e) => (store, Err(e)),
            Ok(h) => match read_source(store, h) {
                Err(e) => (store, Err(e)),
                Ok(k) => match store[k as int] {
                    AmlVariable::Mutex(level, sync) => if level <= sync && level < 255 {
                        (
                            store.update(k as int, AmlVariable::Mutex((level + 1) as u8, sync)),
                            Ok(Operand::Integer(ConstData::Byte(0))),
                        )
                    } else if wait == 0xFFFF {
                        (store, Err(AmlError::MutexError))
                    } else {
                        (store, Ok(Operand::Integer(ConstData::Byte(1))))
                    },
                    _ => (store, Err(AmlError::InvalidOperation)),
                },
            },
        }
    }

    /// `Release` of the mutex `s` names: its level one less (wrapping), in
    /// the entry a read of it reaches.
    pub open spec fn release_val(&self, store: Seq<AmlVariable>, s: SuperName) -> (
        Seq<AmlVariable>,
        Result<(), AmlError>,
    ) {
        match self.spec_handle(s) {
            Err(e) => (store, Err(e)),
            Ok(h) => match read_source(store, h) {
                Err(e) => (store, Err(e)),
                Ok(k) => match store[k as int] {
                    AmlVariable::Mutex(level, sync) => (
                        store.update(k as int, AmlVariable::Mutex(if level == 0 { 255u8 } else { (level - 1) as u8 }, sync)),
                        Ok(()),
                    ),
                    _ => (store, Err(AmlError::InvalidOperation)),
                },
            },
        }
    }

    /// The handle of the variable a super name names.
    pub open spec fn spec_handle(&self, s: SuperName) -> Result<usize, AmlError> {
        match s {
            SuperName::SimpleName(SimpleName::NameString(n)) => self.spec_search(n),
            SuperName::SimpleName(SimpleName::ArgObj(c)) => if c < NUMBER_OF_ARGUMENT_VARIABLES {
                Ok(self.spec_args()[c as int])
            } else {
                Err(AmlError::InvalidOperation)
            },
            SuperName::SimpleName(SimpleName::LocalObj(c)) => if c < NUMBER_OF_LOCAL_VARIABLES {
                Ok(self.spec_locals()[c as int])
            } else {
                Err(AmlError::InvalidOperation)
            },
            SuperName::DebugObj => Err(AmlError::UnsupportedType),
            SuperName::ReferenceTypeOpcode(_) => Err(AmlError::UnsupportedType),
        }
    }

    /// Writing the integer `c` into what the super name `s` names: the
    /// debug object takes anything; `RefOf` cannot be written.
    pub open spec fn write_super_name(&self, store: Seq<AmlVariable>, s: SuperName, c: ConstData) -> (
        Seq<AmlVariable>,
        Result<(), AmlError>,
    ) {
        match s {
            SuperName::DebugObj => (store, Ok(())),
            SuperName::ReferenceTypeOpcode(r) => match *r {
                ReferenceTypeOpcode::DefRefOf(_) => (store, Err(AmlError::InvalidOperation)),
                ReferenceTypeOpcode::UserTermObj => (store, Err(AmlError::InvalidType)),
                _ => (store, Err(AmlError::UnsupportedType)),
            },
            _ => match self.spec_handle(s) {
                Ok(h) => write_entry(store, h, c),
                Err(e) => (store, Err(e)),
            },
        }
    }

    /// Writing the integer `c` into a target; the null target is refused.
    pub open spec fn write_target(&self, store: Seq<AmlVariable>, t: Target, c: ConstData) -> (
        Seq<AmlVariable>,
        Result<(), AmlError>,
    ) {
        match t {
            Target::Null => (store, Err(AmlError::InvalidOperation)),
            Target::SuperName(s) => self.write_super_name(store, s, c),
        }
    }

    /// The result `c` of an operator with a target: stored in the target
    /// unless it is null.
    pub open spec fn store_result(&self, store: Seq<AmlVariable>, t: Target, c: ConstData) -> (
        Seq<AmlVariable>,
        Result<Operand, AmlError>,
    ) {
        if t is Null {
            (store, Ok(Operand::Integer(c)))
        } else {
            let (s1, w) = self.write_target(store, t, c);
            match w {
                Ok(_) => (s1, Ok(Operand::Integer(c))),
                Err(e) => (s1, Err(e)),
            }
        }
    }

    /// `Increment` (`up`) or `Decrement` of the variable `s` names: its
    /// integer value one more or one less, written back through it.
    pub open spec fn step_variable(&self, store: Seq<AmlVariable>, s: SuperName, up: bool) -> (
        Seq<AmlVariable>,
        Result<Operand, AmlError>,
    ) {
        match self.spec_handle(s) {
            Err(e) => (store, Err(e)),
            Ok(h) => match read_source(store, h) {
                Err(e) => (store, Err(e)),
                Ok(k) => match store[k as int] {
                    AmlVariable::ConstData(c) => {
                        let v = c.spec_value() as usize;
                        let n = if up {
                            if v == usize::MAX { 0usize } else { (v + 1) as usize }
                        } else {
                            if v == 0 { usize::MAX } else { (v - 1) as usize }
                        };
                        let res = const_of(n, c.spec_byte_size());
                        let (s1, w) = write_entry(store, h, res);
                        match w {
                            Ok(_) => (s1, Ok(Operand::Integer(res))),
                            Err(e) => (s1, Err(e)),
                        }
                    },
                    _ => (store, Err(AmlError::InvalidOperation)),
                },
            },
        }
    }

    /// What evaluating the term argument `t` from the store `store` leaves
    /// in the store, and what it gives.
    pub open spec fn term_val(&self, store: Seq<AmlVariable>, t: TermArg) -> (
        Seq<AmlVariable>,
        Result<Operand, AmlError>,
    )
        decreases t, 0int,
    {
        match t {
            TermArg::ExpressionOpcode(e) => self.expr_val(store, *e),
            TermArg::DataObject(d) => match d {
                DataObject::ComputationalData(ComputationalData::ConstData(c)) => (store, Ok(Operand::Integer(c))),
                DataObject::ComputationalData(ComputationalData::ConstObj(b)) => (
                    store,
                    Ok(Operand::Integer(ConstData::Byte(b))),
                ),
                DataObject::ComputationalData(ComputationalData::Revision) => (
                    store,
                    Ok(Operand::Integer(ConstData::Byte(AML_EVALUATOR_REVISION))),
                ),
                _ => (store, Ok(Operand::Value)),
            },
            TermArg::ArgObj(c) => if c < NUMBER_OF_ARGUMENT_VARIABLES {
                (store, Ok(Operand::Variable(self.spec_args()[c as int])))
            } else {
                (store, Err(AmlError::InvalidOperation))
            },
            TermArg::LocalObj(c) => if c < NUMBER_OF_LOCAL_VARIABLES {
                (store, Ok(Operand::Variable(self.spec_locals()[c as int])))
            } else {
                (store, Err(AmlError::InvalidOperation))
            },
        }
    }

    /// `t` evaluated and taken as an integer.
    pub open spec fn int_val(&self, store: Seq<AmlVariable>, t: TermArg) -> (
        Seq<AmlVariable>,
        Result<ConstData, AmlError>,
    )
        decreases t, 1int,
    {
        let (s1, o) = self.term_val(store, t);
        match o {
            Ok(v) => (s1, operand_int(s1, v)),
            Err(e) => (s1, Err(e)),
        }
    }

    /// `t` evaluated and taken as a condition.
    pub open spec fn bool_val(&self, store: Seq<AmlVariable>, t: TermArg) -> (
        Seq<AmlVariable>,
        Result<bool, AmlError>,
    )
        decreases t, 1int,
    {
        let (s1, o) = self.term_val(store, t);
        match o {
            Ok(v) => (s1, operand_bool(s1, v)),
            Err(e) => (s1, Err(e)),
        }
    }

    /// The rest of a comparison: the left operand was `l`; the right one is
    /// evaluated and the two compared.
    pub open spec fn compare_rest(&self, store: Seq<AmlVariable>, kind: Comparison, l: ConstData, b: TermArg) -> (
        Seq<AmlVariable>,
        Result<Operand, AmlError>,
    )
        decreases b, 2int,
    {
        let (s2, y) = self.int_val(store, b);
        match y {
            Err(e) => (s2, Err(e)),
            Ok(r) => (
                s2,
                Ok(
                    Operand::Integer(
                        ConstData::Byte(
                            if spec_compare(kind, l.spec_value() as usize, r.spec_value() as usize) {
                                1
                            } else {
                                0
                            },
                        ),
                    ),
                ),
            ),
        }
    }

    /// What evaluating the expression `e` leaves in the store and gives.
    pub open spec fn expr_val(&self, store: Seq<AmlVariable>, e: ExpressionOpcode) -> (
        Seq<AmlVariable>,
        Result<Operand, AmlError>,
    )
        decreases e, 2int,
    {
        match e {
            ExpressionOpcode::BinaryOperation(_) => self.binary_val(store, e),
            ExpressionOpcode::DefDivide(_) => self.divide_val(store, e),
            ExpressionOpcode::DefLAnd(_, _) | ExpressionOpcode::DefLOr(_, _) => self.logic_val(store, e),
            ExpressionOpcode::DefLEqual(_, _) | ExpressionOpcode::DefLGreater(_, _)
            | ExpressionOpcode::DefLGreaterEqual(_, _) | ExpressionOpcode::DefLLess(_, _)
            | ExpressionOpcode::DefLLessEqual(_, _) | ExpressionOpcode::DefLNotEqual(_, _) => self.compare_val(store, e),
            ExpressionOpcode::DefLNot(_) | ExpressionOpcode::DefNot(_, _) | ExpressionOpcode::DefFindSetLeftBit(_, _)
            | ExpressionOpcode::DefFindSetRightBit(_, _) | ExpressionOpcode::DefStore(_, _)
            | ExpressionOpcode::DefToInteger(_, _) => self.unary_val(store, e),
            ExpressionOpcode::DefIncrement(_) | ExpressionOpcode::DefDecrement(_) | ExpressionOpcode::DefSizeOf(_)
            | ExpressionOpcode::DefCondRefOf(_, _) | ExpressionOpcode::ReferenceTypeOpcode(_)
            | ExpressionOpcode::MethodInvocation(_) | ExpressionOpcode::DefAcquire(_, _) => self.object_val(store, e),
            ExpressionOpcode::DefBuffer(_) | ExpressionOpcode::DefPackage(_) | ExpressionOpcode::DefVarPackage(
                _,
            ) => (store, Ok(Operand::Value)),
            ExpressionOpcode::DefProcessor => (store, Err(AmlError::InvalidOperation)),
            _ => (store, Err(AmlError::UnsupportedType)),
        }
    }

    /// An integer operator on two operands: both evaluated in turn, the
    /// operator applied (where it computes without overflow, division by
    /// zero or a shift past the width), the result stored in the target.
    pub open spec fn binary_val(&self, store: Seq<AmlVariable>, e: ExpressionOpcode) -> (
        Seq<AmlVariable>,
        Result<Operand, AmlError>,
    )
        decreases e, 1int,
    {
        match e {
            ExpressionOpcode::BinaryOperation(b) => {
                let (s1, x) = self.int_val(store, b.operand1);
                match x {
                    Err(e) => (s1, Err(e)),
                    Ok(l) => {
                        let (s2, y) = self.int_val(s1, b.operand2);
                        match y {
                            Err(e) => (s2, Err(e)),
                            Ok(r) => {
                                let lv = l.spec_value() as usize;
                                let rv = r.spec_value() as usize;
                                if !binary_defined(b.opcode, lv, rv) {
                                    (s2, Err(AmlError::InvalidOperation))
                                } else {
                                    match spec_binary(b.opcode, lv, rv) {
                                        None => (s2, Err(AmlError::InvalidOperation)),
                                        Some(v) => {
                                            let c = const_of(v, wider(l.spec_byte_size(), r.spec_byte_size()));
                                            self.store_result(s2, b.target, c)
                                        },
                                    }
                                }
                            },
                        }
                    },
                }
            },
            _ => (store, Err(AmlError::UnsupportedType)),
        }
    }

    /// `Divide`: the quotient, stored in the quotient target and then the
    /// remainder in the remainder target, where they are not null.
    pub open spec fn divide_val(&self, store: Seq<AmlVariable>, e: ExpressionOpcode) -> (
        Seq<AmlVariable>,
        Result<Operand, AmlError>,
    )
        decreases e, 1int,
    {
        match e {
            ExpressionOpcode::DefDivide(d) => {
                let (s1, x) = self.int_val(store, d.dividend);
                match x {
                    Err(e) => (s1, Err(e)),
                    Ok(l) => {
                        let (s2, y) = self.int_val(s1, d.divisor);
                        match y {
                            Err(e) => (s2, Err(e)),
                            Ok(r) => {
                                let lv = l.spec_value() as usize;
                                let rv = r.spec_value() as usize;
                                if rv == 0 {
                                    (s2, Err(AmlError::InvalidOperation))
                                } else {
                                    let size = wider(l.spec_byte_size(), r.spec_byte_size());
                                    let q = const_of((lv / rv) as usize, size);
                                    let m = const_of((lv % rv) as usize, size);
                                    let (s3, w1) = if d.quotient is Null {
                                        (s2, Ok(()))
                                    } else {
                                        self.write_target(s2, d.quotient, q)
                                    };
                                    match w1 {
                                        Err(e) => (s3, Err(e)),
                                        Ok(_) => {
                                            let (s4, w2) = if d.remainder is Null {
                                                (s3, Ok(()))
                                            } else {
                                                self.write_target(s3, d.remainder, m)
                                            };
                                            match w2 {
                                                Err(e) => (s4, Err(e)),
                                                Ok(_) => (s4, Ok(Operand::Integer(q))),
                                            }
                                        },
                                    }
                                }
                            },
                        }
                    },
                }
            },
            _ => (store, Err(AmlError::UnsupportedType)),
        }
    }

    /// `LAnd` and `LOr`: the left condition, and the right one only where
    /// the left does not decide.
    pub open spec fn logic_val(&self, store: Seq<AmlVariable>, e: ExpressionOpcode) -> (
        Seq<AmlVariable>,
        Result<Operand, AmlError>,
    )
        decreases e, 1int,
    {
        match e {
            ExpressionOpcode::DefLAnd(a, b) => {
                let (s1, x) = self.bool_val(store, a);
                match x {
                    Err(e) => (s1, Err(e)),
                    Ok(false) => (s1, Ok(Operand::Integer(ConstData::Byte(0)))),
                    Ok(true) => {
                        let (s2, y) = self.bool_val(s1, b);
                        match y {
                            Err(e) => (s2, Err(e)),
                            Ok(v) => (s2, Ok(Operand::Integer(ConstData::Byte(if v { 1 } else { 0 })))),
                        }
                    },
                }
            },
            ExpressionOpcode::DefLOr(a, b) => {
                let (s1, x) = self.bool_val(store, a);
                match x {
                    Err(e) => (s1, Err(e)),
                    Ok(true) => (s1, Ok(Operand::Integer(ConstData::Byte(1)))),
                    Ok(false) => {
                        let (s2, y) = self.bool_val(s1, b);
                        match y {
                            Err(e) => (s2, Err(e)),
                            Ok(v) => (s2, Ok(Operand::Integer(ConstData::Byte(if v { 1 } else { 0 })))),
                        }
                    },
                }
            },
            _ => (store, Err(AmlError::UnsupportedType)),
        }
    }

    /// The comparison an opcode makes, and its operands.
    pub open spec fn comparison_of(e: ExpressionOpcode) -> Option<(Comparison, TermArg, TermArg)> {
        match e {
            ExpressionOpcode::DefLEqual(a, b) => Some((Comparison::Equal, a, b)),
            ExpressionOpcode::DefLGreater(a, b) => Some((Comparison::Greater, a, b)),
            ExpressionOpcode::DefLGreaterEqual(a, b) => Some((Comparison::GreaterEqual, a, b)),
            ExpressionOpcode::DefLLess(a, b) => Some((Comparison::Less, a, b)),
            ExpressionOpcode::DefLLessEqual(a, b) => Some((Comparison::LessEqual, a, b)),
            ExpressionOpcode::DefLNotEqual(a, b) => Some((Comparison::NotEqual, a, b)),
            _ => None,
        }
    }

    /// `LEqual` and the other comparisons of two integer operands.
    pub open spec fn compare_val(&self, store: Seq<AmlVariable>, e: ExpressionOpcode) -> (
        Seq<AmlVariable>,
        Result<Operand, AmlError>,
    )
        decreases e, 1int,
    {
        match e {
            ExpressionOpcode::DefLEqual(a, b) | ExpressionOpcode::DefLGreater(a, b)
            | ExpressionOpcode::DefLGreaterEqual(a, b) | ExpressionOpcode::DefLLess(a, b)
            | ExpressionOpcode::DefLLessEqual(a, b) | ExpressionOpcode::DefLNotEqual(a, b) => {
                let kind = Self::comparison_of(e).unwrap().0;
                let (s1, x) = self.int_val(store, a);
                match x {
                    Err(e) => (s1, Err(e)),
                    Ok(l) => self.compare_rest(s1, kind, l, b),
                }
            },
            _ => (store, Err(AmlError::UnsupportedType)),
        }
    }

    /// The operators of one integer operand: `LNot`, `Not`,
    /// `FindSetLeftBit`, `FindSetRightBit`, `Store` and `ToInteger`.
    pub open spec fn unary_val(&self, store: Seq<AmlVariable>, e: ExpressionOpcode) -> (
        Seq<AmlVariable>,
        Result<Operand, AmlError>,
    )
        decreases e, 1int,
    {
        match e {
            ExpressionOpcode::DefLNot(a) => {
                let (s1, x) = self.int_val(store, a);
                match x {
                    Err(e) => (s1, Err(e)),
                    Ok(c) => (
                        s1,
                        Ok(Operand::Integer(ConstData::Byte(if c.spec_value() as usize == 0 { 1 } else { 0 }))),
                    ),
                }
            },
            ExpressionOpcode::DefNot(a, t) => {
                let (s1, x) = self.int_val(store, a);
                match x {
                    Err(e) => (s1, Err(e)),
                    Ok(c) => {
                        let n = match c {
                            ConstData::Byte(d) => ConstData::Byte(!d),
                            ConstData::Word(d) => ConstData::Word(!d),
                            ConstData::DWord(d) => ConstData::DWord(!d),
                            ConstData::QWord(d) => ConstData::QWord(!d),
                        };
                        self.store_result(s1, t, n)
                    },
                }
            },
            ExpressionOpcode::DefFindSetLeftBit(a, t) => {
                let (s1, x) = self.int_val(store, a);
                match x {
                    Err(e) => (s1, Err(e)),
                    Ok(c) => self.store_result(
                        s1,
                        t,
                        ConstData::Byte(bit_length((c.spec_value() as usize) as nat) as u8),
                    ),
                }
            },
            ExpressionOpcode::DefFindSetRightBit(a, t) => {
                let (s1, x) = self.int_val(store, a);
                match x {
                    Err(e) => (s1, Err(e)),
                    Ok(c) => {
                        let v = c.spec_value() as usize;
                        self.store_result(
                            s1,
                            t,
                            ConstData::Byte(if v == 0 { 0 } else { lowest_bit(v as nat) as u8 }),
                        )
                    },
                }
            },
            ExpressionOpcode::DefStore(a, dst) => {
                let (s1, x) = self.int_val(store, a);
                match x {
                    Err(e) => (s1, Err(e)),
                    Ok(c) => {
                        let (s2, w) = self.write_super_name(s1, dst, c);
                        match w {
                            Err(e) => (s2, Err(e)),
                            Ok(_) => (s2, Ok(Operand::Integer(c))),
                        }
                    },
                }
            },
            ExpressionOpcode::DefToInteger(a, t) => match literal_string(a) {
                Some(v) => match spec_to_integer(v) {
                    Err(e) => (store, Err(e)),
                    Ok(c) => self.store_result(store, t, c),
                },
                None => {
                    let (s1, x) = self.term_val(store, a);
                    match x {
                        Err(e) => (s1, Err(e)),
                        Ok(Operand::Integer(c)) => self.store_result(s1, t, c),
                        Ok(Operand::Variable(h)) => match read_source(s1, h) {
                            Err(e) => (s1, Err(e)),
                            Ok(k) => match spec_to_integer(s1[k as int]) {
                                Err(e) => (s1, Err(e)),
                                Ok(c) => self.store_result(s1, t, c),
                            },
                        },
                        Ok(Operand::Value) => (s1, Err(AmlError::UnsupportedType)),
                    }
                },
            },
            _ => (store, Err(AmlError::UnsupportedType)),
        }
    }

    /// The operators on a variable or an object: `Increment`, `Decrement`,
    /// `SizeOf`, `CondRefOf`, the reference opcodes and a name.
    pub open spec fn object_val(&self, store: Seq<AmlVariable>, e: ExpressionOpcode) -> (
        Seq<AmlVariable>,
        Result<Operand, AmlError>,
    )
        decreases e, 1int,
    {
        match e {
            ExpressionOpcode::DefIncrement(s) => self.step_variable(store, s, true),
            ExpressionOpcode::DefDecrement(s) => self.step_variable(store, s, false),
            ExpressionOpcode::DefAcquire(s, wait) => self.acquire_val(store, s, wait),
            ExpressionOpcode::DefSizeOf(s) => match self.spec_handle(s) {
                Err(e) => (store, Err(e)),
                Ok(h) => match size_of_entry(store, h) {
                    Err(e) => (store, Err(e)),
                    Ok(c) => (store, Ok(Operand::Integer(c))),
                },
            },
            ExpressionOpcode::DefCondRefOf(s, t) => match self.spec_handle(s) {
                Err(AmlError::InvalidName(_)) => (store, Ok(Operand::Integer(ConstData::Byte(0)))),
                Err(e) => (store, Err(e)),
                Ok(h) => if t is Null {
                    (store, Ok(Operand::Integer(ConstData::Byte(1))))
                } else {
                    match read_source(store, h) {
                        Err(e) => (store, Err(e)),
                        Ok(k) => match store[k as int] {
                            AmlVariable::ConstData(c) => {
                                let (s1, w) = self.write_target(store, t, c);
                                match w {
                                    Err(e) => (s1, Err(e)),
                                    Ok(_) => (s1, Ok(Operand::Integer(ConstData::Byte(1)))),
                                }
                            },
                            _ => (store, Err(AmlError::UnsupportedType)),
                        },
                    }
                },
            },
            ExpressionOpcode::ReferenceTypeOpcode(r) => match r {
                ReferenceTypeOpcode::DefRefOf(s) => match self.spec_handle(s) {
                    Err(e) => (store, Err(e)),
                    Ok(h) => (store, Ok(Operand::Variable(h))),
                },
                ReferenceTypeOpcode::DefDerefOf(a) => self.term_val(store, a),
                ReferenceTypeOpcode::DefIndex(_) => (store, Err(AmlError::UnsupportedType)),
                ReferenceTypeOpcode::UserTermObj => (store, Err(AmlError::InvalidType)),
            },
            ExpressionOpcode::MethodInvocation(m) => match self.spec_search(m.spec_name()) {
                Err(e) => (store, Err(e)),
                Ok(h) => if h < store.len() && (store[h as int] is Method || store[h as int] is BuiltInMethod) {
                    (store, Err(AmlError::UnsupportedType))
                } else {
                    (store, Ok(Operand::Variable(h)))
                },
            },
            _ => (store, Err(AmlError::UnsupportedType)),
        }
    }
}

impl Evaluator {
    /// An evaluation over the store `variables`, with `namespace` giving the
    /// handle of each object path, in `current_scope`. The locals and then
    /// the arguments are new uninitialized entries after the given ones.
    pub fn new(variables: Vec<AmlVariable>, namespace: MethodTable, current_scope: NameString) -> (r: Self)
        requires
            variables@.len() + NUMBER_OF_LOCAL_VARIABLES + NUMBER_OF_ARGUMENT_VARIABLES <= usize::MAX,
        ensures
            r.wf(),
            r.spec_store().len() == variables@.len() + NUMBER_OF_LOCAL_VARIABLES + NUMBER_OF_ARGUMENT_VARIABLES,
            forall|i: int| 0 <= i < variables@.len() ==> #[trigger] r.spec_store()[i] == variables@[i],
            forall|i: int|
                variables@.len() <= i < r.spec_store().len() ==> #[trigger] r.spec_store()[i] is Uninitialized,
            forall|i: int|
                0 <= i < NUMBER_OF_LOCAL_VARIABLES ==> #[trigger] r.spec_frame().spec_locals()[i] == variables@.len() + i,
            forall|i: int|
                0 <= i < NUMBER_OF_ARGUMENT_VARIABLES ==> #[trigger] r.spec_frame().spec_args()[i] == variables@.len()
                    + NUMBER_OF_LOCAL_VARIABLES + i,
            r.spec_frame().spec_namespace().spec_entries() == namespace.spec_entries(),
            r.spec_frame().spec_scope() == current_scope,
    {
        let mut variables = variables;
        let ghost given = variables@;
        let mut local_variables: Vec<usize> = Vec::new();
        let mut argument_variables: Vec<usize> = Vec::new();
        let mut i: usize = 0;
        while i < NUMBER_OF_LOCAL_VARIABLES + NUMBER_OF_ARGUMENT_VARIABLES
            invariant
                i <= NUMBER_OF_LOCAL_VARIABLES + NUMBER_OF_ARGUMENT_VARIABLES,
                given.len() + NUMBER_OF_LOCAL_VARIABLES + NUMBER_OF_ARGUMENT_VARIABLES <= usize::MAX,
                variables@.len() == given.len() + i,
                forall|j: int| 0 <= j < given.len() ==> #[trigger] variables@[j] == given[j],
                forall|j: int| given.len() <= j < variables@.len() ==> #[trigger] variables@[j] is Uninitialized,
                local_variables@.len() == if i < NUMBER_OF_LOCAL_VARIABLES { i } else { NUMBER_OF_LOCAL_VARIABLES },
                argument_variables@.len() == if i < NUMBER_OF_LOCAL_VARIABLES { 0 } else { (i - NUMBER_OF_LOCAL_VARIABLES) as usize },
                forall|j: int| 0 <= j < local_variables@.len() ==> #[trigger] local_variables@[j] == given.len() + j,
                forall|j: int|
                    0 <= j < argument_variables@.len() ==> #[trigger] argument_variables@[j] == given.len()
                        + NUMBER_OF_LOCAL_VARIABLES + j,
            decreases NUMBER_OF_LOCAL_VARIABLES + NUMBER_OF_ARGUMENT_VARIABLES - i,
        {
            let h = variables.len();
            variables.push(AmlVariable::Uninitialized);
            if i < NUMBER_OF_LOCAL_VARIABLES {
                local_variables.push(h);
            } else {
                argument_variables.push(h);
            }
            i = i + 1;
        }
        Evaluator {
            variables,
            frame: EvaluationFrame { namespace, local_variables, argument_variables, current_scope },
        }
    }

    pub fn get_current_scope(&self) -> (r: &NameString)
        ensures
            *r == self.spec_frame().spec_scope(),
    {
        &self.frame.current_scope
    }

    /// Makes `scope` the current scope; the store, the namespace, the locals
    /// and the arguments stay.
    pub fn set_current_scope(&mut self, scope: NameString)
        requires
            old(self).wf(),
        ensures
            final(self).wf(),
            final(self).spec_store() == old(self).spec_store(),
            final(self).spec_frame().spec_scope() == scope,
            final(self).spec_frame().spec_namespace() == old(self).spec_frame().spec_namespace(),
            final(self).spec_frame().spec_locals() == old(self).spec_frame().spec_locals(),
            final(self).spec_frame().spec_args() == old(self).spec_frame().spec_args(),
    {
        self.frame.current_scope = scope;
    }

    /// The number of entries of the store.
    pub fn get_variable_count(&self) -> (r: usize)
        ensures
            r == self.spec_store().len(),
    {
        self.variables.len()
    }

    /// The variable of handle `h`, if there is one.
    pub fn get_variable(&self, h: usize) -> (r: Option<&AmlVariable>)
        ensures
            h < self.spec_store().len() ==> r == Some(&self.spec_store()[h as int]),
            h >= self.spec_store().len() ==> r is None,
    {
        if h < self.variables.len() {
            Some(&self.variables[h])
        } else {
            None
        }
    }

    /// The handle of the object `name`, as `spec_search` gives it.
    pub fn search_aml_variable(&self, name: &NameString) -> (r: Result<usize, AmlError>)
        ensures
            agrees(r, self.spec_frame().spec_search(*name)),
    {
        if name.is_null_name() {
            return Err(AmlError::InvalidMethodName(name.copy()));
        }
        match self.frame.namespace.find_method_argument_count(name) {
            Ok(h) => Ok(h),
            Err(_) => Err(AmlError::InvalidName(name.copy())),
        }
    }

    /// The number of arguments of the object `name`: that of a method or a
    /// built-in method, zero for any other object and for the null name.
    pub fn find_method_argument_count(&self, name: &NameString) -> (r: Result<usize, AmlError>)
        ensures
            name.is_null() ==> r == Ok::<usize, AmlError>(0),
            !name.is_null() ==> match self.spec_frame().spec_search(*name) {
                Err(e) => r matches Err(x) && same_error(x, e),
                Ok(h) => if h >= self.spec_store().len() {
                    r == Err::<usize, AmlError>(AmlError::InvalidOperation)
                } else {
                    match self.spec_store()[h as int] {
                        AmlVariable::Method(m) => r == Ok::<usize, AmlError>((m.spec_flags() % 8) as usize),
                        AmlVariable::BuiltInMethod(_, c) => r == Ok::<usize, AmlError>(c as usize),
                        _ => r == Ok::<usize, AmlError>(0),
                    }
                },
            },
    {
        if name.is_null_name() {
            return Ok(0);
        }
        let h = self.search_aml_variable(name)?;
        if h >= self.variables.len() {
            return Err(AmlError::InvalidOperation);
        }
        match &self.variables[h] {
            AmlVariable::Method(m) => Ok(m.get_argument_count()),
            AmlVariable::BuiltInMethod(_, c) => Ok(*c as usize),
            _ => Ok(0),
        }
    }

    /// The entry whose value reading entry `h` gives, as `read_source` says.
    fn read_entry(&self, h: usize) -> (r: Result<usize, AmlError>)
        ensures
            r == read_source(self.spec_store(), h),
            r matches Ok(k) ==> k < self.spec_store().len(),
    {
        proof {
            reveal(read_source);
        }
        if h < self.variables.len() && self.variables[h].is_constant_data() {
            return Ok(h);
        }
        match plan_read(&self.variables, h) {
            Ok(steps) => {
                if steps.len() == 1 {
                    match steps[0] {
                        FieldStep::StoreCopy(k) => {
                            if k < self.variables.len() {
                                Ok(k)
                            } else {
                                Err(AmlError::UnsupportedType)
                            }
                        },
                        _ => Err(AmlError::UnsupportedType),
                    }
                } else {
                    Err(AmlError::UnsupportedType)
                }
            },
            Err(e) => Err(e),
        }
    }

    /// An operand as an integer, as `operand_int` says.
    fn operand_to_int(&self, o: Operand) -> (r: Result<ConstData, AmlError>)
        ensures
            r == operand_int(self.spec_store(), o),
    {
        match o {
            Operand::Integer(c) => Ok(c),
            Operand::Variable(h) => {
                let k = match self.read_entry(h) {
                    Ok(k) => k,
                    Err(AmlError::UnsupportedType) => {
                        return self.read_element_int(h);
                    },
                    Err(e) => {
                        return Err(e);
                    },
                };
                match &self.variables[k] {
                    AmlVariable::ConstData(c) => Ok(*c),
                    AmlVariable::Method(_) => Err(AmlError::InvalidOperation),
                    AmlVariable::BuiltInMethod(_, _) => Err(AmlError::InvalidOperation),
                    _ => Err(AmlError::InvalidType),
                }
            },
            Operand::Value => Err(AmlError::InvalidType),
        }
    }

    /// The integer that reading entry `h` gives through a field or a
    /// reference into an element, as `element_source` and `element_int`
    /// say.
    fn read_element_int(&self, h: usize) -> (r: Result<ConstData, AmlError>)
        ensures
            r == match element_source(self.spec_store(), h) {
                Some((s, i)) => element_int(self.spec_store()[s as int], i),
                None => Err(AmlError::UnsupportedType),
            },
    {
        let steps = match plan_read(&self.variables, h) {
            Ok(steps) => steps,
            Err(_) => {
                return Err(AmlError::UnsupportedType);
            },
        };
        if steps.len() != 1 {
            return Err(AmlError::UnsupportedType);
        }
        let (s, i) = match steps[0] {
            FieldStep::StoreIndexRead(s, i) => (s, i),
            _ => {
                return Err(AmlError::UnsupportedType);
            },
        };
        if s >= self.variables.len() {
            return Err(AmlError::UnsupportedType);
        }
        if let AmlVariable::Reference(_, _) = &self.variables[s] {
            return Err(AmlError::InvalidOperation);
        }
        match self.variables[s].read_buffer_with_index(i) {
            Ok(AmlVariable::ConstData(c)) => Ok(c),
            Ok(_) => Err(AmlError::InvalidType),
            Err(e) => Err(e),
        }
    }

    /// Writes the integer `c` into entry `h`, as `write_entry` says.
    fn write_to_entry(&mut self, h: usize, c: ConstData) -> (r: Result<(), AmlError>)
        requires
            old(self).wf(),
        ensures
            final(self).wf(),
            final(self).same_frame(old(self)),
            final(self).spec_store() == write_entry(old(self).spec_store(), h, c).0,
            r == write_entry(old(self).spec_store(), h, c).1,
    {
        proof {
            reveal(write_entry);
        }
        let data = AmlVariable::ConstData(c);
        match plan_write(&self.variables, h, &data) {
            Ok(steps) => {
                if steps.len() == 1 {
                    match steps[0] {
                        FieldStep::StoreSet(k, FieldData::Given) => {
                            if k < self.variables.len() {
                                self.variables.set(k, data);
                                Ok(())
                            } else {
                                Err(AmlError::UnsupportedType)
                            }
                        },
                        _ => Err(AmlError::UnsupportedType),
                    }
                } else {
                    Err(AmlError::UnsupportedType)
                }
            },
            Err(e) => Err(e),
        }
    }

    /// The handle of the variable a super name names, as `spec_handle` says.
    fn handle_of(&self, s: &SuperName) -> (r: Result<usize, AmlError>)
        requires
            self.wf(),
        ensures
            agrees(r, self.spec_frame().spec_handle(*s)),
    {
        match s {
            SuperName::SimpleName(SimpleName::NameString(n)) => self.search_aml_variable(n),
            SuperName::SimpleName(SimpleName::ArgObj(c)) => {
                if (*c as usize) < NUMBER_OF_ARGUMENT_VARIABLES {
                    Ok(self.frame.argument_variables[*c as usize])
                } else {
                    Err(AmlError::InvalidOperation)
                }
            },
            SuperName::SimpleName(SimpleName::LocalObj(c)) => {
                if (*c as usize) < NUMBER_OF_LOCAL_VARIABLES {
                    Ok(self.frame.local_variables[*c as usize])
                } else {
                    Err(AmlError::InvalidOperation)
                }
            },
            SuperName::DebugObj => Err(AmlError::UnsupportedType),
            SuperName::ReferenceTypeOpcode(_) => Err(AmlError::UnsupportedType),
        }
    }

    /// Writes the integer `c` into what `s` names, as `write_super_name`
    /// says.
    fn write_super_name_exec(&mut self, s: &SuperName, c: ConstData) -> (r: Result<(), AmlError>)
        requires
            old(self).wf(),
        ensures
            final(self).wf(),
            final(self).same_frame(old(self)),
            final(self).spec_store() == old(self).spec_frame().write_super_name(old(self).spec_store(), *s, c).0,
            agrees(r, old(self).spec_frame().write_super_name(old(self).spec_store(), *s, c).1),
    {
        match s {
            SuperName::DebugObj => Ok(()),
            SuperName::ReferenceTypeOpcode(r) => match &**r {
                ReferenceTypeOpcode::DefRefOf(_) => Err(AmlError::InvalidOperation),
                ReferenceTypeOpcode::UserTermObj => Err(AmlError::InvalidType),
                _ => Err(AmlError::UnsupportedType),
            },
            _ => {
                let h = self.handle_of(s)?;
                self.write_to_entry(h, c)
            },
        }
    }

    /// Writes the integer `data` into the target `target`: a local, an
    /// argument or a named object takes it as its plan of a write says; the
    /// debug object takes anything; a null target or `RefOf` is refused.
    pub fn write_data_into_target(&mut self, data: ConstData, target: &Target) -> (r: Result<(), AmlError>)
        requires
            old(self).wf(),
        ensures
            final(self).wf(),
            final(self).same_frame(old(self)),
            final(self).spec_store() == old(self).spec_frame().write_target(old(self).spec_store(), *target, data).0,
            agrees(r, old(self).spec_frame().write_target(old(self).spec_store(), *target, data).1),
    {
        match target {
            Target::Null => Err(AmlError::InvalidOperation),
            Target::SuperName(s) => self.write_super_name_exec(s, data),
        }
    }

    /// The result `c` of an operator, stored in `t` unless it is null.
    fn store_result_exec(&mut self, t: &Target, c: ConstData) -> (r: Result<Operand, AmlError>)
        requires
            old(self).wf(),
        ensures
            final(self).wf(),
            final(self).same_frame(old(self)),
            final(self).spec_store() == old(self).spec_frame().store_result(old(self).spec_store(), *t, c).0,
            agrees(r, old(self).spec_frame().store_result(old(self).spec_store(), *t, c).1),
    {
        if t.is_null() {
            return Ok(Operand::Integer(c));
        }
        self.write_data_into_target(c, t)?;
        Ok(Operand::Integer(c))
    }

    /// `Increment` (`up`) or `Decrement` of what `s` names.
    fn step_variable_exec(&mut self, s: &SuperName, up: bool) -> (r: Result<Operand, AmlError>)
        requires
            old(self).wf(),
        ensures
            final(self).wf(),
            final(self).same_frame(old(self)),
            final(self).spec_store() == old(self).spec_frame().step_variable(old(self).spec_store(), *s, up).0,
            agrees(r, old(self).spec_frame().step_variable(old(self).spec_store(), *s, up).1),
    {
        let h = self.handle_of(s)?;
        let k = self.read_entry(h)?;
        let c = match &self.variables[k] {
            AmlVariable::ConstData(c) => *c,
            _ => {
                return Err(AmlError::InvalidOperation);
            },
        };
        let res = if up {
            eval_increment(&c)
        } else {
            eval_decrement(&c)
        };
        self.write_to_entry(h, res)?;
        Ok(Operand::Integer(res))
    }
}


impl Evaluator {
    /// Evaluates the term argument `t`: what `term_val` says it leaves in
    /// the store and gives.
    pub fn eval_term_arg(&mut self, t: &TermArg) -> (r: Result<Operand, AmlError>)
        requires
            old(self).wf(),
        ensures
            final(self).wf(),
            final(self).same_frame(old(self)),
            final(self).spec_store() == old(self).spec_frame().term_val(old(self).spec_store(), *t).0,
            agrees(r, old(self).spec_frame().term_val(old(self).spec_store(), *t).1),
        decreases *t, 0int,
    {
        match t {
            TermArg::ExpressionOpcode(e) => self.eval_expression(&**e),
            TermArg::DataObject(d) => match d {
                DataObject::ComputationalData(ComputationalData::ConstData(c)) => Ok(Operand::Integer(*c)),
                DataObject::ComputationalData(ComputationalData::ConstObj(b)) => Ok(
                    Operand::Integer(ConstData::Byte(*b)),
                ),
                DataObject::ComputationalData(ComputationalData::Revision) => Ok(
                    Operand::Integer(ConstData::Byte(AML_EVALUATOR_REVISION)),
                ),
                _ => Ok(Operand::Value),
            },
            TermArg::ArgObj(c) => {
                if (*c as usize) < NUMBER_OF_ARGUMENT_VARIABLES {
                    Ok(Operand::Variable(self.frame.argument_variables[*c as usize]))
                } else {
                    Err(AmlError::InvalidOperation)
                }
            },
            TermArg::LocalObj(c) => {
                if (*c as usize) < NUMBER_OF_LOCAL_VARIABLES {
                    Ok(Operand::Variable(self.frame.local_variables[*c as usize]))
                } else {
                    Err(AmlError::InvalidOperation)
                }
            },
        }
    }

    /// Evaluates `t` as an integer, as `int_val` says.
    pub fn eval_integer_expression(&mut self, t: &TermArg) -> (r: Result<ConstData, AmlError>)
        requires
            old(self).wf(),
        ensures
            final(self).wf(),
            final(self).same_frame(old(self)),
            final(self).spec_store() == old(self).spec_frame().int_val(old(self).spec_store(), *t).0,
            agrees(r, old(self).spec_frame().int_val(old(self).spec_store(), *t).1),
        decreases *t, 1int,
    {
        let o = match self.eval_term_arg(t) {
            Ok(v) => v,
            Err(e) => {
                return Err(e);
            },
        };
        self.operand_to_int(o)
    }

    /// Evaluates `t` as a condition, as `bool_val` says.
    pub fn eval_bool_expression(&mut self, t: &TermArg) -> (r: Result<bool, AmlError>)
        requires
            old(self).wf(),
        ensures
            final(self).wf(),
            final(self).same_frame(old(self)),
            final(self).spec_store() == old(self).spec_frame().bool_val(old(self).spec_store(), *t).0,
            agrees(r, old(self).spec_frame().bool_val(old(self).spec_store(), *t).1),
        decreases *t, 1int,
    {
        let o = match self.eval_term_arg(t) {
            Ok(v) => v,
            Err(e) => {
                return Err(e);
            },
        };
        match self.operand_to_int(o) {
            Ok(c) => Ok(c.to_int() != 0),
            Err(_) => Err(AmlError::InvalidType),
        }
    }

    fn compare_rest_exec(&mut self, kind: Comparison, l: ConstData, b: &TermArg) -> (r: Result<Operand, AmlError>)
        requires
            old(self).wf(),
        ensures
            final(self).wf(),
            final(self).same_frame(old(self)),
            final(self).spec_store() == old(self).spec_frame().compare_rest(old(self).spec_store(), kind, l, *b).0,
            agrees(r, old(self).spec_frame().compare_rest(old(self).spec_store(), kind, l, *b).1),
        decreases *b, 2int,
    {
        let right = match self.eval_integer_expression(b) {
            Ok(v) => v,
            Err(e) => {
                return Err(e);
            },
        };
        Ok(Operand::Integer(eval_compare(kind, &l, &right)))
    }
}


impl Evaluator {
    fn eval_binary(&mut self, e: &ExpressionOpcode) -> (r: Result<Operand, AmlError>)
        requires
            old(self).wf(),
        ensures
            final(self).wf(),
            final(self).same_frame(old(self)),
            final(self).spec_store() == old(self).spec_frame().binary_val(old(self).spec_store(), *e).0,
            agrees(r, old(self).spec_frame().binary_val(old(self).spec_store(), *e).1),
        decreases *e, 1int,
    {
        let b = match e {
            ExpressionOpcode::BinaryOperation(b) => b,
            _ => {
                return Err(AmlError::UnsupportedType);
            },
        };
        let left = match self.eval_integer_expression(&b.operand1) {
            Ok(v) => v,
            Err(e) => {
                return Err(e);
            },
        };
        let right = match self.eval_integer_expression(&b.operand2) {
            Ok(v) => v,
            Err(e) => {
                return Err(e);
            },
        };
        let lv = left.to_int();
        let rv = right.to_int();
        let op = b.opcode;
        let defined = if op == super::opcode::ADD_OP {
            lv <= usize::MAX - rv
        } else if op == super::opcode::MULTIPLY_OP {
            rv == 0 || lv <= usize::MAX / rv
        } else if op == super::opcode::MOD_OP {
            rv != 0
        } else if op == super::opcode::SHIFT_LEFT_OP || op == super::opcode::SHIFT_RIGHT_OP {
            rv < usize::BITS as usize
        } else if op == super::opcode::SUBTRACT_OP {
            lv >= rv
        } else {
            true
        };
        proof {
            if op == super::opcode::MULTIPLY_OP && rv != 0 {
                assert((lv <= usize::MAX / rv) == (lv * rv <= usize::MAX)) by (nonlinear_arith)
                    requires
                        rv > 0,
                ;
            }
        }
        if !defined {
            return Err(AmlError::InvalidOperation);
        }
        let c = match eval_binary_operation(op, &left, &right) {
            Ok(v) => v,
            Err(e) => {
                return Err(e);
            },
        };
        self.store_result_exec(&b.target, c)
    }

    fn eval_divide_expression(&mut self, e: &ExpressionOpcode) -> (r: Result<Operand, AmlError>)
        requires
            old(self).wf(),
        ensures
            final(self).wf(),
            final(self).same_frame(old(self)),
            final(self).spec_store() == old(self).spec_frame().divide_val(old(self).spec_store(), *e).0,
            agrees(r, old(self).spec_frame().divide_val(old(self).spec_store(), *e).1),
        decreases *e, 1int,
    {
        let d = match e {
            ExpressionOpcode::DefDivide(d) => d,
            _ => {
                return Err(AmlError::UnsupportedType);
            },
        };
        let dividend = match self.eval_integer_expression(&d.dividend) {
            Ok(v) => v,
            Err(e) => {
                return Err(e);
            },
        };
        let divisor = match self.eval_integer_expression(&d.divisor) {
            Ok(v) => v,
            Err(e) => {
                return Err(e);
            },
        };
        if divisor.to_int() == 0 {
            return Err(AmlError::InvalidOperation);
        }
        let (q, m) = eval_divide(&dividend, &divisor);
        if !d.quotient.is_null() {
            if let Err(e) = self.write_data_into_target(q, &d.quotient) {
                return Err(e);
            }
        }
        if !d.remainder.is_null() {
            if let Err(e) = self.write_data_into_target(m, &d.remainder) {
                return Err(e);
            }
        }
        Ok(Operand::Integer(q))
    }

    fn eval_logic(&mut self, e: &ExpressionOpcode) -> (r: Result<Operand, AmlError>)
        requires
            old(self).wf(),
        ensures
            final(self).wf(),
            final(self).same_frame(old(self)),
            final(self).spec_store() == old(self).spec_frame().logic_val(old(self).spec_store(), *e).0,
            agrees(r, old(self).spec_frame().logic_val(old(self).spec_store(), *e).1),
        decreases *e, 1int,
    {
        match e {
            ExpressionOpcode::DefLAnd(a, b) => {
                let first = match self.eval_bool_expression(a) {
                    Ok(v) => v,
                    Err(e) => {
                        return Err(e);
                    },
                };
                if !first {
                    return Ok(Operand::Integer(ConstData::Byte(0)));
                }
                let v = match self.eval_bool_expression(b) {
                    Ok(v) => v,
                    Err(e) => {
                        return Err(e);
                    },
                };
                Ok(Operand::Integer(bool_to_const(v)))
            },
            ExpressionOpcode::DefLOr(a, b) => {
                let first = match self.eval_bool_expression(a) {
                    Ok(v) => v,
                    Err(e) => {
                        return Err(e);
                    },
                };
                if first {
                    return Ok(Operand::Integer(ConstData::Byte(1)));
                }
                let v = match self.eval_bool_expression(b) {
                    Ok(v) => v,
                    Err(e) => {
                        return Err(e);
                    },
                };
                Ok(Operand::Integer(bool_to_const(v)))
            },
            _ => Err(AmlError::UnsupportedType),
        }
    }

    fn eval_comparison(&mut self, e: &ExpressionOpcode) -> (r: Result<Operand, AmlError>)
        requires
            old(self).wf(),
        ensures
            final(self).wf(),
            final(self).same_frame(old(self)),
            final(self).spec_store() == old(self).spec_frame().compare_val(old(self).spec_store(), *e).0,
            agrees(r, old(self).spec_frame().compare_val(old(self).spec_store(), *e).1),
        decreases *e, 1int,
    {
        let (kind, a, b) = match e {
            ExpressionOpcode::DefLEqual(a, b) => (Comparison::Equal, a, b),
            ExpressionOpcode::DefLGreater(a, b) => (Comparison::Greater, a, b),
            ExpressionOpcode::DefLGreaterEqual(a, b) => (Comparison::GreaterEqual, a, b),
            ExpressionOpcode::DefLLess(a, b) => (Comparison::Less, a, b),
            ExpressionOpcode::DefLLessEqual(a, b) => (Comparison::LessEqual, a, b),
            ExpressionOpcode::DefLNotEqual(a, b) => (Comparison::NotEqual, a, b),
            _ => {
                return Err(AmlError::UnsupportedType);
            },
        };
        let l = match self.eval_integer_expression(a) {
            Ok(v) => v,
            Err(e) => {
                return Err(e);
            },
        };
        self.compare_rest_exec(kind, l, b)
    }

    fn eval_unary(&mut self, e: &ExpressionOpcode) -> (r: Result<Operand, AmlError>)
        requires
            old(self).wf(),
        ensures
            final(self).wf(),
            final(self).same_frame(old(self)),
            final(self).spec_store() == old(self).spec_frame().unary_val(old(self).spec_store(), *e).0,
            agrees(r, old(self).spec_frame().unary_val(old(self).spec_store(), *e).1),
        decreases *e, 1int,
    {
        match e {
            ExpressionOpcode::DefLNot(a) => {
                let c = match self.eval_integer_expression(a) {
                    Ok(v) => v,
                    Err(e) => {
                        return Err(e);
                    },
                };
                Ok(Operand::Integer(eval_logical_not(&c)))
            },
            ExpressionOpcode::DefNot(a, t) => {
                let c = match self.eval_integer_expression(a) {
                    Ok(v) => v,
                    Err(e) => {
                        return Err(e);
                    },
                };
                let n = eval_not(&c);
                self.store_result_exec(t, n)
            },
            ExpressionOpcode::DefFindSetLeftBit(a, t) => {
                let c = match self.eval_integer_expression(a) {
                    Ok(v) => v,
                    Err(e) => {
                        return Err(e);
                    },
                };
                let n = find_set_left_bit(c.to_int());
                self.store_result_exec(t, n)
            },
            ExpressionOpcode::DefFindSetRightBit(a, t) => {
                let c = match self.eval_integer_expression(a) {
                    Ok(v) => v,
                    Err(e) => {
                        return Err(e);
                    },
                };
                let n = find_set_right_bit(c.to_int());
                self.store_result_exec(t, n)
            },
            ExpressionOpcode::DefStore(a, dst) => {
                let c = match self.eval_integer_expression(a) {
                    Ok(v) => v,
                    Err(e) => {
                        return Err(e);
                    },
                };
                if let Err(e) = self.write_super_name_exec(dst, c) {
                    return Err(e);
                }
                Ok(Operand::Integer(c))
            },
            ExpressionOpcode::DefToInteger(a, t) => {
                if let TermArg::DataObject(DataObject::ComputationalData(ComputationalData::StringData(text))) = a {
                    let v = AmlVariable::String(text.clone());
                    let c = match to_integer(&v) {
                        Ok(v) => v,
                        Err(e) => {
                            return Err(e);
                        },
                    };
                    return self.store_result_exec(t, c);
                }
                let o = match self.eval_term_arg(a) {
                    Ok(v) => v,
                    Err(e) => {
                        return Err(e);
                    },
                };
                let c = match o {
                    Operand::Integer(c) => c,
                    Operand::Variable(h) => {
                        let k = match self.read_entry(h) {
                            Ok(v) => v,
                            Err(e) => {
                                return Err(e);
                            },
                        };
                        match to_integer(&self.variables[k]) {
                            Ok(c) => c,
                            Err(e) => {
                                return Err(e);
                            },
                        }
                    },
                    Operand::Value => {
                        return Err(AmlError::UnsupportedType);
                    },
                };
                self.store_result_exec(t, c)
            },
            _ => Err(AmlError::UnsupportedType),
        }
    }

    fn eval_object(&mut self, e: &ExpressionOpcode) -> (r: Result<Operand, AmlError>)
        requires
            old(self).wf(),
        ensures
            final(self).wf(),
            final(self).same_frame(old(self)),
            final(self).spec_store() == old(self).spec_frame().object_val(old(self).spec_store(), *e).0,
            agrees(r, old(self).spec_frame().object_val(old(self).spec_store(), *e).1),
        decreases *e, 1int,
    {
        match e {
            ExpressionOpcode::DefIncrement(s) => self.step_variable_exec(s, true),
            ExpressionOpcode::DefDecrement(s) => self.step_variable_exec(s, false),
            ExpressionOpcode::DefAcquire(s, wait) => self.acquire_mutex(s, *wait),
            ExpressionOpcode::DefSizeOf(s) => {
                let h = match self.handle_of(s) {
                    Ok(v) => v,
                    Err(e) => {
                        return Err(e);
                    },
                };
                if h >= self.variables.len() {
                    return Err(AmlError::InvalidOperation);
                }
                let size = match &self.variables[h] {
                    AmlVariable::String(text) => text.as_str().len(),
                    AmlVariable::Buffer(b) => b.len(),
                    AmlVariable::Package(p) => p.len(),
                    AmlVariable::Reference(source, _) => {
                        let source = *source;
                        if source >= self.variables.len() {
                            return Err(AmlError::InvalidOperation);
                        }
                        if source == h {
                            return Err(AmlError::MutexError);
                        }
                        match self.variables[source].get_byte_size() {
                            Ok(n) => n,
                            Err(e) => {
                                return Err(e);
                            },
                        }
                    },
                    _ => {
                        return Err(AmlError::InvalidOperation);
                    },
                };
                Ok(Operand::Integer(ConstData::QWord(size as u64)))
            },
            ExpressionOpcode::DefCondRefOf(s, t) => {
                let h = match self.handle_of(s) {
                    Ok(h) => h,
                    Err(AmlError::InvalidName(_)) => {
                        return Ok(Operand::Integer(ConstData::Byte(0)));
                    },
                    Err(e) => {
                        return Err(e);
                    },
                };
                if t.is_null() {
                    return Ok(Operand::Integer(ConstData::Byte(1)));
                }
                let k = match self.read_entry(h) {
                    Ok(v) => v,
                    Err(e) => {
                        return Err(e);
                    },
                };
                let c = match &self.variables[k] {
                    AmlVariable::ConstData(c) => *c,
                    _ => {
                        return Err(AmlError::UnsupportedType);
                    },
                };
                if let Err(e) = self.write_data_into_target(c, t) {
                    return Err(e);
                }
                Ok(Operand::Integer(ConstData::Byte(1)))
            },
            ExpressionOpcode::ReferenceTypeOpcode(r) => match r {
                ReferenceTypeOpcode::DefRefOf(s) => {
                    let h = match self.handle_of(s) {
                        Ok(v) => v,
                        Err(e) => {
                            return Err(e);
                        },
                    };
                    Ok(Operand::Variable(h))
                },
                ReferenceTypeOpcode::DefDerefOf(a) => self.eval_term_arg(a),
                ReferenceTypeOpcode::DefIndex(_) => Err(AmlError::UnsupportedType),
                ReferenceTypeOpcode::UserTermObj => Err(AmlError::InvalidType),
            },
            ExpressionOpcode::MethodInvocation(m) => {
                let h = match self.search_aml_variable(m.get_name()) {
                    Ok(v) => v,
                    Err(e) => {
                        return Err(e);
                    },
                };
                if h < self.variables.len() {
                    match &self.variables[h] {
                        AmlVariable::Method(_) => {
                            return Err(AmlError::UnsupportedType);
                        },
                        AmlVariable::BuiltInMethod(_, _) => {
                            return Err(AmlError::UnsupportedType);
                        },
                        _ => {},
                    }
                }
                Ok(Operand::Variable(h))
            },
            _ => Err(AmlError::UnsupportedType),
        }
    }

    /// Evaluates the expression `e`: what `expr_val` says it leaves in the
    /// store and gives.
    pub fn eval_expression(&mut self, e: &ExpressionOpcode) -> (r: Result<Operand, AmlError>)
        requires
            old(self).wf(),
        ensures
            final(self).wf(),
            final(self).same_frame(old(self)),
            final(self).spec_store() == old(self).spec_frame().expr_val(old(self).spec_store(), *e).0,
            agrees(r, old(self).spec_frame().expr_val(old(self).spec_store(), *e).1),
        decreases *e, 2int,
    {
        match e {
            ExpressionOpcode::BinaryOperation(_) => self.eval_binary(e),
            ExpressionOpcode::DefDivide(_) => self.eval_divide_expression(e),
            ExpressionOpcode::DefLAnd(_, _) => self.eval_logic(e),
            ExpressionOpcode::DefLOr(_, _) => self.eval_logic(e),
            ExpressionOpcode::DefLEqual(_, _) => self.eval_comparison(e),
            ExpressionOpcode::DefLGreater(_, _) => self.eval_comparison(e),
            ExpressionOpcode::DefLGreaterEqual(_, _) => self.eval_comparison(e),
            ExpressionOpcode::DefLLess(_, _) => self.eval_comparison(e),
            ExpressionOpcode::DefLLessEqual(_, _) => self.eval_comparison(e),
            ExpressionOpcode::DefLNotEqual(_, _) => self.eval_comparison(e),
            ExpressionOpcode::DefLNot(_) => self.eval_unary(e),
            ExpressionOpcode::DefNot(_, _) => self.eval_unary(e),
            ExpressionOpcode::DefFindSetLeftBit(_, _) => self.eval_unary(e),
            ExpressionOpcode::DefFindSetRightBit(_, _) => self.eval_unary(e),
            ExpressionOpcode::DefStore(_, _) => self.eval_unary(e),
            ExpressionOpcode::DefToInteger(_, _) => self.eval_unary(e),
            ExpressionOpcode::DefAcquire(_, _) => self.eval_object(e),
            ExpressionOpcode::DefIncrement(_) => self.eval_object(e),
            ExpressionOpcode::DefDecrement(_) => self.eval_object(e),
            ExpressionOpcode::DefSizeOf(_) => self.eval_object(e),
            ExpressionOpcode::DefCondRefOf(_, _) => self.eval_object(e),
            ExpressionOpcode::ReferenceTypeOpcode(_) => self.eval_object(e),
            ExpressionOpcode::MethodInvocation(_) => self.eval_object(e),
            ExpressionOpcode::DefBuffer(_) => Ok(Operand::Value),
            ExpressionOpcode::DefPackage(_) => Ok(Operand::Value),
            ExpressionOpcode::DefVarPackage(_) => Ok(Operand::Value),
            ExpressionOpcode::DefProcessor => Err(AmlError::InvalidOperation),
            _ => Err(AmlError::UnsupportedType),
        }
    }
}


/// The term that reads the local or argument `n`.
pub open spec fn read_term(n: SimpleName) -> TermArg {
    match n {
        SimpleName::LocalObj(i) => TermArg::LocalObj(i),
        SimpleName::ArgObj(i) => TermArg::ArgObj(i),
        SimpleName::NameString(_) => TermArg::LocalObj(NUMBER_OF_LOCAL_VARIABLES as u8),
    }
}

/// A store `Store(c, n)` into a local or argument `n` that holds its value
/// succeeds, and reading `n` afterwards gives `c`.
pub proof fn lemma_store_then_read(frame: EvaluationFrame, store: Seq<AmlVariable>, n: SimpleName, c: ConstData)
    requires
        frame.wf(store.len()),
        n is LocalObj || n is ArgObj,
        frame.spec_handle(SuperName::SimpleName(n)) matches Ok(h) && store[h as int].spec_is_constant_data(),
    ensures
        ({
            let (s1, w) = frame.write_super_name(store, SuperName::SimpleName(n), c);
            &&& w == Ok::<(), AmlError>(())
            &&& frame.int_val(s1, read_term(n)).1 == Ok::<ConstData, AmlError>(c)
        }),
{
    reveal(write_entry);
    reveal(read_source);
    let h = frame.spec_handle(SuperName::SimpleName(n))->Ok_0;
    let s1 = store.update(h as int, AmlVariable::ConstData(c));
    assert(spec_plan_write(store, h, AmlVariable::ConstData(c)) == Ok::<Seq<FieldStep>, AmlError>(
        seq![FieldStep::StoreSet(h, FieldData::Given)],
    ));
    assert(write_entry(store, h, c) == (s1, Ok::<(), AmlError>(())));
    assert(read_source(s1, h) == Ok::<usize, AmlError>(h));
}

/// `Increment` (`up`) or `Decrement` of a local or argument `n` that holds
/// an integer `c`: the result is `c` one more or one less, and reading `n`
/// afterwards gives that result.
pub proof fn lemma_step_then_read(frame: EvaluationFrame, store: Seq<AmlVariable>, n: SimpleName, up: bool)
    requires
        frame.wf(store.len()),
        n is LocalObj || n is ArgObj,
        frame.spec_handle(SuperName::SimpleName(n)) matches Ok(h) && store[h as int] is ConstData,
    ensures
        ({
            let h = frame.spec_handle(SuperName::SimpleName(n))->Ok_0;
            let c = store[h as int]->ConstData_0;
            let v = c.spec_value() as usize;
            let n1 = if up {
                if v == usize::MAX { 0usize } else { (v + 1) as usize }
            } else {
                if v == 0 { usize::MAX } else { (v - 1) as usize }
            };
            let res = const_of(n1, c.spec_byte_size());
            let (s1, r) = frame.step_variable(store, SuperName::SimpleName(n), up);
            &&& r == Ok::<Operand, AmlError>(Operand::Integer(res))
            &&& frame.int_val(s1, read_term(n)).1 == Ok::<ConstData, AmlError>(res)
        }),
{
    reveal(write_entry);
    reveal(read_source);
    let h = frame.spec_handle(SuperName::SimpleName(n))->Ok_0;
    let c = store[h as int]->ConstData_0;
    let v = c.spec_value() as usize;
    let n1 = if up {
        if v == usize::MAX { 0usize } else { (v + 1) as usize }
    } else {
        if v == 0 { usize::MAX } else { (v - 1) as usize }
    };
    let res = const_of(n1, c.spec_byte_size());
    let s1 = store.update(h as int, AmlVariable::ConstData(res));
    assert(read_source(store, h) == Ok::<usize, AmlError>(h));
    assert(spec_plan_write(store, h, AmlVariable::ConstData(res)) == Ok::<Seq<FieldStep>, AmlError>(
        seq![FieldStep::StoreSet(h, FieldData::Given)],
    ));
    assert(write_entry(store, h, res) == (s1, Ok::<(), AmlError>(())));
    assert(read_source(s1, h) == Ok::<usize, AmlError>(h));
}


impl Evaluator {
    /// `Acquire` of the mutex `s` names, as `acquire_val` says.
    pub fn acquire_mutex(&mut self, s: &SuperName, wait: u16) -> (r: Result<Operand, AmlError>)
        requires
            old(self).wf(),
        ensures
            final(self).wf(),
            final(self).same_frame(old(self)),
            final(self).spec_store() == old(self).spec_frame().acquire_val(old(self).spec_store(), *s, wait).0,
            agrees(r, old(self).spec_frame().acquire_val(old(self).spec_store(), *s, wait).1),
    {
        let h = match self.handle_of(s) {
            Ok(h) => h,
            Err(e) => {
                return Err(e);
            },
        };
        let k = match self.read_entry(h) {
            Ok(k) => k,
            Err(e) => {
                return Err(e);
            },
        };
        let (level, sync) = match &self.variables[k] {
            AmlVariable::Mutex(level, sync) => (*level, *sync),
            _ => {
                return Err(AmlError::InvalidOperation);
            },
        };
        if level <= sync && level < 255 {
            self.variables.set(k, AmlVariable::Mutex(level + 1, sync));
            Ok(Operand::Integer(ConstData::Byte(0)))
        } else if wait == 0xFFFF {
            Err(AmlError::MutexError)
        } else {
            Ok(Operand::Integer(ConstData::Byte(1)))
        }
    }

    /// `Release` of the mutex `s` names, as `release_val` says.
    pub fn release_mutex(&mut self, s: &SuperName) -> (r: Result<(), AmlError>)
        requires
            old(self).wf(),
        ensures
            final(self).wf(),
            final(self).same_frame(old(self)),
            final(self).spec_store() == old(self).spec_frame().release_val(old(self).spec_store(), *s).0,
            agrees(r, old(self).spec_frame().release_val(old(self).spec_store(), *s).1),
    {
        let h = match self.handle_of(s) {
            Ok(h) => h,
            Err(e) => {
                return Err(e);
            },
        };
        let k = match self.read_entry(h) {
            Ok(k) => k,
            Err(e) => {
                return Err(e);
            },
        };
        let (level, sync) = match &self.variables[k] {
            AmlVariable::Mutex(level, sync) => (*level, *sync),
            _ => {
                return Err(AmlError::InvalidOperation);
            },
        };
        let lowered: u8 = if level == 0 {
            255
        } else {
            level - 1
        };
        self.variables.set(k, AmlVariable::Mutex(lowered, sync));
        Ok(())
    }

    /// Makes the locals uninitialized and gives the arguments the values
    /// `arguments` (the first seven of them; the others stay
    /// uninitialized).
    pub fn reset_frame(&mut self, arguments: Vec<AmlVariable>)
        requires
            old(self).wf(),
        ensures
            final(self).wf(),
            final(self).same_frame(old(self)),
            final(self).spec_store() == old(self).spec_frame().reset_store(old(self).spec_store(), arguments@),
            forall|i: int|
                0 <= i < NUMBER_OF_LOCAL_VARIABLES ==> #[trigger] final(self).spec_store()[old(
                    self,
                ).spec_frame().spec_locals()[i] as int] is Uninitialized,
    {
        let ghost store0 = self.spec_store();
        let ghost frame = self.spec_frame();
        let ghost args0 = arguments@;
        let mut i: usize = 0;
        while i < NUMBER_OF_LOCAL_VARIABLES
            invariant
                self.wf(),
                self.same_frame(old(self)),
                frame == old(self).spec_frame(),
                store0 == old(self).spec_store(),
                i <= NUMBER_OF_LOCAL_VARIABLES,
                self.spec_store() == clear_entries(store0, frame.spec_locals(), i as nat),
            decreases NUMBER_OF_LOCAL_VARIABLES - i,
        {
            let h = self.frame.local_variables[i];
            self.variables.set(h, AmlVariable::Uninitialized);
            i = i + 1;
        }
        let ghost cleared_locals = self.spec_store();
        let mut j: usize = 0;
        while j < NUMBER_OF_ARGUMENT_VARIABLES
            invariant
                self.wf(),
                self.same_frame(old(self)),
                frame == old(self).spec_frame(),
                j <= NUMBER_OF_ARGUMENT_VARIABLES,
                self.spec_store() == clear_entries(cleared_locals, frame.spec_args(), j as nat),
            decreases NUMBER_OF_ARGUMENT_VARIABLES - j,
        {
            let h = self.frame.argument_variables[j];
            self.variables.set(h, AmlVariable::Uninitialized);
            j = j + 1;
        }
        let ghost cleared = self.spec_store();
        let mut arguments = arguments;
        let mut k: usize = 0;
        while k < NUMBER_OF_ARGUMENT_VARIABLES && arguments.len() > 0
            invariant
                self.wf(),
                self.same_frame(old(self)),
                frame == old(self).spec_frame(),
                k <= NUMBER_OF_ARGUMENT_VARIABLES,
                k <= args0.len(),
                arguments@ == args0.subrange(k as int, args0.len() as int),
                self.spec_store() == fill_entries(cleared, frame.spec_args(), args0, k as nat),
            decreases arguments.len(),
        {
            let v = arguments.remove(0);
            assert(v == args0[k as int]);
            let h = self.frame.argument_variables[k];
            self.variables.set(h, v);
            k = k + 1;
            assert(arguments@ =~= args0.subrange(k as int, args0.len() as int));
        }
        proof {
            assert(self.spec_store() == frame.reset_store(store0, args0));
            assert forall|i: int| 0 <= i < NUMBER_OF_LOCAL_VARIABLES implies #[trigger] self.spec_store()[frame.spec_locals()[i] as int] is Uninitialized by {
                let x = frame.spec_locals()[i] as int;
                let c1 = clear_entries(store0, frame.spec_locals(), frame.spec_locals().len());
                lemma_clear_entries(store0, frame.spec_locals(), frame.spec_locals().len(), x);
                assert(frame.spec_locals()[i] == x);
                let c2 = clear_entries(c1, frame.spec_args(), frame.spec_args().len());
                lemma_clear_entries(c1, frame.spec_args(), frame.spec_args().len(), x);
                let n = if args0.len() < frame.spec_args().len() { args0.len() } else { frame.spec_args().len() };
                lemma_fill_entries(c2, frame.spec_args(), args0, n, x);
            }
        }
    }

    /// The value an operand stands for: an integer, or a copy of what a
    /// read of its variable reaches where that holds its value; another
    /// kind of value is not supported.
    pub fn value_of(&self, o: Operand) -> (r: Result<AmlVariable, AmlError>)
        ensures
            o matches Operand::Integer(c) ==> r == Ok::<AmlVariable, AmlError>(AmlVariable::ConstData(c)),
            o matches Operand::Variable(h) ==> match read_source(self.spec_store(), h) {
                Err(e) => r == Err::<AmlVariable, AmlError>(e),
                Ok(k) => if self.spec_store()[k as int].spec_is_constant_data() {
                    r matches Ok(v) && self.spec_store()[k as int].same_value(&v)
                } else {
                    r == Err::<AmlVariable, AmlError>(AmlError::InvalidOperation)
                },
            },
            o is Value ==> r == Err::<AmlVariable, AmlError>(AmlError::UnsupportedType),
    {
        match o {
            Operand::Integer(c) => Ok(AmlVariable::ConstData(c)),
            Operand::Variable(h) => {
                let k = match self.read_entry(h) {
                    Ok(k) => k,
                    Err(e) => {
                        return Err(e);
                    },
                };
                let v = &self.variables[k];
                if v.is_constant_data() {
                    v.get_constant_data()
                } else {
                    Err(AmlError::InvalidOperation)
                }
            },
            Operand::Value => Err(AmlError::UnsupportedType),
        }
    }
}


impl Evaluator {
    /// Adds `value` to the store as the object `name`: its handle, the first
    /// one past the store as it was.
    pub fn add_variable(&mut self, name: NameString, value: AmlVariable) -> (r: usize)
        requires
            old(self).wf(),
        ensures
            final(self).wf(),
            final(self).grown_from(old(self)),
            r == old(self).spec_store().len(),
            final(self).spec_store() == old(self).spec_store().push(value),
            final(self).spec_frame().spec_namespace().spec_entries() == old(self).spec_frame().spec_namespace().spec_entries().push(
                (name, r),
            ),
    {
        let h = self.variables.len();
        self.variables.push(value);
        self.frame.namespace.add(name, h);
        h
    }
}

} // verus!
