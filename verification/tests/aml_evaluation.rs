use lib::aml::aml_variable::{AmlByteFiled, AmlVariable};
use lib::aml::data_object::{ComputationalData, ConstData, DataObject};
use lib::aml::expression_evaluator::{Evaluator, Operand};
use lib::aml::expression_opcode::{BinaryOperation, Divide, ExpressionOpcode};
use lib::aml::method_table::MethodTable;
use lib::aml::name_object::NameString;
use lib::aml::opcode;
use lib::aml::stream::AmlStream;
use lib::aml::super_name::{SimpleName, SuperName, Target};
use lib::aml::term_object::TermArg;
use lib::aml::AmlError;

fn byte(v: u8) -> TermArg {
    TermArg::DataObject(DataObject::ComputationalData(ComputationalData::ConstData(ConstData::Byte(v))))
}

fn local(i: u8) -> SuperName {
    SuperName::SimpleName(SimpleName::LocalObj(i))
}

fn expr(e: ExpressionOpcode) -> TermArg {
    TermArg::ExpressionOpcode(Box::new(e))
}

/// An evaluator whose store holds `FOO_` (the integer 0x10, handle 0),
/// `BAR_` (uninitialized, handle 1) and `STR_` (the string "ABC", handle
/// 2), all in the root scope.
fn evaluator() -> Evaluator {
    let variables = vec![
        AmlVariable::ConstData(ConstData::Byte(0x10)),
        AmlVariable::Uninitialized,
        AmlVariable::String(String::from("ABC")),
    ];
    let mut namespace = MethodTable::new();
    namespace.add(NameString::from_string("\\FOO_").unwrap(), 0);
    namespace.add(NameString::from_string("\\BAR_").unwrap(), 1);
    namespace.add(NameString::from_string("\\STR_").unwrap(), 2);
    Evaluator::new(variables, namespace, NameString::root())
}

#[test]
fn new_evaluator_has_uninitialized_locals() {
    let mut ev = evaluator();
    assert!(matches!(ev.get_variable(3), Some(AmlVariable::Uninitialized)));
    assert!(ev.get_variable(17).is_none());
    assert!(matches!(ev.get_variable(16), Some(AmlVariable::Uninitialized)));
    assert!(matches!(ev.eval_integer_expression(&TermArg::LocalObj(0)), Err(AmlError::InvalidType)));
    assert!(ev.get_current_scope().is_root());
}

#[test]
fn store_then_read_local() {
    let mut ev = evaluator();
    let store = ExpressionOpcode::DefStore(byte(5), local(2));
    assert!(matches!(ev.eval_expression(&store), Ok(Operand::Integer(ConstData::Byte(5)))));
    assert_eq!(ev.eval_integer_expression(&TermArg::LocalObj(2)).unwrap(), ConstData::Byte(5));
    assert!(ev.eval_bool_expression(&TermArg::LocalObj(2)).unwrap());
}

#[test]
fn write_data_into_targets() {
    let mut ev = evaluator();
    ev.write_data_into_target(ConstData::Word(0x1234), &Target::SuperName(SuperName::SimpleName(SimpleName::ArgObj(3))))
        .unwrap();
    assert_eq!(ev.eval_integer_expression(&TermArg::ArgObj(3)).unwrap(), ConstData::Word(0x1234));
    assert!(matches!(ev.write_data_into_target(ConstData::Byte(1), &Target::Null), Err(AmlError::InvalidOperation)));
    assert!(ev.write_data_into_target(ConstData::Byte(1), &Target::SuperName(SuperName::DebugObj)).is_ok());
    assert!(matches!(
        ev.write_data_into_target(ConstData::Byte(1), &Target::SuperName(local(7))),
        Err(AmlError::InvalidOperation)
    ));
    let name = NameString::from_string("\\BAR_").unwrap();
    ev.write_data_into_target(
        ConstData::DWord(7),
        &Target::SuperName(SuperName::SimpleName(SimpleName::NameString(name))),
    )
    .unwrap();
    assert!(matches!(ev.get_variable(1), Some(AmlVariable::ConstData(ConstData::DWord(7)))));
}

#[test]
fn binary_operation_stores_into_target() {
    let mut ev = evaluator();
    let add = ExpressionOpcode::BinaryOperation(BinaryOperation {
        opcode: opcode::ADD_OP,
        operand1: byte(0xF0),
        operand2: TermArg::DataObject(DataObject::ComputationalData(ComputationalData::ConstData(ConstData::Word(
            0x0100,
        )))),
        target: Target::SuperName(local(0)),
    });
    assert!(matches!(ev.eval_expression(&add), Ok(Operand::Integer(ConstData::Word(0x01F0)))));
    assert_eq!(ev.eval_integer_expression(&TermArg::LocalObj(0)).unwrap(), ConstData::Word(0x01F0));
    let shift = BinaryOperation {
        opcode: opcode::SHIFT_LEFT_OP,
        operand1: TermArg::LocalObj(0),
        operand2: byte(4),
        target: Target::Null,
    };
    assert_eq!(ev.eval_integer_expression(&expr(ExpressionOpcode::BinaryOperation(shift))).unwrap(), ConstData::Word(0x1F00));
}

#[test]
fn binary_operation_refuses_overflow_and_unknown_opcodes() {
    let mut ev = evaluator();
    let sub = BinaryOperation { opcode: opcode::SUBTRACT_OP, operand1: byte(1), operand2: byte(2), target: Target::Null };
    assert!(matches!(ev.eval_expression(&ExpressionOpcode::BinaryOperation(sub)), Err(AmlError::InvalidOperation)));
    let unknown = BinaryOperation { opcode: 0x01, operand1: byte(1), operand2: byte(2), target: Target::Null };
    assert!(matches!(ev.eval_expression(&ExpressionOpcode::BinaryOperation(unknown)), Err(AmlError::InvalidOperation)));
    let bad_operand = BinaryOperation {
        opcode: opcode::ADD_OP,
        operand1: TermArg::LocalObj(1),
        operand2: byte(2),
        target: Target::Null,
    };
    assert!(matches!(ev.eval_expression(&ExpressionOpcode::BinaryOperation(bad_operand)), Err(AmlError::InvalidType)));
}

#[test]
fn divide_writes_quotient_and_remainder() {
    let mut ev = evaluator();
    let d = Divide { dividend: byte(17), divisor: byte(5), remainder: Target::SuperName(local(1)), quotient: Target::SuperName(local(2)) };
    assert!(matches!(ev.eval_expression(&ExpressionOpcode::DefDivide(d)), Ok(Operand::Integer(ConstData::Byte(3)))));
    assert_eq!(ev.eval_integer_expression(&TermArg::LocalObj(2)).unwrap(), ConstData::Byte(3));
    assert_eq!(ev.eval_integer_expression(&TermArg::LocalObj(1)).unwrap(), ConstData::Byte(2));
    let by_zero = Divide { dividend: byte(1), divisor: byte(0), remainder: Target::Null, quotient: Target::Null };
    assert!(matches!(ev.eval_expression(&ExpressionOpcode::DefDivide(by_zero)), Err(AmlError::InvalidOperation)));
}

#[test]
fn logical_operators_short_circuit() {
    let mut ev = evaluator();
    ev.write_data_into_target(ConstData::Byte(1), &Target::SuperName(local(0))).unwrap();
    let and = ExpressionOpcode::DefLAnd(byte(0), expr(ExpressionOpcode::DefIncrement(local(0))));
    assert!(matches!(ev.eval_expression(&and), Ok(Operand::Integer(ConstData::Byte(0)))));
    assert_eq!(ev.eval_integer_expression(&TermArg::LocalObj(0)).unwrap(), ConstData::Byte(1));
    let or = ExpressionOpcode::DefLOr(byte(0), expr(ExpressionOpcode::DefIncrement(local(0))));
    assert!(matches!(ev.eval_expression(&or), Ok(Operand::Integer(ConstData::Byte(1)))));
    assert_eq!(ev.eval_integer_expression(&TermArg::LocalObj(0)).unwrap(), ConstData::Byte(2));
    let not = ExpressionOpcode::DefLNot(byte(0));
    assert!(matches!(ev.eval_expression(&not), Ok(Operand::Integer(ConstData::Byte(1)))));
    let string_condition = ExpressionOpcode::DefLAnd(
        TermArg::DataObject(DataObject::ComputationalData(ComputationalData::StringData(String::from("x")))),
        byte(1),
    );
    assert!(matches!(ev.eval_expression(&string_condition), Err(AmlError::InvalidType)));
}

#[test]
fn comparisons() {
    let mut ev = evaluator();
    assert!(matches!(ev.eval_expression(&ExpressionOpcode::DefLLess(byte(1), byte(2))), Ok(Operand::Integer(ConstData::Byte(1)))));
    assert!(matches!(ev.eval_expression(&ExpressionOpcode::DefLGreater(byte(1), byte(2))), Ok(Operand::Integer(ConstData::Byte(0)))));
    assert!(matches!(ev.eval_expression(&ExpressionOpcode::DefLEqual(byte(2), byte(2))), Ok(Operand::Integer(ConstData::Byte(1)))));
    assert!(matches!(ev.eval_expression(&ExpressionOpcode::DefLNotEqual(byte(2), byte(2))), Ok(Operand::Integer(ConstData::Byte(0)))));
    assert!(matches!(ev.eval_expression(&ExpressionOpcode::DefLGreaterEqual(byte(2), byte(2))), Ok(Operand::Integer(ConstData::Byte(1)))));
    assert!(matches!(ev.eval_expression(&ExpressionOpcode::DefLLessEqual(byte(3), byte(2))), Ok(Operand::Integer(ConstData::Byte(0)))));
}

#[test]
fn increment_and_decrement_write_back() {
    let mut ev = evaluator();
    ev.write_data_into_target(ConstData::Byte(0xFF), &Target::SuperName(local(3))).unwrap();
    assert!(matches!(ev.eval_expression(&ExpressionOpcode::DefIncrement(local(3))), Ok(Operand::Integer(ConstData::Word(0x100)))));
    assert_eq!(ev.eval_integer_expression(&TermArg::LocalObj(3)).unwrap(), ConstData::Word(0x100));
    assert!(matches!(ev.eval_expression(&ExpressionOpcode::DefDecrement(local(3))), Ok(Operand::Integer(ConstData::Word(0xFF)))));
    let foo = SuperName::SimpleName(SimpleName::NameString(NameString::from_string("\\FOO_").unwrap()));
    assert!(matches!(ev.eval_expression(&ExpressionOpcode::DefDecrement(foo)), Ok(Operand::Integer(ConstData::Byte(0x0F)))));
    assert!(matches!(ev.get_variable(0), Some(AmlVariable::ConstData(ConstData::Byte(0x0F)))));
    let text = SuperName::SimpleName(SimpleName::NameString(NameString::from_string("\\STR_").unwrap()));
    assert!(matches!(ev.eval_expression(&ExpressionOpcode::DefIncrement(text)), Err(AmlError::InvalidOperation)));
}

#[test]
fn unary_operators_with_targets() {
    let mut ev = evaluator();
    assert!(matches!(
        ev.eval_expression(&ExpressionOpcode::DefNot(byte(0x0F), Target::SuperName(local(4)))),
        Ok(Operand::Integer(ConstData::Byte(0xF0)))
    ));
    assert_eq!(ev.eval_integer_expression(&TermArg::LocalObj(4)).unwrap(), ConstData::Byte(0xF0));
    assert!(matches!(
        ev.eval_expression(&ExpressionOpcode::DefFindSetLeftBit(byte(0x10), Target::Null)),
        Ok(Operand::Integer(ConstData::Byte(5)))
    ));
    assert!(matches!(
        ev.eval_expression(&ExpressionOpcode::DefFindSetRightBit(byte(0x18), Target::Null)),
        Ok(Operand::Integer(ConstData::Byte(4)))
    ));
}

#[test]
fn to_integer_reads_strings() {
    let mut ev = evaluator();
    let literal = TermArg::DataObject(DataObject::ComputationalData(ComputationalData::StringData(String::from("0x1f "))));
    assert!(matches!(
        ev.eval_expression(&ExpressionOpcode::DefToInteger(literal, Target::SuperName(local(5)))),
        Ok(Operand::Integer(ConstData::QWord(0x1F)))
    ));
    assert_eq!(ev.eval_integer_expression(&TermArg::LocalObj(5)).unwrap(), ConstData::QWord(0x1F));
    let unterminated =
        TermArg::DataObject(DataObject::ComputationalData(ComputationalData::StringData(String::from("0x1f"))));
    assert!(matches!(
        ev.eval_expression(&ExpressionOpcode::DefToInteger(unterminated, Target::Null)),
        Err(AmlError::AccessOutOfRange)
    ));
    assert!(matches!(
        ev.eval_expression(&ExpressionOpcode::DefToInteger(byte(9), Target::Null)),
        Ok(Operand::Integer(ConstData::Byte(9)))
    ));
}

#[test]
fn size_of_and_cond_ref_of() {
    let mut ev = evaluator();
    let text = SuperName::SimpleName(SimpleName::NameString(NameString::from_string("\\STR_").unwrap()));
    assert!(matches!(ev.eval_expression(&ExpressionOpcode::DefSizeOf(text)), Ok(Operand::Integer(ConstData::QWord(3)))));
    let missing = SuperName::SimpleName(SimpleName::NameString(NameString::from_string("\\NONE").unwrap()));
    assert!(matches!(
        ev.eval_expression(&ExpressionOpcode::DefCondRefOf(missing, Target::Null)),
        Ok(Operand::Integer(ConstData::Byte(0)))
    ));
    let foo = SuperName::SimpleName(SimpleName::NameString(NameString::from_string("\\FOO_").unwrap()));
    assert!(matches!(
        ev.eval_expression(&ExpressionOpcode::DefCondRefOf(foo, Target::SuperName(local(6)))),
        Ok(Operand::Integer(ConstData::Byte(1)))
    ));
    assert_eq!(ev.eval_integer_expression(&TermArg::LocalObj(6)).unwrap(), ConstData::Byte(0x10));
}

#[test]
fn names_resolve_through_the_namespace() {
    let mut ev = evaluator();
    assert_eq!(ev.search_aml_variable(&NameString::from_string("\\STR_").unwrap()).unwrap(), 2);
    assert!(matches!(ev.search_aml_variable(&NameString::from_string("\\NONE").unwrap()), Err(AmlError::InvalidName(_))));
    assert_eq!(ev.find_method_argument_count(&NameString::from_string("\\FOO_").unwrap()).unwrap(), 0);
    let mut table = MethodTable::new();
    table.add(NameString::from_string("\\FOO_").unwrap(), 0);
    // Add (FOO_, One, Local0)
    let mut stream = AmlStream::new(vec![opcode::ADD_OP, b'F', b'O', b'O', b'_', 0x01, 0x60]);
    let term = TermArg::try_parse(&mut stream, &NameString::root(), &table).unwrap();
    assert!(matches!(ev.eval_term_arg(&term), Ok(Operand::Integer(ConstData::Byte(0x11)))));
    assert_eq!(ev.eval_integer_expression(&TermArg::LocalObj(0)).unwrap(), ConstData::Byte(0x11));
}

#[test]
fn unsupported_and_invalid_terms() {
    let mut ev = evaluator();
    assert!(matches!(ev.eval_term_arg(&TermArg::LocalObj(7)), Err(AmlError::InvalidOperation)));
    assert!(matches!(ev.eval_expression(&ExpressionOpcode::DefTimer), Err(AmlError::UnsupportedType)));
    assert!(matches!(ev.eval_expression(&ExpressionOpcode::DefProcessor), Err(AmlError::InvalidOperation)));
    let string = TermArg::DataObject(DataObject::ComputationalData(ComputationalData::StringData(String::from("x"))));
    assert!(matches!(ev.eval_term_arg(&string), Ok(Operand::Value)));
    assert!(matches!(ev.eval_integer_expression(&string), Err(AmlError::InvalidType)));
}

use lib::aml::data_object::PkgLength;
use lib::aml::named_object::{FieldElement, NamedObject};
use lib::aml::named_object_evaluation::{locate_field, FieldLocation};

fn named_object(bytes: Vec<u8>) -> NamedObject {
    let mut stream = AmlStream::new(bytes);
    NamedObject::try_parse(&mut stream, &NameString::root(), &MethodTable::new()).unwrap()
}

fn name_field(name: &str, bits: usize) -> FieldElement {
    FieldElement::NameField(NameString::from_string(name).unwrap(), PkgLength { length: bits, actual_length: 0 })
}

#[test]
fn locate_field_skips_earlier_elements() {
    let elements = vec![
        name_field("AAAA", 8),
        FieldElement::ReservedField(PkgLength { length: 4, actual_length: 0 }),
        FieldElement::AccessField(0x03, 0),
        name_field("BBBB", 2),
    ];
    let found = locate_field(&elements, &NameString::from_string("BBBB").unwrap(), 1).unwrap();
    assert_eq!(found, FieldLocation { bit_index: 12, num_of_bits: 2, access_align: 4 });
    let first = locate_field(&elements, &NameString::from_string("AAAA").unwrap(), 1).unwrap();
    assert_eq!(first, FieldLocation { bit_index: 0, num_of_bits: 8, access_align: 1 });
    assert!(matches!(
        locate_field(&elements, &NameString::from_string("CCCC").unwrap(), 1),
        Err(AmlError::AccessOutOfRange)
    ));
}

#[test]
fn operation_regions_and_mutexes() {
    let mut ev = evaluator();
    // OperationRegion (GPIO, SystemIO, 0x1000, 0x10)
    let region = named_object(vec![0x5B, 0x80, b'G', b'P', b'I', b'O', 0x01, 0x0B, 0x00, 0x10, 0x0A, 0x10]);
    let name = NameString::from_string("\\GPIO").unwrap();
    assert!(matches!(ev.eval_named_object(&name, region), Ok(AmlVariable::Io(0x1000, 0x10))));
    // OperationRegion (MEM0, SystemMemory, 0xFED0, 0x40)
    let memory = named_object(vec![0x5B, 0x80, b'M', b'E', b'M', b'0', 0x00, 0x0B, 0xD0, 0xFE, 0x0A, 0x40]);
    assert!(matches!(ev.eval_named_object(&name, memory), Ok(AmlVariable::MMIo(0xFED0, 0x40))));
    // OperationRegion (CMOS, SystemCMOS, 0, 1)
    let cmos = named_object(vec![0x5B, 0x80, b'C', b'M', b'O', b'S', 0x05, 0x00, 0x01]);
    assert!(matches!(ev.eval_named_object(&name, cmos), Err(AmlError::UnsupportedType)));
    // Mutex (MUT0, 3)
    let mutex = named_object(vec![0x5B, 0x01, b'M', b'U', b'T', b'0', 0x03]);
    assert!(matches!(ev.eval_named_object(&name, mutex), Ok(AmlVariable::Mutex(0, 3))));
}

#[test]
fn fields_of_a_region() {
    let variables = vec![AmlVariable::Io(0x1000, 0x10)];
    let mut namespace = MethodTable::new();
    namespace.add(NameString::from_string("\\GPIO").unwrap(), 0);
    let mut ev = Evaluator::new(variables, namespace, NameString::root());
    // Field (GPIO, ByteAcc | Lock) { AAAA, 8, BBBB, 4 }
    let field = vec![
        0x5B, 0x81, 0x10, b'G', b'P', b'I', b'O', 0x11, b'A', b'A', b'A', b'A', 0x08, b'B', b'B', b'B', b'B', 0x04,
    ];
    let bbbb = NameString::from_string("\\BBBB").unwrap();
    match ev.eval_named_object(&bbbb, named_object(field.clone())) {
        Ok(AmlVariable::BitField(b)) => {
            assert_eq!(b.source, 0);
            assert_eq!(b.bit_index, 8);
            assert_eq!(b.num_of_bits, 4);
            assert_eq!(b.access_align, 1);
            assert!(b.should_lock_global_lock);
        },
        _ => panic!("expected a bit field"),
    }
    let missing = NameString::from_string("\\CCCC").unwrap();
    assert!(matches!(ev.eval_named_object(&missing, named_object(field)), Err(AmlError::AccessOutOfRange)));
    // Field (NONE, ...) names a region the namespace does not have.
    let orphan = vec![0x5B, 0x81, 0x0B, b'N', b'O', b'N', b'E', 0x01, b'A', b'A', b'A', b'A', 0x08];
    assert!(matches!(ev.eval_named_object(&bbbb, named_object(orphan)), Err(AmlError::InvalidName(_))));
}

#[test]
fn pci_regions_take_bus_device_and_function_from_their_scope() {
    let scope = NameString::from_string("\\_SB_.PCI0").unwrap();
    // OperationRegion (CFG0, PCI_Config, 0x40, 0x10)
    let bytes = vec![0x5B, 0x80, b'C', b'F', b'G', b'0', 0x02, 0x0A, 0x40, 0x0A, 0x10];
    let region = || {
        let mut stream = AmlStream::new(bytes.clone());
        NamedObject::try_parse(&mut stream, &scope, &MethodTable::new()).unwrap()
    };
    let name = NameString::from_string("\\_SB_.PCI0.CFG0").unwrap();
    let adr = NameString::from_string("\\_SB_.PCI0._ADR").unwrap();
    let bbn = NameString::from_string("\\_SB_.PCI0._BBN").unwrap();

    let mut namespace = MethodTable::new();
    namespace.add(adr.copy(), 0);
    namespace.add(bbn.copy(), 1);
    let variables = vec![
        AmlVariable::ConstData(ConstData::DWord(0x0002_0001)),
        AmlVariable::ConstData(ConstData::Word(0x0103)),
    ];
    let mut ev = Evaluator::new(variables, namespace, scope.copy());
    match ev.eval_named_object(&name, region()) {
        Ok(AmlVariable::PciConfig(c)) => {
            assert_eq!((c.bus, c.device, c.function), (0x03, 2, 1));
            assert_eq!((c.offset, c.length), (0x40, 0x10));
        },
        _ => panic!("expected a PCI region"),
    }

    // Without `_BBN` the bus is 0.
    let mut namespace = MethodTable::new();
    namespace.add(adr.copy(), 0);
    let variables = vec![AmlVariable::ConstData(ConstData::DWord(0x001F_0003))];
    let mut ev = Evaluator::new(variables, namespace, scope.copy());
    match ev.eval_named_object(&name, region()) {
        Ok(AmlVariable::PciConfig(c)) => assert_eq!((c.bus, c.device, c.function), (0, 0x1F, 3)),
        _ => panic!("expected a PCI region"),
    }

    // Without `_ADR` the region cannot be placed.
    let mut ev = Evaluator::new(Vec::new(), MethodTable::new(), scope.copy());
    assert!(matches!(ev.eval_named_object(&name, region()), Err(AmlError::InvalidName(_))));
}

use lib::aml::method_evaluation::Wait;

fn method(bytes: Vec<u8>) -> lib::aml::named_object::Method {
    match named_object(bytes) {
        NamedObject::DefMethod(m) => m,
        _ => panic!("expected a method"),
    }
}

#[test]
fn methods_run_loops_branches_and_waits() {
    let mut ev = evaluator();
    // Method (TEST, 1) {
    //     Store (Zero, Local0)
    //     While (LLess (Local0, Arg0)) { Increment (Local0) }
    //     If (LEqual (Local0, 3)) { Sleep (10) }
    //     Return (Local0)
    // }
    let m = method(vec![
        0x14, 0x1C, b'T', b'E', b'S', b'T', 0x01, 0x70, 0x00, 0x60, 0xA2, 0x06, 0x95, 0x60, 0x68, 0x75, 0x60, 0xA0,
        0x09, 0x93, 0x60, 0x0A, 0x03, 0x5B, 0x22, 0x0A, 0x0A, 0xA4, 0x60,
    ]);
    let table = MethodTable::new();
    let mut waits: Vec<Wait> = Vec::new();
    let result = ev.eval_method(&m, vec![AmlVariable::ConstData(ConstData::Byte(3))], &table, &mut waits);
    assert!(matches!(result, Ok(AmlVariable::ConstData(ConstData::Byte(3)))));
    assert_eq!(waits, vec![Wait::Sleep(10)]);
    let mut waits: Vec<Wait> = Vec::new();
    let result = ev.eval_method(&m, vec![AmlVariable::ConstData(ConstData::Byte(1))], &table, &mut waits);
    assert!(matches!(result, Ok(AmlVariable::ConstData(ConstData::Byte(1)))));
    assert!(waits.is_empty());
}

#[test]
fn methods_check_their_arguments() {
    let mut ev = evaluator();
    // Method (_STA, 0) { Return (0x0F) }
    let sta = method(vec![0x14, 0x09, b'_', b'S', b'T', b'A', 0x00, 0xA4, 0x0A, 0x0F]);
    let table = MethodTable::new();
    let mut waits: Vec<Wait> = Vec::new();
    assert!(matches!(ev.eval_method(&sta, Vec::new(), &table, &mut waits), Ok(AmlVariable::ConstData(ConstData::Byte(0x0F)))));
    let extra = vec![AmlVariable::ConstData(ConstData::Byte(1))];
    assert!(matches!(ev.eval_method(&sta, extra, &table, &mut waits), Err(AmlError::InvalidOperation)));
    let unset = vec![AmlVariable::Uninitialized, AmlVariable::Uninitialized];
    assert!(matches!(ev.eval_method(&sta, unset, &table, &mut waits), Ok(AmlVariable::ConstData(ConstData::Byte(0x0F)))));
}

#[test]
fn methods_end_on_break_fatal_and_no_return() {
    let mut ev = evaluator();
    let table = MethodTable::new();
    let mut waits: Vec<Wait> = Vec::new();
    // Method (NONE, 0) { Noop }
    let plain = method(vec![0x14, 0x07, b'N', b'O', b'N', b'E', 0x00, 0xA3]);
    assert!(matches!(ev.eval_method(&plain, Vec::new(), &table, &mut waits), Ok(AmlVariable::Uninitialized)));
    // Method (BRK_, 0) { Break }
    let brk = method(vec![0x14, 0x07, b'B', b'R', b'K', b'_', 0x00, 0xA5]);
    assert!(matches!(ev.eval_method(&brk, Vec::new(), &table, &mut waits), Err(AmlError::InvalidOperation)));
    // Method (LOOP, 0) { While (One) { Break } Return (One) }
    let looped = method(vec![0x14, 0x0C, b'L', b'O', b'O', b'P', 0x00, 0xA2, 0x03, 0x01, 0xA5, 0xA4, 0x01]);
    assert!(matches!(ev.eval_method(&looped, Vec::new(), &table, &mut waits), Ok(AmlVariable::ConstData(ConstData::Byte(1)))));
}

use lib::aml::interpreter::{device_action, AmlInterpreter};
use lib::aml::namespace_search::compare_by_search_rules;

fn dsdt() -> Vec<u8> {
    let mut t: Vec<u8> = Vec::new();
    // Name (FOO_, 0x1234)
    t.extend_from_slice(&[0x08, b'F', b'O', b'O', b'_', 0x0B, 0x34, 0x12]);
    // Method (DBL_, 1) { Return (Add (Arg0, Arg0)) }
    t.extend_from_slice(&[0x14, 0x0B, b'D', b'B', b'L', b'_', 0x01, 0xA4, 0x72, 0x68, 0x68, 0x00]);
    // Scope (\_SB_) { Device (PCI0) { Name (_ADR, Zero) Method (_STA, 0) { Return (0x0F) } } }
    t.extend_from_slice(&[0x10, 0x1D, b'\\', b'_', b'S', b'B', b'_']);
    t.extend_from_slice(&[0x5B, 0x82, 0x15, b'P', b'C', b'I', b'0']);
    t.extend_from_slice(&[0x08, b'_', b'A', b'D', b'R', 0x00]);
    t.extend_from_slice(&[0x14, 0x09, b'_', b'S', b'T', b'A', 0x00, 0xA4, 0x0A, 0x0F]);
    t
}

#[test]
fn interpreter_finds_names_and_runs_methods() {
    let mut interpreter = AmlInterpreter::setup(dsdt(), Vec::new(), String::from("Test OS")).unwrap();
    assert!(interpreter.get_current_scope().is_root());
    let mut waits: Vec<Wait> = Vec::new();
    let foo = NameString::from_string("\\FOO_").unwrap();
    assert!(matches!(interpreter.get_aml_variable(&foo, &mut waits), Some(AmlVariable::ConstData(ConstData::Word(0x1234)))));
    let adr = NameString::from_string("\\_SB_.PCI0._ADR").unwrap();
    assert!(matches!(interpreter.get_aml_variable(&adr, &mut waits), Some(AmlVariable::ConstData(ConstData::Byte(0)))));
    let sta = NameString::from_string("\\_SB_.PCI0._STA").unwrap();
    assert!(matches!(interpreter.evaluate_method(&sta, Vec::new(), &mut waits), Ok(Some(AmlVariable::ConstData(ConstData::Byte(0x0F))))));
    let dbl = NameString::from_string("\\DBL_").unwrap();
    let args = vec![AmlVariable::ConstData(ConstData::Byte(5))];
    assert!(matches!(interpreter.evaluate_method(&dbl, args, &mut waits), Ok(Some(AmlVariable::ConstData(ConstData::Byte(10))))));
    let none = NameString::from_string("\\NONE").unwrap();
    assert!(matches!(interpreter.evaluate_method(&none, Vec::new(), &mut waits), Ok(None)));
    assert!(interpreter.get_aml_variable(&none, &mut waits).is_none());
    assert!(matches!(interpreter.evaluate_method(&foo, Vec::new(), &mut waits), Err(())));
    assert!(waits.is_empty());
}

#[test]
fn search_rules() {
    let object = NameString::from_string("\\_SB_.PCI0._STA").unwrap();
    let scope = NameString::from_string("\\_SB_.PCI0").unwrap();
    assert!(compare_by_search_rules(&object, &object, &scope, &None, None));
    let other = NameString::from_string("\\_SB_.PCI1._STA").unwrap();
    assert!(!compare_by_search_rules(&object, &other, &scope, &None, None));
    let single = NameString::from_string("_STA").unwrap();
    assert!(compare_by_search_rules(&object, &single, &scope, &Some(single.copy()), None));
    let elsewhere = NameString::from_string("\\_GPE").unwrap();
    assert!(!compare_by_search_rules(&object, &single, &scope, &Some(single.copy()), Some(&elsewhere)));
    let below = NameString::from_string("\\_SB_.PCI0.LPCB").unwrap();
    assert!(compare_by_search_rules(&object, &single, &scope, &Some(single.copy()), Some(&below)));
    assert!(compare_by_search_rules(&object, &single, &scope, &Some(single.copy()), Some(&scope)));
}

#[test]
fn null_name_is_no_method_name() {
    let ev = Evaluator::new(Vec::new(), MethodTable::new(), NameString::root());
    let null = NameString::from_array(&[], false);
    assert!(matches!(ev.search_aml_variable(&null), Err(AmlError::InvalidMethodName(_))));
    let missing = NameString::from_string("\\NONE").unwrap();
    assert!(matches!(ev.search_aml_variable(&missing), Err(AmlError::InvalidName(_))));
}

#[test]
fn method_returning_a_sum_of_constants() {
    // Method (SUM_, 0) { Local0 = 2 + 3  Return (Local0) }
    let mut t: Vec<u8> = Vec::new();
    t.extend_from_slice(&[0x14, 0x0E, b'S', b'U', b'M', b'_', 0x00]);
    t.extend_from_slice(&[0x72, 0x0A, 0x02, 0x0A, 0x03, 0x60, 0xA4, 0x60]);
    let mut interpreter = AmlInterpreter::setup(t, Vec::new(), String::from("Test OS")).unwrap();
    let mut waits: Vec<Wait> = Vec::new();
    let sum = NameString::from_string("\\SUM_").unwrap();
    assert!(matches!(
        interpreter.evaluate_method(&sum, Vec::new(), &mut waits),
        Ok(Some(AmlVariable::ConstData(ConstData::Byte(5))))
    ));
    assert!(matches!(interpreter.get_aml_variable(&sum, &mut waits), Some(AmlVariable::ConstData(ConstData::Byte(5)))));
}

#[test]
fn acquire_takes_a_free_mutex_and_times_out_on_a_held_one() {
    let variables = vec![AmlVariable::Mutex(0, 0)];
    let mut namespace = MethodTable::new();
    namespace.add(NameString::from_string("\\MUT0").unwrap(), 0);
    let mut ev = Evaluator::new(variables, namespace, NameString::root());
    let mutex = SuperName::SimpleName(SimpleName::NameString(NameString::from_string("\\MUT0").unwrap()));
    let acquire = ExpressionOpcode::DefAcquire(mutex, 0x0010);
    assert!(matches!(ev.eval_expression(&acquire), Ok(Operand::Integer(ConstData::Byte(0)))));
    assert!(matches!(ev.get_variable(0), Some(AmlVariable::Mutex(1, 0))));
    // Level 1 is above the sync level 0: the wait ends without it.
    assert!(matches!(ev.eval_expression(&acquire), Ok(Operand::Integer(ConstData::Byte(1)))));
    let mutex = SuperName::SimpleName(SimpleName::NameString(NameString::from_string("\\MUT0").unwrap()));
    let forever = ExpressionOpcode::DefAcquire(mutex, 0xFFFF);
    assert!(matches!(ev.eval_expression(&forever), Err(AmlError::MutexError)));
}

#[test]
fn search_reads_a_method_from_the_dsdt() {
    let mut interpreter = AmlInterpreter::setup(dsdt(), Vec::new(), String::from("Test OS")).unwrap();
    let mut waits: Vec<Wait> = Vec::new();
    let dbl = NameString::from_string("\\DBL_").unwrap();
    let args = vec![AmlVariable::ConstData(ConstData::Byte(7))];
    assert!(matches!(interpreter.evaluate_method(&dbl, args, &mut waits), Ok(Some(AmlVariable::ConstData(ConstData::Byte(14))))));
    let h = interpreter.search(&dbl).unwrap();
    let again = interpreter.search(&dbl).unwrap();
    assert_eq!(h, again);
}

#[test]
fn device_status_decides_initialisation() {
    use_device_action();
    let mut interpreter = AmlInterpreter::setup(dsdt(), Vec::new(), String::from("Test OS")).unwrap();
    let mut waits: Vec<Wait> = Vec::new();
    let pci0 = NameString::from_string("\\_SB_.PCI0").unwrap();
    assert_eq!(interpreter.device_status(&pci0, &mut waits).unwrap(), 0x0F);
    // A device without `_STA` counts as present and functioning.
    let none = NameString::from_string("\\_SB_.NONE").unwrap();
    assert_eq!(interpreter.device_status(&none, &mut waits).unwrap(), 0x0F);
    assert!(interpreter.initialize_all_devices(&mut waits).is_ok());
    assert!(waits.is_empty());
}

fn use_device_action() {
    assert_eq!(device_action(0), (false, false));
    assert_eq!(device_action(1), (true, true));
    assert_eq!(device_action(8), (false, true));
    assert_eq!(device_action(9), (true, true));
    assert_eq!(device_action(2), (false, false));
}

#[test]
fn move_into_a_device_by_its_hardware_id() {
    // Scope (\_SB_) { Device (PCI0) { Name (_HID, EisaId ("PNP0A03")) } }
    let mut t: Vec<u8> = Vec::new();
    t.extend_from_slice(&[0x10, 0x17, b'\\', b'_', b'S', b'B', b'_']);
    t.extend_from_slice(&[0x5B, 0x82, 0x0F, b'P', b'C', b'I', b'0']);
    t.extend_from_slice(&[0x08, b'_', b'H', b'I', b'D', 0x0C, 0x41, 0xD0, 0x0A, 0x03]);
    let mut interpreter = AmlInterpreter::setup(t, Vec::new(), String::from("Test OS")).unwrap();
    assert_eq!(interpreter.move_into_device(b"PNP0C09"), Ok(false));
    assert!(interpreter.get_current_scope().is_root());
    assert_eq!(interpreter.move_into_device(b"PNP0A03"), Ok(true));
    assert!(*interpreter.get_current_scope() == NameString::from_string("\\_SB_.PCI0").unwrap());
}

#[test]
fn method_storing_incrementing_and_returning_a_local() {
    // Method (CNT_, 0) { Store (5, Local0)  Increment (Local0)  Return (Local0) }
    let mut t: Vec<u8> = Vec::new();
    t.extend_from_slice(&[0x14, 0x0E, b'C', b'N', b'T', b'_', 0x00]);
    t.extend_from_slice(&[0x70, 0x0A, 0x05, 0x60, 0x75, 0x60, 0xA4, 0x60]);
    let mut interpreter = AmlInterpreter::setup(t, Vec::new(), String::from("Test OS")).unwrap();
    let mut waits: Vec<Wait> = Vec::new();
    let cnt = NameString::from_string("\\CNT_").unwrap();
    match interpreter.evaluate_method(&cnt, Vec::new(), &mut waits) {
        Ok(Some(AmlVariable::ConstData(c))) => assert_eq!(c.to_int(), 6),
        _ => panic!("expected an integer"),
    }
}

#[test]
fn method_with_a_loop_and_a_branch() {
    // Method (LOOP, 0) {
    //     Store (0, Local0)
    //     While (LLess (Local0, 5)) { Increment (Local0) }
    //     If (LEqual (Local0, 5)) { Return (1) } Else { Return (2) }
    // }
    let mut t: Vec<u8> = Vec::new();
    t.extend_from_slice(&[0x14, 0x20, b'L', b'O', b'O', b'P', 0x00]);
    t.extend_from_slice(&[0x70, 0x0A, 0x00, 0x60]);
    t.extend_from_slice(&[0xA2, 0x07, 0x95, 0x60, 0x0A, 0x05, 0x75, 0x60]);
    t.extend_from_slice(&[0xA0, 0x08, 0x93, 0x60, 0x0A, 0x05, 0xA4, 0x0A, 0x01]);
    t.extend_from_slice(&[0xA1, 0x04, 0xA4, 0x0A, 0x02]);
    let mut interpreter = AmlInterpreter::setup(t, Vec::new(), String::from("Test OS")).unwrap();
    let mut waits: Vec<Wait> = Vec::new();
    let name = NameString::from_string("\\LOOP").unwrap();
    match interpreter.evaluate_method(&name, Vec::new(), &mut waits) {
        Ok(Some(AmlVariable::ConstData(c))) => assert_eq!(c.to_int(), 1),
        _ => panic!("expected an integer"),
    }
}

#[test]
fn byte_field_over_a_buffer_reads_its_byte() {

    let variables = vec![AmlVariable::Buffer(vec![1u8, 2, 3])];
    let mut ev = Evaluator::new(variables, MethodTable::new(), NameString::root());
    let field = AmlVariable::ByteField(AmlByteFiled { source: 0, byte_index: 1, num_of_bytes: 1, should_lock_global_lock: false });
    ev.reset_frame(vec![field]);
    assert_eq!(ev.eval_integer_expression(&TermArg::ArgObj(0)).unwrap(), ConstData::Byte(2));
    let past = AmlVariable::ByteField(AmlByteFiled { source: 0, byte_index: 5, num_of_bytes: 1, should_lock_global_lock: false });
    ev.reset_frame(vec![past]);
    assert!(matches!(ev.eval_integer_expression(&TermArg::ArgObj(0)), Err(AmlError::InvalidOperation)));
}
