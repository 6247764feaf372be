use lib::aml::aml_variable::{
    ec_read_byte, ec_write_byte, index_field_access, AmlBitFiled, AmlByteFiled, AmlIndexField, AmlPackage, AmlPciConfig,
    AmlVariable,
};
use lib::aml::field_access::{
    memory_read_value, memory_word, memory_write_word, pci_plan, pci_read_value, pci_write_dword, pci_write_plan,
    plan_read, plan_write, set_entry, write_buffer_bits, write_entry_bits, FieldData, FieldStep, HardwareAccess,
    PciPlan,
};
use lib::aml::data_object::ConstData;
use lib::aml::evaluator::{
    buffer_to_integer, buffer_to_string, eval_binary_operation, eval_compare, eval_decrement,
    eval_divide, eval_increment, eval_logical_not, eval_not, find_set_left_bit,
    find_set_right_bit, integer_to_buffer, size_of, string_to_buffer, to_decimal_string,
    to_hex_string, to_integer, Comparison,
};
use lib::aml::name_object::NameString;
use lib::aml::notify::NotifyList;
use lib::aml::opcode;
use lib::aml::variable_tree::AmlVariableTree;
use lib::aml::AmlError;

#[test]
fn binary_operations() {
    let b = ConstData::Byte(0xF0);
    let w = ConstData::Word(0x0100);
    assert_eq!(eval_binary_operation(opcode::ADD_OP, &b, &w).unwrap(), ConstData::Word(0x01F0));
    assert_eq!(eval_binary_operation(opcode::AND_OP, &b, &ConstData::Byte(0x3C)).unwrap(), ConstData::Byte(0x30));
    assert_eq!(eval_binary_operation(opcode::SUBTRACT_OP, &w, &b).unwrap(), ConstData::Word(0x10));
    assert_eq!(eval_binary_operation(opcode::MULTIPLY_OP, &b, &ConstData::Byte(2)).unwrap(), ConstData::Word(0x1E0));
    assert_eq!(eval_binary_operation(opcode::MOD_OP, &ConstData::Byte(17), &ConstData::Byte(5)).unwrap(), ConstData::Byte(2));
    assert_eq!(eval_binary_operation(opcode::SHIFT_LEFT_OP, &ConstData::Byte(1), &ConstData::Byte(9)).unwrap(), ConstData::Word(0x200));
    assert_eq!(eval_binary_operation(opcode::SHIFT_RIGHT_OP, &w, &ConstData::Byte(4)).unwrap(), ConstData::Word(0x10));
    assert_eq!(eval_binary_operation(opcode::XOR_OP, &b, &ConstData::Byte(0xFF)).unwrap(), ConstData::Byte(0x0F));
    assert_eq!(eval_binary_operation(opcode::OR_OP, &b, &ConstData::Byte(0x0F)).unwrap(), ConstData::Byte(0xFF));
    assert_eq!(eval_binary_operation(opcode::NOR_OP, &ConstData::QWord(0), &ConstData::QWord(0)).unwrap(), ConstData::QWord(usize::MAX as u64));
    assert!(matches!(eval_binary_operation(opcode::L_AND_OP, &b, &b), Err(AmlError::InvalidOperation)));
}

#[test]
fn divide_gives_quotient_and_remainder() {
    let (q, r) = eval_divide(&ConstData::Word(1000), &ConstData::Byte(7));
    assert_eq!(q, ConstData::Word(142));
    assert_eq!(r, ConstData::Word(6));
}

#[test]
fn find_set_bits() {
    assert_eq!(find_set_left_bit(0), ConstData::Byte(0));
    assert_eq!(find_set_left_bit(1), ConstData::Byte(1));
    assert_eq!(find_set_left_bit(0x80), ConstData::Byte(8));
    assert_eq!(find_set_right_bit(0), ConstData::Byte(0));
    assert_eq!(find_set_right_bit(0x80), ConstData::Byte(8));
    assert_eq!(find_set_right_bit(0x6), ConstData::Byte(2));
}

#[test]
fn not_increment_decrement_compare() {
    assert_eq!(eval_not(&ConstData::Byte(0x0F)), ConstData::Byte(0xF0));
    assert_eq!(eval_not(&ConstData::Word(0)), ConstData::Word(0xFFFF));
    assert_eq!(eval_increment(&ConstData::Byte(0xFF)), ConstData::Word(0x100));
    assert_eq!(eval_increment(&ConstData::Byte(1)), ConstData::Byte(2));
    assert_eq!(eval_decrement(&ConstData::Byte(1)), ConstData::Byte(0));
    assert_eq!(eval_decrement(&ConstData::Byte(0)), ConstData::QWord(usize::MAX as u64));
    assert_eq!(eval_compare(Comparison::Less, &ConstData::Byte(1), &ConstData::Word(2)), ConstData::Byte(1));
    assert_eq!(eval_compare(Comparison::GreaterEqual, &ConstData::Byte(1), &ConstData::Word(2)), ConstData::Byte(0));
    assert_eq!(eval_compare(Comparison::NotEqual, &ConstData::Byte(2), &ConstData::Word(2)), ConstData::Byte(0));
    assert_eq!(eval_logical_not(&ConstData::Byte(0)), ConstData::Byte(1));
    assert_eq!(eval_logical_not(&ConstData::DWord(5)), ConstData::Byte(0));
}

#[test]
fn conversions() {
    assert_eq!(integer_to_buffer(0), vec![0]);
    assert_eq!(integer_to_buffer(0x12345), vec![0x45, 0x23, 0x01]);
    assert_eq!(string_to_buffer(&b"AB".to_vec()), vec![b'A', b'B', 0]);
    assert!(string_to_buffer(&Vec::new()).is_empty());
    // byte `i` is shifted by `i` bits
    assert_eq!(buffer_to_integer(&vec![1, 1, 1]), ConstData::QWord(0b111));
    assert_eq!(buffer_to_string(&b"HELLO".to_vec(), 2).unwrap(), "HE");
    assert_eq!(buffer_to_string(&b"HELLO".to_vec(), 0).unwrap(), "HELLO");
    assert_eq!(buffer_to_string(&b"HELLO".to_vec(), 0xFF).unwrap(), "HELLO");
    assert!(matches!(buffer_to_string(&vec![0xFF, 0xFE], 0), Err(AmlError::InvalidOperation)));
}

#[test]
fn variable_buffer_and_package_access() {
    let v = AmlVariable::Buffer(vec![1, 2, 3]);
    assert!(v.is_constant_data());
    match v.read_buffer_with_index(1).unwrap() {
        AmlVariable::ConstData(ConstData::Byte(b)) => assert_eq!(b, 2),
        other => panic!("unexpected {:?}", other),
    }
    assert!(matches!(v.read_buffer_with_index(3), Err(AmlError::InvalidOperation)));
    let mut v = v;
    v.write_buffer_with_index(AmlVariable::ConstData(ConstData::Byte(9)), 0).unwrap();
    assert!(matches!(v.read_buffer_with_index(0), Ok(AmlVariable::ConstData(ConstData::Byte(9)))));
    assert!(v.write_buffer_with_index(AmlVariable::ConstData(ConstData::Word(9)), 0).is_err());

    let mut p = AmlVariable::Package(vec![AmlPackage::ConstData(ConstData::Byte(1)), AmlPackage::Buffer(vec![5])]);
    assert!(matches!(p.read_buffer_with_index(0), Ok(AmlVariable::ConstData(ConstData::Byte(1)))));
    p.write_buffer_with_index(AmlVariable::ConstData(ConstData::Word(7)), 1).unwrap();
    assert!(matches!(p.read_buffer_with_index(1), Ok(AmlVariable::ConstData(ConstData::Word(7)))));
    assert!(matches!(p.write_buffer_with_index(AmlVariable::Uninitialized, 0), Err(AmlError::InvalidType)));

    let mut s = AmlVariable::String(String::from("abc"));
    s.write_buffer_with_index(AmlVariable::ConstData(ConstData::Byte(b'X')), 1).unwrap();
    match s {
        AmlVariable::String(ref t) => assert_eq!(t, "aXc"),
        _ => panic!(),
    }
    assert!(matches!(s.get_byte_size(), Ok(3)));
}

#[test]
fn variable_write_replaces_constant() {
    let mut v = AmlVariable::Uninitialized;
    v.write(AmlVariable::ConstData(ConstData::DWord(5))).unwrap();
    assert!(matches!(v.to_int(), Ok(5)));
    assert!(matches!(AmlVariable::Uninitialized.to_int(), Err(AmlError::InvalidType)));
}

#[test]
fn embedded_controller_bit_fields() {
    assert_eq!(ec_write_byte(0b1111_0000, 0b11, 2, 2).unwrap(), 0b1111_1100);
    assert_eq!(ec_write_byte(0xAA, 0x55, 0, 8).unwrap(), 0x55);
    assert!(ec_write_byte(0, 1, 6, 4).is_err());
    assert_eq!(ec_read_byte(0b0110_0000, 5, 2).unwrap(), 0b11);
    assert_eq!(ec_read_byte(0x5A, 0, 8).unwrap(), 0x5A);
    assert!(ec_read_byte(0, 0, 0).is_err());
}

#[test]
fn index_field_offsets() {
    let f = AmlIndexField {
        index_register: 0,
        data_register: 1,
        bit_index: 20,
        num_of_bits: 8,
        access_align: 2,
        should_lock_global_lock: false,
    };
    // bit 20 is byte 2, aligned down to 2; the bit within is 4
    let (index, bit) = index_field_access(0, 0, &f).unwrap();
    assert_eq!(index, ConstData::Word(2));
    assert_eq!(bit, 4);
    let f3 = AmlIndexField { access_align: 3, ..f };
    assert!(index_field_access(0, 0, &f3).is_err());
}

#[test]
fn notify_list_registers_and_overwrites() {
    let mut l: NotifyList<u32> = NotifyList::new();
    let a = NameString::from_string("\\_SB.PWRB").unwrap();
    let b = NameString::from_string("\\_SB.LID0").unwrap();
    assert_eq!(l.find_hook(&a), None);
    l.register_function(&a, 1);
    l.register_function(&b, 2);
    assert_eq!(l.find_hook(&a), Some(1));
    l.register_function(&a, 3);
    assert_eq!(l.find_hook(&a), Some(3));
    assert_eq!(l.find_hook(&b), Some(2));
}

fn power_button(v: AmlVariable) {
    assert!(matches!(v, AmlVariable::ConstData(ConstData::Byte(0x80))));
}

fn lid(_v: AmlVariable) {
    panic!("the lid was not notified");
}

#[test]
fn notify_calls_the_registered_hook() {
    let mut l: NotifyList<fn(AmlVariable)> = NotifyList::new();
    let a = NameString::from_string("\\_SB.PWRB").unwrap();
    let b = NameString::from_string("\\_SB.LID0").unwrap();
    assert!(!l.notify(&a, AmlVariable::ConstData(ConstData::Byte(0x80))));
    l.register_function(&a, power_button);
    l.register_function(&b, lid);
    assert!(l.notify(&a, AmlVariable::ConstData(ConstData::Byte(0x80))));
}

#[test]
fn variable_tree_add_and_find() {
    let mut t: AmlVariableTree<u32> = AmlVariableTree::create_tree();
    let x = NameString::from_string("XVAR").unwrap();
    let h = t.add_data(x.copy(), 5, false).unwrap();
    assert_eq!(t.find_data_from_current_scope(&x).unwrap(), Some(h));
    let h2 = t.add_data(x.copy(), 6, false).unwrap();
    assert_eq!(h, h2);
    let scope = NameString::from_string("\\_SB.PCI0").unwrap();
    t.move_current_scope(&scope).unwrap();
    assert!(t.get_current_scope_name() == &scope);
    let y = NameString::from_string("YVAR").unwrap();
    let hy = t.add_data(y.copy(), 7, false).unwrap();
    assert_eq!(t.find_data_from_current_scope(&y).unwrap(), Some(hy));
    let full = NameString::from_string("\\_SB.PCI0.YVAR").unwrap();
    assert_eq!(t.find_data_from_root(&full).unwrap(), Some(hy));
    t.move_to_root().unwrap();
    assert_eq!(t.find_data_from_current_scope(&y).unwrap(), None);
    let backup = t.backup_current_scope();
    t.move_current_scope(&scope).unwrap();
    t.restore_current_scope(backup);
    assert!(t.get_current_scope_name().is_root());
    t.move_current_scope(&scope).unwrap();
    let bad = NameString::current();
    assert!(matches!(t.move_current_scope(&bad), Err(AmlError::InvalidName(_))));
    assert!(t.move_current_scope(&NameString::root()).is_ok());
    assert!(t.get_current_scope_name().is_root());
}

#[test]
fn divide_identity_and_increment_inverse() {
    let (q, r) = eval_divide(&ConstData::DWord(123456), &ConstData::Word(1000));
    assert_eq!(q.to_int() * 1000 + r.to_int(), 123456);
    let c = ConstData::Byte(0xFF);
    assert_eq!(eval_decrement(&eval_increment(&c)).to_int(), 0xFF);
}

#[test]
fn decimal_and_hex_strings() {
    let s = to_decimal_string(&AmlVariable::ConstData(ConstData::Word(1234))).unwrap();
    assert_eq!(s, "1234");
    assert_eq!(to_decimal_string(&AmlVariable::ConstData(ConstData::Byte(0))).unwrap(), "0");
    assert_eq!(to_hex_string(&AmlVariable::ConstData(ConstData::QWord(0xBEEF))).unwrap(), "BEEF");
    let b = AmlVariable::Buffer(vec![1, 255, 16]);
    assert_eq!(to_decimal_string(&b).unwrap(), "1,255,16");
    assert_eq!(to_hex_string(&b).unwrap(), "1,FF,10");
    assert_eq!(to_hex_string(&AmlVariable::Buffer(vec![])).unwrap(), "");
    assert_eq!(to_decimal_string(&AmlVariable::String("abc".to_string())).unwrap(), "abc");
    assert!(matches!(to_decimal_string(&AmlVariable::Uninitialized), Err(AmlError::InvalidOperation)));
}

#[test]
fn size_of_objects() {
    assert_eq!(size_of(&AmlVariable::String("h\u{e9}".to_string()), None).unwrap(), ConstData::QWord(3));
    assert_eq!(size_of(&AmlVariable::Buffer(vec![1, 2, 3]), None).unwrap(), ConstData::QWord(3));
    let p = AmlVariable::Package(vec![AmlPackage::ConstData(ConstData::Byte(1)), AmlPackage::ConstData(ConstData::Byte(2))]);
    assert_eq!(size_of(&p, None).unwrap(), ConstData::QWord(2));
    let target = AmlVariable::ConstData(ConstData::Word(7));
    assert_eq!(size_of(&AmlVariable::Reference(0, None), Some(&target)).unwrap(), ConstData::QWord(2));
    assert!(size_of(&AmlVariable::Reference(0, None), Some(&AmlVariable::Uninitialized)).is_err());
    assert!(matches!(size_of(&AmlVariable::ConstData(ConstData::Byte(1)), None), Err(AmlError::InvalidOperation)));
}

#[test]
fn to_integer_of_each_kind() {
    assert_eq!(to_integer(&AmlVariable::ConstData(ConstData::Byte(9))).unwrap(), ConstData::Byte(9));
    assert_eq!(to_integer(&AmlVariable::String("0x1f ".to_string())).unwrap(), ConstData::QWord(31));
    assert!(matches!(to_integer(&AmlVariable::String("0x1f".to_string())), Err(AmlError::AccessOutOfRange)));
    assert_eq!(to_integer(&AmlVariable::String("123 ".to_string())).unwrap(), ConstData::QWord(23));
    assert!(matches!(to_integer(&AmlVariable::String("abc".to_string())), Err(AmlError::InvalidType)));
    assert!(matches!(to_integer(&AmlVariable::String(String::new())), Err(AmlError::InvalidOperation)));
    assert_eq!(to_integer(&AmlVariable::Buffer(vec![1, 2])).unwrap(), ConstData::QWord(5));
    assert!(matches!(to_integer(&AmlVariable::Buffer(vec![])), Err(AmlError::InvalidOperation)));
    assert!(matches!(to_integer(&AmlVariable::Uninitialized), Err(AmlError::InvalidOperation)));
}

fn field_store() -> Vec<AmlVariable> {
    vec![
        AmlVariable::Io(0x60, 4),
        AmlVariable::BitField(AmlBitFiled {
            source: 0,
            bit_index: 9,
            num_of_bits: 3,
            access_align: 1,
            should_lock_global_lock: false,
        }),
        AmlVariable::Uninitialized,
        AmlVariable::Buffer(vec![0, 0, 0, 0]),
        AmlVariable::IndexField(AmlIndexField {
            index_register: 5,
            data_register: 6,
            bit_index: 16,
            num_of_bits: 8,
            access_align: 1,
            should_lock_global_lock: false,
        }),
        AmlVariable::Io(0x72, 1),
        AmlVariable::Io(0x73, 1),
        AmlVariable::ByteField(AmlByteFiled { source: 3, byte_index: 1, num_of_bytes: 2, should_lock_global_lock: false }),
        AmlVariable::BitField(AmlBitFiled {
            source: 9,
            bit_index: 0,
            num_of_bits: 1,
            access_align: 0,
            should_lock_global_lock: false,
        }),
        AmlVariable::Reference(8, None),
    ]
}

#[test]
fn reads_through_fields_reach_the_hardware() {
    let store = field_store();
    let io = |port, bit_index, align, num_of_bits| HardwareAccess::Io { port, bit_index, align, num_of_bits };
    assert_eq!(plan_read(&store, 1).unwrap(), vec![FieldStep::HardwareRead(io(0x61, 1, 1, 3))]);
    assert_eq!(
        plan_read(&store, 4).unwrap(),
        vec![
            FieldStep::HardwareWrite(io(0x72, 0, 0, 8), ConstData::Byte(2)),
            FieldStep::HardwareRead(io(0x73, 0, 1, 8)),
        ]
    );
    assert_eq!(plan_read(&store, 2).unwrap(), vec![FieldStep::StoreCopy(2)]);
    assert!(matches!(plan_read(&store, 8), Err(AmlError::MutexError)));
    assert!(matches!(plan_read(&store, 20), Err(AmlError::InvalidOperation)));
}

#[test]
fn writes_through_fields() {
    let mut store = field_store();
    let io = |port, bit_index, align, num_of_bits| HardwareAccess::Io { port, bit_index, align, num_of_bits };
    let five = AmlVariable::ConstData(ConstData::Byte(5));
    assert_eq!(plan_write(&store, 1, &five).unwrap(), vec![FieldStep::HardwareWrite(io(0x61, 1, 1, 3), ConstData::Byte(5))]);
    let word = AmlVariable::ConstData(ConstData::Word(0xABCD));
    let steps = plan_write(&store, 7, &word).unwrap();
    assert_eq!(
        steps,
        vec![FieldStep::StoreBits { handle: 3, byte_offset: 1, bit_index: 0, num_of_bits: 16, value: 0xABCD }]
    );
    write_entry_bits(&mut store, 3, 1, 0, 16, 0xABCD).unwrap();
    assert!(matches!(&store[3], AmlVariable::Buffer(b) if b == &vec![0, 0xCD, 0xAB, 0]));
    assert_eq!(plan_write(&store, 2, &five).unwrap(), vec![FieldStep::StoreSet(2, FieldData::Given)]);
    set_entry(&mut store, 2, &five).unwrap();
    assert!(matches!(store[2], AmlVariable::ConstData(ConstData::Byte(5))));
    let text = AmlVariable::String("x".to_string());
    assert!(matches!(plan_write(&store, 1, &text), Err(AmlError::InvalidOperation)));
}

#[test]
fn buffer_bits_keep_the_other_bits() {
    let mut b = vec![0xFF, 0xFF, 0x00];
    write_buffer_bits(&mut b, 0, 4, 8, 0x0A);
    assert_eq!(b, vec![0xA0, 0xFF, 0x00]);
    let mut c = vec![0x12, 0x34, 0x56, 0x78, 0x9A];
    write_buffer_bits(&mut c, 1, 0, 16, 0xBEEF);
    assert_eq!(c, vec![0x12, 0xEF, 0xBE, 0x78, 0x9A]);
}

#[test]
fn memory_words_and_values() {
    assert_eq!(memory_word(0x1003, 2).unwrap(), (0x1002, 2));
    assert_eq!(memory_word(0x1003, 4).unwrap(), (0x1000, 4));
    assert_eq!(memory_word(0x1003, 0).unwrap(), (0x1003, 1));
    assert!(matches!(memory_word(0x1003, 3), Err(AmlError::InvalidOperation)));
    assert_eq!(memory_read_value(0xABCD, 0x1001, 0, 2, 16).unwrap(), ConstData::Word(0xAB));
    assert_eq!(memory_read_value(0xABCD, 0x1001, 0, 2, 3).unwrap(), ConstData::Word(0xABCD));
    assert_eq!(memory_read_value(0xF0, 0x1000, 4, 1, 4).unwrap(), ConstData::Byte(0xF));
    assert_eq!(memory_write_word(0xFFFF, 0x1001, 0, 2, 8, 0x12).unwrap(), 0x1200);
    assert_eq!(memory_write_word(0xFF, 0x1000, 4, 1, 2, 0x1).unwrap(), 0xD0);
}

#[test]
fn pci_configuration_accesses() {
    let cfg = AmlPciConfig { bus: 0, device: 2, function: 0, offset: 0x40, length: 0x100 };
    assert_eq!(pci_plan(&cfg, 2, 0, 1, 16).unwrap(), PciPlan { aligned_offset: 0x40, bit_offset: 16, count: 1 });
    assert_eq!(pci_plan(&cfg, 2, 0, 1, 32).unwrap(), PciPlan { aligned_offset: 0x40, bit_offset: 16, count: 2 });
    assert!(matches!(pci_plan(&cfg, 3, 8, 1, 8), Err(AmlError::InvalidOperation)));
    assert!(matches!(pci_plan(&cfg, 0, 0, 1, 65), Err(AmlError::InvalidOperation)));
    let bad = AmlPciConfig { function: 8, ..cfg };
    assert!(matches!(pci_write_plan(&bad, 0, 0, 1, 8), Err(AmlError::InvalidOperation)));
    assert_eq!(pci_read_value(&vec![0xAABBCCDD], 16, 16), ConstData::Word(0xAABB));
    assert_eq!(pci_read_value(&vec![0xAABBCCDD, 0x11223344], 16, 32), ConstData::DWord(0x1122BBFF));
    assert_eq!(pci_write_dword(0, 0xFFFFFFFF, 16, 16, 0x1234), 0x1234FFFF);
    assert_eq!(pci_write_dword(1, 0, 16, 32, 0xAABBCCDD), 0xAABB);
}

fn first_hook(_v: AmlVariable) {
    panic!("the first hook was replaced");
}

#[test]
fn second_registration_replaces_the_first() {
    let mut l: NotifyList<fn(AmlVariable)> = NotifyList::new();
    let a = NameString::from_string("\\_SB.PWRB").unwrap();
    let m = NameString::from_string("\\_SB.SLPB").unwrap();
    l.register_function(&a, first_hook);
    l.register_function(&a, power_button);
    assert!(l.notify(&a, AmlVariable::ConstData(ConstData::Byte(0x80))));
    assert!(!l.notify(&m, AmlVariable::ConstData(ConstData::Byte(0x80))));
}
