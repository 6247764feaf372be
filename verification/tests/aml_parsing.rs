use lib::aml::data_object::{
    eisa_id_to_dword, parse_integer_from_buffer, ComputationalData, ConstData, DataRefObject,
    PkgLength,
};
use lib::aml::name_object::{NameString, NameStringFlag};
use lib::aml::stream::AmlStream;
use lib::aml::AmlError;

fn stream(bytes: &[u8]) -> AmlStream {
    AmlStream::new(bytes.to_vec())
}

#[test]
fn stream_reads_little_endian_values() {
    let mut s = stream(&[0x01, 0x34, 0x12, 0x78, 0x56, 0x34, 0x12]);
    assert_eq!(s.read_byte().unwrap(), 0x01);
    assert_eq!(s.read_word().unwrap(), 0x1234);
    assert_eq!(s.read_dword().unwrap(), 0x12345678);
    assert!(s.is_end_of_stream());
    assert!(matches!(s.read_byte(), Err(AmlError::AccessOutOfRange)));
}

#[test]
fn stream_peek_does_not_move() {
    let s = stream(&[0x10, 0x20]);
    assert_eq!(s.peek_byte().unwrap(), 0x10);
    assert_eq!(s.peek_byte_with_pos(1).unwrap(), 0x20);
    assert_eq!(s.get_pointer(), 0);
}

#[test]
fn stream_seek_and_roll_back() {
    let mut s = stream(&[1, 2, 3, 4]);
    let backup = s.copy();
    s.seek(3).unwrap();
    assert_eq!(s.read_byte().unwrap(), 4);
    assert!(s.seek(1).is_err());
    s.roll_back(&backup);
    assert_eq!(s.read_byte().unwrap(), 1);
}

#[test]
fn pkg_length_one_byte() {
    let mut s = stream(&[0x05, 0, 0, 0, 0, 0]);
    let p = PkgLength::parse(&mut s).unwrap();
    assert_eq!(p.length, 5);
    assert_eq!(p.actual_length, 4);
}

#[test]
fn pkg_length_two_bytes() {
    // 0x41: two bytes in all, low nibble 1; next byte 0x02 -> 0x21
    let mut s = stream(&[0x41, 0x02]);
    let p = PkgLength::parse(&mut s).unwrap();
    assert_eq!(p.length, 0x21);
    assert_eq!(p.actual_length, 0x21 - 2);
}

#[test]
fn name_string_parse_absolute_path() {
    // \_SB_.PCI0 as a dual name path
    let mut s = stream(&[b'\\', 0x2E, b'_', b'S', b'B', b'_', b'P', b'C', b'I', b'0']);
    let n = NameString::parse(&mut s, None).unwrap();
    assert!(n.is_absolute_path());
    assert_eq!(n.len(), 2);
    let expected = NameString::from_string("\\_SB.PCI0").unwrap();
    assert!(n == expected);
}

#[test]
fn name_string_parse_parent_prefix() {
    let scope = NameString::from_string("\\_SB.PCI0").unwrap();
    let mut s = stream(&[b'^', b'L', b'N', b'K', b'A']);
    let n = NameString::parse(&mut s, Some(&scope)).unwrap();
    let expected = NameString::from_string("\\_SB.LNKA").unwrap();
    assert!(n == expected);
}

#[test]
fn name_string_null_name() {
    let mut s = stream(&[0x00]);
    let n = NameString::parse(&mut s, None).unwrap();
    assert!(n.is_null_name());
    assert_eq!(n.len(), 0);
}

#[test]
fn name_string_full_path_and_relative_name() {
    let scope = NameString::from_string("\\_SB.PCI0").unwrap();
    let child = NameString::from_string("\\_SB.PCI0.LPCB.EC0").unwrap();
    assert!(scope.is_child(&child));
    assert!(!child.is_child(&scope));
    let relative = child.get_relative_name(&scope).unwrap();
    assert_eq!(relative.len(), 2);
    let back = relative.get_full_name_path(&scope, true);
    assert!(back == child);
}

#[test]
fn name_string_scope_name_drops_last() {
    let n = NameString::from_string("\\_SB.PCI0._PRT").unwrap();
    let scope = n.get_scope_name();
    assert!(scope == NameString::from_string("\\_SB.PCI0").unwrap());
    let last = n.get_last_element().unwrap();
    assert_eq!(last.get_flag(), NameStringFlag::SingleRelativePath);
}

#[test]
fn name_string_from_string_refuses_long_part() {
    assert!(NameString::from_string("\\_SB.TOOLONG").is_none());
}

#[test]
fn name_string_to_string_absolute() {
    let n = NameString::from_string("\\ABCD.EFGH").unwrap();
    assert_eq!(n.to_string(), "\\ABCD.EFGH");
}

#[test]
fn computational_data_byte_and_word() {
    let scope = NameString::root();
    let mut s = stream(&[0x0A, 0x7F]);
    match ComputationalData::parse(&mut s, &scope).unwrap() {
        ComputationalData::ConstData(ConstData::Byte(b)) => assert_eq!(b, 0x7F),
        other => panic!("unexpected {:?}", other),
    }
    let mut s = stream(&[0x0B, 0x34, 0x12]);
    match ComputationalData::parse(&mut s, &scope).unwrap() {
        ComputationalData::ConstData(ConstData::Word(w)) => assert_eq!(w, 0x1234),
        other => panic!("unexpected {:?}", other),
    }
}

#[test]
fn computational_data_string() {
    let scope = NameString::root();
    let mut s = stream(&[0x0D, b'A', b'B', b'C', 0x00, 0xFF]);
    match ComputationalData::parse(&mut s, &scope).unwrap() {
        ComputationalData::StringData(t) => assert_eq!(t, "ABC"),
        other => panic!("unexpected {:?}", other),
    }
}

#[test]
fn computational_data_zero_one_ones() {
    let scope = NameString::root();
    for (op, expected) in [(0x00u8, 0x00u8), (0x01, 0x01), (0xFF, 0xFF)] {
        let mut s = stream(&[op]);
        match ComputationalData::parse(&mut s, &scope).unwrap() {
            ComputationalData::ConstObj(c) => assert_eq!(c, expected),
            other => panic!("unexpected {:?}", other),
        }
    }
}

#[test]
fn data_ref_object_integer() {
    let scope = NameString::root();
    let mut s = stream(&[0x0C, 0x78, 0x56, 0x34, 0x12]);
    let d = DataRefObject::parse(&mut s, &scope).unwrap();
    assert_eq!(d.get_const_data(), Some(0x12345678));
}

#[test]
fn const_data_from_usize_widens() {
    assert_eq!(ConstData::from_usize(0x12, 1).unwrap(), ConstData::Byte(0x12));
    assert_eq!(ConstData::from_usize(0x1234, 1).unwrap(), ConstData::Word(0x1234));
    assert_eq!(ConstData::from_usize(0x12345, 2).unwrap(), ConstData::DWord(0x12345));
    assert!(matches!(ConstData::from_usize(1, 3), Err(AmlError::InvalidType)));
}

#[test]
fn eisa_id_of_embedded_controller() {
    assert_eq!(eisa_id_to_dword(b"PNP0C09"), 0x090CD041);
}

#[test]
fn integer_from_decimal_and_hex_buffers() {
    assert_eq!(parse_integer_from_buffer(b"0x1f ").unwrap(), 0x1F);
    assert_eq!(parse_integer_from_buffer(b"0X1F ").unwrap(), 0x1F);
    // after a leading zero the next byte is consumed as the radix mark
    assert_eq!(parse_integer_from_buffer(b"017 ").unwrap(), 0o7);
    // the first decimal digit is consumed without being counted
    assert_eq!(parse_integer_from_buffer(b"123 ").unwrap(), 23);
    // a lower-case `x` takes lower-case digits only
    assert_eq!(parse_integer_from_buffer(b"0x1F ").unwrap(), 1);
    assert!(matches!(parse_integer_from_buffer(b"0xz"), Err(AmlError::InvalidType)));
    assert!(matches!(parse_integer_from_buffer(b"12"), Err(AmlError::AccessOutOfRange)));
    assert!(matches!(parse_integer_from_buffer(b""), Err(AmlError::AccessOutOfRange)));
}

#[test]
fn relative_name_round_trip_limit() {
    // up to seven relative segments come back whole
    let scope = NameString::from_string("\\AAAA").unwrap();
    let child = NameString::from_string("\\AAAA.B1.B2.B3.B4.B5.B6.B7").unwrap();
    let rel = child.get_relative_name(&scope).unwrap();
    assert!(rel.get_full_name_path(&scope, true) == child);
    // beyond that the relative part keeps its first seven and its last
    let long = NameString::from_string("\\AAAA.B1.B2.B3.B4.B5.B6.B7.B8.B9").unwrap();
    let rel = long.get_relative_name(&scope).unwrap();
    assert_eq!(rel.len(), 8);
    assert!(!(rel.get_full_name_path(&scope, true) == long));
}

use lib::aml::expression_opcode::BinaryOperation;
use lib::aml::method_table::MethodTable;
use lib::aml::named_object::Field;
use lib::aml::opcode;
use lib::aml::statement_opcode::StatementOpcode;
use lib::aml::super_name::Target;
use lib::aml::term_object::{TermArg, TermArgList, TermObj};

#[test]
fn binary_operation_of_one_byte_operands() {
    let mut s = stream(&[opcode::ADD_OP, opcode::LOCAL0_OP + 2, opcode::ARG0_OP + 1, 0x00, 0xFF]);
    let scope = NameString::root();
    let b = BinaryOperation::parse(&mut s, &scope, &MethodTable::new()).unwrap();
    assert_eq!(b.get_opcode(), opcode::ADD_OP);
    assert!(matches!(b.get_left_operand(), TermArg::LocalObj(2)));
    assert!(matches!(b.get_right_operand(), TermArg::ArgObj(1)));
    assert!(matches!(b.get_target(), Target::Null));
    assert_eq!(s.get_pointer(), 4);
}

#[test]
fn noop_is_a_statement_of_one_byte() {
    let mut s = stream(&[opcode::NOOP_OP, 0x00]);
    let scope = NameString::root();
    let t = TermObj::parse(&mut s, &scope, &MethodTable::new()).unwrap();
    assert!(matches!(t, TermObj::StatementOpcode(StatementOpcode::DefNoop)));
    assert_eq!(s.get_pointer(), 1);
}

#[test]
fn empty_argument_list_reads_nothing() {
    let mut s = stream(&[opcode::LOCAL0_OP]);
    let scope = NameString::root();
    let l = TermArgList::parse(&mut s, &scope, 0, &MethodTable::new()).unwrap();
    assert_eq!(l.list.len(), 0);
    assert_eq!(s.get_pointer(), 0);
}

#[test]
fn field_reads_region_flags_and_list() {
    // Package length 7: the name `REG0`, the flags, then one list byte.
    let mut s = stream(&[0x07, b'R', b'E', b'G', b'0', 0x13, 0x00, 0xAA]);
    let scope = NameString::root();
    let f = Field::parse(&mut s, &scope).unwrap();
    assert_eq!(f.get_access_size(), 4);
    assert!(f.should_lock());
    assert_eq!(s.get_pointer(), 7);
}

#[test]
fn field_without_flags_is_out_of_range() {
    let mut s = stream(&[0x05, b'R', b'E', b'G', b'0']);
    let scope = NameString::root();
    assert!(matches!(Field::parse(&mut s, &scope), Err(AmlError::AccessOutOfRange)));
}

use lib::aml::expression_opcode::ExpressionOpcode;
use lib::aml::named_object::NamedObject;
use lib::aml::data_object::DataObject;

fn byte_constant(t: &TermArg) -> Option<u8> {
    match t {
        TermArg::DataObject(DataObject::ComputationalData(ComputationalData::ConstData(ConstData::Byte(b)))) => Some(*b),
        _ => None,
    }
}

#[test]
fn expression_of_two_byte_constants() {
    let mut s = stream(&[0x72, 0x0A, 0x05, 0x0A, 0x03, 0x00]);
    let scope = NameString::root();
    match ExpressionOpcode::try_parse(&mut s, &scope, &MethodTable::new()) {
        Ok(ExpressionOpcode::BinaryOperation(o)) => {
            assert_eq!(o.get_opcode(), 0x72);
            assert_eq!(byte_constant(o.get_left_operand()), Some(5));
            assert_eq!(byte_constant(o.get_right_operand()), Some(3));
            assert!(o.get_target().is_null());
        },
        _ => panic!("expected a binary operation"),
    }
    assert!(s.is_end_of_stream());
}

#[test]
fn method_definition_of_three_arguments() {
    let mut s = stream(&[0x14, 0x06, b'_', b'S', b'T', b'A', 0x03]);
    let scope = NameString::root();
    let o = NamedObject::try_parse(&mut s, &scope, &MethodTable::new()).unwrap();
    assert!(s.is_end_of_stream());
    assert_eq!(o.get_argument_count(), Some(3));
    assert!(o.get_term_list().is_some());
    match o {
        NamedObject::DefMethod(m) => {
            assert_eq!(m.get_argument_count(), 3);
            assert!(*m.get_name() == NameString::from_string("\\_STA").unwrap());
        },
        _ => panic!("expected a method"),
    }
}

#[test]
fn name_with_a_segment_that_is_not_utf8() {
    let n = NameString::from_array(&[[0xFF, 0xFE, 0xFD, 0xFC]], true);
    assert_eq!(n.to_string(), "\\");
}
