use lib::collections::fifo::Fifo;
use lib::collections::guid::Guid;
use lib::collections::linked_list::LinkedList;
use lib::collections::ptr_linked_list::PtrLinkedList;
use lib::collections::ring_buffer::Ringbuffer;

#[test]
fn fifo_keeps_order_and_capacity() {
    let mut f: Fifo<u32, 4> = Fifo::new(0);
    assert!(f.enqueue(1).is_ok());
    assert!(f.enqueue(2).is_ok());
    assert!(f.enqueue(3).is_ok());
    assert!(f.enqueue(4).is_err());
    assert_eq!(f.dequeue(), Some(1));
    assert!(f.enqueue(4).is_ok());
    assert_eq!(f.dequeue(), Some(2));
    assert_eq!(f.dequeue(), Some(3));
    assert_eq!(f.dequeue(), Some(4));
    assert_eq!(f.dequeue(), None);
}

#[test]
fn guid_from_parts_and_bytes() {
    let g = Guid::new(0x8868E871, 0xE4F1, 0x11D3, 0xBC22, 0x0080C73C8881);
    assert_eq!(g.d4, [0xBC, 0x22, 0x00, 0x80, 0xC7, 0x3C, 0x88, 0x81]);
    let bytes: [u8; 16] = [
        0x71, 0xE8, 0x68, 0x88, 0xF1, 0xE4, 0xD3, 0x11, 0xBC, 0x22, 0x00, 0x80, 0xC7, 0x3C, 0x88,
        0x81,
    ];
    let le = Guid::new_le(&bytes);
    assert_eq!(le, g);
    let be = Guid::new_be(&bytes);
    assert_eq!(be.d1, 0x71E86888);
}

#[test]
fn ring_buffer_sizes() {
    let mut r = Ringbuffer::new();
    assert_eq!(r.get_buffer_size(), 0);
    r.set_new_buffer(0x1000, 16);
    assert_eq!(r.get_buffer_address(), 0x1000);
    assert_eq!(r.get_buffer_size(), 16);
    assert_eq!(r.get_readable_size(), 0);
    assert_eq!(r.add_pointer(15, 3), 2);
    r.unset_buffer();
    assert_eq!(r.get_buffer_size(), 0);
}

#[test]
fn linked_list_push_pop_both_ends() {
    let mut l: LinkedList<u32> = LinkedList::new();
    assert!(l.is_empty());
    l.push_back(2);
    l.push_front(1);
    l.push_back(3);
    assert_eq!(l.front(), Some(&1));
    assert_eq!(l.back(), Some(&3));
    assert_eq!(l.pop_front(), Some(1));
    assert_eq!(l.pop_back(), Some(3));
    assert_eq!(l.pop_back(), Some(2));
    assert_eq!(l.pop_front(), None);
    assert!(l.is_empty());
}

#[test]
fn linked_list_reuses_entries() {
    let mut l: LinkedList<u32> = LinkedList::new();
    for i in 0..10 {
        l.push_back(i);
        assert_eq!(l.pop_front(), Some(i));
    }
    l.push_back(7);
    assert_eq!(l.front(), Some(&7));
    l.clear();
    assert!(l.is_empty());
}

#[test]
fn linked_list_cursor_walk_insert_remove() {
    let mut l: LinkedList<u32> = LinkedList::new();
    l.push_back(10);
    l.push_back(30);
    let mut c = l.cursor_front_mut();
    assert!(c.is_valid());
    assert_eq!(c.current(&l), Some(&10));
    c.insert_after(&mut l, 20);
    c.move_next(&l);
    assert_eq!(c.current(&l), Some(&20));
    assert_eq!(c.remove_current(&mut l), Some(20));
    assert_eq!(c.current(&l), Some(&30));
    c.move_next(&l);
    assert!(!c.is_valid());
    c.move_prev(&l);
    assert_eq!(c.current(&l), Some(&30));
    assert_eq!(l.pop_front(), Some(10));
    assert_eq!(l.pop_front(), Some(30));
}

#[test]
fn linked_list_insert_before_links_after_current() {
    let mut l: LinkedList<u32> = LinkedList::new();
    l.push_back(1);
    let mut c = l.cursor_front_mut();
    c.insert_before(&mut l, 2);
    assert_eq!(l.pop_front(), Some(1));
    assert_eq!(l.pop_front(), Some(2));
}

#[test]
fn ptr_linked_list_links_entries() {
    let mut l = PtrLinkedList::new();
    let a = l.new_entry();
    let b = l.new_entry();
    let c = l.new_entry();
    l.insert_tail(a);
    l.insert_tail(c);
    l.insert_after(a, b);
    assert_eq!(l.get_first_entry(), Some(a));
    assert_eq!(l.get_last_entry(), Some(c));
    assert_eq!(l.get_node(a).get_next(), Some(b));
    assert_eq!(l.get_node(c).get_prev(), Some(b));
    l.remove(b);
    assert_eq!(l.get_node(a).get_next(), Some(c));
    assert!(!l.get_node(b).has_next());
    assert_eq!(l.take_first_entry(), Some(a));
    assert_eq!(l.take_first_entry(), Some(c));
    assert!(l.is_empty());
}

#[test]
fn ptr_linked_list_insert_then_remove_restores_order() {
    let mut l = PtrLinkedList::new();
    let a = l.new_entry();
    let b = l.new_entry();
    let n = l.new_entry();
    l.insert_tail(a);
    l.insert_tail(b);
    l.insert_after(a, n);
    l.remove(n);
    assert_eq!(l.get_first_entry(), Some(a));
    assert_eq!(l.get_node(a).get_next(), Some(b));
    assert_eq!(l.get_last_entry(), Some(b));
}

#[test]
fn guid_written_form() {
    let g = lib::collections::guid::Guid::new(0x12345678, 0x9ABC, 0xDEF0, 0x1122, 0x3344_5566_7788);
    assert_eq!(g.to_string(), "12345678-9ABC-DEF0-1122-334455667788");
    let small = lib::collections::guid::Guid::new(0x1, 0x2, 0x3, 0x4, 0x5);
    assert_eq!(small.to_string(), "00000001-0002-0003-0004-000000000005");
}

#[test]
fn ring_buffer_reads_back_what_was_written() {
    let mut ring = lib::collections::ring_buffer::Ringbuffer::new();
    assert_eq!(ring.write(&vec![1u8, 2, 3]), 0);
    ring.set_new_buffer(0x1000, 8);
    assert_eq!(ring.get_writable_size(), 8);
    assert_eq!(ring.write(&vec![1u8, 2, 3, 4, 5]), 5);
    assert_eq!(ring.get_readable_size(), 5);
    assert_eq!(ring.read(3), vec![1u8, 2, 3]);
    assert_eq!(ring.read(10), vec![4u8, 5]);
    assert_eq!(ring.read(1), Vec::<u8>::new());
    // The next write goes round the end of the ring.
    assert_eq!(ring.write(&vec![6u8, 7, 8, 9, 10]), 5);
    assert_eq!(ring.read(5), vec![6u8, 7, 8, 9, 10]);
}

#[test]
fn ring_buffer_filled_but_one_byte_reads_the_whole_ring() {
    let mut ring = lib::collections::ring_buffer::Ringbuffer::new();
    ring.set_new_buffer(0x1000, 4);
    assert_eq!(ring.write(&vec![1u8, 2, 3]), 3);
    // The write pointer has reached the read pointer: nothing is writable,
    // and the whole ring counts as readable.
    assert_eq!(ring.get_writable_size(), 0);
    assert_eq!(ring.read(10), vec![1u8, 2, 3, 0]);
}
