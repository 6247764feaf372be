use lib::application_loader::{check_elf_header, ElfHeaderInfo};
use lib::acpi::event::{AcpiEventManager, AcpiFixedEvent};
use lib::application_loader::{ap_offset_from_stack_top, build_initial_stack, plan_load_segment, SegmentPlan};

#[test]
fn load_segment_plans() {
    assert_eq!(
        plan_load_segment(0x401123, 0x1123, 0x1000, 0x100),
        Some(SegmentPlan::Load { align_offset: 0x123, aligned_size: 0x1000, user_address: 0x401000 })
    );
    assert_eq!(plan_load_segment(0x401123, 0x1124, 0x1000, 0x100), None);
    assert_eq!(plan_load_segment(0x401000, 0x1000, 0x800, 0x100), None);
    assert_eq!(plan_load_segment(0x401000, 0x1000, 0x3000, 0x100), None);
    assert_eq!(plan_load_segment(0x401000, 0x1000, 0x1000, 0), Some(SegmentPlan::Skip));
    assert_eq!(
        plan_load_segment(0x400010, 0x20, 0, 0x1FF0),
        Some(SegmentPlan::Load { align_offset: 0, aligned_size: 0x2000, user_address: 0x400010 })
    );
}

#[test]
fn initial_stack_offset() {
    // "ls" (3) + "-a" (3) + "A=b" (4) + 16 = 26 -> 32, then 6 pointers
    assert_eq!(ap_offset_from_stack_top(2, &vec![2], &vec![(1, 1)]), Some(32 + 6 * 8));
    assert_eq!(ap_offset_from_stack_top(0, &vec![], &vec![]), Some(24 + 4 * 8));
    assert_eq!(ap_offset_from_stack_top(usize::MAX, &vec![], &vec![]), None);
}

#[test]
fn fixed_events_through_the_manager() {
    let mut m = AcpiEventManager::new(0x400, 0, 4, 0x420, 8, 0, 0);
    assert_eq!(m.pm1_enable_ports(), (0x402, 2));
    assert_eq!(m.init_event_registers(), vec![(0x402, 0)]);
    let writes = m.enable_fixed_event(AcpiFixedEvent::PowerButton, 0, 0);
    assert_eq!(writes, vec![(0x402, 0x100)]);
    assert_eq!(m.find_occurred_fixed_event(0x100, 0), Some(AcpiFixedEvent::PowerButton));
    assert_eq!(m.find_occurred_fixed_event(0x200, 0), None);
    assert_eq!(m.reset_fixed_event_status(AcpiFixedEvent::PowerButton), vec![(0x400, 0x100)]);
    assert_eq!(m.enable_fixed_event(AcpiFixedEvent::PowerButton, 0x100, 0x100), vec![]);
    let g0 = m.get_gpe0_manager();
    assert_eq!(g0.get_gpe_max_number(), 31);
    assert!(m.get_gpe1_manager().is_none());
    assert!(m.clear_gpe_status_bit(3).is_some());
    assert!(m.clear_gpe_status_bit(40).is_none());
    assert!(m.enable_gpes(40).is_none());
    assert!(m.enable_gpes(3).is_some());
}

#[test]
fn second_gpe_block_follows_the_first() {
    let m = AcpiEventManager::new(0x400, 0x440, 4, 0x420, 8, 0x430, 4);
    let g1 = m.get_gpe1_manager().unwrap();
    assert_eq!(g1.get_gpe_min_number(), 32);
    assert_eq!(g1.get_gpe_max_number(), 47);
    assert_eq!(m.enable_gpes(40).unwrap().get_gpe_min_number(), 32);
    assert_eq!(m.clear_gpe_status_bit(40).unwrap().get_gpe_min_number(), 32);
}

fn word_at(img: &[u8], off: usize) -> u64 {
    let mut b = [0u8; 8];
    b.copy_from_slice(&img[off..off + 8]);
    u64::from_le_bytes(b)
}

#[test]
fn initial_stack_holds_pointers_to_its_strings() {
    let top = 0x1000usize;
    let img = build_initial_stack(
        &b"init".to_vec(),
        &vec![b"-a".to_vec()],
        &vec![(b"K".to_vec(), b"V".to_vec())],
        top,
    )
    .unwrap();
    assert_eq!(Some(img.len()), ap_offset_from_stack_top(4, &vec![2], &vec![(1, 1)]));
    assert_eq!(img.len(), 80);
    let base = (top - img.len()) as u64;
    assert_eq!(word_at(&img, 0), 2);
    assert_eq!(word_at(&img, 8), 0xFFB);
    assert_eq!(word_at(&img, 16), 0xFF8);
    assert_eq!(word_at(&img, 24), 0);
    assert_eq!(word_at(&img, 32), 0xFF4);
    assert_eq!(word_at(&img, 40), 0);
    assert_eq!(word_at(&img, 48), 0);
    assert_eq!(&img[56..68], &[0u8; 12]);
    assert_eq!(&img[68..80], b"K=V\0-a\0init\0");
    let p0 = (word_at(&img, 8) - base) as usize;
    assert_eq!(&img[p0..p0 + 5], b"init\0");
    let p2 = (word_at(&img, 32) - base) as usize;
    assert_eq!(&img[p2..p2 + 4], b"K=V\0");
}

#[test]
fn initial_stack_that_does_not_fit_is_refused() {
    assert!(build_initial_stack(&b"init".to_vec(), &vec![], &vec![], 40).is_none());
    let img = build_initial_stack(&b"init".to_vec(), &vec![], &vec![], 0x100).unwrap();
    assert_eq!(img.len(), 56);
    assert_eq!(word_at(&img, 0), 1);
    assert_eq!(word_at(&img, 8), 0x100 - 5);
    assert_eq!(&img[51..56], b"init\0");
}

fn elf_head() -> Vec<u8> {
    let mut h = vec![0u8; 1024];
    h[0..4].copy_from_slice(&[0x7f, b'E', b'L', b'F']);
    h[4] = 2;
    h[5] = 1;
    h[16] = 2;
    h[18] = 0x3e;
    h[24..32].copy_from_slice(&0x40_1000u64.to_le_bytes());
    h[32..40].copy_from_slice(&64u64.to_le_bytes());
    h[54] = 56;
    h[56] = 2;
    h
}

#[test]
fn elf_header_of_an_executable() {
    let info = check_elf_header(&elf_head(), 0x3e).unwrap();
    assert_eq!(
        info,
        ElfHeaderInfo {
            entry_point: 0x40_1000,
            program_header_offset: 64,
            program_header_entry_size: 56,
            program_header_count: 2,
        }
    );
    // Another machine, a shared object, big-endian data, a bad magic number.
    assert!(check_elf_header(&elf_head(), 0xb7).is_none());
    let mut shared = elf_head();
    shared[16] = 3;
    assert!(check_elf_header(&shared, 0x3e).is_none());
    let mut big = elf_head();
    big[5] = 2;
    assert!(check_elf_header(&big, 0x3e).is_none());
    let mut bad = elf_head();
    bad[1] = b'X';
    assert!(check_elf_header(&bad, 0x3e).is_none());
    // Program headers past the head.
    let mut far = elf_head();
    far[32..40].copy_from_slice(&1000u64.to_le_bytes());
    assert!(check_elf_header(&far, 0x3e).is_none());
    assert!(check_elf_header(&vec![0x7f, b'E', b'L', b'F'], 0x3e).is_none());
}
