use lib::acpi::bgrt::{BgrtManager, GtdtManager};
use lib::acpi::dsdt::{DsdtManager, SsdtManager};
use lib::acpi::event::AcpiFixedEvent;
use lib::acpi::fadt::FadtManager;
use lib::acpi::gpe::GpeManager;
use lib::acpi::madt::MadtManager;
use lib::acpi::mcfg::McfgManager;
use lib::acpi::pm_timer::AcpiPmTimer;
use lib::acpi::spcr::SpcrManager;
use lib::acpi::xsdt::XsdtManager;
use lib::acpi::GeneralAddress;

/// A table of `len` bytes signed `sig`, with its length field set.
fn table(sig: &[u8; 4], len: usize) -> Vec<u8> {
    let mut t = vec![0u8; len];
    t[0..4].copy_from_slice(sig);
    t[4..8].copy_from_slice(&(len as u32).to_le_bytes());
    t
}

#[test]
fn general_address_reads_address() {
    let mut a = [0u8; 12];
    a[0] = 1;
    a[4..12].copy_from_slice(&0x1234_5678_9ABCu64.to_le_bytes());
    let g = GeneralAddress::new(&a);
    assert_eq!(g.address_type, 1);
    assert_eq!(g.address, 0x1234_5678_9ABC);
    a[0] = 0x0B;
    let g = GeneralAddress::new(&a);
    assert_eq!(g.address, 0);
    assert_eq!(g.address_type, 0x0B);
}

#[test]
fn fixed_event_from_status_bits() {
    assert_eq!(AcpiFixedEvent::from_u16(0x100), Some(AcpiFixedEvent::PowerButton));
    assert_eq!(AcpiFixedEvent::from_u16(0x300), Some(AcpiFixedEvent::PowerButton));
    assert_eq!(AcpiFixedEvent::from_u16(0x200), Some(AcpiFixedEvent::SleepButton));
    assert_eq!(AcpiFixedEvent::from_u16(0x20), None);
    assert_eq!(AcpiFixedEvent::PowerButton.bits(), 0x100);
}

#[test]
fn pm_timer_arithmetic() {
    let t = AcpiPmTimer::new(0x408, false);
    assert_eq!(t.get_count(0xFF12_3456), 0x12_3456);
    assert_eq!(t.get_difference(10, 20), 10);
    assert_eq!(t.get_difference(0xFF_FFF0, 0x10), 0x10 + 0xF);
    assert_eq!(t.get_max_counter_value(), 0xFF_FFFF);
    assert_eq!(t.get_ending_count_value(0xFF_FFF0, 0x20), 0xFF_FFF0 + 0x20 - 0xFF_FFFF);
    let t32 = AcpiPmTimer::new(0x408, true);
    assert_eq!(t32.get_count(0xFF12_3456), 0xFF12_3456);
    assert_eq!(t32.get_max_counter_value(), 0xFFFF_FFFF);
    assert_eq!(t32.get_frequency_hz(), 3579545);
}

#[test]
fn gpe_ranges_and_ports() {
    let g = GpeManager::new(0x400, 4, 0);
    assert_eq!(g.get_gpe_min_number(), 0);
    assert_eq!(g.get_gpe_max_number(), 31);
    let loc = g.locate_gpe(0x11).unwrap();
    assert_eq!(loc.status_port, 0x402);
    assert_eq!(loc.enable_port, 0x406);
    assert_eq!(loc.bit, 1);
    assert_eq!(g.enable_gpe(0x11, 0b0001), Some((0x406, 0b0011)));
    assert_eq!(g.clear_status_bit(0x11, 0b0010), Some(Some((0x402, 0b0010))));
    assert_eq!(g.clear_status_bit(0x11, 0b0000), Some(None));
    assert_eq!(g.enable_gpe(33, 0), None);
    let absent = GpeManager::new(0, 4, 0);
    assert_eq!(absent.enable_gpe(1, 0), None);
    assert!(absent.init().is_empty());
    let writes = g.init();
    assert_eq!(writes.len(), 8);
    assert_eq!(writes[0], (0x400, 0xFF));
    assert_eq!(writes[4], (0x404, 0x00));
}

#[test]
fn gpe_find_pending_event() {
    let g = GpeManager::new(0x400, 2, 0);
    let status = vec![0b0000_0100u8, 0b0000_0001];
    assert_eq!(g.find_general_purpose_event(None, &status), Some(2));
    assert_eq!(g.find_general_purpose_event(Some(2), &status), Some(8));
    let none = vec![0u8, 0];
    assert_eq!(g.find_general_purpose_event(None, &none), None);
}

#[test]
fn dsdt_definition_block() {
    let mut t = table(b"DSDT", 40);
    t[36..40].copy_from_slice(&[0x10, 0x02, 0xAA, 0xBB]);
    let mut bytes = t.clone();
    bytes.extend_from_slice(&[0xEE; 8]);
    let mut d = DsdtManager::new();
    assert!(!d.is_initialized());
    d.init(&bytes).unwrap();
    assert!(d.is_initialized());
    assert_eq!(d.get_definition_block_address_and_size(), (36, 4));
    assert_eq!(d.get_definition_block(), vec![0x10, 0x02, 0xAA, 0xBB]);
    let mut s = SsdtManager::new();
    assert!(s.init(&vec![0u8; 10]).is_err());
    assert!(!s.is_initialized());
}

#[test]
fn mcfg_allocation_structures() {
    let mut t = table(b"MCFG", 44 + 32);
    t[44..52].copy_from_slice(&0xE000_0000u64.to_le_bytes());
    t[52..54].copy_from_slice(&1u16.to_le_bytes());
    t[54] = 0;
    t[55] = 0xFF;
    t[60..68].copy_from_slice(&0xF000_0000u64.to_le_bytes());
    let mut m = McfgManager::new();
    assert!(m.get_base_address_info(0).is_none());
    m.init(&t).unwrap();
    let info = m.get_base_address_info(0).unwrap();
    assert_eq!(info.base_address, 0xE000_0000);
    assert_eq!(info.segment_group, 1);
    assert_eq!(info.start_bus, 0);
    assert_eq!(info.end_bus, 0xFF);
    assert_eq!(m.get_base_address_info(1).unwrap().base_address, 0xF000_0000);
    assert!(m.get_base_address_info(2).is_none());
}

fn madt_with_records(records: &[Vec<u8>]) -> Vec<u8> {
    let len = 44 + records.iter().map(|r| r.len()).sum::<usize>();
    let mut t = table(b"APIC", len);
    let mut p = 44;
    for r in records {
        t[p..p + r.len()].copy_from_slice(r);
        p += r.len();
    }
    t
}

#[test]
fn madt_local_apic_ids() {
    let enabled = vec![0, 8, 0, 3, 1, 0, 0, 0];
    let disabled = vec![0, 8, 1, 5, 0, 0, 0, 0];
    let mut x2 = vec![9, 16, 0, 0, 0x34, 0x12, 0, 0, 1, 0, 0, 0, 0, 0, 0, 0];
    x2[1] = 16;
    let t = madt_with_records(&[enabled, disabled, x2]);
    let mut m = MadtManager::new();
    m.init(&t).unwrap();
    let mut it = m.find_apic_id_list();
    assert_eq!(it.next(), Some(3));
    assert_eq!(it.next(), Some(0x1234));
    assert_eq!(it.next(), None);
}

#[test]
fn madt_gic_records() {
    let mut gicc = vec![0u8; 80];
    gicc[0] = 0x0B;
    gicc[1] = 80;
    gicc[8..12].copy_from_slice(&7u32.to_le_bytes());
    gicc[12] = 1;
    gicc[60..68].copy_from_slice(&0x2F10_0000u64.to_le_bytes());
    gicc[68..76].copy_from_slice(&0x8000_0001u64.to_le_bytes());
    let mut gicd = vec![0u8; 24];
    gicd[0] = 0x0C;
    gicd[1] = 24;
    gicd[8..16].copy_from_slice(&0x2F00_0000u64.to_le_bytes());
    gicd[20] = 3;
    let mut gicr = vec![0u8; 16];
    gicr[0] = 0x0E;
    gicr[1] = 16;
    gicr[4..12].copy_from_slice(&0x2F10_0000u64.to_le_bytes());
    gicr[12..16].copy_from_slice(&0x20_0000u32.to_le_bytes());
    let t = madt_with_records(&[gicc, gicd, gicr]);
    let mut m = MadtManager::new();
    m.init(&t).unwrap();
    let cpu = m.find_generic_interrupt_controller_cpu_interface(0x8000_0001).unwrap();
    assert_eq!(cpu.acpi_processor_uid, 7);
    assert_eq!(cpu.gicr_base_address, 0x2F10_0000);
    assert!(m.find_generic_interrupt_controller_cpu_interface(0).is_none());
    let d = m.find_generic_interrupt_distributor().unwrap();
    assert_eq!(d.base_address, 0x2F00_0000);
    assert_eq!(d.version, 3);
    let r = m.find_generic_interrupt_redistributor_struct().unwrap();
    assert_eq!(r.discovery_range_base_address, 0x2F10_0000);
    assert_eq!(r.discovery_range_length, 0x20_0000);
    let mut it = m.get_generic_interrupt_controller_cpu_info_iter();
    assert_eq!(it.next(), Some(0x8000_0001));
    assert_eq!(it.next(), None);
}

#[test]
fn madt_refuses_broken_record_chain() {
    let t = madt_with_records(&[vec![0, 0, 0, 0, 0, 0, 0, 0]]);
    let mut m = MadtManager::new();
    assert!(m.init(&t).is_err());
    assert!(m.find_generic_interrupt_distributor().is_none());
}

#[test]
fn fadt_fields() {
    let mut t = table(b"FACP", 276);
    t[40..44].copy_from_slice(&0x7FF0_0000u32.to_le_bytes());
    t[46..48].copy_from_slice(&9u16.to_le_bytes());
    t[48..52].copy_from_slice(&0xB2u32.to_le_bytes());
    t[52] = 0xA0;
    t[56..60].copy_from_slice(&0x400u32.to_le_bytes());
    t[64..68].copy_from_slice(&0x404u32.to_le_bytes());
    t[76..80].copy_from_slice(&0x408u32.to_le_bytes());
    t[88] = 4;
    t[112..116].copy_from_slice(&0x100u32.to_le_bytes());
    t[172] = 1;
    t[176..184].copy_from_slice(&0x1804u64.to_le_bytes());
    let mut f = FadtManager::new();
    assert!(f.get_flags().is_none());
    assert!(f.init(&t));
    assert_eq!(f.get_flags(), Some(0x100));
    assert_eq!(f.get_sci_int(), Some(9));
    assert_eq!(f.get_smi_cmd(), Some(0xB2));
    assert_eq!(f.get_acpi_enable(), Some(0xA0));
    assert_eq!(f.get_pm1a_event_block_address(), Some(0x400));
    assert_eq!(f.get_pm1a_control_block_address(), Some(0x1804));
    assert_eq!(f.get_pm1_event_block_len(), Some(4));
    assert_eq!(f.get_dsdt_address(), Some(0x7FF0_0000));
    assert_eq!(f.get_sleep_control_register(), None);
    let timer = f.get_acpi_pm_timer().unwrap();
    assert_eq!(timer.get_port(), 0x408);
    assert_eq!(timer.get_max_counter_value(), 0xFFFF_FFFF);
}

#[test]
fn xsdt_entries_and_tables() {
    let mut t = table(b"XSDT", 36 + 16);
    t[8] = 1;
    t[36..44].copy_from_slice(&0x7FFE_0000u64.to_le_bytes());
    t[44..52].copy_from_slice(&0x7FFD_0000u64.to_le_bytes());
    let mut x = XsdtManager::new();
    x.init(&t).unwrap();
    assert_eq!(x.get_entry(0), Some(0x7FFE_0000));
    assert_eq!(x.get_entry(1), Some(0x7FFD_0000));
    assert_eq!(x.get_entry(2), None);
    let dsdt = table(b"DSDT", 38);
    x.add_table(&dsdt).unwrap();
    assert!(x.get_dsdt_manager().is_initialized());
    let other = table(b"SSDT", 40);
    assert!(x.add_table(&other).is_ok());
    let mut bad = t.clone();
    bad[8] = 2;
    let mut y = XsdtManager::new();
    assert!(y.init(&bad).is_err());
}

#[test]
fn bgrt_and_gtdt_fields() {
    let mut t = table(b"BGRT", 56);
    t[39] = 0;
    t[40..48].copy_from_slice(&0x8000_0000u64.to_le_bytes());
    t[48..52].copy_from_slice(&100u32.to_le_bytes());
    t[52..56].copy_from_slice(&200u32.to_le_bytes());
    let mut b = BgrtManager::new();
    assert!(b.init(&t));
    assert_eq!(b.get_bitmap_physical_address(), Some(0x8000_0000));
    assert_eq!(b.get_image_offset(), (100, 200));
    let mut g = table(b"GTDT", 104);
    g[36..44].copy_from_slice(&u64::MAX.to_le_bytes());
    g[56..60].copy_from_slice(&30u32.to_le_bytes());
    g[60..64].copy_from_slice(&4u32.to_le_bytes());
    let mut m = GtdtManager::new();
    m.init(&g).unwrap();
    assert_eq!(m.get_cnt_control_base(), None);
    assert_eq!(m.get_non_secure_el1_gsiv(), 30);
    assert_eq!(m.get_non_secure_el1_flags(), 4);
}

#[test]
fn pm_timer_ending_of_difference() {
    for t in [AcpiPmTimer::new(0x408, false), AcpiPmTimer::new(0x408, true)] {
        for (e, l) in [(0usize, 0usize), (5, 0xFF_FFFF), (0x10, 0x20)] {
            assert_eq!(t.get_ending_count_value(e, t.get_difference(e, l)), l);
        }
    }
}

#[test]
fn spcr_console_address() {
    let mut t = table(b"SPCR", 80);
    t[8] = 2;
    t[36] = SpcrManager::INTERFACE_TYPE_ARM_PL011;
    t[40] = 0;
    t[44..52].copy_from_slice(&0x0900_0000u64.to_le_bytes());
    let mut s = SpcrManager::new();
    assert_eq!(s.get_memory_mapped_io_base_address(), None);
    assert!(s.init(&t).is_ok());
    assert_eq!(s.get_interface_type(), 3);
    assert_eq!(s.get_memory_mapped_io_base_address(), Some(0x0900_0000));
    let mut io = t.clone();
    io[40] = 1;
    let mut s2 = SpcrManager::new();
    assert!(s2.init(&io).is_ok());
    assert_eq!(s2.get_memory_mapped_io_base_address(), None);
    assert!(SpcrManager::new().init(&table(b"SPCR", 60)).is_err());
}

#[test]
fn root_pointer_gives_the_xsdt_address() {
    let mut r = vec![0u8; 36];
    r[0..8].copy_from_slice(b"RSD PTR ");
    r[15] = 2;
    r[24..32].copy_from_slice(&0x7FF5_E0E8u64.to_le_bytes());
    assert_eq!(lib::acpi::rsdp_xsdt_address(&r), Some(0x7FF5_E0E8));
    let mut old = r.clone();
    old[15] = 0;
    assert_eq!(lib::acpi::rsdp_xsdt_address(&old), None);
    let mut bad = r.clone();
    bad[3] = b'X';
    assert_eq!(lib::acpi::rsdp_xsdt_address(&bad), None);
    assert_eq!(lib::acpi::rsdp_xsdt_address(&r[..20]), None);
}
