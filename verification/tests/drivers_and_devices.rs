use lib::drivers::i210::{
    base_address, eeprom_read_command, eeprom_read_result, get_next_receive_pointer, get_next_transfer_pointer,
    mac_from_eeprom, mac_from_registers, receive_control, transmit_control, transmit_descriptors, transmit_ipg,
    I210Manager, CMD_EOP, CMD_RS,
};
use lib::drivers::lpc::LpcManager;
use lib::block_device::{BlockDeviceDescriptor, BlockDeviceDriver, BlockDeviceError, BlockDeviceInfo, BlockDeviceManager};
use lib::drivers::boot_information::{AdditonalMemoryMap, FontInfo, GraphicInfo};
use lib::drivers::nvme::{
    admin_queue_attributes, bar_base_address, bar_kind, create_completion_queue_command,
    create_submission_queue_command, decode_capabilities, identify_command, is_command_successful,
    is_completion_posted, completion_command_id, lba_data_size, lba_format_index, plan_controller_setup,
    prp_list_entries, queue_entry_sizes, read_command, NameSpace, NvmeManager, NvmeQueue, NvmeSetupError,
};
use lib::drivers::serial_port::{dummy_getc, dummy_interrupt_setup, dummy_putc, dummy_wait_buffer};
use lib::drivers::vga_text::{text_color_to_number, CrtAddress, TextColor, VgaTextDriver};

struct RamDisk {
    block_size: u64,
    reads: usize,
}

impl BlockDeviceDriver for RamDisk {
    fn read_data_lba(&mut self, _info: &BlockDeviceInfo, _buffer: usize, _base_lba: u64, _n: u64) -> Result<(), BlockDeviceError> {
        self.reads += 1;
        Ok(())
    }

    fn get_lba_block_size(&self, _info: &BlockDeviceInfo) -> u64 {
        self.block_size
    }
}

#[test]
fn block_devices_are_numbered_in_order() {
    let mut m: BlockDeviceManager<RamDisk> = BlockDeviceManager::new();
    m.add_block_device(BlockDeviceDescriptor::new(7, RamDisk { block_size: 512, reads: 0 }));
    m.add_block_device(BlockDeviceDescriptor::new(3, RamDisk { block_size: 4096, reads: 0 }));
    assert_eq!(m.get_number_of_devices(), 2);
    assert_eq!(m.get_lba_block_size(0), 512);
    assert_eq!(m.get_lba_block_size(1), 4096);
    assert_eq!(m.get_lba_block_size(2), 0);
    assert!(m.read_lba(1, 0x1000, 0, 1).is_ok());
    assert_eq!(m.read_lba(2, 0x1000, 0, 1), Err(BlockDeviceError::InvalidDevice));
    let d = BlockDeviceDescriptor::new(5, RamDisk { block_size: 1, reads: 0 });
    assert_eq!(d.get_info(), BlockDeviceInfo { info_id: 0, device_id: 5 });
}

#[test]
fn boot_information_sizes() {
    assert!(AdditonalMemoryMap::new(0x1000, 0x2000, 0).is_none());
    assert_eq!(AdditonalMemoryMap::new(0x1000, 0x2000, 0x100).unwrap().actual_size, 0x100);
    assert!(GraphicInfo::new(0xB800_0000, 0).is_none());
    assert_eq!(FontInfo::new(0x10, 8).unwrap().font_size, 8);
}

#[test]
fn nvme_completion_status() {
    assert!(is_command_successful(&[0, 0, 0, 0x0001_0000]));
    assert!(!is_command_successful(&[0, 0, 0, 0x0002_0000]));
}

#[test]
fn serial_port_dummies() {
    dummy_putc(0, b'a');
    assert_eq!(dummy_getc(0), None);
    assert!(dummy_wait_buffer(0));
    assert!(!dummy_interrupt_setup(0, 1, |_| true));
}

#[test]
fn vga_text_writes_and_wraps() {
    let mut v = VgaTextDriver::new(0xB8000, 4, 2, CrtAddress::Io(0x3D4));
    v.write(b"ab", TextColor::White, TextColor::Black);
    assert_eq!(v.get_cells()[0], 0x0F00 | b'a' as u16);
    assert_eq!(v.get_cursor_position(), 2);
    v.write(b"\n", TextColor::White, TextColor::Black);
    assert_eq!(v.get_cells()[2], 0x20);
    assert_eq!(v.get_cursor_position(), 4);
    v.write(b"wxyz", TextColor::Green, TextColor::Black);
    // the fourth character ends the last line: the screen scrolls up by one
    assert_eq!(v.get_cursor_position(), 4);
    assert_eq!(v.get_cells()[0], 0x0A00 | b'w' as u16);
    assert_eq!(v.get_cells()[4], 0);
    v.write(b"q\x08", TextColor::White, TextColor::Black);
    assert_eq!(v.get_cells()[4], 0x20);
    assert_eq!(v.get_cursor_position(), 4);
    v.init();
    assert!(v.get_cells().iter().all(|c| *c == 0));
    assert_eq!(text_color_to_number(TextColor::Custom(1)), 0xF);
}

#[test]
fn lpc_setup_sets_three_enable_bits() {
    assert_eq!(LpcManager::enable_bits(), vec![(0x44, 0x80), (0x4C, 0x10), (0x80, 0x0800_0000)]);
    assert_eq!(LpcManager::enabled(0x0000_0001, 0x80), 0x81);
    assert_eq!(LpcManager::enabled(0x80, 0x80), 0x80);
}

#[test]
fn nvme_controller_registers() {
    let cap: u64 = (2u64 << 32) | 0x3FF;
    let c = decode_capabilities(cap);
    assert_eq!(c.stride, 16);
    assert_eq!(c.max_queue, 0x400);
    assert_eq!(c.memory_page_min, 0);
    assert!(!c.no_io_command_set);
    assert_eq!(queue_entry_sizes(0), (4, 6));
    assert_eq!(queue_entry_sizes(0x0046_0000), (4, 6));
    let setup = plan_controller_setup(0x10400, cap, 0).unwrap();
    assert_eq!(setup.enable_value, 0x46_0001);
    assert_eq!(setup.reset_value, None);
    assert_eq!((setup.admin_completion_entries, setup.admin_submission_entries), (256, 64));
    assert_eq!(admin_queue_attributes(&setup), Some((256 << 16) | 64));
    assert_eq!(plan_controller_setup(0x10400, cap, 1).unwrap().reset_value, Some(0));
    assert_eq!(plan_controller_setup(0x20100, cap, 0).unwrap_err(), NvmeSetupError::UnsupportedVersion);
    assert_eq!(plan_controller_setup(0x10400, cap | (1 << 48), 0).unwrap_err(), NvmeSetupError::UnsupportedPageSize);
    assert_eq!(plan_controller_setup(0x10400, cap, 0x0007_0000).unwrap_err(), NvmeSetupError::UnsupportedQueueEntrySize);
    let small = plan_controller_setup(0x10400, 0x3F, 0).unwrap();
    assert_eq!(admin_queue_attributes(&small), None);
    assert_eq!(bar_kind(0xFEB0_0004), (true, true));
    assert_eq!(bar_kind(0x0000_E001), (false, false));
    assert_eq!(bar_base_address(0xFEB0_0004, 1, true), 0x1_FEB0_0000);
    assert_eq!(bar_base_address(0xFEB0_0000, 1, false), 0xFEB0_0000);
}

#[test]
fn nvme_queue_ring() {
    let mut q = NvmeQueue::new(1, 2, 2);
    let s1 = q.submit([0xAAAA_0006u32; 16], 4);
    assert_eq!(s1.command_id, 1);
    assert_eq!(s1.command[0], 0x0001_0006);
    assert_eq!(s1.command[5], 0xAAAA_0006);
    assert_eq!((s1.slot_offset, s1.doorbell_offset, s1.tail), (0, 0x1008, 1));
    let s2 = q.submit([0u32; 16], 4);
    assert_eq!((s2.command_id, s2.slot_offset, s2.tail), (2, 64, 0));
    let c = q.take_completion(4);
    assert_eq!((c.slot_offset, c.doorbell_offset, c.head), (0, 0x100C, 1));
    assert_eq!(q.take_completion(4).head, 0);
    assert!(is_completion_posted(0x0001_0002));
    assert!(!is_completion_posted(0x0000_0002));
    assert_eq!(completion_command_id(0x0001_0002), 2);
}

#[test]
fn nvme_commands() {
    let i = identify_command(0x1234_5678_9ABC, 1, 0);
    assert_eq!((i[0], i[6], i[7], i[10]), (6, 0x5678_9ABC, 0x1234, 1));
    let cq = create_completion_queue_command(0x2000, 256, 1, 0, true);
    assert_eq!((cq[0], cq[10], cq[11]), (5, (255 << 16) | 1, 3));
    let sq = create_submission_queue_command(0x3000, 64, 1, 1, 0);
    assert_eq!((sq[0], sq[10], sq[11]), (1, (63 << 16) | 1, (1 << 16) | 1));
    let r = read_command(0x3000, 0, 0x1_0000_0002, 8);
    assert_eq!((r[0], r[1], r[6], r[10], r[11], r[12]), (2, 1, 0x3000, 2, 1, 7));
    assert_eq!(lba_format_index(0x25), 0x15);
    assert_eq!(lba_data_size(0x0009_0000), 9);
    assert_eq!(prp_list_entries(0x10000, 0x3000), vec![0x11000, 0x11000, 0x11000]);
    assert!(prp_list_entries(0x10000, 0x1000).is_empty());
}

#[test]
fn nvme_read_checks() {
    let mut m = NvmeManager::new(NvmeQueue::new(0, 256, 64), 4);
    m.add_name_space(NameSpace { name_space_id: 1, name_space_lba_size: 1000, sector_size_exp_index: 9 });
    assert_eq!(m.get_lba_sector_size(0), 512);
    assert_eq!(m.plan_read_data(0, 0, 512), Ok((0, 1)));
    assert_eq!(m.plan_read_data(0, 1024, 1000), Ok((2, 2)));
    assert!(m.plan_read_data(0, 512, 512).is_err());
    assert!(m.plan_read_data(0, 0, 8192).is_err());
    assert!(m.plan_read_data(0, 0, 0).is_err());
    assert!(m.plan_read_data(1, 0, 512).is_err());
    assert!(m.plan_read_data_lba(0, 10, 2).is_err());
    m.add_name_space(NameSpace { name_space_id: 2, name_space_lba_size: 100000, sector_size_exp_index: 9 });
    assert_eq!(m.plan_read_data_lba(1, 10, 2), Ok(1024));
    assert!(m.add_io_queue(NvmeQueue::new(1, 256, 64)).is_ok());
    assert!(m.add_io_queue(NvmeQueue::new(3, 256, 64)).is_err());
    assert_eq!(m.io_queue_index(1), Ok(0));
    assert!(m.io_queue_index(0).is_err());
    assert!(m.io_queue_index(2).is_err());
}

#[test]
fn i210_registers_and_mac() {
    assert_eq!(receive_control(), 0x0400_801E);
    assert_eq!(transmit_control(), 0x800A);
    assert_eq!(transmit_ipg(), 0x0060_1008);
    assert_eq!(base_address(0xF7C0_0004, 0x1), 0x1_F7C0_0000);
    assert_eq!(base_address(0xF7C0_0000, 0x1), 0xF7C0_0000);
    assert_eq!(mac_from_registers(0x5634_1200, 0x9A78), [0x00, 0x12, 0x34, 0x56, 0x78, 0x9A]);
    assert_eq!(mac_from_eeprom([0x1B00, 0x3C21, 0x0D4B]), [0x00, 0x1B, 0x21, 0x3C, 0x4B, 0x0D]);
    assert_eq!(eeprom_read_command(2), 9);
    assert_eq!(eeprom_read_result(0xABCD_0002), (true, 0xABCD));
    assert_eq!(eeprom_read_result(0xABCD_0000), (false, 0xABCD));
    assert_eq!(get_next_transfer_pointer(255), 0);
    assert_eq!(get_next_receive_pointer(3), 4);
}

#[test]
fn i210_transmit_descriptors_split_long_frames() {
    assert_eq!(transmit_descriptors(0x1000, 60), vec![(0x1000, 60 | CMD_EOP | CMD_RS)]);
    let d = transmit_descriptors(0x2000, 0x1_0003);
    assert_eq!(d, vec![(0x2000, 0xFFFF | CMD_RS), (0x2000, 4 | CMD_EOP | CMD_RS)]);
    assert!(transmit_descriptors(0x2000, 0).is_empty());
}

#[test]
fn i210_rings() {
    let mut m = I210Manager::new();
    assert_eq!(m.get_receive_tail(), 255);
    assert_eq!(m.enqueue_transmit(7), Some((0, 1)));
    assert_eq!(m.enqueue_transmit(8), Some((1, 2)));
    let mut status = vec![0u64; 256];
    status[0] = 1 << 32;
    status[1] = 2 << 32;
    let reaped = m.reap_transmitted(&status, 2);
    assert_eq!(reaped, vec![(7, true, 0), (8, false, 1)]);
    assert_eq!(m.get_transfer_head(), 2);
    let mut rx = vec![0u64; 256];
    rx[0] = (1 << 32) | 64;
    rx[1] = (1 << 32) | 1500;
    let frames = m.reap_received(&rx, 2);
    assert_eq!(frames, vec![(0, 64), (1, 1500)]);
    assert_eq!(m.get_receive_tail(), 1);
    assert!(m.reap_received(&rx, 2).is_empty());
    let mut full = I210Manager::new();
    for i in 0..255 {
        assert!(full.enqueue_transmit(i).is_some());
    }
    assert_eq!(full.enqueue_transmit(999), None);
    full.adjust_transfer_head(255);
    assert_eq!(full.get_transfer_head(), 255);
    full.adjust_transfer_head(10);
    assert_eq!(full.get_transfer_head(), 255);
}
