use lib::acpi::power::{
    acpi_enable_steps, is_control_method_power_button, pm1_control_value, query_method_name, sleep_control_value,
    sleep_state_name, sleep_state_values, AcpiEnableStep,
};
use lib::acpi::device::AcpiDeviceManager;
use lib::acpi::ec::{EcStep, EmbeddedController, EmbeddedControllerManager};
use lib::acpi::pm_timer::AcpiPmTimer;
use lib::acpi::resources::{link_crs_name, parse_link_resource, prt_method_name, search_prt, PrtLookup, ResourceData};
use lib::aml::aml_variable::{AmlPackage, AmlVariable};
use lib::aml::data_object::ConstData;
use lib::aml::name_object::NameString;

#[test]
fn embedded_controller_transactions() {
    let ec = EmbeddedController::new(0x66, 0x62, Some(0x17));
    assert_eq!(ec.get_gpe_number(), Some(0x17));
    assert_eq!(
        ec.read_data(0x10),
        vec![
            EcStep::WaitInputBufferEmpty,
            EcStep::Write(0x66, 0x80),
            EcStep::WaitInputBufferEmpty,
            EcStep::Write(0x62, 0x10),
            EcStep::WaitOutputBufferFull,
            EcStep::Read(0x62),
        ]
    );
    assert_eq!(ec.write_data(1, 2).len(), 7);
    assert_eq!(ec.read_query()[1], EcStep::Write(0x66, 0x84));
    assert!(EmbeddedController::is_input_buffer_full(0x02));
    assert!(EmbeddedController::is_output_buffer_empty(0x02));
    assert!(EmbeddedController::is_sci_pending(0x20));
    let mut crs = vec![0u8; 16];
    crs[0] = 0x47;
    crs[2] = 0x62;
    crs[8] = 0x47;
    crs[10] = 0x66;
    assert_eq!(EmbeddedController::ports_from_resources(&crs), Some((0x66, 0x62)));
    crs[8] = 0;
    assert_eq!(EmbeddedController::ports_from_resources(&crs), None);
}

#[test]
fn device_manager_holds_devices() {
    let mut d = AcpiDeviceManager::new();
    assert!(!d.is_pm_timer_available());
    assert!(d.get_embedded_controller().is_none());
    d.set_pm_timer(Some(AcpiPmTimer::new(0x408, true)));
    assert!(d.is_pm_timer_available());
    assert_eq!(d.get_pm_timer().unwrap().get_port(), 0x408);
}

#[test]
fn link_resources() {
    assert_eq!(parse_link_resource(&vec![0x23, 0x00, 0x02, 0x18]), Some(ResourceData::Irq(9)));
    assert_eq!(parse_link_resource(&vec![0x22, 0x20, 0x00]), Some(ResourceData::Irq(5)));
    assert_eq!(parse_link_resource(&vec![0x22, 0x00, 0x00]), None);
    assert_eq!(
        parse_link_resource(&vec![0x89, 0x06, 0x00, 0x09, 0x01, 0x10, 0, 0, 0]),
        Some(ResourceData::Interrupt(0x10))
    );
    assert_eq!(parse_link_resource(&vec![0x89, 0x06, 0x00, 0x09, 0x02]), None);
    assert_eq!(parse_link_resource(&vec![0x47]), None);
    assert_eq!(parse_link_resource(&Vec::new()), None);
}

fn entry(device: usize, pin: usize, source: AmlPackage, irq: usize) -> AmlPackage {
    AmlPackage::Package(vec![
        AmlPackage::ConstData(ConstData::DWord(((device << 16) | 0xFFFF) as u32)),
        AmlPackage::ConstData(ConstData::Byte(pin as u8)),
        source,
        AmlPackage::ConstData(ConstData::DWord(irq as u32)),
    ])
}

#[test]
fn routing_table_lookup() {
    let link = NameString::from_string("\\_SB.LNKA").unwrap();
    let table = vec![
        entry(1, 0, AmlPackage::ConstData(ConstData::Byte(0)), 16),
        entry(2, 0, AmlPackage::NameString(link), 0),
    ];
    assert_eq!(search_prt(&table, 1, 0), PrtLookup::Irq(16));
    assert_eq!(search_prt(&table, 2, 0), PrtLookup::Link(1));
    assert_eq!(search_prt(&table, 2, 1), PrtLookup::NotFound);
    assert_eq!(search_prt(&table, 3, 0), PrtLookup::NotFound);
    let broken = vec![AmlPackage::ConstData(ConstData::Byte(0))];
    assert_eq!(search_prt(&broken, 1, 0), PrtLookup::Invalid);
}

#[test]
fn method_names() {
    let prt = prt_method_name(0);
    assert!(prt == NameString::from_string("\\_SB.PCI0._PRT").unwrap());
    let link = NameString::from_string("\\_SB.PCI0.LNKB").unwrap();
    let crs = link_crs_name(&link).unwrap();
    assert!(crs == NameString::from_string("\\_SB.LNKB._CRS").unwrap());
}

#[test]
fn burst_mode_controller_brackets_each_transaction() {
    let ec = EmbeddedControllerManager::setup();
    let r = ec.read_data(0x10);
    assert_eq!(r.first(), Some(&EcStep::Write(0x66, 0x82)));
    assert_eq!(r.last(), Some(&EcStep::Write(0x66, 0x83)));
    assert!(r.contains(&EcStep::Write(0x62, 0x10)));
    assert!(r.contains(&EcStep::Read(0x62)));
    let w = ec.write_data(0x10, 0x55);
    assert_eq!(w[2], EcStep::Write(0x66, 0x81));
    assert_eq!(w[6], EcStep::Write(0x62, 0x55));
    let q = ec.read_query();
    assert_eq!(q, vec![
        EcStep::Write(0x66, 0x82),
        EcStep::WaitInputBufferEmpty,
        EcStep::Write(0x66, 0x84),
        EcStep::WaitOutputBufferFull,
        EcStep::Read(0x62),
        EcStep::Write(0x66, 0x83),
    ]);
    assert!(EmbeddedControllerManager::is_sci_pending(0x20));
    assert!(!EmbeddedControllerManager::is_sci_pending(0x02));
}

#[test]
fn switching_to_acpi_mode_and_sleeping() {
    assert!(acpi_enable_steps(0, 0xA0, 0x404, 0).is_empty());
    assert_eq!(
        acpi_enable_steps(0xB2, 0xA0, 0x404, 0),
        vec![AcpiEnableStep::WriteByte(0xB2, 0xA0), AcpiEnableStep::WaitSciEnabled(0x404)]
    );
    assert_eq!(acpi_enable_steps(0xB2, 0xA0, 0x404, 0x408).len(), 3);
    assert_eq!(sleep_state_name(5), Some(*b"_S5\0"));
    assert_eq!(sleep_state_name(6), None);
    let s5 = AmlVariable::Package(vec![
        AmlPackage::ConstData(ConstData::Byte(7)),
        AmlPackage::ConstData(ConstData::Byte(0)),
        AmlPackage::ConstData(ConstData::Byte(0)),
    ]);
    assert_eq!(sleep_state_values(&s5), Some((7, 0)));
    assert_eq!(sleep_state_values(&AmlVariable::Package(vec![AmlPackage::ConstData(ConstData::Byte(7))])), None);
    assert_eq!(sleep_state_values(&AmlVariable::ConstData(ConstData::Byte(7))), None);
    assert_eq!(sleep_control_value(0xFF, 5), 0xF7);
    assert_eq!(pm1_control_value(0x0001, 5), 0x3401);
    assert_eq!(pm1_control_value(0x1C01, 0), 0x2001);
    assert!(is_control_method_power_button(0x10));
    assert!(!is_control_method_power_button(0x20));
    assert_eq!(query_method_name(0x1A), *b"_Q1A");
    assert_eq!(query_method_name(0x05), *b"_Q05");
}
