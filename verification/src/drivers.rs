//! Device drivers: the boot information handed over by the loader, the
//! I210 Ethernet controller, the LPC bridge, NVMe, the serial-port table
//! and the VGA text console.

pub mod boot_information;
pub mod i210;
pub mod lpc;
pub mod nvme;
pub mod serial_port;
pub mod vga_text;
