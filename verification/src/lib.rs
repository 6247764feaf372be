//! Methylenix kernel library: the ACPI Machine Language (AML) parser and
//! the data structures, table readers and decision logic of the kernel,
//! each with a contract proved by Verus.

pub mod aml;
pub mod collections;
pub mod block_device;
pub mod acpi;
pub mod drivers;
pub mod application_loader;
