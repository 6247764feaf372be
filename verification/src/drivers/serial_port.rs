//! The functions that a serial port without a driver is given.
use vstd::prelude::*;

verus! {

/// Writes nothing.
pub fn dummy_putc(_base_address: usize, _c: u8) {
}

/// Reads nothing.
pub fn dummy_getc(_base_address: usize) -> (r: Option<u8>)
    ensures
        r is None,
{
    None
}

/// There is never anything to wait for.
pub fn dummy_wait_buffer(_base_address: usize) -> (r: bool)
    ensures
        r,
{
    true
}

/// Interrupts cannot be set up.
pub fn dummy_interrupt_setup<F: Fn(usize) -> bool>(
    _base_address: usize,
    _interrupt_id: u32,
    _handler: F,
) -> (r: bool)
    ensures
        !r,
{
    false
}

} // verus!
