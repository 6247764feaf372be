//! The ACPI Embedded Controller: a status/command port and a data port,
//! driven by a handshake on two status bits.
use vstd::prelude::*;

verus! {

pub const RD_EC: u8 = 0x80;
pub const WR_EC: u8 = 0x81;
pub const QR_EC: u8 = 0x84;
/// Burst enable.
pub const BE_EC: u8 = 0x82;
/// Burst disable.
pub const BD_EC: u8 = 0x83;

/// Output buffer full.
pub const OBF: u8 = 1;
/// Input buffer full.
pub const IBF: u8 = 2;
/// An SCI event is pending.
pub const SCI_EVT: u8 = 0x20;

/// A step of a transaction with the controller.
#[derive(Debug, Clone, Copy, PartialEq, Eq, Structural)]
pub enum EcStep {
    /// Read the status port until the input buffer is empty.
    WaitInputBufferEmpty,
    /// Read the status port until the output buffer is full.
    WaitOutputBufferFull,
    /// Write a byte to a port.
    Write(usize, u8),
    /// Read a byte from a port: the result of the transaction.
    Read(usize),
}

/// The controller at the status/command port `ec_sc` and the data port
/// `ec_data`, with the GPE it raises, where known.
pub struct EmbeddedController {
    ec_sc: usize,
    ec_data: usize,
    gpe: Option<usize>,
}

impl EmbeddedController {
    pub closed spec fn spec_sc(&self) -> usize {
        self.ec_sc
    }

    pub closed spec fn spec_data(&self) -> usize {
        self.ec_data
    }

    pub closed spec fn spec_gpe(&self) -> Option<usize> {
        self.gpe
    }

    pub fn new(ec_sc: usize, ec_data: usize, gpe: Option<usize>) -> (r: Self)
        ensures
            r.spec_sc() == ec_sc,
            r.spec_data() == ec_data,
            r.spec_gpe() == gpe,
    {
        EmbeddedController { ec_sc, ec_data, gpe }
    }

    pub fn get_gpe_number(&self) -> (r: Option<usize>)
        ensures
            r == self.spec_gpe(),
    {
        self.gpe
    }

    pub fn set_gpe_number(&mut self, gpe: Option<usize>)
        ensures
            final(self).spec_gpe() == gpe,
            final(self).spec_sc() == old(self).spec_sc(),
            final(self).spec_data() == old(self).spec_data(),
    {
        self.gpe = gpe;
    }

    /// The status/command and data ports.
    pub fn get_ports(&self) -> (r: (usize, usize))
        ensures
            r == (self.spec_sc(), self.spec_data()),
    {
        (self.ec_sc, self.ec_data)
    }

    /// Whether the wait for an empty input buffer goes on, given a status
    /// byte.
    pub fn is_input_buffer_full(status: u8) -> (r: bool)
        ensures
            r == (status & IBF != 0),
    {
        (status & IBF) != 0
    }

    /// Whether the wait for a full output buffer goes on, given a status
    /// byte.
    pub fn is_output_buffer_empty(status: u8) -> (r: bool)
        ensures
            r == (status & OBF == 0),
    {
        (status & OBF) == 0
    }

    /// Whether an SCI event is pending, given a status byte.
    pub fn is_sci_pending(status: u8) -> (r: bool)
        ensures
            r == (status & SCI_EVT != 0),
    {
        (status & SCI_EVT) != 0
    }

    /// The steps that read the byte at `address` of the controller's space.
    pub fn read_data(&self, address: u8) -> (r: Vec<EcStep>)
        ensures
            r@ == seq![
                EcStep::WaitInputBufferEmpty,
                EcStep::Write(self.spec_sc(), RD_EC),
                EcStep::WaitInputBufferEmpty,
                EcStep::Write(self.spec_data(), address),
                EcStep::WaitOutputBufferFull,
                EcStep::Read(self.spec_data()),
            ],
    {
        let r = vec![
            EcStep::WaitInputBufferEmpty,
            EcStep::Write(self.ec_sc, RD_EC),
            EcStep::WaitInputBufferEmpty,
            EcStep::Write(self.ec_data, address),
            EcStep::WaitOutputBufferFull,
            EcStep::Read(self.ec_data),
        ];
        assert(r@ =~= seq![
            EcStep::WaitInputBufferEmpty,
            EcStep::Write(self.spec_sc(), RD_EC),
            EcStep::WaitInputBufferEmpty,
            EcStep::Write(self.spec_data(), address),
            EcStep::WaitOutputBufferFull,
            EcStep::Read(self.spec_data()),
        ]);
        r
    }

    /// The steps that write `data` at `address` of the controller's space.
    pub fn write_data(&self, address: u8, data: u8) -> (r: Vec<EcStep>)
        ensures
            r@ == seq![
                EcStep::WaitInputBufferEmpty,
                EcStep::Write(self.spec_sc(), WR_EC),
                EcStep::WaitInputBufferEmpty,
                EcStep::Write(self.spec_data(), address),
                EcStep::WaitInputBufferEmpty,
                EcStep::Write(self.spec_data(), data),
                EcStep::WaitInputBufferEmpty,
            ],
    {
        let r = vec![
            EcStep::WaitInputBufferEmpty,
            EcStep::Write(self.ec_sc, WR_EC),
            EcStep::WaitInputBufferEmpty,
            EcStep::Write(self.ec_data, address),
            EcStep::WaitInputBufferEmpty,
            EcStep::Write(self.ec_data, data),
            EcStep::WaitInputBufferEmpty,
        ];
        assert(r@ =~= seq![
            EcStep::WaitInputBufferEmpty,
            EcStep::Write(self.spec_sc(), WR_EC),
            EcStep::WaitInputBufferEmpty,
            EcStep::Write(self.spec_data(), address),
            EcStep::WaitInputBufferEmpty,
            EcStep::Write(self.spec_data(), data),
            EcStep::WaitInputBufferEmpty,
        ]);
        r
    }

    /// The steps that read the pending query.
    pub fn read_query(&self) -> (r: Vec<EcStep>)
        ensures
            r@ == seq![
                EcStep::WaitInputBufferEmpty,
                EcStep::Write(self.spec_sc(), QR_EC),
                EcStep::WaitInputBufferEmpty,
                EcStep::WaitOutputBufferFull,
                EcStep::Read(self.spec_data()),
            ],
    {
        let r = vec![
            EcStep::WaitInputBufferEmpty,
            EcStep::Write(self.ec_sc, QR_EC),
            EcStep::WaitInputBufferEmpty,
            EcStep::WaitOutputBufferFull,
            EcStep::Read(self.ec_data),
        ];
        assert(r@ =~= seq![
            EcStep::WaitInputBufferEmpty,
            EcStep::Write(self.spec_sc(), QR_EC),
            EcStep::WaitInputBufferEmpty,
            EcStep::WaitOutputBufferFull,
            EcStep::Read(self.spec_data()),
        ]);
        r
    }

    /// The ports that the controller's resource template gives: two I/O
    /// port descriptors (tag `0x47`) of eight bytes, the data port first;
    /// each port is the low byte of the descriptor's minimum address.
    pub fn ports_from_resources(v: &Vec<u8>) -> (r: Option<(usize, usize)>)
        ensures
            r is Some <==> v@.len() >= 16 && v@[0] == 0x47 && v@[8] == 0x47,
            r matches Some((sc, data)) ==> sc == v@[10] && data == v@[2],
    {
        if v.len() < 16 {
            return None;
        }
        if v[0] != 0x47 {
            return None;
        }
        let ec_data = v[2] as usize;
        if v[8] != 0x47 {
            return None;
        }
        let ec_sc = v[10] as usize;
        Some((ec_sc, ec_data))
    }
}

/// The controller at the fixed ports 0x66 (status/command) and 0x62
/// (data), driven in burst mode: each transaction is bracketed by a burst
/// enable and a burst disable command.
pub struct EmbeddedControllerManager {
    ec_sc: usize,
    ec_data: usize,
}

impl EmbeddedControllerManager {
    pub closed spec fn spec_sc(&self) -> usize {
        self.ec_sc
    }

    pub closed spec fn spec_data(&self) -> usize {
        self.ec_data
    }

    /// The controller at the usual ports.
    pub fn setup() -> (r: Self)
        ensures
            r.spec_sc() == 0x66,
            r.spec_data() == 0x62,
    {
        EmbeddedControllerManager { ec_sc: 0x66, ec_data: 0x62 }
    }

    /// The steps that read the byte at `address`.
    pub fn read_data(&self, address: u8) -> (r: Vec<EcStep>)
        ensures
            r@ == seq![
                EcStep::Write(self.spec_sc(), BE_EC),
                EcStep::WaitInputBufferEmpty,
                EcStep::Write(self.spec_sc(), RD_EC),
                EcStep::WaitInputBufferEmpty,
                EcStep::Write(self.spec_data(), address),
                EcStep::WaitOutputBufferFull,
                EcStep::Read(self.spec_data()),
                EcStep::Write(self.spec_sc(), BD_EC),
            ],
    {
        let r = vec![
            EcStep::Write(self.ec_sc, BE_EC),
            EcStep::WaitInputBufferEmpty,
            EcStep::Write(self.ec_sc, RD_EC),
            EcStep::WaitInputBufferEmpty,
            EcStep::Write(self.ec_data, address),
            EcStep::WaitOutputBufferFull,
            EcStep::Read(self.ec_data),
            EcStep::Write(self.ec_sc, BD_EC),
        ];
        assert(r@ =~= seq![
            EcStep::Write(self.spec_sc(), BE_EC),
            EcStep::WaitInputBufferEmpty,
            EcStep::Write(self.spec_sc(), RD_EC),
            EcStep::WaitInputBufferEmpty,
            EcStep::Write(self.spec_data(), address),
            EcStep::WaitOutputBufferFull,
            EcStep::Read(self.spec_data()),
            EcStep::Write(self.spec_sc(), BD_EC),
        ]);
        r
    }

    /// The steps that write `data` at `address`.
    pub fn write_data(&self, address: u8, data: u8) -> (r: Vec<EcStep>)
        ensures
            r@ == seq![
                EcStep::Write(self.spec_sc(), BE_EC),
                EcStep::WaitInputBufferEmpty,
                EcStep::Write(self.spec_sc(), WR_EC),
                EcStep::WaitInputBufferEmpty,
                EcStep::Write(self.spec_data(), address),
                EcStep::WaitInputBufferEmpty,
                EcStep::Write(self.spec_data(), data),
                EcStep::WaitInputBufferEmpty,
                EcStep::Write(self.spec_sc(), BD_EC),
            ],
    {
        let r = vec![
            EcStep::Write(self.ec_sc, BE_EC),
            EcStep::WaitInputBufferEmpty,
            EcStep::Write(self.ec_sc, WR_EC),
            EcStep::WaitInputBufferEmpty,
            EcStep::Write(self.ec_data, address),
            EcStep::WaitInputBufferEmpty,
            EcStep::Write(self.ec_data, data),
            EcStep::WaitInputBufferEmpty,
            EcStep::Write(self.ec_sc, BD_EC),
        ];
        assert(r@ =~= seq![
            EcStep::Write(self.spec_sc(), BE_EC),
            EcStep::WaitInputBufferEmpty,
            EcStep::Write(self.spec_sc(), WR_EC),
            EcStep::WaitInputBufferEmpty,
            EcStep::Write(self.spec_data(), address),
            EcStep::WaitInputBufferEmpty,
            EcStep::Write(self.spec_data(), data),
            EcStep::WaitInputBufferEmpty,
            EcStep::Write(self.spec_sc(), BD_EC),
        ]);
        r
    }

    /// The steps that read the pending query.
    pub fn read_query(&self) -> (r: Vec<EcStep>)
        ensures
            r@ == seq![
                EcStep::Write(self.spec_sc(), BE_EC),
                EcStep::WaitInputBufferEmpty,
                EcStep::Write(self.spec_sc(), QR_EC),
                EcStep::WaitOutputBufferFull,
                EcStep::Read(self.spec_data()),
                EcStep::Write(self.spec_sc(), BD_EC),
            ],
    {
        let r = vec![
            EcStep::Write(self.ec_sc, BE_EC),
            EcStep::WaitInputBufferEmpty,
            EcStep::Write(self.ec_sc, QR_EC),
            EcStep::WaitOutputBufferFull,
            EcStep::Read(self.ec_data),
            EcStep::Write(self.ec_sc, BD_EC),
        ];
        assert(r@ =~= seq![
            EcStep::Write(self.spec_sc(), BE_EC),
            EcStep::WaitInputBufferEmpty,
            EcStep::Write(self.spec_sc(), QR_EC),
            EcStep::WaitOutputBufferFull,
            EcStep::Read(self.spec_data()),
            EcStep::Write(self.spec_sc(), BD_EC),
        ]);
        r
    }

    /// Whether an SCI event is pending, given a status byte.
    pub fn is_sci_pending(status: u8) -> (r: bool)
        ensures
            r == (status & SCI_EVT != 0),
    {
        (status & SCI_EVT) != 0
    }
}

} // verus!
