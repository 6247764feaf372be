//! The Intel I210 Ethernet controller: its register values, its MAC
//! address, and its transmit and receive rings of 256 descriptors each.
use vstd::prelude::*;

verus! {

/// The number of transmit descriptors.
pub const NUM_OF_TX_DESC: u32 = 256;
/// The number of receive descriptors.
pub const NUM_OF_RX_DESC: u32 = 256;
/// The size of a receive buffer.
pub const RX_BUFFER_SIZE: u64 = 2048;
/// The largest length one transmit descriptor carries.
pub const MAX_TX_LENGTH: usize = 0xFFFF;
/// End of packet.
pub const CMD_EOP: u64 = 0x0100_0000;
/// Report status.
pub const CMD_RS: u64 = 0x0800_0000;

pub const CTRL_FD: u32 = 1;
pub const CTRL_SLU: u32 = 0x40;
pub const CTRL_RST: u32 = 0x0400_0000;
pub const ICR_TX_FINISHED: u32 = 0b11;
pub const ICR_RX_FINISHED: u32 = 0x80;
pub const EEC_EE_REQ: u32 = 0x40;
pub const EEC_EE_DET: u32 = 0x8_0000;

/// The receive control value: receiver enabled, broadcasts, 2 KiB buffers,
/// bad packets, unicast and multicast promiscuous, CRC stripped.
pub fn receive_control() -> (r: u32)
    ensures
        r == 0x0400_801Eu32,
{
    assert(0x2u32 | 0x8000u32 | 0x4u32 | 0x8u32 | 0x10u32 | 0x0400_0000u32 == 0x0400_801Eu32) by (bit_vector);
    0x2u32 | 0x8000u32 | 0x4u32 | 0x8u32 | 0x10u32 | 0x0400_0000u32
}

/// The transmit control value: transmitter enabled, short packets padded,
/// broadcasts.
pub fn transmit_control() -> (r: u32)
    ensures
        r == 0x800Au32,
{
    assert(0x2u32 | 0x8u32 | 0x8000u32 == 0x800Au32) by (bit_vector);
    0x2u32 | 0x8u32 | 0x8000u32
}

/// The inter-packet gap value: IPGT 8, IPGR1 4 (from bit 10), IPGR 6
/// (from bit 20).
pub fn transmit_ipg() -> (r: u32)
    ensures
        r == 0x0060_1008u32,
{
    assert(8u32 | (4u32 << 10u32) | (6u32 << 20u32) == 0x0060_1008u32) by (bit_vector);
    8u32 | (4u32 << 10u32) | (6u32 << 20u32)
}

/// The physical base address of the registers: BAR 0 without its four flag
/// bits, with BAR 1 as the upper half where bit 2 marks a 64-bit BAR.
pub fn base_address(bar0: u32, bar1: u32) -> (r: u64)
    ensures
        r == ((bar0 & !0xfu32) as u64) | (if bar0 & 4 != 0 { (bar1 as u64) << 32u64 } else { 0 }),
{
    ((bar0 & !0xfu32) as u64) | (if bar0 & 4 != 0 {
        (bar1 as u64) << 32u64
    } else {
        0
    })
}

/// The MAC address in two little-endian registers: the four bytes of the
/// first, then the two low bytes of the second.
pub fn mac_from_registers(low: u32, high: u32) -> (r: [u8; 6])
    ensures
        r@ == seq![
            (low & 0xff) as u8,
            ((low >> 8u32) & 0xff) as u8,
            ((low >> 16u32) & 0xff) as u8,
            (low >> 24u32) as u8,
            (high & 0xff) as u8,
            ((high >> 8u32) & 0xff) as u8,
        ],
{
    let r = [
        (low & 0xff) as u8,
        ((low >> 8u32) & 0xff) as u8,
        ((low >> 16u32) & 0xff) as u8,
        (low >> 24u32) as u8,
        (high & 0xff) as u8,
        ((high >> 8u32) & 0xff) as u8,
    ];
    assert(r@ =~= seq![
        (low & 0xff) as u8,
        ((low >> 8u32) & 0xff) as u8,
        ((low >> 16u32) & 0xff) as u8,
        (low >> 24u32) as u8,
        (high & 0xff) as u8,
        ((high >> 8u32) & 0xff) as u8,
    ]);
    r
}

/// The MAC address in the first three EEPROM words, low byte first.
pub fn mac_from_eeprom(words: [u16; 3]) -> (r: [u8; 6])
    ensures
        r@ == seq![
            (words[0] & 0xff) as u8,
            (words[0] >> 8u16) as u8,
            (words[1] & 0xff) as u8,
            (words[1] >> 8u16) as u8,
            (words[2] & 0xff) as u8,
            (words[2] >> 8u16) as u8,
        ],
{
    let r = [
        (words[0] & 0xff) as u8,
        (words[0] >> 8u16) as u8,
        (words[1] & 0xff) as u8,
        (words[1] >> 8u16) as u8,
        (words[2] & 0xff) as u8,
        (words[2] >> 8u16) as u8,
    ];
    assert(r@ =~= seq![
        (words[0] & 0xff) as u8,
        (words[0] >> 8u16) as u8,
        (words[1] & 0xff) as u8,
        (words[1] >> 8u16) as u8,
        (words[2] & 0xff) as u8,
        (words[2] >> 8u16) as u8,
    ]);
    r
}

/// The EEPROM read command for word `address`.
pub fn eeprom_read_command(address: u32) -> (r: u32)
    requires
        address < 0x4000_0000,
    ensures
        r == 1u32 | ((address * 4) as u32),
{
    assert(address << 2u32 == address * 4) by (bit_vector)
        requires
            address < 0x4000_0000,
    ;
    1 | (address << 2u32)
}

/// Whether an EEPROM read is done (bit 1), and the word it read (the upper
/// half).
pub fn eeprom_read_result(data: u32) -> (r: (bool, u16))
    ensures
        r == (data & 2 != 0, (data >> 16u32) as u16),
{
    ((data & 2) != 0, (data >> 16u32) as u16)
}

/// The slot after `p` in a ring of 256.
pub open spec fn ring_next(p: u32) -> u32 {
    if p + 1 == 256 {
        0
    } else {
        (p + 1) as u32
    }
}

/// The slot after `current` in the transmit ring.
pub fn get_next_transfer_pointer(current: u32) -> (r: u32)
    requires
        current < NUM_OF_TX_DESC,
    ensures
        r == ring_next(current),
        r < NUM_OF_TX_DESC,
{
    let next = current + 1;
    if next == NUM_OF_TX_DESC {
        0
    } else {
        next
    }
}

/// The slot after `current` in the receive ring.
pub fn get_next_receive_pointer(current: u32) -> (r: u32)
    requires
        current < NUM_OF_RX_DESC,
    ensures
        r == ring_next(current),
        r < NUM_OF_RX_DESC,
{
    let next = current + 1;
    if next == NUM_OF_RX_DESC {
        0
    } else {
        next
    }
}

/// The transmit descriptors of a frame of `length` bytes at `buffer`: full
/// ones of `MAX_TX_LENGTH` bytes, then the rest; each carries the buffer
/// address (the same in every one, as the driver writes them) and its
/// length with report status, the last one also end of packet.
pub open spec fn spec_transmit_descriptors(buffer: u64, length: nat) -> Seq<(u64, u64)>
    decreases length,
{
    if length == 0 {
        Seq::empty()
    } else if length > MAX_TX_LENGTH {
        seq![(buffer, (MAX_TX_LENGTH as u64) | CMD_RS)] + spec_transmit_descriptors(
            buffer,
            (length - MAX_TX_LENGTH) as nat,
        )
    } else {
        seq![(buffer, (length as u64) | CMD_EOP | CMD_RS)]
    }
}

/// The transmit descriptors of a frame, as `spec_transmit_descriptors`
/// gives them.
pub fn transmit_descriptors(buffer: u64, length: usize) -> (r: Vec<(u64, u64)>)
    ensures
        r@ == spec_transmit_descriptors(buffer, length as nat),
{
    let mut r: Vec<(u64, u64)> = Vec::new();
    let mut remaining: usize = length;
    while remaining > 0
        invariant
            remaining <= length,
            r@ + spec_transmit_descriptors(buffer, remaining as nat) == spec_transmit_descriptors(
                buffer,
                length as nat,
            ),
        decreases remaining,
    {
        let transfer = if remaining > MAX_TX_LENGTH {
            MAX_TX_LENGTH
        } else {
            remaining
        };
        let mut command = transfer as u64;
        if transfer == remaining {
            command = command | CMD_EOP;
        }
        command = command | CMD_RS;
        let ghost before = r@;
        r.push((buffer, command));
        proof {
            let rest = spec_transmit_descriptors(buffer, (remaining - transfer) as nat);
            if remaining > MAX_TX_LENGTH {
                assert(spec_transmit_descriptors(buffer, remaining as nat) == seq![(buffer, command)] + rest);
            } else {
                assert(rest =~= Seq::<(u64, u64)>::empty());
                assert(spec_transmit_descriptors(buffer, remaining as nat) == seq![(buffer, command)]);
            }
            assert(r@ + rest =~= before + spec_transmit_descriptors(buffer, remaining as nat));
        }
        remaining = remaining - transfer;
    }
    proof {
        assert(spec_transmit_descriptors(buffer, 0) =~= Seq::<(u64, u64)>::empty());
        assert(r@ + Seq::<(u64, u64)>::empty() =~= r@);
    }
    r
}

/// How far `to` lies after `from` in a ring of 256.
pub open spec fn ring_dist(from: u32, to: u32) -> nat {
    ((to + 256 - from) % 256) as nat
}

/// Moving one slot on brings a slot nearer to another one.
pub proof fn lemma_ring_dist_next(from: u32, to: u32)
    requires
        from < 256,
        to < 256,
        from != to,
    ensures
        ring_dist(ring_next(from), to) < ring_dist(from, to),
{
}

/// The transmissions reaped from the slot `head` on, given the second
/// double word of every descriptor (`status`), the slot the device is at
/// (`device_head`) and the tail: while the descriptor at the head has
/// status bits (32 to 35), the device has gone past it and it is not the
/// tail, it gives its frame number, whether it was sent (bit 32) and its
/// slot; and the head after the last.
pub open spec fn tx_reap(ids: Seq<u32>, status: Seq<u64>, head: u32, tail: u32, device_head: u32) -> (
    Seq<(u32, bool, u32)>,
    u32,
)
    decreases ring_dist(head, tail),
{
    if head < 256 && tail < 256 && head < status.len() && head < ids.len() && (status[head as int] >> 32u64)
        & 0xf != 0 && device_head != head && tail != head {
        proof {
            lemma_ring_dist_next(head, tail);
        }
        let (rest, h) = tx_reap(ids, status, ring_next(head), tail, device_head);
        (seq![(ids[head as int], (status[head as int] >> 32u64) & 1 != 0, head)] + rest, h)
    } else {
        (Seq::empty(), head)
    }
}

/// The frames received from the slot `cur` on, given the second double
/// word of every descriptor and the slot the device is at: while `cur` is
/// not the device's slot and its descriptor is done (bit 32), it gives the
/// slot and the frame's length (bits 0 to 15).
pub open spec fn rx_reap(status: Seq<u64>, cur: u32, device_head: u32) -> Seq<(u32, u64)>
    decreases ring_dist(cur, device_head),
{
    if cur < 256 && device_head < 256 && cur < status.len() && cur != device_head && (status[cur as int]
        >> 32u64) & 1 != 0 {
        proof {
            lemma_ring_dist_next(cur, device_head);
        }
        seq![(cur, status[cur as int] & 0xffff)] + rx_reap(status, ring_next(cur), device_head)
    } else {
        Seq::empty()
    }
}

/// The driver's view of the rings: the frame number of each transmit slot,
/// the transmit tail (the next slot to fill) and head (the next slot to
/// reap), and the receive tail (the last slot handed back).
pub struct I210Manager {
    transfer_ids: Vec<u32>,
    transfer_tail: u32,
    transfer_head: u32,
    receive_tail: u32,
}

impl I210Manager {
    pub closed spec fn ids(&self) -> Seq<u32> {
        self.transfer_ids@
    }

    pub closed spec fn tail(&self) -> u32 {
        self.transfer_tail
    }

    pub closed spec fn head(&self) -> u32 {
        self.transfer_head
    }

    pub closed spec fn rx_tail(&self) -> u32 {
        self.receive_tail
    }

    pub open spec fn wf(&self) -> bool {
        &&& self.ids().len() == 256
        &&& self.tail() < 256
        &&& self.head() < 256
        &&& self.rx_tail() < 256
    }

    /// Empty rings; every receive descriptor handed to the device.
    pub fn new() -> (r: Self)
        ensures
            r.wf(),
            r.tail() == 0,
            r.head() == 0,
            r.rx_tail() == 255,
            r.ids() == Seq::new(256, |i: int| 0u32),
    {
        let mut ids: Vec<u32> = Vec::new();
        let mut i: usize = 0;
        while i < 256
            invariant
                i <= 256,
                ids@ == Seq::new(i as nat, |k: int| 0u32),
            decreases 256 - i,
        {
            ids.push(0);
            i = i + 1;
            proof {
                assert(ids@ =~= Seq::new(i as nat, |k: int| 0u32));
            }
        }
        I210Manager { transfer_ids: ids, transfer_tail: 0, transfer_head: 0, receive_tail: 255 }
    }

    pub fn get_transfer_tail(&self) -> (r: u32)
        ensures
            r == self.tail(),
    {
        self.transfer_tail
    }

    pub fn get_transfer_head(&self) -> (r: u32)
        ensures
            r == self.head(),
    {
        self.transfer_head
    }

    pub fn get_receive_tail(&self) -> (r: u32)
        ensures
            r == self.rx_tail(),
    {
        self.receive_tail
    }

    /// Takes the device's head as the driver's where the driver's head is
    /// one past it (the driver's correction of a head that ran ahead).
    pub fn adjust_transfer_head(&mut self, device_head: u32)
        requires
            old(self).wf(),
            device_head < 256,
        ensures
            final(self).wf(),
            final(self).head() == if old(self).head() == ring_next(device_head) {
                device_head
            } else {
                old(self).head()
            },
            final(self).tail() == old(self).tail(),
            final(self).ids() == old(self).ids(),
            final(self).rx_tail() == old(self).rx_tail(),
    {
        if self.transfer_head == get_next_transfer_pointer(device_head) {
            self.transfer_head = device_head;
        }
    }

    /// Puts one descriptor of frame `id` at the tail: none where the ring
    /// is full (the slot after the tail is the head), and nothing changes;
    /// otherwise the slot and the new tail (to write to the tail register).
    pub fn enqueue_transmit(&mut self, id: u32) -> (r: Option<(u32, u32)>)
        requires
            old(self).wf(),
        ensures
            final(self).wf(),
            r is None <==> ring_next(old(self).tail()) == old(self).head(),
            r is None ==> final(self).ids() == old(self).ids() && final(self).tail() == old(self).tail(),
            r matches Some((slot, tail)) ==> slot == old(self).tail() && tail == ring_next(old(self).tail())
                && final(self).tail() == tail && final(self).ids() == old(self).ids().update(slot as int, id),
            final(self).head() == old(self).head(),
            final(self).rx_tail() == old(self).rx_tail(),
    {
        let next = get_next_transfer_pointer(self.transfer_tail);
        if next == self.transfer_head {
            return None;
        }
        let slot = self.transfer_tail;
        self.transfer_ids.set(slot as usize, id);
        self.transfer_tail = next;
        Some((slot, next))
    }

    /// Reaps the finished transmissions, as `tx_reap` gives them from the
    /// head, given the second double word of every transmit descriptor and
    /// the device's head; the head moves past them (their descriptors are
    /// then cleared by the caller).
    pub fn reap_transmitted(&mut self, status: &Vec<u64>, device_head: u32) -> (r: Vec<(u32, bool, u32)>)
        requires
            old(self).wf(),
            status@.len() == 256,
        ensures
            final(self).wf(),
            r@ == tx_reap(old(self).ids(), status@, old(self).head(), old(self).tail(), device_head).0,
            final(self).head() == tx_reap(old(self).ids(), status@, old(self).head(), old(self).tail(), device_head).1,
            final(self).tail() == old(self).tail(),
            final(self).ids() == old(self).ids(),
            final(self).rx_tail() == old(self).rx_tail(),
    {
        let ghost h0 = self.transfer_head;
        let mut out: Vec<(u32, bool, u32)> = Vec::new();
        while (status[self.transfer_head as usize] >> 32u64) & 0xf != 0 && device_head != self.transfer_head
            && self.transfer_tail != self.transfer_head
            invariant
                self.wf(),
                status@.len() == 256,
                self.tail() == old(self).tail(),
                self.ids() == old(self).ids(),
                self.rx_tail() == old(self).rx_tail(),
                out@ + tx_reap(self.ids(), status@, self.head(), self.tail(), device_head).0 == tx_reap(
                    self.ids(),
                    status@,
                    h0,
                    self.tail(),
                    device_head,
                ).0,
                tx_reap(self.ids(), status@, self.head(), self.tail(), device_head).1 == tx_reap(
                    self.ids(),
                    status@,
                    h0,
                    self.tail(),
                    device_head,
                ).1,
            decreases ring_dist(self.head(), self.tail()),
        {
            let h = self.transfer_head;
            let item = (self.transfer_ids[h as usize], (status[h as usize] >> 32u64) & 1 != 0, h);
            proof {
                lemma_ring_dist_next(h, self.tail());
                let rest = tx_reap(self.ids(), status@, ring_next(h), self.tail(), device_head);
                assert(tx_reap(self.ids(), status@, h, self.tail(), device_head) == (seq![item] + rest.0, rest.1));
                assert(out@.push(item) + rest.0 =~= out@ + (seq![item] + rest.0));
            }
            out.push(item);
            self.transfer_head = get_next_transfer_pointer(h);
        }
        out
    }

    /// Reaps the received frames, as `rx_reap` gives them from the slot
    /// after the receive tail, given the second double word of every
    /// receive descriptor and the device's head; the receive tail moves to
    /// the last of them (each descriptor is then cleared and handed back by
    /// the caller).
    pub fn reap_received(&mut self, status: &Vec<u64>, device_head: u32) -> (r: Vec<(u32, u64)>)
        requires
            old(self).wf(),
            status@.len() == 256,
            device_head < 256,
        ensures
            final(self).wf(),
            r@ == rx_reap(status@, ring_next(old(self).rx_tail()), device_head),
            r@.len() > 0 ==> final(self).rx_tail() == r@.last().0,
            r@.len() == 0 ==> final(self).rx_tail() == old(self).rx_tail(),
            final(self).tail() == old(self).tail(),
            final(self).head() == old(self).head(),
            final(self).ids() == old(self).ids(),
    {
        let mut out: Vec<(u32, u64)> = Vec::new();
        let mut cur = get_next_receive_pointer(self.receive_tail);
        let ghost c0 = cur;
        while cur != device_head && (status[cur as usize] >> 32u64) & 1 != 0
            invariant
                self.wf(),
                cur < 256,
                device_head < 256,
                status@.len() == 256,
                self.tail() == old(self).tail(),
                self.head() == old(self).head(),
                self.ids() == old(self).ids(),
                c0 == ring_next(old(self).rx_tail()),
                out@ + rx_reap(status@, cur, device_head) == rx_reap(status@, c0, device_head),
                out@.len() > 0 ==> self.rx_tail() == out@.last().0,
                out@.len() == 0 ==> self.rx_tail() == old(self).rx_tail(),
            decreases ring_dist(cur, device_head),
        {
            let item = (cur, status[cur as usize] & 0xffff);
            proof {
                lemma_ring_dist_next(cur, device_head);
                let rest = rx_reap(status@, ring_next(cur), device_head);
                assert(rx_reap(status@, cur, device_head) == seq![item] + rest);
                assert(out@.push(item) + rest =~= out@ + (seq![item] + rest));
            }
            out.push(item);
            self.receive_tail = cur;
            cur = get_next_receive_pointer(cur);
        }
        proof {
            assert(rx_reap(status@, cur, device_head) =~= Seq::<(u32, u64)>::empty());
            assert(out@ + Seq::<(u32, u64)>::empty() =~= out@);
        }
        out
    }
}

} // verus!
