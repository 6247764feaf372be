//! The ACPI fixed events.
use vstd::prelude::*;
use super::gpe::GpeManager;

verus! {

/// A fixed event, known by its bit in the PM1 status and enable registers.
#[derive(Debug, Clone, Copy, PartialEq, Eq, Structural)]
pub enum AcpiFixedEvent {
    Global,
    PowerButton,
    SleepButton,
}

impl AcpiFixedEvent {
    pub open spec fn spec_bits(&self) -> u16 {
        match self {
            AcpiFixedEvent::Global => 0x20,
            AcpiFixedEvent::PowerButton => 0x100,
            AcpiFixedEvent::SleepButton => 0x200,
        }
    }

    /// The event's bit in the PM1 registers.
    pub fn bits(&self) -> (r: u16)
        ensures
            r == self.spec_bits(),
    {
        match self {
            AcpiFixedEvent::Global => 0x20,
            AcpiFixedEvent::PowerButton => 0x100,
            AcpiFixedEvent::SleepButton => 0x200,
        }
    }

    /// The event that a set of status bits reports: the power button before
    /// the sleep button; the global event is not reported.
    pub fn from_u16(e: u16) -> (r: Option<Self>)
        ensures
            r == (if e & 0x100 != 0 {
                Some(AcpiFixedEvent::PowerButton)
            } else if e & 0x200 != 0 {
                Some(AcpiFixedEvent::SleepButton)
            } else {
                None
            }),
    {
        if (e & AcpiFixedEvent::PowerButton.bits()) != 0 {
            Some(AcpiFixedEvent::PowerButton)
        } else if (e & AcpiFixedEvent::SleepButton.bits()) != 0 {
            Some(AcpiFixedEvent::SleepButton)
        } else {
            None
        }
    }
}

/// A fixed event read back from its bits is the event itself, but for the
/// global event, which is never reported.
pub proof fn lemma_fixed_event_round_trip(e: AcpiFixedEvent)
    ensures
        e != AcpiFixedEvent::Global ==> (if e.spec_bits() & 0x100 != 0 {
            Some(AcpiFixedEvent::PowerButton)
        } else if e.spec_bits() & 0x200 != 0 {
            Some(AcpiFixedEvent::SleepButton)
        } else {
            None::<AcpiFixedEvent>
        }) == Some(e),
{
    assert(0x100u16 & 0x100u16 == 0x100u16) by (bit_vector);
    assert(0x200u16 & 0x100u16 == 0u16) by (bit_vector);
    assert(0x200u16 & 0x200u16 == 0x200u16) by (bit_vector);
}

/// The PM1 event registers and the GPE blocks: which fixed events are
/// enabled, and where the registers are. Reading and writing the ports is
/// left to the caller: the methods say what to write, given what was read.
pub struct AcpiEventManager {
    pm1a_event_block: usize,
    pm1b_event_block: usize,
    pm1_event_block_len: u8,
    pm1a_enabled_event: u16,
    pm1b_enabled_event: u16,
    gpe0_manager: GpeManager,
    gpe1_manager: Option<GpeManager>,
}

impl AcpiEventManager {
    pub closed spec fn spec_pm1a(&self) -> usize {
        self.pm1a_event_block
    }

    pub closed spec fn spec_pm1b(&self) -> usize {
        self.pm1b_event_block
    }

    pub closed spec fn spec_pm1_len(&self) -> u8 {
        self.pm1_event_block_len
    }

    pub closed spec fn spec_pm1a_enabled(&self) -> u16 {
        self.pm1a_enabled_event
    }

    pub closed spec fn spec_pm1b_enabled(&self) -> u16 {
        self.pm1b_enabled_event
    }

    pub closed spec fn spec_gpe0(&self) -> GpeManager {
        self.gpe0_manager
    }

    pub closed spec fn spec_gpe1(&self) -> Option<GpeManager> {
        self.gpe1_manager
    }

    /// The enable registers follow the status registers, half a block on.
    pub open spec fn wf(&self) -> bool {
        &&& self.spec_pm1a() + self.spec_pm1_len() / 2 <= usize::MAX
        &&& self.spec_pm1b() + self.spec_pm1_len() / 2 <= usize::MAX
    }

    /// The manager of the blocks that the FADT describes: GPE0 holds the
    /// first events; GPE1, where its block and length are not 0, follows
    /// it. Each block's length is split evenly between status and enable
    /// ports.
    pub fn new(
        pm1a_event_block: usize,
        pm1b_event_block: usize,
        pm1_event_block_len: u8,
        gp_event0_block: usize,
        gp_event0_block_len: u8,
        gp_event1_block: usize,
        gp_event1_block_len: u8,
    ) -> (r: Self)
        ensures
            r.spec_pm1a() == pm1a_event_block,
            r.spec_pm1b() == pm1b_event_block,
            r.spec_pm1_len() == pm1_event_block_len,
            r.spec_pm1a_enabled() == 0,
            r.spec_pm1b_enabled() == 0,
            r.spec_gpe0().spec_block() == gp_event0_block,
            r.spec_gpe0().spec_count() == gp_event0_block_len / 2,
            r.spec_gpe0().spec_base() == 0,
            (gp_event1_block != 0 && gp_event1_block_len != 0) ==> (r.spec_gpe1() matches Some(g)
                && g.spec_block() == gp_event1_block && g.spec_count() == gp_event1_block_len / 2
                && g.spec_base() == (gp_event0_block_len / 2) * 8),
            !(gp_event1_block != 0 && gp_event1_block_len != 0) ==> r.spec_gpe1() is None,
    {
        let gpe1_manager = if gp_event1_block != 0 && gp_event1_block_len != 0 {
            Some(
                GpeManager::new(
                    gp_event1_block,
                    (gp_event1_block_len / 2) as usize,
                    ((gp_event0_block_len / 2) as usize) * 8,
                ),
            )
        } else {
            None
        };
        AcpiEventManager {
            pm1a_event_block,
            pm1b_event_block,
            pm1_event_block_len,
            pm1a_enabled_event: 0,
            pm1b_enabled_event: 0,
            gpe0_manager: GpeManager::new(gp_event0_block, (gp_event0_block_len / 2) as usize, 0),
            gpe1_manager,
        }
    }

    /// The ports of the PM1a and PM1b enable registers.
    pub fn pm1_enable_ports(&self) -> (r: (usize, usize))
        requires
            self.wf(),
        ensures
            r == ((self.spec_pm1a() + self.spec_pm1_len() / 2) as usize, (self.spec_pm1b()
                + self.spec_pm1_len() / 2) as usize),
    {
        let half = (self.pm1_event_block_len / 2) as usize;
        (self.pm1a_event_block + half, self.pm1b_event_block + half)
    }

    /// Disables every fixed event: the words to write (0 into each present
    /// enable register).
    pub fn init_event_registers(&mut self) -> (r: Vec<(usize, u16)>)
        requires
            old(self).wf(),
        ensures
            final(self).wf(),
            final(self).spec_pm1a_enabled() == 0,
            final(self).spec_pm1b_enabled() == 0,
            final(self).spec_pm1a() == old(self).spec_pm1a(),
            final(self).spec_pm1b() == old(self).spec_pm1b(),
            final(self).spec_pm1_len() == old(self).spec_pm1_len(),
            final(self).spec_gpe0() == old(self).spec_gpe0(),
            final(self).spec_gpe1() == old(self).spec_gpe1(),
            r@ == (if old(self).spec_pm1a() != 0 {
                seq![((old(self).spec_pm1a() + old(self).spec_pm1_len() / 2) as usize, 0u16)]
            } else {
                Seq::empty()
            }) + (if old(self).spec_pm1b() != 0 {
                seq![((old(self).spec_pm1b() + old(self).spec_pm1_len() / 2) as usize, 0u16)]
            } else {
                Seq::empty()
            }),
    {
        let (a, b) = self.pm1_enable_ports();
        let mut writes: Vec<(usize, u16)> = Vec::new();
        self.pm1a_enabled_event = 0;
        if self.pm1a_event_block != 0 {
            writes.push((a, 0));
        }
        self.pm1b_enabled_event = 0;
        if self.pm1b_event_block != 0 {
            writes.push((b, 0));
        }
        proof {
            assert(writes@ =~= (if old(self).spec_pm1a() != 0 {
                seq![((old(self).spec_pm1a() + old(self).spec_pm1_len() / 2) as usize, 0u16)]
            } else {
                Seq::empty()
            }) + (if old(self).spec_pm1b() != 0 {
                seq![((old(self).spec_pm1b() + old(self).spec_pm1_len() / 2) as usize, 0u16)]
            } else {
                Seq::empty()
            }));
        }
        writes
    }

    /// Enables `event`, given the words `pm1a_enable` and `pm1b_enable`
    /// read from the enable registers: nothing where there are no PM1
    /// blocks or the event is enabled in both; else the event joins the
    /// enabled ones and they are written to PM1a, and to PM1b where it is
    /// present.
    pub fn enable_fixed_event(&mut self, event: AcpiFixedEvent, pm1a_enable: u16, pm1b_enable: u16) -> (r: Vec<(usize, u16)>)
        requires
            old(self).wf(),
        ensures
            final(self).wf(),
            final(self).spec_pm1a() == old(self).spec_pm1a(),
            final(self).spec_pm1b() == old(self).spec_pm1b(),
            final(self).spec_pm1_len() == old(self).spec_pm1_len(),
            final(self).spec_gpe0() == old(self).spec_gpe0(),
            final(self).spec_gpe1() == old(self).spec_gpe1(),
            ({
                let a = (old(self).spec_pm1a() + old(self).spec_pm1_len() / 2) as usize;
                let b = (old(self).spec_pm1b() + old(self).spec_pm1_len() / 2) as usize;
                let bits = event.spec_bits();
                if (old(self).spec_pm1a() == 0 && old(self).spec_pm1b() == 0) || (pm1a_enable & bits
                    != 0 && pm1b_enable & bits != 0) {
                    r@.len() == 0 && final(self).spec_pm1a_enabled() == old(self).spec_pm1a_enabled()
                        && final(self).spec_pm1b_enabled() == old(self).spec_pm1b_enabled()
                } else {
                    let na = old(self).spec_pm1a_enabled() | bits;
                    let nb = old(self).spec_pm1b_enabled() | bits;
                    &&& final(self).spec_pm1a_enabled() == na
                    &&& final(self).spec_pm1b_enabled() == nb
                    &&& r@ == seq![(a, na)] + (if old(self).spec_pm1b() != 0 {
                        seq![(b, nb)]
                    } else {
                        Seq::empty()
                    })
                }
            }),
    {
        let mut writes: Vec<(usize, u16)> = Vec::new();
        let bits = event.bits();
        if self.pm1a_event_block == 0 && self.pm1b_event_block == 0 {
            return writes;
        }
        if (pm1a_enable & bits) != 0 && (pm1b_enable & bits) != 0 {
            return writes;
        }
        let (a, b) = self.pm1_enable_ports();
        self.pm1a_enabled_event = self.pm1a_enabled_event | bits;
        self.pm1b_enabled_event = self.pm1b_enabled_event | bits;
        writes.push((a, self.pm1a_enabled_event));
        if self.pm1b_event_block != 0 {
            writes.push((b, self.pm1b_enabled_event));
        }
        proof {
            let na = old(self).spec_pm1a_enabled() | bits;
            let nb = old(self).spec_pm1b_enabled() | bits;
            assert(writes@ =~= seq![(a, na)] + (if old(self).spec_pm1b() != 0 {
                seq![(b, nb)]
            } else {
                Seq::empty()
            }));
        }
        writes
    }

    /// The fixed event that occurred, given the words read from the PM1a
    /// and PM1b status registers: PM1a first, each masked by its enabled
    /// events; a block at 0 is not looked at.
    pub fn find_occurred_fixed_event(&self, pm1a_status: u16, pm1b_status: u16) -> (r: Option<AcpiFixedEvent>)
        ensures
            ({
                let a = if self.spec_pm1a() != 0 {
                    from_bits(pm1a_status & self.spec_pm1a_enabled())
                } else {
                    None
                };
                r == if a is None && self.spec_pm1b() != 0 {
                    from_bits(pm1b_status & self.spec_pm1b_enabled())
                } else {
                    a
                }
            }),
    {
        let mut result = None;
        if self.pm1a_event_block != 0 {
            result = AcpiFixedEvent::from_u16(pm1a_status & self.pm1a_enabled_event);
        }
        if result.is_none() && self.pm1b_event_block != 0 {
            AcpiFixedEvent::from_u16(pm1b_status & self.pm1b_enabled_event)
        } else {
            result
        }
    }

    /// The words that clear the status of `event`: its bit into PM1a, and
    /// into PM1b where it is present.
    pub fn reset_fixed_event_status(&self, event: AcpiFixedEvent) -> (r: Vec<(usize, u16)>)
        ensures
            r@ == seq![(self.spec_pm1a(), event.spec_bits())] + (if self.spec_pm1b() != 0 {
                seq![(self.spec_pm1b(), event.spec_bits())]
            } else {
                Seq::empty()
            }),
    {
        let mut writes: Vec<(usize, u16)> = Vec::new();
        writes.push((self.pm1a_event_block, event.bits()));
        if self.pm1b_event_block != 0 {
            writes.push((self.pm1b_event_block, event.bits()));
        }
        proof {
            assert(writes@ =~= seq![(self.spec_pm1a(), event.spec_bits())] + (if self.spec_pm1b() != 0 {
                seq![(self.spec_pm1b(), event.spec_bits())]
            } else {
                Seq::empty()
            }));
        }
        writes
    }

    pub fn get_gpe0_manager(&self) -> (r: &GpeManager)
        ensures
            *r == self.spec_gpe0(),
    {
        &self.gpe0_manager
    }

    pub fn get_gpe1_manager(&self) -> (r: Option<&GpeManager>)
        ensures
            r is Some <==> self.spec_gpe1() is Some,
            r matches Some(g) ==> self.spec_gpe1() == Some(*g),
    {
        self.gpe1_manager.as_ref()
    }

    /// The block whose status bit of `gpe` is to be cleared: GPE0 where it
    /// admits the event, else GPE1 where it is present and admits it.
    pub fn clear_gpe_status_bit(&self, gpe: usize) -> (r: Option<&GpeManager>)
        requires
            self.spec_gpe0().wf(),
            self.spec_gpe1() matches Some(g) ==> g.wf(),
        ensures
            self.spec_gpe0().admits(gpe as int) ==> r == Some(&self.spec_gpe0()),
            !self.spec_gpe0().admits(gpe as int) ==> r == match self.spec_gpe1() {
                Some(g) => if g.admits(gpe as int) {
                    Some(&g)
                } else {
                    None
                },
                None => None,
            },
    {
        if self.gpe0_manager.locate_gpe(gpe).is_some() {
            return Some(&self.gpe0_manager);
        }
        match &self.gpe1_manager {
            Some(g) => {
                if g.locate_gpe(gpe).is_some() {
                    Some(g)
                } else {
                    None
                }
            },
            None => None,
        }
    }

    /// The block in which the embedded controller's `ec_gpe` is to be
    /// enabled: GPE1 for a number past the last of GPE0 (none without a
    /// GPE1), GPE0 otherwise.
    pub fn enable_gpes(&self, ec_gpe: usize) -> (r: Option<&GpeManager>)
        requires
            self.spec_gpe0().wf(),
            self.spec_gpe0().spec_limit() >= 1,
        ensures
            ec_gpe > self.spec_gpe0().spec_limit() - 1 ==> r == match self.spec_gpe1() {
                Some(g) => Some(&g),
                None => None,
            },
            ec_gpe <= self.spec_gpe0().spec_limit() - 1 ==> r == Some(&self.spec_gpe0()),
    {
        if ec_gpe > self.gpe0_manager.get_gpe_max_number() {
            self.gpe1_manager.as_ref()
        } else {
            Some(&self.gpe0_manager)
        }
    }
}

/// What `AcpiFixedEvent::from_u16` gives.
pub open spec fn from_bits(e: u16) -> Option<AcpiFixedEvent> {
    if e & 0x100 != 0 {
        Some(AcpiFixedEvent::PowerButton)
    } else if e & 0x200 != 0 {
        Some(AcpiFixedEvent::SleepButton)
    } else {
        None
    }
}

} // verus!
