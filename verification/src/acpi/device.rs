//! The ACPI devices that the kernel drives itself.
use vstd::prelude::*;
use super::ec::EmbeddedController;
use super::pm_timer::AcpiPmTimer;

verus! {

/// The embedded controller and the PM timer, where present.
pub struct AcpiDeviceManager {
    ec: Option<EmbeddedController>,
    pm_timer: Option<AcpiPmTimer>,
}

impl AcpiDeviceManager {
    pub closed spec fn has_ec(&self) -> bool {
        self.ec is Some
    }

    pub closed spec fn has_pm_timer(&self) -> bool {
        self.pm_timer is Some
    }

    pub closed spec fn spec_pm_timer(&self) -> Option<AcpiPmTimer> {
        self.pm_timer
    }

    pub fn new() -> (r: Self)
        ensures
            !r.has_ec(),
            !r.has_pm_timer(),
    {
        AcpiDeviceManager { ec: None, pm_timer: None }
    }

    pub fn is_pm_timer_available(&self) -> (r: bool)
        ensures
            r == self.has_pm_timer(),
    {
        self.pm_timer.is_some()
    }

    pub fn get_pm_timer(&self) -> (r: Option<&AcpiPmTimer>)
        ensures
            r is Some <==> self.has_pm_timer(),
            r matches Some(t) ==> self.spec_pm_timer() == Some(*t),
    {
        self.pm_timer.as_ref()
    }

    pub fn get_embedded_controller(&self) -> (r: Option<&EmbeddedController>)
        ensures
            r is Some <==> self.has_ec(),
    {
        self.ec.as_ref()
    }

    pub fn set_pm_timer(&mut self, timer: Option<AcpiPmTimer>)
        ensures
            final(self).spec_pm_timer() == timer,
            final(self).has_pm_timer() == timer is Some,
            final(self).has_ec() == old(self).has_ec(),
    {
        self.pm_timer = timer;
    }

    pub fn set_embedded_controller(&mut self, ec: Option<EmbeddedController>)
        ensures
            final(self).has_ec() == ec is Some,
            final(self).spec_pm_timer() == old(self).spec_pm_timer(),
            final(self).has_pm_timer() == old(self).has_pm_timer(),
    {
        self.ec = ec;
    }
}

} // verus!
