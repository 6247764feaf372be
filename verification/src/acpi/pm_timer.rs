//! The ACPI power-management timer: a counter of 24 or 32 bits that counts
//! up at 3.579545 MHz.
use vstd::prelude::*;

verus! {

/// The counter at I/O `port`, 32 bits wide or 24.
pub struct AcpiPmTimer {
    port: usize,
    is_32_bit_counter: bool,
}

/// The frequency of the timer in Hz.
pub const PM_TIMER_FREQUENCY_HZ: usize = 3579545;

impl AcpiPmTimer {
    pub closed spec fn spec_port(&self) -> usize {
        self.port
    }

    pub closed spec fn spec_is_32_bit(&self) -> bool {
        self.is_32_bit_counter
    }

    /// The largest count: `0xffffffff` or `0xffffff`.
    pub open spec fn spec_max(&self) -> int {
        if self.spec_is_32_bit() {
            0xffffffff
        } else {
            0xffffff
        }
    }

    /// What `get_difference` gives.
    pub open spec fn spec_difference(&self, earlier: usize, later: usize) -> int {
        if earlier <= later {
            later - earlier
        } else {
            later + (self.spec_max() - earlier)
        }
    }

    /// What `get_ending_count_value` gives.
    pub open spec fn spec_ending(&self, start: usize, difference: usize) -> int {
        if self.spec_is_32_bit() {
            (start + difference) % (usize::MAX + 1)
        } else if start + difference <= usize::MAX {
            if start + difference <= 0xffffff {
                start + difference
            } else {
                start + difference - 0xffffff
            }
        } else {
            (start + difference - usize::MAX - 1) + (0xffffffff - 0xffffff)
        }
    }

    pub fn new(port: usize, is_32_bit_counter: bool) -> (r: Self)
        ensures
            r.spec_port() == port,
            r.spec_is_32_bit() == is_32_bit_counter,
    {
        AcpiPmTimer { port, is_32_bit_counter }
    }

    pub fn get_port(&self) -> (r: usize)
        ensures
            r == self.spec_port(),
    {
        self.port
    }

    /// The count in the double word `raw` read from the port: its low 24
    /// bits where the counter has 24.
    pub fn get_count(&self, raw: u32) -> (r: usize)
        ensures
            r == (if self.spec_is_32_bit() {
                raw as int
            } else {
                raw as int % 0x1000000
            }),
    {
        let mut result = raw;
        if self.is_32_bit_counter == false {
            result &= 0xffffff;
            assert(raw & 0xffffff == raw % 0x1000000) by (bit_vector);
        }
        result as usize
    }

    pub fn get_frequency_hz(&self) -> (r: usize)
        ensures
            r == PM_TIMER_FREQUENCY_HZ,
    {
        PM_TIMER_FREQUENCY_HZ
    }

    pub fn is_count_up_timer(&self) -> (r: bool)
        ensures
            r,
    {
        true
    }

    /// The ticks from `earlier` to `later`, the counter having wrapped at
    /// most once. After a wrap, one tick less than the true distance is
    /// counted.
    pub fn get_difference(&self, earlier: usize, later: usize) -> (r: usize)
        requires
            earlier <= self.spec_max(),
        ensures
            r == self.spec_difference(earlier, later),
    {
        if earlier <= later {
            later - earlier
        } else if self.is_32_bit_counter {
            later + (0xffffffff - earlier)
        } else {
            later + (0xffffff - earlier)
        }
    }

    /// The count at which `difference` ticks after `start` have passed.
    pub fn get_ending_count_value(&self, start: usize, difference: usize) -> (r: usize)
        requires
            start + difference > usize::MAX ==> (start + difference - usize::MAX - 1) + (0xffffffff
                - 0xffffff) <= usize::MAX,
        ensures
            r == self.spec_ending(start, difference),
    {
        let overflow = start > usize::MAX - difference;
        let result = start.wrapping_add(difference);
        if self.is_32_bit_counter {
            result
        } else if overflow == false {
            if result <= 0xffffff {
                result
            } else {
                result - 0xffffff
            }
        } else {
            result + (0xffffffff - 0xffffff)
        }
    }

    pub fn get_max_counter_value(&self) -> (r: usize)
        ensures
            r == self.spec_max(),
    {
        if self.is_32_bit_counter {
            0xffffffff
        } else {
            0xffffff
        }
    }
}

/// Between two counts that did not wrap, the ending count of their
/// difference is the later count.
pub proof fn lemma_ending_of_difference(t: AcpiPmTimer, earlier: usize, later: usize)
    requires
        earlier <= later <= t.spec_max(),
    ensures
        t.spec_ending(earlier, t.spec_difference(earlier, later) as usize) == later,
{
    let d = t.spec_difference(earlier, later) as usize;
    assert(d == later - earlier);
    if t.spec_is_32_bit() {
        vstd::arithmetic::div_mod::lemma_small_mod(later as nat, (usize::MAX + 1) as nat);
    }
}


/// The ticks between two counts of a timer: where the counter did not wrap,
/// the later count is the earlier one moved on by them; where it wrapped
/// once (the later count below the earlier one), they are the later count
/// plus what the earlier one lacked of the counter's largest value
/// (`0xffffffff` for 32 bits, `0xffffff` for 24), and never more than that
/// largest value.
pub proof fn lemma_difference_counts(timer: AcpiPmTimer, earlier: usize, later: usize)
    requires
        earlier <= timer.spec_max(),
        later <= timer.spec_max(),
    ensures
        ({
            let max: int = if timer.spec_is_32_bit() { 0xffffffff } else { 0xffffff };
            let d = timer.spec_difference(earlier, later);
            &&& earlier <= later ==> earlier + d == later
            &&& earlier > later ==> d == later + (max - earlier) && 0 <= d < max
        }),
{
}


/// The count at which some ticks end and the ticks between two counts
/// agree: from `start`, the ticks to the ending count of `difference` ticks
/// are `difference`, for a 24-bit counter wrapping below its largest value,
/// and for a 32-bit one that does not wrap.
pub proof fn lemma_ending_then_difference(timer: AcpiPmTimer, start: usize, difference: usize)
    requires
        start <= timer.spec_max(),
        timer.spec_is_32_bit() ==> start + difference <= 0xffffffff,
        !timer.spec_is_32_bit() ==> difference < 0xffffff,
    ensures
        timer.spec_difference(start, timer.spec_ending(start, difference) as usize) == difference,
        0 <= timer.spec_ending(start, difference) <= timer.spec_max(),
{
}

} // verus!
