//! General-purpose events: a block of status ports followed by as many
//! enable ports, eight events to a port.
use vstd::prelude::*;

verus! {

/// The GPE block at I/O `gpe_block`, with `gpe_count` status ports, whose
/// first event has the number `base_number`. A block at 0 is absent.
pub struct GpeManager {
    gpe_block: usize,
    gpe_count: usize,
    base_number: usize,
}

/// Where an event lives: its status and enable ports and its bit in both.
#[derive(Debug, Clone, Copy, PartialEq, Eq, Structural)]
pub struct GpeLocation {
    pub status_port: usize,
    pub enable_port: usize,
    pub bit: u8,
}

/// The number of trailing zero bits of a nonzero byte.
pub open spec fn trailing_zeros8(x: int) -> int
    decreases x,
{
    if x <= 0 || x % 2 == 1 {
        0
    } else {
        1 + trailing_zeros8(x / 2)
    }
}

/// What a scan of the masked status bytes `st` from port `i` on finds, the
/// first event of port `i` having the number `bit`: the number of an event,
/// none, or a port whose only pending event is its last one while it is not
/// past `skip`, where the scan cannot go on.
pub enum GpeScan {
    Found(int),
    NotFound,
    Stuck,
}

pub open spec fn scan_gpe(st: Seq<u8>, i: int, bit: int, skip: Option<int>) -> GpeScan
    decreases st.len() - i,
{
    if i < 0 || i >= st.len() {
        GpeScan::NotFound
    } else if st[i] == 0 {
        scan_gpe(st, i + 1, bit + 8, skip)
    } else {
        let tz = trailing_zeros8(st[i] as int);
        let b = bit + tz;
        if skip is None || b > skip->0 {
            GpeScan::Found(b)
        } else if tz == 7 {
            GpeScan::Stuck
        } else {
            let rest = (st[i] as int) / pow2_8(tz + 1);
            if rest != 0 {
                GpeScan::Found(b + 1 + trailing_zeros8(rest))
            } else {
                scan_gpe(st, i + 1, bit + 8, skip)
            }
        }
    }
}

/// `2` to the power `n`, for `0 <= n <= 8`.
pub open spec fn pow2_8(n: int) -> int
    decreases n,
{
    if n <= 0 {
        1
    } else {
        2 * pow2_8(n - 1)
    }
}

proof fn lemma_trailing_zeros_bound(x: int)
    requires
        0 < x < 256,
    ensures
        0 <= trailing_zeros8(x) <= 7,
        (x / pow2_8(trailing_zeros8(x))) % 2 == 1,
{
    assert(pow2_8(8) == 256) by {
        reveal_with_fuel(pow2_8, 9);
    }
    lemma_tz_lt(x, 8);
    lemma_tz_odd(x);
}

proof fn lemma_tz_lt(x: int, k: int)
    requires
        0 <= k <= 8,
        0 < x < pow2_8(k),
    ensures
        0 <= trailing_zeros8(x) < k,
    decreases x,
{
    if x % 2 == 0 {
        if k == 0 {
            assert(false);
        }
        assert(pow2_8(k) == 2 * pow2_8(k - 1));
        lemma_tz_lt(x / 2, k - 1);
    } else {
        if k == 0 {
            assert(false);
        }
    }
}

proof fn lemma_tz_odd(x: int)
    requires
        0 < x,
    ensures
        (x / pow2_8(trailing_zeros8(x))) % 2 == 1,
    decreases x,
{
    if x % 2 == 0 {
        lemma_tz_odd(x / 2);
        let t = trailing_zeros8(x / 2);
        lemma_pow2_8_pos(t);
        assert(t >= 0) by {
            lemma_tz_nonneg(x / 2);
        }
        assert(pow2_8(t + 1) == 2 * pow2_8(t));
        lemma_div_div(x, 2, pow2_8(t));
    }
}

proof fn lemma_tz_nonneg(x: int)
    ensures
        trailing_zeros8(x) >= 0,
    decreases x,
{
    if x > 0 && x % 2 == 0 {
        lemma_tz_nonneg(x / 2);
    }
}

proof fn lemma_pow2_8_add(a: int, b: int)
    requires
        a >= 0,
        b >= 0,
    ensures
        pow2_8(a) * pow2_8(b) == pow2_8(a + b),
    decreases a,
{
    if a > 0 {
        lemma_pow2_8_add(a - 1, b);
        assert(pow2_8(a) * pow2_8(b) == 2 * (pow2_8(a - 1) * pow2_8(b))) by (nonlinear_arith)
            requires
                pow2_8(a) == 2 * pow2_8(a - 1),
        ;
    }
}

/// The pending events above the lowest one of a byte come before the end of
/// the byte.
proof fn lemma_rest_bound(x: int, tz: int)
    requires
        0 < x < 256,
        0 <= tz <= 6,
        x / pow2_8(tz + 1) > 0,
    ensures
        trailing_zeros8(x / pow2_8(tz + 1)) < 7 - tz,
{
    lemma_pow2_8_add(7 - tz, tz + 1);
    reveal_with_fuel(pow2_8, 9);
    let d = pow2_8(tz + 1);
    let q = pow2_8(7 - tz);
    lemma_pow2_8_pos(tz + 1);
    assert(x / d < q) by (nonlinear_arith)
        requires
            x < q * d,
            d > 0,
    ;
    lemma_tz_lt(x / d, 7 - tz);
}

proof fn lemma_div_div(x: int, a: int, b: int)
    requires
        x >= 0,
        a > 0,
        b > 0,
    ensures
        x / a / b == x / (a * b),
{
    vstd::arithmetic::div_mod::lemma_div_denominator(x, a, b);
}

/// The number of trailing zeros of a nonzero byte.
fn trailing_zeros(x: u8) -> (r: u8)
    requires
        x != 0,
    ensures
        r == trailing_zeros8(x as int),
        r <= 7,
{
    let mut v: u8 = x;
    let mut n: u8 = 0;
    proof {
        lemma_trailing_zeros_bound(x as int);
    }
    while v % 2 == 0
        invariant
            v != 0,
            n + trailing_zeros8(v as int) == trailing_zeros8(x as int),
            n <= 7,
            0 < x < 256,
            trailing_zeros8(x as int) <= 7,
        decreases v,
    {
        proof {
            lemma_trailing_zeros_bound(x as int);
            lemma_trailing_zeros_bound(v as int);
        }
        v = v / 2;
        n = n + 1;
    }
    proof {
        lemma_trailing_zeros_bound(x as int);
    }
    n
}

impl GpeManager {
    pub closed spec fn spec_block(&self) -> usize {
        self.gpe_block
    }

    pub closed spec fn spec_count(&self) -> usize {
        self.gpe_count
    }

    pub closed spec fn spec_base(&self) -> usize {
        self.base_number
    }

    /// The number one past the last event that the range checks admit.
    pub open spec fn spec_limit(&self) -> int {
        self.spec_base() + self.spec_count() * 8
    }

    /// The numbers of the block stay within `usize`.
    pub open spec fn wf(&self) -> bool {
        &&& self.spec_limit() <= usize::MAX
        &&& self.spec_block() + 2 * self.spec_count() <= usize::MAX
    }

    pub fn new(gpe_block: usize, gpe_count: usize, base_number: usize) -> (r: Self)
        ensures
            r.spec_block() == gpe_block,
            r.spec_count() == gpe_count,
            r.spec_base() == base_number,
    {
        GpeManager { gpe_count, gpe_block, base_number }
    }

    pub fn get_gpe_min_number(&self) -> (r: usize)
        ensures
            r == self.spec_base(),
    {
        self.base_number
    }

    /// The number of the last event of the block.
    pub fn get_gpe_max_number(&self) -> (r: usize)
        requires
            self.wf(),
            self.spec_limit() >= 1,
        ensures
            r == self.spec_limit() - 1,
    {
        self.base_number + self.gpe_count * 8 - 1
    }

    /// The port writes that reset the block: every status port to `0xFF`,
    /// then every enable port to 0; none where the block is absent.
    pub fn init(&self) -> (r: Vec<(usize, u8)>)
        requires
            self.wf(),
        ensures
            self.spec_block() == 0 ==> r@.len() == 0,
            self.spec_block() != 0 ==> r@.len() == 2 * self.spec_count() && (forall|i: int|
                0 <= i < self.spec_count() ==> #[trigger] r@[i] == (
                (self.spec_block() + i) as usize,
                0xFFu8,
            )) && (forall|i: int|
                self.spec_count() <= i < 2 * self.spec_count() ==> #[trigger] r@[i] == (
                (self.spec_block() + i) as usize,
                0u8,
            )),
    {
        let mut writes: Vec<(usize, u8)> = Vec::new();
        if self.gpe_block != 0 {
            let mut i: usize = 0;
            while i < 2 * self.gpe_count
                invariant
                    self.wf(),
                    i <= 2 * self.spec_count(),
                    writes@.len() == i,
                    forall|k: int|
                        0 <= k < i ==> #[trigger] writes@[k] == (
                        (self.spec_block() + k) as usize,
                        if k < self.spec_count() {
                            0xFFu8
                        } else {
                            0u8
                        },
                    ),
                decreases 2 * self.spec_count() - i,
            {
                let value: u8 = if i < self.gpe_count {
                    0xFF
                } else {
                    0
                };
                writes.push((self.gpe_block + i, value));
                i = i + 1;
            }
        }
        writes
    }

    /// Whether `gpe` passes the range check of the block.
    pub open spec fn admits(&self, gpe: int) -> bool {
        self.spec_block() != 0 && self.spec_base() <= gpe <= self.spec_limit()
    }

    /// The ports and the bit of event `gpe`; none where the block is absent
    /// or `gpe` is out of its range. The port is counted from the base
    /// number, the bit from the number itself.
    pub fn locate_gpe(&self, gpe: usize) -> (r: Option<GpeLocation>)
        requires
            self.wf(),
        ensures
            r is None <==> !self.admits(gpe as int),
            r matches Some(l) ==> l.status_port == self.spec_block() + (gpe - self.spec_base()) / 8
                && l.enable_port == self.spec_block() + self.spec_count() + (gpe - self.spec_base())
                / 8 && l.bit == gpe % 8,
    {
        if self.gpe_block == 0 || self.base_number + self.gpe_count * 8 < gpe || gpe
            < self.base_number {
            return None;
        }
        let port_index = (gpe - self.base_number) / 8;
        assert(port_index <= self.spec_count());
        Some(
            GpeLocation {
                status_port: self.gpe_block + port_index,
                enable_port: self.gpe_block + self.gpe_count + port_index,
                bit: (gpe % 8) as u8,
            },
        )
    }

    /// The write that clears the status of event `gpe`, given the byte
    /// `current_status` read from its status port: none where its bit is
    /// clear. `None` where the event is not admitted.
    pub fn clear_status_bit(&self, gpe: usize, current_status: u8) -> (r: Option<Option<(usize, u8)>>)
        requires
            self.wf(),
        ensures
            r is None <==> !self.admits(gpe as int),
            self.admits(gpe as int) ==> r == Some(
                if (current_status as int / pow2_8(gpe as int % 8)) % 2 == 1 {
                    Some(
                        (
                            (self.spec_block() + (gpe - self.spec_base()) / 8) as usize,
                            pow2_8(gpe as int % 8) as u8,
                        ),
                    )
                } else {
                    None
                },
            ),
    {
        match self.locate_gpe(gpe) {
            None => None,
            Some(l) => {
                let bit = l.bit;
                let mask: u8 = shl1(bit);
                let set = bit_set(current_status, bit);
                if set {
                    Some(Some((l.status_port, mask)))
                } else {
                    Some(None)
                }
            },
        }
    }

    /// The write that enables event `gpe`, given the byte `current_enable`
    /// read from its enable port: the byte with the event's bit set.
    /// `None` where the event is not admitted.
    pub fn enable_gpe(&self, gpe: usize, current_enable: u8) -> (r: Option<(usize, u8)>)
        requires
            self.wf(),
        ensures
            r is None <==> !self.admits(gpe as int),
            r matches Some((port, value)) ==> port == self.spec_block() + self.spec_count() + (gpe
                - self.spec_base()) / 8 && value == current_enable | (pow2_8(gpe as int % 8) as u8),
    {
        match self.locate_gpe(gpe) {
            None => None,
            Some(l) => Some((l.enable_port, current_enable | shl1(l.bit))),
        }
    }

    /// What `find_general_purpose_event` gives for the masked status bytes
    /// `st` of the block's ports.
    pub open spec fn spec_find(&self, skip: Option<usize>, st: Seq<u8>) -> GpeScan {
        if self.spec_block() == 0 {
            GpeScan::NotFound
        } else {
            match skip {
                None => scan_gpe(st, 0, self.spec_base() as int, None),
                Some(g) => {
                    let off = (g - self.spec_base()) / 8 * 8;
                    scan_gpe(st, off, off, Some(g as int))
                },
            }
        }
    }

    /// The first pending event of the block after `skip_gpe`, where
    /// `status[i]` is the status byte of port `i` masked by its enable
    /// byte. With `skip_gpe`, the scan starts at the port and the number
    /// that its offset from the base, rounded down to a multiple of eight,
    /// gives.
    pub fn find_general_purpose_event(&self, skip_gpe: Option<usize>, status: &Vec<u8>) -> (r:
        Option<usize>)
        requires
            self.wf(),
            status@.len() == self.spec_count(),
            skip_gpe matches Some(g) ==> g >= self.spec_base(),
            !(self.spec_find(skip_gpe, status@) is Stuck),
        ensures
            r == (match self.spec_find(skip_gpe, status@) {
                GpeScan::Found(n) => Some(n as usize),
                _ => None,
            }),
    {
        if self.gpe_block == 0 {
            return None;
        }
        let (mut i, mut bit) = match skip_gpe {
            None => (0usize, self.base_number),
            Some(g) => {
                let off = (g - self.base_number) / 8 * 8;
                (off, off)
            },
        };
        let ghost skip: Option<int> = match skip_gpe {
            None => None,
            Some(g) => Some(g as int),
        };
        assert(self.spec_find(skip_gpe, status@) == scan_gpe(status@, i as int, bit as int, skip));
        while i < status.len()
            invariant
                self.wf(),
                status@.len() == self.spec_count(),
                i < status@.len() ==> bit + 8 * (status@.len() - i) <= self.spec_limit(),
                skip == (match skip_gpe {
                    None => None::<int>,
                    Some(g) => Some(g as int),
                }),
                !(scan_gpe(status@, i as int, bit as int, skip) is Stuck),
                self.spec_find(skip_gpe, status@) == scan_gpe(status@, i as int, bit as int, skip),
            decreases status@.len() - i,
        {
            let s = status[i];
            if s != 0 {
                let tz = trailing_zeros(s);
                proof {
                    lemma_trailing_zeros_bound(s as int);
                }
                let b = bit + tz as usize;
                let past = match skip_gpe {
                    None => true,
                    Some(g) => b > g,
                };
                if past {
                    return Some(b);
                }
                let rest: u8 = shr(s, tz + 1);
                if rest != 0 {
                    let t2 = trailing_zeros(rest);
                    proof {
                        if tz == 7 {
                            assert(false);
                        }
                        lemma_rest_bound(s as int, tz as int);
                    }
                    return Some(b + 1 + t2 as usize);
                }
            }
            i = i + 1;
            bit = bit + 8;
        }
        None
    }
}

/// `1 << bit` for a bit of a byte.
fn shl1(bit: u8) -> (r: u8)
    requires
        bit < 8,
    ensures
        r == pow2_8(bit as int),
{
    let mut r: u8 = 1;
    let mut i: u8 = 0;
    while i < bit
        invariant
            i <= bit < 8,
            r == pow2_8(i as int),
            r <= 128,
        decreases bit - i,
    {
        proof {
            reveal_with_fuel(pow2_8, 8);
        }
        r = r * 2;
        i = i + 1;
    }
    r
}

/// `x >> n` for `n <= 7`.
fn shr(x: u8, n: u8) -> (r: u8)
    requires
        1 <= n <= 8,
    ensures
        r == (x as int) / pow2_8(n as int),
{
    let mut r: u8 = x;
    let mut i: u8 = 0;
    while i < n
        invariant
            i <= n <= 8,
            r == (x as int) / pow2_8(i as int),
        decreases n - i,
    {
        proof {
            lemma_pow2_8_pos(i as int);
            lemma_div_div(x as int, pow2_8(i as int), 2);
            assert(pow2_8(i + 1) == pow2_8(i as int) * 2);
        }
        r = r / 2;
        i = i + 1;
    }
    r
}

proof fn lemma_pow2_8_pos(n: int)
    ensures
        pow2_8(n) > 0,
    decreases n,
{
    if n > 0 {
        lemma_pow2_8_pos(n - 1);
    }
}

/// Whether bit `bit` of `x` is set.
fn bit_set(x: u8, bit: u8) -> (r: bool)
    requires
        bit < 8,
    ensures
        r == ((x as int / pow2_8(bit as int)) % 2 == 1),
{
    if bit == 0 {
        x % 2 == 1
    } else {
        shr(x, bit) % 2 == 1
    }
}

} // verus!
