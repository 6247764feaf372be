//! Globally unique identifiers.
use vstd::prelude::*;
use crate::aml::evaluator::ascii_string;
use crate::aml::name_object::ascii_chars;

verus! {

#[derive(Copy, Clone, Debug, Eq, PartialEq)]
pub struct Guid {
    pub d1: u32,
    pub d2: u16,
    pub d3: u16,
    pub d4: [u8; 8],
}

impl Guid {
    /// A GUID from its written form `d1-d2-d3-d4_high-d4_low`: `d4` holds the
    /// two bytes of `d4_high` and the low six bytes of `d4_low`, most
    /// significant first.
    pub fn new(d1: u32, d2: u16, d3: u16, d4_high: u16, d4_low: u64) -> (r: Self)
        ensures
            r.d1 == d1,
            r.d2 == d2,
            r.d3 == d3,
            r.d4[0] == d4_high / 256,
            r.d4[1] == d4_high % 256,
            forall|i: int| 2 <= i < 8 ==> #[trigger] r.d4[i] == (d4_low as int / pow256((7 - i) as nat)) % 256,
    {
        let mut v: [u8; 8] = [0; 8];
        v[0] = (d4_high / 256) as u8;
        v[1] = (d4_high % 256) as u8;
        let mut low = d4_low;
        let mut i: usize = 7;
        while 1 < i
            invariant
                1 <= i <= 7,
                v[0] == d4_high / 256,
                v[1] == d4_high % 256,
                low == d4_low as int / pow256((7 - i) as nat),
                forall|j: int| i < j < 8 ==> #[trigger] v[j] == (d4_low as int / pow256((7 - j) as nat)) % 256,
            decreases i,
        {
            v[i] = (low % 256) as u8;
            proof {
                lemma_pow256_div(d4_low as int, (7 - i) as nat);
            }
            low = low / 256;
            i = i - 1;
        }
        Guid { d1, d2, d3, d4: v }
    }

    /// A GUID from its sixteen bytes with the first three fields little-endian.
    pub fn new_le(d: &[u8; 16]) -> (r: Self)
        ensures
            r.d1 == d[0] + 256 * d[1] + 65536 * d[2] + 16777216 * d[3],
            r.d2 == d[4] + 256 * d[5],
            r.d3 == d[6] + 256 * d[7],
            forall|i: int| 0 <= i < 8 ==> #[trigger] r.d4[i] == d[8 + i],
    {
        let d1 = d[0] as u32 + 256 * (d[1] as u32) + 65536 * (d[2] as u32) + 16777216 * (d[3] as u32);
        let d2 = d[4] as u16 + 256 * (d[5] as u16);
        let d3 = d[6] as u16 + 256 * (d[7] as u16);
        Guid { d1, d2, d3, d4: [d[8], d[9], d[10], d[11], d[12], d[13], d[14], d[15]] }
    }

    /// A GUID from its sixteen bytes with the first three fields big-endian.
    pub fn new_be(d: &[u8; 16]) -> (r: Self)
        ensures
            r.d1 == 16777216 * d[0] + 65536 * d[1] + 256 * d[2] + d[3],
            r.d2 == 256 * d[4] + d[5],
            r.d3 == 256 * d[6] + d[7],
            forall|i: int| 0 <= i < 8 ==> #[trigger] r.d4[i] == d[8 + i],
    {
        let d1 = 16777216 * (d[0] as u32) + 65536 * (d[1] as u32) + 256 * (d[2] as u32) + d[3] as u32;
        let d2 = 256 * (d[4] as u16) + d[5] as u16;
        let d3 = 256 * (d[6] as u16) + d[7] as u16;
        Guid { d1, d2, d3, d4: [d[8], d[9], d[10], d[11], d[12], d[13], d[14], d[15]] }
    }
}

/// The upper-case hexadecimal digit of `d` (below 16), as an ASCII byte.
pub open spec fn hex_digit(d: nat) -> u8 {
    if d < 10 {
        (0x30 + d) as u8
    } else {
        (0x41 + d - 10) as u8
    }
}

/// The low `width` hexadecimal digits of `v`, most significant first,
/// leading zeros included.
pub open spec fn hex_fixed(v: nat, width: nat) -> Seq<u8>
    decreases width,
{
    if width == 0 {
        Seq::empty()
    } else {
        hex_fixed(v / 16, (width - 1) as nat).push(hex_digit(v % 16))
    }
}

/// The written form of `g`: `d1-d2-d3-` and the eight bytes of `d4`, the
/// first two of them, then a `-`, then the other six, in upper-case
/// hexadecimal with leading zeros.
pub open spec fn guid_text(g: Guid) -> Seq<u8> {
    let dash = seq![0x2du8];
    hex_fixed(g.d1 as nat, 8) + dash + hex_fixed(g.d2 as nat, 4) + dash + hex_fixed(g.d3 as nat, 4) + dash
        + hex_fixed(g.d4[0] as nat, 2) + hex_fixed(g.d4[1] as nat, 2) + dash + hex_fixed(g.d4[2] as nat, 2)
        + hex_fixed(g.d4[3] as nat, 2) + hex_fixed(g.d4[4] as nat, 2) + hex_fixed(g.d4[5] as nat, 2) + hex_fixed(
        g.d4[6] as nat,
        2,
    ) + hex_fixed(g.d4[7] as nat, 2)
}

proof fn lemma_hex_fixed_ascii(v: nat, width: nat)
    ensures
        hex_fixed(v, width).len() == width,
        forall|i: int| 0 <= i < width ==> #[trigger] hex_fixed(v, width)[i] < 0x80,
    decreases width,
{
    if width > 0 {
        lemma_hex_fixed_ascii(v / 16, (width - 1) as nat);
        let p = hex_fixed(v / 16, (width - 1) as nat);
        assert forall|i: int| 0 <= i < width implies #[trigger] hex_fixed(v, width)[i] < 0x80 by {
            if i < width - 1 {
                assert(hex_fixed(v, width)[i] == p[i]);
            }
        }
    }
}

/// Adds the low `width` hexadecimal digits of `v` to `out`.
fn write_hex(v: u64, width: usize, out: &mut Vec<u8>)
    ensures
        final(out)@ == old(out)@ + hex_fixed(v as nat, width as nat),
        (forall|i: int| 0 <= i < old(out)@.len() ==> #[trigger] old(out)@[i] < 0x80) ==> (forall|i: int|
            0 <= i < final(out)@.len() ==> #[trigger] final(out)@[i] < 0x80),
    decreases width,
{
    if width == 0 {
        assert(old(out)@ + hex_fixed(v as nat, 0) =~= old(out)@);
        return;
    }
    write_hex(v / 16, width - 1, out);
    let d = v % 16;
    let c: u8 = if d < 10 {
        (0x30 + d) as u8
    } else {
        (0x41 + d - 10) as u8
    };
    let ghost mid = out@;
    out.push(c);
    proof {
        assert(final(out)@ =~= old(out)@ + hex_fixed(v as nat, width as nat));
        assert forall|i: int| 0 <= i < final(out)@.len() && (forall|k: int| 0 <= k < mid.len() ==> #[trigger] mid[k] < 0x80) implies #[trigger] final(out)@[i] < 0x80 by {
            if i < mid.len() {
                assert(final(out)@[i] == mid[i]);
            }
        }
    }
}

impl Guid {
    /// The written form of the GUID (see `guid_text`), as
    /// `12345678-9ABC-DEF0-1122-334455667788`.
    pub fn to_string(&self) -> (r: String)
        ensures
            r@ == ascii_chars(guid_text(*self)),
    {
        let mut t: Vec<u8> = Vec::new();
        write_hex(self.d1 as u64, 8, &mut t);
        t.push(0x2d);
        write_hex(self.d2 as u64, 4, &mut t);
        t.push(0x2d);
        write_hex(self.d3 as u64, 4, &mut t);
        t.push(0x2d);
        write_hex(self.d4[0] as u64, 2, &mut t);
        write_hex(self.d4[1] as u64, 2, &mut t);
        t.push(0x2d);
        let mut i: usize = 2;
        while i < 8
            invariant
                2 <= i <= 8,
                forall|k: int| 0 <= k < t@.len() ==> #[trigger] t@[k] < 0x80,
                t@ == hex_fixed(self.d1 as nat, 8) + seq![0x2du8] + hex_fixed(self.d2 as nat, 4) + seq![0x2du8]
                    + hex_fixed(self.d3 as nat, 4) + seq![0x2du8] + hex_fixed(self.d4[0] as nat, 2) + hex_fixed(
                    self.d4[1] as nat,
                    2,
                ) + seq![0x2du8] + self.tail_text(i as int),
            decreases 8 - i,
        {
            write_hex(self.d4[i] as u64, 2, &mut t);
            assert(self.tail_text(i + 1) =~= self.tail_text(i as int) + hex_fixed(self.d4[i as int] as nat, 2));
            i = i + 1;
        }
        proof {
            reveal_with_fuel(Guid::tail_text, 7);
            assert(t@ =~= guid_text(*self));
        }
        ascii_string(t)
    }

    /// The hexadecimal digits of bytes 2 up to `i` of `d4`.
    spec fn tail_text(&self, i: int) -> Seq<u8>
        decreases i,
    {
        if i <= 2 {
            Seq::empty()
        } else {
            self.tail_text(i - 1) + hex_fixed(self.d4[i - 1] as nat, 2)
        }
    }
}

/// `256` to the power `n`.
pub open spec fn pow256(n: nat) -> int
    decreases n,
{
    if n == 0 {
        1
    } else {
        256 * pow256((n - 1) as nat)
    }
}

proof fn lemma_pow256_div(v: int, n: nat)
    requires
        v >= 0,
    ensures
        (v / pow256(n)) / 256 == v / pow256(n + 1),
        pow256(n) > 0,
    decreases n,
{
    if n > 0 {
        lemma_pow256_div(v, (n - 1) as nat);
    }
    assert(pow256(n + 1) == 256 * pow256(n));
    vstd::arithmetic::div_mod::lemma_div_denominator(v, pow256(n), 256);
    vstd::arithmetic::mul::lemma_mul_is_commutative(pow256(n), 256);
}

} // verus!
