//! The arithmetic and conversions of the AML interpreter: what the
//! integer, logical and conversion operators compute from their operands.
use vstd::prelude::*;
use super::AmlError;
use super::data_object::{ConstData, utf8_to_string, parse_integer_from_buffer, spec_parse_integer, IntParse};
use super::aml_variable::AmlVariable;
use super::name_object::{ascii_chars, lemma_ascii_decode};
use super::opcode;

verus! {

/// The value of `ONES_OP` as an integer, which a `ToString` length equal to
/// it leaves the buffer whole.
pub const ACPI_INT_ONES: usize = 0xFF;

/// The revision that the `Revision` object gives.
pub const AML_EVALUATOR_REVISION: u8 = 0;

/// What the integer operator `op` gives on `l` and `r`; none for an
/// opcode that is no binary integer operator.
pub open spec fn spec_binary(op: u8, l: usize, r: usize) -> Option<usize> {
    if op == opcode::ADD_OP {
        Some((l + r) as usize)
    } else if op == opcode::AND_OP {
        Some(l & r)
    } else if op == opcode::MULTIPLY_OP {
        Some((l * r) as usize)
    } else if op == opcode::NAND_OP {
        Some(!l | !r)
    } else if op == opcode::MOD_OP {
        Some(l % r)
    } else if op == opcode::NOR_OP {
        Some(!l & !r)
    } else if op == opcode::OR_OP {
        Some(l | r)
    } else if op == opcode::SHIFT_LEFT_OP {
        Some(l << r)
    } else if op == opcode::SHIFT_RIGHT_OP {
        Some(l >> r)
    } else if op == opcode::SUBTRACT_OP {
        Some((l - r) as usize)
    } else if op == opcode::XOR_OP {
        Some(l ^ r)
    } else {
        None
    }
}

/// The bitwise operators mean what their names say, each stated apart from
/// the operator table: NAND is the complement of AND, NOR the complement of
/// OR, AND the complement of NAND's parts, OR what NOR complements, and XOR
/// the bits set in exactly one operand.
pub proof fn lemma_bitwise_operators(l: usize, r: usize)
    ensures
        spec_binary(opcode::NAND_OP, l, r) == Some(!(l & r)),
        spec_binary(opcode::NOR_OP, l, r) == Some(!(l | r)),
        spec_binary(opcode::AND_OP, l, r) == Some(!(!l | !r)),
        spec_binary(opcode::OR_OP, l, r) == Some(!(!l & !r)),
        spec_binary(opcode::XOR_OP, l, r) == Some((l | r) & !(l & r)),
{
    assert(!l | !r == !(l & r)) by (bit_vector);
    assert(!l & !r == !(l | r)) by (bit_vector);
    assert(l & r == !(!l | !r)) by (bit_vector);
    assert(l | r == !(!l & !r)) by (bit_vector);
    assert(l ^ r == (l | r) & !(l & r)) by (bit_vector);
}

/// The arithmetic operators compute on the integers where the operands are
/// ones they take: the sum and the product, the difference that added to
/// the right operand gives the left, the remainder below the divisor that
/// leaves a multiple of it, and shifts that multiply or divide by a power
/// of two.
pub proof fn lemma_arithmetic_operators(l: usize, r: usize)
    ensures
        l + r <= usize::MAX ==> spec_binary(opcode::ADD_OP, l, r) == Some((l + r) as usize),
        l * r <= usize::MAX ==> spec_binary(opcode::MULTIPLY_OP, l, r) == Some((l * r) as usize),
        l >= r ==> (spec_binary(opcode::SUBTRACT_OP, l, r) matches Some(v) && v + r == l),
        r != 0 ==> (spec_binary(opcode::MOD_OP, l, r) matches Some(v) && v < r && (l - v) % (r as int) == 0),
        r < usize::BITS && l * vstd::arithmetic::power2::pow2(r as nat) <= usize::MAX ==> (spec_binary(
            opcode::SHIFT_LEFT_OP,
            l,
            r,
        ) matches Some(v) && v == l * vstd::arithmetic::power2::pow2(r as nat)),
        r < usize::BITS ==> (spec_binary(opcode::SHIFT_RIGHT_OP, l, r) matches Some(v) && v == l as nat
            / vstd::arithmetic::power2::pow2(r as nat)),
{
    if r != 0 {
        vstd::arithmetic::div_mod::lemma_fundamental_div_mod(l as int, r as int);
        assert((l - l % r) == (r as int) * (l as int / r as int));
        vstd::arithmetic::div_mod::lemma_mod_multiples_basic(l as int / r as int, r as int);
        assert(((r as int) * (l as int / r as int)) % (r as int) == 0) by {
            vstd::arithmetic::mul::lemma_mul_is_commutative(r as int, l as int / r as int);
        }
    }
    if r < usize::BITS {
        vstd::bits::lemma_usize_shr_is_div(l, r);
        if l * vstd::arithmetic::power2::pow2(r as nat) <= usize::MAX {
            vstd::bits::lemma_usize_shl_is_mul(l, r);
        }
    }
}

/// The operands are ones on which the operator computes without overflow,
/// division by zero or a shift past the width.
pub open spec fn binary_defined(op: u8, l: usize, r: usize) -> bool {
    &&& op == opcode::ADD_OP ==> l + r <= usize::MAX
    &&& op == opcode::MULTIPLY_OP ==> l * r <= usize::MAX
    &&& op == opcode::MOD_OP ==> r != 0
    &&& (op == opcode::SHIFT_LEFT_OP || op == opcode::SHIFT_RIGHT_OP) ==> r < usize::BITS
    &&& op == opcode::SUBTRACT_OP ==> l >= r
}

/// The wider of two byte sizes.
pub open spec fn wider(a: usize, b: usize) -> usize {
    if a >= b {
        a
    } else {
        b
    }
}

/// The constant that `ConstData::from_usize` makes of `data` for a size of
/// `byte_size` in 1, 2, 4 or 8.
pub open spec fn const_of(data: usize, byte_size: usize) -> ConstData {
    if byte_size == 1 && data <= 0xFF {
        ConstData::Byte(data as u8)
    } else if byte_size <= 2 && data <= 0xFFFF {
        ConstData::Word(data as u16)
    } else if byte_size <= 4 && data <= 0xFFFF_FFFF {
        ConstData::DWord(data as u32)
    } else {
        ConstData::QWord(data as u64)
    }
}

fn make_const(data: usize, byte_size: usize) -> (r: ConstData)
    requires
        byte_size == 1 || byte_size == 2 || byte_size == 4 || byte_size == 8,
    ensures
        r == const_of(data, byte_size),
{
    match ConstData::from_usize(data, byte_size) {
        Ok(c) => c,
        Err(_) => ConstData::QWord(data as u64),
    }
}

/// The integer operator `op` on two integers: the result in the wider of
/// the two sizes (or wider, where it does not fit). An opcode that is no
/// binary integer operator is refused.
pub fn eval_binary_operation(op: u8, left: &ConstData, right: &ConstData) -> (r: Result<ConstData, AmlError>)
    requires
        binary_defined(op, left.spec_value() as usize, right.spec_value() as usize),
    ensures
        match spec_binary(op, left.spec_value() as usize, right.spec_value() as usize) {
            Some(v) => r == Ok::<ConstData, AmlError>(
                const_of(v, wider(left.spec_byte_size(), right.spec_byte_size())),
            ),
            None => (r matches Err(e) && e is InvalidOperation),
        },
{
    let l = left.to_int();
    let rv = right.to_int();
    let result: usize = if op == opcode::ADD_OP {
        l + rv
    } else if op == opcode::AND_OP {
        l & rv
    } else if op == opcode::MULTIPLY_OP {
        l * rv
    } else if op == opcode::NAND_OP {
        !l | !rv
    } else if op == opcode::MOD_OP {
        l % rv
    } else if op == opcode::NOR_OP {
        !l & !rv
    } else if op == opcode::OR_OP {
        l | rv
    } else if op == opcode::SHIFT_LEFT_OP {
        l << rv
    } else if op == opcode::SHIFT_RIGHT_OP {
        l >> rv
    } else if op == opcode::SUBTRACT_OP {
        l - rv
    } else if op == opcode::XOR_OP {
        l ^ rv
    } else {
        return Err(AmlError::InvalidOperation);
    };
    let ls = left.get_byte_size();
    let rs = right.get_byte_size();
    let size = if ls >= rs {
        ls
    } else {
        rs
    };
    Ok(make_const(result, size))
}

/// The quotient and the remainder of `dividend` by `divisor`, both in the
/// wider of the two sizes.
pub fn eval_divide(dividend: &ConstData, divisor: &ConstData) -> (r: (ConstData, ConstData))
    requires
        divisor.spec_value() as usize != 0,
    ensures
        ({
            let l = dividend.spec_value() as usize;
            let d = divisor.spec_value() as usize;
            let size = wider(dividend.spec_byte_size(), divisor.spec_byte_size());
            r == (const_of((l / d) as usize, size), const_of((l % d) as usize, size))
        }),
{
    let l = dividend.to_int();
    let d = divisor.to_int();
    let ls = dividend.get_byte_size();
    let rs = divisor.get_byte_size();
    let size = if ls >= rs {
        ls
    } else {
        rs
    };
    let q = l / d;
    assert(q * d <= l) by (nonlinear_arith)
        requires
            q == l / d,
            d > 0,
    ;
    let rem = l - q * d;
    assert(rem == l % d) by (nonlinear_arith)
        requires
            q == l / d,
            d > 0,
            rem == l - q * d,
    ;
    (make_const(q, size), make_const(rem, size))
}

/// The number of bits up to the highest set one: 0 for 0.
pub open spec fn bit_length(v: nat) -> nat
    decreases v,
{
    if v == 0 {
        0
    } else {
        1 + bit_length(v / 2)
    }
}

/// The position, from 1, of the lowest set bit of a nonzero value.
pub open spec fn lowest_bit(v: nat) -> nat
    decreases v,
{
    if v == 0 || v % 2 == 1 {
        1
    } else {
        1 + lowest_bit(v / 2)
    }
}

/// `FindSetLeftBit` counts the bits up to the highest set one: for a
/// nonzero value, two to one less than that count is at most the value,
/// and two to that count exceeds it.
pub proof fn lemma_bit_length_bounds(v: nat)
    ensures
        v == 0 ==> bit_length(v) == 0,
        v > 0 ==> vstd::arithmetic::power2::pow2((bit_length(v) - 1) as nat) <= v && v
            < vstd::arithmetic::power2::pow2(bit_length(v)),
    decreases v,
{
    if v > 0 {
        lemma_bit_length_bounds(v / 2);
        vstd::arithmetic::power2::lemma_pow2_unfold(bit_length(v));
        if v / 2 > 0 {
            vstd::arithmetic::power2::lemma_pow2_unfold((bit_length(v) - 1) as nat);
        } else {
            vstd::arithmetic::power2::lemma2_to64();
        }
    }
}

/// `FindSetRightBit` finds the lowest set bit: for a nonzero value, the
/// bits below that position are clear and the bit at it is set.
pub proof fn lemma_lowest_bit_set(v: nat)
    requires
        v > 0,
    ensures
        lowest_bit(v) >= 1,
        v % vstd::arithmetic::power2::pow2((lowest_bit(v) - 1) as nat) == 0,
        (v / vstd::arithmetic::power2::pow2((lowest_bit(v) - 1) as nat)) % 2 == 1,
    decreases v,
{
    vstd::arithmetic::power2::lemma2_to64();
    if v % 2 == 0 {
        lemma_lowest_bit_set(v / 2);
        let k = (lowest_bit(v / 2) - 1) as nat;
        let pk = vstd::arithmetic::power2::pow2(k);
        vstd::arithmetic::power2::lemma_pow2_unfold(k + 1);
        vstd::arithmetic::power2::lemma_pow2_pos(k);
        assert(lowest_bit(v) == lowest_bit(v / 2) + 1);
        assert(vstd::arithmetic::power2::pow2((lowest_bit(v) - 1) as nat) == 2 * pk);
        let q = (v / 2) / pk;
        assert(v / 2 == q * pk) by {
            vstd::arithmetic::div_mod::lemma_fundamental_div_mod((v / 2) as int, pk as int);
        }
        assert(v == (2 * pk) * q) by (nonlinear_arith)
            requires
                v % 2 == 0,
                v / 2 == q * pk,
        ;
        vstd::arithmetic::div_mod::lemma_mod_multiples_basic(q as int, (2 * pk) as int);
        vstd::arithmetic::div_mod::lemma_div_multiples_vanish(q as int, (2 * pk) as int);
        vstd::arithmetic::mul::lemma_mul_is_commutative(q as int, (2 * pk) as int);
        assert(v / (2 * pk) == q);
        assert(v % (2 * pk) == 0);
    } else {
        assert(lowest_bit(v) == 1);
        assert(v / 1 == v);
        assert(v % 1 == 0);
    }
}

proof fn lemma_bit_length_bound(v: nat, k: nat)
    requires
        v < vstd::arithmetic::power2::pow2(k),
    ensures
        bit_length(v) <= k,
    decreases v,
{
    if v > 0 {
        if k == 0 {
            vstd::arithmetic::power2::lemma2_to64();
        } else {
            vstd::arithmetic::power2::lemma_pow2_unfold(k);
            lemma_bit_length_bound(v / 2, (k - 1) as nat);
        }
    }
}

proof fn lemma_lowest_bit_bound(v: nat)
    ensures
        lowest_bit(v) <= bit_length(v) || v == 0,
        lowest_bit(v) >= 1,
    decreases v,
{
    if v > 0 && v % 2 == 0 {
        lemma_lowest_bit_bound(v / 2);
    }
}

/// `FindSetLeftBit`: the position, from 1, of the highest set bit; 0 for 0.
pub fn find_set_left_bit(operand: usize) -> (r: ConstData)
    ensures
        r == ConstData::Byte(bit_length(operand as nat) as u8),
{
    let mut v: usize = operand;
    let mut n: u8 = 0;
    proof {
        vstd::arithmetic::power2::lemma2_to64();
        lemma_bit_length_bound(operand as nat, 64);
        if usize::BITS == 32 {
            lemma_bit_length_bound(operand as nat, 32);
        }
    }
    while v > 0
        invariant
            n + bit_length(v as nat) == bit_length(operand as nat),
            bit_length(operand as nat) <= 64,
        decreases v,
    {
        v = v / 2;
        n = n + 1;
    }
    ConstData::Byte(n)
}

/// `FindSetRightBit`: the position, from 1, of the lowest set bit; 0 for 0.
pub fn find_set_right_bit(operand: usize) -> (r: ConstData)
    ensures
        r == ConstData::Byte(if operand == 0 {
            0
        } else {
            lowest_bit(operand as nat) as u8
        }),
{
    if operand == 0 {
        return ConstData::Byte(0);
    }
    let mut v: usize = operand;
    let mut n: u8 = 1;
    proof {
        vstd::arithmetic::power2::lemma2_to64();
        lemma_bit_length_bound(operand as nat, 64);
        lemma_lowest_bit_bound(operand as nat);
    }
    while v % 2 == 0
        invariant
            v > 0,
            n >= 1,
            n - 1 + lowest_bit(v as nat) == lowest_bit(operand as nat),
            lowest_bit(v as nat) <= bit_length(v as nat),
            n - 1 + bit_length(v as nat) <= 64,
        decreases v,
    {
        proof {
            lemma_lowest_bit_bound((v / 2) as nat);
        }
        v = v / 2;
        n = n + 1;
    }
    ConstData::Byte(n)
}

/// `Not`: every bit of the integer flipped, at its own width.
pub fn eval_not(c: &ConstData) -> (r: ConstData)
    ensures
        r == match *c {
            ConstData::Byte(d) => ConstData::Byte(!d),
            ConstData::Word(d) => ConstData::Word(!d),
            ConstData::DWord(d) => ConstData::DWord(!d),
            ConstData::QWord(d) => ConstData::QWord(!d),
        },
{
    match c {
        ConstData::Byte(d) => ConstData::Byte(!*d),
        ConstData::Word(d) => ConstData::Word(!*d),
        ConstData::DWord(d) => ConstData::DWord(!*d),
        ConstData::QWord(d) => ConstData::QWord(!*d),
    }
}

/// One more than `v`, wrapping at the machine's width.
pub open spec fn increment_value(v: usize) -> usize {
    if v == usize::MAX {
        0
    } else {
        (v + 1) as usize
    }
}

/// One less than `v`, wrapping at the machine's width.
pub open spec fn decrement_value(v: usize) -> usize {
    if v == 0 {
        usize::MAX
    } else {
        (v - 1) as usize
    }
}

/// `Increment` and `Decrement` undo each other, and each moves the value
/// by one modulo the machine's word.
pub proof fn lemma_increment_decrement(v: usize)
    ensures
        decrement_value(increment_value(v)) == v,
        increment_value(decrement_value(v)) == v,
        increment_value(v) as int == (v + 1) % (usize::MAX + 1),
        (decrement_value(v) + 1) % (usize::MAX + 1) == v as int,
{
    let m: int = usize::MAX + 1;
    vstd::arithmetic::div_mod::lemma_mod_self_0(m);
    if v == usize::MAX {
        assert(increment_value(v) as int == (v + 1) % m);
    } else {
        vstd::arithmetic::div_mod::lemma_small_mod((v + 1) as nat, m as nat);
    }
    if v == 0 {
        assert((decrement_value(v) + 1) % m == v as int);
    } else {
        vstd::arithmetic::div_mod::lemma_small_mod(v as nat, m as nat);
    }
}

/// `Increment`: one more, wrapping at the machine's width, at the size of
/// the operand or wider.
pub fn eval_increment(c: &ConstData) -> (r: ConstData)
    ensures
        r == const_of(increment_value(c.spec_value() as usize), c.spec_byte_size()),
{
    let v = c.to_int();
    let n = if v == usize::MAX {
        0
    } else {
        v + 1
    };
    make_const(n, c.get_byte_size())
}

/// `Decrement`: one less, wrapping at the machine's width, at the size of
/// the operand or wider.
pub fn eval_decrement(c: &ConstData) -> (r: ConstData)
    ensures
        r == const_of(decrement_value(c.spec_value() as usize), c.spec_byte_size()),
{
    let v = c.to_int();
    let n = if v == 0 {
        usize::MAX
    } else {
        v - 1
    };
    make_const(n, c.get_byte_size())
}

/// The comparisons of the logical operators.
#[derive(Debug, Clone, Copy, PartialEq, Eq, Structural)]
pub enum Comparison {
    Equal,
    Greater,
    GreaterEqual,
    Less,
    LessEqual,
    NotEqual,
}

pub open spec fn spec_compare(kind: Comparison, l: usize, r: usize) -> bool {
    match kind {
        Comparison::Equal => l == r,
        Comparison::Greater => l > r,
        Comparison::GreaterEqual => l >= r,
        Comparison::Less => l < r,
        Comparison::LessEqual => l <= r,
        Comparison::NotEqual => l != r,
    }
}

/// The comparisons agree with one another: exactly one of less, equal and
/// greater holds; greater is less with the operands swapped; and
/// greater-or-equal, less-or-equal and not-equal are the negations of
/// less, greater and equal.
pub proof fn lemma_comparisons(l: usize, r: usize)
    ensures
        spec_compare(Comparison::Less, l, r) || spec_compare(Comparison::Equal, l, r) || spec_compare(
            Comparison::Greater,
            l,
            r,
        ),
        !(spec_compare(Comparison::Less, l, r) && spec_compare(Comparison::Equal, l, r)),
        !(spec_compare(Comparison::Less, l, r) && spec_compare(Comparison::Greater, l, r)),
        !(spec_compare(Comparison::Equal, l, r) && spec_compare(Comparison::Greater, l, r)),
        spec_compare(Comparison::Equal, l, l),
        spec_compare(Comparison::Greater, l, r) == spec_compare(Comparison::Less, r, l),
        spec_compare(Comparison::GreaterEqual, l, r) == !spec_compare(Comparison::Less, l, r),
        spec_compare(Comparison::LessEqual, l, r) == !spec_compare(Comparison::Greater, l, r),
        spec_compare(Comparison::NotEqual, l, r) == !spec_compare(Comparison::Equal, l, r),
        spec_compare(Comparison::Less, l, r) ==> l < r,
{
}

/// A logical result: the byte 1 for true, 0 for false.
pub fn bool_to_const(b: bool) -> (r: ConstData)
    ensures
        r == ConstData::Byte(if b {
            1
        } else {
            0
        }),
{
    ConstData::Byte(if b {
        1
    } else {
        0
    })
}

/// `LEqual`, `LGreater` and the others, on the two integers.
pub fn eval_compare(kind: Comparison, left: &ConstData, right: &ConstData) -> (r: ConstData)
    ensures
        r == ConstData::Byte(
            if spec_compare(kind, left.spec_value() as usize, right.spec_value() as usize) {
                1
            } else {
                0
            },
        ),
{
    let l = left.to_int();
    let rv = right.to_int();
    let b = match kind {
        Comparison::Equal => l == rv,
        Comparison::Greater => l > rv,
        Comparison::GreaterEqual => l >= rv,
        Comparison::Less => l < rv,
        Comparison::LessEqual => l <= rv,
        Comparison::NotEqual => l != rv,
    };
    bool_to_const(b)
}

/// `LNot`: 1 where the integer is 0, else 0.
pub fn eval_logical_not(c: &ConstData) -> (r: ConstData)
    ensures
        r == ConstData::Byte(if c.spec_value() as usize == 0 {
            1
        } else {
            0
        }),
{
    bool_to_const(c.to_int() == 0)
}

/// The integer that `ToInteger` makes of the first eight bytes of a
/// buffer: byte `i` is or-ed in shifted by `i` bits, as the reference
/// interpreter does.
pub open spec fn buffer_bits(b: Seq<u8>, n: nat) -> u64
    decreases n,
{
    if n == 0 {
        0
    } else {
        buffer_bits(b, (n - 1) as nat) | ((b[n - 1] as u64) << ((n - 1) as u64))
    }
}

/// `ToInteger` of a nonempty buffer.
pub fn buffer_to_integer(b: &Vec<u8>) -> (r: ConstData)
    requires
        b@.len() > 0,
    ensures
        r == ConstData::QWord(buffer_bits(b@, if b@.len() < 8 { b@.len() } else { 8 })),
{
    let n = if b.len() < 8 {
        b.len()
    } else {
        8
    };
    let mut result: u64 = 0;
    let mut index: usize = 0;
    while index < n
        invariant
            index <= n <= 8,
            n <= b@.len(),
            result == buffer_bits(b@, index as nat),
        decreases n - index,
    {
        result = result | ((b[index] as u64) << (index as u64));
        index = index + 1;
    }
    ConstData::QWord(result)
}

/// The little-endian bytes of `v`, without trailing zero bytes.
pub open spec fn le_bytes(v: nat) -> Seq<u8>
    decreases v,
{
    if v == 0 {
        Seq::empty()
    } else {
        seq![(v % 256) as u8] + le_bytes(v / 256)
    }
}

/// `ToBuffer` of an integer: its little-endian bytes up to the highest
/// nonzero one; one zero byte for 0.
pub fn integer_to_buffer(v: usize) -> (r: Vec<u8>)
    ensures
        r@ == if v == 0 {
            seq![0u8]
        } else {
            le_bytes(v as nat)
        },
{
    let mut result: Vec<u8> = Vec::new();
    let mut data: usize = v;
    while data != 0
        invariant
            result@ + le_bytes(data as nat) == le_bytes(v as nat),
        decreases data,
    {
        assert(data & 0xff == data % 256) by (bit_vector);
        assert(data >> 8 == data / 256) by (bit_vector);
        let ghost before = result@;
        let ghost d0 = data;
        result.push((data & 0xff) as u8);
        data = data >> 8;
        proof {
            assert(le_bytes(d0 as nat) == seq![(d0 % 256) as u8] + le_bytes((d0 / 256) as nat));
            assert(result@ + le_bytes(data as nat) =~= before + le_bytes(d0 as nat));
        }
    }
    if result.len() == 0 {
        result.push(0);
        proof {
            assert(le_bytes(v as nat).len() == 0);
            if v != 0 {
                assert(le_bytes(v as nat).len() > 0);
            }
        }
    } else {
        proof {
            assert(v != 0);
            assert(result@ =~= le_bytes(v as nat));
        }
    }
    result
}

/// `ToBuffer` of a string: its bytes and a closing NUL; nothing for the
/// empty string.
pub fn string_to_buffer(s: &Vec<u8>) -> (r: Vec<u8>)
    ensures
        r@ == if s@.len() == 0 {
            Seq::<u8>::empty()
        } else {
            s@.push(0)
        },
{
    let mut r: Vec<u8> = Vec::new();
    if s.len() == 0 {
        return r;
    }
    let mut i: usize = 0;
    while i < s.len()
        invariant
            i <= s@.len(),
            r@ == s@.subrange(0, i as int),
        decreases s@.len() - i,
    {
        r.push(s[i]);
        i = i + 1;
        proof {
            assert(r@ =~= s@.subrange(0, i as int));
        }
    }
    r.push(0);
    proof {
        assert(s@.subrange(0, s@.len() as int) =~= s@);
    }
    r
}

/// The bytes that `ToString` keeps of a buffer: the first `len`, unless
/// `len` is 0 or `ACPI_INT_ONES`.
pub open spec fn to_string_bytes(b: Seq<u8>, len: usize) -> Seq<u8> {
    if len != 0 && len != ACPI_INT_ONES && len < b.len() {
        b.subrange(0, len as int)
    } else {
        b
    }
}

/// `ToString` of a buffer: the bytes kept, read as UTF-8; refused where
/// they are not UTF-8. An empty buffer gives the empty string.
pub fn buffer_to_string(b: &Vec<u8>, len: usize) -> (r: Result<String, AmlError>)
    ensures
        b@.len() == 0 ==> (r matches Ok(s) && s@.len() == 0),
        b@.len() > 0 ==> (r is Ok <==> vstd::utf8::valid_utf8(to_string_bytes(b@, len))),
        b@.len() > 0 ==> (r matches Ok(s) ==> s@ == vstd::utf8::decode_utf8(to_string_bytes(b@, len))),
        r matches Err(e) ==> e is InvalidOperation,
{
    if b.len() == 0 {
        return Ok(String::new());
    }
    let n = if len != 0 && len != ACPI_INT_ONES && len < b.len() {
        len
    } else {
        b.len()
    };
    let mut kept: Vec<u8> = Vec::new();
    let mut i: usize = 0;
    while i < n
        invariant
            i <= n <= b@.len(),
            kept@ == b@.subrange(0, i as int),
        decreases n - i,
    {
        kept.push(b[i]);
        i = i + 1;
        proof {
            assert(kept@ =~= b@.subrange(0, i as int));
        }
    }
    proof {
        assert(kept@ =~= to_string_bytes(b@, len));
    }
    match utf8_to_string(kept) {
        Some(s) => Ok(s),
        None => Err(AmlError::InvalidOperation),
    }
}

/// A constant made of an integer holds that integer.
pub proof fn lemma_const_of_value(data: usize, byte_size: usize)
    requires
        byte_size == 1 || byte_size == 2 || byte_size == 4 || byte_size == 8,
    ensures
        const_of(data, byte_size).spec_value() as usize == data,
        const_of(data, byte_size).spec_byte_size() >= byte_size,
{
}

/// The quotient and the remainder that `Divide` gives make up the
/// dividend: `quotient * divisor + remainder == dividend`, with the
/// remainder below the divisor.
pub proof fn lemma_divide_identity(dividend: ConstData, divisor: ConstData)
    requires
        divisor.spec_value() as usize != 0,
    ensures
        ({
            let l = dividend.spec_value() as usize;
            let d = divisor.spec_value() as usize;
            let size = wider(dividend.spec_byte_size(), divisor.spec_byte_size());
            let q = const_of((l / d) as usize, size).spec_value() as usize;
            let r = const_of((l % d) as usize, size).spec_value() as usize;
            q * d + r == l && r < d
        }),
{
    let l = dividend.spec_value() as usize;
    let d = divisor.spec_value() as usize;
    let size = wider(dividend.spec_byte_size(), divisor.spec_byte_size());
    lemma_const_of_value((l / d) as usize, size);
    lemma_const_of_value((l % d) as usize, size);
    assert((l / d) * d + l % d == l) by (nonlinear_arith)
        requires
            d > 0,
    ;
    assert(l / d <= l) by (nonlinear_arith)
        requires
            d > 0,
    ;
}

/// `Decrement` undoes `Increment` on the integer, where it does not wrap.
pub proof fn lemma_increment_then_decrement(c: ConstData)
    requires
        c.spec_value() as usize != usize::MAX,
    ensures
        ({
            let inc = const_of((c.spec_value() as usize + 1) as usize, c.spec_byte_size());
            const_of((inc.spec_value() as usize - 1) as usize, inc.spec_byte_size()).spec_value() as usize
                == c.spec_value() as usize
        }),
{
    let v = c.spec_value() as usize;
    lemma_const_of_value((v + 1) as usize, c.spec_byte_size());
    let inc = const_of((v + 1) as usize, c.spec_byte_size());
    assert(inc.spec_byte_size() == 1 || inc.spec_byte_size() == 2 || inc.spec_byte_size() == 4
        || inc.spec_byte_size() == 8);
    lemma_const_of_value(v, inc.spec_byte_size());
}

/// The digit of value `d` in base 10 or 16, upper-case.
pub open spec fn digit_char(d: nat) -> u8 {
    if d < 10 {
        (0x30 + d) as u8
    } else {
        (0x41 + d - 10) as u8
    }
}

/// The digits of `v` in `base` (10 or 16), most significant first, without
/// leading zeros; one `0` for zero.
pub open spec fn number_text(v: nat, base: nat) -> Seq<u8>
    decreases v,
{
    if base < 2 || v < base {
        seq![digit_char(v)]
    } else {
        proof {
            assert(v / base < v) by (nonlinear_arith)
                requires
                    base >= 2,
                    v >= base,
            ;
        }
        number_text(v / base, base).push(digit_char(v % base))
    }
}

/// The bytes of a buffer, each written in `base`, separated by commas.
pub open spec fn joined_numbers(b: Seq<u8>, base: nat) -> Seq<u8>
    decreases b.len(),
{
    if b.len() == 0 {
        Seq::empty()
    } else if b.len() == 1 {
        number_text(b[0] as nat, base)
    } else {
        joined_numbers(b.drop_last(), base) + seq![0x2cu8] + number_text(b.last() as nat, base)
    }
}

proof fn lemma_number_text_ascii(v: nat, base: nat)
    requires
        base == 10 || base == 16,
    ensures
        forall|i: int| 0 <= i < number_text(v, base).len() ==> #[trigger] number_text(v, base)[i] < 0x80,
    decreases v,
{
    if v >= base {
        assert(v / base < v && v % base < base) by (nonlinear_arith)
            requires
                base >= 2,
                v >= base,
        ;
        lemma_number_text_ascii(v / base, base);
        let t = number_text(v, base);
        let p = number_text(v / base, base);
        assert(t == p.push(digit_char(v % base)));
        assert forall|i: int| 0 <= i < t.len() implies #[trigger] t[i] < 0x80 by {
            if i < p.len() {
                assert(t[i] == p[i]);
            }
        }
    }
}

proof fn lemma_joined_ascii(b: Seq<u8>, base: nat)
    requires
        base == 10 || base == 16,
    ensures
        forall|i: int| 0 <= i < joined_numbers(b, base).len() ==> #[trigger] joined_numbers(b, base)[i] < 0x80,
    decreases b.len(),
{
    if b.len() == 1 {
        lemma_number_text_ascii(b[0] as nat, base);
    } else if b.len() > 1 {
        lemma_joined_ascii(b.drop_last(), base);
        lemma_number_text_ascii(b.last() as nat, base);
        let a = joined_numbers(b.drop_last(), base);
        let l = number_text(b.last() as nat, base);
        let t = joined_numbers(b, base);
        assert(t == a + seq![0x2cu8] + l);
        assert forall|i: int| 0 <= i < t.len() implies #[trigger] t[i] < 0x80 by {
            if i < a.len() {
                assert(t[i] == a[i]);
            } else if i == a.len() {
                assert(t[i] == 0x2cu8);
            } else {
                assert(t[i] == l[i - a.len() - 1]);
            }
        }
    }
}

/// The digits of `v` in `base`, 10 or 16.
fn write_number(v: usize, base: usize) -> (r: Vec<u8>)
    requires
        base == 10 || base == 16,
    ensures
        r@ == number_text(v as nat, base as nat),
    decreases v,
{
    let d = v % base;
    let c: u8 = if d < 10 {
        (0x30 + d) as u8
    } else {
        (0x41 + d - 10) as u8
    };
    if v < base {
        let mut r: Vec<u8> = Vec::new();
        r.push(c);
        proof {
            assert(r@ =~= seq![digit_char(v as nat)]);
        }
        r
    } else {
        let mut r = write_number(v / base, base);
        r.push(c);
        r
    }
}

/// The bytes of `b`, each written in `base`, separated by commas.
fn write_joined(b: &Vec<u8>, base: usize) -> (r: Vec<u8>)
    requires
        base == 10 || base == 16,
    ensures
        r@ == joined_numbers(b@, base as nat),
{
    let mut r: Vec<u8> = Vec::new();
    let mut i: usize = 0;
    while i < b.len()
        invariant
            i <= b@.len(),
            base == 10 || base == 16,
            r@ == joined_numbers(b@.subrange(0, i as int), base as nat),
        decreases b@.len() - i,
    {
        let ghost before = r@;
        if i > 0 {
            r.push(0x2c);
        }
        let t = write_number(b[i] as usize, base);
        let mut k: usize = 0;
        while k < t.len()
            invariant
                k <= t@.len(),
                r@ == before + (if i > 0 { seq![0x2cu8] } else { Seq::<u8>::empty() }) + t@.subrange(0, k as int),
            decreases t@.len() - k,
        {
            r.push(t[k]);
            k = k + 1;
            proof {
                assert(r@ =~= before + (if i > 0 { seq![0x2cu8] } else { Seq::<u8>::empty() }) + t@.subrange(0, k as int));
            }
        }
        proof {
            let s1 = b@.subrange(0, i + 1);
            assert(s1.drop_last() =~= b@.subrange(0, i as int));
            assert(t@.subrange(0, t@.len() as int) =~= t@);
            if i == 0 {
                assert(r@ =~= joined_numbers(s1, base as nat));
            } else {
                assert(r@ =~= joined_numbers(s1, base as nat));
            }
        }
        i = i + 1;
    }
    proof {
        assert(b@.subrange(0, b@.len() as int) =~= b@);
    }
    r
}

/// The string of ASCII bytes.
pub(crate) fn ascii_string(t: Vec<u8>) -> (r: String)
    requires
        forall|i: int| 0 <= i < t@.len() ==> #[trigger] t@[i] < 0x80,
    ensures
        r@ == ascii_chars(t@),
{
    proof {
        lemma_ascii_decode(t@);
    }
    match utf8_to_string(t) {
        Some(s) => s,
        None => String::new(),
    }
}

/// The text that `ToDecimalString` (`base` 10) or `ToHexString` (`base`
/// 16) makes of an operand already reduced to constant data.
pub open spec fn spec_to_text(data: AmlVariable, base: nat) -> Option<Seq<char>> {
    match data {
        AmlVariable::ConstData(c) => Some(ascii_chars(number_text((c.spec_value() as usize) as nat, base))),
        AmlVariable::String(s) => Some(s@),
        AmlVariable::Buffer(b) => Some(ascii_chars(joined_numbers(b@, base))),
        _ => None,
    }
}

fn to_text(data: &AmlVariable, base: usize) -> (r: Result<String, AmlError>)
    requires
        base == 10 || base == 16,
    ensures
        match spec_to_text(*data, base as nat) {
            Some(t) => r matches Ok(s) && s@ == t,
            None => r matches Err(e) && e is InvalidOperation,
        },
{
    match data {
        AmlVariable::ConstData(c) => {
            let v = c.to_int();
            let t = write_number(v, base);
            proof {
                lemma_number_text_ascii(v as nat, base as nat);
            }
            Ok(ascii_string(t))
        },
        AmlVariable::String(s) => Ok(s.clone()),
        AmlVariable::Buffer(b) => {
            let t = write_joined(b, base);
            proof {
                lemma_joined_ascii(b@, base as nat);
            }
            Ok(ascii_string(t))
        },
        _ => Err(AmlError::InvalidOperation),
    }
}

/// `ToDecimalString` of constant data: an integer in decimal, a string as
/// it is, a buffer as its bytes in decimal separated by commas (nothing
/// for an empty buffer); any other kind is refused.
pub fn to_decimal_string(data: &AmlVariable) -> (r: Result<String, AmlError>)
    ensures
        match spec_to_text(*data, 10) {
            Some(t) => r matches Ok(s) && s@ == t,
            None => r matches Err(e) && e is InvalidOperation,
        },
{
    to_text(data, 10)
}

/// `ToHexString` of constant data: as `to_decimal_string`, in upper-case
/// hexadecimal without a prefix.
pub fn to_hex_string(data: &AmlVariable) -> (r: Result<String, AmlError>)
    ensures
        match spec_to_text(*data, 16) {
            Some(t) => r matches Ok(s) && s@ == t,
            None => r matches Err(e) && e is InvalidOperation,
        },
{
    to_text(data, 16)
}

/// The size in bytes of constant data: that of an integer, or the length
/// of a string (in UTF-8) or a buffer; none for other kinds.
pub open spec fn spec_data_size(v: AmlVariable) -> Option<usize> {
    match v {
        AmlVariable::ConstData(c) => Some(c.spec_byte_size()),
        AmlVariable::String(s) => Some(vstd::utf8::encode_utf8(s@).len() as usize),
        AmlVariable::Buffer(b) => Some(b@.len() as usize),
        _ => None,
    }
}

/// `SizeOf`: the length in bytes of a string or a buffer, the number of
/// elements of a package, and for a reference the size of the variable it
/// points to, `target`; refused for any other kind, and where the variable
/// referred to has no size.
pub fn size_of(data: &AmlVariable, target: Option<&AmlVariable>) -> (r: Result<ConstData, AmlError>)
    requires
        data is Reference ==> target is Some,
    ensures
        *data matches AmlVariable::String(s) ==> r == Ok::<ConstData, AmlError>(
            ConstData::QWord((vstd::utf8::encode_utf8(s@).len() as usize) as u64),
        ),
        *data matches AmlVariable::Buffer(b) ==> r == Ok::<ConstData, AmlError>(ConstData::QWord(b@.len() as u64)),
        *data matches AmlVariable::Package(p) ==> r == Ok::<ConstData, AmlError>(ConstData::QWord(p@.len() as u64)),
        data is Reference ==> match spec_data_size(*target.unwrap()) {
            Some(n) => r == Ok::<ConstData, AmlError>(ConstData::QWord(n as u64)),
            None => r is Err,
        },
        !(data is String || data is Buffer || data is Package || data is Reference) ==> (r matches Err(e)
            && e is InvalidOperation),
{
    let size = match data {
        AmlVariable::String(s) => s.as_str().len(),
        AmlVariable::Buffer(b) => b.len(),
        AmlVariable::Package(p) => p.len(),
        AmlVariable::Reference(_, _) => {
            let t = match target {
                Some(t) => t,
                None => {
                    return Err(AmlError::InvalidOperation);
                },
            };
            t.get_byte_size()?
        },
        _ => {
            return Err(AmlError::InvalidOperation);
        },
    };
    Ok(ConstData::QWord(size as u64))
}

/// What `ToInteger` makes of constant data, as `to_integer` computes it.
pub open spec fn spec_to_integer(data: AmlVariable) -> Result<ConstData, AmlError> {
    match data {
        AmlVariable::ConstData(c) => Ok(c),
        AmlVariable::String(s) => if s@.len() == 0 {
            Err(AmlError::InvalidOperation)
        } else {
            match spec_parse_integer(
                vstd::utf8::encode_utf8(s@),
                0,
                vstd::utf8::encode_utf8(s@).len() as int,
            ) {
                IntParse::Done(_, v) => Ok(ConstData::QWord(v as u64)),
                IntParse::OutOfRange => Err(AmlError::AccessOutOfRange),
                IntParse::NotThisType => Err(AmlError::InvalidType),
            }
        },
        AmlVariable::Buffer(b) => if b@.len() == 0 {
            Err(AmlError::InvalidOperation)
        } else {
            Ok(ConstData::QWord(buffer_bits(b@, if b@.len() < 8 { b@.len() } else { 8 })))
        },
        _ => Err(AmlError::InvalidOperation),
    }
}

/// `ToInteger` of constant data: an integer as it is; a nonempty string read
/// as a number as `parse_integer` reads it; the first eight bytes of a
/// nonempty buffer as `buffer_to_integer` joins them; anything else,
/// empty strings and buffers too, is refused.
pub fn to_integer(data: &AmlVariable) -> (r: Result<ConstData, AmlError>)
    ensures
        *data matches AmlVariable::ConstData(c) ==> r == Ok::<ConstData, AmlError>(c),
        *data matches AmlVariable::String(s) ==> (s@.len() > 0 ==> match spec_parse_integer(
            vstd::utf8::encode_utf8(s@),
            0,
            vstd::utf8::encode_utf8(s@).len() as int,
        ) {
            IntParse::Done(_, v) => r == Ok::<ConstData, AmlError>(ConstData::QWord(v as u64)),
            IntParse::OutOfRange => r matches Err(e) && e is AccessOutOfRange,
            IntParse::NotThisType => r matches Err(e) && e is InvalidType,
        }),
        *data matches AmlVariable::Buffer(b) ==> (b@.len() > 0 ==> r == Ok::<ConstData, AmlError>(
            ConstData::QWord(buffer_bits(b@, if b@.len() < 8 { b@.len() } else { 8 })),
        )),
        (*data matches AmlVariable::String(s) && s@.len() == 0) ==> (r matches Err(e) && e is InvalidOperation),
        (*data matches AmlVariable::Buffer(b) && b@.len() == 0) ==> (r matches Err(e) && e is InvalidOperation),
        !(data is ConstData || data is String || data is Buffer) ==> (r matches Err(e) && e is InvalidOperation),
        r == spec_to_integer(*data),
{
    match data {
        AmlVariable::ConstData(c) => Ok(*c),
        AmlVariable::String(s) => {
            let bytes = s.as_str().as_bytes();
            proof {
                if s@.len() > 0 {
                    assert(vstd::utf8::encode_utf8(s@).len() > 0) by {
                        vstd::utf8::encode_utf8_first_scalar(s@);
                    }
                } else {
                    assert(vstd::utf8::encode_utf8(s@) =~= Seq::<u8>::empty());
                }
            }
            if bytes.len() == 0 {
                return Err(AmlError::InvalidOperation);
            }
            let v = parse_integer_from_buffer(bytes)?;
            Ok(ConstData::QWord(v as u64))
        },
        AmlVariable::Buffer(b) => {
            if b.len() == 0 {
                return Err(AmlError::InvalidOperation);
            }
            Ok(buffer_to_integer(b))
        },
        _ => Err(AmlError::InvalidOperation),
    }
}

} // verus!
