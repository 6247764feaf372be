//! The AML byte stream: a window `[pointer, limit)` over the bytes of a table.
use vstd::prelude::*;
use super::AmlError;

verus! {

/// A cursor over AML bytes. Bytes are read from `pointer` up to `limit`;
/// the bytes after `limit` belong to the enclosing object.
#[derive(Debug)]
pub struct AmlStream {
    data: Vec<u8>,
    pointer: usize,
    limit: usize,
}

impl AmlStream {
    /// All the bytes the stream was made from.
    pub closed spec fn bytes(&self) -> Seq<u8> {
        self.data@
    }

    /// The position of the next byte to read.
    pub closed spec fn pos(&self) -> int {
        self.pointer as int
    }

    /// The position after the last byte of this stream.
    pub closed spec fn end(&self) -> int {
        self.limit as int
    }

    pub open spec fn wf(&self) -> bool {
        0 <= self.pos() <= self.end() <= self.bytes().len()
    }

    /// The number of bytes left.
    pub open spec fn rem(&self) -> int {
        self.end() - self.pos()
    }

    /// The byte at `pos() + k`.
    pub open spec fn at(&self, k: int) -> u8 {
        self.bytes()[self.pos() + k]
    }

    /// `other` reads the same bytes from the same place in the same window.
    pub open spec fn same_as(&self, other: &Self) -> bool {
        &&& other.bytes() == self.bytes()
        &&& other.end() == self.end()
        &&& other.pos() == self.pos()
    }

    /// `after` is a well-formed stream that read on from this one.
    pub open spec fn moved_to(&self, after: &Self) -> bool {
        after.wf() && self.same_window(after)
    }

    /// `other` is this stream advanced by `n` bytes within the same window.
    pub open spec fn advanced(&self, other: &Self, n: int) -> bool {
        &&& other.bytes() == self.bytes()
        &&& other.end() == self.end()
        &&& other.pos() == self.pos() + n
    }

    /// `other` reads the same bytes in the same window, from `pos()` or later.
    pub open spec fn same_window(&self, other: &Self) -> bool {
        &&& other.bytes() == self.bytes()
        &&& other.end() == self.end()
        &&& self.pos() <= other.pos()
    }

    /// A stream over all of `data`.
    pub fn new(data: Vec<u8>) -> (s: Self)
        ensures
            s.wf(),
            s.bytes() == data@,
            s.pos() == 0,
            s.end() == data@.len(),
    {
        let limit = data.len();
        AmlStream { data, pointer: 0, limit }
    }

    /// A stream over `data` that reads `size` bytes from `start`.
    pub fn new_window(data: Vec<u8>, start: usize, size: usize) -> (r: Result<Self, AmlError>)
        ensures
            r is Ok <==> start + size <= data@.len(),
            r matches Ok(s) ==> s.wf() && s.bytes() == data@ && s.pos() == start && s.end()
                == start + size,
            r matches Err(e) ==> e is AccessOutOfRange,
    {
        if start > data.len() || size > data.len() - start {
            Err(AmlError::AccessOutOfRange)
        } else {
            Ok(AmlStream { data, pointer: start, limit: start + size })
        }
    }

    /// Whether the window lies inside the bytes, the position inside the
    /// window.
    pub fn is_valid(&self) -> (r: bool)
        ensures
            r == self.wf(),
    {
        self.pointer <= self.limit && self.limit <= self.data.len()
    }

    /// A copy of this stream that reads the same bytes from the same place.
    pub fn copy(&self) -> (r: Self)
        ensures
            r.bytes() == self.bytes(),
            r.pos() == self.pos(),
            r.end() == self.end(),
    {
        AmlStream { data: self.data.clone(), pointer: self.pointer, limit: self.limit }
    }

    /// Whether `read_size` more bytes are left.
    pub fn check_pointer(&self, read_size: usize) -> (r: Result<(), AmlError>)
        requires
            self.wf(),
        ensures
            r is Ok <==> self.pos() + read_size <= self.end(),
            r matches Err(e) ==> e is AccessOutOfRange,
    {
        if read_size > self.limit - self.pointer {
            Err(AmlError::AccessOutOfRange)
        } else {
            Ok(())
        }
    }

    pub fn is_end_of_stream(&self) -> (r: bool)
        requires
            self.wf(),
        ensures
            r == (self.pos() == self.end()),
    {
        self.pointer == self.limit
    }

    pub fn get_available_size(&self) -> (r: usize)
        requires
            self.wf(),
        ensures
            r == self.rem(),
    {
        self.limit - self.pointer
    }

    pub fn read_byte(&mut self) -> (r: Result<u8, AmlError>)
        requires
            old(self).wf(),
        ensures
            final(self).wf(),
            r is Ok <==> old(self).rem() >= 1,
            r matches Ok(b) ==> b == old(self).at(0) && old(self).advanced(final(self), 1),
            r matches Err(e) ==> e is AccessOutOfRange && *final(self) == *old(self),
    {
        if self.pointer < self.limit {
            let b = self.data[self.pointer];
            self.pointer = self.pointer + 1;
            Ok(b)
        } else {
            Err(AmlError::AccessOutOfRange)
        }
    }

    /// Reads a little-endian 16-bit value.
    pub fn read_word(&mut self) -> (r: Result<u16, AmlError>)
        requires
            old(self).wf(),
        ensures
            final(self).wf(),
            r is Ok <==> old(self).rem() >= 2,
            r matches Ok(w) ==> w == old(self).at(0) + 256 * old(self).at(1) && old(self).advanced(
                final(self),
                2,
            ),
            r matches Err(e) ==> e is AccessOutOfRange && *final(self) == *old(self),
    {
        if self.limit - self.pointer >= 2 {
            let b0 = self.data[self.pointer] as u16;
            let b1 = self.data[self.pointer + 1] as u16;
            self.pointer = self.pointer + 2;
            Ok(b0 + 256 * b1)
        } else {
            Err(AmlError::AccessOutOfRange)
        }
    }

    /// Reads a little-endian 32-bit value.
    pub fn read_dword(&mut self) -> (r: Result<u32, AmlError>)
        requires
            old(self).wf(),
        ensures
            final(self).wf(),
            r is Ok <==> old(self).rem() >= 4,
            r matches Ok(d) ==> d == le_value(old(self).bytes(), old(self).pos(), 4)
                && old(self).advanced(final(self), 4),
            r matches Err(e) ==> e is AccessOutOfRange && *final(self) == *old(self),
    {
        if self.limit - self.pointer >= 4 {
            let v = read_le(&self.data, self.pointer, 4);
            proof {
                lemma_le_value_bound(self.data@, self.pointer as int, 4);
                reveal_with_fuel(byte_bound, 5);
            }
            self.pointer = self.pointer + 4;
            Ok(v as u32)
        } else {
            Err(AmlError::AccessOutOfRange)
        }
    }

    /// Reads a little-endian 64-bit value.
    pub fn read_qword(&mut self) -> (r: Result<u64, AmlError>)
        requires
            old(self).wf(),
        ensures
            final(self).wf(),
            r is Ok <==> old(self).rem() >= 8,
            r matches Ok(q) ==> q == le_value(old(self).bytes(), old(self).pos(), 8)
                && old(self).advanced(final(self), 8),
            r matches Err(e) ==> e is AccessOutOfRange && *final(self) == *old(self),
    {
        if self.limit - self.pointer >= 8 {
            let v = read_le(&self.data, self.pointer, 8);
            self.pointer = self.pointer + 8;
            Ok(v)
        } else {
            Err(AmlError::AccessOutOfRange)
        }
    }

    /// The byte at the current position. As in the reads of the enclosing
    /// object, the byte just after the window is readable when one exists.
    pub fn peek_byte(&self) -> (r: Result<u8, AmlError>)
        requires
            self.wf(),
        ensures
            r is Ok <==> self.pos() < self.bytes().len(),
            r matches Ok(b) ==> b == self.at(0),
            r matches Err(e) ==> e is AccessOutOfRange,
    {
        if self.pointer < self.data.len() {
            Ok(self.data[self.pointer])
        } else {
            Err(AmlError::AccessOutOfRange)
        }
    }

    /// The byte `pos_forward_from_current` bytes after the current position,
    /// for positions up to the end of the window (the end itself included when
    /// a byte stands there).
    pub fn peek_byte_with_pos(&self, pos_forward_from_current: usize) -> (r: Result<u8, AmlError>)
        requires
            self.wf(),
        ensures
            r is Ok <==> self.pos() + pos_forward_from_current <= self.end() && self.pos()
                + pos_forward_from_current < self.bytes().len(),
            r matches Ok(b) ==> b == self.at(pos_forward_from_current as int),
            r matches Err(e) ==> e is AccessOutOfRange,
    {
        if pos_forward_from_current > self.limit - self.pointer {
            Err(AmlError::AccessOutOfRange)
        } else if self.pointer + pos_forward_from_current < self.data.len() {
            Ok(self.data[self.pointer + pos_forward_from_current])
        } else {
            Err(AmlError::AccessOutOfRange)
        }
    }

    /// Moves forward by `bytes_to_forward`; fails, and does not move, when
    /// that would pass the end of the window.
    pub fn seek(&mut self, bytes_to_forward: usize) -> (r: Result<(), AmlError>)
        requires
            old(self).wf(),
        ensures
            final(self).wf(),
            r is Ok <==> bytes_to_forward <= old(self).rem(),
            r is Ok ==> old(self).advanced(final(self), bytes_to_forward as int),
            r matches Err(e) ==> e is AccessOutOfRange && *final(self) == *old(self),
    {
        if bytes_to_forward > self.limit - self.pointer {
            Err(AmlError::AccessOutOfRange)
        } else {
            self.pointer = self.pointer + bytes_to_forward;
            Ok(())
        }
    }

    /// Shrinks the window so that `new_size_from_current_point` bytes are left.
    pub fn change_size(&mut self, new_size_from_current_point: usize) -> (r: Result<(), AmlError>)
        requires
            old(self).wf(),
        ensures
            final(self).wf(),
            r is Ok <==> new_size_from_current_point <= old(self).rem(),
            r is Ok ==> final(self).bytes() == old(self).bytes() && final(self).pos() == old(
                self,
            ).pos() && final(self).end() == old(self).pos() + new_size_from_current_point,
            r matches Err(e) ==> e is AccessOutOfRange && *final(self) == *old(self),
    {
        if new_size_from_current_point > self.limit - self.pointer {
            Err(AmlError::AccessOutOfRange)
        } else {
            self.limit = self.pointer + new_size_from_current_point;
            Ok(())
        }
    }

    pub fn get_pointer(&self) -> (r: usize)
        ensures
            r == self.pos(),
    {
        self.pointer
    }

    /// Returns to the position and window of `backup`.
    pub fn roll_back(&mut self, backup: &Self)
        requires
            backup.bytes() == old(self).bytes(),
            backup.wf(),
        ensures
            final(self).bytes() == old(self).bytes(),
            final(self).pos() == backup.pos(),
            final(self).end() == backup.end(),
            final(self).wf(),
    {
        self.pointer = backup.pointer;
        self.limit = backup.limit;
    }

    /// The bytes from `start` to the current position.
    pub fn bytes_from(&self, start: usize) -> (r: Vec<u8>)
        requires
            self.wf(),
            start <= self.pos(),
        ensures
            r@ == self.bytes().subrange(start as int, self.pos()),
    {
        let mut r: Vec<u8> = Vec::new();
        let mut i: usize = start;
        while i < self.pointer
            invariant
                self.wf(),
                start <= i <= self.pos(),
                r@ == self.bytes().subrange(start as int, i as int),
            decreases self.pos() - i,
        {
            r.push(self.data[i]);
            i = i + 1;
            assert(r@ =~= self.bytes().subrange(start as int, i as int));
        }
        r
    }
}

impl Clone for AmlStream {
    fn clone(&self) -> (r: Self)
        ensures
            r.bytes() == self.bytes(),
            r.pos() == self.pos(),
            r.end() == self.end(),
    {
        self.copy()
    }
}

/// The little-endian value of the `n` bytes of `s` from `p`.
pub open spec fn le_value(s: Seq<u8>, p: int, n: nat) -> int
    decreases n,
{
    if n == 0 {
        0
    } else {
        s[p] + 256 * le_value(s, p + 1, (n - 1) as nat)
    }
}

/// `256` to the power `n`.
pub open spec fn byte_bound(n: nat) -> int
    decreases n,
{
    if n == 0 {
        1
    } else {
        256 * byte_bound((n - 1) as nat)
    }
}

pub proof fn lemma_le_value_bound(s: Seq<u8>, p: int, n: nat)
    ensures
        0 <= le_value(s, p, n) < byte_bound(n),
    decreases n,
{
    if n > 0 {
        lemma_le_value_bound(s, p + 1, (n - 1) as nat);
    }
}

pub proof fn lemma_byte_bound_mono(a: nat, b: nat)
    requires
        a <= b,
    ensures
        1 <= byte_bound(a) <= byte_bound(b),
    decreases b,
{
    if b > 0 {
        if a < b {
            lemma_byte_bound_mono(a, (b - 1) as nat);
        } else {
            lemma_byte_bound_mono((a - 1) as nat, (b - 1) as nat);
        }
    }
}

/// Reads the little-endian value of `n <= 8` bytes of `data` from `p`.
pub fn read_le(data: &Vec<u8>, p: usize, n: usize) -> (r: u64)
    requires
        n <= 8,
        p + n <= data@.len(),
    ensures
        r == le_value(data@, p as int, n as nat),
{
    let mut r: u64 = 0;
    let mut i: usize = n;
    assert(byte_bound(7) == 0x100000000000000) by {
        reveal_with_fuel(byte_bound, 8);
    }
    while i > 0
        invariant
            i <= n <= 8,
            p + n <= data@.len(),
            data@.len() == data.len(),
            byte_bound(7) == 0x100000000000000,
            r == le_value(data@, p + i, (n - i) as nat),
        decreases i,
    {
        i = i - 1;
        proof {
            lemma_le_value_bound(data@, p + i + 1, (n - i - 1) as nat);
            lemma_byte_bound_mono((n - i - 1) as nat, 7);
            assert(((n - i - 1) as nat) == ((n - (i + 1)) as nat));
        }
        r = data[p + i] as u64 + 256 * r;
    }
    r
}

} // verus!
