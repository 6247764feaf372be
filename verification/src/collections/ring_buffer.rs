//! A byte ring buffer whose size is a power of two.
use vstd::prelude::*;

verus! {

/// A ring of `size` bytes: bytes are written at `write_ptr` and read after
/// `read_ptr`.
pub struct Ringbuffer {
    buffer: usize,
    data: Vec<u8>,
    size: usize,
    write_ptr: usize,
    read_ptr: usize,
}

pub open spec fn is_pow2(n: int) -> bool
    decreases n,
{
    if n <= 0 {
        false
    } else if n == 1 {
        true
    } else {
        n % 2 == 0 && is_pow2(n / 2)
    }
}

impl Ringbuffer {
    pub closed spec fn spec_buffer(&self) -> usize {
        self.buffer
    }

    pub closed spec fn spec_size(&self) -> usize {
        self.size
    }

    pub closed spec fn spec_write_ptr(&self) -> usize {
        self.write_ptr
    }

    pub closed spec fn spec_read_ptr(&self) -> usize {
        self.read_ptr
    }

    /// The bytes of the ring.
    pub closed spec fn bytes(&self) -> Seq<u8> {
        self.data@
    }

    pub open spec fn wf(&self) -> bool {
        &&& self.bytes().len() == self.spec_size()
        &&& (self.spec_size() == 0 ==> self.spec_write_ptr() == 0 && self.spec_read_ptr() == 0)
        &&& (self.spec_size() > 0 ==> self.spec_write_ptr() < self.spec_size() && self.spec_read_ptr()
            < self.spec_size())
    }

    /// What `get_writable_size` gives.
    pub open spec fn spec_writable(&self) -> int {
        if self.spec_read_ptr() == self.spec_write_ptr() {
            0
        } else if self.spec_write_ptr() < self.spec_read_ptr() {
            self.spec_read_ptr() - self.spec_write_ptr() + 1
        } else {
            self.spec_size() - (self.spec_write_ptr() - self.spec_read_ptr() - 1)
        }
    }

    /// A ring with no buffer.
    pub fn new() -> (r: Self)
        ensures
            r.wf(),
            r.spec_buffer() == 0,
            r.spec_size() == 0,
            r.spec_write_ptr() == 0,
            r.spec_read_ptr() == 0,
    {
        Ringbuffer { buffer: 0, data: Vec::new(), size: 0, write_ptr: 0, read_ptr: 0 }
    }

    pub fn get_buffer_address(&self) -> (r: usize)
        ensures
            r == self.spec_buffer(),
    {
        self.buffer
    }

    pub fn get_buffer_size(&self) -> (r: usize)
        ensures
            r == self.spec_size(),
    {
        self.size
    }

    /// Takes a new buffer of `size` bytes (a power of two) at `buffer`; the
    /// ring starts empty.
    pub fn set_new_buffer(&mut self, buffer: usize, size: usize)
        requires
            size != 0,
            is_pow2(size as int),
        ensures
            final(self).wf(),
            final(self).spec_buffer() == buffer,
            final(self).spec_size() == size,
            final(self).spec_write_ptr() == 0,
            final(self).spec_read_ptr() == size - 1,
            final(self).bytes() == Seq::new(size as nat, |i: int| 0u8),
    {
        let mut data: Vec<u8> = Vec::new();
        let mut i: usize = 0;
        while i < size
            invariant
                i <= size,
                data@ == Seq::new(i as nat, |j: int| 0u8),
            decreases size - i,
        {
            data.push(0);
            i = i + 1;
            assert(data@ =~= Seq::new(i as nat, |j: int| 0u8));
        }
        self.buffer = buffer;
        self.data = data;
        self.size = size;
        self.write_ptr = 0;
        self.read_ptr = size - 1;
    }

    /// Drops the buffer.
    pub fn unset_buffer(&mut self)
        ensures
            final(self).wf(),
            final(self).spec_buffer() == 0,
            final(self).spec_size() == 0,
            final(self).spec_write_ptr() == 0,
            final(self).spec_read_ptr() == 0,
    {
        *self = Self::new();
    }

    /// `p` moved forward by `v` around the ring.
    pub fn add_pointer(&self, p: usize, v: usize) -> (r: usize)
        requires
            self.spec_size() > 0,
            p < self.spec_size(),
            v <= self.spec_size(),
        ensures
            r == (p + v) % (self.spec_size() as int),
    {
        if v >= self.size - p {
            let r = v - (self.size - p);
            assert((p + v) % (self.size as int) == r) by {
                vstd::arithmetic::div_mod::lemma_mod_sub_multiples_vanish((p + v) as int, self.size as int);
                vstd::arithmetic::div_mod::lemma_small_mod(r as nat, self.size as nat);
            }
            r
        } else {
            let r = p + v;
            assert((p + v) % (self.size as int) == r) by {
                vstd::arithmetic::div_mod::lemma_small_mod(r as nat, self.size as nat);
            }
            r
        }
    }

    /// The number of bytes a write accepts.
    pub fn get_writable_size(&self) -> (r: usize)
        requires
            self.wf(),
        ensures
            r == self.spec_writable(),
    {
        if self.read_ptr == self.write_ptr {
            0
        } else if self.write_ptr < self.read_ptr {
            self.read_ptr - self.write_ptr + 1
        } else {
            self.size - (self.write_ptr - self.read_ptr - 1)
        }
    }

    /// The number of bytes a read gives.
    pub fn get_readable_size(&self) -> (r: usize)
        requires
            self.wf(),
        ensures
            r == self.spec_size() - self.spec_writable(),
    {
        self.size - self.get_writable_size()
    }
    /// How far `k` lies after `from`, going round the ring.
    pub open spec fn offset(&self, k: int, from: int) -> int {
        if k >= from {
            k - from
        } else {
            k + self.spec_size() - from
        }
    }

    /// `p` moved `n` bytes on around the ring (`n` at most its size).
    pub open spec fn moved(&self, p: int, n: int) -> int {
        if p + n < self.spec_size() {
            p + n
        } else {
            p + n - self.spec_size()
        }
    }

    /// What `write` of `input` does: `after` is `before` with the first `r`
    /// bytes of `input` written from its write pointer on, `r` being as
    /// many as there is room for.
    pub open spec fn write_result(before: Self, after: Self, input: Seq<u8>, r: usize) -> bool {
        let w = before.spec_write_ptr() as int;
        &&& r == (if input.len() < before.spec_writable() {
            input.len() as int
        } else {
            before.spec_writable()
        })
        &&& after.spec_size() == before.spec_size()
        &&& after.spec_buffer() == before.spec_buffer()
        &&& after.spec_read_ptr() == before.spec_read_ptr()
        &&& (r > 0 ==> after.spec_write_ptr() == before.moved(w, r as int))
        &&& (r == 0 ==> after.spec_write_ptr() == before.spec_write_ptr())
        &&& forall|k: int|
            0 <= k < before.spec_size() ==> #[trigger] after.bytes()[k] == if before.offset(k, w) < r {
                input[before.offset(k, w)]
            } else {
                before.bytes()[k]
            }
    }

    /// What `read` of `n` bytes does: `out` holds the bytes after the read
    /// pointer of `before` (as many as there are, up to `n`), which `after`
    /// has moved past.
    pub open spec fn read_result(before: Self, after: Self, n: usize, out: Seq<u8>) -> bool {
        let readable = before.spec_size() - before.spec_writable();
        let first = before.moved(before.spec_read_ptr() as int, 1);
        &&& out.len() == (if n < readable {
            n as int
        } else {
            readable
        })
        &&& forall|i: int| 0 <= i < out.len() ==> #[trigger] out[i] == before.bytes()[before.moved(first, i)]
        &&& after.bytes() == before.bytes()
        &&& after.spec_size() == before.spec_size()
        &&& after.spec_buffer() == before.spec_buffer()
        &&& after.spec_write_ptr() == before.spec_write_ptr()
        &&& (out.len() > 0 ==> after.spec_read_ptr() == before.moved(before.spec_read_ptr() as int, out.len() as int))
        &&& (out.len() == 0 ==> after.spec_read_ptr() == before.spec_read_ptr())
    }

    /// Bytes written into a ring with nothing to read are read back, in
    /// order: a read after the write gives the first bytes written.
    pub proof fn lemma_write_then_read(
        before: Self,
        mid: Self,
        after: Self,
        input: Seq<u8>,
        written: usize,
        n: usize,
        out: Seq<u8>,
    )
        requires
            before.wf(),
            mid.wf(),
            before.spec_size() > 0,
            before.spec_writable() == before.spec_size(),
            input.len() + 2 <= before.spec_size(),
            Self::write_result(before, mid, input, written),
            Self::read_result(mid, after, n, out),
        ensures
            out.len() == (if n < written { n as int } else { written as int }),
            forall|i: int| 0 <= i < out.len() ==> #[trigger] out[i] == input[i],
    {
        let size = before.spec_size() as int;
        let w = before.spec_write_ptr() as int;
        let r0 = before.spec_read_ptr() as int;
        assert((r0 == size - 1 && w == 0) || w == r0 + 1);
        assert(before.moved(r0, 1) == w);
        assert(written == input.len());
        if written > 0 {
            let w2 = mid.spec_write_ptr() as int;
            if w + written < size {
                assert(w2 == w + written);
            } else {
                assert(w2 == w + written - size);
            }
            assert(mid.spec_writable() == size - written);
        }
        assert forall|i: int| 0 <= i < out.len() implies #[trigger] out[i] == input[i] by {
            let k = before.moved(w, i);
            assert(0 <= k < size);
            assert(before.offset(k, w) == i);
        }
    }

    /// Writes as many bytes of `input` as there is room for (see
    /// `get_writable_size`), from the write pointer on, round the ring; the
    /// number written.
    pub fn write(&mut self, input: &Vec<u8>) -> (r: usize)
        requires
            old(self).wf(),
        ensures
            final(self).wf(),
            Self::write_result(*old(self), *final(self), input@, r),
    {
        let writable = self.get_writable_size();
        let n = if input.len() < writable {
            input.len()
        } else {
            writable
        };
        if n == 0 {
            return 0;
        }
        let start = self.write_ptr;
        let ghost before = self.data@;
        let mut idx = start;
        let mut i: usize = 0;
        while i < n
            invariant
                self.wf(),
                self.size == old(self).spec_size(),
                self.size > 0,
                self.write_ptr == start,
                self.read_ptr == old(self).spec_read_ptr(),
                self.buffer == old(self).spec_buffer(),
                start == old(self).spec_write_ptr(),
                before == old(self).bytes(),
                n <= input@.len(),
                n <= self.size,
                i <= n,
                idx < self.size,
                idx == old(self).moved(start as int, i as int),
                forall|k: int|
                    0 <= k < self.size ==> #[trigger] self.data@[k] == if old(self).offset(k, start as int) < i {
                        input@[old(self).offset(k, start as int)]
                    } else {
                        before[k]
                    },
            decreases n - i,
        {
            self.data.set(idx, input[i]);
            idx = if idx + 1 == self.size {
                0
            } else {
                idx + 1
            };
            i = i + 1;
        }
        self.write_ptr = if n < self.size - start {
            start + n
        } else {
            n - (self.size - start)
        };
        n
    }

    /// Reads up to `n` bytes (as many as `get_readable_size` gives), those
    /// after the read pointer, round the ring.
    pub fn read(&mut self, n: usize) -> (r: Vec<u8>)
        requires
            old(self).wf(),
        ensures
            final(self).wf(),
            Self::read_result(*old(self), *final(self), n, r@),
    {
        let readable = self.get_readable_size();
        let count = if n < readable {
            n
        } else {
            readable
        };
        let mut out: Vec<u8> = Vec::new();
        if count == 0 {
            return out;
        }
        let start = if self.read_ptr + 1 == self.size {
            0
        } else {
            self.read_ptr + 1
        };
        let mut idx = start;
        let mut i: usize = 0;
        while i < count
            invariant
                self.wf(),
                self.size > 0,
                count <= self.size,
                i <= count,
                idx < self.size,
                start == old(self).moved(old(self).spec_read_ptr() as int, 1),
                idx == old(self).moved(start as int, i as int),
                *self == *old(self),
                out@.len() == i,
                forall|j: int| 0 <= j < i ==> #[trigger] out@[j] == old(self).bytes()[old(self).moved(start as int, j)],
            decreases count - i,
        {
            out.push(self.data[idx]);
            idx = if idx + 1 == self.size {
                0
            } else {
                idx + 1
            };
            i = i + 1;
        }
        self.read_ptr = if count < self.size - self.read_ptr {
            self.read_ptr + count
        } else {
            count - (self.size - self.read_ptr)
        };
        out
    }
}


} // verus!
