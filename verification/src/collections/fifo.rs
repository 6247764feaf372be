//! A first-in first-out queue in a fixed ring of `F_SIZE` slots, which holds
//! at most `F_SIZE - 1` items.
use vstd::prelude::*;

verus! {

pub struct Fifo<T: Copy, const F_SIZE: usize> {
    buf: Vec<T>,
    read_pointer: usize,
    write_pointer: usize,
    size: usize,
}

impl<T: Copy, const F_SIZE: usize> Fifo<T, F_SIZE> {
    pub closed spec fn wf(&self) -> bool {
        &&& self.size == F_SIZE
        &&& self.buf@.len() == F_SIZE
        &&& (F_SIZE > 0 ==> self.read_pointer < F_SIZE && self.write_pointer < F_SIZE)
        &&& (F_SIZE == 0 ==> self.read_pointer == 0 && self.write_pointer == 0)
    }

    /// The queued items, oldest first.
    pub closed spec fn view(&self) -> Seq<T> {
        if self.read_pointer <= self.write_pointer {
            self.buf@.subrange(self.read_pointer as int, self.write_pointer as int)
        } else {
            self.buf@.subrange(self.read_pointer as int, self.size as int) + self.buf@.subrange(
                0,
                self.write_pointer as int,
            )
        }
    }

    /// The number of items the queue can hold.
    pub open spec fn capacity() -> int {
        if F_SIZE == 0 {
            0
        } else {
            F_SIZE - 1
        }
    }

    pub proof fn lemma_len(&self)
        requires
            self.wf(),
        ensures
            self@.len() <= Self::capacity(),
    {
    }

    /// An empty queue whose slots start as `default_value`.
    pub fn new(default_value: T) -> (r: Self)
        ensures
            r.wf(),
            r@ == Seq::<T>::empty(),
    {
        let mut buf: Vec<T> = Vec::new();
        let mut i: usize = 0;
        while i < F_SIZE
            invariant
                i <= F_SIZE,
                buf@.len() == i,
            decreases F_SIZE - i,
        {
            buf.push(default_value);
            i = i + 1;
        }
        let r = Fifo { buf, read_pointer: 0, write_pointer: 0, size: F_SIZE };
        assert(r@ =~= Seq::<T>::empty());
        r
    }

    /// Appends `v`; fails, changing nothing, when the queue is full.
    pub fn enqueue(&mut self, v: T) -> (r: Result<(), ()>)
        requires
            old(self).wf(),
        ensures
            final(self).wf(),
            r is Ok <==> old(self)@.len() < Self::capacity(),
            r is Ok ==> final(self)@ == old(self)@.push(v),
            r is Err ==> final(self)@ == old(self)@,
    {
        let write_pointer = self.write_pointer;
        let mut next_write_pointer = write_pointer + 1;
        if next_write_pointer >= self.size {
            next_write_pointer = 0;
        }
        if next_write_pointer == self.read_pointer {
            return Err(());
        }
        let ghost old_view = self@;
        self.buf.set(write_pointer, v);
        self.write_pointer = next_write_pointer;
        proof {
            let b0 = old(self).buf@;
            let b1 = self.buf@;
            let rp = self.read_pointer as int;
            let wp = write_pointer as int;
            if rp <= wp {
                if next_write_pointer == 0 {
                    assert(self@ =~= b1.subrange(rp, F_SIZE as int) + b1.subrange(0, 0));
                    assert(self@ =~= old_view.push(v));
                } else {
                    assert(self@ =~= old_view.push(v));
                }
            } else {
                assert(self@ =~= old_view.push(v));
            }
        }
        Ok(())
    }

    /// Removes and returns the oldest item; `None` when the queue is empty.
    pub fn dequeue(&mut self) -> (r: Option<T>)
        requires
            old(self).wf(),
        ensures
            final(self).wf(),
            r is None <==> old(self)@.len() == 0,
            r matches Some(v) ==> v == old(self)@[0] && final(self)@ == old(self)@.drop_first(),
            r is None ==> final(self)@ == old(self)@,
    {
        let read_pointer = self.read_pointer;
        let mut next_read_pointer = read_pointer + 1;
        let write_pointer = self.write_pointer;
        if read_pointer == write_pointer {
            proof {
                assert(self@.len() == 0);
            }
            return None;
        }
        if next_read_pointer >= self.size {
            next_read_pointer = 0;
        }
        let ghost old_view = self@;
        let result = self.buf[read_pointer];
        self.read_pointer = next_read_pointer;
        proof {
            let b = self.buf@;
            if read_pointer < write_pointer {
                assert(self@ =~= old_view.drop_first());
            } else {
                if next_read_pointer == 0 {
                    assert(self@ =~= old_view.drop_first());
                } else {
                    assert(self@ =~= old_view.drop_first());
                }
            }
        }
        Some(result)
    }
}

} // verus!
