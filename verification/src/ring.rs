//! A fixed-capacity circular byte queue. One slot is kept free to tell a full
//! queue from an empty one, so a queue of size `n` holds at most `n - 1` bytes.

use vstd::prelude::*;

verus! {

/// A circular buffer over bytes. The live contents occupy the positions from
/// `start` (inclusive) to `end` (exclusive), wrapping around the backing
/// storage; `start == end` means the queue is empty.
pub struct RingBuffer {
    data: Vec<u8>,
    start: usize,
    end: usize,
}

impl RingBuffer {
    /// The queued bytes, oldest first.
    pub closed spec fn contents(&self) -> Seq<u8> {
        if self.end >= self.start {
            self.data@.subrange(self.start as int, self.end as int)
        } else {
            self.data@.subrange(self.start as int, self.data@.len() as int)
                + self.data@.subrange(0, self.end as int)
        }
    }

    /// The size of the backing storage (one more than the usable capacity).
    pub closed spec fn size(&self) -> nat {
        self.data@.len()
    }

    /// Well-formedness: the cursors stay inside the backing storage.
    pub closed spec fn wf(&self) -> bool {
        if self.data@.len() == 0 {
            self.start == 0 && self.end == 0
        } else {
            self.start < self.data@.len() && self.end < self.data@.len()
        }
    }

    /// Returns an empty queue backed by `size` zeroed bytes.
    pub fn new(size: usize) -> (r: RingBuffer)
        ensures
            r.wf(),
            r.size() == size,
            r.contents() =~= Seq::<u8>::empty(),
    {
        RingBuffer { data: crate::ring::make_box(size), start: 0, end: 0 }
    }

    /// Removes and returns the oldest queued byte, or `None` when the queue
    /// is empty.
    pub fn read(&mut self) -> (r: Option<u8>)
        requires
            old(self).wf(),
        ensures
            final(self).wf(),
            final(self).size() == old(self).size(),
            old(self).contents().len() == 0 ==> r is None && final(self).contents()
                == old(self).contents(),
            old(self).contents().len() > 0 ==> r == Some(old(self).contents().first())
                && final(self).contents() == old(self).contents().drop_first(),
    {
        if self.start == self.end {
            None
        } else {
            let n = self.data.len();
            let value = self.data[self.start];
            let bumped = self.start + 1;
            self.start = bumped % n;
            proof {
                if bumped < n {
                    vstd::arithmetic::div_mod::lemma_small_mod(bumped as nat, n as nat);
                } else {
                    vstd::arithmetic::div_mod::lemma_mod_self_0(n as int);
                }
                assert(self.contents() =~= old(self).contents().drop_first());
            }
            Some(value)
        }
    }

    /// Writes `value` at the write cursor. The write sticks, and returns
    /// `true`, exactly when a free slot remains afterwards; on a full queue
    /// the cursor does not advance, nothing is queued, and `false` comes back.
    pub fn write(&mut self, value: u8) -> (r: bool)
        requires
            old(self).wf(),
            old(self).size() > 0,
        ensures
            final(self).wf(),
            final(self).size() == old(self).size(),
            r <==> old(self).contents().len() + 2 <= old(self).size(),
            r ==> final(self).contents() == old(self).contents().push(value),
            !r ==> final(self).contents() == old(self).contents(),
    {
        let n = self.data.len();
        let idx = self.end;
        self.data[idx] = value;
        let bumped = self.end + 1;
        let pos = bumped % n;
        proof {
            if bumped < n {
                vstd::arithmetic::div_mod::lemma_small_mod(bumped as nat, n as nat);
            } else {
                vstd::arithmetic::div_mod::lemma_mod_self_0(n as int);
            }
        }
        if pos == self.start {
            proof {
                assert(old(self).contents().len() == n - 1);
                assert(self.contents() =~= old(self).contents());
            }
            false
        } else {
            self.end = pos;
            proof {
                assert(old(self).contents().len() < n - 1);
                assert(self.contents() =~= old(self).contents().push(value));
            }
            true
        }
    }

    /// Reports whether a write would succeed: true exactly when a slot is
    /// free beyond the one the representation keeps open.
    pub fn has_room(&self) -> (r: bool)
        requires
            self.wf(),
            self.size() > 0,
        ensures
            r <==> self.contents().len() + 2 <= self.size(),
    {
        let n = self.data.len();
        let bumped = self.end + 1;
        proof {
            if bumped < n {
                vstd::arithmetic::div_mod::lemma_small_mod(bumped as nat, n as nat);
            } else {
                vstd::arithmetic::div_mod::lemma_mod_self_0(n as int);
            }
        }
        bumped % n != self.start
    }

    /// Returns the byte that `read` would return, without removing it.
    pub fn peek(&self) -> (r: Option<u8>)
        requires
            self.wf(),
        ensures
            self.contents().len() == 0 ==> r is None,
            self.contents().len() > 0 ==> r == Some(self.contents().first()),
    {
        if self.start == self.end {
            None
        } else {
            Some(self.data[self.start])
        }
    }
}

/// Returns zero-initialized backing storage of the requested size.
pub fn make_box(reqsize: usize) -> (v: Vec<u8>)
    ensures
        v@ =~= Seq::new(reqsize as nat, |i: int| 0u8),
{
    let mut v: Vec<u8> = Vec::new();
    let mut i: usize = 0;
    while i < reqsize
        invariant
            i <= reqsize,
            v@ =~= Seq::new(i as nat, |j: int| 0u8),
        decreases reqsize - i,
    {
        v.push(0);
        i = i + 1;
    }
    v
}

} // verus!
