//! Fixed-capacity packet memory pool.
//!
//! The pool owns a fixed number of preallocated, fixed-size buffer slots and
//! hands out exclusively-owned [`Packet`] handles. Allocation never fails: a
//! request made while every slot is checked out simply reports that the caller
//! must wait (the cooperative scheduler retries after the next interrupt), and
//! a release frees exactly one slot, so exactly one waiting request can then
//! proceed. A checked-out slot is never handed out again until it has been
//! released.

use vstd::prelude::*;

verus! {

/// Number of packet buffers the driver preallocates for the bulk endpoints.
pub const NPACKETS: usize = 3;

/// `s` clipped to the packet capacity: what of `s` fits into one packet.
pub open spec fn clip64(s: Seq<u8>) -> Seq<u8> {
    if s.len() <= 64 {
        s
    } else {
        s.take(64)
    }
}

/// One USB data packet: an exclusively-owned pool buffer plus the length of
/// the valid data it holds.
pub struct Packet {
    data: Vec<u8>,
    len: u8,
    slot: usize,
}

impl Packet {
    /// How much data a packet can hold.
    pub const CAPACITY: u8 = 64;

    /// Well-formed: the backing storage is one full slot and the length is in
    /// bounds.
    pub closed spec fn wf(&self) -> bool {
        &&& self.data@.len() == 64
        &&& self.len <= 64
    }

    /// The full backing storage of the packet's slot, `CAPACITY` bytes.
    pub closed spec fn storage(&self) -> Seq<u8> {
        self.data@
    }

    /// The valid data bytes: a prefix of the storage of length `len`.
    pub open spec fn bytes(&self) -> Seq<u8> {
        self.storage().take(self.spec_len() as int)
    }

    /// The pool slot this packet's buffer occupies.
    pub closed spec fn slot_id(&self) -> int {
        self.slot as int
    }

    /// The current length, as stored.
    pub closed spec fn spec_len(&self) -> u8 {
        self.len
    }

    /// Returns the size of this packet.
    pub fn len(&self) -> (r: u8)
        ensures
            r == self.spec_len(),
    {
        self.len
    }

    /// The pool slot this packet's buffer occupies.
    pub fn slot(&self) -> (r: usize)
        ensures
            r as int == self.slot_id(),
    {
        self.slot
    }

    /// Changes the `len` of the packet.
    ///
    /// `len` is truncated to `CAPACITY` bytes. Growing the length exposes
    /// whatever the storage already holds, exactly as the hardware-filled
    /// buffer does.
    pub fn set_len(&mut self, len: u8)
        requires
            old(self).wf(),
        ensures
            final(self).wf(),
            final(self).spec_len() == if len <= 64 { len } else { 64u8 },
            final(self).storage() == old(self).storage(),
            final(self).slot_id() == old(self).slot_id(),
    {
        self.len = if len <= 64 { len } else { 64 };
    }

    /// Fills the packet with the given `src` data.
    ///
    /// `src` is truncated to `CAPACITY` bytes.
    pub fn copy_from_slice(&mut self, src: &[u8])
        requires
            old(self).wf(),
        ensures
            final(self).wf(),
            final(self).slot_id() == old(self).slot_id(),
            final(self).spec_len() as int == clip64(src@).len(),
            final(self).bytes() == clip64(src@),
            final(self).storage() == clip64(src@) + old(self).storage().skip(
                clip64(src@).len() as int,
            ),
    {
        let n: usize = if src.len() <= 64 {
            src.len()
        } else {
            64
        };
        let mut i: usize = 0;
        while i < n
            invariant
                i <= n,
                n <= 64,
                n <= src@.len(),
                self.data@.len() == 64,
                self.len == old(self).len,
                self.slot == old(self).slot,
                self.data@.take(i as int) == src@.take(i as int),
                self.data@.skip(n as int) == old(self).data@.skip(n as int),
            decreases n - i,
        {
            let b = src[i];
            self.data[i] = b;
            proof {
                assert(self.data@.take(i + 1) == src@.take(i + 1)) by {
                    assert forall|j: int| 0 <= j < i + 1 implies #[trigger] self.data@.take(i + 1)[j]
                        == src@.take(i + 1)[j] by {
                        if j < i {
                            assert(self.data@.take(i as int)[j] == src@.take(i as int)[j]);
                        }
                    }
                    assert(self.data@.take(i + 1) =~= src@.take(i + 1));
                }
                assert(self.data@.skip(n as int) =~= old(self).data@.skip(n as int));
            }
            i = i + 1;
        }
        self.len = n as u8;
        proof {
            assert(self.data@ =~= clip64(src@) + old(self).data@.skip(n as int)) by {
                assert forall|j: int| 0 <= j < 64 implies #[trigger] self.data@[j] == (clip64(src@)
                    + old(self).data@.skip(n as int))[j] by {
                    if j < n {
                        assert(self.data@.take(n as int)[j] == src@.take(n as int)[j]);
                    } else {
                        assert(self.data@.skip(n as int)[j - n] == old(self).data@.skip(
                            n as int,
                        )[j - n]);
                    }
                }
            }
            assert(self.bytes() =~= clip64(src@));
        }
    }

    /// Reads the byte at index `i` of the packet's data.
    pub fn get(&self, i: usize) -> (r: u8)
        requires
            self.wf(),
            i < self.spec_len(),
        ensures
            r == self.bytes()[i as int],
    {
        self.data[i]
    }

    /// Reverses the packet's data in place.
    pub fn reverse(&mut self)
        requires
            old(self).wf(),
        ensures
            final(self).wf(),
            final(self).slot_id() == old(self).slot_id(),
            final(self).spec_len() == old(self).spec_len(),
            final(self).bytes() == old(self).bytes().reverse(),
    {
        let n: usize = self.len as usize;
        let mut i: usize = 0;
        while i < n / 2
            invariant
                old(self).wf(),
                i <= n / 2,
                n == old(self).len,
                n <= 64,
                self.data@.len() == 64,
                self.len == old(self).len,
                self.slot == old(self).slot,
                forall|j: int|
                    0 <= j < i || n - i <= j < n ==> self.data@[j] == old(self).data@[n - 1 - j],
                forall|j: int| i <= j < n - i ==> self.data@[j] == old(self).data@[j],
                forall|j: int| n <= j < 64 ==> self.data@[j] == old(self).data@[j],
            decreases n / 2 - i,
        {
            let a = self.data[i];
            let b = self.data[n - 1 - i];
            self.data[i] = b;
            self.data[n - 1 - i] = a;
            i = i + 1;
        }
        proof {
            assert(final(self).bytes() =~= old(self).bytes().reverse());
        }
    }

    /// Copies the packet's data out into a fresh vector.
    pub fn to_vec(&self) -> (r: Vec<u8>)
        requires
            self.wf(),
        ensures
            r@ == self.bytes(),
    {
        let n: usize = self.len as usize;
        let mut out: Vec<u8> = Vec::new();
        let mut i: usize = 0;
        while i < n
            invariant
                self.wf(),
                i <= n,
                n == self.len,
                out@ == self.bytes().take(i as int),
            decreases n - i,
        {
            out.push(self.data[i]);
            proof {
                assert(out@ =~= self.bytes().take(i + 1));
            }
            i = i + 1;
        }
        proof {
            assert(out@ =~= self.bytes());
        }
        out
    }
}

/// Bookkeeping for the preallocated buffer slots: `slots()[i]` is true while
/// slot `i` is checked out.
pub struct Pool {
    in_use: Vec<bool>,
}

/// How many slots of `s` are free (not checked out).
pub open spec fn count_free(s: Seq<bool>) -> int
    decreases s.len(),
{
    if s.len() == 0 {
        0
    } else {
        count_free(s.drop_last()) + if s.last() {
            0int
        } else {
            1int
        }
    }
}

impl Pool {
    /// Which slots are checked out.
    pub closed spec fn slots(&self) -> Seq<bool> {
        self.in_use@
    }

    /// The fixed number of slots.
    pub open spec fn capacity(&self) -> int {
        self.slots().len() as int
    }

    /// A fresh pool of `capacity` slots, all free.
    pub fn new(capacity: usize) -> (r: Pool)
        ensures
            r.slots() == Seq::new(capacity as nat, |i: int| false),
    {
        let mut in_use: Vec<bool> = Vec::new();
        let mut i: usize = 0;
        while i < capacity
            invariant
                i <= capacity,
                in_use@ == Seq::new(i as nat, |j: int| false),
            decreases capacity - i,
        {
            in_use.push(false);
            proof {
                assert(in_use@ =~= Seq::new((i + 1) as nat, |j: int| false));
            }
            i = i + 1;
        }
        Pool { in_use }
    }

    /// Checks out the lowest-numbered free slot, if any, and returns an empty
    /// packet backed by it. Returns `None` while every slot is checked out:
    /// the caller must wait for a release and retry.
    pub fn allocate(&mut self) -> (r: Option<Packet>)
        ensures
            match r {
                Some(p) => {
                    &&& p.wf()
                    &&& p.spec_len() == 0
                    &&& p.storage() == Seq::new(64, |i: int| 0u8)
                    &&& 0 <= p.slot_id() < old(self).capacity()
                    &&& !old(self).slots()[p.slot_id()]
                    &&& forall|j: int| 0 <= j < p.slot_id() ==> old(self).slots()[j]
                    &&& final(self).slots() == old(self).slots().update(p.slot_id(), true)
                },
                None => {
                    &&& *final(self) == *old(self)
                    &&& forall|j: int| 0 <= j < old(self).capacity() ==> old(self).slots()[j]
                },
            },
    {
        let n: usize = self.in_use.len();
        let mut i: usize = 0;
        while i < n
            invariant
                i <= n,
                n == self.in_use@.len(),
                self == old(self),
                forall|j: int| 0 <= j < i ==> self.in_use@[j],
            decreases n - i,
        {
            if !self.in_use[i] {
                self.in_use[i] = true;
                let mut data: Vec<u8> = Vec::new();
                let mut k: usize = 0;
                while k < 64
                    invariant
                        k <= 64,
                        data@ == Seq::new(k as nat, |j: int| 0u8),
                    decreases 64 - k,
                {
                    data.push(0);
                    proof {
                        assert(data@ =~= Seq::new((k + 1) as nat, |j: int| 0u8));
                    }
                    k = k + 1;
                }
                return Some(Packet { data, len: 0, slot: i });
            }
            i = i + 1;
        }
        None
    }

    /// Returns a packet's slot to the pool. Infallible; may be invoked from
    /// either the interrupt or the task context.
    pub fn release(&mut self, p: Packet)
        requires
            0 <= p.slot_id() < old(self).capacity(),
            old(self).slots()[p.slot_id()],
        ensures
            final(self).slots() == old(self).slots().update(p.slot_id(), false),
    {
        let slot = p.slot();
        self.in_use[slot] = false;
    }
}

/// Releasing one slot of an exhausted pool changes `count_free` from 0 to 1.
proof fn lemma_count_free_update(s: Seq<bool>, k: int, v: bool)
    requires
        0 <= k < s.len(),
        s[k] != v,
    ensures
        count_free(s.update(k, v)) == count_free(s) + if v {
            -1int
        } else {
            1int
        },
    decreases s.len(),
{
    let t = s.update(k, v);
    if k == s.len() - 1 {
        assert(t.drop_last() =~= s.drop_last());
    } else {
        assert(t.drop_last() =~= s.drop_last().update(k, v));
        lemma_count_free_update(s.drop_last(), k, v);
    }
}

/// In a pool where every slot is checked out, no slot is free.
proof fn lemma_count_free_full(s: Seq<bool>)
    requires
        forall|j: int| 0 <= j < s.len() ==> s[j],
    ensures
        count_free(s) == 0,
    decreases s.len(),
{
    if s.len() > 0 {
        lemma_count_free_full(s.drop_last());
    }
}

/// Pool hand-off law: while every slot of the pool is checked out, an
/// allocation request cannot be satisfied and suspends; releasing one slot
/// frees exactly that slot, so exactly one suspended request can proceed, and
/// its allocation exhausts the pool again, keeping any further request
/// suspended.
pub proof fn lemma_pool_release_wakes_exactly_one(s: Seq<bool>, k: int)
    requires
        0 <= k < s.len(),
        forall|j: int| 0 <= j < s.len() ==> s[j],
    ensures
        count_free(s) == 0,
        count_free(s.update(k, false)) == 1,
        forall|j: int| 0 <= j < s.len() && !s.update(k, false)[j] ==> j == k,
        count_free(s.update(k, false).update(k, true)) == 0,
{
    lemma_count_free_full(s);
    lemma_count_free_update(s, k, false);
    lemma_count_free_update(s.update(k, false), k, true);
}

} // verus!
