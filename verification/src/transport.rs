//! The linear-memory transport.
//!
//! Every value that crosses the compiler boundary travels through a [`Heap`]:
//! a single growable byte region addressed by 32-bit offsets, with explicit
//! `allocate` / `free` pairing.  Address `0` is never handed out, so an
//! address returned by `allocate` is always distinguishable from a null
//! handle.  The heap keeps a count of live allocations; the contracts of the
//! compiler queries use it to state that nothing leaks.

use vstd::prelude::*;

verus! {

/// First address that `allocate` may hand out; the bytes below it are a
/// reserved guard region, so no allocation is ever at address `0`.
pub const HEAP_BASE: u32 = 8;

/// The little-endian 32-bit word stored at byte offset `a` of `m`.
pub open spec fn word_at(m: Seq<u8>, a: int) -> u32
    recommends
        0 <= a,
        a + 4 <= m.len(),
{
    (m[a] + m[a + 1] * 0x100 + m[a + 2] * 0x10000 + m[a + 3] * 0x1000000) as u32
}

/// The bytes of the null-terminated string stored at byte offset `a` of `m`:
/// everything from `a` up to (excluding) the first zero byte.
pub open spec fn cstr_at(m: Seq<u8>, a: int) -> Seq<u8>
    decreases m.len() - a,
{
    if a < 0 || a >= m.len() || m[a] == 0 {
        Seq::empty()
    } else {
        seq![m[a]] + cstr_at(m, a + 1)
    }
}

/// There is a zero byte at or after offset `a`, so a null-terminated read
/// starting at `a` terminates.
pub open spec fn has_nul(m: Seq<u8>, a: int) -> bool {
    exists|i: int| a <= i < m.len() && m[i] == 0
}

/// If the bytes from `a` to the first zero are the same in `m1` and `m2`,
/// the null-terminated strings there are the same.  `m2` may extend or
/// differ from `m1` anywhere at or beyond `m1.len()`.
pub proof fn lemma_cstr_stable(m1: Seq<u8>, m2: Seq<u8>, a: int)
    requires
        0 <= a,
        m1.len() <= m2.len(),
        has_nul(m1, a),
        forall|k: int| a <= k < m1.len() ==> m1[k] == m2[k],
    ensures
        cstr_at(m2, a) == cstr_at(m1, a),
        has_nul(m2, a),
    decreases m1.len() - a,
{
    if a < m1.len() && m1[a] != 0 {
        assert(has_nul(m1, a + 1)) by {
            let i = choose|i: int| a <= i < m1.len() && m1[i] == 0;
            assert(a + 1 <= i < m1.len() && m1[i] == 0);
        }
        lemma_cstr_stable(m1, m2, a + 1);
        assert(cstr_at(m2, a) == cstr_at(m1, a));
    }
}

/// A null-terminated string whose bytes up to the terminator are known:
/// `cstr_at` returns exactly those bytes.
pub proof fn lemma_cstr_of_bytes(m: Seq<u8>, a: int, bytes: Seq<u8>)
    requires
        0 <= a,
        a + bytes.len() + 1 <= m.len(),
        forall|k: int| 0 <= k < bytes.len() ==> m[a + k] == bytes[k] && bytes[k] != 0,
        m[a + bytes.len()] == 0,
    ensures
        cstr_at(m, a) == bytes,
        has_nul(m, a),
    decreases bytes.len(),
{
    assert(a + bytes.len() < m.len());
    if bytes.len() == 0 {
        assert(m[a] == 0);
        assert(cstr_at(m, a) =~= bytes);
    } else {
        assert(m[a] == bytes[0] && bytes[0] != 0);
        lemma_cstr_of_bytes(m, a + 1, bytes.subrange(1, bytes.len() as int));
        assert(cstr_at(m, a) =~= bytes);
    }
}

/// The dual-backend memory transport: a linear byte region reached only
/// through allocate / free / read / write operations.
pub struct Heap {
    mem: Vec<u8>,
    live: Ghost<Map<int, int>>,
    live_count: usize,
}

impl Heap {
    /// The bytes of the transport memory.
    pub closed spec fn contents(self) -> Seq<u8> {
        self.mem@
    }

    /// The live allocations: address to allocation size.
    pub closed spec fn live_map(self) -> Map<int, int> {
        self.live@
    }

    /// How many allocations are live (allocated and not yet freed).
    pub closed spec fn live(self) -> nat {
        self.live_count as nat
    }

    /// Well-formedness: the reserved guard region exists, addresses stay
    /// 32-bit, every live allocation lies strictly inside the memory, and the
    /// live count matches the live map.
    pub closed spec fn wf(self) -> bool {
        &&& HEAP_BASE <= self.mem@.len() <= u32::MAX
        &&& self.live@.dom().finite()
        &&& self.live@.dom().len() == self.live_count
        &&& forall|a: int| #[trigger] self.live@.dom().contains(a)
            ==> HEAP_BASE <= a && 0 <= self.live@[a] && a + self.live@[a] < self.mem@.len()
    }

    /// A fresh transport with no allocations.
    pub fn new() -> (h: Heap)
        ensures
            h.wf(),
            h.live() == 0,
            h.live_map() == Map::<int, int>::empty(),
            h.contents().len() == HEAP_BASE,
    {
        let mut mem: Vec<u8> = Vec::new();
        let mut i: u32 = 0;
        while i < HEAP_BASE
            invariant
                i <= HEAP_BASE,
                mem@.len() == i,
            decreases HEAP_BASE - i,
        {
            mem.push(0);
            i = i + 1;
        }
        Heap { mem, live: Ghost(Map::empty()), live_count: 0 }
    }

    /// Reserves `size` fresh zeroed bytes (plus a guard byte) and returns
    /// their address, which is never `0` and never equal to the address of
    /// any other live allocation.
    pub fn allocate(&mut self, size: u32) -> (addr: u32)
        requires
            old(self).wf(),
            old(self).contents().len() + size + 1 <= u32::MAX,
            old(self).live() < usize::MAX,
        ensures
            final(self).wf(),
            addr == old(self).contents().len(),
            HEAP_BASE <= addr,
            addr + size + 1 == final(self).contents().len(),
            final(self).contents() == old(self).contents() + Seq::new(size as nat + 1, |i: int| 0u8),
            final(self).live() == old(self).live() + 1,
            !old(self).live_map().dom().contains(addr as int),
            final(self).live_map() == old(self).live_map().insert(addr as int, size as int),
    {
        let addr: u32 = self.mem.len() as u32;
        let mut i: u32 = 0;
        while i < size + 1
            invariant
                size < u32::MAX,
                i <= size + 1,
                self.mem@ == old(self).mem@ + Seq::new(i as nat, |k: int| 0u8),
                self.live == old(self).live,
                self.live_count == old(self).live_count,
            decreases size + 1 - i,
        {
            self.mem.push(0);
            assert(self.mem@ =~= old(self).mem@ + Seq::new((i + 1) as nat, |k: int| 0u8));
            i = i + 1;
        }
        proof {
            if self.live@.dom().contains(addr as int) {
                assert(addr as int + self.live@[addr as int] < old(self).mem@.len());
                assert(false);
            }
            assert(self.live@.dom().finite());
            vstd::set::axiom_set_insert_len(self.live@.dom(), addr as int);
        }
        self.live = Ghost(self.live@.insert(addr as int, size as int));
        self.live_count = self.live_count + 1;
        addr
    }

    /// Releases a live allocation.  Freeing twice is ruled out by the
    /// precondition: the address must still be live.
    pub fn free(&mut self, addr: u32)
        requires
            old(self).wf(),
            old(self).live_map().dom().contains(addr as int),
        ensures
            final(self).wf(),
            final(self).contents() == old(self).contents(),
            final(self).live() == old(self).live() - 1,
            final(self).live_map() == old(self).live_map().remove(addr as int),
    {
        proof {
            assert(self.live@.dom().finite());
            vstd::set::axiom_set_remove_len(self.live@.dom(), addr as int);
            assert(self.live@.dom().remove(addr as int) =~= self.live@.remove(addr as int).dom());
        }
        self.live = Ghost(self.live@.remove(addr as int));
        self.live_count = self.live_count - 1;
    }

    /// Reads the little-endian 32-bit word at `addr`.
    pub fn read_u32(&self, addr: u32) -> (v: u32)
        requires
            self.wf(),
            addr + 4 <= self.contents().len(),
        ensures
            v == word_at(self.contents(), addr as int),
    {
        let b0 = self.mem[addr as usize] as u32;
        let b1 = self.mem[addr as usize + 1] as u32;
        let b2 = self.mem[addr as usize + 2] as u32;
        let b3 = self.mem[addr as usize + 3] as u32;
        b0 + b1 * 0x100 + b2 * 0x10000 + b3 * 0x1000000
    }

    /// Writes `v` as a little-endian 32-bit word at `addr`.
    pub fn write_u32(&mut self, addr: u32, v: u32)
        requires
            old(self).wf(),
            addr + 4 <= old(self).contents().len(),
        ensures
            final(self).wf(),
            final(self).contents().len() == old(self).contents().len(),
            final(self).live_map() == old(self).live_map(),
            final(self).live() == old(self).live(),
            word_at(final(self).contents(), addr as int) == v,
            forall|k: int|
                0 <= k < old(self).contents().len() && !(addr <= k < addr + 4)
                    ==> final(self).contents()[k] == old(self).contents()[k],
    {
        let b0: u8 = (v % 0x100) as u8;
        let b1: u8 = (v / 0x100 % 0x100) as u8;
        let b2: u8 = (v / 0x10000 % 0x100) as u8;
        let b3: u8 = (v / 0x1000000) as u8;
        self.mem.set(addr as usize, b0);
        self.mem.set(addr as usize + 1, b1);
        self.mem.set(addr as usize + 2, b2);
        self.mem.set(addr as usize + 3, b3);
        proof {
            assert(v % 0x100 + (v / 0x100 % 0x100) * 0x100 + (v / 0x10000 % 0x100) * 0x10000 + (v
                / 0x1000000) * 0x1000000 == v) by (bit_vector);
        }
    }

    /// Copies `bytes` into the memory starting at `addr`.
    pub fn write_bytes(&mut self, addr: u32, bytes: &Vec<u8>)
        requires
            old(self).wf(),
            addr + bytes@.len() <= old(self).contents().len(),
        ensures
            final(self).wf(),
            final(self).contents().len() == old(self).contents().len(),
            final(self).live_map() == old(self).live_map(),
            final(self).live() == old(self).live(),
            forall|k: int|
                0 <= k < bytes@.len() ==> final(self).contents()[addr + k] == bytes@[k],
            forall|k: int|
                0 <= k < old(self).contents().len() && !(addr <= k < addr + bytes@.len())
                    ==> final(self).contents()[k] == old(self).contents()[k],
    {
        let mut i: usize = 0;
        while i < bytes.len()
            invariant
                self.wf(),
                i <= bytes@.len(),
                addr + bytes@.len() <= self.mem@.len(),
                self.mem@.len() == old(self).mem@.len(),
                self.live@ == old(self).live@,
                self.live_count == old(self).live_count,
                forall|k: int| 0 <= k < i ==> self.mem@[addr + k] == bytes@[k],
                forall|k: int|
                    0 <= k < old(self).mem@.len() && !(addr <= k < addr + i)
                        ==> self.mem@[k] == old(self).mem@[k],
            decreases bytes@.len() - i,
        {
            self.mem.set(addr as usize + i, bytes[i]);
            i = i + 1;
        }
    }

    /// Reads `len` bytes starting at `addr`.
    pub fn read_bytes(&self, addr: u32, len: u32) -> (r: Vec<u8>)
        requires
            self.wf(),
            addr + len <= self.contents().len(),
        ensures
            r@ == self.contents().subrange(addr as int, addr + len),
    {
        let mut out: Vec<u8> = Vec::new();
        let mut i: u32 = 0;
        while i < len
            invariant
                self.wf(),
                i <= len,
                addr + len <= self.contents().len(),
                out@ == self.contents().subrange(addr as int, addr + i),
            decreases len - i,
        {
            out.push(self.mem[(addr + i) as usize]);
            assert(out@ =~= self.contents().subrange(addr as int, addr + i + 1));
            i = i + 1;
        }
        out
    }

    /// Reads the null-terminated byte string at `addr` (the terminator is
    /// not included in the result).
    pub fn read_c_string(&self, addr: u32) -> (r: Vec<u8>)
        requires
            self.wf(),
            0 < addr,
            has_nul(self.contents(), addr as int),
        ensures
            r@ == cstr_at(self.contents(), addr as int),
            forall|k: int| 0 <= k < r@.len() ==> r@[k] != 0,
    {
        let ghost m = self.contents();
        let mut out: Vec<u8> = Vec::new();
        let mut i: u32 = addr;
        loop
            invariant
                self.wf(),
                self.contents() == m,
                addr <= i <= m.len(),
                has_nul(m, addr as int),
                forall|k: int| addr <= k < i ==> m[k] != 0,
                out@ == m.subrange(addr as int, i as int),
                forall|k: int| 0 <= k < out@.len() ==> out@[k] != 0,
            decreases m.len() - i,
        {
            proof {
                assert(i < m.len()) by {
                    let z = choose|z: int| addr <= z < m.len() && m[z] == 0;
                    assert(i <= z);
                }
            }
            let b = self.mem[i as usize];
            if b == 0 {
                proof {
                    Self::lemma_cstr_scan(m, addr as int, i as int);
                }
                return out;
            }
            out.push(b);
            assert(out@ =~= m.subrange(addr as int, i + 1));
            i = i + 1;
        }
    }

    /// A scan that found its first zero at `z` has read exactly
    /// `cstr_at(m, a)`.
    proof fn lemma_cstr_scan(m: Seq<u8>, a: int, z: int)
        requires
            0 <= a <= z < m.len(),
            forall|k: int| a <= k < z ==> m[k] != 0,
            m[z] == 0,
        ensures
            cstr_at(m, a) == m.subrange(a, z),
        decreases z - a,
    {
        if a == z {
            assert(cstr_at(m, a) =~= m.subrange(a, z));
        } else {
            Self::lemma_cstr_scan(m, a + 1, z);
            assert(cstr_at(m, a) =~= m.subrange(a, z));
        }
    }

    /// A well-formed heap spans at most the 32-bit address space.
    pub proof fn lemma_wf_len(&self)
        requires
            self.wf(),
        ensures
            self.contents().len() <= u32::MAX,
    {
    }

    /// Bounds of one live allocation, visible to callers.
    pub proof fn lemma_live_bounds(&self, a: int)
        requires
            self.wf(),
            self.live_map().dom().contains(a),
        ensures
            HEAP_BASE <= a,
            0 <= self.live_map()[a],
            a + self.live_map()[a] < self.contents().len(),
    {
    }

    /// The live-allocation probe: how many allocations are currently live.
    pub fn live_allocations(&self) -> (n: usize)
        ensures
            n == self.live(),
    {
        self.live_count
    }

    /// How many bytes the memory currently spans.
    pub fn size(&self) -> (n: u32)
        requires
            self.wf(),
        ensures
            n == self.contents().len(),
    {
        self.mem.len() as u32
    }

    /// Releases the memory above `new_len` after everything allocated there
    /// has been freed.
    pub fn truncate(&mut self, new_len: u32)
        requires
            old(self).wf(),
            HEAP_BASE <= new_len <= old(self).contents().len(),
            forall|a: int| #[trigger] old(self).live_map().dom().contains(a)
                ==> a + old(self).live_map()[a] < new_len,
        ensures
            final(self).wf(),
            final(self).contents() == old(self).contents().subrange(0, new_len as int),
            final(self).live_map() == old(self).live_map(),
            final(self).live() == old(self).live(),
    {
        self.mem.truncate(new_len as usize);
        proof {
            assert(self.mem@ =~= old(self).mem@.subrange(0, new_len as int));
            assert forall|a: int| #[trigger] self.live@.dom().contains(a) implies HEAP_BASE <= a
                && 0 <= self.live@[a] && a + self.live@[a] < self.mem@.len() by {
                assert(old(self).live_map().dom().contains(a));
            }
        }
    }
}

} // verus!
