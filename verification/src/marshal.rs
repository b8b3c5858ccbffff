//! Marshaling between plain values and the linear-memory transport.
//!
//! Module words cross the boundary as a word array written into the
//! transport; strings cross as null-terminated byte strings, each in an
//! allocation of its own; the entry-point table crosses as an array of
//! fixed-stride records whose name fields hold the addresses of per-element
//! string allocations.  Every writer states precisely which allocations it
//! made and what they hold, so the reading side can copy the data out and
//! release every allocation, and prove that nothing leaks.

use crate::engine::Engine;
use crate::engine::name_ok;
use crate::engine::ResultCode;
use crate::engine::TargetKind;
use crate::parser::parse_model;
use crate::parser::parse_module;
use crate::transport::cstr_at;
use crate::transport::has_nul;
use crate::transport::lemma_cstr_of_bytes;
use crate::transport::word_at;
use crate::transport::Heap;
use vstd::prelude::*;

verus! {

/// The `n` little-endian words stored at byte offset `a` of `m`.
pub open spec fn words_at(m: Seq<u8>, a: int, n: int) -> Seq<u32> {
    Seq::new(n as nat, |k: int| word_at(m, a + 4 * k))
}

/// Writes the words of `words` at byte offset `addr`.
pub(crate) fn write_words(heap: &mut Heap, addr: u32, words: &Vec<u32>)
    requires
        old(heap).wf(),
        addr + 4 * words@.len() <= old(heap).contents().len(),
    ensures
        final(heap).wf(),
        final(heap).contents().len() == old(heap).contents().len(),
        final(heap).live_map() == old(heap).live_map(),
        final(heap).live() == old(heap).live(),
        words_at(final(heap).contents(), addr as int, words@.len() as int) == words@,
        forall|k: int|
            0 <= k < old(heap).contents().len() && !(addr <= k < addr + 4 * words@.len())
                ==> final(heap).contents()[k] == old(heap).contents()[k],
{
    let n = words.len();
    let mut j: usize = 0;
    while j < n
        invariant
            heap.wf(),
            n == words@.len(),
            j <= n,
            addr + 4 * n <= heap.contents().len(),
            heap.contents().len() == old(heap).contents().len(),
            heap.live_map() == old(heap).live_map(),
            heap.live() == old(heap).live(),
            forall|k: int|
                0 <= k < old(heap).contents().len() && !(addr <= k < addr + 4 * n)
                    ==> heap.contents()[k] == old(heap).contents()[k],
            forall|k: int|
                0 <= k < j ==> word_at(heap.contents(), addr + 4 * k) == words@[k],
        decreases n - j,
    {
        proof {
            heap.lemma_wf_len();
        }
        let ghost before = heap.contents();
        heap.write_u32(addr + 4 * (j as u32), words[j]);
        proof {
            assert forall|k: int|
                0 <= k < j + 1 implies word_at(heap.contents(), addr + 4 * k) == words@[k] by {
                if k < j {
                    assert(word_at(before, addr + 4 * k) == words@[k]);
                    assert forall|x: int| addr + 4 * k <= x < addr + 4 * k + 4 implies
                        heap.contents()[x] == before[x] by {}
                }
            }
        }
        j = j + 1;
    }
    proof {
        assert(words_at(heap.contents(), addr as int, n as int) =~= words@);
    }
}

/// Reads `n` words from byte offset `addr`.
pub(crate) fn read_words(heap: &Heap, addr: u32, n: u32) -> (r: Vec<u32>)
    requires
        heap.wf(),
        addr + 4 * n <= heap.contents().len(),
    ensures
        r@ == words_at(heap.contents(), addr as int, n as int),
{
    let mut out: Vec<u32> = Vec::new();
    let mut j: u32 = 0;
    while j < n
        invariant
            heap.wf(),
            j <= n,
            addr + 4 * n <= heap.contents().len(),
            out@ == words_at(heap.contents(), addr as int, j as int),
        decreases n - j,
    {
        proof {
            heap.lemma_wf_len();
        }
        let w = heap.read_u32(addr + 4 * j);
        out.push(w);
        proof {
            assert(out@ =~= words_at(heap.contents(), addr as int, j as int + 1));
        }
        j = j + 1;
    }
    out
}

/// Allocates a fresh null-terminated copy of `bytes` and hands back its
/// address.
pub(crate) fn write_cstr(heap: &mut Heap, bytes: &Vec<u8>) -> (addr: u32)
    requires
        old(heap).wf(),
        old(heap).contents().len() + bytes@.len() + 2 <= u32::MAX,
        old(heap).live() < usize::MAX,
        bytes@.len() <= u32::MAX,
        forall|k: int| 0 <= k < bytes@.len() ==> bytes@[k] != 0,
    ensures
        final(heap).wf(),
        addr == old(heap).contents().len(),
        final(heap).contents().len() == old(heap).contents().len() + bytes@.len() + 1,
        forall|k: int|
            0 <= k < old(heap).contents().len() ==> final(heap).contents()[k] == old(heap).contents()[k],
        cstr_at(final(heap).contents(), addr as int) == bytes@,
        has_nul(final(heap).contents(), addr as int),
        final(heap).live() == old(heap).live() + 1,
        !old(heap).live_map().dom().contains(addr as int),
        final(heap).live_map() == old(heap).live_map().insert(addr as int, bytes@.len() as int),
{
    let len = bytes.len() as u32;
    let addr = heap.allocate(len);
    heap.write_bytes(addr, bytes);
    proof {
        assert(heap.contents()[addr + bytes@.len()] == 0);
        lemma_cstr_of_bytes(heap.contents(), addr as int, bytes@);
    }
    addr
}

/// The diagnostic the core retains when a module is rejected at
/// construction: the bytes of "invalid module".
pub open spec fn invalid_module_diag() -> Seq<u8> {
    seq![
        0x69u8,
        0x6eu8,
        0x76u8,
        0x61u8,
        0x6cu8,
        0x69u8,
        0x64u8,
        0x20u8,
        0x6du8,
        0x6fu8,
        0x64u8,
        0x75u8,
        0x6cu8,
        0x65u8,
    ]
}

impl Engine {
    /// Constructs a compiler instance for `target` from the `word_count`
    /// module words stored at `ir_addr`.  Reads the transport and changes
    /// nothing on it; on a rejected module it reports `CompilationError` and
    /// retains a diagnostic for [`Engine::sc_get_latest_diagnostic`].
    pub(crate) fn sc_new(target: TargetKind, heap: &mut Heap, ir_addr: u32, word_count: u32) -> (r: (
        ResultCode,
        Option<Engine>,
    ))
        requires
            old(heap).wf(),
            ir_addr + 4 * word_count <= old(heap).contents().len(),
        ensures
            *final(heap) == *old(heap),
            match r.1 {
                Some(eng) => r.0 == ResultCode::Success && eng.wf() && eng.target == target
                    && parse_model(
                    target,
                    words_at(old(heap).contents(), ir_addr as int, word_count as int),
                ) == Some(eng.model()),
                None => r.0 == ResultCode::CompilationError && parse_model(
                    target,
                    words_at(old(heap).contents(), ir_addr as int, word_count as int),
                ) is None,
            },
    {
        let words = read_words(heap, ir_addr, word_count);
        match parse_module(target, &words) {
            Some(eng) => (ResultCode::Success, Some(eng)),
            None => (ResultCode::CompilationError, None),
        }
    }

    /// Hands out the retained diagnostic as a freshly allocated C string;
    /// the caller copies and frees it.
    pub(crate) fn sc_get_latest_diagnostic(heap: &mut Heap) -> (r: (ResultCode, u32))
        requires
            old(heap).wf(),
            old(heap).contents().len() + 16 <= u32::MAX,
            old(heap).live() < usize::MAX,
        ensures
            final(heap).wf(),
            r.0 == ResultCode::Success,
            r.1 == old(heap).contents().len(),
            cstr_at(final(heap).contents(), r.1 as int) == invalid_module_diag(),
            has_nul(final(heap).contents(), r.1 as int),
            final(heap).live() == old(heap).live() + 1,
            final(heap).live_map() == old(heap).live_map().insert(
                r.1 as int,
                invalid_module_diag().len() as int,
            ),
            !old(heap).live_map().dom().contains(r.1 as int),
            forall|k: int|
                0 <= k < old(heap).contents().len() ==> final(heap).contents()[k] == old(heap).contents()[k],
    {
        let msg: Vec<u8> = vec![
            0x69u8, 0x6eu8, 0x76u8, 0x61u8, 0x6cu8, 0x69u8, 0x64u8, 0x20u8, 0x6du8, 0x6fu8, 0x64u8,
            0x75u8, 0x6cu8, 0x65u8,
        ];
        proof {
            assert(msg@ =~= invalid_module_diag());
        }
        let addr = write_cstr(heap, &msg);
        (ResultCode::Success, addr)
    }
}

} // verus!

verus! {

/// Writes one entry-point record (name address, execution model, workgroup
/// size) at byte offset `rec`.
pub(crate) fn write_ep_record(heap: &mut Heap, rec: u32, na: u32, em: u32, x: u32, y: u32, z: u32)
    requires
        old(heap).wf(),
        rec + 20 <= old(heap).contents().len(),
    ensures
        final(heap).wf(),
        final(heap).contents().len() == old(heap).contents().len(),
        final(heap).live_map() == old(heap).live_map(),
        final(heap).live() == old(heap).live(),
        forall|k: int|
            0 <= k < old(heap).contents().len() && !(rec <= k < rec + 20)
                ==> final(heap).contents()[k] == old(heap).contents()[k],
        word_at(final(heap).contents(), rec as int) == na,
        word_at(final(heap).contents(), rec as int + 4) == em,
        word_at(final(heap).contents(), rec as int + 8) == x,
        word_at(final(heap).contents(), rec as int + 12) == y,
        word_at(final(heap).contents(), rec as int + 16) == z,
{
    proof {
        heap.lemma_wf_len();
    }
    heap.write_u32(rec, na);
    let ghost m1 = heap.contents();
    heap.write_u32(rec + 4, em);
    let ghost m2 = heap.contents();
    heap.write_u32(rec + 8, x);
    let ghost m3 = heap.contents();
    heap.write_u32(rec + 12, y);
    let ghost m4 = heap.contents();
    heap.write_u32(rec + 16, z);
    proof {
        let m5 = heap.contents();
        assert forall|k: int| rec <= k < rec + 4 implies m5[k] == m1[k] by {}
        assert(word_at(m5, rec as int) == na);
        assert forall|k: int| rec + 4 <= k < rec + 8 implies m5[k] == m2[k] by {}
        assert(word_at(m5, rec as int + 4) == em);
        assert forall|k: int| rec + 8 <= k < rec + 12 implies m5[k] == m3[k] by {}
        assert(word_at(m5, rec as int + 8) == x);
        assert forall|k: int| rec + 12 <= k < rec + 16 implies m5[k] == m4[k] by {}
        assert(word_at(m5, rec as int + 12) == y);
    }
}

impl Engine {
    /// Hands out the entry points of the module as a freshly allocated array
    /// of records whose name fields point at freshly allocated C strings.
    /// The reply is the record array's address and element count; the ghost
    /// component lists the name allocations.  The caller copies everything
    /// out and frees the array and every name.
    #[verifier::rlimit(60)]
    pub(crate) fn sc_get_entry_points(&self, heap: &mut Heap) -> (r: (ResultCode, u32, u32, Ghost<
        Seq<u32>,
    >))
        requires
            self.wf(),
            old(heap).wf(),
            old(heap).contents().len() <= 0x10000,
            old(heap).live() + 300 <= usize::MAX,
        ensures
            final(heap).wf(),
            r.0 == ResultCode::Success,
            r.2 == self.model().entry_points.len(),
            r.1 == old(heap).contents().len(),
            final(heap).live() == old(heap).live() + 1 + self.model().entry_points.len(),
            r.1 + 20 * self.model().entry_points.len() + 1 <= final(heap).contents().len(),
            final(heap).live_map().dom().contains(r.1 as int),
            r.3@.len() == self.model().entry_points.len(),
            forall|a: int|
                #[trigger] old(heap).live_map().dom().contains(a) ==> final(heap).live_map().dom().contains(a) && final(heap).live_map()[a] == old(heap).live_map()[a],
            forall|a: int|
                #[trigger] final(heap).live_map().dom().contains(a) ==> old(heap).live_map().dom().contains(a) || a == r.1 || (exists|j: int|
                    0 <= j < r.3@.len() && r.3@[j] == a),
            forall|j: int| 0 <= j < r.3@.len() ==> r.1 < #[trigger] r.3@[j],
            forall|j1: int, j2: int|
                0 <= j1 < j2 < r.3@.len() ==> #[trigger] r.3@[j1] < #[trigger] r.3@[j2],
            forall|j: int|
                0 <= j < r.3@.len() ==> final(heap).live_map().dom().contains(
                    #[trigger] r.3@[j] as int,
                ),
            forall|j: int|
                0 <= j < r.3@.len() ==> word_at(final(heap).contents(), r.1 + 20 * j) == (
                #[trigger] r.3@[j]),
            forall|j: int|
                0 <= j < r.3@.len() ==> word_at(final(heap).contents(), r.1 + 20 * j + 4) == (
                #[trigger] self.model().entry_points[j].execution_model),
            forall|j: int|
                #![trigger self.model().entry_points[j].wg_x]
                0 <= j < r.3@.len() ==> {
                    &&& word_at(final(heap).contents(), r.1 + 20 * j + 8)
                        == self.model().entry_points[j].wg_x
                    &&& word_at(final(heap).contents(), r.1 + 20 * j + 12)
                        == self.model().entry_points[j].wg_y
                    &&& word_at(final(heap).contents(), r.1 + 20 * j + 16)
                        == self.model().entry_points[j].wg_z
                },
            forall|j: int|
                0 <= j < r.3@.len() ==> cstr_at(final(heap).contents(), #[trigger] r.3@[j] as int)
                    == self.model().entry_points[j].name && has_nul(
                    final(heap).contents(),
                    r.3@[j] as int,
                ),
    {
        let eps_count = self.entry_points.len();
        proof {
            assert(self.model().entry_points.len() == self.entry_points@.len());
        }
        let arr_size: u32 = 20 * (eps_count as u32);
        let addr = heap.allocate(arr_size);
        let ghost eps = self.model().entry_points;
        let ghost mut nas: Seq<u32> = Seq::empty();
        let mut j: usize = 0;
        while j < eps_count
            invariant
                self.wf(),
                heap.wf(),
                eps == self.model().entry_points,
                eps_count == eps.len(),
                eps_count <= 256,
                j <= eps_count,
                addr == old(heap).contents().len(),
                addr <= 0x10000,
                addr + 20 * eps_count + 1 <= heap.contents().len(),
                heap.contents().len() <= addr + 20 * eps_count + 1 + j * 4098,
                heap.live() == old(heap).live() + 1 + j,
                old(heap).live() + 300 <= usize::MAX,
                heap.live_map().dom().contains(addr as int),
                nas.len() == j,
                forall|a: int|
                    #[trigger] old(heap).live_map().dom().contains(a)
                        ==> heap.live_map().dom().contains(a) && heap.live_map()[a] == old(heap).live_map()[a],
                forall|a: int|
                    #[trigger] heap.live_map().dom().contains(a) ==> old(heap).live_map().dom().contains(a) || a == addr || (exists|j2: int|
                        0 <= j2 < nas.len() && nas[j2] == a),
                forall|j2: int|
                    0 <= j2 < j ==> addr + 20 * eps_count + 1 <= #[trigger] nas[j2],
                forall|j2: int| 0 <= j2 < j ==> (#[trigger] nas[j2]) < heap.contents().len(),
                forall|j1: int, j2: int|
                    0 <= j1 < j2 < j ==> #[trigger] nas[j1] < #[trigger] nas[j2],
                forall|j2: int|
                    0 <= j2 < j ==> heap.live_map().dom().contains(#[trigger] nas[j2] as int),
                forall|j2: int|
                    0 <= j2 < j ==> word_at(heap.contents(), addr + 20 * j2) == (
                    #[trigger] nas[j2]),
                forall|j2: int|
                    0 <= j2 < j ==> word_at(heap.contents(), addr + 20 * j2 + 4) == (
                    #[trigger] eps[j2].execution_model),
                forall|j2: int|
                    #![trigger eps[j2].wg_x]
                    0 <= j2 < j ==> {
                        &&& word_at(heap.contents(), addr + 20 * j2 + 8) == eps[j2].wg_x
                        &&& word_at(heap.contents(), addr + 20 * j2 + 12) == eps[j2].wg_y
                        &&& word_at(heap.contents(), addr + 20 * j2 + 16) == eps[j2].wg_z
                    },
                forall|j2: int|
                    0 <= j2 < j ==> cstr_at(heap.contents(), #[trigger] nas[j2] as int)
                        == eps[j2].name && has_nul(heap.contents(), nas[j2] as int),
            decreases eps_count - j,
        {
            proof {
                heap.lemma_wf_len();
                assert(name_ok(eps[j as int].name));
                assert(eps[j as int].name == self.entry_points@[j as int].name@);
            }
            let ghost before_cstr = heap.contents();
            let na = write_cstr(heap, &self.entry_points[j].name);
            proof {
                assert forall|j2: int|
                    0 <= j2 < j implies cstr_at(heap.contents(), #[trigger] nas[j2] as int)
                    == eps[j2].name && has_nul(heap.contents(), nas[j2] as int) by {
                    crate::transport::lemma_cstr_stable(
                        before_cstr,
                        heap.contents(),
                        nas[j2] as int,
                    );
                }
            }
            let ghost before_rec = heap.contents();
            let rec_addr: u32 = addr + 20 * (j as u32);
            write_ep_record(
                heap,
                rec_addr,
                na,
                self.entry_points[j].execution_model,
                self.entry_points[j].wg_x,
                self.entry_points[j].wg_y,
                self.entry_points[j].wg_z,
            );
            proof {
                assert forall|j2: int|
                    0 <= j2 < j + 1 implies cstr_at(heap.contents(), #[trigger] nas.push(na)[j2] as int)
                    == eps[j2].name && has_nul(heap.contents(), nas.push(na)[j2] as int) by {
                    let a2 = nas.push(na)[j2];
                    assert forall|k: int| a2 <= k < before_rec.len() implies before_rec[k]
                        == heap.contents()[k] by {
                        assert(rec_addr + 20 <= addr + 20 * eps_count + 1);
                        assert(a2 > rec_addr + 20 || a2 == na);
                    }
                    crate::transport::lemma_cstr_stable(before_rec, heap.contents(), a2 as int);
                }
                assert forall|j2: int|
                    0 <= j2 < j implies word_at(heap.contents(), addr + 20 * j2) == (
                #[trigger] nas[j2]) && word_at(heap.contents(), addr + 20 * j2 + 4) == (
                eps[j2].execution_model) && word_at(heap.contents(), addr + 20 * j2 + 8)
                    == eps[j2].wg_x && word_at(heap.contents(), addr + 20 * j2 + 12)
                    == eps[j2].wg_y && word_at(heap.contents(), addr + 20 * j2 + 16)
                    == eps[j2].wg_z by {
                    assert forall|k: int|
                        addr + 20 * j2 <= k < addr + 20 * j2 + 20 implies heap.contents()[k]
                        == before_rec[k] by {}
                    assert forall|k: int|
                        addr + 20 * j2 <= k < addr + 20 * j2 + 20 implies before_rec[k]
                        == before_cstr[k] by {}
                    assert(word_at(before_cstr, addr + 20 * j2) == nas[j2]);
                    assert(word_at(before_cstr, addr + 20 * j2 + 4) == eps[j2].execution_model);
                    assert(word_at(before_cstr, addr + 20 * j2 + 8) == eps[j2].wg_x);
                    assert(word_at(before_cstr, addr + 20 * j2 + 12) == eps[j2].wg_y);
                    assert(word_at(before_cstr, addr + 20 * j2 + 16) == eps[j2].wg_z);
                }
                let nas2 = nas.push(na);
                assert(nas2[j as int] == na);
                assert forall|a: int|
                    #[trigger] heap.live_map().dom().contains(a) implies old(
                heap).live_map().dom().contains(a) || a == addr || (exists|j2: int|
                    0 <= j2 < nas2.len() && nas2[j2] == a) by {
                    if a == na {
                        assert(0 <= j < nas2.len() && nas2[j as int] == a);
                    } else {
                        if !old(heap).live_map().dom().contains(a) && a != addr {
                            let j2 = choose|j2: int| 0 <= j2 < nas.len() && nas[j2] == a;
                            assert(nas2[j2] == a);
                        }
                    }
                }
                nas = nas2;
                assert forall|j2: int|
                    #![trigger eps[j2].wg_x]
                    0 <= j2 < j + 1 implies word_at(heap.contents(), addr + 20 * j2 + 8)
                    == eps[j2].wg_x && word_at(heap.contents(), addr + 20 * j2 + 12)
                    == eps[j2].wg_y && word_at(heap.contents(), addr + 20 * j2 + 16)
                    == eps[j2].wg_z by {
                    if j2 < j {
                        assert(word_at(heap.contents(), addr + 20 * j2) == nas[j2]);
                    }
                }
            }
            j = j + 1;
        }
        (ResultCode::Success, addr, eps_count as u32, Ghost(nas))
    }
}

} // verus!
