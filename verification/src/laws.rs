//! The cross-cutting guarantees of the binding layer, stated as theorems
//! over the contracts of its operations.
//!
//! Two guarantees are carried clause-by-clause on the operations rather
//! than as one theorem here.  Resource balance: construction ensures the
//! transport holds exactly the opaque instance allocation, every operation
//! ensures well-formedness — which, by [`lemma_only_handle_survives`],
//! forces the live-allocation probe back to one — and releasing the handle
//! releases the whole transport with it, so construct followed immediately
//! by release leaks nothing.  Failure isolation: every operation's reply is
//! a typed result that carries no value on failure, and every failing
//! mutator's contract states that the instance state is unchanged, so no
//! caller can read data out of a failed operation.

use crate::compiler::bytes_as_chars;
use crate::compiler::em_from_raw;
use crate::engine::deco_or_zero;
use crate::engine::tbl_lookup;
use crate::engine::DecorationRec;
use crate::engine::EpModel;
use crate::engine::TargetKind;
use crate::parser::parse_model;
use crate::spirv;
use vstd::prelude::*;

verus! {

/// A decoration set and then queried reads back exactly the value set: a
/// successful `set_decoration` leaves the table looking up to the stored
/// record, and `get_decoration` replies with that record's argument.
pub proof fn lemma_decoration_round_trip(decos: Seq<DecorationRec>, id: u32, d: u32, v: u32)
    requires
        tbl_lookup(decos, (id, d, 0)) == Some(DecorationRec { id, decoration: d, argument: v }),
    ensures
        deco_or_zero(decos, id, d) == v,
{
}

/// One reflected entry point agrees fieldwise with its model record.
pub open spec fn ep_matches(ep: EpModel, e: spirv::EntryPoint) -> bool {
    &&& e.name@ == bytes_as_chars(ep.name)
    &&& em_from_raw(ep.execution_model) == Some(e.execution_model)
    &&& e.work_group_size == (spirv::WorkGroupSize { x: ep.wg_x, y: ep.wg_y, z: ep.wg_z })
}

/// Querying the entry points twice on an un-mutated handle yields equal
/// replies: each reply is determined fieldwise by the handle's state, which
/// the query leaves unchanged.
pub proof fn lemma_entry_points_idempotent(
    eps: Seq<EpModel>,
    v1: Seq<spirv::EntryPoint>,
    v2: Seq<spirv::EntryPoint>,
)
    requires
        v1.len() == eps.len(),
        forall|j: int| 0 <= j < v1.len() ==> ep_matches(eps[j], #[trigger] v1[j]),
        v2.len() == eps.len(),
        forall|j: int| 0 <= j < v2.len() ==> ep_matches(eps[j], #[trigger] v2[j]),
    ensures
        v1.len() == v2.len(),
        forall|j: int|
            0 <= j < v1.len() ==> {
                &&& (#[trigger] v1[j]).name@ == v2[j].name@
                &&& v1[j].execution_model == v2[j].execution_model
                &&& v1[j].work_group_size == v2[j].work_group_size
            },
{
    assert forall|j: int|
        0 <= j < v1.len() implies {
        &&& (#[trigger] v1[j]).name@ == v2[j].name@
        &&& v1[j].execution_model == v2[j].execution_model
        &&& v1[j].work_group_size == v2[j].work_group_size
    } by {
        assert(ep_matches(eps[j], v1[j]));
        assert(ep_matches(eps[j], v2[j]));
    }
}

/// A module with no words is rejected by every target's reader, so its
/// construction reports an error rather than producing an instance.
pub proof fn lemma_empty_module_rejected(target: TargetKind)
    ensures
        parse_model(target, Seq::<u32>::empty()) is None,
{
}

/// Between operations a well-formed handle's transport holds exactly one
/// live allocation — the opaque instance handle — whatever was allocated
/// and freed meanwhile.
pub proof fn lemma_only_handle_survives<TTarget: spirv::Target>(ast: &spirv::Ast<TTarget>)
    requires
        ast.wf(),
    ensures
        ast.transport_live() == 1,
{
    ast.lemma_idle_transport();
}

/// Whether a module is accepted does not depend on the chosen target: the
/// reader records the same tables for every target, and only the target tag
/// and its option block differ between instances of the same module.  A
/// module can therefore be bound to instances of several targets, or of
/// none, uniformly.
pub proof fn lemma_acceptance_target_independent(t1: TargetKind, t2: TargetKind, words: Seq<u32>)
    ensures
        (parse_model(t1, words) is Some) == (parse_model(t2, words) is Some),
{
    if !(words.len() < 5 || words.len() > crate::engine::MAX_MODULE_WORDS || words[0]
        != crate::parser::MODULE_MAGIC) {
        assert(crate::parser::tables_eq(
            crate::parser::empty_model(t1),
            crate::parser::empty_model(t2),
        ));
        crate::parser::lemma_parse_insts_target_indep(
            words,
            5,
            crate::parser::empty_model(t1),
            crate::parser::empty_model(t2),
        );
    }
}

/// A stored MSL resource-binding override wins over the default slot: when
/// the first override matching a (stage, descriptor set, binding) key is
/// `o`, the buffer slot every emitted binding line resolves to is
/// `o.msl_buffer` rather than the binding itself.
pub proof fn lemma_override_selects_slot(
    overrides: Seq<crate::engine::RawResourceBinding>,
    stage: u32,
    dset: u32,
    binding: u32,
    j: int,
)
    requires
        0 <= j < overrides.len(),
        overrides[j].stage == stage,
        overrides[j].desc_set == dset,
        overrides[j].binding == binding,
        forall|i: int|
            0 <= i < j ==> !((#[trigger] overrides[i]).stage == stage && overrides[i].desc_set
                == dset && overrides[i].binding == binding),
    ensures
        crate::emit::msl_buffer_slot(overrides, stage, dset, binding) == overrides[j].msl_buffer,
{
    crate::emit::lemma_slot_at(overrides, stage, dset, binding, j);
}

} // verus!
