//! The binding layer over one compiler instance.
//!
//! A [`Compiler`] owns the instance, its private transport, and the
//! compiled-state flag.  Its methods carry the caller-facing values across
//! the boundary: enums are translated through total explicit tables, strings
//! and arrays cross the transport, and every query that allocates on the
//! transport frees what it allocated before returning, which its contract
//! states through the live-allocation count.

use crate::engine::deco_or_zero;
use crate::engine::name_ok;
use crate::engine::tbl_lookup;
use crate::engine::DecorationRec;
use crate::engine::Engine;
use crate::engine::ResultCode;
use crate::engine::TargetKind;
use crate::engine::MAX_NAME;
use crate::engine::MAX_TABLE;
use crate::marshal::invalid_module_diag;
use crate::marshal::words_at;
use crate::marshal::write_words;
use crate::parser::parse_model;
use crate::spirv;
use crate::spirv::Decoration;
use crate::spirv::ExecutionModel;
use crate::transport::cstr_at;
use crate::transport::has_nul;
use crate::transport::word_at;
use crate::transport::Heap;
use crate::transport::HEAP_BASE;
use crate::ErrorCode;
use vstd::prelude::*;
use vstd::string::StrSliceExecFns;
use vstd::string::StringSliceAdditionalSpecFns;

verus! {

/// The characters an ASCII byte string decodes to.
pub open spec fn bytes_as_chars(s: Seq<u8>) -> Seq<char> {
    s.map_values(|b: u8| b as char)
}

/// The diagnostic message of a rejected module, as characters.
pub open spec fn diag_chars() -> Seq<char> {
    bytes_as_chars(invalid_module_diag())
}

/// Relies on `String::from_utf8`: ASCII is valid UTF-8 and every ASCII byte
/// decodes to the character of the same value.
#[verifier::external_body]
fn string_from_ascii_bytes(bytes: Vec<u8>) -> (r: Option<String>)
    ensures
        match r {
            Some(s) => (forall|i: int| 0 <= i < bytes@.len() ==> bytes@[i] < 128) ==> s@
                == bytes_as_chars(bytes@),
            None => !(forall|i: int| 0 <= i < bytes@.len() ==> bytes@[i] < 128),
        },
{
    match String::from_utf8(bytes) {
        Ok(s) => Some(s),
        Err(_) => None,
    }
}

/// The boundary encoding of an execution model.
pub open spec fn em_raw(m: ExecutionModel) -> u32 {
    match m {
        ExecutionModel::Vertex => 0,
        ExecutionModel::TessellationControl => 1,
        ExecutionModel::TessellationEvaluation => 2,
        ExecutionModel::Geometry => 3,
        ExecutionModel::Fragment => 4,
        ExecutionModel::GlCompute => 5,
        ExecutionModel::Kernel => 6,
    }
}

/// The execution model a boundary value decodes to; values outside the
/// recognized range decode to nothing.
pub open spec fn em_from_raw(raw: u32) -> Option<ExecutionModel> {
    if raw == 0 {
        Some(ExecutionModel::Vertex)
    } else if raw == 1 {
        Some(ExecutionModel::TessellationControl)
    } else if raw == 2 {
        Some(ExecutionModel::TessellationEvaluation)
    } else if raw == 3 {
        Some(ExecutionModel::Geometry)
    } else if raw == 4 {
        Some(ExecutionModel::Fragment)
    } else if raw == 5 {
        Some(ExecutionModel::GlCompute)
    } else if raw == 6 {
        Some(ExecutionModel::Kernel)
    } else {
        None
    }
}

impl ExecutionModel {
    /// Decodes a boundary value; an unrecognized value is reported as
    /// `Unhandled` rather than aliased to a known model.
    pub(crate) fn from_raw(raw: u32) -> (r: Result<Self, ErrorCode>)
        ensures
            match r {
                Ok(m) => em_from_raw(raw) == Some(m),
                Err(e) => em_from_raw(raw) is None && e == ErrorCode::Unhandled,
            },
    {
        if raw == 0 {
            Ok(ExecutionModel::Vertex)
        } else if raw == 1 {
            Ok(ExecutionModel::TessellationControl)
        } else if raw == 2 {
            Ok(ExecutionModel::TessellationEvaluation)
        } else if raw == 3 {
            Ok(ExecutionModel::Geometry)
        } else if raw == 4 {
            Ok(ExecutionModel::Fragment)
        } else if raw == 5 {
            Ok(ExecutionModel::GlCompute)
        } else if raw == 6 {
            Ok(ExecutionModel::Kernel)
        } else {
            Err(ErrorCode::Unhandled)
        }
    }

    /// Encodes the model for the boundary.
    pub(crate) fn as_raw(&self) -> (r: u32)
        ensures
            r == em_raw(*self),
    {
        match *self {
            ExecutionModel::Vertex => 0,
            ExecutionModel::TessellationControl => 1,
            ExecutionModel::TessellationEvaluation => 2,
            ExecutionModel::Geometry => 3,
            ExecutionModel::Fragment => 4,
            ExecutionModel::GlCompute => 5,
            ExecutionModel::Kernel => 6,
        }
    }
}

/// The boundary encoding of a decoration.
pub open spec fn deco_raw(d: Decoration) -> u32 {
    match d {
        Decoration::RelaxedPrecision => 0,
        Decoration::SpecId => 1,
        Decoration::Block => 2,
        Decoration::BufferBlock => 3,
        Decoration::RowMajor => 4,
        Decoration::ColMajor => 5,
        Decoration::ArrayStride => 6,
        Decoration::MatrixStride => 7,
        Decoration::GlslShared => 8,
        Decoration::GlslPacked => 9,
        Decoration::CPacked => 10,
        Decoration::BuiltIn => 11,
        Decoration::NoPerspective => 13,
        Decoration::Flat => 14,
        Decoration::Patch => 15,
        Decoration::Centroid => 16,
        Decoration::Sample => 17,
        Decoration::Invariant => 18,
        Decoration::Restrict => 19,
        Decoration::Aliased => 20,
        Decoration::Volatile => 21,
        Decoration::Constant => 22,
        Decoration::Coherent => 23,
        Decoration::NonWritable => 24,
        Decoration::NonReadable => 25,
        Decoration::Uniform => 26,
        Decoration::SaturatedConversion => 28,
        Decoration::Stream => 29,
        Decoration::Location => 30,
        Decoration::Component => 31,
        Decoration::Index => 32,
        Decoration::Binding => 33,
        Decoration::DescriptorSet => 34,
        Decoration::Offset => 35,
        Decoration::XfbBuffer => 36,
        Decoration::XfbStride => 37,
        Decoration::FuncParamAttr => 38,
        Decoration::FpRoundingMode => 39,
        Decoration::FpFastMathMode => 40,
        Decoration::LinkageAttributes => 41,
        Decoration::NoContraction => 42,
        Decoration::InputAttachmentIndex => 43,
        Decoration::Alignment => 44,
        Decoration::OverrideCoverageNv => 5248,
        Decoration::PassthroughNv => 5250,
        Decoration::ViewportRelativeNv => 5252,
        Decoration::SecondaryViewportRelativeNv => 5256,
    }
}

impl Decoration {
    /// Encodes the decoration for the boundary.
    pub(crate) fn as_raw(&self) -> (r: u32)
        ensures
            r == deco_raw(*self),
    {
        match *self {
            Decoration::RelaxedPrecision => 0,
            Decoration::SpecId => 1,
            Decoration::Block => 2,
            Decoration::BufferBlock => 3,
            Decoration::RowMajor => 4,
            Decoration::ColMajor => 5,
            Decoration::ArrayStride => 6,
            Decoration::MatrixStride => 7,
            Decoration::GlslShared => 8,
            Decoration::GlslPacked => 9,
            Decoration::CPacked => 10,
            Decoration::BuiltIn => 11,
            Decoration::NoPerspective => 13,
            Decoration::Flat => 14,
            Decoration::Patch => 15,
            Decoration::Centroid => 16,
            Decoration::Sample => 17,
            Decoration::Invariant => 18,
            Decoration::Restrict => 19,
            Decoration::Aliased => 20,
            Decoration::Volatile => 21,
            Decoration::Constant => 22,
            Decoration::Coherent => 23,
            Decoration::NonWritable => 24,
            Decoration::NonReadable => 25,
            Decoration::Uniform => 26,
            Decoration::SaturatedConversion => 28,
            Decoration::Stream => 29,
            Decoration::Location => 30,
            Decoration::Component => 31,
            Decoration::Index => 32,
            Decoration::Binding => 33,
            Decoration::DescriptorSet => 34,
            Decoration::Offset => 35,
            Decoration::XfbBuffer => 36,
            Decoration::XfbStride => 37,
            Decoration::FuncParamAttr => 38,
            Decoration::FpRoundingMode => 39,
            Decoration::FpFastMathMode => 40,
            Decoration::LinkageAttributes => 41,
            Decoration::NoContraction => 42,
            Decoration::InputAttachmentIndex => 43,
            Decoration::Alignment => 44,
            Decoration::OverrideCoverageNv => 5248,
            Decoration::PassthroughNv => 5250,
            Decoration::ViewportRelativeNv => 5252,
            Decoration::SecondaryViewportRelativeNv => 5256,
        }
    }
}

/// The type a reduced boundary descriptor decodes to.
pub open spec fn type_v_of(base: u32, member_types: Seq<u32>, array: Seq<u32>) -> spirv::TypeV {
    if base == 1 {
        spirv::TypeV::Void
    } else if base == 2 {
        spirv::TypeV::Boolean { array }
    } else if base == 3 {
        spirv::TypeV::Char { array }
    } else if base == 4 {
        spirv::TypeV::Int { array }
    } else if base == 5 {
        spirv::TypeV::UInt { array }
    } else if base == 6 {
        spirv::TypeV::Int64 { array }
    } else if base == 7 {
        spirv::TypeV::UInt64 { array }
    } else if base == 8 {
        spirv::TypeV::AtomicCounter { array }
    } else if base == 9 {
        spirv::TypeV::Half { array }
    } else if base == 10 {
        spirv::TypeV::Float { array }
    } else if base == 11 {
        spirv::TypeV::Double { array }
    } else if base == 12 {
        spirv::TypeV::Struct { member_types, array }
    } else if base == 13 {
        spirv::TypeV::Image { array }
    } else if base == 14 {
        spirv::TypeV::SampledImage { array }
    } else if base == 15 {
        spirv::TypeV::Sampler { array }
    } else if base == 16 {
        spirv::TypeV::SByte { array }
    } else if base == 17 {
        spirv::TypeV::UByte { array }
    } else if base == 18 {
        spirv::TypeV::Short { array }
    } else if base == 19 {
        spirv::TypeV::UShort { array }
    } else {
        spirv::TypeV::Unknown
    }
}

impl spirv::Type {
    /// Decodes a reduced boundary type descriptor; an unrecognized base kind
    /// decodes to `Unknown` rather than aliasing a known kind.
    pub fn from_raw(ty: u32, member_types: Vec<u32>, array: Vec<u32>) -> (r: spirv::Type)
        ensures
            r@ == type_v_of(ty, member_types@, array@),
    {
        if ty == 1 {
            spirv::Type::Void
        } else if ty == 2 {
            spirv::Type::Boolean { array }
        } else if ty == 3 {
            spirv::Type::Char { array }
        } else if ty == 4 {
            spirv::Type::Int { array }
        } else if ty == 5 {
            spirv::Type::UInt { array }
        } else if ty == 6 {
            spirv::Type::Int64 { array }
        } else if ty == 7 {
            spirv::Type::UInt64 { array }
        } else if ty == 8 {
            spirv::Type::AtomicCounter { array }
        } else if ty == 9 {
            spirv::Type::Half { array }
        } else if ty == 10 {
            spirv::Type::Float { array }
        } else if ty == 11 {
            spirv::Type::Double { array }
        } else if ty == 12 {
            spirv::Type::Struct { member_types, array }
        } else if ty == 13 {
            spirv::Type::Image { array }
        } else if ty == 14 {
            spirv::Type::SampledImage { array }
        } else if ty == 15 {
            spirv::Type::Sampler { array }
        } else if ty == 16 {
            spirv::Type::SByte { array }
        } else if ty == 17 {
            spirv::Type::UByte { array }
        } else if ty == 18 {
            spirv::Type::Short { array }
        } else if ty == 19 {
            spirv::Type::UShort { array }
        } else {
            spirv::Type::Unknown
        }
    }
}

/// The transport length of an idle compiler: the guard region plus the
/// opaque instance handle.
pub const COMPILER_BASE: u32 = 9;

/// One live compiler instance with its private transport.
pub struct Compiler<TTargetData> {
    pub(crate) engine: Engine,
    pub(crate) heap: Heap,
    pub(crate) target_data: TTargetData,
    pub(crate) has_been_compiled: bool,
}

impl<TTargetData> Compiler<TTargetData> {
    /// Well-formedness: the instance is well-formed and the transport is
    /// idle, holding exactly the instance handle.
    pub closed spec fn wf(&self) -> bool {
        &&& self.engine.wf()
        &&& self.heap.wf()
        &&& self.heap.contents().len() == COMPILER_BASE
        &&& self.heap.live() == 1
        &&& self.heap.live_map() == Map::<int, int>::empty().insert(HEAP_BASE as int, 0)
    }

    /// The mathematical state of the wrapped instance.
    pub closed spec fn model(&self) -> crate::engine::EngineModel {
        self.engine.model()
    }

    /// Which target the instance was constructed for.
    pub closed spec fn target_kind(&self) -> TargetKind {
        self.engine.target
    }

    /// Whether `compile` has been invoked on this instance.
    pub closed spec fn compiled(&self) -> bool {
        self.has_been_compiled
    }

    /// The data the target keeps beside the instance.
    pub closed spec fn data(&self) -> TTargetData {
        self.target_data
    }

    /// How many transport allocations are live; on an idle instance exactly
    /// the opaque handle is.
    pub fn live_transport_allocations(&self) -> (n: usize)
        ensures
            n == self.transport_live(),
    {
        self.heap.live_allocations()
    }

    /// The live-allocation count of the instance's transport.
    pub closed spec fn transport_live(&self) -> nat {
        self.heap.live()
    }

    /// A well-formed instance holds exactly one live transport allocation:
    /// the opaque instance handle.
    pub proof fn lemma_idle_transport(&self)
        requires
            self.wf(),
        ensures
            self.transport_live() == 1,
    {
    }

    /// Constructs an instance for `target`: copies the module words into the
    /// transport, hands them to the core, and wraps the instance.  A
    /// rejected module reports `CompilationError` with the diagnostic
    /// retrieved out of band, and leaves nothing allocated.
    pub(crate) fn construct(target: TargetKind, words: &[u32], target_data: TTargetData) -> (r: Result<
        Compiler<TTargetData>,
        ErrorCode,
    >)
        ensures
            match r {
                Ok(c) => {
                    &&& c.wf()
                    &&& parse_model(target, words@) == Some(c.model())
                    &&& c.target_kind() == target
                    &&& !c.compiled()
                    &&& c.transport_live() == 1
                },
                Err(e) => (parse_model(target, words@) is None) && e
                    == ErrorCode::CompilationError(
                    { let m = e->CompilationError_0; m },
                ) && e->CompilationError_0@ == diag_chars(),
            },
    {
        let mut heap = Heap::new();
        let wv = vstd::slice::slice_to_vec(words);
        if wv.len() > 0x100000 {
            return Err(Self::failure_diag(&mut heap));
        }
        let n = wv.len() as u32;
        let a = heap.allocate(4 * n);
        write_words(&mut heap, a, &wv);
        let (_code, engopt) = Engine::sc_new(target, &mut heap, a, n);
        heap.free(a);
        match engopt {
            Some(engine) => {
                proof {
                    assert(heap.live_map() =~= Map::<int, int>::empty());
                }
                heap.truncate(HEAP_BASE);
                let _marker = heap.allocate(0);
                proof {
                    assert(heap.live_map() =~= Map::<int, int>::empty().insert(
                        HEAP_BASE as int,
                        0,
                    ));
                }
                Ok(Compiler { engine, heap, target_data, has_been_compiled: false })
            },
            None => Err(Self::failure_diag(&mut heap)),
        }
    }

    /// Retrieves the constructor diagnostic through the transport: the core
    /// hands out a C string, the layer copies it, frees the transport copy,
    /// and wraps it as a typed error.
    fn failure_diag(heap: &mut Heap) -> (e: ErrorCode)
        requires
            old(heap).wf(),
            old(heap).contents().len() + 16 <= u32::MAX,
            old(heap).live() < usize::MAX,
        ensures
            e == ErrorCode::CompilationError({ let m = e->CompilationError_0; m }),
            e->CompilationError_0@ == diag_chars(),
    {
        let (_dcode, daddr) = Engine::sc_get_latest_diagnostic(heap);
        proof {
            assert(heap.live_map().dom().contains(daddr as int));
            heap.lemma_live_bounds(daddr as int);
        }
        let bytes = heap.read_c_string(daddr);
        heap.free(daddr);
        proof {
            assert(forall|i: int|
                0 <= i < invalid_module_diag().len() ==> #[trigger] invalid_module_diag()[i]
                    < 128);
        }
        match string_from_ascii_bytes(bytes) {
            Some(msg) => ErrorCode::CompilationError(msg),
            None => {
                proof {
                    assert(false);
                }
                vstd::pervasive::unreached()
            },
        }
    }
}

} // verus!

verus! {

impl<TTargetData> Compiler<TTargetData> {
    /// What a mutating query must leave untouched: the target, the
    /// compiled-state flag, the target data, and the idle transport.
    pub open spec fn frame(old_self: &Self, new_self: &Self) -> bool {
        &&& new_self.wf()
        &&& new_self.target_kind() == old_self.target_kind()
        &&& new_self.compiled() == old_self.compiled()
        &&& new_self.data() == old_self.data()
    }

    /// Reports a decoration; an undecorated id reports `0`, as the wrapped
    /// core does.
    pub fn get_decoration(&self, id: u32, decoration: Decoration) -> (r: Result<u32, ErrorCode>)
        requires
            self.wf(),
        ensures
            r == Ok::<u32, ErrorCode>(
                deco_or_zero(self.model().decorations, id, deco_raw(decoration)),
            ),
    {
        let (_code, value) = self.engine.sc_get_decoration(id, decoration.as_raw());
        Ok(value)
    }

    /// Stores a decoration, replacing any stored value.  Fails with
    /// `Unhandled` only when the decoration table is full.
    pub fn set_decoration(&mut self, id: u32, decoration: Decoration, argument: u32) -> (r: Result<
        (),
        ErrorCode,
    >)
        requires
            old(self).wf(),
        ensures
            Self::frame(old(self), final(self)),
            (r is Ok) <==> (tbl_lookup(
                old(self).model().decorations,
                (id, deco_raw(decoration), 0),
            ) is Some || old(self).model().decorations.len() < MAX_TABLE),
            r is Ok ==> {
                &&& final(self).model() == old(self).model().with_decorations(
                    final(self).model().decorations,
                )
                &&& tbl_lookup(final(self).model().decorations, (id, deco_raw(decoration), 0))
                    == Some(
                    DecorationRec { id, decoration: deco_raw(decoration), argument },
                )
                &&& forall|k2: (u32, u32, u32)|
                    k2 != (id, deco_raw(decoration), 0u32) ==> #[trigger] tbl_lookup(
                        final(self).model().decorations,
                        k2,
                    ) == tbl_lookup(old(self).model().decorations, k2)
            },
            r is Err ==> r == Err::<(), ErrorCode>(ErrorCode::Unhandled) && final(self).model()
                == old(self).model(),
    {
        let code = self.engine.sc_set_decoration(id, decoration.as_raw(), argument);
        match code {
            ResultCode::Success => Ok(()),
            _ => Err(ErrorCode::Unhandled),
        }
    }

    /// Removes a decoration; removing an absent decoration succeeds.
    pub fn unset_decoration(&mut self, id: u32, decoration: Decoration) -> (r: Result<
        (),
        ErrorCode,
    >)
        requires
            old(self).wf(),
        ensures
            Self::frame(old(self), final(self)),
            r is Ok,
            final(self).model() == old(self).model().with_decorations(
                final(self).model().decorations,
            ),
            tbl_lookup(final(self).model().decorations, (id, deco_raw(decoration), 0))
                == None::<DecorationRec>,
            forall|k2: (u32, u32, u32)|
                k2 != (id, deco_raw(decoration), 0u32) ==> #[trigger] tbl_lookup(
                    final(self).model().decorations,
                    k2,
                ) == tbl_lookup(old(self).model().decorations, k2),
    {
        let _code = self.engine.sc_unset_decoration(id, decoration.as_raw());
        Ok(())
    }

    /// Reports a member decoration; an undecorated member reports `0`.
    pub fn get_member_decoration(&self, id: u32, index: u32, decoration: Decoration) -> (r: Result<
        u32,
        ErrorCode,
    >)
        requires
            self.wf(),
        ensures
            r == Ok::<u32, ErrorCode>(
                crate::engine::member_deco_or_zero(
                    self.model().member_decorations,
                    id,
                    index,
                    deco_raw(decoration),
                ),
            ),
    {
        let (_code, value) = self.engine.sc_get_member_decoration(id, index, decoration.as_raw());
        Ok(value)
    }

    /// Stores a member decoration.  Fails with `Unhandled` only when the
    /// table is full.
    pub fn set_member_decoration(
        &mut self,
        id: u32,
        index: u32,
        decoration: Decoration,
        argument: u32,
    ) -> (r: Result<(), ErrorCode>)
        requires
            old(self).wf(),
        ensures
            Self::frame(old(self), final(self)),
            (r is Ok) <==> (tbl_lookup(
                old(self).model().member_decorations,
                (id, index, deco_raw(decoration)),
            ) is Some || old(self).model().member_decorations.len() < MAX_TABLE),
            r is Ok ==> {
                &&& final(self).model() == old(self).model().with_member_decorations(
                    final(self).model().member_decorations,
                )
                &&& tbl_lookup(
                    final(self).model().member_decorations,
                    (id, index, deco_raw(decoration)),
                ) == Some(
                    crate::engine::MemberDecorationRec {
                        id,
                        member: index,
                        decoration: deco_raw(decoration),
                        argument,
                    },
                )
                &&& forall|k2: (u32, u32, u32)|
                    k2 != (id, index, deco_raw(decoration)) ==> #[trigger] tbl_lookup(
                        final(self).model().member_decorations,
                        k2,
                    ) == tbl_lookup(old(self).model().member_decorations, k2)
            },
            r is Err ==> r == Err::<(), ErrorCode>(ErrorCode::Unhandled) && final(self).model()
                == old(self).model(),
    {
        let code = self.engine.sc_set_member_decoration(id, index, decoration.as_raw(), argument);
        match code {
            ResultCode::Success => Ok(()),
            _ => Err(ErrorCode::Unhandled),
        }
    }

    /// Stores a name for an id.  A name that cannot cross the boundary (too
    /// long, interior NUL, or outside ASCII — see
    /// [`crate::engine::name_ok`]) is rejected with `Unhandled`, as is a
    /// full name table.
    pub fn set_name(&mut self, id: u32, name: &str) -> (r: Result<(), ErrorCode>)
        requires
            old(self).wf(),
        ensures
            Self::frame(old(self), final(self)),
            (r is Ok) <==> (name_acceptable(name@) && (tbl_lookup(
                old(self).model().names,
                (id, 0, 0),
            ) is Some || old(self).model().names.len() < MAX_TABLE)),
            r is Ok ==> {
                &&& final(self).model() == old(self).model().with_names(final(self).model().names)
                &&& tbl_lookup(final(self).model().names, (id, 0, 0)) matches Some(nm)
                    && nm.id == id && nm.name == name.spec_bytes()
                &&& forall|k2: (u32, u32, u32)|
                    k2 != (id, 0u32, 0u32) ==> #[trigger] tbl_lookup(final(self).model().names, k2)
                        == tbl_lookup(old(self).model().names, k2)
            },
            r is Err ==> r == Err::<(), ErrorCode>(ErrorCode::Unhandled) && final(self).model()
                == old(self).model(),
    {
        let bytes = match validate_name_bytes(name) {
            Some(b) => b,
            None => {
                return Err(ErrorCode::Unhandled);
            },
        };
        let code = self.engine.sc_set_name(id, bytes);
        match code {
            ResultCode::Success => Ok(()),
            _ => Err(ErrorCode::Unhandled),
        }
    }

    /// Reports the name of a struct member; an unnamed member reports the
    /// empty name.
    pub fn get_member_name(&self, id: u32, index: u32) -> (r: Result<String, ErrorCode>)
        requires
            self.wf(),
        ensures
            r matches Ok(s) && s@ == bytes_as_chars(
                crate::engine::member_name_of(self.model().member_names, id, index),
            ),
    {
        let (_code, bytes) = self.engine.sc_get_member_name(id, index);
        match string_from_ascii_bytes(bytes) {
            Some(s) => Ok(s),
            None => {
                proof {
                    assert(false);
                }
                vstd::pervasive::unreached()
            },
        }
    }

    /// Overrides the value of a scalar specialization constant.  Fails with
    /// `Unhandled` when `id` is not a scalar constant of the module.
    pub fn set_scalar_constant(&mut self, id: u32, value: u64) -> (r: Result<(), ErrorCode>)
        requires
            old(self).wf(),
        ensures
            Self::frame(old(self), final(self)),
            (r is Ok) <==> (tbl_lookup(old(self).model().constants, (id, 0, 0)) is Some),
            r is Ok ==> {
                &&& final(self).model() == old(self).model().with_constants(
                    final(self).model().constants,
                )
                &&& tbl_lookup(final(self).model().constants, (id, 0, 0)) matches Some(c2)
                    && c2.id == id && c2.value == value
                &&& forall|k2: (u32, u32, u32)|
                    k2 != (id, 0u32, 0u32) ==> #[trigger] tbl_lookup(
                        final(self).model().constants,
                        k2,
                    ) == tbl_lookup(old(self).model().constants, k2)
            },
            r is Err ==> r == Err::<(), ErrorCode>(ErrorCode::Unhandled) && final(self).model()
                == old(self).model(),
    {
        let code = self.engine.sc_set_scalar_constant(id, value);
        match code {
            ResultCode::Success => Ok(()),
            _ => Err(ErrorCode::Unhandled),
        }
    }

    /// Reports the declared byte size of a struct type under the engine's
    /// packed layout rule.  Fails with `Unhandled` when `id` is not a type
    /// of the module.
    pub fn get_declared_struct_size(&self, id: u32) -> (r: Result<u32, ErrorCode>)
        requires
            self.wf(),
        ensures
            match tbl_lookup(self.model().types, (id, 0, 0)) {
                Some(t) => r == Ok::<u32, ErrorCode>(t.size),
                None => r == Err::<u32, ErrorCode>(ErrorCode::Unhandled),
            },
    {
        match crate::parser::find_type(&self.engine, id) {
            Some(j) => Ok(self.engine.types[j].size),
            None => Err(ErrorCode::Unhandled),
        }
    }

    /// Reports the declared byte size of one struct member.  Fails with
    /// `Unhandled` when the type or the member is missing.
    pub fn get_declared_struct_member_size(&self, id: u32, index: u32) -> (r: Result<
        u32,
        ErrorCode,
    >)
        requires
            self.wf(),
        ensures
            match tbl_lookup(self.model().types, (id, 0, 0)) {
                Some(t) => {
                    if index < t.member_types.len() {
                        match tbl_lookup(self.model().types, (t.member_types[index as int], 0, 0)) {
                            Some(mt) => r == Ok::<u32, ErrorCode>(mt.size),
                            None => r == Err::<u32, ErrorCode>(ErrorCode::Unhandled),
                        }
                    } else {
                        r == Err::<u32, ErrorCode>(ErrorCode::Unhandled)
                    }
                },
                None => r == Err::<u32, ErrorCode>(ErrorCode::Unhandled),
            },
    {
        match crate::parser::find_type(&self.engine, id) {
            Some(j) => {
                if (index as usize) < self.engine.types[j].member_types.len() {
                    let mid = self.engine.types[j].member_types[index as usize];
                    match crate::parser::find_type(&self.engine, mid) {
                        Some(mj) => Ok(self.engine.types[mj].size),
                        None => Err(ErrorCode::Unhandled),
                    }
                } else {
                    Err(ErrorCode::Unhandled)
                }
            },
            None => Err(ErrorCode::Unhandled),
        }
    }

    /// Reports the reduced type descriptor of a type id.  Fails with
    /// `Unhandled` when `id` is not a type of the module.
    pub fn get_type(&self, id: u32) -> (r: Result<spirv::Type, ErrorCode>)
        requires
            self.wf(),
        ensures
            match tbl_lookup(self.model().types, (id, 0, 0)) {
                Some(t) => r matches Ok(ty) && ty@ == type_v_of(t.base, t.member_types, t.array),
                None => r == Err::<spirv::Type, ErrorCode>(ErrorCode::Unhandled),
            },
    {
        match crate::parser::find_type(&self.engine, id) {
            Some(j) => {
                let member_types = vstd::slice::slice_to_vec(
                    self.engine.types[j].member_types.as_slice(),
                );
                let array = vstd::slice::slice_to_vec(self.engine.types[j].array.as_slice());
                Ok(spirv::Type::from_raw(self.engine.types[j].base, member_types, array))
            },
            None => Err(ErrorCode::Unhandled),
        }
    }
}

/// Whether a name can cross the boundary: its UTF-8 encoding is bounded,
/// printable ASCII.  See [`crate::engine::name_ok`] for why the engine
/// confines stored names to ASCII.
pub open spec fn name_acceptable(s: Seq<char>) -> bool {
    &&& vstd::utf8::encode_utf8(s).len() <= MAX_NAME
    &&& forall|i: int|
        0 <= i < vstd::utf8::encode_utf8(s).len() ==> ((0 < #[trigger] vstd::utf8::encode_utf8(
            s,
        )[i]) && (vstd::utf8::encode_utf8(s)[i] < 128))
}

} // verus!

verus! {

impl<TTargetData> Compiler<TTargetData> {
    /// Retrieves the entry points through the transport: the core hands out
    /// a record array and per-element name strings, the layer copies every
    /// element, translating names and execution models, and frees the array
    /// and every string before returning.  An entry point whose execution
    /// model the layer does not recognize fails the whole query with
    /// `Unhandled`; no partially translated reply is ever observable.
    pub fn get_entry_points(&mut self) -> (r: Result<Vec<spirv::EntryPoint>, ErrorCode>)
        requires
            old(self).wf(),
        ensures
            Self::frame(old(self), final(self)),
            final(self).model() == old(self).model(),
            final(self).transport_live() == 1,
            (r is Ok) <==> (forall|j: int|
                0 <= j < old(self).model().entry_points.len() ==> em_from_raw(
                    (#[trigger] old(self).model().entry_points[j]).execution_model,
                ) is Some),
            r matches Ok(v) ==> {
                &&& v@.len() == old(self).model().entry_points.len()
                &&& forall|j: int|
                    0 <= j < v@.len() ==> {
                        let ep = old(self).model().entry_points[j];
                        &&& (#[trigger] v@[j]).name@ == bytes_as_chars(ep.name)
                        &&& em_from_raw(ep.execution_model) == Some(v@[j].execution_model)
                        &&& v@[j].work_group_size == (spirv::WorkGroupSize {
                            x: ep.wg_x,
                            y: ep.wg_y,
                            z: ep.wg_z,
                        })
                    }
            },
            r is Err ==> r == Err::<Vec<spirv::EntryPoint>, ErrorCode>(ErrorCode::Unhandled),
    {
        let ghost eps = self.engine.model().entry_points;
        let ghost base_map = self.heap.live_map();
        let (_code, addr, count, Ghost(nas)) = self.engine.sc_get_entry_points(&mut self.heap);
        let ghost finmap = self.heap.live_map();
        let ghost fincontents = self.heap.contents();
        let mut raw: Vec<(Vec<u8>, u32, u32, u32, u32)> = Vec::new();
        let mut j: u32 = 0;
        while j < count
            invariant
                old(self).wf(),
                self.engine == old(self).engine,
                self.target_data == old(self).target_data,
                self.has_been_compiled == old(self).has_been_compiled,
                eps == old(self).model().entry_points,
                base_map == old(self).heap.live_map(),
                count == eps.len(),
                nas.len() == count,
                j <= count,
                self.heap.wf(),
                self.heap.contents() == fincontents,
                self.heap.live() == 2 + count - j,
                addr + 20 * count + 1 <= fincontents.len(),
                forall|j2: int|
                    0 <= j2 < count ==> word_at(fincontents, addr + 20 * j2) == (
                    #[trigger] nas[j2]),
                forall|j2: int|
                    0 <= j2 < count ==> word_at(fincontents, addr + 20 * j2 + 4) == (
                    #[trigger] eps[j2].execution_model),
                forall|j2: int|
                    #![trigger eps[j2].wg_x]
                    0 <= j2 < count ==> {
                        &&& word_at(fincontents, addr + 20 * j2 + 8) == eps[j2].wg_x
                        &&& word_at(fincontents, addr + 20 * j2 + 12) == eps[j2].wg_y
                        &&& word_at(fincontents, addr + 20 * j2 + 16) == eps[j2].wg_z
                    },
                forall|j2: int|
                    0 <= j2 < count ==> cstr_at(fincontents, #[trigger] nas[j2] as int)
                        == eps[j2].name && has_nul(fincontents, nas[j2] as int),
                forall|j1: int, j2: int|
                    0 <= j1 < j2 < count ==> #[trigger] nas[j1] < #[trigger] nas[j2],
                forall|j2: int| 0 <= j2 < count ==> addr < #[trigger] nas[j2],
                forall|a: int|
                    #[trigger] self.heap.live_map().dom().contains(a) <==> ((
                    finmap.dom().contains(a) && !(exists|j2: int|
                        0 <= j2 < j && nas[j2] == a))),
                forall|a: int|
                    #[trigger] self.heap.live_map().dom().contains(a)
                        ==> self.heap.live_map()[a] == finmap[a],
                forall|a: int|
                    #[trigger] base_map.dom().contains(a) ==> finmap.dom().contains(a)
                        && finmap[a] == base_map[a],
                forall|a: int|
                    #[trigger] finmap.dom().contains(a) ==> base_map.dom().contains(a) || a == addr
                        || (exists|j2: int| 0 <= j2 < count && nas[j2] == a),
                finmap.dom().contains(addr as int),
                forall|j2: int|
                    0 <= j2 < count ==> finmap.dom().contains(#[trigger] nas[j2] as int),
                raw@.len() == j,
                forall|j2: int|
                    #![trigger raw@[j2]]
                    0 <= j2 < j ==> {
                        &&& raw@[j2].0@ == eps[j2].name
                        &&& raw@[j2].1 == eps[j2].execution_model
                        &&& raw@[j2].2 == eps[j2].wg_x
                        &&& raw@[j2].3 == eps[j2].wg_y
                        &&& raw@[j2].4 == eps[j2].wg_z
                    },
            decreases count - j,
        {
            proof {
                self.heap.lemma_wf_len();
            }
            let na = self.heap.read_u32(addr + 20 * j);
            let em = self.heap.read_u32(addr + 20 * j + 4);
            let wx = self.heap.read_u32(addr + 20 * j + 8);
            let wy = self.heap.read_u32(addr + 20 * j + 12);
            let wz = self.heap.read_u32(addr + 20 * j + 16);
            proof {
                assert(na == nas[j as int]);
                assert(self.heap.live_map().dom().contains(na as int)) by {
                    assert(finmap.dom().contains(nas[j as int] as int));
                    if exists|j2: int| 0 <= j2 < j && nas[j2] == na as int {
                        let j2 = choose|j2: int| 0 <= j2 < j && nas[j2] == na as int;
                        assert(nas[j2] < nas[j as int]);
                        assert(false);
                    }
                }
                self.heap.lemma_live_bounds(na as int);
            }
            let bytes = self.heap.read_c_string(na);
            self.heap.free(na);
            raw.push((bytes, em, wx, wy, wz));
            proof {
                assert forall|a: int|
                    #[trigger] self.heap.live_map().dom().contains(a) <==> ((
                finmap.dom().contains(a) && !(exists|j2: int|
                    0 <= j2 < j + 1 && nas[j2] == a))) by {
                    if a == na as int {
                        assert(0 <= j < j + 1 && nas[j as int] == a);
                    } else {
                        if finmap.dom().contains(a) && !(exists|j2: int|
                            0 <= j2 < j && nas[j2] == a) {
                            if exists|j2: int| 0 <= j2 < j + 1 && nas[j2] == a {
                                let j2 = choose|j2: int| 0 <= j2 < j + 1 && nas[j2] == a;
                                assert(j2 == j);
                                assert(false);
                            }
                        }
                    }
                }
            }
            j = j + 1;
        }
        proof {
            assert(self.heap.live_map().dom().contains(addr as int)) by {
                assert(finmap.dom().contains(addr as int));
                if exists|j2: int| 0 <= j2 < count && nas[j2] == addr as int {
                    let j2 = choose|j2: int| 0 <= j2 < count && nas[j2] == addr as int;
                    assert(addr < nas[j2]);
                    assert(false);
                }
            }
        }
        self.heap.free(addr);
        proof {
            assert(self.heap.live_map() =~= base_map) by {
                assert forall|a: int|
                    #[trigger] self.heap.live_map().dom().contains(a) implies base_map.dom().contains(
                    a,
                ) by {
                    if !base_map.dom().contains(a) {
                        if a == addr as int {
                            assert(false);
                        } else {
                            let j2 = choose|j2: int| 0 <= j2 < count && nas[j2] == a;
                            assert(false);
                        }
                    }
                }
                assert forall|a: int| #[trigger] base_map.dom().contains(a) implies self.heap.live_map().dom().contains(
                    a,
                ) && self.heap.live_map()[a] == base_map[a] by {
                    assert(finmap.dom().contains(a) && finmap[a] == base_map[a]);
                    assert(old(self).heap.live_map() == Map::<int, int>::empty().insert(
                        crate::transport::HEAP_BASE as int,
                        0,
                    ));
                    assert(a == crate::transport::HEAP_BASE as int);
                    if exists|j2: int| 0 <= j2 < count && nas[j2] == a {
                        let j2 = choose|j2: int| 0 <= j2 < count && nas[j2] == a;
                        self.heap.lemma_live_bounds(a);
                        assert(false);
                    }
                    assert(a != addr as int);
                }
            }
            assert forall|a: int| #[trigger] self.heap.live_map().dom().contains(a) implies a
                + self.heap.live_map()[a] < COMPILER_BASE by {
                assert(a == crate::transport::HEAP_BASE as int);
            }
        }
        self.heap.truncate(COMPILER_BASE);
        let n = raw.len();
        let mut out: Vec<spirv::EntryPoint> = Vec::new();
        let mut k: usize = 0;
        while k < n
            invariant
                old(self).wf(),
                self.wf(),
                self.engine == old(self).engine,
                self.target_data == old(self).target_data,
                self.has_been_compiled == old(self).has_been_compiled,
                eps == old(self).model().entry_points,
                n == raw@.len(),
                n == eps.len(),
                k <= n,
                forall|j2: int|
                    #![trigger raw@[j2]]
                    0 <= j2 < n ==> {
                        &&& raw@[j2].0@ == eps[j2].name
                        &&& raw@[j2].1 == eps[j2].execution_model
                        &&& raw@[j2].2 == eps[j2].wg_x
                        &&& raw@[j2].3 == eps[j2].wg_y
                        &&& raw@[j2].4 == eps[j2].wg_z
                    },
                out@.len() == k,
                forall|j2: int|
                    0 <= j2 < k ==> em_from_raw((#[trigger] eps[j2]).execution_model) is Some,
                forall|j2: int|
                    0 <= j2 < k ==> {
                        let ep = eps[j2];
                        &&& (#[trigger] out@[j2]).name@ == bytes_as_chars(ep.name)
                        &&& em_from_raw(ep.execution_model) == Some(out@[j2].execution_model)
                        &&& out@[j2].work_group_size == (spirv::WorkGroupSize {
                            x: ep.wg_x,
                            y: ep.wg_y,
                            z: ep.wg_z,
                        })
                    },
            decreases n - k,
        {
            let model = match ExecutionModel::from_raw(raw[k].1) {
                Ok(m) => m,
                Err(e) => {
                    return Err(e);
                },
            };
            let wgs = spirv::WorkGroupSize { x: raw[k].2, y: raw[k].3, z: raw[k].4 };
            let bytes = vstd::slice::slice_to_vec(raw[k].0.as_slice());
            proof {
                assert(name_ok(eps[k as int].name));
            }
            let name = match string_from_ascii_bytes(bytes) {
                Some(s) => s,
                None => {
                    proof {
                        assert(false);
                    }
                    vstd::pervasive::unreached()
                },
            };
            out.push(spirv::EntryPoint { name, execution_model: model, work_group_size: wgs });
            k = k + 1;
        }
        Ok(out)
    }
}

} // verus!

verus! {

/// The first entry point carrying both the given name and execution model.
pub open spec fn find_ep(eps: Seq<crate::engine::EpModel>, name: Seq<u8>, em: u32) -> Option<
    crate::engine::EpModel,
>
    decreases eps.len(),
{
    if eps.len() == 0 {
        None
    } else if eps[0].name == name && eps[0].execution_model == em {
        Some(eps[0])
    } else {
        find_ep(eps.drop_first(), name, em)
    }
}

/// A scan that found its first name-and-model match at `j` finds that entry
/// point.
pub proof fn lemma_find_ep_at(eps: Seq<crate::engine::EpModel>, name: Seq<u8>, em: u32, j: int)
    requires
        0 <= j < eps.len(),
        eps[j].name == name,
        eps[j].execution_model == em,
        forall|i: int|
            0 <= i < j ==> !((#[trigger] eps[i]).name == name && eps[i].execution_model == em),
    ensures
        find_ep(eps, name, em) == Some(eps[j]),
    decreases j,
{
    if j > 0 {
        let t = eps.drop_first();
        assert forall|i: int|
            0 <= i < j - 1 implies !((#[trigger] t[i]).name == name && t[i].execution_model
            == em) by {
            assert(t[i] == eps[i + 1]);
        }
        assert(t[j - 1] == eps[j]);
        lemma_find_ep_at(t, name, em, j - 1);
    }
}

/// A scan that found no match finds nothing.
pub proof fn lemma_find_ep_none(eps: Seq<crate::engine::EpModel>, name: Seq<u8>, em: u32)
    requires
        forall|i: int|
            0 <= i < eps.len() ==> !((#[trigger] eps[i]).name == name && eps[i].execution_model
                == em),
    ensures
        find_ep(eps, name, em) is None,
    decreases eps.len(),
{
    if eps.len() > 0 {
        let t = eps.drop_first();
        assert forall|i: int|
            0 <= i < t.len() implies !((#[trigger] t[i]).name == name && t[i].execution_model
            == em) by {
            assert(t[i] == eps[i + 1]);
        }
        lemma_find_ep_none(t, name, em);
    }
}

/// The bytes of the conventional entry-point name "main".
pub open spec fn main_bytes() -> Seq<u8> {
    seq![0x6du8, 0x61u8, 0x69u8, 0x6eu8]
}

/// The name an entry point compiles under: code generation for the MSL
/// target renames "main" (reserved there) to "main0"; every other name, and
/// every other target, keeps the name unchanged.
pub open spec fn cleansed_name(target: TargetKind, name: Seq<u8>) -> Seq<u8> {
    if target == TargetKind::Msl && name == main_bytes() {
        main_bytes().push(0x30)
    } else {
        name
    }
}

/// The specialization constants of a module: every scalar constant marked as
/// specialization constant, paired with its `SpecId` decoration.
pub open spec fn spec_consts_of(
    cs: Seq<crate::engine::ConstantRec>,
    decos: Seq<DecorationRec>,
) -> Seq<spirv::SpecializationConstant>
    decreases cs.len(),
{
    if cs.len() == 0 {
        Seq::empty()
    } else {
        let rest = spec_consts_of(cs.drop_last(), decos);
        if cs.last().spec_constant {
            rest.push(
                spirv::SpecializationConstant {
                    id: cs.last().id,
                    constant_id: deco_or_zero(decos, cs.last().id, 1),
                },
            )
        } else {
            rest
        }
    }
}

/// The first specialization-constant composite decorated as the built-in
/// workgroup size, with at least three components.
pub open spec fn wg_composite(
    comps: Seq<crate::engine::CompositeModel>,
    decos: Seq<DecorationRec>,
) -> Option<crate::engine::CompositeModel>
    decreases comps.len(),
{
    if comps.len() == 0 {
        None
    } else if deco_or_zero(decos, comps[0].id, 11) == 25 && comps[0].components.len() >= 3 {
        Some(comps[0])
    } else {
        wg_composite(comps.drop_first(), decos)
    }
}

/// The workgroup-size specialization constants of a module; all-zero
/// references when the module declares none.
pub open spec fn wg_consts(m: crate::engine::EngineModel) -> spirv::WorkGroupSizeSpecializationConstants {
    match wg_composite(m.composites, m.decorations) {
        Some(c) => spirv::WorkGroupSizeSpecializationConstants {
            x: spirv::SpecializationConstant {
                id: c.components[0],
                constant_id: deco_or_zero(m.decorations, c.components[0], 1),
            },
            y: spirv::SpecializationConstant {
                id: c.components[1],
                constant_id: deco_or_zero(m.decorations, c.components[1], 1),
            },
            z: spirv::SpecializationConstant {
                id: c.components[2],
                constant_id: deco_or_zero(m.decorations, c.components[2], 1),
            },
        },
        None => spirv::WorkGroupSizeSpecializationConstants {
            x: spirv::SpecializationConstant { id: 0, constant_id: 0 },
            y: spirv::SpecializationConstant { id: 0, constant_id: 0 },
            z: spirv::SpecializationConstant { id: 0, constant_id: 0 },
        },
    }
}

/// Whether two byte vectors hold the same bytes.
fn bytes_eq(a: &Vec<u8>, b: &Vec<u8>) -> (r: bool)
    ensures
        r == (a@ == b@),
{
    if a.len() != b.len() {
        proof {
            assert(a@ != b@);
        }
        return false;
    }
    let n = a.len();
    let mut k: usize = 0;
    while k < n
        invariant
            n == a@.len(),
            n == b@.len(),
            k <= n,
            forall|x: int| 0 <= x < k ==> a@[x] == b@[x],
        decreases n - k,
    {
        if a[k] != b[k] {
            proof {
                assert(a@[k as int] != b@[k as int]);
            }
            return false;
        }
        k = k + 1;
    }
    proof {
        assert(a@ =~= b@);
    }
    true
}

impl<TTargetData> Compiler<TTargetData> {
    /// Reports the name an entry point compiles under.  Fails with
    /// `Unhandled` when no entry point carries the given name and execution
    /// model.
    pub fn get_cleansed_entry_point_name(
        &self,
        entry_point_name: &str,
        execution_model: ExecutionModel,
    ) -> (r: Result<String, ErrorCode>)
        requires
            self.wf(),
        ensures
            match find_ep(
                self.model().entry_points,
                entry_point_name.spec_bytes(),
                em_raw(execution_model),
            ) {
                Some(_) => r matches Ok(s) && s@ == bytes_as_chars(
                    cleansed_name(self.target_kind(), entry_point_name.spec_bytes()),
                ),
                None => r == Err::<String, ErrorCode>(ErrorCode::Unhandled),
            },
    {
        let ghost eps = self.model().entry_points;
        let query = entry_point_name.as_bytes_vec();
        let em = execution_model.as_raw();
        let n = self.engine.entry_points.len();
        let mut j: usize = 0;
        let mut found = false;
        while j < n && !found
            invariant
                self.wf(),
                eps == self.model().entry_points,
                query@ == entry_point_name.spec_bytes(),
                em == em_raw(execution_model),
                n == eps.len(),
                j <= n,
                !found ==> forall|i: int|
                    0 <= i < j ==> !((#[trigger] eps[i]).name == query@ && eps[i].execution_model
                        == em),
                found ==> j < n && eps[j as int].name == query@ && eps[j as int].execution_model
                    == em && (forall|i: int|
                    0 <= i < j ==> !((#[trigger] eps[i]).name == query@ && eps[i].execution_model
                        == em)),
            decreases n - j, (if found { 0int } else { 1int }),
        {
            proof {
                assert(eps[j as int] == self.engine.entry_points@[j as int].model());
            }
            let name_match = bytes_eq(&self.engine.entry_points[j].name, &query);
            if name_match && self.engine.entry_points[j].execution_model == em {
                found = true;
            } else {
                j = j + 1;
            }
        }
        if !found {
            proof {
                lemma_find_ep_none(eps, query@, em);
            }
            return Err(ErrorCode::Unhandled);
        }
        proof {
            lemma_find_ep_at(eps, query@, em, j as int);
            assert(name_ok(eps[j as int].name));
        }
        let is_msl = match self.engine.target {
            TargetKind::Msl => true,
            _ => false,
        };
        let main_vec: Vec<u8> = vec![0x6du8, 0x61u8, 0x69u8, 0x6eu8];
        proof {
            assert(main_vec@ =~= main_bytes());
        }
        let mut out = vstd::slice::slice_to_vec(query.as_slice());
        if is_msl && bytes_eq(&query, &main_vec) {
            out.push(0x30);
            proof {
                assert(out@ =~= cleansed_name(self.target_kind(), query@));
            }
        } else {
            proof {
                assert(out@ =~= cleansed_name(self.target_kind(), query@));
            }
        }
        proof {
            assert forall|i: int| 0 <= i < out@.len() implies (#[trigger] out@[i]) < 128 by {
                if i < query@.len() {
                    assert(query@[i] == eps[j as int].name[i]);
                }
            }
        }
        match string_from_ascii_bytes(out) {
            Some(s) => Ok(s),
            None => {
                proof {
                    assert(false);
                }
                vstd::pervasive::unreached()
            },
        }
    }

    /// Reports every specialization constant of the module with its
    /// `SpecId`.
    pub fn get_specialization_constants(&self) -> (r: Result<
        Vec<spirv::SpecializationConstant>,
        ErrorCode,
    >)
        requires
            self.wf(),
        ensures
            r matches Ok(v) && v@ == spec_consts_of(
                self.model().constants,
                self.model().decorations,
            ),
    {
        let ghost cs = self.model().constants;
        let n = self.engine.constants.len();
        let mut out: Vec<spirv::SpecializationConstant> = Vec::new();
        let mut k: usize = 0;
        while k < n
            invariant
                self.wf(),
                cs == self.model().constants,
                n == cs.len(),
                k <= n,
                out@ == spec_consts_of(cs.take(k as int), self.model().decorations),
            decreases n - k,
        {
            proof {
                assert(cs.take(k as int + 1).drop_last() =~= cs.take(k as int));
                assert(cs.take(k as int + 1).last() == cs[k as int]);
            }
            let c = self.engine.constants[k];
            if c.spec_constant {
                let (_code, constant_id) = self.engine.sc_get_decoration(c.id, 1);
                out.push(spirv::SpecializationConstant { id: c.id, constant_id });
            }
            k = k + 1;
        }
        proof {
            assert(cs.take(n as int) =~= cs);
        }
        Ok(out)
    }

    /// Reports the specialization constants composing the compute workgroup
    /// size; all-zero references when the module declares none.
    pub fn get_work_group_size_specialization_constants(&self) -> (r: Result<
        spirv::WorkGroupSizeSpecializationConstants,
        ErrorCode,
    >)
        requires
            self.wf(),
        ensures
            r == Ok::<spirv::WorkGroupSizeSpecializationConstants, ErrorCode>(
                wg_consts(self.model()),
            ),
    {
        let ghost comps = self.model().composites;
        let n = self.engine.composites.len();
        let mut j: usize = 0;
        while j < n
            invariant
                self.wf(),
                comps == self.model().composites,
                n == comps.len(),
                j <= n,
                forall|i: int|
                    0 <= i < j ==> !(deco_or_zero(
                        self.model().decorations,
                        (#[trigger] comps[i]).id,
                        11,
                    ) == 25 && comps[i].components.len() >= 3),
            decreases n - j,
        {
            proof {
                assert(comps[j as int] == self.engine.composites@[j as int].model());
            }
            let (_code, builtin) = self.engine.sc_get_decoration(self.engine.composites[j].id, 11);
            if builtin == 25 && self.engine.composites[j].components.len() >= 3 {
                proof {
                    Self::lemma_wg_at(comps, self.model().decorations, j as int);
                }
                let cx = self.engine.composites[j].components[0];
                let cy = self.engine.composites[j].components[1];
                let cz = self.engine.composites[j].components[2];
                let (_c1, idx) = self.engine.sc_get_decoration(cx, 1);
                let (_c2, idy) = self.engine.sc_get_decoration(cy, 1);
                let (_c3, idz) = self.engine.sc_get_decoration(cz, 1);
                return Ok(
                    spirv::WorkGroupSizeSpecializationConstants {
                        x: spirv::SpecializationConstant { id: cx, constant_id: idx },
                        y: spirv::SpecializationConstant { id: cy, constant_id: idy },
                        z: spirv::SpecializationConstant { id: cz, constant_id: idz },
                    },
                );
            }
            j = j + 1;
        }
        proof {
            Self::lemma_wg_none(comps, self.model().decorations);
        }
        Ok(
            spirv::WorkGroupSizeSpecializationConstants {
                x: spirv::SpecializationConstant { id: 0, constant_id: 0 },
                y: spirv::SpecializationConstant { id: 0, constant_id: 0 },
                z: spirv::SpecializationConstant { id: 0, constant_id: 0 },
            },
        )
    }

    /// A scan that found the first workgroup-size composite at `j` finds it.
    proof fn lemma_wg_at(
        comps: Seq<crate::engine::CompositeModel>,
        decos: Seq<DecorationRec>,
        j: int,
    )
        requires
            0 <= j < comps.len(),
            deco_or_zero(decos, comps[j].id, 11) == 25,
            comps[j].components.len() >= 3,
            forall|i: int|
                0 <= i < j ==> !(deco_or_zero(decos, (#[trigger] comps[i]).id, 11) == 25
                    && comps[i].components.len() >= 3),
        ensures
            wg_composite(comps, decos) == Some(comps[j]),
        decreases j,
    {
        if j > 0 {
            let t = comps.drop_first();
            assert forall|i: int|
                0 <= i < j - 1 implies !(deco_or_zero(decos, (#[trigger] t[i]).id, 11) == 25
                && t[i].components.len() >= 3) by {
                assert(t[i] == comps[i + 1]);
            }
            assert(t[j - 1] == comps[j]);
            Self::lemma_wg_at(t, decos, j - 1);
        }
    }

    /// A scan that found no workgroup-size composite finds nothing.
    proof fn lemma_wg_none(comps: Seq<crate::engine::CompositeModel>, decos: Seq<DecorationRec>)
        requires
            forall|i: int|
                0 <= i < comps.len() ==> !(deco_or_zero(decos, (#[trigger] comps[i]).id, 11) == 25
                    && comps[i].components.len() >= 3),
        ensures
            wg_composite(comps, decos) is None,
        decreases comps.len(),
    {
        if comps.len() > 0 {
            let t = comps.drop_first();
            assert forall|i: int|
                0 <= i < t.len() implies !(deco_or_zero(decos, (#[trigger] t[i]).id, 11) == 25
                && t[i].components.len() >= 3) by {
                assert(t[i] == comps[i + 1]);
            }
            Self::lemma_wg_none(t, decos);
        }
    }
}

} // verus!

verus! {

/// The mathematical value of one reflected resource.
#[verifier::ext_equal]
pub ghost struct ResourceModel {
    pub id: u32,
    pub type_id: u32,
    pub base_type_id: u32,
    pub name: Seq<u8>,
}

/// Which resource category a module-scope variable reflects into, by its
/// storage class and pointed-to type; `-1` when it reflects into none.
/// The categories are numbered: uniform buffers 0, storage buffers 1, stage
/// inputs 2, stage outputs 3, subpass inputs 4, storage images 5, sampled
/// images 6, atomic counters 7, push-constant buffers 8, separate images 9,
/// separate samplers 10.
pub open spec fn category_of(m: crate::engine::EngineModel, v: crate::engine::VariableRec) -> int {
    if v.storage_class == 1 {
        2
    } else if v.storage_class == 3 {
        3
    } else if v.storage_class == 9 {
        8
    } else if v.storage_class == 10 {
        7
    } else if v.storage_class == 12 {
        1
    } else if v.storage_class == 2 {
        match tbl_lookup(m.types, (v.type_id, 0, 0)) {
            None => -1,
            Some(t) => {
                if crate::engine::deco_present(m.decorations, t.pointee, 2) {
                    0
                } else if crate::engine::deco_present(m.decorations, t.pointee, 3) {
                    1
                } else {
                    -1
                }
            },
        }
    } else if v.storage_class == 0 {
        match tbl_lookup(m.types, (v.type_id, 0, 0)) {
            None => -1,
            Some(t) => {
                if t.base == 13 {
                    if t.image_dim == 6 {
                        4
                    } else if t.image_sampled == 2 {
                        5
                    } else {
                        9
                    }
                } else if t.base == 14 {
                    6
                } else if t.base == 15 {
                    10
                } else {
                    -1
                }
            },
        }
    } else {
        -1
    }
}

/// The reflected record of a variable: its id, its declared (pointer) type,
/// the pointed-to base type, and its name.
pub open spec fn resource_of(
    m: crate::engine::EngineModel,
    v: crate::engine::VariableRec,
) -> ResourceModel {
    let base_id = match tbl_lookup(m.types, (v.type_id, 0, 0)) {
        Some(t) => if t.pointee != 0 {
            t.pointee
        } else {
            v.type_id
        },
        None => v.type_id,
    };
    ResourceModel {
        id: v.id,
        type_id: v.type_id,
        base_type_id: base_id,
        name: crate::engine::name_of(m.names, v.id),
    }
}

/// The resources of category `c` among the first `k` variables, in module
/// order.
pub open spec fn resources_in(m: crate::engine::EngineModel, k: int, c: int) -> Seq<ResourceModel>
    decreases k,
{
    if k <= 0 {
        Seq::empty()
    } else {
        let rest = resources_in(m, k - 1, c);
        if category_of(m, m.variables[k - 1]) == c {
            rest.push(resource_of(m, m.variables[k - 1]))
        } else {
            rest
        }
    }
}

/// The resources of category `c` of the whole module.
pub open spec fn resources_of(m: crate::engine::EngineModel, c: int) -> Seq<ResourceModel> {
    resources_in(m, m.variables.len() as int, c)
}

/// Whether a reflected resource value carries exactly the fields of its
/// model, with the name decoded to characters.
pub open spec fn res_match(v: spirv::Resource, rm: ResourceModel) -> bool {
    &&& v.id == rm.id
    &&& v.type_id == rm.type_id
    &&& v.base_type_id == rm.base_type_id
    &&& v.name@ == bytes_as_chars(rm.name)
}

/// Whether a resource list carries exactly its model list.
pub open spec fn res_vec_match(vs: Seq<spirv::Resource>, rs: Seq<ResourceModel>) -> bool {
    &&& vs.len() == rs.len()
    &&& forall|j: int| 0 <= j < vs.len() ==> res_match(#[trigger] vs[j], rs[j])
}

impl<TTargetData> Compiler<TTargetData> {
    /// Reflects every module-scope variable into its resource category.
    /// Each category list is complete and in module order.
    pub fn get_shader_resources(&self) -> (r: Result<spirv::ShaderResources, ErrorCode>)
        requires
            self.wf(),
        ensures
            r matches Ok(sr) && {
                &&& res_vec_match(sr.uniform_buffers@, resources_of(self.model(), 0))
                &&& res_vec_match(sr.storage_buffers@, resources_of(self.model(), 1))
                &&& res_vec_match(sr.stage_inputs@, resources_of(self.model(), 2))
                &&& res_vec_match(sr.stage_outputs@, resources_of(self.model(), 3))
                &&& res_vec_match(sr.subpass_inputs@, resources_of(self.model(), 4))
                &&& res_vec_match(sr.storage_images@, resources_of(self.model(), 5))
                &&& res_vec_match(sr.sampled_images@, resources_of(self.model(), 6))
                &&& res_vec_match(sr.atomic_counters@, resources_of(self.model(), 7))
                &&& res_vec_match(sr.push_constant_buffers@, resources_of(self.model(), 8))
                &&& res_vec_match(sr.separate_images@, resources_of(self.model(), 9))
                &&& res_vec_match(sr.separate_samplers@, resources_of(self.model(), 10))
            },
    {
        let ghost m = self.model();
        let n = self.engine.variables.len();
        let mut uniform_buffers: Vec<spirv::Resource> = Vec::new();
        let mut storage_buffers: Vec<spirv::Resource> = Vec::new();
        let mut stage_inputs: Vec<spirv::Resource> = Vec::new();
        let mut stage_outputs: Vec<spirv::Resource> = Vec::new();
        let mut subpass_inputs: Vec<spirv::Resource> = Vec::new();
        let mut storage_images: Vec<spirv::Resource> = Vec::new();
        let mut sampled_images: Vec<spirv::Resource> = Vec::new();
        let mut atomic_counters: Vec<spirv::Resource> = Vec::new();
        let mut push_constant_buffers: Vec<spirv::Resource> = Vec::new();
        let mut separate_images: Vec<spirv::Resource> = Vec::new();
        let mut separate_samplers: Vec<spirv::Resource> = Vec::new();
        let mut k: usize = 0;
        while k < n
            invariant
                self.wf(),
                m == self.model(),
                n == m.variables.len(),
                k <= n,
                res_vec_match(uniform_buffers@, resources_in(m, k as int, 0)),
                res_vec_match(storage_buffers@, resources_in(m, k as int, 1)),
                res_vec_match(stage_inputs@, resources_in(m, k as int, 2)),
                res_vec_match(stage_outputs@, resources_in(m, k as int, 3)),
                res_vec_match(subpass_inputs@, resources_in(m, k as int, 4)),
                res_vec_match(storage_images@, resources_in(m, k as int, 5)),
                res_vec_match(sampled_images@, resources_in(m, k as int, 6)),
                res_vec_match(atomic_counters@, resources_in(m, k as int, 7)),
                res_vec_match(push_constant_buffers@, resources_in(m, k as int, 8)),
                res_vec_match(separate_images@, resources_in(m, k as int, 9)),
                res_vec_match(separate_samplers@, resources_in(m, k as int, 10)),
            decreases n - k,
        {
            let v = self.engine.variables[k];
            proof {
                assert(v == m.variables[k as int]);
            }
            let cat: i32 = if v.storage_class == 1 {
                2
            } else if v.storage_class == 3 {
                3
            } else if v.storage_class == 9 {
                8
            } else if v.storage_class == 10 {
                7
            } else if v.storage_class == 12 {
                1
            } else if v.storage_class == 2 {
                match crate::parser::find_type(&self.engine, v.type_id) {
                    None => -1,
                    Some(tj) => {
                        let pointee = self.engine.types[tj].pointee;
                        let (_c1, has_block) = self.engine.sc_has_decoration(pointee, 2);
                        if has_block {
                            0
                        } else {
                            let (_c2, has_buffer_block) = self.engine.sc_has_decoration(pointee, 3);
                            if has_buffer_block {
                                1
                            } else {
                                -1
                            }
                        }
                    },
                }
            } else if v.storage_class == 0 {
                match crate::parser::find_type(&self.engine, v.type_id) {
                    None => -1,
                    Some(tj) => {
                        let t_base = self.engine.types[tj].base;
                        if t_base == 13 {
                            if self.engine.types[tj].image_dim == 6 {
                                4
                            } else if self.engine.types[tj].image_sampled == 2 {
                                5
                            } else {
                                9
                            }
                        } else if t_base == 14 {
                            6
                        } else if t_base == 15 {
                            10
                        } else {
                            -1
                        }
                    },
                }
            } else {
                -1
            };
            proof {
                assert(cat as int == category_of(m, v));
            }
            if cat >= 0 {
                let base_type_id: u32 = match crate::parser::find_type(&self.engine, v.type_id) {
                    Some(tj) => {
                        let p = self.engine.types[tj].pointee;
                        if p != 0 {
                            p
                        } else {
                            v.type_id
                        }
                    },
                    None => v.type_id,
                };
                let name_bytes = self.engine.sc_get_name(v.id);
                let name = match string_from_ascii_bytes(name_bytes) {
                    Some(s) => s,
                    None => {
                        proof {
                            assert(false);
                        }
                        vstd::pervasive::unreached()
                    },
                };
                let res = spirv::Resource { id: v.id, type_id: v.type_id, base_type_id, name };
                proof {
                    assert(res_match(res, resource_of(m, v)));
                }
                if cat == 0 {
                    uniform_buffers.push(res);
                } else if cat == 1 {
                    storage_buffers.push(res);
                } else if cat == 2 {
                    stage_inputs.push(res);
                } else if cat == 3 {
                    stage_outputs.push(res);
                } else if cat == 4 {
                    subpass_inputs.push(res);
                } else if cat == 5 {
                    storage_images.push(res);
                } else if cat == 6 {
                    sampled_images.push(res);
                } else if cat == 7 {
                    atomic_counters.push(res);
                } else if cat == 8 {
                    push_constant_buffers.push(res);
                } else if cat == 9 {
                    separate_images.push(res);
                } else {
                    separate_samplers.push(res);
                }
            }
            k = k + 1;
        }
        Ok(
            spirv::ShaderResources {
                uniform_buffers,
                storage_buffers,
                stage_inputs,
                stage_outputs,
                subpass_inputs,
                storage_images,
                sampled_images,
                atomic_counters,
                push_constant_buffers,
                separate_images,
                separate_samplers,
            },
        )
    }
}

} // verus!

verus! {

/// Validates a name for the boundary and hands back its UTF-8 bytes.
fn validate_name_bytes(name: &str) -> (r: Option<Vec<u8>>)
    ensures
        match r {
            Some(v) => v@ == name.spec_bytes() && name_ok(v@) && name_acceptable(name@),
            None => !name_acceptable(name@),
        },
{
    let bytes = name.as_bytes_vec();
    if bytes.len() > MAX_NAME as usize {
        return None;
    }
    let count = bytes.len();
    let mut k: usize = 0;
    while k < count
        invariant
            bytes@ == name.spec_bytes(),
            count == bytes@.len(),
            count <= MAX_NAME,
            k <= count,
            forall|x: int| 0 <= x < k ==> ((0 < #[trigger] bytes@[x]) && (bytes@[x] < 128)),
        decreases count - k,
    {
        let b = bytes[k];
        if b == 0 || b >= 128 {
            proof {
                assert(!name_acceptable(name@));
            }
            return None;
        }
        k = k + 1;
    }
    proof {
        assert(name_ok(bytes@));
        assert(name_acceptable(name@));
    }
    Some(bytes)
}

/// Whether some listed resource carries the given location and id, so the
/// rename applies to that id.
pub open spec fn rename_applies(
    rs: Seq<spirv::Resource>,
    decos: Seq<DecorationRec>,
    location: u32,
    id: u32,
) -> bool {
    exists|k: int|
        0 <= k < rs.len() && (#[trigger] rs[k]).id == id && deco_or_zero(decos, id, 30) == location
}

impl<TTargetData> Compiler<TTargetData> {
    /// Stores the flat GLSL options on the instance.
    pub(crate) fn set_glsl_options(&mut self, raw: crate::engine::RawGlslOptions)
        requires
            old(self).wf(),
        ensures
            Self::frame(old(self), final(self)),
            final(self).model() == old(self).model().with_glsl_options(raw),
    {
        self.engine.glsl_options = raw;
    }

    /// Stores the flat HLSL options and the root-constant layout on the
    /// instance.
    pub(crate) fn set_hlsl_options(
        &mut self,
        raw: crate::engine::RawHlslOptions,
        roots: Vec<crate::engine::RawRootConstant>,
    )
        requires
            old(self).wf(),
        ensures
            Self::frame(old(self), final(self)),
            final(self).model() == old(self).model().with_hlsl_options(raw, roots@),
    {
        self.engine.hlsl_options = raw;
        self.engine.hlsl_root_constants = roots;
    }

    /// Stores the flat MSL options on the instance.
    pub(crate) fn set_msl_options(&mut self, raw: crate::engine::RawMslOptions)
        requires
            old(self).wf(),
        ensures
            Self::frame(old(self), final(self)),
            final(self).model() == old(self).model().with_msl_options(raw),
    {
        self.engine.msl_options = raw;
    }

    /// The stored flat GLSL options.
    pub fn glsl_options(&self) -> (r: crate::engine::RawGlslOptions)
        ensures
            r == self.model().glsl_options,
    {
        self.engine.glsl_options
    }

    /// The stored flat HLSL options.
    pub fn hlsl_options(&self) -> (r: crate::engine::RawHlslOptions)
        ensures
            r == self.model().hlsl_options,
    {
        self.engine.hlsl_options
    }

    /// The stored flat MSL options.
    pub fn msl_options(&self) -> (r: crate::engine::RawMslOptions)
        ensures
            r == self.model().msl_options,
    {
        self.engine.msl_options
    }

    /// The data the target keeps beside the instance.
    pub(crate) fn borrow_data(&self) -> (r: &TTargetData)
        ensures
            *r == self.data(),
    {
        &self.target_data
    }

    /// Replaces the data the target keeps beside the instance.
    pub(crate) fn replace_data(&mut self, data: TTargetData)
        requires
            old(self).wf(),
        ensures
            final(self).wf(),
            final(self).model() == old(self).model(),
            final(self).compiled() == old(self).compiled(),
            final(self).target_kind() == old(self).target_kind(),
            final(self).data() == data,
    {
        self.target_data = data;
    }

    /// Marks the instance compiled; after this the cleansed-name query is
    /// available.
    pub(crate) fn mark_compiled(&mut self)
        requires
            old(self).wf(),
        ensures
            final(self).wf(),
            final(self).model() == old(self).model(),
            final(self).target_kind() == old(self).target_kind(),
            final(self).data() == old(self).data(),
            final(self).compiled(),
    {
        self.has_been_compiled = true;
    }

    /// Renames every listed resource whose `Location` decoration matches
    /// `location` to `new_name`.  With an acceptable name and room in the
    /// name table the rename succeeds; on failure some listed resources may
    /// already carry the new name, and everything else is untouched.
    pub fn rename_interface_variable(
        &mut self,
        resources: &[spirv::Resource],
        location: u32,
        new_name: &str,
    ) -> (r: Result<(), ErrorCode>)
        requires
            old(self).wf(),
        ensures
            Self::frame(old(self), final(self)),
            final(self).model() == old(self).model().with_names(final(self).model().names),
            r is Ok ==> forall|id: u32|
                #[trigger] tbl_lookup(final(self).model().names, (id, 0, 0)) == (if rename_applies(
                    resources@,
                    old(self).model().decorations,
                    location,
                    id,
                ) {
                    Some(
                        crate::engine::NameModel { id, name: new_name.spec_bytes() },
                    )
                } else {
                    tbl_lookup(old(self).model().names, (id, 0, 0))
                }),
            (name_acceptable(new_name@) && old(self).model().names.len() + resources@.len()
                <= MAX_TABLE) ==> r is Ok,
            r is Err ==> r == Err::<(), ErrorCode>(ErrorCode::Unhandled),
    {
        let ghost decos = self.model().decorations;
        let bytes = match validate_name_bytes(new_name) {
            Some(b) => b,
            None => {
                return Err(ErrorCode::Unhandled);
            },
        };
        let n = resources.len();
        let mut k: usize = 0;
        while k < n
            invariant
                old(self).wf(),
                self.wf(),
                decos == old(self).model().decorations,
                self.model().decorations == decos,
                self.target_kind() == old(self).target_kind(),
                self.compiled() == old(self).compiled(),
                self.data() == old(self).data(),
                self.model() == old(self).model().with_names(self.model().names),
                bytes@ == new_name.spec_bytes(),
                name_ok(bytes@),
                n == resources@.len(),
                k <= n,
                self.model().names.len() <= old(self).model().names.len() + k,
                forall|id: u32|
                    #[trigger] tbl_lookup(self.model().names, (id, 0, 0)) == (if rename_applies(
                        resources@.take(k as int),
                        decos,
                        location,
                        id,
                    ) {
                        Some(
                            crate::engine::NameModel { id, name: new_name.spec_bytes() },
                        )
                    } else {
                        tbl_lookup(old(self).model().names, (id, 0, 0))
                    }),
            decreases n - k,
        {
            let rid = resources[k].id;
            let (_code, loc) = self.engine.sc_get_decoration(rid, 30);
            let ghost names_before = self.model().names;
            if loc == location {
                let nb = vstd::slice::slice_to_vec(bytes.as_slice());
                let code = self.engine.sc_set_name(rid, nb);
                match code {
                    ResultCode::Success => {
                        proof {
                            assert forall|id: u32|
                                #[trigger] tbl_lookup(self.model().names, (id, 0, 0)) == (
                            if rename_applies(resources@.take(k as int + 1), decos, location, id) {
                                Some(
                                    crate::engine::NameModel { id, name: new_name.spec_bytes() },
                                )
                            } else {
                                tbl_lookup(old(self).model().names, (id, 0, 0))
                            }) by {
                                if id == rid {
                                    assert(resources@.take(k as int + 1)[k as int].id == id);
                                    assert(rename_applies(
                                        resources@.take(k as int + 1),
                                        decos,
                                        location,
                                        id,
                                    ));
                                } else {
                                    assert(tbl_lookup(self.model().names, (id, 0u32, 0u32))
                                        == tbl_lookup(names_before, (id, 0u32, 0u32)));
                                    if rename_applies(
                                        resources@.take(k as int + 1),
                                        decos,
                                        location,
                                        id,
                                    ) {
                                        let w = choose|w: int|
                                            0 <= w < k + 1 && (#[trigger] resources@.take(
                                                k as int + 1,
                                            )[w]).id == id && deco_or_zero(decos, id, 30)
                                                == location;
                                        assert(w < k);
                                        assert(resources@.take(k as int)[w].id == id);
                                        assert(rename_applies(
                                            resources@.take(k as int),
                                            decos,
                                            location,
                                            id,
                                        ));
                                    } else {
                                        if rename_applies(
                                            resources@.take(k as int),
                                            decos,
                                            location,
                                            id,
                                        ) {
                                            let w = choose|w: int|
                                                0 <= w < k && (#[trigger] resources@.take(
                                                    k as int,
                                                )[w]).id == id && deco_or_zero(decos, id, 30)
                                                    == location;
                                            assert(resources@.take(k as int + 1)[w].id == id);
                                            assert(rename_applies(
                                                resources@.take(k as int + 1),
                                                decos,
                                                location,
                                                id,
                                            ));
                                        }
                                    }
                                }
                            }
                        }
                    },
                    _ => {
                        return Err(ErrorCode::Unhandled);
                    },
                }
            } else {
                proof {
                    assert forall|id: u32|
                        #[trigger] tbl_lookup(self.model().names, (id, 0, 0)) == (
                    if rename_applies(resources@.take(k as int + 1), decos, location, id) {
                        Some(crate::engine::NameModel { id, name: new_name.spec_bytes() })
                    } else {
                        tbl_lookup(old(self).model().names, (id, 0, 0))
                    }) by {
                        if rename_applies(resources@.take(k as int + 1), decos, location, id) {
                            let w = choose|w: int|
                                0 <= w < k + 1 && (#[trigger] resources@.take(k as int + 1)[w]).id
                                    == id && deco_or_zero(decos, id, 30) == location;
                            if w == k {
                                assert(id == rid && deco_or_zero(decos, rid, 30) == location);
                                assert(false);
                            }
                            assert(resources@.take(k as int)[w].id == id);
                            assert(rename_applies(resources@.take(k as int), decos, location, id));
                        } else {
                            if rename_applies(resources@.take(k as int), decos, location, id) {
                                let w = choose|w: int|
                                    0 <= w < k && (#[trigger] resources@.take(k as int)[w]).id
                                        == id && deco_or_zero(decos, id, 30) == location;
                                assert(resources@.take(k as int + 1)[w].id == id);
                                assert(rename_applies(
                                    resources@.take(k as int + 1),
                                    decos,
                                    location,
                                    id,
                                ));
                            }
                        }
                    }
                }
            }
            k = k + 1;
        }
        proof {
            assert(resources@.take(n as int) =~= resources@);
        }
        Ok(())
    }
}

} // verus!

verus! {

/// The bytes of a name after MSL cleansing: "main" becomes "main0".
fn msl_cleansed_bytes(name: &Vec<u8>) -> (r: Vec<u8>)
    ensures
        r@ == cleansed_name(TargetKind::Msl, name@),
{
    let main_vec: Vec<u8> = vec![0x6du8, 0x61u8, 0x69u8, 0x6eu8];
    proof {
        assert(main_vec@ =~= main_bytes());
    }
    let mut out = vstd::slice::slice_to_vec(name.as_slice());
    if bytes_eq(name, &main_vec) {
        out.push(0x30);
        proof {
            assert(out@ =~= cleansed_name(TargetKind::Msl, name@));
        }
    } else {
        proof {
            assert(out@ =~= cleansed_name(TargetKind::Msl, name@));
        }
    }
    out
}

impl<TTargetData> Compiler<TTargetData> {
    /// Builds the MSL source envelope for the module under the stored
    /// resource-binding overrides.
    pub(crate) fn emit_msl_text(&self, overrides: &Vec<crate::engine::RawResourceBinding>) -> (r: String)
        requires
            self.wf(),
        ensures
            r@ == crate::emit::emit_msl(self.model(), overrides@),
    {
        let ghost m = self.model();
        let mut out = String::new();
        out.append("#include <metal_stdlib>\nusing namespace metal;\n");
        let ghost prologue = "#include <metal_stdlib>\nusing namespace metal;\n"@;
        let n = self.engine.entry_points.len();
        let mut k: usize = 0;
        while k < n
            invariant
                self.wf(),
                m == self.model(),
                n == m.entry_points.len(),
                k <= n,
                out@ == prologue + crate::emit::msl_entry_lines(m, k as int),
                prologue == "#include <metal_stdlib>\nusing namespace metal;\n"@,
            decreases n - k,
        {
            proof {
                assert(m.entry_points[k as int] == self.engine.entry_points@[k as int].model());
                assert(crate::engine::name_ok(m.entry_points[k as int].name));
            }
            let cleansed = msl_cleansed_bytes(&self.engine.entry_points[k].name);
            proof {
                assert forall|i: int| 0 <= i < cleansed@.len() implies (#[trigger] cleansed@[i])
                    < 128 by {
                    if i < m.entry_points[k as int].name.len() {
                        assert(cleansed@[i] == m.entry_points[k as int].name[i]);
                    }
                }
            }
            let name = match string_from_ascii_bytes(cleansed) {
                Some(s) => s,
                None => {
                    proof {
                        assert(false);
                    }
                    vstd::pervasive::unreached()
                },
            };
            out.append("// entry ");
            out.append(name.as_str());
            out.append("\n");
            proof {
                assert(out@ =~= prologue + crate::emit::msl_entry_lines(m, k as int + 1));
            }
            k = k + 1;
        }
        let sr = match self.get_shader_resources() {
            Ok(sr) => sr,
            Err(_) => {
                proof {
                    assert(false);
                }
                vstd::pervasive::unreached()
            },
        };
        let stage: u32 = if self.engine.entry_points.len() > 0 {
            self.engine.entry_points[0].execution_model
        } else {
            0
        };
        proof {
            if m.entry_points.len() > 0 {
                assert(m.entry_points[0] == self.engine.entry_points@[0].model());
            }
            assert(stage == crate::emit::module_stage(m));
        }
        let ubs = sr.uniform_buffers;
        let bn = ubs.len();
        let ghost entry_part = out@;
        let mut b: usize = 0;
        while b < bn
            invariant
                self.wf(),
                m == self.model(),
                stage == crate::emit::module_stage(m),
                bn == ubs@.len(),
                bn == resources_of(m, 0).len(),
                res_vec_match(ubs@, resources_of(m, 0)),
                b <= bn,
                entry_part == prologue + crate::emit::msl_entry_lines(
                    m,
                    m.entry_points.len() as int,
                ),
                prologue == "#include <metal_stdlib>\nusing namespace metal;\n"@,
                out@ == entry_part + crate::emit::msl_buffer_lines(m, overrides@, b as int),
            decreases bn - b,
        {
            proof {
                assert(res_match(ubs@[b as int], resources_of(m, 0)[b as int]));
            }
            let rid = ubs[b].id;
            let (_c1, dset) = self.engine.sc_get_decoration(rid, 34);
            let (_c2, binding) = self.engine.sc_get_decoration(rid, 33);
            let slot = crate::emit::msl_buffer_slot_exec(overrides, stage, dset, binding);
            out.append("// ");
            out.append(ubs[b].name.as_str());
            out.append(" [[buffer(");
            crate::emit::push_dec(slot, &mut out);
            out.append(")]]\n");
            proof {
                assert(out@ =~= entry_part + crate::emit::msl_buffer_lines(
                    m,
                    overrides@,
                    b as int + 1,
                ));
            }
            b = b + 1;
        }
        proof {
            assert(out@ =~= crate::emit::emit_msl(m, overrides@));
        }
        out
    }
}

} // verus!
