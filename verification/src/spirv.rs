//! The caller-facing data model of the compiler: modules, entry points,
//! resources, decorations, types, and the generic `Ast` handle over a
//! target language.

use crate::compiler;
use crate::ErrorCode;
use core::marker::PhantomData;
use vstd::prelude::*;
use vstd::string::StringSliceAdditionalSpecFns;

verus! {

/// A combined image sampler built from separate image and sampler ids.
#[derive(Copy, Clone, Debug, Hash, Eq, PartialEq, Structural)]
pub struct CombinedImageSampler {
    pub combined_id: u32,
    pub image_id: u32,
    pub sampler_id: u32,
}

/// A stage or compute kernel.
#[derive(Copy, Clone, Debug, Hash, Eq, PartialEq, Ord, PartialOrd, Structural)]
pub enum ExecutionModel {
    Vertex,
    TessellationControl,
    TessellationEvaluation,
    Geometry,
    Fragment,
    GlCompute,
    Kernel,
}

/// A decoration.
#[derive(Copy, Clone, Debug, Hash, Eq, PartialEq, Structural)]
pub enum Decoration {
    RelaxedPrecision,
    SpecId,
    Block,
    BufferBlock,
    RowMajor,
    ColMajor,
    ArrayStride,
    MatrixStride,
    GlslShared,
    GlslPacked,
    CPacked,
    BuiltIn,
    NoPerspective,
    Flat,
    Patch,
    Centroid,
    Sample,
    Invariant,
    Restrict,
    Aliased,
    Volatile,
    Constant,
    Coherent,
    NonWritable,
    NonReadable,
    Uniform,
    SaturatedConversion,
    Stream,
    Location,
    Component,
    Index,
    Binding,
    DescriptorSet,
    Offset,
    XfbBuffer,
    XfbStride,
    FuncParamAttr,
    FpRoundingMode,
    FpFastMathMode,
    LinkageAttributes,
    NoContraction,
    InputAttachmentIndex,
    Alignment,
    OverrideCoverageNv,
    PassthroughNv,
    ViewportRelativeNv,
    SecondaryViewportRelativeNv,
}

/// How a vertex attribute steps through its buffer.
#[derive(Copy, Clone, Debug, Hash, Eq, PartialEq, Structural)]
pub enum VertexAttributeStep {
    Vertex,
    Instance,
}

/// A work group size.
#[derive(Copy, Clone, Debug, Hash, Eq, PartialEq, Structural)]
pub struct WorkGroupSize {
    pub x: u32,
    pub y: u32,
    pub z: u32,
}

/// An entry point of a module.
#[derive(Clone, Debug, Hash, Eq, PartialEq)]
pub struct EntryPoint {
    pub name: String,
    pub execution_model: ExecutionModel,
    pub work_group_size: WorkGroupSize,
}

/// A shader-visible resource.
#[derive(Clone, Debug, Hash, Eq, PartialEq)]
pub struct Resource {
    pub id: u32,
    pub type_id: u32,
    pub base_type_id: u32,
    pub name: String,
}

/// A specialization-constant reference.
#[derive(Copy, Clone, Debug, Hash, Eq, PartialEq, Structural)]
pub struct SpecializationConstant {
    pub id: u32,
    pub constant_id: u32,
}

/// The specialization constants composing a compute workgroup size.
#[derive(Copy, Clone, Debug, Hash, Eq, PartialEq, Structural)]
pub struct WorkGroupSizeSpecializationConstants {
    pub x: SpecializationConstant,
    pub y: SpecializationConstant,
    pub z: SpecializationConstant,
}

/// The resources of a module, grouped into fixed categories.
#[derive(Clone, Debug)]
pub struct ShaderResources {
    pub uniform_buffers: Vec<Resource>,
    pub storage_buffers: Vec<Resource>,
    pub stage_inputs: Vec<Resource>,
    pub stage_outputs: Vec<Resource>,
    pub subpass_inputs: Vec<Resource>,
    pub storage_images: Vec<Resource>,
    pub sampled_images: Vec<Resource>,
    pub atomic_counters: Vec<Resource>,
    pub push_constant_buffers: Vec<Resource>,
    pub separate_images: Vec<Resource>,
    pub separate_samplers: Vec<Resource>,
}

/// A reduced type descriptor: a base kind with array dimensions, and member
/// type ids for structs.
#[derive(Clone, Debug)]
pub enum Type {
    Unknown,
    Void,
    Boolean { array: Vec<u32> },
    Char { array: Vec<u32> },
    Int { array: Vec<u32> },
    UInt { array: Vec<u32> },
    Int64 { array: Vec<u32> },
    UInt64 { array: Vec<u32> },
    AtomicCounter { array: Vec<u32> },
    Half { array: Vec<u32> },
    Float { array: Vec<u32> },
    Double { array: Vec<u32> },
    Struct { member_types: Vec<u32>, array: Vec<u32> },
    Image { array: Vec<u32> },
    SampledImage { array: Vec<u32> },
    Sampler { array: Vec<u32> },
    SByte { array: Vec<u32> },
    UByte { array: Vec<u32> },
    Short { array: Vec<u32> },
    UShort { array: Vec<u32> },
}

/// The mathematical value of a [`Type`].
#[verifier::ext_equal]
pub ghost enum TypeV {
    Unknown,
    Void,
    Boolean { array: Seq<u32> },
    Char { array: Seq<u32> },
    Int { array: Seq<u32> },
    UInt { array: Seq<u32> },
    Int64 { array: Seq<u32> },
    UInt64 { array: Seq<u32> },
    AtomicCounter { array: Seq<u32> },
    Half { array: Seq<u32> },
    Float { array: Seq<u32> },
    Double { array: Seq<u32> },
    Struct { member_types: Seq<u32>, array: Seq<u32> },
    Image { array: Seq<u32> },
    SampledImage { array: Seq<u32> },
    Sampler { array: Seq<u32> },
    SByte { array: Seq<u32> },
    UByte { array: Seq<u32> },
    Short { array: Seq<u32> },
    UShort { array: Seq<u32> },
}

impl View for Type {
    type V = TypeV;

    open spec fn view(&self) -> TypeV {
        match self {
            Type::Unknown => TypeV::Unknown,
            Type::Void => TypeV::Void,
            Type::Boolean { array } => TypeV::Boolean { array: array@ },
            Type::Char { array } => TypeV::Char { array: array@ },
            Type::Int { array } => TypeV::Int { array: array@ },
            Type::UInt { array } => TypeV::UInt { array: array@ },
            Type::Int64 { array } => TypeV::Int64 { array: array@ },
            Type::UInt64 { array } => TypeV::UInt64 { array: array@ },
            Type::AtomicCounter { array } => TypeV::AtomicCounter { array: array@ },
            Type::Half { array } => TypeV::Half { array: array@ },
            Type::Float { array } => TypeV::Float { array: array@ },
            Type::Double { array } => TypeV::Double { array: array@ },
            Type::Struct { member_types, array } => TypeV::Struct {
                member_types: member_types@,
                array: array@,
            },
            Type::Image { array } => TypeV::Image { array: array@ },
            Type::SampledImage { array } => TypeV::SampledImage { array: array@ },
            Type::Sampler { array } => TypeV::Sampler { array: array@ },
            Type::SByte { array } => TypeV::SByte { array: array@ },
            Type::UByte { array } => TypeV::UByte { array: array@ },
            Type::Short { array } => TypeV::Short { array: array@ },
            Type::UShort { array } => TypeV::UShort { array: array@ },
        }
    }
}

/// A module of 32-bit words.
#[derive(Debug, Clone)]
pub struct Module<'a> {
    pub(crate) words: &'a [u32],
}

impl<'a> Module<'a> {
    /// The words of the module.
    pub closed spec fn spec_words(&self) -> Seq<u32> {
        self.words@
    }

    /// Creates a module from its words.
    pub fn from_words(words: &[u32]) -> (m: Module<'_>)
        ensures
            m.spec_words() == words@,
    {
        Module { words }
    }

    /// The words of a module are the words it was created from.
    pub(crate) proof fn lemma_words(&self)
        ensures
            self.spec_words() == self.words@,
    {
    }
}

/// A target shading language.
pub trait Target {
    type Data;
}

/// A compiler instance bound to one module and one target language.
pub struct Ast<TTarget> where TTarget: Target {
    pub(crate) compiler: compiler::Compiler<TTarget::Data>,
    pub(crate) target_type: PhantomData<TTarget>,
}

} // verus!

verus! {

impl<TTarget> Ast<TTarget> where TTarget: Target {
    /// The mathematical state of the wrapped compiler instance.
    pub closed spec fn model(&self) -> crate::engine::EngineModel {
        self.compiler.model()
    }

    /// Well-formedness of the handle.
    pub closed spec fn wf(&self) -> bool {
        self.compiler.wf()
    }

    /// Whether `compile` has been invoked on this handle.
    pub closed spec fn compiled(&self) -> bool {
        self.compiler.compiled()
    }

    /// Which target the handle was constructed for.
    pub closed spec fn target_kind(&self) -> crate::engine::TargetKind {
        self.compiler.target_kind()
    }

    /// The live-allocation count of the handle's transport.
    pub closed spec fn transport_live(&self) -> nat {
        self.compiler.transport_live()
    }

    /// The data the target keeps beside the instance.
    pub closed spec fn data(&self) -> TTarget::Data {
        self.compiler.data()
    }

    /// The live-allocation probe of the handle's transport; an idle handle
    /// holds exactly its opaque instance allocation.
    pub fn live_transport_allocations(&self) -> (n: usize)
        ensures
            n == self.transport_live(),
    {
        self.compiler.live_transport_allocations()
    }

    /// A well-formed handle holds exactly one live transport allocation:
    /// the opaque instance handle.
    pub proof fn lemma_idle_transport(&self)
        requires
            self.wf(),
        ensures
            self.transport_live() == 1,
    {
        self.compiler.lemma_idle_transport();
    }

    /// How the handle's visible state reads off its compiler.
    pub(crate) proof fn lemma_state(&self)
        ensures
            self.wf() <==> self.compiler.wf(),
            self.model() == self.compiler.model(),
            self.compiled() == self.compiler.compiled(),
            self.target_kind() == self.compiler.target_kind(),
            self.transport_live() == self.compiler.transport_live(),
            self.data() == self.compiler.data(),
    {
    }
}

/// Parsing a module into an abstract syntax tree for a target.
pub trait Parse<TTarget>: Sized {
    /// What `parse` guarantees for this target.
    spec fn parse_post(words: Seq<u32>, r: &Result<Self, ErrorCode>) -> bool;

    /// Parses a module into `Self`.
    fn parse(module: &Module) -> (r: Result<Self, ErrorCode>)
        ensures
            Self::parse_post(module.spec_words(), &r),
    ;
}

/// Setting options for and compiling to a target language.
pub trait Compile<TTarget> where Self: Sized {
    type CompilerOptions;

    /// When the instance accepts options and compiles.  Compiled is a
    /// terminal state: once `compile` has been invoked the options are
    /// frozen, and neither `set_compiler_options` nor `compile` may be
    /// invoked again.
    spec fn ready(&self) -> bool;

    /// What `set_compiler_options` guarantees for this target.
    spec fn set_options_post(
        old_self: &Self,
        new_self: &Self,
        options: &Self::CompilerOptions,
        r: &Result<(), ErrorCode>,
    ) -> bool;

    /// What `compile` guarantees for this target.
    spec fn compile_post(old_self: &Self, new_self: &Self, r: &Result<String, ErrorCode>) -> bool;

    /// Sets target-specific compilation options.
    fn set_compiler_options(&mut self, options: &Self::CompilerOptions) -> (r: Result<
        (),
        ErrorCode,
    >)
        requires
            old(self).ready(),
        ensures
            Self::set_options_post(old(self), final(self), options, &r),
    ;

    /// Generates target-language source for the module.
    fn compile(&mut self) -> (r: Result<String, ErrorCode>)
        requires
            old(self).ready(),
        ensures
            Self::compile_post(old(self), final(self), &r),
    ;
}

impl<TTarget> Ast<TTarget> where
    Self: Parse<TTarget> + Compile<TTarget>,
    TTarget: Target,
 {
    /// Gets a decoration; an undecorated id reports `0`.
    pub fn get_decoration(&self, id: u32, decoration: Decoration) -> (r: Result<u32, ErrorCode>)
        requires
            self.wf(),
        ensures
            r == Ok::<u32, ErrorCode>(
                crate::engine::deco_or_zero(
                    self.model().decorations,
                    id,
                    crate::compiler::deco_raw(decoration),
                ),
            ),
    {
        self.compiler.get_decoration(id, decoration)
    }

    /// Sets a name for an id.
    pub fn set_name(&mut self, id: u32, name: &str) -> (r: Result<(), ErrorCode>)
        requires
            old(self).wf(),
        ensures
            final(self).wf(),
            final(self).compiled() == old(self).compiled(),
            final(self).target_kind() == old(self).target_kind(),
            (r is Ok) <==> (crate::compiler::name_acceptable(name@) && (crate::engine::tbl_lookup(
                old(self).model().names,
                (id, 0, 0),
            ) is Some || old(self).model().names.len() < crate::engine::MAX_TABLE)),
            r is Ok ==> {
                &&& final(self).model() == old(self).model().with_names(final(self).model().names)
                &&& crate::engine::tbl_lookup(final(self).model().names, (id, 0, 0)) matches Some(
                    nm,
                ) && nm.id == id && nm.name == name.spec_bytes()
                &&& forall|k2: (u32, u32, u32)|
                    k2 != (id, 0u32, 0u32) ==> #[trigger] crate::engine::tbl_lookup(
                        final(self).model().names,
                        k2,
                    ) == crate::engine::tbl_lookup(old(self).model().names, k2)
            },
            r is Err ==> r == Err::<(), ErrorCode>(ErrorCode::Unhandled) && final(self).model()
                == old(self).model(),
    {
        self.compiler.set_name(id, name)
    }

    /// Unsets a decoration.
    pub fn unset_decoration(&mut self, id: u32, decoration: Decoration) -> (r: Result<
        (),
        ErrorCode,
    >)
        requires
            old(self).wf(),
        ensures
            final(self).wf(),
            final(self).compiled() == old(self).compiled(),
            final(self).target_kind() == old(self).target_kind(),
            r is Ok,
            final(self).model() == old(self).model().with_decorations(
                final(self).model().decorations,
            ),
            crate::engine::tbl_lookup(
                final(self).model().decorations,
                (id, crate::compiler::deco_raw(decoration), 0),
            ) == None::<crate::engine::DecorationRec>,
            forall|k2: (u32, u32, u32)|
                k2 != (id, crate::compiler::deco_raw(decoration), 0u32)
                    ==> #[trigger] crate::engine::tbl_lookup(final(self).model().decorations, k2)
                    == crate::engine::tbl_lookup(old(self).model().decorations, k2),
    {
        self.compiler.unset_decoration(id, decoration)
    }

    /// Sets a decoration.
    pub fn set_decoration(&mut self, id: u32, decoration: Decoration, argument: u32) -> (r: Result<
        (),
        ErrorCode,
    >)
        requires
            old(self).wf(),
        ensures
            final(self).wf(),
            final(self).compiled() == old(self).compiled(),
            final(self).target_kind() == old(self).target_kind(),
            (r is Ok) <==> (crate::engine::tbl_lookup(
                old(self).model().decorations,
                (id, crate::compiler::deco_raw(decoration), 0),
            ) is Some || old(self).model().decorations.len() < crate::engine::MAX_TABLE),
            r is Ok ==> {
                &&& final(self).model() == old(self).model().with_decorations(
                    final(self).model().decorations,
                )
                &&& crate::engine::tbl_lookup(
                    final(self).model().decorations,
                    (id, crate::compiler::deco_raw(decoration), 0),
                ) == Some(
                    crate::engine::DecorationRec {
                        id,
                        decoration: crate::compiler::deco_raw(decoration),
                        argument,
                    },
                )
                &&& forall|k2: (u32, u32, u32)|
                    k2 != (id, crate::compiler::deco_raw(decoration), 0u32)
                        ==> #[trigger] crate::engine::tbl_lookup(
                        final(self).model().decorations,
                        k2,
                    ) == crate::engine::tbl_lookup(old(self).model().decorations, k2)
            },
            r is Err ==> r == Err::<(), ErrorCode>(ErrorCode::Unhandled) && final(self).model()
                == old(self).model(),
    {
        self.compiler.set_decoration(id, decoration, argument)
    }

    /// Gets the entry points of the module.
    pub fn get_entry_points(&mut self) -> (r: Result<Vec<EntryPoint>, ErrorCode>)
        requires
            old(self).wf(),
        ensures
            final(self).wf(),
            final(self).compiled() == old(self).compiled(),
            final(self).target_kind() == old(self).target_kind(),
            final(self).model() == old(self).model(),
            final(self).transport_live() == 1,
            (r is Ok) <==> (forall|j: int|
                0 <= j < old(self).model().entry_points.len() ==> crate::compiler::em_from_raw(
                    (#[trigger] old(self).model().entry_points[j]).execution_model,
                ) is Some),
            r matches Ok(v) ==> {
                &&& v@.len() == old(self).model().entry_points.len()
                &&& forall|j: int|
                    0 <= j < v@.len() ==> {
                        let ep = old(self).model().entry_points[j];
                        &&& (#[trigger] v@[j]).name@ == crate::compiler::bytes_as_chars(ep.name)
                        &&& crate::compiler::em_from_raw(ep.execution_model) == Some(
                            v@[j].execution_model,
                        )
                        &&& v@[j].work_group_size == (WorkGroupSize {
                            x: ep.wg_x,
                            y: ep.wg_y,
                            z: ep.wg_z,
                        })
                    }
            },
            r is Err ==> r == Err::<Vec<EntryPoint>, ErrorCode>(ErrorCode::Unhandled),
    {
        self.compiler.get_entry_points()
    }

    /// Gets the name an entry point compiles under; `compile` must have been
    /// invoked first.
    pub fn get_cleansed_entry_point_name(
        &self,
        entry_point_name: &str,
        execution_model: ExecutionModel,
    ) -> (r: Result<String, ErrorCode>)
        requires
            self.wf(),
            self.compiled(),
        ensures
            match crate::compiler::find_ep(
                self.model().entry_points,
                entry_point_name.spec_bytes(),
                crate::compiler::em_raw(execution_model),
            ) {
                Some(_) => r matches Ok(s) && s@ == crate::compiler::bytes_as_chars(
                    crate::compiler::cleansed_name(
                        self.target_kind(),
                        entry_point_name.spec_bytes(),
                    ),
                ),
                None => r == Err::<String, ErrorCode>(ErrorCode::Unhandled),
            },
    {
        self.compiler.get_cleansed_entry_point_name(entry_point_name, execution_model)
    }

    /// Gets all specialization constants.
    pub fn get_specialization_constants(&self) -> (r: Result<
        Vec<SpecializationConstant>,
        ErrorCode,
    >)
        requires
            self.wf(),
        ensures
            r matches Ok(v) && v@ == crate::compiler::spec_consts_of(
                self.model().constants,
                self.model().decorations,
            ),
    {
        self.compiler.get_specialization_constants()
    }

    /// Overrides the value of a scalar specialization constant.
    pub fn set_scalar_constant(&mut self, id: u32, value: u64) -> (r: Result<(), ErrorCode>)
        requires
            old(self).wf(),
        ensures
            final(self).wf(),
            final(self).compiled() == old(self).compiled(),
            final(self).target_kind() == old(self).target_kind(),
            (r is Ok) <==> (crate::engine::tbl_lookup(old(self).model().constants, (id, 0, 0))
                is Some),
            r is Ok ==> {
                &&& final(self).model() == old(self).model().with_constants(
                    final(self).model().constants,
                )
                &&& crate::engine::tbl_lookup(final(self).model().constants, (id, 0, 0)) matches Some(
                    c2,
                ) && c2.id == id && c2.value == value
                &&& forall|k2: (u32, u32, u32)|
                    k2 != (id, 0u32, 0u32) ==> #[trigger] crate::engine::tbl_lookup(
                        final(self).model().constants,
                        k2,
                    ) == crate::engine::tbl_lookup(old(self).model().constants, k2)
            },
            r is Err ==> r == Err::<(), ErrorCode>(ErrorCode::Unhandled) && final(self).model()
                == old(self).model(),
    {
        self.compiler.set_scalar_constant(id, value)
    }

    /// Gets the shader resources of the module, grouped into categories.
    pub fn get_shader_resources(&self) -> (r: Result<ShaderResources, ErrorCode>)
        requires
            self.wf(),
        ensures
            r matches Ok(sr) && {
                &&& crate::compiler::res_vec_match(
                    sr.uniform_buffers@,
                    crate::compiler::resources_of(self.model(), 0),
                )
                &&& crate::compiler::res_vec_match(
                    sr.storage_buffers@,
                    crate::compiler::resources_of(self.model(), 1),
                )
                &&& crate::compiler::res_vec_match(
                    sr.stage_inputs@,
                    crate::compiler::resources_of(self.model(), 2),
                )
                &&& crate::compiler::res_vec_match(
                    sr.stage_outputs@,
                    crate::compiler::resources_of(self.model(), 3),
                )
                &&& crate::compiler::res_vec_match(
                    sr.subpass_inputs@,
                    crate::compiler::resources_of(self.model(), 4),
                )
                &&& crate::compiler::res_vec_match(
                    sr.storage_images@,
                    crate::compiler::resources_of(self.model(), 5),
                )
                &&& crate::compiler::res_vec_match(
                    sr.sampled_images@,
                    crate::compiler::resources_of(self.model(), 6),
                )
                &&& crate::compiler::res_vec_match(
                    sr.atomic_counters@,
                    crate::compiler::resources_of(self.model(), 7),
                )
                &&& crate::compiler::res_vec_match(
                    sr.push_constant_buffers@,
                    crate::compiler::resources_of(self.model(), 8),
                )
                &&& crate::compiler::res_vec_match(
                    sr.separate_images@,
                    crate::compiler::resources_of(self.model(), 9),
                )
                &&& crate::compiler::res_vec_match(
                    sr.separate_samplers@,
                    crate::compiler::resources_of(self.model(), 10),
                )
            },
    {
        self.compiler.get_shader_resources()
    }

    /// Gets the reduced type descriptor of a type id.
    pub fn get_type(&self, id: u32) -> (r: Result<Type, ErrorCode>)
        requires
            self.wf(),
        ensures
            match crate::engine::tbl_lookup(self.model().types, (id, 0, 0)) {
                Some(t) => r matches Ok(ty) && ty@ == crate::compiler::type_v_of(
                    t.base,
                    t.member_types,
                    t.array,
                ),
                None => r == Err::<Type, ErrorCode>(ErrorCode::Unhandled),
            },
    {
        self.compiler.get_type(id)
    }

    /// Gets the name of a struct member; an unnamed member reports the
    /// empty name.
    pub fn get_member_name(&self, id: u32, index: u32) -> (r: Result<String, ErrorCode>)
        requires
            self.wf(),
        ensures
            r matches Ok(s) && s@ == crate::compiler::bytes_as_chars(
                crate::engine::member_name_of(self.model().member_names, id, index),
            ),
    {
        self.compiler.get_member_name(id, index)
    }

    /// Gets a member decoration; an undecorated member reports `0`.
    pub fn get_member_decoration(&self, id: u32, index: u32, decoration: Decoration) -> (r: Result<
        u32,
        ErrorCode,
    >)
        requires
            self.wf(),
        ensures
            r == Ok::<u32, ErrorCode>(
                crate::engine::member_deco_or_zero(
                    self.model().member_decorations,
                    id,
                    index,
                    crate::compiler::deco_raw(decoration),
                ),
            ),
    {
        self.compiler.get_member_decoration(id, index, decoration)
    }

    /// Sets a member decoration.
    pub fn set_member_decoration(
        &mut self,
        id: u32,
        index: u32,
        decoration: Decoration,
        argument: u32,
    ) -> (r: Result<(), ErrorCode>)
        requires
            old(self).wf(),
        ensures
            final(self).wf(),
            final(self).compiled() == old(self).compiled(),
            final(self).target_kind() == old(self).target_kind(),
            (r is Ok) <==> (crate::engine::tbl_lookup(
                old(self).model().member_decorations,
                (id, index, crate::compiler::deco_raw(decoration)),
            ) is Some || old(self).model().member_decorations.len() < crate::engine::MAX_TABLE),
            r is Ok ==> {
                &&& final(self).model() == old(self).model().with_member_decorations(
                    final(self).model().member_decorations,
                )
                &&& crate::engine::tbl_lookup(
                    final(self).model().member_decorations,
                    (id, index, crate::compiler::deco_raw(decoration)),
                ) == Some(
                    crate::engine::MemberDecorationRec {
                        id,
                        member: index,
                        decoration: crate::compiler::deco_raw(decoration),
                        argument,
                    },
                )
                &&& forall|k2: (u32, u32, u32)|
                    k2 != (id, index, crate::compiler::deco_raw(decoration))
                        ==> #[trigger] crate::engine::tbl_lookup(
                        final(self).model().member_decorations,
                        k2,
                    ) == crate::engine::tbl_lookup(old(self).model().member_decorations, k2)
            },
            r is Err ==> r == Err::<(), ErrorCode>(ErrorCode::Unhandled) && final(self).model()
                == old(self).model(),
    {
        self.compiler.set_member_decoration(id, index, decoration, argument)
    }

    /// Gets the declared byte size of a buffer block struct.
    pub fn get_declared_struct_size(&self, id: u32) -> (r: Result<u32, ErrorCode>)
        requires
            self.wf(),
        ensures
            match crate::engine::tbl_lookup(self.model().types, (id, 0, 0)) {
                Some(t) => r == Ok::<u32, ErrorCode>(t.size),
                None => r == Err::<u32, ErrorCode>(ErrorCode::Unhandled),
            },
    {
        self.compiler.get_declared_struct_size(id)
    }

    /// Gets the declared byte size of one buffer block struct member.
    pub fn get_declared_struct_member_size(&self, id: u32, index: u32) -> (r: Result<
        u32,
        ErrorCode,
    >)
        requires
            self.wf(),
        ensures
            match crate::engine::tbl_lookup(self.model().types, (id, 0, 0)) {
                Some(t) => {
                    if index < t.member_types.len() {
                        match crate::engine::tbl_lookup(
                            self.model().types,
                            (t.member_types[index as int], 0, 0),
                        ) {
                            Some(mt) => r == Ok::<u32, ErrorCode>(mt.size),
                            None => r == Err::<u32, ErrorCode>(ErrorCode::Unhandled),
                        }
                    } else {
                        r == Err::<u32, ErrorCode>(ErrorCode::Unhandled)
                    }
                },
                None => r == Err::<u32, ErrorCode>(ErrorCode::Unhandled),
            },
    {
        self.compiler.get_declared_struct_member_size(id, index)
    }

    /// Renames every listed resource at `location` to `name`.
    pub fn rename_interface_variable(
        &mut self,
        resources: &[Resource],
        location: u32,
        name: &str,
    ) -> (r: Result<(), ErrorCode>)
        requires
            old(self).wf(),
        ensures
            final(self).wf(),
            final(self).compiled() == old(self).compiled(),
            final(self).target_kind() == old(self).target_kind(),
            final(self).model() == old(self).model().with_names(final(self).model().names),
            r is Ok ==> forall|id: u32|
                #[trigger] crate::engine::tbl_lookup(final(self).model().names, (id, 0, 0)) == (
                if crate::compiler::rename_applies(
                    resources@,
                    old(self).model().decorations,
                    location,
                    id,
                ) {
                    Some(crate::engine::NameModel { id, name: name.spec_bytes() })
                } else {
                    crate::engine::tbl_lookup(old(self).model().names, (id, 0, 0))
                }),
            (crate::compiler::name_acceptable(name@) && old(self).model().names.len()
                + resources@.len() <= crate::engine::MAX_TABLE) ==> r is Ok,
            r is Err ==> r == Err::<(), ErrorCode>(ErrorCode::Unhandled),
    {
        self.compiler.rename_interface_variable(resources, location, name)
    }

    /// Gets the workgroup-size specialization constants.
    pub fn get_work_group_size_specialization_constants(&self) -> (r: Result<
        WorkGroupSizeSpecializationConstants,
        ErrorCode,
    >)
        requires
            self.wf(),
        ensures
            r == Ok::<WorkGroupSizeSpecializationConstants, ErrorCode>(
                crate::compiler::wg_consts(self.model()),
            ),
    {
        self.compiler.get_work_group_size_specialization_constants()
    }

    /// Parses a module into an `Ast` for this target.
    pub fn parse(module: &Module) -> (r: Result<Self, ErrorCode>)
        ensures
            <Self as Parse<TTarget>>::parse_post(module.spec_words(), &r),
    {
        <Self as Parse<TTarget>>::parse(module)
    }

    /// Sets target-specific compile options.
    pub fn set_compiler_options(
        &mut self,
        options: &<Self as Compile<TTarget>>::CompilerOptions,
    ) -> (r: Result<(), ErrorCode>)
        requires
            old(self).ready(),
        ensures
            <Self as Compile<TTarget>>::set_options_post(old(self), final(self), options, &r),
    {
        <Self as Compile<TTarget>>::set_compiler_options(self, options)
    }

    /// Compiles the module to a string in this target's language.
    pub fn compile(&mut self) -> (r: Result<String, ErrorCode>)
        requires
            old(self).ready(),
        ensures
            <Self as Compile<TTarget>>::compile_post(old(self), final(self), &r),
    {
        <Self as Compile<TTarget>>::compile(self)
    }
}

} // verus!
