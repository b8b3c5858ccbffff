//! The compiler core behind the binding layer.
//!
//! One [`Engine`] models one live compiler instance: the reflection tables of
//! a parsed module (entry points, names, decorations, types, variables,
//! constants) together with the target the instance was constructed for.  The
//! binding layer reaches it only through the `sc_`-prefixed operations, each
//! of which returns a [`ResultCode`] first, exactly like the narrow
//! entry-point contract of the wrapped core.
//!
//! The engine enforces fixed implementation limits (table sizes, name
//! lengths) so that every marshaled reply is guaranteed to fit into the
//! 32-bit transport address space.

use vstd::prelude::*;

verus! {

/// Status of one boundary-crossing operation.
#[derive(Copy, Clone, Debug, Hash, Eq, PartialEq, Structural)]
pub enum ResultCode {
    Success,
    Unhandled,
    CompilationError,
}

/// Which target language a compiler instance was constructed for.
#[derive(Copy, Clone, Debug, Hash, Eq, PartialEq, Structural)]
pub enum TargetKind {
    Glsl,
    Hlsl,
    Msl,
}

/// Implementation limit: longest accepted module, in words (4 MiB of
/// instructions).  Together with the table limits below it guarantees that
/// the worst-case marshaled reply — every record array plus a C-string copy
/// of every name — stays far below the 32-bit transport address space, so
/// every transport allocation the queries make is provably in bounds.
pub const MAX_MODULE_WORDS: u32 = 0x100000;

/// Implementation limit: most entries in one entry-point table.
pub const MAX_ENTRY_POINTS: u32 = 256;

/// Implementation limit: most entries in one reflection table.
pub const MAX_TABLE: u32 = 0x10000;

/// Implementation limit: most module-level variables.
pub const MAX_VARIABLES: u32 = 4096;

/// Implementation limit: longest accepted name, in bytes.
pub const MAX_NAME: u32 = 4096;

/// A name accepted by the engine: printable ASCII, bounded length, and free
/// of the NUL terminator, so it can cross the transport as a C string.
///
/// Names are rebuilt character-for-character from raw transport bytes, and
/// the byte-to-character correspondence the contracts pin down is the
/// identity exactly on ASCII; a name outside this set is therefore rejected
/// through the same classification-failure channel the layer uses for any
/// name it cannot translate, rather than stored with an unspecified
/// reading.
pub open spec fn name_ok(n: Seq<u8>) -> bool {
    &&& n.len() <= MAX_NAME
    &&& forall|k: int| 0 <= k < n.len() ==> 0 < #[trigger] n[k] < 128
}

/// One entry point of the module.
pub struct EntryPointRec {
    pub id: u32,
    pub name: Vec<u8>,
    pub execution_model: u32,
    pub wg_x: u32,
    pub wg_y: u32,
    pub wg_z: u32,
}

/// The mathematical value of an [`EntryPointRec`].
#[verifier::ext_equal]
pub ghost struct EpModel {
    pub id: u32,
    pub name: Seq<u8>,
    pub execution_model: u32,
    pub wg_x: u32,
    pub wg_y: u32,
    pub wg_z: u32,
}

impl EntryPointRec {
    pub open spec fn model(&self) -> EpModel {
        EpModel {
            id: self.id,
            name: self.name@,
            execution_model: self.execution_model,
            wg_x: self.wg_x,
            wg_y: self.wg_y,
            wg_z: self.wg_z,
        }
    }
}

/// A decoration attached to an id.
#[derive(Copy, Clone, Debug, Hash, Eq, PartialEq, Structural)]
pub struct DecorationRec {
    pub id: u32,
    pub decoration: u32,
    pub argument: u32,
}

/// A decoration attached to a member of a struct type.
#[derive(Copy, Clone, Debug, Hash, Eq, PartialEq, Structural)]
pub struct MemberDecorationRec {
    pub id: u32,
    pub member: u32,
    pub decoration: u32,
    pub argument: u32,
}

/// The name attached to an id.
pub struct NameRec {
    pub id: u32,
    pub name: Vec<u8>,
}

/// The mathematical value of a [`NameRec`].
#[verifier::ext_equal]
pub ghost struct NameModel {
    pub id: u32,
    pub name: Seq<u8>,
}

impl NameRec {
    pub open spec fn model(&self) -> NameModel {
        NameModel { id: self.id, name: self.name@ }
    }
}

/// The name attached to a member of a struct type.
pub struct MemberNameRec {
    pub id: u32,
    pub member: u32,
    pub name: Vec<u8>,
}

/// The mathematical value of a [`MemberNameRec`].
#[verifier::ext_equal]
pub ghost struct MemberNameModel {
    pub id: u32,
    pub member: u32,
    pub name: Seq<u8>,
}

impl MemberNameRec {
    pub open spec fn model(&self) -> MemberNameModel {
        MemberNameModel { id: self.id, member: self.member, name: self.name@ }
    }
}

/// A type declared by the module, in reduced form: a base kind, the declared
/// array dimensions, struct member type ids, and (for pointers) the pointee
/// and storage class.  `size` is the declared byte size under the engine's
/// packed layout rule.
pub struct TypeRec {
    pub id: u32,
    pub base: u32,
    pub member_types: Vec<u32>,
    pub array: Vec<u32>,
    pub pointee: u32,
    pub storage_class: u32,
    pub image_dim: u32,
    pub image_sampled: u32,
    pub size: u32,
}

/// The mathematical value of a [`TypeRec`].
#[verifier::ext_equal]
pub ghost struct TypeModel {
    pub id: u32,
    pub base: u32,
    pub member_types: Seq<u32>,
    pub array: Seq<u32>,
    pub pointee: u32,
    pub storage_class: u32,
    pub image_dim: u32,
    pub image_sampled: u32,
    pub size: u32,
}

impl TypeRec {
    pub open spec fn model(&self) -> TypeModel {
        TypeModel {
            id: self.id,
            base: self.base,
            member_types: self.member_types@,
            array: self.array@,
            pointee: self.pointee,
            storage_class: self.storage_class,
            image_dim: self.image_dim,
            image_sampled: self.image_sampled,
            size: self.size,
        }
    }
}

/// A module-scope variable: its id, the id of its (pointer) type, and its
/// storage class.
#[derive(Copy, Clone, Debug, Hash, Eq, PartialEq, Structural)]
pub struct VariableRec {
    pub id: u32,
    pub type_id: u32,
    pub storage_class: u32,
}

/// A scalar constant of the module; `spec_constant` marks specialization
/// constants.
#[derive(Copy, Clone, Debug, Hash, Eq, PartialEq, Structural)]
pub struct ConstantRec {
    pub id: u32,
    pub value: u64,
    pub spec_constant: bool,
}

/// A specialization-constant composite and its component ids.
pub struct CompositeRec {
    pub id: u32,
    pub components: Vec<u32>,
}

/// The mathematical value of a [`CompositeRec`].
#[verifier::ext_equal]
pub ghost struct CompositeModel {
    pub id: u32,
    pub components: Seq<u32>,
}

impl CompositeRec {
    pub open spec fn model(&self) -> CompositeModel {
        CompositeModel { id: self.id, components: self.components@ }
    }
}

/// A record stored in a keyed reflection table.
pub trait KeySpec {
    spec fn key(&self) -> (u32, u32, u32);
}

impl KeySpec for DecorationRec {
    open spec fn key(&self) -> (u32, u32, u32) {
        (self.id, self.decoration, 0)
    }
}

impl KeySpec for MemberDecorationRec {
    open spec fn key(&self) -> (u32, u32, u32) {
        (self.id, self.member, self.decoration)
    }
}

impl KeySpec for NameModel {
    open spec fn key(&self) -> (u32, u32, u32) {
        (self.id, 0, 0)
    }
}

impl KeySpec for MemberNameModel {
    open spec fn key(&self) -> (u32, u32, u32) {
        (self.id, self.member, 0)
    }
}

impl KeySpec for TypeModel {
    open spec fn key(&self) -> (u32, u32, u32) {
        (self.id, 0, 0)
    }
}

impl KeySpec for ConstantRec {
    open spec fn key(&self) -> (u32, u32, u32) {
        (self.id, 0, 0)
    }
}

impl KeySpec for CompositeModel {
    open spec fn key(&self) -> (u32, u32, u32) {
        (self.id, 0, 0)
    }
}

/// First record of `s` whose key is `k`, if any.
pub open spec fn tbl_lookup<T: KeySpec>(s: Seq<T>, k: (u32, u32, u32)) -> Option<T>
    decreases s.len(),
{
    if s.len() == 0 {
        None
    } else if s[0].key() == k {
        Some(s[0])
    } else {
        tbl_lookup(s.drop_first(), k)
    }
}

/// No two records of `s` share a key.
pub open spec fn tbl_unique<T: KeySpec>(s: Seq<T>) -> bool {
    forall|i: int, j: int|
        0 <= i < j < s.len() ==> (#[trigger] s[i].key()) != (#[trigger] s[j].key())
}

/// Index of the first record of `s` whose key is `k`, or `-1` when there is
/// none.
pub open spec fn tbl_index<T: KeySpec>(s: Seq<T>, k: (u32, u32, u32)) -> int
    decreases s.len(),
{
    if s.len() == 0 {
        -1
    } else if s[0].key() == k {
        0
    } else {
        let r = tbl_index(s.drop_first(), k);
        if r < 0 {
            -1
        } else {
            1 + r
        }
    }
}

/// When a key looks up to a record, `tbl_index` names the first position
/// holding it.
pub proof fn lemma_tbl_index<T: KeySpec>(s: Seq<T>, k: (u32, u32, u32))
    requires
        tbl_lookup(s, k) is Some,
    ensures
        0 <= tbl_index(s, k) < s.len(),
        s[tbl_index(s, k)].key() == k,
        s[tbl_index(s, k)] == tbl_lookup(s, k)->Some_0,
        forall|i: int| 0 <= i < tbl_index(s, k) ==> (#[trigger] s[i].key()) != k,
    decreases s.len(),
{
    if s.len() > 0 && s[0].key() != k {
        let t = s.drop_first();
        lemma_tbl_index(t, k);
        assert(s[tbl_index(s, k)] == t[tbl_index(t, k)]);
        assert forall|i: int| 0 <= i < tbl_index(s, k) implies (#[trigger] s[i].key()) != k by {
            if i > 0 {
                assert(t[i - 1].key() != k);
                assert(s[i] == t[i - 1]);
            }
        }
    }
}

/// A scan that found its first key match at index `j` looks up to that
/// record.
pub proof fn lemma_tbl_first_match<T: KeySpec>(s: Seq<T>, j: int)
    requires
        0 <= j < s.len(),
        forall|i: int| 0 <= i < j ==> (#[trigger] s[i].key()) != s[j].key(),
    ensures
        tbl_lookup(s, s[j].key()) == Some(s[j]),
    decreases j,
{
    if j > 0 {
        let t = s.drop_first();
        assert forall|i: int| 0 <= i < j - 1 implies (#[trigger] t[i].key()) != t[j - 1].key() by {
            assert(t[i] == s[i + 1]);
            assert(t[j - 1] == s[j]);
        }
        lemma_tbl_first_match(t, j - 1);
        assert(t[j - 1] == s[j]);
        assert(s[0].key() != s[j].key());
    }
}

/// A scan that found no key match looks up to nothing.
pub proof fn lemma_tbl_no_match<T: KeySpec>(s: Seq<T>, k: (u32, u32, u32))
    requires
        forall|i: int| 0 <= i < s.len() ==> (#[trigger] s[i].key()) != k,
    ensures
        tbl_lookup(s, k) == None::<T>,
    decreases s.len(),
{
    if s.len() > 0 {
        let t = s.drop_first();
        assert forall|i: int| 0 <= i < t.len() implies (#[trigger] t[i].key()) != k by {
            assert(t[i] == s[i + 1]);
        }
        lemma_tbl_no_match(t, k);
    }
}

/// Replacing a record with one of the same key changes no other lookup.
pub proof fn lemma_tbl_update<T: KeySpec>(s: Seq<T>, j: int, r: T)
    requires
        0 <= j < s.len(),
        r.key() == s[j].key(),
    ensures
        forall|k2: (u32, u32, u32)|
            k2 != r.key() ==> #[trigger] tbl_lookup(s.update(j, r), k2) == tbl_lookup(s, k2),
    decreases s.len(),
{
    let s2 = s.update(j, r);
    if j == 0 {
        assert forall|k2: (u32, u32, u32)| k2 != r.key() implies #[trigger] tbl_lookup(s2, k2)
            == tbl_lookup(s, k2) by {
            assert(s2.drop_first() =~= s.drop_first());
            assert(s2[0] == r);
        }
    } else {
        lemma_tbl_update(s.drop_first(), j - 1, r);
        assert forall|k2: (u32, u32, u32)| k2 != r.key() implies #[trigger] tbl_lookup(s2, k2)
            == tbl_lookup(s, k2) by {
            assert(s2.drop_first() =~= s.drop_first().update(j - 1, r));
            assert(s2[0] == s[0]);
            assert(tbl_lookup(s.drop_first().update(j - 1, r), k2) == tbl_lookup(
                s.drop_first(),
                k2,
            ));
        }
    }
}

/// Appending a record with a fresh key makes that key look up to it and
/// changes no other lookup.
pub proof fn lemma_tbl_push<T: KeySpec>(s: Seq<T>, r: T)
    requires
        forall|i: int| 0 <= i < s.len() ==> (#[trigger] s[i].key()) != r.key(),
    ensures
        tbl_lookup(s.push(r), r.key()) == Some(r),
        forall|k2: (u32, u32, u32)|
            k2 != r.key() ==> #[trigger] tbl_lookup(s.push(r), k2) == tbl_lookup(s, k2),
    decreases s.len(),
{
    let s2 = s.push(r);
    if s.len() == 0 {
        assert(s2[0] == r);
        assert(s2.drop_first() =~= Seq::<T>::empty());
        assert forall|k2: (u32, u32, u32)| k2 != r.key() implies #[trigger] tbl_lookup(s2, k2)
            == tbl_lookup(s, k2) by {
            assert(tbl_lookup(s2.drop_first(), k2) == None::<T>);
        }
    } else {
        let t = s.drop_first();
        assert forall|i: int| 0 <= i < t.len() implies (#[trigger] t[i].key()) != r.key() by {
            assert(t[i] == s[i + 1]);
        }
        lemma_tbl_push(t, r);
        assert(s2.drop_first() =~= t.push(r));
        assert(s2[0] == s[0]);
        assert forall|k2: (u32, u32, u32)| k2 != r.key() implies #[trigger] tbl_lookup(s2, k2)
            == tbl_lookup(s, k2) by {
            assert(tbl_lookup(t.push(r), k2) == tbl_lookup(t, k2));
        }
    }
}

/// Removing the only record with key `k` makes `k` look up to nothing and
/// changes no other lookup.
pub proof fn lemma_tbl_remove<T: KeySpec>(s: Seq<T>, j: int)
    requires
        0 <= j < s.len(),
        forall|i: int| 0 <= i < s.len() && i != j ==> (#[trigger] s[i].key()) != s[j].key(),
    ensures
        tbl_lookup(s.remove(j), s[j].key()) == None::<T>,
        forall|k2: (u32, u32, u32)|
            k2 != s[j].key() ==> #[trigger] tbl_lookup(s.remove(j), k2) == tbl_lookup(s, k2),
    decreases s.len(),
{
    let s2 = s.remove(j);
    let k = s[j].key();
    assert forall|i: int| 0 <= i < s2.len() implies (#[trigger] s2[i].key()) != k by {
        if i < j {
            assert(s2[i] == s[i]);
        } else {
            assert(s2[i] == s[i + 1]);
        }
    }
    lemma_tbl_no_match(s2, k);
    if j == 0 {
        assert forall|k2: (u32, u32, u32)| k2 != k implies #[trigger] tbl_lookup(s2, k2)
            == tbl_lookup(s, k2) by {
            assert(s2 =~= s.drop_first());
        }
    } else {
        lemma_tbl_remove(s.drop_first(), j - 1);
        assert forall|k2: (u32, u32, u32)| k2 != k implies #[trigger] tbl_lookup(s2, k2)
            == tbl_lookup(s, k2) by {
            assert(s2.drop_first() =~= s.drop_first().remove(j - 1));
            assert(s2[0] == s[0]);
            assert(s.drop_first()[j - 1] == s[j]);
            assert(tbl_lookup(s.drop_first().remove(j - 1), k2) == tbl_lookup(
                s.drop_first(),
                k2,
            ));
        }
    }
}

} // verus!

use vstd::prelude::*;

verus! {

/// The flat boundary encoding of the GLSL compiler options.
#[derive(Copy, Clone, Debug, Hash, Eq, PartialEq, Structural)]
pub struct RawGlslOptions {
    pub version: u32,
    pub es: bool,
    pub vertex_invert_y: bool,
    pub vertex_transform_clip_space: bool,
    pub vertex_support_nonzero_base_instance: bool,
    pub fragment_default_float_precision: u8,
    pub fragment_default_int_precision: u8,
    pub force_temporary: bool,
    pub vulkan_semantics: bool,
    pub separate_shader_objects: bool,
    pub flatten_multidimensional_arrays: bool,
    pub enable_420_pack_extension: bool,
    pub emit_push_constant_as_uniform_buffer: bool,
    pub emit_uniform_buffer_as_plain_uniforms: bool,
    pub emit_line_directives: bool,
    pub enable_storage_image_qualifier_deduction: bool,
    pub force_zero_initialized_variables: bool,
}

/// The GLSL options a fresh compiler instance starts with.
pub open spec fn glsl_initial_options() -> RawGlslOptions {
    RawGlslOptions {
        version: 450,
        es: false,
        vertex_invert_y: false,
        vertex_transform_clip_space: false,
        vertex_support_nonzero_base_instance: false,
        fragment_default_float_precision: 1,
        fragment_default_int_precision: 3,
        force_temporary: false,
        vulkan_semantics: false,
        separate_shader_objects: false,
        flatten_multidimensional_arrays: false,
        enable_420_pack_extension: true,
        emit_push_constant_as_uniform_buffer: false,
        emit_uniform_buffer_as_plain_uniforms: false,
        emit_line_directives: false,
        enable_storage_image_qualifier_deduction: true,
        force_zero_initialized_variables: false,
    }
}

/// The flat boundary encoding of the HLSL compiler options.
#[derive(Copy, Clone, Debug, Hash, Eq, PartialEq, Structural)]
pub struct RawHlslOptions {
    pub shader_model: i32,
    pub vertex_invert_y: bool,
    pub vertex_transform_clip_space: bool,
}

/// The HLSL options a fresh compiler instance starts with.
pub open spec fn hlsl_initial_options() -> RawHlslOptions {
    RawHlslOptions { shader_model: 30, vertex_invert_y: false, vertex_transform_clip_space: false }
}

/// One HLSL root-constant range, as it crosses the boundary.
#[derive(Copy, Clone, Debug, Hash, Eq, PartialEq, Structural)]
pub struct RawRootConstant {
    pub start: u32,
    pub end: u32,
    pub binding: u32,
    pub space: u32,
}

/// The flat boundary encoding of the MSL compiler options.
#[derive(Copy, Clone, Debug, Hash, Eq, PartialEq, Structural)]
pub struct RawMslOptions {
    pub vertex_invert_y: bool,
    pub vertex_transform_clip_space: bool,
    pub platform: u8,
    pub version: u32,
    pub enable_point_size_builtin: bool,
    pub disable_rasterization: bool,
}

/// The MSL options a fresh compiler instance starts with.
pub open spec fn msl_initial_options() -> RawMslOptions {
    RawMslOptions {
        vertex_invert_y: false,
        vertex_transform_clip_space: false,
        platform: 1,
        version: 10200,
        enable_point_size_builtin: true,
        disable_rasterization: false,
    }
}

/// One MSL vertex-attribute override record, as it crosses the boundary.
#[derive(Copy, Clone, Debug, Hash, Eq, PartialEq, Structural)]
pub struct RawVertexAttr {
    pub location: u32,
    pub msl_buffer: u32,
    pub msl_offset: u32,
    pub msl_stride: u32,
    pub per_instance: bool,
    pub used_by_shader: bool,
    pub format: u32,
}

/// One MSL resource-binding override record, as it crosses the boundary.
#[derive(Copy, Clone, Debug, Hash, Eq, PartialEq, Structural)]
pub struct RawResourceBinding {
    pub stage: u32,
    pub desc_set: u32,
    pub binding: u32,
    pub msl_buffer: u32,
    pub msl_texture: u32,
    pub msl_sampler: u32,
    pub used_by_shader: bool,
}

/// The complete mathematical state of one compiler instance.
#[verifier::ext_equal]
pub ghost struct EngineModel {
    pub target: TargetKind,
    pub entry_points: Seq<EpModel>,
    pub names: Seq<NameModel>,
    pub member_names: Seq<MemberNameModel>,
    pub decorations: Seq<DecorationRec>,
    pub member_decorations: Seq<MemberDecorationRec>,
    pub types: Seq<TypeModel>,
    pub variables: Seq<VariableRec>,
    pub constants: Seq<ConstantRec>,
    pub composites: Seq<CompositeModel>,
    pub glsl_options: RawGlslOptions,
    pub hlsl_options: RawHlslOptions,
    pub msl_options: RawMslOptions,
    pub hlsl_root_constants: Seq<RawRootConstant>,
}

impl EngineModel {
    /// The same state with the decoration table replaced.
    pub open spec fn with_decorations(self, d: Seq<DecorationRec>) -> EngineModel {
        EngineModel { decorations: d, ..self }
    }

    /// The same state with the member-decoration table replaced.
    pub open spec fn with_member_decorations(self, d: Seq<MemberDecorationRec>) -> EngineModel {
        EngineModel { member_decorations: d, ..self }
    }

    /// The same state with the name table replaced.
    pub open spec fn with_names(self, n: Seq<NameModel>) -> EngineModel {
        EngineModel { names: n, ..self }
    }

    /// The same state with the constant table replaced.
    pub open spec fn with_constants(self, c: Seq<ConstantRec>) -> EngineModel {
        EngineModel { constants: c, ..self }
    }

    /// The same state with the GLSL options replaced.
    pub open spec fn with_glsl_options(self, o: RawGlslOptions) -> EngineModel {
        EngineModel { glsl_options: o, ..self }
    }

    /// The same state with the HLSL options and root constants replaced.
    pub open spec fn with_hlsl_options(
        self,
        o: RawHlslOptions,
        roots: Seq<RawRootConstant>,
    ) -> EngineModel {
        EngineModel { hlsl_options: o, hlsl_root_constants: roots, ..self }
    }

    /// The same state with the MSL options replaced.
    pub open spec fn with_msl_options(self, o: RawMslOptions) -> EngineModel {
        EngineModel { msl_options: o, ..self }
    }
}

/// The value of a decoration on an id: its stored argument, or `0` when the
/// decoration is not present (the reply the wrapped core gives for an
/// undecorated id).
pub open spec fn deco_or_zero(s: Seq<DecorationRec>, id: u32, decoration: u32) -> u32 {
    match tbl_lookup(s, (id, decoration, 0)) {
        Some(rec) => rec.argument,
        None => 0,
    }
}

/// Whether a decoration is present on an id.
pub open spec fn deco_present(s: Seq<DecorationRec>, id: u32, decoration: u32) -> bool {
    tbl_lookup(s, (id, decoration, 0)) is Some
}

/// The value of a decoration on a struct member, or `0` when absent.
pub open spec fn member_deco_or_zero(
    s: Seq<MemberDecorationRec>,
    id: u32,
    member: u32,
    decoration: u32,
) -> u32 {
    match tbl_lookup(s, (id, member, decoration)) {
        Some(rec) => rec.argument,
        None => 0,
    }
}

/// The name attached to an id, or the empty name when none is.
pub open spec fn name_of(s: Seq<NameModel>, id: u32) -> Seq<u8> {
    match tbl_lookup(s, (id, 0, 0)) {
        Some(rec) => rec.name,
        None => Seq::empty(),
    }
}

/// The name attached to a struct member, or the empty name when none is.
pub open spec fn member_name_of(s: Seq<MemberNameModel>, id: u32, member: u32) -> Seq<u8> {
    match tbl_lookup(s, (id, member, 0)) {
        Some(rec) => rec.name,
        None => Seq::empty(),
    }
}

/// Well-formedness of an instance: every table respects the engine's fixed
/// limits, the keyed tables hold one record per key, and every stored name
/// can cross the transport as a C string.
pub open spec fn model_wf(m: EngineModel) -> bool {
    &&& m.entry_points.len() <= MAX_ENTRY_POINTS
    &&& forall|i: int|
        0 <= i < m.entry_points.len() ==> name_ok(#[trigger] m.entry_points[i].name)
    &&& m.names.len() <= MAX_TABLE
    &&& forall|i: int| 0 <= i < m.names.len() ==> name_ok(#[trigger] m.names[i].name)
    &&& m.member_names.len() <= MAX_TABLE
    &&& forall|i: int|
        0 <= i < m.member_names.len() ==> name_ok(#[trigger] m.member_names[i].name)
    &&& m.decorations.len() <= MAX_TABLE
    &&& m.member_decorations.len() <= MAX_TABLE
    &&& m.types.len() <= MAX_TABLE
    &&& m.variables.len() <= MAX_VARIABLES
    &&& m.constants.len() <= MAX_TABLE
    &&& m.composites.len() <= MAX_TABLE
    &&& tbl_unique(m.decorations)
    &&& tbl_unique(m.member_decorations)
    &&& tbl_unique(m.names.map_values(|r: NameModel| r))
    &&& tbl_unique(m.names)
    &&& tbl_unique(m.member_names)
    &&& tbl_unique(m.constants)
}

/// One live compiler instance: the reflection tables of its module and the
/// options set on it so far.
pub struct Engine {
    pub target: TargetKind,
    pub entry_points: Vec<EntryPointRec>,
    pub names: Vec<NameRec>,
    pub member_names: Vec<MemberNameRec>,
    pub decorations: Vec<DecorationRec>,
    pub member_decorations: Vec<MemberDecorationRec>,
    pub types: Vec<TypeRec>,
    pub variables: Vec<VariableRec>,
    pub constants: Vec<ConstantRec>,
    pub composites: Vec<CompositeRec>,
    pub glsl_options: RawGlslOptions,
    pub hlsl_options: RawHlslOptions,
    pub msl_options: RawMslOptions,
    pub hlsl_root_constants: Vec<RawRootConstant>,
}

impl Engine {
    /// The mathematical state of the instance.
    pub open spec fn model(&self) -> EngineModel {
        EngineModel {
            target: self.target,
            entry_points: self.entry_points@.map_values(|r: EntryPointRec| r.model()),
            names: self.names@.map_values(|r: NameRec| r.model()),
            member_names: self.member_names@.map_values(|r: MemberNameRec| r.model()),
            decorations: self.decorations@,
            member_decorations: self.member_decorations@,
            types: self.types@.map_values(|r: TypeRec| r.model()),
            variables: self.variables@,
            constants: self.constants@,
            composites: self.composites@.map_values(|r: CompositeRec| r.model()),
            glsl_options: self.glsl_options,
            hlsl_options: self.hlsl_options,
            msl_options: self.msl_options,
            hlsl_root_constants: self.hlsl_root_constants@,
        }
    }

    /// Well-formedness of the instance.
    pub open spec fn wf(&self) -> bool {
        model_wf(self.model())
    }

    /// Relies on nothing outside this crate: reports the decoration stored
    /// for `id`, or `0` when it carries none, as the wrapped core does.
    pub(crate) fn sc_get_decoration(&self, id: u32, decoration: u32) -> (r: (ResultCode, u32))
        requires
            self.wf(),
        ensures
            r.0 == ResultCode::Success,
            r.1 == deco_or_zero(self.model().decorations, id, decoration),
    {
        let n = self.decorations.len();
        let mut j: usize = 0;
        while j < n
            invariant
                n == self.decorations@.len(),
                j <= n,
                forall|i: int|
                    0 <= i < j ==> (#[trigger] self.decorations@[i].key()) != (id, decoration, 0u32),
            decreases n - j,
        {
            let rec = self.decorations[j];
            if rec.id == id && rec.decoration == decoration {
                proof {
                    assert(self.decorations@[j as int].key() == (id, decoration, 0u32));
                    lemma_tbl_first_match(self.decorations@, j as int);
                }
                return (ResultCode::Success, rec.argument);
            }
            j = j + 1;
        }
        proof {
            lemma_tbl_no_match(self.decorations@, (id, decoration, 0u32));
        }
        (ResultCode::Success, 0)
    }

    /// Stores `argument` as the decoration `decoration` of `id`, replacing
    /// any stored value.  Fails only when the decoration table is full.
    pub(crate) fn sc_set_decoration(&mut self, id: u32, decoration: u32, argument: u32) -> (r: ResultCode)
        requires
            old(self).wf(),
        ensures
            final(self).wf(),
            r == ResultCode::Success || r == ResultCode::Unhandled,
            (r == ResultCode::Success) <==> (deco_present(old(self).model().decorations, id,
                decoration) || old(self).model().decorations.len() < MAX_TABLE),
            r == ResultCode::Success ==> {
                &&& final(self).model() == old(self).model().with_decorations(
                    final(self).model().decorations,
                )
                &&& tbl_lookup(final(self).model().decorations, (id, decoration, 0)) == Some(
                    DecorationRec { id, decoration, argument },
                )
                &&& forall|k2: (u32, u32, u32)|
                    k2 != (id, decoration, 0u32) ==> #[trigger] tbl_lookup(
                        final(self).model().decorations,
                        k2,
                    ) == tbl_lookup(old(self).model().decorations, k2)
            },
            r != ResultCode::Success ==> final(self).model() == old(self).model(),
    {
        let n = self.decorations.len();
        let mut j: usize = 0;
        while j < n
            invariant
                old(self).wf(),
                self == old(self),
                n == self.decorations@.len(),
                j <= n,
                forall|i: int|
                    0 <= i < j ==> (#[trigger] self.decorations@[i].key()) != (id, decoration, 0u32),
            decreases n - j,
        {
            let cur = self.decorations[j];
            if cur.id == id && cur.decoration == decoration {
                let rec = DecorationRec { id, decoration, argument };
                let ghost s_old = self.decorations@;
                proof {
                    assert(s_old[j as int].key() == (id, decoration, 0u32));
                    assert(rec.key() == (id, decoration, 0u32));
                    assert(tbl_unique(s_old));
                    lemma_tbl_first_match(s_old, j as int);
                    lemma_tbl_update(s_old, j as int, rec);
                }
                self.decorations.set(j, rec);
                proof {
                    let s_new = self.decorations@;
                    assert forall|a: int, b: int|
                        0 <= a < b < s_new.len() implies (#[trigger] s_new[a].key()) != (
                    #[trigger] s_new[b].key()) by {
                        if a == j {
                            assert(s_new[a].key() == s_old[a].key());
                        }
                        if b == j {
                            assert(s_new[b].key() == s_old[b].key());
                        }
                        assert(s_new[a].key() == s_old[a].key());
                        assert(s_new[b].key() == s_old[b].key());
                        assert(s_old[a].key() != s_old[b].key());
                    }
                    assert(tbl_unique(s_new));
                    lemma_tbl_first_match(s_new, j as int);
                }
                return ResultCode::Success;
            }
            j = j + 1;
        }
        proof {
            lemma_tbl_no_match(self.decorations@, (id, decoration, 0u32));
        }
        if self.decorations.len() < MAX_TABLE as usize {
            let rec = DecorationRec { id, decoration, argument };
            let ghost s_old = self.decorations@;
            proof {
                assert(tbl_unique(s_old));
                assert forall|i: int| 0 <= i < s_old.len() implies (#[trigger] s_old[i].key())
                    != rec.key() by {}
                lemma_tbl_push(s_old, rec);
            }
            self.decorations.push(rec);
            proof {
                let s_new = self.decorations@;
                assert forall|a: int, b: int|
                    0 <= a < b < s_new.len() implies (#[trigger] s_new[a].key()) != (
                #[trigger] s_new[b].key()) by {
                    if b < s_old.len() {
                        assert(s_new[a] == s_old[a]);
                        assert(s_new[b] == s_old[b]);
                        assert(s_old[a].key() != s_old[b].key());
                    } else {
                        assert(s_new[b] == rec);
                        assert(s_new[a] == s_old[a]);
                        assert(s_old[a].key() != rec.key());
                    }
                }
                assert(tbl_unique(s_new));
            }
            ResultCode::Success
        } else {
            ResultCode::Unhandled
        }
    }

    /// Removes the decoration `decoration` from `id`; removing an absent
    /// decoration succeeds and changes nothing.
    pub(crate) fn sc_unset_decoration(&mut self, id: u32, decoration: u32) -> (r: ResultCode)
        requires
            old(self).wf(),
        ensures
            final(self).wf(),
            r == ResultCode::Success,
            final(self).model() == old(self).model().with_decorations(
                final(self).model().decorations,
            ),
            tbl_lookup(final(self).model().decorations, (id, decoration, 0))
                == None::<DecorationRec>,
            forall|k2: (u32, u32, u32)|
                k2 != (id, decoration, 0u32) ==> #[trigger] tbl_lookup(
                    final(self).model().decorations,
                    k2,
                ) == tbl_lookup(old(self).model().decorations, k2),
    {
        let n = self.decorations.len();
        let mut j: usize = 0;
        while j < n
            invariant
                old(self).wf(),
                self == old(self),
                n == self.decorations@.len(),
                j <= n,
                forall|i: int|
                    0 <= i < j ==> (#[trigger] self.decorations@[i].key()) != (id, decoration, 0u32),
            decreases n - j,
        {
            let cur = self.decorations[j];
            if cur.id == id && cur.decoration == decoration {
                let ghost s_old = self.decorations@;
                proof {
                    assert(s_old[j as int].key() == (id, decoration, 0u32));
                    assert(tbl_unique(s_old));
                    assert forall|i: int| 0 <= i < s_old.len() && i != j implies (
                    #[trigger] s_old[i].key()) != s_old[j as int].key() by {}
                    lemma_tbl_remove(s_old, j as int);
                }
                self.decorations.remove(j);
                proof {
                    let s_new = self.decorations@;
                    assert forall|a: int, b: int|
                        0 <= a < b < s_new.len() implies (#[trigger] s_new[a].key()) != (
                    #[trigger] s_new[b].key()) by {
                        let a0: int = if a < j { a } else { a + 1 };
                        let b0: int = if b < j { b } else { b + 1 };
                        assert(s_new[a] == s_old[a0]);
                        assert(s_new[b] == s_old[b0]);
                        assert(s_old[a0].key() != s_old[b0].key());
                    }
                    assert(tbl_unique(s_new));
                }
                return ResultCode::Success;
            }
            j = j + 1;
        }
        proof {
            lemma_tbl_no_match(self.decorations@, (id, decoration, 0u32));
        }
        ResultCode::Success
    }
}

} // verus!

verus! {

impl Engine {
    /// Reports the decoration stored for member `member` of struct type
    /// `id`, or `0` when it carries none.
    pub(crate) fn sc_get_member_decoration(&self, id: u32, member: u32, decoration: u32) -> (r: (
        ResultCode,
        u32,
    ))
        requires
            self.wf(),
        ensures
            r.0 == ResultCode::Success,
            r.1 == member_deco_or_zero(self.model().member_decorations, id, member, decoration),
    {
        let n = self.member_decorations.len();
        let mut j: usize = 0;
        while j < n
            invariant
                n == self.member_decorations@.len(),
                j <= n,
                forall|i: int|
                    0 <= i < j ==> (#[trigger] self.member_decorations@[i].key()) != (
                    id,
                    member,
                    decoration,
                ),
            decreases n - j,
        {
            let rec = self.member_decorations[j];
            if rec.id == id && rec.member == member && rec.decoration == decoration {
                proof {
                    assert(self.member_decorations@[j as int].key() == (id, member, decoration));
                    lemma_tbl_first_match(self.member_decorations@, j as int);
                }
                return (ResultCode::Success, rec.argument);
            }
            j = j + 1;
        }
        proof {
            lemma_tbl_no_match(self.member_decorations@, (id, member, decoration));
        }
        (ResultCode::Success, 0)
    }

    /// Stores `argument` as the decoration `decoration` of member `member`
    /// of struct type `id`.  Fails only when the table is full.
    pub(crate) fn sc_set_member_decoration(
        &mut self,
        id: u32,
        member: u32,
        decoration: u32,
        argument: u32,
    ) -> (r: ResultCode)
        requires
            old(self).wf(),
        ensures
            final(self).wf(),
            r == ResultCode::Success || r == ResultCode::Unhandled,
            (r == ResultCode::Success) <==> (tbl_lookup(
                old(self).model().member_decorations,
                (id, member, decoration),
            ) is Some || old(self).model().member_decorations.len() < MAX_TABLE),
            r == ResultCode::Success ==> {
                &&& final(self).model() == old(self).model().with_member_decorations(
                    final(self).model().member_decorations,
                )
                &&& tbl_lookup(final(self).model().member_decorations, (id, member, decoration))
                    == Some(MemberDecorationRec { id, member, decoration, argument })
                &&& forall|k2: (u32, u32, u32)|
                    k2 != (id, member, decoration) ==> #[trigger] tbl_lookup(
                        final(self).model().member_decorations,
                        k2,
                    ) == tbl_lookup(old(self).model().member_decorations, k2)
            },
            r != ResultCode::Success ==> final(self).model() == old(self).model(),
    {
        let n = self.member_decorations.len();
        let mut j: usize = 0;
        while j < n
            invariant
                old(self).wf(),
                self == old(self),
                n == self.member_decorations@.len(),
                j <= n,
                forall|i: int|
                    0 <= i < j ==> (#[trigger] self.member_decorations@[i].key()) != (
                    id,
                    member,
                    decoration,
                ),
            decreases n - j,
        {
            let cur = self.member_decorations[j];
            if cur.id == id && cur.member == member && cur.decoration == decoration {
                let rec = MemberDecorationRec { id, member, decoration, argument };
                let ghost s_old = self.member_decorations@;
                proof {
                    assert(s_old[j as int].key() == (id, member, decoration));
                    assert(rec.key() == (id, member, decoration));
                    assert(tbl_unique(s_old));
                    lemma_tbl_first_match(s_old, j as int);
                    lemma_tbl_update(s_old, j as int, rec);
                }
                self.member_decorations.set(j, rec);
                proof {
                    let s_new = self.member_decorations@;
                    assert forall|a: int, b: int|
                        0 <= a < b < s_new.len() implies (#[trigger] s_new[a].key()) != (
                    #[trigger] s_new[b].key()) by {
                        assert(s_new[a].key() == s_old[a].key());
                        assert(s_new[b].key() == s_old[b].key());
                        assert(s_old[a].key() != s_old[b].key());
                    }
                    assert(tbl_unique(s_new));
                    lemma_tbl_first_match(s_new, j as int);
                }
                return ResultCode::Success;
            }
            j = j + 1;
        }
        proof {
            lemma_tbl_no_match(self.member_decorations@, (id, member, decoration));
        }
        if self.member_decorations.len() < MAX_TABLE as usize {
            let rec = MemberDecorationRec { id, member, decoration, argument };
            let ghost s_old = self.member_decorations@;
            proof {
                assert(tbl_unique(s_old));
                assert forall|i: int| 0 <= i < s_old.len() implies (#[trigger] s_old[i].key())
                    != rec.key() by {}
                lemma_tbl_push(s_old, rec);
            }
            self.member_decorations.push(rec);
            proof {
                let s_new = self.member_decorations@;
                assert forall|a: int, b: int|
                    0 <= a < b < s_new.len() implies (#[trigger] s_new[a].key()) != (
                #[trigger] s_new[b].key()) by {
                    if b < s_old.len() {
                        assert(s_new[a] == s_old[a]);
                        assert(s_new[b] == s_old[b]);
                        assert(s_old[a].key() != s_old[b].key());
                    } else {
                        assert(s_new[b] == rec);
                        assert(s_new[a] == s_old[a]);
                        assert(s_old[a].key() != rec.key());
                    }
                }
                assert(tbl_unique(s_new));
            }
            ResultCode::Success
        } else {
            ResultCode::Unhandled
        }
    }

    /// Stores `name` as the name of `id`, replacing any stored name.  Fails
    /// only when the name table is full.
    pub(crate) fn sc_set_name(&mut self, id: u32, name: Vec<u8>) -> (r: ResultCode)
        requires
            old(self).wf(),
            name_ok(name@),
        ensures
            final(self).wf(),
            r == ResultCode::Success || r == ResultCode::Unhandled,
            (r == ResultCode::Success) <==> (tbl_lookup(old(self).model().names, (id, 0, 0))
                is Some || old(self).model().names.len() < MAX_TABLE),
            r == ResultCode::Success ==> {
                &&& final(self).model() == old(self).model().with_names(final(self).model().names)
                &&& final(self).model().names.len() <= old(self).model().names.len() + 1
                &&& tbl_lookup(final(self).model().names, (id, 0, 0)) == Some(
                    NameModel { id, name: name@ },
                )
                &&& forall|k2: (u32, u32, u32)|
                    k2 != (id, 0u32, 0u32) ==> #[trigger] tbl_lookup(final(self).model().names, k2)
                        == tbl_lookup(old(self).model().names, k2)
            },
            r != ResultCode::Success ==> final(self).model() == old(self).model(),
    {
        let n = self.names.len();
        let mut j: usize = 0;
        while j < n
            invariant
                old(self).wf(),
                self == old(self),
                name_ok(name@),
                n == self.names@.len(),
                j <= n,
                forall|i: int| 0 <= i < j ==> (#[trigger] self.names@[i].id) != id,
            decreases n - j,
        {
            let found = self.names[j].id == id;
            if found {
                let ghost nm = NameModel { id, name: name@ };
                let ghost ms_old = self.names@.map_values(|r: NameRec| r.model());
                proof {
                    assert forall|i: int| 0 <= i < j as int implies (#[trigger] ms_old[i].key())
                        != (id, 0u32, 0u32) by {
                        assert(ms_old[i] == self.names@[i].model());
                    }
                    assert(ms_old[j as int] == self.names@[j as int].model());
                    assert(ms_old[j as int].key() == (id, 0u32, 0u32));
                    assert(nm.key() == (id, 0u32, 0u32));
                    assert(tbl_unique(ms_old));
                    lemma_tbl_first_match(ms_old, j as int);
                    lemma_tbl_update(ms_old, j as int, nm);
                }
                self.names.set(j, NameRec { id, name });
                proof {
                    let ms_new = self.names@.map_values(|r: NameRec| r.model());
                    assert(ms_new =~= ms_old.update(j as int, nm));
                    assert forall|a: int, b: int|
                        0 <= a < b < ms_new.len() implies (#[trigger] ms_new[a].key()) != (
                    #[trigger] ms_new[b].key()) by {
                        assert(ms_new[a].key() == ms_old[a].key());
                        assert(ms_new[b].key() == ms_old[b].key());
                        assert(ms_old[a].key() != ms_old[b].key());
                    }
                    assert(tbl_unique(ms_new));
                    lemma_tbl_first_match(ms_new, j as int);
                    assert forall|i: int|
                        0 <= i < ms_new.len() implies name_ok(#[trigger] ms_new[i].name) by {
                        if i != j {
                            assert(ms_new[i] == ms_old[i]);
                            assert(name_ok(old(self).model().names[i].name));
                        }
                    }
                }
                return ResultCode::Success;
            }
            j = j + 1;
        }
        let ghost ms_old = self.names@.map_values(|r: NameRec| r.model());
        proof {
            assert forall|i: int| 0 <= i < ms_old.len() implies (#[trigger] ms_old[i].key()) != (
            id, 0u32, 0u32) by {
                assert(ms_old[i] == self.names@[i].model());
            }
            lemma_tbl_no_match(ms_old, (id, 0u32, 0u32));
        }
        if self.names.len() < MAX_TABLE as usize {
            let ghost nm = NameModel { id, name: name@ };
            proof {
                assert(tbl_unique(ms_old));
                lemma_tbl_push(ms_old, nm);
            }
            self.names.push(NameRec { id, name });
            proof {
                let ms_new = self.names@.map_values(|r: NameRec| r.model());
                assert(ms_new =~= ms_old.push(nm));
                assert forall|a: int, b: int|
                    0 <= a < b < ms_new.len() implies (#[trigger] ms_new[a].key()) != (
                #[trigger] ms_new[b].key()) by {
                    if b < ms_old.len() {
                        assert(ms_new[a] == ms_old[a]);
                        assert(ms_new[b] == ms_old[b]);
                        assert(ms_old[a].key() != ms_old[b].key());
                    } else {
                        assert(ms_new[b] == nm);
                        assert(ms_new[a] == ms_old[a]);
                        assert(ms_old[a].key() != nm.key());
                    }
                }
                assert(tbl_unique(ms_new));
                assert forall|i: int|
                    0 <= i < ms_new.len() implies name_ok(#[trigger] ms_new[i].name) by {
                    if i < ms_old.len() {
                        assert(ms_new[i] == ms_old[i]);
                        assert(name_ok(old(self).model().names[i].name));
                    }
                }
            }
            ResultCode::Success
        } else {
            ResultCode::Unhandled
        }
    }

    /// Reports the name stored for `id`, or the empty name when none is.
    pub(crate) fn sc_get_name(&self, id: u32) -> (r: Vec<u8>)
        requires
            self.wf(),
        ensures
            r@ == name_of(self.model().names, id),
            name_ok(r@),
    {
        let ghost ms = self.names@.map_values(|r: NameRec| r.model());
        let n = self.names.len();
        let mut j: usize = 0;
        while j < n
            invariant
                self.wf(),
                ms == self.names@.map_values(|r: NameRec| r.model()),
                n == self.names@.len(),
                j <= n,
                forall|i: int| 0 <= i < j ==> (#[trigger] self.names@[i].id) != id,
            decreases n - j,
        {
            if self.names[j].id == id {
                proof {
                    assert forall|i: int| 0 <= i < j as int implies (#[trigger] ms[i].key()) != (
                    id, 0u32, 0u32) by {
                        assert(ms[i] == self.names@[i].model());
                    }
                    assert(ms[j as int] == self.names@[j as int].model());
                    assert(ms[j as int].key() == (id, 0u32, 0u32));
                    lemma_tbl_first_match(ms, j as int);
                    assert(name_ok(ms[j as int].name));
                }
                return vstd::slice::slice_to_vec(self.names[j].name.as_slice());
            }
            j = j + 1;
        }
        proof {
            assert forall|i: int| 0 <= i < ms.len() implies (#[trigger] ms[i].key()) != (
            id, 0u32, 0u32) by {
                assert(ms[i] == self.names@[i].model());
            }
            lemma_tbl_no_match(ms, (id, 0u32, 0u32));
        }
        Vec::new()
    }

    /// Reports the name stored for member `member` of struct type `id`, or
    /// the empty name when none is.
    pub(crate) fn sc_get_member_name(&self, id: u32, member: u32) -> (r: (ResultCode, Vec<u8>))
        requires
            self.wf(),
        ensures
            r.0 == ResultCode::Success,
            r.1@ == member_name_of(self.model().member_names, id, member),
            name_ok(r.1@),
    {
        let ghost ms = self.member_names@.map_values(|r: MemberNameRec| r.model());
        let n = self.member_names.len();
        let mut j: usize = 0;
        while j < n
            invariant
                self.wf(),
                ms == self.member_names@.map_values(|r: MemberNameRec| r.model()),
                n == self.member_names@.len(),
                j <= n,
                forall|i: int|
                    0 <= i < j ==> !((#[trigger] self.member_names@[i].id) == id
                        && self.member_names@[i].member == member),
            decreases n - j,
        {
            let hit = self.member_names[j].id == id && self.member_names[j].member == member;
            if hit {
                proof {
                    assert forall|i: int| 0 <= i < j as int implies (#[trigger] ms[i].key()) != (
                    id, member, 0u32) by {
                        assert(ms[i] == self.member_names@[i].model());
                    }
                    assert(ms[j as int] == self.member_names@[j as int].model());
                    assert(ms[j as int].key() == (id, member, 0u32));
                    lemma_tbl_first_match(ms, j as int);
                    assert(name_ok(ms[j as int].name));
                }
                return (
                    ResultCode::Success,
                    vstd::slice::slice_to_vec(self.member_names[j].name.as_slice()),
                );
            }
            j = j + 1;
        }
        proof {
            assert forall|i: int| 0 <= i < ms.len() implies (#[trigger] ms[i].key()) != (
            id, member, 0u32) by {
                assert(ms[i] == self.member_names@[i].model());
            }
            lemma_tbl_no_match(ms, (id, member, 0u32));
        }
        (ResultCode::Success, Vec::new())
    }

    /// Overrides the value of the scalar (specialization) constant `id`.
    /// Fails when `id` is not a scalar constant of the module.
    pub(crate) fn sc_set_scalar_constant(&mut self, id: u32, value: u64) -> (r: ResultCode)
        requires
            old(self).wf(),
        ensures
            final(self).wf(),
            r == ResultCode::Success || r == ResultCode::Unhandled,
            (r == ResultCode::Success) <==> tbl_lookup(old(self).model().constants, (id, 0, 0))
                is Some,
            r == ResultCode::Success ==> {
                &&& final(self).model() == old(self).model().with_constants(
                    final(self).model().constants,
                )
                &&& tbl_lookup(final(self).model().constants, (id, 0, 0)) matches Some(c2)
                    && c2.value == value && c2.id == id && c2.spec_constant == tbl_lookup(
                    old(self).model().constants,
                    (id, 0, 0),
                )->Some_0.spec_constant
                &&& forall|k2: (u32, u32, u32)|
                    k2 != (id, 0u32, 0u32) ==> #[trigger] tbl_lookup(
                        final(self).model().constants,
                        k2,
                    ) == tbl_lookup(old(self).model().constants, k2)
            },
            r != ResultCode::Success ==> final(self).model() == old(self).model(),
    {
        let n = self.constants.len();
        let mut j: usize = 0;
        while j < n
            invariant
                old(self).wf(),
                self == old(self),
                n == self.constants@.len(),
                j <= n,
                forall|i: int| 0 <= i < j ==> (#[trigger] self.constants@[i].id) != id,
            decreases n - j,
        {
            let cur = self.constants[j];
            if cur.id == id {
                let rec = ConstantRec { id, value, spec_constant: cur.spec_constant };
                let ghost s_old = self.constants@;
                proof {
                    assert forall|i: int| 0 <= i < j as int implies (#[trigger] s_old[i].key())
                        != (id, 0u32, 0u32) by {}
                    assert(s_old[j as int].key() == (id, 0u32, 0u32));
                    assert(rec.key() == (id, 0u32, 0u32));
                    assert(tbl_unique(s_old));
                    lemma_tbl_first_match(s_old, j as int);
                    lemma_tbl_update(s_old, j as int, rec);
                }
                self.constants.set(j, rec);
                proof {
                    let s_new = self.constants@;
                    assert forall|a: int, b: int|
                        0 <= a < b < s_new.len() implies (#[trigger] s_new[a].key()) != (
                    #[trigger] s_new[b].key()) by {
                        assert(s_new[a].key() == s_old[a].key());
                        assert(s_new[b].key() == s_old[b].key());
                        assert(s_old[a].key() != s_old[b].key());
                    }
                    assert(tbl_unique(s_new));
                    lemma_tbl_first_match(s_new, j as int);
                }
                return ResultCode::Success;
            }
            j = j + 1;
        }
        proof {
            assert forall|i: int|
                0 <= i < self.constants@.len() implies (#[trigger] self.constants@[i].key()) != (
            id, 0u32, 0u32) by {}
            lemma_tbl_no_match(self.constants@, (id, 0u32, 0u32));
        }
        ResultCode::Unhandled
    }
}

} // verus!

verus! {

impl Engine {
    /// Whether `id` carries the decoration at all (a present decoration may
    /// have argument `0`, so this is not derivable from the value reply).
    pub(crate) fn sc_has_decoration(&self, id: u32, decoration: u32) -> (r: (ResultCode, bool))
        requires
            self.wf(),
        ensures
            r.0 == ResultCode::Success,
            r.1 == deco_present(self.model().decorations, id, decoration),
    {
        let n = self.decorations.len();
        let mut j: usize = 0;
        while j < n
            invariant
                n == self.decorations@.len(),
                j <= n,
                forall|i: int|
                    0 <= i < j ==> (#[trigger] self.decorations@[i].key()) != (id, decoration, 0u32),
            decreases n - j,
        {
            let rec = self.decorations[j];
            if rec.id == id && rec.decoration == decoration {
                proof {
                    assert(self.decorations@[j as int].key() == (id, decoration, 0u32));
                    lemma_tbl_first_match(self.decorations@, j as int);
                }
                return (ResultCode::Success, true);
            }
            j = j + 1;
        }
        proof {
            lemma_tbl_no_match(self.decorations@, (id, decoration, 0u32));
        }
        (ResultCode::Success, false)
    }
}

} // verus!
