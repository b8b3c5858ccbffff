//! The MSL target: its platform, version and option surface, its two
//! override maps, and the instance lifecycle for it.
//!
//! The override maps enforce key uniqueness by construction; before each
//! compile they are flattened to plain arrays of records, which the handle
//! retains because the code generator consumes them again at compile time.

use crate::compiler;
use crate::emit::emit_msl;
use crate::engine::lemma_tbl_first_match;
use crate::engine::lemma_tbl_no_match;
use crate::engine::lemma_tbl_update;
use crate::engine::tbl_lookup;
use crate::engine::tbl_unique;
use crate::engine::KeySpec;
use crate::engine::RawMslOptions;
use crate::engine::RawResourceBinding;
use crate::engine::RawVertexAttr;
use crate::engine::TargetKind;
use crate::engine::lemma_tbl_push;
use crate::parser::lemma_tbl_push_unique;
use crate::parser::parse_model;
use crate::spirv;
use crate::ErrorCode;
use core::marker::PhantomData;
use vstd::prelude::*;

verus! {

/// The MSL target language.  The type only selects the target; its field is
/// never read (the verifier accepts no uninhabited marker enum).
#[derive(Debug, Clone, Copy)]
pub struct Target {
    marker: bool,
}

/// Per-instance data the MSL target keeps beside the compiler: the
/// flattened override arrays of the last `set_compiler_options`, which the
/// code generator consumes again at compile time.
pub struct TargetData {
    pub vertex_attribute_overrides: Vec<RawVertexAttr>,
    pub resource_binding_overrides: Vec<RawResourceBinding>,
}

impl spirv::Target for Target {
    type Data = TargetData;
}

/// Location of a vertex attribute to override.
#[derive(Copy, Clone, Debug, Hash, Eq, PartialEq, Ord, PartialOrd, Structural)]
pub struct VertexAttributeLocation(pub u32);

/// Format of a vertex attribute.
#[derive(Copy, Clone, Debug, Hash, Eq, PartialEq, Ord, PartialOrd, Structural)]
pub enum Format {
    Other,
    Uint8,
    Uint16,
}

/// The boundary encoding of a vertex format.
pub open spec fn format_raw(f: Format) -> u32 {
    match f {
        Format::Other => 0,
        Format::Uint8 => 1,
        Format::Uint16 => 2,
    }
}

impl Format {
    /// Encodes the format for the boundary.
    fn as_raw(&self) -> (r: u32)
        ensures
            r == format_raw(*self),
    {
        match *self {
            Format::Other => 0,
            Format::Uint8 => 1,
            Format::Uint16 => 2,
        }
    }
}

/// A vertex attribute description for overriding.
#[derive(Copy, Clone, Debug, Hash, Eq, PartialEq, Structural)]
pub struct VertexAttribute {
    pub buffer_id: u32,
    pub offset: u32,
    pub stride: u32,
    pub step: spirv::VertexAttributeStep,
    pub force_used: bool,
    pub format: Format,
}

/// Location of a resource binding to override.
#[derive(Copy, Clone, Debug, Hash, Eq, PartialEq, Ord, PartialOrd, Structural)]
pub struct ResourceBindingLocation {
    pub stage: spirv::ExecutionModel,
    pub desc_set: u32,
    pub binding: u32,
}

/// A resource binding description for overriding.
#[derive(Copy, Clone, Debug, Hash, Eq, PartialEq, Structural)]
pub struct ResourceBinding {
    pub buffer_id: u32,
    pub texture_id: u32,
    pub sampler_id: u32,
    pub force_used: bool,
}

/// One stored resource-binding override.
#[derive(Copy, Clone, Debug, Hash, Eq, PartialEq, Structural)]
pub struct ResourceBindingEntry {
    pub location: ResourceBindingLocation,
    pub binding: ResourceBinding,
}

impl KeySpec for ResourceBindingEntry {
    open spec fn key(&self) -> (u32, u32, u32) {
        (
            crate::compiler::em_raw(self.location.stage),
            self.location.desc_set,
            self.location.binding,
        )
    }
}

/// One stored vertex-attribute override.
#[derive(Copy, Clone, Debug, Hash, Eq, PartialEq, Structural)]
pub struct VertexAttributeEntry {
    pub location: VertexAttributeLocation,
    pub attribute: VertexAttribute,
}

impl KeySpec for VertexAttributeEntry {
    open spec fn key(&self) -> (u32, u32, u32) {
        (self.location.0, 0, 0)
    }
}

/// The key of a resource-binding location.
pub open spec fn rbl_key(loc: ResourceBindingLocation) -> (u32, u32, u32) {
    (crate::compiler::em_raw(loc.stage), loc.desc_set, loc.binding)
}

/// A uniqueness-enforcing map from resource-binding locations to override
/// descriptions; iteration order is the order of first insertion.
pub struct ResourceBindingMap {
    entries: Vec<ResourceBindingEntry>,
}

impl ResourceBindingMap {
    /// The stored entries, in iteration order.
    pub closed spec fn entries_seq(&self) -> Seq<ResourceBindingEntry> {
        self.entries@
    }

    /// One override per location.
    pub closed spec fn wf(&self) -> bool {
        tbl_unique(self.entries@)
    }

    /// The override stored for a location.
    pub closed spec fn stored(&self, loc: ResourceBindingLocation) -> Option<ResourceBinding> {
        match tbl_lookup(self.entries@, rbl_key(loc)) {
            Some(e) => Some(e.binding),
            None => None,
        }
    }

    /// An empty map.
    pub fn new() -> (r: ResourceBindingMap)
        ensures
            r.wf(),
            r.entries_seq() == Seq::<ResourceBindingEntry>::empty(),
            forall|loc: ResourceBindingLocation| #[trigger] r.stored(loc) is None,
    {
        let r = ResourceBindingMap { entries: Vec::new() };
        proof {
            assert(r.entries@ =~= Seq::<ResourceBindingEntry>::empty());
            assert forall|loc: ResourceBindingLocation| #[trigger] r.stored(loc) is None by {
                lemma_tbl_no_match(r.entries@, rbl_key(loc));
            }
        }
        r
    }

    /// Whether the map stores no override.
    pub fn is_empty(&self) -> (r: bool)
        ensures
            r == (self.entries_seq().len() == 0),
    {
        self.entries.len() == 0
    }

    /// How many overrides the map stores.
    pub fn len(&self) -> (r: usize)
        ensures
            r == self.entries_seq().len(),
    {
        self.entries.len()
    }

    /// Stores an override for a location, replacing any stored one: the map
    /// enforces key uniqueness by construction.
    pub fn insert(&mut self, loc: ResourceBindingLocation, binding: ResourceBinding)
        requires
            old(self).wf(),
        ensures
            final(self).wf(),
            final(self).stored(loc) == Some(binding),
            forall|loc2: ResourceBindingLocation|
                rbl_key(loc2) != rbl_key(loc) ==> #[trigger] final(self).stored(loc2) == old(
                    self,
                ).stored(loc2),
            final(self).entries_seq().len() <= old(self).entries_seq().len() + 1,
            (old(self).stored(loc) is None) ==> final(self).entries_seq() == old(
                self,
            ).entries_seq().push((ResourceBindingEntry { location: loc, binding })),
            (old(self).stored(loc) is Some) ==> final(self).entries_seq() == old(
                self,
            ).entries_seq().update(
                crate::engine::tbl_index(old(self).entries_seq(), rbl_key(loc)),
                (ResourceBindingEntry { location: loc, binding }),
            ),
    {
        let rec = ResourceBindingEntry { location: loc, binding };
        let key_stage = loc.stage.as_raw();
        let n = self.entries.len();
        let mut j: usize = 0;
        while j < n
            invariant
                old(self).wf(),
                self == old(self),
                key_stage == crate::compiler::em_raw(loc.stage),
                rec == (ResourceBindingEntry { location: loc, binding }),
                n == self.entries@.len(),
                j <= n,
                forall|i: int| 0 <= i < j ==> (#[trigger] self.entries@[i].key()) != rec.key(),
            decreases n - j,
        {
            let cur = self.entries[j];
            let cur_stage = cur.location.stage.as_raw();
            if cur_stage == key_stage && cur.location.desc_set == loc.desc_set
                && cur.location.binding == loc.binding {
                let ghost s_old = self.entries@;
                proof {
                    assert(s_old[j as int].key() == rec.key());
                    assert(tbl_unique(s_old));
                    lemma_tbl_first_match(s_old, j as int);
                    lemma_tbl_update(s_old, j as int, rec);
                    crate::engine::lemma_tbl_index(s_old, rec.key());
                    let ti = crate::engine::tbl_index(s_old, rec.key());
                    if ti < j {
                        assert(s_old[ti].key() != rec.key());
                        assert(false);
                    }
                    if ti > j {
                        assert(s_old[j as int].key() != rec.key());
                        assert(false);
                    }
                    assert(ti == j);
                }
                self.entries.set(j, rec);
                proof {
                    let s_new = self.entries@;
                    assert forall|a: int, b: int|
                        0 <= a < b < s_new.len() implies (#[trigger] s_new[a].key()) != (
                    #[trigger] s_new[b].key()) by {
                        assert(s_new[a].key() == s_old[a].key());
                        assert(s_new[b].key() == s_old[b].key());
                        assert(s_old[a].key() != s_old[b].key());
                    }
                    assert(tbl_unique(s_new));
                    lemma_tbl_first_match(s_new, j as int);
                }
                return ;
            }
            j = j + 1;
        }
        let ghost s_old = self.entries@;
        proof {
            lemma_tbl_no_match(s_old, rec.key());
            assert(tbl_unique(s_old));
            lemma_tbl_push(s_old, rec);
            lemma_tbl_push_unique(s_old, rec);
        }
        self.entries.push(rec);
    }

    /// Flattens the map to an array of raw override records, in iteration
    /// order.
    pub fn flatten(&self) -> (r: Vec<RawResourceBinding>)
        ensures
            r@ == self.entries_seq().map_values(|e: ResourceBindingEntry| raw_binding_of(e)),
    {
        let n = self.entries.len();
        let mut out: Vec<RawResourceBinding> = Vec::new();
        let mut k: usize = 0;
        while k < n
            invariant
                n == self.entries@.len(),
                k <= n,
                out@ == self.entries@.take(k as int).map_values(
                    |e: ResourceBindingEntry| raw_binding_of(e),
                ),
            decreases n - k,
        {
            let e = self.entries[k];
            out.push(
                RawResourceBinding {
                    stage: e.location.stage.as_raw(),
                    desc_set: e.location.desc_set,
                    binding: e.location.binding,
                    msl_buffer: e.binding.buffer_id,
                    msl_texture: e.binding.texture_id,
                    msl_sampler: e.binding.sampler_id,
                    used_by_shader: e.binding.force_used,
                },
            );
            proof {
                assert(out@ =~= self.entries@.take(k as int + 1).map_values(
                    |e2: ResourceBindingEntry| raw_binding_of(e2),
                ));
            }
            k = k + 1;
        }
        proof {
            assert(self.entries@.take(n as int) =~= self.entries@);
        }
        out
    }
}

impl ResourceBindingMap {
    /// The override stored for a location is what the flattened array the
    /// code generator consumes resolves that location's slot to: the buffer
    /// slot of `(stage, desc_set, binding)` in the flattened overrides is
    /// exactly the stored override's `buffer_id`.
    pub proof fn lemma_stored_resolves_slot(&self, loc: ResourceBindingLocation)
        requires
            self.wf(),
            self.stored(loc) is Some,
        ensures
            crate::emit::msl_buffer_slot(
                self.entries_seq().map_values(|e: ResourceBindingEntry| raw_binding_of(e)),
                crate::compiler::em_raw(loc.stage),
                loc.desc_set,
                loc.binding,
            ) == self.stored(loc)->Some_0.buffer_id,
    {
        let s = self.entries@;
        let k = rbl_key(loc);
        let stage = crate::compiler::em_raw(loc.stage);
        crate::engine::lemma_tbl_index(s, k);
        let j = crate::engine::tbl_index(s, k);
        let mapped = s.map_values(|e: ResourceBindingEntry| raw_binding_of(e));
        assert(mapped[j] == raw_binding_of(s[j]));
        assert(mapped[j].stage == stage && mapped[j].desc_set == loc.desc_set && mapped[j].binding
            == loc.binding);
        assert forall|i: int|
            0 <= i < j implies !((#[trigger] mapped[i]).stage == stage && mapped[i].desc_set
            == loc.desc_set && mapped[i].binding == loc.binding) by {
            assert(mapped[i] == raw_binding_of(s[i]));
            assert(s[i].key() != k);
        }
        crate::emit::lemma_slot_at(mapped, stage, loc.desc_set, loc.binding, j);
    }
}

/// The raw boundary record of one stored resource-binding override.
pub open spec fn raw_binding_of(e: ResourceBindingEntry) -> RawResourceBinding {
    RawResourceBinding {
        stage: crate::compiler::em_raw(e.location.stage),
        desc_set: e.location.desc_set,
        binding: e.location.binding,
        msl_buffer: e.binding.buffer_id,
        msl_texture: e.binding.texture_id,
        msl_sampler: e.binding.sampler_id,
        used_by_shader: e.binding.force_used,
    }
}

/// A uniqueness-enforcing map from vertex-attribute locations to override
/// descriptions; iteration order is the order of first insertion.
pub struct VertexAttributeMap {
    entries: Vec<VertexAttributeEntry>,
}

impl VertexAttributeMap {
    /// The stored entries, in iteration order.
    pub closed spec fn entries_seq(&self) -> Seq<VertexAttributeEntry> {
        self.entries@
    }

    /// One override per location.
    pub closed spec fn wf(&self) -> bool {
        tbl_unique(self.entries@)
    }

    /// The override stored for a location.
    pub closed spec fn stored(&self, loc: VertexAttributeLocation) -> Option<VertexAttribute> {
        match tbl_lookup(self.entries@, (loc.0, 0, 0)) {
            Some(e) => Some(e.attribute),
            None => None,
        }
    }

    /// An empty map.
    pub fn new() -> (r: VertexAttributeMap)
        ensures
            r.wf(),
            r.entries_seq() == Seq::<VertexAttributeEntry>::empty(),
            forall|loc: VertexAttributeLocation| #[trigger] r.stored(loc) is None,
    {
        let r = VertexAttributeMap { entries: Vec::new() };
        proof {
            assert(r.entries@ =~= Seq::<VertexAttributeEntry>::empty());
            assert forall|loc: VertexAttributeLocation| #[trigger] r.stored(loc) is None by {
                lemma_tbl_no_match(r.entries@, (loc.0, 0u32, 0u32));
            }
        }
        r
    }

    /// Whether the map stores no override.
    pub fn is_empty(&self) -> (r: bool)
        ensures
            r == (self.entries_seq().len() == 0),
    {
        self.entries.len() == 0
    }

    /// How many overrides the map stores.
    pub fn len(&self) -> (r: usize)
        ensures
            r == self.entries_seq().len(),
    {
        self.entries.len()
    }

    /// Stores an override for a location, replacing any stored one.
    pub fn insert(&mut self, loc: VertexAttributeLocation, attribute: VertexAttribute)
        requires
            old(self).wf(),
        ensures
            final(self).wf(),
            final(self).stored(loc) == Some(attribute),
            forall|loc2: VertexAttributeLocation|
                loc2.0 != loc.0 ==> #[trigger] final(self).stored(loc2) == old(self).stored(loc2),
            final(self).entries_seq().len() <= old(self).entries_seq().len() + 1,
            (old(self).stored(loc) is None) ==> final(self).entries_seq() == old(
                self,
            ).entries_seq().push((VertexAttributeEntry { location: loc, attribute })),
            (old(self).stored(loc) is Some) ==> final(self).entries_seq() == old(
                self,
            ).entries_seq().update(
                crate::engine::tbl_index(old(self).entries_seq(), (loc.0, 0, 0)),
                (VertexAttributeEntry { location: loc, attribute }),
            ),
    {
        let rec = VertexAttributeEntry { location: loc, attribute };
        let n = self.entries.len();
        let mut j: usize = 0;
        while j < n
            invariant
                old(self).wf(),
                self == old(self),
                rec == (VertexAttributeEntry { location: loc, attribute }),
                n == self.entries@.len(),
                j <= n,
                forall|i: int| 0 <= i < j ==> (#[trigger] self.entries@[i].key()) != rec.key(),
            decreases n - j,
        {
            let cur = self.entries[j];
            if cur.location.0 == loc.0 {
                let ghost s_old = self.entries@;
                proof {
                    assert(s_old[j as int].key() == rec.key());
                    assert(tbl_unique(s_old));
                    lemma_tbl_first_match(s_old, j as int);
                    lemma_tbl_update(s_old, j as int, rec);
                    crate::engine::lemma_tbl_index(s_old, rec.key());
                    let ti = crate::engine::tbl_index(s_old, rec.key());
                    if ti < j {
                        assert(s_old[ti].key() != rec.key());
                        assert(false);
                    }
                    if ti > j {
                        assert(s_old[j as int].key() != rec.key());
                        assert(false);
                    }
                    assert(ti == j);
                }
                self.entries.set(j, rec);
                proof {
                    let s_new = self.entries@;
                    assert forall|a: int, b: int|
                        0 <= a < b < s_new.len() implies (#[trigger] s_new[a].key()) != (
                    #[trigger] s_new[b].key()) by {
                        assert(s_new[a].key() == s_old[a].key());
                        assert(s_new[b].key() == s_old[b].key());
                        assert(s_old[a].key() != s_old[b].key());
                    }
                    assert(tbl_unique(s_new));
                    lemma_tbl_first_match(s_new, j as int);
                }
                return ;
            }
            j = j + 1;
        }
        let ghost s_old = self.entries@;
        proof {
            lemma_tbl_no_match(s_old, rec.key());
            assert(tbl_unique(s_old));
            lemma_tbl_push(s_old, rec);
            lemma_tbl_push_unique(s_old, rec);
        }
        self.entries.push(rec);
    }

    /// Flattens the map to an array of raw override records, in iteration
    /// order.
    pub fn flatten(&self) -> (r: Vec<RawVertexAttr>)
        ensures
            r@ == self.entries_seq().map_values(|e: VertexAttributeEntry| raw_attr_of(e)),
    {
        let n = self.entries.len();
        let mut out: Vec<RawVertexAttr> = Vec::new();
        let mut k: usize = 0;
        while k < n
            invariant
                n == self.entries@.len(),
                k <= n,
                out@ == self.entries@.take(k as int).map_values(
                    |e: VertexAttributeEntry| raw_attr_of(e),
                ),
            decreases n - k,
        {
            let e = self.entries[k];
            let per_instance = match e.attribute.step {
                spirv::VertexAttributeStep::Vertex => false,
                spirv::VertexAttributeStep::Instance => true,
            };
            out.push(
                RawVertexAttr {
                    location: e.location.0,
                    msl_buffer: e.attribute.buffer_id,
                    msl_offset: e.attribute.offset,
                    msl_stride: e.attribute.stride,
                    per_instance,
                    used_by_shader: e.attribute.force_used,
                    format: e.attribute.format.as_raw(),
                },
            );
            proof {
                assert(out@ =~= self.entries@.take(k as int + 1).map_values(
                    |e2: VertexAttributeEntry| raw_attr_of(e2),
                ));
            }
            k = k + 1;
        }
        proof {
            assert(self.entries@.take(n as int) =~= self.entries@);
        }
        out
    }
}

/// The raw boundary record of one stored vertex-attribute override.
pub open spec fn raw_attr_of(e: VertexAttributeEntry) -> RawVertexAttr {
    RawVertexAttr {
        location: e.location.0,
        msl_buffer: e.attribute.buffer_id,
        msl_offset: e.attribute.offset,
        msl_stride: e.attribute.stride,
        per_instance: e.attribute.step == spirv::VertexAttributeStep::Instance,
        used_by_shader: e.attribute.force_used,
        format: format_raw(e.attribute.format),
    }
}

/// An MSL platform.
#[allow(non_camel_case_types)]
#[derive(Copy, Clone, Debug, Hash, Eq, PartialEq, Structural)]
pub enum Platform {
    iOS,
    macOS,
}

/// The boundary encoding of a platform.
pub open spec fn platform_raw(p: Platform) -> u8 {
    match p {
        Platform::iOS => 0,
        Platform::macOS => 1,
    }
}

/// An MSL language version.
#[derive(Copy, Clone, Debug, Hash, Eq, PartialEq, Structural)]
pub enum Version {
    V1_0,
    V1_1,
    V1_2,
    V2_0,
    V2_1,
}

/// The boundary encoding of a version.
pub open spec fn version_raw(v: Version) -> u32 {
    match v {
        Version::V1_0 => 10000,
        Version::V1_1 => 10100,
        Version::V1_2 => 10200,
        Version::V2_0 => 20000,
        Version::V2_1 => 20100,
    }
}

impl Version {
    /// Encodes the version for the boundary.
    fn as_raw(&self) -> (r: u32)
        ensures
            r == version_raw(*self),
    {
        match *self {
            Version::V1_0 => 10000,
            Version::V1_1 => 10100,
            Version::V1_2 => 10200,
            Version::V2_0 => 20000,
            Version::V2_1 => 20100,
        }
    }
}

/// MSL vertex-stage options.
#[derive(Debug, Clone, Hash, Eq, PartialEq)]
pub struct CompilerVertexOptions {
    pub invert_y: bool,
    pub transform_clip_space: bool,
}

impl Default for CompilerVertexOptions {
    /// The vertex options a fresh instance starts with.
    fn default() -> (r: CompilerVertexOptions)
        ensures
            !r.invert_y,
            !r.transform_clip_space,
    {
        CompilerVertexOptions { invert_y: false, transform_clip_space: false }
    }
}

/// MSL compiler options.
pub struct CompilerOptions {
    /// The target platform.
    pub platform: Platform,
    /// The target MSL version.
    pub version: Version,
    /// Vertex compiler options.
    pub vertex: CompilerVertexOptions,
    /// Whether the built-in point size should be enabled.
    pub enable_point_size_builtin: bool,
    /// Whether rasterization should be enabled.
    pub enable_rasterization: bool,
    /// MSL resource binding overrides.
    pub resource_binding_overrides: ResourceBindingMap,
    /// MSL vertex attribute overrides.
    pub vertex_attribute_overrides: VertexAttributeMap,
}

/// The flat boundary encoding of the options.
pub open spec fn options_raw(o: &CompilerOptions) -> RawMslOptions {
    RawMslOptions {
        vertex_invert_y: o.vertex.invert_y,
        vertex_transform_clip_space: o.vertex.transform_clip_space,
        platform: platform_raw(o.platform),
        version: version_raw(o.version),
        enable_point_size_builtin: o.enable_point_size_builtin,
        disable_rasterization: !o.enable_rasterization,
    }
}

impl CompilerOptions {
    /// Flattens the options to their boundary encoding.
    fn as_raw(&self) -> (r: RawMslOptions)
        ensures
            r == options_raw(self),
    {
        let platform: u8 = match self.platform {
            Platform::iOS => 0,
            Platform::macOS => 1,
        };
        RawMslOptions {
            vertex_invert_y: self.vertex.invert_y,
            vertex_transform_clip_space: self.vertex.transform_clip_space,
            platform,
            version: self.version.as_raw(),
            enable_point_size_builtin: self.enable_point_size_builtin,
            disable_rasterization: !self.enable_rasterization,
        }
    }
}

impl Default for CompilerOptions {
    /// The options a fresh instance starts with: macOS, MSL 1.2, point size
    /// enabled, rasterization enabled, no overrides.
    fn default() -> (r: CompilerOptions)
        ensures
            r.platform == Platform::macOS,
            r.version == Version::V1_2,
            !r.vertex.invert_y,
            !r.vertex.transform_clip_space,
            r.enable_point_size_builtin,
            r.enable_rasterization,
            r.resource_binding_overrides.entries_seq().len() == 0,
            r.vertex_attribute_overrides.entries_seq().len() == 0,
            r.resource_binding_overrides.wf(),
            r.vertex_attribute_overrides.wf(),
    {
        CompilerOptions {
            platform: Platform::macOS,
            version: Version::V1_2,
            vertex: CompilerVertexOptions::default(),
            enable_point_size_builtin: true,
            enable_rasterization: true,
            resource_binding_overrides: ResourceBindingMap::new(),
            vertex_attribute_overrides: VertexAttributeMap::new(),
        }
    }
}

impl spirv::Parse<Target> for spirv::Ast<Target> {
    open spec fn parse_post(words: Seq<u32>, r: &Result<Self, ErrorCode>) -> bool {
        match r {
            Ok(ast) => {
                &&& ast.wf()
                &&& parse_model(TargetKind::Msl, words) == Some(ast.model())
                &&& ast.target_kind() == TargetKind::Msl
                &&& !ast.compiled()
                &&& ast.transport_live() == 1
            },
            Err(e) => (parse_model(TargetKind::Msl, words) is None) && (e matches ErrorCode::CompilationError(m)
                && m@ == crate::compiler::diag_chars()),
        }
    }

    fn parse(module: &spirv::Module) -> (r: Result<Self, ErrorCode>) {
        proof {
            module.lemma_words();
        }
        match compiler::Compiler::construct(
            TargetKind::Msl,
            module.words,
            TargetData {
                vertex_attribute_overrides: Vec::new(),
                resource_binding_overrides: Vec::new(),
            },
        ) {
            Ok(compiler) => {
                let ast = spirv::Ast { compiler, target_type: PhantomData };
                proof {
                    ast.lemma_state();
                }
                Ok(ast)
            },
            Err(e) => Err(e),
        }
    }
}

impl spirv::Compile<Target> for spirv::Ast<Target> {
    type CompilerOptions = CompilerOptions;

    open spec fn ready(&self) -> bool {
        &&& self.wf()
        &&& !self.compiled()
    }

    open spec fn set_options_post(
        old_self: &Self,
        new_self: &Self,
        options: &CompilerOptions,
        r: &Result<(), ErrorCode>,
    ) -> bool {
        &&& new_self.wf()
        &&& r is Ok
        &&& new_self.model() == old_self.model().with_msl_options(options_raw(options))
        &&& new_self.data().resource_binding_overrides@
            == options.resource_binding_overrides.entries_seq().map_values(
            |e: ResourceBindingEntry| raw_binding_of(e),
        )
        &&& new_self.data().vertex_attribute_overrides@
            == options.vertex_attribute_overrides.entries_seq().map_values(
            |e: VertexAttributeEntry| raw_attr_of(e),
        )
        &&& new_self.compiled() == old_self.compiled()
        &&& new_self.target_kind() == old_self.target_kind()
    }

    open spec fn compile_post(old_self: &Self, new_self: &Self, r: &Result<
        String,
        ErrorCode,
    >) -> bool {
        &&& new_self.wf()
        &&& new_self.model() == old_self.model()
        &&& new_self.compiled()
        &&& new_self.target_kind() == old_self.target_kind()
        &&& r matches Ok(s) && s@ == emit_msl(
            old_self.model(),
            old_self.data().resource_binding_overrides@,
        )
    }

    /// Sets MSL-specific compilation options, and retains the flattened
    /// override arrays for compile time.
    fn set_compiler_options(&mut self, options: &CompilerOptions) -> (r: Result<(), ErrorCode>) {
        proof {
            old(self).lemma_state();
        }
        let raw = options.as_raw();
        self.compiler.set_msl_options(raw);
        let data = TargetData {
            vertex_attribute_overrides: options.vertex_attribute_overrides.flatten(),
            resource_binding_overrides: options.resource_binding_overrides.flatten(),
        };
        self.compiler.replace_data(data);
        proof {
            self.lemma_state();
        }
        Ok(())
    }

    /// Generates MSL source for the module, consuming the retained override
    /// arrays.
    fn compile(&mut self) -> (r: Result<String, ErrorCode>) {
        proof {
            old(self).lemma_state();
        }
        self.compiler.mark_compiled();
        let data = self.compiler.borrow_data();
        let text = self.compiler.emit_msl_text(&data.resource_binding_overrides);
        proof {
            self.lemma_state();
        }
        Ok(text)
    }
}

impl spirv::Ast<Target> {
    /// Whether rasterization is enabled under the stored options.
    pub fn is_rasterization_enabled(&self) -> (r: Result<bool, ErrorCode>)
        requires
            self.wf(),
        ensures
            r == Ok::<bool, ErrorCode>(!self.model().msl_options.disable_rasterization),
    {
        proof {
            self.lemma_state();
        }
        let opts = self.compiler.msl_options();
        Ok(!opts.disable_rasterization)
    }
}

} // verus!
