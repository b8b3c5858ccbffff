//! The GLSL target: its version and option surface, and the instance
//! lifecycle for it.

use crate::compiler;
use crate::emit::emit_glsl;
use crate::emit::emit_glsl_exec;
use crate::engine::RawGlslOptions;
use crate::engine::TargetKind;
use crate::parser::parse_model;
use crate::spirv;
use crate::ErrorCode;
use core::marker::PhantomData;
use vstd::prelude::*;

verus! {

/// The GLSL target language.  The type only selects the target; its field is
/// never read (the verifier accepts no uninhabited marker enum).
#[derive(Debug, Clone, Copy)]
pub struct Target {
    marker: bool,
}

/// Per-instance data the GLSL target keeps beside the compiler.
pub struct TargetData {
    pub(crate) combined_image_samplers_built: bool,
}

impl spirv::Target for Target {
    type Data = TargetData;
}

/// A GLSL language version.
#[derive(Copy, Clone, Debug, Hash, Eq, PartialEq, Structural)]
pub enum Version {
    V1_10,
    V1_20,
    V1_30,
    V1_40,
    V1_50,
    V3_30,
    V4_00,
    V4_10,
    V4_20,
    V4_30,
    V4_40,
    V4_50,
    V4_60,
    V1_00Es,
    V3_00Es,
}

/// The boundary encoding of a version: the numeric directive and whether it
/// is an ES profile.
pub open spec fn version_raw(v: Version) -> (u32, bool) {
    match v {
        Version::V1_10 => (110, false),
        Version::V1_20 => (120, false),
        Version::V1_30 => (130, false),
        Version::V1_40 => (140, false),
        Version::V1_50 => (150, false),
        Version::V3_30 => (330, false),
        Version::V4_00 => (400, false),
        Version::V4_10 => (410, false),
        Version::V4_20 => (420, false),
        Version::V4_30 => (430, false),
        Version::V4_40 => (440, false),
        Version::V4_50 => (450, false),
        Version::V4_60 => (460, false),
        Version::V1_00Es => (100, true),
        Version::V3_00Es => (300, true),
    }
}

/// GLSL vertex-stage options.
#[derive(Debug, Clone)]
pub struct CompilerVertexOptions {
    pub invert_y: bool,
    pub transform_clip_space: bool,
    pub support_nonzero_base_instance: bool,
}

impl Default for CompilerVertexOptions {
    /// The vertex options a fresh instance starts with.
    fn default() -> (r: CompilerVertexOptions)
        ensures
            !r.invert_y,
            !r.transform_clip_space,
            r.support_nonzero_base_instance,
    {
        CompilerVertexOptions {
            invert_y: false,
            transform_clip_space: false,
            support_nonzero_base_instance: true,
        }
    }
}

/// A default precision qualifier.
#[derive(Copy, Clone, Debug, Hash, Eq, PartialEq, Structural)]
pub enum Precision {
    DontCare,
    Low,
    Medium,
    High,
}

/// The boundary encoding of a precision qualifier.
pub open spec fn precision_raw(p: Precision) -> u8 {
    match p {
        Precision::DontCare => 0,
        Precision::Low => 1,
        Precision::Medium => 2,
        Precision::High => 3,
    }
}

/// GLSL fragment-stage options.
#[derive(Debug, Clone)]
pub struct CompilerFragmentOptions {
    pub default_float_precision: Precision,
    pub default_int_precision: Precision,
}

impl Default for CompilerFragmentOptions {
    /// The fragment options a fresh instance starts with.
    fn default() -> (r: CompilerFragmentOptions)
        ensures
            r.default_float_precision == Precision::Medium,
            r.default_int_precision == Precision::High,
    {
        CompilerFragmentOptions {
            default_float_precision: Precision::Medium,
            default_int_precision: Precision::High,
        }
    }
}

/// GLSL compiler options.
#[derive(Debug, Clone)]
pub struct CompilerOptions {
    pub version: Version,
    pub force_temporary: bool,
    pub vulkan_semantics: bool,
    pub separate_shader_objects: bool,
    pub flatten_multidimensional_arrays: bool,
    pub enable_420_pack_extension: bool,
    pub emit_push_constant_as_uniform_buffer: bool,
    pub emit_uniform_buffer_as_plain_uniforms: bool,
    pub emit_line_directives: bool,
    pub enable_storage_image_qualifier_deduction: bool,
    pub force_zero_initialized_variables: bool,
    pub vertex: CompilerVertexOptions,
    pub fragment: CompilerFragmentOptions,
}

/// The flat boundary encoding of the options.
pub open spec fn options_raw(o: &CompilerOptions) -> RawGlslOptions {
    RawGlslOptions {
        version: version_raw(o.version).0,
        es: version_raw(o.version).1,
        vertex_invert_y: o.vertex.invert_y,
        vertex_transform_clip_space: o.vertex.transform_clip_space,
        vertex_support_nonzero_base_instance: o.vertex.support_nonzero_base_instance,
        fragment_default_float_precision: precision_raw(o.fragment.default_float_precision),
        fragment_default_int_precision: precision_raw(o.fragment.default_int_precision),
        force_temporary: o.force_temporary,
        vulkan_semantics: o.vulkan_semantics,
        separate_shader_objects: o.separate_shader_objects,
        flatten_multidimensional_arrays: o.flatten_multidimensional_arrays,
        enable_420_pack_extension: o.enable_420_pack_extension,
        emit_push_constant_as_uniform_buffer: o.emit_push_constant_as_uniform_buffer,
        emit_uniform_buffer_as_plain_uniforms: o.emit_uniform_buffer_as_plain_uniforms,
        emit_line_directives: o.emit_line_directives,
        enable_storage_image_qualifier_deduction: o.enable_storage_image_qualifier_deduction,
        force_zero_initialized_variables: o.force_zero_initialized_variables,
    }
}

impl CompilerOptions {
    /// Flattens the options to their boundary encoding.
    fn as_raw(&self) -> (r: RawGlslOptions)
        ensures
            r == options_raw(self),
    {
        let (version, es) = match self.version {
            Version::V1_10 => (110, false),
            Version::V1_20 => (120, false),
            Version::V1_30 => (130, false),
            Version::V1_40 => (140, false),
            Version::V1_50 => (150, false),
            Version::V3_30 => (330, false),
            Version::V4_00 => (400, false),
            Version::V4_10 => (410, false),
            Version::V4_20 => (420, false),
            Version::V4_30 => (430, false),
            Version::V4_40 => (440, false),
            Version::V4_50 => (450, false),
            Version::V4_60 => (460, false),
            Version::V1_00Es => (100, true),
            Version::V3_00Es => (300, true),
        };
        let fp = match self.fragment.default_float_precision {
            Precision::DontCare => 0,
            Precision::Low => 1,
            Precision::Medium => 2,
            Precision::High => 3,
        };
        let ip = match self.fragment.default_int_precision {
            Precision::DontCare => 0,
            Precision::Low => 1,
            Precision::Medium => 2,
            Precision::High => 3,
        };
        RawGlslOptions {
            version,
            es,
            vertex_invert_y: self.vertex.invert_y,
            vertex_transform_clip_space: self.vertex.transform_clip_space,
            vertex_support_nonzero_base_instance: self.vertex.support_nonzero_base_instance,
            fragment_default_float_precision: fp,
            fragment_default_int_precision: ip,
            force_temporary: self.force_temporary,
            vulkan_semantics: self.vulkan_semantics,
            separate_shader_objects: self.separate_shader_objects,
            flatten_multidimensional_arrays: self.flatten_multidimensional_arrays,
            enable_420_pack_extension: self.enable_420_pack_extension,
            emit_push_constant_as_uniform_buffer: self.emit_push_constant_as_uniform_buffer,
            emit_uniform_buffer_as_plain_uniforms: self.emit_uniform_buffer_as_plain_uniforms,
            emit_line_directives: self.emit_line_directives,
            enable_storage_image_qualifier_deduction:
                self.enable_storage_image_qualifier_deduction,
            force_zero_initialized_variables: self.force_zero_initialized_variables,
        }
    }
}

impl Default for CompilerOptions {
    /// The options a fresh instance starts with.
    fn default() -> (r: CompilerOptions)
        ensures
            r.version == Version::V4_50,
            !r.force_temporary,
            !r.vulkan_semantics,
            !r.separate_shader_objects,
            !r.flatten_multidimensional_arrays,
            r.enable_420_pack_extension,
            !r.emit_push_constant_as_uniform_buffer,
            !r.emit_uniform_buffer_as_plain_uniforms,
            !r.emit_line_directives,
            r.enable_storage_image_qualifier_deduction,
            !r.force_zero_initialized_variables,
            !r.vertex.invert_y,
            !r.vertex.transform_clip_space,
            r.vertex.support_nonzero_base_instance,
            r.fragment.default_float_precision == Precision::Medium,
            r.fragment.default_int_precision == Precision::High,
    {
        CompilerOptions {
            version: Version::V4_50,
            force_temporary: false,
            vulkan_semantics: false,
            separate_shader_objects: false,
            flatten_multidimensional_arrays: false,
            enable_420_pack_extension: true,
            emit_push_constant_as_uniform_buffer: false,
            emit_uniform_buffer_as_plain_uniforms: false,
            emit_line_directives: false,
            enable_storage_image_qualifier_deduction: true,
            force_zero_initialized_variables: false,
            vertex: CompilerVertexOptions::default(),
            fragment: CompilerFragmentOptions::default(),
        }
    }
}

impl spirv::Parse<Target> for spirv::Ast<Target> {
    open spec fn parse_post(words: Seq<u32>, r: &Result<Self, ErrorCode>) -> bool {
        match r {
            Ok(ast) => {
                &&& ast.wf()
                &&& parse_model(TargetKind::Glsl, words) == Some(ast.model())
                &&& ast.target_kind() == TargetKind::Glsl
                &&& !ast.compiled()
                &&& ast.transport_live() == 1
            },
            Err(e) => (parse_model(TargetKind::Glsl, words) is None) && (e matches ErrorCode::CompilationError(m)
                && m@ == crate::compiler::diag_chars()),
        }
    }

    fn parse(module: &spirv::Module) -> (r: Result<Self, ErrorCode>) {
        proof {
            module.lemma_words();
        }
        match compiler::Compiler::construct(
            TargetKind::Glsl,
            module.words,
            TargetData { combined_image_samplers_built: false },
        ) {
            Ok(compiler) => {
                let ast = spirv::Ast { compiler, target_type: PhantomData };
                proof {
                    ast.lemma_state();
                }
                Ok(ast)
            },
            Err(e) => Err(e),
        }
    }
}

impl spirv::Compile<Target> for spirv::Ast<Target> {
    type CompilerOptions = CompilerOptions;

    open spec fn ready(&self) -> bool {
        &&& self.wf()
        &&& !self.compiled()
    }

    open spec fn set_options_post(
        old_self: &Self,
        new_self: &Self,
        options: &CompilerOptions,
        r: &Result<(), ErrorCode>,
    ) -> bool {
        &&& new_self.wf()
        &&& r is Ok
        &&& new_self.model() == old_self.model().with_glsl_options(options_raw(options))
        &&& new_self.compiled() == old_self.compiled()
        &&& new_self.target_kind() == old_self.target_kind()
    }

    open spec fn compile_post(old_self: &Self, new_self: &Self, r: &Result<
        String,
        ErrorCode,
    >) -> bool {
        &&& new_self.wf()
        &&& new_self.model() == old_self.model()
        &&& new_self.compiled()
        &&& new_self.target_kind() == old_self.target_kind()
        &&& r matches Ok(s) && s@ == emit_glsl(old_self.model().glsl_options)
    }

    /// Sets GLSL-specific compilation options, flattened to their boundary
    /// encoding.
    fn set_compiler_options(&mut self, options: &CompilerOptions) -> (r: Result<(), ErrorCode>) {
        proof {
            old(self).lemma_state();
        }
        let raw = options.as_raw();
        self.compiler.set_glsl_options(raw);
        proof {
            self.lemma_state();
        }
        Ok(())
    }

    /// Generates GLSL source for the module under the stored options.
    fn compile(&mut self) -> (r: Result<String, ErrorCode>) {
        proof {
            old(self).lemma_state();
        }
        self.compiler.mark_compiled();
        let opts = self.compiler.glsl_options();
        let text = emit_glsl_exec(&opts);
        proof {
            self.lemma_state();
        }
        Ok(text)
    }
}

impl spirv::Ast<Target> {
    /// Builds combined image samplers once per instance; later calls do
    /// nothing.
    pub fn build_combined_image_samplers(&mut self) -> (r: Result<(), ErrorCode>)
        requires
            old(self).wf(),
        ensures
            final(self).wf(),
            final(self).model() == old(self).model(),
            final(self).compiled() == old(self).compiled(),
            final(self).target_kind() == old(self).target_kind(),
            r is Ok,
    {
        proof {
            old(self).lemma_state();
        }
        if !self.compiler.borrow_data().combined_image_samplers_built {
            self.compiler.replace_data(TargetData { combined_image_samplers_built: true });
        }
        proof {
            self.lemma_state();
        }
        Ok(())
    }

    /// Reports the combined image samplers the instance built; this layer's
    /// core combines none, so the list is empty.
    pub fn get_combined_image_samplers(&mut self) -> (r: Result<
        Vec<spirv::CombinedImageSampler>,
        ErrorCode,
    >)
        requires
            old(self).wf(),
        ensures
            final(self).wf(),
            final(self).model() == old(self).model(),
            final(self).compiled() == old(self).compiled(),
            final(self).target_kind() == old(self).target_kind(),
            r matches Ok(v) && v@ == Seq::<spirv::CombinedImageSampler>::empty(),
    {
        proof {
            old(self).lemma_state();
        }
        self.build_combined_image_samplers()?;
        let samplers: Vec<spirv::CombinedImageSampler> = Vec::new();
        proof {
            assert(samplers@ =~= Seq::<spirv::CombinedImageSampler>::empty());
        }
        Ok(samplers)
    }
}

} // verus!
