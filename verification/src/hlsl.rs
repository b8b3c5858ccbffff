//! The HLSL target: its shader-model and option surface, and the instance
//! lifecycle for it.

use crate::compiler;
use crate::emit::emit_hlsl;
use crate::emit::emit_hlsl_exec;
use crate::engine::RawHlslOptions;
use crate::engine::RawRootConstant;
use crate::engine::TargetKind;
use crate::parser::parse_model;
use crate::spirv;
use crate::ErrorCode;
use core::marker::PhantomData;
use vstd::prelude::*;

verus! {

/// The HLSL target language.  The type only selects the target; its field is
/// never read (the verifier accepts no uninhabited marker enum).
#[derive(Debug, Clone, Copy)]
pub struct Target {
    marker: bool,
}

impl spirv::Target for Target {
    type Data = ();
}

/// One root-constant range to lay out.
#[derive(Copy, Clone, Debug, Hash, Eq, PartialEq, Structural)]
pub struct RootConstant {
    pub start: u32,
    pub end: u32,
    pub binding: u32,
    pub space: u32,
}

/// An HLSL shader model version.
#[derive(Copy, Clone, Debug, Hash, Eq, PartialEq, Structural)]
pub enum ShaderModel {
    V3_0,
    V4_0,
    V4_0L9_0,
    V4_0L9_1,
    V4_0L9_3,
    V4_1,
    V5_0,
    V5_1,
    V6_0,
}

/// The boundary encoding of a shader model; the level-9 profiles share the
/// encoding of shader model 4.0.
pub open spec fn shader_model_raw(m: ShaderModel) -> i32 {
    match m {
        ShaderModel::V3_0 => 30,
        ShaderModel::V4_0 => 40,
        ShaderModel::V4_0L9_0 => 40,
        ShaderModel::V4_0L9_1 => 40,
        ShaderModel::V4_0L9_3 => 40,
        ShaderModel::V4_1 => 41,
        ShaderModel::V5_0 => 50,
        ShaderModel::V5_1 => 51,
        ShaderModel::V6_0 => 60,
    }
}

impl ShaderModel {
    /// Encodes the shader model for the boundary.
    fn as_raw(&self) -> (r: i32)
        ensures
            r == shader_model_raw(*self),
    {
        match *self {
            ShaderModel::V3_0 => 30,
            ShaderModel::V4_0 => 40,
            ShaderModel::V4_0L9_0 => 40,
            ShaderModel::V4_0L9_1 => 40,
            ShaderModel::V4_0L9_3 => 40,
            ShaderModel::V4_1 => 41,
            ShaderModel::V5_0 => 50,
            ShaderModel::V5_1 => 51,
            ShaderModel::V6_0 => 60,
        }
    }
}

/// HLSL vertex-stage options.
#[derive(Debug, Clone)]
pub struct CompilerVertexOptions {
    pub invert_y: bool,
    pub transform_clip_space: bool,
}

impl Default for CompilerVertexOptions {
    /// The vertex options a fresh instance starts with.
    fn default() -> (r: CompilerVertexOptions)
        ensures
            !r.invert_y,
            !r.transform_clip_space,
    {
        CompilerVertexOptions { invert_y: false, transform_clip_space: false }
    }
}

/// HLSL compiler options.
#[derive(Debug, Clone)]
pub struct CompilerOptions {
    pub shader_model: ShaderModel,
    pub vertex: CompilerVertexOptions,
    pub root_constants_layout: Vec<RootConstant>,
}

/// The flat boundary encoding of the options.
pub open spec fn options_raw(o: &CompilerOptions) -> RawHlslOptions {
    RawHlslOptions {
        shader_model: shader_model_raw(o.shader_model),
        vertex_invert_y: o.vertex.invert_y,
        vertex_transform_clip_space: o.vertex.transform_clip_space,
    }
}

/// The boundary encoding of one root-constant range.
pub open spec fn root_constant_raw(c: RootConstant) -> RawRootConstant {
    RawRootConstant { start: c.start, end: c.end, binding: c.binding, space: c.space }
}

impl CompilerOptions {
    /// Flattens the options to their boundary encoding.
    fn as_raw(&self) -> (r: RawHlslOptions)
        ensures
            r == options_raw(self),
    {
        RawHlslOptions {
            shader_model: self.shader_model.as_raw(),
            vertex_invert_y: self.vertex.invert_y,
            vertex_transform_clip_space: self.vertex.transform_clip_space,
        }
    }
}

impl Default for CompilerOptions {
    /// The options a fresh instance starts with.
    fn default() -> (r: CompilerOptions)
        ensures
            r.shader_model == ShaderModel::V3_0,
            !r.vertex.invert_y,
            !r.vertex.transform_clip_space,
            r.root_constants_layout@ == Seq::<RootConstant>::empty(),
    {
        let root_constants_layout: Vec<RootConstant> = Vec::new();
        proof {
            assert(root_constants_layout@ =~= Seq::<RootConstant>::empty());
        }
        CompilerOptions {
            shader_model: ShaderModel::V3_0,
            vertex: CompilerVertexOptions::default(),
            root_constants_layout,
        }
    }
}

impl spirv::Parse<Target> for spirv::Ast<Target> {
    open spec fn parse_post(words: Seq<u32>, r: &Result<Self, ErrorCode>) -> bool {
        match r {
            Ok(ast) => {
                &&& ast.wf()
                &&& parse_model(TargetKind::Hlsl, words) == Some(ast.model())
                &&& ast.target_kind() == TargetKind::Hlsl
                &&& !ast.compiled()
                &&& ast.transport_live() == 1
            },
            Err(e) => (parse_model(TargetKind::Hlsl, words) is None) && (e matches ErrorCode::CompilationError(m)
                && m@ == crate::compiler::diag_chars()),
        }
    }

    fn parse(module: &spirv::Module) -> (r: Result<Self, ErrorCode>) {
        proof {
            module.lemma_words();
        }
        match compiler::Compiler::construct(TargetKind::Hlsl, module.words, ()) {
            Ok(compiler) => {
                let ast = spirv::Ast { compiler, target_type: PhantomData };
                proof {
                    ast.lemma_state();
                }
                Ok(ast)
            },
            Err(e) => Err(e),
        }
    }
}

impl spirv::Compile<Target> for spirv::Ast<Target> {
    type CompilerOptions = CompilerOptions;

    open spec fn ready(&self) -> bool {
        &&& self.wf()
        &&& !self.compiled()
    }

    open spec fn set_options_post(
        old_self: &Self,
        new_self: &Self,
        options: &CompilerOptions,
        r: &Result<(), ErrorCode>,
    ) -> bool {
        &&& new_self.wf()
        &&& r is Ok
        &&& new_self.model() == old_self.model().with_hlsl_options(
            options_raw(options),
            options.root_constants_layout@.map_values(|c: RootConstant| root_constant_raw(c)),
        )
        &&& new_self.compiled() == old_self.compiled()
        &&& new_self.target_kind() == old_self.target_kind()
    }

    open spec fn compile_post(old_self: &Self, new_self: &Self, r: &Result<
        String,
        ErrorCode,
    >) -> bool {
        &&& new_self.wf()
        &&& new_self.model() == old_self.model()
        &&& new_self.compiled()
        &&& new_self.target_kind() == old_self.target_kind()
        &&& r matches Ok(s) && s@ == emit_hlsl(old_self.model().hlsl_options)
    }

    /// Sets HLSL-specific compilation options and the root-constant layout,
    /// flattened to their boundary encoding.
    fn set_compiler_options(&mut self, options: &CompilerOptions) -> (r: Result<(), ErrorCode>) {
        proof {
            old(self).lemma_state();
        }
        let raw = options.as_raw();
        let n = options.root_constants_layout.len();
        let mut roots: Vec<RawRootConstant> = Vec::new();
        let mut k: usize = 0;
        while k < n
            invariant
                n == options.root_constants_layout@.len(),
                k <= n,
                roots@ == options.root_constants_layout@.take(k as int).map_values(
                    |c: RootConstant| root_constant_raw(c),
                ),
            decreases n - k,
        {
            let c = options.root_constants_layout[k];
            roots.push(RawRootConstant { start: c.start, end: c.end, binding: c.binding, space: c.space });
            proof {
                assert(roots@ =~= options.root_constants_layout@.take(k as int + 1).map_values(
                    |c2: RootConstant| root_constant_raw(c2),
                ));
            }
            k = k + 1;
        }
        proof {
            assert(options.root_constants_layout@.take(n as int) =~= options.root_constants_layout@);
        }
        self.compiler.set_hlsl_options(raw, roots);
        proof {
            self.lemma_state();
        }
        Ok(())
    }

    /// Generates HLSL source for the module under the stored options.
    fn compile(&mut self) -> (r: Result<String, ErrorCode>) {
        proof {
            old(self).lemma_state();
        }
        self.compiler.mark_compiled();
        let opts = self.compiler.hlsl_options();
        let text = emit_hlsl_exec(&opts);
        proof {
            self.lemma_state();
        }
        Ok(text)
    }
}

} // verus!
