use spirv_cross::glsl;
use spirv_cross::hlsl;
use spirv_cross::msl;
use spirv_cross::spirv;

fn inst(op: u32, operands: &[u32]) -> Vec<u32> {
    let mut words = Vec::new();
    let wc = (1 + operands.len()) as u32;
    words.push((wc << 16) | op);
    for w in operands {
        words.push(*w);
    }
    words
}

fn inst_str(op: u32, operands: &[u32], text: &str) -> Vec<u32> {
    let mut bytes: Vec<u8> = text.as_bytes().to_vec();
    bytes.push(0);
    while bytes.len() % 4 != 0 {
        bytes.push(0);
    }
    let mut words = Vec::new();
    let wc = (1 + operands.len() + bytes.len() / 4) as u32;
    words.push((wc << 16) | op);
    for w in operands {
        words.push(*w);
    }
    let mut k = 0;
    while k < bytes.len() {
        let w = (bytes[k] as u32)
            | ((bytes[k + 1] as u32) << 8)
            | ((bytes[k + 2] as u32) << 16)
            | ((bytes[k + 3] as u32) << 24);
        words.push(w);
        k += 4;
    }
    words
}

fn vertex_module_words() -> Vec<u32> {
    let mut words = vec![0x0723_0203u32, 0x0001_0000, 0, 100, 0];
    words.extend(inst_str(15, &[0, 4], "main"));
    words.extend(inst_str(5, &[9], "uniform_buffer_object"));
    words.extend(inst_str(5, &[10], "a_position"));
    words.extend(inst_str(5, &[11], "a_normal"));
    words.extend(inst_str(5, &[12], "v_normal"));
    words.extend(inst_str(6, &[3, 0], "u_mvp"));
    words.extend(inst(71, &[3, 2]));
    words.extend(inst(71, &[9, 33, 0]));
    words.extend(inst(71, &[9, 34, 0]));
    words.extend(inst(71, &[10, 30, 0]));
    words.extend(inst(71, &[11, 30, 1]));
    words.extend(inst(71, &[20, 1, 1]));
    words.extend(inst(72, &[3, 0, 35, 16]));
    words.extend(inst(22, &[2, 32]));
    words.extend(inst(30, &[3, 2]));
    words.extend(inst(32, &[5, 2, 3]));
    words.extend(inst(32, &[6, 1, 2]));
    words.extend(inst(32, &[7, 3, 2]));
    words.extend(inst(50, &[2, 20, 3]));
    words.extend(inst(59, &[5, 9, 2]));
    words.extend(inst(59, &[6, 10, 1]));
    words.extend(inst(59, &[6, 11, 1]));
    words.extend(inst(59, &[7, 12, 3]));
    words
}

#[test]
fn glsl_compile_emits_requested_version() {
    let words = vertex_module_words();
    let module = spirv::Module::from_words(&words);
    let mut ast = spirv::Ast::<glsl::Target>::parse(&module).unwrap();
    let mut options = glsl::CompilerOptions::default();
    options.version = glsl::Version::V4_60;
    ast.set_compiler_options(&options).unwrap();
    let text = ast.compile().unwrap();
    assert!(text.starts_with("#version 460\n"));
}

#[test]
fn glsl_compile_defaults_to_450() {
    let words = vertex_module_words();
    let module = spirv::Module::from_words(&words);
    let mut ast = spirv::Ast::<glsl::Target>::parse(&module).unwrap();
    let text = ast.compile().unwrap();
    assert!(text.starts_with("#version 450\n"));
}

#[test]
fn glsl_compile_emits_es_profile() {
    let words = vertex_module_words();
    let module = spirv::Module::from_words(&words);
    let mut ast = spirv::Ast::<glsl::Target>::parse(&module).unwrap();
    let mut options = glsl::CompilerOptions::default();
    options.version = glsl::Version::V3_00Es;
    ast.set_compiler_options(&options).unwrap();
    let text = ast.compile().unwrap();
    assert!(text.starts_with("#version 300 es\n"));
}

#[test]
fn hlsl_compile_emits_shader_model() {
    let words = vertex_module_words();
    let module = spirv::Module::from_words(&words);
    let mut ast = spirv::Ast::<hlsl::Target>::parse(&module).unwrap();
    let options = hlsl::CompilerOptions {
        shader_model: hlsl::ShaderModel::V6_0,
        vertex: hlsl::CompilerVertexOptions::default(),
        root_constants_layout: Vec::new(),
    };
    ast.set_compiler_options(&options).unwrap();
    let text = ast.compile().unwrap();
    assert!(text.starts_with("// shader model 60\n"));
}

#[test]
fn msl_default_binding_uses_decorated_slot() {
    let words = vertex_module_words();
    let module = spirv::Module::from_words(&words);
    let mut ast = spirv::Ast::<msl::Target>::parse(&module).unwrap();
    let text = ast.compile().unwrap();
    assert!(text.contains("uniform_buffer_object [[buffer(0)]]"));
}

#[test]
fn msl_resource_binding_override_changes_slot() {
    let words = vertex_module_words();
    let module = spirv::Module::from_words(&words);
    let mut ast = spirv::Ast::<msl::Target>::parse(&module).unwrap();
    let mut options = msl::CompilerOptions::default();
    options.resource_binding_overrides.insert(
        msl::ResourceBindingLocation {
            stage: spirv::ExecutionModel::Vertex,
            desc_set: 0,
            binding: 0,
        },
        msl::ResourceBinding { buffer_id: 5, texture_id: 0, sampler_id: 0, force_used: false },
    );
    ast.set_compiler_options(&options).unwrap();
    let text = ast.compile().unwrap();
    assert!(text.contains("uniform_buffer_object [[buffer(5)]]"));
    assert!(!text.contains("[[buffer(0)]]"));
}

#[test]
fn msl_cleanses_entry_point_name_after_compile() {
    let words = vertex_module_words();
    let module = spirv::Module::from_words(&words);
    let mut ast = spirv::Ast::<msl::Target>::parse(&module).unwrap();
    ast.compile().unwrap();
    let cleansed = ast
        .get_cleansed_entry_point_name("main", spirv::ExecutionModel::Vertex)
        .unwrap();
    assert_eq!(cleansed, "main0");
    assert!(ast
        .get_cleansed_entry_point_name("absent", spirv::ExecutionModel::Vertex)
        .is_err());
}

#[test]
fn glsl_keeps_entry_point_name_after_compile() {
    let words = vertex_module_words();
    let module = spirv::Module::from_words(&words);
    let mut ast = spirv::Ast::<glsl::Target>::parse(&module).unwrap();
    ast.compile().unwrap();
    let cleansed = ast
        .get_cleansed_entry_point_name("main", spirv::ExecutionModel::Vertex)
        .unwrap();
    assert_eq!(cleansed, "main");
}

#[test]
fn msl_rasterization_follows_options() {
    let words = vertex_module_words();
    let module = spirv::Module::from_words(&words);
    let mut ast = spirv::Ast::<msl::Target>::parse(&module).unwrap();
    assert!(ast.is_rasterization_enabled().unwrap());
    let mut options = msl::CompilerOptions::default();
    options.enable_rasterization = false;
    ast.set_compiler_options(&options).unwrap();
    assert!(!ast.is_rasterization_enabled().unwrap());
}

#[test]
fn glsl_combined_image_samplers_build_once() {
    let words = vertex_module_words();
    let module = spirv::Module::from_words(&words);
    let mut ast = spirv::Ast::<glsl::Target>::parse(&module).unwrap();
    ast.build_combined_image_samplers().unwrap();
    let samplers = ast.get_combined_image_samplers().unwrap();
    assert!(samplers.is_empty());
}
