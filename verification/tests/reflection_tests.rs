use spirv_cross::glsl;
use spirv_cross::spirv;

fn inst(op: u32, operands: &[u32]) -> Vec<u32> {
    let mut words = Vec::new();
    let wc = (1 + operands.len()) as u32;
    words.push((wc << 16) | op);
    for w in operands {
        words.push(*w);
    }
    words
}

fn inst_str(op: u32, operands: &[u32], text: &str) -> Vec<u32> {
    let mut bytes: Vec<u8> = text.as_bytes().to_vec();
    bytes.push(0);
    while bytes.len() % 4 != 0 {
        bytes.push(0);
    }
    let mut words = Vec::new();
    let wc = (1 + operands.len() + bytes.len() / 4) as u32;
    words.push((wc << 16) | op);
    for w in operands {
        words.push(*w);
    }
    let mut k = 0;
    while k < bytes.len() {
        let w = (bytes[k] as u32)
            | ((bytes[k + 1] as u32) << 8)
            | ((bytes[k + 2] as u32) << 16)
            | ((bytes[k + 3] as u32) << 24);
        words.push(w);
        k += 4;
    }
    words
}

/// A vertex module with one entry point "main", one uniform buffer
/// "uniform_buffer_object" at set 0 binding 0, two stage inputs at
/// locations 0 and 1, one stage output, one specialization constant, and a
/// named, offset-decorated struct member.
fn vertex_module_words() -> Vec<u32> {
    let mut words = vec![0x0723_0203u32, 0x0001_0000, 0, 100, 0];
    words.extend(inst_str(15, &[0, 4], "main"));
    words.extend(inst_str(5, &[9], "uniform_buffer_object"));
    words.extend(inst_str(5, &[10], "a_position"));
    words.extend(inst_str(5, &[11], "a_normal"));
    words.extend(inst_str(5, &[12], "v_normal"));
    words.extend(inst_str(6, &[3, 0], "u_mvp"));
    words.extend(inst(71, &[3, 2]));
    words.extend(inst(71, &[9, 33, 0]));
    words.extend(inst(71, &[9, 34, 0]));
    words.extend(inst(71, &[10, 30, 0]));
    words.extend(inst(71, &[11, 30, 1]));
    words.extend(inst(71, &[20, 1, 1]));
    words.extend(inst(72, &[3, 0, 35, 16]));
    words.extend(inst(22, &[2, 32]));
    words.extend(inst(30, &[3, 2]));
    words.extend(inst(32, &[5, 2, 3]));
    words.extend(inst(32, &[6, 1, 2]));
    words.extend(inst(32, &[7, 3, 2]));
    words.extend(inst(50, &[2, 20, 3]));
    words.extend(inst(59, &[5, 9, 2]));
    words.extend(inst(59, &[6, 10, 1]));
    words.extend(inst(59, &[6, 11, 1]));
    words.extend(inst(59, &[7, 12, 3]));
    words
}

#[test]
fn vertex_module_gets_entry_points() {
    let words = vertex_module_words();
    let module = spirv::Module::from_words(&words);
    let mut ast = spirv::Ast::<glsl::Target>::parse(&module).unwrap();
    let entry_points = ast.get_entry_points().unwrap();
    assert_eq!(entry_points.len(), 1);
    assert_eq!(entry_points[0].name, "main");
    assert_eq!(entry_points[0].execution_model, spirv::ExecutionModel::Vertex);
    assert_eq!(entry_points[0].work_group_size, spirv::WorkGroupSize { x: 0, y: 0, z: 0 });
}

#[test]
fn get_entry_points_is_idempotent() {
    let words = vertex_module_words();
    let module = spirv::Module::from_words(&words);
    let mut ast = spirv::Ast::<glsl::Target>::parse(&module).unwrap();
    let first = ast.get_entry_points().unwrap();
    let second = ast.get_entry_points().unwrap();
    assert_eq!(first, second);
}

#[test]
fn vertex_module_gets_shader_resources() {
    let words = vertex_module_words();
    let module = spirv::Module::from_words(&words);
    let ast = spirv::Ast::<glsl::Target>::parse(&module).unwrap();
    let resources = ast.get_shader_resources().unwrap();
    assert_eq!(resources.uniform_buffers.len(), 1);
    assert_eq!(resources.uniform_buffers[0].name, "uniform_buffer_object");
    assert_eq!(resources.storage_buffers.len(), 0);
    assert_eq!(resources.stage_inputs.len(), 2);
    let input_names: Vec<&str> =
        resources.stage_inputs.iter().map(|r| r.name.as_str()).collect();
    assert!(input_names.contains(&"a_position"));
    assert!(input_names.contains(&"a_normal"));
    assert_eq!(resources.stage_outputs.len(), 1);
    assert_eq!(resources.stage_outputs[0].name, "v_normal");
    assert_eq!(resources.subpass_inputs.len(), 0);
    assert_eq!(resources.storage_images.len(), 0);
    assert_eq!(resources.sampled_images.len(), 0);
    assert_eq!(resources.atomic_counters.len(), 0);
    assert_eq!(resources.push_constant_buffers.len(), 0);
    assert_eq!(resources.separate_images.len(), 0);
    assert_eq!(resources.separate_samplers.len(), 0);
}

#[test]
fn decoration_round_trip() {
    let words = vertex_module_words();
    let module = spirv::Module::from_words(&words);
    let mut ast = spirv::Ast::<glsl::Target>::parse(&module).unwrap();
    ast.set_decoration(9, spirv::Decoration::Binding, 7).unwrap();
    assert_eq!(ast.get_decoration(9, spirv::Decoration::Binding).unwrap(), 7);
    ast.set_decoration(42, spirv::Decoration::Location, 3).unwrap();
    assert_eq!(ast.get_decoration(42, spirv::Decoration::Location).unwrap(), 3);
    ast.unset_decoration(9, spirv::Decoration::Binding).unwrap();
    assert_eq!(ast.get_decoration(9, spirv::Decoration::Binding).unwrap(), 0);
}

#[test]
fn member_queries_report_declared_layout() {
    let words = vertex_module_words();
    let module = spirv::Module::from_words(&words);
    let ast = spirv::Ast::<glsl::Target>::parse(&module).unwrap();
    assert_eq!(ast.get_member_name(3, 0).unwrap(), "u_mvp");
    assert_eq!(ast.get_member_decoration(3, 0, spirv::Decoration::Offset).unwrap(), 16);
    assert_eq!(ast.get_declared_struct_size(3).unwrap(), 4);
    assert_eq!(ast.get_declared_struct_member_size(3, 0).unwrap(), 4);
    match ast.get_type(3).unwrap() {
        spirv::Type::Struct { member_types, array } => {
            assert_eq!(member_types, vec![2]);
            assert!(array.is_empty());
        },
        other => panic!("expected a struct descriptor, got {:?}", other),
    }
}

#[test]
fn specialization_constants_are_listed_and_settable() {
    let words = vertex_module_words();
    let module = spirv::Module::from_words(&words);
    let mut ast = spirv::Ast::<glsl::Target>::parse(&module).unwrap();
    let constants = ast.get_specialization_constants().unwrap();
    assert_eq!(constants.len(), 1);
    assert_eq!(constants[0], spirv::SpecializationConstant { id: 20, constant_id: 1 });
    ast.set_scalar_constant(20, 99).unwrap();
    assert!(ast.set_scalar_constant(999, 1).is_err());
    let wg = ast.get_work_group_size_specialization_constants().unwrap();
    assert_eq!(wg.x.id, 0);
    assert_eq!(wg.y.id, 0);
    assert_eq!(wg.z.id, 0);
}

#[test]
fn empty_module_is_rejected() {
    let words: Vec<u32> = Vec::new();
    let module = spirv::Module::from_words(&words);
    let result = spirv::Ast::<glsl::Target>::parse(&module);
    match result {
        Err(spirv_cross::ErrorCode::CompilationError(message)) => {
            assert!(!message.is_empty());
        },
        Err(spirv_cross::ErrorCode::Unhandled) => {},
        Ok(_) => panic!("an empty module must not construct an instance"),
    }
}

#[test]
fn transport_allocations_balance() {
    let words = vertex_module_words();
    let module = spirv::Module::from_words(&words);
    let mut ast = spirv::Ast::<glsl::Target>::parse(&module).unwrap();
    assert_eq!(ast.live_transport_allocations(), 1);
    ast.get_entry_points().unwrap();
    assert_eq!(ast.live_transport_allocations(), 1);
    ast.get_entry_points().unwrap();
    ast.get_shader_resources().unwrap();
    assert_eq!(ast.live_transport_allocations(), 1);
}

#[test]
fn rename_interface_variable_renames_at_location() {
    let words = vertex_module_words();
    let module = spirv::Module::from_words(&words);
    let mut ast = spirv::Ast::<glsl::Target>::parse(&module).unwrap();
    let inputs = ast.get_shader_resources().unwrap().stage_inputs;
    ast.rename_interface_variable(&inputs, 0, "renamed").unwrap();
    let renamed = ast.get_shader_resources().unwrap().stage_inputs;
    let names: Vec<&str> = renamed.iter().map(|r| r.name.as_str()).collect();
    assert!(names.contains(&"renamed"));
    assert!(names.contains(&"a_normal"));
    assert!(!names.contains(&"a_position"));
}

#[test]
fn set_name_rejects_unencodable_names() {
    let words = vertex_module_words();
    let module = spirv::Module::from_words(&words);
    let mut ast = spirv::Ast::<glsl::Target>::parse(&module).unwrap();
    ast.set_name(9, "renamed_buffer").unwrap();
    assert!(ast.set_name(9, "bad\u{0}name").is_err());
    assert!(ast.set_name(9, "b\u{e9}zier").is_err());
}

#[test]
fn decoration_round_trip_all_decorations() {
    let all = [
        spirv::Decoration::RelaxedPrecision,
        spirv::Decoration::SpecId,
        spirv::Decoration::Block,
        spirv::Decoration::BufferBlock,
        spirv::Decoration::RowMajor,
        spirv::Decoration::ColMajor,
        spirv::Decoration::ArrayStride,
        spirv::Decoration::MatrixStride,
        spirv::Decoration::GlslShared,
        spirv::Decoration::GlslPacked,
        spirv::Decoration::CPacked,
        spirv::Decoration::BuiltIn,
        spirv::Decoration::NoPerspective,
        spirv::Decoration::Flat,
        spirv::Decoration::Patch,
        spirv::Decoration::Centroid,
        spirv::Decoration::Sample,
        spirv::Decoration::Invariant,
        spirv::Decoration::Restrict,
        spirv::Decoration::Aliased,
        spirv::Decoration::Volatile,
        spirv::Decoration::Constant,
        spirv::Decoration::Coherent,
        spirv::Decoration::NonWritable,
        spirv::Decoration::NonReadable,
        spirv::Decoration::Uniform,
        spirv::Decoration::SaturatedConversion,
        spirv::Decoration::Stream,
        spirv::Decoration::Location,
        spirv::Decoration::Component,
        spirv::Decoration::Index,
        spirv::Decoration::Binding,
        spirv::Decoration::DescriptorSet,
        spirv::Decoration::Offset,
        spirv::Decoration::XfbBuffer,
        spirv::Decoration::XfbStride,
        spirv::Decoration::FuncParamAttr,
        spirv::Decoration::FpRoundingMode,
        spirv::Decoration::FpFastMathMode,
        spirv::Decoration::LinkageAttributes,
        spirv::Decoration::NoContraction,
        spirv::Decoration::InputAttachmentIndex,
        spirv::Decoration::Alignment,
        spirv::Decoration::OverrideCoverageNv,
        spirv::Decoration::PassthroughNv,
        spirv::Decoration::ViewportRelativeNv,
        spirv::Decoration::SecondaryViewportRelativeNv,
    ];
    let words = vertex_module_words();
    let module = spirv::Module::from_words(&words);
    let mut ast = spirv::Ast::<glsl::Target>::parse(&module).unwrap();
    for (i, decoration) in all.iter().enumerate() {
        let value = 1000 + i as u32;
        for id in [1u32, 9, 12, 77] {
            ast.set_decoration(id, *decoration, value + id).unwrap();
            assert_eq!(ast.get_decoration(id, *decoration).unwrap(), value + id);
        }
    }
}
