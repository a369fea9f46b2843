use dsge_vk::material::{
    Material, MaterialBuilder, MaterialFragmentShaderType, MaterialShaderProgramType, MaterialSlot, MaterialVertexShaderType,
    SHADER_MATERIAL_DATA_SET, SHADER_TEXTURE_SET,
};
use dsge_vk::render_graph::RenderResolution;
use dsge_vk::texture::TextureView;

#[test]
fn variants_are_numbered_in_order() {
    let vertex = MaterialVertexShaderType::combinations();
    for (i, v) in vertex.iter().enumerate() {
        assert_eq!(v.as_index(), i);
    }
    assert_eq!(vertex[1], MaterialVertexShaderType { deformable: false, shadowmap: true });
    assert_eq!(vertex[2], MaterialVertexShaderType { deformable: true, shadowmap: false });
    let fragment = MaterialFragmentShaderType::combinations();
    assert_eq!(fragment[0].as_index(), 0);
    assert_eq!(fragment[1].as_index(), 1);
    assert!(fragment[1].shadowmap);
    let programs = MaterialShaderProgramType::combinations();
    for (i, p) in programs.iter().enumerate() {
        assert_eq!(p.as_index(), i);
        assert_eq!(p.vertex.shadowmap, p.fragment.shadowmap);
    }
    let gbuffer = MaterialShaderProgramType::base_gbuffer();
    assert_eq!(gbuffer.as_index(), 0);
    assert!(!gbuffer.vertex.deformable && !gbuffer.fragment.shadowmap);
    let shadow = MaterialShaderProgramType::base_shadowmap();
    assert_eq!(shadow.as_index(), 1);
    assert!(shadow.vertex.shadowmap && shadow.fragment.shadowmap && !shadow.vertex.deformable);
}

#[test]
fn numeric_parameters_fill_the_block() {
    let mut b = MaterialBuilder::builder("metal");
    b.add_numeric_parameter("roughness", MaterialSlot::Scalar(0x3F00_0000))
        .add_numeric_parameter("use_map", MaterialSlot::IScalar(-1))
        .add_numeric_parameter("tint", MaterialSlot::Vec3([1, 2, 3]));
    assert_eq!(b.numeric_data(), vec![0x3F00_0000, 0xFFFF_FFFF, 1, 2, 3]);
    let v = b.vertex_shader_combination::<RenderResolution>(false, false, false);
    assert!(v.get_source().contains(
        "struct Material {\nfloat roughness;\nint   use_map;\nvec3  tint;\n};layout (std140, set = 1, binding = 0) uniform _Material { Material data; } _material;\n"
    ));
    assert_eq!(SHADER_MATERIAL_DATA_SET, 1);
}

#[test]
fn vertex_variant_declarations() {
    let mut b = MaterialBuilder::builder("plain");
    b.define("GAMMA", "2.2");
    let v = b.vertex_shader_combination::<RenderResolution>(false, true, true).get_source();
    assert!(v.starts_with("#version 450\nlayout (location = 0) in vec3 v_pos;\n"));
    assert!(v.contains("layout (location = 0) out int triangle_index;\n"));
    assert!(v.contains("#define SUPER_RESOLUTION (1)\n#define DEFORMED ()\n"));
    assert!(v.contains("layout (location = 3) out vec4 position;\n"));
    assert!(v.contains("#define GAMMA 2.2\n\n"));
    assert!(v.contains("layout (std140, set = 0, binding = 1) uniform _Resolution { Resolution data; } _resolution;\n"));
    assert!(v.ends_with("#include \"data/shaders/geometry_pass.vert.glsl\"\n"));
    let s = b.vertex_shader_combination::<RenderResolution>(true, false, false).get_source();
    assert!(s.contains("#define SHADOWMAP ()\n"));
    assert!(!s.contains("out vec4 position;"));
}

#[test]
fn fragment_variant_with_textures() {
    let mut b = MaterialBuilder::builder("brick");
    b.add_texture("fDiffuseMap", TextureView::Dim2d).add_texture("fEnv", TextureView::Cube);
    let f = b.fragment_shader_combination::<RenderResolution>(false, false).unwrap().get_source();
    assert!(f.contains("layout (location = 0) flat in int triangle_index;\n"));
    assert!(f.contains("layout (set = 2, binding = 0) uniform sampler2D fDiffuseMap;\n"));
    assert!(f.contains("layout (set = 2, binding = 1) uniform samplerCube fEnv;\n"));
    assert!(f.contains("layout (location = 0) out vec4 gAlbedo;\n"));
    assert!(f.ends_with("#include \"data/shaders/geometry_pass.frag.glsl\"\n"));
    let s = b.fragment_shader_combination::<RenderResolution>(true, false).unwrap().get_source();
    assert!(s.contains("mat3 TBN = mat3(1.0);\n"));
    assert!(!s.contains("gAlbedo"));
    assert!(s.ends_with("#include \"data/shaders/shadowmap.frag.glsl\"\n"));
    assert_eq!(SHADER_TEXTURE_SET, 2);
}

#[test]
fn fragment_variant_refuses_taken_names() {
    let mut b = MaterialBuilder::builder("broken");
    b.add_texture("camera", TextureView::Dim2d);
    match b.fragment_shader_combination::<RenderResolution>(false, false) {
        Ok(_) => panic!("a texture took the name of a block"),
        Err(e) => assert_eq!(e, "Переменная camera уже объявлена в этом шейдере."),
    }
    let mut twice = MaterialBuilder::builder("twice");
    twice.add_texture("map", TextureView::Dim2d).add_texture("map", TextureView::Dim3d);
    match twice.fragment_shader_combination::<RenderResolution>(true, true) {
        Ok(_) => panic!("two textures shared a name"),
        Err(e) => assert_eq!(e, "Переменная map уже объявлена в этом шейдере."),
    }
}

#[test]
fn material_parameters_are_replaced_by_name() {
    let mut m: Material<u32> = Material::new(
        "wood",
        vec![("fDiffuseMap".to_owned(), 7), ("fNormalMap".to_owned(), 8)],
        vec![("roughness".to_owned(), MaterialSlot::Scalar(1)), ("use_map".to_owned(), MaterialSlot::IScalar(0))],
        [10, 20, 30, 40],
    );
    assert_eq!(m.name(), "wood");
    let gbuffer = MaterialShaderProgramType::base_gbuffer();
    let shadow = MaterialShaderProgramType::base_shadowmap();
    assert_eq!(m.shader_hash(&gbuffer), 10);
    assert_eq!(m.shader_hash(&shadow), 20);
    assert!(m.needs_update(&gbuffer));
    m.mark_updated(&gbuffer);
    assert!(!m.needs_update(&gbuffer));
    assert!(m.needs_update(&shadow));

    assert_eq!(m.set_parameter("use_map", MaterialSlot::IScalar(1)), Ok(()));
    assert_eq!(m.numeric_data(), vec![1, 1]);
    assert!(m.needs_update(&gbuffer));

    m.mark_updated(&gbuffer);
    assert_eq!(m.replace_texture("fNormalMap", 9), Ok(()));
    assert!(m.needs_update(&gbuffer));

    m.mark_updated(&gbuffer);
    assert_eq!(
        m.replace_texture("fSpecularMap", 1),
        Err("Материал wood не имеет текстуры fSpecularMap.".to_owned())
    );
    assert_eq!(
        m.set_parameter("glow", MaterialSlot::Scalar(0)),
        Err("Материал wood не имеет параметра glow.".to_owned())
    );
    assert!(!m.needs_update(&gbuffer));
    assert_eq!(m.numeric_data(), vec![1, 1]);

    let oak = m.fork("oak");
    assert_eq!(oak.name(), "oak");
    assert_eq!(oak.numeric_data(), vec![1, 1]);
    assert_eq!(oak.shader_hash(&shadow), 20);
    assert!(!oak.needs_update(&gbuffer));
    assert_eq!(m.name(), "wood");
}

#[test]
fn surface_code_is_replaced() {
    let mut b = MaterialBuilder::builder("procedural");
    b.set_pbr_code("void principled() { mDiffuse = vec4(1.0); }");
    let f = b.fragment_shader_combination::<RenderResolution>(false, false).unwrap().get_source();
    assert!(f.contains("void principled() { mDiffuse = vec4(1.0); }\n#include \"data/shaders/geometry_pass.frag.glsl\"\n"));
    let plain = MaterialBuilder::builder("plain");
    let g = plain.fragment_shader_combination::<RenderResolution>(false, false).unwrap().get_source();
    assert!(g.contains("void principled() {\n#if defined(SUPER_RESOLUTION) && !defined(SHADOWMAP)"));
}
