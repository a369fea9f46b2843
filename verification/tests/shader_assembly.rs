use dsge_vk::glenums::{AttribType, ShaderType};
use dsge_vk::light::LightsUniformData;
use dsge_vk::render_graph::RenderResolution;
use dsge_vk::shader::{FragmentInterpolation, Shader, ShaderProgramBuilder, ShaderUniformArrayLength};
use dsge_vk::texture::TextureView;

const LIGHTS_STRUCT: &str = "struct LightsCount {\n    int spotlights;\n    int point_lights;\n    int sun_lights;\n};";

#[test]
fn empty_shader_source() {
    let s = Shader::builder(ShaderType::Vertex);
    assert_eq!(s.get_source(), "#version 450\n");
    assert_eq!(s.spirv_hash(), 0);
}

#[test]
fn inputs_outputs_and_code() {
    let mut s = Shader::builder(ShaderType::Vertex);
    s.input("pos", AttribType::FVec3, FragmentInterpolation::default())
        .input("model", AttribType::FMat4, FragmentInterpolation::default())
        .input("uv", AttribType::FVec2, FragmentInterpolation::default())
        .output("color", AttribType::FVec4)
        .output("index", AttribType::Int)
        .define("SCALE", "2.0")
        .include_file("common.glsl")
        .ifdef("SCALE")
        .code("void main() {}")
        .endif();
    assert_eq!(
        s.get_source(),
        "#version 450\n\
layout (location = 0) in vec3 pos;\n\
layout (location = 1) in mat4 model;\n\
layout (location = 5) in vec2 uv;\n\
layout (location = 0) out vec4 color;\n\
layout (location = 1) out int index;\n\
#define SCALE (2.0)\n\
#include \"common.glsl\"\n\
#ifdef SCALE\n\
void main() {}\n\
#endif\n"
    );
}

#[test]
fn integer_fragment_input_is_qualified() {
    let mut s = Shader::builder(ShaderType::Fragment);
    s.input("triangle_index", AttribType::Int, FragmentInterpolation::Flat)
        .input("uv", AttribType::FVec2, FragmentInterpolation::Flat)
        .ifndef("SHADOWMAP");
    assert_eq!(
        s.get_source(),
        "#version 450\n\
layout (location = 0) flat in int triangle_index;\n\
layout (location = 1) in vec2 uv;\n\
#ifndef SHADOWMAP\n"
    );
    assert_eq!(FragmentInterpolation::NoPerspective.to_string(), "nooerspective");
}

#[test]
fn default_and_instance_attributes() {
    let mut s = Shader::builder(ShaderType::Vertex);
    s.default_vertex_attributes().instance_attributes();
    assert_eq!(
        s.get_source(),
        "#version 450\n\
layout (location = 0) in vec3 v_pos;\n\
layout (location = 1) in vec3 v_nor;\n\
layout (location = 2) in vec3 v_bin;\n\
layout (location = 3) in vec3 v_tan;\n\
layout (location = 4) in vec2 v_tex1;\n\
layout (location = 5) in vec2 v_tex2;\n\
layout (location = 6) in uvec3 v_grp;\n\
layout (location = 7) in mat4 transform;\n\
layout (location = 11) in mat4 transform_prev;\n"
    );
}

#[test]
fn uniform_blocks_and_redeclaration() {
    let mut s = Shader::builder(ShaderType::Fragment);
    assert_eq!(s.last_set_index(0), 0);
    assert!(s.uniform::<LightsUniformData>("lights", ShaderUniformArrayLength::NotArray, 0, 1).is_ok());
    assert_eq!(s.last_set_index(0), 2);
    assert_eq!(s.last_set_index(5), 0);
    let expected = format!(
        "#version 450\n{}layout (std140, set = 0, binding = 1) uniform _LightsCount {{ LightsCount data; }} _lights;\n#define lights (_lights.data)\n",
        LIGHTS_STRUCT
    );
    assert_eq!(s.get_source(), expected);
    match s.uniform::<LightsUniformData>("lights", ShaderUniformArrayLength::NotArray, 3, 0) {
        Ok(_) => panic!("a name was declared twice"),
        Err(e) => assert_eq!(e, "Переменная lights уже объявлена в этом шейдере."),
    }
    assert_eq!(s.get_source(), expected);
    assert!(s.uniform_autoincrement::<LightsUniformData>("more", ShaderUniformArrayLength::Fixed(4), 0).is_ok());
    let expected = format!(
        "{}layout (std140, set = 0, binding = 2) uniform _LightsCount {{ LightsCount[4] data; }} _more;\n#define more (_more.data)\n",
        expected
    );
    assert_eq!(s.get_source(), expected);
    assert_eq!(s.last_set_index(0), 3);
}

#[test]
fn storage_and_explicit_structures() {
    let mut s = Shader::builder(ShaderType::Compute);
    assert!(s.storage_buffer_autoincrement::<LightsUniformData>("all", ShaderUniformArrayLength::Unknown, 1).is_ok());
    assert!(s.uniform_structure("material", "Material", ShaderUniformArrayLength::NotArray, "{\nfloat a;\n}\n", 1, 4).is_ok());
    assert!(s.uniform_structure_autoincrement("extra", "Material", ShaderUniformArrayLength::NotArray, "{}", 1).is_ok());
    let expected = format!(
        "#version 450\n{}layout (std140, set = 1, binding = 0) readonly buffer _LightsCount {{ LightsCount[] data; }} _all;\n#define all (_all.data)\n\
struct Material {{\nfloat a;\n}}\n;layout (std140, set = 1, binding = 4) uniform _Material {{ Material data; }} _material;\n#define material (_material.data)\n\
layout (std140, set = 1, binding = 5) uniform _Material {{ Material data; }} _extra;\n#define extra (_extra.data)\n",
        LIGHTS_STRUCT
    );
    assert_eq!(s.get_source(), expected);
    assert!(s.storage_buffer::<LightsUniformData>("extra", ShaderUniformArrayLength::NotArray, 0, 0).is_err());
}

#[test]
fn samplers_and_push_constant() {
    let mut s = Shader::builder(ShaderType::Fragment);
    assert!(s.uniform_sampler("albedo", 2, 0, TextureView::Dim2d, false).is_ok());
    assert!(s.uniform_sampler_autoincrement("shadow", 2, TextureView::Cube, true).is_ok());
    assert!(s.uniform_sampler("albedo", 2, 7, TextureView::Dim3d, false).is_err());
    assert!(s.uniform_constant::<RenderResolution>("pc").is_ok());
    match s.uniform_constant::<RenderResolution>("pc2") {
        Ok(_) => panic!("a second push constant was declared"),
        Err(e) => assert_eq!(e, "Можно объявить только одну константу."),
    }
    assert_eq!(
        s.get_source(),
        "#version 450\n\
layout (set = 2, binding = 0) uniform sampler2D albedo;\n\
layout (set = 2, binding = 1) uniform samplerCubeShadow shadow;\n\
layout (push_constant) uniform Resolution {\n            uvec2 dimensions;\n        } pc;\n"
    );
    assert_eq!(s.last_set_index(2), 2);
}

#[test]
fn program_stages_agree_on_uniforms() {
    let mut vertex = Shader::builder(ShaderType::Vertex);
    vertex.uniform::<LightsUniformData>("lights", ShaderUniformArrayLength::NotArray, 0, 0).unwrap();
    vertex.set_spirv_hash(0b1100);
    let mut fragment = Shader::builder(ShaderType::Fragment);
    fragment.uniform::<LightsUniformData>("lights", ShaderUniformArrayLength::NotArray, 0, 0).unwrap();
    fragment.set_spirv_hash(0b1010);
    let mut program = ShaderProgramBuilder::builder();
    assert!(program.vertex(&vertex).is_ok());
    assert!(program.fragment(&fragment).is_ok());
    assert_eq!(program.hash(), 0b0110);
    assert_eq!(program.vertex_shader_source(), &vertex.get_source());
    assert_eq!(program.fragment_shader_source(), &fragment.get_source());

    let mut moved = Shader::builder(ShaderType::Fragment);
    moved.uniform::<LightsUniformData>("lights", ShaderUniformArrayLength::NotArray, 0, 1).unwrap();
    let mut program = ShaderProgramBuilder::builder();
    program.vertex(&vertex).unwrap();
    match program.fragment(&moved) {
        Ok(_) => panic!("a uniform at another binding was accepted"),
        Err(e) => assert_eq!(e, "Фрагментный шейдер использует те же имена uniform-переменных с разным расположением."),
    }
    assert_eq!(program.fragment_shader_source(), "");

    let mut retyped = Shader::builder(ShaderType::Vertex);
    retyped.uniform::<RenderResolution>("lights", ShaderUniformArrayLength::NotArray, 0, 0).unwrap();
    let mut program = ShaderProgramBuilder::builder();
    program.fragment(&fragment).unwrap();
    match program.vertex(&retyped) {
        Ok(_) => panic!("a uniform of another type was accepted"),
        Err(e) => assert_eq!(e, "Вершинный шейдер использует существующие имена uniform-переменных с разными типами."),
    }
}

#[test]
fn single_push_constant_per_program() {
    let mut first = Shader::builder(ShaderType::Fragment);
    first.uniform_constant::<RenderResolution>("pc").unwrap();
    let mut second = Shader::builder(ShaderType::Fragment);
    second.uniform_constant::<RenderResolution>("pc").unwrap();
    let mut program = ShaderProgramBuilder::builder();
    program.fragment(&first).unwrap();
    match program.fragment(&second) {
        Ok(_) => panic!("two push constants were accepted"),
        Err(e) => assert_eq!(e, "Uniform-константу можно объявить только в одном шейдере."),
    }
}

#[test]
fn tessellation_stages() {
    let mut eval = Shader::builder(ShaderType::TesselationEval);
    eval.uniform::<LightsUniformData>("lights", ShaderUniformArrayLength::NotArray, 0, 0).unwrap();
    eval.set_spirv_hash(1);
    let mut control = Shader::builder(ShaderType::TesselationControl);
    control.uniform_constant::<RenderResolution>("pc").unwrap();
    control.set_spirv_hash(2);
    let mut program = ShaderProgramBuilder::builder();
    assert!(program.tesselation(&eval, &control).is_ok());
    assert_eq!(program.hash(), 3);
    assert_eq!(program.tess_eval_source(), &eval.get_source());
    assert_eq!(program.tess_controll_source(), &control.get_source());
    assert_eq!(program.compute_source(), "");

    let mut moved = Shader::builder(ShaderType::TesselationControl);
    moved.uniform::<LightsUniformData>("lights", ShaderUniformArrayLength::NotArray, 1, 0).unwrap();
    let mut program = ShaderProgramBuilder::builder();
    program.vertex(&eval).unwrap();
    match program.tesselation(&eval, &moved) {
        Ok(_) => panic!("a uniform at another set was accepted"),
        Err(e) => assert_eq!(e, "Шейдеры тесселяции использует одни и те же имена uniform-переменных с разными расположениями."),
    }

    let mut program = ShaderProgramBuilder::builder();
    match program.tesselation(&control, &eval) {
        Ok(_) => panic!("an evaluation stage with a push constant was accepted"),
        Err(e) => assert_eq!(e, "Uniform-константу можно объявить только в одном шейдере."),
    }
    assert_eq!(program.tess_eval_source(), &control.get_source());
}

#[test]
fn program_fragment_outputs() {
    let mut fragment = Shader::builder(ShaderType::Fragment);
    fragment.output("gAlbedo", AttribType::FVec4);
    let mut program = ShaderProgramBuilder::builder();
    program.fragment(&fragment).unwrap();
    assert_eq!(program.outputs().get("gAlbedo"), Some(&AttribType::FVec4));
    assert!(!program.outputs().contains_key("gNormals"));
}
