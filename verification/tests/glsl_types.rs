use dsge_vk::glenums::{AttribNumType, AttribType, GLSLSampler, GLSLType, GLSLVersion, ShaderType};
use dsge_vk::text::decimal_string;

#[test]
fn version_directives() {
    assert_eq!(GLSLVersion::V450.stringify(), "#version 450");
    assert_eq!(GLSLVersion::V140.stringify(), "#version 140");
    assert_eq!(GLSLVersion::V300ES.stringify(), "#version 300 es");
    assert!(!GLSLVersion::V140.have_explicit_attri_location());
    assert!(!GLSLVersion::V150.have_explicit_attri_location());
    assert!(GLSLVersion::V300ES.have_explicit_attri_location());
    assert!(GLSLVersion::V460.have_explicit_attri_location());
    assert!(GLSLVersion::V310ES.need_precision_qualifier());
    assert!(!GLSLVersion::V450.need_precision_qualifier());
}

#[test]
fn shader_stage_names() {
    assert_eq!(ShaderType::Vertex.to_string(), "vertex");
    assert_eq!(ShaderType::Fragment.to_string(), "fragmet");
    assert_eq!(ShaderType::TesselationControl.to_string(), "teselation cotrol");
}

#[test]
fn numeric_type_from_number() {
    assert_eq!(AttribNumType::from_i32(7), AttribNumType::FLOAT);
    assert_eq!(AttribNumType::from_i32(0), AttribNumType::BYTE);
    assert_eq!(AttribNumType::from_i32(13), AttribNumType::UNSIGNED_SHORT);
    assert_eq!(AttribNumType::from_i32(-1), AttribNumType::UNSIGNED_INT);
}

#[test]
fn glsl_type_names() {
    assert_eq!(GLSLType::Vec3.get_glsl_name(), "vec3");
    assert_eq!(GLSLType::Mat4.get_glsl_name(), "mat4");
    assert_eq!(GLSLType::DMat3.get_glsl_name(), "dmat3");
    assert_eq!(GLSLType::IVec2.get_glsl_name(), "ivec2");
    assert_eq!(GLSLType::UVec4.get_glsl_name(), "uvec4");
    assert_eq!(GLSLType::Bool.get_glsl_name(), "bool");
    assert_eq!(GLSLType::Double.get_glsl_name(), "double");
    assert_eq!(GLSLType::Sampler2D.get_glsl_name(), "sampler2D");
    assert_eq!(GLSLType::SamplerCube.get_glsl_name(), "samplerCube");
    assert_eq!(GLSLType::Float.get_gl_const(), 0x1407);
    assert_eq!(GLSLType::Int.get_gl_const(), 0x1404);
    assert_eq!(GLSLSampler::Sampler3D.code(), 3);
}

#[test]
fn attribute_types() {
    assert_eq!(AttribType::FMat4.get_glsl_name(), "mat4");
    assert_eq!(AttribType::IMat2.get_glsl_name(), "imat2");
    assert_eq!(AttribType::FVec2.get_glsl_name(), "vec2");
    assert_eq!(AttribType::Byte.get_glsl_name(), "bool");
    assert_eq!(AttribType::UInt.to_string(), "uint");
    assert_eq!(AttribType::FMat4.get_byte_size(), 64);
    assert_eq!(AttribType::DVec3.get_byte_size(), 24);
    assert_eq!(AttribType::Byte.get_byte_size(), 1);
    assert_eq!(AttribType::HFloat.get_byte_size(), 2);
    assert_eq!(AttribType::FMat3.get_cells_count(), 9);
    assert_eq!(AttribType::FVec4.get_cells_count(), 4);
    assert_eq!(AttribType::HFloat.get_gl_const(), AttribNumType::HALF_FLOAT);
    assert_eq!(AttribType::UVec3.get_gl_const(), AttribNumType::UNSIGNED_INT);
    assert!(AttribType::UVec3.is_int());
    assert!(!AttribType::UVec3.is_float());
    assert!(!AttribType::Fixed.is_int());
    assert!(!AttribType::Fixed.is_float());
    assert!(AttribType::DMat4.is_float());
    assert_eq!(AttribType::UVec3.code(), 0x1345);
}

#[test]
fn decimal_text() {
    assert_eq!(decimal_string(0), "0");
    assert_eq!(decimal_string(40), "40");
    assert_eq!(decimal_string(4294967295), "4294967295");
}
