use dsge_vk::light::LightsUniformData;
use dsge_vk::render_graph::RenderResolution;
use dsge_vk::render_stage::{vertex_plane_shader, RenderStageBuilder};
use dsge_vk::shader::ShaderUniformArrayLength;
use dsge_vk::texture::TextureView;

const START: &str = "#version 450\n\
#define iResolution (resolution.dimensions)\n\
layout (location = 0) in vec2 position;\n\
layout (location = 1) in vec2 fragCoord;\n\
layout (location = 2) in vec2 pixelCoord;\n\
struct Resolution {\n            uvec2 dimensions;\n        };\
layout (std140, set = 0, binding = 0) uniform _Resolution { Resolution data; } _resolution;\n\
#define resolution (_resolution.data)\n\
struct LightsCount {\n    int spotlights;\n    int point_lights;\n    int sun_lights;\n};\
layout (std140, set = 0, binding = 1) uniform _LightsCount { LightsCount data; } _timer;\n\
#define timer (_timer.data)\n";

#[test]
fn stage_fragment_shader_start() {
    let b: RenderStageBuilder<u8, u8> = RenderStageBuilder::stage_builder::<LightsUniformData>();
    assert_eq!(b.fragment_shader().get_source(), START);
    assert!(b.stack_outputs().is_empty());
}

#[test]
fn stage_inputs_outputs_and_blocks() {
    let mut b: RenderStageBuilder<u8, u8> = RenderStageBuilder::stage_builder::<LightsUniformData>();
    b.dimenstions(640, 480)
        .input("src", TextureView::Dim2d, 1, false)
        .input("depth", TextureView::Dim2d, 2, true)
        .output("color", 10, 4, 0)
        .output("history", 11, 3, 2)
        .output("mask", 12, 1, 0)
        .uniform::<RenderResolution>("extent", ShaderUniformArrayLength::NotArray)
        .uniform_structure("params", "Params", ShaderUniformArrayLength::Fixed(2), "{ float gain; }")
        .code("void main() {}");
    let expected = format!(
        "{}layout (set = 1, binding = 0) uniform sampler2D src;\n\
layout (set = 1, binding = 1) uniform sampler2DShadow depth;\n\
layout (location = 0) out vec4 color;\n\
layout (location = 1) out vec3 history;\n\
layout (location = 2) out float mask;\n\
layout (std140, set = 0, binding = 2) uniform _Resolution {{ Resolution data; }} _extent;\n\
#define extent (_extent.data)\n\
struct Params {{ float gain; }};layout (std140, set = 0, binding = 3) uniform _Params {{ Params[2] data; }} _params;\n\
#define params (_params.data)\n\
void main() {{}}\n",
        START
    );
    assert_eq!(b.fragment_shader().get_source(), expected);
    assert_eq!(b.stack_outputs(), vec![false, true, false]);
    b.set_fragment_spirv_hash(77);
    assert_eq!(b.fragment_shader().spirv_hash(), 77);
}

#[test]
fn named_type_blocks() {
    let mut b: RenderStageBuilder<u8, u8> = RenderStageBuilder::stage_builder::<LightsUniformData>();
    b.uniform_named_type::<LightsUniformData>("counts", "Counts", ShaderUniformArrayLength::NotArray);
    assert!(b.fragment_shader().get_source().ends_with(
        "struct Counts {\n    int spotlights;\n    int point_lights;\n    int sun_lights;\n};\
layout (std140, set = 0, binding = 2) uniform _Counts { Counts data; } _counts;\n#define counts (_counts.data)\n"
    ));
}

#[test]
fn plane_vertex_shader() {
    let v = vertex_plane_shader::<LightsUniformData>().get_source();
    assert!(v.starts_with("#version 450\nlayout (location = 0) in vec3 v_pos;\n"));
    assert!(v.contains("layout (location = 6) in uvec3 v_grp;\n#define iResolution (resolution.dimensions)\n"));
    assert!(v.contains("layout (location = 0) out vec2 position;\nlayout (location = 1) out vec2 fragCoord;\nlayout (location = 2) out vec2 pixelCoord;\nvoid main()\n{\n"));
    assert!(v.ends_with("    gl_Position = vec4(v_pos.xy, 0.0, 1.0);\n}\n"));
}
