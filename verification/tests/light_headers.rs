use dsge_vk::light::{
    light_uniform_arrays, lights_count, DynamicShadowMapManager, ShadowMapMode, ShadowMapStart, ShadowMapUpdate, GenericLightUniform, LightShaderStruct, LightType, LightsUniformData, PointLightUniform, SpotlightUniform,
    SunLightUniform,
};
use dsge_vk::bits::{Mat4Bits, Vec4Bits};
use dsge_vk::shader::ShaderStructUniform;

const GENERIC_BODY: &str = "{\n    mat4 projection_inv;\n    vec4 color;\n    vec4 location;\n    float power;\n    float z_near;\n    float distance;\n    int shadowmap_index;\n}";

#[test]
fn save_headers() {
    let generic = format!(
        "#ifndef GENERIC_LIGHT_H\n#define GENERIC_LIGHT_H\n{}\n{}\n#endif",
        GenericLightUniform::glsl_type_name(),
        GenericLightUniform::structure()
    );
    assert_eq!(
        generic,
        format!("#ifndef GENERIC_LIGHT_H\n#define GENERIC_LIGHT_H\nGenericLightUniform\n{}\n#endif", GENERIC_BODY)
    );
    let spot = format!(
        "#ifndef SPOTLIGHT_H\n#define SPOTLIGHT_H\n#include generic.h\n{}\n{}\n#endif",
        SpotlightUniform::glsl_type_name(),
        SpotlightUniform::structure()
    );
    assert_eq!(
        spot,
        "#ifndef SPOTLIGHT_H\n#define SPOTLIGHT_H\n#include generic.h\nSpotlightUniform\n{\n    GenericLightUniform base;\n    vec4 direction;\n    float inner_angle;\n    float outer_angle;\n    float reserved1;\n    float reserved2;\n}\n#endif"
    );
    let point = format!(
        "#ifndef POINT_LIGHT_H\n#define POINT_LIGHT_H\n#include generic.h\n{}\n{}\n#endif",
        PointLightUniform::glsl_type_name(),
        PointLightUniform::structure()
    );
    assert_eq!(
        point,
        "#ifndef POINT_LIGHT_H\n#define POINT_LIGHT_H\n#include generic.h\nPointLightUniform\n{\n    GenericLightUniform base;\n}\n#endif"
    );
    let sun = format!(
        "#ifndef SUN_LIGHT_H\n#define SUN_LIGHT_H\n#include generic.h\n{}\n{}\n#endif",
        SunLightUniform::glsl_type_name(),
        SunLightUniform::structure()
    );
    assert_eq!(
        sun,
        "#ifndef SUN_LIGHT_H\n#define SUN_LIGHT_H\n#include generic.h\nSunLightUniform\n{\n    GenericLightUniform base;\n    vec4 direction;\n    float size;\n    float reserved1;\n    float reserved2;\n    float reserved3;\n}\n#endif"
    );
}

#[test]
fn lights_count_block() {
    assert_eq!(LightsUniformData::glsl_type_name(), "LightsCount");
    assert_eq!(
        LightsUniformData::structure(),
        "{\n    int spotlights;\n    int point_lights;\n    int sun_lights;\n}"
    );
    let counts = LightsUniformData::new(1, 2, 3);
    assert_eq!(counts, LightsUniformData { spotlights: 1, point_lights: 2, sun_lights: 3 });
    assert_eq!(LightsUniformData::default(), LightsUniformData::new(0, 0, 0));
}

#[test]
fn shadow_map_index_is_set() {
    let mut light = GenericLightUniform::default();
    assert_eq!(light.shadowmap_index, 0);
    light.set_shadow_map_index(7);
    assert_eq!(light.shadowmap_index, 7);
    assert_eq!(light.power, 0);
    assert_eq!(light.projection_inv, Mat4Bits::zero());
}

#[test]
fn light_struct_base_and_type() {
    let mut base = GenericLightUniform::default();
    base.power = 0x4000_0000;
    let spot = SpotlightUniform {
        base,
        direction: Vec4Bits { x: 0, y: 0, z: 0x3F80_0000, w: 0 },
        inner_angle: 1,
        outer_angle: 2,
        reserved1: 0,
        reserved2: 0,
    };
    let mut light = LightShaderStruct::Spot(spot);
    assert_eq!(light.ty(), LightType::Spot);
    assert_eq!(light.base().power, 0x4000_0000);
    light.base_mut().set_shadow_map_index(3);
    assert_eq!(light.base().shadowmap_index, 3);
    match light {
        LightShaderStruct::Spot(s) => {
            assert_eq!(s.outer_angle, 2);
            assert_eq!(s.direction.z, 0x3F80_0000);
        },
        _ => panic!("the light changed its kind"),
    }
    let point = LightShaderStruct::Point(PointLightUniform { base: GenericLightUniform::default() });
    assert_eq!(point.ty(), LightType::Point);
    let mut sun = SunLightUniform {
        base: GenericLightUniform::default(),
        direction: Vec4Bits::zero(),
        size: 5,
        reserved1: 0,
        reserved2: 0,
        reserved3: 0,
    };
    sun.base_mut().set_shadow_map_index(-1);
    assert_eq!(sun.base.shadowmap_index, -1);
    assert_eq!(LightShaderStruct::Sun(sun).ty(), LightType::Sun);
}

#[test]
fn shadow_layers_are_handed_out_once() {
    let mut pool = DynamicShadowMapManager::new(3, false);
    assert_eq!(pool.layers(), 3);
    assert_eq!(pool.get(), Some((2, 2, 1)));
    assert_eq!(pool.get(), Some((1, 1, 1)));
    assert_eq!(pool.get(), Some((0, 0, 1)));
    assert_eq!(pool.get(), None);
    pool.free_all();
    assert_eq!(pool.get(), Some((2, 2, 1)));
    let mut cubes = DynamicShadowMapManager::new(2, true);
    assert_eq!(cubes.get(), Some((1, 6, 6)));
    assert_eq!(cubes.get(), Some((0, 0, 6)));
    assert_eq!(cubes.get(), None);
}

#[test]
fn light_arrays_and_counts() {
    let mut spot = SpotlightUniform::default();
    spot.inner_angle = 5;
    let mut other = SpotlightUniform::default();
    other.inner_angle = 6;
    let mut point = PointLightUniform::default();
    point.base.power = 9;
    let lights = vec![LightShaderStruct::Spot(spot), LightShaderStruct::Point(point), LightShaderStruct::Spot(other)];
    let (spots, points, suns) = light_uniform_arrays(&lights);
    assert_eq!(spots.len(), 7);
    assert_eq!(spots[0].inner_angle, 5);
    assert_eq!(spots[1].inner_angle, 6);
    assert_eq!(spots[2], SpotlightUniform::default());
    assert_eq!(points.len(), 2);
    assert_eq!(points[0].base.power, 9);
    assert_eq!(points[1], PointLightUniform::default());
    assert!(suns.is_empty());
    assert_eq!(lights_count(&lights), LightsUniformData::new(2, 1, 0));
    let (spots, points, suns) = light_uniform_arrays(&vec![]);
    assert_eq!((spots.len(), points.len(), suns.len()), (8, 4, 2));
    assert_eq!(suns[1], SunLightUniform::default());
}

#[test]
fn shadow_map_frame_updates() {
    assert_eq!(ShadowMapMode::Disabled.frame_update(), None);
    assert_eq!(
        ShadowMapMode::FullyDynamic(512).frame_update(),
        Some(ShadowMapUpdate { start: ShadowMapStart::Clear, dynamic_objects: true, static_objects: true })
    );
    assert_eq!(
        ShadowMapMode::SemiDynamic(512).frame_update(),
        Some(ShadowMapUpdate { start: ShadowMapStart::CopyStatic, dynamic_objects: true, static_objects: false })
    );
    assert_eq!(
        ShadowMapMode::Static(512).frame_update(),
        Some(ShadowMapUpdate { start: ShadowMapStart::CopyStatic, dynamic_objects: false, static_objects: false })
    );
}
