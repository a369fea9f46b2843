use dsge_vk::light::{LightType, ShadowMapMode};
use dsge_vk::scene_file::{read_cstring, read_scene};

fn word(out: &mut Vec<u8>, v: u32) {
    out.extend_from_slice(&v.to_le_bytes());
}

fn text(out: &mut Vec<u8>, s: &str) {
    out.extend_from_slice(s.as_bytes());
    out.push(0);
}

fn sample_scene() -> Vec<u8> {
    let mut b = Vec::new();
    word(&mut b, 1);
    text(&mut b, "bricks");
    text(&mut b, "data/textures/bricks.png");
    word(&mut b, 1);
    text(&mut b, "wall");
    for w in 0..13u32 {
        word(&mut b, 1000 + w);
    }
    for t in ["bricks", "", "", "", "", "bricks_n"] {
        text(&mut b, t);
    }
    word(&mut b, 1);
    text(&mut b, "data/mesh/wall.mesh");
    word(&mut b, 2);
    text(&mut b, "Wall");
    text(&mut b, "");
    text(&mut b, "");
    for w in 0..12u32 {
        word(&mut b, 2000 + w);
    }
    b.extend_from_slice(&[0, 1, 1, 0, 0, 0, 0]);
    text(&mut b, "data/mesh/wall.mesh");
    text(&mut b, "wall");
    text(&mut b, "Lamp");
    text(&mut b, "Wall");
    text(&mut b, "");
    for w in 0..12u32 {
        word(&mut b, 3000 + w);
    }
    b.extend_from_slice(&[1, 0, 0, 1, 1, 0, 1]);
    for w in 0..12u32 {
        word(&mut b, 4000 + w);
    }
    b
}

#[test]
fn strings_end_at_zero_or_data_end() {
    let (s, next) = read_cstring(b"abc\0de", 0);
    assert_eq!(s, b"abc".to_vec());
    assert_eq!(next, 4);
    let (s, next) = read_cstring(b"abc\0de", 4);
    assert_eq!(s, b"de".to_vec());
    assert_eq!(next, 6);
    let (s, next) = read_cstring(b"abc", 3);
    assert!(s.is_empty());
    assert_eq!(next, 3);
}

#[test]
fn scene_lists_are_read_in_order() {
    let scene = read_scene(&sample_scene()).unwrap();
    assert_eq!(scene.textures.len(), 1);
    assert_eq!(scene.textures[0].name, b"bricks".to_vec());
    assert_eq!(scene.textures[0].path, b"data/textures/bricks.png".to_vec());
    let m = &scene.materials[0];
    assert_eq!(m.name, b"wall".to_vec());
    assert_eq!(m.diffuse, [1000, 1001, 1002, 1003]);
    assert_eq!(m.roughness, 1006);
    assert_eq!(m.emission, [1007, 1008, 1009]);
    assert_eq!(m.shadow_method, 1012);
    assert_eq!(m.diffuse_texture, b"bricks".to_vec());
    assert!(m.metallic_texture.is_empty());
    assert_eq!(m.normals_texture, b"bricks_n".to_vec());
    assert_eq!(scene.meshes, vec![b"data/mesh/wall.mesh".to_vec()]);
    assert_eq!(scene.objects.len(), 2);
    let wall = &scene.objects[0];
    assert_eq!(wall.name, b"Wall".to_vec());
    assert_eq!(wall.transform[11], 2011);
    assert!(!wall.hidden && wall.is_static && !wall.has_camera);
    assert_eq!(wall.mesh, Some((b"data/mesh/wall.mesh".to_vec(), b"wall".to_vec())));
    assert!(wall.light.is_none());
    let lamp = &scene.objects[1];
    assert_eq!(lamp.parent_name, b"Wall".to_vec());
    assert!(lamp.hidden && lamp.has_camera && lamp.has_physics && !lamp.is_static);
    assert!(lamp.mesh.is_none());
    let light = lamp.light.as_ref().unwrap();
    assert_eq!(light.energy, 4000);
    assert_eq!(light.color, [4001, 4002, 4003]);
    assert_eq!(light.typenum, 4004);
    assert_eq!(light.angle, 4011);
}

#[test]
fn truncated_scene_is_refused() {
    let bytes = sample_scene();
    assert!(read_scene(&bytes[..bytes.len() - 1]).is_none());
    assert!(read_scene(&bytes[..3]).is_none());
    let mut longer = bytes.clone();
    longer.extend_from_slice(&[9, 9]);
    assert!(read_scene(&longer).is_some());
    let mut empty = Vec::new();
    for _ in 0..4 {
        word(&mut empty, 0);
    }
    let scene = read_scene(&empty).unwrap();
    assert!(scene.textures.is_empty() && scene.materials.is_empty() && scene.meshes.is_empty() && scene.objects.is_empty());
}

#[test]
fn stored_codes() {
    assert_eq!(LightType::from_code(0), LightType::Point);
    assert_eq!(LightType::from_code(1), LightType::Sun);
    assert_eq!(LightType::from_code(2), LightType::Spot);
    assert_eq!(ShadowMapMode::from_code(0, 512), ShadowMapMode::Disabled);
    assert_eq!(ShadowMapMode::from_code(1, 512), ShadowMapMode::Static(512));
    assert_eq!(ShadowMapMode::from_code(2, 256), ShadowMapMode::FullyDynamic(256));
    assert_eq!(ShadowMapMode::from_code(3, 128), ShadowMapMode::SemiDynamic(128));
}
