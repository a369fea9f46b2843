use dsge_vk::texture::{compressed_mip_sizes, TextureView};

#[test]
fn mip_levels_of_compressed_textures() {
    assert_eq!(compressed_mip_sizes(16, 8, 8, 5), vec![64, 16, 8, 8, 8]);
    assert_eq!(compressed_mip_sizes(13, 13, 16, 3), vec![256, 64, 16]);
    assert_eq!(compressed_mip_sizes(0, 4, 16, 2), vec![0, 16]);
    assert!(compressed_mip_sizes(1024, 1024, 8, 0).is_empty());
}

#[test]
fn sampler_names() {
    assert_eq!(TextureView::Dim2dArray.glsl_sampler_name(), "sampler2DArray");
    assert_eq!(TextureView::CubeArray.glsl_sampler_name(), "samplerCubeArray");
}
