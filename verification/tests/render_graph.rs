use dsge_vk::render_graph::{
    geometry_dimensions, Composer, DeferredLighting, FxaaFilter, PostprocessingPass, RenderResolution, RenderStageOutput,
    ScreenSpaceReflections, TemporalDeoiser,
};
use dsge_vk::shader::ShaderStructUniform;

#[test]
fn stages_are_numbered_from_one() {
    let mut pass = PostprocessingPass::new();
    assert_eq!(pass.register_stage(vec![false]), 1);
    assert_eq!(pass.register_stage(vec![false, false]), 2);
    assert_eq!(pass.register_stage(vec![]), 3);
    pass.reset();
    assert_eq!(pass.register_stage(vec![true]), 1);
    assert!(pass.final_stages().is_empty());
}

#[test]
fn loop_without_stack_buffer_is_refused() {
    let mut pass = PostprocessingPass::new();
    let a = pass.register_stage(vec![false]);
    let b = pass.register_stage(vec![false]);
    assert_eq!(pass.link_stages(a, 0, None, b, "input".to_owned()), Ok(()));
    assert_eq!(
        pass.link_stages(b, 0, None, a, "input".to_owned()),
        Err("Обнаружена петля без стековых буферов.".to_owned())
    );
    assert_eq!(
        pass.link_stages(a, 0, None, a, "self".to_owned()),
        Err("Обнаружена петля без стековых буферов.".to_owned())
    );
    assert_eq!(pass.link_stages(b, 0, None, 0, "output".to_owned()), Ok(()));
    assert_eq!(pass.final_stages(), vec![b]);
}

#[test]
fn loop_through_stack_buffer_is_accepted() {
    let mut pass = PostprocessingPass::new();
    let a = pass.register_stage(vec![false]);
    let history = pass.register_stage(vec![true]);
    assert_eq!(pass.link_stages(a, 0, None, history, "current".to_owned()), Ok(()));
    assert_eq!(pass.link_stages(history, 0, Some(1), a, "previous".to_owned()), Ok(()));
    assert_eq!(pass.link_stages(history, 0, Some(300), history, "older".to_owned()), Ok(()));
    assert_eq!(pass.link_stages(a, 0, None, 0, "output".to_owned()), Ok(()));
    assert_eq!(pass.link_stages(history, 0, None, 0, "debug".to_owned()), Ok(()));
    assert_eq!(pass.final_stages(), vec![a, history]);
}

#[test]
fn longer_loop_is_found() {
    let mut pass = PostprocessingPass::new();
    let a = pass.register_stage(vec![false]);
    let b = pass.register_stage(vec![false]);
    let c = pass.register_stage(vec![false, true]);
    assert!(pass.link_stages(a, 0, None, b, "x".to_owned()).is_ok());
    assert!(pass.link_stages(b, 0, None, c, "x".to_owned()).is_ok());
    assert!(pass.link_stages(c, 0, None, a, "x".to_owned()).is_err());
    assert!(pass.link_stages(c, 1, None, a, "x".to_owned()).is_ok());
}

#[test]
fn resolution_block() {
    assert_eq!(RenderResolution::glsl_type_name(), "Resolution");
    assert_eq!(RenderResolution::structure(), "{\n            uvec2 dimensions;\n        }");
    assert_eq!(RenderResolution::default(), RenderResolution { width: 0, height: 0 });
}

#[test]
fn stack_output_rotates() {
    let mut out: RenderStageOutput<u32, u8> = RenderStageOutput::new_stack(vec![1, 2, 3], 4);
    assert!(out.is_stack());
    assert_eq!(out.pix_fmt(), 4);
    assert_eq!(out.get_buffer_with_offset(0), Some(&1));
    assert_eq!(out.get_buffer_with_offset(1), Some(&2));
    assert_eq!(out.get_buffer_with_offset(4), Some(&2));
    assert_eq!(out.shift_stack(9), 3);
    assert_eq!(out.get_buffer_with_offset(0), Some(&9));
    assert_eq!(out.get_buffer_with_offset(1), Some(&1));
    assert_eq!(out.get_buffer_with_offset(2), Some(&2));
    assert_eq!(out.shift_stack(10), 2);
    assert_eq!(out.get_buffer_with_offset(0), Some(&10));
    assert_eq!(out.get_buffer_with_offset(2), Some(&1));
    let single: RenderStageOutput<u32, u8> = RenderStageOutput::Generic { pix_fmt: 6 };
    assert!(!single.is_stack());
    assert_eq!(single.pix_fmt(), 6);
    assert_eq!(single.get_buffer_with_offset(0), None);
}

#[test]
fn stages_run_after_their_inputs() {
    let mut pass = PostprocessingPass::new();
    let a = pass.register_stage(vec![false]);
    let b = pass.register_stage(vec![false]);
    let c = pass.register_stage(vec![false]);
    pass.link_stages(a, 0, None, b, "first".to_owned()).unwrap();
    pass.link_stages(c, 0, None, b, "second".to_owned()).unwrap();
    pass.link_stages(a, 0, None, c, "input".to_owned()).unwrap();
    pass.link_stages(b, 0, None, 0, "output".to_owned()).unwrap();
    assert_eq!(pass.execution_order(), vec![a, c, b]);
}

#[test]
fn execution_order_with_stack_loop() {
    let mut pass = PostprocessingPass::new();
    let a = pass.register_stage(vec![false]);
    let history = pass.register_stage(vec![true]);
    pass.link_stages(a, 0, None, history, "current".to_owned()).unwrap();
    pass.link_stages(history, 0, Some(1), a, "previous".to_owned()).unwrap();
    pass.link_stages(a, 0, None, 0, "output".to_owned()).unwrap();
    assert_eq!(pass.execution_order(), vec![history, a]);
    pass.link_stages(history, 0, None, 0, "debug".to_owned()).unwrap();
    assert_eq!(pass.execution_order(), vec![history, a, history]);
}

#[test]
fn deferred_pipeline_wiring() {
    let mut pass = PostprocessingPass::new();
    let lighting = DeferredLighting { stage_id: pass.register_stage(vec![false, false]), diffuse_out: 0, specular_out: 1 };
    let ssr = ScreenSpaceReflections {
        stage_id: pass.register_stage(vec![false, false]),
        diffuse_in: "diffuse".to_owned(),
        specular_in: "specular".to_owned(),
        specular_out: 0,
        diffuse_out: 1,
    };
    let composer = Composer {
        stage_id: pass.register_stage(vec![false]),
        diffuse_input: "diffuse".to_owned(),
        specular_input: "specular".to_owned(),
        output: 0,
    };
    let denoiser = TemporalDeoiser { stage_id: pass.register_stage(vec![false]), input: "image".to_owned(), output: 0 };
    let fxaa = FxaaFilter { stage_id: pass.register_stage(vec![false]), input: "image".to_owned(), output: 0 };
    let flip_y = pass.register_stage(vec![false]);
    assert_eq!(pass.link_pipeline(&lighting, &ssr, &composer, &denoiser, Some(&fxaa), flip_y), Ok(()));
    assert_eq!(pass.final_stages(), vec![flip_y]);
    assert_eq!(pass.execution_order(), vec![1, 2, 3, 4, 5, 6]);

    let mut looped = PostprocessingPass::new();
    for _ in 0..4 {
        looped.register_stage(vec![false, false]);
    }
    let result = looped.link_pipeline(&lighting, &ssr, &composer, &denoiser, None, composer.stage_id);
    assert_eq!(result, Err("Обнаружена петля без стековых буферов.".to_owned()));
    assert!(looped.final_stages().is_empty());
    assert_eq!(looped.execution_order(), Vec::<u16>::new());
}

#[test]
fn geometry_size() {
    assert_eq!(geometry_dimensions(1920, 1080, true), (960, 540));
    assert_eq!(geometry_dimensions(1921, 1081, true), (960, 540));
    assert_eq!(geometry_dimensions(800, 600, false), (800, 600));
}
