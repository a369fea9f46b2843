use dsge_vk::render_graph::{
    PostprocessingPass, RenderStageInputSocket, RenderStageLink, RenderStageOutput, RenderStageOutputSocket,
};

fn link(from: u16, output: u64, stack_index: u8, to: u16, input: &str) -> RenderStageLink {
    RenderStageLink {
        _from: RenderStageOutputSocket { render_stage_id: from, output, stack_index },
        _to: RenderStageInputSocket { render_stage_id: to, input: input.to_owned() },
    }
}

#[test]
fn shift_moves_the_pointer_back() {
    let mut out: RenderStageOutput<u32, u8> = RenderStageOutput::new_stack(vec![1, 2, 3], 4);
    assert_eq!(out.shift_stack(9), 3);
    match &out {
        RenderStageOutput::Stack { buffers, pointer, .. } => {
            assert_eq!(*pointer, 2);
            assert_eq!(buffers, &vec![1, 2, 9]);
        },
        RenderStageOutput::Generic { .. } => panic!("a stack stays a stack"),
    }
    assert_eq!(out.shift_stack(10), 2);
    match &out {
        RenderStageOutput::Stack { buffers, pointer, .. } => {
            assert_eq!(*pointer, 1);
            assert_eq!(buffers, &vec![1, 10, 9]);
        },
        RenderStageOutput::Generic { .. } => panic!("a stack stays a stack"),
    }
}

#[test]
fn buffers_are_made_shared_and_reused() {
    let mut pass = PostprocessingPass::new();
    let a = pass.register_stage(vec![false]);
    let b = pass.register_stage(vec![false]);
    let c = pass.register_stage(vec![false]);
    assert!(pass.link_stages(a, 0, None, b, "in".to_owned()).is_ok());
    assert!(pass.link_stages(a, 0, None, c, "in".to_owned()).is_ok());
    assert!(pass.link_stages(b, 0, None, 0, "out".to_owned()).is_ok());
    let ab = link(a, 0, 0, b, "in");
    let ac = link(a, 0, 0, c, "in");
    let bo = link(b, 0, 0, 0, "out");
    // The pool is empty: a new buffer is made, and the sibling link holds it too.
    assert_eq!(pass.request_texture(&ab, 640, 480, 7, 100), 100);
    // Buffer 100 is busy, so the output gets a new buffer, which becomes bound to it.
    assert_eq!(pass.get_output("out"), None);
    assert_eq!(pass.request_texture(&bo, 640, 480, 7, 101), 101);
    assert_eq!(pass.get_output("out"), Some(101));
    // While `ac` still holds 100, a request of the same kind needs a third buffer.
    pass.free_texture(&ab);
    let cd = link(c, 0, 0, b, "other");
    assert_eq!(pass.request_texture(&cd, 640, 480, 7, 102), 102);
    pass.free_texture(&ac);
    pass.free_texture(&cd);
    // Now buffer 100 is free and fits; a different format does not fit it.
    assert_eq!(pass.request_texture(&cd, 640, 480, 7, 103), 100);
    assert_eq!(pass.request_texture(&ab, 640, 480, 8, 104), 104);
    assert_eq!(pass.request_texture(&ab, 320, 480, 7, 105), 105);
}

#[test]
fn bound_output_is_written() {
    let mut pass = PostprocessingPass::new();
    let a = pass.register_stage(vec![false]);
    assert!(pass.link_stages(a, 0, None, 0, "swapchain".to_owned()).is_ok());
    pass.set_output("swapchain".to_owned(), 55);
    assert_eq!(pass.get_output("swapchain"), Some(55));
    let out = link(a, 0, 0, 0, "swapchain");
    assert_eq!(pass.request_texture(&out, 800, 600, 1, 7), 55);
    assert_eq!(pass.get_output("swapchain"), Some(55));
    pass.set_output("swapchain".to_owned(), 56);
    assert_eq!(pass.request_texture(&out, 800, 600, 1, 8), 56);
}

#[test]
fn input_textures_are_replaced() {
    let mut pass = PostprocessingPass::new();
    pass.set_input(1, "gAlbedo".to_owned(), 3);
    pass.set_input(2, "gAlbedo".to_owned(), 4);
    pass.set_input(1, "gAlbedo".to_owned(), 5);
    assert_eq!(pass.input_texture(1, &"gAlbedo".to_owned()), Some(5));
    assert_eq!(pass.input_texture(2, &"gAlbedo".to_owned()), Some(4));
    assert_eq!(pass.input_texture(2, &"gNormals".to_owned()), None);
}

#[test]
fn reset_clears_everything() {
    let mut pass = PostprocessingPass::new();
    let a = pass.register_stage(vec![false]);
    assert!(pass.link_stages(a, 0, None, 0, "out".to_owned()).is_ok());
    pass.set_input(a, "gAlbedo".to_owned(), 3);
    pass.set_output("out".to_owned(), 9);
    let l = link(a, 0, 0, 1, "x");
    assert_eq!(pass.request_texture(&l, 10, 10, 1, 40), 40);
    pass.reset();
    assert_eq!(pass.stage_count(), 0);
    assert!(pass.final_stages().is_empty());
    assert_eq!(pass.get_output("out"), None);
    assert_eq!(pass.input_texture(a, &"gAlbedo".to_owned()), None);
    let a = pass.register_stage(vec![false]);
    assert_eq!(a, 1);
    // The pool is empty again: buffer 40 is gone.
    assert_eq!(pass.request_texture(&l, 10, 10, 1, 41), 41);
}
