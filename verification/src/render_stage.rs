//! Post-processing stages under assembly: the fragment shader of a stage, its
//! inputs and outputs, and the vertex shader that every stage shares.
use vstd::prelude::*;
use crate::glenums::{AttribType, ShaderType};
use crate::render_graph::RenderResolution;
use crate::shader::{
    bindings_below_max, is_next_binding, lemma_next_binding_insert, lemma_next_binding_unique, FragmentInterpolation,
    Shader, ShaderStructUniform, ShaderUniformArrayLength, ShaderView,
};
use crate::texture::TextureView;

verus! {

/// The start of every stage's fragment shader: the `iResolution` macro, the
/// three coordinates handed over by the vertex shader, and the resolution and
/// time blocks at bindings 0 and 1 of set 0.
pub open spec fn stage_shader_start<Time: ShaderStructUniform>() -> ShaderView {
    ShaderView::empty(ShaderType::Fragment)
        .with_define("iResolution"@, "resolution.dimensions"@)
        .with_input("position"@, AttribType::FVec2, FragmentInterpolation::NoPerspective)
        .with_input("fragCoord"@, AttribType::FVec2, FragmentInterpolation::NoPerspective)
        .with_input("pixelCoord"@, AttribType::FVec2, FragmentInterpolation::NoPerspective)
        .with_uniform_block("resolution"@, "uniform"@, RenderResolution::spec_glsl_type_name(), Seq::empty(),
            RenderResolution::spec_structure(), 0, 0)
        .with_uniform_block("timer"@, "uniform"@, Time::spec_glsl_type_name(), Seq::empty(), Time::spec_structure(), 0, 1)
}

/// The body of the vertex shader that every stage shares.
pub open spec fn plane_main() -> Seq<char> {
    "void main()
{
    position = v_pos.xy;
    fragCoord = v_pos.xy * vec2(0.5, 0.5) + 0.5;
    pixelCoord = vec2(fragCoord * resolution.dimensions);
    gl_Position = vec4(v_pos.xy, 0.0, 1.0);
}"@
}

/// The vertex shader of every stage: it draws the screen plane and hands the
/// position, the texture coordinate and the pixel coordinate on.
pub open spec fn plane_shader_view<Time: ShaderStructUniform>() -> ShaderView {
    ShaderView::empty(ShaderType::Vertex)
        .with_default_vertex_attributes()
        .with_define("iResolution"@, "resolution.dimensions"@)
        .with_uniform_block("resolution"@, "uniform"@, RenderResolution::spec_glsl_type_name(), Seq::empty(),
            RenderResolution::spec_structure(), 0, 0)
        .with_uniform_block("timer"@, "uniform"@, Time::spec_glsl_type_name(), Seq::empty(), Time::spec_structure(), 0, 1)
        .with_output("position"@, AttribType::FVec2)
        .with_output("fragCoord"@, AttribType::FVec2)
        .with_output("pixelCoord"@, AttribType::FVec2)
        .with_code(plane_main())
}

/// Declares the resolution and time blocks at the first two bindings of set 0
/// of a shader that has no uniforms yet.
fn declare_stage_blocks<Time: ShaderStructUniform>(shader: &mut Shader)
    requires
        old(shader).wf(),
        old(shader)@.uniforms == Map::<Seq<char>, (Seq<char>, u32, u32)>::empty(),
    ensures
        final(shader).wf(),
        final(shader)@ == old(shader)@.with_uniform_block("resolution"@, "uniform"@,
            RenderResolution::spec_glsl_type_name(), Seq::empty(), RenderResolution::spec_structure(), 0, 0)
            .with_uniform_block("timer"@, "uniform"@, Time::spec_glsl_type_name(), Seq::empty(), Time::spec_structure(), 0, 1),
{
    let ghost v0 = shader@;
    proof {
        reveal_strlit("resolution");
        reveal_strlit("timer");
        assert(is_next_binding(v0.uniforms, 0, 0));
        lemma_next_binding_unique(v0.uniforms, 0, 0);
    }
    shader.uniform_autoincrement::<RenderResolution>("resolution", ShaderUniformArrayLength::NotArray, 0).unwrap();
    let ghost v1 = shader@;
    proof {
        lemma_next_binding_insert(v0.uniforms, 0, 0, "resolution"@, (RenderResolution::spec_glsl_type_name(), 0, 0));
        lemma_next_binding_unique(v1.uniforms, 0, 1);
    }
    shader.uniform_autoincrement::<Time>("timer", ShaderUniformArrayLength::NotArray, 0).unwrap();
}

/// Assembles the vertex shader of every stage. `Time` is the block that carries
/// the frame time.
pub fn vertex_plane_shader<Time: ShaderStructUniform>() -> (s: Shader)
    ensures
        s.wf(),
        s@ == plane_shader_view::<Time>(),
{
    proof {
        crate::shader::lemma_slots_of_default_types();
    }
    let mut shader = Shader::builder(ShaderType::Vertex);
    shader.default_vertex_attributes().define("iResolution", "resolution.dimensions");
    declare_stage_blocks::<Time>(&mut shader);
    shader.output("position", AttribType::FVec2).output("fragCoord", AttribType::FVec2).output(
        "pixelCoord",
        AttribType::FVec2,
    ).code(
        "void main()
{
    position = v_pos.xy;
    fragCoord = v_pos.xy * vec2(0.5, 0.5) + 0.5;
    pixelCoord = vec2(fragCoord * resolution.dimensions);
    gl_Position = vec4(v_pos.xy, 0.0, 1.0);
}",
    );
    shader
}

/// What a stage builder has collected: the size of the stage's buffers, its
/// fragment shader, its outputs (pixel format and stack size, 0 for none) and
/// its inputs with their filters.
pub struct StageBuilderView<F, X> {
    pub dimensions: Seq<u32>,
    pub shader: ShaderView,
    pub outputs: Seq<(F, u8)>,
    pub inputs: Seq<(Seq<char>, X)>,
}

/// Assembles a post-processing stage. `F` is a pixel format and `X` a texture
/// filter.
pub struct RenderStageBuilder<F, X> {
    _dimensions: [u32; 3],
    _fragment_shader: Shader,
    _output_accum: Vec<(F, u8)>,
    _input_filters: Vec<(String, X)>,
}

impl<F, X> View for RenderStageBuilder<F, X> {
    type V = StageBuilderView<F, X>;

    closed spec fn view(&self) -> StageBuilderView<F, X> {
        StageBuilderView {
            dimensions: self._dimensions@,
            shader: self._fragment_shader@,
            outputs: self._output_accum@,
            inputs: self._input_filters@.map_values(|e: (String, X)| (e.0@, e.1)),
        }
    }
}

/// The attribute type of an output with `subpixels` components.
pub open spec fn output_type(subpixels: u8) -> AttribType {
    if subpixels == 1 {
        AttribType::Float
    } else if subpixels == 2 {
        AttribType::FVec2
    } else if subpixels == 3 {
        AttribType::FVec3
    } else {
        AttribType::FVec4
    }
}

impl<F, X> RenderStageBuilder<F, X> {
    pub closed spec fn wf(&self) -> bool {
        self._fragment_shader.wf()
    }

    /// A stage of 256 x 256 pixels without inputs or outputs whose fragment
    /// shader has the common start.
    pub fn stage_builder<Time: ShaderStructUniform>() -> (b: Self)
        ensures
            b.wf(),
            b@ == (StageBuilderView::<F, X> {
                dimensions: seq![256u32, 256u32, 1u32],
                shader: stage_shader_start::<Time>(),
                outputs: Seq::empty(),
                inputs: Seq::empty(),
            }),
    {
        proof {
            crate::shader::lemma_slots_of_default_types();
        }
        let mut shader = Shader::builder(ShaderType::Fragment);
        shader.define("iResolution", "resolution.dimensions")
            .input("position", AttribType::FVec2, FragmentInterpolation::NoPerspective)
            .input("fragCoord", AttribType::FVec2, FragmentInterpolation::NoPerspective)
            .input("pixelCoord", AttribType::FVec2, FragmentInterpolation::NoPerspective);
        declare_stage_blocks::<Time>(&mut shader);
        let b = RenderStageBuilder {
            _dimensions: [256, 256, 1],
            _fragment_shader: shader,
            _output_accum: Vec::new(),
            _input_filters: Vec::new(),
        };
        assert(b@.dimensions =~= seq![256u32, 256u32, 1u32]);
        assert(b@.inputs =~= Seq::<(Seq<char>, X)>::empty());
        b
    }

    /// Sets the size of the stage's buffers.
    pub fn dimenstions(&mut self, width: u16, height: u16) -> (r: &mut Self)
        ensures
            r@ == (StageBuilderView { dimensions: seq![width as u32, height as u32, 1u32], ..old(self)@ }),
            r.wf() == old(self).wf(),
            *final(self) == *final(r),
    {
        self._dimensions = [width as u32, height as u32, 1];
        assert(self@.dimensions =~= seq![width as u32, height as u32, 1u32]);
        self
    }

    /// Declares a uniform block holding `T` at the next free binding of set 0.
    pub fn uniform<T: ShaderStructUniform>(&mut self, name: &str, array_length: ShaderUniformArrayLength) -> (r: &mut Self)
        requires
            old(self).wf(),
            !old(self)@.shader.uniforms.contains_key(name@),
            bindings_below_max(old(self)@.shader.uniforms, 0),
        ensures
            r.wf(),
            r@ == (StageBuilderView {
                shader: old(self)@.shader.with_uniform_block(name@, "uniform"@, T::spec_glsl_type_name(),
                    array_length.spec_glsl_source(), T::spec_structure(), 0, old(self)@.shader.next_binding(0) as u32),
                ..old(self)@
            }),
            *final(self) == *final(r),
    {
        self._fragment_shader.uniform_autoincrement::<T>(name, array_length, 0).unwrap();
        self
    }

    /// Declares a uniform block named by `type_` with the structure of `T` at the
    /// next free binding of set 0.
    pub fn uniform_named_type<T: ShaderStructUniform>(
        &mut self,
        name: &str,
        type_: &str,
        array_length: ShaderUniformArrayLength,
    ) -> (r: &mut Self)
        requires
            old(self).wf(),
            !old(self)@.shader.uniforms.contains_key(name@),
            bindings_below_max(old(self)@.shader.uniforms, 0),
        ensures
            r.wf(),
            r@ == (StageBuilderView {
                shader: old(self)@.shader.with_uniform_block(name@, "uniform"@, type_@, array_length.spec_glsl_source(),
                    T::spec_structure(), 0, old(self)@.shader.next_binding(0) as u32),
                ..old(self)@
            }),
            *final(self) == *final(r),
    {
        let structure = T::structure();
        self._fragment_shader.uniform_structure_autoincrement(name, type_, array_length, structure.as_str(), 0).unwrap();
        self
    }

    /// Declares a uniform block of type `type_` with the given structure at the
    /// next free binding of set 0.
    pub fn uniform_structure(
        &mut self,
        name: &str,
        type_: &str,
        array_length: ShaderUniformArrayLength,
        structure: &str,
    ) -> (r: &mut Self)
        requires
            old(self).wf(),
            !old(self)@.shader.uniforms.contains_key(name@),
            bindings_below_max(old(self)@.shader.uniforms, 0),
        ensures
            r.wf(),
            r@ == (StageBuilderView {
                shader: old(self)@.shader.with_uniform_block(name@, "uniform"@, type_@, array_length.spec_glsl_source(),
                    structure@, 0, old(self)@.shader.next_binding(0) as u32),
                ..old(self)@
            }),
            *final(self) == *final(r),
    {
        self._fragment_shader.uniform_structure_autoincrement(name, type_, array_length, structure, 0).unwrap();
        self
    }

    /// Adds an input image read through a sampler of set 1, bound at the number of
    /// inputs before it, with the filter `filter`.
    pub fn input(&mut self, name: &str, dims: TextureView, filter: X, shadowmap: bool) -> (r: &mut Self)
        requires
            old(self).wf(),
            !old(self)@.shader.uniforms.contains_key(name@),
            old(self)@.inputs.len() <= u32::MAX,
        ensures
            r.wf(),
            r@ == (StageBuilderView {
                shader: old(self)@.shader.with_sampler(name@, 1, old(self)@.inputs.len() as u32, dims, shadowmap),
                inputs: old(self)@.inputs.push((name@, filter)),
                ..old(self)@
            }),
            *final(self) == *final(r),
    {
        let ghost before = self._input_filters@;
        let binding = self._input_filters.len() as u32;
        self._fragment_shader.uniform_sampler(name, 1, binding, dims, shadowmap).unwrap();
        self._input_filters.push((name.to_owned(), filter));
        assert(self._input_filters@.map_values(|e: (String, X)| (e.0@, e.1)) =~= before.map_values(
            |e: (String, X)| (e.0@, e.1),
        ).push((name@, filter)));
        self
    }

    /// Adds an output of `subpixels` components in the pixel format `pix_fmt`,
    /// with a stack of `stack` buffers (0 for a single buffer).
    pub fn output(&mut self, name: &str, pix_fmt: F, subpixels: u8, stack: u8) -> (r: &mut Self)
        requires
            old(self).wf(),
            1 <= subpixels <= 4,
            old(self)@.shader.can_output(output_type(subpixels)),
        ensures
            r.wf(),
            r@ == (StageBuilderView {
                shader: old(self)@.shader.with_output(name@, output_type(subpixels)),
                outputs: old(self)@.outputs.push((pix_fmt, stack)),
                ..old(self)@
            }),
            *final(self) == *final(r),
    {
        let glsl_type = if subpixels == 1 {
            AttribType::Float
        } else if subpixels == 2 {
            AttribType::FVec2
        } else if subpixels == 3 {
            AttribType::FVec3
        } else {
            AttribType::FVec4
        };
        self._fragment_shader.output(name, glsl_type);
        self._output_accum.push((pix_fmt, stack));
        self
    }

    /// Appends code to the fragment shader.
    pub fn code(&mut self, code: &str) -> (r: &mut Self)
        ensures
            r@ == (StageBuilderView { shader: old(self)@.shader.with_code(code@), ..old(self)@ }),
            r.wf() == old(self).wf(),
            *final(self) == *final(r),
    {
        self._fragment_shader.code(code);
        self
    }

    /// The fragment shader assembled so far.
    pub fn fragment_shader(&self) -> (s: &Shader)
        ensures
            s@ == self@.shader,
            self.wf() ==> s.wf(),
    {
        &self._fragment_shader
    }

    /// Records the hash of the SPIR-V code that the fragment shader compiled to.
    pub fn set_fragment_spirv_hash(&mut self, spirv_hash: u64)
        ensures
            final(self)@ == (StageBuilderView {
                shader: ShaderView { spirv_hash, ..old(self)@.shader },
                ..old(self)@
            }),
            final(self).wf() == old(self).wf(),
    {
        self._fragment_shader.set_spirv_hash(spirv_hash);
    }

    /// For each output, whether it keeps a stack of buffers.
    pub fn stack_outputs(&self) -> (r: Vec<bool>)
        ensures
            r@.len() == self@.outputs.len(),
            forall|i: int| 0 <= i < r@.len() ==> #[trigger] r@[i] == (self@.outputs[i].1 > 0),
    {
        let mut r: Vec<bool> = Vec::new();
        let mut i: usize = 0;
        while i < self._output_accum.len()
            invariant
                i <= self._output_accum@.len(),
                r@.len() == i,
                forall|j: int| 0 <= j < i ==> #[trigger] r@[j] == (self._output_accum@[j].1 > 0),
            decreases self._output_accum@.len() - i,
        {
            r.push(self._output_accum[i].1 > 0);
            i = i + 1;
        }
        r
    }
}

} // verus!
