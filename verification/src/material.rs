//! Materials: the numeric and texture parameters of a surface, the GLSL text
//! they contribute, and the four shader programs a material is built into.
use vstd::prelude::*;
use crate::components::ProjectionUniformData;
use crate::glenums::{AttribType, ShaderType};
use crate::render_graph::RenderResolution;
use crate::shader::{
    already_declared_message, is_next_binding, lemma_next_binding_insert, lemma_next_binding_unique,
    lemma_slots_of_default_types, FragmentInterpolation, Shader, ShaderStructUniform, ShaderUniformArrayLength,
    ShaderView,
};
use crate::texture::TextureView;

verus! {

/// Descriptor set of the camera, resolution and time blocks.
pub const SHADER_CAMERA_SET: u32 = 0;
/// Descriptor set of the material parameter block.
pub const SHADER_MATERIAL_DATA_SET: u32 = 1;
/// Descriptor set of the material textures.
pub const SHADER_TEXTURE_SET: u32 = 2;

/// Which vertex shader: with skinning deformation or not, for the shadow map or not.
#[derive(Clone, Copy, Debug, Hash, PartialEq, Eq, Structural)]
pub struct MaterialVertexShaderType {
    pub deformable: bool,
    pub shadowmap: bool,
}

/// Which fragment shader: for the shadow map or not.
#[derive(Clone, Copy, Debug, Hash, PartialEq, Eq, Structural)]
pub struct MaterialFragmentShaderType {
    pub shadowmap: bool,
}

/// A vertex shader together with the fragment shader it is linked with.
#[derive(Clone, Copy, Debug, Hash, PartialEq, Eq, Structural)]
pub struct MaterialShaderProgramType {
    pub vertex: MaterialVertexShaderType,
    pub fragment: MaterialFragmentShaderType,
}

impl MaterialVertexShaderType {
    /// Index of the variant: `deformable` is bit 1, `shadowmap` bit 0.
    pub open spec fn spec_index(self) -> nat {
        (if self.deformable { 2nat } else { 0nat }) + (if self.shadowmap { 1nat } else { 0nat })
    }

    /// All four variants, in the order of their indices.
    pub fn combinations() -> (r: [Self; 4])
        ensures
            r@ == seq![
                MaterialVertexShaderType { deformable: false, shadowmap: false },
                MaterialVertexShaderType { deformable: false, shadowmap: true },
                MaterialVertexShaderType { deformable: true, shadowmap: false },
                MaterialVertexShaderType { deformable: true, shadowmap: true },
            ],
    {
        let r = [
            MaterialVertexShaderType { deformable: false, shadowmap: false },
            MaterialVertexShaderType { deformable: false, shadowmap: true },
            MaterialVertexShaderType { deformable: true, shadowmap: false },
            MaterialVertexShaderType { deformable: true, shadowmap: true },
        ];
        assert(r@ =~= seq![
            MaterialVertexShaderType { deformable: false, shadowmap: false },
            MaterialVertexShaderType { deformable: false, shadowmap: true },
            MaterialVertexShaderType { deformable: true, shadowmap: false },
            MaterialVertexShaderType { deformable: true, shadowmap: true },
        ]);
        r
    }

    pub fn as_index(&self) -> (i: usize)
        ensures
            i == self.spec_index(),
    {
        let d: usize = if self.deformable { 1 } else { 0 };
        let s: usize = if self.shadowmap { 1 } else { 0 };
        d * 2 + s
    }
}

impl MaterialFragmentShaderType {
    pub open spec fn spec_index(self) -> nat {
        if self.shadowmap { 1 } else { 0 }
    }

    /// Both variants, in the order of their indices.
    pub fn combinations() -> (r: [Self; 2])
        ensures
            r@ == seq![
                MaterialFragmentShaderType { shadowmap: false },
                MaterialFragmentShaderType { shadowmap: true },
            ],
    {
        let r = [MaterialFragmentShaderType { shadowmap: false }, MaterialFragmentShaderType { shadowmap: true }];
        assert(r@ =~= seq![
            MaterialFragmentShaderType { shadowmap: false },
            MaterialFragmentShaderType { shadowmap: true },
        ]);
        r
    }

    pub fn as_index(&self) -> (i: usize)
        ensures
            i == self.spec_index(),
    {
        if self.shadowmap { 1 } else { 0 }
    }
}

impl MaterialShaderProgramType {
    /// A program is identified by its vertex shader.
    pub open spec fn spec_index(self) -> nat {
        self.vertex.spec_index()
    }

    /// The four programs: each vertex variant with the fragment variant of the same
    /// shadow-map setting, in the order of their indices.
    pub fn combinations() -> (r: [Self; 4])
        ensures
            r@ == seq![
                MaterialShaderProgramType {
                    vertex: MaterialVertexShaderType { deformable: false, shadowmap: false },
                    fragment: MaterialFragmentShaderType { shadowmap: false },
                },
                MaterialShaderProgramType {
                    vertex: MaterialVertexShaderType { deformable: false, shadowmap: true },
                    fragment: MaterialFragmentShaderType { shadowmap: true },
                },
                MaterialShaderProgramType {
                    vertex: MaterialVertexShaderType { deformable: true, shadowmap: false },
                    fragment: MaterialFragmentShaderType { shadowmap: false },
                },
                MaterialShaderProgramType {
                    vertex: MaterialVertexShaderType { deformable: true, shadowmap: true },
                    fragment: MaterialFragmentShaderType { shadowmap: true },
                },
            ],
    {
        let vcomb = MaterialVertexShaderType::combinations();
        let fcomb = MaterialFragmentShaderType::combinations();
        let r = [
            MaterialShaderProgramType { vertex: vcomb[0], fragment: fcomb[0] },
            MaterialShaderProgramType { vertex: vcomb[1], fragment: fcomb[1] },
            MaterialShaderProgramType { vertex: vcomb[2], fragment: fcomb[0] },
            MaterialShaderProgramType { vertex: vcomb[3], fragment: fcomb[1] },
        ];
        assert(r@ =~= seq![
            MaterialShaderProgramType {
                vertex: MaterialVertexShaderType { deformable: false, shadowmap: false },
                fragment: MaterialFragmentShaderType { shadowmap: false },
            },
            MaterialShaderProgramType {
                vertex: MaterialVertexShaderType { deformable: false, shadowmap: true },
                fragment: MaterialFragmentShaderType { shadowmap: true },
            },
            MaterialShaderProgramType {
                vertex: MaterialVertexShaderType { deformable: true, shadowmap: false },
                fragment: MaterialFragmentShaderType { shadowmap: false },
            },
            MaterialShaderProgramType {
                vertex: MaterialVertexShaderType { deformable: true, shadowmap: true },
                fragment: MaterialFragmentShaderType { shadowmap: true },
            },
        ]);
        r
    }

    pub fn as_index(&self) -> (i: usize)
        ensures
            i == self.spec_index(),
    {
        self.vertex.as_index()
    }

    /// The program that fills the G-buffer with undeformed geometry.
    pub fn base_gbuffer() -> (r: Self)
        ensures
            r == (MaterialShaderProgramType {
                vertex: MaterialVertexShaderType { deformable: false, shadowmap: false },
                fragment: MaterialFragmentShaderType { shadowmap: false },
            }),
    {
        Self {
            vertex: MaterialVertexShaderType { deformable: false, shadowmap: false },
            fragment: MaterialFragmentShaderType { shadowmap: false },
        }
    }

    /// The program that renders undeformed geometry into a shadow map.
    pub fn base_shadowmap() -> (r: Self)
        ensures
            r == (MaterialShaderProgramType {
                vertex: MaterialVertexShaderType { deformable: false, shadowmap: true },
                fragment: MaterialFragmentShaderType { shadowmap: true },
            }),
    {
        Self {
            vertex: MaterialVertexShaderType { deformable: false, shadowmap: true },
            fragment: MaterialFragmentShaderType { shadowmap: true },
        }
    }
}

/// The variants of each kind are numbered 0..n without gaps or repeats, in the
/// order in which `combinations` lists them; a shader program is numbered as its
/// vertex shader and pairs it with the fragment shader of the same shadow-map
/// setting. Shader arrays of a material are indexed by these numbers.
pub proof fn lemma_combinations_indexed()
    ensures
        forall|v: MaterialVertexShaderType| #[trigger] v.spec_index() < 4,
        forall|f: MaterialFragmentShaderType| #[trigger] f.spec_index() < 2,
        forall|v1: MaterialVertexShaderType, v2: MaterialVertexShaderType|
            #[trigger] v1.spec_index() == #[trigger] v2.spec_index() ==> v1 == v2,
        forall|f1: MaterialFragmentShaderType, f2: MaterialFragmentShaderType|
            #[trigger] f1.spec_index() == #[trigger] f2.spec_index() ==> f1 == f2,
        seq![
            MaterialVertexShaderType { deformable: false, shadowmap: false },
            MaterialVertexShaderType { deformable: false, shadowmap: true },
            MaterialVertexShaderType { deformable: true, shadowmap: false },
            MaterialVertexShaderType { deformable: true, shadowmap: true },
        ].map_values(|v: MaterialVertexShaderType| v.spec_index()) == seq![0nat, 1nat, 2nat, 3nat],
{
    let s = seq![
        MaterialVertexShaderType { deformable: false, shadowmap: false },
        MaterialVertexShaderType { deformable: false, shadowmap: true },
        MaterialVertexShaderType { deformable: true, shadowmap: false },
        MaterialVertexShaderType { deformable: true, shadowmap: true },
    ];
    assert(s.map_values(|v: MaterialVertexShaderType| v.spec_index()) =~= seq![0nat, 1nat, 2nat, 3nat]);
}

/// A numeric material parameter. `f32` components are held as bit patterns.
#[derive(Clone, Copy, Debug)]
pub enum MaterialSlot {
    Scalar(u32),
    IScalar(i32),
    Vec2([u32; 2]),
    Vec3([u32; 3]),
    Vec4([u32; 4]),
    Mat2([u32; 4]),
    Mat3([u32; 9]),
    Mat4([u32; 16]),
}

impl MaterialSlot {
    /// The GLSL type of the parameter, padded to a field of its declaration.
    pub open spec fn spec_glsl_prefix(self) -> Seq<char> {
        match self {
            MaterialSlot::Scalar(_) => "float "@,
            MaterialSlot::IScalar(_) => "int   "@,
            MaterialSlot::Vec2(_) => "vec2  "@,
            MaterialSlot::Vec3(_) => "vec3  "@,
            MaterialSlot::Vec4(_) => "vec4  "@,
            MaterialSlot::Mat2(_) => "mat2  "@,
            MaterialSlot::Mat3(_) => "mat3  "@,
            MaterialSlot::Mat4(_) => "mat4  "@,
        }
    }

    /// The 32-bit words of the parameter as they are uploaded; an integer keeps its bits.
    pub open spec fn spec_words(self) -> Seq<u32> {
        match self {
            MaterialSlot::Scalar(v) => seq![v],
            MaterialSlot::IScalar(v) => seq![v as u32],
            MaterialSlot::Vec2(v) => v@,
            MaterialSlot::Vec3(v) => v@,
            MaterialSlot::Vec4(v) => v@,
            MaterialSlot::Mat2(v) => v@,
            MaterialSlot::Mat3(v) => v@,
            MaterialSlot::Mat4(v) => v@,
        }
    }

    /// The number of components of the parameter's GLSL type: 1 for `float`
    /// and `int`, 2, 3 and 4 for the vectors, 4, 9 and 16 for the matrices.
    pub open spec fn spec_component_count(self) -> nat {
        match self {
            MaterialSlot::Scalar(_) | MaterialSlot::IScalar(_) => 1,
            MaterialSlot::Vec2(_) => 2,
            MaterialSlot::Vec3(_) => 3,
            MaterialSlot::Vec4(_) | MaterialSlot::Mat2(_) => 4,
            MaterialSlot::Mat3(_) => 9,
            MaterialSlot::Mat4(_) => 16,
        }
    }

    /// Component `i` of the parameter, as a 32-bit word.
    pub open spec fn spec_component(self, i: int) -> u32 {
        match self {
            MaterialSlot::Scalar(v) => v,
            MaterialSlot::IScalar(v) => v as u32,
            MaterialSlot::Vec2(v) => v[i],
            MaterialSlot::Vec3(v) => v[i],
            MaterialSlot::Vec4(v) => v[i],
            MaterialSlot::Mat2(v) => v[i],
            MaterialSlot::Mat3(v) => v[i],
            MaterialSlot::Mat4(v) => v[i],
        }
    }

    /// The words of a parameter are exactly its components, in order: as many
    /// as its GLSL type has, component `i` as word `i`.
    pub proof fn lemma_words_are_components(self)
        ensures
            self.spec_words().len() == self.spec_component_count(),
            forall|i: int| 0 <= i < self.spec_component_count() ==> #[trigger] self.spec_words()[i] == self.spec_component(i),
    {
    }

    fn glsl_prefix(&self) -> (s: &'static str)
        ensures
            s@ == self.spec_glsl_prefix(),
    {
        match self {
            MaterialSlot::Scalar(_) => "float ",
            MaterialSlot::IScalar(_) => "int   ",
            MaterialSlot::Vec2(_) => "vec2  ",
            MaterialSlot::Vec3(_) => "vec3  ",
            MaterialSlot::Vec4(_) => "vec4  ",
            MaterialSlot::Mat2(_) => "mat2  ",
            MaterialSlot::Mat3(_) => "mat3  ",
            MaterialSlot::Mat4(_) => "mat4  ",
        }
    }

    /// Appends the words of the parameter to `data`.
    pub fn push_words(&self, data: &mut Vec<u32>)
        ensures
            final(data)@ == old(data)@ + self.spec_words(),
            final(data)@.len() == old(data)@.len() + self.spec_component_count(),
            forall|i: int| 0 <= i < old(data)@.len() ==> #[trigger] final(data)@[i] == old(data)@[i],
            forall|i: int| 0 <= i < self.spec_component_count() ==> #[trigger] final(data)@[old(data)@.len() + i]
                == self.spec_component(i),
    {
        let ghost start = data@;
        match self {
            MaterialSlot::Scalar(v) => {
                data.push(*v);
            },
            MaterialSlot::IScalar(v) => {
                data.push(*v as u32);
            },
            MaterialSlot::Vec2(v) => {
                push_all(data, v);
            },
            MaterialSlot::Vec3(v) => {
                push_all(data, v);
            },
            MaterialSlot::Vec4(v) => {
                push_all(data, v);
            },
            MaterialSlot::Mat2(v) => {
                push_all(data, v);
            },
            MaterialSlot::Mat3(v) => {
                push_all(data, v);
            },
            MaterialSlot::Mat4(v) => {
                push_all(data, v);
            },
        }
        assert(data@ =~= start + self.spec_words());
        proof {
            self.lemma_words_are_components();
        }
    }
}

fn push_all(data: &mut Vec<u32>, words: &[u32])
    ensures
        final(data)@ == old(data)@ + words@,
{
    let ghost start = data@;
    let mut i: usize = 0;
    while i < words.len()
        invariant
            i <= words@.len(),
            data@ == start + words@.subrange(0, i as int),
        decreases words@.len() - i,
    {
        data.push(words[i]);
        assert(words@.subrange(0, i as int + 1) =~= words@.subrange(0, i as int).push(words@[i as int]));
        assert(data@ =~= start + words@.subrange(0, i as int + 1));
        i = i + 1;
    }
    assert(words@.subrange(0, words@.len() as int) =~= words@);
}

/// The words of all parameters, one after another, in declaration order.
pub open spec fn slots_words(slots: Seq<(Seq<char>, MaterialSlot)>) -> Seq<u32>
    decreases slots.len(),
{
    if slots.len() == 0 {
        Seq::<u32>::empty()
    } else {
        slots_words(slots.subrange(0, slots.len() - 1)) + slots[slots.len() - 1].1.spec_words()
    }
}

/// The field declarations of the parameters, one per line.
pub open spec fn slots_structure(slots: Seq<(Seq<char>, MaterialSlot)>) -> Seq<char>
    decreases slots.len(),
{
    if slots.len() == 0 {
        Seq::<char>::empty()
    } else {
        slots_structure(slots.subrange(0, slots.len() - 1)) + slots[slots.len() - 1].1.spec_glsl_prefix()
            + slots[slots.len() - 1].0 + ";\n"@
    }
}

/// The material block lists the numeric parameters in the order they were added:
/// when the block text declares the parameters so far, adding a parameter the way
/// `add_numeric_parameter` does keeps it so.
pub proof fn lemma_block_lists_parameters(
    structure: Seq<char>,
    slots: Seq<(Seq<char>, MaterialSlot)>,
    name: Seq<char>,
    param: MaterialSlot,
)
    requires
        structure == slots_structure(slots),
    ensures
        structure + param.spec_glsl_prefix() + name + ";\n"@ == slots_structure(slots.push((name, param))),
{
    let pushed = slots.push((name, param));
    assert(pushed.subrange(0, pushed.len() - 1) =~= slots);
}

/// The names of the parameters taken by their views.
pub open spec fn slots_view(slots: Seq<(String, MaterialSlot)>) -> Seq<(Seq<char>, MaterialSlot)> {
    slots.map_values(|e: (String, MaterialSlot)| (e.0@, e.1))
}

/// The words of all parameters, in declaration order.
pub fn numeric_data(slots: &Vec<(String, MaterialSlot)>) -> (data: Vec<u32>)
    ensures
        data@ == slots_words(slots_view(slots@)),
{
    let mut data: Vec<u32> = Vec::new();
    let mut i: usize = 0;
    while i < slots.len()
        invariant
            i <= slots@.len(),
            data@ == slots_words(slots_view(slots@).subrange(0, i as int)),
        decreases slots@.len() - i,
    {
        slots[i].1.push_words(&mut data);
        proof {
            let p = slots_view(slots@).subrange(0, i as int + 1);
            assert(p.subrange(0, p.len() - 1) =~= slots_view(slots@).subrange(0, i as int));
        }
        i = i + 1;
    }
    assert(slots_view(slots@).subrange(0, slots@.len() as int) =~= slots_view(slots@));
    data
}

/// The surface code a material starts with: it reads the material block and
/// its maps into the PBR inputs.
pub open spec fn spec_default_pbr() -> Seq<char> {
    "
void principled() {
#if defined(SUPER_RESOLUTION) && !defined(SHADOWMAP)
    #define BIAS -1.0
#else
    #define BIAS 0.0
#endif

#ifdef SHADOWMAP
    vec4 diffuse = vec4(1.0);
    if (material.shadow_method!=material.shadow_method)
    {
        mDiffuse = vec4(1.0);
        return;
    }
    if (material.use_diffuse_map!=0) {
        mDiffuse = texture(fDiffuseMap, texture_uv);
        mDiffuse.a = min(material.diffuse.a, mDiffuse.a);
    } else {
        mDiffuse = material.diffuse;
    }
#else
    if (material.use_diffuse_map!=0) {
        mDiffuse = texture(fDiffuseMap, texture_uv, BIAS);
        mDiffuse.a = min(material.diffuse.a, mDiffuse.a);
    } else {
        mDiffuse = material.diffuse;
    }
    if (material.use_normal_map!=0) {
        vec3 nrm = pow(texture(fNornalMap, texture_uv, BIAS).rgb, vec3(1.0/2.2))*2.0-1.0;
        nrm.y = -nrm.y;
        nrm.z = sqrt(1.0 - min(nrm.x*nrm.x + nrm.y*nrm.y, 1.0));
        mNormal = TBN * nrm;
    }
    
    if (material.use_roughness_map!=0) {
        mRoughness = pow(texture(fRoughnessMap, texture_uv, BIAS).r, 0.4545454545);
    }
    else {
        mRoughness = pow(material.roughness, 0.4545454545);
    }

    if (material.use_metallic_map!=0) {
        mMetallic = texture(fMetallicMap, texture_uv, BIAS).r;
    }
    else {
        mMetallic = material.metallic;
    }

    if (material.use_specular_map!=0) {
        mSpecular = pow(texture(fSpecularMap, texture_uv, BIAS).r, 0.45454545);
    }
    else {
        mSpecular = material.specular;
    }
    
    mAmbient = vec3(material.glow)*0.0; //texture(fLightMap, texture_uv).rgb;

    if (material.use_emission_map!=0) {
        mAmbient += texture(fEmissionMap, texture_uv, BIAS).rgb*1000.0;
    }
    mRoughness *= mRoughness;
#endif
}"@
}

fn default_pbr() -> (s: &'static str)
    ensures
        s@ == spec_default_pbr(),
{
    "
void principled() {
#if defined(SUPER_RESOLUTION) && !defined(SHADOWMAP)
    #define BIAS -1.0
#else
    #define BIAS 0.0
#endif

#ifdef SHADOWMAP
    vec4 diffuse = vec4(1.0);
    if (material.shadow_method!=material.shadow_method)
    {
        mDiffuse = vec4(1.0);
        return;
    }
    if (material.use_diffuse_map!=0) {
        mDiffuse = texture(fDiffuseMap, texture_uv);
        mDiffuse.a = min(material.diffuse.a, mDiffuse.a);
    } else {
        mDiffuse = material.diffuse;
    }
#else
    if (material.use_diffuse_map!=0) {
        mDiffuse = texture(fDiffuseMap, texture_uv, BIAS);
        mDiffuse.a = min(material.diffuse.a, mDiffuse.a);
    } else {
        mDiffuse = material.diffuse;
    }
    if (material.use_normal_map!=0) {
        vec3 nrm = pow(texture(fNornalMap, texture_uv, BIAS).rgb, vec3(1.0/2.2))*2.0-1.0;
        nrm.y = -nrm.y;
        nrm.z = sqrt(1.0 - min(nrm.x*nrm.x + nrm.y*nrm.y, 1.0));
        mNormal = TBN * nrm;
    }
    
    if (material.use_roughness_map!=0) {
        mRoughness = pow(texture(fRoughnessMap, texture_uv, BIAS).r, 0.4545454545);
    }
    else {
        mRoughness = pow(material.roughness, 0.4545454545);
    }

    if (material.use_metallic_map!=0) {
        mMetallic = texture(fMetallicMap, texture_uv, BIAS).r;
    }
    else {
        mMetallic = material.metallic;
    }

    if (material.use_specular_map!=0) {
        mSpecular = pow(texture(fSpecularMap, texture_uv, BIAS).r, 0.45454545);
    }
    else {
        mSpecular = material.specular;
    }
    
    mAmbient = vec3(material.glow)*0.0; //texture(fLightMap, texture_uv).rgb;

    if (material.use_emission_map!=0) {
        mAmbient += texture(fEmissionMap, texture_uv, BIAS).rgb*1000.0;
    }
    mRoughness *= mRoughness;
#endif
}"
}

/// What a material builder has collected.
pub struct MaterialBuilderView {
    pub name: Seq<char>,
    pub texture_slots: Seq<(Seq<char>, TextureView)>,
    pub numeric_slots: Seq<(Seq<char>, MaterialSlot)>,
    pub defines: Seq<char>,
    pub uniform_structure: Seq<char>,
    pub pbr_code: Seq<char>,
}

/// Collects the parameters, textures, macros and surface code of a material.
pub struct MaterialBuilder {
    name: String,
    texture_slots: Vec<(String, TextureView)>,
    numeric_slots: Vec<(String, MaterialSlot)>,
    defines: String,
    uniform_structure: String,
    pbr_code: String,
}

/// The texture slots taken by the views of their names.
pub open spec fn texture_slots_view(slots: Seq<(String, TextureView)>) -> Seq<(Seq<char>, TextureView)> {
    slots.map_values(|e: (String, TextureView)| (e.0@, e.1))
}

impl View for MaterialBuilder {
    type V = MaterialBuilderView;

    closed spec fn view(&self) -> MaterialBuilderView {
        MaterialBuilderView {
            name: self.name@,
            texture_slots: texture_slots_view(self.texture_slots@),
            numeric_slots: slots_view(self.numeric_slots@),
            defines: self.defines@,
            uniform_structure: self.uniform_structure@,
            pbr_code: self.pbr_code@,
        }
    }
}

impl MaterialBuilder {
    /// A material named `name` with no parameters and the default surface code.
    pub fn builder(name: &str) -> (b: MaterialBuilder)
        ensures
            b@ == (MaterialBuilderView {
                name: name@,
                texture_slots: Seq::empty(),
                numeric_slots: Seq::empty(),
                defines: Seq::empty(),
                uniform_structure: Seq::empty(),
                pbr_code: spec_default_pbr(),
            }),
    {
        let b = MaterialBuilder {
            name: name.to_owned(),
            texture_slots: Vec::new(),
            numeric_slots: Vec::new(),
            uniform_structure: String::new(),
            defines: String::new(),
            pbr_code: default_pbr().to_owned(),
        };
        assert(b@.texture_slots =~= Seq::<(Seq<char>, TextureView)>::empty());
        assert(b@.numeric_slots =~= Seq::<(Seq<char>, MaterialSlot)>::empty());
        b
    }

    /// Replaces the code that describes the surface (for procedural materials).
    pub fn set_pbr_code(&mut self, code: &str) -> (r: &mut Self)
        ensures
            r@ == (MaterialBuilderView { pbr_code: code@, ..old(self)@ }),
            *final(self) == *final(r),
    {
        self.pbr_code = code.to_owned();
        self
    }

    /// Adds a texture slot read as a sampler of kind `texture`.
    pub fn add_texture(&mut self, name: &str, texture: TextureView) -> (r: &mut Self)
        ensures
            r@ == (MaterialBuilderView {
                texture_slots: old(self)@.texture_slots.push((name@, texture)),
                ..old(self)@
            }),
            *final(self) == *final(r),
    {
        let ghost before = self.texture_slots@;
        self.texture_slots.push((name.to_owned(), texture));
        assert(texture_slots_view(self.texture_slots@) =~= texture_slots_view(before).push((name@, texture)));
        self
    }

    /// Adds a numeric parameter and its field in the material block.
    pub fn add_numeric_parameter(&mut self, name: &str, param: MaterialSlot) -> (r: &mut Self)
        ensures
            r@ == (MaterialBuilderView {
                numeric_slots: old(self)@.numeric_slots.push((name@, param)),
                uniform_structure: old(self)@.uniform_structure + param.spec_glsl_prefix() + name@ + ";\n"@,
                ..old(self)@
            }),
            *final(self) == *final(r),
    {
        let ghost before = self.numeric_slots@;
        let ghost text = self.uniform_structure@;
        self.uniform_structure.append(param.glsl_prefix());
        self.uniform_structure.append(name);
        self.uniform_structure.append(";\n");
        self.numeric_slots.push((name.to_owned(), param));
        assert(slots_view(self.numeric_slots@) =~= slots_view(before).push((name@, param)));
        assert(self.uniform_structure@ =~= text + param.spec_glsl_prefix() + name@ + ";\n"@);
        self
    }

    /// Adds the macro `name` with the value `expression` to the material's shaders.
    pub fn define(&mut self, name: &str, expression: &str) -> (r: &mut Self)
        ensures
            r@ == (MaterialBuilderView {
                defines: old(self)@.defines + "#define "@ + name@ + " "@ + expression@ + "\n"@,
                ..old(self)@
            }),
            *final(self) == *final(r),
    {
        let ghost text = self.defines@;
        self.defines.append("#define ");
        self.defines.append(name);
        self.defines.append(" ");
        self.defines.append(expression);
        self.defines.append("\n");
        assert(self.defines@ =~= text + "#define "@ + name@ + " "@ + expression@ + "\n"@);
        self
    }

    /// The words of the numeric parameters as they fill the material block.
    pub fn numeric_data(&self) -> (data: Vec<u32>)
        ensures
            data@ == slots_words(self@.numeric_slots),
    {
        numeric_data(&self.numeric_slots)
    }

    /// Assembles the vertex shader of one material variant. `Time` is the block
    /// that carries the frame time.
    pub fn vertex_shader_combination<Time: ShaderStructUniform>(
        &self,
        shadowmap: bool,
        deformable: bool,
        super_resolution: bool,
    ) -> (s: Shader)
        ensures
            s.wf(),
            s@ == vertex_combination_view::<Time>(self@.defines, self@.uniform_structure, shadowmap, deformable,
                super_resolution),
    {
        proof {
            lemma_slots_of_default_types();
        }
        let mut builder = Shader::builder(ShaderType::Vertex);
        builder.default_vertex_attributes();
        builder.instance_attributes();
        builder.output("triangle_index", AttribType::Int);
        builder.output("texture_uv", AttribType::FVec2);
        builder.output("world_position", AttribType::FVec3);
        if super_resolution {
            builder.define("SUPER_RESOLUTION", "1");
        }
        if deformable {
            builder.define("DEFORMED", "");
        }
        if shadowmap {
            builder.define("SHADOWMAP", "");
        } else {
            builder.output("position", AttribType::FVec4);
            builder.output("position_prev", AttribType::FVec4);
            builder.output("view_vector", AttribType::FVec3);
            builder.output("TBN", AttribType::FMat3);
        }
        let mut material_block = "{\n".to_owned();
        material_block.append(self.uniform_structure.as_str());
        material_block.append("}");
        declare_frame_blocks::<Time>(&mut builder);
        let ghost with_blocks = builder@;
        builder.code(self.defines.as_str());
        proof {
            reveal_strlit("camera");
            reveal_strlit("resolution");
            reveal_strlit("timer");
            reveal_strlit("material");
        }
        builder.uniform_structure(
            "material",
            "Material",
            ShaderUniformArrayLength::NotArray,
            material_block.as_str(),
            SHADER_MATERIAL_DATA_SET,
            0,
        ).unwrap();
        builder.include_file("data/shaders/geometry_pass.vert.glsl");
        builder
    }
}

/// The declarations that every material shader starts with, before its blocks.
pub open spec fn vertex_declarations(shadowmap: bool, deformable: bool, super_resolution: bool) -> ShaderView {
    let v1 = ShaderView::empty(ShaderType::Vertex)
        .with_default_vertex_attributes()
        .with_instance_attributes()
        .with_output("triangle_index"@, AttribType::Int)
        .with_output("texture_uv"@, AttribType::FVec2)
        .with_output("world_position"@, AttribType::FVec3);
    let v2 = if super_resolution { v1.with_define("SUPER_RESOLUTION"@, "1"@) } else { v1 };
    let v3 = if deformable { v2.with_define("DEFORMED"@, ""@) } else { v2 };
    if shadowmap {
        v3.with_define("SHADOWMAP"@, ""@)
    } else {
        v3.with_output("position"@, AttribType::FVec4)
            .with_output("position_prev"@, AttribType::FVec4)
            .with_output("view_vector"@, AttribType::FVec3)
            .with_output("TBN"@, AttribType::FMat3)
    }
}

/// The camera, resolution and time blocks at bindings 0, 1 and 2 of the camera set.
pub open spec fn with_frame_blocks<Time: ShaderStructUniform>(v: ShaderView) -> ShaderView {
    v.with_uniform_block("camera"@, "uniform"@, ProjectionUniformData::spec_glsl_type_name(),
        ShaderUniformArrayLength::NotArray.spec_glsl_source(), ProjectionUniformData::spec_structure(), 0, 0)
     .with_uniform_block("resolution"@, "uniform"@, RenderResolution::spec_glsl_type_name(),
        ShaderUniformArrayLength::NotArray.spec_glsl_source(), RenderResolution::spec_structure(), 0, 1)
     .with_uniform_block("timer"@, "uniform"@, Time::spec_glsl_type_name(),
        ShaderUniformArrayLength::NotArray.spec_glsl_source(), Time::spec_structure(), 0, 2)
}

/// The vertex shader of a material variant.
pub open spec fn vertex_combination_view<Time: ShaderStructUniform>(
    defines: Seq<char>,
    uniform_structure: Seq<char>,
    shadowmap: bool,
    deformable: bool,
    super_resolution: bool,
) -> ShaderView {
    with_frame_blocks::<Time>(vertex_declarations(shadowmap, deformable, super_resolution))
        .with_code(defines)
        .with_uniform_block("material"@, "uniform"@, "Material"@, ShaderUniformArrayLength::NotArray.spec_glsl_source(),
            "{\n"@ + uniform_structure + "}"@, 1, 0)
        .with_code("#include \""@ + "data/shaders/geometry_pass.vert.glsl"@ + "\""@)
}

/// Declares the camera, resolution and time blocks in a shader that has no uniforms yet.
fn declare_frame_blocks<Time: ShaderStructUniform>(builder: &mut Shader)
    requires
        old(builder).wf(),
        old(builder)@.uniforms == Map::<Seq<char>, (Seq<char>, u32, u32)>::empty(),
    ensures
        final(builder).wf(),
        final(builder)@ == with_frame_blocks::<Time>(old(builder)@),
        final(builder)@.uniforms.dom() =~= set!["camera"@, "resolution"@, "timer"@],
{
    let ghost v0 = builder@;
    proof {
        reveal_strlit("camera");
        reveal_strlit("resolution");
        reveal_strlit("timer");
        assert(is_next_binding(v0.uniforms, 0, 0));
        lemma_next_binding_unique(v0.uniforms, 0, 0);
    }
    builder.uniform_autoincrement::<ProjectionUniformData>("camera", ShaderUniformArrayLength::NotArray, SHADER_CAMERA_SET).unwrap();
    let ghost v1 = builder@;
    proof {
        lemma_next_binding_insert(v0.uniforms, 0, 0, "camera"@,
            (ProjectionUniformData::spec_glsl_type_name(), 0, 0));
        lemma_next_binding_unique(v1.uniforms, 0, 1);
    }
    builder.uniform_autoincrement::<RenderResolution>("resolution", ShaderUniformArrayLength::NotArray, SHADER_CAMERA_SET).unwrap();
    let ghost v2 = builder@;
    proof {
        lemma_next_binding_insert(v1.uniforms, 0, 1, "resolution"@,
            (RenderResolution::spec_glsl_type_name(), 0, 1));
        lemma_next_binding_unique(v2.uniforms, 0, 2);
    }
    builder.uniform_autoincrement::<Time>("timer", ShaderUniformArrayLength::NotArray, SHADER_CAMERA_SET).unwrap();
}

/// Declares the texture samplers one after another at the next free bindings of
/// the texture set; the first name that is already declared is refused.
pub open spec fn with_samplers(v: ShaderView, slots: Seq<(Seq<char>, TextureView)>) -> Result<ShaderView, Seq<char>>
    decreases slots.len(),
{
    if slots.len() == 0 {
        Ok(v)
    } else {
        match with_samplers(v, slots.subrange(0, slots.len() - 1)) {
            Err(e) => Err(e),
            Ok(w) => {
                let n = slots[slots.len() - 1].0;
                if w.uniforms.contains_key(n) {
                    Err(already_declared_message(n))
                } else {
                    Ok(w.with_sampler(n, 2, w.next_binding(2) as u32, slots[slots.len() - 1].1, false))
                }
            },
        }
    }
}

/// The declarations of a material fragment shader before its blocks.
pub open spec fn fragment_declarations(shadowmap: bool, super_resolution: bool) -> ShaderView {
    let f0 = ShaderView::empty(ShaderType::Fragment);
    let f1 = if shadowmap {
        f0.with_define("SHADOWMAP"@, ""@).with_code("mat3 TBN = mat3(1.0);"@)
    } else {
        f0
    };
    let f2 = if super_resolution { f1.with_define("SUPER_RESOLUTION"@, "1"@) } else { f1 };
    let f3 = f2.with_input("triangle_index"@, AttribType::Int, FragmentInterpolation::Flat)
        .with_input("texture_uv"@, AttribType::FVec2, FragmentInterpolation::Smooth)
        .with_input("world_position"@, AttribType::FVec3, FragmentInterpolation::Smooth);
    let f4 = if !shadowmap {
        f3.with_input("position"@, AttribType::FVec4, FragmentInterpolation::Smooth)
            .with_input("position_prev"@, AttribType::FVec4, FragmentInterpolation::Smooth)
            .with_input("view_vector"@, AttribType::FVec3, FragmentInterpolation::Smooth)
            .with_input("TBN"@, AttribType::FMat3, FragmentInterpolation::Smooth)
            .with_output("gAlbedo"@, AttribType::FVec4)
            .with_output("gNormals"@, AttribType::FVec3)
            .with_output("gMasks"@, AttribType::FVec3)
            .with_output("gVectors"@, AttribType::FVec4)
    } else {
        f3
    };
    f4.with_code("vec4 mDiffuse;"@)
        .with_code("float mSpecular, mRoughness, mMetallic;"@)
        .with_code("vec3 mNormal, mAmbient;"@)
}

/// The file a material fragment shader ends by including.
pub open spec fn fragment_inclusion(shadowmap: bool) -> Seq<char> {
    if shadowmap {
        "data/shaders/shadowmap.frag.glsl"@
    } else {
        "data/shaders/geometry_pass.frag.glsl"@
    }
}

/// The fragment shader of a material variant, or the error of the first name
/// that the material declares twice.
pub open spec fn fragment_combination_view<Time: ShaderStructUniform>(
    mb: MaterialBuilderView,
    shadowmap: bool,
    super_resolution: bool,
) -> Result<ShaderView, Seq<char>> {
    match with_samplers(with_frame_blocks::<Time>(fragment_declarations(shadowmap, super_resolution)), mb.texture_slots) {
        Err(e) => Err(e),
        Ok(w) => {
            let w2 = w.with_code(mb.defines);
            if w2.uniforms.contains_key("material"@) {
                Err(already_declared_message("material"@))
            } else {
                Ok(w2.with_uniform_block("material"@, "uniform"@, "Material"@,
                    ShaderUniformArrayLength::NotArray.spec_glsl_source(), "{\n"@ + mb.uniform_structure + "}\n"@, 1, 0)
                    .with_code(mb.pbr_code)
                    .with_code("#include \""@ + fragment_inclusion(shadowmap) + "\""@))
            }
        },
    }
}

impl MaterialBuilder {
    /// Assembles the fragment shader of one material variant. Fails when a texture
    /// slot takes a name that is already declared (a block or an earlier slot).
    pub fn fragment_shader_combination<Time: ShaderStructUniform>(
        &self,
        shadowmap: bool,
        super_resolution: bool,
    ) -> (r: Result<Shader, String>)
        requires
            self@.texture_slots.len() < u32::MAX,
        ensures
            r matches Ok(s) ==> s.wf() && fragment_combination_view::<Time>(self@, shadowmap, super_resolution) == Ok::<ShaderView, Seq<char>>(s@),
            r matches Err(e) ==> fragment_combination_view::<Time>(self@, shadowmap, super_resolution) == Err::<ShaderView, Seq<char>>(e@),
    {
        proof {
            lemma_slots_of_default_types();
        }
        let mut builder = Shader::builder(ShaderType::Fragment);
        if shadowmap {
            builder.define("SHADOWMAP", "");
            builder.code("mat3 TBN = mat3(1.0);");
        }
        if super_resolution {
            builder.define("SUPER_RESOLUTION", "1");
        }
        builder.input("triangle_index", AttribType::Int, FragmentInterpolation::Flat);
        builder.input("texture_uv", AttribType::FVec2, FragmentInterpolation::default());
        builder.input("world_position", AttribType::FVec3, FragmentInterpolation::default());
        if !shadowmap {
            builder.input("position", AttribType::FVec4, FragmentInterpolation::default());
            builder.input("position_prev", AttribType::FVec4, FragmentInterpolation::default());
            builder.input("view_vector", AttribType::FVec3, FragmentInterpolation::default());
            builder.input("TBN", AttribType::FMat3, FragmentInterpolation::default());
            builder.output("gAlbedo", AttribType::FVec4);
            builder.output("gNormals", AttribType::FVec3);
            builder.output("gMasks", AttribType::FVec3);
            builder.output("gVectors", AttribType::FVec4);
        }
        builder.code("vec4 mDiffuse;");
        builder.code("float mSpecular, mRoughness, mMetallic;");
        builder.code("vec3 mNormal, mAmbient;");
        let ghost declared = builder@;
        assert(declared == fragment_declarations(shadowmap, super_resolution));
        declare_frame_blocks::<Time>(&mut builder);
        let ghost start = builder@;
        proof {
            reveal_strlit("camera");
            reveal_strlit("resolution");
            reveal_strlit("timer");
            reveal_strlit("material");
            assert forall|k: Seq<char>| #[trigger] start.uniforms.contains_key(k) && start.uniforms[k].1 == 2u32
                implies start.uniforms[k].2 < 0nat by {
                assert(start.uniforms.dom().contains(k));
            }
            assert(is_next_binding(start.uniforms, 2, 0));
        }
        match declare_samplers(&mut builder, &self.texture_slots) {
            Ok(()) => {},
            Err(e) => {
                return Err(e);
            },
        }
        builder.code(self.defines.as_str());
        let mut material_block = "{\n".to_owned();
        material_block.append(self.uniform_structure.as_str());
        material_block.append("}\n");
        match builder.uniform_structure(
            "material",
            "Material",
            ShaderUniformArrayLength::NotArray,
            material_block.as_str(),
            SHADER_MATERIAL_DATA_SET,
            0,
        ) {
            Ok(_) => {},
            Err(e) => {
                return Err(e);
            },
        }
        builder.code(self.pbr_code.as_str());
        if shadowmap {
            builder.include_file("data/shaders/shadowmap.frag.glsl");
        } else {
            builder.include_file("data/shaders/geometry_pass.frag.glsl");
        }
        Ok(builder)
    }
}

proof fn lemma_with_samplers_step(v: ShaderView, slots: Seq<(Seq<char>, TextureView)>, i: int)
    requires
        0 <= i < slots.len(),
    ensures
        with_samplers(v, slots.subrange(0, i + 1)) == match with_samplers(v, slots.subrange(0, i)) {
            Err(e) => Err(e),
            Ok(w) => {
                if w.uniforms.contains_key(slots[i].0) {
                    Err(already_declared_message(slots[i].0))
                } else {
                    Ok(w.with_sampler(slots[i].0, 2, w.next_binding(2) as u32, slots[i].1, false))
                }
            },
        },
{
    let p = slots.subrange(0, i + 1);
    assert(p.subrange(0, p.len() - 1) =~= slots.subrange(0, i));
    assert(p[p.len() - 1] == slots[i]);
}

/// A refused slot refuses every longer list of slots with the same error.
proof fn lemma_with_samplers_err(v: ShaderView, slots: Seq<(Seq<char>, TextureView)>, j: int, e: Seq<char>)
    requires
        0 <= j <= slots.len(),
        with_samplers(v, slots.subrange(0, j)) == Err::<ShaderView, Seq<char>>(e),
    ensures
        with_samplers(v, slots) == Err::<ShaderView, Seq<char>>(e),
    decreases slots.len() - j,
{
    if j == slots.len() {
        assert(slots.subrange(0, j) =~= slots);
    } else {
        lemma_with_samplers_step(v, slots, j);
        lemma_with_samplers_err(v, slots, j + 1, e);
    }
}

/// Declares a sampler for each texture slot at the next free binding of the texture set.
fn declare_samplers(builder: &mut Shader, slots: &Vec<(String, TextureView)>) -> (r: Result<(), String>)
    requires
        old(builder).wf(),
        is_next_binding(old(builder)@.uniforms, 2, 0),
        slots@.len() < u32::MAX,
    ensures
        final(builder).wf(),
        r is Ok ==> with_samplers(old(builder)@, texture_slots_view(slots@)) == Ok::<ShaderView, Seq<char>>(final(builder)@),
        r matches Err(e) ==> with_samplers(old(builder)@, texture_slots_view(slots@)) == Err::<ShaderView, Seq<char>>(e@),
{
    let ghost start = builder@;
    let ghost view = texture_slots_view(slots@);
    assert(view.subrange(0, 0) =~= Seq::<(Seq<char>, TextureView)>::empty());
    let mut i: usize = 0;
    while i < slots.len()
        invariant
            i <= slots@.len(),
            slots@.len() < u32::MAX,
            view == texture_slots_view(slots@),
            start == old(builder)@,
            builder.wf(),
            with_samplers(start, view.subrange(0, i as int)) == Ok::<ShaderView, Seq<char>>(builder@),
            is_next_binding(builder@.uniforms, 2, i as nat),
        decreases slots@.len() - i,
    {
        let ghost before = builder@;
        proof {
            lemma_with_samplers_step(start, view, i as int);
            lemma_next_binding_unique(before.uniforms, 2, i as nat);
        }
        let res = builder.uniform_sampler_autoincrement(slots[i].0.as_str(), SHADER_TEXTURE_SET, slots[i].1, false);
        match res {
            Ok(_) => {},
            Err(e) => {
                proof {
                    assert(view[i as int].0 == slots@[i as int].0@);
                    assert(before.uniforms.contains_key(view[i as int].0));
                    assert(with_samplers(start, view.subrange(0, i as int + 1)) == Err::<ShaderView, Seq<char>>(e@));
                    lemma_with_samplers_err(start, view, i as int + 1, e@);
                }
                return Err(e);
            },
        }
        proof {
            lemma_next_binding_insert(before.uniforms, 2, i as nat, view[i as int].0,
                (view[i as int].1.spec_glsl_sampler_name(), 2, i as u32));
            lemma_next_binding_unique(builder@.uniforms, 2, (i + 1) as nat);
        }
        i = i + 1;
    }
    assert(view.subrange(0, i as int) =~= view);
    Ok(())
}

/// The error text for a texture slot that the material does not have.
pub open spec fn missing_texture_message(material: Seq<char>, name: Seq<char>) -> Seq<char> {
    "Материал "@ + material + " не имеет текстуры "@ + name + "."@
}

/// The error text for a numeric parameter that the material does not have.
pub open spec fn missing_parameter_message(material: Seq<char>, name: Seq<char>) -> Seq<char> {
    "Материал "@ + material + " не имеет параметра "@ + name + "."@
}

/// `i` is the first slot named `name`.
pub open spec fn first_named<X>(slots: Seq<(Seq<char>, X)>, name: Seq<char>, i: int) -> bool {
    &&& 0 <= i < slots.len()
    &&& slots[i].0 == name
    &&& forall|j: int| 0 <= j < i ==> slots[j].0 != name
}

/// Some slot is named `name`.
pub open spec fn has_named<X>(slots: Seq<(Seq<char>, X)>, name: Seq<char>) -> bool {
    exists|i: int| 0 <= i < slots.len() && #[trigger] slots[i].0 == name
}

/// `n` flags, all set.
pub open spec fn all_set(n: nat) -> Seq<bool> {
    Seq::new(n, |i: int| true)
}

/// What a material holds: its name, its texture slots (with the textures as the
/// application refers to them), its numeric parameters and, for each shader
/// program variant in the order of `MaterialShaderProgramType::as_index`, the
/// program's hash and whether the program's uniform buffer must be rebuilt.
pub struct MaterialView<T> {
    pub name: Seq<char>,
    pub texture_slots: Seq<(Seq<char>, T)>,
    pub numeric_slots: Seq<(Seq<char>, MaterialSlot)>,
    pub program_hashes: Seq<u64>,
    pub needs_update: Seq<bool>,
}

/// A material built from a `MaterialBuilder`: its parameters and the state of
/// its four shader programs. `T` is a texture as the application refers to it.
pub struct Material<T> {
    name: String,
    texture_slots: Vec<(String, T)>,
    numeric_slots: Vec<(String, MaterialSlot)>,
    shader_set: [(u64, bool); 4],
}

/// Texture slots taken by the views of their names.
pub open spec fn handle_slots_view<T>(slots: Seq<(String, T)>) -> Seq<(Seq<char>, T)> {
    slots.map_values(|e: (String, T)| (e.0@, e.1))
}

/// The program hashes of a shader set.
pub open spec fn set_hashes(set: Seq<(u64, bool)>) -> Seq<u64> {
    set.map_values(|e: (u64, bool)| e.0)
}

/// The update flags of a shader set.
pub open spec fn set_flags(set: Seq<(u64, bool)>) -> Seq<bool> {
    set.map_values(|e: (u64, bool)| e.1)
}

impl<T: Copy> View for Material<T> {
    type V = MaterialView<T>;

    closed spec fn view(&self) -> MaterialView<T> {
        MaterialView {
            name: self.name@,
            texture_slots: handle_slots_view(self.texture_slots@),
            numeric_slots: slots_view(self.numeric_slots@),
            program_hashes: set_hashes(self.shader_set@),
            needs_update: set_flags(self.shader_set@),
        }
    }
}

fn copy_texture_slots<T: Copy>(slots: &Vec<(String, T)>) -> (r: Vec<(String, T)>)
    ensures
        handle_slots_view(r@) == handle_slots_view(slots@),
{
    let mut r: Vec<(String, T)> = Vec::new();
    let mut i: usize = 0;
    while i < slots.len()
        invariant
            i <= slots@.len(),
            r@.len() == i,
            forall|k: int| 0 <= k < i ==> #[trigger] r@[k].0@ == slots@[k].0@ && r@[k].1 == slots@[k].1,
        decreases slots@.len() - i,
    {
        let name = slots[i].0.clone();
        r.push((name, slots[i].1));
        i = i + 1;
    }
    assert(handle_slots_view(r@) =~= handle_slots_view(slots@));
    r
}

fn copy_numeric_slots(slots: &Vec<(String, MaterialSlot)>) -> (r: Vec<(String, MaterialSlot)>)
    ensures
        slots_view(r@) == slots_view(slots@),
{
    let mut r: Vec<(String, MaterialSlot)> = Vec::new();
    let mut i: usize = 0;
    while i < slots.len()
        invariant
            i <= slots@.len(),
            r@.len() == i,
            forall|k: int| 0 <= k < i ==> #[trigger] r@[k].0@ == slots@[k].0@ && r@[k].1 == slots@[k].1,
        decreases slots@.len() - i,
    {
        let name = slots[i].0.clone();
        r.push((name, slots[i].1));
        i = i + 1;
    }
    assert(slots_view(r@) =~= slots_view(slots@));
    r
}

impl<T: Copy> Material<T> {
    /// A material with the given parameters whose programs have the given hashes;
    /// every program's uniform buffer is still to be built.
    pub fn new(
        name: &str,
        texture_slots: Vec<(String, T)>,
        numeric_slots: Vec<(String, MaterialSlot)>,
        program_hashes: [u64; 4],
    ) -> (m: Self)
        ensures
            m@ == (MaterialView {
                name: name@,
                texture_slots: handle_slots_view(texture_slots@),
                numeric_slots: slots_view(numeric_slots@),
                program_hashes: program_hashes@,
                needs_update: all_set(4),
            }),
    {
        let shader_set: [(u64, bool); 4] = [
            (program_hashes[0], true),
            (program_hashes[1], true),
            (program_hashes[2], true),
            (program_hashes[3], true),
        ];
        let m = Material { name: name.to_owned(), texture_slots, numeric_slots, shader_set };
        assert(m@.program_hashes =~= program_hashes@);
        assert(m@.needs_update =~= all_set(4));
        m
    }

    /// A material always has four programs, one for each variant.
    pub proof fn lemma_four_programs(&self)
        ensures
            self@.program_hashes.len() == 4,
            self@.needs_update.len() == 4,
    {
    }

    pub fn name(&self) -> (r: &String)
        ensures
            r@ == self@.name,
    {
        &self.name
    }

    /// The same material under another name.
    pub fn fork(&self, name: &str) -> (r: Self)
        ensures
            r@ == (MaterialView { name: name@, ..self@ }),
    {
        let r = Material {
            name: name.to_owned(),
            texture_slots: copy_texture_slots(&self.texture_slots),
            numeric_slots: copy_numeric_slots(&self.numeric_slots),
            shader_set: self.shader_set,
        };
        assert(r@.program_hashes =~= self@.program_hashes);
        assert(r@.needs_update =~= self@.needs_update);
        r
    }

    fn mark_all_for_update(&mut self)
        ensures
            final(self)@ == (MaterialView { needs_update: all_set(old(self)@.needs_update.len()), ..old(self)@ }),
    {
        let ghost before = self@;
        let mut j: usize = 0;
        while j < 4
            invariant
                j <= 4,
                self.shader_set@.len() == 4,
                self@.name == before.name,
                self@.texture_slots == before.texture_slots,
                self@.numeric_slots == before.numeric_slots,
                self@.program_hashes == before.program_hashes,
                self@.needs_update.len() == before.needs_update.len(),
                forall|k: int| 0 <= k < j ==> self@.needs_update[k],
                forall|k: int| j <= k < self@.needs_update.len() ==> self@.needs_update[k] == before.needs_update[k],
            decreases 4 - j,
        {
            let hash = self.shader_set[j].0;
            let ghost prev = self.shader_set@;
            self.shader_set[j] = (hash, true);
            assert(self.shader_set@ == prev.update(j as int, (hash, true)));
            assert(set_hashes(self.shader_set@) =~= set_hashes(prev));
            assert(set_flags(self.shader_set@) =~= set_flags(prev).update(j as int, true));
            j = j + 1;
        }
        assert(self@.needs_update =~= all_set(before.needs_update.len()));
    }

    /// Puts `texture` into the first slot named `name`; every program's uniform
    /// buffer then has to be rebuilt. Fails, changing nothing, when no slot has
    /// that name.
    pub fn replace_texture(&mut self, name: &str, texture: T) -> (r: Result<(), String>)
        ensures
            r is Ok <==> has_named(old(self)@.texture_slots, name@),
            r is Ok ==> exists|i: int| first_named(old(self)@.texture_slots, name@, i)
                && final(self)@ == (MaterialView {
                    texture_slots: old(self)@.texture_slots.update(i, (name@, texture)),
                    needs_update: all_set(old(self)@.needs_update.len()),
                    ..old(self)@
                }),
            r matches Err(e) ==> e@ == missing_texture_message(old(self)@.name, name@) && final(self)@ == old(self)@,
    {
        let ghost before = self@;
        let key = name.to_owned();
        let mut i: usize = 0;
        while i < self.texture_slots.len()
            invariant
                i <= self.texture_slots@.len(),
                self@ == before,
                before == old(self)@,
                key@ == name@,
                forall|j: int| 0 <= j < i ==> before.texture_slots[j].0 != name@,
            decreases self.texture_slots@.len() - i,
        {
            assert(before.texture_slots[i as int].0 == self.texture_slots@[i as int].0@);
            if self.texture_slots[i].0 == key {
                let slot_name = self.texture_slots[i].0.clone();
                self.texture_slots.set(i, (slot_name, texture));
                let ghost replaced = self@;
                assert(replaced.texture_slots =~= before.texture_slots.update(i as int, (name@, texture)));
                assert(has_named(before.texture_slots, name@));
                self.mark_all_for_update();
                assert(first_named(before.texture_slots, name@, i as int));
                return Ok(());
            }
            i = i + 1;
        }
        let mut e = "Материал ".to_owned();
        e.append(self.name.as_str());
        e.append(" не имеет текстуры ");
        e.append(name);
        e.append(".");
        Err(e)
    }

    /// Sets the first numeric parameter named `name` to `value`; every program's
    /// uniform buffer then has to be rebuilt. Fails, changing nothing, when no
    /// parameter has that name.
    pub fn set_parameter(&mut self, name: &str, value: MaterialSlot) -> (r: Result<(), String>)
        ensures
            r is Ok <==> has_named(old(self)@.numeric_slots, name@),
            r is Ok ==> exists|i: int| first_named(old(self)@.numeric_slots, name@, i)
                && final(self)@ == (MaterialView {
                    numeric_slots: old(self)@.numeric_slots.update(i, (name@, value)),
                    needs_update: all_set(old(self)@.needs_update.len()),
                    ..old(self)@
                }),
            r matches Err(e) ==> e@ == missing_parameter_message(old(self)@.name, name@) && final(self)@ == old(self)@,
    {
        let ghost before = self@;
        let key = name.to_owned();
        let mut i: usize = 0;
        while i < self.numeric_slots.len()
            invariant
                i <= self.numeric_slots@.len(),
                self@ == before,
                before == old(self)@,
                key@ == name@,
                forall|j: int| 0 <= j < i ==> before.numeric_slots[j].0 != name@,
            decreases self.numeric_slots@.len() - i,
        {
            assert(before.numeric_slots[i as int].0 == self.numeric_slots@[i as int].0@);
            if self.numeric_slots[i].0 == key {
                let slot_name = self.numeric_slots[i].0.clone();
                self.numeric_slots.set(i, (slot_name, value));
                let ghost replaced = self@;
                assert(replaced.numeric_slots =~= before.numeric_slots.update(i as int, (name@, value)));
                assert(has_named(before.numeric_slots, name@));
                self.mark_all_for_update();
                assert(first_named(before.numeric_slots, name@, i as int));
                return Ok(());
            }
            i = i + 1;
        }
        let mut e = "Материал ".to_owned();
        e.append(self.name.as_str());
        e.append(" не имеет параметра ");
        e.append(name);
        e.append(".");
        Err(e)
    }

    /// The hash of the program of the given variant.
    pub fn shader_hash(&self, ty: &MaterialShaderProgramType) -> (h: u64)
        ensures
            h == self@.program_hashes[ty.spec_index() as int],
    {
        let i = ty.as_index();
        self.shader_set[i].0
    }

    /// Whether the uniform buffer of the given variant's program must be rebuilt.
    pub fn needs_update(&self, ty: &MaterialShaderProgramType) -> (b: bool)
        ensures
            b == self@.needs_update[ty.spec_index() as int],
    {
        let i = ty.as_index();
        self.shader_set[i].1
    }

    /// Records that the uniform buffer of the given variant's program was rebuilt.
    pub fn mark_updated(&mut self, ty: &MaterialShaderProgramType)
        ensures
            final(self)@ == (MaterialView {
                needs_update: old(self)@.needs_update.update(ty.spec_index() as int, false),
                ..old(self)@
            }),
    {
        let i = ty.as_index();
        let hash = self.shader_set[i].0;
        let ghost before = self@;
        self.shader_set[i] = (hash, false);
        assert(self@.program_hashes =~= before.program_hashes);
        assert(self@.needs_update =~= before.needs_update.update(i as int, false));
    }

    /// The words of the numeric parameters as they fill the material block.
    pub fn numeric_data(&self) -> (data: Vec<u32>)
        ensures
            data@ == slots_words(self@.numeric_slots),
    {
        numeric_data(&self.numeric_slots)
    }
}

impl MaterialBuilder {
    /// The material that the collected parameters make, given the hashes of its
    /// four programs (in the order of `MaterialShaderProgramType::as_index`);
    /// every program's uniform buffer is still to be built.
    pub fn build(self, program_hashes: [u64; 4]) -> (m: Material<TextureView>)
        ensures
            m@ == (MaterialView {
                name: self@.name,
                texture_slots: self@.texture_slots,
                numeric_slots: self@.numeric_slots,
                program_hashes: program_hashes@,
                needs_update: all_set(4),
            }),
    {
        let ghost view = self@;
        let m = Material::new(self.name.as_str(), self.texture_slots, self.numeric_slots, program_hashes);
        assert(m@.texture_slots =~= view.texture_slots);
        m
    }
}

} // verus!
