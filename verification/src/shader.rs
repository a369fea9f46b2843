//! Assembly of GLSL shader sources: declarations of inputs, outputs,
//! uniform blocks, samplers and macros, with the bookkeeping of locations
//! and bindings that the declarations take.
use vstd::prelude::*;
use crate::glenums::{code_columns, code_rows, AttribType, GLSLVersion, ShaderType};
use crate::name_map::{entries_map, NameMap, ViewEq};
use crate::text::{decimal, push_decimal};
use crate::texture::TextureView;

verus! {

pub enum ShaderUniformArrayLength {
    NotArray,
    Fixed(u32),
    Unknown,
}

impl ShaderUniformArrayLength {
    /// The array suffix of a declaration: nothing, `[len]` or `[]`.
    pub open spec fn spec_glsl_source(self) -> Seq<char> {
        match self {
            ShaderUniformArrayLength::NotArray => Seq::<char>::empty(),
            ShaderUniformArrayLength::Fixed(len) => "["@ + decimal(len as nat) + "]"@,
            ShaderUniformArrayLength::Unknown => "[]"@,
        }
    }

    pub fn glsl_source(&self) -> (s: String)
        ensures
            s@ == self.spec_glsl_source(),
    {
        match self {
            ShaderUniformArrayLength::NotArray => String::new(),
            ShaderUniformArrayLength::Fixed(len) => {
                let mut s = "[".to_owned();
                push_decimal(&mut s, *len);
                s.append("]");
                s
            },
            ShaderUniformArrayLength::Unknown => "[]".to_owned(),
        }
    }
}

#[derive(Copy, Clone, Debug, PartialEq, Eq, Structural)]
pub enum FragmentInterpolation {
    Flat,
    Smooth,
    NoPerspective,
}

impl Default for FragmentInterpolation {
    fn default() -> (r: Self)
        ensures
            r == FragmentInterpolation::Smooth,
    {
        FragmentInterpolation::Smooth
    }
}

impl FragmentInterpolation {
    /// The interpolation qualifier as written in GLSL source.
    pub open spec fn spec_to_string(self) -> Seq<char> {
        match self {
            FragmentInterpolation::Flat => "flat"@,
            FragmentInterpolation::Smooth => "smooth"@,
            FragmentInterpolation::NoPerspective => "nooerspective"@,
        }
    }

    pub fn qualifier(&self) -> (s: &'static str)
        ensures
            s@ == self.spec_to_string(),
    {
        match self {
            Self::Flat => "flat",
            Self::Smooth => "smooth",
            Self::NoPerspective => "nooerspective",
        }
    }

    pub fn to_string(&self) -> (s: String)
        ensures
            s@ == self.spec_to_string(),
    {
        self.qualifier().to_owned()
    }
}

/// A type that can be declared as a uniform block in GLSL: its GLSL type
/// name and the body of its GLSL structure.
pub trait ShaderStructUniform {
    spec fn spec_structure() -> Seq<char>;

    spec fn spec_glsl_type_name() -> Seq<char>;

    /// The GLSL text of the structure body, braces included.
    fn structure() -> (s: String)
        ensures
            s@ == Self::spec_structure(),
    ;

    /// The GLSL name of the type.
    fn glsl_type_name() -> (s: String)
        ensures
            s@ == Self::spec_glsl_type_name(),
    ;
}

/// A uniform structure that can be shared between threads with a pipeline.
pub trait PipelineUniform: ShaderStructUniform + Send + Sync {}

/// The field lines of a GLSL structure, each on a line of its own and
/// indented by four spaces: `type name;`.
pub open spec fn struct_fields_source(fields: Seq<(&str, &str)>) -> Seq<char>
    decreases fields.len(),
{
    if fields.len() == 0 {
        Seq::<char>::empty()
    } else {
        struct_fields_source(fields.subrange(0, fields.len() - 1)) + "\n    "@
            + fields[fields.len() - 1].0@ + " "@ + fields[fields.len() - 1].1@ + ";"@
    }
}

/// A GLSL structure body: `{`, the field lines, `}`, joined by line breaks.
pub open spec fn struct_source(fields: Seq<(&str, &str)>) -> Seq<char> {
    "{"@ + struct_fields_source(fields) + "\n}"@
}

/// Builds a GLSL structure body from `(type, name)` pairs.
pub fn glsl_struct_source(fields: &Vec<(&str, &str)>) -> (s: String)
    ensures
        s@ == struct_source(fields@),
{
    let mut s = "{".to_owned();
    let mut i: usize = 0;
    while i < fields.len()
        invariant
            i <= fields@.len(),
            s@ == "{"@ + struct_fields_source(fields@.subrange(0, i as int)),
        decreases fields@.len() - i,
    {
        let ghost before = s@;
        s.append("\n    ");
        s.append(fields[i].0);
        s.append(" ");
        s.append(fields[i].1);
        s.append(";");
        proof {
            let p = fields@.subrange(0, i as int + 1);
            assert(p.subrange(0, p.len() - 1) =~= fields@.subrange(0, i as int));
            assert(p[p.len() - 1] == fields@[i as int]);
            assert(s@ =~= "{"@ + struct_fields_source(p));
        }
        i = i + 1;
    }
    assert(fields@.subrange(0, fields@.len() as int) =~= fields@);
    s.append("\n}");
    assert(s@ =~= struct_source(fields@));
    s
}


/// Number of attribute locations a value of type `t` takes: one per four cells.
pub open spec fn location_slots(t: AttribType) -> nat {
    (t.spec_cells_count() + 3) / 4
}

/// The location counts of the attribute types of mesh vertices and instances.
pub proof fn lemma_slots_of_default_types()
    ensures
        location_slots(AttribType::FVec2) == 1,
        location_slots(AttribType::FVec3) == 1,
        location_slots(AttribType::FVec4) == 1,
        location_slots(AttribType::UVec3) == 1,
        location_slots(AttribType::Int) == 1,
        location_slots(AttribType::FMat3) == 3,
        location_slots(AttribType::FMat4) == 4,
{
    lemma_cells_of(AttribType::FVec2, 1, 2);
    lemma_cells_of(AttribType::FVec3, 1, 3);
    lemma_cells_of(AttribType::FVec4, 1, 4);
    lemma_cells_of(AttribType::UVec3, 1, 3);
    lemma_cells_of(AttribType::Int, 1, 1);
    lemma_cells_of(AttribType::FMat3, 3, 3);
    lemma_cells_of(AttribType::FMat4, 4, 4);
}

proof fn lemma_cells_of(t: AttribType, rows: nat, columns: nat)
    requires
        code_rows(t.spec_code()) == rows,
        code_columns(t.spec_code()) == columns,
    ensures
        t.spec_cells_count() == rows * columns,
{
}

/// Whether a uniform bound at `set` exists in `u` with a binding at or above `r`,
/// or `r` is not one past the highest binding of `set`.
pub open spec fn is_next_binding(u: Map<Seq<char>, (Seq<char>, u32, u32)>, set: u32, r: nat) -> bool {
    &&& forall|k: Seq<char>| #[trigger] u.contains_key(k) && u[k].1 == set ==> u[k].2 < r
    &&& (r == 0 || exists|k: Seq<char>| #[trigger] u.contains_key(k) && u[k].1 == set && u[k].2 == r - 1)
}

/// One past the highest binding used in descriptor set `set`, 0 for an unused set.
pub open spec fn next_binding(u: Map<Seq<char>, (Seq<char>, u32, u32)>, set: u32) -> nat {
    choose|r: nat| is_next_binding(u, set, r)
}

/// No binding of descriptor set `set` is the largest `u32`.
pub open spec fn bindings_below_max(u: Map<Seq<char>, (Seq<char>, u32, u32)>, set: u32) -> bool {
    forall|k: Seq<char>| #[trigger] u.contains_key(k) && u[k].1 == set ==> u[k].2 < u32::MAX
}

pub proof fn lemma_next_binding_unique(u: Map<Seq<char>, (Seq<char>, u32, u32)>, set: u32, r: nat)
    requires
        is_next_binding(u, set, r),
    ensures
        next_binding(u, set) == r,
{
    let c = next_binding(u, set);
    assert(is_next_binding(u, set, c));
    if c != r {
        if c == 0 {
            let k = choose|k: Seq<char>| #[trigger] u.contains_key(k) && u[k].1 == set && u[k].2 == r - 1;
        } else if r == 0 {
            let k = choose|k: Seq<char>| #[trigger] u.contains_key(k) && u[k].1 == set && u[k].2 == c - 1;
        } else {
            let k1 = choose|k: Seq<char>| #[trigger] u.contains_key(k) && u[k].1 == set && u[k].2 == r - 1;
            let k2 = choose|k: Seq<char>| #[trigger] u.contains_key(k) && u[k].1 == set && u[k].2 == c - 1;
        }
    }
}

/// Declaring a new name moves the next free binding of its set past its binding
/// and leaves the other sets alone.
pub proof fn lemma_next_binding_insert(
    u: Map<Seq<char>, (Seq<char>, u32, u32)>,
    set: u32,
    r: nat,
    name: Seq<char>,
    value: (Seq<char>, u32, u32),
)
    requires
        is_next_binding(u, set, r),
        !u.contains_key(name),
    ensures
        is_next_binding(u.insert(name, value), set,
            if value.1 == set && value.2 + 1 > r { (value.2 + 1) as nat } else { r }),
{
    let n = u.insert(name, value);
    let r2: nat = if value.1 == set && value.2 + 1 > r { (value.2 + 1) as nat } else { r };
    assert forall|k: Seq<char>| #[trigger] n.contains_key(k) && n[k].1 == set implies n[k].2 < r2 by {
        if k != name {
            assert(u.contains_key(k));
        }
    }
    if r2 != 0 {
        if value.1 == set && value.2 + 1 > r {
            assert(n.contains_key(name) && n[name].1 == set && n[name].2 == r2 - 1);
        } else {
            let k = choose|k: Seq<char>| #[trigger] u.contains_key(k) && u[k].1 == set && u[k].2 == r - 1;
            assert(k != name);
            assert(n.contains_key(k) && n[k].1 == set && n[k].2 == r2 - 1);
        }
    }
}

/// Declaring a block at the next free binding `b` of a set records it at `b`,
/// makes `b + 1` the next free binding of that set, and leaves every other set's
/// next free binding as it was. So a second declaration at the next free binding
/// of the same set takes `b + 1`, and may do so whenever `b` is below the largest
/// `u32`.
pub proof fn lemma_declare_at_next_binding(
    v: ShaderView,
    name: Seq<char>,
    buffer_type: Seq<char>,
    glsl_type: Seq<char>,
    array_suffix: Seq<char>,
    structure: Seq<char>,
    set: u32,
    other: u32,
)
    requires
        is_next_binding(v.uniforms, set, v.next_binding(set)),
        is_next_binding(v.uniforms, other, v.next_binding(other)),
        bindings_below_max(v.uniforms, set),
        !v.uniforms.contains_key(name),
    ensures
        ({
            let b = v.next_binding(set);
            let w = v.with_uniform_block(name, buffer_type, glsl_type, array_suffix, structure, set, b as u32);
            &&& b <= u32::MAX
            &&& w.uniforms == v.uniforms.insert(name, (glsl_type, set, b as u32))
            &&& is_next_binding(w.uniforms, set, b + 1)
            &&& w.next_binding(set) == b + 1
            &&& other != set ==> w.next_binding(other) == v.next_binding(other)
            &&& b < u32::MAX ==> bindings_below_max(w.uniforms, set)
        }),
{
    let b = v.next_binding(set);
    let u = v.uniforms;
    if b > 0 {
        let k = choose|k: Seq<char>| #[trigger] u.contains_key(k) && u[k].1 == set && u[k].2 == b - 1;
        assert(u[k].2 < u32::MAX);
    }
    let w = v.with_uniform_block(name, buffer_type, glsl_type, array_suffix, structure, set, b as u32);
    assert(w.uniforms == u.insert(name, (glsl_type, set, b as u32)));
    lemma_next_binding_insert(u, set, b, name, (glsl_type, set, b as u32));
    lemma_next_binding_unique(w.uniforms, set, b + 1);
    if other != set {
        lemma_next_binding_insert(u, other, v.next_binding(other), name, (glsl_type, set, b as u32));
        lemma_next_binding_unique(w.uniforms, other, v.next_binding(other));
    }
    if b < u32::MAX {
        assert forall|k: Seq<char>| #[trigger] w.uniforms.contains_key(k) && w.uniforms[k].1 == set implies w.uniforms[k].2
            < u32::MAX by {
            if k != name {
                assert(u.contains_key(k));
            }
        }
    }
}

/// A map with distinct entry keys has a next free binding in every set.
pub proof fn lemma_next_binding_exists(s: Seq<(String, (String, u32, u32))>, set: u32)
    requires
        crate::name_map::distinct_keys(s),
    ensures
        is_next_binding(entries_map(s), set, next_binding(entries_map(s), set)),
    decreases s.len(),
{
    if s.len() == 0 {
        assert(is_next_binding(entries_map(s), set, 0));
        lemma_next_binding_unique(entries_map(s), set, 0);
    } else {
        let p = s.subrange(0, s.len() - 1);
        assert(crate::name_map::distinct_keys(p)) by {
            assert forall|i: int, j: int| 0 <= i < j < p.len() implies #[trigger] p[i].0@ != #[trigger] p[j].0@ by {
                assert(p[i] == s[i] && p[j] == s[j]);
            }
        }
        lemma_next_binding_exists(p, set);
        crate::name_map::lemma_entries_map(p);
        let last = s[s.len() - 1];
        assert(!entries_map(p).contains_key(last.0@)) by {
            if entries_map(p).contains_key(last.0@) {
                let i = choose|i: int| 0 <= i < p.len() && p[i].0@ == last.0@;
                assert(p[i] == s[i]);
            }
        }
        let r = next_binding(entries_map(p), set);
        lemma_next_binding_insert(entries_map(p), set, r, last.0@, last.1@);
        let r2: nat = if last.1@.1 == set && last.1@.2 + 1 > r { (last.1@.2 + 1) as nat } else { r };
        lemma_next_binding_unique(entries_map(s), set, r2);
    }
}

/// The error text for a second declaration of the name `name`.
pub open spec fn already_declared_message(name: Seq<char>) -> Seq<char> {
    "Переменная "@ + name + " уже объявлена в этом шейдере."@
}

/// The error text for a second push constant.
pub open spec fn second_constant_message() -> Seq<char> {
    "Можно объявить только одну константу."@
}

/// Everything a shader source declares, with the source text itself.
pub struct ShaderView {
    pub glsl_version: GLSLVersion,
    pub sh_type: ShaderType,
    pub source: Seq<char>,
    pub inputs: Map<Seq<char>, AttribType>,
    pub input_locations: u32,
    pub outputs: Map<Seq<char>, AttribType>,
    pub output_locations: u32,
    /// Uniform name to (GLSL type name, descriptor set, binding).
    pub uniforms: Map<Seq<char>, (Seq<char>, u32, u32)>,
    pub structures: Set<Seq<char>>,
    /// Push constant as (name, GLSL type name).
    pub push_constant: Option<(Seq<char>, Seq<char>)>,
    pub spirv_hash: u64,
}

impl ShaderView {
    /// A GLSL 4.50 shader of stage `sh_type` that declares nothing yet.
    pub open spec fn empty(sh_type: ShaderType) -> ShaderView {
        ShaderView {
            glsl_version: GLSLVersion::V450,
            sh_type,
            source: GLSLVersion::V450.spec_stringify() + "\n"@,
            inputs: Map::empty(),
            input_locations: 0,
            outputs: Map::empty(),
            output_locations: 0,
            uniforms: Map::empty(),
            structures: Set::empty(),
            push_constant: None,
            spirv_hash: 0,
        }
    }

    pub open spec fn explicit_locations(self) -> bool {
        self.glsl_version.ordinal() >= GLSLVersion::V300ES.ordinal()
    }

    pub open spec fn with_code(self, code: Seq<char>) -> ShaderView {
        ShaderView { source: self.source + code + "\n"@, ..self }
    }

    pub open spec fn with_define(self, name: Seq<char>, expr: Seq<char>) -> ShaderView {
        self.with_code("#define "@ + name + " ("@ + expr + ")"@)
    }

    pub open spec fn can_output(self, t: AttribType) -> bool {
        self.explicit_locations() ==> self.output_locations + location_slots(t) <= u32::MAX
    }

    /// Declares the output `name`; with explicit locations it takes the next free ones.
    pub open spec fn with_output(self, name: Seq<char>, t: AttribType) -> ShaderView {
        let prefix = if self.explicit_locations() {
            "layout (location = "@ + decimal(self.output_locations as nat) + ") "@
        } else {
            Seq::<char>::empty()
        };
        ShaderView {
            outputs: self.outputs.insert(name, t),
            output_locations: if self.explicit_locations() {
                (self.output_locations + location_slots(t)) as u32
            } else {
                self.output_locations
            },
            source: self.source + prefix + "out "@ + t.spec_glsl_name() + " "@ + name + ";\n"@,
            ..self
        }
    }

    pub open spec fn can_input(self, t: AttribType) -> bool {
        self.input_locations + location_slots(t) <= u32::MAX
    }

    /// Declares the input `name`. Integer inputs of a fragment shader carry the
    /// interpolation qualifier.
    pub open spec fn with_input(self, name: Seq<char>, t: AttribType, interpolation: FragmentInterpolation) -> ShaderView {
        let prefix = if self.explicit_locations() {
            "layout (location = "@ + decimal(self.input_locations as nat) + ")"@
        } else {
            Seq::<char>::empty()
        };
        let line = if t.spec_is_int() && self.sh_type == ShaderType::Fragment {
            prefix + " "@ + interpolation.spec_to_string() + " in "@ + t.spec_glsl_name() + " "@ + name + ";\n"@
        } else {
            prefix + " in "@ + t.spec_glsl_name() + " "@ + name + ";\n"@
        };
        ShaderView {
            inputs: self.inputs.insert(name, t),
            input_locations: (self.input_locations + location_slots(t)) as u32,
            source: self.source + line,
            ..self
        }
    }

    /// Declares a block `buffer_type` of one `glsl_type` value (or an array of them) at
    /// (`set`, `binding`), declares the structure `glsl_type` first if it is new, and
    /// makes `name` a macro for the block's data.
    pub open spec fn with_uniform_block(
        self,
        name: Seq<char>,
        buffer_type: Seq<char>,
        glsl_type: Seq<char>,
        array_suffix: Seq<char>,
        structure: Seq<char>,
        set: u32,
        binding: u32,
    ) -> ShaderView {
        let struct_decl = if self.structures.contains(glsl_type) {
            Seq::<char>::empty()
        } else {
            "struct "@ + glsl_type + " "@ + structure + ";"@
        };
        let block = "layout (std140, set = "@ + decimal(set as nat) + ", binding = "@ + decimal(binding as nat)
            + ") "@ + buffer_type + " _"@ + glsl_type + " { "@ + glsl_type + array_suffix + " data; } _"@
            + name + ";\n"@;
        let declared = ShaderView {
            source: self.source + struct_decl + block,
            structures: self.structures.insert(glsl_type),
            ..self
        };
        let defined = declared.with_define(name, "_"@ + name + ".data"@);
        ShaderView { uniforms: defined.uniforms.insert(name, (glsl_type, set, binding)), ..defined }
    }

    /// Declares the sampler uniform `name` at (`set`, `binding`).
    pub open spec fn with_sampler(self, name: Seq<char>, set: u32, binding: u32, dims: TextureView, shadowmap: bool) -> ShaderView {
        let utype = dims.spec_glsl_sampler_name();
        let line = "layout (set = "@ + decimal(set as nat) + ", binding = "@ + decimal(binding as nat)
            + ") uniform "@ + utype + (if shadowmap { "Shadow "@ } else { " "@ }) + name + ";\n"@;
        ShaderView {
            source: self.source + line,
            uniforms: self.uniforms.insert(name, (utype, set, binding)),
            ..self
        }
    }

    /// Declares the push constant `name` of type `glsl_type`.
    pub open spec fn with_push_constant(self, name: Seq<char>, glsl_type: Seq<char>, structure: Seq<char>) -> ShaderView {
        ShaderView {
            source: self.source + "layout (push_constant) uniform "@ + glsl_type + " "@ + structure + " "@ + name + ";\n"@,
            push_constant: Some((name, glsl_type)),
            ..self
        }
    }

    /// The attributes of a mesh vertex: position, normal, binormal, tangent,
    /// two texture coordinates and the group indices.
    pub open spec fn with_default_vertex_attributes(self) -> ShaderView {
        self.with_input("v_pos"@, AttribType::FVec3, FragmentInterpolation::Smooth)
            .with_input("v_nor"@, AttribType::FVec3, FragmentInterpolation::Smooth)
            .with_input("v_bin"@, AttribType::FVec3, FragmentInterpolation::Smooth)
            .with_input("v_tan"@, AttribType::FVec3, FragmentInterpolation::Smooth)
            .with_input("v_tex1"@, AttribType::FVec2, FragmentInterpolation::Smooth)
            .with_input("v_tex2"@, AttribType::FVec2, FragmentInterpolation::Smooth)
            .with_input("v_grp"@, AttribType::UVec3, FragmentInterpolation::Smooth)
    }

    /// The attributes of an instance: its transform and its previous transform.
    pub open spec fn with_instance_attributes(self) -> ShaderView {
        self.with_input("transform"@, AttribType::FMat4, FragmentInterpolation::Smooth)
            .with_input("transform_prev"@, AttribType::FMat4, FragmentInterpolation::Smooth)
    }

    pub open spec fn next_binding(self, set: u32) -> nat {
        next_binding(self.uniforms, set)
    }
}

/// A GLSL shader under assembly: its source text and what it declares.
pub struct Shader {
    glsl_version: GLSLVersion,
    sh_type: ShaderType,
    source: String,
    inputs: NameMap<AttribType>,
    input_locations: u32,
    outputs: NameMap<AttribType>,
    output_locations: u32,
    uniforms: NameMap<(String, u32, u32)>,
    structures: NameMap<()>,
    push_constants: Option<(String, String)>,
    spirv_hash: u64,
}

impl View for Shader {
    type V = ShaderView;

    closed spec fn view(&self) -> ShaderView {
        ShaderView {
            glsl_version: self.glsl_version,
            sh_type: self.sh_type,
            source: self.source@,
            inputs: self.inputs@,
            input_locations: self.input_locations,
            outputs: self.outputs@,
            output_locations: self.output_locations,
            uniforms: self.uniforms@,
            structures: self.structures@.dom(),
            push_constant: match self.push_constants {
                Some(pc) => Some((pc.0@, pc.1@)),
                None => None,
            },
            spirv_hash: self.spirv_hash,
        }
    }
}

impl Shader {
    pub closed spec fn wf(&self) -> bool {
        &&& self.inputs.wf()
        &&& self.outputs.wf()
        &&& self.uniforms.wf()
        &&& self.structures.wf()
    }

    /// Starts a shader of the given stage for GLSL 4.50.
    pub fn builder(shader_type: ShaderType) -> (s: Self)
        ensures
            s.wf(),
            s@ == ShaderView::empty(shader_type),
    {
        let gl_version = GLSLVersion::V450;
        let mut source = gl_version.stringify();
        source.append("\n");
        if gl_version.need_precision_qualifier() {
            source.append("precision mediump float;\n");
        }
        let s = Shader {
            glsl_version: gl_version,
            sh_type: shader_type,
            source,
            inputs: NameMap::new(),
            input_locations: 0,
            outputs: NameMap::new(),
            output_locations: 0,
            uniforms: NameMap::new(),
            structures: NameMap::new(),
            push_constants: None,
            spirv_hash: 0,
        };
        assert(s@.structures =~= Set::<Seq<char>>::empty());
        s
    }

    pub fn get_source(&self) -> (s: String)
        ensures
            s@ == self@.source,
    {
        self.source.clone()
    }

    pub fn spirv_hash(&self) -> (h: u64)
        ensures
            h == self@.spirv_hash,
    {
        self.spirv_hash
    }

    /// Records the hash of the SPIR-V code that the source compiled to.
    pub fn set_spirv_hash(&mut self, spirv_hash: u64)
        ensures
            final(self)@ == (ShaderView { spirv_hash, ..old(self)@ }),
            final(self).wf() == old(self).wf(),
    {
        self.spirv_hash = spirv_hash;
    }

    /// Appends a line of code.
    pub fn code(&mut self, code: &str) -> (r: &mut Self)
        ensures
            r@ == old(self)@.with_code(code@),
            r.wf() == old(self).wf(),
            *final(self) == *final(r),
    {
        self.source.append(code);
        self.source.append("\n");
        self
    }

    pub fn include_file(&mut self, inclusion: &str) -> (r: &mut Self)
        ensures
            r@ == old(self)@.with_code("#include \""@ + inclusion@ + "\""@),
            r.wf() == old(self).wf(),
            *final(self) == *final(r),
    {
        let mut line = "#include \"".to_owned();
        line.append(inclusion);
        line.append("\"");
        self.code(line.as_str())
    }

    pub fn ifdef(&mut self, name: &str) -> (r: &mut Self)
        ensures
            r@ == old(self)@.with_code("#ifdef "@ + name@),
            r.wf() == old(self).wf(),
            *final(self) == *final(r),
    {
        let mut line = "#ifdef ".to_owned();
        line.append(name);
        self.code(line.as_str())
    }

    pub fn ifndef(&mut self, name: &str) -> (r: &mut Self)
        ensures
            r@ == old(self)@.with_code("#ifndef "@ + name@),
            r.wf() == old(self).wf(),
            *final(self) == *final(r),
    {
        let mut line = "#ifndef ".to_owned();
        line.append(name);
        self.code(line.as_str())
    }

    pub fn endif(&mut self) -> (r: &mut Self)
        ensures
            r@ == old(self)@.with_code("#endif"@),
            r.wf() == old(self).wf(),
            *final(self) == *final(r),
    {
        self.code("#endif")
    }

    /// Declares a macro `name` that stands for the parenthesised `expr`.
    pub fn define(&mut self, name: &str, expr: &str) -> (r: &mut Self)
        ensures
            r@ == old(self)@.with_define(name@, expr@),
            r.wf() == old(self).wf(),
            *final(self) == *final(r),
    {
        let mut line = "#define ".to_owned();
        line.append(name);
        line.append(" (");
        line.append(expr);
        line.append(")");
        self.code(line.as_str())
    }

    /// Declares an output of the shader.
    pub fn output(&mut self, name: &str, type_: AttribType) -> (r: &mut Self)
        requires
            old(self).wf(),
            old(self)@.can_output(type_),
        ensures
            r@ == old(self)@.with_output(name@, type_),
            r.wf(),
            *final(self) == *final(r),
    {
        let ghost old_view = self@;
        proof {
            type_.lemma_shape_bounds();
        }
        let mut line = String::new();
        if self.glsl_version.have_explicit_attri_location() {
            let disp = ((type_.get_cells_count() + 3) / 4) as u32;
            line.append("layout (location = ");
            push_decimal(&mut line, self.output_locations);
            line.append(") ");
            self.output_locations = self.output_locations + disp;
        }
        self.outputs.insert(name.to_owned(), type_);
        line.append("out ");
        let glsl = type_.get_glsl_name();
        line.append(glsl.as_str());
        line.append(" ");
        line.append(name);
        line.append(";\n");
        self.source.append(line.as_str());
        assert(self@.source =~= old_view.with_output(name@, type_).source);
        assert(self@ == old_view.with_output(name@, type_));
        self
    }

    /// Declares an input of the shader; every input takes the next free locations.
    pub fn input(&mut self, name: &str, type_: AttribType, interpolation: FragmentInterpolation) -> (r: &mut Self)
        requires
            old(self).wf(),
            old(self)@.can_input(type_),
        ensures
            r@ == old(self)@.with_input(name@, type_, interpolation),
            r.wf(),
            *final(self) == *final(r),
    {
        let ghost old_view = self@;
        proof {
            type_.lemma_shape_bounds();
        }
        let glsl_type = type_.get_glsl_name();
        let disp = ((type_.get_cells_count() + 3) / 4) as u32;
        let mut line = String::new();
        if self.glsl_version.have_explicit_attri_location() {
            line.append("layout (location = ");
            push_decimal(&mut line, self.input_locations);
            line.append(")");
        }
        self.input_locations = self.input_locations + disp;
        self.inputs.insert(name.to_owned(), type_);
        let fragment = match self.sh_type {
            ShaderType::Fragment => true,
            _ => false,
        };
        if type_.is_int() && fragment {
            line.append(" ");
            line.append(interpolation.qualifier());
            line.append(" in ");
        } else {
            line.append(" in ");
        }
        line.append(glsl_type.as_str());
        line.append(" ");
        line.append(name);
        line.append(";\n");
        self.source.append(line.as_str());
        assert(self@.source =~= old_view.with_input(name@, type_, interpolation).source);
        assert(self@ == old_view.with_input(name@, type_, interpolation));
        self
    }

    /// The default per-vertex attributes of a mesh vertex.
    pub fn default_vertex_attributes(&mut self) -> (r: &mut Self)
        requires
            old(self).wf(),
            old(self)@.input_locations + 7 <= u32::MAX,
        ensures
            r@ == old(self)@.with_default_vertex_attributes(),
            r.wf(),
            *final(self) == *final(r),
    {
        proof {
            lemma_slots_of_default_types();
        }
        self.input("v_pos", AttribType::FVec3, FragmentInterpolation::default())
            .input("v_nor", AttribType::FVec3, FragmentInterpolation::default())
            .input("v_bin", AttribType::FVec3, FragmentInterpolation::default())
            .input("v_tan", AttribType::FVec3, FragmentInterpolation::default())
            .input("v_tex1", AttribType::FVec2, FragmentInterpolation::default())
            .input("v_tex2", AttribType::FVec2, FragmentInterpolation::default())
            .input("v_grp", AttribType::UVec3, FragmentInterpolation::default())
    }

    /// The per-instance attributes: the current and the previous transform.
    pub fn instance_attributes(&mut self) -> (r: &mut Self)
        requires
            old(self).wf(),
            old(self)@.input_locations + 8 <= u32::MAX,
        ensures
            r@ == old(self)@.with_instance_attributes(),
            r.wf(),
            *final(self) == *final(r),
    {
        proof {
            lemma_slots_of_default_types();
        }
        self.input("transform", AttribType::FMat4, FragmentInterpolation::default())
            .input("transform_prev", AttribType::FMat4, FragmentInterpolation::default())
    }

    /// The next free binding of every set is one past the highest binding used there.
    pub proof fn lemma_next_binding(&self, set: u32)
        requires
            self.wf(),
        ensures
            is_next_binding(self@.uniforms, set, self@.next_binding(set)),
    {
        self.uniforms.lemma_view();
        lemma_next_binding_exists(self.uniforms.spec_entries(), set);
    }

    /// One past the highest binding used in descriptor set `set`; 0 when the set is unused.
    pub fn last_set_index(&self, set: u32) -> (r: u32)
        requires
            self.wf(),
            bindings_below_max(self@.uniforms, set),
        ensures
            r == self@.next_binding(set),
    {
        let entries = self.uniforms.entries();
        proof {
            self.uniforms.lemma_view();
        }
        let mut best: Option<u32> = None;
        let mut i: usize = 0;
        while i < entries.len()
            invariant
                i <= entries@.len(),
                entries@ == self.uniforms.spec_entries(),
                best matches Some(b) ==> (exists|j: int| 0 <= j < i && #[trigger] entries@[j].1.1 == set && entries@[j].1.2 == b),
                best matches Some(b) ==> (forall|j: int| 0 <= j < i && #[trigger] entries@[j].1.1 == set ==> entries@[j].1.2 <= b),
                best is None ==> (forall|j: int| 0 <= j < i ==> #[trigger] entries@[j].1.1 != set),
            decreases entries@.len() - i,
        {
            if entries[i].1.1 == set {
                let b = entries[i].1.2;
                match best {
                    Some(m) => {
                        if b > m {
                            best = Some(b);
                        }
                    },
                    None => {
                        best = Some(b);
                    },
                }
            }
            i = i + 1;
        }
        let ghost u = self@.uniforms;
        match best {
            Some(b) => {
                proof {
                    let j = choose|j: int| 0 <= j < entries@.len() && #[trigger] entries@[j].1.1 == set && entries@[j].1.2 == b;
                    let kj = entries@[j].0@;
                    assert(u.contains_key(kj));
                    assert(u[kj] == entries@[j].1@);
                    assert forall|k: Seq<char>| #[trigger] u.contains_key(k) && u[k].1 == set implies u[k].2 < b + 1 by {
                        let jj = choose|jj: int| 0 <= jj < entries@.len() && entries@[jj].0@ == k;
                        assert(u[k] == entries@[jj].1@);
                        assert(entries@[jj].1.1 == set);
                    }
                    assert(is_next_binding(u, set, (b + 1) as nat));
                    lemma_next_binding_unique(u, set, (b + 1) as nat);
                }
                b + 1
            },
            None => {
                proof {
                    assert forall|k: Seq<char>| #[trigger] u.contains_key(k) && u[k].1 == set implies u[k].2 < 0nat by {
                        let jj = choose|jj: int| 0 <= jj < entries@.len() && entries@[jj].0@ == k;
                        assert(u[k] == entries@[jj].1@);
                        assert(entries@[jj].1.1 != set);
                    }
                    assert(is_next_binding(u, set, 0));
                    lemma_next_binding_unique(u, set, 0);
                }
                0
            },
        }
    }

    fn already_declared(name: &str) -> (e: String)
        ensures
            e@ == already_declared_message(name@),
    {
        let mut e = "Переменная ".to_owned();
        e.append(name);
        e.append(" уже объявлена в этом шейдере.");
        e
    }

    /// Declares a block of kind `buffer_type` holding a value of GLSL type `type_`
    /// (structure `structure`) at (`set`, `binding`). Fails when `name` is taken.
    fn _uniform_structure(
        &mut self,
        name: &str,
        buffer_type: &str,
        type_: &str,
        array_length: ShaderUniformArrayLength,
        structure: &str,
        set: u32,
        binding: u32,
    ) -> (r: Result<&mut Self, String>)
        requires
            old(self).wf(),
        ensures
            r is Err <==> old(self)@.uniforms.contains_key(name@),
            r matches Ok(s) ==> s@ == old(self)@.with_uniform_block(name@, buffer_type@, type_@,
                array_length.spec_glsl_source(), structure@, set, binding) && s.wf() && *final(self) == *final(s),
            r matches Err(e) ==> e@ == already_declared_message(name@) && *final(self) == *old(self),
    {
        let ghost old_view = self@;
        if self.uniforms.contains_key(name) {
            return Err(Self::already_declared(name));
        }
        if !self.structures.contains_key(type_) {
            self.source.append("struct ");
            self.source.append(type_);
            self.source.append(" ");
            self.source.append(structure);
            self.source.append(";");
            self.structures.insert(type_.to_owned(), ());
        } else {
            proof {
                assert(self@.structures.insert(type_@) =~= self@.structures);
            }
        }
        let ghost after_struct = self@;
        assert(after_struct.structures =~= old_view.structures.insert(type_@));
        let mut line = "layout (std140, set = ".to_owned();
        push_decimal(&mut line, set);
        line.append(", binding = ");
        push_decimal(&mut line, binding);
        line.append(") ");
        line.append(buffer_type);
        line.append(" _");
        line.append(type_);
        line.append(" { ");
        line.append(type_);
        let suffix = array_length.glsl_source();
        line.append(suffix.as_str());
        line.append(" data; } _");
        line.append(name);
        line.append(";\n");
        self.source.append(line.as_str());
        let mut data = "_".to_owned();
        data.append(name);
        data.append(".data");
        self.define(name, data.as_str());
        self.uniforms.insert(name.to_owned(), (type_.to_owned(), set, binding));
        assert(self@.source =~= old_view.with_uniform_block(name@, buffer_type@, type_@,
            array_length.spec_glsl_source(), structure@, set, binding).source);
        assert(self@ == old_view.with_uniform_block(name@, buffer_type@, type_@,
            array_length.spec_glsl_source(), structure@, set, binding));
        Ok(self)
    }

    /// Declares a read-only storage buffer holding `T` at (`set`, `binding`).
    pub fn storage_buffer<T: ShaderStructUniform>(
        &mut self,
        name: &str,
        array_length: ShaderUniformArrayLength,
        set: u32,
        binding: u32,
    ) -> (r: Result<&mut Self, String>)
        requires
            old(self).wf(),
        ensures
            r is Err <==> old(self)@.uniforms.contains_key(name@),
            r matches Ok(s) ==> s@ == old(self)@.with_uniform_block(name@, "readonly buffer"@,
                T::spec_glsl_type_name(), array_length.spec_glsl_source(), T::spec_structure(), set, binding)
                && s.wf() && *final(self) == *final(s),
            r matches Err(e) ==> e@ == already_declared_message(name@) && *final(self) == *old(self),
    {
        let glsl_type = T::glsl_type_name();
        let structure = T::structure();
        self._uniform_structure(name, "readonly buffer", glsl_type.as_str(), array_length, structure.as_str(), set, binding)
    }

    /// Declares a read-only storage buffer holding `T` at the next free binding of `set`.
    pub fn storage_buffer_autoincrement<T: ShaderStructUniform>(
        &mut self,
        name: &str,
        array_length: ShaderUniformArrayLength,
        set: u32,
    ) -> (r: Result<&mut Self, String>)
        requires
            old(self).wf(),
            bindings_below_max(old(self)@.uniforms, set),
        ensures
            r is Err <==> old(self)@.uniforms.contains_key(name@),
            r matches Ok(s) ==> s@ == old(self)@.with_uniform_block(name@, "readonly buffer"@,
                T::spec_glsl_type_name(), array_length.spec_glsl_source(), T::spec_structure(), set,
                old(self)@.next_binding(set) as u32) && s.wf() && *final(self) == *final(s),
            r matches Err(e) ==> e@ == already_declared_message(name@) && *final(self) == *old(self),
    {
        let binding = self.last_set_index(set);
        self.storage_buffer::<T>(name, array_length, set, binding)
    }

    /// Declares a uniform block holding `T` at (`set`, `binding`).
    pub fn uniform<T: ShaderStructUniform>(
        &mut self,
        name: &str,
        array_length: ShaderUniformArrayLength,
        set: u32,
        binding: u32,
    ) -> (r: Result<&mut Self, String>)
        requires
            old(self).wf(),
        ensures
            r is Err <==> old(self)@.uniforms.contains_key(name@),
            r matches Ok(s) ==> s@ == old(self)@.with_uniform_block(name@, "uniform"@,
                T::spec_glsl_type_name(), array_length.spec_glsl_source(), T::spec_structure(), set, binding)
                && s.wf() && *final(self) == *final(s),
            r matches Err(e) ==> e@ == already_declared_message(name@) && *final(self) == *old(self),
    {
        let glsl_type = T::glsl_type_name();
        let structure = T::structure();
        self._uniform_structure(name, "uniform", glsl_type.as_str(), array_length, structure.as_str(), set, binding)
    }

    /// Declares a uniform block holding `T` at the next free binding of `set`.
    pub fn uniform_autoincrement<T: ShaderStructUniform>(
        &mut self,
        name: &str,
        array_length: ShaderUniformArrayLength,
        set: u32,
    ) -> (r: Result<&mut Self, String>)
        requires
            old(self).wf(),
            bindings_below_max(old(self)@.uniforms, set),
        ensures
            r is Err <==> old(self)@.uniforms.contains_key(name@),
            r matches Ok(s) ==> s@ == old(self)@.with_uniform_block(name@, "uniform"@,
                T::spec_glsl_type_name(), array_length.spec_glsl_source(), T::spec_structure(), set,
                old(self)@.next_binding(set) as u32) && s.wf() && *final(self) == *final(s),
            r matches Err(e) ==> e@ == already_declared_message(name@) && *final(self) == *old(self),
    {
        let binding = self.last_set_index(set);
        self.uniform::<T>(name, array_length, set, binding)
    }

    /// Declares a uniform block with an explicitly given type name and structure.
    pub fn uniform_structure(
        &mut self,
        name: &str,
        type_: &str,
        array_length: ShaderUniformArrayLength,
        structure: &str,
        set: u32,
        binding: u32,
    ) -> (r: Result<&mut Self, String>)
        requires
            old(self).wf(),
        ensures
            r is Err <==> old(self)@.uniforms.contains_key(name@),
            r matches Ok(s) ==> s@ == old(self)@.with_uniform_block(name@, "uniform"@, type_@,
                array_length.spec_glsl_source(), structure@, set, binding) && s.wf() && *final(self) == *final(s),
            r matches Err(e) ==> e@ == already_declared_message(name@) && *final(self) == *old(self),
    {
        self._uniform_structure(name, "uniform", type_, array_length, structure, set, binding)
    }

    /// Declares a uniform block with an explicit structure at the next free binding of `set`.
    pub fn uniform_structure_autoincrement(
        &mut self,
        name: &str,
        type_: &str,
        array_length: ShaderUniformArrayLength,
        structure: &str,
        set: u32,
    ) -> (r: Result<&mut Self, String>)
        requires
            old(self).wf(),
            bindings_below_max(old(self)@.uniforms, set),
        ensures
            r is Err <==> old(self)@.uniforms.contains_key(name@),
            r matches Ok(s) ==> s@ == old(self)@.with_uniform_block(name@, "uniform"@, type_@,
                array_length.spec_glsl_source(), structure@, set, old(self)@.next_binding(set) as u32)
                && s.wf() && *final(self) == *final(s),
            r matches Err(e) ==> e@ == already_declared_message(name@) && *final(self) == *old(self),
    {
        let binding = self.last_set_index(set);
        self.uniform_structure(name, type_, array_length, structure, set, binding)
    }

    /// Declares the push constant block; a shader has at most one.
    pub fn uniform_constant<T: ShaderStructUniform>(&mut self, name: &str) -> (r: Result<&mut Self, String>)
        requires
            old(self).wf(),
        ensures
            r is Err <==> old(self)@.push_constant is Some,
            r matches Ok(s) ==> s@ == old(self)@.with_push_constant(name@, T::spec_glsl_type_name(), T::spec_structure())
                && s.wf() && *final(self) == *final(s),
            r matches Err(e) ==> e@ == second_constant_message() && *final(self) == *old(self),
    {
        if self.push_constants.is_some() {
            return Err("Можно объявить только одну константу.".to_owned());
        }
        let ghost old_view = self@;
        let name = name.to_owned();
        let glsl_type = T::glsl_type_name();
        let structure = T::structure();
        self.source.append("layout (push_constant) uniform ");
        self.source.append(glsl_type.as_str());
        self.source.append(" ");
        self.source.append(structure.as_str());
        self.source.append(" ");
        self.source.append(name.as_str());
        self.source.append(";\n");
        self.push_constants = Some((name, glsl_type));
        assert(self@.source =~= old_view.with_push_constant(name@, T::spec_glsl_type_name(), T::spec_structure()).source);
        assert(self@ == old_view.with_push_constant(name@, T::spec_glsl_type_name(), T::spec_structure()));
        Ok(self)
    }

    /// Declares a sampler uniform of the given view kind at (`set`, `binding`).
    pub fn uniform_sampler(
        &mut self,
        name: &str,
        set: u32,
        binding: u32,
        dims: TextureView,
        shadowmap: bool,
    ) -> (r: Result<&mut Self, String>)
        requires
            old(self).wf(),
        ensures
            r is Err <==> old(self)@.uniforms.contains_key(name@),
            r matches Ok(s) ==> s@ == old(self)@.with_sampler(name@, set, binding, dims, shadowmap)
                && s.wf() && *final(self) == *final(s),
            r matches Err(e) ==> e@ == already_declared_message(name@) && *final(self) == *old(self),
    {
        if self.uniforms.contains_key(name) {
            return Err(Self::already_declared(name));
        }
        let ghost old_view = self@;
        let utype = dims.glsl_sampler_name();
        let mut line = "layout (set = ".to_owned();
        push_decimal(&mut line, set);
        line.append(", binding = ");
        push_decimal(&mut line, binding);
        line.append(") uniform ");
        line.append(utype);
        if shadowmap {
            line.append("Shadow ");
        } else {
            line.append(" ");
        }
        line.append(name);
        line.append(";\n");
        self.source.append(line.as_str());
        self.uniforms.insert(name.to_owned(), (utype.to_owned(), set, binding));
        assert(self@.source =~= old_view.with_sampler(name@, set, binding, dims, shadowmap).source);
        assert(self@ == old_view.with_sampler(name@, set, binding, dims, shadowmap));
        Ok(self)
    }

    /// Declares a sampler uniform at the next free binding of `set`.
    pub fn uniform_sampler_autoincrement(
        &mut self,
        name: &str,
        set: u32,
        dims: TextureView,
        shadowmap: bool,
    ) -> (r: Result<&mut Self, String>)
        requires
            old(self).wf(),
            bindings_below_max(old(self)@.uniforms, set),
        ensures
            r is Err <==> old(self)@.uniforms.contains_key(name@),
            r matches Ok(s) ==> s@ == old(self)@.with_sampler(name@, set, old(self)@.next_binding(set) as u32, dims, shadowmap)
                && s.wf() && *final(self) == *final(s),
            r matches Err(e) ==> e@ == already_declared_message(name@) && *final(self) == *old(self),
    {
        let binding = self.last_set_index(set);
        self.uniform_sampler(name, set, binding, dims, shadowmap)
    }
}

/// Uniform name to (descriptor set, binding).
pub open spec fn locations_of(u: Map<Seq<char>, (Seq<char>, u32, u32)>) -> Map<Seq<char>, (u32, u32)> {
    Map::new(|k: Seq<char>| u.contains_key(k), |k: Seq<char>| (u[k].1, u[k].2))
}

/// Uniform name to GLSL type name.
pub open spec fn types_of(u: Map<Seq<char>, (Seq<char>, u32, u32)>) -> Map<Seq<char>, Seq<char>> {
    Map::new(|k: Seq<char>| u.contains_key(k), |k: Seq<char>| u[k].0)
}

/// Names that both maps hold have equal values in both.
pub open spec fn compatible<V>(a: Map<Seq<char>, V>, b: Map<Seq<char>, V>) -> bool {
    forall|k: Seq<char>| #[trigger] a.contains_key(k) && #[trigger] b.contains_key(k) ==> a[k] == b[k]
}

pub open spec fn vertex_locations_message() -> Seq<char> {
    "Вершинный шейдер использует существующие имена uniform-переменных с разными расположениями."@
}

pub open spec fn vertex_types_message() -> Seq<char> {
    "Вершинный шейдер использует существующие имена uniform-переменных с разными типами."@
}

pub open spec fn fragment_locations_message() -> Seq<char> {
    "Фрагментный шейдер использует те же имена uniform-переменных с разным расположением."@
}

pub open spec fn fragment_types_message() -> Seq<char> {
    "Фрагментный шейдер использует те же имена uniform-переменных с другими типами."@
}

pub open spec fn single_constant_message() -> Seq<char> {
    "Uniform-константу можно объявить только в одном шейдере."@
}

pub open spec fn tesselation_locations_message() -> Seq<char> {
    "Шейдеры тесселяции использует одни и те же имена uniform-переменных с разными расположениями."@
}

pub open spec fn tesselation_types_message() -> Seq<char> {
    "Шейдеры тесселяции использует одни и те же имена uniform-переменных с разными типами."@
}

/// What a shader program collects from its stages.
pub struct ProgramView {
    pub vertex_source: Seq<char>,
    pub fragment_source: Seq<char>,
    pub tess_control_source: Seq<char>,
    pub tess_eval_source: Seq<char>,
    pub compute_source: Seq<char>,
    pub fragment_outputs: Map<Seq<char>, AttribType>,
    pub uniforms_locations: Map<Seq<char>, (u32, u32)>,
    pub uniforms_types: Map<Seq<char>, Seq<char>>,
    /// The push constant as (name, GLSL type name).
    pub uniform_constant: Option<(Seq<char>, Seq<char>)>,
    /// XOR of the SPIR-V hashes of the stages.
    pub hash: u64,
}

impl ProgramView {
    /// The program after taking `shader`'s uniforms, source and hash as its vertex stage.
    pub open spec fn with_vertex(self, shader: ShaderView) -> ProgramView {
        ProgramView {
            hash: self.hash ^ shader.spirv_hash,
            vertex_source: shader.source,
            uniforms_locations: self.uniforms_locations.union_prefer_right(locations_of(shader.uniforms)),
            uniforms_types: self.uniforms_types.union_prefer_right(types_of(shader.uniforms)),
            ..self
        }
    }

    /// The program after taking the uniforms, sources and hashes of a pair of
    /// tessellation stages; on a name both declare, the control stage wins.
    pub open spec fn with_tesselation(self, eval: ShaderView, control: ShaderView) -> ProgramView {
        ProgramView {
            hash: self.hash ^ eval.spirv_hash ^ control.spirv_hash,
            tess_control_source: control.source,
            tess_eval_source: eval.source,
            uniforms_locations: self.uniforms_locations.union_prefer_right(locations_of(eval.uniforms))
                .union_prefer_right(locations_of(control.uniforms)),
            uniforms_types: self.uniforms_types.union_prefer_right(types_of(eval.uniforms)).union_prefer_right(
                types_of(control.uniforms),
            ),
            ..self
        }
    }

    /// The program after taking `shader`'s uniforms, source, outputs and hash as its
    /// fragment stage (the push constant is not taken here).
    pub open spec fn with_fragment(self, shader: ShaderView) -> ProgramView {
        ProgramView {
            hash: self.hash ^ shader.spirv_hash,
            fragment_source: shader.source,
            fragment_outputs: shader.outputs,
            uniforms_locations: self.uniforms_locations.union_prefer_right(locations_of(shader.uniforms)),
            uniforms_types: self.uniforms_types.union_prefer_right(types_of(shader.uniforms)),
            ..self
        }
    }
}

/// Collects the stages of a shader program and checks that they agree on
/// the location and type of every uniform they share.
pub struct ShaderProgramBuilder {
    vertex_shader_source: String,
    fragment_shader_source: String,
    tess_controll_source: String,
    tess_eval_source: String,
    compute_source: String,
    fragment_outputs: NameMap<AttribType>,
    uniforms_locations: NameMap<(u32, u32)>,
    uniforms_types: NameMap<String>,
    uniform_constant: Option<(String, String)>,
    hash: u64,
}

impl View for ShaderProgramBuilder {
    type V = ProgramView;

    closed spec fn view(&self) -> ProgramView {
        ProgramView {
            vertex_source: self.vertex_shader_source@,
            fragment_source: self.fragment_shader_source@,
            tess_control_source: self.tess_controll_source@,
            tess_eval_source: self.tess_eval_source@,
            compute_source: self.compute_source@,
            fragment_outputs: self.fragment_outputs@,
            uniforms_locations: self.uniforms_locations@,
            uniforms_types: self.uniforms_types@,
            uniform_constant: match self.uniform_constant {
                Some(c) => Some((c.0@, c.1@)),
                None => None,
            },
            hash: self.hash,
        }
    }
}

proof fn lemma_entries_prefix<V: View>(s: Seq<(String, V)>, i: int)
    requires
        0 <= i < s.len(),
    ensures
        entries_map(s.subrange(0, i + 1)) == entries_map(s.subrange(0, i)).insert(s[i].0@, s[i].1@),
{
    let p = s.subrange(0, i + 1);
    assert(p.subrange(0, p.len() - 1) =~= s.subrange(0, i));
    assert(p[p.len() - 1] == s[i]);
}

impl ShaderProgramBuilder {
    pub closed spec fn wf(&self) -> bool {
        &&& self.fragment_outputs.wf()
        &&& self.uniforms_locations.wf()
        &&& self.uniforms_types.wf()
    }

    /// An empty program: no stages, no uniforms, hash 0.
    pub fn builder() -> (b: Self)
        ensures
            b.wf(),
            b@.vertex_source == Seq::<char>::empty(),
            b@.fragment_source == Seq::<char>::empty(),
            b@.tess_control_source == Seq::<char>::empty(),
            b@.tess_eval_source == Seq::<char>::empty(),
            b@.compute_source == Seq::<char>::empty(),
            b@.fragment_outputs == Map::<Seq<char>, AttribType>::empty(),
            b@.uniforms_locations == Map::<Seq<char>, (u32, u32)>::empty(),
            b@.uniforms_types == Map::<Seq<char>, Seq<char>>::empty(),
            b@.uniform_constant is None,
            b@.hash == 0,
    {
        ShaderProgramBuilder {
            vertex_shader_source: String::new(),
            fragment_shader_source: String::new(),
            tess_controll_source: String::new(),
            tess_eval_source: String::new(),
            compute_source: String::new(),
            fragment_outputs: NameMap::new(),
            uniforms_locations: NameMap::new(),
            uniforms_types: NameMap::new(),
            uniform_constant: None,
            hash: 0,
        }
    }

    pub fn hash(&self) -> (h: u64)
        ensures
            h == self@.hash,
    {
        self.hash
    }

    pub fn vertex_shader_source(&self) -> (s: &String)
        ensures
            s@ == self@.vertex_source,
    {
        &self.vertex_shader_source
    }

    pub fn fragment_shader_source(&self) -> (s: &String)
        ensures
            s@ == self@.fragment_source,
    {
        &self.fragment_shader_source
    }

    pub fn tess_controll_source(&self) -> (s: &String)
        ensures
            s@ == self@.tess_control_source,
    {
        &self.tess_controll_source
    }

    pub fn tess_eval_source(&self) -> (s: &String)
        ensures
            s@ == self@.tess_eval_source,
    {
        &self.tess_eval_source
    }

    pub fn compute_source(&self) -> (s: &String)
        ensures
            s@ == self@.compute_source,
    {
        &self.compute_source
    }

    /// The outputs of the fragment stage.
    pub fn outputs(&self) -> (r: &NameMap<AttribType>)
        ensures
            r@ == self@.fragment_outputs,
            r.wf() <== self.wf(),
    {
        &self.fragment_outputs
    }

    /// Whether every name held by both maps has the same value in both.
    pub fn check_uniforms_compatibility<T: ViewEq>(uniforms_s1: &NameMap<T>, uniforms_s2: &NameMap<T>) -> (b: bool)
        requires
            uniforms_s1.wf(),
            uniforms_s2.wf(),
        ensures
            b == compatible(uniforms_s1@, uniforms_s2@),
    {
        let entries = uniforms_s1.entries();
        proof {
            uniforms_s1.lemma_view();
        }
        let mut i: usize = 0;
        while i < entries.len()
            invariant
                i <= entries@.len(),
                entries@ == uniforms_s1.spec_entries(),
                uniforms_s1.wf(),
                uniforms_s2.wf(),
                forall|j: int| 0 <= j < i && #[trigger] uniforms_s2@.contains_key(entries@[j].0@)
                    ==> uniforms_s2@[entries@[j].0@] == entries@[j].1@,
            decreases entries@.len() - i,
        {
            match uniforms_s2.get(entries[i].0.as_str()) {
                Some(other) => {
                    if !entries[i].1.view_eq(other) {
                        proof {
                            uniforms_s1.lemma_view();
                            let k = entries@[i as int].0@;
                            assert(uniforms_s1@[k] == entries@[i as int].1@);
                            assert(uniforms_s1@.contains_key(k));
                        }
                        return false;
                    }
                },
                None => {},
            }
            i = i + 1;
        }
        proof {
            assert forall|k: Seq<char>| #[trigger] uniforms_s1@.contains_key(k) && #[trigger] uniforms_s2@.contains_key(k)
                implies uniforms_s1@[k] == uniforms_s2@[k] by {
                let j = choose|j: int| 0 <= j < entries@.len() && entries@[j].0@ == k;
                assert(uniforms_s1@[entries@[j].0@] == entries@[j].1@);
            }
        }
        true
    }

    /// The locations and the types of `shader`'s uniforms as two maps.
    fn collect_uniforms(shader: &Shader) -> (r: (NameMap<(u32, u32)>, NameMap<String>))
        requires
            shader.wf(),
        ensures
            r.0.wf(),
            r.1.wf(),
            r.0@ == locations_of(shader@.uniforms),
            r.1@ == types_of(shader@.uniforms),
    {
        let entries = shader.uniforms.entries();
        let mut locations: NameMap<(u32, u32)> = NameMap::new();
        let mut types: NameMap<String> = NameMap::new();
        let mut i: usize = 0;
        let ghost u = entries_map(entries@);
        proof {
            shader.uniforms.lemma_view();
        }
        while i < entries.len()
            invariant
                i <= entries@.len(),
                locations.wf(),
                types.wf(),
                locations@ == locations_of(entries_map(entries@.subrange(0, i as int))),
                types@ == types_of(entries_map(entries@.subrange(0, i as int))),
            decreases entries@.len() - i,
        {
            let ghost prev = entries_map(entries@.subrange(0, i as int));
            locations.insert(entries[i].0.clone(), (entries[i].1.1, entries[i].1.2));
            types.insert(entries[i].0.clone(), entries[i].1.0.clone());
            proof {
                lemma_entries_prefix(entries@, i as int);
                let next = entries_map(entries@.subrange(0, i as int + 1));
                assert(locations@ =~= locations_of(next));
                assert(types@ =~= types_of(next));
            }
            i = i + 1;
        }
        assert(entries@.subrange(0, entries@.len() as int) =~= entries@);
        (locations, types)
    }

    /// Adds every entry of `from` to `into`, replacing values of names `into` already holds.
    fn merge<T: ViewEq>(into: &mut NameMap<T>, from: &NameMap<T>)
        requires
            old(into).wf(),
            from.wf(),
        ensures
            final(into).wf(),
            final(into)@ == old(into)@.union_prefer_right(from@),
    {
        let entries = from.entries();
        proof {
            from.lemma_view();
        }
        let ghost start = into@;
        let mut i: usize = 0;
        while i < entries.len()
            invariant
                i <= entries@.len(),
                entries@ == from.spec_entries(),
                from.wf(),
                into.wf(),
                into@ == start.union_prefer_right(entries_map(entries@.subrange(0, i as int))),
            decreases entries@.len() - i,
        {
            let value = entries[i].1.duplicate();
            into.insert(entries[i].0.clone(), value);
            proof {
                lemma_entries_prefix(entries@, i as int);
                assert(into@ =~= start.union_prefer_right(entries_map(entries@.subrange(0, i as int + 1))));
            }
            i = i + 1;
        }
        assert(entries@.subrange(0, entries@.len() as int) =~= entries@);
    }

    fn copy_map<T: ViewEq>(from: &NameMap<T>) -> (r: NameMap<T>)
        requires
            from.wf(),
        ensures
            r.wf(),
            r@ == from@,
    {
        let mut r = NameMap::new();
        Self::merge(&mut r, from);
        assert(r@ =~= from@);
        r
    }

    /// Takes `shader` as the vertex stage. Fails, changing nothing, when a uniform
    /// that the program already has is declared by the shader at another location
    /// or with another type.
    pub fn vertex(&mut self, shader: &Shader) -> (r: Result<&mut Self, String>)
        requires
            old(self).wf(),
            shader.wf(),
        ensures
            r is Err <==> !compatible(old(self)@.uniforms_locations, locations_of(shader@.uniforms))
                || !compatible(old(self)@.uniforms_types, types_of(shader@.uniforms)),
            r matches Err(e) ==> *final(self) == *old(self) && e@ == (if !compatible(
                old(self)@.uniforms_locations,
                locations_of(shader@.uniforms),
            ) {
                vertex_locations_message()
            } else {
                vertex_types_message()
            }),
            r matches Ok(s) ==> s@ == old(self)@.with_vertex(shader@) && s.wf() && *final(self) == *final(s),
    {
        let (locations, types) = Self::collect_uniforms(shader);
        let loc_compat = Self::check_uniforms_compatibility(&self.uniforms_locations, &locations);
        let type_compat = Self::check_uniforms_compatibility(&self.uniforms_types, &types);
        if !loc_compat {
            return Err("Вершинный шейдер использует существующие имена uniform-переменных с разными расположениями.".to_owned());
        }
        if !type_compat {
            return Err("Вершинный шейдер использует существующие имена uniform-переменных с разными типами.".to_owned());
        }
        self.hash = self.hash ^ shader.spirv_hash;
        self.vertex_shader_source = shader.source.clone();
        Self::merge(&mut self.uniforms_locations, &locations);
        Self::merge(&mut self.uniforms_types, &types);
        Ok(self)
    }

    /// Takes `shader` as the fragment stage, with its outputs. Fails, changing
    /// nothing, on a uniform declared at another location or with another type.
    /// When the program already has a push constant, the stage is taken and the
    /// call still fails.
    pub fn fragment(&mut self, shader: &Shader) -> (r: Result<&mut Self, String>)
        requires
            old(self).wf(),
            shader.wf(),
        ensures
            r is Err <==> !compatible(old(self)@.uniforms_locations, locations_of(shader@.uniforms))
                || !compatible(old(self)@.uniforms_types, types_of(shader@.uniforms))
                || old(self)@.uniform_constant is Some,
            r matches Err(e) ==> {
                if !compatible(old(self)@.uniforms_locations, locations_of(shader@.uniforms)) {
                    *final(self) == *old(self) && e@ == fragment_locations_message()
                } else if !compatible(old(self)@.uniforms_types, types_of(shader@.uniforms)) {
                    *final(self) == *old(self) && e@ == fragment_types_message()
                } else {
                    final(self)@ == old(self)@.with_fragment(shader@) && final(self).wf()
                        && e@ == single_constant_message()
                }
            },
            r matches Ok(s) ==> s@ == (ProgramView {
                uniform_constant: shader@.push_constant,
                ..old(self)@.with_fragment(shader@)
            }) && s.wf() && *final(self) == *final(s),
    {
        let (locations, types) = Self::collect_uniforms(shader);
        let loc_compat = Self::check_uniforms_compatibility(&self.uniforms_locations, &locations);
        let type_compat = Self::check_uniforms_compatibility(&self.uniforms_types, &types);
        if !loc_compat {
            return Err("Фрагментный шейдер использует те же имена uniform-переменных с разным расположением.".to_owned());
        }
        if !type_compat {
            return Err("Фрагментный шейдер использует те же имена uniform-переменных с другими типами.".to_owned());
        }
        self.hash = self.hash ^ shader.spirv_hash;
        self.fragment_shader_source = shader.source.clone();
        self.fragment_outputs = Self::copy_map(&shader.outputs);
        Self::merge(&mut self.uniforms_locations, &locations);
        Self::merge(&mut self.uniforms_types, &types);
        match self.uniform_constant {
            Some(_) => {
                return Err("Uniform-константу можно объявить только в одном шейдере.".to_owned());
            },
            None => {
                self.uniform_constant = match &shader.push_constants {
                    Some(pc) => Some((pc.0.clone(), pc.1.clone())),
                    None => None,
                };
            },
        }
        Ok(self)
    }

    /// Takes a pair of tessellation stages. Fails, changing nothing, when a uniform
    /// that the program already has is declared by either stage at another location
    /// or with another type. When the program already has a push constant, or the
    /// evaluation stage declares one, the stages are taken and the call still fails.
    pub fn tesselation(&mut self, eval: &Shader, control: &Shader) -> (r: Result<&mut Self, String>)
        requires
            old(self).wf(),
            eval.wf(),
            control.wf(),
        ensures
            r is Err <==> !compatible(old(self)@.uniforms_locations, locations_of(eval@.uniforms))
                || !compatible(old(self)@.uniforms_locations, locations_of(control@.uniforms))
                || !compatible(old(self)@.uniforms_types, types_of(eval@.uniforms))
                || !compatible(old(self)@.uniforms_types, types_of(control@.uniforms))
                || old(self)@.uniform_constant is Some
                || eval@.push_constant is Some,
            r matches Err(e) ==> {
                if !compatible(old(self)@.uniforms_locations, locations_of(eval@.uniforms))
                    || !compatible(old(self)@.uniforms_locations, locations_of(control@.uniforms)) {
                    *final(self) == *old(self) && e@ == tesselation_locations_message()
                } else if !compatible(old(self)@.uniforms_types, types_of(eval@.uniforms))
                    || !compatible(old(self)@.uniforms_types, types_of(control@.uniforms)) {
                    *final(self) == *old(self) && e@ == tesselation_types_message()
                } else if old(self)@.uniform_constant is Some {
                    final(self)@ == old(self)@.with_tesselation(eval@, control@) && final(self).wf()
                        && e@ == single_constant_message()
                } else {
                    final(self)@ == (ProgramView {
                        uniform_constant: eval@.push_constant,
                        ..old(self)@.with_tesselation(eval@, control@)
                    }) && final(self).wf() && e@ == single_constant_message()
                }
            },
            r matches Ok(s) ==> s@ == (ProgramView {
                uniform_constant: control@.push_constant,
                ..old(self)@.with_tesselation(eval@, control@)
            }) && s.wf() && *final(self) == *final(s),
    {
        let (eval_locations, eval_types) = Self::collect_uniforms(eval);
        let (control_locations, control_types) = Self::collect_uniforms(control);
        let loc_compat = Self::check_uniforms_compatibility(&self.uniforms_locations, &eval_locations)
            && Self::check_uniforms_compatibility(&self.uniforms_locations, &control_locations);
        let type_compat = Self::check_uniforms_compatibility(&self.uniforms_types, &eval_types)
            && Self::check_uniforms_compatibility(&self.uniforms_types, &control_types);
        if !loc_compat {
            return Err("Шейдеры тесселяции использует одни и те же имена uniform-переменных с разными расположениями.".to_owned());
        }
        if !type_compat {
            return Err("Шейдеры тесселяции использует одни и те же имена uniform-переменных с разными типами.".to_owned());
        }
        self.hash = self.hash ^ eval.spirv_hash;
        self.hash = self.hash ^ control.spirv_hash;
        self.tess_controll_source = control.source.clone();
        self.tess_eval_source = eval.source.clone();
        Self::merge(&mut self.uniforms_locations, &eval_locations);
        Self::merge(&mut self.uniforms_locations, &control_locations);
        Self::merge(&mut self.uniforms_types, &eval_types);
        Self::merge(&mut self.uniforms_types, &control_types);
        match self.uniform_constant {
            Some(_) => {
                return Err("Uniform-константу можно объявить только в одном шейдере.".to_owned());
            },
            None => {
                self.uniform_constant = match &eval.push_constants {
                    Some(pc) => Some((pc.0.clone(), pc.1.clone())),
                    None => None,
                };
            },
        }
        match self.uniform_constant {
            Some(_) => {
                return Err("Uniform-константу можно объявить только в одном шейдере.".to_owned());
            },
            None => {
                self.uniform_constant = match &control.push_constants {
                    Some(pc) => Some((pc.0.clone(), pc.1.clone())),
                    None => None,
                };
            },
        }
        Ok(self)
    }
}

} // verus!
