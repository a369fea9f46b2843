//! Per-object uniform blocks: the camera projection and the object transform.
use vstd::prelude::*;
use crate::bits::Mat4Bits;
use crate::shader::{glsl_struct_source, struct_source, ShaderStructUniform};

verus! {

/// Camera matrices handed to shaders (block `Camera`).
#[derive(Clone, Copy, Debug, PartialEq, Eq, Structural)]
pub struct ProjectionUniformData {
    pub transform: Mat4Bits,
    pub transform_prev: Mat4Bits,
    pub transform_inverted: Mat4Bits,
    pub transform_prev_inverted: Mat4Bits,
    pub projection: Mat4Bits,
    pub projection_inverted: Mat4Bits,
}

impl ShaderStructUniform for ProjectionUniformData {
    open spec fn spec_structure() -> Seq<char> {
        struct_source(seq![
            ("mat4", "transform"),
            ("mat4", "transform_prev"),
            ("mat4", "transform_inverted"),
            ("mat4", "transform_prev_inverted"),
            ("mat4", "projection"),
            ("mat4", "projection_inverted"),
        ])
    }

    open spec fn spec_glsl_type_name() -> Seq<char> {
        "Camera"@
    }

    fn structure() -> (s: String) {
        let fields = vec![
            ("mat4", "transform"),
            ("mat4", "transform_prev"),
            ("mat4", "transform_inverted"),
            ("mat4", "transform_prev_inverted"),
            ("mat4", "projection"),
            ("mat4", "projection_inverted"),
        ];
        let s = glsl_struct_source(&fields);
        assert(fields@ =~= seq![
            ("mat4", "transform"),
            ("mat4", "transform_prev"),
            ("mat4", "transform_inverted"),
            ("mat4", "transform_prev_inverted"),
            ("mat4", "projection"),
            ("mat4", "projection_inverted"),
        ]);
        s
    }

    fn glsl_type_name() -> (s: String) {
        "Camera".to_owned()
    }
}

/// The current and the previous world transform of an object (block `GOTransform`).
#[derive(Clone, Copy, Debug, PartialEq, Eq, Structural)]
pub struct GOTransfotmUniform {
    pub transform: Mat4Bits,
    pub transform_prev: Mat4Bits,
}

impl ShaderStructUniform for GOTransfotmUniform {
    open spec fn spec_structure() -> Seq<char> {
        "{
            mat4 transform;
            mat4 transform_prev;
        }"@
    }

    open spec fn spec_glsl_type_name() -> Seq<char> {
        "GOTransform"@
    }

    fn structure() -> (s: String) {
        "{
            mat4 transform;
            mat4 transform_prev;
        }".to_owned()
    }

    fn glsl_type_name() -> (s: String) {
        "GOTransform".to_owned()
    }
}

} // verus!
