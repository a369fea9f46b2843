//! GLSL versions, shader stages and the numeric encoding of GLSL types.
//!
//! A GLSL type is encoded as a 16-bit code `0xRCSN`: `R` is the number of
//! rows, `C` the number of columns, `S` the size of one cell in bytes and
//! `N` the index of the cell's numeric type (see [`AttribNumType`]).
//! Samplers use the small codes 1..=4.
use vstd::prelude::*;
use crate::text::{decimal, push_decimal};

verus! {

#[allow(dead_code)]
#[derive(Copy, Clone, Debug, PartialEq, Eq, Structural)]
pub enum GLSLVersion {
    V140,
    V150,
    V300ES,
    V310ES,
    V320ES,
    V330,
    V400,
    V410,
    V420,
    V430,
    V440,
    V450,
    V460,
}

impl GLSLVersion {
    /// Position of the version in the declaration order.
    pub open spec fn ordinal(self) -> nat {
        match self {
            GLSLVersion::V140 => 0,
            GLSLVersion::V150 => 1,
            GLSLVersion::V300ES => 2,
            GLSLVersion::V310ES => 3,
            GLSLVersion::V320ES => 4,
            GLSLVersion::V330 => 5,
            GLSLVersion::V400 => 6,
            GLSLVersion::V410 => 7,
            GLSLVersion::V420 => 8,
            GLSLVersion::V430 => 9,
            GLSLVersion::V440 => 10,
            GLSLVersion::V450 => 11,
            GLSLVersion::V460 => 12,
        }
    }

    /// The `#version` directive of the version.
    pub open spec fn spec_stringify(self) -> Seq<char> {
        match self {
            GLSLVersion::V140 => "#version 140"@,
            GLSLVersion::V150 => "#version 150"@,
            GLSLVersion::V330 => "#version 330"@,
            GLSLVersion::V400 => "#version 400"@,
            GLSLVersion::V410 => "#version 410"@,
            GLSLVersion::V420 => "#version 420"@,
            GLSLVersion::V430 => "#version 430"@,
            GLSLVersion::V440 => "#version 440"@,
            GLSLVersion::V450 => "#version 450"@,
            GLSLVersion::V460 => "#version 460"@,
            GLSLVersion::V300ES => "#version 300 es"@,
            GLSLVersion::V310ES => "#version 310 es"@,
            GLSLVersion::V320ES => "#version 320 es"@,
        }
    }

    pub open spec fn is_es(self) -> bool {
        self is V300ES || self is V310ES || self is V320ES
    }

    pub fn stringify(&self) -> (s: String)
        ensures
            s@ == self.spec_stringify(),
    {
        match self {
            Self::V140 => "#version 140".to_owned(),
            Self::V150 => "#version 150".to_owned(),
            Self::V330 => "#version 330".to_owned(),
            Self::V400 => "#version 400".to_owned(),
            Self::V410 => "#version 410".to_owned(),
            Self::V420 => "#version 420".to_owned(),
            Self::V430 => "#version 430".to_owned(),
            Self::V440 => "#version 440".to_owned(),
            Self::V450 => "#version 450".to_owned(),
            Self::V460 => "#version 460".to_owned(),
            Self::V300ES => "#version 300 es".to_owned(),
            Self::V310ES => "#version 310 es".to_owned(),
            Self::V320ES => "#version 320 es".to_owned(),
        }
    }

    /// Explicit attribute locations exist from GLSL ES 3.00 on in the declaration order.
    pub fn have_explicit_attri_location(&self) -> (b: bool)
        ensures
            b == (self.ordinal() >= GLSLVersion::V300ES.ordinal()),
    {
        match self {
            Self::V140 | Self::V150 => false,
            _ => true,
        }
    }

    pub fn need_precision_qualifier(&self) -> (b: bool)
        ensures
            b == self.is_es(),
    {
        match self {
            Self::V300ES | Self::V310ES | Self::V320ES => true,
            _ => false,
        }
    }
}

#[allow(dead_code)]
#[derive(Copy, Clone, Debug, PartialEq, Eq, Structural)]
pub enum ShaderType {
    Vertex,
    TesselationControl,
    TesselationEval,
    Geometry,
    Fragment,
    Compute,
}

impl ShaderType {
    /// The human readable name of the stage.
    pub open spec fn spec_to_string(self) -> Seq<char> {
        match self {
            ShaderType::Vertex => "vertex"@,
            ShaderType::TesselationControl => "teselation cotrol"@,
            ShaderType::TesselationEval => "teselation evaluation"@,
            ShaderType::Geometry => "geometry"@,
            ShaderType::Fragment => "fragmet"@,
            ShaderType::Compute => "compute"@,
        }
    }

    pub fn to_string(&self) -> (s: String)
        ensures
            s@ == self.spec_to_string(),
    {
        let type_mark = match self {
            Self::Vertex => "vertex",
            Self::TesselationControl => "teselation cotrol",
            Self::TesselationEval => "teselation evaluation",
            Self::Geometry => "geometry",
            Self::Fragment => "fragmet",
            Self::Compute => "compute",
        };
        type_mark.to_owned()
    }
}

#[allow(dead_code)]
#[derive(Copy, Clone, Debug, PartialEq, Eq, Structural)]
pub enum GLSLSampler {
    Sampler1D,
    Sampler2D,
    Sampler3D,
    SamplerCube,
}

impl GLSLSampler {
    pub open spec fn spec_code(self) -> u32 {
        match self {
            GLSLSampler::Sampler1D => 0x001,
            GLSLSampler::Sampler2D => 0x002,
            GLSLSampler::Sampler3D => 0x003,
            GLSLSampler::SamplerCube => 0x004,
        }
    }

    pub fn code(self) -> (c: u32)
        ensures
            c == self.spec_code(),
    {
        match self {
            Self::Sampler1D => 0x001,
            Self::Sampler2D => 0x002,
            Self::Sampler3D => 0x003,
            Self::SamplerCube => 0x004,
        }
    }
}

/// Numeric cell types, numbered 0..=9 in declaration order.
#[allow(dead_code)]
#[allow(non_camel_case_types)]
#[derive(Copy, Clone, Debug, PartialEq, Eq, Structural)]
pub enum AttribNumType {
    BYTE,
    UNSIGNED_BYTE,
    SHORT,
    UNSIGNED_SHORT,
    INT,
    UNSIGNED_INT,
    HALF_FLOAT,
    FLOAT,
    DOUBLE,
    FIXED,
}

impl AttribNumType {
    pub open spec fn index(self) -> nat {
        match self {
            AttribNumType::BYTE => 0,
            AttribNumType::UNSIGNED_BYTE => 1,
            AttribNumType::SHORT => 2,
            AttribNumType::UNSIGNED_SHORT => 3,
            AttribNumType::INT => 4,
            AttribNumType::UNSIGNED_INT => 5,
            AttribNumType::HALF_FLOAT => 6,
            AttribNumType::FLOAT => 7,
            AttribNumType::DOUBLE => 8,
            AttribNumType::FIXED => 9,
        }
    }

    /// The numeric type with index `i` (indices are taken modulo 10).
    pub open spec fn from_index(i: nat) -> AttribNumType {
        let d = i % 10;
        if d == 0 {
            AttribNumType::BYTE
        } else if d == 1 {
            AttribNumType::UNSIGNED_BYTE
        } else if d == 2 {
            AttribNumType::SHORT
        } else if d == 3 {
            AttribNumType::UNSIGNED_SHORT
        } else if d == 4 {
            AttribNumType::INT
        } else if d == 5 {
            AttribNumType::UNSIGNED_INT
        } else if d == 6 {
            AttribNumType::HALF_FLOAT
        } else if d == 7 {
            AttribNumType::FLOAT
        } else if d == 8 {
            AttribNumType::DOUBLE
        } else {
            AttribNumType::FIXED
        }
    }

    /// Decodes a numeric type: the number is read as `u32` and taken modulo 10.
    pub fn from_i32(num: i32) -> (r: Self)
        ensures
            r == Self::from_index(((num as u32) % 10) as nat),
            r.index() == ((num as u32) % 10) as nat,
    {
        let d = (num as u32) % 10;
        if d == 0 {
            Self::BYTE
        } else if d == 1 {
            Self::UNSIGNED_BYTE
        } else if d == 2 {
            Self::SHORT
        } else if d == 3 {
            Self::UNSIGNED_SHORT
        } else if d == 4 {
            Self::INT
        } else if d == 5 {
            Self::UNSIGNED_INT
        } else if d == 6 {
            Self::HALF_FLOAT
        } else if d == 7 {
            Self::FLOAT
        } else if d == 8 {
            Self::DOUBLE
        } else {
            Self::FIXED
        }
    }

    /// Prefix of vector and matrix type names built on this cell type.
    pub open spec fn spec_type_marker(self) -> Seq<char> {
        match self {
            AttribNumType::FLOAT | AttribNumType::HALF_FLOAT | AttribNumType::FIXED => ""@,
            AttribNumType::DOUBLE => "d"@,
            AttribNumType::BYTE | AttribNumType::UNSIGNED_BYTE => "b"@,
            AttribNumType::SHORT | AttribNumType::INT => "i"@,
            AttribNumType::UNSIGNED_SHORT | AttribNumType::UNSIGNED_INT => "u"@,
        }
    }

    /// GLSL name of the scalar type that holds one cell.
    pub open spec fn spec_scalar_name(self) -> Seq<char> {
        match self {
            AttribNumType::FLOAT | AttribNumType::HALF_FLOAT | AttribNumType::FIXED => "float"@,
            AttribNumType::DOUBLE => "double"@,
            AttribNumType::BYTE | AttribNumType::UNSIGNED_BYTE => "bool"@,
            AttribNumType::SHORT | AttribNumType::INT => "int"@,
            AttribNumType::UNSIGNED_SHORT | AttribNumType::UNSIGNED_INT => "uint"@,
        }
    }

    fn type_marker(&self) -> (r: &'static str)
        ensures
            r@ == self.spec_type_marker(),
    {
        match self {
            Self::FLOAT | Self::HALF_FLOAT | Self::FIXED => "",
            Self::DOUBLE => "d",
            Self::BYTE | Self::UNSIGNED_BYTE => "b",
            Self::SHORT | Self::INT => "i",
            Self::UNSIGNED_SHORT | Self::UNSIGNED_INT => "u",
        }
    }

    fn scalar_name(&self) -> (r: &'static str)
        ensures
            r@ == self.spec_scalar_name(),
    {
        match self {
            Self::FLOAT | Self::HALF_FLOAT | Self::FIXED => "float",
            Self::DOUBLE => "double",
            Self::BYTE | Self::UNSIGNED_BYTE => "bool",
            Self::SHORT | Self::INT => "int",
            Self::UNSIGNED_SHORT | Self::UNSIGNED_INT => "uint",
        }
    }
}

/// Number of rows encoded in a type code.
pub open spec fn code_rows(code: u32) -> nat {
    ((code / 0x1000) % 16) as nat
}

/// Number of columns encoded in a type code.
pub open spec fn code_columns(code: u32) -> nat {
    ((code / 0x100) % 16) as nat
}

/// Size of one cell in bytes encoded in a type code.
pub open spec fn code_cell_size(code: u32) -> nat {
    ((code / 0x10) % 16) as nat
}

/// GLSL name of a numeric type of `rows` x `columns` cells of type `num`:
/// a scalar, a vector `Xvec<columns>`, a square matrix `Xmat<n>` or a
/// matrix `Xmat<columns>x<rows>`; the empty text for other shapes.
pub open spec fn numeric_glsl_name(rows: nat, columns: nat, num: AttribNumType) -> Seq<char> {
    if rows == 1 && columns == 1 {
        num.spec_scalar_name()
    } else if rows == 1 && 2 <= columns <= 4 {
        num.spec_type_marker() + "vec"@ + decimal(columns)
    } else if 2 <= rows <= 4 && 2 <= columns <= 4 {
        if rows == columns {
            num.spec_type_marker() + "mat"@ + decimal(columns)
        } else {
            num.spec_type_marker() + "mat"@ + decimal(columns) + "x"@ + decimal(rows)
        }
    } else {
        Seq::<char>::empty()
    }
}

fn numeric_glsl_name_exec(rows: u32, columns: u32, num: AttribNumType) -> (s: String)
    ensures
        s@ == numeric_glsl_name(rows as nat, columns as nat, num),
{
    if rows == 1 && columns == 1 {
        num.scalar_name().to_owned()
    } else if rows == 1 && 2 <= columns && columns <= 4 {
        let mut s = num.type_marker().to_owned();
        s.append("vec");
        push_decimal(&mut s, columns);
        s
    } else if 2 <= rows && rows <= 4 && 2 <= columns && columns <= 4 {
        let mut s = num.type_marker().to_owned();
        s.append("mat");
        push_decimal(&mut s, columns);
        if rows != columns {
            s.append("x");
            push_decimal(&mut s, rows);
        }
        s
    } else {
        String::new()
    }
}

#[allow(dead_code)]
#[derive(Copy, Clone, Debug, PartialEq, Eq, Structural)]
pub enum GLSLType {
    Sampler1D,
    Sampler2D,
    Sampler3D,
    SamplerCube,
    Bool,
    Int,
    Uint,
    Float,
    Double,
    BVec2,
    IVec2,
    UVec2,
    Vec2,
    DVec2,
    BVec3,
    IVec3,
    UVec3,
    Vec3,
    DVec3,
    BVec4,
    IVec4,
    UVec4,
    Vec4,
    DVec4,
    BMat2,
    IMat2,
    UMat2,
    Mat2,
    DMat2,
    BMat3,
    IMat3,
    UMat3,
    Mat3,
    DMat3,
    BMat4,
    IMat4,
    UMat4,
    Mat4,
    DMat4,
}

impl GLSLType {
    /// The type code `0xRCSN` (samplers: 1..=4).
    pub open spec fn spec_code(self) -> u32 {
        match self {
            GLSLType::Sampler1D => 0x001,
            GLSLType::Sampler2D => 0x002,
            GLSLType::Sampler3D => 0x003,
            GLSLType::SamplerCube => 0x004,
            GLSLType::Bool => 0x1110,
            GLSLType::Int => 0x1144,
            GLSLType::Uint => 0x1145,
            GLSLType::Float => 0x1147,
            GLSLType::Double => 0x1188,
            GLSLType::BVec2 => 0x1210,
            GLSLType::IVec2 => 0x1244,
            GLSLType::UVec2 => 0x1245,
            GLSLType::Vec2 => 0x1247,
            GLSLType::DVec2 => 0x1288,
            GLSLType::BVec3 => 0x1310,
            GLSLType::IVec3 => 0x1344,
            GLSLType::UVec3 => 0x1345,
            GLSLType::Vec3 => 0x1347,
            GLSLType::DVec3 => 0x1388,
            GLSLType::BVec4 => 0x1410,
            GLSLType::IVec4 => 0x1444,
            GLSLType::UVec4 => 0x1445,
            GLSLType::Vec4 => 0x1447,
            GLSLType::DVec4 => 0x1488,
            GLSLType::BMat2 => 0x2210,
            GLSLType::IMat2 => 0x2244,
            GLSLType::UMat2 => 0x2245,
            GLSLType::Mat2 => 0x2247,
            GLSLType::DMat2 => 0x2288,
            GLSLType::BMat3 => 0x3310,
            GLSLType::IMat3 => 0x3344,
            GLSLType::UMat3 => 0x3345,
            GLSLType::Mat3 => 0x3347,
            GLSLType::DMat3 => 0x3388,
            GLSLType::BMat4 => 0x4410,
            GLSLType::IMat4 => 0x4444,
            GLSLType::UMat4 => 0x4445,
            GLSLType::Mat4 => 0x4447,
            GLSLType::DMat4 => 0x4488,
        }
    }

    pub fn code(self) -> (c: u32)
        ensures
            c == self.spec_code(),
    {
        match self {
            Self::Sampler1D => 0x001,
            Self::Sampler2D => 0x002,
            Self::Sampler3D => 0x003,
            Self::SamplerCube => 0x004,
            Self::Bool => 0x1110,
            Self::Int => 0x1144,
            Self::Uint => 0x1145,
            Self::Float => 0x1147,
            Self::Double => 0x1188,
            Self::BVec2 => 0x1210,
            Self::IVec2 => 0x1244,
            Self::UVec2 => 0x1245,
            Self::Vec2 => 0x1247,
            Self::DVec2 => 0x1288,
            Self::BVec3 => 0x1310,
            Self::IVec3 => 0x1344,
            Self::UVec3 => 0x1345,
            Self::Vec3 => 0x1347,
            Self::DVec3 => 0x1388,
            Self::BVec4 => 0x1410,
            Self::IVec4 => 0x1444,
            Self::UVec4 => 0x1445,
            Self::Vec4 => 0x1447,
            Self::DVec4 => 0x1488,
            Self::BMat2 => 0x2210,
            Self::IMat2 => 0x2244,
            Self::UMat2 => 0x2245,
            Self::Mat2 => 0x2247,
            Self::DMat2 => 0x2288,
            Self::BMat3 => 0x3310,
            Self::IMat3 => 0x3344,
            Self::UMat3 => 0x3345,
            Self::Mat3 => 0x3347,
            Self::DMat3 => 0x3388,
            Self::BMat4 => 0x4410,
            Self::IMat4 => 0x4444,
            Self::UMat4 => 0x4445,
            Self::Mat4 => 0x4447,
            Self::DMat4 => 0x4488,
        }
    }

    /// The OpenGL constant of the cell type: `0x1400` plus the low nibble of the code.
    pub fn get_gl_const(self) -> (c: u32)
        ensures
            c == 0x1400 + self.spec_code() % 16,
    {
        self.code() % 16 + 0x1400
    }

    pub open spec fn spec_glsl_name(self) -> Seq<char> {
        match self {
            GLSLType::Sampler1D => "sampler1D"@,
            GLSLType::Sampler2D => "sampler2D"@,
            GLSLType::Sampler3D => "sampler3D"@,
            GLSLType::SamplerCube => "samplerCube"@,
            _ => numeric_glsl_name(
                code_rows(self.spec_code()),
                code_columns(self.spec_code()),
                AttribNumType::from_index((0x1400 + self.spec_code() % 16) as nat),
            ),
        }
    }

    pub fn get_glsl_name(self) -> (s: String)
        ensures
            s@ == self.spec_glsl_name(),
    {
        let code = self.code();
        let rows = (code / 0x1000) % 16;
        let columns = (code / 0x100) % 16;
        let gl_const = self.get_gl_const();
        let gl_type_code = AttribNumType::from_i32(gl_const as i32);
        proof {
            assert((gl_const as i32) as u32 == gl_const);
        }
        match self {
            Self::Sampler1D => return "sampler1D".to_owned(),
            Self::Sampler2D => return "sampler2D".to_owned(),
            Self::Sampler3D => return "sampler3D".to_owned(),
            Self::SamplerCube => return "samplerCube".to_owned(),
            _ => (),
        };
        numeric_glsl_name_exec(rows, columns, gl_type_code)
    }
}

#[allow(dead_code)]
#[derive(Copy, Clone, Debug, PartialEq, Eq, Structural)]
pub enum AttribType {
    Byte,
    UByte,
    Short,
    UShort,
    Int,
    UInt,
    HFloat,
    Float,
    Double,
    Fixed,
    BVec2,
    IVec2,
    UVec2,
    FVec2,
    DVec2,
    BVec3,
    IVec3,
    UVec3,
    FVec3,
    DVec3,
    BVec4,
    IVec4,
    UVec4,
    FVec4,
    DVec4,
    BMat2,
    IMat2,
    UMat2,
    FMat2,
    DMat2,
    BMat3,
    IMat3,
    UMat3,
    FMat3,
    DMat3,
    BMat4,
    IMat4,
    UMat4,
    FMat4,
    DMat4,
}

impl View for AttribType {
    type V = AttribType;

    open spec fn view(&self) -> AttribType {
        *self
    }
}

impl AttribType {
    /// The type code `0xRCSN`.
    pub open spec fn spec_code(self) -> u32 {
        match self {
            AttribType::Byte => 0x1110,
            AttribType::UByte => 0x1111,
            AttribType::Short => 0x1122,
            AttribType::UShort => 0x1123,
            AttribType::Int => 0x1144,
            AttribType::UInt => 0x1145,
            AttribType::HFloat => 0x1126,
            AttribType::Float => 0x1147,
            AttribType::Double => 0x1188,
            AttribType::Fixed => 0x1149,
            AttribType::BVec2 => 0x1210,
            AttribType::IVec2 => 0x1244,
            AttribType::UVec2 => 0x1245,
            AttribType::FVec2 => 0x1247,
            AttribType::DVec2 => 0x1288,
            AttribType::BVec3 => 0x1310,
            AttribType::IVec3 => 0x1344,
            AttribType::UVec3 => 0x1345,
            AttribType::FVec3 => 0x1347,
            AttribType::DVec3 => 0x1388,
            AttribType::BVec4 => 0x1410,
            AttribType::IVec4 => 0x1444,
            AttribType::UVec4 => 0x1445,
            AttribType::FVec4 => 0x1447,
            AttribType::DVec4 => 0x1488,
            AttribType::BMat2 => 0x2210,
            AttribType::IMat2 => 0x2244,
            AttribType::UMat2 => 0x2245,
            AttribType::FMat2 => 0x2247,
            AttribType::DMat2 => 0x2288,
            AttribType::BMat3 => 0x3310,
            AttribType::IMat3 => 0x3344,
            AttribType::UMat3 => 0x3345,
            AttribType::FMat3 => 0x3347,
            AttribType::DMat3 => 0x3388,
            AttribType::BMat4 => 0x4410,
            AttribType::IMat4 => 0x4444,
            AttribType::UMat4 => 0x4445,
            AttribType::FMat4 => 0x4447,
            AttribType::DMat4 => 0x4488,
        }
    }

    pub fn code(self) -> (c: u32)
        ensures
            c == self.spec_code(),
    {
        match self {
            Self::Byte => 0x1110,
            Self::UByte => 0x1111,
            Self::Short => 0x1122,
            Self::UShort => 0x1123,
            Self::Int => 0x1144,
            Self::UInt => 0x1145,
            Self::HFloat => 0x1126,
            Self::Float => 0x1147,
            Self::Double => 0x1188,
            Self::Fixed => 0x1149,
            Self::BVec2 => 0x1210,
            Self::IVec2 => 0x1244,
            Self::UVec2 => 0x1245,
            Self::FVec2 => 0x1247,
            Self::DVec2 => 0x1288,
            Self::BVec3 => 0x1310,
            Self::IVec3 => 0x1344,
            Self::UVec3 => 0x1345,
            Self::FVec3 => 0x1347,
            Self::DVec3 => 0x1388,
            Self::BVec4 => 0x1410,
            Self::IVec4 => 0x1444,
            Self::UVec4 => 0x1445,
            Self::FVec4 => 0x1447,
            Self::DVec4 => 0x1488,
            Self::BMat2 => 0x2210,
            Self::IMat2 => 0x2244,
            Self::UMat2 => 0x2245,
            Self::FMat2 => 0x2247,
            Self::DMat2 => 0x2288,
            Self::BMat3 => 0x3310,
            Self::IMat3 => 0x3344,
            Self::UMat3 => 0x3345,
            Self::FMat3 => 0x3347,
            Self::DMat3 => 0x3388,
            Self::BMat4 => 0x4410,
            Self::IMat4 => 0x4444,
            Self::UMat4 => 0x4445,
            Self::FMat4 => 0x4447,
            Self::DMat4 => 0x4488,
        }
    }

    /// The numeric type of one cell: the low nibble of the code.
    pub open spec fn spec_num_type(self) -> AttribNumType {
        AttribNumType::from_index((self.spec_code() % 16) as nat)
    }

    pub open spec fn spec_cells_count(self) -> nat {
        code_rows(self.spec_code()) * code_columns(self.spec_code())
    }

    pub open spec fn spec_byte_size(self) -> nat {
        code_cell_size(self.spec_code()) * self.spec_cells_count()
    }

    pub open spec fn spec_is_int(self) -> bool {
        !(self.spec_num_type() is HALF_FLOAT || self.spec_num_type() is FLOAT
            || self.spec_num_type() is DOUBLE || self.spec_num_type() is FIXED)
    }

    pub open spec fn spec_is_float(self) -> bool {
        self.spec_num_type() is HALF_FLOAT || self.spec_num_type() is FLOAT
            || self.spec_num_type() is DOUBLE
    }

    pub open spec fn spec_glsl_name(self) -> Seq<char> {
        numeric_glsl_name(
            code_rows(self.spec_code()),
            code_columns(self.spec_code()),
            self.spec_num_type(),
        )
    }

    /// Every attribute type has one to four rows and columns.
    pub proof fn lemma_shape_bounds(self)
        ensures
            1 <= code_rows(self.spec_code()) <= 4,
            1 <= code_columns(self.spec_code()) <= 4,
            1 <= self.spec_cells_count() <= 16,
    {
        let r = code_rows(self.spec_code());
        let c = code_columns(self.spec_code());
        assert(1 <= r <= 4 && 1 <= c <= 4);
        assert(1 <= r * c <= 16) by (nonlinear_arith)
            requires 1 <= r <= 4, 1 <= c <= 4;
    }

    pub fn get_gl_const(self) -> (n: AttribNumType)
        ensures
            n == self.spec_num_type(),
    {
        let c = self.code();
        proof {
            assert(((c % 16) as i32) as u32 == c % 16);
        }
        AttribNumType::from_i32((c % 16) as i32)
    }

    pub fn get_byte_size(self) -> (s: usize)
        ensures
            s == self.spec_byte_size(),
    {
        let code = self.code();
        let s = ((code / 0x10) % 16) as usize;
        let cells = self.get_cells_count();
        proof {
            assert(s <= 15 && cells <= 225) by (nonlinear_arith)
                requires
                    s == (code / 0x10) % 16,
                    cells == code_rows(code) * code_columns(code),
                    code_rows(code) < 16,
                    code_columns(code) < 16,
            ;
            assert(s * cells <= 15 * 225) by (nonlinear_arith)
                requires s <= 15, cells <= 225;
        }
        s * cells
    }

    pub fn get_cells_count(self) -> (c: usize)
        ensures
            c == self.spec_cells_count(),
    {
        let code = self.code();
        let n = ((code / 0x1000) % 16) as usize;
        let m = ((code / 0x100) % 16) as usize;
        proof {
            assert(m * n <= 15 * 15) by (nonlinear_arith)
                requires m < 16, n < 16;
            assert(m * n == n * m) by (nonlinear_arith);
        }
        m * n
    }

    pub fn is_int(self) -> (b: bool)
        ensures
            b == self.spec_is_int(),
    {
        let num_type = self.get_gl_const();
        match num_type {
            AttribNumType::HALF_FLOAT
            | AttribNumType::FLOAT
            | AttribNumType::DOUBLE
            | AttribNumType::FIXED => false,
            _ => true,
        }
    }

    pub fn is_float(self) -> (b: bool)
        ensures
            b == self.spec_is_float(),
    {
        let num_type = self.get_gl_const();
        match num_type {
            AttribNumType::HALF_FLOAT | AttribNumType::FLOAT | AttribNumType::DOUBLE => true,
            _ => false,
        }
    }

    pub fn get_glsl_name(self) -> (s: String)
        ensures
            s@ == self.spec_glsl_name(),
    {
        let code = self.code();
        let rows = (code / 0x1000) % 16;
        let columns = (code / 0x100) % 16;
        let gl_type_code = self.get_gl_const();
        numeric_glsl_name_exec(rows, columns, gl_type_code)
    }

    /// Same text as the GLSL name (what the type prints as).
    pub fn to_string(&self) -> (s: String)
        ensures
            s@ == self.spec_glsl_name(),
    {
        self.get_glsl_name()
    }
}

} // verus!
