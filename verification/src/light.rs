//! Light sources as they are handed to shaders: the std140 uniform blocks and
//! their GLSL declarations. Floating-point components are held as the bit
//! patterns of their `f32` values, exactly as they are uploaded.
use vstd::prelude::*;
use crate::shader::{glsl_struct_source, struct_source, ShaderStructUniform};
use crate::bits::{Mat4Bits, Vec4Bits};

verus! {

/// Numbers of lights of each kind in a frame.
#[derive(Clone, Copy, Debug, PartialEq, Eq, Structural)]
pub struct LightsUniformData {
    pub spotlights: i32,
    pub point_lights: i32,
    pub sun_lights: i32,
}

impl LightsUniformData {
    pub fn new(spotlights: i32, point_lights: i32, sun_lights: i32) -> (r: Self)
        ensures
            r == (LightsUniformData { spotlights, point_lights, sun_lights }),
    {
        Self { spotlights, point_lights, sun_lights }
    }
}

impl Default for LightsUniformData {
    fn default() -> (r: Self)
        ensures
            r == (LightsUniformData { spotlights: 0, point_lights: 0, sun_lights: 0 }),
    {
        Self { spotlights: 0, point_lights: 0, sun_lights: 0 }
    }
}

impl ShaderStructUniform for LightsUniformData {
    open spec fn spec_structure() -> Seq<char> {
        struct_source(seq![("int", "spotlights"), ("int", "point_lights"), ("int", "sun_lights")])
    }

    open spec fn spec_glsl_type_name() -> Seq<char> {
        "LightsCount"@
    }

    fn structure() -> (s: String) {
        let fields = vec![("int", "spotlights"), ("int", "point_lights"), ("int", "sun_lights")];
        let s = glsl_struct_source(&fields);
        assert(fields@ =~= seq![("int", "spotlights"), ("int", "point_lights"), ("int", "sun_lights")]);
        s
    }

    fn glsl_type_name() -> (s: String) {
        "LightsCount".to_owned()
    }
}

/// Shadow behaviour of a light; the number is the side of the square shadow buffer.
#[derive(Copy, Clone, Debug, PartialEq, Eq, Structural)]
pub enum ShadowMapMode {
    /// No shadows.
    Disabled,
    /// Static shadows only.
    Static(u16),
    /// A static buffer for static geometry and a separate one for dynamic geometry.
    SemiDynamic(u16),
    /// Dynamic shadows without a static buffer.
    FullyDynamic(u16),
}

/// Parameters shared by every light, in std140 layout.
#[derive(Clone, Copy, Debug, PartialEq, Eq, Structural)]
pub struct GenericLightUniform {
    pub projection_inv: Mat4Bits,
    pub color: Vec4Bits,
    pub location: Vec4Bits,
    pub power: u32,
    pub z_near: u32,
    pub distance: u32,
    pub shadowmap_index: i32,
}

impl GenericLightUniform {
    pub open spec fn spec_default() -> GenericLightUniform {
        GenericLightUniform {
            projection_inv: Mat4Bits::spec_zero(),
            color: Vec4Bits::spec_zero(),
            location: Vec4Bits::spec_zero(),
            power: 0,
            z_near: 0,
            distance: 0,
            shadowmap_index: 0,
        }
    }

    pub fn set_shadow_map_index(&mut self, shadowmap_index: i32)
        ensures
            *final(self) == (GenericLightUniform { shadowmap_index, ..*old(self) }),
    {
        self.shadowmap_index = shadowmap_index;
    }
}

impl Default for GenericLightUniform {
    fn default() -> (r: Self)
        ensures
            r == GenericLightUniform::spec_default(),
    {
        GenericLightUniform {
            projection_inv: Mat4Bits::zero(),
            color: Vec4Bits::zero(),
            location: Vec4Bits::zero(),
            power: 0,
            z_near: 0,
            distance: 0,
            shadowmap_index: 0,
        }
    }
}

impl ShaderStructUniform for GenericLightUniform {
    open spec fn spec_structure() -> Seq<char> {
        struct_source(seq![
            ("mat4", "projection_inv"),
            ("vec4", "color"),
            ("vec4", "location"),
            ("float", "power"),
            ("float", "z_near"),
            ("float", "distance"),
            ("int", "shadowmap_index"),
        ])
    }

    open spec fn spec_glsl_type_name() -> Seq<char> {
        "GenericLightUniform"@
    }

    fn structure() -> (s: String) {
        let fields = vec![
            ("mat4", "projection_inv"),
            ("vec4", "color"),
            ("vec4", "location"),
            ("float", "power"),
            ("float", "z_near"),
            ("float", "distance"),
            ("int", "shadowmap_index"),
        ];
        let s = glsl_struct_source(&fields);
        assert(fields@ =~= seq![
            ("mat4", "projection_inv"),
            ("vec4", "color"),
            ("vec4", "location"),
            ("float", "power"),
            ("float", "z_near"),
            ("float", "distance"),
            ("int", "shadowmap_index"),
        ]);
        s
    }

    fn glsl_type_name() -> (s: String) {
        "GenericLightUniform".to_owned()
    }
}

/// A spotlight: the shared part, its direction and its cone angles.
#[derive(Clone, Copy, Debug, PartialEq, Eq, Structural)]
pub struct SpotlightUniform {
    pub base: GenericLightUniform,
    pub direction: Vec4Bits,
    pub inner_angle: u32,
    pub outer_angle: u32,
    pub reserved1: u32,
    pub reserved2: u32,
}

impl SpotlightUniform {
    pub open spec fn spec_default() -> SpotlightUniform {
        SpotlightUniform {
            base: GenericLightUniform::spec_default(),
            direction: Vec4Bits::spec_zero(),
            inner_angle: 0,
            outer_angle: 0,
            reserved1: 0,
            reserved2: 0,
        }
    }

    pub fn base_mut(&mut self) -> (r: &mut GenericLightUniform)
        ensures
            *r == old(self).base,
            *final(self) == (SpotlightUniform { base: *final(r), ..*old(self) }),
    {
        &mut self.base
    }
}

impl ShaderStructUniform for SpotlightUniform {
    open spec fn spec_structure() -> Seq<char> {
        struct_source(seq![
            ("GenericLightUniform", "base"),
            ("vec4", "direction"),
            ("float", "inner_angle"),
            ("float", "outer_angle"),
            ("float", "reserved1"),
            ("float", "reserved2"),
        ])
    }

    open spec fn spec_glsl_type_name() -> Seq<char> {
        "SpotlightUniform"@
    }

    fn structure() -> (s: String) {
        let fields = vec![
            ("GenericLightUniform", "base"),
            ("vec4", "direction"),
            ("float", "inner_angle"),
            ("float", "outer_angle"),
            ("float", "reserved1"),
            ("float", "reserved2"),
        ];
        let s = glsl_struct_source(&fields);
        assert(fields@ =~= seq![
            ("GenericLightUniform", "base"),
            ("vec4", "direction"),
            ("float", "inner_angle"),
            ("float", "outer_angle"),
            ("float", "reserved1"),
            ("float", "reserved2"),
        ]);
        s
    }

    fn glsl_type_name() -> (s: String) {
        "SpotlightUniform".to_owned()
    }
}

/// A sun: the shared part, its direction and the size of its light flux.
#[derive(Clone, Copy, Debug, PartialEq, Eq, Structural)]
pub struct SunLightUniform {
    pub base: GenericLightUniform,
    pub direction: Vec4Bits,
    pub size: u32,
    pub reserved1: u32,
    pub reserved2: u32,
    pub reserved3: u32,
}

impl SunLightUniform {
    pub open spec fn spec_default() -> SunLightUniform {
        SunLightUniform {
            base: GenericLightUniform::spec_default(),
            direction: Vec4Bits::spec_zero(),
            size: 0,
            reserved1: 0,
            reserved2: 0,
            reserved3: 0,
        }
    }

    pub fn base_mut(&mut self) -> (r: &mut GenericLightUniform)
        ensures
            *r == old(self).base,
            *final(self) == (SunLightUniform { base: *final(r), ..*old(self) }),
    {
        &mut self.base
    }
}

impl ShaderStructUniform for SunLightUniform {
    open spec fn spec_structure() -> Seq<char> {
        struct_source(seq![
            ("GenericLightUniform", "base"),
            ("vec4", "direction"),
            ("float", "size"),
            ("float", "reserved1"),
            ("float", "reserved2"),
            ("float", "reserved3"),
        ])
    }

    open spec fn spec_glsl_type_name() -> Seq<char> {
        "SunLightUniform"@
    }

    fn structure() -> (s: String) {
        let fields = vec![
            ("GenericLightUniform", "base"),
            ("vec4", "direction"),
            ("float", "size"),
            ("float", "reserved1"),
            ("float", "reserved2"),
            ("float", "reserved3"),
        ];
        let s = glsl_struct_source(&fields);
        assert(fields@ =~= seq![
            ("GenericLightUniform", "base"),
            ("vec4", "direction"),
            ("float", "size"),
            ("float", "reserved1"),
            ("float", "reserved2"),
            ("float", "reserved3"),
        ]);
        s
    }

    fn glsl_type_name() -> (s: String) {
        "SunLightUniform".to_owned()
    }
}

/// A point light: the shared part only.
#[derive(Clone, Copy, Debug, PartialEq, Eq, Structural)]
pub struct PointLightUniform {
    pub base: GenericLightUniform,
}

impl PointLightUniform {
    pub open spec fn spec_default() -> PointLightUniform {
        PointLightUniform { base: GenericLightUniform::spec_default() }
    }

    pub fn base_mut(&mut self) -> (r: &mut GenericLightUniform)
        ensures
            *r == old(self).base,
            *final(self) == (PointLightUniform { base: *final(r) }),
    {
        &mut self.base
    }
}

impl ShaderStructUniform for PointLightUniform {
    open spec fn spec_structure() -> Seq<char> {
        struct_source(seq![("GenericLightUniform", "base")])
    }

    open spec fn spec_glsl_type_name() -> Seq<char> {
        "PointLightUniform"@
    }

    fn structure() -> (s: String) {
        let fields = vec![("GenericLightUniform", "base")];
        let s = glsl_struct_source(&fields);
        assert(fields@ =~= seq![("GenericLightUniform", "base")]);
        s
    }

    fn glsl_type_name() -> (s: String) {
        "PointLightUniform".to_owned()
    }
}

#[derive(Clone, Copy, Debug, PartialEq, Eq, Structural)]
pub enum LightType {
    Spot,
    Sun,
    Point,
}

/// The uniform block of a light of any kind.
#[derive(Clone, Copy, Debug, PartialEq, Eq, Structural)]
pub enum LightShaderStruct {
    Spot(SpotlightUniform),
    Sun(SunLightUniform),
    Point(PointLightUniform),
}

impl LightShaderStruct {
    pub open spec fn spec_base(self) -> GenericLightUniform {
        match self {
            LightShaderStruct::Spot(li) => li.base,
            LightShaderStruct::Sun(li) => li.base,
            LightShaderStruct::Point(li) => li.base,
        }
    }

    /// The same light with its shared part replaced by `base`.
    pub open spec fn with_base(self, base: GenericLightUniform) -> LightShaderStruct {
        match self {
            LightShaderStruct::Spot(li) => LightShaderStruct::Spot(SpotlightUniform { base, ..li }),
            LightShaderStruct::Sun(li) => LightShaderStruct::Sun(SunLightUniform { base, ..li }),
            LightShaderStruct::Point(li) => LightShaderStruct::Point(PointLightUniform { base }),
        }
    }

    pub open spec fn spec_ty(self) -> LightType {
        match self {
            LightShaderStruct::Spot(_) => LightType::Spot,
            LightShaderStruct::Sun(_) => LightType::Sun,
            LightShaderStruct::Point(_) => LightType::Point,
        }
    }

    pub fn base(&self) -> (b: GenericLightUniform)
        ensures
            b == self.spec_base(),
    {
        match self {
            Self::Spot(li) => li.base,
            Self::Sun(li) => li.base,
            Self::Point(li) => li.base,
        }
    }

    pub fn base_mut(&mut self) -> (r: &mut GenericLightUniform)
        ensures
            *r == old(self).spec_base(),
            *final(self) == old(self).with_base(*final(r)),
    {
        match self {
            Self::Spot(li) => li.base_mut(),
            Self::Sun(li) => li.base_mut(),
            Self::Point(li) => li.base_mut(),
        }
    }

    pub fn ty(&self) -> (t: LightType)
        ensures
            t == self.spec_ty(),
    {
        match self {
            LightShaderStruct::Spot(_) => LightType::Spot,
            LightShaderStruct::Sun(_) => LightType::Sun,
            LightShaderStruct::Point(_) => LightType::Point,
        }
    }
}

impl LightType {
    /// The kind of a light as scene files store it: 0 point, 1 sun, 2 spot.
    pub fn from_code(code: u32) -> (t: LightType)
        requires
            code <= 2,
        ensures
            t == (if code == 0 {
                LightType::Point
            } else if code == 1 {
                LightType::Sun
            } else {
                LightType::Spot
            }),
    {
        if code == 0 {
            LightType::Point
        } else if code == 1 {
            LightType::Sun
        } else {
            LightType::Spot
        }
    }
}

impl ShadowMapMode {
    /// The shadow mode as scene files store it: 0 none, 1 static, 2 fully
    /// dynamic, 3 semi-dynamic, with shadow buffers of side `size`.
    pub fn from_code(code: u32, size: u16) -> (m: ShadowMapMode)
        requires
            code <= 3,
        ensures
            m == (if code == 0 {
                ShadowMapMode::Disabled
            } else if code == 1 {
                ShadowMapMode::Static(size)
            } else if code == 2 {
                ShadowMapMode::FullyDynamic(size)
            } else {
                ShadowMapMode::SemiDynamic(size)
            }),
    {
        if code == 0 {
            ShadowMapMode::Disabled
        } else if code == 1 {
            ShadowMapMode::Static(size)
        } else if code == 2 {
            ShadowMapMode::FullyDynamic(size)
        } else {
            ShadowMapMode::SemiDynamic(size)
        }
    }
}

/// The layers of a shadow map array that are free, and the layers it has.
pub struct ShadowLayersView {
    pub free_layers: Seq<u32>,
    pub layers: u32,
    pub cube: bool,
}

/// Hands out the layers of a shadow map array, one light each; a cube array
/// gives each light six consecutive layers.
pub struct DynamicShadowMapManager {
    free_layers: Vec<u32>,
    array_layers: u32,
    cube: bool,
}

impl View for DynamicShadowMapManager {
    type V = ShadowLayersView;

    closed spec fn view(&self) -> ShadowLayersView {
        ShadowLayersView { free_layers: self.free_layers@, layers: self.array_layers, cube: self.cube }
    }
}

/// Layers `0..n` in ascending order.
pub open spec fn layer_range(n: u32) -> Seq<u32> {
    Seq::new(n as nat, |i: int| i as u32)
}

impl DynamicShadowMapManager {
    /// The free layers are distinct layers of the array, and a cube array's
    /// layers fit six to a light.
    pub open spec fn wf(&self) -> bool {
        &&& forall|i: int| 0 <= i < self@.free_layers.len() ==> #[trigger] self@.free_layers[i] < self@.layers
        &&& forall|i: int, j: int| 0 <= i < j < self@.free_layers.len() ==> self@.free_layers[i] != self@.free_layers[j]
        &&& self@.cube ==> self@.layers * 6 <= u32::MAX
    }

    fn all_layers(n: u32) -> (r: Vec<u32>)
        ensures
            r@ == layer_range(n),
    {
        let mut r: Vec<u32> = Vec::new();
        let mut i: u32 = 0;
        while i < n
            invariant
                i <= n,
                r@ == Seq::new(i as nat, |k: int| k as u32),
            decreases n - i,
        {
            r.push(i);
            assert(r@ =~= Seq::new(i as nat + 1, |k: int| k as u32));
            i = i + 1;
        }
        r
    }

    /// An array of `array_layers` lights (times six layers for a cube array),
    /// all free.
    pub fn new(array_layers: u32, cube: bool) -> (m: Self)
        requires
            cube ==> array_layers * 6 <= u32::MAX,
        ensures
            m.wf(),
            m@ == (ShadowLayersView { free_layers: layer_range(array_layers), layers: array_layers, cube }),
    {
        DynamicShadowMapManager { free_layers: Self::all_layers(array_layers), array_layers, cube }
    }

    /// The number of lights the array serves.
    pub fn layers(&self) -> (n: u32)
        ensures
            n == self@.layers,
    {
        self.array_layers
    }

    /// Takes the last free layer: its number, the first array layer it covers
    /// and the number of array layers it covers. Nothing when none is free.
    pub fn get(&mut self) -> (r: Option<(u32, u32, u32)>)
        requires
            old(self).wf(),
        ensures
            final(self).wf(),
            old(self)@.free_layers.len() == 0 ==> r is None && final(self)@ == old(self)@,
            old(self)@.free_layers.len() > 0 ==> r == Some((
                old(self)@.free_layers.last(),
                if old(self)@.cube { (old(self)@.free_layers.last() * 6) as u32 } else { old(self)@.free_layers.last() },
                if old(self)@.cube { 6u32 } else { 1u32 },
            )) && final(self)@ == (ShadowLayersView { free_layers: old(self)@.free_layers.drop_last(), ..old(self)@ }),
            r matches Some((num, _, _)) ==> num < final(self)@.layers && !final(self)@.free_layers.contains(num),
    {
        let ghost before = self@;
        match self.free_layers.pop() {
            None => None,
            Some(num) => {
                proof {
                    assert(self@.free_layers =~= before.free_layers.drop_last());
                    assert(num == before.free_layers[before.free_layers.len() - 1]);
                    if self@.free_layers.contains(num) {
                        let k = choose|k: int| 0 <= k < self@.free_layers.len() && self@.free_layers[k] == num;
                        assert(before.free_layers[k] == before.free_layers[before.free_layers.len() - 1]);
                    }
                }
                if self.cube {
                    assert(num * 6 <= u32::MAX) by (nonlinear_arith)
                        requires num < before.layers, before.layers * 6 <= u32::MAX;
                    Some((num, num * 6, 6))
                } else {
                    Some((num, num, 1))
                }
            },
        }
    }

    /// Makes every layer free again.
    pub fn free_all(&mut self)
        requires
            old(self).wf(),
        ensures
            final(self).wf(),
            final(self)@ == (ShadowLayersView { free_layers: layer_range(old(self)@.layers), ..old(self)@ }),
    {
        self.free_layers = Self::all_layers(self.array_layers);
    }
}

impl Default for SpotlightUniform {
    fn default() -> (r: Self)
        ensures
            r == SpotlightUniform::spec_default(),
    {
        SpotlightUniform {
            base: GenericLightUniform::default(),
            direction: Vec4Bits::zero(),
            inner_angle: 0,
            outer_angle: 0,
            reserved1: 0,
            reserved2: 0,
        }
    }
}

impl Default for SunLightUniform {
    fn default() -> (r: Self)
        ensures
            r == SunLightUniform::spec_default(),
    {
        SunLightUniform {
            base: GenericLightUniform::default(),
            direction: Vec4Bits::zero(),
            size: 0,
            reserved1: 0,
            reserved2: 0,
            reserved3: 0,
        }
    }
}

impl Default for PointLightUniform {
    fn default() -> (r: Self)
        ensures
            r == PointLightUniform::spec_default(),
    {
        PointLightUniform { base: GenericLightUniform::default() }
    }
}

/// The most spotlights, point lights and suns that shaders take.
pub const MAX_SPOTLIGHTS: u32 = 8;

pub const MAX_POINT_LIGHTS: u32 = 4;

pub const MAX_SUN_LIGHTS: u32 = 2;

/// The spotlights among the lights, in order.
pub open spec fn spot_lights(l: Seq<LightShaderStruct>) -> Seq<SpotlightUniform>
    decreases l.len(),
{
    if l.len() == 0 {
        Seq::empty()
    } else {
        let rest = spot_lights(l.drop_last());
        match l.last() {
            LightShaderStruct::Spot(li) => rest.push(li),
            _ => rest,
        }
    }
}

/// The point lights among the lights, in order.
pub open spec fn point_lights(l: Seq<LightShaderStruct>) -> Seq<PointLightUniform>
    decreases l.len(),
{
    if l.len() == 0 {
        Seq::empty()
    } else {
        let rest = point_lights(l.drop_last());
        match l.last() {
            LightShaderStruct::Point(li) => rest.push(li),
            _ => rest,
        }
    }
}

/// The suns among the lights, in order.
pub open spec fn sun_lights(l: Seq<LightShaderStruct>) -> Seq<SunLightUniform>
    decreases l.len(),
{
    if l.len() == 0 {
        Seq::empty()
    } else {
        let rest = sun_lights(l.drop_last());
        match l.last() {
            LightShaderStruct::Sun(li) => rest.push(li),
            _ => rest,
        }
    }
}

/// How many blank entries follow the lights of one kind: as many as `max`
/// exceeds the number of lights of all kinds.
pub open spec fn padding(total: nat, max: u32) -> nat {
    if total < max {
        (max - total) as nat
    } else {
        0
    }
}

/// Picking the lights of one kind works light by light: a list made of two
/// parts gives the picks of the first part followed by those of the second; a
/// single light is picked by its own kind only; and every light is picked by
/// exactly one kind.
pub proof fn lemma_light_kinds(a: Seq<LightShaderStruct>, b: Seq<LightShaderStruct>)
    ensures
        spot_lights(a + b) == spot_lights(a) + spot_lights(b),
        point_lights(a + b) == point_lights(a) + point_lights(b),
        sun_lights(a + b) == sun_lights(a) + sun_lights(b),
        spot_lights(a).len() + point_lights(a).len() + sun_lights(a).len() == a.len(),
    decreases b.len(),
{
    if b.len() == 0 {
        assert(a + b =~= a);
        assert(spot_lights(a) + spot_lights(b) =~= spot_lights(a));
        assert(point_lights(a) + point_lights(b) =~= point_lights(a));
        assert(sun_lights(a) + sun_lights(b) =~= sun_lights(a));
        lemma_light_kinds_len(a);
    } else {
        let b0 = b.drop_last();
        lemma_light_kinds(a, b0);
        assert((a + b).drop_last() =~= a + b0);
        assert((a + b).last() == b.last());
        match b.last() {
            LightShaderStruct::Spot(li) => {
                assert(spot_lights(a) + spot_lights(b0).push(li) =~= (spot_lights(a) + spot_lights(b0)).push(li));
            },
            LightShaderStruct::Point(li) => {
                assert(point_lights(a) + point_lights(b0).push(li) =~= (point_lights(a) + point_lights(b0)).push(li));
            },
            LightShaderStruct::Sun(li) => {
                assert(sun_lights(a) + sun_lights(b0).push(li) =~= (sun_lights(a) + sun_lights(b0)).push(li));
            },
        }
        lemma_light_kinds_len(a);
    }
}

proof fn lemma_light_kinds_len(a: Seq<LightShaderStruct>)
    ensures
        spot_lights(a).len() + point_lights(a).len() + sun_lights(a).len() == a.len(),
    decreases a.len(),
{
    if a.len() > 0 {
        lemma_light_kinds_len(a.drop_last());
    }
}

/// A single light is picked by its own kind alone.
pub proof fn lemma_single_light(l: LightShaderStruct)
    ensures
        spot_lights(seq![l]) == (match l {
            LightShaderStruct::Spot(x) => seq![x],
            _ => Seq::<SpotlightUniform>::empty(),
        }),
        point_lights(seq![l]) == (match l {
            LightShaderStruct::Point(x) => seq![x],
            _ => Seq::<PointLightUniform>::empty(),
        }),
        sun_lights(seq![l]) == (match l {
            LightShaderStruct::Sun(x) => seq![x],
            _ => Seq::<SunLightUniform>::empty(),
        }),
{
    let e = Seq::<LightShaderStruct>::empty();
    assert(seq![l].drop_last() =~= e);
    assert(seq![l].last() == l);
    assert(spot_lights(e) == Seq::<SpotlightUniform>::empty());
    assert(point_lights(e) == Seq::<PointLightUniform>::empty());
    assert(sun_lights(e) == Seq::<SunLightUniform>::empty());
    match l {
        LightShaderStruct::Spot(x) => {
            assert(Seq::<SpotlightUniform>::empty().push(x) =~= seq![x]);
        },
        LightShaderStruct::Point(x) => {
            assert(Seq::<PointLightUniform>::empty().push(x) =~= seq![x]);
        },
        LightShaderStruct::Sun(x) => {
            assert(Seq::<SunLightUniform>::empty().push(x) =~= seq![x]);
        },
    }
}

/// The blank entries fill an array up to its maximum, and none are added once
/// the lights reach it.
pub proof fn lemma_padding(total: nat, max: u32)
    ensures
        total < max ==> total + padding(total, max) == max,
        total >= max ==> padding(total, max) == 0,
{
}

/// The arrays of spotlights, point lights and suns that shaders take: the lights
/// of each kind in order, followed by blank entries, as many as the maximum of
/// that kind exceeds the number of lights of all kinds.
pub fn light_uniform_arrays(lights: &Vec<LightShaderStruct>) -> (r: (
    Vec<SpotlightUniform>,
    Vec<PointLightUniform>,
    Vec<SunLightUniform>,
))
    ensures
        r.0@ == spot_lights(lights@) + Seq::new(padding(lights@.len(), MAX_SPOTLIGHTS), |i: int| SpotlightUniform::spec_default()),
        r.1@ == point_lights(lights@) + Seq::new(padding(lights@.len(), MAX_POINT_LIGHTS), |i: int| PointLightUniform::spec_default()),
        r.2@ == sun_lights(lights@) + Seq::new(padding(lights@.len(), MAX_SUN_LIGHTS), |i: int| SunLightUniform::spec_default()),
{
    let mut spots: Vec<SpotlightUniform> = Vec::new();
    let mut points: Vec<PointLightUniform> = Vec::new();
    let mut suns: Vec<SunLightUniform> = Vec::new();
    let mut i: usize = 0;
    while i < lights.len()
        invariant
            i <= lights@.len(),
            spots@ == spot_lights(lights@.subrange(0, i as int)),
            points@ == point_lights(lights@.subrange(0, i as int)),
            suns@ == sun_lights(lights@.subrange(0, i as int)),
        decreases lights@.len() - i,
    {
        proof {
            let p = lights@.subrange(0, i as int + 1);
            assert(p.drop_last() =~= lights@.subrange(0, i as int));
            assert(p.last() == lights@[i as int]);
        }
        match lights[i] {
            LightShaderStruct::Spot(li) => spots.push(li),
            LightShaderStruct::Point(li) => points.push(li),
            LightShaderStruct::Sun(li) => suns.push(li),
        }
        i = i + 1;
    }
    assert(lights@.subrange(0, lights@.len() as int) =~= lights@);
    let total = lights.len();
    let ghost s0 = spots@;
    let mut k = total;
    while k < MAX_SPOTLIGHTS as usize
        invariant
            total == lights@.len(),
            total <= k,
            total < MAX_SPOTLIGHTS ==> k <= MAX_SPOTLIGHTS,
            total >= MAX_SPOTLIGHTS ==> k == total,
            spots@ == s0 + Seq::new((k - total) as nat, |i: int| SpotlightUniform::spec_default()),
        decreases MAX_SPOTLIGHTS as usize - k,
    {
        spots.push(SpotlightUniform::default());
        assert(spots@ =~= s0 + Seq::new((k + 1 - total) as nat, |i: int| SpotlightUniform::spec_default()));
        k = k + 1;
    }
    assert(spots@ =~= s0 + Seq::new(padding(lights@.len(), MAX_SPOTLIGHTS), |i: int| SpotlightUniform::spec_default()));
    let ghost p0 = points@;
    let mut k = total;
    while k < MAX_POINT_LIGHTS as usize
        invariant
            total == lights@.len(),
            total <= k,
            total < MAX_POINT_LIGHTS ==> k <= MAX_POINT_LIGHTS,
            total >= MAX_POINT_LIGHTS ==> k == total,
            points@ == p0 + Seq::new((k - total) as nat, |i: int| PointLightUniform::spec_default()),
        decreases MAX_POINT_LIGHTS as usize - k,
    {
        points.push(PointLightUniform::default());
        assert(points@ =~= p0 + Seq::new((k + 1 - total) as nat, |i: int| PointLightUniform::spec_default()));
        k = k + 1;
    }
    assert(points@ =~= p0 + Seq::new(padding(lights@.len(), MAX_POINT_LIGHTS), |i: int| PointLightUniform::spec_default()));
    let ghost u0 = suns@;
    let mut k = total;
    while k < MAX_SUN_LIGHTS as usize
        invariant
            total == lights@.len(),
            total <= k,
            total < MAX_SUN_LIGHTS ==> k <= MAX_SUN_LIGHTS,
            total >= MAX_SUN_LIGHTS ==> k == total,
            suns@ == u0 + Seq::new((k - total) as nat, |i: int| SunLightUniform::spec_default()),
        decreases MAX_SUN_LIGHTS as usize - k,
    {
        suns.push(SunLightUniform::default());
        assert(suns@ =~= u0 + Seq::new((k + 1 - total) as nat, |i: int| SunLightUniform::spec_default()));
        k = k + 1;
    }
    assert(suns@ =~= u0 + Seq::new(padding(lights@.len(), MAX_SUN_LIGHTS), |i: int| SunLightUniform::spec_default()));
    (spots, points, suns)
}

/// The numbers of spotlights, point lights and suns among the lights, each
/// taken as `i32`.
pub fn lights_count(lights: &Vec<LightShaderStruct>) -> (r: LightsUniformData)
    ensures
        r == (LightsUniformData {
            spotlights: spot_lights(lights@).len() as i32,
            point_lights: point_lights(lights@).len() as i32,
            sun_lights: sun_lights(lights@).len() as i32,
        }),
{
    let mut spots: usize = 0;
    let mut points: usize = 0;
    let mut suns: usize = 0;
    let mut i: usize = 0;
    while i < lights.len()
        invariant
            i <= lights@.len(),
            spots == spot_lights(lights@.subrange(0, i as int)).len(),
            points == point_lights(lights@.subrange(0, i as int)).len(),
            suns == sun_lights(lights@.subrange(0, i as int)).len(),
            spots + points + suns == i,
        decreases lights@.len() - i,
    {
        proof {
            let p = lights@.subrange(0, i as int + 1);
            assert(p.drop_last() =~= lights@.subrange(0, i as int));
            assert(p.last() == lights@[i as int]);
        }
        match lights[i] {
            LightShaderStruct::Spot(_) => spots = spots + 1,
            LightShaderStruct::Point(_) => points = points + 1,
            LightShaderStruct::Sun(_) => suns = suns + 1,
        }
        i = i + 1;
    }
    assert(lights@.subrange(0, lights@.len() as int) =~= lights@);
    LightsUniformData::new(spots as i32, points as i32, suns as i32)
}

/// How the per-frame shadow map of a light starts.
#[derive(Clone, Copy, Debug, PartialEq, Eq, Structural)]
pub enum ShadowMapStart {
    /// Cleared to the far depth.
    Clear,
    /// A copy of the light's static shadow map.
    CopyStatic,
}

/// How the per-frame shadow map of a light is made: how it starts, and whether
/// the dynamic objects and then the static objects are drawn into it.
#[derive(Clone, Copy, Debug, PartialEq, Eq, Structural)]
pub struct ShadowMapUpdate {
    pub start: ShadowMapStart,
    pub dynamic_objects: bool,
    pub static_objects: bool,
}

impl ShadowMapMode {
    /// The per-frame shadow map of a light in this mode: none without shadows;
    /// cleared and drawn from all objects when fully dynamic; copied from the
    /// static map and drawn from the dynamic objects when semi-dynamic; copied
    /// from the static map alone when static.
    pub fn frame_update(&self) -> (r: Option<ShadowMapUpdate>)
        ensures
            r == match *self {
                ShadowMapMode::Disabled => None,
                ShadowMapMode::FullyDynamic(_) => Some(
                    ShadowMapUpdate { start: ShadowMapStart::Clear, dynamic_objects: true, static_objects: true },
                ),
                ShadowMapMode::SemiDynamic(_) => Some(
                    ShadowMapUpdate { start: ShadowMapStart::CopyStatic, dynamic_objects: true, static_objects: false },
                ),
                ShadowMapMode::Static(_) => Some(
                    ShadowMapUpdate { start: ShadowMapStart::CopyStatic, dynamic_objects: false, static_objects: false },
                ),
            },
    {
        match self {
            ShadowMapMode::Disabled => None,
            ShadowMapMode::FullyDynamic(_) => Some(
                ShadowMapUpdate { start: ShadowMapStart::Clear, dynamic_objects: true, static_objects: true },
            ),
            ShadowMapMode::SemiDynamic(_) => Some(
                ShadowMapUpdate { start: ShadowMapStart::CopyStatic, dynamic_objects: true, static_objects: false },
            ),
            ShadowMapMode::Static(_) => Some(
                ShadowMapUpdate { start: ShadowMapStart::CopyStatic, dynamic_objects: false, static_objects: false },
            ),
        }
    }
}

impl ShadowMapMode {
    /// Whether a light in this mode keeps a static shadow map: in the static and
    /// the semi-dynamic modes.
    pub fn has_static_shadows(&self) -> (b: bool)
        ensures
            b == (*self is Static || *self is SemiDynamic),
    {
        match self {
            ShadowMapMode::Static(_) | ShadowMapMode::SemiDynamic(_) => true,
            _ => false,
        }
    }
}

/// Whether a light's static shadow map still has to be drawn.
#[derive(Clone, Copy, Debug, PartialEq, Eq, Structural)]
pub struct StaticShadowRefresh {
    pub need_to_refresh_static_shadows: bool,
}

impl StaticShadowRefresh {
    /// A new light draws its static shadow map once, if its mode keeps one.
    pub fn new(mode: ShadowMapMode) -> (r: Self)
        ensures
            r.need_to_refresh_static_shadows == (mode is Static || mode is SemiDynamic),
    {
        StaticShadowRefresh { need_to_refresh_static_shadows: mode.has_static_shadows() }
    }

    /// Whether the static shadow map is to be drawn now; the first call after
    /// the flag was set says so, and clears it.
    pub fn take_refresh_flag(&mut self) -> (r: bool)
        ensures
            r == old(self).need_to_refresh_static_shadows,
            !final(self).need_to_refresh_static_shadows,
    {
        let r = self.need_to_refresh_static_shadows;
        self.need_to_refresh_static_shadows = false;
        r
    }
}

} // verus!
