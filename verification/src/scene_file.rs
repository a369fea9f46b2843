//! The binary scene file written by the exporter: textures, materials, mesh
//! names and objects, one list after another, each list preceded by its
//! length. Numbers are little-endian; `f32` values are kept as bit patterns;
//! strings end with a zero byte (or with the data).
use vstd::prelude::*;
use crate::mesh::{le_u32, read_u32};

verus! {

/// Index of the first zero byte at or after `at`, or the length of the data.
pub open spec fn cstring_end(b: Seq<u8>, at: int) -> int
    decreases b.len() - at,
{
    if at >= b.len() {
        b.len() as int
    } else if b[at] == 0 {
        at
    } else {
        cstring_end(b, at + 1)
    }
}

/// The string at `at` and the position after its terminating zero.
pub open spec fn spec_string(b: Seq<u8>, at: int) -> (Seq<u8>, int) {
    let e = cstring_end(b, at);
    (b.subrange(at, e), if e < b.len() { e + 1 } else { e })
}

/// `n` little-endian words at `at`, and the position after them; nothing when
/// the data ends first.
pub open spec fn spec_words(b: Seq<u8>, at: int, n: nat) -> Option<(Seq<u32>, int)> {
    if at + 4 * n <= b.len() {
        Some((Seq::new(n, |i: int| le_u32(b, at + 4 * i)), at + 4 * n))
    } else {
        None
    }
}

proof fn lemma_cstring_end_bounds(b: Seq<u8>, at: int)
    requires
        0 <= at <= b.len(),
    ensures
        at <= cstring_end(b, at) <= b.len(),
        forall|i: int| at <= i < cstring_end(b, at) ==> b[i] != 0,
        cstring_end(b, at) < b.len() ==> b[cstring_end(b, at)] == 0,
    decreases b.len() - at,
{
    if at < b.len() && b[at] != 0 {
        lemma_cstring_end_bounds(b, at + 1);
    }
}

/// Reads the string at `at`: its bytes and the position after it.
pub fn read_cstring(b: &[u8], at: usize) -> (r: (Vec<u8>, usize))
    requires
        at <= b@.len(),
    ensures
        r.0@ == spec_string(b@, at as int).0,
        r.1 == spec_string(b@, at as int).1,
{
    let mut out: Vec<u8> = Vec::new();
    let mut i = at;
    proof {
        lemma_cstring_end_bounds(b@, at as int);
    }
    while i < b.len() && b[i] != 0
        invariant
            at <= i <= cstring_end(b@, at as int),
            cstring_end(b@, at as int) <= b@.len(),
            forall|k: int| at <= k < cstring_end(b@, at as int) ==> b@[k] != 0,
            cstring_end(b@, at as int) < b@.len() ==> b@[cstring_end(b@, at as int)] == 0,
            out@ == b@.subrange(at as int, i as int),
        decreases b@.len() - i,
    {
        out.push(b[i]);
        assert(out@ =~= b@.subrange(at as int, i as int + 1));
        i = i + 1;
    }
    if i < b.len() {
        (out, i + 1)
    } else {
        (out, i)
    }
}

/// Reads `n` words at `at`; nothing when the data ends first.
fn read_words(b: &[u8], at: usize, n: usize) -> (r: Option<(Vec<u32>, usize)>)
    requires
        n <= 16,
    ensures
        match spec_words(b@, at as int, n as nat) {
            Some((w, next)) => r matches Some((v, p)) && v@ == w && p == next,
            None => r is None,
        },
{
    let len = b.len();
    if at > len || len - at < 4 * n {
        return None;
    }
    let mut out: Vec<u32> = Vec::new();
    let mut i: usize = 0;
    while i < n
        invariant
            i <= n <= 16,
            len == b@.len(),
            at + 4 * n <= len,
            out@ == Seq::new(i as nat, |k: int| le_u32(b@, at + 4 * k)),
        decreases n - i,
    {
        out.push(read_u32(b, at + 4 * i));
        assert(out@ =~= Seq::new(i as nat + 1, |k: int| le_u32(b@, at + 4 * k)));
        i = i + 1;
    }
    Some((out, at + 4 * n))
}

/// `n` items read one after another from `at` by `item`, and the position after
/// the last; nothing when an item cannot be read.
pub open spec fn spec_many<T>(
    b: Seq<u8>,
    at: int,
    n: nat,
    item: spec_fn(Seq<u8>, int) -> Option<(T, int)>,
) -> Option<(Seq<T>, int)>
    decreases n,
{
    if n == 0 {
        Some((Seq::empty(), at))
    } else {
        match item(b, at) {
            None => None,
            Some((x, p)) => match spec_many(b, p, (n - 1) as nat, item) {
                None => None,
                Some((xs, q)) => Some((seq![x] + xs, q)),
            },
        }
    }
}

/// A texture of the scene: its name and the file it is read from.
pub struct TextureEntry {
    pub name: Seq<u8>,
    pub path: Seq<u8>,
}

pub struct TextureRecord {
    pub name: Vec<u8>,
    pub path: Vec<u8>,
}

impl View for TextureRecord {
    type V = TextureEntry;

    open spec fn view(&self) -> TextureEntry {
        TextureEntry { name: self.name@, path: self.path@ }
    }
}

/// A texture: its name, then its file.
pub open spec fn spec_texture(b: Seq<u8>, at: int) -> Option<(TextureEntry, int)> {
    let (name, p1) = spec_string(b, at);
    let (path, p2) = spec_string(b, p1);
    Some((TextureEntry { name, path }, p2))
}

proof fn lemma_string_next(b: Seq<u8>, at: int)
    requires
        0 <= at <= b.len(),
    ensures
        at <= spec_string(b, at).1 <= b.len(),
{
    lemma_cstring_end_bounds(b, at);
}

fn read_texture(b: &[u8], at: usize) -> (r: Option<(TextureRecord, usize)>)
    requires
        at <= b@.len(),
    ensures
        match spec_texture(b@, at as int) {
            Some((t, next)) => r matches Some((v, p)) && v@ == t && p == next,
            None => r is None,
        },
        r matches Some((v, p)) ==> p <= b@.len(),
{
    proof {
        lemma_string_next(b@, at as int);
    }
    let (name, p1) = read_cstring(b, at);
    proof {
        lemma_string_next(b@, p1 as int);
    }
    let (path, p2) = read_cstring(b, p1);
    Some((TextureRecord { name, path }, p2))
}

/// Reads `n` textures.
fn read_textures(b: &[u8], at: usize, n: u32) -> (r: Option<(Vec<TextureRecord>, usize)>)
    requires
        at <= b@.len(),
    ensures
        match spec_many(b@, at as int, n as nat, |b: Seq<u8>, p: int| spec_texture(b, p)) {
            Some((ts, next)) => r matches Some((v, p)) && v@.map_values(|t: TextureRecord| t@) == ts && p == next
                && p <= b@.len(),
            None => r is None,
        },
{
    let ghost item = |b: Seq<u8>, p: int| spec_texture(b, p);
    let mut out: Vec<TextureRecord> = Vec::new();
    let mut pos = at;
    let mut i: u32 = 0;
    while i < n
        invariant
            i <= n,
            pos <= b@.len(),
            item == (|b: Seq<u8>, p: int| spec_texture(b, p)),
            spec_many(b@, at as int, n as nat, item) == match spec_many(b@, pos as int, (n - i) as nat, item) {
                Some((rest, q)) => Some((out@.map_values(|t: TextureRecord| t@) + rest, q)),
                None => None,
            },
        decreases n - i,
    {
        let ghost before = out@.map_values(|t: TextureRecord| t@);
        match read_texture(b, pos) {
            Some((t, p)) => {
                let ghost tv = t@;
                out.push(t);
                proof {
                    assert(out@.map_values(|t: TextureRecord| t@) =~= before.push(tv));
                    match spec_many(b@, p as int, (n - i - 1) as nat, item) {
                        Some((rest, q)) => {
                            assert(before + (seq![tv] + rest) =~= before.push(tv) + rest);
                        },
                        None => {},
                    }
                }
                pos = p;
            },
            None => {
                return None;
            },
        }
        i = i + 1;
    }
    assert(out@.map_values(|t: TextureRecord| t@) + Seq::<TextureEntry>::empty() =~= out@.map_values(
        |t: TextureRecord| t@,
    ));
    Some((out, pos))
}

/// A material of the scene: its name, the thirteen words of its fixed part
/// (diffuse colour, metallic, specular, roughness, emission colour, transparent
/// roughness, blend method, shadow method) and the names of its six maps
/// (diffuse, metallic, specular, roughness, emission, normals; empty for none).
pub struct MaterialEntry {
    pub name: Seq<u8>,
    pub values: Seq<u32>,
    pub textures: Seq<Seq<u8>>,
}

pub struct MaterialRecord {
    pub name: Vec<u8>,
    pub diffuse: [u32; 4],
    pub metallic: u32,
    pub specular: u32,
    pub roughness: u32,
    pub emission: [u32; 3],
    pub transp_rough: u32,
    pub blend_method: i32,
    pub shadow_method: i32,
    pub diffuse_texture: Vec<u8>,
    pub metallic_texture: Vec<u8>,
    pub specular_texture: Vec<u8>,
    pub roughness_texture: Vec<u8>,
    pub emission_texture: Vec<u8>,
    pub normals_texture: Vec<u8>,
}

impl View for MaterialRecord {
    type V = MaterialEntry;

    open spec fn view(&self) -> MaterialEntry {
        MaterialEntry {
            name: self.name@,
            values: self.diffuse@ + seq![self.metallic, self.specular, self.roughness] + self.emission@ + seq![
                self.transp_rough,
                self.blend_method as u32,
                self.shadow_method as u32,
            ],
            textures: seq![
                self.diffuse_texture@,
                self.metallic_texture@,
                self.specular_texture@,
                self.roughness_texture@,
                self.emission_texture@,
                self.normals_texture@,
            ],
        }
    }
}

/// A material: its name, its fixed part, then the names of its maps.
pub open spec fn spec_material(b: Seq<u8>, at: int) -> Option<(MaterialEntry, int)> {
    let (name, p1) = spec_string(b, at);
    match spec_words(b, p1, 13) {
        None => None,
        Some((values, p2)) => {
            let (t0, p3) = spec_string(b, p2);
            let (t1, p4) = spec_string(b, p3);
            let (t2, p5) = spec_string(b, p4);
            let (t3, p6) = spec_string(b, p5);
            let (t4, p7) = spec_string(b, p6);
            let (t5, p8) = spec_string(b, p7);
            Some((MaterialEntry { name, values, textures: seq![t0, t1, t2, t3, t4, t5] }, p8))
        },
    }
}

/// The fixed part of a material is the thirteen little-endian words that follow
/// its name, in file order: word `k` at four times `k` bytes past the name.
pub proof fn lemma_material_values(b: Seq<u8>, at: int)
    ensures
        spec_material(b, at) matches Some((m, _)) ==> {
            let q = spec_string(b, at).1;
            &&& m.name == spec_string(b, at).0
            &&& m.values.len() == 13
            &&& forall|k: int| 0 <= k < 13 ==> #[trigger] m.values[k] == le_u32(b, q + 4 * k)
        },
        spec_material(b, at) is Some <==> spec_string(b, at).1 + 52 <= b.len(),
{
}

/// A material record's fixed part lists its fields in file order: the diffuse
/// colour, metallic, specular, roughness, the emission colour, transparent
/// roughness, blend method and shadow method.
pub proof fn lemma_material_record_order(m: MaterialRecord)
    ensures
        m@.values.len() == 13,
        m@.values.subrange(0, 4) == m.diffuse@,
        m@.values[4] == m.metallic,
        m@.values[5] == m.specular,
        m@.values[6] == m.roughness,
        m@.values.subrange(7, 10) == m.emission@,
        m@.values[10] == m.transp_rough,
        m@.values[11] == m.blend_method as u32,
        m@.values[12] == m.shadow_method as u32,
        m@.textures.len() == 6,
        m@.textures[0] == m.diffuse_texture@,
        m@.textures[1] == m.metallic_texture@,
        m@.textures[2] == m.specular_texture@,
        m@.textures[3] == m.roughness_texture@,
        m@.textures[4] == m.emission_texture@,
        m@.textures[5] == m.normals_texture@,
{
    assert(m@.values.subrange(0, 4) =~= m.diffuse@);
    assert(m@.values.subrange(7, 10) =~= m.emission@);
}

fn read_string_within(b: &[u8], at: usize) -> (r: (Vec<u8>, usize))
    requires
        at <= b@.len(),
    ensures
        r.0@ == spec_string(b@, at as int).0,
        r.1 == spec_string(b@, at as int).1,
        at <= r.1 <= b@.len(),
{
    proof {
        lemma_string_next(b@, at as int);
    }
    read_cstring(b, at)
}

fn read_material(b: &[u8], at: usize) -> (r: Option<(MaterialRecord, usize)>)
    requires
        at <= b@.len(),
    ensures
        match spec_material(b@, at as int) {
            Some((m, next)) => r matches Some((v, p)) && v@ == m && p == next,
            None => r is None,
        },
        r matches Some((v, p)) ==> p <= b@.len(),
        r matches Some((v, _)) ==> {
            let q = spec_string(b@, at as int).1;
            &&& v.diffuse@ == seq![le_u32(b@, q), le_u32(b@, q + 4), le_u32(b@, q + 8), le_u32(b@, q + 12)]
            &&& v.metallic == le_u32(b@, q + 16)
            &&& v.specular == le_u32(b@, q + 20)
            &&& v.roughness == le_u32(b@, q + 24)
            &&& v.emission@ == seq![le_u32(b@, q + 28), le_u32(b@, q + 32), le_u32(b@, q + 36)]
            &&& v.transp_rough == le_u32(b@, q + 40)
            &&& v.blend_method as u32 == le_u32(b@, q + 44)
            &&& v.shadow_method as u32 == le_u32(b@, q + 48)
        },
{
    let (name, p1) = read_string_within(b, at);
    let (w, p2) = match read_words(b, p1, 13) {
        Some(x) => x,
        None => {
            return None;
        },
    };
    let (t0, p3) = read_string_within(b, p2);
    let (t1, p4) = read_string_within(b, p3);
    let (t2, p5) = read_string_within(b, p4);
    let (t3, p6) = read_string_within(b, p5);
    let (t4, p7) = read_string_within(b, p6);
    let (t5, p8) = read_string_within(b, p7);
    let blend = w[11];
    let shadow = w[12];
    assert((blend as i32) as u32 == blend) by (bit_vector);
    assert((shadow as i32) as u32 == shadow) by (bit_vector);
    let m = MaterialRecord {
        name,
        diffuse: [w[0], w[1], w[2], w[3]],
        metallic: w[4],
        specular: w[5],
        roughness: w[6],
        emission: [w[7], w[8], w[9]],
        transp_rough: w[10],
        blend_method: blend as i32,
        shadow_method: shadow as i32,
        diffuse_texture: t0,
        metallic_texture: t1,
        specular_texture: t2,
        roughness_texture: t3,
        emission_texture: t4,
        normals_texture: t5,
    };
    assert(m@.values =~= w@);
    assert(m.diffuse@ =~= seq![w@[0], w@[1], w@[2], w@[3]]);
    assert(m.emission@ =~= seq![w@[7], w@[8], w@[9]]);
    Some((m, p8))
}

/// Reads `n` materials.
fn read_materials(b: &[u8], at: usize, n: u32) -> (r: Option<(Vec<MaterialRecord>, usize)>)
    requires
        at <= b@.len(),
    ensures
        match spec_many(b@, at as int, n as nat, |b: Seq<u8>, p: int| spec_material(b, p)) {
            Some((ms, next)) => r matches Some((v, p)) && v@.map_values(|m: MaterialRecord| m@) == ms && p == next
                && p <= b@.len(),
            None => r is None,
        },
{
    let ghost item = |b: Seq<u8>, p: int| spec_material(b, p);
    let mut out: Vec<MaterialRecord> = Vec::new();
    let mut pos = at;
    let mut i: u32 = 0;
    while i < n
        invariant
            i <= n,
            pos <= b@.len(),
            item == (|b: Seq<u8>, p: int| spec_material(b, p)),
            spec_many(b@, at as int, n as nat, item) == match spec_many(b@, pos as int, (n - i) as nat, item) {
                Some((rest, q)) => Some((out@.map_values(|m: MaterialRecord| m@) + rest, q)),
                None => None,
            },
        decreases n - i,
    {
        let ghost before = out@.map_values(|m: MaterialRecord| m@);
        match read_material(b, pos) {
            Some((m, p)) => {
                let ghost mv = m@;
                out.push(m);
                proof {
                    assert(out@.map_values(|m: MaterialRecord| m@) =~= before.push(mv));
                    match spec_many(b@, p as int, (n - i - 1) as nat, item) {
                        Some((rest, q)) => {
                            assert(before + (seq![mv] + rest) =~= before.push(mv) + rest);
                        },
                        None => {},
                    }
                }
                pos = p;
            },
            None => {
                return None;
            },
        }
        i = i + 1;
    }
    assert(out@.map_values(|m: MaterialRecord| m@) + Seq::<MaterialEntry>::empty() =~= out@.map_values(
        |m: MaterialRecord| m@,
    ));
    Some((out, pos))
}

/// A light of the scene: twelve words (energy, colour, kind, shadow, shadow
/// mode, near and far planes, size, inner angle, angle).
pub struct LightRecord {
    pub energy: u32,
    pub color: [u32; 3],
    pub typenum: u32,
    pub shadow: u32,
    pub shadow_mode: u32,
    pub z_near: u32,
    pub z_far: u32,
    pub size: u32,
    pub inner_angle: u32,
    pub angle: u32,
}

impl LightRecord {
    pub open spec fn words(&self) -> Seq<u32> {
        seq![self.energy] + self.color@ + seq![
            self.typenum,
            self.shadow,
            self.shadow_mode,
            self.z_near,
            self.z_far,
            self.size,
            self.inner_angle,
            self.angle,
        ]
    }
}

/// An object of the scene: its name, the names of its parent and parent bone,
/// the first three rows of its transform (row by row), its flags, the mesh and
/// material it shows, if any, and its light, if any.
pub struct ObjectEntry {
    pub name: Seq<u8>,
    pub parent_name: Seq<u8>,
    pub parent_bone: Seq<u8>,
    pub transform: Seq<u32>,
    pub hidden: bool,
    pub is_static: bool,
    pub has_camera: bool,
    pub has_skeleton: bool,
    pub has_physics: bool,
    pub mesh: Option<(Seq<u8>, Seq<u8>)>,
    pub light: Option<Seq<u32>>,
}

pub struct ObjectRecord {
    pub name: Vec<u8>,
    pub parent_name: Vec<u8>,
    pub parent_bone: Vec<u8>,
    pub transform: Vec<u32>,
    pub hidden: bool,
    pub is_static: bool,
    pub has_camera: bool,
    pub has_skeleton: bool,
    pub has_physics: bool,
    pub mesh: Option<(Vec<u8>, Vec<u8>)>,
    pub light: Option<LightRecord>,
}

impl View for ObjectRecord {
    type V = ObjectEntry;

    open spec fn view(&self) -> ObjectEntry {
        ObjectEntry {
            name: self.name@,
            parent_name: self.parent_name@,
            parent_bone: self.parent_bone@,
            transform: self.transform@,
            hidden: self.hidden,
            is_static: self.is_static,
            has_camera: self.has_camera,
            has_skeleton: self.has_skeleton,
            has_physics: self.has_physics,
            mesh: match self.mesh {
                Some((m, mat)) => Some((m@, mat@)),
                None => None,
            },
            light: match self.light {
                Some(l) => Some(l.words()),
                None => None,
            },
        }
    }
}

/// An object: three names, the transform, seven flag bytes (hidden, static,
/// mesh, camera, light, skeleton, physics), then the mesh and material names
/// when the mesh flag is set and the light when the light flag is set.
pub open spec fn spec_object(b: Seq<u8>, at: int) -> Option<(ObjectEntry, int)> {
    let (name, p1) = spec_string(b, at);
    let (parent_name, p2) = spec_string(b, p1);
    let (parent_bone, p3) = spec_string(b, p2);
    match spec_words(b, p3, 12) {
        None => None,
        Some((transform, p4)) => if p4 + 7 <= b.len() {
            let p5 = p4 + 7;
            let (mesh, p7) = if b[p4 + 2] != 0 {
                let (m, p6) = spec_string(b, p5);
                let (mat, p7) = spec_string(b, p6);
                (Some((m, mat)), p7)
            } else {
                (None, p5)
            };
            let entry = ObjectEntry {
                name,
                parent_name,
                parent_bone,
                transform,
                hidden: b[p4] != 0,
                is_static: b[p4 + 1] != 0,
                has_camera: b[p4 + 3] != 0,
                has_skeleton: b[p4 + 5] != 0,
                has_physics: b[p4 + 6] != 0,
                mesh,
                light: None,
            };
            if b[p4 + 4] != 0 {
                match spec_words(b, p7, 12) {
                    None => None,
                    Some((light, p8)) => Some((ObjectEntry { light: Some(light), ..entry }, p8)),
                }
            } else {
                Some((entry, p7))
            }
        } else {
            None
        },
    }
}

/// A light record lists its fields in file order: energy, colour, kind,
/// shadow, shadow mode, near and far planes, size, inner angle and angle.
pub proof fn lemma_light_record_order(l: LightRecord)
    ensures
        l.words().len() == 12,
        l.words()[0] == l.energy,
        l.words().subrange(1, 4) == l.color@,
        l.words()[4] == l.typenum,
        l.words()[5] == l.shadow,
        l.words()[6] == l.shadow_mode,
        l.words()[7] == l.z_near,
        l.words()[8] == l.z_far,
        l.words()[9] == l.size,
        l.words()[10] == l.inner_angle,
        l.words()[11] == l.angle,
{
    assert(l.words().subrange(1, 4) =~= l.color@);
}

/// Where an object's fields lie: after its three names come the twelve words
/// of its transform, in file order, and then its seven flag bytes: hidden,
/// static, mesh, camera, light, skeleton and physics.
pub proof fn lemma_object_fields(b: Seq<u8>, at: int)
    requires
        0 <= at <= b.len(),
    ensures
        spec_object(b, at) matches Some((o, _)) ==> {
            let q = spec_string(b, spec_string(b, spec_string(b, at).1).1).1;
            let f = q + 48;
            &&& o.name == spec_string(b, at).0
            &&& o.transform.len() == 12
            &&& forall|k: int| 0 <= k < 12 ==> #[trigger] o.transform[k] == le_u32(b, q + 4 * k)
            &&& o.hidden == (b[f] != 0)
            &&& o.is_static == (b[f + 1] != 0)
            &&& (o.mesh is Some) == (b[f + 2] != 0)
            &&& o.has_camera == (b[f + 3] != 0)
            &&& (o.light is Some) == (b[f + 4] != 0)
            &&& o.has_skeleton == (b[f + 5] != 0)
            &&& o.has_physics == (b[f + 6] != 0)
        },
{
}

fn read_object(b: &[u8], at: usize) -> (r: Option<(ObjectRecord, usize)>)
    requires
        at <= b@.len(),
    ensures
        match spec_object(b@, at as int) {
            Some((o, next)) => r matches Some((v, p)) && v@ == o && p == next,
            None => r is None,
        },
        r matches Some((v, p)) ==> p <= b@.len(),
        r matches Some((v, _)) ==> {
            let q = spec_string(b@, spec_string(b@, spec_string(b@, at as int).1).1).1;
            let f = q + 48;
            &&& v.hidden == (b@[f] != 0)
            &&& v.is_static == (b@[f + 1] != 0)
            &&& (v.mesh is Some) == (b@[f + 2] != 0)
            &&& v.has_camera == (b@[f + 3] != 0)
            &&& (v.light is Some) == (b@[f + 4] != 0)
            &&& v.has_skeleton == (b@[f + 5] != 0)
            &&& v.has_physics == (b@[f + 6] != 0)
            &&& v.transform@.len() == 12
            &&& forall|k: int| 0 <= k < 12 ==> #[trigger] v.transform@[k] == le_u32(b@, q + 4 * k)
            &&& v.light matches Some(l) ==> {
                let lp = if b@[f + 2] != 0 { spec_string(b@, spec_string(b@, f + 7).1).1 } else { f + 7 };
                &&& l.energy == le_u32(b@, lp)
                &&& l.color@ == seq![le_u32(b@, lp + 4), le_u32(b@, lp + 8), le_u32(b@, lp + 12)]
                &&& l.typenum == le_u32(b@, lp + 16)
                &&& l.shadow == le_u32(b@, lp + 20)
                &&& l.shadow_mode == le_u32(b@, lp + 24)
                &&& l.z_near == le_u32(b@, lp + 28)
                &&& l.z_far == le_u32(b@, lp + 32)
                &&& l.size == le_u32(b@, lp + 36)
                &&& l.inner_angle == le_u32(b@, lp + 40)
                &&& l.angle == le_u32(b@, lp + 44)
            }
        },
{
    let (name, p1) = read_string_within(b, at);
    let (parent_name, p2) = read_string_within(b, p1);
    let (parent_bone, p3) = read_string_within(b, p2);
    let (transform, p4) = match read_words(b, p3, 12) {
        Some(x) => x,
        None => {
            return None;
        },
    };
    if p4 > b.len() || b.len() - p4 < 7 {
        return None;
    }
    let p5 = p4 + 7;
    let (mesh, p7) = if b[p4 + 2] != 0 {
        let (m, p6) = read_string_within(b, p5);
        let (mat, p7) = read_string_within(b, p6);
        (Some((m, mat)), p7)
    } else {
        (None, p5)
    };
    let (light, p8) = if b[p4 + 4] != 0 {
        match read_words(b, p7, 12) {
            Some((w, p8)) => {
                let l = LightRecord {
                    energy: w[0],
                    color: [w[1], w[2], w[3]],
                    typenum: w[4],
                    shadow: w[5],
                    shadow_mode: w[6],
                    z_near: w[7],
                    z_far: w[8],
                    size: w[9],
                    inner_angle: w[10],
                    angle: w[11],
                };
                assert(l.words() =~= w@);
                assert(l.color@ =~= seq![w@[1], w@[2], w@[3]]);
                (Some(l), p8)
            },
            None => {
                return None;
            },
        }
    } else {
        (None, p7)
    };
    let o = ObjectRecord {
        name,
        parent_name,
        parent_bone,
        transform,
        hidden: b[p4] != 0,
        is_static: b[p4 + 1] != 0,
        has_camera: b[p4 + 3] != 0,
        has_skeleton: b[p4 + 5] != 0,
        has_physics: b[p4 + 6] != 0,
        mesh,
        light,
    };
    Some((o, p8))
}

/// A name standing alone in a list.
pub open spec fn spec_name(b: Seq<u8>, at: int) -> Option<(Seq<u8>, int)> {
    let (name, p) = spec_string(b, at);
    Some((name, p))
}

fn read_name(b: &[u8], at: usize) -> (r: Option<(Vec<u8>, usize)>)
    requires
        at <= b@.len(),
    ensures
        match spec_name(b@, at as int) {
            Some((x, next)) => r matches Some((v, p)) && v@ == x && p == next,
            None => r is None,
        },
        r matches Some((v, p)) ==> p <= b@.len(),
{
    let (name, p) = read_string_within(b, at);
    Some((name, p))
}

/// Reads `n` mesh names.
fn read_names(b: &[u8], at: usize, n: u32) -> (r: Option<(Vec<Vec<u8>>, usize)>)
    requires
        at <= b@.len(),
    ensures
        match spec_many(b@, at as int, n as nat, |b: Seq<u8>, p: int| spec_name(b, p)) {
            Some((xs, next)) => r matches Some((v, p)) && v@.map_values(|x: Vec<u8>| x@) == xs && p == next
                && p <= b@.len(),
            None => r is None,
        },
{
    let ghost item = |b: Seq<u8>, p: int| spec_name(b, p);
    let mut out: Vec<Vec<u8>> = Vec::new();
    let mut pos = at;
    let mut i: u32 = 0;
    while i < n
        invariant
            i <= n,
            pos <= b@.len(),
            item == (|b: Seq<u8>, p: int| spec_name(b, p)),
            spec_many(b@, at as int, n as nat, item) == match spec_many(b@, pos as int, (n - i) as nat, item) {
                Some((rest, q)) => Some((out@.map_values(|x: Vec<u8>| x@) + rest, q)),
                None => None,
            },
        decreases n - i,
    {
        let ghost before = out@.map_values(|x: Vec<u8>| x@);
        match read_name(b, pos) {
            Some((x, p)) => {
                let ghost xv = x@;
                out.push(x);
                proof {
                    assert(out@.map_values(|x: Vec<u8>| x@) =~= before.push(xv));
                    match spec_many(b@, p as int, (n - i - 1) as nat, item) {
                        Some((rest, q)) => {
                            assert(before + (seq![xv] + rest) =~= before.push(xv) + rest);
                        },
                        None => {},
                    }
                }
                pos = p;
            },
            None => {
                return None;
            },
        }
        i = i + 1;
    }
    assert(out@.map_values(|x: Vec<u8>| x@) + Seq::<Seq<u8>>::empty() =~= out@.map_values(|x: Vec<u8>| x@));
    Some((out, pos))
}

/// Reads `n` objects.
fn read_objects(b: &[u8], at: usize, n: u32) -> (r: Option<(Vec<ObjectRecord>, usize)>)
    requires
        at <= b@.len(),
    ensures
        match spec_many(b@, at as int, n as nat, |b: Seq<u8>, p: int| spec_object(b, p)) {
            Some((xs, next)) => r matches Some((v, p)) && v@.map_values(|x: ObjectRecord| x@) == xs && p == next
                && p <= b@.len(),
            None => r is None,
        },
{
    let ghost item = |b: Seq<u8>, p: int| spec_object(b, p);
    let mut out: Vec<ObjectRecord> = Vec::new();
    let mut pos = at;
    let mut i: u32 = 0;
    while i < n
        invariant
            i <= n,
            pos <= b@.len(),
            item == (|b: Seq<u8>, p: int| spec_object(b, p)),
            spec_many(b@, at as int, n as nat, item) == match spec_many(b@, pos as int, (n - i) as nat, item) {
                Some((rest, q)) => Some((out@.map_values(|x: ObjectRecord| x@) + rest, q)),
                None => None,
            },
        decreases n - i,
    {
        let ghost before = out@.map_values(|x: ObjectRecord| x@);
        match read_object(b, pos) {
            Some((x, p)) => {
                let ghost xv = x@;
                out.push(x);
                proof {
                    assert(out@.map_values(|x: ObjectRecord| x@) =~= before.push(xv));
                    match spec_many(b@, p as int, (n - i - 1) as nat, item) {
                        Some((rest, q)) => {
                            assert(before + (seq![xv] + rest) =~= before.push(xv) + rest);
                        },
                        None => {},
                    }
                }
                pos = p;
            },
            None => {
                return None;
            },
        }
        i = i + 1;
    }
    assert(out@.map_values(|x: ObjectRecord| x@) + Seq::<ObjectEntry>::empty() =~= out@.map_values(|x: ObjectRecord| x@));
    Some((out, pos))
}

/// What a scene file holds.
pub struct SceneEntry {
    pub textures: Seq<TextureEntry>,
    pub materials: Seq<MaterialEntry>,
    pub meshes: Seq<Seq<u8>>,
    pub objects: Seq<ObjectEntry>,
}

pub struct SceneRecord {
    pub textures: Vec<TextureRecord>,
    pub materials: Vec<MaterialRecord>,
    pub meshes: Vec<Vec<u8>>,
    pub objects: Vec<ObjectRecord>,
}

impl View for SceneRecord {
    type V = SceneEntry;

    open spec fn view(&self) -> SceneEntry {
        SceneEntry {
            textures: self.textures@.map_values(|x: TextureRecord| x@),
            materials: self.materials@.map_values(|x: MaterialRecord| x@),
            meshes: self.meshes@.map_values(|x: Vec<u8>| x@),
            objects: self.objects@.map_values(|x: ObjectRecord| x@),
        }
    }
}

/// The list at `at`: its length, then its items.
pub open spec fn spec_list<T>(b: Seq<u8>, at: int, item: spec_fn(Seq<u8>, int) -> Option<(T, int)>) -> Option<(Seq<T>, int)> {
    match spec_words(b, at, 1) {
        None => None,
        Some((n, p)) => spec_many(b, p, n[0] as nat, item),
    }
}

/// The scene held by the bytes: the textures, the materials, the mesh names and
/// the objects; nothing when the data ends before the last object does. Bytes
/// after the last object are ignored.
pub open spec fn spec_scene(b: Seq<u8>) -> Option<SceneEntry> {
    match spec_list(b, 0, |b: Seq<u8>, p: int| spec_texture(b, p)) {
        None => None,
        Some((textures, p1)) => match spec_list(b, p1, |b: Seq<u8>, p: int| spec_material(b, p)) {
            None => None,
            Some((materials, p2)) => match spec_list(b, p2, |b: Seq<u8>, p: int| spec_name(b, p)) {
                None => None,
                Some((meshes, p3)) => match spec_list(b, p3, |b: Seq<u8>, p: int| spec_object(b, p)) {
                    None => None,
                    Some((objects, _)) => Some(SceneEntry { textures, materials, meshes, objects }),
                },
            },
        },
    }
}

fn read_count(b: &[u8], at: usize) -> (r: Option<(u32, usize)>)
    ensures
        match spec_words(b@, at as int, 1) {
            Some((n, next)) => r matches Some((v, p)) && v == n[0] && p == next && p <= b@.len(),
            None => r is None,
        },
{
    match read_words(b, at, 1) {
        Some((w, p)) => Some((w[0], p)),
        None => None,
    }
}

/// Reads a scene file; nothing when the data ends before the last object does.
pub fn read_scene(b: &[u8]) -> (r: Option<SceneRecord>)
    ensures
        match spec_scene(b@) {
            Some(s) => r matches Some(v) && v@ == s,
            None => r is None,
        },
{
    let (n, p) = match read_count(b, 0) {
        Some(x) => x,
        None => {
            return None;
        },
    };
    let (textures, p1) = match read_textures(b, p, n) {
        Some(x) => x,
        None => {
            return None;
        },
    };
    let (n, p) = match read_count(b, p1) {
        Some(x) => x,
        None => {
            return None;
        },
    };
    let (materials, p2) = match read_materials(b, p, n) {
        Some(x) => x,
        None => {
            return None;
        },
    };
    let (n, p) = match read_count(b, p2) {
        Some(x) => x,
        None => {
            return None;
        },
    };
    let (meshes, p3) = match read_names(b, p, n) {
        Some(x) => x,
        None => {
            return None;
        },
    };
    let (n, p) = match read_count(b, p3) {
        Some(x) => x,
        None => {
            return None;
        },
    };
    let (objects, _) = match read_objects(b, p, n) {
        Some(x) => x,
        None => {
            return None;
        },
    };
    Some(SceneRecord { textures, materials, meshes, objects })
}

} // verus!
