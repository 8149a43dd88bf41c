use vstd::prelude::*;

use crate::bits::i16_from_bits;
use crate::reader::{le_i32, le_u16, le_u32};

verus! {

/// A record of fixed byte size stored back to back in a lump.
pub trait LumpRecord: Sized {
    /// Byte size of one record.
    spec fn spec_size() -> nat;

    /// `self` is what the record bytes `b` decode to.
    spec fn parsed_from(&self, b: Seq<u8>) -> bool;

    fn size() -> (r: usize)
        ensures
            r == Self::spec_size(),
            r > 0,
    ;

    fn parse(b: &[u8]) -> (r: Self)
        requires
            b@.len() == Self::spec_size(),
        ensures
            r.parsed_from(b@),
    ;
}

pub fn u16_at(b: &[u8], at: usize) -> (r: u16)
    requires
        at + 2 <= b@.len(),
    ensures
        r as nat == le_u16(b@, at as int),
{
    b[at] as u16 + (b[at + 1] as u16) * 256
}

pub fn u32_at(b: &[u8], at: usize) -> (r: u32)
    requires
        at + 4 <= b@.len(),
    ensures
        r as nat == le_u32(b@, at as int),
{
    b[at] as u32 + (b[at + 1] as u32) * 256 + (b[at + 2] as u32) * 65536 + (b[at + 3] as u32)
        * 16777216
}

pub fn i32_at(b: &[u8], at: usize) -> (r: i32)
    requires
        at + 4 <= b@.len(),
    ensures
        r as int == le_i32(b@, at as int),
{
    crate::bits::i32_from_bits(u32_at(b, at))
}

pub fn i16_at(b: &[u8], at: usize) -> (r: i16)
    requires
        at + 2 <= b@.len(),
    ensures
        r as int == crate::bits::signed16(le_u16(b@, at as int)),
{
    i16_from_bits(u16_at(b, at))
}

impl LumpRecord for u32 {
    open spec fn spec_size() -> nat {
        4
    }

    open spec fn parsed_from(&self, b: Seq<u8>) -> bool {
        *self as nat == le_u32(b, 0)
    }

    fn size() -> (r: usize) {
        4
    }

    fn parse(b: &[u8]) -> (r: u32) {
        u32_at(b, 0)
    }
}

impl LumpRecord for i32 {
    open spec fn spec_size() -> nat {
        4
    }

    open spec fn parsed_from(&self, b: Seq<u8>) -> bool {
        *self as int == le_i32(b, 0)
    }

    fn size() -> (r: usize) {
        4
    }

    fn parse(b: &[u8]) -> (r: i32) {
        i32_at(b, 0)
    }
}

/// An edge: two vertex indices.
#[derive(Debug, Clone, Copy, PartialEq, Eq, Structural)]
pub struct BspEdge {
    pub v0: u16,
    pub v1: u16,
}

impl LumpRecord for BspEdge {
    open spec fn spec_size() -> nat {
        4
    }

    open spec fn parsed_from(&self, b: Seq<u8>) -> bool {
        self.v0 as nat == le_u16(b, 0) && self.v1 as nat == le_u16(b, 2)
    }

    fn size() -> (r: usize) {
        4
    }

    fn parse(b: &[u8]) -> (r: BspEdge) {
        BspEdge { v0: u16_at(b, 0), v1: u16_at(b, 2) }
    }
}

/// A three-component vector of single-precision floats, each kept as its
/// IEEE-754 bit pattern.
#[derive(Debug, Clone, Copy, PartialEq, Eq, Structural)]
pub struct RawVec3 {
    pub x: u32,
    pub y: u32,
    pub z: u32,
}

impl LumpRecord for RawVec3 {
    open spec fn spec_size() -> nat {
        12
    }

    open spec fn parsed_from(&self, b: Seq<u8>) -> bool {
        self.x as nat == le_u32(b, 0) && self.y as nat == le_u32(b, 4) && self.z as nat == le_u32(
            b,
            8,
        )
    }

    fn size() -> (r: usize) {
        12
    }

    fn parse(b: &[u8]) -> (r: RawVec3) {
        RawVec3 { x: u32_at(b, 0), y: u32_at(b, 4), z: u32_at(b, 8) }
    }
}

/// A lightmap sample: three colour bytes and a shared power-of-two exponent.
#[derive(Debug, Clone, Copy, PartialEq, Eq, Structural)]
pub struct BspColorRgbExp {
    pub r: u8,
    pub g: u8,
    pub b: u8,
    pub exponent: i8,
}

impl LumpRecord for BspColorRgbExp {
    open spec fn spec_size() -> nat {
        4
    }

    open spec fn parsed_from(&self, b: Seq<u8>) -> bool {
        &&& self.r == b[0]
        &&& self.g == b[1]
        &&& self.b == b[2]
        &&& self.exponent as int == if b[3] < 128 {
            b[3] as int
        } else {
            b[3] - 256
        }
    }

    fn size() -> (r: usize) {
        4
    }

    fn parse(b: &[u8]) -> (r: BspColorRgbExp) {
        let e = if b[3] < 128 {
            b[3] as i8
        } else {
            ((b[3] - 128) as i8) - 64 - 64
        };
        BspColorRgbExp { r: b[0], g: b[1], b: b[2], exponent: e }
    }
}

/// `c * 2^e`, rounded down, and at most 255.
pub open spec fn scaled_channel(c: u8, e: int) -> nat
    decreases (if e < 0 {
        -e
    } else {
        e
    }),
{
    if e == 0 {
        c as nat
    } else if e > 0 {
        let v = 2 * scaled_channel(c, e - 1);
        if v > 255 {
            255
        } else {
            v
        }
    } else {
        (scaled_channel(c, e + 1) / 2) as nat
    }
}

fn scale_channel(c: u8, e: i8) -> (r: u8)
    ensures
        r as nat == scaled_channel(c, e as int),
{
    let mut v: u8 = c;
    let mut k: i8 = 0;
    if e >= 0 {
        while k < e
            invariant
                0 <= k <= e,
                v as nat == scaled_channel(c, k as int),
            decreases e - k,
        {
            v = if v > 127 {
                255
            } else {
                v * 2
            };
            k = k + 1;
        }
    } else {
        while k > e
            invariant
                e <= k <= 0,
                v as nat == scaled_channel(c, k as int),
            decreases k - e,
        {
            v = v / 2;
            k = k - 1;
        }
    }
    v
}

impl BspColorRgbExp {
    /// The sample as three bytes, each channel scaled by `2^exponent` and
    /// capped at 255, in the order red, blue, green.
    pub fn to_srgb(&self) -> (r: [u8; 3])
        ensures
            r@ == seq![
                scaled_channel(self.r, self.exponent as int) as u8,
                scaled_channel(self.b, self.exponent as int) as u8,
                scaled_channel(self.g, self.exponent as int) as u8,
            ],
    {
        let out = [
            scale_channel(self.r, self.exponent),
            scale_channel(self.b, self.exponent),
            scale_channel(self.g, self.exponent),
        ];
        assert(out@ =~= seq![out[0], out[1], out[2]]);
        out
    }
}

/// Tags of one displacement triangle.
#[derive(Debug, Clone, Copy, PartialEq, Eq, Structural)]
pub struct BspDispTri {
    pub tags: u16,
}

impl LumpRecord for BspDispTri {
    open spec fn spec_size() -> nat {
        2
    }

    open spec fn parsed_from(&self, b: Seq<u8>) -> bool {
        self.tags as nat == le_u16(b, 0)
    }

    fn size() -> (r: usize) {
        2
    }

    fn parse(b: &[u8]) -> (r: BspDispTri) {
        BspDispTri { tags: u16_at(b, 0) }
    }
}

/// One entry of the game-lump directory.
#[derive(Debug, Clone, Copy, PartialEq, Eq, Structural)]
pub struct BspGameLump {
    pub id: u32,
    pub flags: u16,
    pub version: u16,
    pub fileofs: u32,
    pub filelen: u32,
}

impl LumpRecord for BspGameLump {
    open spec fn spec_size() -> nat {
        16
    }

    open spec fn parsed_from(&self, b: Seq<u8>) -> bool {
        &&& self.id as nat == le_u32(b, 0)
        &&& self.flags as nat == le_u16(b, 4)
        &&& self.version as nat == le_u16(b, 6)
        &&& self.fileofs as nat == le_u32(b, 8)
        &&& self.filelen as nat == le_u32(b, 12)
    }

    fn size() -> (r: usize) {
        16
    }

    fn parse(b: &[u8]) -> (r: BspGameLump) {
        BspGameLump {
            id: u32_at(b, 0),
            flags: u16_at(b, 4),
            version: u16_at(b, 6),
            fileofs: u32_at(b, 8),
            filelen: u32_at(b, 12),
        }
    }
}

/// A plane: normal, distance (floats as bit patterns) and axis type.
#[derive(Debug, Clone, Copy, PartialEq, Eq, Structural)]
pub struct BspPlane {
    pub normal: RawVec3,
    pub dist: u32,
    pub axis_type: i32,
}

pub open spec fn vec3_in(v: RawVec3, b: Seq<u8>, at: int) -> bool {
    v.parsed_from(b.subrange(at, at + 12))
}

fn vec3_from(b: &[u8], at: usize) -> (r: RawVec3)
    requires
        at + 12 <= b@.len(),
    ensures
        vec3_in(r, b@, at as int),
{
    let n = b.len();
    let r = RawVec3 { x: u32_at(b, at), y: u32_at(b, at + 4), z: u32_at(b, at + 8) };
    assert(b@.subrange(at as int, at + 12).subrange(0, 4) =~= b@.subrange(at as int, at + 4));
    r
}

impl LumpRecord for BspPlane {
    open spec fn spec_size() -> nat {
        20
    }

    open spec fn parsed_from(&self, b: Seq<u8>) -> bool {
        &&& vec3_in(self.normal, b, 0)
        &&& self.dist as nat == le_u32(b, 12)
        &&& self.axis_type as int == le_i32(b, 16)
    }

    fn size() -> (r: usize) {
        20
    }

    fn parse(b: &[u8]) -> (r: BspPlane) {
        BspPlane { normal: vec3_from(b, 0), dist: u32_at(b, 12), axis_type: i32_at(b, 16) }
    }
}

/// A face of the level geometry; `area` is a float kept as its bit pattern.
#[derive(Debug, Clone, Copy)]
pub struct BspFace {
    pub plane_num: u16,
    pub side: u8,
    pub on_node: u8,
    pub first_edge: i32,
    pub num_edges: i16,
    pub tex_info: i16,
    pub disp_info: i16,
    pub surface_fog_volume_id: i16,
    pub styles: [u8; 4],
    pub lightmap_data_offset: i32,
    pub area: u32,
    pub lightmap_mins: [i32; 2],
    pub lightmap_size: [i32; 2],
    pub orig_face: i32,
    pub num_primitives: u16,
    pub first_primitive: u16,
    pub smoothing_groups: u32,
}

pub open spec fn s16(b: Seq<u8>, at: int) -> int {
    crate::bits::signed16(le_u16(b, at))
}

impl LumpRecord for BspFace {
    open spec fn spec_size() -> nat {
        56
    }

    open spec fn parsed_from(&self, b: Seq<u8>) -> bool {
        &&& self.plane_num as nat == le_u16(b, 0)
        &&& self.side == b[2]
        &&& self.on_node == b[3]
        &&& self.first_edge as int == le_i32(b, 4)
        &&& self.num_edges as int == s16(b, 8)
        &&& self.tex_info as int == s16(b, 10)
        &&& self.disp_info as int == s16(b, 12)
        &&& self.surface_fog_volume_id as int == s16(b, 14)
        &&& self.styles@ == b.subrange(16, 20)
        &&& self.lightmap_data_offset as int == le_i32(b, 20)
        &&& self.area as nat == le_u32(b, 24)
        &&& self.lightmap_mins@[0] as int == le_i32(b, 28)
        &&& self.lightmap_mins@[1] as int == le_i32(b, 32)
        &&& self.lightmap_size@[0] as int == le_i32(b, 36)
        &&& self.lightmap_size@[1] as int == le_i32(b, 40)
        &&& self.orig_face as int == le_i32(b, 44)
        &&& self.num_primitives as nat == le_u16(b, 48)
        &&& self.first_primitive as nat == le_u16(b, 50)
        &&& self.smoothing_groups as nat == le_u32(b, 52)
    }

    fn size() -> (r: usize) {
        56
    }

    fn parse(b: &[u8]) -> (r: BspFace) {
        let styles = [b[16], b[17], b[18], b[19]];
        assert(styles@ =~= b@.subrange(16, 20));
        BspFace {
            plane_num: u16_at(b, 0),
            side: b[2],
            on_node: b[3],
            first_edge: i32_at(b, 4),
            num_edges: i16_at(b, 8),
            tex_info: i16_at(b, 10),
            disp_info: i16_at(b, 12),
            surface_fog_volume_id: i16_at(b, 14),
            styles,
            lightmap_data_offset: i32_at(b, 20),
            area: u32_at(b, 24),
            lightmap_mins: [i32_at(b, 28), i32_at(b, 32)],
            lightmap_size: [i32_at(b, 36), i32_at(b, 40)],
            orig_face: i32_at(b, 44),
            num_primitives: u16_at(b, 48),
            first_primitive: u16_at(b, 50),
            smoothing_groups: u32_at(b, 52),
        }
    }
}

/// A brush model: bounds and origin (floats as bit patterns), head node and
/// face range.
#[derive(Debug, Clone, Copy, PartialEq, Eq, Structural)]
pub struct BspModel {
    pub mins: RawVec3,
    pub maxs: RawVec3,
    pub origin: RawVec3,
    pub head_node: i32,
    pub first_face: i32,
    pub num_faces: i32,
}

impl LumpRecord for BspModel {
    open spec fn spec_size() -> nat {
        48
    }

    open spec fn parsed_from(&self, b: Seq<u8>) -> bool {
        &&& vec3_in(self.mins, b, 0)
        &&& vec3_in(self.maxs, b, 12)
        &&& vec3_in(self.origin, b, 24)
        &&& self.head_node as int == le_i32(b, 36)
        &&& self.first_face as int == le_i32(b, 40)
        &&& self.num_faces as int == le_i32(b, 44)
    }

    fn size() -> (r: usize) {
        48
    }

    fn parse(b: &[u8]) -> (r: BspModel) {
        BspModel {
            mins: vec3_from(b, 0),
            maxs: vec3_from(b, 12),
            origin: vec3_from(b, 24),
            head_node: i32_at(b, 36),
            first_face: i32_at(b, 40),
            num_faces: i32_at(b, 44),
        }
    }
}

/// Texture projection of a face: two rows of four floats for the texture
/// and two for the lightmap, as bit patterns, then flags and texdata index.
#[derive(Debug, Clone)]
pub struct BspTexInfo {
    pub texture_vecs: Vec<u32>,
    pub lightmap_vecs: Vec<u32>,
    pub flags: u32,
    pub tex_data: i32,
}

/// The `n` little-endian 32-bit words at byte `at`.
pub open spec fn words_at(b: Seq<u8>, at: int, n: nat) -> Seq<u32> {
    Seq::new(n, |i: int| le_u32(b, at + 4 * i) as u32)
}

fn words_from(b: &[u8], at: usize, n: usize) -> (r: Vec<u32>)
    requires
        at + 4 * n <= b@.len(),
    ensures
        r@ == words_at(b@, at as int, n as nat),
{
    let mut out: Vec<u32> = Vec::new();
    let mut i: usize = 0;
    let len = b.len();
    while i < n
        invariant
            len == b@.len(),
            at + 4 * n <= b@.len(),
            i <= n,
            out@ =~= words_at(b@, at as int, i as nat),
        decreases n - i,
    {
        out.push(u32_at(b, at + 4 * i));
        i = i + 1;
    }
    out
}

impl LumpRecord for BspTexInfo {
    open spec fn spec_size() -> nat {
        72
    }

    open spec fn parsed_from(&self, b: Seq<u8>) -> bool {
        &&& self.texture_vecs@ == words_at(b, 0, 8)
        &&& self.lightmap_vecs@ == words_at(b, 32, 8)
        &&& self.flags as nat == le_u32(b, 64)
        &&& self.tex_data as int == le_i32(b, 68)
    }

    fn size() -> (r: usize) {
        72
    }

    fn parse(b: &[u8]) -> (r: BspTexInfo) {
        BspTexInfo {
            texture_vecs: words_from(b, 0, 8),
            lightmap_vecs: words_from(b, 32, 8),
            flags: u32_at(b, 64),
            tex_data: i32_at(b, 68),
        }
    }
}

/// A texture: reflectivity (floats as bit patterns), name index and sizes.
#[derive(Debug, Clone, Copy, PartialEq, Eq, Structural)]
pub struct BspTexData {
    pub reflectivity: RawVec3,
    /// Index into the texture name table.
    pub name_index: i32,
    pub width: i32,
    pub height: i32,
    pub view_width: i32,
    pub view_height: i32,
}

impl LumpRecord for BspTexData {
    open spec fn spec_size() -> nat {
        32
    }

    open spec fn parsed_from(&self, b: Seq<u8>) -> bool {
        &&& vec3_in(self.reflectivity, b, 0)
        &&& self.name_index as int == le_i32(b, 12)
        &&& self.width as int == le_i32(b, 16)
        &&& self.height as int == le_i32(b, 20)
        &&& self.view_width as int == le_i32(b, 24)
        &&& self.view_height as int == le_i32(b, 28)
    }

    fn size() -> (r: usize) {
        32
    }

    fn parse(b: &[u8]) -> (r: BspTexData) {
        BspTexData {
            reflectivity: vec3_from(b, 0),
            name_index: i32_at(b, 12),
            width: i32_at(b, 16),
            height: i32_at(b, 20),
            view_width: i32_at(b, 24),
            view_height: i32_at(b, 28),
        }
    }
}

/// A displacement surface; the start position and smoothing angle are
/// floats kept as bit patterns.
#[derive(Debug, Clone)]
pub struct BspDispInfo {
    pub start_position: RawVec3,
    pub disp_vert_start: i32,
    pub disp_tri_start: i32,
    pub power: i32,
    pub min_tess: i32,
    pub smoothing_angle: u32,
    pub contents: i32,
    pub map_face: u16,
    pub lightmap_alpha_start: i32,
    pub lightmap_sample_position_start: i32,
    pub neighbor_data: Vec<u8>,
    pub allowed_verts: Vec<u32>,
}

impl LumpRecord for BspDispInfo {
    open spec fn spec_size() -> nat {
        176
    }

    open spec fn parsed_from(&self, b: Seq<u8>) -> bool {
        &&& vec3_in(self.start_position, b, 0)
        &&& self.disp_vert_start as int == le_i32(b, 12)
        &&& self.disp_tri_start as int == le_i32(b, 16)
        &&& self.power as int == le_i32(b, 20)
        &&& self.min_tess as int == le_i32(b, 24)
        &&& self.smoothing_angle as nat == le_u32(b, 28)
        &&& self.contents as int == le_i32(b, 32)
        &&& self.map_face as nat == le_u16(b, 36)
        &&& self.lightmap_alpha_start as int == le_i32(b, 38)
        &&& self.lightmap_sample_position_start as int == le_i32(b, 42)
        &&& self.neighbor_data@ == b.subrange(46, 136)
        &&& self.allowed_verts@ == words_at(b, 136, 10)
    }

    fn size() -> (r: usize) {
        176
    }

    fn parse(b: &[u8]) -> (r: BspDispInfo) {
        BspDispInfo {
            start_position: vec3_from(b, 0),
            disp_vert_start: i32_at(b, 12),
            disp_tri_start: i32_at(b, 16),
            power: i32_at(b, 20),
            min_tess: i32_at(b, 24),
            smoothing_angle: u32_at(b, 28),
            contents: i32_at(b, 32),
            map_face: u16_at(b, 36),
            lightmap_alpha_start: i32_at(b, 38),
            lightmap_sample_position_start: i32_at(b, 42),
            neighbor_data: crate::reader::copy_range(b, 46, 136),
            allowed_verts: words_from(b, 136, 10),
        }
    }
}

/// A displacement vertex: offset vector, distance and alpha, floats kept as
/// bit patterns.
#[derive(Debug, Clone, Copy, PartialEq, Eq, Structural)]
pub struct BspDispVert {
    pub vec: RawVec3,
    pub dist: u32,
    pub alpha: u32,
}

impl LumpRecord for BspDispVert {
    open spec fn spec_size() -> nat {
        20
    }

    open spec fn parsed_from(&self, b: Seq<u8>) -> bool {
        &&& vec3_in(self.vec, b, 0)
        &&& self.dist as nat == le_u32(b, 12)
        &&& self.alpha as nat == le_u32(b, 16)
    }

    fn size() -> (r: usize) {
        20
    }

    fn parse(b: &[u8]) -> (r: BspDispVert) {
        BspDispVert { vec: vec3_from(b, 0), dist: u32_at(b, 12), alpha: u32_at(b, 16) }
    }
}

} // verus!
