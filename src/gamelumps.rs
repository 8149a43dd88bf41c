use vstd::arithmetic::div_mod::*;
use vstd::prelude::*;

use crate::error::DecodeError;
use crate::lumps::{u16_at, BspGameLump, LumpRecord, RawVec3};
use crate::reader::{copy_range, le_u16, le_u32, ByteReader};
use crate::text::{trim_trailing_nul, decoded_text};

verus! {

/// Id of the game lump that holds the static props ("sprp").
pub const STATIC_PROP_LUMP_ID: u32 = 0x73707270;

/// Byte width of one model name in the static-prop dictionary.
pub const STATIC_PROP_NAME_LEN: usize = 128;

/// The game-lump directory: a count, then that many entries.
#[derive(Debug, Clone)]
pub struct BspGameLumpHeader {
    pub lumps: Vec<BspGameLump>,
}

/// Where the game-lump directory at byte 0 of `d` ends.
pub open spec fn game_lump_dir_end(d: Seq<u8>) -> int {
    4 + 16 * le_u32(d, 0) as int
}

impl BspGameLumpHeader {
    /// Reads the directory at the start of `d`.
    pub fn read(d: &[u8]) -> (r: Result<BspGameLumpHeader, DecodeError>)
        ensures
            (d@.len() < 4 || game_lump_dir_end(d@) > d@.len()) ==> r == Err::<
                BspGameLumpHeader,
                DecodeError,
            >(DecodeError::TruncatedInput),
            !(d@.len() < 4 || game_lump_dir_end(d@) > d@.len()) ==> r is Ok,
            r is Ok ==> r->Ok_0.lumps@.len() == le_u32(d@, 0) && forall|i: int|
                0 <= i < r->Ok_0.lumps@.len() ==> (#[trigger] r->Ok_0.lumps@[i]).parsed_from(
                    d@.subrange(4 + 16 * i, 20 + 16 * i),
                ),
    {
        let n = d.len();
        if n < 4 {
            return Err(DecodeError::TruncatedInput);
        }
        let count = crate::lumps::u32_at(d, 0) as usize;
        if (n - 4) / 16 < count {
            return Err(DecodeError::TruncatedInput);
        }
        let mut lumps: Vec<BspGameLump> = Vec::new();
        let mut i: usize = 0;
        while i < count
            invariant
                n == d@.len(),
                count == le_u32(d@, 0),
                4 + 16 * count <= n,
                i <= count,
                lumps@.len() == i,
                forall|j: int|
                    0 <= j < i ==> (#[trigger] lumps@[j]).parsed_from(
                        d@.subrange(4 + 16 * j, 20 + 16 * j),
                    ),
            decreases count - i,
        {
            let chunk = copy_range(d, 4 + 16 * i, 20 + 16 * i);
            lumps.push(BspGameLump::parse(chunk.as_slice()));
            i = i + 1;
        }
        Ok(BspGameLumpHeader { lumps })
    }
}

/// The index of the first entry with id `id`, if any.
pub fn find_game_lump(lumps: &Vec<BspGameLump>, id: u32) -> (r: Option<usize>)
    ensures
        r is Some ==> r->0 < lumps@.len() && lumps@[r->0 as int].id == id && forall|j: int|
            0 <= j < r->0 ==> lumps@[j].id != id,
        r is None ==> forall|j: int| 0 <= j < lumps@.len() ==> lumps@[j].id != id,
{
    let mut i: usize = 0;
    while i < lumps.len()
        invariant
            i <= lumps@.len(),
            forall|j: int| 0 <= j < i ==> lumps@[j].id != id,
        decreases lumps@.len() - i,
    {
        if lumps[i].id == id {
            return Some(i);
        }
        i = i + 1;
    }
    None
}

/// Names of the models the static props use.
#[derive(Debug, Clone)]
pub struct StaticPropDictLump {
    pub names: Vec<String>,
}

/// `names` are the `count` padded names that follow byte `p + 4`.
pub open spec fn names_parsed(names: Seq<String>, d: Seq<u8>, p: int) -> bool {
    &&& names.len() == le_u32(d, p)
    &&& forall|i: int|
        0 <= i < names.len() ==> (#[trigger] names[i])@ == decoded_text(
            trim_trailing_nul(d.subrange(p + 4 + 128 * i, p + 4 + 128 * i + 128)),
        )
}

pub open spec fn dict_end(d: Seq<u8>, p: int) -> int {
    p + 4 + 128 * le_u32(d, p) as int
}

impl StaticPropDictLump {
    /// Reads a count, then that many 128-byte names padded with zero bytes.
    pub fn read(r: &mut ByteReader) -> (res: Result<StaticPropDictLump, DecodeError>)
        requires
            old(r).wf(),
        ensures
            ({
                let d = old(r).bytes();
                let p = old(r).pos();
                let bad = p + 4 > d.len() || dict_end(d, p) > d.len();
                &&& bad ==> res == Err::<StaticPropDictLump, DecodeError>(
                    DecodeError::TruncatedInput,
                )
                &&& !bad ==> res is Ok && old(r).at(final(r), dict_end(d, p))
                &&& res is Ok ==> names_parsed(res->Ok_0.names@, d, p)
            }),
    {
        let ghost d = r.bytes();
        let ghost p = r.pos();
        let count = r.read_u32()? as usize;
        if r.remaining() / STATIC_PROP_NAME_LEN < count {
            return Err(DecodeError::TruncatedInput);
        }
        let mut names: Vec<String> = Vec::new();
        let mut i: usize = 0;
        while i < count
            invariant
                r.wf(),
                r.bytes() == d,
                count == le_u32(d, p),
                p + 4 + 128 * count <= d.len(),
                r.pos() == p + 4 + 128 * i,
                i <= count,
                names@.len() == i,
                forall|j: int|
                    0 <= j < i ==> (#[trigger] names@[j])@ == decoded_text(
                        trim_trailing_nul(d.subrange(p + 4 + 128 * j, p + 4 + 128 * j + 128)),
                    ),
            decreases count - i,
        {
            let s = r.read_string(STATIC_PROP_NAME_LEN)?;
            names.push(s);
            i = i + 1;
        }
        Ok(StaticPropDictLump { names })
    }
}

/// Leaf indices of the static props.
#[derive(Debug, Clone)]
pub struct StaticPropLeafLump {
    pub leaf: Vec<u16>,
}

pub open spec fn leaf_end(d: Seq<u8>, p: int) -> int {
    p + 4 + 2 * le_u32(d, p) as int
}

impl StaticPropLeafLump {
    /// Reads a count, then that many 16-bit leaf indices.
    pub fn read(r: &mut ByteReader) -> (res: Result<StaticPropLeafLump, DecodeError>)
        requires
            old(r).wf(),
        ensures
            ({
                let d = old(r).bytes();
                let p = old(r).pos();
                let bad = p + 4 > d.len() || leaf_end(d, p) > d.len();
                &&& bad ==> res == Err::<StaticPropLeafLump, DecodeError>(
                    DecodeError::TruncatedInput,
                )
                &&& !bad ==> res is Ok && old(r).at(final(r), leaf_end(d, p))
                &&& res is Ok ==> res->Ok_0.leaf@.len() == le_u32(d, p) && forall|i: int|
                    0 <= i < res->Ok_0.leaf@.len() ==> #[trigger] res->Ok_0.leaf@[i] as nat
                        == le_u16(d, p + 4 + 2 * i)
            }),
    {
        let ghost d = r.bytes();
        let ghost p = r.pos();
        let count = r.read_u32()? as usize;
        if r.remaining() / 2 < count {
            return Err(DecodeError::TruncatedInput);
        }
        let mut leaf: Vec<u16> = Vec::new();
        let mut i: usize = 0;
        while i < count
            invariant
                r.wf(),
                r.bytes() == d,
                count == le_u32(d, p),
                p + 4 + 2 * count <= d.len(),
                r.pos() == p + 4 + 2 * i,
                i <= count,
                leaf@.len() == i,
                forall|j: int| 0 <= j < i ==> #[trigger] leaf@[j] as nat == le_u16(d, p + 4 + 2 * j),
            decreases count - i,
        {
            let v = r.read_u16()?;
            leaf.push(v);
            i = i + 1;
        }
        Ok(StaticPropLeafLump { leaf })
    }
}

/// The leading fields of one static-prop record; angles and origin are
/// single-precision floats kept as bit patterns.
#[derive(Debug, Clone, Copy, PartialEq, Eq, Structural)]
pub struct StaticPropLump {
    pub origin: RawVec3,
    pub angles: RawVec3,
    pub model_index: u16,
    pub first_leaf: u16,
    pub leaf_count: u16,
    pub solid: u8,
}

/// Bytes of a static-prop record that are decoded.
pub const STATIC_PROP_SIZE: usize = 31;

impl LumpRecord for StaticPropLump {
    open spec fn spec_size() -> nat {
        31
    }

    open spec fn parsed_from(&self, b: Seq<u8>) -> bool {
        &&& self.origin.parsed_from(b.subrange(0, 12))
        &&& self.angles.parsed_from(b.subrange(12, 24))
        &&& self.model_index as nat == le_u16(b, 24)
        &&& self.first_leaf as nat == le_u16(b, 26)
        &&& self.leaf_count as nat == le_u16(b, 28)
        &&& self.solid == b[30]
    }

    fn size() -> (r: usize) {
        STATIC_PROP_SIZE
    }

    fn parse(b: &[u8]) -> (r: StaticPropLump) {
        let o = copy_range(b, 0, 12);
        let a = copy_range(b, 12, 24);
        StaticPropLump {
            origin: RawVec3::parse(o.as_slice()),
            angles: RawVec3::parse(a.as_slice()),
            model_index: u16_at(b, 24),
            first_leaf: u16_at(b, 26),
            leaf_count: u16_at(b, 28),
            solid: b[30],
        }
    }
}

/// The static-prop game lump: model names, leaf indices and the props.
#[derive(Debug, Clone)]
pub struct StaticPropSection {
    pub names: Vec<String>,
    pub leaf: Vec<u16>,
    pub props: Vec<StaticPropLump>,
}

/// Byte at which the prop count of the section in `d` stands.
pub open spec fn prop_count_at(d: Seq<u8>) -> int {
    leaf_end(d, dict_end(d, 0))
}

/// The prop records start here.
pub open spec fn props_start(d: Seq<u8>) -> int {
    prop_count_at(d) + 4
}

pub open spec fn prop_count(d: Seq<u8>) -> nat {
    le_u32(d, prop_count_at(d))
}

/// The dictionary, the leaf list or the prop count runs past the end.
pub open spec fn section_truncated(d: Seq<u8>) -> bool {
    4 > d.len() || dict_end(d, 0) > d.len() || dict_end(d, 0) + 4 > d.len()
        || prop_count_at(d) > d.len() || props_start(d) > d.len()
}

/// The bytes after the prop count cannot be split into `count` records of
/// one size that holds the decoded fields.
pub open spec fn section_size_mismatch(d: Seq<u8>) -> bool {
    let rest = d.len() - props_start(d);
    prop_count(d) > 0 && (rest % (prop_count(d) as int) != 0 || rest / (prop_count(d) as int)
        < STATIC_PROP_SIZE)
}

/// Byte size of each prop record: what remains divided by the count.
pub open spec fn prop_stride(d: Seq<u8>) -> int {
    (d.len() - props_start(d)) / (prop_count(d) as int)
}

/// `s` is the static-prop section held in `d`.
pub open spec fn section_parsed(s: StaticPropSection, d: Seq<u8>) -> bool {
    &&& names_parsed(s.names@, d, 0)
    &&& s.leaf@.len() == le_u32(d, dict_end(d, 0))
    &&& forall|i: int|
        0 <= i < s.leaf@.len() ==> #[trigger] s.leaf@[i] as nat == le_u16(
            d,
            dict_end(d, 0) + 4 + 2 * i,
        )
    &&& s.props@.len() == prop_count(d)
    &&& forall|i: int|
        0 <= i < s.props@.len() ==> (#[trigger] s.props@[i]).parsed_from(
            d.subrange(
                props_start(d) + i * prop_stride(d),
                props_start(d) + i * prop_stride(d) + 31,
            ),
        )
}

/// Reads a static-prop section: the name dictionary, the leaf list, then a
/// prop count and that many records that share the rest of the bytes
/// equally.
pub fn read_static_props(data: &[u8]) -> (r: Result<StaticPropSection, DecodeError>)
    ensures
        section_truncated(data@) ==> r == Err::<StaticPropSection, DecodeError>(
            DecodeError::TruncatedInput,
        ),
        !section_truncated(data@) && section_size_mismatch(data@) ==> r == Err::<
            StaticPropSection,
            DecodeError,
        >(DecodeError::RecordSizeMismatch),
        !section_truncated(data@) && !section_size_mismatch(data@) ==> r is Ok,
        r is Ok ==> section_parsed(r->Ok_0, data@),
{
    let mut rd = ByteReader::new(copy_range(data, 0, data.len()));
    assert(data@.subrange(0, data@.len() as int) =~= data@);
    let dict = StaticPropDictLump::read(&mut rd)?;
    let leafs = StaticPropLeafLump::read(&mut rd)?;
    let count = rd.read_u32()? as usize;
    let start = rd.position();
    let mut props: Vec<StaticPropLump> = Vec::new();
    if count == 0 {
        return Ok(StaticPropSection { names: dict.names, leaf: leafs.leaf, props });
    }
    let rest = rd.remaining();
    if rest % count != 0 || rest / count < STATIC_PROP_SIZE {
        return Err(DecodeError::RecordSizeMismatch);
    }
    let stride = rest / count;
    proof {
        lemma_fundamental_div_mod(rest as int, count as int);
        vstd::arithmetic::mul::lemma_mul_is_commutative(stride as int, count as int);
    }
    let ghost d = data@;
    let n = data.len();
    let mut i: usize = 0;
    while i < count
        invariant
            d == data@,
            n == d.len(),
            start == props_start(d),
            count == prop_count(d),
            count > 0,
            stride == prop_stride(d),
            rest == d.len() - start,
            rest == stride * count,
            stride >= 31,
            i <= count,
            props@.len() == i,
            forall|j: int|
                0 <= j < i ==> (#[trigger] props@[j]).parsed_from(
                    d.subrange(start + j * stride, start + j * stride + 31),
                ),
        decreases count - i,
    {
        proof {
            assert(i * stride + stride <= count * stride) by (nonlinear_arith)
                requires
                    i + 1 <= count,
                    stride >= 0,
            ;
            assert(i * stride >= 0) by (nonlinear_arith)
                requires
                    i >= 0,
                    stride >= 0,
            ;
            vstd::arithmetic::mul::lemma_mul_is_commutative(stride as int, count as int);
        }
        let at = start + i * stride;
        let chunk = copy_range(data, at, at + STATIC_PROP_SIZE);
        props.push(StaticPropLump::parse(chunk.as_slice()));
        i = i + 1;
    }
    proof {
        lemma_fundamental_div_mod(rest as int, count as int);
    }
    Ok(StaticPropSection { names: dict.names, leaf: leafs.leaf, props })
}

} // verus!
