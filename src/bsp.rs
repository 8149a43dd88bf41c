use vstd::arithmetic::div_mod::*;
use vstd::prelude::*;

use crate::error::DecodeError;
use crate::gamelumps::{
    find_game_lump, game_lump_dir_end, read_static_props, section_parsed, section_size_mismatch,
    section_truncated, BspGameLumpHeader, StaticPropLump, StaticPropSection, STATIC_PROP_LUMP_ID,
};
use crate::lumps::{
    i32_at, u32_at, BspColorRgbExp, BspDispInfo, BspDispTri, BspDispVert, BspEdge, BspFace,
    BspGameLump, BspModel, BspPlane, BspTexData, BspTexInfo, LumpRecord, RawVec3,
};
use crate::text::{text_from_bytes, decoded_text};
use crate::reader::{copy_range, le_i32, le_u32, le_u64, le_u64_bytes, pow256};

verus! {

/// Number of entries in the lump directory.
pub const BSP_LUMP_COUNT: usize = 64;

/// Byte size of the file header: magic, version, lump directory.
pub const BSP_HEADER_SIZE: usize = 1032;

/// What lzma-rs makes of a complete LZMA stream (5 property bytes, 64-bit
/// little-endian size, compressed data): the bytes, or `None` on failure.
pub uninterp spec fn lzma_decoded(input: Seq<u8>) -> Option<Seq<u8>>;

#[verifier::external_type_specification]
#[verifier::external_body]
pub struct ExLzmaError(lzma_rs::error::Error);

/// Relies on `lzma_rs::lzma_decompress`: with default options it decodes the
/// stream or fails, as a function of the input bytes alone; when the 64-bit
/// size after the 5 property bytes is not all ones, it fails unless the
/// output has exactly that length.
#[verifier::external_body]
fn lzma_decompress(input: &[u8]) -> (r: Result<Vec<u8>, lzma_rs::error::Error>)
    ensures
        r is Ok <==> lzma_decoded(input@) is Some,
        r is Ok ==> lzma_decoded(input@) == Some(r->Ok_0@),
        r is Ok && input@.len() >= 13 && le_u64(input@, 5) != 0xFFFF_FFFF_FFFF_FFFFnat
            ==> r->Ok_0@.len() == le_u64(input@, 5),
{
    let mut src = input;
    let mut out = Vec::new();
    lzma_rs::lzma_decompress(&mut src, &mut out).map(|_| out)
}

/// One entry of the lump directory.
#[derive(Debug, Clone, Copy)]
pub struct BspLump {
    pub offset: u32,
    pub length: u32,
    pub version: i32,
    pub fourcc: [u8; 4],
}

/// The directory entry layout, under the name the lump headers use.
pub type BspLumpHeader = BspLump;

/// `l` is the directory entry stored at byte `at` of `d`.
pub open spec fn lump_parsed(l: BspLump, d: Seq<u8>, at: int) -> bool {
    &&& l.offset as nat == le_u32(d, at)
    &&& l.length as nat == le_u32(d, at + 4)
    &&& l.version as int == le_i32(d, at + 8)
    &&& l.fourcc@ == d.subrange(at + 12, at + 16)
}

fn read_lump_entry(d: &[u8], at: usize) -> (r: BspLump)
    requires
        at + 16 <= d@.len(),
    ensures
        lump_parsed(r, d@, at as int),
{
    let n = d.len();
    let fourcc = [d[at + 12], d[at + 13], d[at + 14], d[at + 15]];
    assert(fourcc@ =~= d@.subrange(at + 12, at + 16));
    BspLump { offset: u32_at(d, at), length: u32_at(d, at + 4), version: i32_at(d, at + 8), fourcc }
}

#[derive(Debug)]
pub struct BspHeader {
    pub version: i32,
    pub lumps: Vec<BspLump>,
}

pub open spec fn vbsp_magic() -> Seq<u8> {
    seq![0x56u8, 0x42, 0x53, 0x50]
}

pub open spec fn lzma_magic() -> Seq<u8> {
    seq![0x4Cu8, 0x5A, 0x4D, 0x41]
}

/// `h` is the header at the start of `d`.
pub open spec fn header_parsed(h: &BspHeader, d: Seq<u8>) -> bool {
    &&& h.version as int == le_i32(d, 4)
    &&& h.lumps@.len() == BSP_LUMP_COUNT
    &&& forall|i: int| 0 <= i < BSP_LUMP_COUNT ==> lump_parsed(#[trigger] h.lumps@[i], d, 8 + 16 * i)
}

/// The bytes of a lump that starts with the LZMA marker, rebuilt as a
/// standard stream: the 5 property bytes, the uncompressed size as 8
/// little-endian bytes, then the compressed bytes.
pub open spec fn lzma_frame(d: Seq<u8>, off: int) -> Seq<u8> {
    d.subrange(off + 12, off + 17) + le_u64_bytes(le_u32(d, off + 4)) + d.subrange(
        off + 17,
        off + 17 + le_u32(d, off + 8),
    )
}

/// The lump at `off` of `length` bytes starts with the LZMA marker.
pub open spec fn lzma_tagged(d: Seq<u8>, off: int, length: int) -> bool {
    length >= 4 && off + 4 <= d.len() && d.subrange(off, off + 4) == lzma_magic()
}

/// What reading `length` bytes at `off` gives: the bytes themselves, or,
/// behind the LZMA marker, the decompressed bytes.
pub open spec fn raw_lump(d: Seq<u8>, off: int, length: int) -> Result<Seq<u8>, DecodeError> {
    if lzma_tagged(d, off, length) {
        if off + 17 + le_u32(d, off + 8) > d.len() {
            Err(DecodeError::TruncatedInput)
        } else {
            match lzma_decoded(lzma_frame(d, off)) {
                Some(v) => Ok(v),
                None => Err(DecodeError::CompressionError),
            }
        }
    } else if off + length > d.len() {
        Err(DecodeError::TruncatedInput)
    } else {
        Ok(d.subrange(off, off + length))
    }
}

/// A lump that does not start with the compression marker and lies inside
/// the file reads back as exactly its `length` bytes, unmodified.
pub proof fn lemma_plain_lump_unmodified(d: Seq<u8>, off: int, length: int)
    requires
        0 <= off,
        0 <= length,
        off + length <= d.len(),
        !(off + 4 <= d.len() && d.subrange(off, off + 4) == lzma_magic()),
    ensures
        raw_lump(d, off, length) == Ok::<Seq<u8>, DecodeError>(d.subrange(off, off + length)),
        raw_lump(d, off, length)->Ok_0.len() == length,
        forall|i: int|
            0 <= i < length ==> #[trigger] raw_lump(d, off, length)->Ok_0[i] == d[off + i],
{
}

/// The exec result `r` is the spec result `s`.
pub open spec fn bytes_result(r: Result<Vec<u8>, DecodeError>, s: Result<Seq<u8>, DecodeError>) -> bool {
    match s {
        Ok(v) => r is Ok && r->Ok_0@ == v,
        Err(e) => r == Err::<Vec<u8>, DecodeError>(e),
    }
}

/// The 8 little-endian bytes of `v`.
fn le_u64_vec(v: u32) -> (r: Vec<u8>)
    ensures
        r@ == le_u64_bytes(v as nat),
{
    let mut out: Vec<u8> = Vec::new();
    let mut rest: u64 = v as u64;
    let mut i: usize = 0;
    assert(pow256(0) == 1);
    while i < 8
        invariant
            i <= 8,
            out@.len() == i,
            rest == v as nat / pow256(i as int),
            forall|j: int| 0 <= j < i ==> out@[j] == ((v as nat / pow256(j)) % 256) as u8,
        decreases 8 - i,
    {
        proof {
            assert(pow256(i as int) > 0) by {
                lemma_pow256_pos(i as int);
            }
            lemma_div_denominator(v as int, pow256(i as int) as int, 256);
            assert(pow256(i + 1) == 256 * pow256(i as int));
            vstd::arithmetic::mul::lemma_mul_is_commutative(256, pow256(i as int) as int);
        }
        out.push((rest % 256) as u8);
        rest = rest / 256;
        i = i + 1;
    }
    assert(out@ =~= le_u64_bytes(v as nat));
    out
}

/// The size field of a rebuilt stream reads back as the size.
proof fn lemma_le_u64_of_u32(v: u32, f: Seq<u8>)
    requires
        f.len() >= 13,
        f.subrange(5, 13) == le_u64_bytes(v as nat),
    ensures
        le_u64(f, 5) == v,
{
    reveal_with_fuel(pow256, 9);
    let b = le_u64_bytes(v as nat);
    assert(f[5] == b[0] && f[6] == b[1] && f[7] == b[2] && f[8] == b[3]);
    assert(f[9] == b[4] && f[10] == b[5] && f[11] == b[6] && f[12] == b[7]);
    assert(pow256(4) == 4294967296);
    assert(pow256(5) == 1099511627776);
    assert(pow256(6) == 281474976710656);
    assert(pow256(7) == 72057594037927936);
    assert(v / 1 % 256 + 256 * (v / 256 % 256) + 65536 * (v / 65536 % 256) + 16777216 * (v
        / 16777216 % 256) == v) by (bit_vector);
    assert((v as nat / 4294967296) == 0);
    assert((v as nat / 1099511627776) == 0);
    assert((v as nat / 281474976710656) == 0);
    assert((v as nat / 72057594037927936) == 0);
}

proof fn lemma_pow256_pos(i: int)
    ensures
        pow256(i) > 0,
    decreases i,
{
    if i > 0 {
        lemma_pow256_pos(i - 1);
    }
}

/// A level file held in memory, with its parsed directory.
pub struct BspFile {
    data: Vec<u8>,
    pub header: BspHeader,
}

impl BspFile {
    pub closed spec fn bytes(&self) -> Seq<u8> {
        self.data@
    }

    /// Entry `i` of the directory.
    pub closed spec fn lump_at(&self, i: int) -> BspLump {
        self.header.lumps@[i]
    }

    pub closed spec fn version_field(&self) -> i32 {
        self.header.version
    }

    /// The directory is the one stored in the bytes.
    pub closed spec fn wf(&self) -> bool {
        header_parsed(&self.header, self.bytes())
    }

    /// Checks the magic and reads the version and the lump directory.
    pub fn new(data: Vec<u8>) -> (r: Result<BspFile, DecodeError>)
        ensures
            data@.len() < 4 ==> r == Err::<BspFile, DecodeError>(DecodeError::TruncatedInput),
            data@.len() >= 4 && data@.subrange(0, 4) != vbsp_magic() ==> r == Err::<
                BspFile,
                DecodeError,
            >(DecodeError::MalformedHeader),
            data@.len() >= 4 && data@.subrange(0, 4) == vbsp_magic() && data@.len()
                < BSP_HEADER_SIZE ==> r == Err::<BspFile, DecodeError>(DecodeError::TruncatedInput),
            data@.len() >= BSP_HEADER_SIZE && data@.subrange(0, 4) == vbsp_magic() ==> r is Ok,
            r is Ok ==> r->Ok_0.bytes() == data@ && r->Ok_0.wf() && r->Ok_0.version_field() as int
                == le_i32(data@, 4) && forall|i: int|
                0 <= i < BSP_LUMP_COUNT ==> lump_parsed(#[trigger] r->Ok_0.lump_at(i), data@, 8 + 16 * i),
    {
        if data.len() < 4 {
            return Err(DecodeError::TruncatedInput);
        }
        if !(data[0] == 0x56 && data[1] == 0x42 && data[2] == 0x53 && data[3] == 0x50) {
            proof {
                if data@.subrange(0, 4) == vbsp_magic() {
                    assert(data@.subrange(0, 4)[0] == data@[0]);
                    assert(data@.subrange(0, 4)[1] == data@[1]);
                    assert(data@.subrange(0, 4)[2] == data@[2]);
                    assert(data@.subrange(0, 4)[3] == data@[3]);
                }
            }
            return Err(DecodeError::MalformedHeader);
        }
        assert(data@.subrange(0, 4) =~= vbsp_magic());
        if data.len() < BSP_HEADER_SIZE {
            return Err(DecodeError::TruncatedInput);
        }
        let version = i32_at(data.as_slice(), 4);
        let mut lumps: Vec<BspLump> = Vec::new();
        let mut i: usize = 0;
        while i < BSP_LUMP_COUNT
            invariant
                i <= BSP_LUMP_COUNT,
                data@.len() >= BSP_HEADER_SIZE,
                lumps@.len() == i,
                forall|j: int| 0 <= j < i ==> lump_parsed(#[trigger] lumps@[j], data@, 8 + 16 * j),
            decreases BSP_LUMP_COUNT - i,
        {
            let l = read_lump_entry(data.as_slice(), 8 + 16 * i);
            lumps.push(l);
            i = i + 1;
        }
        Ok(BspFile { data, header: BspHeader { version, lumps } })
    }

    /// Reads `length` bytes at `offset`. A lump of at least four bytes that
    /// starts with the LZMA marker holds its uncompressed size, its compressed
    /// size and five property bytes, then the compressed bytes; it is
    /// decompressed.
    pub fn read_lump_raw_offset(&self, offset: u64, length: usize) -> (r: Result<Vec<u8>, DecodeError>)
        ensures
            bytes_result(r, raw_lump(self.bytes(), offset as int, length as int)),
            r is Ok && lzma_tagged(self.bytes(), offset as int, length as int) ==> r->Ok_0@.len()
                == le_u32(self.bytes(), offset + 4),
    {
        let d = &self.data;
        let n = d.len();
        let tagged = length >= 4 && offset <= n as u64 && n - (offset as usize) >= 4 && {
            let o = offset as usize;
            d[o] == 0x4C && d[o + 1] == 0x5A && d[o + 2] == 0x4D && d[o + 3] == 0x41
        };
        proof {
            let o = offset as int;
            if length >= 4 && o + 4 <= n {
                let s = d@.subrange(o, o + 4);
                if tagged {
                    assert(s =~= lzma_magic());
                } else if s == lzma_magic() {
                    assert(s[0] == d@[o] && s[1] == d@[o + 1] && s[2] == d@[o + 2] && s[3] == d@[o
                        + 3]);
                }
            }
        }
        if tagged {
            let o = offset as usize;
            if n - o < 17 {
                return Err(DecodeError::TruncatedInput);
            }
            let actual_size = u32_at(d.as_slice(), o + 4);
            let lzma_size = u32_at(d.as_slice(), o + 8);
            if ((n - o - 17) as u64) < lzma_size as u64 {
                return Err(DecodeError::TruncatedInput);
            }
            let mut frame = copy_range(d.as_slice(), o + 12, o + 17);
            let mut size_bytes = le_u64_vec(actual_size);
            let mut body = copy_range(d.as_slice(), o + 17, o + 17 + lzma_size as usize);
            frame.append(&mut size_bytes);
            frame.append(&mut body);
            assert(frame@ =~= lzma_frame(d@, o as int));
            proof {
                assert(frame@.subrange(5, 13) =~= le_u64_bytes(actual_size as nat));
                lemma_le_u64_of_u32(actual_size, frame@);
            }
            match lzma_decompress(frame.as_slice()) {
                Ok(v) => Ok(v),
                Err(_) => Err(DecodeError::CompressionError),
            }
        } else {
            if offset > n as u64 || n - (offset as usize) < length {
                return Err(DecodeError::TruncatedInput);
            }
            let o = offset as usize;
            Ok(copy_range(d.as_slice(), o, o + length))
        }
    }

    /// Reads lump `index` of the directory, decompressed if it is compressed.
    pub fn read_lump_raw(&self, index: usize) -> (r: Result<Vec<u8>, DecodeError>)
        requires
            self.wf(),
        ensures
            index >= BSP_LUMP_COUNT ==> r == Err::<Vec<u8>, DecodeError>(
                DecodeError::IndexNotFound,
            ),
            index < BSP_LUMP_COUNT ==> bytes_result(
                r,
                raw_lump(
                    self.bytes(),
                    self.lump_at(index as int).offset as int,
                    self.lump_at(index as int).length as int,
                ),
            ),
            index < BSP_LUMP_COUNT && r is Ok && lzma_tagged(
                self.bytes(),
                self.lump_at(index as int).offset as int,
                self.lump_at(index as int).length as int,
            ) ==> r->Ok_0@.len() == le_u32(self.bytes(), self.lump_at(index as int).offset + 4),
    {
        if index >= self.header.lumps.len() {
            return Err(DecodeError::IndexNotFound);
        }
        let lump = self.header.lumps[index];
        self.read_lump_raw_offset(lump.offset as u64, lump.length as usize)
    }

    /// Decodes the records of lump `index`, at most `max` of them. A last
    /// record cut short by the end of the lump is an error.
    pub fn read_lump_ex<T: LumpRecord>(&self, index: usize, max: usize) -> (r: Result<
        Vec<T>,
        DecodeError,
    >)
        requires
            self.wf(),
        ensures
            index >= BSP_LUMP_COUNT ==> r == Err::<Vec<T>, DecodeError>(
                DecodeError::IndexNotFound,
            ),
            index < BSP_LUMP_COUNT ==> match raw_lump(
                self.bytes(),
                self.lump_at(index as int).offset as int,
                self.lump_at(index as int).length as int,
            ) {
                Ok(b) => records_result(r, b, max as nat),
                Err(e) => r == Err::<Vec<T>, DecodeError>(e),
            },
    {
        let data = self.read_lump_raw(index)?;
        decode_records(data.as_slice(), max)
    }

    /// Decodes all the records of lump `index`.
    pub fn read_lump<T: LumpRecord>(&self, index: usize) -> (r: Result<Vec<T>, DecodeError>)
        requires
            self.wf(),
        ensures
            index >= BSP_LUMP_COUNT ==> r == Err::<Vec<T>, DecodeError>(
                DecodeError::IndexNotFound,
            ),
            index < BSP_LUMP_COUNT ==> match raw_lump(
                self.bytes(),
                self.lump_at(index as int).offset as int,
                self.lump_at(index as int).length as int,
            ) {
                Ok(b) => records_result(r, b, usize::MAX as nat),
                Err(e) => r == Err::<Vec<T>, DecodeError>(e),
            },
    {
        self.read_lump_ex(index, usize::MAX)
    }
}

/// Decoding at most `max` records of `T` from `b` gives `r`: an error when a
/// record that would be read is cut short, else the records in order.
pub open spec fn records_result<T: LumpRecord>(r: Result<Vec<T>, DecodeError>, b: Seq<u8>, max: nat) -> bool {
    let size = T::spec_size();
    let whole = b.len() / size;
    if whole < max && b.len() % size != 0 {
        r == Err::<Vec<T>, DecodeError>(DecodeError::RecordSizeMismatch)
    } else {
        &&& r is Ok
        &&& r->Ok_0@.len() == if whole < max {
            whole
        } else {
            max
        }
        &&& forall|i: int|
            0 <= i < r->Ok_0@.len() ==> (#[trigger] r->Ok_0@[i]).parsed_from(
                b.subrange(i * size, i * size + size),
            )
    }
}

/// Decodes back-to-back records of `T` from `b`, at most `max` of them.
pub fn decode_records<T: LumpRecord>(b: &[u8], max: usize) -> (r: Result<Vec<T>, DecodeError>)
    ensures
        records_result(r, b@, max as nat),
{
    let size = T::size();
    let whole = b.len() / size;
    if whole < max && b.len() % size != 0 {
        return Err(DecodeError::RecordSizeMismatch);
    }
    let count = if whole < max {
        whole
    } else {
        max
    };
    let mut out: Vec<T> = Vec::new();
    let mut i: usize = 0;
    let n = b.len();
    while i < count
        invariant
            n == b@.len(),
            size == T::spec_size(),
            size > 0,
            count <= whole,
            whole == b@.len() / (size as nat),
            i <= count,
            out@.len() == i,
            forall|j: int|
                0 <= j < i ==> (#[trigger] out@[j]).parsed_from(
                    b@.subrange(j * size, j * size + size),
                ),
        decreases count - i,
    {
        proof {
            let len = b@.len() as int;
            let sz = size as int;
            lemma_fundamental_div_mod(len, sz);
            assert(whole * sz <= len) by (nonlinear_arith)
                requires
                    len == sz * (len / sz) + len % sz,
                    whole == len / sz,
                    len % sz >= 0,
            ;
            assert(i * sz + sz <= len) by (nonlinear_arith)
                requires
                    i + 1 <= whole,
                    whole * sz <= len,
                    sz > 0,
            ;
            assert(i * sz >= 0) by (nonlinear_arith)
                requires
                    i >= 0,
                    sz > 0,
            ;
        }
        let start = i * size;
        let chunk = copy_range(b, start, start + size);
        let rec = T::parse(chunk.as_slice());
        out.push(rec);
        i = i + 1;
    }
    Ok(out)
}

/// Index of the first zero byte of `d` at or after `i`, or `d.len()`.
pub open spec fn first_zero(d: Seq<u8>, i: int) -> int
    decreases d.len() - i,
{
    if i >= d.len() {
        d.len() as int
    } else if d[i] == 0 {
        i
    } else {
        first_zero(d, i + 1)
    }
}

/// The name given to a texture whose string is not terminated.
pub open spec fn invalid_name() -> Seq<char> {
    "INVALID_STRING"@
}

/// The texture name that starts at byte `off` of the string data.
pub open spec fn texdata_string(d: Seq<u8>, off: int) -> Seq<char> {
    if off <= d.len() && first_zero(d, off) < d.len() {
        decoded_text(d.subrange(off, first_zero(d, off)))
    } else {
        invalid_name()
    }
}

fn find_zero(d: &[u8], from: usize) -> (r: usize)
    ensures
        from <= d@.len() ==> r == first_zero(d@, from as int) && from <= r <= d@.len(),
        from > d@.len() ==> r == d@.len(),
{
    let n = d.len();
    if from > n {
        return n;
    }
    let mut i = from;
    while i < n
        invariant
            n == d@.len(),
            from <= i <= n,
            first_zero(d@, from as int) == first_zero(d@, i as int),
        decreases n - i,
    {
        if d[i] == 0 {
            return i;
        }
        i = i + 1;
    }
    i
}

/// Looks up each texture name of the string table: the text from its
/// offset up to the next zero byte.
pub fn texdata_strings(data: &[u8], offsets: &Vec<u32>) -> (r: Vec<String>)
    ensures
        r@.len() == offsets@.len(),
        forall|i: int|
            0 <= i < offsets@.len() ==> (#[trigger] r@[i])@ == texdata_string(
                data@,
                offsets@[i] as int,
            ),
{
    let mut out: Vec<String> = Vec::new();
    let mut i: usize = 0;
    while i < offsets.len()
        invariant
            i <= offsets@.len(),
            out@.len() == i,
            forall|k: int|
                0 <= k < i ==> (#[trigger] out@[k])@ == texdata_string(data@, offsets@[k] as int),
        decreases offsets@.len() - i,
    {
        let off = offsets[i] as usize;
        let z = find_zero(data, off);
        if off <= data.len() && z < data.len() {
            let bytes = copy_range(data, off, z);
            out.push(text_from_bytes(bytes.as_slice()));
        } else {
            out.push("INVALID_STRING".to_owned());
        }
        i = i + 1;
    }
    out
}

/// The bytes of lump `k` of `f`.
pub open spec fn lump_data(f: &BspFile, k: int) -> Result<Seq<u8>, DecodeError> {
    raw_lump(f.bytes(), f.lump_at(k).offset as int, f.lump_at(k).length as int)
}

/// The exec result `r` fails exactly with `e`, or succeeds where `e` is `None`.
pub open spec fn fails_with<T>(r: Result<T, DecodeError>, e: Option<DecodeError>) -> bool {
    match r {
        Ok(_) => e is None,
        Err(x) => e == Some(x),
    }
}

/// Why reading lump `k` fails, if it does.
pub open spec fn lump_error(f: &BspFile, k: int) -> Option<DecodeError> {
    match lump_data(f, k) {
        Ok(_) => None,
        Err(e) => Some(e),
    }
}

/// Why decoding lump `k` into records of `T` fails, if it does.
pub open spec fn records_error<T: LumpRecord>(f: &BspFile, k: int) -> Option<DecodeError> {
    match lump_data(f, k) {
        Ok(b) => if b.len() / T::spec_size() < usize::MAX && b.len() % T::spec_size() != 0 {
            Some(DecodeError::RecordSizeMismatch)
        } else {
            None
        },
        Err(e) => Some(e),
    }
}

/// `v` holds the records of lump `k`.
pub open spec fn lump_records<T: LumpRecord>(f: &BspFile, k: int, v: Vec<T>) -> bool {
    match lump_data(f, k) {
        Ok(b) => records_result(Ok::<Vec<T>, DecodeError>(v), b, usize::MAX as nat),
        Err(_) => false,
    }
}

/// Why the entity text (lump 0 up to its first zero byte) cannot be read.
pub open spec fn entities_error(f: &BspFile) -> Option<DecodeError> {
    match lump_data(f, 0) {
        Ok(b) => if first_zero(b, 0) < b.len() {
            None
        } else {
            Some(DecodeError::TruncatedInput)
        },
        Err(e) => Some(e),
    }
}

/// Why the game-lump directory (lump 35) cannot be read.
pub open spec fn game_lumps_error(f: &BspFile) -> Option<DecodeError> {
    match lump_data(f, 35) {
        Ok(b) => if b.len() < 4 || game_lump_dir_end(b) > b.len() {
            Some(DecodeError::TruncatedInput)
        } else {
            None
        },
        Err(e) => Some(e),
    }
}

/// The game-lump directory stored in lump 35.
pub open spec fn game_lumps_of(f: &BspFile) -> Seq<BspGameLump> {
    let b = lump_data(f, 35)->Ok_0;
    Seq::new(
        le_u32(b, 0),
        |i: int|
            BspGameLump {
                id: le_u32(b, 4 + 16 * i) as u32,
                flags: crate::reader::le_u16(b, 8 + 16 * i) as u16,
                version: crate::reader::le_u16(b, 10 + 16 * i) as u16,
                fileofs: le_u32(b, 12 + 16 * i) as u32,
                filelen: le_u32(b, 16 + 16 * i) as u32,
            },
    )
}

/// `i` is the first entry of `lumps` with the static-prop id.
pub open spec fn first_static_prop_lump(lumps: Seq<BspGameLump>, i: int) -> bool {
    &&& 0 <= i < lumps.len()
    &&& lumps[i].id == STATIC_PROP_LUMP_ID
    &&& forall|j: int| 0 <= j < i ==> lumps[j].id != STATIC_PROP_LUMP_ID
}

pub open spec fn game_lump_data(f: &BspFile, l: BspGameLump) -> Result<Seq<u8>, DecodeError> {
    raw_lump(f.bytes(), l.fileofs as int, l.filelen as int)
}

/// Why the static-prop game lump listed in `lumps` (if any) cannot be read.
pub open spec fn static_props_error(f: &BspFile, lumps: Seq<BspGameLump>) -> Option<DecodeError> {
    if exists|i: int| first_static_prop_lump(lumps, i) {
        let i = choose|i: int| first_static_prop_lump(lumps, i);
        match game_lump_data(f, lumps[i]) {
            Ok(b) => if section_truncated(b) {
                Some(DecodeError::TruncatedInput)
            } else if section_size_mismatch(b) {
                Some(DecodeError::RecordSizeMismatch)
            } else {
                None
            },
            Err(e) => Some(e),
        }
    } else {
        None
    }
}

/// The first of `a` and `b` that is an error.
pub open spec fn first_error(a: Option<DecodeError>, b: Option<DecodeError>) -> Option<DecodeError> {
    if a is Some {
        a
    } else {
        b
    }
}

/// Why a full parse fails: the first failing read, in the order lumps 43,
/// 44, 35, the static props, 0, then the record lumps 1, 3, 12, 13, 7, 14,
/// 6, 2, 8, 26, 33 and 48.
pub open spec fn parse_error(f: &BspFile) -> Option<DecodeError> {
    let head = first_error(
        lump_error(f, 43),
        first_error(
            records_error::<u32>(f, 44),
            first_error(
                game_lumps_error(f),
                first_error(static_props_error(f, game_lumps_of(f)), entities_error(f)),
            ),
        ),
    );
    first_error(head, geometry_error(f))
}

/// Why reading the record lumps fails, in the order they are read.
pub open spec fn geometry_error(f: &BspFile) -> Option<DecodeError> {
    first_error(
        records_error::<BspPlane>(f, 1),
        first_error(
            records_error::<RawVec3>(f, 3),
            first_error(
                records_error::<BspEdge>(f, 12),
                first_error(
                    records_error::<i32>(f, 13),
                    first_error(
                        records_error::<BspFace>(f, 7),
                        first_error(
                            records_error::<BspModel>(f, 14),
                            first_error(
                                records_error::<BspTexInfo>(f, 6),
                                first_error(
                                    records_error::<BspTexData>(f, 2),
                                    first_error(
                                        records_error::<BspColorRgbExp>(f, 8),
                                        first_error(
                                            records_error::<BspDispInfo>(f, 26),
                                            first_error(
                                                records_error::<BspDispVert>(f, 33),
                                                records_error::<BspDispTri>(f, 48),
                                            ),
                                        ),
                                    ),
                                ),
                            ),
                        ),
                    ),
                ),
            ),
        ),
    )
}

/// A parsed level. The embedded archive (lump 40) is left out; read it with
/// `BspFile::read_lump_raw`.
pub struct Bsp {
    pub entities: String,
    pub planes: Vec<BspPlane>,
    pub vertices: Vec<RawVec3>,
    pub edges: Vec<BspEdge>,
    pub surfedges: Vec<i32>,
    pub faces: Vec<BspFace>,
    pub models: Vec<BspModel>,
    pub tex_info: Vec<BspTexInfo>,
    pub tex_data: Vec<BspTexData>,
    pub lightmap_data: Vec<BspColorRgbExp>,
    pub disp_info: Vec<BspDispInfo>,
    pub disp_verts: Vec<BspDispVert>,
    pub disp_tris: Vec<BspDispTri>,
    pub texdata_string_table: Vec<String>,
    pub game_lumps: Vec<BspGameLump>,
    pub static_prop_models: Vec<String>,
    pub static_prop_leafs: Vec<u16>,
    pub static_props: Vec<StaticPropLump>,
}

impl Bsp {
    /// Reads every lump that the level needs.
    pub fn parse(file: &BspFile) -> (r: Result<Bsp, DecodeError>)
        requires
            file.wf(),
        ensures
            fails_with(r, parse_error(file)),
            r is Ok ==> {
                let b = r->Ok_0;
                let lumps = game_lumps_of(file);
                &&& lump_records(file, 1, b.planes)
                &&& lump_records(file, 3, b.vertices)
                &&& lump_records(file, 12, b.edges)
                &&& lump_records(file, 13, b.surfedges)
                &&& lump_records(file, 7, b.faces)
                &&& lump_records(file, 14, b.models)
                &&& lump_records(file, 6, b.tex_info)
                &&& lump_records(file, 2, b.tex_data)
                &&& lump_records(file, 8, b.lightmap_data)
                &&& lump_records(file, 26, b.disp_info)
                &&& lump_records(file, 33, b.disp_verts)
                &&& lump_records(file, 48, b.disp_tris)
                &&& b.entities@ == decoded_text(
                    lump_data(file, 0)->Ok_0.subrange(0, first_zero(lump_data(file, 0)->Ok_0, 0)),
                )
                &&& exists|offsets: Vec<u32>|
                    lump_records(file, 44, offsets) && b.texdata_string_table@.len()
                        == offsets@.len() && forall|i: int|
                        0 <= i < offsets@.len() ==> (#[trigger] b.texdata_string_table@[i])@
                            == texdata_string(lump_data(file, 43)->Ok_0, offsets@[i] as int)
                &&& b.game_lumps@ == lumps
                &&& forall|i: int|
                    #[trigger] first_static_prop_lump(lumps, i) ==> section_parsed(
                        (StaticPropSection {
                            names: b.static_prop_models,
                            leaf: b.static_prop_leafs,
                            props: b.static_props,
                        }),
                        game_lump_data(file, lumps[i])->Ok_0,
                    )
                &&& (forall|i: int| 0 <= i < lumps.len() ==> lumps[i].id != STATIC_PROP_LUMP_ID)
                    ==> b.static_prop_models@.len() == 0 && b.static_prop_leafs@.len() == 0
                    && b.static_props@.len() == 0
            },
    {
        let texdata_string_table = read_texdata_table(file)?;
        let game_lumps = read_game_lumps(file)?;
        let section = read_static_prop_lump(file, &game_lumps)?;
        let entities = read_entities(file)?;
        let planes = file.read_lump(1)?;
        let vertices = file.read_lump(3)?;
        let edges = file.read_lump(12)?;
        let surfedges = file.read_lump(13)?;
        let faces = file.read_lump(7)?;
        let models = file.read_lump(14)?;
        let tex_info = file.read_lump(6)?;
        let tex_data = file.read_lump(2)?;
        let lightmap_data = file.read_lump(8)?;
        let disp_info = file.read_lump(26)?;
        let disp_verts = file.read_lump(33)?;
        let disp_tris = file.read_lump(48)?;
        Ok(Bsp {
            entities,
            planes,
            vertices,
            edges,
            surfedges,
            faces,
            models,
            tex_info,
            tex_data,
            lightmap_data,
            disp_info,
            disp_verts,
            disp_tris,
            texdata_string_table,
            game_lumps,
            static_prop_models: section.names,
            static_prop_leafs: section.leaf,
            static_props: section.props,
        })
    }
}

fn read_texdata_table(file: &BspFile) -> (r: Result<Vec<String>, DecodeError>)
    requires
        file.wf(),
    ensures
        fails_with(r, first_error(lump_error(file, 43), records_error::<u32>(file, 44))),
        r is Ok ==> exists|offsets: Vec<u32>|
            lump_records(file, 44, offsets) && r->Ok_0@.len() == offsets@.len() && forall|i: int|
                0 <= i < offsets@.len() ==> (#[trigger] r->Ok_0@[i])@ == texdata_string(
                    lump_data(file, 43)->Ok_0,
                    offsets@[i] as int,
                ),
{
    let texdata_string_data = file.read_lump_raw(43)?;
    let texdata_string_offsets: Vec<u32> = file.read_lump(44)?;
    let t = texdata_strings(texdata_string_data.as_slice(), &texdata_string_offsets);
    assert(lump_records(file, 44, texdata_string_offsets));
    Ok(t)
}

fn read_game_lumps(file: &BspFile) -> (r: Result<Vec<BspGameLump>, DecodeError>)
    requires
        file.wf(),
    ensures
        fails_with(r, game_lumps_error(file)),
        r is Ok ==> r->Ok_0@ == game_lumps_of(file),
{
    let game_lump_data = file.read_lump_raw(35)?;
    let game_lumps = BspGameLumpHeader::read(game_lump_data.as_slice())?.lumps;
    assert(game_lumps@ =~= game_lumps_of(file));
    Ok(game_lumps)
}

fn read_static_prop_lump(file: &BspFile, game_lumps: &Vec<BspGameLump>) -> (r: Result<
    StaticPropSection,
    DecodeError,
>)
    requires
        file.wf(),
    ensures
        fails_with(r, static_props_error(file, game_lumps@)),
        r is Ok ==> (forall|i: int| #[trigger]
            first_static_prop_lump(game_lumps@, i) ==> section_parsed(
                r->Ok_0,
                game_lump_data(file, game_lumps@[i])->Ok_0,
            )),
        r is Ok && (forall|i: int| 0 <= i < game_lumps@.len() ==> game_lumps@[i].id != STATIC_PROP_LUMP_ID)
            ==> r->Ok_0.names@.len() == 0 && r->Ok_0.leaf@.len() == 0 && r->Ok_0.props@.len() == 0,
{
    match find_game_lump(game_lumps, STATIC_PROP_LUMP_ID) {
        Some(i) => {
            proof {
                assert(first_static_prop_lump(game_lumps@, i as int));
                assert forall|j: int| #[trigger]
                    first_static_prop_lump(game_lumps@, j) implies j == i by {
                    if j < i {
                        assert(game_lumps@[j].id != STATIC_PROP_LUMP_ID);
                    } else if j > i {
                        assert(game_lumps@[i as int].id != STATIC_PROP_LUMP_ID);
                    }
                }
            }
            let sprp = game_lumps[i];
            let data = file.read_lump_raw_offset(sprp.fileofs as u64, sprp.filelen as usize)?;
            read_static_props(data.as_slice())
        },
        None => Ok(StaticPropSection { names: Vec::new(), leaf: Vec::new(), props: Vec::new() }),
    }
}

fn read_entities(file: &BspFile) -> (r: Result<String, DecodeError>)
    requires
        file.wf(),
    ensures
        fails_with(r, entities_error(file)),
        r is Ok ==> r->Ok_0@ == decoded_text(
            lump_data(file, 0)->Ok_0.subrange(0, first_zero(lump_data(file, 0)->Ok_0, 0)),
        ),
{
    let entity_lump = file.read_lump_raw(0)?;
    let end = find_zero(entity_lump.as_slice(), 0);
    if end >= entity_lump.len() {
        return Err(DecodeError::TruncatedInput);
    }
    let entity_bytes = copy_range(entity_lump.as_slice(), 0, end);
    Ok(text_from_bytes(entity_bytes.as_slice()))
}

} // verus!
