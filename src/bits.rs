use vstd::arithmetic::div_mod::*;
use vstd::arithmetic::mul::*;
use vstd::arithmetic::power2::*;
use vstd::bits::*;
use vstd::prelude::*;

use crate::error::DecodeError;
use crate::text::{text_from_bytes, decoded_text};

verus! {

/// Bit `i` of `data`: bit `i % 8` of byte `i / 8`, least-significant bit first.
pub open spec fn bit_at(data: Seq<u8>, i: int) -> bool {
    (data[i / 8] as nat / pow2((i % 8) as nat)) % 2 == 1
}

/// The unsigned value of the `n` bits that start at bit `pos`; bit `pos + j`
/// carries the weight 2^j.
pub open spec fn bits_value(data: Seq<u8>, pos: int, n: nat) -> nat
    decreases n,
{
    if n == 0 {
        0
    } else {
        bits_value(data, pos, (n - 1) as nat) + if bit_at(data, pos + n - 1) {
            pow2((n - 1) as nat)
        } else {
            0
        }
    }
}

/// An `n`-bit field is below 2^n.
pub proof fn lemma_bits_value_bound(data: Seq<u8>, pos: int, n: nat)
    ensures
        bits_value(data, pos, n) < pow2(n),
    decreases n,
{
    lemma_pow2_pos(n);
    if n > 0 {
        lemma_bits_value_bound(data, pos, (n - 1) as nat);
        lemma_pow2_unfold(n);
    }
}

proof fn lemma_split_any(data: Seq<u8>, pos: int, n: nat, k: nat)
    requires
        k <= n,
    ensures
        bits_value(data, pos, n) == bits_value(data, pos, k) + pow2(k) * bits_value(
            data,
            pos + k,
            (n - k) as nat,
        ),
    decreases n,
{
    if n == k {
        assert(bits_value(data, pos + k, 0) == 0);
        lemma_mul_basics(pow2(k) as int);
    } else {
        lemma_split_any(data, pos, (n - 1) as nat, k);
        let rest = (n - 1 - k) as nat;
        let hi = if bit_at(data, pos + n - 1) {
            pow2(rest)
        } else {
            0
        };
        assert(bits_value(data, pos + k, (rest + 1) as nat) == bits_value(data, pos + k, rest)
            + hi);
        lemma_pow2_adds(k, rest);
        lemma_mul_basics(pow2(k) as int);
        assert(pow2(k) * hi == if bit_at(data, pos + n - 1) {
            pow2((n - 1) as nat)
        } else {
            0
        });
        lemma_mul_is_distributive_add(
            pow2(k) as int,
            bits_value(data, pos + k, rest) as int,
            hi as int,
        );
    }
}

/// Reading `n` bits at once gives the same value as reading `k` bits and
/// then the following `n - k` bits, the second value placed above the first.
pub proof fn lemma_read_bits_split(data: Seq<u8>, pos: int, n: nat, k: nat)
    requires
        0 < k < n,
    ensures
        bits_value(data, pos, n) == bits_value(data, pos, k) + pow2(k) * bits_value(
            data,
            pos + k,
            (n - k) as nat,
        ),
{
    lemma_split_any(data, pos, n, k);
}

/// A read cursor over a byte buffer that addresses single bits.
pub struct BitReader {
    data: Vec<u8>,
    bit: usize,
}

impl BitReader {
    /// The buffer being read.
    pub closed spec fn bytes(&self) -> Seq<u8> {
        self.data@
    }

    /// The index of the next bit to be read.
    pub closed spec fn pos(&self) -> int {
        self.bit as int
    }

    /// The number of bits in the buffer.
    pub open spec fn total_bits(&self) -> nat {
        8 * self.bytes().len()
    }

    pub open spec fn wf(&self) -> bool {
        &&& 0 <= self.pos() <= self.total_bits()
        &&& self.total_bits() <= usize::MAX
    }

    /// The same buffer, with the cursor moved to `p`.
    pub open spec fn at(&self, other: &BitReader, p: int) -> bool {
        other.bytes() == self.bytes() && other.pos() == p && other.wf()
    }

    pub fn new(data: Vec<u8>) -> (r: BitReader)
        requires
            8 * data@.len() <= usize::MAX,
        ensures
            r.bytes() == data@,
            r.pos() == 0,
            r.wf(),
    {
        BitReader { data, bit: 0 }
    }

    pub fn bits_remaining(&self) -> (r: usize)
        requires
            self.wf(),
        ensures
            r == self.total_bits() - self.pos(),
    {
        self.data.len() * 8 - self.bit
    }

    /// The index of the next bit to be read.
    pub fn position(&self) -> (r: usize)
        ensures
            r == self.pos(),
    {
        self.bit
    }

    pub fn read_bit(&mut self) -> (r: Result<bool, DecodeError>)
        requires
            old(self).wf(),
        ensures
            old(self).pos() < old(self).total_bits() ==> r == Ok::<bool, DecodeError>(
                bit_at(old(self).bytes(), old(self).pos() as int),
            ) && old(self).at(final(self), old(self).pos() + 1int),
            old(self).pos() >= old(self).total_bits() ==> r == Err::<bool, DecodeError>(
                DecodeError::TruncatedInput,
            ) && old(self).at(final(self), old(self).pos() as int),
    {
        if self.bit / 8 >= self.data.len() {
            return Err(DecodeError::TruncatedInput);
        }
        let byte = self.data[self.bit / 8];
        let shift = (self.bit % 8) as u8;
        let value = byte >> shift;
        proof {
            lemma_u8_shr_is_div(byte, shift);
        }
        self.bit = self.bit + 1;
        Ok(value % 2 == 1)
    }

    /// Reads a `count`-bit unsigned field; bit `j` of the field is bit
    /// `j` of the result.
    pub fn read_bits(&mut self, count: usize) -> (r: Result<u32, DecodeError>)
        requires
            old(self).wf(),
            count <= 32,
        ensures
            old(self).pos() + count <= old(self).total_bits() ==> r == Ok::<u32, DecodeError>(
                bits_value(old(self).bytes(), old(self).pos() as int, count as nat) as u32,
            ) && old(self).at(final(self), old(self).pos() + count),
            old(self).pos() + count > old(self).total_bits() ==> r == Err::<u32, DecodeError>(
                DecodeError::TruncatedInput,
            ) && old(self).at(final(self), old(self).pos() as int),
            r is Ok ==> r->Ok_0 as nat == bits_value(
                old(self).bytes(),
                old(self).pos() as int,
                count as nat,
            ),
    {
        if count > self.bits_remaining() {
            return Err(DecodeError::TruncatedInput);
        }
        let ghost d = self.data@;
        let ghost p = self.bit as int;
        let mut value: u64 = 0;
        let mut weight: u64 = 1;
        let mut i: usize = 0;
        proof {
            lemma2_to64();
        }
        while i < count
            invariant
                self.data@ == d,
                self.bit == p + i,
                p + count <= 8 * d.len(),
                8 * d.len() <= usize::MAX,
                i <= count <= 32,
                value == bits_value(d, p, i as nat),
                weight == pow2(i as nat),
                pow2(32) == 0x1_0000_0000,
            decreases count - i,
        {
            let b = match self.read_bit() {
                Ok(b) => b,
                Err(e) => return Err(e),
            };
            proof {
                lemma_bits_value_bound(d, p, i as nat);
                lemma_pow2_unfold((i + 1) as nat);
                lemma_pow2_increases((i + 1) as nat, 32);
            }
            if b {
                value = value + weight;
            }
            weight = weight * 2;
            i = i + 1;
        }
        proof {
            lemma_bits_value_bound(d, p, count as nat);
            lemma_pow2_increases(count as nat, 32);
        }
        Ok(value as u32)
    }
}


/// Width of the `j`-th byte of a `count`-bit vector: 8, or what is left.
pub open spec fn chunk_width(count: nat, j: int) -> nat {
    if count - 8 * j >= 8 {
        8
    } else {
        (count - 8 * j) as nat
    }
}

/// The bytes that a `count`-bit vector read at `pos` gives.
pub open spec fn bit_vector_at(data: Seq<u8>, pos: int, count: nat) -> Seq<u8> {
    Seq::new(
        (count + 7) / 8,
        |j: int| bits_value(data, pos + 8 * j, chunk_width(count, j)) as u8,
    )
}

/// The byte that starts at bit `pos`.
pub open spec fn byte_at_bit(data: Seq<u8>, pos: int) -> nat {
    bits_value(data, pos, 8)
}

/// Two's-complement reading of a 16-bit field.
pub open spec fn signed16(v: nat) -> int {
    if v < 0x8000 {
        v as int
    } else {
        v - 0x10000
    }
}

/// Two's-complement reading of a 32-bit field.
pub open spec fn signed32(v: nat) -> int {
    if v < 0x8000_0000 {
        v as int
    } else {
        v - 0x1_0000_0000
    }
}

pub fn i16_from_bits(v: u16) -> (r: i16)
    ensures
        r as int == signed16(v as nat),
{
    if v < 0x8000 {
        v as i16
    } else {
        ((v - 0x8000) as i16) - 0x4000 - 0x4000
    }
}

pub fn i32_from_bits(v: u32) -> (r: i32)
    ensures
        r as int == signed32(v as nat),
{
    if v < 0x8000_0000 {
        v as i32
    } else {
        ((v - 0x8000_0000) as i32) - 0x4000_0000 - 0x4000_0000
    }
}

/// Number of bits taken by a compressed coordinate at `pos`.
pub open spec fn coord_width(data: Seq<u8>, pos: int) -> nat {
    let has_int = bit_at(data, pos);
    let has_frac = bit_at(data, pos + 1);
    if !has_int && !has_frac {
        2
    } else {
        3 + (if has_int {
            14nat
        } else {
            0nat
        }) + (if has_frac {
            5nat
        } else {
            0nat
        })
    }
}

/// Value of a compressed coordinate at `pos`, in units of 1/32: a sign bit,
/// an optional 14-bit integer part stored minus one, and an optional 5-bit
/// fraction.
pub open spec fn coord_value(data: Seq<u8>, pos: int) -> int {
    let has_int = bit_at(data, pos);
    let has_frac = bit_at(data, pos + 1);
    if !has_int && !has_frac {
        0
    } else {
        let int_part: int = if has_int {
            (bits_value(data, pos + 3, 14) + 1) as int * 32
        } else {
            0
        };
        let frac_at: int = pos + 3 + if has_int {
            14int
        } else {
            0int
        };
        let frac_part: int = if has_frac {
            bits_value(data, frac_at, 5) as int
        } else {
            0
        };
        if bit_at(data, pos + 2) {
            -(int_part + frac_part)
        } else {
            int_part + frac_part
        }
    }
}

/// A coordinate vector, each component in units of 1/32.
#[derive(Debug, Clone, Copy, PartialEq, Eq, Structural)]
pub struct CoordVec3 {
    pub x: i32,
    pub y: i32,
    pub z: i32,
}

/// Where the component after the one at `pos` starts, given its presence bit.
pub open spec fn coord_next(data: Seq<u8>, pos: int, present: bool) -> int {
    if present {
        pos + coord_width(data, pos)
    } else {
        pos
    }
}

pub open spec fn coord_or_zero(data: Seq<u8>, pos: int, present: bool) -> int {
    if present {
        coord_value(data, pos)
    } else {
        0
    }
}

/// Bits taken by a compressed vector at `pos`.
pub open spec fn vec3_end(data: Seq<u8>, pos: int) -> int {
    let x_at = pos + 3;
    let y_at = coord_next(data, x_at, bit_at(data, pos));
    let z_at = coord_next(data, y_at, bit_at(data, pos + 1));
    coord_next(data, z_at, bit_at(data, pos + 2))
}

pub open spec fn vec3_value(data: Seq<u8>, pos: int) -> (int, int, int) {
    let x_at = pos + 3;
    let y_at = coord_next(data, x_at, bit_at(data, pos));
    let z_at = coord_next(data, y_at, bit_at(data, pos + 1));
    (
        coord_or_zero(data, x_at, bit_at(data, pos)),
        coord_or_zero(data, y_at, bit_at(data, pos + 1)),
        coord_or_zero(data, z_at, bit_at(data, pos + 2)),
    )
}

/// A fraction of a full turn: `raw / 2^bits` of 360 degrees.
#[derive(Debug, Clone, Copy, PartialEq, Eq, Structural)]
pub struct BitAngle {
    pub raw: u32,
    pub bits: u32,
}

/// Byte `i` of a varint at `pos`.
pub open spec fn varint_byte(data: Seq<u8>, pos: int, i: nat) -> nat {
    byte_at_bit(data, pos + 8 * i)
}

/// Number of bytes in the varint at `pos`, counting from byte `i`: it ends
/// at the first byte whose bit 7 is clear, and after five bytes at most.
pub open spec fn varint_len_from(data: Seq<u8>, pos: int, i: nat) -> nat
    decreases 4 - i,
{
    if i >= 4 || varint_byte(data, pos, i) < 128 {
        i + 1
    } else {
        varint_len_from(data, pos, i + 1)
    }
}

pub open spec fn varint_len(data: Seq<u8>, pos: int) -> nat {
    varint_len_from(data, pos, 0)
}

/// The low seven bits of the first `k` bytes, at increasing 7-bit shifts.
pub open spec fn varint_sum(data: Seq<u8>, pos: int, k: nat) -> nat
    decreases k,
{
    if k == 0 {
        0
    } else {
        varint_sum(data, pos, (k - 1) as nat) + (varint_byte(data, pos, (k - 1) as nat) % 128)
            * pow2((7 * (k - 1)) as nat)
    }
}

/// The 32-bit value of the varint at `pos`.
pub open spec fn varint_value(data: Seq<u8>, pos: int) -> nat {
    varint_sum(data, pos, varint_len(data, pos)) % 0x1_0000_0000
}

/// `n` whole bytes read at bit `pos`.
pub open spec fn bytes_at_bit(data: Seq<u8>, pos: int, n: nat) -> Seq<u8> {
    Seq::new(n, |j: int| byte_at_bit(data, pos + 8 * j) as u8)
}

/// No zero byte among the first `n` bytes at bit `pos`.
pub open spec fn no_nul_before(data: Seq<u8>, pos: int, n: nat) -> bool {
    forall|j: int| 0 <= j < n ==> #[trigger] byte_at_bit(data, pos + 8 * j) != 0
}

impl BitReader {
    /// Reads `count` bits into `ceil(count / 8)` bytes, bit `i` of the field
    /// at bit `i % 8` of byte `i / 8`; the unused high bits of the last byte
    /// are zero.
    pub fn read_bits_vec(&mut self, count: usize) -> (r: Result<Vec<u8>, DecodeError>)
        requires
            old(self).wf(),
        ensures
            old(self).pos() + count <= old(self).total_bits() ==> r is Ok && old(self).at(
                final(self),
                old(self).pos() + count,
            ),
            old(self).pos() + count > old(self).total_bits() ==> r == Err::<Vec<u8>, DecodeError>(
                DecodeError::TruncatedInput,
            ) && old(self).at(final(self), old(self).pos() as int),
            r is Ok ==> r->Ok_0@ == bit_vector_at(old(self).bytes(), old(self).pos(), count as nat),
            r is Ok ==> r->Ok_0@.len() == (count + 7) / 8 && forall|j: int|
                0 <= j < r->Ok_0@.len() ==> r->Ok_0@[j] == bits_value(
                    old(self).bytes(),
                    old(self).pos() + 8 * j,
                    chunk_width(count as nat, j),
                ),
    {
        if count > self.bits_remaining() {
            return Err(DecodeError::TruncatedInput);
        }
        let ghost d = self.data@;
        let ghost p = self.bit as int;
        let mut out: Vec<u8> = Vec::new();
        let mut taken: usize = 0;
        while taken < count
            invariant
                self.data@ == d,
                self.bit == p + taken,
                p + count <= 8 * d.len(),
                8 * d.len() <= usize::MAX,
                taken <= count,
                taken < count ==> taken == 8 * out@.len(),
                out@.len() == (taken + 7) / 8,
                forall|j: int|
                    0 <= j < out@.len() ==> out@[j] == bits_value(
                        d,
                        p + 8 * j,
                        chunk_width(count as nat, j),
                    ),
            decreases count - taken,
        {
            let w: usize = if count - taken >= 8 {
                8
            } else {
                count - taken
            };
            let b = match self.read_bits(w) {
                Ok(b) => b,
                Err(e) => return Err(e),
            };
            proof {
                lemma_bits_value_bound(d, p + taken, w as nat);
                lemma_pow2_increases(w as nat, 8);
                lemma2_to64();
            }
            out.push(b as u8);
            taken = taken + w;
        }
        assert(out@ =~= bit_vector_at(d, p, count as nat));
        Ok(out)
    }

    /// Reads `len` whole bytes, eight bits each.
    pub fn read_bytes(&mut self, len: usize) -> (r: Result<Vec<u8>, DecodeError>)
        requires
            old(self).wf(),
        ensures
            old(self).pos() + 8 * len <= old(self).total_bits() ==> r is Ok && old(self).at(
                final(self),
                old(self).pos() + 8 * len,
            ) && r->Ok_0@ == bytes_at_bit(old(self).bytes(), old(self).pos() as int, len as nat),
            old(self).pos() + 8 * len > old(self).total_bits() ==> r == Err::<
                Vec<u8>,
                DecodeError,
            >(DecodeError::TruncatedInput) && old(self).at(final(self), old(self).pos() as int),
    {
        if len > self.bits_remaining() / 8 {
            return Err(DecodeError::TruncatedInput);
        }
        let ghost d = self.data@;
        let ghost p = self.bit as int;
        let r = self.read_bits_vec(len * 8);
        match r {
            Ok(v) => {
                assert(v@ =~= bytes_at_bit(d, p, len as nat));
                Ok(v)
            },
            Err(e) => Err(e),
        }
    }

    pub fn read_u8(&mut self) -> (r: Result<u8, DecodeError>)
        requires
            old(self).wf(),
        ensures
            old(self).pos() + 8 <= old(self).total_bits() ==> r == Ok::<u8, DecodeError>(
                byte_at_bit(old(self).bytes(), old(self).pos() as int) as u8,
            ) && old(self).at(final(self), old(self).pos() + 8),
            old(self).pos() + 8 > old(self).total_bits() ==> r == Err::<u8, DecodeError>(
                DecodeError::TruncatedInput,
            ) && old(self).at(final(self), old(self).pos() as int),
            r is Ok ==> r->Ok_0 as nat == byte_at_bit(old(self).bytes(), old(self).pos() as int),
    {
        let ghost d = self.data@;
        let ghost p = self.bit as int;
        let v = self.read_bits(8)?;
        proof {
            lemma_bits_value_bound(d, p, 8);
            lemma2_to64();
        }
        Ok(v as u8)
    }

    pub fn read_u16(&mut self) -> (r: Result<u16, DecodeError>)
        requires
            old(self).wf(),
        ensures
            old(self).pos() + 16 <= old(self).total_bits() ==> r is Ok && old(self).at(
                final(self),
                old(self).pos() + 16,
            ),
            old(self).pos() + 16 > old(self).total_bits() ==> r == Err::<u16, DecodeError>(
                DecodeError::TruncatedInput,
            ) && old(self).at(final(self), old(self).pos() as int),
            r is Ok ==> r->Ok_0 as nat == bits_value(old(self).bytes(), old(self).pos() as int, 16),
    {
        let ghost d = self.data@;
        let ghost p = self.bit as int;
        let v = self.read_bits(16)?;
        proof {
            lemma_bits_value_bound(d, p, 16);
            lemma2_to64();
        }
        Ok(v as u16)
    }

    pub fn read_u32(&mut self) -> (r: Result<u32, DecodeError>)
        requires
            old(self).wf(),
        ensures
            old(self).pos() + 32 <= old(self).total_bits() ==> r is Ok && old(self).at(
                final(self),
                old(self).pos() + 32,
            ),
            old(self).pos() + 32 > old(self).total_bits() ==> r == Err::<u32, DecodeError>(
                DecodeError::TruncatedInput,
            ) && old(self).at(final(self), old(self).pos() as int),
            r is Ok ==> r->Ok_0 as nat == bits_value(old(self).bytes(), old(self).pos() as int, 32),
    {
        self.read_bits(32)
    }

    pub fn read_i16(&mut self) -> (r: Result<i16, DecodeError>)
        requires
            old(self).wf(),
        ensures
            old(self).pos() + 16 <= old(self).total_bits() ==> r is Ok && old(self).at(
                final(self),
                old(self).pos() + 16,
            ),
            old(self).pos() + 16 > old(self).total_bits() ==> r == Err::<i16, DecodeError>(
                DecodeError::TruncatedInput,
            ) && old(self).at(final(self), old(self).pos() as int),
            r is Ok ==> r->Ok_0 as int == signed16(
                bits_value(old(self).bytes(), old(self).pos() as int, 16),
            ),
    {
        let v = self.read_u16()?;
        Ok(i16_from_bits(v))
    }

    pub fn read_i32(&mut self) -> (r: Result<i32, DecodeError>)
        requires
            old(self).wf(),
        ensures
            old(self).pos() + 32 <= old(self).total_bits() ==> r is Ok && old(self).at(
                final(self),
                old(self).pos() + 32,
            ),
            old(self).pos() + 32 > old(self).total_bits() ==> r == Err::<i32, DecodeError>(
                DecodeError::TruncatedInput,
            ) && old(self).at(final(self), old(self).pos() as int),
            r is Ok ==> r->Ok_0 as int == signed32(
                bits_value(old(self).bytes(), old(self).pos() as int, 32),
            ),
    {
        let v = self.read_u32()?;
        Ok(i32_from_bits(v))
    }
}

impl BitReader {
    /// Reads a compressed coordinate; the result is in units of 1/32.
    pub fn read_float_compressed(&mut self) -> (r: Result<i32, DecodeError>)
        requires
            old(self).wf(),
        ensures
            ({
                let d = old(self).bytes();
                let p = old(self).pos();
                &&& p + coord_width(d, p) <= old(self).total_bits() ==> r is Ok && old(self).at(
                    final(self),
                    p + coord_width(d, p),
                )
                &&& p + coord_width(d, p) > old(self).total_bits() ==> r == Err::<i32, DecodeError>(
                    DecodeError::TruncatedInput,
                ) && old(self).at(final(self), p)
                &&& r is Ok ==> r->Ok_0 as int == coord_value(d, p)
            }),
    {
        let ghost d = self.data@;
        let ghost p = self.bit as int;
        let start = self.bit;
        let has_int = match self.read_bit() {
            Ok(b) => b,
            Err(e) => return Err(e),
        };
        let has_frac = match self.read_bit() {
            Ok(b) => b,
            Err(e) => {
                self.bit = start;
                return Err(e);
            },
        };
        if !has_int && !has_frac {
            return Ok(0);
        }
        let negative = match self.read_bit() {
            Ok(b) => b,
            Err(e) => {
                self.bit = start;
                return Err(e);
            },
        };
        let mut magnitude: i32 = 0;
        if has_int {
            let v = match self.read_bits(14) {
                Ok(v) => v,
                Err(e) => {
                    self.bit = start;
                    return Err(e);
                },
            };
            proof {
                lemma_bits_value_bound(d, p + 3, 14);
                lemma2_to64();
            }
            magnitude = (v as i32 + 1) * 32;
        }
        let ghost q = self.bit as int;
        assert(magnitude <= 16384 * 32);
        if has_frac {
            let v = match self.read_bits(5) {
                Ok(v) => v,
                Err(e) => {
                    self.bit = start;
                    return Err(e);
                },
            };
            proof {
                lemma_bits_value_bound(d, q, 5);
                lemma2_to64();
            }
            magnitude = magnitude + v as i32;
        }
        if negative {
            Ok(-magnitude)
        } else {
            Ok(magnitude)
        }
    }

    /// Reads three presence bits, then a compressed coordinate for each
    /// component whose bit is set; absent components are zero.
    pub fn read_vec3_compressed(&mut self) -> (r: Result<CoordVec3, DecodeError>)
        requires
            old(self).wf(),
        ensures
            ({
                let d = old(self).bytes();
                let p = old(self).pos();
                let v = vec3_value(d, p);
                &&& vec3_end(d, p) <= old(self).total_bits() ==> r is Ok && old(self).at(
                    final(self),
                    vec3_end(d, p),
                )
                &&& vec3_end(d, p) > old(self).total_bits() ==> r == Err::<CoordVec3, DecodeError>(
                    DecodeError::TruncatedInput,
                ) && old(self).at(final(self), p)
                &&& r is Ok ==> r->Ok_0.x as int == v.0 && r->Ok_0.y as int == v.1 && r->Ok_0.z as int
                    == v.2
            }),
    {
        let ghost d = self.data@;
        let ghost p = self.bit as int;
        let start = self.bit;
        if self.bits_remaining() < 3 {
            return Err(DecodeError::TruncatedInput);
        }
        let has_x = self.read_bit()?;
        let has_y = self.read_bit()?;
        let has_z = self.read_bit()?;
        let mut v = CoordVec3 { x: 0, y: 0, z: 0 };
        if has_x {
            v.x = match self.read_float_compressed() {
                Ok(c) => c,
                Err(e) => {
                    self.bit = start;
                    return Err(e);
                },
            };
        }
        if has_y {
            v.y = match self.read_float_compressed() {
                Ok(c) => c,
                Err(e) => {
                    self.bit = start;
                    return Err(e);
                },
            };
        }
        if has_z {
            v.z = match self.read_float_compressed() {
                Ok(c) => c,
                Err(e) => {
                    self.bit = start;
                    return Err(e);
                },
            };
        }
        Ok(v)
    }

    /// Reads a `bits`-wide angle, a fraction of a full turn.
    pub fn read_angle(&mut self, bits: usize) -> (r: Result<BitAngle, DecodeError>)
        requires
            old(self).wf(),
            bits <= 32,
        ensures
            old(self).pos() + bits <= old(self).total_bits() ==> r == Ok::<BitAngle, DecodeError>(
                BitAngle {
                    raw: bits_value(old(self).bytes(), old(self).pos(), bits as nat) as u32,
                    bits: bits as u32,
                },
            ) && old(self).at(final(self), old(self).pos() + bits),
            old(self).pos() + bits > old(self).total_bits() ==> r == Err::<BitAngle, DecodeError>(
                DecodeError::TruncatedInput,
            ) && old(self).at(final(self), old(self).pos()),
    {
        let raw = self.read_bits(bits)?;
        Ok(BitAngle { raw, bits: bits as u32 })
    }

    /// Reads a varint: 7-bit groups, least significant first, each byte's bit
    /// 7 set while more follow, five bytes at most; the value is kept to 32 bits.
    pub fn read_varint32(&mut self) -> (r: Result<u32, DecodeError>)
        requires
            old(self).wf(),
        ensures
            ({
                let d = old(self).bytes();
                let p = old(self).pos();
                let end = p + 8 * varint_len(d, p);
                &&& end <= old(self).total_bits() ==> r == Ok::<u32, DecodeError>(
                    varint_value(d, p) as u32,
                ) && old(self).at(final(self), end)
                &&& end > old(self).total_bits() ==> r == Err::<u32, DecodeError>(
                    DecodeError::TruncatedInput,
                ) && old(self).at(final(self), p)
            }),
    {
        let ghost d = self.data@;
        let ghost p = self.bit as int;
        let start = self.bit;
        let mut value: u64 = 0;
        let mut weight: u64 = 1;
        let mut i: usize = 0;
        let mut more = true;
        proof {
            lemma2_to64();
            lemma2_to64_rest();
        }
        while more
            invariant
                self.data@ == d,
                self.wf(),
                start == p,
                d == old(self).bytes(),
                p == old(self).pos(),
                i <= 5,
                self.bit == p + 8 * i,
                value == varint_sum(d, p, i as nat),
                value < pow2((7 * i) as nat),
                more ==> i < 5 && weight == pow2((7 * i) as nat) && varint_len(d, p)
                    == varint_len_from(d, p, i as nat),
                !more ==> i == varint_len(d, p),
                pow2(35) == 0x8_0000_0000,
                pow2(28) == 0x1000_0000,
            decreases 5 - i,
        {
            let b = match self.read_bits(8) {
                Ok(b) => b,
                Err(e) => {
                    self.bit = start;
                    proof {
                        lemma_varint_len_from_bound(d, p, i as nat);
                    }
                    return Err(e);
                },
            };
            proof {
                lemma_bits_value_bound(d, p + 8 * i, 8);
                lemma_pow2_increases((7 * i) as nat, 28);
                lemma_pow2_adds((7 * i) as nat, 7);
                lemma_pow2_increases((7 * i + 7) as nat, 35);
                lemma2_to64();
                assert((b % 128) as nat * weight <= 127 * weight) by (nonlinear_arith)
                    requires
                        weight > 0,
                        b % 128 <= 127,
                ;
                assert(varint_byte(d, p, i as nat) == b);
            }
            value = value + (b % 128) as u64 * weight;
            i = i + 1;
            if b < 128 || i == 5 {
                more = false;
            } else {
                weight = weight * 128;
            }
        }
        Ok((value % 0x1_0000_0000) as u32)
    }

    /// The whole bytes after the cursor; a partly read byte is skipped.
    pub fn remaining_bytes(&self) -> (r: Vec<u8>)
        requires
            self.wf(),
        ensures
            r@ == self.bytes().subrange((self.pos() + 7) / 8, self.bytes().len() as int),
    {
        let from = self.bit / 8 + if self.bit % 8 == 0 {
            0
        } else {
            1
        };
        let mut out: Vec<u8> = Vec::new();
        let mut i: usize = from;
        while i < self.data.len()
            invariant
                from <= i <= self.data@.len(),
                from == (self.pos() + 7) / 8,
                out@ =~= self.data@.subrange(from as int, i as int),
            decreases self.data@.len() - i,
        {
            out.push(self.data[i]);
            i = i + 1;
        }
        out
    }

    /// Reads whole bytes up to a zero byte; the zero byte is consumed and
    /// not returned.
    pub fn read_null_bytestring(&mut self) -> (r: Result<Vec<u8>, DecodeError>)
        requires
            old(self).wf(),
        ensures
            ({
                let d = old(self).bytes();
                let p = old(self).pos();
                let n = nul_len(d, p);
                &&& nulstr_end(d, p) <= old(self).total_bits() ==> r is Ok && r->Ok_0@
                    == bytes_at_bit(d, p, n) && old(self).at(final(self), nulstr_end(d, p))
                &&& nulstr_end(d, p) > old(self).total_bits() ==> r == Err::<
                    Vec<u8>,
                    DecodeError,
                >(DecodeError::TruncatedInput) && old(self).at(final(self), p)
            }),
    {
        let ghost d = self.data@;
        let ghost p = self.bit as int;
        let start = self.bit;
        let mut out: Vec<u8> = Vec::new();
        loop
            invariant
                self.data@ == d,
                self.wf(),
                start == p,
                d == old(self).bytes(),
                p == old(self).pos(),
                self.bit == p + 8 * out@.len(),
                out@ == bytes_at_bit(d, p, out@.len()),
                no_nul_before(d, p, out@.len()),
            decreases self.total_bits() - self.pos(),
        {
            let b = match self.read_u8() {
                Ok(b) => b,
                Err(e) => {
                    self.bit = start;
                    proof {
                        lemma_nul_len_skip(d, p, out@.len());
                    }
                    return Err(e);
                },
            };
            if b == 0 {
                proof {
                    lemma_nul_len_skip(d, p, out@.len());
                }
                return Ok(out);
            }
            out.push(b);
            proof {
                assert(out@ =~= bytes_at_bit(d, p, out@.len()));
            }
        }
    }

    /// Reads a zero-terminated string of whole bytes as text.
    pub fn read_nullstring(&mut self) -> (r: Result<String, DecodeError>)
        requires
            old(self).wf(),
        ensures
            ({
                let d = old(self).bytes();
                let p = old(self).pos();
                &&& nulstr_end(d, p) <= old(self).total_bits() ==> r is Ok && r->Ok_0@
                    == decoded_text(bytes_at_bit(d, p, nul_len(d, p))) && old(self).at(
                    final(self),
                    nulstr_end(d, p),
                )
                &&& nulstr_end(d, p) > old(self).total_bits() ==> r == Err::<
                    String,
                    DecodeError,
                >(DecodeError::TruncatedInput) && old(self).at(final(self), p)
            }),
    {
        let bytes = self.read_null_bytestring()?;
        Ok(text_from_bytes(bytes.as_slice()))
    }
}

/// Counting from byte `n`, the number of whole bytes at bit `pos` before
/// the first zero byte, or before the end of the buffer.
pub open spec fn nul_len_from(data: Seq<u8>, pos: int, n: nat) -> nat
    decreases 8 * data.len() - pos - 8 * n,
{
    if pos + 8 * n + 8 > 8 * data.len() || byte_at_bit(data, pos + 8 * n) == 0 {
        n
    } else {
        nul_len_from(data, pos, n + 1)
    }
}

/// Length of the zero-terminated string at bit `pos`.
pub open spec fn nul_len(data: Seq<u8>, pos: int) -> nat {
    nul_len_from(data, pos, 0)
}

/// Where the zero-terminated string at bit `pos` ends, terminator included;
/// past the buffer when no terminator is found.
pub open spec fn nulstr_end(data: Seq<u8>, pos: int) -> int {
    pos + 8 * nul_len(data, pos) + 8
}

proof fn lemma_nul_len_skip(data: Seq<u8>, pos: int, n: nat)
    requires
        no_nul_before(data, pos, n),
        0 <= pos,
        pos + 8 * n <= 8 * data.len(),
    ensures
        nul_len(data, pos) == nul_len_from(data, pos, n),
    decreases n,
{
    if n > 0 {
        let m = (n - 1) as nat;
        assert(byte_at_bit(data, pos + 8 * m) != 0);
        assert(no_nul_before(data, pos, m));
        lemma_nul_len_skip(data, pos, m);
    }
}


/// Where an optional field whose presence bit is at `pos` ends: after the
/// bit alone, or after the bit and `w` value bits.
pub open spec fn opt_next(data: Seq<u8>, pos: int, w: nat) -> int {
    if bit_at(data, pos) {
        pos + 1 + w
    } else {
        pos + 1
    }
}

impl BitReader {
    /// Moves the cursor to bit `p`.
    pub fn set_position(&mut self, p: usize)
        requires
            old(self).wf(),
            p <= old(self).total_bits(),
        ensures
            old(self).at(final(self), p as int),
    {
        self.bit = p;
    }

    /// Reads a presence bit, then a `w`-bit value if the bit is set.
    pub fn read_optional(&mut self, w: usize) -> (r: Result<Option<u32>, DecodeError>)
        requires
            old(self).wf(),
            w <= 32,
        ensures
            ({
                let d = old(self).bytes();
                let p = old(self).pos();
                let end = opt_next(d, p, w as nat);
                &&& end <= old(self).total_bits() ==> r is Ok && old(self).at(final(self), end)
                &&& end > old(self).total_bits() ==> r == Err::<Option<u32>, DecodeError>(
                    DecodeError::TruncatedInput,
                ) && old(self).at(final(self), p)
                &&& r is Ok ==> (r->Ok_0 is Some <==> bit_at(d, p))
                &&& r is Ok && bit_at(d, p) ==> r->Ok_0->0 as nat == bits_value(d, p + 1, w as nat)
            }),
    {
        let start = self.bit;
        let present = self.read_bit()?;
        if !present {
            return Ok(None);
        }
        match self.read_bits(w) {
            Ok(v) => Ok(Some(v)),
            Err(e) => {
                self.bit = start;
                Err(e)
            },
        }
    }
}

/// At a byte boundary the low `n` bits are the low bits of that byte.
pub proof fn lemma_aligned_bits(d: Seq<u8>, k: int, n: nat)
    requires
        0 <= k < d.len(),
        n <= 8,
    ensures
        bits_value(d, 8 * k, n) == d[k] as nat % pow2(n),
    decreases n,
{
    if n == 0 {
        lemma2_to64();
    } else {
        let j = (n - 1) as nat;
        lemma_aligned_bits(d, k, j);
        let x = d[k] as int;
        let pj = pow2(j) as int;
        assert((8 * k + j) / 8 == k);
        assert((8 * k + j) % 8 == j);
        lemma_pow2_unfold(n);
        lemma_pow2_pos(j);
        assert(bit_at(d, 8 * k + j) == ((x / pj) % 2 == 1));
        lemma_mod_breakdown(x, pj, 2);
        assert(pow2(n) == pj * 2);
        let b = (x / pj) % 2;
        assert(b == 0 || b == 1);
        assert(pj * b == if b == 1 {
            pj
        } else {
            0
        }) by (nonlinear_arith)
            requires
                b == 0 || b == 1,
        ;
    }
}

/// The byte at a byte boundary is the stored byte.
pub proof fn lemma_aligned_byte(d: Seq<u8>, k: int)
    requires
        0 <= k < d.len(),
    ensures
        byte_at_bit(d, 8 * k) == d[k],
{
    lemma_aligned_bits(d, k, 8);
    lemma2_to64();
}

proof fn lemma_varint_len_from_bound(data: Seq<u8>, pos: int, i: nat)
    ensures
        varint_len_from(data, pos, i) >= i + 1,
    decreases 4 - i,
{
    if !(i >= 4 || varint_byte(data, pos, i) < 128) {
        lemma_varint_len_from_bound(data, pos, i + 1);
    }
}

proof fn lemma_pow2_increases(a: nat, b: nat)
    requires
        a <= b,
    ensures
        pow2(a) <= pow2(b),
{
    if a < b {
        lemma_pow2_strictly_increases(a, b);
    }
}

} // verus!
