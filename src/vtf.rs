use vstd::prelude::*;

use crate::error::DecodeError;
use crate::lumps::u32_at;
use crate::reader::le_u32;

verus! {

/// Where the resource table of a texture stands: its entry count and offset.
#[derive(Debug, Clone, Copy, PartialEq, Eq, Structural)]
pub struct VtfResourceDictionary {
    pub resource_count: u32,
    pub resource_offset: u32,
}

/// One entry of a texture's resource table.
#[derive(Debug, Clone, Copy)]
pub struct VtfResource {
    pub tag: [u8; 3],
    pub flags: u8,
    pub offset: u32,
}

impl VtfResource {
    /// Reads an 8-byte entry: a 3-byte tag, flags, a 32-bit offset.
    pub fn read(b: &[u8]) -> (r: Result<VtfResource, DecodeError>)
        ensures
            b@.len() < 8 ==> r == Err::<VtfResource, DecodeError>(DecodeError::TruncatedInput),
            b@.len() >= 8 ==> r is Ok && r->Ok_0.tag@ == b@.subrange(0, 3) && r->Ok_0.flags
                == b@[3] && r->Ok_0.offset as nat == le_u32(b@, 4),
    {
        if b.len() < 8 {
            return Err(DecodeError::TruncatedInput);
        }
        let tag = [b[0], b[1], b[2]];
        assert(tag@ =~= b@.subrange(0, 3));
        Ok(VtfResource { tag, flags: b[3], offset: u32_at(b, 4) })
    }
}

/// Pixel formats of a texture, in the order of their stored numbers
/// (`NoFormat` is -1, `Rgba8888` is 0, and so on).
#[derive(Debug, Clone, Copy, PartialEq, Eq, Structural)]
pub enum VtfTextureFormat {
    NoFormat,
    Rgba8888,
    Abgr8888,
    Rgb888,
    Bgr888,
    Rgb565,
    I8,
    Ia88,
    Palette8,
    A8,
    Rgb888Bluescreen,
    Bgr888Bluescreen,
    Argb8888,
    Bgra8888,
    Dxt1,
    Dxt3,
    Dxt5,
    Bgrx8888,
    Bgr565,
    Bgrx5551,
    Bgra4444,
    Dxt1A,
    Bgra5551,
    Uv88,
    Uvwq8888,
    Rgba16161616F,
    Rgba16161616,
    Uvlx8888,
}

/// Bits per pixel of each format; block-compressed formats give their
/// average.
pub open spec fn format_bpp(f: VtfTextureFormat) -> u32 {
    match f {
        VtfTextureFormat::NoFormat => 0,
        VtfTextureFormat::Rgba8888 => 32,
        VtfTextureFormat::Abgr8888 => 32,
        VtfTextureFormat::Rgb888 => 24,
        VtfTextureFormat::Bgr888 => 24,
        VtfTextureFormat::Rgb565 => 16,
        VtfTextureFormat::I8 => 8,
        VtfTextureFormat::Ia88 => 16,
        VtfTextureFormat::Palette8 => 8,
        VtfTextureFormat::A8 => 8,
        VtfTextureFormat::Rgb888Bluescreen => 24,
        VtfTextureFormat::Bgr888Bluescreen => 24,
        VtfTextureFormat::Argb8888 => 32,
        VtfTextureFormat::Bgra8888 => 32,
        VtfTextureFormat::Dxt1 => 4,
        VtfTextureFormat::Dxt3 => 8,
        VtfTextureFormat::Dxt5 => 8,
        VtfTextureFormat::Bgrx8888 => 32,
        VtfTextureFormat::Bgr565 => 16,
        VtfTextureFormat::Bgrx5551 => 16,
        VtfTextureFormat::Bgra4444 => 16,
        VtfTextureFormat::Dxt1A => 4,
        VtfTextureFormat::Bgra5551 => 16,
        VtfTextureFormat::Uv88 => 16,
        VtfTextureFormat::Uvwq8888 => 32,
        VtfTextureFormat::Rgba16161616F => 64,
        VtfTextureFormat::Rgba16161616 => 64,
        VtfTextureFormat::Uvlx8888 => 32,
    }
}

/// Bytes per 4x4 block of the block-compressed formats; 0 for the others.
pub open spec fn block_bytes(f: VtfTextureFormat) -> nat {
    match f {
        VtfTextureFormat::Dxt1 | VtfTextureFormat::Dxt1A => 8,
        VtfTextureFormat::Dxt3 | VtfTextureFormat::Dxt5 => 16,
        _ => 0,
    }
}

pub open spec fn ceil4(v: nat) -> nat {
    (v + 3) / 4
}

/// Byte size of image data of this format and size.
pub open spec fn format_data_size(f: VtfTextureFormat, width: nat, height: nat, depth: nat) -> nat {
    if block_bytes(f) > 0 {
        ceil4(width) * ceil4(height) * block_bytes(f)
    } else {
        (format_bpp(f) as nat * width * height * depth / 8) as nat
    }
}

impl VtfTextureFormat {
    pub fn bpp(&self) -> (r: u32)
        ensures
            r == format_bpp(*self),
    {
        match self {
            VtfTextureFormat::NoFormat => 0,
            VtfTextureFormat::Rgba8888 => 32,
            VtfTextureFormat::Abgr8888 => 32,
            VtfTextureFormat::Rgb888 => 24,
            VtfTextureFormat::Bgr888 => 24,
            VtfTextureFormat::Rgb565 => 16,
            VtfTextureFormat::I8 => 8,
            VtfTextureFormat::Ia88 => 16,
            VtfTextureFormat::Palette8 => 8,
            VtfTextureFormat::A8 => 8,
            VtfTextureFormat::Rgb888Bluescreen => 24,
            VtfTextureFormat::Bgr888Bluescreen => 24,
            VtfTextureFormat::Argb8888 => 32,
            VtfTextureFormat::Bgra8888 => 32,
            VtfTextureFormat::Dxt1 => 4,
            VtfTextureFormat::Dxt3 => 8,
            VtfTextureFormat::Dxt5 => 8,
            VtfTextureFormat::Bgrx8888 => 32,
            VtfTextureFormat::Bgr565 => 16,
            VtfTextureFormat::Bgrx5551 => 16,
            VtfTextureFormat::Bgra4444 => 16,
            VtfTextureFormat::Dxt1A => 4,
            VtfTextureFormat::Bgra5551 => 16,
            VtfTextureFormat::Uv88 => 16,
            VtfTextureFormat::Uvwq8888 => 32,
            VtfTextureFormat::Rgba16161616F => 64,
            VtfTextureFormat::Rgba16161616 => 64,
            VtfTextureFormat::Uvlx8888 => 32,
        }
    }

    /// Byte size of a `width` x `height` x `depth` image in this format:
    /// whole 4x4 blocks for block-compressed formats (depth not counted),
    /// else bits per pixel times the pixel count, in bytes.
    pub fn data_size(&self, width: u32, height: u32, depth: u32) -> (r: u32)
        requires
            block_bytes(*self) > 0 ==> ceil4(width as nat) * ceil4(height as nat) * block_bytes(
                *self,
            ) <= u32::MAX,
            block_bytes(*self) == 0 ==> format_bpp(*self) * width * height * depth <= u32::MAX,
        ensures
            r == format_data_size(*self, width as nat, height as nat, depth as nat),
    {
        let blocks = match self {
            VtfTextureFormat::Dxt1 | VtfTextureFormat::Dxt1A => 8,
            VtfTextureFormat::Dxt3 | VtfTextureFormat::Dxt5 => 16,
            _ => 0,
        };
        if blocks > 0 {
            let bw = (width as u64 + 3) / 4;
            let bh = (height as u64 + 3) / 4;
            proof {
                assert(bw * bh * blocks <= u32::MAX);
                assert(bw * bh <= u32::MAX) by (nonlinear_arith)
                    requires
                        bw * bh * blocks <= u32::MAX,
                        blocks > 0,
                ;
            }
            (bw * bh * blocks) as u32
        } else {
            let bpp = self.bpp() as u64;
            if width == 0 || height == 0 || depth == 0 {
                proof {
                    assert(bpp * width * height * depth == 0) by (nonlinear_arith)
                        requires
                            width == 0 || height == 0 || depth == 0,
                    ;
                }
                return 0;
            }
            proof {
                assert(bpp * width <= u32::MAX && bpp * width * height <= u32::MAX) by (
                nonlinear_arith)
                    requires
                        bpp * width * height * depth <= u32::MAX,
                        width > 0 && height > 0 && depth > 0,
                        bpp >= 0,
                ;
            }
            ((bpp * width as u64 * height as u64 * depth as u64) / 8) as u32
        }
    }
}

} // verus!
